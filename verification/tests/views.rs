use phetch::gopher::{ItemType, Locator};
use phetch::page::{Action, Key, Page};
use phetch::ui::view::View;

fn b(s: &str) -> Vec<u8> {
    s.as_bytes().to_vec()
}

fn at(item_type: ItemType) -> Locator {
    Locator::new(item_type, b("example.com"), b("70"), b("/x"))
}

fn press<V: View>(view: &mut V, keys: &[Key]) -> Vec<Action> {
    keys.iter().map(|k| view.respond(*k)).collect()
}

fn show<V: View>(view: &mut V, rows: u16) -> Vec<u8> {
    view.term_size(80, rows);
    view.render()
}

#[test]
fn a_menu_is_a_view() {
    let body = b"1A\t/a\th\t70\r\n0B\t/b\th\t70\r\n";
    let mut page = Page::menu(at(ItemType::Menu), body.to_vec());
    assert_eq!(View::url(&page), b("gopher://example.com:70/1/x"));
    assert_eq!(View::raw(&page), body.to_vec());
    let actions = press(&mut page, &[Key::Down, Key::Char('\n'), Key::Left, Key::Ctrl('q')]);
    assert_eq!(
        actions,
        vec![
            Action::Idle,
            Action::Fetch(Locator::new(ItemType::Text, b("h"), b("70"), b("/b"))),
            Action::Back,
            Action::Quit,
        ]
    );
    assert_eq!(show(&mut page, 3), b("  \x1b[95m 1. \x1b[94mA\r\n\x1b[0m"));
    assert_eq!(
        show(&mut page, 4),
        b("  \x1b[95m 1. \x1b[94mA\r\n\x1b[0m\x1b[90;1m*\x1b[1m \x1b[95m 2. \x1b[92mB\r\n\x1b[0m")
    );
}

#[test]
fn a_document_is_a_view() {
    let mut page = Page::document(at(ItemType::Text), b("one\ntwo\nthree\n"));
    assert_eq!(View::url(&page), b("gopher://example.com:70/0/x"));
    assert_eq!(View::raw(&page), b("one\ntwo\nthree\n"));
    let actions = press(&mut page, &[Key::Down, Key::Backspace, Key::Right, Key::Char('x')]);
    assert_eq!(actions, vec![Action::Idle, Action::Back, Action::Forward, Action::Idle]);
    assert_eq!(show(&mut page, 4), b("one\ntwo\n"));
}
