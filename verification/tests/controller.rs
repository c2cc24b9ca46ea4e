use phetch::gopher::{parse_locator, ItemType, Locator};
use phetch::page::{Error, Key, Kind};
use phetch::ui::{confirm, help_topic, prompt, Input, Mode, Outcome, PromptStep, Request, UI};

fn b(s: &str) -> Vec<u8> {
    s.as_bytes().to_vec()
}

const MENU: &[u8] = b"iWelcome\r\n1Alpha\t/a\thost\t70\r\n0Beta\t/b\thost\t71\r\n9Tar\t/f.tar\thost\t70\r\n.\r\n";

const SIZE: Option<(u16, u16)> = Some((80, 24));

fn load(ui: &mut UI, url: &str, body: &[u8]) {
    let asked = ui.open(url.as_bytes());
    assert_eq!(asked, Some(Request::Fetch(parse_locator(url.as_bytes()))));
    ui.resolve(Outcome::Body(body.to_vec()));
}

fn three_pages() -> UI {
    let mut ui = UI::new(80, 24);
    load(&mut ui, "gopher://host/1/one", MENU);
    load(&mut ui, "gopher://host/1/two", MENU);
    load(&mut ui, "gopher://host/1/three", MENU);
    ui
}

fn selectors(ui: &UI) -> Vec<Vec<u8>> {
    (0..ui.len()).map(|i| ui.page(i).unwrap().locator().selector.clone()).collect()
}

#[test]
fn new_controller_is_empty_and_out_of_date() {
    let ui = UI::new(80, 24);
    assert_eq!(ui.len(), 0);
    assert_eq!(ui.focused(), 0);
    assert!(ui.dirty());
    assert!(ui.running());
    assert!(!ui.busy());
    assert_eq!(ui.size(), (80, 24));
    assert_eq!(ui.status(), &b(""));
    assert_eq!(ui.mode(), &Mode::Browse);
    assert!(ui.page(0).is_none());
}

#[test]
fn first_page_takes_index_zero() {
    let mut ui = UI::new(80, 24);
    load(&mut ui, "gopher://host/1/one", MENU);
    assert_eq!(ui.len(), 1);
    assert_eq!(ui.focused(), 0);
    assert_eq!(ui.page(0).unwrap().kind(), Kind::Menu);
    assert!(ui.dirty());
    assert!(!ui.busy());
}

#[test]
fn pages_pile_up_in_order() {
    let ui = three_pages();
    assert_eq!(selectors(&ui), vec![b("/one"), b("/two"), b("/three")]);
    assert_eq!(ui.focused(), 2);
}

#[test]
fn open_mid_stack_drops_what_lay_ahead() {
    let mut ui = three_pages();
    assert_eq!(ui.update(Key::Left), None);
    assert_eq!(ui.focused(), 1);
    load(&mut ui, "gopher://host/0/q", b"text");
    assert_eq!(selectors(&ui), vec![b("/one"), b("/two"), b("/q")]);
    assert_eq!(ui.focused(), 2);
    assert_eq!(ui.page(2).unwrap().kind(), Kind::Document);
}

#[test]
fn open_at_the_first_page_leaves_two() {
    let mut ui = three_pages();
    ui.update(Key::Left);
    ui.update(Key::Left);
    load(&mut ui, "gopher://host/1/q", MENU);
    assert_eq!(selectors(&ui), vec![b("/one"), b("/q")]);
    assert_eq!(ui.focused(), 1);
}

#[test]
fn self_open_changes_nothing() {
    let mut ui = three_pages();
    ui.update(Key::Left);
    ui.draw(SIZE);
    let before = format!("{:?}", ui);
    assert_eq!(ui.open(b"gopher://host/1/two"), None);
    assert_eq!(ui.open(b"host:70/1/two"), None);
    assert_eq!(ui.open_locator(Locator::new(ItemType::Menu, b("host"), b("70"), b("/two"))), None);
    assert_eq!(format!("{:?}", ui), before);
    assert!(!ui.dirty());
    assert!(!ui.busy());
}

#[test]
fn back_and_forward_stop_at_the_ends() {
    let mut ui = three_pages();
    ui.draw(SIZE);
    let at_last = format!("{:?}", ui);
    assert_eq!(ui.update(Key::Right), None);
    assert_eq!(format!("{:?}", ui), at_last);
    ui.update(Key::Left);
    ui.update(Key::Left);
    assert_eq!(ui.focused(), 0);
    ui.draw(SIZE);
    let at_first = format!("{:?}", ui);
    assert_eq!(ui.update(Key::Left), None);
    assert_eq!(ui.update(Key::Backspace), None);
    assert_eq!(format!("{:?}", ui), at_first);
    assert!(!ui.dirty());
    assert_eq!(ui.update(Key::Right), None);
    assert_eq!(ui.focused(), 1);
    assert!(ui.dirty());
}

#[test]
fn back_and_forward_on_a_single_page() {
    let mut ui = UI::new(80, 24);
    load(&mut ui, "gopher://host/1/one", MENU);
    ui.draw(SIZE);
    ui.update(Key::Left);
    ui.update(Key::Right);
    assert_eq!(ui.focused(), 0);
    assert!(!ui.dirty());
}

#[test]
fn keys_reach_nothing_on_an_empty_stack() {
    let mut ui = UI::new(80, 24);
    ui.draw(SIZE);
    for key in [Key::Left, Key::Right, Key::Down, Key::Char('\n'), Key::Char('x'), Key::Ctrl('r'), Key::Ctrl('u'), Key::Ctrl('y')] {
        assert_eq!(ui.update(key), None);
    }
    assert!(!ui.dirty());
    assert!(ui.running());
    assert_eq!(ui.update(Key::Ctrl('q')), None);
    assert!(!ui.running());
}

#[test]
fn quit_stops_the_session() {
    let mut ui = three_pages();
    assert_eq!(ui.update(Key::Ctrl('q')), None);
    assert!(!ui.running());
    let mut other = three_pages();
    assert_eq!(other.update(Key::Ctrl('c')), None);
    assert!(!other.running());
}

#[test]
fn ctrl_c_quits_after_a_status_line() {
    let mut ui = three_pages();
    ui.set_status(b("note"));
    assert_eq!(ui.update(Key::Ctrl('c')), None);
    assert_eq!(ui.status(), &b(""));
    assert!(!ui.running());
}

#[test]
fn ctrl_c_clears_typed_text_first() {
    let mut ui = three_pages();
    ui.update(Key::Char('b'));
    ui.update(Key::Char('e'));
    assert_eq!(ui.page(2).unwrap().input(), &b("be"));
    ui.draw(SIZE);
    assert_eq!(ui.update(Key::Ctrl('c')), None);
    assert!(ui.running());
    assert!(ui.dirty());
    assert_eq!(ui.page(2).unwrap().input(), &b(""));
    ui.draw(SIZE);
    assert_eq!(ui.update(Key::Ctrl('c')), None);
    assert!(!ui.running());
}

#[test]
fn delete_edits_typed_text_and_stays_on_the_page() {
    let mut ui = three_pages();
    ui.update(Key::Char('b'));
    ui.draw(SIZE);
    assert_eq!(ui.update(Key::Delete), None);
    assert!(ui.dirty());
    assert_eq!(ui.page(2).unwrap().input(), &b(""));
    ui.draw(SIZE);
    assert_eq!(ui.update(Key::Delete), None);
    assert!(!ui.dirty());
    assert_eq!(ui.focused(), 2);
}

#[test]
fn enter_on_a_link_asks_for_it() {
    let mut ui = three_pages();
    let asked = ui.update(Key::Char('\n'));
    let target = Locator::new(ItemType::Menu, b("host"), b("70"), b("/a"));
    assert_eq!(asked, Some(Request::Fetch(target.duplicate())));
    assert!(ui.busy());
    assert_eq!(ui.mode(), &Mode::Busy(Request::Fetch(target)));
}

#[test]
fn nothing_more_is_asked_while_a_request_is_out() {
    let mut ui = three_pages();
    ui.draw(SIZE);
    assert!(ui.update(Key::Char('\n')).is_some());
    let waiting = format!("{:?}", ui);
    for key in [Key::Char('\n'), Key::Down, Key::Left, Key::Ctrl('q'), Key::Ctrl('h'), Key::Ctrl('g'), Key::Ctrl('y'), Key::Char('2')] {
        assert_eq!(ui.update(key), None);
    }
    assert_eq!(ui.open(b"gopher://elsewhere/1/x"), None);
    assert_eq!(ui.open(b"https://example.com"), None);
    assert_eq!(ui.open_locator(Locator::new(ItemType::Text, b("h"), b("70"), b("/t"))), None);
    assert_eq!(format!("{:?}", ui), waiting);
    ui.resolve(Outcome::Body(MENU.to_vec()));
    assert!(!ui.busy());
    assert_eq!(ui.len(), 4);
    assert_eq!(ui.update(Key::Char('\n')), None);
    assert_eq!(ui.update(Key::Down), None);
    assert!(ui.update(Key::Char('\n')).is_some());
}

#[test]
fn moving_the_cursor_marks_the_screen() {
    let mut ui = three_pages();
    ui.draw(SIZE);
    assert_eq!(ui.update(Key::Down), None);
    assert!(ui.dirty());
    assert_eq!(ui.page(2).unwrap().selected(), 2);
    ui.draw(SIZE);
    assert_eq!(ui.update(Key::Esc), None);
    assert!(!ui.dirty());
    assert_eq!(ui.update(Key::Up), None);
    assert!(ui.dirty());
    ui.draw(SIZE);
    assert_eq!(ui.update(Key::Up), None);
    assert!(!ui.dirty());
    assert_eq!(ui.update(Key::Char('b')), None);
    assert!(ui.dirty());
    assert_eq!(ui.page(2).unwrap().selected(), 2);
    assert_eq!(ui.page(2).unwrap().input(), &b("b"));
}

#[test]
fn failure_becomes_a_status_line() {
    let mut ui = three_pages();
    ui.draw(SIZE);
    ui.update(Key::Char('\n'));
    ui.resolve(Outcome::Failed(Error::Network(b("connection refused"))));
    assert_eq!(ui.status(), &b("\x1b[38;5;9mconnection refused"));
    assert!(ui.dirty());
    assert!(!ui.busy());
    assert_eq!(ui.len(), 3);
    assert_eq!(ui.focused(), 2);
}

#[test]
fn response_of_a_kind_that_cannot_be_shown() {
    let mut ui = three_pages();
    let odd = Locator::new(ItemType::Unsupported, b("host"), b("70"), b("/x"));
    assert_eq!(ui.open_locator(odd.duplicate()), Some(Request::Fetch(odd)));
    ui.resolve(Outcome::Body(b("whatever")));
    assert_eq!(ui.status(), &b("\x1b[38;5;9munsupported response type"));
    assert_eq!(ui.len(), 3);
    let info = Locator::new(ItemType::Info, b("host"), b("70"), b("/x"));
    assert!(ui.open_locator(info).is_some());
    ui.resolve(Outcome::Body(b("whatever")));
    assert_eq!(ui.status(), &b("\x1b[38;5;9munsupported response type"));
    assert_eq!(ui.len(), 3);
}

#[test]
fn a_key_clears_the_status_and_still_counts() {
    let mut ui = three_pages();
    ui.set_status(b("note"));
    ui.draw(SIZE);
    assert_eq!(ui.update(Key::Left), None);
    assert_eq!(ui.status(), &b(""));
    assert_eq!(ui.focused(), 1);
    ui.set_status(b("note"));
    ui.draw(SIZE);
    assert_eq!(ui.update(Key::Esc), None);
    assert_eq!(ui.status(), &b(""));
    assert!(ui.dirty());
    ui.set_status(b("note"));
    assert_eq!(ui.update(Key::Ctrl('q')), None);
    assert!(!ui.running());
}

#[test]
fn download_is_asked_about_first() {
    let mut ui = three_pages();
    ui.update(Key::Down);
    ui.update(Key::Down);
    ui.draw(SIZE);
    let target = Locator::new(ItemType::Binary, b("host"), b("70"), b("/f.tar"));
    assert_eq!(ui.update(Key::Char('\n')), None);
    assert_eq!(ui.mode(), &Mode::Confirm(target.duplicate()));
    assert!(ui.dirty());
    assert!(!ui.busy());
    assert_eq!(
        ui.render_status(),
        b("\x1b[39m\x1b[24;1H\x1b[2KDownload gopher://host:70/9/f.tar? [Y/n]: \x1b[?25h")
    );
    assert_eq!(ui.update(Key::Char('y')), Some(Request::Download(target.duplicate())));
    assert_eq!(ui.mode(), &Mode::Busy(Request::Download(target)));
    ui.resolve(Outcome::Saved(b("./f.tar"), 1_234_567));
    assert_eq!(ui.status(), &b("Download complete! 1Mb saved to ./f.tar"));
    assert_eq!(ui.len(), 3);
    assert_eq!(ui.focused(), 2);
    assert_eq!(ui.mode(), &Mode::Browse);
}

#[test]
fn download_declined() {
    let mut ui = three_pages();
    assert_eq!(ui.open(b"gopher://host/9/f.tar"), None);
    assert!(matches!(ui.mode(), Mode::Confirm(_)));
    ui.draw(SIZE);
    assert_eq!(ui.update(Key::Char('n')), None);
    assert_eq!(ui.mode(), &Mode::Browse);
    assert!(ui.dirty());
    assert_eq!(ui.len(), 3);
    assert_eq!(ui.open(b"gopher://host/9/f.tar"), None);
    assert_eq!(ui.update(Key::Esc), None);
    assert_eq!(ui.mode(), &Mode::Browse);
    assert_eq!(ui.open(b"gopher://host/9/f.tar"), None);
    assert!(ui.update(Key::Char('\n')).is_some());
}

#[test]
fn confirm_takes_enter_and_y() {
    assert!(confirm(Key::Char('\n')));
    assert!(confirm(Key::Char('y')));
    assert!(confirm(Key::Char('Y')));
    assert!(!confirm(Key::Char('n')));
    assert!(!confirm(Key::Char(' ')));
    assert!(!confirm(Key::Esc));
    assert!(!confirm(Key::Ctrl('y')));
    assert!(!confirm(Key::Alt('y')));
}

#[test]
fn prompt_steps() {
    assert_eq!(prompt(b("ab"), Key::Char('c')), PromptStep::Pending(b("abc")));
    assert_eq!(prompt(b(""), Key::Char('\u{e9}')), PromptStep::Pending("\u{e9}".as_bytes().to_vec()));
    assert_eq!(prompt(b("ab"), Key::Char('\n')), PromptStep::Entered(b("ab")));
    assert_eq!(prompt(b(""), Key::Char('\n')), PromptStep::Entered(b("")));
    assert_eq!(prompt(b("ab"), Key::Backspace), PromptStep::Pending(b("a")));
    assert_eq!(prompt(b("ab"), Key::Delete), PromptStep::Pending(b("a")));
    assert_eq!(prompt(b(""), Key::Backspace), PromptStep::Pending(b("")));
    assert_eq!(prompt("a\u{20ac}".as_bytes().to_vec(), Key::Backspace), PromptStep::Pending(b("a")));
    assert_eq!(prompt(b("ab"), Key::Esc), PromptStep::Pending(b("")));
    assert_eq!(prompt(b("ab"), Key::Ctrl('c')), PromptStep::Pending(b("")));
    assert_eq!(prompt(b(""), Key::Esc), PromptStep::Cancelled);
    assert_eq!(prompt(b(""), Key::Ctrl('c')), PromptStep::Cancelled);
    assert_eq!(prompt(b("ab"), Key::Left), PromptStep::Pending(b("ab")));
    assert_eq!(prompt(b("ab"), Key::Ctrl('q')), PromptStep::Pending(b("ab")));
}

#[test]
fn locator_prompt_opens_what_was_typed() {
    let mut ui = three_pages();
    ui.draw(SIZE);
    assert_eq!(ui.update(Key::Ctrl('g')), None);
    assert_eq!(ui.mode(), &Mode::Prompt(b("")));
    assert!(ui.dirty());
    for c in "example.comx".chars() {
        assert_eq!(ui.update(Key::Char(c)), None);
    }
    assert_eq!(ui.update(Key::Backspace), None);
    assert_eq!(ui.mode(), &Mode::Prompt(b("example.com")));
    assert_eq!(ui.render_status(), b("\x1b[39m\x1b[24;1H\x1b[2KGo to URL: example.com\x1b[?25h"));
    assert_eq!(ui.page(2).unwrap().input(), &b(""));
    let asked = ui.update(Key::Char('\n'));
    assert_eq!(
        asked,
        Some(Request::Fetch(Locator::new(ItemType::Menu, b("example.com"), b("70"), b(""))))
    );
    assert!(ui.busy());
}

#[test]
fn locator_prompt_can_be_left() {
    let mut ui = three_pages();
    ui.update(Key::Ctrl('g'));
    ui.update(Key::Char('a'));
    assert_eq!(ui.update(Key::Esc), None);
    assert_eq!(ui.mode(), &Mode::Prompt(b("")));
    assert_eq!(ui.update(Key::Esc), None);
    assert_eq!(ui.mode(), &Mode::Browse);
    assert!(ui.running());
    assert_eq!(ui.len(), 3);
}

#[test]
fn foreign_locators_go_to_the_system() {
    let mut ui = three_pages();
    assert_eq!(ui.open(b"https://example.com/x"), Some(Request::External(b("https://example.com/x"))));
    assert!(ui.busy());
    ui.resolve(Outcome::Done);
    assert!(!ui.busy());
    assert_eq!(ui.len(), 3);
    assert_eq!(ui.focused(), 2);
    assert_eq!(ui.status(), &b(""));
    assert_eq!(ui.open(b"mailto://someone"), Some(Request::External(b("mailto://someone"))));
    ui.resolve(Outcome::Failed(Error::Io(b("no handler"))));
    assert_eq!(ui.status(), &b("\x1b[38;5;9mno handler"));
}

#[test]
fn help_pages_are_looked_up() {
    let mut ui = three_pages();
    let root = Locator::new(ItemType::Menu, b("help"), b("70"), b(""));
    assert_eq!(ui.update(Key::Ctrl('h')), Some(Request::Help(root.duplicate())));
    assert_eq!(help_topic(&root), b(""));
    ui.resolve(Outcome::Body(b"iHelp\r\n1Types\t/types\thelp\t70\r\n".to_vec()));
    assert_eq!(ui.len(), 4);
    assert_eq!(ui.page(3).unwrap().links().len(), 1);
    let history = Locator::new(ItemType::Menu, b("help"), b("70"), b("/history"));
    assert_eq!(ui.update(Key::Ctrl('e')), Some(Request::Help(history.duplicate())));
    assert_eq!(help_topic(&history), b("history"));
    ui.resolve(Outcome::Failed(Error::NotFound(b("Help file not found: history"))));
    assert_eq!(ui.status(), &b("\x1b[38;5;9mHelp file not found: history"));
    assert_eq!(ui.len(), 4);
    assert_eq!(help_topic(&Locator::new(ItemType::Menu, b("help"), b("70"), b("//a/b"))), b("/a/b"));
    assert_eq!(help_topic(&Locator::new(ItemType::Menu, b("help"), b("70"), b("keys"))), b("keys"));
}

#[test]
fn source_view_is_a_new_page() {
    let mut ui = three_pages();
    ui.update(Key::Left);
    ui.update(Key::Down);
    ui.draw(SIZE);
    assert_eq!(ui.update(Key::Ctrl('r')), None);
    assert_eq!(ui.len(), 3);
    assert_eq!(ui.focused(), 2);
    assert!(ui.dirty());
    assert_eq!(selectors(&ui), vec![b("/one"), b("/two"), b("/two")]);
    assert_eq!(ui.page(1).unwrap().kind(), Kind::Menu);
    assert_eq!(ui.page(1).unwrap().selected(), 2);
    assert_eq!(ui.page(2).unwrap().kind(), Kind::Document);
    assert_eq!(ui.page(2).unwrap().raw(), &MENU.to_vec());
}

#[test]
fn current_locator_on_the_status_line() {
    let mut ui = three_pages();
    ui.draw(SIZE);
    assert_eq!(ui.update(Key::Ctrl('u')), None);
    assert_eq!(ui.status(), &b("Current URL: gopher://host:70/1/three"));
    assert!(ui.dirty());
    assert_eq!(ui.render_status(), b("\x1b[24;1H\x1b[2KCurrent URL: gopher://host:70/1/three\x1b[39m"));
}

#[test]
fn copy_to_clipboard_reports_back() {
    let mut ui = three_pages();
    assert_eq!(ui.update(Key::Ctrl('y')), Some(Request::Clipboard(b("gopher://host:70/1/three"))));
    assert!(ui.busy());
    ui.resolve(Outcome::Done);
    assert_eq!(ui.status(), &b("Copied gopher://host:70/1/three to clipboard."));
    assert_eq!(ui.update(Key::Ctrl('y')), Some(Request::Clipboard(b("gopher://host:70/1/three"))));
    ui.resolve(Outcome::Failed(Error::Io(b("Clipboard error: xclip"))));
    assert_eq!(ui.status(), &b("\x1b[38;5;9mClipboard error: xclip"));
}

#[test]
fn outcome_that_does_not_fit_only_ends_the_wait() {
    let mut ui = three_pages();
    ui.update(Key::Char('\n'));
    ui.resolve(Outcome::Saved(b("x"), 1));
    assert!(!ui.busy());
    assert_eq!(ui.status(), &b(""));
    assert_eq!(ui.len(), 3);
    ui.update(Key::Ctrl('y'));
    ui.resolve(Outcome::Body(b("x")));
    assert!(!ui.busy());
    assert_eq!(ui.len(), 3);
    assert_eq!(ui.status(), &b(""));
}

#[test]
fn outcome_without_a_request_is_ignored() {
    let mut ui = three_pages();
    ui.draw(SIZE);
    let before = format!("{:?}", ui);
    ui.resolve(Outcome::Body(b("x")));
    ui.resolve(Outcome::Done);
    ui.resolve(Outcome::Failed(Error::Network(b("late"))));
    assert_eq!(format!("{:?}", ui), before);
    ui.update(Key::Ctrl('g'));
    ui.resolve(Outcome::Done);
    assert_eq!(ui.mode(), &Mode::Prompt(b("")));
}

#[test]
fn draw_gives_one_frame_per_change() {
    let mut ui = UI::new(80, 24);
    assert_eq!(ui.draw(SIZE), Some(b("\x1b[2J\x1b[1;1H\x1b[?25lNo content to display.")));
    assert!(!ui.dirty());
    assert_eq!(ui.draw(SIZE), None);
    load(&mut ui, "gopher://host/1/one", b"iHi\r\n1A\t/a\th\t70\r\n");
    let frame = ui.draw(Some((80, 5))).unwrap();
    assert_eq!(
        frame,
        b("\x1b[2J\x1b[1;1H\x1b[?25l   \x1b[0m   \x1b[93mHi\r\x1b[0m\r\n\x1b[90;1m*\x1b[1m \x1b[95m 1. \x1b[94mA\r\n\x1b[0m")
    );
    assert_eq!(ui.size(), (80, 5));
    assert_eq!(ui.draw(Some((80, 5))), None);
    ui.set_status(b("note"));
    let frame = ui.draw(Some((80, 3))).unwrap();
    assert_eq!(
        frame,
        b("\x1b[2J\x1b[1;1H\x1b[?25l   \x1b[0m   \x1b[93mHi\r\x1b[0m\r\n\x1b[3;1H\x1b[2Knote\x1b[39m")
    );
    assert_eq!(ui.draw(Some((80, 3))), None);
}

#[test]
fn draw_without_a_size() {
    let mut ui = three_pages();
    let frame = ui.draw(None).unwrap();
    assert_eq!(
        frame,
        b("\x1b[2J\x1b[1;1H\x1b[?25lError getting terminal size. Please file a bug: https://github.com/dvkt/phetch/issues/new")
    );
    assert_eq!(ui.size(), (80, 24));
}

#[test]
fn render_takes_note_of_the_size() {
    let mut ui = UI::new(1, 1);
    load(&mut ui, "gopher://host/0/t", b"a\nb\nc\n");
    assert_eq!(ui.render(Some((10, 4))), b("a\nb\n"));
    assert_eq!(ui.size(), (10, 4));
    assert_eq!(ui.render(Some((10, 9))), b("a\nb\nc\n"));
    ui.term_size(7, 7);
    assert_eq!(ui.size(), (7, 7));
}

#[test]
fn run_plays_a_session() {
    let mut ui = UI::new(80, 24);
    let inputs = vec![
        Input::Key(Key::Ctrl('g')),
        Input::Key(Key::Char('h')),
        Input::Key(Key::Char('\n')),
        Input::Key(Key::Char('\n')),
        Input::Outcome(Outcome::Body(MENU.to_vec())),
        Input::Key(Key::Down),
        Input::Key(Key::Char('\n')),
        Input::Key(Key::Ctrl('q')),
        Input::Outcome(Outcome::Body(b("some text"))),
        Input::Key(Key::Left),
        Input::Key(Key::Ctrl('q')),
        Input::Key(Key::Right),
        Input::Key(Key::Char('\n')),
    ];
    let out = ui.run(&inputs, SIZE);
    assert_eq!(
        out.requests,
        vec![
            Request::Fetch(Locator::new(ItemType::Menu, b("h"), b("70"), b(""))),
            Request::Fetch(Locator::new(ItemType::Text, b("host"), b("71"), b("/b"))),
        ]
    );
    assert!(!ui.running());
    assert_eq!(ui.len(), 2);
    assert_eq!(ui.focused(), 0);
    assert_eq!(out.frames.len(), 8);
    assert_eq!(out.frames[0], b("\x1b[2J\x1b[1;1H\x1b[?25lNo content to display."));
    assert_eq!(
        out.frames[1],
        b("\x1b[2J\x1b[1;1H\x1b[?25lNo content to display.\x1b[39m\x1b[24;1H\x1b[2KGo to URL: \x1b[?25h")
    );
    assert_eq!(
        out.frames[2],
        b("\x1b[2J\x1b[1;1H\x1b[?25lNo content to display.\x1b[39m\x1b[24;1H\x1b[2KGo to URL: h\x1b[?25h")
    );
    assert_eq!(
        out.frames[3],
        b("\x1b[2J\x1b[1;1H\x1b[?25lNo content to display.")
    );
    let page_one = "   \x1b[0m   \x1b[93mWelcome\r\x1b[0m\r\n\x1b[90;1m*\x1b[1m \x1b[95m 1. \x1b[94mAlpha\r\n\x1b[0m  \x1b[95m 2. \x1b[92mBeta\r\n\x1b[0m  \x1b[95m 3. \x1b[96mTar\r\n\x1b[0m";
    assert_eq!(out.frames[4], b(&format!("\x1b[2J\x1b[1;1H\x1b[?25l{}", page_one)));
    let page_two = "   \x1b[0m   \x1b[93mWelcome\r\x1b[0m\r\n  \x1b[95m 1. \x1b[94mAlpha\r\n\x1b[0m\x1b[90;1m*\x1b[1m \x1b[95m 2. \x1b[92mBeta\r\n\x1b[0m  \x1b[95m 3. \x1b[96mTar\r\n\x1b[0m";
    assert_eq!(out.frames[5], b(&format!("\x1b[2J\x1b[1;1H\x1b[?25l{}", page_two)));
    assert_eq!(out.frames[6], b("\x1b[2J\x1b[1;1H\x1b[?25lsome text"));
    assert_eq!(out.frames[7], out.frames[5]);
}

#[test]
fn run_on_nothing() {
    let mut ui = three_pages();
    let out = ui.run(&vec![], SIZE);
    assert_eq!(out.requests, vec![]);
    assert_eq!(out.frames, Vec::<Vec<u8>>::new());
    assert_eq!(ui.len(), 3);
    assert!(ui.running());
    assert!(ui.dirty());
}

#[test]
fn run_draws_only_what_changed() {
    let mut ui = three_pages();
    let inputs = vec![
        Input::Key(Key::Esc),
        Input::Key(Key::Esc),
        Input::Key(Key::Left),
        Input::Key(Key::Esc),
        Input::Key(Key::Esc),
    ];
    let out = ui.run(&inputs, SIZE);
    assert_eq!(out.requests, vec![]);
    assert_eq!(out.frames.len(), 2);
    assert_eq!(out.frames[0], out.frames[1]);
    assert!(!ui.dirty());
}

#[test]
fn visited_leaves_help_out() {
    let mut ui = three_pages();
    ui.update(Key::Ctrl('h'));
    ui.resolve(Outcome::Body(b"iHelp\r\n".to_vec()));
    load(&mut ui, "gopher://other:7070/0/t", b"t");
    assert_eq!(
        ui.visited(),
        vec![
            b("gopher://host:70/1/one"),
            b("gopher://host:70/1/two"),
            b("gopher://host:70/1/three"),
            b("gopher://other:7070/0/t"),
        ]
    );
    assert_eq!(UI::new(1, 1).visited(), Vec::<Vec<u8>>::new());
}

#[test]
fn copies_are_equal() {
    let r = Request::Download(Locator::new(ItemType::Binary, b("h"), b("70"), b("/f")));
    assert_eq!(r.duplicate(), r);
    let o = Outcome::Failed(Error::Config(b("no home")));
    assert_eq!(o.duplicate(), o);
    let s = Outcome::Saved(b("p"), 9);
    assert_eq!(s.duplicate(), s);
}
