use phetch::bytes::{
    bytes_eq, contains_bytes, copy, decimal_bytes, encode_char, pop_char, split_bytes, split_lines,
    starts_with, starts_with_ci, trim_trailing_cr,
};
use phetch::render::{render_document, render_menu, render_row};
use phetch::status::{
    alert_bytes, confirm_line_bytes, copied_bytes, current_bytes, download_question_bytes,
    frame_head_bytes, goto_prompt_bytes, human_bytes, no_content_bytes, no_size_bytes,
    prompt_line_bytes, saved_bytes, spinner_frame, status_line_bytes,
};

fn b(s: &str) -> Vec<u8> {
    s.as_bytes().to_vec()
}

#[test]
fn human_bytes_picks_the_unit() {
    assert_eq!(human_bytes(0), b("0 bytes"));
    assert_eq!(human_bytes(999), b("999 bytes"));
    assert_eq!(human_bytes(1_000), b("1Kb"));
    assert_eq!(human_bytes(1_999), b("1Kb"));
    assert_eq!(human_bytes(999_999), b("999Kb"));
    assert_eq!(human_bytes(1_000_000), b("1Mb"));
    assert_eq!(human_bytes(25_500_000), b("25Mb"));
    assert_eq!(human_bytes(999_999_999), b("999Mb"));
    assert_eq!(human_bytes(1_000_000_000), b("1Gb"));
    assert_eq!(human_bytes(999_999_999_999), b("999Gb"));
    assert_eq!(human_bytes(1_000_000_000_000), b("1000000000000?b"));
    assert_eq!(human_bytes(u64::MAX), b("18446744073709551615?b"));
}

#[test]
fn messages_read_as_written() {
    assert_eq!(saved_bytes(b"./file.zip", 2_500), b("Download complete! 2Kb saved to ./file.zip"));
    assert_eq!(copied_bytes(b"gopher://h:70/1"), b("Copied gopher://h:70/1 to clipboard."));
    assert_eq!(current_bytes(b"gopher://h:70/1"), b("Current URL: gopher://h:70/1"));
    assert_eq!(download_question_bytes(b"gopher://h:70/9/f"), b("Download gopher://h:70/9/f?"));
    assert_eq!(goto_prompt_bytes(), b("Go to URL: "));
    assert_eq!(no_content_bytes(), b("No content to display."));
    assert_eq!(
        no_size_bytes(),
        b("Error getting terminal size. Please file a bug: https://github.com/dvkt/phetch/issues/new")
    );
}

#[test]
fn alert_is_light_red() {
    assert_eq!(alert_bytes(b"no route"), b("\x1b[38;5;9mno route"));
    let lead = format!("{}", termion::color::Fg(termion::color::LightRed));
    assert_eq!(alert_bytes(b""), lead.into_bytes());
}

#[test]
fn frame_head_clears_homes_and_hides() {
    assert_eq!(frame_head_bytes(), b("\x1b[2J\x1b[1;1H\x1b[?25l"));
    let same = format!(
        "{}{}{}",
        termion::clear::All,
        termion::cursor::Goto(1, 1),
        termion::cursor::Hide
    );
    assert_eq!(frame_head_bytes(), same.into_bytes());
}

#[test]
fn status_line_sits_on_the_bottom_row() {
    assert_eq!(status_line_bytes(b"hello", 24), b("\x1b[24;1H\x1b[2Khello\x1b[39m"));
    assert_eq!(status_line_bytes(b"", 0), b("\x1b[0;1H\x1b[2K\x1b[39m"));
    assert_eq!(status_line_bytes(b"x", 65535), b("\x1b[65535;1H\x1b[2Kx\x1b[39m"));
    let same = format!(
        "{}{}{}{}",
        termion::cursor::Goto(1, 250),
        termion::clear::CurrentLine,
        "x",
        termion::color::Fg(termion::color::Reset)
    );
    assert_eq!(status_line_bytes(b"x", 250), same.into_bytes());
}

#[test]
fn confirm_line_asks_yes_or_no() {
    assert_eq!(
        confirm_line_bytes(b"Download it?", 10),
        b("\x1b[39m\x1b[10;1H\x1b[2KDownload it? [Y/n]: \x1b[?25h")
    );
    let same = format!(
        "{}{}{}{} [Y/n]: {}",
        termion::color::Fg(termion::color::Reset),
        termion::cursor::Goto(1, 10),
        termion::clear::CurrentLine,
        "Download it?",
        termion::cursor::Show
    );
    assert_eq!(confirm_line_bytes(b"Download it?", 10), same.into_bytes());
}

#[test]
fn prompt_line_shows_what_was_typed() {
    assert_eq!(
        prompt_line_bytes(b"Go to URL: ", b"exam", 7),
        b("\x1b[39m\x1b[7;1H\x1b[2KGo to URL: exam\x1b[?25h")
    );
}

#[test]
fn spinner_frame_grows_by_dots() {
    assert_eq!(spinner_frame(b"Loading", 0), b("\r\x1b[?25lLoading\x1b[J\x1b[39m\x1b[?25h"));
    assert_eq!(spinner_frame(b"Loading", 3), b("\r\x1b[?25lLoading...\x1b[J\x1b[39m\x1b[?25h"));
    assert_eq!(spinner_frame(b"", 1), b("\r\x1b[?25l.\x1b[J\x1b[39m\x1b[?25h"));
    let same = format!(
        "\r{}{}{}{}{}{}",
        termion::cursor::Hide,
        "x",
        ".".repeat(2),
        termion::clear::AfterCursor,
        termion::color::Fg(termion::color::Reset),
        termion::cursor::Show
    );
    assert_eq!(spinner_frame(b"x", 2), same.into_bytes());
}

#[test]
fn render_row_shapes() {
    assert_eq!(
        render_row(b"1Name\t/s\th\t70\r", true, 7, 7),
        b("\x1b[90;1m*\x1b[1m \x1b[95m 7. \x1b[94mName\r\n\x1b[0m")
    );
    assert_eq!(
        render_row(b"1Name\t/s\th\t70\r", true, 123, 7),
        b("  \x1b[95m123. \x1b[94mName\r\n\x1b[0m")
    );
    assert_eq!(render_row(b"1Name\t/s", false, 9, 1), b("  \x1b[95m 9. \x1b[94mName"));
    assert_eq!(render_row(b"1Name\r", true, 10, 1), b("  \x1b[95m10. \x1b[94mName\r\x1b[0m\r\n"));
    assert_eq!(
        render_row(b"iJust text\r", true, 3, 3),
        b("   \x1b[0m   \x1b[93mJust text\r\x1b[0m\r\n")
    );
    assert_eq!(render_row(b"iJust text\r", false, 3, 3), b("   \x1b[0m   \x1b[93mJust text\r"));
    assert_eq!(render_row(b"", true, 0, 0), b(""));
    assert_eq!(render_row(b"\r\r", true, 0, 0), b(""));
}

#[test]
fn render_menu_and_document_by_hand() {
    assert_eq!(
        render_menu(b"iHi\n0T\t/t\th\t70\n", 1, 4),
        b("   \x1b[0m   \x1b[93mHi\x1b[0m\r\n\x1b[90;1m*\x1b[1m \x1b[95m 1. \x1b[92mT\r\n\x1b[0m")
    );
    assert_eq!(render_menu(b"iHi\n0T\t/t\th\t70\n", 1, 3), b("   \x1b[0m   \x1b[93mHi\x1b[0m\r\n"));
    assert_eq!(render_menu(b"iHi\n0T\t/t\th\t70\n", 1, 2), b(""));
    assert_eq!(render_document(b"a\nb\nc\n", 4), b("a\nb\n"));
    assert_eq!(render_document(b"a\nb\nc\n", 9), b("a\nb\nc\n"));
    assert_eq!(render_document(b"a\nb\nc", 9), b("a\nb\nc"));
    assert_eq!(render_document(b"a\nb\nc\n", 1), b(""));
}

#[test]
fn decimal_digits() {
    assert_eq!(decimal_bytes(0), b("0"));
    assert_eq!(decimal_bytes(9), b("9"));
    assert_eq!(decimal_bytes(10), b("10"));
    assert_eq!(decimal_bytes(1234567890), b("1234567890"));
    assert_eq!(decimal_bytes(u64::MAX), b("18446744073709551615"));
}

#[test]
fn splitting() {
    assert_eq!(split_bytes(b"a\tb\t\tc", 9), vec![b("a"), b("b"), b(""), b("c")]);
    assert_eq!(split_bytes(b"", 9), vec![b("")]);
    assert_eq!(split_bytes(b"\t", 9), vec![b(""), b("")]);
    assert_eq!(split_lines(b""), Vec::<Vec<u8>>::new());
    assert_eq!(split_lines(b"a"), vec![b("a")]);
    assert_eq!(split_lines(b"a\n"), vec![b("a")]);
    assert_eq!(split_lines(b"a\n\n"), vec![b("a"), b("")]);
    assert_eq!(split_lines(b"a\r\nb"), vec![b("a\r"), b("b")]);
}

#[test]
fn comparing() {
    assert!(bytes_eq(b"abc", b"abc"));
    assert!(!bytes_eq(b"abc", b"abd"));
    assert!(!bytes_eq(b"abc", b"ab"));
    assert!(starts_with(b"gopher://x", b"gopher://"));
    assert!(!starts_with(b"Gopher://x", b"gopher://"));
    assert!(!starts_with(b"go", b"gopher://"));
    assert!(starts_with(b"go", b""));
    assert!(starts_with_ci(b"Hello World", b"hELLO w"));
    assert!(!starts_with_ci(b"Hello", b"Hello!"));
    assert!(!starts_with_ci(b"[x", b"{x"));
    assert!(contains_bytes(b"http://x", b"://"));
    assert!(contains_bytes(b"://", b"://"));
    assert!(contains_bytes(b"abc", b""));
    assert!(!contains_bytes(b"http:/x", b"://"));
    assert!(!contains_bytes(b":/", b"://"));
    assert_eq!(copy(b"xyz"), b("xyz"));
    assert_eq!(trim_trailing_cr(b"ab\r\r"), b("ab"));
    assert_eq!(trim_trailing_cr(b"\ra\rb"), b("\ra\rb"));
    assert_eq!(trim_trailing_cr(b"\r"), b(""));
}

#[test]
fn characters_as_utf8() {
    for c in ['a', '\0', '\u{7f}', '\u{80}', '\u{e9}', '\u{7ff}', '\u{800}', '\u{20ac}', '\u{ffff}', '\u{10000}', '\u{1f600}', '\u{10ffff}'] {
        let mut buf = [0u8; 4];
        assert_eq!(encode_char(c), c.encode_utf8(&mut buf).as_bytes().to_vec());
    }
    let mut text = "a\u{e9}\u{1f600}".as_bytes().to_vec();
    pop_char(&mut text);
    assert_eq!(text, "a\u{e9}".as_bytes().to_vec());
    pop_char(&mut text);
    assert_eq!(text, b("a"));
    pop_char(&mut text);
    assert_eq!(text, b(""));
    pop_char(&mut text);
    assert_eq!(text, b(""));
}
