//! The texts of the bottom row and of the frame around a page: status
//! messages, the two prompts, and the progress indicator.

use crate::bytes::{append, ascii, decimal, decimal_bytes, lit, DOT};
use crate::term::{
    clear_after_cursor, clear_all, clear_line, csi, fg_light_red, fg_reset, goto, goto_of,
    hide_cursor, show_cursor,
};
use vstd::prelude::*;

verus! {

/// A byte count for people: whole units, rounded down, with the unit's
/// name. Counts of a million million and more are given in full.
pub open spec fn human(n: u64) -> Seq<u8> {
    if n < 1_000 {
        decimal(n as nat) + lit(" bytes"@)
    } else if n < 1_000_000 {
        decimal((n / 1_000) as nat) + lit("Kb"@)
    } else if n < 1_000_000_000 {
        decimal((n / 1_000_000) as nat) + lit("Mb"@)
    } else if n < 1_000_000_000_000 {
        decimal((n / 1_000_000_000) as nat) + lit("Gb"@)
    } else {
        decimal(n as nat) + lit("?b"@)
    }
}

/// A message in the colour of errors.
pub open spec fn alert(message: Seq<u8>) -> Seq<u8> {
    csi(lit("38;5;9m"@)) + message
}

/// The message after a download.
pub open spec fn saved_message(path: Seq<u8>, bytes: u64) -> Seq<u8> {
    lit("Download complete! "@) + human(bytes) + lit(" saved to "@) + path
}

/// The message after a copy to the clipboard.
pub open spec fn copied_message(url: Seq<u8>) -> Seq<u8> {
    lit("Copied "@) + url + lit(" to clipboard."@)
}

/// The message that shows where the focused page came from.
pub open spec fn current_message(url: Seq<u8>) -> Seq<u8> {
    lit("Current URL: "@) + url
}

/// The question asked before a download.
pub open spec fn download_question(url: Seq<u8>) -> Seq<u8> {
    lit("Download "@) + url + lit("?"@)
}

/// The words before the text of the locator prompt.
pub open spec fn goto_prompt() -> Seq<u8> {
    lit("Go to URL: "@)
}

/// What is shown where there is no page.
pub open spec fn no_content() -> Seq<u8> {
    lit("No content to display."@)
}

/// What is shown where the size of the terminal is not known.
pub open spec fn no_size() -> Seq<u8> {
    lit("Error getting terminal size. Please file a bug: https://github.com/dvkt/phetch/issues/new"@)
}

/// What starts every frame: clear the screen, go to the top left corner,
/// hide the cursor.
pub open spec fn frame_head() -> Seq<u8> {
    csi(lit("2J"@)) + goto_of(1, 1) + csi(lit("?25l"@))
}

/// A status message, placed on the bottom row.
pub open spec fn status_line(status: Seq<u8>, rows: u16) -> Seq<u8> {
    goto_of(1, rows) + csi(lit("2K"@)) + status + csi(lit("39m"@))
}

/// A yes-or-no question, placed on the bottom row with the cursor behind it.
pub open spec fn confirm_line(question: Seq<u8>, rows: u16) -> Seq<u8> {
    csi(lit("39m"@)) + goto_of(1, rows) + csi(lit("2K"@)) + question + lit(" [Y/n]: "@) + csi(
        lit("?25h"@),
    )
}

/// A prompt and what has been typed so far, placed on the bottom row with
/// the cursor behind it.
pub open spec fn prompt_line(prompt: Seq<u8>, entry: Seq<u8>, rows: u16) -> Seq<u8> {
    csi(lit("39m"@)) + goto_of(1, rows) + csi(lit("2K"@)) + prompt + entry + csi(lit("?25h"@))
}

/// `n` dots.
pub open spec fn dots(n: nat) -> Seq<u8> {
    Seq::new(n, |i: int| DOT)
}

/// One frame of the progress indicator: back to the start of the row, the
/// label, `n` dots, and the rest of the screen cleared.
pub open spec fn spinner_of(label: Seq<u8>, n: u8) -> Seq<u8> {
    seq![13u8] + csi(lit("?25l"@)) + label + dots(n as nat) + csi(lit("J"@)) + csi(lit("39m"@))
        + csi(lit("?25h"@))
}

/// A byte count for people; see `human`.
pub fn human_bytes(n: u64) -> (r: Vec<u8>)
    ensures
        r@ == human(n),
{
    proof {
        reveal_strlit(" bytes");
        reveal_strlit("Kb");
        reveal_strlit("Mb");
        reveal_strlit("Gb");
        reveal_strlit("?b");
    }
    let (count, tag) = if n < 1_000 {
        (n, ascii(" bytes"))
    } else if n < 1_000_000 {
        (n / 1_000, ascii("Kb"))
    } else if n < 1_000_000_000 {
        (n / 1_000_000, ascii("Mb"))
    } else if n < 1_000_000_000_000 {
        (n / 1_000_000_000, ascii("Gb"))
    } else {
        (n, ascii("?b"))
    };
    let mut r = decimal_bytes(count);
    append(&mut r, tag.as_slice());
    r
}

/// A message in the colour of errors.
pub fn alert_bytes(message: &[u8]) -> (r: Vec<u8>)
    ensures
        r@ == alert(message@),
{
    let mut r = fg_light_red();
    append(&mut r, message);
    r
}

/// The message after a download.
pub fn saved_bytes(path: &[u8], bytes: u64) -> (r: Vec<u8>)
    ensures
        r@ == saved_message(path@, bytes),
{
    proof {
        reveal_strlit("Download complete! ");
        reveal_strlit(" saved to ");
    }
    let mut r = ascii("Download complete! ");
    append(&mut r, human_bytes(bytes).as_slice());
    append(&mut r, ascii(" saved to ").as_slice());
    append(&mut r, path);
    r
}

/// The message after a copy to the clipboard.
pub fn copied_bytes(url: &[u8]) -> (r: Vec<u8>)
    ensures
        r@ == copied_message(url@),
{
    proof {
        reveal_strlit("Copied ");
        reveal_strlit(" to clipboard.");
    }
    let mut r = ascii("Copied ");
    append(&mut r, url);
    append(&mut r, ascii(" to clipboard.").as_slice());
    r
}

/// The message that shows where the focused page came from.
pub fn current_bytes(url: &[u8]) -> (r: Vec<u8>)
    ensures
        r@ == current_message(url@),
{
    proof {
        reveal_strlit("Current URL: ");
    }
    let mut r = ascii("Current URL: ");
    append(&mut r, url);
    r
}

/// The question asked before a download.
pub fn download_question_bytes(url: &[u8]) -> (r: Vec<u8>)
    ensures
        r@ == download_question(url@),
{
    proof {
        reveal_strlit("Download ");
        reveal_strlit("?");
    }
    let mut r = ascii("Download ");
    append(&mut r, url);
    append(&mut r, ascii("?").as_slice());
    r
}

/// The words before the text of the locator prompt.
pub fn goto_prompt_bytes() -> (r: Vec<u8>)
    ensures
        r@ == goto_prompt(),
{
    proof {
        reveal_strlit("Go to URL: ");
    }
    ascii("Go to URL: ")
}

/// What is shown where there is no page.
pub fn no_content_bytes() -> (r: Vec<u8>)
    ensures
        r@ == no_content(),
{
    proof {
        reveal_strlit("No content to display.");
    }
    ascii("No content to display.")
}

/// What is shown where the size of the terminal is not known.
pub fn no_size_bytes() -> (r: Vec<u8>)
    ensures
        r@ == no_size(),
{
    proof {
        reveal_strlit(
            "Error getting terminal size. Please file a bug: https://github.com/dvkt/phetch/issues/new",
        );
    }
    ascii("Error getting terminal size. Please file a bug: https://github.com/dvkt/phetch/issues/new")
}

/// What starts every frame.
pub fn frame_head_bytes() -> (r: Vec<u8>)
    ensures
        r@ == frame_head(),
{
    let mut r = clear_all();
    append(&mut r, goto(1, 1).as_slice());
    append(&mut r, hide_cursor().as_slice());
    r
}

/// A status message, placed on the bottom row.
pub fn status_line_bytes(status: &[u8], rows: u16) -> (r: Vec<u8>)
    ensures
        r@ == status_line(status@, rows),
{
    let mut r = goto(1, rows);
    append(&mut r, clear_line().as_slice());
    append(&mut r, status);
    append(&mut r, fg_reset().as_slice());
    r
}

/// A yes-or-no question, placed on the bottom row.
pub fn confirm_line_bytes(question: &[u8], rows: u16) -> (r: Vec<u8>)
    ensures
        r@ == confirm_line(question@, rows),
{
    proof {
        reveal_strlit(" [Y/n]: ");
    }
    let mut r = fg_reset();
    append(&mut r, goto(1, rows).as_slice());
    append(&mut r, clear_line().as_slice());
    append(&mut r, question);
    append(&mut r, ascii(" [Y/n]: ").as_slice());
    append(&mut r, show_cursor().as_slice());
    r
}

/// A prompt and what has been typed so far, placed on the bottom row.
pub fn prompt_line_bytes(prompt: &[u8], entry: &[u8], rows: u16) -> (r: Vec<u8>)
    ensures
        r@ == prompt_line(prompt@, entry@, rows),
{
    let mut r = fg_reset();
    append(&mut r, goto(1, rows).as_slice());
    append(&mut r, clear_line().as_slice());
    append(&mut r, prompt);
    append(&mut r, entry);
    append(&mut r, show_cursor().as_slice());
    r
}

/// One frame of the progress indicator, with `n` dots behind the label.
pub fn spinner_frame(label: &[u8], n: u8) -> (r: Vec<u8>)
    ensures
        r@ == spinner_of(label@, n),
{
    let mut r: Vec<u8> = Vec::new();
    r.push(13);
    append(&mut r, hide_cursor().as_slice());
    append(&mut r, label);
    let mut i: u8 = 0;
    while i < n
        invariant
            i <= n,
            r@ == seq![13u8] + csi(lit("?25l"@)) + label@ + dots(i as nat),
        decreases n - i,
    {
        r.push(DOT);
        i += 1;
        assert(r@ =~= seq![13u8] + csi(lit("?25l"@)) + label@ + dots(i as nat));
    }
    append(&mut r, clear_after_cursor().as_slice());
    append(&mut r, fg_reset().as_slice());
    append(&mut r, show_cursor().as_slice());
    r
}

} // verus!
