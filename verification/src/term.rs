//! Terminal control sequences, as termion writes them.
//!
//! Each function below asks termion for one sequence and states, without
//! proof, which bytes come back. Everything else in the library that puts a
//! frame or a prompt together is proved against these statements.

use crate::bytes::{decimal, lit};
use vstd::prelude::*;

verus! {

/// A control sequence: ESC, an opening bracket, and what follows them.
pub open spec fn csi(tail: Seq<u8>) -> Seq<u8> {
    seq![27u8, 91u8] + tail
}

/// The sequence that moves the cursor to column `x` of row `y`, both
/// counted from one.
pub open spec fn goto_of(x: u16, y: u16) -> Seq<u8> {
    csi(decimal(y as nat) + seq![59u8] + decimal(x as nat) + seq![72u8])
}

/// `termion::clear::All`, formatted. Claimed: it is the sequence `2J`.
#[verifier::external_body]
pub(crate) fn clear_all() -> (r: Vec<u8>)
    ensures
        r@ == csi(lit("2J"@)),
{
    format!("{}", termion::clear::All).into_bytes()
}

/// `termion::clear::AfterCursor`, formatted. Claimed: it is the sequence `J`.
#[verifier::external_body]
pub(crate) fn clear_after_cursor() -> (r: Vec<u8>)
    ensures
        r@ == csi(lit("J"@)),
{
    format!("{}", termion::clear::AfterCursor).into_bytes()
}

/// `termion::clear::CurrentLine`, formatted. Claimed: it is the sequence
/// `2K`.
#[verifier::external_body]
pub(crate) fn clear_line() -> (r: Vec<u8>)
    ensures
        r@ == csi(lit("2K"@)),
{
    format!("{}", termion::clear::CurrentLine).into_bytes()
}

/// `termion::cursor::Hide`, formatted. Claimed: it is the sequence `?25l`.
#[verifier::external_body]
pub(crate) fn hide_cursor() -> (r: Vec<u8>)
    ensures
        r@ == csi(lit("?25l"@)),
{
    format!("{}", termion::cursor::Hide).into_bytes()
}

/// `termion::cursor::Show`, formatted. Claimed: it is the sequence `?25h`.
#[verifier::external_body]
pub(crate) fn show_cursor() -> (r: Vec<u8>)
    ensures
        r@ == csi(lit("?25h"@)),
{
    format!("{}", termion::cursor::Show).into_bytes()
}

/// `termion::cursor::Goto(x, y)`, formatted. Claimed: it is the row, a
/// semicolon, the column and `H`, both numbers in decimal. Formatting
/// `Goto(0, 0)` trips an assertion inside termion, so that pair is left out.
#[verifier::external_body]
pub(crate) fn goto(x: u16, y: u16) -> (r: Vec<u8>)
    requires
        !(x == 0 && y == 0),
    ensures
        r@ == goto_of(x, y),
{
    format!("{}", termion::cursor::Goto(x, y)).into_bytes()
}

/// `termion::color::Fg(termion::color::Reset)`, formatted. Claimed: it is
/// the sequence `39m`.
#[verifier::external_body]
pub(crate) fn fg_reset() -> (r: Vec<u8>)
    ensures
        r@ == csi(lit("39m"@)),
{
    format!("{}", termion::color::Fg(termion::color::Reset)).into_bytes()
}

/// `termion::color::Fg(termion::color::LightRed)`, formatted. Claimed: it
/// is the sequence `38;5;9m`.
#[verifier::external_body]
pub(crate) fn fg_light_red() -> (r: Vec<u8>)
    ensures
        r@ == csi(lit("38;5;9m"@)),
{
    format!("{}", termion::color::Fg(termion::color::LightRed)).into_bytes()
}

} // verus!
