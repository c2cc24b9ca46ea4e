//! Turning a page into text for the screen.
//!
//! A menu shows its lines one after the other: links are numbered from one
//! and coloured by kind, other lines are indented to line up with them, and
//! the selected link carries the cursor mark. A document shows its body as
//! it is. Neither scrolls: two rows of the terminal are kept free, and what
//! does not fit into the others is left out.

use crate::bytes::{
    append, ascii, count, decimal, decimal_bytes, find, find_byte, free, is_prefix, lines, lit,
    slice_copy, split, split_bytes, trim_cr, trim_trailing_cr, views, CR, LF, TAB,
};
use crate::gopher::ItemType;
use crate::lemmas::{
    lemma_count_add, lemma_count_free, lemma_count_line_break, lemma_decimal_digits, lemma_find,
    lemma_split_free, lemma_split_nonempty,
};
use crate::menu::{
    entries, field, fields, is_terminator_line, lemma_links_in_take, lemma_menu_end, line_fields,
    line_item_type, line_type, links_in, menu_end,
};
use crate::term::csi;
use vstd::prelude::*;
use vstd::string::*;

verus! {

/// How many lines a page may show: two less than the terminal has rows, and
/// none on a terminal of fewer than two rows.
pub open spec fn budget(rows: u16) -> nat {
    if rows >= 2 {
        (rows - 2) as nat
    } else {
        0
    }
}

/// The sequence that ends all styling.
pub open spec fn plain() -> Seq<u8> {
    csi(lit("0m"@))
}

/// The colour of link numbers.
pub open spec fn number_color() -> Seq<u8> {
    csi(lit("95m"@))
}

/// The colour of a line, by its item type: one for what lists, one for what
/// reads, one for what downloads, one for information, none for the rest.
pub open spec fn color_of(t: ItemType) -> Seq<u8> {
    if t.lists() {
        csi(lit("94m"@))
    } else if t.reads() {
        csi(lit("92m"@))
    } else if t.downloads() {
        csi(lit("96m"@))
    } else if t == ItemType::Info {
        csi(lit("93m"@))
    } else {
        plain()
    }
}

/// The cursor mark: a bold grey asterisk.
pub open spec fn mark() -> Seq<u8> {
    csi(lit("90;1m"@)) + lit("*"@) + csi(lit("1m"@))
}

/// What stands before a link: the cursor mark on the selected link and a
/// blank elsewhere, then the ordinal, right-aligned in two columns.
pub open spec fn gutter(ordinal: nat, selected: nat) -> Seq<u8> {
    (if ordinal == selected {
        mark()
    } else {
        lit(" "@)
    }) + lit(" "@) + number_color() + (if ordinal < 10 {
        lit(" "@)
    } else {
        Seq::empty()
    }) + decimal(ordinal) + lit(". "@)
}

/// What stands before a line that is no link: blanks as wide as a gutter.
pub open spec fn margin() -> Seq<u8> {
    lit("   "@) + plain() + lit("   "@)
}

/// The text a line shows: what stands between its code byte and its first
/// tab, or all that follows the code byte where the line has no tab.
pub open spec fn label(line: Seq<u8>) -> Seq<u8> {
    field(line, 0)
}

/// A line with nothing on it but carriage returns.
pub open spec fn blank(line: Seq<u8>) -> bool {
    trim_cr(line).len() == 0
}

/// What ends a line on the screen. A line that the body ends with a line
/// feed gets CR LF and the end of all styling: the styling ends behind the
/// line break where the line has a tab, and before it where it has none. A
/// line that the body leaves open gets nothing.
pub open spec fn line_end(line: Seq<u8>, ended: bool) -> Seq<u8> {
    if !ended {
        Seq::empty()
    } else if fields(line).len() > 1 {
        seq![CR, LF] + plain()
    } else {
        plain() + seq![CR, LF]
    }
}

/// One line of a menu as shown. `ordinal` is the number of links up to and
/// including this line; `ended` says whether a line feed follows the line
/// in the body. A blank line shows nothing at all.
pub open spec fn menu_row(line: Seq<u8>, ended: bool, ordinal: nat, selected: nat) -> Seq<u8> {
    let t = line_type(line);
    if blank(line) {
        Seq::empty()
    } else if t.links() {
        gutter(ordinal, selected) + color_of(t) + label(line) + line_end(line, ended)
    } else {
        margin() + color_of(t) + label(line) + line_end(line, ended)
    }
}

/// The smaller of two numbers.
pub open spec fn least(a: int, b: int) -> int {
    if a <= b {
        a
    } else {
        b
    }
}

/// The first `n` of the lines `ls` as shown, one after the other. `whole`
/// is the number of pieces that the line feeds cut the body into, so that
/// line `j` is followed by a line feed exactly when `j + 1 < whole`.
pub open spec fn rows_text(ls: Seq<Seq<u8>>, whole: int, selected: nat, n: int) -> Seq<u8>
    decreases n,
{
    if n <= 0 {
        Seq::empty()
    } else {
        rows_text(ls, whole, selected, n - 1) + menu_row(
            ls[n - 1],
            n < whole,
            links_in(ls, n).len(),
            selected,
        )
    }
}

/// A menu as shown: its lines before the terminator, as many as fit. Links
/// count from one in the order they appear; other lines take no number.
pub open spec fn menu_text(raw: Seq<u8>, selected: nat, rows: u16) -> Seq<u8> {
    rows_text(
        entries(raw),
        split(raw, LF).len() as int,
        selected,
        least(entries(raw).len() as int, budget(rows) as int),
    )
}

/// Where line `n` of a text begins, counted from zero: behind the `n`-th
/// line feed, or at the end of the text where it has fewer.
pub open spec fn line_start(s: Seq<u8>, n: nat) -> int
    decreases n,
{
    if n == 0 {
        0
    } else {
        let e = find(s, LF, line_start(s, (n - 1) as nat));
        if e < s.len() {
            e + 1
        } else {
            s.len() as int
        }
    }
}

/// A document as shown: its body as it is, up to and with the line feed
/// that ends the last line that fits.
pub open spec fn document_text(raw: Seq<u8>, rows: u16) -> Seq<u8> {
    raw.subrange(0, line_start(raw, budget(rows)))
}

/// Lines begin inside the text, and later lines no earlier.
pub proof fn lemma_line_start(s: Seq<u8>, n: nat, m: nat)
    requires
        n <= m,
    ensures
        0 <= line_start(s, n) <= line_start(s, m) <= s.len(),
    decreases m,
{
    if m > 0 {
        if n < m {
            lemma_line_start(s, n, (m - 1) as nat);
        } else {
            lemma_line_start(s, (n - 1) as nat, (m - 1) as nat);
        }
        lemma_line_start(s, 0, (m - 1) as nat);
        lemma_find(s, LF, line_start(s, (m - 1) as nat));
    }
}

/// The first lines as shown do not depend on later lines.
pub proof fn lemma_rows_text_take(ls: Seq<Seq<u8>>, whole: int, selected: nat, n: int, m: int)
    requires
        0 <= n <= m <= ls.len(),
    ensures
        rows_text(ls.take(m), whole, selected, n) == rows_text(ls, whole, selected, n),
    decreases n,
{
    if n > 0 {
        lemma_rows_text_take(ls, whole, selected, n - 1, m);
        lemma_links_in_take(ls, n, m);
    }
}

/// More lines only add to what is shown.
pub proof fn lemma_rows_text_grows(ls: Seq<Seq<u8>>, whole: int, selected: nat, n: int, m: int)
    requires
        0 <= n <= m,
    ensures
        is_prefix(rows_text(ls, whole, selected, n), rows_text(ls, whole, selected, m)),
    decreases m - n,
{
    let short = rows_text(ls, whole, selected, n);
    if n < m {
        lemma_rows_text_grows(ls, whole, selected, n, m - 1);
        let mid = rows_text(ls, whole, selected, m - 1);
        let long = rows_text(ls, whole, selected, m);
        assert(long.subrange(0, short.len() as int) =~= mid.subrange(0, short.len() as int));
    } else {
        assert(short.subrange(0, short.len() as int) =~= short);
    }
}

/// A taller terminal shows what a shorter one shows and then more: nothing
/// is reordered, and what does not fit is left off the end.
pub proof fn law_taller_shows_more(raw: Seq<u8>, selected: nat, rows: u16, taller: u16)
    requires
        rows <= taller,
    ensures
        is_prefix(menu_text(raw, selected, rows), menu_text(raw, selected, taller)),
        is_prefix(document_text(raw, rows), document_text(raw, taller)),
{
    let es = entries(raw);
    lemma_rows_text_grows(
        es,
        split(raw, LF).len() as int,
        selected,
        least(es.len() as int, budget(rows) as int),
        least(es.len() as int, budget(taller) as int),
    );
    lemma_line_start(raw, budget(rows), budget(taller));
    let short = document_text(raw, rows);
    assert(document_text(raw, taller).subrange(0, short.len() as int) =~= short);
}

/// The styling itself holds no line feed.
proof fn lemma_styles_free(t: ItemType, ordinal: nat, selected: nat)
    ensures
        free(plain(), LF),
        free(margin(), LF),
        free(color_of(t), LF),
        free(gutter(ordinal, selected), LF),
{
    reveal_strlit("0m");
    reveal_strlit("95m");
    reveal_strlit("94m");
    reveal_strlit("92m");
    reveal_strlit("96m");
    reveal_strlit("93m");
    reveal_strlit("90;1m");
    reveal_strlit("1m");
    reveal_strlit("*");
    reveal_strlit(" ");
    reveal_strlit(". ");
    reveal_strlit("   ");
    lemma_decimal_digits(ordinal);
    assert(free(plain(), LF));
    assert(free(number_color(), LF));
    assert(free(mark(), LF));
    assert(free(decimal(ordinal), LF));
}

/// A line as shown holds one line feed at most.
proof fn lemma_row_line_feeds(line: Seq<u8>, ended: bool, ordinal: nat, selected: nat)
    requires
        free(line, LF),
    ensures
        count(menu_row(line, ended, ordinal, selected), LF) <= 1,
{
    let t = line_type(line);
    lemma_styles_free(t, ordinal, selected);
    assert(free(label(line), LF)) by {
        if line.len() > 0 {
            lemma_split_nonempty(line.subrange(1, line.len() as int), TAB, 0);
        } else {
            lemma_split_nonempty(line, TAB, 0);
        }
    }
    let head = if t.links() {
        gutter(ordinal, selected)
    } else {
        margin()
    };
    let front = head + color_of(t) + label(line);
    let back = line_end(line, ended);
    if !blank(line) {
        assert(menu_row(line, ended, ordinal, selected) == front + back);
        assert(free(front, LF));
        lemma_count_free(front, LF);
        lemma_count_add(front, back, LF);
        if !ended {
        } else if fields(line).len() > 1 {
            lemma_count_add(seq![CR, LF], plain(), LF);
            lemma_count_free(plain(), LF);
            lemma_count_line_break();
        } else {
            lemma_count_add(plain(), seq![CR, LF], LF);
            lemma_count_free(plain(), LF);
            lemma_count_line_break();
        }
    }
}

/// The first `n` lines as shown hold `n` line feeds at most.
proof fn lemma_rows_line_feeds(ls: Seq<Seq<u8>>, whole: int, selected: nat, n: int)
    requires
        0 <= n <= ls.len(),
        forall|j: int| 0 <= j < ls.len() ==> free(#[trigger] ls[j], LF),
    ensures
        count(rows_text(ls, whole, selected, n), LF) <= n,
    decreases n,
{
    if n > 0 {
        lemma_rows_line_feeds(ls, whole, selected, n - 1);
        let row = menu_row(ls[n - 1], n < whole, links_in(ls, n).len(), selected);
        lemma_row_line_feeds(ls[n - 1], n < whole, links_in(ls, n).len(), selected);
        lemma_count_add(rows_text(ls, whole, selected, n - 1), row, LF);
    }
}

/// The first `n` lines of a text hold `n` line feeds at most.
proof fn lemma_document_line_feeds(s: Seq<u8>, n: nat)
    ensures
        count(s.subrange(0, line_start(s, n)), LF) <= n,
    decreases n,
{
    if n == 0 {
        assert(s.subrange(0, 0) =~= Seq::<u8>::empty());
    } else {
        lemma_document_line_feeds(s, (n - 1) as nat);
        lemma_line_start(s, (n - 1) as nat, n);
        let from = line_start(s, (n - 1) as nat);
        let to = line_start(s, n);
        let e = find(s, LF, from);
        lemma_find(s, LF, from);
        let before = s.subrange(0, from);
        let line = s.subrange(from, e);
        assert(free(line, LF));
        lemma_count_free(line, LF);
        lemma_count_add(before, line, LF);
        if e < s.len() {
            assert(s.subrange(0, to) =~= (before + line).push(LF));
            assert((before + line).push(LF).drop_last() =~= before + line);
        } else {
            assert(s.subrange(0, to) =~= before + line);
        }
    }
}

/// What is shown never holds more lines than fit: at most as many line
/// feeds as the terminal has rows to give.
pub proof fn law_no_more_lines_than_fit(raw: Seq<u8>, selected: nat, rows: u16)
    ensures
        count(menu_text(raw, selected, rows), LF) <= budget(rows),
        count(document_text(raw, rows), LF) <= budget(rows),
{
    let es = entries(raw);
    let n = least(es.len() as int, budget(rows) as int);
    assert forall|j: int| 0 <= j < es.len() implies free(#[trigger] es[j], LF) by {
        lemma_menu_end(lines(raw), 0);
        lemma_split_free(raw, LF, 0, j);
    }
    lemma_rows_line_feeds(es, split(raw, LF).len() as int, selected, n);
    lemma_document_line_feeds(raw, budget(rows));
}

/// The cursor mark opens the row of the selected link and of no other
/// line: every other row opens with a blank, and a blank line has no row.
pub proof fn law_mark_on_selected_link_only(
    line: Seq<u8>,
    ended: bool,
    ordinal: nat,
    selected: nat,
)
    ensures
        is_prefix(mark(), menu_row(line, ended, ordinal, selected)) <==> !blank(line) && line_type(
            line,
        ).links() && ordinal == selected,
{
    reveal_strlit(" ");
    reveal_strlit("   ");
    let row = menu_row(line, ended, ordinal, selected);
    assert(mark().len() > 0);
    assert(mark()[0] == 27);
    if blank(line) {
    } else if line_type(line).links() {
        if ordinal == selected {
            assert(row.subrange(0, mark().len() as int) =~= mark());
        } else {
            assert(row[0] == 32);
            if mark().len() <= row.len() {
                assert(row.subrange(0, mark().len() as int)[0] == row[0]);
            }
        }
    } else {
        assert(row[0] == 32);
        if mark().len() <= row.len() {
            assert(row.subrange(0, mark().len() as int)[0] == row[0]);
        }
    }
}

fn sgr(code: &str) -> (r: Vec<u8>)
    requires
        is_ascii(code),
    ensures
        r@ == csi(lit(code@)),
{
    let mut r: Vec<u8> = Vec::new();
    r.push(27);
    r.push(91);
    let tail = ascii(code);
    append(&mut r, tail.as_slice());
    assert(r@ =~= csi(lit(code@)));
    r
}

fn plain_bytes() -> (r: Vec<u8>)
    ensures
        r@ == plain(),
{
    proof {
        reveal_strlit("0m");
    }
    sgr("0m")
}

fn color(t: ItemType) -> (r: Vec<u8>)
    ensures
        r@ == color_of(t),
{
    proof {
        reveal_strlit("94m");
        reveal_strlit("92m");
        reveal_strlit("96m");
        reveal_strlit("93m");
    }
    if t.is_menu() {
        sgr("94m")
    } else if t.is_text() {
        sgr("92m")
    } else if t.is_download() {
        sgr("96m")
    } else if t == ItemType::Info {
        sgr("93m")
    } else {
        plain_bytes()
    }
}

fn mark_bytes() -> (r: Vec<u8>)
    ensures
        r@ == mark(),
{
    proof {
        reveal_strlit("90;1m");
        reveal_strlit("*");
        reveal_strlit("1m");
    }
    let mut r = sgr("90;1m");
    append(&mut r, ascii("*").as_slice());
    append(&mut r, sgr("1m").as_slice());
    r
}

fn gutter_bytes(ordinal: usize, selected: usize) -> (r: Vec<u8>)
    ensures
        r@ == gutter(ordinal as nat, selected as nat),
{
    proof {
        reveal_strlit(" ");
        reveal_strlit(". ");
        reveal_strlit("95m");
    }
    let mut r = if ordinal == selected {
        mark_bytes()
    } else {
        ascii(" ")
    };
    append(&mut r, ascii(" ").as_slice());
    append(&mut r, sgr("95m").as_slice());
    if ordinal < 10 {
        append(&mut r, ascii(" ").as_slice());
    }
    append(&mut r, decimal_bytes(ordinal as u64).as_slice());
    append(&mut r, ascii(". ").as_slice());
    assert(r@ =~= gutter(ordinal as nat, selected as nat));
    r
}

fn margin_bytes() -> (r: Vec<u8>)
    ensures
        r@ == margin(),
{
    proof {
        reveal_strlit("   ");
    }
    let mut r = ascii("   ");
    append(&mut r, plain_bytes().as_slice());
    append(&mut r, ascii("   ").as_slice());
    r
}

/// One line of a menu as shown; see `menu_row`.
pub fn render_row(line: &[u8], ended: bool, ordinal: usize, selected: usize) -> (r: Vec<u8>)
    ensures
        r@ == menu_row(line@, ended, ordinal as nat, selected as nat),
{
    if trim_trailing_cr(line).len() == 0 {
        return Vec::new();
    }
    let t = line_item_type(line);
    let f = line_fields(line);
    let mut r = if t.is_link() {
        gutter_bytes(ordinal, selected)
    } else {
        margin_bytes()
    };
    append(&mut r, color(t).as_slice());
    append(&mut r, f[0].as_slice());
    if ended {
        if f.len() > 1 {
            r.push(CR);
            r.push(LF);
            append(&mut r, plain_bytes().as_slice());
        } else {
            append(&mut r, plain_bytes().as_slice());
            r.push(CR);
            r.push(LF);
        }
    }
    assert(r@ =~= menu_row(line@, ended, ordinal as nat, selected as nat));
    r
}

fn budget_of(rows: u16) -> (n: usize)
    ensures
        n == budget(rows),
{
    if rows >= 2 {
        (rows - 2) as usize
    } else {
        0
    }
}

/// A menu body as shown on a terminal of `rows` rows, with link `selected`
/// marked; see `menu_text`.
pub fn render_menu(raw: &[u8], selected: usize, rows: u16) -> (out: Vec<u8>)
    ensures
        out@ == menu_text(raw@, selected as nat, rows),
{
    let mut ls = split_bytes(raw, LF);
    proof {
        lemma_split_nonempty(raw@, LF, 0);
    }
    let whole = ls.len();
    if ls[whole - 1].len() == 0 {
        let ghost before = ls@;
        ls.pop();
        assert(views(ls@) =~= views(before).drop_last());
    }
    let limit = budget_of(rows);
    let mut out: Vec<u8> = Vec::new();
    let mut i: usize = 0;
    let mut ordinal: usize = 0;
    let ghost all = views(ls@);
    while i < ls.len() && i < limit && !is_terminator_line(ls[i].as_slice())
        invariant
            i <= ls.len(),
            i <= limit,
            whole == split(raw@, LF).len(),
            all == views(ls@),
            menu_end(all, 0) == menu_end(all, i as int),
            ordinal == links_in(all, i as int).len(),
            ordinal <= i,
            out@ == rows_text(all, whole as int, selected as nat, i as int),
        decreases ls.len() - i,
    {
        if line_item_type(ls[i].as_slice()).is_link() {
            ordinal += 1;
        }
        let row = render_row(ls[i].as_slice(), i + 1 < whole, ordinal, selected);
        append(&mut out, row.as_slice());
        i += 1;
    }
    proof {
        lemma_menu_end(all, i as int);
        assert(i == least(entries(raw@).len() as int, limit as int));
        lemma_rows_text_take(all, whole as int, selected as nat, i as int, menu_end(all, 0));
    }
    out
}

/// A document body as shown on a terminal of `rows` rows; see
/// `document_text`.
pub fn render_document(raw: &[u8], rows: u16) -> (out: Vec<u8>)
    ensures
        out@ == document_text(raw@, rows),
{
    let limit = budget_of(rows);
    let mut end: usize = 0;
    let mut n: usize = 0;
    while n < limit
        invariant
            n <= limit,
            end <= raw.len(),
            end == line_start(raw@, n as nat),
        decreases limit - n,
    {
        let e = find_byte(raw, LF, end);
        end = if e < raw.len() {
            e + 1
        } else {
            raw.len()
        };
        n += 1;
    }
    slice_copy(raw, 0, end)
}

} // verus!
