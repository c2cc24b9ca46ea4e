//! Facts about byte strings: what searching, splitting, trimming and
//! counting in `bytes` amount to. The codec and the pages build on them.

use crate::bytes::{
    count, decimal, find, free, last_char_start, lines, one_char, split, split_from, total, trim_cr,
    without_last_char, CR, LF,
};
use vstd::prelude::*;
use vstd::utf8::{encode_scalar, is_continuation_byte};

verus! {

/// `find` answers between `from` and the end, with the byte sought at the
/// answer and nowhere before it.
pub proof fn lemma_find(s: Seq<u8>, b: u8, from: int)
    requires
        0 <= from <= s.len(),
    ensures
        from <= find(s, b, from) <= s.len(),
        find(s, b, from) < s.len() ==> s[find(s, b, from)] == b,
        forall|k: int| from <= k < find(s, b, from) ==> s[k] != b,
    decreases s.len() - from,
{
    if from < s.len() && s[from] != b {
        lemma_find(s, b, from + 1);
    }
}

/// `find` answers `n` when `n` is the first place at or after `from` that
/// holds the byte sought, or the end if no place does.
pub proof fn lemma_find_is(s: Seq<u8>, b: u8, from: int, n: int)
    requires
        0 <= from <= n <= s.len(),
        forall|k: int| from <= k < n ==> s[k] != b,
        n < s.len() ==> s[n] == b,
    ensures
        find(s, b, from) == n,
    decreases n - from,
{
    if from < n {
        lemma_find_is(s, b, from + 1, n);
    }
}

/// Where a separator stands at `e` and nowhere between `i` and `e`, the
/// first piece from `i` on is what lies between them.
pub proof fn lemma_split_step(s: Seq<u8>, sep: u8, i: int, e: int)
    requires
        0 <= i <= e < s.len(),
        forall|k: int| i <= k < e ==> s[k] != sep,
        s[e] == sep,
    ensures
        split_from(s, sep, i) == seq![s.subrange(i, e)] + split_from(s, sep, e + 1),
{
    lemma_find_is(s, sep, i, e);
}

/// Where no separator stands from `i` on, the rest is one piece.
pub proof fn lemma_split_last(s: Seq<u8>, sep: u8, i: int)
    requires
        0 <= i <= s.len(),
        forall|k: int| i <= k < s.len() ==> s[k] != sep,
    ensures
        split_from(s, sep, i) == seq![s.subrange(i, s.len() as int)],
{
    lemma_find_is(s, sep, i, s.len() as int);
}

/// Trailing carriage returns aside, a text reaches at least as far as its
/// last byte that is none.
pub proof fn lemma_trim_cr_keeps(s: Seq<u8>, k: int)
    requires
        0 <= k < s.len(),
        s[k] != CR,
    ensures
        trim_cr(s).len() > k,
    decreases s.len(),
{
    if s.last() == CR {
        lemma_trim_cr_keeps(s.drop_last(), k);
    }
}

/// A text without line feeds, with one line feed behind it, is one line.
pub proof fn lemma_one_line(line: Seq<u8>)
    requires
        forall|k: int| 0 <= k < line.len() ==> line[k] != LF,
    ensures
        lines(line.push(LF)) == seq![line],
{
    let body = line.push(LF);
    let n = line.len() as int;
    lemma_split_step(body, LF, 0, n);
    lemma_split_last(body, LF, n + 1);
    assert(body.subrange(0, n) =~= line);
    assert(body.subrange(n + 1, body.len() as int) =~= Seq::<u8>::empty());
    let pieces = split(body, LF);
    assert(pieces =~= seq![line, Seq::<u8>::empty()]);
    assert(pieces.drop_last() =~= seq![line]);
}

/// Four texts without the separator, joined by it, split into those four.
pub proof fn lemma_split_four(a: Seq<u8>, b: Seq<u8>, c: Seq<u8>, d: Seq<u8>, sep: u8)
    requires
        forall|k: int| 0 <= k < a.len() ==> a[k] != sep,
        forall|k: int| 0 <= k < b.len() ==> b[k] != sep,
        forall|k: int| 0 <= k < c.len() ==> c[k] != sep,
        forall|k: int| 0 <= k < d.len() ==> d[k] != sep,
    ensures
        split(a + seq![sep] + b + seq![sep] + c + seq![sep] + d, sep) == seq![a, b, c, d],
{
    let s = a + seq![sep] + b + seq![sep] + c + seq![sep] + d;
    let t1 = a.len() as int;
    let t2 = t1 + 1 + b.len();
    let t3 = t2 + 1 + c.len();
    assert(s[t1] == sep);
    assert(s[t2] == sep);
    assert(s[t3] == sep);
    assert forall|k: int| 0 <= k < t1 implies s[k] != sep by {
        assert(s[k] == a[k]);
    }
    assert forall|k: int| t1 + 1 <= k < t2 implies s[k] != sep by {
        assert(s[k] == b[k - t1 - 1]);
    }
    assert forall|k: int| t2 + 1 <= k < t3 implies s[k] != sep by {
        assert(s[k] == c[k - t2 - 1]);
    }
    assert forall|k: int| t3 + 1 <= k < s.len() implies s[k] != sep by {
        assert(s[k] == d[k - t3 - 1]);
    }
    lemma_split_step(s, sep, 0, t1);
    lemma_split_step(s, sep, t1 + 1, t2);
    lemma_split_step(s, sep, t2 + 1, t3);
    lemma_split_last(s, sep, t3 + 1);
    assert(s.subrange(0, t1) =~= a);
    assert(s.subrange(t1 + 1, t2) =~= b);
    assert(s.subrange(t2 + 1, t3) =~= c);
    assert(s.subrange(t3 + 1, s.len() as int) =~= d);
    assert(split(s, sep) =~= seq![a, b, c, d]);
}

/// A text that does not end in a carriage return keeps all of itself when
/// carriage returns are put behind it and trimmed off again.
pub proof fn lemma_trim_cr_appended(s: Seq<u8>)
    requires
        s.len() == 0 || s.last() != CR,
    ensures
        trim_cr(s) == s,
        trim_cr(s.push(CR)) == s,
{
    assert(s.push(CR).drop_last() =~= s);
}

/// The total of a sequence with one piece put in front.
pub proof fn lemma_total_front(first: Seq<u8>, rest: Seq<Seq<u8>>)
    ensures
        total(seq![first] + rest) == first.len() + total(rest),
    decreases rest.len(),
{
    let all = seq![first] + rest;
    if rest.len() == 0 {
        assert(all.drop_last() =~= Seq::<Seq<u8>>::empty());
        assert(total(all.drop_last()) == 0);
        assert(all.last() == first);
    } else {
        lemma_total_front(first, rest.drop_last());
        assert(all.drop_last() =~= seq![first] + rest.drop_last());
        assert(all.last() == rest.last());
    }
}

/// Splitting loses nothing but the separators: the lengths of the pieces
/// and the separators between them add up to the length of what was split.
pub proof fn lemma_split_total(s: Seq<u8>, sep: u8, i: int)
    requires
        0 <= i <= s.len(),
    ensures
        total(split_from(s, sep, i)) + split_from(s, sep, i).len() == s.len() - i + 1,
    decreases s.len() - i,
{
    lemma_find(s, sep, i);
    let e = find(s, sep, i);
    if i <= e < s.len() {
        lemma_split_total(s, sep, e + 1);
        lemma_total_front(s.subrange(i, e), split_from(s, sep, e + 1));
    } else {
        let only = seq![s.subrange(i, s.len() as int)];
        assert(split_from(s, sep, i) == only);
        assert(only.drop_last() =~= Seq::<Seq<u8>>::empty());
        assert(total(only.drop_last()) == 0);
        assert(total(only) == only.last().len());
    }
}

/// The first pieces never add up to more than all of them.
pub proof fn lemma_total_take(pieces: Seq<Seq<u8>>, n: int)
    requires
        0 <= n <= pieces.len(),
    ensures
        total(pieces.take(n)) <= total(pieces),
    decreases pieces.len() - n,
{
    if n < pieces.len() {
        lemma_total_take(pieces, n + 1);
        assert(pieces.take(n + 1).drop_last() =~= pieces.take(n));
    } else {
        assert(pieces.take(n) =~= pieces);
    }
}

/// The lines of a text hold no more bytes and no more pieces than there is
/// room for in the text.
pub proof fn lemma_lines_total(s: Seq<u8>)
    ensures
        total(lines(s)) + lines(s).len() <= s.len() + 1,
{
    lemma_split_total(s, LF, 0);
    let p = split(s, LF);
    if p.len() > 0 && p.last().len() == 0 {
        assert(total(p) == total(p.drop_last()) + p.last().len());
    }
}

/// A number has at least one digit, and more than one from ten on.
pub proof fn lemma_decimal_len(n: nat)
    ensures
        decimal(n).len() >= 1,
        n >= 10 ==> decimal(n).len() >= 2,
    decreases n,
{
    if n >= 10 {
        lemma_decimal_len(n / 10);
    }
}

/// Different numbers have different digits.
pub proof fn lemma_decimal_injective(a: nat, b: nat)
    requires
        decimal(a) == decimal(b),
    ensures
        a == b,
    decreases a,
{
    lemma_decimal_len(a);
    lemma_decimal_len(b);
    if a >= 10 && b >= 10 {
        let da = decimal(a / 10).push((48 + a % 10) as u8);
        let db = decimal(b / 10).push((48 + b % 10) as u8);
        assert(da.drop_last() =~= decimal(a / 10));
        assert(db.drop_last() =~= decimal(b / 10));
        assert(da.last() == db.last());
        lemma_decimal_injective(a / 10, b / 10);
        assert(a % 10 == b % 10);
        assert(a == 10 * (a / 10) + a % 10);
        assert(b == 10 * (b / 10) + b % 10);
        assert(a == b);
    } else if a < 10 && b < 10 {
        assert(decimal(a)[0] == (48 + a) as u8);
        assert(decimal(b)[0] == (48 + b) as u8);
        assert(a == b);
    } else if a < 10 {
        assert(decimal(a).len() == 1);
        assert(false);
    } else {
        assert(decimal(b).len() == 1);
        assert(false);
    }
}

/// A split always has at least one piece.
pub proof fn lemma_split_nonempty(s: Seq<u8>, sep: u8, i: int)
    ensures
        split_from(s, sep, i).len() >= 1,
{
}

/// The last character of a text that is not empty begins inside it.
pub proof fn lemma_last_char_start(s: Seq<u8>)
    ensures
        0 <= last_char_start(s) <= s.len(),
        s.len() > 0 ==> last_char_start(s) < s.len(),
    decreases s.len(),
{
    if s.len() > 0 && is_continuation_byte(s.last()) {
        lemma_last_char_start(s.drop_last());
    }
}

/// The last character of a text with one more character put behind it
/// begins where the text ended.
pub proof fn lemma_last_char_appended(s: Seq<u8>, t: Seq<u8>)
    requires
        one_char(t),
    ensures
        last_char_start(s + t) == s.len(),
        without_last_char(s + t) == s,
    decreases t.len(),
{
    let all = s + t;
    if t.len() > 1 {
        assert(all.last() == t[t.len() - 1]);
        assert(all.drop_last() =~= s + t.drop_last());
        lemma_last_char_appended(s, t.drop_last());
    } else {
        assert(all.last() == t[0]);
    }
    assert(all.take(s.len() as int) =~= s);
}

/// The UTF-8 bytes of a character are one whole character.
pub proof fn lemma_encoded_one_char(c: char)
    ensures
        one_char(encode_scalar(c as u32)),
{
    let v = c as u32;
    vstd::utf8::char_is_scalar(c);
    assert(v <= 0x7F ==> (v & 0x7F) as u8 <= 0x7F) by (bit_vector);
    assert((0xC0 | ((v >> 6) & 0x1F) as u8) >= 0xC0) by (bit_vector);
    assert((0xE0 | ((v >> 12) & 0x0F) as u8) >= 0xE0) by (bit_vector);
    assert((0xF0 | ((v >> 18) & 0x7) as u8) >= 0xF0) by (bit_vector);
    assert(0x80 <= (0x80 | (v & 0x3F) as u8) <= 0xBF) by (bit_vector);
    assert(0x80 <= (0x80 | ((v >> 6) & 0x3F) as u8) <= 0xBF) by (bit_vector);
    assert(0x80 <= (0x80 | ((v >> 12) & 0x3F) as u8) <= 0xBF) by (bit_vector);
}

/// What occurs in two texts put together occurs as often as in both.
pub proof fn lemma_count_add(a: Seq<u8>, c: Seq<u8>, b: u8)
    ensures
        count(a + c, b) == count(a, b) + count(c, b),
    decreases c.len(),
{
    if c.len() == 0 {
        assert(a + c =~= a);
    } else {
        lemma_count_add(a, c.drop_last(), b);
        assert((a + c).drop_last() =~= a + c.drop_last());
        assert((a + c).last() == c.last());
    }
}

/// What does not occur in a text occurs in it no times.
pub proof fn lemma_count_free(s: Seq<u8>, b: u8)
    requires
        free(s, b),
    ensures
        count(s, b) == 0,
    decreases s.len(),
{
    if s.len() > 0 {
        lemma_count_free(s.drop_last(), b);
    }
}

/// The digits of a number are digits.
pub proof fn lemma_decimal_digits(n: nat)
    ensures
        forall|i: int| 0 <= i < decimal(n).len() ==> 48 <= #[trigger] decimal(n)[i] <= 57,
    decreases n,
{
    if n >= 10 {
        lemma_decimal_digits(n / 10);
        let front = decimal(n / 10);
        assert forall|i: int| 0 <= i < decimal(n).len() implies 48 <= #[trigger] decimal(n)[i]
            <= 57 by {
            if i < front.len() {
                assert(decimal(n)[i] == front[i]);
            }
        }
    }
}

/// A line break holds one line feed.
pub proof fn lemma_count_line_break()
    ensures
        count(seq![CR, LF], LF) == 1,
{
    assert(seq![CR, LF].drop_last() =~= seq![CR]);
    lemma_count_free(seq![CR], LF);
}

/// No piece of a split holds the separator.
pub proof fn lemma_split_free(s: Seq<u8>, sep: u8, i: int, k: int)
    requires
        0 <= i <= s.len(),
        0 <= k < split_from(s, sep, i).len(),
    ensures
        free(split_from(s, sep, i)[k], sep),
    decreases s.len() - i,
{
    lemma_find(s, sep, i);
    let e = find(s, sep, i);
    if i <= e < s.len() {
        if k > 0 {
            lemma_split_free(s, sep, e + 1, k - 1);
        }
    }
}

} // verus!
