//! Byte-string helpers shared by the codec, the views and the controller.
//!
//! Everything that comes off the wire is handled as raw bytes, so nothing in
//! here expects UTF-8.

use crate::lemmas::lemma_split_nonempty;
use vstd::prelude::*;
use vstd::string::*;
use vstd::utf8::{encode_scalar, is_continuation_byte};

verus! {

/// Horizontal tab.
pub const TAB: u8 = 9;

/// Line feed.
pub const LF: u8 = 10;

/// Carriage return.
pub const CR: u8 = 13;

/// Full stop.
pub const DOT: u8 = 46;

/// Slash.
pub const SLASH: u8 = 47;

/// Colon.
pub const COLON: u8 = 58;

/// The bytes of a text whose characters are all ASCII.
pub open spec fn lit(s: Seq<char>) -> Seq<u8> {
    Seq::new(s.len(), |i: int| s[i] as u8)
}

/// The view of a byte vector that may not be there.
pub open spec fn given(o: Option<Vec<u8>>) -> Option<Seq<u8>> {
    match o {
        Some(v) => Some(v@),
        None => None,
    }
}

/// The views of a sequence of byte vectors.
pub open spec fn views(s: Seq<Vec<u8>>) -> Seq<Seq<u8>> {
    Seq::new(s.len(), |i: int| s[i]@)
}

/// Index of the first `b` in `s` at or after `from`, or `s.len()` when
/// there is none.
pub open spec fn find(s: Seq<u8>, b: u8, from: int) -> int
    decreases s.len() - from,
{
    if from >= s.len() {
        s.len() as int
    } else if s[from] == b {
        from
    } else {
        find(s, b, from + 1)
    }
}

/// The pieces of `s[i..]` between occurrences of `sep`. There is always at
/// least one piece; a separator at the very end leaves an empty last piece.
pub open spec fn split_from(s: Seq<u8>, sep: u8, i: int) -> Seq<Seq<u8>>
    decreases s.len() - i,
{
    let e = find(s, sep, i);
    if i <= e < s.len() {
        seq![s.subrange(i, e)] + split_from(s, sep, e + 1)
    } else {
        seq![s.subrange(i, s.len() as int)]
    }
}

/// The pieces of `s` between occurrences of `sep`.
pub open spec fn split(s: Seq<u8>, sep: u8) -> Seq<Seq<u8>> {
    split_from(s, sep, 0)
}

/// How often `b` occurs in `s`.
pub open spec fn count(s: Seq<u8>, b: u8) -> nat
    decreases s.len(),
{
    if s.len() == 0 {
        0
    } else if s.last() == b {
        count(s.drop_last(), b) + 1
    } else {
        count(s.drop_last(), b)
    }
}

/// `b` does not occur in `s`.
pub open spec fn free(s: Seq<u8>, b: u8) -> bool {
    forall|i: int| 0 <= i < s.len() ==> s[i] != b
}

/// The lengths of the pieces, added up.
pub open spec fn total(pieces: Seq<Seq<u8>>) -> nat
    decreases pieces.len(),
{
    if pieces.len() == 0 {
        0
    } else {
        total(pieces.drop_last()) + pieces.last().len()
    }
}

/// The lines of `s`: its pieces between line feeds, without the empty piece
/// that a final line feed leaves behind. Carriage returns stay in place.
pub open spec fn lines(s: Seq<u8>) -> Seq<Seq<u8>> {
    let p = split(s, LF);
    if p.len() > 0 && p.last().len() == 0 {
        p.drop_last()
    } else {
        p
    }
}

/// `s` without its trailing carriage returns.
pub open spec fn trim_cr(s: Seq<u8>) -> Seq<u8>
    decreases s.len(),
{
    if s.len() > 0 && s.last() == CR {
        trim_cr(s.drop_last())
    } else {
        s
    }
}

/// The decimal digits of `n`, most significant first, no padding.
pub open spec fn decimal(n: nat) -> Seq<u8>
    decreases n,
{
    if n < 10 {
        seq![(48 + n) as u8]
    } else {
        decimal(n / 10).push((48 + n % 10) as u8)
    }
}

/// ASCII lower-casing of one byte.
pub open spec fn lower(b: u8) -> u8 {
    if 65 <= b <= 90 {
        (b + 32) as u8
    } else {
        b
    }
}

/// `p` is a prefix of `s`, ASCII letters compared without regard to case.
pub open spec fn is_prefix_ci(p: Seq<u8>, s: Seq<u8>) -> bool {
    &&& p.len() <= s.len()
    &&& forall|i: int| 0 <= i < p.len() ==> lower(p[i]) == lower(#[trigger] s[i])
}

/// `p` is a prefix of `s`, byte for byte.
pub open spec fn is_prefix(p: Seq<u8>, s: Seq<u8>) -> bool {
    p.len() <= s.len() && s.subrange(0, p.len() as int) == p
}

/// `needle` occurs somewhere in `s`.
pub open spec fn contains(s: Seq<u8>, needle: Seq<u8>) -> bool {
    exists|i: int|
        0 <= i <= s.len() - needle.len() && #[trigger] s.subrange(i, i + needle.len()) == needle
}

/// Where the last character of a UTF-8 text begins: behind the last byte
/// that is not a continuation byte.
pub open spec fn last_char_start(s: Seq<u8>) -> int
    decreases s.len(),
{
    if s.len() == 0 {
        0
    } else if is_continuation_byte(s.last()) {
        last_char_start(s.drop_last())
    } else {
        s.len() - 1
    }
}

/// `s` without its last character.
pub open spec fn without_last_char(s: Seq<u8>) -> Seq<u8> {
    s.take(last_char_start(s))
}

/// A text that ends in one whole character: a byte that is no continuation
/// byte, then continuation bytes only.
pub open spec fn one_char(t: Seq<u8>) -> bool {
    &&& t.len() >= 1
    &&& !is_continuation_byte(t[0])
    &&& forall|i: int| 1 <= i < t.len() ==> is_continuation_byte(#[trigger] t[i])
}

/// Copies an ASCII text into a byte vector.
pub(crate) fn ascii(s: &str) -> (r: Vec<u8>)
    requires
        is_ascii(s),
    ensures
        r@ == lit(s@),
{
    broadcast use is_ascii_spec_bytes;

    s.as_bytes_vec()
}

/// Whether two texts hold the same bytes.
pub fn bytes_eq(a: &[u8], b: &[u8]) -> (r: bool)
    ensures
        r == (a@ == b@),
{
    if a.len() != b.len() {
        return false;
    }
    let mut i: usize = 0;
    while i < a.len()
        invariant
            i <= a.len(),
            a.len() == b.len(),
            forall|k: int| 0 <= k < i ==> a@[k] == b@[k],
        decreases a.len() - i,
    {
        if a[i] != b[i] {
            return false;
        }
        i += 1;
    }
    assert(a@ =~= b@);
    true
}

/// Copy of `s[from..to]`.
pub(crate) fn slice_copy(s: &[u8], from: usize, to: usize) -> (r: Vec<u8>)
    requires
        from <= to <= s.len(),
    ensures
        r@ == s@.subrange(from as int, to as int),
{
    let mut r: Vec<u8> = Vec::new();
    let mut i: usize = from;
    while i < to
        invariant
            from <= i <= to <= s.len(),
            r@ == s@.subrange(from as int, i as int),
        decreases to - i,
    {
        r.push(s[i]);
        i += 1;
        assert(r@ =~= s@.subrange(from as int, i as int));
    }
    r
}

/// Copy of `s`.
pub fn copy(s: &[u8]) -> (r: Vec<u8>)
    ensures
        r@ == s@,
{
    let r = slice_copy(s, 0, s.len());
    assert(r@ =~= s@);
    r
}

/// Appends `tail` to `v`.
pub fn append(v: &mut Vec<u8>, tail: &[u8])
    ensures
        final(v)@ == old(v)@ + tail@,
{
    let mut i: usize = 0;
    while i < tail.len()
        invariant
            i <= tail.len(),
            v@ == old(v)@ + tail@.subrange(0, i as int),
        decreases tail.len() - i,
    {
        v.push(tail[i]);
        i += 1;
        assert(v@ =~= old(v)@ + tail@.subrange(0, i as int));
    }
    assert(tail@.subrange(0, tail@.len() as int) =~= tail@);
}

/// Index of the first `b` in `s` at or after `from`, or `s.len()`.
pub(crate) fn find_byte(s: &[u8], b: u8, from: usize) -> (r: usize)
    requires
        from <= s.len(),
    ensures
        r == find(s@, b, from as int),
        from <= r <= s.len(),
{
    let mut i: usize = from;
    while i < s.len() && s[i] != b
        invariant
            from <= i <= s.len(),
            find(s@, b, from as int) == find(s@, b, i as int),
        decreases s.len() - i,
    {
        i += 1;
    }
    i
}

/// The pieces of `s` between occurrences of `sep`.
pub fn split_bytes(s: &[u8], sep: u8) -> (r: Vec<Vec<u8>>)
    ensures
        views(r@) == split(s@, sep),
{
    let mut out: Vec<Vec<u8>> = Vec::new();
    let mut i: usize = 0;
    assert(views(out@) + split_from(s@, sep, 0) =~= split(s@, sep));
    loop
        invariant
            i <= s.len(),
            views(out@) + split_from(s@, sep, i as int) == split(s@, sep),
        decreases s.len() - i,
    {
        let e = find_byte(s, sep, i);
        let piece = slice_copy(s, i, e);
        let ghost before = out@;
        out.push(piece);
        assert(views(out@) =~= views(before) + seq![s@.subrange(i as int, e as int)]);
        if e >= s.len() {
            assert(views(out@) =~= split(s@, sep));
            return out;
        }
        assert(views(out@) + split_from(s@, sep, e + 1) =~= views(before) + split_from(
            s@,
            sep,
            i as int,
        ));
        i = e + 1;
    }
}

/// The lines of `s`; see `lines`.
pub fn split_lines(s: &[u8]) -> (r: Vec<Vec<u8>>)
    ensures
        views(r@) == lines(s@),
{
    let mut p = split_bytes(s, LF);
    proof {
        lemma_split_nonempty(s@, LF, 0);
    }
    if p[p.len() - 1].len() == 0 {
        let ghost before = p@;
        p.pop();
        assert(views(p@) =~= views(before).drop_last());
    }
    p
}

/// `s` without its trailing carriage returns.
pub fn trim_trailing_cr(s: &[u8]) -> (r: Vec<u8>)
    ensures
        r@ == trim_cr(s@),
{
    let mut n: usize = s.len();
    assert(s@.subrange(0, n as int) =~= s@);
    while n > 0 && s[n - 1] == CR
        invariant
            n <= s.len(),
            trim_cr(s@) == trim_cr(s@.subrange(0, n as int)),
        decreases n,
    {
        assert(s@.subrange(0, n as int).drop_last() =~= s@.subrange(0, n - 1));
        n -= 1;
    }
    slice_copy(s, 0, n)
}

/// The decimal digits of `n`.
pub fn decimal_bytes(n: u64) -> (r: Vec<u8>)
    ensures
        r@ == decimal(n as nat),
    decreases n,
{
    if n < 10 {
        let mut v: Vec<u8> = Vec::new();
        v.push(48 + n as u8);
        assert(v@ =~= decimal(n as nat));
        v
    } else {
        let mut v = decimal_bytes(n / 10);
        v.push(48 + (n % 10) as u8);
        v
    }
}

/// ASCII lower-casing of one byte.
pub fn lower_byte(b: u8) -> (r: u8)
    ensures
        r == lower(b),
{
    if 65 <= b && b <= 90 {
        b + 32
    } else {
        b
    }
}

/// Whether `s` begins with `p`, ASCII letters compared without regard to case.
pub fn starts_with_ci(s: &[u8], p: &[u8]) -> (r: bool)
    ensures
        r == is_prefix_ci(p@, s@),
{
    if p.len() > s.len() {
        return false;
    }
    let mut i: usize = 0;
    while i < p.len()
        invariant
            i <= p.len() <= s.len(),
            forall|k: int| 0 <= k < i ==> lower(p@[k]) == lower(#[trigger] s@[k]),
        decreases p.len() - i,
    {
        if lower_byte(p[i]) != lower_byte(s[i]) {
            return false;
        }
        i += 1;
    }
    true
}

/// Whether `s` begins with `p`.
pub fn starts_with(s: &[u8], p: &[u8]) -> (r: bool)
    ensures
        r == is_prefix(p@, s@),
{
    if p.len() > s.len() {
        return false;
    }
    let head = slice_copy(s, 0, p.len());
    bytes_eq(head.as_slice(), p)
}

/// Whether `needle` occurs somewhere in `s`.
pub fn contains_bytes(s: &[u8], needle: &[u8]) -> (r: bool)
    ensures
        r == contains(s@, needle@),
{
    if needle.len() > s.len() {
        return false;
    }
    let last: usize = s.len() - needle.len();
    let mut i: usize = 0;
    loop
        invariant
            i <= last,
            last == s.len() - needle.len(),
            needle.len() <= s.len(),
            forall|k: int| 0 <= k < i ==> #[trigger] s@.subrange(k, k + needle@.len()) != needle@,
        decreases last - i,
    {
        let piece = slice_copy(s, i, i + needle.len());
        if bytes_eq(piece.as_slice(), needle) {
            return true;
        }
        if i == last {
            return false;
        }
        i += 1;
    }
}

/// The UTF-8 bytes of one character.
pub fn encode_char(c: char) -> (r: Vec<u8>)
    ensures
        r@ == encode_scalar(c as u32),
        1 <= r@.len() <= 4,
{
    let v: u32 = c as u32;
    let r = if v <= 0x7F {
        vec![(v & 0x7F) as u8]
    } else if v <= 0x7FF {
        vec![0xC0 | ((v >> 6) & 0x1F) as u8, 0x80 | (v & 0x3F) as u8]
    } else if v <= 0xFFFF {
        vec![
            0xE0 | ((v >> 12) & 0x0F) as u8,
            0x80 | ((v >> 6) & 0x3F) as u8,
            0x80 | (v & 0x3F) as u8,
        ]
    } else {
        vec![
            0xF0 | ((v >> 18) & 0x7) as u8,
            0x80 | ((v >> 12) & 0x3F) as u8,
            0x80 | ((v >> 6) & 0x3F) as u8,
            0x80 | (v & 0x3F) as u8,
        ]
    };
    proof {
        vstd::utf8::char_is_scalar(c);
        assert(r@ =~= encode_scalar(v));
    }
    r
}

/// Removes the last character of a UTF-8 text.
pub fn pop_char(v: &mut Vec<u8>)
    ensures
        final(v)@ == without_last_char(old(v)@),
{
    let mut n: usize = v.len();
    assert(v@.take(n as int) =~= v@);
    while n > 0 && 0x80 <= v[n - 1] && v[n - 1] <= 0xbf
        invariant
            n <= v.len(),
            v@ == old(v)@,
            last_char_start(v@) == last_char_start(v@.take(n as int)),
        decreases n,
    {
        assert(v@.take(n as int).drop_last() =~= v@.take(n - 1));
        n -= 1;
    }
    if n > 0 {
        n -= 1;
    }
    v.truncate(n);
}

} // verus!
