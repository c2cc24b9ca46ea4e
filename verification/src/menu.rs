//! The menu wire format: one entry per line, a code byte for the item type
//! and then up to four tab-separated fields. A line holding only a dot ends
//! the menu.

use crate::bytes::{
    append, copy, lines, slice_copy, split, split_bytes, split_lines, total, trim_cr,
    trim_trailing_cr, views, CR, DOT, LF, TAB,
};
use crate::lemmas::{
    lemma_lines_total, lemma_one_line, lemma_split_four, lemma_split_nonempty, lemma_total_take,
    lemma_trim_cr_appended, lemma_trim_cr_keeps,
};
use crate::gopher::{ItemType, Locator, LocatorView};
use vstd::prelude::*;

verus! {

/// One link of a menu.
#[derive(Debug, PartialEq, Eq)]
pub struct Link {
    pub name: Vec<u8>,
    pub selector: Vec<u8>,
    pub host: Vec<u8>,
    pub port: Vec<u8>,
    pub item_type: ItemType,
}

/// A link as plain values.
pub struct LinkView {
    pub name: Seq<u8>,
    pub selector: Seq<u8>,
    pub host: Seq<u8>,
    pub port: Seq<u8>,
    pub item_type: ItemType,
}

impl View for Link {
    type V = LinkView;

    open spec fn view(&self) -> LinkView {
        LinkView {
            name: self.name@,
            selector: self.selector@,
            host: self.host@,
            port: self.port@,
            item_type: self.item_type,
        }
    }
}

impl LinkView {
    /// Where the link leads.
    pub open spec fn locator(self) -> LocatorView {
        LocatorView {
            item_type: self.item_type,
            host: self.host,
            port: self.port,
            selector: self.selector,
        }
    }
}

impl Link {
    /// Where the link leads.
    pub fn locator(&self) -> (l: Locator)
        ensures
            l@ == self@.locator(),
    {
        Locator {
            item_type: self.item_type,
            host: copy(self.host.as_slice()),
            port: copy(self.port.as_slice()),
            selector: copy(self.selector.as_slice()),
        }
    }
}

/// The views of a sequence of links.
pub open spec fn link_views(s: Seq<Link>) -> Seq<LinkView> {
    Seq::new(s.len(), |i: int| s[i]@)
}

/// A line that ends the menu: a single dot, carriage returns aside.
pub open spec fn is_terminator(line: Seq<u8>) -> bool {
    trim_cr(line) == seq![DOT]
}

/// The item type of a line; an empty line counts as information.
pub open spec fn line_type(line: Seq<u8>) -> ItemType {
    if line.len() == 0 {
        ItemType::Info
    } else {
        ItemType::of_code(line[0])
    }
}

/// The tab-separated fields of a line, behind its code byte.
pub open spec fn fields(line: Seq<u8>) -> Seq<Seq<u8>> {
    if line.len() == 0 {
        split(line, TAB)
    } else {
        split(line.subrange(1, line.len() as int), TAB)
    }
}

/// The `k`-th field of a line; empty where the line has fewer fields.
pub open spec fn field(line: Seq<u8>, k: int) -> Seq<u8> {
    if 0 <= k < fields(line).len() {
        fields(line)[k]
    } else {
        Seq::empty()
    }
}

/// The link a line describes: name, selector, host and port, in that order.
/// Carriage returns at the end of the port are dropped; fields past the
/// fourth are ignored.
pub open spec fn link_of(line: Seq<u8>) -> LinkView {
    LinkView {
        name: field(line, 0),
        selector: field(line, 1),
        host: field(line, 2),
        port: trim_cr(field(line, 3)),
        item_type: line_type(line),
    }
}

/// Index of the first terminator among `ls[i..]`, or `ls.len()`.
pub open spec fn menu_end(ls: Seq<Seq<u8>>, i: int) -> int
    decreases ls.len() - i,
{
    if i >= ls.len() {
        ls.len() as int
    } else if is_terminator(ls[i]) {
        i
    } else {
        menu_end(ls, i + 1)
    }
}

/// The lines of a menu body that count: those before the terminator, or all
/// of them when the body just ends.
pub open spec fn entries(body: Seq<u8>) -> Seq<Seq<u8>> {
    lines(body).take(menu_end(lines(body), 0))
}

/// The links among the first `n` lines, in order.
pub open spec fn links_in(ls: Seq<Seq<u8>>, n: int) -> Seq<LinkView>
    decreases n,
{
    if n <= 0 {
        Seq::empty()
    } else if line_type(ls[n - 1]).links() {
        links_in(ls, n - 1).push(link_of(ls[n - 1]))
    } else {
        links_in(ls, n - 1)
    }
}

/// The links of a menu body. A link's place in this sequence, counted from
/// one, is its ordinal.
pub open spec fn menu_links(body: Seq<u8>) -> Seq<LinkView> {
    links_in(entries(body), entries(body).len() as int)
}

/// The link called `name` that leads to `target`.
pub open spec fn link_to(name: Seq<u8>, target: LocatorView) -> LinkView {
    LinkView {
        name,
        selector: target.selector,
        host: target.host,
        port: target.port,
        item_type: target.item_type,
    }
}

/// The menu line for a link: code byte, the four fields with tabs between
/// them, CR LF.
pub open spec fn line_of(l: LinkView) -> Seq<u8> {
    seq![l.item_type.code_of()] + l.name + seq![TAB] + l.selector + seq![TAB] + l.host + seq![TAB]
        + l.port + seq![CR, LF]
}

/// `menu_end` stays within the lines and stops at a terminator.
pub proof fn lemma_menu_end(ls: Seq<Seq<u8>>, i: int)
    requires
        0 <= i <= ls.len(),
    ensures
        i <= menu_end(ls, i) <= ls.len(),
        menu_end(ls, i) < ls.len() ==> is_terminator(ls[menu_end(ls, i)]),
        forall|k: int| i <= k < menu_end(ls, i) ==> !is_terminator(ls[k]),
    decreases ls.len() - i,
{
    if i < ls.len() && !is_terminator(ls[i]) {
        lemma_menu_end(ls, i + 1);
    }
}

/// The links among the first `n` lines do not depend on later lines.
pub proof fn lemma_links_in_take(ls: Seq<Seq<u8>>, n: int, m: int)
    requires
        0 <= n <= m <= ls.len(),
    ensures
        links_in(ls.take(m), n) == links_in(ls, n),
    decreases n,
{
    if n > 0 {
        lemma_links_in_take(ls, n - 1, m);
    }
}

/// Every link takes a line that is not empty, so the first `n` lines hold
/// at least as many bytes as links.
pub proof fn lemma_links_in_total(ls: Seq<Seq<u8>>, n: int)
    requires
        0 <= n <= ls.len(),
    ensures
        links_in(ls, n).len() <= total(ls.take(n)),
    decreases n,
{
    if n > 0 {
        lemma_links_in_total(ls, n - 1);
        assert(ls.take(n).drop_last() =~= ls.take(n - 1));
        assert(ls.take(n).last() == ls[n - 1]);
    }
}

/// A menu body of `k` bytes holds at most `(k + 1) / 2` links: each takes a
/// line of its own with at least a code byte on it.
pub proof fn lemma_links_bound(body: Seq<u8>)
    ensures
        2 * menu_links(body).len() <= body.len() + 1,
{
    let ls = lines(body);
    let n = menu_end(ls, 0);
    lemma_menu_end(ls, 0);
    lemma_links_in_take(ls, n, n);
    lemma_links_in_len(ls, n);
    lemma_links_in_total(ls, n);
    lemma_total_take(ls, n);
    lemma_lines_total(body);
}

/// A link that can be written as a menu line and read back unchanged: its
/// item type makes a link, none of its fields holds a tab or a line feed,
/// and its port does not end in a carriage return.
pub open spec fn writable(l: LinkView) -> bool {
    &&& l.item_type.links()
    &&& forall|i: int| 0 <= i < l.name.len() ==> l.name[i] != TAB && l.name[i] != LF
    &&& forall|i: int| 0 <= i < l.selector.len() ==> l.selector[i] != TAB && l.selector[i] != LF
    &&& forall|i: int| 0 <= i < l.host.len() ==> l.host[i] != TAB && l.host[i] != LF
    &&& forall|i: int| 0 <= i < l.port.len() ==> l.port[i] != TAB && l.port[i] != LF
    &&& l.port.len() == 0 || l.port.last() != CR
}

/// The fields of the menu line of a link are those of the link.
proof fn lemma_line_fields(l: LinkView)
    requires
        writable(l),
    ensures
        link_of(line_of(l).drop_last()) == l,
        !is_terminator(line_of(l).drop_last()),
        forall|k: int| 0 <= k < line_of(l).len() - 1 ==> line_of(l)[k] != LF,
{
    let tail = l.port.push(CR);
    let rest = l.name + seq![TAB] + l.selector + seq![TAB] + l.host + seq![TAB] + tail;
    let line = seq![l.item_type.code_of()] + rest;
    assert(line_of(l).drop_last() =~= line);
    assert(line.subrange(1, line.len() as int) =~= rest);
    lemma_split_four(l.name, l.selector, l.host, tail, TAB);
    lemma_trim_cr_appended(l.port);
    crate::gopher::law_item_type_codes(l.item_type, 0);
    assert(rest[l.name.len() as int] == TAB);
    assert(line[l.name.len() as int + 1] == TAB);
    lemma_trim_cr_keeps(line, l.name.len() as int + 1);
    assert forall|k: int| 0 <= k < line_of(l).len() - 1 implies line_of(l)[k] != LF by {
        assert(line_of(l)[k] == line[k]);
        if k >= 1 {
            assert(line[k] == rest[k - 1]);
            let t1 = l.name.len() as int;
            let t2 = t1 + 1 + l.selector.len();
            let t3 = t2 + 1 + l.host.len();
            if k - 1 < t1 {
                assert(rest[k - 1] == l.name[k - 1]);
            } else if k - 1 == t1 {
            } else if k - 1 < t2 {
                assert(rest[k - 1] == l.selector[k - 1 - t1 - 1]);
            } else if k - 1 == t2 {
            } else if k - 1 < t3 {
                assert(rest[k - 1] == l.host[k - 1 - t2 - 1]);
            } else if k - 1 == t3 {
            } else {
                assert(rest[k - 1] == tail[k - 1 - t3 - 1]);
            }
        }
    }
}

/// Reading the menu line of a link gives that link and no other.
pub proof fn law_menu_line_round_trip(l: LinkView)
    requires
        writable(l),
    ensures
        menu_links(line_of(l)) == seq![l],
{
    let body = line_of(l);
    let line = body.drop_last();
    lemma_line_fields(l);
    assert(body =~= line.push(LF));
    lemma_one_line(line);
    let ls = lines(body);
    assert(menu_end(ls, 0) == 1) by {
        assert(menu_end(ls, 1) == 1);
    }
    assert(ls.take(1) =~= ls);
    assert(links_in(ls, 1) =~= seq![l]) by {
        assert(links_in(ls, 0) =~= Seq::<LinkView>::empty());
    }
}

/// The links among the first `n` lines are the first of the links among
/// the first `m`, for `n` up to `m`.
pub proof fn lemma_links_in_prefix(ls: Seq<Seq<u8>>, n: int, m: int)
    requires
        0 <= n <= m,
    ensures
        links_in(ls, n).len() <= links_in(ls, m).len(),
        forall|k: int| 0 <= k < links_in(ls, n).len() ==> links_in(ls, m)[k] == links_in(ls, n)[k],
    decreases m - n,
{
    if n < m {
        lemma_links_in_prefix(ls, n, m - 1);
    }
}

/// Links are numbered from one in the order of their lines, and only links
/// are: a line that bears a link has the ordinal under which the link
/// stands among the links of the menu, and a line that bears none leaves
/// the count as it was.
pub proof fn law_ordinals_count_links_only(body: Seq<u8>, j: int)
    requires
        0 <= j < entries(body).len(),
    ensures
        line_type(entries(body)[j]).links() ==> ({
            let ordinal = links_in(entries(body), j + 1).len();
            &&& ordinal == links_in(entries(body), j).len() + 1
            &&& 1 <= ordinal <= menu_links(body).len()
            &&& menu_links(body)[ordinal - 1] == link_of(entries(body)[j])
        }),
        !line_type(entries(body)[j]).links() ==> links_in(entries(body), j + 1) == links_in(
            entries(body),
            j,
        ),
{
    lemma_links_in_prefix(entries(body), j + 1, entries(body).len() as int);
}

/// There are never more links than lines.
pub proof fn lemma_links_in_len(ls: Seq<Seq<u8>>, n: int)
    requires
        0 <= n,
    ensures
        links_in(ls, n).len() <= n,
    decreases n,
{
    if n > 0 {
        lemma_links_in_len(ls, n - 1);
    }
}

/// Whether a line ends the menu.
pub fn is_terminator_line(line: &[u8]) -> (r: bool)
    ensures
        r == is_terminator(line@),
{
    let t = trim_trailing_cr(line);
    let r = t.len() == 1 && t[0] == DOT;
    proof {
        if r {
            assert(t@ =~= seq![DOT]);
        }
    }
    r
}

/// The item type of a line.
pub fn line_item_type(line: &[u8]) -> (t: ItemType)
    ensures
        t == line_type(line@),
{
    if line.len() == 0 {
        ItemType::Info
    } else {
        ItemType::from_code(line[0])
    }
}

fn field_at(f: &Vec<Vec<u8>>, k: usize) -> (r: Vec<u8>)
    ensures
        r@ == (if k < f.len() {
            f[k as int]@
        } else {
            Seq::empty()
        }),
{
    if k < f.len() {
        copy(f[k].as_slice())
    } else {
        Vec::new()
    }
}

/// The tab-separated fields of a line, behind its code byte.
pub fn line_fields(line: &[u8]) -> (f: Vec<Vec<u8>>)
    ensures
        views(f@) == fields(line@),
        f.len() >= 1,
{
    let rest = if line.len() == 0 {
        copy(line)
    } else {
        slice_copy(line, 1, line.len())
    };
    proof {
        lemma_split_nonempty(rest@, TAB, 0);
    }
    split_bytes(rest.as_slice(), TAB)
}

/// Reads the link that a line describes.
pub fn parse_link(line: &[u8]) -> (l: Link)
    ensures
        l@ == link_of(line@),
{
    let f = line_fields(line);
    let port = field_at(&f, 3);
    Link {
        name: field_at(&f, 0),
        selector: field_at(&f, 1),
        host: field_at(&f, 2),
        port: trim_trailing_cr(port.as_slice()),
        item_type: line_item_type(line),
    }
}

/// Reads the links of a menu body, in order. Lines that are information or
/// of no known type give no link; a line holding only a dot ends the menu,
/// and so does the end of the body.
pub fn parse_menu(body: &[u8]) -> (links: Vec<Link>)
    ensures
        link_views(links@) == menu_links(body@),
{
    let ls = split_lines(body);
    let mut out: Vec<Link> = Vec::new();
    let mut i: usize = 0;
    assert(link_views(out@) =~= links_in(views(ls@), 0));
    while i < ls.len() && !is_terminator_line(ls[i].as_slice())
        invariant
            i <= ls.len(),
            views(ls@) == lines(body@),
            menu_end(views(ls@), 0) == menu_end(views(ls@), i as int),
            link_views(out@) == links_in(views(ls@), i as int),
        decreases ls.len() - i,
    {
        if line_item_type(ls[i].as_slice()).is_link() {
            let link = parse_link(ls[i].as_slice());
            let ghost before = out@;
            out.push(link);
            assert(link_views(out@) =~= link_views(before).push(link@));
        }
        i += 1;
    }
    proof {
        lemma_links_in_take(views(ls@), i as int, i as int);
    }
    out
}

/// Writes the menu line for a link to `name` at `target`.
pub fn menu_line(name: &[u8], target: &Locator) -> (r: Vec<u8>)
    ensures
        r@ == line_of(link_to(name@, target@)),
{
    let mut r: Vec<u8> = Vec::new();
    r.push(target.item_type.code());
    append(&mut r, name);
    r.push(TAB);
    append(&mut r, target.selector.as_slice());
    r.push(TAB);
    append(&mut r, target.host.as_slice());
    r.push(TAB);
    append(&mut r, target.port.as_slice());
    r.push(CR);
    r.push(LF);
    assert(r@ =~= line_of(link_to(name@, target@)));
    r
}

} // verus!
