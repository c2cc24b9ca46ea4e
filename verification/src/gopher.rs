//! The protocol codec: item types, locators, the outbound request and the
//! menu wire format. Every function here is total: malformed input degrades
//! to empty or partial fields and is never rejected.

use crate::bytes::{
    append, ascii, bytes_eq, copy, find, find_byte, given, is_prefix, lit, slice_copy, starts_with,
    COLON, CR, LF, SLASH,
};
use crate::lemmas::lemma_find_is;
use vstd::prelude::*;

verus! {

/// What kind of resource a menu line or a locator points at.
#[derive(Clone, Copy, Debug, PartialEq, Eq, Structural)]
pub enum ItemType {
    Text,
    Menu,
    Binhex,
    DosFile,
    UuEncoded,
    Search,
    Binary,
    Gif,
    Html,
    Image,
    Info,
    Png,
    Sound,
    Document,
    Unsupported,
}

/// The one-byte code written for `Unsupported`; it decodes to `Unsupported`
/// again, as every byte without a meaning does.
pub const UNSUPPORTED_CODE: u8 = 63;

impl ItemType {
    /// The item type that a code byte stands for.
    pub open spec fn of_code(c: u8) -> ItemType {
        if c == 48 {
            ItemType::Text
        } else if c == 49 {
            ItemType::Menu
        } else if c == 52 {
            ItemType::Binhex
        } else if c == 53 {
            ItemType::DosFile
        } else if c == 54 {
            ItemType::UuEncoded
        } else if c == 55 {
            ItemType::Search
        } else if c == 57 {
            ItemType::Binary
        } else if c == 103 {
            ItemType::Gif
        } else if c == 104 {
            ItemType::Html
        } else if c == 73 {
            ItemType::Image
        } else if c == 105 {
            ItemType::Info
        } else if c == 112 {
            ItemType::Png
        } else if c == 115 {
            ItemType::Sound
        } else if c == 100 {
            ItemType::Document
        } else {
            ItemType::Unsupported
        }
    }

    /// The code byte written for an item type.
    pub open spec fn code_of(self) -> u8 {
        match self {
            ItemType::Text => 48,
            ItemType::Menu => 49,
            ItemType::Binhex => 52,
            ItemType::DosFile => 53,
            ItemType::UuEncoded => 54,
            ItemType::Search => 55,
            ItemType::Binary => 57,
            ItemType::Gif => 103,
            ItemType::Html => 104,
            ItemType::Image => 73,
            ItemType::Info => 105,
            ItemType::Png => 112,
            ItemType::Sound => 115,
            ItemType::Document => 100,
            ItemType::Unsupported => UNSUPPORTED_CODE,
        }
    }

    /// Kinds that are saved to disk rather than shown.
    pub open spec fn downloads(self) -> bool {
        self == ItemType::Binhex || self == ItemType::DosFile || self == ItemType::UuEncoded
            || self == ItemType::Binary || self == ItemType::Gif || self == ItemType::Image
            || self == ItemType::Png || self == ItemType::Sound || self == ItemType::Document
    }

    /// Kinds whose response is a menu.
    pub open spec fn lists(self) -> bool {
        self == ItemType::Menu || self == ItemType::Search
    }

    /// Kinds whose response is shown as plain lines.
    pub open spec fn reads(self) -> bool {
        self == ItemType::Text || self == ItemType::Html
    }

    /// Kinds that make a menu line a link.
    pub open spec fn links(self) -> bool {
        self != ItemType::Info && self != ItemType::Unsupported
    }

    /// The item type that a code byte stands for.
    pub fn from_code(c: u8) -> (t: ItemType)
        ensures
            t == ItemType::of_code(c),
    {
        if c == 48 {
            ItemType::Text
        } else if c == 49 {
            ItemType::Menu
        } else if c == 52 {
            ItemType::Binhex
        } else if c == 53 {
            ItemType::DosFile
        } else if c == 54 {
            ItemType::UuEncoded
        } else if c == 55 {
            ItemType::Search
        } else if c == 57 {
            ItemType::Binary
        } else if c == 103 {
            ItemType::Gif
        } else if c == 104 {
            ItemType::Html
        } else if c == 73 {
            ItemType::Image
        } else if c == 105 {
            ItemType::Info
        } else if c == 112 {
            ItemType::Png
        } else if c == 115 {
            ItemType::Sound
        } else if c == 100 {
            ItemType::Document
        } else {
            ItemType::Unsupported
        }
    }

    /// The code byte written for this item type.
    pub fn code(self) -> (c: u8)
        ensures
            c == self.code_of(),
    {
        match self {
            ItemType::Text => 48,
            ItemType::Menu => 49,
            ItemType::Binhex => 52,
            ItemType::DosFile => 53,
            ItemType::UuEncoded => 54,
            ItemType::Search => 55,
            ItemType::Binary => 57,
            ItemType::Gif => 103,
            ItemType::Html => 104,
            ItemType::Image => 73,
            ItemType::Info => 105,
            ItemType::Png => 112,
            ItemType::Sound => 115,
            ItemType::Document => 100,
            ItemType::Unsupported => UNSUPPORTED_CODE,
        }
    }

    /// Whether resources of this kind are saved to disk.
    pub fn is_download(self) -> (r: bool)
        ensures
            r == self.downloads(),
    {
        match self {
            ItemType::Binhex
            | ItemType::DosFile
            | ItemType::UuEncoded
            | ItemType::Binary
            | ItemType::Gif
            | ItemType::Image
            | ItemType::Png
            | ItemType::Sound
            | ItemType::Document => true,
            _ => false,
        }
    }

    /// Whether the response for this kind is a menu.
    pub fn is_menu(self) -> (r: bool)
        ensures
            r == self.lists(),
    {
        match self {
            ItemType::Menu | ItemType::Search => true,
            _ => false,
        }
    }

    /// Whether the response for this kind is shown as plain lines.
    pub fn is_text(self) -> (r: bool)
        ensures
            r == self.reads(),
    {
        match self {
            ItemType::Text | ItemType::Html => true,
            _ => false,
        }
    }

    /// Whether a menu line of this kind is a link.
    pub fn is_link(self) -> (r: bool)
        ensures
            r == self.links(),
    {
        match self {
            ItemType::Info | ItemType::Unsupported => false,
            _ => true,
        }
    }
}

/// Decoding undoes encoding for every item type, and encoding undoes
/// decoding for every byte that has a meaning.
pub proof fn law_item_type_codes(t: ItemType, c: u8)
    ensures
        ItemType::of_code(t.code_of()) == t,
        ItemType::of_code(c) != ItemType::Unsupported ==> ItemType::of_code(c).code_of() == c,
{
}

/// Where a resource lives.
#[derive(Debug, PartialEq, Eq)]
pub struct Locator {
    pub item_type: ItemType,
    pub host: Vec<u8>,
    pub port: Vec<u8>,
    pub selector: Vec<u8>,
}

/// A locator as plain values.
pub struct LocatorView {
    pub item_type: ItemType,
    pub host: Seq<u8>,
    pub port: Seq<u8>,
    pub selector: Seq<u8>,
}

impl View for Locator {
    type V = LocatorView;

    open spec fn view(&self) -> LocatorView {
        LocatorView {
            item_type: self.item_type,
            host: self.host@,
            port: self.port@,
            selector: self.selector@,
        }
    }
}

/// The scheme that introduces a locator in text form.
pub open spec fn scheme() -> Seq<u8> {
    lit("gopher://"@)
}

/// The port taken when a locator names none.
pub open spec fn default_port() -> Seq<u8> {
    lit("70"@)
}

/// `text` with one leading scheme removed, if it has one.
pub open spec fn without_scheme(text: Seq<u8>) -> Seq<u8> {
    if is_prefix(scheme(), text) {
        text.subrange(scheme().len() as int, text.len() as int)
    } else {
        text
    }
}

/// What a locator text means. After the optional scheme, everything up to
/// the first slash is `host` or `host:port`; behind the slash stand the code
/// byte of the item type and then the selector. A missing port is "70", a
/// missing item type is a menu, a missing selector is empty.
pub open spec fn locator_of(text: Seq<u8>) -> LocatorView {
    let body = without_scheme(text);
    let slash = find(body, SLASH, 0);
    let authority = body.subrange(0, slash);
    let colon = find(authority, COLON, 0);
    let host = authority.subrange(0, colon);
    let port = if colon < authority.len() {
        authority.subrange(colon + 1, authority.len() as int)
    } else {
        default_port()
    };
    if body.len() - slash <= 1 {
        LocatorView { item_type: ItemType::Menu, host, port, selector: Seq::empty() }
    } else {
        LocatorView {
            item_type: ItemType::of_code(body[slash + 1]),
            host,
            port,
            selector: body.subrange(slash + 2, body.len() as int),
        }
    }
}

/// The text form of a locator.
pub open spec fn url_of(l: LocatorView) -> Seq<u8> {
    scheme() + l.host + seq![COLON] + l.port + seq![SLASH, l.item_type.code_of()] + l.selector
}

/// Where the last path segment of `s` begins: behind its last slash, or at
/// the start when it has none.
pub open spec fn segment_start(s: Seq<u8>) -> int
    decreases s.len(),
{
    if s.len() == 0 {
        0
    } else if s.last() == SLASH {
        s.len() as int
    } else {
        segment_start(s.drop_last())
    }
}

/// `s` without its trailing slashes.
pub open spec fn trim_slashes(s: Seq<u8>) -> Seq<u8>
    decreases s.len(),
{
    if s.len() > 0 && s.last() == SLASH {
        trim_slashes(s.drop_last())
    } else {
        s
    }
}

/// The name under which a download is saved: the last path segment of the
/// selector, slashes at the end aside. A selector of slashes only, or an
/// empty one, gives no name.
pub open spec fn file_name_of(selector: Seq<u8>) -> Option<Seq<u8>> {
    let path = trim_slashes(selector);
    if path.len() == 0 {
        None
    } else {
        Some(path.subrange(segment_start(path), path.len() as int))
    }
}

/// The whole outbound message for a selector.
pub open spec fn request_of(selector: Seq<u8>) -> Seq<u8> {
    selector + seq![CR, LF]
}

/// A locator can be written as text and read back unchanged when its host
/// holds neither a colon nor a slash and its port holds no slash.
pub open spec fn writable(l: LocatorView) -> bool {
    &&& forall|i: int| 0 <= i < l.host.len() ==> l.host[i] != COLON && l.host[i] != SLASH
    &&& forall|i: int| 0 <= i < l.port.len() ==> l.port[i] != SLASH
}

/// Reading the text form of a locator gives the locator back.
pub proof fn law_locator_round_trip(l: LocatorView)
    requires
        writable(l),
    ensures
        locator_of(url_of(l)) == l,
{
    let text = url_of(l);
    let rest = l.host + seq![COLON] + l.port + seq![SLASH, l.item_type.code_of()] + l.selector;
    assert(text =~= scheme() + rest);
    assert(text.subrange(0, scheme().len() as int) =~= scheme());
    let body = without_scheme(text);
    assert(body =~= rest);
    let slash = (l.host.len() + 1 + l.port.len()) as int;
    lemma_find_is(body, SLASH, 0, slash);
    let authority = body.subrange(0, slash);
    assert(authority =~= l.host + seq![COLON] + l.port);
    lemma_find_is(authority, COLON, 0, l.host.len() as int);
    let got = locator_of(text);
    assert(got.host =~= l.host);
    assert(got.port =~= l.port);
    assert(got.selector =~= l.selector);
    law_item_type_codes(l.item_type, 0);
}

fn scheme_bytes() -> (r: Vec<u8>)
    ensures
        r@ == scheme(),
{
    proof {
        reveal_strlit("gopher://");
    }
    ascii("gopher://")
}

fn default_port_bytes() -> (r: Vec<u8>)
    ensures
        r@ == default_port(),
{
    proof {
        reveal_strlit("70");
    }
    ascii("70")
}

impl Locator {
    /// A locator of the given parts.
    pub fn new(item_type: ItemType, host: Vec<u8>, port: Vec<u8>, selector: Vec<u8>) -> (l: Locator)
        ensures
            l@ == (LocatorView { item_type, host: host@, port: port@, selector: selector@ }),
    {
        Locator { item_type, host, port, selector }
    }

    /// An independent copy.
    pub fn duplicate(&self) -> (l: Locator)
        ensures
            l@ == self@,
    {
        Locator {
            item_type: self.item_type,
            host: copy(self.host.as_slice()),
            port: copy(self.port.as_slice()),
            selector: copy(self.selector.as_slice()),
        }
    }

    /// Whether two locators name the same resource.
    pub fn same(&self, other: &Locator) -> (r: bool)
        ensures
            r == (self@ == other@),
    {
        let r = self.item_type == other.item_type && bytes_eq(
            self.host.as_slice(),
            other.host.as_slice(),
        ) && bytes_eq(self.port.as_slice(), other.port.as_slice()) && bytes_eq(
            self.selector.as_slice(),
            other.selector.as_slice(),
        );
        r
    }

    /// The text form: scheme, host, port, item type code and selector.
    pub fn url(&self) -> (r: Vec<u8>)
        ensures
            r@ == url_of(self@),
    {
        let mut r = scheme_bytes();
        append(&mut r, self.host.as_slice());
        r.push(COLON);
        append(&mut r, self.port.as_slice());
        r.push(SLASH);
        r.push(self.item_type.code());
        append(&mut r, self.selector.as_slice());
        assert(r@ =~= url_of(self@));
        r
    }
}

/// Reads a locator from text. Never fails: what is absent is filled in.
pub fn parse_locator(text: &[u8]) -> (l: Locator)
    ensures
        l@ == locator_of(text@),
{
    let prefix = scheme_bytes();
    let start: usize = if starts_with(text, prefix.as_slice()) {
        prefix.len()
    } else {
        0
    };
    let body = slice_copy(text, start, text.len());
    assert(body@ =~= without_scheme(text@));
    let slash = find_byte(body.as_slice(), SLASH, 0);
    let authority = slice_copy(body.as_slice(), 0, slash);
    let colon = find_byte(authority.as_slice(), COLON, 0);
    let host = slice_copy(authority.as_slice(), 0, colon);
    let port = if colon < authority.len() {
        slice_copy(authority.as_slice(), colon + 1, authority.len())
    } else {
        default_port_bytes()
    };
    if body.len() - slash <= 1 {
        Locator { item_type: ItemType::Menu, host, port, selector: Vec::new() }
    } else {
        let item_type = ItemType::from_code(body[slash + 1]);
        let selector = slice_copy(body.as_slice(), slash + 2, body.len());
        Locator { item_type, host, port, selector }
    }
}

/// The file name for a download of `selector`; see `file_name_of`.
pub fn file_name(selector: &[u8]) -> (r: Option<Vec<u8>>)
    ensures
        given(r) == file_name_of(selector@),
{
    let mut end: usize = selector.len();
    assert(selector@.subrange(0, end as int) =~= selector@);
    while end > 0 && selector[end - 1] == SLASH
        invariant
            end <= selector.len(),
            trim_slashes(selector@) == trim_slashes(selector@.subrange(0, end as int)),
        decreases end,
    {
        assert(selector@.subrange(0, end as int).drop_last() =~= selector@.subrange(0, end - 1));
        end -= 1;
    }
    if end == 0 {
        return None;
    }
    let ghost path = selector@.subrange(0, end as int);
    let mut start: usize = end;
    assert(path.subrange(0, start as int) =~= path);
    while start > 0 && selector[start - 1] != SLASH
        invariant
            start <= end <= selector.len(),
            path == selector@.subrange(0, end as int),
            segment_start(path) == segment_start(path.subrange(0, start as int)),
        decreases start,
    {
        assert(path.subrange(0, start as int).drop_last() =~= path.subrange(0, start - 1));
        start -= 1;
    }
    let name = slice_copy(selector, start, end);
    assert(name@ =~= path.subrange(segment_start(path), path.len() as int));
    Some(name)
}

/// The request for a selector: the selector, then CR LF, and nothing else.
pub fn serialize_request(selector: &[u8]) -> (r: Vec<u8>)
    ensures
        r@ == request_of(selector@),
{
    let mut r = copy(selector);
    r.push(CR);
    r.push(LF);
    assert(r@ =~= request_of(selector@));
    r
}

} // verus!
