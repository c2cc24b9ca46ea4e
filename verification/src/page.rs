//! Pages: the units of content that the controller keeps in its history.
//! A page is a menu or a document; it answers keys with actions and keeps
//! its own selection and filter text.

use crate::bytes::{
    append, ascii, bytes_eq, copy, decimal, decimal_bytes, encode_char, is_prefix_ci, lit, pop_char,
    starts_with_ci, without_last_char,
};
use crate::lemmas::{
    lemma_decimal_injective, lemma_encoded_one_char, lemma_last_char_appended,
    lemma_last_char_start,
};
use crate::gopher::{Locator, LocatorView};
use crate::menu::{lemma_links_bound, link_views, menu_links, parse_menu, Link, LinkView};
use crate::render::{document_text, menu_text, render_document, render_menu};
use vstd::prelude::*;
use vstd::utf8::encode_scalar;

verus! {

/// One input event from the keyboard.
#[derive(Clone, Copy, Debug, PartialEq, Eq, Structural)]
pub enum Key {
    Backspace,
    Left,
    Right,
    Up,
    Down,
    Home,
    End,
    PageUp,
    PageDown,
    BackTab,
    Delete,
    Insert,
    F(u8),
    Char(char),
    Alt(char),
    Ctrl(char),
    Null,
    Esc,
}

/// The two forms a page takes.
#[derive(Clone, Copy, Debug, PartialEq, Eq, Structural)]
pub enum Kind {
    Menu,
    Document,
}

/// What a page asks the controller to do in answer to a key.
#[derive(Debug, PartialEq, Eq)]
pub enum Action {
    /// Nothing for the controller to do.
    Idle,
    Quit,
    Back,
    Forward,
    Fetch(Locator),
}

/// An action as plain values.
pub enum ActionView {
    Idle,
    Quit,
    Back,
    Forward,
    Fetch(LocatorView),
}

impl View for Action {
    type V = ActionView;

    open spec fn view(&self) -> ActionView {
        match self {
            Action::Idle => ActionView::Idle,
            Action::Quit => ActionView::Quit,
            Action::Back => ActionView::Back,
            Action::Forward => ActionView::Forward,
            Action::Fetch(l) => ActionView::Fetch(l@),
        }
    }
}

/// Why an operation of the session failed.
#[derive(Debug, PartialEq, Eq)]
pub enum Error {
    Config(Vec<u8>),
    Network(Vec<u8>),
    Protocol(Vec<u8>),
    NotFound(Vec<u8>),
    Io(Vec<u8>),
}

/// An error as plain values.
pub enum ErrorView {
    Config(Seq<u8>),
    Network(Seq<u8>),
    Protocol(Seq<u8>),
    NotFound(Seq<u8>),
    Io(Seq<u8>),
}

impl View for Error {
    type V = ErrorView;

    open spec fn view(&self) -> ErrorView {
        match self {
            Error::Config(m) => ErrorView::Config(m@),
            Error::Network(m) => ErrorView::Network(m@),
            Error::Protocol(m) => ErrorView::Protocol(m@),
            Error::NotFound(m) => ErrorView::NotFound(m@),
            Error::Io(m) => ErrorView::Io(m@),
        }
    }
}

impl ErrorView {
    /// The message an error carries.
    pub open spec fn message(self) -> Seq<u8> {
        match self {
            ErrorView::Config(m) => m,
            ErrorView::Network(m) => m,
            ErrorView::Protocol(m) => m,
            ErrorView::NotFound(m) => m,
            ErrorView::Io(m) => m,
        }
    }
}

impl Error {
    /// An independent copy.
    pub fn duplicate(&self) -> (r: Error)
        ensures
            r@ == self@,
    {
        match self {
            Error::Config(m) => Error::Config(copy(m.as_slice())),
            Error::Network(m) => Error::Network(copy(m.as_slice())),
            Error::Protocol(m) => Error::Protocol(copy(m.as_slice())),
            Error::NotFound(m) => Error::NotFound(copy(m.as_slice())),
            Error::Io(m) => Error::Io(copy(m.as_slice())),
        }
    }

    /// The message an error carries.
    pub fn message(&self) -> (r: Vec<u8>)
        ensures
            r@ == self@.message(),
    {
        match self {
            Error::Config(m) => copy(m.as_slice()),
            Error::Network(m) => copy(m.as_slice()),
            Error::Protocol(m) => copy(m.as_slice()),
            Error::NotFound(m) => copy(m.as_slice()),
            Error::Io(m) => copy(m.as_slice()),
        }
    }
}

/// A page: where it came from, what came back, and what the user has done
/// on it so far.
#[derive(Debug)]
pub struct Page {
    locator: Locator,
    raw: Vec<u8>,
    kind: Kind,
    links: Vec<Link>,
    selected: usize,
    input: Vec<u8>,
    cols: u16,
    rows: u16,
}

/// A page as plain values. The links of a menu are not part of it: they are
/// `menu_links(raw)`.
pub struct PageView {
    pub locator: LocatorView,
    pub raw: Seq<u8>,
    pub kind: Kind,
    /// Ordinal of the selected link, counted from one; 0 before any link,
    /// one past the last link when the selection has run off the end.
    pub selected: nat,
    /// What has been typed on this page, as UTF-8.
    pub input: Seq<u8>,
    pub cols: u16,
    pub rows: u16,
}

impl PageView {
    /// The links of the page: those of its body for a menu, none for a
    /// document.
    pub open spec fn links(self) -> Seq<LinkView> {
        if self.kind == Kind::Menu {
            menu_links(self.raw)
        } else {
            Seq::empty()
        }
    }

    /// The selection stays between "none" and "one past the last link".
    pub open spec fn wf(self) -> bool {
        self.selected <= self.links().len() + 1
    }
}

impl View for Page {
    type V = PageView;

    closed spec fn view(&self) -> PageView {
        PageView {
            locator: self.locator@,
            raw: self.raw@,
            kind: self.kind,
            selected: self.selected as nat,
            input: self.input@,
            cols: self.cols,
            rows: self.rows,
        }
    }
}

/// The message of the error for a response that cannot be shown.
pub open spec fn unsupported_message() -> Seq<u8> {
    lit("unsupported response type"@)
}

/// A fresh menu page over `raw`: the first link selected if there is one.
pub open spec fn new_menu(locator: LocatorView, raw: Seq<u8>) -> PageView {
    PageView {
        locator,
        raw,
        kind: Kind::Menu,
        selected: if menu_links(raw).len() > 0 {
            1
        } else {
            0
        },
        input: Seq::empty(),
        cols: 0,
        rows: 0,
    }
}

/// A fresh document page over `raw`.
pub open spec fn new_document(locator: LocatorView, raw: Seq<u8>) -> PageView {
    PageView {
        locator,
        raw,
        kind: Kind::Document,
        selected: 0,
        input: Seq::empty(),
        cols: 0,
        rows: 0,
    }
}

/// The page for a response body, by the item type that was asked for: a
/// menu for what lists, a document for what reads, an error for the rest.
pub open spec fn build_of(locator: LocatorView, raw: Seq<u8>) -> Result<PageView, ErrorView> {
    if locator.item_type.lists() {
        Ok(new_menu(locator, raw))
    } else if locator.item_type.reads() {
        Ok(new_document(locator, raw))
    } else {
        Err(ErrorView::Protocol(unsupported_message()))
    }
}

/// The view of a page that was built, or of the error that came instead.
pub open spec fn built(r: Result<Page, Error>) -> Result<PageView, ErrorView> {
    match r {
        Ok(p) => Ok(p@),
        Err(e) => Err(e@),
    }
}

/// The keys that ask to end the session: Ctrl-Q and Ctrl-C.
pub open spec fn is_quit(key: Key) -> bool {
    key == Key::Ctrl('q') || key == Key::Ctrl('c')
}

/// The keys that move the selection up.
pub open spec fn is_up(key: Key) -> bool {
    key == Key::Up || key == Key::Ctrl('p')
}

/// The keys that move the selection down.
pub open spec fn is_down(key: Key) -> bool {
    key == Key::Down || key == Key::Ctrl('n')
}

/// The key that opens the selected link.
pub open spec fn is_enter(key: Key) -> bool {
    key == Key::Char('\n')
}

/// The ordinal among `1..=n` whose decimal digits are exactly `input`, or 0
/// when there is none.
pub open spec fn ordinal_match(input: Seq<u8>, n: nat) -> nat
    decreases n,
{
    if n == 0 {
        0
    } else if decimal(n) == input {
        n
    } else {
        ordinal_match(input, (n - 1) as nat)
    }
}

/// Index of the first link at or after `i` whose name begins with `input`,
/// letters compared without regard to case; `links.len()` when none does.
pub open spec fn name_match(input: Seq<u8>, links: Seq<LinkView>, i: int) -> int
    decreases links.len() - i,
{
    if i >= links.len() {
        links.len() as int
    } else if is_prefix_ci(input, links[i].name) {
        i
    } else {
        name_match(input, links, i + 1)
    }
}

/// The selection after `input` has been typed. A link whose ordinal is
/// exactly `input` wins; failing that, the first link whose name begins
/// with `input`; failing that, the selection stays.
pub open spec fn filter_selection(input: Seq<u8>, links: Seq<LinkView>, current: nat) -> nat {
    if ordinal_match(input, links.len()) > 0 {
        ordinal_match(input, links.len())
    } else if name_match(input, links, 0) < links.len() {
        (name_match(input, links, 0) + 1) as nat
    } else {
        current
    }
}

/// How a menu answers a key. Ctrl-Q quits. Ctrl-C quits where nothing has
/// been typed, and else throws away what has been typed. Up and Down move
/// the selection, Enter opens the selected link, Left and Right go back and
/// forward. Backspace takes the last typed character away and goes back
/// where there is none; Delete takes it away and never goes back. A
/// character is added to what has been typed and may move the selection.
pub open spec fn menu_respond(p: PageView, key: Key) -> (PageView, ActionView) {
    let links = p.links();
    if key == Key::Ctrl('q') {
        (p, ActionView::Quit)
    } else if key == Key::Ctrl('c') {
        if p.input.len() > 0 {
            (PageView { input: Seq::empty(), ..p }, ActionView::Idle)
        } else {
            (p, ActionView::Quit)
        }
    } else if is_up(key) {
        (
            PageView {
                selected: if p.selected > 1 {
                    (p.selected - 1) as nat
                } else {
                    p.selected
                },
                ..p
            },
            ActionView::Idle,
        )
    } else if is_down(key) {
        (
            PageView {
                selected: if p.selected <= links.len() {
                    p.selected + 1
                } else {
                    p.selected
                },
                ..p
            },
            ActionView::Idle,
        )
    } else if is_enter(key) {
        if 1 <= p.selected <= links.len() {
            (p, ActionView::Fetch(links[p.selected - 1].locator()))
        } else {
            (p, ActionView::Idle)
        }
    } else if key == Key::Left {
        (p, ActionView::Back)
    } else if key == Key::Right {
        (p, ActionView::Forward)
    } else if key == Key::Backspace {
        if p.input.len() > 0 {
            (PageView { input: without_last_char(p.input), ..p }, ActionView::Idle)
        } else {
            (p, ActionView::Back)
        }
    } else if key == Key::Delete {
        (PageView { input: without_last_char(p.input), ..p }, ActionView::Idle)
    } else if key is Char {
        let input = p.input + encode_scalar(key->Char_0 as u32);
        (
            PageView { input, selected: filter_selection(input, links, p.selected), ..p },
            ActionView::Idle,
        )
    } else {
        (p, ActionView::Idle)
    }
}

/// How a document answers a key. It has no cursor, so nothing changes.
pub open spec fn document_respond(p: PageView, key: Key) -> (PageView, ActionView) {
    if is_quit(key) {
        (p, ActionView::Quit)
    } else if key == Key::Left || key == Key::Backspace {
        (p, ActionView::Back)
    } else if key == Key::Right {
        (p, ActionView::Forward)
    } else {
        (p, ActionView::Idle)
    }
}

/// How a page answers a key.
pub open spec fn respond_of(p: PageView, key: Key) -> (PageView, ActionView) {
    if p.kind == Kind::Menu {
        menu_respond(p, key)
    } else {
        document_respond(p, key)
    }
}

/// What a page shows: a menu with its selection marked, or a document.
pub open spec fn text_of(p: PageView) -> Seq<u8> {
    if p.kind == Kind::Menu {
        menu_text(p.raw, p.selected, p.rows)
    } else {
        document_text(p.raw, p.rows)
    }
}

/// `ordinal_match` finds an ordinal in range with the digits sought, and
/// answers 0 only when no ordinal in range has them.
pub proof fn lemma_ordinal_match(input: Seq<u8>, n: nat)
    ensures
        ordinal_match(input, n) <= n,
        ordinal_match(input, n) > 0 ==> decimal(ordinal_match(input, n)) == input,
        ordinal_match(input, n) == 0 ==> forall|k: nat| 1 <= k <= n ==> decimal(k) != input,
    decreases n,
{
    if n > 0 && decimal(n) != input {
        lemma_ordinal_match(input, (n - 1) as nat);
    }
}

/// Typing the digits of a link's ordinal selects that link, whatever the
/// names of the links are and whatever was selected before.
pub proof fn law_ordinal_wins(k: nat, links: Seq<LinkView>, current: nat)
    requires
        1 <= k <= links.len(),
    ensures
        filter_selection(decimal(k), links, current) == k,
{
    let found = ordinal_match(decimal(k), links.len());
    lemma_ordinal_match(decimal(k), links.len());
    lemma_decimal_injective(found, k);
}

/// On a menu, Backspace and Delete take back the character typed last and
/// nothing else of what was typed.
pub proof fn law_backspace_undoes_typing(p: PageView, c: char)
    requires
        p.kind == Kind::Menu,
        c != '\n',
    ensures
        respond_of(respond_of(p, Key::Char(c)).0, Key::Backspace).0.input == p.input,
        respond_of(respond_of(p, Key::Char(c)).0, Key::Backspace).1 == ActionView::Idle,
        respond_of(respond_of(p, Key::Char(c)).0, Key::Delete).0.input == p.input,
        respond_of(respond_of(p, Key::Char(c)).0, Key::Delete).1 == ActionView::Idle,
{
    lemma_encoded_one_char(c);
    lemma_last_char_appended(p.input, encode_scalar(c as u32));
}

/// `name_match` finds the first link whose name begins with the input.
pub proof fn lemma_name_match(input: Seq<u8>, links: Seq<LinkView>, i: int)
    requires
        0 <= i <= links.len(),
    ensures
        i <= name_match(input, links, i) <= links.len(),
        name_match(input, links, i) < links.len() ==> is_prefix_ci(
            input,
            links[name_match(input, links, i)].name,
        ),
        forall|k: int| i <= k < name_match(input, links, i) ==> !is_prefix_ci(input, links[k].name),
    decreases links.len() - i,
{
    if i < links.len() && !is_prefix_ci(input, links[i].name) {
        lemma_name_match(input, links, i + 1);
    }
}

/// A key never moves the selection out of its range.
pub proof fn law_selection_in_range(p: PageView, key: Key)
    requires
        p.wf(),
    ensures
        respond_of(p, key).0.wf(),
        respond_of(p, key).0.links() == p.links(),
{
    if p.kind == Kind::Menu {
        if key is Char {
            let input = p.input + encode_scalar(key->Char_0 as u32);
            lemma_ordinal_match(input, p.links().len());
            lemma_name_match(input, p.links(), 0);
        }
    }
}

/// A key changes a page exactly when it changes the selection or the
/// length of what has been typed.
pub proof fn lemma_respond_change(p: PageView, key: Key)
    ensures
        respond_of(p, key).0 == p <==> respond_of(p, key).0.selected == p.selected && respond_of(
            p,
            key,
        ).0.input.len() == p.input.len(),
{
    lemma_last_char_start(p.input);
    if p.input.len() == 0 {
        assert(without_last_char(p.input) =~= p.input);
    }
}

fn ordinal_for(input: &[u8], n: usize) -> (r: usize)
    ensures
        r == ordinal_match(input@, n as nat),
{
    let mut k: usize = n;
    while k > 0
        invariant
            k <= n,
            ordinal_match(input@, n as nat) == ordinal_match(input@, k as nat),
        decreases k,
    {
        let d = decimal_bytes(k as u64);
        if bytes_eq(d.as_slice(), input) {
            return k;
        }
        k -= 1;
    }
    0
}

fn name_for(input: &[u8], links: &Vec<Link>) -> (r: usize)
    ensures
        r == name_match(input@, link_views(links@), 0),
        r <= links.len(),
{
    let mut i: usize = 0;
    while i < links.len()
        invariant
            i <= links.len(),
            name_match(input@, link_views(links@), 0) == name_match(
                input@,
                link_views(links@),
                i as int,
            ),
        decreases links.len() - i,
    {
        if starts_with_ci(links[i].name.as_slice(), input) {
            return i;
        }
        i += 1;
    }
    i
}

impl Page {
    #[verifier::type_invariant]
    spec fn inv(self) -> bool {
        &&& link_views(self.links@) == self@.links()
        &&& self.selected <= self.links.len() + 1
        &&& self.links.len() < usize::MAX
    }

    /// A menu page over a response body.
    pub fn menu(locator: Locator, raw: Vec<u8>) -> (r: Page)
        ensures
            r@ == new_menu(locator@, raw@),
    {
        let links = parse_menu(raw.as_slice());
        let size = raw.len();
        proof {
            lemma_links_bound(raw@);
            assert(link_views(links@).len() == links.len());
            assert(2 * links.len() <= size + 1);
        }
        let selected: usize = if links.len() > 0 {
            1
        } else {
            0
        };
        Page {
            locator,
            raw,
            kind: Kind::Menu,
            links,
            selected,
            input: Vec::new(),
            cols: 0,
            rows: 0,
        }
    }

    /// A document page over a response body.
    pub fn document(locator: Locator, raw: Vec<u8>) -> (r: Page)
        ensures
            r@ == new_document(locator@, raw@),
    {
        let links: Vec<Link> = Vec::new();
        assert(link_views(links@) =~= Seq::empty());
        Page {
            locator,
            raw,
            kind: Kind::Document,
            links,
            selected: 0,
            input: Vec::new(),
            cols: 0,
            rows: 0,
        }
    }

    /// The page for a response body, by the item type that was asked for.
    pub fn build(locator: Locator, raw: Vec<u8>) -> (r: Result<Page, Error>)
        ensures
            built(r) == build_of(locator@, raw@),
    {
        if locator.item_type.is_menu() {
            Ok(Page::menu(locator, raw))
        } else if locator.item_type.is_text() {
            Ok(Page::document(locator, raw))
        } else {
            proof {
                reveal_strlit("unsupported response type");
            }
            Err(Error::Protocol(ascii("unsupported response type")))
        }
    }

    /// Where the page came from.
    pub fn locator(&self) -> (l: &Locator)
        ensures
            l@ == self@.locator,
    {
        &self.locator
    }

    /// The response body, as it came off the wire.
    pub fn raw(&self) -> (r: &Vec<u8>)
        ensures
            r@ == self@.raw,
    {
        &self.raw
    }

    /// Whether the page is a menu or a document.
    pub fn kind(&self) -> (k: Kind)
        ensures
            k == self@.kind,
    {
        self.kind
    }

    /// The links of the page, in order.
    pub fn links(&self) -> (r: &Vec<Link>)
        ensures
            link_views(r@) == self@.links(),
    {
        proof {
            use_type_invariant(self);
        }
        &self.links
    }

    /// Ordinal of the selected link; see `PageView::selected`.
    pub fn selected(&self) -> (n: usize)
        ensures
            n == self@.selected,
            self@.wf(),
    {
        proof {
            use_type_invariant(self);
        }
        self.selected
    }

    /// What has been typed on this page.
    pub fn input(&self) -> (r: &Vec<u8>)
        ensures
            r@ == self@.input,
    {
        &self.input
    }

    /// Tells the page the size of the terminal.
    pub fn term_size(&mut self, cols: u16, rows: u16)
        ensures
            final(self)@ == (PageView { cols, rows, ..old(self)@ }),
    {
        proof {
            use_type_invariant(&*self);
        }
        self.cols = cols;
        self.rows = rows;
    }

    /// The text to show, for the terminal size last told.
    pub fn render(&self) -> (out: Vec<u8>)
        ensures
            out@ == text_of(self@),
    {
        match self.kind {
            Kind::Menu => render_menu(self.raw.as_slice(), self.selected, self.rows),
            Kind::Document => render_document(self.raw.as_slice(), self.rows),
        }
    }

    /// A new document page that shows this page's response as it came off
    /// the wire.
    pub fn source(&self) -> (p: Page)
        ensures
            p@ == new_document(self@.locator, self@.raw),
    {
        Page::document(self.locator.duplicate(), copy(self.raw.as_slice()))
    }

    /// Answers a key: updates selection and filter text, and says what the
    /// controller should do.
    pub fn respond(&mut self, key: Key) -> (a: Action)
        ensures
            (final(self)@, a@) == respond_of(old(self)@, key),
    {
        proof {
            use_type_invariant(&*self);
        }
        match self.kind {
            Kind::Menu => self.respond_menu(key),
            Kind::Document => match key {
                Key::Ctrl(c) => if c == 'q' || c == 'c' {
                    Action::Quit
                } else {
                    Action::Idle
                },
                Key::Left | Key::Backspace => Action::Back,
                Key::Right => Action::Forward,
                _ => Action::Idle,
            },
        }
    }

    fn respond_menu(&mut self, key: Key) -> (a: Action)
        requires
            old(self)@.kind == Kind::Menu,
        ensures
            (final(self)@, a@) == menu_respond(old(self)@, key),
    {
        proof {
            use_type_invariant(&*self);
        }
        match key {
            Key::Ctrl(c) => {
                if c == 'q' {
                    Action::Quit
                } else if c == 'c' {
                    if self.input.len() > 0 {
                        self.input = Vec::new();
                        Action::Idle
                    } else {
                        Action::Quit
                    }
                } else if c == 'p' {
                    self.cursor_up();
                    Action::Idle
                } else if c == 'n' {
                    self.cursor_down();
                    Action::Idle
                } else {
                    Action::Idle
                }
            },
            Key::Up => {
                self.cursor_up();
                Action::Idle
            },
            Key::Down => {
                self.cursor_down();
                Action::Idle
            },
            Key::Left => Action::Back,
            Key::Right => Action::Forward,
            Key::Backspace => {
                if self.input.len() > 0 {
                    let mut input = copy(self.input.as_slice());
                    pop_char(&mut input);
                    self.input = input;
                    Action::Idle
                } else {
                    Action::Back
                }
            },
            Key::Delete => {
                let mut input = copy(self.input.as_slice());
                pop_char(&mut input);
                self.input = input;
                Action::Idle
            },
            Key::Char(c) => {
                if c == '\n' {
                    if 1 <= self.selected && self.selected <= self.links.len() {
                        Action::Fetch(self.links[self.selected - 1].locator())
                    } else {
                        Action::Idle
                    }
                } else {
                    let typed = encode_char(c);
                    let mut input = copy(self.input.as_slice());
                    append(&mut input, typed.as_slice());
                    self.input = input;
                    let k = ordinal_for(self.input.as_slice(), self.links.len());
                    if k > 0 {
                        proof {
                            lemma_ordinal_match(self.input@, self.links.len() as nat);
                        }
                        self.selected = k;
                    } else {
                        let j = name_for(self.input.as_slice(), &self.links);
                        if j < self.links.len() {
                            self.selected = j + 1;
                        }
                    }
                    Action::Idle
                }
            },
            _ => Action::Idle,
        }
    }

    /// Moves the selection one link up; it stops at the first link.
    fn cursor_up(&mut self)
        ensures
            final(self)@ == (PageView {
                selected: if old(self)@.selected > 1 {
                    (old(self)@.selected - 1) as nat
                } else {
                    old(self)@.selected
                },
                ..old(self)@
            }),
    {
        proof {
            use_type_invariant(&*self);
        }
        if self.selected > 1 {
            self.selected -= 1;
        }
    }

    /// Moves the selection one link down; it stops one past the last link.
    fn cursor_down(&mut self)
        ensures
            final(self)@ == (PageView {
                selected: if old(self)@.selected <= old(self)@.links().len() {
                    old(self)@.selected + 1
                } else {
                    old(self)@.selected
                },
                ..old(self)@
            }),
    {
        proof {
            use_type_invariant(&*self);
        }
        assert(link_views(self.links@).len() == self.links.len());
        if self.selected <= self.links.len() {
            self.selected += 1;
        }
    }
}

} // verus!
