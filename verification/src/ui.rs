//! The controller: the history of pages, the focus, and the rules that turn
//! keys and the results of outside work into the next state.
//!
//! The controller never does outside work itself. Where a page has to be
//! fetched, a file saved or a program started, it hands back a `Request`
//! and waits; whoever drives it does the work and reports the `Outcome`.
//! While it waits it is busy, and a busy controller asks for nothing more.

use crate::bytes::{
    ascii, bytes_eq, contains, contains_bytes, copy, encode_char, given, is_prefix, lit, pop_char,
    slice_copy, starts_with, views, without_last_char, SLASH,
};
use crate::gopher::{locator_of, parse_locator, scheme, url_of, Locator, LocatorView};
use crate::page::{
    build_of, is_quit, lemma_respond_change, new_document, respond_of, text_of, Action,
    ActionView, Error, ErrorView, Key, Page, PageView,
};
use crate::status::{
    alert, alert_bytes, confirm_line, confirm_line_bytes, copied_bytes, copied_message,
    current_bytes, current_message, download_question, download_question_bytes, frame_head,
    frame_head_bytes, goto_prompt, goto_prompt_bytes, no_content, no_content_bytes, no_size,
    no_size_bytes, prompt_line, prompt_line_bytes, saved_bytes, saved_message, status_line,
    status_line_bytes,
};
use vstd::prelude::*;
use vstd::utf8::encode_scalar;

pub mod laws;
pub mod view;

verus! {

/// Outside work that the controller asks for.
#[derive(Debug, PartialEq, Eq)]
pub enum Request {
    /// Fetch the resource and report its body.
    Fetch(Locator),
    /// Save the resource to disk and report the path and the byte count.
    Download(Locator),
    /// Look up the built-in help page and report its body.
    Help(Locator),
    /// Hand the text to the system's handler for foreign locators.
    External(Vec<u8>),
    /// Put the text on the clipboard.
    Clipboard(Vec<u8>),
}

/// A request as plain values.
pub enum RequestView {
    Fetch(LocatorView),
    Download(LocatorView),
    Help(LocatorView),
    External(Seq<u8>),
    Clipboard(Seq<u8>),
}

impl View for Request {
    type V = RequestView;

    open spec fn view(&self) -> RequestView {
        match self {
            Request::Fetch(l) => RequestView::Fetch(l@),
            Request::Download(l) => RequestView::Download(l@),
            Request::Help(l) => RequestView::Help(l@),
            Request::External(t) => RequestView::External(t@),
            Request::Clipboard(t) => RequestView::Clipboard(t@),
        }
    }
}

impl Request {
    /// An independent copy.
    pub fn duplicate(&self) -> (r: Request)
        ensures
            r@ == self@,
    {
        match self {
            Request::Fetch(l) => Request::Fetch(l.duplicate()),
            Request::Download(l) => Request::Download(l.duplicate()),
            Request::Help(l) => Request::Help(l.duplicate()),
            Request::External(t) => Request::External(copy(t.as_slice())),
            Request::Clipboard(t) => Request::Clipboard(copy(t.as_slice())),
        }
    }
}

/// What became of a request.
#[derive(Debug, PartialEq, Eq)]
pub enum Outcome {
    /// The body of a response.
    Body(Vec<u8>),
    /// A file was written: its path and its size in bytes.
    Saved(Vec<u8>, u64),
    /// The work was done and there is nothing to show for it.
    Done,
    Failed(Error),
}

/// An outcome as plain values.
pub enum OutcomeView {
    Body(Seq<u8>),
    Saved(Seq<u8>, u64),
    Done,
    Failed(ErrorView),
}

impl View for Outcome {
    type V = OutcomeView;

    open spec fn view(&self) -> OutcomeView {
        match self {
            Outcome::Body(b) => OutcomeView::Body(b@),
            Outcome::Saved(p, n) => OutcomeView::Saved(p@, *n),
            Outcome::Done => OutcomeView::Done,
            Outcome::Failed(e) => OutcomeView::Failed(e@),
        }
    }
}

impl Outcome {
    /// An independent copy.
    pub fn duplicate(&self) -> (r: Outcome)
        ensures
            r@ == self@,
    {
        match self {
            Outcome::Body(b) => Outcome::Body(copy(b.as_slice())),
            Outcome::Saved(p, n) => Outcome::Saved(copy(p.as_slice()), *n),
            Outcome::Done => Outcome::Done,
            Outcome::Failed(e) => Outcome::Failed(e.duplicate()),
        }
    }
}

/// What reaches the controller from outside: a key, or the outcome of the
/// request that is out.
#[derive(Debug, PartialEq, Eq)]
pub enum Input {
    Key(Key),
    Outcome(Outcome),
}

/// An input as plain values.
pub enum InputView {
    Key(Key),
    Outcome(OutcomeView),
}

impl View for Input {
    type V = InputView;

    open spec fn view(&self) -> InputView {
        match self {
            Input::Key(k) => InputView::Key(*k),
            Input::Outcome(o) => InputView::Outcome(o@),
        }
    }
}

/// The views of a sequence of inputs.
pub open spec fn input_views(s: Seq<Input>) -> Seq<InputView> {
    Seq::new(s.len(), |i: int| s[i]@)
}

/// The views of a sequence of requests.
pub open spec fn request_views(s: Seq<Request>) -> Seq<RequestView> {
    Seq::new(s.len(), |i: int| s[i]@)
}

/// What the controller is in the middle of.
#[derive(Debug, PartialEq, Eq)]
pub enum Mode {
    /// Keys go to the focused page.
    Browse,
    /// The user is asked whether to download.
    Confirm(Locator),
    /// The user is typing a locator.
    Prompt(Vec<u8>),
    /// A request is out and its outcome has not come back.
    Busy(Request),
}

/// A mode as plain values.
pub enum ModeView {
    Browse,
    Confirm(LocatorView),
    Prompt(Seq<u8>),
    Busy(RequestView),
}

impl View for Mode {
    type V = ModeView;

    open spec fn view(&self) -> ModeView {
        match self {
            Mode::Browse => ModeView::Browse,
            Mode::Confirm(l) => ModeView::Confirm(l@),
            Mode::Prompt(t) => ModeView::Prompt(t@),
            Mode::Busy(r) => ModeView::Busy(r@),
        }
    }
}

/// Where a text prompt stands after a key.
#[derive(Debug, PartialEq, Eq)]
pub enum PromptStep {
    /// Still typing; this is the text so far.
    Pending(Vec<u8>),
    /// Finished with this text.
    Entered(Vec<u8>),
    /// Given up.
    Cancelled,
}

/// A prompt step as plain values.
pub enum PromptStepView {
    Pending(Seq<u8>),
    Entered(Seq<u8>),
    Cancelled,
}

impl View for PromptStep {
    type V = PromptStepView;

    open spec fn view(&self) -> PromptStepView {
        match self {
            PromptStep::Pending(t) => PromptStepView::Pending(t@),
            PromptStep::Entered(t) => PromptStepView::Entered(t@),
            PromptStep::Cancelled => PromptStepView::Cancelled,
        }
    }
}

/// The view of a request that may not be there.
pub open spec fn asked(r: Option<Request>) -> Option<RequestView> {
    match r {
        Some(q) => Some(q@),
        None => None,
    }
}

/// The views of a sequence of pages.
pub open spec fn page_views(s: Seq<Page>) -> Seq<PageView> {
    Seq::new(s.len(), |i: int| s[i]@)
}

/// The controller.
#[derive(Debug)]
pub struct UI {
    views: Vec<Page>,
    focused: usize,
    dirty: bool,
    running: bool,
    cols: u16,
    rows: u16,
    status: Vec<u8>,
    mode: Mode,
}

/// The controller as plain values.
pub struct UiView {
    /// Every page visited and still reachable, oldest first.
    pub pages: Seq<PageView>,
    /// Index of the page on show.
    pub focused: nat,
    /// Whether the screen is out of date.
    pub dirty: bool,
    /// Whether the session goes on.
    pub running: bool,
    pub cols: u16,
    pub rows: u16,
    /// The one-line message on the bottom row; empty for none.
    pub status: Seq<u8>,
    pub mode: ModeView,
}

impl UiView {
    /// The focus points at a page whenever there is one.
    pub open spec fn wf(self) -> bool {
        if self.pages.len() == 0 {
            self.focused == 0
        } else {
            self.focused < self.pages.len()
        }
    }

    /// A request is out.
    pub open spec fn busy(self) -> bool {
        self.mode is Busy
    }
}

impl View for UI {
    type V = UiView;

    closed spec fn view(&self) -> UiView {
        UiView {
            pages: page_views(self.views@),
            focused: self.focused as nat,
            dirty: self.dirty,
            running: self.running,
            cols: self.cols,
            rows: self.rows,
            status: self.status@,
            mode: self.mode@,
        }
    }
}

/// A controller at the start of a session.
pub open spec fn fresh(cols: u16, rows: u16) -> UiView {
    UiView {
        pages: Seq::empty(),
        focused: 0,
        dirty: true,
        running: true,
        cols,
        rows,
        status: Seq::empty(),
        mode: ModeView::Browse,
    }
}

/// The history after a new page has arrived: what lay behind the focus is
/// gone, the new page stands last and has the focus.
pub open spec fn add_page_of(u: UiView, p: PageView) -> UiView {
    if u.pages.len() == 0 {
        UiView { pages: seq![p], focused: 0, dirty: true, ..u }
    } else {
        UiView {
            pages: u.pages.take(u.focused as int + 1).push(p),
            focused: u.focused + 1,
            dirty: true,
            ..u
        }
    }
}

/// The keys that say yes to a question.
pub open spec fn accepts(key: Key) -> bool {
    key == Key::Char('\n') || key == Key::Char('y') || key == Key::Char('Y')
}

/// Where a text prompt stands after a key: Enter finishes, a character is
/// added, Esc and Ctrl-C clear the text or, with no text, give up, Backspace
/// and Delete take the last character away; other keys do nothing.
pub open spec fn prompt_of(entry: Seq<u8>, key: Key) -> PromptStepView {
    if key == Key::Char('\n') {
        PromptStepView::Entered(entry)
    } else if key is Char {
        PromptStepView::Pending(entry + encode_scalar(key->Char_0 as u32))
    } else if key == Key::Esc || key == Key::Ctrl('c') {
        if entry.len() == 0 {
            PromptStepView::Cancelled
        } else {
            PromptStepView::Pending(Seq::empty())
        }
    } else if key == Key::Backspace || key == Key::Delete {
        PromptStepView::Pending(without_last_char(entry))
    } else {
        PromptStepView::Pending(entry)
    }
}

/// The text of a page for the screen: the focused page at the given size,
/// or a notice where there is no page or no size.
pub open spec fn render_of(u: UiView, size: Option<(u16, u16)>) -> (UiView, Seq<u8>) {
    match size {
        Some((cols, rows)) => {
            let sized = UiView { cols, rows, ..u };
            if u.pages.len() > 0 {
                let p = PageView { cols, rows, ..u.pages[u.focused as int] };
                (UiView { pages: u.pages.update(u.focused as int, p), ..sized }, text_of(p))
            } else {
                (sized, no_content())
            }
        },
        None => (u, no_size()),
    }
}

/// The bottom row: the question or the prompt that is open, else the status
/// message, else nothing.
pub open spec fn bottom_of(u: UiView) -> Seq<u8> {
    match u.mode {
        ModeView::Confirm(l) => confirm_line(download_question(url_of(l)), u.rows),
        ModeView::Prompt(entry) => prompt_line(goto_prompt(), entry, u.rows),
        _ => if u.status.len() == 0 {
            Seq::empty()
        } else {
            status_line(u.status, u.rows)
        },
    }
}

/// One frame, if the screen is out of date; afterwards it no longer is.
pub open spec fn draw_of(u: UiView, size: Option<(u16, u16)>) -> (UiView, Option<Seq<u8>>) {
    if u.dirty {
        let (shown, body) = render_of(u, size);
        (UiView { dirty: false, ..shown }, Some(frame_head() + body + bottom_of(shown)))
    } else {
        (u, None)
    }
}

/// The host under which the built-in help pages go.
pub open spec fn help_host() -> Seq<u8> {
    lit("help"@)
}

/// The locator text of the first help page.
pub open spec fn help_root() -> Seq<u8> {
    lit("gopher://help/"@)
}

/// The locator text of the help page that lists the history.
pub open spec fn help_history() -> Seq<u8> {
    lit("gopher://help/1/history"@)
}

/// The name under which a help page is looked up: its selector, without
/// the slash in front.
pub open spec fn topic_of(l: LocatorView) -> Seq<u8> {
    if l.selector.len() > 0 && l.selector[0] == SLASH {
        l.selector.subrange(1, l.selector.len() as int)
    } else {
        l.selector
    }
}

/// The request that brings the body for a locator: a look-up for the help
/// pages, a fetch for all others.
pub open spec fn request_for(l: LocatorView) -> RequestView {
    if l.host == help_host() {
        RequestView::Help(l)
    } else {
        RequestView::Fetch(l)
    }
}

/// A text that names a scheme other than this protocol's.
pub open spec fn is_foreign(url: Seq<u8>) -> bool {
    contains(url, lit("://"@)) && !is_prefix(scheme(), url)
}

/// The focused page came from `l`.
pub open spec fn focus_is(u: UiView, l: LocatorView) -> bool {
    u.pages.len() > 0 && u.pages[u.focused as int].locator == l
}

/// Opening a locator. Nothing happens while a request is out, nor when the
/// focused page came from the same locator. What downloads is asked about
/// first; everything else is requested at once.
pub open spec fn open_locator_of(u: UiView, l: LocatorView) -> (UiView, Option<RequestView>) {
    if u.busy() || focus_is(u, l) {
        (u, None)
    } else if l.item_type.downloads() {
        (UiView { mode: ModeView::Confirm(l), dirty: true, ..u }, None)
    } else {
        (UiView { mode: ModeView::Busy(request_for(l)), ..u }, Some(request_for(l)))
    }
}

/// Opening a locator given as text. A text with a foreign scheme goes to
/// the system's handler; any other is read as a locator and opened.
pub open spec fn open_of(u: UiView, url: Seq<u8>) -> (UiView, Option<RequestView>) {
    if u.busy() || focus_is(u, locator_of(url)) {
        (u, None)
    } else if is_foreign(url) {
        (
            UiView { mode: ModeView::Busy(RequestView::External(url)), ..u },
            Some(RequestView::External(url)),
        )
    } else {
        open_locator_of(u, locator_of(url))
    }
}

/// Carrying out what a page asked for. `changed` says whether the page
/// itself changed when it answered.
pub open spec fn process_of(u: UiView, a: ActionView, changed: bool) -> (
    UiView,
    Option<RequestView>,
) {
    match a {
        ActionView::Quit => (UiView { running: false, ..u }, None),
        ActionView::Back => if u.focused > 0 {
            (UiView { focused: (u.focused - 1) as nat, dirty: true, ..u }, None)
        } else {
            (u, None)
        },
        ActionView::Forward => if u.focused + 1 < u.pages.len() {
            (UiView { focused: u.focused + 1, dirty: true, ..u }, None)
        } else {
            (u, None)
        },
        ActionView::Fetch(l) => open_locator_of(u, l),
        ActionView::Idle => if changed {
            (UiView { dirty: true, ..u }, None)
        } else {
            (u, None)
        },
    }
}

/// A key while browsing. The controller's own keys come first: Ctrl-R shows
/// the source of the focused page as a new page, Ctrl-G opens the locator
/// prompt, Ctrl-H and Ctrl-E open help pages, Ctrl-U shows where the focused
/// page came from, Ctrl-Y copies that to the clipboard. Every other key goes
/// to the focused page, and what the page asks for is carried out. With no
/// page, only the keys that quit do anything.
pub open spec fn browse_of(u: UiView, key: Key) -> (UiView, Option<RequestView>) {
    if key == Key::Ctrl('r') {
        if u.pages.len() > 0 {
            let p = u.pages[u.focused as int];
            (add_page_of(u, new_document(p.locator, p.raw)), None)
        } else {
            (u, None)
        }
    } else if key == Key::Ctrl('g') {
        (UiView { mode: ModeView::Prompt(Seq::empty()), dirty: true, ..u }, None)
    } else if key == Key::Ctrl('h') {
        open_of(u, help_root())
    } else if key == Key::Ctrl('e') {
        open_of(u, help_history())
    } else if key == Key::Ctrl('u') {
        if u.pages.len() > 0 {
            (
                UiView {
                    status: current_message(url_of(u.pages[u.focused as int].locator)),
                    dirty: true,
                    ..u
                },
                None,
            )
        } else {
            (u, None)
        }
    } else if key == Key::Ctrl('y') {
        if u.pages.len() > 0 {
            let url = url_of(u.pages[u.focused as int].locator);
            (
                UiView { mode: ModeView::Busy(RequestView::Clipboard(url)), ..u },
                Some(RequestView::Clipboard(url)),
            )
        } else {
            (u, None)
        }
    } else if u.pages.len() == 0 {
        if is_quit(key) {
            (UiView { running: false, ..u }, None)
        } else {
            (u, None)
        }
    } else {
        let before = u.pages[u.focused as int];
        let (after, action) = respond_of(before, key);
        process_of(
            UiView { pages: u.pages.update(u.focused as int, after), ..u },
            action,
            after != before,
        )
    }
}

/// A key while the download question is open: yes asks for the download,
/// anything else drops the question.
pub open spec fn answer_of(u: UiView, l: LocatorView, key: Key) -> (UiView, Option<RequestView>) {
    if accepts(key) {
        (
            UiView { mode: ModeView::Busy(RequestView::Download(l)), dirty: true, ..u },
            Some(RequestView::Download(l)),
        )
    } else {
        (UiView { mode: ModeView::Browse, dirty: true, ..u }, None)
    }
}

/// A key while the locator prompt is open: the text grows or shrinks until
/// it is entered, and is then opened.
pub open spec fn typing_of(u: UiView, entry: Seq<u8>, key: Key) -> (UiView, Option<RequestView>) {
    let closed = UiView { mode: ModeView::Browse, dirty: true, ..u };
    match prompt_of(entry, key) {
        PromptStepView::Pending(text) => (UiView { mode: ModeView::Prompt(text), ..closed }, None),
        PromptStepView::Entered(text) => open_of(closed, text),
        PromptStepView::Cancelled => (closed, None),
    }
}

/// One cycle of input. A busy controller lets the key pass. Otherwise a
/// status message on show is cleared first, and then the key is treated as
/// the mode says.
pub open spec fn update_of(u: UiView, key: Key) -> (UiView, Option<RequestView>) {
    if u.busy() {
        (u, None)
    } else {
        let cleared = if u.status.len() > 0 {
            UiView { status: Seq::empty(), dirty: true, ..u }
        } else {
            u
        };
        match u.mode {
            ModeView::Confirm(l) => answer_of(cleared, l, key),
            ModeView::Prompt(entry) => typing_of(cleared, entry, key),
            _ => browse_of(cleared, key),
        }
    }
}

/// What a body that came back becomes: a new page in the history, or the
/// message of the error that says why not.
pub open spec fn delivered(u: UiView, l: LocatorView, body: Seq<u8>) -> UiView {
    match build_of(l, body) {
        Ok(p) => add_page_of(u, p),
        Err(e) => UiView { status: alert(e.message()), ..u },
    }
}

/// Taking in the outcome of the request that is out. The controller is no
/// longer busy afterwards and the screen is out of date. A failure becomes
/// a status message; a body becomes a page; a saved file and a copy are
/// reported on the bottom row. An outcome that does not fit the request
/// only ends the wait. With no request out, nothing happens.
pub open spec fn resolve_of(u: UiView, o: OutcomeView) -> UiView {
    match u.mode {
        ModeView::Busy(request) => {
            let idle = UiView { mode: ModeView::Browse, dirty: true, ..u };
            match o {
                OutcomeView::Failed(e) => UiView { status: alert(e.message()), ..idle },
                OutcomeView::Body(body) => match request {
                    RequestView::Fetch(l) => delivered(idle, l, body),
                    RequestView::Help(l) => delivered(idle, l, body),
                    _ => idle,
                },
                OutcomeView::Saved(path, n) => match request {
                    RequestView::Download(_) => UiView { status: saved_message(path, n), ..idle },
                    _ => idle,
                },
                OutcomeView::Done => match request {
                    RequestView::Clipboard(url) => UiView { status: copied_message(url), ..idle },
                    _ => idle,
                },
            }
        },
        _ => u,
    }
}

/// What a session gave out: the requests it made and the frames it drew,
/// each in order.
#[derive(Debug, PartialEq, Eq)]
pub struct Session {
    pub requests: Vec<Request>,
    pub frames: Vec<Vec<u8>>,
}

/// A session's output as plain values.
pub struct SessionView {
    pub requests: Seq<RequestView>,
    pub frames: Seq<Seq<u8>>,
}

impl View for Session {
    type V = SessionView;

    open spec fn view(&self) -> SessionView {
        SessionView { requests: request_views(self.requests@), frames: views(self.frames@) }
    }
}

/// A whole session over a given run of inputs, on a terminal of the given
/// size. For as long as the session goes on, each turn draws a frame if the
/// screen is out of date and then takes one input: a key by `update_of`, an
/// outcome by `resolve_of`.
pub open spec fn run_of(u: UiView, inputs: Seq<InputView>, size: Option<(u16, u16)>) -> (
    UiView,
    SessionView,
)
    decreases inputs.len(),
{
    if inputs.len() == 0 {
        (u, SessionView { requests: Seq::empty(), frames: Seq::empty() })
    } else {
        let (mid, out) = run_of(u, inputs.drop_last(), size);
        if !mid.running {
            (mid, out)
        } else {
            let (drawn, frame) = draw_of(mid, size);
            let frames = match frame {
                Some(f) => out.frames.push(f),
                None => out.frames,
            };
            match inputs.last() {
                InputView::Key(key) => {
                    let (next, request) = update_of(drawn, key);
                    let requests = match request {
                        Some(q) => out.requests.push(q),
                        None => out.requests,
                    };
                    (next, SessionView { requests, frames })
                },
                InputView::Outcome(o) => (
                    resolve_of(drawn, o),
                    SessionView { requests: out.requests, frames },
                ),
            }
        }
    }
}

/// How many of the inputs are outcomes.
pub open spec fn outcomes(inputs: Seq<InputView>) -> nat
    decreases inputs.len(),
{
    if inputs.len() == 0 {
        0
    } else if inputs.last() is Outcome {
        outcomes(inputs.drop_last()) + 1
    } else {
        outcomes(inputs.drop_last())
    }
}

/// The locators of the pages in the history that were fetched, as text,
/// oldest first. Help pages are made up on the spot and left out.
pub open spec fn visited_of(pages: Seq<PageView>, n: int) -> Seq<Seq<u8>>
    decreases n,
{
    if n <= 0 {
        Seq::empty()
    } else if pages[n - 1].locator.host == help_host() {
        visited_of(pages, n - 1)
    } else {
        visited_of(pages, n - 1).push(url_of(pages[n - 1].locator))
    }
}

/// Whether a key says yes to a question: Enter, `y` or `Y`.
pub fn confirm(key: Key) -> (yes: bool)
    ensures
        yes == accepts(key),
{
    match key {
        Key::Char(c) => c == '\n' || c == 'y' || c == 'Y',
        _ => false,
    }
}

/// One step of a text prompt: what becomes of the text typed so far when a
/// key arrives.
pub fn prompt(entry: Vec<u8>, key: Key) -> (step: PromptStep)
    ensures
        step@ == prompt_of(entry@, key),
{
    let mut entry = entry;
    match key {
        Key::Char(c) => {
            if c == '\n' {
                PromptStep::Entered(entry)
            } else {
                let typed = encode_char(c);
                crate::bytes::append(&mut entry, typed.as_slice());
                PromptStep::Pending(entry)
            }
        },
        Key::Esc => {
            if entry.len() == 0 {
                PromptStep::Cancelled
            } else {
                PromptStep::Pending(Vec::new())
            }
        },
        Key::Ctrl(c) => {
            if c == 'c' {
                if entry.len() == 0 {
                    PromptStep::Cancelled
                } else {
                    PromptStep::Pending(Vec::new())
                }
            } else {
                PromptStep::Pending(entry)
            }
        },
        Key::Backspace | Key::Delete => {
            pop_char(&mut entry);
            PromptStep::Pending(entry)
        },
        _ => PromptStep::Pending(entry),
    }
}

impl UI {
    /// A controller for a terminal of the given size, with no page yet.
    pub fn new(cols: u16, rows: u16) -> (ui: UI)
        ensures
            ui@ == fresh(cols, rows),
            ui@.wf(),
    {
        let ui = UI {
            views: Vec::new(),
            focused: 0,
            dirty: true,
            running: true,
            cols,
            rows,
            status: Vec::new(),
            mode: Mode::Browse,
        };
        assert(page_views(ui.views@) =~= Seq::empty());
        ui
    }

    /// Whether the session goes on.
    pub fn running(&self) -> (r: bool)
        ensures
            r == self@.running,
    {
        self.running
    }

    /// Whether the screen is out of date.
    pub fn dirty(&self) -> (r: bool)
        ensures
            r == self@.dirty,
    {
        self.dirty
    }

    /// Whether a request is out.
    pub fn busy(&self) -> (r: bool)
        ensures
            r == self@.busy(),
    {
        match &self.mode {
            Mode::Busy(_) => true,
            _ => false,
        }
    }

    /// Index of the page on show.
    pub fn focused(&self) -> (r: usize)
        ensures
            r == self@.focused,
    {
        self.focused
    }

    /// How many pages the history holds.
    pub fn len(&self) -> (r: usize)
        ensures
            r == self@.pages.len(),
    {
        self.views.len()
    }

    /// The page at index `i` of the history.
    pub fn page(&self, i: usize) -> (r: Option<&Page>)
        ensures
            i < self@.pages.len() ==> r is Some && r->0@ == self@.pages[i as int],
            i >= self@.pages.len() ==> r is None,
    {
        if i < self.views.len() {
            Some(&self.views[i])
        } else {
            None
        }
    }

    /// The message on the bottom row; empty for none.
    pub fn status(&self) -> (r: &Vec<u8>)
        ensures
            r@ == self@.status,
    {
        &self.status
    }

    /// What the controller is in the middle of.
    pub fn mode(&self) -> (r: &Mode)
        ensures
            r@ == self@.mode,
    {
        &self.mode
    }

    /// The size of the terminal as last noted: columns, rows.
    pub fn size(&self) -> (r: (u16, u16))
        ensures
            r == (self@.cols, self@.rows),
    {
        (self.cols, self.rows)
    }

    /// Shows a message on the bottom row.
    pub fn set_status(&mut self, status: Vec<u8>)
        ensures
            final(self)@ == (UiView { status: status@, dirty: true, ..old(self)@ }),
    {
        self.status = status;
        self.dirty = true;
    }

    /// Notes the size of the terminal.
    pub fn term_size(&mut self, cols: u16, rows: u16)
        ensures
            final(self)@ == (UiView { cols, rows, ..old(self)@ }),
    {
        self.cols = cols;
        self.rows = rows;
    }

    /// Puts a new page behind the focused one, drops what lay behind the
    /// focus before, and moves the focus to the new page.
    pub fn add_page(&mut self, page: Page)
        requires
            old(self)@.wf(),
        ensures
            final(self)@ == add_page_of(old(self)@, page@),
            final(self)@.wf(),
    {
        self.dirty = true;
        if self.views.len() > 0 {
            self.views.truncate(self.focused + 1);
            assert(page_views(self.views@) =~= old(self)@.pages.take(
                old(self)@.focused as int + 1,
            ));
        }
        let ghost before = self.views@;
        self.views.push(page);
        assert(page_views(self.views@) =~= page_views(before).push(page@));
        if self.views.len() > 1 {
            self.focused += 1;
        }
        assert(self@.pages =~= add_page_of(old(self)@, page@).pages);
    }

    /// The text of the focused page for a terminal of the given size, which
    /// the controller and the page take note of.
    pub fn render(&mut self, size: Option<(u16, u16)>) -> (text: Vec<u8>)
        requires
            old(self)@.wf(),
        ensures
            (final(self)@, text@) == render_of(old(self)@, size),
            final(self)@.wf(),
    {
        match size {
            Some((cols, rows)) => {
                self.term_size(cols, rows);
                if self.views.len() > 0 {
                    self.views[self.focused].term_size(cols, rows);
                    assert(page_views(self.views@) =~= old(self)@.pages.update(
                        old(self)@.focused as int,
                        PageView { cols, rows, ..old(self)@.pages[old(self)@.focused as int] },
                    ));
                    self.views[self.focused].render()
                } else {
                    no_content_bytes()
                }
            },
            None => no_size_bytes(),
        }
    }

    /// The bottom row.
    pub fn render_status(&self) -> (text: Vec<u8>)
        ensures
            text@ == bottom_of(self@),
    {
        match &self.mode {
            Mode::Confirm(l) => {
                let url = l.url();
                let question = download_question_bytes(url.as_slice());
                confirm_line_bytes(question.as_slice(), self.rows)
            },
            Mode::Prompt(entry) => {
                let words = goto_prompt_bytes();
                prompt_line_bytes(words.as_slice(), entry.as_slice(), self.rows)
            },
            _ => {
                if self.status.len() == 0 {
                    Vec::new()
                } else {
                    status_line_bytes(self.status.as_slice(), self.rows)
                }
            },
        }
    }

    /// The next frame, if the screen is out of date.
    pub fn draw(&mut self, size: Option<(u16, u16)>) -> (frame: Option<Vec<u8>>)
        requires
            old(self)@.wf(),
        ensures
            final(self)@.wf(),
            (final(self)@, given(frame)) == draw_of(old(self)@, size),
    {
        if self.dirty {
            let mut frame = frame_head_bytes();
            let body = self.render(size);
            crate::bytes::append(&mut frame, body.as_slice());
            let bottom = self.render_status();
            crate::bytes::append(&mut frame, bottom.as_slice());
            self.dirty = false;
            Some(frame)
        } else {
            None
        }
    }

    /// Whether the focused page came from `l`.
    fn focus_on(&self, l: &Locator) -> (r: bool)
        requires
            self@.wf(),
        ensures
            r == focus_is(self@, l@),
    {
        self.views.len() > 0 && self.views[self.focused].locator().same(l)
    }

    /// Opens a locator; see `open_locator_of`.
    pub fn open_locator(&mut self, l: Locator) -> (r: Option<Request>)
        requires
            old(self)@.wf(),
        ensures
            final(self)@.wf(),
            (final(self)@, asked(r)) == open_locator_of(old(self)@, l@),
    {
        if self.busy() || self.focus_on(&l) {
            return None;
        }
        if l.item_type.is_download() {
            self.mode = Mode::Confirm(l);
            self.dirty = true;
            return None;
        }
        proof {
            reveal_strlit("help");
        }
        let help = ascii("help");
        let request = if bytes_eq(l.host.as_slice(), help.as_slice()) {
            Request::Help(l)
        } else {
            Request::Fetch(l)
        };
        self.mode = Mode::Busy(request.duplicate());
        Some(request)
    }

    /// Opens a locator given as text; see `open_of`.
    pub fn open(&mut self, url: &[u8]) -> (r: Option<Request>)
        requires
            old(self)@.wf(),
        ensures
            final(self)@.wf(),
            (final(self)@, asked(r)) == open_of(old(self)@, url@),
    {
        let l = parse_locator(url);
        if self.busy() || self.focus_on(&l) {
            return None;
        }
        proof {
            reveal_strlit("://");
            reveal_strlit("gopher://");
        }
        let mark = ascii("://");
        let own = ascii("gopher://");
        if contains_bytes(url, mark.as_slice()) && !starts_with(url, own.as_slice()) {
            self.mode = Mode::Busy(Request::External(copy(url)));
            return Some(Request::External(copy(url)));
        }
        self.open_locator(l)
    }

    /// Carries out what a page asked for; see `process_of`.
    fn process_action(&mut self, action: Action, changed: bool) -> (r: Option<Request>)
        requires
            old(self)@.wf(),
        ensures
            final(self)@.wf(),
            (final(self)@, asked(r)) == process_of(old(self)@, action@, changed),
    {
        match action {
            Action::Quit => {
                self.running = false;
                None
            },
            Action::Back => {
                if self.focused > 0 {
                    self.focused -= 1;
                    self.dirty = true;
                }
                None
            },
            Action::Forward => {
                if self.views.len() > 0 && self.focused < self.views.len() - 1 {
                    self.focused += 1;
                    self.dirty = true;
                }
                None
            },
            Action::Fetch(l) => self.open_locator(l),
            Action::Idle => {
                if changed {
                    self.dirty = true;
                }
                None
            },
        }
    }

    /// A key while browsing; see `browse_of`.
    fn browse(&mut self, key: Key) -> (r: Option<Request>)
        requires
            old(self)@.wf(),
        ensures
            final(self)@.wf(),
            (final(self)@, asked(r)) == browse_of(old(self)@, key),
    {
        match key {
            Key::Ctrl(c) => {
                if c == 'r' {
                    if self.views.len() > 0 {
                        let page = self.views[self.focused].source();
                        self.add_page(page);
                    }
                    return None;
                } else if c == 'g' {
                    self.mode = Mode::Prompt(Vec::new());
                    self.dirty = true;
                    return None;
                } else if c == 'h' {
                    proof {
                        reveal_strlit("gopher://help/");
                    }
                    let url = ascii("gopher://help/");
                    return self.open(url.as_slice());
                } else if c == 'e' {
                    proof {
                        reveal_strlit("gopher://help/1/history");
                    }
                    let url = ascii("gopher://help/1/history");
                    return self.open(url.as_slice());
                } else if c == 'u' {
                    if self.views.len() > 0 {
                        let url = self.views[self.focused].locator().url();
                        self.set_status(current_bytes(url.as_slice()));
                    }
                    return None;
                } else if c == 'y' {
                    if self.views.len() > 0 {
                        let url = self.views[self.focused].locator().url();
                        self.mode = Mode::Busy(Request::Clipboard(copy(url.as_slice())));
                        return Some(Request::Clipboard(url));
                    }
                    return None;
                }
            },
            _ => {},
        }
        if self.views.len() == 0 {
            match key {
                Key::Ctrl(c) => {
                    if c == 'q' || c == 'c' {
                        self.running = false;
                    }
                },
                _ => {},
            }
            return None;
        }
        let selected = self.views[self.focused].selected();
        let typed = self.views[self.focused].input().len();
        let action = self.views[self.focused].respond(key);
        let now = &self.views[self.focused];
        let changed = now.selected() != selected || now.input().len() != typed;
        proof {
            let before = old(self)@.pages[old(self)@.focused as int];
            lemma_respond_change(before, key);
            assert(self@.pages =~= old(self)@.pages.update(
                old(self)@.focused as int,
                respond_of(before, key).0,
            ));
        }
        self.process_action(action, changed)
    }

    /// One cycle of input; see `update_of`.
    pub fn update(&mut self, key: Key) -> (r: Option<Request>)
        requires
            old(self)@.wf(),
        ensures
            final(self)@.wf(),
            (final(self)@, asked(r)) == update_of(old(self)@, key),
    {
        if self.busy() {
            return None;
        }
        if self.status.len() > 0 {
            self.status = Vec::new();
            self.dirty = true;
        }
        let mut mode = Mode::Browse;
        std::mem::swap(&mut self.mode, &mut mode);
        match mode {
            Mode::Confirm(l) => {
                self.dirty = true;
                if confirm(key) {
                    self.mode = Mode::Busy(Request::Download(l.duplicate()));
                    Some(Request::Download(l))
                } else {
                    None
                }
            },
            Mode::Prompt(entry) => {
                self.dirty = true;
                match prompt(entry, key) {
                    PromptStep::Pending(text) => {
                        self.mode = Mode::Prompt(text);
                        None
                    },
                    PromptStep::Entered(text) => self.open(text.as_slice()),
                    PromptStep::Cancelled => None,
                }
            },
            _ => self.browse(key),
        }
    }

    /// Takes in the outcome of the request that is out; see `resolve_of`.
    pub fn resolve(&mut self, outcome: Outcome)
        requires
            old(self)@.wf(),
        ensures
            final(self)@.wf(),
            final(self)@ == resolve_of(old(self)@, outcome@),
    {
        let mut mode = Mode::Browse;
        std::mem::swap(&mut self.mode, &mut mode);
        match mode {
            Mode::Busy(request) => {
                self.dirty = true;
                match outcome {
                    Outcome::Failed(e) => {
                        self.status = alert_bytes(e.message().as_slice());
                    },
                    Outcome::Body(body) => match request {
                        Request::Fetch(l) => self.deliver(l, body),
                        Request::Help(l) => self.deliver(l, body),
                        _ => {},
                    },
                    Outcome::Saved(path, n) => match request {
                        Request::Download(_) => {
                            self.status = saved_bytes(path.as_slice(), n);
                        },
                        _ => {},
                    },
                    Outcome::Done => match request {
                        Request::Clipboard(url) => {
                            self.status = copied_bytes(url.as_slice());
                        },
                        _ => {},
                    },
                }
            },
            other => {
                self.mode = other;
            },
        }
    }

    /// Runs a session over the given inputs, in order, on a terminal of
    /// the given size, and gives back the requests made and the frames
    /// drawn; see `run_of`.
    pub fn run(&mut self, inputs: &Vec<Input>, size: Option<(u16, u16)>) -> (out: Session)
        requires
            old(self)@.wf(),
        ensures
            final(self)@.wf(),
            (final(self)@, out@) == run_of(old(self)@, input_views(inputs@), size),
    {
        let mut out = Session { requests: Vec::new(), frames: Vec::new() };
        let mut i: usize = 0;
        let ghost all = input_views(inputs@);
        assert(all.take(0) =~= Seq::<InputView>::empty());
        assert(out@.requests =~= Seq::<RequestView>::empty());
        assert(out@.frames =~= Seq::<Seq<u8>>::empty());
        while i < inputs.len()
            invariant
                i <= inputs.len(),
                all == input_views(inputs@),
                self@.wf(),
                (self@, out@) == run_of(old(self)@, all.take(i as int), size),
            decreases inputs.len() - i,
        {
            let ghost before = out;
            if self.running {
                match self.draw(size) {
                    Some(frame) => {
                        out.frames.push(frame);
                        assert(out@.frames =~= before@.frames.push(frame@));
                    },
                    None => {},
                }
                match &inputs[i] {
                    Input::Key(key) => {
                        match self.update(*key) {
                            Some(q) => {
                                out.requests.push(q);
                                assert(out@.requests =~= before@.requests.push(q@));
                            },
                            None => {},
                        }
                    },
                    Input::Outcome(o) => {
                        self.resolve(o.duplicate());
                    },
                }
            }
            i += 1;
            assert(all.take(i as int).drop_last() =~= all.take(i - 1));
        }
        assert(all.take(i as int) =~= all);
        out
    }

    /// The locators of the pages in the history that were fetched, as text,
    /// oldest first; see `visited_of`.
    pub fn visited(&self) -> (r: Vec<Vec<u8>>)
        ensures
            views(r@) == visited_of(self@.pages, self@.pages.len() as int),
    {
        proof {
            reveal_strlit("help");
        }
        let help = ascii("help");
        let mut r: Vec<Vec<u8>> = Vec::new();
        let mut i: usize = 0;
        assert(views(r@) =~= visited_of(self@.pages, 0));
        while i < self.views.len()
            invariant
                i <= self.views.len(),
                help@ == help_host(),
                views(r@) == visited_of(self@.pages, i as int),
            decreases self.views.len() - i,
        {
            let l = self.views[i].locator();
            if !bytes_eq(l.host.as_slice(), help.as_slice()) {
                let ghost before = r@;
                let url = l.url();
                r.push(url);
                assert(views(r@) =~= views(before).push(url@));
            }
            i += 1;
        }
        r
    }

    /// Turns a body into a page of the history, or into an error message.
    fn deliver(&mut self, l: Locator, body: Vec<u8>)
        requires
            old(self)@.wf(),
        ensures
            final(self)@.wf(),
            final(self)@ == delivered(old(self)@, l@, body@),
    {
        match Page::build(l, body) {
            Ok(page) => self.add_page(page),
            Err(e) => {
                self.status = alert_bytes(e.message().as_slice());
            },
        }
    }
}

/// The name under which the help page for a locator is looked up.
pub fn help_topic(l: &Locator) -> (r: Vec<u8>)
    ensures
        r@ == topic_of(l@),
{
    if l.selector.len() > 0 && l.selector[0] == SLASH {
        slice_copy(l.selector.as_slice(), 1, l.selector.len())
    } else {
        copy(l.selector.as_slice())
    }
}

} // verus!
