//! What the controller asks of anything it keeps in its history.

use crate::bytes::copy;
use crate::gopher::url_of;
use crate::page::{respond_of, text_of, Action, Key, Page, PageView};
use vstd::prelude::*;

verus! {

/// A unit of navigable content: something that answers keys with actions,
/// renders itself as text, and knows where it came from.
pub trait View {
    /// The content as plain values.
    spec fn model(&self) -> PageView;

    /// Answers a key: updates selection and filter text, and says what the
    /// controller should do.
    fn respond(&mut self, key: Key) -> (a: Action)
        ensures
            (final(self).model(), vstd::view::View::view(&a)) == respond_of(old(self).model(), key),
    ;

    /// The text to show, for the terminal size last told.
    fn render(&self) -> (text: Vec<u8>)
        ensures
            vstd::view::View::view(&text) == text_of(self.model()),
    ;

    /// The locator the content came from, as text.
    fn url(&self) -> (text: Vec<u8>)
        ensures
            vstd::view::View::view(&text) == url_of(self.model().locator),
    ;

    /// The response as it came off the wire.
    fn raw(&self) -> (body: Vec<u8>)
        ensures
            vstd::view::View::view(&body) == self.model().raw,
    ;

    /// Takes note of the size of the terminal.
    fn term_size(&mut self, cols: u16, rows: u16)
        ensures
            final(self).model() == (PageView { cols, rows, ..old(self).model() }),
    ;
}

impl View for Page {
    open spec fn model(&self) -> PageView {
        vstd::view::View::view(self)
    }

    fn respond(&mut self, key: Key) -> (a: Action) {
        Page::respond(self, key)
    }

    fn render(&self) -> (text: Vec<u8>) {
        Page::render(self)
    }

    fn url(&self) -> (text: Vec<u8>) {
        Page::locator(self).url()
    }

    fn raw(&self) -> (body: Vec<u8>) {
        copy(Page::raw(self).as_slice())
    }

    fn term_size(&mut self, cols: u16, rows: u16) {
        Page::term_size(self, cols, rows)
    }
}

} // verus!
