//! What holds of the controller whatever the inputs are: the focus stays
//! inside the history, opening what is on show changes nothing, the ends of
//! the history hold, a new page cuts off what lay ahead, and no request is
//! made while another is out.

use crate::gopher::locator_of;
use crate::lemmas::{lemma_encoded_one_char, lemma_last_char_appended};
use crate::page::{ActionView, Key, PageView};
use crate::ui::{
    add_page_of, draw_of, open_locator_of, open_of, outcomes, process_of, prompt_of, resolve_of,
    run_of, update_of, InputView, ModeView, OutcomeView, PromptStepView, RequestView, UiView,
};
use vstd::prelude::*;
use vstd::utf8::encode_scalar;

verus! {

/// In a text prompt, Backspace takes back the character typed last.
pub proof fn law_prompt_backspace(entry: Seq<u8>, c: char)
    requires
        c != '\n',
    ensures
        prompt_of(entry, Key::Char(c)) == PromptStepView::Pending(
            entry + encode_scalar(c as u32),
        ),
        prompt_of(entry + encode_scalar(c as u32), Key::Backspace) == PromptStepView::Pending(
            entry,
        ),
{
    lemma_encoded_one_char(c);
    lemma_last_char_appended(entry, encode_scalar(c as u32));
}

/// The focus always points at a page, whatever key arrives.
pub proof fn law_update_keeps_focus(u: UiView, key: Key)
    requires
        u.wf(),
    ensures
        update_of(u, key).0.wf(),
{
}

/// The focus always points at a page, whatever outcome arrives.
pub proof fn law_resolve_keeps_focus(u: UiView, o: OutcomeView)
    requires
        u.wf(),
    ensures
        resolve_of(u, o).wf(),
{
}

/// Opening the locator that the focused page came from changes nothing and
/// asks for nothing, whether the locator comes as a value or as text.
pub proof fn law_self_open(u: UiView, url: Seq<u8>)
    requires
        u.wf(),
        u.pages.len() > 0,
    ensures
        open_locator_of(u, u.pages[u.focused as int].locator) == (u, None::<RequestView>),
        locator_of(url) == u.pages[u.focused as int].locator ==> open_of(u, url) == (
            u,
            None::<RequestView>,
        ),
{
}

/// Going back from the first page and going forward from the last page
/// change nothing, as actions and as keys.
pub proof fn law_history_ends(u: UiView)
    requires
        u.wf(),
        u.pages.len() > 0,
    ensures
        u.focused == 0 ==> process_of(u, ActionView::Back, false) == (u, None::<RequestView>),
        u.focused + 1 == u.pages.len() ==> process_of(u, ActionView::Forward, false) == (
            u,
            None::<RequestView>,
        ),
        u.focused == 0 && u.mode is Browse && u.status.len() == 0 ==> update_of(u, Key::Left) == (
            u,
            None::<RequestView>,
        ),
        u.focused + 1 == u.pages.len() && u.mode is Browse && u.status.len() == 0 ==> update_of(
            u,
            Key::Right,
        ) == (u, None::<RequestView>),
{
    assert(u.pages.update(u.focused as int, u.pages[u.focused as int]) =~= u.pages);
}

/// A page that arrives takes the place behind the focused one: the pages up
/// to the focus stay, those behind it go, and the new page is last and has
/// the focus.
pub proof fn law_new_page_truncates(u: UiView, p: PageView)
    requires
        u.wf(),
    ensures
        add_page_of(u, p).wf(),
        add_page_of(u, p).pages.last() == p,
        add_page_of(u, p).focused == add_page_of(u, p).pages.len() - 1,
        u.pages.len() == 0 ==> add_page_of(u, p).pages.len() == 1,
        u.pages.len() > 0 ==> add_page_of(u, p).pages.len() == u.focused + 2,
        forall|i: int|
            0 <= i <= u.focused && i < u.pages.len() ==> add_page_of(u, p).pages[i] == u.pages[i],
{
}

/// A request is made only by a controller that is not busy, and makes it
/// busy with that request; nothing else makes it busy, and only an outcome
/// ends the wait.
pub proof fn law_one_request_at_a_time(u: UiView, key: Key, url: Seq<u8>, o: OutcomeView)
    ensures
        u.busy() ==> update_of(u, key) == (u, None::<RequestView>),
        u.busy() ==> open_of(u, url) == (u, None::<RequestView>),
        update_of(u, key).1 matches Some(q) ==> !u.busy() && update_of(u, key).0.mode
            == ModeView::Busy(q),
        update_of(u, key).1 is None ==> update_of(u, key).0.busy() == u.busy(),
        open_of(u, url).1 matches Some(q) ==> !u.busy() && open_of(u, url).0.mode
            == ModeView::Busy(q),
        open_of(u, url).1 is None ==> open_of(u, url).0.busy() == u.busy(),
        !resolve_of(u, o).busy(),
{
}

/// Over any run of inputs, the requests made never outnumber the outcomes
/// taken in by more than the one request that is still out.
pub proof fn law_requests_wait_for_outcomes(
    u: UiView,
    inputs: Seq<InputView>,
    size: Option<(u16, u16)>,
)
    requires
        !u.busy(),
    ensures
        run_of(u, inputs, size).1.requests.len() <= outcomes(inputs) + (if run_of(
            u,
            inputs,
            size,
        ).0.busy() {
            1nat
        } else {
            0nat
        }),
    decreases inputs.len(),
{
    if inputs.len() > 0 {
        law_requests_wait_for_outcomes(u, inputs.drop_last(), size);
        let (mid, out) = run_of(u, inputs.drop_last(), size);
        if mid.running {
            let drawn = draw_of(mid, size).0;
            assert(drawn.busy() == mid.busy());
            match inputs.last() {
                InputView::Key(key) => {
                    law_one_request_at_a_time(drawn, key, Seq::empty(), OutcomeView::Done);
                },
                InputView::Outcome(o) => {
                    law_one_request_at_a_time(drawn, Key::Null, Seq::empty(), o);
                },
            }
        }
    }
}

/// A session never draws the same screen twice in a row: a frame is drawn
/// only when the screen is out of date, and drawing brings it up to date.
pub proof fn law_one_frame_per_change(u: UiView, size: Option<(u16, u16)>)
    ensures
        !draw_of(u, size).0.dirty,
        draw_of(u, size).1 is Some <==> u.dirty,
        draw_of(draw_of(u, size).0, size).1 is None,
        u.wf() ==> draw_of(u, size).0.wf(),
{
}

} // verus!
