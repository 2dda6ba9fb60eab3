//! What holds of every run of the harness process, in whatever order its output,
//! its end and the probe's finding come in.

use crate::banner::announced_url;
use crate::decimal::signed_text;
use crate::encoding::shown_text;
use crate::http::{law_addresses_name_their_port, loopback_host_text};
use crate::sidecar::{
    exit_text, notice_view, opt_text, sidecar_next, sidecar_view, texts, Notice, NoticeView, SidecarEvent,
    SidecarEventView, SidecarState, SidecarView, TAIL_LIMIT,
};
use crate::text::whitespace;
use crate::text_laws::{blank, law_trimming_removes_only_blanks_around};
use vstd::prelude::*;

verus! {

/// What is known before anything happened.
pub open spec fn sidecar_start() -> SidecarView {
    SidecarView { announced: false, url: None, tail: Seq::empty() }
}

/// What is known after `events`.
pub open spec fn known_after(events: Seq<SidecarEventView>) -> SidecarView
    decreases events.len(),
{
    if events.len() == 0 {
        sidecar_start()
    } else {
        sidecar_next(known_after(events.drop_last()), events.last()).0
    }
}

/// What the loading page was told, in order.
pub open spec fn notices(events: Seq<SidecarEventView>) -> Seq<NoticeView>
    decreases events.len(),
{
    if events.len() == 0 {
        Seq::empty()
    } else {
        let before = notices(events.drop_last());
        match sidecar_next(known_after(events.drop_last()), events.last()).1 {
            Some(notice) => before.push(notice),
            None => before,
        }
    }
}

/// The texts on standard error, in order.
pub open spec fn stderr_texts(events: Seq<SidecarEventView>) -> Seq<Seq<char>>
    decreases events.len(),
{
    if events.len() == 0 {
        Seq::empty()
    } else {
        let before = stderr_texts(events.drop_last());
        match events.last() {
            SidecarEventView::Stderr(text) => before.push(text),
            _ => before,
        }
    }
}

/// The last elements of `s`, at most `n` of them.
pub open spec fn last_of(s: Seq<Seq<char>>, n: nat) -> Seq<Seq<char>> {
    if s.len() <= n {
        s
    } else {
        s.skip(s.len() - n)
    }
}

/// The loading page is told at most once how it went, and the URL that is known is
/// the one it was told, if it was told one.
pub proof fn law_told_at_most_once(events: Seq<SidecarEventView>)
    ensures
        notices(events).len() <= 1,
        known_after(events).announced <==> notices(events).len() == 1,
        known_after(events).url == (if notices(events).len() == 1 {
            match notices(events)[0] {
                NoticeView::Ready(url) => Some(url),
                NoticeView::Error(_) => None,
            }
        } else {
            None
        }),
    decreases events.len(),
{
    if events.len() > 0 {
        law_told_at_most_once(events.drop_last());
    }
}

/// Whether an event shows how the start of the sidecar went.
pub open spec fn decisive(event: SidecarEventView) -> bool {
    match event {
        SidecarEventView::Stdout(text) => announced_url(text) is Some,
        SidecarEventView::Error(_) | SidecarEventView::Terminated(_) | SidecarEventView::Probed(_) => true,
        SidecarEventView::Stderr(_) | SidecarEventView::Other => false,
    }
}

/// The loading page is told exactly once as soon as anything shows how it went, and
/// not before.
pub proof fn law_told_once_decided(events: Seq<SidecarEventView>)
    ensures
        notices(events).len() == 1 <==> exists|i: int| 0 <= i < events.len() && decisive(#[trigger] events[i]),
    decreases events.len(),
{
    if events.len() > 0 {
        let prior = events.drop_last();
        law_told_once_decided(prior);
        law_told_at_most_once(prior);
        assert(events[events.len() - 1] == events.last());
        if exists|i: int| 0 <= i < prior.len() && decisive(#[trigger] prior[i]) {
            let i = choose|i: int| 0 <= i < prior.len() && decisive(#[trigger] prior[i]);
            assert(events[i] == prior[i]);
        } else if exists|i: int| 0 <= i < events.len() && decisive(#[trigger] events[i]) {
            let i = choose|i: int| 0 <= i < events.len() && decisive(#[trigger] events[i]);
            if i < prior.len() {
                assert(prior[i] == events[i]);
            }
        }
    }
}

/// What comes first decides: once the loading page was told, nothing that happens
/// later changes what it was told or the URL that is known.
pub proof fn law_first_decides(events: Seq<SidecarEventView>, more: Seq<SidecarEventView>)
    requires
        notices(events).len() == 1,
    ensures
        notices(events + more) == notices(events),
        known_after(events + more).url == known_after(events).url,
    decreases more.len(),
{
    law_told_at_most_once(events);
    if more.len() == 0 {
        assert(events + more == events);
    } else {
        let prior = more.drop_last();
        law_first_decides(events, prior);
        law_told_at_most_once(events + prior);
        assert((events + more).drop_last() == events + prior);
        assert((events + more).last() == more.last());
    }
}

/// What the loading page is told is what follows from the first event that shows how
/// it went, and nothing else: where that is readiness, no later failure is told, and
/// where it is a failure, neither a later one nor readiness is.
pub proof fn law_the_first_decisive_event_is_told(events: Seq<SidecarEventView>, i: int)
    requires
        0 <= i < events.len(),
        decisive(events[i]),
        forall|j: int| 0 <= j < i ==> !decisive(#[trigger] events[j]),
    ensures
        sidecar_next(known_after(events.take(i)), events[i]).1 is Some,
        notices(events) == seq![sidecar_next(known_after(events.take(i)), events[i]).1->0],
        known_after(events).url == sidecar_next(known_after(events.take(i)), events[i]).0.url,
{
    let before = events.take(i);
    let upto = events.take(i + 1);
    law_told_once_decided(before);
    law_told_at_most_once(before);
    assert(notices(before).len() == 0) by {
        if exists|j: int| 0 <= j < before.len() && decisive(#[trigger] before[j]) {
            let j = choose|j: int| 0 <= j < before.len() && decisive(#[trigger] before[j]);
            assert(events[j] == before[j]);
        }
    }
    assert(upto.drop_last() == before);
    assert(upto.last() == events[i]);
    assert(notices(upto) =~= seq![sidecar_next(known_after(before), events[i]).1->0]);
    law_first_decides(upto, events.skip(i + 1));
    assert(upto + events.skip(i + 1) == events);
}

/// What is kept of standard error is its end: the last texts, in order, at most
/// twenty of them.
pub proof fn law_tail_is_the_end_of_stderr(events: Seq<SidecarEventView>)
    ensures
        known_after(events).tail == last_of(stderr_texts(events), TAIL_LIMIT as nat),
        known_after(events).tail.len() <= TAIL_LIMIT,
        known_after(events).tail.len() == (if stderr_texts(events).len() < 20 {
            stderr_texts(events).len()
        } else {
            20
        }),
        forall|i: int|
            0 <= i < known_after(events).tail.len() ==> #[trigger] known_after(events).tail[i] == stderr_texts(
                events,
            )[stderr_texts(events).len() - known_after(events).tail.len() + i],
    decreases events.len(),
{
    if events.len() > 0 {
        let prior = events.drop_last();
        law_tail_is_the_end_of_stderr(prior);
        match events.last() {
            SidecarEventView::Stderr(text) => {
                assert(known_after(events).tail =~= last_of(stderr_texts(events), TAIL_LIMIT as nat));
            },
            _ => {},
        }
    }
}

/// What is told where nothing was told before: the URL that a banner announces, or that
/// of the port that the probe found ready, or which failure it was with its whole error.
/// What else is known stays as it is.
pub proof fn law_what_is_told(state: SidecarView, text: Seq<char>, error: Seq<char>, code: Option<i32>, port: u16)
    requires
        !state.announced,
    ensures
        announced_url(text) is Some ==> sidecar_next(state, SidecarEventView::Stdout(text)) == (
            SidecarView { announced: true, url: announced_url(text), tail: state.tail },
            Some(NoticeView::Ready(announced_url(text)->0)),
        ),
        announced_url(text) is None ==> sidecar_next(state, SidecarEventView::Stdout(text)) == (
            state,
            None::<NoticeView>,
        ),
        sidecar_next(state, SidecarEventView::Probed(port)) == (
            SidecarView { announced: true, url: Some("http://"@ + loopback_host_text(port)), tail: state.tail },
            Some(NoticeView::Ready("http://"@ + loopback_host_text(port))),
        ),
        sidecar_next(state, SidecarEventView::Error(error)) == (
            SidecarView { announced: true, url: state.url, tail: state.tail },
            Some(NoticeView::Error("harness sidecar error: "@ + error)),
        ),
        sidecar_next(state, SidecarEventView::Terminated(code)) == (
            SidecarView { announced: true, url: state.url, tail: state.tail },
            Some(NoticeView::Error(exit_text(code, state.tail))),
        ),
{
    law_addresses_name_their_port(port, port);
}

/// Standard error is never told by itself, and decides nothing: it is kept behind what
/// was kept before, and where twenty texts were kept, the first of them goes.
pub proof fn law_standard_error_is_kept(state: SidecarView, text: Seq<char>)
    requires
        state.tail.len() <= 20,
    ensures
        sidecar_next(state, SidecarEventView::Stderr(text)) == (
            SidecarView {
                announced: state.announced,
                url: state.url,
                tail: (if state.tail.len() < 20 {
                    state.tail
                } else {
                    state.tail.skip(1)
                }).push(text),
            },
            None::<NoticeView>,
        ),
{
    if state.tail.len() == 20 {
        assert(state.tail.push(text).skip(1) =~= state.tail.skip(1).push(text));
    }
}

/// Once the loading page was told how it went, nothing is told any more, and nothing
/// but the end of standard error changes.
pub proof fn law_nothing_is_told_twice(state: SidecarView, event: SidecarEventView)
    requires
        state.announced,
    ensures
        sidecar_next(state, event).1 is None,
        sidecar_next(state, event).0.announced,
        sidecar_next(state, event).0.url == state.url,
        !(event is Stderr) ==> sidecar_next(state, event).0 == state,
{
}

/// Other events are passed over.
pub proof fn law_other_events_are_passed_over(state: SidecarView)
    ensures
        sidecar_next(state, SidecarEventView::Other) == (state, None::<NoticeView>),
{
}

/// What is said of a sidecar that ended: its exit code, and then what it printed to
/// standard error at the end, without the blanks around that; nothing of the kind where
/// there is nothing but blanks.
pub proof fn law_exit_text_tells_code_and_errors(
    code: i32,
    tail: Seq<Seq<char>>,
    lead: Seq<char>,
    core: Seq<char>,
    trail: Seq<char>,
)
    requires
        tail.flatten() == lead + core + trail,
        blank(lead),
        blank(trail),
        core.len() > 0 ==> !whitespace(core[0]) && !whitespace(core[core.len() - 1]),
    ensures
        ({
            let errors = if core.len() == 0 {
                Seq::<char>::empty()
            } else {
                ": "@ + core
            };
            &&& exit_text(Some(code), tail) == "harness sidecar exited before starting (code=Some("@ + signed_text(
                code as int,
            ) + "))"@ + errors
            &&& exit_text(None, tail) == "harness sidecar exited before starting (code=None)"@ + errors
        }),
{
    law_trimming_removes_only_blanks_around(lead, core, trail);
    reveal_strlit("harness sidecar exited before starting (code=");
    reveal_strlit("harness sidecar exited before starting (code=Some(");
    reveal_strlit("harness sidecar exited before starting (code=None)");
    reveal_strlit("Some(");
    reveal_strlit("None");
    reveal_strlit(")");
    reveal_strlit("))");
    let head = "harness sidecar exited before starting (code="@;
    assert("harness sidecar exited before starting (code=Some("@ =~= head + "Some("@);
    assert("harness sidecar exited before starting (code=None)"@ =~= head + "None"@ + ")"@);
    assert("))"@ =~= ")"@ + ")"@);
    let errors = if core.len() == 0 {
        Seq::<char>::empty()
    } else {
        ": "@ + core
    };
    assert(exit_text(Some(code), tail) =~= head + "Some("@ + signed_text(code as int) + ")"@ + ")"@ + errors);
    assert(exit_text(None, tail) =~= head + "None"@ + ")"@ + errors);
}

/// What the sidecar does, and what the loading page is told, is known by its texts as
/// they stand.
pub proof fn law_sidecar_is_taken_whole<C>(
    bytes: Vec<u8>,
    text: String,
    code: Option<i32>,
    list: Seq<String>,
    child: Option<C>,
    announced: bool,
    tail: Seq<Seq<char>>,
)
    ensures
        SidecarEvent::Stdout(bytes)@ == SidecarEventView::Stdout(shown_text(bytes@)),
        SidecarEvent::Stderr(bytes)@ == SidecarEventView::Stderr(shown_text(bytes@)),
        SidecarEvent::Error(text)@ == SidecarEventView::Error(text@),
        SidecarEvent::Terminated(code)@ == SidecarEventView::Terminated(code),
        SidecarEvent::Other@ == SidecarEventView::Other,
        notice_view(Some(Notice::Ready(text))) == Some(NoticeView::Ready(text@)),
        notice_view(Some(Notice::Error(text))) == Some(NoticeView::Error(text@)),
        notice_view(None) is None,
        opt_text(Some(text)) == Some(text@),
        opt_text(None) is None,
        sidecar_view(SidecarState { child, url: Some(text) }, announced, tail) == (SidecarView {
            announced,
            url: Some(text@),
            tail,
        }),
        sidecar_view(SidecarState { child, url: None }, announced, tail) == (SidecarView {
            announced,
            url: None,
            tail,
        }),
        texts(list).len() == list.len(),
        forall|i: int| 0 <= i < list.len() ==> #[trigger] texts(list)[i] == list[i]@,
{
}

} // verus!
