//! Waiting for the harness's HTTP server to answer.
//!
//! [`Probe`] is driven by its caller: its variants say what is to be done, and
//! `advance` takes how that went. Time is in milliseconds on any one clock.

use crate::decimal::decimal_text;
use crate::http::{is_ready_response, law_only_2xx_shows_ready, law_status_line, response_code, shows_ready};
use crate::text::whitespace;
use vstd::prelude::*;
use vstd::utf8::encode_utf8;

verus! {

/// How long the probe keeps retrying before it gives up.
pub const PROBE_TIMEOUT_MS: u64 = 600_000;

/// How long to wait for a connection, and then for an answer.
pub const ATTEMPT_TIMEOUT_MS: u64 = 500;

/// How long to wait before the next attempt.
pub const RETRY_DELAY_MS: u64 = 300;

/// How much of an answer is looked at.
pub const RESPONSE_BYTES: usize = 64;

/// A probe, by what its caller is to do next.
#[derive(Clone, Copy, PartialEq, Eq, Structural)]
pub enum Probe {
    /// The clock and the give-up signal are to be read.
    Checking,
    /// The server is to be asked for its root page.
    Attempting,
    /// The caller is to wait for `RETRY_DELAY_MS`.
    Waiting,
    /// Nothing is left to do; the server is ready, or it is not and was given up on.
    Finished(bool),
}

/// What the caller of a probe reports.
pub enum ProbeEvent {
    /// The time, the deadline, and whether somebody else has decided already.
    Clock { now: u64, deadline: u64, give_up: bool },
    /// What the server answered, or `None` where there was no connection, the
    /// request could not be sent or the answer could not be read.
    Answer(Option<Vec<u8>>),
    /// The delay is over.
    Waited,
}

/// A report by its bytes.
pub enum ProbeEventView {
    Clock { now: u64, deadline: u64, give_up: bool },
    Answer(Option<Seq<u8>>),
    Waited,
}

impl View for ProbeEvent {
    type V = ProbeEventView;

    open spec fn view(&self) -> ProbeEventView {
        match *self {
            ProbeEvent::Clock { now, deadline, give_up } => ProbeEventView::Clock { now, deadline, give_up },
            ProbeEvent::Answer(Some(bytes)) => ProbeEventView::Answer(Some(bytes@)),
            ProbeEvent::Answer(None) => ProbeEventView::Answer(None),
            ProbeEvent::Waited => ProbeEventView::Waited,
        }
    }
}

/// Whether an answer shows that the server is ready.
pub open spec fn answer_is_ready(answer: Option<Seq<u8>>) -> bool {
    answer matches Some(bytes) && shows_ready(bytes)
}

/// What becomes of a probe after `event`. A report that does not answer what was
/// to be done changes nothing.
pub open spec fn probe_next(probe: Probe, event: ProbeEventView) -> Probe {
    match (probe, event) {
        (Probe::Checking, ProbeEventView::Clock { now, deadline, give_up }) => {
            if now < deadline && !give_up {
                Probe::Attempting
            } else {
                Probe::Finished(false)
            }
        },
        (Probe::Attempting, ProbeEventView::Answer(answer)) => {
            if answer_is_ready(answer) {
                Probe::Finished(true)
            } else {
                Probe::Waiting
            }
        },
        (Probe::Waiting, ProbeEventView::Waited) => Probe::Checking,
        _ => probe,
    }
}

impl Probe {
    /// A probe that has not started.
    pub fn probe_http_ready() -> (res: Probe)
        ensures
            res == Probe::Checking,
    {
        Probe::Checking
    }

    /// What becomes of the probe after `event`.
    pub fn advance(self, event: ProbeEvent) -> (res: Probe)
        ensures
            res == probe_next(self, event@),
    {
        match (self, event) {
            (Probe::Checking, ProbeEvent::Clock { now, deadline, give_up }) => {
                if now < deadline && !give_up {
                    Probe::Attempting
                } else {
                    Probe::Finished(false)
                }
            },
            (Probe::Attempting, ProbeEvent::Answer(answer)) => match answer {
                Some(bytes) => {
                    if is_ready_response(bytes.as_slice()) {
                        Probe::Finished(true)
                    } else {
                        Probe::Waiting
                    }
                },
                None => Probe::Waiting,
            },
            (Probe::Waiting, ProbeEvent::Waited) => Probe::Checking,
            _ => self,
        }
    }
}

/// The state of a probe after `events`.
pub open spec fn probe_after(events: Seq<ProbeEventView>) -> Probe
    decreases events.len(),
{
    if events.len() == 0 {
        Probe::Checking
    } else {
        probe_next(probe_after(events.drop_last()), events.last())
    }
}

/// A probe finds the server ready only where it answered with a 2xx status.
pub proof fn law_ready_means_2xx(events: Seq<ProbeEventView>)
    requires
        probe_after(events) == Probe::Finished(true),
    ensures
        exists|i: int|
            0 <= i < events.len() && (#[trigger] events[i] matches ProbeEventView::Answer(answer)
                && answer_is_ready(answer)),
    decreases events.len(),
{
    let prior = events.drop_last();
    if probe_after(prior) == Probe::Finished(true) {
        law_ready_means_2xx(prior);
        let i = choose|i: int|
            0 <= i < prior.len() && (#[trigger] prior[i] matches ProbeEventView::Answer(answer)
                && answer_is_ready(answer));
        assert(events[i] == prior[i]);
    } else {
        assert(events[events.len() - 1] matches ProbeEventView::Answer(answer) && answer_is_ready(answer));
    }
}

/// A probe stops at the first look at the clock that is past the deadline or finds
/// the give-up signal, and has not found the server ready then.
pub proof fn law_probe_gives_up(events: Seq<ProbeEventView>, now: u64, deadline: u64, give_up: bool)
    requires
        probe_after(events) == Probe::Checking,
        now >= deadline || give_up,
    ensures
        probe_after(events.push(ProbeEventView::Clock { now, deadline, give_up })) == Probe::Finished(false),
{
    let clock = ProbeEventView::Clock { now, deadline, give_up };
    assert(events.push(clock).drop_last() == events);
}

/// A probe that is over stays as it is.
pub proof fn law_finished_probe_stays(events: Seq<ProbeEventView>, more: Seq<ProbeEventView>)
    requires
        probe_after(events) is Finished,
    ensures
        probe_after(events + more) == probe_after(events),
    decreases more.len(),
{
    if more.len() == 0 {
        assert(events + more == events);
    } else {
        law_finished_probe_stays(events, more.drop_last());
        assert((events + more).drop_last() == events + more.drop_last());
        assert((events + more).last() == more.last());
    }
}

/// A server that answers with a code is taken for ready exactly where that is one from
/// 200 to 299; after any other code the probe waits and tries again.
pub proof fn law_probe_goes_by_the_code(code: u16, after: Seq<char>)
    requires
        after.len() == 0 || whitespace(after[0]),
    ensures
        probe_next(
            Probe::Attempting,
            ProbeEventView::Answer(Some(encode_utf8("HTTP/1.1 "@ + decimal_text(code as nat) + after))),
        ) == (if 200 <= code && code <= 299 {
            Probe::Finished(true)
        } else {
            Probe::Waiting
        }),
{
    law_status_line(code, after);
}

/// Whatever the server answers, the attempt ends in readiness exactly where the bytes
/// hold a code from 200 to 299, and otherwise in another attempt after a delay; no
/// answer at all is one that does not show readiness.
pub proof fn law_attempt_ends(bytes: Seq<u8>)
    ensures
        response_code(bytes) is Some && response_code(bytes)->0 / 100 == 2 ==> probe_next(
            Probe::Attempting,
            ProbeEventView::Answer(Some(bytes)),
        ) == Probe::Finished(true),
        !(response_code(bytes) is Some && response_code(bytes)->0 / 100 == 2) ==> probe_next(
            Probe::Attempting,
            ProbeEventView::Answer(Some(bytes)),
        ) == Probe::Waiting,
        probe_next(Probe::Attempting, ProbeEventView::Answer(None)) == Probe::Waiting,
        probe_next(Probe::Waiting, ProbeEventView::Waited) == Probe::Checking,
{
    law_only_2xx_shows_ready(bytes);
}

/// Another attempt is made exactly where the deadline has not come and nobody has given
/// the sign to give up; otherwise the probe is over.
pub proof fn law_clock_decides(now: u64, deadline: u64, give_up: bool)
    ensures
        probe_next(Probe::Checking, ProbeEventView::Clock { now, deadline, give_up }) == (if now >= deadline
            || give_up {
            Probe::Finished(false)
        } else {
            Probe::Attempting
        }),
{
}

/// A report that does not answer what was to be done changes nothing.
pub proof fn law_probe_takes_answers_only(probe: Probe, event: ProbeEventView)
    requires
        !(probe is Checking && event is Clock),
        !(probe is Attempting && event is Answer),
        !(probe is Waiting && event is Waited),
    ensures
        probe_next(probe, event) == probe,
{
}

/// What is reported to a probe is known by its bytes as they stand.
pub proof fn law_probe_event_is_taken_whole(now: u64, deadline: u64, give_up: bool, bytes: Vec<u8>)
    ensures
        (ProbeEvent::Clock { now, deadline, give_up })@ == (ProbeEventView::Clock { now, deadline, give_up }),
        ProbeEvent::Answer(Some(bytes))@ == ProbeEventView::Answer(Some(bytes@)),
        ProbeEvent::Answer(None)@ == ProbeEventView::Answer(None),
        ProbeEvent::Waited@ == ProbeEventView::Waited,
{
}

} // verus!
