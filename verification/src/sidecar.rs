//! The harness process: what is known of it, what it tells, and what the loading
//! page is told in turn.

use crate::banner::{announced_url, parse_ready_url};
use crate::decimal::{signed_decimal, signed_text};
use crate::encoding::{shown_text, utf8_text_lossy};
use crate::http::{loopback_url, loopback_url_text};
use crate::text::{concat, trim, trimmed};
use vstd::prelude::*;
use vstd::string::*;

verus! {

/// How many texts of standard error are kept.
pub const TAIL_LIMIT: usize = 20;

/// The text of an optional string.
pub open spec fn opt_text(text: Option<String>) -> Option<Seq<char>> {
    match text {
        Some(text) => Some(text@),
        None => None,
    }
}

/// The texts of a list of strings.
pub open spec fn texts(list: Seq<String>) -> Seq<Seq<char>> {
    list.map_values(|text: String| text@)
}

/// The harness process, while there is one, and the URL of its UI, once known.
pub struct SidecarState<C> {
    pub child: Option<C>,
    pub url: Option<String>,
}

impl<C> Default for SidecarState<C> {
    fn default() -> (res: Self)
        ensures
            res.child is None,
            res.url is None,
    {
        SidecarState { child: None, url: None }
    }
}

impl<C> SidecarState<C> {
    /// The process was started.
    pub fn attach(&mut self, child: C)
        ensures
            final(self).child == Some(child),
            final(self).url == old(self).url,
    {
        self.child = Some(child);
    }

    /// The process that is to be killed on exit, if there is one; afterwards there
    /// is none.
    pub fn take_child(&mut self) -> (res: Option<C>)
        ensures
            res == old(self).child,
            final(self).child is None,
            final(self).url == old(self).url,
    {
        self.child.take()
    }
}

/// The URL of the UI, once it is known.
pub fn get_sidecar_url<C>(state: &SidecarState<C>) -> (res: Option<String>)
    ensures
        opt_text(res) == opt_text(state.url),
{
    match &state.url {
        Some(url) => Some(url.clone()),
        None => None,
    }
}

/// Report the sidecar as ready exactly once, however readiness was detected: the
/// URL to tell the loading page, where nothing was announced before.
pub fn announce_ready<C>(state: &mut SidecarState<C>, announced: &mut bool, url: String) -> (res: Option<String>)
    ensures
        *final(announced),
        final(state).child == old(state).child,
        opt_text(final(state).url) == (if *old(announced) {
            opt_text(old(state).url)
        } else {
            Some(url@)
        }),
        opt_text(res) == (if *old(announced) {
            None
        } else {
            Some(url@)
        }),
{
    if *announced {
        return None;
    }
    *announced = true;
    state.url = Some(url.clone());
    Some(url)
}

/// What the harness process does.
pub enum SidecarEvent {
    /// It printed this to standard output.
    Stdout(Vec<u8>),
    /// It printed this to standard error.
    Stderr(Vec<u8>),
    /// It could not be read from or waited for.
    Error(String),
    /// It ended, with this exit code.
    Terminated(Option<i32>),
    /// Anything else.
    Other,
}

/// What the loading page is told.
pub enum Notice {
    /// The UI is served at this URL.
    Ready(String),
    /// The bootstrap failed, and this is why.
    Error(String),
}

/// What follows from an event.
pub struct Reaction {
    /// What the loading page is to be told.
    pub notice: Option<Notice>,
    /// Whether no more events are to be waited for.
    pub stop: bool,
}

/// What may decide the fate of the sidecar, as text.
pub enum SidecarEventView {
    Stdout(Seq<char>),
    Stderr(Seq<char>),
    Error(Seq<char>),
    Terminated(Option<i32>),
    /// The probe found the server on this port ready.
    Probed(u16),
    Other,
}

/// A notice by its text.
pub enum NoticeView {
    Ready(Seq<char>),
    Error(Seq<char>),
}

/// What is known of the sidecar: whether the loading page was told how it went, the
/// URL of the UI, and the end of standard error.
pub struct SidecarView {
    pub announced: bool,
    pub url: Option<Seq<char>>,
    pub tail: Seq<Seq<char>>,
}

impl View for SidecarEvent {
    type V = SidecarEventView;

    open spec fn view(&self) -> SidecarEventView {
        match *self {
            SidecarEvent::Stdout(bytes) => SidecarEventView::Stdout(shown_text(bytes@)),
            SidecarEvent::Stderr(bytes) => SidecarEventView::Stderr(shown_text(bytes@)),
            SidecarEvent::Error(error) => SidecarEventView::Error(error@),
            SidecarEvent::Terminated(code) => SidecarEventView::Terminated(code),
            SidecarEvent::Other => SidecarEventView::Other,
        }
    }
}

/// The text of an optional notice.
pub open spec fn notice_view(notice: Option<Notice>) -> Option<NoticeView> {
    match notice {
        Some(Notice::Ready(url)) => Some(NoticeView::Ready(url@)),
        Some(Notice::Error(message)) => Some(NoticeView::Error(message@)),
        None => None,
    }
}

/// `tail` with one more text, without its first where it would be too long.
pub open spec fn tail_push(tail: Seq<Seq<char>>, text: Seq<char>) -> Seq<Seq<char>> {
    let longer = tail.push(text);
    if longer.len() > TAIL_LIMIT {
        longer.skip(1)
    } else {
        longer
    }
}

/// An exit code as it is shown: `Some(1)`, or `None`.
pub open spec fn code_text(code: Option<i32>) -> Seq<char> {
    match code {
        Some(code) => "Some("@ + signed_text(code as int) + ")"@,
        None => "None"@,
    }
}

/// What is said of a sidecar that ended before it was ready.
pub open spec fn exit_text(code: Option<i32>, tail: Seq<Seq<char>>) -> Seq<char> {
    let head = "harness sidecar exited before starting (code="@ + code_text(code) + ")"@;
    let rest = trimmed(tail.flatten());
    if rest.len() == 0 {
        head
    } else {
        head + ": "@ + rest
    }
}

/// The sidecar is announced as ready at `url`, unless its fate was announced before.
pub open spec fn announce(state: SidecarView, url: Seq<char>) -> (SidecarView, Option<NoticeView>) {
    if state.announced {
        (state, None)
    } else {
        (SidecarView { announced: true, url: Some(url), ..state }, Some(NoticeView::Ready(url)))
    }
}

/// The sidecar is announced as failed, unless its fate was announced before.
pub open spec fn announce_failure(state: SidecarView, message: Seq<char>) -> (SidecarView, Option<NoticeView>) {
    if state.announced {
        (state, None)
    } else {
        (SidecarView { announced: true, ..state }, Some(NoticeView::Error(message)))
    }
}

/// What is known after `event`, and what the loading page is told.
pub open spec fn sidecar_next(state: SidecarView, event: SidecarEventView) -> (SidecarView, Option<NoticeView>) {
    match event {
        SidecarEventView::Stdout(text) => match announced_url(text) {
            Some(url) => announce(state, url),
            None => (state, None),
        },
        SidecarEventView::Stderr(text) => {
            (SidecarView { tail: tail_push(state.tail, text), ..state }, None)
        },
        SidecarEventView::Error(error) => announce_failure(state, "harness sidecar error: "@ + error),
        SidecarEventView::Terminated(code) => announce_failure(state, exit_text(code, state.tail)),
        SidecarEventView::Probed(port) => announce(state, loopback_url_text(port)),
        SidecarEventView::Other => (state, None),
    }
}

/// What is known of the sidecar, put together.
pub open spec fn sidecar_view<C>(state: SidecarState<C>, announced: bool, tail: Seq<Seq<char>>) -> SidecarView {
    SidecarView { announced, url: opt_text(state.url), tail }
}

/// An exit code as it is shown.
fn code_message(code: Option<i32>) -> (res: String)
    ensures
        res@ == code_text(code),
{
    match code {
        Some(code) => {
            let mut out = concat("Some(", signed_decimal(code).as_str());
            out.append(")");
            out
        },
        None => "None".to_string(),
    }
}

/// The texts of `list`, one behind the other.
fn join(list: &Vec<String>) -> (res: String)
    ensures
        res@ == texts(list@).flatten(),
{
    let mut out = String::new();
    let ghost all = texts(list@);
    let mut i: usize = 0;
    assert(all.take(0).flatten() == Seq::<char>::empty());
    while i < list.len()
        invariant
            i <= list@.len(),
            all == texts(list@),
            all.len() == list@.len(),
            out@ == all.take(i as int).flatten(),
        decreases list@.len() - i,
    {
        out.append(list[i].as_str());
        proof {
            assert(all.take(i + 1) == all.take(i as int).push(all[i as int]));
            all.take(i as int).lemma_flatten_push(all[i as int]);
        }
        i = i + 1;
    }
    assert(all.take(i as int) == all);
    out
}

/// What is told of a sidecar that ended before it was ready, given the texts of
/// standard error that were kept.
pub fn exit_message(code: Option<i32>, tail: &Vec<String>) -> (res: String)
    ensures
        res@ == exit_text(code, texts(tail@)),
{
    let mut head = concat("harness sidecar exited before starting (code=", code_message(code).as_str());
    head.append(")");
    let joined = join(tail);
    let rest = trim(joined.as_str());
    if !rest.is_empty() {
        head.append(": ");
        head.append(rest);
    }
    head
}

/// What follows from a text on standard output, whatever was kept of standard error.
pub fn on_stdout<C>(state: &mut SidecarState<C>, announced: &mut bool, text: &str) -> (res: Option<Notice>)
    ensures
        final(state).child == old(state).child,
        forall|tail: Seq<Seq<char>>| #[trigger]
            sidecar_next(sidecar_view(*old(state), *old(announced), tail), SidecarEventView::Stdout(text@)) == (
                sidecar_view(*final(state), *final(announced), tail),
                notice_view(res),
            ),
{
    match parse_ready_url(text) {
        Some(url) => match announce_ready(state, announced, url) {
            Some(url) => Some(Notice::Ready(url)),
            None => None,
        },
        None => None,
    }
}

/// What follows from the probe finding the server on `port` ready, whatever was
/// kept of standard error.
pub fn on_probed<C>(state: &mut SidecarState<C>, announced: &mut bool, port: u16) -> (res: Option<Notice>)
    ensures
        final(state).child == old(state).child,
        forall|tail: Seq<Seq<char>>| #[trigger]
            sidecar_next(sidecar_view(*old(state), *old(announced), tail), SidecarEventView::Probed(port)) == (
                sidecar_view(*final(state), *final(announced), tail),
                notice_view(res),
            ),
{
    match announce_ready(state, announced, loopback_url(port)) {
        Some(url) => Some(Notice::Ready(url)),
        None => None,
    }
}

/// The end of standard error, kept only to enrich the message where the sidecar
/// ends before it was ever ready.
pub struct Monitor {
    stderr_tail: Vec<String>,
}

impl View for Monitor {
    type V = Seq<Seq<char>>;

    closed spec fn view(&self) -> Seq<Seq<char>> {
        texts(self.stderr_tail@)
    }
}

impl Monitor {
    /// Nothing was printed yet.
    pub fn new() -> (res: Monitor)
        ensures
            res@ == Seq::<Seq<char>>::empty(),
    {
        Monitor { stderr_tail: Vec::new() }
    }

    /// Keep one more text of standard error.
    pub fn keep(&mut self, text: String)
        ensures
            final(self)@ == tail_push(old(self)@, text@),
    {
        let ghost before = self@;
        self.stderr_tail.push(text);
        assert(self@ == before.push(text@));
        if self.stderr_tail.len() > TAIL_LIMIT {
            let ghost longer = self.stderr_tail@;
            self.stderr_tail.remove(0);
            assert(self@ == texts(longer).skip(1));
        }
    }

    /// What follows from an event of the harness process.
    pub fn react<C>(&mut self, state: &mut SidecarState<C>, announced: &mut bool, event: SidecarEvent) -> (res: Reaction)
        ensures
            final(state).child == old(state).child,
            (sidecar_view(*final(state), *final(announced), final(self)@), notice_view(res.notice)) == sidecar_next(
                sidecar_view(*old(state), *old(announced), old(self)@),
                event@,
            ),
            res.stop == (event is Terminated),
    {
        match event {
            SidecarEvent::Stdout(bytes) => {
                let text = utf8_text_lossy(bytes.as_slice());
                Reaction { notice: on_stdout(state, announced, text.as_str()), stop: false }
            },
            SidecarEvent::Stderr(bytes) => {
                self.keep(utf8_text_lossy(bytes.as_slice()));
                Reaction { notice: None, stop: false }
            },
            SidecarEvent::Error(error) => {
                if *announced {
                    return Reaction { notice: None, stop: false };
                }
                *announced = true;
                let message = concat("harness sidecar error: ", error.as_str());
                Reaction { notice: Some(Notice::Error(message)), stop: false }
            },
            SidecarEvent::Terminated(code) => {
                if *announced {
                    return Reaction { notice: None, stop: true };
                }
                *announced = true;
                let message = exit_message(code, &self.stderr_tail);
                Reaction { notice: Some(Notice::Error(message)), stop: true }
            },
            SidecarEvent::Other => Reaction { notice: None, stop: false },
        }
    }
}

} // verus!
