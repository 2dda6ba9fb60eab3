//! Bringing the harness up: what to do next, from the manifest to a running
//! process.
//!
//! [`Launch`] is driven by its caller: its variants say what is to be done, and
//! `advance` takes how that went.

use crate::decimal::{
    decimal, decimal_text, is_digit, is_number, law_decimal_round_trip, law_decimal_text_digits, law_no_leading_zero,
    unsigned_value,
};
use crate::http::loopback_host_text;
use crate::manifest::{baked_manifest, ManifestView, RuntimeManifest};
use crate::paths::{buf_components, buf_text, entry_at, node_app_entry_text, path_components};
use crate::text::concat;
use std::path::{Path, PathBuf};
use vstd::prelude::*;

verus! {

/// A launch, by what its caller is to do next.
pub enum Launch {
    /// The baked-in manifest is to be parsed.
    ParsingManifest,
    /// The runtime of this manifest is to be installed.
    Installing(RuntimeManifest),
    /// A loopback port is to be reserved, for the runtime in this directory.
    ReservingPort(PathBuf),
    /// The bundled Node is to be located, to run that runtime on that port.
    LocatingNode(PathBuf, u16),
    /// The process is to be started.
    Spawning(PathBuf, u16),
    /// The process on this port runs.
    Running(u16),
    /// The loading page is to be told this error.
    Failed(String),
}

/// What the caller of a launch reports.
pub enum LaunchEvent {
    /// What parsing the manifest came to.
    Parsed(Result<RuntimeManifest, String>),
    /// What installing the runtime came to: its directory or an error.
    Installed(Result<PathBuf, String>),
    /// Installing the runtime panicked.
    Panicked(String),
    /// What reserving a port came to.
    Reserved(Result<u16, String>),
    /// What locating Node came to.
    Located(Result<(), String>),
    /// What starting the process came to.
    Spawned(Result<(), String>),
}

/// A launch by its paths and texts.
pub enum LaunchView {
    ParsingManifest,
    Installing(ManifestView),
    ReservingPort(Seq<Seq<u8>>),
    LocatingNode(Seq<Seq<u8>>, u16),
    Spawning(Seq<Seq<u8>>, u16),
    Running(u16),
    Failed(Seq<char>),
}

/// A report by its paths and texts.
pub enum LaunchEventView {
    Parsed(Result<ManifestView, Seq<char>>),
    Installed(Result<Seq<Seq<u8>>, Seq<char>>),
    Panicked(Seq<char>),
    Reserved(Result<u16, Seq<char>>),
    Located(Result<(), Seq<char>>),
    Spawned(Result<(), Seq<char>>),
}

impl View for Launch {
    type V = LaunchView;

    open spec fn view(&self) -> LaunchView {
        match *self {
            Launch::ParsingManifest => LaunchView::ParsingManifest,
            Launch::Installing(manifest) => LaunchView::Installing(manifest@),
            Launch::ReservingPort(runtime) => LaunchView::ReservingPort(buf_components(runtime)),
            Launch::LocatingNode(runtime, port) => LaunchView::LocatingNode(buf_components(runtime), port),
            Launch::Spawning(runtime, port) => LaunchView::Spawning(buf_components(runtime), port),
            Launch::Running(port) => LaunchView::Running(port),
            Launch::Failed(message) => LaunchView::Failed(message@),
        }
    }
}

impl View for LaunchEvent {
    type V = LaunchEventView;

    open spec fn view(&self) -> LaunchEventView {
        match *self {
            LaunchEvent::Parsed(Ok(manifest)) => LaunchEventView::Parsed(Ok(manifest@)),
            LaunchEvent::Parsed(Err(error)) => LaunchEventView::Parsed(Err(error@)),
            LaunchEvent::Installed(Ok(runtime)) => LaunchEventView::Installed(Ok(buf_components(runtime))),
            LaunchEvent::Installed(Err(error)) => LaunchEventView::Installed(Err(error@)),
            LaunchEvent::Panicked(error) => LaunchEventView::Panicked(error@),
            LaunchEvent::Reserved(Ok(port)) => LaunchEventView::Reserved(Ok(port)),
            LaunchEvent::Reserved(Err(error)) => LaunchEventView::Reserved(Err(error@)),
            LaunchEvent::Located(Ok(_)) => LaunchEventView::Located(Ok(())),
            LaunchEvent::Located(Err(error)) => LaunchEventView::Located(Err(error@)),
            LaunchEvent::Spawned(Ok(_)) => LaunchEventView::Spawned(Ok(())),
            LaunchEvent::Spawned(Err(error)) => LaunchEventView::Spawned(Err(error@)),
        }
    }
}

/// The launch failed, and this is why.
pub open spec fn launch_failed(context: &str, error: Seq<char>) -> LaunchView {
    LaunchView::Failed(context@ + error)
}

/// What becomes of a launch after `event`. A report that does not answer what was
/// to be done changes nothing.
pub open spec fn launch_next(state: LaunchView, event: LaunchEventView) -> LaunchView {
    match (state, event) {
        (LaunchView::ParsingManifest, LaunchEventView::Parsed(Ok(manifest))) => LaunchView::Installing(manifest),
        (LaunchView::ParsingManifest, LaunchEventView::Parsed(Err(e))) => launch_failed("bad runtime manifest: ", e),
        (LaunchView::Installing(_), LaunchEventView::Installed(Ok(runtime))) => LaunchView::ReservingPort(runtime),
        (LaunchView::Installing(_), LaunchEventView::Installed(Err(e))) => LaunchView::Failed(e),
        (LaunchView::Installing(_), LaunchEventView::Panicked(e)) => launch_failed("runtime bootstrap panicked: ", e),
        (LaunchView::ReservingPort(runtime), LaunchEventView::Reserved(Ok(port))) => {
            LaunchView::LocatingNode(runtime, port)
        },
        (LaunchView::ReservingPort(_), LaunchEventView::Reserved(Err(e))) => {
            launch_failed("failed to reserve a loopback port: ", e)
        },
        (LaunchView::LocatingNode(runtime, port), LaunchEventView::Located(Ok(_))) => {
            LaunchView::Spawning(runtime, port)
        },
        (LaunchView::LocatingNode(_, _), LaunchEventView::Located(Err(e))) => {
            launch_failed("failed to locate node sidecar: ", e)
        },
        (LaunchView::Spawning(_, port), LaunchEventView::Spawned(Ok(_))) => LaunchView::Running(port),
        (LaunchView::Spawning(_, _), LaunchEventView::Spawned(Err(e))) => {
            launch_failed("failed to spawn sidecar: ", e)
        },
        _ => state,
    }
}

impl Launch {
    /// A launch that has not started.
    pub fn start() -> (res: Launch)
        ensures
            res@ == LaunchView::ParsingManifest,
    {
        Launch::ParsingManifest
    }

    /// What becomes of the launch after `event`.
    pub fn advance(self, event: LaunchEvent) -> (res: Launch)
        ensures
            res@ == launch_next(self@, event@),
    {
        match (self, event) {
            (Launch::ParsingManifest, LaunchEvent::Parsed(parsed)) => match baked_manifest(parsed) {
                Ok(manifest) => Launch::Installing(manifest),
                Err(message) => Launch::Failed(message),
            },
            (Launch::Installing(_), LaunchEvent::Installed(Ok(runtime))) => Launch::ReservingPort(runtime),
            (Launch::Installing(_), LaunchEvent::Installed(Err(error))) => Launch::Failed(error),
            (Launch::Installing(_), LaunchEvent::Panicked(error)) => {
                Launch::Failed(concat("runtime bootstrap panicked: ", error.as_str()))
            },
            (Launch::ReservingPort(runtime), LaunchEvent::Reserved(Ok(port))) => {
                Launch::LocatingNode(runtime, port)
            },
            (Launch::ReservingPort(_), LaunchEvent::Reserved(Err(error))) => {
                Launch::Failed(concat("failed to reserve a loopback port: ", error.as_str()))
            },
            (Launch::LocatingNode(runtime, port), LaunchEvent::Located(Ok(_))) => {
                Launch::Spawning(runtime, port)
            },
            (Launch::LocatingNode(_, _), LaunchEvent::Located(Err(error))) => {
                Launch::Failed(concat("failed to locate node sidecar: ", error.as_str()))
            },
            (Launch::Spawning(_, port), LaunchEvent::Spawned(Ok(_))) => Launch::Running(port),
            (Launch::Spawning(_, _), LaunchEvent::Spawned(Err(error))) => {
                Launch::Failed(concat("failed to spawn sidecar: ", error.as_str()))
            },
            (state, _) => state,
        }
    }
}

/// The arguments for Node: the entry point, then those of the harness.
pub open spec fn args_view(entry: Seq<char>, port: u16) -> Seq<Seq<char>> {
    seq![
        entry,
        "--profile"@,
        "web"@,
        "--host"@,
        "127.0.0.1"@,
        "--port"@,
        decimal_text(port as nat),
    ]
}

/// The arguments for Node, given the entry point as text.
pub fn sidecar_args(entry: String, port: u16) -> (res: Vec<String>)
    ensures
        crate::sidecar::texts(res@) == args_view(entry@, port),
        res@.len() == 7,
        res@[0]@ == entry@,
        unsigned_value(res@[6]@) == Some(port as nat),
{
    let mut args: Vec<String> = Vec::new();
    args.push(entry);
    args.push("--profile".to_string());
    args.push("web".to_string());
    args.push("--host".to_string());
    args.push("127.0.0.1".to_string());
    args.push("--port".to_string());
    args.push(decimal(port as u64));
    assert(crate::sidecar::texts(args@) =~= args_view(entry@, port));
    proof {
        law_arguments_name_the_port(entry@, port);
        assert(crate::sidecar::texts(args@)[0] == args@[0]@);
        assert(crate::sidecar::texts(args@)[6] == args@[6]@);
    }
    args
}

/// The arguments for Node to run the harness of a runtime directory on a port.
pub fn launch_args(runtime: &Path, port: u16) -> (res: Vec<String>)
    ensures
        exists|entry: PathBuf| #[trigger]
            buf_components(entry) == entry_at(path_components(runtime)) && crate::sidecar::texts(res@) == args_view(
                buf_text(entry),
                port,
            ),
        res@.len() == 7,
        unsigned_value(res@[6]@) == Some(port as nat),
{
    sidecar_args(node_app_entry_text(runtime), port)
}

/// The state of a launch after `events`.
pub open spec fn launch_after(events: Seq<LaunchEventView>) -> LaunchView
    decreases events.len(),
{
    if events.len() == 0 {
        LaunchView::ParsingManifest
    } else {
        launch_next(launch_after(events.drop_last()), events.last())
    }
}

/// The process is started only for a runtime that was installed and on a port that
/// was reserved.
pub proof fn law_started_only_when_installed(events: Seq<LaunchEventView>, runtime: Seq<Seq<u8>>, port: u16)
    requires
        launch_after(events) == LaunchView::Spawning(runtime, port),
    ensures
        events.contains(LaunchEventView::Installed(Ok(runtime))),
        events.contains(LaunchEventView::Reserved(Ok(port))),
{
    lemma_launch_history(events);
}

proof fn lemma_launch_history(events: Seq<LaunchEventView>)
    ensures
        match launch_after(events) {
            LaunchView::ReservingPort(runtime) => events.contains(LaunchEventView::Installed(Ok(runtime))),
            LaunchView::LocatingNode(runtime, port) | LaunchView::Spawning(runtime, port) => {
                &&& events.contains(LaunchEventView::Installed(Ok(runtime)))
                &&& events.contains(LaunchEventView::Reserved(Ok(port)))
            },
            _ => true,
        },
    decreases events.len(),
{
    if events.len() > 0 {
        let prior = events.drop_last();
        lemma_launch_history(prior);
        assert(events[events.len() - 1] == events.last());
        assert forall|e: LaunchEventView| prior.contains(e) implies events.contains(e) by {
            let i = choose|i: int| 0 <= i < prior.len() && prior[i] == e;
            assert(events[i] == e);
        }
    }
}

/// A launch that failed or runs stays as it is.
pub proof fn law_launch_is_final(state: LaunchView, event: LaunchEventView)
    requires
        state is Failed || state is Running,
    ensures
        launch_next(state, event) == state,
{
}

/// The harness is started as the web profile on the loopback interface, on the port
/// that was reserved: what follows `--port` reads back as that port. There are no other
/// arguments, and the first is the entry point as it was given.
pub proof fn law_arguments_name_the_port(entry: Seq<char>, port: u16)
    ensures
        args_view(entry, port).len() == 7,
        args_view(entry, port)[0] == entry,
        args_view(entry, port)[1] == "--profile"@ && args_view(entry, port)[2] == "web"@,
        args_view(entry, port)[3] == "--host"@ && args_view(entry, port)[4] == "127.0.0.1"@,
        args_view(entry, port)[5] == "--port"@,
        unsigned_value(args_view(entry, port)[6]) == Some(port as nat),
        is_number(args_view(entry, port)[6]),
        args_view(entry, port)[6][0] == '0' <==> port == 0,
        loopback_host_text(port) == "127.0.0.1:"@ + args_view(entry, port)[6],
{
    let digits = decimal_text(port as nat);
    law_decimal_round_trip(port as nat);
    law_decimal_text_digits(port as nat);
    law_no_leading_zero(port as nat);
    assert forall|i: int| 0 <= i < digits.len() implies '0' <= #[trigger] digits[i] && digits[i] <= '9' by {
        assert(is_digit(digits[i]));
    }
}

/// Different ports or different entry points give different arguments.
pub proof fn law_arguments_differ(entry: Seq<char>, port: u16, other_entry: Seq<char>, other_port: u16)
    requires
        args_view(entry, port) == args_view(other_entry, other_port),
    ensures
        entry == other_entry,
        port == other_port,
{
    law_arguments_name_the_port(entry, port);
    law_arguments_name_the_port(other_entry, other_port);
}

/// A launch in which everything goes well installs the manifest that was parsed, and
/// runs the runtime that was installed on the port that was reserved.
pub proof fn law_launch_goes_through(manifest: ManifestView, runtime: Seq<Seq<u8>>, port: u16)
    ensures
        launch_next(LaunchView::ParsingManifest, LaunchEventView::Parsed(Ok(manifest))) == LaunchView::Installing(manifest),
        launch_next(LaunchView::Installing(manifest), LaunchEventView::Installed(Ok(runtime)))
            == LaunchView::ReservingPort(runtime),
        launch_next(LaunchView::ReservingPort(runtime), LaunchEventView::Reserved(Ok(port)))
            == LaunchView::LocatingNode(runtime, port),
        launch_next(LaunchView::LocatingNode(runtime, port), LaunchEventView::Located(Ok(())))
            == LaunchView::Spawning(runtime, port),
        launch_next(LaunchView::Spawning(runtime, port), LaunchEventView::Spawned(Ok(()))) == LaunchView::Running(port),
{
}

/// Whatever fails ends the launch, with a text that says what failed and then the whole
/// error; an installation that failed has said so itself.
pub proof fn law_launch_failures_are_named(manifest: ManifestView, runtime: Seq<Seq<u8>>, port: u16, error: Seq<char>)
    ensures
        launch_next(LaunchView::ParsingManifest, LaunchEventView::Parsed(Err(error))) == LaunchView::Failed(
            "bad runtime manifest: "@ + error,
        ),
        launch_next(LaunchView::Installing(manifest), LaunchEventView::Installed(Err(error))) == LaunchView::Failed(error),
        launch_next(LaunchView::Installing(manifest), LaunchEventView::Panicked(error)) == LaunchView::Failed(
            "runtime bootstrap panicked: "@ + error,
        ),
        launch_next(LaunchView::ReservingPort(runtime), LaunchEventView::Reserved(Err(error))) == LaunchView::Failed(
            "failed to reserve a loopback port: "@ + error,
        ),
        launch_next(LaunchView::LocatingNode(runtime, port), LaunchEventView::Located(Err(error))) == LaunchView::Failed(
            "failed to locate node sidecar: "@ + error,
        ),
        launch_next(LaunchView::Spawning(runtime, port), LaunchEventView::Spawned(Err(error))) == LaunchView::Failed(
            "failed to spawn sidecar: "@ + error,
        ),
{
}

/// A report that does not answer what was to be done changes nothing.
pub proof fn law_launch_takes_answers_only(state: LaunchView, event: LaunchEventView)
    requires
        match event {
            LaunchEventView::Parsed(_) => !(state is ParsingManifest),
            LaunchEventView::Installed(_) | LaunchEventView::Panicked(_) => !(state is Installing),
            LaunchEventView::Reserved(_) => !(state is ReservingPort),
            LaunchEventView::Located(_) => !(state is LocatingNode),
            LaunchEventView::Spawned(_) => !(state is Spawning),
        },
    ensures
        launch_next(state, event) == state,
{
}

/// A launch and what is reported of it are known by their paths and texts as they stand.
pub proof fn law_launch_is_taken_whole(manifest: RuntimeManifest, runtime: PathBuf, port: u16, text: String)
    ensures
        Launch::ParsingManifest@ == LaunchView::ParsingManifest,
        Launch::Installing(manifest)@ == LaunchView::Installing(manifest@),
        Launch::ReservingPort(runtime)@ == LaunchView::ReservingPort(buf_components(runtime)),
        Launch::LocatingNode(runtime, port)@ == LaunchView::LocatingNode(buf_components(runtime), port),
        Launch::Spawning(runtime, port)@ == LaunchView::Spawning(buf_components(runtime), port),
        Launch::Running(port)@ == LaunchView::Running(port),
        Launch::Failed(text)@ == LaunchView::Failed(text@),
        LaunchEvent::Parsed(Ok(manifest))@ == LaunchEventView::Parsed(Ok(manifest@)),
        LaunchEvent::Parsed(Err(text))@ == LaunchEventView::Parsed(Err(text@)),
        LaunchEvent::Installed(Ok(runtime))@ == LaunchEventView::Installed(Ok(buf_components(runtime))),
        LaunchEvent::Installed(Err(text))@ == LaunchEventView::Installed(Err(text@)),
        LaunchEvent::Panicked(text)@ == LaunchEventView::Panicked(text@),
        LaunchEvent::Reserved(Ok(port))@ == LaunchEventView::Reserved(Ok(port)),
        LaunchEvent::Reserved(Err(text))@ == LaunchEventView::Reserved(Err(text@)),
        LaunchEvent::Located(Ok(()))@ == LaunchEventView::Located(Ok(())),
        LaunchEvent::Located(Err(text))@ == LaunchEventView::Located(Err(text@)),
        LaunchEvent::Spawned(Ok(()))@ == LaunchEventView::Spawned(Ok(())),
        LaunchEvent::Spawned(Err(text))@ == LaunchEventView::Spawned(Err(text@)),
{
}

} // verus!
