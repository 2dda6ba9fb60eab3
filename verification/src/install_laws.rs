//! What holds of every installation, whatever goes wrong on the way.
//!
//! The disk is modelled by its files: a map from paths to contents. What each
//! action may do to the disk, and what may be reported of it, is [`performs`].

use crate::digest::checksum;
use crate::install::{
    attempted, install_action, install_next, install_start, phase_next, ActionView, EventView, InstallAction,
    InstallEvent, InstallerView, Phase, PhaseView,
};
use crate::manifest::{
    checksum_matches, law_marker_decides, law_pinned_but_for_case, marks, mismatch_text, up_to_date, ManifestView,
};
use crate::paths::{
    archive_at, buf_components, entry_at, law_places, marker_at, node_app_at, runtime_at, staging_at,
};
use crate::progress::{ready_view, ProgressView, RuntimeProgress};
use crate::text::trimmed;
use crate::text_laws::same_letter;
use std::path::PathBuf;
use vstd::prelude::*;
use vstd::utf8::{encode_utf8, encode_utf8_decode_utf8};

verus! {

/// The files of a disk with their contents.
pub type Disk = Map<Seq<Seq<u8>>, Seq<u8>>;

/// Whether `path` is `dir` or lies in it.
pub open spec fn under(dir: Seq<Seq<u8>>, path: Seq<Seq<u8>>) -> bool {
    dir.is_prefix_of(path)
}

/// Whether two disks hold the same at `path`.
pub open spec fn same_at(a: Disk, b: Disk, path: Seq<Seq<u8>>) -> bool {
    a.contains_key(path) == b.contains_key(path) && (a.contains_key(path) ==> a[path] == b[path])
}

/// Whether two disks hold the same outside `dir`.
pub open spec fn same_outside(a: Disk, b: Disk, dir: Seq<Seq<u8>>) -> bool {
    forall|path: Seq<Seq<u8>>| !under(dir, path) ==> #[trigger] same_at(a, b, path)
}

/// Whether two disks hold the same everywhere but at `path`.
pub open spec fn same_elsewhere(a: Disk, b: Disk, path: Seq<Seq<u8>>) -> bool {
    forall|other: Seq<Seq<u8>>| other != path ==> #[trigger] same_at(a, b, other)
}

/// Whether there is no file at or in `dir`.
pub open spec fn nothing_under(disk: Disk, dir: Seq<Seq<u8>>) -> bool {
    forall|path: Seq<Seq<u8>>| #[trigger] under(dir, path) ==> !disk.contains_key(path)
}

/// Whether `b` holds at and in `to` exactly what `a` holds at and in `from`.
pub open spec fn same_tree(a: Disk, from: Seq<Seq<u8>>, b: Disk, to: Seq<Seq<u8>>) -> bool {
    forall|rest: Seq<Seq<u8>>|
        {
            &&& b.contains_key(#[trigger] (to + rest)) == a.contains_key(from + rest)
            &&& a.contains_key(from + rest) ==> b[to + rest] == a[from + rest]
        }
}

/// Whether `after` is `disk` with what was in `from` now in `to`.
pub open spec fn moved(disk: Disk, after: Disk, from: Seq<Seq<u8>>, to: Seq<Seq<u8>>) -> bool {
    &&& same_tree(disk, from, after, to)
    &&& nothing_under(after, from)
    &&& forall|path: Seq<Seq<u8>>|
        !under(from, path) && !under(to, path) ==> #[trigger] same_at(disk, after, path)
}

/// Whether doing `action` on `disk` may be reported as `event` and leave `after`.
/// A failure may leave behind part of the work.
pub open spec fn performs(disk: Disk, action: ActionView, event: EventView, after: Disk) -> bool {
    match action {
        ActionView::CheckFile(path) => after == disk && event == EventView::Present(disk.contains_key(path)),
        ActionView::ReadText(path) => {
            &&& after == disk
            &&& event matches EventView::Text(read)
            &&& read matches Some(text) ==> disk.contains_key(path) && disk[path] == encode_utf8(text)
        },
        ActionView::CreateDirs(_) => after == disk && attempted(event),
        ActionView::RemoveTree(path) => {
            &&& attempted(event)
            &&& same_outside(disk, after, path)
            &&& forall|kept: Seq<Seq<u8>>| #[trigger] after.contains_key(kept) ==> disk.contains_key(kept)
            &&& event is Done ==> nothing_under(after, path)
        },
        ActionView::Report(_) => after == disk && event is Done,
        ActionView::Download { dest, .. } => {
            &&& attempted(event)
            &&& same_elsewhere(disk, after, dest)
            &&& event is Done ==> after.contains_key(dest)
        },
        ActionView::Hash(path) => {
            &&& after == disk
            &&& match event {
                EventView::Digest(digest) => disk.contains_key(path) && digest == checksum(disk[path]),
                EventView::Failed(_) => true,
                _ => false,
            }
        },
        ActionView::Extract { dest, .. } => attempted(event) && same_outside(disk, after, dest),
        ActionView::CheckExists(_) => after == disk && event is Present,
        ActionView::Rename { from, to } => match event {
            EventView::Done => moved(disk, after, from, to),
            EventView::Failed(_) => after == disk,
            _ => false,
        },
        ActionView::WriteText { path, text } => {
            &&& attempted(event)
            &&& same_elsewhere(disk, after, path)
            &&& event is Done ==> after.contains_key(path) && after[path] == encode_utf8(text)
        },
        ActionView::Finish(_) => false,
    }
}

/// One thing that was done: what was reported, and what it left on disk.
pub struct Deed {
    pub event: EventView,
    pub after: Disk,
}

/// The state of an installation after `deeds`.
pub open spec fn state_after(start: InstallerView, deeds: Seq<Deed>) -> InstallerView
    decreases deeds.len(),
{
    if deeds.len() == 0 {
        start
    } else {
        install_next(state_after(start, deeds.drop_last()), deeds.last().event)
    }
}

/// The disk after `deeds`.
pub open spec fn disk_after(disk: Disk, deeds: Seq<Deed>) -> Disk {
    if deeds.len() == 0 {
        disk
    } else {
        deeds.last().after
    }
}

/// Whether each of `deeds` does what was to be done at that point.
pub open spec fn carried_out(start: InstallerView, disk: Disk, deeds: Seq<Deed>) -> bool
    decreases deeds.len(),
{
    deeds.len() == 0 || {
        let prior = deeds.drop_last();
        &&& carried_out(start, disk, prior)
        &&& performs(
            disk_after(disk, prior),
            install_action(state_after(start, prior)),
            deeds.last().event,
            deeds.last().after,
        )
    }
}

/// Whether the harness is in place and the marker holds exactly `version`.
pub open spec fn installed(disk: Disk, runtime: Seq<Seq<u8>>, version: Seq<char>) -> bool {
    &&& disk.contains_key(entry_at(runtime))
    &&& disk.contains_key(marker_at(runtime))
    &&& disk[marker_at(runtime)] == encode_utf8(version)
}

/// Whether the harness is in place and the marker stands for `version`.
pub open spec fn recorded(disk: Disk, runtime: Seq<Seq<u8>>, version: Seq<char>) -> bool {
    &&& disk.contains_key(entry_at(runtime))
    &&& disk.contains_key(marker_at(runtime))
    &&& exists|text: Seq<char>| disk[marker_at(runtime)] == #[trigger] encode_utf8(text) && marks(text, version)
}

/// Whether an error comes from putting the new runtime in place, the only part of
/// an installation that touches the old one.
pub open spec fn from_swapping(message: Seq<char>) -> bool {
    ||| "remove old runtime: "@.is_prefix_of(message)
    ||| "install runtime: "@.is_prefix_of(message)
    ||| "write marker: "@.is_prefix_of(message)
}

/// Whether the archive on disk is the one that the manifest pins.
pub open spec fn archive_is_pinned(disk: Disk, state: InstallerView) -> bool {
    &&& disk.contains_key(archive_at(state.runtime))
    &&& checksum_matches(checksum(disk[archive_at(state.runtime)]), state.manifest)
}

spec fn holds(start: Disk, disk: Disk, state: InstallerView) -> bool {
    let runtime = state.runtime;
    let staging = staging_at(runtime);
    let version = state.manifest.version;
    match state.phase {
        PhaseView::CheckingEntry => disk == start,
        PhaseView::ReadingMarker => disk == start && disk.contains_key(entry_at(runtime)),
        PhaseView::ReportingReused => disk == start && recorded(disk, runtime, version),
        PhaseView::CreatingRuntime | PhaseView::ClearingStaging => disk == start,
        PhaseView::CreatingStaging | PhaseView::ReportingDownload | PhaseView::Downloading | PhaseView::Hashing | PhaseView::CheckingArchive
        | PhaseView::Discarding | PhaseView::Rejecting(_) => same_outside(start, disk, staging),
        PhaseView::ReportingExtract | PhaseView::Extracting => {
            same_outside(start, disk, staging) && archive_is_pinned(disk, state)
        },
        PhaseView::CheckingOld | PhaseView::RemovingOld => {
            same_outside(start, disk, staging) && disk.contains_key(entry_at(staging))
        },
        PhaseView::Renaming => disk.contains_key(entry_at(staging)),
        PhaseView::WritingMarker => disk.contains_key(entry_at(runtime)),
        PhaseView::Cleaning | PhaseView::ReportingReady => installed(disk, runtime, version),
        PhaseView::Finished(Ok(_)) => {
            installed(disk, runtime, version) || (disk == start && recorded(disk, runtime, version))
        },
        PhaseView::Finished(Err(message)) => same_outside(start, disk, staging) || from_swapping(message),
    }
}

proof fn lemma_names_differ()
    ensures
        encode_utf8(".install"@) != encode_utf8("node-app"@),
        encode_utf8(".install"@) != encode_utf8(".installed"@),
        encode_utf8("node-app"@) != encode_utf8(".installed"@),
{
    reveal_strlit(".install");
    reveal_strlit(".installed");
    reveal_strlit("node-app");
    encode_utf8_decode_utf8(".install"@);
    encode_utf8_decode_utf8(".installed"@);
    encode_utf8_decode_utf8("node-app"@);
    assert(".install"@.len() == 8 && ".installed"@.len() == 10);
    assert(".install"@[0] != "node-app"@[0]);
    assert("node-app"@.len() == 8);
}

/// What lies under one entry of a directory does not lie under another.
proof fn lemma_siblings(dir: Seq<Seq<u8>>, a: Seq<u8>, b: Seq<u8>, path: Seq<Seq<u8>>)
    requires
        a != b,
        under(dir.push(a), path),
    ensures
        !under(dir.push(b), path),
{
    assert(path[dir.len() as int] == dir.push(a)[dir.len() as int]);
    if under(dir.push(b), path) {
        assert(path[dir.len() as int] == dir.push(b)[dir.len() as int]);
    }
}

/// How the places in the runtime directory lie to each other.
proof fn lemma_layout(runtime: Seq<Seq<u8>>)
    ensures
        under(staging_at(runtime), archive_at(runtime)),
        under(staging_at(runtime), entry_at(staging_at(runtime))),
        !under(staging_at(runtime), entry_at(runtime)),
        !under(staging_at(runtime), marker_at(runtime)),
        !under(node_app_at(runtime), entry_at(staging_at(runtime))),
        !under(marker_at(runtime), entry_at(runtime)),
{
    lemma_names_differ();
    let staging = staging_at(runtime);
    assert(staging.is_prefix_of(archive_at(runtime)));
    assert(staging.is_prefix_of(entry_at(staging)));
    assert(node_app_at(runtime).is_prefix_of(entry_at(runtime)));
    assert(marker_at(runtime).is_prefix_of(marker_at(runtime)));
    lemma_siblings(runtime, encode_utf8("node-app"@), encode_utf8(".install"@), entry_at(runtime));
    lemma_siblings(runtime, encode_utf8(".installed"@), encode_utf8(".install"@), marker_at(runtime));
    lemma_siblings(runtime, encode_utf8(".install"@), encode_utf8("node-app"@), entry_at(staging));
    lemma_siblings(runtime, encode_utf8("node-app"@), encode_utf8(".installed"@), entry_at(runtime));
}

proof fn lemma_same_outside_trans(a: Disk, b: Disk, c: Disk, dir: Seq<Seq<u8>>, inner: Seq<Seq<u8>>)
    requires
        same_outside(a, b, dir),
        same_outside(b, c, inner),
        under(dir, inner),
    ensures
        same_outside(a, c, dir),
{
    assert forall|path: Seq<Seq<u8>>| !under(dir, path) implies #[trigger] same_at(a, c, path) by {
        if under(inner, path) {
            assert(dir =~= path.subrange(0, dir.len() as int));
        }
        assert(same_at(a, b, path));
        assert(same_at(b, c, path));
    }
}

proof fn lemma_elsewhere(a: Disk, b: Disk, path: Seq<Seq<u8>>)
    requires
        same_elsewhere(a, b, path),
    ensures
        same_outside(a, b, path),
{
    assert forall|other: Seq<Seq<u8>>| !under(path, other) implies #[trigger] same_at(a, b, other) by {
        assert(path =~= path.subrange(0, path.len() as int));
        assert(other != path);
    }
}

proof fn lemma_step(start: Disk, disk: Disk, state: InstallerView, event: EventView, after: Disk)
    requires
        holds(start, disk, state),
        performs(disk, install_action(state), event, after),
    ensures
        holds(start, after, install_next(state, event)),
{
    let runtime = state.runtime;
    let staging = staging_at(runtime);
    lemma_layout(runtime);
    assert(under(staging, staging));
    match state.phase {
        PhaseView::CheckingEntry | PhaseView::ReadingMarker => {
            assert(same_outside(start, start, staging));
        },
        PhaseView::ClearingStaging | PhaseView::Rejecting(_) | PhaseView::Discarding | PhaseView::Extracting => {
            lemma_same_outside_trans(start, disk, after, staging, staging);
        },
        PhaseView::Downloading => {
            lemma_elsewhere(disk, after, archive_at(runtime));
            lemma_same_outside_trans(start, disk, after, staging, archive_at(runtime));
        },
        PhaseView::RemovingOld => {
            assert(same_at(disk, after, entry_at(staging)));
            match event {
                EventView::Failed(e) => {
                    assert("remove old runtime: "@.is_prefix_of("remove old runtime: "@ + e));
                },
                _ => {},
            }
        },
        PhaseView::Renaming => {
            match event {
                EventView::Failed(e) => {
                    assert("install runtime: "@.is_prefix_of("install runtime: "@ + e));
                },
                _ => {
                    let rest = entry_at(runtime).skip(node_app_at(runtime).len() as int);
                    assert(node_app_at(runtime) + rest == entry_at(runtime));
                    assert(node_app_at(staging) + rest == entry_at(staging));
                },
            }
        },
        PhaseView::WritingMarker => {
            assert(marker_at(runtime) =~= marker_at(runtime).subrange(0, marker_at(runtime).len() as int));
            assert(same_at(disk, after, entry_at(runtime)));
            match event {
                EventView::Failed(e) => {
                    assert("write marker: "@.is_prefix_of("write marker: "@ + e));
                },
                _ => {},
            }
        },
        PhaseView::Cleaning => {
            assert(same_at(disk, after, entry_at(runtime)));
            assert(same_at(disk, after, marker_at(runtime)));
        },
        _ => {},
    }
}

proof fn lemma_run(start: InstallerView, disk: Disk, deeds: Seq<Deed>)
    requires
        start.phase is CheckingEntry,
        carried_out(start, disk, deeds),
    ensures
        holds(disk, disk_after(disk, deeds), state_after(start, deeds)),
        state_after(start, deeds).runtime == start.runtime,
        state_after(start, deeds).manifest == start.manifest,
    decreases deeds.len(),
{
    if deeds.len() > 0 {
        let prior = deeds.drop_last();
        lemma_run(start, disk, prior);
        lemma_step(
            disk,
            disk_after(disk, prior),
            state_after(start, prior),
            deeds.last().event,
            deeds.last().after,
        );
    }
}

/// An installation that finishes well leaves the harness in place with a marker
/// for the version of the manifest: either it wrote that marker, or it found one
/// and left the disk as it was.
pub proof fn law_success_means_installed(app_data: Seq<Seq<u8>>, manifest: ManifestView, disk: Disk, deeds: Seq<Deed>)
    requires
        carried_out(install_start(app_data, manifest), disk, deeds),
        state_after(install_start(app_data, manifest), deeds).phase matches PhaseView::Finished(Ok(_)),
    ensures
        ({
            let end = disk_after(disk, deeds);
            let runtime = runtime_at(app_data);
            ||| installed(end, runtime, manifest.version)
            ||| end == disk && recorded(disk, runtime, manifest.version)
        }),
{
    lemma_run(install_start(app_data, manifest), disk, deeds);
}

/// An installation that fails leaves everything outside the staging directory as
/// it was, the old runtime and its marker included, unless what failed was putting
/// the new runtime in place.
pub proof fn law_failure_keeps_the_old_runtime(
    app_data: Seq<Seq<u8>>,
    manifest: ManifestView,
    disk: Disk,
    deeds: Seq<Deed>,
    message: Seq<char>,
)
    requires
        carried_out(install_start(app_data, manifest), disk, deeds),
        state_after(install_start(app_data, manifest), deeds).phase == PhaseView::Finished(Err(message)),
        !from_swapping(message),
    ensures
        same_outside(disk, disk_after(disk, deeds), staging_at(runtime_at(app_data))),
{
    lemma_run(install_start(app_data, manifest), disk, deeds);
}

/// Whether a phase comes before the new runtime is put in place.
pub open spec fn before_swap(phase: PhaseView) -> bool {
    match phase {
        PhaseView::RemovingOld | PhaseView::Renaming | PhaseView::WritingMarker | PhaseView::Cleaning
        | PhaseView::ReportingReady | PhaseView::Finished(_) => false,
        _ => true,
    }
}

/// Until the new runtime is put in place, nothing outside the staging directory
/// changes: whatever is done last in such a phase, and however it goes, the old
/// runtime and its marker are as they were.
pub proof fn law_nothing_changes_before_the_swap(
    app_data: Seq<Seq<u8>>,
    manifest: ManifestView,
    disk: Disk,
    deeds: Seq<Deed>,
    last: Deed,
)
    requires
        carried_out(install_start(app_data, manifest), disk, deeds.push(last)),
        before_swap(state_after(install_start(app_data, manifest), deeds).phase),
    ensures
        same_outside(disk, last.after, staging_at(runtime_at(app_data))),
{
    let start = install_start(app_data, manifest);
    let state = state_after(start, deeds);
    let staging = staging_at(start.runtime);
    let before = disk_after(disk, deeds);
    assert(deeds.push(last).drop_last() == deeds);
    lemma_run(start, disk, deeds);
    lemma_layout(start.runtime);
    assert(under(staging, staging));
    assert(same_outside(disk, before, staging));
    match state.phase {
        PhaseView::Downloading => {
            lemma_elsewhere(before, last.after, archive_at(start.runtime));
            lemma_same_outside_trans(disk, before, last.after, staging, archive_at(start.runtime));
        },
        PhaseView::ClearingStaging | PhaseView::Rejecting(_) | PhaseView::Extracting | PhaseView::Discarding => {
            lemma_same_outside_trans(disk, before, last.after, staging, staging);
        },
        _ => {},
    }
}

/// Whatever is unpacked is the archive that the manifest pins.
pub proof fn law_only_the_pinned_archive_is_unpacked(
    app_data: Seq<Seq<u8>>,
    manifest: ManifestView,
    disk: Disk,
    deeds: Seq<Deed>,
)
    requires
        carried_out(install_start(app_data, manifest), disk, deeds),
        install_action(state_after(install_start(app_data, manifest), deeds)) is Extract,
    ensures
        ({
            let archive = archive_at(runtime_at(app_data));
            let end = disk_after(disk, deeds);
            &&& install_action(state_after(install_start(app_data, manifest), deeds))
                == (ActionView::Extract { archive, dest: staging_at(runtime_at(app_data)) })
            &&& end.contains_key(archive)
            &&& checksum_matches(checksum(end[archive]), manifest)
        }),
{
    lemma_run(install_start(app_data, manifest), disk, deeds);
}

/// An archive with another checksum than the pinned one is not installed: the
/// staging directory is removed, the mismatch is reported with the checksum that was
/// found, and everything else stays as it was.
pub proof fn law_mismatch_is_rejected(
    app_data: Seq<Seq<u8>>,
    manifest: ManifestView,
    disk: Disk,
    deeds: Seq<Deed>,
    hashed: Deed,
    removed: Deed,
)
    requires
        carried_out(install_start(app_data, manifest), disk, deeds.push(hashed).push(removed)),
        install_action(state_after(install_start(app_data, manifest), deeds)) is Hash,
        hashed.event is Digest,
        !checksum_matches(checksum(disk_after(disk, deeds)[archive_at(runtime_at(app_data))]), manifest),
    ensures
        ({
            let start = install_start(app_data, manifest);
            let staging = staging_at(runtime_at(app_data));
            let actual = checksum(disk_after(disk, deeds)[archive_at(runtime_at(app_data))]);
            &&& install_action(state_after(start, deeds.push(hashed))) == ActionView::RemoveTree(staging)
            &&& state_after(start, deeds.push(hashed).push(removed)).phase == PhaseView::Finished(
                Err(mismatch_text(actual, manifest)),
            )
            &&& same_outside(disk, removed.after, staging)
            &&& removed.event is Done ==> nothing_under(removed.after, staging)
        }),
{
    let start = install_start(app_data, manifest);
    assert(deeds.push(hashed).push(removed).drop_last() == deeds.push(hashed));
    assert(deeds.push(hashed).drop_last() == deeds);
    assert(carried_out(start, disk, deeds.push(hashed)));
    lemma_run(start, disk, deeds);
    lemma_run(start, disk, deeds.push(hashed));
    lemma_layout(start.runtime);
    assert(under(staging_at(start.runtime), staging_at(start.runtime)));
    lemma_same_outside_trans(
        disk,
        hashed.after,
        removed.after,
        staging_at(start.runtime),
        staging_at(start.runtime),
    );
}

/// An archive without the entry point is not installed: the staging directory is
/// removed, the lack is reported, and everything else stays as it was.
pub proof fn law_incomplete_archive_is_rejected(
    app_data: Seq<Seq<u8>>,
    manifest: ManifestView,
    disk: Disk,
    deeds: Seq<Deed>,
    checked: Deed,
    removed: Deed,
)
    requires
        carried_out(install_start(app_data, manifest), disk, deeds.push(checked).push(removed)),
        state_after(install_start(app_data, manifest), deeds).phase is CheckingArchive,
        !disk_after(disk, deeds).contains_key(entry_at(staging_at(runtime_at(app_data)))),
    ensures
        ({
            let start = install_start(app_data, manifest);
            let staging = staging_at(runtime_at(app_data));
            &&& install_action(state_after(start, deeds.push(checked))) == ActionView::RemoveTree(staging)
            &&& state_after(start, deeds.push(checked).push(removed)).phase == PhaseView::Finished(
                Err("运行时压缩包缺少 lib/bin.js"@),
            )
            &&& same_outside(disk, removed.after, staging)
            &&& removed.event is Done ==> nothing_under(removed.after, staging)
        }),
{
    let start = install_start(app_data, manifest);
    assert(deeds.push(checked).push(removed).drop_last() == deeds.push(checked));
    assert(deeds.push(checked).drop_last() == deeds);
    assert(carried_out(start, disk, deeds.push(checked)));
    lemma_run(start, disk, deeds);
    lemma_run(start, disk, deeds.push(checked));
    lemma_layout(start.runtime);
    assert(under(staging_at(start.runtime), staging_at(start.runtime)));
    lemma_same_outside_trans(
        disk,
        checked.after,
        removed.after,
        staging_at(start.runtime),
        staging_at(start.runtime),
    );
}

/// Whether the marker could be read each time that it was tried.
pub open spec fn marker_readable(deeds: Seq<Deed>) -> bool {
    forall|i: int| 0 <= i < deeds.len() ==> (#[trigger] deeds[i]).event != EventView::Text(None)
}

/// What is done, in order, where the runtime is reused: two looks at the disk and one
/// report, then nothing.
pub open spec fn reuse_actions(runtime: Seq<Seq<u8>>) -> Seq<ActionView> {
    seq![
        ActionView::CheckFile(entry_at(runtime)),
        ActionView::ReadText(marker_at(runtime)),
        ActionView::Report(ready_view()),
        ActionView::Finish(Ok(runtime)),
    ]
}

/// A runtime that is recorded in the version of the manifest is reused: nothing is
/// downloaded, the disk stays as it is, and the loading page is told once that the
/// runtime is ready.
pub proof fn law_recorded_version_is_reused(
    app_data: Seq<Seq<u8>>,
    manifest: ManifestView,
    disk: Disk,
    deeds: Seq<Deed>,
)
    requires
        carried_out(install_start(app_data, manifest), disk, deeds),
        recorded(disk, runtime_at(app_data), manifest.version),
        marker_readable(deeds),
    ensures
        disk_after(disk, deeds) == disk,
        deeds.len() <= 3,
        forall|k: int|
            0 <= k <= deeds.len() ==> install_action(
                state_after(install_start(app_data, manifest), #[trigger] deeds.take(k)),
            ) == reuse_actions(runtime_at(app_data))[k],
    decreases deeds.len(),
{
    let start = install_start(app_data, manifest);
    let actions = reuse_actions(runtime_at(app_data));
    assert(deeds.take(deeds.len() as int) == deeds);
    if deeds.len() > 0 {
        let prior = deeds.drop_last();
        let n = prior.len() as int;
        assert forall|i: int| 0 <= i < n implies (#[trigger] prior[i]).event != EventView::Text(None) by {
            assert(prior[i] == deeds[i]);
        }
        law_recorded_version_is_reused(app_data, manifest, disk, prior);
        lemma_run(start, disk, prior);
        assert(prior.take(n) == prior);
        assert(install_action(state_after(start, prior)) == actions[n]);
        let last = deeds.last();
        assert(last == deeds[n]);
        match (state_after(start, prior).phase, last.event) {
            (PhaseView::ReadingMarker, EventView::Text(Some(text))) => {
                let known = choose|known: Seq<char>|
                    disk[marker_at(start.runtime)] == #[trigger] encode_utf8(known) && marks(
                        known,
                        manifest.version,
                    );
                encode_utf8_decode_utf8(text);
                encode_utf8_decode_utf8(known);
                assert(up_to_date(true, Some(text), manifest.version));
            },
            _ => {},
        }
        assert(install_action(state_after(start, deeds)) == actions[n + 1]);
        assert forall|k: int| 0 <= k <= deeds.len() implies install_action(
            state_after(start, #[trigger] deeds.take(k)),
        ) == actions[k] by {
            if k <= n {
                assert(deeds.take(k) == prior.take(k));
            }
        }
    }
}

/// Installing once is enough, and only the version decides: what was installed for
/// one manifest is reused for every manifest of the same version, whatever its URL
/// and checksum, without a download and without a change on disk.
pub proof fn law_next_run_reuses(
    app_data: Seq<Seq<u8>>,
    manifest: ManifestView,
    disk: Disk,
    deeds: Seq<Deed>,
    next: ManifestView,
    next_deeds: Seq<Deed>,
)
    requires
        carried_out(install_start(app_data, manifest), disk, deeds),
        state_after(install_start(app_data, manifest), deeds).phase matches PhaseView::Finished(Ok(_)),
        next.version == manifest.version,
        carried_out(install_start(app_data, next), disk_after(disk, deeds), next_deeds),
        marker_readable(next_deeds),
    ensures
        disk_after(disk_after(disk, deeds), next_deeds) == disk_after(disk, deeds),
        next_deeds.len() <= 3,
        forall|k: int|
            0 <= k <= next_deeds.len() ==> install_action(
                state_after(install_start(app_data, next), #[trigger] next_deeds.take(k)),
            ) == reuse_actions(runtime_at(app_data))[k],
{
    let end = disk_after(disk, deeds);
    law_success_means_installed(app_data, manifest, disk, deeds);
    if installed(end, runtime_at(app_data), manifest.version) {
        assert(end[marker_at(runtime_at(app_data))] == encode_utf8(manifest.version));
    }
    law_recorded_version_is_reused(app_data, next, end, next_deeds);
}

/// Whether a phase comes with or after the download of a new runtime.
spec fn downloads(phase: PhaseView) -> bool {
    match phase {
        PhaseView::Downloading | PhaseView::Hashing | PhaseView::Rejecting(_) | PhaseView::ReportingExtract
        | PhaseView::Extracting | PhaseView::CheckingArchive | PhaseView::Discarding | PhaseView::CheckingOld
        | PhaseView::RemovingOld | PhaseView::Renaming | PhaseView::WritingMarker | PhaseView::Cleaning
        | PhaseView::ReportingReady => true,
        _ => false,
    }
}

/// A runtime that is not recorded in the version of the manifest, such as after a
/// version bump, is never reused: an installation that finishes well has downloaded
/// the URL of the manifest, and leaves a marker that holds exactly its version.
pub proof fn law_other_version_is_replaced(
    app_data: Seq<Seq<u8>>,
    manifest: ManifestView,
    disk: Disk,
    deeds: Seq<Deed>,
)
    requires
        carried_out(install_start(app_data, manifest), disk, deeds),
        !recorded(disk, runtime_at(app_data), manifest.version),
        state_after(install_start(app_data, manifest), deeds).phase matches PhaseView::Finished(Ok(_)),
    ensures
        installed(disk_after(disk, deeds), runtime_at(app_data), manifest.version),
        exists|k: int|
            0 <= k < deeds.len() && install_action(
                state_after(install_start(app_data, manifest), #[trigger] deeds.take(k)),
            ) == (ActionView::Download {
                url: manifest.url,
                dest: archive_at(runtime_at(app_data)),
            }),
{
    let start = install_start(app_data, manifest);
    lemma_run(start, disk, deeds);
    lemma_downloaded(start, disk, deeds);
    let k = choose|k: int|
        0 <= k <= deeds.len() && (state_after(start, #[trigger] deeds.take(k)).phase is Downloading);
    assert(deeds.take(deeds.len() as int) == deeds);
    lemma_run_prefix(start, disk, deeds, k);
    lemma_run(start, disk, deeds.take(k));
}

proof fn lemma_run_prefix(start: InstallerView, disk: Disk, deeds: Seq<Deed>, k: int)
    requires
        carried_out(start, disk, deeds),
        0 <= k <= deeds.len(),
    ensures
        carried_out(start, disk, deeds.take(k)),
    decreases deeds.len(),
{
    if k < deeds.len() {
        lemma_run_prefix(start, disk, deeds.drop_last(), k);
        assert(deeds.drop_last().take(k) == deeds.take(k));
    } else {
        assert(deeds.take(k) == deeds);
    }
}

proof fn lemma_downloaded(start: InstallerView, disk: Disk, deeds: Seq<Deed>)
    requires
        start.phase is CheckingEntry,
        carried_out(start, disk, deeds),
        !recorded(disk, start.runtime, start.manifest.version),
        ({
            let phase = state_after(start, deeds).phase;
            downloads(phase) || phase == PhaseView::Finished(Ok::<(), Seq<char>>(()))
        }),
    ensures
        exists|k: int| 0 <= k <= deeds.len() && (state_after(start, #[trigger] deeds.take(k)).phase is Downloading),
    decreases deeds.len(),
{
    if state_after(start, deeds).phase is Downloading {
        assert(deeds.take(deeds.len() as int) == deeds);
    } else {
        let prior = deeds.drop_last();
        lemma_run(start, disk, prior);
        lemma_downloaded(start, disk, prior);
        let k = choose|k: int|
            0 <= k <= prior.len() && (state_after(start, #[trigger] prior.take(k)).phase is Downloading);
        assert(prior.take(k) == deeds.take(k));
    }
}

/// Whether nothing but the archive lies in the staging directory.
pub open spec fn only_archive(disk: Disk, runtime: Seq<Seq<u8>>) -> bool {
    forall|path: Seq<Seq<u8>>| #[trigger]
        under(staging_at(runtime), path) && disk.contains_key(path) ==> path == archive_at(runtime)
}

/// Whether the staging directory was cleared at `j` and held nothing but the archive at
/// the end of `deeds`, where clearing it went well or there was nothing in it.
pub open spec fn cleared_at(start: InstallerView, disk: Disk, deeds: Seq<Deed>, j: int) -> bool {
    &&& 0 <= j < deeds.len()
    &&& state_after(start, deeds.take(j)).phase is ClearingStaging
    &&& deeds[j].event is Done || nothing_under(disk, staging_at(start.runtime)) ==> only_archive(
        disk_after(disk, deeds),
        start.runtime,
    )
}

/// Whether the pinned archive was unpacked at `k`, into a staging directory that was
/// cleared at `j`.
pub open spec fn unpacked_at(start: InstallerView, disk: Disk, deeds: Seq<Deed>, j: int, k: int) -> bool {
    &&& 0 <= j < k < deeds.len()
    &&& cleared_at(start, disk, deeds.take(k), j)
    &&& state_after(start, deeds.take(k)).phase is Extracting
    &&& archive_is_pinned(disk_after(disk, deeds.take(k)), state_after(start, deeds.take(k)))
}

proof fn lemma_cleared(start: InstallerView, disk: Disk, deeds: Seq<Deed>)
    requires
        start.phase is CheckingEntry,
        carried_out(start, disk, deeds),
        ({
            let phase = state_after(start, deeds).phase;
            ||| phase is CreatingStaging
            ||| phase is ReportingDownload
            ||| phase is Downloading
            ||| phase is Hashing
            ||| phase is ReportingExtract
            ||| phase is Extracting
        }),
    ensures
        exists|j: int| cleared_at(start, disk, deeds, j),
    decreases deeds.len(),
{
    let prior = deeds.drop_last();
    let last = deeds.last();
    lemma_run(start, disk, prior);
    if state_after(start, prior).phase is ClearingStaging {
        let j = prior.len() as int;
        assert(deeds.take(j) == prior);
        assert(cleared_at(start, disk, deeds, j));
    } else {
        lemma_cleared(start, disk, prior);
        let j = choose|j: int| cleared_at(start, disk, prior, j);
        assert(deeds.take(j) == prior.take(j));
        assert(deeds[j] == prior[j]);
        if deeds[j].event is Done || nothing_under(disk, staging_at(start.runtime)) {
            assert forall|path: Seq<Seq<u8>>| #[trigger]
                under(staging_at(start.runtime), path) && last.after.contains_key(path) implies path == archive_at(
                start.runtime,
            ) by {
                if path != archive_at(start.runtime) {
                    assert(same_at(disk_after(disk, prior), last.after, path));
                }
            }
        }
        assert(cleared_at(start, disk, deeds, j));
    }
}

proof fn lemma_same_tree_kept(
    a: Disk,
    from: Seq<Seq<u8>>,
    b: Disk,
    c: Disk,
    to: Seq<Seq<u8>>,
    dir: Seq<Seq<u8>>,
    mine: Seq<u8>,
    other: Seq<u8>,
)
    requires
        same_tree(a, from, b, to),
        same_outside(b, c, dir.push(other)),
        under(dir.push(mine), to),
        mine != other,
    ensures
        same_tree(a, from, c, to),
{
    assert forall|rest: Seq<Seq<u8>>|
        {
            &&& c.contains_key(#[trigger] (to + rest)) == a.contains_key(from + rest)
            &&& a.contains_key(from + rest) ==> c[to + rest] == a[from + rest]
        } by {
        assert(b.contains_key(to + rest) == a.contains_key(from + rest));
        assert(dir.push(mine) =~= (to + rest).subrange(0, dir.len() as int + 1)) by {
            assert(dir.push(mine) =~= to.subrange(0, dir.len() as int + 1));
        }
        lemma_siblings(dir, mine, other, to + rest);
        assert(same_at(b, c, to + rest));
    }
}

/// Where the unpacked tree lies in a phase after unpacking.
spec fn tree_at(state: InstallerView) -> Seq<Seq<u8>> {
    match state.phase {
        PhaseView::WritingMarker | PhaseView::Cleaning | PhaseView::ReportingReady | PhaseView::Finished(_) => {
            node_app_at(state.runtime)
        },
        _ => node_app_at(staging_at(state.runtime)),
    }
}

proof fn lemma_unpacked(start: InstallerView, disk: Disk, deeds: Seq<Deed>)
    requires
        start.phase is CheckingEntry,
        carried_out(start, disk, deeds),
        !recorded(disk, start.runtime, start.manifest.version),
        ({
            let phase = state_after(start, deeds).phase;
            ||| phase is CheckingArchive
            ||| phase is CheckingOld
            ||| phase is RemovingOld
            ||| phase is Renaming
            ||| phase is WritingMarker
            ||| phase is Cleaning
            ||| phase is ReportingReady
            ||| phase matches PhaseView::Finished(Ok(_))
        }),
    ensures
        exists|j: int, k: int| #[trigger]
            unpacked_at(start, disk, deeds, j, k) && same_tree(
                deeds[k].after,
                node_app_at(staging_at(start.runtime)),
                disk_after(disk, deeds),
                tree_at(state_after(start, deeds)),
            ),
    decreases deeds.len(),
{
    let prior = deeds.drop_last();
    let last = deeds.last();
    let state = state_after(start, prior);
    let before = disk_after(disk, prior);
    let runtime = start.runtime;
    let staging = staging_at(runtime);
    lemma_run(start, disk, prior);
    assert(last == deeds[deeds.len() - 1]);
    if state.phase is Extracting {
        let k = prior.len() as int;
        assert(deeds.take(k) == prior);
        lemma_cleared(start, disk, prior);
        let j = choose|j: int| cleared_at(start, disk, prior, j);
        assert(unpacked_at(start, disk, deeds, j, k));
    } else {
        lemma_unpacked(start, disk, prior);
        let (j, k) = choose|j: int, k: int| #[trigger]
            unpacked_at(start, disk, prior, j, k) && same_tree(
                prior[k].after,
                node_app_at(staging),
                before,
                tree_at(state),
            );
        assert(deeds.take(k) == prior.take(k));
        assert(deeds[k] == prior[k]);
        assert(unpacked_at(start, disk, deeds, j, k));
        let tree = prior[k].after;
        let from = node_app_at(staging);
        let node_app = encode_utf8("node-app"@);
        let install = encode_utf8(".install"@);
        let marker = encode_utf8(".installed"@);
        lemma_names_differ();
        assert(under(runtime.push(install), from)) by {
            assert(runtime.push(install) =~= from.subrange(0, runtime.len() as int + 1));
        }
        assert(under(runtime.push(node_app), node_app_at(runtime))) by {
            assert(runtime.push(node_app) =~= node_app_at(runtime).subrange(0, runtime.len() as int + 1));
        }
        match state.phase {
            PhaseView::RemovingOld => {
                lemma_same_tree_kept(tree, from, before, last.after, from, runtime, install, node_app);
            },
            PhaseView::Renaming => {
                assert forall|rest: Seq<Seq<u8>>|
                    {
                        &&& last.after.contains_key(#[trigger] (node_app_at(runtime) + rest)) == tree.contains_key(
                            from + rest,
                        )
                        &&& tree.contains_key(from + rest) ==> last.after[node_app_at(runtime) + rest] == tree[from
                            + rest]
                    } by {
                    assert(before.contains_key(from + rest) == tree.contains_key(from + rest));
                }
            },
            PhaseView::WritingMarker => {
                lemma_elsewhere(before, last.after, marker_at(runtime));
                lemma_same_tree_kept(
                    tree,
                    from,
                    before,
                    last.after,
                    node_app_at(runtime),
                    runtime,
                    node_app,
                    marker,
                );
            },
            PhaseView::Cleaning => {
                lemma_same_tree_kept(
                    tree,
                    from,
                    before,
                    last.after,
                    node_app_at(runtime),
                    runtime,
                    node_app,
                    install,
                );
            },
            _ => {},
        }
    }
}

/// An installation of a version that was not recorded, if it finishes well, leaves in
/// place exactly the tree that unpacking the pinned archive gave: the same files with
/// the same contents, and no other. Where there was no staging directory before, or it
/// could be cleared, nothing but the archive lay in it when that was unpacked, so no
/// file of an earlier attempt gets in; where it could be removed at the end, nothing is
/// left of it.
pub proof fn law_installed_tree_is_the_unpacked_one(
    app_data: Seq<Seq<u8>>,
    manifest: ManifestView,
    disk: Disk,
    deeds: Seq<Deed>,
)
    requires
        carried_out(install_start(app_data, manifest), disk, deeds),
        !recorded(disk, runtime_at(app_data), manifest.version),
        state_after(install_start(app_data, manifest), deeds).phase matches PhaseView::Finished(Ok(_)),
    ensures
        exists|j: int, k: int| #[trigger]
            unpacked_at(install_start(app_data, manifest), disk, deeds, j, k) && same_tree(
                deeds[k].after,
                node_app_at(staging_at(runtime_at(app_data))),
                disk_after(disk, deeds),
                node_app_at(runtime_at(app_data)),
            ),
        deeds.len() >= 2,
        state_after(install_start(app_data, manifest), deeds.take(deeds.len() - 2)).phase is Cleaning,
        deeds[deeds.len() - 2].event is Done ==> nothing_under(
            disk_after(disk, deeds),
            staging_at(runtime_at(app_data)),
        ),
{
    let start = install_start(app_data, manifest);
    lemma_unpacked(start, disk, deeds);
    let reported = deeds.drop_last();
    let cleaned = reported.drop_last();
    lemma_run(start, disk, reported);
    assert(state_after(start, reported).phase is ReportingReady);
    assert(carried_out(start, disk, reported));
    lemma_run(start, disk, cleaned);
    assert(state_after(start, cleaned).phase is Cleaning);
    assert(deeds.take(deeds.len() - 2) == cleaned);
    assert(reported.last() == deeds[deeds.len() - 2]);
}

/// How many phases may still follow.
pub open spec fn phases_left(phase: PhaseView) -> nat {
    match phase {
        PhaseView::CheckingEntry => 19,
        PhaseView::ReadingMarker => 18,
        PhaseView::CreatingRuntime => 17,
        PhaseView::ClearingStaging => 16,
        PhaseView::CreatingStaging => 15,
        PhaseView::ReportingDownload => 14,
        PhaseView::Downloading => 13,
        PhaseView::Hashing => 12,
        PhaseView::ReportingExtract => 11,
        PhaseView::Extracting => 10,
        PhaseView::CheckingArchive => 9,
        PhaseView::CheckingOld => 8,
        PhaseView::RemovingOld => 7,
        PhaseView::Renaming => 6,
        PhaseView::WritingMarker => 5,
        PhaseView::Cleaning => 4,
        PhaseView::ReportingReady => 3,
        PhaseView::ReportingReused | PhaseView::Rejecting(_) | PhaseView::Discarding => 1,
        PhaseView::Finished(_) => 0,
    }
}

/// Every installation ends: whatever is done brings it closer to its end.
pub proof fn law_installation_ends(disk: Disk, state: InstallerView, event: EventView, after: Disk)
    requires
        performs(disk, install_action(state), event, after),
    ensures
        phases_left(install_next(state, event).phase) < phases_left(state.phase),
{
}

/// An installation at `phase`.
pub open spec fn installer_at(runtime: Seq<Seq<u8>>, manifest: ManifestView, phase: PhaseView) -> InstallerView {
    InstallerView { runtime, manifest, phase }
}

/// What is done to the disk and over the network in each phase, and where: what the
/// manifest pins is fetched into the staging directory, hashed and unpacked there, and
/// moved from there to where the harness is run from.
pub proof fn law_each_phase_has_its_action(
    runtime: Seq<Seq<u8>>,
    manifest: ManifestView,
    digest: Seq<char>,
    message: Seq<char>,
)
    ensures
        ({
            let name = |s: &str| encode_utf8(s@);
            let at = |phase: PhaseView| install_action(installer_at(runtime, manifest, phase));
            let staging = runtime + seq![name(".install")];
            let archive = staging + seq![name("node-app.tar.gz")];
            let node_app = runtime + seq![name("node-app")];
            let marker = runtime + seq![name(".installed")];
            let lib = seq![name("lib"), name("bin.js")];
            &&& at(PhaseView::CheckingEntry) == ActionView::CheckFile(node_app + lib)
            &&& at(PhaseView::ReadingMarker) == ActionView::ReadText(marker)
            &&& at(PhaseView::CreatingRuntime) == ActionView::CreateDirs(runtime)
            &&& at(PhaseView::ClearingStaging) == ActionView::RemoveTree(staging)
            &&& at(PhaseView::CreatingStaging) == ActionView::CreateDirs(staging)
            &&& at(PhaseView::Downloading) == (ActionView::Download { url: manifest.url, dest: archive })
            &&& at(PhaseView::Hashing) == ActionView::Hash(archive)
            &&& at(PhaseView::Rejecting(digest)) == ActionView::RemoveTree(staging)
            &&& at(PhaseView::Extracting) == (ActionView::Extract { archive, dest: staging })
            &&& at(PhaseView::CheckingArchive) == ActionView::CheckFile(staging + seq![name("node-app")] + lib)
            &&& at(PhaseView::Discarding) == ActionView::RemoveTree(staging)
            &&& at(PhaseView::CheckingOld) == ActionView::CheckExists(node_app)
            &&& at(PhaseView::RemovingOld) == ActionView::RemoveTree(node_app)
            &&& at(PhaseView::Renaming) == (ActionView::Rename {
                from: staging + seq![name("node-app")],
                to: node_app,
            })
            &&& at(PhaseView::WritingMarker) == (ActionView::WriteText { path: marker, text: manifest.version })
            &&& at(PhaseView::Cleaning) == ActionView::RemoveTree(staging)
            &&& at(PhaseView::Finished(Ok(()))) == ActionView::Finish(Ok(runtime))
            &&& at(PhaseView::Finished(Err(message))) == ActionView::Finish(Err(message))
        }),
{
    law_places(runtime);
    law_places(staging_at(runtime));
    let name = |s: &str| encode_utf8(s@);
    let staging = runtime + seq![name(".install")];
    let lib = seq![name("lib"), name("bin.js")];
    assert(staging + seq![name("node-app.tar.gz")] =~= archive_at(runtime));
    assert(runtime + seq![name("node-app")] + lib =~= entry_at(runtime));
    assert(staging + seq![name("node-app")] + lib =~= entry_at(staging));
}

/// What the loading page is told in the phases that report: that the runtime is ready,
/// that the download starts, that the archive is unpacked.
pub proof fn law_what_installing_reports(runtime: Seq<Seq<u8>>, manifest: ManifestView)
    ensures
        install_action(installer_at(runtime, manifest, PhaseView::ReportingReused)) == ActionView::Report(
            ProgressView { phase: "ready"@, message: "运行时已就绪"@, percent: None },
        ),
        install_action(installer_at(runtime, manifest, PhaseView::ReportingReady)) == ActionView::Report(
            ProgressView { phase: "ready"@, message: "运行时已就绪"@, percent: None },
        ),
        install_action(installer_at(runtime, manifest, PhaseView::ReportingDownload)) == ActionView::Report(
            ProgressView { phase: "download"@, message: "正在下载运行时…"@, percent: Some(0) },
        ),
        install_action(installer_at(runtime, manifest, PhaseView::ReportingExtract)) == ActionView::Report(
            ProgressView { phase: "extract"@, message: "正在解压运行时…"@, percent: None },
        ),
{
}

/// The order of an installation in which everything goes well.
pub proof fn law_installation_goes_on(manifest: ManifestView)
    ensures
        ({
            let done = |phase: PhaseView| phase_next(manifest, phase, EventView::Done);
            let present = |phase: PhaseView, is: bool| phase_next(manifest, phase, EventView::Present(is));
            &&& present(PhaseView::CheckingEntry, true) == PhaseView::ReadingMarker
            &&& present(PhaseView::CheckingEntry, false) == PhaseView::CreatingRuntime
            &&& done(PhaseView::ReportingReused) == PhaseView::Finished(Ok(()))
            &&& done(PhaseView::CreatingRuntime) == PhaseView::ClearingStaging
            &&& done(PhaseView::ClearingStaging) == PhaseView::CreatingStaging
            &&& done(PhaseView::CreatingStaging) == PhaseView::ReportingDownload
            &&& done(PhaseView::ReportingDownload) == PhaseView::Downloading
            &&& done(PhaseView::Downloading) == PhaseView::Hashing
            &&& done(PhaseView::ReportingExtract) == PhaseView::Extracting
            &&& done(PhaseView::Extracting) == PhaseView::CheckingArchive
            &&& present(PhaseView::CheckingArchive, true) == PhaseView::CheckingOld
            &&& present(PhaseView::CheckingArchive, false) == PhaseView::Discarding
            &&& present(PhaseView::CheckingOld, true) == PhaseView::RemovingOld
            &&& present(PhaseView::CheckingOld, false) == PhaseView::Renaming
            &&& done(PhaseView::RemovingOld) == PhaseView::Renaming
            &&& done(PhaseView::Renaming) == PhaseView::WritingMarker
            &&& done(PhaseView::WritingMarker) == PhaseView::Cleaning
            &&& done(PhaseView::Cleaning) == PhaseView::ReportingReady
            &&& done(PhaseView::ReportingReady) == PhaseView::Finished(Ok(()))
        }),
{
}

/// A runtime whose entry point is there is reused exactly where its marker holds the
/// version that is asked for, as it stands or with blanks around it; any other is
/// installed anew, and so is one whose marker cannot be read.
pub proof fn law_only_the_version_is_reused(manifest: ManifestView, text: Seq<char>)
    ensures
        phase_next(manifest, PhaseView::ReadingMarker, EventView::Text(Some(text))) == (if text == manifest.version
            || trimmed(text) == manifest.version {
            PhaseView::ReportingReused
        } else {
            PhaseView::CreatingRuntime
        }),
        phase_next(manifest, PhaseView::ReadingMarker, EventView::Text(None)) == PhaseView::CreatingRuntime,
{
    law_marker_decides(text, manifest.version, None);
}

/// An archive is unpacked exactly where its checksum is the pinned one but for the case
/// of letters; any other is rejected, and its checksum is kept for the report.
pub proof fn law_checksum_decides(manifest: ManifestView, digest: Seq<char>)
    ensures
        phase_next(manifest, PhaseView::Hashing, EventView::Digest(digest)) == (if digest.len() == manifest.sha256.len()
            && (forall|i: int| 0 <= i < digest.len() ==> same_letter(digest[i], #[trigger] manifest.sha256[i])) {
            PhaseView::ReportingExtract
        } else {
            PhaseView::Rejecting(digest)
        }),
{
    law_pinned_but_for_case(digest, manifest);
}

/// Whatever fails ends the installation, with a text that says what failed and then the
/// whole error; downloading, hashing and unpacking have said so themselves. Only that
/// the staging directory could not be removed is passed over.
pub proof fn law_installation_failures_are_named(manifest: ManifestView, error: Seq<char>)
    ensures
        ({
            let failed = |phase: PhaseView| phase_next(manifest, phase, EventView::Failed(error));
            let ends = |text: Seq<char>| PhaseView::Finished(Err(text));
            &&& failed(PhaseView::CreatingRuntime) == ends("mkdir runtime: "@ + error)
            &&& failed(PhaseView::ClearingStaging) == PhaseView::CreatingStaging
            &&& failed(PhaseView::CreatingStaging) == ends("mkdir staging: "@ + error)
            &&& failed(PhaseView::Downloading) == ends(error)
            &&& failed(PhaseView::Hashing) == ends(error)
            &&& failed(PhaseView::Extracting) == ends(error)
            &&& failed(PhaseView::RemovingOld) == ends("remove old runtime: "@ + error)
            &&& failed(PhaseView::Renaming) == ends("install runtime: "@ + error)
            &&& failed(PhaseView::WritingMarker) == ends("write marker: "@ + error)
            &&& failed(PhaseView::Cleaning) == PhaseView::ReportingReady
        }),
{
}

/// An archive that is not installed ends the installation with the reason, whether the
/// staging directory could be removed or not.
pub proof fn law_rejections_are_named(manifest: ManifestView, digest: Seq<char>, event: EventView)
    requires
        event is Done || event is Failed,
    ensures
        phase_next(manifest, PhaseView::Rejecting(digest), event) == PhaseView::Finished(
            Err(mismatch_text(digest, manifest)),
        ),
        phase_next(manifest, PhaseView::Discarding, event) == PhaseView::Finished(
            Err("运行时压缩包缺少 lib/bin.js"@),
        ),
{
}

/// Whether `event` answers what was to be done in `phase`.
pub open spec fn install_answers(phase: PhaseView, event: EventView) -> bool {
    match event {
        EventView::Present(_) => phase is CheckingEntry || phase is CheckingArchive || phase is CheckingOld,
        EventView::Text(_) => phase is ReadingMarker,
        EventView::Digest(_) => phase is Hashing,
        EventView::Done => !(phase is CheckingEntry || phase is CheckingArchive || phase is CheckingOld || phase is ReadingMarker
            || phase is Hashing || phase is Finished),
        EventView::Failed(_) => !(phase is CheckingEntry || phase is CheckingArchive || phase is CheckingOld
            || phase is ReadingMarker || phase is ReportingReused || phase is ReportingDownload || phase is ReportingExtract
            || phase is ReportingReady || phase is Finished),
    }
}

/// A report that does not answer what was to be done changes nothing; one that does
/// always leads on, and where to and what is pinned never change.
pub proof fn law_installation_takes_answers_only(state: InstallerView, event: EventView)
    ensures
        phase_next(state.manifest, state.phase, event) == state.phase <==> !install_answers(state.phase, event),
        install_next(state, event) == installer_at(
            state.runtime,
            state.manifest,
            phase_next(state.manifest, state.phase, event),
        ),
{
}

/// An installation starts with a look at the entry point, in the runtime directory of
/// the app data directory.
pub proof fn law_installation_starts(app_data: Seq<Seq<u8>>, manifest: ManifestView)
    ensures
        install_start(app_data, manifest) == installer_at(
            app_data + seq![encode_utf8("runtime"@)],
            manifest,
            PhaseView::CheckingEntry,
        ),
{
    law_places(app_data);
}

/// What is to be done and what is reported of it is known by its paths and texts as
/// they stand.
pub proof fn law_installation_is_taken_whole(path: PathBuf, other: PathBuf, text: String, progress: RuntimeProgress, is: bool)
    ensures
        InstallAction::CheckFile(path)@ == ActionView::CheckFile(buf_components(path)),
        InstallAction::ReadText(path)@ == ActionView::ReadText(buf_components(path)),
        InstallAction::CreateDirs(path)@ == ActionView::CreateDirs(buf_components(path)),
        InstallAction::RemoveTree(path)@ == ActionView::RemoveTree(buf_components(path)),
        InstallAction::Report(progress)@ == ActionView::Report(progress@),
        (InstallAction::Download { url: text, dest: path })@ == (ActionView::Download {
            url: text@,
            dest: buf_components(path),
        }),
        InstallAction::Hash(path)@ == ActionView::Hash(buf_components(path)),
        (InstallAction::Extract { archive: path, dest: other })@ == (ActionView::Extract {
            archive: buf_components(path),
            dest: buf_components(other),
        }),
        InstallAction::CheckExists(path)@ == ActionView::CheckExists(buf_components(path)),
        (InstallAction::Rename { from: path, to: other })@ == (ActionView::Rename {
            from: buf_components(path),
            to: buf_components(other),
        }),
        (InstallAction::WriteText { path, text })@ == (ActionView::WriteText { path: buf_components(path), text: text@ }),
        InstallAction::Finish(Ok(path))@ == ActionView::Finish(Ok(buf_components(path))),
        InstallAction::Finish(Err(text))@ == ActionView::Finish(Err(text@)),
        InstallEvent::Done@ == EventView::Done,
        InstallEvent::Failed(text)@ == EventView::Failed(text@),
        InstallEvent::Present(is)@ == EventView::Present(is),
        InstallEvent::Text(Some(text))@ == EventView::Text(Some(text@)),
        InstallEvent::Text(None)@ == EventView::Text(None),
        InstallEvent::Digest(text)@ == EventView::Digest(text@),
{
}

/// A phase that holds a text is known by that text as it stands.
pub proof fn law_phase_is_taken_whole(text: String)
    ensures
        Phase::Rejecting(text)@ == PhaseView::Rejecting(text@),
        Phase::Finished(Err(text))@ == PhaseView::Finished(Err(text@)),
        Phase::Finished(Ok(()))@ == PhaseView::Finished(Ok(())),
{
}

} // verus!
