//! Installing the runtime: what to do next.
//!
//! [`Installer`] is driven by its caller: `pending` says what is to be done, and
//! `advance` takes how that went. A runtime in the right version is reused. Any
//! other is downloaded into the staging directory, held against the checksum of
//! the manifest, unpacked there, checked for its entry point, and only then moved
//! to where the old one was; the version marker is written last.

use crate::manifest::{
    checksum_matches, is_installed, is_pinned_checksum, mismatch_message, mismatch_text, up_to_date, ManifestView,
    RuntimeManifest,
};
use crate::paths::{
    archive_at, archive_path, buf_components, entry_at, marker_at, marker_path, node_app_at, node_app_dir,
    node_app_entry, path_components, runtime_at, runtime_dir, staging_at, staging_dir,
};
use crate::progress::{download_start_view, extract_view, ready_view, ProgressView, RuntimeProgress};
use crate::text::concat;
use std::path::{Path, PathBuf};
use vstd::prelude::*;

verus! {

/// How far an installation has come, by what is to be done next.
pub enum Phase {
    CheckingEntry,
    ReadingMarker,
    ReportingReused,
    CreatingRuntime,
    ClearingStaging,
    CreatingStaging,
    ReportingDownload,
    Downloading,
    Hashing,
    /// The checksum, which is given, is not the pinned one.
    Rejecting(String),
    ReportingExtract,
    Extracting,
    CheckingArchive,
    /// The archive lacks the entry point.
    Discarding,
    CheckingOld,
    RemovingOld,
    Renaming,
    WritingMarker,
    Cleaning,
    ReportingReady,
    Finished(Result<(), String>),
}

/// An installation of the runtime.
pub struct Installer {
    runtime: PathBuf,
    manifest: RuntimeManifest,
    phase: Phase,
}

/// What the caller of an installation is to do, and how it reports back.
pub enum InstallAction {
    /// Say whether this is a file (`Present`).
    CheckFile(PathBuf),
    /// Read this file (`Text`).
    ReadText(PathBuf),
    /// Create this directory with its parents (`Done` or `Failed`).
    CreateDirs(PathBuf),
    /// Remove this directory with its contents (`Done` or `Failed`).
    RemoveTree(PathBuf),
    /// Tell the loading page (`Done`).
    Report(RuntimeProgress),
    /// Download `url` to `dest` (`Done` or `Failed`).
    Download { url: String, dest: PathBuf },
    /// Compute the checksum of this file (`Digest` or `Failed`).
    Hash(PathBuf),
    /// Unpack `archive` into `dest` (`Done` or `Failed`).
    Extract { archive: PathBuf, dest: PathBuf },
    /// Say whether there is anything at this path (`Present`).
    CheckExists(PathBuf),
    /// Move `from` to `to` (`Done` or `Failed`).
    Rename { from: PathBuf, to: PathBuf },
    /// Write this file (`Done` or `Failed`).
    WriteText { path: PathBuf, text: String },
    /// Nothing: the installation is over, with the runtime directory or an error.
    Finish(Result<PathBuf, String>),
}

/// What the caller of an installation reports.
pub enum InstallEvent {
    Done,
    Failed(String),
    Present(bool),
    /// The text of a file, or `None` where it could not be read.
    Text(Option<String>),
    Digest(String),
}

/// A phase by its texts.
pub enum PhaseView {
    CheckingEntry,
    ReadingMarker,
    ReportingReused,
    CreatingRuntime,
    ClearingStaging,
    CreatingStaging,
    ReportingDownload,
    Downloading,
    Hashing,
    Rejecting(Seq<char>),
    ReportingExtract,
    Extracting,
    CheckingArchive,
    Discarding,
    CheckingOld,
    RemovingOld,
    Renaming,
    WritingMarker,
    Cleaning,
    ReportingReady,
    Finished(Result<(), Seq<char>>),
}

/// An installation by its paths and texts.
pub struct InstallerView {
    pub runtime: Seq<Seq<u8>>,
    pub manifest: ManifestView,
    pub phase: PhaseView,
}

/// What is to be done, by paths and texts.
pub enum ActionView {
    CheckFile(Seq<Seq<u8>>),
    ReadText(Seq<Seq<u8>>),
    CreateDirs(Seq<Seq<u8>>),
    RemoveTree(Seq<Seq<u8>>),
    Report(ProgressView),
    Download { url: Seq<char>, dest: Seq<Seq<u8>> },
    Hash(Seq<Seq<u8>>),
    Extract { archive: Seq<Seq<u8>>, dest: Seq<Seq<u8>> },
    CheckExists(Seq<Seq<u8>>),
    Rename { from: Seq<Seq<u8>>, to: Seq<Seq<u8>> },
    WriteText { path: Seq<Seq<u8>>, text: Seq<char> },
    Finish(Result<Seq<Seq<u8>>, Seq<char>>),
}

/// A report by its texts.
pub enum EventView {
    Done,
    Failed(Seq<char>),
    Present(bool),
    Text(Option<Seq<char>>),
    Digest(Seq<char>),
}

impl View for Phase {
    type V = PhaseView;

    open spec fn view(&self) -> PhaseView {
        match *self {
            Phase::CheckingEntry => PhaseView::CheckingEntry,
            Phase::ReadingMarker => PhaseView::ReadingMarker,
            Phase::ReportingReused => PhaseView::ReportingReused,
            Phase::CreatingRuntime => PhaseView::CreatingRuntime,
            Phase::ClearingStaging => PhaseView::ClearingStaging,
            Phase::CreatingStaging => PhaseView::CreatingStaging,
            Phase::ReportingDownload => PhaseView::ReportingDownload,
            Phase::Downloading => PhaseView::Downloading,
            Phase::Hashing => PhaseView::Hashing,
            Phase::Rejecting(digest) => PhaseView::Rejecting(digest@),
            Phase::ReportingExtract => PhaseView::ReportingExtract,
            Phase::Extracting => PhaseView::Extracting,
            Phase::CheckingArchive => PhaseView::CheckingArchive,
            Phase::Discarding => PhaseView::Discarding,
            Phase::CheckingOld => PhaseView::CheckingOld,
            Phase::RemovingOld => PhaseView::RemovingOld,
            Phase::Renaming => PhaseView::Renaming,
            Phase::WritingMarker => PhaseView::WritingMarker,
            Phase::Cleaning => PhaseView::Cleaning,
            Phase::ReportingReady => PhaseView::ReportingReady,
            Phase::Finished(Ok(_)) => PhaseView::Finished(Ok(())),
            Phase::Finished(Err(message)) => PhaseView::Finished(Err(message@)),
        }
    }
}

impl View for Installer {
    type V = InstallerView;

    closed spec fn view(&self) -> InstallerView {
        InstallerView {
            runtime: buf_components(self.runtime),
            manifest: self.manifest@,
            phase: self.phase@,
        }
    }
}

impl View for InstallAction {
    type V = ActionView;

    open spec fn view(&self) -> ActionView {
        match *self {
            InstallAction::CheckFile(path) => ActionView::CheckFile(buf_components(path)),
            InstallAction::ReadText(path) => ActionView::ReadText(buf_components(path)),
            InstallAction::CreateDirs(path) => ActionView::CreateDirs(buf_components(path)),
            InstallAction::RemoveTree(path) => ActionView::RemoveTree(buf_components(path)),
            InstallAction::Report(progress) => ActionView::Report(progress@),
            InstallAction::Download { url, dest } => ActionView::Download {
                url: url@,
                dest: buf_components(dest),
            },
            InstallAction::Hash(path) => ActionView::Hash(buf_components(path)),
            InstallAction::Extract { archive, dest } => ActionView::Extract {
                archive: buf_components(archive),
                dest: buf_components(dest),
            },
            InstallAction::CheckExists(path) => ActionView::CheckExists(buf_components(path)),
            InstallAction::Rename { from, to } => ActionView::Rename {
                from: buf_components(from),
                to: buf_components(to),
            },
            InstallAction::WriteText { path, text } => ActionView::WriteText {
                path: buf_components(path),
                text: text@,
            },
            InstallAction::Finish(Ok(runtime)) => ActionView::Finish(Ok(buf_components(runtime))),
            InstallAction::Finish(Err(message)) => ActionView::Finish(Err(message@)),
        }
    }
}

impl View for InstallEvent {
    type V = EventView;

    open spec fn view(&self) -> EventView {
        match *self {
            InstallEvent::Done => EventView::Done,
            InstallEvent::Failed(error) => EventView::Failed(error@),
            InstallEvent::Present(present) => EventView::Present(present),
            InstallEvent::Text(Some(text)) => EventView::Text(Some(text@)),
            InstallEvent::Text(None) => EventView::Text(None),
            InstallEvent::Digest(digest) => EventView::Digest(digest@),
        }
    }
}

/// What is to be done in the state `state`.
pub open spec fn install_action(state: InstallerView) -> ActionView {
    let runtime = state.runtime;
    let staging = staging_at(runtime);
    match state.phase {
        PhaseView::CheckingEntry => ActionView::CheckFile(entry_at(runtime)),
        PhaseView::ReadingMarker => ActionView::ReadText(marker_at(runtime)),
        PhaseView::ReportingReused => ActionView::Report(ready_view()),
        PhaseView::CreatingRuntime => ActionView::CreateDirs(runtime),
        PhaseView::ClearingStaging => ActionView::RemoveTree(staging),
        PhaseView::CreatingStaging => ActionView::CreateDirs(staging),
        PhaseView::ReportingDownload => ActionView::Report(download_start_view()),
        PhaseView::Downloading => ActionView::Download {
            url: state.manifest.url,
            dest: archive_at(runtime),
        },
        PhaseView::Hashing => ActionView::Hash(archive_at(runtime)),
        PhaseView::Rejecting(_) => ActionView::RemoveTree(staging),
        PhaseView::ReportingExtract => ActionView::Report(extract_view()),
        PhaseView::Extracting => ActionView::Extract { archive: archive_at(runtime), dest: staging },
        PhaseView::CheckingArchive => ActionView::CheckFile(entry_at(staging)),
        PhaseView::Discarding => ActionView::RemoveTree(staging),
        PhaseView::CheckingOld => ActionView::CheckExists(node_app_at(runtime)),
        PhaseView::RemovingOld => ActionView::RemoveTree(node_app_at(runtime)),
        PhaseView::Renaming => ActionView::Rename {
            from: node_app_at(staging),
            to: node_app_at(runtime),
        },
        PhaseView::WritingMarker => ActionView::WriteText {
            path: marker_at(runtime),
            text: state.manifest.version,
        },
        PhaseView::Cleaning => ActionView::RemoveTree(staging),
        PhaseView::ReportingReady => ActionView::Report(ready_view()),
        PhaseView::Finished(Ok(_)) => ActionView::Finish(Ok(runtime)),
        PhaseView::Finished(Err(message)) => ActionView::Finish(Err(message)),
    }
}

/// The installation failed, and this is why.
pub open spec fn install_failed(context: &str, error: Seq<char>) -> PhaseView {
    PhaseView::Finished(Err(context@ + error))
}

/// Whether a report says that something was tried, however it went.
pub open spec fn attempted(event: EventView) -> bool {
    event is Done || event is Failed
}

/// The phase after `event`. A report that does not answer what was to be done
/// changes nothing. Where a failure is ignored, it counts as done.
pub open spec fn phase_next(manifest: ManifestView, phase: PhaseView, event: EventView) -> PhaseView {
    match (phase, event) {
        (PhaseView::CheckingEntry, EventView::Present(present)) => {
            if present {
                PhaseView::ReadingMarker
            } else {
                PhaseView::CreatingRuntime
            }
        },
        (PhaseView::ReadingMarker, EventView::Text(marker)) => {
            if up_to_date(true, marker, manifest.version) {
                PhaseView::ReportingReused
            } else {
                PhaseView::CreatingRuntime
            }
        },
        (PhaseView::ReportingReused, EventView::Done) => PhaseView::Finished(Ok(())),
        (PhaseView::CreatingRuntime, EventView::Done) => PhaseView::ClearingStaging,
        (PhaseView::CreatingRuntime, EventView::Failed(e)) => install_failed("mkdir runtime: ", e),
        (PhaseView::ClearingStaging, _) => {
            if attempted(event) {
                PhaseView::CreatingStaging
            } else {
                phase
            }
        },
        (PhaseView::CreatingStaging, EventView::Done) => PhaseView::ReportingDownload,
        (PhaseView::CreatingStaging, EventView::Failed(e)) => install_failed("mkdir staging: ", e),
        (PhaseView::ReportingDownload, EventView::Done) => PhaseView::Downloading,
        (PhaseView::Downloading, EventView::Done) => PhaseView::Hashing,
        (PhaseView::Downloading, EventView::Failed(e)) => PhaseView::Finished(Err(e)),
        (PhaseView::Hashing, EventView::Digest(digest)) => {
            if checksum_matches(digest, manifest) {
                PhaseView::ReportingExtract
            } else {
                PhaseView::Rejecting(digest)
            }
        },
        (PhaseView::Hashing, EventView::Failed(e)) => PhaseView::Finished(Err(e)),
        (PhaseView::Rejecting(digest), _) => {
            if attempted(event) {
                PhaseView::Finished(Err(mismatch_text(digest, manifest)))
            } else {
                phase
            }
        },
        (PhaseView::ReportingExtract, EventView::Done) => PhaseView::Extracting,
        (PhaseView::Extracting, EventView::Done) => PhaseView::CheckingArchive,
        (PhaseView::Extracting, EventView::Failed(e)) => PhaseView::Finished(Err(e)),
        (PhaseView::CheckingArchive, EventView::Present(present)) => {
            if present {
                PhaseView::CheckingOld
            } else {
                PhaseView::Discarding
            }
        },
        (PhaseView::Discarding, _) => {
            if attempted(event) {
                PhaseView::Finished(Err("运行时压缩包缺少 lib/bin.js"@))
            } else {
                phase
            }
        },
        (PhaseView::CheckingOld, EventView::Present(present)) => {
            if present {
                PhaseView::RemovingOld
            } else {
                PhaseView::Renaming
            }
        },
        (PhaseView::RemovingOld, EventView::Done) => PhaseView::Renaming,
        (PhaseView::RemovingOld, EventView::Failed(e)) => install_failed("remove old runtime: ", e),
        (PhaseView::Renaming, EventView::Done) => PhaseView::WritingMarker,
        (PhaseView::Renaming, EventView::Failed(e)) => install_failed("install runtime: ", e),
        (PhaseView::WritingMarker, EventView::Done) => PhaseView::Cleaning,
        (PhaseView::WritingMarker, EventView::Failed(e)) => install_failed("write marker: ", e),
        (PhaseView::Cleaning, _) => {
            if attempted(event) {
                PhaseView::ReportingReady
            } else {
                phase
            }
        },
        (PhaseView::ReportingReady, EventView::Done) => PhaseView::Finished(Ok(())),
        _ => phase,
    }
}

/// The state after `event`.
pub open spec fn install_next(state: InstallerView, event: EventView) -> InstallerView {
    InstallerView { phase: phase_next(state.manifest, state.phase, event), ..state }
}

/// The state of an installation that has not started.
pub open spec fn install_start(app_data: Seq<Seq<u8>>, manifest: ManifestView) -> InstallerView {
    InstallerView { runtime: runtime_at(app_data), manifest, phase: PhaseView::CheckingEntry }
}

/// The phase after something was done.
fn after_done(phase: Phase, manifest: &RuntimeManifest) -> (res: Phase)
    ensures
        res@ == phase_next(manifest@, phase@, EventView::Done),
{
    match phase {
        Phase::ReportingReused => Phase::Finished(Ok(())),
        Phase::CreatingRuntime => Phase::ClearingStaging,
        Phase::ClearingStaging => Phase::CreatingStaging,
        Phase::CreatingStaging => Phase::ReportingDownload,
        Phase::ReportingDownload => Phase::Downloading,
        Phase::Downloading => Phase::Hashing,
        Phase::Rejecting(digest) => Phase::Finished(Err(mismatch_message(digest.as_str(), manifest))),
        Phase::ReportingExtract => Phase::Extracting,
        Phase::Extracting => Phase::CheckingArchive,
        Phase::Discarding => Phase::Finished(Err("运行时压缩包缺少 lib/bin.js".to_string())),
        Phase::RemovingOld => Phase::Renaming,
        Phase::Renaming => Phase::WritingMarker,
        Phase::WritingMarker => Phase::Cleaning,
        Phase::Cleaning => Phase::ReportingReady,
        Phase::ReportingReady => Phase::Finished(Ok(())),
        other => other,
    }
}

/// The phase after something failed.
fn after_failed(phase: Phase, error: String, manifest: &RuntimeManifest) -> (res: Phase)
    ensures
        res@ == phase_next(manifest@, phase@, EventView::Failed(error@)),
{
    match phase {
        Phase::CreatingRuntime => Phase::Finished(Err(concat("mkdir runtime: ", error.as_str()))),
        Phase::ClearingStaging => Phase::CreatingStaging,
        Phase::CreatingStaging => Phase::Finished(Err(concat("mkdir staging: ", error.as_str()))),
        Phase::Downloading => Phase::Finished(Err(error)),
        Phase::Hashing => Phase::Finished(Err(error)),
        Phase::Rejecting(digest) => Phase::Finished(Err(mismatch_message(digest.as_str(), manifest))),
        Phase::Extracting => Phase::Finished(Err(error)),
        Phase::Discarding => Phase::Finished(Err("运行时压缩包缺少 lib/bin.js".to_string())),
        Phase::RemovingOld => Phase::Finished(Err(concat("remove old runtime: ", error.as_str()))),
        Phase::Renaming => Phase::Finished(Err(concat("install runtime: ", error.as_str()))),
        Phase::WritingMarker => Phase::Finished(Err(concat("write marker: ", error.as_str()))),
        Phase::Cleaning => Phase::ReportingReady,
        other => other,
    }
}

/// The phase after `event`.
fn next_phase(phase: Phase, event: InstallEvent, manifest: &RuntimeManifest) -> (res: Phase)
    ensures
        res@ == phase_next(manifest@, phase@, event@),
{
    match event {
        InstallEvent::Done => after_done(phase, manifest),
        InstallEvent::Failed(error) => after_failed(phase, error, manifest),
        InstallEvent::Present(present) => match phase {
            Phase::CheckingEntry => {
                if present {
                    Phase::ReadingMarker
                } else {
                    Phase::CreatingRuntime
                }
            },
            Phase::CheckingArchive => {
                if present {
                    Phase::CheckingOld
                } else {
                    Phase::Discarding
                }
            },
            Phase::CheckingOld => {
                if present {
                    Phase::RemovingOld
                } else {
                    Phase::Renaming
                }
            },
            other => other,
        },
        InstallEvent::Text(text) => match phase {
            Phase::ReadingMarker => {
                let current = match &text {
                    Some(marker) => is_installed(true, Some(marker.as_str()), manifest),
                    None => is_installed(true, None, manifest),
                };
                if current {
                    Phase::ReportingReused
                } else {
                    Phase::CreatingRuntime
                }
            },
            other => other,
        },
        InstallEvent::Digest(digest) => match phase {
            Phase::Hashing => {
                if is_pinned_checksum(digest.as_str(), manifest) {
                    Phase::ReportingExtract
                } else {
                    Phase::Rejecting(digest)
                }
            },
            other => other,
        },
    }
}

/// Start to ensure that the harness closure is present under
/// `<app_data>/runtime/node-app` in the version of the manifest.
pub fn ensure_runtime(app_data_dir: &Path, manifest: &RuntimeManifest) -> (res: Installer)
    ensures
        res@ == install_start(path_components(app_data_dir), manifest@),
{
    Installer {
        runtime: runtime_dir(app_data_dir),
        manifest: RuntimeManifest {
            version: manifest.version.clone(),
            url: manifest.url.clone(),
            sha256: manifest.sha256.clone(),
        },
        phase: Phase::CheckingEntry,
    }
}

impl Installer {
    /// What is to be done next.
    pub fn pending(&self) -> (res: InstallAction)
        ensures
            res@ == install_action(self@),
    {
        let runtime = self.runtime.as_path();
        let staging = staging_dir(runtime);
        match &self.phase {
            Phase::CheckingEntry => InstallAction::CheckFile(node_app_entry(runtime)),
            Phase::ReadingMarker => InstallAction::ReadText(marker_path(runtime)),
            Phase::ReportingReused => InstallAction::Report(RuntimeProgress::ready()),
            Phase::CreatingRuntime => InstallAction::CreateDirs(runtime.to_path_buf()),
            Phase::ClearingStaging => InstallAction::RemoveTree(staging),
            Phase::CreatingStaging => InstallAction::CreateDirs(staging),
            Phase::ReportingDownload => InstallAction::Report(RuntimeProgress::download_start()),
            Phase::Downloading => InstallAction::Download {
                url: self.manifest.url.clone(),
                dest: archive_path(runtime),
            },
            Phase::Hashing => InstallAction::Hash(archive_path(runtime)),
            Phase::Rejecting(_) => InstallAction::RemoveTree(staging),
            Phase::ReportingExtract => InstallAction::Report(RuntimeProgress::extract()),
            Phase::Extracting => InstallAction::Extract { archive: archive_path(runtime), dest: staging },
            Phase::CheckingArchive => InstallAction::CheckFile(node_app_entry(staging.as_path())),
            Phase::Discarding => InstallAction::RemoveTree(staging),
            Phase::CheckingOld => InstallAction::CheckExists(node_app_dir(runtime)),
            Phase::RemovingOld => InstallAction::RemoveTree(node_app_dir(runtime)),
            Phase::Renaming => InstallAction::Rename {
                from: node_app_dir(staging.as_path()),
                to: node_app_dir(runtime),
            },
            Phase::WritingMarker => InstallAction::WriteText {
                path: marker_path(runtime),
                text: self.manifest.version.clone(),
            },
            Phase::Cleaning => InstallAction::RemoveTree(staging),
            Phase::ReportingReady => InstallAction::Report(RuntimeProgress::ready()),
            Phase::Finished(Ok(_)) => InstallAction::Finish(Ok(runtime.to_path_buf())),
            Phase::Finished(Err(message)) => InstallAction::Finish(Err(message.clone())),
        }
    }

    /// What becomes of the installation after `event`.
    pub fn advance(self, event: InstallEvent) -> (res: Installer)
        ensures
            res@ == install_next(self@, event@),
    {
        let Installer { runtime, manifest, phase } = self;
        let phase = next_phase(phase, event, &manifest);
        Installer { runtime, manifest, phase }
    }
}

/// How unpacking an archive went, given how opening it went and, where that went
/// well, how reading and writing its entries did.
pub fn extract(opened: Result<Result<(), String>, String>) -> (res: Result<(), String>)
    ensures
        match (res, opened) {
            (Ok(_), Ok(Ok(_))) => true,
            (Err(message), Ok(Err(error))) => message@ == "extract: "@ + error@,
            (Err(message), Err(error)) => message@ == "open: "@ + error@,
            _ => false,
        },
{
    match opened {
        Ok(Ok(_)) => Ok(()),
        Ok(Err(error)) => Err(concat("extract: ", error.as_str())),
        Err(error) => Err(concat("open: ", error.as_str())),
    }
}

} // verus!
