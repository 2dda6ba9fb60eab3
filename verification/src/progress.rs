//! What the loading page is told while the runtime is installed.

use crate::decimal::{decimal, decimal_text, law_decimal_round_trip, unsigned_value};
use vstd::prelude::*;
use vstd::string::*;

verus! {

/// A status event for the loading page.
pub struct RuntimeProgress {
    /// One of `download`, `extract` and `ready`.
    pub phase: &'static str,
    /// What the page shows.
    pub message: String,
    /// How much of the download is done, while there is one.
    pub percent: Option<u32>,
}

/// A status event by its texts.
pub struct ProgressView {
    pub phase: Seq<char>,
    pub message: Seq<char>,
    pub percent: Option<u32>,
}

impl View for RuntimeProgress {
    type V = ProgressView;

    open spec fn view(&self) -> ProgressView {
        ProgressView { phase: self.phase@, message: self.message@, percent: self.percent }
    }
}

/// The runtime is in place.
pub open spec fn ready_view() -> ProgressView {
    ProgressView { phase: "ready"@, message: "运行时已就绪"@, percent: None }
}

/// The download is about to start.
pub open spec fn download_start_view() -> ProgressView {
    ProgressView { phase: "download"@, message: "正在下载运行时…"@, percent: Some(0) }
}

/// The download has reached `percent`.
pub open spec fn download_view(percent: u32) -> ProgressView {
    ProgressView {
        phase: "download"@,
        message: "正在下载运行时… "@ + decimal_text(percent as nat) + "%"@,
        percent: Some(percent),
    }
}

/// The archive is about to be unpacked.
pub open spec fn extract_view() -> ProgressView {
    ProgressView { phase: "extract"@, message: "正在解压运行时…"@, percent: None }
}

impl RuntimeProgress {
    /// The runtime is in place.
    pub fn ready() -> (res: RuntimeProgress)
        ensures
            res@ == ready_view(),
    {
        RuntimeProgress { phase: "ready", message: "运行时已就绪".to_string(), percent: None }
    }

    /// The download is about to start.
    pub fn download_start() -> (res: RuntimeProgress)
        ensures
            res@ == download_start_view(),
    {
        RuntimeProgress {
            phase: "download",
            message: "正在下载运行时…".to_string(),
            percent: Some(0),
        }
    }

    /// The download has reached `percent`.
    pub fn download(percent: u32) -> (res: RuntimeProgress)
        ensures
            res@ == download_view(percent),
    {
        let mut message = "正在下载运行时… ".to_string();
        message.append(decimal(percent as u64).as_str());
        message.append("%");
        RuntimeProgress { phase: "download", message, percent: Some(percent) }
    }

    /// The archive is about to be unpacked.
    pub fn extract() -> (res: RuntimeProgress)
        ensures
            res@ == extract_view(),
    {
        RuntimeProgress {
            phase: "extract",
            message: "正在解压运行时…".to_string(),
            percent: None,
        }
    }
}

/// While the runtime is downloaded, the page is told the percentage twice: as a number,
/// and in a text that reads back as that number.
pub proof fn law_download_tells_its_percentage(percent: u32)
    ensures
        download_view(percent).phase == "download"@,
        download_view(percent).percent == Some(percent),
        ({
            let message = download_view(percent).message;
            &&& "正在下载运行时… "@.is_prefix_of(message)
            &&& message[message.len() - 1] == '%'
            &&& unsigned_value(message.subrange(9, message.len() - 1)) == Some(percent as nat)
            &&& message.subrange(9, message.len() - 1) == decimal_text(percent as nat)
        }),
{
    reveal_strlit("正在下载运行时… ");
    reveal_strlit("%");
    let message = download_view(percent).message;
    assert("正在下载运行时… "@.len() == 9);
    assert("正在下载运行时… "@ =~= message.subrange(0, 9));
    assert(message.subrange(9, message.len() - 1) =~= decimal_text(percent as nat));
    law_decimal_round_trip(percent as nat);
}

/// Only a download tells a percentage; it starts at 0.
pub proof fn law_only_downloads_tell_a_percentage()
    ensures
        ready_view().phase == "ready"@ && ready_view().message == "运行时已就绪"@ && ready_view().percent is None,
        extract_view().phase == "extract"@ && extract_view().message == "正在解压运行时…"@,
        extract_view().percent is None,
        download_start_view().phase == "download"@ && download_start_view().message == "正在下载运行时…"@,
        download_start_view().percent == Some(0u32),
{
}

/// A status event is known by its texts as they stand.
pub proof fn law_progress_is_taken_whole(progress: RuntimeProgress)
    ensures
        progress@.phase == progress.phase@,
        progress@.message == progress.message@,
        progress@.percent == progress.percent,
{
}

} // verus!
