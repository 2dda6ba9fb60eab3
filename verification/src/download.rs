//! Downloading a file: what to do next, and how far it has come.
//!
//! [`Download`] is driven by its caller: its variants say what is to be done, and
//! `advance` takes how that went. The order is: send the request, create the
//! destination, then read chunk after chunk and write each of them, and flush.

use crate::download_laws::{is_share, law_counting};
use crate::http::{announced_length, content_length};
use crate::text::concat;
use vstd::prelude::*;

verus! {

/// How far a download has come.
#[derive(Clone, Copy, PartialEq, Eq, Structural)]
pub struct Tally {
    /// The length that the server announced.
    pub total: Option<u64>,
    /// How many bytes were written.
    pub downloaded: u64,
    /// The percentage that was reported last.
    pub last_percent: Option<u32>,
}

/// The percentage that `downloaded` is of `total`, rounded down, at most 100.
pub open spec fn percent_of(downloaded: nat, total: nat) -> nat
    recommends
        total > 0,
{
    let percent = downloaded * 100 / total;
    if percent < 100 {
        percent
    } else {
        100
    }
}

/// The tally with `n` more bytes, and the percentage to report where it is known
/// and another one than before.
pub open spec fn counted(tally: Tally, n: nat) -> (Tally, Option<u32>) {
    let downloaded = tally.downloaded + n;
    let more = Tally { downloaded: downloaded as u64, ..tally };
    match tally.total {
        Some(total) => {
            let percent = percent_of(downloaded as nat, total as nat) as u32;
            if total > 0 && tally.last_percent != Some(percent) {
                (Tally { last_percent: Some(percent), ..more }, Some(percent))
            } else {
                (more, None)
            }
        },
        None => (more, None),
    }
}

/// Whether `n` more bytes can be counted in 64 bits.
pub open spec fn countable(tally: Tally, n: nat) -> bool {
    &&& tally.downloaded + n <= u64::MAX
    &&& tally.total matches Some(total) ==> total > 0 ==> (tally.downloaded + n) * 100 <= u64::MAX
}

impl Tally {
    /// Nothing was downloaded yet.
    pub fn new(total: Option<u64>) -> (res: Tally)
        ensures
            res == (Tally { total, downloaded: 0, last_percent: None }),
    {
        Tally { total, downloaded: 0, last_percent: None }
    }

    /// Whether `n` more bytes can be counted in 64 bits.
    pub fn can_count(&self, n: usize) -> (res: bool)
        ensures
            res == countable(*self, n as nat),
    {
        match self.downloaded.checked_add(n as u64) {
            None => false,
            Some(downloaded) => match self.total {
                Some(total) => total == 0 || downloaded <= u64::MAX / 100,
                None => true,
            },
        }
    }

    /// Count `n` more bytes, and give the percentage to report, if any.
    pub fn count(self, n: usize) -> (res: (Tally, Option<u32>))
        requires
            countable(self, n as nat),
        ensures
            res == counted(self, n as nat),
            res.0.downloaded == self.downloaded + n,
            self.total matches Some(total) ==> total > 0 ==> (res.0.last_percent matches Some(percent) && is_share(
                percent,
                (self.downloaded + n) as nat,
                total as nat,
            )),
    {
        proof {
            law_counting(self, n as nat);
        }
        let downloaded: u64 = self.downloaded + n as u64;
        let more = Tally { total: self.total, downloaded, last_percent: self.last_percent };
        match self.total {
            Some(total) => {
                if total == 0 {
                    return (more, None);
                }
                let quotient: u64 = (downloaded * 100) / total;
                let percent: u32 = if quotient < 100 {
                    quotient as u32
                } else {
                    100
                };
                let known = match self.last_percent {
                    Some(last) => last == percent,
                    None => false,
                };
                if known {
                    (more, None)
                } else {
                    (
                        Tally { total: self.total, downloaded, last_percent: Some(percent) },
                        Some(percent),
                    )
                }
            },
            None => (more, None),
        }
    }
}

/// A download, by what its caller is to do next.
pub enum Download {
    /// The request is to be sent.
    Requesting,
    /// The directory of the destination is to be created.
    CreatingParent(Option<u64>),
    /// The destination is to be created.
    CreatingFile(Option<u64>),
    /// The next chunk is to be read.
    Reading(Tally),
    /// A chunk is to be written.
    Writing(Tally, Vec<u8>),
    /// A percentage is to be reported.
    Reporting(Tally, u32),
    /// The destination is to be flushed.
    Flushing,
    /// Nothing is left to do.
    Finished(Result<(), String>),
}

/// What the caller of a download reports.
pub enum DownloadEvent {
    /// The server answered, with this `Content-Length`.
    Responded(Option<String>),
    /// What was to be done is done.
    Done,
    /// This was read; nothing, at the end of the response.
    Chunk(Vec<u8>),
    /// What was to be done failed, with this error.
    Failed(String),
}

/// A download by its texts and bytes.
pub enum DownloadView {
    Requesting,
    CreatingParent(Option<u64>),
    CreatingFile(Option<u64>),
    Reading(Tally),
    Writing(Tally, Seq<u8>),
    Reporting(Tally, u32),
    Flushing,
    Finished(Result<(), Seq<char>>),
}

/// A report by its texts and bytes.
pub enum DownloadEventView {
    Responded(Option<Seq<char>>),
    Done,
    Chunk(Seq<u8>),
    Failed(Seq<char>),
}

impl View for Download {
    type V = DownloadView;

    open spec fn view(&self) -> DownloadView {
        match *self {
            Download::Requesting => DownloadView::Requesting,
            Download::CreatingParent(total) => DownloadView::CreatingParent(total),
            Download::CreatingFile(total) => DownloadView::CreatingFile(total),
            Download::Reading(tally) => DownloadView::Reading(tally),
            Download::Writing(tally, chunk) => DownloadView::Writing(tally, chunk@),
            Download::Reporting(tally, percent) => DownloadView::Reporting(tally, percent),
            Download::Flushing => DownloadView::Flushing,
            Download::Finished(Ok(_)) => DownloadView::Finished(Ok(())),
            Download::Finished(Err(message)) => DownloadView::Finished(Err(message@)),
        }
    }
}

impl View for DownloadEvent {
    type V = DownloadEventView;

    open spec fn view(&self) -> DownloadEventView {
        match *self {
            DownloadEvent::Responded(Some(header)) => DownloadEventView::Responded(Some(header@)),
            DownloadEvent::Responded(None) => DownloadEventView::Responded(None),
            DownloadEvent::Done => DownloadEventView::Done,
            DownloadEvent::Chunk(chunk) => DownloadEventView::Chunk(chunk@),
            DownloadEvent::Failed(error) => DownloadEventView::Failed(error@),
        }
    }
}

/// The download failed, and this is why.
pub open spec fn download_failed(context: &str, error: Seq<char>) -> DownloadView {
    DownloadView::Finished(Err(context@ + error))
}

/// What becomes of a download after `event`. A report that does not answer what
/// was to be done changes nothing.
pub open spec fn download_next(state: DownloadView, event: DownloadEventView) -> DownloadView {
    match (state, event) {
        (DownloadView::Requesting, DownloadEventView::Responded(header)) => {
            DownloadView::CreatingParent(
                match announced_length(header) {
                    Some(length) => Some(length as u64),
                    None => None,
                },
            )
        },
        (DownloadView::Requesting, DownloadEventView::Failed(e)) => download_failed("download failed: ", e),
        (DownloadView::CreatingParent(total), DownloadEventView::Done) => DownloadView::CreatingFile(total),
        (DownloadView::CreatingParent(_), DownloadEventView::Failed(e)) => download_failed("mkdir: ", e),
        (DownloadView::CreatingFile(total), DownloadEventView::Done) => {
            DownloadView::Reading(Tally { total, downloaded: 0, last_percent: None })
        },
        (DownloadView::CreatingFile(_), DownloadEventView::Failed(e)) => download_failed("create file: ", e),
        (DownloadView::Reading(tally), DownloadEventView::Chunk(chunk)) => {
            if chunk.len() == 0 {
                DownloadView::Flushing
            } else {
                DownloadView::Writing(tally, chunk)
            }
        },
        (DownloadView::Reading(_), DownloadEventView::Failed(e)) => download_failed("read: ", e),
        (DownloadView::Writing(tally, chunk), DownloadEventView::Done) => {
            match counted(tally, chunk.len()) {
                (more, Some(percent)) => DownloadView::Reporting(more, percent),
                (more, None) => DownloadView::Reading(more),
            }
        },
        (DownloadView::Writing(_, _), DownloadEventView::Failed(e)) => download_failed("write: ", e),
        (DownloadView::Reporting(tally, _), DownloadEventView::Done) => DownloadView::Reading(tally),
        (DownloadView::Flushing, DownloadEventView::Done) => DownloadView::Finished(Ok(())),
        (DownloadView::Flushing, DownloadEventView::Failed(e)) => download_failed("flush: ", e),
        _ => state,
    }
}

impl Download {
    /// A download that has not started.
    pub fn start() -> (res: Download)
        ensures
            res@ == DownloadView::Requesting,
    {
        Download::Requesting
    }

    /// What becomes of the download after `event`.
    pub fn advance(self, event: DownloadEvent) -> (res: Download)
        requires
            match (self@, event@) {
                (DownloadView::Writing(tally, chunk), DownloadEventView::Done) => countable(
                    tally,
                    chunk.len(),
                ),
                _ => true,
            },
        ensures
            res@ == download_next(self@, event@),
    {
        match event {
            DownloadEvent::Responded(header) => match self {
                Download::Requesting => match header {
                    Some(value) => Download::CreatingParent(content_length(Some(value.as_str()))),
                    None => Download::CreatingParent(None),
                },
                other => other,
            },
            DownloadEvent::Done => match self {
                Download::CreatingParent(total) => Download::CreatingFile(total),
                Download::CreatingFile(total) => Download::Reading(Tally::new(total)),
                Download::Writing(tally, chunk) => match tally.count(chunk.len()) {
                    (more, Some(percent)) => Download::Reporting(more, percent),
                    (more, None) => Download::Reading(more),
                },
                Download::Reporting(tally, _) => Download::Reading(tally),
                Download::Flushing => Download::Finished(Ok(())),
                other => other,
            },
            DownloadEvent::Chunk(chunk) => match self {
                Download::Reading(tally) => {
                    if chunk.len() == 0 {
                        Download::Flushing
                    } else {
                        Download::Writing(tally, chunk)
                    }
                },
                other => other,
            },
            DownloadEvent::Failed(error) => {
                let context = match &self {
                    Download::Requesting => "download failed: ",
                    Download::CreatingParent(_) => "mkdir: ",
                    Download::CreatingFile(_) => "create file: ",
                    Download::Reading(_) => "read: ",
                    Download::Writing(_, _) => "write: ",
                    Download::Flushing => "flush: ",
                    Download::Reporting(_, _) => {
                        return self;
                    },
                    Download::Finished(_) => {
                        return self;
                    },
                };
                Download::Finished(Err(concat(context, error.as_str())))
            },
        }
    }
}

} // verus!
