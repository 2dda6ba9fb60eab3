//! What holds of every download, whatever the server sends and however it is cut
//! into chunks.

use crate::download::{
    countable, counted, download_next, percent_of, Download, DownloadEvent, DownloadEventView, DownloadView, Tally,
};
use crate::http::{announced_length, law_header_announces_its_number};
use vstd::prelude::*;

verus! {

/// The state of a download after `events`.
pub open spec fn download_after(events: Seq<DownloadEventView>) -> DownloadView
    decreases events.len(),
{
    if events.len() == 0 {
        DownloadView::Requesting
    } else {
        download_next(download_after(events.drop_last()), events.last())
    }
}

/// The bytes that were read, in order.
pub open spec fn read_bytes(events: Seq<DownloadEventView>) -> Seq<u8>
    decreases events.len(),
{
    if events.len() == 0 {
        Seq::empty()
    } else {
        let before = read_bytes(events.drop_last());
        match (download_after(events.drop_last()), events.last()) {
            (DownloadView::Reading(_), DownloadEventView::Chunk(chunk)) => before + chunk,
            _ => before,
        }
    }
}

/// The bytes that were written, in order.
pub open spec fn written_bytes(events: Seq<DownloadEventView>) -> Seq<u8>
    decreases events.len(),
{
    if events.len() == 0 {
        Seq::empty()
    } else {
        let before = written_bytes(events.drop_last());
        match (download_after(events.drop_last()), events.last()) {
            (DownloadView::Writing(_, chunk), DownloadEventView::Done) => before + chunk,
            _ => before,
        }
    }
}

/// The percentages that were reported, in order.
pub open spec fn reports(events: Seq<DownloadEventView>) -> Seq<u32>
    decreases events.len(),
{
    if events.len() == 0 {
        Seq::empty()
    } else {
        let before = reports(events.drop_last());
        match (download_after(events.drop_last()), events.last()) {
            (DownloadView::Reporting(_, percent), DownloadEventView::Done) => before.push(percent),
            _ => before,
        }
    }
}

/// The length that the server announced.
pub open spec fn announced_total(events: Seq<DownloadEventView>) -> Option<u64>
    decreases events.len(),
{
    if events.len() == 0 {
        None
    } else {
        match (download_after(events.drop_last()), download_after(events)) {
            (DownloadView::Requesting, DownloadView::CreatingParent(total)) => total,
            _ => announced_total(events.drop_last()),
        }
    }
}

/// Whether everything that was written could be counted in 64 bits.
pub open spec fn all_countable(events: Seq<DownloadEventView>) -> bool
    decreases events.len(),
{
    events.len() == 0 || {
        &&& all_countable(events.drop_last())
        &&& match (download_after(events.drop_last()), events.last()) {
            (DownloadView::Writing(tally, chunk), DownloadEventView::Done) => countable(
                tally,
                chunk.len(),
            ),
            _ => true,
        }
    }
}

/// Whether each number is greater than the one before.
pub open spec fn increasing(s: Seq<u32>) -> bool {
    forall|i: int, j: int| 0 <= i < j < s.len() ==> s[i] < s[j]
}

/// The percentage that the last report should have given after `n` bytes.
pub open spec fn due_percent(total: Option<u64>, n: nat) -> Option<u32> {
    match total {
        Some(total) => if total > 0 && n > 0 {
            Some(percent_of(n, total as nat) as u32)
        } else {
            None
        },
        None => None,
    }
}

/// Whether the reports so far are those that are due.
pub open spec fn reports_are_due(sent: Seq<u32>, due: Option<u32>) -> bool {
    &&& increasing(sent)
    &&& forall|i: int| 0 <= i < sent.len() ==> sent[i] <= 100
    &&& match due {
        Some(percent) => sent.len() > 0 && sent.last() == percent,
        None => sent.len() == 0,
    }
}

spec fn consistent(events: Seq<DownloadEventView>) -> bool {
    let read = read_bytes(events);
    let written = written_bytes(events);
    let sent = reports(events);
    let total = announced_total(events);
    match download_after(events) {
        DownloadView::Requesting => read.len() == 0 && written.len() == 0 && sent.len() == 0 && total is None,
        DownloadView::CreatingParent(t) => read.len() == 0 && written.len() == 0 && sent.len() == 0 && total == t,
        DownloadView::CreatingFile(t) => read.len() == 0 && written.len() == 0 && sent.len() == 0 && total == t,
        DownloadView::Reading(tally) => {
            &&& read == written
            &&& tally_fits(tally, total, written.len())
            &&& reports_are_due(sent, due_percent(total, written.len()))
        },
        DownloadView::Writing(tally, chunk) => {
            &&& chunk.len() > 0
            &&& read == written + chunk
            &&& tally_fits(tally, total, written.len())
            &&& reports_are_due(sent, due_percent(total, written.len()))
        },
        DownloadView::Reporting(tally, percent) => {
            &&& read == written
            &&& tally_fits(tally, total, written.len())
            &&& due_percent(total, written.len()) == Some(percent)
            &&& reports_are_due(sent.push(percent), Some(percent))
        },
        DownloadView::Flushing => {
            &&& read == written
            &&& reports_are_due(sent, due_percent(total, written.len()))
        },
        DownloadView::Finished(Ok(_)) => {
            &&& read == written
            &&& reports_are_due(sent, due_percent(total, written.len()))
        },
        DownloadView::Finished(Err(_)) => {
            &&& written.is_prefix_of(read)
            &&& increasing(sent)
            &&& forall|i: int| 0 <= i < sent.len() ==> sent[i] <= 100
        },
    }
}

spec fn tally_fits(tally: Tally, total: Option<u64>, n: nat) -> bool {
    tally.total == total && tally.downloaded == n && tally.last_percent == due_percent(total, n)
}

proof fn lemma_percent_monotone(a: nat, b: nat, total: nat)
    requires
        a <= b,
        total > 0,
    ensures
        percent_of(a, total) <= percent_of(b, total) <= 100,
{
    assert(a * 100 / total <= b * 100 / total) by {
        vstd::arithmetic::div_mod::lemma_div_is_ordered((a * 100) as int, (b * 100) as int, total as int);
    }
}

proof fn lemma_consistent(events: Seq<DownloadEventView>)
    requires
        all_countable(events),
    ensures
        consistent(events),
    decreases events.len(),
{
    if events.len() > 0 {
        let prior = events.drop_last();
        lemma_consistent(prior);
        let written = written_bytes(prior);
        let sent = reports(prior);
        let total = announced_total(prior);
        match (download_after(prior), events.last()) {
            (DownloadView::Reading(tally), DownloadEventView::Chunk(chunk)) => {
                if chunk.len() == 0 {
                    assert(read_bytes(events) == read_bytes(prior));
                }
            },
            (DownloadView::Writing(tally, chunk), DownloadEventView::Done) => {
                let n = written.len() + chunk.len();
                assert(written_bytes(events).len() == n);
                match total {
                    Some(t) => {
                        if t > 0 {
                            lemma_percent_monotone(written.len(), n, t as nat);
                            let percent = percent_of(n, t as nat) as u32;
                            if tally.last_percent != Some(percent) {
                                assert(download_after(events) matches DownloadView::Reporting(_, p) && p == percent);
                                let next = sent.push(percent);
                                assert forall|i: int, j: int| 0 <= i < j < next.len() implies next[i]
                                    < next[j] by {
                                    if j == sent.len() {
                                        assert(sent[i] <= sent.last());
                                    }
                                }
                            }
                        }
                    },
                    None => {},
                }
            },
            (_, DownloadEventView::Failed(e)) => {
                assert(written.is_prefix_of(read_bytes(prior)));
            },
            (DownloadView::CreatingFile(_), DownloadEventView::Done) => {
                assert(read_bytes(events) == written_bytes(events));
            },
            _ => {},
        }
    }
}

/// A download that finishes has written exactly the bytes that it read.
pub proof fn law_download_is_faithful(events: Seq<DownloadEventView>)
    requires
        all_countable(events),
        download_after(events) == DownloadView::Finished(Ok(())),
    ensures
        written_bytes(events) == read_bytes(events),
{
    lemma_consistent(events);
}

/// A download that failed has written no more than a prefix of what it read.
pub proof fn law_failed_download_is_a_prefix(events: Seq<DownloadEventView>)
    requires
        all_countable(events),
        download_after(events) matches DownloadView::Finished(Err(_)),
    ensures
        written_bytes(events).is_prefix_of(read_bytes(events)),
{
    lemma_consistent(events);
}

/// The reported percentages are at most 100 and each is greater than the one before.
pub proof fn law_reports_increase(events: Seq<DownloadEventView>)
    requires
        all_countable(events),
    ensures
        increasing(reports(events)),
        forall|i: int| 0 <= i < reports(events).len() ==> reports(events)[i] <= 100,
{
    lemma_consistent(events);
    match download_after(events) {
        DownloadView::Reporting(tally, percent) => {
            let sent = reports(events);
            assert forall|i: int, j: int| 0 <= i < j < sent.len() implies sent[i] < sent[j] by {
                assert(sent.push(percent)[i] < sent.push(percent)[j]);
            }
            assert forall|i: int| 0 <= i < sent.len() implies sent[i] <= 100 by {
                assert(sent.push(percent)[i] <= 100);
            }
        },
        _ => {},
    }
}

/// A finished download of a known, non-zero length reported last how much of it
/// arrived; where all of it did, that is 100.
pub proof fn law_full_download_reports_100(events: Seq<DownloadEventView>)
    requires
        all_countable(events),
        download_after(events) == DownloadView::Finished(Ok(())),
        announced_total(events) matches Some(total) && total > 0,
        read_bytes(events).len() > 0,
    ensures
        reports(events).len() > 0,
        reports(events).last() == percent_of(
            read_bytes(events).len(),
            announced_total(events)->0 as nat,
        ),
        read_bytes(events).len() >= announced_total(events)->0 ==> reports(events).last() == 100,
{
    lemma_consistent(events);
    let n = read_bytes(events).len();
    let total = announced_total(events)->0 as nat;
    if n >= total {
        lemma_percent_monotone(total, n, total);
        assert(total * 100 / total == 100) by (nonlinear_arith)
            requires
                total > 0,
        ;
    }
    lemma_percent_monotone(n, n, total);
}

/// A download of unknown or zero length reports nothing.
pub proof fn law_unknown_length_reports_nothing(events: Seq<DownloadEventView>)
    requires
        all_countable(events),
        download_after(events) == DownloadView::Finished(Ok(())),
        announced_total(events) is None || announced_total(events) == Some(0u64),
    ensures
        reports(events).len() == 0,
{
    lemma_consistent(events);
}

/// The percentage is the share of the bytes in hundredths, rounded down; it is 100 where
/// all have arrived, or more than were announced, and only then.
pub proof fn law_percentage_is_the_share(n: nat, total: nat)
    requires
        total > 0,
    ensures
        n <= total ==> percent_of(n, total) * total <= n * 100 && n * 100 < (percent_of(n, total) + 1) * total,
        percent_of(n, total) <= 100,
        percent_of(n, total) == 100 <==> n >= total,
{
    let q = n * 100 / total;
    assert(q * total <= n * 100 && n * 100 < (q + 1) * total) by (nonlinear_arith)
        requires
            total > 0,
            q == n * 100 / total,
    ;
    if n >= total {
        assert(q >= 100) by (nonlinear_arith)
            requires
                n >= total,
                n * 100 < (q + 1) * total,
                total > 0,
        ;
        if n == total {
            assert(q == 100) by (nonlinear_arith)
                requires
                    n == total,
                    q * total <= n * 100,
                    q >= 100,
                    total > 0,
            ;
        }
    } else {
        assert(q < 100) by (nonlinear_arith)
            requires
                n < total,
                q * total <= n * 100,
        ;
    }
}

/// Whether `percent` is how much `n` bytes are of `total`, in hundredths, rounded down,
/// at most 100.
pub open spec fn is_share(percent: u32, n: nat, total: nat) -> bool {
    if n >= total {
        percent == 100
    } else {
        percent * total <= n * 100 && n * 100 < (percent + 1) * total
    }
}

/// Counting adds the bytes and changes nothing of the announced length. Where that is
/// known and not zero, the percentage that is kept is the share that has arrived, and it
/// is reported exactly where another one was kept before; otherwise nothing is reported.
pub proof fn law_counting(tally: Tally, n: nat)
    requires
        countable(tally, n),
    ensures
        ({
            let (more, report) = counted(tally, n);
            &&& more.downloaded == tally.downloaded + n
            &&& more.total == tally.total
            &&& (tally.total is None || tally.total == Some(0u64)) ==> report is None && more.last_percent
                == tally.last_percent
            &&& (tally.total is Some && tally.total->0 > 0) ==> {
                &&& more.last_percent is Some
                &&& is_share(more.last_percent->0, (tally.downloaded + n) as nat, tally.total->0 as nat)
                &&& report == (if tally.last_percent == more.last_percent {
                    None
                } else {
                    more.last_percent
                })
            }
        }),
{
    match tally.total {
        Some(total) => {
            if total > 0 {
                law_percentage_is_the_share((tally.downloaded + n) as nat, total as nat);
            }
        },
        None => {},
    }
}

/// Bytes can be counted exactly where their number fits in 64 bits, and a hundred times
/// that number too where a percentage is computed.
pub proof fn law_what_can_be_counted(tally: Tally, n: nat)
    ensures
        tally.downloaded + n > u64::MAX ==> !countable(tally, n),
        (tally.downloaded + n) * 100 <= u64::MAX ==> countable(tally, n),
        (tally.total is None || tally.total == Some(0u64)) && tally.downloaded + n <= u64::MAX ==> countable(tally, n),
        (tally.total is Some && tally.total->0 > 0) && (tally.downloaded + n) * 100 > u64::MAX ==> !countable(tally, n),
{
}

/// Whenever another chunk is read, and at the end, the last report was the share of the
/// announced length that was written until then.
pub proof fn law_last_report_is_the_share(events: Seq<DownloadEventView>)
    requires
        all_countable(events),
        announced_total(events) matches Some(total) && total > 0,
        written_bytes(events).len() > 0,
        ({
            let state = download_after(events);
            ||| state is Reading
            ||| state is Flushing
            ||| state matches DownloadView::Finished(Ok(_))
        }),
    ensures
        reports(events).len() > 0,
        is_share(reports(events).last(), written_bytes(events).len(), announced_total(events)->0 as nat),
{
    lemma_consistent(events);
    law_percentage_is_the_share(written_bytes(events).len(), announced_total(events)->0 as nat);
}

/// What a download does, in order: it takes the announced length from the header, then
/// the destination is made, and then each chunk that is read is written as it is, until
/// an empty one says that nothing is left but to flush.
pub proof fn law_download_goes_on(header: Option<Seq<char>>, total: Option<u64>, tally: Tally, chunk: Seq<u8>, percent: u32)
    ensures
        download_next(DownloadView::Requesting, DownloadEventView::Responded(header)) matches DownloadView::CreatingParent(
            announced,
        ) && (announced is Some <==> announced_length(header) is Some) && (announced is Some ==> announced->0
            == announced_length(header)->0),
        download_next(DownloadView::CreatingParent(total), DownloadEventView::Done) == DownloadView::CreatingFile(total),
        download_next(DownloadView::CreatingFile(total), DownloadEventView::Done) == DownloadView::Reading(
            Tally { total, downloaded: 0, last_percent: None },
        ),
        chunk.len() > 0 ==> download_next(DownloadView::Reading(tally), DownloadEventView::Chunk(chunk))
            == DownloadView::Writing(tally, chunk),
        chunk.len() == 0 ==> download_next(DownloadView::Reading(tally), DownloadEventView::Chunk(chunk))
            == DownloadView::Flushing,
        download_next(DownloadView::Writing(tally, chunk), DownloadEventView::Done) == (match counted(tally, chunk.len()).1 {
            Some(due) => DownloadView::Reporting(counted(tally, chunk.len()).0, due),
            None => DownloadView::Reading(counted(tally, chunk.len()).0),
        }),
        download_next(DownloadView::Reporting(tally, percent), DownloadEventView::Done) == DownloadView::Reading(tally),
        download_next(DownloadView::Flushing, DownloadEventView::Done) == DownloadView::Finished(Ok(())),
{
    match header {
        Some(value) => law_header_announces_its_number(value, 0),
        None => {},
    }
}

/// What is said in front of the error where what is to be done fails; `None` where it
/// cannot fail.
pub open spec fn download_context(state: DownloadView) -> Option<Seq<char>> {
    match state {
        DownloadView::Requesting => Some("download failed: "@),
        DownloadView::CreatingParent(_) => Some("mkdir: "@),
        DownloadView::CreatingFile(_) => Some("create file: "@),
        DownloadView::Reading(_) => Some("read: "@),
        DownloadView::Writing(_, _) => Some("write: "@),
        DownloadView::Flushing => Some("flush: "@),
        DownloadView::Reporting(_, _) | DownloadView::Finished(_) => None,
    }
}

/// Whatever fails ends the download, with a text that says what failed and then the
/// whole error.
pub proof fn law_download_failures_are_named(state: DownloadView, error: Seq<char>)
    ensures
        download_next(state, DownloadEventView::Failed(error)) == (match download_context(state) {
            Some(context) => DownloadView::Finished(Err(context + error)),
            None => state,
        }),
{
}

/// Whether `event` answers what was to be done.
pub open spec fn download_answers(state: DownloadView, event: DownloadEventView) -> bool {
    match event {
        DownloadEventView::Responded(_) => state is Requesting,
        DownloadEventView::Chunk(_) => state is Reading,
        DownloadEventView::Failed(_) => download_context(state) is Some,
        DownloadEventView::Done => !(state is Requesting || state is Reading || state is Finished),
    }
}

/// A report that does not answer what was to be done changes nothing; one that does
/// always leads on.
pub proof fn law_download_takes_answers_only(state: DownloadView, event: DownloadEventView)
    ensures
        download_next(state, event) == state <==> !download_answers(state, event),
{
}

/// A download and what is reported of it are known by their bytes and texts as they
/// stand.
pub proof fn law_download_is_taken_whole(tally: Tally, chunk: Vec<u8>, text: String, total: Option<u64>, percent: u32)
    ensures
        Download::Requesting@ == DownloadView::Requesting,
        Download::CreatingParent(total)@ == DownloadView::CreatingParent(total),
        Download::CreatingFile(total)@ == DownloadView::CreatingFile(total),
        Download::Reading(tally)@ == DownloadView::Reading(tally),
        Download::Writing(tally, chunk)@ == DownloadView::Writing(tally, chunk@),
        Download::Reporting(tally, percent)@ == DownloadView::Reporting(tally, percent),
        Download::Flushing@ == DownloadView::Flushing,
        Download::Finished(Ok(()))@ == DownloadView::Finished(Ok(())),
        Download::Finished(Err(text))@ == DownloadView::Finished(Err(text@)),
        DownloadEvent::Responded(Some(text))@ == DownloadEventView::Responded(Some(text@)),
        DownloadEvent::Responded(None)@ == DownloadEventView::Responded(None),
        DownloadEvent::Done@ == DownloadEventView::Done,
        DownloadEvent::Chunk(chunk)@ == DownloadEventView::Chunk(chunk@),
        DownloadEvent::Failed(text)@ == DownloadEventView::Failed(text@),
{
}

} // verus!
