use deepseek_desktop::download::{Download, DownloadEvent, Tally};

struct Outcome {
    written: Vec<u8>,
    reports: Vec<u32>,
    result: Result<(), String>,
}

/// Drive a download over a server that announces `length` and sends `chunks`.
fn serve(length: Option<&str>, chunks: &[&[u8]]) -> Outcome {
    let mut left: Vec<Vec<u8>> = chunks.iter().map(|chunk| chunk.to_vec()).collect();
    left.reverse();
    let mut written = Vec::new();
    let mut reports = Vec::new();
    let mut state = Download::start();
    loop {
        let event = match &state {
            Download::Requesting => DownloadEvent::Responded(length.map(str::to_string)),
            Download::CreatingParent(_) | Download::CreatingFile(_) | Download::Flushing => DownloadEvent::Done,
            Download::Reading(_) => DownloadEvent::Chunk(left.pop().unwrap_or_default()),
            Download::Writing(tally, chunk) => {
                assert!(tally.can_count(chunk.len()));
                written.extend_from_slice(chunk);
                DownloadEvent::Done
            }
            Download::Reporting(_, percent) => {
                reports.push(*percent);
                DownloadEvent::Done
            }
            Download::Finished(result) => {
                return Outcome { written, reports, result: result.clone() };
            }
        };
        state = state.advance(event);
    }
}

fn failing(state: Download) -> Option<String> {
    match state.advance(DownloadEvent::Failed("no".to_string())) {
        Download::Finished(Err(message)) => Some(message),
        _ => None,
    }
}

fn tally() -> Tally {
    Tally::new(Some(10))
}

/// A tiny tarball with the layout of the real closure (`node-app/lib/bin.js`).
fn make_tarball() -> Vec<u8> {
    let gz = flate2::write::GzEncoder::new(Vec::new(), flate2::Compression::default());
    let mut builder = tar::Builder::new(gz);
    let data = b"#!/usr/bin/env node\nconsole.log('hi');\n";
    let mut header = tar::Header::new_gnu();
    header.set_size(data.len() as u64);
    header.set_mode(0o755);
    header.set_cksum();
    builder.append_data(&mut header, "node-app/lib/bin.js", &data[..]).unwrap();
    builder.into_inner().unwrap().finish().unwrap()
}

#[test]
fn download_from_local_http_reports_progress() {
    let bytes = make_tarball();
    let length = bytes.len().to_string();
    for size in [1, 17, bytes.len()] {
        let chunks: Vec<&[u8]> = bytes.chunks(size).collect();
        let outcome = serve(Some(&length), &chunks);
        assert_eq!(outcome.result, Ok(()));
        assert_eq!(outcome.written, bytes);
        assert_eq!(outcome.reports.last().copied(), Some(100));
    }
}

#[test]
fn a_failed_write_leaves_a_prefix() {
    let mut state = Download::start();
    let mut written: Vec<u8> = Vec::new();
    let mut sent: Vec<u8> = Vec::new();
    let result = loop {
        let event = match &state {
            Download::Requesting => DownloadEvent::Responded(Some("100".to_string())),
            Download::Reading(_) => {
                let chunk = vec![sent.len() as u8; 10];
                sent.extend_from_slice(&chunk);
                DownloadEvent::Chunk(chunk)
            }
            Download::Writing(_, chunk) => {
                if written.len() == 30 {
                    DownloadEvent::Failed("disk full".to_string())
                } else {
                    written.extend_from_slice(chunk);
                    DownloadEvent::Done
                }
            }
            Download::Finished(result) => break result.clone(),
            _ => DownloadEvent::Done,
        };
        state = state.advance(event);
    };
    assert_eq!(result, Err("write: disk full".to_string()));
    assert_eq!(written.len(), 30);
    assert!(sent.starts_with(&written));
}

#[test]
fn reports_rise_and_do_not_repeat() {
    let bytes = [0u8; 1000];
    let chunks: Vec<&[u8]> = bytes.chunks(7).collect();
    let outcome = serve(Some("1000"), &chunks);
    assert!(outcome.reports.windows(2).all(|pair| pair[0] < pair[1]));
    assert_eq!(outcome.reports.first().copied(), Some(0));
    assert_eq!(outcome.reports.len(), 101);
}

#[test]
fn percentages_are_exact() {
    let outcome = serve(Some("3"), &[b"a", b"b", b"c"]);
    assert_eq!(outcome.reports, vec![33, 66, 100]);
    let outcome = serve(Some("3"), &[b"abc", b"more than announced"]);
    assert_eq!(outcome.reports, vec![100]);
    let outcome = serve(Some("4"), &[b"ab"]);
    assert_eq!(outcome.reports, vec![50]);
}

#[test]
fn nothing_is_reported_without_a_length() {
    for length in [None, Some("0"), Some("many")] {
        let outcome = serve(length, &[b"ab", b"c"]);
        assert_eq!(outcome.result, Ok(()));
        assert_eq!(outcome.written, b"abc");
        assert!(outcome.reports.is_empty());
    }
}

#[test]
fn an_empty_response_is_an_empty_file() {
    let outcome = serve(Some("5"), &[]);
    assert_eq!(outcome.result, Ok(()));
    assert!(outcome.written.is_empty());
    assert!(outcome.reports.is_empty());
}

#[test]
fn each_failure_is_named() {
    assert_eq!(failing(Download::Requesting), Some("download failed: no".to_string()));
    assert_eq!(failing(Download::CreatingParent(None)), Some("mkdir: no".to_string()));
    assert_eq!(failing(Download::CreatingFile(None)), Some("create file: no".to_string()));
    assert_eq!(failing(Download::Reading(tally())), Some("read: no".to_string()));
    assert_eq!(failing(Download::Writing(tally(), vec![1])), Some("write: no".to_string()));
    assert_eq!(failing(Download::Flushing), Some("flush: no".to_string()));
    assert_eq!(failing(Download::Reporting(tally(), 1)), None);
}

#[test]
fn a_report_out_of_turn_changes_nothing() {
    assert!(matches!(Download::start().advance(DownloadEvent::Done), Download::Requesting));
    assert!(matches!(Download::Flushing.advance(DownloadEvent::Chunk(vec![1])), Download::Flushing));
    assert!(matches!(
        Download::Finished(Ok(())).advance(DownloadEvent::Failed("late".to_string())),
        Download::Finished(Ok(()))
    ));
}

#[test]
fn tally_knows_its_limits() {
    let full = Tally { total: None, downloaded: u64::MAX, last_percent: None };
    assert!(full.can_count(0));
    assert!(!full.can_count(1));
    let large = Tally { total: Some(1), downloaded: u64::MAX / 100, last_percent: None };
    assert!(large.can_count(0));
    assert!(!large.can_count(1));
    let (more, percent) = tally().count(5);
    assert_eq!((more.downloaded, more.last_percent, percent), (5, Some(50), Some(50)));
    let (same, percent) = more.count(0);
    assert_eq!((same.downloaded, percent), (5, None));
}
