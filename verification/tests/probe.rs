use deepseek_desktop::probe::{
    Probe, ProbeEvent, ATTEMPT_TIMEOUT_MS, PROBE_TIMEOUT_MS, RESPONSE_BYTES, RETRY_DELAY_MS,
};

fn clock(now: u64, give_up: bool) -> ProbeEvent {
    ProbeEvent::Clock { now, deadline: PROBE_TIMEOUT_MS, give_up }
}

fn answer(text: &str) -> ProbeEvent {
    ProbeEvent::Answer(Some(text.as_bytes().to_vec()))
}

#[test]
fn limits() {
    assert_eq!(PROBE_TIMEOUT_MS, 600_000);
    assert_eq!(ATTEMPT_TIMEOUT_MS, 500);
    assert_eq!(RETRY_DELAY_MS, 300);
    assert_eq!(RESPONSE_BYTES, 64);
}

#[test]
fn retries_until_the_server_is_ready() {
    let mut probe = Probe::probe_http_ready();
    for reply in ["HTTP/1.1 400 Bad Request\r\n", "HTTP/1.1 300 x", "HTTP/1.1 199 x", "garbage", ""] {
        probe = probe.advance(clock(1, false));
        assert!(matches!(probe, Probe::Attempting));
        probe = probe.advance(answer(reply));
        assert!(matches!(probe, Probe::Waiting));
        probe = probe.advance(ProbeEvent::Waited);
        assert!(matches!(probe, Probe::Checking));
    }
    probe = probe.advance(clock(2, false)).advance(ProbeEvent::Answer(None));
    assert!(matches!(probe, Probe::Waiting));
    probe = probe.advance(ProbeEvent::Waited).advance(clock(3, false)).advance(answer("HTTP/1.1 200 OK\r\n"));
    assert!(matches!(probe, Probe::Finished(true)));
}

#[test]
fn gives_up_at_the_deadline() {
    let probe = Probe::probe_http_ready();
    assert!(matches!(probe.advance(clock(599_999, false)), Probe::Attempting));
    assert!(matches!(probe.advance(clock(600_000, false)), Probe::Finished(false)));
}

#[test]
fn gives_up_on_the_signal() {
    assert!(matches!(Probe::probe_http_ready().advance(clock(0, true)), Probe::Finished(false)));
}

#[test]
fn stays_as_it_is_once_over() {
    for over in [Probe::Finished(true), Probe::Finished(false)] {
        assert!(over.advance(clock(0, false)) == over);
        assert!(over.advance(answer("HTTP/1.1 200 OK")) == over);
        assert!(over.advance(ProbeEvent::Waited) == over);
    }
}

#[test]
fn an_answer_that_was_not_asked_for_is_ignored() {
    assert!(matches!(Probe::Checking.advance(answer("HTTP/1.1 200 OK")), Probe::Checking));
    assert!(matches!(Probe::Waiting.advance(answer("HTTP/1.1 200 OK")), Probe::Waiting));
    assert!(matches!(Probe::Attempting.advance(ProbeEvent::Waited), Probe::Attempting));
}
