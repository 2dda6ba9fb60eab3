use deepseek_desktop::sidecar::{
    announce_ready, exit_message, get_sidecar_url, on_probed, on_stdout, Monitor, Notice, SidecarEvent, SidecarState,
    TAIL_LIMIT,
};

type State = SidecarState<u32>;

fn shown(notice: Option<Notice>) -> String {
    match notice {
        Some(Notice::Ready(url)) => format!("ready {url}"),
        Some(Notice::Error(message)) => format!("error {message}"),
        None => "nothing".to_string(),
    }
}

#[test]
fn child_is_taken_once() {
    let mut state = State::default();
    assert!(state.child.is_none());
    assert!(state.url.is_none());
    assert_eq!(state.take_child(), None);
    state.attach(7);
    assert_eq!(state.take_child(), Some(7));
    assert_eq!(state.take_child(), None);
}

#[test]
fn ready_is_announced_once() {
    let mut state = State::default();
    let mut announced = false;
    assert_eq!(get_sidecar_url(&state), None);
    assert_eq!(announce_ready(&mut state, &mut announced, "a".to_string()), Some("a".to_string()));
    assert!(announced);
    assert_eq!(announce_ready(&mut state, &mut announced, "b".to_string()), None);
    assert!(announced);
    assert_eq!(get_sidecar_url(&state), Some("a".to_string()));
}

#[test]
fn banner_then_probe() {
    let mut state = State::default();
    let mut announced = false;
    assert_eq!(
        shown(on_stdout(&mut state, &mut announced, "dsh web: http://localhost:9 (LAN: x)")),
        "ready http://localhost:9"
    );
    assert_eq!(shown(on_probed(&mut state, &mut announced, 9)), "nothing");
    assert_eq!(get_sidecar_url(&state), Some("http://localhost:9".to_string()));
}

#[test]
fn probe_then_banner() {
    let mut state = State::default();
    let mut announced = false;
    assert_eq!(shown(on_probed(&mut state, &mut announced, 9)), "ready http://127.0.0.1:9");
    assert_eq!(shown(on_stdout(&mut state, &mut announced, "dsh web: http://127.0.0.1:9")), "nothing");
    assert_eq!(get_sidecar_url(&state), Some("http://127.0.0.1:9".to_string()));
}

#[test]
fn bytes_of_standard_output_are_read_as_text() {
    let mut state = State::default();
    let mut announced = false;
    let mut monitor = Monitor::new();
    let reaction = monitor.react(&mut state, &mut announced, SidecarEvent::Stdout(b"starting\n".to_vec()));
    assert_eq!(shown(reaction.notice), "nothing");
    assert!(!reaction.stop && !announced);
    let reaction =
        monitor.react(&mut state, &mut announced, SidecarEvent::Stdout(b"dsh web: http://127.0.0.1:80 \xff".to_vec()));
    assert_eq!(shown(reaction.notice), "ready http://127.0.0.1:80");
    assert!(!reaction.stop && announced);
}

#[test]
fn invalid_bytes_become_replacement_characters() {
    let mut state = State::default();
    let mut announced = false;
    let mut monitor = Monitor::new();
    monitor.react(&mut state, &mut announced, SidecarEvent::Stderr(b"bad \xff byte".to_vec()));
    let reaction = monitor.react(&mut state, &mut announced, SidecarEvent::Terminated(None));
    assert_eq!(
        shown(reaction.notice),
        "error harness sidecar exited before starting (code=None): bad \u{fffd} byte"
    );
}

#[test]
fn error_is_announced_once() {
    let mut state = State::default();
    let mut announced = false;
    let mut monitor = Monitor::new();
    let reaction = monitor.react(&mut state, &mut announced, SidecarEvent::Error("pipe".to_string()));
    assert_eq!(shown(reaction.notice), "error harness sidecar error: pipe");
    assert!(!reaction.stop && announced);
    let reaction = monitor.react(&mut state, &mut announced, SidecarEvent::Terminated(Some(1)));
    assert_eq!(shown(reaction.notice), "nothing");
    assert!(reaction.stop);
    assert_eq!(shown(on_probed(&mut state, &mut announced, 9)), "nothing");
    assert_eq!(get_sidecar_url(&state), None);
}

#[test]
fn nothing_is_said_of_an_end_after_ready() {
    let mut state = State::default();
    let mut announced = false;
    let mut monitor = Monitor::new();
    on_probed(&mut state, &mut announced, 1);
    let reaction = monitor.react(&mut state, &mut announced, SidecarEvent::Error("late".to_string()));
    assert_eq!(shown(reaction.notice), "nothing");
    let reaction = monitor.react(&mut state, &mut announced, SidecarEvent::Terminated(Some(0)));
    assert_eq!(shown(reaction.notice), "nothing");
    assert!(reaction.stop);
    assert_eq!(get_sidecar_url(&state), Some("http://127.0.0.1:1".to_string()));
}

#[test]
fn readiness_is_never_announced_after_a_failure() {
    let mut state = State::default();
    let mut announced = false;
    let mut monitor = Monitor::new();
    let reaction = monitor.react(&mut state, &mut announced, SidecarEvent::Terminated(Some(1)));
    assert_eq!(shown(reaction.notice), "error harness sidecar exited before starting (code=Some(1))");
    let banner = SidecarEvent::Stdout(b"dsh web: http://127.0.0.1:80".to_vec());
    assert_eq!(shown(monitor.react(&mut state, &mut announced, banner).notice), "nothing");
    assert_eq!(shown(on_probed(&mut state, &mut announced, 80)), "nothing");
    assert_eq!(get_sidecar_url(&state), None);
}

#[test]
fn other_events_change_nothing() {
    let mut state = State::default();
    let mut announced = false;
    let reaction = Monitor::new().react(&mut state, &mut announced, SidecarEvent::Other);
    assert_eq!(shown(reaction.notice), "nothing");
    assert!(!reaction.stop && !announced);
}

#[test]
fn exit_messages() {
    let none: Vec<String> = Vec::new();
    assert_eq!(exit_message(Some(1), &none), "harness sidecar exited before starting (code=Some(1))");
    assert_eq!(exit_message(Some(-1), &none), "harness sidecar exited before starting (code=Some(-1))");
    assert_eq!(exit_message(None, &none), "harness sidecar exited before starting (code=None)");
    assert_eq!(
        exit_message(Some(137), &vec!["  \n".to_string(), "\t".to_string()]),
        "harness sidecar exited before starting (code=Some(137))"
    );
    assert_eq!(
        exit_message(Some(1), &vec!["\nTypeError: ".to_string(), "x is undefined\n".to_string()]),
        "harness sidecar exited before starting (code=Some(1)): TypeError: x is undefined"
    );
}

#[test]
fn only_the_end_of_standard_error_is_kept() {
    assert_eq!(TAIL_LIMIT, 20);
    for count in [0usize, 1, 19, 20, 21, 50] {
        let mut state = State::default();
        let mut announced = false;
        let mut monitor = Monitor::new();
        let lines: Vec<String> = (0..count).map(|n| format!("line {n}\n")).collect();
        for line in &lines {
            monitor.react(&mut state, &mut announced, SidecarEvent::Stderr(line.as_bytes().to_vec()));
        }
        let tail = lines[count.saturating_sub(20)..].join("").trim().to_string();
        let expected = if tail.is_empty() {
            "error harness sidecar exited before starting (code=Some(2))".to_string()
        } else {
            format!("error harness sidecar exited before starting (code=Some(2)): {tail}")
        };
        let reaction = monitor.react(&mut state, &mut announced, SidecarEvent::Terminated(Some(2)));
        assert_eq!(shown(reaction.notice), expected);
    }
}
