use deepseek_desktop::launch::{launch_args, sidecar_args, Launch, LaunchEvent};
use deepseek_desktop::manifest::RuntimeManifest;
use std::path::{Path, PathBuf};

fn manifest() -> RuntimeManifest {
    RuntimeManifest { version: "0.1.0".to_string(), url: "u".to_string(), sha256: "s".to_string() }
}

fn runtime() -> PathBuf {
    PathBuf::from("/data/runtime")
}

fn failure(launch: Launch) -> Option<String> {
    match launch {
        Launch::Failed(message) => Some(message),
        _ => None,
    }
}

fn no() -> String {
    "no".to_string()
}

#[test]
fn launch_runs_through() {
    let launch = Launch::start().advance(LaunchEvent::Parsed(Ok(manifest())));
    assert!(matches!(&launch, Launch::Installing(manifest) if manifest.version == "0.1.0"));
    let launch = launch.advance(LaunchEvent::Installed(Ok(runtime())));
    assert!(matches!(&launch, Launch::ReservingPort(path) if *path == runtime()));
    let launch = launch.advance(LaunchEvent::Reserved(Ok(4173)));
    assert!(matches!(&launch, Launch::LocatingNode(path, 4173) if *path == runtime()));
    let launch = launch.advance(LaunchEvent::Located(Ok(())));
    assert!(matches!(&launch, Launch::Spawning(path, 4173) if *path == runtime()));
    let launch = launch.advance(LaunchEvent::Spawned(Ok(())));
    assert!(matches!(launch, Launch::Running(4173)));
    assert!(matches!(launch.advance(LaunchEvent::Spawned(Err(no()))), Launch::Running(4173)));
}

#[test]
fn each_failed_step_is_named() {
    let cases = [
        (Launch::start(), LaunchEvent::Parsed(Err(no())), "bad runtime manifest: no"),
        (Launch::Installing(manifest()), LaunchEvent::Installed(Err(no())), "no"),
        (Launch::Installing(manifest()), LaunchEvent::Panicked(no()), "runtime bootstrap panicked: no"),
        (Launch::ReservingPort(runtime()), LaunchEvent::Reserved(Err(no())), "failed to reserve a loopback port: no"),
        (Launch::LocatingNode(runtime(), 1), LaunchEvent::Located(Err(no())), "failed to locate node sidecar: no"),
        (Launch::Spawning(runtime(), 1), LaunchEvent::Spawned(Err(no())), "failed to spawn sidecar: no"),
    ];
    for (launch, event, message) in cases {
        assert_eq!(failure(launch.advance(event)), Some(message.to_string()));
    }
}

#[test]
fn a_failed_launch_stays_failed() {
    let failed = Launch::Failed(no()).advance(LaunchEvent::Parsed(Ok(manifest())));
    assert_eq!(failure(failed), Some(no()));
}

#[test]
fn nothing_is_started_before_it_is_installed() {
    let launch = Launch::start().advance(LaunchEvent::Spawned(Ok(())));
    assert!(matches!(launch, Launch::ParsingManifest));
    let launch = Launch::Installing(manifest()).advance(LaunchEvent::Reserved(Ok(1)));
    assert!(matches!(launch, Launch::Installing(_)));
}

#[test]
fn arguments_for_node() {
    let expected = vec!["/rt/node-app/lib/bin.js", "--profile", "web", "--host", "127.0.0.1", "--port", "4173"];
    assert_eq!(sidecar_args("/rt/node-app/lib/bin.js".to_string(), 4173), expected);
    assert_eq!(launch_args(Path::new("/rt"), 4173), expected);
}
