use deepseek_desktop::manifest::{
    baked_manifest, installed_version, is_installed, is_pinned_checksum, mismatch_message, RuntimeManifest,
};
use deepseek_desktop::progress::RuntimeProgress;

fn manifest(version: &str, sha256: &str) -> RuntimeManifest {
    RuntimeManifest {
        version: version.to_string(),
        url: "https://cdn.example.com/node-app.tar.gz".to_string(),
        sha256: sha256.to_string(),
    }
}

#[test]
fn parsed_manifest_is_passed_on() {
    let parsed = baked_manifest(Ok(manifest("0.1.0", "ab"))).unwrap();
    assert_eq!(parsed.version, "0.1.0");
    assert_eq!(parsed.url, "https://cdn.example.com/node-app.tar.gz");
    assert_eq!(parsed.sha256, "ab");
}

#[test]
fn unparsable_manifest_is_an_error() {
    assert_eq!(
        baked_manifest(Err("EOF at line 1".to_string())).unwrap_err(),
        "bad runtime manifest: EOF at line 1"
    );
}

#[test]
fn marker_text_is_trimmed() {
    assert_eq!(installed_version(None), None);
    assert_eq!(installed_version(Some("")), Some(String::new()));
    assert_eq!(installed_version(Some(" 0.1.0\r\n")), Some("0.1.0".to_string()));
}

#[test]
fn installed_needs_entry_and_version() {
    let wanted = manifest("0.1.0", "");
    assert!(is_installed(true, Some("0.1.0"), &wanted));
    assert!(is_installed(true, Some("0.1.0\n"), &wanted));
    assert!(!is_installed(false, Some("0.1.0"), &wanted));
    assert!(!is_installed(true, None, &wanted));
    assert!(!is_installed(true, Some("0.1.1"), &wanted));
    assert!(!is_installed(true, Some(""), &wanted));
}

#[test]
fn unchanged_version_with_blanks_is_installed() {
    assert!(is_installed(true, Some(" 0.1"), &manifest(" 0.1", "")));
    assert!(is_installed(true, Some("0.1.0 "), &manifest("0.1.0 ", "")));
    assert!(is_installed(true, Some(" "), &manifest("", "")));
    assert!(!is_installed(true, Some("0.1.0"), &manifest("\t0.1.0\n", "")));
    assert!(!is_installed(true, Some("0.1.0"), &manifest("0.1.0 ", "")));
    assert!(!is_installed(true, Some(" 0.1.0 "), &manifest("0.1.0 ", "")));
    assert!(!is_installed(true, Some("0.1.0 "), &manifest("0. 1.0", "")));
    assert!(!is_installed(true, None, &manifest("", "")));
}

#[test]
fn checksum_case_does_not_matter() {
    assert!(is_pinned_checksum("00ff", &manifest("1", "00FF")));
    assert!(!is_pinned_checksum("00ff", &manifest("1", "00fe")));
    assert!(!is_pinned_checksum("00ff", &manifest("1", "00ff ")));
    assert!(!is_pinned_checksum("00ff", &manifest("1", "")));
}

#[test]
fn mismatch_names_both_checksums() {
    assert_eq!(
        mismatch_message("bb", &manifest("1", "AA")),
        "运行时校验失败（sha256 不匹配）：期望 AA 实际 bb"
    );
}

#[test]
fn progress_events() {
    let ready = RuntimeProgress::ready();
    assert_eq!((ready.phase, ready.message.as_str(), ready.percent), ("ready", "运行时已就绪", None));
    let start = RuntimeProgress::download_start();
    assert_eq!((start.phase, start.message.as_str(), start.percent), ("download", "正在下载运行时…", Some(0)));
    let half = RuntimeProgress::download(50);
    assert_eq!((half.phase, half.message.as_str(), half.percent), ("download", "正在下载运行时… 50%", Some(50)));
    let extract = RuntimeProgress::extract();
    assert_eq!((extract.phase, extract.message.as_str(), extract.percent), ("extract", "正在解压运行时…", None));
}
