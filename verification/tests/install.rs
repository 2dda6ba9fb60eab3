use deepseek_desktop::digest::{DigestStep, FileDigest};
use deepseek_desktop::install::{ensure_runtime, extract, InstallAction, InstallEvent, Installer};
use deepseek_desktop::manifest::RuntimeManifest;
use std::collections::BTreeMap;
use std::path::{Path, PathBuf};

const ARCHIVE: &[u8] = b"the archive";

fn checksum(bytes: &[u8]) -> String {
    let digest = FileDigest::sha256_file(Ok(())).ok().unwrap();
    let digest = match digest.absorb(Ok(bytes.to_vec())) {
        DigestStep::More(digest) => digest,
        DigestStep::Done(result) => return result.unwrap(),
    };
    match digest.absorb(Ok(Vec::new())) {
        DigestStep::Done(result) => result.unwrap(),
        DigestStep::More(_) => panic!("not at the end"),
    }
}

fn manifest(version: &str) -> RuntimeManifest {
    RuntimeManifest {
        version: version.to_string(),
        url: "https://cdn.example.com/node-app.tar.gz".to_string(),
        sha256: checksum(ARCHIVE).to_uppercase(),
    }
}

/// A disk in memory, and a server for the archive.
#[derive(Clone, Default)]
struct World {
    files: BTreeMap<PathBuf, Vec<u8>>,
    /// What unpacking the archive gives, relative to its destination.
    unpacked: Vec<&'static str>,
    /// What the server sends.
    served: Vec<u8>,
    /// The action, by its position, that fails.
    fails: Option<usize>,
    /// Names of what was done.
    log: Vec<String>,
    /// Phases and percentages that were reported.
    reports: Vec<(String, Option<u32>)>,
}

impl World {
    fn new() -> World {
        World { unpacked: vec!["node-app/lib/bin.js"], served: ARCHIVE.to_vec(), ..World::default() }
    }

    fn remove_tree(&mut self, path: &Path) {
        self.files.retain(|file, _| !file.starts_with(path));
    }

    fn perform(&mut self, action: InstallAction) -> InstallEvent {
        let failing = self.fails == Some(self.log.len());
        let (name, event) = match action {
            InstallAction::CheckFile(path) => ("file?", InstallEvent::Present(self.files.contains_key(&path))),
            InstallAction::ReadText(path) => (
                "read",
                InstallEvent::Text(self.files.get(&path).and_then(|text| String::from_utf8(text.clone()).ok())),
            ),
            InstallAction::CreateDirs(_) => ("mkdir", InstallEvent::Done),
            InstallAction::RemoveTree(path) => {
                if !failing {
                    self.remove_tree(&path);
                }
                ("remove", InstallEvent::Done)
            }
            InstallAction::Report(progress) => {
                self.reports.push((progress.phase.to_string(), progress.percent));
                ("report", InstallEvent::Done)
            }
            InstallAction::Download { url, dest } => {
                assert_eq!(url, "https://cdn.example.com/node-app.tar.gz");
                self.files.insert(dest, self.served.clone());
                ("download", InstallEvent::Done)
            }
            InstallAction::Hash(path) => ("hash", InstallEvent::Digest(checksum(&self.files[&path]))),
            InstallAction::Extract { archive, dest } => {
                assert!(self.files.contains_key(&archive));
                for name in self.unpacked.clone() {
                    self.files.insert(dest.join(name), b"new".to_vec());
                }
                ("extract", InstallEvent::Done)
            }
            InstallAction::CheckExists(path) => (
                "exists?",
                InstallEvent::Present(self.files.keys().any(|file| file.starts_with(&path))),
            ),
            InstallAction::Rename { from, to } => {
                if !failing {
                    for (file, bytes) in self.files.clone() {
                        if let Ok(rest) = file.strip_prefix(&from) {
                            self.files.remove(&file);
                            self.files.insert(to.join(rest), bytes);
                        }
                    }
                }
                ("rename", InstallEvent::Done)
            }
            InstallAction::WriteText { path, text } => {
                if !failing {
                    self.files.insert(path, text.into_bytes());
                }
                ("write", InstallEvent::Done)
            }
            InstallAction::Finish(_) => panic!("nothing is left to do"),
        };
        self.log.push(name.to_string());
        if failing {
            InstallEvent::Failed("no".to_string())
        } else {
            event
        }
    }

    fn install(&mut self, manifest: &RuntimeManifest) -> Result<PathBuf, String> {
        let mut installer = ensure_runtime(Path::new("/data"), manifest);
        loop {
            match installer.pending() {
                InstallAction::Finish(result) => return result,
                action => {
                    let event = self.perform(action);
                    installer = installer.advance(event);
                }
            }
        }
    }

    fn text(&self, path: &str) -> Option<String> {
        self.files.get(Path::new(path)).map(|bytes| String::from_utf8(bytes.clone()).unwrap())
    }
}

fn with_old_runtime() -> World {
    let mut world = World::new();
    world.files.insert(PathBuf::from("/data/runtime/node-app/lib/bin.js"), b"old".to_vec());
    world.files.insert(PathBuf::from("/data/runtime/node-app/lib/gone.js"), b"old".to_vec());
    world.files.insert(PathBuf::from("/data/runtime/.installed"), b"0.0.9\n".to_vec());
    world.files.insert(PathBuf::from("/data/dsh/profile"), b"mine".to_vec());
    world
}

#[test]
fn first_launch_installs() {
    let mut world = World::new();
    assert_eq!(world.install(&manifest("0.1.0")), Ok(PathBuf::from("/data/runtime")));
    assert_eq!(world.text("/data/runtime/node-app/lib/bin.js"), Some("new".to_string()));
    assert_eq!(world.text("/data/runtime/.installed"), Some("0.1.0".to_string()));
    assert_eq!(world.files.len(), 2);
    assert_eq!(
        world.log.join(" "),
        "file? mkdir remove mkdir report download hash report extract file? exists? rename write remove report"
    );
    assert_eq!(
        world.reports,
        vec![("download".to_string(), Some(0)), ("extract".to_string(), None), ("ready".to_string(), None)]
    );
}

#[test]
fn unchanged_version_is_reused() {
    let mut world = World::new();
    world.install(&manifest("0.1.0")).unwrap();
    let files = world.files.clone();
    world.log.clear();
    world.reports.clear();
    assert_eq!(world.install(&manifest("0.1.0")), Ok(PathBuf::from("/data/runtime")));
    assert_eq!(world.log.join(" "), "file? read report");
    assert_eq!(world.reports, vec![("ready".to_string(), None)]);
    assert_eq!(world.files, files);
}

#[test]
fn version_bump_replaces_the_runtime() {
    let mut world = with_old_runtime();
    assert_eq!(world.install(&manifest("0.1.0")), Ok(PathBuf::from("/data/runtime")));
    assert_eq!(world.text("/data/runtime/node-app/lib/bin.js"), Some("new".to_string()));
    assert_eq!(world.text("/data/runtime/node-app/lib/gone.js"), None);
    assert_eq!(world.text("/data/runtime/.installed"), Some("0.1.0".to_string()));
    assert_eq!(world.text("/data/dsh/profile"), Some("mine".to_string()));
}

#[test]
fn unchanged_version_with_blanks_is_reused() {
    for version in [" 0.1", "0.1.0 ", "\n0.1.0\t"] {
        let mut world = World::new();
        world.install(&manifest(version)).unwrap();
        assert_eq!(world.text("/data/runtime/.installed"), Some(version.to_string()));
        let files = world.files.clone();
        world.log.clear();
        assert_eq!(world.install(&manifest(version)), Ok(PathBuf::from("/data/runtime")));
        assert_eq!(world.log.join(" "), "file? read report");
        assert_eq!(world.files, files);
    }
}

#[test]
fn version_that_gained_a_blank_is_downloaded() {
    let mut world = World::new();
    world.install(&manifest("0.1.0")).unwrap();
    world.log.clear();
    world.install(&manifest("0.1.0 ")).unwrap();
    assert!(world.log.contains(&"download".to_string()));
    assert_eq!(world.text("/data/runtime/.installed"), Some("0.1.0 ".to_string()));
}

#[test]
fn first_launch_has_no_staging_directory_to_clear() {
    let mut world = World::new();
    // file? mkdir remove: there is nothing to remove, which is reported as a failure
    world.fails = Some(2);
    assert_eq!(world.install(&manifest("0.1.0")), Ok(PathBuf::from("/data/runtime")));
    let names: Vec<String> = world.files.keys().map(|path| path.display().to_string()).collect();
    assert_eq!(names, vec!["/data/runtime/.installed", "/data/runtime/node-app/lib/bin.js"]);
}

#[test]
fn only_the_version_decides_about_reuse() {
    let mut world = World::new();
    world.install(&manifest("0.1.0")).unwrap();
    let files = world.files.clone();
    world.log.clear();
    world.reports.clear();
    let other = RuntimeManifest {
        version: "0.1.0".to_string(),
        url: "https://elsewhere.example.com/x".to_string(),
        sha256: "00".to_string(),
    };
    assert_eq!(world.install(&other), Ok(PathBuf::from("/data/runtime")));
    assert_eq!(world.log.join(" "), "file? read report");
    assert_eq!(world.reports, vec![("ready".to_string(), None)]);
    assert_eq!(world.files, files);
}

#[test]
fn installed_tree_is_the_unpacked_one() {
    let mut world = with_old_runtime();
    world.unpacked = vec!["node-app/lib/bin.js", "node-app/package.json", "node-app/a/b/c.js", "stray"];
    world.files.insert(PathBuf::from("/data/runtime/.install/node-app/left.js"), b"stale".to_vec());
    world.install(&manifest("0.1.0")).unwrap();
    let names: Vec<String> = world.files.keys().map(|path| path.display().to_string()).collect();
    assert_eq!(
        names,
        vec![
            "/data/dsh/profile",
            "/data/runtime/.installed",
            "/data/runtime/node-app/a/b/c.js",
            "/data/runtime/node-app/lib/bin.js",
            "/data/runtime/node-app/package.json",
        ]
    );
}

#[test]
fn download_error_that_reads_like_another_keeps_the_old_runtime() {
    let mut installer = ensure_runtime(Path::new("/data"), &manifest("0.1.0"));
    let mut world = with_old_runtime();
    let before = world.files.clone();
    let result = loop {
        match installer.pending() {
            InstallAction::Finish(result) => break result,
            InstallAction::Download { .. } => {
                installer = installer.advance(InstallEvent::Failed("install runtime: no".to_string()));
            }
            action => {
                let event = world.perform(action);
                installer = installer.advance(event);
            }
        }
    };
    assert_eq!(result, Err("install runtime: no".to_string()));
    assert_eq!(world.files, before);
}

#[test]
fn other_archive_is_rejected() {
    let mut world = with_old_runtime();
    let before = world.files.clone();
    world.served = b"something else".to_vec();
    let pinned = manifest("0.1.0");
    assert_eq!(
        world.install(&pinned),
        Err(format!(
            "运行时校验失败（sha256 不匹配）：期望 {} 实际 {}",
            pinned.sha256,
            checksum(b"something else")
        ))
    );
    assert!(!world.log.contains(&"extract".to_string()));
    assert_eq!(world.log.last().unwrap(), "remove");
    assert_eq!(world.files, before);
}

#[test]
fn archive_without_entry_point_is_rejected() {
    let mut world = with_old_runtime();
    let before = world.files.clone();
    world.unpacked = vec!["node-app/lib/other.js"];
    assert_eq!(world.install(&manifest("0.1.0")), Err("运行时压缩包缺少 lib/bin.js".to_string()));
    assert_eq!(world.log.last().unwrap(), "remove");
    assert_eq!(world.files, before);
}

/// What an update comes to where the action at each position fails.
fn failing_at(position: usize) -> (Result<PathBuf, String>, World) {
    let mut world = with_old_runtime();
    world.fails = Some(position);
    let result = world.install(&manifest("0.1.0"));
    (result, world)
}

#[test]
fn each_failure_is_reported() {
    // file? read mkdir remove mkdir report download hash report extract file? exists? remove rename write remove report
    let expected: [(usize, &str); 8] = [
        (2, "mkdir runtime: no"),
        (4, "mkdir staging: no"),
        (6, "no"),
        (7, "no"),
        (9, "no"),
        (12, "remove old runtime: no"),
        (13, "install runtime: no"),
        (14, "write marker: no"),
    ];
    for (position, message) in expected {
        assert_eq!(failing_at(position).0, Err(message.to_string()), "at {position}");
    }
}

#[test]
fn failures_to_clean_up_are_ignored() {
    for position in [3, 15] {
        assert_eq!(failing_at(position).0, Ok(PathBuf::from("/data/runtime")), "at {position}");
    }
    let mut world = with_old_runtime();
    world.served = b"something else".to_vec();
    world.fails = Some(8);
    assert!(world.install(&manifest("0.1.0")).unwrap_err().starts_with("运行时校验失败"));
    let mut world = with_old_runtime();
    world.unpacked = Vec::new();
    world.fails = Some(11);
    assert_eq!(world.install(&manifest("0.1.0")), Err("运行时压缩包缺少 lib/bin.js".to_string()));
}

#[test]
fn early_failure_keeps_the_old_runtime() {
    for position in [2, 4, 6, 7, 9] {
        let (_, world) = failing_at(position);
        assert_eq!(world.text("/data/runtime/node-app/lib/bin.js"), Some("old".to_string()));
        assert_eq!(world.text("/data/runtime/.installed"), Some("0.0.9\n".to_string()));
    }
}

#[test]
fn a_report_that_answers_nothing_is_ignored() {
    let installer: Installer = ensure_runtime(Path::new("/data"), &manifest("0.1.0"));
    let installer = installer.advance(InstallEvent::Done);
    let installer = installer.advance(InstallEvent::Digest(checksum(ARCHIVE)));
    let installer = installer.advance(InstallEvent::Failed("no".to_string()));
    assert!(matches!(
        installer.pending(),
        InstallAction::CheckFile(path) if path == Path::new("/data/runtime/node-app/lib/bin.js")
    ));
}

#[test]
fn unpacking_errors_are_named() {
    assert_eq!(extract(Ok(Ok(()))), Ok(()));
    assert_eq!(extract(Err("gone".to_string())), Err("open: gone".to_string()));
    assert_eq!(extract(Ok(Err("bad gzip".to_string()))), Err("extract: bad gzip".to_string()));
}
