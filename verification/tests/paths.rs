use deepseek_desktop::paths::{
    archive_path, dsh_home, marker_path, node_app_dir, node_app_entry, node_app_entry_text, runtime_dir, staging_dir,
};
use std::path::{Path, PathBuf};

#[test]
fn places_under_the_app_data_directory() {
    let data = Path::new("/data/app");
    let runtime = runtime_dir(data);
    assert_eq!(runtime, PathBuf::from("/data/app/runtime"));
    assert_eq!(dsh_home(data), PathBuf::from("/data/app/dsh"));
    assert_eq!(marker_path(&runtime), PathBuf::from("/data/app/runtime/.installed"));
    assert_eq!(staging_dir(&runtime), PathBuf::from("/data/app/runtime/.install"));
    assert_eq!(archive_path(&runtime), PathBuf::from("/data/app/runtime/.install/node-app.tar.gz"));
    assert_eq!(node_app_dir(&runtime), PathBuf::from("/data/app/runtime/node-app"));
    assert_eq!(node_app_entry(&runtime), PathBuf::from("/data/app/runtime/node-app/lib/bin.js"));
}

#[test]
fn one_component_more() {
    for base in ["", ".", "a/", "a/./b", "/", "../x"] {
        let base = Path::new(base);
        let joined = runtime_dir(base);
        let mut expected: Vec<_> = base.components().collect();
        let last = Path::new("runtime");
        expected.extend(last.components());
        assert_eq!(joined.components().collect::<Vec<_>>(), expected);
    }
}

#[test]
fn entry_point_as_text() {
    assert_eq!(node_app_entry_text(Path::new("/rt")), "/rt/node-app/lib/bin.js");
    assert_eq!(node_app_entry_text(Path::new("/数据/rt")), "/数据/rt/node-app/lib/bin.js");
}
