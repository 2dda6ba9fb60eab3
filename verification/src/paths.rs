//! Where things lie on disk.
//!
//! A path is modelled by the sequence of its components, each as its encoded
//! bytes. Everything the shell installs lies under `<app-data>/runtime`:
//!
//! ```text
//! runtime/.installed                 the version marker
//! runtime/.install/                  the staging directory
//! runtime/.install/node-app.tar.gz   the downloaded archive
//! runtime/node-app/lib/bin.js        the entry point of the harness
//! ```

use std::path::{Path, PathBuf};
use vstd::prelude::*;
use vstd::utf8::encode_utf8;

verus! {

/// A borrowed path of the standard library.
#[verifier::external_type_specification]
#[verifier::external_body]
pub struct ExPath(Path);

/// An owned path of the standard library.
#[verifier::external_type_specification]
#[verifier::external_body]
pub struct ExPathBuf(PathBuf);

/// The components of `path`, in order, each as its encoded bytes. On Unix they are
/// what `Path::components` gives. On Windows a prefix is read part by part: `\\server`
/// and the share behind it are two components, and a root that follows a verbatim
/// prefix (`\\?\`) is not counted, since joining a name to the bare prefix adds it.
pub uninterp spec fn path_components(path: &Path) -> Seq<Seq<u8>>;

/// The components of the path that `buf` holds, counted in the same way.
pub uninterp spec fn buf_components(buf: PathBuf) -> Seq<Seq<u8>>;

/// The text of the path that `buf` holds, with a replacement character for what
/// is not Unicode in it.
pub uninterp spec fn buf_text(buf: PathBuf) -> Seq<char>;

/// Whether `name` is a single ordinary component on every platform: not empty,
/// neither `.` nor `..`, and without a separator or a drive mark.
pub open spec fn plain_name(name: Seq<char>) -> bool {
    &&& name.len() > 0
    &&& name != seq!['.']
    &&& name != seq!['.', '.']
    &&& !name.contains('/')
    &&& !name.contains('\\')
    &&& !name.contains(':')
}

/// `Path::join` with a plain name: the path gets that name as one more component.
///
/// The separator in between is the platform's; nothing is said of it.
#[verifier::external_body]
fn join(base: &Path, name: &str) -> (res: PathBuf)
    requires
        plain_name(name@),
    ensures
        buf_components(res) == path_components(base).push(encode_utf8(name@)),
{
    base.join(name)
}

/// `PathBuf::as_path`: the path that the buffer holds.
pub assume_specification[ PathBuf::as_path ](buf: &PathBuf) -> (res: &Path)
    ensures
        path_components(res) == buf_components(*buf),
;

/// `Path::to_path_buf`: an owned copy of the path.
pub assume_specification[ Path::to_path_buf ](path: &Path) -> (res: PathBuf)
    ensures
        buf_components(res) == path_components(path),
;

/// `Path::to_string_lossy`: the path as text. It is a function of the path alone;
/// nothing is said of its characters.
#[verifier::external_body]
fn to_text(buf: &PathBuf) -> (res: String)
    ensures
        res@ == buf_text(*buf),
{
    buf.to_string_lossy().into_owned()
}

/// The path of the entry `name` of the directory `base`.
pub open spec fn child(base: Seq<Seq<u8>>, name: &str) -> Seq<Seq<u8>> {
    base.push(encode_utf8(name@))
}

/// Where the installed runtime lies, given the app data directory.
pub open spec fn runtime_at(app_data: Seq<Seq<u8>>) -> Seq<Seq<u8>> {
    child(app_data, "runtime")
}

/// Where the harness lies, given the directory that holds it.
pub open spec fn node_app_at(holder: Seq<Seq<u8>>) -> Seq<Seq<u8>> {
    child(holder, "node-app")
}

/// Where the harness's entry point lies, given the directory that holds the harness.
pub open spec fn entry_at(holder: Seq<Seq<u8>>) -> Seq<Seq<u8>> {
    child(child(node_app_at(holder), "lib"), "bin.js")
}

/// Where the version marker lies, given the runtime directory.
pub open spec fn marker_at(runtime: Seq<Seq<u8>>) -> Seq<Seq<u8>> {
    child(runtime, ".installed")
}

/// Where an installation is prepared, given the runtime directory.
pub open spec fn staging_at(runtime: Seq<Seq<u8>>) -> Seq<Seq<u8>> {
    child(runtime, ".install")
}

/// Where the archive is downloaded to, given the runtime directory.
pub open spec fn archive_at(runtime: Seq<Seq<u8>>) -> Seq<Seq<u8>> {
    child(staging_at(runtime), "node-app.tar.gz")
}

/// Where the harness keeps its own state, given the app data directory.
pub open spec fn dsh_home_at(app_data: Seq<Seq<u8>>) -> Seq<Seq<u8>> {
    child(app_data, "dsh")
}

/// `<app-data>/runtime`.
pub fn runtime_dir(app_data_dir: &Path) -> (res: PathBuf)
    ensures
        buf_components(res) == runtime_at(path_components(app_data_dir)),
{
    proof {
        reveal_strlit("runtime");
    }
    join(app_data_dir, "runtime")
}

/// `node-app` in the directory that holds it.
pub fn node_app_dir(holder: &Path) -> (res: PathBuf)
    ensures
        buf_components(res) == node_app_at(path_components(holder)),
{
    proof {
        reveal_strlit("node-app");
    }
    join(holder, "node-app")
}

/// The entry point of the harness, `node-app/lib/bin.js`, in the directory that
/// holds `node-app`.
pub fn node_app_entry(runtime: &Path) -> (res: PathBuf)
    ensures
        buf_components(res) == entry_at(path_components(runtime)),
{
    proof {
        reveal_strlit("lib");
        reveal_strlit("bin.js");
        assert("lib"@.len() == 3 && "bin.js"@.len() == 6);
    }
    let node_app = node_app_dir(runtime);
    let lib = join(node_app.as_path(), "lib");
    join(lib.as_path(), "bin.js")
}

/// The version marker of the runtime directory.
pub fn marker_path(runtime: &Path) -> (res: PathBuf)
    ensures
        buf_components(res) == marker_at(path_components(runtime)),
{
    proof {
        reveal_strlit(".installed");
    }
    join(runtime, ".installed")
}

/// The staging directory of the runtime directory.
pub fn staging_dir(runtime: &Path) -> (res: PathBuf)
    ensures
        buf_components(res) == staging_at(path_components(runtime)),
{
    proof {
        reveal_strlit(".install");
    }
    join(runtime, ".install")
}

/// The downloaded archive in the staging directory.
pub fn archive_path(runtime: &Path) -> (res: PathBuf)
    ensures
        buf_components(res) == archive_at(path_components(runtime)),
{
    proof {
        reveal_strlit("node-app.tar.gz");
    }
    let staging = staging_dir(runtime);
    join(staging.as_path(), "node-app.tar.gz")
}

/// `<app-data>/dsh`, the home directory of the harness.
pub fn dsh_home(app_data_dir: &Path) -> (res: PathBuf)
    ensures
        buf_components(res) == dsh_home_at(path_components(app_data_dir)),
{
    proof {
        reveal_strlit("dsh");
    }
    join(app_data_dir, "dsh")
}

/// The entry point of the harness as text, for a command line.
pub fn node_app_entry_text(runtime: &Path) -> (res: String)
    ensures
        exists|entry: PathBuf| #[trigger]
            buf_components(entry) == entry_at(path_components(runtime)) && res@ == buf_text(entry),
{
    let entry = node_app_entry(runtime);
    to_text(&entry)
}

/// Everything that is installed lies under the app data directory, at fixed places.
pub proof fn law_places(dir: Seq<Seq<u8>>)
    ensures
        runtime_at(dir) == dir + seq![encode_utf8("runtime"@)],
        dsh_home_at(dir) == dir + seq![encode_utf8("dsh"@)],
        marker_at(dir) == dir + seq![encode_utf8(".installed"@)],
        staging_at(dir) == dir + seq![encode_utf8(".install"@)],
        archive_at(dir) == dir + seq![encode_utf8(".install"@), encode_utf8("node-app.tar.gz"@)],
        node_app_at(dir) == dir + seq![encode_utf8("node-app"@)],
        entry_at(dir) == dir + seq![encode_utf8("node-app"@), encode_utf8("lib"@), encode_utf8("bin.js"@)],
{
    assert(runtime_at(dir) =~= dir + seq![encode_utf8("runtime"@)]);
    assert(dsh_home_at(dir) =~= dir + seq![encode_utf8("dsh"@)]);
    assert(marker_at(dir) =~= dir + seq![encode_utf8(".installed"@)]);
    assert(staging_at(dir) =~= dir + seq![encode_utf8(".install"@)]);
    assert(archive_at(dir) =~= dir + seq![encode_utf8(".install"@), encode_utf8("node-app.tar.gz"@)]);
    assert(node_app_at(dir) =~= dir + seq![encode_utf8("node-app"@)]);
    assert(entry_at(dir) =~= dir + seq![encode_utf8("node-app"@), encode_utf8("lib"@), encode_utf8("bin.js"@)]);
}

} // verus!
