//! The manifest that pins the runtime, and what it is held against.

use crate::text::{
    ascii_lower, concat, eq_ignore_ascii_case, law_trimmed_idempotent, same_ignoring_ascii_case, trim, trimmed,
    whitespace,
};
use crate::text_laws::{
    blank, law_same_text_but_for_case, law_trimming_removes_only_blanks_around, same_letter,
};
use vstd::prelude::*;
use vstd::string::*;

verus! {

/// The version, download URL and SHA-256 checksum of the harness closure.
#[derive(Debug)]
pub struct RuntimeManifest {
    pub version: String,
    pub url: String,
    pub sha256: String,
}

/// A manifest by its texts.
pub struct ManifestView {
    pub version: Seq<char>,
    pub url: Seq<char>,
    pub sha256: Seq<char>,
}

impl View for RuntimeManifest {
    type V = ManifestView;

    open spec fn view(&self) -> ManifestView {
        ManifestView { version: self.version@, url: self.url@, sha256: self.sha256@ }
    }
}

/// The manifest that was baked in, given what parsing its text came to.
pub fn baked_manifest(parsed: Result<RuntimeManifest, String>) -> (res: Result<RuntimeManifest, String>)
    ensures
        match (res, parsed) {
            (Ok(manifest), Ok(value)) => manifest == value,
            (Err(message), Err(error)) => message@ == "bad runtime manifest: "@ + error@,
            _ => false,
        },
{
    match parsed {
        Ok(manifest) => Ok(manifest),
        Err(error) => Err(concat("bad runtime manifest: ", error.as_str())),
    }
}

/// The version that a marker file records, given its text.
pub open spec fn recorded_version(marker: Option<Seq<char>>) -> Option<Seq<char>> {
    match marker {
        Some(text) => Some(trimmed(text)),
        None => None,
    }
}

/// Whether the text of a marker file stands for `version`: it is exactly that, or it is
/// that with blanks around it. So a version that has blanks of its own is known again
/// as it was written.
pub open spec fn marks(text: Seq<char>, version: Seq<char>) -> bool {
    text == version || trimmed(text) == version
}

/// Whether the runtime is installed in the version that the manifest asks for.
pub open spec fn up_to_date(entry_is_file: bool, marker: Option<Seq<char>>, version: Seq<char>) -> bool {
    entry_is_file && (marker matches Some(text) && marks(text, version))
}

/// The version that is installed, given the text of the marker file, or `None`
/// where it could not be read.
pub fn installed_version(marker: Option<&str>) -> (res: Option<String>)
    ensures
        match (res, marker) {
            (Some(version), Some(text)) => recorded_version(Some(text@)) == Some(version@),
            (None, None) => true,
            _ => false,
        },
{
    match marker {
        Some(text) => Some(trim(text).to_string()),
        None => None,
    }
}

/// Whether the runtime is installed in the version that the manifest asks for,
/// given whether the entry point is a file and the text of the marker file.
pub fn is_installed(entry_is_file: bool, marker: Option<&str>, manifest: &RuntimeManifest) -> (res: bool)
    ensures
        res == up_to_date(
            entry_is_file,
            match marker {
                Some(text) => Some(text@),
                None => None,
            },
            manifest@.version,
        ),
        res ==> entry_is_file && marker is Some && (marker->0@ == manifest.version@ || trimmed(marker->0@)
            == manifest.version@),
        entry_is_file && marker is Some && (marker->0@ == manifest.version@ || trimmed(marker->0@)
            == manifest.version@) ==> res,
{
    if !entry_is_file {
        return false;
    }
    let unchanged = match marker {
        Some(text) => text.to_string() == manifest.version,
        None => false,
    };
    if unchanged {
        return true;
    }
    match installed_version(marker) {
        Some(version) => version == manifest.version,
        None => false,
    }
}

/// Whether a checksum is the one that the manifest pins; the case of its letters
/// does not matter.
pub open spec fn checksum_matches(actual: Seq<char>, manifest: ManifestView) -> bool {
    same_ignoring_ascii_case(actual, manifest.sha256)
}

/// Whether a checksum is the one that the manifest pins.
pub fn is_pinned_checksum(actual: &str, manifest: &RuntimeManifest) -> (res: bool)
    ensures
        res == checksum_matches(actual@, manifest@),
        actual@ == manifest.sha256@ ==> res,
        res ==> actual@.len() == manifest.sha256@.len(),
{
    eq_ignore_ascii_case(actual, manifest.sha256.as_str())
}

/// What is reported where the checksum of a download is not the pinned one.
pub open spec fn mismatch_text(actual: Seq<char>, manifest: ManifestView) -> Seq<char> {
    "运行时校验失败（sha256 不匹配）：期望 "@ + manifest.sha256 + " 实际 "@ + actual
}

/// What is reported where the checksum of a download is not the pinned one.
pub fn mismatch_message(actual: &str, manifest: &RuntimeManifest) -> (res: String)
    ensures
        res@ == mismatch_text(actual@, manifest@),
{
    let mut message = "运行时校验失败（sha256 不匹配）：期望 ".to_string();
    message.append(manifest.sha256.as_str());
    message.append(" 实际 ");
    message.append(actual);
    message
}

/// A marker that holds a version is read back as that version, whatever it is.
pub proof fn law_marker_round_trip(version: Seq<char>)
    ensures
        up_to_date(true, Some(version), version),
{
}

/// Blanks around the text of a marker do not matter where the version has none
/// around it.
pub proof fn law_marker_is_trimmed(text: Seq<char>, version: Seq<char>)
    requires
        trimmed(version) == version,
    ensures
        up_to_date(true, Some(trimmed(text)), version) == up_to_date(true, Some(text), version),
{
    law_trimmed_idempotent(text);
}

/// A runtime without its entry point, or without a marker, is not installed. One with
/// both is installed in exactly those versions that its marker holds, as it stands or
/// without the blanks around it.
pub proof fn law_marker_decides(text: Seq<char>, version: Seq<char>, marker: Option<Seq<char>>)
    ensures
        !up_to_date(false, marker, version),
        !up_to_date(true, None, version),
        up_to_date(true, Some(text), version) ==> version == text || version == trimmed(text),
        up_to_date(true, Some(text), text),
        up_to_date(true, Some(text), trimmed(text)),
{
}

/// A version without blanks around it is installed only where the marker, without the
/// blanks around it, is that version character by character; so no marker stands for
/// two different versions of that kind.
pub proof fn law_marker_stands_for_one_version(text: Seq<char>, version: Seq<char>, other: Seq<char>)
    requires
        trimmed(version) == version,
        trimmed(other) == other,
    ensures
        up_to_date(true, Some(text), version) <==> trimmed(text) == version,
        marks(text, version) <==> trimmed(text) == version,
        up_to_date(true, Some(text), version) && up_to_date(true, Some(text), other) ==> version == other,
        version != other ==> !up_to_date(true, Some(version), other),
{
}

/// A marker that holds a version with blanks around it records that version.
pub proof fn law_blanks_around_a_marker(lead: Seq<char>, version: Seq<char>, trail: Seq<char>)
    requires
        blank(lead),
        blank(trail),
        version.len() > 0 ==> !whitespace(version[0]) && !whitespace(version[version.len() - 1]),
    ensures
        recorded_version(Some(lead + version + trail)) == Some(version),
        recorded_version(None) is None,
        up_to_date(true, Some(lead + version + trail), version),
{
    law_trimming_removes_only_blanks_around(lead, version, trail);
}

/// A checksum is the pinned one exactly where the two are as long and each character is
/// the same or the other case of the same letter.
pub proof fn law_pinned_but_for_case(actual: Seq<char>, manifest: ManifestView)
    ensures
        checksum_matches(actual, manifest) <==> actual.len() == manifest.sha256.len() && forall|i: int|
            0 <= i < actual.len() ==> same_letter(actual[i], #[trigger] manifest.sha256[i]),
        checksum_matches(manifest.sha256, manifest),
{
    law_same_text_but_for_case(actual, manifest.sha256);
    law_same_text_but_for_case(manifest.sha256, manifest.sha256);
}

/// Neither the case in which a manifest writes its checksum nor the case of the one that
/// was computed ever decides, and nothing else of the manifest does.
pub proof fn law_case_never_decides(a: Seq<char>, b: Seq<char>, manifest: ManifestView, other: ManifestView)
    requires
        same_ignoring_ascii_case(a, b),
        same_ignoring_ascii_case(manifest.sha256, other.sha256),
    ensures
        checksum_matches(a, manifest) == checksum_matches(b, other),
{
    if checksum_matches(a, manifest) {
        assert forall|i: int| 0 <= i < b.len() implies ascii_lower(b[i]) == ascii_lower(#[trigger] other.sha256[i]) by {
            assert(ascii_lower(a[i]) == ascii_lower(b[i]));
            assert(ascii_lower(a[i]) == ascii_lower(manifest.sha256[i]));
        }
    }
    if checksum_matches(b, other) {
        assert forall|i: int| 0 <= i < a.len() implies ascii_lower(a[i]) == ascii_lower(
            #[trigger] manifest.sha256[i],
        ) by {
            assert(ascii_lower(a[i]) == ascii_lower(b[i]));
            assert(ascii_lower(b[i]) == ascii_lower(other.sha256[i]));
        }
    }
}

/// What is reported of a mismatch names the pinned checksum as the manifest has it, and
/// then the one that was found.
pub proof fn law_mismatch_names_both(actual: Seq<char>, manifest: ManifestView)
    ensures
        mismatch_text(actual, manifest).len() == 23 + manifest.sha256.len() + 4 + actual.len(),
        "运行时校验失败（sha256 不匹配）：期望 "@.is_prefix_of(mismatch_text(actual, manifest)),
        mismatch_text(actual, manifest).subrange(23, 23 + manifest.sha256.len() as int) == manifest.sha256,
        mismatch_text(actual, manifest).skip(23 + manifest.sha256.len() as int) == " 实际 "@ + actual,
{
    reveal_strlit("运行时校验失败（sha256 不匹配）：期望 ");
    reveal_strlit(" 实际 ");
    let text = mismatch_text(actual, manifest);
    let n = manifest.sha256.len() as int;
    assert("运行时校验失败（sha256 不匹配）：期望 "@.len() == 23);
    assert(" 实际 "@.len() == 4);
    assert("运行时校验失败（sha256 不匹配）：期望 "@ =~= text.subrange(0, 23));
    assert(text.subrange(23, 23 + n) =~= manifest.sha256);
    assert(text.skip(23 + n) =~= " 实际 "@ + actual);
}

/// A manifest is known by its texts as they stand.
pub proof fn law_manifest_is_taken_whole(manifest: RuntimeManifest)
    ensures
        manifest@.version == manifest.version@,
        manifest@.url == manifest.url@,
        manifest@.sha256 == manifest.sha256@,
{
}

} // verus!
