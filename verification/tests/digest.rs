use deepseek_desktop::digest::{DigestStep, FileDigest};
use std::io::Read;

fn hash(chunks: &[&[u8]]) -> Result<String, String> {
    let mut digest = FileDigest::sha256_file(Ok(()))?;
    for chunk in chunks.iter().chain([&[][..]].iter()) {
        match digest.absorb(Ok(chunk.to_vec())) {
            DigestStep::More(next) => digest = next,
            DigestStep::Done(result) => return result,
        }
    }
    panic!("the end of the file was not noticed");
}

/// A tiny tarball with the layout of the real closure (`node-app/lib/bin.js`).
fn make_tarball() -> Vec<u8> {
    let gz = flate2::write::GzEncoder::new(Vec::new(), flate2::Compression::default());
    let mut builder = tar::Builder::new(gz);
    let data = b"#!/usr/bin/env node\nconsole.log('hi');\n";
    let mut header = tar::Header::new_gnu();
    header.set_size(data.len() as u64);
    header.set_mode(0o755);
    header.set_cksum();
    builder.append_data(&mut header, "node-app/lib/bin.js", &data[..]).unwrap();
    builder.into_inner().unwrap().finish().unwrap()
}

#[test]
fn known_digests() {
    assert_eq!(
        hash(&[]).unwrap(),
        "e3b0c44298fc1c149afbf4c8996fb92427ae41e4649b934ca495991b7852b855"
    );
    assert_eq!(
        hash(&[b"abc"]).unwrap(),
        "ba7816bf8f01cfea414140de5dae2223b00361a396177a9cb410ff61f20015ad"
    );
}

#[test]
fn chunking_does_not_matter() {
    let whole = hash(&[b"abcdefghij"]).unwrap();
    assert_eq!(hash(&[b"a", b"bcd", b"efghij"]).unwrap(), whole);
    assert_eq!(hash(&[b"abcdefghi", b"j"]).unwrap(), whole);
    assert_ne!(hash(&[b"abcdefghij", b"k"]).unwrap(), whole);
}

#[test]
fn checksums_are_lower_case_hexadecimal() {
    for bytes in [&b""[..], b"abc", b"\x00\xff", b"node-app"] {
        let sum = hash(&[bytes]).unwrap();
        assert_eq!(sum.len(), 64);
        assert!(sum.chars().all(|c| c.is_ascii_digit() || ('a'..='f').contains(&c)));
    }
}

#[test]
fn reading_counts_bytes() {
    let digest = FileDigest::sha256_file(Ok(())).ok().unwrap();
    assert_eq!(digest.length(), 0);
    match digest.absorb(Ok(vec![1, 2, 3])) {
        DigestStep::More(next) => assert_eq!(next.length(), 3),
        DigestStep::Done(_) => panic!("not at the end"),
    }
}

#[test]
fn failures_are_named() {
    assert_eq!(
        FileDigest::sha256_file(Err("no such file".to_string())).err(),
        Some("open: no such file".to_string())
    );
    let digest = FileDigest::sha256_file(Ok(())).ok().unwrap();
    match digest.absorb(Err("broken disk".to_string())) {
        DigestStep::Done(result) => assert_eq!(result, Err("read: broken disk".to_string())),
        DigestStep::More(_) => panic!("a failure ends it"),
    }
}

#[test]
fn sha256_and_extract_roundtrip() {
    let tarball = make_tarball();
    let digest = hash(&[&tarball]).unwrap();
    assert_eq!(digest.len(), 64);

    let mut archive = tar::Archive::new(flate2::read::GzDecoder::new(&tarball[..]));
    let mut paths = Vec::new();
    for entry in archive.entries().unwrap() {
        let mut entry = entry.unwrap();
        paths.push(entry.path().unwrap().into_owned());
        let mut text = String::new();
        entry.read_to_string(&mut text).unwrap();
        assert_eq!(text, "#!/usr/bin/env node\nconsole.log('hi');\n");
    }
    let out = std::path::Path::new("out");
    assert!(paths.iter().any(|path| out.join(path) == deepseek_desktop::paths::node_app_entry(out)));
}
