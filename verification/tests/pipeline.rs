use std::collections::HashMap;

use tarball_store::archive::StorePlan;
use tarball_store::content_path::{content_path_from_hex, FileType};
use tarball_store::error::{DecompressError, FetchError};
use tarball_store::fetch::fetch_tarball;
use tarball_store::integrity::{calc_hash, HashAlgorithm};
use tarball_store::store::{Stage, StoreReply, StoreRequest, StoreSession};

const HI: &str = "15/0a14ed5bea6cc731cf86c41566ac427a8db48ef1b9fd626664b3bfbb99071fa4c922f33dde38719b8c8354e2b7ab9d77e0e67fc12843920a712e73d558e197";
const BYE: &str = "23/c9dee78e969bb483fdae563d681af010b77748dfbd959422abb792fa454db8e3d9cb4e1a3224066b349465f09a710d025e856db19da25d55c3928abef17c8c";

fn tarball() -> Vec<u8> {
    let mut builder = tar::Builder::new(Vec::new());
    for (path, body) in [("root/a.txt", &b"hi"[..]), ("root/b.txt", &b"bye"[..])] {
        let mut header = tar::Header::new_gnu();
        header.set_mode(0o644);
        header.set_size(body.len() as u64);
        builder.append_data(&mut header, path, body).unwrap();
    }
    gzip_of(&builder.into_inner().unwrap())
}

fn gzip_of(data: &[u8]) -> Vec<u8> {
    let mut compressor = libdeflater::Compressor::new(libdeflater::CompressionLvl::default());
    let mut out = vec![0u8; compressor.gzip_compress_bound(data.len())];
    let n = compressor.gzip_compress(data, &mut out).unwrap();
    out.truncate(n);
    out
}

/// Carries the plan out against a store held in memory. Gives the index and
/// the number of objects and of index files written.
fn carry_out(plan: StorePlan, store: &mut HashMap<String, Vec<u8>>) -> (HashMap<String, String>, usize, usize) {
    let mut session = StoreSession::new(plan);
    let mut index_files = 0;
    loop {
        let reply = match session.request() {
            StoreRequest::Probe { path } => {
                if store.contains_key(path) {
                    StoreReply::Present
                } else {
                    StoreReply::Absent
                }
            }
            StoreRequest::Write { path, contents } => {
                if path.ends_with("-index.json") {
                    index_files += 1;
                }
                store.insert(path.to_string(), contents.to_vec());
                StoreReply::Written
            }
            StoreRequest::Finished | StoreRequest::Stopped => break,
        };
        session.record(reply);
    }
    assert_eq!(session.stage(), Stage::Done);
    let written = session.written();
    let index = session.finish().unwrap();
    let map = (0..index.len())
        .map(|i| (index.entry(i).key.clone(), index.entry(i).path.clone()))
        .collect();
    (map, written, index_files)
}

#[test]
fn tarball_is_ingested() {
    let gz = tarball();
    let integrity = calc_hash(&gz, HashAlgorithm::Sha512);
    let plan = fetch_tarball(&gz, &integrity).unwrap();

    let mut store = HashMap::new();
    let (index, written, index_files) = carry_out(plan.clone(), &mut store);
    let mut expected = HashMap::new();
    expected.insert("a.txt".to_string(), HI.to_string());
    expected.insert("b.txt".to_string(), BYE.to_string());
    assert_eq!(index, expected);
    assert_eq!(written, 2);
    assert_eq!(index_files, 1);
    assert_eq!(store.len(), 3);
    assert_eq!(store[HI], b"hi".to_vec());
    assert_eq!(store[BYE], b"bye".to_vec());

    // The index is kept under the digest of the compressed bytes.
    use_index_location(&gz, &plan, &store);

    // A repeat with the same inputs writes no object.
    let again = fetch_tarball(&gz, &integrity).unwrap();
    assert_eq!(again, plan);
    let before = store.clone();
    let (index, written, index_files) = carry_out(again, &mut store);
    assert_eq!(index, expected);
    assert_eq!(written, 0);
    assert_eq!(index_files, 1);
    assert_eq!(store, before);
}

fn use_index_location(gz: &[u8], plan: &StorePlan, store: &HashMap<String, Vec<u8>>) {
    let sri: ssri::Integrity = ssri::IntegrityOpts::new()
        .algorithm(ssri::Algorithm::Sha512)
        .chain(gz)
        .result();
    let location = content_path_from_hex(FileType::Index, &sri.to_hex().1);
    assert_eq!(plan.index_file.path, location);
    assert_eq!(
        String::from_utf8(store[&location].clone()).unwrap(),
        format!("{{\"a.txt\":\"{}\",\"b.txt\":\"{}\"}}", HI, BYE)
    );
}

#[test]
fn tarball_with_a_sha1_checksum_is_ingested() {
    let gz = tarball();
    let checksum = calc_hash(&gz, HashAlgorithm::Sha1);
    assert!(checksum.starts_with("sha1-"));
    let plan = fetch_tarball(&gz, &checksum).unwrap();
    assert_eq!(plan.index.get("a.txt"), Some(&HI.to_string()));
    assert_eq!(plan.index.get("b.txt"), Some(&BYE.to_string()));
    assert_eq!(plan.objects.len(), 2);
    assert!(plan.index_file.path.ends_with("-index.json"));
    assert_eq!(plan.index_file.path.len(), 60 + 1 + "-index.json".len());
}

#[test]
fn flipped_digest_is_an_integrity_error() {
    let gz = tarball();
    let weak = calc_hash(&gz, HashAlgorithm::Sha1);
    let last = weak.chars().last().unwrap();
    let flipped = format!("{}{}", &weak[..weak.len() - 1], if last == '0' { '1' } else { '0' });
    assert_eq!(
        fetch_tarball(&gz, &flipped),
        Err(FetchError::Integrity { expected: flipped.clone(), actual: weak })
    );

    let strong = calc_hash(&gz, HashAlgorithm::Sha512);
    let at = "sha512-".len() + 10;
    let swapped = if strong.as_bytes()[at] == b'A' { "B" } else { "A" };
    let flipped = format!("{}{}{}", &strong[..at], swapped, &strong[at + 1..]);
    let r = fetch_tarball(&gz, &flipped);
    assert_eq!(
        r,
        Err(FetchError::Integrity { expected: flipped.clone(), actual: strong })
    );
    // Nothing was planned, so no store was asked anything.
    assert!(r.is_err());
}

#[test]
fn flipped_byte_is_an_integrity_error() {
    let gz = tarball();
    let integrity = calc_hash(&gz, HashAlgorithm::Sha512);
    let mut mutated = gz.clone();
    mutated[20] ^= 1;
    let actual = calc_hash(&mutated, HashAlgorithm::Sha512);
    assert_ne!(actual, integrity);
    assert_eq!(
        fetch_tarball(&mutated, &integrity),
        Err(FetchError::Integrity { expected: integrity, actual })
    );
}

#[test]
fn verified_bytes_that_are_no_gzip_fail_to_decompress() {
    let data = b"no gzip at all\x04\x00\x00\x00".to_vec();
    let integrity = calc_hash(&data, HashAlgorithm::Sha512);
    assert_eq!(
        fetch_tarball(&data, &integrity),
        Err(FetchError::Decompress(DecompressError::BadData))
    );
    let short = b"abc".to_vec();
    let integrity = calc_hash(&short, HashAlgorithm::Sha512);
    assert_eq!(
        fetch_tarball(&short, &integrity),
        Err(FetchError::Decompress(DecompressError::TooShort))
    );
}

#[test]
fn verified_gzip_that_is_no_archive_fails_to_unpack() {
    let gz = gzip_of(&[0x55u8; 1024]);
    let integrity = calc_hash(&gz, HashAlgorithm::Sha512);
    assert!(matches!(fetch_tarball(&gz, &integrity), Err(FetchError::Archive(_))));
}

#[test]
fn store_paths_are_stable_and_distinct() {
    let digest = "150a14ed5bea6cc731cf86c41566ac427a8db48ef1b9fd626664b3bfbb99071f";
    let other = "150a14ed5bea6cc731cf86c41566ac427a8db48ef1b9fd626664b3bfbb990720";
    let kinds = [FileType::NonExec, FileType::Exec, FileType::Index];
    let mut seen = Vec::new();
    for hex in [digest, other] {
        for kind in kinds {
            let path = content_path_from_hex(kind, hex);
            assert_eq!(path, content_path_from_hex(kind, hex));
            assert!(!seen.contains(&path));
            seen.push(path);
        }
    }
    assert_eq!(seen.len(), 6);
}
