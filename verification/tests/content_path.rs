use std::path::PathBuf;

use tarball_store::content_path::{is_hex_string, store_path};
use tarball_store::{content_path_from_hex, FileType};

#[test]
fn create_content_path_from_hex() {
    assert_eq!(
        PathBuf::from(content_path_from_hex(
            FileType::NonExec,
            "1234567890abcdef1234567890abcdef12345678"
        )),
        PathBuf::from("12/34567890abcdef1234567890abcdef12345678")
    );
    assert_eq!(
        PathBuf::from(content_path_from_hex(
            FileType::Exec,
            "1234567890abcdef1234567890abcdef12345678"
        )),
        PathBuf::from("12/34567890abcdef1234567890abcdef12345678-exec")
    );
    assert_eq!(
        PathBuf::from(content_path_from_hex(
            FileType::Index,
            "1234567890abcdef1234567890abcdef12345678"
        )),
        PathBuf::from("12/34567890abcdef1234567890abcdef12345678-index.json")
    );
}

#[test]
fn hex_strings_are_told_apart() {
    assert!(is_hex_string("0123456789abcdefABCDEF"));
    assert!(is_hex_string(""));
    assert!(!is_hex_string("12g4"));
    assert!(!is_hex_string("12/4"));
    assert!(!is_hex_string("12-index"));
    assert!(!is_hex_string("caf\u{e9}"));
}

#[test]
fn store_path_shards_a_digest() {
    assert_eq!(store_path(FileType::Index, "ab"), Some("ab/-index.json".to_string()));
    assert_eq!(store_path(FileType::Index, "AB12cd"), Some("AB/12cd-index.json".to_string()));
    assert_eq!(store_path(FileType::Exec, "ab12"), Some("ab/12-exec".to_string()));
    assert_eq!(store_path(FileType::NonExec, "ab12"), Some("ab/12".to_string()));
}

#[test]
fn store_path_refuses_what_is_no_digest() {
    for kind in [FileType::NonExec, FileType::Exec, FileType::Index] {
        assert_eq!(store_path(kind, "a"), None);
        assert_eq!(store_path(kind, ""), None);
        assert_eq!(store_path(kind, "zz12"), None);
        assert_eq!(store_path(kind, "ab/cd"), None);
        assert_eq!(store_path(kind, "ab-exec"), None);
    }
}
