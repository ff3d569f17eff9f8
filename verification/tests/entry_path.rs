use std::path::{Path, PathBuf};

use tarball_store::entry_path::{entry_key, strip_root};

#[test]
fn root_segment_is_stripped() {
    assert_eq!(strip_root(b"root-seg/lib/index.js"), b"lib/index.js".to_vec());
    assert_eq!(entry_key(b"root-seg/lib/index.js"), Some("lib/index.js".to_string()));
}

#[test]
fn package_paths() {
    assert_eq!(entry_key(b"package/package.json"), Some("package.json".to_string()));
    assert_eq!(entry_key(b"package/dist/a/b/c.js"), Some("dist/a/b/c.js".to_string()));
    assert_eq!(entry_key(b"root/a.txt"), Some("a.txt".to_string()));
}

#[test]
fn nothing_is_left_of_a_single_component() {
    assert_eq!(strip_root(b""), Vec::<u8>::new());
    assert_eq!(strip_root(b"package"), Vec::<u8>::new());
    assert_eq!(strip_root(b"package/"), Vec::<u8>::new());
    assert_eq!(strip_root(b"package//"), Vec::<u8>::new());
    assert_eq!(strip_root(b"package/."), Vec::<u8>::new());
    assert_eq!(strip_root(b"/"), Vec::<u8>::new());
    assert_eq!(strip_root(b"."), Vec::<u8>::new());
    assert_eq!(entry_key(b"package"), Some(String::new()));
}

#[test]
fn empty_segments_and_dots_are_dropped() {
    assert_eq!(strip_root(b"a//b/./c/"), b"b/c".to_vec());
    assert_eq!(strip_root(b"a/b//c"), b"b/c".to_vec());
    assert_eq!(strip_root(b"a/./././b"), b"b".to_vec());
    assert_eq!(strip_root(b"a/b/."), b"b".to_vec());
    assert_eq!(strip_root(b"a/.b/c."), b".b/c.".to_vec());
    assert_eq!(strip_root(b"a/.../b"), b".../b".to_vec());
}

#[test]
fn leading_dot_or_slash_counts_as_the_first_component() {
    assert_eq!(strip_root(b"./a/b"), b"a/b".to_vec());
    assert_eq!(strip_root(b"/a/b"), b"a/b".to_vec());
    assert_eq!(strip_root(b"//a/b"), b"a/b".to_vec());
    assert_eq!(strip_root(b".//a"), b"a".to_vec());
}

#[test]
fn parent_segments_are_kept() {
    assert_eq!(strip_root(b"a/../b"), b"../b".to_vec());
    assert_eq!(strip_root(b"a/b/.."), b"b/..".to_vec());
    assert_eq!(strip_root(b"../a"), b"a".to_vec());
}

#[test]
fn agrees_with_path_components() {
    let samples = [
        "root-seg/lib/index.js",
        "package/package.json",
        "package",
        "package/",
        "",
        "/",
        "//",
        ".",
        "./",
        "./.",
        "..",
        "a/b",
        "a//b",
        "a/./b",
        "a/b/",
        "a/b/.",
        "a/b/./",
        "a/../b",
        "./a/b",
        "././a/b",
        "/a/b",
        "//a//b//",
        "/./a",
        "a/.hidden/..b/c..",
        "a/ b /c",
        "a/b\\c/d",
        "a/\u{e9}t\u{e9}/\u{4e2d}\u{6587}.txt",
        "\u{e9}/x",
    ];
    for sample in samples {
        let expected: PathBuf = Path::new(sample).components().skip(1).collect();
        assert_eq!(
            entry_key(sample.as_bytes()),
            Some(expected.to_str().unwrap().to_string()),
            "{:?}",
            sample
        );
    }
}

#[test]
fn key_must_be_utf8() {
    assert_eq!(entry_key(b"package/caf\xe9.txt"), None);
    assert_eq!(entry_key(b"package/\xff"), None);
    assert_eq!(entry_key(b"package/\xc3"), None);
    assert_eq!(entry_key(b"package/caf\xc3\xa9.txt"), Some("caf\u{e9}.txt".to_string()));
    // What is stripped is never decoded.
    assert_eq!(entry_key(b"pack\xffage/a.txt"), Some("a.txt".to_string()));
}
