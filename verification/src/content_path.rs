//! Sharded store paths: where an object lives, given the hex digest of its
//! bytes and the kind of object it is.

use vstd::prelude::*;
use vstd::string::*;

verus! {

/// The kind of object stored under a digest.
#[derive(Clone, Copy, Debug, PartialEq, Eq, Structural)]
pub enum FileType {
    /// A file whose archive entry carries an executable permission bit.
    Exec,
    /// Any other regular file.
    NonExec,
    /// The index of a whole package, stored under the package's own digest.
    Index,
}

/// A hexadecimal digit, in either case.
pub open spec fn is_hex_char(c: char) -> bool {
    ('0' <= c <= '9') || ('A' <= c <= 'F') || ('a' <= c <= 'f')
}

/// A string made of hexadecimal digits only.
pub open spec fn is_hex(s: Seq<char>) -> bool {
    forall|i: int| 0 <= i < s.len() ==> is_hex_char(#[trigger] s[i])
}

/// What follows the digest in the file name of an object of the given kind.
pub open spec fn kind_suffix(kind: FileType) -> Seq<char> {
    match kind {
        FileType::Exec => "-exec"@,
        FileType::NonExec => ""@,
        FileType::Index => "-index.json"@,
    }
}

/// The store path of an object: the first two digits of the digest name a
/// directory, the remaining digits and the kind's suffix name the file in it.
pub open spec fn content_path(kind: FileType, hex: Seq<char>) -> Seq<char> {
    hex.subrange(0, 2) + seq!['/'] + hex.subrange(2, hex.len() as int) + kind_suffix(kind)
}

/// The suffix of a kind is empty or begins with a dash, and the three
/// suffixes differ in length.
pub proof fn lemma_kind_suffix(kind: FileType)
    ensures
        kind_suffix(kind).len() == (match kind {
            FileType::Exec => 5nat,
            FileType::NonExec => 0nat,
            FileType::Index => 11nat,
        }),
        kind_suffix(kind).len() > 0 ==> kind_suffix(kind)[0] == '-',
{
    reveal_strlit("-exec");
    reveal_strlit("");
    reveal_strlit("-index.json");
}

/// Two objects share a store path only if they are of one kind and have one
/// digest: the path tells both.
pub proof fn lemma_content_path_injective(
    kind1: FileType,
    hex1: Seq<char>,
    kind2: FileType,
    hex2: Seq<char>,
)
    requires
        hex1.len() >= 2,
        hex2.len() >= 2,
        is_hex(hex1),
        is_hex(hex2),
        content_path(kind1, hex1) == content_path(kind2, hex2),
    ensures
        kind1 == kind2,
        hex1 == hex2,
{
    lemma_kind_suffix(kind1);
    lemma_kind_suffix(kind2);
    let p1 = content_path(kind1, hex1);
    let p2 = content_path(kind2, hex2);
    let s1 = kind_suffix(kind1);
    let s2 = kind_suffix(kind2);
    assert(p1.len() == hex1.len() + 1 + s1.len());
    assert(p2.len() == hex2.len() + 1 + s2.len());
    if s1.len() < s2.len() {
        let at: int = hex2.len() as int + 1;
        assert(p2[at] == s2[0]);
        assert(p1[at] == hex1[at - 1]);
        assert(is_hex_char(hex1[at - 1]));
    } else if s2.len() < s1.len() {
        let at: int = hex1.len() as int + 1;
        assert(p1[at] == s1[0]);
        assert(p2[at] == hex2[at - 1]);
        assert(is_hex_char(hex2[at - 1]));
    } else {
        assert(hex1.len() == hex2.len());
        assert forall|i: int| 0 <= i < hex1.len() implies hex1[i] == hex2[i] by {
            if i < 2 {
                assert(p1[i] == hex1[i]);
                assert(p2[i] == hex2[i]);
            } else {
                assert(p1[i + 1] == hex1[i]);
                assert(p2[i + 1] == hex2[i]);
            }
        }
        assert(hex1 =~= hex2);
    }
}

/// Hexadecimal digits are ASCII.
pub proof fn lemma_hex_is_ascii(s: Seq<char>)
    requires
        is_hex(s),
    ensures
        vstd::utf8::is_ascii_chars(s),
{
    assert forall|i: int| 0 <= i < s.len() implies '\0' <= #[trigger] s[i] <= '\u{7f}' by {
        assert(is_hex_char(s[i]));
    }
}

/// Tells whether `s` is made of hexadecimal digits only.
pub fn is_hex_string(s: &str) -> (r: bool)
    ensures
        r == is_hex(s@),
{
    if !s.is_ascii() {
        proof {
            if is_hex(s@) {
                lemma_hex_is_ascii(s@);
            }
        }
        return false;
    }
    proof {
        vstd::utf8::is_ascii_chars_encode_utf8(s@);
    }
    let bytes: &[u8] = s.as_bytes();
    let n: usize = bytes.len();
    let mut i: usize = 0;
    while i < n
        invariant
            is_ascii(s),
            bytes@ == s.spec_bytes(),
            n == s@.len(),
            n == bytes@.len(),
            i <= n,
            forall|j: int| 0 <= j < i ==> is_hex_char(#[trigger] s@[j]),
        decreases n - i,
    {
        let b: u8 = bytes[i];
        let digit = (0x30 <= b && b <= 0x39) || (0x41 <= b && b <= 0x46) || (0x61 <= b && b <= 0x66);
        proof {
            vstd::utf8::is_ascii_chars_encode_utf8(s@);
            vstd::utf8::is_ascii_chars_nat_bound(s@);
            assert(s@[i as int] as u8 == b);
            assert(s@[i as int] as nat == b as nat);
        }
        if !digit {
            assert(!is_hex_char(s@[i as int]));
            return false;
        }
        assert(is_hex_char(s@[i as int]));
        i += 1;
    }
    true
}

/// Builds the store path of the object of kind `file_type` whose digest, in
/// hexadecimal, is `hex`.
pub fn content_path_from_hex(file_type: FileType, hex: &str) -> (path: String)
    requires
        hex@.len() >= 2,
        is_hex(hex@),
    ensures
        path@ == content_path(file_type, hex@),
{
    proof {
        lemma_hex_is_ascii(hex@);
        vstd::utf8::is_ascii_chars_encode_utf8(hex@);
    }

    let n: usize = hex.as_bytes().len();
    let shard: &str = hex.substring_ascii(0, 2);
    let rest: &str = hex.substring_ascii(2, n);
    let suffix: &str = match file_type {
        FileType::Exec => "-exec",
        FileType::NonExec => "",
        FileType::Index => "-index.json",
    };
    let mut path = String::from_str(shard);
    proof {
        reveal_strlit("/");
    }
    path.append("/");
    assert(path@ =~= hex@.subrange(0, 2) + seq!['/']);
    path.append(rest);
    path.append(suffix);
    path
}

/// The store path of an object whose digest is given as `hex`, if `hex` is
/// a digest at all: hexadecimal digits, two at least.
pub open spec fn store_path_of(kind: FileType, hex: Seq<char>) -> Option<Seq<char>> {
    if hex.len() >= 2 && is_hex(hex) {
        Some(content_path(kind, hex))
    } else {
        None
    }
}

/// Gives the store path of the object of kind `file_type` whose digest, in
/// hexadecimal, is `hex`, or nothing where `hex` is no digest.
pub fn store_path(file_type: FileType, hex: &str) -> (path: Option<String>)
    ensures
        path.deep_view() == store_path_of(file_type, hex@),
{
    if !is_hex_string(hex) {
        return None;
    }
    proof {
        lemma_hex_is_ascii(hex@);
        vstd::utf8::is_ascii_chars_encode_utf8(hex@);
    }
    if hex.as_bytes().len() < 2 {
        return None;
    }
    Some(content_path_from_hex(file_type, hex))
}

} // verus!
