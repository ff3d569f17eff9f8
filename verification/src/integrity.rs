//! Integrity strings: an algorithm tag, a dash and the encoded digest.
//!
//! Two algorithms are known, SHA-1 and SHA-512. The digests themselves are
//! computed by the `ssri` crate; what this module proves is stated over the
//! names given here to what that crate returns.

use vstd::prelude::*;
use vstd::string::*;
use crate::content_path::{is_hex, store_path, store_path_of, FileType};
use crate::error::FetchError;

verus! {

/// The hash algorithms an integrity string may be tagged with.
#[derive(Clone, Copy, Debug, PartialEq, Eq, Structural)]
pub enum HashAlgorithm {
    /// The legacy algorithm, tagged `sha1`.
    Sha1,
    /// The strong algorithm, tagged `sha512`.
    Sha512,
}

/// The digest of `data` under `algorithm`, in lower-case hexadecimal.
pub uninterp spec fn hex_digest(algorithm: HashAlgorithm, data: Seq<u8>) -> Seq<char>;

/// The SHA-512 digest of `data` in base64, as it stands in an integrity
/// string behind the tag and the dash.
pub uninterp spec fn sha512_base64(data: Seq<u8>) -> Seq<char>;

/// The hexadecimal form of the digest that the integrity string `integrity`
/// carries in base64, if the string can be parsed.
pub uninterp spec fn integrity_hex(integrity: Seq<char>) -> Option<Seq<char>>;

/// The number of hexadecimal digits in a digest.
pub open spec fn hex_digest_len(algorithm: HashAlgorithm) -> nat {
    match algorithm {
        HashAlgorithm::Sha1 => 40,
        HashAlgorithm::Sha512 => 128,
    }
}

/// The tag of SHA-512 and the dash after it.
pub open spec fn sha512_tag() -> Seq<char> {
    seq!['s', 'h', 'a', '5', '1', '2', '-']
}

/// The tag of SHA-1 and the dash after it.
pub open spec fn sha1_tag() -> Seq<char> {
    seq!['s', 'h', 'a', '1', '-']
}

/// `s` begins with `prefix`.
pub open spec fn has_prefix(s: Seq<char>, prefix: Seq<char>) -> bool {
    s.len() >= prefix.len() && s.subrange(0, prefix.len() as int) == prefix
}

/// Hashes `data` with `ssri::IntegrityOpts` under one algorithm and takes
/// the digest from `ssri::Integrity::to_hex`. Trusted: the result is the
/// named digest, written by `hex::encode` with two lower-case hexadecimal
/// digits for each of the 20 (SHA-1) or 64 (SHA-512) bytes of the digest.
#[verifier::external_body]
pub(crate) fn hex_digest_of(algorithm: HashAlgorithm, data: &[u8]) -> (hex: String)
    ensures
        hex@ == hex_digest(algorithm, data@),
        hex@.len() == hex_digest_len(algorithm),
        is_hex(hex@),
{
    let algorithm = match algorithm {
        HashAlgorithm::Sha1 => ssri::Algorithm::Sha1,
        HashAlgorithm::Sha512 => ssri::Algorithm::Sha512,
    };
    ssri::IntegrityOpts::new().algorithm(algorithm).chain(data).result().to_hex().1
}

/// Hashes `data` with `ssri::IntegrityOpts` under SHA-512 and formats the
/// resulting `ssri::Integrity`. Trusted: `ssri` writes the one hash of the
/// result as the algorithm's tag `sha512`, a dash, and the named digest.
#[verifier::external_body]
fn sha512_integrity_of(data: &[u8]) -> (integrity: String)
    ensures
        integrity@ == sha512_tag() + sha512_base64(data@),
{
    ssri::IntegrityOpts::new().algorithm(ssri::Algorithm::Sha512).chain(data).result().to_string()
}

/// The checksum of `data` in the form in which it is held against an
/// expected one: for SHA-1 the tag and the digest in hexadecimal, for
/// SHA-512 the integrity string.
pub open spec fn checksum(algorithm: HashAlgorithm, data: Seq<u8>) -> Seq<char> {
    match algorithm {
        HashAlgorithm::Sha1 => sha1_tag() + hex_digest(HashAlgorithm::Sha1, data),
        HashAlgorithm::Sha512 => sha512_tag() + sha512_base64(data),
    }
}

/// Computes the checksum of `data` under `algorithm`.
pub fn calc_hash(data: &[u8], algorithm: HashAlgorithm) -> (sum: String)
    ensures
        sum@ == checksum(algorithm, data@),
{
    match algorithm {
        HashAlgorithm::Sha1 => {
            let hex = hex_digest_of(HashAlgorithm::Sha1, data);
            proof {
                reveal_strlit("sha1-");
            }
            let mut sum = String::from_str("sha1-");
            assert(sum@ =~= sha1_tag());
            sum.append(hex.as_str());
            sum
        },
        HashAlgorithm::Sha512 => sha512_integrity_of(data),
    }
}

/// The algorithm that an expected checksum asks for: SHA-1 where the string
/// begins with `sha1`, SHA-512 in every other case.
pub open spec fn expected_algorithm(expected: Seq<char>) -> HashAlgorithm {
    if expected.len() >= 4 && expected[0] == 's' && expected[1] == 'h' && expected[2] == 'a'
        && expected[3] == '1' {
        HashAlgorithm::Sha1
    } else {
        HashAlgorithm::Sha512
    }
}

/// A checksum asks for the algorithm it was computed with, so the checksum
/// of some bytes is found to be the expected one when it is held against
/// those bytes.
pub proof fn lemma_own_checksum_verifies(algorithm: HashAlgorithm, data: Seq<u8>)
    ensures
        expected_algorithm(checksum(algorithm, data)) == algorithm,
        verdict(
            checksum(algorithm, data),
            checksum(expected_algorithm(checksum(algorithm, data)), data),
        ) == (true, None::<Seq<char>>),
{
    let sum = checksum(algorithm, data);
    match algorithm {
        HashAlgorithm::Sha1 => {
            assert(sum[3] == sha1_tag()[3]);
            assert(sum[0] == sha1_tag()[0]);
            assert(sum[1] == sha1_tag()[1]);
            assert(sum[2] == sha1_tag()[2]);
        },
        HashAlgorithm::Sha512 => {
            assert(sum[3] == sha512_tag()[3]);
        },
    }
}

/// Bytes whose checksum is not the expected one are found not to match,
/// and the checksum that is reported for them is their own.
pub proof fn lemma_other_checksum_fails(expected: Seq<char>, data: Seq<u8>)
    requires
        checksum(expected_algorithm(expected), data) != expected,
    ensures
        verdict(expected, checksum(expected_algorithm(expected), data)) == (
            false,
            Some(checksum(expected_algorithm(expected), data)),
        ),
{
}

/// Picks the algorithm that `expected` asks for.
pub fn pick_algorithm(expected: &str) -> (algorithm: HashAlgorithm)
    ensures
        algorithm == expected_algorithm(expected@),
{
    let n: usize = expected.unicode_len();
    if n >= 4 && expected.get_char(0) == 's' && expected.get_char(1) == 'h' && expected.get_char(2)
        == 'a' && expected.get_char(3) == '1' {
        HashAlgorithm::Sha1
    } else {
        HashAlgorithm::Sha512
    }
}

/// The verdict on a computed checksum: whether it is the expected one,
/// letter for letter, and if it is not, the computed one.
pub open spec fn verdict(expected: Seq<char>, calculated: Seq<char>) -> (bool, Option<Seq<char>>) {
    if calculated == expected {
        (true, None)
    } else {
        (false, Some(calculated))
    }
}

/// Holds a computed checksum against the expected one.
pub fn check_digest(expected: &str, calculated: String) -> (v: (bool, Option<String>))
    ensures
        v.deep_view() == verdict(expected@, calculated@),
{
    let wanted: String = expected.to_owned();
    if calculated == wanted {
        (true, None)
    } else {
        (false, Some(calculated))
    }
}

/// Checks `response` against the checksum `expected_checksum`, under the
/// algorithm that the checksum's tag asks for. Never fails.
pub fn verify_checksum(response: &[u8], expected_checksum: &str) -> (r: Result<
    (bool, Option<String>),
    FetchError,
>)
    ensures
        r matches Ok(v) && v.deep_view() == verdict(
            expected_checksum@,
            checksum(expected_algorithm(expected_checksum@), response@),
        ),
{
    let algorithm = pick_algorithm(expected_checksum);
    let calculated = calc_hash(response, algorithm);
    Ok(check_digest(expected_checksum, calculated))
}

/// A character of the base64 alphabet.
pub open spec fn is_base64_char(c: char) -> bool {
    ('A' <= c <= 'Z') || ('a' <= c <= 'z') || ('0' <= c <= '9') || c == '+' || c == '/'
}

/// The six bits that a character of the base64 alphabet stands for.
pub open spec fn base64_value(c: char) -> int {
    if 'A' <= c <= 'Z' {
        c as int - 'A' as int
    } else if 'a' <= c <= 'z' {
        c as int - 'a' as int + 26
    } else if '0' <= c <= '9' {
        c as int - '0' as int + 52
    } else if c == '+' {
        62
    } else {
        63
    }
}

/// The number of `=` signs that close `d`, two at most.
pub open spec fn padding_len(d: Seq<char>) -> int {
    if d.len() >= 2 && d[d.len() - 1] == '=' && d[d.len() - 2] == '=' {
        2
    } else if d.len() >= 1 && d[d.len() - 1] == '=' {
        1
    } else {
        0
    }
}

/// `d` is base64 in canonical form: whole groups of four characters, the
/// last of them padded with at most two `=` signs, and no bit set in the
/// last character that the padding says is not part of the data.
pub open spec fn is_canonical_base64(d: Seq<char>) -> bool {
    let pad = padding_len(d);
    let body = d.len() - pad;
    &&& d.len() % 4 == 0
    &&& forall|i: int| 0 <= i < body ==> is_base64_char(#[trigger] d[i])
    &&& pad == 1 ==> base64_value(d[body - 1]) % 4 == 0
    &&& pad == 2 ==> base64_value(d[body - 1]) % 16 == 0
}

/// The length of the tag, with its dash, that opens `s`: one of the two
/// known tags, or nothing.
pub open spec fn tag_len(s: Seq<char>) -> Option<int> {
    if has_prefix(s, sha512_tag()) {
        Some(7)
    } else if has_prefix(s, sha1_tag()) {
        Some(5)
    } else {
        None
    }
}

/// `s` is a single tagged digest whose base64 can be decoded: a known tag,
/// a dash, and canonical base64 up to the end of the string.
pub open spec fn is_decodable(s: Seq<char>) -> bool {
    tag_len(s) matches Some(n) && is_canonical_base64(s.subrange(n, s.len() as int))
}

/// A decodable integrity string is ASCII.
pub proof fn lemma_decodable_is_ascii(s: Seq<char>)
    requires
        is_decodable(s),
    ensures
        vstd::utf8::is_ascii_chars(s),
{
    let n = tag_len(s)->0;
    let d = s.subrange(n, s.len() as int);
    let body = d.len() - padding_len(d);
    assert forall|i: int| 0 <= i < s.len() implies '\0' <= #[trigger] s[i] <= '\u{7f}' by {
        if i < n {
            if has_prefix(s, sha512_tag()) {
                assert(s.subrange(0, 7)[i] == sha512_tag()[i]);
            } else {
                assert(s.subrange(0, 5)[i] == sha1_tag()[i]);
            }
        } else {
            assert(s[i] == d[i - n]);
            if i - n < body {
                assert(is_base64_char(d[i - n]));
            }
        }
    }
}

/// Tells whether the bytes of an ASCII string begin with the given tag.
fn begins_with(bytes: &[u8], tag: &[u8]) -> (r: bool)
    ensures
        r == (bytes@.len() >= tag@.len() && bytes@.subrange(0, tag@.len() as int) == tag@),
{
    if bytes.len() < tag.len() {
        return false;
    }
    let mut i: usize = 0;
    while i < tag.len()
        invariant
            i <= tag@.len() <= bytes@.len(),
            forall|j: int| 0 <= j < i ==> bytes@[j] == tag@[j],
        decreases tag@.len() - i,
    {
        if bytes[i] != tag[i] {
            assert(bytes@.subrange(0, tag@.len() as int)[i as int] != tag@[i as int]);
            return false;
        }
        i += 1;
    }
    assert(bytes@.subrange(0, tag@.len() as int) =~= tag@);
    true
}

/// The six bits of a base64 character given as a byte, or 64 where the byte
/// is not of the alphabet.
fn base64_bits(b: u8) -> (v: u8)
    ensures
        v <= 64,
        v < 64 <==> is_base64_char(b as char),
        v < 64 ==> v == base64_value(b as char),
{
    if 65 <= b && b <= 90 {
        b - 65
    } else if 97 <= b && b <= 122 {
        b - 97 + 26
    } else if 48 <= b && b <= 57 {
        b - 48 + 52
    } else if b == 43 {
        62
    } else if b == 47 {
        63
    } else {
        64
    }
}

/// Tells whether `integrity` is a single tagged digest whose base64 can be
/// decoded.
pub fn is_decodable_integrity(integrity: &str) -> (r: bool)
    ensures
        r == is_decodable(integrity@),
{
    if !integrity.is_ascii() {
        proof {
            if is_decodable(integrity@) {
                lemma_decodable_is_ascii(integrity@);
            }
        }
        return false;
    }
    let bytes: &[u8] = integrity.as_bytes();
    let ghost s = integrity@;
    proof {
        vstd::utf8::is_ascii_chars_encode_utf8(s);
        vstd::utf8::is_ascii_chars_nat_bound(s);
        assert(bytes@.len() == s.len());
        assert forall|i: int| 0 <= i < s.len() implies (#[trigger] bytes@[i]) as char == s[i] by {
            assert(s[i] as u8 == bytes@[i]);
            assert((s[i] as nat) < 128);
        }
    }
    let tag512: [u8; 7] = [115, 104, 97, 53, 49, 50, 45];
    let tag1: [u8; 5] = [115, 104, 97, 49, 45];
    let start: usize = if begins_with(bytes, tag512.as_slice()) {
        7
    } else if begins_with(bytes, tag1.as_slice()) {
        5
    } else {
        0
    };
    proof {
        assert(has_prefix(s, sha512_tag()) <==> (bytes@.len() >= 7 && bytes@.subrange(0, 7)
            == tag512@)) by {
            if s.len() >= 7 {
                if has_prefix(s, sha512_tag()) {
                    assert forall|j: int| 0 <= j < 7 implies bytes@.subrange(0, 7)[j]
                        == tag512@[j] by {
                        assert(s.subrange(0, 7)[j] == sha512_tag()[j]);
                        assert(bytes@[j] as char == s[j]);
                    }
                    assert(bytes@.subrange(0, 7) =~= tag512@);
                } else if bytes@.subrange(0, 7) == tag512@ {
                    assert forall|j: int| 0 <= j < 7 implies s.subrange(0, 7)[j]
                        == sha512_tag()[j] by {
                        assert(bytes@.subrange(0, 7)[j] == tag512@[j]);
                        assert(bytes@[j] as char == s[j]);
                    }
                    assert(s.subrange(0, 7) =~= sha512_tag());
                }
            }
        }
        assert(has_prefix(s, sha1_tag()) <==> (bytes@.len() >= 5 && bytes@.subrange(0, 5)
            == tag1@)) by {
            if s.len() >= 5 {
                if has_prefix(s, sha1_tag()) {
                    assert forall|j: int| 0 <= j < 5 implies bytes@.subrange(0, 5)[j]
                        == tag1@[j] by {
                        assert(s.subrange(0, 5)[j] == sha1_tag()[j]);
                        assert(bytes@[j] as char == s[j]);
                    }
                    assert(bytes@.subrange(0, 5) =~= tag1@);
                } else if bytes@.subrange(0, 5) == tag1@ {
                    assert forall|j: int| 0 <= j < 5 implies s.subrange(0, 5)[j]
                        == sha1_tag()[j] by {
                        assert(bytes@.subrange(0, 5)[j] == tag1@[j]);
                        assert(bytes@[j] as char == s[j]);
                    }
                    assert(s.subrange(0, 5) =~= sha1_tag());
                }
            }
        }
    }
    if start == 0 {
        return false;
    }
    let n: usize = bytes.len();
    let ghost d = s.subrange(start as int, s.len() as int);
    assert(tag_len(s) == Some(start as int));
    assert(forall|i: int| 0 <= i < d.len() ==> d[i] == (#[trigger] bytes@[start + i]) as char);
    let len: usize = n - start;
    if len % 4 != 0 {
        return false;
    }
    let pad: usize = if len >= 2 && bytes[n - 1] == 61 && bytes[n - 2] == 61 {
        2
    } else if len >= 1 && bytes[n - 1] == 61 {
        1
    } else {
        0
    };
    assert(pad == padding_len(d)) by {
        if len >= 1 {
            assert(d[d.len() - 1] == bytes@[start + (d.len() - 1)] as char);
        }
        if len >= 2 {
            assert(d[d.len() - 2] == bytes@[start + (d.len() - 2)] as char);
        }
    }
    let body: usize = len - pad;
    let mut i: usize = 0;
    while i < body
        invariant
            i <= body,
            body + pad == len,
            start + len == n,
            n == bytes@.len(),
            d.len() == len,
            pad == padding_len(d),
            tag_len(integrity@) == Some(start as int),
            d == integrity@.subrange(start as int, integrity@.len() as int),
            forall|k: int| 0 <= k < d.len() ==> d[k] == (#[trigger] bytes@[start + k]) as char,
            forall|k: int| 0 <= k < i ==> is_base64_char(#[trigger] d[k]),
        decreases body - i,
    {
        let v: u8 = base64_bits(bytes[start + i]);
        if v == 64 {
            assert(d[i as int] == bytes@[start + i] as char);
            assert(!is_base64_char(d[i as int]));
            return false;
        }
        assert(d[i as int] == bytes@[start + i] as char);
        i += 1;
    }
    if pad == 0 {
        return true;
    }
    assert(body >= 2);
    let last: u8 = base64_bits(bytes[start + body - 1]);
    assert(d[body - 1] == bytes@[start + (body - 1)] as char);
    assert(is_base64_char(d[body - 1]));
    if pad == 1 {
        last % 4 == 0
    } else {
        last % 16 == 0
    }
}

/// Parses `integrity` with `ssri::Integrity`'s `FromStr` and takes the digest
/// from `ssri::Integrity::to_hex`. Trusted: the result is the named one.
/// `to_hex` stops the program on a digest that is not canonical base64, so
/// only strings that were found decodable may be handed in.
#[verifier::external_body]
fn integrity_hex_of(integrity: &str) -> (hex: Option<String>)
    requires
        is_decodable(integrity@),
    ensures
        match hex {
            Some(h) => integrity_hex(integrity@) == Some(h@),
            None => integrity_hex(integrity@) is None,
        },
{
    let parsed: ssri::Integrity = integrity.parse().ok()?;
    Some(parsed.to_hex().1)
}

/// Where the index of the package with integrity string `integrity` is
/// stored: under the digest that the string carries, if it is decodable and
/// carries one.
pub open spec fn index_location_of(integrity: Seq<char>) -> Option<Seq<char>> {
    if !is_decodable(integrity) {
        None
    } else {
        match integrity_hex(integrity) {
            Some(hex) => store_path_of(FileType::Index, hex),
            None => None,
        }
    }
}

/// Gives the store path of the index of the package whose expected
/// integrity string is `integrity`.
pub fn index_location(integrity: &str) -> (path: Option<String>)
    ensures
        path.deep_view() == index_location_of(integrity@),
{
    if !is_decodable_integrity(integrity) {
        return None;
    }
    match integrity_hex_of(integrity) {
        Some(hex) => store_path(FileType::Index, hex.as_str()),
        None => None,
    }
}

} // verus!
