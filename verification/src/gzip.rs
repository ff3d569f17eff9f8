//! Inflating a gzip stream in one pass, into a buffer of the size that the
//! stream's last four bytes announce.

use vstd::prelude::*;
use crate::error::{DecompressError, FetchError, FetchErrorView};

verus! {

#[verifier::external_type_specification]
#[verifier::external_body]
pub struct ExDecompressor(libdeflater::Decompressor);

/// `libdeflater::Decompressor::new` hands out a fresh inflater. Nothing is
/// claimed of it.
pub assume_specification[ libdeflater::Decompressor::new ]() -> (d: libdeflater::Decompressor)
;

/// Why the inflater gave up.
#[derive(Clone, Copy, Debug, PartialEq, Eq, Structural)]
pub enum InflateError {
    /// The stream is malformed, or a checksum or size in it is wrong.
    BadData,
    /// The stream holds more data than there is room for.
    InsufficientSpace,
}

/// What inflating the first member of the gzip stream `gz` into a buffer of
/// `room` bytes gives: the inflated bytes, or why there are none.
pub uninterp spec fn gzip_inflated(gz: Seq<u8>, room: nat) -> Result<Seq<u8>, InflateError>;

/// Calls `libdeflater::Decompressor::gzip_decompress` on the whole of `out`.
/// Trusted: the length of `out` is unchanged; on success the count that is
/// returned is at most that length and the bytes of `out` before it are the
/// named inflated bytes; on failure the error is the named one. Nothing is
/// claimed of the other bytes of `out`.
#[verifier::external_body]
fn gzip_inflate_into(
    inflater: &mut libdeflater::Decompressor,
    gz_data: &[u8],
    out: &mut Vec<u8>,
) -> (r: Result<usize, InflateError>)
    ensures
        final(out)@.len() == old(out)@.len(),
        match r {
            Ok(n) => n <= old(out)@.len() && gzip_inflated(gz_data@, old(out)@.len()) == Ok::<
                Seq<u8>,
                InflateError,
            >(final(out)@.subrange(0, n as int)),
            Err(e) => gzip_inflated(gz_data@, old(out)@.len()) == Err::<Seq<u8>, InflateError>(e),
        },
{
    match inflater.gzip_decompress(gz_data, out.as_mut_slice()) {
        Ok(n) => Ok(n),
        Err(libdeflater::DecompressionError::BadData) => Err(InflateError::BadData),
        Err(libdeflater::DecompressionError::InsufficientSpace) => Err(
            InflateError::InsufficientSpace,
        ),
    }
}

/// The size that a gzip stream announces: its last four bytes, read as a
/// little-endian number.
pub open spec fn footer_size(gz: Seq<u8>) -> nat
    recommends
        gz.len() >= 4,
{
    let n = gz.len() as int;
    (gz[n - 4] + 256 * gz[n - 3] + 65536 * gz[n - 2] + 16777216 * gz[n - 1]) as nat
}

/// What is made of the inflater's outcome: the inflated bytes if there are
/// exactly as many as were announced, and a failure in every other case.
pub open spec fn checked_inflation(
    announced: nat,
    outcome: Result<Seq<u8>, InflateError>,
) -> Result<Seq<u8>, DecompressError> {
    match outcome {
        Ok(bytes) => if bytes.len() == announced {
            Ok(bytes)
        } else {
            Err(DecompressError::SizeMismatch)
        },
        Err(InflateError::BadData) => Err(DecompressError::BadData),
        Err(InflateError::InsufficientSpace) => Err(DecompressError::InsufficientSpace),
    }
}

/// What decompressing `gz` gives.
pub open spec fn decompressed(gz: Seq<u8>) -> Result<Seq<u8>, DecompressError> {
    if gz.len() < 4 {
        Err(DecompressError::TooShort)
    } else {
        checked_inflation(footer_size(gz), gzip_inflated(gz, footer_size(gz)))
    }
}

/// What is decompressed has exactly the length that the stream announces,
/// and a stream too short to announce one is refused.
pub proof fn lemma_decompressed_length(gz: Seq<u8>)
    ensures
        decompressed(gz) matches Ok(bytes) ==> gz.len() >= 4 && bytes.len() == footer_size(gz),
        gz.len() < 4 ==> decompressed(gz) == Err::<Seq<u8>, DecompressError>(
            DecompressError::TooShort,
        ),
        gz.len() >= 4 ==> (gzip_inflated(gz, footer_size(gz)) matches Ok(bytes) ==> bytes.len()
            != footer_size(gz) ==> decompressed(gz) == Err::<Seq<u8>, DecompressError>(
            DecompressError::SizeMismatch,
        )),
{
}

/// The result of a stage that yields bytes, as a mathematical value.
pub open spec fn bytes_result_view(r: Result<Vec<u8>, FetchError>) -> Result<
    Seq<u8>,
    FetchErrorView,
> {
    match r {
        Ok(bytes) => Ok(bytes@),
        Err(e) => Err(e@),
    }
}

/// A failure to decompress, as the failure of the whole ingest.
pub open spec fn lift_decompressed(r: Result<Seq<u8>, DecompressError>) -> Result<
    Seq<u8>,
    FetchErrorView,
> {
    match r {
        Ok(bytes) => Ok(bytes),
        Err(kind) => Err(FetchErrorView::Decompress(kind)),
    }
}

/// Reads the size that the gzip stream `gz_data` announces.
pub fn read_footer_size(gz_data: &[u8]) -> (size: u32)
    requires
        gz_data@.len() >= 4,
    ensures
        size == footer_size(gz_data@),
{
    let n: usize = gz_data.len();
    let b0: u32 = gz_data[n - 4] as u32;
    let b1: u32 = gz_data[n - 3] as u32;
    let b2: u32 = gz_data[n - 2] as u32;
    let b3: u32 = gz_data[n - 1] as u32;
    b0 + 256 * b1 + 65536 * b2 + 16777216 * b3
}

/// Decides what the inflater's outcome amounts to: `outbuf` is the buffer
/// that was handed to it, `outcome` what it returned.
pub fn check_inflated(outbuf: Vec<u8>, outcome: Result<usize, InflateError>) -> (r: Result<
    Vec<u8>,
    FetchError,
>)
    ensures
        bytes_result_view(r) == (match outcome {
            Ok(n) => if n == outbuf@.len() {
                Ok::<Seq<u8>, FetchErrorView>(outbuf@)
            } else {
                Err::<Seq<u8>, FetchErrorView>(
                    FetchErrorView::Decompress(DecompressError::SizeMismatch),
                )
            },
            Err(InflateError::BadData) => Err::<Seq<u8>, FetchErrorView>(
                FetchErrorView::Decompress(DecompressError::BadData),
            ),
            Err(InflateError::InsufficientSpace) => Err::<Seq<u8>, FetchErrorView>(
                FetchErrorView::Decompress(DecompressError::InsufficientSpace),
            ),
        }),
{
    match outcome {
        Ok(n) => {
            if n == outbuf.len() {
                Ok(outbuf)
            } else {
                Err(FetchError::Decompress(DecompressError::SizeMismatch))
            }
        },
        Err(InflateError::BadData) => Err(FetchError::Decompress(DecompressError::BadData)),
        Err(InflateError::InsufficientSpace) => Err(
            FetchError::Decompress(DecompressError::InsufficientSpace),
        ),
    }
}

/// Decompresses a whole gzip stream. The stream's last four bytes say how
/// long the result is; the stream is inflated in one pass into a buffer of
/// exactly that length, and any other length is a failure.
pub fn decompress_gzip(gz_data: &[u8]) -> (r: Result<Vec<u8>, FetchError>)
    ensures
        bytes_result_view(r) == lift_decompressed(decompressed(gz_data@)),
        r matches Ok(bytes) ==> gz_data@.len() >= 4 && bytes@.len() == footer_size(gz_data@),
{
    if gz_data.len() < 4 {
        return Err(FetchError::Decompress(DecompressError::TooShort));
    }
    let announced: usize = read_footer_size(gz_data) as usize;
    let mut inflater = libdeflater::Decompressor::new();
    let mut outbuf: Vec<u8> = vec![0u8; announced];
    let outcome = gzip_inflate_into(&mut inflater, gz_data, &mut outbuf);
    proof {
        if let Ok(n) = outcome {
            if n == outbuf@.len() {
                assert(outbuf@.subrange(0, n as int) =~= outbuf@);
            }
        }
    }
    check_inflated(outbuf, outcome)
}

} // verus!
