//! The ways in which ingesting a tarball can fail.

use vstd::prelude::*;

verus! {

/// Why a gzip stream could not be inflated.
#[derive(Clone, Copy, Debug, PartialEq, Eq, Structural)]
pub enum DecompressError {
    /// The stream is shorter than the four bytes of its size field.
    TooShort,
    /// The inflater found the stream malformed or its checksum wrong.
    BadData,
    /// The stream holds more data than its size field announces.
    InsufficientSpace,
    /// The stream inflates to fewer bytes than its size field announces.
    SizeMismatch,
}

/// Why an archive could not be unpacked.
#[derive(Clone, Copy, Debug, PartialEq, Eq, Structural)]
pub enum ArchiveError {
    /// A header is malformed, or an entry's body cannot be read to its end.
    Unreadable,
    /// The body of an entry has not the length that its header announces.
    Truncated,
    /// The path of a file, once its root segment is removed, is not UTF-8.
    PathNotUtf8,
}

/// Why a fetched tarball could not be ingested. Every stage fails the whole
/// ingest; nothing of a failed ingest is handed on.
#[derive(Clone, Debug, PartialEq, Eq)]
pub enum FetchError {
    /// The digest of the fetched bytes is not the expected one.
    Integrity { expected: String, actual: String },
    /// The expected integrity string names no digest under which the
    /// package's index could be stored.
    MalformedIntegrity,
    /// The fetched bytes are not a sound gzip stream.
    Decompress(DecompressError),
    /// The inflated bytes are not a sound archive.
    Archive(ArchiveError),
    /// The store could not be written.
    Io(String),
}

/// A [`FetchError`] as a mathematical value.
pub enum FetchErrorView {
    Integrity { expected: Seq<char>, actual: Seq<char> },
    MalformedIntegrity,
    Decompress(DecompressError),
    Archive(ArchiveError),
    Io(Seq<char>),
}

impl View for FetchError {
    type V = FetchErrorView;

    open spec fn view(&self) -> FetchErrorView {
        match self {
            FetchError::Integrity { expected, actual } => FetchErrorView::Integrity {
                expected: expected@,
                actual: actual@,
            },
            FetchError::MalformedIntegrity => FetchErrorView::MalformedIntegrity,
            FetchError::Decompress(kind) => FetchErrorView::Decompress(*kind),
            FetchError::Archive(kind) => FetchErrorView::Archive(*kind),
            FetchError::Io(reason) => FetchErrorView::Io(reason@),
        }
    }
}

} // verus!
