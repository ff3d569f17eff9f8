//! Ingest of package tarballs into a content-addressable store.
//!
//! A fetched archive is checked against its expected integrity string,
//! inflated, unpacked entry by entry, and laid out as a plan of content
//! objects addressed by the digest of their bytes, together with the index
//! that maps each file of the package to its place in the store. A session
//! then carries the plan out against the store, one request at a time, and
//! never writes an object that the store already holds.
//!
//! The crate reads no network and writes no disk: the caller fetches the
//! bytes and does what a session asks.

pub mod content_path;
pub mod error;
pub mod integrity;
pub mod gzip;
pub mod entry_path;
pub mod index;
pub mod archive;
pub mod store;
pub mod fetch;

pub use crate::archive::extract_tarball;
pub use crate::content_path::{content_path_from_hex, FileType};
pub use crate::fetch::fetch_tarball;
pub use crate::gzip::decompress_gzip;
pub use crate::integrity::{calc_hash, verify_checksum};
