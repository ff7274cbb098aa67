//! Engine of a content-addressed file deduplicator.
//!
//! Given the regular files found under one or more directory roots, the
//! engine identifies byte-identical duplicates and decides which redundant
//! paths to replace with hard links to a chosen representative. The staged
//! work graph, the size/hash two-pass filter, the extent-identity
//! bookkeeping and the atomic link-and-swap protocol live here, each with a
//! verified contract. Directory listing, file reading and the link syscalls
//! themselves are performed by the embedding program, which feeds their
//! results back to this crate as plain values.

pub mod config;
pub mod coordinator;
pub mod hashing;
pub mod laws;
pub mod linker;
pub mod model;
pub mod os;
pub mod record;
pub mod scan;

pub use os::{FileId, FileLinkBackend, LinkMetadata, StorageUid};
pub use record::{DedupError, FileStorageData, Filesize, HashDigest, ScanDirResult};
