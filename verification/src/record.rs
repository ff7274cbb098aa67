//! Plain-value records that flow through the pipeline.

use vstd::prelude::*;
use crate::os::{FileId, StorageUid};

verus! {

/// Byte length of a file.
pub type Filesize = u64;

/// A 256-bit content digest.
pub type HashDigest = [u8; 32];

/// What the scanner knows of one regular file: where it is, how long it
/// is, and which extent of which volume backs it.
#[derive(Debug, Clone)]
pub struct FileStorageData {
    pub path: String,
    pub size: Filesize,
    pub storage_uid: StorageUid,
    pub file_id: FileId,
}

impl FileStorageData {
    pub fn new(path: String, size: Filesize, storage_uid: StorageUid, file_id: FileId) -> (r:
        Self)
        ensures
            r.path@ == path@,
            r.size == size,
            r.storage_uid == storage_uid,
            r.file_id == file_id,
    {
        FileStorageData { path, size, storage_uid, file_id }
    }
}

/// One finding of a directory scan: a subdirectory to walk further, or a
/// candidate file that passed the scanner's gates.
#[derive(Debug, Clone)]
pub enum ScanDirResult {
    Dir(String),
    File(FileStorageData),
}

/// The failures the engine distinguishes. Each carries the path it
/// concerns, so that a demoted error can be reported with context.
#[derive(Debug, Clone)]
pub enum DedupError {
    /// Reading a directory or a file's metadata failed.
    ScanIo { path: String },
    /// Opening or reading a file while hashing failed.
    HashIo { path: String },
    /// The file's observed length differed from the expected length: it
    /// was truncated or grew while being scanned.
    HashSizeMismatch { path: String, expected: Filesize, observed: Filesize },
    /// The read buffer could not be allocated even at the smallest size.
    OutOfMemory { path: String },
    /// Hard-link creation, rename, permission change or staging cleanup
    /// failed. Always fatal to the run.
    LinkIo { path: String },
}

/// Byte-for-byte equality of two digests.
pub fn digest_eq(a: &HashDigest, b: &HashDigest) -> (r: bool)
    ensures
        r == (a@ == b@),
{
    let mut i: usize = 0;
    while i < 32
        invariant
            i <= 32,
            forall|j: int| 0 <= j < i ==> a@[j] == b@[j],
        decreases 32 - i,
    {
        if a[i] != b[i] {
            return false;
        }
        i += 1;
    }
    proof {
        assert(a@ =~= b@);
    }
    true
}

} // verus!
