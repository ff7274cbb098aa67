//! Identity of on-disk storage objects.
//!
//! A file lives on a storage volume and occupies one extent (an
//! inode-equivalent) of that volume. The pair of identifiers uniquely names
//! the extent on the local machine: two paths carrying equal pairs are hard
//! links to the same on-disk data. How the identifiers are obtained differs
//! per platform; the embedding program reads them from link-metadata
//! (never following symbolic links) and hands them to this crate as plain
//! integers.

use vstd::prelude::*;

verus! {

/// Identifier of a storage volume.
pub type StorageUid = u64;

/// Identifier of an extent (inode-equivalent) within its volume.
pub type FileId = u64;

/// A value that knows which volume and which extent it describes.
///
/// Platform metadata adapters implement this for whatever their metadata
/// read returns. Equal `(volume, extent)` pairs imply the same on-disk
/// extent.
pub trait FileLinkBackend {
    /// The volume identifier this value describes.
    spec fn storage_uid_spec(&self) -> StorageUid;

    /// The extent identifier this value describes.
    spec fn file_id_spec(&self) -> FileId;

    fn get_storage_uid(&self) -> (r: StorageUid)
        ensures
            r == self.storage_uid_spec(),
    ;

    fn get_file_id(&self) -> (r: FileId)
        ensures
            r == self.file_id_spec(),
    ;

    /// Both identifiers at once: the full name of the extent.
    fn get_file_uid(&self) -> (r: (StorageUid, FileId))
        ensures
            r.0 == self.storage_uid_spec(),
            r.1 == self.file_id_spec(),
    {
        (self.get_storage_uid(), self.get_file_id())
    }

    /// Do the two values describe the same volume?
    fn same_storage(&self, other: &Self) -> (r: bool)
        ensures
            r == (self.storage_uid_spec() == other.storage_uid_spec()),
    {
        let file1_uid = self.get_storage_uid();
        let file2_uid = other.get_storage_uid();
        file1_uid == file2_uid
    }

    /// Do the two values describe the same extent of the same volume?
    fn same_file(&self, other: &Self) -> (r: bool)
        ensures
            r == (self.storage_uid_spec() == other.storage_uid_spec()
                && self.file_id_spec() == other.file_id_spec()),
    {
        let file1_storage = self.get_storage_uid();
        let file2_storage = other.get_storage_uid();
        let file1_uid = self.get_file_id();
        let file2_uid = other.get_file_id();
        file1_storage == file2_storage && file1_uid == file2_uid
    }
}

/// Link-metadata as read on platforms that expose the volume serial as a
/// 32-bit word and the extent index as two 32-bit words through an open
/// handle.
#[derive(Debug, Clone, Copy)]
pub struct LinkMetadata {
    storage: u32,
    file: u64,
}

impl LinkMetadata {
    /// Package identifiers that were read directly.
    pub fn new(storage: u32, file: u64) -> (r: Self)
        ensures
            r.storage_uid_spec() == storage as u64,
            r.file_id_spec() == file,
    {
        LinkMetadata { storage, file }
    }

    /// Combine the high and low index words of a handle query into the
    /// 64-bit extent identifier.
    pub fn from_index_parts(storage: u32, index_high: u32, index_low: u32) -> (r: Self)
        ensures
            r.storage_uid_spec() == storage as u64,
            r.file_id_spec() == index_high as u64 * 0x1_0000_0000 + index_low as u64,
    {
        let file: u64 = ((index_high as u64) << 32u64) | (index_low as u64);
        proof {
            assert(((index_high as u64) << 32u64) | (index_low as u64)
                == index_high as u64 * 0x1_0000_0000 + index_low as u64) by (bit_vector);
        }
        LinkMetadata { storage, file }
    }
}

impl FileLinkBackend for LinkMetadata {
    closed spec fn storage_uid_spec(&self) -> StorageUid {
        self.storage as u64
    }

    closed spec fn file_id_spec(&self) -> FileId {
        self.file
    }

    fn get_storage_uid(&self) -> (r: StorageUid) {
        self.storage as u64
    }

    fn get_file_id(&self) -> (r: FileId) {
        self.file
    }
}

} // verus!
