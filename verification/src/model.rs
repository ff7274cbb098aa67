//! The mathematical model of the dedup coordinator.
//!
//! The coordinator's state, the two events it processes, and the actions
//! it emits are modelled here with ghost maps and sequences; the
//! executable coordinator in [`crate::coordinator`] proves that each of
//! its steps computes exactly the transition written down here. The laws
//! of the engine — which links may ever be issued, and when none are —
//! are proved of these transitions in [`crate::laws`].

use vstd::prelude::*;

verus! {

/// One file record delivered by a scan, abstractly.
pub ghost struct FileRec {
    pub path: Seq<char>,
    pub size: u64,
    pub storage_uid: u64,
    pub file_id: u64,
}

/// The three states of a file-entry row.
///
/// * `Pending`: the extent's first path is known, its hash is not;
///   further paths of the same extent collect in `extras`.
/// * `Representative`: the extent is the canonical one for its
///   (length, digest) class.
/// * `Alias`: the extent's content matched another's; `target` names the
///   representative extent.
pub ghost enum EntryModel {
    Pending { path: Seq<char>, size: u64, extras: Seq<Seq<char>> },
    Representative { path: Seq<char>, size: u64 },
    Alias { target: u64, size: u64 },
}

impl EntryModel {
    pub open spec fn size_of(self) -> u64 {
        match self {
            EntryModel::Pending { size, .. } => size,
            EntryModel::Representative { size, .. } => size,
            EntryModel::Alias { size, .. } => size,
        }
    }
}

/// The state of one size class: either exactly one extent of this length
/// has been seen (and nothing is hashed yet), or a second distinct extent
/// appeared and hashing is under way for the whole class.
#[derive(Clone, Copy, Debug, PartialEq, Eq, Structural)]
pub enum SizeBucket {
    Sole(u64),
    Hashing,
}

/// Key of the hash bucket: content class = (byte length, digest).
pub ghost struct HashKey {
    pub size: u64,
    pub digest: Seq<u8>,
}

/// The per-volume partition: size buckets, hash buckets, and the
/// file-entry table keyed by extent identifier.
pub ghost struct StorageModel {
    pub sizes: Map<u64, SizeBucket>,
    pub hashes: Map<HashKey, u64>,
    pub files: Map<u64, EntryModel>,
}

/// The whole coordinator state: one partition per volume, plus the saved
/// byte count.
pub ghost struct CoordModel {
    pub storages: Map<u64, StorageModel>,
    pub wasted: u64,
}

/// What the coordinator asks the embedding program to do.
pub ghost enum ActionModel {
    /// Hash the file at `path`, expecting `size` bytes, on behalf of the
    /// given extent.
    HashFile { path: Seq<char>, size: u64, storage_uid: u64, file_id: u64 },
    /// Replace `redundant` with a hard link to `original`.
    Link {
        original: Seq<char>,
        redundant: Seq<char>,
        storage_uid: u64,
        size: u64,
        original_id: u64,
        redundant_id: u64,
    },
}

pub open spec fn empty_storage() -> StorageModel {
    StorageModel { sizes: Map::empty(), hashes: Map::empty(), files: Map::empty() }
}

pub open spec fn empty_coord() -> CoordModel {
    CoordModel { storages: Map::empty(), wasted: 0 }
}

pub open spec fn storage_at(m: CoordModel, storage_uid: u64) -> StorageModel {
    if m.storages.contains_key(storage_uid) {
        m.storages[storage_uid]
    } else {
        empty_storage()
    }
}

/// Saturating accumulation of `count` links of `size` bytes each into the
/// wasted-space counter.
pub open spec fn wasted_after(wasted: u64, size: u64, count: nat) -> u64
    decreases count,
{
    if count == 0 {
        wasted
    } else {
        let w = wasted_after(wasted, size, (count - 1) as nat);
        if w + size <= u64::MAX {
            (w + size) as u64
        } else {
            u64::MAX
        }
    }
}

/// The paths to be linked against the representative when a pending
/// entry's content matches: its collected extra paths, then its first
/// path (each path once).
pub open spec fn pending_link_targets(path: Seq<char>, extras: Seq<Seq<char>>) -> Seq<Seq<char>> {
    if extras.contains(path) {
        extras
    } else {
        extras.push(path)
    }
}

/// Event A, per partition: one file record arrives.
///
/// A record of a known extent either rides along with its pending row, is
/// already canonical, or — when the row is an alias — is immediately
/// linked to the representative. A record of a new extent seeds its size
/// bucket, or triggers hashing when it is the second distinct extent of
/// its length.
pub open spec fn storage_step_record(st: StorageModel, rec: FileRec) -> (
    StorageModel,
    Seq<ActionModel>,
) {
    if st.files.contains_key(rec.file_id) {
        match st.files[rec.file_id] {
            EntryModel::Pending { path, size, extras } => {
                let new_extras = if path == rec.path || extras.contains(rec.path) {
                    extras
                } else {
                    extras.push(rec.path)
                };
                let entry = EntryModel::Pending { path, size, extras: new_extras };
                (
                    StorageModel { files: st.files.insert(rec.file_id, entry), ..st },
                    Seq::<ActionModel>::empty(),
                )
            },
            EntryModel::Representative { .. } => (st, Seq::<ActionModel>::empty()),
            EntryModel::Alias { target, .. } => {
                if st.files.contains_key(target) {
                    match st.files[target] {
                        EntryModel::Representative { path: rep_path, size: rep_size } => (
                            st,
                            seq![
                                ActionModel::Link {
                                    original: rep_path,
                                    redundant: rec.path,
                                    storage_uid: rec.storage_uid,
                                    size: rep_size,
                                    original_id: target,
                                    redundant_id: rec.file_id,
                                },
                            ],
                        ),
                        // Unreachable for well-formed states: aliases
                        // always point at representatives.
                        _ => (st, Seq::<ActionModel>::empty()),
                    }
                } else {
                    (st, Seq::<ActionModel>::empty())
                }
            },
        }
    } else {
        let entry = EntryModel::Pending {
            path: rec.path,
            size: rec.size,
            extras: Seq::empty(),
        };
        let files1 = st.files.insert(rec.file_id, entry);
        if st.sizes.contains_key(rec.size) {
            match st.sizes[rec.size] {
                SizeBucket::Sole(first_id) => {
                    let first_hash: Seq<ActionModel> = if st.files.contains_key(first_id) {
                        match st.files[first_id] {
                            EntryModel::Pending { path: first_path, .. } => seq![
                                ActionModel::HashFile {
                                    path: first_path,
                                    size: rec.size,
                                    storage_uid: rec.storage_uid,
                                    file_id: first_id,
                                },
                            ],
                            // Unreachable for well-formed states: a sole
                            // size bucket always names a pending entry.
                            _ => Seq::<ActionModel>::empty(),
                        }
                    } else {
                        Seq::<ActionModel>::empty()
                    };
                    (
                        StorageModel {
                            sizes: st.sizes.insert(rec.size, SizeBucket::Hashing),
                            files: files1,
                            ..st
                        },
                        first_hash + seq![
                            ActionModel::HashFile {
                                path: rec.path,
                                size: rec.size,
                                storage_uid: rec.storage_uid,
                                file_id: rec.file_id,
                            },
                        ],
                    )
                },
                SizeBucket::Hashing => (
                    StorageModel { files: files1, ..st },
                    seq![
                        ActionModel::HashFile {
                            path: rec.path,
                            size: rec.size,
                            storage_uid: rec.storage_uid,
                            file_id: rec.file_id,
                        },
                    ],
                ),
            }
        } else {
            (
                StorageModel {
                    sizes: st.sizes.insert(rec.size, SizeBucket::Sole(rec.file_id)),
                    files: files1,
                    ..st
                },
                Seq::<ActionModel>::empty(),
            )
        }
    }
}

/// Event A at the coordinator: route the record to its volume's
/// partition.
pub open spec fn step_record(m: CoordModel, rec: FileRec) -> (CoordModel, Seq<ActionModel>) {
    let st = storage_at(m, rec.storage_uid);
    let stepped = storage_step_record(st, rec);
    (
        CoordModel { storages: m.storages.insert(rec.storage_uid, stepped.0), ..m },
        stepped.1,
    )
}

/// Event B, per partition: a hash completed for an extent, yielding a
/// digest.
///
/// A fresh (length, digest) class makes the extent its representative. A
/// known class makes it an alias: every path riding on the pending row is
/// linked to the representative, and each link performed accounts the
/// file's length as saved space.
pub open spec fn storage_step_hash(
    st: StorageModel,
    wasted: u64,
    storage_uid: u64,
    file_id: u64,
    size: u64,
    digest: Seq<u8>,
) -> (StorageModel, u64, Seq<ActionModel>) {
    if !st.files.contains_key(file_id) {
        (st, wasted, Seq::<ActionModel>::empty())
    } else {
        match st.files[file_id] {
            EntryModel::Pending { path, size: entry_size, extras } => {
                if entry_size != size {
                    (st, wasted, Seq::<ActionModel>::empty())
                } else {
                    let key = HashKey { size, digest };
                    if st.hashes.contains_key(key) {
                        let rep_id = st.hashes[key];
                        if !st.files.contains_key(rep_id) {
                            (st, wasted, Seq::<ActionModel>::empty())
                        } else {
                            match st.files[rep_id] {
                                EntryModel::Representative { path: rep_path, size: rep_size } => {
                                    let targets = pending_link_targets(path, extras);
                                    let links = Seq::new(
                                        targets.len(),
                                        |i: int|
                                            ActionModel::Link {
                                                original: rep_path,
                                                redundant: targets[i],
                                                storage_uid,
                                                size,
                                                original_id: rep_id,
                                                redundant_id: file_id,
                                            },
                                    );
                                    (
                                        StorageModel {
                                            files: st.files.insert(
                                                file_id,
                                                EntryModel::Alias { target: rep_id, size },
                                            ),
                                            ..st
                                        },
                                        wasted_after(wasted, size, targets.len()),
                                        links,
                                    )
                                },
                                // Unreachable for well-formed states: hash
                                // buckets always name representatives.
                                _ => (st, wasted, Seq::<ActionModel>::empty()),
                            }
                        }
                    } else {
                        (
                            StorageModel {
                                hashes: st.hashes.insert(key, file_id),
                                files: st.files.insert(
                                    file_id,
                                    EntryModel::Representative { path, size },
                                ),
                                ..st
                            },
                            wasted,
                            Seq::<ActionModel>::empty(),
                        )
                    }
                }
            },
            // Only pending extents are ever hashed, with the length
            // recorded at their first sighting.
            _ => (st, wasted, Seq::<ActionModel>::empty()),
        }
    }
}

/// Event B at the coordinator. A demoted hash failure (no digest) leaves
/// the row pending and changes nothing.
pub open spec fn step_hash(
    m: CoordModel,
    storage_uid: u64,
    file_id: u64,
    size: u64,
    digest: Option<Seq<u8>>,
) -> (CoordModel, Seq<ActionModel>) {
    match digest {
        None => (m, Seq::<ActionModel>::empty()),
        Some(d) => {
            if m.storages.contains_key(storage_uid) {
                let st = m.storages[storage_uid];
                let stepped = storage_step_hash(st, m.wasted, storage_uid, file_id, size, d);
                (
                    CoordModel {
                        storages: m.storages.insert(storage_uid, stepped.0),
                        wasted: stepped.1,
                    },
                    stepped.2,
                )
            } else {
                // Unreachable under the protocol: a hash is only ever
                // requested for an extent created earlier.
                (m, Seq::<ActionModel>::empty())
            }
        },
    }
}

/// Well-formedness of one partition — the invariants of the file-entry
/// table:
/// * every hash-bucket row names a representative entry of its length;
/// * every alias points directly at a representative of its own length,
///   so alias chains terminate and never loop;
/// * a sole size bucket names a pending entry of that very length.
pub open spec fn hash_row_ok(st: StorageModel, k: HashKey) -> bool {
    &&& st.files.contains_key(st.hashes[k])
    &&& match st.files[st.hashes[k]] {
        EntryModel::Representative { size, .. } => size == k.size,
        _ => false,
    }
}

pub open spec fn entry_ok(st: StorageModel, id: u64) -> bool {
    match st.files[id] {
        EntryModel::Alias { target, size } => {
            &&& st.files.contains_key(target)
            &&& match st.files[target] {
                EntryModel::Representative { size: rep_size, .. } => rep_size == size,
                _ => false,
            }
        },
        _ => true,
    }
}

pub open spec fn size_bucket_ok(st: StorageModel, sz: u64) -> bool {
    match st.sizes[sz] {
        SizeBucket::Sole(first_id) => {
            &&& st.files.contains_key(first_id)
            &&& st.files[first_id].size_of() == sz
        },
        SizeBucket::Hashing => true,
    }
}

pub open spec fn storage_wf(st: StorageModel) -> bool {
    &&& forall|k: HashKey| #[trigger] st.hashes.contains_key(k) ==> hash_row_ok(st, k)
    &&& forall|id: u64| #[trigger] st.files.contains_key(id) ==> entry_ok(st, id)
    &&& forall|sz: u64| #[trigger] st.sizes.contains_key(sz) ==> size_bucket_ok(st, sz)
}

/// Well-formedness of the whole coordinator state.
pub open spec fn coord_wf(m: CoordModel) -> bool {
    forall|sid: u64| #[trigger] m.storages.contains_key(sid) ==> storage_wf(m.storages[sid])
}

} // verus!
