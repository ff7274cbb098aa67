//! The executable dedup coordinator.
//!
//! Scan results and hash completions arrive here in any interleaving; the
//! coordinator keeps the per-volume size buckets, hash buckets and
//! file-entry tables, and answers each event with the actions to perform
//! next: files to hash, and redundant paths to replace with hard links.
//! Every step is proved to compute exactly the model transition of
//! [`crate::model`].

use std::collections::HashMap;
use vstd::prelude::*;
use crate::hashing::HashRequest;
use crate::model::{
    coord_wf, empty_coord, empty_storage, step_hash, step_record, storage_at,
    storage_step_hash, storage_step_record, storage_wf, ActionModel, CoordModel, EntryModel,
    FileRec, HashKey, SizeBucket, StorageModel,
};
use crate::laws::{
    lemma_empty_storage_wf, lemma_step_hash_wf, lemma_step_record_wf,
};
use crate::record::{FileStorageData, HashDigest};

verus! {

impl View for FileStorageData {
    type V = FileRec;

    open spec fn view(&self) -> FileRec {
        FileRec {
            path: self.path@,
            size: self.size,
            storage_uid: self.storage_uid,
            file_id: self.file_id,
        }
    }
}

/// One row of the file-entry table; see [`EntryModel`] for the meaning of
/// the three states.
#[derive(Debug)]
pub enum FileEntry {
    Pending { path: String, size: u64, extras: Vec<String> },
    Representative { path: String, size: u64 },
    Alias { target: u64, size: u64 },
}

impl View for FileEntry {
    type V = EntryModel;

    open spec fn view(&self) -> EntryModel {
        match self {
            FileEntry::Pending { path, size, extras } => EntryModel::Pending {
                path: path@,
                size: *size,
                extras: extras@.map_values(|s: String| s@),
            },
            FileEntry::Representative { path, size } => EntryModel::Representative {
                path: path@,
                size: *size,
            },
            FileEntry::Alias { target, size } => EntryModel::Alias {
                target: *target,
                size: *size,
            },
        }
    }
}

/// One row of a hash bucket: the content class and its representative
/// extent.
#[derive(Debug)]
pub struct HashRow {
    pub size: u64,
    pub digest: HashDigest,
    pub rep: u64,
}

pub open spec fn key_of(row: HashRow) -> HashKey {
    HashKey { size: row.size, digest: row.digest@ }
}

/// The hash rows as a map from content class to representative.
pub open spec fn rows_to_map(rows: Seq<HashRow>) -> Map<HashKey, u64>
    decreases rows.len(),
{
    if rows.len() == 0 {
        Map::empty()
    } else {
        rows_to_map(rows.drop_last()).insert(key_of(rows.last()), rows.last().rep)
    }
}

/// No two rows claim the same content class.
pub open spec fn rows_distinct(rows: Seq<HashRow>) -> bool {
    forall|i: int, j: int| 0 <= i < j < rows.len() ==> key_of(rows[i]) != key_of(rows[j])
}

proof fn lemma_rows_to_map_contains(rows: Seq<HashRow>, k: HashKey)
    ensures
        rows_to_map(rows).contains_key(k) <==> exists|i: int|
            0 <= i < rows.len() && key_of(rows[i]) == k,
    decreases rows.len(),
{
    if rows.len() > 0 {
        lemma_rows_to_map_contains(rows.drop_last(), k);
        if rows_to_map(rows).contains_key(k) {
            if key_of(rows.last()) == k {
                assert(key_of(rows[rows.len() - 1]) == k);
            } else {
                let i = choose|i: int| 0 <= i < rows.drop_last().len() && key_of(
                    rows.drop_last()[i],
                ) == k;
                assert(key_of(rows[i]) == k);
            }
        } else {
            assert forall|i: int| 0 <= i < rows.len() implies key_of(rows[i]) != k by {
                if i < rows.len() - 1 {
                    assert(rows.drop_last()[i] == rows[i]);
                }
            }
        }
    }
}

proof fn lemma_rows_to_map_at(rows: Seq<HashRow>, i: int)
    requires
        rows_distinct(rows),
        0 <= i < rows.len(),
    ensures
        rows_to_map(rows).contains_key(key_of(rows[i])),
        rows_to_map(rows)[key_of(rows[i])] == rows[i].rep,
    decreases rows.len(),
{
    if i == rows.len() - 1 {
    } else {
        assert(rows.drop_last()[i] == rows[i]);
        lemma_rows_to_map_at(rows.drop_last(), i);
        assert(key_of(rows[i]) != key_of(rows[rows.len() - 1]));
    }
}

/// Look up a content class among the hash rows.
fn find_hash_row(rows: &Vec<HashRow>, size: u64, digest: &HashDigest) -> (r: Option<u64>)
    requires
        rows_distinct(rows@),
    ensures
        match r {
            Some(rep) => rows_to_map(rows@).contains_key(HashKey { size, digest: digest@ })
                && rows_to_map(rows@)[HashKey { size, digest: digest@ }] == rep,
            None => !rows_to_map(rows@).contains_key(HashKey { size, digest: digest@ }),
        },
{
    let ghost k = HashKey { size, digest: digest@ };
    let mut i: usize = 0;
    while i < rows.len()
        invariant
            rows_distinct(rows@),
            i <= rows@.len(),
            k == (HashKey { size, digest: digest@ }),
            forall|j: int| 0 <= j < i ==> key_of(rows@[j]) != k,
        decreases rows@.len() - i,
    {
        let row = &rows[i];
        if row.size == size && crate::record::digest_eq(&row.digest, digest) {
            proof {
                assert(key_of(rows@[i as int]) == k);
                lemma_rows_to_map_at(rows@, i as int);
            }
            return Some(row.rep);
        }
        proof {
            assert(key_of(rows@[i as int]) != k);
        }
        i += 1;
    }
    proof {
        lemma_rows_to_map_contains(rows@, k);
    }
    None
}

/// A planned link-swap: replace `redundant` with a hard link to
/// `original`. The identifiers carried along let the embedding program
/// re-check, immediately before the syscalls, that the two paths do not
/// already share an extent.
#[derive(Debug)]
pub struct LinkRequest {
    pub original: String,
    pub redundant: String,
    pub storage_uid: u64,
    pub size: u64,
    pub original_id: u64,
    pub redundant_id: u64,
}

/// What the coordinator asks the embedding program to do next.
#[derive(Debug)]
pub enum Action {
    HashFile(HashRequest),
    Link(LinkRequest),
}

impl View for Action {
    type V = ActionModel;

    open spec fn view(&self) -> ActionModel {
        match self {
            Action::HashFile(req) => ActionModel::HashFile {
                path: req.path@,
                size: req.size,
                storage_uid: req.storage_uid,
                file_id: req.file_id,
            },
            Action::Link(req) => ActionModel::Link {
                original: req.original@,
                redundant: req.redundant@,
                storage_uid: req.storage_uid,
                size: req.size,
                original_id: req.original_id,
                redundant_id: req.redundant_id,
            },
        }
    }
}

/// The actions of a step, abstractly.
pub open spec fn acts_view(s: Seq<Action>) -> Seq<ActionModel> {
    s.map_values(|a: Action| a@)
}

/// The file-entry table, abstractly.
pub open spec fn entries_view(m: Map<u64, FileEntry>) -> Map<u64, EntryModel> {
    m.map_values(|e: FileEntry| e@)
}

proof fn lemma_entries_view_insert(m: Map<u64, FileEntry>, k: u64, v: FileEntry)
    ensures
        entries_view(m.insert(k, v)) == entries_view(m).insert(k, v@),
{
    assert(entries_view(m.insert(k, v)) =~= entries_view(m).insert(k, v@));
}

proof fn lemma_seq_map_values_push<A, B>(s: Seq<A>, f: spec_fn(A) -> B, x: A)
    ensures
        s.push(x).map_values(f) == s.map_values(f).push(f(x)),
{
    assert(s.push(x).map_values(f) =~= s.map_values(f).push(f(x)));
}

/// Does the list hold a string with this very content?
fn contains_string(list: &Vec<String>, needle: &String) -> (r: bool)
    ensures
        r == list@.map_values(|s: String| s@).contains(needle@),
{
    let ghost views = list@.map_values(|s: String| s@);
    let mut i: usize = 0;
    while i < list.len()
        invariant
            i <= list@.len(),
            views == list@.map_values(|s: String| s@),
            forall|j: int| 0 <= j < i ==> views[j] != needle@,
        decreases list@.len() - i,
    {
        if list[i] == *needle {
            proof {
                assert(views[i as int] == needle@);
            }
            return true;
        }
        i += 1;
    }
    false
}

/// One volume's partition, executably: the size buckets, the hash
/// buckets, and the file-entry table.
#[derive(Debug)]
pub struct StorageContent {
    file_sizes: HashMap<u64, SizeBucket>,
    hashes: Vec<HashRow>,
    files: HashMap<u64, FileEntry>,
}

impl View for StorageContent {
    type V = StorageModel;

    closed spec fn view(&self) -> StorageModel {
        StorageModel {
            sizes: self.file_sizes@,
            hashes: rows_to_map(self.hashes@),
            files: entries_view(self.files@),
        }
    }
}

impl StorageContent {
    pub closed spec fn inv(&self) -> bool {
        rows_distinct(self.hashes@)
    }

    fn new() -> (r: Self)
        ensures
            r@ == empty_storage(),
            r.inv(),
    {
        let r = StorageContent {
            file_sizes: HashMap::new(),
            hashes: Vec::new(),
            files: HashMap::new(),
        };
        proof {
            assert(r@.sizes =~= empty_storage().sizes);
            assert(r@.hashes =~= empty_storage().hashes);
            assert(r@.files =~= empty_storage().files);
        }
        r
    }

    /// Apply one file record to this partition; see
    /// [`storage_step_record`] for what is computed.
    fn apply_record(&mut self, rec: FileStorageData) -> (acts: Vec<Action>)
        requires
            storage_wf(old(self)@),
            old(self).inv(),
        ensures
            final(self).inv(),
            final(self)@ == storage_step_record(old(self)@, rec@).0,
            acts_view(acts@) == storage_step_record(old(self)@, rec@).1,
    {
        let ghost st0 = self@;
        let ghost recm = rec@;
        let ghost stepped = storage_step_record(st0, recm);
        let mut acts: Vec<Action> = Vec::new();
        let file_id = rec.file_id;
        match self.files.remove(&file_id) {
            Some(entry) => {
                let ghost files0 = old(self).files@;
                proof {
                    assert(files0.contains_key(file_id));
                    assert(st0.files.contains_key(file_id));
                    assert(st0.files[file_id] == entry@);
                }
                match entry {
                    FileEntry::Pending { path, size, mut extras } => {
                        let ghost extras0 = extras@.map_values(|s: String| s@);
                        let known = path == rec.path || contains_string(&extras, &rec.path);
                        if !known {
                            let ghost pre = extras@;
                            let ghost pushed = rec.path;
                            extras.push(rec.path);
                            proof {
                                lemma_seq_map_values_push(pre, |s: String| s@, pushed);
                            }
                        }
                        let updated = FileEntry::Pending { path, size, extras };
                        self.files.insert(file_id, updated);
                        proof {
                            assert(self.files@ =~= files0.insert(file_id, updated));
                            lemma_entries_view_insert(files0, file_id, updated);
                            assert(self@.files =~= stepped.0.files);
                            assert(acts_view(acts@) =~= stepped.1);
                        }
                    },
                    FileEntry::Representative { path, size } => {
                        let restored = FileEntry::Representative { path, size };
                        self.files.insert(file_id, restored);
                        proof {
                            assert(self.files@ =~= files0.insert(file_id, restored));
                            lemma_entries_view_insert(files0, file_id, restored);
                            assert(self@.files =~= st0.files);
                            assert(acts_view(acts@) =~= stepped.1);
                        }
                    },
                    FileEntry::Alias { target, size } => {
                        let restored = FileEntry::Alias { target, size };
                        self.files.insert(file_id, restored);
                        proof {
                            assert(self.files@ =~= files0.insert(file_id, restored));
                            lemma_entries_view_insert(files0, file_id, restored);
                            assert(self@.files =~= st0.files);
                        }
                        match self.files.get(&target) {
                            Some(found) => match found {
                                FileEntry::Representative { path: rep_path, size: rep_size } => {
                                    acts.push(
                                        Action::Link(
                                            LinkRequest {
                                                original: rep_path.clone(),
                                                redundant: rec.path,
                                                storage_uid: rec.storage_uid,
                                                size: *rep_size,
                                                original_id: target,
                                                redundant_id: file_id,
                                            },
                                        ),
                                    );
                                    proof {
                                        assert(acts_view(acts@) =~= stepped.1);
                                    }
                                },
                                _ => {
                                    proof {
                                        assert(acts_view(acts@) =~= stepped.1);
                                    }
                                },
                            },
                            None => {
                                proof {
                                    assert(acts_view(acts@) =~= stepped.1);
                                }
                            },
                        }
                    },
                }
            },
            None => {
                let ghost files0 = old(self).files@;
                proof {
                    assert(!st0.files.contains_key(file_id));
                }
                let pending_path = rec.path.clone();
                let inserted = FileEntry::Pending {
                    path: pending_path,
                    size: rec.size,
                    extras: Vec::new(),
                };
                self.files.insert(file_id, inserted);
                proof {
                    lemma_entries_view_insert(files0, file_id, inserted);
                    assert(Seq::<String>::empty().map_values(|s: String| s@)
                        =~= Seq::<Seq<char>>::empty());
                }
                let bucket: Option<SizeBucket> = match self.file_sizes.get(&rec.size) {
                    Some(b) => Some(*b),
                    None => None,
                };
                match bucket {
                    Some(SizeBucket::Sole(first_id)) => {
                        proof {
                            assert(st0.sizes.contains_key(rec.size));
                            assert(st0.sizes[rec.size] == SizeBucket::Sole(first_id));
                            // The sole extent of this size was created
                            // earlier, so it is a different extent than
                            // the fresh one.
                            assert(st0.files.contains_key(first_id));
                            assert(first_id != file_id);
                        }
                        match self.files.get(&first_id) {
                            Some(found) => match found {
                                FileEntry::Pending { path: first_path, .. } => {
                                    acts.push(
                                        Action::HashFile(
                                            HashRequest {
                                                path: first_path.clone(),
                                                size: rec.size,
                                                storage_uid: rec.storage_uid,
                                                file_id: first_id,
                                            },
                                        ),
                                    );
                                },
                                _ => {},
                            },
                            None => {},
                        }
                        self.file_sizes.insert(rec.size, SizeBucket::Hashing);
                        acts.push(
                            Action::HashFile(
                                HashRequest {
                                    path: rec.path,
                                    size: rec.size,
                                    storage_uid: rec.storage_uid,
                                    file_id,
                                },
                            ),
                        );
                        proof {
                            assert(self@.sizes =~= stepped.0.sizes);
                            assert(self@.files =~= stepped.0.files);
                            assert(acts_view(acts@) =~= stepped.1);
                        }
                    },
                    Some(SizeBucket::Hashing) => {
                        acts.push(
                            Action::HashFile(
                                HashRequest {
                                    path: rec.path,
                                    size: rec.size,
                                    storage_uid: rec.storage_uid,
                                    file_id,
                                },
                            ),
                        );
                        proof {
                            assert(self@.files =~= stepped.0.files);
                            assert(acts_view(acts@) =~= stepped.1);
                        }
                    },
                    None => {
                        self.file_sizes.insert(rec.size, SizeBucket::Sole(file_id));
                        proof {
                            assert(self@.sizes =~= stepped.0.sizes);
                            assert(self@.files =~= stepped.0.files);
                            assert(acts_view(acts@) =~= stepped.1);
                        }
                    },
                }
            },
        }
        acts
    }

    /// Apply one completed hash to this partition; see
    /// [`storage_step_hash`] for what is computed. Returns the updated
    /// wasted-space counter and the link-swaps to perform.
    #[verifier::loop_isolation(false)]
    fn apply_hash(
        &mut self,
        wasted: u64,
        storage_uid: u64,
        file_id: u64,
        size: u64,
        digest: HashDigest,
    ) -> (r: (u64, Vec<Action>))
        requires
            storage_wf(old(self)@),
            old(self).inv(),
        ensures
            final(self).inv(),
            final(self)@ == storage_step_hash(
                old(self)@,
                wasted,
                storage_uid,
                file_id,
                size,
                digest@,
            ).0,
            r.0 == storage_step_hash(old(self)@, wasted, storage_uid, file_id, size, digest@).1,
            acts_view(r.1@) == storage_step_hash(
                old(self)@,
                wasted,
                storage_uid,
                file_id,
                size,
                digest@,
            ).2,
    {
        let ghost st0 = self@;
        let ghost stepped = storage_step_hash(st0, wasted, storage_uid, file_id, size, digest@);
        let entry_matches: bool = match self.files.get(&file_id) {
            Some(found) => match found {
                FileEntry::Pending { size: entry_size, .. } => *entry_size == size,
                _ => false,
            },
            None => false,
        };
        if !entry_matches {
            return (wasted, Vec::new());
        }
        let ghost key = HashKey { size, digest: digest@ };
        match find_hash_row(&self.hashes, size, &digest) {
            Some(rep_id) => {
                let ghost files0 = self.files@;
                proof {
                    // The representative named by the hash bucket is a
                    // different extent: this one is still pending.
                    assert(st0.hashes.contains_key(key) && st0.hashes[key] == rep_id);
                    assert(crate::model::hash_row_ok(st0, key));
                    assert(rep_id != file_id);
                }
                let removed = self.files.remove(&file_id);
                match removed {
                    Some(pending_entry) => match pending_entry {
                        FileEntry::Pending { path, extras, .. } => {
                            let ghost path0 = path@;
                            let ghost extras0 = extras@.map_values(|s: String| s@);
                            let inserted = FileEntry::Alias { target: rep_id, size };
                            self.files.insert(file_id, inserted);
                            proof {
                                assert(self.files@ =~= files0.insert(file_id, inserted));
                                lemma_entries_view_insert(files0, file_id, inserted);
                                assert(final_view_files_ok(self@, stepped.0));
                            }
                            let rep_path: String = match self.files.get(&rep_id) {
                                Some(found) => match found {
                                    FileEntry::Representative { path: rp, .. } => rp.clone(),
                                    _ => {
                                        proof {
                                            assert(false);
                                        }
                                        String::new()
                                    },
                                },
                                None => {
                                    proof {
                                        assert(false);
                                    }
                                    String::new()
                                },
                            };
                            let mut targets = extras;
                            let path_known = contains_string(&targets, &path);
                            if !path_known {
                                let ghost pre = targets@;
                                let ghost pushed = path;
                                targets.push(path);
                                proof {
                                    lemma_seq_map_values_push(pre, |s: String| s@, pushed);
                                }
                            }
                            let ghost targets_model = crate::model::pending_link_targets(
                                path0,
                                extras0,
                            );
                            let ghost rep_path_model = rep_path_spec(
                                st0,
                                wasted,
                                storage_uid,
                                file_id,
                                size,
                                digest@,
                            );
                            proof {
                                assert(targets@.map_values(|s: String| s@) =~= targets_model);
                                assert(stepped.2 == Seq::new(
                                    targets_model.len(),
                                    |j: int|
                                        ActionModel::Link {
                                            original: rep_path_model,
                                            redundant: targets_model[j],
                                            storage_uid,
                                            size,
                                            original_id: rep_id,
                                            redundant_id: file_id,
                                        },
                                ));
                            }
                            let mut new_wasted = wasted;
                            let mut acts: Vec<Action> = Vec::new();
                            let mut i: usize = 0;
                            let target_count = targets.len();
                            while i < target_count
                                invariant
                                    i <= target_count,
                                    target_count == targets@.len(),
                                    targets@.map_values(|s: String| s@) == targets_model,
                                    targets_model == stepped_targets_spec(
                                        st0,
                                        wasted,
                                        storage_uid,
                                        file_id,
                                        size,
                                        digest@,
                                    ),
                                    rep_path@ == rep_path_spec(
                                        st0,
                                        wasted,
                                        storage_uid,
                                        file_id,
                                        size,
                                        digest@,
                                    ),
                                    stepped == storage_step_hash(
                                        st0,
                                        wasted,
                                        storage_uid,
                                        file_id,
                                        size,
                                        digest@,
                                    ),
                                    new_wasted == crate::model::wasted_after(
                                        wasted,
                                        size,
                                        i as nat,
                                    ),
                                    acts@.len() == i,
                                    forall|j: int| 0 <= j < i ==> #[trigger] acts@[j]@
                                        == stepped.2[j],
                                decreases target_count - i,
                            {
                                acts.push(
                                    Action::Link(
                                        LinkRequest {
                                            original: rep_path.clone(),
                                            redundant: targets[i].clone(),
                                            storage_uid,
                                            size,
                                            original_id: rep_id,
                                            redundant_id: file_id,
                                        },
                                    ),
                                );
                                new_wasted = new_wasted.saturating_add(size);
                                proof {
                                    assert(targets@.map_values(|s: String| s@)[i as int]
                                        == targets@[i as int]@);
                                    assert(targets_model[i as int] == targets@[i as int]@);
                                    assert(stepped.2[i as int] == ActionModel::Link {
                                        original: rep_path_model,
                                        redundant: targets_model[i as int],
                                        storage_uid,
                                        size,
                                        original_id: rep_id,
                                        redundant_id: file_id,
                                    });
                                    assert(acts@[i as int]@ == stepped.2[i as int]);
                                }
                                i += 1;
                            }
                            proof {
                                assert(acts_view(acts@) =~= stepped.2);
                            }
                            (new_wasted, acts)
                        },
                        _ => {
                            proof {
                                assert(false);
                            }
                            (wasted, Vec::new())
                        },
                    },
                    None => {
                        proof {
                            assert(false);
                        }
                        (wasted, Vec::new())
                    },
                }
            },
            None => {
                let ghost files0 = self.files@;
                let ghost rows0 = self.hashes@;
                let removed = self.files.remove(&file_id);
                match removed {
                    Some(pending_entry) => match pending_entry {
                        FileEntry::Pending { path, .. } => {
                            let inserted = FileEntry::Representative { path, size };
                            self.files.insert(file_id, inserted);
                            self.hashes.push(HashRow { size, digest, rep: file_id });
                            proof {
                                assert(self.files@ =~= files0.insert(file_id, inserted));
                                lemma_entries_view_insert(files0, file_id, inserted);
                                assert(self.hashes@.drop_last() =~= rows0);
                                assert(rows_to_map(self.hashes@) =~= rows_to_map(rows0).insert(
                                    key,
                                    file_id,
                                ));
                                lemma_rows_to_map_contains(rows0, key);
                                assert forall|a: int, b: int|
                                    0 <= a < b < self.hashes@.len() implies key_of(
                                    self.hashes@[a],
                                ) != key_of(self.hashes@[b]) by {
                                    if b < self.hashes@.len() - 1 {
                                        assert(rows0[a] == self.hashes@[a]);
                                        assert(rows0[b] == self.hashes@[b]);
                                    } else {
                                        assert(rows0[a] == self.hashes@[a]);
                                    }
                                }
                                assert(final_view_files_ok(self@, stepped.0));
                            }
                            (wasted, Vec::new())
                        },
                        _ => {
                            proof {
                                assert(false);
                            }
                            (wasted, Vec::new())
                        },
                    },
                    None => {
                        proof {
                            assert(false);
                        }
                        (wasted, Vec::new())
                    },
                }
            },
        }
    }
}

/// The link targets of the occupied branch of [`storage_step_hash`], for
/// stating loop invariants.
pub open spec fn stepped_targets_spec(
    st: StorageModel,
    wasted: u64,
    storage_uid: u64,
    file_id: u64,
    size: u64,
    digest: Seq<u8>,
) -> Seq<Seq<char>> {
    match st.files[file_id] {
        EntryModel::Pending { path, extras, .. } => crate::model::pending_link_targets(
            path,
            extras,
        ),
        _ => Seq::empty(),
    }
}

/// The representative path of the occupied branch of
/// [`storage_step_hash`], for stating loop invariants.
pub open spec fn rep_path_spec(
    st: StorageModel,
    wasted: u64,
    storage_uid: u64,
    file_id: u64,
    size: u64,
    digest: Seq<u8>,
) -> Seq<char> {
    match st.files[st.hashes[HashKey { size, digest }]] {
        EntryModel::Representative { path, .. } => path,
        _ => Seq::empty(),
    }
}

/// Helper for asserting that the stepped file table was reached.
pub open spec fn final_view_files_ok(got: StorageModel, want: StorageModel) -> bool {
    got.files == want.files
}

/// The volume partitions, abstractly.
pub open spec fn storages_view(m: Map<u64, StorageContent>) -> Map<u64, StorageModel> {
    m.map_values(|s: StorageContent| s@)
}

proof fn lemma_storages_view_insert(m: Map<u64, StorageContent>, k: u64, v: StorageContent)
    ensures
        storages_view(m.insert(k, v)) == storages_view(m).insert(k, v@),
{
    assert(storages_view(m.insert(k, v)) =~= storages_view(m).insert(k, v@));
}

/// The digest of a completed hash, abstractly; a missing digest is a
/// demoted hash failure.
pub open spec fn digest_view(digest: Option<HashDigest>) -> Option<Seq<u8>> {
    match digest {
        Some(d) => Some(d@),
        None => None,
    }
}

/// The dedup coordinator: the sole owner of the bucket and file-entry
/// tables. It consumes scan records and hash completions, in any
/// interleaving, and answers with the hash and link work they imply.
#[derive(Debug)]
pub struct Coordinator {
    storages: HashMap<u64, StorageContent>,
    wasted_space: u64,
}

impl View for Coordinator {
    type V = CoordModel;

    closed spec fn view(&self) -> CoordModel {
        CoordModel { storages: storages_view(self.storages@), wasted: self.wasted_space }
    }
}

impl Coordinator {
    /// The executable-level invariant: each partition's hash rows name
    /// each content class at most once.
    pub closed spec fn inv(&self) -> bool {
        forall|sid: u64| #[trigger] self.storages@.contains_key(sid) ==> self.storages@[sid].inv()
    }

    pub fn new() -> (r: Self)
        ensures
            r@ == empty_coord(),
            coord_wf(r@),
            r.inv(),
    {
        let r = Coordinator { storages: HashMap::new(), wasted_space: 0 };
        proof {
            assert(r@.storages =~= empty_coord().storages);
        }
        r
    }

    /// Event A: one file record found by a scan. Returns the hash or
    /// link actions it implies.
    pub fn on_file_record(&mut self, rec: FileStorageData) -> (acts: Vec<Action>)
        requires
            coord_wf(old(self)@),
            old(self).inv(),
        ensures
            coord_wf(final(self)@),
            final(self).inv(),
            final(self)@ == step_record(old(self)@, rec@).0,
            acts_view(acts@) == step_record(old(self)@, rec@).1,
    {
        let ghost m0 = self@;
        let ghost recm = rec@;
        let sid = rec.storage_uid;
        let ghost storages0 = self.storages@;
        let mut st = match self.storages.remove(&sid) {
            Some(s) => s,
            None => StorageContent::new(),
        };
        proof {
            if storages0.contains_key(sid) {
                assert(m0.storages.contains_key(sid) && m0.storages[sid] == st@);
            } else {
                assert(!m0.storages.contains_key(sid));
            }
            assert(st@ == storage_at(m0, sid));
            if storages0.contains_key(sid) {
                assert(storage_wf(st@));
            } else {
                lemma_empty_storage_wf();
            }
        }
        let acts = st.apply_record(rec);
        self.storages.insert(sid, st);
        proof {
            assert(self.storages@ =~= storages0.remove(sid).insert(sid, st));
            assert(storages0.remove(sid).insert(sid, st) =~= storages0.insert(sid, st));
            lemma_storages_view_insert(storages0, sid, st);
            assert(self@.storages =~= step_record(m0, recm).0.storages);
            lemma_step_record_wf(m0, recm);
            assert forall|s: u64| #[trigger] self.storages@.contains_key(s) implies
                self.storages@[s].inv() by {
                if s != sid {
                    assert(storages0.contains_key(s) && storages0[s] == self.storages@[s]);
                }
            }
        }
        acts
    }

    /// Event B: hashing completed for an extent, or failed and was
    /// demoted (no digest). Returns the link-swaps it implies.
    pub fn on_hash_result(
        &mut self,
        storage_uid: u64,
        file_id: u64,
        size: u64,
        digest: Option<HashDigest>,
    ) -> (acts: Vec<Action>)
        requires
            coord_wf(old(self)@),
            old(self).inv(),
        ensures
            coord_wf(final(self)@),
            final(self).inv(),
            final(self)@ == step_hash(
                old(self)@,
                storage_uid,
                file_id,
                size,
                digest_view(digest),
            ).0,
            acts_view(acts@) == step_hash(
                old(self)@,
                storage_uid,
                file_id,
                size,
                digest_view(digest),
            ).1,
    {
        let ghost m0 = self@;
        let d: HashDigest = match digest {
            Some(d) => d,
            None => {
                proof {
                    assert(acts_view(Seq::<Action>::empty()) =~= Seq::<ActionModel>::empty());
                }
                return Vec::new();
            },
        };
        let ghost storages0 = self.storages@;
        match self.storages.remove(&storage_uid) {
            None => {
                proof {
                    assert(!m0.storages.contains_key(storage_uid));
                    assert(self.storages@ =~= storages0);
                    assert(acts_view(Seq::<Action>::empty()) =~= Seq::<ActionModel>::empty());
                }
                Vec::new()
            },
            Some(mut st) => {
                proof {
                    assert(m0.storages.contains_key(storage_uid) && m0.storages[storage_uid]
                        == st@);
                    assert(storage_wf(st@));
                }
                let stepped_pair = st.apply_hash(
                    self.wasted_space,
                    storage_uid,
                    file_id,
                    size,
                    d,
                );
                let new_wasted = stepped_pair.0;
                let acts = stepped_pair.1;
                self.wasted_space = new_wasted;
                self.storages.insert(storage_uid, st);
                proof {
                    assert(self.storages@ =~= storages0.insert(storage_uid, st));
                    lemma_storages_view_insert(storages0, storage_uid, st);
                    assert(self@.storages =~= step_hash(
                        m0,
                        storage_uid,
                        file_id,
                        size,
                        digest_view(digest),
                    ).0.storages);
                    lemma_step_hash_wf(m0, storage_uid, file_id, size, digest_view(digest));
                    assert forall|s: u64| #[trigger] self.storages@.contains_key(s) implies
                        self.storages@[s].inv() by {
                        if s != storage_uid {
                            assert(storages0.contains_key(s) && storages0[s]
                                == self.storages@[s]);
                        }
                    }
                }
                acts
            },
        }
    }

    /// How many bytes the links performed so far have saved.
    pub fn wasted_space(&self) -> (r: u64)
        ensures
            r == self@.wasted,
    {
        self.wasted_space
    }

    /// The saved space in whole MiB, as the final report prints it.
    pub fn saved_mib(&self) -> (r: u64)
        ensures
            r == self@.wasted / 0x100000,
    {
        self.wasted_space / (1024 * 1024)
    }
}

} // verus!

