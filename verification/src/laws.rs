//! The laws of the coordinator: its invariants hold after every step, a
//! link is only ever issued between two distinct extents of one volume
//! and one length whose digests matched, and on an already-deduplicated
//! tree a run issues no links at all and reports nothing saved.

use vstd::prelude::*;
use crate::model::{
    coord_wf, empty_coord, empty_storage, entry_ok, hash_row_ok, size_bucket_ok, step_hash,
    step_record, storage_at, storage_step_hash, storage_step_record, storage_wf, ActionModel,
    CoordModel, EntryModel, FileRec, HashKey, StorageModel,
};

verus! {

/// The empty partition is well-formed.
pub proof fn lemma_empty_storage_wf()
    ensures
        storage_wf(empty_storage()),
{
}

/// Event A preserves the partition invariants.
pub proof fn lemma_storage_step_record_wf(st: StorageModel, rec: FileRec)
    requires
        storage_wf(st),
    ensures
        storage_wf(storage_step_record(st, rec).0),
{
    let st2 = storage_step_record(st, rec).0;
    assert forall|k: HashKey| #[trigger] st2.hashes.contains_key(k) implies hash_row_ok(st2, k) by {
        assert(st.hashes.contains_key(k));
        assert(hash_row_ok(st, k));
    }
    assert forall|id: u64| #[trigger] st2.files.contains_key(id) implies entry_ok(st2, id) by {
        if st.files.contains_key(id) {
            assert(entry_ok(st, id));
        }
    }
    assert forall|sz: u64| #[trigger] st2.sizes.contains_key(sz) implies size_bucket_ok(st2, sz) by {
        if st.sizes.contains_key(sz) {
            assert(size_bucket_ok(st, sz));
        }
    }
}

/// Event B preserves the partition invariants.
pub proof fn lemma_storage_step_hash_wf(
    st: StorageModel,
    wasted: u64,
    storage_uid: u64,
    file_id: u64,
    size: u64,
    digest: Seq<u8>,
)
    requires
        storage_wf(st),
    ensures
        storage_wf(storage_step_hash(st, wasted, storage_uid, file_id, size, digest).0),
{
    let st2 = storage_step_hash(st, wasted, storage_uid, file_id, size, digest).0;
    assert forall|k: HashKey| #[trigger] st2.hashes.contains_key(k) implies hash_row_ok(st2, k) by {
        if st.hashes.contains_key(k) {
            assert(hash_row_ok(st, k));
        }
    }
    assert forall|id: u64| #[trigger] st2.files.contains_key(id) implies entry_ok(st2, id) by {
        if st.files.contains_key(id) {
            assert(entry_ok(st, id));
        }
    }
    assert forall|sz: u64| #[trigger] st2.sizes.contains_key(sz) implies size_bucket_ok(st2, sz) by {
        if st.sizes.contains_key(sz) {
            assert(size_bucket_ok(st, sz));
        }
    }
}

/// The coordinator invariant holds after event A.
pub proof fn lemma_step_record_wf(m: CoordModel, rec: FileRec)
    requires
        coord_wf(m),
    ensures
        coord_wf(step_record(m, rec).0),
{
    let st = storage_at(m, rec.storage_uid);
    if m.storages.contains_key(rec.storage_uid) {
        assert(storage_wf(st));
    } else {
        lemma_empty_storage_wf();
    }
    lemma_storage_step_record_wf(st, rec);
}

/// The coordinator invariant holds after event B.
pub proof fn lemma_step_hash_wf(
    m: CoordModel,
    storage_uid: u64,
    file_id: u64,
    size: u64,
    digest: Option<Seq<u8>>,
)
    requires
        coord_wf(m),
    ensures
        coord_wf(step_hash(m, storage_uid, file_id, size, digest).0),
{
    match digest {
        None => {},
        Some(d) => {
            if m.storages.contains_key(storage_uid) {
                lemma_storage_step_hash_wf(
                    m.storages[storage_uid],
                    m.wasted,
                    storage_uid,
                    file_id,
                    size,
                    d,
                );
            }
        },
    }
}

/// What must be true of any link the coordinator ever issues, judged
/// against the partition state it was issued from:
/// * it stays within the volume of the event that caused it;
/// * it relates two distinct extents — paths already sharing an extent
///   are never linked to each other;
/// * the extent to survive is a representative, the link points at its
///   recorded path, and both extents carry the very byte length the link
///   names.
pub open spec fn link_action_sound(st: StorageModel, event_uid: u64, a: ActionModel) -> bool {
    match a {
        ActionModel::Link { original, redundant, storage_uid, size, original_id, redundant_id } => {
            &&& storage_uid == event_uid
            &&& original_id != redundant_id
            &&& st.files.contains_key(original_id)
            &&& match st.files[original_id] {
                EntryModel::Representative { path, size: rep_size } => path == original
                    && rep_size == size,
                _ => false,
            }
            &&& st.files.contains_key(redundant_id)
            &&& st.files[redundant_id].size_of() == size
        },
        _ => true,
    }
}

/// Volume, size and extent locality of event A: a record can only cause
/// links that are sound for its own volume's partition.
pub proof fn lemma_step_record_links_sound(st: StorageModel, rec: FileRec)
    requires
        storage_wf(st),
    ensures
        forall|i: int|
            0 <= i < storage_step_record(st, rec).1.len() ==> link_action_sound(
                st,
                rec.storage_uid,
                #[trigger] storage_step_record(st, rec).1[i],
            ),
{
}

/// Volume, size and extent locality of event B — and content locality:
/// every link issued by a completed hash points the hashed extent's
/// paths at the representative registered in the hash bucket under this
/// very (length, digest) class, so the two extents' digests are equal.
pub proof fn lemma_step_hash_links_sound(
    st: StorageModel,
    wasted: u64,
    storage_uid: u64,
    file_id: u64,
    size: u64,
    digest: Seq<u8>,
)
    requires
        storage_wf(st),
    ensures
        forall|i: int|
            0 <= i < storage_step_hash(st, wasted, storage_uid, file_id, size, digest).2.len()
                ==> link_action_sound(
                st,
                storage_uid,
                #[trigger] storage_step_hash(st, wasted, storage_uid, file_id, size, digest).2[i],
            ),
        storage_step_hash(st, wasted, storage_uid, file_id, size, digest).2.len() > 0 ==> {
            let key = HashKey { size, digest };
            &&& st.hashes.contains_key(key)
            &&& forall|i: int|
                0 <= i < storage_step_hash(st, wasted, storage_uid, file_id, size, digest).2.len()
                    ==> link_targets_class(
                    #[trigger] storage_step_hash(
                        st,
                        wasted,
                        storage_uid,
                        file_id,
                        size,
                        digest,
                    ).2[i],
                    st.hashes[key],
                    file_id,
                )
        },
{
}

/// An extent whose (volume, extent) pair already has a row in the
/// file-entry table is never re-hashed: a record of it causes no hash
/// work at all.
pub proof fn lemma_known_extent_never_rehashed(st: StorageModel, rec: FileRec)
    requires
        st.files.contains_key(rec.file_id),
    ensures
        forall|i: int|
            0 <= i < storage_step_record(st, rec).1.len() ==> !((#[trigger] storage_step_record(
                st,
                rec,
            ).1[i]) is HashFile),
{
}

/// A size class holding exactly one extent never triggers hashing: the
/// first extent of its length only seeds the size bucket.
pub proof fn lemma_sole_extent_never_hashed(st: StorageModel, rec: FileRec)
    requires
        !st.files.contains_key(rec.file_id),
        !st.sizes.contains_key(rec.size),
    ensures
        storage_step_record(st, rec).1.len() == 0,
{
}

/// Does a link merge exactly this redundant extent into this
/// representative?
pub open spec fn link_targets_class(a: ActionModel, rep: u64, merged: u64) -> bool {
    match a {
        ActionModel::Link { original_id, redundant_id, .. } => original_id == rep && redundant_id
            == merged,
        _ => false,
    }
}

/// One event of a whole run, abstractly.
pub ghost enum EventModel {
    Record(FileRec),
    HashDone { storage_uid: u64, file_id: u64, size: u64, digest: Option<Seq<u8>> },
}

pub open spec fn step_event(m: CoordModel, e: EventModel) -> (CoordModel, Seq<ActionModel>) {
    match e {
        EventModel::Record(rec) => step_record(m, rec),
        EventModel::HashDone { storage_uid, file_id, size, digest } => step_hash(
            m,
            storage_uid,
            file_id,
            size,
            digest,
        ),
    }
}

/// A whole run: fold the events over the state, concatenating the
/// actions.
pub open spec fn run_events(m: CoordModel, events: Seq<EventModel>) -> (
    CoordModel,
    Seq<ActionModel>,
)
    decreases events.len(),
{
    if events.len() == 0 {
        (m, Seq::<ActionModel>::empty())
    } else {
        let head = step_event(m, events[0]);
        let rest = run_events(head.0, events.drop_first());
        (rest.0, head.1 + rest.1)
    }
}

pub open spec fn no_aliases_storage(st: StorageModel) -> bool {
    forall|id: u64| #[trigger] st.files.contains_key(id) ==> !(st.files[id] is Alias)
}

/// No extent has been merged into another: the state of a tree that holds
/// no byte-identical duplicates — in particular, the state every run ends
/// in when each content class it hashed was seen on one extent only.
pub open spec fn no_aliases(m: CoordModel) -> bool {
    forall|sid: u64| #[trigger] m.storages.contains_key(sid) ==> no_aliases_storage(
        m.storages[sid],
    )
}

/// The content class an event delivers a digest for, if any.
pub open spec fn event_digest(e: EventModel) -> Option<(u64, HashKey)> {
    match e {
        EventModel::HashDone { storage_uid, size, digest: Some(d), .. } => Some(
            (storage_uid, HashKey { size, digest: d }),
        ),
        _ => None,
    }
}

/// No two events deliver a digest for the same content class of the same
/// volume. A tree with no byte-identical duplicates yields exactly such
/// events: distinct extents have distinct content, and each extent is
/// hashed at most once.
pub open spec fn distinct_digests(events: Seq<EventModel>) -> bool {
    forall|i: int, j: int|
        0 <= i < j < events.len() && #[trigger] event_digest(events[i]) is Some ==> event_digest(
            events[i],
        ) != #[trigger] event_digest(events[j])
}

/// No event delivers a digest for a content class already registered in
/// the state's hash buckets.
pub open spec fn fresh_digests(m: CoordModel, events: Seq<EventModel>) -> bool {
    forall|i: int|
        0 <= i < events.len() ==> match #[trigger] event_digest(events[i]) {
            Some(p) => !(m.storages.contains_key(p.0) && m.storages[p.0].hashes.contains_key(p.1)),
            None => true,
        }
}

pub open spec fn no_links(acts: Seq<ActionModel>) -> bool {
    forall|i: int| 0 <= i < acts.len() ==> !((#[trigger] acts[i]) is Link)
}

/// Which content classes a state's hash buckets hold.
pub open spec fn registered(m: CoordModel, p: (u64, HashKey)) -> bool {
    m.storages.contains_key(p.0) && m.storages[p.0].hashes.contains_key(p.1)
}

/// Event A on an alias-free state: no link comes out, no alias appears,
/// nothing is registered or counted.
pub proof fn lemma_step_record_idle(m: CoordModel, rec: FileRec)
    requires
        no_aliases(m),
    ensures
        no_aliases(step_record(m, rec).0),
        no_links(step_record(m, rec).1),
        step_record(m, rec).0.wasted == m.wasted,
        forall|p: (u64, HashKey)| registered(step_record(m, rec).0, p) == registered(m, p),
{
    let m2 = step_record(m, rec).0;
    let st = storage_at(m, rec.storage_uid);
    let st2 = storage_step_record(st, rec).0;
    assert(st2.hashes == st.hashes);
    assert forall|sid: u64| #[trigger] m2.storages.contains_key(sid) implies no_aliases_storage(
        m2.storages[sid],
    ) by {
        if sid != rec.storage_uid {
            assert(m.storages.contains_key(sid));
        } else {
            if m.storages.contains_key(sid) {
                assert(no_aliases_storage(st));
            }
            assert forall|id: u64| #[trigger] st2.files.contains_key(id) implies !(st2.files[id]
                is Alias) by {
                if st.files.contains_key(id) {
                    assert(!(st.files[id] is Alias));
                }
            }
        }
    }
    assert forall|p: (u64, HashKey)| registered(m2, p) == registered(m, p) by {
        if p.0 != rec.storage_uid {
        } else {
            assert(storage_at(m2, p.0).hashes == storage_at(m, p.0).hashes);
        }
    }
}

/// Event B with a digest its state has never seen: the extent becomes a
/// representative (or nothing happens at all); no link comes out, no
/// alias appears, nothing is counted, and at most this one content class
/// is newly registered.
pub proof fn lemma_step_hash_fresh_idle(
    m: CoordModel,
    storage_uid: u64,
    file_id: u64,
    size: u64,
    digest: Option<Seq<u8>>,
)
    requires
        no_aliases(m),
        match digest {
            Some(d) => !registered(m, (storage_uid, HashKey { size, digest: d })),
            None => true,
        },
    ensures
        no_aliases(step_hash(m, storage_uid, file_id, size, digest).0),
        no_links(step_hash(m, storage_uid, file_id, size, digest).1),
        step_hash(m, storage_uid, file_id, size, digest).0.wasted == m.wasted,
        forall|p: (u64, HashKey)|
            #[trigger] registered(step_hash(m, storage_uid, file_id, size, digest).0, p)
                ==> registered(m, p) || (match digest {
                Some(d) => p == (storage_uid, HashKey { size, digest: d }),
                None => false,
            }),
{
    let m2 = step_hash(m, storage_uid, file_id, size, digest).0;
    match digest {
        None => {},
        Some(d) => {
            if m.storages.contains_key(storage_uid) {
                let st = m.storages[storage_uid];
                let st2 = storage_step_hash(st, m.wasted, storage_uid, file_id, size, d).0;
                assert(no_aliases_storage(st));
                assert(!st.hashes.contains_key(HashKey { size, digest: d }));
                assert forall|sid: u64| #[trigger] m2.storages.contains_key(sid) implies
                    no_aliases_storage(m2.storages[sid]) by {
                    if sid != storage_uid {
                        assert(m.storages.contains_key(sid));
                    } else {
                        assert forall|id: u64| #[trigger] st2.files.contains_key(id) implies !(
                        st2.files[id] is Alias) by {
                            if st.files.contains_key(id) && id != file_id {
                                assert(!(st.files[id] is Alias));
                            }
                        }
                    }
                }
            }
        },
    }
}

/// Idempotence, run-wide: starting from an alias-free state, a run whose
/// digests are pairwise distinct and all unseen issues not a single link
/// and adds nothing to the wasted-space counter.
pub proof fn lemma_idle_run(m: CoordModel, events: Seq<EventModel>)
    requires
        no_aliases(m),
        distinct_digests(events),
        fresh_digests(m, events),
    ensures
        no_links(run_events(m, events).1),
        run_events(m, events).0.wasted == m.wasted,
        no_aliases(run_events(m, events).0),
    decreases events.len(),
{
    if events.len() > 0 {
        let e = events[0];
        let head = step_event(m, e);
        let rest_events = events.drop_first();
        match e {
            EventModel::Record(rec) => {
                lemma_step_record_idle(m, rec);
            },
            EventModel::HashDone { storage_uid, file_id, size, digest } => {
                assert(event_digest(e) == (match digest {
                    Some(d) => Some((storage_uid, HashKey { size, digest: d })),
                    None => None::<(u64, HashKey)>,
                }));
                lemma_step_hash_fresh_idle(m, storage_uid, file_id, size, digest);
            },
        }
        assert forall|i: int| 0 <= i < rest_events.len() implies match #[trigger] event_digest(
            rest_events[i],
        ) {
            Some(p) => !registered(head.0, p),
            None => true,
        } by {
            assert(rest_events[i] == events[i + 1]);
            match event_digest(events[i + 1]) {
                Some(p) => {
                    assert(!registered(m, p));
                    assert(event_digest(events[0]) is Some ==> event_digest(events[0])
                        != event_digest(events[i + 1]));
                },
                None => {},
            }
        }
        assert forall|i: int, j: int|
            0 <= i < j < rest_events.len() && #[trigger] event_digest(rest_events[i]) is Some
                implies event_digest(rest_events[i]) != #[trigger] event_digest(
            rest_events[j],
        ) by {
            assert(rest_events[i] == events[i + 1]);
            assert(rest_events[j] == events[j + 1]);
        }
        lemma_idle_run(head.0, rest_events);
        let rest = run_events(head.0, rest_events);
        assert forall|i: int| 0 <= i < (head.1 + rest.1).len() implies !((#[trigger] (head.1
            + rest.1)[i]) is Link) by {
            if i < head.1.len() {
                assert((head.1 + rest.1)[i] == head.1[i]);
            } else {
                assert((head.1 + rest.1)[i] == rest.1[i - head.1.len()]);
            }
        }
    }
}

/// Idempotence from the start: a second run over an already-deduplicated
/// tree begins empty and delivers pairwise-distinct digests, so it
/// issues zero link-swaps and reports zero saved bytes.
pub proof fn lemma_second_run_idle(events: Seq<EventModel>)
    requires
        distinct_digests(events),
    ensures
        no_links(run_events(empty_coord(), events).1),
        run_events(empty_coord(), events).0.wasted == 0,
{
    lemma_idle_run(empty_coord(), events);
}

/// Did some record event of this run report this path, on this volume,
/// as a name of this extent?
pub open spec fn record_delivers(events: Seq<EventModel>, sid: u64, id: u64, p: Seq<char>) -> bool {
    exists|i: int|
        {
            &&& 0 <= i < events.len()
            &&& #[trigger] events[i] matches EventModel::Record(rec)
            &&& rec.storage_uid == sid
            &&& rec.file_id == id
            &&& rec.path == p
        }
}

/// Every path held by an entry was reported on this very volume as a
/// name of this very extent.
pub open spec fn entry_paths_from(events: Seq<EventModel>, sid: u64, id: u64, e: EntryModel) -> bool {
    match e {
        EntryModel::Pending { path, extras, .. } => {
            &&& record_delivers(events, sid, id, path)
            &&& forall|j: int|
                0 <= j < extras.len() ==> record_delivers(events, sid, id, #[trigger] extras[j])
        },
        EntryModel::Representative { path, .. } => record_delivers(events, sid, id, path),
        EntryModel::Alias { .. } => true,
    }
}

pub open spec fn storage_paths_from(events: Seq<EventModel>, sid: u64, st: StorageModel) -> bool {
    forall|id: u64| #[trigger] st.files.contains_key(id) ==> entry_paths_from(
        events,
        sid,
        id,
        st.files[id],
    )
}

pub open spec fn coord_paths_from(events: Seq<EventModel>, m: CoordModel) -> bool {
    forall|sid: u64| #[trigger] m.storages.contains_key(sid) ==> storage_paths_from(
        events,
        sid,
        m.storages[sid],
    )
}

/// Volume and extent locality of one action: a link relates two paths
/// that records of one and the same volume reported, each as a name of
/// its own end's extent — and those two extents differ.
pub open spec fn link_endpoints_recorded(events: Seq<EventModel>, a: ActionModel) -> bool {
    match a {
        ActionModel::Link { original, redundant, storage_uid, original_id, redundant_id, .. } => {
            &&& record_delivers(events, storage_uid, original_id, original)
            &&& record_delivers(events, storage_uid, redundant_id, redundant)
            &&& original_id != redundant_id
        },
        _ => true,
    }
}

proof fn lemma_record_delivers_mono(
    s: Seq<EventModel>,
    t: Seq<EventModel>,
    sid: u64,
    id: u64,
    p: Seq<char>,
)
    requires
        record_delivers(s, sid, id, p),
        s.len() <= t.len(),
        forall|i: int| 0 <= i < s.len() ==> s[i] == t[i],
    ensures
        record_delivers(t, sid, id, p),
{
    let i = choose|i: int|
        {
            &&& 0 <= i < s.len()
            &&& #[trigger] s[i] matches EventModel::Record(rec)
            &&& rec.storage_uid == sid
            &&& rec.file_id == id
            &&& rec.path == p
        };
    assert(t[i] == s[i]);
}

proof fn lemma_entry_paths_mono(
    s: Seq<EventModel>,
    t: Seq<EventModel>,
    sid: u64,
    id: u64,
    e: EntryModel,
)
    requires
        entry_paths_from(s, sid, id, e),
        s.len() <= t.len(),
        forall|i: int| 0 <= i < s.len() ==> s[i] == t[i],
    ensures
        entry_paths_from(t, sid, id, e),
{
    match e {
        EntryModel::Pending { path, extras, .. } => {
            lemma_record_delivers_mono(s, t, sid, id, path);
            assert forall|j: int| 0 <= j < extras.len() implies record_delivers(
                t,
                sid,
                id,
                #[trigger] extras[j],
            ) by {
                lemma_record_delivers_mono(s, t, sid, id, extras[j]);
            }
        },
        EntryModel::Representative { path, .. } => {
            lemma_record_delivers_mono(s, t, sid, id, path);
        },
        EntryModel::Alias { .. } => {},
    }
}

proof fn lemma_coord_paths_mono(s: Seq<EventModel>, t: Seq<EventModel>, m: CoordModel)
    requires
        coord_paths_from(s, m),
        s.len() <= t.len(),
        forall|i: int| 0 <= i < s.len() ==> s[i] == t[i],
    ensures
        coord_paths_from(t, m),
{
    assert forall|sid: u64| #[trigger] m.storages.contains_key(sid) implies storage_paths_from(
        t,
        sid,
        m.storages[sid],
    ) by {
        let st = m.storages[sid];
        assert forall|id: u64| #[trigger] st.files.contains_key(id) implies entry_paths_from(
            t,
            sid,
            id,
            st.files[id],
        ) by {
            lemma_entry_paths_mono(s, t, sid, id, st.files[id]);
        }
    }
}

/// Event A: the one new path comes from the record itself — filed under
/// the record's own extent — and any link issued relates two recorded
/// paths of two distinct extents of the record's own volume.
proof fn lemma_step_record_paths(delivered: Seq<EventModel>, m: CoordModel, rec: FileRec)
    requires
        coord_wf(m),
        coord_paths_from(delivered, m),
    ensures
        coord_paths_from(
            delivered.push(EventModel::Record(rec)),
            step_record(m, rec).0,
        ),
        forall|i: int|
            0 <= i < step_record(m, rec).1.len() ==> link_endpoints_recorded(
                delivered.push(EventModel::Record(rec)),
                #[trigger] step_record(m, rec).1[i],
            ),
{
    let bigger = delivered.push(EventModel::Record(rec));
    let m2 = step_record(m, rec).0;
    let acts = step_record(m, rec).1;
    let st = storage_at(m, rec.storage_uid);
    let st2 = storage_step_record(st, rec).0;
    assert(bigger[delivered.len() as int] == EventModel::Record(rec));
    assert(record_delivers(bigger, rec.storage_uid, rec.file_id, rec.path));
    if m.storages.contains_key(rec.storage_uid) {
        assert(storage_paths_from(delivered, rec.storage_uid, st));
        assert(storage_wf(st));
    } else {
        lemma_empty_storage_wf();
    }
    lemma_step_record_links_sound(st, rec);
    assert forall|sid: u64| #[trigger] m2.storages.contains_key(sid) implies storage_paths_from(
        bigger,
        sid,
        m2.storages[sid],
    ) by {
        if sid != rec.storage_uid {
            assert(m.storages.contains_key(sid));
            assert forall|id: u64| #[trigger] m2.storages[sid].files.contains_key(id) implies
                entry_paths_from(bigger, sid, id, m2.storages[sid].files[id]) by {
                lemma_entry_paths_mono(delivered, bigger, sid, id, m2.storages[sid].files[id]);
            }
        } else {
            assert forall|id: u64| #[trigger] st2.files.contains_key(id) implies entry_paths_from(
                bigger,
                sid,
                id,
                st2.files[id],
            ) by {
                if st.files.contains_key(id) {
                    lemma_entry_paths_mono(delivered, bigger, sid, id, st.files[id]);
                }
            }
        }
    }
    assert forall|i: int| 0 <= i < acts.len() implies link_endpoints_recorded(
        bigger,
        #[trigger] acts[i],
    ) by {
        match acts[i] {
            ActionModel::Link { original, redundant, storage_uid, original_id, .. } => {
                assert(link_action_sound(st, rec.storage_uid, acts[i]));
                assert(st.files.contains_key(original_id));
                lemma_entry_paths_mono(
                    delivered,
                    bigger,
                    storage_uid,
                    original_id,
                    st.files[original_id],
                );
            },
            _ => {},
        }
    }
}

/// Event B: no new path appears, and any link issued relates two
/// recorded paths of two distinct extents of the hashed extent's own
/// volume.
proof fn lemma_step_hash_paths(
    delivered: Seq<EventModel>,
    m: CoordModel,
    storage_uid: u64,
    file_id: u64,
    size: u64,
    digest: Option<Seq<u8>>,
)
    requires
        coord_wf(m),
        coord_paths_from(delivered, m),
    ensures
        coord_paths_from(delivered, step_hash(m, storage_uid, file_id, size, digest).0),
        forall|i: int|
            0 <= i < step_hash(m, storage_uid, file_id, size, digest).1.len()
                ==> link_endpoints_recorded(
                delivered,
                #[trigger] step_hash(m, storage_uid, file_id, size, digest).1[i],
            ),
{
    let m2 = step_hash(m, storage_uid, file_id, size, digest).0;
    let acts = step_hash(m, storage_uid, file_id, size, digest).1;
    match digest {
        None => {},
        Some(d) => {
            if m.storages.contains_key(storage_uid) {
                let st = m.storages[storage_uid];
                let st2 = storage_step_hash(st, m.wasted, storage_uid, file_id, size, d).0;
                assert(storage_paths_from(delivered, storage_uid, st));
                assert(storage_wf(st));
                lemma_step_hash_links_sound(st, m.wasted, storage_uid, file_id, size, d);
                assert forall|sid: u64| #[trigger] m2.storages.contains_key(sid) implies
                    storage_paths_from(delivered, sid, m2.storages[sid]) by {
                    if sid != storage_uid {
                        assert(m.storages.contains_key(sid));
                    } else {
                        assert forall|id: u64| #[trigger] st2.files.contains_key(id) implies
                            entry_paths_from(delivered, sid, id, st2.files[id]) by {
                            if id != file_id {
                                assert(st.files.contains_key(id));
                            } else {
                                assert(st.files.contains_key(file_id));
                                assert(entry_paths_from(delivered, sid, id, st.files[file_id]));
                            }
                        }
                    }
                }
            }
        },
    }
}

/// Volume and extent locality, run-wide: every link-swap a run issues
/// relates two paths that records of one and the same volume reported,
/// each path naming its own end's extent, and those extents differ.
pub proof fn lemma_run_links_local(
    delivered: Seq<EventModel>,
    m: CoordModel,
    events: Seq<EventModel>,
)
    requires
        coord_wf(m),
        coord_paths_from(delivered, m),
    ensures
        coord_wf(run_events(m, events).0),
        coord_paths_from(delivered + events, run_events(m, events).0),
        forall|i: int|
            0 <= i < run_events(m, events).1.len() ==> link_endpoints_recorded(
                delivered + events,
                #[trigger] run_events(m, events).1[i],
            ),
    decreases events.len(),
{
    if events.len() == 0 {
        assert(delivered + events =~= delivered);
        lemma_coord_paths_mono(delivered, delivered + events, run_events(m, events).0);
    } else {
        let e = events[0];
        let head = step_event(m, e);
        let rest_events = events.drop_first();
        let delivered1 = delivered.push(e);
        match e {
            EventModel::Record(rec) => {
                lemma_step_record_paths(delivered, m, rec);
            },
            EventModel::HashDone { storage_uid, file_id, size, digest } => {
                lemma_step_hash_paths(delivered, m, storage_uid, file_id, size, digest);
                lemma_coord_paths_mono(delivered, delivered1, head.0);
                assert forall|i: int| 0 <= i < head.1.len() implies link_endpoints_recorded(
                    delivered1,
                    #[trigger] head.1[i],
                ) by {
                    lemma_link_endpoints_mono(delivered, delivered1, head.1[i]);
                }
            },
        }
        lemma_run_links_local(delivered1, head.0, rest_events);
        let rest = run_events(head.0, rest_events);
        assert(delivered1 + rest_events =~= delivered + events);
        assert forall|i: int| 0 <= i < (head.1 + rest.1).len() implies link_endpoints_recorded(
            delivered + events,
            #[trigger] (head.1 + rest.1)[i],
        ) by {
            if i < head.1.len() {
                assert((head.1 + rest.1)[i] == head.1[i]);
                lemma_link_endpoints_mono(delivered1, delivered + events, head.1[i]);
            } else {
                assert((head.1 + rest.1)[i] == rest.1[i - head.1.len()]);
            }
        }
    }
}

/// Volume locality from the start: a run over any event sequence never
/// issues a link between two paths reported on different volumes, nor
/// between two paths reported as names of one extent.
pub proof fn lemma_links_never_cross_volumes(events: Seq<EventModel>)
    ensures
        forall|i: int|
            0 <= i < run_events(empty_coord(), events).1.len() ==> link_endpoints_recorded(
                events,
                #[trigger] run_events(empty_coord(), events).1[i],
            ),
{
    lemma_run_links_local(Seq::<EventModel>::empty(), empty_coord(), events);
    assert(Seq::<EventModel>::empty() + events =~= events);
}

/// The record carried by an event, if it is one.
pub open spec fn record_of(e: EventModel) -> Option<FileRec> {
    match e {
        EventModel::Record(rec) => Some(rec),
        _ => None,
    }
}

/// Do two records agree: an equal path names an equal extent of an
/// equal volume?
pub open spec fn records_agree(a: Option<FileRec>, b: Option<FileRec>) -> bool {
    match (a, b) {
        (Some(r1), Some(r2)) => r1.path == r2.path ==> (r1.file_id == r2.file_id
            && r1.storage_uid == r2.storage_uid),
        _ => true,
    }
}

/// Do the run's records name extents consistently: one path, one
/// extent? A scan of an unchanging tree reports every path this way.
pub open spec fn records_functional(events: Seq<EventModel>) -> bool {
    forall|i: int, j: int|
        0 <= i < events.len() && 0 <= j < events.len() ==> records_agree(
            #[trigger] record_of(events[i]),
            #[trigger] record_of(events[j]),
        )
}

/// Extent locality from the start: when the run's records name extents
/// consistently, no link ever relates two paths that were reported as
/// names of one and the same extent — paths already hard-linked to each
/// other are never passed to a link-swap.
pub proof fn lemma_links_never_merge_one_extent(events: Seq<EventModel>, i: int)
    requires
        records_functional(events),
        0 <= i < run_events(empty_coord(), events).1.len(),
    ensures
        run_events(empty_coord(), events).1[i] matches ActionModel::Link {
            original,
            redundant,
            storage_uid,
            ..
        } ==> !exists|id: u64|
            record_delivers(events, storage_uid, id, original) && record_delivers(
                events,
                storage_uid,
                id,
                redundant,
            ),
{
    lemma_links_never_cross_volumes(events);
    let a = run_events(empty_coord(), events).1[i];
    match a {
        ActionModel::Link { original, redundant, storage_uid, original_id, redundant_id, .. } => {
            assert(link_endpoints_recorded(events, a));
            if exists|id: u64|
                record_delivers(events, storage_uid, id, original) && record_delivers(
                    events,
                    storage_uid,
                    id,
                    redundant,
                ) {
                let id = choose|id: u64|
                    record_delivers(events, storage_uid, id, original) && record_delivers(
                        events,
                        storage_uid,
                        id,
                        redundant,
                    );
                lemma_delivered_id_unique(events, storage_uid, original, id, original_id);
                lemma_delivered_id_unique(events, storage_uid, redundant, id, redundant_id);
                assert(false);
            }
        },
        _ => {},
    }
}

/// With consistent records, a path names at most one extent.
proof fn lemma_delivered_id_unique(
    events: Seq<EventModel>,
    sid: u64,
    p: Seq<char>,
    id1: u64,
    id2: u64,
)
    requires
        records_functional(events),
        record_delivers(events, sid, id1, p),
        record_delivers(events, sid, id2, p),
    ensures
        id1 == id2,
{
    let i = choose|i: int|
        {
            &&& 0 <= i < events.len()
            &&& #[trigger] events[i] matches EventModel::Record(rec)
            &&& rec.storage_uid == sid
            &&& rec.file_id == id1
            &&& rec.path == p
        };
    let j = choose|j: int|
        {
            &&& 0 <= j < events.len()
            &&& #[trigger] events[j] matches EventModel::Record(rec)
            &&& rec.storage_uid == sid
            &&& rec.file_id == id2
            &&& rec.path == p
        };
    assert(records_agree(record_of(events[i]), record_of(events[j])));
}

proof fn lemma_link_endpoints_mono(s: Seq<EventModel>, t: Seq<EventModel>, a: ActionModel)
    requires
        link_endpoints_recorded(s, a),
        s.len() <= t.len(),
        forall|i: int| 0 <= i < s.len() ==> s[i] == t[i],
    ensures
        link_endpoints_recorded(t, a),
{
    match a {
        ActionModel::Link { original, redundant, storage_uid, original_id, redundant_id, .. } => {
            lemma_record_delivers_mono(s, t, storage_uid, original_id, original);
            lemma_record_delivers_mono(s, t, storage_uid, redundant_id, redundant);
        },
        _ => {},
    }
}

} // verus!
