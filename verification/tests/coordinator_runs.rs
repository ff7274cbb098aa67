use dedup::coordinator::{Action, Coordinator};
use dedup::record::FileStorageData;

const MIB: u64 = 1024 * 1024;

fn record(path: &str, size: u64, storage_uid: u64, file_id: u64) -> FileStorageData {
    FileStorageData::new(String::from(path), size, storage_uid, file_id)
}

fn hash_actions(actions: &[Action]) -> Vec<(String, u64, u64, u64)> {
    actions
        .iter()
        .filter_map(|a| match a {
            Action::HashFile(req) => {
                Some((req.path.clone(), req.size, req.storage_uid, req.file_id))
            }
            _ => None,
        })
        .collect()
}

fn link_actions(actions: &[Action]) -> Vec<(String, String, u64, u64, u64, u64)> {
    actions
        .iter()
        .filter_map(|a| match a {
            Action::Link(req) => Some((
                req.original.clone(),
                req.redundant.clone(),
                req.storage_uid,
                req.size,
                req.original_id,
                req.redundant_id,
            )),
            _ => None,
        })
        .collect()
}

#[test]
fn two_identical_one_different_links_once() {
    // Three files of one size; two share content, the third does not.
    let mut coord = Coordinator::new();
    let size = 4 * MIB;

    let acts_a = coord.on_file_record(record("t/a", size, 7, 101));
    assert!(acts_a.is_empty());

    // The second extent of this size retroactively hashes the first.
    let acts_b = coord.on_file_record(record("t/b", size, 7, 102));
    let hashes = hash_actions(&acts_b);
    assert_eq!(hashes.len(), 2);
    assert_eq!(hashes[0], (String::from("t/a"), size, 7, 101));
    assert_eq!(hashes[1], (String::from("t/b"), size, 7, 102));

    // A third extent of the size while hashing is under way: hash it too.
    let acts_c = coord.on_file_record(record("t/c", size, 7, 103));
    let hashes_c = hash_actions(&acts_c);
    assert_eq!(hashes_c.len(), 1);
    assert_eq!(hashes_c[0], (String::from("t/c"), size, 7, 103));

    let zeros = [0u8; 32];
    let ones = [0xffu8; 32];

    // First digest to arrive becomes the representative.
    let acts = coord.on_hash_result(7, 101, size, Some(zeros));
    assert!(acts.is_empty());

    // The matching digest is linked onto the representative.
    let acts = coord.on_hash_result(7, 102, size, Some(zeros));
    let links = link_actions(&acts);
    assert_eq!(links.len(), 1);
    assert_eq!(
        links[0],
        (String::from("t/a"), String::from("t/b"), 7, size, 101, 102)
    );

    // The different content stays a representative of its own.
    let acts = coord.on_hash_result(7, 103, size, Some(ones));
    assert!(acts.is_empty());

    assert_eq!(coord.wasted_space(), 4 * MIB);
    assert_eq!(coord.saved_mib(), 4);
}

#[test]
fn three_identical_then_second_run_is_idle() {
    // Run 1: three 8 MiB files of equal content; two get linked.
    let size = 8 * MIB;
    let mut coord = Coordinator::new();
    coord.on_file_record(record("t/a", size, 1, 11));
    coord.on_file_record(record("t/b", size, 1, 12));
    coord.on_file_record(record("t/c", size, 1, 13));
    let zeros = [0u8; 32];
    assert!(coord.on_hash_result(1, 11, size, Some(zeros)).is_empty());
    let l1 = link_actions(&coord.on_hash_result(1, 12, size, Some(zeros)));
    let l2 = link_actions(&coord.on_hash_result(1, 13, size, Some(zeros)));
    assert_eq!(l1.len(), 1);
    assert_eq!(l2.len(), 1);
    assert_eq!(l1[0].0, "t/a");
    assert_eq!(l1[0].1, "t/b");
    assert_eq!(l2[0].0, "t/a");
    assert_eq!(l2[0].1, "t/c");
    assert_eq!(coord.saved_mib(), 16);

    // Run 2: after the links, all three paths share one extent. No
    // hashing is requested, no link issued, nothing reported saved.
    let mut second = Coordinator::new();
    assert!(second.on_file_record(record("t/a", size, 1, 11)).is_empty());
    assert!(second.on_file_record(record("t/b", size, 1, 11)).is_empty());
    assert!(second.on_file_record(record("t/c", size, 1, 11)).is_empty());
    assert_eq!(second.wasted_space(), 0);
    assert_eq!(second.saved_mib(), 0);
}

#[test]
fn pre_linked_pair_triggers_nothing() {
    // Two records carrying the same (volume, extent): already hard
    // linked on disk. No hashing, no links, nothing saved.
    let size = 4 * MIB;
    let mut coord = Coordinator::new();
    let acts1 = coord.on_file_record(record("t/a", size, 3, 42));
    let acts2 = coord.on_file_record(record("t/b", size, 3, 42));
    assert!(acts1.is_empty());
    assert!(acts2.is_empty());
    assert_eq!(coord.wasted_space(), 0);
}

#[test]
fn extra_paths_ride_along_when_content_matches() {
    // An extent seen under two paths stays pending; when its content
    // matches a representative, both paths are linked across.
    let size = 2 * MIB;
    let mut coord = Coordinator::new();
    coord.on_file_record(record("t/a", size, 5, 21));
    coord.on_file_record(record("t/b", size, 5, 22));
    assert!(coord.on_file_record(record("t/b2", size, 5, 22)).is_empty());

    let zeros = [0u8; 32];
    assert!(coord.on_hash_result(5, 21, size, Some(zeros)).is_empty());
    let links = link_actions(&coord.on_hash_result(5, 22, size, Some(zeros)));
    assert_eq!(links.len(), 2);
    assert_eq!(links[0].1, "t/b2");
    assert_eq!(links[1].1, "t/b");
    for l in &links {
        assert_eq!(l.0, "t/a");
        assert_eq!(l.4, 21);
        assert_eq!(l.5, 22);
    }
    // Saved space counts once per link performed.
    assert_eq!(coord.wasted_space(), 2 * size);
}

#[test]
fn fresh_path_of_aliased_extent_is_linked_immediately() {
    let size = 4 * MIB;
    let mut coord = Coordinator::new();
    coord.on_file_record(record("t/a", size, 9, 61));
    coord.on_file_record(record("t/b", size, 9, 62));
    let zeros = [0u8; 32];
    coord.on_hash_result(9, 61, size, Some(zeros));
    coord.on_hash_result(9, 62, size, Some(zeros));

    // A new path of the merged extent resolves through the alias and is
    // linked straight to the representative's path.
    let acts = coord.on_file_record(record("t/b_sibling", size, 9, 62));
    let links = link_actions(&acts);
    assert_eq!(links.len(), 1);
    assert_eq!(
        links[0],
        (
            String::from("t/a"),
            String::from("t/b_sibling"),
            9,
            size,
            61,
            62
        )
    );
}

#[test]
fn demoted_hash_failure_leaves_row_pending() {
    let size = 4 * MIB;
    let mut coord = Coordinator::new();
    coord.on_file_record(record("t/a", size, 2, 31));
    coord.on_file_record(record("t/b", size, 2, 32));
    // A demoted failure carries no digest: nothing happens, nothing is
    // counted.
    assert!(coord.on_hash_result(2, 31, size, None).is_empty());
    assert_eq!(coord.wasted_space(), 0);
    // The other file's digest arrives alone: it becomes representative,
    // still no link.
    assert!(coord.on_hash_result(2, 32, size, Some([1u8; 32])).is_empty());
    assert_eq!(coord.wasted_space(), 0);
}

#[test]
fn volumes_are_partitioned() {
    // Same size, same content, different volumes: never linked.
    let size = 4 * MIB;
    let mut coord = Coordinator::new();
    assert!(coord.on_file_record(record("v1/a", size, 1, 71)).is_empty());
    // The same size on another volume does not trigger hashing: each
    // volume has its own size buckets.
    assert!(coord.on_file_record(record("v2/b", size, 2, 72)).is_empty());
    assert_eq!(coord.wasted_space(), 0);
}
