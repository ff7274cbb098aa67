use dedup::config::Config;
use dedup::hashing::{
    hash_bytes, initial_buffer_size, settle_hash_result, shrink_buffer_size, HashBudget,
    HashJob, HashRequest,
};
use dedup::record::{DedupError, ScanDirResult};
use dedup::scan::{name_passes, settle_scan_result, size_passes, span_full_match};

fn config_with_pattern(pattern: Option<&str>) -> Config {
    Config {
        pattern: pattern.map(|p| regex::Regex::new(p).unwrap()),
        dry_run: false,
        min_file_size: 1024,
        buffer_size: 2048,
        max_hash_threads: 10,
        temporary_extension: String::from("hard_link"),
        not_readonly: false,
        ignore_scan_errors: false,
        ignore_hash_errors: false,
        debug: false,
    }
}

#[test]
fn partial_matches_are_rejected() {
    assert!(span_full_match(Some((0, 8)), 8));
    assert!(!span_full_match(Some((0, 5)), 8));
    assert!(!span_full_match(Some((1, 8)), 8));
    assert!(!span_full_match(None, 8));
}

#[test]
fn name_gate_follows_the_pattern() {
    let config = config_with_pattern(Some(r"keep\..*"));
    assert!(name_passes(&config, Some("keep.bin")));
    assert!(!name_passes(&config, Some("skip.bin")));
    assert!(!name_passes(&config, Some("xkeep.bin")));
    // No pattern, or no usable file name: everything passes.
    let open_config = config_with_pattern(None);
    assert!(name_passes(&open_config, Some("anything")));
    assert!(name_passes(&config, None));
}

#[test]
fn anchored_prefix_pattern_must_cover_the_whole_name() {
    // The whole name must match: a pattern matching only a prefix
    // excludes even the file it was meant to keep.
    let config = config_with_pattern(Some(r"^keep\."));
    assert!(!name_passes(&config, Some("keep.bin")));
    assert!(!name_passes(&config, Some("skip.bin")));
}

#[test]
fn size_gate_applies_minimum_and_nonzero() {
    // min-file-size is given in KiB.
    assert!(size_passes(1024, 1024 * 1024));
    assert!(!size_passes(1024, 1024 * 1024 - 1));
    assert!(!size_passes(0, 0));
    assert!(size_passes(0, 1));
    // Files of 2 MiB are dropped under a 4096 KiB minimum.
    assert!(!size_passes(4096, 2 * 1024 * 1024));
}

#[test]
fn hashing_matches_the_reference_digest() {
    let data = b"some file content";
    let ours = hash_bytes(data);
    let reference = blake3::hash(data);
    assert_eq!(&ours, reference.as_bytes());
    assert_ne!(hash_bytes(b"other content"), ours);
    assert_eq!(&hash_bytes(b""), blake3::hash(b"").as_bytes());
}

#[test]
fn buffer_is_capped_by_expected_length() {
    assert_eq!(initial_buffer_size(2048, 10 * 1024 * 1024), 2048 * 1024);
    assert_eq!(initial_buffer_size(2048, 4096), 4096);
    assert!(matches!(shrink_buffer_size("t/a", 2048 * 1024), Ok(v) if v == 1024 * 1024));
    assert!(matches!(shrink_buffer_size("t/a", 1024), Ok(512)));
    match shrink_buffer_size("t/a", 512) {
        Err(DedupError::OutOfMemory { path }) => assert_eq!(path, "t/a"),
        other => panic!("expected an out-of-memory error, got {other:?}"),
    }
}

#[test]
fn length_mismatch_discards_the_digest() {
    let mut job = HashJob::start(100);
    job.record_read(60);
    job.record_read(40);
    let ok = job.finish(String::from("t/a"), [7u8; 32]);
    assert!(matches!(ok, Ok(d) if d == [7u8; 32]));

    let mut short = HashJob::start(100);
    short.record_read(60);
    match short.finish(String::from("t/a"), [7u8; 32]) {
        Err(DedupError::HashSizeMismatch {
            path,
            expected,
            observed,
        }) => {
            assert_eq!(path, "t/a");
            assert_eq!(expected, 100);
            assert_eq!(observed, 60);
        }
        other => panic!("expected a size mismatch, got {other:?}"),
    }
}

#[test]
fn hash_errors_demote_to_missing_digest() {
    let err = DedupError::HashIo {
        path: String::from("t/a"),
    };
    assert!(matches!(
        settle_hash_result(Ok([1u8; 32]), false),
        Ok(Some(_))
    ));
    assert!(matches!(
        settle_hash_result(Err(err.clone()), true),
        Ok(None)
    ));
    assert!(matches!(
        settle_hash_result(Err(err), false),
        Err(DedupError::HashIo { .. })
    ));
}

#[test]
fn scan_errors_demote_to_an_empty_directory() {
    let found = vec![ScanDirResult::Dir(String::from("t/sub"))];
    let settled = settle_scan_result(Ok(found), false).unwrap();
    assert_eq!(settled.len(), 1);

    let err = DedupError::ScanIo {
        path: String::from("t"),
    };
    let demoted = settle_scan_result(Err(err.clone()), true).unwrap();
    assert!(demoted.is_empty());
    assert!(matches!(
        settle_scan_result(Err(err), false),
        Err(DedupError::ScanIo { .. })
    ));
}

fn request(name: &str) -> HashRequest {
    HashRequest {
        path: String::from(name),
        size: 1024 * 1024,
        storage_uid: 1,
        file_id: 1,
    }
}

#[test]
fn budget_caps_concurrent_hashes() {
    let mut budget = HashBudget::new(2);
    assert!(budget.submit(request("a")).is_some());
    assert!(budget.submit(request("b")).is_some());
    // The cap is reached: further work waits.
    assert!(budget.submit(request("c")).is_none());
    assert!(budget.submit(request("d")).is_none());
    // Each completion hands the freed slot to the oldest waiter.
    let next = budget.on_hash_finished().unwrap();
    assert_eq!(next.path, "c");
    let next = budget.on_hash_finished().unwrap();
    assert_eq!(next.path, "d");
    assert!(budget.on_hash_finished().is_none());
    assert!(budget.on_hash_finished().is_none());
    // Both slots are free again.
    assert!(budget.submit(request("e")).is_some());
}
