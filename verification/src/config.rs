//! The run's configuration, as plain values.
//!
//! The embedding program parses the command line and builds one `Config`;
//! the engine only reads it. The compiled pattern is carried as an opaque
//! `regex::Regex` value; the engine consults it solely through the
//! name-gate in [`crate::scan`].

use vstd::prelude::*;

verus! {

/// Everything that gates the engine's behaviour.
pub struct Config {
    /// File names must fully match this pattern to be included.
    pub pattern: Option<regex::Regex>,
    /// Log planned actions, mutate nothing.
    pub dry_run: bool,
    /// Files strictly smaller than this many KiB are ignored.
    pub min_file_size: u64,
    /// Per-hash read buffer cap, in KiB.
    pub buffer_size: usize,
    /// Global cap on concurrent hash reads.
    pub max_hash_threads: usize,
    /// Suffix appended to the redundant path to form the staging path.
    pub temporary_extension: String,
    /// Leave the representative's permissions alone after a swap.
    pub not_readonly: bool,
    /// Demote directory-scan errors to warnings.
    pub ignore_scan_errors: bool,
    /// Demote hash errors to warnings.
    pub ignore_hash_errors: bool,
    /// Dump the file-entry table at completion.
    pub debug: bool,
}

impl Config {
    /// The machine limits the configuration must respect: the KiB
    /// quantities must survive conversion to bytes.
    pub open spec fn wf(&self) -> bool {
        &&& self.min_file_size <= u64::MAX / 1024
        &&& self.buffer_size <= usize::MAX / 1024
    }
}

} // verus!
