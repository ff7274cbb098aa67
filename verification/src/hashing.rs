//! Content hashing: the digest, the read-buffer policy, the
//! length-consistency check, and the budget that caps concurrent hash
//! reads.
//!
//! The embedding program opens the file and reads it chunk by chunk; each
//! chunk is fed to a [`StreamHasher`]. Every decision around that read
//! loop — how large a buffer to ask for, how to shrink it when allocation
//! fails, whether the observed length matched the expected one — is made
//! here.

use vstd::prelude::*;
use crate::os::{FileId, StorageUid};
use crate::record::{DedupError, Filesize, HashDigest};

verus! {

#[verifier::external_type_specification]
#[verifier::external_body]
pub struct ExHasher(blake3::Hasher);

/// The digest that the fixed 256-bit cryptographic hash assigns to a byte
/// sequence. The hash of a file depends on its content alone.
pub uninterp spec fn content_digest(data: Seq<u8>) -> Seq<u8>;

/// An incremental hash of a stream of bytes.
pub struct StreamHasher {
    inner: blake3::Hasher,
    fed: Ghost<Seq<u8>>,
}

impl StreamHasher {
    /// The bytes fed to this hasher so far.
    pub closed spec fn bytes_fed(&self) -> Seq<u8> {
        self.fed@
    }

    /// Relies on `blake3::Hasher::new`: a fresh hasher over no input.
    #[verifier::external_body]
    pub fn new() -> (r: Self)
        ensures
            r.bytes_fed() == Seq::<u8>::empty(),
    {
        StreamHasher { inner: blake3::Hasher::new(), fed: Ghost(Seq::empty()) }
    }

    /// Relies on `blake3::Hasher::update`: feeding input incrementally
    /// hashes the concatenation of everything fed.
    #[verifier::external_body]
    pub fn update(&mut self, input: &[u8])
        ensures
            final(self).bytes_fed() == old(self).bytes_fed() + input@,
    {
        self.inner.update(input);
    }

    /// Relies on `blake3::Hasher::finalize`: the 32-byte digest of all
    /// input fed so far, a function of those bytes alone.
    #[verifier::external_body]
    pub fn finalize(&self) -> (r: HashDigest)
        ensures
            r@ == content_digest(self.bytes_fed()),
    {
        *self.inner.finalize().as_bytes()
    }
}

/// Hash a byte slice held in memory in one go.
pub fn hash_bytes(data: &[u8]) -> (r: HashDigest)
    ensures
        r@ == content_digest(data@),
{
    let mut hasher = StreamHasher::new();
    hasher.update(data);
    proof {
        assert(hasher.bytes_fed() =~= data@);
    }
    hasher.finalize()
}

/// The first buffer size to try: the configured cap in KiB, but never more
/// than the expected file length, to avoid over-allocation for small
/// files.
pub fn initial_buffer_size(buffer_size_kib: usize, expected_size: Filesize) -> (r: usize)
    requires
        buffer_size_kib <= usize::MAX / 1024,
        expected_size <= usize::MAX as u64,
    ensures
        r == if buffer_size_kib * 1024 <= expected_size {
            (buffer_size_kib * 1024) as int
        } else {
            expected_size as int
        },
{
    let cap: usize = buffer_size_kib * 1024;
    let expected: usize = expected_size as usize;
    if cap <= expected {
        cap
    } else {
        expected
    }
}

/// On allocation failure the buffer halves, down to a 512-byte floor; at
/// the floor the failure surfaces as an out-of-memory error for the file
/// being hashed.
pub fn shrink_buffer_size(path: &str, size: usize) -> (r: Result<usize, DedupError>)
    ensures
        size > 512 ==> r == Ok::<usize, DedupError>(size / 2),
        size <= 512 ==> (r matches Err(e) && e matches DedupError::OutOfMemory { path: p }
            && p@ == path@),
{
    if size > 512 {
        Ok(size / 2)
    } else {
        Err(DedupError::OutOfMemory { path: path.to_owned() })
    }
}

/// Running account of one hash read: how many bytes have been seen against
/// how many were expected when the file was scanned.
pub struct HashJob {
    expected: Filesize,
    observed: Filesize,
}

impl HashJob {
    pub closed spec fn expected_len(&self) -> u64 {
        self.expected
    }

    pub closed spec fn observed_len(&self) -> u64 {
        self.observed
    }

    pub fn start(expected_size: Filesize) -> (r: Self)
        ensures
            r.expected_len() == expected_size,
            r.observed_len() == 0,
    {
        HashJob { expected: expected_size, observed: 0 }
    }

    /// Account for one read of `bytes_read` bytes. The count saturates,
    /// which can only under-report a file that outgrew every expectation.
    pub fn record_read(&mut self, bytes_read: usize)
        ensures
            final(self).expected_len() == old(self).expected_len(),
            final(self).observed_len() == if old(self).observed_len() + bytes_read as u64
                <= u64::MAX {
                old(self).observed_len() + bytes_read as u64
            } else {
                u64::MAX as int
            },
    {
        self.observed = self.observed.saturating_add(bytes_read as u64);
    }

    /// Close the account: the digest stands only if the observed length
    /// equals the expected one; a file that was truncated or grew under
    /// the scanner must never be equated with an older sibling.
    pub fn finish(self, path: String, digest: HashDigest) -> (r: Result<HashDigest, DedupError>)
        ensures
            self.observed_len() == self.expected_len() ==> r == Ok::<HashDigest, DedupError>(
                digest,
            ),
            self.observed_len() != self.expected_len() ==> (r matches Err(e) && e matches
                DedupError::HashSizeMismatch { path: p, expected, observed } && p@ == path@
                && expected == self.expected_len() && observed == self.observed_len()),
    {
        if self.observed == self.expected {
            Ok(digest)
        } else {
            Err(
                DedupError::HashSizeMismatch {
                    path,
                    expected: self.expected,
                    observed: self.observed,
                },
            )
        }
    }
}

/// Settle the outcome of hashing one file. A failure is either propagated
/// or — when hash errors are demoted — replaced by a missing digest, so
/// that the file simply stays pending for the rest of the run.
pub fn settle_hash_result(
    result: Result<HashDigest, DedupError>,
    ignore_hash_errors: bool,
) -> (r: Result<Option<HashDigest>, DedupError>)
    ensures
        match result {
            Ok(digest) => r == Ok::<Option<HashDigest>, DedupError>(Some(digest)),
            Err(e) => if ignore_hash_errors {
                r == Ok::<Option<HashDigest>, DedupError>(None)
            } else {
                r == Err::<Option<HashDigest>, DedupError>(e)
            },
        },
{
    match result {
        Ok(digest) => Ok(Some(digest)),
        Err(e) => if ignore_hash_errors {
            Ok(None)
        } else {
            Err(e)
        },
    }
}

/// One hash task: which path to read, how long it should be, and which
/// extent it will account for.
#[derive(Debug, Clone)]
pub struct HashRequest {
    pub path: String,
    pub size: Filesize,
    pub storage_uid: StorageUid,
    pub file_id: FileId,
}

/// The process-wide cap on concurrent hash reads. Requests beyond the cap
/// wait in arrival order; at no point are more than `max_hash_threads`
/// reads in flight, which bounds aggregate read-buffer memory.
pub struct HashBudget {
    max_hash_threads: usize,
    in_flight: usize,
    queue: Vec<HashRequest>,
}

impl HashBudget {
    pub closed spec fn cap(&self) -> usize {
        self.max_hash_threads
    }

    pub closed spec fn in_flight_count(&self) -> usize {
        self.in_flight
    }

    pub closed spec fn queued(&self) -> Seq<HashRequest> {
        self.queue@
    }

    /// In-flight reads never exceed the cap.
    pub open spec fn wf(&self) -> bool {
        self.in_flight_count() <= self.cap()
    }

    pub fn new(max_hash_threads: usize) -> (r: Self)
        ensures
            r.wf(),
            r.cap() == max_hash_threads,
            r.in_flight_count() == 0,
            r.queued().len() == 0,
    {
        HashBudget { max_hash_threads, in_flight: 0, queue: Vec::new() }
    }

    /// Offer a request. It is returned — and counted in flight — only if
    /// the cap allows one more read; otherwise it waits in the queue.
    pub fn submit(&mut self, request: HashRequest) -> (r: Option<HashRequest>)
        requires
            old(self).wf(),
        ensures
            final(self).wf(),
            final(self).cap() == old(self).cap(),
            if old(self).in_flight_count() < old(self).cap() {
                &&& r == Some(request)
                &&& final(self).in_flight_count() == old(self).in_flight_count() + 1
                &&& final(self).queued() == old(self).queued()
            } else {
                &&& r is None
                &&& final(self).in_flight_count() == old(self).in_flight_count()
                &&& final(self).queued() == old(self).queued().push(request)
            },
    {
        if self.in_flight < self.max_hash_threads {
            self.in_flight = self.in_flight + 1;
            Some(request)
        } else {
            self.queue.push(request);
            None
        }
    }

    /// Note that one in-flight read finished. If work is waiting, the
    /// oldest request takes the freed slot and is returned to be started.
    pub fn on_hash_finished(&mut self) -> (r: Option<HashRequest>)
        requires
            old(self).wf(),
            old(self).in_flight_count() > 0,
        ensures
            final(self).wf(),
            final(self).cap() == old(self).cap(),
            if old(self).queued().len() > 0 {
                &&& r == Some(old(self).queued()[0])
                &&& final(self).in_flight_count() == old(self).in_flight_count()
                &&& final(self).queued() == old(self).queued().drop_first()
            } else {
                &&& r is None
                &&& final(self).in_flight_count() == old(self).in_flight_count() - 1
                &&& final(self).queued().len() == 0
            },
    {
        if self.queue.len() > 0 {
            let next = self.queue.remove(0);
            Some(next)
        } else {
            self.in_flight = self.in_flight - 1;
            None
        }
    }
}

} // verus!
