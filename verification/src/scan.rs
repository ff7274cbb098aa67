//! The scanner's gates: which directory entries become work.
//!
//! The embedding program lists a directory and examines each entry's
//! link-metadata (symbolic links are never followed). The decisions — skip
//! a symlink, recurse into a subdirectory, test a file name against the
//! pattern, apply the size gate, demote a scan failure — are made here.

use vstd::prelude::*;
use vstd::string::StringSliceAdditionalSpecFns;
use crate::config::Config;
use crate::record::{DedupError, ScanDirResult};

verus! {

#[verifier::external_type_specification]
#[verifier::external_body]
pub struct ExRegex(regex::Regex);

/// The span — start and end byte offsets — of the leftmost match that the
/// pattern engine finds for this pattern in this name, if any. The
/// engine's answer depends on the pattern and the name alone.
pub uninterp spec fn regex_span_of(pattern: regex::Regex, name: Seq<u8>) -> Option<(usize, usize)>;

/// Relies on `regex::Regex::find`: the result is a function of the
/// pattern and the haystack alone, and the byte offsets of the leftmost
/// match lie on character boundaries within the haystack, with start at
/// most end at most the haystack's byte length.
#[verifier::external_body]
fn regex_find_span(pattern: &regex::Regex, name: &str) -> (r: Option<(usize, usize)>)
    ensures
        r == regex_span_of(*pattern, name.spec_bytes()),
        match r {
            Some(span) => span.0 <= span.1 <= name.spec_bytes().len(),
            None => true,
        },
{
    pattern.find(name).map(|m| (m.start(), m.end()))
}

/// Does a match span cover the whole of a name of `len` bytes? A name
/// matches the pattern fully exactly when the engine found a match and it
/// begins at the first byte and ends past the last.
pub open spec fn span_is_full(span: Option<(usize, usize)>, len: int) -> bool {
    match span {
        Some(p) => p.0 == 0 && p.1 == len,
        None => false,
    }
}

/// Decide whether a match span covers a whole name. Partial matches are
/// rejected.
pub fn span_full_match(span: Option<(usize, usize)>, len: usize) -> (r: bool)
    ensures
        r == span_is_full(span, len as int),
{
    match span {
        Some(p) => p.0 == 0 && p.1 == len,
        None => false,
    }
}

/// The name gate. With no pattern configured, or no file name available,
/// every entry passes; otherwise the entry passes exactly when the span
/// the pattern engine reports covers the whole name — so no file whose
/// name does not fully match the pattern ever becomes a record.
pub fn name_passes(config: &Config, file_name: Option<&str>) -> (r: bool)
    ensures
        config.pattern is None ==> r,
        file_name is None ==> r,
        config.pattern matches Some(p) ==> (file_name matches Some(n) ==> r == span_is_full(
            regex_span_of(p, n.spec_bytes()),
            n.spec_bytes().len() as usize as int,
        )),
{
    match (&config.pattern, file_name) {
        (Some(pattern), Some(name)) => {
            let span = regex_find_span(pattern, name);
            span_full_match(span, name.len())
        },
        _ => true,
    }
}

/// When is a file's length acceptable: strictly nonzero and at least the
/// configured minimum (given in KiB).
pub open spec fn size_admitted(min_file_size: u64, size: u64) -> bool {
    size != 0 && size >= min_file_size * 1024
}

/// The size gate.
pub fn size_passes(min_file_size: u64, size: u64) -> (r: bool)
    requires
        min_file_size <= u64::MAX / 1024,
    ensures
        r == size_admitted(min_file_size, size),
{
    size != 0 && size >= min_file_size * 1024
}

/// Settle the outcome of scanning one directory. A failure is either
/// propagated or — when scan errors are demoted — replaced by an empty
/// result, never a partial one.
pub fn settle_scan_result(
    result: Result<Vec<ScanDirResult>, DedupError>,
    ignore_scan_errors: bool,
) -> (r: Result<Vec<ScanDirResult>, DedupError>)
    ensures
        match result {
            Ok(_) => r == result,
            Err(e) => if ignore_scan_errors {
                r matches Ok(v) && v@.len() == 0
            } else {
                r == Err::<Vec<ScanDirResult>, DedupError>(e)
            },
        },
{
    match result {
        Ok(found) => Ok(found),
        Err(e) => if ignore_scan_errors {
            Ok(Vec::new())
        } else {
            Err(e)
        },
    }
}

} // verus!
