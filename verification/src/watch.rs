//! The file-system events that the watchers look at, and which paths they
//! look at.
use vstd::prelude::*;
use crate::text::{chars_of, contains, contains_in};

verus! {

/// The kinds of file-system event that the processors tell apart.
#[derive(Debug, Clone, Copy, PartialEq, Eq, Structural)]
pub enum WatchEvent {
    /// A file was created.
    CreateFile,
    /// A file's metadata changed, of no particular kind.
    ModifyMetadataAny,
    /// Any other event.
    Other,
}

/// Whether a watched path is looked at: it contains the processor's pattern.
pub fn path_matches(path: &str, pattern: &str) -> (b: bool)
    ensures
        b == contains(path@, pattern@),
{
    let v = chars_of(path);
    let p = chars_of(pattern);
    assert(v@.subrange(0, v.len() as int) =~= v@);
    contains_in(&v, 0, v.len(), &p)
}

} // verus!
