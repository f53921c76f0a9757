//! File stamps that let workspace scans skip unchanged files.

use vstd::prelude::*;

verus! {

/// Filesystem stamp of a file: modification time and size in bytes.
#[derive(Debug, Clone, Copy, PartialEq, Eq, Structural)]
pub struct FileStamp {
    /// Whole seconds of the modification time since the Unix epoch.
    pub modified_secs: u64,
    /// Sub-second nanoseconds of the modification time.
    pub modified_nanos: u32,
    /// Size in bytes.
    pub len: u64,
}

/// Conservative gate: only an exact stamp match on an already-tracked
/// workspace document skips the re-read; missing stamps or any difference
/// re-reads.
pub fn stamp_unchanged(entry_stamp: Option<FileStamp>, disk_stamp: Option<FileStamp>) -> (r: bool)
    ensures
        r == (entry_stamp is Some && entry_stamp == disk_stamp),
{
    match (entry_stamp, disk_stamp) {
        (Some(a), Some(b)) => a == b,
        _ => false,
    }
}

} // verus!
