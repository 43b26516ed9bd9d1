//! Recorded state of one source file.

use vstd::prelude::*;

verus! {

/// Path, modification time (nanoseconds since the UNIX epoch) and content
/// hash of a scanned file.
#[derive(Debug, Clone, PartialEq, Eq)]
pub struct FileState {
    pub path: String,
    pub mtime: u64,
    pub hash: String,
}

/// The plain values of a file state.
pub open spec fn fs_view(f: FileState) -> (Seq<char>, u64, Seq<char>) {
    (f.path@, f.mtime, f.hash@)
}

impl FileState {
    /// A file state from its parts.
    pub fn new(path: String, mtime: u64, hash: String) -> (f: Self)
        ensures
            f == (Self { path, mtime, hash }),
    {
        Self { path, mtime, hash }
    }
}

/// Error converting a modification time to nanoseconds since the UNIX epoch.
#[derive(Debug, Clone, PartialEq, Eq)]
pub struct MtimeError {
    pub path: String,
    pub reason: String,
}

/// Nanoseconds in a second.
pub const NANOS_PER_SEC: u64 = 1_000_000_000;

/// Convert a modification time, given as whole seconds and sub-second
/// nanoseconds since the UNIX epoch (`None` for a time before the epoch), to
/// nanoseconds since the epoch.
///
/// Returns `Err` for pre-epoch times or values that overflow `u64`.
pub fn mtime_nanos(since_epoch: Option<(u64, u32)>, path: &str) -> (r: Result<u64, MtimeError>)
    requires
        since_epoch matches Some((_, n)) ==> n < NANOS_PER_SEC,
    ensures
        match since_epoch {
            None => r matches Err(e) && e.path@ == path@ && e.reason@ == "pre-epoch mtime"@,
            Some((s, n)) => if s * NANOS_PER_SEC + n <= u64::MAX {
                r == Ok::<u64, MtimeError>((s * NANOS_PER_SEC + n) as u64)
            } else {
                r matches Err(e) && e.path@ == path@ && e.reason@
                    == "mtime nanoseconds overflow u64"@
            },
        },
{
    match since_epoch {
        None => Err(MtimeError { path: path.to_owned(), reason: "pre-epoch mtime".to_owned() }),
        Some((secs, nanos)) => {
            let limit: u64 = (u64::MAX - nanos as u64) / NANOS_PER_SEC;
            assert(limit as int == (u64::MAX as int - nanos as int) / 1_000_000_000int);
            if secs > limit {
                assert(secs as int * 1_000_000_000int + nanos as int > u64::MAX as int) by (nonlinear_arith)
                    requires
                        secs > limit,
                        limit as int == (u64::MAX as int - nanos as int) / 1_000_000_000int,
                        nanos < 1_000_000_000,
                ;
                Err(
                    MtimeError {
                        path: path.to_owned(),
                        reason: "mtime nanoseconds overflow u64".to_owned(),
                    },
                )
            } else {
                assert(secs as int * 1_000_000_000int + nanos as int <= u64::MAX as int) by (nonlinear_arith)
                    requires
                        secs <= limit,
                        limit as int == (u64::MAX as int - nanos as int) / 1_000_000_000int,
                        nanos < 1_000_000_000,
                ;
                Ok(secs * NANOS_PER_SEC + nanos as u64)
            }
        },
    }
}

} // verus!
