//! Small conversions.

pub mod cache;
pub mod path;

use vstd::prelude::*;

verus! {

/// Tenths of a microsecond between the start of 1601 and the start of 1970.
pub const FILETIME_UNIX_EPOCH: u64 = 116444736000000000;

/// Converts a Win32 file time, counted in tenths of a microsecond since 1601,
/// to microseconds since the Unix epoch.
pub fn filetime_to_unix_timestamp(filetime: u64) -> (timestamp: u64)
    requires
        filetime >= FILETIME_UNIX_EPOCH,
    ensures
        timestamp == (filetime - FILETIME_UNIX_EPOCH) / 10,
{
    (filetime - FILETIME_UNIX_EPOCH) / 10
}

} // verus!
