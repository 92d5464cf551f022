//! Keeping the local compatibility database fresh.
use vstd::prelude::*;

verus! {

/// How old, in seconds, the local database may grow before it is fetched
/// again: a day.
pub const MAX_AGE_SECS: u64 = 86400;

/// Whether the local database is stale, given its age in seconds: `None`
/// when the file is missing or its modification time cannot be read. A file
/// is stale when it is older than a day.
pub fn is_stale(age_secs: Option<u64>) -> (r: bool)
    ensures
        r == match age_secs {
            None => true,
            Some(a) => a > MAX_AGE_SECS,
        },
{
    match age_secs {
        None => true,
        Some(a) => a > MAX_AGE_SECS,
    }
}

/// Whether the database is fetched: automatic updates are on and the local
/// copy is stale.
pub fn needs_update(auto_update: bool, age_secs: Option<u64>) -> (r: bool)
    ensures
        r == (auto_update && match age_secs {
            None => true,
            Some(a) => a > MAX_AGE_SECS,
        }),
{
    auto_update && is_stale(age_secs)
}

} // verus!
