//! Crash-safe file handling: temporary files and backups.
use vstd::prelude::*;

use crate::path::{spec_with_extension, with_extension};

verus! {

/// Where a file's backup is kept: the file with extension `bak`.
pub fn backup_path(path: &str) -> (r: String)
    ensures
        r@ == spec_with_extension(path@, "bak"@),
{
    with_extension(path, "bak")
}

/// Where a file is written before it replaces the original: the file with
/// extension `tmp`.
pub fn temp_path(path: &str) -> (r: String)
    ensures
        r@ == spec_with_extension(path@, "tmp"@),
{
    with_extension(path, "tmp")
}

/// Whether a file is restored from its backup: when a backup exists and the
/// file is missing or empty (a write that crashed).
pub fn should_restore(file_exists: bool, len: u64, backup_exists: bool) -> (r: bool)
    ensures
        r == (backup_exists && (!file_exists || len == 0)),
{
    backup_exists && (!file_exists || len == 0)
}

} // verus!
