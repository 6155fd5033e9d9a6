//! The phases of a backup.

use vstd::prelude::*;

verus! {

/// No backup is running.
pub const IDLE: u64 = 0;

/// The database is being copied.
pub const SNAPSHOT_DB: u64 = 1;

/// The files are being counted.
pub const COUNT_FILES: u64 = 2;

/// The contents are being compressed.
pub const COMPRESS: u64 = 3;

/// The backup is done.
pub const DONE: u64 = 5;

} // verus!
