//! Storage core of an append-only commit log kept in one memory-mapped file.
//!
//! The crate has three layers: a bounds-checked byte [`cursor::Cursor`], the
//! versioned [`disk_metadata::DiskMetadata`] record stored in the file header,
//! and the [`disk::Disk`] handle that owns the mapping and hands out byte
//! ranges to writers.
use vstd::prelude::*;

pub mod cursor;
pub mod disk;
pub mod disk_laws;
pub mod disk_metadata;
pub mod layout;
pub mod mapping;
pub mod utils;

verus! {

/// Number of bytes in the little-endian encoding of a `u64`.
pub const U64_SIZE: usize = 8;

/// Why an operation on a disk was refused.
#[derive(Debug, Clone, Copy, PartialEq, Eq, Structural)]
pub enum DiskError {
    /// The lock flag was set when the operation looked at it.
    Locked,
    /// The mapped region could not be synchronised with its backing store.
    InvalidFlushing,
    /// The requested range ends past the capacity of the disk.
    CapacityReached,
}

impl DiskError {
    /// Whether this is [`DiskError::Locked`].
    pub fn is_locked(&self) -> (yes: bool)
        ensures
            yes == (*self == DiskError::Locked),
    {
        match self {
            DiskError::Locked => true,
            _ => false,
        }
    }

    /// Whether this is [`DiskError::InvalidFlushing`].
    pub fn is_invalid_flushing(&self) -> (yes: bool)
        ensures
            yes == (*self == DiskError::InvalidFlushing),
    {
        match self {
            DiskError::InvalidFlushing => true,
            _ => false,
        }
    }

    /// Whether this is [`DiskError::CapacityReached`].
    pub fn is_capacity_reached(&self) -> (yes: bool)
        ensures
            yes == (*self == DiskError::CapacityReached),
    {
        match self {
            DiskError::CapacityReached => true,
            _ => false,
        }
    }
}

} // verus!
