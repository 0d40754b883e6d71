//! The layout of a disk file, as statements about its bytes.
//!
//! | Bytes  | Field                                         |
//! |--------|-----------------------------------------------|
//! | 0      | 1 once the header is written                  |
//! | 1      | 1 while the disk is locked                    |
//! | 2..10  | length of the metadata record, little-endian  |
//! | 10..   | the metadata record, then the data region     |
use vstd::prelude::*;
use vstd::bytes::{
    lemma_auto_spec_u64_to_from_le_bytes, spec_u64_from_le_bytes, spec_u64_to_le_bytes,
};
use crate::cursor::CursorError;
use crate::disk_metadata::{lemma_decode_encoding, DiskMetadata, DiskMetadataError};
use crate::U64_SIZE;

verus! {

/// The bytes before the metadata record: the initialized flag, the locked
/// flag and the length of the record.
pub const COMMIT_LOG_INITIAL_HEADER_SIZE: usize = 1 + 1 + 8;

/// The bytes that the header of a fresh region takes once it is written:
/// the flags, the length, and a record of the first version.
pub const FRESH_HEADER_SIZE: usize = COMMIT_LOG_INITIAL_HEADER_SIZE + 1 + U64_SIZE;

/// Where the locked flag is kept.
pub const LOCKED_FLAG_AT: usize = 1;

/// Where the length of the metadata record is kept.
pub const METADATA_LENGTH_AT: usize = 2;

/// Why a region could not be opened as a disk.
#[derive(Debug, Clone, Copy, PartialEq, Eq, Structural)]
pub enum DiskOpenError {
    /// The region is not as long as the configured capacity.
    CapacityMismatch,
    /// The region ends before the end of its header.
    Header(CursorError),
    /// The header's metadata is no record that this version knows.
    Metadata(DiskMetadataError),
    /// A fresh region was to be stamped with a time before the Unix epoch.
    ClockBeforeEpoch,
    /// The header was written but could not be synchronised.
    InvalidFlushing,
}

/// `bytes` with `data` laid over it from `at` on.
pub open spec fn overwrite(bytes: Seq<u8>, at: int, data: Seq<u8>) -> Seq<u8> {
    bytes.subrange(0, at) + data + bytes.subrange(at + data.len(), bytes.len() as int)
}

/// Whether the initialized flag of a region is set.
pub open spec fn is_initialized(bytes: Seq<u8>) -> bool {
    bytes[0] == 1
}

/// Whether the locked flag of a region is set.
pub open spec fn stored_lock(bytes: Seq<u8>) -> bool {
    bytes[LOCKED_FLAG_AT as int] == 1
}

/// The byte that stands for a state of the lock.
pub open spec fn lock_byte(locked: bool) -> u8 {
    if locked {
        1
    } else {
        0
    }
}

/// The record found at `at` and the number of bytes it takes: eight bytes
/// give its length, and the record follows them.
pub open spec fn stored_record(bytes: Seq<u8>, at: int) -> Result<
    (DiskMetadata, nat),
    DiskOpenError,
> {
    if at + U64_SIZE > bytes.len() {
        Err(DiskOpenError::Header(CursorError::InvalidRange))
    } else {
        let length = spec_u64_from_le_bytes(bytes.subrange(at, at + U64_SIZE));
        let from = at + U64_SIZE;
        if from + length > bytes.len() {
            Err(DiskOpenError::Header(CursorError::InvalidRange))
        } else {
            match DiskMetadata::decode(bytes.subrange(from, from + length)) {
                Ok(metadata) => Ok((metadata, length as nat)),
                Err(e) => Err(DiskOpenError::Metadata(e)),
            }
        }
    }
}

/// A region whose first two bytes say: initialized, not locked.
pub open spec fn with_flags_set(bytes: Seq<u8>) -> Seq<u8> {
    bytes.update(0, 1u8).update(LOCKED_FLAG_AT as int, 0u8)
}

/// A region with `metadata` stored in its header: the length of the record
/// at byte 2, the record at byte 10.
pub open spec fn with_metadata(bytes: Seq<u8>, metadata: DiskMetadata) -> Seq<u8> {
    overwrite(
        overwrite(
            bytes,
            METADATA_LENGTH_AT as int,
            spec_u64_to_le_bytes(metadata.encoding().len() as u64),
        ),
        COMMIT_LOG_INITIAL_HEADER_SIZE as int,
        metadata.encoding(),
    )
}

/// A fresh region after its header has been written.
pub open spec fn initialized_image(bytes: Seq<u8>, metadata: DiskMetadata) -> Seq<u8> {
    with_metadata(with_flags_set(bytes), metadata)
}

/// The region with its locked flag set to `locked`.
pub open spec fn with_lock(bytes: Seq<u8>, locked: bool) -> Seq<u8> {
    bytes.update(LOCKED_FLAG_AT as int, lock_byte(locked))
}

/// Copies `data` into `dst`, starting at `at`.
pub fn store(dst: &mut [u8], at: usize, data: &[u8])
    requires
        at + data@.len() <= old(dst)@.len(),
    ensures
        final(dst)@ == overwrite(old(dst)@, at as int, data@),
{
    let room = dst.len();
    let mut i: usize = 0;
    while i < data.len()
        invariant
            i <= data@.len(),
            at + data@.len() <= dst@.len(),
            dst@.len() == room,
            old(dst)@.len() == room,
            dst@ == overwrite(old(dst)@, at as int, data@.subrange(0, i as int)),
        decreases data@.len() - i,
    {
        dst[at + i] = data[i];
        i += 1;
        assert(dst@ =~= overwrite(old(dst)@, at as int, data@.subrange(0, i as int)));
    }
    assert(data@.subrange(0, i as int) =~= data@);
}

/// The header that initialization writes is the header that is read back:
/// an initialized, unlocked region that holds `metadata`, with every byte
/// after the header as it was.
pub proof fn lemma_initialized_image(bytes: Seq<u8>, metadata: DiskMetadata)
    requires
        bytes.len() >= COMMIT_LOG_INITIAL_HEADER_SIZE + metadata.encoding().len(),
    ensures
        initialized_image(bytes, metadata).len() == bytes.len(),
        is_initialized(initialized_image(bytes, metadata)),
        !stored_lock(initialized_image(bytes, metadata)),
        stored_record(initialized_image(bytes, metadata), METADATA_LENGTH_AT as int) == Ok::<
            (DiskMetadata, nat),
            DiskOpenError,
        >((metadata, metadata.encoding().len())),
        forall|i: int|
            COMMIT_LOG_INITIAL_HEADER_SIZE + metadata.encoding().len() <= i < bytes.len()
                ==> initialized_image(bytes, metadata)[i] == bytes[i],
{
    lemma_auto_spec_u64_to_from_le_bytes();
    lemma_decode_encoding(metadata, Seq::empty());
    let image = initialized_image(bytes, metadata);
    let record = metadata.encoding();
    let length = spec_u64_to_le_bytes(record.len() as u64);
    assert(image.subrange(2, 10) =~= length);
    assert(image.subrange(10, 10 + record.len() as int) =~= record);
}

/// What is read from the header does not depend on the bytes after it:
/// changing bytes of the data region, or the locked flag, leaves the stored
/// record as it is.
pub proof fn lemma_stored_record_stable(bytes: Seq<u8>, other: Seq<u8>)
    requires
        stored_record(bytes, METADATA_LENGTH_AT as int) is Ok,
        other.len() == bytes.len(),
        forall|i: int|
            METADATA_LENGTH_AT <= i < COMMIT_LOG_INITIAL_HEADER_SIZE + stored_record(
                bytes,
                METADATA_LENGTH_AT as int,
            )->Ok_0.1 ==> other[i] == bytes[i],
    ensures
        stored_record(other, METADATA_LENGTH_AT as int) == stored_record(
            bytes,
            METADATA_LENGTH_AT as int,
        ),
{
    let length = spec_u64_from_le_bytes(bytes.subrange(2, 10));
    assert(other.subrange(2, 10) =~= bytes.subrange(2, 10));
    assert(other.subrange(10, 10 + length) =~= bytes.subrange(10, 10 + length));
}

} // verus!
