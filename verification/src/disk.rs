//! The disk: one memory-mapped file, a header at its start and an
//! append-only data region after it.
//!
//! A handle is used by one caller at a time (every operation that changes
//! it takes `&mut self`); callers that share one put it behind a lock of
//! their own. Ranges of the data region are handed out by
//! [`Disk::reserve_space`], filled by [`Disk::write`] and settled by
//! [`Disk::flush`].
use vstd::prelude::*;
use vstd::bytes::spec_u64_from_le_bytes;
use memmap2::MmapMut;
use std::path::PathBuf;
use std::time::SystemTime;
use uuid::Uuid;
use crate::cursor::{Cursor, CursorError};
use crate::disk_metadata::{lemma_decode_encoding, DiskMetadata, DiskMetadataV1};
use crate::layout::{
    initialized_image, is_initialized, lemma_initialized_image, lemma_stored_record_stable,
    overwrite, store, stored_lock, stored_record, with_flags_set, with_lock, with_metadata,
    DiskOpenError, COMMIT_LOG_INITIAL_HEADER_SIZE, FRESH_HEADER_SIZE, LOCKED_FLAG_AT,
    METADATA_LENGTH_AT,
};
use crate::mapping::{mmap_mut_bytes, mmap_mut_flush, mmap_mut_slice, mmap_mut_slice_mut};
use crate::utils::{created_at_of, epoch_seconds};
use crate::{DiskError, U64_SIZE};

verus! {

/// `uuid::Uuid`, an identifier; its inside is not looked at.
#[verifier::external_type_specification]
#[verifier::external_body]
pub struct ExUuid(Uuid);

/// `std::path::PathBuf`, the place of a file; its inside is not looked at.
#[verifier::external_type_specification]
#[verifier::external_body]
pub struct ExPathBuf(PathBuf);

/// `uuid::Uuid::new_v4`: a random identifier; nothing is known of it.
pub assume_specification[ Uuid::new_v4 ]() -> (id: Uuid)
;

/// `<PathBuf as Clone>::clone`: a path equal to the one it was made from.
pub assume_specification[ <PathBuf as Clone>::clone ](path: &PathBuf) -> (copy: PathBuf)
    ensures
        copy == *path,
;

/// How a disk is to be opened.
#[derive(Debug)]
pub struct DiskConf {
    /// The length of the file in bytes, header included.
    pub capacity: u64,
    /// The number of items the caller means to store; not looked at here.
    pub max_items: u64,
    /// Where the file is.
    pub disk_file_path: PathBuf,
}

impl Clone for DiskConf {
    fn clone(&self) -> (copy: Self)
        ensures
            copy == *self,
    {
        DiskConf {
            capacity: self.capacity,
            max_items: self.max_items,
            disk_file_path: self.disk_file_path.clone(),
        }
    }
}

/// What a disk is, to its callers.
pub struct DiskView {
    pub id: Uuid,
    pub capacity: u64,
    pub max_items: u64,
    pub path: PathBuf,
    /// The bytes of the mapped file.
    pub bytes: Seq<u8>,
    /// The first byte that no reservation has taken.
    pub write_offset: usize,
    pub locked: bool,
    /// The writes that no flush has settled yet.
    pub busy: usize,
    pub metadata: DiskMetadata,
    /// The length of the metadata record in the header.
    pub metadata_size: u64,
}

impl DiskView {
    /// Where the data region starts.
    pub open spec fn data_start(self) -> int {
        COMMIT_LOG_INITIAL_HEADER_SIZE + self.metadata_size
    }

    /// The file is as long as the capacity, which a `usize` can hold, the
    /// header lies within it, and no reservation starts inside the header.
    pub open spec fn wf(self) -> bool {
        &&& self.bytes.len() == self.capacity
        &&& self.capacity <= usize::MAX
        &&& self.data_start() <= self.capacity
        &&& self.data_start() <= self.write_offset
    }

    /// The header in the file says what the handle says: initialized, the
    /// same state of the lock, the same metadata.
    pub open spec fn header_matches(self) -> bool {
        &&& is_initialized(self.bytes)
        &&& stored_lock(self.bytes) == self.locked
        &&& stored_record(self.bytes, METADATA_LENGTH_AT as int) == Ok::<
            (DiskMetadata, nat),
            DiskOpenError,
        >((self.metadata, self.metadata_size as nat))
    }

    /// What a reservation of `size` bytes returns: the offset of the range,
    /// unless the disk is locked or the range would end past the capacity.
    pub open spec fn grant(self, size: usize) -> Result<usize, DiskError> {
        if self.locked {
            Err(DiskError::Locked)
        } else if self.write_offset + size > self.capacity {
            Err(DiskError::CapacityReached)
        } else {
            Ok(self.write_offset)
        }
    }

    /// The disk after a reservation of `size` bytes. A locked disk is left
    /// alone; otherwise the range is taken, also where it is refused for
    /// ending past the capacity. The offset stops at `usize::MAX`.
    pub open spec fn reserved(self, size: usize) -> DiskView {
        if self.locked {
            self
        } else {
            DiskView {
                write_offset: if self.write_offset + size > usize::MAX {
                    usize::MAX
                } else {
                    (self.write_offset + size) as usize
                },
                ..self
            }
        }
    }

    /// What a write returns.
    pub open spec fn write_outcome(self) -> Result<(), DiskError> {
        if self.locked {
            Err(DiskError::Locked)
        } else {
            Ok(())
        }
    }

    /// The disk after a write of `data` at `start_at`. A locked disk is left
    /// alone; otherwise the bytes are in place and one more write waits for
    /// its flush.
    pub open spec fn written(self, data: Seq<u8>, start_at: usize) -> DiskView {
        if self.locked {
            self
        } else {
            DiskView {
                bytes: overwrite(self.bytes, start_at as int, data),
                busy: if self.busy == usize::MAX {
                    0
                } else {
                    (self.busy + 1) as usize
                },
                ..self
            }
        }
    }

    /// The disk after a flush: one write fewer waits. The count is not
    /// checked: a flush without a write before it takes it from 0 round to
    /// `usize::MAX`.
    pub open spec fn flushed(self) -> DiskView {
        DiskView {
            busy: if self.busy == 0 {
                usize::MAX
            } else {
                (self.busy - 1) as usize
            },
            ..self
        }
    }

    /// The disk after its lock has been set to `locked`, in the handle and
    /// in the file.
    pub open spec fn relocked(self, locked: bool) -> DiskView {
        DiskView { locked, bytes: with_lock(self.bytes, locked), ..self }
    }

    /// What holds of a disk just opened from `bytes`, whenever and under
    /// whatever identifier: it is well formed, its header says what the
    /// handle says, it is what the configuration asked for, its frontier is
    /// at the start of the data region, no write waits, and the data region
    /// is as it was. A region that was initialized is unchanged as a whole
    /// and keeps the state of its lock; a fresh one starts unlocked.
    pub open spec fn opened_from(self, conf: DiskConf, bytes: Seq<u8>) -> bool {
        &&& self.wf()
        &&& self.header_matches()
        &&& self.capacity == conf.capacity
        &&& self.max_items == conf.max_items
        &&& self.path == conf.disk_file_path
        &&& self.write_offset == self.data_start()
        &&& self.busy == 0
        &&& self.bytes.len() == bytes.len()
        &&& forall|i: int| self.data_start() <= i < bytes.len() ==> self.bytes[i] == bytes[i]
        &&& if is_initialized(bytes) {
            self.bytes == bytes
        } else {
            !self.locked
        }
    }

    /// The error that the region and the configuration alone decide, if
    /// they decide one: a region of another length than the capacity, one
    /// too short for its header, or an initialized one whose record cannot
    /// be read.
    pub open spec fn refused(conf: DiskConf, bytes: Seq<u8>) -> Option<DiskOpenError> {
        if bytes.len() != conf.capacity {
            Some(DiskOpenError::CapacityMismatch)
        } else if bytes.len() < 2 {
            Some(DiskOpenError::Header(CursorError::InvalidRange))
        } else if is_initialized(bytes) {
            match stored_record(bytes, METADATA_LENGTH_AT as int) {
                Ok(_) => None,
                Err(e) => Some(e),
            }
        } else if bytes.len() < FRESH_HEADER_SIZE {
            Some(DiskOpenError::Header(CursorError::InvalidRange))
        } else {
            None
        }
    }

    /// What opening a region gives, as far as it depends on the region, the
    /// configuration, the identifier and the time alone.
    ///
    /// An initialized region is read, and nothing in it changes. Any other
    /// region is fresh: it gets a header with a record of the first
    /// version, stamped with `now`, and starts unlocked.
    pub open spec fn opened(conf: DiskConf, bytes: Seq<u8>, id: Uuid, now: SystemTime) -> Result<
        DiskView,
        DiskOpenError,
    > {
        match Self::refused(conf, bytes) {
            Some(e) => Err(e),
            None => {
                if is_initialized(bytes) {
                    let (metadata, metadata_size) = stored_record(
                        bytes,
                        METADATA_LENGTH_AT as int,
                    )->Ok_0;
                    Ok(
                        DiskView {
                            id,
                            capacity: conf.capacity,
                            max_items: conf.max_items,
                            path: conf.disk_file_path,
                            bytes,
                            write_offset: (COMMIT_LOG_INITIAL_HEADER_SIZE + metadata_size) as usize,
                            locked: stored_lock(bytes),
                            busy: 0,
                            metadata,
                            metadata_size: metadata_size as u64,
                        },
                    )
                } else {
                    match epoch_seconds(now) {
                        None => Err(DiskOpenError::ClockBeforeEpoch),
                        Some(created_at) => {
                            let metadata = DiskMetadata::V1(DiskMetadataV1 { created_at });
                            Ok(
                                DiskView {
                                    id,
                                    capacity: conf.capacity,
                                    max_items: conf.max_items,
                                    path: conf.disk_file_path,
                                    bytes: initialized_image(bytes, metadata),
                                    write_offset: FRESH_HEADER_SIZE,
                                    locked: false,
                                    busy: 0,
                                    metadata,
                                    metadata_size: (FRESH_HEADER_SIZE
                                        - COMMIT_LOG_INITIAL_HEADER_SIZE) as u64,
                                },
                            )
                        },
                    }
                }
            },
        }
    }
}

/// A handle on an open disk.
#[derive(Debug)]
pub struct Disk {
    id: Uuid,
    capacity: u64,
    max_items: u64,
    path: PathBuf,
    mmap: MmapMut,
    write_offset: usize,
    locked: bool,
    busy: usize,
    metadata: DiskMetadata,
    metadata_size: u64,
}

impl View for Disk {
    type V = DiskView;

    closed spec fn view(&self) -> DiskView {
        DiskView {
            id: self.id,
            capacity: self.capacity,
            max_items: self.max_items,
            path: self.path,
            bytes: mmap_mut_bytes(&self.mmap),
            write_offset: self.write_offset,
            locked: self.locked,
            busy: self.busy,
            metadata: self.metadata,
            metadata_size: self.metadata_size,
        }
    }
}

impl Disk {
    #[verifier::type_invariant]
    closed spec fn inv(&self) -> bool {
        self@.wf()
    }

    /// What [`Disk::open`] may return for a region, a configuration, an
    /// identifier and a time. A region that is initialized is opened as
    /// [`DiskView::opened`] says. So is a fresh one, unless the header that
    /// was written could not be synchronised.
    pub open spec fn opens_as(
        conf: DiskConf,
        bytes: Seq<u8>,
        id: Uuid,
        now: SystemTime,
        outcome: Result<Disk, DiskOpenError>,
    ) -> bool {
        match outcome {
            Ok(disk) => DiskView::opened(conf, bytes, id, now) == Ok::<DiskView, DiskOpenError>(
                disk@,
            ),
            Err(DiskOpenError::InvalidFlushing) => {
                &&& DiskView::opened(conf, bytes, id, now) is Ok
                &&& !is_initialized(bytes)
            },
            Err(e) => DiskView::opened(conf, bytes, id, now) == Err::<DiskView, DiskOpenError>(e),
        }
    }

    /// What a failed synchronisation means to the caller of a disk.
    pub fn settled(outcome: Result<(), std::io::Error>) -> (settled: Result<(), DiskError>)
        ensures
            outcome is Ok ==> settled == Ok::<(), DiskError>(()),
            outcome is Err ==> settled == Err::<(), DiskError>(DiskError::InvalidFlushing),
    {
        match outcome {
            Ok(_) => Ok(()),
            Err(_) => Err(DiskError::InvalidFlushing),
        }
    }

    /// Opens the region `mmap` as a disk, with a random identifier and the
    /// time of the system clock.
    pub fn new(opts: DiskConf, mmap: MmapMut) -> (outcome: Result<Disk, DiskOpenError>)
        ensures
            exists|id: Uuid, now: SystemTime|
                Self::opens_as(opts, mmap_mut_bytes(&mmap), id, now, outcome),
            outcome is Ok ==> outcome->Ok_0@.opened_from(opts, mmap_mut_bytes(&mmap)),
            DiskView::refused(opts, mmap_mut_bytes(&mmap)) matches Some(e) ==> outcome is Err
                && outcome->Err_0 == e,
            DiskView::refused(opts, mmap_mut_bytes(&mmap)) is None ==> {
                ||| outcome is Ok
                ||| !is_initialized(mmap_mut_bytes(&mmap)) && outcome is Err && (outcome->Err_0
                    == DiskOpenError::ClockBeforeEpoch || outcome->Err_0
                    == DiskOpenError::InvalidFlushing)
            },
    {
        let id = Uuid::new_v4();
        let now = SystemTime::now();
        let outcome = Self::open(opts, mmap, id, now);
        assert(Self::opens_as(opts, mmap_mut_bytes(&mmap), id, now, outcome));
        outcome
    }

    /// Opens the region `mmap` as a disk with the identifier `id`. A region
    /// that holds no header yet gets one, stamped with `now`.
    pub fn open(opts: DiskConf, mmap: MmapMut, id: Uuid, now: SystemTime) -> (outcome: Result<
        Disk,
        DiskOpenError,
    >)
        ensures
            Self::opens_as(opts, mmap_mut_bytes(&mmap), id, now, outcome),
            outcome is Ok ==> outcome->Ok_0@.opened_from(opts, mmap_mut_bytes(&mmap)),
    {
        let DiskConf { disk_file_path, capacity, max_items } = opts;
        let mut mmap = mmap;
        let ghost before = mmap_mut_bytes(&mmap);

        let len = mmap_mut_slice(&mmap).len();
        if len as u64 != capacity {
            return Err(DiskOpenError::CapacityMismatch);
        }
        let (locked, metadata, metadata_size) = match Self::read_metadata(&mut mmap, now) {
            Ok(header) => header,
            Err(e) => {
                return Err(e);
            },
        };

        proof {
            if !is_initialized(before) {
                lemma_decode_encoding(metadata, Seq::empty());
                lemma_initialized_image(before, metadata);
            }
        }
        let write_offset_begin_at = COMMIT_LOG_INITIAL_HEADER_SIZE + metadata_size;

        Ok(
            Disk {
                id,
                mmap,
                write_offset: write_offset_begin_at,
                capacity,
                locked,
                busy: 0,
                path: disk_file_path,
                max_items,
                metadata,
                metadata_size: metadata_size as u64,
            },
        )
    }

    /// Marks a region as initialized and unlocked, and synchronises it.
    fn initialize_file(mmap: &mut MmapMut) -> (done: Result<(), DiskError>)
        requires
            mmap_mut_bytes(old(mmap)).len() >= 2,
        ensures
            mmap_mut_bytes(final(mmap)) == with_flags_set(mmap_mut_bytes(old(mmap))),
            done is Err ==> done == Err::<(), DiskError>(DiskError::InvalidFlushing),
    {
        let region = mmap_mut_slice_mut(mmap);
        region[0] = 1u8;
        region[1] = 0u8;
        Self::settled(mmap_mut_flush(mmap))
    }

    /// Reads the header of a region, writing it first where the region is
    /// fresh. Returns the state of the lock, the metadata and the length of
    /// the stored record.
    fn read_metadata(mmap: &mut MmapMut, now: SystemTime) -> (header: Result<
        (bool, DiskMetadata, usize),
        DiskOpenError,
    >)
        ensures
            Self::reads_as(mmap_mut_bytes(old(mmap)), now, header, mmap_mut_bytes(final(mmap))),
    {
        let mut cursor = Cursor::mmap_mut(mmap);

        let initialized_locked_val = match cursor.consume(2) {
            Ok(flags) => flags,
            Err(e) => {
                return Err(DiskOpenError::Header(e));
            },
        };
        let initialized = initialized_locked_val[0] == 1u8;
        let locked = initialized_locked_val[1] == 1u8;

        if initialized {
            match Self::read_existing_metadata(&mut cursor) {
                Ok((metadata, metadata_size)) => Ok((locked, metadata, metadata_size)),
                Err(e) => Err(e),
            }
        } else {
            if cursor.len < FRESH_HEADER_SIZE {
                return Err(DiskOpenError::Header(CursorError::InvalidRange));
            }
            let created_at = match created_at_of(now) {
                Some(secs) => secs,
                None => {
                    return Err(DiskOpenError::ClockBeforeEpoch);
                },
            };
            let metadata = DiskMetadata::V1(DiskMetadataV1 { created_at });
            proof {
                lemma_decode_encoding(metadata, Seq::empty());
            }
            match Self::initialize_file(mmap) {
                Ok(_) => {},
                Err(_) => {
                    return Err(DiskOpenError::InvalidFlushing);
                },
            }
            match Self::create_and_store_metadata(mmap, metadata) {
                Ok(metadata_size) => Ok((false, metadata, metadata_size)),
                Err(_) => Err(DiskOpenError::InvalidFlushing),
            }
        }
    }

    /// What [`Disk::read_metadata`] may return for a region, and the bytes
    /// it leaves where it succeeds.
    spec fn reads_as(
        bytes: Seq<u8>,
        now: SystemTime,
        header: Result<(bool, DiskMetadata, usize), DiskOpenError>,
        after: Seq<u8>,
    ) -> bool {
        if bytes.len() < 2 {
            header == Err::<(bool, DiskMetadata, usize), DiskOpenError>(
                DiskOpenError::Header(CursorError::InvalidRange),
            )
        } else if is_initialized(bytes) {
            &&& after == bytes
            &&& match stored_record(bytes, METADATA_LENGTH_AT as int) {
                Ok((metadata, metadata_size)) => header == Ok::<
                    (bool, DiskMetadata, usize),
                    DiskOpenError,
                >((stored_lock(bytes), metadata, metadata_size as usize)),
                Err(e) => header == Err::<(bool, DiskMetadata, usize), DiskOpenError>(e),
            }
        } else if bytes.len() < FRESH_HEADER_SIZE {
            header == Err::<(bool, DiskMetadata, usize), DiskOpenError>(
                DiskOpenError::Header(CursorError::InvalidRange),
            )
        } else {
            match epoch_seconds(now) {
                None => header == Err::<(bool, DiskMetadata, usize), DiskOpenError>(
                    DiskOpenError::ClockBeforeEpoch,
                ),
                Some(created_at) => {
                    let metadata = DiskMetadata::V1(DiskMetadataV1 { created_at });
                    match header {
                        Ok(found) => {
                            &&& found == (
                                false,
                                metadata,
                                (FRESH_HEADER_SIZE - COMMIT_LOG_INITIAL_HEADER_SIZE) as usize,
                            )
                            &&& after == initialized_image(bytes, metadata)
                        },
                        Err(e) => e == DiskOpenError::InvalidFlushing,
                    }
                },
            }
        }
    }

    /// Stores `metadata` in the header of a region: the length of its
    /// record at byte 2, the record at byte 10. Returns that length.
    fn create_and_store_metadata(mmap: &mut MmapMut, metadata: DiskMetadata) -> (stored: Result<
        usize,
        DiskError,
    >)
        requires
            mmap_mut_bytes(old(mmap)).len() >= COMMIT_LOG_INITIAL_HEADER_SIZE
                + metadata.encoding().len(),
        ensures
            mmap_mut_bytes(final(mmap)) == with_metadata(mmap_mut_bytes(old(mmap)), metadata),
            match stored {
                Ok(metadata_length) => metadata_length == metadata.encoding().len(),
                Err(e) => e == DiskError::InvalidFlushing,
            },
    {
        let metadata_bytes = metadata.to_vec();
        let metadata_length = metadata_bytes.len();
        let length_bytes = vstd::bytes::u64_to_le_bytes(metadata_length as u64);
        proof {
            vstd::bytes::lemma_auto_spec_u64_to_from_le_bytes();
            lemma_decode_encoding(metadata, Seq::empty());
        }

        // Store metadata size and metadata itself
        let region = mmap_mut_slice_mut(mmap);
        store(region, METADATA_LENGTH_AT, length_bytes.as_slice());
        store(region, COMMIT_LOG_INITIAL_HEADER_SIZE, metadata_bytes.as_slice());

        match Self::settled(mmap_mut_flush(mmap)) {
            Ok(_) => Ok(metadata_length),
            Err(e) => Err(e),
        }
    }

    /// The cursor after a stored record has been read from where it stood:
    /// past the record where the record lies within the bytes, past the
    /// length alone where only that does, and where it was otherwise.
    pub open spec fn past_record<'a>(cursor: Cursor<'a>) -> Cursor<'a> {
        let bytes = cursor.source();
        let at = cursor.position as int;
        let length = spec_u64_from_le_bytes(bytes.subrange(at, at + U64_SIZE));
        if at + U64_SIZE > bytes.len() {
            cursor
        } else if at + U64_SIZE + length > bytes.len() {
            Cursor { position: (at + U64_SIZE) as usize, last_consumed_size: U64_SIZE, ..cursor }
        } else {
            Cursor {
                position: (at + U64_SIZE + length) as usize,
                last_consumed_size: length as usize,
                ..cursor
            }
        }
    }

    /// Reads a stored record from where `cursor` stands: the eight bytes of
    /// its length, then the record. Returns the record and its length; the
    /// cursor is left after the last bytes it could read.
    pub fn read_existing_metadata(cursor: &mut Cursor) -> (found: Result<
        (DiskMetadata, usize),
        DiskOpenError,
    >)
        requires
            old(cursor).wf(),
        ensures
            *final(cursor) == Self::past_record(*old(cursor)),
            match stored_record(old(cursor).source(), old(cursor).position as int) {
                Ok((metadata, metadata_size)) => found == Ok::<
                    (DiskMetadata, usize),
                    DiskOpenError,
                >((metadata, metadata_size as usize)),
                Err(e) => found == Err::<(DiskMetadata, usize), DiskOpenError>(e),
            },
    {
        // Read metadata size
        let metadata_size_bytes = match cursor.consume(U64_SIZE) {
            Ok(bytes) => bytes,
            Err(e) => {
                return Err(DiskOpenError::Header(e));
            },
        };
        let metadata_size = vstd::bytes::u64_from_le_bytes(metadata_size_bytes);
        if metadata_size > (cursor.len - cursor.position) as u64 {
            return Err(DiskOpenError::Header(CursorError::InvalidRange));
        }
        // Read metadata
        let metadata_bytes = match cursor.consume(metadata_size as usize) {
            Ok(bytes) => bytes,
            Err(e) => {
                return Err(DiskOpenError::Header(e));
            },
        };

        match DiskMetadata::from_bytes(metadata_bytes) {
            Ok(metadata) => Ok((metadata, metadata_size as usize)),
            Err(e) => Err(DiskOpenError::Metadata(e)),
        }
    }
}

impl Disk {
    /// The identifier that the handle was opened with.
    pub fn id(&self) -> (id: Uuid)
        ensures
            id == self@.id,
    {
        self.id
    }

    /// The length of the file in bytes.
    pub fn capacity(&self) -> (capacity: u64)
        ensures
            capacity == self@.capacity,
    {
        self.capacity
    }

    /// The number of items the caller means to store.
    pub fn max_items(&self) -> (max_items: u64)
        ensures
            max_items == self@.max_items,
    {
        self.max_items
    }

    /// Where the file is.
    pub fn path(&self) -> (path: &PathBuf)
        ensures
            *path == self@.path,
    {
        &self.path
    }

    /// The number of writes that no flush has settled yet.
    pub fn busy(&self) -> (busy: usize)
        ensures
            busy == self@.busy,
    {
        self.busy
    }

    /// The metadata of the file.
    pub fn metadata(&self) -> (metadata: &DiskMetadata)
        ensures
            *metadata == self@.metadata,
    {
        &self.metadata
    }

    /// The length of the metadata record in the header.
    pub fn metadata_size(&self) -> (metadata_size: u64)
        ensures
            metadata_size == self@.metadata_size,
    {
        self.metadata_size
    }

    /// The first byte that no reservation has taken.
    pub fn curr_writing_offset(&self) -> (offset: usize)
        ensures
            offset == self@.write_offset,
            self@.data_start() <= offset,
    {
        proof {
            use_type_invariant(self);
        }
        self.write_offset
    }

    /// Check if the log is locked
    pub fn is_locked(&self) -> (locked: bool)
        ensures
            locked == self@.locked,
    {
        self.locked
    }

    /// A cursor over the whole file that stands at the start of the data
    /// region and goes back there on reset.
    pub fn get_cursor(&self) -> (cursor: Cursor<'_>)
        ensures
            self@.wf(),
            cursor.wf(),
            cursor.source() == self@.bytes,
            cursor.position == self@.data_start(),
            cursor.starting_pos == Some(cursor.position),
            cursor.last_consumed_size == 0,
    {
        proof {
            use_type_invariant(self);
        }
        let data_start = COMMIT_LOG_INITIAL_HEADER_SIZE + self.metadata_size as usize;
        Cursor::mmap_mut(&self.mmap).set_starting_pos(data_start)
    }

    /// Gives up the handle and returns the mapped region, as it is.
    pub fn into_mmap(self) -> (mmap: MmapMut)
        ensures
            self@.wf(),
            mmap_mut_bytes(&mmap) == self@.bytes,
    {
        proof {
            use_type_invariant(&self);
        }
        self.mmap
    }

    /// Set the lock state (true for locked, false for unlocked), in the
    /// handle and in the file, and synchronise the file. Both are set even
    /// where the synchronisation fails.
    pub fn set_locked(&mut self, locked: bool) -> (done: Result<(), DiskError>)
        ensures
            final(self)@ == old(self)@.relocked(locked),
            final(self)@.wf(),
            old(self)@.header_matches() ==> final(self)@.header_matches(),
            done is Err ==> done == Err::<(), DiskError>(DiskError::InvalidFlushing),
    {
        proof {
            use_type_invariant(&*self);
            lemma_relock(self@, locked);
        }
        // Update the in-memory flag
        self.locked = locked;

        // Update the mmap to reflect the lock state
        let lock_flag = if locked {
            1u8
        } else {
            0u8
        };
        let region = mmap_mut_slice_mut(&mut self.mmap);
        region[LOCKED_FLAG_AT] = lock_flag;

        // Flush the mmap to persist changes
        Self::settled(mmap_mut_flush(&self.mmap))
    }

    /// Takes the next `size` bytes of the data region for the caller.
    ///
    /// On a locked disk nothing is taken. Otherwise the range
    /// `[offset, offset + size)` is taken for good, and its offset is
    /// returned if the range ends within the capacity.
    pub fn reserve_space(&mut self, size: usize) -> (granted: Result<usize, DiskError>)
        ensures
            granted == old(self)@.grant(size),
            final(self)@ == old(self)@.reserved(size),
            final(self)@.wf(),
            final(self)@.write_offset >= old(self)@.write_offset,
            granted is Ok ==> {
                &&& old(self)@.data_start() <= granted->Ok_0
                &&& granted->Ok_0 + size == final(self)@.write_offset
                &&& final(self)@.write_offset <= final(self)@.capacity
            },
    {
        proof {
            use_type_invariant(&*self);
            lemma_reserve(self@, size);
        }
        // Check if the log is locked before proceeding
        if self.is_locked() {
            return Err(DiskError::Locked);
        }
        // Reserve space
        let offset = self.write_offset;
        self.write_offset = offset.saturating_add(size);

        match offset.checked_add(size) {
            Some(end) => {
                if end as u64 > self.capacity {
                    Err(DiskError::CapacityReached)
                } else {
                    Ok(offset)
                }
            },
            None => Err(DiskError::CapacityReached),
        }
    }

    /// Copies `data` into the file, from `start_at` on, and counts one more
    /// write that waits for its flush. On a locked disk nothing is done.
    ///
    /// The range is the caller's to name; it lies within the file. A range
    /// that [`Disk::reserve_space`] granted does.
    pub fn write(&mut self, data: &[u8], start_at: usize) -> (done: Result<(), DiskError>)
        requires
            start_at + data@.len() <= old(self)@.capacity,
        ensures
            done == old(self)@.write_outcome(),
            final(self)@ == old(self)@.written(data@, start_at),
            final(self)@.wf(),
            old(self)@.header_matches() && old(self)@.data_start() <= start_at
                ==> final(self)@.header_matches(),
    {
        proof {
            use_type_invariant(&*self);
            lemma_write(self@, data@, start_at);
        }
        // Check if the log is locked before proceeding
        if self.is_locked() {
            return Err(DiskError::Locked);
        }
        // Indicate the log is busy by incrementing the counter
        self.busy = self.busy.wrapping_add(1);

        let region = mmap_mut_slice_mut(&mut self.mmap);
        store(region, start_at, data);

        Ok(())
    }

    /// Counts one write as settled and synchronises the file.
    pub fn flush(&mut self) -> (done: Result<(), DiskError>)
        ensures
            final(self)@ == old(self)@.flushed(),
            final(self)@.wf(),
            final(self)@.header_matches() == old(self)@.header_matches(),
            done is Err ==> done == Err::<(), DiskError>(DiskError::InvalidFlushing),
    {
        proof {
            use_type_invariant(&*self);
        }
        // Mark the log as no longer busy
        self.busy = self.busy.wrapping_sub(1);
        Self::settled(mmap_mut_flush(&self.mmap))
    }
}

/// A reservation that is granted lies within the capacity, starts where the
/// frontier stood and moves the frontier to its end; a reservation on an
/// unlocked disk moves the frontier whether it is granted or not, and no
/// reservation moves it back.
pub proof fn lemma_reserve(disk: DiskView, size: usize)
    requires
        disk.wf(),
    ensures
        disk.reserved(size).wf(),
        disk.reserved(size).write_offset >= disk.write_offset,
        disk.reserved(size).header_matches() == disk.header_matches(),
        disk.grant(size) is Ok ==> {
            &&& disk.grant(size)->Ok_0 == disk.write_offset
            &&& disk.reserved(size).write_offset == disk.write_offset + size
            &&& disk.write_offset + size <= disk.capacity
            &&& disk.data_start() <= disk.write_offset
        },
        !disk.locked && disk.write_offset + size <= usize::MAX ==> disk.reserved(
            size,
        ).write_offset == disk.write_offset + size,
{
}

/// Setting the lock changes the locked flag and nothing else that is read
/// from the header.
pub proof fn lemma_relock(disk: DiskView, locked: bool)
    requires
        disk.wf(),
    ensures
        disk.relocked(locked).wf(),
        disk.relocked(locked).locked == locked,
        disk.header_matches() ==> disk.relocked(locked).header_matches(),
{
    if disk.header_matches() {
        lemma_stored_record_stable(disk.bytes, disk.relocked(locked).bytes);
    }
}

/// A write leaves the length of the file as it is, and a write into the
/// data region leaves the header as it is.
pub proof fn lemma_write(disk: DiskView, data: Seq<u8>, start_at: usize)
    requires
        disk.wf(),
        start_at + data.len() <= disk.capacity,
    ensures
        disk.written(data, start_at).wf(),
        disk.header_matches() && disk.data_start() <= start_at ==> disk.written(
            data,
            start_at,
        ).header_matches(),
        !disk.locked ==> disk.written(data, start_at).bytes.subrange(
            start_at as int,
            start_at + data.len(),
        ) == data,
        forall|i: int|
            0 <= i < start_at || start_at + data.len() <= i < disk.capacity ==> disk.written(
                data,
                start_at,
            ).bytes[i] == disk.bytes[i],
{
    let after = disk.written(data, start_at);
    if !disk.locked {
        assert(after.bytes.subrange(start_at as int, start_at + data.len()) =~= data);
    }
    if disk.header_matches() && disk.data_start() <= start_at {
        lemma_stored_record_stable(disk.bytes, after.bytes);
    }
}

} // verus!
