//! What holds of a disk over several operations.
//!
//! The statements are about [`DiskView`], the value that the contracts of
//! [`crate::disk::Disk`] speak of. Calls on a shared handle take effect one
//! after another; a run of reservations is given here in the order in which
//! they take effect, whichever that is.
use vstd::prelude::*;
use std::time::SystemTime;
use uuid::Uuid;
use crate::disk::{lemma_reserve, DiskConf, DiskView};
use crate::disk_metadata::{lemma_decode_encoding, DiskMetadata, DiskMetadataV1};
use crate::layout::{is_initialized, lemma_initialized_image, DiskOpenError, FRESH_HEADER_SIZE};
use crate::utils::epoch_seconds;
use crate::DiskError;

verus! {

/// The sum of a run of sizes.
pub open spec fn total(sizes: Seq<usize>) -> int
    decreases sizes.len(),
{
    if sizes.len() == 0 {
        0
    } else {
        total(sizes.drop_last()) + sizes.last()
    }
}

impl DiskView {
    /// The disk after reservations of `sizes`, first to last.
    pub open spec fn reserved_all(self, sizes: Seq<usize>) -> DiskView
        decreases sizes.len(),
    {
        if sizes.len() == 0 {
            self
        } else {
            self.reserved_all(sizes.drop_last()).reserved(sizes.last())
        }
    }

    /// What the reservation numbered `i` of the run `sizes` returns.
    pub open spec fn granted_in(self, sizes: Seq<usize>, i: int) -> Result<usize, DiskError> {
        self.reserved_all(sizes.take(i)).grant(sizes[i])
    }
}

/// Taking one more size into a sum adds that size, and no sum is negative.
pub proof fn lemma_total_step(sizes: Seq<usize>, i: int)
    requires
        0 <= i < sizes.len(),
    ensures
        total(sizes.take(i + 1)) == total(sizes.take(i)) + sizes[i],
        0 <= total(sizes.take(i)),
    decreases i,
{
    assert(sizes.take(i + 1).drop_last() =~= sizes.take(i));
    if i > 0 {
        lemma_total_step(sizes, i - 1);
    }
}

/// The sum of the first `i` sizes and the size numbered `i` is at most the
/// sum of the first `j`, for `i < j`.
pub proof fn lemma_total_grows(sizes: Seq<usize>, i: int, j: int)
    requires
        0 <= i < j <= sizes.len(),
    ensures
        0 <= total(sizes.take(i)),
        total(sizes.take(i)) + sizes[i] <= total(sizes.take(j)),
    decreases j,
{
    lemma_total_step(sizes, j - 1);
    if i + 1 < j {
        lemma_total_grows(sizes, i, j - 1);
    }
}

/// A run of reservations leaves the disk well formed, does not touch the
/// lock, and never moves the frontier back.
pub proof fn lemma_reserved_all(disk: DiskView, sizes: Seq<usize>, i: int, j: int)
    requires
        disk.wf(),
        0 <= i <= j <= sizes.len(),
    ensures
        disk.reserved_all(sizes.take(j)).wf(),
        disk.reserved_all(sizes.take(j)).locked == disk.locked,
        disk.reserved_all(sizes.take(j)).capacity == disk.capacity,
        disk.reserved_all(sizes.take(i)).write_offset <= disk.reserved_all(
            sizes.take(j),
        ).write_offset,
        i < j && !disk.locked && disk.granted_in(sizes, i) is Ok ==> disk.granted_in(
            sizes,
            i,
        )->Ok_0 + sizes[i] <= disk.reserved_all(sizes.take(j)).write_offset,
    decreases j,
{
    if j > 0 {
        assert(sizes.take(j).drop_last() =~= sizes.take(j - 1));
        let before = disk.reserved_all(sizes.take(j - 1));
        if i < j {
            lemma_reserved_all(disk, sizes, i, j - 1);
        } else {
            lemma_reserved_all(disk, sizes, j - 1, j - 1);
        }
        lemma_reserve(before, sizes[j - 1]);
    }
}

/// While the sum of the sizes fits below the capacity, the frontier after
/// the first `i` reservations is the old frontier and the sum of their
/// sizes.
pub proof fn lemma_frontier(disk: DiskView, sizes: Seq<usize>, i: int)
    requires
        disk.wf(),
        !disk.locked,
        disk.write_offset + total(sizes) <= disk.capacity,
        0 <= i <= sizes.len(),
    ensures
        disk.reserved_all(sizes.take(i)).write_offset == disk.write_offset + total(sizes.take(i)),
        0 <= total(sizes.take(i)) <= total(sizes),
    decreases i,
{
    assert(sizes.take(sizes.len() as int) =~= sizes);
    if i < sizes.len() {
        lemma_total_grows(sizes, i, sizes.len() as int);
    }
    if i > 0 {
        assert(sizes.take(i).drop_last() =~= sizes.take(i - 1));
        lemma_frontier(disk, sizes, i - 1);
        lemma_reserved_all(disk, sizes, i - 1, i - 1);
        lemma_total_step(sizes, i - 1);
    }
}

/// Reservations on an unlocked disk that has room for all of them are all
/// granted, each starting where the one before it ended: the first at the
/// frontier, the frontier ending at the sum of the sizes after it. The
/// ranges tile what lies between, without a gap and without an overlap.
pub proof fn lemma_reservations_tile(disk: DiskView, sizes: Seq<usize>)
    requires
        disk.wf(),
        !disk.locked,
        disk.write_offset + total(sizes) <= disk.capacity,
    ensures
        forall|i: int|
            0 <= i < sizes.len() ==> (#[trigger] disk.granted_in(sizes, i)) is Ok
                && disk.granted_in(sizes, i)->Ok_0 == disk.write_offset + total(sizes.take(i)),
        forall|i: int|
            0 <= i < sizes.len() ==> #[trigger] total(sizes.take(i + 1)) == total(sizes.take(i))
                + sizes[i],
        total(sizes.take(0)) == 0,
        total(sizes.take(sizes.len() as int)) == total(sizes),
        disk.reserved_all(sizes).write_offset == disk.write_offset + total(sizes),
{
    assert(sizes.take(sizes.len() as int) =~= sizes);
    assert(sizes.take(0) =~= Seq::<usize>::empty());
    assert forall|i: int| 0 <= i < sizes.len() implies (#[trigger] disk.granted_in(sizes, i)) is Ok
        && disk.granted_in(sizes, i)->Ok_0 == disk.write_offset + total(sizes.take(i)) by {
        lemma_frontier(disk, sizes, i);
        lemma_frontier(disk, sizes, i + 1);
        lemma_reserved_all(disk, sizes, i, i);
        lemma_total_step(sizes, i);
    }
    assert forall|i: int| 0 <= i < sizes.len() implies #[trigger] total(sizes.take(i + 1))
        == total(sizes.take(i)) + sizes[i] by {
        lemma_total_step(sizes, i);
    }
    lemma_frontier(disk, sizes, sizes.len() as int);
}

/// No two reservations that are granted overlap, whatever the sizes and
/// however many of the run are refused: the earlier range ends at or before
/// the start of the later one.
pub proof fn lemma_reservations_disjoint(disk: DiskView, sizes: Seq<usize>, i: int, j: int)
    requires
        disk.wf(),
        0 <= i < j < sizes.len(),
        disk.granted_in(sizes, i) is Ok,
        disk.granted_in(sizes, j) is Ok,
    ensures
        disk.granted_in(sizes, i)->Ok_0 + sizes[i] <= disk.granted_in(sizes, j)->Ok_0,
        disk.granted_in(sizes, j)->Ok_0 + sizes[j] <= disk.capacity,
        disk.data_start() <= disk.granted_in(sizes, i)->Ok_0,
{
    lemma_reserved_all(disk, sizes, i, j);
    lemma_reserved_all(disk, sizes, 0, i);
    assert(sizes.take(0) =~= Seq::<usize>::empty());
}

/// A reservation that ends exactly at the capacity is granted. One that
/// ends one byte past it is refused, and the frontier moves by its size all
/// the same.
pub proof fn lemma_reserve_at_capacity(disk: DiskView, size: usize)
    requires
        disk.wf(),
        !disk.locked,
    ensures
        disk.write_offset + size == disk.capacity ==> disk.grant(size) == Ok::<usize, DiskError>(
            disk.write_offset,
        ),
        disk.write_offset + size == disk.capacity + 1 ==> disk.grant(size) == Err::<
            usize,
            DiskError,
        >(DiskError::CapacityReached),
        disk.write_offset + size == disk.capacity + 1 && disk.capacity < usize::MAX
            ==> disk.reserved(size).write_offset == disk.write_offset + size,
{
}

/// A locked disk refuses every reservation and is not changed by one. Once
/// it is unlocked again, no reservation is refused for the lock: one that
/// fits is granted.
pub proof fn lemma_lock_gates_reservations(disk: DiskView, size: usize)
    requires
        disk.wf(),
    ensures
        disk.relocked(true).grant(size) == Err::<usize, DiskError>(DiskError::Locked),
        disk.relocked(true).reserved(size) == disk.relocked(true),
        disk.relocked(true).relocked(false).grant(size) == if disk.write_offset + size
            > disk.capacity {
            Err::<usize, DiskError>(DiskError::CapacityReached)
        } else {
            Ok::<usize, DiskError>(disk.write_offset)
        },
{
}

/// Of two reservations that each fit and together do not, the one that
/// takes effect first is granted and the other is refused for want of room,
/// in either order.
pub proof fn lemma_one_of_two(disk: DiskView, first: usize, second: usize)
    requires
        disk.wf(),
        !disk.locked,
        disk.write_offset + first <= disk.capacity,
        disk.write_offset + second <= disk.capacity,
        disk.write_offset + first + second > disk.capacity,
    ensures
        disk.grant(first) == Ok::<usize, DiskError>(disk.write_offset),
        disk.reserved(first).grant(second) == Err::<usize, DiskError>(DiskError::CapacityReached),
        disk.grant(second) == Ok::<usize, DiskError>(disk.write_offset),
        disk.reserved(second).grant(first) == Err::<usize, DiskError>(DiskError::CapacityReached),
{
}

/// A region that opens gives a disk of which [`DiskView::opened_from`]
/// holds. A fresh region is stamped with the time given, and its header is
/// a record of the first version.
pub proof fn lemma_opened(conf: DiskConf, bytes: Seq<u8>, id: Uuid, now: SystemTime)
    requires
        bytes.len() <= usize::MAX,
        DiskView::opened(conf, bytes, id, now) is Ok,
    ensures
        DiskView::opened(conf, bytes, id, now)->Ok_0.opened_from(conf, bytes),
        DiskView::opened(conf, bytes, id, now)->Ok_0.id == id,
        !is_initialized(bytes) ==> {
            &&& epoch_seconds(now) is Some
            &&& DiskView::opened(conf, bytes, id, now)->Ok_0.metadata == DiskMetadata::V1(
                DiskMetadataV1 { created_at: epoch_seconds(now)->Some_0 },
            )
            &&& DiskView::opened(conf, bytes, id, now)->Ok_0.write_offset == FRESH_HEADER_SIZE
        },
{
    let disk = DiskView::opened(conf, bytes, id, now)->Ok_0;
    if !is_initialized(bytes) {
        lemma_decode_encoding(disk.metadata, Seq::empty());
        lemma_initialized_image(bytes, disk.metadata);
    }
}

/// Opening the file of a disk again gives the metadata and the state of the
/// lock that the disk has, whatever identifier and time the second opening
/// is given, and changes no byte: a header is written once.
pub proof fn lemma_reopen(disk: DiskView, conf: DiskConf, id: Uuid, now: SystemTime)
    requires
        disk.wf(),
        disk.header_matches(),
        conf.capacity == disk.capacity,
    ensures
        DiskView::opened(conf, disk.bytes, id, now) == Ok::<DiskView, DiskOpenError>(
            DiskView {
                id,
                capacity: conf.capacity,
                max_items: conf.max_items,
                path: conf.disk_file_path,
                bytes: disk.bytes,
                write_offset: disk.data_start() as usize,
                locked: disk.locked,
                busy: 0,
                metadata: disk.metadata,
                metadata_size: disk.metadata_size,
            },
        ),
{
}

} // verus!
