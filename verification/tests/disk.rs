use memmap2::MmapMut;
use std::path::PathBuf;
use std::time::{Duration, SystemTime, UNIX_EPOCH};
use storage::cursor::CursorError;
use storage::disk::{Disk, DiskConf};
use storage::disk_metadata::{DiskMetadata, DiskMetadataError, DiskMetadataV1};
use storage::layout::{DiskOpenError, COMMIT_LOG_INITIAL_HEADER_SIZE, FRESH_HEADER_SIZE};
use storage::DiskError;
use uuid::Uuid;

fn conf(capacity: u64) -> DiskConf {
    DiskConf { capacity, max_items: 1, disk_file_path: PathBuf::from("./test_cases/file_x.bin") }
}

fn at(secs: u64) -> SystemTime {
    UNIX_EPOCH + Duration::from_secs(secs)
}

fn region(bytes: &[u8]) -> MmapMut {
    let mut map = MmapMut::map_anon(bytes.len()).unwrap();
    map.copy_from_slice(bytes);
    map
}

fn open_at(capacity: u64, secs: u64) -> Disk {
    let map = MmapMut::map_anon(capacity as usize).unwrap();
    Disk::open(conf(capacity), map, Uuid::from_u128(1), at(secs)).unwrap()
}

fn get_disk(capacity: Option<u64>) -> Disk {
    let capacity = capacity.unwrap_or(1024);
    let map = MmapMut::map_anon(capacity as usize).unwrap();
    Disk::new(conf(capacity), map).unwrap()
}

fn contents(disk: &Disk) -> Vec<u8> {
    let cursor = disk.get_cursor();
    cursor.get_range(0..cursor.len).to_vec()
}

#[test]
fn test_disk_creation() {
    let map = MmapMut::map_anon(1024).unwrap();
    let disk = Disk::new(conf(1024), map).unwrap();
    assert_eq!(disk.is_locked(), false);
    // COMMIT_LOG_INITIAL_HEADER_SIZE + 9 (9 = metadata size)
    assert_eq!(disk.curr_writing_offset(), 19);
    assert!(disk.metadata().is_v1());
    let created_at = disk.metadata().as_v1().unwrap().created_at;
    let disk_2 = Disk::open(
        conf(1024),
        disk.into_mmap(),
        Uuid::new_v4(),
        SystemTime::now() + Duration::from_secs(2),
    )
    .unwrap();
    assert_eq!(disk_2.metadata().as_v1().unwrap().created_at, created_at);
}

#[test]
fn test_concurrency_commit_log() {
    let mut log = get_disk(None);
    let mut ranges = Vec::new();
    for i in 0..100 {
        let entry = format!("{}", i);
        let data = entry.as_bytes();
        let offset = log.reserve_space(data.len()).unwrap();
        log.write(data, offset).unwrap();
        ranges.push((offset, data.len()));
    }

    log.flush().unwrap();
    println!("All threads have finished writing.");
    let capacity = log.capacity();
    let max_items = log.max_items();
    let path = log.path().clone();
    let log = Disk::new(
        DiskConf { capacity, max_items, disk_file_path: path },
        log.into_mmap(),
    )
    .unwrap();

    let bytes = contents(&log);
    assert_eq!(ranges.len(), 100);
    let mut next = 19;
    for (i, (offset, len)) in ranges.iter().enumerate() {
        assert_eq!(*offset, next);
        assert_eq!(&bytes[*offset..*offset + *len], format!("{}", i).as_bytes());
        next = offset + len;
    }
    // 10 entries of one digit, 90 of two
    assert_eq!(next, 19 + 10 + 180);
    assert_eq!(log.curr_writing_offset(), 19);
}

#[test]
fn test_basic_locking_behavior() {
    let mut log = get_disk(None);

    // Write to the log while unlocked
    let entry = vec![1, 2, 3, 4];
    let entry_offset = log.reserve_space(entry.len()).unwrap();
    let write = log.write(&entry, entry_offset);
    assert!(write.is_ok());

    // Lock the log
    log.set_locked(true).unwrap();

    // Attempt to write while locked
    let entry = vec![5, 6, 7, 8];
    let entry_space = log.reserve_space(entry.len());
    assert!(matches!(entry_space, Err(DiskError::Locked)));

    // Unlock the log
    log.set_locked(false).unwrap();

    // Write to the log after unlocking
    let entry_data = vec![9, 10, 11, 12];
    let entry_space = log.reserve_space(entry_data.len()).unwrap();
    assert!(log.write(&entry, entry_space).is_ok());
}

#[test]
fn test_concurrent_writes_respect_lock() {
    let mut disk = get_disk(None);

    // Lock the log before the writers start
    disk.set_locked(true).unwrap();

    let data: Vec<u8> = vec![1, 2, 3, 4];
    let result1 = match disk.reserve_space(data.len()) {
        Ok(offset) => disk.write(&data, offset),
        Err(e) => Err(e),
    };
    let data: Vec<u8> = vec![5, 6, 7, 8];
    let result2 = match disk.reserve_space(data.len()) {
        Ok(offset) => disk.write(&data, offset),
        Err(e) => Err(e),
    };

    assert_eq!(result1, Err(DiskError::Locked));
    assert!(matches!(result2, Err(DiskError::Locked)));

    // Unlock the log and retry
    disk.set_locked(false).unwrap();
    let entry = vec![9, 10, 11, 12];
    let reserve_space = disk.reserve_space(entry.len()).unwrap();
    assert!(disk.write(&entry, reserve_space).is_ok());
}

fn write_with_space_limit(sizes: [usize; 2]) -> [Result<(), DiskError>; 2] {
    let mut commit_log = get_disk(Some(28));
    let payload = [1u8, 2, 3, 4, 5, 6, 7, 8];
    let spaces = [commit_log.reserve_space(sizes[0]), commit_log.reserve_space(sizes[1])];
    let mut results = [Ok(()), Ok(())];
    for i in 0..2 {
        results[i] = match spaces[i].clone() {
            Ok(offset) => commit_log.write(&payload[..sizes[i]], offset),
            Err(e) => Err(e),
        };
    }
    results
}

#[test]
fn test_commit_log_concurrent_write_with_space_limit() {
    for sizes in [[4usize, 8], [8, 4]] {
        let [result1, result2] = write_with_space_limit(sizes);

        // Verify one succeeded and one failed due to space limitations
        let success_count = [&result1, &result2].iter().filter(|result| result.is_ok()).count();

        let failure_count = [&result1, &result2]
            .iter()
            .filter(|result| matches!(result, Err(DiskError::CapacityReached)))
            .count();

        assert_eq!(success_count, 1, "Exactly one thread should succeed");
        assert_eq!(failure_count, 1, "Exactly one thread should fail due to out of space");
        assert!(result1.is_ok());
    }
}

#[test]
fn test_busy_with_multiple_threads() {
    let mut commit_log = get_disk(None);

    let first = commit_log.reserve_space(3).unwrap();
    commit_log.write(&[1, 2, 3], first).unwrap();
    let second = commit_log.reserve_space(3).unwrap();
    commit_log.write(&[4, 5, 6], second).unwrap();

    // Both writes wait for their flush, so the counter should be 2
    assert_eq!(commit_log.busy(), 2);

    // After both are flushed, the counter should return to 0
    commit_log.flush().unwrap();
    assert_eq!(commit_log.busy(), 1);
    commit_log.flush().unwrap();
    assert_eq!(commit_log.busy(), 0);
}

#[test]
fn header_size_is_ten() {
    assert_eq!(COMMIT_LOG_INITIAL_HEADER_SIZE, 10);
    assert_eq!(FRESH_HEADER_SIZE, 19);
}

#[test]
fn fresh_region_gets_a_header() {
    let disk = open_at(64, 0x0102_0304);
    let bytes = contents(&disk);
    assert_eq!(bytes.len(), 64);
    assert_eq!(
        &bytes[..19],
        &[1u8, 0, 9, 0, 0, 0, 0, 0, 0, 0, 0, 0x04, 0x03, 0x02, 0x01, 0, 0, 0, 0]
    );
    assert!(bytes[19..].iter().all(|b| *b == 0));
    assert_eq!(*disk.metadata(), DiskMetadata::V1(DiskMetadataV1 { created_at: 0x0102_0304 }));
    assert_eq!(disk.metadata_size(), 9);
    assert_eq!(disk.curr_writing_offset(), 19);
    assert_eq!(disk.busy(), 0);
    assert!(!disk.is_locked());
}

#[test]
fn open_keeps_what_it_was_given() {
    let map = MmapMut::map_anon(100).unwrap();
    let id = Uuid::from_u128(0xfeed);
    let opts = DiskConf {
        capacity: 100,
        max_items: 7,
        disk_file_path: PathBuf::from("/var/log/commit.bin"),
    };
    let disk = Disk::open(opts.clone(), map, id, at(5)).unwrap();
    assert_eq!(disk.id(), id);
    assert_eq!(disk.capacity(), 100);
    assert_eq!(disk.max_items(), 7);
    assert_eq!(disk.path(), &PathBuf::from("/var/log/commit.bin"));
    assert_eq!(opts.capacity, 100);
    assert_eq!(opts.max_items, 7);
    assert_eq!(opts.disk_file_path, PathBuf::from("/var/log/commit.bin"));
}

#[test]
fn fresh_region_keeps_its_data_bytes() {
    let mut bytes = vec![0u8; 32];
    for (i, b) in bytes.iter_mut().enumerate().skip(1) {
        *b = 100 + i as u8;
    }
    let disk = Disk::open(conf(32), region(&bytes), Uuid::from_u128(1), at(3)).unwrap();
    let after = contents(&disk);
    assert_eq!(&after[..19], &[1u8, 0, 9, 0, 0, 0, 0, 0, 0, 0, 0, 3, 0, 0, 0, 0, 0, 0, 0]);
    assert_eq!(&after[19..], &bytes[19..]);
    assert!(!disk.is_locked());
}

#[test]
fn region_with_another_first_byte_is_fresh() {
    let mut bytes = vec![0u8; 32];
    bytes[0] = 2;
    bytes[1] = 1;
    let disk = Disk::open(conf(32), region(&bytes), Uuid::from_u128(1), at(8)).unwrap();
    assert!(!disk.is_locked());
    assert_eq!(disk.metadata().as_v1().unwrap().created_at, 8);
    assert_eq!(&contents(&disk)[..11], &[1u8, 0, 9, 0, 0, 0, 0, 0, 0, 0, 0]);
}

#[test]
fn initialized_region_is_read_not_written() {
    let mut bytes = vec![0u8; 40];
    bytes[..19].copy_from_slice(&[1, 1, 9, 0, 0, 0, 0, 0, 0, 0, 0, 0x39, 0x05, 0, 0, 0, 0, 0, 0]);
    bytes[25] = 77;
    let disk = Disk::open(conf(40), region(&bytes), Uuid::from_u128(1), at(999)).unwrap();
    assert!(disk.is_locked());
    assert_eq!(*disk.metadata(), DiskMetadata::V1(DiskMetadataV1 { created_at: 1337 }));
    assert_eq!(disk.metadata_size(), 9);
    assert_eq!(disk.curr_writing_offset(), 19);
    assert_eq!(contents(&disk), bytes);
}

#[test]
fn longer_stored_record_moves_the_data_start() {
    let mut bytes = vec![0u8; 40];
    bytes[..12].copy_from_slice(&[1, 0, 12, 0, 0, 0, 0, 0, 0, 0, 0, 5]);
    let disk = Disk::open(conf(40), region(&bytes), Uuid::from_u128(1), at(999)).unwrap();
    assert_eq!(disk.metadata().as_v1().unwrap().created_at, 5);
    assert_eq!(disk.metadata_size(), 12);
    assert_eq!(disk.curr_writing_offset(), 22);
    assert_eq!(disk.get_cursor().position, 22);
}

#[test]
fn initialized_region_needs_no_clock() {
    let mut bytes = vec![0u8; 19];
    bytes[..11].copy_from_slice(&[1, 0, 9, 0, 0, 0, 0, 0, 0, 0, 0]);
    let before_epoch = UNIX_EPOCH - Duration::from_secs(10);
    let disk = Disk::open(conf(19), region(&bytes), Uuid::from_u128(1), before_epoch).unwrap();
    assert_eq!(disk.metadata().as_v1().unwrap().created_at, 0);
    assert_eq!(disk.curr_writing_offset(), 19);
}

#[test]
fn open_refuses_a_region_of_another_length() {
    let map = MmapMut::map_anon(64).unwrap();
    let outcome = Disk::open(conf(65), map, Uuid::from_u128(1), at(1));
    assert_eq!(outcome.unwrap_err(), DiskOpenError::CapacityMismatch);
    let map = MmapMut::map_anon(64).unwrap();
    assert_eq!(Disk::new(conf(63), map).unwrap_err(), DiskOpenError::CapacityMismatch);
}

#[test]
fn open_refuses_a_region_too_short_for_its_flags() {
    let outcome = Disk::open(conf(1), region(&[0]), Uuid::from_u128(1), at(1));
    assert_eq!(outcome.unwrap_err(), DiskOpenError::Header(CursorError::InvalidRange));
    let outcome = Disk::open(conf(1), region(&[1]), Uuid::from_u128(1), at(1));
    assert_eq!(outcome.unwrap_err(), DiskOpenError::Header(CursorError::InvalidRange));
}

#[test]
fn open_refuses_a_fresh_region_too_short_for_a_header() {
    let outcome = Disk::open(conf(18), region(&[0; 18]), Uuid::from_u128(1), at(1));
    assert_eq!(outcome.unwrap_err(), DiskOpenError::Header(CursorError::InvalidRange));
    let disk = Disk::open(conf(19), region(&[0; 19]), Uuid::from_u128(1), at(1)).unwrap();
    assert_eq!(disk.curr_writing_offset(), 19);
}

#[test]
fn open_refuses_a_clock_before_the_epoch() {
    let before_epoch = UNIX_EPOCH - Duration::from_secs(1);
    let outcome = Disk::open(conf(64), region(&[0; 64]), Uuid::from_u128(1), before_epoch);
    assert_eq!(outcome.unwrap_err(), DiskOpenError::ClockBeforeEpoch);
    let outcome = Disk::open(conf(19), region(&[0; 19]), Uuid::from_u128(1), before_epoch);
    assert_eq!(outcome.unwrap_err(), DiskOpenError::ClockBeforeEpoch);
    let outcome = Disk::open(conf(18), region(&[0; 18]), Uuid::from_u128(1), before_epoch);
    assert_eq!(outcome.unwrap_err(), DiskOpenError::Header(CursorError::InvalidRange));
}

#[test]
fn open_refuses_a_truncated_header() {
    let outcome = Disk::open(conf(6), region(&[1, 0, 9, 0, 0, 0]), Uuid::from_u128(1), at(1));
    assert_eq!(outcome.unwrap_err(), DiskOpenError::Header(CursorError::InvalidRange));
}

#[test]
fn open_refuses_a_record_longer_than_the_region() {
    let mut bytes = vec![0u8; 19];
    bytes[..3].copy_from_slice(&[1, 0, 10]);
    let outcome = Disk::open(conf(19), region(&bytes), Uuid::from_u128(1), at(1));
    assert_eq!(outcome.unwrap_err(), DiskOpenError::Header(CursorError::InvalidRange));
    bytes[2..10].copy_from_slice(&[255; 8]);
    let outcome = Disk::open(conf(19), region(&bytes), Uuid::from_u128(1), at(1));
    assert_eq!(outcome.unwrap_err(), DiskOpenError::Header(CursorError::InvalidRange));
}

#[test]
fn open_refuses_an_unknown_record() {
    let mut bytes = vec![0u8; 32];
    bytes[..11].copy_from_slice(&[1, 0, 9, 0, 0, 0, 0, 0, 0, 0, 3]);
    let outcome = Disk::open(conf(32), region(&bytes), Uuid::from_u128(1), at(1));
    assert_eq!(
        outcome.unwrap_err(),
        DiskOpenError::Metadata(DiskMetadataError::UnknownVersion(3))
    );
}

#[test]
fn open_refuses_a_record_cut_short() {
    let mut bytes = vec![0u8; 32];
    bytes[..3].copy_from_slice(&[1, 0, 4]);
    let outcome = Disk::open(conf(32), region(&bytes), Uuid::from_u128(1), at(1));
    assert_eq!(
        outcome.unwrap_err(),
        DiskOpenError::Metadata(DiskMetadataError::Truncated(CursorError::InvalidRange))
    );
    bytes[2] = 0;
    let outcome = Disk::open(conf(32), region(&bytes), Uuid::from_u128(1), at(1));
    assert_eq!(
        outcome.unwrap_err(),
        DiskOpenError::Metadata(DiskMetadataError::Truncated(CursorError::InvalidRange))
    );
}

#[test]
fn new_stamps_with_the_clock() {
    let before = SystemTime::now().duration_since(UNIX_EPOCH).unwrap().as_secs();
    let disk = get_disk(None);
    let after = SystemTime::now().duration_since(UNIX_EPOCH).unwrap().as_secs();
    let created_at = disk.metadata().as_v1().unwrap().created_at;
    assert!(before <= created_at && created_at <= after);
    assert_ne!(disk.id(), get_disk(None).id());
}

#[test]
fn read_existing_metadata_reads_from_the_position() {
    let bytes = [7u8, 7, 7, 9, 0, 0, 0, 0, 0, 0, 0, 0, 42, 0, 0, 0, 0, 0, 0, 0, 7];
    let mut cursor = storage::cursor::Cursor::new(&bytes).set_starting_pos(3);
    let found = Disk::read_existing_metadata(&mut cursor);
    assert_eq!(found, Ok((DiskMetadata::V1(DiskMetadataV1 { created_at: 42 }), 9)));
    assert_eq!(cursor.position, 20);
    assert_eq!(cursor.last_consumed_size, 9);
    let mut cursor = storage::cursor::Cursor::new(&bytes);
    let found = Disk::read_existing_metadata(&mut cursor);
    assert_eq!(found, Err(DiskOpenError::Header(CursorError::InvalidRange)));
    assert_eq!(cursor.position, 8);
    assert_eq!(cursor.last_consumed_size, 8);
    let mut cursor = storage::cursor::Cursor::new(&bytes).set_starting_pos(14);
    let found = Disk::read_existing_metadata(&mut cursor);
    assert_eq!(found, Err(DiskOpenError::Header(CursorError::InvalidRange)));
    assert_eq!(cursor.position, 14);
    assert_eq!(cursor.last_consumed_size, 0);
    let unknown = [1u8, 0, 0, 0, 0, 0, 0, 0, 200, 5];
    let mut cursor = storage::cursor::Cursor::new(&unknown);
    let found = Disk::read_existing_metadata(&mut cursor);
    assert_eq!(found, Err(DiskOpenError::Metadata(DiskMetadataError::UnknownVersion(200))));
    assert_eq!(cursor.position, 9);
    assert_eq!(cursor.last_consumed_size, 1);
}

#[test]
fn reservations_tile_the_data_region() {
    let mut disk = open_at(1024, 1);
    let sizes = [5usize, 0, 17, 1, 100, 3];
    let mut next = 19;
    for size in sizes {
        assert_eq!(disk.curr_writing_offset(), next);
        assert_eq!(disk.reserve_space(size), Ok(next));
        next += size;
    }
    assert_eq!(next, 19 + 126);
    assert_eq!(disk.curr_writing_offset(), 19 + 126);
}

#[test]
fn reservation_up_to_the_capacity_is_granted() {
    let mut disk = open_at(28, 1);
    assert_eq!(disk.reserve_space(9), Ok(19));
    assert_eq!(disk.curr_writing_offset(), 28);
    assert_eq!(disk.reserve_space(0), Ok(28));
    assert_eq!(disk.reserve_space(1), Err(DiskError::CapacityReached));
}

#[test]
fn reservation_one_past_the_capacity_is_refused_and_counted() {
    let mut disk = open_at(28, 1);
    assert_eq!(disk.reserve_space(10), Err(DiskError::CapacityReached));
    assert_eq!(disk.curr_writing_offset(), 29);
    assert_eq!(disk.reserve_space(0), Err(DiskError::CapacityReached));
    assert_eq!(disk.reserve_space(1), Err(DiskError::CapacityReached));
    assert_eq!(disk.curr_writing_offset(), 30);
}

#[test]
fn refused_reservation_is_not_handed_out_again() {
    let mut disk = open_at(40, 1);
    assert_eq!(disk.reserve_space(30), Err(DiskError::CapacityReached));
    assert_eq!(disk.reserve_space(1), Err(DiskError::CapacityReached));
    assert_eq!(disk.curr_writing_offset(), 50);
}

#[test]
fn frontier_stops_at_the_largest_offset() {
    let mut disk = open_at(40, 1);
    assert_eq!(disk.reserve_space(usize::MAX), Err(DiskError::CapacityReached));
    assert_eq!(disk.curr_writing_offset(), usize::MAX);
    assert_eq!(disk.reserve_space(5), Err(DiskError::CapacityReached));
    assert_eq!(disk.reserve_space(0), Err(DiskError::CapacityReached));
    assert_eq!(disk.curr_writing_offset(), usize::MAX);
}

#[test]
fn locked_disk_takes_no_reservation() {
    let mut disk = open_at(64, 1);
    disk.set_locked(true).unwrap();
    assert!(disk.is_locked());
    assert_eq!(disk.reserve_space(4), Err(DiskError::Locked));
    assert_eq!(disk.reserve_space(1000), Err(DiskError::Locked));
    assert_eq!(disk.curr_writing_offset(), 19);
    disk.set_locked(false).unwrap();
    assert!(!disk.is_locked());
    assert_eq!(disk.reserve_space(4), Ok(19));
}

#[test]
fn lock_is_kept_in_the_file() {
    let mut disk = open_at(64, 1);
    disk.set_locked(true).unwrap();
    assert_eq!(contents(&disk)[1], 1);
    let mut disk = Disk::open(conf(64), disk.into_mmap(), Uuid::from_u128(2), at(50)).unwrap();
    assert!(disk.is_locked());
    assert_eq!(disk.metadata().as_v1().unwrap().created_at, 1);
    assert_eq!(disk.reserve_space(1), Err(DiskError::Locked));
    disk.set_locked(false).unwrap();
    assert_eq!(contents(&disk)[1], 0);
    let disk = Disk::open(conf(64), disk.into_mmap(), Uuid::from_u128(3), at(60)).unwrap();
    assert!(!disk.is_locked());
}

#[test]
fn write_puts_the_bytes_in_place() {
    let mut disk = open_at(64, 1);
    let before = contents(&disk);
    let offset = disk.reserve_space(4).unwrap();
    assert_eq!(disk.write(&[9, 8, 7, 6], offset), Ok(()));
    let after = contents(&disk);
    assert_eq!(&after[19..23], &[9u8, 8, 7, 6]);
    assert_eq!(&after[..19], &before[..19]);
    assert_eq!(&after[23..], &before[23..]);
    assert_eq!(disk.busy(), 1);
    let mut cursor = disk.get_cursor();
    assert_eq!(cursor.position, 19);
    assert_eq!(cursor.consume(4).unwrap(), &[9u8, 8, 7, 6]);
    cursor.reset();
    assert_eq!(cursor.position, 19);
}

#[test]
fn write_of_nothing_counts_too() {
    let mut disk = open_at(64, 1);
    let before = contents(&disk);
    assert_eq!(disk.write(&[], 64), Ok(()));
    assert_eq!(contents(&disk), before);
    assert_eq!(disk.busy(), 1);
}

#[test]
fn write_up_to_the_last_byte() {
    let mut disk = open_at(32, 1);
    let offset = disk.reserve_space(13).unwrap();
    assert_eq!(offset, 19);
    let data = [1u8, 2, 3, 4, 5, 6, 7, 8, 9, 10, 11, 12, 13];
    assert_eq!(disk.write(&data, offset), Ok(()));
    assert_eq!(&contents(&disk)[19..32], &data);
}

#[test]
fn write_on_a_locked_disk_does_nothing() {
    let mut disk = open_at(64, 1);
    let offset = disk.reserve_space(2).unwrap();
    disk.set_locked(true).unwrap();
    let before = contents(&disk);
    assert_eq!(disk.write(&[5, 5], offset), Err(DiskError::Locked));
    assert_eq!(contents(&disk), before);
    assert_eq!(disk.busy(), 0);
    disk.set_locked(false).unwrap();
    assert_eq!(disk.write(&[5, 5], offset), Ok(()));
    assert_eq!(&contents(&disk)[19..21], &[5u8, 5]);
}

#[test]
fn flush_takes_one_from_the_count() {
    let mut disk = open_at(64, 1);
    for i in 0..3u8 {
        let offset = disk.reserve_space(1).unwrap();
        disk.write(&[i], offset).unwrap();
    }
    assert_eq!(disk.busy(), 3);
    assert_eq!(disk.flush(), Ok(()));
    assert_eq!(disk.busy(), 2);
}

#[test]
fn flush_without_a_write_wraps_the_count() {
    let mut disk = open_at(64, 1);
    assert_eq!(disk.flush(), Ok(()));
    assert_eq!(disk.busy(), usize::MAX);
    disk.write(&[1], 19).unwrap();
    assert_eq!(disk.busy(), 0);
}

#[test]
fn failed_synchronisation_is_invalid_flushing() {
    assert_eq!(Disk::settled(Ok(())), Ok(()));
    let failure = std::io::Error::new(std::io::ErrorKind::Other, "no sync");
    assert_eq!(Disk::settled(Err(failure)), Err(DiskError::InvalidFlushing));
}

#[test]
fn writes_survive_reopening() {
    let mut disk = open_at(128, 4242);
    let mut ranges = Vec::new();
    for i in 0..10u8 {
        let data = vec![i + 1; (i as usize % 3) + 1];
        let offset = disk.reserve_space(data.len()).unwrap();
        disk.write(&data, offset).unwrap();
        disk.flush().unwrap();
        ranges.push((offset, data));
    }
    assert_eq!(disk.busy(), 0);
    let disk = Disk::open(conf(128), disk.into_mmap(), Uuid::from_u128(9), at(5000)).unwrap();
    assert_eq!(disk.metadata().as_v1().unwrap().created_at, 4242);
    assert_eq!(disk.curr_writing_offset(), 19);
    assert_eq!(disk.id(), Uuid::from_u128(9));
    let bytes = contents(&disk);
    for (i, (offset, data)) in ranges.iter().enumerate() {
        assert_eq!(&bytes[*offset..*offset + data.len()], &data[..]);
        if i > 0 {
            assert_eq!(ranges[i - 1].0 + ranges[i - 1].1.len(), *offset);
        }
    }
}

#[test]
fn conf_clone_is_equal() {
    let opts = conf(77);
    let copy = opts.clone();
    assert_eq!(copy.capacity, 77);
    assert_eq!(copy.max_items, 1);
    assert_eq!(copy.disk_file_path, opts.disk_file_path);
}

#[test]
fn disk_error_variants_differ() {
    assert_ne!(DiskError::Locked, DiskError::CapacityReached);
    assert_ne!(DiskError::Locked, DiskError::InvalidFlushing);
    assert_eq!(DiskError::CapacityReached.clone(), DiskError::CapacityReached);
}

#[test]
fn disk_error_tells_its_variant() {
    assert!(DiskError::Locked.is_locked());
    assert!(!DiskError::Locked.is_capacity_reached());
    assert!(DiskError::InvalidFlushing.is_invalid_flushing());
    assert!(!DiskError::InvalidFlushing.is_locked());
    assert!(DiskError::CapacityReached.is_capacity_reached());
    assert!(!DiskError::CapacityReached.is_invalid_flushing());
}
