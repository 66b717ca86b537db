//! End-to-end behavior of the point reader over small snapshots.

use point_getter::key::Key;
use point_getter::point_getter::PointGetterBuilder;
use point_getter::snapshot::Snapshot;
use point_getter::statistics::CfStatistics;
use point_getter::types::{Error, IsolationLevel};
use point_getter::write::{Write, WriteType};

fn put_record(start_ts: u64, short_value: Option<Vec<u8>>) -> Vec<u8> {
    Write::new(WriteType::Put, start_ts, short_value).to_bytes()
}

fn delete_record(start_ts: u64) -> Vec<u8> {
    Write::new(WriteType::Delete, start_ts, None).to_bytes()
}

fn lock_record(start_ts: u64) -> Vec<u8> {
    Write::new(WriteType::Lock, start_ts, None).to_bytes()
}

fn rollback_record(start_ts: u64) -> Vec<u8> {
    Write::new(WriteType::Rollback, start_ts, None).to_bytes()
}

#[test]
fn versioned_key_round_trip() {
    let key = Key::from_bytes(b"user-key".to_vec());
    let versioned = key.append_ts(7);
    assert_eq!(versioned.ts, 7);
    assert_eq!(versioned.user_key, b"user-key".to_vec());
    let back = versioned.truncate_ts();
    assert_eq!(back.as_bytes(), key.as_bytes());
}

#[test]
fn no_write_records_not_found() {
    let snapshot = Snapshot::new();
    let mut getter = PointGetterBuilder::new(snapshot).build().unwrap();
    let key = Key::from_bytes(b"k".to_vec());
    assert_eq!(getter.read_next(&key, 0), Ok(None));
    assert_eq!(getter.read_next(&key, 100), Ok(None));
    assert_eq!(getter.read_next(&key, u64::MAX), Ok(None));
}

#[test]
fn latest_put_short_value_visible() {
    let mut snapshot = Snapshot::new();
    assert!(snapshot.put_write(b"k".to_vec(), 10, put_record(9, Some(b"v10".to_vec()))));
    let mut getter = PointGetterBuilder::new(snapshot).build().unwrap();
    let key = Key::from_bytes(b"k".to_vec());
    assert_eq!(getter.read_next(&key, 10), Ok(Some(b"v10".to_vec())));
    assert_eq!(getter.read_next(&key, 50), Ok(Some(b"v10".to_vec())));
    assert_eq!(getter.read_next(&key, 9), Ok(None));
}

#[test]
fn omit_value_returns_zero_length_marker() {
    let mut snapshot = Snapshot::new();
    assert!(snapshot.put_write(b"k".to_vec(), 10, put_record(9, Some(b"payload".to_vec()))));
    let mut getter = PointGetterBuilder::new(snapshot).omit_value(true).build().unwrap();
    let key = Key::from_bytes(b"k".to_vec());
    assert_eq!(getter.read_next(&key, 10), Ok(Some(Vec::new())));
}

#[test]
fn delete_hides_older_put() {
    let mut snapshot = Snapshot::new();
    assert!(snapshot.put_write(b"k".to_vec(), 10, delete_record(9)));
    assert!(snapshot.put_write(b"k".to_vec(), 5, put_record(4, Some(b"v5".to_vec()))));
    let mut getter = PointGetterBuilder::new(snapshot).build().unwrap();
    let key = Key::from_bytes(b"k".to_vec());
    assert_eq!(getter.read_next(&key, 10), Ok(None));
    assert_eq!(getter.read_next(&key, 5), Ok(Some(b"v5".to_vec())));
}

#[test]
fn lock_and_rollback_records_are_skipped() {
    let mut with_noise = Snapshot::new();
    assert!(with_noise.put_write(b"k".to_vec(), 20, rollback_record(20)));
    assert!(with_noise.put_write(b"k".to_vec(), 15, lock_record(15)));
    assert!(with_noise.put_write(b"k".to_vec(), 10, put_record(9, Some(b"v".to_vec()))));
    let mut getter = PointGetterBuilder::new(with_noise).build().unwrap();

    let mut plain = Snapshot::new();
    assert!(plain.put_write(b"k".to_vec(), 10, put_record(9, Some(b"v".to_vec()))));
    let mut plain_getter = PointGetterBuilder::new(plain).build().unwrap();

    let key = Key::from_bytes(b"k".to_vec());
    let noisy = getter.read_next(&key, 20);
    assert_eq!(noisy, Ok(Some(b"v".to_vec())));
    assert_eq!(noisy, plain_getter.read_next(&key, 20));
}

#[test]
fn repeated_reads_are_idempotent() {
    let mut snapshot = Snapshot::new();
    assert!(snapshot.put_write(b"k".to_vec(), 10, put_record(9, Some(b"v".to_vec()))));
    let mut getter = PointGetterBuilder::new(snapshot).build().unwrap();
    let key = Key::from_bytes(b"k".to_vec());
    let first = getter.read_next(&key, 10);
    let second = getter.read_next(&key, 10);
    assert_eq!(first, second);
    assert_eq!(first, Ok(Some(b"v".to_vec())));
}

#[test]
fn single_use_reader_serves_one_call() {
    let mut snapshot = Snapshot::new();
    assert!(snapshot.put_write(b"k".to_vec(), 10, put_record(9, Some(b"v".to_vec()))));
    let mut getter = PointGetterBuilder::new(snapshot).multi(false).build().unwrap();
    let key = Key::from_bytes(b"k".to_vec());
    assert_eq!(getter.read_next(&key, 10), Ok(Some(b"v".to_vec())));
}

#[test]
fn conflicting_lock_fails_under_snapshot_isolation() {
    let mut snapshot = Snapshot::new();
    assert!(snapshot.put_write(b"k".to_vec(), 2, put_record(1, Some(b"v2".to_vec()))));
    assert!(snapshot.put_lock(b"k".to_vec(), 5));
    let mut getter = PointGetterBuilder::new(snapshot).build().unwrap();
    let key = Key::from_bytes(b"k".to_vec());
    // The lock's start timestamp 5 is at or below the read timestamp.
    assert_eq!(getter.read_next(&key, 10), Err(Error::KeyIsLocked { lock_ts: 5 }));
    // A read below the lock's start timestamp is not intercepted.
    assert_eq!(getter.read_next(&key, 3), Ok(Some(b"v2".to_vec())));
}

#[test]
fn relaxed_isolation_ignores_locks() {
    let mut snapshot = Snapshot::new();
    assert!(snapshot.put_write(b"k".to_vec(), 2, put_record(1, Some(b"v2".to_vec()))));
    assert!(snapshot.put_lock(b"k".to_vec(), 5));
    let mut getter = PointGetterBuilder::new(snapshot)
        .isolation_level(IsolationLevel::Rc)
        .build()
        .unwrap();
    let key = Key::from_bytes(b"k".to_vec());
    assert_eq!(getter.read_next(&key, 10), Ok(Some(b"v2".to_vec())));
}

#[test]
fn version_walk_and_value_store_fetch() {
    let mut snapshot = Snapshot::new();
    assert!(snapshot.put_write(b"k".to_vec(), 10, put_record(9, Some(b"v10".to_vec()))));
    assert!(snapshot.put_write(b"k".to_vec(), 5, put_record(5, None)));
    assert!(snapshot.put_default(b"k".to_vec(), 5, b"v5-long".to_vec()));
    let mut getter = PointGetterBuilder::new(snapshot).build().unwrap();
    let key = Key::from_bytes(b"k".to_vec());
    assert_eq!(getter.read_next(&key, 10), Ok(Some(b"v10".to_vec())));
    assert_eq!(getter.read_next(&key, 7), Ok(Some(b"v5-long".to_vec())));
    assert_eq!(getter.read_next(&key, 3), Ok(None));
}

#[test]
fn delete_then_older_put_by_timestamp() {
    let mut snapshot = Snapshot::new();
    assert!(snapshot.put_write(b"k".to_vec(), 10, delete_record(10)));
    assert!(snapshot.put_write(b"k".to_vec(), 5, put_record(5, Some(b"v5".to_vec()))));
    let mut getter = PointGetterBuilder::new(snapshot).build().unwrap();
    let key = Key::from_bytes(b"k".to_vec());
    assert_eq!(getter.read_next(&key, 10), Ok(None));
    assert_eq!(getter.read_next(&key, 5), Ok(Some(b"v5".to_vec())));
}

#[test]
fn malformed_record_is_corruption() {
    let mut snapshot = Snapshot::new();
    assert!(snapshot.put_write(b"k".to_vec(), 10, vec![0xff, 0x00, 0x01]));
    let mut getter = PointGetterBuilder::new(snapshot).build().unwrap();
    let key = Key::from_bytes(b"k".to_vec());
    assert_eq!(getter.read_next(&key, 10), Err(Error::BadFormatWrite));
}

#[test]
fn missing_value_store_entry_is_corruption() {
    let mut snapshot = Snapshot::new();
    assert!(snapshot.put_write(b"k".to_vec(), 10, put_record(7, None)));
    let mut getter = PointGetterBuilder::new(snapshot).build().unwrap();
    let key = Key::from_bytes(b"k".to_vec());
    assert_eq!(getter.read_next(&key, 10), Err(Error::DefaultNotFound));
}

#[test]
fn keys_with_shared_prefix_stay_separate() {
    let mut snapshot = Snapshot::new();
    assert!(snapshot.put_write(b"a".to_vec(), 5, put_record(4, Some(b"va".to_vec()))));
    assert!(snapshot.put_write(b"ab".to_vec(), 5, put_record(4, Some(b"vab".to_vec()))));
    let mut getter = PointGetterBuilder::new(snapshot).build().unwrap();
    assert_eq!(
        getter.read_next(&Key::from_bytes(b"a".to_vec()), 10),
        Ok(Some(b"va".to_vec()))
    );
    assert_eq!(
        getter.read_next(&Key::from_bytes(b"ab".to_vec()), 10),
        Ok(Some(b"vab".to_vec()))
    );
    assert_eq!(getter.read_next(&Key::from_bytes(b"aa".to_vec()), 10), Ok(None));
}

#[test]
fn out_of_order_insertions_are_rejected() {
    let mut snapshot = Snapshot::new();
    assert!(snapshot.put_write(b"b".to_vec(), 10, put_record(9, None)));
    // A smaller key after a larger one breaks the region order.
    assert!(!snapshot.put_write(b"a".to_vec(), 10, put_record(9, None)));
    // Within one key, timestamps must come newest first.
    assert!(!snapshot.put_write(b"b".to_vec(), 10, put_record(9, None)));
    assert!(!snapshot.put_write(b"b".to_vec(), 12, put_record(9, None)));
    assert!(snapshot.put_write(b"b".to_vec(), 8, put_record(7, None)));
}

#[test]
fn take_statistics_resets_the_accumulator() {
    let mut snapshot = Snapshot::new();
    assert!(snapshot.put_write(b"k".to_vec(), 10, put_record(9, Some(b"v".to_vec()))));
    let mut getter = PointGetterBuilder::new(snapshot).build().unwrap();
    let key = Key::from_bytes(b"k".to_vec());
    assert_eq!(getter.read_next(&key, 10), Ok(Some(b"v".to_vec())));
    let taken = getter.take_statistics();
    assert!(taken.write.processed > 0);
    assert!(taken.write.get > 0);
    let fresh = getter.take_statistics();
    assert_eq!(fresh.write.processed, 0);
    assert_eq!(fresh.write.get, 0);
    assert_eq!(fresh.write.seek, 0);
    assert_eq!(fresh.write.next, 0);
    // The reader is still usable after taking statistics.
    assert_eq!(getter.read_next(&key, 10), Ok(Some(b"v".to_vec())));
}

#[test]
fn statistics_touch_only_consulted_regions() {
    // A read resolved from an inlined short value consults neither the lock
    // region (under relaxed isolation) nor the value store.
    let mut snapshot = Snapshot::new();
    assert!(snapshot.put_write(b"k".to_vec(), 10, put_record(9, Some(b"v".to_vec()))));
    let mut relaxed = PointGetterBuilder::new(snapshot)
        .isolation_level(IsolationLevel::Rc)
        .build()
        .unwrap();
    let key = Key::from_bytes(b"k".to_vec());
    assert_eq!(relaxed.read_next(&key, 10), Ok(Some(b"v".to_vec())));
    let d = relaxed.take_statistics();
    assert_eq!(d.lock.get, 0);
    assert_eq!(d.data, CfStatistics::new());

    // Under snapshot isolation the lock check reads the lock region exactly
    // once per call.
    let mut snapshot = Snapshot::new();
    assert!(snapshot.put_write(b"k".to_vec(), 10, put_record(9, Some(b"v".to_vec()))));
    let mut strict = PointGetterBuilder::new(snapshot).build().unwrap();
    assert_eq!(strict.read_next(&key, 10), Ok(Some(b"v".to_vec())));
    let d = strict.take_statistics();
    assert_eq!(d.lock.get, 1);
    assert_eq!(d.data, CfStatistics::new());

    // A read that fetches its payload from the value store moves the
    // value-store counters.
    let mut snapshot = Snapshot::new();
    assert!(snapshot.put_write(b"k".to_vec(), 10, put_record(5, None)));
    assert!(snapshot.put_default(b"k".to_vec(), 5, b"long".to_vec()));
    let mut fetching = PointGetterBuilder::new(snapshot).build().unwrap();
    assert_eq!(fetching.read_next(&key, 10), Ok(Some(b"long".to_vec())));
    let d = fetching.take_statistics();
    assert!(d.data.get > 0);
    assert!(d.data.processed > 0);
}

#[test]
fn omitting_values_skips_the_value_store() {
    // Even a record whose payload lives in the value store is resolved
    // without consulting it when values are omitted.
    let mut snapshot = Snapshot::new();
    assert!(snapshot.put_write(b"k".to_vec(), 10, put_record(5, None)));
    assert!(snapshot.put_default(b"k".to_vec(), 5, b"long".to_vec()));
    let mut getter = PointGetterBuilder::new(snapshot).omit_value(true).build().unwrap();
    let key = Key::from_bytes(b"k".to_vec());
    assert_eq!(getter.read_next(&key, 10), Ok(Some(Vec::new())));
    let d = getter.take_statistics();
    assert_eq!(d.data, CfStatistics::new());
}

#[test]
fn statistics_deltas_have_the_same_shape_for_repeated_reads() {
    let mut snapshot = Snapshot::new();
    assert!(snapshot.put_write(b"k".to_vec(), 10, put_record(9, Some(b"v".to_vec()))));
    let mut getter = PointGetterBuilder::new(snapshot).build().unwrap();
    let key = Key::from_bytes(b"k".to_vec());
    let r1 = getter.read_next(&key, 10);
    let d1 = getter.take_statistics();
    let r2 = getter.read_next(&key, 10);
    let d2 = getter.take_statistics();
    assert_eq!(r1, r2);
    assert_eq!(d1.write.processed, d2.write.processed);
    assert_eq!(d1.lock.get, d2.lock.get);
    assert_eq!(d1.data.get, d2.data.get);
}
