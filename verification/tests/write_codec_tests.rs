//! The write-record codec: exact round trips and rejection of malformed
//! encodings.

use point_getter::types::Error;
use point_getter::write::{Write, WriteType};

fn round_trip(write_type: WriteType, start_ts: u64, short_value: Option<Vec<u8>>) -> Write {
    let encoded = Write::new(write_type, start_ts, short_value).to_bytes();
    Write::parse(&encoded).unwrap()
}

#[test]
fn round_trip_put_with_short_value() {
    let w = round_trip(WriteType::Put, 42, Some(b"hello".to_vec()));
    assert_eq!(w.write_type, WriteType::Put);
    assert_eq!(w.start_ts, 42);
    assert_eq!(w.short_value, Some(b"hello".to_vec()));
}

#[test]
fn round_trip_put_without_short_value() {
    let w = round_trip(WriteType::Put, u64::MAX, None);
    assert_eq!(w.write_type, WriteType::Put);
    assert_eq!(w.start_ts, u64::MAX);
    assert_eq!(w.short_value, None);
}

#[test]
fn round_trip_delete_lock_rollback() {
    let d = round_trip(WriteType::Delete, 0, None);
    assert_eq!(d.write_type, WriteType::Delete);
    let l = round_trip(WriteType::Lock, 7, None);
    assert_eq!(l.write_type, WriteType::Lock);
    let r = round_trip(WriteType::Rollback, 9, None);
    assert_eq!(r.write_type, WriteType::Rollback);
}

#[test]
fn round_trip_empty_short_value() {
    let w = round_trip(WriteType::Put, 3, Some(Vec::new()));
    assert_eq!(w.short_value, Some(Vec::new()));
}

#[test]
fn parse_rejects_malformed_encodings() {
    // Too short.
    assert_eq!(Write::parse(&Vec::new()), Err(Error::BadFormatWrite));
    assert_eq!(Write::parse(&vec![0x50, 0, 0, 0]), Err(Error::BadFormatWrite));
    // Unknown tag byte.
    assert_eq!(
        Write::parse(&vec![0x00, 0, 0, 0, 0, 0, 0, 0, 0]),
        Err(Error::BadFormatWrite)
    );
    // Truncated short-value section.
    let mut bad = Write::new(WriteType::Put, 1, Some(b"abc".to_vec())).to_bytes();
    bad.pop();
    assert_eq!(Write::parse(&bad), Err(Error::BadFormatWrite));
    // Length byte not matching the payload.
    let mut wrong_len = Write::new(WriteType::Put, 1, Some(b"abc".to_vec())).to_bytes();
    wrong_len[10] = 2;
    assert_eq!(Write::parse(&wrong_len), Err(Error::BadFormatWrite));
    // Trailing bytes without the short-value marker.
    let mut trailing = Write::new(WriteType::Put, 1, None).to_bytes();
    trailing.push(0x61);
    assert_eq!(Write::parse(&trailing), Err(Error::BadFormatWrite));
}

#[test]
fn round_trip_largest_short_value() {
    let payload = vec![0xabu8; 255];
    let w = round_trip(WriteType::Put, 1, Some(payload.clone()));
    assert_eq!(w.short_value, Some(payload));
}

#[test]
fn parse_recovers_exact_start_ts() {
    let encoded = Write::new(WriteType::Put, 0x0123_4567_89ab_cdef, None).to_bytes();
    let w = Write::parse(&encoded).unwrap();
    assert_eq!(w.start_ts, 0x0123_4567_89ab_cdef);
}
