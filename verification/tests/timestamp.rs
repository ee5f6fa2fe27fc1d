use file_resources::timestamp::{is_stale, record, Timestamp};
use std::io::{Error, ErrorKind};

#[test]
fn later_time_is_after() {
    let early = Timestamp::from_nanos(1_000);
    let late = Timestamp::from_nanos(1_001);
    assert!(late.after(&early));
    assert!(!early.after(&late));
    assert!(!early.after(&early));
}

#[test]
fn times_before_the_epoch_are_ordered() {
    let before = Timestamp::from_nanos(-5);
    let epoch = Timestamp::from_nanos(0);
    assert!(epoch.after(&before));
    assert!(!before.after(&epoch));
}

#[test]
fn unknown_time_on_record_is_stale() {
    assert!(is_stale(None, Some(Timestamp::from_nanos(0))));
    assert!(is_stale(None, None));
}

#[test]
fn unknown_time_on_disk_is_stale() {
    assert!(is_stale(Some(Timestamp::from_nanos(7)), None));
}

#[test]
fn only_a_strictly_later_time_is_stale() {
    let known = Some(Timestamp::from_nanos(100));
    assert!(is_stale(known, Some(Timestamp::from_nanos(101))));
    assert!(!is_stale(known, Some(Timestamp::from_nanos(100))));
    assert!(!is_stale(known, Some(Timestamp::from_nanos(99))));
}

#[test]
fn time_that_the_metadata_tell_goes_on_record() {
    assert_eq!(record(Ok(Timestamp::from_nanos(42))), Some(Timestamp::from_nanos(42)));
}

#[test]
fn time_that_the_metadata_cannot_tell_is_unknown() {
    assert_eq!(record(Err(Error::new(ErrorKind::Unsupported, "no modification time"))), None);
}
