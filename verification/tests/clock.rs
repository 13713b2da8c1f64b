use tategoto::clock::{audio_offset_to_local_time, Timestamp};

#[test]
fn timestamps_outside_chrono_range_are_refused() {
    assert!(Timestamp::from_parts(i64::MAX, 0, 0).is_none());
    assert!(Timestamp::from_parts(0, 0, 86_400).is_none());
    assert!(Timestamp::from_parts(0, 0, -86_400).is_none());
    let t = Timestamp::from_parts(1_777_939_200, 5, 32_400).unwrap();
    assert_eq!((t.secs(), t.nanos(), t.offset_secs()), (1_777_939_200, 5, 32_400));
}

#[test]
fn audio_offsets_move_the_origin_or_fall_back_to_now() {
    let origin = Timestamp::from_parts(1_777_939_200, 0, 32_400).unwrap();
    let now = Timestamp::from_parts(1_777_940_000, 0, 32_400).unwrap();
    let t = audio_offset_to_local_time(&origin, Some(1_500), &now);
    assert_eq!((t.secs(), t.nanos(), t.offset_secs()), (1_777_939_201, 500_000_000, 32_400));
    let back = audio_offset_to_local_time(&origin, Some(-2_000), &now);
    assert_eq!(back.secs(), 1_777_939_198);
    assert_eq!(audio_offset_to_local_time(&origin, None, &now), now);
    assert_eq!(audio_offset_to_local_time(&origin, Some(i64::MIN), &now), now);
    assert_eq!(audio_offset_to_local_time(&origin, Some(i64::MAX), &now), now);
}

#[test]
fn chrono_date_range_bounds_timestamps() {
    let first = chrono::NaiveDate::MIN.and_hms_opt(0, 0, 0).unwrap().and_utc().timestamp();
    let last = chrono::NaiveDate::MAX.and_hms_opt(23, 59, 59).unwrap().and_utc().timestamp();
    assert_eq!(first, -8_334_601_228_800);
    assert_eq!(last, 8_210_266_876_799);
    assert!(Timestamp::from_parts(first, 0, 0).is_some());
    assert!(Timestamp::from_parts(first - 1, 999_999_999, 0).is_none());
    assert!(Timestamp::from_parts(last, 999_999_999, 0).is_some());
    assert!(Timestamp::from_parts(last + 1, 0, 0).is_none());
}

#[test]
fn leap_second_nanoseconds_only_in_the_last_second_of_a_minute() {
    assert!(Timestamp::from_parts(59, 1_500_000_000, 0).is_some());
    assert!(Timestamp::from_parts(58, 1_500_000_000, 0).is_none());
    assert!(Timestamp::from_parts(59, 2_000_000_000, 0).is_none());
    assert!(Timestamp::from_parts(-1, 1_000_000_000, 0).is_some());
}

#[test]
fn offsets_that_leave_chrono_dates_fall_back_to_now() {
    let last = Timestamp::from_parts(8_210_266_876_799, 0, 0).unwrap();
    let now = Timestamp::from_parts(1_777_940_000, 0, 0).unwrap();
    let inside = audio_offset_to_local_time(&last, Some(999), &now);
    assert_eq!((inside.secs(), inside.nanos()), (8_210_266_876_799, 999_000_000));
    assert_eq!(audio_offset_to_local_time(&last, Some(1_000), &now), now);
}
