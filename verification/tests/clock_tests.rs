use nuwax_upload::clock::{format_timestamp, utc_now, utc_time_at, UtcTime};

#[test]
fn timestamp_is_zero_padded_fields() {
    let t = UtcTime { year: 2024, month: 1, day: 2, hour: 3, minute: 4, second: 5 };
    assert_eq!(format_timestamp(t), "20240102030405");
    let t = UtcTime { year: 1999, month: 12, day: 31, hour: 23, minute: 59, second: 59 };
    assert_eq!(format_timestamp(t), "19991231235959");
}

#[test]
fn timestamp_of_far_years_is_signed() {
    let t = UtcTime { year: 12345, month: 6, day: 7, hour: 8, minute: 9, second: 10 };
    assert_eq!(format_timestamp(t), "+123450607080910");
}

#[test]
fn epoch_and_known_times() {
    assert_eq!(
        utc_time_at(0),
        Some(UtcTime { year: 1970, month: 1, day: 1, hour: 0, minute: 0, second: 0 })
    );
    assert_eq!(
        utc_time_at(1704164645),
        Some(UtcTime { year: 2024, month: 1, day: 2, hour: 3, minute: 4, second: 5 })
    );
    assert_eq!(utc_time_at(u64::MAX), None);
}

#[test]
fn clock_reads_after_epoch() {
    let now = utc_now().unwrap();
    assert!(now.year >= 2024);
}
