use rn_run::time::{file_timestamp, header_timestamp, parts_from_epoch, TimeParts};

#[test]
fn epoch_zero_is_the_epoch() {
    let p = parts_from_epoch(0);
    assert_eq!((p.year, p.month, p.day), (1970, 1, 1));
    assert_eq!((p.hour, p.minute, p.second), (0, 0, 0));
}

#[test]
fn known_moment_converts_exactly() {
    let p = parts_from_epoch(1_700_000_000);
    assert_eq!((p.year, p.month, p.day), (2023, 11, 14));
    assert_eq!((p.hour, p.minute, p.second), (22, 13, 20));
}

#[test]
fn leap_day_is_reached() {
    let p = parts_from_epoch(1_709_164_800);
    assert_eq!((p.year, p.month, p.day), (2024, 2, 29));
    assert_eq!((p.hour, p.minute, p.second), (0, 0, 0));
}

#[test]
fn last_second_of_a_year() {
    let p = parts_from_epoch(1_704_067_199);
    assert_eq!((p.year, p.month, p.day), (2023, 12, 31));
    assert_eq!((p.hour, p.minute, p.second), (23, 59, 59));
}

#[test]
fn timestamps_are_zero_padded() {
    let p = TimeParts { year: 2024, month: 2, day: 3, hour: 4, minute: 5, second: 6 };
    assert_eq!(file_timestamp(&p), "2024-02-03_04-05-06");
    assert_eq!(header_timestamp(&p), "2024-02-03 04:05:06");
}

#[test]
fn timestamp_forms_differ_only_in_separators() {
    let p = parts_from_epoch(1_700_000_000);
    assert_eq!(file_timestamp(&p), "2023-11-14_22-13-20");
    assert_eq!(header_timestamp(&p), "2023-11-14 22:13:20");
}
