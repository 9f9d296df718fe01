use recordkeeper::SaveTimestamp;

#[test]
fn test_timestamp() {
    let ts = SaveTimestamp::from_date_time(2023, 1, 2, 12, 28);
    assert_eq!(2023, ts.year());
    assert_eq!(1, ts.month());
    assert_eq!(2, ts.day());
    assert_eq!(12, ts.hour());
    assert_eq!(28, ts.minute());
}

#[test]
fn iso_date_is_zero_padded() {
    let ts = SaveTimestamp::from_date_time(2023, 1, 2, 12, 28);
    assert_eq!("2023-01-02", ts.to_iso_date().as_str());
}

#[test]
fn iso_time_is_zero_padded() {
    let ts = SaveTimestamp::from_date_time(2023, 1, 2, 9, 5);
    assert_eq!("09:05", ts.to_iso_time().as_str());
}

#[test]
fn iso_date_of_late_december() {
    let ts = SaveTimestamp::from_date_time(2024, 12, 28, 23, 59);
    assert_eq!("2024-12-28", ts.to_iso_date().as_str());
    assert_eq!("23:59", ts.to_iso_time().as_str());
}

#[test]
fn month_and_day_are_masked_to_their_widths() {
    let ts = SaveTimestamp::from_date_time(1999, 0xff, 0xff, 7, 7);
    assert_eq!(0xf, ts.month());
    assert_eq!(0x1f, ts.day());
    assert_eq!(1999, ts.year());
}

#[test]
fn iso_date_grows_beyond_four_year_digits() {
    let ts = SaveTimestamp::from_date_time(12345, 6, 7, 0, 0);
    assert_eq!("12345-06-07", ts.to_iso_date().as_str());
    assert_eq!("00:00", ts.to_iso_time().as_str());
}
