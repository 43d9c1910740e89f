use pass_finder::time::convert_unix_to_local;

#[test]
fn epoch_in_sydney() {
    assert_eq!(
        convert_unix_to_local(0),
        Some("1970-01-01 10:00:00 AEST".to_string())
    );
}

#[test]
fn winter_and_summer_offsets() {
    assert_eq!(
        convert_unix_to_local(1431648000),
        Some("2015-05-15 10:00:00 AEST".to_string())
    );
    assert_eq!(
        convert_unix_to_local(1420070400),
        Some("2015-01-01 11:00:00 AEDT".to_string())
    );
}

#[test]
fn calendar_edges() {
    let last = convert_unix_to_local(8210266876799).unwrap();
    assert!(last.starts_with("+262143-01-01 10:59:59"), "{last}");
    assert_eq!(convert_unix_to_local(8210266876800), None);
    let daylight = convert_unix_to_local(1704067200).unwrap();
    assert!(daylight.starts_with("2024-01-01 11:00:00"), "{daylight}");
}

#[test]
fn out_of_range_timestamps_give_none() {
    assert_eq!(convert_unix_to_local(u64::MAX), None);
    assert_eq!(convert_unix_to_local(i64::MAX as u64 + 1), None);
}
