use collector_core::csv::CsvLogItem;

#[test]
fn test_csv_log_item_default() {
    let item = CsvLogItem::default();
    assert!(item.source_file.is_empty());
    assert!(item.destination_file.is_empty());
    assert!(!item.from_ntfs);
}

#[test]
fn test_csv_log_item_new_is_stamped_once() {
    let item = CsvLogItem::new();
    assert!(!item.collect_time.is_empty());
    assert_eq!(item.collect_time, item.modified_time);
    assert_eq!(item.collect_time, item.access_time);
    assert!(item.hash_sha1.is_empty());
    assert_eq!(item.file_size, 0);
    assert!(item.collect_time.contains('T'));
}

#[test]
fn test_csv_log_item_stamped() {
    let item = CsvLogItem::stamped("2024-01-02T03:04:05+00:00".to_string());
    assert_eq!(item.collect_time, "2024-01-02T03:04:05+00:00");
    assert_eq!(item.modified_time, "2024-01-02T03:04:05+00:00");
    assert_eq!(item.access_time, "2024-01-02T03:04:05+00:00");
    assert!(item.source_file.is_empty());
}

#[test]
fn test_csv_log_item_with_paths() {
    let item = CsvLogItem::with_paths("source.txt", "dest.txt");
    assert_eq!(item.source_file, "source.txt");
    assert_eq!(item.destination_file, "dest.txt");
}

#[test]
fn test_csv_log_item_builder_pattern() {
    let item = CsvLogItem::with_paths("src", "dst")
        .with_hash("abc123".to_string())
        .with_ntfs_flag(true)
        .with_size(1024);

    assert_eq!(item.source_file, "src");
    assert_eq!(item.hash_sha1, "abc123");
    assert!(item.from_ntfs);
    assert_eq!(item.file_size, 1024);
}

#[test]
fn test_csv_header() {
    assert_eq!(
        CsvLogItem::header(),
        vec![
            "collect_time",
            "source_file",
            "destination_file",
            "hash_sha1",
            "from_ntfs",
            "modified_time",
            "access_time",
            "file_size"
        ]
    );
}

#[test]
fn test_csv_record() {
    let item = CsvLogItem::stamped("now".to_string())
        .with_hash("aaf4c61ddcc5e8a2dabede0f3b482cd9aea9434d".to_string())
        .with_timestamps("m".to_string(), "a".to_string())
        .with_size(5);
    let item = CsvLogItem { source_file: "/s/a".to_string(), destination_file: "/d/a".to_string(), ..item };
    assert_eq!(
        item.record(),
        vec!["now", "/s/a", "/d/a", "aaf4c61ddcc5e8a2dabede0f3b482cd9aea9434d", "false", "m", "a", "5"]
    );
    let raw = item.with_ntfs_flag(true).with_size(18446744073709551615);
    let record = raw.record();
    assert_eq!(record[4], "true");
    assert_eq!(record[7], "18446744073709551615");
    assert_eq!(CsvLogItem::stamped(String::new()).with_size(0).record()[7], "0");
    assert_eq!(CsvLogItem::stamped(String::new()).with_size(1024).record()[7], "1024");
    assert_eq!(CsvLogItem::stamped(String::new()).with_size(10).record()[7], "10");
}

#[test]
fn test_file_time_text() {
    assert_eq!(collector_core::csv::file_time(1700000000, 5), "1700000000.000000005s");
    assert_eq!(collector_core::csv::file_time(0, 0), "0.000000000s");
    assert_eq!(collector_core::csv::file_time(-1, 999999999), "-1.999999999s");
    assert_eq!(collector_core::csv::file_time(12, 123456789), "12.123456789s");
    assert_eq!(collector_core::csv::file_time(12, 4294967295), "12.4294967295s");
    assert_eq!(
        collector_core::csv::file_time(i64::MIN, 1),
        "-9223372036854775808.000000001s"
    );
    assert_eq!(
        collector_core::csv::file_time(i64::MAX, 10),
        "9223372036854775807.000000010s"
    );
}

#[test]
fn test_file_time_agrees_with_filetime() {
    for (seconds, nanos) in [(0i64, 0u32), (1700000000, 1), (-5, 500), (86400, 999999999)] {
        let expected = filetime::FileTime::from_unix_time(seconds, nanos);
        assert_eq!(
            collector_core::csv::file_time(expected.seconds(), expected.nanoseconds()),
            expected.to_string()
        );
    }
}

#[test]
fn test_header_needed() {
    assert!(CsvLogItem::header_needed(None));
    assert!(CsvLogItem::header_needed(Some(0)));
    assert!(!CsvLogItem::header_needed(Some(1)));
    assert!(!CsvLogItem::header_needed(Some(8)));
}

#[test]
fn test_timestamp_text() {
    assert_eq!(collector_core::csv::timestamp(0, 0), "1970-01-01T00:00:00+00:00");
    assert_eq!(collector_core::csv::timestamp(1431648000, 0), "2015-05-15T00:00:00+00:00");
    assert_eq!(
        collector_core::csv::timestamp(1700000000, 123000000),
        "2023-11-14T22:13:20.123+00:00"
    );
    assert_eq!(
        collector_core::csv::timestamp(1700000000, 1),
        "2023-11-14T22:13:20.000000001+00:00"
    );
    assert_eq!(collector_core::csv::timestamp(-1, 0), "1969-12-31T23:59:59+00:00");
    assert_eq!(collector_core::csv::timestamp(i64::MAX, 0), "");
    assert_eq!(collector_core::csv::timestamp(0, 2000000000), "");
}

#[test]
fn test_new_row_is_stamped_with_the_present() {
    let item = CsvLogItem::new();
    assert_eq!(item.collect_time.len() >= 25, true);
    assert!(item.collect_time.ends_with("+00:00"));
    assert_eq!(item.collect_time.as_bytes()[10], b'T');
}

#[test]
fn test_stamp_of_a_clock_reading() {
    assert_eq!(collector_core::csv::stamp_of(None), "");
    assert_eq!(collector_core::csv::stamp_of(Some((0, 0))), "1970-01-01T00:00:00+00:00");
    assert_eq!(
        collector_core::csv::stamp_of(Some((1700000000, 123000000))),
        "2023-11-14T22:13:20.123+00:00"
    );
    assert_eq!(collector_core::csv::stamp_of(Some((u64::MAX, 0))), "");
    assert_eq!(collector_core::csv::stamp_of(Some((9223372036854775808, 0))), "");
}
