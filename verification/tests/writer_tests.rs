use collector_core::writer::Writer;

#[test]
fn test_writer_new() {
    let writer = Writer::new("./output");
    assert!(writer.is_ok());
}

#[test]
fn test_writer_new_stages_below_host_folder() {
    let writer = Writer::new("./output").unwrap();
    let expected = format!("./output/Collector_{}", writer.hostname());
    assert_eq!(writer.full_destination().to_string_lossy(), expected);
    assert_eq!(writer.base_destination().to_string_lossy(), "./output");
}

#[test]
fn test_writer_for_host() {
    let writer = Writer::for_host("/d", Some("H".to_string()));
    assert_eq!(writer.hostname(), "H");
    assert_eq!(writer.full_destination().to_string_lossy(), "/d/Collector_H");
    assert_eq!(writer.get_file_path_string("a/b/c.txt"), "/d/Collector_H/a/b/c.txt");
    assert_eq!(writer.get_file_path_string("/s/a/b/c.txt"), "/d/Collector_H/s/a/b/c.txt");
    assert_eq!(writer.archive_path().to_string_lossy(), "/d/Collector_H.zip");

    let nameless = Writer::for_host("/d/", None);
    assert_eq!(nameless.hostname(), "unknown");
    assert_eq!(nameless.full_destination().to_string_lossy(), "/d/Collector_unknown");
}

#[test]
fn test_writer_with_folder_name() {
    let writer = Writer::with_folder_name("./output", "CustomFolder").unwrap();
    assert!(writer
        .full_destination()
        .to_string_lossy()
        .contains("CustomFolder"));
}

#[test]
fn test_get_file_path_normalization() {
    let writer = Writer::with_folder_name("./output", "Test").unwrap();

    let path = writer.get_file_path("C:\\Windows\\System32\\file.txt");
    let path_str = path.to_string_lossy();

    assert!(!path_str.contains(':'));
    assert!(path_str.contains("Windows"));
    assert!(path_str.contains("file.txt"));
}

#[test]
fn test_get_file_path_exact() {
    let writer = Writer::with_folder_name("./output", "Test").unwrap();
    assert_eq!(
        writer.get_file_path_string("C:\\Windows\\System32\\file.txt"),
        "./output/Test/C\\Windows\\System32\\file.txt"
    );
    assert_eq!(writer.get_file_path_string("/\\//etc/passwd"), "./output/Test/etc/passwd");
    assert_eq!(writer.get_file_path_string(""), "./output/Test/");
    assert_eq!(writer.get_file_path_string(":"), "./output/Test/");
}

#[test]
fn test_csv_log_path() {
    let writer = Writer::with_folder_name("./output", "Test").unwrap();
    let csv_path = writer.csv_log_path();

    assert!(csv_path.to_string_lossy().contains("Collector_copy.csv"));
    assert_eq!(csv_path.to_string_lossy(), "./output/Test/Collector_copy.csv");
}
