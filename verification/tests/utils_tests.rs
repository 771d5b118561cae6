use collector_core::error::CollectorError;
use collector_core::utils::{normalize_path, require_admin, truncate_text, FormatSource};
use std::path::{Path, PathBuf};

#[test]
fn test_format_source_new() {
    let source = FormatSource::new("/home/user");
    assert_eq!(source.to_path_buf(), PathBuf::from("/home/user"));
}

#[test]
fn test_format_source_push() {
    let mut source = FormatSource::new("/home");
    source.push("user");
    assert_eq!(source.to_path_buf(), PathBuf::from("/home/user"));
}

#[test]
fn test_format_source_join() {
    let source = FormatSource::new("/home");
    let new_source = source.join("user");

    // The source keeps its path
    assert_eq!(source.to_path_buf(), PathBuf::from("/home"));
    // The result has the joined path
    assert_eq!(new_source.to_path_buf(), PathBuf::from("/home/user"));
}

#[test]
fn test_format_source_join_rules() {
    assert_eq!(FormatSource::new("/home/").join("user").to_string_lossy(), "/home/user");
    assert_eq!(FormatSource::new("").join("user").to_string_lossy(), "user");
    assert_eq!(FormatSource::new("/home").join("/etc").to_string_lossy(), "/etc");
    assert_eq!(FormatSource::new("/home").join("").to_string_lossy(), "/home/");
    assert_eq!(FormatSource::new("a").join("b").join("c").to_string_lossy(), "a/b/c");
    assert_eq!(FormatSource::new("a").join("b\\c").to_string_lossy(), "a/b\\c");
}

#[test]
fn test_format_source_from_string() {
    let source: FormatSource = "/test/path".into();
    assert_eq!(source.to_string_lossy(), "/test/path");
}

#[test]
fn test_format_source_from_owned_string() {
    let source: FormatSource = String::from("/test/owned").into();
    assert_eq!(source.as_str(), "/test/owned");
    assert_eq!(source.clone().into_path_buf(), PathBuf::from("/test/owned"));
    assert_eq!(source.as_path(), Path::new("/test/owned"));
}

#[test]
fn test_format_source_display() {
    let source = FormatSource::new("/test/path");
    assert_eq!(source.to_string(), "/test/path");
}

#[test]
fn test_normalize_path_windows() {
    assert_eq!(normalize_path("\\Users\\test"), "Users\\test");
    assert_eq!(normalize_path("\\data"), "data");
}

#[test]
fn test_normalize_path_unix() {
    assert_eq!(normalize_path("/home/user"), "home/user");
    assert_eq!(normalize_path("/var/log"), "var/log");
}

#[test]
fn test_normalize_path_colons_and_mixed_separators() {
    assert_eq!(normalize_path("C:\\Windows\\System32"), "C\\Windows\\System32");
    assert_eq!(normalize_path(":/\\:a:b"), "ab");
    assert_eq!(normalize_path("/\\x"), "x");
    assert_eq!(normalize_path("\\/x"), "x");
    assert_eq!(normalize_path("::"), "");
    assert_eq!(normalize_path(""), "");
    assert_eq!(normalize_path("a//b"), "a//b");
}

#[test]
fn test_truncate_text() {
    assert_eq!(truncate_text("Hello World", 5), "Hello...");
    assert_eq!(truncate_text("Hi", 5), "Hi");
    assert_eq!(truncate_text("Exact", 5), "Exact");
}

#[test]
fn test_truncate_text_counts_bytes() {
    assert_eq!(truncate_text("héllo", 3), "hé...");
    assert_eq!(truncate_text("héllo", 6), "héllo");
    assert_eq!(truncate_text("héllo", 5), "héll...");
    assert_eq!(truncate_text("abc", 0), "...");
    assert_eq!(truncate_text("", 0), "");
}

#[test]
fn test_format_source_as_ref() {
    let source = FormatSource::new("/test");
    let path: &Path = source.as_ref();
    assert_eq!(path, Path::new("/test"));
}

#[test]
fn test_require_admin() {
    assert!(require_admin(true).is_ok());
    assert!(matches!(require_admin(false), Err(CollectorError::InsufficientPrivileges)));
}
