use collector_core::error::CollectorError;
use collector_core::extract::get::{get_drive_letter, volume_request};
use collector_core::extract::lowfs::{split_artifact_path, WalkStep};
use collector_core::extract::sector_reader::{sector_window, SectorWindow, SECTOR_SIZE};
use collector_core::mount::vss::VssSnapshot;

#[test]
fn test_get_drive_letter() {
    let result = get_drive_letter("C:\\Windows\\System32");
    assert!(result.is_ok());
    assert_eq!(result.unwrap(), "C:\\");
}

#[test]
fn test_get_drive_letter_invalid() {
    let result = get_drive_letter("/home/user");
    assert!(result.is_err());
}

#[test]
fn test_get_drive_letter_edges() {
    assert_eq!(get_drive_letter("z:\\").unwrap(), "z:\\");
    assert_eq!(get_drive_letter("A:\\x").unwrap(), "A:\\");
    for bad in ["C:", "C:/x", "1:\\x", "\\C:\\x", "", "CC:\\", "é:\\x", "@:\\x", "[:\\x", "`:\\x", "{:\\x"] {
        match get_drive_letter(bad) {
            Err(CollectorError::InvalidDriveLetter(path)) => assert_eq!(path, bad),
            _ => panic!("Expected InvalidDriveLetter error"),
        }
    }
}

#[test]
fn test_volume_request_live() {
    let request = volume_request("C:\\Windows\\System32\\config\\SAM", None).unwrap();
    assert_eq!(request.device, "\\\\?\\C:");
    assert_eq!(request.relative_path, "Windows\\System32\\config\\SAM");
}

#[test]
fn test_volume_request_removes_every_occurrence_of_the_drive() {
    let request = volume_request("C:\\a\\C:\\b", None).unwrap();
    assert_eq!(request.relative_path, "a\\b");
    let request = volume_request("C:\\C:\\C:\\", None).unwrap();
    assert_eq!(request.relative_path, "");
    let request = volume_request("C:\\ac:\\b", None).unwrap();
    assert_eq!(request.relative_path, "ac:\\b");
}

#[test]
fn test_volume_request_snapshot() {
    let snapshot = VssSnapshot {
        original_volume_name: "\\\\?\\Volume{guid}\\".to_string(),
        device_volume_name: "\\\\?\\GLOBALROOT\\Device\\HarddiskVolumeShadowCopy1".to_string(),
    };
    let request = volume_request("D:\\$MFT", Some(&snapshot)).unwrap();
    assert_eq!(request.device, "\\\\?\\GLOBALROOT\\Device\\HarddiskVolumeShadowCopy1");
    assert_eq!(request.relative_path, "$MFT");
}

#[test]
fn test_volume_request_invalid() {
    match volume_request("/home/user", None) {
        Err(CollectorError::InvalidDriveLetter(path)) => assert_eq!(path, "/home/user"),
        _ => panic!("Expected InvalidDriveLetter error"),
    }
}

#[test]
fn test_split_artifact_path() {
    let target = split_artifact_path("Windows\\System32\\config\\SAM").unwrap();
    assert_eq!(target.directories, vec!["Windows", "System32", "config"]);
    assert_eq!(target.filename, "SAM");
    assert_eq!(target.component(0), "Windows");
    assert_eq!(target.component(2), "config");
    assert_eq!(target.component(3), "SAM");

    let target = split_artifact_path("\\\\$Extend\\\\\\$UsnJrnl\\").unwrap();
    assert_eq!(target.directories, vec!["$Extend"]);
    assert_eq!(target.filename, "$UsnJrnl");

    let target = split_artifact_path("$MFT").unwrap();
    assert!(target.directories.is_empty());
    assert_eq!(target.filename, "$MFT");

    let target = split_artifact_path("a/b\\c").unwrap();
    assert_eq!(target.directories, vec!["a/b"]);
    assert_eq!(target.filename, "c");
}

#[test]
fn test_split_artifact_path_empty() {
    for empty in ["", "\\", "\\\\\\"] {
        match split_artifact_path(empty) {
            Err(CollectorError::NtfsExtraction { path, reason }) => {
                assert_eq!(path, empty);
                assert_eq!(reason, "Empty path");
            }
            _ => panic!("Expected NtfsExtraction error"),
        }
    }
}

#[test]
fn test_missing_component_errors() {
    let target = split_artifact_path("Windows\\System32\\SAM").unwrap();
    match target.missing(1) {
        CollectorError::NtfsExtraction { path, reason } => {
            assert_eq!(path, "System32");
            assert_eq!(reason, "Directory not found");
        }
        _ => panic!("Expected NtfsExtraction error"),
    }
    match target.missing(2) {
        CollectorError::NtfsExtraction { path, reason } => {
            assert_eq!(path, "SAM");
            assert_eq!(reason, "File not found");
        }
        _ => panic!("Expected NtfsExtraction error"),
    }
}

#[test]
fn test_walk_steps() {
    let target = split_artifact_path("Windows\\System32\\SAM").unwrap();
    assert_eq!(target.after_lookup(0, true).unwrap(), WalkStep::Lookup(1));
    assert_eq!(target.after_lookup(1, true).unwrap(), WalkStep::Lookup(2));
    assert_eq!(target.after_lookup(2, true).unwrap(), WalkStep::ReadData);
    match target.after_lookup(0, false) {
        Err(CollectorError::NtfsExtraction { path, reason }) => {
            assert_eq!(path, "Windows");
            assert_eq!(reason, "Directory not found");
        }
        _ => panic!("Expected NtfsExtraction error"),
    }
    match target.after_lookup(2, false) {
        Err(CollectorError::NtfsExtraction { path, reason }) => {
            assert_eq!(path, "SAM");
            assert_eq!(reason, "File not found");
        }
        _ => panic!("Expected NtfsExtraction error"),
    }
}

#[test]
fn test_sector_window() {
    assert_eq!(SECTOR_SIZE, 4096);
    assert_eq!(
        sector_window(0, 512, 4096),
        Some(SectorWindow { start: 0, offset: 0, length: 4096 })
    );
    assert_eq!(
        sector_window(4096, 4096, 4096),
        Some(SectorWindow { start: 4096, offset: 0, length: 4096 })
    );
    assert_eq!(
        sector_window(5000, 10, 4096),
        Some(SectorWindow { start: 4096, offset: 904, length: 4096 })
    );
    assert_eq!(
        sector_window(8191, 2, 4096),
        Some(SectorWindow { start: 4096, offset: 4095, length: 8192 })
    );
    assert_eq!(
        sector_window(4096, 0, 4096),
        Some(SectorWindow { start: 4096, offset: 0, length: 0 })
    );
    assert_eq!(
        sector_window(7, 3, 3),
        Some(SectorWindow { start: 6, offset: 1, length: 6 })
    );
    assert_eq!(sector_window(7, 3, 0), None);
    assert_eq!(sector_window(1, usize::MAX, 4096), None);
    assert_eq!(sector_window(0, usize::MAX, 4096), None);
    assert_eq!(
        sector_window(0, usize::MAX, 1),
        Some(SectorWindow { start: 0, offset: 0, length: usize::MAX })
    );
    assert_eq!(
        sector_window(u64::MAX, 1, 4096),
        Some(SectorWindow { start: u64::MAX - 4095, offset: 4095, length: 4096 })
    );
}
