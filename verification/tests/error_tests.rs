use collector_core::error::CollectorError;

#[test]
fn test_error_display() {
    let err = CollectorError::PathNotFound("/some/path".to_string());
    assert!(err.to_string().contains("/some/path"));
}

#[test]
fn test_error_chain() {
    let io_err = std::io::Error::new(std::io::ErrorKind::NotFound, "file not found");
    let err = CollectorError::FileRead {
        path: "/test".to_string(),
        reason: io_err.to_string(),
    };
    assert!(err.to_string().contains("/test"));
    assert_eq!(err.to_string(), "Failed to read file '/test': file not found");
}

#[test]
fn test_insufficient_privileges_error() {
    let err = CollectorError::InsufficientPrivileges;
    assert!(err.to_string().contains("Administrator"));
}

#[test]
fn test_resource_not_found_error() {
    let err = CollectorError::ResourceNotFound("MFT".to_string());
    assert!(err.to_string().contains("MFT"));
}

#[test]
fn test_error_messages() {
    let p = || "p".to_string();
    let r = || "r".to_string();
    let cases: Vec<(CollectorError, &str)> = vec![
        (CollectorError::FileRead { path: p(), reason: r() }, "Failed to read file 'p': r"),
        (CollectorError::FileWrite { path: p(), reason: r() }, "Failed to write file 'p': r"),
        (CollectorError::DirectoryCreate { path: p(), reason: r() }, "Failed to create directory 'p': r"),
        (CollectorError::PathNotFound(p()), "Path does not exist: p"),
        (CollectorError::Io(r()), "I/O error: r"),
        (CollectorError::InsufficientPrivileges, "Administrator/root privileges required"),
        (CollectorError::NtfsExtraction { path: p(), reason: r() }, "NTFS extraction failed for 'p': r"),
        (CollectorError::InvalidDriveLetter(p()), "Invalid drive letter: p"),
        (CollectorError::NtfsError(r()), "NTFS error: r"),
        (CollectorError::SectorReaderError(r()), "Sector reader error: r"),
        (CollectorError::VssOperation(r()), "VSS operation failed: r"),
        (CollectorError::NoVssSnapshots(p()), "No VSS snapshots found for drive 'p'"),
        (CollectorError::VssComInit(r()), "VSS COM initialization failed: r"),
        (CollectorError::VssMountFailed(r()), "Failed to mount VSS snapshot: r"),
        (CollectorError::ResourceParse { path: p(), reason: r() }, "Failed to parse resource 'p': r"),
        (CollectorError::ResourceNotFound(p()), "Resource not found: 'p'"),
        (CollectorError::InvalidResource { name: p(), reason: r() }, "Invalid resource 'p': r"),
        (CollectorError::ResourcesDirectoryNotFound(p()), "Resources directory not found: p"),
        (CollectorError::NoResourcesSpecified, "No resources specified"),
        (CollectorError::ZipError(r()), "ZIP operation failed: r"),
        (CollectorError::ZipCreation { path: p(), reason: r() }, "Failed to create ZIP 'p': r"),
        (CollectorError::CsvError(r()), "CSV error: r"),
        (CollectorError::InvalidPattern { pattern: p(), reason: r() }, "Invalid pattern 'p': r"),
        (CollectorError::GlobError(r()), "Glob error: r"),
        (CollectorError::PatternError(r()), "Pattern error: r"),
        (CollectorError::Config(r()), "Configuration error: r"),
        (CollectorError::InvalidSourcePath(p()), "Invalid source path: p"),
        (CollectorError::InvalidDestinationPath(p()), "Invalid destination path: p"),
        (CollectorError::CollectionFailed(r()), "Collection failed: r"),
        (CollectorError::NoFilesMatched, "No files matched patterns"),
        (
            CollectorError::ExtractionFailed { source_path: p(), destination: "d".to_string(), reason: r() },
            "Failed to extract 'p' to 'd': r",
        ),
    ];
    for (error, expected) in cases {
        assert_eq!(error.to_string(), expected);
    }
}
