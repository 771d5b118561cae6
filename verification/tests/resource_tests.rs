use collector_core::error::CollectorError;
use collector_core::resource::file_struct::{Artifact, Metadata, Target, YamlArtifact};
use collector_core::resource::parser::{
    load_documents, normalize_artifact_path, validate_artifact, ResourcesParser,
};

fn create_test_artifact(
    name: &str,
    paths: Option<Vec<&str>>,
    group: Option<Vec<&str>>,
) -> YamlArtifact {
    YamlArtifact {
        metadata: Metadata {
            name: name.to_string(),
            description: format!("Test artifact {}", name),
            date: None,
            category: Some("Test".to_string()),
            target: Target::current(),
            source: None,
        },
        artifact: Artifact {
            path: paths.map(|p| p.iter().map(|s| s.to_string()).collect()),
            group: group.map(|g| g.iter().map(|s| s.to_string()).collect()),
        },
    }
}

fn parser() -> ResourcesParser {
    ResourcesParser::new(".", true).unwrap()
}

fn names(list: &[&str]) -> Vec<String> {
    list.iter().map(|s| s.to_string()).collect()
}

#[test]
fn test_target_matches_current_os() {
    let current = Target::current();
    assert!(current.matches_current_os());
}

#[test]
fn test_target_display() {
    assert_eq!(Target::Linux.to_string(), "Linux");
    assert_eq!(Target::Windows.to_string(), "Windows");
}

#[test]
fn test_metadata_category_or_default() {
    let with_category = Metadata {
        name: "Test".to_string(),
        description: "Test".to_string(),
        date: None,
        category: Some("FileSystem".to_string()),
        target: Target::Windows,
        source: None,
    };
    assert_eq!(with_category.category_or_default(), "FileSystem");

    let without_category = Metadata {
        name: "Test".to_string(),
        description: "Test".to_string(),
        date: None,
        category: None,
        target: Target::Windows,
        source: None,
    };
    assert_eq!(without_category.category_or_default(), "Other");
}

#[test]
fn test_artifact_is_valid() {
    let path_artifact = Artifact::with_paths(vec!["test".to_string()]);
    assert!(path_artifact.is_valid());

    let group_artifact = Artifact::with_group(vec!["MFT".to_string()]);
    assert!(group_artifact.is_valid());

    let invalid_both = Artifact {
        path: Some(vec!["test".to_string()]),
        group: Some(vec!["MFT".to_string()]),
    };
    assert!(!invalid_both.is_valid());

    let invalid_none = Artifact::default();
    assert!(!invalid_none.is_valid());
}

#[test]
fn test_yaml_artifact_helpers() {
    let path_artifact = YamlArtifact {
        metadata: Metadata {
            name: "Test".to_string(),
            description: "Test".to_string(),
            date: None,
            category: None,
            target: Target::Windows,
            source: None,
        },
        artifact: Artifact::with_paths(vec!["path1".to_string()]),
    };

    assert!(path_artifact.has_paths());
    assert!(!path_artifact.is_group());
    assert_eq!(path_artifact.paths().unwrap().len(), 1);
}

#[test]
fn test_yaml_artifact_group_helpers() {
    let group_artifact = create_test_artifact("NTFS", None, Some(vec!["MFT", "USN"]));
    assert!(group_artifact.is_group());
    assert!(!group_artifact.has_paths());
    assert!(group_artifact.paths().is_none());
    assert_eq!(group_artifact.groups().unwrap(), &names(&["MFT", "USN"]));
}

#[test]
fn test_target_matches_host() {
    assert!(Target::Linux.matches(Target::Linux));
    assert!(Target::Windows.matches(Target::Windows));
    assert!(!Target::Linux.matches(Target::Windows));
    assert!(!Target::Windows.matches(Target::Linux));
    assert_eq!(Target::of_separator('\\'), Target::Windows);
    assert_eq!(Target::of_separator('/'), Target::Linux);
}

#[test]
fn test_normalize_artifact_path() {
    assert_eq!(
        normalize_artifact_path("\\Windows\\System32"),
        "Windows\\System32"
    );
    assert_eq!(normalize_artifact_path("/home/user"), "home/user");
    assert_eq!(normalize_artifact_path("\\\\path"), "path");
    assert_eq!(normalize_artifact_path("normal/path"), "normal/path");
}

#[test]
fn test_normalize_artifact_path_mixed_separators() {
    assert_eq!(normalize_artifact_path("/\\/\\x/y"), "x/y");
    assert_eq!(normalize_artifact_path("\\/"), "");
    assert_eq!(normalize_artifact_path(""), "");
    assert_eq!(normalize_artifact_path("C:\\x"), "C:\\x");
}

#[test]
fn test_validate_artifact_valid_path() {
    let artifact = create_test_artifact("Test", Some(vec!["path1"]), None);
    assert!(validate_artifact(&artifact).is_ok());
}

#[test]
fn test_validate_artifact_valid_group() {
    let artifact = create_test_artifact("Test", None, Some(vec!["Other"]));
    assert!(validate_artifact(&artifact).is_ok());
}

#[test]
fn test_validate_artifact_invalid_both() {
    let artifact = create_test_artifact("Test", Some(vec!["path"]), Some(vec!["group"]));
    assert!(validate_artifact(&artifact).is_err());
}

#[test]
fn test_validate_artifact_invalid_none() {
    let artifact = create_test_artifact("Test", None, None);
    assert!(validate_artifact(&artifact).is_err());
}

#[test]
fn test_validate_artifact_reasons() {
    let both = create_test_artifact("Both", Some(vec!["path"]), Some(vec!["group"]));
    match validate_artifact(&both) {
        Err(CollectorError::InvalidResource { name, reason }) => {
            assert_eq!(name, "Both");
            assert_eq!(reason, "both 'path' and 'group' defined");
        }
        _ => panic!("Expected InvalidResource error"),
    }
    let neither = create_test_artifact("Neither", None, None);
    match validate_artifact(&neither) {
        Err(CollectorError::InvalidResource { name, reason }) => {
            assert_eq!(name, "Neither");
            assert_eq!(reason, "neither 'path' nor 'group' defined");
        }
        _ => panic!("Expected InvalidResource error"),
    }
}

#[test]
fn test_select_artifact_simple() {
    let artifacts = vec![
        create_test_artifact("MFT", Some(vec!["\\$MFT"]), None),
        create_test_artifact("Prefetch", Some(vec!["\\Windows\\Prefetch\\*"]), None),
    ];

    let mut parser = parser();

    let result = parser.select_artifact(vec!["MFT".to_string()], &artifacts);
    assert!(result.is_ok());

    let patterns = result.unwrap();
    assert_eq!(patterns.len(), 1);
    assert_eq!(patterns[0], "$MFT");
}

#[test]
fn test_select_artifact_group() {
    let artifacts = vec![
        create_test_artifact("MFT", Some(vec!["\\$MFT"]), None),
        create_test_artifact("USN", Some(vec!["\\$Extend\\$UsnJrnl"]), None),
        create_test_artifact("NTFS", None, Some(vec!["MFT", "USN"])),
    ];

    let mut parser = parser();

    let result = parser.select_artifact(vec!["NTFS".to_string()], &artifacts);
    assert!(result.is_ok());

    let patterns = result.unwrap();
    assert_eq!(patterns.len(), 2);
    assert!(patterns.contains(&"$MFT".to_string()));
    assert!(patterns.contains(&"$Extend\\$UsnJrnl".to_string()));
}

#[test]
fn test_select_artifact_group_order() {
    let artifacts = vec![
        create_test_artifact("MFT", Some(vec!["\\$MFT"]), None),
        create_test_artifact("USN", Some(vec!["\\$Extend\\$UsnJrnl"]), None),
        create_test_artifact("NTFS", None, Some(vec!["MFT", "USN"])),
    ];
    let mut parser = parser();
    let patterns = parser.select_artifact(names(&["NTFS"]), &artifacts).unwrap();
    assert_eq!(patterns, names(&["$MFT", "$Extend\\$UsnJrnl"]));
}

#[test]
fn test_select_artifact_deduplicates() {
    let artifacts = vec![
        create_test_artifact("MFT", Some(vec!["\\$MFT"]), None),
        create_test_artifact("USN", Some(vec!["\\$Extend\\$UsnJrnl"]), None),
        create_test_artifact("First", None, Some(vec!["MFT", "USN"])),
        create_test_artifact("Second", None, Some(vec!["USN", "MFT"])),
        create_test_artifact("Again", Some(vec!["/$MFT", "$MFT", "\\\\$LogFile"]), None),
    ];
    let mut parser = parser();
    let patterns = parser
        .select_artifact(names(&["Second", "First", "Again"]), &artifacts)
        .unwrap();
    assert_eq!(
        patterns,
        names(&["$Extend\\$UsnJrnl", "$MFT", "$LogFile"])
    );
}

#[test]
fn test_select_artifact_cycle_terminates() {
    let artifacts = vec![
        create_test_artifact("A", None, Some(vec!["B", "Leaf"])),
        create_test_artifact("B", None, Some(vec!["C"])),
        create_test_artifact("C", None, Some(vec!["A", "Other"])),
        create_test_artifact("Leaf", Some(vec!["/leaf"]), None),
        create_test_artifact("Other", Some(vec!["/other"]), None),
        create_test_artifact("Self", None, Some(vec!["Self"])),
    ];
    let mut parser = parser();
    let patterns = parser.select_artifact(names(&["A", "Self"]), &artifacts).unwrap();
    assert_eq!(patterns, names(&["other", "leaf"]));
}

#[test]
fn test_select_artifact_depth_first_order() {
    let artifacts = vec![
        create_test_artifact("Root", None, Some(vec!["Left", "Right"])),
        create_test_artifact("Left", None, Some(vec!["L1", "L2"])),
        create_test_artifact("Right", Some(vec!["r"]), None),
        create_test_artifact("L1", Some(vec!["l1a", "l1b"]), None),
        create_test_artifact("L2", Some(vec!["l2"]), None),
    ];
    let mut parser = parser();
    let patterns = parser.select_artifact(names(&["Root", "L2"]), &artifacts).unwrap();
    assert_eq!(patterns, names(&["l1a", "l1b", "l2", "r"]));
}

#[test]
fn test_select_artifact_starts_afresh() {
    let artifacts = vec![
        create_test_artifact("A", Some(vec!["a"]), None),
        create_test_artifact("B", Some(vec!["b"]), None),
    ];
    let mut parser = parser();
    assert_eq!(parser.select_artifact(names(&["A"]), &artifacts).unwrap(), names(&["a"]));
    assert_eq!(parser.select_artifact(names(&["B"]), &artifacts).unwrap(), names(&["b"]));
    assert_eq!(parser.select_artifact(names(&[]), &artifacts).unwrap(), names(&[]));
}

#[test]
fn test_select_artifact_first_entry_of_a_name_wins() {
    let artifacts = vec![
        create_test_artifact("A", Some(vec!["first"]), None),
        create_test_artifact("A", Some(vec!["second"]), None),
    ];
    let mut parser = parser();
    assert_eq!(parser.select_artifact(names(&["A"]), &artifacts).unwrap(), names(&["first"]));
}

#[test]
fn test_select_artifact_not_found() {
    let artifacts = vec![create_test_artifact("MFT", Some(vec!["\\$MFT"]), None)];

    let mut parser = parser();

    let result = parser.select_artifact(vec!["NonExistent".to_string()], &artifacts);
    assert!(result.is_err());

    match result.unwrap_err() {
        CollectorError::ResourceNotFound(name) => assert_eq!(name, "NonExistent"),
        _ => panic!("Expected ResourceNotFound error"),
    }
}

#[test]
fn test_select_artifact_missing_member() {
    let artifacts = vec![
        create_test_artifact("MFT", Some(vec!["\\$MFT"]), None),
        create_test_artifact("NTFS", None, Some(vec!["MFT", "Gone", "AlsoGone"])),
    ];
    let mut parser = parser();
    match parser.select_artifact(names(&["NTFS", "Nowhere"]), &artifacts) {
        Err(CollectorError::ResourceNotFound(name)) => assert_eq!(name, "Gone"),
        _ => panic!("Expected ResourceNotFound error"),
    }
}

#[test]
fn test_get_artifact_names() {
    let artifacts = vec![
        create_test_artifact("A", Some(vec!["a"]), None),
        create_test_artifact("B", Some(vec!["b"]), None),
    ];

    let names = ResourcesParser::get_artifact_names(&artifacts);
    assert_eq!(names, vec!["A", "B"]);
}

#[test]
fn test_get_targets_and_groups() {
    let artifacts = vec![
        create_test_artifact("A", Some(vec!["a"]), None),
        create_test_artifact("G", None, Some(vec!["A"])),
        create_test_artifact("B", Some(vec!["b"]), None),
    ];
    let targets = ResourcesParser::get_targets(&artifacts);
    assert_eq!(targets.len(), 2);
    assert_eq!(targets[0].metadata.name, "A");
    assert_eq!(targets[1].metadata.name, "B");
    let groups = ResourcesParser::get_groups(&artifacts);
    assert_eq!(groups.len(), 1);
    assert_eq!(groups[0].metadata.name, "G");
}

#[test]
fn test_parser_new() {
    let parser = ResourcesParser::new("./Resources/", true).unwrap();
    assert_eq!(parser.resource_path().to_string_lossy(), "./Resources/**/*.yaml");
    let parser = ResourcesParser::new("res", true).unwrap();
    assert_eq!(parser.resource_path().to_string_lossy(), "res/**/*.yaml");
    let parser = ResourcesParser::with_default_path(true).unwrap();
    assert_eq!(parser.resource_path().to_string_lossy(), "./Resources/**/*.yaml");
}

#[test]
fn test_parser_missing_directory() {
    match ResourcesParser::new("/no/such/dir", false) {
        Err(CollectorError::ResourcesDirectoryNotFound(path)) => assert_eq!(path, "/no/such/dir"),
        _ => panic!("Expected ResourcesDirectoryNotFound error"),
    }
    assert!(ResourcesParser::with_default_path(false).is_err());
}

#[test]
fn test_load_documents_skips_invalid_and_foreign() {
    let mut foreign = create_test_artifact("Foreign", Some(vec!["f"]), None);
    foreign.metadata.target = Target::Windows;
    let mut foreign_invalid = create_test_artifact("ForeignInvalid", None, None);
    foreign_invalid.metadata.target = Target::Windows;
    let mut documents = vec![
        create_test_artifact("A", Some(vec!["a"]), None),
        create_test_artifact("Both", Some(vec!["p"]), Some(vec!["g"])),
        foreign,
        create_test_artifact("G", None, Some(vec!["A"])),
        create_test_artifact("Neither", None, None),
        foreign_invalid,
    ];
    for document in documents.iter_mut() {
        if document.metadata.name != "Foreign" && document.metadata.name != "ForeignInvalid" {
            document.metadata.target = Target::Linux;
        }
    }
    let load = load_documents(documents, Target::Linux);
    let kept: Vec<&str> = load.artifacts.iter().map(|a| a.metadata.name.as_str()).collect();
    assert_eq!(kept, vec!["A", "G"]);
    assert_eq!(load.rejected.len(), 2);
    match &load.rejected[0] {
        CollectorError::InvalidResource { name, reason } => {
            assert_eq!(name, "Both");
            assert_eq!(reason, "both 'path' and 'group' defined");
        }
        _ => panic!("Expected InvalidResource error"),
    }
    match &load.rejected[1] {
        CollectorError::InvalidResource { name, reason } => {
            assert_eq!(name, "Neither");
            assert_eq!(reason, "neither 'path' nor 'group' defined");
        }
        _ => panic!("Expected InvalidResource error"),
    }
}

#[test]
fn test_get_by_category() {
    let mut artifacts = vec![
        create_test_artifact("A", Some(vec!["a"]), None),
        create_test_artifact("B", Some(vec!["b"]), None),
    ];
    artifacts[0].metadata.category = Some("Cat1".to_string());
    artifacts[1].metadata.category = Some("Cat2".to_string());

    let categories = ResourcesParser::get_by_category(&artifacts);
    assert!(categories.contains_key("Cat1"));
    assert!(categories.contains_key("Cat2"));
}

#[test]
fn test_get_by_category_groups_in_order() {
    let mut artifacts = vec![
        create_test_artifact("A", Some(vec!["a"]), None),
        create_test_artifact("B", Some(vec!["b"]), None),
        create_test_artifact("C", None, Some(vec!["A"])),
        create_test_artifact("D", Some(vec!["d"]), None),
        create_test_artifact("E", Some(vec!["e"]), None),
    ];
    artifacts[0].metadata.category = Some("Logs".to_string());
    artifacts[1].metadata.category = None;
    artifacts[2].metadata.category = Some("Logs".to_string());
    artifacts[3].metadata.category = Some("Other".to_string());
    artifacts[4].metadata.category = Some("Logs".to_string());

    let categories = ResourcesParser::get_by_category(&artifacts);
    assert_eq!(categories.keys(), vec!["Logs", "Other"]);
    assert_eq!(categories.get("Logs").unwrap(), &names(&["A", "C", "E"]));
    assert_eq!(categories.get("Other").unwrap(), &names(&["B", "D"]));
    assert!(categories.get("logs").is_none());
    assert!(!categories.contains_key("Test"));
    assert!(ResourcesParser::get_by_category(&[]).keys().is_empty());
}
