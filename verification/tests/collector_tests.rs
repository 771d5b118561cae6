use collector_core::error::CollectorError;
use collector_core::mount::vss::VssSnapshot;
use collector_core::platform::collector::{
    ArtifactCollector, CollectionStats, FileAction, FileEvent, FilePlan, FileState,
};
use collector_core::platform::vss_collector::VssCollector;

fn run(events: &[FileEvent], raw_reader: bool) -> (FileState, Vec<FileAction>) {
    let mut state = FileState::start();
    let mut actions = vec![state.action()];
    for event in events {
        state = state.next(*event, raw_reader);
        actions.push(state.action());
    }
    (state, actions)
}

fn rows(actions: &[FileAction]) -> usize {
    actions
        .iter()
        .filter(|a| matches!(a, FileAction::WriteRow { .. }))
        .count()
}

#[test]
fn test_collection_stats_default() {
    let stats = CollectionStats::default();
    assert_eq!(stats.files_collected, 0);
    assert_eq!(stats.bytes_collected, 0);
}

#[test]
fn test_collection_stats_merge() {
    let mut stats1 = CollectionStats {
        files_collected: 10,
        bytes_collected: 1000,
        ..Default::default()
    };

    let stats2 = CollectionStats {
        files_collected: 5,
        bytes_collected: 500,
        ntfs_extractions: 3,
        ..Default::default()
    };

    stats1.merge(&stats2);

    assert_eq!(stats1.files_collected, 15);
    assert_eq!(stats1.bytes_collected, 1500);
    assert_eq!(stats1.ntfs_extractions, 3);
}

#[test]
fn test_collection_stats_merge_every_counter() {
    let mut a = CollectionStats {
        files_collected: 1,
        bytes_collected: 2,
        filesystem_extractions: 3,
        ntfs_extractions: 4,
        failed_extractions: 5,
        patterns_processed: 6,
    };
    let b = CollectionStats {
        files_collected: 10,
        bytes_collected: 20,
        filesystem_extractions: 30,
        ntfs_extractions: 40,
        failed_extractions: 50,
        patterns_processed: 60,
    };
    a.merge(&b);
    assert_eq!(a.files_collected, 11);
    assert_eq!(a.bytes_collected, 22);
    assert_eq!(a.filesystem_extractions, 33);
    assert_eq!(a.ntfs_extractions, 44);
    assert_eq!(a.failed_extractions, 55);
    assert_eq!(a.patterns_processed, 66);
}

#[test]
fn test_file_collected_through_filesystem() {
    let (state, actions) = run(
        &[
            FileEvent::Done { bytes: 0 },
            FileEvent::Done { bytes: 5 },
            FileEvent::Done { bytes: 0 },
        ],
        true,
    );
    assert_eq!(state, FileState::Collected { bytes: 5, from_ntfs: false });
    assert_eq!(
        actions,
        vec![
            FileAction::CreateDestination,
            FileAction::ReadFilesystem,
            FileAction::WriteRow { from_ntfs: false, restore_times: false },
            FileAction::Stop,
        ]
    );
    assert!(state.is_settled());
    let mut stats = CollectionStats::default();
    stats.record(state);
    assert_eq!(stats.files_collected, 1);
    assert_eq!(stats.bytes_collected, 5);
    assert_eq!(stats.filesystem_extractions, 1);
    assert_eq!(stats.ntfs_extractions, 0);
    assert_eq!(stats.failed_extractions, 0);
}

#[test]
fn test_file_falls_back_to_raw_volume() {
    let (state, actions) = run(
        &[
            FileEvent::Done { bytes: 0 },
            FileEvent::Failed,
            FileEvent::Done { bytes: 4096 },
            FileEvent::Done { bytes: 0 },
        ],
        true,
    );
    assert_eq!(state, FileState::Collected { bytes: 4096, from_ntfs: true });
    assert_eq!(
        actions,
        vec![
            FileAction::CreateDestination,
            FileAction::ReadFilesystem,
            FileAction::ReadVolume,
            FileAction::WriteRow { from_ntfs: true, restore_times: true },
            FileAction::Stop,
        ]
    );
    assert_eq!(rows(&actions), 1);
    let mut stats = CollectionStats::default();
    stats.record(state);
    assert_eq!(stats.files_collected, 1);
    assert_eq!(stats.bytes_collected, 4096);
    assert_eq!(stats.ntfs_extractions, 1);
    assert_eq!(stats.filesystem_extractions, 0);
    assert_eq!(stats.failed_extractions, 0);
}

#[test]
fn test_file_fails_without_raw_reader() {
    let (state, actions) = run(&[FileEvent::Done { bytes: 0 }, FileEvent::Failed], false);
    assert_eq!(state, FileState::Failed);
    assert_eq!(
        actions,
        vec![FileAction::CreateDestination, FileAction::ReadFilesystem, FileAction::Stop]
    );
    assert_eq!(rows(&actions), 0);
    let mut stats = CollectionStats::default();
    stats.record(state);
    assert_eq!(stats.failed_extractions, 1);
    assert_eq!(stats.files_collected, 0);
    assert_eq!(stats.filesystem_extractions, 0);
    assert_eq!(stats.ntfs_extractions, 0);
}

#[test]
fn test_file_failure_points() {
    assert_eq!(run(&[FileEvent::Failed], true).0, FileState::Failed);
    assert_eq!(
        run(&[FileEvent::Done { bytes: 0 }, FileEvent::Failed, FileEvent::Failed], true).0,
        FileState::Failed
    );
    let (state, actions) = run(
        &[FileEvent::Done { bytes: 0 }, FileEvent::Done { bytes: 9 }, FileEvent::Failed],
        true,
    );
    assert_eq!(state, FileState::Failed);
    assert_eq!(rows(&actions), 1);
    let (state, actions) = run(
        &[
            FileEvent::Done { bytes: 0 },
            FileEvent::Done { bytes: 9 },
            FileEvent::Done { bytes: 0 },
            FileEvent::Failed,
            FileEvent::Done { bytes: 77 },
        ],
        true,
    );
    assert_eq!(state, FileState::Collected { bytes: 9, from_ntfs: false });
    assert_eq!(rows(&actions), 1);
}

#[test]
fn test_record_ignores_unsettled_states() {
    let mut stats = CollectionStats::default();
    stats.record(FileState::Creating);
    stats.record(FileState::ReadingFilesystem);
    stats.record(FileState::ReadingVolume);
    stats.record(FileState::Logging { bytes: 3, from_ntfs: true });
    assert_eq!(stats.files_collected, 0);
    assert_eq!(stats.bytes_collected, 0);
    assert_eq!(stats.failed_extractions, 0);
    assert!(!FileState::Creating.is_settled());
}

#[test]
fn test_artifact_collector_new() {
    let collector = ArtifactCollector::new("/s", "/d", vec!["*.txt".to_string()]);
    assert!(collector.is_ok());
    let collector = collector.unwrap();
    assert_eq!(collector.stats().files_collected, 0);
    assert_eq!(collector.writer().base_destination().to_string_lossy(), "/d");
}

#[test]
fn test_search_patterns() {
    let collector = ArtifactCollector::new(
        "/s",
        "/d",
        vec!["\\$MFT".to_string(), "/\\a/*.txt".to_string(), "b/**".to_string()],
    )
    .unwrap();
    assert_eq!(collector.search_patterns(), vec!["/s/$MFT", "/s/a/*.txt", "/s/b/**"]);
}

#[test]
fn test_plan_refuses_unprivileged() {
    let collector = ArtifactCollector::new("/s", "/d", Vec::new()).unwrap();
    let files = vec!["/s/a/b/c.txt".to_string()];
    assert!(matches!(
        collector.plan_collection(false, &files),
        Err(CollectorError::InsufficientPrivileges)
    ));
}

#[test]
fn test_plan_round_trip_copy() {
    let collector = ArtifactCollector::new("/s", "/d", Vec::new()).unwrap();
    let host = collector.writer().hostname().to_string();
    let files = vec!["/s/a/b/c.txt".to_string(), "/s/x".to_string()];
    let plans = collector.plan_collection(true, &files).unwrap();
    assert_eq!(plans.len(), 2);
    assert_eq!(plans[0].current, 1);
    assert_eq!(plans[0].total, 2);
    assert_eq!(plans[0].source, "/s/a/b/c.txt");
    assert_eq!(plans[0].relative, "/s/a/b/c.txt");
    assert_eq!(plans[0].destination, format!("/d/Collector_{}/s/a/b/c.txt", host));
    assert_eq!(plans[1].current, 2);
    assert_eq!(plans[1].destination, format!("/d/Collector_{}/s/x", host));
}

#[test]
fn test_plan_through_snapshot() {
    let snapshot = VssSnapshot {
        original_volume_name: "\\\\?\\Volume{guid}\\".to_string(),
        device_volume_name: "\\\\?\\GLOBALROOT\\Device\\HarddiskVolumeShadowCopy1".to_string(),
    };
    let collector = ArtifactCollector::new("/tmp/w/HarddiskVolumeShadowCopy1", "/d", Vec::new())
        .unwrap()
        .with_vss_snapshot(snapshot);
    assert_eq!(
        collector.get_relative_path("/tmp/w/HarddiskVolumeShadowCopy1/Windows/x.evtx"),
        "HarddiskVolumeShadowCopy1/Windows/x.evtx"
    );
    assert_eq!(collector.get_relative_path("/elsewhere/x"), "/elsewhere/x");
    let host = collector.writer().hostname().to_string();
    let files = vec!["/tmp/w/HarddiskVolumeShadowCopy1/Windows/x.evtx".to_string()];
    let plans = collector.plan_collection(true, &files).unwrap();
    assert_eq!(
        plans[0].destination,
        format!("/d/Collector_{}/HarddiskVolumeShadowCopy1/Windows/x.evtx", host)
    );
}

#[test]
fn test_settle_counts() {
    let mut collector = ArtifactCollector::new("/s", "/d", Vec::new()).unwrap();
    collector.settle(FileState::Collected { bytes: 5, from_ntfs: false });
    collector.settle(FileState::Collected { bytes: 7, from_ntfs: true });
    collector.settle(FileState::Failed);
    let stats = collector.stats();
    assert_eq!(stats.files_collected, 2);
    assert_eq!(stats.bytes_collected, 12);
    assert_eq!(stats.filesystem_extractions, 1);
    assert_eq!(stats.ntfs_extractions, 1);
    assert_eq!(stats.failed_extractions, 1);
    assert_eq!(stats.patterns_processed, 0);
}

#[test]
fn test_manifest_row() {
    let plan = FilePlan {
        current: 1,
        total: 1,
        source: "/s/a/b/c.txt".to_string(),
        relative: "/s/a/b/c.txt".to_string(),
        destination: "/d/Collector_H/s/a/b/c.txt".to_string(),
    };
    let row = ArtifactCollector::manifest_row(
        &plan,
        "aaf4c61ddcc5e8a2dabede0f3b482cd9aea9434d".to_string(),
        false,
        "1700000000.000000000s".to_string(),
        "1700000001.000000000s".to_string(),
        5,
    );
    assert_eq!(row.source_file, "/s/a/b/c.txt");
    assert_eq!(row.destination_file, "/d/Collector_H/s/a/b/c.txt");
    assert_eq!(row.hash_sha1, "aaf4c61ddcc5e8a2dabede0f3b482cd9aea9434d");
    assert!(!row.from_ntfs);
    assert_eq!(row.modified_time, "1700000000.000000000s");
    assert_eq!(row.access_time, "1700000001.000000000s");
    assert_eq!(row.file_size, 5);
    assert!(!row.collect_time.is_empty());
}

#[test]
fn test_vss_collector() {
    let mut collector = VssCollector::new("C:\\", "/d", vec!["*.evtx".to_string()]);
    assert_eq!(collector.drive_letter(), "C:\\");
    assert_eq!(collector.temp_dir(), None);
    let named = collector.open_workspace_named("/tmp", "work");
    assert_eq!(named, "/tmp/work");
    assert_eq!(collector.temp_dir(), Some("/tmp/work"));
    let fresh = collector.open_workspace("/tmp");
    assert!(fresh.starts_with("/tmp/"));
    assert_eq!(fresh.len(), "/tmp/".len() + 36);
    assert_eq!(collector.temp_dir(), Some(fresh.as_str()));
    let other = collector.open_workspace("/tmp");
    assert_ne!(fresh, other);

    let snapshot = VssSnapshot {
        original_volume_name: "\\\\?\\Volume{guid}\\".to_string(),
        device_volume_name: "\\\\?\\GLOBALROOT\\Device\\HarddiskVolumeShadowCopy1".to_string(),
    };
    assert!(collector.collector_for(&snapshot, "/tmp/work/x", false).unwrap().is_none());
    let inner = collector.collector_for(&snapshot, "/tmp/work/x", true).unwrap().unwrap();
    assert_eq!(inner.search_patterns(), vec!["/tmp/work/x/*.evtx"]);
    assert_eq!(inner.get_relative_path("/tmp/work/x/a"), "HarddiskVolumeShadowCopy1/a");
}

#[test]
fn test_vss_collector_absorb() {
    let mut combined = CollectionStats::default();
    let one = CollectionStats { files_collected: 2, bytes_collected: 10, ..Default::default() };
    VssCollector::absorb(&mut combined, &Ok(one));
    VssCollector::absorb(&mut combined, &Err(CollectorError::VssMountFailed("x".to_string())));
    VssCollector::absorb(&mut combined, &Ok(one));
    assert_eq!(combined.files_collected, 4);
    assert_eq!(combined.bytes_collected, 20);
}
