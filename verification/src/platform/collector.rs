//! Collection of the files that a set of patterns matches.

use vstd::prelude::*;
use crate::csv::{is_stamp, CsvLogItem};
use crate::error::CollectorError;
use crate::mount::vss::VssSnapshot;
use crate::text::{
    join_path, join_paths, replace_path_prefix, replace_prefix, strip_leading_separators,
    strip_separators, texts,
};
use crate::utils::{normalized, require_admin, FormatSource};
use crate::writer::{staging_folder, Writer};

verus! {

/// Counters of one collection.
#[derive(Debug, Clone, Copy)]
pub struct CollectionStats {
    pub files_collected: u64,
    pub bytes_collected: u64,
    pub filesystem_extractions: u64,
    pub ntfs_extractions: u64,
    pub failed_extractions: u64,
    pub patterns_processed: u64,
}

impl Default for CollectionStats {
    fn default() -> (r: Self)
        ensures
            r == CollectionStats::zero(),
    {
        CollectionStats {
            files_collected: 0,
            bytes_collected: 0,
            filesystem_extractions: 0,
            ntfs_extractions: 0,
            failed_extractions: 0,
            patterns_processed: 0,
        }
    }
}

impl CollectionStats {
    /// Counters that have counted nothing.
    pub open spec fn zero() -> CollectionStats {
        CollectionStats {
            files_collected: 0,
            bytes_collected: 0,
            filesystem_extractions: 0,
            ntfs_extractions: 0,
            failed_extractions: 0,
            patterns_processed: 0,
        }
    }

    /// Every sum of a counter of `self` and the same counter of `other`
    /// fits in 64 bits.
    pub open spec fn can_merge(self, other: CollectionStats) -> bool {
        &&& self.files_collected + other.files_collected <= u64::MAX
        &&& self.bytes_collected + other.bytes_collected <= u64::MAX
        &&& self.filesystem_extractions + other.filesystem_extractions <= u64::MAX
        &&& self.ntfs_extractions + other.ntfs_extractions <= u64::MAX
        &&& self.failed_extractions + other.failed_extractions <= u64::MAX
        &&& self.patterns_processed + other.patterns_processed <= u64::MAX
    }

    /// Counter by counter, the sum of `self` and `other`.
    pub open spec fn merged(self, other: CollectionStats) -> CollectionStats {
        CollectionStats {
            files_collected: (self.files_collected + other.files_collected) as u64,
            bytes_collected: (self.bytes_collected + other.bytes_collected) as u64,
            filesystem_extractions: (self.filesystem_extractions + other.filesystem_extractions) as u64,
            ntfs_extractions: (self.ntfs_extractions + other.ntfs_extractions) as u64,
            failed_extractions: (self.failed_extractions + other.failed_extractions) as u64,
            patterns_processed: (self.patterns_processed + other.patterns_processed) as u64,
        }
    }

    /// Whether every counter of `other` can be added to the same counter
    /// of `self`.
    pub fn fits(&self, other: &CollectionStats) -> (r: bool)
        ensures
            r == self.can_merge(*other),
    {
        other.files_collected <= u64::MAX - self.files_collected && other.bytes_collected
            <= u64::MAX - self.bytes_collected && other.filesystem_extractions <= u64::MAX
            - self.filesystem_extractions && other.ntfs_extractions <= u64::MAX
            - self.ntfs_extractions && other.failed_extractions <= u64::MAX
            - self.failed_extractions && other.patterns_processed <= u64::MAX
            - self.patterns_processed
    }

    /// Adds each counter of `other` to the same counter of `self`.
    pub fn merge(&mut self, other: &CollectionStats)
        requires
            old(self).can_merge(*other),
        ensures
            *final(self) == old(self).merged(*other),
    {
        self.files_collected += other.files_collected;
        self.bytes_collected += other.bytes_collected;
        self.filesystem_extractions += other.filesystem_extractions;
        self.ntfs_extractions += other.ntfs_extractions;
        self.failed_extractions += other.failed_extractions;
        self.patterns_processed += other.patterns_processed;
    }

    /// What the end of one file adds to the counters: a collected file
    /// counts once, with its bytes, under the way it was read; a failed
    /// file counts as failed; a file still under way counts nothing.
    pub open spec fn outcome_of(state: FileState) -> CollectionStats {
        match state {
            FileState::Collected { bytes, from_ntfs } => CollectionStats {
                files_collected: 1,
                bytes_collected: bytes,
                filesystem_extractions: if from_ntfs {
                    0
                } else {
                    1
                },
                ntfs_extractions: if from_ntfs {
                    1
                } else {
                    0
                },
                failed_extractions: 0,
                patterns_processed: 0,
            },
            FileState::Failed => CollectionStats {
                files_collected: 0,
                bytes_collected: 0,
                filesystem_extractions: 0,
                ntfs_extractions: 0,
                failed_extractions: 1,
                patterns_processed: 0,
            },
            _ => CollectionStats::zero(),
        }
    }

    /// What the end of one file adds to the counters.
    pub fn outcome(state: FileState) -> (r: CollectionStats)
        ensures
            r == CollectionStats::outcome_of(state),
    {
        match state {
            FileState::Collected { bytes, from_ntfs } => CollectionStats {
                files_collected: 1,
                bytes_collected: bytes,
                filesystem_extractions: if from_ntfs {
                    0
                } else {
                    1
                },
                ntfs_extractions: if from_ntfs {
                    1
                } else {
                    0
                },
                failed_extractions: 0,
                patterns_processed: 0,
            },
            FileState::Failed => CollectionStats {
                files_collected: 0,
                bytes_collected: 0,
                filesystem_extractions: 0,
                ntfs_extractions: 0,
                failed_extractions: 1,
                patterns_processed: 0,
            },
            _ => CollectionStats::default(),
        }
    }

    /// Counts the end of one file, as `outcome_of` says.
    pub fn record(&mut self, state: FileState)
        requires
            old(self).can_merge(CollectionStats::outcome_of(state)),
        ensures
            *final(self) == old(self).merged(CollectionStats::outcome_of(state)),
    {
        let outcome = CollectionStats::outcome(state);
        self.merge(&outcome);
    }
}

/// Where the acquisition of one file stands.
#[derive(Debug, Clone, Copy, PartialEq, Eq, Structural)]
pub enum FileState {
    /// The destination file is being created.
    Creating,
    /// The source is being copied through the file system.
    ReadingFilesystem,
    /// The source is being copied from the raw volume.
    ReadingVolume,
    /// The copy is there; its manifest row is being written.
    Logging { bytes: u64, from_ntfs: bool },
    /// The copy is there and its row is written.
    Collected { bytes: u64, from_ntfs: bool },
    /// The file could not be collected.
    Failed,
}

/// How the step that a state asked for ended.
#[derive(Debug, Clone, Copy, PartialEq, Eq, Structural)]
pub enum FileEvent {
    /// The step was done. For a copy, `bytes` is the number of bytes
    /// written.
    Done { bytes: u64 },
    /// The step failed.
    Failed,
}

/// What has to be done for a file in a given state.
#[derive(Debug, Clone, Copy, PartialEq, Eq, Structural)]
pub enum FileAction {
    /// Create the destination file and the directories above it.
    CreateDestination,
    /// Copy the source into the destination through the file system.
    ReadFilesystem,
    /// Copy the source into the destination from the raw volume.
    ReadVolume,
    /// Hash the copy and append its row to the manifest, after giving the
    /// copy the times of the source where `restore_times` is set.
    WriteRow { from_ntfs: bool, restore_times: bool },
    /// Nothing: the file is settled.
    Stop,
}

impl FileState {
    /// What the state asks for.
    pub open spec fn action_spec(self) -> FileAction {
        match self {
            FileState::Creating => FileAction::CreateDestination,
            FileState::ReadingFilesystem => FileAction::ReadFilesystem,
            FileState::ReadingVolume => FileAction::ReadVolume,
            FileState::Logging { bytes, from_ntfs } => FileAction::WriteRow {
                from_ntfs,
                restore_times: from_ntfs,
            },
            FileState::Collected { .. } => FileAction::Stop,
            FileState::Failed => FileAction::Stop,
        }
    }

    /// The state that follows when the step asked for ends as `event`
    /// says. `raw_reader` tells whether the host can read raw volumes. The
    /// raw volume is tried if and only if the file system failed and the
    /// host can read raw volumes; a row is asked for after either copy
    /// succeeded; a settled file stays as it is.
    pub open spec fn after(self, event: FileEvent, raw_reader: bool) -> FileState {
        match self {
            FileState::Creating => match event {
                FileEvent::Done { .. } => FileState::ReadingFilesystem,
                FileEvent::Failed => FileState::Failed,
            },
            FileState::ReadingFilesystem => match event {
                FileEvent::Done { bytes } => FileState::Logging { bytes, from_ntfs: false },
                FileEvent::Failed => if raw_reader {
                    FileState::ReadingVolume
                } else {
                    FileState::Failed
                },
            },
            FileState::ReadingVolume => match event {
                FileEvent::Done { bytes } => FileState::Logging { bytes, from_ntfs: true },
                FileEvent::Failed => FileState::Failed,
            },
            FileState::Logging { bytes, from_ntfs } => match event {
                FileEvent::Done { .. } => FileState::Collected { bytes, from_ntfs },
                FileEvent::Failed => FileState::Failed,
            },
            FileState::Collected { bytes, from_ntfs } => self,
            FileState::Failed => self,
        }
    }

    /// Whether nothing is left to do for the file.
    pub open spec fn settled(self) -> bool {
        self is Collected || self is Failed
    }

    /// The state every file starts in.
    pub fn start() -> (r: FileState)
        ensures
            r == FileState::Creating,
    {
        FileState::Creating
    }

    /// What has to be done next for the file.
    pub fn action(&self) -> (r: FileAction)
        ensures
            r == self.action_spec(),
    {
        match self {
            FileState::Creating => FileAction::CreateDestination,
            FileState::ReadingFilesystem => FileAction::ReadFilesystem,
            FileState::ReadingVolume => FileAction::ReadVolume,
            FileState::Logging { bytes, from_ntfs } => FileAction::WriteRow {
                from_ntfs: *from_ntfs,
                restore_times: *from_ntfs,
            },
            FileState::Collected { .. } => FileAction::Stop,
            FileState::Failed => FileAction::Stop,
        }
    }

    /// The state after the step asked for ended as `event` says.
    pub fn next(&self, event: FileEvent, raw_reader: bool) -> (r: FileState)
        ensures
            r == self.after(event, raw_reader),
    {
        match self {
            FileState::Creating => match event {
                FileEvent::Done { .. } => FileState::ReadingFilesystem,
                FileEvent::Failed => FileState::Failed,
            },
            FileState::ReadingFilesystem => match event {
                FileEvent::Done { bytes } => FileState::Logging { bytes, from_ntfs: false },
                FileEvent::Failed => if raw_reader {
                    FileState::ReadingVolume
                } else {
                    FileState::Failed
                },
            },
            FileState::ReadingVolume => match event {
                FileEvent::Done { bytes } => FileState::Logging { bytes, from_ntfs: true },
                FileEvent::Failed => FileState::Failed,
            },
            FileState::Logging { bytes, from_ntfs } => match event {
                FileEvent::Done { .. } => FileState::Collected { bytes: *bytes, from_ntfs: *from_ntfs },
                FileEvent::Failed => FileState::Failed,
            },
            FileState::Collected { bytes, from_ntfs } => *self,
            FileState::Failed => *self,
        }
    }

    /// Whether nothing is left to do for the file.
    pub fn is_settled(&self) -> (r: bool)
        ensures
            r == self.settled(),
    {
        match self {
            FileState::Collected { .. } => true,
            FileState::Failed => true,
            _ => false,
        }
    }
}

/// The states one file goes through when its steps end as `events` say,
/// from the first state on.
pub open spec fn states_of(events: Seq<FileEvent>, raw_reader: bool) -> Seq<FileState>
    decreases events.len(),
{
    if events.len() == 0 {
        seq![FileState::Creating]
    } else {
        let before = states_of(events.drop_last(), raw_reader);
        before.push(before.last().after(events.last(), raw_reader))
    }
}

/// How many of `states` ask for a manifest row.
pub open spec fn rows_asked(states: Seq<FileState>) -> nat {
    states.filter(|s: FileState| s is Logging).len()
}

/// How many of `states` ask for a read from the raw volume.
pub open spec fn volume_reads_asked(states: Seq<FileState>) -> nat {
    states.filter(|s: FileState| s is ReadingVolume).len()
}

/// Whatever happens to a file, a manifest row is asked for at most once and
/// the raw volume is read at most once; a file that ends collected had
/// exactly one row asked for, and was read from the raw volume exactly when
/// it is counted so; a file that has no row asked for yet is not collected.
pub proof fn lemma_one_row_per_file(events: Seq<FileEvent>, raw_reader: bool)
    ensures
        ({
            let states = states_of(events, raw_reader);
            &&& states.len() == events.len() + 1
            &&& rows_asked(states) <= 1
            &&& volume_reads_asked(states) <= 1
            &&& !raw_reader ==> volume_reads_asked(states) == 0
            &&& match states.last() {
                FileState::Creating => rows_asked(states) == 0 && volume_reads_asked(states) == 0,
                FileState::ReadingFilesystem => rows_asked(states) == 0 && volume_reads_asked(states)
                    == 0,
                FileState::ReadingVolume => rows_asked(states) == 0 && volume_reads_asked(states)
                    == 1,
                FileState::Logging { bytes, from_ntfs } => rows_asked(states) == 1 && (from_ntfs
                    <==> volume_reads_asked(states) == 1),
                FileState::Collected { bytes, from_ntfs } => rows_asked(states) == 1 && (from_ntfs
                    <==> volume_reads_asked(states) == 1),
                FileState::Failed => true,
            }
        }),
    decreases events.len(),
{
    let rows = |s: FileState| s is Logging;
    let reads = |s: FileState| s is ReadingVolume;
    if events.len() == 0 {
        let states = seq![FileState::Creating];
        assert(states =~= Seq::<FileState>::empty().push(FileState::Creating));
        Seq::<FileState>::empty().lemma_filter_push(FileState::Creating, rows);
        Seq::<FileState>::empty().lemma_filter_push(FileState::Creating, reads);
        assert(Seq::<FileState>::empty().filter(rows).len() == 0) by {
            Seq::<FileState>::empty().lemma_filter_len(rows);
        }
        assert(Seq::<FileState>::empty().filter(reads).len() == 0) by {
            Seq::<FileState>::empty().lemma_filter_len(reads);
        }
    } else {
        lemma_one_row_per_file(events.drop_last(), raw_reader);
        let before = states_of(events.drop_last(), raw_reader);
        let next = before.last().after(events.last(), raw_reader);
        before.lemma_filter_push(next, rows);
        before.lemma_filter_push(next, reads);
    }
}

/// For every file that ends collected, exactly one of the two extraction
/// counters goes up by one, the other stays, one file is counted, and
/// exactly one manifest row was asked for.
pub proof fn lemma_collected_counts_once(
    events: Seq<FileEvent>,
    raw_reader: bool,
    stats: CollectionStats,
)
    requires
        states_of(events, raw_reader).last() is Collected,
        stats.can_merge(CollectionStats::outcome_of(states_of(events, raw_reader).last())),
    ensures
        ({
            let end = states_of(events, raw_reader).last();
            let counted = stats.merged(CollectionStats::outcome_of(end));
            &&& rows_asked(states_of(events, raw_reader)) == 1
            &&& counted.files_collected == stats.files_collected + 1
            &&& counted.failed_extractions == stats.failed_extractions
            &&& counted.filesystem_extractions + counted.ntfs_extractions
                == stats.filesystem_extractions + stats.ntfs_extractions + 1
            &&& (counted.ntfs_extractions == stats.ntfs_extractions + 1) != (
            counted.filesystem_extractions == stats.filesystem_extractions + 1)
            &&& (counted.ntfs_extractions == stats.ntfs_extractions + 1) <==> volume_reads_asked(
                states_of(events, raw_reader),
            ) == 1
        }),
{
    lemma_one_row_per_file(events, raw_reader);
}

/// What is to be done for one matched file.
#[derive(Debug, Clone)]
pub struct FilePlan {
    /// The position of the file in the collection, counted from 1.
    pub current: u64,
    /// How many files the collection holds.
    pub total: u64,
    /// The file to read.
    pub source: String,
    /// The path of the copy, before it is normalised and put below the
    /// staging directory.
    pub relative: String,
    /// The file to write.
    pub destination: String,
}

/// Collects the files matched by a set of patterns below one source root.
pub struct ArtifactCollector {
    source_directory: FormatSource,
    artifact_patterns: Vec<String>,
    writer: Writer,
    stats: CollectionStats,
    vss_snapshot: Option<VssSnapshot>,
}

impl ArtifactCollector {
    /// The source root.
    pub closed spec fn source(&self) -> Seq<char> {
        self.source_directory@
    }

    /// The patterns to collect, as they were given.
    pub closed spec fn patterns(&self) -> Seq<Seq<char>> {
        texts(self.artifact_patterns@)
    }

    /// The stager the copies are placed by.
    pub closed spec fn stager(&self) -> Writer {
        self.writer
    }

    /// The staging directory.
    pub open spec fn staging(&self) -> Seq<char> {
        self.stager().staging()
    }

    /// The counters so far.
    pub closed spec fn counted(&self) -> CollectionStats {
        self.stats
    }

    /// The shadow copy the source root is a mount of, if it is one.
    pub closed spec fn snapshot(&self) -> Option<VssSnapshot> {
        self.vss_snapshot
    }

    /// The path a file of the source is staged under, before it is
    /// normalised: its own path, with the source root exchanged for the
    /// identifier of the shadow copy where the source is one.
    pub open spec fn relative_of(&self, source_path: Seq<char>) -> Seq<char> {
        match self.snapshot() {
            Some(snapshot) => replace_prefix(source_path, self.source(), snapshot.id()),
            None => source_path,
        }
    }

    /// Where a file of the source is staged.
    pub open spec fn destination_of(&self, source_path: Seq<char>) -> Seq<char> {
        join_path(self.staging(), normalized(self.relative_of(source_path)))
    }

    /// What is planned for the file at `source_path`, the `index`-th of
    /// `total`, counted from 0.
    pub open spec fn planned(&self, plan: FilePlan, source_path: Seq<char>, index: int, total: int) -> bool {
        &&& plan.current == index + 1
        &&& plan.total == total
        &&& plan.source@ == source_path
        &&& plan.relative@ == self.relative_of(source_path)
        &&& plan.destination@ == self.destination_of(source_path)
    }

    /// A collector of `patterns` below `source`, staging into the directory
    /// of this host below `destination`. It has counted nothing and reads
    /// no shadow copy. It always succeeds.
    pub fn new(source: &str, destination: &str, patterns: Vec<String>) -> (r: Result<
        Self,
        CollectorError,
    >)
        ensures
            r matches Ok(c) && c.source() == source@ && c.patterns() == texts(patterns@)
                && c.counted() == CollectionStats::zero() && c.snapshot() is None
                && c.stager().base() == destination@ && c.staging() == join_path(
                destination@,
                staging_folder(c.stager().host()),
            ),
    {
        let writer = match Writer::new(destination) {
            Ok(writer) => writer,
            Err(e) => {
                return Err(e);
            },
        };
        Ok(
            ArtifactCollector {
                source_directory: FormatSource::new(source),
                artifact_patterns: patterns,
                writer,
                stats: CollectionStats::default(),
                vss_snapshot: None,
            },
        )
    }

    /// The collector reading the shadow copy `snapshot`.
    pub fn with_vss_snapshot(self, snapshot: VssSnapshot) -> (r: Self)
        ensures
            r.snapshot() == Some(snapshot),
            r.source() == self.source(),
            r.patterns() == self.patterns(),
            r.stager() == self.stager(),
            r.counted() == self.counted(),
    {
        let mut collector = self;
        collector.vss_snapshot = Some(snapshot);
        collector
    }

    /// The counters so far.
    pub fn stats(&self) -> (r: &CollectionStats)
        ensures
            *r == self.counted(),
    {
        &self.stats
    }

    /// The stager.
    pub fn writer(&self) -> (r: &Writer)
        ensures
            *r == self.stager(),
    {
        &self.writer
    }

    /// The glob patterns to expand: each pattern, without its leading
    /// separators, below the source root.
    pub fn search_patterns(&self) -> (r: Vec<String>)
        ensures
            texts(r@) == self.patterns().map_values(
                |p: Seq<char>| join_path(self.source(), strip_leading_separators(p)),
            ),
    {
        let mut out: Vec<String> = Vec::new();
        let mut i: usize = 0;
        while i < self.artifact_patterns.len()
            invariant
                i <= self.artifact_patterns.len(),
                out@.len() == i,
                forall|j: int|
                    0 <= j < i ==> out@[j]@ == join_path(
                        self.source(),
                        strip_leading_separators(self.artifact_patterns@[j]@),
                    ),
            decreases self.artifact_patterns.len() - i,
        {
            let tail = strip_separators(self.artifact_patterns[i].as_str());
            out.push(join_paths(self.source_directory.as_str(), tail.as_str()));
            i += 1;
        }
        assert(texts(out@) =~= self.patterns().map_values(
            |p: Seq<char>| join_path(self.source(), strip_leading_separators(p)),
        ));
        out
    }

    /// The path the file at `source_path` is staged under, before it is
    /// normalised.
    pub fn get_relative_path(&self, source_path: &str) -> (r: String)
        ensures
            r@ == self.relative_of(source_path@),
    {
        match &self.vss_snapshot {
            Some(snapshot) => match snapshot.snapshot_id() {
                Some(id) => replace_path_prefix(source_path, self.source_directory.as_str(), id),
                None => source_path.to_owned(),
            },
            None => source_path.to_owned(),
        }
    }

    /// Plans the collection of `files`, the files the patterns matched, in
    /// the order given. An unprivileged process is refused with
    /// `InsufficientPrivileges`, and then no file is planned, let alone
    /// opened. Otherwise every file gets its place in the order, its
    /// staged path and its destination below the staging directory.
    pub fn plan_collection(&self, privileged: bool, files: &Vec<String>) -> (r: Result<
        Vec<FilePlan>,
        CollectorError,
    >)
        ensures
            match r {
                Ok(plans) => {
                    &&& privileged
                    &&& plans@.len() == files@.len()
                    &&& forall|i: int|
                        0 <= i < plans@.len() ==> self.planned(
                            #[trigger] plans@[i],
                            files@[i]@,
                            i,
                            files@.len() as int,
                        )
                },
                Err(e) => !privileged && e is InsufficientPrivileges,
            },
    {
        match require_admin(privileged) {
            Ok(()) => {},
            Err(e) => {
                return Err(e);
            },
        }
        let total: u64 = files.len() as u64;
        let mut plans: Vec<FilePlan> = Vec::new();
        let mut i: usize = 0;
        while i < files.len()
            invariant
                i <= files.len(),
                total == files@.len(),
                plans@.len() == i,
                forall|j: int|
                    0 <= j < i ==> self.planned(#[trigger] plans@[j], files@[j]@, j, total as int),
            decreases files.len() - i,
        {
            let relative = self.get_relative_path(files[i].as_str());
            let destination = self.writer.get_file_path_string(relative.as_str());
            plans.push(
                FilePlan {
                    current: i as u64 + 1,
                    total,
                    source: files[i].clone(),
                    relative,
                    destination,
                },
            );
            i += 1;
        }
        Ok(plans)
    }

    /// Counts the end of one file.
    pub fn settle(&mut self, state: FileState)
        requires
            old(self).counted().can_merge(CollectionStats::outcome_of(state)),
        ensures
            final(self).counted() == old(self).counted().merged(CollectionStats::outcome_of(state)),
            final(self).source() == old(self).source(),
            final(self).patterns() == old(self).patterns(),
            final(self).stager() == old(self).stager(),
            final(self).snapshot() == old(self).snapshot(),
    {
        self.stats.record(state);
    }

    /// The manifest row of a staged file: its source and destination, the
    /// hash, times and size of the copy, and whether it was read from the
    /// raw volume. The row is stamped with the present moment.
    pub fn manifest_row(
        plan: &FilePlan,
        hash: String,
        from_ntfs: bool,
        modified: String,
        access: String,
        size: u64,
    ) -> (r: CsvLogItem)
        ensures
            r.source_file@ == plan.source@,
            r.destination_file@ == plan.destination@,
            r.hash_sha1@ == hash@,
            r.from_ntfs == from_ntfs,
            r.modified_time@ == modified@,
            r.access_time@ == access@,
            r.file_size == size,
            is_stamp(r.collect_time@),
    {
        CsvLogItem::with_paths(plan.source.as_str(), plan.destination.as_str()).with_hash(
            hash,
        ).with_ntfs_flag(from_ntfs).with_timestamps(modified, access).with_size(size)
    }
}

} // verus!
