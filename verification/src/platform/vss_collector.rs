//! Collection from the shadow copies of a drive.

use vstd::prelude::*;
use crate::error::CollectorError;
use crate::mount::vss::VssSnapshot;
use crate::platform::collector::{ArtifactCollector, CollectionStats};
use crate::text::{clone_texts, join_path, join_paths, texts};

verus! {

/// `uuid::Uuid::new_v4().to_string()`: a fresh random identifier as text.
/// Nothing is claimed of it: it is drawn at random. `Uuid::new_v4` gives up
/// where the host has no random bytes to give.
#[verifier::external_body]
fn fresh_identifier() -> String {
    uuid::Uuid::new_v4().to_string()
}

/// Collects from every shadow copy of one drive, through mounts in a
/// temporary workspace.
pub struct VssCollector {
    drive_letter: String,
    destination: String,
    patterns: Vec<String>,
    temp_dir: Option<String>,
}

impl VssCollector {
    /// The drive whose shadow copies are collected.
    pub closed spec fn drive(&self) -> Seq<char> {
        self.drive_letter@
    }

    /// The destination root.
    pub closed spec fn target(&self) -> Seq<char> {
        self.destination@
    }

    /// The patterns to collect.
    pub closed spec fn wanted(&self) -> Seq<Seq<char>> {
        texts(self.patterns@)
    }

    /// The workspace the shadow copies are mounted in, once it is chosen.
    pub closed spec fn workspace(&self) -> Option<Seq<char>> {
        match self.temp_dir {
            Some(dir) => Some(dir@),
            None => None,
        }
    }

    /// A collector of `patterns` from the shadow copies of `drive_letter`,
    /// staging below `destination`. No workspace is chosen yet.
    pub fn new(drive_letter: &str, destination: &str, patterns: Vec<String>) -> (r: Self)
        ensures
            r.drive() == drive_letter@,
            r.target() == destination@,
            r.wanted() == texts(patterns@),
            r.workspace() is None,
    {
        VssCollector {
            drive_letter: drive_letter.to_owned(),
            destination: destination.to_owned(),
            patterns,
            temp_dir: None,
        }
    }

    /// The drive whose shadow copies are collected.
    pub fn drive_letter(&self) -> (r: &str)
        ensures
            r@ == self.drive(),
    {
        self.drive_letter.as_str()
    }

    /// Chooses the directory `name` below `temp_base` as the workspace, and
    /// remembers it for the clean-up.
    pub fn open_workspace_named(&mut self, temp_base: &str, name: &str) -> (r: String)
        ensures
            r@ == join_path(temp_base@, name@),
            final(self).workspace() == Some(r@),
            final(self).drive() == old(self).drive(),
            final(self).target() == old(self).target(),
            final(self).wanted() == old(self).wanted(),
    {
        let dir = join_paths(temp_base, name);
        self.temp_dir = Some(dir.clone());
        dir
    }

    /// Chooses a directory with a fresh random name below `temp_base` as
    /// the workspace, and remembers it for the clean-up.
    pub fn open_workspace(&mut self, temp_base: &str) -> (r: String)
        ensures
            exists|name: Seq<char>| r@ == #[trigger] join_path(temp_base@, name),
            final(self).workspace() == Some(r@),
            final(self).drive() == old(self).drive(),
            final(self).target() == old(self).target(),
            final(self).wanted() == old(self).wanted(),
    {
        let name = fresh_identifier();
        self.open_workspace_named(temp_base, name.as_str())
    }

    /// The workspace to remove when the collection is over, if one was
    /// chosen. It is to be removed on every way out.
    pub fn temp_dir(&self) -> (r: Option<&str>)
        ensures
            match r {
                Some(dir) => self.workspace() == Some(dir@),
                None => self.workspace() is None,
            },
    {
        match &self.temp_dir {
            Some(dir) => Some(dir.as_str()),
            None => None,
        }
    }

    /// The collector for one shadow copy mounted at `mount_point`: it reads
    /// below the mount, stages below this collector's destination, and
    /// exchanges the mount for the snapshot's identifier in staged paths.
    /// A mount that is no link yields no collector: the snapshot is passed
    /// over.
    pub fn collector_for(&self, snapshot: &VssSnapshot, mount_point: &str, mounted: bool) -> (r: Result<
        Option<ArtifactCollector>,
        CollectorError,
    >)
        ensures
            match r {
                Ok(Some(c)) => {
                    &&& mounted
                    &&& c.source() == mount_point@
                    &&& c.patterns() == self.wanted()
                    &&& c.snapshot() == Some(*snapshot)
                    &&& c.counted() == CollectionStats::zero()
                    &&& c.stager().base() == self.target()
                },
                Ok(None) => !mounted,
                Err(_) => false,
            },
    {
        if !mounted {
            return Ok(None);
        }
        match ArtifactCollector::new(
            mount_point,
            self.destination.as_str(),
            clone_texts(&self.patterns),
        ) {
            Ok(collector) => Ok(Some(collector.with_vss_snapshot(snapshot.duplicate()))),
            Err(e) => Err(e),
        }
    }

    /// Adds what one shadow copy yielded to the counters of all of them. A
    /// shadow copy whose collection failed adds nothing.
    pub fn absorb(combined: &mut CollectionStats, outcome: &Result<CollectionStats, CollectorError>)
        requires
            outcome matches Ok(stats) ==> old(combined).can_merge(*stats),
        ensures
            *final(combined) == match outcome {
                Ok(stats) => old(combined).merged(*stats),
                Err(_) => *old(combined),
            },
    {
        match outcome {
            Ok(stats) => {
                combined.merge(stats);
            },
            Err(_) => {},
        }
    }
}

} // verus!
