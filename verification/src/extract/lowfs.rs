//! Where a file lies on a raw volume: the directories to walk, then its name.

use vstd::prelude::*;
use crate::error::CollectorError;
use crate::text::{components, split_components, texts};

verus! {

/// A file on a volume: the directories from the root down, and its name.
#[derive(Debug, Clone)]
pub struct NtfsTarget {
    pub directories: Vec<String>,
    pub filename: String,
}

impl NtfsTarget {
    /// How many names are looked up to reach the file: each directory, then
    /// the file itself.
    pub open spec fn depth(self) -> nat {
        self.directories@.len() + 1
    }

    /// The name looked up at step `step`: a directory, or at the last step
    /// the file.
    pub open spec fn name_at(self, step: int) -> Seq<char> {
        if step < self.directories@.len() {
            self.directories@[step]@
        } else {
            self.filename@
        }
    }

    /// The name to look up at step `step` of the walk.
    pub fn component(&self, step: usize) -> (r: &str)
        requires
            step < self.depth(),
        ensures
            r@ == self.name_at(step as int),
    {
        if step < self.directories.len() {
            self.directories[step].as_str()
        } else {
            self.filename.as_str()
        }
    }

    /// The failure to report when the name looked up at step `step` is not
    /// there: a missing directory on the way, a missing file at the end.
    pub fn missing(&self, step: usize) -> (r: CollectorError)
        requires
            step < self.depth(),
        ensures
            r matches CollectorError::NtfsExtraction { path, reason } && path@ == self.name_at(
                step as int,
            ) && reason@ == if step < self.directories@.len() {
                "Directory not found"@
            } else {
                "File not found"@
            },
    {
        if step < self.directories.len() {
            CollectorError::NtfsExtraction {
                path: self.directories[step].clone(),
                reason: "Directory not found".to_owned(),
            }
        } else {
            CollectorError::NtfsExtraction {
                path: self.filename.clone(),
                reason: "File not found".to_owned(),
            }
        }
    }
}

/// What a walk does next.
#[derive(Debug, Clone, Copy, PartialEq, Eq, Structural)]
pub enum WalkStep {
    /// Look up the name of this step in the directory reached so far.
    Lookup(usize),
    /// The file is found: read its unnamed data stream.
    ReadData,
}

impl NtfsTarget {
    /// What follows the lookup of step `step`: the next lookup below a
    /// directory that was found, the read of the file that was found, or
    /// the failure `missing` gives where nothing was found.
    pub fn after_lookup(&self, step: usize, found: bool) -> (r: Result<WalkStep, CollectorError>)
        requires
            step < self.depth(),
        ensures
            match r {
                Ok(WalkStep::Lookup(next)) => found && step < self.directories@.len() && next
                    == step + 1,
                Ok(WalkStep::ReadData) => found && step == self.directories@.len(),
                Err(CollectorError::NtfsExtraction { path, reason }) => !found && path@
                    == self.name_at(step as int) && reason@ == if step < self.directories@.len() {
                    "Directory not found"@
                } else {
                    "File not found"@
                },
                Err(_) => false,
            },
    {
        if !found {
            Err(self.missing(step))
        } else if step < self.directories.len() {
            Ok(WalkStep::Lookup(step + 1))
        } else {
            Ok(WalkStep::ReadData)
        }
    }
}

/// Splits a volume-relative path at each `\`. Empty components are
/// dropped; the last component names the file, those before it the
/// directories to walk. A path without a component is refused as
/// `NtfsExtraction` with the reason `Empty path`.
pub fn split_artifact_path(artifact_path: &str) -> (r: Result<NtfsTarget, CollectorError>)
    ensures
        match r {
            Ok(target) => {
                &&& components(artifact_path@).len() > 0
                &&& texts(target.directories@) == components(artifact_path@).drop_last()
                &&& target.filename@ == components(artifact_path@).last()
            },
            Err(e) => {
                &&& components(artifact_path@).len() == 0
                &&& e matches CollectorError::NtfsExtraction { path, reason }
                &&& path@ == artifact_path@
                &&& reason@ == "Empty path"@
            },
        },
{
    let mut parts = split_components(artifact_path);
    let ghost all = parts@;
    match parts.pop() {
        None => Err(
            CollectorError::NtfsExtraction {
                path: artifact_path.to_owned(),
                reason: "Empty path".to_owned(),
            },
        ),
        Some(filename) => {
            proof {
                assert(texts(parts@) =~= texts(all).drop_last());
            }
            Ok(NtfsTarget { directories: parts, filename })
        },
    }
}

} // verus!
