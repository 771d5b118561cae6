//! The entries of an artifact catalog.

use vstd::prelude::*;
use crate::text::texts;

verus! {

/// The operating system an artifact definition is written for.
#[derive(Debug, Clone, Copy, PartialEq, Eq, Structural, Hash)]
pub enum Target {
    Linux,
    Windows,
}

/// `std::path::MAIN_SEPARATOR`, the separator the host's paths are written
/// with. Nothing is claimed of its value, which depends on the host.
#[verifier::external_body]
fn main_separator() -> char {
    std::path::MAIN_SEPARATOR
}

impl Target {
    /// The target a host belongs to, given the separator of its paths:
    /// a host whose paths use `\` is Windows, every other host counts as Linux.
    pub fn of_separator(separator: char) -> (r: Target)
        ensures
            r == if separator == '\\' {
                Target::Windows
            } else {
                Target::Linux
            },
    {
        if separator == '\\' {
            Target::Windows
        } else {
            Target::Linux
        }
    }

    /// Whether a definition for `self` applies on a host of kind `host`.
    pub fn matches(&self, host: Target) -> (r: bool)
        ensures
            r == (*self == host),
    {
        *self == host
    }

    /// The target of the host this process runs on: `of_separator` of the
    /// host's path separator. Which of the two comes back depends on the
    /// host, so nothing is promised of it.
    pub fn current() -> Target {
        Target::of_separator(main_separator())
    }

    /// Whether a definition for `self` applies on the host this process runs
    /// on: `matches` of `current`. The host decides the answer.
    pub fn matches_current_os(&self) -> bool {
        self.matches(Target::current())
    }

    /// The name of the target as catalog files spell it.
    pub open spec fn name(self) -> Seq<char> {
        match self {
            Target::Linux => "Linux"@,
            Target::Windows => "Windows"@,
        }
    }

    /// The name of the target as catalog files spell it.
    pub fn to_string(&self) -> (out: String)
        ensures
            out@ == self.name(),
    {
        match self {
            Target::Linux => "Linux".to_owned(),
            Target::Windows => "Windows".to_owned(),
        }
    }
}

/// The descriptive part of a definition.
#[derive(Debug, Clone, PartialEq)]
pub struct Metadata {
    pub name: String,
    pub description: String,
    pub date: Option<String>,
    pub category: Option<String>,
    pub target: Target,
    pub source: Option<Vec<String>>,
}

impl Metadata {
    /// The category of the definition, `Other` where none is given.
    pub open spec fn category_text(self) -> Seq<char> {
        match self.category {
            Some(c) => c@,
            None => "Other"@,
        }
    }

    /// The category of the definition, `Other` where none is given.
    pub fn category_or_default(&self) -> (r: &str)
        ensures
            r@ == self.category_text(),
    {
        match &self.category {
            Some(c) => c.as_str(),
            None => "Other",
        }
    }
}

/// What a definition collects: glob patterns, or the names of other
/// definitions. A valid definition has exactly one of the two.
#[derive(Debug, Clone, PartialEq)]
pub struct Artifact {
    pub path: Option<Vec<String>>,
    pub group: Option<Vec<String>>,
}

impl Default for Artifact {
    fn default() -> (r: Self)
        ensures
            r.path is None,
            r.group is None,
    {
        Artifact { path: None, group: None }
    }
}

impl Artifact {
    /// A definition that collects `paths`.
    pub fn with_paths(paths: Vec<String>) -> (r: Self)
        ensures
            r.path == Some(paths),
            r.group is None,
    {
        Artifact { path: Some(paths), group: None }
    }

    /// A definition that stands for the definitions named in `group`.
    pub fn with_group(group: Vec<String>) -> (r: Self)
        ensures
            r.path is None,
            r.group == Some(group),
    {
        Artifact { path: None, group: Some(group) }
    }

    /// Exactly one of `path` and `group` is present.
    pub open spec fn valid(self) -> bool {
        (self.path is Some) != (self.group is Some)
    }

    /// Whether exactly one of `path` and `group` is present.
    pub fn is_valid(&self) -> (r: bool)
        ensures
            r == self.valid(),
    {
        self.path.is_some() != self.group.is_some()
    }
}

/// One entry of the catalog.
#[derive(Debug, Clone, PartialEq)]
pub struct YamlArtifact {
    pub metadata: Metadata,
    pub artifact: Artifact,
}

impl YamlArtifact {
    /// The name the entry is looked up by.
    pub open spec fn name(self) -> Seq<char> {
        self.metadata.name@
    }

    /// The names this entry stands for, none where it is no group.
    pub open spec fn members(self) -> Seq<Seq<char>> {
        match self.artifact.group {
            Some(g) => texts(g@),
            None => Seq::empty(),
        }
    }

    /// The patterns this entry carries, none where it carries no paths.
    pub open spec fn patterns(self) -> Seq<Seq<char>> {
        match self.artifact.path {
            Some(p) => texts(p@),
            None => Seq::empty(),
        }
    }

    /// Whether the entry names other entries.
    pub fn is_group(&self) -> (r: bool)
        ensures
            r == (self.artifact.group is Some),
    {
        self.artifact.group.is_some()
    }

    /// Whether the entry carries patterns.
    pub fn has_paths(&self) -> (r: bool)
        ensures
            r == (self.artifact.path is Some),
    {
        self.artifact.path.is_some()
    }

    /// The patterns of the entry.
    pub fn paths(&self) -> (r: Option<&Vec<String>>)
        ensures
            r is Some == (self.artifact.path is Some),
            r is Some ==> *r->0 == self.artifact.path->0,
    {
        self.artifact.path.as_ref()
    }

    /// The names the entry stands for.
    pub fn groups(&self) -> (r: Option<&Vec<String>>)
        ensures
            r is Some == (self.artifact.group is Some),
            r is Some ==> *r->0 == self.artifact.group->0,
    {
        self.artifact.group.as_ref()
    }
}

} // verus!
