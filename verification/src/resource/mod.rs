//! The artifact catalog and the resolution of requests against it.

use vstd::prelude::*;

pub mod category;
pub mod document;
pub mod file_struct;
pub mod laws;
pub mod parser;
pub mod resolution;

pub use category::CategoryIndex;
pub use file_struct::{Artifact, Metadata, Target, YamlArtifact};
pub use parser::ResourcesParser;

verus! {

/// The parser under the name of the format its files are written in.
pub type YamlParser = ResourcesParser;

} // verus!
