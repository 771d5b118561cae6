//! The acquisition engine: what is collected, in which order, and how each
//! file is accounted for.

pub mod collector;
pub mod vss_collector;

pub use collector::{ArtifactCollector, CollectionStats, FileEvent, FilePlan, FileState, FileAction};
pub use vss_collector::VssCollector;
