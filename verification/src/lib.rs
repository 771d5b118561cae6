//! Core rules of a forensic artifact collector: catalog resolution, output
//! staging, manifest rows and acquisition bookkeeping.
//!
//! Nothing here touches a file, a volume or the snapshot service. The
//! library decides what is to be read, where it is to be written and how
//! it is accounted for; its caller does the reading and the writing.

pub mod csv;
pub mod error;
pub mod extract;
pub mod hash;
pub mod mount;
pub mod platform;
pub mod prelude;
pub mod resource;
pub mod text;
pub mod utils;
pub mod writer;

pub use error::CollectorError;
pub use platform::{ArtifactCollector, CollectionStats, VssCollector};
pub use resource::{ResourcesParser, YamlParser};
