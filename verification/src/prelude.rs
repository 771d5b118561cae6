//! The names most callers need.

pub use crate::csv::CsvLogItem;
pub use crate::error::CollectorError;
pub use crate::platform::{ArtifactCollector, CollectionStats, VssCollector};
pub use crate::resource::{ResourcesParser, YamlArtifact, YamlParser};
pub use crate::utils::{require_admin, FormatSource};
pub use crate::writer::Writer;
