//! How one file is read: through the file system first, and from the raw
//! volume where that fails.

pub mod get;
pub mod lowfs;
pub mod sector_reader;

pub use get::{get_drive_letter, volume_request, VolumeRequest};
pub use lowfs::{split_artifact_path, NtfsTarget, WalkStep};
pub use sector_reader::{sector_window, SectorWindow, SECTOR_SIZE};
