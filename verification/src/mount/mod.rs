//! Shadow copies of a volume: which ones belong to a drive, and where each
//! is mounted.

pub mod vss;

pub use vss::{check_hresult, DriveLetter, Vss, VssSnapshot};
