//! The failures a collection can report.

use vstd::prelude::*;

verus! {

/// Every failure kind of the collector. Paths and underlying causes are kept
/// as text so that a value can be cloned, compared and logged.
#[derive(Debug, Clone)]
pub enum CollectorError {
    /// A file could not be read.
    FileRead { path: String, reason: String },
    /// A file could not be written.
    FileWrite { path: String, reason: String },
    /// A directory could not be created.
    DirectoryCreate { path: String, reason: String },
    /// A path that had to exist does not.
    PathNotFound(String),
    /// Any other input/output failure.
    Io(String),
    /// The process is neither root nor elevated.
    InsufficientPrivileges,
    /// One file could not be read from the raw volume.
    NtfsExtraction { path: String, reason: String },
    /// A path does not start with a drive letter.
    InvalidDriveLetter(String),
    /// The raw volume could not be interpreted.
    NtfsError(String),
    /// The sector-aligned reader failed.
    SectorReaderError(String),
    /// A shadow-copy operation failed.
    VssOperation(String),
    /// The drive has no shadow copy.
    NoVssSnapshots(String),
    /// The shadow-copy service could not be initialised.
    VssComInit(String),
    /// A shadow copy could not be mounted.
    VssMountFailed(String),
    /// A definition file could not be parsed.
    ResourceParse { path: String, reason: String },
    /// A requested artifact is not in the catalog.
    ResourceNotFound(String),
    /// A definition declares both paths and groups, or neither.
    InvalidResource { name: String, reason: String },
    /// The directory of definition files does not exist.
    ResourcesDirectoryNotFound(String),
    /// Nothing was requested.
    NoResourcesSpecified,
    /// The archive library reported a failure.
    ZipError(String),
    /// The archive could not be created.
    ZipCreation { path: String, reason: String },
    /// The manifest could not be written.
    CsvError(String),
    /// A pattern is not a valid glob.
    InvalidPattern { pattern: String, reason: String },
    /// A directory could not be walked while expanding a pattern.
    GlobError(String),
    /// The pattern expander rejected a pattern.
    PatternError(String),
    /// The configuration is unusable.
    Config(String),
    /// The source root is unusable.
    InvalidSourcePath(String),
    /// The destination root is unusable.
    InvalidDestinationPath(String),
    /// The collection as a whole failed.
    CollectionFailed(String),
    /// No file matched any pattern.
    NoFilesMatched,
    /// One file could not be extracted.
    ExtractionFailed { source_path: String, destination: String, reason: String },
}

impl CollectorError {
    /// What the failure reads as.
    pub open spec fn message(self) -> Seq<char> {
        match self {
            CollectorError::FileRead { path, reason } => "Failed to read file '"@ + path@ + "': "@ + reason@,
            CollectorError::FileWrite { path, reason } => "Failed to write file '"@ + path@ + "': "@ + reason@,
            CollectorError::DirectoryCreate { path, reason } => "Failed to create directory '"@ + path@ + "': "@ + reason@,
            CollectorError::PathNotFound(text) => "Path does not exist: "@ + text@,
            CollectorError::Io(text) => "I/O error: "@ + text@,
            CollectorError::InsufficientPrivileges => "Administrator/root privileges required"@,
            CollectorError::NtfsExtraction { path, reason } => "NTFS extraction failed for '"@ + path@ + "': "@ + reason@,
            CollectorError::InvalidDriveLetter(text) => "Invalid drive letter: "@ + text@,
            CollectorError::NtfsError(text) => "NTFS error: "@ + text@,
            CollectorError::SectorReaderError(text) => "Sector reader error: "@ + text@,
            CollectorError::VssOperation(text) => "VSS operation failed: "@ + text@,
            CollectorError::NoVssSnapshots(text) => "No VSS snapshots found for drive '"@ + text@ + "'"@,
            CollectorError::VssComInit(text) => "VSS COM initialization failed: "@ + text@,
            CollectorError::VssMountFailed(text) => "Failed to mount VSS snapshot: "@ + text@,
            CollectorError::ResourceParse { path, reason } => "Failed to parse resource '"@ + path@ + "': "@ + reason@,
            CollectorError::ResourceNotFound(text) => "Resource not found: '"@ + text@ + "'"@,
            CollectorError::InvalidResource { name, reason } => "Invalid resource '"@ + name@ + "': "@ + reason@,
            CollectorError::ResourcesDirectoryNotFound(text) => "Resources directory not found: "@ + text@,
            CollectorError::NoResourcesSpecified => "No resources specified"@,
            CollectorError::ZipError(text) => "ZIP operation failed: "@ + text@,
            CollectorError::ZipCreation { path, reason } => "Failed to create ZIP '"@ + path@ + "': "@ + reason@,
            CollectorError::CsvError(text) => "CSV error: "@ + text@,
            CollectorError::InvalidPattern { pattern, reason } => "Invalid pattern '"@ + pattern@ + "': "@ + reason@,
            CollectorError::GlobError(text) => "Glob error: "@ + text@,
            CollectorError::PatternError(text) => "Pattern error: "@ + text@,
            CollectorError::Config(text) => "Configuration error: "@ + text@,
            CollectorError::InvalidSourcePath(text) => "Invalid source path: "@ + text@,
            CollectorError::InvalidDestinationPath(text) => "Invalid destination path: "@ + text@,
            CollectorError::CollectionFailed(text) => "Collection failed: "@ + text@,
            CollectorError::NoFilesMatched => "No files matched patterns"@,
            CollectorError::ExtractionFailed { source_path, destination, reason } => "Failed to extract '"@ + source_path@ + "' to '"@ + destination@ + "': "@ + reason@,
        }
    }

    /// What the failure reads as.
    pub fn to_string(&self) -> (out: String)
        ensures
            out@ == self.message(),
    {
        match self {
            CollectorError::FileRead { path, reason } => {
                let mut out = "Failed to read file '".to_owned();
                out.append(path.as_str());
                out.append("': ");
                out.append(reason.as_str());
                out
            },
            CollectorError::FileWrite { path, reason } => {
                let mut out = "Failed to write file '".to_owned();
                out.append(path.as_str());
                out.append("': ");
                out.append(reason.as_str());
                out
            },
            CollectorError::DirectoryCreate { path, reason } => {
                let mut out = "Failed to create directory '".to_owned();
                out.append(path.as_str());
                out.append("': ");
                out.append(reason.as_str());
                out
            },
            CollectorError::PathNotFound(text) => {
                let mut out = "Path does not exist: ".to_owned();
                out.append(text.as_str());
                out
            },
            CollectorError::Io(text) => {
                let mut out = "I/O error: ".to_owned();
                out.append(text.as_str());
                out
            },
            CollectorError::InsufficientPrivileges => {
                let mut out = "Administrator/root privileges required".to_owned();
                out
            },
            CollectorError::NtfsExtraction { path, reason } => {
                let mut out = "NTFS extraction failed for '".to_owned();
                out.append(path.as_str());
                out.append("': ");
                out.append(reason.as_str());
                out
            },
            CollectorError::InvalidDriveLetter(text) => {
                let mut out = "Invalid drive letter: ".to_owned();
                out.append(text.as_str());
                out
            },
            CollectorError::NtfsError(text) => {
                let mut out = "NTFS error: ".to_owned();
                out.append(text.as_str());
                out
            },
            CollectorError::SectorReaderError(text) => {
                let mut out = "Sector reader error: ".to_owned();
                out.append(text.as_str());
                out
            },
            CollectorError::VssOperation(text) => {
                let mut out = "VSS operation failed: ".to_owned();
                out.append(text.as_str());
                out
            },
            CollectorError::NoVssSnapshots(text) => {
                let mut out = "No VSS snapshots found for drive '".to_owned();
                out.append(text.as_str());
                out.append("'");
                out
            },
            CollectorError::VssComInit(text) => {
                let mut out = "VSS COM initialization failed: ".to_owned();
                out.append(text.as_str());
                out
            },
            CollectorError::VssMountFailed(text) => {
                let mut out = "Failed to mount VSS snapshot: ".to_owned();
                out.append(text.as_str());
                out
            },
            CollectorError::ResourceParse { path, reason } => {
                let mut out = "Failed to parse resource '".to_owned();
                out.append(path.as_str());
                out.append("': ");
                out.append(reason.as_str());
                out
            },
            CollectorError::ResourceNotFound(text) => {
                let mut out = "Resource not found: '".to_owned();
                out.append(text.as_str());
                out.append("'");
                out
            },
            CollectorError::InvalidResource { name, reason } => {
                let mut out = "Invalid resource '".to_owned();
                out.append(name.as_str());
                out.append("': ");
                out.append(reason.as_str());
                out
            },
            CollectorError::ResourcesDirectoryNotFound(text) => {
                let mut out = "Resources directory not found: ".to_owned();
                out.append(text.as_str());
                out
            },
            CollectorError::NoResourcesSpecified => {
                let mut out = "No resources specified".to_owned();
                out
            },
            CollectorError::ZipError(text) => {
                let mut out = "ZIP operation failed: ".to_owned();
                out.append(text.as_str());
                out
            },
            CollectorError::ZipCreation { path, reason } => {
                let mut out = "Failed to create ZIP '".to_owned();
                out.append(path.as_str());
                out.append("': ");
                out.append(reason.as_str());
                out
            },
            CollectorError::CsvError(text) => {
                let mut out = "CSV error: ".to_owned();
                out.append(text.as_str());
                out
            },
            CollectorError::InvalidPattern { pattern, reason } => {
                let mut out = "Invalid pattern '".to_owned();
                out.append(pattern.as_str());
                out.append("': ");
                out.append(reason.as_str());
                out
            },
            CollectorError::GlobError(text) => {
                let mut out = "Glob error: ".to_owned();
                out.append(text.as_str());
                out
            },
            CollectorError::PatternError(text) => {
                let mut out = "Pattern error: ".to_owned();
                out.append(text.as_str());
                out
            },
            CollectorError::Config(text) => {
                let mut out = "Configuration error: ".to_owned();
                out.append(text.as_str());
                out
            },
            CollectorError::InvalidSourcePath(text) => {
                let mut out = "Invalid source path: ".to_owned();
                out.append(text.as_str());
                out
            },
            CollectorError::InvalidDestinationPath(text) => {
                let mut out = "Invalid destination path: ".to_owned();
                out.append(text.as_str());
                out
            },
            CollectorError::CollectionFailed(text) => {
                let mut out = "Collection failed: ".to_owned();
                out.append(text.as_str());
                out
            },
            CollectorError::NoFilesMatched => {
                let mut out = "No files matched patterns".to_owned();
                out
            },
            CollectorError::ExtractionFailed { source_path, destination, reason } => {
                let mut out = "Failed to extract '".to_owned();
                out.append(source_path.as_str());
                out.append("' to '");
                out.append(destination.as_str());
                out.append("': ");
                out.append(reason.as_str());
                out
            },
        }
    }
}

} // verus!
