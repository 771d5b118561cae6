//! Path texts and small helpers used throughout the collector.

use vstd::prelude::*;
use vstd::string::StringSliceAdditionalSpecFns;
use vstd::utf8::{decode_utf8, encode_utf8_decode_utf8, is_char_boundary};
use crate::error::CollectorError;
use crate::text::{
    join_path, join_paths, remove_colons, strip_leading_separators, strip_separator_chars,
    without_colons,
};

verus! {

/// Size of the buffer files are copied with.
pub const FILE_BUFFER_SIZE: usize = 32768;

/// Size of the chunks a raw volume is read in.
pub const NTFS_READ_BUFFER_SIZE: usize = 32768;

/// Size of the chunks a staged file is hashed in.
pub const HASH_BUFFER_SIZE: usize = 4096;

/// `std::path::PathBuf`, carried through as an opaque value.
#[verifier::external_type_specification]
#[verifier::external_body]
pub struct ExPathBuf(std::path::PathBuf);

/// `std::path::Path`, carried through as an opaque value.
#[verifier::external_type_specification]
#[verifier::external_body]
pub struct ExPath(std::path::Path);

/// The text a `std::path::PathBuf` holds.
pub uninterp spec fn path_buf_text(path: std::path::PathBuf) -> Seq<char>;

/// The text a `std::path::Path` holds.
pub uninterp spec fn path_text(path: &std::path::Path) -> Seq<char>;

/// A path kept as text, with the few operations the collector needs.
#[derive(Clone, Debug, PartialEq, Eq)]
pub struct FormatSource {
    path: String,
}

impl View for FormatSource {
    type V = Seq<char>;

    closed spec fn view(&self) -> Seq<char> {
        self.path@
    }
}

impl Default for FormatSource {
    /// The empty path.
    fn default() -> (r: Self)
        ensures
            r@.len() == 0,
    {
        FormatSource { path: String::new() }
    }
}

impl FormatSource {
    /// The path written as `path`.
    pub fn new(path: &str) -> (r: Self)
        ensures
            r@ == path@,
    {
        FormatSource { path: path.to_owned() }
    }

    /// The path as text.
    pub fn as_str(&self) -> (r: &str)
        ensures
            r@ == self@,
    {
        self.path.as_str()
    }

    /// The path as an owned text.
    pub fn to_string_lossy(&self) -> (r: String)
        ensures
            r@ == self@,
    {
        self.path.clone()
    }

    /// The path as an owned text.
    pub fn to_string(&self) -> (r: String)
        ensures
            r@ == self@,
    {
        self.path.clone()
    }

    /// Extends the path by `value` as `join_path` says, and hands the path
    /// back for further changes.
    pub fn push(&mut self, value: &str) -> (r: &mut Self)
        ensures
            r@ == join_path(old(self)@, value@),
            *final(self) == *final(r),
    {
        self.path = join_paths(self.path.as_str(), value);
        self
    }

    /// The path as a `std::path::PathBuf`, for callers that touch the file
    /// system.
    pub fn to_path_buf(&self) -> (r: std::path::PathBuf)
        ensures
            path_buf_text(r) == self@,
    {
        FormatSource { path: self.path.clone() }.into_path_buf()
    }

    /// The path turned into a `std::path::PathBuf`, by
    /// `std::path::PathBuf::from`: the result holds the text of the path.
    #[verifier::external_body]
    pub fn into_path_buf(self) -> (r: std::path::PathBuf)
        ensures
            path_buf_text(r) == self@,
    {
        std::path::PathBuf::from(self.path)
    }

    /// The path as a `std::path::Path`, by `std::path::Path::new`: the
    /// result holds the text of the path.
    #[verifier::external_body]
    pub fn as_path(&self) -> (r: &std::path::Path)
        ensures
            path_text(r) == self@,
    {
        std::path::Path::new(&self.path)
    }

    /// The path extended by `value` as `join_path` says; `self` is unchanged.
    pub fn join(&self, value: &str) -> (r: Self)
        ensures
            r@ == join_path(self@, value@),
    {
        FormatSource { path: join_paths(self.path.as_str(), value) }
    }
}

impl AsRef<std::path::Path> for FormatSource {
    fn as_ref(&self) -> (r: &std::path::Path)
        ensures
            path_text(r) == self@,
    {
        self.as_path()
    }
}

impl From<&str> for FormatSource {
    fn from(s: &str) -> (r: Self)
        ensures
            r@ == s@,
    {
        FormatSource::new(s)
    }
}

impl vstd::std_specs::convert::FromSpecImpl<&str> for FormatSource {
    open spec fn obeys_from_spec() -> bool {
        false
    }

    open spec fn from_spec(s: &str) -> Self {
        arbitrary()
    }
}

impl From<String> for FormatSource {
    fn from(s: String) -> (r: Self)
        ensures
            r@ == s@,
    {
        FormatSource { path: s }
    }
}

impl vstd::std_specs::convert::FromSpecImpl<String> for FormatSource {
    open spec fn obeys_from_spec() -> bool {
        true
    }

    closed spec fn from_spec(s: String) -> Self {
        FormatSource { path: s }
    }
}

/// Refuses to go on unless the process is privileged: `privileged` is what
/// the host answered when asked whether the process is root or elevated.
pub fn require_admin(privileged: bool) -> (r: Result<(), CollectorError>)
    ensures
        privileged ==> r is Ok,
        !privileged ==> r matches Err(CollectorError::InsufficientPrivileges),
{
    if !privileged {
        return Err(CollectorError::InsufficientPrivileges);
    }
    Ok(())
}

/// The form a source path takes below the staging directory: every colon
/// removed, then every leading separator.
pub open spec fn normalized(path: Seq<char>) -> Seq<char> {
    strip_leading_separators(without_colons(path))
}

/// Normalises a source path for staging, as `normalized` says.
pub fn normalize_path(path: &str) -> (r: String)
    ensures
        r@ == normalized(path@),
{
    let kept = remove_colons(path);
    strip_separator_chars(&kept)
}

/// `text` cut to its first `max_len` bytes and followed by `...`, or `text`
/// itself where it is no longer than that. A cut may not fall inside a
/// character.
pub fn truncate_text(text: &str, max_len: usize) -> (r: String)
    requires
        text.len() > max_len ==> is_char_boundary(text.spec_bytes(), max_len as int),
    ensures
        r@ == if text.len() > max_len {
            decode_utf8(text.spec_bytes().subrange(0, max_len as int)) + "..."@
        } else {
            text@
        },
{
    if text.len() > max_len {
        let (head, _) = text.split_at(max_len);
        proof {
            encode_utf8_decode_utf8(head@);
        }
        let mut out = head.to_owned();
        out.append("...");
        out
    } else {
        text.to_owned()
    }
}

} // verus!
