//! The output stager: where each collected file goes below the destination.

use vstd::prelude::*;
use crate::error::CollectorError;
use crate::text::{
    is_separator, join_path, leading_separators, lemma_leading_separators, lemma_strip_is_final,
    without_colons,
};
use crate::utils::{normalize_path, normalized, FormatSource};

verus! {

/// `sysinfo::System::host_name`, the name the host gives itself, if it gives
/// one. Nothing is claimed of it: it depends on the host.
#[verifier::external_body]
fn host_name() -> Option<String> {
    sysinfo::System::host_name()
}

/// The name of the staging directory of a host.
pub open spec fn staging_folder(host: Seq<char>) -> Seq<char> {
    "Collector_"@ + host
}

/// `path` ready to have a component appended: with a `/` at its end unless
/// it is empty or has one.
pub open spec fn with_separator(path: Seq<char>) -> Seq<char> {
    if path.len() == 0 || path.last() == '/' {
        path
    } else {
        path.push('/')
    }
}

/// Maps source paths to destinations below one staging directory.
pub struct Writer {
    base_destination: FormatSource,
    full_destination: FormatSource,
    hostname: String,
}

impl Writer {
    /// The destination root the writer was made for.
    pub closed spec fn base(&self) -> Seq<char> {
        self.base_destination@
    }

    /// The staging directory everything is written below.
    pub closed spec fn staging(&self) -> Seq<char> {
        self.full_destination@
    }

    /// The host name, or the folder name the writer was made with.
    pub closed spec fn host(&self) -> Seq<char> {
        self.hostname@
    }

    /// A writer staging below `Collector_<hostname>` in `destination_path`,
    /// with `unknown` for a host without a name.
    pub fn for_host(destination_path: &str, hostname: Option<String>) -> (r: Self)
        ensures
            r.base() == destination_path@,
            r.host() == match hostname {
                Some(h) => h@,
                None => "unknown"@,
            },
            r.staging() == join_path(destination_path@, staging_folder(r.host())),
    {
        let hostname = match hostname {
            Some(h) => h,
            None => "unknown".to_owned(),
        };
        let base = FormatSource::new(destination_path);
        let mut folder_name = "Collector_".to_owned();
        folder_name.append(hostname.as_str());
        let full = base.join(folder_name.as_str());
        Writer { base_destination: base, full_destination: full, hostname }
    }

    /// A writer staging below `Collector_<hostname>` in `destination_path`,
    /// for the name this host gives itself. It always succeeds; which name
    /// it holds depends on the host.
    pub fn new(destination_path: &str) -> (r: Result<Self, CollectorError>)
        ensures
            r matches Ok(w) && w.base() == destination_path@ && w.staging() == join_path(
                destination_path@,
                staging_folder(w.host()),
            ),
    {
        Ok(Self::for_host(destination_path, host_name()))
    }

    /// A writer staging below `folder_name` in `destination_path`. It always
    /// succeeds.
    pub fn with_folder_name(destination_path: &str, folder_name: &str) -> (r: Result<
        Self,
        CollectorError,
    >)
        ensures
            r matches Ok(w) && w.base() == destination_path@ && w.host() == folder_name@
                && w.staging() == join_path(destination_path@, folder_name@),
    {
        let base = FormatSource::new(destination_path);
        let full = base.join(folder_name);
        Ok(
            Writer {
                base_destination: base,
                full_destination: full,
                hostname: folder_name.to_owned(),
            },
        )
    }

    /// The destination root.
    pub fn base_destination(&self) -> (r: &FormatSource)
        ensures
            r@ == self.base(),
    {
        &self.base_destination
    }

    /// The staging directory.
    pub fn full_destination(&self) -> (r: &FormatSource)
        ensures
            r@ == self.staging(),
    {
        &self.full_destination
    }

    /// The host name, or the folder name the writer was made with.
    pub fn hostname(&self) -> (r: &str)
        ensures
            r@ == self.host(),
    {
        self.hostname.as_str()
    }

    /// Where the file of source path `relative_path` is staged: the path,
    /// normalised, below the staging directory.
    pub fn get_file_path(&self, relative_path: &str) -> (r: FormatSource)
        ensures
            r@ == join_path(self.staging(), normalized(relative_path@)),
    {
        let normalized = normalize_path(relative_path);
        self.full_destination.join(normalized.as_str())
    }

    /// `get_file_path` as text.
    pub fn get_file_path_string(&self, relative_path: &str) -> (r: String)
        ensures
            r@ == join_path(self.staging(), normalized(relative_path@)),
    {
        self.get_file_path(relative_path).to_string_lossy()
    }

    /// Where the manifest is kept: `Collector_copy.csv` in the staging
    /// directory.
    pub fn csv_log_path(&self) -> (r: FormatSource)
        ensures
            r@ == join_path(self.staging(), "Collector_copy.csv"@),
    {
        self.full_destination.join("Collector_copy.csv")
    }

    /// Where the archive of the staging directory is written:
    /// `Collector_<hostname>.zip` in the destination root.
    pub fn archive_path(&self) -> (r: FormatSource)
        ensures
            r@ == join_path(self.base(), staging_folder(self.host()) + ".zip"@),
    {
        let mut zip_name = "Collector_".to_owned();
        zip_name.append(self.hostname.as_str());
        zip_name.append(".zip");
        self.base_destination.join(zip_name.as_str())
    }
}

/// A normalised source path holds no colon and starts with no separator.
pub proof fn lemma_normalized_is_clean(path: Seq<char>)
    ensures
        !normalized(path).contains(':'),
        normalized(path).len() > 0 ==> !is_separator(normalized(path)[0]),
{
    let kept = without_colons(path);
    let tail = normalized(path);
    lemma_leading_separators(kept);
    lemma_strip_is_final(kept);
    if tail.contains(':') {
        let k = choose|k: int| 0 <= k < tail.len() && tail[k] == ':';
        let at = k + leading_separators(kept);
        assert(tail[k] == kept[at]);
        path.lemma_filter_pred(|c: char| c != ':', at);
    }
}

/// For every destination root, host name and source path, the staged
/// destination is the staging directory, a `/`, and the normalised source
/// path; the staging directory is `Collector_<hostname>` in the destination
/// root; and the normalised source path holds no colon and starts with no
/// separator.
pub proof fn lemma_destination_under_staging(
    destination: Seq<char>,
    host: Seq<char>,
    relative: Seq<char>,
)
    ensures
        ({
            let staging = join_path(destination, staging_folder(host));
            let tail = normalized(relative);
            &&& staging == with_separator(destination) + staging_folder(host)
            &&& join_path(staging, tail) == with_separator(staging) + tail
            &&& with_separator(staging).last() == '/'
            &&& !tail.contains(':')
            &&& tail.len() > 0 ==> !is_separator(tail[0])
        }),
{
    reveal_strlit("Collector_");
    lemma_normalized_is_clean(relative);
    let folder = staging_folder(host);
    assert(folder[0] == 'C');
    let staging = join_path(destination, folder);
    assert(staging.len() > 0);
}

} // verus!
