//! The rows of the collection manifest.

use vstd::prelude::*;
use crate::text::{decimal, decimal_of, texts};

verus! {

/// `std::time::SystemTime::elapsed` of `std::time::UNIX_EPOCH`: the seconds
/// and nanoseconds that have passed since 1970, or nothing where the clock
/// stands before 1970. Nothing is claimed of it: it depends on the clock.
#[verifier::external_body]
fn since_epoch() -> Option<(u64, u32)> {
    std::time::UNIX_EPOCH.elapsed().ok().map(|d| (d.as_secs(), d.subsec_nanos()))
}

/// The RFC 3339 text of the moment `seconds` and `nanos` after 1970, as the
/// `chrono` crate writes it; nothing where `chrono` has no such moment.
pub uninterp spec fn rfc3339_text(seconds: int, nanos: int) -> Option<Seq<char>>;

/// `chrono::DateTime::from_timestamp` followed by
/// `chrono::DateTime::to_rfc3339`: the RFC 3339 text of the moment
/// `seconds` and `nanos` after 1970 in universal time, or nothing where
/// that is no valid moment.
#[verifier::external_body]
fn rfc3339_at(seconds: i64, nanos: u32) -> (r: Option<String>)
    ensures
        match r {
            Some(text) => rfc3339_text(seconds as int, nanos as int) == Some(text@),
            None => rfc3339_text(seconds as int, nanos as int) is None,
        },
{
    chrono::DateTime::from_timestamp(seconds, nanos).map(|moment| moment.to_rfc3339())
}

/// How a moment is written in the manifest: as RFC 3339 text, and as
/// nothing where it cannot be written so.
pub open spec fn moment_text(seconds: int, nanos: int) -> Seq<char> {
    match rfc3339_text(seconds, nanos) {
        Some(text) => text,
        None => Seq::empty(),
    }
}

/// Writes the moment `seconds` and `nanos` after 1970 as the manifest holds
/// it.
pub fn timestamp(seconds: i64, nanos: u32) -> (r: String)
    ensures
        r@ == moment_text(seconds as int, nanos as int),
{
    match rfc3339_at(seconds, nanos) {
        Some(text) => text,
        None => String::new(),
    }
}

/// How a reading of the clock is written in the manifest. A reading is the
/// seconds and nanoseconds that have passed since 1970, or nothing where
/// the clock stands before 1970. It is written as `moment_text` writes that
/// moment, and as nothing where there is no reading or the seconds are more
/// than a signed 64-bit number holds.
pub open spec fn stamp_text(elapsed: Option<(u64, u32)>) -> Seq<char> {
    match elapsed {
        Some((seconds, nanos)) => if seconds <= i64::MAX {
            moment_text(seconds as int, nanos as int)
        } else {
            Seq::empty()
        },
        None => Seq::empty(),
    }
}

/// `text` is what some reading of the clock is written as.
pub open spec fn is_stamp(text: Seq<char>) -> bool {
    exists|elapsed: Option<(u64, u32)>| text == #[trigger] stamp_text(elapsed)
}

/// Writes a reading of the clock as the manifest holds it.
pub fn stamp_of(elapsed: Option<(u64, u32)>) -> (r: String)
    ensures
        r@ == stamp_text(elapsed),
{
    match elapsed {
        Some((seconds, nanos)) => {
            if seconds <= 9223372036854775807u64 {
                timestamp(seconds as i64, nanos)
            } else {
                String::new()
            }
        },
        None => String::new(),
    }
}

/// The present moment as the manifest holds it: the clock is read once,
/// and the reading is written as `stamp_of` writes it. Which reading it is
/// depends on the clock.
fn now_rfc3339() -> (r: String)
    ensures
        is_stamp(r@),
{
    let elapsed = since_epoch();
    let r = stamp_of(elapsed);
    assert(r@ == stamp_text(elapsed));
    r
}

/// One row of the manifest: what was collected, from where, to where, and
/// what the copy looks like.
#[derive(Debug, Clone)]
pub struct CsvLogItem {
    pub collect_time: String,
    pub source_file: String,
    pub destination_file: String,
    pub hash_sha1: String,
    pub from_ntfs: bool,
    pub modified_time: String,
    pub access_time: String,
    pub file_size: u64,
}

/// How a flag is written in the manifest.
pub open spec fn flag_text(flag: bool) -> Seq<char> {
    if flag {
        "true"@
    } else {
        "false"@
    }
}

/// The names of the manifest's columns, in order.
pub open spec fn manifest_columns() -> Seq<Seq<char>> {
    seq![
        "collect_time"@,
        "source_file"@,
        "destination_file"@,
        "hash_sha1"@,
        "from_ntfs"@,
        "modified_time"@,
        "access_time"@,
        "file_size"@,
    ]
}

impl Default for CsvLogItem {
    /// An empty row stamped with the present moment.
    fn default() -> (r: Self)
        ensures
            r.is_blank(),
            is_stamp(r.collect_time@),
    {
        CsvLogItem::stamped(now_rfc3339())
    }
}

impl CsvLogItem {
    /// The row names no file, carries no hash and no size, is not marked as
    /// read from the raw volume, and its three times are one and the same.
    pub open spec fn is_blank(self) -> bool {
        &&& self.source_file@.len() == 0
        &&& self.destination_file@.len() == 0
        &&& self.hash_sha1@.len() == 0
        &&& !self.from_ntfs
        &&& self.file_size == 0
        &&& self.modified_time@ == self.collect_time@
        &&& self.access_time@ == self.collect_time@
    }

    /// The cells of the row, in column order.
    pub open spec fn cells(self) -> Seq<Seq<char>> {
        seq![
            self.collect_time@,
            self.source_file@,
            self.destination_file@,
            self.hash_sha1@,
            flag_text(self.from_ntfs),
            self.modified_time@,
            self.access_time@,
            decimal(self.file_size as nat),
        ]
    }

    /// An empty row whose three times are `now`.
    pub fn stamped(now: String) -> (r: Self)
        ensures
            r.is_blank(),
            r.collect_time@ == now@,
    {
        CsvLogItem {
            collect_time: now.clone(),
            source_file: String::new(),
            destination_file: String::new(),
            hash_sha1: String::new(),
            from_ntfs: false,
            modified_time: now.clone(),
            access_time: now,
            file_size: 0,
        }
    }

    /// An empty row stamped with the present moment: its three times are
    /// one reading of the clock, written as `stamp_of` writes it.
    pub fn new() -> (r: Self)
        ensures
            r.is_blank(),
            is_stamp(r.collect_time@),
    {
        CsvLogItem::stamped(now_rfc3339())
    }

    /// A row for the copy of `source` at `destination`, stamped with the
    /// present moment and otherwise empty.
    pub fn with_paths(source: &str, destination: &str) -> (r: Self)
        ensures
            r.source_file@ == source@,
            r.destination_file@ == destination@,
            r.hash_sha1@.len() == 0,
            !r.from_ntfs,
            r.file_size == 0,
            r.modified_time@ == r.collect_time@,
            r.access_time@ == r.collect_time@,
            is_stamp(r.collect_time@),
    {
        let blank = CsvLogItem::stamped(now_rfc3339());
        CsvLogItem {
            collect_time: blank.collect_time,
            source_file: source.to_owned(),
            destination_file: destination.to_owned(),
            hash_sha1: blank.hash_sha1,
            from_ntfs: blank.from_ntfs,
            modified_time: blank.modified_time,
            access_time: blank.access_time,
            file_size: blank.file_size,
        }
    }

    /// The row with `hash` as its digest.
    pub fn with_hash(self, hash: String) -> (r: Self)
        ensures
            r == (CsvLogItem { hash_sha1: hash, ..self }),
    {
        let mut row = self;
        row.hash_sha1 = hash;
        row
    }

    /// The row marked as read from the raw volume, or not.
    pub fn with_ntfs_flag(self, from_ntfs: bool) -> (r: Self)
        ensures
            r == (CsvLogItem { from_ntfs, ..self }),
    {
        let mut row = self;
        row.from_ntfs = from_ntfs;
        row
    }

    /// The row with the given modification and access times.
    pub fn with_timestamps(self, modified: String, access: String) -> (r: Self)
        ensures
            r == (CsvLogItem { modified_time: modified, access_time: access, ..self }),
    {
        let mut row = self;
        row.modified_time = modified;
        row.access_time = access;
        row
    }

    /// The row with `size` as the length of the copy.
    pub fn with_size(self, size: u64) -> (r: Self)
        ensures
            r == (CsvLogItem { file_size: size, ..self }),
    {
        let mut row = self;
        row.file_size = size;
        row
    }

    /// The header of the manifest.
    pub fn header() -> (r: Vec<String>)
        ensures
            texts(r@) == manifest_columns(),
    {
        let mut r: Vec<String> = Vec::new();
        r.push("collect_time".to_owned());
        r.push("source_file".to_owned());
        r.push("destination_file".to_owned());
        r.push("hash_sha1".to_owned());
        r.push("from_ntfs".to_owned());
        r.push("modified_time".to_owned());
        r.push("access_time".to_owned());
        r.push("file_size".to_owned());
        assert(texts(r@) =~= manifest_columns());
        r
    }

    /// Whether the header still has to be written before the first row:
    /// it has, unless the manifest already starts with a record of at least
    /// one cell. `first_record` is the number of cells of the first record
    /// of the manifest as it stands, if it has one.
    pub fn header_needed(first_record: Option<usize>) -> (r: bool)
        ensures
            r == match first_record {
                Some(cells) => cells == 0,
                None => true,
            },
    {
        match first_record {
            Some(cells) => cells == 0,
            None => true,
        }
    }

    /// The cells of the row as the manifest holds them: flags as `true` or
    /// `false`, the size in decimal, every text as it is.
    pub fn record(&self) -> (r: Vec<String>)
        ensures
            texts(r@) == self.cells(),
    {
        let mut r: Vec<String> = Vec::new();
        r.push(self.collect_time.clone());
        r.push(self.source_file.clone());
        r.push(self.destination_file.clone());
        r.push(self.hash_sha1.clone());
        if self.from_ntfs {
            r.push("true".to_owned());
        } else {
            r.push("false".to_owned());
        }
        r.push(self.modified_time.clone());
        r.push(self.access_time.clone());
        r.push(decimal_of(self.file_size));
        assert(texts(r@) =~= self.cells());
        r
    }
}

/// `n` in decimal, with zeros in front where it has fewer than nine
/// digits.
pub open spec fn nine_digits(n: nat) -> Seq<char> {
    if decimal(n).len() >= 9 {
        decimal(n)
    } else {
        Seq::new((9 - decimal(n).len()) as nat, |i: int| '0') + decimal(n)
    }
}

/// `n` in decimal, with a minus sign where it is negative.
pub open spec fn signed_decimal(n: int) -> Seq<char> {
    if n < 0 {
        seq!['-'] + decimal((-n) as nat)
    } else {
        decimal(n as nat)
    }
}

/// A file time as the manifest holds it: the seconds, a point, the
/// nanoseconds in nine digits, and an `s`.
pub open spec fn file_time_text(seconds: int, nanos: nat) -> Seq<char> {
    signed_decimal(seconds) + seq!['.'] + nine_digits(nanos) + seq!['s']
}

/// Writes a file time of `seconds` and `nanos` as the manifest holds it.
pub fn file_time(seconds: i64, nanos: u32) -> (r: String)
    ensures
        r@ == file_time_text(seconds as int, nanos as nat),
{
    let mut out = String::new();
    if seconds < 0 {
        out.push('-');
        let magnitude: u64 = if seconds == i64::MIN {
            9223372036854775808u64
        } else {
            (-seconds) as u64
        };
        out.append(decimal_of(magnitude).as_str());
    } else {
        out.append(decimal_of(seconds as u64).as_str());
    }
    proof {
        assert(out@ =~= signed_decimal(seconds as int));
    }
    out.push('.');
    let digits = decimal_of(nanos as u64);
    let width = digits.as_str().unicode_len();
    let ghost head = out@;
    let mut padded: usize = 0;
    if width < 9 {
        while padded < 9 - width
            invariant
                width < 9,
                padded <= 9 - width,
                out@ == head + Seq::new(padded as nat, |i: int| '0'),
            decreases 9 - width - padded,
        {
            proof {
                assert(Seq::new(padded as nat, |i: int| '0').push('0') =~= Seq::new(
                    (padded + 1) as nat,
                    |i: int| '0',
                ));
                assert((head + Seq::new(padded as nat, |i: int| '0')).push('0') =~= head + Seq::new(
                    padded as nat,
                    |i: int| '0',
                ).push('0'));
            }
            out.push('0');
            padded += 1;
        }
    } else {
        proof {
            assert(head + Seq::new(0nat, |i: int| '0') =~= head);
        }
    }
    out.append(digits.as_str());
    out.push('s');
    proof {
        assert(out@ =~= file_time_text(seconds as int, nanos as nat));
    }
    out
}

} // verus!
