//! Shadow-copy rules that need no call into the host's snapshot service.

use vstd::prelude::*;
use crate::error::CollectorError;
use crate::text::{
    chars_of, digit_char, find_last_component, join_path, join_paths, last_component,
};

verus! {

/// One shadow copy: the volume it was taken of, and the device it can be
/// opened or mounted by.
#[derive(Debug, Clone)]
pub struct VssSnapshot {
    pub original_volume_name: String,
    pub device_volume_name: String,
}

impl VssSnapshot {
    /// The identifier of the snapshot: the last component of its device.
    pub open spec fn id(self) -> Seq<char> {
        last_component(self.device_volume_name@)
    }

    /// A copy of the snapshot.
    pub fn duplicate(&self) -> (r: Self)
        ensures
            r == *self,
    {
        VssSnapshot {
            original_volume_name: self.original_volume_name.clone(),
            device_volume_name: self.device_volume_name.clone(),
        }
    }

    /// The identifier of the snapshot: what follows the last `\` of its
    /// device name. There always is one, if only the empty text.
    pub fn snapshot_id(&self) -> (r: Option<&str>)
        ensures
            r matches Some(id) && id@ == self.id(),
    {
        let v = chars_of(self.device_volume_name.as_str());
        let k = find_last_component(&v);
        let id = self.device_volume_name.as_str().substring_char(k, v.len());
        proof {
            assert(v@.subrange(k as int, v@.len() as int) =~= v@.skip(k as int));
        }
        Some(id)
    }
}

/// The shadow copies of one drive.
#[derive(Debug, Clone)]
pub struct Vss {
    drive_letter: String,
}

/// The snapshots of `all` that were taken of `volume`, in order.
pub open spec fn snapshots_of(all: Seq<VssSnapshot>, volume: Seq<char>) -> Seq<VssSnapshot> {
    all.filter(|s: VssSnapshot| s.original_volume_name@ == volume)
}

impl Vss {
    /// The drive the snapshots are asked for.
    pub closed spec fn drive(&self) -> Seq<char> {
        self.drive_letter@
    }

    /// The shadow copies of the drive written `drive_letter`.
    pub fn new(drive_letter: &str) -> (r: Self)
        ensures
            r.drive() == drive_letter@,
    {
        Vss { drive_letter: drive_letter.to_owned() }
    }

    /// The drive the snapshots are asked for.
    pub fn drive_letter(&self) -> (r: &str)
        ensures
            r@ == self.drive(),
    {
        self.drive_letter.as_str()
    }

    /// Picks the snapshots of this drive out of `all_snapshots`, every
    /// snapshot the host knows. `volume_name` is the volume the host maps
    /// the drive to. Without a volume the operation fails; with a volume
    /// that has no snapshot it reports `NoVssSnapshots` for the drive.
    pub fn get_snapshots(&self, all_snapshots: Vec<VssSnapshot>, volume_name: Option<String>) -> (r:
        Result<Vec<VssSnapshot>, CollectorError>)
        ensures
            match volume_name {
                None => r matches Err(CollectorError::VssOperation(why)) && why@
                    == "Failed to get volume for "@ + self.drive(),
                Some(volume) => if snapshots_of(all_snapshots@, volume@).len() == 0 {
                    r matches Err(CollectorError::NoVssSnapshots(drive)) && drive@ == self.drive()
                } else {
                    r matches Ok(found) && found@ == snapshots_of(all_snapshots@, volume@)
                },
            },
    {
        let volume = match volume_name {
            Some(volume) => volume,
            None => {
                let mut why = "Failed to get volume for ".to_owned();
                why.append(self.drive_letter.as_str());
                return Err(CollectorError::VssOperation(why));
            },
        };
        let ghost keep = |s: VssSnapshot| s.original_volume_name@ == volume@;
        let mut filtered: Vec<VssSnapshot> = Vec::new();
        proof {
            assert(all_snapshots@.take(0).filter(keep) =~= Seq::<VssSnapshot>::empty());
        }
        for snapshot in it: all_snapshots
            invariant
                keep == (|s: VssSnapshot| s.original_volume_name@ == volume@),
                it.seq() == all_snapshots@,
                filtered@ == all_snapshots@.take(it.index() as int).filter(keep),
        {
            proof {
                let i = it.index() as int;
                all_snapshots@.take(i).lemma_filter_push(snapshot, keep);
                assert(all_snapshots@.take(i).push(snapshot) =~= all_snapshots@.take(i + 1));
            }
            if snapshot.original_volume_name == volume {
                filtered.push(snapshot);
            }
        }
        proof {
            assert(all_snapshots@.take(all_snapshots@.len() as int) =~= all_snapshots@);
        }
        if filtered.len() == 0 {
            return Err(CollectorError::NoVssSnapshots(self.drive_letter.clone()));
        }
        Ok(filtered)
    }

    /// Where `snapshot` is mounted below the workspace `dest_path`: at its
    /// identifier.
    pub fn mount_point(snapshot: &VssSnapshot, dest_path: &str) -> (r: String)
        ensures
            r@ == join_path(dest_path@, snapshot.id()),
    {
        match snapshot.snapshot_id() {
            Some(id) => join_paths(dest_path, id),
            None => join_paths(dest_path, "unknown"),
        }
    }
}

/// A drive, as the user names it.
#[derive(Debug)]
pub struct DriveLetter {
    letter: String,
}

impl DriveLetter {
    /// The drive as the user named it.
    pub closed spec fn text(&self) -> Seq<char> {
        self.letter@
    }

    /// The drive written `letter`.
    pub fn new(letter: &str) -> (r: Self)
        ensures
            r.text() == letter@,
    {
        DriveLetter { letter: letter.to_owned() }
    }

    /// The drive as the user named it.
    pub fn letter(&self) -> (r: &str)
        ensures
            r@ == self.text(),
    {
        self.letter.as_str()
    }
}

/// The status that reports success.
pub const S_OK: i32 = 0;

/// The status that reports a refused access.
pub const E_ACCESSDENIED: i32 = -2147024891;

/// The status that reports an invalid argument.
pub const E_INVALIDARG: i32 = -2147024809;

/// The character that writes the hexadecimal digit `n` in upper case.
pub open spec fn upper_hex_digit(n: int) -> char {
    if n < 10 {
        digit_char(n)
    } else if n == 10 {
        'A'
    } else if n == 11 {
        'B'
    } else if n == 12 {
        'C'
    } else if n == 13 {
        'D'
    } else if n == 14 {
        'E'
    } else {
        'F'
    }
}

/// The 32 bits of a status, read as an unsigned number.
pub open spec fn status_bits(hr: i32) -> int {
    if hr >= 0 {
        hr as int
    } else {
        hr + 0x1_0000_0000
    }
}

/// A 32-bit number in eight upper-case hexadecimal digits.
pub open spec fn upper_hex8(v: int) -> Seq<char> {
    seq![
        upper_hex_digit(v / 0x1000_0000 % 16),
        upper_hex_digit(v / 0x100_0000 % 16),
        upper_hex_digit(v / 0x10_0000 % 16),
        upper_hex_digit(v / 0x1_0000 % 16),
        upper_hex_digit(v / 0x1000 % 16),
        upper_hex_digit(v / 0x100 % 16),
        upper_hex_digit(v / 0x10 % 16),
        upper_hex_digit(v % 16),
    ]
}

fn upper_hex_digit_of(n: u64) -> (c: char)
    requires
        n < 16,
    ensures
        c == upper_hex_digit(n as int),
{
    if n == 0 {
        '0'
    } else if n == 1 {
        '1'
    } else if n == 2 {
        '2'
    } else if n == 3 {
        '3'
    } else if n == 4 {
        '4'
    } else if n == 5 {
        '5'
    } else if n == 6 {
        '6'
    } else if n == 7 {
        '7'
    } else if n == 8 {
        '8'
    } else if n == 9 {
        '9'
    } else if n == 10 {
        'A'
    } else if n == 11 {
        'B'
    } else if n == 12 {
        'C'
    } else if n == 13 {
        'D'
    } else if n == 14 {
        'E'
    } else {
        'F'
    }
}

/// What a failed call of the snapshot service is reported as.
pub open spec fn status_failure(operation: Seq<char>, hr: i32) -> Seq<char> {
    operation + " failed: 0x"@ + upper_hex8(status_bits(hr))
}

/// Turns the status of a call of the snapshot service into a result:
/// success for `S_OK`, `InsufficientPrivileges` for a refused access,
/// `VssOperation` for an invalid argument, and `VssComInit` with the status
/// in hexadecimal for anything else.
pub fn check_hresult(hr: i32, operation: &str) -> (r: Result<(), CollectorError>)
    ensures
        match r {
            Ok(()) => hr == S_OK,
            Err(CollectorError::InsufficientPrivileges) => hr == E_ACCESSDENIED,
            Err(CollectorError::VssOperation(why)) => hr == E_INVALIDARG && why@ == operation@
                + ": Invalid argument"@,
            Err(CollectorError::VssComInit(why)) => hr != S_OK && hr != E_ACCESSDENIED && hr
                != E_INVALIDARG && why@ == status_failure(operation@, hr),
            Err(_) => false,
        },
{
    if hr == S_OK {
        Ok(())
    } else if hr == E_ACCESSDENIED {
        Err(CollectorError::InsufficientPrivileges)
    } else if hr == E_INVALIDARG {
        let mut why = operation.to_owned();
        why.append(": Invalid argument");
        Err(CollectorError::VssOperation(why))
    } else {
        let bits: u64 = if hr >= 0 {
            hr as u64
        } else {
            (hr as i64 + 0x1_0000_0000) as u64
        };
        let mut why = operation.to_owned();
        why.append(" failed: 0x");
        let ghost head = why@;
        why.push(upper_hex_digit_of(bits / 0x1000_0000 % 16));
        why.push(upper_hex_digit_of(bits / 0x100_0000 % 16));
        why.push(upper_hex_digit_of(bits / 0x10_0000 % 16));
        why.push(upper_hex_digit_of(bits / 0x1_0000 % 16));
        why.push(upper_hex_digit_of(bits / 0x1000 % 16));
        why.push(upper_hex_digit_of(bits / 0x100 % 16));
        why.push(upper_hex_digit_of(bits / 0x10 % 16));
        why.push(upper_hex_digit_of(bits % 16));
        proof {
            assert(why@ =~= head + upper_hex8(status_bits(hr)));
        }
        Err(CollectorError::VssComInit(why))
    }
}

/// The calls that enumerate the shadow copies of a host, in the order the
/// snapshot service wants them.
#[derive(Debug, Clone, Copy, PartialEq, Eq, Structural)]
pub enum EnumerationStep {
    /// Enter the multi-threaded apartment.
    CoInitialize,
    /// Set packet privacy, impersonation and dynamic cloaking.
    CoInitializeSecurity,
    /// Create the backup components.
    CreateBackupComponents,
    /// Initialise them for a backup.
    InitializeForBackup,
    /// Set the context to all snapshots.
    SetContext,
    /// Declare a full backup with component selection and writer metadata,
    /// without partial files.
    SetBackupState,
    /// Ask for every snapshot object.
    Query,
    /// Fetch the next snapshot object.
    Next,
    /// Nothing is left to fetch.
    Finished,
}

impl EnumerationStep {
    /// The name a step is reported by when it fails.
    pub open spec fn operation_name(self) -> Seq<char> {
        match self {
            EnumerationStep::CoInitialize => "CoInitializeEx"@,
            EnumerationStep::CoInitializeSecurity => "CoInitializeSecurity"@,
            EnumerationStep::CreateBackupComponents => "CreateVssBackupComponents"@,
            EnumerationStep::InitializeForBackup => "InitializeForBackup"@,
            EnumerationStep::SetContext => "SetContext"@,
            EnumerationStep::SetBackupState => "SetBackupState"@,
            EnumerationStep::Query => "Query"@,
            EnumerationStep::Next => "Next"@,
            EnumerationStep::Finished => "Finished"@,
        }
    }

    /// The step that follows a step that succeeded.
    pub open spec fn following(self) -> EnumerationStep {
        match self {
            EnumerationStep::CoInitialize => EnumerationStep::CoInitializeSecurity,
            EnumerationStep::CoInitializeSecurity => EnumerationStep::CreateBackupComponents,
            EnumerationStep::CreateBackupComponents => EnumerationStep::InitializeForBackup,
            EnumerationStep::InitializeForBackup => EnumerationStep::SetContext,
            EnumerationStep::SetContext => EnumerationStep::SetBackupState,
            EnumerationStep::SetBackupState => EnumerationStep::Query,
            EnumerationStep::Query => EnumerationStep::Next,
            EnumerationStep::Next => EnumerationStep::Next,
            EnumerationStep::Finished => EnumerationStep::Finished,
        }
    }

    /// Whether the step is one of the calls that set the enumeration up.
    pub open spec fn is_setup(self) -> bool {
        !(self is Next) && !(self is Finished)
    }

    /// The step the enumeration starts with.
    pub fn first() -> (r: EnumerationStep)
        ensures
            r == EnumerationStep::CoInitialize,
    {
        EnumerationStep::CoInitialize
    }

    /// The name the step is reported by when it fails.
    pub fn operation(&self) -> (r: &'static str)
        ensures
            r@ == self.operation_name(),
    {
        match self {
            EnumerationStep::CoInitialize => "CoInitializeEx",
            EnumerationStep::CoInitializeSecurity => "CoInitializeSecurity",
            EnumerationStep::CreateBackupComponents => "CreateVssBackupComponents",
            EnumerationStep::InitializeForBackup => "InitializeForBackup",
            EnumerationStep::SetContext => "SetContext",
            EnumerationStep::SetBackupState => "SetBackupState",
            EnumerationStep::Query => "Query",
            EnumerationStep::Next => "Next",
            EnumerationStep::Finished => "Finished",
        }
    }

    /// The step to take after this one returned the status `hr`, with
    /// `fetched` objects where it was a fetch. A set-up call that did not
    /// succeed ends the enumeration with the failure `check_hresult` gives
    /// for it, a refused access being `InsufficientPrivileges`. A fetch
    /// that fails or fetches nothing ends the enumeration normally; any
    /// other fetch is followed by the next.
    pub fn advance(&self, hr: i32, fetched: u32) -> (r: Result<EnumerationStep, CollectorError>)
        ensures
            match r {
                Ok(next) => if self.is_setup() {
                    hr == S_OK && next == self.following()
                } else if *self is Next && hr == S_OK && fetched != 0 {
                    next == EnumerationStep::Next
                } else {
                    next == EnumerationStep::Finished
                },
                Err(CollectorError::InsufficientPrivileges) => self.is_setup() && hr
                    == E_ACCESSDENIED,
                Err(CollectorError::VssOperation(why)) => self.is_setup() && hr == E_INVALIDARG
                    && why@ == self.operation_name() + ": Invalid argument"@,
                Err(CollectorError::VssComInit(why)) => self.is_setup() && hr != S_OK && hr
                    != E_ACCESSDENIED && hr != E_INVALIDARG && why@ == status_failure(
                    self.operation_name(),
                    hr,
                ),
                Err(_) => false,
            },
    {
        match self {
            EnumerationStep::Finished => Ok(EnumerationStep::Finished),
            EnumerationStep::Next => {
                if hr != S_OK || fetched == 0 {
                    Ok(EnumerationStep::Finished)
                } else {
                    Ok(EnumerationStep::Next)
                }
            },
            _ => {
                match check_hresult(hr, self.operation()) {
                    Ok(()) => {},
                    Err(e) => {
                        return Err(e);
                    },
                }
                let next = match self {
                    EnumerationStep::CoInitialize => EnumerationStep::CoInitializeSecurity,
                    EnumerationStep::CoInitializeSecurity => EnumerationStep::CreateBackupComponents,
                    EnumerationStep::CreateBackupComponents => EnumerationStep::InitializeForBackup,
                    EnumerationStep::InitializeForBackup => EnumerationStep::SetContext,
                    EnumerationStep::SetContext => EnumerationStep::SetBackupState,
                    EnumerationStep::SetBackupState => EnumerationStep::Query,
                    _ => EnumerationStep::Next,
                };
                Ok(next)
            },
        }
    }

    /// Whether a fetched snapshot is recorded: only where its properties
    /// could be read, which the status `hr` of that call tells.
    pub fn records(hr: i32) -> (r: bool)
        ensures
            r == (hr == S_OK),
    {
        hr == S_OK
    }
}

} // verus!
