//! What a read from the raw volume asks for.

use vstd::prelude::*;
use crate::error::CollectorError;
use crate::mount::vss::VssSnapshot;
use crate::text::{chars_of, remove_all, remove_occurrences, string_of};

verus! {

/// An ASCII letter of either case.
pub open spec fn is_drive_letter(c: char) -> bool {
    ('A' <= c && c <= 'Z') || ('a' <= c && c <= 'z')
}

/// The drive a path starts with: a letter, a colon and a `\`, where the
/// path starts so.
pub open spec fn drive_prefix(path: Seq<char>) -> Option<Seq<char>> {
    if path.len() >= 3 && is_drive_letter(path[0]) && path[1] == ':' && path[2] == '\\' {
        Some(path.take(3))
    } else {
        None
    }
}

/// The drive `path` starts with, such as `C:\`; `InvalidDriveLetter` with
/// the path where it starts with none.
pub fn get_drive_letter(path: &str) -> (r: Result<String, CollectorError>)
    ensures
        match drive_prefix(path@) {
            Some(drive) => r matches Ok(found) && found@ == drive,
            None => r matches Err(CollectorError::InvalidDriveLetter(p)) && p@ == path@,
        },
{
    let v = chars_of(path);
    if v.len() >= 3 {
        let c = v[0];
        let letter = ('A' <= c && c <= 'Z') || ('a' <= c && c <= 'z');
        if letter && v[1] == ':' && v[2] == '\\' {
            return Ok(string_of(&v, 0, 3));
        }
    }
    Err(CollectorError::InvalidDriveLetter(path.to_owned()))
}

/// What the raw-volume reader is asked: the device to open, and the path
/// of the file on that volume.
#[derive(Debug, Clone)]
pub struct VolumeRequest {
    pub device: String,
    pub relative_path: String,
}

/// The device a live drive is opened by: `\\?\` and the drive without its
/// trailing `\`.
pub open spec fn live_device(drive: Seq<char>) -> Seq<char> {
    "\\\\?\\"@ + drive.take(2)
}

/// What to ask of the raw-volume reader for the file at `source`. The
/// device is that of `vss_snapshot` where one is given, else the live
/// drive that `source` starts with; the path on the volume is `source`
/// without its drive. A `source` that starts with no drive is refused.
pub fn volume_request(source: &str, vss_snapshot: Option<&VssSnapshot>) -> (r: Result<
    VolumeRequest,
    CollectorError,
>)
    ensures
        match drive_prefix(source@) {
            Some(drive) => r matches Ok(request) && request.relative_path@ == remove_all(
                source@,
                drive,
            ) && request.device@ == match vss_snapshot {
                Some(snapshot) => snapshot.device_volume_name@,
                None => live_device(drive),
            },
            None => r matches Err(CollectorError::InvalidDriveLetter(p)) && p@ == source@,
        },
{
    let drive_letter = match get_drive_letter(source) {
        Ok(drive) => drive,
        Err(e) => {
            return Err(e);
        },
    };
    let device = match vss_snapshot {
        Some(snapshot) => snapshot.device_volume_name.clone(),
        None => {
            let drive = chars_of(drive_letter.as_str());
            let volume_entry = string_of(&drive, 0, 2);
            let mut device = "\\\\?\\".to_owned();
            device.append(volume_entry.as_str());
            proof {
                assert(drive@.subrange(0, 2) =~= drive@.take(2));
            }
            device
        },
    };
    let relative_path = remove_occurrences(source, drive_letter.as_str());
    Ok(VolumeRequest { device, relative_path })
}

} // verus!
