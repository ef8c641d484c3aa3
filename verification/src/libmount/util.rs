use core::time::Duration;
use vstd::prelude::*;

verus! {

/// The whole milliseconds that a duration holds.
pub uninterp spec fn duration_millis(duration: Duration) -> u128;

/// `Duration::as_millis` of std: the total number of whole milliseconds
/// that the duration holds.
pub assume_specification[ Duration::as_millis ](duration: &Duration) -> (r: u128)
    ensures
        r == duration_millis(*duration),
;

/// `Duration::from_millis` of std: the duration of that many milliseconds.
pub assume_specification[ Duration::from_millis ](millis: u64) -> (r: Duration)
    ensures
        duration_millis(r) == millis,
;

/// The timeout of a wait, in milliseconds, for a poll rate of `millis`
/// milliseconds: the low 32 bits of `millis`, read as a signed number.
pub open spec fn spec_wait_timeout(millis: u128) -> i32 {
    let low = millis as int % 0x1_0000_0000;
    if low < 0x8000_0000 {
        low as i32
    } else {
        (low - 0x1_0000_0000) as i32
    }
}

/// The timeout that a wait is given for a poll rate of `millis`
/// milliseconds.
pub fn wait_timeout(millis: u128) -> (r: i32)
    ensures
        r == spec_wait_timeout(millis),
        millis <= i32::MAX ==> r == millis,
{
    let low: u128 = millis % 0x1_0000_0000u128;
    if low < 0x8000_0000u128 {
        low as i32
    } else {
        let high: u128 = low - 0x8000_0000u128;
        let above: i32 = high as i32;
        above + i32::MIN
    }
}

/// The name of the environment variable that overrides the location of
/// the userspace table.
pub const UTAB_VARIABLE: &'static str = "LIBMOUNT_UTAB";

/// The name of the environment variable that overrides the location of
/// the table of what is mounted.
pub const MTAB_VARIABLE: &'static str = "LIBMOUNT_MTAB";

/// The name of the environment variable that overrides the location of
/// the static table.
pub const FSTAB_VARIABLE: &'static str = "LIBMOUNT_FSTAB";

/// The location that is used: the override where there is one, else the
/// usual place.
pub open spec fn spec_path(value: Option<&str>, usual: &str) -> Seq<char> {
    match value {
        Some(path) => path@,
        None => usual@,
    }
}

fn path_or(value: Option<&str>, usual: &str) -> (r: String)
    ensures
        r@ == spec_path(value, usual),
{
    match value {
        Some(path) => path.to_owned(),
        None => usual.to_owned(),
    }
}

/// The location of the userspace table, given what the environment says
/// under `UTAB_VARIABLE`.
pub fn get_utab_path(value: Option<&str>) -> (r: String)
    ensures
        r@ == spec_path(value, "/run/mount/utab"),
{
    path_or(value, "/run/mount/utab")
}

/// The location of the table of what is mounted, given what the
/// environment says under `MTAB_VARIABLE`.
pub fn get_mtab_path(value: Option<&str>) -> (r: String)
    ensures
        r@ == spec_path(value, "/etc/mtab"),
{
    path_or(value, "/etc/mtab")
}

/// The location of the static table, given what the environment says
/// under `FSTAB_VARIABLE`.
pub fn get_fstab_path(value: Option<&str>) -> (r: String)
    ensures
        r@ == spec_path(value, "/etc/fstab"),
{
    path_or(value, "/etc/fstab")
}

} // verus!
