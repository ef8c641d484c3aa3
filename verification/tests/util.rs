use std::time::Duration;

use hairpin::libmount::util::{
    get_fstab_path, get_mtab_path, get_utab_path, wait_timeout, FSTAB_VARIABLE, MTAB_VARIABLE,
    UTAB_VARIABLE,
};

#[test]
fn usual_places_without_an_override() {
    assert_eq!(get_utab_path(None), "/run/mount/utab");
    assert_eq!(get_mtab_path(None), "/etc/mtab");
    assert_eq!(get_fstab_path(None), "/etc/fstab");
}

#[test]
fn overrides_win() {
    assert_eq!(get_utab_path(Some("/tmp/utab")), "/tmp/utab");
    assert_eq!(get_mtab_path(Some("/tmp/mtab")), "/tmp/mtab");
    assert_eq!(get_fstab_path(Some("")), "");
}

#[test]
fn names_of_the_variables() {
    assert_eq!(UTAB_VARIABLE, "LIBMOUNT_UTAB");
    assert_eq!(MTAB_VARIABLE, "LIBMOUNT_MTAB");
    assert_eq!(FSTAB_VARIABLE, "LIBMOUNT_FSTAB");
}

#[test]
fn timeout_is_the_low_half_of_the_milliseconds() {
    assert_eq!(wait_timeout(0), 0);
    assert_eq!(wait_timeout(1500), 1500);
    assert_eq!(wait_timeout(2147483647), i32::MAX);
    assert_eq!(wait_timeout(2147483648), i32::MIN);
    assert_eq!(wait_timeout(4294967295), -1);
    assert_eq!(wait_timeout(4294967296), 0);
    assert_eq!(wait_timeout(4294967301), 5);
    assert_eq!(wait_timeout(Duration::from_secs(2).as_millis()), 2000);
}
