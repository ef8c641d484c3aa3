use hairpin::libmount::fs::FileSystem;
use hairpin::libmount::iter::{Direction, IterInternal};
use hairpin::libmount::error::Error;

#[test]
fn new_row_has_no_fields() {
    let fs = FileSystem::new().unwrap();
    assert_eq!(fs.id(), 0);
    assert_eq!(fs.source(), None);
    assert_eq!(fs.root(), None);
    assert_eq!(fs.bindsrc(), None);
    assert_eq!(fs.target(), None);
    assert_eq!(fs.fstype(), None);
    assert_eq!(fs.options(), None);
    assert_eq!(fs, FileSystem::default());
}

#[test]
fn fields_come_back_as_given() {
    let fs = FileSystem::new()
        .unwrap()
        .with_id(36)
        .with_source("/dev/sda1")
        .with_root("/")
        .with_bindsrc("/home/user")
        .with_target("/mnt/a")
        .with_fstype("ext4")
        .with_options("rw,noatime");
    assert_eq!(fs.id(), 36);
    assert_eq!(fs.source().map(|s| s.as_str()), Some("/dev/sda1"));
    assert_eq!(fs.root().map(|s| s.as_str()), Some("/"));
    assert_eq!(fs.bindsrc().map(|s| s.as_str()), Some("/home/user"));
    assert_eq!(fs.target().map(|s| s.as_str()), Some("/mnt/a"));
    assert_eq!(fs.fstype().map(|s| s.as_str()), Some("ext4"));
    assert_eq!(fs.options().map(|s| s.as_str()), Some("rw,noatime"));
    assert_eq!(fs.clone(), fs);
}

#[test]
fn rows_pair_by_source_and_target() {
    let a = FileSystem::new().unwrap().with_source("/dev/sda1").with_target("/mnt").with_options("rw");
    let b = FileSystem::new().unwrap().with_source("/dev/sda1").with_target("/mnt").with_options("ro");
    let c = FileSystem::new().unwrap().with_source("/dev/sdb1").with_target("/mnt").with_options("rw");
    let d = FileSystem::new().unwrap().with_target("/mnt").with_options("rw");
    assert!(a.paired(&b));
    assert!(!a.unchanged(&b));
    assert!(a.unchanged(&a.clone()));
    assert!(!a.paired(&c));
    assert!(!a.paired(&d));
    assert!(d.paired(&d.clone()));
}

#[test]
fn rows_relocate_by_source_and_identifier() {
    let a = FileSystem::new().unwrap().with_id(7).with_source("/dev/sda1").with_target("/mnt/a");
    let b = FileSystem::new().unwrap().with_id(7).with_source("/dev/sda1").with_target("/mnt/b");
    let c = FileSystem::new().unwrap().with_id(8).with_source("/dev/sda1").with_target("/mnt/b");
    let d = FileSystem::new().unwrap().with_id(7).with_source("/dev/sdb1").with_target("/mnt/b");
    assert!(a.relocated(&b));
    assert!(!a.relocated(&c));
    assert!(!a.relocated(&d));
}

#[test]
fn direction_codes() {
    assert_eq!(Direction::try_from(0), Ok(Direction::Forward));
    assert_eq!(Direction::try_from(1), Ok(Direction::Backward));
    assert_eq!(Direction::try_from(2), Err(Error::UndefinedDirection(2)));
    assert_eq!(Direction::try_from(-1), Err(Error::UndefinedDirection(4294967295)));
    assert_eq!(Direction::Forward.code(), 0);
    assert_eq!(Direction::Backward.code(), 1);
}

#[test]
fn cursor_walks_forward_and_backward() {
    let mut cursor = IterInternal::new(Direction::Forward).unwrap();
    assert_eq!(cursor.direction(), Ok(Direction::Forward));
    assert_eq!(cursor.index(3), Some(0));
    cursor.advance();
    assert_eq!(cursor.index(3), Some(1));
    cursor.advance();
    cursor.advance();
    assert_eq!(cursor.index(3), None);
    cursor.reset(Some(Direction::Backward));
    assert_eq!(cursor.direction(), Ok(Direction::Backward));
    assert_eq!(cursor.index(3), Some(2));
    cursor.advance();
    assert_eq!(cursor.index(3), Some(1));
    cursor.reset(None);
    assert_eq!(cursor.direction(), Ok(Direction::Backward));
    assert_eq!(cursor.index(3), Some(2));
    assert_eq!(cursor.index(0), None);
}
