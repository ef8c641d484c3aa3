use hairpin::libmount::error::{AllocationError, Error};
use hairpin::libmount::event::{MountEvent, MountEventKind};
use hairpin::libmount::fs::FileSystem;
use hairpin::libmount::iter::{Direction, IterInternal};
use hairpin::libmount::monitor::Monitor;
use hairpin::libmount::table::{Change, DiffOperation, Iter, Table, TableDiff};

fn entry(target: &str) -> FileSystem {
    FileSystem::new().unwrap().with_target(target)
}

fn mounted(id: i32, source: &str, target: &str, options: &str) -> FileSystem {
    FileSystem::new()
        .unwrap()
        .with_id(id)
        .with_source(source)
        .with_target(target)
        .with_options(options)
}

fn table(entries: Vec<FileSystem>) -> Table {
    Table::from_entries(entries)
}

fn collect(mut walk: Iter<TableDiff>) -> Vec<MountEvent> {
    let mut events = Vec::new();
    while let Some(outcome) = walk.next() {
        events.push(outcome.unwrap());
    }
    events
}

fn rows(mut walk: Iter<Table>) -> Vec<FileSystem> {
    let mut rows = Vec::new();
    while let Some(outcome) = walk.next() {
        rows.push(outcome.unwrap());
    }
    rows
}

#[test]
fn diff_of_a_table_with_itself_is_empty() {
    let tables = vec![
        table(vec![]),
        table(vec![entry("/mnt/a")]),
        table(vec![
            mounted(1, "/dev/sda1", "/", "rw"),
            mounted(2, "/dev/sda1", "/", "ro"),
            mounted(3, "proc", "/proc", "rw"),
            entry("/mnt/a"),
        ]),
    ];
    for t in tables {
        assert_eq!(collect(t.diff(&t).unwrap()), vec![]);
        assert_eq!(collect(t.diff(&t.clone()).unwrap()), vec![]);
        assert_eq!(t.changes(&t), vec![]);
    }
}

#[test]
fn diff_from_empty_mounts_every_row_in_order() {
    let empty = Table::new().unwrap();
    let full = table(vec![
        mounted(1, "/dev/sda1", "/", "rw"),
        mounted(2, "proc", "/proc", "rw"),
        entry("/mnt/a"),
        mounted(1, "/dev/sda1", "/", "rw"),
    ]);
    let expected = vec![
        MountEvent::Mount { filesystem: mounted(1, "/dev/sda1", "/", "rw") },
        MountEvent::Mount { filesystem: mounted(2, "proc", "/proc", "rw") },
        MountEvent::Mount { filesystem: entry("/mnt/a") },
        MountEvent::Mount { filesystem: mounted(1, "/dev/sda1", "/", "rw") },
    ];
    assert_eq!(collect(empty.diff(&full).unwrap()), expected);
    assert_eq!(empty.changes(&full), expected);
    assert_eq!(full.replay(), expected);
}

#[test]
fn diff_to_empty_unmounts_every_row_in_order() {
    let empty = Table::new().unwrap();
    let full = table(vec![mounted(1, "/dev/sda1", "/", "rw"), entry("/mnt/a")]);
    let expected = vec![
        MountEvent::UMount { filesystem: mounted(1, "/dev/sda1", "/", "rw") },
        MountEvent::UMount { filesystem: entry("/mnt/a") },
    ];
    assert_eq!(collect(full.diff(&empty).unwrap()), expected);
}

#[test]
fn one_more_row_is_one_mount_and_one_less_is_one_unmount() {
    let a = table(vec![entry("/mnt/a")]);
    let b = table(vec![entry("/mnt/a"), entry("/mnt/b")]);
    assert_eq!(
        collect(a.diff(&b).unwrap()),
        vec![MountEvent::Mount { filesystem: entry("/mnt/b") }]
    );
    assert_eq!(
        collect(b.diff(&a).unwrap()),
        vec![MountEvent::UMount { filesystem: entry("/mnt/b") }]
    );
    let found = collect(a.diff(&b).unwrap());
    match &found[0] {
        MountEvent::Mount { filesystem } => {
            assert_eq!(filesystem.target().map(|s| s.as_str()), Some("/mnt/b"));
        }
        other => panic!("not a mount: {:?}", other),
    }
}

#[test]
fn changed_options_are_a_remount() {
    let older = table(vec![mounted(1, "/dev/sda1", "/", "rw"), mounted(2, "proc", "/proc", "rw")]);
    let newer = table(vec![mounted(1, "/dev/sda1", "/", "ro"), mounted(2, "proc", "/proc", "rw")]);
    assert_eq!(
        collect(older.diff(&newer).unwrap()),
        vec![MountEvent::Remount { filesystem: mounted(1, "/dev/sda1", "/", "ro") }]
    );
}

#[test]
fn same_source_and_identifier_elsewhere_is_a_move() {
    let older = table(vec![mounted(7, "/dev/sdb1", "/mnt/a", "rw")]);
    let newer = table(vec![mounted(7, "/dev/sdb1", "/mnt/b", "rw")]);
    assert_eq!(
        collect(older.diff(&newer).unwrap()),
        vec![MountEvent::Move {
            from: mounted(7, "/dev/sdb1", "/mnt/a", "rw"),
            to: mounted(7, "/dev/sdb1", "/mnt/b", "rw"),
        }]
    );
}

#[test]
fn another_identifier_elsewhere_is_a_mount_and_an_unmount() {
    let older = table(vec![mounted(7, "/dev/sdb1", "/mnt/a", "rw")]);
    let newer = table(vec![mounted(8, "/dev/sdb1", "/mnt/b", "rw")]);
    assert_eq!(
        collect(older.diff(&newer).unwrap()),
        vec![
            MountEvent::Mount { filesystem: mounted(8, "/dev/sdb1", "/mnt/b", "rw") },
            MountEvent::UMount { filesystem: mounted(7, "/dev/sdb1", "/mnt/a", "rw") },
        ]
    );
}

#[test]
fn changes_of_the_newer_table_come_before_those_of_the_older() {
    let older = table(vec![
        mounted(1, "/dev/sda1", "/", "rw"),
        mounted(2, "/dev/sdb1", "/mnt/b", "rw"),
        mounted(3, "/dev/sdc1", "/mnt/c", "rw"),
        mounted(4, "/dev/sdd1", "/mnt/d", "rw"),
    ]);
    let newer = table(vec![
        mounted(5, "/dev/sde1", "/mnt/e", "rw"),
        mounted(1, "/dev/sda1", "/", "ro"),
        mounted(3, "/dev/sdc1", "/media/c", "rw"),
        mounted(4, "/dev/sdd1", "/mnt/d", "rw"),
    ]);
    assert_eq!(
        collect(older.diff(&newer).unwrap()),
        vec![
            MountEvent::Mount { filesystem: mounted(5, "/dev/sde1", "/mnt/e", "rw") },
            MountEvent::Remount { filesystem: mounted(1, "/dev/sda1", "/", "ro") },
            MountEvent::Move {
                from: mounted(3, "/dev/sdc1", "/mnt/c", "rw"),
                to: mounted(3, "/dev/sdc1", "/media/c", "rw"),
            },
            MountEvent::UMount { filesystem: mounted(2, "/dev/sdb1", "/mnt/b", "rw") },
        ]
    );
    assert_eq!(older.changes(&newer), collect(older.diff(&newer).unwrap()));
}

#[test]
fn each_reported_mount_takes_one_move_at_most() {
    let older = table(vec![
        mounted(0, "/dev/sda1", "/mnt/a", "rw"),
        mounted(0, "/dev/sda1", "/mnt/b", "rw"),
    ]);
    let newer = table(vec![mounted(0, "/dev/sda1", "/mnt/c", "rw")]);
    assert_eq!(
        collect(older.diff(&newer).unwrap()),
        vec![
            MountEvent::Move {
                from: mounted(0, "/dev/sda1", "/mnt/a", "rw"),
                to: mounted(0, "/dev/sda1", "/mnt/c", "rw"),
            },
            MountEvent::UMount { filesystem: mounted(0, "/dev/sda1", "/mnt/b", "rw") },
        ]
    );
}

#[test]
fn diff_leaves_its_tables_as_they_were() {
    let older = table(vec![entry("/mnt/a")]);
    let newer = table(vec![entry("/mnt/b")]);
    let before = (older.clone(), newer.clone());
    let _ = collect(older.diff(&newer).unwrap());
    assert_eq!((older, newer), before);
}

#[test]
fn every_change_of_a_diff_has_one_of_four_kinds() {
    let older = table(vec![
        mounted(1, "/dev/sda1", "/", "rw"),
        mounted(2, "/dev/sdb1", "/mnt/b", "rw"),
        mounted(3, "/dev/sdc1", "/mnt/c", "rw"),
    ]);
    let newer = table(vec![
        mounted(1, "/dev/sda1", "/", "ro"),
        mounted(3, "/dev/sdc1", "/media/c", "rw"),
        mounted(9, "tmpfs", "/tmp", "rw"),
    ]);
    let kinds: Vec<MountEventKind> =
        collect(older.diff(&newer).unwrap()).iter().map(|evt| evt.kind()).collect();
    assert_eq!(
        kinds,
        vec![MountEventKind::Remount, MountEventKind::Move, MountEventKind::Mount, MountEventKind::UMount]
    );
}

#[test]
fn known_codes_become_their_events() {
    let a = entry("/a");
    let b = entry("/b");
    let change = |code: i32| Change::new(code, Some(a.clone()), Some(b.clone()));
    assert_eq!(change(1).classify(), Ok(MountEvent::Mount { filesystem: b.clone() }));
    assert_eq!(change(2).classify(), Ok(MountEvent::UMount { filesystem: a.clone() }));
    assert_eq!(change(3).classify(), Ok(MountEvent::Move { from: a.clone(), to: b.clone() }));
    assert_eq!(change(4).classify(), Ok(MountEvent::Remount { filesystem: b.clone() }));
    assert_eq!(
        change(5).classify(),
        Ok(MountEvent::Propagate { parent: a.clone(), child: b.clone() })
    );
}

#[test]
fn unknown_codes_are_reported_with_the_code() {
    let change = |code: i32| Change::new(code, Some(entry("/a")), Some(entry("/b")));
    assert_eq!(change(0).classify(), Err(Error::UndefinedDiffOperation(0)));
    assert_eq!(change(6).classify(), Err(Error::UndefinedDiffOperation(6)));
    assert_eq!(change(-1).classify(), Err(Error::UndefinedDiffOperation(4294967295)));
    assert_eq!(change(i32::MAX).classify(), Err(Error::UndefinedDiffOperation(2147483647)));
}

#[test]
fn a_missing_row_counts_as_a_row_without_fields() {
    let change = Change::new(1, None, None);
    assert_eq!(change.classify(), Ok(MountEvent::Mount { filesystem: FileSystem::default() }));
    assert_eq!(change.operation(), 1);
    assert_eq!(change.before(), None);
    assert_eq!(change.after(), None);
    let change = Change::new(3, Some(entry("/a")), None);
    assert_eq!(change.before(), Some(&entry("/a")));
    assert_eq!(
        change.classify(),
        Ok(MountEvent::Move { from: entry("/a"), to: FileSystem::default() })
    );
}

#[test]
fn diff_operation_codes() {
    assert_eq!(DiffOperation::try_from(1), Ok(DiffOperation::Mount));
    assert_eq!(DiffOperation::try_from(2), Ok(DiffOperation::UMount));
    assert_eq!(DiffOperation::try_from(3), Ok(DiffOperation::Move));
    assert_eq!(DiffOperation::try_from(4), Ok(DiffOperation::Remount));
    assert_eq!(DiffOperation::try_from(5), Ok(DiffOperation::Propagation));
    assert_eq!(DiffOperation::try_from(0), Err(Error::UndefinedDiffOperation(0)));
    assert_eq!(DiffOperation::try_from(-2), Err(Error::UndefinedDiffOperation(4294967294)));
    for op in [
        DiffOperation::Mount,
        DiffOperation::UMount,
        DiffOperation::Move,
        DiffOperation::Remount,
        DiffOperation::Propagation,
    ] {
        assert_eq!(DiffOperation::try_from(op.raw()), Ok(op));
        assert_eq!(op.raw() as u32, op.code());
    }
}

#[test]
fn iter_walks_the_rows_in_table_order() {
    let t = table(vec![entry("/a"), entry("/b"), entry("/c")]);
    assert_eq!(rows(t.iter().unwrap()), vec![entry("/a"), entry("/b"), entry("/c")]);
    assert_eq!(rows(Table::new().unwrap().iter().unwrap()), vec![]);
}

#[test]
fn every_iter_starts_anew() {
    let t = table(vec![entry("/a"), entry("/b")]);
    let mut first = t.iter().unwrap();
    assert_eq!(first.next(), Some(Ok(entry("/a"))));
    let mut second = t.iter().unwrap();
    assert_eq!(second.next(), Some(Ok(entry("/a"))));
    assert_eq!(first.next(), Some(Ok(entry("/b"))));
    assert_eq!(first.next(), None);
    assert_eq!(first.next(), None);
    assert_eq!(second.next(), Some(Ok(entry("/b"))));
    assert_eq!(second.next(), None);
}

#[test]
fn table_keeps_what_it_is_given() {
    let mut t = Table::new().unwrap();
    assert!(t.is_empty());
    assert_eq!(t.len(), 0);
    assert_eq!(t.get(0), None);
    t.push(entry("/a"));
    t.push(entry("/b"));
    assert!(!t.is_empty());
    assert_eq!(t.len(), 2);
    assert_eq!(t.get(0), Some(&entry("/a")));
    assert_eq!(t.get(1), Some(&entry("/b")));
    assert_eq!(t.get(2), None);
    assert_eq!(t, table(vec![entry("/a"), entry("/b")]));
}

#[test]
fn find_pair_gives_the_first_row_of_the_mount() {
    let t = table(vec![
        mounted(1, "/dev/sda1", "/", "rw"),
        mounted(2, "/dev/sdb1", "/mnt", "rw"),
        mounted(3, "/dev/sdb1", "/mnt", "ro"),
    ]);
    assert_eq!(t.find_pair(&mounted(9, "/dev/sdb1", "/mnt", "x")), Some(1));
    assert_eq!(t.find_pair(&mounted(9, "/dev/sda1", "/", "x")), Some(0));
    assert_eq!(t.find_pair(&mounted(9, "/dev/sda1", "/mnt", "x")), None);
    assert!(t.holds_unchanged(&mounted(9, "/dev/sdb1", "/mnt", "ro")));
    assert!(!t.holds_unchanged(&mounted(9, "/dev/sdb1", "/mnt", "x")));
}

#[test]
fn rows_without_source_and_identifier_count_as_one_mount_that_moved() {
    let older = table(vec![entry("/mnt/a")]);
    let newer = table(vec![entry("/mnt/b")]);
    assert_eq!(
        collect(older.diff(&newer).unwrap()),
        vec![MountEvent::Move { from: entry("/mnt/a"), to: entry("/mnt/b") }]
    );
}

#[test]
fn reset_walk_goes_the_way_it_is_told() {
    let t = table(vec![entry("/a"), entry("/b"), entry("/c")]);
    let mut walk = t.iter().unwrap();
    assert_eq!(walk.next(), Some(Ok(entry("/a"))));
    walk.reset(Some(Direction::Backward));
    assert_eq!(walk.next(), Some(Ok(entry("/c"))));
    assert_eq!(walk.next(), Some(Ok(entry("/b"))));
    walk.reset(None);
    assert_eq!(walk.next(), Some(Ok(entry("/c"))));
    assert_eq!(walk.next(), Some(Ok(entry("/b"))));
    assert_eq!(walk.next(), Some(Ok(entry("/a"))));
    assert_eq!(walk.next(), None);
    walk.reset(Some(Direction::Forward));
    assert_eq!(walk.next(), Some(Ok(entry("/a"))));

    let older = table(vec![entry("/a")]);
    let newer = table(vec![entry("/a"), entry("/b"), entry("/c")]);
    let mut changes = older.diff(&newer).unwrap();
    changes.reset(Some(Direction::Backward));
    assert_eq!(changes.next(), Some(Ok(MountEvent::Mount { filesystem: entry("/c") })));
    assert_eq!(changes.next(), Some(Ok(MountEvent::Mount { filesystem: entry("/b") })));
    assert_eq!(changes.next(), None);
}

#[test]
fn allocation_failures_become_errors_of_their_resource() {
    let table: AllocationError<Table> = AllocationError::default();
    assert_eq!(Error::from(table), Error::AllocationTable(table));
    let diff: AllocationError<TableDiff> = AllocationError::default();
    assert_eq!(Error::from(diff), Error::AllocationTableDiff(diff));
    let monitor: AllocationError<Monitor> = AllocationError::default();
    assert_eq!(Error::from(monitor), Error::AllocationMonitor(monitor));
    let cursor: AllocationError<IterInternal> = AllocationError::default();
    assert_eq!(Error::from(cursor), Error::AllocationIter(cursor));
    let row: AllocationError<FileSystem> = AllocationError::default();
    assert_eq!(Error::from(row), Error::AllocationFileSystem(row));
}

#[test]
fn walk_reports_a_change_of_unknown_kind_and_goes_on() {
    let diff = TableDiff::from_changes(vec![
        Change::new(1, None, Some(entry("/a"))),
        Change::new(77, Some(entry("/b")), Some(entry("/c"))),
        Change::new(2, Some(entry("/d")), None),
    ]);
    assert_eq!(diff.len(), 3);
    let mut walk = diff.into_iter();
    assert_eq!(walk.next(), Some(Ok(MountEvent::Mount { filesystem: entry("/a") })));
    assert_eq!(walk.next(), Some(Err(Error::UndefinedDiffOperation(77))));
    assert_eq!(walk.next(), Some(Ok(MountEvent::UMount { filesystem: entry("/d") })));
    assert_eq!(walk.next(), None);
}
