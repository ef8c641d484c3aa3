use hairpin::libmount::fs::FileSystem;
use hairpin::libmount::parse::{
    fstab_row, identifier, mountinfo_row, parse, row_of, split_fields, split_lines, to_chars,
    utab_row, TableFormat,
};
use hairpin::libmount::table::Table;

fn row(source: &str, target: &str, fstype: &str, options: Option<&str>) -> FileSystem {
    let fs = FileSystem::new().unwrap().with_source(source).with_target(target).with_fstype(fstype);
    match options {
        Some(options) => fs.with_options(options),
        None => fs,
    }
}

fn kernel_row(id: i32, root: &str, target: &str, options: &str, fstype: &str, source: &str) -> FileSystem {
    FileSystem::new()
        .unwrap()
        .with_id(id)
        .with_source(source)
        .with_root(root)
        .with_target(target)
        .with_fstype(fstype)
        .with_options(options)
}

fn chars(text: &str) -> Vec<char> {
    text.chars().collect()
}

fn fields(line: &str) -> Vec<String> {
    split_fields(&chars(line))
}

#[test]
fn characters_of_a_text() {
    assert_eq!(to_chars(""), Vec::<char>::new());
    assert_eq!(to_chars("a b\n"), vec!['a', ' ', 'b', '\n']);
    assert_eq!(to_chars("/mnt/caf\u{e9}"), chars("/mnt/caf\u{e9}"));
}

#[test]
fn lines_stand_between_line_feeds() {
    let lines = |text: &str| -> Vec<String> {
        split_lines(&chars(text)).into_iter().map(|line| line.into_iter().collect()).collect()
    };
    assert_eq!(lines(""), vec![""]);
    assert_eq!(lines("a"), vec!["a"]);
    assert_eq!(lines("a\n"), vec!["a", ""]);
    assert_eq!(lines("a\nb c\n\nd"), vec!["a", "b c", "", "d"]);
    assert_eq!(lines("\n\n"), vec!["", "", ""]);
}

#[test]
fn fields_are_the_runs_between_blanks() {
    assert_eq!(fields(""), Vec::<String>::new());
    assert_eq!(fields("   \t "), Vec::<String>::new());
    assert_eq!(fields("a"), vec!["a"]);
    assert_eq!(
        fields("  /dev/sda1\t/  ext4 rw,noatime 0 1\r"),
        vec!["/dev/sda1", "/", "ext4", "rw,noatime", "0", "1"]
    );
    assert_eq!(fields("a  b"), vec!["a", "b"]);
}

#[test]
fn identifiers_are_decimal_numbers_that_fit() {
    assert_eq!(identifier("0"), Some(0));
    assert_eq!(identifier("36"), Some(36));
    assert_eq!(identifier("0036"), Some(36));
    assert_eq!(identifier("2147483647"), Some(2147483647));
    assert_eq!(identifier("000000000002147483647"), Some(2147483647));
    assert_eq!(identifier("2147483648"), None);
    assert_eq!(identifier("99999999999999999999999999"), None);
    assert_eq!(identifier(""), None);
    assert_eq!(identifier("-1"), None);
    assert_eq!(identifier("12a"), None);
    assert_eq!(identifier("a12"), None);
    assert_eq!(identifier("99999999999x"), None);
    assert_eq!(identifier("/dev/sda1"), None);
}

#[test]
fn static_row_takes_the_first_four_fields() {
    let of = |line: &str| fstab_row(&fields(line));
    assert_eq!(of("/dev/sda1 / ext4 rw 0 1"), Some(row("/dev/sda1", "/", "ext4", Some("rw"))));
    assert_eq!(of("proc /proc proc"), Some(row("proc", "/proc", "proc", None)));
    assert_eq!(of("proc /proc"), None);
    assert_eq!(of(""), None);
    assert_eq!(of("# /dev/sda1 / ext4 rw"), None);
    assert_eq!(of("#/dev/sda1 / ext4 rw"), None);
    assert_eq!(of("/dev/sda1 # ext4"), Some(row("/dev/sda1", "#", "ext4", None)));
}

#[test]
fn kernel_row_is_read_around_its_separator() {
    let of = |line: &str| mountinfo_row(&fields(line));
    assert_eq!(
        of("36 35 98:0 /mnt1 /mnt2 rw,noatime master:1 - ext3 /dev/root rw,errors=continue"),
        Some(kernel_row(36, "/mnt1", "/mnt2", "rw,noatime", "ext3", "/dev/root"))
    );
    assert_eq!(
        of("22 1 0:21 / /proc rw,nosuid - proc proc rw"),
        Some(kernel_row(22, "/", "/proc", "rw,nosuid", "proc", "proc"))
    );
    assert_eq!(
        of("40 1 8:1 / /mnt rw shared:1 master:2 - ext4 /dev/sda1 rw"),
        Some(kernel_row(40, "/", "/mnt", "rw", "ext4", "/dev/sda1"))
    );
    assert_eq!(
        of("41 1 8:1 / /mnt rw - ext4 /dev/sda1"),
        Some(kernel_row(41, "/", "/mnt", "rw", "ext4", "/dev/sda1"))
    );
    assert_eq!(of("41 1 8:1 / /mnt rw - ext4"), None);
    assert_eq!(of("41 1 8:1 / /mnt rw shared:1 ext4 /dev/sda1 rw"), None);
    assert_eq!(of("x41 1 8:1 / /mnt rw - ext4 /dev/sda1 rw"), None);
    assert_eq!(of("41 1 8:1 / - rw x ext4 /dev/sda1 rw"), None);
    assert_eq!(of("/dev/sda1 / ext4 rw 0 1"), None);
    assert_eq!(of(""), None);
}

#[test]
fn guessed_row_is_a_kernel_row_where_it_can_be() {
    let kernel = "36 35 98:0 / /mnt rw - ext3 /dev/root rw";
    let fstab = "/dev/sda1 / ext4 rw 0 1";
    assert_eq!(
        row_of(&fields(kernel), TableFormat::Guess),
        Some(kernel_row(36, "/", "/mnt", "rw", "ext3", "/dev/root"))
    );
    assert_eq!(
        row_of(&fields(kernel), TableFormat::Fstab),
        Some(row("36", "35", "98:0", Some("/")))
    );
    assert_eq!(row_of(&fields(kernel), TableFormat::MountInfo), row_of(&fields(kernel), TableFormat::Guess));
    assert_eq!(
        row_of(&fields(fstab), TableFormat::Guess),
        Some(row("/dev/sda1", "/", "ext4", Some("rw")))
    );
    assert_eq!(row_of(&fields(fstab), TableFormat::MountInfo), None);
    assert_eq!(row_of(&fields("# note"), TableFormat::Guess), None);
}

#[test]
fn table_of_a_text_has_its_rows_in_order() {
    let text = "# static table\n\n/dev/sda1 / ext4 rw,noatime 0 1\n\
                proc\t/proc\tproc\tdefaults\n   \nbroken line\n\
                tmpfs /tmp tmpfs";
    let expected = Table::from_entries(vec![
        row("/dev/sda1", "/", "ext4", Some("rw,noatime")),
        row("proc", "/proc", "proc", Some("defaults")),
        row("tmpfs", "/tmp", "tmpfs", None),
    ]);
    assert_eq!(Table::parse_fstab(text), Ok(expected.clone()));
    assert_eq!(Table::read(text), Ok(expected.clone()));
    assert_eq!(parse(text, TableFormat::Fstab), expected);
    assert_eq!(Table::parse_mtab(text), Ok(Table::new().unwrap()));
    assert_eq!(Table::parse_fstab(""), Ok(Table::new().unwrap()));
    assert_eq!(Table::read("\n\n# nothing\n"), Ok(Table::new().unwrap()));
}

#[test]
fn table_of_the_kernel_has_identifiers_and_roots() {
    let text = "22 1 0:21 / /proc rw,nosuid - proc proc rw\n\
                36 22 8:1 /home /mnt/home rw,noatime shared:1 - ext4 /dev/sda1 rw\n";
    let expected = Table::from_entries(vec![
        kernel_row(22, "/", "/proc", "rw,nosuid", "proc", "proc"),
        kernel_row(36, "/home", "/mnt/home", "rw,noatime", "ext4", "/dev/sda1"),
    ]);
    assert_eq!(Table::parse_mtab(text), Ok(expected.clone()));
    assert_eq!(Table::read(text), Ok(expected));
}

#[test]
fn parsed_tables_can_be_compared() {
    let older = Table::parse_fstab("/dev/sda1 / ext4 rw 0 1\n/dev/sdb1 /mnt/a ext4 rw 0 2\n").unwrap();
    let newer = Table::parse_fstab("/dev/sda1 / ext4 ro 0 1\n/dev/sdc1 /mnt/c ext4 rw 0 2\n").unwrap();
    let events = older.changes(&newer);
    assert_eq!(events.len(), 3);
    assert_eq!(older.changes(&older), vec![]);
    assert_eq!(Table::new().unwrap().changes(&newer), newer.replay());
}

#[test]
fn moved_mount_of_the_kernel_is_a_move() {
    let older = Table::parse_mtab("36 22 8:1 / /mnt/a rw - ext4 /dev/sda1 rw\n").unwrap();
    let newer = Table::parse_mtab("36 22 8:1 / /mnt/b rw - ext4 /dev/sda1 rw\n").unwrap();
    let events = older.changes(&newer);
    assert_eq!(
        events,
        vec![hairpin::libmount::event::MountEvent::Move {
            from: kernel_row(36, "/", "/mnt/a", "rw", "ext4", "/dev/sda1"),
            to: kernel_row(36, "/", "/mnt/b", "rw", "ext4", "/dev/sda1"),
        }]
    );
}

#[test]
fn userspace_row_is_read_field_by_field() {
    let of = |line: &str| utab_row(&fields(line));
    assert_eq!(
        of("SRC=/dev/sda1 TARGET=/mnt/a ROOT=/ BINDSRC=/home/user OPTS=user,noauto ATTRS=x ID=36"),
        Some(
            FileSystem::new()
                .unwrap()
                .with_id(36)
                .with_source("/dev/sda1")
                .with_root("/")
                .with_bindsrc("/home/user")
                .with_target("/mnt/a")
                .with_options("user,noauto")
        )
    );
    assert_eq!(
        of("TARGET=/mnt/a BINDSRC=/srv/a"),
        Some(FileSystem::new().unwrap().with_target("/mnt/a").with_bindsrc("/srv/a"))
    );
    assert_eq!(
        of("TARGET=/mnt/a TARGET=/mnt/b word OTHER=1 ID=x ID=99999999999"),
        Some(FileSystem::new().unwrap().with_target("/mnt/b"))
    );
    assert_eq!(of("OPTS=a=b"), Some(FileSystem::new().unwrap().with_options("a=b")));
    assert_eq!(of("SRC="), Some(FileSystem::new().unwrap().with_source("")));
    assert_eq!(of("OTHER=1 TARGET=/mnt/a"), None);
    assert_eq!(of("SRC"), None);
    assert_eq!(of("=SRC"), None);
    assert_eq!(of("/dev/sda1 / ext4 rw"), None);
    assert_eq!(of(""), None);
}

#[test]
fn guessed_table_takes_each_line_in_its_form() {
    let text = "36 35 98:0 / /mnt rw - ext3 /dev/root rw\n\
                SRC=/dev/sdb1 TARGET=/media BINDSRC=/srv\n\
                /dev/sda1 / ext4 rw 0 1\n";
    let expected = Table::from_entries(vec![
        kernel_row(36, "/", "/mnt", "rw", "ext3", "/dev/root"),
        FileSystem::new().unwrap().with_source("/dev/sdb1").with_target("/media").with_bindsrc("/srv"),
        row("/dev/sda1", "/", "ext4", Some("rw")),
    ]);
    assert_eq!(Table::read(text), Ok(expected));
    assert_eq!(
        parse(text, TableFormat::Utab),
        Table::from_entries(vec![FileSystem::new()
            .unwrap()
            .with_source("/dev/sdb1")
            .with_target("/media")
            .with_bindsrc("/srv")])
    );
}
