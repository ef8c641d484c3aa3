use hairpin::libmount::error::{unsigned, Error};
use hairpin::libmount::event::{Event, MountEvent, MountEventKind, MountEventMask};
use hairpin::libmount::fs::FileSystem;
use hairpin::libmount::monitor::MonitorType;

fn entry(target: &str) -> FileSystem {
    FileSystem::new().unwrap().with_target(target)
}

fn one_of_each() -> Vec<MountEvent> {
    vec![
        MountEvent::MonitorUpdate {
            location: "/proc/self/mountinfo".to_string(),
            monitor_type: MonitorType::Kernel,
        },
        MountEvent::Mount { filesystem: entry("/a") },
        MountEvent::UMount { filesystem: entry("/a") },
        MountEvent::Remount { filesystem: entry("/a") },
        MountEvent::Move { from: entry("/a"), to: entry("/b") },
        MountEvent::Propagate { parent: entry("/a"), child: entry("/a/b") },
    ]
}

fn kinds() -> Vec<MountEventKind> {
    vec![
        MountEventKind::MonitorUpdate,
        MountEventKind::Mount,
        MountEventKind::UMount,
        MountEventKind::Remount,
        MountEventKind::Move,
        MountEventKind::Propagate,
    ]
}

#[test]
fn mount_mask_matches_mount_event() {
    let evt = MountEvent::Mount { filesystem: entry("/mnt/a") };
    assert!(MountEventMask::mount().matches(&evt));
    assert!(!MountEventMask::umount().matches(&evt));
}

#[test]
fn kind_bits_are_the_six_low_bits() {
    let bits: Vec<u32> = kinds().into_iter().map(|kind| kind.bit()).collect();
    assert_eq!(bits, vec![0b1, 0b10, 0b100, 0b1000, 0b10000, 0b100000]);
}

#[test]
fn event_kind_follows_the_variant() {
    let found: Vec<MountEventKind> = one_of_each().iter().map(|evt| evt.kind()).collect();
    assert_eq!(found, kinds());
}

#[test]
fn mask_of_an_event_selects_its_kind_only() {
    for evt in one_of_each() {
        let mask = evt.mask();
        for kind in kinds() {
            assert_eq!(mask.contains(kind), kind == evt.kind());
        }
    }
}

#[test]
fn named_masks_select_their_kind_only() {
    let named = vec![
        MountEventMask::monitor_update(),
        MountEventMask::mount(),
        MountEventMask::umount(),
        MountEventMask::remount(),
        MountEventMask::moved(),
        MountEventMask::propagate(),
    ];
    for (i, mask) in named.iter().enumerate() {
        assert_eq!(*mask, MountEventMask::of(kinds()[i]));
        for (j, evt) in one_of_each().iter().enumerate() {
            assert_eq!(mask.matches(evt), i == j);
        }
    }
}

#[test]
fn union_selects_what_either_part_selects() {
    let mask = MountEventMask::mount() | MountEventMask::umount();
    let expected = vec![false, true, true, false, false, false];
    let found: Vec<bool> = one_of_each().iter().map(|evt| mask.matches(evt)).collect();
    assert_eq!(found, expected);
}

#[test]
fn empty_mask_selects_nothing_and_full_mask_everything() {
    for evt in one_of_each() {
        assert!(!MountEventMask::empty().matches(&evt));
        assert!(MountEventMask::all().matches(&evt));
    }
}

#[test]
fn two_events_make_the_mask_of_their_kinds() {
    let mask = MountEvent::Mount { filesystem: entry("/a") }
        | MountEvent::Move { from: entry("/a"), to: entry("/b") };
    assert_eq!(mask, MountEventMask::mount() | MountEventMask::moved());
    assert!(mask.contains(MountEventKind::Mount));
    assert!(mask.contains(MountEventKind::Move));
    assert!(!mask.contains(MountEventKind::UMount));
}

#[test]
fn mask_from_an_event_is_its_mask() {
    let evt = MountEvent::Remount { filesystem: entry("/a") };
    let mask: MountEventMask = evt.clone().into();
    assert_eq!(mask, MountEventMask::remount());
    assert_eq!(mask, evt.mask());
}

#[test]
fn clones_of_events_are_equal() {
    for evt in one_of_each() {
        assert_eq!(evt.clone(), evt);
        let item = Event::MountEvent(evt);
        assert_eq!(item.clone(), item);
    }
    assert_eq!(Event::Close.clone(), Event::Close);
    assert_eq!(Event::Error(Error::MonitorPoll(-5)).clone(), Event::Error(Error::MonitorPoll(-5)));
}

#[test]
fn negative_codes_wrap_around() {
    assert_eq!(unsigned(0), 0);
    assert_eq!(unsigned(7), 7);
    assert_eq!(unsigned(i32::MAX), 2147483647);
    assert_eq!(unsigned(-1), 4294967295);
    assert_eq!(unsigned(i32::MIN), 2147483648);
}
