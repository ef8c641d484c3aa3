use std::time::Duration;

use hairpin::libmount::error::{AllocationError, Error};
use hairpin::libmount::event::{Event, MountEvent};
use hairpin::libmount::fs::FileSystem;
use hairpin::libmount::monitor::{
    Monitor, MonitorType, NextChange, PollAction, PollInput, PollLoop, PollPhase, WaitOutcome,
};
use hairpin::libmount::table::Table;

fn entry(target: &str) -> FileSystem {
    FileSystem::new().unwrap().with_target(target)
}

fn table(targets: &[&str]) -> Table {
    Table::from_entries(targets.iter().map(|target| entry(target)).collect())
}

fn mount(target: &str) -> Event {
    Event::MountEvent(MountEvent::Mount { filesystem: entry(target) })
}

fn umount(target: &str) -> Event {
    Event::MountEvent(MountEvent::UMount { filesystem: entry(target) })
}

fn update(location: &str, monitor_type: MonitorType) -> Event {
    Event::MountEvent(MountEvent::MonitorUpdate { location: location.to_string(), monitor_type })
}

fn change(location: &str, monitor_type: i32) -> PollInput {
    PollInput::Drained(NextChange::Change { location: location.to_string(), monitor_type })
}

fn draining(current: Option<Table>) -> PollLoop {
    let (mut poll, _) = PollLoop::start(250, current, false);
    assert_eq!(poll.step(PollInput::StopChecked(false)), vec![]);
    assert_eq!(poll.step(PollInput::Waited(WaitOutcome::ChangeReady)), vec![]);
    assert_eq!(poll.phase(), PollPhase::Draining);
    poll
}

#[test]
fn monitor_type_codes() {
    assert_eq!(MonitorType::try_from(1), Ok(MonitorType::Userspace));
    assert_eq!(MonitorType::try_from(2), Ok(MonitorType::Kernel));
    assert_eq!(MonitorType::try_from(0), Err(Error::UndefinedMonitorType(0)));
    assert_eq!(MonitorType::try_from(3), Err(Error::UndefinedMonitorType(3)));
    assert_eq!(MonitorType::try_from(-1), Err(Error::UndefinedMonitorType(4294967295)));
    assert_eq!(MonitorType::Userspace.code(), 1);
    assert_eq!(MonitorType::Kernel.code(), 2);
}

#[test]
fn wait_codes() {
    assert_eq!(WaitOutcome::from_code(0), WaitOutcome::TimedOut);
    assert_eq!(WaitOutcome::from_code(1), WaitOutcome::ChangeReady);
    assert_eq!(WaitOutcome::from_code(-1), WaitOutcome::Fatal(-1));
    assert_eq!(WaitOutcome::from_code(2), WaitOutcome::Fatal(2));
}

#[test]
fn next_change_codes() {
    assert_eq!(
        NextChange::from_code(0, "/run/mount/utab", 1),
        NextChange::Change { location: "/run/mount/utab".to_string(), monitor_type: 1 }
    );
    assert_eq!(NextChange::from_code(1, "/run/mount/utab", 1), NextChange::Exhausted);
    assert_eq!(NextChange::from_code(-22, "", 0), NextChange::Fatal(-22));
}

#[test]
fn monitor_listens_to_what_it_is_told() {
    let mut monitor = Monitor::new().unwrap();
    assert!(!monitor.kernel_enabled());
    assert!(!monitor.userspace_enabled());
    assert_eq!(monitor.userspace_file(), None);
    assert_eq!(monitor.with_kernel(true), Ok(()));
    assert_eq!(monitor.with_userspace(true, Some("/tmp/utab")), Ok(()));
    assert!(monitor.kernel_enabled());
    assert!(monitor.userspace_enabled());
    assert_eq!(monitor.userspace_file().map(|s| s.as_str()), Some("/tmp/utab"));
    assert_eq!(monitor.with_userspace(false, None), Ok(()));
    assert!(!monitor.userspace_enabled());
    assert_eq!(monitor.userspace_file(), None);
    assert_eq!(monitor.clone(), monitor);
}

#[test]
fn start_replays_the_snapshot_when_asked() {
    let (poll, events) = PollLoop::start(100, Some(table(&["/a", "/b"])), true);
    assert_eq!(events, vec![mount("/a"), mount("/b")]);
    assert_eq!(poll.phase(), PollPhase::Idle);
    assert_eq!(poll.action(), PollAction::CheckStop);
    assert_eq!(poll.current(), Some(&table(&["/a", "/b"])));
    assert_eq!(poll.result(), None);

    let (_, events) = PollLoop::start(100, Some(table(&["/a", "/b"])), false);
    assert_eq!(events, vec![]);
    let (poll, events) = PollLoop::start(100, None, true);
    assert_eq!(events, vec![]);
    assert_eq!(poll.current(), None);
}

#[test]
fn poll_until_starts_a_loop_at_the_rate_given() {
    let monitor = Monitor::new().unwrap();
    let (mut poll, events) =
        monitor.poll_until(Duration::from_millis(1500), Some(table(&["/a"])), true);
    assert_eq!(events, vec![mount("/a")]);
    assert_eq!(poll.step(PollInput::StopChecked(false)), vec![]);
    assert_eq!(poll.action(), PollAction::Wait(1500));

    let monitor = Monitor::new().unwrap();
    let (mut poll, _) = monitor.poll_until(Duration::ZERO, None, true);
    poll.step(PollInput::StopChecked(false));
    assert_eq!(poll.action(), PollAction::Wait(0));
}

#[test]
fn timeout_goes_back_to_the_stop_check() {
    let (mut poll, _) = PollLoop::start(250, None, false);
    assert_eq!(poll.step(PollInput::StopChecked(false)), vec![]);
    assert_eq!(poll.phase(), PollPhase::WaitingForChange);
    assert_eq!(poll.action(), PollAction::Wait(250));
    assert_eq!(poll.step(PollInput::Waited(WaitOutcome::TimedOut)), vec![]);
    assert_eq!(poll.phase(), PollPhase::Idle);
    assert_eq!(poll.action(), PollAction::CheckStop);
}

#[test]
fn one_notification_is_reported_read_and_compared() {
    let mut poll = draining(Some(table(&["/a"])));
    assert_eq!(poll.action(), PollAction::TakeChange);
    assert_eq!(
        poll.step(change("/proc/self/mountinfo", 2)),
        vec![update("/proc/self/mountinfo", MonitorType::Kernel)]
    );
    assert_eq!(poll.phase(), PollPhase::Reloading);
    assert_eq!(poll.action(), PollAction::Reload("/proc/self/mountinfo".to_string()));
    assert_eq!(poll.step(PollInput::Reloaded(Ok(table(&["/a", "/b"])))), vec![mount("/b")]);
    assert_eq!(poll.phase(), PollPhase::Draining);
    assert_eq!(poll.current(), Some(&table(&["/a", "/b"])));
    assert_eq!(poll.step(PollInput::Drained(NextChange::Exhausted)), vec![]);
    assert_eq!(poll.phase(), PollPhase::Idle);
}

#[test]
fn first_table_without_a_snapshot_is_replayed() {
    let mut poll = draining(None);
    assert_eq!(poll.step(change("/run/mount/utab", 1)), vec![update("/run/mount/utab", MonitorType::Userspace)]);
    assert_eq!(
        poll.step(PollInput::Reloaded(Ok(table(&["/a", "/b"])))),
        vec![mount("/a"), mount("/b")]
    );
    assert_eq!(poll.current(), Some(&table(&["/a", "/b"])));
}

#[test]
fn every_notification_of_a_wake_is_taken_before_the_next_wait() {
    let mut poll = draining(Some(table(&["/a"])));
    let tables = vec![table(&["/a", "/b"]), table(&["/b"]), table(&["/b", "/c", "/d"])];
    let expected = vec![
        vec![mount("/b")],
        vec![umount("/a")],
        vec![mount("/c"), mount("/d")],
    ];
    for (t, events) in tables.into_iter().zip(expected) {
        assert_eq!(poll.action(), PollAction::TakeChange);
        assert_eq!(poll.step(change("/t", 2)), vec![update("/t", MonitorType::Kernel)]);
        assert_eq!(poll.action(), PollAction::Reload("/t".to_string()));
        assert_eq!(poll.step(PollInput::Reloaded(Ok(t))), events);
    }
    assert_eq!(poll.action(), PollAction::TakeChange);
    assert_eq!(poll.current(), Some(&table(&["/b", "/c", "/d"])));
    assert_eq!(poll.step(PollInput::Drained(NextChange::Exhausted)), vec![]);
    assert_eq!(poll.action(), PollAction::CheckStop);
}

#[test]
fn stop_is_seen_between_waits_only() {
    let mut poll = draining(Some(table(&["/a"])));
    assert_eq!(poll.step(PollInput::StopChecked(true)), vec![]);
    assert_eq!(poll.phase(), PollPhase::Draining);
    poll.step(change("/t", 2));
    assert_eq!(poll.step(PollInput::StopChecked(true)), vec![]);
    assert_eq!(poll.phase(), PollPhase::Reloading);
    assert_eq!(
        poll.step(PollInput::Reloaded(Ok(table(&["/a", "/b"])))),
        vec![mount("/b")]
    );
    assert_eq!(poll.step(PollInput::Drained(NextChange::Exhausted)), vec![]);
    assert_eq!(poll.step(PollInput::StopChecked(true)), vec![Event::Close]);
    assert_eq!(poll.phase(), PollPhase::Terminated);
    assert!(poll.is_terminated());
    assert_eq!(poll.result(), Some(Ok(())));
    assert_eq!(poll.action(), PollAction::Finish(Ok(())));
}

#[test]
fn nothing_follows_the_stop() {
    let (mut poll, _) = PollLoop::start(0, Some(table(&["/a"])), false);
    assert_eq!(poll.step(PollInput::StopChecked(true)), vec![Event::Close]);
    let later = vec![
        PollInput::StopChecked(false),
        PollInput::Waited(WaitOutcome::ChangeReady),
        change("/t", 2),
        PollInput::Reloaded(Ok(table(&["/b"]))),
        PollInput::Drained(NextChange::Exhausted),
        PollInput::Waited(WaitOutcome::Fatal(-1)),
        PollInput::SinkClosed,
    ];
    for input in later {
        assert_eq!(poll.step(input), vec![]);
        assert_eq!(poll.phase(), PollPhase::Terminated);
        assert_eq!(poll.result(), Some(Ok(())));
        assert_eq!(poll.current(), Some(&table(&["/a"])));
    }
}

#[test]
fn failed_wait_ends_the_loop_with_an_error_event() {
    let (mut poll, _) = PollLoop::start(0, None, false);
    poll.step(PollInput::StopChecked(false));
    assert_eq!(
        poll.step(PollInput::Waited(WaitOutcome::Fatal(-9))),
        vec![Event::Error(Error::MonitorPoll(-9))]
    );
    assert_eq!(poll.result(), Some(Err(Error::MonitorPoll(-9))));
    assert_eq!(poll.action(), PollAction::Finish(Err(Error::MonitorPoll(-9))));
}

#[test]
fn failed_drain_ends_the_loop_with_an_error_event() {
    let mut poll = draining(None);
    assert_eq!(
        poll.step(PollInput::Drained(NextChange::Fatal(-5))),
        vec![Event::Error(Error::MonitorNextChange(-5))]
    );
    assert_eq!(poll.result(), Some(Err(Error::MonitorNextChange(-5))));
}

#[test]
fn unknown_channel_ends_the_loop_with_an_error_event() {
    let mut poll = draining(None);
    assert_eq!(
        poll.step(change("/t", 7)),
        vec![Event::Error(Error::UndefinedMonitorType(7))]
    );
    assert_eq!(poll.result(), Some(Err(Error::UndefinedMonitorType(7))));
}

#[test]
fn unreadable_table_ends_the_loop_with_an_error_event() {
    let mut poll = draining(Some(table(&["/a"])));
    poll.step(change("/t", 2));
    let failure: AllocationError<Table> = AllocationError::default();
    assert_eq!(
        poll.step(PollInput::Reloaded(Err(failure))),
        vec![Event::Error(Error::AllocationTable(failure))]
    );
    assert_eq!(poll.result(), Some(Err(Error::AllocationTable(failure))));
    assert_eq!(poll.current(), Some(&table(&["/a"])));
}

#[test]
fn closed_sink_ends_the_loop_quietly() {
    let mut poll = draining(Some(table(&["/a"])));
    poll.step(change("/t", 2));
    assert_eq!(poll.step(PollInput::SinkClosed), vec![]);
    assert!(poll.is_terminated());
    assert_eq!(poll.result(), Some(Ok(())));
}

#[test]
fn reports_out_of_turn_change_nothing() {
    let (mut poll, _) = PollLoop::start(5, Some(table(&["/a"])), false);
    for input in [
        PollInput::Waited(WaitOutcome::ChangeReady),
        change("/t", 2),
        PollInput::Reloaded(Ok(table(&["/b"]))),
        PollInput::Drained(NextChange::Exhausted),
    ] {
        assert_eq!(poll.step(input), vec![]);
        assert_eq!(poll.phase(), PollPhase::Idle);
        assert_eq!(poll.current(), Some(&table(&["/a"])));
    }
    poll.step(PollInput::StopChecked(false));
    for input in [PollInput::StopChecked(true), change("/t", 2), PollInput::Reloaded(Ok(table(&["/b"])))] {
        assert_eq!(poll.step(input), vec![]);
        assert_eq!(poll.phase(), PollPhase::WaitingForChange);
    }
}
