use core::time::Duration;
use vstd::prelude::*;
use vstd::std_specs::convert::TryFromSpecImpl;

use crate::libmount::error::{unsigned, spec_unsigned, AllocationError, Error};
use crate::libmount::event::{Event, EventView, MountEvent, MountEventView};
use crate::libmount::fs::{text_clone, text_view, MountEntry};
use crate::libmount::table::{spec_changes, spec_replay, events_view, Table};
use crate::libmount::util::{duration_millis, spec_wait_timeout, wait_timeout};

verus! {

/// The raw code of the userspace channel.
pub const MONITOR_TYPE_USERSPACE: u32 = 1;

/// The raw code of the kernel channel.
pub const MONITOR_TYPE_KERNEL: u32 = 2;

/// The channel that a notification came through.
#[derive(Debug, Clone, Copy, PartialEq, Eq, Structural)]
pub enum MonitorType {
    Userspace,
    Kernel,
}

impl MonitorType {
    /// The raw code of this channel.
    pub open spec fn spec_code(self) -> u32 {
        match self {
            MonitorType::Userspace => MONITOR_TYPE_USERSPACE,
            MonitorType::Kernel => MONITOR_TYPE_KERNEL,
        }
    }

    /// The channel that a raw code stands for.
    pub open spec fn spec_try_from(value: i32) -> Result<Self, Error> {
        if spec_unsigned(value) == MONITOR_TYPE_USERSPACE {
            Ok(MonitorType::Userspace)
        } else if spec_unsigned(value) == MONITOR_TYPE_KERNEL {
            Ok(MonitorType::Kernel)
        } else {
            Err(Error::UndefinedMonitorType(spec_unsigned(value)))
        }
    }

    pub fn code(self) -> (r: u32)
        ensures
            r == self.spec_code(),
    {
        match self {
            MonitorType::Userspace => MONITOR_TYPE_USERSPACE,
            MonitorType::Kernel => MONITOR_TYPE_KERNEL,
        }
    }
}

impl TryFromSpecImpl<i32> for MonitorType {
    open spec fn obeys_try_from_spec() -> bool {
        true
    }

    open spec fn try_from_spec(value: i32) -> Result<Self, Error> {
        Self::spec_try_from(value)
    }
}

impl TryFrom<i32> for MonitorType {
    type Error = Error;

    fn try_from(value: i32) -> (r: Result<Self, Error>) {
        let code: u32 = unsigned(value);
        if code == MONITOR_TYPE_USERSPACE {
            Ok(MonitorType::Userspace)
        } else if code == MONITOR_TYPE_KERNEL {
            Ok(MonitorType::Kernel)
        } else {
            Err(Error::UndefinedMonitorType(code))
        }
    }
}

/// Which sources of notifications a monitor listens to.
#[derive(Debug, PartialEq, Eq)]
pub struct Monitor {
    kernel: bool,
    userspace: bool,
    userspace_file: Option<String>,
}

/// A `Monitor` as a mathematical value.
pub ghost struct MonitorView {
    pub kernel: bool,
    pub userspace: bool,
    pub userspace_file: Option<Seq<char>>,
}

impl View for Monitor {
    type V = MonitorView;

    closed spec fn view(&self) -> MonitorView {
        MonitorView {
            kernel: self.kernel,
            userspace: self.userspace,
            userspace_file: text_view(self.userspace_file),
        }
    }
}

impl Clone for Monitor {
    fn clone(&self) -> (r: Self)
        ensures
            r@ == self@,
    {
        Monitor {
            kernel: self.kernel,
            userspace: self.userspace,
            userspace_file: text_clone(&self.userspace_file),
        }
    }
}

impl Monitor {
    /// A monitor that listens to nothing yet.
    pub fn new() -> (r: Result<Self, AllocationError<Monitor>>)
        ensures
            r is Ok,
            r->Ok_0@ == (MonitorView { kernel: false, userspace: false, userspace_file: None }),
    {
        Ok(Monitor { kernel: false, userspace: false, userspace_file: None })
    }

    /// Switches the notifications of the kernel on or off.
    pub fn with_kernel(&mut self, enabled: bool) -> (r: Result<(), Error>)
        ensures
            r is Ok,
            final(self)@ == (MonitorView { kernel: enabled, ..old(self)@ }),
    {
        self.kernel = enabled;
        Ok(())
    }

    /// Switches the notifications of userspace on or off. With a file name,
    /// that file is watched in place of the usual one.
    pub fn with_userspace(&mut self, enabled: bool, filename: Option<&str>) -> (r: Result<
        (),
        Error,
    >)
        ensures
            r is Ok,
            final(self)@ == (MonitorView {
                userspace: enabled,
                userspace_file: match filename {
                    Some(name) => Some(name@),
                    None => None,
                },
                ..old(self)@
            }),
    {
        self.userspace = enabled;
        self.userspace_file = match filename {
            Some(name) => Some(name.to_owned()),
            None => None,
        };
        Ok(())
    }

    pub fn kernel_enabled(&self) -> (r: bool)
        ensures
            r == self@.kernel,
    {
        self.kernel
    }

    pub fn userspace_enabled(&self) -> (r: bool)
        ensures
            r == self@.userspace,
    {
        self.userspace
    }

    pub fn userspace_file(&self) -> (r: Option<&String>)
        ensures
            r is Some <==> self@.userspace_file is Some,
            r is Some ==> r->Some_0@ == self@.userspace_file->Some_0,
    {
        self.userspace_file.as_ref()
    }

    /// Starts a poll loop on this monitor. The loop waits `rate` at a time,
    /// compares each table that it is handed with `current_table`, and, with
    /// `fire_initial`, first reports every row of `current_table` as mounted:
    /// those events come back with the loop.
    pub fn poll_until(self, rate: Duration, current_table: Option<Table>, fire_initial: bool) -> (r:
        (PollLoop, Vec<Event>))
        ensures
            (r.0@, emitted_view(r.1@)) == spec_start(
                spec_wait_timeout(duration_millis(rate)),
                table_view(current_table),
                fire_initial,
            ),
            well_formed(r.0@),
    {
        PollLoop::start(wait_timeout(rate.as_millis()), current_table, fire_initial)
    }
}

/// What a blocking wait on the monitor came back with.
#[derive(Debug, Clone, Copy, PartialEq, Eq, Structural)]
pub enum WaitOutcome {
    /// The time ran out and nothing changed.
    TimedOut,
    /// A change waits to be taken.
    ChangeReady,
    /// The wait failed with this code.
    Fatal(i32),
}

impl WaitOutcome {
    pub open spec fn spec_from_code(code: i32) -> WaitOutcome {
        if code == 0 {
            WaitOutcome::TimedOut
        } else if code == 1 {
            WaitOutcome::ChangeReady
        } else {
            WaitOutcome::Fatal(code)
        }
    }

    /// Reads the raw result of a wait: 0 is a timeout, 1 a change, and
    /// anything else a failure.
    pub fn from_code(code: i32) -> (r: WaitOutcome)
        ensures
            r == Self::spec_from_code(code),
    {
        if code == 0 {
            WaitOutcome::TimedOut
        } else if code == 1 {
            WaitOutcome::ChangeReady
        } else {
            WaitOutcome::Fatal(code)
        }
    }
}

/// What taking one pending notification came back with.
#[derive(Debug, PartialEq, Eq)]
pub enum NextChange {
    /// The table at `location` changed; `monitor_type` is the raw code of
    /// the channel that said so.
    Change { location: String, monitor_type: i32 },
    /// No notification is pending any more.
    Exhausted,
    /// Taking the notification failed with this code.
    Fatal(i32),
}

/// A `NextChange` as a mathematical value.
pub ghost enum NextChangeView {
    Change { location: Seq<char>, monitor_type: i32 },
    Exhausted,
    Fatal(i32),
}

impl View for NextChange {
    type V = NextChangeView;

    open spec fn view(&self) -> NextChangeView {
        match self {
            NextChange::Change { location, monitor_type } => NextChangeView::Change {
                location: location@,
                monitor_type: *monitor_type,
            },
            NextChange::Exhausted => NextChangeView::Exhausted,
            NextChange::Fatal(code) => NextChangeView::Fatal(*code),
        }
    }
}

impl NextChange {
    pub open spec fn spec_from_code(
        code: i32,
        location: Seq<char>,
        monitor_type: i32,
    ) -> NextChangeView {
        if code == 0 {
            NextChangeView::Change { location, monitor_type }
        } else if code == 1 {
            NextChangeView::Exhausted
        } else {
            NextChangeView::Fatal(code)
        }
    }

    /// Reads the raw result of taking a notification: 0 comes with the
    /// location and the channel, 1 says that none is pending, and anything
    /// else is a failure.
    pub fn from_code(code: i32, location: &str, monitor_type: i32) -> (r: NextChange)
        ensures
            r@ == Self::spec_from_code(code, location@, monitor_type),
    {
        if code == 0 {
            NextChange::Change { location: location.to_owned(), monitor_type }
        } else if code == 1 {
            NextChange::Exhausted
        } else {
            NextChange::Fatal(code)
        }
    }
}

/// Where a poll loop stands.
#[derive(Debug, Clone, Copy, PartialEq, Eq, Structural)]
pub enum PollPhase {
    /// Between two waits: the stop condition is looked at here, and only
    /// here.
    Idle,
    /// In the blocking wait.
    WaitingForChange,
    /// Taking the notifications that one wake brought, one by one.
    Draining,
    /// Reading the table that the notification in hand named.
    Reloading,
    /// Done, for good.
    Terminated,
}

/// What the driver of a poll loop reports back to it.
#[derive(Debug, PartialEq, Eq)]
pub enum PollInput {
    /// Whether a stop was requested.
    StopChecked(bool),
    Waited(WaitOutcome),
    Drained(NextChange),
    Reloaded(Result<Table, AllocationError<Table>>),
    /// An event could not be handed on: nobody listens any more.
    SinkClosed,
}

/// A `PollInput` as a mathematical value.
pub ghost enum PollInputView {
    StopChecked(bool),
    Waited(WaitOutcome),
    Drained(NextChangeView),
    Reloaded(Result<Seq<MountEntry>, AllocationError<Table>>),
    SinkClosed,
}

impl View for PollInput {
    type V = PollInputView;

    open spec fn view(&self) -> PollInputView {
        match self {
            PollInput::StopChecked(stop) => PollInputView::StopChecked(*stop),
            PollInput::Waited(outcome) => PollInputView::Waited(*outcome),
            PollInput::Drained(change) => PollInputView::Drained(change@),
            PollInput::Reloaded(Ok(table)) => PollInputView::Reloaded(Ok(table@)),
            PollInput::Reloaded(Err(e)) => PollInputView::Reloaded(Err(*e)),
            PollInput::SinkClosed => PollInputView::SinkClosed,
        }
    }
}

/// What a poll loop asks its driver to do next.
#[derive(Debug, PartialEq, Eq)]
pub enum PollAction {
    /// Find out whether a stop was requested.
    CheckStop,
    /// Wait for a change, this many milliseconds at most.
    Wait(i32),
    /// Take the next pending notification.
    TakeChange,
    /// Read the table at this location.
    Reload(String),
    /// Nothing more: the loop has ended with this result.
    Finish(Result<(), Error>),
}

/// A `PollAction` as a mathematical value.
pub ghost enum PollActionView {
    CheckStop,
    Wait(i32),
    TakeChange,
    Reload(Seq<char>),
    Finish(Result<(), Error>),
}

impl View for PollAction {
    type V = PollActionView;

    open spec fn view(&self) -> PollActionView {
        match self {
            PollAction::CheckStop => PollActionView::CheckStop,
            PollAction::Wait(timeout) => PollActionView::Wait(*timeout),
            PollAction::TakeChange => PollActionView::TakeChange,
            PollAction::Reload(location) => PollActionView::Reload(location@),
            PollAction::Finish(result) => PollActionView::Finish(*result),
        }
    }
}

/// The poll loop as a state machine. Its driver does what `action` asks,
/// reports the outcome to `step`, and hands on the events that `step`
/// returns, in their order.
#[derive(Debug, PartialEq, Eq)]
pub struct PollLoop {
    phase: PollPhase,
    current: Option<Table>,
    timeout: i32,
    failure: Option<Error>,
    location: Option<String>,
}

/// A `PollLoop` as a mathematical value.
pub ghost struct PollState {
    pub phase: PollPhase,
    /// The snapshot that the next table is compared with.
    pub current: Option<Seq<MountEntry>>,
    /// The milliseconds that each wait may take.
    pub timeout: i32,
    /// Why the loop ended, where it ended in failure.
    pub failure: Option<Error>,
    /// The table that is being read.
    pub location: Option<Seq<char>>,
}

/// What an optional table holds.
pub open spec fn table_view(table: Option<Table>) -> Option<Seq<MountEntry>> {
    match table {
        Some(t) => Some(t@),
        None => None,
    }
}

/// What a sequence of items for the dispatcher holds.
pub open spec fn emitted_view(events: Seq<Event>) -> Seq<EventView> {
    events.map_values(|event: Event| event@)
}

/// The mount events as items for the dispatcher.
pub open spec fn mount_events(events: Seq<MountEventView>) -> Seq<EventView> {
    events.map_values(|event: MountEventView| EventView::MountEvent(event))
}

/// What a new table amounts to: its differences from the snapshot in hand,
/// or, without one, the mount of each of its rows.
pub open spec fn spec_reload_events(
    current: Option<Seq<MountEntry>>,
    table: Seq<MountEntry>,
) -> Seq<EventView> {
    match current {
        Some(snapshot) => mount_events(spec_changes(snapshot, table)),
        None => mount_events(spec_replay(table)),
    }
}

/// The loop before its first step, and the events of the start-up replay.
pub open spec fn spec_start(
    timeout: i32,
    current: Option<Seq<MountEntry>>,
    fire_initial: bool,
) -> (PollState, Seq<EventView>) {
    (
        PollState { phase: PollPhase::Idle, current, timeout, failure: None, location: None },
        if fire_initial && current is Some {
            mount_events(spec_replay(current->Some_0))
        } else {
            Seq::empty()
        },
    )
}

/// The end of the loop in failure: the failure goes out as an event.
pub open spec fn spec_fail(state: PollState, error: Error) -> (PollState, Seq<EventView>) {
    (
        PollState {
            phase: PollPhase::Terminated,
            failure: Some(error),
            location: None,
            ..state
        },
        seq![EventView::Error(error)],
    )
}

pub open spec fn spec_enter(state: PollState, phase: PollPhase) -> (PollState, Seq<EventView>) {
    (PollState { phase, ..state }, Seq::empty())
}

/// One step of the loop: the state after `input`, and the events that go
/// out, in order. An input that the phase does not wait for changes nothing.
pub open spec fn spec_step(state: PollState, input: PollInputView) -> (PollState, Seq<EventView>) {
    match (state.phase, input) {
        (PollPhase::Terminated, _) => (state, Seq::empty()),
        (_, PollInputView::SinkClosed) => (
            PollState { phase: PollPhase::Terminated, location: None, ..state },
            Seq::empty(),
        ),
        (PollPhase::Idle, PollInputView::StopChecked(stop)) => if stop {
            (PollState { phase: PollPhase::Terminated, ..state }, seq![EventView::Close])
        } else {
            spec_enter(state, PollPhase::WaitingForChange)
        },
        (PollPhase::WaitingForChange, PollInputView::Waited(WaitOutcome::TimedOut)) => spec_enter(
            state,
            PollPhase::Idle,
        ),
        (
            PollPhase::WaitingForChange,
            PollInputView::Waited(WaitOutcome::ChangeReady),
        ) => spec_enter(state, PollPhase::Draining),
        (PollPhase::WaitingForChange, PollInputView::Waited(WaitOutcome::Fatal(code))) => spec_fail(
            state,
            Error::MonitorPoll(code),
        ),
        (PollPhase::Draining, PollInputView::Drained(NextChangeView::Exhausted)) => spec_enter(
            state,
            PollPhase::Idle,
        ),
        (PollPhase::Draining, PollInputView::Drained(NextChangeView::Fatal(code))) => spec_fail(
            state,
            Error::MonitorNextChange(code),
        ),
        (
            PollPhase::Draining,
            PollInputView::Drained(NextChangeView::Change { location, monitor_type }),
        ) => match MonitorType::spec_try_from(monitor_type) {
            Ok(channel) => (
                PollState { phase: PollPhase::Reloading, location: Some(location), ..state },
                seq![
                    EventView::MountEvent(
                        MountEventView::MonitorUpdate { location, monitor_type: channel },
                    ),
                ],
            ),
            Err(error) => spec_fail(state, error),
        },
        (PollPhase::Reloading, PollInputView::Reloaded(Ok(table))) => (
            PollState {
                phase: PollPhase::Draining,
                current: Some(table),
                location: None,
                ..state
            },
            spec_reload_events(state.current, table),
        ),
        (PollPhase::Reloading, PollInputView::Reloaded(Err(error))) => spec_fail(
            state,
            Error::AllocationTable(error),
        ),
        _ => (state, Seq::empty()),
    }
}

/// What the loop asks for in a state.
pub open spec fn spec_action(state: PollState) -> PollActionView {
    match state.phase {
        PollPhase::Idle => PollActionView::CheckStop,
        PollPhase::WaitingForChange => PollActionView::Wait(state.timeout),
        PollPhase::Draining => PollActionView::TakeChange,
        PollPhase::Reloading => match state.location {
            Some(location) => PollActionView::Reload(location),
            None => PollActionView::TakeChange,
        },
        PollPhase::Terminated => PollActionView::Finish(spec_result(state)),
    }
}

/// The result of a loop that has ended.
pub open spec fn spec_result(state: PollState) -> Result<(), Error> {
    match state.failure {
        Some(error) => Err(error),
        None => Ok(()),
    }
}

fn wrap_events(events: Vec<MountEvent>) -> (r: Vec<Event>)
    ensures
        emitted_view(r@) == mount_events(events_view(events@)),
{
    let mut wrapped: Vec<Event> = Vec::new();
    let mut i: usize = 0;
    while i < events.len()
        invariant
            i <= events.len(),
            emitted_view(wrapped@) == mount_events(events_view(events@).take(i as int)),
        decreases events.len() - i,
    {
        let ghost done = emitted_view(wrapped@);
        wrapped.push(Event::MountEvent(events[i].clone()));
        assert(emitted_view(wrapped@) =~= done.push(EventView::MountEvent(events@[i as int]@)));
        assert(mount_events(events_view(events@).take(i + 1)) =~= done.push(
            EventView::MountEvent(events@[i as int]@),
        ));
        i = i + 1;
    }
    assert(events_view(events@).take(i as int) =~= events_view(events@));
    wrapped
}

impl View for PollLoop {
    type V = PollState;

    closed spec fn view(&self) -> PollState {
        PollState {
            phase: self.phase,
            current: table_view(self.current),
            timeout: self.timeout,
            failure: self.failure,
            location: text_view(self.location),
        }
    }
}

impl PollLoop {
    /// A loop over `current` that waits `timeout` milliseconds at a time.
    /// With `fire_initial`, every row of `current` is first reported as
    /// mounted.
    pub fn start(timeout: i32, current: Option<Table>, fire_initial: bool) -> (r: (
        PollLoop,
        Vec<Event>,
    ))
        ensures
            (r.0@, emitted_view(r.1@)) == spec_start(timeout, table_view(current), fire_initial),
            r.1@.len() == spec_start(timeout, table_view(current), fire_initial).1.len(),
            well_formed(r.0@),
    {
        let events = match &current {
            Some(table) => if fire_initial {
                wrap_events(table.replay())
            } else {
                Vec::new()
            },
            None => Vec::new(),
        };
        assert(emitted_view(Seq::<Event>::empty()) =~= Seq::<EventView>::empty());
        (
            PollLoop {
                phase: PollPhase::Idle,
                current,
                timeout,
                failure: None,
                location: None,
            },
            events,
        )
    }

    pub fn phase(&self) -> (r: PollPhase)
        ensures
            r == self@.phase,
    {
        self.phase
    }

    /// The snapshot that the next table will be compared with.
    pub fn current(&self) -> (r: Option<&Table>)
        ensures
            r is Some <==> self@.current is Some,
            r is Some ==> r->Some_0@ == self@.current->Some_0,
    {
        self.current.as_ref()
    }

    pub fn is_terminated(&self) -> (r: bool)
        ensures
            r == (self@.phase == PollPhase::Terminated),
    {
        match self.phase {
            PollPhase::Terminated => true,
            _ => false,
        }
    }

    /// The result of the loop once it has ended; `None` while it runs.
    pub fn result(&self) -> (r: Option<Result<(), Error>>)
        ensures
            r == if self@.phase == PollPhase::Terminated {
                Some(spec_result(self@))
            } else {
                None
            },
    {
        match self.phase {
            PollPhase::Terminated => match self.failure {
                Some(error) => Some(Err(error)),
                None => Some(Ok(())),
            },
            _ => None,
        }
    }

    /// What the driver is to do next.
    pub fn action(&self) -> (r: PollAction)
        ensures
            r@ == spec_action(self@),
    {
        match self.phase {
            PollPhase::Idle => PollAction::CheckStop,
            PollPhase::WaitingForChange => PollAction::Wait(self.timeout),
            PollPhase::Draining => PollAction::TakeChange,
            PollPhase::Reloading => match &self.location {
                Some(location) => PollAction::Reload(location.clone()),
                None => PollAction::TakeChange,
            },
            PollPhase::Terminated => match self.failure {
                Some(error) => PollAction::Finish(Err(error)),
                None => PollAction::Finish(Ok(())),
            },
        }
    }

    fn fail(&mut self, error: Error) -> (events: Vec<Event>)
        ensures
            (final(self)@, emitted_view(events@)) == spec_fail(old(self)@, error),
    {
        self.phase = PollPhase::Terminated;
        self.failure = Some(error);
        self.location = None;
        let mut events: Vec<Event> = Vec::new();
        events.push(Event::Error(error));
        assert(emitted_view(events@) =~= seq![EventView::Error(error)]);
        events
    }

    fn enter(&mut self, phase: PollPhase) -> (events: Vec<Event>)
        ensures
            (final(self)@, emitted_view(events@)) == spec_enter(old(self)@, phase),
    {
        self.phase = phase;
        let events: Vec<Event> = Vec::new();
        assert(emitted_view(events@) =~= Seq::<EventView>::empty());
        events
    }

    fn ignore(&self) -> (events: Vec<Event>)
        ensures
            emitted_view(events@) == Seq::<EventView>::empty(),
    {
        let events: Vec<Event> = Vec::new();
        assert(emitted_view(events@) =~= Seq::<EventView>::empty());
        events
    }

    /// Takes what the driver reports and moves on. The events that come
    /// back are to be handed on in their order.
    pub fn step(&mut self, input: PollInput) -> (events: Vec<Event>)
        ensures
            (final(self)@, emitted_view(events@)) == spec_step(old(self)@, input@),
            events@.len() == spec_step(old(self)@, input@).1.len(),
    {
        match (self.phase, input) {
            (PollPhase::Terminated, _) => self.ignore(),
            (_, PollInput::SinkClosed) => {
                self.location = None;
                self.enter(PollPhase::Terminated)
            },
            (PollPhase::Idle, PollInput::StopChecked(stop)) => {
                if stop {
                    self.phase = PollPhase::Terminated;
                    let mut events: Vec<Event> = Vec::new();
                    events.push(Event::Close);
                    assert(emitted_view(events@) =~= seq![EventView::Close]);
                    events
                } else {
                    self.enter(PollPhase::WaitingForChange)
                }
            },
            (PollPhase::WaitingForChange, PollInput::Waited(WaitOutcome::TimedOut)) => self.enter(
                PollPhase::Idle,
            ),
            (PollPhase::WaitingForChange, PollInput::Waited(WaitOutcome::ChangeReady)) => self.enter(
                PollPhase::Draining,
            ),
            (PollPhase::WaitingForChange, PollInput::Waited(WaitOutcome::Fatal(code))) => self.fail(
                Error::MonitorPoll(code),
            ),
            (PollPhase::Draining, PollInput::Drained(NextChange::Exhausted)) => self.enter(
                PollPhase::Idle,
            ),
            (PollPhase::Draining, PollInput::Drained(NextChange::Fatal(code))) => self.fail(
                Error::MonitorNextChange(code),
            ),
            (
                PollPhase::Draining,
                PollInput::Drained(NextChange::Change { location, monitor_type }),
            ) => {
                match MonitorType::try_from(monitor_type) {
                    Ok(channel) => {
                        self.phase = PollPhase::Reloading;
                        self.location = Some(location.clone());
                        let mut events: Vec<Event> = Vec::new();
                        events.push(
                            Event::MountEvent(
                                MountEvent::MonitorUpdate { location, monitor_type: channel },
                            ),
                        );
                        assert(emitted_view(events@) =~= seq![
                            EventView::MountEvent(
                                MountEventView::MonitorUpdate {
                                    location: location@,
                                    monitor_type: channel,
                                },
                            ),
                        ]);
                        events
                    },
                    Err(error) => self.fail(error),
                }
            },
            (PollPhase::Reloading, PollInput::Reloaded(Ok(table))) => {
                let events = match &self.current {
                    Some(snapshot) => wrap_events(snapshot.changes(&table)),
                    None => wrap_events(table.replay()),
                };
                self.phase = PollPhase::Draining;
                self.current = Some(table);
                self.location = None;
                events
            },
            (PollPhase::Reloading, PollInput::Reloaded(Err(error))) => self.fail(
                Error::AllocationTable(error),
            ),
            _ => self.ignore(),
        }
    }
}

/// What holds of every state that a loop can be in: a location is in hand
/// exactly while its table is read, and a failure only once the loop has
/// ended.
pub open spec fn well_formed(state: PollState) -> bool {
    &&& state.phase == PollPhase::Reloading <==> state.location is Some
    &&& state.failure is Some ==> state.phase == PollPhase::Terminated
}

/// The state after a run of inputs, and the events that went out, in order.
pub open spec fn spec_run(state: PollState, inputs: Seq<PollInputView>) -> (
    PollState,
    Seq<EventView>,
)
    decreases inputs.len(),
{
    if inputs.len() == 0 {
        (state, Seq::empty())
    } else {
        let (next, first) = spec_step(state, inputs.first());
        let (last, rest) = spec_run(next, inputs.drop_first());
        (last, first + rest)
    }
}

/// Whether the loop, from `state` on and all through `inputs`, is busy with
/// the notifications of one wake: it neither looks at the stop condition
/// nor goes into a wait.
pub open spec fn stays_busy(state: PollState, inputs: Seq<PollInputView>) -> bool
    decreases inputs.len(),
{
    &&& state.phase == PollPhase::Draining || state.phase == PollPhase::Reloading
    &&& inputs.len() > 0 ==> stays_busy(spec_step(state, inputs.first()).0, inputs.drop_first())
}

/// A notification, and the table that was read at its location.
pub ghost struct Notification {
    pub location: Seq<char>,
    pub monitor_type: MonitorType,
    pub table: Seq<MountEntry>,
}

/// The raw code of a channel as a notification carries it.
pub open spec fn spec_raw_type(monitor_type: MonitorType) -> i32 {
    match monitor_type {
        MonitorType::Userspace => 1,
        MonitorType::Kernel => 2,
    }
}

/// What the driver reports while the loop takes the notifications of one
/// wake: each notification, and then its table.
pub open spec fn batch_inputs(batch: Seq<Notification>) -> Seq<PollInputView>
    decreases batch.len(),
{
    if batch.len() == 0 {
        Seq::empty()
    } else {
        seq![
            PollInputView::Drained(
                NextChangeView::Change {
                    location: batch.first().location,
                    monitor_type: spec_raw_type(batch.first().monitor_type),
                },
            ),
            PollInputView::Reloaded(Ok(batch.first().table)),
        ] + batch_inputs(batch.drop_first())
    }
}

/// The events that the notifications of one wake amount to: for each, the
/// notification itself and then what its table changed against the
/// snapshot that the one before it left.
pub open spec fn batch_events(
    current: Option<Seq<MountEntry>>,
    batch: Seq<Notification>,
) -> Seq<EventView>
    decreases batch.len(),
{
    if batch.len() == 0 {
        Seq::empty()
    } else {
        seq![
            EventView::MountEvent(
                MountEventView::MonitorUpdate {
                    location: batch.first().location,
                    monitor_type: batch.first().monitor_type,
                },
            ),
        ] + spec_reload_events(current, batch.first().table) + batch_events(
            Some(batch.first().table),
            batch.drop_first(),
        )
    }
}

/// The snapshot in hand after the notifications of one wake.
pub open spec fn batch_snapshot(
    current: Option<Seq<MountEntry>>,
    batch: Seq<Notification>,
) -> Option<Seq<MountEntry>> {
    if batch.len() == 0 {
        current
    } else {
        Some(batch.last().table)
    }
}

/// However many notifications one wake brought, the loop takes them all
/// before it waits again: each is reported and its table compared with the
/// snapshot that the one before it left, and only the report that none is
/// pending any more takes the loop back to where it looks at the stop
/// condition.
pub proof fn lemma_drain_is_complete(state: PollState, batch: Seq<Notification>)
    requires
        well_formed(state),
        state.phase == PollPhase::Draining,
    ensures
        spec_run(state, batch_inputs(batch)) == (
            PollState { current: batch_snapshot(state.current, batch), ..state },
            batch_events(state.current, batch),
        ),
        stays_busy(state, batch_inputs(batch)),
        spec_step(
            spec_run(state, batch_inputs(batch)).0,
            PollInputView::Drained(NextChangeView::Exhausted),
        ) == (
            PollState {
                phase: PollPhase::Idle,
                current: batch_snapshot(state.current, batch),
                ..state
            },
            Seq::<EventView>::empty(),
        ),
    decreases batch.len(),
{
    if batch.len() > 0 {
        let first = batch.first();
        let rest = batch.drop_first();
        let inputs = batch_inputs(batch);
        let taken = PollInputView::Drained(
            NextChangeView::Change {
                location: first.location,
                monitor_type: spec_raw_type(first.monitor_type),
            },
        );
        let read = PollInputView::Reloaded(Ok(first.table));
        assert(inputs.first() == taken);
        assert(inputs.drop_first() =~= seq![read] + batch_inputs(rest));
        assert(inputs.drop_first().first() == read);
        assert(inputs.drop_first().drop_first() =~= batch_inputs(rest));
        assert(MonitorType::spec_try_from(spec_raw_type(first.monitor_type)) == Ok::<
            MonitorType,
            Error,
        >(first.monitor_type));
        let (reloading, announced) = spec_step(state, taken);
        let (draining, changed) = spec_step(reloading, read);
        assert(draining == PollState { current: Some(first.table), ..state });
        lemma_drain_is_complete(draining, rest);
        assert(batch_snapshot(Some(first.table), rest) == batch_snapshot(state.current, batch)) by {
            if rest.len() > 0 {
                assert(rest.last() == batch.last());
            }
        }
        let (last, remaining) = spec_run(draining, batch_inputs(rest));
        assert(spec_run(reloading, inputs.drop_first()) == (last, changed + remaining));
        assert(spec_run(state, inputs) == (last, announced + (changed + remaining)));
        assert(announced + (changed + remaining) =~= batch_events(state.current, batch));
        assert(stays_busy(draining, batch_inputs(rest)));
        assert(stays_busy(reloading, inputs.drop_first()));
        assert(stays_busy(state, inputs));
    }
}

/// Once the loop has ended, nothing that is reported to it changes it or
/// makes it send anything.
pub proof fn lemma_terminated_is_final(state: PollState, inputs: Seq<PollInputView>)
    requires
        state.phase == PollPhase::Terminated,
    ensures
        spec_run(state, inputs) == (state, Seq::<EventView>::empty()),
    decreases inputs.len(),
{
    if inputs.len() > 0 {
        lemma_terminated_is_final(state, inputs.drop_first());
        assert(Seq::<EventView>::empty() + Seq::<EventView>::empty() =~= Seq::<
            EventView,
        >::empty());
    }
}

/// A requested stop that the loop sees ends it: the closing item goes out,
/// the result is success, and whatever is reported afterwards sends nothing
/// more.
pub proof fn lemma_stop_ends_the_loop(state: PollState, inputs: Seq<PollInputView>)
    requires
        well_formed(state),
        state.phase == PollPhase::Idle,
    ensures
        spec_step(state, PollInputView::StopChecked(true)) == (
            PollState { phase: PollPhase::Terminated, ..state },
            seq![EventView::Close],
        ),
        spec_action(spec_step(state, PollInputView::StopChecked(true)).0)
            == PollActionView::Finish(Ok(())),
        spec_run(spec_step(state, PollInputView::StopChecked(true)).0, inputs) == (
            spec_step(state, PollInputView::StopChecked(true)).0,
            Seq::<EventView>::empty(),
        ),
{
    lemma_terminated_is_final(spec_step(state, PollInputView::StopChecked(true)).0, inputs);
}

/// The loop looks at the stop condition between two waits and nowhere
/// else: while it waits, or while it is busy with the notifications of one
/// wake, a report on the stop condition changes nothing.
pub proof fn lemma_stop_is_seen_when_idle_only(state: PollState, stop: bool)
    requires
        state.phase != PollPhase::Idle,
    ensures
        spec_step(state, PollInputView::StopChecked(stop)) == (state, Seq::<EventView>::empty()),
{
}

/// The loop goes into a wait from one place only: from between two waits,
/// on the report that no stop was requested.
pub proof fn lemma_wait_follows_the_stop_check(state: PollState, input: PollInputView)
    requires
        state.phase != PollPhase::WaitingForChange,
        spec_step(state, input).0.phase == PollPhase::WaitingForChange,
    ensures
        state.phase == PollPhase::Idle,
        input == PollInputView::StopChecked(false),
{
}

/// The loop begins to take notifications in one place only: in the wait,
/// on the report that a change is ready. So a notification is never asked
/// for before a wait has announced one.
pub proof fn lemma_drain_follows_a_change(state: PollState, input: PollInputView)
    requires
        state.phase != PollPhase::Draining,
        state.phase != PollPhase::Reloading,
        spec_step(state, input).0.phase == PollPhase::Draining,
    ensures
        state.phase == PollPhase::WaitingForChange,
        input == PollInputView::Waited(WaitOutcome::ChangeReady),
{
}

/// Every step keeps the state well formed.
pub proof fn lemma_step_keeps_well_formed(state: PollState, input: PollInputView)
    requires
        well_formed(state),
    ensures
        well_formed(spec_step(state, input).0),
{
}

/// A loop ends in failure exactly when the failure went out as its last
/// event.
pub proof fn lemma_failure_is_reported(state: PollState, input: PollInputView)
    requires
        well_formed(state),
        state.phase != PollPhase::Terminated,
    ensures
        spec_step(state, input).0.failure matches Some(error) ==> spec_step(state, input).1
            == seq![EventView::Error(error)],
{
}

} // verus!
