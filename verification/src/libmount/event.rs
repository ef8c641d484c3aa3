use vstd::prelude::*;
use vstd::std_specs::convert::FromSpecImpl;
use vstd::std_specs::ops::BitOrSpecImpl;

use crate::libmount::error::Error;
use crate::libmount::fs::{FileSystem, MountEntry};
use crate::libmount::monitor::MonitorType;

verus! {

/// The bit of a notification of the monitor.
pub const MONITOR_UPDATE_BIT: u32 = 0b1;

/// The bit of a mount.
pub const MOUNT_BIT: u32 = 0b10;

/// The bit of an unmount.
pub const UMOUNT_BIT: u32 = 0b100;

/// The bit of a remount.
pub const REMOUNT_BIT: u32 = 0b1000;

/// The bit of a move.
pub const MOVE_BIT: u32 = 0b10000;

/// The bit of a propagation.
pub const PROPAGATE_BIT: u32 = 0b100000;

/// The six kinds of event that a subscription can select.
#[derive(Debug, Clone, Copy, PartialEq, Eq, Structural)]
pub enum MountEventKind {
    MonitorUpdate,
    Mount,
    UMount,
    Remount,
    Move,
    Propagate,
}

impl MountEventKind {
    /// The bit that stands for this kind in a mask.
    pub open spec fn spec_bit(self) -> u32 {
        match self {
            MountEventKind::MonitorUpdate => MONITOR_UPDATE_BIT,
            MountEventKind::Mount => MOUNT_BIT,
            MountEventKind::UMount => UMOUNT_BIT,
            MountEventKind::Remount => REMOUNT_BIT,
            MountEventKind::Move => MOVE_BIT,
            MountEventKind::Propagate => PROPAGATE_BIT,
        }
    }

    pub fn bit(self) -> (r: u32)
        ensures
            r == self.spec_bit(),
    {
        match self {
            MountEventKind::MonitorUpdate => MONITOR_UPDATE_BIT,
            MountEventKind::Mount => MOUNT_BIT,
            MountEventKind::UMount => UMOUNT_BIT,
            MountEventKind::Remount => REMOUNT_BIT,
            MountEventKind::Move => MOVE_BIT,
            MountEventKind::Propagate => PROPAGATE_BIT,
        }
    }
}

/// A change of mount state, or the notification that announced one.
#[derive(Debug, PartialEq, Eq)]
pub enum MountEvent {
    /// The monitor reported that the table at `location` changed.
    MonitorUpdate { location: String, monitor_type: MonitorType },
    Mount { filesystem: FileSystem },
    UMount { filesystem: FileSystem },
    Remount { filesystem: FileSystem },
    Move { from: FileSystem, to: FileSystem },
    Propagate { parent: FileSystem, child: FileSystem },
}

/// A `MountEvent` as a mathematical value.
pub ghost enum MountEventView {
    MonitorUpdate { location: Seq<char>, monitor_type: MonitorType },
    Mount { filesystem: MountEntry },
    UMount { filesystem: MountEntry },
    Remount { filesystem: MountEntry },
    Move { from: MountEntry, to: MountEntry },
    Propagate { parent: MountEntry, child: MountEntry },
}

impl MountEventView {
    pub open spec fn kind(self) -> MountEventKind {
        match self {
            MountEventView::MonitorUpdate { .. } => MountEventKind::MonitorUpdate,
            MountEventView::Mount { .. } => MountEventKind::Mount,
            MountEventView::UMount { .. } => MountEventKind::UMount,
            MountEventView::Remount { .. } => MountEventKind::Remount,
            MountEventView::Move { .. } => MountEventKind::Move,
            MountEventView::Propagate { .. } => MountEventKind::Propagate,
        }
    }
}

impl View for MountEvent {
    type V = MountEventView;

    open spec fn view(&self) -> MountEventView {
        match self {
            MountEvent::MonitorUpdate { location, monitor_type } => MountEventView::MonitorUpdate {
                location: location@,
                monitor_type: *monitor_type,
            },
            MountEvent::Mount { filesystem } => MountEventView::Mount { filesystem: filesystem@ },
            MountEvent::UMount { filesystem } => MountEventView::UMount { filesystem: filesystem@ },
            MountEvent::Remount { filesystem } => MountEventView::Remount {
                filesystem: filesystem@,
            },
            MountEvent::Move { from, to } => MountEventView::Move { from: from@, to: to@ },
            MountEvent::Propagate { parent, child } => MountEventView::Propagate {
                parent: parent@,
                child: child@,
            },
        }
    }
}

impl Clone for MountEvent {
    fn clone(&self) -> (r: Self)
        ensures
            r == *self,
    {
        match self {
            MountEvent::MonitorUpdate { location, monitor_type } => MountEvent::MonitorUpdate {
                location: location.clone(),
                monitor_type: *monitor_type,
            },
            MountEvent::Mount { filesystem } => MountEvent::Mount { filesystem: filesystem.clone() },
            MountEvent::UMount { filesystem } => MountEvent::UMount {
                filesystem: filesystem.clone(),
            },
            MountEvent::Remount { filesystem } => MountEvent::Remount {
                filesystem: filesystem.clone(),
            },
            MountEvent::Move { from, to } => MountEvent::Move { from: from.clone(), to: to.clone() },
            MountEvent::Propagate { parent, child } => MountEvent::Propagate {
                parent: parent.clone(),
                child: child.clone(),
            },
        }
    }
}

impl MountEvent {
    /// The kind of the event.
    pub fn kind(&self) -> (r: MountEventKind)
        ensures
            r == self@.kind(),
    {
        match self {
            MountEvent::MonitorUpdate { .. } => MountEventKind::MonitorUpdate,
            MountEvent::Mount { .. } => MountEventKind::Mount,
            MountEvent::UMount { .. } => MountEventKind::UMount,
            MountEvent::Remount { .. } => MountEventKind::Remount,
            MountEvent::Move { .. } => MountEventKind::Move,
            MountEvent::Propagate { .. } => MountEventKind::Propagate,
        }
    }

    /// The mask that selects events of this event's kind and no others.
    pub fn mask(&self) -> (r: MountEventMask)
        ensures
            r == MountEventMask::spec_of(self@.kind()),
    {
        MountEventMask(self.kind().bit())
    }
}

/// What travels from the poll loop to the dispatcher.
#[derive(Debug, PartialEq, Eq)]
pub enum Event {
    MountEvent(MountEvent),
    /// The last item: nothing follows it.
    Close,
    Error(Error),
}

/// An `Event` as a mathematical value.
pub ghost enum EventView {
    MountEvent(MountEventView),
    Close,
    Error(Error),
}

impl View for Event {
    type V = EventView;

    open spec fn view(&self) -> EventView {
        match self {
            Event::MountEvent(e) => EventView::MountEvent(e@),
            Event::Close => EventView::Close,
            Event::Error(e) => EventView::Error(*e),
        }
    }
}

impl Clone for Event {
    fn clone(&self) -> (r: Self)
        ensures
            r == *self,
    {
        match self {
            Event::MountEvent(e) => Event::MountEvent(e.clone()),
            Event::Close => Event::Close,
            Event::Error(e) => Event::Error(*e),
        }
    }
}

/// A set of event kinds, one bit per kind.
#[derive(Debug, Clone, Copy, PartialEq, Eq)]
pub struct MountEventMask(u32);

impl MountEventMask {
    pub closed spec fn bits(self) -> u32 {
        self.0
    }

    /// The mask with exactly these bits.
    pub closed spec fn spec_from_bits(bits: u32) -> MountEventMask {
        MountEventMask(bits)
    }

    /// The mask that selects one kind.
    pub open spec fn spec_of(kind: MountEventKind) -> MountEventMask {
        Self::spec_from_bits(kind.spec_bit())
    }

    /// Whether the mask selects `kind`.
    pub open spec fn includes(self, kind: MountEventKind) -> bool {
        self.bits() & kind.spec_bit() != 0
    }

    pub open spec fn spec_matches(self, event: MountEventView) -> bool {
        self.includes(event.kind())
    }

    /// The mask that selects every kind that either mask selects.
    pub open spec fn union(self, other: MountEventMask) -> MountEventMask {
        Self::spec_from_bits(self.bits() | other.bits())
    }

    pub broadcast proof fn bits_of_spec_from_bits(bits: u32)
        ensures
            #[trigger] Self::spec_from_bits(bits).bits() == bits,
    {
    }

    /// The mask that selects nothing.
    pub fn empty() -> (r: Self)
        ensures
            r == Self::spec_from_bits(0),
    {
        MountEventMask(0)
    }

    /// The mask that selects one kind.
    pub fn of(kind: MountEventKind) -> (r: Self)
        ensures
            r == Self::spec_of(kind),
    {
        MountEventMask(kind.bit())
    }

    /// The mask that selects the notifications of the monitor.
    pub fn monitor_update() -> (r: Self)
        ensures
            r == Self::spec_of(MountEventKind::MonitorUpdate),
    {
        MountEventMask(MONITOR_UPDATE_BIT)
    }

    /// The mask that selects mounts.
    pub fn mount() -> (r: Self)
        ensures
            r == Self::spec_of(MountEventKind::Mount),
    {
        MountEventMask(MOUNT_BIT)
    }

    /// The mask that selects unmounts.
    pub fn umount() -> (r: Self)
        ensures
            r == Self::spec_of(MountEventKind::UMount),
    {
        MountEventMask(UMOUNT_BIT)
    }

    /// The mask that selects remounts.
    pub fn remount() -> (r: Self)
        ensures
            r == Self::spec_of(MountEventKind::Remount),
    {
        MountEventMask(REMOUNT_BIT)
    }

    /// The mask that selects moves.
    pub fn moved() -> (r: Self)
        ensures
            r == Self::spec_of(MountEventKind::Move),
    {
        MountEventMask(MOVE_BIT)
    }

    /// The mask that selects propagations.
    pub fn propagate() -> (r: Self)
        ensures
            r == Self::spec_of(MountEventKind::Propagate),
    {
        MountEventMask(PROPAGATE_BIT)
    }

    /// The mask that selects all six kinds.
    pub fn all() -> (r: Self)
        ensures
            forall|kind: MountEventKind| r.includes(kind),
    {
        let r = MountEventMask(0b111111);
        assert(0b111111u32 & 0b1u32 != 0 && 0b111111u32 & 0b10u32 != 0 && 0b111111u32 & 0b100u32
            != 0 && 0b111111u32 & 0b1000u32 != 0 && 0b111111u32 & 0b10000u32 != 0 && 0b111111u32
            & 0b100000u32 != 0) by (bit_vector);
        assert forall|kind: MountEventKind| r.includes(kind) by {
            match kind {
                MountEventKind::MonitorUpdate => {},
                MountEventKind::Mount => {},
                MountEventKind::UMount => {},
                MountEventKind::Remount => {},
                MountEventKind::Move => {},
                MountEventKind::Propagate => {},
            }
        }
        r
    }

    /// Whether a subscription with this mask is to receive `event`.
    pub fn matches(&self, event: &MountEvent) -> (r: bool)
        ensures
            r == self.spec_matches(event@),
    {
        (self.0 & event.mask().0) != 0
    }

    /// Whether the mask selects `kind`.
    pub fn contains(&self, kind: MountEventKind) -> (r: bool)
        ensures
            r == self.includes(kind),
    {
        (self.0 & kind.bit()) != 0
    }
}

impl BitOrSpecImpl for MountEventMask {
    open spec fn obeys_bitor_spec() -> bool {
        true
    }

    open spec fn bitor_req(self, rhs: Self) -> bool {
        true
    }

    open spec fn bitor_spec(self, rhs: Self) -> Self {
        self.union(rhs)
    }
}

impl core::ops::BitOr for MountEventMask {
    type Output = Self;

    fn bitor(self, rhs: Self) -> (r: Self) {
        MountEventMask(self.0 | rhs.0)
    }
}

impl FromSpecImpl<MountEvent> for MountEventMask {
    open spec fn obeys_from_spec() -> bool {
        true
    }

    open spec fn from_spec(value: MountEvent) -> Self {
        Self::spec_of(value@.kind())
    }
}

impl From<MountEvent> for MountEventMask {
    fn from(value: MountEvent) -> (r: Self) {
        value.mask()
    }
}

impl BitOrSpecImpl for MountEvent {
    open spec fn obeys_bitor_spec() -> bool {
        true
    }

    open spec fn bitor_req(self, rhs: Self) -> bool {
        true
    }

    open spec fn bitor_spec(self, rhs: Self) -> MountEventMask {
        MountEventMask::spec_of(self@.kind()).union(MountEventMask::spec_of(rhs@.kind()))
    }
}

impl core::ops::BitOr for MountEvent {
    type Output = MountEventMask;

    fn bitor(self, rhs: Self) -> (r: MountEventMask) {
        self.mask() | rhs.mask()
    }
}

/// The mask of one kind selects that kind and no other.
pub proof fn lemma_single_kind(selected: MountEventKind, kind: MountEventKind)
    ensures
        MountEventMask::spec_of(selected).includes(kind) <==> selected == kind,
{
    assert(0b1u32 & 0b1u32 != 0 && 0b10u32 & 0b10u32 != 0 && 0b100u32 & 0b100u32 != 0 && 0b1000u32
        & 0b1000u32 != 0 && 0b10000u32 & 0b10000u32 != 0 && 0b100000u32 & 0b100000u32 != 0)
        by (bit_vector);
    assert(0b1u32 & 0b10u32 == 0 && 0b1u32 & 0b100u32 == 0 && 0b1u32 & 0b1000u32 == 0 && 0b1u32
        & 0b10000u32 == 0 && 0b1u32 & 0b100000u32 == 0 && 0b10u32 & 0b100u32 == 0 && 0b10u32
        & 0b1000u32 == 0 && 0b10u32 & 0b10000u32 == 0 && 0b10u32 & 0b100000u32 == 0 && 0b100u32
        & 0b1000u32 == 0 && 0b100u32 & 0b10000u32 == 0 && 0b100u32 & 0b100000u32 == 0 && 0b1000u32
        & 0b10000u32 == 0 && 0b1000u32 & 0b100000u32 == 0 && 0b10000u32 & 0b100000u32 == 0)
        by (bit_vector);
    assert(0b10u32 & 0b1u32 == 0 && 0b100u32 & 0b1u32 == 0 && 0b1000u32 & 0b1u32 == 0 && 0b10000u32
        & 0b1u32 == 0 && 0b100000u32 & 0b1u32 == 0 && 0b100u32 & 0b10u32 == 0 && 0b1000u32
        & 0b10u32 == 0 && 0b10000u32 & 0b10u32 == 0 && 0b100000u32 & 0b10u32 == 0 && 0b1000u32
        & 0b100u32 == 0 && 0b10000u32 & 0b100u32 == 0 && 0b100000u32 & 0b100u32 == 0 && 0b10000u32
        & 0b1000u32 == 0 && 0b100000u32 & 0b1000u32 == 0 && 0b100000u32 & 0b10000u32 == 0)
        by (bit_vector);
    MountEventMask::bits_of_spec_from_bits(selected.spec_bit());
}

/// A union selects a kind exactly when one of its two parts does.
pub proof fn lemma_union_includes(a: MountEventMask, b: MountEventMask, kind: MountEventKind)
    ensures
        a.union(b).includes(kind) <==> a.includes(kind) || b.includes(kind),
{
    let x = a.bits();
    let y = b.bits();
    let k = kind.spec_bit();
    assert(((x | y) & k != 0) <==> (x & k != 0 || y & k != 0)) by (bit_vector);
    MountEventMask::bits_of_spec_from_bits(x | y);
}

/// The empty mask selects nothing.
pub proof fn lemma_empty_includes_nothing(kind: MountEventKind)
    ensures
        !MountEventMask::spec_from_bits(0).includes(kind),
{
    let k = kind.spec_bit();
    assert(0u32 & k == 0) by (bit_vector);
    MountEventMask::bits_of_spec_from_bits(0);
}

} // verus!
