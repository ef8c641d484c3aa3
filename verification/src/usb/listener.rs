use vstd::prelude::*;

use crate::usb::context::UsbContextRef;
use crate::usb::device::UsbDeviceRef;
use crate::usb::error::Error;
use crate::usb::event::{UsbFileDescriptorEventData, UsbHotplugEventMask, UsbHotplugEventType};

verus! {

/// What is known of one hotplug event: the context, the device, and what
/// happened to the device.
#[derive(Debug, Clone, Copy, PartialEq, Eq, Structural)]
pub struct UsbHotplugEventData(pub UsbContextRef, pub UsbDeviceRef, pub UsbHotplugEventType);

/// What travels from the callbacks of the USB library to the listener.
#[derive(Debug, Clone, Copy, PartialEq, Eq, Structural)]
pub enum UsbEvent {
    FileDescriptor(UsbFileDescriptorEventData),
    Hotplug(UsbHotplugEventData),
    /// The last item: nothing follows it.
    Close,
}

/// What the hotplug callback queues for a raw event: nothing for an event
/// that is neither an arrival nor a departure.
pub open spec fn spec_hotplug(
    context: UsbContextRef,
    device: UsbDeviceRef,
    event: u32,
) -> Option<UsbEvent> {
    match UsbHotplugEventType::spec_try_from(event) {
        Ok(kind) => Some(UsbEvent::Hotplug(UsbHotplugEventData(context, device, kind))),
        Err(_) => None,
    }
}

/// Makes the item that the hotplug callback is to queue.
pub fn hotplug(context: UsbContextRef, device: UsbDeviceRef, event: u32) -> (r: Option<UsbEvent>)
    ensures
        r == spec_hotplug(context, device, event),
{
    match UsbHotplugEventType::try_from(event) {
        Ok(kind) => Some(UsbEvent::Hotplug(UsbHotplugEventData(context, device, kind))),
        Err(_) => None,
    }
}

/// What the hotplug callback hands back to the USB library: 0 where there
/// was nothing to queue or the item was queued, 1 where it could not be.
pub fn hotplug_status(queued: Option<bool>) -> (r: i32)
    ensures
        r == if queued == Some(false) {
            1i32
        } else {
            0i32
        },
{
    match queued {
        Some(false) => 1,
        _ => 0,
    }
}

/// Reads the outcome of registering the hotplug callback: any code but 0
/// is a failure.
pub fn registration(code: i32) -> (r: Result<(), Error>)
    ensures
        r == if code != 0 {
            Err::<(), Error>(Error::RegisterCallback(code))
        } else {
            Ok::<(), Error>(())
        },
{
    if code != 0 {
        Err(Error::RegisterCallback(code))
    } else {
        Ok(())
    }
}

/// Whether one of the polled descriptors has something to report.
pub fn ready(revents: &Vec<i16>) -> (r: bool)
    ensures
        r == exists|i: int| 0 <= i < revents@.len() && revents@[i] != 0,
{
    let mut i: usize = 0;
    while i < revents.len()
        invariant
            i <= revents.len(),
            forall|j: int| 0 <= j < i ==> revents@[j] == 0,
        decreases revents.len() - i,
    {
        if revents[i] != 0 {
            return true;
        }
        i = i + 1;
    }
    false
}

/// The file descriptors that are to be polled, each with the events to
/// poll it for, in the order in which they were first added. No
/// descriptor is held twice.
pub struct DescriptorSet {
    polled: Vec<(i32, i16)>,
}

/// Whether no descriptor occurs twice.
pub open spec fn distinct(polled: Seq<(i32, i16)>) -> bool {
    forall|i: int, j: int|
        0 <= i < j < polled.len() ==> (#[trigger] polled[i]).0 != (#[trigger] polled[j]).0
}

/// Whether entry `i` is that of the descriptor `fd`.
pub open spec fn is_entry_of(polled: Seq<(i32, i16)>, fd: i32, i: int) -> bool {
    0 <= i < polled.len() && polled[i].0 == fd
}

/// Whether the descriptor `fd` is polled.
pub open spec fn holds(polled: Seq<(i32, i16)>, fd: i32) -> bool {
    exists|i: int| is_entry_of(polled, fd, i)
}

/// The index of the entry of `fd`.
pub open spec fn entry_of(polled: Seq<(i32, i16)>, fd: i32) -> int {
    choose|i: int| is_entry_of(polled, fd, i)
}

/// The descriptors after a change: an added one is polled from then on,
/// for the events that came last; a removed one no longer.
pub open spec fn spec_apply(
    polled: Seq<(i32, i16)>,
    change: UsbFileDescriptorEventData,
) -> Seq<(i32, i16)> {
    match change {
        UsbFileDescriptorEventData::Add(fd, events) => if holds(polled, fd) {
            polled.update(entry_of(polled, fd), (fd, events))
        } else {
            polled.push((fd, events))
        },
        UsbFileDescriptorEventData::Remove(fd) => if holds(polled, fd) {
            polled.remove(entry_of(polled, fd))
        } else {
            polled
        },
    }
}

/// A change leaves no descriptor twice, and only the descriptor that it
/// names is touched: an added one is polled afterwards, a removed one is
/// not, and every other is polled as before.
pub proof fn lemma_apply_touches_one(
    polled: Seq<(i32, i16)>,
    change: UsbFileDescriptorEventData,
    other: i32,
)
    requires
        distinct(polled),
    ensures
        distinct(spec_apply(polled, change)),
        match change {
            UsbFileDescriptorEventData::Add(fd, events) => holds(spec_apply(polled, change), fd)
                && spec_apply(polled, change)[entry_of(spec_apply(polled, change), fd)] == (
                fd,
                events,
            ),
            UsbFileDescriptorEventData::Remove(fd) => !holds(spec_apply(polled, change), fd),
        },
        other != (match change {
            UsbFileDescriptorEventData::Add(fd, _) => fd,
            UsbFileDescriptorEventData::Remove(fd) => fd,
        }) ==> (holds(spec_apply(polled, change), other) <==> holds(polled, other)) && (holds(
            polled,
            other,
        ) ==> spec_apply(polled, change)[entry_of(spec_apply(polled, change), other)]
            == polled[entry_of(polled, other)]),
{
    let after = spec_apply(polled, change);
    match change {
        UsbFileDescriptorEventData::Add(fd, events) => {
            if holds(polled, fd) {
                let at = entry_of(polled, fd);
                assert(is_entry_of(after, fd, at));
                assert forall|i: int, j: int| 0 <= i < j < after.len() implies (
                #[trigger] after[i]).0 != (#[trigger] after[j]).0 by {
                    assert(polled[i].0 != polled[j].0);
                }
                let now = entry_of(after, fd);
                if now != at {
                    if now < at {
                        assert(after[now].0 != after[at].0);
                    } else {
                        assert(after[at].0 != after[now].0);
                    }
                }
            } else {
                assert(is_entry_of(after, fd, polled.len() as int));
                assert forall|i: int, j: int| 0 <= i < j < after.len() implies (
                #[trigger] after[i]).0 != (#[trigger] after[j]).0 by {
                    if j < polled.len() {
                        assert(polled[i].0 != polled[j].0);
                    } else {
                        assert(!is_entry_of(polled, fd, i));
                    }
                }
                let now = entry_of(after, fd);
                if now < polled.len() {
                    assert(is_entry_of(polled, fd, now));
                }
            }
            if other != fd {
                if holds(polled, other) {
                    let was = entry_of(polled, other);
                    assert(is_entry_of(after, other, was));
                    let now = entry_of(after, other);
                    assert(is_entry_of(polled, other, now));
                    if now < was {
                        assert(polled[now].0 != polled[was].0);
                    }
                    if was < now {
                        assert(polled[was].0 != polled[now].0);
                    }
                }
                if holds(after, other) {
                    let now = entry_of(after, other);
                    assert(is_entry_of(polled, other, now));
                }
            }
        },
        UsbFileDescriptorEventData::Remove(fd) => {
            if holds(polled, fd) {
                let at = entry_of(polled, fd);
                assert forall|i: int| 0 <= i < after.len() implies #[trigger] after[i] == polled[if i
                    < at {
                    i
                } else {
                    i + 1
                }] by {}
                assert forall|i: int, j: int| 0 <= i < j < after.len() implies (
                #[trigger] after[i]).0 != (#[trigger] after[j]).0 by {
                    let a = if i < at { i } else { i + 1 };
                    let b = if j < at { j } else { j + 1 };
                    assert(polled[a].0 != polled[b].0);
                }
                if holds(after, fd) {
                    let now = entry_of(after, fd);
                    let b = if now < at { now } else { now + 1 };
                    if b < at {
                        assert(polled[b].0 != polled[at].0);
                    } else {
                        assert(polled[at].0 != polled[b].0);
                    }
                }
                if other != fd {
                    if holds(polled, other) {
                        let was = entry_of(polled, other);
                        let moved = if was < at { was } else { was - 1 };
                        assert(is_entry_of(after, other, moved));
                        let now = entry_of(after, other);
                        let b = if now < at { now } else { now + 1 };
                        if b < was {
                            assert(polled[b].0 != polled[was].0);
                        }
                        if was < b {
                            assert(polled[was].0 != polled[b].0);
                        }
                    }
                    if holds(after, other) {
                        let now = entry_of(after, other);
                        let b = if now < at { now } else { now + 1 };
                        assert(is_entry_of(polled, other, b));
                    }
                }
            } else {
                assert forall|i: int| !is_entry_of(after, fd, i) by {
                    assert(!is_entry_of(polled, fd, i));
                }
            }
        },
    }
}

fn copy_of(entries: &Vec<(i32, i16)>) -> (r: Vec<(i32, i16)>)
    ensures
        r@ == entries@,
{
    let mut copy: Vec<(i32, i16)> = Vec::new();
    let mut i: usize = 0;
    while i < entries.len()
        invariant
            i <= entries.len(),
            copy@ == entries@.take(i as int),
        decreases entries.len() - i,
    {
        copy.push(entries[i]);
        assert(copy@ =~= entries@.take(i + 1));
        i = i + 1;
    }
    assert(entries@.take(i as int) =~= entries@);
    copy
}

impl View for DescriptorSet {
    type V = Seq<(i32, i16)>;

    closed spec fn view(&self) -> Seq<(i32, i16)> {
        self.polled@
    }
}

impl DescriptorSet {
    #[verifier::type_invariant]
    spec fn well_formed(self) -> bool {
        distinct(self.polled@)
    }

    /// No descriptors.
    pub fn new() -> (r: Self)
        ensures
            r@ == Seq::<(i32, i16)>::empty(),
    {
        DescriptorSet { polled: Vec::new() }
    }

    /// The index of the entry of `fd`.
    fn find(&self, fd: i32) -> (r: Option<usize>)
        ensures
            r is Some <==> holds(self@, fd),
            r is Some ==> r->Some_0 == entry_of(self@, fd),
            r is Some ==> is_entry_of(self@, fd, r->Some_0 as int),
    {
        proof {
            use_type_invariant(self);
        }
        let mut i: usize = 0;
        while i < self.polled.len()
            invariant
                i <= self.polled.len(),
                distinct(self.polled@),
                forall|j: int| 0 <= j < i ==> !is_entry_of(self@, fd, j),
            decreases self.polled.len() - i,
        {
            if self.polled[i].0 == fd {
                proof {
                    let found = entry_of(self@, fd);
                    assert(is_entry_of(self@, fd, i as int));
                    assert(is_entry_of(self@, fd, found));
                    if found > i {
                        assert(self@[i as int].0 != self@[found].0);
                    }
                }
                return Some(i);
            }
            i = i + 1;
        }
        None
    }

    /// Takes in one change.
    pub fn apply(&mut self, change: UsbFileDescriptorEventData)
        ensures
            final(self)@ == spec_apply(old(self)@, change),
    {
        proof {
            use_type_invariant(&*self);
            lemma_apply_touches_one(self@, change, 0);
        }
        let mut next = copy_of(&self.polled);
        match change {
            UsbFileDescriptorEventData::Add(fd, events) => match self.find(fd) {
                Some(at) => {
                    next.set(at, (fd, events));
                },
                None => {
                    next.push((fd, events));
                },
            },
            UsbFileDescriptorEventData::Remove(fd) => match self.find(fd) {
                Some(at) => {
                    next.remove(at);
                },
                None => {},
            },
        }
        self.polled = next;
    }

    /// The events that a descriptor is polled for, if it is polled.
    pub fn events(&self, fd: i32) -> (r: Option<i16>)
        ensures
            r == if holds(self@, fd) {
                Some(self@[entry_of(self@, fd)].1)
            } else {
                None
            },
    {
        match self.find(fd) {
            Some(at) => Some(self.polled[at].1),
            None => None,
        }
    }

    /// The descriptors with their events, one entry for each descriptor.
    pub fn entries(&self) -> (r: &Vec<(i32, i16)>)
        ensures
            r@ == self@,
            distinct(r@),
    {
        proof {
            use_type_invariant(self);
        }
        &self.polled
    }

    /// How many descriptors are polled.
    pub fn len(&self) -> (r: usize)
        ensures
            r == self@.len(),
    {
        self.polled.len()
    }
}

/// What the listener does with one item of its queue.
#[derive(Debug, PartialEq, Eq)]
pub enum UsbRouting {
    /// The set of polled descriptors was brought up to date.
    Updated,
    /// Hand the event to the handlers with these indices, each on its own.
    Deliver(UsbHotplugEventData, Vec<usize>),
    /// Take no new items.
    Close,
}

/// The handlers that are to hear of an event: the indices, in rising
/// order, of the masks that match it.
pub open spec fn spec_recipients(masks: Seq<UsbHotplugEventMask>, event: UsbHotplugEventType) -> Seq<
    int,
>
    decreases masks.len(),
{
    if masks.len() == 0 {
        Seq::empty()
    } else if masks.last().spec_matches(event) {
        spec_recipients(masks.drop_last(), event).push(masks.len() - 1)
    } else {
        spec_recipients(masks.drop_last(), event)
    }
}

/// A handler is among the recipients of an event exactly when its mask
/// matches the event.
pub proof fn lemma_recipients_are_the_matching(
    masks: Seq<UsbHotplugEventMask>,
    event: UsbHotplugEventType,
)
    ensures
        forall|i: int|
            spec_recipients(masks, event).contains(i) <==> 0 <= i < masks.len() && (
            #[trigger] masks[i]).spec_matches(event),
        forall|k: int|
            0 <= k < spec_recipients(masks, event).len() ==> 0 <= (#[trigger] spec_recipients(
                masks,
                event,
            )[k]) < masks.len(),
    decreases masks.len(),
{
    let found = spec_recipients(masks, event);
    if masks.len() > 0 {
        let front = masks.drop_last();
        let before = spec_recipients(front, event);
        lemma_recipients_are_the_matching(front, event);
        let last = masks.len() - 1;
        assert forall|i: int| found.contains(i) <==> 0 <= i < masks.len() && (
        #[trigger] masks[i]).spec_matches(event) by {
            if 0 <= i < last {
                assert(front[i] == masks[i]);
            }
            if masks.last().spec_matches(event) {
                assert(found == before.push(last));
                if before.contains(i) {
                    let k = choose|k: int| 0 <= k < before.len() && before[k] == i;
                    assert(found[k] == i);
                }
                if i == last {
                    assert(found[before.len() as int] == last);
                }
                if found.contains(i) && i != last {
                    let k = choose|k: int| 0 <= k < found.len() && found[k] == i;
                    assert(before[k] == i);
                }
            }
        }
    }
}

/// Where a listener is put together.
pub struct UsbListener;

impl UsbListener {
    /// A builder without handlers.
    pub fn builder() -> (r: UsbListenerBuilder)
        ensures
            r.masks() == Seq::<UsbHotplugEventMask>::empty(),
    {
        UsbListenerBuilder { masks: Vec::new() }
    }
}

/// The registry of a listener: for each handler, the events that it wants.
/// The handlers themselves stay with whoever calls them, in the order of
/// registration.
pub struct UsbListenerBuilder {
    masks: Vec<UsbHotplugEventMask>,
}

impl UsbListenerBuilder {
    /// The masks of the handlers, in the order of registration.
    pub closed spec fn masks(self) -> Seq<UsbHotplugEventMask> {
        self.masks@
    }

    /// Registers a handler for the events that `filter` matches. The index
    /// that comes back is the one under which the handler is named later.
    pub fn on_event(&mut self, filter: UsbHotplugEventMask) -> (r: usize)
        ensures
            final(self).masks() == old(self).masks().push(filter),
            r == old(self).masks().len(),
    {
        let index = self.masks.len();
        self.masks.push(filter);
        index
    }

    /// The handlers that are to hear of `event`: those whose mask matches
    /// it, and no others, in the order of registration.
    pub fn recipients(&self, event: UsbHotplugEventType) -> (r: Vec<usize>)
        ensures
            r@.map_values(|index: usize| index as int) == spec_recipients(self.masks(), event),
            forall|i: int|
                r@.map_values(|index: usize| index as int).contains(i) <==> 0 <= i
                    < self.masks().len() && (#[trigger] self.masks()[i]).spec_matches(event),
    {
        let ghost masks = self.masks();
        let mut found: Vec<usize> = Vec::new();
        let mut i: usize = 0;
        while i < self.masks.len()
            invariant
                i <= self.masks.len(),
                masks == self.masks(),
                found@.map_values(|index: usize| index as int) == spec_recipients(
                    masks.take(i as int),
                    event,
                ),
            decreases self.masks.len() - i,
        {
            let ghost before = found@.map_values(|index: usize| index as int);
            assert(masks.take(i + 1).drop_last() =~= masks.take(i as int));
            if self.masks[i].matches(event) {
                found.push(i);
                assert(found@.map_values(|index: usize| index as int) =~= before.push(i as int));
            }
            i = i + 1;
        }
        assert(masks.take(i as int) =~= masks);
        proof {
            lemma_recipients_are_the_matching(masks, event);
        }
        found
    }

    /// Serves one item of the queue: a change of the descriptors is taken
    /// into `polled`, a hotplug event is to go to its handlers, and a
    /// closing item ends the queue.
    pub fn route(&self, polled: &mut DescriptorSet, event: UsbEvent) -> (r: UsbRouting)
        ensures
            match event {
                UsbEvent::FileDescriptor(change) => r == UsbRouting::Updated && final(polled)@
                    == spec_apply(old(polled)@, change),
                UsbEvent::Hotplug(data) => {
                    &&& final(polled)@ == old(polled)@
                    &&& r matches UsbRouting::Deliver(what, indices) && what == data
                        && indices@.map_values(|index: usize| index as int) == spec_recipients(
                        self.masks(),
                        data.2,
                    )
                },
                UsbEvent::Close => r == UsbRouting::Close && final(polled)@ == old(polled)@,
            },
    {
        match event {
            UsbEvent::FileDescriptor(change) => {
                polled.apply(change);
                UsbRouting::Updated
            },
            UsbEvent::Hotplug(data) => UsbRouting::Deliver(data, self.recipients(data.2)),
            UsbEvent::Close => UsbRouting::Close,
        }
    }
}

/// What the poll loop of a listener does after it has polled.
#[derive(Debug, Clone, Copy, PartialEq, Eq, Structural)]
pub enum PollVerdict {
    /// Go on with the next round.
    Continue,
    /// Let the USB library handle what is pending, then go on.
    Handle,
    /// End the loop without a closing item.
    Abort,
}

/// Decides what follows a poll: with something to report on a descriptor,
/// the pending events are to be handled; else the next round begins.
pub fn after_poll(revents: &Vec<i16>) -> (r: PollVerdict)
    ensures
        r == if exists|i: int| 0 <= i < revents@.len() && revents@[i] != 0 {
            PollVerdict::Handle
        } else {
            PollVerdict::Continue
        },
{
    if ready(revents) {
        PollVerdict::Handle
    } else {
        PollVerdict::Continue
    }
}

/// Decides what follows the handling of the pending events: any code but
/// 0 ends the loop.
pub fn after_handling(code: i32) -> (r: PollVerdict)
    ensures
        r == if code != 0 {
            PollVerdict::Abort
        } else {
            PollVerdict::Continue
        },
{
    if code != 0 {
        PollVerdict::Abort
    } else {
        PollVerdict::Continue
    }
}

} // verus!
