use core::marker::PhantomData;
use core::time::Duration;
use vstd::prelude::*;

use crate::libmount::error::{Error, IoFailure, ServeError, TaskFailure};
use crate::libmount::event::{Event, EventView, MountEvent, MountEventKind, MountEventMask};
use crate::libmount::monitor::{Monitor, MonitorView};
use crate::libmount::fs::text_view;
use crate::libmount::util::duration_millis;

verus! {

/// Something that wants to hear of mount events.
pub trait Handler {
    type Error;

    /// Whether `outcome` is something that the handler may come back with
    /// when it is handed `evt`. A handler that says nothing of this may
    /// come back with anything.
    open spec fn handled(&self, evt: MountEvent, outcome: Result<(), Self::Error>) -> bool {
        true
    }

    /// Takes one event, and says whether it could deal with it.
    fn handle(&self, evt: MountEvent) -> (r: Result<(), Self::Error>)
        ensures
            self.handled(evt, r),
    ;
}

/// A function as a handler.
#[verifier::reject_recursive_types(F)]
#[verifier::reject_recursive_types(E)]
pub struct HandlerFn<F, E>(F, PhantomData<E>) where F: Fn(MountEvent) -> Result<(), E>;

impl<F, E> HandlerFn<F, E> where F: Fn(MountEvent) -> Result<(), E> {
    /// The function can be called with every event.
    #[verifier::type_invariant]
    spec fn total(self) -> bool {
        forall|evt: MountEvent| self.0.requires((evt,))
    }

    /// The function that handles the events.
    pub closed spec fn function(self) -> F {
        self.0
    }
}

/// Makes a handler of a function that takes every event.
pub fn handler<F, E>(value: F) -> (r: HandlerFn<F, E>) where F: Fn(MountEvent) -> Result<(), E>
    requires
        forall|evt: MountEvent| value.requires((evt,)),
    ensures
        r.function() == value,
{
    HandlerFn(value, PhantomData)
}

impl<F, E> Handler for HandlerFn<F, E> where F: Fn(MountEvent) -> Result<(), E> {
    type Error = E;

    open spec fn handled(&self, evt: MountEvent, outcome: Result<(), E>) -> bool {
        self.function().ensures((evt,), outcome)
    }

    /// Calls the function with the event and hands back what it returns.
    fn handle(&self, evt: MountEvent) -> (r: Result<(), E>) {
        proof {
            use_type_invariant(self);
        }
        (self.0)(evt)
    }
}

/// A handler together with the kinds of event that it wants.
pub struct Subscription<H> {
    mask: MountEventMask,
    handler: H,
}

impl<H> Subscription<H> {
    pub closed spec fn spec_mask(self) -> MountEventMask {
        self.mask
    }

    pub closed spec fn spec_handler(self) -> H {
        self.handler
    }

    pub fn new(mask: MountEventMask, handler: H) -> (r: Self)
        ensures
            r.spec_mask() == mask,
            r.spec_handler() == handler,
    {
        Subscription { mask, handler }
    }

    pub fn mask(&self) -> (r: MountEventMask)
        ensures
            r == self.spec_mask(),
    {
        self.mask
    }

    pub fn handler(&self) -> (r: &H)
        ensures
            *r == self.spec_handler(),
    {
        &self.handler
    }
}

/// The masks of the subscriptions, in the order of registration.
pub open spec fn spec_masks<H>(subscriptions: Seq<Subscription<H>>) -> Seq<MountEventMask> {
    subscriptions.map_values(|subscription: Subscription<H>| subscription.spec_mask())
}

/// The handlers of the subscriptions, in the order of registration.
pub open spec fn spec_handlers<H>(subscriptions: Seq<Subscription<H>>) -> Seq<H> {
    subscriptions.map_values(|subscription: Subscription<H>| subscription.spec_handler())
}

/// The subscriptions that are to receive an event of `kind`: the indices,
/// in rising order, of the masks that select it.
pub open spec fn spec_recipients(masks: Seq<MountEventMask>, kind: MountEventKind) -> Seq<int>
    decreases masks.len(),
{
    if masks.len() == 0 {
        Seq::empty()
    } else if masks.last().includes(kind) {
        spec_recipients(masks.drop_last(), kind).push(masks.len() - 1)
    } else {
        spec_recipients(masks.drop_last(), kind)
    }
}

/// What a sequence of indices holds.
pub open spec fn indices_view(indices: Seq<usize>) -> Seq<int> {
    indices.map_values(|index: usize| index as int)
}

/// A subscription is among the recipients of an event exactly when its mask
/// selects the kind of the event; the recipients come in the order of
/// registration, each once.
pub proof fn lemma_recipients_are_the_selected(masks: Seq<MountEventMask>, kind: MountEventKind)
    ensures
        forall|i: int|
            spec_recipients(masks, kind).contains(i) <==> 0 <= i < masks.len() && (
            #[trigger] masks[i]).includes(kind),
        forall|k: int|
            0 <= k < spec_recipients(masks, kind).len() ==> 0 <= (#[trigger] spec_recipients(
                masks,
                kind,
            )[k]) < masks.len(),
        forall|k: int, l: int|
            0 <= k < l < spec_recipients(masks, kind).len() ==> spec_recipients(masks, kind)[k]
                < spec_recipients(masks, kind)[l],
        spec_recipients(masks, kind).len() <= masks.len(),
    decreases masks.len(),
{
    let found = spec_recipients(masks, kind);
    if masks.len() > 0 {
        let front = masks.drop_last();
        let before = spec_recipients(front, kind);
        lemma_recipients_are_the_selected(front, kind);
        let last = masks.len() - 1;
        assert forall|i: int| found.contains(i) <==> 0 <= i < masks.len() && (
        #[trigger] masks[i]).includes(kind) by {
            if 0 <= i < last {
                assert(front[i] == masks[i]);
            }
            if masks.last().includes(kind) {
                assert(found == before.push(last));
                if before.contains(i) {
                    let k = choose|k: int| 0 <= k < before.len() && before[k] == i;
                    assert(found[k] == i);
                }
                if i == last {
                    assert(found[before.len() as int] == last);
                }
                if found.contains(i) && i != last {
                    let k = choose|k: int| 0 <= k < found.len() && found[k] == i;
                    assert(before[k] == i);
                }
            }
        }
    }
}

/// What the dispatcher does with one item of its queue.
#[derive(Debug, PartialEq, Eq)]
pub enum Routing {
    /// Hand the event to the subscriptions with these indices, each on its
    /// own.
    Deliver(Vec<usize>),
    /// Take no new items; what is queued is still served.
    Close,
    /// Pass the failure on to whoever reads the errors.
    Forward(Error),
}

/// A `Routing` as a mathematical value.
pub ghost enum RoutingView {
    Deliver(Seq<int>),
    Close,
    Forward(Error),
}

impl View for Routing {
    type V = RoutingView;

    open spec fn view(&self) -> RoutingView {
        match self {
            Routing::Deliver(indices) => RoutingView::Deliver(indices_view(indices@)),
            Routing::Close => RoutingView::Close,
            Routing::Forward(error) => RoutingView::Forward(*error),
        }
    }
}

/// What becomes of an item in the dispatcher.
pub open spec fn spec_route(masks: Seq<MountEventMask>, event: EventView) -> RoutingView {
    match event {
        EventView::MountEvent(evt) => RoutingView::Deliver(spec_recipients(masks, evt.kind())),
        EventView::Close => RoutingView::Close,
        EventView::Error(error) => RoutingView::Forward(error),
    }
}

/// The outcome of one call of a handler.
pub struct Delivery<E> {
    /// The index of the subscription whose handler was called.
    pub subscription: usize,
    pub outcome: Result<(), E>,
}

/// The failure that the outcome of a handler is reported as, if it is one.
pub open spec fn spec_report<E>(outcome: Result<(), E>) -> Option<ServeError<E>> {
    match outcome {
        Ok(_) => None,
        Err(error) => Some(ServeError::Handler(error)),
    }
}

/// Turns the outcome of a handler into what goes to the reader of the
/// errors: a failure goes there as the failure of a handler, a success
/// sends nothing.
pub fn report<E>(outcome: Result<(), E>) -> (r: Option<ServeError<E>>)
    ensures
        r == spec_report(outcome),
{
    match outcome {
        Ok(_) => None,
        Err(error) => Some(ServeError::Handler(error)),
    }
}

/// The failures among the outcomes, in order.
pub open spec fn spec_failures<E>(outcomes: Seq<Result<(), E>>) -> Seq<ServeError<E>>
    decreases outcomes.len(),
{
    if outcomes.len() == 0 {
        Seq::empty()
    } else {
        match outcomes.last() {
            Ok(_) => spec_failures(outcomes.drop_last()),
            Err(error) => spec_failures(outcomes.drop_last()).push(ServeError::Handler(error)),
        }
    }
}

/// The outcomes of a sequence of deliveries.
pub open spec fn spec_outcomes_of<E>(deliveries: Seq<Delivery<E>>) -> Seq<Result<(), E>> {
    deliveries.map_values(|delivery: Delivery<E>| delivery.outcome)
}

/// The subscriptions of a sequence of deliveries.
pub open spec fn spec_subscriptions_of<E>(deliveries: Seq<Delivery<E>>) -> Seq<int> {
    deliveries.map_values(|delivery: Delivery<E>| delivery.subscription as int)
}

/// Picks the failures out of the deliveries of one event, in order, each
/// marked as the failure of a handler.
pub fn failures<E>(deliveries: Vec<Delivery<E>>) -> (r: Vec<ServeError<E>>)
    ensures
        r@ == spec_failures(spec_outcomes_of(deliveries@)),
{
    let ghost all = spec_outcomes_of(deliveries@);
    let mut rest = deliveries;
    let mut found: Vec<ServeError<E>> = Vec::new();
    // The deliveries are taken from the back, so what is found is in
    // reverse until the end.
    let mut reversed: Vec<ServeError<E>> = Vec::new();
    while rest.len() > 0
        invariant
            rest@.len() <= all.len(),
            spec_outcomes_of(rest@) == all.take(rest@.len() as int),
            spec_failures(all) == spec_failures(spec_outcomes_of(rest@)) + reversed@.reverse(),
        decreases rest@.len(),
    {
        let ghost before = spec_outcomes_of(rest@);
        let ghost tail = reversed@.reverse();
        let delivery = rest.pop().unwrap();
        assert(spec_outcomes_of(rest@) =~= before.drop_last());
        assert(before.drop_last() =~= all.take(rest@.len() as int));
        match delivery.outcome {
            Ok(_) => {},
            Err(error) => {
                reversed.push(ServeError::Handler(error));
                assert(reversed@.reverse() =~= seq![ServeError::Handler(error)] + tail);
                assert(spec_failures(before) + tail =~= spec_failures(before.drop_last())
                    + reversed@.reverse());
            },
        }
    }
    assert(spec_failures(spec_outcomes_of(rest@)) =~= Seq::<ServeError<E>>::empty());
    assert(spec_failures(all) =~= reversed@.reverse());
    while reversed.len() > 0
        invariant
            spec_failures(all) == found@ + reversed@.reverse(),
        decreases reversed@.len(),
    {
        let ghost tail = reversed@.reverse();
        let ghost done = found@;
        let failure = reversed.pop().unwrap();
        found.push(failure);
        assert(done + tail =~= found@ + reversed@.reverse());
    }
    assert(found@ + reversed@.reverse() =~= found@);
    found
}

/// The registry of subscriptions. It is filled when it is made and never
/// changed afterwards; it only remembers whether it was closed.
pub struct Dispatcher<H> {
    subscriptions: Vec<Subscription<H>>,
    closed: bool,
}

impl<H> Dispatcher<H> {
    /// The masks of the subscriptions, in the order of registration.
    pub closed spec fn masks(self) -> Seq<MountEventMask> {
        spec_masks(self.subscriptions@)
    }

    /// The handlers of the subscriptions, in the order of registration.
    pub closed spec fn handlers(self) -> Seq<H> {
        self.subscriptions@.map_values(|subscription: Subscription<H>| subscription.spec_handler())
    }

    /// Whether a closing item has been served.
    pub closed spec fn spec_closed(self) -> bool {
        self.closed
    }

    /// A dispatcher that is open and holds these subscriptions.
    pub fn new(subscriptions: Vec<Subscription<H>>) -> (r: Self)
        ensures
            r.masks() == spec_masks(subscriptions@),
            r.handlers() == spec_handlers(subscriptions@),
            !r.spec_closed(),
    {
        Dispatcher { subscriptions, closed: false }
    }

    /// The number of subscriptions.
    pub fn len(&self) -> (r: usize)
        ensures
            r == self.masks().len(),
    {
        self.subscriptions.len()
    }

    /// Whether the dispatcher has been told to take no new items.
    pub fn is_closed(&self) -> (r: bool)
        ensures
            r == self.spec_closed(),
    {
        self.closed
    }

    /// The subscription at `index`, in the order of registration.
    pub fn subscription(&self, index: usize) -> (r: Option<&Subscription<H>>)
        ensures
            r is Some <==> index < self.masks().len(),
            r is Some ==> r->Some_0.spec_mask() == self.masks()[index as int],
            r is Some ==> r->Some_0.spec_handler() == self.handlers()[index as int],
    {
        if index < self.subscriptions.len() {
            Some(&self.subscriptions[index])
        } else {
            None
        }
    }

    /// The subscriptions that are to receive `event`: those whose mask
    /// selects its kind, and no others, in the order of registration.
    pub fn recipients(&self, event: &MountEvent) -> (r: Vec<usize>)
        ensures
            indices_view(r@) == spec_recipients(self.masks(), event@.kind()),
            forall|i: int|
                indices_view(r@).contains(i) <==> 0 <= i < self.masks().len() && (
                #[trigger] self.masks()[i]).spec_matches(event@),
    {
        let ghost masks = self.masks();
        let ghost kind = event@.kind();
        let mut found: Vec<usize> = Vec::new();
        let mut i: usize = 0;
        while i < self.subscriptions.len()
            invariant
                i <= self.subscriptions.len(),
                masks == self.masks(),
                kind == event@.kind(),
                indices_view(found@) == spec_recipients(masks.take(i as int), kind),
            decreases self.subscriptions.len() - i,
        {
            let ghost before = indices_view(found@);
            assert(masks.take(i + 1).drop_last() =~= masks.take(i as int));
            assert(masks.take(i + 1).last() == self.subscriptions@[i as int].spec_mask());
            if self.subscriptions[i].mask.matches(event) {
                found.push(i);
                assert(indices_view(found@) =~= before.push(i as int));
            }
            i = i + 1;
        }
        assert(masks.take(i as int) =~= masks);
        proof {
            lemma_recipients_are_the_selected(masks, kind);
        }
        found
    }

    /// Says what is to be done with `event`. It changes nothing: a closing
    /// item is noted by `close`.
    pub fn route(&self, event: &Event) -> (r: Routing)
        ensures
            r@ == spec_route(self.masks(), event@),
    {
        match event {
            Event::MountEvent(evt) => Routing::Deliver(self.recipients(evt)),
            Event::Close => Routing::Close,
            Event::Error(error) => Routing::Forward(*error),
        }
    }

    /// Notes that a closing item was served: no new items are to be taken.
    pub fn close(&mut self)
        ensures
            final(self).masks() == old(self).masks(),
            final(self).spec_closed(),
    {
        self.closed = true;
    }
}

impl<H: Handler> Dispatcher<H> {
    /// Hands `event` to every subscription that is to receive it, one after
    /// the other in the order of registration, whatever the handlers before
    /// it came back with. The outcome of each call comes back, in that
    /// order.
    pub fn deliver(&self, event: &MountEvent) -> (r: Vec<Delivery<H::Error>>)
        ensures
            spec_subscriptions_of(r@) == spec_recipients(self.masks(), event@.kind()),
            forall|k: int|
                0 <= k < r@.len() ==> 0 <= (#[trigger] r@[k]).subscription < self.handlers().len()
                    && self.handlers()[r@[k].subscription as int].handled(*event, r@[k].outcome),
    {
        let selected = self.recipients(event);
        let ghost wanted = spec_recipients(self.masks(), event@.kind());
        proof {
            lemma_recipients_are_the_selected(self.masks(), event@.kind());
        }
        let mut deliveries: Vec<Delivery<H::Error>> = Vec::new();
        let mut k: usize = 0;
        while k < selected.len()
            invariant
                k <= selected.len(),
                indices_view(selected@) == wanted,
                forall|l: int| 0 <= l < wanted.len() ==> 0 <= #[trigger] wanted[l] < self.masks().len(),
                spec_subscriptions_of(deliveries@) == wanted.take(k as int),
                forall|l: int|
                    0 <= l < deliveries@.len() ==> 0 <= (#[trigger] deliveries@[l]).subscription
                        < self.handlers().len() && self.handlers()[deliveries@[l].subscription as int].handled(
                        *event,
                        deliveries@[l].outcome,
                    ),
            decreases selected.len() - k,
        {
            let ghost before = spec_subscriptions_of(deliveries@);
            let index = selected[k];
            assert(wanted[k as int] == index as int);
            assert(index < self.subscriptions.len());
            let outcome = self.subscriptions[index].handler.handle(event.clone());
            deliveries.push(Delivery { subscription: index, outcome });
            assert(spec_subscriptions_of(deliveries@) =~= before.push(index as int));
            assert(wanted.take(k + 1) =~= before.push(index as int));
            k = k + 1;
        }
        assert(wanted.take(k as int) =~= wanted);
        deliveries
    }

    /// Serves one item of the queue: an event goes to its handlers and
    /// their failures come back, each marked as the failure of a handler; a
    /// failure of the pipeline comes back as it is, marked as such; a closing
    /// item is noted.
    pub fn dispatch(&mut self, event: Event) -> (r: Vec<ServeError<H::Error>>)
        ensures
            final(self).masks() == old(self).masks(),
            final(self).spec_closed() == (old(self).spec_closed() || event@ is Close),
            match event@ {
                EventView::MountEvent(evt) => {
                    &&& r@.len() <= spec_recipients(old(self).masks(), evt.kind()).len()
                    &&& forall|k: int| 0 <= k < r@.len() ==> #[trigger] r@[k] is Handler
                    &&& exists|outcomes: Seq<Result<(), H::Error>>|
                        spec_served(*old(self), event, outcomes) && r@ == spec_failures(outcomes)
                },
                EventView::Close => r@.len() == 0,
                EventView::Error(error) => r@ == seq![ServeError::<H::Error>::LibMount(error)],
            },
    {
        match event {
            Event::MountEvent(evt) => {
                let deliveries = self.deliver(&evt);
                proof {
                    let outcomes = spec_outcomes_of(deliveries@);
                    let wanted = spec_recipients(self.masks(), evt@.kind());
                    lemma_failures_are_of_handlers(outcomes);
                    assert(outcomes.len() == spec_subscriptions_of(deliveries@).len());
                    assert forall|k: int| 0 <= k < outcomes.len() implies 0 <= #[trigger] wanted[k]
                        < self.handlers().len() && self.handlers()[wanted[k]].handled(
                        evt,
                        outcomes[k],
                    ) by {
                        assert(spec_subscriptions_of(deliveries@)[k] == deliveries@[k].subscription);
                    }
                    assert(spec_served(*self, event, outcomes));
                }
                failures(deliveries)
            },
            Event::Close => {
                self.closed = true;
                Vec::new()
            },
            Event::Error(error) => {
                let mut forwarded: Vec<ServeError<H::Error>> = Vec::new();
                forwarded.push(ServeError::LibMount(error));
                forwarded
            },
        }
    }
}

/// Whether `outcomes` are what the handlers of the recipients of an event
/// came back with when each was handed the event: one outcome for each
/// recipient, in the order of registration.
pub open spec fn spec_served<H: Handler>(
    dispatcher: Dispatcher<H>,
    event: Event,
    outcomes: Seq<Result<(), H::Error>>,
) -> bool {
    &&& event matches Event::MountEvent(evt)
    &&& outcomes.len() == spec_recipients(dispatcher.masks(), evt@.kind()).len()
    &&& forall|k: int|
        0 <= k < outcomes.len() ==> {
            let index = #[trigger] spec_recipients(dispatcher.masks(), evt@.kind())[k];
            0 <= index < dispatcher.handlers().len() && dispatcher.handlers()[index].handled(
                evt,
                outcomes[k],
            )
        }
}

/// Of the outcomes of the handlers, exactly the failures are reported, each
/// as the failure of a handler and in the order of the calls.
pub proof fn lemma_failures_are_of_handlers<E>(outcomes: Seq<Result<(), E>>)
    ensures
        spec_failures(outcomes).len() <= outcomes.len(),
        forall|k: int|
            0 <= k < spec_failures(outcomes).len() ==> #[trigger] spec_failures(
                outcomes,
            )[k] is Handler,
        (forall|i: int| 0 <= i < outcomes.len() ==> #[trigger] outcomes[i] is Ok)
            <==> spec_failures(outcomes).len() == 0,
    decreases outcomes.len(),
{
    if outcomes.len() > 0 {
        lemma_failures_are_of_handlers(outcomes.drop_last());
        let front = outcomes.drop_last();
        if forall|i: int| 0 <= i < outcomes.len() ==> #[trigger] outcomes[i] is Ok {
            assert forall|i: int| 0 <= i < front.len() implies #[trigger] front[i] is Ok by {
                assert(front[i] == outcomes[i]);
            }
            assert(outcomes[outcomes.len() - 1] is Ok);
        }
        if spec_failures(outcomes).len() == 0 {
            assert forall|i: int| 0 <= i < outcomes.len() implies #[trigger] outcomes[i] is Ok by {
                if i < front.len() {
                    assert(front[i] == outcomes[i]);
                }
            }
        }
    }
}

/// The failure of one handler changes nothing about who receives an event:
/// the recipients depend on the masks and on the kind of the event alone,
/// and one outcome comes back for each of them.
pub proof fn lemma_failure_is_isolated<E>(
    masks: Seq<MountEventMask>,
    kind: MountEventKind,
    outcomes: Seq<Result<(), E>>,
    other: Seq<Result<(), E>>,
    failed: int,
)
    requires
        outcomes.len() == spec_recipients(masks, kind).len(),
        other.len() == outcomes.len(),
        0 <= failed < outcomes.len(),
        outcomes[failed] is Err,
        forall|k: int| 0 <= k < outcomes.len() && k != failed ==> outcomes[k] == other[k],
        other[failed] is Ok,
    ensures
        spec_failures(outcomes).contains(ServeError::Handler(outcomes[failed]->Err_0)),
        forall|failure: ServeError<E>|
            spec_failures(other).contains(failure) ==> spec_failures(outcomes).contains(failure),
{
    lemma_failures_hold(outcomes, failed);
    assert forall|failure: ServeError<E>| spec_failures(other).contains(failure) implies spec_failures(
        outcomes,
    ).contains(failure) by {
        lemma_failure_has_cause(other, failure);
        let k = choose|k: int| 0 <= k < other.len() && other[k] == Err::<(), E>(failure->Handler_0);
        assert(outcomes[k] == other[k]);
        lemma_failures_hold(outcomes, k);
    }
}

proof fn lemma_failures_hold<E>(outcomes: Seq<Result<(), E>>, k: int)
    requires
        0 <= k < outcomes.len(),
        outcomes[k] is Err,
    ensures
        spec_failures(outcomes).contains(ServeError::Handler(outcomes[k]->Err_0)),
    decreases outcomes.len(),
{
    let front = outcomes.drop_last();
    let found = spec_failures(outcomes);
    if k == outcomes.len() - 1 {
        assert(found[found.len() - 1] == ServeError::Handler(outcomes[k]->Err_0));
    } else {
        lemma_failures_hold(front, k);
        let before = spec_failures(front);
        let wanted = ServeError::Handler(outcomes[k]->Err_0);
        let at = choose|at: int| 0 <= at < before.len() && before[at] == wanted;
        assert(found[at] == wanted);
    }
}

proof fn lemma_failure_has_cause<E>(outcomes: Seq<Result<(), E>>, failure: ServeError<E>)
    requires
        spec_failures(outcomes).contains(failure),
    ensures
        failure is Handler,
        exists|k: int| 0 <= k < outcomes.len() && outcomes[k] == Err::<(), E>(failure->Handler_0),
    decreases outcomes.len(),
{
    if outcomes.len() > 0 {
        let front = outcomes.drop_last();
        let found = spec_failures(outcomes);
        let before = spec_failures(front);
        let at = choose|at: int| 0 <= at < found.len() && found[at] == failure;
        if at < before.len() {
            assert(before[at] == failure);
            lemma_failure_has_cause(front, failure);
            let k = choose|k: int| 0 <= k < front.len() && front[k] == Err::<(), E>(
                failure->Handler_0,
            );
            assert(outcomes[k] == front[k]);
        } else {
            assert(outcomes[outcomes.len() - 1] == Err::<(), E>(failure->Handler_0));
        }
    }
}

/// What can end the wait of the task that watches over a running
/// pipeline.
#[derive(Debug, Clone, Copy, PartialEq, Eq)]
pub enum ShutdownCause {
    /// The operator sent the interrupt signal.
    Interrupt,
    /// Waiting for the interrupt signal failed.
    InterruptFailed(IoFailure),
    /// A handler or the pipeline reported a failure.
    ErrorReported,
    /// The pipeline came to its end by itself.
    Completed,
}

/// What the watching task does once its wait has ended.
#[derive(Debug, Clone, Copy, PartialEq, Eq)]
pub struct Shutdown {
    /// Whether the stop signal is sent to the poll loop.
    pub request_stop: bool,
    /// What the watching task itself ends with.
    pub result: Result<(), IoFailure>,
}

pub open spec fn spec_arbitrate(cause: ShutdownCause) -> Shutdown {
    match cause {
        ShutdownCause::Interrupt => Shutdown { request_stop: true, result: Ok(()) },
        ShutdownCause::InterruptFailed(failure) => Shutdown {
            request_stop: false,
            result: Err(failure),
        },
        ShutdownCause::ErrorReported => Shutdown { request_stop: true, result: Ok(()) },
        ShutdownCause::Completed => Shutdown { request_stop: false, result: Ok(()) },
    }
}

/// Decides what follows from the end of the wait. An interrupt and a
/// reported failure both request the stop, and neither is a failure of
/// the watching task.
pub fn arbitrate(cause: ShutdownCause) -> (r: Shutdown)
    ensures
        r == spec_arbitrate(cause),
{
    match cause {
        ShutdownCause::Interrupt => Shutdown { request_stop: true, result: Ok(()) },
        ShutdownCause::InterruptFailed(failure) => Shutdown {
            request_stop: false,
            result: Err(failure),
        },
        ShutdownCause::ErrorReported => Shutdown { request_stop: true, result: Ok(()) },
        ShutdownCause::Completed => Shutdown { request_stop: false, result: Ok(()) },
    }
}

/// What the state of the stop signal says to the poll loop.
#[derive(Debug, Clone, Copy, PartialEq, Eq, Structural)]
pub enum StopSignal {
    /// The stop was requested.
    Requested,
    /// Nothing was sent yet.
    Pending,
    /// Whoever could have sent it is gone.
    Abandoned,
}

/// Whether the poll loop is to stop: it goes on only while the signal is
/// still pending.
pub fn should_stop(signal: StopSignal) -> (r: bool)
    ensures
        r == (signal != StopSignal::Pending),
{
    match signal {
        StopSignal::Requested => true,
        StopSignal::Pending => false,
        StopSignal::Abandoned => true,
    }
}

pub open spec fn spec_completion<E>(
    poll: Result<(), Error>,
    dispatch: Result<Result<(), ServeError<E>>, TaskFailure>,
) -> Result<(), ServeError<E>> {
    match poll {
        Err(error) => Err(ServeError::LibMount(error)),
        Ok(_) => match dispatch {
            Err(failure) => Err(ServeError::JoinError(failure)),
            Ok(Err(error)) => Err(error),
            Ok(Ok(_)) => Ok(()),
        },
    }
}

/// The result of the pipeline once both of its tasks have stopped: the
/// failure of the poll loop comes first, then that of the task of the
/// dispatcher, then that of the dispatcher itself; without any of them the
/// pipeline has ended well.
pub fn completion<E>(
    poll: Result<(), Error>,
    dispatch: Result<Result<(), ServeError<E>>, TaskFailure>,
) -> (r: Result<(), ServeError<E>>)
    ensures
        r == spec_completion(poll, dispatch),
{
    match poll {
        Err(error) => Err(ServeError::LibMount(error)),
        Ok(_) => match dispatch {
            Err(failure) => Err(ServeError::JoinError(failure)),
            Ok(Err(error)) => Err(error),
            Ok(Ok(_)) => Ok(()),
        },
    }
}

pub open spec fn spec_serve_result<E>(
    pipeline: Result<(), ServeError<E>>,
    watcher: Result<Result<(), IoFailure>, TaskFailure>,
) -> Result<(), ServeError<E>> {
    match pipeline {
        Err(error) => Err(error),
        Ok(_) => match watcher {
            Err(failure) => Err(ServeError::JoinError(failure)),
            Ok(Err(failure)) => Err(ServeError::IO(failure)),
            Ok(Ok(_)) => Ok(()),
        },
    }
}

/// The result of serving: the failure of the pipeline comes first, then
/// that of the watching task. A stop that the operator or a reported
/// failure brought about is not among them.
pub fn serve_result<E>(
    pipeline: Result<(), ServeError<E>>,
    watcher: Result<Result<(), IoFailure>, TaskFailure>,
) -> (r: Result<(), ServeError<E>>)
    ensures
        r == spec_serve_result(pipeline, watcher),
{
    match pipeline {
        Err(error) => Err(error),
        Ok(_) => match watcher {
            Err(failure) => Err(ServeError::JoinError(failure)),
            Ok(Err(failure)) => Err(ServeError::IO(failure)),
            Ok(Ok(_)) => Ok(()),
        },
    }
}

/// An interrupt and a reported failure lead to the same shutdown, and once
/// the poll loop, the dispatcher and the watching task have stopped without
/// a failure of their own, serving ends well.
pub proof fn lemma_shutdown_is_one_path<E>()
    ensures
        spec_arbitrate(ShutdownCause::Interrupt) == spec_arbitrate(ShutdownCause::ErrorReported),
        spec_arbitrate(ShutdownCause::Interrupt).request_stop,
        spec_serve_result::<E>(
            spec_completion::<E>(Ok(()), Ok(Ok(()))),
            Ok(spec_arbitrate(ShutdownCause::Interrupt).result),
        ) == Ok::<(), ServeError<E>>(()),
        spec_serve_result::<E>(
            spec_completion::<E>(Ok(()), Ok(Ok(()))),
            Ok(spec_arbitrate(ShutdownCause::ErrorReported).result),
        ) == Ok::<(), ServeError<E>>(()),
{
}

/// The settings of a pipeline, each absent until it is given.
pub ghost struct Settings {
    /// Whether userspace notifications are on.
    pub userspace: Option<bool>,
    /// The file that stands in for the usual userspace table.
    pub userspace_file: Option<Seq<char>>,
    /// Whether kernel notifications are on.
    pub kernel: Option<bool>,
    /// How long one wait of the poll loop may take.
    pub poll_rate: Option<Duration>,
}

impl Settings {
    pub open spec fn none() -> Settings {
        Settings { userspace: None, userspace_file: None, kernel: None, poll_rate: None }
    }

    /// The monitor that these settings ask for: what was not given is off.
    pub open spec fn monitor(self) -> MonitorView {
        MonitorView {
            kernel: match self.kernel {
                Some(enabled) => enabled,
                None => false,
            },
            userspace: match self.userspace {
                Some(enabled) => enabled,
                None => false,
            },
            userspace_file: match self.userspace {
                Some(_) => self.userspace_file,
                None => None,
            },
        }
    }

    /// The milliseconds of one wait: none where no rate was given, so that
    /// the loop polls without pause.
    pub open spec fn poll_millis(self) -> u128 {
        match self.poll_rate {
            Some(rate) => duration_millis(rate),
            None => 0,
        }
    }
}

/// Where a pipeline is put together.
pub struct MonitorServe;

impl MonitorServe {
    /// A builder without settings and without handlers.
    pub fn builder() -> (r: MonitorServeBuilderNoHandler)
        ensures
            r@ == Settings::none(),
    {
        MonitorServeBuilderNoHandler {
            userspace: None,
            userspace_file: None,
            kernel: None,
            poll_rate: None,
        }
    }
}

/// A builder that has no handler yet: it takes settings, and nothing can
/// be built from it before it is given a handler.
pub struct MonitorServeBuilderNoHandler {
    userspace: Option<bool>,
    userspace_file: Option<String>,
    kernel: Option<bool>,
    poll_rate: Option<Duration>,
}

impl View for MonitorServeBuilderNoHandler {
    type V = Settings;

    closed spec fn view(&self) -> Settings {
        Settings {
            userspace: self.userspace,
            userspace_file: text_view(self.userspace_file),
            kernel: self.kernel,
            poll_rate: self.poll_rate,
        }
    }
}

impl Default for MonitorServeBuilderNoHandler {
    fn default() -> (r: Self)
        ensures
            r@ == Settings::none(),
    {
        MonitorServe::builder()
    }
}

impl MonitorServeBuilderNoHandler {
    /// Registers the first handler, for the events that `mask` selects.
    pub fn with_handler<H: Handler>(self, mask: MountEventMask, handler: H) -> (r:
        MonitorServeBuilder<H>)
        ensures
            r.settings() == self@,
            r.masks() == seq![mask],
            r.handlers() == seq![handler],
    {
        let mut handlers: Vec<Subscription<H>> = Vec::new();
        handlers.push(Subscription::new(mask, handler));
        assert(spec_masks(handlers@) =~= seq![mask]);
        assert(spec_handlers(handlers@) =~= seq![handler]);
        MonitorServeBuilder {
            handlers,
            userspace: self.userspace,
            userspace_file: self.userspace_file,
            kernel: self.kernel,
            poll_rate: self.poll_rate,
        }
    }

    /// Switches userspace notifications on or off; with a file, that file
    /// is watched in place of the usual one.
    pub fn with_userspace(self, value: bool, file: Option<&str>) -> (r: Self)
        ensures
            r@ == (Settings {
                userspace: Some(value),
                userspace_file: match file {
                    Some(name) => Some(name@),
                    None => None,
                },
                ..self@
            }),
    {
        MonitorServeBuilderNoHandler {
            userspace: Some(value),
            userspace_file: match file {
                Some(name) => Some(name.to_owned()),
                None => None,
            },
            kernel: self.kernel,
            poll_rate: self.poll_rate,
        }
    }

    /// Switches kernel notifications on or off.
    pub fn with_kernel(self, value: bool) -> (r: Self)
        ensures
            r@ == (Settings { kernel: Some(value), ..self@ }),
    {
        MonitorServeBuilderNoHandler {
            userspace: self.userspace,
            userspace_file: self.userspace_file,
            kernel: Some(value),
            poll_rate: self.poll_rate,
        }
    }

    /// Sets how long one wait of the poll loop may take.
    pub fn with_poll_rate(self, value: Duration) -> (r: Self)
        ensures
            r@ == (Settings { poll_rate: Some(value), ..self@ }),
    {
        MonitorServeBuilderNoHandler {
            userspace: self.userspace,
            userspace_file: self.userspace_file,
            kernel: self.kernel,
            poll_rate: Some(value),
        }
    }
}

/// A builder with at least one handler.
pub struct MonitorServeBuilder<H> {
    handlers: Vec<Subscription<H>>,
    userspace: Option<bool>,
    userspace_file: Option<String>,
    kernel: Option<bool>,
    poll_rate: Option<Duration>,
}

/// What a builder with handlers turns into: the monitor to listen to, the
/// rate of the poll loop, and the dispatcher with the subscriptions.
pub struct ServePlan<H> {
    pub monitor: Monitor,
    pub poll_rate: Duration,
    pub dispatcher: Dispatcher<H>,
}

impl<H> MonitorServeBuilder<H> {
    #[verifier::type_invariant]
    spec fn has_handler(self) -> bool {
        self.handlers@.len() >= 1
    }

    pub closed spec fn settings(self) -> Settings {
        Settings {
            userspace: self.userspace,
            userspace_file: text_view(self.userspace_file),
            kernel: self.kernel,
            poll_rate: self.poll_rate,
        }
    }

    /// The masks of the subscriptions, in the order of registration.
    pub closed spec fn masks(self) -> Seq<MountEventMask> {
        spec_masks(self.handlers@)
    }

    /// The handlers of the subscriptions, in the order of registration.
    pub closed spec fn handlers(self) -> Seq<H> {
        spec_handlers(self.handlers@)
    }

    /// Registers one more handler, after those that are there.
    pub fn with_handler(self, mask: MountEventMask, handler: H) -> (r: Self)
        ensures
            r.settings() == self.settings(),
            r.masks() == self.masks().push(mask),
            r.handlers() == self.handlers().push(handler),
    {
        proof {
            use_type_invariant(&self);
        }
        let mut handlers = self.handlers;
        handlers.push(Subscription::new(mask, handler));
        assert(spec_masks(handlers@) =~= self.masks().push(mask));
        assert(spec_handlers(handlers@) =~= self.handlers().push(handler));
        MonitorServeBuilder {
            handlers,
            userspace: self.userspace,
            userspace_file: self.userspace_file,
            kernel: self.kernel,
            poll_rate: self.poll_rate,
        }
    }

    /// Switches userspace notifications on or off; with a file, that file
    /// is watched in place of the usual one.
    pub fn with_userspace(self, value: bool, file: Option<&str>) -> (r: Self)
        ensures
            r.masks() == self.masks(),
            r.handlers() == self.handlers(),
            r.settings() == (Settings {
                userspace: Some(value),
                userspace_file: match file {
                    Some(name) => Some(name@),
                    None => None,
                },
                ..self.settings()
            }),
    {
        proof {
            use_type_invariant(&self);
        }
        MonitorServeBuilder {
            handlers: self.handlers,
            userspace: Some(value),
            userspace_file: match file {
                Some(name) => Some(name.to_owned()),
                None => None,
            },
            kernel: self.kernel,
            poll_rate: self.poll_rate,
        }
    }

    /// Switches kernel notifications on or off.
    pub fn with_kernel(self, value: bool) -> (r: Self)
        ensures
            r.masks() == self.masks(),
            r.handlers() == self.handlers(),
            r.settings() == (Settings { kernel: Some(value), ..self.settings() }),
    {
        proof {
            use_type_invariant(&self);
        }
        MonitorServeBuilder {
            handlers: self.handlers,
            userspace: self.userspace,
            userspace_file: self.userspace_file,
            kernel: Some(value),
            poll_rate: self.poll_rate,
        }
    }

    /// Sets how long one wait of the poll loop may take.
    pub fn with_poll_rate(self, value: Duration) -> (r: Self)
        ensures
            r.masks() == self.masks(),
            r.handlers() == self.handlers(),
            r.settings() == (Settings { poll_rate: Some(value), ..self.settings() }),
    {
        proof {
            use_type_invariant(&self);
        }
        MonitorServeBuilder {
            handlers: self.handlers,
            userspace: self.userspace,
            userspace_file: self.userspace_file,
            kernel: self.kernel,
            poll_rate: Some(value),
        }
    }

    /// Puts the pipeline together: a monitor with the settings that were
    /// given, the rate of the poll loop, and a dispatcher that is open and
    /// holds the subscriptions in the order of registration.
    pub fn build(self) -> (r: Result<ServePlan<H>, ServeError<H::Error>>) where H: Handler
        ensures
            r is Ok,
            r->Ok_0.monitor@ == self.settings().monitor(),
            duration_millis(r->Ok_0.poll_rate) == self.settings().poll_millis(),
            r->Ok_0.dispatcher.masks() == self.masks(),
            r->Ok_0.dispatcher.handlers() == self.handlers(),
            r->Ok_0.dispatcher.masks().len() >= 1,
            !r->Ok_0.dispatcher.spec_closed(),
    {
        proof {
            use_type_invariant(&self);
        }
        let mut monitor = match Monitor::new() {
            Ok(monitor) => monitor,
            Err(error) => {
                return Err(ServeError::LibMount(Error::AllocationMonitor(error)));
            },
        };
        if let Some(kernel) = self.kernel {
            if let Err(error) = monitor.with_kernel(kernel) {
                return Err(ServeError::LibMount(error));
            }
        }
        match (self.userspace, &self.userspace_file) {
            (Some(userspace), Some(file)) => {
                if let Err(error) = monitor.with_userspace(userspace, Some(file.as_str())) {
                    return Err(ServeError::LibMount(error));
                }
            },
            (Some(userspace), None) => {
                if let Err(error) = monitor.with_userspace(userspace, None) {
                    return Err(ServeError::LibMount(error));
                }
            },
            (None, _) => {},
        }
        let poll_rate = match self.poll_rate {
            Some(rate) => rate,
            None => Duration::from_millis(0),
        };
        Ok(ServePlan { monitor, poll_rate, dispatcher: Dispatcher::new(self.handlers) })
    }
}

} // verus!
