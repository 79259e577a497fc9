//! Broadcast events between services.
//!
//! A service declares the kinds of events it emits; each kind gets its own
//! bounded broadcast channel, and a subscriber receives every event
//! published after it subscribed.

use crate::channel::{Channel, Sent};
use crate::shared::{Listener, Wake};
use crate::text::fill1;
use event_listener::Event as WakeList;
use std::collections::BTreeMap;
use vstd::prelude::*;

verus! {

broadcast use vstd::laws_cmp::group_laws_cmp;

/// Marker trait for event types.
pub trait Event: Clone + Send + 'static {

}

/// A subscription to one kind of an emitter's events.
///
/// Each receiver has its own queue of events it has not yet taken.
pub struct EventReceiver {
    kind: u64,
    id: u64,
    /// The list of the waiters of its emitter.
    home: Ghost<WakeList>,
}

/// What waiting for the next event comes to.
pub enum NextStep<E> {
    /// Here is the event.
    Take { event: E },
    /// The channel has closed, and no event will come.
    End,
    /// Look again after the next emit, or after the channel has closed.
    Wait,
}

/// One kind of events, as mathematics: what each subscriber has not taken
/// yet, how many events a subscriber's queue holds at most, and the number
/// of the next subscriber.
#[verifier::ext_equal]
pub struct KindView<E> {
    pub queues: Map<u64, Seq<E>>,
    pub capacity: nat,
    pub next_receiver: u64,
}

/// A publisher of a service's events, holding one broadcast channel per
/// declared kind.
#[verifier::reject_recursive_types(E)]
pub struct Emitter<E> {
    channels: BTreeMap<u64, Channel<E>>,
    /// Published count per kind.
    counters: BTreeMap<u64, u64>,
    wake: Wake<()>,
}

/// A channel, as mathematics.
pub open spec fn kind_view<E>(channel: Channel<E>) -> KindView<E> {
    KindView {
        queues: channel.queues(),
        capacity: channel.capacity(),
        next_receiver: channel.next_receiver(),
    }
}

/// One kind after an event was emitted.
pub open spec fn emitted<E>(kind: KindView<E>, event: E) -> KindView<E> {
    KindView {
        queues: crate::channel::queues_after(kind.queues, kind.capacity, event),
        ..kind
    }
}

/// Whether an event of a kind would reach its subscribers: there are some,
/// and none of their queues is full.
pub open spec fn heard<E>(kind: KindView<E>) -> bool {
    crate::channel::outcome(kind.queues, kind.capacity) == Sent::Delivered
}

/// Whether an event of a kind would find a full queue.
pub open spec fn jammed<E>(kind: KindView<E>) -> bool {
    crate::channel::outcome(kind.queues, kind.capacity) == Sent::Full
}

/// The counts after one more event of a kind was published.
pub open spec fn counted(counts: Map<u64, u64>, kind: u64) -> Map<u64, u64> {
    if counts.contains_key(kind) {
        counts.insert(kind, counts[kind].wrapping_add(1))
    } else {
        counts
    }
}

/// What is wrong where a subscriber has fallen behind.
pub const QUEUE_FULL: &'static str = "event queue full: $0";

/// Reports an event of the named type that was turned away.
pub fn report_emit(accepted: bool, event: &str) -> (result: Result<(), String>)
    ensures
        match result {
            Ok(()) => accepted,
            Err(message) => !accepted && message@ == crate::text::filled(
                QUEUE_FULL@,
                seq![event@],
            ),
        },
{
    if accepted {
        Ok(())
    } else {
        Err(fill1(QUEUE_FULL, event))
    }
}

impl<E> View for Emitter<E> {
    type V = Map<u64, KindView<E>>;

    /// The declared kinds.
    closed spec fn view(&self) -> Map<u64, KindView<E>> {
        self.channels@.map_values(|channel: Channel<E>| kind_view(channel))
    }
}

impl<E> Emitter<E> {
    /// The counts of published events.
    pub closed spec fn counts(&self) -> Map<u64, u64> {
        self.counters@
    }

    /// The waiters that an emit wakes.
    pub closed spec fn waiters(&self) -> Wake<()> {
        self.wake
    }

    /// Whether every channel is in order.
    pub closed spec fn wf(&self) -> bool {
        forall|kind: u64| #[trigger]
            self.channels@.contains_key(kind) ==> self.channels@[kind].wf()
    }

    /// Creates a new empty emitter.
    pub fn new() -> (emitter: Self)
        ensures
            emitter.wf(),
            emitter@ == Map::<u64, KindView<E>>::empty(),
            emitter.counts() == Map::<u64, u64>::empty(),
    {
        let emitter = Emitter {
            channels: BTreeMap::new(),
            counters: BTreeMap::new(),
            wake: Wake::new(),
        };
        assert(emitter@ =~= Map::empty());
        emitter
    }

    /// Creates an emitter with the given channels and counts.
    pub fn with_senders(
        channels: BTreeMap<u64, Channel<E>>,
        counters: BTreeMap<u64, u64>,
    ) -> (emitter: Self)
        requires
            forall|kind: u64| #[trigger] channels@.contains_key(kind) ==> channels@[kind].wf(),
        ensures
            emitter.wf(),
            emitter@ == channels@.map_values(|channel: Channel<E>| kind_view(channel)),
            emitter.counts() == counters@,
    {
        Emitter { channels, counters, wake: Wake::new() }
    }

    /// Emits an event to all subscribers, unless a subscriber's queue is
    /// full; returns whether it did.
    ///
    /// An emit without subscribers, or of a kind that was not declared, is a
    /// no-op. Subscribers that wait are woken.
    pub fn try_emit(&mut self, kind: u64, event: E) -> (accepted: bool) where E: Clone
        requires
            old(self).wf(),
        ensures
            final(self).wf(),
            accepted == !(old(self)@.contains_key(kind) && jammed(old(self)@[kind])),
            !(old(self)@.contains_key(kind) && heard(old(self)@[kind])) ==> {
                &&& final(self)@ == old(self)@
                &&& final(self).counts() == old(self).counts()
                &&& final(self).waiters() == old(self).waiters()
            },
            old(self)@.contains_key(kind) && heard(old(self)@[kind]) ==> {
                &&& final(self)@ == old(self)@.insert(kind, emitted(old(self)@[kind], event))
                &&& final(self).counts() == counted(old(self).counts(), kind)
                &&& final(self).waiters().woken(old(self).waiters())
            },
    {
        let mut channel = match self.channels.remove(&kind) {
            Some(channel) => channel,
            None => {
                assert(self@ =~= old(self)@);
                return true;
            },
        };
        let sent = channel.send(event);
        self.channels.insert(kind, channel);
        assert(self@ =~= old(self)@.insert(kind, emitted(old(self)@[kind], event)));
        if sent != Sent::Delivered {
            assert(self@ =~= old(self)@);
            return sent != Sent::Full;
        }
        if let Some(count) = self.counters.remove(&kind) {
            self.counters.insert(kind, count.wrapping_add(1));
        }
        assert(self.counts() =~= counted(old(self).counts(), kind));
        self.wake.notify_all();
        true
    }

    /// Emits an event to all subscribers, none of whose queues may be full.
    ///
    /// An emit without subscribers, or of a kind that was not declared, is a
    /// no-op. Subscribers that wait are woken.
    pub fn emit(&mut self, kind: u64, event: E) where E: Clone
        requires
            old(self).wf(),
            old(self)@.contains_key(kind) ==> !jammed(old(self)@[kind]),
        ensures
            final(self).wf(),
            !(old(self)@.contains_key(kind) && heard(old(self)@[kind])) ==> {
                &&& final(self)@ == old(self)@
                &&& final(self).counts() == old(self).counts()
                &&& final(self).waiters() == old(self).waiters()
            },
            old(self)@.contains_key(kind) && heard(old(self)@[kind]) ==> {
                &&& final(self)@ == old(self)@.insert(kind, emitted(old(self)@[kind], event))
                &&& final(self).counts() == counted(old(self).counts(), kind)
                &&& final(self).waiters().woken(old(self).waiters())
            },
    {
        self.try_emit(kind, event);
    }

    /// Whether a kind was declared and has a number left for one more
    /// receiver.
    pub fn has_room(&self, kind: u64) -> (room: bool)
        ensures
            room == (self@.contains_key(kind) && self@[kind].next_receiver < u64::MAX),
    {
        match self.channels.get(&kind) {
            Some(channel) => channel.has_room(),
            None => false,
        }
    }

    /// Returns a receiver for all future events of a kind.
    pub fn subscribe(&mut self, kind: u64) -> (receiver: EventReceiver)
        requires
            old(self).wf(),
            old(self)@.contains_key(kind),
            old(self)@[kind].next_receiver < u64::MAX,
        ensures
            final(self).wf(),
            final(self).waiters() == old(self).waiters(),
            receiver.kind() == kind,
            receiver.id() == old(self)@[kind].next_receiver,
            receiver.home() == old(self).waiters().list(),
            final(self).counts() == old(self).counts(),
            final(self)@ == old(self)@.insert(
                kind,
                KindView {
                    queues: old(self)@[kind].queues.insert(receiver.id(), seq![]),
                    capacity: old(self)@[kind].capacity,
                    next_receiver: (old(self)@[kind].next_receiver + 1) as u64,
                },
            ),
    {
        let mut id: u64 = 0;
        if let Some(channel) = self.channels.remove(&kind) {
            let mut channel = channel;
            id = channel.subscribe();
            self.channels.insert(kind, channel);
        }
        assert(self@ =~= old(self)@.insert(
            kind,
            KindView {
                queues: old(self)@[kind].queues.insert(id, seq![]),
                capacity: old(self)@[kind].capacity,
                next_receiver: (old(self)@[kind].next_receiver + 1) as u64,
            },
        ));
        EventReceiver { kind, id, home: Ghost(self.wake.list()) }
    }

    /// Gives a receiver up.
    pub fn unsubscribe(&mut self, receiver: EventReceiver)
        requires
            old(self).wf(),
            receiver.home() == old(self).waiters().list(),
        ensures
            final(self).wf(),
            final(self).waiters() == old(self).waiters(),
            final(self).counts() == old(self).counts(),
            final(self)@ == if old(self)@.contains_key(receiver.kind()) {
                old(self)@.insert(
                    receiver.kind(),
                    KindView {
                        queues: old(self)@[receiver.kind()].queues.remove(receiver.id()),
                        ..old(self)@[receiver.kind()]
                    },
                )
            } else {
                old(self)@
            },
    {
        if let Some(channel) = self.channels.remove(&receiver.kind) {
            let mut channel = channel;
            channel.unsubscribe(receiver.id);
            self.channels.insert(receiver.kind, channel);
            assert(self@ =~= old(self)@.insert(
                receiver.kind,
                KindView {
                    queues: old(self)@[receiver.kind].queues.remove(receiver.id),
                    ..old(self)@[receiver.kind]
                },
            ));
        } else {
            assert(self@ =~= old(self)@);
        }
    }

    /// Returns the number of events published of a kind.
    pub fn published(&self, kind: u64) -> (count: u64)
        ensures
            count == match self.counts().get(kind) {
                Some(count) => count,
                None => 0,
            },
    {
        match self.counters.get(&kind) {
            Some(count) => *count,
            None => 0,
        }
    }

    /// Returns the current number of subscribers to a kind.
    pub fn subscriber_count(&self, kind: u64) -> (count: usize)
        requires
            self.wf(),
        ensures
            count == if self@.contains_key(kind) {
                self@[kind].queues.dom().len()
            } else {
                0
            },
    {
        match self.channels.get(&kind) {
            Some(channel) => channel.receiver_count(),
            None => 0,
        }
    }

    /// Registers a waiter, which fires at the next emit.
    pub fn listen(&self) -> (listener: Listener)
        ensures
            listener.list() == self.waiters().list(),
    {
        self.wake.listen()
    }
}

impl<E> Default for Emitter<E> {
    fn default() -> (emitter: Self)
        ensures
            emitter.wf(),
            emitter@ == Map::<u64, KindView<E>>::empty(),
            emitter.counts() == Map::<u64, u64>::empty(),
    {
        Emitter::new()
    }
}

impl EventReceiver {
    /// The kind it receives.
    pub closed spec fn kind(&self) -> u64 {
        self.kind
    }

    /// Its number among the receivers of its kind.
    pub closed spec fn id(&self) -> u64 {
        self.id
    }

    /// The list of the waiters of the emitter it belongs to.
    pub closed spec fn home(&self) -> WakeList {
        self.home@
    }

    /// Whether it is open on an emitter.
    pub open spec fn open_on<E>(&self, emitter: Emitter<E>) -> bool {
        self.home() == emitter.waiters().list() && emitter@.contains_key(self.kind()) && emitter@[self.kind()].queues.contains_key(self.id())
    }

    /// Returns the next event without waiting, or `None` if none is queued.
    pub fn try_recv<E: Clone>(&mut self, emitter: &mut Emitter<E>) -> (event: Option<E>)
        requires
            old(emitter).wf(),
            old(self).open_on(*old(emitter)),
        ensures
            *final(self) == *old(self),
            final(emitter).wf(),
            final(emitter).waiters() == old(emitter).waiters(),
            final(emitter).counts() == old(emitter).counts(),
            match event {
                Some(event) => {
                    let kind = old(emitter)@[old(self).kind()];
                    let queue = kind.queues[old(self).id()];
                    &&& queue.len() > 0
                    &&& crate::channel::hands_out(queue[0], event)
                    &&& final(emitter)@ == old(emitter)@.insert(
                        old(self).kind(),
                        KindView {
                            queues: kind.queues.insert(old(self).id(), queue.skip(1)),
                            ..kind
                        },
                    )
                },
                None => {
                    &&& old(emitter)@[old(self).kind()].queues[old(self).id()].len() == 0
                    &&& final(emitter)@ == old(emitter)@
                },
            },
    {
        let ghost before = old(emitter)@;
        let mut event: Option<E> = None;
        if let Some(channel) = emitter.channels.remove(&self.kind) {
            let mut channel = channel;
            event = channel.try_recv(self.id);
            emitter.channels.insert(self.kind, channel);
        }
        proof {
            let kind = before[self.kind];
            let queue = kind.queues[self.id];
            if event is Some {
                assert(emitter@ =~= before.insert(
                    self.kind,
                    KindView { queues: kind.queues.insert(self.id, queue.skip(1)), ..kind },
                ));
            } else {
                assert(emitter@ =~= before);
            }
        }
        event
    }

    /// What waiting for the next event comes to: the event if one is
    /// queued, the end once the channel has closed, and a wait otherwise.
    pub fn next_step<E: Clone>(&mut self, emitter: &mut Emitter<E>, open: bool) -> (step: NextStep<
        E,
    >)
        requires
            old(emitter).wf(),
            old(self).open_on(*old(emitter)),
        ensures
            *final(self) == *old(self),
            final(emitter).wf(),
            final(emitter).waiters() == old(emitter).waiters(),
            final(emitter).counts() == old(emitter).counts(),
            ({
                let kind = old(emitter)@[old(self).kind()];
                let queue = kind.queues[old(self).id()];
                match step {
                    NextStep::Take { event } => {
                        &&& queue.len() > 0
                        &&& crate::channel::hands_out(queue[0], event)
                        &&& final(emitter)@ == old(emitter)@.insert(
                            old(self).kind(),
                            KindView {
                                queues: kind.queues.insert(old(self).id(), queue.skip(1)),
                                ..kind
                            },
                        )
                    },
                    NextStep::End => queue.len() == 0 && !open && final(emitter)@ == old(
                        emitter,
                    )@,
                    NextStep::Wait => queue.len() == 0 && open && final(emitter)@ == old(
                        emitter,
                    )@,
                }
            }),
    {
        match self.try_recv(emitter) {
            Some(event) => NextStep::Take { event },
            None => if open {
                NextStep::Wait
            } else {
                NextStep::End
            },
        }
    }

    /// Returns the channel's capacity in events.
    pub fn capacity<E>(&self, emitter: &Emitter<E>) -> (capacity: usize)
        requires
            self.open_on(*emitter),
        ensures
            capacity == emitter@[self.kind()].capacity,
    {
        match emitter.channels.get(&self.kind) {
            Some(channel) => channel.max_depth(),
            None => 0,
        }
    }

    /// Returns the number of events waiting in this receiver's queue.
    pub fn depth<E>(&self, emitter: &Emitter<E>) -> (depth: usize)
        requires
            emitter.wf(),
            self.open_on(*emitter),
        ensures
            depth == emitter@[self.kind()].queues[self.id()].len(),
    {
        match emitter.channels.get(&self.kind) {
            Some(channel) => channel.depth(self.id),
            None => 0,
        }
    }
}

/// Builds an emitter.
#[verifier::reject_recursive_types(E)]
pub struct EmitterBuilder<E> {
    channels: BTreeMap<u64, Channel<E>>,
    counters: BTreeMap<u64, u64>,
}

impl<E> View for EmitterBuilder<E> {
    type V = Map<u64, KindView<E>>;

    /// The kinds declared so far.
    closed spec fn view(&self) -> Map<u64, KindView<E>> {
        self.channels@.map_values(|channel: Channel<E>| kind_view(channel))
    }
}

/// A kind without subscribers.
pub open spec fn silent<E>(capacity: nat) -> KindView<E> {
    KindView { queues: Map::empty(), capacity, next_receiver: 0 }
}

impl<E> EmitterBuilder<E> {
    /// The counts of published events.
    pub closed spec fn counts(&self) -> Map<u64, u64> {
        self.counters@
    }

    /// Whether every channel is in order.
    pub closed spec fn wf(&self) -> bool {
        forall|kind: u64| #[trigger]
            self.channels@.contains_key(kind) ==> self.channels@[kind].wf()
    }

    /// Starts without kinds.
    pub fn new() -> (builder: Self)
        ensures
            builder.wf(),
            builder@ == Map::<u64, KindView<E>>::empty(),
            builder.counts() == Map::<u64, u64>::empty(),
    {
        let builder = EmitterBuilder { channels: BTreeMap::new(), counters: BTreeMap::new() };
        assert(builder@ =~= Map::empty());
        builder
    }

    /// Declares a kind, with a channel of the given capacity and no events
    /// published.
    pub fn add_event(&mut self, kind: u64, capacity: usize)
        requires
            old(self).wf(),
            capacity > 0,
        ensures
            final(self).wf(),
            final(self)@ == old(self)@.insert(kind, silent(capacity as nat)),
            final(self).counts() == old(self).counts().insert(kind, 0),
    {
        self.channels.insert(kind, Channel::new(capacity));
        self.counters.insert(kind, 0);
        assert(self@ =~= old(self)@.insert(kind, silent(capacity as nat)));
    }

    /// Builds the emitter.
    pub fn build(self) -> (emitter: Emitter<E>)
        requires
            self.wf(),
        ensures
            emitter.wf(),
            emitter@ == self@,
            emitter.counts() == self.counts(),
    {
        Emitter::with_senders(self.channels, self.counters)
    }
}

impl<E> Default for EmitterBuilder<E> {
    fn default() -> (builder: Self)
        ensures
            builder.wf(),
            builder@ == Map::<u64, KindView<E>>::empty(),
            builder.counts() == Map::<u64, u64>::empty(),
    {
        EmitterBuilder::new()
    }
}

/// A kind after events were emitted in turn.
pub open spec fn all_emitted<E>(kind: KindView<E>, events: Seq<E>) -> KindView<E>
    decreases events.len(),
{
    if events.len() == 0 {
        kind
    } else {
        emitted(all_emitted(kind, events.drop_last()), events.last())
    }
}

/// Whether no event was turned away by a full queue.
pub open spec fn all_fit<E>(kind: KindView<E>, events: Seq<E>) -> bool
    decreases events.len(),
{
    events.len() > 0 ==> all_fit(kind, events.drop_last()) && !jammed(
        all_emitted(kind, events.drop_last()),
    )
}

/// A subscriber's queue holds, behind what waited already, exactly the
/// events emitted since, in order; a new subscriber's queue starts empty.
pub proof fn subscribers_receive_all_events_in_order<E>(
    kind: KindView<E>,
    id: u64,
    events: Seq<E>,
)
    requires
        kind.queues.contains_key(id),
        all_fit(kind, events),
    ensures
        all_emitted(kind, events).queues.contains_key(id),
        all_emitted(kind, events).queues[id] == kind.queues[id] + events,
    decreases events.len(),
{
    if events.len() == 0 {
        assert(kind.queues[id] + events =~= kind.queues[id]);
    } else {
        let before = events.drop_last();
        subscribers_receive_all_events_in_order(kind, id, before);
        assert(kind.queues[id] + events =~= (kind.queues[id] + before).push(events.last()));
    }
}

/// Without subscribers any number of events leaves a kind as it was, so a
/// late subscriber finds no trace of them.
pub proof fn unheard_events_leave_no_trace<E>(kind: KindView<E>, events: Seq<E>)
    requires
        forall|id: u64| !kind.queues.contains_key(id),
    ensures
        all_emitted(kind, events) == kind,
        all_fit(kind, events),
    decreases events.len(),
{
    if events.len() > 0 {
        unheard_events_leave_no_trace(kind, events.drop_last());
    }
}

/// No subscriber's queue holds more events than its channel's capacity.
pub proof fn a_queue_stays_within_its_capacity<E>(emitter: Emitter<E>, kind: u64, id: u64)
    requires
        emitter.wf(),
        emitter@.contains_key(kind),
        emitter@[kind].queues.contains_key(id),
    ensures
        emitter@[kind].queues[id].len() <= emitter@[kind].capacity,
{
}

/// What can happen to a kind.
pub enum Act<E> {
    /// An event is emitted.
    Emit { event: E },
    /// A subscriber takes the event that has waited longest, if one waits.
    Take { id: u64 },
    /// A subscriber joins, under the number of the next one.
    Join { id: u64 },
    /// A subscriber leaves.
    Leave { id: u64 },
}

/// The event that has waited longest in a subscriber's queue, if one waits.
pub open spec fn first_waiting<E>(kind: KindView<E>, id: u64) -> Seq<E> {
    if kind.queues.contains_key(id) && kind.queues[id].len() > 0 {
        seq![kind.queues[id][0]]
    } else {
        seq![]
    }
}

/// A kind after something happened to it.
pub open spec fn acted<E>(kind: KindView<E>, act: Act<E>) -> KindView<E> {
    match act {
        Act::Emit { event } => emitted(kind, event),
        Act::Take { id } => if first_waiting(kind, id).len() > 0 {
            KindView { queues: kind.queues.insert(id, kind.queues[id].skip(1)), ..kind }
        } else {
            kind
        },
        Act::Join { id } => KindView {
            queues: kind.queues.insert(id, seq![]),
            next_receiver: (id + 1) as u64,
            ..kind
        },
        Act::Leave { id } => KindView { queues: kind.queues.remove(id), ..kind },
    }
}

/// A kind after things happened to it in turn.
pub open spec fn all_acted<E>(kind: KindView<E>, acts: Seq<Act<E>>) -> KindView<E>
    decreases acts.len(),
{
    if acts.len() == 0 {
        kind
    } else {
        acted(all_acted(kind, acts.drop_last()), acts.last())
    }
}

/// The events that reached the subscribers, in order.
pub open spec fn delivered<E>(kind: KindView<E>, acts: Seq<Act<E>>) -> Seq<E>
    decreases acts.len(),
{
    if acts.len() == 0 {
        seq![]
    } else {
        let before = delivered(kind, acts.drop_last());
        match acts.last() {
            Act::Emit { event } => if heard(all_acted(kind, acts.drop_last())) {
                before.push(event)
            } else {
                before
            },
            _ => before,
        }
    }
}

/// The events that a subscriber took, in order.
pub open spec fn taken<E>(kind: KindView<E>, acts: Seq<Act<E>>, id: u64) -> Seq<E>
    decreases acts.len(),
{
    if acts.len() == 0 {
        seq![]
    } else {
        let before = taken(kind, acts.drop_last(), id);
        if acts.last() == (Act::<E>::Take { id }) {
            before + first_waiting(all_acted(kind, acts.drop_last()), id)
        } else {
            before
        }
    }
}

/// Whatever other subscribers do, a subscriber that stays gets every event
/// that reaches the subscribers, once and in order, behind what waited
/// already: it has taken some and the others wait.
pub proof fn a_subscriber_gets_every_event_in_order<E>(
    kind: KindView<E>,
    acts: Seq<Act<E>>,
    id: u64,
)
    requires
        kind.queues.contains_key(id),
        !acts.contains(Act::Join { id }),
        !acts.contains(Act::Leave { id }),
    ensures
        all_acted(kind, acts).queues.contains_key(id),
        taken(kind, acts, id) + all_acted(kind, acts).queues[id] == kind.queues[id] + delivered(
            kind,
            acts,
        ),
    decreases acts.len(),
{
    if acts.len() == 0 {
        assert(taken(kind, acts, id) + kind.queues[id] =~= kind.queues[id] + delivered(kind, acts));
    } else {
        let prior = acts.drop_last();
        let last = acts.last();
        assert(acts.contains(last));
        assert forall|act: Act<E>| prior.contains(act) implies acts.contains(act) by {
            let n = choose|n: int| 0 <= n < prior.len() && prior[n] == act;
            assert(acts[n] == act);
        }
        a_subscriber_gets_every_event_in_order(kind, prior, id);
        let between = all_acted(kind, prior);
        assert(taken(kind, acts, id) + all_acted(kind, acts).queues[id] =~= kind.queues[id]
            + delivered(kind, acts)) by {
            let before = taken(kind, prior, id) + between.queues[id];
            match last {
                Act::Emit { event } => {
                    if heard(between) {
                        assert(before.push(event) =~= taken(kind, prior, id)
                            + between.queues[id].push(event));
                    }
                },
                Act::Take { id: other } => {
                    if other == id && between.queues[id].len() > 0 {
                        assert(taken(kind, prior, id) + seq![between.queues[id][0]]
                            + between.queues[id].skip(1) =~= before);
                    }
                },
                _ => {},
            }
        }
    }
}

/// Every event that reaches its subscribers is counted once, under its own
/// kind and no other.
pub proof fn a_published_event_is_counted_once(counts: Map<u64, u64>, kind: u64, other: u64)
    requires
        counts.contains_key(kind),
        counts[kind] < u64::MAX,
    ensures
        counted(counts, kind).dom() == counts.dom(),
        counted(counts, kind)[kind] == counts[kind] + 1,
        other != kind && counts.contains_key(other) ==> counted(counts, kind)[other]
            == counts[other],
{
    assert(counted(counts, kind).dom() =~= counts.dom());
}

/// A declared kind has no subscribers yet, and the capacity that it was
/// declared with.
pub proof fn a_declared_kind_is_silent<E>(capacity: nat, id: u64)
    ensures
        silent::<E>(capacity).capacity == capacity,
        !silent::<E>(capacity).queues.contains_key(id),
        silent::<E>(capacity).next_receiver == 0,
        !heard(silent::<E>(capacity)),
        !jammed(silent::<E>(capacity)),
{
}

/// An event of a kind with subscribers either reaches all of them, or finds
/// one of their queues full and reaches none.
pub proof fn an_event_reaches_all_subscribers_or_none<E>(kind: KindView<E>, event: E, id: u64)
    requires
        kind.queues.contains_key(id),
    ensures
        heard(kind) <==> !jammed(kind),
        jammed(kind) <==> exists|other: u64| #[trigger]
            kind.queues.contains_key(other) && kind.queues[other].len() >= kind.capacity,
        emitted(kind, event).queues[id] == (if jammed(kind) {
            kind.queues[id]
        } else {
            kind.queues[id].push(event)
        }),
        emitted(kind, event).capacity == kind.capacity,
        emitted(kind, event).next_receiver == kind.next_receiver,
{
    crate::channel::a_message_is_delivered_to_all_or_none(kind.queues, kind.capacity, event, id);
}

/// An event that was turned away is reported with the name of its type.
pub proof fn a_full_queue_is_reported_by_name(event: Seq<char>)
    ensures
        crate::text::filled(QUEUE_FULL@, seq![event]) == "event queue full: "@ + event,
{
    reveal_strlit("event queue full: $0");
    reveal_strlit("event queue full: ");
    let text = "event queue full: "@;
    let end = Seq::<char>::empty();
    assert(QUEUE_FULL@ =~= text + crate::text::hole(0) + end);
    crate::text::lemma_fills1(text, 0, end, seq![event]);
    assert(text + event + end =~= text + event);
}

} // verus!
