//! The broadcast channel behind one event type.

use crate::wire::Wire;
use std::collections::BTreeMap;
use vstd::prelude::*;

verus! {

broadcast use vstd::laws_cmp::group_laws_cmp;

/// What became of a message.
#[derive(Clone, Copy, Debug, PartialEq, Eq, Structural)]
pub enum Sent {
    /// Every receiver got it.
    Delivered,
    /// There are no receivers.
    NoAudience,
    /// A receiver's queue is full, and no receiver got it.
    Full,
}

/// What sending a message to receivers with the given queues comes to.
pub open spec fn outcome<T>(queues: Map<u64, Seq<T>>, capacity: nat) -> Sent {
    if forall|id: u64| !queues.contains_key(id) {
        Sent::NoAudience
    } else if exists|id: u64| #[trigger]
        queues.contains_key(id) && queues[id].len() >= capacity {
        Sent::Full
    } else {
        Sent::Delivered
    }
}

/// The queues after a message was sent.
pub open spec fn queues_after<T>(queues: Map<u64, Seq<T>>, capacity: nat, message: T) -> Map<
    u64,
    Seq<T>,
> {
    if outcome(queues, capacity) == Sent::Delivered {
        queues.map_values(|queue: Seq<T>| queue.push(message))
    } else {
        queues
    }
}

/// Whether a receiver hands out a message that waited first: the message
/// itself, or a clone of it.
pub open spec fn hands_out<T: Clone>(first: T, message: T) -> bool {
    message == first || cloned(first, message)
}

/// A bounded broadcast channel.
#[verifier::reject_recursive_types(T)]
pub struct Channel<T> {
    wire: Wire<T>,
    /// The number of the next receiver.
    next: u64,
    /// How many messages were delivered, with wrapping.
    total: u64,
    /// How many of them each open receiver is past, with wrapping.
    positions: BTreeMap<u64, u64>,
}

impl<T> Channel<T> {
    /// What each open receiver has not taken yet, by the receiver's number.
    pub closed spec fn queues(&self) -> Map<u64, Seq<T>> {
        self.wire.queues()
    }

    /// How many messages a receiver's queue holds at most.
    pub closed spec fn capacity(&self) -> nat {
        self.wire.capacity()
    }

    /// The number the next receiver gets.
    pub closed spec fn next_receiver(&self) -> u64 {
        self.next
    }

    /// Whether the receivers' positions tell how long their queues are.
    pub closed spec fn counted(&self) -> bool {
        &&& self.wire.wf()
        &&& self.positions@.dom() == self.wire.queues().dom()
        &&& forall|id: u64| #[trigger]
            self.wire.queues().contains_key(id) ==> self.total == self.positions@[id].wrapping_add(
                self.wire.queues()[id].len() as u64,
            )
    }

    /// Whether no queue is overfull and no receiver is numbered ahead.
    pub open spec fn wf(&self) -> bool {
        &&& self.counted()
        &&& 0 < self.capacity() <= usize::MAX
        &&& forall|id: u64| #[trigger]
            self.queues().contains_key(id) ==> id < self.next_receiver() && self.queues()[id].len()
                <= self.capacity()
    }

    /// Opens a channel without receivers.
    pub fn new(capacity: usize) -> (channel: Self)
        requires
            capacity > 0,
        ensures
            channel.wf(),
            channel.capacity() == capacity,
            channel.next_receiver() == 0,
            channel.queues() == Map::<u64, Seq<T>>::empty(),
    {
        let wire = Wire::open(capacity);
        let channel = Channel { wire, next: 0, total: 0, positions: BTreeMap::new() };
        assert(channel.positions@.dom() =~= channel.wire.queues().dom());
        channel
    }

    /// Whether there is a number left for one more receiver.
    pub fn has_room(&self) -> (room: bool)
        ensures
            room == (self.next_receiver() < u64::MAX),
    {
        self.next < u64::MAX
    }

    /// Opens a receiver for all future messages.
    pub fn subscribe(&mut self) -> (id: u64)
        requires
            old(self).wf(),
            old(self).next_receiver() < u64::MAX,
        ensures
            final(self).wf(),
            final(self).capacity() == old(self).capacity(),
            id == old(self).next_receiver(),
            final(self).next_receiver() == old(self).next_receiver() + 1,
            final(self).queues() == old(self).queues().insert(id, seq![]),
    {
        let id: u64 = self.next;
        assert(!self.queues().contains_key(id));
        self.next = id + 1;
        self.wire.subscribe(id);
        self.positions.insert(id, self.total);
        assert(self.positions@.dom() =~= self.wire.queues().dom());
        assert forall|j: u64| #[trigger] self.queues().contains_key(j) implies j == id || old(
            self,
        ).queues().contains_key(j) by {}
        id
    }

    /// Closes a receiver, whose number is not given again.
    pub fn unsubscribe(&mut self, id: u64)
        requires
            old(self).wf(),
        ensures
            final(self).wf(),
            final(self).capacity() == old(self).capacity(),
            final(self).next_receiver() == old(self).next_receiver(),
            final(self).queues() == old(self).queues().remove(id),
    {
        self.wire.unsubscribe(id);
        self.positions.remove(&id);
        assert(self.positions@.dom() =~= self.wire.queues().dom());
        assert forall|j: u64| #[trigger] self.queues().contains_key(j) implies old(
            self,
        ).queues().contains_key(j) by {}
    }

    /// Sends a message to every receiver.
    pub fn send(&mut self, message: T) -> (sent: Sent) where T: Clone
        requires
            old(self).wf(),
        ensures
            final(self).wf(),
            final(self).capacity() == old(self).capacity(),
            final(self).next_receiver() == old(self).next_receiver(),
            sent == outcome(old(self).queues(), old(self).capacity()),
            final(self).queues() == queues_after(
                old(self).queues(),
                old(self).capacity(),
                message,
            ),
    {
        let sent = self.wire.broadcast(message);
        if sent == Sent::Delivered {
            self.total = self.total.wrapping_add(1);
        }
        assert(self.positions@.dom() =~= self.wire.queues().dom());
        sent
    }

    /// Takes the message that has waited longest in a receiver's queue.
    pub fn try_recv(&mut self, id: u64) -> (message: Option<T>) where T: Clone
        requires
            old(self).wf(),
            old(self).queues().contains_key(id),
        ensures
            final(self).wf(),
            final(self).capacity() == old(self).capacity(),
            final(self).next_receiver() == old(self).next_receiver(),
            match message {
                Some(message) => {
                    let queue = old(self).queues()[id];
                    &&& queue.len() > 0
                    &&& hands_out(queue[0], message)
                    &&& final(self).queues() == old(self).queues().insert(id, queue.skip(1))
                },
                None => {
                    &&& old(self).queues()[id].len() == 0
                    &&& final(self).queues() == old(self).queues()
                },
            },
    {
        let message = self.wire.receive(id);
        if message.is_some() {
            if let Some(position) = self.positions.remove(&id) {
                self.positions.insert(id, position.wrapping_add(1));
            }
        }
        assert(self.positions@.dom() =~= self.wire.queues().dom());
        message
    }

    /// Returns the number of messages waiting in a receiver's queue.
    pub fn depth(&self, id: u64) -> (depth: usize)
        requires
            self.wf(),
            self.queues().contains_key(id),
        ensures
            depth == self.queues()[id].len(),
    {
        match self.positions.get(&id) {
            Some(position) => self.total.wrapping_sub(*position) as usize,
            None => 0,
        }
    }

    /// Returns how many messages a receiver's queue holds at most.
    pub fn max_depth(&self) -> (capacity: usize)
        ensures
            capacity == self.capacity(),
    {
        self.wire.max_depth()
    }

    /// Returns the number of open receivers.
    pub fn receiver_count(&self) -> (count: usize)
        requires
            self.wf(),
        ensures
            count == self.queues().dom().len(),
    {
        self.wire.receiver_count()
    }
}

/// A message is delivered exactly where there are receivers and every queue
/// has room; it finds no audience exactly where there are none, and a full
/// queue exactly where one holds as many messages as the channel does.
pub proof fn a_message_is_delivered_to_all_or_none<T>(
    queues: Map<u64, Seq<T>>,
    capacity: nat,
    message: T,
    id: u64,
)
    requires
        queues.contains_key(id),
    ensures
        outcome(queues, capacity) != Sent::NoAudience,
        outcome(queues, capacity) == Sent::Full <==> exists|other: u64| #[trigger]
            queues.contains_key(other) && queues[other].len() >= capacity,
        outcome(queues, capacity) == Sent::Delivered <==> forall|other: u64| #[trigger]
            queues.contains_key(other) ==> queues[other].len() < capacity,
        queues_after(queues, capacity, message).dom() == queues.dom(),
        queues_after(queues, capacity, message)[id] == (if forall|other: u64| #[trigger]
            queues.contains_key(other) ==> queues[other].len() < capacity {
            queues[id].push(message)
        } else {
            queues[id]
        }),
{
    assert(queues_after(queues, capacity, message).dom() =~= queues.dom());
    if exists|other: u64| #[trigger]
        queues.contains_key(other) && queues[other].len() >= capacity {
        let other = choose|other: u64| #[trigger]
            queues.contains_key(other) && queues[other].len() >= capacity;
        assert(queues.contains_key(other));
    }
}

/// A message to a channel without receivers finds no audience and leaves no
/// trace.
pub proof fn a_message_without_receivers_is_gone<T>(capacity: nat, message: T)
    ensures
        outcome(Map::<u64, Seq<T>>::empty(), capacity) == Sent::NoAudience,
        queues_after(Map::<u64, Seq<T>>::empty(), capacity, message) == Map::<
            u64,
            Seq<T>,
        >::empty(),
{
}

} // verus!
