//! A sender of `async_broadcast` with all of its receivers.

use crate::channel::Sent;
use crate::line::{Line, Tap, broadcast, close_receiver, open_channel, open_receiver, receive};
use std::collections::BTreeMap;
use vstd::prelude::*;

verus! {

broadcast use vstd::laws_cmp::group_laws_cmp;

/// A sender with all of its receivers, by number.
#[verifier::reject_recursive_types(T)]
pub struct Wire<T> {
    line: Line<T>,
    receivers: BTreeMap<u64, Tap<T>>,
    capacity: usize,
}

impl<T> Wire<T> {
    /// What each open receiver has not taken yet.
    pub closed spec fn queues(&self) -> Map<u64, Seq<T>> {
        crate::line::queues_of(self.receivers@)
    }

    /// How many messages a receiver's queue holds at most.
    pub closed spec fn capacity(&self) -> nat {
        self.capacity as nat
    }

    /// Whether the receivers are those of the sender, and its channel holds
    /// as many messages as the capacity says.
    pub closed spec fn matched(&self) -> bool {
        self.line.feeds(self.receivers@) && self.line.bound() == self.capacity
    }

    /// Whether sender, receivers and queues belong together, and no queue is
    /// overfull.
    pub open spec fn wf(&self) -> bool {
        &&& self.matched()
        &&& 0 < self.capacity() <= usize::MAX
        &&& forall|id: u64| #[trigger]
            self.queues().contains_key(id) ==> self.queues()[id].len() <= self.capacity()
    }

    /// Opens a channel without receivers.
    pub fn open(capacity: usize) -> (wire: Self)
        requires
            capacity > 0,
        ensures
            wire.wf(),
            wire.capacity() == capacity,
            wire.queues() == Map::<u64, Seq<T>>::empty(),
    {
        let line = open_channel(capacity);
        let wire = Wire { line, receivers: BTreeMap::new(), capacity };
        assert(wire.queues() =~= Map::empty());
        assert(wire.receivers@.dom() =~= wire.line.open());
        wire
    }

    /// Opens a receiver for all future messages, under a number that no open
    /// receiver has.
    pub fn subscribe(&mut self, id: u64)
        requires
            old(self).wf(),
            !old(self).queues().contains_key(id),
        ensures
            final(self).wf(),
            final(self).capacity() == old(self).capacity(),
            final(self).queues() == old(self).queues().insert(id, seq![]),
    {
        assert(!self.receivers@.contains_key(id));
        let tap = open_receiver(&mut self.line, id);
        self.receivers.insert(id, tap);
        assert(self.queues() =~= old(self).queues().insert(id, seq![]));
        assert(self.receivers@.dom() =~= self.line.open());
    }

    /// Drops a receiver.
    pub fn unsubscribe(&mut self, id: u64)
        requires
            old(self).wf(),
        ensures
            final(self).wf(),
            final(self).capacity() == old(self).capacity(),
            final(self).queues() == old(self).queues().remove(id),
    {
        if let Some(tap) = self.receivers.remove(&id) {
            close_receiver(&mut self.line, tap);
        }
        assert(self.queues() =~= old(self).queues().remove(id));
        assert(self.receivers@.dom() =~= self.line.open());
        assert forall|j: u64| #[trigger]
            self.queues().contains_key(j) implies self.queues()[j].len() <= self.capacity() by {
            assert(old(self).queues().contains_key(j));
        }
    }

    /// Puts a message into the queue of every receiver, unless there are none
    /// or a queue is full.
    pub fn broadcast(&mut self, message: T) -> (sent: Sent) where T: Clone
        requires
            old(self).wf(),
        ensures
            final(self).wf(),
            final(self).capacity() == old(self).capacity(),
            sent == crate::channel::outcome(old(self).queues(), old(self).capacity()),
            final(self).queues() == crate::channel::queues_after(
                old(self).queues(),
                old(self).capacity(),
                message,
            ),
    {
        let sent = broadcast(&mut self.line, &mut self.receivers, message);
        assert forall|id: u64| #[trigger]
            self.queues().contains_key(id) implies self.queues()[id].len() <= self.capacity() by {
            assert(self.receivers@.contains_key(id));
        }
        sent
    }

    /// Takes the message that has waited longest in a receiver's queue, if
    /// there is one.
    pub fn receive(&mut self, id: u64) -> (message: Option<T>) where T: Clone
        requires
            old(self).wf(),
            old(self).queues().contains_key(id),
        ensures
            final(self).wf(),
            final(self).capacity() == old(self).capacity(),
            match message {
                Some(message) => {
                    let queue = old(self).queues()[id];
                    &&& queue.len() > 0
                    &&& crate::channel::hands_out(queue[0], message)
                    &&& final(self).queues() == old(self).queues().insert(id, queue.skip(1))
                },
                None => {
                    &&& old(self).queues()[id].len() == 0
                    &&& final(self).queues() == old(self).queues()
                },
            },
    {
        let mut message = None;
        if let Some(tap) = self.receivers.remove(&id) {
            let mut tap = tap;
            message = receive(&mut tap);
            self.receivers.insert(id, tap);
        }
        assert(self.receivers@.dom() =~= old(self).receivers@.dom());
        assert(self.queues() =~= old(self).queues().insert(
            id,
            match message {
                Some(_) => old(self).queues()[id].skip(1),
                None => old(self).queues()[id],
            },
        ));
        assert(old(self).queues().insert(id, old(self).queues()[id]) =~= old(self).queues());
        message
    }

    /// Returns how many messages a receiver's queue holds at most.
    pub fn max_depth(&self) -> (capacity: usize)
        ensures
            capacity == self.capacity(),
    {
        self.capacity
    }

    /// Returns the number of open receivers.
    pub fn receiver_count(&self) -> (count: usize)
        requires
            self.wf(),
        ensures
            count == self.queues().dom().len(),
    {
        assert(self.queues().dom() =~= self.receivers@.dom());
        self.receivers.len()
    }
}

} // verus!
