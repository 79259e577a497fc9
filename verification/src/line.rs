//! A sender of `async_broadcast`, and its receivers one by one.
//!
//! A receiver's queue is written down beside it, and only the calls into the
//! outside crate write it. Nothing else stands here that could.

use crate::channel::Sent;
use async_broadcast::{InactiveReceiver, Receiver, Sender, TrySendError};
use std::collections::BTreeMap;
use vstd::prelude::*;

verus! {

/// A sender of `async_broadcast`.
#[verifier::external_type_specification]
#[verifier::external_body]
#[verifier::reject_recursive_types(T)]
pub struct ExSender<T>(Sender<T>);

/// A receiver of `async_broadcast`.
#[verifier::external_type_specification]
#[verifier::external_body]
#[verifier::reject_recursive_types(T)]
pub struct ExReceiver<T>(Receiver<T>);

/// An inactive receiver of `async_broadcast`.
#[verifier::external_type_specification]
#[verifier::external_body]
#[verifier::reject_recursive_types(T)]
pub struct ExInactiveReceiver<T>(InactiveReceiver<T>);

/// A sender, with an inactive receiver that keeps its channel open.
///
/// The receiver must be inactive: an active one that is never drained fills
/// after as many messages as the channel holds and blocks every later one.
#[verifier::reject_recursive_types(T)]
pub struct Line<T> {
    sender: Sender<T>,
    keeper: InactiveReceiver<T>,
    /// How many messages the channel holds at most.
    bound: Ghost<nat>,
    /// The numbers of the open receivers.
    open: Ghost<Set<u64>>,
}

/// A receiver.
#[verifier::reject_recursive_types(T)]
pub struct Tap<T> {
    receiver: Receiver<T>,
    /// The sender whose messages it receives.
    source: Ghost<Sender<T>>,
    /// The number it was opened under.
    number: Ghost<u64>,
    /// The messages it has not taken yet.
    queue: Ghost<Seq<T>>,
}

impl<T> Line<T> {
    /// The sender.
    pub closed spec fn sender(&self) -> Sender<T> {
        self.sender
    }

    /// How many messages the channel holds at most.
    pub closed spec fn bound(&self) -> nat {
        self.bound@
    }

    /// The numbers of the open receivers.
    pub closed spec fn open(&self) -> Set<u64> {
        self.open@
    }

    /// Whether receivers are all the open ones of the line, each under its
    /// number, and none has more messages than the channel holds.
    pub open spec fn feeds(&self, taps: Map<u64, Tap<T>>) -> bool {
        &&& taps.dom() == self.open()
        &&& forall|id: u64| #[trigger]
            taps.contains_key(id) ==> {
                &&& taps[id].source() == self.sender()
                &&& taps[id].number() == id
                &&& taps[id].queue().len() <= self.bound()
            }
    }
}

impl<T> Tap<T> {
    /// The sender whose messages it receives.
    pub closed spec fn source(&self) -> Sender<T> {
        self.source@
    }

    /// The number it was opened under.
    pub closed spec fn number(&self) -> u64 {
        self.number@
    }

    /// The messages it has not taken yet.
    pub closed spec fn queue(&self) -> Seq<T> {
        self.queue@
    }
}

/// What each receiver has not taken yet.
pub open spec fn queues_of<T>(taps: Map<u64, Tap<T>>) -> Map<u64, Seq<T>> {
    taps.map_values(|tap: Tap<T>| tap.queue())
}

/// `async_broadcast::broadcast` and `Receiver::deactivate`: a channel that
/// holds as many messages as asked for, and whose one receiver is inactive.
///
/// Creating a channel without capacity panics.
#[verifier::external_body]
pub(crate) fn open_channel<T>(capacity: usize) -> (line: Line<T>)
    requires
        capacity > 0,
    ensures
        line.bound() == capacity,
        line.open() == Set::<u64>::empty(),
{
    let (sender, receiver) = async_broadcast::broadcast(capacity);
    Line {
        sender,
        keeper: receiver.deactivate(),
        bound: Ghost(arbitrary()),
        open: Ghost(arbitrary()),
    }
}

/// `async_broadcast::Sender::new_receiver`: a receiver for all future
/// messages of the sender, with nothing in its queue yet. It goes by a number
/// that no other open receiver has.
#[verifier::external_body]
pub(crate) fn open_receiver<T>(line: &mut Line<T>, number: u64) -> (tap: Tap<T>)
    requires
        !old(line).open().contains(number),
    ensures
        final(line).sender() == old(line).sender(),
        final(line).bound() == old(line).bound(),
        final(line).open() == old(line).open().insert(number),
        tap.source() == old(line).sender(),
        tap.number() == number,
        tap.queue() == Seq::<T>::empty(),
{
    Tap {
        receiver: line.sender.new_receiver(),
        source: Ghost(arbitrary()),
        number: Ghost(number),
        queue: Ghost(arbitrary()),
    }
}

/// Dropping an `async_broadcast::Receiver`: it is no longer open, and holds no
/// message back.
#[verifier::external_body]
pub(crate) fn close_receiver<T>(line: &mut Line<T>, tap: Tap<T>)
    requires
        tap.source() == old(line).sender(),
    ensures
        final(line).sender() == old(line).sender(),
        final(line).bound() == old(line).bound(),
        final(line).open() == old(line).open().remove(tap.number()),
{
    drop(tap.receiver);
}

/// `async_broadcast::Sender::try_broadcast`: puts a message into the queue of
/// every receiver, unless there are none or a queue is full.
///
/// The channel neither overflows nor closes, since its inactive receiver
/// lives as long as its sender, and what it queues for all receivers is as
/// long as the longest of their own queues.
#[verifier::external_body]
pub(crate) fn broadcast<T: Clone>(
    line: &mut Line<T>,
    taps: &mut BTreeMap<u64, Tap<T>>,
    message: T,
) -> (sent: Sent)
    requires
        old(line).feeds(old(taps)@),
        old(line).bound() > 0,
    ensures
        *final(line) == *old(line),
        final(line).feeds(final(taps)@),
        sent == crate::channel::outcome(queues_of(old(taps)@), old(line).bound()),
        queues_of(final(taps)@) == crate::channel::queues_after(
            queues_of(old(taps)@),
            old(line).bound(),
            message,
        ),
{
    match line.sender.try_broadcast(message) {
        Ok(_) => Sent::Delivered,
        Err(TrySendError::Inactive(_)) => Sent::NoAudience,
        Err(TrySendError::Closed(_)) => Sent::NoAudience,
        Err(TrySendError::Full(_)) => Sent::Full,
    }
}

/// `async_broadcast::Receiver::try_recv`: takes the message that has waited
/// longest in a receiver's queue, if there is one.
#[verifier::external_body]
pub(crate) fn receive<T: Clone>(tap: &mut Tap<T>) -> (message: Option<T>)
    ensures
        final(tap).source() == old(tap).source(),
        final(tap).number() == old(tap).number(),
        match message {
            Some(message) => {
                &&& old(tap).queue().len() > 0
                &&& crate::channel::hands_out(old(tap).queue()[0], message)
                &&& final(tap).queue() == old(tap).queue().skip(1)
            },
            None => {
                &&& old(tap).queue().len() == 0
                &&& final(tap).queue() == old(tap).queue()
            },
        },
{
    tap.receiver.try_recv().ok()
}

} // verus!
