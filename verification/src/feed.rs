//! The lock-free side of a published value.
//!
//! A writer owns the value it publishes and pushes every new one into a
//! [`Feed`]. Readers on other threads hold a clone of the feed: they load
//! the latest value without a lock and register to be woken at the next
//! one. What such a reader sees depends on when it looks, so the contracts
//! of the owning types speak of the owner's value, and a feed promises a
//! reader one of the pushed values, not which.

use crate::shared::{
    Deed, Listener, Swap, Wake, event_listen, event_new, event_notify_all, load, swap_new,
    swap_store,
};
use std::sync::Arc;
use vstd::prelude::*;

verus! {

impl<T> Wake<T> {
    /// Whether nothing was done through a handle since before.
    pub open spec fn idle(&self, before: Self) -> bool {
        self.list() == before.list() && self.done() == before.done()
    }

    /// Whether a handle woke the waiters once since before, and did nothing
    /// else.
    pub open spec fn woken(&self, before: Self) -> bool {
        self.list() == before.list() && self.done() == before.done().push(Deed::Woke)
    }

    /// Creates an empty list.
    pub fn new() -> (wake: Self)
        ensures
            wake.done() == Seq::<Deed<T>>::empty(),
    {
        event_new()
    }

    /// Wakes every waiter registered so far.
    pub fn notify_all(&mut self)
        ensures
            final(self).woken(*old(self)),
    {
        event_notify_all(self);
    }

    /// Registers a waiter, which fires at the next wake.
    pub fn listen(&self) -> (listener: Listener)
        ensures
            listener.list() == self.list(),
    {
        event_listen(self)
    }
}

/// The latest published value, for readers on other threads.
#[verifier::reject_recursive_types(T)]
pub struct Feed<T> {
    swap: Swap<T>,
    wake: Wake<T>,
}

impl<T> Feed<T> {
    /// The waiters that a push wakes.
    pub closed spec fn waiters(&self) -> Wake<T> {
        self.wake
    }

    /// The cell it loads from.
    pub closed spec fn cell(&self) -> Swap<T> {
        self.swap
    }

    /// Whether a value is one that readers of the feed find.
    pub open spec fn offers(&self, value: T) -> bool {
        crate::shared::offered(self.cell(), value)
    }

    /// Whether two handles are handles to one feed.
    pub open spec fn same(&self, other: Self) -> bool {
        self.cell() == other.cell() && self.waiters().list() == other.waiters().list()
    }

    /// Whether nothing was pushed through a handle since before.
    pub open spec fn idle(&self, before: Self) -> bool {
        self.same(before) && self.waiters().done() == before.waiters().done()
    }

    /// Whether a value was pushed through a handle since before: it was
    /// stored, the waiters were woken after that, and nothing else was done.
    pub open spec fn pushed(&self, before: Self, value: T) -> bool {
        self.same(before) && self.waiters().done() == before.waiters().done().push(
            Deed::Stored { cell: self.cell(), value },
        ).push(Deed::Woke)
    }

    /// Creates a feed holding an initial value.
    pub fn new(initial: Arc<T>) -> (feed: Self)
        ensures
            feed.offers(*initial),
            feed.waiters().done() == Seq::<Deed<T>>::empty(),
    {
        Feed { swap: swap_new(initial), wake: Wake::new() }
    }

    /// Replaces the value and then wakes every waiter, so that a woken
    /// waiter finds this value or a later one.
    pub fn push(&mut self, next: Arc<T>)
        ensures
            final(self).pushed(*old(self), *next),
            final(self).offers(*next),
    {
        swap_store(&mut self.swap, &mut self.wake, next);
        self.wake.notify_all();
    }

    /// Returns the latest value, which is one that the feed offers.
    pub fn latest(&self) -> (current: Arc<T>)
        ensures
            self.offers(*current),
    {
        load(&self.swap)
    }

    /// Registers a waiter, which fires at the next push.
    pub fn listen(&self) -> (listener: Listener)
        ensures
            listener.list() == self.waiters().list(),
    {
        self.wake.listen()
    }

    /// Another handle to the same feed, through which nothing was pushed yet.
    pub fn share(&self) -> (other: Self)
        ensures
            other.same(*self),
            other.waiters().done() == Seq::<Deed<T>>::empty(),
    {
        Feed { swap: self.swap.share(), wake: self.wake.share() }
    }
}

/// A push stores its value and then wakes the waiters, once each and in this
/// order; a wake alone stores nothing, and an idle handle does neither.
pub proof fn a_push_stores_before_it_wakes<T>(before: Feed<T>, after: Feed<T>, value: T)
    requires
        after.pushed(before, value),
    ensures
        after.cell() == before.cell(),
        after.waiters().list() == before.waiters().list(),
        after.waiters().done().len() == before.waiters().done().len() + 2,
        after.waiters().done()[before.waiters().done().len() as int] == (Deed::Stored {
            cell: before.cell(),
            value,
        }),
        after.waiters().done().last() == Deed::<T>::Woke,
        !after.idle(before),
{
    assert(after.waiters().done().len() != before.waiters().done().len());
}

/// A wake is one deed on the list that it was before, and an idle handle has
/// done nothing.
pub proof fn a_wake_is_done_once<T>(before: Wake<T>, woken: Wake<T>, idle: Wake<T>)
    requires
        woken.woken(before),
        idle.idle(before),
    ensures
        woken.list() == before.list(),
        woken.done().len() == before.done().len() + 1,
        woken.done().last() == Deed::<T>::Woke,
        woken.done().drop_last() == before.done(),
        idle.list() == before.list(),
        idle.done() == before.done(),
{
    assert(woken.done().drop_last() =~= before.done());
}

} // verus!
