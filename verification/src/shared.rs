//! Handles to what threads share: wake lists and swappable pointers.
//!
//! A handle keeps a log of what was done through it, which only the calls
//! into the outside crates extend. Nothing else stands here that could.

use event_listener::{Event as WakeList, EventListener};
use std::sync::Arc;
use vstd::prelude::*;

verus! {

/// A wake list of `event_listener`.
#[verifier::external_type_specification]
#[verifier::external_body]
#[verifier::reject_recursive_types(T)]
pub struct ExWakeList<T>(WakeList<T>);

/// A registration in a wake list of `event_listener`.
#[verifier::external_type_specification]
#[verifier::external_body]
#[verifier::reject_recursive_types(T)]
pub struct ExEventListener<T>(EventListener<T>);

/// A swappable pointer of `arc_swap`, whose own type names a strategy that
/// the crate keeps private.
#[verifier::external_body]
#[verifier::reject_recursive_types(T)]
struct SwapCell<T> {
    cell: arc_swap::ArcSwap<T>,
}

/// A handle to a swappable pointer.
#[verifier::reject_recursive_types(T)]
pub struct Swap<T> {
    cell: Arc<SwapCell<T>>,
}

/// One thing that was done through a handle.
#[verifier::reject_recursive_types(T)]
pub enum Deed<T> {
    /// A value was stored into a cell.
    Stored { cell: Swap<T>, value: T },
    /// The waiters were woken.
    Woke,
}

/// A handle to a list of waiters that are all woken at once.
#[verifier::reject_recursive_types(T)]
pub struct Wake<T> {
    event: Arc<WakeList>,
    /// What was done through the handle, in order.
    done: Ghost<Seq<Deed<T>>>,
}

/// A registration in a wake list.
pub struct Listener {
    inner: EventListener,
    /// The list it is registered in.
    list: Ghost<WakeList>,
}

/// Whether a value is one that loads of a cell return.
pub closed spec fn offered<T>(cell: Swap<T>, value: T) -> bool {
    exists|current: Arc<T>| #[trigger] call_ensures(swap_load::<T>, (&cell,), current) && *current
        == value
}

impl<T> Swap<T> {
    /// Another handle to the same cell.
    pub fn share(&self) -> (other: Self)
        ensures
            other == *self,
    {
        Swap { cell: self.cell.clone() }
    }
}

/// `arc_swap::ArcSwapAny::new`: a cell that offers the given value.
#[verifier::external_body]
pub(crate) fn swap_new<T>(initial: Arc<T>) -> (swap: Swap<T>)
    ensures
        offered(swap, *initial),
{
    Swap { cell: Arc::new(SwapCell { cell: arc_swap::ArcSwap::new(initial) }) }
}

/// `arc_swap::ArcSwapAny::store`: the cell offers the given value, and the log
/// of the handle that wakes its readers notes the store.
///
/// From when on loads return it is left unsaid, since it depends on the stores
/// of other threads.
#[verifier::external_body]
pub(crate) fn swap_store<T>(swap: &mut Swap<T>, wake: &mut Wake<T>, next: Arc<T>)
    ensures
        *final(swap) == *old(swap),
        offered(*final(swap), *next),
        final(wake).list() == old(wake).list(),
        final(wake).done() == old(wake).done().push(
            Deed::Stored { cell: *old(swap), value: *next },
        ),
{
    swap.cell.cell.store(next);
}

/// `arc_swap::ArcSwapAny::load_full`.
///
/// Which value it returns is left unsaid, since it depends on the stores of
/// other threads.
#[verifier::external_body]
fn swap_load<T>(swap: &Swap<T>) -> (current: Arc<T>) {
    swap.cell.cell.load_full()
}

/// Loads what a cell holds, which is one of the values that it offers.
pub(crate) fn load<T>(swap: &Swap<T>) -> (current: Arc<T>)
    ensures
        offered(*swap, *current),
{
    swap_load(swap)
}

/// `event_listener::Event::new`: a list of its own, to which nothing was done.
#[verifier::external_body]
pub(crate) fn event_new<T>() -> (wake: Wake<T>)
    ensures
        wake.done() == Seq::<Deed<T>>::empty(),
{
    Wake { event: Arc::new(WakeList::new()), done: Ghost(Seq::empty()) }
}

/// `event_listener::Event::notify`, for every listener registered so far,
/// which the log notes.
///
/// Whom that wakes is left unsaid, since it depends on which listeners other
/// threads have registered.
#[verifier::external_body]
pub(crate) fn event_notify_all<T>(wake: &mut Wake<T>)
    ensures
        final(wake).list() == old(wake).list(),
        final(wake).done() == old(wake).done().push(Deed::Woke),
{
    wake.event.notify(usize::MAX);
}

/// `event_listener::Event::listen`: a listener registered in the given list.
///
/// When the listener fires is left unsaid, since it depends on other threads.
#[verifier::external_body]
pub(crate) fn event_listen<T>(wake: &Wake<T>) -> (listener: Listener)
    ensures
        listener.list() == wake.list(),
{
    Listener { inner: wake.event.listen(), list: Ghost(arbitrary()) }
}

impl<T> Wake<T> {
    /// The list.
    pub closed spec fn list(&self) -> WakeList {
        *self.event
    }

    /// What was done through the handle, in order.
    pub closed spec fn done(&self) -> Seq<Deed<T>> {
        self.done@
    }

    /// Another handle to the same list, through which nothing was done yet.
    pub fn share(&self) -> (other: Self)
        ensures
            other.list() == self.list(),
            other.done() == Seq::<Deed<T>>::empty(),
    {
        Wake { event: self.event.clone(), done: Ghost(Seq::empty()) }
    }
}

impl Listener {
    /// The list it is registered in.
    pub closed spec fn list(&self) -> WakeList {
        self.list@
    }

    /// The listener of `event_listener` that fires.
    pub closed spec fn inner(&self) -> EventListener {
        self.inner
    }

    /// Lends the listener of `event_listener`, to be polled.
    pub fn inner_mut(&mut self) -> (inner: &mut EventListener)
        ensures
            *inner == old(self).inner(),
            final(self).inner() == *final(inner),
            final(self).list() == old(self).list(),
    {
        &mut self.inner
    }

    /// Hands out the listener of `event_listener`, to be awaited.
    pub fn into_inner(self) -> (inner: EventListener)
        ensures
            inner == self.inner(),
    {
        self.inner
    }
}

} // verus!
