//! View publication for services.
//!
//! A view is an immutable snapshot of a service's state, published after
//! every mutation. A [`ViewSlot`] holds the latest one and publishes another
//! only when it differs. Readers on other threads load views through the
//! slot's feed without taking any lock.

use crate::feed::Feed;
use std::sync::Arc;
use vstd::prelude::*;

verus! {

/// Marker for types that clone by copying pointers, bumping reference
/// counts, or sharing structure rather than duplicating their contents.
pub trait CheapClone: Clone {

}

impl CheapClone for bool {

}

impl CheapClone for char {

}

impl CheapClone for u8 {

}

impl CheapClone for u16 {

}

impl CheapClone for u32 {

}

impl CheapClone for u64 {

}

impl CheapClone for u128 {

}

impl CheapClone for usize {

}

impl CheapClone for i8 {

}

impl CheapClone for i16 {

}

impl CheapClone for i32 {

}

impl CheapClone for i64 {

}

impl CheapClone for i128 {

}

impl CheapClone for isize {

}

impl CheapClone for std::time::Duration {

}

impl CheapClone for std::time::Instant {

}

impl CheapClone for crate::time::Instant {

}

impl<T: ?Sized> CheapClone for Arc<T> {

}

impl<T: ?Sized> CheapClone for &T {

}

impl<T: CheapClone> CheapClone for Option<T> {

}

/// A string of `smol_str`, which clones by sharing.
#[verifier::external_type_specification]
#[verifier::external_body]
pub struct ExSmolStr(smol_str::SmolStr);

impl CheapClone for smol_str::SmolStr {

}

/// A vector of `im`, which clones by sharing.
#[verifier::external_type_specification]
#[verifier::external_body]
#[verifier::reject_recursive_types(A)]
pub struct ExVector<A>(im::Vector<A>);

/// A hash map of `im`, which clones by sharing.
#[verifier::external_type_specification]
#[verifier::external_body]
#[verifier::reject_recursive_types(K)]
#[verifier::reject_recursive_types(V)]
#[verifier::reject_recursive_types(S)]
pub struct ExHashMap<K, V, S>(im::HashMap<K, V, S>);

/// A hash set of `im`, which clones by sharing.
#[verifier::external_type_specification]
#[verifier::external_body]
#[verifier::reject_recursive_types(A)]
#[verifier::reject_recursive_types(S)]
pub struct ExHashSet<A, S>(im::HashSet<A, S>);

/// An ordered map of `im`, which clones by sharing.
#[verifier::external_type_specification]
#[verifier::external_body]
#[verifier::reject_recursive_types(K)]
#[verifier::reject_recursive_types(V)]
pub struct ExOrdMap<K, V>(im::OrdMap<K, V>);

/// An ordered set of `im`, which clones by sharing.
#[verifier::external_type_specification]
#[verifier::external_body]
#[verifier::reject_recursive_types(A)]
pub struct ExOrdSet<A>(im::OrdSet<A>);

impl<A: Clone> CheapClone for im::Vector<A> {

}

impl<K: Clone + std::hash::Hash + Eq, V: Clone, S: std::hash::BuildHasher> CheapClone
    for im::HashMap<K, V, S> {

}

impl<A: Clone + std::hash::Hash + Eq, S: std::hash::BuildHasher> CheapClone for im::HashSet<A, S> {

}

impl<K: Clone + Ord, V: Clone> CheapClone for im::OrdMap<K, V> {

}

impl<A: Clone + Ord> CheapClone for im::OrdSet<A> {

}

/// A slot holding a service's latest published view.
#[verifier::reject_recursive_types(V)]
pub struct ViewSlot<V> {
    current: Arc<V>,
    version: u64,
    watchers: usize,
    feed: Feed<V>,
}

/// A slot, as mathematics: the latest view, how often one was stored, and
/// the number of watchers, both counted with wrapping.
#[verifier::ext_equal]
pub struct SlotView<V> {
    pub current: V,
    pub version: u64,
    pub watchers: usize,
}

impl<V> View for ViewSlot<V> {
    type V = SlotView<V>;

    closed spec fn view(&self) -> SlotView<V> {
        SlotView { current: *self.current, version: self.version, watchers: self.watchers }
    }
}

/// A subscription to a service's view publications.
///
/// A watcher records the version it last returned, not the views
/// themselves; each look reads the newest view, and any it missed are
/// skipped rather than queued.
pub struct ViewWatcher {
    seen: u64,
}

/// The number after another, with wrapping.
pub open spec fn next_version(version: u64) -> u64 {
    if version == u64::MAX {
        0
    } else {
        (version + 1) as u64
    }
}

/// What a watcher finds that last saw a version: the current view, if it is
/// newer.
pub open spec fn found<V>(slot: SlotView<V>, seen: u64) -> Option<V> {
    if slot.version != seen {
        Some(slot.current)
    } else {
        None
    }
}

/// The slot after another view was stored.
pub open spec fn stored<V>(slot: SlotView<V>, next: V) -> SlotView<V> {
    SlotView { current: next, version: next_version(slot.version), watchers: slot.watchers }
}

impl<V: CheapClone + PartialEq> ViewSlot<V> {
    /// The feed that every stored view is pushed into.
    pub closed spec fn source(&self) -> Feed<V> {
        self.feed
    }

    /// Creates a slot holding an initial view.
    pub fn new(initial: V) -> (slot: Self)
        ensures
            slot@ == (SlotView { current: initial, version: 0, watchers: 0 }),
            slot.source().offers(initial),
    {
        let current = Arc::new(initial);
        let feed = Feed::new(current.clone());
        ViewSlot { current, version: 0, watchers: 0, feed }
    }

    /// Returns the latest published view.
    pub fn load(&self) -> (view: Arc<V>)
        ensures
            *view == self@.current,
    {
        self.current.clone()
    }

    /// Stores a view if it differs from the current one, waking the
    /// watchers; returns whether it stored. Otherwise the slot stays as it
    /// is, with the view that it held.
    pub fn publish(&mut self, next: V) -> (changed: bool)
        ensures
            call_ensures(V::eq, (&old(self)@.current, &next), !changed),
            changed ==> {
                &&& final(self)@ == stored(old(self)@, next)
                &&& final(self).source().pushed(old(self).source(), next)
                &&& final(self).source().offers(next)
            },
            !changed ==> *final(self) == *old(self),
    {
        if *self.current == next {
            return false;
        }
        let view = Arc::new(next);
        self.current = view.clone();
        self.version = self.version.wrapping_add(1);
        self.feed.push(view);
        true
    }

    /// Returns a watcher that has already seen the current view.
    pub fn watch(&mut self) -> (watcher: ViewWatcher)
        ensures
            watcher.seen() == old(self)@.version,
            final(self)@.current == old(self)@.current,
            final(self)@.version == old(self)@.version,
            final(self)@.watchers == old(self)@.watchers.wrapping_add(1),
            final(self).source() == old(self).source(),
    {
        self.watchers = self.watchers.wrapping_add(1);
        ViewWatcher { seen: self.version }
    }

    /// Gives a watcher up.
    pub fn unwatch(&mut self, watcher: ViewWatcher)
        ensures
            final(self)@.current == old(self)@.current,
            final(self)@.version == old(self)@.version,
            final(self)@.watchers == old(self)@.watchers.wrapping_sub(1),
            final(self).source() == old(self).source(),
    {
        self.watchers = self.watchers.wrapping_sub(1);
    }

    /// Returns the current number of watchers.
    pub fn watcher_count(&self) -> (count: usize)
        ensures
            count == self@.watchers,
    {
        self.watchers
    }

    /// The feed through which other threads load the view without the slot.
    pub fn feed(&self) -> (feed: Feed<V>)
        ensures
            feed.same(self.source()),
    {
        self.feed.share()
    }
}

impl ViewWatcher {
    /// The version of the last view the watcher returned, or of the one
    /// that was current when it was made.
    pub closed spec fn seen(&self) -> u64 {
        self.seen
    }

    /// Returns the current view if it is newer than the last one seen.
    pub fn try_changed<V: CheapClone + PartialEq>(&mut self, slot: &ViewSlot<V>) -> (view: Option<
        Arc<V>,
    >)
        ensures
            final(self).seen() == slot@.version,
            found(slot@, old(self).seen()) == match view {
                Some(view) => Some(*view),
                None => None,
            },
    {
        if slot.version != self.seen {
            self.seen = slot.version;
            Some(slot.load())
        } else {
            None
        }
    }

    /// Returns the latest published view without marking it seen.
    pub fn current<V: CheapClone + PartialEq>(&self, slot: &ViewSlot<V>) -> (view: Arc<V>)
        ensures
            *view == slot@.current,
    {
        slot.load()
    }
}

/// The slot after views were stored in turn.
pub open spec fn all_stored<V>(slot: SlotView<V>, views: Seq<V>) -> SlotView<V>
    decreases views.len(),
{
    if views.len() == 0 {
        slot
    } else {
        stored(all_stored(slot, views.drop_last()), views.last())
    }
}

/// A watcher finds nothing new in the slot it was just made for or just
/// looked at, and finds the next view that is stored.
pub proof fn a_watcher_sees_only_future_views<V>(slot: SlotView<V>, next: V)
    ensures
        found(slot, slot.version) is None,
        found(stored(slot, next), slot.version) == Some(next),
{
}

/// However many views were stored since a watcher looked, short of as many
/// as there are versions, it finds a change, and the view it finds is the
/// last one stored.
pub proof fn a_lagging_watcher_sees_the_latest_view<V>(slot: SlotView<V>, views: Seq<V>)
    requires
        0 < views.len() <= u64::MAX,
    ensures
        found(all_stored(slot, views), slot.version) == Some(views.last()),
{
    lemma_version(slot, views);
}

/// Storing views counts them, modulo the number of versions.
proof fn lemma_version<V>(slot: SlotView<V>, views: Seq<V>)
    ensures
        all_stored(slot, views).version as int == (slot.version + views.len()) % (u64::MAX + 1),
    decreases views.len(),
{
    if views.len() > 0 {
        lemma_version(slot, views.drop_last());
        let n = slot.version + views.len() - 1;
        let m = u64::MAX + 1;
        assert((n + 1) % m == if n % m == m - 1 {
            0
        } else {
            n % m + 1
        }) by (nonlinear_arith)
            requires
                n >= 0,
                m > 0,
        ;
    }
}

} // verus!
