use rillet_core::gauge::Atomic;
use rillet_core::view::{CheapClone, ViewSlot};
use smol_str::SmolStr;
use std::sync::Arc;

#[test]
fn load_returns_initial() {
    let slot = ViewSlot::new(7u32);
    assert_eq!(*slot.load(), 7);
}

#[test]
fn publish_stores_changed_value() {
    let mut slot = ViewSlot::new(7u32);
    assert!(slot.publish(8));
    assert_eq!(*slot.load(), 8);
}

#[test]
fn publish_dedups_unchanged_value() {
    let mut slot = ViewSlot::new(7u32);
    let before = slot.load();
    assert!(!slot.publish(7));
    assert!(Arc::ptr_eq(&before, &slot.load()));
}

#[test]
fn watcher_sees_only_future_publishes() {
    let mut slot = ViewSlot::new(7u32);
    slot.publish(8);
    let mut watcher = slot.watch();
    assert!(watcher.try_changed(&slot).is_none());
    slot.publish(9);
    assert_eq!(watcher.try_changed(&slot).as_deref(), Some(&9));
}

#[test]
fn lagging_watcher_wakes_to_the_latest_view_only() {
    let mut slot = ViewSlot::new(0u32);
    let mut watcher = slot.watch();
    for value in 1..=100 {
        slot.publish(value);
    }
    assert_eq!(watcher.try_changed(&slot).as_deref(), Some(&100));
    assert!(watcher.try_changed(&slot).is_none());
}

#[test]
fn watchers_are_counted_until_given_up() {
    let mut slot = ViewSlot::new(0u32);
    assert_eq!(slot.watcher_count(), 0);
    let first = slot.watch();
    let second = slot.watch();
    assert_eq!(slot.watcher_count(), 2);
    slot.unwatch(first);
    assert_eq!(slot.watcher_count(), 1);
    slot.unwatch(second);
    assert_eq!(slot.watcher_count(), 0);
}

#[test]
fn the_current_view_is_read_without_marking_it_seen() {
    let mut slot = ViewSlot::new(1u32);
    let mut watcher = slot.watch();
    slot.publish(2);
    assert_eq!(*watcher.current(&slot), 2);
    assert_eq!(watcher.try_changed(&slot).as_deref(), Some(&2));
}

#[test]
fn the_feed_follows_the_slot() {
    let mut slot = ViewSlot::new(1u32);
    let feed = slot.feed();
    let listener = feed.listen().into_inner();
    assert_eq!(*feed.latest(), 1);
    slot.publish(2);
    futures_lite::future::block_on(listener);
    assert_eq!(*feed.latest(), 2);
    assert!(Arc::ptr_eq(&feed.latest(), &slot.load()));
    assert_eq!(*feed.share().latest(), 2);
}

#[derive(Clone, PartialEq)]
pub struct RosterView {
    pub names: im::Vector<SmolStr>,
    pub motd: Option<Arc<str>>,
}

impl CheapClone for RosterView {}

#[test]
fn blessed_types_compose_into_views() {
    let mut names = im::Vector::new();
    names.push_back(SmolStr::new("ada"));
    names.push_back(SmolStr::new("grace"));
    let mut slot = ViewSlot::new(RosterView { names, motd: None });

    let mut next = (*slot.load()).clone();
    next.names.push_back(SmolStr::new("edsger"));
    assert!(slot.publish(next));
    assert_eq!(slot.load().names.len(), 3);
}

fn cheap<T: CheapClone>(value: T) -> T {
    value.clone()
}

#[test]
fn shared_and_plain_types_clone_cheaply() {
    assert_eq!(cheap(7u8), 7);
    assert_eq!(cheap(Some('c')), Some('c'));
    assert_eq!(*cheap(Arc::new(String::from("text"))), "text");
    assert_eq!(cheap(SmolStr::new("text")), "text");
    assert_eq!(cheap(im::HashMap::<u32, u32>::new()).len(), 0);
    assert_eq!(cheap(im::HashSet::<u32>::new()).len(), 0);
    assert_eq!(cheap(im::OrdMap::<u32, u32>::new()).len(), 0);
    assert_eq!(cheap(im::OrdSet::<u32>::new()).len(), 0);
    assert_eq!(cheap(Atomic::new(3u32)).load(), 3);
}

#[derive(Clone, PartialEq)]
struct Peer {
    id: u32,
    level: Atomic<u32>,
}

#[derive(Clone, PartialEq)]
struct RoomView {
    peers: Arc<Vec<Peer>>,
}

impl CheapClone for RoomView {}

fn room(peers: &[Peer]) -> RoomView {
    RoomView { peers: Arc::new(peers.to_vec()) }
}

#[test]
fn a_stored_value_does_not_republish_the_view() {
    let peers = vec![Peer { id: 1, level: Atomic::default() }];
    let mut slot = ViewSlot::new(room(&peers));
    let view = slot.load();

    view.peers[0].level.store(4);

    // Cells are equal by identity, so the recomputed view is the same.
    assert!(!slot.publish(room(&peers)));
    assert!(Arc::ptr_eq(&view, &slot.load()));
    assert_eq!(slot.load().peers[0].level.load(), 4);
    assert_eq!(slot.load().peers[0].id, 1);
}

#[test]
fn a_membership_change_republishes_and_keeps_the_cells() {
    let mut peers = vec![Peer { id: 1, level: Atomic::default() }];
    let mut slot = ViewSlot::new(room(&peers));
    let before = slot.load();
    before.peers[0].level.store(4);

    peers.push(Peer { id: 2, level: Atomic::default() });
    assert!(slot.publish(room(&peers)));
    let after = slot.load();

    assert!(!Arc::ptr_eq(&before, &after));
    assert_eq!(after.peers[0].level.load(), 4);
    assert!(after.peers[0].level == before.peers[0].level);
}

#[derive(Clone, PartialEq, Debug)]
struct CounterView {
    value: u64,
    doubled: u64,
}

impl CheapClone for CounterView {}

fn counter(value: u64) -> CounterView {
    CounterView { value, doubled: value * 2 }
}

#[test]
fn view_is_seeded_before_any_mutation() {
    let slot = ViewSlot::new(counter(0));
    let view = slot.load();
    assert_eq!(view.value, 0);
    assert_eq!(view.doubled, 0);
}

#[test]
fn mutation_publishes_a_coherent_view() {
    let mut slot = ViewSlot::new(counter(0));
    let mut watch = slot.watch();

    slot.publish(counter(1));

    let view = watch.try_changed(&slot).unwrap();
    assert_eq!(view.value, 1);
    assert_eq!(view.doubled, 2);
    assert_eq!(slot.load().value, 1);
}

#[test]
fn unchanged_view_is_not_republished() {
    let mut slot = ViewSlot::new(counter(0));

    slot.publish(counter(5));
    let before = slot.load();

    slot.publish(counter(5));
    assert!(Arc::ptr_eq(&before, &slot.load()));

    // Later publishes still arrive.
    let mut watch = slot.watch();
    slot.publish(counter(6));
    assert_eq!(watch.try_changed(&slot).unwrap().value, 6);
}
