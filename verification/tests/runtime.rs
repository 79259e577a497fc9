use rillet_core::runtime::{
    report_delivery, send_command, Delivery, LoopState, TaskCompletion, TaskSet, TaskTable, Waiter,
};
use rillet_core::spawner::{Spawner, TaskHandle};
use std::cell::Cell;
use std::future::Future;
use std::pin::Pin;
use std::sync::atomic::{AtomicU32, Ordering};
use std::sync::{Arc, Mutex};

#[test]
fn delivers_when_open() {
    let (tx, rx) = async_channel::bounded(1);
    assert_eq!(send_command(&tx, 7, "do_thing"), Ok(true));
    assert_eq!(rx.try_recv(), Ok(7));
}

#[test]
fn drops_when_closed() {
    let (tx, rx) = async_channel::bounded(1);
    drop(rx);
    assert_eq!(send_command(&tx, 7, "do_thing"), Ok(false));
}

#[test]
#[should_panic(expected = "command queue full: do_thing")]
fn panics_when_full() {
    let (tx, _rx) = async_channel::bounded(1);
    assert_eq!(send_command(&tx, 7, "do_thing"), Ok(true));
    if let Err(message) = send_command(&tx, 8, "do_thing") {
        panic!("{}", message);
    }
}

#[test]
fn deliveries_are_reported() {
    assert_eq!(report_delivery(Delivery::Delivered, "tick"), Ok(true));
    assert_eq!(report_delivery(Delivery::Closed, "tick"), Ok(false));
    assert_eq!(
        report_delivery(Delivery::Full, "tick"),
        Err(String::from("command queue full: tick"))
    );
}

/// A task that counts how often it was blocked on.
struct Counted(Arc<AtomicU32>);

impl TaskHandle for Counted {
    fn block_on(self: Box<Self>) {
        self.0.fetch_add(1, Ordering::SeqCst);
    }
}

fn set_of(count: &Arc<AtomicU32>, tasks: u32) -> TaskSet<Counted> {
    let mut set = TaskSet::new();
    for _ in 0..tasks {
        set.push(Box::new(Counted(count.clone())));
    }
    set
}

#[test]
fn completion_reports_completeness_after_wait() {
    let count = Arc::new(AtomicU32::new(0));
    let mut table = TaskTable::new();
    let completion = TaskCompletion::new(table.share(set_of(&count, 1)));
    assert!(!completion.is_complete(&table));

    completion.wait(&mut table);
    assert!(completion.is_complete(&table));
    assert_eq!(count.load(Ordering::SeqCst), 1);
}

#[test]
fn completions_over_one_set_complete_together() {
    let count = Arc::new(AtomicU32::new(0));
    let mut table = TaskTable::new();
    let set = table.share(set_of(&count, 2));
    let other = table.share(set_of(&count, 1));
    let first = TaskCompletion::new(set);
    let second = TaskCompletion::new(set);
    let apart = TaskCompletion::new(other);
    table.push(set, Box::new(Counted(count.clone())));
    drop(TaskCompletion::new(set));

    first.wait(&mut table);
    assert_eq!(count.load(Ordering::SeqCst), 3);
    assert!(first.is_complete(&table) && second.is_complete(&table));
    assert!(!apart.is_complete(&table));
    second.wait(&mut table);
    assert_eq!(count.load(Ordering::SeqCst), 3);
}

#[test]
fn join_waits_on_all_completions() {
    let count = Arc::new(AtomicU32::new(0));
    let mut table = TaskTable::new();
    let first = TaskCompletion::new(table.share(set_of(&count, 2)));
    let second = TaskCompletion::new(table.share(set_of(&count, 3)));
    let joined = TaskCompletion::join(vec![first, second]);
    assert!(!joined.is_complete(&table));
    joined.wait(&mut table);
    assert!(joined.is_complete(&table));
    assert_eq!(count.load(Ordering::SeqCst), 5);
}

/// A task that notes when it was blocked on.
struct Noted(&'static str, Arc<Mutex<Vec<&'static str>>>);

impl TaskHandle for Noted {
    fn block_on(self: Box<Self>) {
        self.1.lock().unwrap().push(self.0);
    }
}

#[test]
fn a_join_blocks_on_every_handle_once_in_order() {
    let notes = Arc::new(Mutex::new(Vec::new()));
    let mut table = TaskTable::new();
    let mut sets = Vec::new();
    for names in [vec!["a", "b"], vec!["c"]] {
        let mut set = TaskSet::new();
        for name in names {
            set.push(Box::new(Noted(name, notes.clone())));
        }
        sets.push(table.share(set));
    }
    let joined = TaskCompletion::join(vec![
        TaskCompletion::new(sets[1]),
        TaskCompletion::new(sets[0]),
        TaskCompletion::new(sets[1]),
    ]);
    joined.wait(&mut table);
    assert_eq!(*notes.lock().unwrap(), vec!["c", "a", "b"]);
}

#[test]
fn a_completion_over_no_sets_is_complete() {
    let mut table = TaskTable::<Counted>::new();
    let joined = TaskCompletion::join(Vec::new());
    assert!(joined.is_complete(&table));
    joined.wait(&mut table);
}

#[test]
fn one_waiter_takes_the_handles_and_the_others_follow() {
    let count = Arc::new(AtomicU32::new(0));
    let mut set = set_of(&count, 2);
    let first = set.begin_wait();
    assert!(matches!(first, Waiter::Blocks { ref handles } if handles.len() == 2));
    assert!(matches!(set.begin_wait(), Waiter::Follows));
    assert!(!set.is_done());
    set.finish();
    assert!(set.is_done());
    assert!(matches!(set.begin_wait(), Waiter::Returns));
    set.wait();
    assert_eq!(count.load(Ordering::SeqCst), 0);
}

#[test]
fn waiting_on_an_empty_set_returns() {
    let mut set = TaskSet::<Counted>::new();
    assert!(!set.is_done());
    set.wait();
    assert!(set.is_done());

    let mut table = TaskTable::<Counted>::new();
    let completion = TaskCompletion::new(table.share(TaskSet::default()));
    completion.wait(&mut table);
    assert!(completion.is_complete(&table));
}

/// Runs every task on the thread that waits for it.
#[derive(Clone)]
struct Lazily;

struct Lazy(Pin<Box<dyn Future<Output = ()> + Send>>);

impl Spawner for Lazily {
    type Handle = Lazy;

    fn spawn<F>(&self, future: F) -> Lazy
    where
        F: Future<Output = ()> + Send + 'static,
    {
        Lazy(Box::pin(future))
    }
}

impl TaskHandle for Lazy {
    fn block_on(self: Box<Self>) {
        futures_lite::future::block_on(self.0);
    }
}

#[test]
fn spawned_tasks_run_to_completion() {
    let count = Arc::new(AtomicU32::new(0));
    let mut set = TaskSet::default();
    for _ in 0..3 {
        let count = count.clone();
        set.push(Box::new(Lazily.spawn(async move {
            count.fetch_add(1, Ordering::SeqCst);
        })));
    }
    set.wait();
    assert_eq!(count.load(Ordering::SeqCst), 3);
}

#[test]
fn a_loop_starts_with_everything_open() {
    let state = LoopState::new(2, false);
    assert!(state.commands_open());
    assert!(state.source_open(0) && state.source_open(1));
    assert!(!state.source_open(2));
    assert!(!state.exits(|| unreachable!()));
}

#[test]
fn a_command_loop_ends_with_its_handles() {
    let mut state = LoopState::new(0, false);
    state.close_commands();
    assert!(!state.commands_open());
    // Nobody is asked about observers.
    assert!(state.exits(|| unreachable!()));
}

#[test]
fn an_observed_relay_goes_on_until_unobserved() {
    let mut state = LoopState::new(1, false);
    state.close_commands();
    let asked = Cell::new(0);
    let observed = |seen: bool| {
        asked.set(asked.get() + 1);
        seen
    };
    assert!(!state.exits(|| observed(true)));
    assert!(state.exits(|| observed(false)));
    assert_eq!(asked.get(), 2);
}

#[test]
fn a_loop_without_inputs_ends_even_when_observed() {
    let mut state = LoopState::new(2, false);
    state.close_commands();
    state.close_source(0);
    state.close_source(7);
    assert!(!state.source_open(0) && state.source_open(1));
    assert!(!state.exits(|| true));
    state.close_source(1);
    assert!(state.exits(|| true));
}

#[test]
fn watched_views_never_end() {
    let mut state = LoopState::new(0, true);
    state.close_commands();
    assert!(!state.exits(|| true));
    assert!(state.exits(|| false));
}

#[test]
#[should_panic(expected = "command queue full: tick")]
fn overfilling_a_sized_command_queue_panics() {
    let (tx, _rx) = async_channel::bounded(4);
    for _ in 0..5 {
        if let Err(message) = send_command(&tx, (), "tick") {
            panic!("{}", message);
        }
    }
}

#[test]
fn commands_after_cancel_are_dropped_silently() {
    let (tx, rx) = async_channel::bounded(4);
    rx.close();
    assert_eq!(send_command(&tx, 1, "record"), Ok(false));
    assert_eq!(rx.len(), 0);
}

#[test]
fn command_service_stops_when_its_handles_drop() {
    let mut counter = LoopState::new(0, false);
    assert!(!counter.exits(|| false));
    counter.close_commands();
    assert!(counter.exits(|| false));
}

#[test]
fn subscribed_relay_outlives_its_handles_then_stops_unsubscribed() {
    let mut relay = LoopState::new(1, false);
    relay.close_commands();
    assert!(!relay.exits(|| true));
    assert!(relay.exits(|| false));
}

#[test]
fn unobserved_event_handler_service_stops_when_its_handles_drop() {
    let mut audit = LoopState::new(1, false);
    assert!(!audit.exits(|| false));
    audit.close_commands();
    assert!(audit.exits(|| false));
}
