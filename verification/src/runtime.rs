//! Runtime support for services.

use crate::spawner::TaskHandle;
use crate::text::fill1;
use async_channel::{Sender, TrySendError};
use vstd::prelude::*;

verus! {

/// A sender of `async_channel`.
#[verifier::external_type_specification]
#[verifier::external_body]
#[verifier::reject_recursive_types(T)]
pub struct ExCommandSender<T>(Sender<T>);

/// What became of a command.
#[derive(Clone, Copy, Debug, PartialEq, Eq, Structural)]
pub enum Delivery {
    /// It is queued.
    Delivered,
    /// The service has shut down, and the command is dropped.
    Closed,
    /// The queue is full.
    Full,
}

/// `async_channel::Sender::try_send`.
///
/// What becomes of the command depends on what other threads have sent and
/// received, so nothing is claimed of it: it is queued, or the queue is closed
/// or full.
#[verifier::external_body]
fn try_send<C>(tx: &Sender<C>, command: C) -> (delivery: Delivery) {
    match tx.try_send(command) {
        Ok(()) => Delivery::Delivered,
        Err(TrySendError::Closed(_)) => Delivery::Closed,
        Err(TrySendError::Full(_)) => Delivery::Full,
    }
}

/// Whether a command was handed to a sender, and what became of it.
pub closed spec fn attempted<C>(tx: &Sender<C>, command: C, delivery: Delivery) -> bool {
    call_ensures(try_send::<C>, (tx, command), delivery)
}

pub const QUEUE_FULL: &'static str = "command queue full: $0";

/// What a full queue is reported as.
pub open spec fn queue_full(method: Seq<char>) -> Seq<char> {
    crate::text::filled(QUEUE_FULL@, seq![method])
}

/// Whether a result is what a delivery comes to: whether the command was
/// delivered, or the report of a full queue.
pub open spec fn reports(result: Result<bool, String>, delivery: Delivery, method: Seq<char>) -> bool {
    match (delivery, result) {
        (Delivery::Delivered, Ok(delivered)) => delivered,
        (Delivery::Closed, Ok(delivered)) => !delivered,
        (Delivery::Full, Err(message)) => message@ == queue_full(method),
        _ => false,
    }
}

/// Reports what became of a command.
pub fn report_delivery(delivery: Delivery, method: &str) -> (result: Result<bool, String>)
    ensures
        reports(result, delivery, method@),
{
    match delivery {
        Delivery::Delivered => Ok(true),
        Delivery::Closed => Ok(false),
        Delivery::Full => Err(fill1(QUEUE_FULL, method)),
    }
}

/// Sends a command from a handle's method, returning whether it was
/// delivered, or the report of a full queue.
///
/// A send after the service has shut down is a no-op returning false.
pub fn send_command<C>(tx: &Sender<C>, command: C, method: &str) -> (result: Result<bool, String>)
    ensures
        exists|delivery: Delivery| #[trigger]
            attempted(tx, command, delivery) && reports(result, delivery, method@),
{
    let delivery = try_send(tx, command);
    let result = report_delivery(delivery, method);
    assert(attempted(tx, command, delivery));
    result
}

/// A service's spawned task handles and their completion state.
#[verifier::reject_recursive_types(H)]
pub struct TaskSet<H: TaskHandle> {
    handles: Vec<Box<H>>,
    taken: bool,
    done: bool,
}

/// A service's spawned task handles and their completion state, as
/// mathematics.
#[verifier::ext_equal]
#[verifier::reject_recursive_types(H)]
pub struct TaskSetView<H: TaskHandle> {
    /// The handles that no waiter has taken yet.
    pub handles: Seq<Box<H>>,
    /// Whether a waiter has taken handles.
    pub taken: bool,
    /// Whether a waiter has seen every task complete.
    pub done: bool,
}

impl<H: TaskHandle> View for TaskSet<H> {
    type V = TaskSetView<H>;

    closed spec fn view(&self) -> TaskSetView<H> {
        TaskSetView { handles: self.handles@, taken: self.taken, done: self.done }
    }
}

/// What a waiter on a task set does.
#[verifier::reject_recursive_types(H)]
pub enum Waiter<H: TaskHandle> {
    /// It blocks on each of the handles in turn, and then finishes the set.
    Blocks { handles: Vec<Box<H>> },
    /// Another waiter has the handles: it waits until the set is done.
    Follows,
    /// No task is left to wait for: it returns.
    Returns,
}

/// A set without tasks.
pub open spec fn no_tasks<H: TaskHandle>() -> TaskSetView<H> {
    TaskSetView { handles: Seq::empty(), taken: false, done: false }
}

/// Whether a waiter on a set blocks on the handles itself.
pub open spec fn blocks<H: TaskHandle>(set: TaskSetView<H>) -> bool {
    set.handles.len() > 0
}

/// Whether a waiter on a set waits for the one that has the handles.
pub open spec fn follows<H: TaskHandle>(set: TaskSetView<H>) -> bool {
    !blocks(set) && set.taken && !set.done
}

/// A set with one more task.
pub open spec fn pushed<H: TaskHandle>(set: TaskSetView<H>, handle: Box<H>) -> TaskSetView<H> {
    TaskSetView { handles: set.handles.push(handle), taken: set.taken, done: set.done }
}

/// A set on which one more waiter has begun to wait: the handles are taken,
/// and where there is no task to wait for the set is done.
pub open spec fn begun<H: TaskHandle>(set: TaskSetView<H>) -> TaskSetView<H> {
    TaskSetView {
        handles: Seq::empty(),
        taken: set.taken || blocks(set),
        done: set.done || !blocks(set) && !set.taken,
    }
}

/// A set that a waiter has finished.
pub open spec fn finished<H: TaskHandle>(set: TaskSetView<H>) -> TaskSetView<H> {
    TaskSetView { done: true, ..set }
}

/// A set that was waited to completion.
pub open spec fn waited<H: TaskHandle>(set: TaskSetView<H>) -> TaskSetView<H> {
    finished(begun(set))
}

impl<H: TaskHandle> TaskSet<H> {
    /// Creates an empty task set.
    pub fn new() -> (set: Self)
        ensures
            set@ == no_tasks::<H>(),
    {
        TaskSet { handles: Vec::new(), taken: false, done: false }
    }

    /// Adds a task handle to the set.
    pub fn push(&mut self, handle: Box<H>)
        ensures
            final(self)@ == pushed(old(self)@, handle),
    {
        self.handles.push(handle);
    }

    /// Returns true once a waiter has seen every task complete.
    pub fn is_done(&self) -> (done: bool)
        ensures
            done == self@.done,
    {
        self.done
    }

    /// Takes the handles, if no waiter has taken them yet.
    ///
    /// The waiter that takes the handles receives any task panic; other
    /// waiters wake once the set is done. Where there never was a task, the
    /// set is done at once.
    pub fn begin_wait(&mut self) -> (waiter: Waiter<H>)
        ensures
            final(self)@ == begun(old(self)@),
            match waiter {
                Waiter::Blocks { handles } => {
                    &&& blocks(old(self)@)
                    &&& handles@ == old(self)@.handles
                },
                Waiter::Follows => follows(old(self)@),
                Waiter::Returns => {
                    &&& !blocks(old(self)@)
                    &&& !follows(old(self)@)
                },
            },
    {
        let mut handles: Vec<Box<H>> = Vec::new();
        std::mem::swap(&mut handles, &mut self.handles);
        if handles.len() > 0 {
            self.taken = true;
            Waiter::Blocks { handles }
        } else if self.taken && !self.done {
            Waiter::Follows
        } else {
            self.done = true;
            Waiter::Returns
        }
    }

    /// Marks the set done, whether the tasks completed or one panicked.
    pub fn finish(&mut self)
        ensures
            final(self)@ == finished(old(self)@),
    {
        self.done = true;
    }

    /// Blocks until every task in the set completes, and tells which handles
    /// it has blocked on.
    ///
    /// While another waiter has the handles, only that waiter can finish the
    /// set, and this one would block without end.
    pub fn wait(&mut self) -> (blocked: Ghost<Seq<Box<H>>>)
        requires
            !follows(old(self)@),
        ensures
            final(self)@ == waited(old(self)@),
            blocked@ == old(self)@.handles,
            all_blocked(blocked@),
    {
        match self.begin_wait() {
            Waiter::Blocks { handles } => {
                let blocked = block_on_all(handles);
                self.finish();
                blocked
            },
            _ => {
                assert(old(self)@.handles =~= Seq::empty());
                Ghost(Seq::empty())
            },
        }
    }
}

impl<H: TaskHandle> Default for TaskSet<H> {
    fn default() -> (set: Self)
        ensures
            set@ == no_tasks::<H>(),
    {
        TaskSet::new()
    }
}

/// Whether each of some handles was blocked on.
pub open spec fn all_blocked<H: TaskHandle>(handles: Seq<Box<H>>) -> bool {
    forall|i: int| 0 <= i < handles.len() ==> call_ensures(H::block_on, (#[trigger] handles[i],), ())
}

/// Blocks on handles in turn, and tells which these were.
pub fn block_on_all<H: TaskHandle>(handles: Vec<Box<H>>) -> (blocked: Ghost<
    Seq<Box<H>>,
>)
    ensures
        blocked@ == handles@,
        all_blocked(handles@),
{
    let ghost mut blocked: Seq<Box<H>> = Seq::empty();
    for handle in iter: handles
        invariant
            iter.seq() == handles@,
            blocked == handles@.take(iter.index()),
            all_blocked(blocked),
    {
        let ghost current = handle;
        handle.block_on();
        proof {
            assert(handles@.take(iter.index() + 1) =~= blocked.push(current));
            blocked = blocked.push(current);
        }
    }
    assert(handles@.take(handles@.len() as int) =~= handles@);
    Ghost(blocked)
}

/// The task sets of a program, each shared by any number of completions.
#[verifier::reject_recursive_types(H)]
pub struct TaskTable<H: TaskHandle> {
    sets: Vec<TaskSet<H>>,
}

impl<H: TaskHandle> View for TaskTable<H> {
    type V = Seq<TaskSetView<H>>;

    closed spec fn view(&self) -> Seq<TaskSetView<H>> {
        self.sets@.map_values(|set: TaskSet<H>| set@)
    }
}

impl<H: TaskHandle> TaskTable<H> {
    /// Creates a table without sets.
    pub fn new() -> (table: Self)
        ensures
            table@ == Seq::<TaskSetView<H>>::empty(),
    {
        let table = TaskTable { sets: Vec::new() };
        assert(table@ =~= Seq::empty());
        table
    }

    /// Adds a set, and returns the number it is shared by.
    pub fn share(&mut self, set: TaskSet<H>) -> (id: usize)
        ensures
            id == old(self)@.len(),
            final(self)@ == old(self)@.push(set@),
    {
        let id: usize = self.sets.len();
        self.sets.push(set);
        assert(self@ =~= old(self)@.push(set@));
        id
    }

    /// Adds a task handle to a set.
    pub fn push(&mut self, id: usize, handle: Box<H>)
        requires
            id < old(self)@.len(),
        ensures
            final(self)@ == old(self)@.update(id as int, pushed(old(self)@[id as int], handle)),
    {
        self.sets[id].push(handle);
        assert(self@ =~= old(self)@.update(id as int, pushed(old(self)@[id as int], handle)));
    }
}

/// Sets of which some were waited to completion.
pub open spec fn waited_all<H: TaskHandle>(sets: Seq<TaskSetView<H>>, ids: Seq<usize>) -> Seq<TaskSetView<H>> {
    Seq::new(
        sets.len(),
        |i: int|
            if exists|j: int| 0 <= j < ids.len() && ids[j] == i {
                waited(sets[i])
            } else {
                sets[i]
            },
    )
}

/// The handles that waiting on sets blocks on, in order.
pub open spec fn blocked_on<H: TaskHandle>(sets: Seq<TaskSetView<H>>, ids: Seq<usize>) -> Seq<Box<H>>
    decreases ids.len(),
{
    if ids.len() == 0 {
        Seq::empty()
    } else {
        let earlier = ids.drop_last();
        blocked_on(sets, earlier) + waited_all(sets, earlier)[ids.last() as int].handles
    }
}

/// Whether each of some sets was waited to completion.
pub open spec fn complete<H: TaskHandle>(sets: Seq<TaskSetView<H>>, ids: Seq<usize>) -> bool {
    forall|i: int| 0 <= i < ids.len() ==> sets[(#[trigger] ids[i]) as int].done
}

/// Numbers in the order in which they first occur.
pub open spec fn firsts(ids: Seq<usize>) -> Seq<usize>
    decreases ids.len(),
{
    if ids.len() == 0 {
        ids
    } else if ids.drop_last().contains(ids.last()) {
        firsts(ids.drop_last())
    } else {
        firsts(ids.drop_last()).push(ids.last())
    }
}

/// Handle for waiting on task completion after shutdown.
///
/// It shares its sets with other completions: a set may occur in any number
/// of them, and the handles stay in the table when a completion drops.
pub struct TaskCompletion {
    sets: Vec<usize>,
}

impl View for TaskCompletion {
    type V = Seq<usize>;

    closed spec fn view(&self) -> Seq<usize> {
        self.sets@
    }
}

impl TaskCompletion {
    /// Whether its sets are in a table.
    pub open spec fn within<H: TaskHandle>(&self, sets: Seq<TaskSetView<H>>) -> bool {
        forall|i: int| 0 <= i < self@.len() ==> (#[trigger] self@[i]) < sets.len()
    }

    /// Creates a new TaskCompletion over a shared task set.
    pub fn new(set: usize) -> (completion: Self)
        ensures
            completion@ == seq![set],
    {
        let sets = vec![set];
        assert(sets@ =~= seq![set]);
        TaskCompletion { sets }
    }

    /// Blocks until all tasks complete, and tells which handles it has
    /// blocked on.
    ///
    /// A task panic propagates to the waiter that consumed the task's
    /// handle; concurrent waiters on the same set return without it.
    pub fn wait<H: TaskHandle>(&self, table: &mut TaskTable<H>) -> (blocked: Ghost<Seq<Box<H>>>)
        requires
            self.within(old(table)@),
            forall|i: int|
                0 <= i < self@.len() ==> !follows(old(table)@[(#[trigger] self@[i]) as int]),
        ensures
            final(table)@ == waited_all(old(table)@, self@),
            blocked@ == blocked_on(old(table)@, self@),
            all_blocked(blocked@),
    {
        let ghost mut blocked: Seq<Box<H>> = Seq::empty();
        let ghost before = table@;
        let ghost ids = self@;
        assert(before =~= waited_all(before, ids.take(0)));
        for i in 0..self.sets.len()
            invariant
                ids == self@,
                ids == self.sets@,
                self.within(before),
                forall|j: int| 0 <= j < ids.len() ==> !follows(before[(#[trigger] ids[j]) as int]),
                table@ == waited_all(before, ids.take(i as int)),
                blocked == blocked_on(before, ids.take(i as int)),
                all_blocked(blocked),
        {
            let id: usize = self.sets[i];
            let ghost earlier = ids.take(i as int);
            let ghost later = ids.take(i + 1);
            let ghost between = table@;
            assert(self@[i as int] == id && id < before.len());
            assert(between =~= table.sets@.map_values(|set: TaskSet<H>| set@));
            assert(between.len() == before.len());
            assert(between[id as int] == table.sets@[id as int]@);
            let more = table.sets[id].wait();
            proof {
                assert(later.drop_last() =~= earlier);
                assert(later.last() == id);
                blocked = blocked + more@;
                assert(table@ =~= between.update(id as int, waited(between[id as int])));
                assert forall|k: int| 0 <= k < before.len() implies #[trigger] table@[k]
                    == waited_all(before, later)[k] by {
                    if exists|j: int| 0 <= j < earlier.len() && earlier[j] == k {
                        let j = choose|j: int| 0 <= j < earlier.len() && earlier[j] == k;
                        assert(later[j] == k);
                    }
                    if k == id {
                        assert(later[i as int] == k);
                    } else if exists|j: int| 0 <= j < later.len() && later[j] == k {
                        let j = choose|j: int| 0 <= j < later.len() && later[j] == k;
                        assert(earlier[j] == k);
                    }
                }
                assert(table@ =~= waited_all(before, later));
            }
        }
        assert(ids.take(ids.len() as int) =~= ids);
        Ghost(blocked)
    }

    /// Returns true once every set has been waited to completion.
    pub fn is_complete<H: TaskHandle>(&self, table: &TaskTable<H>) -> (done: bool)
        requires
            self.within(table@),
        ensures
            done == complete(table@, self@),
    {
        for i in 0..self.sets.len()
            invariant
                self.within(table@),
                forall|j: int| 0 <= j < i ==> table@[(#[trigger] self@[j]) as int].done,
        {
            let id: usize = self.sets[i];
            assert(self@[i as int] == id);
            assert(table@[id as int] == table.sets@[id as int]@);
            if !table.sets[id].is_done() {
                return false;
            }
        }
        true
    }

    /// Combines multiple completions into one that waits on all their tasks.
    pub fn join(completions: Vec<TaskCompletion>) -> (joined: Self)
        ensures
            joined@ == completions@.map_values(|c: TaskCompletion| c@).flatten(),
    {
        let ghost all = completions@.map_values(|c: TaskCompletion| c@);
        let mut sets: Vec<usize> = Vec::new();
        assert(all.take(0).flatten() =~= Seq::empty());
        for completion in iter: completions
            invariant
                iter.seq() == completions@,
                all == completions@.map_values(|c: TaskCompletion| c@),
                sets@ == all.take(iter.index()).flatten(),
        {
            let mut more = completion.sets;
            proof {
                let i = iter.index();
                assert(all[i] == more@);
                assert(all.take(i + 1).drop_last() =~= all.take(i));
                all.take(i + 1).lemma_flatten_and_flatten_alt_are_equivalent();
                all.take(i).lemma_flatten_and_flatten_alt_are_equivalent();
            }
            sets.append(&mut more);
        }
        assert(all.take(all.len() as int) =~= all);
        TaskCompletion { sets }
    }
}

/// Of two waiters on a set to which nothing is added between them, at most
/// one blocks on the handles; the other follows it until it is done.
pub proof fn one_waiter_takes_the_handles<H: TaskHandle>(set: TaskSetView<H>)
    requires
        blocks(set),
    ensures
        !blocks(begun(set)),
        follows(begun(set)) == !set.done,
        !follows(finished(begun(set))),
{
}

/// A waiter on a set without tasks returns, and leaves the set done.
pub proof fn an_empty_set_is_done_at_once<H: TaskHandle>()
    ensures
        !blocks(no_tasks::<H>()),
        !follows(no_tasks::<H>()),
        begun(no_tasks::<H>()).done,
        waited(no_tasks::<H>()) == begun(no_tasks::<H>()),
{
}

/// A set that holds or held a task is not done before a waiter finishes it,
/// whatever is added to it and whoever begins to wait on it.
pub proof fn a_set_is_done_only_once_waited<H: TaskHandle>(set: TaskSetView<H>, handle: Box<H>)
    requires
        !set.done,
        blocks(set) || set.taken,
    ensures
        !begun(set).done,
        blocks(begun(set)) || begun(set).taken,
        !pushed(set, handle).done,
        blocks(pushed(set, handle)),
        finished(set).done,
{
}

/// A set that is done stays done.
pub proof fn a_done_set_stays_done<H: TaskHandle>(set: TaskSetView<H>, handle: Box<H>)
    requires
        set.done,
    ensures
        begun(set).done,
        pushed(set, handle).done,
        finished(set).done,
{
}

/// Completions share their sets: a wait through one completes every other
/// whose sets it waited on, changes no other set, and undoes no completion.
pub proof fn a_wait_completes_every_completion_on_its_sets<H: TaskHandle>(
    sets: Seq<TaskSetView<H>>,
    waited_on: Seq<usize>,
    other: Seq<usize>,
)
    requires
        forall|i: int| 0 <= i < waited_on.len() ==> (#[trigger] waited_on[i]) < sets.len(),
        forall|i: int| 0 <= i < other.len() ==> (#[trigger] other[i]) < sets.len(),
    ensures
        complete(waited_all(sets, waited_on), waited_on),
        (forall|i: int| 0 <= i < other.len() ==> waited_on.contains(#[trigger] other[i]))
            ==> complete(waited_all(sets, waited_on), other),
        complete(sets, other) ==> complete(waited_all(sets, waited_on), other),
        (forall|i: int| 0 <= i < other.len() ==> !waited_on.contains(#[trigger] other[i])) ==> (
        complete(waited_all(sets, waited_on), other) == complete(sets, other)),
{
    let after = waited_all(sets, waited_on);
    if forall|i: int| 0 <= i < other.len() ==> waited_on.contains(#[trigger] other[i]) {
        assert forall|i: int| 0 <= i < other.len() implies after[(
        #[trigger] other[i]) as int].done by {
            let j = choose|j: int| 0 <= j < waited_on.len() && waited_on[j] == other[i];
            assert(waited_on[j] == other[i] as int);
        }
    }
    if forall|i: int| 0 <= i < other.len() ==> !waited_on.contains(#[trigger] other[i]) {
        assert forall|i: int| 0 <= i < other.len() implies after[(#[trigger] other[i]) as int]
            == sets[other[i] as int] by {
            if exists|j: int| 0 <= j < waited_on.len() && waited_on[j] == other[i] as int {
                let j = choose|j: int| 0 <= j < waited_on.len() && waited_on[j] == other[i] as int;
                assert(waited_on[j] == other[i]);
                assert(waited_on.contains(other[i]));
            }
        }
        if complete(after, other) {
            assert forall|i: int| 0 <= i < other.len() implies sets[(
            #[trigger] other[i]) as int].done by {
                assert(after[other[i] as int].done);
            }
        }
    }
}

/// A join is complete exactly when every completion in it is; a join of none
/// is complete at once.
pub proof fn a_join_is_complete_when_all_are<H: TaskHandle>(sets: Seq<TaskSetView<H>>, all: Seq<Seq<usize>>)
    ensures
        complete(sets, all.flatten()) == (forall|i: int|
            0 <= i < all.len() ==> complete(sets, #[trigger] all[i])),
    decreases all.len(),
{
    if all.len() > 0 {
        let first = all.first();
        let rest = all.drop_first();
        a_join_is_complete_when_all_are(sets, rest);
        let joined = all.flatten();
        assert(joined == first + rest.flatten());
        if complete(sets, joined) {
            assert forall|i: int| 0 <= i < first.len() implies sets[(
            #[trigger] first[i]) as int].done by {
                assert(joined[i] == first[i]);
            }
            assert forall|i: int| 0 <= i < rest.flatten().len() implies sets[(
            #[trigger] rest.flatten()[i]) as int].done by {
                assert(joined[first.len() + i] == rest.flatten()[i]);
            }
            assert forall|i: int| 0 <= i < all.len() implies complete(sets, #[trigger] all[i]) by {
                if i > 0 {
                    assert(rest[i - 1] == all[i]);
                }
            }
        }
        if forall|i: int| 0 <= i < all.len() ==> complete(sets, #[trigger] all[i]) {
            assert(complete(sets, all[0]));
            assert forall|i: int| 0 <= i < rest.len() implies complete(sets, #[trigger] rest[i]) by {
                assert(rest[i] == all[i + 1]);
            }
            assert forall|i: int| 0 <= i < joined.len() implies sets[(
            #[trigger] joined[i]) as int].done by {
                if i < first.len() {
                    assert(joined[i] == first[i]);
                } else {
                    assert(joined[i] == rest.flatten()[i - first.len()]);
                }
            }
        }
    }
}

/// A wait blocks on every handle of every set exactly once, set after set in
/// the order in which the sets first occur: a set that occurs again adds
/// nothing.
pub proof fn a_wait_blocks_on_every_handle_once<H: TaskHandle>(sets: Seq<TaskSetView<H>>, ids: Seq<usize>)
    requires
        forall|i: int| 0 <= i < ids.len() ==> (#[trigger] ids[i]) < sets.len(),
    ensures
        blocked_on(sets, ids) == firsts(ids).map_values(
            |id: usize| sets[id as int].handles,
        ).flatten(),
        firsts(ids).no_duplicates(),
        firsts(ids).to_set() == ids.to_set(),
    decreases ids.len(),
{
    let handles = |id: usize| sets[id as int].handles;
    if ids.len() > 0 {
        let earlier = ids.drop_last();
        let last = ids.last();
        a_wait_blocks_on_every_handle_once(sets, earlier);
        let after = waited_all(sets, earlier)[last as int];
        assert(last == ids[ids.len() - 1]);
        assert forall|id: usize| #[trigger] ids.contains(id) == (earlier.contains(id) || id
            == last) by {
            if ids.contains(id) {
                let j = choose|j: int| 0 <= j < ids.len() && ids[j] == id;
                if j < earlier.len() {
                    assert(earlier[j] == id);
                }
            }
            if earlier.contains(id) {
                let j = choose|j: int| 0 <= j < earlier.len() && earlier[j] == id;
                assert(ids[j] == id);
            }
        }
        if earlier.contains(last) {
            let j = choose|j: int| 0 <= j < earlier.len() && earlier[j] == last;
            assert(earlier[j] == last as int);
            assert(after == waited(sets[last as int]));
            assert(ids.to_set() =~= earlier.to_set());
            assert(blocked_on(sets, ids) =~= blocked_on(sets, earlier));
        } else {
            assert(after == sets[last as int]) by {
                if exists|j: int| 0 <= j < earlier.len() && earlier[j] == last as int {
                    let j = choose|j: int| 0 <= j < earlier.len() && earlier[j] == last as int;
                    assert(earlier[j] == last);
                }
            }
            let old_firsts = firsts(earlier);
            let new_firsts = firsts(ids);
            assert(!old_firsts.contains(last)) by {
                assert(!earlier.to_set().contains(last));
                assert(old_firsts.to_set().contains(last) == old_firsts.contains(last));
            }
            assert(new_firsts.drop_last() =~= old_firsts);
            assert(new_firsts.map_values(handles).drop_last() =~= old_firsts.map_values(handles));
            new_firsts.map_values(handles).lemma_flatten_and_flatten_alt_are_equivalent();
            old_firsts.map_values(handles).lemma_flatten_and_flatten_alt_are_equivalent();
            assert forall|id: usize| #[trigger] new_firsts.contains(id) == (old_firsts.contains(id)
                || id == last) by {
                if old_firsts.contains(id) {
                    let j = choose|j: int| 0 <= j < old_firsts.len() && old_firsts[j] == id;
                    assert(new_firsts[j] == id);
                }
                assert(new_firsts[new_firsts.len() - 1] == last);
            }
            assert forall|id: usize| old_firsts.contains(id) == earlier.contains(id) by {
                assert(old_firsts.to_set().contains(id) == earlier.to_set().contains(id));
            }
            assert(new_firsts.to_set() =~= ids.to_set());
        }
    } else {
        assert(firsts(ids).map_values(handles) =~= Seq::empty());
        assert(firsts(ids).to_set() =~= ids.to_set());
    }
}

/// Which inputs of a service loop are still open.
///
/// The loop ends on its own once no handle can send commands any more and
/// either no input is left or nobody observes the service.
pub struct LoopState {
    commands: bool,
    sources: Vec<bool>,
    watches: bool,
}

/// Which inputs of a service loop are still open, as mathematics.
#[verifier::ext_equal]
pub struct LoopView {
    /// Whether a handle can still send commands.
    pub commands: bool,
    /// For each event source whether it can still emit.
    pub sources: Seq<bool>,
    /// Whether the service watches views, which never end.
    pub watches: bool,
}

impl View for LoopState {
    type V = LoopView;

    closed spec fn view(&self) -> LoopView {
        LoopView { commands: self.commands, sources: self.sources@, watches: self.watches }
    }
}

/// Whether any input besides commands is still open.
pub open spec fn inputs_open(state: LoopView) -> bool {
    state.watches || state.sources.contains(true)
}

/// Whether the loop ends, given whether anyone observes the service.
pub open spec fn stops(state: LoopView, observed: bool) -> bool {
    !state.commands && !(inputs_open(state) && observed)
}

impl LoopState {
    /// Starts with everything open: the given number of event sources, and
    /// views if the service watches any.
    pub fn new(sources: usize, watches: bool) -> (state: Self)
        ensures
            state@.commands,
            state@.sources == Seq::new(sources as nat, |i: int| true),
            state@.watches == watches,
    {
        let mut open: Vec<bool> = Vec::new();
        for i in 0..sources
            invariant
                open@ == Seq::new(i as nat, |i: int| true),
        {
            open.push(true);
            assert(open@ =~= Seq::new((i + 1) as nat, |i: int| true));
        }
        LoopState { commands: true, sources: open, watches }
    }

    /// Whether a handle can still send commands.
    pub fn commands_open(&self) -> (open: bool)
        ensures
            open == self@.commands,
    {
        self.commands
    }

    /// Whether an event source can still emit.
    pub fn source_open(&self, i: usize) -> (open: bool)
        ensures
            open == (i < self@.sources.len() && self@.sources[i as int]),
    {
        i < self.sources.len() && self.sources[i]
    }

    /// Notes that no handle is left.
    pub fn close_commands(&mut self)
        ensures
            final(self)@ == (LoopView { commands: false, ..old(self)@ }),
    {
        self.commands = false;
    }

    /// Notes that an event source has ended.
    pub fn close_source(&mut self, i: usize)
        ensures
            final(self)@ == if i < old(self)@.sources.len() {
                LoopView { sources: old(self)@.sources.update(i as int, false), ..old(self)@ }
            } else {
                old(self)@
            },
    {
        if i < self.sources.len() {
            self.sources.set(i, false);
        }
    }

    /// Whether any input besides commands is still open.
    fn any_input(&self) -> (open: bool)
        ensures
            open == inputs_open(self@),
    {
        if self.watches {
            return true;
        }
        for i in 0..self.sources.len()
            invariant
                !self.watches,
                forall|j: int| 0 <= j < i ==> !(#[trigger] self.sources@[j]),
        {
            if self.sources[i] {
                assert(self@.sources[i as int]);
                return true;
            }
        }
        false
    }

    /// Whether the loop ends. Who observes the service is asked only where
    /// it matters.
    pub fn exits<F: FnOnce() -> bool>(&self, observed: F) -> (ends: bool)
        requires
            !self@.commands && inputs_open(self@) ==> call_requires(observed, ()),
        ensures
            !self@.commands && inputs_open(self@) ==> exists|o: bool|
                call_ensures(observed, (), o) && ends == stops(self@, o),
            !(!self@.commands && inputs_open(self@)) ==> forall|o: bool| ends == stops(self@, o),
    {
        if self.commands {
            return false;
        }
        if !self.any_input() {
            return true;
        }
        let seen = observed();
        assert(call_ensures(observed, (), seen) && !seen == stops(self@, seen));
        !seen
    }
}

/// While a handle is left the loop goes on.
pub proof fn a_handle_keeps_the_service_alive(state: LoopView, observed: bool)
    requires
        state.commands,
    ensures
        !stops(state, observed),
{
}

/// A service that takes only commands stops when its handles drop.
pub proof fn a_command_service_stops_without_handles(state: LoopView, observed: bool)
    requires
        !state.commands,
        state.sources.len() == 0,
        !state.watches,
    ensures
        stops(state, observed),
{
}

/// A service whose handles are dropped goes on exactly while an input is
/// open and someone observes it.
pub proof fn an_observed_service_outlives_its_handles(state: LoopView, observed: bool)
    requires
        !state.commands,
    ensures
        stops(state, observed) <==> !(inputs_open(state) && observed),
        inputs_open(state) ==> !stops(state, true) && stops(state, false),
{
}

/// Inputs that have ended stay ended: closing one more never makes a loop
/// go on that would have stopped.
pub proof fn closing_an_input_never_revives_the_loop(state: LoopView, i: int, observed: bool)
    requires
        0 <= i < state.sources.len(),
        stops(state, observed),
    ensures
        stops(LoopView { sources: state.sources.update(i, false), ..state }, observed),
        stops(LoopView { commands: false, ..state }, observed),
{
    let after = state.sources.update(i, false);
    if after.contains(true) {
        let j = choose|j: int| 0 <= j < after.len() && after[j] == true;
        assert(state.sources[j]);
    }
}

/// A command is reported as delivered exactly where it was queued, as not
/// delivered exactly where the service has shut down, and a full queue
/// exactly where there was one, with the method's name.
pub proof fn a_delivery_is_reported_as_it_was(
    result: Result<bool, String>,
    delivery: Delivery,
    method: Seq<char>,
)
    requires
        reports(result, delivery, method),
    ensures
        delivery == Delivery::Delivered <==> (result matches Ok(delivered) && delivered),
        delivery == Delivery::Closed <==> (result matches Ok(delivered) && !delivered),
        delivery == Delivery::Full <==> result is Err,
        result matches Err(message) ==> message@ == "command queue full: "@ + method,
{
    reveal_strlit("command queue full: $0");
    reveal_strlit("command queue full: ");
    let text = "command queue full: "@;
    let end = Seq::<char>::empty();
    assert(QUEUE_FULL@ =~= text + crate::text::hole(0) + end);
    crate::text::lemma_fills1(text, 0, end, seq![method]);
    assert(text + method + end =~= text + method);
}

/// A task that is added to a set joins the handles that wait, behind all
/// others, and the waiter that begins next takes them all.
pub proof fn an_added_task_is_waited_for<H: TaskHandle>(set: TaskSetView<H>, handle: Box<H>)
    ensures
        blocks(pushed(set, handle)),
        pushed(set, handle).handles.last() == handle,
        pushed(set, handle).handles.drop_last() == set.handles,
        pushed(set, handle).taken == set.taken,
        pushed(set, handle).done == set.done,
        begun(pushed(set, handle)).handles.len() == 0,
        begun(pushed(set, handle)).taken,
        waited(set).done,
        waited(set).handles.len() == 0,
{
    assert(pushed(set, handle).handles.drop_last() =~= set.handles);
}

/// The loop goes on while handles can send commands, and without them exactly
/// while an input is open and someone observes the service.
pub proof fn a_loop_stops_when_nothing_can_reach_it(state: LoopView, observed: bool, i: int)
    requires
        0 <= i < state.sources.len(),
    ensures
        state.commands ==> !stops(state, observed),
        !state.commands && !observed ==> stops(state, observed),
        !state.commands && observed && (state.watches || state.sources[i]) ==> !stops(
            state,
            observed,
        ),
        !state.commands && !state.watches && (forall|k: int|
            0 <= k < state.sources.len() ==> !(#[trigger] state.sources[k])) ==> stops(
            state,
            observed,
        ),
{
    if state.sources[i] {
        assert(state.sources.contains(true));
    }
}

} // verus!
