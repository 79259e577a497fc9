//! Operations: commands whose outcome arrives later.
//!
//! An operation starts pending and concludes once: as done, as failed with
//! a reason, or as lost. An [`OpTable`] owns the states. A caller follows
//! its operation through an [`Op`]; whoever holds the operation's
//! [`Resolver`] concludes it, and concluding consumes the resolver.

use crate::feed::Feed;
use crate::shared::Listener;
use crate::time::{Clock, Instant};
use std::collections::BTreeMap;
use std::marker::PhantomData;
use std::sync::Arc;
use vstd::prelude::*;

verus! {

broadcast use vstd::laws_cmp::group_laws_cmp;

/// The lifecycle of an operation.
#[derive(Clone, Debug, PartialEq)]
pub enum OpState<R> {
    /// Started and awaiting its outcome.
    Pending {
        since: Instant,
        /// When the operation expires, if it can time out.
        deadline: Option<Instant>,
    },
    /// Concluded successfully.
    Done { at: Instant },
    /// Concluded unsuccessfully.
    Failed { reason: R, at: Instant },
    /// Concluded without an outcome; none will ever arrive.
    Lost { at: Instant },
}

impl<R> OpState<R> {
    /// When the operation came into the state.
    pub open spec fn entered(self) -> Instant {
        match self {
            OpState::Pending { since, .. } => since,
            OpState::Done { at } => at,
            OpState::Failed { at, .. } => at,
            OpState::Lost { at } => at,
        }
    }

    /// Whether the operation is awaiting its outcome.
    pub fn is_pending(&self) -> (pending: bool)
        ensures
            pending == (self is Pending),
    {
        matches!(self, OpState::Pending { .. })
    }

    /// Whether the operation has concluded.
    pub fn is_terminal(&self) -> (terminal: bool)
        ensures
            terminal == !(self is Pending),
    {
        !self.is_pending()
    }

    /// The failure reason, if the operation concluded unsuccessfully.
    pub fn failure(&self) -> (reason: Option<&R>)
        ensures
            reason == match *self {
                OpState::Failed { reason, .. } => Some(&reason),
                _ => None,
            },
    {
        match self {
            OpState::Failed { reason, .. } => Some(reason),
            _ => None,
        }
    }
}

/// One operation's state and the feed its caller reads it from.
#[verifier::reject_recursive_types(R)]
struct OpCell<R> {
    state: Arc<OpState<R>>,
    feed: Feed<OpState<R>>,
}

/// The operations of one service, by number.
#[verifier::reject_recursive_types(R)]
pub struct OpTable<R> {
    cells: BTreeMap<u64, OpCell<R>>,
    next_id: u64,
    /// The operations that concluded, in order.
    history: Ghost<Seq<u64>>,
}

/// A caller's handle to one operation.
#[verifier::reject_recursive_types(R)]
pub struct Op<R> {
    id: u64,
    feed: Feed<OpState<R>>,
}

/// Concludes one operation with its outcome.
///
/// Concluding consumes the resolver, so an operation concludes at most
/// once.
#[verifier::reject_recursive_types(R)]
pub struct Resolver<R> {
    id: u64,
    /// The feed of the operation.
    source: Ghost<Feed<OpState<R>>>,
}

/// Whether every operation that had concluded is unchanged, and none is
/// missing.
pub open spec fn conclusions_kept<R>(
    before: Map<u64, OpState<R>>,
    after: Map<u64, OpState<R>>,
) -> bool {
    forall|id: u64| #[trigger]
        before.contains_key(id) ==> after.contains_key(id) && (!(before[id] is Pending) ==> after[id]
            == before[id])
}

/// What is to become of one operation.
#[verifier::reject_recursive_types(R)]
pub enum Conclusion<R> {
    /// It succeeded.
    Succeed { resolver: Resolver<R> },
    /// It failed with a reason.
    Fail { resolver: Resolver<R>, reason: R },
    /// Its outcome will never arrive.
    Lose { resolver: Resolver<R> },
}

impl<R> Conclusion<R> {
    /// The number of the operation it concludes.
    pub open spec fn id(self) -> u64 {
        self.resolver().id()
    }

    /// The resolver it uses up.
    pub open spec fn resolver(self) -> Resolver<R> {
        match self {
            Conclusion::Succeed { resolver } => resolver,
            Conclusion::Fail { resolver, .. } => resolver,
            Conclusion::Lose { resolver } => resolver,
        }
    }

    /// Whether a state is the one this conclusion leads to, at whatever
    /// instant it was applied.
    pub open spec fn reached(self, state: OpState<R>) -> bool {
        match self {
            Conclusion::Succeed { .. } => state is Done,
            Conclusion::Fail { reason, .. } => state is Failed && state->reason == reason,
            Conclusion::Lose { .. } => state is Lost,
        }
    }

    /// Applies the conclusion.
    pub fn apply(self, ops: &mut OpTable<R>, at: Instant)
        requires
            old(ops).wf(),
            old(ops).awaits(self.resolver()),
        ensures
            final(ops).wf(),
            final(ops).next_id() == old(ops).next_id(),
            final(ops).kept(*old(ops)),
            final(ops)@ == old(ops)@.insert(
                self.id(),
                match self {
                    Conclusion::Succeed { .. } => OpState::Done { at },
                    Conclusion::Fail { reason, .. } => OpState::Failed { reason, at },
                    Conclusion::Lose { .. } => OpState::Lost { at },
                },
            ),
            final(ops).history() == old(ops).history().push(self.id()),
    {
        match self {
            Conclusion::Succeed { resolver } => resolver.succeed(ops, at),
            Conclusion::Fail { resolver, reason } => resolver.fail(ops, reason, at),
            Conclusion::Lose { resolver } => resolver.lose(ops, at),
        }
    }
}

/// Whether no operation is concluded twice.
pub open spec fn one_each<R>(conclusions: Seq<Conclusion<R>>) -> bool {
    forall|i: int, j: int|
        #![trigger conclusions[i], conclusions[j]]
        0 <= i < j < conclusions.len() ==> conclusions[i].id() != conclusions[j].id()
}

/// Whether an operation is among those concluded.
pub open spec fn concludes<R>(conclusions: Seq<Conclusion<R>>, id: u64) -> bool {
    exists|i: int| 0 <= i < conclusions.len() && (#[trigger] conclusions[i]).id() == id
}

/// Whether exactly the given conclusions were applied.
pub open spec fn concluded<R>(
    before: Map<u64, OpState<R>>,
    after: Map<u64, OpState<R>>,
    conclusions: Seq<Conclusion<R>>,
) -> bool {
    &&& after.dom() == before.dom()
    &&& forall|i: int|
        0 <= i < conclusions.len() ==> (#[trigger] conclusions[i]).reached(
            after[conclusions[i].id()],
        )
    &&& forall|id: u64| #[trigger]
        before.contains_key(id) && !concludes(conclusions, id) ==> after[id] == before[id]
}

/// Whether each of the given conclusions was applied at a reading of a clock.
pub open spec fn timed<R>(
    clock: &Clock,
    after: Map<u64, OpState<R>>,
    conclusions: Seq<Conclusion<R>>,
) -> bool {
    forall|i: int|
        0 <= i < conclusions.len() ==> clock.reads(
            after[(#[trigger] conclusions[i]).id()].entered(),
        )
}

/// The operations that conclusions are for, in order.
pub open spec fn ids_of<R>(conclusions: Seq<Conclusion<R>>) -> Seq<u64> {
    conclusions.map_values(|conclusion: Conclusion<R>| conclusion.id())
}

/// Whatever happens to a table, an operation that has concluded once keeps
/// its conclusion from then on.
pub proof fn an_operation_concludes_at_most_once<R>(
    before: Map<u64, OpState<R>>,
    between: Map<u64, OpState<R>>,
    after: Map<u64, OpState<R>>,
)
    requires
        conclusions_kept(before, between),
        conclusions_kept(between, after),
    ensures
        conclusions_kept(before, after),
{
    assert forall|id: u64| #[trigger] before.contains_key(id) implies after.contains_key(id) && (!(
    before[id] is Pending) ==> after[id] == before[id]) by {
        assert(between.contains_key(id));
    }
}

/// Over any run of calls on a table, by whichever cells and resolvers, an
/// operation that has concluded never changes again.
pub proof fn a_conclusion_is_final<R>(run: Seq<OpTable<R>>, i: int, j: int, id: u64)
    requires
        forall|n: int| 0 <= n < run.len() - 1 ==> (#[trigger] run[n + 1]).kept(run[n]),
        0 <= i <= j < run.len(),
        run[i]@.contains_key(id),
        !run[i].pending(id),
    ensures
        run[j]@.contains_key(id),
        run[j]@[id] == run[i]@[id],
    decreases j - i,
{
    if i < j {
        a_conclusion_is_final(run, i, j - 1, id);
        assert(run[j - 1 + 1].kept(run[j - 1]));
    }
}

/// Over any run of calls on a table, by whichever cells and resolvers, the
/// waiters of an operation are woken once if it has concluded since, after its
/// conclusion was stored, and else not.
pub proof fn an_operation_wakes_its_waiters_once<R>(run: Seq<OpTable<R>>, i: int, j: int, id: u64)
    requires
        forall|n: int| 0 <= n < run.len() - 1 ==> (#[trigger] run[n + 1]).kept(run[n]),
        0 <= i <= j < run.len(),
        run[i]@.contains_key(id),
    ensures
        run[j]@.contains_key(id),
        if run[i].pending(id) && !run[j].pending(id) {
            run[j].source(id).pushed(run[i].source(id), run[j]@[id])
        } else {
            run[j].source(id).idle(run[i].source(id))
        },
    decreases j - i,
{
    if i < j {
        an_operation_wakes_its_waiters_once(run, i, j - 1, id);
        assert(run[j - 1 + 1].kept(run[j - 1]));
        if !run[i].pending(id) {
            a_conclusion_is_final(run, i, j - 1, id);
            a_conclusion_is_final(run, i, j, id);
        }
    }
}

/// Concluding pending operations, however many, changes none that has
/// concluded.
pub proof fn concluding_keeps_conclusions<R>(
    before: Map<u64, OpState<R>>,
    after: Map<u64, OpState<R>>,
    conclusions: Seq<Conclusion<R>>,
)
    requires
        concluded(before, after, conclusions),
        forall|i: int|
            0 <= i < conclusions.len() ==> before[(#[trigger] conclusions[i]).id()] is Pending,
    ensures
        conclusions_kept(before, after),
{
    assert forall|id: u64| #[trigger] before.contains_key(id) implies after.contains_key(id) && (!(
    before[id] is Pending) ==> after[id] == before[id]) by {
        assert(after.dom().contains(id));
        if concludes(conclusions, id) {
            let i = choose|i: int|
                0 <= i < conclusions.len() && (#[trigger] conclusions[i]).id() == id;
            assert(before[conclusions[i].id()] is Pending);
        }
    }
}

impl<R> View for OpTable<R> {
    type V = Map<u64, OpState<R>>;

    /// The state of every operation, by number.
    closed spec fn view(&self) -> Map<u64, OpState<R>> {
        self.cells@.map_values(|cell: OpCell<R>| *cell.state)
    }
}

impl<R> OpTable<R> {
    /// The number the next operation gets; all given so far are below it.
    pub closed spec fn next_id(&self) -> u64 {
        self.next_id
    }

    /// The operations that concluded, in the order in which they did.
    pub closed spec fn history(&self) -> Seq<u64> {
        self.history@
    }

    /// The feed that an operation's states are pushed into.
    pub closed spec fn source(&self, id: u64) -> Feed<OpState<R>> {
        self.cells@[id].feed
    }

    /// Whether the operations have the feeds they had, and into the feed of
    /// each that has concluded since its conclusion was pushed, once, into
    /// those of the others nothing.
    pub open spec fn follows(&self, before: Self) -> bool {
        forall|id: u64| #[trigger]
            self@.contains_key(id) && before@.contains_key(id) ==> if before.pending(id)
                && !self.pending(id) {
                self.source(id).pushed(before.source(id), self@[id])
            } else {
                self.source(id).idle(before.source(id))
            }
    }

    /// What every call but a release keeps: an operation that has concluded
    /// never changes, and the conclusion of one that concludes is pushed to
    /// its followers once.
    pub open spec fn kept(&self, before: Self) -> bool {
        conclusions_kept(before@, self@) && self.follows(before)
    }

    /// Whether a resolver is that of an operation that awaits its outcome.
    pub open spec fn awaits(&self, resolver: Resolver<R>) -> bool {
        self.pending(resolver.id()) && self.source(resolver.id()).same(resolver.source())
    }

    /// Whether every number in use lies below the next one, and every
    /// operation's state is published through its feed.
    pub open spec fn wf(&self) -> bool {
        forall|id: u64| #[trigger]
            self@.contains_key(id) ==> id < self.next_id() && self.source(
                id,
            ).offers(self@[id])
    }

    /// Whether an operation is known and awaits its outcome.
    pub open spec fn pending(&self, id: u64) -> bool {
        self@.contains_key(id) && self@[id] is Pending
    }

    /// Creates a table without operations.
    pub fn new() -> (table: Self)
        ensures
            table.wf(),
            table@ == Map::<u64, OpState<R>>::empty(),
            table.next_id() == 0,
            table.history() == Seq::<u64>::empty(),
    {
        let table = OpTable { cells: BTreeMap::new(), next_id: 0, history: Ghost(Seq::empty()) };
        assert(table@ =~= Map::empty());
        table
    }

    /// Whether there is a number left for one more operation.
    pub fn has_room(&self) -> (room: bool)
        ensures
            room == (self.next_id() < u64::MAX),
    {
        self.next_id < u64::MAX
    }

    /// Replaces an operation's state and wakes those waiting on it.
    fn store(&mut self, id: u64, next: OpState<R>)
        requires
            old(self).wf(),
            old(self).pending(id),
            !(next is Pending),
        ensures
            final(self).wf(),
            final(self).next_id() == old(self).next_id(),
            final(self).follows(*old(self)),
            final(self)@ == old(self)@.insert(id, next),
            final(self).history() == old(self).history().push(id),
    {
        match self.cells.remove(&id) {
            Some(cell) => {
                let state = Arc::new(next);
                let mut feed = cell.feed;
                feed.push(state.clone());
                self.cells.insert(id, OpCell { state, feed });
                self.history = Ghost(self.history@.push(id));
            },
            None => {},
        }
        assert(self@ =~= old(self)@.insert(id, next));
    }

    /// Applies conclusions one after another, each at the clock's time.
    pub fn conclude_all(&mut self, clock: &Clock, conclusions: Vec<Conclusion<R>>)
        requires
            old(self).wf(),
            one_each(conclusions@),
            forall|i: int|
                0 <= i < conclusions.len() ==> old(self).awaits(
                    (#[trigger] conclusions@[i]).resolver(),
                ),
        ensures
            final(self).wf(),
            final(self).next_id() == old(self).next_id(),
            final(self).kept(*old(self)),
            concluded(old(self)@, final(self)@, conclusions@),
            timed(clock, final(self)@, conclusions@),
            final(self).history() == old(self).history() + ids_of(conclusions@),
    {
        let ghost all = conclusions@;
        assert(self.history() =~= old(self).history() + ids_of(all.take(0)));
        for conclusion in iter: conclusions
            invariant
                self.wf(),
                self.next_id() == old(self).next_id(),
                self.follows(*old(self)),
                self@.dom() == old(self)@.dom(),
                iter.seq() == all,
                one_each(all),
                forall|i: int|
                    0 <= i < all.len() ==> old(self).awaits((#[trigger] all[i]).resolver()),
                concluded(old(self)@, self@, all.take(iter.index())),
                timed(clock, self@, all.take(iter.index())),
                self.history() == old(self).history() + ids_of(all.take(iter.index())),
        {
            let ghost done = all.take(iter.index());
            let ghost more = all.take(iter.index() + 1);
            let ghost before = self@;
            assert(more =~= done.push(conclusion));
            assert(!concludes(done, conclusion.id()));
            assert(old(self).awaits(all[iter.index()].resolver()));
            let ghost prior = *self;
            conclusion.apply(self, clock.now());
            assert(self.history() =~= old(self).history() + ids_of(more));
            proof {
                assert forall|i: int| 0 <= i < more.len() implies (#[trigger] more[i]).reached(
                    self@[more[i].id()],
                ) by {
                    if i < done.len() {
                        assert(done[i].reached(before[done[i].id()]));
                        assert(all[i] == done[i]);
                    }
                }
                assert forall|i: int| 0 <= i < more.len() implies clock.reads(
                    self@[(#[trigger] more[i]).id()].entered(),
                ) by {
                    if i < done.len() {
                        assert(clock.reads(before[done[i].id()].entered()));
                        assert(all[i] == done[i]);
                    }
                }
                assert forall|id: u64| #[trigger]
                    old(self)@.contains_key(id) && !concludes(more, id) implies self@[id] == old(
                    self,
                )@[id] by {
                    assert(more[done.len() as int] == conclusion);
                    if concludes(done, id) {
                        let i = choose|i: int|
                            0 <= i < done.len() && (#[trigger] done[i]).id() == id;
                        assert(more[i] == done[i]);
                    }
                }
                assert(self@.dom() =~= old(self)@.dom());
            }
        }
        assert(all.take(all.len() as int) =~= all);
        proof {
            assert forall|i: int| 0 <= i < all.len() implies old(self)@[(
            #[trigger] all[i]).id()] is Pending by {
                assert(old(self).awaits(all[i].resolver()));
            }
            concluding_keeps_conclusions(old(self)@, self@, all);
        }
    }

    /// Forgets a concluded operation that no caller follows any more.
    pub fn release(&mut self, op: Op<R>)
        requires
            old(self).wf(),
            old(self)@.contains_key(op.id()) ==> op.of(*old(self)),
        ensures
            final(self).wf(),
            final(self).next_id() == old(self).next_id(),
            final(self).follows(*old(self)),
            final(self).history() == old(self).history(),
            final(self)@ == if old(self).pending(op.id()) {
                old(self)@
            } else {
                old(self)@.remove(op.id())
            },
    {
        let concluded = match self.cells.get(&op.id) {
            Some(cell) => cell.state.is_terminal(),
            None => false,
        };
        if concluded {
            self.cells.remove(&op.id);
            assert(self@ =~= old(self)@.remove(op.id));
        } else {
            assert(old(self)@.remove(op.id) =~= old(self)@ || old(self).pending(op.id));
        }
    }
}

impl<R> Op<R> {
    /// The operation's number in its table.
    pub closed spec fn id(&self) -> u64 {
        self.id
    }

    /// The feed through which its states are read.
    pub closed spec fn source(&self) -> Feed<OpState<R>> {
        self.feed
    }

    /// Whether it is the handle of an operation of a table.
    pub open spec fn of(&self, ops: OpTable<R>) -> bool {
        ops@.contains_key(self.id()) && ops.source(self.id()).same(self.source())
    }

    /// Starts an operation, returning the caller's handle and the resolver
    /// that concludes it.
    pub fn __rillet_pair(
        ops: &mut OpTable<R>,
        since: Instant,
        deadline: Option<Instant>,
    ) -> (pair: (Op<R>, Resolver<R>))
        requires
            old(ops).wf(),
            old(ops).next_id() < u64::MAX,
        ensures
            final(ops).wf(),
            final(ops).next_id() == old(ops).next_id() + 1,
            final(ops)@ == old(ops)@.insert(
                old(ops).next_id(),
                OpState::Pending { since, deadline },
            ),
            final(ops).kept(*old(ops)),
            final(ops).history() == old(ops).history(),
            pair.0.id() == old(ops).next_id(),
            pair.0.of(*final(ops)),
            pair.1.id() == old(ops).next_id(),
            final(ops).awaits(pair.1),
    {
        let id: u64 = ops.next_id;
        let state = Arc::new(OpState::Pending { since, deadline });
        let feed = Feed::new(state.clone());
        let handle = feed.share();
        ops.cells.insert(id, OpCell { state, feed });
        ops.next_id = id + 1;
        assert(ops@ =~= old(ops)@.insert(id, OpState::Pending { since, deadline }));
        (Op { id, feed: handle }, Resolver { id, source: Ghost(handle) })
    }

    /// The current state.
    pub fn state(&self, ops: &OpTable<R>) -> (state: Arc<OpState<R>>)
        requires
            self.of(*ops),
        ensures
            *state == ops@[self.id()],
    {
        match ops.cells.get(&self.id) {
            Some(cell) => cell.state.clone(),
            None => self.feed.latest(),
        }
    }

    /// The final state, once the operation has concluded.
    pub fn outcome(&self, ops: &OpTable<R>) -> (state: Option<Arc<OpState<R>>>)
        requires
            self.of(*ops),
        ensures
            ops.pending(self.id()) ==> state is None,
            !ops.pending(self.id()) ==> state is Some && *state->0 == ops@[self.id()],
    {
        let state = self.state(ops);
        if state.is_terminal() {
            Some(state)
        } else {
            None
        }
    }

    /// The feed through which other threads follow the state without the
    /// table.
    pub fn feed(&self) -> (feed: Feed<OpState<R>>)
        ensures
            feed.same(self.source()),
    {
        self.feed.share()
    }

    /// Returns a listener that resolves at the next state change.
    ///
    /// Take the listener before reading the state, so a change landing
    /// between the two is not missed.
    pub fn listen(&self) -> (listener: Listener)
        ensures
            listener.list() == self.source().waiters().list(),
    {
        self.feed.listen()
    }

    /// Another handle to the same operation.
    pub fn share(&self) -> (other: Self)
        ensures
            other.id() == self.id(),
            other.source().same(self.source()),
    {
        Op { id: self.id, feed: self.feed.share() }
    }
}

impl<R> Resolver<R> {
    /// The number of the operation it concludes.
    pub closed spec fn id(&self) -> u64 {
        self.id
    }

    /// The feed of the operation it concludes.
    pub closed spec fn source(&self) -> Feed<OpState<R>> {
        self.source@
    }

    /// Concludes the operation successfully.
    pub fn succeed(self, ops: &mut OpTable<R>, at: Instant)
        requires
            old(ops).wf(),
            old(ops).awaits(self),
        ensures
            final(ops).wf(),
            final(ops).next_id() == old(ops).next_id(),
            final(ops).kept(*old(ops)),
            final(ops)@ == old(ops)@.insert(self.id(), OpState::Done { at }),
            final(ops).history() == old(ops).history().push(self.id()),
    {
        ops.store(self.id, OpState::Done { at });
    }

    /// Concludes the operation unsuccessfully.
    pub fn fail(self, ops: &mut OpTable<R>, reason: R, at: Instant)
        requires
            old(ops).wf(),
            old(ops).awaits(self),
        ensures
            final(ops).wf(),
            final(ops).next_id() == old(ops).next_id(),
            final(ops).kept(*old(ops)),
            final(ops)@ == old(ops)@.insert(self.id(), OpState::Failed { reason, at }),
            final(ops).history() == old(ops).history().push(self.id()),
    {
        ops.store(self.id, OpState::Failed { reason, at });
    }

    /// Gives the operation up: it concludes as lost.
    pub fn lose(self, ops: &mut OpTable<R>, at: Instant)
        requires
            old(ops).wf(),
            old(ops).awaits(self),
        ensures
            final(ops).wf(),
            final(ops).next_id() == old(ops).next_id(),
            final(ops).kept(*old(ops)),
            final(ops)@ == old(ops)@.insert(self.id(), OpState::Lost { at }),
            final(ops).history() == old(ops).history().push(self.id()),
    {
        ops.store(self.id, OpState::Lost { at });
    }

    /// When the operation expires, if it can time out.
    pub fn deadline(&self, ops: &OpTable<R>) -> (deadline: Option<Instant>)
        ensures
            deadline == match ops@.get(self.id()) {
                Some(OpState::Pending { deadline, .. }) => deadline,
                _ => None,
            },
    {
        match ops.cells.get(&self.id) {
            Some(cell) => match *cell.state {
                OpState::Pending { deadline, .. } => deadline,
                _ => None,
            },
            None => None,
        }
    }
}

/// The enqueue-time description of a deferred operation: its key and
/// optional deadline.
pub struct Start<K, R> {
    key: K,
    deadline: Option<Instant>,
    _reason: PhantomData<R>,
}

impl<K, R> Start<K, R> {
    /// The key the operation is parked under.
    pub closed spec fn key(&self) -> K {
        self.key
    }

    /// When the operation expires, if it can time out.
    pub closed spec fn expiry(&self) -> Option<Instant> {
        self.deadline
    }

    /// Describes an operation under the given key, with no deadline.
    pub fn new(key: K) -> (start: Self)
        ensures
            start.key() == key,
            start.expiry() is None,
    {
        Start { key, deadline: None, _reason: PhantomData }
    }

    /// Sets the instant at which the operation expires.
    pub fn deadline(self, at: Instant) -> (start: Self)
        ensures
            start.key() == self.key(),
            start.expiry() == Some(at),
    {
        Start { key: self.key, deadline: Some(at), _reason: PhantomData }
    }

    /// The key and the deadline.
    pub fn __rillet_parts(self) -> (parts: (K, Option<Instant>))
        ensures
            parts == (self.key(), self.expiry()),
    {
        (self.key, self.deadline)
    }
}

/// Conclusions lead where they say: a success to done, a failure to failed
/// with its reason, a loss to lost; and no other operation changes.
pub proof fn a_conclusion_leads_where_it_says<R>(
    before: Map<u64, OpState<R>>,
    after: Map<u64, OpState<R>>,
    conclusions: Seq<Conclusion<R>>,
    i: int,
    other: u64,
)
    requires
        concluded(before, after, conclusions),
        0 <= i < conclusions.len(),
        before.contains_key(other),
        forall|j: int| 0 <= j < conclusions.len() ==> (#[trigger] conclusions[j]).id() != other,
    ensures
        match conclusions[i] {
            Conclusion::Succeed { resolver } => after[resolver.id()] is Done,
            Conclusion::Fail { resolver, reason } => after[resolver.id()] is Failed
                && after[resolver.id()]->reason == reason,
            Conclusion::Lose { resolver } => after[resolver.id()] is Lost,
        },
        after.dom() == before.dom(),
        after[other] == before[other],
{
    assert(conclusions[i].reached(after[conclusions[i].id()]));
    assert(!concludes(conclusions, other));
}

/// Conclusions are for the operations of their resolvers, in their order.
pub proof fn conclusions_name_their_operations<R>(conclusions: Seq<Conclusion<R>>, i: int)
    requires
        0 <= i < conclusions.len(),
    ensures
        ids_of(conclusions).len() == conclusions.len(),
        ids_of(conclusions)[i] == match conclusions[i] {
            Conclusion::Succeed { resolver } => resolver.id(),
            Conclusion::Fail { resolver, .. } => resolver.id(),
            Conclusion::Lose { resolver } => resolver.id(),
        },
{
}

/// An operation enters a state at the instant that the state carries, and a
/// clock's conclusions at one that the clock showed.
pub proof fn a_state_tells_when_it_was_entered<R>(
    clock: &Clock,
    after: Map<u64, OpState<R>>,
    conclusions: Seq<Conclusion<R>>,
    i: int,
    at: Instant,
    reason: R,
    deadline: Option<Instant>,
)
    requires
        0 <= i < conclusions.len(),
        timed(clock, after, conclusions),
    ensures
        (OpState::<R>::Pending { since: at, deadline }).entered() == at,
        (OpState::<R>::Done { at }).entered() == at,
        (OpState::Failed { reason, at }).entered() == at,
        (OpState::<R>::Lost { at }).entered() == at,
        after[conclusions[i].id()] == (OpState::<R>::Done { at }) ==> clock.reads(at),
        after[conclusions[i].id()] == (OpState::Failed { reason, at }) ==> clock.reads(at),
        after[conclusions[i].id()] == (OpState::<R>::Lost { at }) ==> clock.reads(at),
{
    assert(clock.reads(after[conclusions[i].id()].entered()));
}

} // verus!
