//! One service's deferred operations.
//!
//! An [`OpsCell`] parks the resolvers of deferred operations by op method
//! and key until an outcome, a deadline or the end of the service concludes
//! them. Outcomes found by handlers are queued and applied at the next
//! flush. The operations are those of an [`OpTable`], which any number of
//! cells share.

use crate::shared::{Listener, Wake};
use crate::op::{Conclusion, Op, OpState, OpTable, Resolver};
use crate::registry::{Entry, Expiry, Registry};
use crate::time::{Clock, Instant, earlier};
use vstd::prelude::*;

verus! {

/// One op method's registry.
#[verifier::reject_recursive_types(K)]
#[verifier::reject_recursive_types(R)]
struct Named<K, R> {
    op: String,
    registry: Registry<K, R>,
}

/// One service's deferred operations, one registry per op method.
#[verifier::reject_recursive_types(K)]
#[verifier::reject_recursive_types(R)]
pub struct OpsCell<K, R> {
    registries: Vec<Named<K, R>>,
    /// Conclusions queued by handlers and not yet applied.
    conclusions: Vec<Conclusion<R>>,
    closed: bool,
    clock: Clock,
    wake: Wake<()>,
}

/// The next step of the loop that fails overdue operations.
pub enum ExpireStep {
    /// End the loop.
    Stop,
    /// Wait until the instant, or without end if there is none, or until a
    /// waiter of the cell fires.
    Wait { until: Option<Instant> },
}

/// Whether a registry holds an entry under an op method and a key.
spec fn holds<K, R>(registries: Seq<Named<K, R>>, i: int, at: (Seq<char>, K)) -> bool {
    0 <= i < registries.len() && registries[i].op@ == at.0 && registries[i].registry@.contains_key(
        at.1,
    )
}

/// The entries of all registries, by op method and key.
spec fn parked_in<K, R>(registries: Seq<Named<K, R>>) -> Map<(Seq<char>, K), Entry<R>> {
    Map::new(
        |at: (Seq<char>, K)| exists|i: int| holds(registries, i, at),
        |at: (Seq<char>, K)|
            registries[choose|i: int| holds(registries, i, at)].registry@[at.1],
    )
}

/// Whether no op method has two registries.
spec fn one_per_op<K, R>(registries: Seq<Named<K, R>>) -> bool {
    forall|i: int, j: int|
        #![trigger registries[i], registries[j]]
        0 <= i < j < registries.len() ==> registries[i].op@ != registries[j].op@
}

/// Each entry of each registry is found under its op method and key.
proof fn lemma_parked<K, R>(registries: Seq<Named<K, R>>, i: int)
    requires
        one_per_op(registries),
        0 <= i < registries.len(),
    ensures
        forall|key: K| #[trigger]
            registries[i].registry@.contains_key(key) <==> parked_in(registries).contains_key(
                (registries[i].op@, key),
            ),
        forall|key: K| #[trigger]
            registries[i].registry@.contains_key(key) ==> registries[i].registry@[key]
                == parked_in(registries)[(registries[i].op@, key)],
{
    assert forall|key: K| #[trigger] registries[i].registry@.contains_key(key) implies {
        &&& parked_in(registries).contains_key((registries[i].op@, key))
        &&& registries[i].registry@[key] == parked_in(registries)[(registries[i].op@, key)]
    } by {
        let at = (registries[i].op@, key);
        assert(holds(registries, i, at));
        let j = choose|j: int| holds(registries, j, at);
        assert(registries[j].op@ == registries[i].op@);
        assert(i == j);
    }
    assert forall|key: K|
        parked_in(registries).contains_key((registries[i].op@, key)) implies #[trigger] registries[i].registry@.contains_key(
    key) by {
        let at = (registries[i].op@, key);
        let j = choose|j: int| holds(registries, j, at);
        assert(registries[j].op@ == registries[i].op@);
        assert(i == j);
    }
}

/// Whether the entries of one registry alone differ, and how all entries
/// differ then.
proof fn lemma_parked_update<K, R>(
    before: Seq<Named<K, R>>,
    after: Seq<Named<K, R>>,
    i: int,
    at: (Seq<char>, K),
)
    requires
        one_per_op(before),
        0 <= i < before.len(),
        after.len() == before.len(),
        at.0 == before[i].op@,
        forall|j: int| 0 <= j < before.len() && j != i ==> after[j] == before[j],
        after[i].op@ == before[i].op@,
    ensures
        one_per_op(after),
        forall|entry: Entry<R>|
            after[i].registry@ == before[i].registry@.insert(at.1, entry) ==> parked_in(after)
                == #[trigger] parked_in(before).insert(at, entry),
        after[i].registry@ == before[i].registry@.remove(at.1) ==> parked_in(after) == parked_in(
            before,
        ).remove(at),
{
    lemma_others_unchanged(before, after, i);
    lemma_parked(before, i);
    lemma_parked(after, i);
    assert forall|entry: Entry<R>|
        after[i].registry@ == before[i].registry@.insert(at.1, entry) implies parked_in(after)
        == #[trigger] parked_in(before).insert(at, entry) by {
        let expected = parked_in(before).insert(at, entry);
        assert forall|p: (Seq<char>, K)|
            #![trigger parked_in(after).contains_key(p)]
            #![trigger parked_in(after)[p]]
            parked_in(after).contains_key(p) == expected.contains_key(p) && (expected.contains_key(p)
                ==> parked_in(after)[p] == expected[p]) by {
            if p.0 == at.0 {
                assert(after[i].registry@.contains_key(p.1) == (p.1 == at.1
                    || before[i].registry@.contains_key(p.1)));
            }
        }
        assert(parked_in(after) =~= expected);
    }
    if after[i].registry@ == before[i].registry@.remove(at.1) {
        let expected = parked_in(before).remove(at);
        assert forall|p: (Seq<char>, K)|
            #![trigger parked_in(after).contains_key(p)]
            #![trigger parked_in(after)[p]]
            parked_in(after).contains_key(p) == expected.contains_key(p) && (expected.contains_key(p)
                ==> parked_in(after)[p] == expected[p]) by {
            if p.0 == at.0 {
                assert(after[i].registry@.contains_key(p.1) == (p.1 != at.1
                    && before[i].registry@.contains_key(p.1)));
            }
        }
        assert(parked_in(after) =~= expected);
    }
}

/// Entries of the op methods whose registry is unchanged are unchanged.
proof fn lemma_others_unchanged<K, R>(before: Seq<Named<K, R>>, after: Seq<Named<K, R>>, i: int)
    requires
        one_per_op(before),
        0 <= i < before.len(),
        after.len() == before.len(),
        forall|j: int| 0 <= j < before.len() && j != i ==> after[j] == before[j],
        after[i].op@ == before[i].op@,
    ensures
        one_per_op(after),
        forall|at: (Seq<char>, K)|
            at.0 != before[i].op@ ==> (#[trigger] parked_in(after).contains_key(at)
                <==> parked_in(before).contains_key(at)),
        forall|at: (Seq<char>, K)|
            at.0 != before[i].op@ && #[trigger] parked_in(after).contains_key(at) ==> parked_in(
                after,
            )[at] == parked_in(before)[at],
{
    assert forall|at: (Seq<char>, K)| at.0 != before[i].op@ implies (#[trigger] parked_in(
        after,
    ).contains_key(at) <==> parked_in(before).contains_key(at)) && (parked_in(after).contains_key(
        at,
    ) ==> parked_in(after)[at] == parked_in(before)[at]) by {
        if parked_in(after).contains_key(at) {
            let j = choose|j: int| holds(after, j, at);
            assert(holds(before, j, at));
            lemma_parked(before, j);
            lemma_parked(after, j);
            assert(after[j].registry@.contains_key(at.1));
        }
        if parked_in(before).contains_key(at) {
            let j = choose|j: int| holds(before, j, at);
            assert(holds(after, j, at));
        }
    }
}

/// Whether an operation's entry carries the operation's own deadline.
pub open spec fn carries_deadline<R>(entry: Entry<R>, state: OpState<R>) -> bool {
    match state {
        OpState::Pending { deadline, .. } => match deadline {
            Some(at) => entry.expiry is Some && entry.expiry->0.at == at,
            None => entry.expiry is None,
        },
        _ => false,
    }
}

/// What becomes of the operation that is parked where another is put.
pub open spec fn displaced<K, R>(
    parked: Map<(Seq<char>, K), Entry<R>>,
    at: (Seq<char>, K),
) -> Seq<Conclusion<R>> {
    if parked.contains_key(at) {
        seq![Conclusion::Lose { resolver: parked[at].resolver }]
    } else {
        seq![]
    }
}

/// Applying one conclusion concludes one operation.
proof fn lemma_one_concluded<R>(
    before: Map<u64, OpState<R>>,
    after: Map<u64, OpState<R>>,
    conclusion: Conclusion<R>,
)
    requires
        before.contains_key(conclusion.id()),
        after == before.insert(conclusion.id(), after[conclusion.id()]),
        conclusion.reached(after[conclusion.id()]),
    ensures
        crate::op::concluded(before, after, seq![conclusion]),
{
    let conclusions = seq![conclusion];
    assert(after.dom() =~= before.dom());
    assert forall|id: u64| #[trigger]
        before.contains_key(id) && !crate::op::concludes(
            conclusions,
            id,
        ) implies after[id] == before[id] by {
        assert(conclusions[0] == conclusion);
    }
}

/// Whether `keys` lists, each once, the entries for which a condition
/// holds.
spec fn lists<A, R>(
    keys: Seq<A>,
    entries: Map<A, Entry<R>>,
    condition: spec_fn(Entry<R>) -> bool,
) -> bool {
    &&& keys.no_duplicates()
    &&& forall|at: A| #[trigger]
        keys.contains(at) <==> entries.contains_key(at) && condition(entries[at])
}

/// Whether exactly the operations due at `now` failed, each with its own
/// reason.
pub open spec fn expired<A, R>(
    before: Map<u64, OpState<R>>,
    after: Map<u64, OpState<R>>,
    entries: Map<A, Entry<R>>,
    now: Instant,
) -> bool {
    &&& after.dom() == before.dom()
    &&& forall|at: A| #[trigger]
        entries.contains_key(at) && entries[at].due(now) ==> {
            let state = after[entries[at].resolver.id()];
            state is Failed && state->reason == entries[at].expiry->0.reason
        }
    &&& forall|id: u64| #[trigger]
        before.contains_key(id) && !(exists|at: A| #[trigger]
            entries.contains_key(at) && entries[at].due(now) && entries[at].resolver.id() == id)
            ==> after[id] == before[id]
}

/// Whether exactly the parked operations were given up as lost.
pub open spec fn given_up<A, R>(
    before: Map<u64, OpState<R>>,
    after: Map<u64, OpState<R>>,
    entries: Map<A, Entry<R>>,
) -> bool {
    &&& after.dom() == before.dom()
    &&& forall|at: A| #[trigger]
        entries.contains_key(at) ==> after[entries[at].resolver.id()] is Lost
    &&& forall|id: u64| #[trigger]
        before.contains_key(id) && !(exists|at: A| #[trigger]
            entries.contains_key(at) && entries[at].resolver.id() == id) ==> after[id]
            == before[id]
}

/// Whether an instant is the earliest deadline of the entries.
pub open spec fn is_earliest<A, R>(entries: Map<A, Entry<R>>, earliest: Option<Instant>) -> bool {
    match earliest {
        Some(instant) => {
            &&& exists|at: A| #[trigger]
                entries.contains_key(at) && entries[at].expiry is Some && entries[at].deadline()
                    == instant.nanos
            &&& forall|at: A| #[trigger]
                entries.contains_key(at) && entries[at].expiry is Some ==> instant.nanos
                    <= entries[at].deadline()
        },
        None => forall|at: A| #[trigger]
            entries.contains_key(at) ==> entries[at].expiry is None,
    }
}

/// Failing the due entries is what expiry is.
proof fn lemma_expired<A, R>(
    before: Map<u64, OpState<R>>,
    after: Map<u64, OpState<R>>,
    entries: Map<A, Entry<R>>,
    now: Instant,
    due: Seq<A>,
)
    requires
        lists(due, entries, |e: Entry<R>| e.due(now)),
        crate::op::concluded(before, after, crate::registry::failures(entries, due)),
    ensures
        expired(before, after, entries, now),
{
    let failed = crate::registry::failures(entries, due);
    assert forall|at: A| #[trigger] entries.contains_key(at) && entries[at].due(now) implies {
        let state = after[entries[at].resolver.id()];
        state is Failed && state->reason == entries[at].expiry->0.reason
    } by {
        assert(due.contains(at));
        let i = choose|i: int| 0 <= i < due.len() && due[i] == at;
        assert(failed[i].reached(after[failed[i].id()]));
    }
    assert forall|id: u64| #[trigger]
        before.contains_key(id) && !(exists|at: A| #[trigger]
            entries.contains_key(at) && entries[at].due(now) && entries[at].resolver.id()
                == id) implies after[id] == before[id] by {
        if crate::op::concludes(failed, id) {
            let i = choose|i: int| 0 <= i < failed.len() && (#[trigger] failed[i]).id() == id;
            assert(due.contains(due[i]));
            assert(entries.contains_key(due[i]));
        }
    }
}

/// Losing all entries is what giving up is.
proof fn lemma_given_up<A, R>(
    before: Map<u64, OpState<R>>,
    after: Map<u64, OpState<R>>,
    entries: Map<A, Entry<R>>,
    all: Seq<A>,
)
    requires
        lists(all, entries, |e: Entry<R>| true),
        crate::op::concluded(before, after, crate::registry::losses(entries, all)),
    ensures
        given_up(before, after, entries),
{
    let lost = crate::registry::losses(entries, all);
    assert forall|at: A| #[trigger]
        entries.contains_key(at) implies after[entries[at].resolver.id()] is Lost by {
        assert(all.contains(at));
        let i = choose|i: int| 0 <= i < all.len() && all[i] == at;
        assert(lost[i].reached(after[lost[i].id()]));
    }
    assert forall|id: u64| #[trigger]
        before.contains_key(id) && !(exists|at: A| #[trigger]
            entries.contains_key(at) && entries[at].resolver.id() == id) implies after[id]
        == before[id] by {
        if crate::op::concludes(lost, id) {
            let i = choose|i: int| 0 <= i < lost.len() && (#[trigger] lost[i]).id() == id;
            assert(all.contains(all[i]));
            assert(entries.contains_key(all[i]));
        }
    }
}

/// Keeping some entries of each registry keeps them among all.
proof fn lemma_filtered<K, R>(
    before: Seq<Named<K, R>>,
    after: Seq<Named<K, R>>,
    keep: spec_fn(Entry<R>) -> bool,
)
    requires
        one_per_op(before),
        after.len() == before.len(),
        forall|j: int|
            0 <= j < before.len() ==> {
                &&& (#[trigger] after[j]).op@ == before[j].op@
                &&& forall|key: K| #[trigger]
                    after[j].registry@.contains_key(key) <==> before[j].registry@.contains_key(key)
                        && keep(before[j].registry@[key])
                &&& forall|key: K| #[trigger]
                    after[j].registry@.contains_key(key) ==> after[j].registry@[key]
                        == before[j].registry@[key]
            },
    ensures
        one_per_op(after),
        forall|at: (Seq<char>, K)|
            #![trigger parked_in(after).contains_key(at)]
            #![trigger parked_in(after)[at]]
            (parked_in(after).contains_key(at) <==> parked_in(before).contains_key(at) && keep(
                parked_in(before)[at],
            )) && (parked_in(after).contains_key(at) ==> parked_in(after)[at] == parked_in(
                before,
            )[at]),
{
    assert forall|i: int, j: int|
        #![trigger after[i], after[j]]
        0 <= i < j < after.len() implies after[i].op@ != after[j].op@ by {
        assert(before[i].op@ != before[j].op@);
    }
    assert forall|at: (Seq<char>, K)|
        #![trigger parked_in(after).contains_key(at)]
        #![trigger parked_in(after)[at]]
        (parked_in(after).contains_key(at) <==> parked_in(before).contains_key(at) && keep(
            parked_in(before)[at],
        )) && (parked_in(after).contains_key(at) ==> parked_in(after)[at] == parked_in(
            before,
        )[at]) by {
        if parked_in(after).contains_key(at) {
            let j = choose|j: int| holds(after, j, at);
            lemma_parked(before, j);
            lemma_parked(after, j);
            assert(after[j].registry@.contains_key(at.1));
            assert(before[j].registry@.contains_key(at.1));
            assert(parked_in(before)[at] == before[j].registry@[at.1]);
            assert(keep(before[j].registry@[at.1]));
        }
        if parked_in(before).contains_key(at) {
            let j = choose|j: int| holds(before, j, at);
            lemma_parked(before, j);
            assert(after[j].op@ == at.0);
            lemma_parked(after, j);
            assert(before[j].registry@.contains_key(at.1));
            assert(parked_in(before)[at] == before[j].registry@[at.1]);
            assert(after[j].registry@.contains_key(at.1) <==> keep(before[j].registry@[at.1]));
        }
    }
}

/// Keys of one op method, with its name.
spec fn in_op<K>(op: Seq<char>, keys: Seq<K>) -> Seq<(Seq<char>, K)> {
    keys.map_values(|key: K| (op, key))
}

/// Whether `taken` lists, each once, the entries of the first registries
/// for which a condition holds.
spec fn taken_from<K, R>(
    registries: Seq<Named<K, R>>,
    entries: Map<(Seq<char>, K), Entry<R>>,
    count: int,
    condition: spec_fn(Entry<R>) -> bool,
    taken: Seq<(Seq<char>, K)>,
) -> bool {
    &&& taken.no_duplicates()
    &&& forall|at: (Seq<char>, K)| #[trigger]
        taken.contains(at) <==> entries.contains_key(at) && condition(entries[at]) && exists|j: int|
            0 <= j < count && #[trigger] registries[j].op@ == at.0
}

/// The entries of one more registry extend what was taken.
proof fn lemma_taken<K, R>(
    registries: Seq<Named<K, R>>,
    i: int,
    condition: spec_fn(Entry<R>) -> bool,
    taken: Seq<(Seq<char>, K)>,
    keys: Seq<K>,
)
    requires
        one_per_op(registries),
        0 <= i < registries.len(),
        taken_from(registries, parked_in(registries), i, condition, taken),
        keys.no_duplicates(),
        forall|key: K| #[trigger]
            keys.contains(key) <==> registries[i].registry@.contains_key(key) && condition(
                registries[i].registry@[key],
            ),
    ensures
        taken_from(
            registries,
            parked_in(registries),
            i + 1,
            condition,
            taken + in_op(registries[i].op@, keys),
        ),
{
    let entries = parked_in(registries);
    let op = registries[i].op@;
    let more = taken + in_op(op, keys);
    lemma_parked(registries, i);
    assert forall|a: int, b: int| 0 <= a < more.len() && 0 <= b < more.len() && a != b implies more[a]
        != more[b] by {
        if a < taken.len() && b >= taken.len() {
            assert(taken.contains(more[a]));
        }
        if b < taken.len() && a >= taken.len() {
            assert(taken.contains(more[b]));
        }
    }
    assert forall|at: (Seq<char>, K)| #[trigger] more.contains(at) <==> entries.contains_key(at)
        && condition(entries[at]) && exists|j: int|
        0 <= j < i + 1 && #[trigger] registries[j].op@ == at.0 by {
        if more.contains(at) {
            let m = choose|m: int| 0 <= m < more.len() && more[m] == at;
            if m < taken.len() {
                assert(taken.contains(at));
            } else {
                let key = keys[m - taken.len()];
                assert(keys.contains(key));
                assert(registries[i].op@ == at.0);
            }
        }
        if entries.contains_key(at) && condition(entries[at]) {
            if taken.contains(at) {
                let m = choose|m: int| 0 <= m < taken.len() && taken[m] == at;
                assert(more[m] == at);
            } else if op == at.0 {
                assert(registries[i].registry@.contains_key(at.1));
                assert(keys.contains(at.1));
                let m = choose|m: int| 0 <= m < keys.len() && keys[m] == at.1;
                assert(more[taken.len() + m] == at);
            }
        }
    }
}

impl<K: Ord + Clone, R> OpsCell<K, R> {
    /// The clock whose time operations start and conclude at.
    pub closed spec fn clock(&self) -> Clock {
        self.clock
    }

    /// What every call on a cell keeps: an operation that has concluded never
    /// changes, one that concludes does so at the clock's time, its conclusion
    /// is pushed to its followers once, and the cell keeps its clock and its
    /// waiters' list.
    pub open spec fn kept(&self, ops: OpTable<R>, before: Self, ops_before: OpTable<R>) -> bool {
        &&& ops.kept(ops_before)
        &&& forall|id: u64| #[trigger]
            ops_before.pending(id) && !ops.pending(id) ==> self.clock().reads(ops@[id].entered())
        &&& self.clock() == before.clock()
        &&& self.waiters().list() == before.waiters().list()
    }

    /// The parked operations, by op method and key.
    pub closed spec fn parked(&self) -> Map<(Seq<char>, K), Entry<R>> {
        parked_in(self.registries@)
    }

    /// The conclusions queued and not yet applied.
    pub closed spec fn queue(&self) -> Seq<Conclusion<R>> {
        self.conclusions@
    }

    /// The waiters that are woken when an operation with a deadline is
    /// parked.
    pub closed spec fn waiters(&self) -> Wake<()> {
        self.wake
    }

    /// Whether the cell takes no more operations.
    pub closed spec fn closed(&self) -> bool {
        self.closed
    }

    /// Whether the registries are each in order.
    pub closed spec fn indexed(&self) -> bool {
        &&& one_per_op(self.registries@)
        &&& forall|i: int|
            0 <= i < self.registries.len() ==> (#[trigger] self.registries@[i]).registry.wf()
    }

    /// Whether an operation's resolver is parked in the cell.
    pub open spec fn parks(&self, id: u64) -> bool {
        exists|at: (Seq<char>, K)| #[trigger]
            self.parked().contains_key(at) && self.parked()[at].resolver.id() == id
    }

    /// Whether an operation's resolver is queued in the cell.
    pub open spec fn queues(&self, id: u64) -> bool {
        crate::op::concludes(self.queue(), id)
    }

    /// Whether an operation awaits its outcome while its resolver is
    /// outside the cell.
    pub open spec fn loose(&self, ops: OpTable<R>, id: u64) -> bool {
        ops.pending(id) && !self.parks(id) && !self.queues(id)
    }

    /// Whether every operation whose resolver is in the cell is pending in a
    /// table and has one resolver there.
    pub open spec fn wf(&self, ops: OpTable<R>) -> bool {
        &&& self.indexed()
        &&& ops.wf()
        &&& forall|at: (Seq<char>, K)| #[trigger]
            self.parked().contains_key(at) ==> {
                let id = self.parked()[at].resolver.id();
                &&& ops.awaits(self.parked()[at].resolver)
                &&& carries_deadline(self.parked()[at], ops@[id])
                &&& !self.queues(id)
            }
        &&& forall|a: (Seq<char>, K), b: (Seq<char>, K)| #[trigger]
            self.parked().contains_key(a) && #[trigger] self.parked().contains_key(b) && a != b
                ==> self.parked()[a].resolver.id() != self.parked()[b].resolver.id()
        &&& forall|i: int|
            0 <= i < self.queue().len() ==> ops.awaits((#[trigger] self.queue()[i]).resolver())
        &&& crate::op::one_each(self.queue())
        &&& self.closed() ==> self.parked() == Map::<(Seq<char>, K), Entry<R>>::empty()
    }

    /// Creates a cell without operations.
    pub fn new() -> (cell: Self)
        ensures
            forall|ops: OpTable<R>| ops.wf() ==> #[trigger] cell.wf(ops),
            cell.clock().set(),
            cell.parked() == Map::<(Seq<char>, K), Entry<R>>::empty(),
            cell.queue() == Seq::<Conclusion<R>>::empty(),
            !cell.closed(),
    {
        let cell = OpsCell {
            registries: Vec::new(),
            conclusions: Vec::new(),
            closed: false,
            clock: Clock::new(),
            wake: Wake::new(),
        };
        assert(cell.parked() =~= Map::empty()) by {
            assert forall|at: (Seq<char>, K)| !#[trigger] cell.parked().contains_key(at) by {
                assert(forall|i: int| !holds(cell.registries@, i, at));
            }
        }
        cell
    }

    /// Starts an operation at the clock's time, returning the caller's
    /// handle and the resolver that concludes it.
    pub fn start(&self, ops: &mut OpTable<R>, deadline: Option<Instant>) -> (pair: (
        Op<R>,
        Resolver<R>,
    ))
        requires
            self.wf(*old(ops)),
            old(ops).next_id() < u64::MAX,
        ensures
            self.kept(*final(ops), *self, *old(ops)),
            self.wf(*final(ops)),
            final(ops).next_id() == old(ops).next_id() + 1,
            final(ops).history() == old(ops).history(),
            pair.0.id() == old(ops).next_id(),
            pair.1.id() == old(ops).next_id(),
            self.loose(*final(ops), pair.1.id()),
            final(ops).awaits(pair.1),
            pair.0.of(*final(ops)),
            exists|since: Instant| #[trigger]
                self.clock().reads(since) && final(ops)@ == old(ops)@.insert(
                    pair.0.id(),
                    OpState::Pending { since, deadline },
                ),
    {
        let since = self.clock.now();
        let pair = Op::__rillet_pair(ops, since, deadline);
        assert(self.clock().reads(since));
        proof {
            a_cell_keeps_to_its_own_operations(*self, *old(ops), *ops);
        }
        pair
    }

    /// The position of an op method's registry.
    fn find(&self, op: &str) -> (found: Option<usize>)
        ensures
            match found {
                Some(i) => i < self.registries.len() && self.registries@[i as int].op@ == op@,
                None => forall|i: int|
                    0 <= i < self.registries.len() ==> (#[trigger] self.registries@[i]).op@ != op@,
            },
    {
        let name = op.to_owned();
        for i in 0..self.registries.len()
            invariant
                name@ == op@,
                forall|j: int| 0 <= j < i ==> (#[trigger] self.registries@[j]).op@ != op@,
        {
            if self.registries[i].op == name {
                return Some(i);
            }
        }
        None
    }

    /// The position of an op method's registry, created if there is none.
    fn registry_or_init(&mut self, op: &str) -> (i: usize)
        requires
            old(self).indexed(),
        ensures
            final(self).indexed(),
            final(self).clock() == old(self).clock(),
            final(self).waiters() == old(self).waiters(),
            final(self).parked() == old(self).parked(),
            final(self).queue() == old(self).queue(),
            final(self).closed() == old(self).closed(),
            i < final(self).registries.len(),
            final(self).registries@[i as int].op@ == op@,
    {
        if let Some(i) = self.find(op) {
            return i;
        }
        let i = self.registries.len();
        self.registries.push(Named { op: op.to_owned(), registry: Registry::new() });
        proof {
            let before = old(self).registries@;
            let after = self.registries@;
            assert forall|at: (Seq<char>, K)|
                #![trigger parked_in(after).contains_key(at)]
                #![trigger parked_in(after)[at]]
                parked_in(after).contains_key(at) == parked_in(before).contains_key(at) && (
                parked_in(before).contains_key(at) ==> parked_in(after)[at] == parked_in(
                    before,
                )[at]) by {
                if parked_in(after).contains_key(at) {
                    let j = choose|j: int| holds(after, j, at);
                    assert(j < before.len());
                    assert(holds(before, j, at));
                    lemma_parked(before, j);
                    lemma_parked(after, j);
                    assert(after[j].registry@.contains_key(at.1));
                }
                if parked_in(before).contains_key(at) {
                    let j = choose|j: int| holds(before, j, at);
                    assert(after[j] == before[j]);
                    assert(holds(after, j, at));
                }
            }
            assert(parked_in(after) =~= parked_in(before));
        }
        i
    }

    /// Parks a resolver under a key, with the reason it fails with at its
    /// deadline.
    ///
    /// A resolver already parked under the key is displaced and its
    /// operation concludes as lost; a resolver inserted into a closed cell
    /// concludes as lost at once. The reason is evaluated only for an
    /// operation that is parked and has a deadline.
    pub fn insert<F: FnOnce() -> R>(
        &mut self,
        ops: &mut OpTable<R>,
        op: &str,
        key: K,
        resolver: Resolver<R>,
        timeout_reason: F,
    )
        requires
            crate::registry::lawful_key::<K>(),
            old(self).wf(*old(ops)),
            old(self).loose(*old(ops), resolver.id()),
            old(ops).awaits(resolver),
            !old(self).closed() && old(ops)@[resolver.id()]->deadline is Some
                ==> call_requires(timeout_reason, ()),
        ensures
            final(self).kept(*final(ops), *old(self), *old(ops)),
            final(self).wf(*final(ops)),
            final(ops).next_id() == old(ops).next_id(),
            if !old(self).closed() && old(ops)@[resolver.id()]->deadline is Some {
                final(self).waiters().woken(old(self).waiters())
            } else {
                final(self).waiters().idle(old(self).waiters())
            },
            final(self).queue() == old(self).queue(),
            final(self).closed() == old(self).closed(),
            old(self).closed() ==> {
                &&& final(self).parked() == old(self).parked()
                &&& crate::op::concluded(
                    old(ops)@,
                    final(ops)@,
                    seq![Conclusion::Lose { resolver }],
                )
            },
            !old(self).closed() ==> {
                let entry = final(self).parked()[(op@, key)];
                &&& final(self).parked() == old(self).parked().insert((op@, key), entry)
                &&& entry.resolver == resolver
                &&& carries_deadline(entry, old(ops)@[resolver.id()])
                &&& entry.expiry is Some ==> call_ensures(
                    timeout_reason,
                    (),
                    entry.expiry->0.reason,
                )
                &&& crate::op::concluded(
                    old(ops)@,
                    final(ops)@,
                    displaced(old(self).parked(), (op@, key)),
                )
            },
    {
        if self.closed {
            let at = self.clock.now();
            resolver.lose(ops, at);
            assert(self.parked() == old(self).parked());
            proof {
                lemma_one_concluded(
                    old(ops)@,
                    ops@,
                    Conclusion::Lose { resolver },
                );
            }
            return ;
        }
        let deadline = resolver.deadline(ops);
        let i = self.registry_or_init(op);
        let ghost before = self.registries@;
        let expiry = match deadline {
            Some(at) => Some(Expiry { at, reason: timeout_reason() }),
            None => None,
        };
        let ghost at = (op@, key);
        let ghost entry = Entry { resolver, expiry };
        let earlier = self.registries[i].registry.insert(key, resolver, expiry);
        proof {
            lemma_parked(before, i as int);
            lemma_parked_update(before, self.registries@, i as int, at);
            assert(self.registries@[i as int].registry@ == before[i as int].registry@.insert(
                key,
                entry,
            ));
            assert(parked_in(self.registries@) == parked_in(before).insert(at, entry));
        }
        if let Some(earlier) = earlier {
            assert(before[i as int].registry@.contains_key(key));
            assert(old(self).parked().contains_key(at));
            let now = self.clock.now();
            earlier.lose(ops, now);
            proof {
                lemma_one_concluded(
                    old(ops)@,
                    ops@,
                    Conclusion::Lose { resolver: earlier },
                );
            }
        } else {
            assert(!before[i as int].registry@.contains_key(key));
            assert(!old(self).parked().contains_key(at));
        }
        if deadline.is_some() {
            self.wake.notify_all();
        }
        assert(self.parked() == old(self).parked().insert(at, entry));
    }

    /// Hands out the resolver parked under a key.
    fn take(&mut self, op: &str, key: &K) -> (resolver: Option<Resolver<R>>)
        requires
            crate::registry::lawful_key::<K>(),
            old(self).indexed(),
        ensures
            final(self).indexed(),
            final(self).clock() == old(self).clock(),
            final(self).waiters() == old(self).waiters(),
            final(self).queue() == old(self).queue(),
            final(self).closed() == old(self).closed(),
            final(self).parked() == old(self).parked().remove((op@, *key)),
            resolver == match old(self).parked().get((op@, *key)) {
                Some(entry) => Some(entry.resolver),
                None => None,
            },
    {
        let ghost before = self.registries@;
        let ghost at = (op@, *key);
        match self.find(op) {
            Some(i) => {
                let resolver = self.registries[i].registry.take(key);
                proof {
                    lemma_parked(before, i as int);
                    lemma_parked_update(before, self.registries@, i as int, at);
                    assert(before[i as int].registry@.contains_key(*key)
                        == old(self).parked().contains_key(at));
                }
                resolver
            },
            None => {
                assert(forall|j: int| !holds(before, j, at));
                assert(!self.parked().contains_key(at));
                assert(self.parked() =~= old(self).parked().remove(at));
                None
            },
        }
    }

    /// Queues a successful conclusion for the operation under a key; a key
    /// with no pending operation concludes nothing.
    pub fn succeed(&mut self, op: &str, key: &K)
        requires
            crate::registry::lawful_key::<K>(),
            old(self).indexed(),
        ensures
            final(self).indexed(),
            forall|ops: OpTable<R>| old(self).wf(ops) ==> #[trigger] final(self).wf(ops),
            final(self).waiters() == old(self).waiters(),
            final(self).clock() == old(self).clock(),
            final(self).closed() == old(self).closed(),
            final(self).parked() == old(self).parked().remove((op@, *key)),
            final(self).queue() == match old(self).parked().get((op@, *key)) {
                Some(entry) => old(self).queue().push(
                    Conclusion::Succeed { resolver: entry.resolver },
                ),
                None => old(self).queue(),
            },
    {
        if let Some(resolver) = self.take(op, key) {
            self.conclusions.push(Conclusion::Succeed { resolver });
            proof {
                assert forall|ops: OpTable<R>| old(self).wf(ops) implies #[trigger] self.wf(
                    ops,
                ) by {
                    lemma_queued(*old(self), *self, ops, (op@, *key));
                }
            }
        } else {
            assert(self.parked() =~= old(self).parked());
        }
    }

    /// Queues an unsuccessful conclusion for the operation under a key; a
    /// key with no pending operation concludes nothing.
    pub fn fail(&mut self, op: &str, key: &K, reason: R)
        requires
            crate::registry::lawful_key::<K>(),
            old(self).indexed(),
        ensures
            final(self).indexed(),
            forall|ops: OpTable<R>| old(self).wf(ops) ==> #[trigger] final(self).wf(ops),
            final(self).waiters() == old(self).waiters(),
            final(self).clock() == old(self).clock(),
            final(self).closed() == old(self).closed(),
            final(self).parked() == old(self).parked().remove((op@, *key)),
            final(self).queue() == match old(self).parked().get((op@, *key)) {
                Some(entry) => old(self).queue().push(
                    Conclusion::Fail { resolver: entry.resolver, reason },
                ),
                None => old(self).queue(),
            },
    {
        if let Some(resolver) = self.take(op, key) {
            self.conclusions.push(Conclusion::Fail { resolver, reason });
            proof {
                assert forall|ops: OpTable<R>| old(self).wf(ops) implies #[trigger] self.wf(
                    ops,
                ) by {
                    lemma_queued(*old(self), *self, ops, (op@, *key));
                }
            }
        } else {
            assert(self.parked() =~= old(self).parked());
        }
    }

    /// Queues a conclusion.
    pub fn queue_conclusion(&mut self, conclusion: Conclusion<R>)
        requires
            old(self).indexed(),
        ensures
            final(self).indexed(),
            forall|ops: OpTable<R>|
                old(self).wf(ops) && old(self).loose(ops, conclusion.id()) && ops.awaits(
                    conclusion.resolver(),
                ) ==> #[trigger] final(self).wf(ops),
            final(self).waiters() == old(self).waiters(),
            final(self).clock() == old(self).clock(),
            final(self).closed() == old(self).closed(),
            final(self).parked() == old(self).parked(),
            final(self).queue() == old(self).queue().push(conclusion),
    {
        self.conclusions.push(conclusion);
        assert(self.parked() == old(self).parked());
        assert forall|ops: OpTable<R>|
            old(self).wf(ops) && old(self).loose(ops, conclusion.id()) && ops.awaits(
                conclusion.resolver(),
            ) implies #[trigger] self.wf(ops) by {
            assert forall|at: (Seq<char>, K)| #[trigger]
                self.parked().contains_key(at) implies !self.queues(
                self.parked()[at].resolver.id(),
            ) by {
                assert(old(self).parked().contains_key(at));
            }
        }
    }

    /// Applies every queued conclusion.
    pub fn flush_conclusions(&mut self, ops: &mut OpTable<R>)
        requires
            old(self).wf(*old(ops)),
        ensures
            final(self).kept(*final(ops), *old(self), *old(ops)),
            final(self).wf(*final(ops)),
            final(ops).next_id() == old(ops).next_id(),
            final(self).waiters() == old(self).waiters(),
            final(self).closed() == old(self).closed(),
            final(self).parked() == old(self).parked(),
            final(self).queue() == Seq::<Conclusion<R>>::empty(),
            crate::op::concluded(old(ops)@, final(ops)@, old(self).queue()),
            final(ops).history() == old(ops).history() + crate::op::ids_of(old(self).queue()),
    {
        let mut queued: Vec<Conclusion<R>> = Vec::new();
        std::mem::swap(&mut queued, &mut self.conclusions);
        ops.conclude_all(&self.clock, queued);
        assert(self.parked() == old(self).parked());
    }

    /// The earliest deadline of a parked operation.
    pub fn next_deadline(&self) -> (earliest: Option<Instant>)
        requires
            crate::registry::lawful_key::<K>(),
            self.indexed(),
        ensures
            is_earliest(self.parked(), earliest),
    {
        let ghost all = self.registries@;
        let mut earliest: Option<Instant> = None;
        for i in 0..self.registries.len()
            invariant
                crate::registry::lawful_key::<K>(),
                self.indexed(),
                all == self.registries@,
                match earliest {
                    Some(at) => {
                        &&& exists|p: (Seq<char>, K)| #[trigger]
                            self.parked().contains_key(p) && self.parked()[p].expiry is Some
                                && self.parked()[p].deadline() == at.nanos
                        &&& forall|j: int, k: K|
                            0 <= j < i && #[trigger] all[j].registry@.contains_key(k)
                                && all[j].registry@[k].expiry is Some ==> at.nanos
                                <= all[j].registry@[k].deadline()
                    },
                    None => forall|j: int, k: K|
                        0 <= j < i && #[trigger] all[j].registry@.contains_key(k)
                            ==> all[j].registry@[k].expiry is None,
                },
        {
            let next = self.registries[i].registry.next_deadline();
            proof {
                lemma_parked(all, i as int);
                if let Some(at) = next {
                    let k = choose|k: K| #[trigger]
                        all[i as int].registry@.contains_key(k)
                            && all[i as int].registry@[k].expiry is Some
                            && all[i as int].registry@[k].deadline() == at.nanos;
                    assert(self.parked().contains_key((all[i as int].op@, k)));
                }
            }
            earliest = earlier(earliest, next);
        }
        proof {
            assert forall|p: (Seq<char>, K)| #[trigger] self.parked().contains_key(p) implies exists|
                j: int,
            |
                0 <= j < all.len() && #[trigger] all[j].registry@.contains_key(p.1)
                    && all[j].registry@[p.1] == self.parked()[p] by {
                let j = choose|j: int| holds(all, j, p);
                lemma_parked(all, j);
                assert(all[j].registry@.contains_key(p.1));
            }
        }
        earliest
    }

    /// Fails every operation whose deadline is at or before `now`, each
    /// with its own reason.
    pub fn expire(&mut self, ops: &mut OpTable<R>, now: Instant)
        requires
            crate::registry::lawful_key::<K>(),
            old(self).wf(*old(ops)),
        ensures
            final(self).kept(*final(ops), *old(self), *old(ops)),
            final(self).wf(*final(ops)),
            final(ops).next_id() == old(ops).next_id(),
            final(self).waiters() == old(self).waiters(),
            final(self).queue() == old(self).queue(),
            final(self).closed() == old(self).closed(),
            final(self).parked() == crate::registry::unexpired(old(self).parked(), now),
            expired(old(ops)@, final(ops)@, old(self).parked(), now),
    {
        let ghost before = self.registries@;
        let ghost entries = parked_in(before);
        let ghost mut due: Seq<(Seq<char>, K)> = Seq::empty();
        let mut failed: Vec<Conclusion<R>> = Vec::new();
        let count = self.registries.len();
        for i in 0..count
            invariant
                count == before.len(),
                crate::registry::lawful_key::<K>(),
                self.indexed(),
                *ops == *old(ops),
                self.clock == old(self).clock,
                self.conclusions == old(self).conclusions,
                self.wake == old(self).wake,
                self.closed == old(self).closed,
                one_per_op(before),
                entries == parked_in(before),
                self.registries.len() == before.len(),
                forall|j: int|
                    0 <= j < i ==> (#[trigger] self.registries@[j]).op@ == before[j].op@
                        && self.registries@[j].registry@ == crate::registry::unexpired(
                        before[j].registry@,
                        now,
                    ),
                forall|j: int| i <= j < before.len() ==> #[trigger] self.registries@[j] == before[j],
                taken_from(before, entries, i as int, |e: Entry<R>| e.due(now), due),
                failed@ == crate::registry::failures(entries, due),
        {
            let ghost this = before[i as int];
            assert(self.registries@[i as int] == this);
            let mut part = self.registries[i].registry.expire(now);
            proof {
                let keys = choose|keys: Seq<K>| #[trigger]
                    crate::registry::due_in_order(this.registry@, now, keys) && part@
                        == crate::registry::failures(this.registry@, keys);
                let more = due + in_op(this.op@, keys);
                lemma_parked(before, i as int);
                lemma_taken(before, i as int, |e: Entry<R>| e.due(now), due, keys);
                assert(failed@ + part@ =~= crate::registry::failures(entries, more)) by {
                    assert forall|m: int| 0 <= m < keys.len() implies this.registry@[#[trigger] keys[m]]
                        == entries[(this.op@, keys[m])] by {
                        assert(this.registry@.contains_key(keys[m]));
                    }
                }
                due = more;
            }
            failed.append(&mut part);
        }
        proof {
            let after = self.registries@;
            lemma_filtered(before, after, |e: Entry<R>| !e.due(now));
            assert(parked_in(after) =~= crate::registry::unexpired(entries, now));
            assert forall|at: (Seq<char>, K)| #[trigger] entries.contains_key(at) implies exists|
                j: int,
            |
                0 <= j < count && #[trigger] before[j].op@ == at.0 by {
                let j = choose|j: int| holds(before, j, at);
                assert(before[j].op@ == at.0);
            }
            assert(lists(due, entries, |e: Entry<R>| e.due(now)));
            lemma_entries_concluded(*old(self), *old(ops), due, failed@);
        }
        ops.conclude_all(&self.clock, failed);
        proof {
            lemma_expired(old(ops)@, ops@, entries, now, due);
            assert(self.parked() == crate::registry::unexpired(old(self).parked(), now));
            assert forall|at: (Seq<char>, K)| #[trigger] self.parked().contains_key(at) implies {
                let id = self.parked()[at].resolver.id();
                ops@[id] == old(ops)@[id] && old(self).parked().contains_key(at)
            } by {
                assert(!due.contains(at));
            }
            if self.closed() {
                assert(self.parked() =~= Map::empty());
            }
        }
    }

    /// Closes the cell: every parked operation concludes as lost, and so
    /// does every operation inserted afterwards.
    pub fn close(&mut self, ops: &mut OpTable<R>)
        requires
            crate::registry::lawful_key::<K>(),
            old(self).wf(*old(ops)),
        ensures
            final(self).kept(*final(ops), *old(self), *old(ops)),
            final(self).wf(*final(ops)),
            final(self).closed(),
            final(ops).next_id() == old(ops).next_id(),
            final(self).waiters() == old(self).waiters(),
            final(self).queue() == old(self).queue(),
            final(self).parked() == Map::<(Seq<char>, K), Entry<R>>::empty(),
            given_up(old(ops)@, final(ops)@, old(self).parked()),
    {
        self.closed = true;
        let ghost before = self.registries@;
        let ghost entries = parked_in(before);
        let ghost mut all: Seq<(Seq<char>, K)> = Seq::empty();
        let mut lost: Vec<Conclusion<R>> = Vec::new();
        let count = self.registries.len();
        for i in 0..count
            invariant
                count == before.len(),
                crate::registry::lawful_key::<K>(),
                self.indexed(),
                *ops == *old(ops),
                self.clock == old(self).clock,
                self.conclusions == old(self).conclusions,
                self.wake == old(self).wake,
                self.closed,
                one_per_op(before),
                entries == parked_in(before),
                self.registries.len() == before.len(),
                forall|j: int|
                    0 <= j < i ==> (#[trigger] self.registries@[j]).op@ == before[j].op@
                        && self.registries@[j].registry@ == Map::<K, Entry<R>>::empty(),
                forall|j: int| i <= j < before.len() ==> #[trigger] self.registries@[j] == before[j],
                taken_from(before, entries, i as int, |e: Entry<R>| true, all),
                lost@ == crate::registry::losses(entries, all),
        {
            let ghost this = before[i as int];
            assert(self.registries@[i as int] == this);
            let mut part = self.registries[i].registry.drain();
            proof {
                let keys = choose|keys: Seq<K>| #[trigger]
                    crate::registry::all_in_order(this.registry@, keys) && part@
                        == crate::registry::losses(this.registry@, keys);
                let more = all + in_op(this.op@, keys);
                assert forall|key: K| #[trigger] keys.contains(key) <==> this.registry@.contains_key(
                    key,
                ) by {
                    assert(keys.to_set().contains(key) <==> keys.contains(key));
                }
                lemma_parked(before, i as int);
                lemma_taken(before, i as int, |e: Entry<R>| true, all, keys);
                assert(lost@ + part@ =~= crate::registry::losses(entries, more)) by {
                    assert forall|m: int| 0 <= m < keys.len() implies this.registry@[#[trigger] keys[m]]
                        == entries[(this.op@, keys[m])] by {
                        assert(keys.contains(keys[m]));
                        assert(this.registry@.contains_key(keys[m]));
                    }
                }
                all = more;
            }
            lost.append(&mut part);
        }
        proof {
            let after = self.registries@;
            lemma_filtered(before, after, |e: Entry<R>| false);
            assert(parked_in(after) =~= Map::empty());
            assert forall|at: (Seq<char>, K)| #[trigger] entries.contains_key(at) implies exists|
                j: int,
            |
                0 <= j < count && #[trigger] before[j].op@ == at.0 by {
                let j = choose|j: int| holds(before, j, at);
                assert(before[j].op@ == at.0);
            }
            assert(lists(all, entries, |e: Entry<R>| true));
            lemma_entries_concluded(*old(self), *old(ops), all, lost@);
        }
        ops.conclude_all(&self.clock, lost);
        proof {
            lemma_given_up(old(ops)@, ops@, entries, all);
            assert(self.parked() == Map::<(Seq<char>, K), Entry<R>>::empty());
        }
    }

    /// Registers a waiter, which fires when an operation with a deadline is
    /// parked.
    pub fn listen(&self) -> (listener: Listener)
        ensures
            listener.list() == self.waiters().list(),
    {
        self.wake.listen()
    }

    /// What the expiry loop does next: it ends once cancelled, and
    /// otherwise waits for the earliest deadline.
    pub fn expire_wait(&self, cancelled: bool) -> (step: ExpireStep)
        requires
            crate::registry::lawful_key::<K>(),
            self.indexed(),
        ensures
            match step {
                ExpireStep::Stop => cancelled,
                ExpireStep::Wait { until } => !cancelled && is_earliest(self.parked(), until),
            },
    {
        if cancelled {
            ExpireStep::Stop
        } else {
            ExpireStep::Wait { until: self.next_deadline() }
        }
    }

    /// What the expiry loop does after a wait: it ends once cancelled, and
    /// otherwise fails what is overdue and goes on.
    pub fn expire_woken(
        &mut self,
        ops: &mut OpTable<R>,
        cancelled: bool,
        now: Instant,
    ) -> (goes_on: bool)
        requires
            crate::registry::lawful_key::<K>(),
            old(self).wf(*old(ops)),
        ensures
            final(self).kept(*final(ops), *old(self), *old(ops)),
            goes_on == !cancelled,
            cancelled ==> *final(self) == *old(self) && *final(ops) == *old(ops),
            final(self).wf(*final(ops)),
            final(ops).next_id() == old(ops).next_id(),
            final(self).waiters() == old(self).waiters(),
            final(self).queue() == old(self).queue(),
            final(self).closed() == old(self).closed(),
            !cancelled ==> {
                &&& final(self).parked() == crate::registry::unexpired(old(self).parked(), now)
                &&& expired(old(ops)@, final(ops)@, old(self).parked(), now)
            },
    {
        if cancelled {
            return false;
        }
        self.expire(ops, now);
        true
    }
}

impl<K: Ord + Clone, R> Default for OpsCell<K, R> {
    fn default() -> (cell: Self)
        ensures
            forall|ops: OpTable<R>| ops.wf() ==> #[trigger] cell.wf(ops),
            cell.clock().set(),
            cell.parked() == Map::<(Seq<char>, K), Entry<R>>::empty(),
            cell.queue() == Seq::<Conclusion<R>>::empty(),
            !cell.closed(),
    {
        OpsCell::new()
    }
}

/// Conclusions for distinct parked entries conclude distinct pending
/// operations, and no others of the cell.
proof fn lemma_entries_concluded<K: Ord + Clone, R>(
    cell: OpsCell<K, R>,
    ops: OpTable<R>,
    sources: Seq<(Seq<char>, K)>,
    conclusions: Seq<Conclusion<R>>,
)
    requires
        cell.wf(ops),
        sources.no_duplicates(),
        forall|at: (Seq<char>, K)| #[trigger]
            sources.contains(at) ==> cell.parked().contains_key(at),
        conclusions.len() == sources.len(),
        forall|i: int|
            0 <= i < sources.len() ==> (#[trigger] conclusions[i]).resolver()
                == cell.parked()[sources[i]].resolver,
    ensures
        crate::op::one_each(conclusions),
        forall|i: int|
            0 <= i < conclusions.len() ==> ops.awaits(
                (#[trigger] conclusions[i]).resolver(),
            ),
        forall|at: (Seq<char>, K)|
            #![trigger cell.parked().contains_key(at)]
            cell.parked().contains_key(at) && !sources.contains(at) ==> !crate::op::concludes(
                conclusions,
                cell.parked()[at].resolver.id(),
            ),
        forall|i: int|
            #![trigger cell.queue()[i]]
            0 <= i < cell.queue().len() ==> !crate::op::concludes(
                conclusions,
                cell.queue()[i].id(),
            ),
{
    assert forall|i: int| 0 <= i < sources.len() implies cell.parked().contains_key(
        #[trigger] sources[i],
    ) by {
        assert(sources.contains(sources[i]));
    }
    assert forall|i: int, j: int|
        #![trigger conclusions[i], conclusions[j]]
        0 <= i < j < conclusions.len() implies conclusions[i].id() != conclusions[j].id() by {
        assert(sources[i] != sources[j]);
    }
    assert forall|i: int| 0 <= i < conclusions.len() implies ops.awaits(
        (#[trigger] conclusions[i]).resolver(),
    ) by {
        assert(cell.parked().contains_key(sources[i]));
    }
    assert forall|at: (Seq<char>, K)|
        #![trigger cell.parked().contains_key(at)]
        cell.parked().contains_key(at) && !sources.contains(at) implies !crate::op::concludes(
        conclusions,
        cell.parked()[at].resolver.id(),
    ) by {
        let id = cell.parked()[at].resolver.id();
        if crate::op::concludes(conclusions, id) {
            let i = choose|i: int|
                0 <= i < conclusions.len() && (#[trigger] conclusions[i]).id() == id;
            assert(sources.contains(sources[i]));
            assert(cell.parked().contains_key(sources[i]));
        }
    }
    assert forall|i: int|
        #![trigger cell.queue()[i]]
        0 <= i < cell.queue().len() implies !crate::op::concludes(
        conclusions,
        cell.queue()[i].id(),
    ) by {
        let id = cell.queue()[i].id();
        if crate::op::concludes(conclusions, id) {
            let m = choose|m: int|
                0 <= m < conclusions.len() && (#[trigger] conclusions[m]).id() == id;
            assert(cell.parked().contains_key(sources[m]));
            assert(cell.queues(id));
        }
    }
}

/// Moving a parked resolver to the end of the queue keeps a cell in order.
proof fn lemma_queued<K: Ord + Clone, R>(
    before: OpsCell<K, R>,
    after: OpsCell<K, R>,
    ops: OpTable<R>,
    at: (Seq<char>, K),
)
    requires
        before.wf(ops),
        after.indexed(),
        after.closed() == before.closed(),
        before.parked().contains_key(at),
        after.parked() == before.parked().remove(at),
        after.queue().len() == before.queue().len() + 1,
        after.queue() == before.queue().push(after.queue().last()),
        after.queue().last().resolver() == before.parked()[at].resolver,
    ensures
        after.wf(ops),
{
    assert forall|p: (Seq<char>, K)| #[trigger] after.parked().contains_key(p) implies !after.queues(
        after.parked()[p].resolver.id(),
    ) by {
        assert(before.parked().contains_key(p));
    }
}

/// A key under which nothing is parked, because its operation has concluded
/// or never started, is left alone: taking it out changes nothing.
pub proof fn a_late_outcome_changes_nothing<K: Ord + Clone, R>(
    cell: OpsCell<K, R>,
    at: (Seq<char>, K),
)
    requires
        !cell.parked().contains_key(at),
    ensures
        cell.parked().remove(at) == cell.parked(),
        cell.parked().get(at) is None,
{
    assert(cell.parked().remove(at) =~= cell.parked());
}

/// Once a cell is closed and flushed, every operation that is still pending
/// has its resolver elsewhere.
pub proof fn a_closed_cell_leaves_nothing_pending<K: Ord + Clone, R>(
    cell: OpsCell<K, R>,
    ops: OpTable<R>,
    id: u64,
)
    requires
        cell.wf(ops),
        cell.closed(),
        cell.queue().len() == 0,
        ops.pending(id),
    ensures
        cell.loose(ops, id),
{
}

/// An operation that is parked, queued or neither is never two of them: its
/// one resolver is in one place.
pub proof fn a_resolver_is_in_one_place<K: Ord + Clone, R>(
    cell: OpsCell<K, R>,
    ops: OpTable<R>,
    id: u64,
)
    requires
        cell.wf(ops),
        ops.pending(id),
    ensures
        cell.parks(id) ==> !cell.queues(id) && !cell.loose(ops, id),
        cell.queues(id) ==> !cell.parks(id) && !cell.loose(ops, id),
        cell.parks(id) || cell.queues(id) || cell.loose(ops, id),
{
}

/// Once what was due at an instant has expired, the next deadline lies
/// behind that instant.
pub proof fn expiry_leaves_only_later_deadlines<A, R>(
    entries: Map<A, Entry<R>>,
    now: Instant,
    earliest: Instant,
)
    requires
        is_earliest(crate::registry::unexpired(entries, now), Some(earliest)),
    ensures
        now.nanos < earliest.nanos,
{
    let left = crate::registry::unexpired(entries, now);
    let at = choose|at: A| #[trigger]
        left.contains_key(at) && left[at].expiry is Some && left[at].deadline() == earliest.nanos;
    assert(left.contains_key(at));
}

/// Cells that share a table do not disturb each other: a cell stays in order
/// while the operations whose resolvers it holds stay as they are.
pub proof fn a_cell_keeps_to_its_own_operations<K: Ord + Clone, R>(
    cell: OpsCell<K, R>,
    before: OpTable<R>,
    after: OpTable<R>,
)
    requires
        cell.wf(before),
        after.wf(),
        after.follows(before),
        forall|id: u64| #[trigger]
            before.pending(id) && (cell.parks(id) || cell.queues(id)) ==> after@.contains_key(id)
                && after@[id] == before@[id],
    ensures
        cell.wf(after),
{
    assert forall|at: (Seq<char>, K)| #[trigger] cell.parked().contains_key(at) implies {
        &&& after.awaits(cell.parked()[at].resolver)
        &&& after@[cell.parked()[at].resolver.id()] == before@[cell.parked()[at].resolver.id()]
    } by {
        assert(before.pending(cell.parked()[at].resolver.id()));
    }
    assert forall|i: int| 0 <= i < cell.queue().len() implies after.awaits(
        (#[trigger] cell.queue()[i]).resolver(),
    ) by {
        assert(before.awaits(cell.queue()[i].resolver()));
        assert(before.pending(cell.queue()[i].id()));
    }
}

/// Queued conclusions are applied once each, in the order in which they were
/// queued: a flush appends them to the history, and another flush with
/// nothing queued in between appends nothing.
pub proof fn conclusions_are_applied_in_order<R>(
    before: OpTable<R>,
    between: OpTable<R>,
    after: OpTable<R>,
    queue: Seq<Conclusion<R>>,
)
    requires
        between.history() == before.history() + crate::op::ids_of(queue),
        after.history() == between.history() + crate::op::ids_of(Seq::<Conclusion<R>>::empty()),
    ensures
        after.history() == before.history() + crate::op::ids_of(queue),
        forall|i: int|
            0 <= i < queue.len() ==> after.history()[before.history().len() + i] == (
            #[trigger] queue[i]).id(),
{
    assert(after.history() =~= between.history());
    assert forall|i: int| 0 <= i < queue.len() implies after.history()[before.history().len() + i]
        == (#[trigger] queue[i]).id() by {
        assert(crate::op::ids_of(queue)[i] == queue[i].id());
    }
}

/// The expiry loop waits no longer than to the deadline of any parked
/// operation, and finds it failed with its own reason once it looks after
/// that.
pub proof fn a_parked_operation_expires_by_its_deadline<A, R>(
    before: Map<u64, OpState<R>>,
    after: Map<u64, OpState<R>>,
    entries: Map<A, Entry<R>>,
    at: A,
    until: Option<Instant>,
    now: Instant,
)
    requires
        entries.contains_key(at),
        entries[at].expiry is Some,
        is_earliest(entries, until),
        expired(before, after, entries, now),
        entries[at].deadline() <= now.nanos,
    ensures
        until is Some,
        until->0.nanos <= entries[at].deadline(),
        after[entries[at].resolver.id()] is Failed,
        after[entries[at].resolver.id()]->reason == entries[at].expiry->0.reason,
{
    assert(entries[at].due(now));
}

/// Parking an operation where another is parked loses the other and no one
/// else; parking it where none is changes no operation.
pub proof fn a_displaced_operation_is_lost<K, R>(
    before: Map<u64, OpState<R>>,
    after: Map<u64, OpState<R>>,
    parked: Map<(Seq<char>, K), Entry<R>>,
    at: (Seq<char>, K),
    other: u64,
)
    requires
        crate::op::concluded(before, after, displaced(parked, at)),
        before.contains_key(other),
    ensures
        after.dom() == before.dom(),
        parked.contains_key(at) ==> after[parked[at].resolver.id()] is Lost,
        parked.contains_key(at) && other != parked[at].resolver.id() ==> after[other]
            == before[other],
        !parked.contains_key(at) ==> after[other] == before[other],
{
    let conclusions = displaced(parked, at);
    if parked.contains_key(at) {
        assert(conclusions[0].reached(after[conclusions[0].id()]));
    }
    if !parked.contains_key(at) || other != parked[at].resolver.id() {
        assert(!crate::op::concludes(conclusions, other));
    }
}

/// A parked operation carries the deadline that it was started with, and no
/// operation that has concluded is parked.
pub proof fn a_parked_operation_carries_its_deadline<R>(entry: Entry<R>, state: OpState<R>)
    requires
        carries_deadline(entry, state),
    ensures
        state is Pending,
        state->deadline == (match entry.expiry {
            Some(expiry) => Some(expiry.at),
            None => None,
        }),
{
}

/// An operation whose deadline lies ahead, one that has none and one that is
/// not parked stay as they are when others expire.
pub proof fn only_overdue_operations_expire<A, R>(
    before: Map<u64, OpState<R>>,
    after: Map<u64, OpState<R>>,
    entries: Map<A, Entry<R>>,
    now: Instant,
    id: u64,
)
    requires
        expired(before, after, entries, now),
        before.contains_key(id),
        forall|at: A| #[trigger]
            entries.contains_key(at) && entries[at].resolver.id() == id ==> entries[at].expiry is None
                || entries[at].expiry->0.at.nanos > now.nanos,
    ensures
        after.contains_key(id),
        after[id] == before[id],
{
    assert(after.dom().contains(id));
}

/// Closing a cell loses every operation that is parked in it and no other.
pub proof fn closing_loses_what_is_parked<A, R>(
    before: Map<u64, OpState<R>>,
    after: Map<u64, OpState<R>>,
    entries: Map<A, Entry<R>>,
    at: A,
    other: u64,
)
    requires
        given_up(before, after, entries),
        entries.contains_key(at),
        before.contains_key(other),
        forall|a: A| #[trigger] entries.contains_key(a) ==> entries[a].resolver.id() != other,
    ensures
        after.dom() == before.dom(),
        after[entries[at].resolver.id()] is Lost,
        after[other] == before[other],
{
}

} // verus!
