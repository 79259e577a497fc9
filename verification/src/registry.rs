//! The registry behind one op method's deferred operations.
//!
//! A registry parks resolvers by key. Those with a deadline are also kept
//! in the order in which they expire.

use crate::op::{Conclusion, Resolver};
use crate::time::Instant;
use std::collections::{BTreeMap, BTreeSet};
use vstd::prelude::*;

verus! {

broadcast use vstd::laws_cmp::group_laws_cmp;

/// What a registry asks of its keys: that they order lawfully and that a
/// clone is equal to what it was cloned from.
pub open spec fn lawful_key<K: Ord + Clone>() -> bool {
    &&& vstd::laws_cmp::obeys_cmp::<K>()
    &&& forall|a: K, b: K| #[trigger] cloned::<K>(a, b) ==> a == b
}

/// Whether one key comes before another.
pub open spec fn key_less<K: Ord>(a: K, b: K) -> bool {
    vstd::std_specs::cmp::OrdSpec::cmp_spec(&a, &b) is Less
}

/// When an operation expires and the reason it then fails with.
pub struct Expiry<R> {
    pub at: Instant,
    pub reason: R,
}

/// A parked resolver.
#[verifier::reject_recursive_types(R)]
pub struct Entry<R> {
    pub resolver: Resolver<R>,
    pub expiry: Option<Expiry<R>>,
}

impl<R> Entry<R> {
    /// Whether the operation has a deadline at or before `now`.
    pub open spec fn due(self, now: Instant) -> bool {
        self.expiry is Some && self.deadline() <= now.nanos
    }

    /// The deadline of an operation that has one.
    pub open spec fn deadline(self) -> u64
        recommends
            self.expiry is Some,
    {
        self.expiry.unwrap().at.nanos
    }
}

/// The parked resolvers of one op method.
#[verifier::reject_recursive_types(R)]
pub struct Registry<K, R> {
    by_key: BTreeMap<K, Entry<R>>,
    deadlines: BTreeSet<(u64, K)>,
}

impl<K, R> View for Registry<K, R> {
    type V = Map<K, Entry<R>>;

    /// The parked entries, by key.
    closed spec fn view(&self) -> Map<K, Entry<R>> {
        self.by_key@
    }
}

/// Whether `keys` are the keys of the due entries, each once, by deadline
/// and then by key.
pub open spec fn due_in_order<K: Ord, R>(
    entries: Map<K, Entry<R>>,
    now: Instant,
    keys: Seq<K>,
) -> bool {
    &&& keys.no_duplicates()
    &&& forall|i: int|
        0 <= i < keys.len() ==> entries.contains_key(#[trigger] keys[i]) && entries[keys[i]].due(
            now,
        )
    &&& forall|k: K| #[trigger]
        entries.contains_key(k) && entries[k].due(now) ==> keys.contains(k)
    &&& forall|i: int, j: int|
        #![trigger keys[i], keys[j]]
        0 <= i < j < keys.len() ==> expires_before(entries, keys[i], keys[j])
}

/// Whether one of two entries with deadlines expires before the other.
pub open spec fn expires_before<K: Ord, R>(entries: Map<K, Entry<R>>, a: K, b: K) -> bool {
    let first = entries[a].deadline();
    let second = entries[b].deadline();
    first < second || (first == second && key_less(a, b))
}

/// Whether `keys` are the keys of all entries, each once, in their order.
pub open spec fn all_in_order<K: Ord, R>(entries: Map<K, Entry<R>>, keys: Seq<K>) -> bool {
    &&& keys.no_duplicates()
    &&& keys.to_set() == entries.dom()
    &&& forall|i: int, j: int|
        #![trigger keys[i], keys[j]]
        0 <= i < j < keys.len() ==> key_less(keys[i], keys[j])
}

/// The entries that stay parked when those due at `now` leave.
pub open spec fn unexpired<K, R>(entries: Map<K, Entry<R>>, now: Instant) -> Map<K, Entry<R>> {
    Map::new(|k: K| entries.contains_key(k) && !entries[k].due(now), |k: K| entries[k])
}

/// What becomes of expired entries: each fails with its own reason.
pub open spec fn failures<K, R>(entries: Map<K, Entry<R>>, keys: Seq<K>) -> Seq<Conclusion<R>> {
    keys.map_values(
        |k: K|
            Conclusion::Fail {
                resolver: entries[k].resolver,
                reason: entries[k].expiry.unwrap().reason,
            },
    )
}

/// What becomes of entries that are given up: each is lost.
pub open spec fn losses<K, R>(entries: Map<K, Entry<R>>, keys: Seq<K>) -> Seq<Conclusion<R>> {
    keys.map_values(|k: K| Conclusion::Lose { resolver: entries[k].resolver })
}

/// In an increasing sequence an earlier item is less than a later one.
proof fn lemma_increasing<T: Ord>(s: Seq<T>, i: int, j: int)
    requires
        vstd::laws_cmp::obeys_cmp::<T>(),
        vstd::std_specs::btree::increasing_seq(s),
        0 <= i < j < s.len(),
    ensures
        key_less(s[i], s[j]),
{
}

/// No key comes before itself.
proof fn lemma_key_less_irreflexive<K: Ord>(a: K)
    requires
        vstd::laws_cmp::obeys_cmp::<K>(),
    ensures
        !key_less(a, a),
{
    reveal(vstd::laws_cmp::obeys_partial_cmp_spec_properties);
    reveal(vstd::laws_cmp::obeys_cmp_ord);
}

/// Once nothing due is left, what was taken is all that was due.
proof fn lemma_expired<K: Ord, R>(
    entries: Map<K, Entry<R>>,
    now: Instant,
    keys: Seq<K>,
    left: Map<K, Entry<R>>,
)
    requires
        keys.no_duplicates(),
        left == entries.remove_keys(keys.to_set()),
        forall|i: int|
            0 <= i < keys.len() ==> entries.contains_key(#[trigger] keys[i]) && entries[keys[i]].due(
                now,
            ),
        forall|i: int, j: int|
            #![trigger keys[i], keys[j]]
            0 <= i < j < keys.len() ==> expires_before(entries, keys[i], keys[j]),
        forall|k: K| #[trigger] left.contains_key(k) ==> !left[k].due(now),
    ensures
        left == unexpired(entries, now),
        due_in_order(entries, now, keys),
{
    assert forall|k: K| #[trigger]
        entries.contains_key(k) && entries[k].due(now) implies keys.contains(k) by {
        if !keys.contains(k) {
            assert(left.contains_key(k));
        }
    }
    assert(left =~= unexpired(entries, now)) by {
        assert forall|k: K| keys.to_set().contains(k) implies entries[k].due(now) by {
            let i = choose|i: int| 0 <= i < keys.len() && keys[i] == k;
        }
    }
}

impl<K: Ord + Clone, R> Registry<K, R> {
    /// Whether the deadlines kept in order are exactly those of the
    /// entries.
    pub closed spec fn wf(&self) -> bool {
        forall|nanos: u64, key: K| #[trigger]
            self.deadlines@.contains((nanos, key)) <==> (self.by_key@.contains_key(key)
                && self.by_key@[key].expiry is Some && self.by_key@[key].deadline() == nanos)
    }

    /// Creates an empty registry.
    pub fn new() -> (registry: Self)
        ensures
            registry.wf(),
            registry@ == Map::<K, Entry<R>>::empty(),
    {
        Registry { by_key: BTreeMap::new(), deadlines: BTreeSet::new() }
    }

    /// Removes an entry and its deadline.
    fn remove(&mut self, key: &K) -> (entry: Option<Entry<R>>)
        requires
            lawful_key::<K>(),
            old(self).wf(),
        ensures
            final(self).wf(),
            final(self)@ == old(self)@.remove(*key),
            entry == old(self)@.get(*key),
    {
        match self.by_key.remove(key) {
            Some(entry) => {
                if let Some(expiry) = &entry.expiry {
                    let nanos: u64 = expiry.at.nanos;
                    let copy = key.clone();
                    assert(cloned(*key, copy));
                    self.deadlines.remove(&(nanos, copy));
                }
                Some(entry)
            },
            None => {
                assert(old(self)@.remove(*key) =~= old(self)@);
                None
            },
        }
    }

    /// Parks a resolver under a key, handing back the one it displaces.
    pub fn insert(&mut self, key: K, resolver: Resolver<R>, expiry: Option<Expiry<R>>) -> (
        displaced: Option<Resolver<R>>)
        requires
            lawful_key::<K>(),
            old(self).wf(),
        ensures
            final(self).wf(),
            final(self)@ == old(self)@.insert(key, Entry { resolver, expiry }),
            displaced == match old(self)@.get(key) {
                Some(entry) => Some(entry.resolver),
                None => None,
            },
    {
        let displaced = match self.remove(&key) {
            Some(entry) => Some(entry.resolver),
            None => None,
        };
        if let Some(expiry) = &expiry {
            let nanos: u64 = expiry.at.nanos;
            let copy = key.clone();
            assert(cloned(key, copy));
            self.deadlines.insert((nanos, copy));
        }
        self.by_key.insert(key, Entry { resolver, expiry });
        assert(self@ =~= old(self)@.insert(key, Entry { resolver, expiry }));
        displaced
    }

    /// Hands out the resolver parked under a key.
    pub fn take(&mut self, key: &K) -> (resolver: Option<Resolver<R>>)
        requires
            lawful_key::<K>(),
            old(self).wf(),
        ensures
            final(self).wf(),
            final(self)@ == old(self)@.remove(*key),
            resolver == match old(self)@.get(*key) {
                Some(entry) => Some(entry.resolver),
                None => None,
            },
    {
        match self.remove(key) {
            Some(entry) => Some(entry.resolver),
            None => None,
        }
    }

    /// The deadline that expires first, with its key.
    fn first(&self) -> (first: Option<(u64, K)>)
        requires
            lawful_key::<K>(),
            self.wf(),
        ensures
            match first {
                Some((nanos, key)) => {
                    &&& self@.contains_key(key)
                    &&& self@[key].expiry is Some
                    &&& self@[key].deadline() == nanos
                    &&& forall|other: K| #[trigger]
                        self@.contains_key(other) && self@[other].expiry is Some && other != key
                            ==> expires_before(self@, key, other)
                },
                None => forall|other: K| #[trigger]
                    self@.contains_key(other) ==> self@[other].expiry is None,
            },
    {
        for pair in iter: self.deadlines.iter()
            invariant
                iter.index() == 0,
                lawful_key::<K>(),
                self.wf(),
                iter.seq().unref().to_set() == self.deadlines@,
                vstd::std_specs::btree::increasing_seq(iter.seq()),
        {
            let nanos: u64 = pair.0;
            let key = pair.1.clone();
            proof {
                let all = iter.seq();
                assert(cloned(pair.1, key));
                assert(all[0] == pair);
                assert(all.unref()[0] == *pair);
                assert(self.deadlines@.contains(all.unref()[0]));
                assert forall|other: K| #[trigger]
                    self@.contains_key(other) && self@[other].expiry is Some && other
                        != key implies expires_before(self@, key, other) by {
                    let item = (self@[other].deadline(), other);
                    assert(self.deadlines@.contains(item));
                    assert(all.unref().to_set().contains(item));
                    let j = choose|j: int| 0 <= j < all.unref().len() && all.unref()[j] == item;
                    assert(*all[j] == item);
                    assert(j > 0);
                    assert(vstd::laws_cmp::obeys_cmp::<(u64, K)>());
                    assert(vstd::laws_cmp::obeys_cmp::<&(u64, K)>());
                    lemma_increasing(all, 0, j);
                    assert(key_less(*all[0], *all[j]));
                }
            }
            return Some((nanos, key));
        }
        proof {
            assert forall|other: K| #[trigger] self@.contains_key(other) implies self@[other].expiry is None by {
                if self@[other].expiry is Some {
                    let item = (self@[other].deadline(), other);
                    assert(self.deadlines@.contains(item));
                }
            }
        }
        None
    }

    /// The earliest deadline of a parked operation.
    pub fn next_deadline(&self) -> (earliest: Option<Instant>)
        requires
            lawful_key::<K>(),
            self.wf(),
        ensures
            match earliest {
                Some(at) => {
                    &&& exists|key: K| #[trigger]
                        self@.contains_key(key) && self@[key].expiry is Some
                            && self@[key].deadline() == at.nanos
                    &&& forall|key: K| #[trigger]
                        self@.contains_key(key) && self@[key].expiry is Some ==> at.nanos
                            <= self@[key].deadline()
                },
                None => forall|key: K| #[trigger]
                    self@.contains_key(key) ==> self@[key].expiry is None,
            },
    {
        match self.first() {
            Some((nanos, key)) => {
                proof {
                    assert(self@.contains_key(key));
                    assert forall|other: K| #[trigger]
                        self@.contains_key(other)
                            && self@[other].expiry is Some implies nanos <= self@[other].deadline() by {
                        assert(other != key ==> expires_before(self@, key, other));
                    }
                }
                Some(Instant { nanos })
            },
            None => None,
        }
    }

    /// Hands out every operation whose deadline is at or before `now`, with
    /// the reason it fails with, in the order in which they expire.
    pub fn expire(&mut self, now: Instant) -> (due: Vec<Conclusion<R>>)
        requires
            lawful_key::<K>(),
            old(self).wf(),
        ensures
            final(self).wf(),
            final(self)@ == unexpired(old(self)@, now),
            exists|keys: Seq<K>| #[trigger]
                due_in_order(old(self)@, now, keys) && due@ == failures(old(self)@, keys),
    {
        let mut due: Vec<Conclusion<R>> = Vec::new();
        let ghost mut keys: Seq<K> = Seq::empty();
        loop
            invariant
                lawful_key::<K>(),
                self.wf(),
                self@ == old(self)@.remove_keys(keys.to_set()),
                keys.no_duplicates(),
                forall|i: int|
                    0 <= i < keys.len() ==> old(self)@.contains_key(#[trigger] keys[i])
                        && old(self)@[keys[i]].due(now),
                forall|i: int, j: int|
                    #![trigger keys[i], keys[j]]
                    0 <= i < j < keys.len() ==> expires_before(old(self)@, keys[i], keys[j]),
                forall|i: int, k: K|
                    #![trigger keys[i], self@.contains_key(k)]
                    0 <= i < keys.len() && self@.contains_key(k) && self@[k].expiry is Some
                        ==> expires_before(old(self)@, keys[i], k),
                due@ == failures(old(self)@, keys),
            ensures
                self.wf(),
                self@ == unexpired(old(self)@, now),
                due_in_order(old(self)@, now, keys),
                due@ == failures(old(self)@, keys),
            decreases self@.dom().len(),
        {
            let ghost before = self@;
            let (nanos, key) = match self.first() {
                Some(pair) => pair,
                None => {
                    proof {
                        lemma_expired(old(self)@, now, keys, before);
                    }
                    break;
                },
            };
            if nanos > now.nanos {
                proof {
                    assert forall|k: K| #[trigger] before.contains_key(k) implies !before[k].due(now) by {
                        assert(k != key && before[k].expiry is Some ==> expires_before(before, key, k));
                    }
                    lemma_expired(old(self)@, now, keys, before);
                }
                break;
            }
            if let Some(entry) = self.remove(&key) {
                if let Some(expiry) = entry.expiry {
                    due.push(
                        Conclusion::Fail { resolver: entry.resolver, reason: expiry.reason },
                    );
                }
            }
            proof {
                let later = keys.push(key);
                assert(!keys.contains(key)) by {
                    if keys.contains(key) {
                        assert(keys.to_set().contains(key));
                    }
                }
                assert(self@ =~= old(self)@.remove_keys(later.to_set())) by {
                    broadcast use vstd::seq_lib::group_seq_properties;

                    assert(later.to_set() =~= keys.to_set().insert(key));
                }
                assert(due@ =~= failures(old(self)@, later));
                assert forall|i: int, k: K|
                    #![trigger later[i], self@.contains_key(k)]
                    0 <= i < later.len() && self@.contains_key(k)
                        && self@[k].expiry is Some implies expires_before(old(self)@, later[i], k) by {
                    assert(before.contains_key(k));
                    if i < keys.len() {
                        assert(later[i] == keys[i]);
                    } else {
                        assert(expires_before(before, key, k));
                    }
                }
                keys = later;
            }
        }
        due
    }

    /// Lists every key, in ascending order.
    fn keys_in_order(&self) -> (keys: Vec<K>)
        requires
            lawful_key::<K>(),
            self.wf(),
        ensures
            all_in_order(self@, keys@),
    {
        let mut keys: Vec<K> = Vec::new();
        for key in iter: self.by_key.keys()
            invariant
                lawful_key::<K>(),
                keys@ == iter.seq().unref().take(iter.index()),
                iter.seq().unref().to_set() == self.by_key@.dom(),
                vstd::std_specs::btree::increasing_seq(iter.seq()),
                forall|i: int, j: int|
                    #![trigger keys@[i], keys@[j]]
                    0 <= i < j < keys.len() ==> key_less(keys@[i], keys@[j]),
                iter.index() == iter.seq().len() ==> keys@ == iter.seq().unref(),
        {
            let copy = key.clone();
            proof {
                let all = iter.seq();
                assert(cloned(*key, copy));
                assert(vstd::laws_cmp::obeys_cmp::<&K>());
                assert forall|i: int| 0 <= i < keys.len() implies key_less(keys@[i], *key) by {
                    lemma_increasing(all, i, iter.index());
                    assert(*all[i] == keys@[i]);
                }
            }
            keys.push(copy);
        }
        proof {
            assert forall|i: int, j: int|
                0 <= i < keys.len() && 0 <= j < keys.len() && i != j implies keys@[i]
                != keys@[j] by {
                lemma_key_less_irreflexive(keys@[i]);
            }
        }
        keys
    }

    /// Gives every parked operation up.
    pub fn drain(&mut self) -> (lost: Vec<Conclusion<R>>)
        requires
            lawful_key::<K>(),
            old(self).wf(),
        ensures
            final(self).wf(),
            final(self)@ == Map::<K, Entry<R>>::empty(),
            exists|keys: Seq<K>| #[trigger]
                all_in_order(old(self)@, keys) && lost@ == losses(old(self)@, keys),
    {
        let keys = self.keys_in_order();
        let mut lost: Vec<Conclusion<R>> = Vec::new();
        for i in 0..keys.len()
            invariant
                lawful_key::<K>(),
                self.wf(),
                all_in_order(old(self)@, keys@),
                self@ == old(self)@.remove_keys(keys@.take(i as int).to_set()),
                lost@ == losses(old(self)@, keys@.take(i as int)),
        {
            let ghost done = keys@.take(i as int);
            assert(keys@.take(i + 1) =~= done.push(keys@[i as int]));
            assert(old(self)@.contains_key(keys@[i as int])) by {
                assert(keys@.to_set().contains(keys@[i as int]));
            }
            assert(!done.contains(keys@[i as int]));
            if let Some(entry) = self.remove(&keys[i]) {
                lost.push(Conclusion::Lose { resolver: entry.resolver });
            }
            assert(self@ =~= old(self)@.remove_keys(keys@.take(i + 1).to_set())) by {
                broadcast use vstd::seq_lib::group_seq_properties;

            }
            assert(lost@ =~= losses(old(self)@, keys@.take(i + 1)));
        }
        assert(keys@.take(keys.len() as int) =~= keys@);
        assert(self@ =~= Map::empty());
        lost
    }
}

/// An operation is due from its deadline on, and one without a deadline
/// never is; exactly those that are not due stay parked, as they were.
pub proof fn an_operation_is_due_from_its_deadline_on<K, R>(
    entries: Map<K, Entry<R>>,
    now: Instant,
    key: K,
)
    requires
        entries.contains_key(key),
    ensures
        entries[key].due(now) <==> entries[key].expiry is Some && entries[key].expiry->0.at.nanos
            <= now.nanos,
        unexpired(entries, now).contains_key(key) <==> (entries[key].expiry is None
            || entries[key].expiry->0.at.nanos > now.nanos),
        unexpired(entries, now).contains_key(key) ==> unexpired(entries, now)[key] == entries[key],
        unexpired(entries, now).dom().subset_of(entries.dom()),
{
}

/// Expired operations conclude in the order of their deadlines, each of them
/// as failed with its own reason, and no other operation does.
pub proof fn expired_operations_fail_in_order<K: Ord, R>(
    entries: Map<K, Entry<R>>,
    now: Instant,
    keys: Seq<K>,
    i: int,
    j: int,
)
    requires
        due_in_order(entries, now, keys),
        0 <= i < j < keys.len(),
    ensures
        keys[i] != keys[j],
        entries[keys[i]].expiry is Some,
        entries[keys[i]].expiry->0.at.nanos <= entries[keys[j]].expiry->0.at.nanos <= now.nanos,
        failures(entries, keys).len() == keys.len(),
        failures(entries, keys)[i] == (Conclusion::Fail {
            resolver: entries[keys[i]].resolver,
            reason: entries[keys[i]].expiry->0.reason,
        }),
        failures(entries, keys)[j] == (Conclusion::Fail {
            resolver: entries[keys[j]].resolver,
            reason: entries[keys[j]].expiry->0.reason,
        }),
{
    assert(expires_before(entries, keys[i], keys[j]));
    assert(entries[keys[j]].due(now));
    assert(entries[keys[i]].due(now));
}

/// Every operation that is due expires, and a lone one does too.
pub proof fn every_due_operation_expires<K: Ord, R>(
    entries: Map<K, Entry<R>>,
    now: Instant,
    keys: Seq<K>,
    key: K,
) -> (i: int)
    requires
        due_in_order(entries, now, keys),
        entries.contains_key(key),
        entries[key].expiry is Some,
        entries[key].expiry->0.at.nanos <= now.nanos,
    ensures
        0 <= i < keys.len(),
        keys[i] == key,
        failures(entries, keys)[i] == (Conclusion::Fail {
            resolver: entries[key].resolver,
            reason: entries[key].expiry->0.reason,
        }),
{
    assert(entries[key].due(now));
    assert(keys.contains(key));
    choose|i: int| 0 <= i < keys.len() && keys[i] == key
}

/// Operations that are given up are lost, each once, in the order of their
/// keys.
pub proof fn given_up_operations_are_lost<K: Ord, R>(
    entries: Map<K, Entry<R>>,
    keys: Seq<K>,
    key: K,
) -> (i: int)
    requires
        all_in_order(entries, keys),
        entries.contains_key(key),
    ensures
        losses(entries, keys).len() == keys.len(),
        0 <= i < keys.len(),
        keys[i] == key,
        losses(entries, keys)[i] == (Conclusion::Lose { resolver: entries[key].resolver }),
        forall|j: int| i < j < keys.len() ==> key_less(key, #[trigger] keys[j]),
{
    assert(keys.to_set().contains(key));
    assert(keys.contains(key));
    let i = choose|i: int| 0 <= i < keys.len() && keys[i] == key;
    assert forall|j: int| i < j < keys.len() implies key_less(key, #[trigger] keys[j]) by {
        assert(key_less(keys[i], keys[j]));
    }
    i
}

} // verus!
