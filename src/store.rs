//! The cache store: a mapping from argument tuples to results, owned by
//! one execution context, created empty and never cleared.
use std::collections::HashMap;
use std::hash::Hash;
use vstd::prelude::*;
use vstd::pervasive::cloned;
use vstd::std_specs::hash::obeys_key_model;

verus! {

broadcast use vstd::std_specs::hash::group_hash_axioms;

/// The store that one execution context keeps for one memoized function.
///
/// Its view is the map from each argument tuple seen so far to the result
/// computed for it. Contracts that speak of the view hold for key types
/// whose hashing is deterministic and whose `==` is identity
/// (`obeys_key_model`); a key type that breaks this breaks memoization
/// itself, as it would for any hash map.
pub struct MemoStore<K, V> {
    entries: HashMap<K, V>,
}

impl<K, V> View for MemoStore<K, V> {
    type V = Map<K, V>;

    closed spec fn view(&self) -> Map<K, V> {
        self.entries@
    }
}

/// The store after one call of the memoized function with key `k`, where
/// `computed` is what the original body would return for `k`: unchanged on
/// a hit, one new entry on a miss.
pub open spec fn after_call<K, V>(m: Map<K, V>, k: K, computed: V) -> Map<K, V> {
    if m.contains_key(k) {
        m
    } else {
        m.insert(k, computed)
    }
}

/// What one call of the memoized function with key `k` returns.
pub open spec fn call_result<K, V>(m: Map<K, V>, k: K, computed: V) -> V {
    if m.contains_key(k) {
        m[k]
    } else {
        computed
    }
}

/// Whether one call of the memoized function with key `k` runs the
/// original body.
pub open spec fn evaluates<K, V>(m: Map<K, V>, k: K) -> bool {
    !m.contains_key(k)
}

impl<K: Eq + Hash, V> MemoStore<K, V> {
    /// An empty store, as each context has before its first call.
    pub fn new() -> (s: Self)
        ensures
            s@ == Map::<K, V>::empty(),
    {
        MemoStore { entries: HashMap::new() }
    }

    /// The number of entries: one per distinct key stored.
    pub fn len(&self) -> (n: usize)
        ensures
            obeys_key_model::<K>() ==> n == self@.len(),
    {
        self.entries.len()
    }

    /// Whether a result is stored for `key`.
    pub fn contains(&self, key: &K) -> (r: bool)
        ensures
            obeys_key_model::<K>() ==> r == self@.contains_key(*key),
    {
        self.entries.contains_key(key)
    }

    /// A copy of the result stored for `key`, if any.
    pub fn lookup(&self, key: &K) -> (r: Option<V>)
        where
            V: Clone,
        ensures
            obeys_key_model::<K>() ==> match r {
                Some(v) => self@.contains_key(*key) && cloned(self@[*key], v),
                None => !self@.contains_key(*key),
            },
    {
        self.entries.get(key).cloned()
    }

    /// Stores `value` as the result for `key`.
    pub fn insert(&mut self, key: K, value: V)
        ensures
            obeys_key_model::<K>() ==> final(self)@ == old(self)@.insert(key, value),
    {
        self.entries.insert(key, value);
    }

    /// One call of a memoized function: on a hit, a copy of the stored
    /// result, and `compute` is not run; on a miss, the result of
    /// `compute`, with a copy of it stored under `key`.
    pub fn call<F: FnOnce() -> V>(&mut self, key: K, compute: F) -> (r: V)
        where
            V: Clone,
        requires
            compute.requires(()),
        ensures
            obeys_key_model::<K>() ==> {
                &&& final(self)@.dom() == after_call(old(self)@, key, r).dom()
                &&& !evaluates(old(self)@, key) ==> final(self)@ == old(self)@ && cloned(
                    old(self)@[key],
                    r,
                )
                &&& evaluates(old(self)@, key) ==> compute.ensures((), r) && final(self)@
                    == old(self)@.insert(key, final(self)@[key]) && cloned(r, final(self)@[key])
            },
    {
        match self.entries.get(&key) {
            Some(v) => v.clone(),
            None => {
                let result = compute();
                let stored = result.clone();
                self.entries.insert(key, stored);
                result
            },
        }
    }
}

} // verus!
