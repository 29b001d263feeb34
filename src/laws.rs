//! What a memoized function does over a sequence of calls in one
//! execution context, and the laws it obeys. The wrapped body is modelled
//! by a spec function `f`: the transformation assumes it pure.
use vstd::prelude::*;
use crate::store::{after_call, call_result, evaluates};

verus! {

broadcast use vstd::seq_lib::seq_to_set_is_finite;

/// The store after calls with `keys`, in order, starting from `m`.
pub open spec fn run<K, V>(m: Map<K, V>, keys: Seq<K>, f: spec_fn(K) -> V) -> Map<K, V>
    decreases keys.len(),
{
    if keys.len() == 0 {
        m
    } else {
        after_call(run(m, keys.drop_last(), f), keys.last(), f(keys.last()))
    }
}

/// How many of those calls run the original body.
pub open spec fn evaluations<K, V>(m: Map<K, V>, keys: Seq<K>, f: spec_fn(K) -> V) -> nat
    decreases keys.len(),
{
    if keys.len() == 0 {
        0
    } else {
        evaluations(m, keys.drop_last(), f) + if evaluates(
            run(m, keys.drop_last(), f),
            keys.last(),
        ) {
            1nat
        } else {
            0nat
        }
    }
}

/// What those calls return, in order.
pub open spec fn results<K, V>(m: Map<K, V>, keys: Seq<K>, f: spec_fn(K) -> V) -> Seq<V>
    decreases keys.len(),
{
    if keys.len() == 0 {
        Seq::empty()
    } else {
        results(m, keys.drop_last(), f).push(
            call_result(run(m, keys.drop_last(), f), keys.last(), f(keys.last())),
        )
    }
}

/// `n` calls' worth of the key `k`.
pub open spec fn repeated<K>(k: K, n: nat) -> Seq<K> {
    Seq::new(n, |i: int| k)
}

/// Every stored result is what the body computes for its key.
pub open spec fn agrees_with<K, V>(m: Map<K, V>, f: spec_fn(K) -> V) -> bool {
    forall|k: K| #[trigger] m.contains_key(k) ==> m[k] == f(k)
}

/// The keys stored after a sequence of calls are those stored before and
/// those called with.
pub proof fn lemma_stored_keys<K, V>(m: Map<K, V>, keys: Seq<K>, f: spec_fn(K) -> V)
    ensures
        run(m, keys, f).dom() == m.dom() + keys.to_set(),
    decreases keys.len(),
{
    if keys.len() == 0 {
        assert(keys.to_set() =~= Set::<K>::empty());
        assert(m.dom() + keys.to_set() =~= m.dom());
    } else {
        let init = keys.drop_last();
        lemma_stored_keys(m, init, f);
        assert(init.push(keys.last()) =~= keys);
        init.lemma_push_to_set_commute(keys.last());
        assert(run(m, keys, f).dom() =~= m.dom() + keys.to_set());
    }
}

/// Memoization is transparent: a store whose entries agree with the body
/// stays so, and every call returns what the body computes for its key.
pub proof fn lemma_memoized_agrees<K, V>(m: Map<K, V>, keys: Seq<K>, f: spec_fn(K) -> V)
    requires
        agrees_with(m, f),
    ensures
        agrees_with(run(m, keys, f), f),
        results(m, keys, f) == keys.map_values(f),
    decreases keys.len(),
{
    if keys.len() > 0 {
        lemma_memoized_agrees(m, keys.drop_last(), f);
        assert(results(m, keys, f) =~= keys.map_values(f));
    } else {
        assert(results(m, keys, f) =~= keys.map_values(f));
    }
}

/// Two calls with equal arguments run the body at most once and return
/// equal results, whatever the store held before.
pub proof fn lemma_equal_calls_evaluate_once<K, V>(m: Map<K, V>, k: K, f: spec_fn(K) -> V)
    ensures
        evaluations(m, seq![k, k], f) <= 1,
        !evaluates(run(m, seq![k], f), k),
        results(m, seq![k, k], f)[0] == results(m, seq![k, k], f)[1],
{
    let keys = seq![k, k];
    let one = seq![k];
    let none = Seq::<K>::empty();
    assert(keys.drop_last() =~= one);
    assert(one.drop_last() =~= none);
    assert(run(m, none, f) == m);
    assert(evaluations(m, none, f) == 0);
    assert(results(m, none, f) == none.map_values(f));
    assert(run(m, one, f) == after_call(m, k, f(k)));
    assert(run(m, one, f).contains_key(k));
    assert(evaluations(m, one, f) <= 1);
    assert(results(m, one, f) =~= seq![call_result(m, k, f(k))]);
}

/// Starting from an empty store, the store holds one entry per distinct
/// key called with, and the body runs once per distinct key.
pub proof fn lemma_one_entry_per_distinct_key<K, V>(keys: Seq<K>, f: spec_fn(K) -> V)
    ensures
        run(Map::<K, V>::empty(), keys, f).dom() == keys.to_set(),
        run(Map::<K, V>::empty(), keys, f).len() == keys.to_set().len(),
        keys.to_set().len() <= keys.len(),
        evaluations(Map::<K, V>::empty(), keys, f) == keys.to_set().len(),
    decreases keys.len(),
{
    let e = Map::<K, V>::empty();
    lemma_stored_keys(e, keys, f);
    assert(e.dom() + keys.to_set() =~= keys.to_set());
    keys.lemma_cardinality_of_set();
    if keys.len() > 0 {
        let init = keys.drop_last();
        lemma_one_entry_per_distinct_key(init, f);
        assert(init.push(keys.last()) =~= keys);
        init.lemma_push_to_set_commute(keys.last());
    } else {
        assert(keys.to_set() =~= Set::<K>::empty());
    }
}

/// Calling `n` times in a row with the same arguments returns the same
/// value every time, runs the body at most once, and leaves the store as
/// the first call left it.
pub proof fn lemma_repeated_calls_idempotent<K, V>(m: Map<K, V>, k: K, n: nat, f: spec_fn(K) -> V)
    requires
        n >= 1,
    ensures
        evaluations(m, repeated(k, n), f) <= 1,
        results(m, repeated(k, n), f).len() == n,
        run(m, repeated(k, n), f) == after_call(m, k, f(k)),
        forall|i: int|
            0 <= i < n ==> #[trigger] results(m, repeated(k, n), f)[i] == call_result(
                m,
                k,
                f(k),
            ),
    decreases n,
{
    let keys = repeated(k, n);
    let none = Seq::<K>::empty();
    if n == 1 {
        assert(keys.drop_last() =~= none);
        assert(keys.last() == k);
        assert(run(m, none, f) == m);
        assert(evaluations(m, none, f) == 0);
        assert(results(m, none, f) =~= none.map_values(f));
        assert(results(m, none, f).push(call_result(m, k, f(k))) =~= seq![call_result(m, k, f(k))]);
    } else {
        let n1 = (n - 1) as nat;
        lemma_repeated_calls_idempotent(m, k, n1, f);
        let init = repeated(k, n1);
        assert(keys.drop_last() =~= init);
        assert(keys.last() == k);
        assert(after_call(m, k, f(k)).contains_key(k));
        assert(results(m, keys, f) == results(m, init, f).push(call_result(m, k, f(k))));
        assert forall|i: int| 0 <= i < n implies #[trigger] results(m, keys, f)[i] == call_result(
            m,
            k,
            f(k),
        ) by {
            if i < n1 {
                assert(results(m, init, f)[i] == call_result(m, k, f(k)));
            }
        }
    }
}

/// A function without parameters has the empty tuple as its only key: it
/// is a constant computed lazily, its body run on the first call only and
/// every call returning that one result.
pub proof fn lemma_unit_key_computed_once<V>(keys: Seq<()>, f: spec_fn(()) -> V)
    ensures
        evaluations(Map::<(), V>::empty(), keys, f) == if keys.len() == 0 {
            0nat
        } else {
            1nat
        },
        run(Map::<(), V>::empty(), keys, f).len() <= 1,
        results(Map::<(), V>::empty(), keys, f) == keys.map_values(f),
{
    let e = Map::<(), V>::empty();
    lemma_one_entry_per_distinct_key(keys, f);
    lemma_memoized_agrees(e, keys, f);
    if keys.len() == 0 {
        assert(keys.to_set() =~= Set::<()>::empty());
    } else {
        assert(keys.to_set() =~= set![()]) by {
            assert(keys.to_set().contains(keys[0]));
        }
    }
    assert(keys.to_set().subset_of(set![()]));
    vstd::set_lib::lemma_len_subset(keys.to_set(), set![()]);
}

/// Execution contexts share nothing: whether a call in one context runs
/// the body depends only on the calls made before in that context, so two
/// contexts called with the same arguments each run the body once.
pub proof fn lemma_contexts_evaluate_separately<K, V>(
    keys_a: Seq<K>,
    keys_b: Seq<K>,
    k: K,
    f: spec_fn(K) -> V,
)
    ensures
        evaluates(run(Map::<K, V>::empty(), keys_a, f), k) == !keys_a.contains(k),
        evaluates(run(Map::<K, V>::empty(), keys_b, f), k) == !keys_b.contains(k),
        evaluations(Map::<K, V>::empty(), keys_a.push(k), f) + evaluations(
            Map::<K, V>::empty(),
            keys_b.push(k),
            f,
        ) == keys_a.push(k).to_set().len() + keys_b.push(k).to_set().len(),
{
    lemma_one_entry_per_distinct_key(keys_a, f);
    lemma_one_entry_per_distinct_key(keys_b, f);
    lemma_one_entry_per_distinct_key(keys_a.push(k), f);
    lemma_one_entry_per_distinct_key(keys_b.push(k), f);
}

} // verus!
