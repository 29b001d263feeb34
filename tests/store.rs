use std::cell::Cell;

use memo_cache::store::MemoStore;

fn square_in(store: &mut MemoStore<i64, i64>, x: i64, runs: &Cell<u32>) -> i64 {
    store.call(x, || {
        runs.set(runs.get() + 1);
        x * x
    })
}

#[test]
fn square_is_computed_once_per_argument() {
    let runs = Cell::new(0u32);
    let mut store: MemoStore<i64, i64> = MemoStore::new();
    assert_eq!(square_in(&mut store, 4, &runs), 16);
    assert_eq!(runs.get(), 1);
    assert_eq!(store.lookup(&4), Some(16));
    assert_eq!(square_in(&mut store, 4, &runs), 16);
    assert_eq!(runs.get(), 1);
    assert_eq!(square_in(&mut store, 5, &runs), 25);
    assert_eq!(runs.get(), 2);
    assert_eq!(store.lookup(&5), Some(25));
    assert_eq!(store.lookup(&4), Some(16));
    assert_eq!(store.len(), 2);
}

#[test]
fn new_store_is_empty() {
    let store: MemoStore<u32, String> = MemoStore::new();
    assert_eq!(store.len(), 0);
    assert!(!store.contains(&0));
    assert_eq!(store.lookup(&0), None);
}

#[test]
fn insert_then_lookup_returns_copy() {
    let mut store: MemoStore<(u8, bool), String> = MemoStore::new();
    store.insert((1, true), String::from("one"));
    assert!(store.contains(&(1, true)));
    assert!(!store.contains(&(1, false)));
    assert_eq!(store.lookup(&(1, true)), Some(String::from("one")));
    assert_eq!(store.lookup(&(1, false)), None);
    assert_eq!(store.len(), 1);
}

#[test]
fn equal_calls_run_body_once_and_agree() {
    let runs = Cell::new(0u32);
    let mut store: MemoStore<(i32, i32), i32> = MemoStore::new();
    let first = store.call((3, 4), || {
        runs.set(runs.get() + 1);
        3 + 4
    });
    let second = store.call((3, 4), || {
        runs.set(runs.get() + 1);
        3 + 4
    });
    assert_eq!(first, 7);
    assert_eq!(second, 7);
    assert_eq!(runs.get(), 1);
}

#[test]
fn one_entry_per_distinct_argument_tuple() {
    let runs = Cell::new(0u32);
    let mut store: MemoStore<u64, u64> = MemoStore::new();
    let keys: [u64; 7] = [1, 2, 1, 3, 2, 2, 9];
    for k in keys {
        let r = store.call(k, || {
            runs.set(runs.get() + 1);
            k + 100
        });
        assert_eq!(r, k + 100);
    }
    assert_eq!(store.len(), 4);
    assert_eq!(runs.get(), 4);
}

#[test]
fn repeated_calls_return_same_value() {
    let runs = Cell::new(0u32);
    let mut store: MemoStore<String, usize> = MemoStore::new();
    let mut seen = Vec::new();
    for _ in 0..5 {
        seen.push(store.call(String::from("abc"), || {
            runs.set(runs.get() + 1);
            3
        }));
    }
    assert_eq!(seen, vec![3, 3, 3, 3, 3]);
    assert_eq!(runs.get(), 1);
}

#[test]
fn zero_parameter_function_is_lazy_constant() {
    let runs = Cell::new(0u32);
    let mut store: MemoStore<(), u32> = MemoStore::new();
    assert_eq!(runs.get(), 0);
    for _ in 0..4 {
        let r = store.call((), || {
            runs.set(runs.get() + 1);
            42
        });
        assert_eq!(r, 42);
    }
    assert_eq!(runs.get(), 1);
    assert_eq!(store.len(), 1);
}

#[test]
fn separate_contexts_compute_separately() {
    let runs = Cell::new(0u32);
    let mut context_a: MemoStore<i64, i64> = MemoStore::new();
    let mut context_b: MemoStore<i64, i64> = MemoStore::new();
    assert_eq!(square_in(&mut context_a, 6, &runs), 36);
    assert_eq!(square_in(&mut context_a, 6, &runs), 36);
    assert_eq!(runs.get(), 1);
    assert!(!context_b.contains(&6));
    assert_eq!(square_in(&mut context_b, 6, &runs), 36);
    assert_eq!(runs.get(), 2);
    assert_eq!(square_in(&mut context_b, 6, &runs), 36);
    assert_eq!(runs.get(), 2);
}
