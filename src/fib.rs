use std::collections::HashMap;
use vstd::prelude::*;

verus! {

broadcast use vstd::std_specs::hash::group_hash_axioms;

/// The Fibonacci sequence: 0, 1, 1, 2, 3, 5, ...
pub open spec fn fib(n: nat) -> nat
    decreases n,
{
    if n == 0 {
        0
    } else if n == 1 {
        1
    } else {
        fib((n - 1) as nat) + fib((n - 2) as nat)
    }
}

/// The sequence never decreases.
pub proof fn lemma_fib_monotone(i: nat, j: nat)
    requires
        i <= j,
    ensures
        fib(i) <= fib(j),
    decreases j,
{
    if i < j {
        lemma_fib_monotone(i, (j - 1) as nat);
    }
}

/// A cache holds only true values of the sequence.
pub open spec fn cache_sound(cache: Map<i64, i128>) -> bool {
    forall|k: i64| #[trigger] cache.contains_key(k) ==> k >= 0 && cache[k] == fib(k as nat)
}

/// Computes the `idx`-th Fibonacci number by plain recursion.
pub fn calc_fib_number(idx: i64) -> (r: i128)
    requires
        idx >= 0,
        fib(idx as nat) <= i128::MAX,
    ensures
        r == fib(idx as nat),
    decreases idx,
{
    if idx == 0 {
        return 0;
    } else if idx == 1 {
        return 1;
    }
    proof {
        lemma_fib_monotone((idx - 1) as nat, idx as nat);
        lemma_fib_monotone((idx - 2) as nat, idx as nat);
    }
    calc_fib_number(idx - 1) + calc_fib_number(idx - 2)
}

/// Computes the `idx`-th Fibonacci number, reusing and filling `cache`.
/// The cache must already hold the first two numbers of the sequence.
pub fn calc_fib_number_cache(idx: i64, cache: HashMap<i64, i128>) -> (r: (i128, HashMap<i64, i128>))
    requires
        idx >= 0,
        fib(idx as nat) <= i128::MAX,
        cache_sound(cache@),
        cache@.contains_key(0),
        cache@.contains_key(1),
    ensures
        r.0 == fib(idx as nat),
        cache_sound(r.1@),
        r.1@.contains_key(idx),
        forall|k: i64| cache@.contains_key(k) ==> #[trigger] r.1@.contains_key(k),
    decreases idx,
{
    let mut cache = cache;
    let lookup = cache.get(&idx);
    match lookup {
        Some(val) => {
            let v: i128 = *val;
            (v, cache)
        },
        None => {
            assert(idx >= 2);
            proof {
                lemma_fib_monotone((idx - 1) as nat, idx as nat);
                lemma_fib_monotone((idx - 2) as nat, idx as nat);
            }
            let first_result = calc_fib_number_cache(idx - 1, cache);
            let first = first_result.0;
            cache = first_result.1;
            let second_result = calc_fib_number_cache(idx - 2, cache);
            let second = second_result.0;
            cache = second_result.1;
            let val = first + second;
            cache.insert(idx, val);
            (val, cache)
        },
    }
}

} // verus!
