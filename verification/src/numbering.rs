//! Picking the smallest free number: tag indices and ports.
use vstd::prelude::*;
use vstd::set_lib::{set_int_range, lemma_int_range, lemma_len_subset};

verus! {

/// `v` holds `x`.
pub open spec fn holds(v: Seq<i32>, x: int) -> bool {
    exists|k: int| 0 <= k < v.len() && v[k] as int == x
}

/// The smallest number from `start` on that `used` does not hold.
pub open spec fn is_smallest_unused(used: Seq<i32>, start: int, r: int) -> bool {
    &&& start <= r
    &&& !holds(used, r)
    &&& forall|j: int| start <= j < r ==> holds(used, j)
}

/// `n` numbers cannot fill `n + 1` slots: some number in
/// `start..=start + n` is free.
pub proof fn lemma_pigeonhole(used: Seq<i32>, start: int)
    ensures
        exists|j: int| start <= j <= start + used.len() && !holds(used, j),
{
    if forall|j: int| start <= j <= start + used.len() ==> holds(used, j) {
        lemma_all_held_impossible(used, start);
    }
}

proof fn lemma_all_held_impossible(used: Seq<i32>, start: int)
    requires
        forall|j: int| start <= j <= start + used.len() ==> holds(used, j),
    ensures
        set_int_range(start, start + used.len() + 1).len() <= used.len(),
        set_int_range(start, start + used.len() + 1).len() == used.len() + 1,
{
    let vals = used.map_values(|x: i32| x as int);
    let range = set_int_range(start, start + used.len() + 1);
    lemma_int_range(start, start + used.len() + 1);
    assert forall|j: int| range.contains(j) implies vals.to_set().contains(j) by {
        assert(holds(used, j));
        let k = choose|k: int| 0 <= k < used.len() && used[k] as int == j;
        assert(vals[k] == j);
    }
    vals.lemma_cardinality_of_set();
    vstd::seq_lib::seq_to_set_is_finite(vals);
    lemma_len_subset(range, vals.to_set());
}

fn holds_exec(used: &Vec<i32>, x: i32) -> (r: bool)
    ensures
        r == holds(used@, x as int),
{
    let mut k: usize = 0;
    while k < used.len()
        invariant
            k <= used@.len(),
            forall|j: int| 0 <= j < k ==> used@[j] != x,
        decreases used@.len() - k,
    {
        if used[k] == x {
            return true;
        }
        k = k + 1;
    }
    false
}

/// The smallest number from `start` on that `used` does not hold. It is at
/// most `start + used.len()`, which must fit in an `i32`.
pub fn smallest_unused(used: &Vec<i32>, start: i32) -> (r: i32)
    requires
        start + used@.len() <= i32::MAX,
    ensures
        is_smallest_unused(used@, start as int, r as int),
        r <= start + used@.len(),
{
    let mut i = start;
    while holds_exec(used, i)
        invariant
            start <= i <= start + used@.len(),
            start + used@.len() <= i32::MAX,
            forall|j: int| start <= j < i ==> holds(used@, j),
        decreases start + used@.len() - i,
    {
        proof {
            lemma_pigeonhole(used@, start as int);
            let j = choose|j: int| start <= j <= start + used@.len() && !holds(used@, j);
            assert(j > i);
        }
        i = i + 1;
    }
    i
}

} // verus!
