//! Stable sorting.

use itertools::Itertools;
use vstd::prelude::*;

verus! {

/// `p` lists the numbers below `n`, each once.
pub open spec fn is_permutation(p: Seq<int>, n: nat) -> bool {
    &&& p.len() == n
    &&& forall|i: int| 0 <= i < n ==> 0 <= #[trigger] p[i] < n
    &&& forall|i: int, j: int| 0 <= i < j < n ==> #[trigger] p[i] != #[trigger] p[j]
    &&& forall|v: int| 0 <= v < n ==> #[trigger] p.contains(v)
}

/// `r` holds the items of `s` in the order of their keys, items with the same key in the order in
/// which `s` has them; `p[i]` is where `s` has the item at place `i` of `r`.
pub open spec fn is_stable_sort(
    s: Seq<(u64, usize)>,
    r: Seq<(u64, usize)>,
    p: Seq<int>,
) -> bool {
    &&& is_permutation(p, s.len())
    &&& r.len() == s.len()
    &&& forall|i: int| 0 <= i < r.len() ==> #[trigger] r[i] == s[p[i]]
    &&& forall|i: int, j: int|
        0 <= i < j < r.len() ==> (#[trigger] r[i]).0 < (#[trigger] r[j]).0 || (r[i].0 == r[j].0
            && p[i] < p[j])
}

/// `order` lists the positions of `keys` by ascending key, positions with the same key in
/// ascending order.
pub open spec fn is_stable_order(keys: Seq<u64>, order: Seq<usize>) -> bool {
    &&& is_permutation(order.map_values(|x: usize| x as int), keys.len())
    &&& forall|i: int, j: int|
        0 <= i < j < order.len() ==> keys[#[trigger] order[i] as int] < keys[#[trigger] order[j] as
        int] || (keys[order[i] as int] == keys[order[j] as int] && order[i] < order[j])
}

/// `Itertools::sorted_by_key` of `itertools`, with an item's first number as its key: the items in
/// ascending order of the keys; the sort is stable.
#[verifier::external_body]
pub(crate) fn sorted_by_key(items: Vec<(u64, usize)>) -> (r: Vec<(u64, usize)>)
    ensures
        exists|p: Seq<int>| is_stable_sort(items@, r@, p),
{
    items.into_iter().sorted_by_key(|item| item.0).collect()
}

/// Returns the positions of the keys by ascending key, positions with the same key in ascending
/// order.
pub fn stable_order(keys: &Vec<u64>) -> (order: Vec<usize>)
    ensures
        is_stable_order(keys@, order@),
{
    let mut items: Vec<(u64, usize)> = Vec::new();
    let mut i: usize = 0;
    while i < keys.len()
        invariant
            i <= keys.len(),
            items@.len() == i,
            forall|k: int| 0 <= k < i ==> #[trigger] items@[k] == (keys@[k], k as usize),
        decreases keys.len() - i,
    {
        items.push((keys[i], i));
        i = i + 1;
    }
    let ghost unsorted = items@;
    let sorted = sorted_by_key(items);
    let ghost p = choose|p: Seq<int>| is_stable_sort(unsorted, sorted@, p);
    let mut order: Vec<usize> = Vec::new();
    let mut j: usize = 0;
    while j < sorted.len()
        invariant
            j <= sorted.len(),
            order@.len() == j,
            forall|k: int| 0 <= k < j ==> #[trigger] order@[k] == sorted@[k].1,
        decreases sorted.len() - j,
    {
        order.push(sorted[j].1);
        j = j + 1;
    }
    proof {
        let mapped = order@.map_values(|x: usize| x as int);
        assert forall|k: int| 0 <= k < mapped.len() implies #[trigger] mapped[k] == p[k] by {
            assert(sorted@[k] == unsorted[p[k]]);
        }
        assert(mapped =~= p);
        assert forall|i: int, j: int| 0 <= i < j < order@.len() implies {
            ||| keys@[#[trigger] order@[i] as int] < keys@[#[trigger] order@[j] as int]
            ||| keys@[order@[i] as int] == keys@[order@[j] as int] && order@[i] < order@[j]
        } by {
            assert(sorted@[i] == unsorted[p[i]]);
            assert(sorted@[j] == unsorted[p[j]]);
            assert(mapped[i] == p[i] && mapped[j] == p[j]);
        }
    }
    order
}

/// In an order of keys every place stands once, a smaller key comes first, and of two equal keys
/// the one that came first stays first.
pub proof fn law_smaller_keys_come_first(keys: Seq<u64>, order: Seq<usize>, i: int, j: int)
    requires
        is_stable_order(keys, order),
        0 <= i < order.len(),
        0 <= j < order.len(),
    ensures
        order.len() == keys.len(),
        order[i] < keys.len(),
        order[i] == order[j] ==> i == j,
        keys[order[i] as int] < keys[order[j] as int] ==> i < j,
        keys[order[i] as int] == keys[order[j] as int] && order[i] < order[j] ==> i < j,
{
    let p = order.map_values(|x: usize| x as int);
    assert(p[i] == order[i] && p[j] == order[j]);
    if i < j {
        assert(p[i] != p[j]);
    }
    if j < i {
        assert(p[j] != p[i]);
    }
}

} // verus!
