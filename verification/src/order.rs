//! Ordering by keys: which item comes first, second and so on, items with
//! equal keys staying in the order in which they were given.
use vstd::prelude::*;

verus! {

/// The order of keys: by the first number, then by the second.
pub open spec fn key_below(a: (u128, u128), b: (u128, u128)) -> bool {
    a.0 < b.0 || (a.0 == b.0 && a.1 < b.1)
}

/// The place for an item with key `k` among the items in `order`: behind the
/// last one that does not come after it.
pub open spec fn place(keys: Seq<(u128, u128)>, order: Seq<int>, k: (u128, u128)) -> int
    decreases order.len(),
{
    if order.len() == 0 {
        0
    } else if key_below(k, keys[order.last()]) {
        place(keys, order.drop_last(), k)
    } else {
        order.len() as int
    }
}

/// The positions of the items in increasing order of their keys.
pub open spec fn ordered_by(keys: Seq<(u128, u128)>) -> Seq<int>
    decreases keys.len(),
{
    if keys.len() == 0 {
        seq![]
    } else {
        let before = ordered_by(keys.drop_last());
        before.insert(place(keys, before, keys.last()), keys.len() - 1)
    }
}

/// Positions as integers.
pub open spec fn as_ints(order: Seq<usize>) -> Seq<int> {
    order.map_values(|i: usize| i as int)
}

/// The items at the given positions.
pub open spec fn arranged<A>(items: Seq<A>, order: Seq<int>) -> Seq<A> {
    order.map_values(|i: int| items[i])
}

proof fn lemma_place(keys: Seq<(u128, u128)>, order: Seq<int>, k: (u128, u128))
    ensures
        0 <= place(keys, order, k) <= order.len(),
        forall|j: int|
            place(keys, order, k) <= j < order.len() ==> key_below(k, keys[#[trigger] order[j]]),
        place(keys, order, k) > 0 ==> !key_below(k, keys[order[place(keys, order, k) - 1]]),
    decreases order.len(),
{
    if order.len() > 0 && key_below(k, keys[order.last()]) {
        lemma_place(keys, order.drop_last(), k);
        let at = place(keys, order, k);
        assert forall|j: int| at <= j < order.len() implies key_below(
            k,
            keys[#[trigger] order[j]],
        ) by {
            if j < order.len() - 1 {
                assert(order.drop_last()[j] == order[j]);
            }
        }
        if at > 0 {
            assert(order.drop_last()[at - 1] == order[at - 1]);
        }
    }
}

/// Only the keys of the items placed so far matter.
proof fn lemma_place_prefix(keys: Seq<(u128, u128)>, order: Seq<int>, k: (u128, u128), n: int)
    requires
        0 <= n <= keys.len(),
        forall|j: int| 0 <= j < order.len() ==> 0 <= #[trigger] order[j] < n,
    ensures
        place(keys.take(n), order, k) == place(keys, order, k),
    decreases order.len(),
{
    if order.len() > 0 {
        assert(0 <= order[order.len() - 1] < n);
        let front = order.drop_last();
        assert forall|j: int| 0 <= j < front.len() implies 0 <= #[trigger] front[j] < n by {
            assert(front[j] == order[j]);
        }
        lemma_place_prefix(keys, front, k, n);
    }
}

/// The order holds every position once.
pub proof fn lemma_order_is_permutation(keys: Seq<(u128, u128)>)
    ensures
        ordered_by(keys).len() == keys.len(),
        forall|j: int| 0 <= j < keys.len() ==> 0 <= #[trigger] ordered_by(keys)[j] < keys.len(),
        forall|i: int| 0 <= i < keys.len() ==> #[trigger] ordered_by(keys).contains(i),
        ordered_by(keys).no_duplicates(),
    decreases keys.len(),
{
    if keys.len() > 0 {
        let before = ordered_by(keys.drop_last());
        let at = place(keys, before, keys.last());
        let new = keys.len() - 1;
        let after = ordered_by(keys);
        lemma_order_is_permutation(keys.drop_last());
        lemma_place(keys, before, keys.last());
        assert forall|j: int| 0 <= j < keys.len() implies 0 <= #[trigger] after[j] < keys.len() by {
            if j < at {
                assert(after[j] == before[j]);
            } else if j > at {
                assert(after[j] == before[j - 1]);
            }
        }
        assert forall|i: int| 0 <= i < keys.len() implies #[trigger] after.contains(i) by {
            if i == new {
                assert(after[at] == i);
            } else {
                assert(before.contains(i));
                let j = choose|j: int| 0 <= j < before.len() && before[j] == i;
                if j < at {
                    assert(after[j] == i);
                } else {
                    assert(after[j + 1] == i);
                }
            }
        }
        assert forall|i: int, j: int|
            0 <= i < after.len() && 0 <= j < after.len() && i != j implies after[i] != after[j] by {
            let x = if i < at {
                i
            } else {
                i - 1
            };
            let y = if j < at {
                j
            } else {
                j - 1
            };
            if i != at {
                assert(after[i] == before[x]);
            }
            if j != at {
                assert(after[j] == before[y]);
            }
        }
    }
}

/// The order is increasing, and equal keys keep their order.
pub proof fn lemma_order_is_sorted(keys: Seq<(u128, u128)>)
    ensures
        forall|a: int, b: int|
            0 <= a < b < keys.len() ==> !key_below(
                keys[#[trigger] ordered_by(keys)[b]],
                keys[#[trigger] ordered_by(keys)[a]],
            ),
        forall|a: int, b: int|
            0 <= a < b < keys.len() && keys[#[trigger] ordered_by(keys)[a]]
                == keys[#[trigger] ordered_by(keys)[b]] ==> ordered_by(keys)[a] < ordered_by(
                keys,
            )[b],
    decreases keys.len(),
{
    if keys.len() > 0 {
        let front = keys.drop_last();
        let before = ordered_by(front);
        let k = keys.last();
        let at = place(keys, before, k);
        let after = ordered_by(keys);
        lemma_order_is_permutation(front);
        lemma_order_is_permutation(keys);
        lemma_order_is_sorted(front);
        lemma_place(keys, before, k);
        assert forall|a: int, b: int| 0 <= a < b < keys.len() implies !key_below(
            keys[#[trigger] after[b]],
            keys[#[trigger] after[a]],
        ) && (keys[after[a]] == keys[after[b]] ==> after[a] < after[b]) by {
            let x = if a < at {
                a
            } else {
                a - 1
            };
            let y = if b < at {
                b
            } else {
                b - 1
            };
            if a != at {
                assert(after[a] == before[x]);
                assert(front[before[x]] == keys[after[a]]);
            }
            if b != at {
                assert(after[b] == before[y]);
                assert(front[before[y]] == keys[after[b]]);
            }
            if a == at {
                assert(key_below(k, keys[before[y]]));
            } else if b == at {
                assert(!key_below(k, keys[before[at - 1]]));
                if x < at - 1 {
                    assert(front[before[at - 1]] == keys[before[at - 1]]);
                    assert(!key_below(front[before[at - 1]], front[before[x]]));
                }
            } else {
                assert(!key_below(front[before[y]], front[before[x]]));
            }
        }
    }
}

/// The positions of the items in increasing order of their keys.
pub fn stable_order(keys: &Vec<(u128, u128)>) -> (r: Vec<usize>)
    ensures
        as_ints(r@) == ordered_by(keys@),
{
    let mut order: Vec<usize> = Vec::new();
    let mut i: usize = 0;
    proof {
        assert(keys@.take(0) =~= seq![]);
        assert(as_ints(order@) =~= seq![]);
    }
    while i < keys.len()
        invariant
            i <= keys@.len(),
            as_ints(order@) == ordered_by(keys@.take(i as int)),
        decreases keys@.len() - i,
    {
        let ghost before = as_ints(order@);
        let ghost shorter = keys@.take(i as int);
        proof {
            lemma_order_is_permutation(shorter);
            assert(keys@.take(i + 1).drop_last() =~= shorter);
            assert(keys@.take(i + 1).last() == keys@[i as int]);
            assert forall|j: int| 0 <= j < order@.len() implies #[trigger] order@[j] < i by {
                assert(before[j] == order@[j]);
            }
            assert(before.take(order@.len() as int) =~= before);
        }
        let mut at: usize = order.len();
        while at > 0 && (keys[i].0 < keys[order[at - 1]].0 || (keys[i].0 == keys[order[at - 1]].0
            && keys[i].1 < keys[order[at - 1]].1))
            invariant
                i < keys@.len(),
                at <= order@.len(),
                before == as_ints(order@),
                forall|j: int| 0 <= j < order@.len() ==> #[trigger] order@[j] < i,
                place(keys@, before.take(at as int), keys@[i as int]) == place(
                    keys@,
                    before,
                    keys@[i as int],
                ),
            decreases at,
        {
            assert(before.take(at as int).drop_last() =~= before.take(at - 1));
            assert(before.take(at as int).last() == order@[at - 1]);
            at = at - 1;
        }
        proof {
            if at > 0 {
                assert(before.take(at as int).last() == order@[at - 1]);
            }
            lemma_place_prefix(keys@, before, keys@[i as int], i + 1);
        }
        order.insert(at, i);
        assert(as_ints(order@) =~= before.insert(at as int, i as int));
        i = i + 1;
    }
    assert(keys@.take(keys@.len() as int) =~= keys@);
    order
}

} // verus!
