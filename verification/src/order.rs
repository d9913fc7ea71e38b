//! Stable ordering by an integer key.
//!
//! An order is a sequence of positions: the listing it describes shows the
//! item at position `order[0]` first. It is stable where items with equal
//! keys keep the order they came in.

use vstd::prelude::*;

verus! {

/// Whether `order` lists every position below `n` exactly once.
pub open spec fn is_arrangement(order: Seq<usize>, n: int) -> bool {
    &&& order.len() == n <= usize::MAX
    &&& forall|i: int| 0 <= i < order.len() ==> (#[trigger] order[i]) < n
    &&& forall|i: int, j: int|
        0 <= i < j < order.len() ==> (#[trigger] order[i]) != (#[trigger] order[j])
    &&& forall|p: usize| p < n ==> #[trigger] order.contains(p)
}

/// Whether key `a` sorts strictly before key `b`.
pub open spec fn key_before(a: i128, b: i128, descending: bool) -> bool {
    if descending {
        a > b
    } else {
        a < b
    }
}

/// Whether the item at position `p` must stand before the item at position
/// `q`: its key sorts first, or the keys are equal and it came first.
pub open spec fn precedes(keys: Seq<i128>, descending: bool, p: int, q: int) -> bool {
    key_before(keys[p], keys[q], descending) || (keys[p] == keys[q] && p < q)
}

/// Whether `order` arranges the first `n` positions by key, equal keys in
/// the order they came in.
pub open spec fn is_stable_order_of_first(
    keys: Seq<i128>,
    descending: bool,
    n: int,
    order: Seq<usize>,
) -> bool {
    &&& 0 <= n <= keys.len()
    &&& is_arrangement(order, n)
    &&& forall|i: int, j: int|
        0 <= i < j < order.len() ==> precedes(
            keys,
            descending,
            (#[trigger] order[i]) as int,
            (#[trigger] order[j]) as int,
        )
}

/// Whether `order` arranges all positions of `keys` by key, descending or
/// ascending, equal keys in the order they came in.
pub open spec fn is_stable_order(keys: Seq<i128>, descending: bool, order: Seq<usize>) -> bool {
    is_stable_order_of_first(keys, descending, keys.len() as int, order)
}

/// The stable order of `keys`: the one arrangement of their positions by
/// key, descending or ascending, in which equal keys keep the order they
/// came in.
pub open spec fn stable_order(keys: Seq<i128>, descending: bool) -> Seq<usize> {
    choose|order: Seq<usize>| is_stable_order(keys, descending, order)
}

/// The items in the sequence that `order` puts them in.
pub open spec fn arranged<T>(items: Seq<T>, order: Seq<usize>) -> Seq<T> {
    Seq::new(order.len(), |i: int| items[order[i] as int])
}

/// Decides `key_before`.
fn sorts_before(a: i128, b: i128, descending: bool) -> (r: bool)
    ensures
        r == key_before(a, b, descending),
{
    if descending {
        a > b
    } else {
        a < b
    }
}

/// The positions of `keys` in descending or ascending order of key, equal
/// keys in the order they came in.
pub fn sorted_positions(keys: &Vec<i128>, descending: bool) -> (order: Vec<usize>)
    ensures
        order@ == stable_order(keys@, descending),
        is_stable_order(keys@, descending, order@),
{
    let mut order: Vec<usize> = Vec::new();
    let mut k: usize = 0;
    while k < keys.len()
        invariant
            k <= keys.len(),
            is_stable_order_of_first(keys@, descending, k as int, order@),
        decreases keys.len() - k,
    {
        let mut pos: usize = 0;
        while pos < order.len()
            invariant
                k < keys.len(),
                pos <= order.len(),
                is_stable_order_of_first(keys@, descending, k as int, order@),
                forall|i: int|
                    0 <= i < pos ==> !key_before(
                        keys@[k as int],
                        keys@[(#[trigger] order@[i]) as int],
                        descending,
                    ),
            ensures
                pos <= order.len(),
                forall|i: int|
                    0 <= i < pos ==> !key_before(
                        keys@[k as int],
                        keys@[(#[trigger] order@[i]) as int],
                        descending,
                    ),
                pos < order.len() ==> key_before(
                    keys@[k as int],
                    keys@[order@[pos as int] as int],
                    descending,
                ),
            decreases order.len() - pos,
        {
            if sorts_before(keys[k], keys[order[pos]], descending) {
                break ;
            }
            pos += 1;
        }
        let ghost before = order@;
        order.insert(pos, k);
        proof {
            lemma_insert_keeps_order(keys@, descending, k as int, before, pos as int);
        }
        k += 1;
    }
    proof {
        lemma_stable_order_unique(keys@, descending, order@, stable_order(keys@, descending));
    }
    order
}

/// Putting the next position into a stable order, before the first item
/// that its key sorts before, gives a stable order again.
proof fn lemma_insert_keeps_order(
    keys: Seq<i128>,
    descending: bool,
    k: int,
    before: Seq<usize>,
    pos: int,
)
    requires
        0 <= k < keys.len(),
        k < usize::MAX,
        is_stable_order_of_first(keys, descending, k, before),
        0 <= pos <= before.len(),
        forall|i: int|
            0 <= i < pos ==> !key_before(keys[k], keys[(#[trigger] before[i]) as int], descending),
        pos < before.len() ==> key_before(keys[k], keys[before[pos] as int], descending),
    ensures
        is_stable_order_of_first(keys, descending, k + 1, before.insert(pos, k as usize)),
{
    let after = before.insert(pos, k as usize);
    before.insert_ensures(pos, k as usize);
    assert forall|i: int| 0 <= i < after.len() implies (#[trigger] after[i]) < k + 1 by {
        if i < pos {
            assert(after[i] == before[i]);
        } else if i > pos {
            assert(after[i] == before[i - 1]);
        }
    }
    assert forall|i: int, j: int| 0 <= i < j < after.len() implies precedes(
        keys,
        descending,
        (#[trigger] after[i]) as int,
        (#[trigger] after[j]) as int,
    ) && after[i] != after[j] by {
        if j < pos {
            assert(after[i] == before[i] && after[j] == before[j]);
        } else if j == pos {
            assert(after[i] == before[i]);
            assert(before[i] < k);
        } else if i < pos {
            assert(after[i] == before[i] && after[j] == before[j - 1]);
        } else if i == pos {
            assert(after[j] == before[j - 1]);
            assert(before[j - 1] < k);
            if j - 1 > pos {
                assert(precedes(keys, descending, before[pos] as int, before[j - 1] as int));
            }
        } else {
            assert(after[i] == before[i - 1] && after[j] == before[j - 1]);
        }
    }
    assert forall|p: usize| p < k + 1 implies #[trigger] after.contains(p) by {
        if p == k {
            assert(after[pos] == p);
        } else {
            assert(before.contains(p));
            let i = choose|i: int| 0 <= i < before.len() && before[i] == p;
            if i < pos {
                assert(after[i] == p);
            } else {
                assert(after[i + 1] == before[i]);
            }
        }
    }
}

/// There is one stable order only.
pub proof fn lemma_stable_order_unique(
    keys: Seq<i128>,
    descending: bool,
    first: Seq<usize>,
    second: Seq<usize>,
)
    requires
        is_stable_order(keys, descending, first),
        is_stable_order(keys, descending, second),
    ensures
        first == second,
{
    lemma_stable_orders_agree(keys, descending, first, second, keys.len() as int);
    assert(first =~= second);
}

/// Two stable orders agree on their first `upto` places.
proof fn lemma_stable_orders_agree(
    keys: Seq<i128>,
    descending: bool,
    first: Seq<usize>,
    second: Seq<usize>,
    upto: int,
)
    requires
        is_stable_order(keys, descending, first),
        is_stable_order(keys, descending, second),
        0 <= upto <= keys.len(),
    ensures
        forall|i: int| 0 <= i < upto ==> first[i] == second[i],
    decreases upto,
{
    if upto > 0 {
        lemma_stable_orders_agree(keys, descending, first, second, upto - 1);
        let i = upto - 1;
        let x = first[i];
        let y = second[i];
        if x != y {
            assert(second.contains(x));
            assert(first.contains(y));
            let jx = choose|j: int| 0 <= j < second.len() && second[j] == x;
            let jy = choose|j: int| 0 <= j < first.len() && first[j] == y;
            if jx < i {
                assert(first[jx] == second[jx]);
            }
            if jy < i {
                assert(second[jy] == first[jy]);
            }
            assert(precedes(keys, descending, second[i] as int, second[jx] as int));
            assert(precedes(keys, descending, first[i] as int, first[jy] as int));
        }
    }
}

/// The place at which the next position goes into a stable order of the
/// positions before it.
proof fn lemma_insert_position(
    keys: Seq<i128>,
    descending: bool,
    k: int,
    before: Seq<usize>,
    from: int,
) -> (pos: int)
    requires
        0 <= k < keys.len(),
        is_stable_order_of_first(keys, descending, k, before),
        0 <= from <= before.len(),
        forall|i: int|
            0 <= i < from ==> !key_before(keys[k], keys[(#[trigger] before[i]) as int], descending),
    ensures
        0 <= pos <= before.len(),
        forall|i: int|
            0 <= i < pos ==> !key_before(keys[k], keys[(#[trigger] before[i]) as int], descending),
        pos < before.len() ==> key_before(keys[k], keys[before[pos] as int], descending),
    decreases before.len() - from,
{
    if from == before.len() || key_before(keys[k], keys[before[from] as int], descending) {
        from
    } else {
        lemma_insert_position(keys, descending, k, before, from + 1)
    }
}

/// The first `n` positions have a stable order.
proof fn lemma_stable_order_of_first_exists(keys: Seq<i128>, descending: bool, n: int) -> (order:
    Seq<usize>)
    requires
        0 <= n <= keys.len(),
        n <= usize::MAX,
    ensures
        is_stable_order_of_first(keys, descending, n, order),
    decreases n,
{
    if n == 0 {
        Seq::empty()
    } else {
        let before = lemma_stable_order_of_first_exists(keys, descending, n - 1);
        let pos = lemma_insert_position(keys, descending, n - 1, before, 0);
        lemma_insert_keeps_order(keys, descending, n - 1, before, pos);
        before.insert(pos, (n - 1) as usize)
    }
}

/// Keys that a `Vec` can hold have a stable order, and `stable_order` is
/// it: it lists every position once, no item stands before one that its
/// key sorts after, and items of equal key stand as they came in.
pub proof fn lemma_stable_order_exists(keys: Seq<i128>, descending: bool)
    requires
        keys.len() <= usize::MAX,
    ensures
        is_stable_order(keys, descending, stable_order(keys, descending)),
{
    let order = lemma_stable_order_of_first_exists(keys, descending, keys.len() as int);
    assert(is_stable_order(keys, descending, order));
}

} // verus!
