//! The angular order: a sort by key that keeps equal keys in the order in
//! which they came.

use vstd::prelude::*;

verus! {

/// Where the item `x` goes in an order that is already sorted by key:
/// behind the last item whose key is not greater than its own.
pub open spec fn slot(order: Seq<usize>, keys: Seq<u32>, x: int) -> int
    decreases order.len(),
{
    if order.len() == 0 {
        0
    } else if keys[order.last() as int] <= keys[x] {
        order.len() as int
    } else {
        slot(order.drop_last(), keys, x)
    }
}

/// The first `n` items in order of their keys. Each item in turn is put
/// behind those that have come before it and whose key is not greater.
pub open spec fn order_upto(keys: Seq<u32>, n: int) -> Seq<usize>
    decreases n,
{
    if n <= 0 {
        Seq::empty()
    } else {
        let before = order_upto(keys, n - 1);
        before.insert(slot(before, keys, n - 1), (n - 1) as usize)
    }
}

/// The items, named by their places in `keys`, in order of their keys;
/// items with the same key stay in the order in which they came.
pub open spec fn angular_order(keys: Seq<u32>) -> Seq<usize> {
    order_upto(keys, keys.len() as int)
}

/// Whether `order` lists each of the first `n` items once, by rising key,
/// and items with the same key in the order in which they came.
pub open spec fn stably_sorted(order: Seq<usize>, keys: Seq<u32>, n: int) -> bool {
    &&& order.len() == n
    &&& forall|a: int| 0 <= a < n ==> 0 <= #[trigger] order[a] < n
    &&& forall|j: usize| 0 <= j < n ==> #[trigger] order.contains(j)
    &&& forall|a: int, b: int|
        0 <= a < b < n ==> {
            ||| keys[(#[trigger] order[a]) as int] < keys[(#[trigger] order[b]) as int]
            ||| (keys[order[a] as int] == keys[order[b] as int] && order[a] < order[b])
        }
}

/// The slot found in the first `len` places of a sorted order.
proof fn slot_scan(order: Seq<usize>, keys: Seq<u32>, x: int, len: int)
    requires
        0 <= len <= order.len(),
        0 <= x < keys.len(),
        forall|a: int| 0 <= a < order.len() ==> 0 <= #[trigger] order[a] < keys.len(),
        forall|a: int, b: int|
            0 <= a < b < order.len() ==> keys[(#[trigger] order[a]) as int] <= keys[(
            #[trigger] order[b]) as int],
    ensures
        0 <= slot(order.take(len), keys, x) <= len,
        forall|a: int|
            0 <= a < slot(order.take(len), keys, x) ==> keys[(#[trigger] order[a]) as int]
                <= keys[x],
        forall|a: int|
            slot(order.take(len), keys, x) <= a < len ==> keys[(#[trigger] order[a]) as int]
                > keys[x],
    decreases len,
{
    if len > 0 {
        let head = order.take(len);
        assert(head.last() == order[len - 1]);
        if keys[head.last() as int] <= keys[x] {
            assert forall|a: int| 0 <= a < len implies keys[(#[trigger] order[a]) as int]
                <= keys[x] by {
                if a < len - 1 {
                    assert(keys[order[a] as int] <= keys[order[len - 1] as int]);
                }
            }
        } else {
            assert(head.drop_last() == order.take(len - 1));
            slot_scan(order, keys, x, len - 1);
        }
    }
}

/// The order of the first `n` items lists each of them once, by rising
/// key, and keeps items with the same key in the order in which they came.
pub proof fn order_upto_is_stable(keys: Seq<u32>, n: int)
    requires
        0 <= n <= keys.len() <= usize::MAX,
    ensures
        stably_sorted(order_upto(keys, n), keys, n),
    decreases n,
{
    if n > 0 {
        let before = order_upto(keys, n - 1);
        order_upto_is_stable(keys, n - 1);
        assert(before.take(before.len() as int) == before);
        slot_scan(before, keys, n - 1, before.len() as int);
        let p = slot(before, keys, n - 1);
        let after = before.insert(p, (n - 1) as usize);
        assert forall|j: usize| 0 <= j < n implies #[trigger] after.contains(j) by {
            if j == n - 1 {
                assert(after[p] == j);
            } else {
                assert(before.contains(j));
                let a = choose|a: int| 0 <= a < before.len() && before[a] == j;
                if a < p {
                    assert(after[a] == j);
                } else {
                    assert(after[a + 1] == j);
                }
            }
        }
        assert forall|a: int, b: int| 0 <= a < b < n implies {
            ||| keys[(#[trigger] after[a]) as int] < keys[(#[trigger] after[b]) as int]
            ||| (keys[after[a] as int] == keys[after[b] as int] && after[a] < after[b])
        } by {
            let ia = if a < p { a } else { a - 1 };
            let ib = if b < p { b } else { b - 1 };
            if a != p && b != p {
                assert(after[a] == before[ia]);
                assert(after[b] == before[ib]);
                assert(ia < ib);
            } else if a == p {
                assert(after[b] == before[ib]);
                assert(keys[before[ib] as int] > keys[n - 1]);
            } else {
                assert(after[a] == before[ia]);
                assert(keys[before[ia] as int] <= keys[n - 1]);
                assert(before[ia] < n - 1);
            }
        }
    }
}

/// The angular order lists every item once, by rising key, and keeps items
/// with the same key in the order in which they came. Where no two keys
/// are the same, the keys rise strictly along it.
pub proof fn angular_order_is_stable(keys: Seq<u32>)
    requires
        keys.len() <= usize::MAX,
    ensures
        stably_sorted(angular_order(keys), keys, keys.len() as int),
        (forall|a: int, b: int| 0 <= a < b < keys.len() ==> keys[a] != keys[b]) ==> forall|
            a: int,
            b: int,
        |
            0 <= a < b < keys.len() ==> keys[(#[trigger] angular_order(keys)[a]) as int] < keys[(
            #[trigger] angular_order(keys)[b]) as int],
{
    order_upto_is_stable(keys, keys.len() as int);
    let order = angular_order(keys);
    if forall|a: int, b: int| 0 <= a < b < keys.len() ==> keys[a] != keys[b] {
        assert forall|a: int, b: int| 0 <= a < b < keys.len() implies keys[(
        #[trigger] order[a]) as int] < keys[(#[trigger] order[b]) as int] by {
            let x = order[a] as int;
            let y = order[b] as int;
            assert(x != y);
            if x < y {
                assert(keys[x] != keys[y]);
            } else {
                assert(keys[y] != keys[x]);
            }
        }
    }
}

/// The places of `keys` in order of their keys; places with the same key
/// stay in the order in which they stand.
pub fn sort_by_key(keys: &Vec<u32>) -> (order: Vec<usize>)
    ensures
        order@ == angular_order(keys@),
        order@.len() == keys@.len(),
        forall|a: int| 0 <= a < order@.len() ==> #[trigger] order@[a] < keys@.len(),
{
    let mut order: Vec<usize> = Vec::new();
    let mut k: usize = 0;
    while k < keys.len()
        invariant
            k <= keys.len(),
            order@ == order_upto(keys@, k as int),
            order@.len() == k,
            forall|a: int| 0 <= a < order@.len() ==> #[trigger] order@[a] < k,
        decreases keys.len() - k,
    {
        let mut p: usize = order.len();
        proof {
            assert(order@.take(p as int) == order@);
        }
        while p > 0 && keys[order[p - 1]] > keys[k]
            invariant
                p <= order.len(),
                k < keys.len(),
                order@.len() == k,
                forall|a: int| 0 <= a < order@.len() ==> #[trigger] order@[a] < k,
                slot(order@, keys@, k as int) == slot(order@.take(p as int), keys@, k as int),
            decreases p,
        {
            proof {
                assert(order@.take(p as int).drop_last() == order@.take(p - 1));
            }
            p = p - 1;
        }
        proof {
            if p > 0 {
                assert(order@.take(p as int).last() == order@[p - 1]);
            }
        }
        order.insert(p, k);
        k = k + 1;
    }
    order
}

} // verus!
