//! The order in which pallets are emitted: by index, ascending. Pallets of
//! one index keep the order of the schema.

use crate::schema::{views, Pallet, PalletView};
use crate::search::distinct;
use vstd::prelude::*;

verus! {

/// The indices of the pallets, position by position.
pub open spec fn pallet_indices(pallets: Seq<PalletView>) -> Seq<u8> {
    Seq::new(pallets.len(), |i: int| pallets[i].index)
}

/// The positions below `upto` at which `keys` holds `key`, ascending.
pub open spec fn positions_of(keys: Seq<u8>, key: u8, upto: nat) -> Seq<int>
    decreases upto,
{
    if upto == 0 {
        Seq::empty()
    } else {
        let before = positions_of(keys, key, (upto - 1) as nat);
        if upto <= keys.len() && keys[upto - 1] == key {
            before.push(upto - 1)
        } else {
            before
        }
    }
}

/// The positions of the keys below `bound`: those of the key 0 first, then
/// those of the key 1, and so on.
pub open spec fn order_below(keys: Seq<u8>, bound: nat) -> Seq<int>
    decreases bound,
{
    if bound == 0 {
        Seq::empty()
    } else {
        order_below(keys, (bound - 1) as nat) + positions_of(
            keys,
            (bound - 1) as u8,
            keys.len(),
        )
    }
}

/// The positions of `keys`, ordered by key; positions of one key ascend.
pub open spec fn index_order(keys: Seq<u8>) -> Seq<int> {
    order_below(keys, 256)
}

/// The pallets ordered by index.
pub open spec fn ordered_by_index(pallets: Seq<PalletView>) -> Seq<PalletView> {
    let order = index_order(pallet_indices(pallets));
    Seq::new(order.len(), |k: int| pallets[order[k]])
}

/// Position `p` comes before position `q`: its key is smaller, or the keys
/// are equal and `p` is the earlier position.
pub open spec fn precedes(keys: Seq<u8>, p: int, q: int) -> bool {
    keys[p] < keys[q] || (keys[p] == keys[q] && p < q)
}

/// `order` lists every position of `keys` once, each before those that it
/// precedes.
pub open spec fn is_index_order(keys: Seq<u8>, order: Seq<int>) -> bool {
    &&& order.len() == keys.len()
    &&& forall|a: int| 0 <= a < order.len() ==> 0 <= #[trigger] order[a] < keys.len()
    &&& forall|a: int, b: int|
        0 <= a < b < order.len() ==> precedes(keys, #[trigger] order[a], #[trigger] order[b])
}

/// Positions as mathematical integers.
pub open spec fn as_ints(positions: Seq<usize>) -> Seq<int> {
    Seq::new(positions.len(), |i: int| positions[i] as int)
}

/// The positions of a key are those at which the key stands, in ascending
/// order.
proof fn lemma_positions_of(keys: Seq<u8>, key: u8, upto: nat)
    ensures
        forall|a: int|
            0 <= a < positions_of(keys, key, upto).len() ==> {
                let p = #[trigger] positions_of(keys, key, upto)[a];
                0 <= p < upto && p < keys.len() && keys[p] == key
            },
        forall|a: int, b: int|
            0 <= a < b < positions_of(keys, key, upto).len() ==> #[trigger] positions_of(
                keys,
                key,
                upto,
            )[a] < #[trigger] positions_of(keys, key, upto)[b],
        forall|p: int|
            0 <= p < upto && p < keys.len() && #[trigger] keys[p] == key ==> positions_of(
                keys,
                key,
                upto,
            ).contains(p),
    decreases upto,
{
    if upto > 0 {
        let before = positions_of(keys, key, (upto - 1) as nat);
        let now = positions_of(keys, key, upto);
        lemma_positions_of(keys, key, (upto - 1) as nat);
        assert forall|p: int|
            0 <= p < upto && p < keys.len() && #[trigger] keys[p] == key implies now.contains(
            p,
        ) by {
            if p == upto - 1 {
                assert(now[now.len() - 1] == p);
            } else {
                assert(before.contains(p));
                let a = choose|a: int| 0 <= a < before.len() && before[a] == p;
                assert(now[a] == p);
            }
        }
    }
}

/// The order below a bound lists the positions of the keys below the bound,
/// each before those that it precedes.
proof fn lemma_order_below(keys: Seq<u8>, bound: nat)
    requires
        bound <= 256,
    ensures
        forall|a: int|
            0 <= a < order_below(keys, bound).len() ==> {
                let p = #[trigger] order_below(keys, bound)[a];
                0 <= p < keys.len() && keys[p] < bound
            },
        forall|a: int, b: int|
            0 <= a < b < order_below(keys, bound).len() ==> precedes(
                keys,
                #[trigger] order_below(keys, bound)[a],
                #[trigger] order_below(keys, bound)[b],
            ),
        forall|p: int|
            0 <= p < keys.len() && #[trigger] keys[p] < bound ==> order_below(
                keys,
                bound,
            ).contains(p),
    decreases bound,
{
    if bound > 0 {
        let key = (bound - 1) as u8;
        let before = order_below(keys, (bound - 1) as nat);
        let added = positions_of(keys, key, keys.len());
        let now = order_below(keys, bound);
        lemma_order_below(keys, (bound - 1) as nat);
        lemma_positions_of(keys, key, keys.len());
        assert(now == before + added);
        assert forall|a: int| 0 <= a < now.len() implies {
            let p = #[trigger] now[a];
            0 <= p < keys.len() && keys[p] < bound
        } by {
            if a < before.len() {
                assert(now[a] == before[a]);
            } else {
                assert(now[a] == added[a - before.len()]);
            }
        }
        assert forall|a: int, b: int| 0 <= a < b < now.len() implies precedes(
            keys,
            #[trigger] now[a],
            #[trigger] now[b],
        ) by {
            if b < before.len() {
                assert(now[a] == before[a] && now[b] == before[b]);
            } else if a < before.len() {
                assert(now[a] == before[a]);
                assert(now[b] == added[b - before.len()]);
            } else {
                assert(now[a] == added[a - before.len()]);
                assert(now[b] == added[b - before.len()]);
            }
        }
        assert forall|p: int|
            0 <= p < keys.len() && #[trigger] keys[p] < bound implies now.contains(p) by {
            if keys[p] == key {
                assert(added.contains(p));
                let a = choose|a: int| 0 <= a < added.len() && added[a] == p;
                assert(now[before.len() + a] == p);
            } else {
                assert(before.contains(p));
                let a = choose|a: int| 0 <= a < before.len() && before[a] == p;
                assert(now[a] == p);
            }
        }
    }
}

/// The order by index lists every position once, sorted by key, and keeps
/// the positions of one key in ascending order.
pub proof fn lemma_index_order(keys: Seq<u8>)
    ensures
        is_index_order(keys, index_order(keys)),
        forall|p: int| 0 <= p < keys.len() ==> index_order(keys).contains(p),
{
    let order = index_order(keys);
    lemma_order_below(keys, 256);
    assert forall|p: int| 0 <= p < keys.len() implies order.contains(p) by {
        assert(keys[p] < 256);
    }
    assert(order.no_duplicates()) by {
        assert forall|a: int, b: int|
            0 <= a < order.len() && 0 <= b < order.len() && a != b implies order[a] != order[b] by {
            if a < b {
                assert(precedes(keys, order[a], order[b]));
            } else {
                assert(precedes(keys, order[b], order[a]));
            }
        }
    }
    order.unique_seq_to_set();
    vstd::set_lib::lemma_int_range(0, keys.len() as int);
    assert(order.to_set() =~= vstd::set_lib::set_int_range(0, keys.len() as int)) by {
        assert forall|p: int| order.to_set().contains(p) implies 0 <= p < keys.len() by {
            let a = choose|a: int| 0 <= a < order.len() && order[a] == p;
            assert(0 <= order[a] < keys.len());
        }
    }
}

/// The pallets stand by strictly ascending index.
pub open spec fn ascending(pallets: Seq<PalletView>) -> bool {
    forall|i: int, j: int|
        0 <= i < j < pallets.len() ==> (#[trigger] pallets[i]).index < (#[trigger] pallets[j]).index
}

/// Pallets that are ordered by index stand by ascending index; where no two
/// of them have one index, by strictly ascending index. They are the pallets
/// that were listed, each as often as it was listed.
pub proof fn lemma_ordered_by_index(pallets: Seq<PalletView>)
    ensures
        ordered_by_index(pallets).len() == pallets.len(),
        forall|i: int, j: int|
            0 <= i < j < pallets.len() ==> (#[trigger] ordered_by_index(pallets)[i]).index
                <= (#[trigger] ordered_by_index(pallets)[j]).index,
        distinct(pallet_indices(pallets)) ==> ascending(ordered_by_index(pallets)),
        forall|k: int|
            0 <= k < pallets.len() ==> pallets.contains(#[trigger] ordered_by_index(pallets)[k]),
        forall|p: int|
            0 <= p < pallets.len() ==> ordered_by_index(pallets).contains(#[trigger] pallets[p]),
{
    let keys = pallet_indices(pallets);
    let order = index_order(keys);
    let ordered = ordered_by_index(pallets);
    lemma_index_order(keys);
    assert forall|i: int, j: int| 0 <= i < j < pallets.len() implies (#[trigger] ordered[i]).index
        <= (#[trigger] ordered[j]).index && (distinct(keys) ==> ordered[i].index
        < ordered[j].index) by {
        assert(precedes(keys, order[i], order[j]));
        assert(ordered[i].index == keys[order[i]]);
        assert(ordered[j].index == keys[order[j]]);
    }
    assert forall|k: int| 0 <= k < pallets.len() implies pallets.contains(
        #[trigger] ordered[k],
    ) by {
        assert(pallets[order[k]] == ordered[k]);
    }
    assert forall|p: int| 0 <= p < pallets.len() implies ordered.contains(
        #[trigger] pallets[p],
    ) by {
        assert(order.contains(p));
        let k = choose|k: int| 0 <= k < order.len() && order[k] == p;
        assert(ordered[k] == pallets[p]);
    }
}

/// Two sequences of pallets by strictly ascending index that hold the same
/// pallets agree up to position `k`.
proof fn lemma_ascending_agree(a: Seq<PalletView>, b: Seq<PalletView>, k: int)
    requires
        a.len() == b.len(),
        ascending(a),
        ascending(b),
        forall|i: int| 0 <= i < a.len() ==> b.contains(#[trigger] a[i]),
        forall|i: int| 0 <= i < b.len() ==> a.contains(#[trigger] b[i]),
        0 <= k < a.len(),
    ensures
        forall|i: int| 0 <= i <= k ==> a[i] == b[i],
    decreases k,
{
    if k > 0 {
        lemma_ascending_agree(a, b, k - 1);
    }
    assert(b.contains(a[k]));
    let j = choose|j: int| 0 <= j < b.len() && b[j] == a[k];
    if j < k {
        assert(a[j] == b[j]);
        assert(a[j].index < a[k].index);
    } else if j > k {
        assert(b[k].index < b[j].index);
        assert(a.contains(b[k]));
        let i = choose|i: int| 0 <= i < a.len() && a[i] == b[k];
        if i > k {
            assert(a[k].index < a[i].index);
        } else if i < k {
            assert(a[i] == b[i]);
            assert(b[i].index < b[k].index);
        }
    }
}

/// Where no two pallets have one index, the order by index does not depend
/// on the order in which the pallets are listed.
pub proof fn lemma_order_ignores_listing(first: Seq<PalletView>, second: Seq<PalletView>)
    requires
        first.to_multiset() == second.to_multiset(),
        distinct(pallet_indices(first)),
    ensures
        distinct(pallet_indices(second)),
        ordered_by_index(first) == ordered_by_index(second),
{
    broadcast use vstd::seq_lib::group_to_multiset_ensures;

    let a = ordered_by_index(first);
    let b = ordered_by_index(second);
    assert(first.len() == second.len()) by {
        assert(first.len() == first.to_multiset().len());
        assert(second.len() == second.to_multiset().len());
    }
    assert forall|x: PalletView| first.contains(x) <==> second.contains(x) by {
        assert(first.contains(x) <==> first.to_multiset().count(x) > 0);
        assert(second.contains(x) <==> second.to_multiset().count(x) > 0);
    }
    assert(first.no_duplicates()) by {
        assert forall|i: int, j: int|
            0 <= i < first.len() && 0 <= j < first.len() && i != j implies first[i]
            != first[j] by {
            assert(pallet_indices(first)[i] == first[i].index);
            assert(pallet_indices(first)[j] == first[j].index);
        }
    }
    first.lemma_multiset_has_no_duplicates();
    second.lemma_multiset_has_no_duplicates_conv();
    assert(distinct(pallet_indices(second))) by {
        assert forall|i: int, j: int| 0 <= i < j < second.len() implies #[trigger] pallet_indices(
            second,
        )[i] != #[trigger] pallet_indices(second)[j] by {
            assert(second[i] != second[j]);
            assert(first.contains(second[i]) && first.contains(second[j]));
            let p = choose|p: int| 0 <= p < first.len() && first[p] == second[i];
            let q = choose|q: int| 0 <= q < first.len() && first[q] == second[j];
            assert(pallet_indices(first)[p] == first[p].index);
            assert(pallet_indices(first)[q] == first[q].index);
        }
    }
    lemma_ordered_by_index(first);
    lemma_ordered_by_index(second);
    assert forall|i: int| 0 <= i < a.len() implies b.contains(#[trigger] a[i]) by {
        assert(first.contains(a[i]));
        assert(second.contains(a[i]));
        let p = choose|p: int| 0 <= p < second.len() && second[p] == a[i];
        assert(b.contains(second[p]));
    }
    assert forall|i: int| 0 <= i < b.len() implies a.contains(#[trigger] b[i]) by {
        assert(second.contains(b[i]));
        assert(first.contains(b[i]));
        let p = choose|p: int| 0 <= p < first.len() && first[p] == b[i];
        assert(a.contains(first[p]));
    }
    if a.len() > 0 {
        lemma_ascending_agree(a, b, a.len() - 1);
    }
    assert(a =~= b);
}

/// The positions of the pallets in the order in which they are emitted.
pub fn pallet_order(pallets: &Vec<Pallet>) -> (order: Vec<usize>)
    ensures
        as_ints(order@) == index_order(pallet_indices(views(pallets@))),
        order@.len() == pallets@.len(),
        forall|k: int| 0 <= k < order@.len() ==> #[trigger] order@[k] < pallets@.len(),
{
    let ghost keys = pallet_indices(views(pallets@));
    let mut order: Vec<usize> = Vec::new();
    let mut key: u16 = 0;
    while key < 256
        invariant
            key <= 256,
            keys == pallet_indices(views(pallets@)),
            as_ints(order@) == order_below(keys, key as nat),
        decreases 256 - key,
    {
        let mut i: usize = 0;
        while i < pallets.len()
            invariant
                key < 256,
                i <= pallets.len(),
                keys == pallet_indices(views(pallets@)),
                as_ints(order@) == order_below(keys, key as nat) + positions_of(
                    keys,
                    key as u8,
                    i as nat,
                ),
            decreases pallets.len() - i,
        {
            let ghost before = as_ints(order@);
            let ghost found = positions_of(keys, key as u8, i as nat);
            assert(keys[i as int] == pallets@[i as int].index);
            if pallets[i].index as u16 == key {
                order.push(i);
                assert(as_ints(order@) =~= before.push(i as int));
            }
            i += 1;
            assert(positions_of(keys, key as u8, i as nat) == if keys[i - 1] == key as u8 {
                found.push(i - 1)
            } else {
                found
            });
            assert(as_ints(order@) =~= order_below(keys, key as nat) + positions_of(
                keys,
                key as u8,
                i as nat,
            ));
        }
        assert(order_below(keys, (key + 1) as nat) == order_below(keys, key as nat) + positions_of(
            keys,
            key as u8,
            keys.len(),
        ));
        key += 1;
    }
    proof {
        lemma_index_order(keys);
        assert forall|k: int| 0 <= k < order@.len() implies #[trigger] order@[k]
            < pallets@.len() by {
            assert(as_ints(order@)[k] == order@[k]);
        }
    }
    order
}

} // verus!
