//! Stable ordering of positions: the positions `0 .. n` arranged so that a
//! relation holds from left to right and ties keep their original order.

use vstd::prelude::*;

verus! {

/// `order` with `item` put in as far right as `leq` allows.
pub open spec fn placed(order: Seq<int>, item: int, leq: spec_fn(int, int) -> bool) -> Seq<int>
    decreases order.len(),
{
    if order.len() == 0 || leq(order.last(), item) {
        order.push(item)
    } else {
        placed(order.drop_last(), item, leq).push(order.last())
    }
}

/// The positions below `n` that `keep` admits, in stable order under `leq`.
pub open spec fn stable_order(
    n: nat,
    keep: spec_fn(int) -> bool,
    leq: spec_fn(int, int) -> bool,
) -> Seq<int>
    decreases n,
{
    if n == 0 {
        Seq::empty()
    } else {
        let before = stable_order((n - 1) as nat, keep, leq);
        if keep(n - 1) {
            placed(before, n - 1, leq)
        } else {
            before
        }
    }
}

/// A total preorder: any two items compare, and comparison chains.
pub open spec fn total_preorder(leq: spec_fn(int, int) -> bool) -> bool {
    &&& forall|a: int, b: int| #[trigger] leq(a, b) || leq(b, a)
    &&& forall|a: int, b: int, c: int| #[trigger] leq(a, b) && #[trigger] leq(b, c) ==> leq(a, c)
}

/// Whether an arrangement holds `leq` from left to right, ties in ascending position.
pub open spec fn arranged(order: Seq<int>, leq: spec_fn(int, int) -> bool) -> bool {
    forall|i: int, j: int|
        #![trigger order[i], order[j]]
        0 <= i < j < order.len() ==> leq(order[i], order[j]) && (leq(order[j], order[i]) ==> order[i]
            < order[j])
}

proof fn lemma_placed(order: Seq<int>, item: int, leq: spec_fn(int, int) -> bool)
    requires
        total_preorder(leq),
        arranged(order, leq),
        forall|i: int| 0 <= i < order.len() ==> order[i] < item,
    ensures
        placed(order, item, leq).len() == order.len() + 1,
        arranged(placed(order, item, leq), leq),
        forall|x: int| #[trigger] placed(order, item, leq).contains(x) <==> (order.contains(x) || x == item),
    decreases order.len(),
{
    let out = placed(order, item, leq);
    if order.len() == 0 || leq(order.last(), item) {
        assert forall|i: int, j: int|
            #![trigger out[i], out[j]]
            0 <= i < j < out.len() implies leq(out[i], out[j]) && (leq(out[j], out[i]) ==> out[i] < out[j]) by {
            if j == order.len() {
                assert(out[j] == item);
                assert(out[i] == order[i]);
                let last = order.last();
                if i < order.len() - 1 {
                    assert(leq(order[i], order[order.len() - 1]));
                }
                assert(leq(order[i], last) || order[i] == last);
                assert(leq(last, item));
                assert(leq(last, last) || leq(last, last));
                assert(leq(order[i], item));
            } else {
                assert(out[i] == order[i] && out[j] == order[j]);
            }
        }
        assert forall|x: int| #[trigger] out.contains(x) <==> (order.contains(x) || x == item) by {
            if order.contains(x) {
                let k = choose|k: int| 0 <= k < order.len() && order[k] == x;
                assert(out[k] == x);
            }
            assert(out[order.len() as int] == item);
        }
    } else {
        let shorter = order.drop_last();
        let last = order.last();
        assert(arranged(shorter, leq)) by {
            assert forall|i: int, j: int|
                #![trigger shorter[i], shorter[j]]
                0 <= i < j < shorter.len() implies leq(shorter[i], shorter[j]) && (leq(
                shorter[j],
                shorter[i],
            ) ==> shorter[i] < shorter[j]) by {
                assert(shorter[i] == order[i] && shorter[j] == order[j]);
            }
        }
        lemma_placed(shorter, item, leq);
        let inner = placed(shorter, item, leq);
        assert(leq(item, last) || leq(last, item));
        assert forall|i: int, j: int|
            #![trigger out[i], out[j]]
            0 <= i < j < out.len() implies leq(out[i], out[j]) && (leq(out[j], out[i]) ==> out[i] < out[j]) by {
            assert(out[i] == inner[i]);
            if j == inner.len() {
                assert(out[j] == last);
                assert(inner.contains(inner[i]));
                if inner[i] == item {
                    assert(leq(item, last));
                } else {
                    assert(shorter.contains(inner[i]));
                    let k = choose|k: int| 0 <= k < shorter.len() && shorter[k] == inner[i];
                    assert(order[k] == inner[i]);
                    assert(order[order.len() - 1] == last);
                }
            } else {
                assert(out[j] == inner[j]);
            }
        }
        assert forall|x: int| #[trigger] out.contains(x) <==> (order.contains(x) || x == item) by {
            if order.contains(x) {
                let k = choose|k: int| 0 <= k < order.len() && order[k] == x;
                if k < shorter.len() {
                    assert(shorter[k] == x);
                    assert(shorter.contains(x));
                    assert(inner.contains(x));
                    let m = choose|m: int| 0 <= m < inner.len() && inner[m] == x;
                    assert(out[m] == x);
                } else {
                    assert(out[inner.len() as int] == last);
                }
            }
            if x == item {
                assert(inner.contains(x));
                let m = choose|m: int| 0 <= m < inner.len() && inner[m] == x;
                assert(out[m] == x);
            }
            if out.contains(x) {
                let m = choose|m: int| 0 <= m < out.len() && out[m] == x;
                if m < inner.len() {
                    assert(inner[m] == x);
                    assert(inner.contains(x));
                    if x != item {
                        assert(shorter.contains(x));
                        let k = choose|k: int| 0 <= k < shorter.len() && shorter[k] == x;
                        assert(order[k] == x);
                    }
                } else {
                    assert(order[order.len() - 1] == x);
                }
            }
        }
    }
}

/// A stable order holds every admitted position once, is arranged by the relation,
/// and breaks ties by position.
pub proof fn lemma_stable_order(
    n: nat,
    keep: spec_fn(int) -> bool,
    leq: spec_fn(int, int) -> bool,
)
    requires
        total_preorder(leq),
    ensures
        arranged(stable_order(n, keep, leq), leq),
        stable_order(n, keep, leq).no_duplicates(),
        forall|x: int|
            #[trigger] stable_order(n, keep, leq).contains(x) <==> (0 <= x < n && keep(x)),
        stable_order(n, keep, leq).len() <= n,
    decreases n,
{
    let order = stable_order(n, keep, leq);
    if n > 0 {
        lemma_stable_order((n - 1) as nat, keep, leq);
        let before = stable_order((n - 1) as nat, keep, leq);
        assert forall|i: int| 0 <= i < before.len() implies before[i] < n - 1 by {
            assert(before.contains(before[i]));
        }
        if keep(n - 1) {
            lemma_placed(before, n - 1, leq);
        }
    }
    assert forall|i: int, j: int| 0 <= i < j < order.len() implies order[i] != order[j] by {
        assert(leq(order[i], order[j]));
        if order[i] == order[j] {
            assert(leq(order[j], order[i]));
        }
    }
}

/// The positions held in an index vector, as integers.
pub open spec fn positions(indices: Seq<usize>) -> Seq<int> {
    indices.map_values(|i: usize| i as int)
}

/// Placing an item means inserting it behind the last position it may follow.
pub proof fn lemma_placed_by_insertion(
    order: Seq<int>,
    item: int,
    leq: spec_fn(int, int) -> bool,
    at: int,
)
    requires
        0 <= at <= order.len(),
        at > 0 ==> leq(order[at - 1], item),
        forall|k: int| at <= k < order.len() ==> !leq(#[trigger] order[k], item),
    ensures
        placed(order, item, leq) == order.insert(at, item),
    decreases order.len(),
{
    if at == order.len() {
        assert(order.insert(at, item) =~= order.push(item));
    } else {
        let shorter = order.drop_last();
        assert(!leq(order[order.len() - 1], item));
        assert forall|k: int| at <= k < shorter.len() implies !leq(#[trigger] shorter[k], item) by {
            assert(shorter[k] == order[k]);
        }
        lemma_placed_by_insertion(shorter, item, leq, at);
        assert(order.insert(at, item) =~= shorter.insert(at, item).push(order.last()));
    }
}

} // verus!
