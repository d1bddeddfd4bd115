//! The stacking order of a canvas: which node is drawn on top of which.
//!
//! A node with a higher z-index is drawn on top of one with a lower; between
//! nodes of the same z-index the one that came onto the canvas later is on
//! top.

use crate::checkpoint::{Checkpoint, CheckpointView};
use vstd::prelude::*;

verus! {

/// Whether the node at position `lower` of the insertion order is drawn
/// below the node at position `upper`.
pub open spec fn drawn_below(cp: CheckpointView, lower: int, upper: int) -> bool {
    cp.nodes[lower].z_index < cp.nodes[upper].z_index || (cp.nodes[lower].z_index
        == cp.nodes[upper].z_index && lower < upper)
}

/// Whether `order` lists some positions of the canvas from bottom to top:
/// each entry is a position, and each is drawn below all that follow.
pub open spec fn is_stacked(cp: CheckpointView, order: Seq<usize>) -> bool {
    &&& forall|k: int| 0 <= k < order.len() ==> (#[trigger] order[k]) < cp.nodes.len()
    &&& forall|a: int, b: int|
        0 <= a < b < order.len() ==> drawn_below(cp, #[trigger] order[a] as int, #[trigger] order[b] as int)
}

/// Whether `order` is the stacking order of the canvas: all its positions,
/// each once, from bottom to top.
pub open spec fn is_stacking_order(cp: CheckpointView, order: Seq<usize>) -> bool {
    &&& order.len() == cp.nodes.len()
    &&& is_stacked(cp, order)
    &&& forall|p: usize| p < cp.nodes.len() ==> order.contains(p)
}

/// A canvas has one stacking order only.
pub proof fn lemma_stacking_order_unique(cp: CheckpointView, first: Seq<usize>, second: Seq<usize>)
    requires
        is_stacking_order(cp, first),
        is_stacking_order(cp, second),
    ensures
        first == second,
{
    // The entry at every index is determined by how many positions lie
    // below it; two orders that differ somewhere differ first at some index,
    // and there the entry of the one has to come later in the other.
    if first != second {
        assert(!(first =~= second));
        let k = choose|k: int| 0 <= k < first.len() && first[k] != second[k];
        let k0 = first_difference(first, second, k);
        let x = first[k0];
        let y = second[k0];
        assert(second.contains(x));
        let jx = choose|j: int| 0 <= j < second.len() && second[j] == x;
        assert(first.contains(y));
        let jy = choose|j: int| 0 <= j < first.len() && first[j] == y;
        if jx < k0 {
            assert(first[jx] == second[jx]);
            assert(drawn_below(cp, first[jx] as int, first[k0] as int));
        }
        if jy < k0 {
            assert(second[jy] == first[jy]);
            assert(drawn_below(cp, second[jy] as int, second[k0] as int));
        }
        assert(drawn_below(cp, second[k0] as int, second[jx] as int));
        assert(drawn_below(cp, first[k0] as int, first[jy] as int));
    }
}

/// The first index at which two sequences of equal length differ, given
/// that they differ at `k`.
proof fn first_difference(first: Seq<usize>, second: Seq<usize>, k: int) -> (k0: int)
    requires
        first.len() == second.len(),
        0 <= k < first.len(),
        first[k] != second[k],
    ensures
        0 <= k0 <= k,
        first[k0] != second[k0],
        forall|j: int| 0 <= j < k0 ==> first[j] == second[j],
    decreases k,
{
    if exists|j: int| 0 <= j < k && first[j] != second[j] {
        let j = choose|j: int| 0 <= j < k && first[j] != second[j];
        first_difference(first, second, j)
    } else {
        k
    }
}

/// The positions of the nodes of `canvas` in stacking order, bottom first.
pub fn stacking_order(canvas: &Checkpoint) -> (order: Vec<usize>)
    ensures
        is_stacking_order(canvas@, order@),
{
    let n: usize = canvas.node_count();
    let mut order: Vec<usize> = Vec::new();
    let mut i: usize = 0;
    while i < n
        invariant
            i <= n,
            n == canvas@.nodes.len(),
            order@.len() == i,
            is_stacked(canvas@, order@),
            forall|k: int| 0 <= k < order@.len() ==> (#[trigger] order@[k]) < i,
            forall|p: usize| p < i ==> order@.contains(p),
        decreases n - i,
    {
        let z: i32 = canvas.node_at(i).z_index();
        let mut at: usize = 0;
        while at < order.len() && canvas.node_at(order[at]).z_index() <= z
            invariant
                at <= order@.len(),
                n == canvas@.nodes.len(),
                i < n,
                z == canvas@.nodes[i as int].z_index,
                is_stacked(canvas@, order@),
                forall|k: int| 0 <= k < at ==> canvas@.nodes[order@[k] as int].z_index <= z,
            decreases order@.len() - at,
        {
            at += 1;
        }
        let ghost before = order@;
        order.insert(at, i);
        proof {
            let after = order@;
            assert forall|k: int| 0 <= k < after.len() implies (#[trigger] after[k]) < i + 1 by {
                if k < at {
                    assert(after[k] == before[k]);
                } else if k > at {
                    assert(after[k] == before[k - 1]);
                }
            }
            assert forall|a: int, b: int| 0 <= a < b < after.len() implies drawn_below(
                canvas@,
                #[trigger] after[a] as int,
                #[trigger] after[b] as int,
            ) by {
                if b < at {
                    assert(drawn_below(canvas@, before[a] as int, before[b] as int));
                } else if b == at {
                    assert(after[a] == before[a]);
                    assert(before[a] < i);
                } else if a < at {
                    assert(drawn_below(canvas@, before[a] as int, before[b - 1] as int));
                } else if a == at {
                    assert(after[b] == before[b - 1]);
                    if at < b - 1 {
                        assert(drawn_below(canvas@, before[at as int] as int, before[b - 1] as int));
                    }
                } else {
                    assert(drawn_below(canvas@, before[a - 1] as int, before[b - 1] as int));
                }
            }
            assert forall|p: usize| p < i + 1 implies after.contains(p) by {
                if p == i {
                    assert(after[at as int] == p);
                } else {
                    assert(before.contains(p));
                    let k = choose|k: int| 0 <= k < before.len() && before[k] == p;
                    if k < at {
                        assert(after[k] == p);
                    } else {
                        assert(after[k + 1] == p);
                    }
                }
            }
        }
        i += 1;
    }
    order
}

} // verus!
