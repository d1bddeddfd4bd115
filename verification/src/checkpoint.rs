//! Checkpoints: one snapshot of a tab's nodes and arrows.
//!
//! Nodes are kept in insertion order, which also breaks ties between equal
//! z-indices. No two nodes share an id, no two arrows share an id, and every
//! arrow ends at nodes of the same checkpoint.

use crate::geometry::Rect;
use crate::node::{Arrow, Node, NodeView};
use crate::seq_util::{lemma_filter_members, lemma_filter_pairwise, pairwise};
use crate::text::{typed, Key};
use vstd::prelude::*;

verus! {

/// Why an operation on the document model was declined.
#[derive(Clone, Copy, Debug, PartialEq, Eq, Structural)]
pub enum ModelError {
    /// No item with the given id exists where it was looked for.
    NotFound,
    /// An item with the given id already exists.
    DuplicateId,
    /// A document keeps at least one tab.
    LastTabProtected,
    /// The id counter cannot grow any further.
    IdsExhausted,
    /// The pixels handed in do not make up an image of the stated size.
    InvalidImage,
}

/// Whether `arrow` starts or ends at the node `id`.
pub open spec fn touches(arrow: Arrow, id: u64) -> bool {
    arrow.from.node == id || arrow.to.node == id
}

/// The arrows that stay when the node `id` goes.
pub open spec fn not_touching(id: u64) -> spec_fn(Arrow) -> bool {
    |a: Arrow| !touches(a, id)
}

/// The arrows other than the one called `id`.
pub open spec fn not_called(id: u64) -> spec_fn(Arrow) -> bool {
    |a: Arrow| a.id != id
}

/// Two nodes with different ids.
pub open spec fn nodes_differ() -> spec_fn(NodeView, NodeView) -> bool {
    |a: NodeView, b: NodeView| a.id != b.id
}

/// Two arrows with different ids.
pub open spec fn arrows_differ() -> spec_fn(Arrow, Arrow) -> bool {
    |a: Arrow, b: Arrow| a.id != b.id
}

/// Mathematical model of a checkpoint.
pub struct CheckpointView {
    pub nodes: Seq<NodeView>,
    pub arrows: Seq<Arrow>,
}

impl CheckpointView {
    pub open spec fn empty() -> CheckpointView {
        CheckpointView { nodes: Seq::empty(), arrows: Seq::empty() }
    }

    pub open spec fn has_node(self, id: u64) -> bool {
        exists|i: int| 0 <= i < self.nodes.len() && (#[trigger] self.nodes[i]).id == id
    }

    pub open spec fn has_arrow(self, id: u64) -> bool {
        exists|i: int| 0 <= i < self.arrows.len() && (#[trigger] self.arrows[i]).id == id
    }

    /// Where the node `id` stands in insertion order.
    pub open spec fn position(self, id: u64) -> int {
        choose|i: int| 0 <= i < self.nodes.len() && (#[trigger] self.nodes[i]).id == id
    }

    /// Where the arrow `id` stands in insertion order.
    pub open spec fn arrow_position(self, id: u64) -> int {
        choose|i: int| 0 <= i < self.arrows.len() && (#[trigger] self.arrows[i]).id == id
    }

    /// The node called `id`.
    pub open spec fn node(self, id: u64) -> NodeView
        recommends
            self.has_node(id),
    {
        self.nodes[self.position(id)]
    }

    /// Node ids and arrow ids are unique, every node is well-formed, and no
    /// arrow dangles.
    pub open spec fn wf(self) -> bool {
        &&& forall|i: int| 0 <= i < self.nodes.len() ==> (#[trigger] self.nodes[i]).wf()
        &&& pairwise(self.nodes, nodes_differ())
        &&& pairwise(self.arrows, arrows_differ())
        &&& forall|i: int|
            0 <= i < self.arrows.len() ==> self.has_node((#[trigger] self.arrows[i]).from.node)
                && self.has_node(self.arrows[i].to.node)
    }

    /// The checkpoint with `node` added on top of the insertion order.
    pub open spec fn with_node(self, node: NodeView) -> CheckpointView {
        CheckpointView { nodes: self.nodes.push(node), ..self }
    }

    /// The checkpoint with the node that shares `node`'s id replaced by it.
    pub open spec fn with_node_replaced(self, node: NodeView) -> CheckpointView {
        CheckpointView { nodes: self.nodes.update(self.position(node.id), node), ..self }
    }

    /// The checkpoint without the node `id` and without the arrows that
    /// touched it.
    pub open spec fn without_node(self, id: u64) -> CheckpointView {
        CheckpointView {
            nodes: self.nodes.remove(self.position(id)),
            arrows: self.arrows.filter(not_touching(id)),
        }
    }

    pub open spec fn with_arrow(self, arrow: Arrow) -> CheckpointView {
        CheckpointView { arrows: self.arrows.push(arrow), ..self }
    }

    pub open spec fn without_arrow(self, id: u64) -> CheckpointView {
        CheckpointView { arrows: self.arrows.filter(not_called(id)), ..self }
    }

    /// The checkpoint with the arrow that shares `arrow`'s id replaced by
    /// it.
    pub open spec fn with_arrow_replaced(self, arrow: Arrow) -> CheckpointView {
        CheckpointView {
            arrows: self.arrows.update(self.arrow_position(arrow.id), arrow),
            ..self
        }
    }

    /// In a well-formed checkpoint an id names one position only.
    pub proof fn lemma_position_unique(self, i: int)
        requires
            self.wf(),
            0 <= i < self.nodes.len(),
        ensures
            self.has_node(self.nodes[i].id),
            self.position(self.nodes[i].id) == i,
            self.node(self.nodes[i].id) == self.nodes[i],
    {
        let id = self.nodes[i].id;
        let p = self.position(id);
        if p < i {
            assert(nodes_differ()(self.nodes[p], self.nodes[i]));
        } else if i < p {
            assert(nodes_differ()(self.nodes[i], self.nodes[p]));
        }
    }

    /// In a well-formed checkpoint an arrow id names one position only.
    pub proof fn lemma_arrow_position_unique(self, i: int)
        requires
            self.wf(),
            0 <= i < self.arrows.len(),
        ensures
            self.has_arrow(self.arrows[i].id),
            self.arrow_position(self.arrows[i].id) == i,
    {
        let p = self.arrow_position(self.arrows[i].id);
        if p < i {
            assert(arrows_differ()(self.arrows[p], self.arrows[i]));
        } else if i < p {
            assert(arrows_differ()(self.arrows[i], self.arrows[p]));
        }
    }

    /// Adding a node with a fresh id keeps a checkpoint well-formed.
    pub proof fn lemma_with_node_wf(self, node: NodeView)
        requires
            self.wf(),
            node.wf(),
            !self.has_node(node.id),
        ensures
            self.with_node(node).wf(),
            self.with_node(node).has_node(node.id),
            self.with_node(node).node(node.id) == node,
            forall|id: u64| self.has_node(id) ==> self.with_node(node).has_node(id),
    {
        let out = self.with_node(node);
        let last = self.nodes.len() as int;
        assert(out.nodes[last] == node);
        assert forall|id: u64| self.has_node(id) implies out.has_node(id) by {
            let k = self.position(id);
            assert(out.nodes[k].id == id);
        }
        assert forall|i: int, j: int| 0 <= i < j < out.nodes.len() implies nodes_differ()(
            #[trigger] out.nodes[i],
            #[trigger] out.nodes[j],
        ) by {
            if j < last {
                assert(nodes_differ()(self.nodes[i], self.nodes[j]));
            } else {
                assert(self.nodes[i].id != node.id);
            }
        }
        assert forall|i: int| 0 <= i < out.arrows.len() implies out.has_node(
            (#[trigger] out.arrows[i]).from.node,
        ) && out.has_node(out.arrows[i].to.node) by {
            assert(self.has_node(self.arrows[i].from.node));
            assert(self.has_node(self.arrows[i].to.node));
        }
        out.lemma_position_unique(last);
    }

    /// Replacing a node by one of the same id keeps a checkpoint
    /// well-formed and touches no other node.
    pub proof fn lemma_with_node_replaced_wf(self, node: NodeView)
        requires
            self.wf(),
            node.wf(),
            self.has_node(node.id),
        ensures
            self.with_node_replaced(node).wf(),
            self.with_node_replaced(node).has_node(node.id),
            self.with_node_replaced(node).node(node.id) == node,
            forall|id: u64| self.has_node(id) <==> self.with_node_replaced(node).has_node(id),
            forall|id: u64|
                self.has_node(id) && id != node.id ==> self.with_node_replaced(node).node(id)
                    == self.node(id),
    {
        let out = self.with_node_replaced(node);
        let p = self.position(node.id);
        assert(out.nodes[p] == node);
        assert forall|i: int, j: int| 0 <= i < j < out.nodes.len() implies nodes_differ()(
            #[trigger] out.nodes[i],
            #[trigger] out.nodes[j],
        ) by {
            assert(nodes_differ()(self.nodes[i], self.nodes[j]));
        }
        assert forall|id: u64| self.has_node(id) <==> out.has_node(id) by {
            if self.has_node(id) {
                let k = self.position(id);
                assert(out.nodes[k].id == id);
            }
            if out.has_node(id) {
                let k = out.position(id);
                assert(self.nodes[k].id == id);
            }
        }
        assert forall|i: int| 0 <= i < out.arrows.len() implies out.has_node(
            (#[trigger] out.arrows[i]).from.node,
        ) && out.has_node(out.arrows[i].to.node) by {
            assert(self.has_node(self.arrows[i].from.node));
            assert(self.has_node(self.arrows[i].to.node));
        }
        out.lemma_position_unique(p);
        assert forall|id: u64| self.has_node(id) && id != node.id implies out.node(id)
            == self.node(id) by {
            let k = self.position(id);
            assert(out.nodes[k] == self.nodes[k]);
            out.lemma_position_unique(k);
        }
    }

    /// Deleting a node, together with the arrows that touched it, keeps a
    /// checkpoint well-formed: nothing is left dangling.
    pub proof fn lemma_without_node_wf(self, id: u64)
        requires
            self.wf(),
            self.has_node(id),
        ensures
            self.without_node(id).wf(),
            !self.without_node(id).has_node(id),
            forall|other: u64|
                other != id ==> (self.has_node(other) <==> self.without_node(id).has_node(other)),
            forall|other: u64|
                other != id && self.has_node(other) ==> self.without_node(id).node(other)
                    == self.node(other),
            forall|a: Arrow|
                self.without_node(id).arrows.contains(a) <==> self.arrows.contains(a) && !touches(
                    a,
                    id,
                ),
    {
        let out = self.without_node(id);
        let p = self.position(id);
        self.lemma_position_unique(p);
        assert forall|i: int, j: int| 0 <= i < j < out.nodes.len() implies nodes_differ()(
            #[trigger] out.nodes[i],
            #[trigger] out.nodes[j],
        ) by {
            let si = if i < p {
                i
            } else {
                i + 1
            };
            let sj = if j < p {
                j
            } else {
                j + 1
            };
            assert(nodes_differ()(self.nodes[si], self.nodes[sj]));
        }
        assert forall|i: int| 0 <= i < out.nodes.len() implies (#[trigger] out.nodes[i]).wf() by {
            let si = if i < p {
                i
            } else {
                i + 1
            };
            assert(self.nodes[si].wf());
        }
        assert forall|other: u64| other != id implies (self.has_node(other) <==> out.has_node(
            other,
        )) by {
            if self.has_node(other) {
                let k = self.position(other);
                let t = if k < p {
                    k
                } else {
                    k - 1
                };
                assert(out.nodes[t].id == other);
            }
            if out.has_node(other) {
                let k = out.position(other);
                let s = if k < p {
                    k
                } else {
                    k + 1
                };
                assert(self.nodes[s].id == other);
            }
        }
        if out.has_node(id) {
            let k = out.position(id);
            let s = if k < p {
                k
            } else {
                k + 1
            };
            assert(self.nodes[s].id == id);
            self.lemma_position_unique(s);
        }
        lemma_filter_pairwise(self.arrows, not_touching(id), arrows_differ());
        lemma_filter_members(self.arrows, not_touching(id));
        assert forall|i: int| 0 <= i < out.arrows.len() implies out.has_node(
            (#[trigger] out.arrows[i]).from.node,
        ) && out.has_node(out.arrows[i].to.node) by {
            let a = out.arrows[i];
            assert(out.arrows.contains(a));
            assert(self.arrows.contains(a));
            let k = choose|k: int| 0 <= k < self.arrows.len() && self.arrows[k] == a;
            assert(self.has_node(self.arrows[k].from.node));
            assert(self.has_node(self.arrows[k].to.node));
        }
        assert forall|other: u64| other != id && self.has_node(other) implies out.node(other)
            == self.node(other) by {
            let k = self.position(other);
            let t = if k < p {
                k
            } else {
                k - 1
            };
            assert(out.nodes[t] == self.nodes[k]);
            out.lemma_position_unique(t);
        }
    }

    /// Adding an arrow with a fresh id between existing nodes keeps a
    /// checkpoint well-formed.
    pub proof fn lemma_with_arrow_wf(self, arrow: Arrow)
        requires
            self.wf(),
            !self.has_arrow(arrow.id),
            self.has_node(arrow.from.node),
            self.has_node(arrow.to.node),
        ensures
            self.with_arrow(arrow).wf(),
    {
        let out = self.with_arrow(arrow);
        let last = self.arrows.len() as int;
        assert forall|i: int, j: int| 0 <= i < j < out.arrows.len() implies arrows_differ()(
            #[trigger] out.arrows[i],
            #[trigger] out.arrows[j],
        ) by {
            if j < last {
                assert(arrows_differ()(self.arrows[i], self.arrows[j]));
            } else {
                assert(self.arrows[i].id != arrow.id);
            }
        }
        assert forall|id: u64| self.has_node(id) implies out.has_node(id) by {
            let k = self.position(id);
            assert(out.nodes[k].id == id);
        }
        assert forall|i: int| 0 <= i < out.arrows.len() implies out.has_node(
            (#[trigger] out.arrows[i]).from.node,
        ) && out.has_node(out.arrows[i].to.node) by {
            if i < last {
                assert(self.has_node(self.arrows[i].from.node));
                assert(self.has_node(self.arrows[i].to.node));
            }
        }
    }

    /// Replacing an arrow by one of the same id between existing nodes keeps
    /// a checkpoint well-formed.
    pub proof fn lemma_with_arrow_replaced_wf(self, arrow: Arrow)
        requires
            self.wf(),
            self.has_arrow(arrow.id),
            self.has_node(arrow.from.node),
            self.has_node(arrow.to.node),
        ensures
            self.with_arrow_replaced(arrow).wf(),
    {
        let out = self.with_arrow_replaced(arrow);
        let p = self.arrow_position(arrow.id);
        assert forall|i: int, j: int| 0 <= i < j < out.arrows.len() implies arrows_differ()(
            #[trigger] out.arrows[i],
            #[trigger] out.arrows[j],
        ) by {
            assert(arrows_differ()(self.arrows[i], self.arrows[j]));
        }
        assert forall|id: u64| self.has_node(id) implies out.has_node(id) by {
            let k = self.position(id);
            assert(out.nodes[k].id == id);
        }
        assert forall|i: int| 0 <= i < out.arrows.len() implies out.has_node(
            (#[trigger] out.arrows[i]).from.node,
        ) && out.has_node(out.arrows[i].to.node) by {
            if i != p {
                assert(self.has_node(self.arrows[i].from.node));
                assert(self.has_node(self.arrows[i].to.node));
            }
        }
    }

    /// Deleting an arrow keeps a checkpoint well-formed.
    pub proof fn lemma_without_arrow_wf(self, id: u64)
        requires
            self.wf(),
        ensures
            self.without_arrow(id).wf(),
            !self.without_arrow(id).has_arrow(id),
    {
        let out = self.without_arrow(id);
        lemma_filter_pairwise(self.arrows, not_called(id), arrows_differ());
        lemma_filter_members(self.arrows, not_called(id));
        assert forall|i: int| 0 <= i < out.arrows.len() implies out.has_node(
            (#[trigger] out.arrows[i]).from.node,
        ) && out.has_node(out.arrows[i].to.node) by {
            let a = out.arrows[i];
            assert(out.arrows.contains(a));
            assert(self.arrows.contains(a));
            let k = choose|k: int| 0 <= k < self.arrows.len() && self.arrows[k] == a;
            assert(self.has_node(self.arrows[k].from.node));
            assert(self.has_node(self.arrows[k].to.node));
        }
        if out.has_arrow(id) {
            let k = out.arrow_position(id);
            assert(out.arrows.contains(out.arrows[k]));
        }
    }
}

/// The views of a sequence of nodes.
pub open spec fn nodes_view(v: Seq<Node>) -> Seq<NodeView> {
    v.map_values(|n: Node| n@)
}

/// A snapshot of one tab's canvas.
#[derive(Debug)]
pub struct Checkpoint {
    nodes: Vec<Node>,
    arrows: Vec<Arrow>,
}

impl View for Checkpoint {
    type V = CheckpointView;

    closed spec fn view(&self) -> CheckpointView {
        CheckpointView { nodes: nodes_view(self.nodes@), arrows: self.arrows@ }
    }
}

impl Clone for Checkpoint {
    fn clone(&self) -> (r: Self)
        ensures
            r@ == self@,
    {
        let mut nodes: Vec<Node> = Vec::new();
        let mut i: usize = 0;
        while i < self.nodes.len()
            invariant
                i <= self.nodes@.len(),
                nodes_view(nodes@) == nodes_view(self.nodes@).subrange(0, i as int),
            decreases self.nodes@.len() - i,
        {
            let ghost before = nodes@;
            let copy = self.nodes[i].clone();
            nodes.push(copy);
            assert(nodes@ == before.push(copy));
            assert(nodes_view(nodes@) =~= nodes_view(before).push(copy@));
            assert(nodes_view(nodes@) =~= nodes_view(self.nodes@).subrange(0, i as int + 1));
            i += 1;
        }
        assert(nodes_view(self.nodes@).subrange(0, self.nodes@.len() as int) =~= nodes_view(
            self.nodes@,
        ));
        Checkpoint { nodes, arrows: self.arrows.clone() }
    }
}

impl Checkpoint {
    /// The empty canvas.
    pub fn new() -> (r: Checkpoint)
        ensures
            r@ == CheckpointView::empty(),
            r@.wf(),
    {
        let r = Checkpoint { nodes: Vec::new(), arrows: Vec::new() };
        assert(r@.nodes =~= Seq::<NodeView>::empty());
        r
    }

    pub fn node_count(&self) -> (r: usize)
        ensures
            r == self@.nodes.len(),
    {
        self.nodes.len()
    }

    pub fn arrow_count(&self) -> (r: usize)
        ensures
            r == self@.arrows.len(),
    {
        self.arrows.len()
    }

    /// The node at position `i` of the insertion order.
    pub fn node_at(&self, i: usize) -> (r: &Node)
        requires
            i < self@.nodes.len(),
        ensures
            r@ == self@.nodes[i as int],
    {
        &self.nodes[i]
    }

    /// The arrow at position `i` of the insertion order.
    pub fn arrow_at(&self, i: usize) -> (r: Arrow)
        requires
            i < self@.arrows.len(),
        ensures
            r == self@.arrows[i as int],
    {
        self.arrows[i]
    }

    /// The position of the node called `id`, if there is one.
    pub fn find_node(&self, id: u64) -> (r: Option<usize>)
        ensures
            r is Some <==> self@.has_node(id),
            r is Some ==> r->0 < self@.nodes.len() && self@.nodes[r->0 as int].id == id,
            r is Some && self@.wf() ==> r->0 == self@.position(id),
    {
        let mut i: usize = 0;
        while i < self.nodes.len()
            invariant
                i <= self.nodes@.len(),
                forall|k: int| 0 <= k < i ==> (#[trigger] self@.nodes[k]).id != id,
            decreases self.nodes@.len() - i,
        {
            if self.nodes[i].id() == id {
                proof {
                    if self@.wf() {
                        self@.lemma_position_unique(i as int);
                    }
                }
                return Some(i);
            }
            i += 1;
        }
        None
    }

    /// The position of the arrow called `id`, if there is one.
    pub fn find_arrow(&self, id: u64) -> (r: Option<usize>)
        ensures
            r is Some <==> self@.has_arrow(id),
            r is Some ==> r->0 < self@.arrows.len() && self@.arrows[r->0 as int].id == id,
    {
        let mut i: usize = 0;
        while i < self.arrows.len()
            invariant
                i <= self.arrows@.len(),
                forall|k: int| 0 <= k < i ==> (#[trigger] self@.arrows[k]).id != id,
            decreases self.arrows@.len() - i,
        {
            if self.arrows[i].id == id {
                return Some(i);
            }
            i += 1;
        }
        None
    }

    /// The node called `id`, if there is one.
    pub fn node(&self, id: u64) -> (r: Option<&Node>)
        requires
            self@.wf(),
        ensures
            r is Some <==> self@.has_node(id),
            r is Some ==> r->0@ == self@.node(id),
    {
        match self.find_node(id) {
            Some(i) => Some(&self.nodes[i]),
            None => None,
        }
    }

    /// Puts a new node on the canvas; declined when its id is taken.
    pub fn add_node(&mut self, node: Node) -> (r: Result<(), ModelError>)
        requires
            old(self)@.wf(),
            node@.wf(),
        ensures
            final(self)@.wf(),
            old(self)@.has_node(node@.id) ==> r == Err::<(), ModelError>(ModelError::DuplicateId)
                && final(self)@ == old(self)@,
            !old(self)@.has_node(node@.id) ==> r == Ok::<(), ModelError>(()) && final(self)@ == old(self)@.with_node(
                node@,
            ),
    {
        match self.find_node(node.id()) {
            Some(_) => Err(ModelError::DuplicateId),
            None => {
                proof {
                    old(self)@.lemma_with_node_wf(node@);
                }
                self.nodes.push(node);
                assert(self@.nodes =~= old(self)@.nodes.push(node@));
                Ok(())
            },
        }
    }

    /// Replaces the node that shares `node`'s id; declined when there is
    /// none.
    pub fn update_node(&mut self, node: Node) -> (r: Result<(), ModelError>)
        requires
            old(self)@.wf(),
            node@.wf(),
        ensures
            final(self)@.wf(),
            !old(self)@.has_node(node@.id) ==> r == Err::<(), ModelError>(ModelError::NotFound)
                && final(self)@ == old(self)@,
            old(self)@.has_node(node@.id) ==> r == Ok::<(), ModelError>(()) && final(self)@
                == old(self)@.with_node_replaced(node@),
    {
        match self.find_node(node.id()) {
            None => Err(ModelError::NotFound),
            Some(i) => {
                proof {
                    old(self)@.lemma_with_node_replaced_wf(node@);
                }
                let ghost v = node@;
                self.nodes[i] = node;
                assert(self@.nodes =~= old(self)@.nodes.update(i as int, v));
                Ok(())
            },
        }
    }

    /// Gives the node `id` a new rectangle; declined when there is no such
    /// node.
    pub fn set_node_rect(&mut self, id: u64, rect: Rect) -> (r: Result<(), ModelError>)
        requires
            old(self)@.wf(),
        ensures
            final(self)@.wf(),
            !old(self)@.has_node(id) ==> r == Err::<(), ModelError>(ModelError::NotFound)
                && final(self)@ == old(self)@,
            old(self)@.has_node(id) ==> r == Ok::<(), ModelError>(()) && final(self)@ == old(self)@.with_node_replaced(
                NodeView { rect, ..old(self)@.node(id) },
            ),
    {
        match self.find_node(id) {
            None => Err(ModelError::NotFound),
            Some(i) => {
                let ghost v = NodeView { rect, ..old(self)@.node(id) };
                proof {
                    old(self)@.lemma_position_unique(i as int);
                    old(self)@.lemma_with_node_replaced_wf(v);
                }
                self.nodes[i].set_rect(rect);
                assert(self@.nodes =~= old(self)@.nodes.update(i as int, v));
                Ok(())
            },
        }
    }

    /// Applies one keystroke to the text of the node `id`; declined when
    /// there is no such node.
    pub fn type_into_node(&mut self, id: u64, key: Key) -> (r: Result<(), ModelError>)
        requires
            old(self)@.wf(),
        ensures
            final(self)@.wf(),
            !old(self)@.has_node(id) ==> r == Err::<(), ModelError>(ModelError::NotFound)
                && final(self)@ == old(self)@,
            old(self)@.has_node(id) ==> r == Ok::<(), ModelError>(()) && final(self)@ == old(self)@.with_node_replaced(
                NodeView { text: typed(old(self)@.node(id).text, key), ..old(self)@.node(id) },
            ),
    {
        match self.find_node(id) {
            None => Err(ModelError::NotFound),
            Some(i) => {
                let ghost v = NodeView {
                    text: typed(old(self)@.node(id).text, key),
                    ..old(self)@.node(id)
                };
                proof {
                    old(self)@.lemma_position_unique(i as int);
                    old(self)@.lemma_with_node_replaced_wf(v);
                }
                self.nodes[i].type_key(key);
                assert(self@.nodes =~= old(self)@.nodes.update(i as int, v));
                Ok(())
            },
        }
    }

    /// Takes the node `id` off the canvas, and with it every arrow that
    /// started or ended there; declined when there is no such node.
    pub fn delete_node(&mut self, id: u64) -> (r: Result<(), ModelError>)
        requires
            old(self)@.wf(),
        ensures
            final(self)@.wf(),
            !old(self)@.has_node(id) ==> r == Err::<(), ModelError>(ModelError::NotFound)
                && final(self)@ == old(self)@,
            old(self)@.has_node(id) ==> r == Ok::<(), ModelError>(()) && final(self)@ == old(self)@.without_node(id),
    {
        match self.find_node(id) {
            None => Err(ModelError::NotFound),
            Some(i) => {
                proof {
                    old(self)@.lemma_without_node_wf(id);
                }
                let _ = self.nodes.remove(i);
                assert(self@.nodes =~= old(self)@.nodes.remove(i as int));
                let mut kept: Vec<Arrow> = Vec::new();
                let mut k: usize = 0;
                while k < self.arrows.len()
                    invariant
                        k <= self.arrows@.len(),
                        self.arrows@ == old(self).arrows@,
                        self.nodes@ == old(self).nodes@.remove(i as int),
                        kept@ == self.arrows@.subrange(0, k as int).filter(not_touching(id)),
                    decreases self.arrows@.len() - k,
                {
                    let a = self.arrows[k];
                    proof {
                        let prefix = self.arrows@.subrange(0, k as int);
                        assert(self.arrows@.subrange(0, k as int + 1) =~= prefix.push(a));
                        prefix.lemma_filter_push(a, not_touching(id));
                    }
                    if a.from.node != id && a.to.node != id {
                        kept.push(a);
                    }
                    k += 1;
                }
                assert(self.arrows@.subrange(0, self.arrows@.len() as int) =~= self.arrows@);
                self.arrows = kept;
                Ok(())
            },
        }
    }

    /// Connects two nodes; declined with `DuplicateId` when the arrow's id is
    /// taken, and otherwise with `NotFound` when one of its ends is not on
    /// the canvas.
    pub fn add_arrow(&mut self, arrow: Arrow) -> (r: Result<(), ModelError>)
        requires
            old(self)@.wf(),
        ensures
            final(self)@.wf(),
            r == add_arrow_result(old(self)@, arrow),
            r is Ok ==> final(self)@ == old(self)@.with_arrow(arrow),
            r is Err ==> final(self)@ == old(self)@,
    {
        if self.find_arrow(arrow.id).is_some() {
            return Err(ModelError::DuplicateId);
        }
        if self.find_node(arrow.from.node).is_none() || self.find_node(arrow.to.node).is_none() {
            return Err(ModelError::NotFound);
        }
        proof {
            old(self)@.lemma_with_arrow_wf(arrow);
        }
        self.arrows.push(arrow);
        Ok(())
    }

    /// Replaces the arrow that shares `arrow`'s id; declined when there is
    /// none, or when one of the new ends is not on the canvas.
    pub fn update_arrow(&mut self, arrow: Arrow) -> (r: Result<(), ModelError>)
        requires
            old(self)@.wf(),
        ensures
            final(self)@.wf(),
            r == update_arrow_result(old(self)@, arrow),
            r is Ok ==> final(self)@ == old(self)@.with_arrow_replaced(arrow),
            r is Err ==> final(self)@ == old(self)@,
    {
        let p = match self.find_arrow(arrow.id) {
            Some(p) => p,
            None => {
                return Err(ModelError::NotFound);
            },
        };
        if self.find_node(arrow.from.node).is_none() || self.find_node(arrow.to.node).is_none() {
            return Err(ModelError::NotFound);
        }
        proof {
            old(self)@.lemma_with_arrow_replaced_wf(arrow);
            old(self)@.lemma_arrow_position_unique(p as int);
        }
        self.arrows[p] = arrow;
        Ok(())
    }

    /// Removes the arrow called `id`; declined when there is none.
    pub fn delete_arrow(&mut self, id: u64) -> (r: Result<(), ModelError>)
        requires
            old(self)@.wf(),
        ensures
            final(self)@.wf(),
            !old(self)@.has_arrow(id) ==> r == Err::<(), ModelError>(ModelError::NotFound)
                && final(self)@ == old(self)@,
            old(self)@.has_arrow(id) ==> r == Ok::<(), ModelError>(()) && final(self)@ == old(self)@.without_arrow(id),
    {
        if self.find_arrow(id).is_none() {
            return Err(ModelError::NotFound);
        }
        proof {
            old(self)@.lemma_without_arrow_wf(id);
        }
        let mut kept: Vec<Arrow> = Vec::new();
        let mut k: usize = 0;
        while k < self.arrows.len()
            invariant
                k <= self.arrows@.len(),
                self.arrows@ == old(self).arrows@,
                self.nodes@ == old(self).nodes@,
                kept@ == self.arrows@.subrange(0, k as int).filter(not_called(id)),
            decreases self.arrows@.len() - k,
        {
            let a = self.arrows[k];
            proof {
                let prefix = self.arrows@.subrange(0, k as int);
                assert(self.arrows@.subrange(0, k as int + 1) =~= prefix.push(a));
                prefix.lemma_filter_push(a, not_called(id));
            }
            if a.id != id {
                kept.push(a);
            }
            k += 1;
        }
        assert(self.arrows@.subrange(0, self.arrows@.len() as int) =~= self.arrows@);
        self.arrows = kept;
        Ok(())
    }
}

/// What adding `arrow` to `cp` answers.
pub open spec fn add_arrow_result(cp: CheckpointView, arrow: Arrow) -> Result<(), ModelError> {
    if cp.has_arrow(arrow.id) {
        Err(ModelError::DuplicateId)
    } else if !cp.has_node(arrow.from.node) || !cp.has_node(arrow.to.node) {
        Err(ModelError::NotFound)
    } else {
        Ok(())
    }
}

/// What replacing an arrow by `arrow` answers.
pub open spec fn update_arrow_result(cp: CheckpointView, arrow: Arrow) -> Result<(), ModelError> {
    if cp.has_arrow(arrow.id) && cp.has_node(arrow.from.node) && cp.has_node(arrow.to.node) {
        Ok(())
    } else {
        Err(ModelError::NotFound)
    }
}

/// One change to a canvas.
#[derive(Debug)]
pub enum Edit {
    /// Put a new node on the canvas.
    AddNode(Node),
    /// Replace the node that has the same id.
    UpdateNode(Node),
    /// Give a node a new rectangle.
    SetRect(u64, Rect),
    /// Apply one keystroke to a node's text.
    TypeKey(u64, Key),
    /// Take a node, and the arrows that touch it, off the canvas.
    DeleteNode(u64),
    /// Connect two nodes.
    AddArrow(Arrow),
    /// Replace the arrow that has the same id.
    UpdateArrow(Arrow),
    /// Remove an arrow.
    DeleteArrow(u64),
}

/// Mathematical model of an edit.
pub enum EditView {
    AddNode(NodeView),
    UpdateNode(NodeView),
    SetRect(u64, Rect),
    TypeKey(u64, Key),
    DeleteNode(u64),
    AddArrow(Arrow),
    UpdateArrow(Arrow),
    DeleteArrow(u64),
}

impl View for Edit {
    type V = EditView;

    open spec fn view(&self) -> EditView {
        match self {
            Edit::AddNode(n) => EditView::AddNode(n@),
            Edit::UpdateNode(n) => EditView::UpdateNode(n@),
            Edit::SetRect(id, rect) => EditView::SetRect(*id, *rect),
            Edit::TypeKey(id, key) => EditView::TypeKey(*id, *key),
            Edit::DeleteNode(id) => EditView::DeleteNode(*id),
            Edit::AddArrow(a) => EditView::AddArrow(*a),
            Edit::UpdateArrow(a) => EditView::UpdateArrow(*a),
            Edit::DeleteArrow(id) => EditView::DeleteArrow(*id),
        }
    }
}

impl EditView {
    /// The node that an edit brings along is well-formed.
    pub open spec fn wf(self) -> bool {
        match self {
            EditView::AddNode(n) => n.wf(),
            EditView::UpdateNode(n) => n.wf(),
            _ => true,
        }
    }
}

impl CheckpointView {
    /// Whether `edit` is accepted, and if not, why.
    pub open spec fn outcome(self, edit: EditView) -> Result<(), ModelError> {
        match edit {
            EditView::AddNode(n) => if self.has_node(n.id) {
                Err(ModelError::DuplicateId)
            } else {
                Ok(())
            },
            EditView::UpdateNode(n) => if self.has_node(n.id) {
                Ok(())
            } else {
                Err(ModelError::NotFound)
            },
            EditView::SetRect(id, _) => if self.has_node(id) {
                Ok(())
            } else {
                Err(ModelError::NotFound)
            },
            EditView::TypeKey(id, _) => if self.has_node(id) {
                Ok(())
            } else {
                Err(ModelError::NotFound)
            },
            EditView::DeleteNode(id) => if self.has_node(id) {
                Ok(())
            } else {
                Err(ModelError::NotFound)
            },
            EditView::AddArrow(a) => add_arrow_result(self, a),
            EditView::UpdateArrow(a) => update_arrow_result(self, a),
            EditView::DeleteArrow(id) => if self.has_arrow(id) {
                Ok(())
            } else {
                Err(ModelError::NotFound)
            },
        }
    }

    /// Every edit, accepted or declined, leaves a well-formed canvas
    /// well-formed: ids stay unique and no arrow is left dangling.
    pub proof fn lemma_after_wf(self, edit: EditView)
        requires
            self.wf(),
            edit.wf(),
        ensures
            self.after(edit).wf(),
    {
        if self.outcome(edit) is Ok {
            match edit {
                EditView::AddNode(n) => {
                    self.lemma_with_node_wf(n);
                },
                EditView::UpdateNode(n) => {
                    self.lemma_with_node_replaced_wf(n);
                },
                EditView::SetRect(id, rect) => {
                    self.lemma_position_unique(self.position(id));
                    self.lemma_with_node_replaced_wf(NodeView { rect, ..self.node(id) });
                },
                EditView::TypeKey(id, key) => {
                    self.lemma_position_unique(self.position(id));
                    self.lemma_with_node_replaced_wf(
                        NodeView { text: typed(self.node(id).text, key), ..self.node(id) },
                    );
                },
                EditView::DeleteNode(id) => {
                    self.lemma_without_node_wf(id);
                },
                EditView::AddArrow(a) => {
                    self.lemma_with_arrow_wf(a);
                },
                EditView::UpdateArrow(a) => {
                    self.lemma_with_arrow_replaced_wf(a);
                },
                EditView::DeleteArrow(id) => {
                    self.lemma_without_arrow_wf(id);
                },
            }
        }
    }

    /// The canvas after `edit`; a declined edit changes nothing.
    pub open spec fn after(self, edit: EditView) -> CheckpointView {
        if self.outcome(edit) is Err {
            self
        } else {
            match edit {
                EditView::AddNode(n) => self.with_node(n),
                EditView::UpdateNode(n) => self.with_node_replaced(n),
                EditView::SetRect(id, rect) => self.with_node_replaced(
                    NodeView { rect, ..self.node(id) },
                ),
                EditView::TypeKey(id, key) => self.with_node_replaced(
                    NodeView { text: typed(self.node(id).text, key), ..self.node(id) },
                ),
                EditView::DeleteNode(id) => self.without_node(id),
                EditView::AddArrow(a) => self.with_arrow(a),
                EditView::UpdateArrow(a) => self.with_arrow_replaced(a),
                EditView::DeleteArrow(id) => self.without_arrow(id),
            }
        }
    }
}

impl Checkpoint {
    /// Applies one edit to the canvas and says whether it was accepted.
    pub fn apply(&mut self, edit: Edit) -> (r: Result<(), ModelError>)
        requires
            old(self)@.wf(),
            edit@.wf(),
        ensures
            r == old(self)@.outcome(edit@),
            final(self)@ == old(self)@.after(edit@),
            final(self)@.wf(),
    {
        match edit {
            Edit::AddNode(n) => self.add_node(n),
            Edit::UpdateNode(n) => self.update_node(n),
            Edit::SetRect(id, rect) => self.set_node_rect(id, rect),
            Edit::TypeKey(id, key) => self.type_into_node(id, key),
            Edit::DeleteNode(id) => self.delete_node(id),
            Edit::AddArrow(a) => self.add_arrow(a),
            Edit::UpdateArrow(a) => self.update_arrow(a),
            Edit::DeleteArrow(id) => self.delete_arrow(id),
        }
    }
}

} // verus!
