//! The two orders in which a tree is walked, written as sequences.
//!
//! Only the tiled children (`nodes`) are walked; floating children are
//! reached through the focus path instead.

use vstd::prelude::*;
use crate::node::Node;
use crate::ext::node_search::Move;

verus! {

/// A node met during a walk, with its distance from the node the walk began at.
pub struct Visit {
    pub depth: nat,
    pub node: Node,
}

/// What a step of a walk holds: a visit, and the move that led to it.
pub struct StepView {
    pub depth: nat,
    pub moved: Move,
    pub node: Node,
}

/// Pre-order walk of `n`, which lies at depth `d`: the node, then its
/// children's walks from left to right.
pub open spec fn preorder_of(n: Node, d: nat) -> Seq<Visit>
    decreases n, 0nat,
{
    seq![Visit { depth: d, node: n }] + preorder_forest(n.nodes@, 0, d + 1)
}

/// Pre-order walks of `ns[k..]`, one after the other, each root at depth `d`.
pub open spec fn preorder_forest(ns: Seq<Node>, k: int, d: nat) -> Seq<Visit>
    decreases ns, ns.len() - k,
{
    if 0 <= k < ns.len() {
        preorder_of(ns[k], d) + preorder_forest(ns, k + 1, d)
    } else {
        Seq::empty()
    }
}

/// The steps of a pre-order walk of `n`: each visit is tagged with how its
/// depth compares to that of the visit before it. The first is compared
/// with depth 0, which is its own.
pub open spec fn preorder_steps(n: Node) -> Seq<StepView> {
    steps_after(preorder_of(n, 0), 0)
}

/// Tags the visits `vs`, which follow a visit at depth `last`.
pub open spec fn steps_after(vs: Seq<Visit>, last: nat) -> Seq<StepView> {
    Seq::new(
        vs.len(),
        |i: int|
            StepView {
                depth: vs[i].depth,
                moved: Move::of(
                    vs[i].depth as int,
                    if i == 0 { last as int } else { vs[i - 1].depth as int },
                ),
                node: vs[i].node,
            },
    )
}

/// The move that a post-order walk reports for `n`, the `k`-th child of its
/// parent (`k < 0` for the node the walk began at): `Up` on returning to a
/// node from its children and for a lone root, otherwise `Sibling` if the
/// node has an elder sibling and `Down` if it is a first child.
pub open spec fn postorder_move(n: Node, k: int) -> Move {
    if n.nodes@.len() > 0 || k < 0 {
        Move::Up
    } else if k > 0 {
        Move::Sibling
    } else {
        Move::Down
    }
}

/// Post-order walk of `n`, the `k`-th child of its parent, at depth `d`: its
/// children's walks from left to right, then the node.
pub open spec fn postorder_of(n: Node, d: nat, k: int) -> Seq<StepView>
    decreases n, 0nat,
{
    postorder_forest(n.nodes@, 0, d + 1).push(
        StepView { depth: d, moved: postorder_move(n, k), node: n },
    )
}

/// Post-order walks of `ns[k..]`, one after the other, each root at depth `d`.
pub open spec fn postorder_forest(ns: Seq<Node>, k: int, d: nat) -> Seq<StepView>
    decreases ns, ns.len() - k,
{
    if 0 <= k < ns.len() {
        postorder_of(ns[k], d, k) + postorder_forest(ns, k + 1, d)
    } else {
        Seq::empty()
    }
}

/// The steps of a post-order walk that begins at `n`.
pub open spec fn postorder_steps(n: Node) -> Seq<StepView> {
    postorder_of(n, 0, -1)
}

/// A child lies strictly lower than the forest it belongs to.
pub proof fn lemma_forest_height(ns: Seq<Node>, k: int, j: int)
    requires
        0 <= k <= j < ns.len(),
    ensures
        ns[j].height() + 1 <= crate::node::forest_height(ns, k),
    decreases ns.len() - k,
{
    if k < j {
        lemma_forest_height(ns, k + 1, j);
    }
}

/// A node lies strictly higher than each of its tiled children.
pub proof fn lemma_child_height(n: Node, j: int)
    requires
        0 <= j < n.nodes@.len(),
    ensures
        n.nodes@[j].height() + 1 <= n.height(),
{
    lemma_forest_height(n.nodes@, 0, j);
}

} // verus!
