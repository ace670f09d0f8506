//! Places in a tree, and where the walks visit them.
//!
//! A place is the list of child indices that leads to it from the root of
//! the walk. The laws of this module say that each walk visits every place
//! once, and on which side of its descendants.

use vstd::prelude::*;
use crate::node::Node;
use crate::traversal::{walk_steps, Order};
use crate::walk::{
    postorder_forest, postorder_of, preorder_forest, preorder_of, preorder_steps, Visit,
};

verus! {

impl Node {
    /// Whether `p` leads from this node to a node below it, or is empty.
    pub open spec fn has_path(self, p: Seq<int>) -> bool
        decreases p.len(),
    {
        p.len() == 0 || (0 <= p[0] < self.nodes@.len() && self.nodes@[p[0]].has_path(
            p.drop_first(),
        ))
    }

    /// The node that `p` leads to.
    pub open spec fn at(self, p: Seq<int>) -> Node
        decreases p.len(),
    {
        if p.len() == 0 {
            self
        } else {
            self.nodes@[p[0]].at(p.drop_first())
        }
    }

    /// The number of nodes of the tree: this one and all below it.
    pub open spec fn size(self) -> nat
        decreases self, 0nat,
    {
        1 + forest_size(self.nodes@, 0)
    }
}

/// The number of nodes of the trees `ns[k..]`.
pub open spec fn forest_size(ns: Seq<Node>, k: int) -> nat
    decreases ns, ns.len() - k,
{
    if 0 <= k < ns.len() {
        ns[k].size() + forest_size(ns, k + 1)
    } else {
        0
    }
}

/// The number of nodes of the trees `ns[from..to]`.
pub open spec fn offset(ns: Seq<Node>, from: int, to: int) -> nat
    decreases to - from,
{
    if 0 <= from < to && from < ns.len() {
        ns[from].size() + offset(ns, from + 1, to)
    } else {
        0
    }
}

/// Whether the place `p` lies above the place `q`: on the way to it, and
/// not `q` itself.
pub open spec fn above(p: Seq<int>, q: Seq<int>) -> bool {
    p.len() < q.len() && forall|i: int| 0 <= i < p.len() ==> p[i] == q[i]
}

/// The places `ps` as seen from one level up, where they lie below child `k`.
pub open spec fn under(k: int, ps: Seq<Seq<int>>) -> Seq<Seq<int>> {
    Seq::new(ps.len(), |i: int| seq![k] + ps[i])
}

/// The places of the tree `n` in the order in which the walk visits them.
pub open spec fn paths(n: Node, order: Order) -> Seq<Seq<int>>
    decreases n, 0nat,
{
    match order {
        Order::PreOrder => seq![Seq::<int>::empty()] + forest_paths(n.nodes@, 0, order),
        Order::PostOrder => forest_paths(n.nodes@, 0, order).push(Seq::<int>::empty()),
    }
}

/// The places of the trees `ns[k..]` in the order in which the walk visits them.
pub open spec fn forest_paths(ns: Seq<Node>, k: int, order: Order) -> Seq<Seq<int>>
    decreases ns, ns.len() - k,
{
    if 0 <= k < ns.len() {
        under(k, paths(ns[k], order)) + forest_paths(ns, k + 1, order)
    } else {
        Seq::empty()
    }
}

/// The step at which the walk of `n` visits the place `p`, counted from 0.
pub open spec fn place(n: Node, p: Seq<int>, order: Order) -> int
    decreases p.len(),
{
    if p.len() == 0 {
        match order {
            Order::PreOrder => 0,
            Order::PostOrder => n.size() - 1,
        }
    } else {
        (match order {
            Order::PreOrder => 1int,
            Order::PostOrder => 0int,
        }) + offset(n.nodes@, 0, p[0]) + place(n.nodes@[p[0]], p.drop_first(), order)
    }
}

/// A walk has as many steps as the tree has nodes.
pub proof fn lemma_walk_count(n: Node, order: Order)
    ensures
        paths(n, order).len() == n.size(),
    decreases n, 0nat,
{
    lemma_forest_count(n.nodes@, 0, order);
}

proof fn lemma_forest_count(ns: Seq<Node>, k: int, order: Order)
    ensures
        forest_paths(ns, k, order).len() == forest_size(ns, k),
    decreases ns, ns.len() - k,
{
    if 0 <= k < ns.len() {
        lemma_walk_count(ns[k], order);
        lemma_forest_count(ns, k + 1, order);
    }
}

/// The trees `ns[from..to]` and `ns[to..]` together are the trees `ns[from..]`.
proof fn lemma_offset_split(ns: Seq<Node>, from: int, to: int)
    requires
        0 <= from <= to <= ns.len(),
    ensures
        offset(ns, from, to) + forest_size(ns, to) == forest_size(ns, from),
    decreases to - from,
{
    if from < to {
        lemma_offset_split(ns, from + 1, to);
    }
}

/// One tree more at the end of `ns[from..to]`.
proof fn lemma_offset_next(ns: Seq<Node>, from: int, to: int)
    requires
        0 <= from <= to < ns.len(),
    ensures
        offset(ns, from, to + 1) == offset(ns, from, to) + ns[to].size(),
    decreases to - from,
{
    if from < to {
        lemma_offset_next(ns, from + 1, to);
    } else {
        assert(offset(ns, to + 1, to + 1) == 0);
    }
}

/// The place of a node of the tree is a step of the walk.
proof fn lemma_place_range(n: Node, p: Seq<int>, order: Order)
    requires
        n.has_path(p),
    ensures
        0 <= place(n, p, order) < n.size(),
        order == Order::PostOrder && p.len() > 0 ==> place(n, p, order) < n.size() - 1,
        order == Order::PreOrder && p.len() > 0 ==> place(n, p, order) > 0,
    decreases p.len(),
{
    if p.len() > 0 {
        let k = p[0];
        lemma_place_range(n.nodes@[k], p.drop_first(), order);
        lemma_offset_split(n.nodes@, 0, k);
        lemma_offset_split(n.nodes@, 0, k + 1);
        lemma_offset_next(n.nodes@, 0, k);
    }
}

/// What the walk of the trees `ns[from..]` lists at the place of a node of
/// the tree `ns[k]`.
proof fn lemma_forest_lists(ns: Seq<Node>, from: int, k: int, i: int, order: Order)
    requires
        0 <= from <= k < ns.len(),
        0 <= i < ns[k].size(),
    ensures
        offset(ns, from, k) + i < forest_paths(ns, from, order).len(),
        forest_paths(ns, from, order)[offset(ns, from, k) + i] == seq![k] + paths(ns[k], order)[i],
    decreases k - from,
{
    lemma_walk_count(ns[from], order);
    lemma_walk_count(ns[k], order);
    lemma_forest_count(ns, from + 1, order);
    if from < k {
        lemma_forest_lists(ns, from + 1, k, i, order);
    }
}

/// The walk lists each node of the tree at its place.
proof fn lemma_lists_at_place(n: Node, p: Seq<int>, order: Order)
    requires
        n.has_path(p),
    ensures
        0 <= place(n, p, order) < paths(n, order).len(),
        paths(n, order)[place(n, p, order)] == p,
    decreases p.len(),
{
    lemma_walk_count(n, order);
    lemma_place_range(n, p, order);
    lemma_forest_count(n.nodes@, 0, order);
    if p.len() == 0 {
        assert(paths(n, order)[place(n, p, order)] =~= p);
    } else {
        let k = p[0];
        let rest = p.drop_first();
        let child = n.nodes@[k];
        lemma_lists_at_place(child, rest, order);
        lemma_walk_count(child, order);
        lemma_forest_lists(n.nodes@, 0, k, place(child, rest, order), order);
    }
}

/// What the walk of the trees `ns[from..]` lists at step `i` is a node of
/// one of the trees, and `i` is its place.
proof fn lemma_forest_step(ns: Seq<Node>, from: int, i: int, order: Order)
    requires
        0 <= from,
        0 <= i < forest_paths(ns, from, order).len(),
    ensures
        ({
            let q = forest_paths(ns, from, order)[i];
            &&& q.len() > 0
            &&& from <= q[0] < ns.len()
            &&& ns[q[0]].has_path(q.drop_first())
            &&& i == offset(ns, from, q[0]) + place(ns[q[0]], q.drop_first(), order)
        }),
    decreases ns, ns.len() - from, 0nat,
{
    let q = forest_paths(ns, from, order)[i];
    let first = paths(ns[from], order);
    lemma_walk_count(ns[from], order);
    if i < first.len() {
        lemma_step_is_place(ns[from], i, order);
        assert(q.drop_first() =~= first[i]);
    } else {
        lemma_forest_step(ns, from + 1, i - first.len(), order);
    }
}

/// What the walk lists at step `i` is a node of the tree, and `i` is its place.
proof fn lemma_step_is_place(n: Node, i: int, order: Order)
    requires
        0 <= i < paths(n, order).len(),
    ensures
        n.has_path(paths(n, order)[i]),
        place(n, paths(n, order)[i], order) == i,
    decreases n, 0nat, 1nat,
{
    lemma_walk_count(n, order);
    lemma_forest_count(n.nodes@, 0, order);
    let inner = forest_paths(n.nodes@, 0, order);
    match order {
        Order::PreOrder => {
            if i > 0 {
                lemma_forest_step(n.nodes@, 0, i - 1, order);
            }
        },
        Order::PostOrder => {
            if i < inner.len() {
                lemma_forest_step(n.nodes@, 0, i, order);
            }
        },
    }
}

/// A place above another comes first in pre-order and last in post-order.
proof fn lemma_place_order(n: Node, p: Seq<int>, q: Seq<int>, order: Order)
    requires
        n.has_path(q),
        above(p, q),
    ensures
        order == Order::PreOrder ==> place(n, p, order) < place(n, q, order),
        order == Order::PostOrder ==> place(n, p, order) > place(n, q, order),
    decreases p.len(),
{
    lemma_place_range(n, q, order);
    if p.len() > 0 {
        assert(above(p.drop_first(), q.drop_first())) by {
            assert forall|i: int| 0 <= i < p.drop_first().len() implies p.drop_first()[i]
                == q.drop_first()[i] by {
                assert(p[i + 1] == q[i + 1]);
            }
        }
        lemma_place_order(n.nodes@[q[0]], p.drop_first(), q.drop_first(), order);
    }
}

/// Every node is visited exactly once: the walk lists the place `p` of a
/// node of the tree at the step `place(n, p, order)`, and at no other.
pub proof fn lemma_visits_each_node_once(n: Node, p: Seq<int>, order: Order)
    requires
        n.has_path(p),
    ensures
        0 <= place(n, p, order) < paths(n, order).len(),
        paths(n, order)[place(n, p, order)] == p,
        forall|i: int|
            0 <= i < paths(n, order).len() && #[trigger] paths(n, order)[i] == p ==> i == place(
                n,
                p,
                order,
            ),
{
    lemma_lists_at_place(n, p, order);
    assert forall|i: int| 0 <= i < paths(n, order).len() && #[trigger] paths(n, order)[i]
        == p implies i == place(n, p, order) by {
        lemma_step_is_place(n, i, order);
    }
}

/// Every step visits a node of the tree: what the walk lists at step `i`
/// is the place of a node, and the walk visits that place at step `i`.
pub proof fn lemma_visits_only_nodes(n: Node, i: int, order: Order)
    requires
        0 <= i < paths(n, order).len(),
    ensures
        n.has_path(paths(n, order)[i]),
        place(n, paths(n, order)[i], order) == i,
{
    lemma_step_is_place(n, i, order);
}

/// A pre-order walk visits a node before every node below it: if the
/// place listed at step `i` lies above the place listed at step `j`, then
/// `i < j`.
pub proof fn lemma_preorder_parent_first(n: Node, i: int, j: int)
    requires
        0 <= i < paths(n, Order::PreOrder).len(),
        0 <= j < paths(n, Order::PreOrder).len(),
        above(paths(n, Order::PreOrder)[i], paths(n, Order::PreOrder)[j]),
    ensures
        i < j,
{
    lemma_step_is_place(n, i, Order::PreOrder);
    lemma_step_is_place(n, j, Order::PreOrder);
    lemma_place_order(
        n,
        paths(n, Order::PreOrder)[i],
        paths(n, Order::PreOrder)[j],
        Order::PreOrder,
    );
}

/// A post-order walk visits a node after every node below it: if the
/// place listed at step `i` lies above the place listed at step `j`, then
/// `i > j`.
pub proof fn lemma_postorder_parent_last(n: Node, i: int, j: int)
    requires
        0 <= i < paths(n, Order::PostOrder).len(),
        0 <= j < paths(n, Order::PostOrder).len(),
        above(paths(n, Order::PostOrder)[i], paths(n, Order::PostOrder)[j]),
    ensures
        i > j,
{
    lemma_step_is_place(n, i, Order::PostOrder);
    lemma_step_is_place(n, j, Order::PostOrder);
    lemma_place_order(
        n,
        paths(n, Order::PostOrder)[i],
        paths(n, Order::PostOrder)[j],
        Order::PostOrder,
    );
}

/// Step `i` of the pre-order walk visits the node at the place that
/// `paths` lists at `i`, and reports the depth of that place.
pub proof fn lemma_preorder_follows_paths(n: Node, d: nat)
    ensures
        preorder_of(n, d).len() == n.size(),
        preorder_of(n, d).len() == paths(n, Order::PreOrder).len(),
        forall|i: int|
            0 <= i < preorder_of(n, d).len() ==> #[trigger] preorder_of(n, d)[i] == (Visit {
                depth: d + paths(n, Order::PreOrder)[i].len(),
                node: n.at(paths(n, Order::PreOrder)[i]),
            }),
    decreases n, 0nat,
{
    lemma_walk_count(n, Order::PreOrder);
    lemma_preorder_forest_follows(n.nodes@, 0, d + 1);
    assert forall|i: int| 0 <= i < preorder_of(n, d).len() implies #[trigger] preorder_of(n, d)[i]
        == (Visit {
        depth: d + paths(n, Order::PreOrder)[i].len(),
        node: n.at(paths(n, Order::PreOrder)[i]),
    }) by {
        if i > 0 {
            lemma_forest_step(n.nodes@, 0, i - 1, Order::PreOrder);
        }
    }
}

proof fn lemma_preorder_forest_follows(ns: Seq<Node>, k: int, d: nat)
    requires
        d >= 1,
    ensures
        preorder_forest(ns, k, d).len() == forest_paths(ns, k, Order::PreOrder).len(),
        forall|i: int|
            0 <= i < preorder_forest(ns, k, d).len() ==> #[trigger] preorder_forest(ns, k, d)[i]
                == (Visit {
                depth: (d + forest_paths(ns, k, Order::PreOrder)[i].len() - 1) as nat,
                node: ns[forest_paths(ns, k, Order::PreOrder)[i][0]].at(
                    forest_paths(ns, k, Order::PreOrder)[i].drop_first(),
                ),
            }),
    decreases ns, ns.len() - k,
{
    if 0 <= k < ns.len() {
        lemma_preorder_follows_paths(ns[k], d);
        lemma_preorder_forest_follows(ns, k + 1, d);
        let first = paths(ns[k], Order::PreOrder);
        assert forall|i: int| 0 <= i < preorder_forest(ns, k, d).len() implies #[trigger] preorder_forest(
            ns,
            k,
            d,
        )[i] == (Visit {
            depth: (d + forest_paths(ns, k, Order::PreOrder)[i].len() - 1) as nat,
            node: ns[forest_paths(ns, k, Order::PreOrder)[i][0]].at(
                forest_paths(ns, k, Order::PreOrder)[i].drop_first(),
            ),
        }) by {
            let q = forest_paths(ns, k, Order::PreOrder)[i];
            if i < first.len() {
                assert(q.drop_first() =~= first[i]);
            } else {
                assert(preorder_forest(ns, k, d)[i] == preorder_forest(ns, k + 1, d)[i
                    - first.len()]);
            }
        }
    }
}

/// Step `i` of the post-order walk visits the node at the place that
/// `paths` lists at `i`, and reports the depth of that place.
pub proof fn lemma_postorder_follows_paths(n: Node, d: nat, k: int)
    ensures
        postorder_of(n, d, k).len() == n.size(),
        postorder_of(n, d, k).len() == paths(n, Order::PostOrder).len(),
        forall|i: int|
            0 <= i < postorder_of(n, d, k).len() ==> (#[trigger] postorder_of(n, d, k)[i]).depth
                == d + paths(n, Order::PostOrder)[i].len() && postorder_of(n, d, k)[i].node
                == n.at(paths(n, Order::PostOrder)[i]),
    decreases n, 0nat,
{
    lemma_walk_count(n, Order::PostOrder);
    lemma_postorder_forest_follows(n.nodes@, 0, d + 1);
    let inner = forest_paths(n.nodes@, 0, Order::PostOrder);
    assert forall|i: int| 0 <= i < postorder_of(n, d, k).len() implies (#[trigger] postorder_of(
        n,
        d,
        k,
    )[i]).depth == d + paths(n, Order::PostOrder)[i].len() && postorder_of(n, d, k)[i].node
        == n.at(paths(n, Order::PostOrder)[i]) by {
        if i < inner.len() {
            lemma_forest_step(n.nodes@, 0, i, Order::PostOrder);
        }
    }
}

proof fn lemma_postorder_forest_follows(ns: Seq<Node>, k: int, d: nat)
    requires
        d >= 1,
    ensures
        postorder_forest(ns, k, d).len() == forest_paths(ns, k, Order::PostOrder).len(),
        forall|i: int|
            0 <= i < postorder_forest(ns, k, d).len() ==> (#[trigger] postorder_forest(
                ns,
                k,
                d,
            )[i]).depth == d + forest_paths(ns, k, Order::PostOrder)[i].len() - 1
                && postorder_forest(ns, k, d)[i].node == ns[forest_paths(
                ns,
                k,
                Order::PostOrder,
            )[i][0]].at(forest_paths(ns, k, Order::PostOrder)[i].drop_first()),
    decreases ns, ns.len() - k,
{
    if 0 <= k < ns.len() {
        lemma_postorder_follows_paths(ns[k], d, k);
        lemma_postorder_forest_follows(ns, k + 1, d);
        let first = paths(ns[k], Order::PostOrder);
        assert forall|i: int| 0 <= i < postorder_forest(ns, k, d).len() implies (
        #[trigger] postorder_forest(ns, k, d)[i]).depth == d + forest_paths(
            ns,
            k,
            Order::PostOrder,
        )[i].len() - 1 && postorder_forest(ns, k, d)[i].node == ns[forest_paths(
            ns,
            k,
            Order::PostOrder,
        )[i][0]].at(forest_paths(ns, k, Order::PostOrder)[i].drop_first()) by {
            let q = forest_paths(ns, k, Order::PostOrder)[i];
            if i < first.len() {
                assert(q.drop_first() =~= first[i]);
            } else {
                assert(postorder_forest(ns, k, d)[i] == postorder_forest(ns, k + 1, d)[i
                    - first.len()]);
            }
        }
    }
}

/// A walk has one step for each node of the tree, and step `i` visits the
/// node at the place that `paths` lists at `i`, at the depth of that place.
pub proof fn lemma_walk_follows_paths(n: Node, order: Order)
    ensures
        walk_steps(n, order).len() == n.size(),
        walk_steps(n, order).len() == paths(n, order).len(),
        forall|i: int|
            0 <= i < walk_steps(n, order).len() ==> (#[trigger] walk_steps(n, order)[i]).depth
                == paths(n, order)[i].len() && walk_steps(n, order)[i].node == n.at(
                paths(n, order)[i],
            ),
{
    match order {
        Order::PreOrder => {
            lemma_preorder_follows_paths(n, 0);
            assert forall|i: int| 0 <= i < preorder_steps(n).len() implies (
            #[trigger] preorder_steps(n)[i]).depth == paths(n, order)[i].len() && preorder_steps(
                n,
            )[i].node == n.at(paths(n, order)[i]) by {
                assert(preorder_steps(n)[i].depth == preorder_of(n, 0)[i].depth);
            }
        },
        Order::PostOrder => {
            lemma_postorder_follows_paths(n, 0, -1);
        },
    }
}

} // verus!
