//! Flattening: containers that hold nothing but one other container are
//! passed over, and what they hold is moved up.

use std::collections::HashSet;
use vstd::prelude::*;
use vstd::string::StringExecFns;
use crate::ext::node_search::{NodeSearch, PreOrder};
use crate::node::Node;
use crate::text::{append_usize, decimal, lines, said};
use crate::walk::{lemma_child_height, preorder_forest, preorder_of, Visit};

verus! {

broadcast use vstd::std_specs::hash::group_hash_axioms;

/// Where the chain of single-child containers that begins at `c` ends: the
/// first node on the way down that does not have exactly one tiled child.
pub open spec fn chain_end(c: Node) -> Node
    decreases c,
{
    if c.nodes@.len() == 1 {
        chain_end(c.nodes@[0])
    } else {
        c
    }
}

/// The moves that the first `k` children of `s` ask for: for each child
/// that begins a chain, the end of the chain is to move under `s`.
pub open spec fn offers_of(s: Node, k: int) -> Seq<(Node, usize)>
    decreases k,
{
    if k <= 0 || k > s.nodes@.len() {
        Seq::empty()
    } else if s.nodes@[k - 1].nodes@.len() == 1 {
        offers_of(s, k - 1).push((chain_end(s.nodes@[k - 1]), s.id))
    } else {
        offers_of(s, k - 1)
    }
}

/// The moves that the first `i` visits ask for. The visit at depth 0 asks
/// for none: it is the workspace, which is left alone.
pub open spec fn offers(vs: Seq<Visit>, i: int) -> Seq<(Node, usize)>
    decreases i,
{
    if i <= 0 || i > vs.len() {
        Seq::empty()
    } else if vs[i - 1].depth == 0 {
        offers(vs, i - 1)
    } else {
        offers(vs, i - 1) + offers_of(vs[i - 1].node, vs[i - 1].node.nodes@.len() as int)
    }
}

/// The ids of the nodes that `os` moves.
pub open spec fn leaf_ids(os: Seq<(Node, usize)>) -> Set<usize> {
    Set::new(|id: usize| exists|j: int| 0 <= j < os.len() && (#[trigger] os[j]).0.id == id)
}

/// `os` without the moves of a node that an earlier move has moved already.
pub open spec fn first_per_leaf(os: Seq<(Node, usize)>) -> Seq<(Node, usize)>
    decreases os.len(),
{
    if os.len() == 0 {
        Seq::empty()
    } else if leaf_ids(first_per_leaf(os.drop_last())).contains(os.last().0.id) {
        first_per_leaf(os.drop_last())
    } else {
        first_per_leaf(os.drop_last()).push(os.last())
    }
}

/// The moves that flatten the workspace `root`: each pairs a node with the
/// id of the container that it is to move under. The highest container
/// that leads to a node through a chain claims it.
pub open spec fn candidates(root: Node) -> Seq<(Node, usize)> {
    first_per_leaf(offers(preorder_of(root, 0), preorder_of(root, 0).len() as int))
}

/// The command that moves the container `leaf` under the container `to`:
/// mark the target, move to the mark, drop the mark.
pub open spec fn collapse_command(to: usize, leaf: usize) -> Seq<char> {
    "[con_id="@ + decimal(to as nat) + "] mark i3v; [con_id="@ + decimal(leaf as nat)
        + "] move container to mark i3v; unmark i3v"@
}

/// The commands that flatten the workspace `root`, one for each move.
pub open spec fn collapse_commands(root: Node) -> Seq<Seq<char>> {
    Seq::new(
        candidates(root).len(),
        |i: int| collapse_command(candidates(root)[i].1, candidates(root)[i].0.id),
    )
}

/// What `clean_current_workspace` answers: the commands that flatten the
/// workspace which holds the focus, or the complaint that there is none.
pub open spec fn flatten(tree: Node) -> Result<Seq<Seq<char>>, Seq<char>> {
    match tree.current_workspace() {
        Some(ws) => Ok(collapse_commands(ws)),
        None => Err("No current workspace!?"@),
    }
}

/// Whether a container below the root of the walk holds a container that
/// has exactly one tiled child.
pub open spec fn has_chain(root: Node) -> bool {
    exists|i: int, k: int|
        0 <= i < preorder_of(root, 0).len() && preorder_of(root, 0)[i].depth >= 1 && 0 <= k
            < preorder_of(root, 0)[i].node.nodes@.len() && (#[trigger] preorder_of(
            root,
            0,
        )[i].node.nodes@[k]).nodes@.len() == 1
}

/// What a list of moves holds, the nodes in place of the references to them.
pub open spec fn moves<'a>(v: Seq<(&'a Node, usize)>) -> Seq<(Node, usize)> {
    Seq::new(v.len(), |i: int| (*v[i].0, v[i].1))
}

proof fn lemma_leaf_ids_push(os: Seq<(Node, usize)>, o: (Node, usize))
    ensures
        leaf_ids(os.push(o)) == leaf_ids(os).insert(o.0.id),
{
    let a = leaf_ids(os.push(o));
    let b = leaf_ids(os).insert(o.0.id);
    assert forall|id: usize| a.contains(id) implies b.contains(id) by {
        let j = choose|j: int| 0 <= j < os.push(o).len() && (#[trigger] os.push(o)[j]).0.id == id;
        if j < os.len() {
            assert(os[j].0.id == id);
        }
    }
    assert forall|id: usize| b.contains(id) implies a.contains(id) by {
        if id == o.0.id {
            assert(os.push(o)[os.len() as int].0.id == id);
        } else {
            let j = choose|j: int| 0 <= j < os.len() && (#[trigger] os[j]).0.id == id;
            assert(os.push(o)[j].0.id == id);
        }
    }
}

/// The moves that flatten the workspace `root`.
pub fn find_candidate<'a>(root: &'a Node) -> (res: Vec<(&'a Node, usize)>)
    requires
        root.height() < usize::MAX,
    ensures
        moves(res@) == candidates(*root),
{
    let mut leaves_seen: HashSet<usize> = HashSet::new();
    let mut res: Vec<(&'a Node, usize)> = Vec::with_capacity(2);
    let mut it = PreOrder::new(root);
    let ghost all = preorder_of(*root, 0);
    let ghost mut i: int = 0;
    loop
        invariant
            it.wf(),
            all == preorder_of(*root, 0),
            0 <= i <= all.len(),
            it.remaining() == all.skip(i),
            moves(res@) == first_per_leaf(offers(all, i)),
            leaves_seen@ == leaf_ids(moves(res@)),
        decreases all.len() - i,
    {
        let s = match it.next() {
            Some(s) => s,
            None => {
                return res;
            },
        };
        // the root is a workspace, and marking and moving under a
        // workspace does not work: skip it
        if s.d != 0 {
            let ghost before = offers(all, i);
            let mut k: usize = 0;
            while k < s.n.nodes.len()
                invariant
                    k <= s.n.nodes@.len(),
                    moves(res@) == first_per_leaf(before + offers_of(*s.n, k as int)),
                    leaves_seen@ == leaf_ids(moves(res@)),
                decreases s.n.nodes@.len() - k,
            {
                let child: &'a Node = &s.n.nodes[k];
                let mut n: &'a Node = child;
                while n.nodes.len() == 1
                    invariant
                        chain_end(*n) == chain_end(*child),
                    decreases n.height(),
                {
                    proof {
                        lemma_child_height(*n, 0);
                    }
                    n = &n.nodes[0];
                }
                let ghost sofar = before + offers_of(*s.n, k as int);
                // The first time a leaf turns up it was reached from the
                // highest point, so later sightings are passed over.
                if child.nodes.len() == 1 {
                    let ghost o = (*n, s.n.id);
                    proof {
                        assert(sofar.push(o).drop_last() =~= sofar);
                    }
                    if !leaves_seen.contains(&n.id) {
                        leaves_seen.insert(n.id);
                        let ghost old_res = moves(res@);
                        res.push((n, s.n.id));
                        proof {
                            assert(moves(res@) =~= old_res.push(o));
                            lemma_leaf_ids_push(old_res, o);
                        }
                    }
                }
                k += 1;
            }
        }
        proof {
            i = i + 1;
        }
    }
}

/// The command that moves the container `leaf` under the container `to`.
pub fn collapse_command_for(to: usize, leaf: usize) -> (cmd: String)
    ensures
        cmd@ == collapse_command(to, leaf),
{
    let mut cmd = String::from_str("[con_id=");
    append_usize(&mut cmd, to);
    cmd.append("] mark i3v; [con_id=");
    append_usize(&mut cmd, leaf);
    cmd.append("] move container to mark i3v; unmark i3v");
    cmd
}

/// Whether `clean_current_workspace` can work on `tree`: the depth of the
/// focused workspace, if there is one, is a number of the machine.
pub open spec fn flatten_ready(tree: Node) -> bool {
    tree.current_workspace() matches Some(ws) ==> ws.height() < usize::MAX
}

/// Whether `clean_current_workspace` can work on `tree`.
pub fn can_clean(tree: &Node) -> (b: bool)
    ensures
        b == flatten_ready(*tree),
{
    match tree.get_current_workspace() {
        Some(ws) => ws.shallower_than(usize::MAX),
        None => true,
    }
}

/// The commands that flatten the workspace which holds the focus, or the
/// complaint that the tree has no such workspace.
pub fn clean_current_workspace(tree: &Node) -> (r: Result<Vec<String>, String>)
    requires
        flatten_ready(*tree),
    ensures
        said(r) == flatten(*tree),
{
    let ws = match tree.get_current_workspace() {
        Some(ws) => ws,
        None => {
            return Err(String::from_str("No current workspace!?"));
        },
    };
    let found = find_candidate(ws);
    let mut res: Vec<String> = Vec::new();
    let mut i: usize = 0;
    while i < found.len()
        invariant
            i <= found@.len(),
            moves(found@) == candidates(*ws),
            res@.len() == i,
            forall|j: int|
                0 <= j < i ==> (#[trigger] res@[j])@ == collapse_command(
                    candidates(*ws)[j].1,
                    candidates(*ws)[j].0.id,
                ),
        decreases found@.len() - i,
    {
        let (candidate, to) = found[i];
        res.push(collapse_command_for(to, candidate.id));
        i += 1;
    }
    assert(lines(res@) =~= collapse_commands(*ws));
    Ok(res)
}

/// The container that a workspace made of one chain is straightened at:
/// where the workspace has exactly one child, that child exactly one, and
/// that one exactly one again, it is the child's child, the first
/// container below depth 1 that still passes one child on.
pub open spec fn chain_head(ws: Node) -> Option<Node> {
    if ws.nodes@.len() == 1 && ws.nodes@[0].nodes@.len() == 1 && ws.nodes@[0].nodes@[0].nodes@.len()
        == 1 {
        Some(ws.nodes@[0].nodes@[0])
    } else {
        None
    }
}

/// The command that moves the container `id` one place to the left, and
/// so one level up out of a container that holds nothing else.
pub open spec fn straighten_command(id: usize) -> Seq<char> {
    "[con_id="@ + decimal(id as nat) + "] move left"@
}

/// The commands that straighten the workspace `ws`: one, if the workspace
/// is made of one chain that goes below depth 1, else none.
pub open spec fn straighten_commands(ws: Node) -> Seq<Seq<char>> {
    match chain_head(ws) {
        Some(n) => seq![straighten_command(n.id)],
        None => Seq::empty(),
    }
}

/// The other defect: a workspace whose whole content is one chain of
/// single-child containers. The answer is at most one command, for the
/// first container below depth 1 that still has exactly one child.
pub fn straighten_workspace(ws: &Node) -> (cmds: Vec<String>)
    ensures
        lines(cmds@) == straighten_commands(*ws),
{
    let mut cmds: Vec<String> = Vec::new();
    if ws.nodes.len() == 1 && ws.nodes[0].nodes.len() == 1 {
        let n = &ws.nodes[0].nodes[0];
        if n.nodes.len() == 1 {
            let mut cmd = String::from_str("[con_id=");
            append_usize(&mut cmd, n.id);
            cmd.append("] move left");
            cmds.push(cmd);
            return cmds;
        }
    }
    cmds
}

/// The first `k` children of `s` ask for a move exactly if one of them
/// has exactly one tiled child.
proof fn lemma_offers_of_empty(s: Node, k: int)
    requires
        0 <= k <= s.nodes@.len(),
    ensures
        offers_of(s, k).len() == 0 <==> forall|j: int|
            0 <= j < k ==> (#[trigger] s.nodes@[j]).nodes@.len() != 1,
    decreases k,
{
    if k > 0 {
        lemma_offers_of_empty(s, k - 1);
    }
}

/// The first `i` visits ask for a move exactly if one of them, below depth
/// 0, has a child with exactly one tiled child.
proof fn lemma_offers_empty(vs: Seq<Visit>, i: int)
    requires
        0 <= i <= vs.len(),
    ensures
        offers(vs, i).len() == 0 <==> forall|a: int, k: int|
            0 <= a < i && vs[a].depth >= 1 && 0 <= k < vs[a].node.nodes@.len() ==> (
            #[trigger] vs[a].node.nodes@[k]).nodes@.len() != 1,
    decreases i,
{
    if i > 0 {
        lemma_offers_empty(vs, i - 1);
        let s = vs[i - 1].node;
        lemma_offers_of_empty(s, s.nodes@.len() as int);
        if vs[i - 1].depth >= 1 && offers_of(s, s.nodes@.len() as int).len() > 0 {
            let j = choose|j: int| 0 <= j < s.nodes@.len() && (#[trigger] s.nodes@[j]).nodes@.len() == 1;
            assert(vs[i - 1].node.nodes@[j].nodes@.len() == 1);
        }
    }
}

/// Of some moves at least one is kept.
proof fn lemma_first_per_leaf_empty(os: Seq<(Node, usize)>)
    ensures
        first_per_leaf(os).len() == 0 <==> os.len() == 0,
    decreases os.len(),
{
    if os.len() > 0 {
        lemma_first_per_leaf_empty(os.drop_last());
        if os.drop_last().len() == 0 {
            assert(!leaf_ids(first_per_leaf(os.drop_last())).contains(os.last().0.id));
        }
    }
}

/// A workspace without chains needs no commands, and only such a workspace:
/// there is a command exactly if some container below the workspace holds
/// a container that has exactly one tiled child.
pub proof fn lemma_commands_iff_chain(root: Node)
    ensures
        collapse_commands(root).len() == 0 <==> !has_chain(root),
        candidates(root).len() == 0 <==> !has_chain(root),
{
    let vs = preorder_of(root, 0);
    lemma_offers_empty(vs, vs.len() as int);
    lemma_first_per_leaf_empty(offers(vs, vs.len() as int));
    if has_chain(root) {
        let (i, k) = choose|i: int, k: int|
            0 <= i < vs.len() && vs[i].depth >= 1 && 0 <= k < vs[i].node.nodes@.len() && (
            #[trigger] vs[i].node.nodes@[k]).nodes@.len() == 1;
        assert(vs[i].node.nodes@[k].nodes@.len() == 1);
    }
}

/// Flattening is a function of the tree: two answers for one tree say the same.
pub proof fn lemma_flatten_deterministic(
    tree: Node,
    first: Result<Vec<String>, String>,
    second: Result<Vec<String>, String>,
)
    requires
        said(first) == flatten(tree),
        said(second) == flatten(tree),
    ensures
        said(first) == said(second),
{
}

/// Whether two trees are the same as far as flattening can tell: the same
/// ids in the same places. Names, marks, focus and geometry may differ.
pub open spec fn same_shape(a: Node, b: Node) -> bool
    decreases a,
{
    &&& a.id == b.id
    &&& a.nodes@.len() == b.nodes@.len()
    &&& forall|k: int|
        0 <= k < a.nodes@.len() ==> same_shape(#[trigger] a.nodes@[k], b.nodes@[k])
}

/// Whether two lists of moves move the same ids under the same ids.
pub open spec fn same_moves(x: Seq<(Node, usize)>, y: Seq<(Node, usize)>) -> bool {
    &&& x.len() == y.len()
    &&& forall|j: int| 0 <= j < x.len() ==> (#[trigger] x[j]).0.id == y[j].0.id && x[j].1 == y[j].1
}

proof fn lemma_same_shape_walk(a: Node, b: Node, d: nat)
    requires
        same_shape(a, b),
    ensures
        preorder_of(a, d).len() == preorder_of(b, d).len(),
        forall|i: int|
            0 <= i < preorder_of(a, d).len() ==> (#[trigger] preorder_of(a, d)[i]).depth
                == preorder_of(b, d)[i].depth && same_shape(
                preorder_of(a, d)[i].node,
                preorder_of(b, d)[i].node,
            ),
    decreases a, 0nat,
{
    lemma_same_shape_forest(a.nodes@, b.nodes@, 0, d + 1);
}

proof fn lemma_same_shape_forest(xs: Seq<Node>, ys: Seq<Node>, k: int, d: nat)
    requires
        xs.len() == ys.len(),
        forall|j: int| 0 <= j < xs.len() ==> same_shape(#[trigger] xs[j], ys[j]),
    ensures
        preorder_forest(xs, k, d).len() == preorder_forest(ys, k, d).len(),
        forall|i: int|
            0 <= i < preorder_forest(xs, k, d).len() ==> (#[trigger] preorder_forest(
                xs,
                k,
                d,
            )[i]).depth == preorder_forest(ys, k, d)[i].depth && same_shape(
                preorder_forest(xs, k, d)[i].node,
                preorder_forest(ys, k, d)[i].node,
            ),
    decreases xs, xs.len() - k,
{
    if 0 <= k < xs.len() {
        lemma_same_shape_walk(xs[k], ys[k], d);
        lemma_same_shape_forest(xs, ys, k + 1, d);
    }
}

proof fn lemma_same_shape_chain_end(a: Node, b: Node)
    requires
        same_shape(a, b),
    ensures
        same_shape(chain_end(a), chain_end(b)),
    decreases a,
{
    if a.nodes@.len() == 1 {
        lemma_same_shape_chain_end(a.nodes@[0], b.nodes@[0]);
    }
}

proof fn lemma_same_shape_offers_of(a: Node, b: Node, k: int)
    requires
        same_shape(a, b),
        0 <= k <= a.nodes@.len(),
    ensures
        same_moves(offers_of(a, k), offers_of(b, k)),
    decreases k,
{
    if k > 0 {
        lemma_same_shape_offers_of(a, b, k - 1);
        lemma_same_shape_chain_end(a.nodes@[k - 1], b.nodes@[k - 1]);
    }
}

proof fn lemma_same_shape_offers(xs: Seq<Visit>, ys: Seq<Visit>, i: int)
    requires
        xs.len() == ys.len(),
        0 <= i <= xs.len(),
        forall|j: int|
            0 <= j < xs.len() ==> (#[trigger] xs[j]).depth == ys[j].depth && same_shape(
                xs[j].node,
                ys[j].node,
            ),
    ensures
        same_moves(offers(xs, i), offers(ys, i)),
    decreases i,
{
    if i > 0 {
        lemma_same_shape_offers(xs, ys, i - 1);
        lemma_same_shape_offers_of(xs[i - 1].node, ys[i - 1].node, xs[i - 1].node.nodes@.len() as int);
    }
}

proof fn lemma_same_moves_kept(x: Seq<(Node, usize)>, y: Seq<(Node, usize)>)
    requires
        same_moves(x, y),
    ensures
        same_moves(first_per_leaf(x), first_per_leaf(y)),
    decreases x.len(),
{
    if x.len() > 0 {
        lemma_same_moves_kept(x.drop_last(), y.drop_last());
        let kx = first_per_leaf(x.drop_last());
        let ky = first_per_leaf(y.drop_last());
        if leaf_ids(kx).contains(x.last().0.id) {
            let j = choose|j: int| 0 <= j < kx.len() && (#[trigger] kx[j]).0.id == x.last().0.id;
            assert(ky[j].0.id == y.last().0.id);
        }
        if leaf_ids(ky).contains(y.last().0.id) {
            let j = choose|j: int| 0 <= j < ky.len() && (#[trigger] ky[j]).0.id == y.last().0.id;
            assert(kx[j].0.id == x.last().0.id);
        }
    }
}

/// The commands for a workspace follow from its ids and their places
/// alone: two snapshots that agree on those get the same commands,
/// whatever else has changed between them.
pub proof fn lemma_commands_follow_shape(a: Node, b: Node)
    requires
        same_shape(a, b),
    ensures
        collapse_commands(a) == collapse_commands(b),
{
    let xs = preorder_of(a, 0);
    let ys = preorder_of(b, 0);
    lemma_same_shape_walk(a, b, 0);
    lemma_same_shape_offers(xs, ys, xs.len() as int);
    lemma_same_moves_kept(offers(xs, xs.len() as int), offers(ys, ys.len() as int));
}

} // verus!
