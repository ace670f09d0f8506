//! Walking the tree and finding nodes in it.

use vstd::prelude::*;
use crate::node::{Node, NodeType};
use crate::focus::{
    find_first, focused_child_of, found, lemma_first_index_is, lemma_first_index_none,
    lemma_focus_path_unfold, lemma_search_finds_first, search_result,
};
use vstd::string::StringExecFns;
use crate::ext::node_ext::NodeExt;
use crate::walk::{
    lemma_child_height, postorder_forest, postorder_move, postorder_of, postorder_steps,
    preorder_forest, preorder_of, steps_after, StepView, Visit,
};

verus! {

/// How a walk got to a node, seen from the node it visited just before.
#[derive(Clone, Copy, Debug, PartialEq, Eq, Structural)]
pub enum Move {
    Up,
    Down,
    Sibling,
}

impl Move {
    /// The move from depth `last` to depth `cur`.
    pub open spec fn of(cur: int, last: int) -> Move {
        if cur > last {
            Move::Down
        } else if cur == last {
            Move::Sibling
        } else {
            Move::Up
        }
    }

    /// The move from depth `last` to depth `cur`: `Down` to a deeper node,
    /// `Sibling` at the same depth, `Up` to a shallower one.
    pub fn new(cur: &usize, last: &usize) -> (m: Move)
        ensures
            m == Move::of(*cur as int, *last as int),
    {
        if *cur > *last {
            Move::Down
        } else if *cur == *last {
            Move::Sibling
        } else {
            Move::Up
        }
    }
}

/// One step of a walk: the node, its depth below the node the walk began
/// at, and the move that led to it.
#[derive(Clone, Copy, Debug)]
pub struct Step<'a> {
    /// Depth of the node below the root of the walk.
    pub d: usize,
    /// The move from the step before to this one.
    pub m: Move,
    /// The node.
    pub n: &'a Node,
}

impl<'a> View for Step<'a> {
    type V = StepView;

    open spec fn view(&self) -> StepView {
        StepView { depth: self.d as nat, moved: self.m, node: *self.n }
    }
}

/// The visits that a stack of pending subtrees stands for: the walk of the
/// topmost entry first.
pub open spec fn pending_visits<'a>(stack: Seq<(usize, &'a Node)>) -> Seq<Visit>
    decreases stack.len(),
{
    if stack.len() == 0 {
        Seq::empty()
    } else {
        preorder_of(*stack.last().1, stack.last().0 as nat) + pending_visits(stack.drop_last())
    }
}

/// A pre-order walk that hands out one step at a time.
pub struct PreOrder<'a> {
    stack: Vec<(usize, &'a Node)>,
    last_d: usize,
}

impl<'a> PreOrder<'a> {
    /// The visits still to come, in order.
    pub closed spec fn remaining(&self) -> Seq<Visit> {
        pending_visits(self.stack@)
    }

    /// Depth of the step handed out last, 0 before the first.
    pub closed spec fn last_depth(&self) -> nat {
        self.last_d as nat
    }

    /// No depth that the walk will still compute leaves `usize`.
    pub closed spec fn wf(&self) -> bool {
        forall|i: int|
            0 <= i < self.stack@.len() ==> (#[trigger] self.stack@[i]).0
                + self.stack@[i].1.height() < usize::MAX
    }

    /// A walk that is about to start at `n`.
    pub fn new(n: &'a Node) -> (it: Self)
        requires
            n.height() < usize::MAX,
        ensures
            it.wf(),
            it.remaining() == preorder_of(*n, 0),
            it.last_depth() == 0,
    {
        let mut stack: Vec<(usize, &'a Node)> = Vec::with_capacity(16);
        stack.push((0, n));
        proof {
            assert(pending_visits(stack@.drop_last()) =~= Seq::empty());
        }
        PreOrder { last_d: 0, stack }
    }

    /// The next step, or `None` once every node has been handed out.
    pub fn next(&mut self) -> (r: Option<Step<'a>>)
        requires
            old(self).wf(),
        ensures
            final(self).wf(),
            old(self).remaining().len() == 0 ==> r is None && final(self).remaining()
                == old(self).remaining() && final(self).last_depth() == old(self).last_depth(),
            old(self).remaining().len() > 0 ==> r is Some && r.unwrap()@ == steps_after(
                old(self).remaining(),
                old(self).last_depth(),
            )[0] && final(self).remaining() == old(self).remaining().drop_first()
                && final(self).last_depth() == old(self).remaining()[0].depth,
    {
        let (d, container) = match self.stack.pop() {
            Some(e) => e,
            None => {
                return None;
            },
        };
        let ghost below = self.stack@;
        let new_d: usize = d + 1;
        let mut i: usize = container.nodes.len();
        while i > 0
            invariant
                i <= container.nodes@.len(),
                new_d == d + 1,
                d + container.height() < usize::MAX,
                self.wf(),
                self.last_d == old(self).last_d,
                pending_visits(self.stack@) == preorder_forest(
                    container.nodes@,
                    i as int,
                    new_d as nat,
                ) + pending_visits(below),
            decreases i,
        {
            i = i - 1;
            let ghost before = self.stack@;
            proof {
                lemma_child_height(*container, i as int);
            }
            self.stack.push((new_d, &container.nodes[i]));
            proof {
                assert(self.stack@.drop_last() =~= before);
                assert(pending_visits(self.stack@) =~= preorder_forest(
                    container.nodes@,
                    i as int,
                    new_d as nat,
                ) + pending_visits(below));
            }
        }
        let m = Move::new(&d, &self.last_d);
        self.last_d = d;
        proof {
            assert(old(self).remaining() =~= seq![Visit { depth: d as nat, node: *container }]
                + self.remaining());
        }
        Some(Step { d, m, n: container })
    }
}

/// The steps that one entry of a post-order stack stands for: the walks of
/// the children `n.nodes[idx..]`, then `n` itself.
pub open spec fn frame_steps(idx: int, depth: nat, n: Node) -> Seq<StepView> {
    postorder_forest(n.nodes@, idx, depth + 1).push(
        StepView { depth, moved: Move::Up, node: n },
    )
}

/// The steps that a post-order stack stands for, the topmost entry first.
pub open spec fn pending_steps<'a>(stack: Seq<(usize, usize, &'a Node)>) -> Seq<StepView>
    decreases stack.len(),
{
    if stack.len() == 0 {
        Seq::empty()
    } else {
        frame_steps(stack.last().0 as int, stack.last().1 as nat, *stack.last().2) + pending_steps(
            stack.drop_last(),
        )
    }
}

/// A post-order walk that hands out one step at a time.
pub struct PostOrder<'a> {
    // Each entry: the index of the child to walk next, the node's depth, the node.
    stack: Vec<(usize, usize, &'a Node)>,
}

impl<'a> PostOrder<'a> {
    /// The steps still to come, in order.
    pub closed spec fn remaining(&self) -> Seq<StepView> {
        pending_steps(self.stack@)
    }

    /// No depth that the walk will still compute leaves `usize`.
    pub closed spec fn wf(&self) -> bool {
        forall|i: int|
            0 <= i < self.stack@.len() ==> (#[trigger] self.stack@[i]).1
                + self.stack@[i].2.height() < usize::MAX
    }

    /// A walk that is about to start at `n`.
    pub fn new(n: &'a Node) -> (it: Self)
        requires
            n.height() < usize::MAX,
        ensures
            it.wf(),
            it.remaining() == postorder_steps(*n),
    {
        let mut stack: Vec<(usize, usize, &'a Node)> = Vec::with_capacity(16);
        stack.push((0, 0, n));
        proof {
            assert(pending_steps(stack@.drop_last()) =~= Seq::empty());
        }
        PostOrder { stack }
    }

    /// The next step, or `None` once every node has been handed out.
    pub fn next(&mut self) -> (r: Option<Step<'a>>)
        requires
            old(self).wf(),
        ensures
            final(self).wf(),
            old(self).remaining().len() == 0 ==> r is None && final(self).remaining()
                == old(self).remaining(),
            old(self).remaining().len() > 0 ==> r is Some && r.unwrap()@ == old(
                self,
            ).remaining()[0] && final(self).remaining() == old(self).remaining().drop_first(),
    {
        let (get_child_idx, mut depth, container) = match self.stack.pop() {
            Some(e) => e,
            None => {
                return None;
            },
        };
        let ghost below = self.stack@;

        // if no more children to walk, the node itself is the step
        if get_child_idx >= container.nodes.len() {
            proof {
                assert(old(self).remaining() =~= seq![
                    StepView { depth: depth as nat, moved: Move::Up, node: *container },
                ] + self.remaining());
            }
            return Some(Step { d: depth, m: Move::Up, n: container });
        }
        let mut n: &'a Node = &container.nodes[get_child_idx];

        // the node goes back first, with the child to look at next time
        self.stack.push((get_child_idx + 1, depth, container));
        proof {
            lemma_child_height(*container, get_child_idx as int);
            assert(self.stack@.drop_last() =~= below);
            assert(old(self).remaining() =~= postorder_of(*n, (depth + 1) as nat, get_child_idx as int)
                + pending_steps(self.stack@));
        }
        depth += 1;
        let ghost mut k: int = get_child_idx as int;

        // down the leftmost branch
        while n.has_children()
            invariant
                self.wf(),
                self.stack@.len() > 0,
                k >= 0,
                self.stack@.last().0 == k + 1,
                self.stack@.last().1 + 1 == depth,
                depth + n.height() < usize::MAX,
                old(self).remaining() == postorder_of(*n, depth as nat, k) + pending_steps(
                    self.stack@,
                ),
            decreases n.height(),
        {
            let ghost before = self.stack@;
            // 1 here, not 0: child 0 is the way down
            self.stack.push((1, depth, n));
            proof {
                lemma_child_height(*n, 0);
                assert(self.stack@.drop_last() =~= before);
                assert(postorder_forest(n.nodes@, 0, (depth + 1) as nat) =~= postorder_of(
                    n.nodes@[0],
                    (depth + 1) as nat,
                    0,
                ) + postorder_forest(n.nodes@, 1, (depth + 1) as nat));
                assert(postorder_of(*n, depth as nat, k) =~= postorder_of(
                    n.nodes@[0],
                    (depth + 1) as nat,
                    0,
                ) + frame_steps(1, depth as nat, *n));
                assert(old(self).remaining() =~= postorder_of(
                    n.nodes@[0],
                    (depth + 1) as nat,
                    0,
                ) + pending_steps(self.stack@));
                k = 0;
            }
            n = &n.nodes[0];
            depth += 1;
        }

        // n has no children: it is the step. The entry on top is its parent,
        // whose next child index is one more than the index of n.
        let top = &self.stack[self.stack.len() - 1];
        let m = if top.1 == depth || top.0 > 1 {
            Move::Sibling
        } else {
            Move::Down
        };
        proof {
            assert(postorder_of(*n, depth as nat, k) =~= seq![
                StepView { depth: depth as nat, moved: postorder_move(*n, k), node: *n },
            ]);
        }
        Some(Step { d: depth, m, n })
    }
}

/// The nodes of some visits, in the same order.
pub open spec fn visited_nodes(vs: Seq<Visit>) -> Seq<Node> {
    Seq::new(vs.len(), |i: int| vs[i].node)
}

/// The first node of the tree `root`, in pre-order, that carries the mark.
pub open spec fn marked_node(root: Node, mark: Seq<char>) -> Option<Node> {
    find_first(visited_nodes(preorder_of(root, 0)), |n: Node| n.marked(mark))
}

/// Whether `node` carries the mark `mark`.
pub fn has_mark(node: &Node, mark: &str) -> (b: bool)
    ensures
        b == node.marked(mark@),
{
    let wanted = String::from_str(mark);
    let mut i: usize = 0;
    while i < node.marks.len()
        invariant
            i <= node.marks@.len(),
            wanted@ == mark@,
            forall|j: int| 0 <= j < i ==> (#[trigger] node.marks@[j])@ != mark@,
        decreases node.marks@.len() - i,
    {
        if node.marks[i] == wanted {
            return true;
        }
        i += 1;
    }
    false
}

/// Walking a tree and searching it.
pub trait NodeSearch: NodeExt {
    /// A post-order walk of the node and what lies below it.
    fn postorder(&self) -> (it: PostOrder<'_>)
        requires
            self.as_node().height() < usize::MAX,
        ensures
            it.wf(),
            it.remaining() == postorder_steps(self.as_node()),
    ;

    /// A pre-order walk of the node and what lies below it.
    fn preorder(&self) -> (it: PreOrder<'_>)
        requires
            self.as_node().height() < usize::MAX,
        ensures
            it.wf(),
            it.remaining() == preorder_of(self.as_node(), 0),
            it.last_depth() == 0,
    ;

    /// Follows the focus path and returns the first node that `p` accepts.
    fn search_focus_path<P: Fn(&Node) -> bool>(&self, p: P) -> (r: Option<&Node>)
        requires
            forall|i: int|
                0 <= i < self.as_node().focus_path().len() ==> call_requires(
                    p,
                    (&#[trigger] self.as_node().focus_path()[i],),
                ),
        ensures
            search_result(self.as_node().focus_path(), p, found(r)),
    ;

    /// The workspace that holds the focus.
    fn get_current_workspace(&self) -> (r: Option<&Node>)
        ensures
            found(r) == self.as_node().current_workspace(),
    {
        let p = |n: &Node| -> (b: bool)
            ensures
                b == (n.nodetype == NodeType::Workspace),
            { n.nodetype == NodeType::Workspace };
        let r = self.search_focus_path(p);
        proof {
            lemma_search_finds_first(
                self.as_node().focus_path(),
                p,
                |n: Node| n.nodetype == NodeType::Workspace,
                found(r),
            );
        }
        r
    }

    /// The output that holds the focus.
    fn get_current_output(&self) -> (r: Option<&Node>)
        ensures
            found(r) == self.as_node().current_output(),
    {
        let p = |n: &Node| -> (b: bool)
            ensures
                b == (n.nodetype == NodeType::Output),
            { n.nodetype == NodeType::Output };
        let r = self.search_focus_path(p);
        proof {
            lemma_search_finds_first(
                self.as_node().focus_path(),
                p,
                |n: Node| n.nodetype == NodeType::Output,
                found(r),
            );
        }
        r
    }

    /// The content area of the focused output: the rectangle that windows
    /// live in, the output without its bars.
    fn get_content_area(&self) -> (r: Option<&Node>)
        ensures
            found(r) == self.as_node().content_area(),
    {
        let content = String::from_str("content");
        let p = |n: &Node| -> (b: bool)
            ensures
                b == n.named("content"@),
            {
                match &n.name {
                    Some(v) => *v == content,
                    None => false,
                }
            };
        let r = self.search_focus_path(p);
        proof {
            lemma_search_finds_first(
                self.as_node().focus_path(),
                p,
                |n: Node| n.named("content"@),
                found(r),
            );
        }
        r
    }

    /// The focused window.
    fn get_current_window(&self) -> (r: Option<&Node>)
        ensures
            found(r) == self.as_node().current_window(),
    {
        let p = |n: &Node| -> (b: bool)
            ensures
                b == n.focused,
            { n.focused };
        let r = self.search_focus_path(p);
        proof {
            lemma_search_finds_first(
                self.as_node().focus_path(),
                p,
                |n: Node| n.focused,
                found(r),
            );
        }
        r
    }

    /// The first node, in pre-order, that carries the mark.
    fn find_mark(&self, mark: &str) -> (r: Option<&Node>)
        requires
            self.as_node().height() < usize::MAX,
        ensures
            found(r) == marked_node(self.as_node(), mark@),
    {
        let mut it = self.preorder();
        let ghost all = visited_nodes(preorder_of(self.as_node(), 0));
        let ghost f = |n: Node| n.marked(mark@);
        let ghost mut i: int = 0;
        loop
            invariant
                it.wf(),
                0 <= i <= all.len(),
                all == visited_nodes(preorder_of(self.as_node(), 0)),
                f == (|n: Node| n.marked(mark@)),
                visited_nodes(it.remaining()) == all.skip(i),
                forall|j: int| 0 <= j < i ==> !f(#[trigger] all[j]),
            decreases all.len() - i,
        {
            let ghost rem = it.remaining();
            match it.next() {
                Some(s) => {
                    assert(visited_nodes(rem)[0] == rem[0].node);
                    assert(visited_nodes(rem.drop_first()) =~= visited_nodes(rem).drop_first());
                    if has_mark(s.n, mark) {
                        proof {
                            lemma_first_index_is(all, f, 0, i);
                        }
                        return Some(s.n);
                    }
                    proof {
                        i = i + 1;
                    }
                },
                None => {
                    proof {
                        lemma_first_index_none(all, f, 0);
                    }
                    return None;
                },
            }
        }
    }
}

impl NodeSearch for Node {
    fn postorder(&self) -> (it: PostOrder<'_>) {
        PostOrder::new(self)
    }

    fn preorder(&self) -> (it: PreOrder<'_>) {
        PreOrder::new(self)
    }

    fn search_focus_path<P: Fn(&Node) -> bool>(&self, p: P) -> (r: Option<&Node>) {
        let ghost path = self.focus_path();
        let ghost mut i: int = 0;
        let mut node: &Node = self;
        assert forall|k: int| 0 <= k < path.len() implies call_requires(
            p,
            (&#[trigger] path[k],),
        ) by {
            assert(path[k] == self.as_node().focus_path()[k]);
        }
        loop
            invariant
                forall|k: int| 0 <= k < path.len() ==> call_requires(p, (&#[trigger] path[k],)),
                path == self.focus_path(),
                0 <= i < path.len(),
                node.focus_path() == path.skip(i),
                forall|j: int| 0 <= j < i ==> call_ensures(p, (&#[trigger] path[j],), false),
            decreases path.len() - i,
        {
            proof {
                lemma_focus_path_unfold(*node);
            }
            assert(path.skip(i)[0] == path[i]);
            if p(node) {
                return Some(node);
            }
            match focused_child_of(node) {
                Some(c) => {
                    proof {
                        assert(c.focus_path() =~= path.skip(i).skip(1));
                        i = i + 1;
                    }
                    node = c;
                },
                None => {
                    return None;
                },
            }
        }
    }
}

} // verus!
