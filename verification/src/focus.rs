//! The focus path: from a node down to what is focused below it.

use vstd::prelude::*;
use crate::node::{Node, NodeType};

verus! {

/// The least index from `k` on at which `ns` holds a node with the id `id`,
/// or the length of `ns` if there is none.
pub open spec fn first_with_id(ns: Seq<Node>, id: usize, k: int) -> int
    decreases ns.len() - k,
{
    if 0 <= k < ns.len() {
        if ns[k].id == id {
            k
        } else {
            first_with_id(ns, id, k + 1)
        }
    } else {
        ns.len() as int
    }
}

impl Node {
    /// The child that the focus path goes to next: the first among the tiled
    /// children, then the floating ones, whose id is the first entry of
    /// `focus`. `None` where `focus` is empty or names no child.
    pub open spec fn focused_child(self) -> Option<Node> {
        if self.focus@.len() == 0 {
            None
        } else {
            let i = first_with_id(self.nodes@, self.focus@[0], 0);
            let j = first_with_id(self.floating_nodes@, self.focus@[0], 0);
            if i < self.nodes@.len() {
                Some(self.nodes@[i])
            } else if j < self.floating_nodes@.len() {
                Some(self.floating_nodes@[j])
            } else {
                None
            }
        }
    }

    /// The focus path: this node, its focused child, that child's focused
    /// child, and so on until a node has none.
    pub open spec fn focus_path(self) -> Seq<Node>
        decreases self,
    {
        if self.focus@.len() == 0 {
            seq![self]
        } else {
            let i = first_with_id(self.nodes@, self.focus@[0], 0);
            let j = first_with_id(self.floating_nodes@, self.focus@[0], 0);
            if 0 <= i < self.nodes@.len() {
                seq![self] + self.nodes@[i].focus_path()
            } else if 0 <= j < self.floating_nodes@.len() {
                seq![self] + self.floating_nodes@[j].focus_path()
            } else {
                seq![self]
            }
        }
    }
}

/// If `ns[i]` has the id and no node from `k` up to `i` has it, then `i` is
/// what `first_with_id` finds from `k`.
pub proof fn lemma_first_with_id_is(ns: Seq<Node>, id: usize, k: int, i: int)
    requires
        0 <= k <= i < ns.len(),
        ns[i].id == id,
        forall|j: int| k <= j < i ==> (#[trigger] ns[j]).id != id,
    ensures
        first_with_id(ns, id, k) == i,
    decreases i - k,
{
    if k < i {
        lemma_first_with_id_is(ns, id, k + 1, i);
    }
}

/// If no node from `k` on has the id, `first_with_id` finds nothing.
pub proof fn lemma_first_with_id_none(ns: Seq<Node>, id: usize, k: int)
    requires
        0 <= k,
        forall|j: int| k <= j < ns.len() ==> (#[trigger] ns[j]).id != id,
    ensures
        first_with_id(ns, id, k) == ns.len(),
    decreases ns.len() - k,
{
    if k < ns.len() {
        lemma_first_with_id_none(ns, id, k + 1);
    }
}

/// `first_with_id` stays between its starting point and the length.
pub proof fn lemma_first_with_id_range(ns: Seq<Node>, id: usize, k: int)
    requires
        0 <= k <= ns.len(),
    ensures
        k <= first_with_id(ns, id, k) <= ns.len(),
    decreases ns.len() - k,
{
    if k < ns.len() && ns[k].id != id {
        lemma_first_with_id_range(ns, id, k + 1);
    }
}

/// The focus path is the node, then the focus path of its focused child.
pub proof fn lemma_focus_path_unfold(n: Node)
    ensures
        n.focus_path() == seq![n] + match n.focused_child() {
            Some(c) => c.focus_path(),
            None => Seq::empty(),
        },
{
    if n.focus@.len() > 0 {
        lemma_first_with_id_range(n.nodes@, n.focus@[0], 0);
        lemma_first_with_id_range(n.floating_nodes@, n.focus@[0], 0);
    }
}

/// The least index from `k` on at which `f` holds of an entry of `s`, or the
/// length of `s` if it holds of none.
pub open spec fn first_index<T>(s: Seq<T>, f: spec_fn(T) -> bool, k: int) -> int
    decreases s.len() - k,
{
    if 0 <= k < s.len() {
        if f(s[k]) {
            k
        } else {
            first_index(s, f, k + 1)
        }
    } else {
        s.len() as int
    }
}

/// The first entry of `s` of which `f` holds.
pub open spec fn find_first<T>(s: Seq<T>, f: spec_fn(T) -> bool) -> Option<T> {
    let i = first_index(s, f, 0);
    if 0 <= i < s.len() {
        Some(s[i])
    } else {
        None
    }
}

/// If `f` holds at `i` and nowhere from `k` up to `i`, then `i` is what
/// `first_index` finds from `k`.
pub proof fn lemma_first_index_is<T>(s: Seq<T>, f: spec_fn(T) -> bool, k: int, i: int)
    requires
        0 <= k <= i < s.len(),
        f(s[i]),
        forall|j: int| k <= j < i ==> !f(#[trigger] s[j]),
    ensures
        first_index(s, f, k) == i,
    decreases i - k,
{
    if k < i {
        lemma_first_index_is(s, f, k + 1, i);
    }
}

/// If `f` holds nowhere from `k` on, `first_index` finds nothing.
pub proof fn lemma_first_index_none<T>(s: Seq<T>, f: spec_fn(T) -> bool, k: int)
    requires
        0 <= k,
        forall|j: int| k <= j < s.len() ==> !f(#[trigger] s[j]),
    ensures
        first_index(s, f, k) == s.len(),
    decreases s.len() - k,
{
    if k < s.len() {
        lemma_first_index_none(s, f, k + 1);
    }
}

impl Node {
    /// The first node on the focus path of which `f` holds.
    pub open spec fn focus_find(self, f: spec_fn(Node) -> bool) -> Option<Node> {
        find_first(self.focus_path(), f)
    }

    /// Whether the node's name is `name`.
    pub open spec fn named(self, name: Seq<char>) -> bool {
        self.name matches Some(s) && s@ == name
    }

    /// Whether the node carries the mark `mark`.
    pub open spec fn marked(self, mark: Seq<char>) -> bool {
        exists|i: int| 0 <= i < self.marks@.len() && (#[trigger] self.marks@[i])@ == mark
    }

    /// The workspace that holds the focus: the first workspace on the focus path.
    pub open spec fn current_workspace(self) -> Option<Node> {
        self.focus_find(|n: Node| n.nodetype == NodeType::Workspace)
    }

    /// The output that holds the focus: the first output on the focus path.
    pub open spec fn current_output(self) -> Option<Node> {
        self.focus_find(|n: Node| n.nodetype == NodeType::Output)
    }

    /// The content area of the focused output: the first node on the focus
    /// path that is named `content`.
    pub open spec fn content_area(self) -> Option<Node> {
        self.focus_find(|n: Node| n.named("content"@))
    }

    /// The focused window: the first node on the focus path that is itself focused.
    pub open spec fn current_window(self) -> Option<Node> {
        self.focus_find(|n: Node| n.focused)
    }
}

/// Where the focus of a node is empty or names none of its children, the
/// focus path ends at the node: a search from it finds the node itself or
/// nothing.
pub proof fn lemma_focus_path_ends(n: Node, f: spec_fn(Node) -> bool)
    requires
        n.focused_child() is None,
    ensures
        n.focus_path() == seq![n],
        n.focus_find(f) == (if f(n) {
            Some(n)
        } else {
            None
        }),
{
    lemma_focus_path_unfold(n);
    if f(n) {
        lemma_first_index_is(n.focus_path(), f, 0, 0);
    } else {
        lemma_first_index_none(n.focus_path(), f, 0);
    }
}

/// What a search hands back: the node behind the reference, if any.
pub open spec fn found<'a>(r: Option<&'a Node>) -> Option<Node> {
    match r {
        Some(n) => Some(*n),
        None => None,
    }
}

/// What a search along `path` with the test `p` may hand back: a node that
/// `p` accepted after it had refused every node before it, or nothing after
/// `p` had refused them all.
pub open spec fn search_result<P: Fn(&Node) -> bool>(path: Seq<Node>, p: P, r: Option<Node>) -> bool {
    match r {
        Some(n) => exists|i: int|
            0 <= i < path.len() && #[trigger] path[i] == n && call_ensures(p, (&path[i],), true)
                && forall|j: int| 0 <= j < i ==> call_ensures(p, (&#[trigger] path[j],), false),
        None => forall|j: int| 0 <= j < path.len() ==> call_ensures(p, (&#[trigger] path[j],), false),
    }
}

/// A search whose test computes `f` hands back the first node of which `f` holds.
pub proof fn lemma_search_finds_first<P: Fn(&Node) -> bool>(
    path: Seq<Node>,
    p: P,
    f: spec_fn(Node) -> bool,
    r: Option<Node>,
)
    requires
        search_result(path, p, r),
        forall|n: Node, b: bool| call_ensures(p, (&n,), b) ==> b == f(n),
    ensures
        r == find_first(path, f),
{
    match r {
        Some(n) => {
            let i = choose|i: int|
                0 <= i < path.len() && #[trigger] path[i] == n && call_ensures(p, (&path[i],), true)
                    && forall|j: int| 0 <= j < i ==> call_ensures(p, (&#[trigger] path[j],), false);
            lemma_first_index_is(path, f, 0, i);
        },
        None => {
            lemma_first_index_none(path, f, 0);
        },
    }
}

/// The child that the focus path of `node` goes to next.
pub fn focused_child_of<'a>(node: &'a Node) -> (r: Option<&'a Node>)
    ensures
        match r {
            Some(c) => node.focused_child() == Some(*c),
            None => node.focused_child() is None,
        },
{
    if node.focus.len() == 0 {
        return None;
    }
    let id = node.focus[0];
    let mut i: usize = 0;
    while i < node.nodes.len()
        invariant
            i <= node.nodes@.len(),
            node.focus@.len() > 0,
            id == node.focus@[0],
            forall|j: int| 0 <= j < i ==> (#[trigger] node.nodes@[j]).id != id,
        decreases node.nodes@.len() - i,
    {
        if node.nodes[i].id == id {
            proof {
                lemma_first_with_id_is(node.nodes@, id, 0, i as int);
            }
            return Some(&node.nodes[i]);
        }
        i += 1;
    }
    proof {
        lemma_first_with_id_none(node.nodes@, id, 0);
    }
    let mut j: usize = 0;
    while j < node.floating_nodes.len()
        invariant
            j <= node.floating_nodes@.len(),
            node.focus@.len() > 0,
            id == node.focus@[0],
            first_with_id(node.nodes@, id, 0) == node.nodes@.len(),
            forall|k: int| 0 <= k < j ==> (#[trigger] node.floating_nodes@[k]).id != id,
        decreases node.floating_nodes@.len() - j,
    {
        if node.floating_nodes[j].id == id {
            proof {
                lemma_first_with_id_is(node.floating_nodes@, id, 0, j as int);
            }
            return Some(&node.floating_nodes[j]);
        }
        j += 1;
    }
    proof {
        lemma_first_with_id_none(node.floating_nodes@, id, 0);
    }
    None
}

} // verus!
