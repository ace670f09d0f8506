//! The container tree as the window manager reports it.

use vstd::prelude::*;

verus! {

/// A rectangle in screen coordinates.
#[derive(Clone, Copy, Debug, PartialEq, Eq, Structural)]
pub struct Rect {
    pub x: isize,
    pub y: isize,
    pub width: isize,
    pub height: isize,
}

/// What a container is.
#[derive(Clone, Copy, Debug, PartialEq, Eq, Structural)]
pub enum NodeType {
    Root,
    Output,
    Con,
    FloatingCon,
    Workspace,
    Dockarea,
}

/// How a container lays out its children.
#[derive(Clone, Copy, Debug, PartialEq, Eq, Structural)]
pub enum NodeLayout {
    SplitH,
    SplitV,
    Stacked,
    Tabbed,
    Dockarea,
    Output,
}

/// Whether a container floats, and who decided so.
#[derive(Clone, Copy, Debug, PartialEq, Eq, Structural)]
pub enum Floating {
    AutoOff,
    AutoOn,
    UserOff,
    UserOn,
}

/// One container of the tree, with everything below it.
///
/// `nodes` are the tiled children in rendering order, `floating_nodes` the
/// floating ones. `focus` lists child ids, most recently focused first.
#[derive(Debug)]
pub struct Node {
    pub id: usize,
    pub name: Option<String>,
    pub nodetype: NodeType,
    pub layout: NodeLayout,
    pub rect: Rect,
    pub marks: Vec<String>,
    pub focused: bool,
    pub focus: Vec<usize>,
    pub floating: Option<Floating>,
    pub nodes: Vec<Node>,
    pub floating_nodes: Vec<Node>,
}

impl Node {
    /// The longest chain of tiled children below this node, counted in edges.
    pub open spec fn height(self) -> nat
        decreases self, 0nat,
    {
        forest_height(self.nodes@, 0)
    }
}

/// One more than the greatest height among `ns[k..]`, or 0 if there is none.
pub open spec fn forest_height(ns: Seq<Node>, k: int) -> nat
    decreases ns, ns.len() - k,
{
    if 0 <= k < ns.len() {
        let h = ns[k].height() + 1;
        let rest = forest_height(ns, k + 1);
        if h >= rest { h } else { rest }
    } else {
        0
    }
}

/// A forest is lower than `limit` exactly if each of its trees is lower
/// than `limit - 1`.
pub proof fn lemma_forest_height_below(ns: Seq<Node>, k: int, limit: int)
    requires
        0 <= k,
        limit > 0,
    ensures
        forest_height(ns, k) < limit <==> forall|j: int|
            k <= j < ns.len() ==> (#[trigger] ns[j]).height() + 1 < limit,
    decreases ns.len() - k,
{
    if k < ns.len() {
        lemma_forest_height_below(ns, k + 1, limit);
    }
}

impl Node {
    /// Whether the tree is lower than `limit`: the walks ask for a height
    /// below `usize::MAX`, and this is how to find out.
    pub fn shallower_than(&self, limit: usize) -> (b: bool)
        ensures
            b == (self.height() < limit),
        decreases self,
    {
        if limit == 0 {
            return false;
        }
        let mut i: usize = 0;
        while i < self.nodes.len()
            invariant
                i <= self.nodes@.len(),
                limit > 0,
                forall|j: int| 0 <= j < i ==> (#[trigger] self.nodes@[j]).height() + 1 < limit,
            decreases self.nodes@.len() - i,
        {
            if !self.nodes[i].shallower_than(limit - 1) {
                proof {
                    lemma_forest_height_below(self.nodes@, 0, limit as int);
                }
                return false;
            }
            i += 1;
        }
        proof {
            lemma_forest_height_below(self.nodes@, 0, limit as int);
        }
        true
    }
}

} // verus!
