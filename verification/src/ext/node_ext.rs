//! Two questions that are asked of a node again and again.

use vstd::prelude::*;
use crate::node::{Floating, Node};

verus! {

impl Node {
    /// Whether the node floats: it carries a floating state, and that
    /// state is one of the two "on" states.
    pub open spec fn floats(self) -> bool {
        self.floating == Some(Floating::AutoOn) || self.floating == Some(Floating::UserOn)
    }
}

/// Convenience questions about a node.
pub trait NodeExt {
    /// The node that is being asked.
    spec fn as_node(&self) -> Node;

    /// Whether the window floats.
    fn is_floating(&self) -> (b: bool)
        ensures
            b == self.as_node().floats(),
    ;

    /// Whether the node has tiled children.
    fn has_children(&self) -> (b: bool)
        ensures
            b == (self.as_node().nodes@.len() > 0),
    ;
}

impl NodeExt for Node {
    open spec fn as_node(&self) -> Node {
        *self
    }

    fn is_floating(&self) -> (b: bool) {
        if let Some(float_val) = self.floating {
            match float_val {
                Floating::AutoOff | Floating::UserOff => false,
                Floating::AutoOn | Floating::UserOn => true,
            }
        } else {
            false
        }
    }

    fn has_children(&self) -> (b: bool) {
        self.nodes.len() > 0
    }
}

} // verus!
