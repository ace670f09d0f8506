//! A whole walk at once: every step of it, in a list.

use vstd::prelude::*;
use crate::ext::node_search::{PostOrder, PreOrder, Step};
use crate::node::Node;
use crate::walk::{postorder_steps, preorder_of, preorder_steps, steps_after, StepView};

verus! {

/// The order of a walk.
#[derive(Clone, Copy, Debug, PartialEq, Eq, Structural)]
pub enum Order {
    PreOrder,
    PostOrder,
}

/// What a list of steps holds.
pub open spec fn step_views<'a>(steps: Seq<Step<'a>>) -> Seq<StepView> {
    Seq::new(steps.len(), |i: int| steps[i]@)
}

/// The steps of the walk of `n` in the order `order`.
pub open spec fn walk_steps(n: Node, order: Order) -> Seq<StepView> {
    match order {
        Order::PreOrder => preorder_steps(n),
        Order::PostOrder => postorder_steps(n),
    }
}

/// Every step of the pre-order walk of `n`.
pub fn preorder<'a>(n: &'a Node) -> (steps: Vec<Step<'a>>)
    requires
        n.height() < usize::MAX,
    ensures
        step_views(steps@) == preorder_steps(*n),
{
    let mut steps: Vec<Step<'a>> = Vec::new();
    let mut it = PreOrder::new(n);
    let ghost all = preorder_of(*n, 0);
    loop
        invariant
            it.wf(),
            all == preorder_of(*n, 0),
            steps@.len() <= all.len(),
            it.remaining() == all.skip(steps@.len() as int),
            it.last_depth() == (if steps@.len() == 0 {
                0
            } else {
                all[steps@.len() - 1].depth
            }),
            step_views(steps@) == steps_after(all, 0).take(steps@.len() as int),
        decreases all.len() - steps@.len(),
    {
        match it.next() {
            Some(s) => {
                steps.push(s);
            },
            None => {
                return steps;
            },
        }
    }
}

/// Every step of the post-order walk of `n`.
pub fn postorder<'a>(n: &'a Node) -> (steps: Vec<Step<'a>>)
    requires
        n.height() < usize::MAX,
    ensures
        step_views(steps@) == postorder_steps(*n),
{
    let mut steps: Vec<Step<'a>> = Vec::new();
    let mut it = PostOrder::new(n);
    let ghost all = postorder_steps(*n);
    loop
        invariant
            it.wf(),
            all == postorder_steps(*n),
            steps@.len() <= all.len(),
            it.remaining() == all.skip(steps@.len() as int),
            step_views(steps@) == all.take(steps@.len() as int),
        decreases all.len() - steps@.len(),
    {
        match it.next() {
            Some(s) => {
                steps.push(s);
            },
            None => {
                return steps;
            },
        }
    }
}

/// A walk that was made in full when it was asked for, and hands out its
/// steps one at a time.
pub struct Traversal<'a> {
    order: Order,
    size: usize,
    walked: Vec<Step<'a>>,
    at: usize,
}

impl<'a> Traversal<'a> {
    /// The steps still to come.
    pub closed spec fn remaining(&self) -> Seq<StepView> {
        step_views(self.walked@).skip(self.at as int)
    }

    /// The order that the walk was made in.
    pub closed spec fn order_of(&self) -> Order {
        self.order
    }

    /// The number of steps of the whole walk.
    pub closed spec fn size_of(&self) -> usize {
        self.size
    }

    /// The place in the walk is a place in the list.
    pub closed spec fn wf(&self) -> bool {
        self.at <= self.walked@.len()
    }

    /// The walk of `n` in the order `order`.
    pub fn new(n: &'a Node, order: Order) -> (t: Self)
        requires
            n.height() < usize::MAX,
        ensures
            t.wf(),
            t.order_of() == order,
            t.size_of() == walk_steps(*n, order).len(),
            t.remaining() == walk_steps(*n, order),
    {
        let walked = match order {
            Order::PreOrder => preorder(n),
            Order::PostOrder => postorder(n),
        };
        let size = walked.len();
        Traversal { order, size, walked, at: 0 }
    }

    /// The order that the walk was made in.
    pub fn order(&self) -> (o: Order)
        ensures
            o == self.order_of(),
    {
        self.order
    }

    /// The number of steps of the whole walk.
    pub fn size(&self) -> (n: usize)
        ensures
            n == self.size_of(),
    {
        self.size
    }

    /// The next step, or `None` after the last.
    pub fn next(&mut self) -> (r: Option<Step<'a>>)
        requires
            old(self).wf(),
        ensures
            final(self).wf(),
            final(self).order_of() == old(self).order_of(),
            final(self).size_of() == old(self).size_of(),
            old(self).remaining().len() == 0 ==> r is None && final(self).remaining() == old(
                self,
            ).remaining(),
            old(self).remaining().len() > 0 ==> r is Some && r.unwrap()@ == old(
                self,
            ).remaining()[0] && final(self).remaining() == old(self).remaining().drop_first(),
    {
        if self.at < self.walked.len() {
            let s = self.walked[self.at];
            self.at += 1;
            Some(s)
        } else {
            None
        }
    }
}

} // verus!
