use i3_valet::ext::{Move, NodeExt, NodeSearch, PostOrder, PreOrder};
use i3_valet::node::{Floating, Node, NodeLayout, NodeType, Rect};
use i3_valet::{Order, Traversal};

fn walk_node(id: usize, nodes: Vec<Node>) -> Node {
    Node {
        id,
        name: None,
        nodetype: NodeType::Con,
        layout: NodeLayout::SplitH,
        rect: Rect { x: 0, y: 0, width: 0, height: 0 },
        marks: vec![],
        focused: false,
        focus: vec![],
        floating: None,
        nodes,
        floating_nodes: vec![],
    }
}

// 1 -> [2 -> [4, 5 -> [6]], 3]
fn walk_tree() -> Node {
    walk_node(
        1,
        vec![
            walk_node(2, vec![walk_node(4, vec![]), walk_node(5, vec![walk_node(6, vec![])])]),
            walk_node(3, vec![]),
        ],
    )
}

fn collect_pre(root: &Node) -> Vec<(usize, usize, Move)> {
    let mut it = root.preorder();
    let mut out = vec![];
    while let Some(s) = it.next() {
        out.push((s.n.id, s.d, s.m));
    }
    out
}

fn collect_post(root: &Node) -> Vec<(usize, usize, Move)> {
    let mut it = root.postorder();
    let mut out = vec![];
    while let Some(s) = it.next() {
        out.push((s.n.id, s.d, s.m));
    }
    out
}

#[test]
fn move_new_compares_depths() {
    assert_eq!(Move::new(&3, &2), Move::Down);
    assert_eq!(Move::new(&2, &2), Move::Sibling);
    assert_eq!(Move::new(&1, &2), Move::Up);
    assert_eq!(Move::new(&0, &0), Move::Sibling);
}

#[test]
fn preorder_visits_parents_first() {
    let tree = walk_tree();
    assert_eq!(
        collect_pre(&tree),
        vec![
            (1, 0, Move::Sibling),
            (2, 1, Move::Down),
            (4, 2, Move::Down),
            (5, 2, Move::Sibling),
            (6, 3, Move::Down),
            (3, 1, Move::Up),
        ]
    );
}

#[test]
fn postorder_visits_parents_last() {
    let tree = walk_tree();
    assert_eq!(
        collect_post(&tree),
        vec![
            (4, 2, Move::Down),
            (6, 3, Move::Down),
            (5, 2, Move::Up),
            (2, 1, Move::Up),
            (3, 1, Move::Sibling),
            (1, 0, Move::Up),
        ]
    );
}

#[test]
fn walks_of_a_single_node() {
    let leaf = walk_node(9, vec![]);
    assert_eq!(collect_pre(&leaf), vec![(9, 0, Move::Sibling)]);
    assert_eq!(collect_post(&leaf), vec![(9, 0, Move::Up)]);
}

#[test]
fn walks_visit_every_node_once() {
    let tree = walk_tree();
    let mut pre: Vec<usize> = collect_pre(&tree).iter().map(|s| s.0).collect();
    let mut post: Vec<usize> = collect_post(&tree).iter().map(|s| s.0).collect();
    assert_eq!(pre.len(), 6);
    assert_eq!(post.len(), 6);
    pre.sort();
    post.sort();
    assert_eq!(pre, vec![1, 2, 3, 4, 5, 6]);
    assert_eq!(post, vec![1, 2, 3, 4, 5, 6]);
}

#[test]
fn walks_order_ancestors_and_descendants() {
    let tree = walk_tree();
    let pre: Vec<usize> = collect_pre(&tree).iter().map(|s| s.0).collect();
    let post: Vec<usize> = collect_post(&tree).iter().map(|s| s.0).collect();
    let at = |v: &Vec<usize>, id: usize| v.iter().position(|x| *x == id).unwrap();
    // (ancestor, descendant)
    for (a, d) in [(1, 2), (1, 3), (1, 4), (1, 5), (1, 6), (2, 4), (2, 5), (2, 6), (5, 6)] {
        assert!(at(&pre, a) < at(&pre, d));
        assert!(at(&post, a) > at(&post, d));
    }
}

#[test]
fn walks_skip_floating_children() {
    let mut tree = walk_node(1, vec![walk_node(2, vec![])]);
    tree.floating_nodes.push(walk_node(3, vec![]));
    assert_eq!(collect_pre(&tree), vec![(1, 0, Move::Sibling), (2, 1, Move::Down)]);
    assert_eq!(collect_post(&tree), vec![(2, 1, Move::Down), (1, 0, Move::Up)]);
}

#[test]
fn walks_end_and_stay_ended() {
    let tree = walk_node(1, vec![walk_node(2, vec![])]);
    let mut pre = PreOrder::new(&tree);
    assert!(pre.next().is_some());
    assert!(pre.next().is_some());
    assert!(pre.next().is_none());
    assert!(pre.next().is_none());
    let mut post = PostOrder::new(&tree);
    assert!(post.next().is_some());
    assert!(post.next().is_some());
    assert!(post.next().is_none());
    assert!(post.next().is_none());
}

#[test]
fn postorder_of_a_wide_tree() {
    // 1 -> [2, 3 -> [5, 6], 4]
    let tree = walk_node(
        1,
        vec![
            walk_node(2, vec![]),
            walk_node(3, vec![walk_node(5, vec![]), walk_node(6, vec![])]),
            walk_node(4, vec![]),
        ],
    );
    assert_eq!(
        collect_post(&tree),
        vec![
            (2, 1, Move::Down),
            (5, 2, Move::Down),
            (6, 2, Move::Sibling),
            (3, 1, Move::Up),
            (4, 1, Move::Sibling),
            (1, 0, Move::Up),
        ]
    );
    assert_eq!(
        collect_pre(&tree),
        vec![
            (1, 0, Move::Sibling),
            (2, 1, Move::Down),
            (3, 1, Move::Sibling),
            (5, 2, Move::Down),
            (6, 2, Move::Sibling),
            (4, 1, Move::Up),
        ]
    );
}

#[test]
fn traversal_holds_the_whole_walk() {
    let tree = walk_tree();
    let mut pre = Traversal::new(&tree, Order::PreOrder);
    assert_eq!(pre.size(), 6);
    assert_eq!(pre.order(), Order::PreOrder);
    let mut ids = vec![];
    while let Some(s) = pre.next() {
        ids.push((s.n.id, s.d, s.m));
    }
    assert_eq!(ids, collect_pre(&tree));
    assert!(pre.next().is_none());
    // the size is that of the whole walk, not of what is left
    assert_eq!(pre.size(), 6);

    let mut post = Traversal::new(&tree, Order::PostOrder);
    assert_eq!(post.size(), 6);
    assert_eq!(post.order(), Order::PostOrder);
    let mut ids = vec![];
    while let Some(s) = post.next() {
        ids.push((s.n.id, s.d, s.m));
    }
    assert_eq!(ids, collect_post(&tree));
}

#[test]
fn eager_walks_match_the_lazy_ones() {
    let tree = walk_tree();
    let pre: Vec<(usize, usize, Move)> =
        i3_valet::traversal::preorder(&tree).iter().map(|s| (s.n.id, s.d, s.m)).collect();
    let post: Vec<(usize, usize, Move)> =
        i3_valet::traversal::postorder(&tree).iter().map(|s| (s.n.id, s.d, s.m)).collect();
    assert_eq!(pre, collect_pre(&tree));
    assert_eq!(post, collect_post(&tree));
}

#[test]
fn node_ext_answers() {
    let mut n = walk_node(1, vec![]);
    assert!(!n.has_children());
    assert!(!n.is_floating());
    n.floating = Some(Floating::AutoOff);
    assert!(!n.is_floating());
    n.floating = Some(Floating::UserOff);
    assert!(!n.is_floating());
    n.floating = Some(Floating::AutoOn);
    assert!(n.is_floating());
    n.floating = Some(Floating::UserOn);
    assert!(n.is_floating());
    n.nodes.push(walk_node(2, vec![]));
    assert!(n.has_children());
    // floating children are not tiled children
    let mut f = walk_node(3, vec![]);
    f.floating_nodes.push(walk_node(4, vec![]));
    assert!(!f.has_children());
}

#[test]
fn shallower_than_measures_the_height() {
    let leaf = walk_node(1, vec![]);
    assert!(!leaf.shallower_than(0));
    assert!(leaf.shallower_than(1));
    let tree = walk_tree();
    // the longest chain is 1 -> 2 -> 5 -> 6: three edges
    assert!(!tree.shallower_than(3));
    assert!(tree.shallower_than(4));
    assert!(tree.shallower_than(usize::MAX));
}
