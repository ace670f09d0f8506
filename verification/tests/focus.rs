use i3_valet::ext::NodeSearch;
use i3_valet::node::{Node, NodeLayout, NodeType, Rect};

fn focus_node(id: usize, nodetype: NodeType, focus: Vec<usize>, nodes: Vec<Node>) -> Node {
    Node {
        id,
        name: None,
        nodetype,
        layout: NodeLayout::SplitH,
        rect: Rect { x: 0, y: 0, width: 0, height: 0 },
        marks: vec![],
        focused: false,
        focus,
        floating: None,
        nodes,
        floating_nodes: vec![],
    }
}

// root -> output(10) -> content(11, "content") -> workspace(12) -> [win(13), win(14 focused)]
fn focus_tree() -> Node {
    let mut w13 = focus_node(13, NodeType::Con, vec![], vec![]);
    w13.marks = vec!["left".to_string()];
    let mut w14 = focus_node(14, NodeType::Con, vec![], vec![]);
    w14.focused = true;
    w14.marks = vec!["x".to_string(), "right".to_string()];
    let ws = focus_node(12, NodeType::Workspace, vec![14, 13], vec![w13, w14]);
    let mut content = focus_node(11, NodeType::Con, vec![12], vec![ws]);
    content.name = Some("content".to_string());
    let mut bar = focus_node(15, NodeType::Dockarea, vec![], vec![]);
    bar.name = Some("topdock".to_string());
    let output = focus_node(10, NodeType::Output, vec![11, 15], vec![bar, content]);
    focus_node(1, NodeType::Root, vec![10], vec![output])
}

#[test]
fn focus_path_finds_the_current_entities() {
    let tree = focus_tree();
    assert_eq!(tree.get_current_output().unwrap().id, 10);
    assert_eq!(tree.get_content_area().unwrap().id, 11);
    assert_eq!(tree.get_current_workspace().unwrap().id, 12);
    assert_eq!(tree.get_current_window().unwrap().id, 14);
}

#[test]
fn focus_path_search_takes_the_first_match() {
    let tree = focus_tree();
    // the root itself matches
    assert_eq!(tree.search_focus_path(|_| true).unwrap().id, 1);
    assert_eq!(tree.search_focus_path(|n| n.id > 10).unwrap().id, 11);
    assert!(tree.search_focus_path(|_| false).is_none());
    // 13 is in the tree, but not on the focus path
    assert!(tree.search_focus_path(|n| n.id == 13).is_none());
}

#[test]
fn focus_path_with_unknown_id_is_not_found() {
    let child = focus_node(2, NodeType::Workspace, vec![], vec![]);
    let root = focus_node(1, NodeType::Root, vec![99], vec![child]);
    assert!(root.get_current_workspace().is_none());
    assert!(root.get_current_output().is_none());
    assert!(root.get_current_window().is_none());
    assert!(root.get_content_area().is_none());
    assert!(root.search_focus_path(|n| n.id == 2).is_none());
}

#[test]
fn focus_path_with_empty_focus_is_not_found() {
    let child = focus_node(2, NodeType::Workspace, vec![], vec![]);
    let root = focus_node(1, NodeType::Root, vec![], vec![child]);
    assert!(root.get_current_workspace().is_none());
    let alone = focus_node(3, NodeType::Root, vec![], vec![]);
    assert!(alone.get_current_window().is_none());
    assert_eq!(alone.search_focus_path(|n| n.id == 3).unwrap().id, 3);
}

#[test]
fn focus_path_uses_only_the_first_focus_entry() {
    let a = focus_node(2, NodeType::Con, vec![], vec![]);
    let b = focus_node(3, NodeType::Workspace, vec![], vec![]);
    // 3 is a child and a workspace, but the path goes to 2
    let root = focus_node(1, NodeType::Root, vec![2, 3], vec![a, b]);
    assert!(root.get_current_workspace().is_none());
}

#[test]
fn focus_path_goes_through_floating_children() {
    let mut win = focus_node(5, NodeType::Con, vec![], vec![]);
    win.focused = true;
    let mut ws = focus_node(2, NodeType::Workspace, vec![5], vec![]);
    ws.floating_nodes.push(win);
    let root = focus_node(1, NodeType::Root, vec![2], vec![ws]);
    assert_eq!(root.get_current_window().unwrap().id, 5);
}

#[test]
fn focus_path_prefers_tiled_over_floating_on_equal_ids() {
    let mut tiled = focus_node(5, NodeType::Con, vec![], vec![]);
    tiled.name = Some("tiled".to_string());
    let mut floating = focus_node(5, NodeType::Con, vec![], vec![]);
    floating.name = Some("floating".to_string());
    let mut root = focus_node(1, NodeType::Root, vec![5], vec![tiled]);
    root.floating_nodes.push(floating);
    let hit = root.search_focus_path(|n| n.id == 5).unwrap();
    assert_eq!(hit.name.as_deref(), Some("tiled"));
}

#[test]
fn find_mark_returns_the_first_in_preorder() {
    let tree = focus_tree();
    assert_eq!(tree.find_mark("left").unwrap().id, 13);
    assert_eq!(tree.find_mark("right").unwrap().id, 14);
    assert_eq!(tree.find_mark("x").unwrap().id, 14);
    assert!(tree.find_mark("nothing").is_none());
    assert!(tree.find_mark("").is_none());
    // part of a mark is not the mark
    assert!(tree.find_mark("lef").is_none());

    let mut a = focus_node(2, NodeType::Con, vec![], vec![]);
    a.marks = vec!["m".to_string()];
    let mut b = focus_node(3, NodeType::Con, vec![], vec![]);
    b.marks = vec!["m".to_string()];
    let mid = focus_node(4, NodeType::Con, vec![], vec![b]);
    let root = focus_node(1, NodeType::Root, vec![], vec![mid, a]);
    assert_eq!(root.find_mark("m").unwrap().id, 3);
}

#[test]
fn has_mark_compares_whole_marks() {
    let mut n = focus_node(1, NodeType::Con, vec![], vec![]);
    assert!(!i3_valet::ext::node_search::has_mark(&n, "a"));
    n.marks = vec!["ab".to_string(), "c".to_string()];
    assert!(i3_valet::ext::node_search::has_mark(&n, "ab"));
    assert!(i3_valet::ext::node_search::has_mark(&n, "c"));
    assert!(!i3_valet::ext::node_search::has_mark(&n, "a"));
    assert!(!i3_valet::ext::node_search::has_mark(&n, "abc"));
}

#[test]
fn focused_child_of_follows_the_first_focus_id() {
    let tree = focus_tree();
    let child = i3_valet::focus::focused_child_of(&tree).unwrap();
    assert_eq!(child.id, 10);
    let next = i3_valet::focus::focused_child_of(child).unwrap();
    assert_eq!(next.id, 11);
    let leaf = focus_node(7, NodeType::Con, vec![3], vec![]);
    assert!(i3_valet::focus::focused_child_of(&leaf).is_none());
}
