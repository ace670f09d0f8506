use i3_valet::ext::NotFound;
use i3_valet::manage::{
    can_run_main, focus_main, make_main, mark, mark_name, run_main, swap_main, swap_mark, unmark, LayoutAction,
};
use i3_valet::node::{Node, NodeLayout, NodeType, Rect};

fn plain(id: usize, nodetype: NodeType) -> Node {
    Node {
        id,
        name: None,
        nodetype,
        layout: NodeLayout::SplitH,
        rect: Rect { x: 0, y: 0, width: 0, height: 0 },
        marks: vec![],
        focused: false,
        focus: vec![],
        floating: None,
        nodes: vec![],
        floating_nodes: vec![],
    }
}

// root -> workspace "web" -> [window 21, window 22, window 23]; `focused`
// is the id of the window that holds the focus
fn desk(focused: usize, marks: &[(usize, &str)]) -> Node {
    let mut ws = plain(20, NodeType::Workspace);
    ws.name = Some("web".to_string());
    ws.focus = vec![focused];
    for id in [21, 22, 23] {
        let mut w = plain(id, NodeType::Con);
        w.focused = id == focused;
        for (at, m) in marks {
            if *at == id {
                w.marks.push(m.to_string());
            }
        }
        ws.nodes.push(w);
    }
    let mut root = plain(1, NodeType::Root);
    root.focus = vec![20];
    root.nodes.push(ws);
    root
}

#[test]
fn mark_names_join_workspace_and_mark() {
    assert_eq!(mark_name("web", "main"), "web_main");
    assert_eq!(mark_name("", "last"), "_last");
    assert_eq!(mark_name("1: mail", ""), "1: mail_");
}

#[test]
fn mark_and_unmark_commands() {
    let n = plain(94372135467, NodeType::Con);
    assert_eq!(mark(Some(&n), "web_main"), "[con_id=94372135467] mark --add web_main");
    assert_eq!(mark(None, "web_main"), "mark --add web_main");
    assert_eq!(unmark(Some(&n), "web_last"), "[con_id=94372135467] unmark web_last");
    assert_eq!(unmark(None, "web_last"), "unmark web_last");
    assert_eq!(swap_mark("web_main"), "swap container with mark web_main");
}

#[test]
fn set_marks_the_focused_window() {
    let tree = desk(22, &[]);
    assert_eq!(make_main(&tree), Ok(vec!["mark --add web_main".to_string()]));
    assert_eq!(run_main(LayoutAction::SetMain, &tree), make_main(&tree));
}

#[test]
fn focus_goes_to_the_mark() {
    let tree = desk(22, &[]);
    assert_eq!(focus_main(&tree), Ok(vec!["[con_mark=web_main] focus".to_string()]));
    assert_eq!(run_main(LayoutAction::Focus, &tree), focus_main(&tree));
}

#[test]
fn swap_from_another_window_takes_main() {
    let tree = desk(22, &[(21, "web_main")]);
    let want = vec![
        "swap container with mark web_main".to_string(),
        "unmark web_last".to_string(),
        "unmark web_main".to_string(),
        "[con_id=22] mark --add web_main".to_string(),
        "[con_id=21] mark --add web_last".to_string(),
    ];
    assert_eq!(swap_main(&tree), Ok(want.clone()));
    assert_eq!(run_main(LayoutAction::Swap, &tree), Ok(want));
}

#[test]
fn swap_from_main_goes_back_to_last() {
    let tree = desk(21, &[(21, "web_main"), (23, "web_last")]);
    assert_eq!(
        swap_main(&tree),
        Ok(vec![
            "swap container with mark web_last".to_string(),
            "unmark web_last".to_string(),
            "unmark web_main".to_string(),
            "[con_id=23] mark --add web_main".to_string(),
            "[con_id=21] mark --add web_last".to_string(),
        ])
    );
}

#[test]
fn swap_needs_the_marks() {
    // no main window yet
    assert_eq!(swap_main(&desk(22, &[])), Err(NotFound::Mark));
    // main is focused, and there is no last one to go back to
    assert_eq!(swap_main(&desk(21, &[(21, "web_main")])), Err(NotFound::Mark));
    // the mark of another workspace does not count
    assert_eq!(swap_main(&desk(22, &[(21, "mail_main")])), Err(NotFound::Mark));
}

#[test]
fn swap_needs_a_focused_window() {
    let mut tree = desk(22, &[(21, "web_main")]);
    tree.nodes[0].nodes[1].focused = false;
    assert_eq!(swap_main(&tree), Err(NotFound::Window));
}

#[test]
fn main_needs_a_workspace() {
    let mut root = plain(1, NodeType::Root);
    root.focus = vec![2];
    root.nodes.push(plain(2, NodeType::Con));
    assert_eq!(make_main(&root), Err(NotFound::Workspace));
    assert_eq!(swap_main(&root), Err(NotFound::Workspace));
    assert_eq!(focus_main(&root), Err(NotFound::Workspace));
    assert_eq!(run_main(LayoutAction::SetMain, &root), Err(NotFound::Workspace));
    assert_eq!(run_main(LayoutAction::Swap, &root), Err(NotFound::Workspace));
    assert_eq!(run_main(LayoutAction::Focus, &root), Err(NotFound::Workspace));
}

#[test]
fn can_run_main_asks_for_a_named_workspace() {
    let tree = desk(22, &[]);
    assert!(can_run_main(&tree));
    let mut nameless = desk(22, &[]);
    nameless.nodes[0].name = None;
    assert!(!can_run_main(&nameless));
    // without a workspace there is nothing to name
    assert!(can_run_main(&plain(1, NodeType::Root)));
}
