use i3_valet::floats::{can_teleport, okers, teleport_float, DisplayArea, Pos, Positioning};
use i3_valet::node::{Node, NodeLayout, NodeType, Rect};

fn float_node(id: usize, nodetype: NodeType, rect: Rect, focus: Vec<usize>) -> Node {
    Node {
        id,
        name: None,
        nodetype,
        layout: NodeLayout::SplitH,
        rect,
        marks: vec![],
        focused: false,
        focus,
        floating: None,
        nodes: vec![],
        floating_nodes: vec![],
    }
}

fn rect(x: isize, y: isize, width: isize, height: isize) -> Rect {
    Rect { x, y, width, height }
}

// root -> output (0,0,1920,1080) -> content (0,20,1920,1060) -> workspace -> floating window
fn float_tree(window: Rect) -> Node {
    let mut win = float_node(5, NodeType::FloatingCon, window, vec![]);
    win.focused = true;
    let mut ws = float_node(4, NodeType::Workspace, rect(0, 20, 1920, 1060), vec![5]);
    ws.floating_nodes.push(win);
    let mut content = float_node(3, NodeType::Con, rect(0, 20, 1920, 1060), vec![4]);
    content.name = Some("content".to_string());
    content.nodes.push(ws);
    let mut output = float_node(2, NodeType::Output, rect(0, 0, 1920, 1080), vec![3]);
    output.nodes.push(content);
    let mut root = float_node(1, NodeType::Root, rect(0, 0, 1920, 1080), vec![2]);
    root.nodes.push(output);
    root
}

#[test]
fn anchors_of_a_display() {
    let display = DisplayArea(rect(0, 0, 1000, 800));
    let window = rect(37, 41, 200, 100);
    assert_eq!(display.position_window(&window, Pos::NW), (0, 0));
    assert_eq!(display.position_window(&window, Pos::NE), (800, 0));
    assert_eq!(display.position_window(&window, Pos::SW), (0, 700));
    assert_eq!(display.position_window(&window, Pos::SE), (800, 700));
    assert_eq!(display.position_window(&window, Pos::Top), (400, 0));
    assert_eq!(display.position_window(&window, Pos::Bottom), (400, 700));
    assert_eq!(display.position_window(&window, Pos::Left), (0, 350));
    assert_eq!(display.position_window(&window, Pos::Right), (800, 350));
}

#[test]
fn anchors_of_a_display_with_an_offset() {
    let display = DisplayArea(rect(1920, 30, 1000, 800));
    let window = rect(0, 0, 200, 100);
    assert_eq!(display.position_window(&window, Pos::NW), (1920, 30));
    assert_eq!(display.position_window(&window, Pos::NE), (2720, 30));
    assert_eq!(display.position_window(&window, Pos::SW), (1920, 730));
    assert_eq!(display.position_window(&window, Pos::SE), (2720, 730));
    assert_eq!(display.position_window(&window, Pos::Top), (2320, 30));
    assert_eq!(display.position_window(&window, Pos::Bottom), (2320, 730));
    assert_eq!(display.position_window(&window, Pos::Left), (1920, 380));
    assert_eq!(display.position_window(&window, Pos::Right), (2720, 380));
}

#[test]
fn centering_halves_each_size_on_its_own() {
    // 1001 / 2 - 200 / 2 = 500 - 100, and 801 / 2 - 101 / 2 = 400 - 50
    let display = DisplayArea(rect(0, 0, 1001, 801));
    let window = rect(0, 0, 200, 101);
    assert_eq!(display.position_window(&window, Pos::Top), (400, 0));
    assert_eq!(display.position_window(&window, Pos::Left), (0, 350));
    // 1000 / 2 - 201 / 2 = 500 - 100, though (1000 - 201) / 2 is 399
    let display = DisplayArea(rect(0, 0, 1000, 800));
    let window = rect(0, 0, 201, 100);
    assert_eq!(display.position_window(&window, Pos::Top), (400, 0));
    assert_eq!(display.position_window(&window, Pos::Bottom), (400, 700));
}

#[test]
fn window_larger_than_the_display_goes_negative() {
    let display = DisplayArea(rect(0, 0, 100, 100));
    let window = rect(0, 0, 300, 200);
    assert_eq!(display.position_window(&window, Pos::SE), (-200, -100));
    assert_eq!(display.position_window(&window, Pos::Top), (-100, 0));
}

#[test]
fn halves_round_toward_zero() {
    // a negative width is not a rectangle, but the division still truncates
    let display = DisplayArea(rect(0, 0, -3, -5));
    let window = rect(0, 0, 0, 0);
    assert_eq!(display.position_window(&window, Pos::Top), (-1, 0));
    assert_eq!(display.position_window(&window, Pos::Left), (0, -2));
}

#[test]
fn anchors_at_the_limits() {
    let display = DisplayArea(rect(isize::MAX, isize::MIN, 10, 10));
    let window = rect(0, 0, 10, 10);
    // x + w would overflow; the anchor itself fits
    assert_eq!(display.position_window(&window, Pos::NE), (isize::MAX, isize::MIN));
}

#[test]
fn display_area_picks_output_or_content() {
    let tree = float_tree(rect(10, 10, 200, 100));
    assert_eq!(DisplayArea::display(&tree).unwrap().0, rect(0, 0, 1920, 1080));
    assert_eq!(DisplayArea::content(&tree).unwrap().0, rect(0, 20, 1920, 1060));
    let lone = float_node(1, NodeType::Root, rect(0, 0, 1, 1), vec![]);
    assert!(DisplayArea::display(&lone).is_none());
    assert!(DisplayArea::content(&lone).is_none());
    assert_eq!(DisplayArea::from_node(&lone).0, rect(0, 0, 1, 1));
}

#[test]
fn teleport_gives_one_move_command() {
    let tree = float_tree(rect(10, 10, 200, 100));
    assert_eq!(
        teleport_float(&tree, Pos::SE, Positioning::Absolute),
        Ok(vec!["move position 1720 980".to_string()])
    );
    assert_eq!(
        teleport_float(&tree, Pos::SE, Positioning::Relative),
        Ok(vec!["move position 1720 980".to_string()])
    );
    assert_eq!(
        teleport_float(&tree, Pos::NW, Positioning::Absolute),
        Ok(vec!["move position 0 0".to_string()])
    );
    assert_eq!(
        teleport_float(&tree, Pos::NW, Positioning::Relative),
        Ok(vec!["move position 0 20".to_string()])
    );
    assert_eq!(
        teleport_float(&tree, Pos::Right, Positioning::Relative),
        Ok(vec!["move position 1720 500".to_string()])
    );
}

#[test]
fn teleport_writes_negative_coordinates() {
    let tree = float_tree(rect(0, 0, 2000, 1200));
    assert_eq!(
        teleport_float(&tree, Pos::SE, Positioning::Absolute),
        Ok(vec!["move position -80 -120".to_string()])
    );
}

#[test]
fn teleport_without_a_focused_window() {
    let mut tree = float_tree(rect(10, 10, 200, 100));
    tree.nodes[0].nodes[0].nodes[0].floating_nodes[0].focused = false;
    assert_eq!(
        teleport_float(&tree, Pos::NW, Positioning::Absolute),
        Err("Couldn't find in tree: current window".to_string())
    );
}

#[test]
fn teleport_without_a_content_area() {
    let mut tree = float_tree(rect(10, 10, 200, 100));
    tree.nodes[0].nodes[0].name = Some("other".to_string());
    assert_eq!(
        teleport_float(&tree, Pos::NW, Positioning::Relative),
        Err("Couldn't find in tree: content".to_string())
    );
    assert_eq!(
        teleport_float(&tree, Pos::NW, Positioning::Absolute),
        Ok(vec!["move position 0 0".to_string()])
    );
}

#[test]
fn teleport_without_an_output() {
    let mut tree = float_tree(rect(10, 10, 200, 100));
    tree.nodes[0].nodetype = NodeType::Con;
    assert_eq!(
        teleport_float(&tree, Pos::NW, Positioning::Absolute),
        Err("Couldn't find in tree: display".to_string())
    );
}

#[test]
fn okers_names_what_is_missing() {
    assert_eq!(okers(Some(3), "thing"), Ok(3));
    assert_eq!(okers::<u8>(None, "thing"), Err("Couldn't find in tree: thing".to_string()));
    assert_eq!(okers::<u8>(None, ""), Err("Couldn't find in tree: ".to_string()));
}

#[test]
fn can_place_tells_when_the_anchor_fits() {
    let display = DisplayArea(rect(isize::MAX - 10, 0, 100, 100));
    let small = rect(0, 0, 10, 10);
    let large = rect(0, 0, 200, 10);
    assert!(display.can_place(&small, Pos::NW));
    assert!(!display.can_place(&small, Pos::NE));
    assert!(display.can_place(&large, Pos::NE));
    assert!(!display.can_place(&small, Pos::Top));
    assert!(DisplayArea(rect(0, 0, 1000, 800)).can_place(&small, Pos::SE));
    let low = DisplayArea(rect(0, isize::MIN, 0, 0));
    assert!(low.can_place(&rect(0, 0, 0, 0), Pos::SW));
    assert!(!low.can_place(&rect(0, 0, 0, 1), Pos::SW));
}

#[test]
fn can_teleport_tells_when_to_call() {
    let tree = float_tree(rect(10, 10, 200, 100));
    assert!(can_teleport(&tree, Pos::SE, Positioning::Absolute));
    assert!(can_teleport(&tree, Pos::SE, Positioning::Relative));
    let mut far = float_tree(rect(10, 10, 200, 100));
    far.nodes[0].rect = rect(isize::MAX, 0, 1920, 1080);
    assert!(!can_teleport(&far, Pos::SE, Positioning::Absolute));
    assert!(can_teleport(&far, Pos::SE, Positioning::Relative));
    // nothing to place, nothing that could go wrong
    let lone = float_node(1, NodeType::Root, rect(0, 0, 1, 1), vec![]);
    assert!(can_teleport(&lone, Pos::SE, Positioning::Absolute));
}
