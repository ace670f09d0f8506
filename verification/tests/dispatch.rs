use i3_valet::dispatch::{
    can_dispatch, dispatch, needs, Action, Failure, Fetch, LayoutCmd, Reply, Snapshot,
};
use i3_valet::ext::NotFound;
use i3_valet::floats::{Pos, Positioning};
use i3_valet::info::PrintTarget;
use i3_valet::manage::LayoutAction;
use i3_valet::node::{Node, NodeLayout, NodeType, Rect};
use i3_valet::output::{Change, Direction, Output};
use i3_valet::workspace::{Workspace, WorkspaceTarget};

fn part(id: usize, nodetype: NodeType, name: &str, focus: Vec<usize>, nodes: Vec<Node>) -> Node {
    Node {
        id,
        name: Some(name.to_string()),
        nodetype,
        layout: NodeLayout::SplitH,
        rect: Rect { x: 0, y: 0, width: 800, height: 600 },
        marks: vec![],
        focused: false,
        focus,
        floating: None,
        nodes,
        floating_nodes: vec![],
    }
}

// root -> output -> content -> workspace "w" -> con -> con -> focused window
fn whole_tree() -> Node {
    let mut win = part(10006, NodeType::Con, "win", vec![], vec![]);
    win.focused = true;
    win.rect = Rect { x: 10, y: 10, width: 200, height: 100 };
    let inner = part(10005, NodeType::Con, "inner", vec![10006], vec![win]);
    let outer = part(10004, NodeType::Con, "outer", vec![10005], vec![inner]);
    let ws = part(10003, NodeType::Workspace, "w", vec![10004], vec![outer]);
    let content = part(10002, NodeType::Con, "content", vec![10003], vec![ws]);
    let output = part(10001, NodeType::Output, "DP-1", vec![10002], vec![content]);
    part(10000, NodeType::Root, "root", vec![10001], vec![output])
}

fn some_workspaces() -> Vec<Workspace> {
    vec![
        Workspace { num: 2, name: "2".to_string(), focused: true, output: "B".to_string() },
        Workspace { num: 1, name: "1".to_string(), focused: false, output: "A".to_string() },
    ]
}

fn some_outputs() -> Vec<Output> {
    vec![
        Output { name: "A".to_string(), active: true },
        Output { name: "B".to_string(), active: true },
    ]
}

fn sent(commands: &[&str]) -> Result<Reply, Failure> {
    Ok(Reply { print: vec![], commands: commands.iter().map(|c| c.to_string()).collect() })
}

#[test]
fn actions_say_what_they_need() {
    assert_eq!(needs(&Action::Fix), Fetch::Tree);
    assert_eq!(needs(&Action::Loc { how: Positioning::Absolute, pos: Pos::NW }), Fetch::Tree);
    assert_eq!(needs(&Action::Print { target: PrintTarget::Tree }), Fetch::Tree);
    assert_eq!(
        needs(&Action::Layout { cmd: LayoutCmd::Main { action: LayoutAction::Swap } }),
        Fetch::Tree
    );
    assert_eq!(needs(&Action::Workspace { target: WorkspaceTarget::Alloc }), Fetch::Workspaces);
    assert_eq!(
        needs(&Action::Output { change: Change::Focus, dir: Direction::Next }),
        Fetch::Screens
    );
}

#[test]
fn dispatch_runs_the_action() {
    assert_eq!(
        dispatch(&Action::Fix, Snapshot::Tree(whole_tree())),
        sent(&["[con_id=10004] mark i3v; [con_id=10006] move container to mark i3v; unmark i3v"])
    );
    assert_eq!(
        dispatch(
            &Action::Loc { how: Positioning::Absolute, pos: Pos::SE },
            Snapshot::Tree(whole_tree())
        ),
        sent(&["move position 600 500"])
    );
    assert_eq!(
        dispatch(
            &Action::Layout { cmd: LayoutCmd::Main { action: LayoutAction::SetMain } },
            Snapshot::Tree(whole_tree())
        ),
        sent(&["mark --add w_main"])
    );
    assert_eq!(
        dispatch(
            &Action::Workspace { target: WorkspaceTarget::Alloc },
            Snapshot::Workspaces(some_workspaces())
        ),
        sent(&["workspace 3"])
    );
    assert_eq!(
        dispatch(
            &Action::Output { change: Change::MoveWs, dir: Direction::Next },
            Snapshot::Screens(some_workspaces(), some_outputs())
        ),
        sent(&["move workspace to output A"])
    );
}

#[test]
fn dispatch_prints_listings() {
    assert_eq!(
        dispatch(&Action::Print { target: PrintTarget::Window }, Snapshot::Tree(whole_tree())),
        Ok(Reply { print: vec!["Tree:".to_string(), "0win10006SplitHf".to_string()], commands: vec![] })
    );
}

#[test]
fn dispatch_passes_failures_on() {
    let lone = || part(10000, NodeType::Root, "root", vec![], vec![]);
    assert_eq!(
        dispatch(&Action::Fix, Snapshot::Tree(lone())),
        Err(Failure::Missing("No current workspace!?".to_string()))
    );
    assert_eq!(
        dispatch(&Action::Loc { how: Positioning::Relative, pos: Pos::Top }, Snapshot::Tree(lone())),
        Err(Failure::Missing("Couldn't find in tree: current window".to_string()))
    );
    assert_eq!(
        dispatch(&Action::Print { target: PrintTarget::Rects }, Snapshot::Tree(lone())),
        Err(Failure::NotFound(NotFound::Output))
    );
    assert_eq!(
        dispatch(
            &Action::Layout { cmd: LayoutCmd::Main { action: LayoutAction::Focus } },
            Snapshot::Tree(lone())
        ),
        Err(Failure::NotFound(NotFound::Workspace))
    );
    assert_eq!(
        dispatch(
            &Action::Output { change: Change::Focus, dir: Direction::Prev },
            Snapshot::Screens(vec![], some_outputs())
        ),
        Err(Failure::NotFound(NotFound::Workspace))
    );
}

#[test]
fn can_dispatch_tells_when_to_call() {
    assert!(can_dispatch(&Action::Fix, &Snapshot::Tree(whole_tree())));
    assert!(can_dispatch(
        &Action::Workspace { target: WorkspaceTarget::MoveNew },
        &Snapshot::Workspaces(some_workspaces())
    ));
    assert!(can_dispatch(
        &Action::Output { change: Change::Focus, dir: Direction::Next },
        &Snapshot::Screens(vec![], vec![])
    ));
    // the wrong snapshot
    assert!(!can_dispatch(&Action::Fix, &Snapshot::Workspaces(some_workspaces())));
    assert!(!can_dispatch(
        &Action::Workspace { target: WorkspaceTarget::Alloc },
        &Snapshot::Tree(whole_tree())
    ));
    // an id too short for the listing
    let mut small = whole_tree();
    small.nodes[0].id = 7;
    small.focus = vec![7];
    assert!(!can_dispatch(&Action::Print { target: PrintTarget::Rects }, &Snapshot::Tree(small)));
    // a workspace without a name
    let mut nameless = whole_tree();
    nameless.nodes[0].nodes[0].nodes[0].name = None;
    assert!(!can_dispatch(
        &Action::Layout { cmd: LayoutCmd::Main { action: LayoutAction::SetMain } },
        &Snapshot::Tree(nameless)
    ));
    // an anchor that no machine number holds
    let mut far = whole_tree();
    far.nodes[0].rect = Rect { x: isize::MAX, y: 0, width: 800, height: 600 };
    assert!(!can_dispatch(
        &Action::Loc { how: Positioning::Absolute, pos: Pos::SE },
        &Snapshot::Tree(far)
    ));
}
