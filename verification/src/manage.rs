//! The main window of a workspace: a mark that names it, and the commands
//! that set it, swap with it and focus it.

use vstd::prelude::*;
use vstd::string::StringExecFns;
use crate::ext::node_search::{marked_node, NodeSearch};
use crate::ext::NotFound;
use crate::node::Node;
use crate::text::{append_usize, commands_of, decimal, lines};

verus! {

/// What to do about the main window.
#[derive(Clone, Copy, Debug, PartialEq, Eq, Structural)]
pub enum LayoutAction {
    /// Set the current window as the "main" window
    SetMain,
    /// Swaps:
    ///
    /// If main is focused, swaps with the previously focused window
    /// If another window is focused, swaps the current window with main
    Swap,
    /// Focus the main window
    Focus,
}

/// The mark `name` of the workspace named `wsname`.
pub open spec fn mark_name_of(wsname: Seq<char>, name: Seq<char>) -> Seq<char> {
    wsname + "_"@ + name
}

/// The command that takes `mark` off the container `target`, or off
/// whatever carries it.
pub open spec fn unmark_command(target: Option<usize>, mark: Seq<char>) -> Seq<char> {
    match target {
        Some(id) => "[con_id="@ + decimal(id as nat) + "] unmark "@ + mark,
        None => "unmark "@ + mark,
    }
}

/// The command that puts `mark` on the container `target`, or on the
/// focused one.
pub open spec fn mark_command(target: Option<usize>, mark: Seq<char>) -> Seq<char> {
    match target {
        Some(id) => "[con_id="@ + decimal(id as nat) + "] mark --add "@ + mark,
        None => "mark --add "@ + mark,
    }
}

/// The command that swaps the focused container with the one marked `mark`.
pub open spec fn swap_command(mark: Seq<char>) -> Seq<char> {
    "swap container with mark "@ + mark
}

/// The command that focuses the container marked `mark`.
pub open spec fn focus_command(mark: Seq<char>) -> Seq<char> {
    "[con_mark="@ + mark + "] focus"@
}

/// The id of a node, if there is a node.
pub open spec fn id_of<'a>(target: Option<&'a Node>) -> Option<usize> {
    match target {
        Some(n) => Some(n.id),
        None => None,
    }
}

/// The name of a workspace, empty where it has none.
pub open spec fn name_of(ws: Node) -> Seq<char> {
    match ws.name {
        Some(s) => s@,
        None => Seq::empty(),
    }
}

/// The commands that swap the focused window `cur` of the workspace `ws`
/// with its main window. If the focused window is the main one, it swaps
/// with the window marked as the last main one.
pub open spec fn swap_commands(ws: Node) -> Result<Seq<Seq<char>>, NotFound> {
    let main_mark = mark_name_of(name_of(ws), "main"@);
    let last_mark = mark_name_of(name_of(ws), "last"@);
    match (ws.current_window(), marked_node(ws, main_mark), marked_node(ws, last_mark)) {
        (None, _, _) => Err(NotFound::Window),
        (Some(_), None, _) => Err(NotFound::Mark),
        (Some(cur), Some(main), last) => if cur.id == main.id {
            match last {
                None => Err(NotFound::Mark),
                Some(n) => Ok(
                    seq![
                        swap_command(last_mark),
                        unmark_command(None, last_mark),
                        unmark_command(None, main_mark),
                        mark_command(Some(n.id), main_mark),
                        mark_command(Some(cur.id), last_mark),
                    ],
                ),
            }
        } else {
            Ok(
                seq![
                    swap_command(main_mark),
                    unmark_command(None, last_mark),
                    unmark_command(None, main_mark),
                    mark_command(Some(cur.id), main_mark),
                    mark_command(Some(main.id), last_mark),
                ],
            )
        },
    }
}

/// What `run_main` answers for `action` on `tree`.
pub open spec fn main_commands(action: LayoutAction, tree: Node) -> Result<
    Seq<Seq<char>>,
    NotFound,
> {
    match tree.current_workspace() {
        None => Err(NotFound::Workspace),
        Some(ws) => match action {
            LayoutAction::SetMain => Ok(
                seq![mark_command(None, mark_name_of(name_of(ws), "main"@))],
            ),
            LayoutAction::Swap => swap_commands(ws),
            LayoutAction::Focus => Ok(seq![focus_command(mark_name_of(name_of(ws), "main"@))]),
        },
    }
}

/// Whether `run_main` can work on `tree`: the focused workspace, if there
/// is one, has a name, and its depth is a number of the machine.
pub open spec fn main_ready(tree: Node) -> bool {
    tree.current_workspace() matches Some(ws) ==> ws.name is Some && ws.height() < usize::MAX
}

/// Whether `run_main` can work on `tree`.
pub fn can_run_main(tree: &Node) -> (b: bool)
    ensures
        b == main_ready(*tree),
{
    match tree.get_current_workspace() {
        Some(ws) => ws.name.is_some() && ws.shallower_than(usize::MAX),
        None => true,
    }
}

/// The commands that carry out `action` on the main window of the focused
/// workspace, or what could not be found.
pub fn run_main(action: LayoutAction, tree: &Node) -> (r: Result<Vec<String>, NotFound>)
    requires
        main_ready(*tree),
    ensures
        commands_of(r) == main_commands(action, *tree),
{
    match action {
        LayoutAction::SetMain => make_main(tree),
        LayoutAction::Swap => swap_main(tree),
        LayoutAction::Focus => focus_main(tree),
    }
}

/// The mark `name` of the workspace named `wsname`.
pub fn mark_name(wsname: &str, name: &str) -> (s: String)
    ensures
        s@ == mark_name_of(wsname@, name@),
{
    let mut s = String::from_str(wsname);
    s.append("_");
    s.append(name);
    s
}

/// The command that takes `mark` off `target`, or off whatever carries it.
pub fn unmark(target: Option<&Node>, mark: &str) -> (s: String)
    ensures
        s@ == unmark_command(id_of(target), mark@),
{
    let mut s = String::new();
    match target {
        Some(n) => {
            s.append("[con_id=");
            append_usize(&mut s, n.id);
            s.append("] unmark ");
        },
        None => {
            s.append("unmark ");
        },
    }
    s.append(mark);
    s
}

/// The command that puts the mark `label` on `target`, or on the focused
/// container.
pub fn mark(target: Option<&Node>, label: &str) -> (s: String)
    ensures
        s@ == mark_command(id_of(target), label@),
{
    let mut s = String::new();
    match target {
        Some(n) => {
            s.append("[con_id=");
            append_usize(&mut s, n.id);
            s.append("] mark --add ");
        },
        None => {
            s.append("mark --add ");
        },
    }
    s.append(label);
    s
}

/// The command that swaps the focused container with the one marked `mark`.
pub fn swap_mark(mark: &str) -> (s: String)
    ensures
        s@ == swap_command(mark@),
{
    let mut s = String::from_str("swap container with mark ");
    s.append(mark);
    s
}

/// The name of the workspace `ws`.
fn workspace_name(ws: &Node) -> (name: &str)
    requires
        ws.name is Some,
    ensures
        name@ == name_of(*ws),
{
    match &ws.name {
        Some(s) => s.as_str(),
        None => "",
    }
}

/// Marks the focused window as the main one of its workspace.
pub fn make_main(tree: &Node) -> (r: Result<Vec<String>, NotFound>)
    requires
        main_ready(*tree),
    ensures
        commands_of(r) == main_commands(LayoutAction::SetMain, *tree),
{
    let ws = match tree.get_current_workspace() {
        Some(ws) => ws,
        None => {
            return Err(NotFound::Workspace);
        },
    };
    let main_mark = mark_name(workspace_name(ws), "main");
    let mut res: Vec<String> = Vec::new();
    res.push(mark(None, main_mark.as_str()));
    assert(lines(res@) =~= seq![mark_command(None, mark_name_of(name_of(*ws), "main"@))]);
    Ok(res)
}

/// Swaps the focused window with the main one; if the focused window is
/// the main one, with the one that was main before.
pub fn swap_main(tree: &Node) -> (r: Result<Vec<String>, NotFound>)
    requires
        main_ready(*tree),
    ensures
        commands_of(r) == main_commands(LayoutAction::Swap, *tree),
{
    let ws = match tree.get_current_workspace() {
        Some(ws) => ws,
        None => {
            return Err(NotFound::Workspace);
        },
    };
    let cur_window = match ws.get_current_window() {
        Some(w) => w,
        None => {
            return Err(NotFound::Window);
        },
    };
    let main_mark = mark_name(workspace_name(ws), "main");
    let last_mark = mark_name(workspace_name(ws), "last");
    let main = match ws.find_mark(main_mark.as_str()) {
        Some(n) => n,
        None => {
            return Err(NotFound::Mark);
        },
    };
    let mut res: Vec<String> = Vec::with_capacity(5);
    if cur_window.id == main.id {
        let n = match ws.find_mark(last_mark.as_str()) {
            Some(n) => n,
            None => {
                return Err(NotFound::Mark);
            },
        };
        res.push(swap_mark(last_mark.as_str()));
        res.push(unmark(None, last_mark.as_str()));
        res.push(unmark(None, main_mark.as_str()));
        res.push(mark(Some(n), main_mark.as_str()));
        res.push(mark(Some(cur_window), last_mark.as_str()));
        assert(lines(res@) =~= swap_commands(*ws)->Ok_0);
    } else {
        res.push(swap_mark(main_mark.as_str()));
        res.push(unmark(None, last_mark.as_str()));
        res.push(unmark(None, main_mark.as_str()));
        res.push(mark(Some(cur_window), main_mark.as_str()));
        res.push(mark(Some(main), last_mark.as_str()));
        assert(lines(res@) =~= swap_commands(*ws)->Ok_0);
    }
    Ok(res)
}

/// Focuses the main window of the focused workspace.
pub fn focus_main(tree: &Node) -> (r: Result<Vec<String>, NotFound>)
    requires
        main_ready(*tree),
    ensures
        commands_of(r) == main_commands(LayoutAction::Focus, *tree),
{
    let ws = match tree.get_current_workspace() {
        Some(ws) => ws,
        None => {
            return Err(NotFound::Workspace);
        },
    };
    let main_mark = mark_name(workspace_name(ws), "main");
    let mut cmd = String::from_str("[con_mark=");
    cmd.append(main_mark.as_str());
    cmd.append("] focus");
    let mut res: Vec<String> = Vec::new();
    res.push(cmd);
    assert(lines(res@) =~= seq![focus_command(mark_name_of(name_of(*ws), "main"@))]);
    Ok(res)
}

} // verus!
