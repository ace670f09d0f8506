//! One entry for every action: what it needs to see, and what it answers.
//!
//! The caller asks `needs` what to fetch from the window manager, fetches
//! it, and hands it to `dispatch`. What comes back is to be printed and to
//! be sent, in that order.

use vstd::prelude::*;
use crate::collapse::{can_clean, clean_current_workspace, flatten, flatten_ready};
use crate::ext::NotFound;
use crate::floats::{can_teleport, teleport, teleport_float, teleport_ready, Pos, Positioning};
use crate::info::{can_run, listing_of, listing_ready, PrintTarget};
use crate::manage::{can_run_main, main_commands, main_ready, run_main, LayoutAction};
use crate::node::Node;
use crate::output::{output_commands, Change, Direction, Output};
use crate::text::lines;
use crate::workspace::{
    has_free_number, has_num, next_free, workspace_command, Workspace, WorkspaceTarget,
};

verus! {

/// The layout helpers.
#[derive(Clone, Copy, Debug, PartialEq, Eq, Structural)]
pub enum LayoutCmd {
    /// Set and focus (etc) a main window and auxilliary windows
    Main { action: LayoutAction },
}

/// What the program can be asked to do.
#[allow(inconsistent_fields)]
#[derive(Clone, Copy, Debug, PartialEq, Eq, Structural)]
pub enum Action {
    /// clean up the window tree
    Fix,
    /// Move A floating window to anchor point
    Loc { how: Positioning, pos: Pos },
    /// Print information about the current tree or window
    Print { target: PrintTarget },
    /// Workspace commands
    Workspace { target: WorkspaceTarget },
    /// Movement between relative outputs.
    Output { change: Change, dir: Direction },
    /// Window layout helpers
    Layout { cmd: LayoutCmd },
}

/// What an action needs to see.
#[derive(Clone, Copy, Debug, PartialEq, Eq, Structural)]
pub enum Fetch {
    /// the tree of containers
    Tree,
    /// the list of workspaces
    Workspaces,
    /// the lists of workspaces and of outputs
    Screens,
}

/// What was fetched for an action.
#[derive(Debug)]
pub enum Snapshot {
    Tree(Node),
    Workspaces(Vec<Workspace>),
    Screens(Vec<Workspace>, Vec<Output>),
}

/// What an action answers: lines to print, then commands to send.
#[derive(Debug, PartialEq, Eq)]
pub struct Reply {
    pub print: Vec<String>,
    pub commands: Vec<String>,
}

/// Why an action has no answer.
#[derive(Debug, PartialEq, Eq)]
pub enum Failure {
    /// something is not in the tree; the message says what
    Missing(String),
    /// something was looked for and not found
    NotFound(NotFound),
}

/// What a reply says.
pub struct ReplyView {
    pub print: Seq<Seq<char>>,
    pub commands: Seq<Seq<char>>,
}

/// What a failure says.
pub enum FailureView {
    Missing(Seq<char>),
    NotFound(NotFound),
}

/// What an answer says.
pub open spec fn answer_view(r: Result<Reply, Failure>) -> Result<ReplyView, FailureView> {
    match r {
        Ok(reply) => Ok(ReplyView { print: lines(reply.print@), commands: lines(reply.commands@) }),
        Err(Failure::Missing(msg)) => Err(FailureView::Missing(msg@)),
        Err(Failure::NotFound(e)) => Err(FailureView::NotFound(e)),
    }
}

/// Commands to send, and nothing to print.
pub open spec fn to_send(cmds: Seq<Seq<char>>) -> ReplyView {
    ReplyView { print: Seq::empty(), commands: cmds }
}

/// What `action` needs to see.
pub open spec fn needed(action: Action) -> Fetch {
    match action {
        Action::Workspace { .. } => Fetch::Workspaces,
        Action::Output { .. } => Fetch::Screens,
        _ => Fetch::Tree,
    }
}

/// Which kind of thing a snapshot holds.
pub open spec fn kind_of(snapshot: Snapshot) -> Fetch {
    match snapshot {
        Snapshot::Tree(_) => Fetch::Tree,
        Snapshot::Workspaces(_) => Fetch::Workspaces,
        Snapshot::Screens(_, _) => Fetch::Screens,
    }
}

/// Whether `dispatch` can work: the snapshot is what the action needs, and
/// the function that the action stands for can work on it.
pub open spec fn dispatch_ready(action: Action, snapshot: Snapshot) -> bool {
    match (action, snapshot) {
        (Action::Fix, Snapshot::Tree(tree)) => flatten_ready(tree),
        (Action::Loc { how, pos }, Snapshot::Tree(tree)) => teleport_ready(tree, pos, how),
        (Action::Print { target }, Snapshot::Tree(tree)) => listing_ready(target, tree),
        (Action::Layout { cmd: LayoutCmd::Main { action } }, Snapshot::Tree(tree)) => main_ready(
            tree,
        ),
        (Action::Workspace { target }, Snapshot::Workspaces(ws)) => exists|k: int|
            1 <= k <= i32::MAX && !has_num(ws@, k),
        (Action::Output { change, dir }, Snapshot::Screens(_, _)) => true,
        _ => false,
    }
}

/// What `dispatch` answers.
pub open spec fn answer(action: Action, snapshot: Snapshot) -> Result<ReplyView, FailureView> {
    match (action, snapshot) {
        (Action::Fix, Snapshot::Tree(tree)) => match flatten(tree) {
            Ok(cmds) => Ok(to_send(cmds)),
            Err(msg) => Err(FailureView::Missing(msg)),
        },
        (Action::Loc { how, pos }, Snapshot::Tree(tree)) => match teleport(tree, pos, how) {
            Ok(cmds) => Ok(to_send(cmds)),
            Err(msg) => Err(FailureView::Missing(msg)),
        },
        (Action::Print { target }, Snapshot::Tree(tree)) => match listing_of(target, tree) {
            Ok(out) => Ok(ReplyView { print: out, commands: Seq::empty() }),
            Err(e) => Err(FailureView::NotFound(e)),
        },
        (Action::Layout { cmd: LayoutCmd::Main { action } }, Snapshot::Tree(tree)) => match main_commands(
            action,
            tree,
        ) {
            Ok(cmds) => Ok(to_send(cmds)),
            Err(e) => Err(FailureView::NotFound(e)),
        },
        (Action::Workspace { target }, Snapshot::Workspaces(ws)) => Ok(
            to_send(seq![workspace_command(target, next_free(ws@))]),
        ),
        (Action::Output { change, dir }, Snapshot::Screens(ws, outputs)) => match output_commands(
            change,
            dir,
            ws@,
            outputs@,
        ) {
            Ok(cmds) => Ok(to_send(cmds)),
            Err(e) => Err(FailureView::NotFound(e)),
        },
        // not reached where the snapshot is what the action needs
        _ => Err(FailureView::NotFound(NotFound::Workspace)),
    }
}

/// What `action` needs to see.
pub fn needs(action: &Action) -> (f: Fetch)
    ensures
        f == needed(*action),
{
    match action {
        Action::Workspace { .. } => Fetch::Workspaces,
        Action::Output { .. } => Fetch::Screens,
        _ => Fetch::Tree,
    }
}

/// Whether `dispatch` can work on `snapshot`. It cannot where the snapshot
/// is not what the action needs, nor where the function that the action
/// stands for could not work. For `Workspace` the answer is the one of
/// `has_free_number`, which may be `false` though a number is free.
pub fn can_dispatch(action: &Action, snapshot: &Snapshot) -> (b: bool)
    ensures
        b ==> dispatch_ready(*action, *snapshot),
        !(action is Workspace) ==> b == dispatch_ready(*action, *snapshot),
{
    match (action, snapshot) {
        (Action::Fix, Snapshot::Tree(tree)) => can_clean(tree),
        (Action::Loc { how, pos }, Snapshot::Tree(tree)) => can_teleport(tree, *pos, *how),
        (Action::Print { target }, Snapshot::Tree(tree)) => can_run(*target, tree),
        (Action::Layout { cmd: LayoutCmd::Main { action } }, Snapshot::Tree(tree)) => {
            can_run_main(tree)
        },
        (Action::Workspace { target }, Snapshot::Workspaces(ws)) => has_free_number(ws),
        (Action::Output { change, dir }, Snapshot::Screens(_, _)) => true,
        _ => false,
    }
}

/// The reply that has `commands` to send and nothing to print.
fn sending(commands: Vec<String>) -> (r: Reply)
    ensures
        lines(r.print@) == Seq::<Seq<char>>::empty(),
        r.commands == commands,
{
    let print: Vec<String> = Vec::new();
    Reply { print, commands }
}

/// The reply that has `print` to print and nothing to send.
fn printing(print: Vec<String>) -> (r: Reply)
    ensures
        r.print == print,
        lines(r.commands@) == Seq::<Seq<char>>::empty(),
{
    let commands: Vec<String> = Vec::new();
    Reply { print, commands }
}

/// Carries out `action` on what was fetched for it.
pub fn dispatch(action: &Action, snapshot: Snapshot) -> (r: Result<Reply, Failure>)
    requires
        dispatch_ready(*action, snapshot),
    ensures
        answer_view(r) == answer(*action, snapshot),
{
    match (action, snapshot) {
        (Action::Fix, Snapshot::Tree(tree)) => match clean_current_workspace(&tree) {
            Ok(commands) => Ok(sending(commands)),
            Err(msg) => Err(Failure::Missing(msg)),
        },
        (Action::Loc { how, pos }, Snapshot::Tree(tree)) => match teleport_float(&tree, *pos, *how) {
            Ok(commands) => Ok(sending(commands)),
            Err(msg) => Err(Failure::Missing(msg)),
        },
        (Action::Print { target }, Snapshot::Tree(tree)) => match crate::info::run(*target, &tree) {
            Ok(print) => Ok(printing(print)),
            Err(e) => Err(Failure::NotFound(e)),
        },
        (Action::Layout { cmd: LayoutCmd::Main { action } }, Snapshot::Tree(tree)) => match run_main(
            *action,
            &tree,
        ) {
            Ok(commands) => Ok(sending(commands)),
            Err(e) => Err(Failure::NotFound(e)),
        },
        (Action::Workspace { target }, Snapshot::Workspaces(ws)) => {
            let mut ws = ws;
            let commands = crate::workspace::run(*target, &mut ws);
            Ok(sending(commands))
        },
        (Action::Output { change, dir }, Snapshot::Screens(ws, outputs)) => match crate::output::run(
            *change,
            *dir,
            &ws,
            &outputs,
        ) {
            Ok(commands) => Ok(sending(commands)),
            Err(e) => Err(Failure::NotFound(e)),
        },
        _ => Err(Failure::NotFound(NotFound::Workspace)),
    }
}

} // verus!
