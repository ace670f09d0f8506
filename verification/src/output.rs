//! Going from the focused output to the one beside it.

use vstd::prelude::*;
use vstd::string::StringExecFns;
use crate::ext::NotFound;
use crate::focus::{first_index, lemma_first_index_is, lemma_first_index_none};
use crate::text::{commands_of, lines};
use crate::workspace::Workspace;

verus! {

/// An output as the window manager lists it. An active output is one that
/// can show things.
#[derive(Debug)]
pub struct Output {
    pub name: String,
    pub active: bool,
}

/// Which way to go through the outputs.
#[derive(Clone, Copy, Debug, PartialEq, Eq, Structural)]
pub enum Direction {
    Next,
    Prev,
}

/// What to take to the other output.
#[derive(Clone, Copy, Debug, PartialEq, Eq, Structural)]
pub enum Change {
    /// move workspace to a different output
    MoveWs,
    /// move window to a different output
    MoveWin,
    /// focus a different output
    Focus,
}

/// The names of the active outputs among `outputs`, in the order listed.
pub open spec fn active_names(outputs: Seq<Output>) -> Seq<Seq<char>>
    decreases outputs.len(),
{
    if outputs.len() == 0 {
        Seq::empty()
    } else if outputs.last().active {
        active_names(outputs.drop_last()).push(outputs.last().name@)
    } else {
        active_names(outputs.drop_last())
    }
}

/// The names of the active outputs in the order in which `which` goes
/// through them.
pub open spec fn ordered_names(which: Direction, outputs: Seq<Output>) -> Seq<Seq<char>> {
    match which {
        Direction::Next => active_names(outputs),
        Direction::Prev => active_names(outputs).reverse(),
    }
}

/// The name that follows the first `current` in `names`, the first name
/// following the last one.
pub open spec fn following(names: Seq<Seq<char>>, current: Seq<char>) -> Option<Seq<char>> {
    let i = first_index(names, |n: Seq<char>| n == current, 0);
    if 0 <= i < names.len() {
        Some(names[(i + 1) % (names.len() as int)])
    } else {
        None
    }
}

/// The output beside the focused one: the active output that follows, in
/// the direction `which`, the output of the first focused workspace.
pub open spec fn neighbor_of(
    which: Direction,
    workspaces: Seq<Workspace>,
    outputs: Seq<Output>,
) -> Result<Seq<char>, NotFound> {
    let w = first_index(workspaces, |ws: Workspace| ws.focused, 0);
    if 0 <= w < workspaces.len() {
        match following(ordered_names(which, outputs), workspaces[w].output@) {
            Some(name) => Ok(name),
            None => Err(NotFound::Output),
        }
    } else {
        Err(NotFound::Workspace)
    }
}

/// What a list of borrowed strings says, string by string.
pub open spec fn names_of<'a>(v: Seq<&'a String>) -> Seq<Seq<char>> {
    Seq::new(v.len(), |i: int| v[i]@)
}

/// The names of the active outputs, in the order in which `which` goes
/// through them.
fn collect_names<'a>(which: Direction, outputs: &'a Vec<Output>) -> (list: Vec<&'a String>)
    ensures
        names_of(list@) == ordered_names(which, outputs@),
{
    let mut list: Vec<&'a String> = Vec::new();
    match which {
        Direction::Next => {
            let mut i: usize = 0;
            while i < outputs.len()
                invariant
                    i <= outputs@.len(),
                    names_of(list@) == active_names(outputs@.take(i as int)),
                decreases outputs@.len() - i,
            {
                proof {
                    assert(outputs@.take(i + 1).drop_last() =~= outputs@.take(i as int));
                }
                if outputs[i].active {
                    list.push(&outputs[i].name);
                }
                i += 1;
            }
            assert(outputs@.take(outputs@.len() as int) =~= outputs@);
        },
        Direction::Prev => {
            let mut i: usize = outputs.len();
            proof {
                assert(outputs@.take(outputs@.len() as int) =~= outputs@);
            }
            while i > 0
                invariant
                    i <= outputs@.len(),
                    names_of(list@) == active_names(outputs@.skip(i as int)).reverse(),
                decreases i,
            {
                i -= 1;
                proof {
                    lemma_active_names_first(outputs@.skip(i as int));
                    assert(outputs@.skip(i as int).drop_first() =~= outputs@.skip(i + 1));
                }
                let ghost rest = active_names(outputs@.skip(i + 1));
                if outputs[i].active {
                    list.push(&outputs[i].name);
                    proof {
                        let name = outputs@[i as int].name@;
                        lemma_reverse_cons(name, rest);
                    }
                }
            }
        },
    }
    list
}

/// Reversing a list with `a` in front puts `a` at the end.
proof fn lemma_reverse_cons(a: Seq<char>, s: Seq<Seq<char>>)
    ensures
        (seq![a] + s).reverse() == s.reverse().push(a),
{
    let l = seq![a] + s;
    assert forall|i: int| 0 <= i < l.len() implies l.reverse()[i] == s.reverse().push(a)[i] by {
        if i < s.len() {
            assert(l.reverse()[i] == l[l.len() - 1 - i]);
        }
    }
}

/// The active names of a list: those of its first entry, then those of the rest.
proof fn lemma_active_names_first(outputs: Seq<Output>)
    requires
        outputs.len() > 0,
    ensures
        active_names(outputs) == (if outputs[0].active {
            seq![outputs[0].name@]
        } else {
            Seq::empty()
        }) + active_names(outputs.drop_first()),
    decreases outputs.len(),
{
    if outputs.len() == 1 {
        assert(outputs.drop_last() =~= Seq::empty());
        assert(outputs.drop_first() =~= Seq::empty());
        assert(active_names(outputs) =~= (if outputs[0].active {
            seq![outputs[0].name@]
        } else {
            Seq::empty()
        }) + active_names(outputs.drop_first()));
    } else {
        lemma_active_names_first(outputs.drop_last());
        assert(outputs.drop_last().drop_first() =~= outputs.drop_first().drop_last());
        assert(active_names(outputs) =~= (if outputs[0].active {
            seq![outputs[0].name@]
        } else {
            Seq::empty()
        }) + active_names(outputs.drop_first()));
    }
}

/// The name of the output beside the focused one, in the direction `which`.
#[verifier::loop_isolation(false)]
pub fn neighbor(which: Direction, workspaces: &Vec<Workspace>, outputs: &Vec<Output>) -> (r: Result<
    String,
    NotFound,
>)
    ensures
        match neighbor_of(which, workspaces@, outputs@) {
            Ok(name) => r matches Ok(s) && s@ == name,
            Err(e) => r == Err::<String, NotFound>(e),
        },
{
    // the focused workspace also tells the focused output
    let ghost focused = |ws: Workspace| ws.focused;
    let mut w: usize = 0;
    while w < workspaces.len() && !workspaces[w].focused
        invariant
            w <= workspaces@.len(),
            forall|ws: Workspace| #[trigger] focused(ws) == ws.focused,
            forall|j: int| 0 <= j < w ==> !focused(#[trigger] workspaces@[j]),
        decreases workspaces@.len() - w,
    {
        w += 1;
    }
    if w >= workspaces.len() {
        proof {
            lemma_first_index_none(workspaces@, focused, 0);
        }
        return Err(NotFound::Workspace);
    }
    proof {
        lemma_first_index_is(workspaces@, focused, 0, w as int);
    }
    let current_output = &workspaces[w].output;
    let output_list = collect_names(which, outputs);
    let ghost names = names_of(output_list@);
    let ghost is_current = |n: Seq<char>| n == current_output@;

    // past the last name the list starts over, so the neighbor of the
    // last output is the first
    let mut i: usize = 0;
    while i < output_list.len()
        invariant
            i <= output_list@.len(),
            names == names_of(output_list@),
            forall|n: Seq<char>| #[trigger] is_current(n) == (n == current_output@),
            forall|j: int| 0 <= j < i ==> !is_current(#[trigger] names[j]),
        decreases output_list@.len() - i,
    {
        if *output_list[i] == *current_output {
            proof {
                lemma_first_index_is(names, is_current, 0, i as int);
            }
            let next = (i + 1) % output_list.len();
            return Ok(output_list[next].clone());
        }
        i += 1;
    }
    proof {
        lemma_first_index_none(names, is_current, 0);
    }
    Err(NotFound::Output)
}

/// The command that takes `change` to the output named `target`.
pub open spec fn output_command(change: Change, target: Seq<char>) -> Seq<char> {
    match change {
        Change::Focus => "focus output "@ + target,
        Change::MoveWs => "move workspace to output "@ + target,
        Change::MoveWin => "move window to output "@ + target,
    }
}

/// What `run` answers: the one command that takes `change` to the output
/// beside the focused one, or what could not be found.
pub open spec fn output_commands(
    change: Change,
    dir: Direction,
    workspaces: Seq<Workspace>,
    outputs: Seq<Output>,
) -> Result<Seq<Seq<char>>, NotFound> {
    match neighbor_of(dir, workspaces, outputs) {
        Ok(name) => Ok(seq![output_command(change, name)]),
        Err(e) => Err(e),
    }
}

/// The one command that takes `change` to the output beside the focused
/// one, or what could not be found.
pub fn run(change: Change, dir: Direction, workspaces: &Vec<Workspace>, outputs: &Vec<Output>) -> (r:
    Result<Vec<String>, NotFound>)
    ensures
        commands_of(r) == output_commands(change, dir, workspaces@, outputs@),
{
    let target = match neighbor(dir, workspaces, outputs) {
        Ok(t) => t,
        Err(e) => {
            return Err(e);
        },
    };
    let mut cmd = String::new();
    match change {
        Change::Focus => {
            cmd.append("focus output ");
        },
        Change::MoveWs => {
            cmd.append("move workspace to output ");
        },
        Change::MoveWin => {
            cmd.append("move window to output ");
        },
    }
    cmd.append(target.as_str());
    let mut cmds: Vec<String> = Vec::new();
    cmds.push(cmd);
    assert(lines(cmds@) =~= seq![output_command(change, target@)]);
    Ok(cmds)
}

} // verus!
