//! Opening the next free workspace.

use vstd::prelude::*;
use vstd::string::StringExecFns;
use crate::text::{append_usize, decimal, lines};

verus! {

/// A workspace as the window manager lists it. Workspaces that have a name
/// and no number carry a `num` below 1.
#[derive(Debug)]
pub struct Workspace {
    pub num: i32,
    pub name: String,
    pub focused: bool,
    pub output: String,
}

/// What to do with the next free workspace.
#[derive(Clone, Copy, Debug, PartialEq, Eq, Structural)]
pub enum WorkspaceTarget {
    /// Create and focus a new workspace
    Alloc,
    /// Create a new workspace and move the current focused container to it.
    MoveNew,
}

/// Whether one of `ws` has the number `k`.
pub open spec fn has_num(ws: Seq<Workspace>, k: int) -> bool {
    exists|i: int| 0 <= i < ws.len() && (#[trigger] ws[i]).num == k
}

/// Whether `r` is the least number from 1 on that none of `ws` has.
pub open spec fn is_next_free(ws: Seq<Workspace>, r: int) -> bool {
    &&& r >= 1
    &&& !has_num(ws, r)
    &&& forall|k: int| 1 <= k < r ==> has_num(ws, k)
}

/// The least number from 1 on that none of `ws` has.
pub open spec fn next_free(ws: Seq<Workspace>) -> int {
    choose|r: int| is_next_free(ws, r)
}

/// There is only one least free number.
pub proof fn lemma_next_free_unique(ws: Seq<Workspace>, r: int)
    requires
        is_next_free(ws, r),
    ensures
        next_free(ws) == r,
{
    let c = next_free(ws);
    if c < r {
        assert(has_num(ws, c));
    } else if r < c {
        assert(has_num(ws, r));
    }
}

/// Whether `after` is `before` sorted by number, entries with the same
/// number in the order they had: `from[i]` is the place in `before` of the
/// entry at place `i` of `after`, and `to` leads back.
pub open spec fn sorted_by_num_with(
    before: Seq<Workspace>,
    after: Seq<Workspace>,
    from: Seq<int>,
    to: Seq<int>,
) -> bool {
    &&& from.len() == before.len()
    &&& to.len() == before.len()
    &&& after.len() == before.len()
    &&& forall|i: int|
        0 <= i < from.len() ==> 0 <= #[trigger] from[i] < before.len() && after[i]
            == before[from[i]] && to[from[i]] == i
    &&& forall|k: int| 0 <= k < to.len() ==> 0 <= #[trigger] to[k] < after.len() && from[to[k]] == k
    &&& forall|i: int, j: int|
        0 <= i < j < after.len() ==> #[trigger] in_order(after[i], from[i], after[j], from[j])
}

/// Whether the workspace `a`, which stood at place `ai`, belongs before the
/// workspace `b`, which stood at place `bi`.
pub open spec fn in_order(a: Workspace, ai: int, b: Workspace, bi: int) -> bool {
    a.num < b.num || (a.num == b.num && ai < bi)
}

/// Whether `after` is `before` sorted by number, entries with the same
/// number in the order they had.
pub open spec fn sorted_by_num(before: Seq<Workspace>, after: Seq<Workspace>) -> bool {
    exists|from: Seq<int>, to: Seq<int>| sorted_by_num_with(before, after, from, to)
}

/// Sorts the workspaces by number with `sort_by_key` of the standard
/// library. Trusted: that the outcome holds the same entries, in ascending
/// order of `num`, and that entries with the same `num` keep their order
/// (the sort is documented as stable).
#[verifier::external_body]
fn sort_by_num(workspaces: &mut Vec<Workspace>)
    ensures
        sorted_by_num(old(workspaces)@, final(workspaces)@),
{
    workspaces.sort_by_key(|ws| ws.num);
}

/// Sorting keeps the numbers that are there and puts them in order.
proof fn lemma_sorted_by_num(before: Seq<Workspace>, after: Seq<Workspace>)
    requires
        sorted_by_num(before, after),
    ensures
        after.len() == before.len(),
        forall|k: int| has_num(before, k) <==> has_num(after, k),
        forall|i: int, j: int|
            0 <= i <= j < after.len() ==> (#[trigger] after[i]).num <= (#[trigger] after[j]).num,
{
    let (from, to) = choose|from: Seq<int>, to: Seq<int>|
        sorted_by_num_with(before, after, from, to);
    assert forall|k: int| has_num(before, k) implies has_num(after, k) by {
        let i = choose|i: int| 0 <= i < before.len() && (#[trigger] before[i]).num == k;
        assert(from[to[i]] == i);
    }
    assert forall|k: int| has_num(after, k) implies has_num(before, k) by {
        let i = choose|i: int| 0 <= i < after.len() && (#[trigger] after[i]).num == k;
        assert(before[from[i]].num == k);
    }
    assert forall|i: int, j: int| 0 <= i <= j < after.len() implies (#[trigger] after[i]).num <= (
    #[trigger] after[j]).num by {
        if i < j {
            assert(in_order(after[i], from[i], after[j], from[j]));
        }
    }
}

/// A list that has every number from 1 to `m` has at least `m` entries.
pub proof fn lemma_numbers_need_room(ws: Seq<Workspace>, m: int)
    requires
        forall|k: int| 1 <= k <= m ==> has_num(ws, k),
    ensures
        ws.len() >= m,
    decreases m,
{
    if m >= 1 {
        assert(has_num(ws, m));
        let i = choose|i: int| 0 <= i < ws.len() && (#[trigger] ws[i]).num == m;
        let rest = ws.remove(i);
        assert forall|k: int| 1 <= k <= m - 1 implies has_num(rest, k) by {
            assert(has_num(ws, k));
            let j = choose|j: int| 0 <= j < ws.len() && (#[trigger] ws[j]).num == k;
            if j < i {
                assert(rest[j].num == k);
            } else {
                assert(rest[j - 1].num == k);
            }
        }
        lemma_numbers_need_room(rest, m - 1);
    }
}

/// Whether the list is short enough to be sure that a number is free:
/// fewer entries than there are numbers from 1 on.
pub fn has_free_number(workspaces: &Vec<Workspace>) -> (b: bool)
    ensures
        b == (workspaces@.len() < i32::MAX),
        b ==> exists|k: int| 1 <= k <= i32::MAX && !has_num(workspaces@, k),
{
    let b = workspaces.len() < 2147483647;
    proof {
        if b {
            if forall|k: int| 1 <= k <= i32::MAX ==> has_num(workspaces@, k) {
                lemma_numbers_need_room(workspaces@, i32::MAX as int);
            }
        }
    }
    b
}

/// Sorts the workspaces by number and returns the least number from 1 on
/// that none of them has.
pub fn next_free_workspace(workspaces: &mut Vec<Workspace>) -> (r: i32)
    requires
        exists|k: int| 1 <= k <= i32::MAX && !has_num(old(workspaces)@, k),
    ensures
        is_next_free(old(workspaces)@, r as int),
        r == next_free(old(workspaces)@),
        sorted_by_num(old(workspaces)@, final(workspaces)@),
{
    sort_by_num(workspaces);
    proof {
        lemma_sorted_by_num(old(workspaces)@, workspaces@);
    }
    let ghost free = choose|k: int| 1 <= k <= i32::MAX && !has_num(old(workspaces)@, k);
    let len = workspaces.len();

    // Workspace 0 does not exist, and named workspaces have a num below 1.
    let mut idx: usize = 0;
    while idx < len && workspaces[idx].num < 1
        invariant
            len == workspaces@.len(),
            idx <= len,
            forall|j: int| 0 <= j < idx ==> (#[trigger] workspaces@[j]).num < 1,
        decreases len - idx,
    {
        idx += 1;
    }
    assert forall|j: int| idx <= j < len implies (#[trigger] workspaces@[j]).num >= 1 by {
        assert(workspaces@[idx as int].num <= workspaces@[j].num);
    }

    // From 1 on, the first gap (a num more than one above the one before)
    // ends the search with prev at the last num below the gap. Without a
    // gap, prev ends at the highest num. One more is the answer in both cases.
    let mut prev: i32 = 0;
    while idx < len
        invariant_except_break
            idx <= len,
        invariant
            len == workspaces@.len(),
            0 <= prev,
            1 <= free <= i32::MAX,
            !has_num(workspaces@, free),
            forall|i: int, j: int|
                0 <= i <= j < workspaces@.len() ==> (#[trigger] workspaces@[i]).num <= (
                #[trigger] workspaces@[j]).num,
            forall|k: int| 1 <= k <= prev ==> has_num(workspaces@, k),
            forall|j: int| 0 <= j < idx ==> (#[trigger] workspaces@[j]).num <= prev,
            forall|j: int| idx <= j < len ==> (#[trigger] workspaces@[j]).num >= 1,
        ensures
            !has_num(workspaces@, prev + 1),
        decreases len - idx,
    {
        let num = workspaces[idx].num;
        if num - prev > 1 {
            proof {
                assert forall|j: int| 0 <= j < workspaces@.len() implies (
                #[trigger] workspaces@[j]).num != prev + 1 by {
                    if j >= idx {
                        assert(workspaces@[idx as int].num <= workspaces@[j].num);
                    }
                }
            }
            break;
        }
        proof {
            assert forall|j: int| 0 <= j < idx + 1 implies (#[trigger] workspaces@[j]).num
                <= num by {
                assert(workspaces@[j].num <= workspaces@[idx as int].num);
            }
        }
        prev = num;
        idx += 1;
    }
    proof {
        lemma_next_free_unique(old(workspaces)@, prev + 1);
    }
    prev + 1
}

/// The command for `target` and the workspace number `ws`.
pub open spec fn workspace_command(target: WorkspaceTarget, ws: int) -> Seq<char> {
    match target {
        WorkspaceTarget::Alloc => "workspace "@ + decimal(ws as nat),
        WorkspaceTarget::MoveNew => "move container to workspace "@ + decimal(ws as nat)
            + "; workspace "@ + decimal(ws as nat),
    }
}

/// Sorts the workspaces and returns the one command that opens the next
/// free workspace, or moves the focused container there and follows it.
pub fn run(target: WorkspaceTarget, workspaces: &mut Vec<Workspace>) -> (cmds: Vec<String>)
    requires
        exists|k: int| 1 <= k <= i32::MAX && !has_num(old(workspaces)@, k),
    ensures
        sorted_by_num(old(workspaces)@, final(workspaces)@),
        lines(cmds@) == seq![workspace_command(target, next_free(old(workspaces)@))],
{
    let ws = next_free_workspace(workspaces);
    let n = ws as usize;
    let mut cmd = String::new();
    match target {
        WorkspaceTarget::Alloc => {
            cmd.append("workspace ");
            append_usize(&mut cmd, n);
        },
        WorkspaceTarget::MoveNew => {
            cmd.append("move container to workspace ");
            append_usize(&mut cmd, n);
            cmd.append("; workspace ");
            append_usize(&mut cmd, n);
        },
    }
    let mut cmds: Vec<String> = Vec::new();
    cmds.push(cmd);
    cmds
}

} // verus!
