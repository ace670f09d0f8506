//! Listings of the tree, one line for each node.

use vstd::prelude::*;
use vstd::string::{StrSliceExecFns, StringExecFns};
use crate::ext::node_ext::NodeExt;
use crate::ext::node_search::{Move, NodeSearch, Step};
use crate::ext::NotFound;
use crate::node::{Node, NodeLayout, Rect};
use crate::text::{
    append_isize, append_usize, commands_of, decimal, lemma_decimal_len, lines, signed_decimal,
    usize_to_string,
};
use crate::traversal::{postorder, preorder, step_views, walk_steps, Order};
use crate::walk::StepView;

verus! {

/// What to list.
#[derive(Clone, Copy, Debug, PartialEq, Eq, Structural)]
pub enum PrintTarget {
    /// print the whole tree
    Tree,
    /// print just the dimentions of windows in the tree
    Rects,
    /// print info about only the current window
    Window,
}

/// Which columns a line has. The columns stand in the order of the fields
/// from `depth` on, with nothing between them.
#[derive(Clone, Copy, Debug, PartialEq, Eq, Structural)]
pub struct StepFormatter {
    /// shorten the id to its last five digits, since much of it is redundant
    pub short_id: bool,
    /// if depth is on, indent by depth spaces
    pub indent: bool,
    pub depth: bool,
    pub id: bool,
    pub name: bool,
    pub focus: bool,
    pub layout: bool,
    pub rect: bool,
    pub marks: bool,
    pub floating: bool,
    pub moveto: bool,
}

/// `n` spaces.
pub open spec fn spaces(n: nat) -> Seq<char> {
    Seq::new(n, |i: int| ' ')
}

/// The strings `parts` with `sep` between them.
pub open spec fn joined(parts: Seq<Seq<char>>, sep: Seq<char>) -> Seq<char>
    decreases parts.len(),
{
    if parts.len() == 0 {
        Seq::empty()
    } else if parts.len() == 1 {
        parts[0]
    } else {
        joined(parts.drop_last(), sep) + sep + parts.last()
    }
}

/// How a layout is written.
pub open spec fn layout_text(layout: NodeLayout) -> Seq<char> {
    match layout {
        NodeLayout::SplitH => "SplitH"@,
        NodeLayout::SplitV => "SplitV"@,
        NodeLayout::Stacked => "Stacked"@,
        NodeLayout::Tabbed => "Tabbed"@,
        NodeLayout::Dockarea => "Dockarea"@,
        NodeLayout::Output => "Output"@,
    }
}

/// How a move is written.
pub open spec fn move_text(m: Move) -> Seq<char> {
    match m {
        Move::Up => "Up"@,
        Move::Down => "Down"@,
        Move::Sibling => "Sibling"@,
    }
}

/// How a rectangle is written.
pub open spec fn rect_text(r: Rect) -> Seq<char> {
    "Rect { x: "@ + signed_decimal(r.x as int) + ", y: "@ + signed_decimal(r.y as int)
        + ", width: "@ + signed_decimal(r.width as int) + ", height: "@ + signed_decimal(
        r.height as int,
    ) + " }"@
}

/// The last five digits of `id`.
pub open spec fn short_id_text(id: usize) -> Seq<char> {
    decimal(id as nat).skip(decimal(id as nat).len() - 5)
}

impl StepFormatter {
    /// The depth column: as many spaces as the step is deep, then the depth.
    pub open spec fn depth_text(self, s: StepView) -> Seq<char> {
        if self.depth {
            spaces(s.depth) + decimal(s.depth)
        } else {
            Seq::empty()
        }
    }

    /// The name column: the name, or `None` for a node without one.
    pub open spec fn name_text(self, s: StepView) -> Seq<char> {
        if self.name {
            match s.node.name {
                Some(name) => name@,
                None => "None"@,
            }
        } else {
            Seq::empty()
        }
    }

    /// The id column: the id, or only its last five digits.
    pub open spec fn id_text(self, s: StepView) -> Seq<char> {
        if self.id {
            if self.short_id {
                short_id_text(s.node.id)
            } else {
                decimal(s.node.id as nat)
            }
        } else {
            Seq::empty()
        }
    }

    /// The focus column: `F` for a focused node, `U` for another.
    pub open spec fn focus_text(self, s: StepView) -> Seq<char> {
        if self.focus {
            if s.node.focused {
                "F"@
            } else {
                "U"@
            }
        } else {
            Seq::empty()
        }
    }

    /// The layout column.
    pub open spec fn layout_col(self, s: StepView) -> Seq<char> {
        if self.layout {
            layout_text(s.node.layout)
        } else {
            Seq::empty()
        }
    }

    /// The rectangle column.
    pub open spec fn rect_col(self, s: StepView) -> Seq<char> {
        if self.rect {
            rect_text(s.node.rect)
        } else {
            Seq::empty()
        }
    }

    /// The marks column: the marks with commas between them.
    pub open spec fn marks_col(self, s: StepView) -> Seq<char> {
        if self.marks {
            joined(lines(s.node.marks@), ","@)
        } else {
            Seq::empty()
        }
    }

    /// The floating column: `t` for a floating node, `f` for another.
    pub open spec fn floating_col(self, s: StepView) -> Seq<char> {
        if self.floating {
            if s.node.floats() {
                "t"@
            } else {
                "f"@
            }
        } else {
            Seq::empty()
        }
    }

    /// The move column.
    pub open spec fn move_col(self, s: StepView) -> Seq<char> {
        if self.moveto {
            move_text(s.moved)
        } else {
            Seq::empty()
        }
    }

    /// The line for the step `s`.
    pub open spec fn line(self, s: StepView) -> Seq<char> {
        self.depth_text(s) + self.name_text(s) + self.id_text(s) + self.focus_text(s)
            + self.layout_col(s) + self.rect_col(s) + self.marks_col(s) + self.floating_col(s)
            + self.move_col(s)
    }

    /// Whether the line for `s` can be written: a short id cuts five
    /// digits, so the id has to have them.
    pub open spec fn can_format(self, s: StepView) -> bool {
        self.id && self.short_id ==> s.node.id >= 10000
    }

    /// Whether the lines for all of `steps` can be written.
    pub open spec fn can_format_all(self, steps: Seq<StepView>) -> bool {
        forall|i: int| 0 <= i < steps.len() ==> self.can_format(#[trigger] steps[i])
    }

    /// The lines for `steps`, under the heading `Tree:`.
    pub open spec fn listing(self, steps: Seq<StepView>) -> Seq<Seq<char>> {
        seq!["Tree:"@] + Seq::new(steps.len(), |i: int| self.line(steps[i]))
    }

    /// The formatter without columns, with short ids and indentation.
    pub open spec fn plain() -> StepFormatter {
        StepFormatter {
            indent: true,
            short_id: true,
            depth: false,
            id: false,
            name: false,
            focus: false,
            layout: false,
            rect: false,
            marks: false,
            floating: false,
            moveto: false,
        }
    }

    /// A formatter without columns, with short ids and indentation.
    pub fn new() -> (fmt: Self)
        ensures
            fmt == StepFormatter::plain(),
    {
        StepFormatter {
            indent: true,
            short_id: true,
            depth: false,
            id: false,
            name: false,
            focus: false,
            layout: false,
            rect: false,
            marks: false,
            floating: false,
            moveto: false,
        }
    }

    /// Turns indentation on or off.
    pub fn show_indent(&mut self, v: bool) -> (r: &mut StepFormatter)
        ensures
            *r == (StepFormatter { indent: v, ..*old(self) }),
            *final(self) == *final(r),
    {
        self.indent = v;
        self
    }

    /// Turns short ids on or off.
    pub fn short_id(&mut self, v: bool) -> (r: &mut StepFormatter)
        ensures
            *r == (StepFormatter { short_id: v, ..*old(self) }),
            *final(self) == *final(r),
    {
        self.short_id = v;
        self
    }

    /// The line for the step `s`.
    pub fn format(&self, s: &Step) -> (out: String)
        requires
            self.can_format(s@),
        ensures
            out@ == self.line(s@),
    {
        let mut out = String::new();
        self.append_depth(&mut out, s);
        self.append_name(&mut out, s);
        self.append_id(&mut out, s);
        self.append_focus(&mut out, s);
        self.append_layout(&mut out, s);
        self.append_rect(&mut out, s);
        self.append_marks(&mut out, s);
        self.append_floating(&mut out, s);
        self.append_move(&mut out, s);
        out
    }

    fn append_depth(&self, out: &mut String, s: &Step)
        ensures
            final(out)@ == old(out)@ + self.depth_text(s@),
    {
        if self.depth {
            let mut i: usize = 0;
            while i < s.d
                invariant
                    i <= s.d,
                    out@ == old(out)@ + spaces(i as nat),
                decreases s.d - i,
            {
                proof {
                    reveal_strlit(" ");
                }
                out.append(" ");
                i += 1;
            }
            append_usize(out, s.d);
        }
    }

    fn append_name(&self, out: &mut String, s: &Step)
        ensures
            final(out)@ == old(out)@ + self.name_text(s@),
    {
        if self.name {
            match &s.n.name {
                Some(name) => {
                    out.append(name.as_str());
                },
                None => {
                    out.append("None");
                },
            }
        }
    }

    fn append_id(&self, out: &mut String, s: &Step)
        requires
            self.can_format(s@),
        ensures
            final(out)@ == old(out)@ + self.id_text(s@),
    {
        if self.id {
            if self.short_id {
                let text = usize_to_string(s.n.id);
                proof {
                    lemma_decimal_len(s.n.id as nat);
                }
                let len = text.as_str().unicode_len();
                out.append(text.as_str().substring_char(len - 5, len));
            } else {
                append_usize(out, s.n.id);
            }
        }
    }

    fn append_focus(&self, out: &mut String, s: &Step)
        ensures
            final(out)@ == old(out)@ + self.focus_text(s@),
    {
        if self.focus {
            if s.n.focused {
                out.append("F");
            } else {
                out.append("U");
            }
        }
    }

    fn append_layout(&self, out: &mut String, s: &Step)
        ensures
            final(out)@ == old(out)@ + self.layout_col(s@),
    {
        if self.layout {
            out.append(layout_name(s.n.layout));
        }
    }

    fn append_rect(&self, out: &mut String, s: &Step)
        ensures
            final(out)@ == old(out)@ + self.rect_col(s@),
    {
        if self.rect {
            append_rect(out, &s.n.rect);
        }
    }

    fn append_marks(&self, out: &mut String, s: &Step)
        ensures
            final(out)@ == old(out)@ + self.marks_col(s@),
    {
        if self.marks {
            append_marks(out, s.n);
        }
    }

    fn append_floating(&self, out: &mut String, s: &Step)
        ensures
            final(out)@ == old(out)@ + self.floating_col(s@),
    {
        if self.floating {
            if s.n.is_floating() {
                out.append("t");
            } else {
                out.append("f");
            }
        }
    }

    fn append_move(&self, out: &mut String, s: &Step)
        ensures
            final(out)@ == old(out)@ + self.move_col(s@),
    {
        if self.moveto {
            out.append(move_name(s.m));
        }
    }
}

/// Appends the rectangle `r` as it is written.
fn append_rect(out: &mut String, r: &Rect)
    ensures
        final(out)@ == old(out)@ + rect_text(*r),
{
    out.append("Rect { x: ");
    append_isize(out, r.x);
    out.append(", y: ");
    append_isize(out, r.y);
    out.append(", width: ");
    append_isize(out, r.width);
    out.append(", height: ");
    append_isize(out, r.height);
    out.append(" }");
}

/// Appends the marks of `n`, with commas between them.
fn append_marks(out: &mut String, n: &Node)
    ensures
        final(out)@ == old(out)@ + joined(lines(n.marks@), ","@),
{
    let mut i: usize = 0;
    while i < n.marks.len()
        invariant
            i <= n.marks@.len(),
            out@ == old(out)@ + joined(lines(n.marks@).take(i as int), ","@),
        decreases n.marks@.len() - i,
    {
        proof {
            let upto = lines(n.marks@).take(i + 1);
            assert(upto.drop_last() =~= lines(n.marks@).take(i as int));
            if i == 0 {
                assert(joined(upto.drop_last(), ","@) =~= Seq::empty());
            }
        }
        if i > 0 {
            out.append(",");
        }
        out.append(n.marks[i].as_str());
        i += 1;
    }
    assert(lines(n.marks@).take(n.marks@.len() as int) =~= lines(n.marks@));
}

/// How a layout is written.
pub fn layout_name(layout: NodeLayout) -> (s: &'static str)
    ensures
        s@ == layout_text(layout),
{
    match layout {
        NodeLayout::SplitH => "SplitH",
        NodeLayout::SplitV => "SplitV",
        NodeLayout::Stacked => "Stacked",
        NodeLayout::Tabbed => "Tabbed",
        NodeLayout::Dockarea => "Dockarea",
        NodeLayout::Output => "Output",
    }
}

/// How a move is written.
pub fn move_name(m: Move) -> (s: &'static str)
    ensures
        s@ == move_text(m),
{
    match m {
        Move::Up => "Up",
        Move::Down => "Down",
        Move::Sibling => "Sibling",
    }
}

/// The columns of a listing of a workspace.
pub open spec fn std_columns() -> StepFormatter {
    StepFormatter {
        id: true,
        depth: true,
        name: true,
        layout: true,
        marks: true,
        moveto: true,
        ..StepFormatter::plain()
    }
}

/// The columns of a listing of rectangles.
pub open spec fn rect_columns() -> StepFormatter {
    StepFormatter { id: true, depth: true, name: true, rect: true, ..StepFormatter::plain() }
}

/// The columns of a listing of one window.
pub open spec fn window_columns() -> StepFormatter {
    StepFormatter {
        indent: false,
        id: true,
        floating: true,
        depth: true,
        name: true,
        layout: true,
        marks: true,
        ..StepFormatter::plain()
    }
}

/// The formatter for a listing of a workspace.
pub fn std_format() -> (fmt: StepFormatter)
    ensures
        fmt == std_columns(),
{
    let mut fmt = StepFormatter::new();
    fmt.id = true;
    fmt.depth = true;
    fmt.name = true;
    fmt.layout = true;
    fmt.marks = true;
    fmt.moveto = true;
    fmt
}

/// The formatter for a listing of rectangles.
pub fn rect_format() -> (fmt: StepFormatter)
    ensures
        fmt == rect_columns(),
{
    let mut fmt = StepFormatter::new();
    fmt.id = true;
    fmt.depth = true;
    fmt.name = true;
    fmt.rect = true;
    fmt
}

/// The formatter for a listing of one window.
pub fn window_format() -> (fmt: StepFormatter)
    ensures
        fmt == window_columns(),
{
    let mut fmt = StepFormatter::new();
    fmt.show_indent(false);
    fmt.id = true;
    fmt.floating = true;
    fmt.depth = true;
    fmt.name = true;
    fmt.layout = true;
    fmt.marks = true;
    fmt
}

/// The lines for `steps`, under the heading `Tree:`.
fn list_steps(steps: &Vec<Step>, fmt: &StepFormatter) -> (out: Vec<String>)
    requires
        fmt.can_format_all(step_views(steps@)),
    ensures
        lines(out@) == fmt.listing(step_views(steps@)),
{
    let mut out: Vec<String> = Vec::new();
    out.push(String::from_str("Tree:"));
    let mut i: usize = 0;
    while i < steps.len()
        invariant
            i <= steps@.len(),
            fmt.can_format_all(step_views(steps@)),
            out@.len() == i + 1,
            out@[0]@ == "Tree:"@,
            forall|j: int| 1 <= j <= i ==> (#[trigger] out@[j])@ == fmt.line(steps@[j - 1]@),
        decreases steps@.len() - i,
    {
        assert(step_views(steps@)[i as int] == steps@[i as int]@);
        out.push(fmt.format(&steps[i]));
        i += 1;
    }
    proof {
        let want = fmt.listing(step_views(steps@));
        assert forall|j: int| 0 <= j < want.len() implies lines(out@)[j] == want[j] by {
            if j > 0 {
                assert(out@[j]@ == fmt.line(steps@[j - 1]@));
            }
        }
    }
    out
}

/// The listing of the tree below `n` in pre-order.
pub fn pretty_print(n: &Node, fmt: &StepFormatter) -> (out: Vec<String>)
    requires
        n.height() < usize::MAX,
        fmt.can_format_all(walk_steps(*n, Order::PreOrder)),
    ensures
        lines(out@) == fmt.listing(walk_steps(*n, Order::PreOrder)),
{
    let steps = preorder(n);
    list_steps(&steps, fmt)
}

/// The listing of the tree below `n` in post-order.
pub fn post_print(n: &Node, fmt: &StepFormatter) -> (out: Vec<String>)
    requires
        n.height() < usize::MAX,
        fmt.can_format_all(walk_steps(*n, Order::PostOrder)),
    ensures
        lines(out@) == fmt.listing(walk_steps(*n, Order::PostOrder)),
{
    let steps = postorder(n);
    list_steps(&steps, fmt)
}

/// What `target` lists: the focused workspace, the focused output or the
/// focused window.
pub open spec fn subject(target: PrintTarget, tree: Node) -> Result<Node, NotFound> {
    match target {
        PrintTarget::Tree => match tree.current_workspace() {
            Some(n) => Ok(n),
            None => Err(NotFound::Workspace),
        },
        PrintTarget::Rects => match tree.current_output() {
            Some(n) => Ok(n),
            None => Err(NotFound::Output),
        },
        PrintTarget::Window => match tree.current_window() {
            Some(n) => Ok(n),
            None => Err(NotFound::Window),
        },
    }
}

/// The columns that `target` is listed with.
pub open spec fn columns(target: PrintTarget) -> StepFormatter {
    match target {
        PrintTarget::Tree => std_columns(),
        PrintTarget::Rects => rect_columns(),
        PrintTarget::Window => window_columns(),
    }
}

/// What `run` answers: the lines that list `target`, or what could not
/// be found.
pub open spec fn listing_of(target: PrintTarget, tree: Node) -> Result<Seq<Seq<char>>, NotFound> {
    match subject(target, tree) {
        Ok(n) => Ok(columns(target).listing(walk_steps(n, Order::PreOrder))),
        Err(e) => Err(e),
    }
}

/// Whether `run` can work on `tree`: what is to be listed, if it is
/// there, has a depth that is a number of the machine, and every id in it
/// has the five digits that a short id takes.
pub open spec fn listing_ready(target: PrintTarget, tree: Node) -> bool {
    subject(target, tree) matches Ok(n) ==> n.height() < usize::MAX && columns(
        target,
    ).can_format_all(walk_steps(n, Order::PreOrder))
}

/// Whether the tree below `n` can be listed in pre-order with `fmt`.
pub fn can_list(n: &Node, fmt: &StepFormatter) -> (b: bool)
    ensures
        b == (n.height() < usize::MAX && fmt.can_format_all(walk_steps(*n, Order::PreOrder))),
{
    if !n.shallower_than(usize::MAX) {
        return false;
    }
    let steps = preorder(n);
    let mut i: usize = 0;
    while i < steps.len()
        invariant
            i <= steps@.len(),
            step_views(steps@) == walk_steps(*n, Order::PreOrder),
            forall|j: int| 0 <= j < i ==> fmt.can_format(#[trigger] step_views(steps@)[j]),
        decreases steps@.len() - i,
    {
        assert(step_views(steps@)[i as int] == steps@[i as int]@);
        if fmt.id && fmt.short_id && steps[i].n.id < 10000 {
            return false;
        }
        i += 1;
    }
    true
}

/// Whether `run` can work on `tree`.
pub fn can_run(target: PrintTarget, tree: &Node) -> (b: bool)
    ensures
        b == listing_ready(target, *tree),
{
    match target {
        PrintTarget::Tree => match tree.get_current_workspace() {
            Some(n) => can_list(n, &std_format()),
            None => true,
        },
        PrintTarget::Rects => match tree.get_current_output() {
            Some(n) => can_list(n, &rect_format()),
            None => true,
        },
        PrintTarget::Window => match tree.get_current_window() {
            Some(n) => can_list(n, &window_format()),
            None => true,
        },
    }
}

/// The lines that list `target`, or what could not be found.
pub fn run(target: PrintTarget, tree: &Node) -> (r: Result<Vec<String>, NotFound>)
    requires
        listing_ready(target, *tree),
    ensures
        commands_of(r) == listing_of(target, *tree),
{
    let (to_print, fmt) = match target {
        PrintTarget::Tree => match tree.get_current_workspace() {
            Some(n) => (n, std_format()),
            None => {
                return Err(NotFound::Workspace);
            },
        },
        PrintTarget::Rects => match tree.get_current_output() {
            Some(n) => (n, rect_format()),
            None => {
                return Err(NotFound::Output);
            },
        },
        PrintTarget::Window => match tree.get_current_window() {
            Some(n) => (n, window_format()),
            None => {
                return Err(NotFound::Window);
            },
        },
    };
    Ok(pretty_print(to_print, &fmt))
}

} // verus!
