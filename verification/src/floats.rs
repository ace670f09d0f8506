//! Placing the focused floating window at an anchor of the screen.

use vstd::prelude::*;
use vstd::string::StringExecFns;
use crate::ext::node_search::NodeSearch;
use crate::node::{Node, Rect};
use crate::text::{append_isize, lines, said, signed_decimal};

verus! {

/// The anchors a window can be sent to.
#[derive(Clone, Copy, Debug, PartialEq, Eq, Structural)]
pub enum Pos {
    /// top-left corner
    NW,
    /// top-right corner
    NE,
    /// bottom-left corner
    SW,
    /// bottom-right corner
    SE,
    /// top-center edge
    Top,
    /// bottom-center edge
    Bottom,
    /// center-left edge
    Left,
    /// center-right edge
    Right,
}

/// What the anchors are anchors of.
#[derive(Clone, Copy, Debug, PartialEq, Eq, Structural)]
pub enum Positioning {
    /// relative to the output (will overlap bars)
    Absolute,
    /// relative to the content area (will not overlap bars)
    Relative,
}

/// Half of `a`, rounded toward zero.
pub open spec fn half(a: int) -> int {
    if a >= 0 {
        a / 2
    } else {
        -((-a) / 2)
    }
}

/// Where the top-left corner of a window of the size of `window` goes so
/// that the window sits at the anchor `to` of `display`.
pub open spec fn anchor(display: Rect, window: Rect, to: Pos) -> (int, int) {
    let left = display.x as int;
    let right = display.x + display.width - window.width;
    let center = display.x + half(display.width as int) - half(window.width as int);
    let top = display.y as int;
    let bottom = display.y + display.height - window.height;
    let middle = display.y + half(display.height as int) - half(window.height as int);
    match to {
        Pos::NW => (left, top),
        Pos::NE => (right, top),
        Pos::SW => (left, bottom),
        Pos::SE => (right, bottom),
        Pos::Top => (center, top),
        Pos::Bottom => (center, bottom),
        Pos::Right => (right, middle),
        Pos::Left => (left, middle),
    }
}

/// Whether both coordinates of the anchor are numbers of the machine.
pub open spec fn anchor_fits(display: Rect, window: Rect, to: Pos) -> bool {
    &&& isize::MIN <= anchor(display, window, to).0 <= isize::MAX
    &&& isize::MIN <= anchor(display, window, to).1 <= isize::MAX
}

/// The command that moves the focused window to `(x, y)`.
pub open spec fn move_command(x: int, y: int) -> Seq<char> {
    "move position "@ + signed_decimal(x) + " "@ + signed_decimal(y)
}

/// The rectangle that the anchors refer to: the content area of the focused
/// output for `Relative`, the whole focused output for `Absolute`.
pub open spec fn reference_area(tree: Node, pos: Positioning) -> Option<Rect> {
    match pos {
        Positioning::Relative => match tree.content_area() {
            Some(n) => Some(n.rect),
            None => None,
        },
        Positioning::Absolute => match tree.current_output() {
            Some(n) => Some(n.rect),
            None => None,
        },
    }
}

/// What is said when `op` is not in the tree.
pub open spec fn not_in_tree(op: Seq<char>) -> Seq<char> {
    "Couldn't find in tree: "@ + op
}

/// What `teleport_float` answers: the one command that moves the focused
/// window to its anchor, or what could not be found.
pub open spec fn teleport(tree: Node, to: Pos, pos: Positioning) -> Result<Seq<Seq<char>>, Seq<char>> {
    match tree.current_window() {
        None => Err(not_in_tree("current window"@)),
        Some(window) => match reference_area(tree, pos) {
            None => Err(
                not_in_tree(
                    match pos {
                        Positioning::Relative => "content"@,
                        Positioning::Absolute => "display"@,
                    },
                ),
            ),
            Some(area) => Ok(
                seq![
                    move_command(anchor(area, window.rect, to).0, anchor(area, window.rect, to).1),
                ],
            ),
        },
    }
}

/// Whether `teleport_float` can work on `tree`: if there are a focused
/// window and an area to anchor it in, the anchor is made of numbers of the
/// machine.
pub open spec fn teleport_ready(tree: Node, to: Pos, pos: Positioning) -> bool {
    tree.current_window() matches Some(window) ==> (reference_area(tree, pos) matches Some(
        area,
    ) ==> anchor_fits(area, window.rect, to))
}

/// Whether `teleport_float` can work on `tree`.
pub fn can_teleport(tree: &Node, to: Pos, pos: Positioning) -> (b: bool)
    ensures
        b == teleport_ready(*tree, to, pos),
{
    let window = match tree.get_current_window() {
        Some(w) => w,
        None => {
            return true;
        },
    };
    let area = match pos {
        Positioning::Relative => DisplayArea::content(tree),
        Positioning::Absolute => DisplayArea::display(tree),
    };
    match area {
        Some(a) => a.can_place(&window.rect, to),
        None => true,
    }
}

/// The command that anchors the focused window at `to`, or a message that
/// says what the tree lacks: a focused window, or the area to anchor in.
pub fn teleport_float(tree: &Node, to: Pos, pos: Positioning) -> (r: Result<Vec<String>, String>)
    requires
        teleport_ready(*tree, to, pos),
    ensures
        said(r) == teleport(*tree, to, pos),
{
    let current_window = match okers(tree.get_current_window(), "current window") {
        Ok(w) => w,
        Err(e) => {
            return Err(e);
        },
    };
    let current_display = match pos {
        Positioning::Relative => match okers(DisplayArea::content(tree), "content") {
            Ok(d) => d,
            Err(e) => {
                return Err(e);
            },
        },
        Positioning::Absolute => match okers(DisplayArea::display(tree), "display") {
            Ok(d) => d,
            Err(e) => {
                return Err(e);
            },
        },
    };
    let (x, y) = current_display.position_window(&current_window.rect, to);
    let mut cmd = String::from_str("move position ");
    append_isize(&mut cmd, x);
    cmd.append(" ");
    append_isize(&mut cmd, y);
    let mut res: Vec<String> = Vec::new();
    res.push(cmd);
    assert(lines(res@) =~= seq![move_command(x as int, y as int)]);
    Ok(res)
}

/// A rectangle to anchor windows in.
pub struct DisplayArea(pub Rect);

impl DisplayArea {
    /// The rectangle of `node`.
    pub fn from_node(node: &Node) -> (a: Self)
        ensures
            a.0 == node.rect,
    {
        DisplayArea(node.rect)
    }

    /// The whole focused output.
    pub fn display(tree: &Node) -> (a: Option<Self>)
        ensures
            match a {
                Some(area) => reference_area(*tree, Positioning::Absolute) == Some(area.0),
                None => reference_area(*tree, Positioning::Absolute) is None,
            },
    {
        match tree.get_current_output() {
            Some(n) => Some(DisplayArea::from_node(n)),
            None => None,
        }
    }

    /// The content area of the focused output.
    pub fn content(tree: &Node) -> (a: Option<Self>)
        ensures
            match a {
                Some(area) => reference_area(*tree, Positioning::Relative) == Some(area.0),
                None => reference_area(*tree, Positioning::Relative) is None,
            },
    {
        match tree.get_content_area() {
            Some(n) => Some(DisplayArea::from_node(n)),
            None => None,
        }
    }

    /// The anchor `to` of this area for `window`, in numbers wide enough
    /// for every sum on the way.
    fn anchor_wide(&self, window: &Rect, to: Pos) -> (p: (i128, i128))
        ensures
            p.0 == anchor(self.0, *window, to).0,
            p.1 == anchor(self.0, *window, to).1,
    {
        let x = self.0.x as i128;
        let y = self.0.y as i128;
        let w = self.0.width as i128;
        let h = self.0.height as i128;
        let ww = window.width as i128;
        let wh = window.height as i128;
        match to {
            Pos::NW => (x, y),
            Pos::NE => ((x + w - ww), y),
            Pos::SW => (x, (y + h - wh)),
            Pos::SE => ((x + w - ww), (y + h - wh)),
            Pos::Top => ((x + w / 2 - ww / 2), y),
            Pos::Bottom => ((x + w / 2 - ww / 2), (y + h - wh)),
            Pos::Right => ((x + w - ww), (y + h / 2 - wh / 2)),
            Pos::Left => (x, (y + h / 2 - wh / 2)),
        }
    }

    /// Whether the anchor `to` of this area for `window` is made of
    /// numbers of the machine.
    pub fn can_place(&self, window: &Rect, to: Pos) -> (b: bool)
        ensures
            b == anchor_fits(self.0, *window, to),
    {
        let (px, py) = self.anchor_wide(window, to);
        let lo = isize::MIN as i128;
        let hi = isize::MAX as i128;
        lo <= px && px <= hi && lo <= py && py <= hi
    }

    /// Where the top-left corner of `window` goes so that it sits at the
    /// anchor `to` of this area. Only the size of `window` counts.
    pub fn position_window(&self, window: &Rect, to: Pos) -> (p: (isize, isize))
        requires
            anchor_fits(self.0, *window, to),
        ensures
            p.0 == anchor(self.0, *window, to).0,
            p.1 == anchor(self.0, *window, to).1,
    {
        let (px, py) = self.anchor_wide(window, to);
        (px as isize, py as isize)
    }
}

/// `Ok` of what was found, or the message that `op` is not in the tree.
pub fn okers<T>(it: Option<T>, op: &str) -> (r: Result<T, String>)
    ensures
        match it {
            Some(v) => r == Ok::<T, String>(v),
            None => r matches Err(e) && e@ == not_in_tree(op@),
        },
{
    match it {
        Some(v) => Ok(v),
        None => {
            let mut e = String::from_str("Couldn't find in tree: ");
            e.append(op);
            Err(e)
        },
    }
}

} // verus!
