//! Screen geometry: rectangles, positions, sizes and layout directions as
//! plain values, with the arithmetic the widgets rely on.

use vstd::prelude::*;

verus! {

/// `a + b`, held at `u16::MAX`.
pub open spec fn sat_add(a: u16, b: u16) -> u16 {
    if a + b > u16::MAX {
        u16::MAX
    } else {
        (a + b) as u16
    }
}

/// `a - b`, held at 0.
pub open spec fn sat_sub(a: u16, b: u16) -> u16 {
    if a < b {
        0
    } else {
        (a - b) as u16
    }
}

/// `a + d` for a signed `d`, held within `0..=u16::MAX`.
pub open spec fn sat_add_signed(a: u16, d: i16) -> u16 {
    if a + d < 0 {
        0
    } else if a + d > u16::MAX {
        u16::MAX
    } else {
        (a + d) as u16
    }
}

/// `a + d` for a signed `d`, held within `0..=u16::MAX`.
pub fn saturating_add_signed(a: u16, d: i16) -> (r: u16)
    ensures
        r == sat_add_signed(a, d),
{
    match a.checked_add_signed(d) {
        Some(v) => v,
        None => if d < 0 {
            0
        } else {
            u16::MAX
        },
    }
}

/// The rectangle that `Rect::new` builds: width and height are cut so that
/// the right and bottom edges stay on the screen.
pub open spec fn rect_new(x: u16, y: u16, width: u16, height: u16) -> Rect {
    Rect { x, y, width: (sat_add(x, width) - x) as u16, height: (sat_add(y, height) - y) as u16 }
}

/// A position on the screen.
#[derive(Debug, Default, Clone, Copy, PartialEq, Eq, Structural, Hash)]
pub struct Position {
    pub x: u16,
    pub y: u16,
}

impl Position {
    pub fn new(x: u16, y: u16) -> (r: Position)
        ensures
            r.x == x,
            r.y == y,
    {
        Position { x, y }
    }
}

/// A width and a height.
#[derive(Debug, Default, Clone, Copy, PartialEq, Eq, Structural, Hash)]
pub struct Size {
    pub width: u16,
    pub height: u16,
}

/// Space around an inner area, per side.
#[derive(Debug, Default, Clone, Copy, PartialEq, Eq, Structural, Hash)]
pub struct Padding {
    pub left: u16,
    pub right: u16,
    pub top: u16,
    pub bottom: u16,
}

/// Direction in which areas are laid out.
#[derive(Debug, Default, Clone, Copy, PartialEq, Eq, Structural, Hash)]
pub enum Direction {
    /// Side by side, left to right.
    Horizontal,
    /// Top to bottom.
    #[default]
    Vertical,
}

/// The border symbols a block can be drawn with.
#[derive(Debug, Default, Clone, Copy, PartialEq, Eq, Structural, Hash)]
pub enum BorderType {
    #[default]
    Plain,
    Rounded,
    Double,
    Thick,
    LightDoubleDashed,
    HeavyDoubleDashed,
    LightTripleDashed,
    HeavyTripleDashed,
    LightQuadrupleDashed,
    HeavyQuadrupleDashed,
    QuadrantInside,
    QuadrantOutside,
}

/// A size constraint for one part of a layout.
#[derive(Debug, Clone, Copy, PartialEq, Eq, Structural, Hash)]
pub enum LayoutConstraint {
    /// At least this many cells.
    Min(u16),
    /// At most this many cells.
    Max(u16),
    /// Exactly this many cells.
    Length(u16),
    /// This percentage of the available space.
    Percentage(u16),
    /// This fraction of the available space.
    Ratio(u32, u32),
    /// A share of the remaining space, in proportion to the other fills.
    Fill(u16),
}

/// How a layout distributes space that the constraints leave over.
#[derive(Debug, Default, Clone, Copy, PartialEq, Eq, Structural, Hash)]
pub enum LayoutFlex {
    /// The excess goes to the last part.
    Legacy,
    /// Parts are aligned to the start.
    #[default]
    Start,
}

/// A rectangular area of the screen.
#[derive(Debug, Default, Clone, Copy, PartialEq, Eq, Structural, Hash)]
pub struct Rect {
    pub x: u16,
    pub y: u16,
    pub width: u16,
    pub height: u16,
}

impl Rect {
    /// Right edge (one past the last column).
    pub open spec fn spec_right(self) -> u16 {
        sat_add(self.x, self.width)
    }

    /// Bottom edge (one past the last row).
    pub open spec fn spec_bottom(self) -> u16 {
        sat_add(self.y, self.height)
    }

    /// The smallest rectangle that covers both.
    pub open spec fn spec_union(self, other: Rect) -> Rect {
        let x1 = if self.x < other.x { self.x } else { other.x };
        let y1 = if self.y < other.y { self.y } else { other.y };
        let x2 = if self.spec_right() > other.spec_right() { self.spec_right() } else { other.spec_right() };
        let y2 = if self.spec_bottom() > other.spec_bottom() { self.spec_bottom() } else { other.spec_bottom() };
        Rect { x: x1, y: y1, width: sat_sub(x2, x1), height: sat_sub(y2, y1) }
    }

    /// The overlap of both; no area where they do not overlap.
    pub open spec fn spec_intersection(self, other: Rect) -> Rect {
        let x1 = if self.x > other.x { self.x } else { other.x };
        let y1 = if self.y > other.y { self.y } else { other.y };
        let x2 = if self.spec_right() < other.spec_right() { self.spec_right() } else { other.spec_right() };
        let y2 = if self.spec_bottom() < other.spec_bottom() { self.spec_bottom() } else { other.spec_bottom() };
        Rect { x: x1, y: y1, width: sat_sub(x2, x1), height: sat_sub(y2, y1) }
    }

    /// The position lies inside.
    pub open spec fn spec_contains(self, p: Position) -> bool {
        self.x <= p.x && p.x < self.spec_right() && self.y <= p.y && p.y < self.spec_bottom()
    }

    /// New rectangle; the width and height are cut so that the right and
    /// bottom edges stay on the screen.
    pub fn new(x: u16, y: u16, width: u16, height: u16) -> (r: Rect)
        ensures
            r == rect_new(x, y, width, height),
    {
        let width = x.saturating_add(width) - x;
        let height = y.saturating_add(height) - y;
        Rect { x, y, width, height }
    }

    pub fn left(self) -> (r: u16)
        ensures
            r == self.x,
    {
        self.x
    }

    pub fn right(self) -> (r: u16)
        ensures
            r == self.spec_right(),
    {
        self.x.saturating_add(self.width)
    }

    pub fn top(self) -> (r: u16)
        ensures
            r == self.y,
    {
        self.y
    }

    pub fn bottom(self) -> (r: u16)
        ensures
            r == self.spec_bottom(),
    {
        self.y.saturating_add(self.height)
    }

    /// The smallest rectangle that covers both.
    pub fn union(self, other: Rect) -> (r: Rect)
        ensures
            r == self.spec_union(other),
    {
        let x1 = if self.x < other.x { self.x } else { other.x };
        let y1 = if self.y < other.y { self.y } else { other.y };
        let x2 = if self.right() > other.right() { self.right() } else { other.right() };
        let y2 = if self.bottom() > other.bottom() { self.bottom() } else { other.bottom() };
        Rect { x: x1, y: y1, width: x2.saturating_sub(x1), height: y2.saturating_sub(y1) }
    }

    /// The position lies inside.
    pub fn contains(self, p: Position) -> (r: bool)
        ensures
            r == self.spec_contains(p),
    {
        p.x >= self.x && p.x < self.right() && p.y >= self.y && p.y < self.bottom()
    }
}

} // verus!
