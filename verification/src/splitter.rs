//! Splits an area into parts whose sizes the user can change: layout of
//! the parts and split bars, moving a split bar, and the split bar's
//! symbols.

use crate::_private::NonExhaustive;
use crate::geometry::{rect_new, sat_add, sat_sub, BorderType, Direction, LayoutConstraint, LayoutFlex, Position, Rect};
use crate::event::Outcome;
use crate::outside::{
    block_inner_if_some, focus_flag_default, focus_flag_get, layout_split, mouse_flags_n_default,
    mouse_flags_n_drag, mouse_flags_n_dragged, solver_gave, style_default,
};
use crossterm::event::MouseEvent;
use ratatui::style::Style;
use ratatui::widgets::Block;
use rat_event::util::MouseFlagsN;
use rat_focus::FocusFlag;
use vstd::prelude::*;

verus! {

/// Render variants for the splitter.
#[derive(Debug, Default, Clone, Copy, Eq, PartialEq, Structural)]
pub enum SplitType {
    /// Full splitter between the widgets, rendered blank.
    #[default]
    FullEmpty,
    /// Full splitter between the widgets, rendered as a plain line.
    FullPlain,
    /// Full splitter between the widgets, rendered as a double line.
    FullDouble,
    /// Full splitter between the widgets, rendered as a thick line.
    FullThick,
    /// Full splitter, a line on the inside of a half block.
    FullQuadrantInside,
    /// Full splitter, a line on the outside of a half block.
    FullQuadrantOutside,
    /// Only the two marker chars over the left/top widget; the widget gets
    /// the full area.
    Scroll,
    /// Same as Scroll, but the markers are inset by one.
    ScrollBlock,
    /// No splitter is rendered; the last column/row of the widget moves
    /// the split.
    Widget,
}

/// The split type takes its own column/row between the widgets.
pub open spec fn is_full_type(t: SplitType) -> bool {
    match t {
        SplitType::FullEmpty | SplitType::FullPlain | SplitType::FullDouble | SplitType::FullThick
        | SplitType::FullQuadrantInside | SplitType::FullQuadrantOutside => true,
        _ => false,
    }
}

impl SplitType {
    pub fn is_full(&self) -> (r: bool)
        ensures
            r == is_full_type(*self),
    {
        match self {
            SplitType::FullEmpty => true,
            SplitType::FullPlain => true,
            SplitType::FullDouble => true,
            SplitType::FullThick => true,
            SplitType::FullQuadrantInside => true,
            SplitType::FullQuadrantOutside => true,
            SplitType::Scroll => false,
            SplitType::ScrollBlock => false,
            SplitType::Widget => false,
        }
    }
}

/// State of the Split.
#[derive(Debug)]
pub struct SplitState {
    /// Total area.
    pub area: Rect,
    /// Area inside the border.
    pub inner: Rect,
    /// Focus
    pub focus: FocusFlag,
    /// Which splitter exactly has the focus.
    pub focus_split: Option<usize>,
    /// The part areas. Use this after calling layout() to render your
    /// widgets.
    pub areas: Vec<Rect>,
    /// Area used by the splitter. This area is used for moving the
    /// splitter. It might overlap with the widget area.
    pub split: Vec<Rect>,
    /// Direction of the split.
    pub direction: Direction,
    /// Split type.
    pub split_type: SplitType,
    /// Mouseflags.
    pub mouse: MouseFlagsN,
    pub non_exhaustive: NonExhaustive,
}

impl Default for SplitState {
    fn default() -> (r: Self)
        ensures
            r.area == (Rect { x: 0, y: 0, width: 0, height: 0 }),
            r.inner == (Rect { x: 0, y: 0, width: 0, height: 0 }),
            r.focus_split is None,
            r.areas@ == Seq::<Rect>::empty(),
            r.split@ == Seq::<Rect>::empty(),
            r.direction == Direction::Vertical,
            r.split_type == SplitType::FullEmpty,
    {
        Self {
            area: Rect { x: 0, y: 0, width: 0, height: 0 },
            inner: Rect { x: 0, y: 0, width: 0, height: 0 },
            focus: focus_flag_default(),
            focus_split: None,
            areas: Vec::new(),
            split: Vec::new(),
            direction: Direction::Vertical,
            split_type: SplitType::FullEmpty,
            mouse: mouse_flags_n_default(),
            non_exhaustive: NonExhaustive,
        }
    }
}

/// The new split position along the split direction: `want` held within
/// the combined extent `lo..hi` of the two areas, at most one before `hi`
/// (for vertical non-full splits, at `hi - 2` once `want` reaches
/// `hi - 1`).
pub open spec fn clamp_split_pos(full: bool, vertical: bool, want: u16, lo: u16, hi: u16) -> u16 {
    if want < lo {
        lo
    } else if full {
        if want >= hi { sat_sub(hi, 1) } else { want }
    } else if vertical {
        if want >= sat_sub(hi, 1) { sat_sub(hi, 2) } else { want }
    } else {
        if want >= hi { sat_sub(hi, 1) } else { want }
    }
}

/// The new `(areas[n], split[n], areas[n + 1])` when split `n` is moved to
/// `pos`, for the areas `a1`, `a2` on both sides.
pub open spec fn moved_split(direction: Direction, t: SplitType, a1: Rect, a2: Rect, pos: (u16, u16)) -> (Rect, Rect, Rect) {
    let u = a1.spec_union(a2);
    let full = is_full_type(t);
    if direction == Direction::Horizontal {
        let p = clamp_split_pos(full, false, pos.0, u.x, u.spec_right());
        if full {
            (
                rect_new(a1.x, a1.y, (p - a1.x) as u16, a1.height),
                rect_new(p, a1.y, 1, a1.height),
                rect_new((p + 1) as u16, a2.y, (a2.spec_right() - 1 - p) as u16, a2.height),
            )
        } else {
            (
                rect_new(a1.x, a1.y, ((p + 1) - a1.x) as u16, a1.height),
                match t {
                    SplitType::Scroll => rect_new(p, a1.y, 1, 2),
                    SplitType::ScrollBlock => rect_new(p, (a1.y + 1) as u16, 1, 2),
                    _ => rect_new(p, a1.y, 1, a1.height),
                },
                rect_new((p + 1) as u16, a2.y, (a2.spec_right() - 1 - p) as u16, a2.height),
            )
        }
    } else {
        let p = clamp_split_pos(full, true, pos.1, u.y, u.spec_bottom());
        if full {
            (
                rect_new(a1.x, a1.y, a1.width, (p - a1.y) as u16),
                rect_new(a1.x, p, a1.width, 1),
                rect_new(a2.x, (p + 1) as u16, a2.width, (a2.spec_bottom() - 1 - p) as u16),
            )
        } else {
            (
                rect_new(a1.x, a1.y, a1.width, ((p + 1) - a1.y) as u16),
                match t {
                    SplitType::Scroll => rect_new(a1.x, p, 2, 1),
                    SplitType::ScrollBlock => rect_new((a1.x + 1) as u16, p, 2, 1),
                    _ => rect_new(a1.x, p, a1.width, 1),
                },
                rect_new(a2.x, (p + 1) as u16, a2.width, (a2.spec_bottom() - 1 - p) as u16),
            )
        }
    }
}

/// Moving split `n` computes without leaving `u16`: the new position does
/// not lie before `a1` or after `a2`'s far edge, and the rectangles next to
/// it start on the screen.
pub open spec fn moved_split_fits(direction: Direction, t: SplitType, a1: Rect, a2: Rect, pos: (u16, u16)) -> bool {
    let u = a1.spec_union(a2);
    let full = is_full_type(t);
    if direction == Direction::Horizontal {
        let p = clamp_split_pos(full, false, pos.0, u.x, u.spec_right());
        &&& p + 1 <= u16::MAX
        &&& if full {
            a1.x <= p && p + 1 <= a2.spec_right()
        } else {
            a1.x <= p + 1 && p + 1 <= a2.spec_right()
        }
        &&& t == SplitType::ScrollBlock ==> a1.y + 1 <= u16::MAX
    } else {
        let p = clamp_split_pos(full, true, pos.1, u.y, u.spec_bottom());
        &&& p + 1 <= u16::MAX
        &&& if full {
            a1.y <= p && p + 1 <= a2.spec_bottom()
        } else {
            a1.y <= p + 1 && p + 1 <= a2.spec_bottom()
        }
        &&& t == SplitType::ScrollBlock ==> a1.x + 1 <= u16::MAX
    }
}


/// Split `n` moved horizontally: the new `(areas[n], split[n], areas[n + 1])`.
fn moved_horizontal(t: SplitType, area1: Rect, area2: Rect, pos: (u16, u16)) -> (r: (Rect, Rect, Rect))
    requires
        moved_split_fits(Direction::Horizontal, t, area1, area2, pos),
    ensures
        r == moved_split(Direction::Horizontal, t, area1, area2, pos),
{
    let area = area1.union(area2);
    match t {
        SplitType::FullEmpty | SplitType::FullPlain | SplitType::FullDouble | SplitType::FullThick
        | SplitType::FullQuadrantInside | SplitType::FullQuadrantOutside => {
            let p = if pos.0 < area.left() {
                area.left()
            } else if pos.0 >= area.right() {
                area.right().saturating_sub(1)
            } else {
                pos.0
            };

            let a = Rect::new(area1.x, area1.y, p - area1.x, area1.height);
            let s = Rect::new(p, area1.y, 1, area1.height);
            let b = Rect::new(p + 1, area2.y, area2.right() - 1 - p, area2.height);
            (a, s, b)
        },
        SplitType::Scroll => {
            let p = if pos.0 < area.left() {
                area.left()
            } else if pos.0 >= area.right() {
                area.right().saturating_sub(1)
            } else {
                pos.0
            };

            let a = Rect::new(area1.x, area1.y, (p + 1) - area1.x, area1.height);
            let s = Rect::new(p, area1.y, 1, 2);
            let b = Rect::new(p + 1, area2.y, area2.right() - 1 - p, area2.height);
            (a, s, b)
        },
        SplitType::ScrollBlock => {
            let p = if pos.0 < area.left() {
                area.left()
            } else if pos.0 >= area.right() {
                area.right().saturating_sub(1)
            } else {
                pos.0
            };

            let a = Rect::new(area1.x, area1.y, (p + 1) - area1.x, area1.height);
            let s = Rect::new(p, area1.y + 1, 1, 2);
            let b = Rect::new(p + 1, area2.y, area2.right() - 1 - p, area2.height);
            (a, s, b)
        },
        SplitType::Widget => {
            let p = if pos.0 < area.left() {
                area.left()
            } else if pos.0 >= area.right() {
                area.right().saturating_sub(1)
            } else {
                pos.0
            };
            let a = Rect::new(area1.x, area1.y, (p + 1) - area1.x, area1.height);
            let s = Rect::new(p, area1.y, 1, area1.height);
            let b = Rect::new(p + 1, area2.y, area2.right() - 1 - p, area2.height);
            (a, s, b)
        },
    }
}

/// Split `n` moved vertically: the new `(areas[n], split[n], areas[n + 1])`.
fn moved_vertical(t: SplitType, area1: Rect, area2: Rect, pos: (u16, u16)) -> (r: (Rect, Rect, Rect))
    requires
        moved_split_fits(Direction::Vertical, t, area1, area2, pos),
    ensures
        r == moved_split(Direction::Vertical, t, area1, area2, pos),
{
    let area = area1.union(area2);
    match t {
        SplitType::FullEmpty | SplitType::FullPlain | SplitType::FullDouble | SplitType::FullThick
        | SplitType::FullQuadrantInside | SplitType::FullQuadrantOutside => {
            let p = if pos.1 < area.top() {
                area.top()
            } else if pos.1 >= area.bottom() {
                area.bottom().saturating_sub(1)
            } else {
                pos.1
            };
            let a = Rect::new(area1.x, area1.y, area1.width, p - area1.y);
            let s = Rect::new(area1.x, p, area1.width, 1);
            let b = Rect::new(area2.x, p + 1, area2.width, area2.bottom() - 1 - p);
            (a, s, b)
        },
        SplitType::Scroll => {
            let p = if pos.1 < area.top() {
                area.top()
            } else if pos.1 >= area.bottom().saturating_sub(1) {
                area.bottom().saturating_sub(2)
            } else {
                pos.1
            };
            let a = Rect::new(area1.x, area1.y, area1.width, (p + 1) - area1.y);
            let s = Rect::new(area1.x, p, 2, 1);
            let b = Rect::new(area2.x, p + 1, area2.width, area2.bottom() - 1 - p);
            (a, s, b)
        },
        SplitType::ScrollBlock => {
            let p = if pos.1 < area.top() {
                area.top()
            } else if pos.1 >= area.bottom().saturating_sub(1) {
                area.bottom().saturating_sub(2)
            } else {
                pos.1
            };
            let a = Rect::new(area1.x, area1.y, area1.width, (p + 1) - area1.y);
            let s = Rect::new(area1.x + 1, p, 2, 1);
            let b = Rect::new(area2.x, p + 1, area2.width, area2.bottom() - 1 - p);
            (a, s, b)
        },
        SplitType::Widget => {
            let p = if pos.1 < area.top() {
                area.top()
            } else if pos.1 >= area.bottom().saturating_sub(1) {
                area.bottom().saturating_sub(2)
            } else {
                pos.1
            };
            let a = Rect::new(area1.x, area1.y, area1.width, (p + 1) - area1.y);
            let s = Rect::new(area1.x, p, area1.width, 1);
            let b = Rect::new(area2.x, p + 1, area2.width, area2.bottom() - 1 - p);
            (a, s, b)
        },
    }
}

impl SplitState {
    /// Set the position for the nth splitter.
    ///
    /// The position is limited to the combined area of the two adjacent
    /// areas (see `lemma_moved_split_inside_union`).
    /// Returns whether one of the two areas changed.
    pub fn set_screen_split_pos(&mut self, n: usize, pos: (u16, u16)) -> (r: bool)
        requires
            n + 1 < old(self).areas@.len(),
            n < old(self).split@.len(),
            moved_split_fits(old(self).direction, old(self).split_type, old(self).areas@[n as int], old(self).areas@[n + 1], pos),
        ensures
            ({
                let (a, s, b) = moved_split(
                    old(self).direction,
                    old(self).split_type,
                    old(self).areas@[n as int],
                    old(self).areas@[n + 1],
                    pos,
                );
                &&& final(self).areas@ == old(self).areas@.update(n as int, a).update(n + 1, b)
                &&& final(self).split@ == old(self).split@.update(n as int, s)
                &&& r == (a != old(self).areas@[n as int] || b != old(self).areas@[n + 1])
            }),
            final(self).direction == old(self).direction,
            final(self).split_type == old(self).split_type,
            final(self).focus_split == old(self).focus_split,
            final(self).area == old(self).area,
            final(self).inner == old(self).inner,
    {
        let _n_areas = self.areas.len();
        let area1 = self.areas[n];
        let area2 = self.areas[n + 1];
        let (a, s, b) = if self.direction == Direction::Horizontal {
            moved_horizontal(self.split_type, area1, area2, pos)
        } else {
            moved_vertical(self.split_type, area1, area2, pos)
        };
        self.areas.set(n, a);
        self.split.set(n, s);
        self.areas.set(n + 1, b);

        area1 != self.areas[n] || area2 != self.areas[n + 1]
    }
}


/// What the focused split becomes on "next": one further, wrapping to the
/// first after the last.
pub open spec fn next_split_spec(focus_split: Option<usize>, count: nat) -> Option<usize> {
    let n = match focus_split {
        Some(n) => n,
        None => 0,
    };
    if n + 1 >= count {
        Some(0)
    } else {
        Some((n + 1) as usize)
    }
}

/// What the focused split becomes on "previous": one back, wrapping to the
/// last before the first.
pub open spec fn prev_split_spec(focus_split: Option<usize>, count: nat) -> Option<usize> {
    let n = match focus_split {
        Some(n) => n,
        None => 0,
    };
    if n == 0 {
        Some((count - 1) as usize)
    } else {
        Some((n - 1) as usize)
    }
}

/// Selecting the previous split bar steps one back from a selected bar
/// (wrapping from the first to the last), and selecting the next one steps
/// one forward (wrapping from the last to the first): with bar `n` of
/// `count` selected, previous gives `n - 1` (or `count - 1` for the first),
/// next gives `n + 1` (or `0` for the last).
pub proof fn lemma_split_selection_steps(a: SplitState, next: SplitState, prev: SplitState, n: usize)
    requires
        a.focus_split == Some(n),
        n < a.split@.len(),
        next.focus_split == next_split_spec(a.focus_split, a.split@.len()),
        (a.split@.len() > 0 || (a.focus_split matches Some(k) && k > 0)) && prev.focus_split == prev_split_spec(
            a.focus_split,
            a.split@.len(),
        ),
    ensures
        n > 0 ==> prev.focus_split == Some((n - 1) as usize),
        n == 0 ==> prev.focus_split == Some((a.split@.len() - 1) as usize),
        n + 1 < a.split@.len() ==> next.focus_split == Some((n + 1) as usize),
        n + 1 == a.split@.len() ==> next.focus_split == Some(0usize),
{
}

/// Selecting the previous split bar undoes selecting the next one, and the
/// other way round: from bar `n` of `count`, next then previous (or
/// previous then next) comes back to `n`.
pub proof fn lemma_prev_split_undoes_next(
    a: SplitState,
    b: SplitState,
    c: SplitState,
    d: SplitState,
    e: SplitState,
    n: usize,
)
    requires
        a.focus_split == Some(n),
        n < a.split@.len() <= usize::MAX,
        b.focus_split == next_split_spec(a.focus_split, a.split@.len()),
        b.split@ == a.split@,
        (b.split@.len() > 0 || (b.focus_split matches Some(k) && k > 0)) && c.focus_split == prev_split_spec(
            b.focus_split,
            b.split@.len(),
        ),
        (a.split@.len() > 0 || (a.focus_split matches Some(k) && k > 0)) && d.focus_split == prev_split_spec(
            a.focus_split,
            a.split@.len(),
        ),
        d.split@ == a.split@,
        e.focus_split == next_split_spec(d.focus_split, d.split@.len()),
    ensures
        c.focus_split == Some(n),
        e.focus_split == Some(n),
{
}

impl SplitState {
    /// Move the nth split position to the left by `delta`.
    /// Does nothing if the direction is not matching.
    pub fn move_split_left(&mut self, n: usize, delta: u16) -> (r: bool)
        requires
            n < old(self).split@.len(),
            old(self).direction == Direction::Horizontal ==> n + 1 < old(self).areas@.len()
                && moved_split_fits(
                old(self).direction,
                old(self).split_type,
                old(self).areas@[n as int],
                old(self).areas@[n + 1],
                (sat_sub(old(self).split@[n as int].x, delta), old(self).split@[n as int].y),
            ),
        ensures
            old(self).direction == Direction::Horizontal ==> ({
                let (a, s, b) = moved_split(
                    old(self).direction,
                    old(self).split_type,
                    old(self).areas@[n as int],
                    old(self).areas@[n + 1],
                    (sat_sub(old(self).split@[n as int].x, delta), old(self).split@[n as int].y),
                );
                &&& final(self).areas@ == old(self).areas@.update(n as int, a).update(n + 1, b)
                &&& final(self).split@ == old(self).split@.update(n as int, s)
                &&& r == (a != old(self).areas@[n as int] || b != old(self).areas@[n + 1])
            }),
            old(self).direction != Direction::Horizontal ==> !r && final(self).areas@ == old(self).areas@
                && final(self).split@ == old(self).split@,
            final(self).direction == old(self).direction,
            final(self).split_type == old(self).split_type,
            final(self).focus_split == old(self).focus_split,
            final(self).area == old(self).area,
            final(self).inner == old(self).inner,
    {
        let split = self.split[n];
        if self.direction == Direction::Horizontal {
            self.set_screen_split_pos(n, (split.left().saturating_sub(delta), split.y))
        } else {
            false
        }
    }

    /// Move the nth split position to the right: to `delta` columns past the
    /// bar's right edge. As the bar is one column wide, this moves it by
    /// `delta + 1`, one more than `move_split_left` moves it the other way.
    /// Does nothing if the direction is not matching.
    pub fn move_split_right(&mut self, n: usize, delta: u16) -> (r: bool)
        requires
            n < old(self).split@.len(),
            old(self).direction == Direction::Horizontal ==> n + 1 < old(self).areas@.len()
                && old(self).split@[n as int].spec_right() + delta <= u16::MAX
                && moved_split_fits(
                old(self).direction,
                old(self).split_type,
                old(self).areas@[n as int],
                old(self).areas@[n + 1],
                ((old(self).split@[n as int].spec_right() + delta) as u16, old(self).split@[n as int].y),
            ),
        ensures
            old(self).direction == Direction::Horizontal ==> ({
                let (a, s, b) = moved_split(
                    old(self).direction,
                    old(self).split_type,
                    old(self).areas@[n as int],
                    old(self).areas@[n + 1],
                    ((old(self).split@[n as int].spec_right() + delta) as u16, old(self).split@[n as int].y),
                );
                &&& final(self).areas@ == old(self).areas@.update(n as int, a).update(n + 1, b)
                &&& final(self).split@ == old(self).split@.update(n as int, s)
                &&& r == (a != old(self).areas@[n as int] || b != old(self).areas@[n + 1])
            }),
            old(self).direction != Direction::Horizontal ==> !r && final(self).areas@ == old(self).areas@
                && final(self).split@ == old(self).split@,
            final(self).direction == old(self).direction,
            final(self).split_type == old(self).split_type,
            final(self).focus_split == old(self).focus_split,
            final(self).area == old(self).area,
            final(self).inner == old(self).inner,
    {
        let split = self.split[n];
        if self.direction == Direction::Horizontal {
            self.set_screen_split_pos(n, (split.right() + delta, split.y))
        } else {
            false
        }
    }

    /// Move the nth split position up by `delta`.
    /// Does nothing if the direction is not matching.
    pub fn move_split_up(&mut self, n: usize, delta: u16) -> (r: bool)
        requires
            n < old(self).split@.len(),
            old(self).direction == Direction::Vertical ==> n + 1 < old(self).areas@.len()
                && moved_split_fits(
                old(self).direction,
                old(self).split_type,
                old(self).areas@[n as int],
                old(self).areas@[n + 1],
                (old(self).split@[n as int].x, sat_sub(old(self).split@[n as int].y, delta)),
            ),
        ensures
            old(self).direction == Direction::Vertical ==> ({
                let (a, s, b) = moved_split(
                    old(self).direction,
                    old(self).split_type,
                    old(self).areas@[n as int],
                    old(self).areas@[n + 1],
                    (old(self).split@[n as int].x, sat_sub(old(self).split@[n as int].y, delta)),
                );
                &&& final(self).areas@ == old(self).areas@.update(n as int, a).update(n + 1, b)
                &&& final(self).split@ == old(self).split@.update(n as int, s)
                &&& r == (a != old(self).areas@[n as int] || b != old(self).areas@[n + 1])
            }),
            old(self).direction != Direction::Vertical ==> !r && final(self).areas@ == old(self).areas@
                && final(self).split@ == old(self).split@,
            final(self).direction == old(self).direction,
            final(self).split_type == old(self).split_type,
            final(self).focus_split == old(self).focus_split,
            final(self).area == old(self).area,
            final(self).inner == old(self).inner,
    {
        let split = self.split[n];
        if self.direction == Direction::Vertical {
            self.set_screen_split_pos(n, (split.x, split.top().saturating_sub(delta)))
        } else {
            false
        }
    }

    /// Move the nth split position down: to `delta` rows past the bar's
    /// bottom edge, which moves it by `delta + 1`, one more than
    /// `move_split_up` moves it the other way.
    /// Does nothing if the direction is not matching.
    pub fn move_split_down(&mut self, n: usize, delta: u16) -> (r: bool)
        requires
            n < old(self).split@.len(),
            old(self).direction == Direction::Vertical ==> n + 1 < old(self).areas@.len()
                && old(self).split@[n as int].spec_bottom() + delta <= u16::MAX
                && moved_split_fits(
                old(self).direction,
                old(self).split_type,
                old(self).areas@[n as int],
                old(self).areas@[n + 1],
                (old(self).split@[n as int].x, (old(self).split@[n as int].spec_bottom() + delta) as u16),
            ),
        ensures
            old(self).direction == Direction::Vertical ==> ({
                let (a, s, b) = moved_split(
                    old(self).direction,
                    old(self).split_type,
                    old(self).areas@[n as int],
                    old(self).areas@[n + 1],
                    (old(self).split@[n as int].x, (old(self).split@[n as int].spec_bottom() + delta) as u16),
                );
                &&& final(self).areas@ == old(self).areas@.update(n as int, a).update(n + 1, b)
                &&& final(self).split@ == old(self).split@.update(n as int, s)
                &&& r == (a != old(self).areas@[n as int] || b != old(self).areas@[n + 1])
            }),
            old(self).direction != Direction::Vertical ==> !r && final(self).areas@ == old(self).areas@
                && final(self).split@ == old(self).split@,
            final(self).direction == old(self).direction,
            final(self).split_type == old(self).split_type,
            final(self).focus_split == old(self).focus_split,
            final(self).area == old(self).area,
            final(self).inner == old(self).inner,
    {
        let split = self.split[n];
        if self.direction == Direction::Vertical {
            self.set_screen_split_pos(n, (split.x, split.bottom() + delta))
        } else {
            false
        }
    }

    /// Select the next splitter for manual adjustment, if the splitter has
    /// the focus (read from the shared focus flag). Returns whether it did.
    pub fn select_next_split(&mut self) -> (r: bool)
        ensures
            r ==> final(self).focus_split == next_split_spec(old(self).focus_split, old(self).split@.len()),
            !r ==> final(self).focus_split == old(self).focus_split,
            final(self).areas@ == old(self).areas@,
            final(self).split@ == old(self).split@,
            final(self).direction == old(self).direction,
            final(self).split_type == old(self).split_type,
            final(self).area == old(self).area,
            final(self).inner == old(self).inner,
    {
        if focus_flag_get(&self.focus) {
            let n = match self.focus_split {
                Some(n) => n,
                None => 0,
            };
            if n >= self.split.len() || n + 1 >= self.split.len() {
                self.focus_split = Some(0);
            } else {
                self.focus_split = Some(n + 1);
            }
            true
        } else {
            false
        }
    }

    /// Select the previous splitter for manual adjustment, if the splitter
    /// has the focus (read from the shared focus flag). Returns whether it
    /// did. Without any split bar and with none or the first one selected,
    /// there is no previous one to select.
    pub fn select_prev_split(&mut self) -> (r: bool)
        ensures
            r ==> (old(self).split@.len() > 0 || (old(self).focus_split matches Some(n) && n > 0))
                && final(self).focus_split == prev_split_spec(old(self).focus_split, old(self).split@.len()),
            !r ==> final(self).focus_split == old(self).focus_split,
            final(self).areas@ == old(self).areas@,
            final(self).split@ == old(self).split@,
            final(self).direction == old(self).direction,
            final(self).split_type == old(self).split_type,
            final(self).area == old(self).area,
            final(self).inner == old(self).inner,
    {
        if focus_flag_get(&self.focus) {
            let n = match self.focus_split {
                Some(n) => n,
                None => 0,
            };
            if n == 0 {
                if self.split.len() == 0 {
                    return false;
                }
                self.focus_split = Some(self.split.len() - 1);
            } else {
                self.focus_split = Some(n - 1);
            }
            true
        } else {
            false
        }
    }
}

} // verus!

verus! {

/// Keys the splitter reacts to: an arrow, pressed alone or with CONTROL.
#[derive(Debug, Clone, Copy, PartialEq, Eq, Structural)]
pub enum SplitKey {
    Left,
    Right,
    Up,
    Down,
    CtrlLeft,
    CtrlRight,
    CtrlUp,
    CtrlDown,
}

/// An event for the splitter: one of its keys, a mouse event, or anything
/// else.
#[derive(Debug)]
pub enum SplitEvent {
    Key(SplitKey),
    Mouse(SplitMouse),
    Other,
}

/// A mouse event for the splitter: the event itself, which the mouse flags
/// read to follow a drag, and its column and row.
#[derive(Debug)]
pub struct SplitMouse {
    pub event: MouseEvent,
    pub column: u16,
    pub row: u16,
}

/// Areas, split bars, direction, type and outer areas agree.
pub open spec fn same_split_bars(a: SplitState, b: SplitState) -> bool {
    &&& a.areas@ == b.areas@
    &&& a.split@ == b.split@
    &&& a.direction == b.direction
    &&& a.split_type == b.split_type
    &&& a.area == b.area
    &&& a.inner == b.inner
}

/// As `same_split_bars`, and the same bar is selected.
pub open spec fn same_split_layout(a: SplitState, b: SplitState) -> bool {
    &&& same_split_bars(a, b)
    &&& a.focus_split == b.focus_split
}

/// `b` is `a` with split `n` moved to `pos`; `changed` tells whether one of
/// the two areas next to it changed.
pub open spec fn split_moved_to(a: SplitState, b: SplitState, n: int, pos: (u16, u16), changed: bool) -> bool {
    let (a1, s, a2) = moved_split(a.direction, a.split_type, a.areas@[n], a.areas@[n + 1], pos);
    &&& b.areas@ == a.areas@.update(n, a1).update(n + 1, a2)
    &&& b.split@ == a.split@.update(n, s)
    &&& changed == (a1 != a.areas@[n] || a2 != a.areas@[n + 1])
    &&& b.focus_split == a.focus_split
    &&& b.direction == a.direction
    &&& b.split_type == a.split_type
    &&& b.area == a.area
    &&& b.inner == a.inner
}

/// Split `n` can be moved to `pos`: both neighbouring areas and the bar
/// exist and the new rectangles stay within `u16`.
pub open spec fn split_movable(a: SplitState, n: int, pos: (u16, u16)) -> bool {
    &&& 0 <= n
    &&& n + 1 < a.areas@.len()
    &&& n < a.split@.len()
    &&& moved_split_fits(a.direction, a.split_type, a.areas@[n], a.areas@[n + 1], pos)
}

/// Where an arrow key moves bar `s` by one: left and right for a
/// horizontal split, up and down for a vertical one. `None` for an arrow
/// across the split direction.
pub open spec fn arrow_target(direction: Direction, key: SplitKey, s: Rect) -> Option<(u16, u16)> {
    match key {
        SplitKey::Left => if direction == Direction::Horizontal { Some((sat_sub(s.x, 1), s.y)) } else { None },
        SplitKey::Right => if direction == Direction::Horizontal {
            Some(((s.spec_right() + 1) as u16, s.y))
        } else {
            None
        },
        SplitKey::Up => if direction == Direction::Vertical { Some((s.x, sat_sub(s.y, 1))) } else { None },
        SplitKey::Down => if direction == Direction::Vertical {
            Some((s.x, (s.spec_bottom() + 1) as u16))
        } else {
            None
        },
        _ => None,
    }
}

/// The arrow key's move of bar `n` stays within the state: the bar exists,
/// and where the key moves it, the far edge plus one fits `u16` and the move
/// is `split_movable`.
pub open spec fn arrow_movable(a: SplitState, n: int, key: SplitKey) -> bool {
    &&& 0 <= n < a.split@.len()
    &&& (key == SplitKey::Right && a.direction == Direction::Horizontal) ==> a.split@[n].spec_right() + 1 <= u16::MAX
    &&& (key == SplitKey::Down && a.direction == Direction::Vertical) ==> a.split@[n].spec_bottom() + 1 <= u16::MAX
    &&& match arrow_target(a.direction, key, a.split@[n]) {
        Some(pos) => split_movable(a, n, pos),
        None => true,
    }
}

/// CONTROL-Left and CONTROL-Up select the next bar; CONTROL-Right and
/// CONTROL-Down the previous one.
pub open spec fn selects_next(key: SplitKey) -> bool {
    key == SplitKey::CtrlLeft || key == SplitKey::CtrlUp
}

/// A key press as the splitter handles it, from state `a` to state `b`
/// with outcome `r`, where `focused` tells whether it has the focus.
/// Without the focus or without a selected bar the key is not used. An
/// arrow moves the selected bar by one along the split direction
/// (`Unchanged` across it); CONTROL with an arrow selects the next or
/// previous bar (`Unchanged` if the focus flag is found cleared meanwhile).
/// A selected bar that does not exist, or a move that leaves `u16`, leaves
/// the key unused.
pub open spec fn split_key_step(a: SplitState, b: SplitState, focused: bool, key: SplitKey, r: Outcome) -> bool {
    match (focused, a.focus_split) {
        (true, Some(n)) => match key {
            SplitKey::Left | SplitKey::Right | SplitKey::Up | SplitKey::Down => if arrow_movable(a, n as int, key) {
                match arrow_target(a.direction, key, a.split@[n as int]) {
                    Some(pos) => exists|changed: bool|
                        split_moved_to(a, b, n as int, pos, changed) && r == (if changed {
                            Outcome::Changed
                        } else {
                            Outcome::Unchanged
                        }),
                    None => same_split_layout(a, b) && r == Outcome::Unchanged,
                }
            } else {
                same_split_layout(a, b) && r == Outcome::Continue
            },
            _ => if selects_next(key) {
                ||| (r == Outcome::Changed && b.focus_split == next_split_spec(a.focus_split, a.split@.len())
                    && same_split_bars(a, b))
                ||| (r == Outcome::Unchanged && same_split_layout(a, b))
            } else if a.split@.len() > 0 || n > 0 {
                ||| (r == Outcome::Changed && b.focus_split == prev_split_spec(a.focus_split, a.split@.len())
                    && same_split_bars(a, b))
                ||| (r == Outcome::Unchanged && same_split_layout(a, b))
            } else {
                same_split_layout(a, b) && r == Outcome::Continue
            },
        },
        _ => same_split_layout(a, b) && r == Outcome::Continue,
    }
}

/// A mouse event as the splitter handles it, from state `a` to state `b`
/// with outcome `r`, given what the mouse flags reported: the bar dragged
/// before the event (`was_dragged`), whether the event continues a drag
/// (`dragging`), the bar dragged now and the mouse position. A drag moves
/// that bar to the mouse position; the end of a drag asks for a repaint.
/// A dragged bar that cannot be moved there leaves the event unused.
pub open spec fn split_drag_step(
    a: SplitState,
    b: SplitState,
    was_dragged: Option<usize>,
    dragging: bool,
    dragged: Option<usize>,
    pos: (u16, u16),
    r: Outcome,
) -> bool {
    if dragging {
        match dragged {
            Some(n) => if split_movable(a, n as int, pos) {
                exists|changed: bool|
                    split_moved_to(a, b, n as int, pos, changed) && r == (if changed {
                        Outcome::Changed
                    } else {
                        Outcome::Unchanged
                    })
            } else {
                same_split_layout(a, b) && r == Outcome::Continue
            },
            None => same_split_layout(a, b) && r == Outcome::Continue,
        }
    } else {
        same_split_layout(a, b) && r == (if was_dragged is Some {
            Outcome::Changed
        } else {
            Outcome::Continue
        })
    }
}

/// Exec form of `clamp_split_pos`.
fn clamp_pos(full: bool, vertical: bool, want: u16, lo: u16, hi: u16) -> (r: u16)
    ensures
        r == clamp_split_pos(full, vertical, want, lo, hi),
{
    if want < lo {
        lo
    } else if full {
        if want >= hi { hi.saturating_sub(1) } else { want }
    } else if vertical {
        if want >= hi.saturating_sub(1) { hi.saturating_sub(2) } else { want }
    } else {
        if want >= hi { hi.saturating_sub(1) } else { want }
    }
}

/// Exec form of `moved_split_fits`.
fn move_fits(direction: Direction, t: SplitType, a1: Rect, a2: Rect, pos: (u16, u16)) -> (r: bool)
    ensures
        r == moved_split_fits(direction, t, a1, a2, pos),
{
    let u = a1.union(a2);
    let full = t.is_full();
    if direction == Direction::Horizontal {
        let p = clamp_pos(full, false, pos.0, u.left(), u.right());
        let p1: u32 = p as u32 + 1;
        let in_range = if full {
            a1.x <= p && p1 <= a2.right() as u32
        } else {
            a1.x as u32 <= p1 && p1 <= a2.right() as u32
        };
        let block_ok = t != SplitType::ScrollBlock || (a1.y as u32) + 1 <= 0xffff;
        p1 <= 0xffff && in_range && block_ok
    } else {
        let p = clamp_pos(full, true, pos.1, u.top(), u.bottom());
        let p1: u32 = p as u32 + 1;
        let in_range = if full {
            a1.y <= p && p1 <= a2.bottom() as u32
        } else {
            a1.y as u32 <= p1 && p1 <= a2.bottom() as u32
        };
        let block_ok = t != SplitType::ScrollBlock || (a1.x as u32) + 1 <= 0xffff;
        p1 <= 0xffff && in_range && block_ok
    }
}

impl SplitState {
    /// Whether split `n` can be moved to `pos` (see `split_movable`).
    fn movable(&self, n: usize, pos: (u16, u16)) -> (r: bool)
        ensures
            r == split_movable(*self, n as int, pos),
    {
        n < self.split.len() && self.areas.len() > 1 && n < self.areas.len() - 1
            && move_fits(self.direction, self.split_type, self.areas[n], self.areas[n + 1], pos)
    }

    /// Whether split bar `n` is drawn highlighted: it is being dragged (as
    /// the mouse flags report) or it is the selected bar.
    pub fn is_highlighted(&self, n: usize) -> (r: bool)
        ensures
            self.focus_split == Some(n) ==> r,
    {
        let dragged = mouse_flags_n_dragged(&self.mouse);
        let r = match dragged {
            Some(d) => d == n,
            None => false,
        } || match self.focus_split {
            Some(f) => f == n,
            None => false,
        };
        r
    }

    /// Handles a key press, where `focused` tells whether the splitter has
    /// the focus: see `split_key_step`.
    pub fn handle_key(&mut self, focused: bool, key: SplitKey) -> (r: Outcome)
        ensures
            split_key_step(*old(self), *final(self), focused, key, r),
    {
        let n = match self.focus_split {
            Some(n) => n,
            None => {
                return Outcome::Continue;
            },
        };
        if !focused {
            return Outcome::Continue;
        }
        match key {
            SplitKey::CtrlLeft | SplitKey::CtrlUp => {
                return Outcome::from(self.select_next_split());
            },
            SplitKey::CtrlRight | SplitKey::CtrlDown => {
                if self.split.len() == 0 && n == 0 {
                    return Outcome::Continue;
                }
                return Outcome::from(self.select_prev_split());
            },
            _ => {},
        }
        if n >= self.split.len() {
            return Outcome::Continue;
        }
        let s = self.split[n];
        let ghost before = *self;
        let changed = match key {
            SplitKey::Left => {
                if self.direction == Direction::Horizontal && !self.movable(n, (s.left().saturating_sub(1), s.y)) {
                    return Outcome::Continue;
                }
                self.move_split_left(n, 1)
            },
            SplitKey::Right => {
                if self.direction == Direction::Horizontal && (s.right() == u16::MAX || !self.movable(
                    n,
                    (s.right() + 1, s.y),
                )) {
                    return Outcome::Continue;
                }
                self.move_split_right(n, 1)
            },
            SplitKey::Up => {
                if self.direction == Direction::Vertical && !self.movable(n, (s.x, s.top().saturating_sub(1))) {
                    return Outcome::Continue;
                }
                self.move_split_up(n, 1)
            },
            _ => {
                if self.direction == Direction::Vertical && (s.bottom() == u16::MAX || !self.movable(
                    n,
                    (s.x, s.bottom() + 1),
                )) {
                    return Outcome::Continue;
                }
                self.move_split_down(n, 1)
            },
        };
        proof {
            if let Some(pos) = arrow_target(before.direction, key, before.split@[n as int]) {
                assert(split_moved_to(before, *self, n as int, pos, changed));
            }
        }
        Outcome::from(changed)
    }

    /// Handles what the mouse flags reported for a mouse event: see
    /// `split_drag_step`.
    pub fn handle_drag(&mut self, was_dragged: Option<usize>, dragging: bool, dragged: Option<usize>, pos: (u16, u16)) -> (r: Outcome)
        ensures
            split_drag_step(*old(self), *final(self), was_dragged, dragging, dragged, pos, r),
    {
        if dragging {
            match dragged {
                Some(n) => {
                    if self.movable(n, pos) {
                        let ghost before = *self;
                        let changed = self.set_screen_split_pos(n, pos);
                        assert(split_moved_to(before, *self, n as int, pos, changed));
                        Outcome::from(changed)
                    } else {
                        Outcome::Continue
                    }
                },
                None => Outcome::Continue,
            }
        } else if was_dragged.is_some() {
            Outcome::Changed
        } else {
            Outcome::Continue
        }
    }

    /// Handles a mouse event: the mouse flags decide whether it drags a
    /// split bar, then `handle_drag` does the rest.
    pub fn handle_mouse(&mut self, event: &SplitMouse) -> (r: Outcome)
        ensures
            exists|was_dragged: Option<usize>, dragging: bool, dragged: Option<usize>|
                split_drag_step(*old(self), *final(self), was_dragged, dragging, dragged, (event.column, event.row), r),
    {
        let was_dragged = mouse_flags_n_dragged(&self.mouse);
        let dragging = mouse_flags_n_drag(&self.mouse, &self.split, &event.event);
        let dragged = mouse_flags_n_dragged(&self.mouse);
        self.handle_drag(was_dragged, dragging, dragged, (event.column, event.row))
    }

    /// Handles an event; whether the splitter has the focus is read from
    /// its focus flag.
    pub fn handle(&mut self, event: &SplitEvent) -> (r: Outcome)
        ensures
            match event {
                SplitEvent::Key(key) => exists|focused: bool| split_key_step(*old(self), *final(self), focused, *key, r),
                SplitEvent::Mouse(m) => exists|was_dragged: Option<usize>, dragging: bool, dragged: Option<usize>|
                    split_drag_step(*old(self), *final(self), was_dragged, dragging, dragged, (m.column, m.row), r),
                SplitEvent::Other => same_split_layout(*old(self), *final(self)) && r == Outcome::Continue,
            },
    {
        match event {
            SplitEvent::Key(key) => {
                let focused = focus_flag_get(&self.focus);
                self.handle_key(focused, *key)
            },
            SplitEvent::Mouse(m) => self.handle_mouse(m),
            SplitEvent::Other => Outcome::Continue,
        }
    }
}

} // verus!

verus! {

/// Splits the area in multiple parts and allows changing the sizes.
///
/// The widget doesn't hold the rendered widgets; [`Split::layout`]
/// calculates all the areas, which are then found in `state.areas`.
#[derive(Debug)]
pub struct Split<'a> {
    pub direction: Direction,
    pub constraints: Vec<LayoutConstraint>,
    pub split_type: SplitType,
    pub join_0: Option<BorderType>,
    pub join_1: Option<BorderType>,
    pub block: Option<Block<'a>>,
    pub style: Style,
    pub arrow_style: Option<Style>,
    pub drag_style: Option<Style>,
    pub mark_0: Option<&'a str>,
    pub mark_1: Option<&'a str>,
}

/// Combined style for the splitter.
#[derive(Debug)]
pub struct SplitStyle {
    /// Base style
    pub style: Style,
    /// Arrow style.
    pub arrow_style: Option<Style>,
    /// Style while dragging.
    pub drag_style: Option<Style>,
    /// Marker for a horizontal split. Only the first 2 chars are used.
    pub mark_0: Option<&'static str>,
    /// Marker for a vertical split. Only the first 2 chars are used.
    pub mark_1: Option<&'static str>,
    pub non_exhaustive: NonExhaustive,
}

impl Default for SplitStyle {
    fn default() -> (r: Self)
        ensures
            r.arrow_style is None,
            r.drag_style is None,
            r.mark_0 is None,
            r.mark_1 is None,
    {
        Self {
            style: style_default(),
            arrow_style: None,
            drag_style: None,
            mark_0: None,
            mark_1: None,
            non_exhaustive: NonExhaustive,
        }
    }
}

impl<'a> Default for Split<'a> {
    fn default() -> (r: Self)
        ensures
            r.direction == Direction::Vertical,
            r.constraints@ == Seq::<LayoutConstraint>::empty(),
            r.split_type == SplitType::FullEmpty,
            r.join_0 is None,
            r.join_1 is None,
            r.block is None,
            r.arrow_style is None,
            r.drag_style is None,
            r.mark_0 is None,
            r.mark_1 is None,
    {
        Self {
            direction: Direction::Vertical,
            constraints: Vec::new(),
            split_type: SplitType::FullEmpty,
            join_0: None,
            join_1: None,
            block: None,
            style: style_default(),
            arrow_style: None,
            drag_style: None,
            mark_0: None,
            mark_1: None,
        }
    }
}

impl<'a> Split<'a> {
    /// New split, laid out horizontally.
    pub fn new() -> (r: Self)
        ensures
            r.direction == Direction::Horizontal,
            r.constraints@ == Seq::<LayoutConstraint>::empty(),
            r.split_type == SplitType::FullEmpty,
            r.join_0 is None,
            r.join_1 is None,
            r.block is None,
            r.arrow_style is None,
            r.drag_style is None,
            r.mark_0 is None,
            r.mark_1 is None,
    {
        Self { direction: Direction::Horizontal, ..Self::default() }
    }

    /// Constraints.
    pub fn constraints(self, constraints: Vec<LayoutConstraint>) -> (r: Self)
        ensures
            r == (Split { constraints, ..self }),
    {
        Split { constraints, ..self }
    }

    /// Layout direction of the widgets. `Horizontal` means the widgets
    /// are laid out beside each other, with a vertical split area in
    /// between.
    pub fn direction(self, direction: Direction) -> (r: Self)
        ensures
            r == (Split { direction, ..self }),
    {
        Split { direction, ..self }
    }

    /// Controls rendering of the splitter.
    pub fn split_type(self, split_type: SplitType) -> (r: Self)
        ensures
            r == (Split { split_type, ..self }),
    {
        Split { split_type, ..self }
    }

    /// Draw a join character between a Fullxxx split-type and the given
    /// border on the left/top side.
    pub fn join_0(self, border: BorderType) -> (r: Self)
        ensures
            r == (Split { join_0: Some(border), ..self }),
    {
        Split { join_0: Some(border), ..self }
    }

    /// Draw a join character between a Fullxxx split-type and the given
    /// border on the right/bottom side.
    pub fn join_1(self, border: BorderType) -> (r: Self)
        ensures
            r == (Split { join_1: Some(border), ..self }),
    {
        Split { join_1: Some(border), ..self }
    }

    /// Outer block.
    pub fn block(self, block: Block<'a>) -> (r: Self)
        ensures
            r == (Split { block: Some(block), ..self }),
    {
        Split { block: Some(block), ..self }
    }

    /// Set all styles.
    pub fn styles(self, styles: SplitStyle) -> (r: Self)
        ensures
            r == (Split {
                style: styles.style,
                drag_style: styles.drag_style,
                arrow_style: styles.arrow_style,
                mark_0: styles.mark_0,
                mark_1: styles.mark_1,
                ..self
            }),
    {
        Split {
            style: styles.style,
            drag_style: styles.drag_style,
            arrow_style: styles.arrow_style,
            mark_0: styles.mark_0,
            mark_1: styles.mark_1,
            ..self
        }
    }

    /// Style for the split area.
    pub fn style(self, style: Style) -> (r: Self)
        ensures
            r == (Split { style, ..self }),
    {
        Split { style, ..self }
    }

    /// Style for the arrows.
    pub fn arrow_style(self, style: Style) -> (r: Self)
        ensures
            r == (Split { arrow_style: Some(style), ..self }),
    {
        Split { arrow_style: Some(style), ..self }
    }

    /// Style while dragging the splitter.
    pub fn drag_style(self, style: Style) -> (r: Self)
        ensures
            r == (Split { drag_style: Some(style), ..self }),
    {
        Split { drag_style: Some(style), ..self }
    }

    /// First marker char for the splitter.
    pub fn mark_0(self, mark: &'a str) -> (r: Self)
        ensures
            r == (Split { mark_0: Some(mark), ..self }),
    {
        Split { mark_0: Some(mark), ..self }
    }

    /// Second marker char for the splitter.
    pub fn mark_1(self, mark: &'a str) -> (r: Self)
        ensures
            r == (Split { mark_1: Some(mark), ..self }),
    {
        Split { mark_1: Some(mark), ..self }
    }
}

/// The first marker: the one set, else `<` for a horizontal and `^` for a
/// vertical layout.
pub open spec fn mark_0_text(mark: Option<&str>, direction: Direction) -> Seq<char> {
    match mark {
        Some(m) => m@,
        None => if direction == Direction::Horizontal {
            "<"@
        } else {
            "^"@
        },
    }
}

/// The second marker: the one set, else `>` for a horizontal and `v` for a
/// vertical layout.
pub open spec fn mark_1_text(mark: Option<&str>, direction: Direction) -> Seq<char> {
    match mark {
        Some(m) => m@,
        None => if direction == Direction::Horizontal {
            ">"@
        } else {
            "v"@
        },
    }
}

/// The symbol that fills the split bar of a full split type: blank, or
/// the line of the type, drawn across the layout direction.
pub open spec fn fill_text(direction: Direction, t: SplitType) -> Option<Seq<char>> {
    let h = direction == Direction::Horizontal;
    match t {
        SplitType::FullEmpty => Some(" "@),
        SplitType::FullPlain => Some(if h { "\u{2502}"@ } else { "\u{2500}"@ }),
        SplitType::FullDouble => Some(if h { "\u{2551}"@ } else { "\u{2550}"@ }),
        SplitType::FullThick => Some(if h { "\u{2503}"@ } else { "\u{2501}"@ }),
        SplitType::FullQuadrantInside => Some(if h { "\u{258C}"@ } else { "\u{2580}"@ }),
        SplitType::FullQuadrantOutside => Some(if h { "\u{2590}"@ } else { "\u{2584}"@ }),
        _ => None,
    }
}

impl<'a> Split<'a> {
    /// The mark drawn in the first cell of a split bar.
    pub fn get_mark_0(&self) -> (r: &str)
        ensures
            r@ == mark_0_text(self.mark_0, self.direction),
    {
        if let Some(mark) = self.mark_0 {
            mark
        } else if self.direction == Direction::Horizontal {
            "<"
        } else {
            "^"
        }
    }

    /// The mark drawn in the second cell of a split bar.
    pub fn get_mark_1(&self) -> (r: &str)
        ensures
            r@ == mark_1_text(self.mark_1, self.direction),
    {
        if let Some(mark) = self.mark_1 {
            mark
        } else if self.direction == Direction::Horizontal {
            ">"
        } else {
            "v"
        }
    }

    /// The symbol a split bar is filled with, if any.
    pub fn get_fill(&self) -> (r: Option<&str>)
        ensures
            match r {
                Some(s) => fill_text(self.direction, self.split_type) == Some(s@),
                None => fill_text(self.direction, self.split_type) is None,
            },
    {
        match (self.direction, self.split_type) {
            (Direction::Horizontal, SplitType::FullEmpty) => Some(" "),
            (Direction::Vertical, SplitType::FullEmpty) => Some(" "),
            (Direction::Horizontal, SplitType::FullPlain) => Some("\u{2502}"),
            (Direction::Vertical, SplitType::FullPlain) => Some("\u{2500}"),
            (Direction::Horizontal, SplitType::FullDouble) => Some("\u{2551}"),
            (Direction::Vertical, SplitType::FullDouble) => Some("\u{2550}"),
            (Direction::Horizontal, SplitType::FullThick) => Some("\u{2503}"),
            (Direction::Vertical, SplitType::FullThick) => Some("\u{2501}"),
            (Direction::Horizontal, SplitType::FullQuadrantInside) => Some("\u{258C}"),
            (Direction::Vertical, SplitType::FullQuadrantInside) => Some("\u{2580}"),
            (Direction::Horizontal, SplitType::FullQuadrantOutside) => Some("\u{2590}"),
            (Direction::Vertical, SplitType::FullQuadrantOutside) => Some("\u{2584}"),
            (_, SplitType::Scroll) => None,
            (_, SplitType::ScrollBlock) => None,
            (_, SplitType::Widget) => None,
        }
    }
}

} // verus!

verus! {

/// The symbol that joins the split bar with the outer border on the
/// left/top side, for the layout direction, the border type and the split
/// type; `None` where no symbol fits.
pub open spec fn join_0_text(direction: Direction, border: BorderType, t: SplitType) -> Option<Seq<char>> {
    match (direction, border, t) {
        (
            Direction::Horizontal,
            BorderType::Plain | BorderType::Rounded,
            SplitType::FullPlain | SplitType::FullQuadrantInside | SplitType::FullQuadrantOutside | SplitType::FullEmpty | SplitType::Scroll | SplitType::ScrollBlock,
        ) => Some("\u{252C}"@),
        (
            Direction::Vertical,
            BorderType::Plain | BorderType::Rounded,
            SplitType::FullPlain | SplitType::FullQuadrantInside | SplitType::FullQuadrantOutside | SplitType::FullEmpty | SplitType::Scroll | SplitType::ScrollBlock,
        ) => Some("\u{251C}"@),
        (
            Direction::Horizontal,
            BorderType::Plain | BorderType::Rounded | BorderType::Thick,
            SplitType::FullDouble,
        ) => Some("\u{2565}"@),
        (
            Direction::Vertical,
            BorderType::Plain | BorderType::Rounded | BorderType::Thick,
            SplitType::FullDouble,
        ) => Some("\u{255E}"@),
        (
            Direction::Horizontal,
            BorderType::Plain | BorderType::Rounded,
            SplitType::FullThick,
        ) => Some("\u{2530}"@),
        (
            Direction::Vertical,
            BorderType::Plain | BorderType::Rounded,
            SplitType::FullThick,
        ) => Some("\u{251D}"@),
        (
            Direction::Horizontal,
            BorderType::Double,
            SplitType::FullPlain | SplitType::FullThick | SplitType::FullQuadrantInside | SplitType::FullQuadrantOutside | SplitType::FullEmpty | SplitType::Scroll | SplitType::ScrollBlock,
        ) => Some("\u{2564}"@),
        (
            Direction::Vertical,
            BorderType::Double,
            SplitType::FullPlain | SplitType::FullThick | SplitType::FullQuadrantInside | SplitType::FullQuadrantOutside | SplitType::FullEmpty | SplitType::Scroll | SplitType::ScrollBlock,
        ) => Some("\u{255F}"@),
        (
            Direction::Horizontal,
            BorderType::Double,
            SplitType::FullDouble,
        ) => Some("\u{2566}"@),
        (
            Direction::Vertical,
            BorderType::Double,
            SplitType::FullDouble,
        ) => Some("\u{2560}"@),
        (
            Direction::Horizontal,
            BorderType::Thick,
            SplitType::FullPlain | SplitType::FullQuadrantInside | SplitType::FullQuadrantOutside | SplitType::FullEmpty | SplitType::Scroll | SplitType::ScrollBlock,
        ) => Some("\u{252F}"@),
        (
            Direction::Vertical,
            BorderType::Thick,
            SplitType::FullPlain | SplitType::FullQuadrantInside | SplitType::FullQuadrantOutside | SplitType::FullEmpty | SplitType::Scroll | SplitType::ScrollBlock,
        ) => Some("\u{2520}"@),
        (
            Direction::Horizontal,
            BorderType::Thick,
            SplitType::FullThick,
        ) => Some("\u{2533}"@),
        (
            Direction::Vertical,
            BorderType::Thick,
            SplitType::FullThick,
        ) => Some("\u{2523}"@),
        (
            Direction::Horizontal,
            BorderType::QuadrantOutside,
            SplitType::FullEmpty,
        ) => Some("\u{2588}"@),
        (
            Direction::Vertical,
            BorderType::QuadrantOutside,
            SplitType::FullEmpty,
        ) => Some("\u{2588}"@),
        _ => None,
    }
}

/// The symbol that joins the split bar with the outer border on the
/// right/bottom side; `None` where no symbol fits.
pub open spec fn join_1_text(direction: Direction, border: BorderType, t: SplitType) -> Option<Seq<char>> {
    match (direction, border, t) {
        (
            Direction::Horizontal,
            BorderType::Plain | BorderType::Rounded,
            SplitType::FullPlain | SplitType::FullQuadrantInside | SplitType::FullQuadrantOutside | SplitType::FullEmpty | SplitType::Scroll | SplitType::ScrollBlock,
        ) => Some("\u{2534}"@),
        (
            Direction::Vertical,
            BorderType::Plain | BorderType::Rounded,
            SplitType::FullPlain | SplitType::FullQuadrantInside | SplitType::FullQuadrantOutside | SplitType::FullEmpty | SplitType::Scroll | SplitType::ScrollBlock,
        ) => Some("\u{2524}"@),
        (
            Direction::Horizontal,
            BorderType::Plain | BorderType::Rounded | BorderType::Thick,
            SplitType::FullDouble,
        ) => Some("\u{2568}"@),
        (
            Direction::Vertical,
            BorderType::Plain | BorderType::Rounded | BorderType::Thick,
            SplitType::FullDouble,
        ) => Some("\u{2561}"@),
        (
            Direction::Horizontal,
            BorderType::Plain | BorderType::Rounded,
            SplitType::FullThick,
        ) => Some("\u{2538}"@),
        (
            Direction::Vertical,
            BorderType::Plain | BorderType::Rounded,
            SplitType::FullThick,
        ) => Some("\u{2525}"@),
        (
            Direction::Horizontal,
            BorderType::Double,
            SplitType::FullPlain | SplitType::FullThick | SplitType::FullQuadrantInside | SplitType::FullQuadrantOutside | SplitType::FullEmpty | SplitType::Scroll | SplitType::ScrollBlock,
        ) => Some("\u{2567}"@),
        (
            Direction::Vertical,
            BorderType::Double,
            SplitType::FullPlain | SplitType::FullThick | SplitType::FullQuadrantInside | SplitType::FullQuadrantOutside | SplitType::FullEmpty | SplitType::Scroll | SplitType::ScrollBlock,
        ) => Some("\u{2562}"@),
        (
            Direction::Horizontal,
            BorderType::Double,
            SplitType::FullDouble,
        ) => Some("\u{2569}"@),
        (
            Direction::Vertical,
            BorderType::Double,
            SplitType::FullDouble,
        ) => Some("\u{2563}"@),
        (
            Direction::Horizontal,
            BorderType::Thick,
            SplitType::FullPlain | SplitType::FullQuadrantInside | SplitType::FullQuadrantOutside | SplitType::FullEmpty | SplitType::Scroll | SplitType::ScrollBlock,
        ) => Some("\u{2537}"@),
        (
            Direction::Vertical,
            BorderType::Thick,
            SplitType::FullPlain | SplitType::FullQuadrantInside | SplitType::FullQuadrantOutside | SplitType::FullEmpty | SplitType::Scroll | SplitType::ScrollBlock,
        ) => Some("\u{2528}"@),
        (
            Direction::Horizontal,
            BorderType::Thick,
            SplitType::FullThick,
        ) => Some("\u{253B}"@),
        (
            Direction::Vertical,
            BorderType::Thick,
            SplitType::FullThick,
        ) => Some("\u{252B}"@),
        (
            Direction::Horizontal,
            BorderType::QuadrantOutside,
            SplitType::FullEmpty,
        ) => Some("\u{2588}"@),
        (
            Direction::Vertical,
            BorderType::QuadrantOutside,
            SplitType::FullEmpty,
        ) => Some("\u{2588}"@),
        _ => None,
    }
}

/// The join symbol for the left/top side (see `join_0_text`).
pub fn join_0_symbol(direction: Direction, border: BorderType, t: SplitType) -> (r: Option<&'static str>)
    ensures
        match r {
            Some(s) => join_0_text(direction, border, t) == Some(s@),
            None => join_0_text(direction, border, t) is None,
        },
{
    match (direction, border, t) {
        (
            Direction::Horizontal,
            BorderType::Plain | BorderType::Rounded,
            SplitType::FullPlain | SplitType::FullQuadrantInside | SplitType::FullQuadrantOutside | SplitType::FullEmpty | SplitType::Scroll | SplitType::ScrollBlock,
        ) => Some("\u{252C}"),
        (
            Direction::Vertical,
            BorderType::Plain | BorderType::Rounded,
            SplitType::FullPlain | SplitType::FullQuadrantInside | SplitType::FullQuadrantOutside | SplitType::FullEmpty | SplitType::Scroll | SplitType::ScrollBlock,
        ) => Some("\u{251C}"),
        (
            Direction::Horizontal,
            BorderType::Plain | BorderType::Rounded | BorderType::Thick,
            SplitType::FullDouble,
        ) => Some("\u{2565}"),
        (
            Direction::Vertical,
            BorderType::Plain | BorderType::Rounded | BorderType::Thick,
            SplitType::FullDouble,
        ) => Some("\u{255E}"),
        (
            Direction::Horizontal,
            BorderType::Plain | BorderType::Rounded,
            SplitType::FullThick,
        ) => Some("\u{2530}"),
        (
            Direction::Vertical,
            BorderType::Plain | BorderType::Rounded,
            SplitType::FullThick,
        ) => Some("\u{251D}"),
        (
            Direction::Horizontal,
            BorderType::Double,
            SplitType::FullPlain | SplitType::FullThick | SplitType::FullQuadrantInside | SplitType::FullQuadrantOutside | SplitType::FullEmpty | SplitType::Scroll | SplitType::ScrollBlock,
        ) => Some("\u{2564}"),
        (
            Direction::Vertical,
            BorderType::Double,
            SplitType::FullPlain | SplitType::FullThick | SplitType::FullQuadrantInside | SplitType::FullQuadrantOutside | SplitType::FullEmpty | SplitType::Scroll | SplitType::ScrollBlock,
        ) => Some("\u{255F}"),
        (
            Direction::Horizontal,
            BorderType::Double,
            SplitType::FullDouble,
        ) => Some("\u{2566}"),
        (
            Direction::Vertical,
            BorderType::Double,
            SplitType::FullDouble,
        ) => Some("\u{2560}"),
        (
            Direction::Horizontal,
            BorderType::Thick,
            SplitType::FullPlain | SplitType::FullQuadrantInside | SplitType::FullQuadrantOutside | SplitType::FullEmpty | SplitType::Scroll | SplitType::ScrollBlock,
        ) => Some("\u{252F}"),
        (
            Direction::Vertical,
            BorderType::Thick,
            SplitType::FullPlain | SplitType::FullQuadrantInside | SplitType::FullQuadrantOutside | SplitType::FullEmpty | SplitType::Scroll | SplitType::ScrollBlock,
        ) => Some("\u{2520}"),
        (
            Direction::Horizontal,
            BorderType::Thick,
            SplitType::FullThick,
        ) => Some("\u{2533}"),
        (
            Direction::Vertical,
            BorderType::Thick,
            SplitType::FullThick,
        ) => Some("\u{2523}"),
        (
            Direction::Horizontal,
            BorderType::QuadrantOutside,
            SplitType::FullEmpty,
        ) => Some("\u{2588}"),
        (
            Direction::Vertical,
            BorderType::QuadrantOutside,
            SplitType::FullEmpty,
        ) => Some("\u{2588}"),
        _ => None,
    }
}

/// The join symbol for the right/bottom side (see `join_1_text`).
pub fn join_1_symbol(direction: Direction, border: BorderType, t: SplitType) -> (r: Option<&'static str>)
    ensures
        match r {
            Some(s) => join_1_text(direction, border, t) == Some(s@),
            None => join_1_text(direction, border, t) is None,
        },
{
    match (direction, border, t) {
        (
            Direction::Horizontal,
            BorderType::Plain | BorderType::Rounded,
            SplitType::FullPlain | SplitType::FullQuadrantInside | SplitType::FullQuadrantOutside | SplitType::FullEmpty | SplitType::Scroll | SplitType::ScrollBlock,
        ) => Some("\u{2534}"),
        (
            Direction::Vertical,
            BorderType::Plain | BorderType::Rounded,
            SplitType::FullPlain | SplitType::FullQuadrantInside | SplitType::FullQuadrantOutside | SplitType::FullEmpty | SplitType::Scroll | SplitType::ScrollBlock,
        ) => Some("\u{2524}"),
        (
            Direction::Horizontal,
            BorderType::Plain | BorderType::Rounded | BorderType::Thick,
            SplitType::FullDouble,
        ) => Some("\u{2568}"),
        (
            Direction::Vertical,
            BorderType::Plain | BorderType::Rounded | BorderType::Thick,
            SplitType::FullDouble,
        ) => Some("\u{2561}"),
        (
            Direction::Horizontal,
            BorderType::Plain | BorderType::Rounded,
            SplitType::FullThick,
        ) => Some("\u{2538}"),
        (
            Direction::Vertical,
            BorderType::Plain | BorderType::Rounded,
            SplitType::FullThick,
        ) => Some("\u{2525}"),
        (
            Direction::Horizontal,
            BorderType::Double,
            SplitType::FullPlain | SplitType::FullThick | SplitType::FullQuadrantInside | SplitType::FullQuadrantOutside | SplitType::FullEmpty | SplitType::Scroll | SplitType::ScrollBlock,
        ) => Some("\u{2567}"),
        (
            Direction::Vertical,
            BorderType::Double,
            SplitType::FullPlain | SplitType::FullThick | SplitType::FullQuadrantInside | SplitType::FullQuadrantOutside | SplitType::FullEmpty | SplitType::Scroll | SplitType::ScrollBlock,
        ) => Some("\u{2562}"),
        (
            Direction::Horizontal,
            BorderType::Double,
            SplitType::FullDouble,
        ) => Some("\u{2569}"),
        (
            Direction::Vertical,
            BorderType::Double,
            SplitType::FullDouble,
        ) => Some("\u{2563}"),
        (
            Direction::Horizontal,
            BorderType::Thick,
            SplitType::FullPlain | SplitType::FullQuadrantInside | SplitType::FullQuadrantOutside | SplitType::FullEmpty | SplitType::Scroll | SplitType::ScrollBlock,
        ) => Some("\u{2537}"),
        (
            Direction::Vertical,
            BorderType::Thick,
            SplitType::FullPlain | SplitType::FullQuadrantInside | SplitType::FullQuadrantOutside | SplitType::FullEmpty | SplitType::Scroll | SplitType::ScrollBlock,
        ) => Some("\u{2528}"),
        (
            Direction::Horizontal,
            BorderType::Thick,
            SplitType::FullThick,
        ) => Some("\u{253B}"),
        (
            Direction::Vertical,
            BorderType::Thick,
            SplitType::FullThick,
        ) => Some("\u{252B}"),
        (
            Direction::Horizontal,
            BorderType::QuadrantOutside,
            SplitType::FullEmpty,
        ) => Some("\u{2588}"),
        (
            Direction::Vertical,
            BorderType::QuadrantOutside,
            SplitType::FullEmpty,
        ) => Some("\u{2588}"),
        _ => None,
    }
}

/// Where the left/top join symbol goes: on the outer area's top row
/// (horizontal layout) or left column (vertical layout), in line with the
/// split bar.
pub open spec fn join_0_pos(direction: Direction, split_area: Rect, area: Rect) -> Position {
    if direction == Direction::Horizontal {
        Position { x: split_area.x, y: area.y }
    } else {
        Position { x: area.x, y: split_area.y }
    }
}

/// Where the right/bottom join symbol goes: on the outer area's last row
/// (horizontal layout) or last column (vertical layout).
pub open spec fn join_1_pos(direction: Direction, split_area: Rect, area: Rect) -> Position {
    if direction == Direction::Horizontal {
        Position { x: split_area.x, y: (area.y + area.height - 1) as u16 }
    } else {
        Position { x: (area.x + area.width - 1) as u16, y: split_area.y }
    }
}

impl<'a> Split<'a> {
    /// The join symbol for the left/top side of `split_area`, and where it
    /// goes.
    pub fn get_join_0(&self, split_area: Rect, state: &SplitState) -> (r: Option<(Position, &str)>)
        ensures
            match r {
                Some((p, s)) => self.join_0 matches Some(b) && join_0_text(self.direction, b, self.split_type)
                    == Some(s@) && p == join_0_pos(self.direction, split_area, state.area),
                None => self.join_0 matches Some(b) ==> join_0_text(self.direction, b, self.split_type) is None,
            },
    {
        let s: Option<&str> = if let Some(join_0) = self.join_0 {
            join_0_symbol(self.direction, join_0, self.split_type)
        } else {
            None
        };

        if let Some(s) = s {
            Some(
                (
                    match self.direction {
                        Direction::Horizontal => Position::new(split_area.x, state.area.y),
                        Direction::Vertical => Position::new(state.area.x, split_area.y),
                    },
                    s,
                ),
            )
        } else {
            None
        }
    }

    /// The join symbol for the right/bottom side of `split_area`, and where
    /// it goes.
    pub fn get_join_1(&self, split_area: Rect, state: &SplitState) -> (r: Option<(Position, &str)>)
        requires
            (self.join_1 matches Some(b) && join_1_text(self.direction, b, self.split_type) is Some) ==> {
                &&& self.direction == Direction::Horizontal ==> 1 <= state.area.y + state.area.height <= u16::MAX
                &&& self.direction == Direction::Vertical ==> 1 <= state.area.x + state.area.width <= u16::MAX
            },
        ensures
            match r {
                Some((p, s)) => self.join_1 matches Some(b) && join_1_text(self.direction, b, self.split_type)
                    == Some(s@) && p == join_1_pos(self.direction, split_area, state.area),
                None => self.join_1 matches Some(b) ==> join_1_text(self.direction, b, self.split_type) is None,
            },
    {
        let s: Option<&str> = if let Some(join_1) = self.join_1 {
            join_1_symbol(self.direction, join_1, self.split_type)
        } else {
            None
        };

        if let Some(s) = s {
            Some(
                (
                    match self.direction {
                        Direction::Horizontal => Position::new(
                            split_area.x,
                            state.area.y + state.area.height - 1,
                        ),
                        Direction::Vertical => Position::new(
                            state.area.x + state.area.width - 1,
                            split_area.y,
                        ),
                    },
                    s,
                ),
            )
        } else {
            None
        }
    }
}

} // verus!

verus! {

/// Extent of a rectangle along the direction.
pub open spec fn axis_len(direction: Direction, r: Rect) -> u16 {
    if direction == Direction::Horizontal {
        r.width
    } else {
        r.height
    }
}

/// Sum of the extents along the direction.
pub open spec fn sum_axis(direction: Direction, s: Seq<Rect>) -> nat
    decreases s.len(),
{
    if s.len() == 0 {
        0
    } else {
        sum_axis(direction, s.drop_last()) + axis_len(direction, s.last()) as nat
    }
}

/// One part's extent is no more than the sum.
pub proof fn lemma_axis_le_sum(direction: Direction, s: Seq<Rect>, i: int)
    requires
        0 <= i < s.len(),
    ensures
        axis_len(direction, s[i]) <= sum_axis(direction, s),
    decreases s.len(),
{
    if i < s.len() - 1 {
        lemma_axis_le_sum(direction, s.drop_last(), i);
    }
}

/// The length the parts had at the last layout: the parts, plus the split
/// bars for a full split type.
pub open spec fn old_length(direction: Direction, full: bool, areas: Seq<Rect>, split: Seq<Rect>) -> nat {
    sum_axis(direction, areas) + if full {
        sum_axis(direction, split)
    } else {
        0
    }
}

/// The constraints for a new layout that keeps the proportions of the old
/// one: each part gets a `Fill` of its old extent (with its split bar for
/// a full split type).
pub open spec fn refill_constraints(direction: Direction, full: bool, areas: Seq<Rect>, split: Seq<Rect>) -> Seq<LayoutConstraint> {
    Seq::new(
        areas.len(),
        |i: int|
            LayoutConstraint::Fill(
                if full && i < split.len() {
                    (axis_len(direction, areas[i]) + axis_len(direction, split[i])) as u16
                } else {
                    axis_len(direction, areas[i])
                },
            ),
    )
}

/// The old sums fit into `u16`, as the length computation needs.
pub open spec fn old_length_fits(direction: Direction, full: bool, areas: Seq<Rect>, split: Seq<Rect>) -> bool {
    areas.len() > 0 ==> {
        &&& sum_axis(direction, areas) <= u16::MAX
        &&& full ==> sum_axis(direction, split) <= u16::MAX && old_length(direction, full, areas, split) <= u16::MAX
    }
}

/// The split bar cut from the end of a part: its last column (horizontal)
/// or last row (vertical).
pub open spec fn raw_split(direction: Direction, a: Rect) -> Rect {
    if direction == Direction::Horizontal {
        rect_new((a.x + sat_sub(a.width, 1)) as u16, a.y, 1, a.height)
    } else {
        rect_new(a.x, (a.y + sat_sub(a.height, 1)) as u16, a.width, 1)
    }
}

/// A part and its split bar adjusted for the split type: full types give
/// the bar's column/row up from the part; scroll types make the bar two
/// cells long (inset by one for `ScrollBlock`); `Widget` keeps both.
pub open spec fn adjusted(direction: Direction, t: SplitType, area: Rect, split: Rect) -> (Rect, Rect) {
    let h = direction == Direction::Horizontal;
    if is_full_type(t) {
        if h {
            (Rect { width: sat_sub(area.width, 1), ..area }, split)
        } else {
            (Rect { height: sat_sub(area.height, 1), ..area }, split)
        }
    } else if t == SplitType::Scroll {
        if h {
            (area, Rect { height: 2, ..split })
        } else {
            (area, Rect { width: 2, ..split })
        }
    } else if t == SplitType::ScrollBlock {
        if h {
            (area, Rect { y: sat_add(split.y, 1), height: 2, ..split })
        } else {
            (area, Rect { x: sat_add(split.x, 1), width: 2, ..split })
        }
    } else {
        (area, split)
    }
}

/// The parts for new layout rectangles: all but the last one adjusted, the
/// last one as it is.
pub open spec fn piece_areas(direction: Direction, t: SplitType, rects: Seq<Rect>) -> Seq<Rect> {
    Seq::new(
        rects.len(),
        |i: int|
            if i < rects.len() - 1 {
                adjusted(direction, t, rects[i], raw_split(direction, rects[i])).0
            } else {
                rects[i]
            },
    )
}

/// The split bars for new layout rectangles: one after each part but the
/// last.
pub open spec fn piece_splits(direction: Direction, t: SplitType, rects: Seq<Rect>) -> Seq<Rect> {
    Seq::new(
        if rects.len() > 0 { (rects.len() - 1) as nat } else { 0 },
        |i: int| adjusted(direction, t, rects[i], raw_split(direction, rects[i])).1,
    )
}

/// Every part has the area's extent across the direction.
pub open spec fn cross_ok(direction: Direction, parts: Seq<Rect>, area: Rect) -> bool {
    forall|i: int| 0 <= i < parts.len() ==> cross_len(direction, #[trigger] parts[i]) == cross_len(direction, area)
}

/// The extent across the direction.
pub open spec fn cross_len(direction: Direction, r: Rect) -> u16 {
    if direction == Direction::Horizontal {
        r.height
    } else {
        r.width
    }
}

/// The rectangles with the extent across the direction set to the area's,
/// where a part does not have it already.
pub open spec fn cross_fixed(direction: Direction, s: Seq<Rect>, parts: Seq<Rect>, area: Rect) -> Seq<Rect> {
    if cross_ok(direction, parts, area) {
        s
    } else if direction == Direction::Horizontal {
        s.map_values(|r: Rect| Rect { height: area.height, ..r })
    } else {
        s.map_values(|r: Rect| Rect { width: area.width, ..r })
    }
}

/// A part fits the area: along the direction it lies inside it, and across
/// it starts where the area starts.
pub open spec fn part_fits(direction: Direction, r: Rect, area: Rect) -> bool {
    if direction == Direction::Horizontal {
        area.x <= r.x && r.x + r.width <= area.spec_right() && r.y == area.y
    } else {
        area.y <= r.y && r.y + r.height <= area.spec_bottom() && r.x == area.x
    }
}

/// All parts fit the area.
pub open spec fn parts_fit(direction: Direction, areas: Seq<Rect>, area: Rect) -> bool {
    forall|i: int| 0 <= i < areas.len() ==> part_fits(direction, #[trigger] areas[i], area)
}

/// Whether the layout has to be computed anew: the first time, after a
/// change of direction or split type, when the old parts do not fit the
/// area (it moved), or when the area's length differs from the old parts'
/// length.
pub open spec fn relayout(
    direction: Direction,
    t: SplitType,
    old_direction: Direction,
    old_type: SplitType,
    areas: Seq<Rect>,
    split: Seq<Rect>,
    area: Rect,
) -> bool {
    ||| areas.len() == 0
    ||| old_direction != direction || old_type != t
    ||| !parts_fit(direction, areas, area)
    ||| axis_len(old_direction, area) != old_length(old_direction, is_full_type(t), areas, split)
}

/// What the layout solver may return for `constraints` in `area`: a list
/// it can give for these arguments, one rectangle per constraint, each
/// inside the area along the direction, and each with the area's start and
/// extent across it.
pub open spec fn solver_result(direction: Direction, flex: LayoutFlex, constraints: Seq<LayoutConstraint>, area: Rect, rects: Seq<Rect>) -> bool {
    &&& solver_gave(direction, flex, constraints, area, rects)
    &&& rects.len() == constraints.len()
    &&& forall|k: int|
        0 <= k < rects.len() && direction == Direction::Horizontal ==> area.x <= #[trigger] rects[k].x && rects[k].x
            + rects[k].width <= area.spec_right() && rects[k].y == area.y && rects[k].height == area.height
    &&& forall|k: int|
        0 <= k < rects.len() && direction == Direction::Vertical ==> area.y <= #[trigger] rects[k].y && rects[k].y
            + rects[k].height <= area.spec_bottom() && rects[k].x == area.x && rects[k].width == area.width
}

/// What the solver wrapper states of its result is `solver_result`.
proof fn lemma_solver_result(direction: Direction, flex: LayoutFlex, cs: Seq<LayoutConstraint>, area: Rect, r: Seq<Rect>)
    requires
        solver_gave(direction, flex, cs, area, r),
        r.len() == cs.len(),
        forall|i: int|
            0 <= i < r.len() && direction == Direction::Horizontal ==> area.x <= #[trigger] r[i].x && r[i].x + r[i].width
                <= area.spec_right() && r[i].y == area.y && r[i].height == area.height,
        forall|i: int|
            0 <= i < r.len() && direction == Direction::Vertical ==> area.y <= #[trigger] r[i].y && r[i].y + r[i].height
                <= area.spec_bottom() && r[i].x == area.x && r[i].width == area.width,
    ensures
        solver_result(direction, flex, cs, area, r),
{
}

/// The constraints a new layout hands to the solver: the split's own the
/// first time, else a `Fill` of each old part's length (with its split bar
/// for a full split type), measured in the old direction.
pub open spec fn handed_constraints(
    constraints: Seq<LayoutConstraint>,
    t: SplitType,
    old_direction: Direction,
    areas: Seq<Rect>,
    split: Seq<Rect>,
) -> Seq<LayoutConstraint> {
    if areas.len() == 0 {
        constraints
    } else {
        refill_constraints(old_direction, is_full_type(t), areas, split)
    }
}

/// The flex a new layout hands to the solver: `Legacy` the first time,
/// else `Start`.
pub open spec fn handed_flex(areas: Seq<Rect>) -> LayoutFlex {
    if areas.len() == 0 {
        LayoutFlex::Legacy
    } else {
        LayoutFlex::Start
    }
}

/// The parts and split bars after a layout of `area`, where `rects` is what
/// the solver returned when the layout is computed anew.
pub open spec fn split_layout(
    direction: Direction,
    t: SplitType,
    old_direction: Direction,
    old_type: SplitType,
    areas: Seq<Rect>,
    split: Seq<Rect>,
    area: Rect,
    rects: Seq<Rect>,
) -> (Seq<Rect>, Seq<Rect>) {
    let (a1, s1) = if relayout(direction, t, old_direction, old_type, areas, split, area) {
        (piece_areas(direction, t, rects), piece_splits(direction, t, rects))
    } else {
        (areas, split)
    };
    (cross_fixed(direction, a1, a1, area), cross_fixed(direction, s1, a1, area))
}

/// `(new_areas, new_split)` is what a layout of `area` with the split's
/// `constraints` gives from the old state: when the layout is computed
/// anew, from a result of the solver for the handed constraints and flex;
/// else from the old parts and bars.
pub open spec fn laid_out(
    direction: Direction,
    t: SplitType,
    constraints: Seq<LayoutConstraint>,
    old_direction: Direction,
    old_type: SplitType,
    areas: Seq<Rect>,
    split: Seq<Rect>,
    area: Rect,
    new_areas: Seq<Rect>,
    new_split: Seq<Rect>,
) -> bool {
    if relayout(direction, t, old_direction, old_type, areas, split, area) {
        exists|rects: Seq<Rect>|
            #![trigger split_layout(direction, t, old_direction, old_type, areas, split, area, rects)]
            solver_result(
                direction,
                handed_flex(areas),
                handed_constraints(constraints, t, old_direction, areas, split),
                area,
                rects,
            ) && (new_areas, new_split) == split_layout(direction, t, old_direction, old_type, areas, split, area, rects)
    } else {
        (new_areas, new_split) == split_layout(direction, t, old_direction, old_type, areas, split, area, Seq::empty())
    }
}

/// A layout computed from the constraints (the first one) has one part
/// per constraint and one bar fewer; a layout that is not computed anew
/// keeps the number of parts and bars.
pub proof fn lemma_layout_counts(
    direction: Direction,
    t: SplitType,
    constraints: Seq<LayoutConstraint>,
    old_direction: Direction,
    old_type: SplitType,
    areas: Seq<Rect>,
    split: Seq<Rect>,
    area: Rect,
    new_areas: Seq<Rect>,
    new_split: Seq<Rect>,
)
    requires
        laid_out(direction, t, constraints, old_direction, old_type, areas, split, area, new_areas, new_split),
    ensures
        areas.len() == 0 ==> new_areas.len() == constraints.len() && new_split.len() == (if constraints.len() > 0 {
            constraints.len() - 1
        } else {
            0
        }),
        !relayout(direction, t, old_direction, old_type, areas, split, area) ==> new_areas.len() == areas.len()
            && new_split.len() == split.len(),
{
    if relayout(direction, t, old_direction, old_type, areas, split, area) {
        let rects = choose|rects: Seq<Rect>|
            #![trigger split_layout(direction, t, old_direction, old_type, areas, split, area, rects)]
            solver_result(
                direction,
                handed_flex(areas),
                handed_constraints(constraints, t, old_direction, areas, split),
                area,
                rects,
            ) && (new_areas, new_split) == split_layout(direction, t, old_direction, old_type, areas, split, area, rects);
        assert(split_layout(direction, t, old_direction, old_type, areas, split, area, rects) == (new_areas, new_split));
    }
}

/// After a layout every part lies inside the area, whatever the solver
/// returned.
pub proof fn lemma_layout_inside(
    direction: Direction,
    t: SplitType,
    constraints: Seq<LayoutConstraint>,
    old_direction: Direction,
    old_type: SplitType,
    areas: Seq<Rect>,
    split: Seq<Rect>,
    area: Rect,
    new_areas: Seq<Rect>,
    new_split: Seq<Rect>,
)
    requires
        laid_out(direction, t, constraints, old_direction, old_type, areas, split, area, new_areas, new_split),
    ensures
        parts_fit(direction, new_areas, area),
        forall|i: int| 0 <= i < new_areas.len() ==> rect_within(#[trigger] new_areas[i], area),
{
    let rects = if relayout(direction, t, old_direction, old_type, areas, split, area) {
        choose|rects: Seq<Rect>|
            #![trigger split_layout(direction, t, old_direction, old_type, areas, split, area, rects)]
            solver_result(
                direction,
                handed_flex(areas),
                handed_constraints(constraints, t, old_direction, areas, split),
                area,
                rects,
            ) && (new_areas, new_split) == split_layout(direction, t, old_direction, old_type, areas, split, area, rects)
    } else {
        Seq::empty()
    };
    assert(split_layout(direction, t, old_direction, old_type, areas, split, area, rects) == (new_areas, new_split));
    let a1 = if relayout(direction, t, old_direction, old_type, areas, split, area) {
        piece_areas(direction, t, rects)
    } else {
        areas
    };
    assert(new_areas == cross_fixed(direction, a1, a1, area));
    assert forall|i: int| 0 <= i < new_areas.len() implies part_fits(direction, #[trigger] new_areas[i], area)
        && rect_within(new_areas[i], area) by {
        assert(part_fits(direction, a1[i], area));
    }
}

/// Every prefix sum is at most the whole sum.
proof fn lemma_prefix_sum_le(direction: Direction, s: Seq<Rect>, i: int)
    requires
        0 <= i <= s.len(),
    ensures
        sum_axis(direction, s.take(i)) <= sum_axis(direction, s),
    decreases s.len(),
{
    if i < s.len() {
        lemma_prefix_sum_le(direction, s.drop_last(), i);
        assert(s.drop_last().take(i) =~= s.take(i));
    } else {
        assert(s.take(i) =~= s);
    }
}

/// Whether the sum of the extents along the direction fits `u16`.
fn sum_axis_fits(direction: Direction, s: &Vec<Rect>) -> (r: bool)
    ensures
        r == (sum_axis(direction, s@) <= u16::MAX),
{
    let mut acc: u32 = 0;
    let mut i: usize = 0;
    while i < s.len()
        invariant
            i <= s@.len(),
            acc == sum_axis(direction, s@.take(i as int)),
            acc <= u16::MAX,
        decreases s@.len() - i,
    {
        proof {
            assert(s@.take(i + 1).drop_last() =~= s@.take(i as int));
        }
        let v = if direction == Direction::Horizontal {
            s[i].width
        } else {
            s[i].height
        };
        acc = acc + v as u32;
        i = i + 1;
        if acc > 0xffff {
            proof {
                lemma_prefix_sum_le(direction, s@, i as int);
            }
            return false;
        }
    }
    proof {
        assert(s@.take(i as int) =~= s@);
    }
    true
}

/// Sum of the extents along the direction, computed in `u16`.
fn sum_axis_u16(direction: Direction, s: &Vec<Rect>) -> (r: u16)
    requires
        sum_axis(direction, s@) <= u16::MAX,
    ensures
        r == sum_axis(direction, s@),
{
    let mut acc: u16 = 0;
    let mut i: usize = 0;
    while i < s.len()
        invariant
            i <= s@.len(),
            sum_axis(direction, s@) <= u16::MAX,
            acc == sum_axis(direction, s@.take(i as int)),
        decreases s@.len() - i,
    {
        proof {
            assert(s@.take(i + 1).drop_last() =~= s@.take(i as int));
            lemma_prefix_sum_le(direction, s@, i + 1);
        }
        let v = if direction == Direction::Horizontal {
            s[i].width
        } else {
            s[i].height
        };
        acc = acc + v;
        i = i + 1;
    }
    proof {
        assert(s@.take(i as int) =~= s@);
    }
    acc
}

impl<'a> Split<'a> {
    /// Adjust area and split according to the split_type.
    fn adjust_for_split_type(&self, area: &mut Rect, split: &mut Rect)
        ensures
            (*final(area), *final(split)) == adjusted(self.direction, self.split_type, *old(area), *old(split)),
    {
        match (self.direction, self.split_type) {
            (
                Direction::Horizontal,
                SplitType::FullEmpty | SplitType::FullPlain | SplitType::FullDouble | SplitType::FullThick
                | SplitType::FullQuadrantInside | SplitType::FullQuadrantOutside,
            ) => {
                area.width = area.width.saturating_sub(1);
            },
            (
                Direction::Vertical,
                SplitType::FullEmpty | SplitType::FullPlain | SplitType::FullDouble | SplitType::FullThick
                | SplitType::FullQuadrantInside | SplitType::FullQuadrantOutside,
            ) => {
                area.height = area.height.saturating_sub(1);
            },
            (Direction::Horizontal, SplitType::Scroll) => {
                split.height = 2;
            },
            (Direction::Vertical, SplitType::Scroll) => {
                split.width = 2;
            },
            (Direction::Horizontal, SplitType::ScrollBlock) => {
                split.y = split.y.saturating_add(1);
                split.height = 2;
            },
            (Direction::Vertical, SplitType::ScrollBlock) => {
                split.x = split.x.saturating_add(1);
                split.width = 2;
            },
            (Direction::Horizontal, SplitType::Widget) => {},
            (Direction::Vertical, SplitType::Widget) => {},
        }
    }

    /// The new layout rectangles, if the layout has to be computed anew.
    fn new_split_areas(&self, area: Rect, state: &SplitState) -> (r: Option<Vec<Rect>>)
        requires
            old_length_fits(state.direction, is_full_type(self.split_type), state.areas@, state.split@),
        ensures
            r is Some <==> relayout(self.direction, self.split_type, state.direction, state.split_type, state.areas@, state.split@, area),
            r matches Some(v) ==> solver_result(
                self.direction,
                handed_flex(state.areas@),
                handed_constraints(self.constraints@, self.split_type, state.direction, state.areas@, state.split@),
                area,
                v@,
            ),
    {
        let anew = state.direction != self.direction || state.split_type != self.split_type || !parts_fit_exec(
            self.direction,
            &state.areas,
            area,
        );
        let full = self.split_type.is_full();

        if state.areas.len() == 0 {
            // initial
            let v = layout_split(self.direction, LayoutFlex::Legacy, &self.constraints, area);
            proof {
                lemma_solver_result(self.direction, LayoutFlex::Legacy, self.constraints@, area, v@);
            }
            Some(v)
        } else {
            // must use the old direction to get a correct value.
            let old_direction = state.direction;
            let mut old_length: u16 = sum_axis_u16(old_direction, &state.areas);
            if full {
                old_length = old_length + sum_axis_u16(old_direction, &state.split);
            }
            let area_length = if old_direction == Direction::Horizontal {
                area.width
            } else {
                area.height
            };

            if anew || area_length != old_length {
                let mut constraints: Vec<LayoutConstraint> = Vec::new();
                let mut i: usize = 0;
                while i < state.areas.len()
                    invariant
                        i <= state.areas@.len(),
                        old_direction == state.direction,
                        old_length_fits(old_direction, full, state.areas@, state.split@),
                        full == is_full_type(self.split_type),
                        state.areas@.len() > 0,
                        constraints@ == refill_constraints(old_direction, full, state.areas@, state.split@).take(i as int),
                    decreases state.areas@.len() - i,
                {
                    let la = if old_direction == Direction::Horizontal {
                        state.areas[i].width
                    } else {
                        state.areas[i].height
                    };
                    let c = if full && i < state.split.len() {
                        proof {
                            lemma_axis_le_sum(old_direction, state.areas@, i as int);
                            lemma_axis_le_sum(old_direction, state.split@, i as int);
                        }
                        let ls = if old_direction == Direction::Horizontal {
                            state.split[i].width
                        } else {
                            state.split[i].height
                        };
                        LayoutConstraint::Fill(la + ls)
                    } else {
                        LayoutConstraint::Fill(la)
                    };
                    constraints.push(c);
                    proof {
                        assert(constraints@ =~= refill_constraints(old_direction, full, state.areas@, state.split@).take(i + 1));
                    }
                    i = i + 1;
                }
                proof {
                    assert(constraints@ =~= refill_constraints(old_direction, full, state.areas@, state.split@));
                }
                let v = layout_split(self.direction, LayoutFlex::Start, &constraints, area);
                proof {
                    lemma_solver_result(self.direction, LayoutFlex::Start, constraints@, area, v@);
                }
                Some(v)
            } else {
                None
            }
        }
    }

    /// The parts and split bars for new layout rectangles.
    fn pieces(&self, rects: &Vec<Rect>) -> (r: (Vec<Rect>, Vec<Rect>))
        requires
            forall|k: int|
                0 <= k < rects@.len() && self.direction == Direction::Horizontal ==> #[trigger] rects@[k].x
                    + rects@[k].width <= u16::MAX,
            forall|k: int|
                0 <= k < rects@.len() && self.direction == Direction::Vertical ==> #[trigger] rects@[k].y
                    + rects@[k].height <= u16::MAX,
        ensures
            r.0@ == piece_areas(self.direction, self.split_type, rects@),
            r.1@ == piece_splits(self.direction, self.split_type, rects@),
    {
        let mut areas: Vec<Rect> = Vec::new();
        let mut splits: Vec<Rect> = Vec::new();
        let n = rects.len();
        let mut i: usize = 0;
        while i + 1 < n
            invariant
                n == rects@.len(),
                i <= n,
                n > 0 ==> i < n,
                areas@ == piece_areas(self.direction, self.split_type, rects@).take(i as int),
                splits@ == piece_splits(self.direction, self.split_type, rects@).take(i as int),
                forall|k: int|
                    0 <= k < rects@.len() && self.direction == Direction::Horizontal ==> #[trigger] rects@[k].x
                        + rects@[k].width <= u16::MAX,
                forall|k: int|
                    0 <= k < rects@.len() && self.direction == Direction::Vertical ==> #[trigger] rects@[k].y
                        + rects@[k].height <= u16::MAX,
            decreases n - i,
        {
            let mut a = rects[i];
            let mut split = if self.direction == Direction::Horizontal {
                Rect::new(a.x + a.width.saturating_sub(1), a.y, 1, a.height)
            } else {
                Rect::new(a.x, a.y + a.height.saturating_sub(1), a.width, 1)
            };
            self.adjust_for_split_type(&mut a, &mut split);
            areas.push(a);
            splits.push(split);
            proof {
                assert(areas@ =~= piece_areas(self.direction, self.split_type, rects@).take(i + 1));
                assert(splits@ =~= piece_splits(self.direction, self.split_type, rects@).take(i + 1));
            }
            i = i + 1;
        }
        if n > 0 {
            areas.push(rects[n - 1]);
        }
        proof {
            assert(areas@ =~= piece_areas(self.direction, self.split_type, rects@));
            assert(splits@ =~= piece_splits(self.direction, self.split_type, rects@));
        }
        (areas, splits)
    }

    /// Calculates the first layout according to the constraints.
    /// When a resize is detected, or the parts no longer lie in the area
    /// (it moved), the current area-width/height is used as Fill()
    /// constraint for the new layout, so the parts keep their proportions
    /// and are ready to render into the area.
    fn layout_split(&self, area: Rect, state: &mut SplitState)
        requires
            old_length_fits(old(state).direction, is_full_type(self.split_type), old(state).areas@, old(state).split@),
        ensures
            laid_out(
                self.direction,
                self.split_type,
                self.constraints@,
                old(state).direction,
                old(state).split_type,
                old(state).areas@,
                old(state).split@,
                area,
                final(state).areas@,
                final(state).split@,
            ),
            final(state).direction == self.direction,
            final(state).split_type == self.split_type,
            final(state).area == old(state).area,
            final(state).inner == old(state).inner,
            final(state).focus_split == old(state).focus_split,
    {
        let ghost mut witness = Seq::<Rect>::empty();
        // Areas changed, create areas and splits.
        if let Some(rects) = self.new_split_areas(area, state) {
            proof {
                witness = rects@;
            }
            let (areas, splits) = self.pieces(&rects);
            state.areas = areas;
            state.split = splits;
        }

        // Set 2nd dimension too, if necessary.
        if !cross_ok_exec(self.direction, &state.areas, area) {
            if self.direction == Direction::Horizontal {
                set_heights(&mut state.areas, area.height);
                set_heights(&mut state.split, area.height);
            } else {
                set_widths(&mut state.areas, area.width);
                set_widths(&mut state.split, area.width);
            }
        }

        state.direction = self.direction;
        state.split_type = self.split_type;
        assert((state.areas@, state.split@) == split_layout(
            self.direction,
            self.split_type,
            old(state).direction,
            old(state).split_type,
            old(state).areas@,
            old(state).split@,
            area,
            witness,
        ));
    }

    /// Just run all the layout for the widget.
    /// After this state.area has sensible data.
    /// Whether the state's last layout leaves `layout` in range (see
    /// `old_length_fits`): the extents of the parts, and of the split bars
    /// for a full split type, add up within `u16`.
    pub fn can_layout(&self, state: &SplitState) -> (r: bool)
        ensures
            r == old_length_fits(state.direction, is_full_type(self.split_type), state.areas@, state.split@),
    {
        if state.areas.len() == 0 {
            return true;
        }
        if !sum_axis_fits(state.direction, &state.areas) {
            return false;
        }
        if !self.split_type.is_full() {
            return true;
        }
        if !sum_axis_fits(state.direction, &state.split) {
            return false;
        }
        let a = sum_axis_u16(state.direction, &state.areas);
        let b = sum_axis_u16(state.direction, &state.split);
        a as u32 + b as u32 <= 0xffff
    }

    pub fn layout(&self, area: Rect, state: &mut SplitState)
        requires
            old_length_fits(old(state).direction, is_full_type(self.split_type), old(state).areas@, old(state).split@),
        ensures
            final(state).area == area,
            self.block is None ==> final(state).inner == area,
            laid_out(
                self.direction,
                self.split_type,
                self.constraints@,
                old(state).direction,
                old(state).split_type,
                old(state).areas@,
                old(state).split@,
                final(state).inner,
                final(state).areas@,
                final(state).split@,
            ),
            old(state).areas@.len() == 0 ==> final(state).areas@.len() == self.constraints@.len()
                && final(state).split@.len() == (if self.constraints@.len() > 0 {
                self.constraints@.len() - 1
            } else {
                0
            }),
            forall|i: int| 0 <= i < final(state).areas@.len() ==> rect_within(#[trigger] final(state).areas@[i], final(state).inner),
            final(state).direction == self.direction,
            final(state).split_type == self.split_type,
            final(state).focus_split == old(state).focus_split,
    {
        state.area = area;
        state.inner = block_inner_if_some(&self.block, area);
        let inner = state.inner;
        self.layout_split(inner, state);
        proof {
            lemma_layout_counts(
                self.direction,
                self.split_type,
                self.constraints@,
                old(state).direction,
                old(state).split_type,
                old(state).areas@,
                old(state).split@,
                inner,
                state.areas@,
                state.split@,
            );
            lemma_layout_inside(
                self.direction,
                self.split_type,
                self.constraints@,
                old(state).direction,
                old(state).split_type,
                old(state).areas@,
                old(state).split@,
                inner,
                state.areas@,
                state.split@,
            );
        }
    }
}

/// The selected bar as rendering leaves it: the first bar when the
/// splitter has the focus and none was selected, none without the focus.
pub open spec fn rendered_focus_split(focused: bool, selected: Option<usize>) -> Option<usize> {
    if focused {
        if selected is None {
            Some(0)
        } else {
            selected
        }
    } else {
        None
    }
}

impl<'a> Split<'a> {
    /// What rendering does to the state before it draws: the layout, then
    /// the selected bar as `rendered_focus_split` says, with the focus read
    /// from the state's focus flag.
    pub fn render_state(&self, area: Rect, state: &mut SplitState)
        requires
            old_length_fits(old(state).direction, is_full_type(self.split_type), old(state).areas@, old(state).split@),
        ensures
            final(state).area == area,
            self.block is None ==> final(state).inner == area,
            laid_out(
                self.direction,
                self.split_type,
                self.constraints@,
                old(state).direction,
                old(state).split_type,
                old(state).areas@,
                old(state).split@,
                final(state).inner,
                final(state).areas@,
                final(state).split@,
            ),
            old(state).areas@.len() == 0 ==> final(state).areas@.len() == self.constraints@.len()
                && final(state).split@.len() == (if self.constraints@.len() > 0 {
                self.constraints@.len() - 1
            } else {
                0
            }),
            forall|i: int| 0 <= i < final(state).areas@.len() ==> rect_within(#[trigger] final(state).areas@[i], final(state).inner),
            final(state).direction == self.direction,
            final(state).split_type == self.split_type,
            exists|focused: bool| final(state).focus_split == rendered_focus_split(focused, old(state).focus_split),
    {
        self.layout(area, state);
        let focused = focus_flag_get(&state.focus);
        if focused {
            if state.focus_split.is_none() {
                state.focus_split = Some(0);
            }
        } else {
            state.focus_split = None;
        }
        assert(state.focus_split == rendered_focus_split(focused, old(state).focus_split));
    }
}

/// Sets the height of every rectangle.
/// Whether every part has the area's extent across the direction.
fn cross_ok_exec(direction: Direction, parts: &Vec<Rect>, area: Rect) -> (r: bool)
    ensures
        r == cross_ok(direction, parts@, area),
{
    let mut i: usize = 0;
    while i < parts.len()
        invariant
            i <= parts@.len(),
            forall|k: int| 0 <= k < i ==> cross_len(direction, #[trigger] parts@[k]) == cross_len(direction, area),
        decreases parts@.len() - i,
    {
        let ok = if direction == Direction::Horizontal {
            parts[i].height == area.height
        } else {
            parts[i].width == area.width
        };
        if !ok {
            assert(cross_len(direction, parts@[i as int]) != cross_len(direction, area));
            return false;
        }
        i = i + 1;
    }
    true
}

/// Whether all parts fit the area (see `part_fits`).
fn parts_fit_exec(direction: Direction, areas: &Vec<Rect>, area: Rect) -> (r: bool)
    ensures
        r == parts_fit(direction, areas@, area),
{
    let right = area.right();
    let bottom = area.bottom();
    let mut i: usize = 0;
    while i < areas.len()
        invariant
            i <= areas@.len(),
            right == area.spec_right(),
            bottom == area.spec_bottom(),
            forall|k: int| 0 <= k < i ==> part_fits(direction, #[trigger] areas@[k], area),
        decreases areas@.len() - i,
    {
        let r = areas[i];
        let fits = if direction == Direction::Horizontal {
            area.x <= r.x && r.x as u32 + r.width as u32 <= right as u32 && r.y == area.y
        } else {
            area.y <= r.y && r.y as u32 + r.height as u32 <= bottom as u32 && r.x == area.x
        };
        if !fits {
            assert(!part_fits(direction, areas@[i as int], area));
            return false;
        }
        i = i + 1;
    }
    true
}

fn set_heights(rects: &mut Vec<Rect>, height: u16)
    ensures
        final(rects)@ == old(rects)@.map_values(|r: Rect| Rect { height, ..r }),
{
    let mut i: usize = 0;
    while i < rects.len()
        invariant
            i <= rects@.len(),
            rects@.len() == old(rects)@.len(),
            forall|k: int| 0 <= k < i ==> #[trigger] rects@[k] == (Rect { height, ..old(rects)@[k] }),
            forall|k: int| i <= k < rects@.len() ==> #[trigger] rects@[k] == old(rects)@[k],
        decreases rects@.len() - i,
    {
        let r = rects[i];
        rects.set(i, Rect { height, ..r });
        i = i + 1;
    }
    assert(rects@ =~= old(rects)@.map_values(|r: Rect| Rect { height, ..r }));
}

/// Sets the width of every rectangle.
fn set_widths(rects: &mut Vec<Rect>, width: u16)
    ensures
        final(rects)@ == old(rects)@.map_values(|r: Rect| Rect { width, ..r }),
{
    let mut i: usize = 0;
    while i < rects.len()
        invariant
            i <= rects@.len(),
            rects@.len() == old(rects)@.len(),
            forall|k: int| 0 <= k < i ==> #[trigger] rects@[k] == (Rect { width, ..old(rects)@[k] }),
            forall|k: int| i <= k < rects@.len() ==> #[trigger] rects@[k] == old(rects)@[k],
        decreases rects@.len() - i,
    {
        let r = rects[i];
        rects.set(i, Rect { width, ..r });
        i = i + 1;
    }
    assert(rects@ =~= old(rects)@.map_values(|r: Rect| Rect { width, ..r }));
}

} // verus!

verus! {

/// A bar moved to a position inside the two areas, before their last cell
/// along the direction, goes exactly there.
pub proof fn lemma_moved_split_goes_there(direction: Direction, t: SplitType, a1: Rect, a2: Rect, pos: (u16, u16))
    requires
        moved_split_fits(direction, t, a1, a2, pos),
        direction == Direction::Horizontal ==> a1.spec_union(a2).x <= pos.0 && pos.0 + 1 < a1.spec_union(a2).spec_right(),
        direction == Direction::Vertical ==> a1.spec_union(a2).y <= pos.1 && pos.1 + 1 < a1.spec_union(a2).spec_bottom(),
    ensures
        direction == Direction::Horizontal ==> moved_split(direction, t, a1, a2, pos).1.x == pos.0,
        direction == Direction::Vertical ==> moved_split(direction, t, a1, a2, pos).1.y == pos.1,
{
}

/// An arrow key along the split direction moves the selected bar by one
/// cell: left and up to one before it, right and down to one past its far
/// edge, wherever that lies inside the two areas before their last cell.
/// An arrow across the direction leaves everything as it is.
pub proof fn lemma_arrow_moves_bar_by_one(a: SplitState, b: SplitState, key: SplitKey, r: Outcome, n: usize)
    requires
        split_key_step(a, b, true, key, r),
        a.focus_split == Some(n),
        arrow_movable(a, n as int, key),
        key == SplitKey::Left || key == SplitKey::Right || key == SplitKey::Up || key == SplitKey::Down,
        n + 1 < a.areas@.len(),
    ensures
        ({
            let s = a.split@[n as int];
            let u = a.areas@[n as int].spec_union(a.areas@[n + 1]);
            &&& (a.direction == Direction::Horizontal && key == SplitKey::Left && u.x + 1 <= s.x && s.x < u.spec_right())
                ==> b.split@[n as int].x == s.x - 1
            &&& (a.direction == Direction::Horizontal && key == SplitKey::Right && u.x <= s.x + s.width + 1 && s.x
                + s.width + 2 < u.spec_right()) ==> b.split@[n as int].x == s.x + s.width + 1
            &&& (a.direction == Direction::Vertical && key == SplitKey::Up && u.y + 1 <= s.y && s.y < u.spec_bottom())
                ==> b.split@[n as int].y == s.y - 1
            &&& (a.direction == Direction::Vertical && key == SplitKey::Down && u.y <= s.y + s.height + 1 && s.y
                + s.height + 2 < u.spec_bottom()) ==> b.split@[n as int].y == s.y + s.height + 1
            &&& (a.direction == Direction::Horizontal && (key == SplitKey::Up || key == SplitKey::Down))
                ==> same_split_layout(a, b) && r == Outcome::Unchanged
            &&& (a.direction == Direction::Vertical && (key == SplitKey::Left || key == SplitKey::Right))
                ==> same_split_layout(a, b) && r == Outcome::Unchanged
        }),
{
    let s = a.split@[n as int];
    match arrow_target(a.direction, key, s) {
        Some(pos) => {
            let changed = choose|changed: bool|
                split_moved_to(a, b, n as int, pos, changed) && r == (if changed {
                    Outcome::Changed
                } else {
                    Outcome::Unchanged
                });
            assert(split_moved_to(a, b, n as int, pos, changed));
            let a1 = a.areas@[n as int];
            let a2 = a.areas@[n + 1];
            let u = a1.spec_union(a2);
            if (a.direction == Direction::Horizontal && pos.0 + 1 < u.spec_right() && u.x <= pos.0) || (a.direction
                == Direction::Vertical && pos.1 + 1 < u.spec_bottom() && u.y <= pos.1) {
                lemma_moved_split_goes_there(a.direction, a.split_type, a1, a2, pos);
            }
        },
        None => {},
    }
}

/// With the focus and a bar selected, CONTROL-Left and CONTROL-Up select
/// the next bar, CONTROL-Right and CONTROL-Down the previous one.
pub proof fn lemma_ctrl_arrows_select(a: SplitState, b: SplitState, key: SplitKey, r: Outcome, n: usize)
    requires
        split_key_step(a, b, true, key, r),
        a.focus_split == Some(n),
        n < a.split@.len() <= usize::MAX,
        r == Outcome::Changed,
        key == SplitKey::CtrlLeft || key == SplitKey::CtrlUp || key == SplitKey::CtrlRight || key == SplitKey::CtrlDown,
    ensures
        (key == SplitKey::CtrlLeft || key == SplitKey::CtrlUp) && n + 1 < a.split@.len() ==> b.focus_split == Some(
            (n + 1) as usize,
        ),
        (key == SplitKey::CtrlRight || key == SplitKey::CtrlDown) && n > 0 ==> b.focus_split == Some((n - 1) as usize),
        same_split_bars(a, b),
{
}

/// Moving a split of a non-full type keeps the two parts together: the
/// first still starts where it started, the second starts where the first
/// ends, and still ends where it ended.
pub proof fn lemma_moved_split_keeps_span(direction: Direction, t: SplitType, a1: Rect, a2: Rect, pos: (u16, u16))
    requires
        !is_full_type(t),
        moved_split_fits(direction, t, a1, a2, pos),
    ensures
        ({
            let (a, s, b) = moved_split(direction, t, a1, a2, pos);
            if direction == Direction::Horizontal {
                &&& a.x == a1.x
                &&& a.x + a.width == b.x
                &&& b.x + b.width == a2.spec_right()
                &&& s.x + 1 == b.x
            } else {
                &&& a.y == a1.y
                &&& a.y + a.height == b.y
                &&& b.y + b.height == a2.spec_bottom()
                &&& s.y + 1 == b.y
            }
        }),
{
}

/// Moving a split of a full type puts the split bar right after the first
/// part and right before the second.
pub proof fn lemma_moved_full_split_between(direction: Direction, t: SplitType, a1: Rect, a2: Rect, pos: (u16, u16))
    requires
        is_full_type(t),
        moved_split_fits(direction, t, a1, a2, pos),
    ensures
        ({
            let (a, s, b) = moved_split(direction, t, a1, a2, pos);
            if direction == Direction::Horizontal {
                &&& a.x == a1.x
                &&& a.x + a.width == s.x
                &&& s.x + 1 == b.x
                &&& b.x + b.width == a2.spec_right()
            } else {
                &&& a.y == a1.y
                &&& a.y + a.height == s.y
                &&& s.y + 1 == b.y
                &&& b.y + b.height == a2.spec_bottom()
            }
        }),
{
}

/// `inner` lies inside `outer`.
pub open spec fn rect_within(inner: Rect, outer: Rect) -> bool {
    &&& outer.x <= inner.x
    &&& inner.x + inner.width <= outer.x + outer.width
    &&& outer.y <= inner.y
    &&& inner.y + inner.height <= outer.y + outer.height
}

/// A moved split stays within the two adjacent areas: when the first area
/// comes first along the direction (and the far one ends last), and the
/// two together are at least two cells long in that direction, the bar's
/// position along the direction lies inside their union, and both new
/// areas lie inside it.
pub proof fn lemma_moved_split_inside_union(direction: Direction, t: SplitType, a1: Rect, a2: Rect, pos: (u16, u16))
    requires
        moved_split_fits(direction, t, a1, a2, pos),
        a1.x + a1.width <= u16::MAX,
        a1.y + a1.height <= u16::MAX,
        a2.x + a2.width <= u16::MAX,
        a2.y + a2.height <= u16::MAX,
        direction == Direction::Horizontal ==> a1.x <= a2.x && a1.spec_right() <= a2.spec_right(),
        direction == Direction::Vertical ==> a1.y <= a2.y && a1.spec_bottom() <= a2.spec_bottom(),
        direction == Direction::Horizontal ==> a1.spec_union(a2).width >= 2,
        direction == Direction::Vertical ==> a1.spec_union(a2).height >= 2,
    ensures
        ({
            let u = a1.spec_union(a2);
            let (a, s, b) = moved_split(direction, t, a1, a2, pos);
            &&& direction == Direction::Horizontal ==> u.x <= s.x < u.x + u.width
            &&& direction == Direction::Vertical ==> u.y <= s.y < u.y + u.height
            &&& rect_within(a, u)
            &&& rect_within(b, u)
        }),
{
}

} // verus!

verus! {

/// After a layout whose parts fill the area's length, a second layout of
/// the same area with the same settings changes nothing.
pub proof fn lemma_relayout_changes_nothing(
    direction: Direction,
    t: SplitType,
    constraints: Seq<LayoutConstraint>,
    old_direction: Direction,
    old_type: SplitType,
    areas: Seq<Rect>,
    split: Seq<Rect>,
    area: Rect,
    a: Seq<Rect>,
    s: Seq<Rect>,
    a2: Seq<Rect>,
    s2: Seq<Rect>,
)
    requires
        laid_out(direction, t, constraints, old_direction, old_type, areas, split, area, a, s),
        axis_len(direction, area) == old_length(direction, is_full_type(t), a, s),
        laid_out(direction, t, constraints, direction, t, a, s, area, a2, s2),
    ensures
        a2 == a,
        s2 == s,
{
    lemma_layout_inside(direction, t, constraints, old_direction, old_type, areas, split, area, a, s);
    let first = relayout(direction, t, old_direction, old_type, areas, split, area);
    let r1 = if first {
        choose|rects: Seq<Rect>|
            #![trigger split_layout(direction, t, old_direction, old_type, areas, split, area, rects)]
            solver_result(
                direction,
                handed_flex(areas),
                handed_constraints(constraints, t, old_direction, areas, split),
                area,
                rects,
            ) && (a, s) == split_layout(direction, t, old_direction, old_type, areas, split, area, rects)
    } else {
        Seq::empty()
    };
    assert(split_layout(direction, t, old_direction, old_type, areas, split, area, r1) == (a, s));
    let (a1, s1) = if first {
        (piece_areas(direction, t, r1), piece_splits(direction, t, r1))
    } else {
        (areas, split)
    };
    assert(a == cross_fixed(direction, a1, a1, area) && s == cross_fixed(direction, s1, a1, area));
    if a.len() == 0 {
        // Nothing was laid out: there were no constraints, and there are
        // none the second time either.
        assert(first);
        assert(r1.len() == 0);
        assert(areas.len() == 0);
        assert(constraints.len() == 0);
        let r2 = choose|rects: Seq<Rect>|
            #![trigger split_layout(direction, t, direction, t, a, s, area, rects)]
            solver_result(direction, handed_flex(a), handed_constraints(constraints, t, direction, a, s), area, rects)
                && (a2, s2) == split_layout(direction, t, direction, t, a, s, area, rects);
        assert(split_layout(direction, t, direction, t, a, s, area, r2) == (a2, s2));
        assert(r2.len() == 0);
        assert(a2 =~= a);
        assert(s2 =~= s);
    } else {
        assert(!relayout(direction, t, direction, t, a, s, area));
        assert(split_layout(direction, t, direction, t, a, s, area, Seq::empty()) == (a2, s2));
        assert(cross_ok(direction, a, area));
    }
}

} // verus!
