//! Placement of popup widgets relative to an anchor area, kept inside an
//! outer boundary, and the popup's active state.

use crate::_private::NonExhaustive;
use crate::geometry::{rect_new, sat_add_signed, sat_sub, saturating_add_signed, Padding, Position, Rect, Size};
use crate::outside::{
    block_inner_if_some, focus_flag_get, focus_flag_named, focus_flag_set, focus_flag_set_gained,
    focus_flag_set_lost, mouse_flags_default, scroll_state_clear_area, scroll_state_default,
    scroll_style_clone, scroll_styles, style_default,
};
use ratatui::style::Style;
use ratatui::widgets::Block;
use rat_event::util::MouseFlags;
use rat_focus::FocusFlag;
use rat_scrolled::{Scroll, ScrollState, ScrollStyle};
use vstd::prelude::*;

verus! {

/// Where a popup goes, relative to an anchor area or at a fixed position.
#[derive(Debug, Clone, Copy, PartialEq, Eq, Structural)]
pub enum PopupConstraint {
    /// Use the area as given.
    Unconstrained,
    /// Above the anchor, left aligned.
    Above(Rect),
    /// Above the anchor, left aligned.
    AboveLeft(Rect),
    /// Above the anchor, centered.
    AboveCenter(Rect),
    /// Above the anchor, right aligned.
    AboveRight(Rect),
    /// Below the anchor, left aligned.
    Below(Rect),
    /// Below the anchor, left aligned.
    BelowLeft(Rect),
    /// Below the anchor, centered.
    BelowCenter(Rect),
    /// Below the anchor, right aligned.
    BelowRight(Rect),
    /// Left of the anchor, top aligned.
    Left(Rect),
    /// Left of the anchor, top aligned.
    LeftTop(Rect),
    /// Left of the anchor, vertically centered.
    LeftMiddle(Rect),
    /// Left of the anchor, bottom aligned.
    LeftBottom(Rect),
    /// Right of the anchor, top aligned.
    Right(Rect),
    /// Right of the anchor, top aligned.
    RightTop(Rect),
    /// Right of the anchor, vertically centered.
    RightMiddle(Rect),
    /// Right of the anchor, bottom aligned.
    RightBottom(Rect),
    /// At the given position.
    Position(u16, u16),
    /// Above the anchor if there is room, else below.
    AboveOrBelow(Rect),
    /// Below the anchor if there is room within the boundary, else above.
    BelowOrAbove(Rect),
}

/// Start offset that centers `len` within `within`.
pub open spec fn center_spec(len: u16, within: u16) -> u16 {
    if within > len {
        ((within - len) / 2) as u16
    } else {
        0
    }
}

fn center(len: u16, within: u16) -> (r: u16)
    ensures
        r == center_spec(len, within),
{
    if within > len {
        (within - len) / 2
    } else {
        0
    }
}

/// The test that decides between above and below for `BelowOrAbove`.
pub open spec fn below_fits(rel: Rect, height: u16, offset_y: i16, boundary: Rect) -> bool {
    sat_add_signed((rel.spec_bottom() + height) as u16, offset_y) <= boundary.height
}

/// The placement arithmetic stays within `u16`, and an offset that has to
/// be mirrored can be negated.
pub open spec fn placement_fits(c: PopupConstraint, area: Rect, offset: (i16, i16), boundary: Rect) -> bool {
    match c {
        PopupConstraint::AboveCenter(rel) | PopupConstraint::BelowCenter(rel) => rel.x + center_spec(area.width, rel.width)
            <= u16::MAX,
        PopupConstraint::AboveRight(rel) | PopupConstraint::BelowRight(rel) => rel.x + sat_sub(rel.width, area.width)
            <= u16::MAX,
        PopupConstraint::LeftMiddle(rel) | PopupConstraint::RightMiddle(rel) => rel.y + center_spec(area.height, rel.height)
            <= u16::MAX,
        PopupConstraint::LeftBottom(rel) | PopupConstraint::RightBottom(rel) => rel.y + sat_sub(rel.height, area.height)
            <= u16::MAX,
        PopupConstraint::AboveOrBelow(_) => offset.1 != i16::MIN,
        PopupConstraint::BelowOrAbove(rel) => rel.spec_bottom() + area.height <= u16::MAX && (!below_fits(
            rel,
            area.height,
            offset.1,
            boundary,
        ) ==> offset.1 != i16::MIN),
        _ => true,
    }
}

/// Exec form of `placement_fits`.
fn fits(c: PopupConstraint, area: Rect, offset: (i16, i16), boundary: Rect) -> (r: bool)
    ensures
        r == placement_fits(c, area, offset, boundary),
{
    match c {
        PopupConstraint::AboveCenter(rel) | PopupConstraint::BelowCenter(rel) => rel.x as u32 + center(
            area.width,
            rel.width,
        ) as u32 <= 0xffff,
        PopupConstraint::AboveRight(rel) | PopupConstraint::BelowRight(rel) => rel.x as u32
            + rel.width.saturating_sub(area.width) as u32 <= 0xffff,
        PopupConstraint::LeftMiddle(rel) | PopupConstraint::RightMiddle(rel) => rel.y as u32 + center(
            area.height,
            rel.height,
        ) as u32 <= 0xffff,
        PopupConstraint::LeftBottom(rel) | PopupConstraint::RightBottom(rel) => rel.y as u32
            + rel.height.saturating_sub(area.height) as u32 <= 0xffff,
        PopupConstraint::AboveOrBelow(_) => offset.1 != i16::MIN,
        PopupConstraint::BelowOrAbove(rel) => {
            if rel.bottom() as u32 + area.height as u32 > 0xffff {
                false
            } else {
                let below = saturating_add_signed(rel.bottom() + area.height, offset.1) <= boundary.height;
                below || offset.1 != i16::MIN
            }
        },
        _ => true,
    }
}

/// The popup area placed by the constraint, before the offset, together
/// with the offset to apply (mirrored vertically when an `...OrAbove` /
/// `...OrBelow` constraint had to switch sides).
pub open spec fn placed(c: PopupConstraint, area: Rect, offset: (i16, i16), boundary: Rect) -> (Rect, (i16, i16)) {
    let w = area.width;
    let h = area.height;
    match c {
        PopupConstraint::Unconstrained => (area, offset),
        PopupConstraint::Above(rel) | PopupConstraint::AboveLeft(rel) => (
            rect_new(rel.x, sat_sub(rel.y, h), w, h),
            offset,
        ),
        PopupConstraint::AboveCenter(rel) => (
            rect_new((rel.x + center_spec(w, rel.width)) as u16, sat_sub(rel.y, h), w, h),
            offset,
        ),
        PopupConstraint::AboveRight(rel) => (
            rect_new((rel.x + sat_sub(rel.width, w)) as u16, sat_sub(rel.y, h), w, h),
            offset,
        ),
        PopupConstraint::Below(rel) | PopupConstraint::BelowLeft(rel) => (
            rect_new(rel.x, rel.spec_bottom(), w, h),
            offset,
        ),
        PopupConstraint::BelowCenter(rel) => (
            rect_new((rel.x + center_spec(w, rel.width)) as u16, rel.spec_bottom(), w, h),
            offset,
        ),
        PopupConstraint::BelowRight(rel) => (
            rect_new((rel.x + sat_sub(rel.width, w)) as u16, rel.spec_bottom(), w, h),
            offset,
        ),
        PopupConstraint::Left(rel) | PopupConstraint::LeftTop(rel) => (
            rect_new(sat_sub(rel.x, w), rel.y, w, h),
            offset,
        ),
        PopupConstraint::LeftMiddle(rel) => (
            rect_new(sat_sub(rel.x, w), (rel.y + center_spec(h, rel.height)) as u16, w, h),
            offset,
        ),
        PopupConstraint::LeftBottom(rel) => (
            rect_new(sat_sub(rel.x, w), (rel.y + sat_sub(rel.height, h)) as u16, w, h),
            offset,
        ),
        PopupConstraint::Right(rel) | PopupConstraint::RightTop(rel) => (
            rect_new(rel.spec_right(), rel.y, w, h),
            offset,
        ),
        PopupConstraint::RightMiddle(rel) => (
            rect_new(rel.spec_right(), (rel.y + center_spec(h, rel.height)) as u16, w, h),
            offset,
        ),
        PopupConstraint::RightBottom(rel) => (
            rect_new(rel.spec_right(), (rel.y + sat_sub(rel.height, h)) as u16, w, h),
            offset,
        ),
        PopupConstraint::Position(x, y) => (rect_new(x, y, w, h), offset),
        PopupConstraint::AboveOrBelow(rel) => if sat_add_signed(h, (-offset.1) as i16) < rel.y {
            (rect_new(rel.x, sat_sub(rel.y, h), w, h), offset)
        } else {
            (rect_new(rel.x, rel.spec_bottom(), w, h), (offset.0, (-offset.1) as i16))
        },
        PopupConstraint::BelowOrAbove(rel) => if below_fits(rel, h, offset.1, boundary) {
            (rect_new(rel.x, rel.spec_bottom(), w, h), offset)
        } else {
            (rect_new(rel.x, sat_sub(rel.y, h), w, h), (offset.0, (-offset.1) as i16))
        },
    }
}

/// The area moved by the offset, each coordinate held within `u16`.
pub open spec fn shifted(a: Rect, offset: (i16, i16)) -> Rect {
    Rect { x: sat_add_signed(a.x, offset.0), y: sat_add_signed(a.y, offset.1), ..a }
}

/// The area moved so that it does not start before the boundary, then
/// moved back (as far as it can go) when it reaches the boundary's right
/// or bottom edge.
pub open spec fn kept_in_sight(a: Rect, b: Rect) -> Rect {
    let x1 = if a.x < b.x { b.x } else { a.x };
    let r1 = Rect { x: x1, ..a };
    let x2 = if r1.spec_right() >= b.spec_right() {
        sat_sub(x1, sat_sub(r1.spec_right(), b.spec_right()))
    } else {
        x1
    };
    let y1 = if a.y < b.y { b.y } else { a.y };
    let r2 = Rect { x: x2, y: y1, ..a };
    let y2 = if r2.spec_bottom() >= b.spec_bottom() {
        sat_sub(y1, sat_sub(r2.spec_bottom(), b.spec_bottom()))
    } else {
        y1
    };
    Rect { x: x2, y: y2, ..a }
}

/// The area no wider and no higher than the boundary.
pub open spec fn fit_size(a: Rect, b: Rect) -> Rect {
    Rect {
        width: if a.width > b.width { b.width } else { a.width },
        height: if a.height > b.height { b.height } else { a.height },
        ..a
    }
}

/// The area cut where it still reaches past the boundary's right or bottom
/// edge.
pub open spec fn cut_to(a: Rect, b: Rect) -> Rect {
    let w = if a.spec_right() > b.spec_right() {
        sat_sub(a.width, (a.spec_right() - b.spec_right()) as u16)
    } else {
        a.width
    };
    let h = if a.spec_bottom() > b.spec_bottom() {
        sat_sub(a.height, (a.spec_bottom() - b.spec_bottom()) as u16)
    } else {
        a.height
    };
    Rect { width: w, height: h, ..a }
}

/// The popup area computed from the constraint, the offset, the requested
/// area and the boundary.
pub open spec fn popup_layout(c: PopupConstraint, offset: (i16, i16), area: Rect, boundary: Rect) -> Rect {
    let (p, off) = placed(c, area, offset, boundary);
    cut_to(kept_in_sight(fit_size(shifted(p, off), boundary), boundary), boundary)
}

} // verus!

verus! {

/// Provides the core for popup widgets.
///
/// Calculates the placement of a popup widget from the constraint, the
/// offset and the outer boundary. Rendering the content is up to the user.
#[derive(Debug)]
pub struct PopupCore<'a> {
    pub style: Style,
    pub constraint: PopupConstraint,
    pub offset: (i16, i16),
    pub boundary_area: Option<Rect>,
    pub block: Option<Block<'a>>,
    pub h_scroll: Option<Scroll<'a>>,
    pub v_scroll: Option<Scroll<'a>>,
}

/// Complete styles for the popup.
#[derive(Debug)]
pub struct PopupStyle {
    /// Baseline style.
    pub style: Style,
    /// Extra offset added after applying the constraints.
    pub offset: Option<(i16, i16)>,
    /// Block for the popup.
    pub block: Option<Block<'static>>,
    /// Style for scroll bars.
    pub scroll: Option<ScrollStyle>,
    /// non-exhaustive struct.
    pub non_exhaustive: NonExhaustive,
}

impl<'a> Default for PopupCore<'a> {
    fn default() -> (r: Self)
        ensures
            r.constraint == PopupConstraint::Unconstrained,
            r.offset == (0i16, 0i16),
            r.boundary_area is None,
            r.block is None,
            r.h_scroll is None,
            r.v_scroll is None,
    {
        Self {
            style: style_default(),
            constraint: PopupConstraint::Unconstrained,
            offset: (0, 0),
            boundary_area: None,
            block: None,
            h_scroll: None,
            v_scroll: None,
        }
    }
}

impl Default for PopupStyle {
    fn default() -> (r: Self)
        ensures
            r.offset is None,
            r.block is None,
            r.scroll is None,
    {
        Self { style: style_default(), offset: None, block: None, scroll: None, non_exhaustive: NonExhaustive }
    }
}

impl<'a> PopupCore<'a> {
    /// New.
    pub fn new() -> (r: Self)
        ensures
            r.constraint == PopupConstraint::Unconstrained,
            r.offset == (0i16, 0i16),
            r.boundary_area is None,
            r.block is None,
            r.h_scroll is None,
            r.v_scroll is None,
    {
        Self::default()
    }

    /// Placement of the popup widget.
    pub fn constraint(self, constraint: PopupConstraint) -> (r: Self)
        ensures
            r == (PopupCore { constraint, ..self }),
    {
        PopupCore { constraint: constraint, ..self }
    }

    /// Adds an extra offset to the widget area.
    pub fn offset(self, offset: (i16, i16)) -> (r: Self)
        ensures
            r == (PopupCore { offset, ..self }),
    {
        PopupCore { offset: offset, ..self }
    }

    /// Sets only the x offset.
    pub fn x_offset(self, offset: i16) -> (r: Self)
        ensures
            r == (PopupCore { offset: (offset, self.offset.1), ..self }),
    {
        PopupCore { offset: (offset, self.offset.1), ..self }
    }

    /// Sets only the y offset.
    pub fn y_offset(self, offset: i16) -> (r: Self)
        ensures
            r == (PopupCore { offset: (self.offset.0, offset), ..self }),
    {
        PopupCore { offset: (self.offset.0, offset), ..self }
    }

    /// Sets outer boundaries for the resulting widget.
    pub fn boundary(self, boundary: Rect) -> (r: Self)
        ensures
            r == (PopupCore { boundary_area: Some(boundary), ..self }),
    {
        PopupCore { boundary_area: Some(boundary), ..self }
    }

    /// Sets outer boundaries for the resulting widget.
    pub fn boundary_opt(self, boundary: Option<Rect>) -> (r: Self)
        ensures
            r == (PopupCore { boundary_area: boundary, ..self }),
    {
        PopupCore { boundary_area: boundary, ..self }
    }

    /// Set styles: base style, offset and block where given; the scroll
    /// style goes to the scroll bars that are present.
    pub fn styles(self, styles: PopupStyle) -> (r: Self)
        ensures
            r.style == styles.style,
            r.constraint == self.constraint,
            r.boundary_area == self.boundary_area,
            r.offset == (match styles.offset {
                Some(o) => o,
                None => self.offset,
            }),
            r.block == (match styles.block {
                Some(b) => Some(b),
                None => self.block,
            }),
            styles.scroll is None ==> r.h_scroll == self.h_scroll && r.v_scroll == self.v_scroll,
            r.h_scroll is Some <==> self.h_scroll is Some,
            r.v_scroll is Some <==> self.v_scroll is Some,
    {
        let mut s = self;
        s.style = styles.style;
        if let Some(offset) = styles.offset {
            s.offset = offset;
        }
        if let Some(block) = styles.block {
            s.block = Some(block);
        }
        if let Some(st) = styles.scroll {
            s.h_scroll = match s.h_scroll.take() {
                Some(h_scroll) => Some(scroll_styles(h_scroll, scroll_style_clone(&st))),
                None => None,
            };
            s.v_scroll = match s.v_scroll.take() {
                Some(v_scroll) => Some(scroll_styles(v_scroll, st)),
                None => None,
            };
        }
        s
    }

    /// Base style for the popup.
    pub fn style(self, style: Style) -> (r: Self)
        ensures
            r == (PopupCore { style, ..self }),
    {
        PopupCore { style: style, ..self }
    }

    /// Block
    pub fn block(self, block: Block<'a>) -> (r: Self)
        ensures
            r == (PopupCore { block: Some(block), ..self }),
    {
        PopupCore { block: Some(block), ..self }
    }

    /// Block
    pub fn block_opt(self, block: Option<Block<'a>>) -> (r: Self)
        ensures
            r == (PopupCore { block, ..self }),
    {
        PopupCore { block: block, ..self }
    }

    /// Horizontal scroll
    pub fn h_scroll(self, h_scroll: Scroll<'a>) -> (r: Self)
        ensures
            r == (PopupCore { h_scroll: Some(h_scroll), ..self }),
    {
        PopupCore { h_scroll: Some(h_scroll), ..self }
    }

    /// Horizontal scroll
    pub fn h_scroll_opt(self, h_scroll: Option<Scroll<'a>>) -> (r: Self)
        ensures
            r == (PopupCore { h_scroll, ..self }),
    {
        PopupCore { h_scroll: h_scroll, ..self }
    }

    /// Vertical scroll
    pub fn v_scroll(self, v_scroll: Scroll<'a>) -> (r: Self)
        ensures
            r == (PopupCore { v_scroll: Some(v_scroll), ..self }),
    {
        PopupCore { v_scroll: Some(v_scroll), ..self }
    }

    /// Vertical scroll
    pub fn v_scroll_opt(self, v_scroll: Option<Scroll<'a>>) -> (r: Self)
        ensures
            r == (PopupCore { v_scroll, ..self }),
    {
        PopupCore { v_scroll: v_scroll, ..self }
    }

    /// Get the padding the block imposes as Size: measured on a 20x20
    /// area, the columns and rows that the block takes away on both sides
    /// together. A side whose gap would come out negative counts as 0.
    pub fn get_block_size(&self) -> (r: Size)
        ensures
            self.block is None ==> r == (Size { width: 0, height: 0 }),
    {
        let area = Rect::new(0, 0, 20, 20);
        let inner = block_inner_if_some(&self.block, area);
        Size {
            width: (inner.left() - area.left()).saturating_add(area.right().saturating_sub(inner.right())),
            height: (inner.top() - area.top()).saturating_add(area.bottom().saturating_sub(inner.bottom())),
        }
    }

    /// Get the padding the block imposes as Padding, measured on a 20x20
    /// area. A side whose gap would come out negative counts as 0.
    pub fn get_block_padding(&self) -> (r: Padding)
        ensures
            r.right <= 20,
            r.bottom <= 20,
            self.block is None ==> r == (Padding { left: 0, right: 0, top: 0, bottom: 0 }),
    {
        let area = Rect::new(0, 0, 20, 20);
        let inner = block_inner_if_some(&self.block, area);
        Padding {
            left: inner.left() - area.left(),
            right: area.right().saturating_sub(inner.right()),
            top: inner.top() - area.top(),
            bottom: area.bottom().saturating_sub(inner.bottom()),
        }
    }

    /// Calculate the inner area.
    pub fn inner(&self, area: Rect) -> (r: Rect)
        ensures
            self.block is None ==> r == area,
            area.x <= r.x,
            area.y <= r.y,
            r.width <= area.width,
            r.height <= area.height,
    {
        block_inner_if_some(&self.block, area)
    }

    /// Run the layout to calculate the popup area before rendering. Without
    /// a boundary of its own the popup is kept within `buffer_area`.
    pub fn layout(&self, area: Rect, buffer_area: Rect) -> (r: Rect)
        requires
            placement_fits(
                self.constraint,
                area,
                self.offset,
                match self.boundary_area {
                    Some(b) => b,
                    None => buffer_area,
                },
            ),
        ensures
            r == popup_layout(
                self.constraint,
                self.offset,
                area,
                match self.boundary_area {
                    Some(b) => b,
                    None => buffer_area,
                },
            ),
    {
        let boundary = match self.boundary_area {
            Some(b) => b,
            None => buffer_area,
        };
        self._layout(area, boundary)
    }

    /// Whether `layout` can run for `area` (see `placement_fits`), with the
    /// boundary that `layout` uses.
    pub fn can_layout(&self, area: Rect, buffer_area: Rect) -> (r: bool)
        ensures
            r == placement_fits(
                self.constraint,
                area,
                self.offset,
                match self.boundary_area {
                    Some(b) => b,
                    None => buffer_area,
                },
            ),
    {
        let boundary = match self.boundary_area {
            Some(b) => b,
            None => buffer_area,
        };
        fits(self.constraint, area, self.offset, boundary)
    }

    /// The popup area for the requested `area` inside `boundary_area`.
    pub fn _layout(&self, area: Rect, boundary_area: Rect) -> (r: Rect)
        requires
            placement_fits(self.constraint, area, self.offset, boundary_area),
        ensures
            r == popup_layout(self.constraint, self.offset, area, boundary_area),
    {
        let (placed_area, offset) = self.place(area, boundary_area);
        let mut area = placed_area;
        // offset
        area.x = saturating_add_signed(area.x, offset.0);
        area.y = saturating_add_signed(area.y, offset.1);

        // no larger than the boundary
        if area.width > boundary_area.width {
            area.width = boundary_area.width;
        }
        if area.height > boundary_area.height {
            area.height = boundary_area.height;
        }

        let area = keep_in_sight(area, boundary_area);
        cut_to_boundary(area, boundary_area)
    }

    /// The area placed by the constraint, and the offset still to apply.
    fn place(&self, area: Rect, boundary_area: Rect) -> (r: (Rect, (i16, i16)))
        requires
            placement_fits(self.constraint, area, self.offset, boundary_area),
        ensures
            r == placed(self.constraint, area, self.offset, boundary_area),
    {
        // offsets may change
        let mut offset = self.offset;

        let area = match self.constraint {
            PopupConstraint::Unconstrained => area,
            PopupConstraint::Above(rel) | PopupConstraint::AboveLeft(rel) => Rect::new(
                rel.x,
                rel.y.saturating_sub(area.height),
                area.width,
                area.height,
            ),
            PopupConstraint::AboveCenter(rel) => Rect::new(
                rel.x + center(area.width, rel.width),
                rel.y.saturating_sub(area.height),
                area.width,
                area.height,
            ),
            PopupConstraint::AboveRight(rel) => Rect::new(
                rel.x + rel.width.saturating_sub(area.width),
                rel.y.saturating_sub(area.height),
                area.width,
                area.height,
            ),
            PopupConstraint::Below(rel) | PopupConstraint::BelowLeft(rel) => Rect::new(
                rel.x,
                rel.bottom(),
                area.width,
                area.height,
            ),
            PopupConstraint::BelowCenter(rel) => Rect::new(
                rel.x + center(area.width, rel.width),
                rel.bottom(),
                area.width,
                area.height,
            ),
            PopupConstraint::BelowRight(rel) => Rect::new(
                rel.x + rel.width.saturating_sub(area.width),
                rel.bottom(),
                area.width,
                area.height,
            ),
            PopupConstraint::Left(rel) | PopupConstraint::LeftTop(rel) => Rect::new(
                rel.x.saturating_sub(area.width),
                rel.y,
                area.width,
                area.height,
            ),
            PopupConstraint::LeftMiddle(rel) => Rect::new(
                rel.x.saturating_sub(area.width),
                rel.y + center(area.height, rel.height),
                area.width,
                area.height,
            ),
            PopupConstraint::LeftBottom(rel) => Rect::new(
                rel.x.saturating_sub(area.width),
                rel.y + rel.height.saturating_sub(area.height),
                area.width,
                area.height,
            ),
            PopupConstraint::Right(rel) | PopupConstraint::RightTop(rel) => Rect::new(
                rel.right(),
                rel.y,
                area.width,
                area.height,
            ),
            PopupConstraint::RightMiddle(rel) => Rect::new(
                rel.right(),
                rel.y + center(area.height, rel.height),
                area.width,
                area.height,
            ),
            PopupConstraint::RightBottom(rel) => Rect::new(
                rel.right(),
                rel.y + rel.height.saturating_sub(area.height),
                area.width,
                area.height,
            ),
            PopupConstraint::Position(x, y) => Rect::new(x, y, area.width, area.height),
            PopupConstraint::AboveOrBelow(rel) => {
                if saturating_add_signed(area.height, -self.offset.1) < rel.y {
                    Rect::new(rel.x, rel.y.saturating_sub(area.height), area.width, area.height)
                } else {
                    offset = (offset.0, -offset.1);
                    Rect::new(rel.x, rel.bottom(), area.width, area.height)
                }
            },
            PopupConstraint::BelowOrAbove(rel) => {
                if saturating_add_signed(rel.bottom() + area.height, self.offset.1)
                    <= boundary_area.height {
                    Rect::new(rel.x, rel.bottom(), area.width, area.height)
                } else {
                    offset = (offset.0, -offset.1);
                    Rect::new(rel.x, rel.y.saturating_sub(area.height), area.width, area.height)
                }
            },
        };

        (area, offset)
    }
}

/// Moves the area into the boundary where it starts before it, and back
/// where it reaches its right or bottom edge.
fn keep_in_sight(area: Rect, boundary_area: Rect) -> (r: Rect)
    ensures
        r == kept_in_sight(area, boundary_area),
{
    let mut area = area;
    // keep in sight
    if area.left() < boundary_area.left() {
        let corr = boundary_area.left().saturating_sub(area.left());
        area.x = area.x + corr;
    }
    if area.right() >= boundary_area.right() {
        let corr = area.right().saturating_sub(boundary_area.right());
        area.x = area.x.saturating_sub(corr);
    }
    if area.top() < boundary_area.top() {
        let corr = boundary_area.top().saturating_sub(area.top());
        area.y = area.y + corr;
    }
    if area.bottom() >= boundary_area.bottom() {
        let corr = area.bottom().saturating_sub(boundary_area.bottom());
        area.y = area.y.saturating_sub(corr);
    }

    area
}

/// Cuts the area where it reaches past the boundary's right or bottom edge.
fn cut_to_boundary(area: Rect, boundary_area: Rect) -> (r: Rect)
    ensures
        r == cut_to(area, boundary_area),
{
    let mut area = area;
    // shrink to size
    if area.right() > boundary_area.right() {
        let corr = area.right() - boundary_area.right();
        area.width = area.width.saturating_sub(corr);
    }
    if area.bottom() > boundary_area.bottom() {
        let corr = area.bottom() - boundary_area.bottom();
        area.height = area.height.saturating_sub(corr);
    }

    area
}

} // verus!

verus! {

/// Where the moved area lies inside the boundary from left to right, the
/// layout keeps its column and its width.
proof fn lemma_layout_keeps_x(p: Rect, off: (i16, i16), b: Rect)
    requires
        b.x <= p.x + off.0,
        p.x + off.0 + p.width <= b.x + b.width,
        b.x + b.width <= u16::MAX,
    ensures
        cut_to(kept_in_sight(fit_size(shifted(p, off), b), b), b).x == p.x + off.0,
        cut_to(kept_in_sight(fit_size(shifted(p, off), b), b), b).width == p.width,
{
}

/// Where the moved area lies inside the boundary from top to bottom, the
/// layout keeps its row and its height.
proof fn lemma_layout_keeps_y(p: Rect, off: (i16, i16), b: Rect)
    requires
        b.y <= p.y + off.1,
        p.y + off.1 + p.height <= b.y + b.height,
        b.y + b.height <= u16::MAX,
    ensures
        cut_to(kept_in_sight(fit_size(shifted(p, off), b), b), b).y == p.y + off.1,
        cut_to(kept_in_sight(fit_size(shifted(p, off), b), b), b).height == p.height,
{
}

/// Placed to the right of its anchor, the popup starts at the anchor's
/// right edge (moved by the offset), with the requested width, wherever it
/// fits into the boundary there: it does not cover the anchor.
pub proof fn lemma_right_of_anchor(rel: Rect, c: PopupConstraint, offset: (i16, i16), area: Rect, boundary: Rect)
    requires
        c == PopupConstraint::Right(rel) || c == PopupConstraint::RightTop(rel) || c == PopupConstraint::RightMiddle(rel)
            || c == PopupConstraint::RightBottom(rel),
        rel.x + rel.width + area.width <= u16::MAX,
        boundary.x <= rel.x + rel.width + offset.0,
        rel.x + rel.width + offset.0 + area.width <= boundary.x + boundary.width <= u16::MAX,
    ensures
        popup_layout(c, offset, area, boundary).x == rel.x + rel.width + offset.0,
        popup_layout(c, offset, area, boundary).width == area.width,
{
    let (p, off) = placed(c, area, offset, boundary);
    assert(p.x == rel.x + rel.width && p.width == area.width && off == offset);
    lemma_layout_keeps_x(p, off, boundary);
}

/// Placed to the left of its anchor, the popup ends at the anchor's left
/// edge (moved by the offset), with the requested width, wherever it fits
/// into the boundary there.
pub proof fn lemma_left_of_anchor(rel: Rect, c: PopupConstraint, offset: (i16, i16), area: Rect, boundary: Rect)
    requires
        c == PopupConstraint::Left(rel) || c == PopupConstraint::LeftTop(rel) || c == PopupConstraint::LeftMiddle(rel)
            || c == PopupConstraint::LeftBottom(rel),
        area.width <= rel.x,
        boundary.x <= rel.x - area.width + offset.0,
        rel.x + offset.0 <= boundary.x + boundary.width <= u16::MAX,
    ensures
        popup_layout(c, offset, area, boundary).x + popup_layout(c, offset, area, boundary).width == rel.x + offset.0,
        popup_layout(c, offset, area, boundary).width == area.width,
{
    let (p, off) = placed(c, area, offset, boundary);
    assert(p.x == rel.x - area.width && p.width == area.width && off == offset);
    lemma_layout_keeps_x(p, off, boundary);
}

/// Placed below its anchor, the popup starts at the anchor's bottom edge
/// (moved by the offset), with the requested height, wherever it fits into
/// the boundary there.
pub proof fn lemma_below_anchor(rel: Rect, c: PopupConstraint, offset: (i16, i16), area: Rect, boundary: Rect)
    requires
        c == PopupConstraint::Below(rel) || c == PopupConstraint::BelowLeft(rel) || c == PopupConstraint::BelowCenter(rel)
            || c == PopupConstraint::BelowRight(rel),
        rel.y + rel.height + area.height <= u16::MAX,
        boundary.y <= rel.y + rel.height + offset.1,
        rel.y + rel.height + offset.1 + area.height <= boundary.y + boundary.height <= u16::MAX,
    ensures
        popup_layout(c, offset, area, boundary).y == rel.y + rel.height + offset.1,
        popup_layout(c, offset, area, boundary).height == area.height,
{
    let (p, off) = placed(c, area, offset, boundary);
    assert(p.y == rel.y + rel.height && p.height == area.height && off == offset);
    lemma_layout_keeps_y(p, off, boundary);
}

/// Placed above its anchor, the popup ends at the anchor's top edge (moved
/// by the offset), with the requested height, wherever it fits into the
/// boundary there.
pub proof fn lemma_above_anchor(rel: Rect, c: PopupConstraint, offset: (i16, i16), area: Rect, boundary: Rect)
    requires
        c == PopupConstraint::Above(rel) || c == PopupConstraint::AboveLeft(rel) || c == PopupConstraint::AboveCenter(rel)
            || c == PopupConstraint::AboveRight(rel),
        area.height <= rel.y,
        boundary.y <= rel.y - area.height + offset.1,
        rel.y + offset.1 <= boundary.y + boundary.height <= u16::MAX,
    ensures
        popup_layout(c, offset, area, boundary).y + popup_layout(c, offset, area, boundary).height == rel.y + offset.1,
        popup_layout(c, offset, area, boundary).height == area.height,
{
    let (p, off) = placed(c, area, offset, boundary);
    assert(p.y == rel.y - area.height && p.height == area.height && off == offset);
    lemma_layout_keeps_y(p, off, boundary);
}

/// Above or below its anchor, aligned left, the popup starts at the
/// anchor's left edge (moved by the offset), wherever it fits into the
/// boundary there.
pub proof fn lemma_aligned_left(rel: Rect, c: PopupConstraint, offset: (i16, i16), area: Rect, boundary: Rect)
    requires
        c == PopupConstraint::Above(rel) || c == PopupConstraint::AboveLeft(rel) || c == PopupConstraint::Below(rel)
            || c == PopupConstraint::BelowLeft(rel),
        rel.x + area.width <= u16::MAX,
        boundary.x <= rel.x + offset.0,
        rel.x + offset.0 + area.width <= boundary.x + boundary.width <= u16::MAX,
    ensures
        popup_layout(c, offset, area, boundary).x == rel.x + offset.0,
        popup_layout(c, offset, area, boundary).width == area.width,
{
    let (p, off) = placed(c, area, offset, boundary);
    assert(p.x == rel.x && p.width == area.width && off == offset);
    lemma_layout_keeps_x(p, off, boundary);
}

/// Above or below its anchor, aligned right, a popup no wider than the
/// anchor ends at the anchor's right edge (moved by the offset), wherever
/// it fits into the boundary there.
pub proof fn lemma_aligned_right(rel: Rect, c: PopupConstraint, offset: (i16, i16), area: Rect, boundary: Rect)
    requires
        c == PopupConstraint::AboveRight(rel) || c == PopupConstraint::BelowRight(rel),
        area.width <= rel.width,
        rel.x + rel.width <= u16::MAX,
        boundary.x <= rel.x + rel.width - area.width + offset.0,
        rel.x + rel.width + offset.0 <= boundary.x + boundary.width <= u16::MAX,
    ensures
        popup_layout(c, offset, area, boundary).x + popup_layout(c, offset, area, boundary).width == rel.x
            + rel.width + offset.0,
        popup_layout(c, offset, area, boundary).width == area.width,
{
    let (p, off) = placed(c, area, offset, boundary);
    assert(p.x == rel.x + rel.width - area.width && p.width == area.width && off == offset);
    lemma_layout_keeps_x(p, off, boundary);
}

/// Above or below its anchor, centered, a popup no wider than the anchor
/// leaves as much room to its left as to its right within the anchor (one
/// column more to the right where the difference is odd), moved by the
/// offset, wherever it fits into the boundary there.
pub proof fn lemma_centered_across(rel: Rect, c: PopupConstraint, offset: (i16, i16), area: Rect, boundary: Rect)
    requires
        c == PopupConstraint::AboveCenter(rel) || c == PopupConstraint::BelowCenter(rel),
        area.width <= rel.width,
        rel.x + rel.width <= u16::MAX,
        boundary.x <= rel.x + offset.0,
        rel.x + rel.width + offset.0 <= boundary.x + boundary.width <= u16::MAX,
    ensures
        ({
            let r = popup_layout(c, offset, area, boundary);
            let left = r.x - offset.0 - rel.x;
            let right = rel.x + rel.width - (r.x - offset.0 + r.width);
            &&& r.width == area.width
            &&& left == right || left + 1 == right
        }),
{
    let (p, off) = placed(c, area, offset, boundary);
    assert(p.x == rel.x + center_spec(area.width, rel.width) && p.width == area.width && off == offset);
    lemma_layout_keeps_x(p, off, boundary);
}

/// Left or right of its anchor, aligned at the top, the popup starts at
/// the anchor's top edge (moved by the offset), wherever it fits into the
/// boundary there.
pub proof fn lemma_aligned_top(rel: Rect, c: PopupConstraint, offset: (i16, i16), area: Rect, boundary: Rect)
    requires
        c == PopupConstraint::Right(rel) || c == PopupConstraint::RightTop(rel) || c == PopupConstraint::Left(rel)
            || c == PopupConstraint::LeftTop(rel),
        rel.y + area.height <= u16::MAX,
        boundary.y <= rel.y + offset.1,
        rel.y + offset.1 + area.height <= boundary.y + boundary.height <= u16::MAX,
    ensures
        popup_layout(c, offset, area, boundary).y == rel.y + offset.1,
        popup_layout(c, offset, area, boundary).height == area.height,
{
    let (p, off) = placed(c, area, offset, boundary);
    assert(p.y == rel.y && p.height == area.height && off == offset);
    lemma_layout_keeps_y(p, off, boundary);
}

/// Left or right of its anchor, aligned at the bottom, a popup no higher
/// than the anchor ends at the anchor's bottom edge (moved by the offset),
/// wherever it fits into the boundary there.
pub proof fn lemma_aligned_bottom(rel: Rect, c: PopupConstraint, offset: (i16, i16), area: Rect, boundary: Rect)
    requires
        c == PopupConstraint::RightBottom(rel) || c == PopupConstraint::LeftBottom(rel),
        area.height <= rel.height,
        rel.y + rel.height <= u16::MAX,
        boundary.y <= rel.y + rel.height - area.height + offset.1,
        rel.y + rel.height + offset.1 <= boundary.y + boundary.height <= u16::MAX,
    ensures
        popup_layout(c, offset, area, boundary).y + popup_layout(c, offset, area, boundary).height == rel.y
            + rel.height + offset.1,
        popup_layout(c, offset, area, boundary).height == area.height,
{
    let (p, off) = placed(c, area, offset, boundary);
    assert(p.y == rel.y + rel.height - area.height && p.height == area.height && off == offset);
    lemma_layout_keeps_y(p, off, boundary);
}

/// Left or right of its anchor, in the middle, a popup no higher than the
/// anchor leaves as much room above as below within the anchor (one row
/// more below where the difference is odd), moved by the offset, wherever
/// it fits into the boundary there.
pub proof fn lemma_centered_vertically(rel: Rect, c: PopupConstraint, offset: (i16, i16), area: Rect, boundary: Rect)
    requires
        c == PopupConstraint::RightMiddle(rel) || c == PopupConstraint::LeftMiddle(rel),
        area.height <= rel.height,
        rel.y + rel.height <= u16::MAX,
        boundary.y <= rel.y + offset.1,
        rel.y + rel.height + offset.1 <= boundary.y + boundary.height <= u16::MAX,
    ensures
        ({
            let r = popup_layout(c, offset, area, boundary);
            let above = r.y - offset.1 - rel.y;
            let below = rel.y + rel.height - (r.y - offset.1 + r.height);
            &&& r.height == area.height
            &&& above == below || above + 1 == below
        }),
{
    let (p, off) = placed(c, area, offset, boundary);
    assert(p.y == rel.y + center_spec(area.height, rel.height) && p.height == area.height && off == offset);
    lemma_layout_keeps_y(p, off, boundary);
}

/// Above or below its anchor, above where the popup has room above it: it
/// then ends at the anchor's top edge (moved by the offset); else it
/// starts at the anchor's bottom edge, with the vertical offset mirrored.
/// Both wherever the popup fits into the boundary there.
pub proof fn lemma_above_or_below(rel: Rect, offset: (i16, i16), area: Rect, boundary: Rect)
    requires
        offset.1 > i16::MIN,
        area.height - offset.1 <= u16::MAX,
        rel.y + rel.height + area.height <= u16::MAX,
    ensures
        ({
            let c = PopupConstraint::AboveOrBelow(rel);
            let r = popup_layout(c, offset, area, boundary);
            let above = 0 <= area.height - offset.1 < rel.y;
            &&& (above && area.height <= rel.y && boundary.y <= rel.y - area.height + offset.1 && rel.y + offset.1
                <= boundary.y + boundary.height <= u16::MAX) ==> r.y + r.height == rel.y + offset.1
                && r.height == area.height
            &&& (!above && area.height - offset.1 >= 0 && boundary.y <= rel.y + rel.height - offset.1 && rel.y
                + rel.height - offset.1 + area.height <= boundary.y + boundary.height <= u16::MAX) ==> r.y == rel.y
                + rel.height - offset.1 && r.height == area.height
        }),
{
    let c = PopupConstraint::AboveOrBelow(rel);
    let (p, off) = placed(c, area, offset, boundary);
    let above = 0 <= area.height - offset.1 < rel.y;
    if above && area.height <= rel.y && boundary.y <= rel.y - area.height + offset.1 && rel.y + offset.1
        <= boundary.y + boundary.height <= u16::MAX {
        assert(p.y == rel.y - area.height && p.height == area.height && off == offset);
        lemma_layout_keeps_y(p, off, boundary);
    }
    if !above && area.height - offset.1 >= 0 && boundary.y <= rel.y + rel.height - offset.1 && rel.y + rel.height
        - offset.1 + area.height <= boundary.y + boundary.height <= u16::MAX {
        assert(p.y == rel.y + rel.height && p.height == area.height && off.1 == -offset.1);
        lemma_layout_keeps_y(p, off, boundary);
    }
}

/// Below or above its anchor, below where `below_fits` says it has room
/// there: it then starts at the anchor's bottom edge (moved by the
/// offset); else it ends at the anchor's top edge, with the vertical offset
/// mirrored. Both wherever the popup fits into the boundary there.
pub proof fn lemma_below_or_above(rel: Rect, offset: (i16, i16), area: Rect, boundary: Rect)
    requires
        offset.1 > i16::MIN,
        rel.y + rel.height + area.height <= u16::MAX,
    ensures
        ({
            let c = PopupConstraint::BelowOrAbove(rel);
            let r = popup_layout(c, offset, area, boundary);
            let below = below_fits(rel, area.height, offset.1, boundary);
            &&& (below && boundary.y <= rel.y + rel.height + offset.1 && rel.y + rel.height + offset.1 + area.height
                <= boundary.y + boundary.height <= u16::MAX) ==> r.y == rel.y + rel.height + offset.1 && r.height
                == area.height
            &&& (!below && area.height <= rel.y && boundary.y <= rel.y - area.height - offset.1 && rel.y - offset.1
                <= boundary.y + boundary.height <= u16::MAX) ==> r.y + r.height == rel.y - offset.1 && r.height
                == area.height
        }),
{
    let c = PopupConstraint::BelowOrAbove(rel);
    let (p, off) = placed(c, area, offset, boundary);
    let below = below_fits(rel, area.height, offset.1, boundary);
    if below && boundary.y <= rel.y + rel.height + offset.1 && rel.y + rel.height + offset.1 + area.height
        <= boundary.y + boundary.height <= u16::MAX {
        assert(p.y == rel.y + rel.height && p.height == area.height && off == offset);
        lemma_layout_keeps_y(p, off, boundary);
    }
    if !below && area.height <= rel.y && boundary.y <= rel.y - area.height - offset.1 && rel.y - offset.1
        <= boundary.y + boundary.height <= u16::MAX {
        assert(p.y == rel.y - area.height && p.height == area.height && off.1 == -offset.1);
        lemma_layout_keeps_y(p, off, boundary);
    }
}

/// At a position, the popup starts there (moved by the offset), with the
/// requested size, wherever it fits into the boundary there.
pub proof fn lemma_at_position(x: u16, y: u16, offset: (i16, i16), area: Rect, boundary: Rect)
    requires
        x + area.width <= u16::MAX,
        y + area.height <= u16::MAX,
        boundary.x <= x + offset.0,
        x + offset.0 + area.width <= boundary.x + boundary.width <= u16::MAX,
        boundary.y <= y + offset.1,
        y + offset.1 + area.height <= boundary.y + boundary.height <= u16::MAX,
    ensures
        popup_layout(PopupConstraint::Position(x, y), offset, area, boundary) == (Rect {
            x: (x + offset.0) as u16,
            y: (y + offset.1) as u16,
            width: area.width,
            height: area.height,
        }),
{
    let c = PopupConstraint::Position(x, y);
    let (p, off) = placed(c, area, offset, boundary);
    assert(p.x == x && p.y == y && p.width == area.width && p.height == area.height && off == offset);
    lemma_layout_keeps_x(p, off, boundary);
    lemma_layout_keeps_y(p, off, boundary);
}

/// A popup that fits into the boundary is shown whole: when the placed and
/// shifted area is no wider and no higher than the boundary (and no
/// coordinate runs past `u16::MAX`), the result keeps that size.
pub proof fn lemma_popup_keeps_fitting_size(c: PopupConstraint, offset: (i16, i16), area: Rect, boundary: Rect)
    requires
        placement_fits(c, area, offset, boundary),
        boundary.x + boundary.width <= u16::MAX,
        boundary.y + boundary.height <= u16::MAX,
        ({
            let s = shifted(placed(c, area, offset, boundary).0, placed(c, area, offset, boundary).1);
            &&& s.x + s.width <= u16::MAX
            &&& s.y + s.height <= u16::MAX
            &&& s.width <= boundary.width
            &&& s.height <= boundary.height
        }),
    ensures
        ({
            let s = shifted(placed(c, area, offset, boundary).0, placed(c, area, offset, boundary).1);
            let r = popup_layout(c, offset, area, boundary);
            &&& r.width == s.width
            &&& r.height == s.height
        }),
{
}

/// An area no larger than the boundary, moved into it and cut, lies inside.
proof fn lemma_fitting_area_inside(a: Rect, b: Rect)
    requires
        a.width <= b.width,
        a.height <= b.height,
        a.x + a.width <= u16::MAX,
        a.y + a.height <= u16::MAX,
        b.x + b.width <= u16::MAX,
        b.y + b.height <= u16::MAX,
    ensures
        ({
            let r = cut_to(kept_in_sight(a, b), b);
            &&& b.x <= r.x
            &&& r.x + r.width <= b.x + b.width
            &&& b.y <= r.y
            &&& r.y + r.height <= b.y + b.height
        }),
{
    let k = kept_in_sight(a, b);
    let x1 = if a.x < b.x { b.x } else { a.x };
    let y1 = if a.y < b.y { b.y } else { a.y };
    assert(x1 + a.width <= u16::MAX);
    assert(y1 + a.height <= u16::MAX);
    assert(b.x <= k.x && k.x + k.width <= b.x + b.width);
    assert(b.y <= k.y && k.y + k.height <= b.y + b.height);
}

/// The popup stays fully visible: whatever the constraint, offset and
/// requested area, the result lies inside the boundary, as long as the
/// boundary and the placed area lie on the screen.
pub proof fn lemma_popup_inside_boundary(c: PopupConstraint, offset: (i16, i16), area: Rect, boundary: Rect)
    requires
        placement_fits(c, area, offset, boundary),
        boundary.x + boundary.width <= u16::MAX,
        boundary.y + boundary.height <= u16::MAX,
        ({
            let s = shifted(placed(c, area, offset, boundary).0, placed(c, area, offset, boundary).1);
            &&& s.x + s.width <= u16::MAX
            &&& s.y + s.height <= u16::MAX
        }),
    ensures
        ({
            let r = popup_layout(c, offset, area, boundary);
            &&& boundary.x <= r.x
            &&& r.x + r.width <= boundary.x + boundary.width
            &&& boundary.y <= r.y
            &&& r.y + r.height <= boundary.y + boundary.height
        }),
{
    let s = shifted(placed(c, area, offset, boundary).0, placed(c, area, offset, boundary).1);
    lemma_fitting_area_inside(fit_size(s, boundary), boundary);
}

} // verus!

verus! {

/// Result of event-handling for a popup.
#[derive(Debug, Clone, Copy, PartialEq, Eq, Structural)]
pub enum PopupOutcome {
    /// The event was not used.
    Continue,
    /// The event was used, nothing changed.
    Unchanged,
    /// The event was used and something changed.
    Changed,
    /// The popup should be hidden.
    Hide,
}

/// State of a popup.
#[derive(Debug)]
pub struct PopupCoreState {
    /// Area for the widget, as computed by the layout.
    pub area: Rect,
    /// Area where the widget can render its content.
    pub widget_area: Rect,
    /// Horizontal scroll state if active.
    pub h_scroll: ScrollState,
    /// Vertical scroll state if active.
    pub v_scroll: ScrollState,
    /// Active flag for the popup; shared with the focus handling.
    pub active: FocusFlag,
    /// Mouse flags.
    pub mouse: MouseFlags,
    /// non-exhaustive struct.
    pub non_exhaustive: NonExhaustive,
}

impl Default for PopupCoreState {
    fn default() -> (r: Self)
        ensures
            r.area == (Rect { x: 0, y: 0, width: 0, height: 0 }),
            r.widget_area == (Rect { x: 0, y: 0, width: 0, height: 0 }),
    {
        Self {
            area: Rect { x: 0, y: 0, width: 0, height: 0 },
            widget_area: Rect { x: 0, y: 0, width: 0, height: 0 },
            h_scroll: scroll_state_default(),
            v_scroll: scroll_state_default(),
            active: focus_flag_named("popup"),
            mouse: mouse_flags_default(),
            non_exhaustive: NonExhaustive,
        }
    }
}

/// What `set_active` does to the flag, given the request and the current
/// state: `(value to set, if any; gained mark; lost mark)`. Only a real
/// change sets the value and raises gained (on showing) or lost (on hiding).
pub open spec fn active_change(active: bool, is_active: bool) -> (Option<bool>, bool, bool) {
    if active {
        if !is_active {
            (Some(true), true, false)
        } else {
            (None, false, false)
        }
    } else {
        if is_active {
            (Some(false), false, true)
        } else {
            (None, false, false)
        }
    }
}

/// The decision of [`PopupCoreState::set_active`].
pub fn active_transition(active: bool, is_active: bool) -> (r: (Option<bool>, bool, bool))
    ensures
        r == active_change(active, is_active),
{
    if active {
        if !is_active {
            (Some(true), true, false)
        } else {
            (None, false, false)
        }
    } else {
        if is_active {
            (Some(false), false, true)
        } else {
            (None, false, false)
        }
    }
}

/// What the popup answers to a mouse press: a press outside its area
/// hides an active popup; everything else passes.
pub open spec fn press_outcome(is_active: bool, area: Rect, press: Option<Position>) -> PopupOutcome {
    match press {
        Some(p) => if is_active && !area.spec_contains(p) {
            PopupOutcome::Hide
        } else {
            PopupOutcome::Continue
        },
        None => PopupOutcome::Continue,
    }
}

/// The decision of [`PopupCoreState::handle`].
pub fn popup_press_outcome(is_active: bool, area: Rect, press: Option<Position>) -> (r: PopupOutcome)
    ensures
        r == press_outcome(is_active, area, press),
{
    if is_active {
        match press {
            Some(p) => if !area.contains(p) {
                PopupOutcome::Hide
            } else {
                PopupOutcome::Continue
            },
            None => PopupOutcome::Continue,
        }
    } else {
        PopupOutcome::Continue
    }
}

impl PopupCoreState {
    /// New
    pub fn new() -> (r: Self)
        ensures
            r.area == (Rect { x: 0, y: 0, width: 0, height: 0 }),
            r.widget_area == (Rect { x: 0, y: 0, width: 0, height: 0 }),
    {
        Self::default()
    }

    /// New with a focus name.
    pub fn named(name: &str) -> (r: Self)
        ensures
            r.area == (Rect { x: 0, y: 0, width: 0, height: 0 }),
            r.widget_area == (Rect { x: 0, y: 0, width: 0, height: 0 }),
    {
        let d = Self::default();
        Self { active: focus_flag_named(name), ..d }
    }

    /// Is the popup active/visible. Read from the shared flag.
    pub fn is_active(&self) -> bool {
        focus_flag_get(&self.active)
    }

    /// Flip visibility of the popup. Hiding an active popup clears its
    /// areas; showing keeps them.
    pub fn flip_active(&mut self)
        ensures
            (final(self).area == (Rect { x: 0, y: 0, width: 0, height: 0 }) && final(self).widget_area == (Rect {
                x: 0,
                y: 0,
                width: 0,
                height: 0,
            })) || (final(self).area == old(self).area && final(self).widget_area == old(self).widget_area),
    {
        let a = self.is_active();
        self.set_active(!a);
    }

    /// Show or hide the popup. A change sets the flag and the gained/lost
    /// marks as [`active_change`] says; without a change both marks are
    /// cleared. Hiding clears all the areas, those of the scroll states too.
    pub fn set_active(&mut self, active: bool)
        ensures
            active ==> final(self).area == old(self).area,
            active ==> final(self).widget_area == old(self).widget_area,
            !active ==> final(self).area == (Rect { x: 0, y: 0, width: 0, height: 0 }),
            !active ==> final(self).widget_area == (Rect { x: 0, y: 0, width: 0, height: 0 }),
    {
        let is_active = self.is_active();
        let (set, gained, lost) = active_transition(active, is_active);
        if let Some(v) = set {
            focus_flag_set(&self.active, v);
        }
        focus_flag_set_gained(&self.active, gained);
        focus_flag_set_lost(&self.active, lost);
        if !active {
            self.clear_areas();
        }
    }

    /// Clear the areas.
    pub fn clear_areas(&mut self)
        ensures
            final(self).area == (Rect { x: 0, y: 0, width: 0, height: 0 }),
            final(self).widget_area == (Rect { x: 0, y: 0, width: 0, height: 0 }),
    {
        self.area = Rect { x: 0, y: 0, width: 0, height: 0 };
        self.widget_area = Rect { x: 0, y: 0, width: 0, height: 0 };
        scroll_state_clear_area(&mut self.v_scroll);
        scroll_state_clear_area(&mut self.h_scroll);
    }

    /// Event handling: `press` is the position of a mouse press (left,
    /// right or middle button), if the event is one. A press outside the
    /// popup's area hides an active popup.
    pub fn handle(&mut self, press: Option<Position>) -> (r: PopupOutcome)
        ensures
            exists|is_active: bool| r == press_outcome(is_active, old(self).area, press),
            *final(self) == *old(self),
    {
        let is_active = self.is_active();
        popup_press_outcome(is_active, self.area, press)
    }
}

} // verus!
