use rat_widget_core::geometry::{Position, Rect, Size};
use rat_widget_core::popup::{PopupConstraint, PopupCore, PopupCoreState, PopupOutcome};

fn r(x: u16, y: u16, w: u16, h: u16) -> Rect {
    Rect::new(x, y, w, h)
}

const SCREEN: Rect = Rect { x: 0, y: 0, width: 80, height: 24 };

fn place(c: PopupConstraint, offset: (i16, i16), area: Rect) -> Rect {
    PopupCore::new().constraint(c).offset(offset)._layout(area, SCREEN)
}

#[test]
fn unconstrained_keeps_area() {
    assert_eq!(place(PopupConstraint::Unconstrained, (0, 0), r(5, 5, 10, 4)), r(5, 5, 10, 4));
}

#[test]
fn above_and_below() {
    let rel = r(10, 3, 5, 1);
    assert_eq!(place(PopupConstraint::Below(rel), (0, 0), r(0, 0, 20, 5)), r(10, 4, 20, 5));
    assert_eq!(place(PopupConstraint::BelowLeft(rel), (0, 0), r(0, 0, 20, 5)), r(10, 4, 20, 5));
    assert_eq!(place(PopupConstraint::Above(rel), (0, 0), r(0, 0, 20, 5)), r(10, 0, 20, 5));
    assert_eq!(place(PopupConstraint::AboveRight(r(10, 10, 20, 1)), (0, 0), r(0, 0, 6, 3)), r(24, 7, 6, 3));
}

#[test]
fn centered_and_right_side() {
    assert_eq!(place(PopupConstraint::BelowCenter(r(10, 10, 20, 1)), (0, 0), r(0, 0, 10, 3)), r(15, 11, 10, 3));
    assert_eq!(place(PopupConstraint::AboveCenter(r(10, 10, 4, 1)), (0, 0), r(0, 0, 10, 3)), r(10, 7, 10, 3));
    assert_eq!(place(PopupConstraint::RightBottom(r(10, 10, 4, 6)), (0, 0), r(0, 0, 5, 2)), r(14, 14, 5, 2));
    assert_eq!(place(PopupConstraint::RightMiddle(r(10, 10, 4, 6)), (0, 0), r(0, 0, 5, 2)), r(14, 12, 5, 2));
    assert_eq!(place(PopupConstraint::LeftTop(r(10, 10, 4, 6)), (0, 0), r(0, 0, 5, 2)), r(5, 10, 5, 2));
    assert_eq!(place(PopupConstraint::LeftBottom(r(10, 10, 4, 6)), (0, 0), r(0, 0, 5, 2)), r(5, 14, 5, 2));
}

#[test]
fn kept_in_sight() {
    assert_eq!(place(PopupConstraint::Position(75, 20), (0, 0), r(0, 0, 10, 6)), r(70, 18, 10, 6));
    assert_eq!(place(PopupConstraint::Left(r(2, 3, 1, 1)), (0, 0), r(0, 0, 10, 6)), r(0, 3, 10, 6));
}

#[test]
fn cut_when_too_large() {
    assert_eq!(place(PopupConstraint::Position(0, 0), (0, 0), r(0, 0, 100, 5)), r(0, 0, 80, 5));
    assert_eq!(place(PopupConstraint::Position(0, 0), (0, 0), r(0, 0, 10, 30)), r(0, 0, 10, 24));
}

#[test]
fn too_large_popup_stays_inside_the_boundary() {
    let popup = PopupCore::new().constraint(PopupConstraint::Unconstrained);
    assert_eq!(popup._layout(r(0, 0, 20, 5), r(5, 0, 10, 10)), r(5, 0, 10, 5));
    assert_eq!(popup._layout(r(30, 30, 4, 20), r(5, 0, 10, 10)), r(11, 0, 4, 10));
}

#[test]
fn offset_is_added() {
    assert_eq!(place(PopupConstraint::Position(10, 10), (-3, 2), r(0, 0, 5, 5)), r(7, 12, 5, 5));
    assert_eq!(place(PopupConstraint::Position(1, 1), (-3, -3), r(0, 0, 5, 5)), r(0, 0, 5, 5));
}

#[test]
fn above_or_below_switches_side() {
    assert_eq!(place(PopupConstraint::AboveOrBelow(r(10, 2, 5, 1)), (0, 1), r(0, 0, 6, 5)), r(10, 2, 6, 5));
    assert_eq!(place(PopupConstraint::AboveOrBelow(r(10, 12, 5, 1)), (0, 1), r(0, 0, 6, 5)), r(10, 8, 6, 5));
    assert_eq!(place(PopupConstraint::BelowOrAbove(r(10, 20, 5, 1)), (0, 0), r(0, 0, 6, 5)), r(10, 15, 6, 5));
    assert_eq!(place(PopupConstraint::BelowOrAbove(r(10, 2, 5, 1)), (0, 1), r(0, 0, 6, 5)), r(10, 4, 6, 5));
}

#[test]
fn layout_uses_buffer_without_boundary() {
    let p = PopupCore::new().constraint(PopupConstraint::Position(30, 0));
    assert_eq!(p.layout(r(0, 0, 10, 3), r(0, 0, 35, 10)), r(25, 0, 10, 3));
    let p = p.boundary(r(0, 0, 50, 10));
    assert_eq!(p.layout(r(0, 0, 10, 3), r(0, 0, 35, 10)), r(30, 0, 10, 3));
    let p = p.boundary_opt(None).x_offset(2).y_offset(1);
    assert_eq!(p.offset, (2, 1));
    assert_eq!(p.layout(r(0, 0, 10, 3), r(0, 0, 80, 10)), r(32, 1, 10, 3));
}

#[test]
fn block_size_and_padding() {
    let p = PopupCore::new();
    assert_eq!(p.get_block_size(), Size { width: 0, height: 0 });
    assert_eq!(p.inner(r(3, 3, 10, 10)), r(3, 3, 10, 10));
    let p = p.block(ratatui::widgets::Block::bordered());
    assert_eq!(p.get_block_size(), Size { width: 2, height: 2 });
    let pad = p.get_block_padding();
    assert_eq!((pad.left, pad.right, pad.top, pad.bottom), (1, 1, 1, 1));
    assert_eq!(p.inner(r(3, 3, 10, 10)), r(4, 4, 8, 8));
}

#[test]
fn popup_state_active_and_click_outside() {
    let mut s = PopupCoreState::new();
    assert!(!s.is_active());
    s.area = r(10, 10, 5, 5);
    assert_eq!(s.handle(Some(Position::new(0, 0))), PopupOutcome::Continue);
    s.set_active(true);
    assert!(s.is_active());
    assert!(s.active.gained());
    assert!(!s.active.lost());
    assert_eq!(s.handle(Some(Position::new(0, 0))), PopupOutcome::Hide);
    assert_eq!(s.handle(Some(Position::new(12, 12))), PopupOutcome::Continue);
    assert_eq!(s.handle(None), PopupOutcome::Continue);
    s.set_active(true);
    assert!(!s.active.gained());
    s.flip_active();
    assert!(!s.is_active());
    assert!(s.active.lost());
    s.clear_areas();
    assert_eq!(s.area, Rect::default());
    assert_eq!(s.widget_area, Rect::default());
}

#[test]
fn popup_state_named() {
    let s = PopupCoreState::named("menu");
    assert_eq!(&*s.active.name(), "menu");
}

#[test]
fn layout_is_possible_unless_the_placement_leaves_u16() {
    let popup = PopupCore::new().constraint(PopupConstraint::AboveCenter(r(10, 10, 20, 1)));
    assert!(popup.can_layout(r(0, 0, 10, 3), SCREEN));
    let popup = PopupCore::new().constraint(PopupConstraint::AboveCenter(Rect { x: 65530, y: 10, width: 20, height: 1 }));
    assert!(!popup.can_layout(r(0, 0, 2, 3), SCREEN));
    let popup = PopupCore::new().constraint(PopupConstraint::AboveOrBelow(r(10, 10, 20, 1))).offset((0, i16::MIN));
    assert!(!popup.can_layout(r(0, 0, 2, 3), SCREEN));
    let popup = PopupCore::new().constraint(PopupConstraint::BelowOrAbove(r(10, 10, 20, 1))).offset((0, i16::MIN));
    assert!(popup.can_layout(r(0, 0, 2, 3), SCREEN));
    let popup = PopupCore::new().constraint(PopupConstraint::BelowOrAbove(r(10, 20, 20, 1))).offset((0, i16::MIN));
    assert!(popup.can_layout(r(0, 0, 2, 10), SCREEN));
    let popup = PopupCore::new().constraint(PopupConstraint::Unconstrained).offset((i16::MIN, i16::MIN));
    assert!(popup.can_layout(r(0, 0, 2, 10), SCREEN));
}

#[test]
fn hiding_clears_the_areas() {
    let mut s = PopupCoreState::new();
    s.set_active(true);
    s.area = r(1, 1, 5, 5);
    s.widget_area = r(2, 2, 3, 3);
    s.set_active(true);
    assert_eq!(s.area, r(1, 1, 5, 5));
    s.set_active(false);
    assert_eq!(s.area, Rect::default());
    assert_eq!(s.widget_area, Rect::default());
    s.area = r(1, 1, 5, 5);
    s.flip_active();
    assert_eq!(s.area, r(1, 1, 5, 5));
    s.flip_active();
    assert_eq!(s.area, Rect::default());
}
