use rat_widget_core::geometry::{saturating_add_signed, Position, Rect};

#[test]
fn signed_addition_is_held_in_range() {
    assert_eq!(saturating_add_signed(10, -3), 7);
    assert_eq!(saturating_add_signed(2, -3), 0);
    assert_eq!(saturating_add_signed(65530, 10), 65535);
    assert_eq!(saturating_add_signed(5, 0), 5);
}

#[test]
fn new_rect_stays_on_the_screen() {
    assert_eq!(Rect::new(1, 2, 3, 4), Rect { x: 1, y: 2, width: 3, height: 4 });
    assert_eq!(Rect::new(65530, 65534, 10, 10), Rect { x: 65530, y: 65534, width: 5, height: 1 });
}

#[test]
fn edges_of_a_rect() {
    let r = Rect::new(3, 4, 5, 6);
    assert_eq!(r.left(), 3);
    assert_eq!(r.right(), 8);
    assert_eq!(r.top(), 4);
    assert_eq!(r.bottom(), 10);
}

#[test]
fn union_covers_both() {
    let a = Rect::new(0, 0, 5, 2);
    let b = Rect::new(10, 3, 2, 2);
    assert_eq!(a.union(b), Rect::new(0, 0, 12, 5));
    assert_eq!(b.union(a), Rect::new(0, 0, 12, 5));
}

#[test]
fn contains_is_half_open() {
    let r = Rect::new(2, 2, 3, 3);
    assert!(r.contains(Position::new(2, 2)));
    assert!(r.contains(Position::new(4, 4)));
    assert!(!r.contains(Position::new(5, 4)));
    assert!(!r.contains(Position::new(1, 3)));
    assert!(!Rect::new(2, 2, 0, 3).contains(Position::new(2, 2)));
}
