use crossterm::event::{KeyModifiers, MouseButton, MouseEvent, MouseEventKind};
use rat_widget_core::event::Outcome;
use rat_widget_core::geometry::{BorderType, Direction, LayoutConstraint, Position, Rect};
use rat_widget_core::splitter::{Split, SplitEvent, SplitKey, SplitMouse, SplitState, SplitType};

fn rect(x: u16, y: u16, width: u16, height: u16) -> Rect {
    Rect { x, y, width, height }
}

/// Two parts side by side with a plain bar in column 9.
fn horizontal_state() -> SplitState {
    let mut state = SplitState::default();
    state.direction = Direction::Horizontal;
    state.split_type = SplitType::FullPlain;
    state.area = rect(0, 0, 21, 5);
    state.inner = rect(0, 0, 21, 5);
    state.areas = vec![rect(0, 0, 9, 5), rect(10, 0, 11, 5)];
    state.split = vec![rect(9, 0, 1, 5)];
    state
}

fn mouse(kind: MouseEventKind, column: u16, row: u16) -> MouseEvent {
    MouseEvent { kind, column, row, modifiers: KeyModifiers::NONE }
}

#[test]
fn full_split_types_take_their_own_column() {
    assert!(SplitType::FullEmpty.is_full());
    assert!(SplitType::FullPlain.is_full());
    assert!(SplitType::FullDouble.is_full());
    assert!(SplitType::FullThick.is_full());
    assert!(SplitType::FullQuadrantInside.is_full());
    assert!(SplitType::FullQuadrantOutside.is_full());
    assert!(!SplitType::Scroll.is_full());
    assert!(!SplitType::ScrollBlock.is_full());
    assert!(!SplitType::Widget.is_full());
}

#[test]
fn default_state_has_no_parts() {
    let state = SplitState::default();
    assert!(state.areas.is_empty());
    assert!(state.split.is_empty());
    assert_eq!(state.focus_split, None);
    assert_eq!(state.direction, Direction::Vertical);
    assert_eq!(state.split_type, SplitType::FullEmpty);
}

#[test]
fn screen_split_pos_moves_a_full_bar() {
    let mut state = horizontal_state();
    assert!(state.set_screen_split_pos(0, (4, 0)));
    assert_eq!(state.areas, vec![rect(0, 0, 4, 5), rect(5, 0, 16, 5)]);
    assert_eq!(state.split, vec![rect(4, 0, 1, 5)]);
}

#[test]
fn screen_split_pos_is_held_within_both_parts() {
    let mut state = horizontal_state();
    assert!(state.set_screen_split_pos(0, (30, 0)));
    assert_eq!(state.areas, vec![rect(0, 0, 20, 5), rect(21, 0, 0, 5)]);
    assert_eq!(state.split, vec![rect(20, 0, 1, 5)]);
}

#[test]
fn screen_split_pos_to_the_same_place_changes_nothing() {
    let mut state = horizontal_state();
    state.split_type = SplitType::Widget;
    state.areas = vec![rect(0, 0, 10, 5), rect(10, 0, 11, 5)];
    assert!(!state.set_screen_split_pos(0, (9, 3)));
    assert_eq!(state.areas, vec![rect(0, 0, 10, 5), rect(10, 0, 11, 5)]);
    assert_eq!(state.split, vec![rect(9, 0, 1, 5)]);
}

#[test]
fn screen_split_pos_of_a_full_bar_in_place_changes_nothing() {
    let mut state = horizontal_state();
    assert!(!state.set_screen_split_pos(0, (9, 3)));
    assert_eq!(state.areas, vec![rect(0, 0, 9, 5), rect(10, 0, 11, 5)]);
    assert_eq!(state.split, vec![rect(9, 0, 1, 5)]);
}

#[test]
fn screen_split_pos_scroll_bar_stops_before_the_end() {
    let mut state = SplitState::default();
    state.direction = Direction::Vertical;
    state.split_type = SplitType::Scroll;
    state.areas = vec![rect(0, 0, 10, 5), rect(0, 5, 10, 5)];
    state.split = vec![rect(0, 4, 2, 1)];
    assert!(state.set_screen_split_pos(0, (0, 20)));
    assert_eq!(state.areas, vec![rect(0, 0, 10, 9), rect(0, 9, 10, 1)]);
    assert_eq!(state.split, vec![rect(0, 8, 2, 1)]);
}

#[test]
fn moving_along_the_direction_shifts_the_bar() {
    let mut state = horizontal_state();
    assert!(state.move_split_left(0, 2));
    assert_eq!(state.split, vec![rect(7, 0, 1, 5)]);
    assert_eq!(state.areas, vec![rect(0, 0, 7, 5), rect(8, 0, 13, 5)]);
    // the move to the right starts from the column after the bar
    assert!(state.move_split_right(0, 2));
    assert_eq!(state.split, vec![rect(10, 0, 1, 5)]);
    assert_eq!(state.areas, vec![rect(0, 0, 10, 5), rect(11, 0, 10, 5)]);
}

#[test]
fn moving_across_the_direction_does_nothing() {
    let mut state = horizontal_state();
    assert!(!state.move_split_up(0, 1));
    assert!(!state.move_split_down(0, 1));
    assert_eq!(state.split, vec![rect(9, 0, 1, 5)]);
    assert_eq!(state.areas, vec![rect(0, 0, 9, 5), rect(10, 0, 11, 5)]);
}

#[test]
fn selecting_bars_wraps_around() {
    let mut state = horizontal_state();
    state.areas = vec![rect(0, 0, 5, 5), rect(6, 0, 5, 5), rect(12, 0, 9, 5)];
    state.split = vec![rect(5, 0, 1, 5), rect(11, 0, 1, 5)];
    state.focus.set(true);
    assert!(state.select_next_split());
    assert_eq!(state.focus_split, Some(1));
    assert!(state.select_next_split());
    assert_eq!(state.focus_split, Some(0));
    assert!(state.select_prev_split());
    assert_eq!(state.focus_split, Some(1));
    assert!(state.select_prev_split());
    assert_eq!(state.focus_split, Some(0));
}

#[test]
fn selecting_needs_the_focus() {
    let mut state = horizontal_state();
    assert!(!state.select_next_split());
    assert!(!state.select_prev_split());
    assert_eq!(state.focus_split, None);
}

#[test]
fn first_layout_follows_the_constraints() {
    let split = Split::new()
        .direction(Direction::Horizontal)
        .split_type(SplitType::FullPlain)
        .constraints(vec![LayoutConstraint::Length(10), LayoutConstraint::Length(10)]);
    let mut state = SplitState::default();
    assert!(split.can_layout(&state));
    split.layout(rect(0, 0, 21, 5), &mut state);
    assert_eq!(state.area, rect(0, 0, 21, 5));
    assert_eq!(state.inner, rect(0, 0, 21, 5));
    assert_eq!(state.areas, vec![rect(0, 0, 9, 5), rect(10, 0, 11, 5)]);
    assert_eq!(state.split, vec![rect(9, 0, 1, 5)]);
    assert_eq!(state.direction, Direction::Horizontal);
    assert_eq!(state.split_type, SplitType::FullPlain);
}

#[test]
fn layout_of_the_same_size_keeps_the_parts() {
    let split = Split::new()
        .direction(Direction::Horizontal)
        .split_type(SplitType::Widget)
        .constraints(vec![LayoutConstraint::Length(10), LayoutConstraint::Length(11)]);
    let mut state = SplitState::default();
    split.layout(rect(0, 0, 21, 5), &mut state);
    assert_eq!(state.areas, vec![rect(0, 0, 10, 5), rect(10, 0, 11, 5)]);
    assert_eq!(state.split, vec![rect(9, 0, 1, 5)]);
    assert!(state.set_screen_split_pos(0, (4, 0)));
    split.layout(rect(0, 0, 21, 5), &mut state);
    assert_eq!(state.areas, vec![rect(0, 0, 5, 5), rect(5, 0, 16, 5)]);
    assert_eq!(state.split, vec![rect(4, 0, 1, 5)]);
}

#[test]
fn layout_of_a_new_height_stretches_the_parts() {
    let split = Split::new()
        .direction(Direction::Horizontal)
        .split_type(SplitType::FullPlain)
        .constraints(vec![LayoutConstraint::Length(10), LayoutConstraint::Length(10)]);
    let mut state = SplitState::default();
    split.layout(rect(0, 0, 21, 5), &mut state);
    split.layout(rect(0, 0, 21, 8), &mut state);
    assert_eq!(state.areas, vec![rect(0, 0, 9, 8), rect(10, 0, 11, 8)]);
    assert_eq!(state.split, vec![rect(9, 0, 1, 8)]);
}

#[test]
fn scroll_layout_gives_two_cell_bars() {
    let split = Split::new()
        .direction(Direction::Vertical)
        .split_type(SplitType::ScrollBlock)
        .constraints(vec![LayoutConstraint::Length(4), LayoutConstraint::Length(6)]);
    let mut state = SplitState::default();
    split.layout(rect(0, 0, 8, 10), &mut state);
    assert_eq!(state.areas, vec![rect(0, 0, 8, 4), rect(0, 4, 8, 6)]);
    assert_eq!(state.split, vec![rect(1, 3, 2, 1)]);
}

#[test]
fn layout_refuses_sums_beyond_u16() {
    let split = Split::new().direction(Direction::Horizontal).split_type(SplitType::FullPlain);
    let mut state = horizontal_state();
    assert!(split.can_layout(&state));
    state.areas = vec![rect(0, 0, 40000, 5), rect(0, 0, 30000, 5)];
    assert!(!split.can_layout(&state));
    state.areas = vec![rect(0, 0, 30000, 5), rect(0, 0, 35535, 5)];
    state.split = vec![rect(0, 0, 1, 5)];
    assert!(!split.can_layout(&state));
    let widget = Split::new().direction(Direction::Horizontal).split_type(SplitType::Widget);
    assert!(widget.can_layout(&state));
}

#[test]
fn marks_default_to_arrows() {
    let split = Split::new().direction(Direction::Horizontal);
    assert_eq!(split.get_mark_0(), "<");
    assert_eq!(split.get_mark_1(), ">");
    let split = Split::new().direction(Direction::Vertical);
    assert_eq!(split.get_mark_0(), "^");
    assert_eq!(split.get_mark_1(), "v");
    let split = Split::new().mark_0("a").mark_1("b");
    assert_eq!(split.get_mark_0(), "a");
    assert_eq!(split.get_mark_1(), "b");
}

#[test]
fn fill_follows_the_split_type() {
    let split = Split::new().direction(Direction::Horizontal).split_type(SplitType::FullPlain);
    assert_eq!(split.get_fill(), Some("\u{2502}"));
    let split = Split::new().direction(Direction::Vertical).split_type(SplitType::FullDouble);
    assert_eq!(split.get_fill(), Some("\u{2550}"));
    let split = Split::new().direction(Direction::Vertical).split_type(SplitType::FullEmpty);
    assert_eq!(split.get_fill(), Some(" "));
    let split = Split::new().split_type(SplitType::Scroll);
    assert_eq!(split.get_fill(), None);
}

#[test]
fn joins_meet_the_border() {
    let state = horizontal_state();
    let split = Split::new()
        .direction(Direction::Horizontal)
        .split_type(SplitType::FullPlain)
        .join_0(BorderType::Plain)
        .join_1(BorderType::Plain);
    assert_eq!(split.get_join_0(rect(9, 0, 1, 5), &state), Some((Position { x: 9, y: 0 }, "\u{252C}")));
    assert_eq!(split.get_join_1(rect(9, 0, 1, 5), &state), Some((Position { x: 9, y: 4 }, "\u{2534}")));
    let split = Split::new().direction(Direction::Horizontal).split_type(SplitType::FullPlain);
    assert_eq!(split.get_join_0(rect(9, 0, 1, 5), &state), None);
    let split = Split::new().split_type(SplitType::Widget).join_0(BorderType::Plain);
    assert_eq!(split.get_join_0(rect(9, 0, 1, 5), &state), None);
}

#[test]
fn arrow_keys_move_the_selected_bar() {
    let mut state = horizontal_state();
    state.focus_split = Some(0);
    assert_eq!(state.handle_key(true, SplitKey::Left), Outcome::Changed);
    assert_eq!(state.split, vec![rect(8, 0, 1, 5)]);
    assert_eq!(state.areas, vec![rect(0, 0, 8, 5), rect(9, 0, 12, 5)]);
    assert_eq!(state.handle_key(true, SplitKey::Right), Outcome::Changed);
    assert_eq!(state.split, vec![rect(10, 0, 1, 5)]);
    assert_eq!(state.handle_key(true, SplitKey::Up), Outcome::Unchanged);
    assert_eq!(state.split, vec![rect(10, 0, 1, 5)]);
}

#[test]
fn keys_need_focus_and_a_selected_bar() {
    let mut state = horizontal_state();
    state.focus_split = Some(0);
    assert_eq!(state.handle_key(false, SplitKey::Left), Outcome::Continue);
    state.focus_split = None;
    assert_eq!(state.handle_key(true, SplitKey::Left), Outcome::Continue);
    state.focus_split = Some(5);
    assert_eq!(state.handle_key(true, SplitKey::Left), Outcome::Continue);
    assert_eq!(state.split, vec![rect(9, 0, 1, 5)]);
}

#[test]
fn control_arrows_select_bars() {
    let mut state = horizontal_state();
    state.focus_split = Some(0);
    assert_eq!(state.handle_key(true, SplitKey::CtrlLeft), Outcome::Unchanged);
    state.focus.set(true);
    assert_eq!(state.handle_key(true, SplitKey::CtrlRight), Outcome::Changed);
    assert_eq!(state.focus_split, Some(0));
    assert_eq!(state.handle(&SplitEvent::Key(SplitKey::CtrlUp)), Outcome::Changed);
    assert_eq!(state.focus_split, Some(0));
}

#[test]
fn drags_move_the_dragged_bar() {
    let mut state = horizontal_state();
    assert_eq!(state.handle_drag(None, true, Some(0), (3, 1)), Outcome::Changed);
    assert_eq!(state.split, vec![rect(3, 0, 1, 5)]);
    assert_eq!(state.handle_drag(Some(0), false, None, (3, 1)), Outcome::Changed);
    assert_eq!(state.handle_drag(None, false, None, (3, 1)), Outcome::Continue);
    assert_eq!(state.handle_drag(None, true, None, (3, 1)), Outcome::Continue);
    assert_eq!(state.handle_drag(None, true, Some(4), (3, 1)), Outcome::Continue);
    assert_eq!(state.split, vec![rect(3, 0, 1, 5)]);
}

#[test]
fn mouse_press_and_drag_move_the_bar() {
    let mut state = horizontal_state();
    let down = SplitEvent::Mouse(SplitMouse { event: mouse(MouseEventKind::Down(MouseButton::Left), 9, 2), column: 9, row: 2 });
    assert_eq!(state.handle(&down), Outcome::Continue);
    let drag = SplitEvent::Mouse(SplitMouse { event: mouse(MouseEventKind::Drag(MouseButton::Left), 12, 2), column: 12, row: 2 });
    assert_eq!(state.handle(&drag), Outcome::Changed);
    assert_eq!(state.split, vec![rect(12, 0, 1, 5)]);
    assert_eq!(state.areas, vec![rect(0, 0, 12, 5), rect(13, 0, 8, 5)]);
    let up = SplitEvent::Mouse(SplitMouse { event: mouse(MouseEventKind::Up(MouseButton::Left), 12, 2), column: 12, row: 2 });
    assert_eq!(state.handle(&up), Outcome::Changed);
    assert_eq!(state.handle(&SplitEvent::Other), Outcome::Continue);
}

#[test]
fn rendering_selects_the_first_bar_with_focus() {
    let split = Split::new()
        .direction(Direction::Horizontal)
        .constraints(vec![LayoutConstraint::Length(10), LayoutConstraint::Length(10)]);
    let mut state = SplitState::default();
    state.focus.set(true);
    split.render_state(rect(0, 0, 21, 5), &mut state);
    assert_eq!(state.focus_split, Some(0));
    state.focus.set(false);
    split.render_state(rect(0, 0, 21, 5), &mut state);
    assert_eq!(state.focus_split, None);
}

#[test]
fn first_layout_has_a_part_per_constraint() {
    let split = Split::new()
        .direction(Direction::Vertical)
        .constraints(vec![LayoutConstraint::Fill(1), LayoutConstraint::Fill(1)]);
    let mut state = SplitState::default();
    split.layout(rect(0, 0, 10, 9), &mut state);
    assert_eq!(state.areas.len(), 2);
    assert_eq!(state.split.len(), 1);
}

#[test]
fn moved_area_keeps_the_parts_inside() {
    let split = Split::new().constraints(vec![LayoutConstraint::Fill(1), LayoutConstraint::Fill(1)]);
    let mut state = SplitState::default();
    split.layout(rect(0, 0, 20, 10), &mut state);
    split.layout(rect(5, 0, 20, 10), &mut state);
    assert_eq!(state.areas.len(), 2);
    for r in &state.areas {
        assert!(r.x >= 5 && r.x + r.width <= 25 && r.y == 0 && r.height == 10);
    }
    let before = state.areas.clone();
    split.layout(rect(5, 0, 20, 10), &mut state);
    assert_eq!(state.areas, before);
}
