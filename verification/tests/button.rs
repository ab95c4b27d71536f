use rat_widget_core::button::{handle_events, handle_mouse_events, Button, ButtonEvent, ButtonOutcome, ButtonState};
use rat_widget_core::event::Outcome;
use rat_widget_core::geometry::{Position, Rect};
use ratatui::text::Text;
use std::time::Duration;

fn button_state() -> ButtonState {
    let mut state = ButtonState::new();
    state.area = Rect { x: 2, y: 1, width: 6, height: 1 };
    state.inner = state.area;
    state
}

#[test]
fn new_state_is_disarmed() {
    let state = ButtonState::new();
    assert!(!state.armed);
    assert_eq!(state.area, Rect::default());
    assert_eq!(state.armed_delay, None);
    let named = ButtonState::named("ok");
    assert!(!named.armed);
}

#[test]
fn mouse_click_inside_presses() {
    let mut state = button_state();
    assert_eq!(state.handle_mouse(ButtonEvent::MouseDown(Position { x: 3, y: 1 })), ButtonOutcome::Changed);
    assert!(state.armed);
    assert_eq!(state.handle_mouse(ButtonEvent::MouseUp(Position { x: 4, y: 1 })), ButtonOutcome::Pressed);
    assert!(!state.armed);
}

#[test]
fn mouse_release_outside_disarms() {
    let mut state = button_state();
    state.handle_mouse(ButtonEvent::MouseDown(Position { x: 2, y: 1 }));
    assert_eq!(state.handle_mouse(ButtonEvent::MouseUp(Position { x: 8, y: 1 })), ButtonOutcome::Changed);
    assert!(!state.armed);
    assert_eq!(state.handle_mouse(ButtonEvent::MouseUp(Position { x: 8, y: 1 })), ButtonOutcome::Continue);
    assert_eq!(state.handle_mouse(ButtonEvent::MouseDown(Position { x: 2, y: 2 })), ButtonOutcome::Continue);
    assert!(!state.armed);
}

#[test]
fn keys_press_a_focused_button() {
    let mut state = button_state();
    state.armed_delay = Some(Duration::from_millis(50));
    assert_eq!(state.handle_focused(true, ButtonEvent::KeyPress), (ButtonOutcome::Changed, None));
    assert!(state.armed);
    assert_eq!(
        state.handle_focused(true, ButtonEvent::KeyRelease),
        (ButtonOutcome::Pressed, Some(Duration::from_millis(50)))
    );
    assert!(!state.armed);
    assert_eq!(state.handle_focused(true, ButtonEvent::KeyRelease), (ButtonOutcome::Unchanged, None));
}

#[test]
fn keys_need_the_focus() {
    let mut state = button_state();
    assert_eq!(handle_events(&mut state, false, ButtonEvent::KeyPress), (ButtonOutcome::Continue, None));
    assert!(!state.armed);
    assert_eq!(handle_events(&mut state, true, ButtonEvent::KeyPress), (ButtonOutcome::Changed, None));
    assert!(state.armed);
    assert!(state.focus.get());
    assert_eq!(state.handle(ButtonEvent::KeyRelease), (ButtonOutcome::Pressed, None));
}

#[test]
fn mouse_only_handling_ignores_keys() {
    let mut state = button_state();
    assert_eq!(handle_mouse_events(&mut state, ButtonEvent::KeyPress), ButtonOutcome::Continue);
    assert_eq!(handle_mouse_events(&mut state, ButtonEvent::Other), ButtonOutcome::Continue);
    assert_eq!(
        handle_mouse_events(&mut state, ButtonEvent::MouseDown(Position { x: 7, y: 1 })),
        ButtonOutcome::Changed
    );
}

#[test]
fn pressed_counts_as_changed() {
    assert_eq!(Outcome::from(ButtonOutcome::Pressed), Outcome::Changed);
    assert_eq!(Outcome::from(ButtonOutcome::Changed), Outcome::Changed);
    assert_eq!(Outcome::from(ButtonOutcome::Unchanged), Outcome::Unchanged);
    assert_eq!(Outcome::from(ButtonOutcome::Continue), Outcome::Continue);
    assert!(ButtonOutcome::Pressed.is_consumed());
    assert!(!ButtonOutcome::Continue.is_consumed());
}

#[test]
fn relocation_shifts_and_clips() {
    let mut state = ButtonState::new();
    state.area = Rect { x: 1, y: 1, width: 4, height: 2 };
    state.inner = Rect { x: 2, y: 1, width: 2, height: 1 };
    state.relocate((2, 1), Rect { x: 0, y: 0, width: 80, height: 24 });
    assert_eq!(state.area, Rect { x: 3, y: 2, width: 4, height: 2 });
    assert_eq!(state.inner, Rect { x: 4, y: 2, width: 2, height: 1 });
    state.relocate((0, 0), Rect { x: 0, y: 0, width: 4, height: 3 });
    assert_eq!(state.area, Rect { x: 3, y: 2, width: 1, height: 1 });
    assert_eq!(state.inner, Rect::default());
}

#[test]
fn size_of_a_plain_button_is_its_text() {
    let button = Button::new(Text::from("Ok"));
    assert_eq!(button.width(), 2);
    assert_eq!(button.height(), 1);
    let button = Button::new(Text::from("Cancel\nnow"));
    assert_eq!(button.width(), 6);
    assert_eq!(button.height(), 2);
}

#[test]
fn size_of_a_bordered_button_adds_the_border() {
    let button = Button::new(Text::from("Ok")).block(ratatui::widgets::Block::bordered());
    assert_eq!(button.width(), 4);
    assert_eq!(button.height(), 3);
}
