use rat_widget_core::geometry::Rect;
use rat_widget_core::button::{ButtonEvent, ButtonOutcome};
use rat_widget_core::event::Outcome;
use rat_widget_core::message::{StatusDialogState, StatusLineState};

#[test]
fn status_replaces_the_message() {
    let mut state = StatusLineState::default();
    assert_eq!(state.status, "");
    state.status("loading");
    assert_eq!(state.status, "loading");
    state.status("done");
    assert_eq!(state.status, "done");
    state.clear_status();
    assert_eq!(state.status, "");
    assert_eq!(state.area, Rect::default());
}

#[test]
fn log_collects_lines_and_shows_the_dialog() {
    let mut state = StatusDialogState::default();
    assert!(!state.active);
    assert_eq!(state.log, "");
    assert!(state.button.focus.get());
    state.log("first");
    assert!(state.active);
    assert_eq!(state.log, "first");
    state.log("second");
    assert_eq!(state.log, "first\nsecond");
}

#[test]
fn clearing_the_log_hides_the_dialog() {
    let mut state = StatusDialogState::default();
    state.log("first");
    state.clear_log();
    assert!(!state.active);
    assert_eq!(state.log, "");
    state.log("again");
    assert_eq!(state.log, "again");
}

#[test]
fn an_empty_first_message_starts_the_log() {
    let mut state = StatusDialogState::default();
    state.log("");
    state.log("x");
    assert_eq!(state.log, "x");
}

#[test]
fn dialog_hides_on_button_press_or_esc() {
    let mut d = StatusDialogState::default();
    d.log("first");
    assert_eq!(d.handle_outcome(ButtonOutcome::Continue, false), Outcome::Unchanged);
    assert!(d.active);
    assert_eq!(d.handle_outcome(ButtonOutcome::Changed, false), Outcome::Changed);
    assert!(d.active);
    assert_eq!(d.handle_outcome(ButtonOutcome::Pressed, false), Outcome::Changed);
    assert!(!d.active);
    assert_eq!(d.log, "");

    d.log("second");
    let (o, wait) = d.handle(ButtonEvent::Other, true);
    assert_eq!(o, Outcome::Changed);
    assert_eq!(wait, None);
    assert!(!d.active);
    assert_eq!(d.log, "");

    let (o, _) = d.handle(ButtonEvent::Other, true);
    assert_eq!(o, Outcome::Unchanged);
    assert!(!d.active);
}
