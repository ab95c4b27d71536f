//! A status line and a status dialog that collect messages.

use crate::button::{ButtonEvent, ButtonOutcome, ButtonState, ButtonStyle};
use crate::event::Outcome;
use crate::geometry::Rect;
use crate::outside::{focus_flag_set, style_default};
use ratatui::style::Style;
use std::time::Duration;
use vstd::prelude::*;
use vstd::string::StringExecFns;

verus! {

/// Status line widget.
#[derive(Debug)]
pub struct StatusLine {
    pub style: Style,
}

/// State of the status line: the message shown.
#[derive(Debug)]
pub struct StatusLineState {
    pub area: Rect,
    pub status: String,
}

/// Dialog that shows the collected log.
#[derive(Debug)]
pub struct StatusDialog {
    pub style: Style,
    pub button_style: ButtonStyle,
}

/// Styles of the status dialog.
#[derive(Debug)]
pub struct StatusDialogStyle {
    pub style: Style,
    pub button: ButtonStyle,
}

/// State of the status dialog: whether it is shown, and the log lines.
#[derive(Debug)]
pub struct StatusDialogState {
    pub active: bool,
    pub area: Rect,
    pub button: ButtonState,
    pub log: String,
}

impl StatusLine {
    pub fn new() -> (r: Self) {
        Self { style: style_default() }
    }

    pub fn style(self, style: Style) -> (r: Self)
        ensures
            r.style == style,
    {
        Self { style }
    }
}

impl StatusLineState {
    /// Removes the message.
    pub fn clear_status(&mut self)
        ensures
            final(self).status@ == Seq::<char>::empty(),
            final(self).area == old(self).area,
    {
        self.status = String::new();
    }

    /// Replaces the message.
    pub fn status(&mut self, msg: &str)
        ensures
            final(self).status@ == msg@,
            final(self).area == old(self).area,
    {
        self.status = String::new();
        self.status.append(msg);
    }
}

impl Default for StatusLineState {
    fn default() -> (r: Self)
        ensures
            r.area == (Rect { x: 0, y: 0, width: 0, height: 0 }),
            r.status@ == Seq::<char>::empty(),
    {
        Self { area: Rect { x: 0, y: 0, width: 0, height: 0 }, status: String::new() }
    }
}

impl Default for StatusDialogStyle {
    fn default() -> (r: Self)
        ensures
            r.button.focus is None,
            r.button.armed is None,
            r.button.block is None,
            r.button.armed_delay is None,
    {
        Self { style: style_default(), button: ButtonStyle::default() }
    }
}

impl StatusDialog {
    pub fn new() -> (r: Self)
        ensures
            r.button_style.focus is None,
            r.button_style.armed is None,
            r.button_style.block is None,
            r.button_style.armed_delay is None,
    {
        Self { style: style_default(), button_style: ButtonStyle::default() }
    }

    /// Sets both styles.
    pub fn style(self, styles: StatusDialogStyle) -> (r: Self)
        ensures
            r.style == styles.style,
            r.button_style == styles.button,
    {
        Self { style: styles.style, button_style: styles.button }
    }

    pub fn base_style(self, style: Style) -> (r: Self)
        ensures
            r == (StatusDialog { style, ..self }),
    {
        StatusDialog { style, ..self }
    }

    pub fn button_style(self, style: ButtonStyle) -> (r: Self)
        ensures
            r == (StatusDialog { button_style: style, ..self }),
    {
        StatusDialog { button_style: style, ..self }
    }
}

/// The log after adding a message: lines are separated by a newline.
pub open spec fn log_appended(log: Seq<char>, msg: Seq<char>) -> Seq<char> {
    if log.len() == 0 {
        msg
    } else {
        log + seq!['\n'] + msg
    }
}

impl StatusDialogState {
    /// Hides the dialog and forgets the log.
    pub fn clear_log(&mut self)
        ensures
            !final(self).active,
            final(self).log@ == Seq::<char>::empty(),
            final(self).area == old(self).area,
    {
        self.active = false;
        self.log = String::new();
    }

    /// Adds a message as a new line of the log and shows the dialog.
    pub fn log(&mut self, msg: &str)
        ensures
            final(self).active,
            final(self).log@ == log_appended(old(self).log@, msg@),
            final(self).area == old(self).area,
    {
        self.active = true;
        if self.log.as_str().unicode_len() != 0 {
            proof {
                reveal_strlit("\n");
            }
            self.log.append("\n");
        }
        self.log.append(msg);
    }
}

/// What the status dialog makes of an event: while it is shown, a press of
/// its button hides it, and another outcome of the button is the answer;
/// then a plain Esc press hides a shown dialog. The dialog takes all other
/// events. Gives the outcome and whether the log is cleared.
pub open spec fn dialog_step(active: bool, button: ButtonOutcome, esc: bool) -> (Outcome, bool) {
    if active && button == ButtonOutcome::Pressed {
        (Outcome::Changed, true)
    } else if active && button == ButtonOutcome::Changed {
        (Outcome::Changed, false)
    } else if active && button == ButtonOutcome::Unchanged {
        (Outcome::Unchanged, false)
    } else if active && esc {
        (Outcome::Changed, true)
    } else {
        (Outcome::Unchanged, false)
    }
}

impl StatusDialogState {
    /// Acts on what the button made of an event (`button`, ignored while
    /// the dialog is hidden) and on whether the event is a plain Esc press.
    pub fn handle_outcome(&mut self, button: ButtonOutcome, esc: bool) -> (r: Outcome)
        ensures
            r == dialog_step(old(self).active, button, esc).0,
            dialog_step(old(self).active, button, esc).1 ==> !final(self).active && final(self).log@
                == Seq::<char>::empty(),
            !dialog_step(old(self).active, button, esc).1 ==> final(self).active == old(self).active
                && final(self).log@ == old(self).log@,
            final(self).area == old(self).area,
    {
        if self.active {
            match button {
                ButtonOutcome::Pressed => {
                    self.clear_log();
                    return Outcome::Changed;
                },
                ButtonOutcome::Changed => {
                    return Outcome::Changed;
                },
                ButtonOutcome::Unchanged => {
                    return Outcome::Unchanged;
                },
                ButtonOutcome::Continue => {},
            }
        }
        if esc && self.active {
            self.clear_log();
            return Outcome::Changed;
        }
        Outcome::Unchanged
    }

    /// Handles an event: the button sees it while the dialog is shown
    /// (`esc` says whether it is a plain Esc press, which the button sees
    /// as `Other`). Gives the outcome and the time to wait before the
    /// button shows as released, as the button's handling gives it.
    pub fn handle(&mut self, event: ButtonEvent, esc: bool) -> (r: (Outcome, Option<Duration>))
        requires
            esc ==> event == ButtonEvent::Other,
        ensures
            !old(self).active ==> r.0 == Outcome::Unchanged && r.1 is None && !final(self).active && final(self).log@
                == old(self).log@,
            old(self).active && esc ==> r.0 == Outcome::Changed && !final(self).active && final(self).log@ == Seq::<
                char,
            >::empty(),
            final(self).area == old(self).area,
    {
        if self.active {
            let (b, wait) = self.button.handle(event);
            let r = self.handle_outcome(b, esc);
            (r, wait)
        } else {
            let r = self.handle_outcome(ButtonOutcome::Continue, esc);
            (r, None)
        }
    }
}

impl Default for StatusDialogState {
    /// Hidden, empty, with the button focused.
    fn default() -> (r: Self)
        ensures
            !r.active,
            r.log@ == Seq::<char>::empty(),
            r.area == (Rect { x: 0, y: 0, width: 0, height: 0 }),
    {
        let s = Self {
            active: false,
            area: Rect { x: 0, y: 0, width: 0, height: 0 },
            button: ButtonState::default(),
            log: String::new(),
        };
        focus_flag_set(&s.button.focus, true);
        s
    }
}

} // verus!
