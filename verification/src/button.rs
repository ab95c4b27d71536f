//! Button widget: its configuration, its state, and the handling of key
//! and mouse events that arm and press it.

use crate::_private::NonExhaustive;
use crate::event::Outcome;
use crate::geometry::{rect_new, sat_sub, Position, Rect};
use crate::outside::{
    block_inner_if_some, block_style, focus_flag_default, focus_flag_get, focus_flag_name,
    focus_flag_named, focus_flag_set, relocate_area, relocated_area, style_default, text_centered,
    text_default, text_height, text_left_aligned, text_right_aligned, text_width,
};
use ratatui::style::Style;
use ratatui::text::Text;
use ratatui::widgets::Block;
use rat_focus::FocusFlag;
use std::time::Duration;
use vstd::prelude::*;

verus! {

/// Button widget.
#[derive(Debug)]
pub struct Button<'a> {
    pub text: Text<'a>,
    pub style: Style,
    pub focus_style: Option<Style>,
    pub armed_style: Option<Style>,
    pub armed_delay: Option<Duration>,
    pub block: Option<Block<'a>>,
}

/// Composite style.
#[derive(Debug)]
pub struct ButtonStyle {
    /// Base style
    pub style: Style,
    /// Focused style
    pub focus: Option<Style>,
    /// Armed style
    pub armed: Option<Style>,
    /// Button border
    pub block: Option<Block<'static>>,
    /// Some terminals repaint too fast to see the click.
    /// This adds some delay when the button state goes from
    /// armed to clicked.
    pub armed_delay: Option<Duration>,
    pub non_exhaustive: NonExhaustive,
}

impl Default for ButtonStyle {
    fn default() -> (r: Self)
        ensures
            r.focus is None,
            r.armed is None,
            r.block is None,
            r.armed_delay is None,
    {
        Self {
            style: style_default(),
            focus: None,
            armed: None,
            block: None,
            armed_delay: None,
            non_exhaustive: NonExhaustive,
        }
    }
}

impl<'a> Default for Button<'a> {
    fn default() -> (r: Self)
        ensures
            r.focus_style is None,
            r.armed_style is None,
            r.armed_delay is None,
            r.block is None,
    {
        Self {
            text: text_default(),
            style: style_default(),
            focus_style: None,
            armed_style: None,
            armed_delay: None,
            block: None,
        }
    }
}

/// The block with the button's base style, where there is one.
fn block_with_style<'a>(block: Option<Block<'a>>, style: Style) -> (r: Option<Block<'a>>)
    ensures
        r is Some <==> block is Some,
{
    match block {
        Some(b) => Some(block_style(b, style)),
        None => None,
    }
}

impl<'a> Button<'a> {
    /// New button with the given (centered) text.
    pub fn new(text: Text<'a>) -> (r: Self)
        ensures
            r.focus_style is None,
            r.armed_style is None,
            r.armed_delay is None,
            r.block is None,
    {
        Self::default().text(text)
    }

    /// Set all styles.
    pub fn styles_opt(self, styles: Option<ButtonStyle>) -> (r: Self)
        ensures
            styles is None ==> r == self,
            styles matches Some(s) ==> r.style == s.style && r.focus_style == (if s.focus is Some {
                s.focus
            } else {
                self.focus_style
            }) && r.armed_style == (if s.armed is Some {
                s.armed
            } else {
                self.armed_style
            }) && r.armed_delay == (if s.armed_delay is Some {
                s.armed_delay
            } else {
                self.armed_delay
            }) && (r.block is Some <==> (s.block is Some || self.block is Some)),
    {
        if let Some(styles) = styles {
            self.styles(styles)
        } else {
            self
        }
    }

    /// Set all styles: the base style always, the others where given; the
    /// block (a new one where given) gets the base style.
    pub fn styles(self, styles: ButtonStyle) -> (r: Self)
        ensures
            r.style == styles.style,
            r.focus_style == (if styles.focus is Some {
                styles.focus
            } else {
                self.focus_style
            }),
            r.armed_style == (if styles.armed is Some {
                styles.armed
            } else {
                self.armed_style
            }),
            r.armed_delay == (if styles.armed_delay is Some {
                styles.armed_delay
            } else {
                self.armed_delay
            }),
            r.block is Some <==> (styles.block is Some || self.block is Some),
            r.text == self.text,
    {
        let mut s = self;
        s.style = styles.style;
        if styles.focus.is_some() {
            s.focus_style = styles.focus;
        }
        if styles.armed.is_some() {
            s.armed_style = styles.armed;
        }
        if styles.armed_delay.is_some() {
            s.armed_delay = styles.armed_delay;
        }
        if let Some(block) = styles.block {
            s.block = Some(block);
        }
        let style = s.style;
        s.block = block_with_style(s.block.take(), style);
        s
    }

    /// Set the base-style.
    pub fn style(self, style: Style) -> (r: Self)
        ensures
            r == (Button { style, ..self }),
    {
        Button { style, ..self }
    }

    /// Style when focused.
    pub fn focus_style(self, style: Style) -> (r: Self)
        ensures
            r == (Button { focus_style: Some(style), ..self }),
    {
        Button { focus_style: Some(style), ..self }
    }

    /// Style when clicked but not released.
    pub fn armed_style(self, style: Style) -> (r: Self)
        ensures
            r == (Button { armed_style: Some(style), ..self }),
    {
        Button { armed_style: Some(style), ..self }
    }

    /// Some terminals repaint too fast to see the click.
    /// This adds some delay when the button state goes from
    /// armed to clicked.
    pub fn armed_delay(self, delay: Duration) -> (r: Self)
        ensures
            r == (Button { armed_delay: Some(delay), ..self }),
    {
        Button { armed_delay: Some(delay), ..self }
    }

    /// Button text, centered.
    pub fn text(self, text: Text<'a>) -> (r: Self)
        ensures
            r.style == self.style,
            r.focus_style == self.focus_style,
            r.armed_style == self.armed_style,
            r.armed_delay == self.armed_delay,
            r.block == self.block,
    {
        Button { text: text_centered(text), ..self }
    }

    /// Left align button text.
    pub fn left_aligned(self) -> (r: Self)
        ensures
            r.style == self.style,
            r.focus_style == self.focus_style,
            r.armed_style == self.armed_style,
            r.armed_delay == self.armed_delay,
            r.block == self.block,
    {
        let mut s = self;
        s.text = text_left_aligned(s.text);
        s
    }

    /// Right align button text.
    pub fn right_aligned(self) -> (r: Self)
        ensures
            r.style == self.style,
            r.focus_style == self.focus_style,
            r.armed_style == self.armed_style,
            r.armed_delay == self.armed_delay,
            r.block == self.block,
    {
        let mut s = self;
        s.text = text_right_aligned(s.text);
        s
    }

    /// Block, with the base style.
    pub fn block(self, block: Block<'a>) -> (r: Self)
        ensures
            r.block is Some,
            r.style == self.style,
            r.focus_style == self.focus_style,
            r.armed_style == self.armed_style,
            r.armed_delay == self.armed_delay,
            r.text == self.text,
    {
        let style = self.style;
        Button { block: block_with_style(Some(block), style), ..self }
    }

    /// Columns that the block takes from a 20x20 area.
    fn block_width(&self) -> (r: u16)
        ensures
            r <= 20,
            self.block is None ==> r == 0,
    {
        let inner = block_inner_if_some(&self.block, Rect::new(0, 0, 20, 20));
        20 - inner.width
    }

    /// Rows that the block takes from a 20x20 area.
    fn block_height(&self) -> (r: u16)
        ensures
            r <= 20,
            self.block is None ==> r == 0,
    {
        let inner = block_inner_if_some(&self.block, Rect::new(0, 0, 20, 20));
        20 - inner.height
    }

    /// Inherent width: the text width (as `u16`, truncated) plus the
    /// columns of the block, held at `u16::MAX`.
    pub fn width(&self) -> (r: u16) {
        let w = text_width(&self.text) as u16;
        w.saturating_add(self.block_width())
    }

    /// Inherent height: the number of text lines (as `u16`, truncated)
    /// plus the rows of the block, held at `u16::MAX`.
    pub fn height(&self) -> (r: u16) {
        let h = text_height(&self.text) as u16;
        h.saturating_add(self.block_height())
    }

    /// What rendering records in the state: the area, the area inside the
    /// block, and the armed delay of the button.
    pub fn render_state(&self, area: Rect, state: &mut ButtonState)
        ensures
            final(state).area == area,
            self.block is None ==> final(state).inner == area,
            area.x <= final(state).inner.x,
            area.y <= final(state).inner.y,
            final(state).inner.width <= area.width,
            final(state).inner.height <= area.height,
            final(state).armed_delay == self.armed_delay,
            final(state).armed == old(state).armed,
    {
        state.area = area;
        state.inner = block_inner_if_some(&self.block, area);
        state.armed_delay = self.armed_delay;
    }

    /// Where the text is drawn: `rows` rows high, centered vertically in
    /// `inner` (the spare rows halved, rounding down).
    pub fn text_area(inner: Rect, rows: u16) -> (r: Rect)
        requires
            inner.y + sat_sub(inner.height, rows) / 2 <= u16::MAX,
        ensures
            r == rect_new(inner.x, (inner.y + sat_sub(inner.height, rows) / 2) as u16, inner.width, rows),
    {
        let spare = inner.height.saturating_sub(rows) / 2;
        Rect::new(inner.x, inner.y + spare, inner.width, rows)
    }
}

/// The part of the inner area drawn in the armed style: one column in
/// from either side.
pub fn armed_area(inner: Rect) -> (r: Rect)
    requires
        inner.x + 1 <= u16::MAX,
    ensures
        r == rect_new((inner.x + 1) as u16, inner.y, sat_sub(inner.width, 2), inner.height),
{
    Rect::new(inner.x + 1, inner.y, inner.width.saturating_sub(2), inner.height)
}

/// State & event-handling.
#[derive(Debug)]
pub struct ButtonState {
    /// Complete area; renewed for each render.
    pub area: Rect,
    /// Area inside the block; renewed for each render.
    pub inner: Rect,
    /// Button has been clicked but not released yet.
    pub armed: bool,
    /// Some terminals repaint too fast to see the click.
    /// This adds some delay when the button state goes from
    /// armed to clicked.
    pub armed_delay: Option<Duration>,
    /// Current focus state.
    pub focus: FocusFlag,
    pub non_exhaustive: NonExhaustive,
}

impl Clone for ButtonState {
    /// A copy with a new focus flag of the same name.
    fn clone(&self) -> (r: Self)
        ensures
            r.area == self.area,
            r.inner == self.inner,
            r.armed == self.armed,
            r.armed_delay == self.armed_delay,
    {
        let name = focus_flag_name(&self.focus);
        Self {
            area: self.area,
            inner: self.inner,
            armed: self.armed,
            armed_delay: self.armed_delay,
            focus: focus_flag_named(name.as_str()),
            non_exhaustive: NonExhaustive,
        }
    }
}

impl Default for ButtonState {
    fn default() -> (r: Self)
        ensures
            r.area == (Rect { x: 0, y: 0, width: 0, height: 0 }),
            r.inner == (Rect { x: 0, y: 0, width: 0, height: 0 }),
            !r.armed,
            r.armed_delay is None,
    {
        Self {
            area: Rect { x: 0, y: 0, width: 0, height: 0 },
            inner: Rect { x: 0, y: 0, width: 0, height: 0 },
            armed: false,
            armed_delay: None,
            focus: focus_flag_default(),
            non_exhaustive: NonExhaustive,
        }
    }
}

/// Result value for event-handling.
///
/// Adds `Pressed` to the general Outcome.
#[derive(Debug, Clone, Copy, PartialEq, Eq, Structural)]
pub enum ButtonOutcome {
    /// The given event was not handled at all.
    Continue,
    /// The event was handled, no repaint necessary.
    Unchanged,
    /// The event was handled, repaint necessary.
    Changed,
    /// Button has been pressed.
    Pressed,
}

impl ButtonOutcome {
    /// Whether the event was used.
    pub fn is_consumed(&self) -> (r: bool)
        ensures
            r == (*self != ButtonOutcome::Continue),
    {
        *self != ButtonOutcome::Continue
    }
}

/// The general outcome for a button outcome: `Pressed` counts as a change.
pub open spec fn outcome_of(value: ButtonOutcome) -> Outcome {
    match value {
        ButtonOutcome::Continue => Outcome::Continue,
        ButtonOutcome::Unchanged => Outcome::Unchanged,
        ButtonOutcome::Changed => Outcome::Changed,
        ButtonOutcome::Pressed => Outcome::Changed,
    }
}

impl From<ButtonOutcome> for Outcome {
    fn from(value: ButtonOutcome) -> (r: Self) {
        match value {
            ButtonOutcome::Continue => Outcome::Continue,
            ButtonOutcome::Unchanged => Outcome::Unchanged,
            ButtonOutcome::Changed => Outcome::Changed,
            ButtonOutcome::Pressed => Outcome::Changed,
        }
    }
}

impl vstd::std_specs::convert::FromSpecImpl<ButtonOutcome> for Outcome {
    open spec fn obeys_from_spec() -> bool {
        true
    }

    open spec fn from_spec(value: ButtonOutcome) -> Outcome {
        outcome_of(value)
    }
}

/// The events a button reacts to.
#[derive(Debug, Clone, Copy, PartialEq, Eq, Structural)]
pub enum ButtonEvent {
    /// Enter or space pressed (no modifiers).
    KeyPress,
    /// Enter or space released (no modifiers).
    KeyRelease,
    /// Left mouse button pressed at a position (no modifiers).
    MouseDown(Position),
    /// Left mouse button released at a position (no modifiers).
    MouseUp(Position),
    /// Anything else.
    Other,
}

/// Mouse handling: a press inside arms the button; a release inside
/// presses it; a release outside disarms an armed button.
/// Gives the outcome and the new armed flag.
pub open spec fn mouse_step(area: Rect, armed: bool, event: ButtonEvent) -> (ButtonOutcome, bool) {
    match event {
        ButtonEvent::MouseDown(p) => if area.spec_contains(p) {
            (ButtonOutcome::Changed, true)
        } else {
            (ButtonOutcome::Continue, armed)
        },
        ButtonEvent::MouseUp(p) => if area.spec_contains(p) {
            (ButtonOutcome::Pressed, false)
        } else if armed {
            (ButtonOutcome::Changed, false)
        } else {
            (ButtonOutcome::Continue, armed)
        },
        _ => (ButtonOutcome::Continue, armed),
    }
}

/// Key handling for a focused button: pressing arms it, releasing an armed
/// button presses it (an unarmed release is used but changes nothing);
/// other events and an unfocused button fall through to mouse handling.
/// Gives the outcome, the new armed flag and whether the armed delay is
/// to be waited.
pub open spec fn regular_step(focused: bool, area: Rect, armed: bool, event: ButtonEvent) -> (ButtonOutcome, bool, bool) {
    if focused && event == ButtonEvent::KeyPress {
        (ButtonOutcome::Changed, true, false)
    } else if focused && event == ButtonEvent::KeyRelease {
        if armed {
            (ButtonOutcome::Pressed, false, true)
        } else {
            (ButtonOutcome::Unchanged, armed, false)
        }
    } else {
        let (o, a) = mouse_step(area, armed, event);
        (o, a, false)
    }
}

/// `r` and `armed_after` are what key-then-mouse handling gives for the
/// focus state `focused`.
pub open spec fn regular_handled(
    focused: bool,
    area: Rect,
    armed: bool,
    delay: Option<Duration>,
    event: ButtonEvent,
    r: (ButtonOutcome, Option<Duration>),
    armed_after: bool,
) -> bool {
    let (o, a, wait) = regular_step(focused, area, armed, event);
    &&& r.0 == o
    &&& armed_after == a
    &&& r.1 == (if wait { delay } else { None })
}

impl ButtonState {
    pub fn new() -> (r: Self)
        ensures
            r.area == (Rect { x: 0, y: 0, width: 0, height: 0 }),
            r.inner == (Rect { x: 0, y: 0, width: 0, height: 0 }),
            !r.armed,
            r.armed_delay is None,
    {
        Self::default()
    }

    pub fn named(name: &str) -> (r: Self)
        ensures
            r.area == (Rect { x: 0, y: 0, width: 0, height: 0 }),
            r.inner == (Rect { x: 0, y: 0, width: 0, height: 0 }),
            !r.armed,
            r.armed_delay is None,
    {
        let d = Self::default();
        Self { focus: focus_flag_named(name), ..d }
    }

    /// Shifts and clips the areas.
    pub fn relocate(&mut self, shift: (i16, i16), clip: Rect)
        ensures
            final(self).area == relocated_area(old(self).area, shift, clip),
            final(self).inner == relocated_area(old(self).inner, shift, clip),
            final(self).armed == old(self).armed,
            final(self).armed_delay == old(self).armed_delay,
    {
        self.area = relocate_area(self.area, shift, clip);
        self.inner = relocate_area(self.inner, shift, clip);
    }

    /// Mouse events only.
    pub fn handle_mouse(&mut self, event: ButtonEvent) -> (r: ButtonOutcome)
        ensures
            (r, final(self).armed) == mouse_step(old(self).area, old(self).armed, event),
            final(self).area == old(self).area,
            final(self).inner == old(self).inner,
            final(self).armed_delay == old(self).armed_delay,
    {
        match event {
            ButtonEvent::MouseDown(p) => {
                if self.area.contains(p) {
                    self.armed = true;
                    ButtonOutcome::Changed
                } else {
                    ButtonOutcome::Continue
                }
            },
            ButtonEvent::MouseUp(p) => {
                if self.area.contains(p) {
                    self.armed = false;
                    ButtonOutcome::Pressed
                } else {
                    if self.armed {
                        self.armed = false;
                        ButtonOutcome::Changed
                    } else {
                        ButtonOutcome::Continue
                    }
                }
            },
            _ => ButtonOutcome::Continue,
        }
    }

    /// Key events (for a focused button), then mouse events.
    ///
    /// Returns the outcome and the delay to wait before the press shows,
    /// when a key release presses an armed button that has a delay.
    pub fn handle_focused(&mut self, focused: bool, event: ButtonEvent) -> (r: (ButtonOutcome, Option<Duration>))
        ensures
            ({
                let (o, a, wait) = regular_step(focused, old(self).area, old(self).armed, event);
                &&& r.0 == o
                &&& final(self).armed == a
                &&& r.1 == (if wait { old(self).armed_delay } else { None })
            }),
            final(self).area == old(self).area,
            final(self).inner == old(self).inner,
            final(self).armed_delay == old(self).armed_delay,
    {
        let r = if focused {
            match event {
                ButtonEvent::KeyPress => {
                    self.armed = true;
                    (ButtonOutcome::Changed, None)
                },
                ButtonEvent::KeyRelease => {
                    if self.armed {
                        self.armed = false;
                        (ButtonOutcome::Pressed, self.armed_delay)
                    } else {
                        // single key release happen more often than not.
                        (ButtonOutcome::Unchanged, None)
                    }
                },
                _ => (ButtonOutcome::Continue, None),
            }
        } else {
            (ButtonOutcome::Continue, None)
        };

        if r.0 == ButtonOutcome::Continue {
            (self.handle_mouse(event), None)
        } else {
            r
        }
    }

    /// Key events if the button has the focus (read from the shared focus
    /// flag), then mouse events.
    pub fn handle(&mut self, event: ButtonEvent) -> (r: (ButtonOutcome, Option<Duration>))
        ensures
            regular_handled(true, old(self).area, old(self).armed, old(self).armed_delay, event, r, final(self).armed)
                || regular_handled(false, old(self).area, old(self).armed, old(self).armed_delay, event, r, final(self).armed),
            final(self).area == old(self).area,
            final(self).inner == old(self).inner,
    {
        let focused = focus_flag_get(&self.focus);
        self.handle_focused(focused, event)
    }
}

/// Handle all events.
/// Key events are only processed if focus is true.
/// Mouse events are processed if they are in range.
pub fn handle_events(state: &mut ButtonState, focus: bool, event: ButtonEvent) -> (r: (ButtonOutcome, Option<Duration>))
    ensures
        ({
            let (o, a, wait) = regular_step(focus, old(state).area, old(state).armed, event);
            &&& r.0 == o
            &&& final(state).armed == a
            &&& r.1 == (if wait { old(state).armed_delay } else { None })
        }),
        final(state).area == old(state).area,
        final(state).inner == old(state).inner,
{
    focus_flag_set(&state.focus, focus);
    state.handle_focused(focus, event)
}

/// Handle only mouse-events.
pub fn handle_mouse_events(state: &mut ButtonState, event: ButtonEvent) -> (r: ButtonOutcome)
    ensures
        (r, final(state).armed) == mouse_step(old(state).area, old(state).armed, event),
        final(state).area == old(state).area,
        final(state).inner == old(state).inner,
{
    state.handle_mouse(event)
}


/// The mouse works the same with and without the focus: a left press
/// inside arms the button (`Changed`), a release inside presses it and
/// disarms it, a release outside disarms an armed button (`Changed`), and
/// other presses and releases outside leave it as it is (`Continue`); no
/// mouse event waits for the armed delay.
pub proof fn lemma_mouse_ignores_focus(focused: bool, area: Rect, armed: bool, p: Position)
    ensures
        regular_step(focused, area, armed, ButtonEvent::MouseDown(p)) == (if area.spec_contains(p) {
            (ButtonOutcome::Changed, true, false)
        } else {
            (ButtonOutcome::Continue, armed, false)
        }),
        regular_step(focused, area, armed, ButtonEvent::MouseUp(p)) == (if area.spec_contains(p) {
            (ButtonOutcome::Pressed, false, false)
        } else if armed {
            (ButtonOutcome::Changed, false, false)
        } else {
            (ButtonOutcome::Continue, armed, false)
        }),
        regular_step(focused, area, armed, ButtonEvent::MouseDown(p)) == regular_step(
            !focused,
            area,
            armed,
            ButtonEvent::MouseDown(p),
        ),
        regular_step(focused, area, armed, ButtonEvent::MouseUp(p)) == regular_step(
            !focused,
            area,
            armed,
            ButtonEvent::MouseUp(p),
        ),
{
}

/// The keys work only with the focus: focused, a key press arms the button
/// (`Changed`), a key release presses an armed button (waiting for the
/// armed delay) and is `Unchanged` on an unarmed one; unfocused, keys and
/// other events are not used and change nothing.
pub proof fn lemma_keys_need_focus(area: Rect, armed: bool)
    ensures
        regular_step(true, area, armed, ButtonEvent::KeyPress) == (ButtonOutcome::Changed, true, false),
        armed ==> regular_step(true, area, armed, ButtonEvent::KeyRelease) == (ButtonOutcome::Pressed, false, true),
        !armed ==> regular_step(true, area, armed, ButtonEvent::KeyRelease) == (ButtonOutcome::Unchanged, false, false),
        regular_step(false, area, armed, ButtonEvent::KeyPress) == (ButtonOutcome::Continue, armed, false),
        regular_step(false, area, armed, ButtonEvent::KeyRelease) == (ButtonOutcome::Continue, armed, false),
        regular_step(true, area, armed, ButtonEvent::Other) == (ButtonOutcome::Continue, armed, false),
        regular_step(false, area, armed, ButtonEvent::Other) == (ButtonOutcome::Continue, armed, false),
{
}

/// A mouse click inside the button (press, then release at the same
/// place) presses it and leaves it disarmed, whatever its state before.
pub proof fn lemma_click_presses(area: Rect, p: Position, armed: bool)
    requires
        area.spec_contains(p),
    ensures
        mouse_step(area, mouse_step(area, armed, ButtonEvent::MouseDown(p)).1, ButtonEvent::MouseUp(p))
            == (ButtonOutcome::Pressed, false),
{
}

/// On a focused button, pressing and releasing the key presses it, with
/// the armed delay to wait.
pub proof fn lemma_key_press_release_presses(area: Rect, armed: bool)
    ensures
        ({
            let (o1, a1, w1) = regular_step(true, area, armed, ButtonEvent::KeyPress);
            let (o2, a2, w2) = regular_step(true, area, a1, ButtonEvent::KeyRelease);
            &&& o1 == ButtonOutcome::Changed
            &&& o2 == ButtonOutcome::Pressed
            &&& !a2
            &&& w2
        }),
{
}

/// A press always leaves the button disarmed, and only a press waits for
/// the armed delay.
pub proof fn lemma_pressed_disarms(focused: bool, area: Rect, armed: bool, event: ButtonEvent)
    ensures
        ({
            let (o, a, w) = regular_step(focused, area, armed, event);
            &&& o == ButtonOutcome::Pressed ==> !a
            &&& w ==> o == ButtonOutcome::Pressed
        }),
{
}

/// Unfocused, a button ignores keys: the outcome is that of the mouse
/// handling alone.
pub proof fn lemma_unfocused_is_mouse_only(area: Rect, armed: bool, event: ButtonEvent)
    ensures
        ({
            let (o, a, w) = regular_step(false, area, armed, event);
            &&& (o, a) == mouse_step(area, armed, event)
            &&& !w
        }),
{
}

} // verus!
