//! Types of the terminal UI crates that the widgets carry through without
//! looking inside.

use ratatui::widgets::BlockExt;
use vstd::prelude::*;

verus! {

/// `ratatui::style::Style`, carried through as an opaque value.
#[verifier::external_type_specification]
#[verifier::external_body]
pub struct ExStyle(ratatui::style::Style);

/// `ratatui::layout::Flex`, only converted to.
#[verifier::external_type_specification]
#[verifier::external_body]
pub struct ExFlex(ratatui::layout::Flex);

/// `ratatui::layout::Constraint`, only converted to.
#[verifier::external_type_specification]
#[verifier::external_body]
pub struct ExConstraint(ratatui::layout::Constraint);

/// `ratatui::widgets::Block`, carried through as an opaque value.
#[verifier::external_type_specification]
#[verifier::external_body]
pub struct ExBlock<'a>(ratatui::widgets::Block<'a>);

/// `rat_scrolled::Scroll`, carried through as an opaque value.
#[verifier::external_type_specification]
#[verifier::external_body]
pub struct ExScroll<'a>(rat_scrolled::Scroll<'a>);

} // verus!

verus! {

/// `rat_scrolled::ScrollState`, carried through as an opaque value.
#[verifier::external_type_specification]
#[verifier::external_body]
pub struct ExScrollState(rat_scrolled::ScrollState);

/// `rat_scrolled::ScrollStyle`, carried through as an opaque value.
#[verifier::external_type_specification]
#[verifier::external_body]
pub struct ExScrollStyle(rat_scrolled::ScrollStyle);

/// `rat_focus::FocusFlag`, a shared focus cell; opaque here.
#[verifier::external_type_specification]
#[verifier::external_body]
pub struct ExFocusFlag(rat_focus::FocusFlag);

/// `rat_event::util::MouseFlags`, mouse state for one area; opaque here.
#[verifier::external_type_specification]
#[verifier::external_body]
pub struct ExMouseFlags(rat_event::util::MouseFlags);

/// `rat_event::util::MouseFlagsN`, mouse state for several areas; opaque here.
#[verifier::external_type_specification]
#[verifier::external_body]
pub struct ExMouseFlagsN(rat_event::util::MouseFlagsN);

/// `FocusFlag::get`: whether the flag is set now. The flag is a cell that
/// other clones of it may change, so nothing is claimed of the result.
#[verifier::external_body]
pub(crate) fn focus_flag_get(flag: &rat_focus::FocusFlag) -> bool {
    flag.get()
}

/// `FocusFlag::set`: sets the flag through the shared cell.
#[verifier::external_body]
pub(crate) fn focus_flag_set(flag: &rat_focus::FocusFlag, focus: bool) {
    flag.set(focus)
}

/// `FocusFlag::set_gained`: sets the "focus gained" mark through the
/// shared cell.
#[verifier::external_body]
pub(crate) fn focus_flag_set_gained(flag: &rat_focus::FocusFlag, gained: bool) {
    flag.set_gained(gained)
}

/// `FocusFlag::set_lost`: sets the "focus lost" mark through the shared
/// cell.
#[verifier::external_body]
pub(crate) fn focus_flag_set_lost(flag: &rat_focus::FocusFlag, lost: bool) {
    flag.set_lost(lost)
}

/// `FocusFlag::named`: a new flag with the given name.
#[verifier::external_body]
pub(crate) fn focus_flag_named(name: &str) -> rat_focus::FocusFlag {
    rat_focus::FocusFlag::named(name)
}

/// `FocusFlag::default`: a new, unnamed flag.
#[verifier::external_body]
pub(crate) fn focus_flag_default() -> rat_focus::FocusFlag {
    rat_focus::FocusFlag::default()
}

/// `ScrollState::default`.
#[verifier::external_body]
pub(crate) fn scroll_state_default() -> rat_scrolled::ScrollState {
    rat_scrolled::ScrollState::default()
}

/// Sets the `area` field of a `ScrollState` to the empty rectangle.
#[verifier::external_body]
pub(crate) fn scroll_state_clear_area(state: &mut rat_scrolled::ScrollState) {
    state.area = ratatui::layout::Rect::default()
}

/// `MouseFlags::default`.
#[verifier::external_body]
pub(crate) fn mouse_flags_default() -> rat_event::util::MouseFlags {
    rat_event::util::MouseFlags::default()
}

/// `MouseFlagsN::default`.
#[verifier::external_body]
pub(crate) fn mouse_flags_n_default() -> rat_event::util::MouseFlagsN {
    rat_event::util::MouseFlagsN::default()
}

/// `Style::default`.
#[verifier::external_body]
pub(crate) fn style_default() -> ratatui::style::Style {
    ratatui::style::Style::default()
}

} // verus!

verus! {

/// `BlockExt::inner_if_some` of ratatui: the area inside the block's
/// borders, titles and padding, or the area itself without a block. The
/// source of `Block::inner` only moves the left and top edges inwards and
/// only shortens width and height, which is what is claimed here; how far
/// depends on the block's borders, titles and padding, which are not
/// visible here.
#[verifier::external_body]
pub(crate) fn block_inner_if_some(block: &Option<ratatui::widgets::Block<'_>>, area: crate::geometry::Rect) -> (r: crate::geometry::Rect)
    ensures
        block is None ==> r == area,
        area.x <= r.x,
        area.y <= r.y,
        r.width <= area.width,
        r.height <= area.height,
{
    let inner = block.inner_if_some(ratatui::layout::Rect { x: area.x, y: area.y, width: area.width, height: area.height });
    crate::geometry::Rect { x: inner.x, y: inner.y, width: inner.width, height: inner.height }
}

/// `Scroll::styles`: the scroll bar with the given styles.
#[verifier::external_body]
pub(crate) fn scroll_styles<'a>(scroll: rat_scrolled::Scroll<'a>, styles: rat_scrolled::ScrollStyle) -> rat_scrolled::Scroll<'a> {
    scroll.styles(styles)
}

/// `ScrollStyle::clone`.
#[verifier::external_body]
pub(crate) fn scroll_style_clone(styles: &rat_scrolled::ScrollStyle) -> rat_scrolled::ScrollStyle {
    styles.clone()
}

} // verus!

verus! {

/// Whether ratatui's `Layout::new(direction, constraints).flex(flex)
/// .split(area)` can give `rects` for these arguments. Nothing is known of
/// it beyond that `layout_split`'s result is such a list: which of several
/// solutions the constraint solver picks rests on the order in which it
/// walks hash maps with randomly seeded hashers.
pub uninterp spec fn solver_gave(direction: crate::geometry::Direction, flex: crate::geometry::LayoutFlex, constraints: Seq<crate::geometry::LayoutConstraint>, area: crate::geometry::Rect, rects: Seq<crate::geometry::Rect>) -> bool;

/// `Layout::new(direction, constraints).flex(flex).split(area)` of ratatui.
///
/// Claimed, as the source of `Layout::try_split` and `changes_to_rects`
/// shows: the result is one the solver can give for exactly these
/// arguments (`solver_gave`); there is one rectangle per constraint; along
/// the layout direction each rectangle starts and ends inside the area (the
/// solver's required constraints keep every edge between the area's start
/// and end, and each segment's start before its end); across it, each
/// rectangle has the area's start and extent. The order of the rectangles
/// and whether they overlap is left open: the solver keeps the gaps
/// between segments at zero only with a strength below required. The
/// source panics ("failed to split") when the solver rejects its input,
/// which is not characterized here.
#[verifier::external_body]
pub(crate) fn layout_split(
    direction: crate::geometry::Direction,
    flex: crate::geometry::LayoutFlex,
    constraints: &Vec<crate::geometry::LayoutConstraint>,
    area: crate::geometry::Rect,
) -> (r: Vec<crate::geometry::Rect>)
    ensures
        solver_gave(direction, flex, constraints@, area, r@),
        r@.len() == constraints@.len(),
        forall|i: int|
            0 <= i < r@.len() && direction == crate::geometry::Direction::Horizontal ==> area.x <= #[trigger] r@[i].x
                && r@[i].x + r@[i].width <= area.spec_right() && r@[i].y == area.y && r@[i].height == area.height,
        forall|i: int|
            0 <= i < r@.len() && direction == crate::geometry::Direction::Vertical ==> area.y <= #[trigger] r@[i].y
                && r@[i].y + r@[i].height <= area.spec_bottom() && r@[i].x == area.x && r@[i].width == area.width,
{
    let cs: Vec<ratatui::layout::Constraint> = constraints.iter().map(|c| ratatui_constraint(*c)).collect();
    let dir = match direction {
        crate::geometry::Direction::Horizontal => ratatui::layout::Direction::Horizontal,
        crate::geometry::Direction::Vertical => ratatui::layout::Direction::Vertical,
    };
    let layout = ratatui::layout::Layout::new(dir, cs).flex(ratatui_flex(flex));
    let rects = layout.split(ratatui::layout::Rect { x: area.x, y: area.y, width: area.width, height: area.height });
    rects.iter().map(|r| crate::geometry::Rect { x: r.x, y: r.y, width: r.width, height: r.height }).collect()
}

/// The ratatui constraint for a constraint, variant by variant.
#[verifier::external_body]
fn ratatui_constraint(c: crate::geometry::LayoutConstraint) -> ratatui::layout::Constraint {
    match c {
        crate::geometry::LayoutConstraint::Min(v) => ratatui::layout::Constraint::Min(v),
        crate::geometry::LayoutConstraint::Max(v) => ratatui::layout::Constraint::Max(v),
        crate::geometry::LayoutConstraint::Length(v) => ratatui::layout::Constraint::Length(v),
        crate::geometry::LayoutConstraint::Percentage(v) => ratatui::layout::Constraint::Percentage(v),
        crate::geometry::LayoutConstraint::Ratio(a, b) => ratatui::layout::Constraint::Ratio(a, b),
        crate::geometry::LayoutConstraint::Fill(v) => ratatui::layout::Constraint::Fill(v),
    }
}

/// The ratatui flex mode for a flex mode.
#[verifier::external_body]
fn ratatui_flex(f: crate::geometry::LayoutFlex) -> ratatui::layout::Flex {
    match f {
        crate::geometry::LayoutFlex::Legacy => ratatui::layout::Flex::Legacy,
        crate::geometry::LayoutFlex::Start => ratatui::layout::Flex::Start,
    }
}

} // verus!

verus! {

/// `ratatui::text::Text`, carried through as an opaque value.
#[verifier::external_type_specification]
#[verifier::external_body]
pub struct ExText<'a>(ratatui::text::Text<'a>);

/// `Text::centered`.
#[verifier::external_body]
pub(crate) fn text_centered<'a>(text: ratatui::text::Text<'a>) -> ratatui::text::Text<'a> {
    text.centered()
}

/// `Text::left_aligned`.
#[verifier::external_body]
pub(crate) fn text_left_aligned<'a>(text: ratatui::text::Text<'a>) -> ratatui::text::Text<'a> {
    text.left_aligned()
}

/// `Text::right_aligned`.
#[verifier::external_body]
pub(crate) fn text_right_aligned<'a>(text: ratatui::text::Text<'a>) -> ratatui::text::Text<'a> {
    text.right_aligned()
}

/// `Text::width`: display width of the widest line. Depends on the text's
/// content, which is opaque here.
#[verifier::external_body]
pub(crate) fn text_width(text: &ratatui::text::Text<'_>) -> usize {
    text.width()
}

/// `Text::height`: number of lines. Depends on the text's content, which
/// is opaque here.
#[verifier::external_body]
pub(crate) fn text_height(text: &ratatui::text::Text<'_>) -> usize {
    text.height()
}

/// `Text::default`: empty text.
#[verifier::external_body]
pub(crate) fn text_default<'a>() -> ratatui::text::Text<'a> {
    ratatui::text::Text::default()
}

/// `Block::style`: the block with its base style set.
#[verifier::external_body]
pub(crate) fn block_style<'a>(block: ratatui::widgets::Block<'a>, style: ratatui::style::Style) -> ratatui::widgets::Block<'a> {
    block.style(style)
}

/// `FocusFlag::name`: the flag's name, as a `String`.
#[verifier::external_body]
pub(crate) fn focus_flag_name(flag: &rat_focus::FocusFlag) -> String {
    flag.name().to_string()
}

/// What `rat_reloc::relocate_area` returns: each edge of the area moved by
/// `shift` (held on the screen), the result cut to `clip`, and the default
/// rectangle where no area is left.
pub open spec fn relocated_area(area: crate::geometry::Rect, shift: (i16, i16), clip: crate::geometry::Rect) -> crate::geometry::Rect {
    let x0 = crate::geometry::sat_add_signed(area.x, shift.0);
    let x1 = crate::geometry::sat_add_signed(area.spec_right(), shift.0);
    let y0 = crate::geometry::sat_add_signed(area.y, shift.1);
    let y1 = crate::geometry::sat_add_signed(area.spec_bottom(), shift.1);
    let moved = crate::geometry::rect_new(x0, y0, (x1 - x0) as u16, (y1 - y0) as u16);
    let cut = moved.spec_intersection(clip);
    if cut.width == 0 || cut.height == 0 {
        crate::geometry::Rect { x: 0, y: 0, width: 0, height: 0 }
    } else {
        cut
    }
}

/// `rat_reloc::relocate_area`. Claimed, as its source shows: the result is
/// `relocated_area` of the arguments.
#[verifier::external_body]
pub(crate) fn relocate_area(area: crate::geometry::Rect, shift: (i16, i16), clip: crate::geometry::Rect) -> (r: crate::geometry::Rect)
    ensures
        r == relocated_area(area, shift, clip),
{
    let a = ratatui::layout::Rect { x: area.x, y: area.y, width: area.width, height: area.height };
    let c = ratatui::layout::Rect { x: clip.x, y: clip.y, width: clip.width, height: clip.height };
    let r = rat_reloc::relocate_area(a, shift, c);
    crate::geometry::Rect { x: r.x, y: r.y, width: r.width, height: r.height }
}

} // verus!

verus! {

/// `crossterm::event::MouseEvent`, carried through as an opaque value.
#[verifier::external_type_specification]
#[verifier::external_body]
pub struct ExMouseEvent(crossterm::event::MouseEvent);

/// `MouseFlagsN::drag` of rat-event with the split bars as the areas.
/// Its source keeps the dragged index in a cell of the flags: a left press
/// without modifiers records the last area that contains it (or none), a
/// left release or a move forgets it, and the call returns true only for a
/// left drag without modifiers while an index is recorded. The result
/// depends on that cell, so nothing is claimed of it.
#[verifier::external_body]
pub(crate) fn mouse_flags_n_drag(
    flags: &rat_event::util::MouseFlagsN,
    areas: &Vec<crate::geometry::Rect>,
    event: &crossterm::event::MouseEvent,
) -> bool {
    let areas: Vec<ratatui::layout::Rect> = areas.iter().map(
        |a| ratatui::layout::Rect { x: a.x, y: a.y, width: a.width, height: a.height },
    ).collect();
    flags.drag(&areas, event)
}

/// Reads the dragged index that `MouseFlagsN` keeps in a cell. The cell
/// changes through shared references, so nothing is claimed of the result.
#[verifier::external_body]
pub(crate) fn mouse_flags_n_dragged(flags: &rat_event::util::MouseFlagsN) -> Option<usize> {
    flags.drag.get()
}


} // verus!

verus! {

/// `ropey::Rope`, a text held as a tree of chunks; opaque here.
#[verifier::external_type_specification]
#[verifier::external_body]
pub struct ExRope(ropey::Rope);

/// The chars of the text that a rope holds.
pub uninterp spec fn rope_text(rope: ropey::Rope) -> Seq<char>;

/// Bytes that UTF-8 takes for a char.
pub open spec fn utf8_width(c: char) -> nat {
    if (c as u32) < 0x80 {
        1
    } else if (c as u32) < 0x800 {
        2
    } else if (c as u32) < 0x10000 {
        3
    } else {
        4
    }
}

/// Bytes that UTF-8 takes for a text.
pub open spec fn utf8_len(s: Seq<char>) -> nat
    decreases s.len(),
{
    if s.len() == 0 {
        0
    } else {
        utf8_len(s.drop_last()) + utf8_width(s.last())
    }
}

/// The chars that end a line for ropey with its default features: line
/// feed, vertical tab, form feed, carriage return, next line, line
/// separator and paragraph separator.
pub open spec fn is_line_break(c: char) -> bool {
    c == '\n' || c == '\u{0B}' || c == '\u{0C}' || c == '\r' || c == '\u{85}' || c == '\u{2028}' || c == '\u{2029}'
}

/// Number of line breaks in a text; a carriage return followed by a line
/// feed counts once.
pub open spec fn line_breaks(s: Seq<char>) -> nat
    decreases s.len(),
{
    if s.len() == 0 {
        0
    } else {
        let n = s.len() as int;
        let crlf = s[n - 1] == '\n' && n >= 2 && s[n - 2] == '\r';
        line_breaks(s.drop_last()) + if is_line_break(s[n - 1]) && !crlf {
            1nat
        } else {
            0nat
        }
    }
}

/// `Rope::new`: the empty text.
#[verifier::external_body]
pub(crate) fn rope_new() -> (r: ropey::Rope)
    ensures
        rope_text(r) == Seq::<char>::empty(),
{
    ropey::Rope::new()
}

/// `Rope::from_str`: a rope with the given text.
#[verifier::external_body]
pub(crate) fn rope_from_str(text: &str) -> (r: ropey::Rope)
    ensures
        rope_text(r) == text@,
{
    ropey::Rope::from_str(text)
}

/// `String::from(&Rope)`: the rope's text as a string.
#[verifier::external_body]
pub(crate) fn rope_to_string(rope: &ropey::Rope) -> (r: String)
    ensures
        r@ == rope_text(*rope),
{
    String::from(rope)
}

/// `Rope::len_chars`: the number of chars.
#[verifier::external_body]
pub(crate) fn rope_len_chars(rope: &ropey::Rope) -> (r: usize)
    ensures
        r == rope_text(*rope).len(),
{
    rope.len_chars()
}

/// `Rope::len_bytes`: the length of the text in UTF-8.
#[verifier::external_body]
pub(crate) fn rope_len_bytes(rope: &ropey::Rope) -> (r: usize)
    ensures
        r == utf8_len(rope_text(*rope)),
{
    rope.len_bytes()
}

/// `Rope::len_lines`: the line breaks plus one (a text that ends with a
/// line break has a last, empty line).
#[verifier::external_body]
pub(crate) fn rope_len_lines(rope: &ropey::Rope) -> (r: usize)
    ensures
        r == line_breaks(rope_text(*rope)) + 1,
{
    rope.len_lines()
}

} // verus!

verus! {

/// `Rope::insert`: the text inserted at a char index.
#[verifier::external_body]
pub(crate) fn rope_insert(rope: &mut ropey::Rope, c: usize, t: &str)
    requires
        c <= rope_text(*old(rope)).len(),
    ensures
        rope_text(*final(rope)) == rope_text(*old(rope)).take(c as int) + t@ + rope_text(*old(rope)).skip(c as int),
{
    rope.insert(c, t)
}

/// `Rope::remove`: the chars of `start..end` removed.
#[verifier::external_body]
pub(crate) fn rope_remove(rope: &mut ropey::Rope, start: usize, end: usize)
    requires
        start <= end <= rope_text(*old(rope)).len(),
    ensures
        rope_text(*final(rope)) == rope_text(*old(rope)).take(start as int) + rope_text(*old(rope)).skip(end as int),
{
    rope.remove(start..end)
}

/// `Rope::slice(start..end).to_string()`: the chars of `start..end`.
#[verifier::external_body]
pub(crate) fn rope_slice_string(rope: &ropey::Rope, start: usize, end: usize) -> (r: String)
    requires
        start <= end <= rope_text(*rope).len(),
    ensures
        r@ == rope_text(*rope).subrange(start as int, end as int),
{
    rope.slice(start..end).to_string()
}

/// `Rope::slice(start..end).chars()`, collected: the chars of `start..end`.
#[verifier::external_body]
pub(crate) fn rope_slice_chars(rope: &ropey::Rope, start: usize, end: usize) -> (r: Vec<char>)
    requires
        start <= end <= rope_text(*rope).len(),
    ensures
        r@ == rope_text(*rope).subrange(start as int, end as int),
{
    rope.slice(start..end).chars().collect()
}

/// The UTF-8 encoding of a char.
pub open spec fn utf8_bytes(c: char) -> Seq<u8> {
    let v = c as u32 as int;
    if v < 0x80 {
        seq![v as u8]
    } else if v < 0x800 {
        seq![(0xC0 + v / 64) as u8, (0x80 + v % 64) as u8]
    } else if v < 0x10000 {
        seq![(0xE0 + v / 4096) as u8, (0x80 + (v / 64) % 64) as u8, (0x80 + v % 64) as u8]
    } else {
        seq![
            (0xF0 + v / 262144) as u8,
            (0x80 + (v / 4096) % 64) as u8,
            (0x80 + (v / 64) % 64) as u8,
            (0x80 + v % 64) as u8,
        ]
    }
}

/// The UTF-8 encoding of a text.
pub open spec fn utf8_of(s: Seq<char>) -> Seq<u8>
    decreases s.len(),
{
    if s.len() == 0 {
        Seq::empty()
    } else {
        utf8_of(s.drop_last()) + utf8_bytes(s.last())
    }
}

/// `Rope::slice(start..end).bytes()`, collected: the UTF-8 bytes of the
/// chars `start..end`.
#[verifier::external_body]
pub(crate) fn rope_slice_bytes(rope: &ropey::Rope, start: usize, end: usize) -> (r: Vec<u8>)
    requires
        start <= end <= rope_text(*rope).len(),
    ensures
        r@ == utf8_of(rope_text(*rope).subrange(start as int, end as int)),
{
    rope.slice(start..end).bytes().collect()
}

/// Byte `b` of the text's UTF-8 lies in char `c`, or it is the end of the
/// text and `c` the number of chars.
pub open spec fn byte_in_char(text: Seq<char>, b: nat, c: nat) -> bool {
    &&& c <= text.len()
    &&& utf8_len(text.take(c as int)) <= b
    &&& c < text.len() ==> b < utf8_len(text.take(c + 1int))
    &&& c == text.len() ==> b == utf8_len(text)
}

/// `Rope::byte_to_char`: the char that the byte belongs to, or the char
/// count for the end of the text.
#[verifier::external_body]
pub(crate) fn rope_byte_to_char(rope: &ropey::Rope, byte: usize) -> (r: usize)
    requires
        byte <= utf8_len(rope_text(*rope)),
    ensures
        byte_in_char(rope_text(*rope), byte as nat, r as nat),
{
    rope.byte_to_char(byte)
}

/// `Rope::char_to_byte`: where the char starts in the text's UTF-8.
#[verifier::external_body]
pub(crate) fn rope_char_to_byte(rope: &ropey::Rope, c: usize) -> (r: usize)
    requires
        c <= rope_text(*rope).len(),
    ensures
        r == utf8_len(rope_text(*rope).take(c as int)),
{
    rope.char_to_byte(c)
}

/// What `Rope::line_to_char` returns: the char index where a line of the
/// text starts (line breaks as ropey counts them, see `line_breaks`).
pub uninterp spec fn line_start_of(text: Seq<char>, line: nat) -> nat;

/// `Rope::line_to_char`. Claimed, as its documentation and
/// `try_line_to_char` show: line 0 starts at 0, no line starts past the
/// end, a later line does not start earlier, and the line one past the
/// last starts at the end.
#[verifier::external_body]
pub(crate) fn rope_line_to_char(rope: &ropey::Rope, line: usize) -> (r: usize)
    requires
        line <= line_breaks(rope_text(*rope)) + 1,
    ensures
        r == line_start_of(rope_text(*rope), line as nat),
        line == 0 ==> r == 0,
        r <= rope_text(*rope).len(),
        line == line_breaks(rope_text(*rope)) + 1 ==> r == rope_text(*rope).len(),
        forall|later: nat|
            line < later <= line_breaks(rope_text(*rope)) + 1 ==> r <= #[trigger] line_start_of(rope_text(*rope), later),
{
    rope.line_to_char(line)
}

/// The number of chars in all parts together.
pub open spec fn parts_len(parts: Seq<Seq<char>>) -> nat
    decreases parts.len(),
{
    if parts.len() == 0 {
        0
    } else {
        parts_len(parts.drop_last()) + parts.last().len()
    }
}

/// What `UnicodeSegmentation::graphemes(s, true)` yields: the extended
/// grapheme clusters of the text, in order.
pub uninterp spec fn grapheme_parts(s: Seq<char>) -> Seq<Seq<char>>;

/// `UnicodeSegmentation::graphemes(s, true)`, each cluster as a string.
/// Claimed, as the crate documents: the clusters are not empty and
/// together they are the text.
#[verifier::external_body]
pub(crate) fn graphemes(s: &str) -> (r: Vec<String>)
    ensures
        r@.len() == grapheme_parts(s@).len(),
        forall|i: int| 0 <= i < r@.len() ==> #[trigger] r@[i]@ == grapheme_parts(s@)[i],
        forall|i: int| 0 <= i < r@.len() ==> #[trigger] r@[i]@.len() > 0,
        parts_len(r@.map_values(|g: String| g@)) == s@.len(),
{
    unicode_segmentation::UnicodeSegmentation::graphemes(s, true).map(|g| g.to_string()).collect()
}

} // verus!
