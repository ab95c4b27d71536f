//! Text positions and ranges of a text area, and the map of styled ranges
//! that follows the text through edits.

use crate::outside::{
    byte_in_char, grapheme_parts, graphemes, is_line_break, line_breaks, line_start_of, parts_len, rope_from_str, rope_byte_to_char, rope_char_to_byte, rope_insert, rope_len_bytes,
    rope_len_chars, rope_len_lines, rope_line_to_char, rope_new, rope_remove, rope_slice_bytes, rope_slice_chars, rope_slice_string, rope_text, rope_to_string,
    utf8_len, utf8_of,
};
use crate::undo::{pushed_entries, UndoEntry, UndoOp, UndoVec};
use ropey::Rope;
use vstd::prelude::*;
use vstd::string::StringExecFns;

verus! {

/// Position for text.
#[derive(Default, PartialEq, Eq, Structural, PartialOrd, Ord, Clone, Copy, Debug)]
pub struct TextPosition {
    pub y: usize,
    pub x: usize,
}

/// Range for text ranges.
#[derive(Default, PartialEq, Eq, Structural, PartialOrd, Ord, Clone, Copy, Debug)]
pub struct TextRange {
    /// column, row
    pub start: TextPosition,
    /// column, row
    pub end: TextPosition,
}

/// Positions are ordered by row, then column.
pub open spec fn pos_lt(a: TextPosition, b: TextPosition) -> bool {
    a.y < b.y || (a.y == b.y && a.x < b.x)
}

/// `a` comes before `b` or is `b`.
pub open spec fn pos_le(a: TextPosition, b: TextPosition) -> bool {
    a.y < b.y || (a.y == b.y && a.x <= b.x)
}

fn lt(a: TextPosition, b: TextPosition) -> (r: bool)
    ensures
        r == pos_lt(a, b),
{
    a.y < b.y || (a.y == b.y && a.x < b.x)
}

fn le(a: TextPosition, b: TextPosition) -> (r: bool)
    ensures
        r == pos_le(a, b),
{
    a.y < b.y || (a.y == b.y && a.x <= b.x)
}

impl From<(usize, usize)> for TextPosition {
    fn from(value: (usize, usize)) -> (r: Self) {
        Self { y: value.1, x: value.0 }
    }
}

impl vstd::std_specs::convert::FromSpecImpl<(usize, usize)> for TextPosition {
    open spec fn obeys_from_spec() -> bool {
        true
    }

    open spec fn from_spec(value: (usize, usize)) -> TextPosition {
        TextPosition { y: value.1, x: value.0 }
    }
}

impl TextPosition {
    /// New position.
    pub fn new(x: usize, y: usize) -> (r: TextPosition)
        ensures
            r.x == x,
            r.y == y,
    {
        Self::from((x, y))
    }
}

/// The position `pos` after the text of range `r` was inserted at
/// `r.start`: the insert point itself moves to `r.end`, later positions on
/// the same row move by the inserted width and get the inserted rows added,
/// positions on later rows get the inserted rows added.
pub open spec fn expand_spec(r: TextRange, pos: TextPosition) -> TextPosition {
    let delta_lines = r.end.y - r.start.y;
    if pos_lt(pos, r.start) {
        pos
    } else if pos == r.start {
        r.end
    } else if pos.y > r.start.y {
        TextPosition { x: pos.x, y: (pos.y + delta_lines) as usize }
    } else if pos.y == r.start.y {
        if pos.x >= r.start.x {
            TextPosition {
                x: (pos.x - r.start.x + r.end.x) as usize,
                y: (pos.y + delta_lines) as usize,
            }
        } else {
            pos
        }
    } else {
        pos
    }
}

/// `expand` computes without overflow: the range does not go upwards, and
/// the moved position fits into `usize`.
pub open spec fn expand_fits(r: TextRange, pos: TextPosition) -> bool {
    let delta_lines = r.end.y - r.start.y;
    &&& r.start.y <= r.end.y
    &&& (!pos_lt(pos, r.start) && pos != r.start && pos.y >= r.start.y) ==> pos.y + delta_lines
        <= usize::MAX
    &&& (!pos_lt(pos, r.start) && pos != r.start && pos.y == r.start.y && pos.x >= r.start.x)
        ==> pos.x - r.start.x + r.end.x <= usize::MAX
}

/// The position `pos` after the text of range `r` was removed: positions
/// inside the range collapse to its start, later positions on the end row
/// move left by the removed width and up by the removed rows, positions on
/// later rows move up by the removed rows.
pub open spec fn shrink_spec(r: TextRange, pos: TextPosition) -> TextPosition {
    let delta_lines = r.end.y - r.start.y;
    if pos_lt(pos, r.start) {
        pos
    } else if pos_le(r.start, pos) && pos_le(pos, r.end) {
        r.start
    } else if pos.y > r.end.y {
        TextPosition { x: pos.x, y: (pos.y - delta_lines) as usize }
    } else if pos.y == r.end.y {
        if pos.x >= r.end.x {
            TextPosition {
                x: (pos.x - r.end.x + r.start.x) as usize,
                y: (pos.y - delta_lines) as usize,
            }
        } else {
            pos
        }
    } else {
        pos
    }
}

/// `shrink` computes without overflow.
pub open spec fn shrink_fits(r: TextRange, pos: TextPosition) -> bool {
    &&& r.start.y <= r.end.y
    &&& (!pos_lt(pos, r.start) && !(pos_le(r.start, pos) && pos_le(pos, r.end)) && pos.y
        == r.end.y && pos.x >= r.end.x) ==> pos.x - r.end.x + r.start.x <= usize::MAX
}

/// What the range says of a position: `Less` when the position lies at or
/// after the range's end, `Greater` when it lies before its start, `Equal`
/// when the range contains it.
pub open spec fn range_order_pos(r: TextRange, pos: TextPosition) -> PosOrder {
    if pos_le(r.end, pos) {
        PosOrder::Less
    } else if pos_lt(pos, r.start) {
        PosOrder::Greater
    } else {
        PosOrder::Equal
    }
}

/// The three answers of comparing a range with a position.
#[derive(PartialEq, Eq, Structural, Clone, Copy, Debug)]
pub enum PosOrder {
    Less,
    Equal,
    Greater,
}

impl TextRange {
    /// New text range.
    ///
    /// The start must not lie after the end.
    pub fn new(start: TextPosition, end: TextPosition) -> (r: Self)
        requires
            pos_le(start, end),
        ensures
            r.start == start,
            r.end == end,
    {
        TextRange { start, end }
    }

    /// Empty range
    pub fn is_empty(&self) -> (r: bool)
        ensures
            r == (self.start == self.end),
    {
        self.start == self.end
    }

    /// Compares the range with a position.
    pub fn compare_pos(&self, pos: TextPosition) -> (r: PosOrder)
        ensures
            r == range_order_pos(*self, pos),
    {
        if le(self.end, pos) {
            PosOrder::Less
        } else if lt(pos, self.start) {
            PosOrder::Greater
        } else {
            PosOrder::Equal
        }
    }

    /// Range contains the given position.
    pub fn contains_pos(&self, pos: TextPosition) -> (r: bool)
        ensures
            r == (pos_le(self.start, pos) && pos_lt(pos, self.end)),
    {
        le(self.start, pos) && lt(pos, self.end)
    }

    /// Range fully before the given position.
    pub fn before_pos(&self, pos: TextPosition) -> (r: bool)
        ensures
            r == (range_order_pos(*self, pos) == PosOrder::Less),
            r == pos_le(self.end, pos),
    {
        self.compare_pos(pos) == PosOrder::Less
    }

    /// Range fully after the given position.
    pub fn after_pos(&self, pos: TextPosition) -> (r: bool)
        ensures
            r == (range_order_pos(*self, pos) == PosOrder::Greater),
            r == (!pos_le(self.end, pos) && pos_lt(pos, self.start)),
    {
        self.compare_pos(pos) == PosOrder::Greater
    }

    /// Range contains the other range.
    pub fn contains(&self, other: TextRange) -> (r: bool)
        ensures
            r == (pos_le(self.start, other.start) && pos_le(other.end, self.end)),
    {
        le(self.start, other.start) && le(other.end, self.end)
    }

    /// Range before the other range.
    pub fn before(&self, other: TextRange) -> (r: bool)
        ensures
            r == pos_lt(self.end, other.start),
    {
        lt(self.end, other.start)
    }

    /// Range after the other range.
    pub fn after(&self, other: TextRange) -> (r: bool)
        ensures
            r == pos_lt(other.end, self.start),
    {
        lt(other.end, self.start)
    }

    /// Range overlaps with other range.
    pub fn intersects(&self, other: TextRange) -> (r: bool)
        ensures
            r == (pos_le(other.start, self.end) && pos_le(self.start, other.end)),
    {
        le(other.start, self.end) && le(self.start, other.end)
    }

    /// Return the modified position, as if this range expanded from its
    /// start to its full expansion.
    pub fn expand(&self, pos: TextPosition) -> (r: TextPosition)
        requires
            expand_fits(*self, pos),
        ensures
            r == expand_spec(*self, pos),
    {
        let delta_lines = self.end.y - self.start.y;

        if lt(pos, self.start) {
            pos
        } else if pos == self.start {
            self.end
        } else {
            if pos.y > self.start.y {
                TextPosition::new(pos.x, pos.y + delta_lines)
            } else if pos.y == self.start.y {
                if pos.x >= self.start.x {
                    TextPosition::new(pos.x - self.start.x + self.end.x, pos.y + delta_lines)
                } else {
                    pos
                }
            } else {
                pos
            }
        }
    }

    /// Return the modified position, as if this range would shrink to nothing.
    pub fn shrink(&self, pos: TextPosition) -> (r: TextPosition)
        requires
            shrink_fits(*self, pos),
        ensures
            r == shrink_spec(*self, pos),
    {
        let delta_lines = self.end.y - self.start.y;

        if lt(pos, self.start) {
            pos
        } else if le(self.start, pos) && le(pos, self.end) {
            self.start
        } else {
            // after row
            if pos.y > self.end.y {
                TextPosition::new(pos.x, pos.y - delta_lines)
            } else if pos.y == self.end.y {
                if pos.x >= self.end.x {
                    TextPosition::new(pos.x - self.end.x + self.start.x, pos.y - delta_lines)
                } else {
                    pos
                }
            } else {
                pos
            }
        }
    }
}

} // verus!

verus! {

/// Combined Range + Style.
#[derive(Default, Clone, Copy, PartialEq, Eq, Structural, PartialOrd, Ord, Debug)]
pub struct StyledRange {
    pub range: TextRange,
    pub style: usize,
}

/// Styled ranges are ordered by range start, then range end, then style.
pub open spec fn styled_lt(a: StyledRange, b: StyledRange) -> bool {
    ||| pos_lt(a.range.start, b.range.start)
    ||| a.range.start == b.range.start && pos_lt(a.range.end, b.range.end)
    ||| a.range.start == b.range.start && a.range.end == b.range.end && a.style < b.style
}

/// No style occurs twice.
pub open spec fn styles_distinct(s: Seq<StyledRange>) -> bool {
    forall|i: int, j: int| 0 <= i < j < s.len() ==> s[i] != s[j]
}

/// Of two distinct styled ranges, one comes before the other.
proof fn lemma_styled_total(a: StyledRange, b: StyledRange)
    requires
        a != b,
    ensures
        styled_lt(a, b) || styled_lt(b, a),
{
    if a.range.start == b.range.start && a.range.end == b.range.end {
        assert(a.style != b.style);
    }
}

/// Two style lists that are sorted, hold each style once and hold the same
/// styles are the same list: such a list is fixed by the styles it holds.
pub proof fn lemma_sorted_styles_unique(s1: Seq<StyledRange>, s2: Seq<StyledRange>)
    requires
        styles_sorted(s1),
        styles_distinct(s1),
        styles_sorted(s2),
        styles_distinct(s2),
        forall|x: StyledRange| s1.contains(x) <==> s2.contains(x),
    ensures
        s1 == s2,
    decreases s1.len(),
{
    if s1.len() == 0 {
        if s2.len() > 0 {
            assert(s2.contains(s2[0]));
        }
        assert(s1 =~= s2);
    } else {
        assert(s1.contains(s1[0]));
        assert(s2.len() > 0);
        assert(s2.contains(s2[0]));
        if s1[0] != s2[0] {
            let k = choose|k: int| 0 <= k < s1.len() && s1[k] == s2[0];
            let m = choose|m: int| 0 <= m < s2.len() && s2[m] == s1[0];
            assert(k != 0 && m != 0);
            lemma_styled_total(s1[0], s2[0]);
            assert(!styled_lt(s1[k], s1[0]));
            assert(!styled_lt(s2[m], s2[0]));
            assert(false);
        }
        let t1 = s1.drop_first();
        let t2 = s2.drop_first();
        assert forall|x: StyledRange| t1.contains(x) <==> t2.contains(x) by {
            if t1.contains(x) {
                let k = choose|k: int| 0 <= k < t1.len() && t1[k] == x;
                assert(s1[k + 1] == x);
                assert(x != s1[0]);
                assert(s2.contains(x));
                let m = choose|m: int| 0 <= m < s2.len() && s2[m] == x;
                assert(m != 0);
                assert(t2[m - 1] == x);
            }
            if t2.contains(x) {
                let k = choose|k: int| 0 <= k < t2.len() && t2[k] == x;
                assert(s2[k + 1] == x);
                assert(x != s2[0]);
                assert(s1.contains(x));
                let m = choose|m: int| 0 <= m < s1.len() && s1[m] == x;
                assert(m != 0);
                assert(t1[m - 1] == x);
            }
        }
        assert forall|i: int, j: int| 0 <= i < j < t1.len() implies !styled_lt(#[trigger] t1[j], #[trigger] t1[i]) by {
            assert(t1[i] == s1[i + 1] && t1[j] == s1[j + 1]);
        }
        assert forall|i: int, j: int| 0 <= i < j < t2.len() implies !styled_lt(#[trigger] t2[j], #[trigger] t2[i]) by {
            assert(t2[i] == s2[i + 1] && t2[j] == s2[j + 1]);
        }
        assert forall|i: int, j: int| 0 <= i < j < t1.len() implies t1[i] != t1[j] by {
            assert(t1[i] == s1[i + 1] && t1[j] == s1[j + 1]);
        }
        assert forall|i: int, j: int| 0 <= i < j < t2.len() implies t2[i] != t2[j] by {
            assert(t2[i] == s2[i + 1] && t2[j] == s2[j + 1]);
        }
        lemma_sorted_styles_unique(t1, t2);
        assert(s1 =~= s2) by {
            assert forall|i: int| 0 <= i < s1.len() implies s1[i] == s2[i] by {
                if i > 0 {
                    assert(s1[i] == t1[i - 1] && s2[i] == t2[i - 1]);
                }
            }
        }
    }
}

/// Sorted: no entry comes before an earlier one.
pub open spec fn styles_sorted(s: Seq<StyledRange>) -> bool {
    forall|i: int, j: int| 0 <= i < j < s.len() ==> !styled_lt(#[trigger] s[j], #[trigger] s[i])
}

fn styled_less(a: StyledRange, b: StyledRange) -> (r: bool)
    ensures
        r == styled_lt(a, b),
{
    if lt(a.range.start, b.range.start) {
        true
    } else if a.range.start == b.range.start {
        if lt(a.range.end, b.range.end) {
            true
        } else if a.range.end == b.range.end {
            a.style < b.style
        } else {
            false
        }
    } else {
        false
    }
}

impl From<(TextRange, usize)> for StyledRange {
    fn from(value: (TextRange, usize)) -> (r: Self) {
        Self { range: value.0, style: value.1 }
    }
}

impl vstd::std_specs::convert::FromSpecImpl<(TextRange, usize)> for StyledRange {
    open spec fn obeys_from_spec() -> bool {
        true
    }

    open spec fn from_spec(value: (TextRange, usize)) -> StyledRange {
        StyledRange { range: value.0, style: value.1 }
    }
}

/// `after` is `before` with `sr` added: unchanged when `sr` is there
/// already, else `sr` inserted at some index.
pub open spec fn style_added(before: Seq<StyledRange>, sr: StyledRange, after: Seq<StyledRange>) -> bool {
    if before.contains(sr) {
        after == before
    } else {
        exists|i: int| 0 <= i <= before.len() && after == before.insert(i, sr)
    }
}

/// `after` is `before` with one occurrence of `sr` removed, or unchanged
/// when `sr` is not there.
pub open spec fn style_removed(before: Seq<StyledRange>, sr: StyledRange, after: Seq<StyledRange>) -> bool {
    if before.contains(sr) {
        exists|i: int| 0 <= i < before.len() && before[i] == sr && after == before.remove(i)
    } else {
        after == before
    }
}

/// The styled ranges of a text, kept sorted.
#[derive(Debug, Default, Clone)]
pub struct StyleMap {
    /// Vec of (range, style-idx)
    pub styles: Vec<StyledRange>,
}

impl StyleMap {
    /// The map is kept sorted.
    pub open spec fn wf(&self) -> bool {
        styles_sorted(self.styles@)
    }

    /// Index of the first entry that is not less than `sr`.
    fn lower_bound(&self, sr: StyledRange) -> (i: usize)
        requires
            self.wf(),
        ensures
            i <= self.styles@.len(),
            forall|k: int| 0 <= k < i ==> styled_lt(#[trigger] self.styles@[k], sr),
            forall|k: int| i <= k < self.styles@.len() ==> !styled_lt(#[trigger] self.styles@[k], sr),
    {
        let mut lo: usize = 0;
        let mut hi: usize = self.styles.len();
        while lo < hi
            invariant
                self.wf(),
                lo <= hi <= self.styles@.len(),
                forall|k: int| 0 <= k < lo ==> styled_lt(#[trigger] self.styles@[k], sr),
                forall|k: int| hi <= k < self.styles@.len() ==> !styled_lt(#[trigger] self.styles@[k], sr),
            decreases hi - lo,
        {
            let mid = lo + (hi - lo) / 2;
            if styled_less(self.styles[mid], sr) {
                assert forall|k: int| 0 <= k <= mid implies styled_lt(#[trigger] self.styles@[k], sr) by {
                    if k < mid {
                        assert(!styled_lt(self.styles@[mid as int], self.styles@[k]));
                    }
                }
                lo = mid + 1;
            } else {
                assert forall|k: int| mid <= k < self.styles@.len() implies !styled_lt(#[trigger] self.styles@[k], sr) by {
                    if k > mid {
                        assert(!styled_lt(self.styles@[k], self.styles@[mid as int]));
                    }
                }
                hi = mid;
            }
        }
        lo
    }

    /// Remove all styles.
    pub fn clear_styles(&mut self)
        ensures
            final(self).styles@ == Seq::<StyledRange>::empty(),
            final(self).wf(),
    {
        self.styles.clear();
    }

    /// Add a text-style for a range.
    ///
    /// The same range can be added again with a different style.
    /// Overlapping regions get the merged style.
    pub fn add_style(&mut self, range: TextRange, style: usize)
        requires
            old(self).wf(),
        ensures
            final(self).wf(),
            style_added(old(self).styles@, (StyledRange { range, style }), final(self).styles@),
    {
        let stylemap = StyledRange::from((range, style));
        let i = self.lower_bound(stylemap);
        if i < self.styles.len() && self.styles[i] == stylemap {
            // noop
        } else {
            proof {
                assert forall|k: int| 0 <= k < self.styles@.len() implies self.styles@[k] != stylemap by {
                    if k >= i {
                        assert(!styled_lt(self.styles@[k], stylemap));
                        if k > i {
                            assert(!styled_lt(self.styles@[k], self.styles@[i as int]));
                        }
                    }
                }
            }
            let ghost before = self.styles@;
            self.styles.insert(i, stylemap);
            proof {
                let s = self.styles@;
                assert(s == before.insert(i as int, stylemap));
                assert forall|a: int, b: int| 0 <= a < b < s.len() implies !styled_lt(#[trigger] s[b], #[trigger] s[a]) by {
                    if a < i && b == i {
                    } else if a == i && b > i {
                        assert(s[b] == before[b - 1]);
                    } else if a < i && b > i {
                        assert(s[b] == before[b - 1]);
                        assert(!styled_lt(before[b - 1], before[a]));
                    } else if a > i {
                        assert(s[a] == before[a - 1] && s[b] == before[b - 1]);
                        assert(!styled_lt(before[b - 1], before[a - 1]));
                    } else {
                        assert(!styled_lt(before[b], before[a]));
                    }
                }
            }
        }
    }

    /// Remove a text-style for a range.
    ///
    /// This must match exactly in range and style to be removed.
    pub fn remove_style(&mut self, range: TextRange, style: usize)
        requires
            old(self).wf(),
        ensures
            final(self).wf(),
            style_removed(old(self).styles@, (StyledRange { range, style }), final(self).styles@),
    {
        let stylemap = StyledRange::from((range, style));
        let i = self.lower_bound(stylemap);
        if i < self.styles.len() && self.styles[i] == stylemap {
            let ghost before = self.styles@;
            self.styles.remove(i);
            proof {
                let s = self.styles@;
                assert(s == before.remove(i as int));
                assert forall|a: int, b: int| 0 <= a < b < s.len() implies !styled_lt(#[trigger] s[b], #[trigger] s[a]) by {
                    if a < i && b < i {
                        assert(s[a] == before[a] && s[b] == before[b]);
                    } else if a < i {
                        assert(s[a] == before[a] && s[b] == before[b + 1]);
                        assert(!styled_lt(before[b + 1], before[a]));
                    } else {
                        assert(s[a] == before[a + 1] && s[b] == before[b + 1]);
                        assert(!styled_lt(before[b + 1], before[a + 1]));
                    }
                }
            }
        } else {
            proof {
                assert forall|k: int| 0 <= k < self.styles@.len() implies self.styles@[k] != stylemap by {
                    if k >= i {
                        assert(!styled_lt(self.styles@[k], stylemap));
                        if k > i {
                            assert(!styled_lt(self.styles@[k], self.styles@[i as int]));
                        }
                    }
                }
            }
        }
    }

    /// Index of the first style that is not entirely before `pos`: all
    /// styles before it end at or before `pos`.
    fn first_not_before(&self, pos: TextPosition) -> (first: usize)
        ensures
            first <= self.styles@.len(),
            forall|k: int| 0 <= k < first ==> range_order_pos(#[trigger] self.styles@[k].range, pos) == PosOrder::Less,
            first < self.styles@.len() ==> range_order_pos(self.styles@[first as int].range, pos) != PosOrder::Less,
    {
        let mut i: usize = 0;
        while i < self.styles.len()
            invariant
                i <= self.styles@.len(),
                forall|k: int| 0 <= k < i ==> range_order_pos(#[trigger] self.styles@[k].range, pos) == PosOrder::Less,
            decreases self.styles@.len() - i,
        {
            if self.styles[i].range.compare_pos(pos) != PosOrder::Less {
                return i;
            }
            i = i + 1;
        }
        i
    }

    /// Find styles that touch the given pos and all styles after that point.
    ///
    /// Returns the index of the first such style, together with the styles
    /// themselves for changing them in place.
    pub fn styles_after_mut(&mut self, pos: TextPosition) -> (r: (usize, &mut Vec<StyledRange>))
        ensures
            *r.1 == old(self).styles,
            final(self).styles == *final(r.1),
            r.0 <= old(self).styles@.len(),
            forall|k: int| 0 <= k < r.0 ==> range_order_pos(#[trigger] old(self).styles@[k].range, pos) == PosOrder::Less,
            r.0 < old(self).styles@.len() ==> range_order_pos(old(self).styles@[r.0 as int].range, pos) != PosOrder::Less,
    {
        let first = self.first_not_before(pos);
        (first, &mut self.styles)
    }
}

} // verus!

verus! {

/// The styled range with both ends moved by `f`.
pub open spec fn styled_expanded(r: TextRange, sr: StyledRange) -> StyledRange {
    StyledRange {
        range: TextRange { start: expand_spec(r, sr.range.start), end: expand_spec(r, sr.range.end) },
        style: sr.style,
    }
}

/// The styled range with both ends collapsed by the removal of `r`.
pub open spec fn styled_shrunk(r: TextRange, sr: StyledRange) -> StyledRange {
    StyledRange {
        range: TextRange { start: shrink_spec(r, sr.range.start), end: shrink_spec(r, sr.range.end) },
        style: sr.style,
    }
}

impl TextRange {
    /// Modify all positions in place: every styled range from index
    /// `first` on is moved as by [`TextRange::expand`].
    pub fn expand_all(&self, first: usize, styles: &mut Vec<StyledRange>)
        requires
            forall|k: int|
                first <= k < old(styles)@.len() ==> expand_fits(*self, #[trigger] old(styles)@[k].range.start)
                    && expand_fits(*self, old(styles)@[k].range.end),
        ensures
            final(styles)@.len() == old(styles)@.len(),
            forall|k: int| 0 <= k < first && k < old(styles)@.len() ==> #[trigger] final(styles)@[k] == old(styles)@[k],
            forall|k: int|
                first <= k < old(styles)@.len() ==> #[trigger] final(styles)@[k] == styled_expanded(*self, old(styles)@[k]),
    {
        let ghost orig = styles@;
        let mut i = first;
        while i < styles.len()
            invariant
                first <= i,
                styles@.len() == orig.len(),
                forall|k: int|
                    first <= k < orig.len() ==> expand_fits(*self, (#[trigger] orig[k]).range.start)
                        && expand_fits(*self, orig[k].range.end),
                forall|k: int| 0 <= k < first && k < styles@.len() ==> #[trigger] styles@[k] == orig[k],
                forall|k: int| first <= k < i && k < styles@.len() ==> #[trigger] styles@[k] == styled_expanded(*self, orig[k]),
                forall|k: int| i <= k < styles@.len() ==> #[trigger] styles@[k] == orig[k],
            decreases styles@.len() - i,
        {
            let r = styles[i];
            let start = self.expand(r.range.start);
            let end = self.expand(r.range.end);
            styles.set(i, StyledRange { range: TextRange { start, end }, style: r.style });
            i = i + 1;
        }
    }

    /// Modify all positions in place: every styled range from index
    /// `first` on is moved as by [`TextRange::shrink`].
    pub fn shrink_all(&self, first: usize, styles: &mut Vec<StyledRange>)
        requires
            forall|k: int|
                first <= k < old(styles)@.len() ==> shrink_fits(*self, #[trigger] old(styles)@[k].range.start)
                    && shrink_fits(*self, old(styles)@[k].range.end),
        ensures
            final(styles)@.len() == old(styles)@.len(),
            forall|k: int| 0 <= k < first && k < old(styles)@.len() ==> #[trigger] final(styles)@[k] == old(styles)@[k],
            forall|k: int|
                first <= k < old(styles)@.len() ==> #[trigger] final(styles)@[k] == styled_shrunk(*self, old(styles)@[k]),
    {
        let ghost orig = styles@;
        let mut i = first;
        while i < styles.len()
            invariant
                first <= i,
                styles@.len() == orig.len(),
                forall|k: int|
                    first <= k < orig.len() ==> shrink_fits(*self, (#[trigger] orig[k]).range.start)
                        && shrink_fits(*self, orig[k].range.end),
                forall|k: int| 0 <= k < first && k < styles@.len() ==> #[trigger] styles@[k] == orig[k],
                forall|k: int| first <= k < i && k < styles@.len() ==> #[trigger] styles@[k] == styled_shrunk(*self, orig[k]),
                forall|k: int| i <= k < styles@.len() ==> #[trigger] styles@[k] == orig[k],
            decreases styles@.len() - i,
        {
            let r = styles[i];
            let start = self.shrink(r.range.start);
            let end = self.shrink(r.range.end);
            styles.set(i, StyledRange { range: TextRange { start, end }, style: r.style });
            i = i + 1;
        }
    }
}

/// The range of the styled range contains the position.
pub open spec fn styled_contains(sr: StyledRange, pos: TextPosition) -> bool {
    pos_le(sr.range.start, pos) && pos_lt(pos, sr.range.end)
}

/// The styles of all styled ranges that contain `pos`, in their order.
pub open spec fn touching_styles(s: Seq<StyledRange>, pos: TextPosition) -> Seq<usize>
    decreases s.len(),
{
    if s.len() == 0 {
        Seq::empty()
    } else {
        (if styled_contains(s[0], pos) {
            seq![s[0].style]
        } else {
            Seq::empty()
        }) + touching_styles(s.drop_first(), pos)
    }
}

/// Stepping over one entry of the styles from index `i` on.
proof fn lemma_touching_step(s: Seq<StyledRange>, pos: TextPosition, i: int)
    requires
        0 <= i < s.len(),
    ensures
        touching_styles(s.skip(i), pos) == (if styled_contains(s[i], pos) {
            seq![s[i].style]
        } else {
            Seq::empty()
        }) + touching_styles(s.skip(i + 1), pos),
{
    assert(s.skip(i).drop_first() =~= s.skip(i + 1));
    assert(s.skip(i)[0] == s[i]);
}

/// The styles that contain `filter_pos`, read one after the other from
/// index `idx` on.
#[derive(Debug, Clone)]
pub struct StyleMapIter<'a> {
    pub styles: &'a [StyledRange],
    pub filter_pos: TextPosition,
    pub idx: usize,
}

impl<'a> StyleMapIter<'a> {
    /// The styles still to come: those of the ranges from `idx` on that
    /// contain the position.
    pub open spec fn remaining(&self) -> Seq<usize> {
        if self.idx <= self.styles@.len() {
            touching_styles(self.styles@.skip(self.idx as int), self.filter_pos)
        } else {
            Seq::empty()
        }
    }

    pub fn new(styles: &'a [StyledRange], first: usize, pos: TextPosition) -> (r: Self)
        ensures
            r.styles@ == styles@,
            r.filter_pos == pos,
            r.idx == first,
    {
        Self { styles, filter_pos: pos, idx: first }
    }

    /// The style of the next range that contains the position; `None` when
    /// there is none left.
    pub fn next(&mut self) -> (r: Option<usize>)
        ensures
            final(self).styles@ == old(self).styles@,
            final(self).filter_pos == old(self).filter_pos,
            old(self).remaining().len() == 0 ==> r is None && final(self).remaining().len() == 0,
            old(self).remaining().len() > 0 ==> r == Some(old(self).remaining()[0]) && final(self).remaining()
                == old(self).remaining().drop_first(),
    {
        let len = self.styles.len();
        if self.idx > len {
            return None;
        }
        let ghost s = self.styles@;
        let ghost p = self.filter_pos;
        let ghost rem = old(self).remaining();
        while self.idx < len
            invariant
                self.styles@ == s,
                self.filter_pos == p,
                len == s.len(),
                self.idx <= len,
                touching_styles(s.skip(self.idx as int), p) == rem,
                old(self).styles@ == s,
                old(self).filter_pos == p,
                rem == old(self).remaining(),
            decreases len - self.idx,
        {
            let i = self.idx;
            proof {
                lemma_touching_step(s, p, i as int);
            }
            self.idx = i + 1;
            if self.styles[i].range.contains_pos(self.filter_pos) {
                assert(rem == seq![s[i as int].style] + touching_styles(s.skip(i + 1), p));
                assert(rem.drop_first() =~= touching_styles(s.skip(i + 1), p));
                return Some(self.styles[i].style);
            }
            assert(rem =~= touching_styles(s.skip(i + 1), p));
        }
        assert(s.skip(len as int) =~= Seq::<StyledRange>::empty());
        None
    }
}

impl StyleMap {
    /// Find all styles that touch the given position: the iterator yields
    /// the style of every range that contains it, in the map's order.
    pub fn styles_at(&self, pos: TextPosition) -> (r: StyleMapIter<'_>)
        ensures
            r.styles@ == self.styles@,
            r.filter_pos == pos,
            r.remaining() == touching_styles(self.styles@, pos),
    {
        let r = StyleMapIter::new(self.styles.as_slice(), 0, pos);
        assert(self.styles@.skip(0) =~= self.styles@);
        r
    }
}

} // verus!

verus! {

/// Inserting a text range and then removing it again puts every position
/// back where it was: `shrink` undoes `expand`.
pub proof fn lemma_shrink_undoes_expand(r: TextRange, pos: TextPosition)
    requires
        pos_le(r.start, r.end),
        expand_fits(r, pos),
    ensures
        shrink_fits(r, expand_spec(r, pos)),
        shrink_spec(r, expand_spec(r, pos)) == pos,
{
}

/// `expand` never moves a position backwards.
pub proof fn lemma_expand_not_before(r: TextRange, pos: TextPosition)
    requires
        pos_le(r.start, r.end),
        expand_fits(r, pos),
    ensures
        pos_le(pos, expand_spec(r, pos)),
{
}

/// `expand` keeps the order of positions: distinct positions stay
/// distinct and in the same order.
pub proof fn lemma_expand_keeps_order(r: TextRange, p: TextPosition, q: TextPosition)
    requires
        pos_le(r.start, r.end),
        expand_fits(r, p),
        expand_fits(r, q),
        pos_lt(p, q),
    ensures
        pos_lt(expand_spec(r, p), expand_spec(r, q)),
{
}

/// `shrink` keeps the order of positions, though distinct positions inside
/// the removed range fall together.
pub proof fn lemma_shrink_keeps_order(r: TextRange, p: TextPosition, q: TextPosition)
    requires
        pos_le(r.start, r.end),
        shrink_fits(r, p),
        shrink_fits(r, q),
        pos_le(p, q),
    ensures
        pos_le(shrink_spec(r, p), shrink_spec(r, q)),
{
}

/// Adding a style that the map does not hold and removing it again gives
/// back the map as it was.
pub proof fn lemma_remove_undoes_add(
    before: Seq<StyledRange>,
    sr: StyledRange,
    mid: Seq<StyledRange>,
    after: Seq<StyledRange>,
)
    requires
        !before.contains(sr),
        style_added(before, sr, mid),
        style_removed(mid, sr, after),
    ensures
        after == before,
{
    let i = choose|i: int| 0 <= i <= before.len() && mid == before.insert(i, sr);
    assert(mid[i] == sr);
    assert(mid.contains(sr));
    let j = choose|j: int| 0 <= j < mid.len() && mid[j] == sr && after == mid.remove(j);
    if j < i {
        assert(mid[j] == before[j]);
        assert(before.contains(sr));
    } else if j > i {
        assert(mid[j] == before[j - 1]);
        assert(before.contains(sr));
    }
    assert(after =~= before);
}

/// Adding a style twice is the same as adding it once.
pub proof fn lemma_add_is_idempotent(
    before: Seq<StyledRange>,
    sr: StyledRange,
    mid: Seq<StyledRange>,
    after: Seq<StyledRange>,
)
    requires
        style_added(before, sr, mid),
        style_added(mid, sr, after),
    ensures
        after == mid,
        mid.contains(sr),
{
    if !before.contains(sr) {
        let i = choose|i: int| 0 <= i <= before.len() && mid == before.insert(i, sr);
        assert(mid[i] == sr);
    }
}

/// Moving the styles for an insert at `r.start`, from the first style that
/// does not end before `r.start` on, keeps a sorted map sorted.
pub proof fn lemma_expand_all_keeps_sorted(
    r: TextRange,
    first: int,
    before: Seq<StyledRange>,
    after: Seq<StyledRange>,
)
    requires
        pos_le(r.start, r.end),
        styles_sorted(before),
        0 <= first <= before.len(),
        forall|k: int| 0 <= k < first ==> pos_le((#[trigger] before[k]).range.end, r.start),
        forall|k: int|
            first <= k < before.len() ==> expand_fits(r, (#[trigger] before[k]).range.start)
                && expand_fits(r, before[k].range.end),
        after.len() == before.len(),
        forall|k: int| 0 <= k < first ==> #[trigger] after[k] == before[k],
        forall|k: int| first <= k < before.len() ==> #[trigger] after[k] == styled_expanded(r, before[k]),
    ensures
        styles_sorted(after),
{
    assert forall|a: int, b: int| 0 <= a < b < after.len() implies !styled_lt(
        #[trigger] after[b],
        #[trigger] after[a],
    ) by {
        assert(!styled_lt(before[b], before[a]));
        if b < first {
        } else if a >= first {
            let (sa, sb) = (before[a].range.start, before[b].range.start);
            let (ea, eb) = (before[a].range.end, before[b].range.end);
            if pos_lt(sa, sb) {
                lemma_expand_keeps_order(r, sa, sb);
            } else if pos_lt(ea, eb) {
                lemma_expand_keeps_order(r, ea, eb);
            }
        } else {
            let (sa, sb) = (before[a].range.start, before[b].range.start);
            let (ea, eb) = (before[a].range.end, before[b].range.end);
            lemma_expand_not_before(r, sb);
            lemma_expand_not_before(r, eb);
        }
    }
}

} // verus!

verus! {

/// The decimal digit for `d < 10`.
pub open spec fn digit_char(d: nat) -> char {
    (('0' as int) + d) as char
}

/// The decimal digits of `n`, without leading zeros.
pub open spec fn decimal(n: nat) -> Seq<char>
    decreases n,
{
    if n < 10 {
        seq![digit_char(n)]
    } else {
        decimal(n / 10).push(digit_char(n % 10))
    }
}

/// `ToString` of `usize`, which writes the decimal digits as `Display` for
/// integers does.
#[verifier::external_body]
fn decimal_string(v: usize) -> (r: String)
    ensures
        r@ == decimal(v as nat),
{
    v.to_string()
}

/// The debug text of a position: `x|y`.
pub open spec fn position_text(p: TextPosition) -> Seq<char> {
    decimal(p.x as nat) + seq!['|'] + decimal(p.y as nat)
}

impl TextPosition {
    /// The position as its debug output writes it: column, `|`, row.
    pub fn debug_text(&self) -> (r: String)
        ensures
            r@ == position_text(*self),
    {
        let mut s = decimal_string(self.x);
        s.append("|");
        let y = decimal_string(self.y);
        s.append(y.as_str());
        proof {
            reveal_strlit("|");
        }
        s
    }
}

impl TextRange {
    /// The range as its debug output writes it: `TextRange  ` (left out in
    /// the alternate form), then the start, `-` and the end, each as
    /// `x|y`.
    pub fn debug_text(&self, alternate: bool) -> (r: String)
        ensures
            r@ == (if alternate { Seq::<char>::empty() } else { "TextRange  "@ }) + position_text(self.start)
                + seq!['-'] + position_text(self.end),
    {
        let mut s = String::new();
        if !alternate {
            s.append("TextRange  ");
        }
        let start = self.start.debug_text();
        s.append(start.as_str());
        s.append("-");
        let end = self.end.debug_text();
        s.append(end.as_str());
        proof {
            reveal_strlit("-");
        }
        s
    }
}

} // verus!

verus! {

/// What a text area core holds: its text, the styled ranges, the insert
/// settings, the remembered column and the cursor with the selection
/// anchor.
#[verifier::ext_equal]
pub struct TextAreaView {
    pub text: Seq<char>,
    pub styles: Seq<StyledRange>,
    pub newline: Seq<char>,
    pub tabs: u16,
    pub expand_tabs: bool,
    pub move_col: Option<usize>,
    pub cursor: TextPosition,
    pub anchor: TextPosition,
    pub undo: Option<UndoVec>,
}

/// The origin, where cursor and anchor start.
pub open spec fn origin() -> TextPosition {
    TextPosition { y: 0, x: 0 }
}

/// The selection between cursor and anchor, the earlier one first.
pub open spec fn selection_of(cursor: TextPosition, anchor: TextPosition) -> TextRange {
    if pos_lt(cursor, anchor) {
        TextRange { start: cursor, end: anchor }
    } else {
        TextRange { start: anchor, end: cursor }
    }
}

/// The state after a new text: cursor and anchor at the origin, no
/// remembered column and no styles; the settings stay.
pub open spec fn with_text(v: TextAreaView, text: Seq<char>) -> TextAreaView {
    TextAreaView { text, styles: Seq::empty(), move_col: None, cursor: origin(), anchor: origin(), ..v }
}

/// A UTF-8 text is empty exactly when it has no bytes.
pub proof fn lemma_utf8_len_zero(s: Seq<char>)
    ensures
        (utf8_len(s) == 0) == (s.len() == 0),
    decreases s.len(),
{
    if s.len() > 0 {
        lemma_utf8_len_zero(s.drop_last());
    }
}

/// Core for text editing: the text, its styles, the cursor and the
/// selection anchor, and the settings for inserting line breaks and tabs.
#[derive(Debug)]
pub struct TextAreaCore {
    value: Rope,
    styles: StyleMap,
    newline: String,
    tabs: u16,
    expand_tabs: bool,
    move_col: Option<usize>,
    cursor: TextPosition,
    anchor: TextPosition,
    undo: Option<UndoVec>,
}

impl TextAreaCore {
    /// The styles stay sorted, and the undo position lies within its
    /// entries.
    #[verifier::type_invariant]
    spec fn styles_sorted_inv(self) -> bool {
        &&& self.styles.wf()
        &&& self.undo matches Some(u) ==> u.wf()
    }
}

impl View for TextAreaCore {
    type V = TextAreaView;

    closed spec fn view(&self) -> TextAreaView {
        TextAreaView {
            text: rope_text(self.value),
            styles: self.styles.styles@,
            newline: self.newline@,
            tabs: self.tabs,
            expand_tabs: self.expand_tabs,
            move_col: self.move_col,
            cursor: self.cursor,
            anchor: self.anchor,
            undo: self.undo,
        }
    }
}

impl Default for TextAreaCore {
    /// Empty text, line breaks as `\n`, tabs of 8 expanded to spaces.
    fn default() -> (r: Self)
        ensures
            r@ == (TextAreaView {
                text: Seq::empty(),
                styles: Seq::empty(),
                newline: seq!['\n'],
                tabs: 8,
                expand_tabs: true,
                move_col: None,
                cursor: origin(),
                anchor: origin(),
                undo: r@.undo,
            }),
            r@.undo matches Some(u) && u.entries@.len() == 0 && u.idx == 0 && u.max == 40,
    {
        let newline = String::from_str("\n");
        proof {
            reveal_strlit("\n");
        }
        Self {
            value: rope_new(),
            styles: StyleMap { styles: Vec::new() },
            newline,
            tabs: 8,
            expand_tabs: true,
            move_col: None,
            cursor: TextPosition { y: 0, x: 0 },
            anchor: TextPosition { y: 0, x: 0 },
            undo: Some(UndoVec::new(40)),
        }
    }
}

impl TextAreaCore {
    pub fn new() -> (r: Self)
        ensures
            r@ == (TextAreaView {
                text: Seq::empty(),
                styles: Seq::empty(),
                newline: seq!['\n'],
                tabs: 8,
                expand_tabs: true,
                move_col: None,
                cursor: origin(),
                anchor: origin(),
                undo: r@.undo,
            }),
            r@.undo matches Some(u) && u.entries@.len() == 0 && u.idx == 0 && u.max == 40,
    {
        Self::default()
    }

    /// Extra column information for cursor movement.
    ///
    /// The cursor position is capped to the current line length, so if you
    /// move up one row, you might end at a position left of the current
    /// column. If you move up once more you want to return to the column you
    /// started from. That's what is stored here.
    pub fn set_move_col(&mut self, col: Option<usize>)
        ensures
            final(self)@ == (TextAreaView { move_col: col, ..old(self)@ }),
    {
        proof {
            use_type_invariant(&*self);
        }
        self.move_col = col;
    }

    /// Extra column information for cursor movement.
    pub fn move_col(&mut self) -> (r: Option<usize>)
        ensures
            r == old(self)@.move_col,
            final(self)@ == old(self)@,
    {
        self.move_col
    }

    /// Sets the line ending to be used for insert.
    /// There is no auto-detection or conversion done for set_value().
    ///
    /// Caution: If this doesn't match the line ending used in the value, you
    /// will get a value with mixed line endings.
    pub fn set_newline(&mut self, br: String)
        ensures
            final(self)@ == (TextAreaView { newline: br@, ..old(self)@ }),
    {
        proof {
            use_type_invariant(&*self);
        }
        self.newline = br;
    }

    /// Line ending used for insert.
    pub fn newline(&self) -> (r: &str)
        ensures
            r@ == self@.newline,
    {
        self.newline.as_str()
    }

    /// Set the tab-width.
    /// Default is 8.
    pub fn set_tab_width(&mut self, tabs: u16)
        ensures
            final(self)@ == (TextAreaView { tabs, ..old(self)@ }),
    {
        proof {
            use_type_invariant(&*self);
        }
        self.tabs = tabs;
    }

    /// Tab-width
    pub fn tab_width(&self) -> (r: u16)
        ensures
            r == self@.tabs,
    {
        self.tabs
    }

    /// Expand tabs to spaces. Only for new inputs.
    pub fn set_expand_tabs(&mut self, expand: bool)
        ensures
            final(self)@ == (TextAreaView { expand_tabs: expand, ..old(self)@ }),
    {
        proof {
            use_type_invariant(&*self);
        }
        self.expand_tabs = expand;
    }

    /// Expand tabs to spaces. Only for new inputs.
    pub fn expand_tabs(&self) -> (r: bool)
        ensures
            r == self@.expand_tabs,
    {
        self.expand_tabs
    }

    /// Clear styles.
    pub fn clear_styles(&mut self)
        ensures
            final(self)@ == (TextAreaView { styles: Seq::empty(), ..old(self)@ }),
    {
        proof {
            use_type_invariant(&*self);
        }
        self.styles = StyleMap { styles: Vec::new() };
    }

    /// Add a style for the given range.
    ///
    /// What is given here is the index into the Vec with the actual Styles.
    /// Those are set at the widget.
    pub fn add_style(&mut self, range: TextRange, style: usize)
        ensures
            style_added(old(self)@.styles, (StyledRange { range, style }), final(self)@.styles),
            final(self)@ == (TextAreaView { styles: final(self)@.styles, ..old(self)@ }),
    {
        proof {
            use_type_invariant(&*self);
        }
        let mut styles = StyleMap { styles: Vec::new() };
        std::mem::swap(&mut styles, &mut self.styles);
        styles.add_style(range, style);
        self.styles = styles;
    }

    /// Remove a style for the given range.
    ///
    /// Range and style must match to be removed.
    pub fn remove_style(&mut self, range: TextRange, style: usize)
        ensures
            style_removed(old(self)@.styles, (StyledRange { range, style }), final(self)@.styles),
            final(self)@ == (TextAreaView { styles: final(self)@.styles, ..old(self)@ }),
    {
        proof {
            use_type_invariant(&*self);
        }
        let mut styles = StyleMap { styles: Vec::new() };
        std::mem::swap(&mut styles, &mut self.styles);
        styles.remove_style(range, style);
        self.styles = styles;
    }

    /// Style map.
    pub fn styles(&self) -> (r: &[StyledRange])
        ensures
            r@ == self@.styles,
            styles_sorted(r@),
    {
        proof {
            use_type_invariant(self);
        }
        self.styles.styles.as_slice()
    }

    /// Finds all styles for the given position.
    pub fn styles_at(&self, pos: TextPosition) -> (r: StyleMapIter<'_>)
        ensures
            r.styles@ == self@.styles,
            r.filter_pos == pos,
            r.remaining() == touching_styles(self@.styles, pos),
    {
        self.styles.styles_at(pos)
    }

    /// Cursor position.
    pub fn cursor(&self) -> (r: TextPosition)
        ensures
            r == self@.cursor,
    {
        self.cursor
    }

    /// Selection anchor.
    pub fn anchor(&self) -> (r: TextPosition)
        ensures
            r == self@.anchor,
    {
        self.anchor
    }

    /// Set the text.
    /// Resets the selection and any styles.
    pub fn set_value(&mut self, s: &str)
        ensures
            final(self)@ == with_text(old(self)@, s@),
    {
        self.set_rope(rope_from_str(s));
    }

    /// Copy of the text value.
    pub fn value(&self) -> (r: String)
        ensures
            r@ == self@.text,
    {
        rope_to_string(&self.value)
    }

    /// Set the text value as a Rope.
    /// Resets the selection and any styles.
    pub fn set_rope(&mut self, s: Rope)
        ensures
            final(self)@ == with_text(old(self)@, rope_text(s)),
    {
        proof {
            use_type_invariant(&*self);
        }
        self.value = s;
        self.cursor = TextPosition { y: 0, x: 0 };
        self.anchor = TextPosition { y: 0, x: 0 };
        self.move_col = None;
        self.styles = StyleMap { styles: Vec::new() };
    }

    /// Access the underlying Rope with the text value.
    pub fn rope(&self) -> (r: &Rope)
        ensures
            rope_text(*r) == self@.text,
    {
        &self.value
    }

    /// Reset. Returns whether there was text to remove.
    pub fn clear(&mut self) -> (r: bool)
        ensures
            r == (old(self)@.text.len() != 0),
            r ==> final(self)@ == with_text(old(self)@, Seq::empty()),
            !r ==> final(self)@ == old(self)@,
    {
        if self.is_empty() {
            false
        } else {
            self.set_value("");
            proof {
                reveal_strlit("");
            }
            true
        }
    }

    /// Empty.
    pub fn is_empty(&self) -> (r: bool)
        ensures
            r == (self@.text.len() == 0),
    {
        proof {
            lemma_utf8_len_zero(rope_text(self.value));
        }
        rope_len_bytes(&self.value) == 0
    }

    /// Number of lines.
    pub fn len_lines(&self) -> (r: usize)
        ensures
            r == line_breaks(self@.text) + 1,
    {
        rope_len_lines(&self.value)
    }

    /// Any text selection.
    pub fn has_selection(&self) -> (r: bool)
        ensures
            r == (self@.anchor != self@.cursor),
    {
        self.anchor != self.cursor
    }

    /// Returns the selection as TextRange.
    pub fn selection(&self) -> (r: TextRange)
        ensures
            r == selection_of(self@.cursor, self@.anchor),
    {
        if self.cursor.y < self.anchor.y {
            TextRange { start: self.cursor, end: self.anchor }
        } else if self.cursor.y > self.anchor.y {
            TextRange { start: self.anchor, end: self.cursor }
        } else {
            if self.cursor.x < self.anchor.x {
                TextRange { start: self.cursor, end: self.anchor }
            } else {
                TextRange { start: self.anchor, end: self.cursor }
            }
        }
    }

    /// Len in chars
    pub fn len_chars(&self) -> (r: usize)
        ensures
            r == self@.text.len(),
    {
        rope_len_chars(&self.value)
    }

    /// Len in bytes
    pub fn len_bytes(&self) -> (r: usize)
        ensures
            r == utf8_len(self@.text),
    {
        rope_len_bytes(&self.value)
    }
}

} // verus!

verus! {

/// The selection starts at the earlier of cursor and anchor and ends at the
/// later one, and it is empty exactly when they are the same position.
pub proof fn lemma_selection_ordered(cursor: TextPosition, anchor: TextPosition)
    ensures
        pos_le(selection_of(cursor, anchor).start, selection_of(cursor, anchor).end),
        (selection_of(cursor, anchor).start == cursor && selection_of(cursor, anchor).end == anchor) || (
        selection_of(cursor, anchor).start == anchor && selection_of(cursor, anchor).end == cursor),
        (selection_of(cursor, anchor).start == selection_of(cursor, anchor).end) == (cursor == anchor),
{
}

/// After a new text is set, reading the text gives it back, and there is
/// no selection and no style left.
pub proof fn lemma_value_reads_back(v: TextAreaView, text: Seq<char>)
    ensures
        with_text(v, text).text == text,
        with_text(v, text).cursor == with_text(v, text).anchor,
        with_text(v, text).styles.len() == 0,
        with_text(v, text).newline == v.newline,
        with_text(v, text).tabs == v.tabs,
        with_text(v, text).expand_tabs == v.expand_tabs,
{
}

} // verus!

verus! {

/// Lines of a text, as ropey counts them.
pub open spec fn text_lines(text: Seq<char>) -> nat {
    line_breaks(text) + 1
}

/// The chars of line `y`, with its line break.
pub open spec fn line_text(text: Seq<char>, y: nat) -> Seq<char> {
    text.subrange(line_start_of(text, y) as int, line_start_of(text, y + 1) as int)
}

/// The graphemes of line `y`, with its line break.
pub open spec fn line_parts(text: Seq<char>, y: nat) -> Seq<Seq<char>> {
    grapheme_parts(line_text(text, y))
}

/// The number of graphemes, not counting a final line break.
pub open spec fn parts_width(parts: Seq<Seq<char>>) -> nat {
    if parts.len() > 0 && parts.last().len() > 0 && is_line_break(parts.last()[0]) {
        (parts.len() - 1) as nat
    } else {
        parts.len()
    }
}

/// The width of a text in graphemes, not counting a final line break.
pub open spec fn str_width(s: Seq<char>) -> nat {
    parts_width(grapheme_parts(s))
}

/// The width of line `n`: 0 for the line after the last, nothing beyond.
pub open spec fn line_width_spec(text: Seq<char>, n: nat) -> Option<nat> {
    if n < text_lines(text) {
        Some(parts_width(line_parts(text, n)))
    } else if n == text_lines(text) {
        Some(0)
    } else {
        None
    }
}

/// The width of line `n`, 0 where there is none.
pub open spec fn width_or_zero(text: Seq<char>, n: nat) -> nat {
    match line_width_spec(text, n) {
        Some(w) => w,
        None => 0,
    }
}

/// The char index of a text position: the start of the grapheme at column
/// `x` of row `y`, or the end of the text one past the last grapheme of a
/// row that ends the text.
pub open spec fn char_index(text: Seq<char>, pos: TextPosition) -> Option<nat> {
    if pos.y >= text_lines(text) {
        None
    } else {
        let parts = line_parts(text, pos.y as nat);
        let start = line_start_of(text, pos.y as nat);
        if pos.x < parts.len() {
            Some(start + parts_len(parts.take(pos.x as int)))
        } else if pos.x == parts.len() && line_start_of(text, (pos.y + 1) as nat) == text.len() {
            Some(text.len())
        } else {
            None
        }
    }
}

/// Prefixes of the parts are no longer than all of them, and each part adds
/// its length.
proof fn lemma_parts_len_take(parts: Seq<Seq<char>>, i: int)
    requires
        0 <= i <= parts.len(),
    ensures
        parts_len(parts.take(i)) <= parts_len(parts),
        i < parts.len() ==> parts_len(parts.take(i + 1)) == parts_len(parts.take(i)) + parts[i].len(),
    decreases parts.len(),
{
    if i < parts.len() {
        assert(parts.take(i + 1).drop_last() =~= parts.take(i));
        lemma_parts_len_take(parts.drop_last(), i);
        assert(parts.drop_last().take(i) =~= parts.take(i));
    } else {
        assert(parts.take(i) =~= parts);
    }
}

/// Exec form of `is_line_break`.
fn is_break(c: char) -> (r: bool)
    ensures
        r == is_line_break(c),
{
    c == '\n' || c == '\u{0B}' || c == '\u{0C}' || c == '\r' || c == '\u{85}' || c == '\u{2028}' || c == '\u{2029}'
}

/// Exec form of `parts_width`.
fn width_of_parts(parts: &Vec<String>) -> (r: usize)
    ensures
        r == parts_width(parts@.map_values(|g: String| g@)),
{
    let n = parts.len();
    if n > 0 {
        let last = parts[n - 1].as_str();
        if last.unicode_len() > 0 && is_break(last.get_char(0)) {
            return n - 1;
        }
    }
    n
}

/// Exec form of `str_width`.
fn str_width_exec(s: &str) -> (r: usize)
    ensures
        r == str_width(s@),
{
    let p = graphemes(s);
    proof {
        assert(p@.map_values(|g: String| g@) =~= grapheme_parts(s@));
    }
    width_of_parts(&p)
}

impl TextAreaCore {
    /// The graphemes of line `y`, with the facts about where it lies.
    fn line_graphemes_of(&self, y: usize) -> (r: Vec<String>)
        requires
            y < text_lines(self@.text),
        ensures
            r@.map_values(|g: String| g@) == line_parts(self@.text, y as nat),
            parts_len(line_parts(self@.text, y as nat)) == line_text(self@.text, y as nat).len(),
            line_start_of(self@.text, y as nat) <= line_start_of(self@.text, y as nat + 1) <= self@.text.len(),
            y + 1 <= usize::MAX,
    {
        let _lines = rope_len_lines(&self.value);
        let start = rope_line_to_char(&self.value, y);
        let stop = rope_line_to_char(&self.value, y + 1);
        assert(start <= line_start_of(rope_text(self.value), (y + 1) as nat));
        let s = rope_slice_string(&self.value, start, stop);
        let r = graphemes(s.as_str());
        proof {
            assert(r@.map_values(|g: String| g@) =~= grapheme_parts(s@));
        }
        r
    }

    /// Line width as grapheme count. Excludes the terminating line break.
    pub fn line_width(&self, n: usize) -> (r: Option<usize>)
        ensures
            r matches Some(w) ==> line_width_spec(self@.text, n as nat) == Some(w as nat),
            r is None ==> line_width_spec(self@.text, n as nat) is None,
    {
        let lines = rope_len_lines(&self.value);
        if n < lines {
            let p = self.line_graphemes_of(n);
            Some(width_of_parts(&p))
        } else if n == lines {
            Some(0)
        } else {
            None
        }
    }

    /// Returns the first char position for the grapheme position.
    pub fn char_at(&self, pos: TextPosition) -> (r: Option<usize>)
        requires
            pos.y != text_lines(self@.text),
        ensures
            r matches Some(c) ==> char_index(self@.text, pos) == Some(c as nat),
            r matches Some(c) ==> line_start_of(self@.text, pos.y as nat) <= c <= line_start_of(self@.text, pos.y as nat + 1)
                <= self@.text.len(),
            r is None ==> char_index(self@.text, pos) is None,
    {
        let lines = rope_len_lines(&self.value);
        if pos.y >= lines {
            return None;
        }
        let parts = self.line_graphemes_of(pos.y);
        let ghost gp = line_parts(self@.text, pos.y as nat);
        let start = rope_line_to_char(&self.value, pos.y);
        let _len = rope_len_chars(&self.value);
        if pos.x < parts.len() {
            let mut acc: usize = start;
            let mut i: usize = 0;
            proof {
                lemma_parts_len_take(gp, pos.x as int);
                assert(gp.take(0) =~= Seq::<Seq<char>>::empty());
            }
            while i < pos.x
                invariant
                    i <= pos.x < parts@.len(),
                    parts@.map_values(|g: String| g@) == gp,
                    acc == start + parts_len(gp.take(i as int)),
                    start + parts_len(gp) <= self@.text.len(),
                    self@.text.len() <= usize::MAX,
                decreases pos.x - i,
            {
                proof {
                    lemma_parts_len_take(gp, i as int);
                    lemma_parts_len_take(gp, i + 1);
                    assert(parts@[i as int]@ == gp[i as int]);
                }
                acc = acc + parts[i].as_str().unicode_len();
                i = i + 1;
            }
            Some(acc)
        } else if pos.x == parts.len() {
            let stop = rope_line_to_char(&self.value, pos.y + 1);
            let len = rope_len_chars(&self.value);
            if stop == len {
                Some(len)
            } else {
                None
            }
        } else {
            None
        }
    }
}

} // verus!

verus! {

/// The number of line feeds in a text.
pub open spec fn newline_count(t: Seq<char>) -> nat
    decreases t.len(),
{
    if t.len() == 0 {
        0
    } else {
        newline_count(t.drop_last()) + if t.last() == '\n' {
            1nat
        } else {
            0nat
        }
    }
}

/// The index just after the last line feed of a text, 0 without one.
pub open spec fn tail_start(t: Seq<char>) -> nat
    decreases t.len(),
{
    if t.len() == 0 {
        0
    } else if t.last() == '\n' {
        t.len()
    } else {
        tail_start(t.drop_last())
    }
}

/// The text with `t` inserted at char index `c`.
pub open spec fn inserted(text: Seq<char>, c: nat, t: Seq<char>) -> Seq<char> {
    text.take(c as int) + t + text.skip(c as int)
}

/// Where the range that `t` takes after its insertion at `pos` (char index
/// `c`) ends, column and row, as integers: with line feeds in `t`, the
/// column is the width that the last line of `t` adds to the rest of the
/// row; without, the row's new width minus its old one, added to `pos.x`.
pub open spec fn insert_end(text: Seq<char>, pos: TextPosition, c: nat, t: Seq<char>) -> (int, int) {
    let n = newline_count(t);
    if n > 0 {
        let rest = text.subrange(c as int, line_start_of(text, (pos.y + 1) as nat) as int);
        (str_width(t.skip(tail_start(t) as int) + rest) - str_width(rest), pos.y + n)
    } else {
        (pos.x + width_or_zero(inserted(text, c, t), pos.y as nat) - width_or_zero(text, pos.y as nat), pos.y as int)
    }
}

/// The insert range computes: its end lies within `usize` and not before
/// `pos`.
pub open spec fn insert_end_fits(text: Seq<char>, pos: TextPosition, c: nat, t: Seq<char>) -> bool {
    let (x, y) = insert_end(text, pos, c, t);
    &&& 0 <= x <= usize::MAX
    &&& 0 <= y <= usize::MAX
    &&& pos_le(pos, TextPosition { x: x as usize, y: y as usize })
    &&& newline_count(t) == 0 ==> pos.x + width_or_zero(inserted(text, c, t), pos.y as nat) <= usize::MAX
}

/// The range that `t` takes after its insertion at `pos`.
pub open spec fn insert_range(text: Seq<char>, pos: TextPosition, c: nat, t: Seq<char>) -> TextRange {
    let (x, y) = insert_end(text, pos, c, t);
    TextRange { start: pos, end: TextPosition { x: x as usize, y: y as usize } }
}

/// The index of the first styled range that does not end at or before
/// `pos`, or the number of ranges.
pub open spec fn first_touch(s: Seq<StyledRange>, pos: TextPosition) -> nat
    decreases s.len(),
{
    if s.len() == 0 {
        0
    } else if range_order_pos(s[0].range, pos) != PosOrder::Less {
        0
    } else {
        1 + first_touch(s.drop_first(), pos)
    }
}

/// `first_touch` is the index that `styles_after_mut` finds.
proof fn lemma_first_touch(s: Seq<StyledRange>, pos: TextPosition, first: int)
    requires
        0 <= first <= s.len(),
        forall|k: int| 0 <= k < first ==> range_order_pos(#[trigger] s[k].range, pos) == PosOrder::Less,
        first < s.len() ==> range_order_pos(s[first].range, pos) != PosOrder::Less,
    ensures
        first_touch(s, pos) == first,
    decreases s.len(),
{
    if s.len() > 0 && first > 0 {
        assert(range_order_pos(s[0].range, pos) == PosOrder::Less);
        assert forall|k: int| 0 <= k < first - 1 implies range_order_pos(#[trigger] s.drop_first()[k].range, pos)
            == PosOrder::Less by {
            assert(s.drop_first()[k] == s[k + 1]);
        }
        if first - 1 < s.len() - 1 {
            assert(s.drop_first()[first - 1] == s[first]);
        }
        lemma_first_touch(s.drop_first(), pos, first - 1);
    }
}

/// Every styled range from `first` on can be moved by `expand`.
pub open spec fn styles_expand_fit(s: Seq<StyledRange>, first: nat, r: TextRange) -> bool {
    forall|k: int|
        first <= k < s.len() ==> expand_fits(r, (#[trigger] s[k]).range.start) && expand_fits(r, s[k].range.end)
}

/// The styled ranges from `first` on moved by `expand`.
pub open spec fn styles_expanded(s: Seq<StyledRange>, first: nat, r: TextRange) -> Seq<StyledRange> {
    Seq::new(s.len(), |k: int| if k < first { s[k] } else { styled_expanded(r, s[k]) })
}

/// The undo buffer after an edit was recorded in it, where there is one.
pub open spec fn undo_recorded(
    before: Option<UndoVec>,
    after: Option<UndoVec>,
    op: UndoOp,
    chars: (usize, usize),
    cursor: TextPosition,
    anchor: TextPosition,
    redo_cursor: TextPosition,
    redo_anchor: TextPosition,
    range: TextRange,
    txt: Seq<char>,
) -> bool {
    match before {
        None => after is None,
        Some(u) => after matches Some(a) && a.max == u.max && a.idx == a.entries@.len() && exists|e: UndoEntry|
            #![trigger pushed_entries(u.entries@, u.idx as nat, u.max as nat, e)]
            e.op == op && e.chars == chars && e.cursor == cursor && e.anchor == anchor && e.redo_cursor == redo_cursor
                && e.redo_anchor == redo_anchor && e.range == range && e.txt@ == txt && a.entries@ == pushed_entries(
                u.entries@,
                u.idx as nat,
                u.max as nat,
                e,
            ),
    }
}

/// Whether an insert at `pos` (char index `c`) of `t` can be carried out:
/// the insert range computes, every position it moves stays within
/// `usize`, and the recorded char range too.
pub open spec fn insert_fits(v: TextAreaView, pos: TextPosition, c: nat, t: Seq<char>) -> bool {
    let r = insert_range(v.text, pos, c, t);
    &&& insert_end_fits(v.text, pos, c, t)
    &&& expand_fits(r, v.cursor)
    &&& expand_fits(r, v.anchor)
    &&& styles_expand_fit(v.styles, first_touch(v.styles, pos), r)
    &&& c + t.len() <= usize::MAX
    &&& c <= v.text.len()
}

/// What inserting `t` at `pos` does: nothing where `pos` has no char
/// index or the insert does not compute; else the text gets `t` at the char
/// index, cursor, anchor and the styles from the first one touching `pos`
/// are moved by the insert range, and the edit is recorded for undo.
pub open spec fn text_inserted(a: TextAreaView, b: TextAreaView, pos: TextPosition, t: Seq<char>, op: UndoOp) -> bool {
    match char_index(a.text, pos) {
        None => b == a,
        Some(c) => if insert_fits(a, pos, c, t) {
            let r = insert_range(a.text, pos, c, t);
            &&& b.text == inserted(a.text, c, t)
            &&& b.cursor == expand_spec(r, a.cursor)
            &&& b.anchor == expand_spec(r, a.anchor)
            &&& b.styles == styles_expanded(a.styles, first_touch(a.styles, pos), r)
            &&& undo_recorded(a.undo, b.undo, op, (c as usize, (c + t.len()) as usize), a.cursor, a.anchor, b.cursor, b.anchor, r, t)
            &&& b.newline == a.newline && b.tabs == a.tabs && b.expand_tabs == a.expand_tabs && b.move_col == a.move_col
        } else {
            b == a
        },
    }
}

/// Inserting puts exactly the given text at the char index of the position:
/// the text grows by its length, the chars before the index stay, the
/// inserted text follows them, and then the rest of the old text.
pub proof fn lemma_insert_places_text(a: TextAreaView, b: TextAreaView, pos: TextPosition, t: Seq<char>, op: UndoOp)
    requires
        text_inserted(a, b, pos, t, op),
        char_index(a.text, pos) matches Some(c) && insert_fits(a, pos, c, t),
    ensures
        ({
            let c = char_index(a.text, pos)->0;
            &&& b.text.len() == a.text.len() + t.len()
            &&& b.text.subrange(0, c as int) == a.text.subrange(0, c as int)
            &&& b.text.subrange(c as int, (c + t.len()) as int) == t
            &&& b.text.subrange((c + t.len()) as int, b.text.len() as int) == a.text.subrange(c as int, a.text.len() as int)
        }),
{
    let c = char_index(a.text, pos)->0;
    assert(b.text.subrange(0, c as int) =~= a.text.subrange(0, c as int));
    assert(b.text.subrange(c as int, (c + t.len()) as int) =~= t);
    assert(b.text.subrange((c + t.len()) as int, b.text.len() as int) =~= a.text.subrange(c as int, a.text.len() as int));
}

/// `char::to_string`: the char as a string.
#[verifier::external_body]
fn char_string(c: char) -> (r: String)
    ensures
        r@ == seq![c],
{
    c.to_string()
}

/// Exec form of `expand_fits`.
fn expand_fits_exec(r: TextRange, pos: TextPosition) -> (ok: bool)
    ensures
        ok == expand_fits(r, pos),
{
    if r.start.y > r.end.y {
        return false;
    }
    let delta_lines = r.end.y - r.start.y;
    let after = !lt(pos, r.start) && pos != r.start;
    if after && pos.y >= r.start.y && pos.y > usize::MAX - delta_lines {
        return false;
    }
    if after && pos.y == r.start.y && pos.x >= r.start.x && pos.x - r.start.x > usize::MAX - r.end.x {
        return false;
    }
    true
}

/// Line feeds in `t` and the index after the last one.
fn scan_newlines(t: &str) -> (r: (usize, usize, usize))
    ensures
        r.0 == newline_count(t@),
        r.1 == tail_start(t@),
        r.2 == t@.len(),
        r.1 <= r.2,
{
    let len = t.unicode_len();
    let mut n: usize = 0;
    let mut ts: usize = 0;
    let mut i: usize = 0;
    while i < len
        invariant
            len == t@.len(),
            i <= len,
            n == newline_count(t@.take(i as int)),
            ts == tail_start(t@.take(i as int)),
            n <= i,
            ts <= i,
        decreases len - i,
    {
        proof {
            assert(t@.take(i + 1).drop_last() =~= t@.take(i as int));
        }
        if t.get_char(i) == '\n' {
            n = n + 1;
            ts = i + 1;
        }
        i = i + 1;
    }
    proof {
        assert(t@.take(len as int) =~= t@);
    }
    (n, ts, len)
}

impl TextAreaCore {
    /// Inserts `t` into the text at char index `c`.
    fn value_insert(&mut self, c: usize, t: &str)
        requires
            c <= old(self)@.text.len(),
        ensures
            final(self)@ == (TextAreaView { text: inserted(old(self)@.text, c as nat, t@), ..old(self)@ }),
    {
        proof {
            use_type_invariant(&*self);
        }
        let mut value = rope_new();
        std::mem::swap(&mut value, &mut self.value);
        rope_insert(&mut value, c, t);
        self.value = value;
    }

    /// Removes the chars `start..end` from the text.
    fn value_remove(&mut self, start: usize, end: usize)
        requires
            start <= end <= old(self)@.text.len(),
        ensures
            final(self)@ == (TextAreaView {
                text: old(self)@.text.take(start as int) + old(self)@.text.skip(end as int),
                ..old(self)@
            }),
    {
        proof {
            use_type_invariant(&*self);
        }
        let mut value = rope_new();
        std::mem::swap(&mut value, &mut self.value);
        rope_remove(&mut value, start, end);
        self.value = value;
    }
}

impl TextAreaCore {
    /// Whether the styles from the first one touching `pos` can all be moved
    /// by `r`, and that first index.
    fn styles_fit(&self, pos: TextPosition, r: TextRange) -> (res: (bool, usize))
        ensures
            res.1 == first_touch(self@.styles, pos),
            res.0 == styles_expand_fit(self@.styles, first_touch(self@.styles, pos), r),
    {
        let first = self.styles.first_not_before(pos);
        proof {
            lemma_first_touch(self.styles.styles@, pos, first as int);
        }
        let mut k = first;
        while k < self.styles.styles.len()
            invariant
                first <= k <= self.styles.styles@.len(),
                first == first_touch(self.styles.styles@, pos),
                forall|j: int|
                    first <= j < k ==> expand_fits(r, (#[trigger] self.styles.styles@[j]).range.start) && expand_fits(
                        r,
                        self.styles.styles@[j].range.end,
                    ),
            decreases self.styles.styles@.len() - k,
        {
            let sr = self.styles.styles[k];
            if !expand_fits_exec(r, sr.range.start) || !expand_fits_exec(r, sr.range.end) {
                assert(!(expand_fits(r, self.styles.styles@[k as int].range.start) && expand_fits(
                    r,
                    self.styles.styles@[k as int].range.end,
                )));
                return (false, first);
            }
            k = k + 1;
        }
        (true, first)
    }

    /// Records an edit in the undo buffer, where there is one.
    fn record(
        &mut self,
        op: UndoOp,
        chars: (usize, usize),
        cursor: TextPosition,
        anchor: TextPosition,
        range: TextRange,
        txt: &str,
    )
        ensures
            undo_recorded(old(self)@.undo, final(self)@.undo, op, chars, cursor, anchor, old(self)@.cursor, old(self)@.anchor, range, txt@),
            final(self)@ == (TextAreaView { undo: final(self)@.undo, ..old(self)@ }),
    {
        proof {
            use_type_invariant(&*self);
        }
        let mut undo: Option<UndoVec> = None;
        std::mem::swap(&mut undo, &mut self.undo);
        if let Some(mut u) = undo {
            let e = UndoEntry {
                op,
                chars,
                cursor,
                anchor,
                redo_cursor: self.cursor,
                redo_anchor: self.anchor,
                range,
                txt: String::from_str(txt),
            };
            u.push(e);
            self.undo = Some(u);
        }
    }

    /// Insert some text.
    pub fn insert_str(&mut self, pos: TextPosition, t: &str)
        requires
            char_index(old(self)@.text, pos) is Some,
        ensures
            text_inserted(old(self)@, final(self)@, pos, t@, UndoOp::InsertStr),
    {
        self.insert_text(pos, t, UndoOp::InsertStr)
    }

    /// Insert a character.
    pub fn insert_char(&mut self, pos: TextPosition, c: char)
        requires
            char_index(old(self)@.text, pos) is Some,
        ensures
            text_inserted(old(self)@, final(self)@, pos, seq![c], UndoOp::InsertChar),
    {
        self.insert_one(pos, c)
    }

    /// Inserts one char at `pos`, recorded for undo as a char.
    fn insert_one(&mut self, pos: TextPosition, c: char)
        ensures
            text_inserted(old(self)@, final(self)@, pos, seq![c], UndoOp::InsertChar),
    {
        let s = char_string(c);
        self.insert_text(pos, s.as_str(), UndoOp::InsertChar)
    }

    /// Inserts `t` at `pos`, recorded for undo as `op`.
    fn insert_text(&mut self, pos: TextPosition, t: &str, op: UndoOp)
        ensures
            text_inserted(old(self)@, final(self)@, pos, t@, op),
    {
        proof {
            use_type_invariant(&*self);
        }
        let lines = rope_len_lines(&self.value);
        if pos.y == lines {
            return;
        }
        let c = match self.char_at(pos) {
            Some(c) => c,
            None => {
                return;
            },
        };
        let ghost a = self@;
        let (n, ts, tlen) = scan_newlines(t);
        let _len = rope_len_chars(&self.value);
        let range = if n > 0 {
            let stop = rope_line_to_char(&self.value, pos.y + 1);
            let rest = rope_slice_string(&self.value, c, stop);
            let old_len = str_width_exec(rest.as_str());
            let mut buf = String::from_str(t.substring_char(ts, tlen));
            buf.append(rest.as_str());
            let new_len = str_width_exec(buf.as_str());
            proof {
                assert(buf@ =~= t@.skip(tail_start(t@) as int) + rest@);
            }
            if new_len < old_len || pos.y > usize::MAX - n {
                return;
            }
            TextRange { start: pos, end: TextPosition { x: new_len - old_len, y: pos.y + n } }
        } else {
            let old_len = match self.line_width(pos.y) {
                Some(w) => w,
                None => 0,
            };
            self.value_insert(c, t);
            let _len2 = rope_len_chars(&self.value);
            let new_len = match self.line_width(pos.y) {
                Some(w) => w,
                None => 0,
            };
            if pos.x > usize::MAX - new_len || new_len < old_len {
                proof {
                    assert(self@.text.take(c as int) =~= a.text.take(c as int));
                    assert(self@.text.skip((c + tlen) as int) =~= a.text.skip(c as int));
                }
                self.value_remove(c, c + tlen);
                assert(self@.text =~= a.text);
                return;
            }
            TextRange { start: pos, end: TextPosition { x: pos.x + new_len - old_len, y: pos.y } }
        };
        assert(range == insert_range(a.text, pos, c as nat, t@));
        let (styles_ok, _first) = self.styles_fit(pos, range);
        let ok = c <= usize::MAX - tlen && expand_fits_exec(range, self.cursor) && expand_fits_exec(range, self.anchor)
            && styles_ok;
        if !ok {
            if n == 0 {
                proof {
                    assert(self@.text.take(c as int) =~= a.text.take(c as int));
                    assert(self@.text.skip((c + tlen) as int) =~= a.text.skip(c as int));
                }
                self.value_remove(c, c + tlen);
                assert(self@.text =~= a.text);
            }
            return;
        }
        if n > 0 {
            self.value_insert(c, t);
        }
        let mut styles = StyleMap { styles: Vec::new() };
        std::mem::swap(&mut styles, &mut self.styles);
        let (first, v) = styles.styles_after_mut(pos);
        proof {
            lemma_first_touch(a.styles, pos, first as int);
        }
        range.expand_all(first, v);
        proof {
            lemma_expand_all_keeps_sorted(range, first as int, a.styles, styles.styles@);
            assert(styles.styles@ =~= styles_expanded(a.styles, first as nat, range));
        }
        self.styles = styles;
        let old_cursor = self.cursor;
        let old_anchor = self.anchor;
        self.anchor = range.expand(self.anchor);
        self.cursor = range.expand(self.cursor);
        self.record(op, (c, c + tlen), old_cursor, old_anchor, range, t);
    }
}

} // verus!

verus! {

/// The styled ranges that the range does not contain, in order.
pub open spec fn uncontained(s: Seq<StyledRange>, r: TextRange) -> Seq<StyledRange>
    decreases s.len(),
{
    if s.len() == 0 {
        Seq::empty()
    } else {
        let rest = uncontained(s.drop_last(), r);
        if pos_le(r.start, s.last().range.start) && pos_le(s.last().range.end, r.end) {
            rest
        } else {
            rest.push(s.last())
        }
    }
}

/// Every styled range from `first` on can be moved by `shrink`.
pub open spec fn styles_shrink_fit(s: Seq<StyledRange>, first: nat, r: TextRange) -> bool {
    forall|k: int|
        first <= k < s.len() ==> shrink_fits(r, (#[trigger] s[k]).range.start) && shrink_fits(r, s[k].range.end)
}

/// The styled ranges from `first` on moved by `shrink`.
pub open spec fn styles_shrunk(s: Seq<StyledRange>, first: nat, r: TextRange) -> Seq<StyledRange> {
    Seq::new(s.len(), |k: int| if k < first { s[k] } else { styled_shrunk(r, s[k]) })
}

/// The styles that stay after removing `r`: those it does not contain,
/// moved by `shrink` from the first one touching `r.start` on.
pub open spec fn styles_after_remove(s: Seq<StyledRange>, r: TextRange) -> Seq<StyledRange> {
    let kept = uncontained(s, r);
    styles_shrunk(kept, first_touch(kept, r.start), r)
}

/// Whether removing `r` (chars `start..end`) can be carried out: the char
/// range is in order and every position it moves stays within `usize`.
pub open spec fn remove_fits(v: TextAreaView, r: TextRange, start: nat, end: nat) -> bool {
    let kept = uncontained(v.styles, r);
    &&& start <= end <= v.text.len() <= usize::MAX
    &&& shrink_fits(r, v.cursor)
    &&& shrink_fits(r, v.anchor)
    &&& styles_shrink_fit(kept, first_touch(kept, r.start), r)
}

/// What removing `r` does: nothing where one of its ends has no char index,
/// where it is empty, or where the removal does not compute; else the chars
/// between the two indexes go, the styles that stay are those of
/// `styles_after_remove` (sorted, each once), cursor and anchor are moved by
/// `shrink`, and the edit is recorded for undo.
pub open spec fn text_removed(a: TextAreaView, b: TextAreaView, r: TextRange, op: UndoOp, changed: bool) -> bool {
    match (char_index(a.text, r.start), char_index(a.text, r.end)) {
        (Some(s), Some(e)) => if r.start != r.end && remove_fits(a, r, s, e) {
            &&& changed
            &&& b.text == a.text.take(s as int) + a.text.skip(e as int)
            &&& b.cursor == shrink_spec(r, a.cursor)
            &&& b.anchor == shrink_spec(r, a.anchor)
            &&& styles_sorted(b.styles)
            &&& styles_distinct(b.styles)
            &&& forall|x: StyledRange| b.styles.contains(x) <==> styles_after_remove(a.styles, r).contains(x)
            &&& undo_recorded(
                a.undo,
                b.undo,
                op,
                (s as usize, e as usize),
                a.cursor,
                a.anchor,
                b.cursor,
                b.anchor,
                r,
                a.text.subrange(s as int, e as int),
            )
            &&& b.newline == a.newline && b.tabs == a.tabs && b.expand_tabs == a.expand_tabs && b.move_col == a.move_col
        } else {
            !changed && b == a
        },
        _ => !changed && b == a,
    }
}

/// Inserting an element adds just that element to what a sequence holds.
proof fn lemma_insert_contains(s: Seq<StyledRange>, i: int, x: StyledRange)
    requires
        0 <= i <= s.len(),
    ensures
        forall|y: StyledRange| s.insert(i, x).contains(y) <==> (s.contains(y) || y == x),
{
    let t = s.insert(i, x);
    assert forall|y: StyledRange| t.contains(y) <==> (s.contains(y) || y == x) by {
        if t.contains(y) {
            let k = choose|k: int| 0 <= k < t.len() && t[k] == y;
            if k < i {
                assert(s[k] == y);
            } else if k > i {
                assert(s[k - 1] == y);
            }
        }
        if s.contains(y) {
            let k = choose|k: int| 0 <= k < s.len() && s[k] == y;
            if k < i {
                assert(t[k] == y);
            } else {
                assert(t[k + 1] == y);
            }
        }
        if y == x {
            assert(t[i] == y);
        }
    }
}

/// Pushing an element adds just that element to what a sequence holds.
proof fn lemma_push_contains(s: Seq<StyledRange>, x: StyledRange)
    ensures
        forall|y: StyledRange| s.push(x).contains(y) <==> (s.contains(y) || y == x),
{
    lemma_insert_contains(s, s.len() as int, x);
    assert(s.insert(s.len() as int, x) =~= s.push(x));
}

/// The styles that the range does not contain.
fn drop_contained(styles: &Vec<StyledRange>, r: TextRange) -> (kept: Vec<StyledRange>)
    ensures
        kept@ == uncontained(styles@, r),
{
    let mut kept: Vec<StyledRange> = Vec::new();
    let mut i: usize = 0;
    while i < styles.len()
        invariant
            i <= styles@.len(),
            kept@ == uncontained(styles@.take(i as int), r),
        decreases styles@.len() - i,
    {
        proof {
            assert(styles@.take(i + 1).drop_last() =~= styles@.take(i as int));
        }
        if !r.contains(styles[i].range) {
            kept.push(styles[i]);
        }
        i = i + 1;
    }
    proof {
        assert(styles@.take(i as int) =~= styles@);
    }
    kept
}

/// A sorted map that holds the given styles.
fn sorted_map(styles: &Vec<StyledRange>) -> (m: StyleMap)
    ensures
        m.wf(),
        styles_distinct(m.styles@),
        forall|x: StyledRange| m.styles@.contains(x) <==> styles@.contains(x),
{
    let mut m = StyleMap { styles: Vec::new() };
    let mut i: usize = 0;
    while i < styles.len()
        invariant
            i <= styles@.len(),
            m.wf(),
            styles_distinct(m.styles@),
            forall|x: StyledRange| m.styles@.contains(x) <==> styles@.take(i as int).contains(x),
        decreases styles@.len() - i,
    {
        let ghost before = m.styles@;
        let sr = styles[i];
        assert(forall|x: StyledRange| before.contains(x) <==> styles@.take(i as int).contains(x));
        m.add_style(sr.range, sr.style);
        proof {
            let prev = styles@.take(i as int);
            assert(styles@.take(i + 1) =~= prev.push(sr));
            lemma_push_contains(prev, sr);
            assert((StyledRange { range: sr.range, style: sr.style }) == sr);
            if !before.contains(sr) {
                let j = choose|j: int| 0 <= j <= before.len() && m.styles@ == before.insert(j, sr);
                lemma_insert_contains(before, j, sr);
                let t = m.styles@;
                assert forall|a: int, b: int| 0 <= a < b < t.len() implies t[a] != t[b] by {
                    if a == j {
                        assert(before.contains(t[b]));
                    } else if b == j {
                        assert(before.contains(t[a]));
                    } else {
                        let a0 = if a < j { a } else { a - 1 };
                        let b0 = if b < j { b } else { b - 1 };
                        assert(t[a] == before[a0] && t[b] == before[b0]);
                    }
                }
            }
            assert forall|x: StyledRange| m.styles@.contains(x) <==> styles@.take(i + 1).contains(x) by {
                assert(before.contains(x) <==> prev.contains(x));
                assert(prev.push(sr).contains(x) <==> (prev.contains(x) || x == sr));
                if before.contains(sr) {
                    assert(m.styles@ == before);
                } else {
                    assert(m.styles@.contains(x) <==> (before.contains(x) || x == sr));
                }
            }
        }
        i = i + 1;
    }
    proof {
        assert(styles@.take(i as int) =~= styles@);
    }
    m
}

/// Exec form of `shrink_fits`.
fn shrink_fits_exec(r: TextRange, pos: TextPosition) -> (ok: bool)
    ensures
        ok == shrink_fits(r, pos),
{
    if r.start.y > r.end.y {
        return false;
    }
    let inside = le(r.start, pos) && le(pos, r.end);
    if !lt(pos, r.start) && !inside && pos.y == r.end.y && pos.x >= r.end.x && pos.x - r.end.x > usize::MAX - r.start.x {
        return false;
    }
    true
}

/// Exec form of `styles_shrink_fit`.
fn shrink_fit_from(styles: &Vec<StyledRange>, first: usize, r: TextRange) -> (ok: bool)
    ensures
        ok == styles_shrink_fit(styles@, first as nat, r),
{
    let mut k = first;
    while k < styles.len()
        invariant
            first <= k,
            forall|j: int|
                first <= j < k && j < styles@.len() ==> shrink_fits(r, (#[trigger] styles@[j]).range.start)
                    && shrink_fits(r, styles@[j].range.end),
        decreases styles@.len() - k,
    {
        let sr = styles[k];
        if !shrink_fits_exec(r, sr.range.start) || !shrink_fits_exec(r, sr.range.end) {
            assert(!(shrink_fits(r, styles@[k as int].range.start) && shrink_fits(r, styles@[k as int].range.end)));
            return false;
        }
        k = k + 1;
    }
    true
}

impl TextAreaCore {
    /// Remove the given range. Returns whether something was removed.
    pub fn remove_range(&mut self, range: TextRange) -> (r: bool)
        requires
            pos_le(range.start, range.end),
            char_index(old(self)@.text, range.start) is Some,
            char_index(old(self)@.text, range.end) is Some,
        ensures
            text_removed(old(self)@, final(self)@, range, UndoOp::RemoveStr, r),
    {
        self._remove_range(range, false)
    }

    /// Remove the given range, recorded for undo as the removal of a char
    /// or of a text.
    fn _remove_range(&mut self, range: TextRange, char_range: bool) -> (r: bool)
        ensures
            text_removed(
                old(self)@,
                final(self)@,
                range,
                if char_range {
                    UndoOp::RemoveChar
                } else {
                    UndoOp::RemoveStr
                },
                r,
            ),
    {
        proof {
            use_type_invariant(&*self);
        }
        let ghost a = self@;
        let lines = rope_len_lines(&self.value);
        if range.start.y == lines || range.end.y == lines {
            return false;
        }
        let start_pos = match self.char_at(range.start) {
            Some(c) => c,
            None => {
                return false;
            },
        };
        let end_pos = match self.char_at(range.end) {
            Some(c) => c,
            None => {
                return false;
            },
        };
        if range.is_empty() {
            return false;
        }
        let _len = rope_len_chars(&self.value);
        if start_pos > end_pos || !shrink_fits_exec(range, self.cursor) || !shrink_fits_exec(range, self.anchor) {
            return false;
        }
        let kept = drop_contained(&self.styles.styles, range);
        let mut kept_map = StyleMap { styles: kept };
        let first = kept_map.first_not_before(range.start);
        proof {
            lemma_first_touch(kept_map.styles@, range.start, first as int);
        }
        if !shrink_fit_from(&kept_map.styles, first, range) {
            return false;
        }
        let old_text = rope_slice_string(&self.value, start_pos, end_pos);
        self.value_remove(start_pos, end_pos);
        let ghost kept_seq = kept_map.styles@;
        range.shrink_all(first, &mut kept_map.styles);
        proof {
            assert(kept_map.styles@ =~= styles_after_remove(a.styles, range));
        }
        let new_map = sorted_map(&kept_map.styles);
        self.styles = new_map;
        let old_cursor = self.cursor;
        let old_anchor = self.anchor;
        // Each of cursor and anchor is moved once by the removal: a position
        // after the range moves back by the removed text, one inside it
        // goes to its start. Moving the already moved anchor once more would
        // shift a position after the range twice.
        self.anchor = range.shrink(old_anchor);
        self.cursor = range.shrink(old_cursor);
        let op = if char_range {
            UndoOp::RemoveChar
        } else {
            UndoOp::RemoveStr
        };
        self.record(op, (start_pos, end_pos), old_cursor, old_anchor, range, old_text.as_str());
        true
    }
}

} // verus!

verus! {

/// An insert records the char range of the inserted text.
pub open spec fn is_insert(op: UndoOp) -> bool {
    op == UndoOp::InsertChar || op == UndoOp::InsertStr
}

/// Undoing the edit fits the text: the inserted chars lie in it, or the
/// place of the removed ones does.
pub open spec fn undo_applies(e: UndoEntry, text: Seq<char>) -> bool {
    if is_insert(e.op) {
        e.chars.0 <= e.chars.1 <= text.len()
    } else {
        e.chars.0 <= text.len()
    }
}

/// The text with the edit undone: inserted chars removed, removed chars
/// inserted again.
pub open spec fn undo_text(e: UndoEntry, text: Seq<char>) -> Seq<char> {
    if is_insert(e.op) {
        text.take(e.chars.0 as int) + text.skip(e.chars.1 as int)
    } else {
        inserted(text, e.chars.0 as nat, e.txt@)
    }
}

/// Redoing the edit fits the text.
pub open spec fn redo_applies(e: UndoEntry, text: Seq<char>) -> bool {
    if is_insert(e.op) {
        e.chars.0 <= text.len()
    } else {
        e.chars.0 <= e.chars.1 <= text.len()
    }
}

/// The text with the edit done again.
pub open spec fn redo_text(e: UndoEntry, text: Seq<char>) -> Seq<char> {
    if is_insert(e.op) {
        inserted(text, e.chars.0 as nat, e.txt@)
    } else {
        text.take(e.chars.0 as int) + text.skip(e.chars.1 as int)
    }
}

/// `b` is `a` with text, cursor and anchor replaced and the undo position
/// moved to `idx`.
pub open spec fn edit_replayed(a: TextAreaView, b: TextAreaView, text: Seq<char>, cursor: TextPosition, anchor: TextPosition, idx: int) -> bool {
    &&& b.text == text
    &&& b.cursor == cursor
    &&& b.anchor == anchor
    &&& b.styles == a.styles
    &&& b.newline == a.newline && b.tabs == a.tabs && b.expand_tabs == a.expand_tabs && b.move_col == a.move_col
    &&& a.undo matches Some(u) && b.undo matches Some(v) && v.entries@ == u.entries@ && v.max == u.max && v.idx == idx
}

/// What undo does: with an edit before the undo position that fits the
/// text, the edit is undone, cursor and anchor go back to where they were
/// before it, and the position steps back; else nothing.
pub open spec fn text_undone(a: TextAreaView, b: TextAreaView, r: bool) -> bool {
    match a.undo {
        Some(u) => if u.idx > 0 && undo_applies(u.entries@[u.idx - 1], a.text) {
            let e = u.entries@[u.idx - 1];
            r && edit_replayed(a, b, undo_text(e, a.text), e.cursor, e.anchor, u.idx - 1)
        } else {
            !r && b == a
        },
        None => !r && b == a,
    }
}

/// What redo does: with an edit at the undo position that fits the text,
/// the edit is done again, cursor and anchor go to where they were after
/// it, and the position steps forward; else nothing.
pub open spec fn text_redone(a: TextAreaView, b: TextAreaView, r: bool) -> bool {
    match a.undo {
        Some(u) => if u.idx < u.entries@.len() && redo_applies(u.entries@[u.idx as int], a.text) {
            let e = u.entries@[u.idx as int];
            r && edit_replayed(a, b, redo_text(e, a.text), e.redo_cursor, e.redo_anchor, u.idx + 1)
        } else {
            !r && b == a
        },
        None => !r && b == a,
    }
}

impl TextAreaCore {
    /// Undo last.
    pub fn undo(&mut self) -> (r: bool)
        ensures
            text_undone(old(self)@, final(self)@, r),
    {
        proof {
            use_type_invariant(&*self);
        }
        let mut undo: Option<UndoVec> = None;
        std::mem::swap(&mut undo, &mut self.undo);
        let mut u = match undo {
            Some(u) => u,
            None => {
                return false;
            },
        };
        if u.idx == 0 {
            self.undo = Some(u);
            return false;
        }
        let i = u.idx - 1;
        let len = rope_len_chars(&self.value);
        let op = u.entries[i].op;
        let (c0, c1) = u.entries[i].chars;
        let insert = op == UndoOp::InsertChar || op == UndoOp::InsertStr;
        let ok = if insert {
            c0 <= c1 && c1 <= len
        } else {
            c0 <= len
        };
        if !ok {
            self.undo = Some(u);
            return false;
        }
        if insert {
            self.value_remove(c0, c1);
        } else {
            self.value_insert(c0, u.entries[i].txt.as_str());
        }
        self.anchor = u.entries[i].anchor;
        self.cursor = u.entries[i].cursor;
        let _ = u.undo();
        self.undo = Some(u);
        true
    }

    /// Redo last.
    pub fn redo(&mut self) -> (r: bool)
        ensures
            text_redone(old(self)@, final(self)@, r),
    {
        proof {
            use_type_invariant(&*self);
        }
        let mut undo: Option<UndoVec> = None;
        std::mem::swap(&mut undo, &mut self.undo);
        let mut u = match undo {
            Some(u) => u,
            None => {
                return false;
            },
        };
        if u.idx >= u.entries.len() {
            self.undo = Some(u);
            return false;
        }
        let i = u.idx;
        let len = rope_len_chars(&self.value);
        let op = u.entries[i].op;
        let (c0, c1) = u.entries[i].chars;
        let insert = op == UndoOp::InsertChar || op == UndoOp::InsertStr;
        let ok = if insert {
            c0 <= len
        } else {
            c0 <= c1 && c1 <= len
        };
        if !ok {
            self.undo = Some(u);
            return false;
        }
        if insert {
            self.value_insert(c0, u.entries[i].txt.as_str());
        } else {
            self.value_remove(c0, c1);
        }
        self.anchor = u.entries[i].redo_anchor;
        self.cursor = u.entries[i].redo_cursor;
        let _ = u.redo();
        self.undo = Some(u);
        true
    }

    /// Undo
    pub fn set_undo_buffer(&mut self, undo: UndoVec)
        requires
            undo.wf(),
        ensures
            final(self)@ == (TextAreaView { undo: Some(undo), ..old(self)@ }),
    {
        proof {
            use_type_invariant(&*self);
        }
        self.undo = Some(undo);
    }

    /// Undo
    pub fn undo_buffer(&self) -> (r: Option<&UndoVec>)
        ensures
            r is None <==> self@.undo is None,
            r matches Some(u) ==> self@.undo == Some(*u),
    {
        match &self.undo {
            Some(u) => Some(u),
            None => None,
        }
    }
}

/// Undo after an insert (of a text or of a char) gives back the text, the
/// cursor and the anchor as they were before the insert.
pub proof fn lemma_undo_after_insert(
    a: TextAreaView,
    b: TextAreaView,
    c: TextAreaView,
    pos: TextPosition,
    t: Seq<char>,
    op: UndoOp,
    r: bool,
)
    requires
        is_insert(op),
        text_inserted(a, b, pos, t, op),
        char_index(a.text, pos) matches Some(ci) && insert_fits(a, pos, ci, t),
        a.undo is Some,
        text_undone(b, c, r),
    ensures
        r,
        c.text == a.text,
        c.cursor == a.cursor,
        c.anchor == a.anchor,
{
    let ci = char_index(a.text, pos)->0;
    let u = a.undo->0;
    let e = choose|e: UndoEntry|
        #![trigger pushed_entries(u.entries@, u.idx as nat, u.max as nat, e)]
        e.op == op && e.chars == (ci as usize, (ci + t.len()) as usize) && e.cursor == a.cursor
            && e.anchor == a.anchor && e.redo_cursor == b.cursor && e.redo_anchor == b.anchor && e.range
            == insert_range(a.text, pos, ci, t) && e.txt@ == t && b.undo->0.entries@ == pushed_entries(
            u.entries@,
            u.idx as nat,
            u.max as nat,
            e,
        );
    let v = b.undo->0;
    let kept = u.entries@.take(u.idx as int).push(e);
    assert(v.entries@[v.idx - 1] == e) by {
        if kept.len() > u.max && kept.len() > 1 {
            assert(v.entries@ == kept.drop_first());
        }
    }
    assert(undo_text(e, b.text) =~= a.text);
}

/// Removing a range and undoing it gives back the text, the cursor and the
/// anchor as they were before.
pub proof fn lemma_undo_after_remove(a: TextAreaView, b: TextAreaView, c: TextAreaView, range: TextRange, r: bool)
    requires
        text_removed(a, b, range, UndoOp::RemoveStr, true),
        a.undo is Some,
        text_undone(b, c, r),
    ensures
        r,
        c.text == a.text,
        c.cursor == a.cursor,
        c.anchor == a.anchor,
{
    let s = char_index(a.text, range.start)->0;
    let e2 = char_index(a.text, range.end)->0;
    let u = a.undo->0;
    let e = choose|e: UndoEntry|
        #![trigger pushed_entries(u.entries@, u.idx as nat, u.max as nat, e)]
        e.op == UndoOp::RemoveStr && e.chars == (s as usize, e2 as usize) && e.cursor == a.cursor && e.anchor
            == a.anchor && e.redo_cursor == b.cursor && e.redo_anchor == b.anchor && e.range == range && e.txt@
            == a.text.subrange(s as int, e2 as int) && b.undo->0.entries@ == pushed_entries(
            u.entries@,
            u.idx as nat,
            u.max as nat,
            e,
        );
    let v = b.undo->0;
    let kept = u.entries@.take(u.idx as int).push(e);
    assert(v.entries@[v.idx - 1] == e) by {
        if kept.len() > u.max && kept.len() > 1 {
            assert(v.entries@ == kept.drop_first());
        }
    }
    assert(undo_text(e, b.text) =~= a.text);
}

/// Undo and then redo after an insert (of a text or of a char) give back
/// the text, the cursor and the anchor as they were after the insert.
pub proof fn lemma_redo_after_undo_insert(
    a: TextAreaView,
    b: TextAreaView,
    c: TextAreaView,
    d: TextAreaView,
    pos: TextPosition,
    t: Seq<char>,
    op: UndoOp,
    r1: bool,
    r2: bool,
)
    requires
        is_insert(op),
        text_inserted(a, b, pos, t, op),
        char_index(a.text, pos) matches Some(ci) && insert_fits(a, pos, ci, t),
        a.undo is Some,
        text_undone(b, c, r1),
        text_redone(c, d, r2),
    ensures
        r2,
        d.text == b.text,
        d.cursor == b.cursor,
        d.anchor == b.anchor,
{
    lemma_undo_after_insert(a, b, c, pos, t, op, r1);
    let ci = char_index(a.text, pos)->0;
    let u = a.undo->0;
    let e = choose|e: UndoEntry|
        #![trigger pushed_entries(u.entries@, u.idx as nat, u.max as nat, e)]
        e.op == op && e.chars == (ci as usize, (ci + t.len()) as usize) && e.cursor == a.cursor
            && e.anchor == a.anchor && e.redo_cursor == b.cursor && e.redo_anchor == b.anchor && e.range
            == insert_range(a.text, pos, ci, t) && e.txt@ == t && b.undo->0.entries@ == pushed_entries(
            u.entries@,
            u.idx as nat,
            u.max as nat,
            e,
        );
    let v = b.undo->0;
    let kept = u.entries@.take(u.idx as int).push(e);
    assert(v.entries@[v.idx - 1] == e) by {
        if kept.len() > u.max && kept.len() > 1 {
            assert(v.entries@ == kept.drop_first());
        }
    }
    assert(redo_text(e, c.text) =~= b.text);
}

/// Undo and then redo after removing a range give back the text, the
/// cursor and the anchor as they were after the removal.
pub proof fn lemma_redo_after_undo_remove(
    a: TextAreaView,
    b: TextAreaView,
    c: TextAreaView,
    d: TextAreaView,
    range: TextRange,
    r1: bool,
    r2: bool,
)
    requires
        text_removed(a, b, range, UndoOp::RemoveStr, true),
        a.undo is Some,
        text_undone(b, c, r1),
        text_redone(c, d, r2),
    ensures
        r2,
        d.text == b.text,
        d.cursor == b.cursor,
        d.anchor == b.anchor,
{
    lemma_undo_after_remove(a, b, c, range, r1);
    let s = char_index(a.text, range.start)->0;
    let e2 = char_index(a.text, range.end)->0;
    let u = a.undo->0;
    let e = choose|e: UndoEntry|
        #![trigger pushed_entries(u.entries@, u.idx as nat, u.max as nat, e)]
        e.op == UndoOp::RemoveStr && e.chars == (s as usize, e2 as usize) && e.cursor == a.cursor && e.anchor
            == a.anchor && e.redo_cursor == b.cursor && e.redo_anchor == b.anchor && e.range == range && e.txt@
            == a.text.subrange(s as int, e2 as int) && b.undo->0.entries@ == pushed_entries(
            u.entries@,
            u.idx as nat,
            u.max as nat,
            e,
        );
    let v = b.undo->0;
    let kept = u.entries@.take(u.idx as int).push(e);
    assert(v.entries@[v.idx - 1] == e) by {
        if kept.len() > u.max && kept.len() > 1 {
            assert(v.entries@ == kept.drop_first());
        }
    }
    assert(redo_text(e, c.text) =~= b.text);
}

} // verus!

verus! {

/// A position held within the text: the row at most the last one, the
/// column at most that row's width.
pub open spec fn capped(text: Seq<char>, p: TextPosition) -> TextPosition {
    let y = capped_row(text, p);
    let w = width_or_zero(text, y);
    TextPosition { y: y as usize, x: if p.x < w { p.x } else { w as usize } }
}

/// The row a position is held to: its own, or the last one.
pub open spec fn capped_row(text: Seq<char>, p: TextPosition) -> nat {
    if p.y < text_lines(text) - 1 {
        p.y as nat
    } else {
        (text_lines(text) - 1) as nat
    }
}

/// Setting the cursor puts it on a row of the text and within that row's
/// width; a position that is already there is kept; a requested row that
/// exists is kept; the anchor follows unless the selection is extended;
/// the text does not change.
pub proof fn lemma_set_cursor_within(a: TextAreaView, b: TextAreaView, p: TextPosition, extend: bool, r: bool)
    requires
        ({
            let c = capped(a.text, p);
            let an = if extend { a.anchor } else { c };
            &&& moved_cursor(a, b, c, an)
            &&& r == (b.cursor != a.cursor)
        }),
        text_lines(a.text) <= usize::MAX,
        width_or_zero(a.text, capped_row(a.text, p)) <= usize::MAX,
    ensures
        b.cursor.y < text_lines(a.text),
        b.cursor.x <= width_or_zero(a.text, b.cursor.y as nat),
        p.y < text_lines(a.text) ==> b.cursor.y == p.y,
        p.x <= b.cursor.x || b.cursor.x == width_or_zero(a.text, b.cursor.y as nat),
        p.y < text_lines(a.text) && p.x <= width_or_zero(a.text, p.y as nat) ==> b.cursor == p,
        extend ==> b.anchor == a.anchor,
        !extend ==> b.anchor == b.cursor,
        b.text == a.text,
        r == (b.cursor != a.cursor),
{
}

/// Setting the selection puts both its ends on rows of the text, within
/// their rows' widths; ends that are already there are kept as given.
pub proof fn lemma_set_selection_within(a: TextAreaView, b: TextAreaView, range: TextRange)
    requires
        moved_cursor(a, b, capped(a.text, range.end), capped(a.text, range.start)),
        text_lines(a.text) <= usize::MAX,
        width_or_zero(a.text, capped_row(a.text, range.start)) <= usize::MAX,
        width_or_zero(a.text, capped_row(a.text, range.end)) <= usize::MAX,
    ensures
        b.anchor.y < text_lines(a.text),
        b.anchor.x <= width_or_zero(a.text, b.anchor.y as nat),
        b.cursor.y < text_lines(a.text),
        b.cursor.x <= width_or_zero(a.text, b.cursor.y as nat),
        range.start.y < text_lines(a.text) && range.start.x <= width_or_zero(a.text, range.start.y as nat)
            ==> b.anchor == range.start,
        range.end.y < text_lines(a.text) && range.end.x <= width_or_zero(a.text, range.end.y as nat) ==> b.cursor
            == range.end,
        b.text == a.text,
{
}

/// Selecting all spans every position of the text: the selection starts
/// at the first column of the first row, and every position on a row of
/// the text within that row's width lies between its ends.
pub proof fn lemma_select_all_spans_the_text(a: TextAreaView, b: TextAreaView, p: TextPosition)
    requires
        ({
            let last = (text_lines(a.text) - 1) as nat;
            let e = TextPosition { y: last as usize, x: width_or_zero(a.text, last) as usize };
            moved_cursor(a, b, e, origin())
        }),
        text_lines(a.text) <= usize::MAX,
        width_or_zero(a.text, (text_lines(a.text) - 1) as nat) <= usize::MAX,
        p.y < text_lines(a.text),
        p.x <= width_or_zero(a.text, p.y as nat),
    ensures
        b.anchor.x == 0 && b.anchor.y == 0,
        b.cursor.y == text_lines(a.text) - 1,
        b.cursor.x == width_or_zero(a.text, b.cursor.y as nat),
        pos_le(b.anchor, p),
        pos_le(p, b.cursor),
        b.text == a.text,
{
}

/// `b` is `a` with cursor and anchor replaced.
pub open spec fn moved_cursor(a: TextAreaView, b: TextAreaView, cursor: TextPosition, anchor: TextPosition) -> bool {
    b == (TextAreaView { cursor, anchor, ..a })
}

impl TextAreaCore {
    /// Set the cursor position.
    /// The value is capped to the number of text lines and the line-width
    /// for the given line. Without `extend_selection` the anchor follows.
    /// Returns true, if the cursor actually changed.
    pub fn set_cursor(&mut self, cursor: TextPosition, extend_selection: bool) -> (r: bool)
        ensures
            ({
                let c = capped(old(self)@.text, cursor);
                let a = if extend_selection { old(self)@.anchor } else { c };
                &&& moved_cursor(old(self)@, final(self)@, c, a)
                &&& r == (final(self)@.cursor != old(self)@.cursor)
            }),
            text_lines(old(self)@.text) <= usize::MAX,
            width_or_zero(old(self)@.text, capped_row(old(self)@.text, cursor)) <= usize::MAX,
    {
        proof {
            use_type_invariant(&*self);
        }
        let old_cursor = self.cursor;
        let lines = rope_len_lines(&self.value);
        let y = if cursor.y < lines - 1 {
            cursor.y
        } else {
            lines - 1
        };
        let w = match self.line_width(y) {
            Some(w) => w,
            None => 0,
        };
        let c = TextPosition { y, x: if cursor.x < w { cursor.x } else { w } };
        self.cursor = c;
        if !extend_selection {
            self.anchor = c;
        }
        old_cursor != self.cursor
    }

    /// Sets the selection: anchor at the start, cursor at the end, both
    /// capped. Returns whether the selection changed.
    pub fn set_selection(&mut self, range: TextRange) -> (r: bool)
        ensures
            ({
                let s = capped(old(self)@.text, range.start);
                let e = capped(old(self)@.text, range.end);
                &&& moved_cursor(old(self)@, final(self)@, e, s)
                &&& r == (selection_of(old(self)@.cursor, old(self)@.anchor) != selection_of(e, s))
            }),
            text_lines(old(self)@.text) <= usize::MAX,
            width_or_zero(old(self)@.text, capped_row(old(self)@.text, range.start)) <= usize::MAX,
            width_or_zero(old(self)@.text, capped_row(old(self)@.text, range.end)) <= usize::MAX,
    {
        let old_selection = self.selection();
        self.set_cursor(range.start, false);
        self.set_cursor(range.end, true);
        old_selection != self.selection()
    }

    /// Selects the whole text. Returns whether the selection changed.
    pub fn select_all(&mut self) -> (r: bool)
        ensures
            ({
                let last = (text_lines(old(self)@.text) - 1) as nat;
                let e = TextPosition { y: last as usize, x: width_or_zero(old(self)@.text, last) as usize };
                &&& moved_cursor(old(self)@, final(self)@, e, origin())
                &&& r == (selection_of(old(self)@.cursor, old(self)@.anchor) != selection_of(e, origin()))
            }),
            text_lines(old(self)@.text) <= usize::MAX,
            width_or_zero(old(self)@.text, (text_lines(old(self)@.text) - 1) as nat) <= usize::MAX,
    {
        let old_selection = self.selection();
        self.set_cursor(TextPosition { y: 0, x: 0 }, false);
        let last = rope_len_lines(&self.value) - 1;
        let last_width = match self.line_width(last) {
            Some(w) => w,
            None => 0,
        };
        self.set_cursor(TextPosition { y: last, x: last_width }, true);
        old_selection != self.selection()
    }

    /// Remove the previous character: the one before `pos`, or the line
    /// break at the end of the previous row. Returns whether something was
    /// removed.
    pub fn remove_prev_char(&mut self, pos: TextPosition) -> (r: bool)
        requires
            char_index(old(self)@.text, pos) is Some,
            char_index(old(self)@.text, prev_char_start(old(self)@.text, pos)) is Some,
        ensures
            text_removed(
                old(self)@,
                final(self)@,
                TextRange { start: prev_char_start(old(self)@.text, pos), end: pos },
                UndoOp::RemoveChar,
                r,
            ),
    {
        let start = if pos.y == 0 && pos.x == 0 {
            pos
        } else if pos.x == 0 {
            let w = match self.line_width(pos.y - 1) {
                Some(w) => w,
                None => 0,
            };
            TextPosition { y: pos.y - 1, x: w }
        } else {
            TextPosition { y: pos.y, x: pos.x - 1 }
        };
        self._remove_range(TextRange { start, end: pos }, true)
    }

    /// Remove the next character: the one at `pos`, or the line break at
    /// the end of its row. Returns whether something was removed.
    pub fn remove_next_char(&mut self, pos: TextPosition) -> (r: bool)
        requires
            char_index(old(self)@.text, pos) is Some,
            pos.y < usize::MAX && pos.x < usize::MAX ==> char_index(old(self)@.text, next_char_end(old(self)@.text, pos)) is Some,
        ensures
            pos.y < usize::MAX && pos.x < usize::MAX ==> text_removed(
                old(self)@,
                final(self)@,
                TextRange { start: pos, end: next_char_end(old(self)@.text, pos) },
                UndoOp::RemoveChar,
                r,
            ),
            pos.y == usize::MAX || pos.x == usize::MAX ==> !r && final(self)@ == old(self)@,
    {
        let w = match self.line_width(pos.y) {
            Some(w) => w,
            None => 0,
        };
        let last = rope_len_lines(&self.value) - 1;
        if pos.y == usize::MAX || pos.x == usize::MAX {
            return false;
        }
        let end = if pos.y == last && pos.x == w {
            pos
        } else if pos.y != last && pos.x == w {
            TextPosition { y: pos.y + 1, x: 0 }
        } else {
            TextPosition { y: pos.y, x: pos.x + 1 }
        };
        self._remove_range(TextRange { start: pos, end }, true)
    }
}

} // verus!

verus! {

/// The states of inserting the chars of `cs` one after the other, the
/// first at `pos` and each following one column further right.
pub open spec fn chars_chain(states: Seq<TextAreaView>, pos: TextPosition, cs: Seq<char>) -> bool {
    &&& states.len() == cs.len() + 1
    &&& forall|i: int|
        0 <= i < cs.len() ==> text_inserted(
            #[trigger] states[i],
            states[i + 1],
            TextPosition { x: (pos.x + i) as usize, y: pos.y },
            seq![cs[i]],
            UndoOp::InsertChar,
        )
}

/// Where the char before `pos` starts: one column to the left, the end of
/// the previous row at the start of a row, and `pos` itself at the start of
/// the text.
pub open spec fn prev_char_start(text: Seq<char>, pos: TextPosition) -> TextPosition {
    if pos.y == 0 && pos.x == 0 {
        pos
    } else if pos.x == 0 {
        TextPosition { y: (pos.y - 1) as usize, x: width_or_zero(text, (pos.y - 1) as nat) as usize }
    } else {
        TextPosition { y: pos.y, x: (pos.x - 1) as usize }
    }
}

/// Within a row, removing the previous char removes exactly the grapheme
/// before the position: the chars from the start of column `pos.x - 1` to
/// the position, as many as that grapheme has, and nothing else.
pub proof fn lemma_backspace_removes_previous_grapheme(a: TextAreaView, b: TextAreaView, pos: TextPosition, r: bool)
    requires
        pos.x > 0,
        char_index(a.text, pos) is Some,
        char_index(a.text, prev_char_start(a.text, pos)) is Some,
        text_removed(a, b, TextRange { start: prev_char_start(a.text, pos), end: pos }, UndoOp::RemoveChar, r),
    ensures
        ({
            let prev = TextPosition { x: (pos.x - 1) as usize, y: pos.y };
            let parts = line_parts(a.text, pos.y as nat);
            let e = char_index(a.text, pos)->0;
            let s = char_index(a.text, prev)->0;
            &&& char_index(a.text, prev) is Some
            &&& pos.x < parts.len() ==> e == s + parts[pos.x - 1].len()
            &&& r ==> b.text == a.text.take(s as int) + a.text.skip(e as int)
            &&& r ==> b.text.len() == a.text.len() - (e - s)
            &&& !r ==> b == a
        }),
{
    let parts = line_parts(a.text, pos.y as nat);
    lemma_parts_len_take(parts, pos.x - 1);
    if pos.x < parts.len() {
        lemma_parts_len_take(parts, pos.x as int);
    }
}

/// At the start of a row after the first, removing the previous char joins
/// the row to the one above: what goes is the text from the end of the row
/// above (its width, before its line break) to the start of this row; at
/// the start of the text nothing goes.
pub proof fn lemma_backspace_joins_rows(a: TextAreaView, b: TextAreaView, pos: TextPosition, r: bool)
    requires
        pos.x == 0,
        char_index(a.text, pos) is Some,
        char_index(a.text, prev_char_start(a.text, pos)) is Some,
        text_removed(a, b, TextRange { start: prev_char_start(a.text, pos), end: pos }, UndoOp::RemoveChar, r),
    ensures
        pos.y == 0 ==> !r && b == a,
        pos.y > 0 ==> ({
            let up = TextPosition { x: width_or_zero(a.text, (pos.y - 1) as nat) as usize, y: (pos.y - 1) as usize };
            let s = char_index(a.text, up)->0;
            let e = char_index(a.text, pos)->0;
            &&& char_index(a.text, up) is Some
            &&& r ==> b.text == a.text.take(s as int) + a.text.skip(e as int)
            &&& !r ==> b == a
        }),
{
}

/// At the end of a row before the last, removing the next char joins the
/// next row to it: what goes is the text from the position to the start of
/// the next row; at the end of the text nothing goes.
pub proof fn lemma_delete_joins_rows(a: TextAreaView, b: TextAreaView, pos: TextPosition, r: bool)
    requires
        pos.x == width_or_zero(a.text, pos.y as nat),
        pos.y < usize::MAX,
        pos.x < usize::MAX,
        char_index(a.text, pos) is Some,
        char_index(a.text, next_char_end(a.text, pos)) is Some,
        text_removed(a, b, TextRange { start: pos, end: next_char_end(a.text, pos) }, UndoOp::RemoveChar, r),
    ensures
        pos.y + 1 == text_lines(a.text) ==> !r && b == a,
        pos.y + 1 < text_lines(a.text) ==> ({
            let down = TextPosition { x: 0, y: (pos.y + 1) as usize };
            let s = char_index(a.text, pos)->0;
            let e = char_index(a.text, down)->0;
            &&& char_index(a.text, down) is Some
            &&& r ==> b.text == a.text.take(s as int) + a.text.skip(e as int)
            &&& !r ==> b == a
        }),
{
}

/// Within a row, removing the next char removes exactly the grapheme at the
/// position: the chars from the position to the start of column
/// `pos.x + 1`, as many as that grapheme has, and nothing else.
pub proof fn lemma_delete_removes_next_grapheme(a: TextAreaView, b: TextAreaView, pos: TextPosition, r: bool)
    requires
        pos.x < width_or_zero(a.text, pos.y as nat),
        pos.y < usize::MAX,
        pos.x < usize::MAX,
        char_index(a.text, pos) is Some,
        char_index(a.text, next_char_end(a.text, pos)) is Some,
        text_removed(a, b, TextRange { start: pos, end: next_char_end(a.text, pos) }, UndoOp::RemoveChar, r),
    ensures
        ({
            let next = TextPosition { x: (pos.x + 1) as usize, y: pos.y };
            let parts = line_parts(a.text, pos.y as nat);
            let s = char_index(a.text, pos)->0;
            let e = char_index(a.text, next)->0;
            &&& char_index(a.text, next) is Some
            &&& pos.x + 1 < parts.len() ==> e == s + parts[pos.x as int].len()
            &&& r ==> b.text == a.text.take(s as int) + a.text.skip(e as int)
            &&& r ==> b.text.len() == a.text.len() - (e - s)
            &&& !r ==> b == a
        }),
{
    let parts = line_parts(a.text, pos.y as nat);
    lemma_parts_len_take(parts, pos.x as int);
    if pos.x + 1 < parts.len() {
        lemma_parts_len_take(parts, pos.x + 1);
    }
}

/// Where the char at `pos` ends: one column to the right, the start of the
/// next row at the end of a row, and `pos` itself at the end of the text.
pub open spec fn next_char_end(text: Seq<char>, pos: TextPosition) -> TextPosition {
    let w = width_or_zero(text, pos.y as nat);
    let last = text_lines(text) - 1;
    if pos.y == last && pos.x == w {
        pos
    } else if pos.y != last && pos.x == w {
        TextPosition { y: (pos.y + 1) as usize, x: 0 }
    } else {
        TextPosition { y: pos.y, x: (pos.x + 1) as usize }
    }
}

/// `b` comes from `a` by inserting the chars of `cs` one after the other,
/// the first at `pos` and each following one column further right.
pub open spec fn chars_inserted(a: TextAreaView, b: TextAreaView, pos: TextPosition, cs: Seq<char>) -> bool {
    exists|states: Seq<TextAreaView>| #[trigger] chars_chain(states, pos, cs) && states[0] == a && states.last() == b
}

/// The spaces that fill up to the next tab stop from column `x`.
pub open spec fn tab_spaces(x: usize, tabs: u16) -> Seq<char> {
    Seq::new((tabs as int - (x as int) % (tabs as int)) as nat, |i: int| ' ')
}

impl TextAreaCore {
    /// Inserts the chars of `cs` one after the other from `pos` on.
    fn insert_chars(&mut self, pos: TextPosition, cs: &str)
        requires
            pos.x + cs@.len() <= usize::MAX,
        ensures
            chars_inserted(old(self)@, final(self)@, pos, cs@),
    {
        let len = cs.unicode_len();
        let mut i: usize = 0;
        let ghost a = self@;
        let ghost mut states: Seq<TextAreaView> = seq![a];
        while i < len
            invariant
                len == cs@.len(),
                i <= len,
                pos.x + len <= usize::MAX,
                chars_chain(states, pos, cs@.take(i as int)),
                states[0] == a,
                states.last() == self@,
            decreases len - i,
        {
            let ghost m = self@;
            let c = cs.get_char(i);
            self.insert_one(TextPosition { x: pos.x + i, y: pos.y }, c);
            proof {
                let old_states = states;
                states = states.push(self@);
                let t = cs@.take(i + 1);
                assert forall|k: int| 0 <= k < t.len() implies text_inserted(
                    #[trigger] states[k],
                    states[k + 1],
                    TextPosition { x: (pos.x + k) as usize, y: pos.y },
                    seq![t[k]],
                    UndoOp::InsertChar,
                ) by {
                    if k < i {
                        assert(states[k] == old_states[k] && states[k + 1] == old_states[k + 1]);
                        assert(t[k] == cs@.take(i as int)[k]);
                    } else {
                        assert(states[k] == m);
                        assert(t[k] == c);
                    }
                }
            }
            i = i + 1;
        }
        proof {
            assert(cs@.take(len as int) =~= cs@);
        }
    }

    /// Insert a line break: the chars of the line ending, one after the
    /// other.
    pub fn insert_newline(&mut self, pos: TextPosition)
        requires
            char_index(old(self)@.text, pos) is Some,
            pos.x + old(self)@.newline.len() <= usize::MAX,
        ensures
            chars_inserted(old(self)@, final(self)@, pos, old(self)@.newline),
    {
        let nl = String::from_str(self.newline.as_str());
        self.insert_chars(pos, nl.as_str());
    }

    /// Insert a tab: spaces up to the next tab stop when tabs are expanded,
    /// else a tab char.
    pub fn insert_tab(&mut self, pos: TextPosition)
        requires
            char_index(old(self)@.text, pos) is Some,
            old(self)@.expand_tabs ==> old(self)@.tabs > 0 && pos.x + old(self)@.tabs <= usize::MAX,
        ensures
            old(self)@.expand_tabs ==> chars_inserted(old(self)@, final(self)@, pos, tab_spaces(pos.x, old(self)@.tabs)),
            !old(self)@.expand_tabs ==> text_inserted(old(self)@, final(self)@, pos, seq!['\t'], UndoOp::InsertChar),
    {
        if self.expand_tabs {
            let tabs = self.tabs as usize;
            let n = tabs - pos.x % tabs;
            let spaces = spaces_string(n);
            self.insert_chars(pos, spaces.as_str());
        } else {
            self.insert_one(pos, '\t');
        }
    }
}

/// A string of `n` spaces.
fn spaces_string(n: usize) -> (r: String)
    ensures
        r@ == Seq::new(n as nat, |i: int| ' '),
{
    let mut s = String::new();
    let mut i: usize = 0;
    while i < n
        invariant
            i <= n,
            s@ == Seq::new(i as nat, |k: int| ' '),
        decreases n - i,
    {
        s.append(" ");
        proof {
            reveal_strlit(" ");
            assert(s@ =~= Seq::new((i + 1) as nat, |k: int| ' '));
        }
        i = i + 1;
    }
    s
}

} // verus!

verus! {

/// How many of the parts start before char offset `off`: the first starts
/// at 0, each next one after the chars of the previous ones.
pub open spec fn count_before(parts: Seq<Seq<char>>, off: int) -> nat
    decreases parts.len(),
{
    if parts.len() == 0 || off <= 0 {
        0
    } else {
        1 + count_before(parts.drop_first(), off - parts[0].len())
    }
}

/// Row `y` holds char index `c`: it starts at or before `c`, and the next
/// row, if there is one, starts after it.
pub open spec fn row_holds(text: Seq<char>, c: nat, y: nat) -> bool {
    &&& y < text_lines(text)
    &&& line_start_of(text, y) <= c
    &&& y + 1 < text_lines(text) ==> c < line_start_of(text, y + 1)
}

/// Counting over the parts from `k` on continues the count over the first
/// `k`, as long as each of those started before the offset.
proof fn lemma_count_before_step(parts: Seq<Seq<char>>, off: int, k: int)
    requires
        0 <= k < parts.len(),
        off > 0,
    ensures
        count_before(parts.skip(k), off) == 1 + count_before(parts.skip(k + 1), off - parts[k].len()),
{
    assert(parts.skip(k).drop_first() =~= parts.skip(k + 1));
    assert(parts.skip(k)[0] == parts[k]);
}

impl TextAreaCore {
    /// Char position to grapheme position: the position of the grapheme
    /// that holds the char, or the position past the last grapheme for the
    /// end of the text. Nothing past the end of the text.
    pub fn char_pos(&self, char_pos: usize) -> (r: Option<TextPosition>)
        ensures
            r is None <==> char_pos > self@.text.len(),
            r matches Some(p) ==> row_holds(self@.text, char_pos as nat, p.y as nat) && p.x == grapheme_col(
                self@.text,
                char_pos as nat,
                p.y as nat,
            ),
    {
        let len = rope_len_chars(&self.value);
        if char_pos > len {
            return None;
        }
        let y = self.row_of_char(char_pos);
        let x = self.grapheme_col_of(char_pos, y);
        Some(TextPosition { y, x })
    }

    /// The column of the grapheme of row `y` that holds char `c`.
    fn grapheme_col_of(&self, c: usize, y: usize) -> (x: usize)
        requires
            c <= self@.text.len(),
            row_holds(self@.text, c as nat, y as nat),
        ensures
            x == grapheme_col(self@.text, c as nat, y as nat),
    {
        let len = rope_len_chars(&self.value);
        let _lines = rope_len_lines(&self.value);
        let start = rope_line_to_char(&self.value, y);
        let _next = rope_line_to_char(&self.value, y + 1);
        if c < len {
            let x = self.graphemes_before(y, c - start + 1);
            x - 1
        } else {
            self.graphemes_before(y, c - start)
        }
    }

    /// Byte position to grapheme position: the position of the grapheme
    /// that holds the byte, or the position past the last grapheme for the
    /// end of the text. Nothing past the end of the text.
    pub fn byte_pos(&self, byte: usize) -> (r: Option<TextPosition>)
        ensures
            r is None <==> byte > utf8_len(self@.text),
            r matches Some(p) ==> exists|c: nat|
                #[trigger] byte_in_char(self@.text, byte as nat, c) && row_holds(self@.text, c, p.y as nat) && p.x
                    == grapheme_col(self@.text, c, p.y as nat),
    {
        let len = rope_len_bytes(&self.value);
        if byte > len {
            return None;
        }
        let _chars = rope_len_chars(&self.value);
        let c = rope_byte_to_char(&self.value, byte);
        let y = self.row_of_char(c);
        let x = self.grapheme_col_of(c, y);
        proof {
            assert(byte_in_char(self@.text, byte as nat, c as nat));
        }
        Some(TextPosition { y, x })
    }

    /// Grapheme position to byte range: the bytes of the grapheme at the
    /// position, or the empty range at the end of the text for the position
    /// one past the last grapheme of the last row.
    pub fn byte_at(&self, pos: TextPosition) -> (r: Option<std::ops::Range<usize>>)
        requires
            pos.y != text_lines(self@.text),
        ensures
            r is Some <==> char_index(self@.text, pos) is Some,
            r matches Some(b) ==> b.start == utf8_len(self@.text.take(char_index(self@.text, pos)->0 as int))
                && b.end == utf8_len(self@.text.take(grapheme_end(self@.text, pos) as int)),
    {
        let c = match self.char_at(pos) {
            Some(c) => c,
            None => return None,
        };
        let parts = self.line_graphemes_of(pos.y);
        let ghost gp = line_parts(self@.text, pos.y as nat);
        let _len = rope_len_chars(&self.value);
        let e = if pos.x < parts.len() {
            proof {
                lemma_parts_len_take(gp, pos.x as int);
                lemma_parts_len_take(gp, pos.x + 1);
                assert(parts@[pos.x as int]@ == gp[pos.x as int]);
                assert(parts_len(gp) == line_start_of(self@.text, pos.y as nat + 1) - line_start_of(self@.text, pos.y as nat));
            }
            c + parts[pos.x].as_str().unicode_len()
        } else {
            c
        };
        let bs = rope_char_to_byte(&self.value, c);
        let be = rope_char_to_byte(&self.value, e);
        Some(bs..be)
    }

    /// The row that holds a char index.
    fn row_of_char(&self, c: usize) -> (y: usize)
        requires
            c <= self@.text.len(),
        ensures
            row_holds(self@.text, c as nat, y as nat),
    {
        let lines = rope_len_lines(&self.value);
        let mut y: usize = 0;
        let _s0 = rope_line_to_char(&self.value, 0);
        while y + 1 < lines && rope_line_to_char(&self.value, y + 1) <= c
            invariant
                y < lines,
                lines == text_lines(self@.text),
                line_start_of(self@.text, y as nat) <= c,
            decreases lines - y,
        {
            y = y + 1;
        }
        if y + 1 < lines {
            let _next = rope_line_to_char(&self.value, y + 1);
        }
        y
    }

    /// The number of graphemes of row `y` that start before the offset.
    fn graphemes_before(&self, y: usize, off: usize) -> (x: usize)
        requires
            y < text_lines(self@.text),
        ensures
            x == count_before(line_parts(self@.text, y as nat), off as int),
            0 < off <= line_start_of(self@.text, y as nat + 1) - line_start_of(self@.text, y as nat) ==> x >= 1,
    {
        let parts = self.line_graphemes_of(y);
        let ghost gp = line_parts(self@.text, y as nat);
        let _len = rope_len_chars(&self.value);
        let mut k: usize = 0;
        let mut acc: usize = 0;
        proof {
            assert(gp.skip(0) =~= gp);
            assert(gp.take(0) =~= Seq::<Seq<char>>::empty());
        }
        while k < parts.len() && acc < off
            invariant
                k <= parts@.len(),
                parts@.map_values(|g: String| g@) == gp,
                acc == parts_len(gp.take(k as int)),
                parts_len(gp.take(k as int)) <= parts_len(gp),
                parts_len(gp) <= self@.text.len(),
                self@.text.len() <= usize::MAX,
                count_before(gp, off as int) == k + count_before(gp.skip(k as int), off - acc),
            decreases parts@.len() - k,
        {
            proof {
                lemma_parts_len_take(gp, k as int);
                lemma_parts_len_take(gp, k + 1);
                lemma_count_before_step(gp, off - acc, k as int);
                assert(parts@[k as int]@ == gp[k as int]);
            }
            acc = acc + parts[k].as_str().unicode_len();
            k = k + 1;
        }
        proof {
            if k == parts@.len() {
                assert(gp.skip(k as int).len() == 0);
            }
            if 0 < off && gp.len() == 0 {
                assert(parts_len(gp) == 0);
            }
        }
        k
    }

    /// Line `n` with its line break, or `None` past the last line.
    pub fn line_at(&self, n: usize) -> (r: Option<String>)
        ensures
            r is None <==> n >= text_lines(self@.text),
            r matches Some(s) ==> s@ == line_text(self@.text, n as nat),
    {
        let lines = rope_len_lines(&self.value);
        if n >= lines {
            return None;
        }
        let start = rope_line_to_char(&self.value, n);
        let stop = rope_line_to_char(&self.value, n + 1);
        Some(rope_slice_string(&self.value, start, stop))
    }

    /// The chars of line `n`, its line break included, or `None` past the
    /// last line.
    pub fn line_chars(&self, n: usize) -> (r: Option<Vec<char>>)
        ensures
            r is None <==> n >= text_lines(self@.text),
            r matches Some(v) ==> v@ == line_text(self@.text, n as nat),
    {
        let lines = rope_len_lines(&self.value);
        if n >= lines {
            return None;
        }
        let start = rope_line_to_char(&self.value, n);
        let stop = rope_line_to_char(&self.value, n + 1);
        Some(rope_slice_chars(&self.value, start, stop))
    }

    /// The chars of the text.
    pub fn chars(&self) -> (r: Vec<char>)
        ensures
            r@ == self@.text,
    {
        let len = rope_len_chars(&self.value);
        let r = rope_slice_chars(&self.value, 0, len);
        proof {
            assert(self@.text.subrange(0, len as int) =~= self@.text);
        }
        r
    }

    /// The UTF-8 bytes of the text.
    pub fn bytes(&self) -> (r: Vec<u8>)
        ensures
            r@ == utf8_of(self@.text),
    {
        let len = rope_len_chars(&self.value);
        let r = rope_slice_bytes(&self.value, 0, len);
        proof {
            assert(self@.text.subrange(0, len as int) =~= self@.text);
        }
        r
    }

    /// The UTF-8 bytes of line `n`, its line break included, or `None` past
    /// the last line.
    pub fn line_bytes(&self, n: usize) -> (r: Option<Vec<u8>>)
        ensures
            r is None <==> n >= text_lines(self@.text),
            r matches Some(v) ==> v@ == utf8_of(line_text(self@.text, n as nat)),
    {
        let lines = rope_len_lines(&self.value);
        if n >= lines {
            return None;
        }
        let start = rope_line_to_char(&self.value, n);
        let stop = rope_line_to_char(&self.value, n + 1);
        Some(rope_slice_bytes(&self.value, start, stop))
    }

    /// The text of a range of byte indices, both at the start of a char
    /// (or at the end of the text).
    pub fn byte_slice(&self, byte_range: std::ops::Range<usize>) -> (r: String)
        requires
            byte_range.start <= byte_range.end,
            char_boundary(self@.text, byte_range.start as nat),
            char_boundary(self@.text, byte_range.end as nat),
        ensures
            forall|cs: nat, ce: nat|
                cs <= self@.text.len() && ce <= self@.text.len() && #[trigger] utf8_len(self@.text.take(cs as int))
                    == byte_range.start && #[trigger] utf8_len(self@.text.take(ce as int)) == byte_range.end ==> r@
                    == self@.text.subrange(cs as int, ce as int),
    {
        let _len = rope_len_chars(&self.value);
        proof {
            lemma_boundary_in_text(self@.text, byte_range.start as nat);
            lemma_boundary_in_text(self@.text, byte_range.end as nat);
        }
        let cs = rope_byte_to_char(&self.value, byte_range.start);
        let ce = rope_byte_to_char(&self.value, byte_range.end);
        proof {
            lemma_boundary_char(self@.text, byte_range.start as nat, cs as nat);
            lemma_boundary_char(self@.text, byte_range.end as nat, ce as nat);
            if cs > ce {
                lemma_utf8_len_take_grows(self@.text, ce as int, cs as int);
            }
        }
        rope_slice_string(&self.value, cs, ce)
    }

    /// The text of a range of char indices.
    pub fn char_slice(&self, char_range: std::ops::Range<usize>) -> (r: String)
        requires
            char_range.start <= char_range.end <= self@.text.len(),
        ensures
            r@ == self@.text.subrange(char_range.start as int, char_range.end as int),
    {
        rope_slice_string(&self.value, char_range.start, char_range.end)
    }

    /// The lines from `line_offset` on, each with its line break.
    pub fn lines_at(&self, line_offset: usize) -> (r: Vec<String>)
        requires
            line_offset <= text_lines(self@.text),
        ensures
            r@.len() == text_lines(self@.text) - line_offset,
            forall|i: int| 0 <= i < r@.len() ==> #[trigger] r@[i]@ == line_text(self@.text, (line_offset + i) as nat),
    {
        let lines = rope_len_lines(&self.value);
        let mut r: Vec<String> = Vec::new();
        let mut y: usize = line_offset;
        while y < lines
            invariant
                line_offset <= y <= lines,
                lines == text_lines(self@.text),
                r@.len() == y - line_offset,
                forall|i: int| 0 <= i < r@.len() ==> #[trigger] r@[i]@ == line_text(self@.text, (line_offset + i) as nat),
            decreases lines - y,
        {
            match self.line_at(y) {
                Some(l) => r.push(l),
                None => {},
            }
            y = y + 1;
        }
        r
    }

    /// The graphemes of line `n`, its line break included, or `None` past
    /// the last line.
    pub fn line_graphemes(&self, n: usize) -> (r: Option<Vec<String>>)
        ensures
            r is None <==> n >= text_lines(self@.text),
            r matches Some(v) ==> v@.map_values(|g: String| g@) == line_parts(self@.text, n as nat),
    {
        let lines = rope_len_lines(&self.value);
        if n >= lines {
            return None;
        }
        Some(self.line_graphemes_of(n))
    }

    /// The text between the two positions of a range, or `None` where one
    /// of them is not in the text.
    pub fn text_slice(&self, range: TextRange) -> (r: Option<String>)
        requires
            pos_le(range.start, range.end),
            range.start.y != text_lines(self@.text),
            range.end.y != text_lines(self@.text),
        ensures
            r is Some <==> (char_index(self@.text, range.start) is Some && char_index(self@.text, range.end) is Some),
            r matches Some(s) ==> s@ == self@.text.subrange(
                char_index(self@.text, range.start)->0 as int,
                char_index(self@.text, range.end)->0 as int,
            ),
    {
        let s = match self.char_at(range.start) {
            Some(s) => s,
            None => return None,
        };
        let e = match self.char_at(range.end) {
            Some(e) => e,
            None => return None,
        };
        if range.start.y < range.end.y {
            let _lines = rope_len_lines(&self.value);
            let _next = rope_line_to_char(&self.value, range.start.y + 1);
        } else {
            proof {
                lemma_char_index_same_line(self@.text, range.start, range.end);
            }
        }
        Some(rope_slice_string(&self.value, s, e))
    }
}

/// Where the grapheme at a position ends: its start plus its length, or
/// its start for the position one past the last grapheme.
pub open spec fn grapheme_end(text: Seq<char>, pos: TextPosition) -> nat {
    let parts = line_parts(text, pos.y as nat);
    if pos.x < parts.len() {
        char_index(text, pos)->0 + parts[pos.x as int].len()
    } else {
        char_index(text, pos)->0
    }
}

/// Byte `b` is where a char starts, or the end of the text.
pub open spec fn char_boundary(text: Seq<char>, b: nat) -> bool {
    exists|c: nat| c <= text.len() && #[trigger] utf8_len(text.take(c as int)) == b
}

/// Each further char adds bytes.
proof fn lemma_utf8_len_take_grows(s: Seq<char>, i: int, j: int)
    requires
        0 <= i < j <= s.len(),
    ensures
        utf8_len(s.take(i)) < utf8_len(s.take(j)),
    decreases j - i,
{
    assert(s.take(j).drop_last() =~= s.take(j - 1));
    if i < j - 1 {
        lemma_utf8_len_take_grows(s, i, j - 1);
    }
}

/// A char boundary lies within the text's bytes.
proof fn lemma_boundary_in_text(text: Seq<char>, b: nat)
    requires
        char_boundary(text, b),
    ensures
        b <= utf8_len(text),
{
    let w = choose|w: nat| w <= text.len() && #[trigger] utf8_len(text.take(w as int)) == b;
    assert(text.take(text.len() as int) =~= text);
    if w < text.len() {
        lemma_utf8_len_take_grows(text, w as int, text.len() as int);
    }
}

/// At a char boundary, the char that holds the byte starts there, and it
/// is the only char that does.
proof fn lemma_boundary_char(text: Seq<char>, b: nat, c: nat)
    requires
        char_boundary(text, b),
        byte_in_char(text, b, c),
    ensures
        utf8_len(text.take(c as int)) == b,
        forall|k: nat| k <= text.len() && #[trigger] utf8_len(text.take(k as int)) == b ==> k == c,
{
    assert forall|k: nat| k <= text.len() && #[trigger] utf8_len(text.take(k as int)) == b implies k == c by {
        if k < c {
            lemma_utf8_len_take_grows(text, k as int, c as int);
        } else if k > c {
            if c + 1 < k {
                lemma_utf8_len_take_grows(text, c + 1int, k as int);
            }
        }
    }
    let w = choose|w: nat| w <= text.len() && #[trigger] utf8_len(text.take(w as int)) == b;
    assert(w == c);
}

/// The column of the grapheme of row `y` that holds char `c`: the graphemes
/// of the row that start at or before `c`, less the one that holds it; at the
/// end of the text, the column past the row's last grapheme.
pub open spec fn grapheme_col(text: Seq<char>, c: nat, y: nat) -> int {
    let parts = line_parts(text, y);
    let off = c - line_start_of(text, y);
    if c < text.len() {
        count_before(parts, off + 1) - 1
    } else {
        count_before(parts, off) as int
    }
}

/// On one line, a later column does not come at an earlier char.
proof fn lemma_char_index_same_line(text: Seq<char>, a: TextPosition, b: TextPosition)
    requires
        a.y == b.y,
        a.x <= b.x,
        char_index(text, a) is Some,
        char_index(text, b) is Some,
        char_index(text, a)->0 <= text.len(),
    ensures
        char_index(text, a)->0 <= char_index(text, b)->0,
{
    let parts = line_parts(text, a.y as nat);
    if b.x < parts.len() {
        lemma_parts_len_take(parts.take(b.x as int), a.x as int);
        assert(parts.take(b.x as int).take(a.x as int) =~= parts.take(a.x as int));
    }
}

} // verus!
