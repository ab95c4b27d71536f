//! The undo buffer of the text area: a bounded list of edits with a
//! position that undo moves back and redo moves forward.

use crate::textarea_core::{TextPosition, TextRange};
use vstd::prelude::*;

verus! {

/// The kind of an edit.
#[derive(Debug, Clone, Copy, PartialEq, Eq, Structural)]
pub enum UndoOp {
    InsertChar,
    InsertStr,
    RemoveChar,
    RemoveStr,
}

/// One edit: where in the text (as char indexes), cursor and anchor before
/// and after it, the text range it covered, and the text inserted or
/// removed.
#[derive(Debug)]
pub struct UndoEntry {
    pub op: UndoOp,
    pub chars: (usize, usize),
    pub cursor: TextPosition,
    pub anchor: TextPosition,
    pub redo_cursor: TextPosition,
    pub redo_anchor: TextPosition,
    pub range: TextRange,
    pub txt: String,
}

/// The edits in order, at most `max` of them; those before `idx` can be
/// undone, those from `idx` on redone.
#[derive(Debug)]
pub struct UndoVec {
    pub entries: Vec<UndoEntry>,
    pub idx: usize,
    pub max: usize,
}

/// The entries after a new edit: the ones that could be redone are
/// dropped, the edit is added, and the oldest goes when there are more
/// than `max`.
pub open spec fn pushed_entries(entries: Seq<UndoEntry>, idx: nat, max: nat, e: UndoEntry) -> Seq<UndoEntry> {
    let kept = entries.take(idx as int).push(e);
    if kept.len() > max && kept.len() > 1 {
        kept.drop_first()
    } else {
        kept
    }
}

impl UndoVec {
    /// The position lies within the entries.
    pub open spec fn wf(&self) -> bool {
        self.idx <= self.entries@.len()
    }

    /// New buffer for up to `max` edits.
    pub fn new(max: usize) -> (r: Self)
        ensures
            r.entries@.len() == 0,
            r.idx == 0,
            r.max == max,
            r.wf(),
    {
        UndoVec { entries: Vec::new(), idx: 0, max }
    }

    /// Records an edit.
    pub fn push(&mut self, e: UndoEntry)
        requires
            old(self).wf(),
        ensures
            final(self).wf(),
            final(self).max == old(self).max,
            final(self).entries@ == pushed_entries(old(self).entries@, old(self).idx as nat, old(self).max as nat, e),
            final(self).idx == final(self).entries@.len(),
    {
        self.entries.truncate(self.idx);
        self.entries.push(e);
        if self.entries.len() > self.max && self.entries.len() > 1 {
            self.entries.remove(0);
        }
        self.idx = self.entries.len();
        proof {
            assert(self.entries@ =~= pushed_entries(old(self).entries@, old(self).idx as nat, old(self).max as nat, e));
        }
    }

    /// Steps back: the index of the edit to undo, if there is one.
    pub fn undo(&mut self) -> (r: Option<usize>)
        requires
            old(self).wf(),
        ensures
            final(self).wf(),
            final(self).entries@ == old(self).entries@,
            final(self).max == old(self).max,
            old(self).idx == 0 ==> r is None && final(self).idx == 0,
            old(self).idx > 0 ==> r == Some((old(self).idx - 1) as usize) && final(self).idx == old(self).idx - 1,
    {
        if self.idx == 0 {
            None
        } else {
            self.idx = self.idx - 1;
            Some(self.idx)
        }
    }

    /// Steps forward: the index of the edit to redo, if there is one.
    pub fn redo(&mut self) -> (r: Option<usize>)
        requires
            old(self).wf(),
        ensures
            final(self).wf(),
            final(self).entries@ == old(self).entries@,
            final(self).max == old(self).max,
            old(self).idx == old(self).entries@.len() ==> r is None && final(self).idx == old(self).idx,
            old(self).idx < old(self).entries@.len() ==> r == Some(old(self).idx) && final(self).idx == old(self).idx + 1,
    {
        if self.idx < self.entries.len() {
            self.idx = self.idx + 1;
            Some(self.idx - 1)
        } else {
            None
        }
    }
}

} // verus!
