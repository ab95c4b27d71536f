//! Selection models for lists: no selection, a single selected index, and
//! a set of selected indexes with an anchor/lead range.

use std::collections::HashSet;
use vstd::prelude::*;

verus! {

broadcast use vstd::std_specs::hash::group_hash_axioms;

/// What `next_opt` computes: one step forward by `change`, capped at `max`;
/// from nothing selected it starts at the first row.
pub open spec fn next_opt_spec(select: Option<usize>, change: usize, max: usize) -> Option<usize> {
    match select {
        Some(s) => Some(if s + change > max { max } else { (s + change) as usize }),
        None => Some(0),
    }
}

/// What `prev_opt` computes: one step back by `change`, stopping at 0;
/// from nothing selected it starts at the first row.
pub open spec fn prev_opt_spec(select: Option<usize>, change: usize) -> Option<usize> {
    match select {
        Some(s) => Some(if s < change { 0 } else { (s - change) as usize }),
        None => Some(0),
    }
}

/// Next selection: `change` rows further, capped at `max`.
pub fn next_opt(select: Option<usize>, change: usize, max: usize) -> (r: Option<usize>)
    ensures
        r == next_opt_spec(select, change, max),
{
    match select {
        Some(s) => {
            let n = s.saturating_add(change);
            if n > max {
                Some(max)
            } else {
                Some(n)
            }
        },
        None => Some(0),
    }
}

/// Previous selection: `change` rows back, never below 0.
pub fn prev_opt(select: Option<usize>, change: usize) -> (r: Option<usize>)
    ensures
        r == prev_opt_spec(select, change),
{
    match select {
        Some(s) => Some(s.saturating_sub(change)),
        None => Some(0),
    }
}

/// Trait for using a selection.
pub trait Selection {
    /// Whether row `n` counts as selected.
    spec fn selects(&self, n: usize) -> bool;

    /// The lead of the selection.
    spec fn lead_of(&self) -> Option<usize>;

    /// Is selected.
    fn is_selected(&self, n: usize) -> (r: bool)
        ensures
            r == self.selects(n),
    ;

    /// Selection lead.
    fn lead_selection(&self) -> (r: Option<usize>)
        ensures
            r == self.lead_of(),
    ;
}

// -----------------------------------------------------------------------

/// NoSelection
#[derive(Debug, PartialEq, Eq, Clone)]
pub struct NoSelection;

impl Selection for NoSelection {
    open spec fn selects(&self, n: usize) -> bool {
        false
    }

    open spec fn lead_of(&self) -> Option<usize> {
        None
    }

    fn is_selected(&self, _n: usize) -> (r: bool) {
        false
    }

    fn lead_selection(&self) -> (r: Option<usize>) {
        None
    }
}

// -----------------------------------------------------------------------

/// Single element selection.
#[derive(Debug, Default, PartialEq, Eq, Clone)]
pub struct SingleSelection {
    pub selected: Option<usize>,
}

impl Selection for SingleSelection {
    open spec fn selects(&self, n: usize) -> bool {
        self.selected == Some(n)
    }

    open spec fn lead_of(&self) -> Option<usize> {
        self.selected
    }

    fn is_selected(&self, n: usize) -> (r: bool) {
        match self.selected {
            Some(s) => s == n,
            None => false,
        }
    }

    fn lead_selection(&self) -> (r: Option<usize>) {
        self.selected
    }
}

impl SingleSelection {
    pub fn new() -> (r: SingleSelection)
        ensures
            r.selected is None,
    {
        SingleSelection { selected: None }
    }

    pub fn selected(&self) -> (r: Option<usize>)
        ensures
            r == self.selected,
    {
        self.selected
    }

    pub fn select(&mut self, select: Option<usize>)
        ensures
            final(self).selected == select,
    {
        self.selected = select;
    }

    /// Selects `select`, but only if it is not beyond `max`.
    pub fn select_clamped(&mut self, select: usize, max: usize)
        ensures
            final(self).selected == (if select <= max {
                Some(select)
            } else {
                old(self).selected
            }),
    {
        if select <= max {
            self.selected = Some(select);
        }
    }

    pub fn next(&mut self, n: usize, max: usize)
        ensures
            final(self).selected == next_opt_spec(old(self).selected, n, max),
    {
        self.selected = next_opt(self.selected, n, max);
    }

    pub fn prev(&mut self, n: usize)
        ensures
            final(self).selected == prev_opt_spec(old(self).selected, n),
    {
        self.selected = prev_opt(self.selected, n);
    }
}

// -----------------------------------------------------------------------

/// Whether `n` lies in the span from anchor to lead: between the two
/// (either way round) when both exist, the lead itself when there is no
/// anchor, nothing when there is no lead.
pub open spec fn in_span(anchor: Option<usize>, lead: Option<usize>, n: usize) -> bool {
    match (anchor, lead) {
        (Some(a), Some(l)) => if l < a {
            l <= n && n <= a
        } else {
            a <= n && n <= l
        },
        (None, Some(l)) => n == l,
        _ => false,
    }
}

/// The span from anchor to lead as a set.
pub open spec fn span_set(anchor: Option<usize>, lead: Option<usize>) -> Set<usize> {
    Set::new(|n: usize| in_span(anchor, lead, n))
}

/// List selection
#[derive(Debug, Default, PartialEq, Eq)]
pub struct SetSelection {
    pub anchor: Option<usize>,
    pub lead: Option<usize>,
    pub selected: HashSet<usize>,
}

impl Selection for SetSelection {
    open spec fn selects(&self, n: usize) -> bool {
        in_span(self.anchor, self.lead, n) || self.selected@.contains(n)
    }

    open spec fn lead_of(&self) -> Option<usize> {
        self.lead
    }

    fn is_selected(&self, n: usize) -> (r: bool) {
        if let Some(anchor) = self.anchor {
            if let Some(lead) = self.lead {
                let (lo, hi) = if lead < anchor {
                    (lead, anchor)
                } else {
                    (anchor, lead)
                };
                if n >= lo && n <= hi {
                    return true;
                }
            }
        } else {
            if let Some(lead) = self.lead {
                if n == lead {
                    return true;
                }
            }
        }
        self.selected.contains(&n)
    }

    fn lead_selection(&self) -> (r: Option<usize>) {
        self.lead
    }
}

impl Clone for SetSelection {
    fn clone(&self) -> (r: Self)
        ensures
            r.anchor == self.anchor,
            r.lead == self.lead,
            r.selected@ == self.selected@,
    {
        let mut selected: HashSet<usize> = HashSet::new();
        let ghost keys: Seq<usize> = vstd::std_specs::iter::IteratorSpec::remaining(&self.selected.iter()).unref();
        for k in it: self.selected.iter()
            invariant
                it.seq().unref() == keys,
                forall|i: int| 0 <= i < it.index() ==> selected@.contains(#[trigger] keys[i]),
                forall|k: usize|
                    #![trigger selected@.contains(k)]
                    selected@.contains(k) ==> exists|i: int| 0 <= i < it.index() && keys[i] == k,
        {
            selected.insert(*k);
            assert(keys[it.index() as int] == *k);
        }
        proof {
            assert(keys.to_set() == self.selected@);
            assert forall|k: usize| self.selected@.contains(k) implies selected@.contains(k) by {
                assert(keys.to_set().contains(k));
                let i = choose|i: int| 0 <= i < keys.len() && keys[i] == k;
            }
            assert forall|k: usize| selected@.contains(k) implies self.selected@.contains(k) by {
                let i = choose|i: int| 0 <= i < keys.len() && keys[i] == k;
                assert(keys.to_set().contains(keys[i]));
            }
            assert(selected@ =~= self.selected@);
        }
        SetSelection { anchor: self.anchor, lead: self.lead, selected }
    }
}

impl SetSelection {
    pub fn new() -> (r: SetSelection)
        ensures
            r.anchor is None,
            r.lead is None,
            r.selected@ == Set::<usize>::empty(),
    {
        SetSelection { anchor: None, lead: None, selected: HashSet::new() }
    }

    /// Keep (or start) the anchor when extending, drop the anchor and all
    /// collected rows otherwise.
    fn extend(&mut self, extend: bool)
        ensures
            final(self).lead == old(self).lead,
            extend ==> final(self).selected@ == old(self).selected@,
            extend ==> final(self).anchor == (if old(self).anchor is None {
                old(self).lead
            } else {
                old(self).anchor
            }),
            !extend ==> final(self).anchor is None,
            !extend ==> final(self).selected@ == Set::<usize>::empty(),
    {
        if extend {
            if self.anchor.is_none() {
                self.anchor = self.lead;
            }
        } else {
            self.anchor = None;
            self.selected.clear();
        }
    }

    pub fn next(&mut self, n: usize, max: usize, extend: bool)
        ensures
            final(self).lead == next_opt_spec(old(self).lead, n, max),
            extend ==> final(self).selected@ == old(self).selected@,
            extend ==> final(self).anchor == (if old(self).anchor is None {
                old(self).lead
            } else {
                old(self).anchor
            }),
            !extend ==> final(self).anchor is None,
            !extend ==> final(self).selected@ == Set::<usize>::empty(),
    {
        self.extend(extend);
        self.lead = next_opt(self.lead, n, max);
    }

    pub fn prev(&mut self, n: usize, extend: bool)
        ensures
            final(self).lead == prev_opt_spec(old(self).lead, n),
            extend ==> final(self).selected@ == old(self).selected@,
            extend ==> final(self).anchor == (if old(self).anchor is None {
                old(self).lead
            } else {
                old(self).anchor
            }),
            !extend ==> final(self).anchor is None,
            !extend ==> final(self).selected@ == Set::<usize>::empty(),
    {
        self.extend(extend);
        self.lead = prev_opt(self.lead, n);
    }

    pub fn set_lead(&mut self, lead: Option<usize>, extend: bool)
        ensures
            final(self).lead == lead,
            extend ==> final(self).selected@ == old(self).selected@,
            extend ==> final(self).anchor == (if old(self).anchor is None {
                old(self).lead
            } else {
                old(self).anchor
            }),
            !extend ==> final(self).anchor is None,
            !extend ==> final(self).selected@ == Set::<usize>::empty(),
    {
        self.extend(extend);
        self.lead = lead;
    }

    /// Sets the lead, but only if it is not beyond `max`; otherwise
    /// nothing changes.
    pub fn set_lead_clamped(&mut self, lead: usize, max: usize, extend: bool)
        ensures
            lead > max ==> final(self).lead == old(self).lead && final(self).anchor == old(
                self,
            ).anchor && final(self).selected@ == old(self).selected@,
            lead <= max ==> final(self).lead == Some(lead),
            lead <= max && extend ==> final(self).selected@ == old(self).selected@,
            lead <= max && extend ==> final(self).anchor == (if old(self).anchor is None {
                old(self).lead
            } else {
                old(self).anchor
            }),
            lead <= max && !extend ==> final(self).anchor is None,
            lead <= max && !extend ==> final(self).selected@ == Set::<usize>::empty(),
    {
        if lead <= max {
            self.extend(extend);
            self.lead = Some(lead);
        }
    }

    pub fn lead(&self) -> (r: Option<usize>)
        ensures
            r == self.lead,
    {
        self.lead
    }

    pub fn anchor(&self) -> (r: Option<usize>)
        ensures
            r == self.anchor,
    {
        self.anchor
    }

    /// Moves the anchor/lead span into the set of selected rows and
    /// forgets anchor and lead.
    pub fn transfer_lead_anchor(&mut self)
        ensures
            final(self).selected@ == old(self).selected@.union(
                span_set(old(self).anchor, old(self).lead),
            ),
            final(self).anchor is None,
            final(self).lead is None,
    {
        Self::fill(self.anchor, self.lead, &mut self.selected);
        self.anchor = None;
        self.lead = None;
    }

    /// Adds the span from anchor to lead to `selection`.
    fn fill(anchor: Option<usize>, lead: Option<usize>, selection: &mut HashSet<usize>)
        ensures
            final(selection)@ == old(selection)@.union(span_set(anchor, lead)),
    {
        if let Some(anchor) = anchor {
            if let Some(lead) = lead {
                let (lo, hi) = if lead < anchor {
                    (lead, anchor)
                } else {
                    (anchor, lead)
                };
                let ghost start = selection@;
                let mut n: usize = lo;
                loop
                    invariant_except_break
                        lo <= n <= hi,
                        selection@ == start.union(Set::new(|k: usize| lo <= k < n)),
                    ensures
                        selection@ == start.union(Set::new(|k: usize| lo <= k <= hi)),
                    decreases hi - n,
                {
                    selection.insert(n);
                    assert(start.union(Set::new(|k: usize| lo <= k < n)).insert(n) =~= start.union(
                        Set::new(|k: usize| lo <= k < n + 1),
                    ));
                    if n == hi {
                        assert(Set::new(|k: usize| lo <= k < n + 1) =~= Set::new(
                            |k: usize| lo <= k <= hi,
                        ));
                        break ;
                    }
                    n = n + 1;
                }
                assert(Set::new(|k: usize| lo <= k <= hi) =~= span_set(Some(anchor), Some(lead)));
            } else {
                assert(span_set(Some(anchor), None) =~= Set::<usize>::empty());
                assert(selection@.union(Set::<usize>::empty()) =~= selection@);
            }
        } else {
            if let Some(lead) = lead {
                selection.insert(lead);
                assert(span_set(None, Some(lead)) =~= Set::<usize>::empty().insert(lead));
                assert(old(selection)@.insert(lead) =~= old(selection)@.union(
                    span_set(None, Some(lead)),
                ));
            } else {
                assert(span_set(None, None) =~= Set::<usize>::empty());
                assert(selection@.union(Set::<usize>::empty()) =~= selection@);
            }
        }
    }

    /// Forgets anchor, lead and all selected rows.
    pub fn clear(&mut self)
        ensures
            forall|n: usize| !final(self).selects(n),
            final(self).anchor is None,
            final(self).lead is None,
            final(self).selected@ == Set::<usize>::empty(),
    {
        self.anchor = None;
        self.lead = None;
        self.selected.clear();
    }

    /// Adds a single row to the selection.
    pub fn add(&mut self, idx: usize)
        ensures
            final(self).selected@ == old(self).selected@.insert(idx),
            final(self).anchor == old(self).anchor,
            final(self).lead == old(self).lead,
    {
        self.selected.insert(idx);
    }

    /// Removes a single row from the selection.
    pub fn remove(&mut self, idx: usize)
        ensures
            final(self).selected@ == old(self).selected@.remove(idx),
            final(self).anchor == old(self).anchor,
            final(self).lead == old(self).lead,
    {
        self.selected.remove(&idx);
    }
}


/// Moving anchor and lead into the set of selected rows changes nothing
/// about which rows are selected.
pub proof fn lemma_transfer_keeps_selection(before: SetSelection, after: SetSelection)
    requires
        after.selected@ == before.selected@.union(span_set(before.anchor, before.lead)),
        after.anchor is None,
        after.lead is None,
    ensures
        forall|n: usize| #[trigger] after.selects(n) == before.selects(n),
{
}

/// Within bounds, stepping moves the selection by exactly `change` rows,
/// and a step back undoes a step forward; nothing selected starts at the
/// first row; at the ends the step stops at `max` and at 0.
pub proof fn lemma_steps_by_change(s: usize, change: usize, max: usize)
    ensures
        s + change <= max ==> next_opt_spec(Some(s), change, max) == Some((s + change) as usize),
        s + change > max ==> next_opt_spec(Some(s), change, max) == Some(max),
        change <= s ==> prev_opt_spec(Some(s), change) == Some((s - change) as usize),
        s < change ==> prev_opt_spec(Some(s), change) == Some(0usize),
        s + change <= max ==> prev_opt_spec(next_opt_spec(Some(s), change, max), change) == Some(s),
        change <= s && s <= max ==> next_opt_spec(prev_opt_spec(Some(s), change), change, max) == Some(s),
        next_opt_spec(None, change, max) == Some(0usize),
        prev_opt_spec(None, change) == Some(0usize),
{
}

/// Stepping forward never leaves `0..=max`.
pub proof fn lemma_next_within_max(select: Option<usize>, change: usize, max: usize)
    ensures
        next_opt_spec(select, change, max) matches Some(l) && l <= max,
{
}

/// Stepping back never moves forward, and always gives a selection.
pub proof fn lemma_prev_not_after(select: Option<usize>, change: usize)
    ensures
        prev_opt_spec(select, change) is Some,
        select matches Some(s) ==> prev_opt_spec(select, change).unwrap() <= s,
{
}

/// A row added to the set is selected; a removed row is selected only if
/// the anchor/lead span still covers it.
pub proof fn lemma_add_remove_selects(before: SetSelection, after: SetSelection, idx: usize, added: bool)
    requires
        after.anchor == before.anchor,
        after.lead == before.lead,
        added ==> after.selected@ == before.selected@.insert(idx),
        !added ==> after.selected@ == before.selected@.remove(idx),
    ensures
        added ==> after.selects(idx),
        !added ==> (after.selects(idx) <==> in_span(before.anchor, before.lead, idx)),
{
}

} // verus!
