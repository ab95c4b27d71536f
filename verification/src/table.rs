//! Selection models for tables.

use vstd::prelude::*;

verus! {

/// Trait for the different selection models used by a table.
pub trait TableSelection {
    /// Whether the row counts as selected.
    spec fn selects_row(&self, row: usize) -> bool;

    /// Whether the column counts as selected.
    spec fn selects_column(&self, column: usize) -> bool;

    /// Whether the cell counts as selected.
    spec fn selects_cell(&self, column: usize, row: usize) -> bool;

    /// The lead cell of the selection, as (column, row).
    spec fn lead_cell(&self) -> Option<(usize, usize)>;

    /// Row is selected.
    fn is_selected_row(&self, row: usize) -> (r: bool)
        ensures
            r == self.selects_row(row),
    ;

    /// Column is selected.
    fn is_selected_column(&self, column: usize) -> (r: bool)
        ensures
            r == self.selects_column(column),
    ;

    /// Cell is selected.
    fn is_selected_cell(&self, column: usize, row: usize) -> (r: bool)
        ensures
            r == self.selects_cell(column, row),
    ;

    /// Selection lead, or the sole selected index.
    fn lead_selection(&self) -> (r: Option<(usize, usize)>)
        ensures
            r == self.lead_cell(),
    ;
}

} // verus!
