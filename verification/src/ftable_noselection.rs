//! A table selection model that never selects anything; the table only
//! scrolls.

use crate::table::TableSelection;
use vstd::prelude::*;

verus! {

/// Doesn't do any selection for the table.
///
/// The table with this model only scrolls.
#[derive(Debug, Default, Clone)]
pub struct NoSelection;

impl TableSelection for NoSelection {
    open spec fn selects_row(&self, row: usize) -> bool {
        false
    }

    open spec fn selects_column(&self, column: usize) -> bool {
        false
    }

    open spec fn selects_cell(&self, column: usize, row: usize) -> bool {
        false
    }

    open spec fn lead_cell(&self) -> Option<(usize, usize)> {
        None
    }

    fn is_selected_row(&self, _row: usize) -> (r: bool) {
        false
    }

    fn is_selected_column(&self, _column: usize) -> (r: bool) {
        false
    }

    fn is_selected_cell(&self, _column: usize, _row: usize) -> (r: bool) {
        false
    }

    fn lead_selection(&self) -> (r: Option<(usize, usize)>) {
        None
    }
}

} // verus!
