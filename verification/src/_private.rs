//! Marker for structs that may get more fields.

use vstd::prelude::*;

verus! {

/// Marks a struct as open for more fields.
#[derive(Debug, Clone, Copy, PartialEq, Eq, Structural, PartialOrd, Ord, Hash, Default)]
pub struct NonExhaustive;

} // verus!
