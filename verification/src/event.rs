//! Results of event handling.

use vstd::prelude::*;

verus! {

/// General result of event handling.
#[derive(Debug, Default, Clone, Copy, PartialEq, Eq, Structural)]
pub enum Outcome {
    /// The given event has not been used at all.
    #[default]
    Continue,
    /// The event has been recognized, but nothing noticeable has changed.
    Unchanged,
    /// The event has been recognized and there is some change due to it.
    Changed,
}

impl Outcome {
    /// Whether the event was used.
    pub fn is_consumed(&self) -> (r: bool)
        ensures
            r == (*self != Outcome::Continue),
    {
        *self != Outcome::Continue
    }
}

impl From<bool> for Outcome {
    /// `true` means something changed.
    fn from(changed: bool) -> (r: Outcome) {
        if changed {
            Outcome::Changed
        } else {
            Outcome::Unchanged
        }
    }
}

impl vstd::std_specs::convert::FromSpecImpl<bool> for Outcome {
    open spec fn obeys_from_spec() -> bool {
        true
    }

    open spec fn from_spec(changed: bool) -> Outcome {
        if changed {
            Outcome::Changed
        } else {
            Outcome::Unchanged
        }
    }
}

} // verus!
