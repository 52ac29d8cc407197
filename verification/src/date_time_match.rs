//! The outcome of holding an instant against a schedule.

use vstd::prelude::*;
use vstd::std_specs::convert::FromSpecImpl;

verus! {

/// Whether a schedule has an instant, and if not, what keeps it out.
#[derive(Debug, Clone, Copy, PartialEq, Eq, Structural)]
pub enum DateTimeMatch {
    /// Date and time are both in the schedule.
    Matched,
    /// The date is in the schedule, the time of day is not.
    TimeNotMatched,
    /// The date is not in the schedule, whatever the time of day.
    DateNotMatched,
}

impl From<DateTimeMatch> for bool {
    /// `true` for `Matched` alone.
    fn from(value: DateTimeMatch) -> (r: bool)
        ensures
            r == (value == DateTimeMatch::Matched),
    {
        match value {
            DateTimeMatch::Matched => true,
            _ => false,
        }
    }
}

impl FromSpecImpl<DateTimeMatch> for bool {
    open spec fn obeys_from_spec() -> bool {
        true
    }

    open spec fn from_spec(value: DateTimeMatch) -> bool {
        value == DateTimeMatch::Matched
    }
}

} // verus!
