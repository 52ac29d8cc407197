//! What a dialog with the user came back with.

use vstd::prelude::*;
use crate::archive::PromptOutcome;

verus! {

/// The button of a dialog, as the windowing system numbers it.
#[derive(Debug, PartialEq, Eq, Clone, Copy, Structural)]
pub struct DialogResult(pub i32);

pub const OK: i32 = 1;

pub const CANCEL: i32 = 2;

pub const RETRY: i32 = 4;

impl DialogResult {
    /// What the button means for an attempt that waits for its target: only
    /// the retry button has it go on.
    pub fn outcome(&self) -> (r: PromptOutcome)
        ensures
            r == (if self.0 == RETRY {
                PromptOutcome::Retry
            } else {
                PromptOutcome::Cancel
            }),
    {
        if self.0 == RETRY {
            PromptOutcome::Retry
        } else {
            PromptOutcome::Cancel
        }
    }
}

} // verus!
