//! The delete coordinator: taking a profile away, step by step, with the
//! trigger put back where a later step fails.

use vstd::prelude::*;
use vstd::string::StringExecFns;
use crate::profile_id::{uuid_text, ProfileId};

verus! {

/// What a deletion is asked to take along.
#[derive(Debug, Clone, Copy, PartialEq, Eq, Structural)]
pub struct Delete {
    /// Remove the archives that were made so far as well
    pub remove_backups: bool,
}

/// What the caller is to do next.
#[derive(Debug, Clone, Copy, PartialEq, Eq, Structural)]
pub enum DeleteAction {
    /// Take the profile's trigger out of the scheduler.
    Unschedule,
    /// Delete the profile's archives from the target directory.
    DeleteArchives,
    /// Delete the profile's record.
    DeleteRecord,
    /// Register the trigger again, for the profile's `next_backup`.
    Reschedule,
}

/// How a deletion ended.
#[derive(Debug, Clone, Copy, PartialEq, Eq, Structural)]
pub enum DeleteOutcome {
    /// The trigger, the archives if asked for, and the record are gone.
    Deleted,
    /// The trigger could not be taken out; nothing was changed.
    NotUnscheduled,
    /// A deletion failed and the trigger was put back.
    Restored,
    /// A deletion failed and the trigger could not be put back either.
    Inconsistent,
}

/// Where a deletion stands: which action's result is awaited, or how it ended.
#[derive(Debug, Clone, Copy, PartialEq, Eq, Structural)]
pub enum DeleteState {
    Begin,
    AwaitUnschedule,
    AwaitArchives,
    AwaitRecord,
    AwaitReschedule,
    End(DeleteOutcome),
}

/// The state after the awaited action succeeded or failed, and the action to
/// take next, if any. `Begin` awaits nothing, and an ended deletion stays as it
/// is.
pub open spec fn delete_transition(state: DeleteState, also_archives: bool, succeeded: bool) -> (
    DeleteState,
    Option<DeleteAction>,
) {
    match state {
        DeleteState::Begin => (DeleteState::AwaitUnschedule, Some(DeleteAction::Unschedule)),
        DeleteState::AwaitUnschedule => if !succeeded {
            (DeleteState::End(DeleteOutcome::NotUnscheduled), None)
        } else if also_archives {
            (DeleteState::AwaitArchives, Some(DeleteAction::DeleteArchives))
        } else {
            (DeleteState::AwaitRecord, Some(DeleteAction::DeleteRecord))
        },
        DeleteState::AwaitArchives => if succeeded {
            (DeleteState::AwaitRecord, Some(DeleteAction::DeleteRecord))
        } else {
            (DeleteState::AwaitReschedule, Some(DeleteAction::Reschedule))
        },
        DeleteState::AwaitRecord => if succeeded {
            (DeleteState::End(DeleteOutcome::Deleted), None)
        } else {
            (DeleteState::AwaitReschedule, Some(DeleteAction::Reschedule))
        },
        DeleteState::AwaitReschedule => if succeeded {
            (DeleteState::End(DeleteOutcome::Restored), None)
        } else {
            (DeleteState::End(DeleteOutcome::Inconsistent), None)
        },
        DeleteState::End(outcome) => (DeleteState::End(outcome), None),
    }
}

/// The actions of a whole deletion and how it ends, given which of the actions
/// succeed where they are taken: the trigger goes first, and its failure ends
/// everything; then the archives, if asked for, then the record; the first of
/// these two to fail has the trigger registered again, and nothing after.
pub open spec fn delete_course(
    also_archives: bool,
    unschedule_ok: bool,
    archives_ok: bool,
    record_ok: bool,
    reschedule_ok: bool,
) -> (Seq<DeleteAction>, DeleteOutcome) {
    let restored = if reschedule_ok {
        DeleteOutcome::Restored
    } else {
        DeleteOutcome::Inconsistent
    };
    if !unschedule_ok {
        (seq![DeleteAction::Unschedule], DeleteOutcome::NotUnscheduled)
    } else if also_archives && !archives_ok {
        (
            seq![DeleteAction::Unschedule, DeleteAction::DeleteArchives, DeleteAction::Reschedule],
            restored,
        )
    } else {
        let begun = if also_archives {
            seq![DeleteAction::Unschedule, DeleteAction::DeleteArchives, DeleteAction::DeleteRecord]
        } else {
            seq![DeleteAction::Unschedule, DeleteAction::DeleteRecord]
        };
        if record_ok {
            (begun, DeleteOutcome::Deleted)
        } else {
            (begun.push(DeleteAction::Reschedule), restored)
        }
    }
}

/// Whether `action` succeeds, by the given results.
pub open spec fn result_of(
    action: DeleteAction,
    unschedule_ok: bool,
    archives_ok: bool,
    record_ok: bool,
    reschedule_ok: bool,
) -> bool {
    match action {
        DeleteAction::Unschedule => unschedule_ok,
        DeleteAction::DeleteArchives => archives_ok,
        DeleteAction::DeleteRecord => record_ok,
        DeleteAction::Reschedule => reschedule_ok,
    }
}

/// The actions that the transitions give from `state` on, each answered by
/// its result, and the outcome they end in, within `fuel` transitions.
pub open spec fn delete_run(
    state: DeleteState,
    last: Option<DeleteAction>,
    also_archives: bool,
    unschedule_ok: bool,
    archives_ok: bool,
    record_ok: bool,
    reschedule_ok: bool,
    fuel: nat,
) -> (Seq<DeleteAction>, Option<DeleteOutcome>)
    decreases fuel,
{
    if let DeleteState::End(outcome) = state {
        (Seq::empty(), Some(outcome))
    } else if fuel == 0 {
        (Seq::empty(), None)
    } else {
        let succeeded = match last {
            Some(action) => result_of(action, unschedule_ok, archives_ok, record_ok, reschedule_ok),
            None => true,
        };
        let (next, action) = delete_transition(state, also_archives, succeeded);
        let (rest, outcome) = delete_run(
            next,
            action,
            also_archives,
            unschedule_ok,
            archives_ok,
            record_ok,
            reschedule_ok,
            (fuel - 1) as nat,
        );
        match action {
            Some(action) => (seq![action] + rest, outcome),
            None => (rest, outcome),
        }
    }
}

/// Driven from `Begin`, the transitions take the course of a deletion, and
/// end within five of them.
pub proof fn lemma_delete_course(
    also_archives: bool,
    unschedule_ok: bool,
    archives_ok: bool,
    record_ok: bool,
    reschedule_ok: bool,
)
    ensures
        ({
            let (actions, outcome) = delete_run(
                DeleteState::Begin,
                None,
                also_archives,
                unschedule_ok,
                archives_ok,
                record_ok,
                reschedule_ok,
                5,
            );
            let course = delete_course(
                also_archives,
                unschedule_ok,
                archives_ok,
                record_ok,
                reschedule_ok,
            );
            actions =~= course.0 && outcome == Some(course.1)
        }),
{
    reveal_with_fuel(delete_run, 6);
}

/// The state after the awaited action succeeded or failed, and the action to
/// take next, if any.
pub fn delete(state: DeleteState, also_archives: bool, succeeded: bool) -> (r: (
    DeleteState,
    Option<DeleteAction>,
))
    ensures
        r == delete_transition(state, also_archives, succeeded),
{
    match state {
        DeleteState::Begin => (DeleteState::AwaitUnschedule, Some(DeleteAction::Unschedule)),
        DeleteState::AwaitUnschedule => {
            if !succeeded {
                (DeleteState::End(DeleteOutcome::NotUnscheduled), None)
            } else if also_archives {
                (DeleteState::AwaitArchives, Some(DeleteAction::DeleteArchives))
            } else {
                (DeleteState::AwaitRecord, Some(DeleteAction::DeleteRecord))
            }
        },
        DeleteState::AwaitArchives | DeleteState::AwaitRecord => {
            if !succeeded {
                (DeleteState::AwaitReschedule, Some(DeleteAction::Reschedule))
            } else if state == DeleteState::AwaitArchives {
                (DeleteState::AwaitRecord, Some(DeleteAction::DeleteRecord))
            } else {
                (DeleteState::End(DeleteOutcome::Deleted), None)
            }
        },
        DeleteState::AwaitReschedule => {
            if succeeded {
                (DeleteState::End(DeleteOutcome::Restored), None)
            } else {
                (DeleteState::End(DeleteOutcome::Inconsistent), None)
            }
        },
        DeleteState::End(outcome) => (DeleteState::End(outcome), None),
    }
}

/// The end of a record's file name.
pub open spec fn record_suffix() -> Seq<char> {
    seq!['.', 'j', 's', 'o', 'n']
}

/// The name of the file that holds the record of the profile `id`.
pub fn record_file_name(id: &ProfileId) -> (r: String)
    ensures
        r@ == uuid_text(id@) + record_suffix(),
{
    proof {
        reveal_strlit(".json");
    }
    let mut name = id.hyphenated();
    name.append(".json");
    assert(".json"@ =~= record_suffix());
    name
}

} // verus!
