//! The scheduling controller: what one invocation for a profile does.
//!
//! The controller decides; running the steps it names is left to the caller.

use vstd::prelude::*;
use crate::calendar::{DateTime, Instant};
use crate::date_time_match::DateTimeMatch;
use crate::profile_config::{ProfileConfig, ProfileView, FALLBACK_DAYS};

verus! {

/// One thing an invocation does, in the order the controller gives.
#[derive(Debug, Clone, Copy, PartialEq, Eq)]
pub enum Step {
    /// Produce an archive. A failure is reported and the steps go on.
    ProduceArchive,
    /// Write the profile back.
    Persist,
    /// Register the trigger of the next run for the given instant.
    Register(DateTime),
}

/// A step, over the model of its instant.
pub enum StepView {
    ProduceArchive,
    Persist,
    Register(Instant),
}

impl View for Step {
    type V = StepView;

    open spec fn view(&self) -> StepView {
        match *self {
            Step::ProduceArchive => StepView::ProduceArchive,
            Step::Persist => StepView::Persist,
            Step::Register(at) => StepView::Register(at@),
        }
    }
}

/// The views of a list of steps.
pub open spec fn step_views(steps: Seq<Step>) -> Seq<StepView> {
    Seq::new(steps.len(), |i: int| steps[i]@)
}

/// The table of the controller: whether to move `next_backup` on, and whether
/// to produce an archive now.
///
/// A forced run does both. A run before `next_backup` is due does neither. A
/// due run moves `next_backup` on, and produces an archive if `next_backup` is
/// an instant of the schedule, or if the instant that the schedule gives has
/// passed and is one of the schedule.
pub open spec fn decision_table(
    forced: bool,
    due: bool,
    next_backup_matches: bool,
    skipped_scheduled: bool,
    scheduled_matches: bool,
) -> (bool, bool) {
    if forced {
        (true, true)
    } else if !due {
        (false, false)
    } else if next_backup_matches || (skipped_scheduled && scheduled_matches) {
        (true, true)
    } else {
        (true, false)
    }
}

impl ProfileView {
    /// What the controller decides at `now`: whether to move `next_backup` on,
    /// and whether to produce an archive.
    pub open spec fn decision(self, forced: bool, now: Instant) -> (bool, bool) {
        let scheduled = self.interval.next_datetime(now);
        decision_table(
            forced,
            !now.before(self.next_backup),
            self.interval.matches_datetime(self.next_backup) == DateTimeMatch::Matched,
            scheduled matches Some(at) && !now.before(at),
            scheduled matches Some(at) && self.interval.matches_datetime(at)
                == DateTimeMatch::Matched,
        )
    }

    /// The profile with `next_backup` moved on from `now`.
    pub open spec fn advanced(self, now: Instant) -> ProfileView {
        ProfileView { next_backup: self.next_scheduled(Some(now)), ..self }
    }

    /// The profile as an invocation at `now` leaves it.
    pub open spec fn after_invocation(self, forced: bool, now: Instant) -> ProfileView {
        if self.decision(forced, now).0 {
            self.advanced(now)
        } else {
            self
        }
    }

    /// The steps of an invocation at `now`: an archive if one is due, then the
    /// profile is written back, and only then the next run is registered.
    pub open spec fn invocation_steps(self, forced: bool, now: Instant) -> Seq<StepView> {
        let tail = seq![
            StepView::Persist,
            StepView::Register(self.after_invocation(forced, now).next_backup),
        ];
        if self.decision(forced, now).1 {
            seq![StepView::ProduceArchive] + tail
        } else {
            tail
        }
    }

    /// A run that is not forced produces an archive exactly if it is due and
    /// `next_backup` is an instant of the schedule: the instant that the
    /// schedule gives after `now` has never passed.
    pub proof fn lemma_decision(self, forced: bool, now: Instant)
        requires
            now.date.valid(),
        ensures
            self.decision(forced, now).0 == (forced || !now.before(self.next_backup)),
            self.decision(forced, now).1 == (forced || (!now.before(self.next_backup)
                && self.interval.matches_datetime(self.next_backup) == DateTimeMatch::Matched)),
    {
        self.interval.lemma_next_datetime_is_later(now);
    }

    /// After an invocation at `now`, `next_backup` lies after `now`, unless the
    /// schedule gave no instant: then it is where the fallback puts it, which
    /// is after the `next_backup` of before whenever the calendar goes on for
    /// 365 days.
    pub proof fn lemma_next_backup_after_invocation(self, forced: bool, now: Instant)
        requires
            now.date.valid(),
            self.next_backup.date.valid(),
        ensures
            ({
                let after = self.after_invocation(forced, now).next_backup;
                now.before(after) || (self.interval.next_datetime(now) is None && after
                    == self.fallback())
            }),
            self.next_backup.plus_days(FALLBACK_DAYS as nat) is Some
                ==> self.next_backup.before(self.fallback()),
    {
        self.interval.lemma_next_datetime_is_later(now);
        self.next_backup.date.lemma_plus_days(FALLBACK_DAYS as nat);
    }
}

/// The table of the controller: whether to move `next_backup` on, and whether
/// to produce an archive now.
pub fn decide(
    forced: bool,
    due: bool,
    next_backup_matches: bool,
    skipped_scheduled: bool,
    scheduled_matches: bool,
) -> (r: (bool, bool))
    ensures
        r == decision_table(forced, due, next_backup_matches, skipped_scheduled, scheduled_matches),
{
    if forced {
        return (true, true);
    }
    if !due {
        return (false, false);
    }
    let skipped_match = next_backup_matches || (skipped_scheduled && scheduled_matches);
    (true, skipped_match)
}

/// Whether an invocation at `now` moves `next_backup` on (first) and whether
/// it produces an archive (second).
pub fn is_scheduled(profile_config: &ProfileConfig, forced: bool, now: DateTime) -> (r: (
    bool,
    bool,
))
    ensures
        r == profile_config@.decision(forced, now@),
{
    let next_backup = profile_config.next_backup;
    let due = !now.is_before(&next_backup);
    let next_backup_matches = match profile_config.interval.matches_datetime(next_backup) {
        DateTimeMatch::Matched => true,
        _ => false,
    };
    let (skipped_scheduled, scheduled_matches) = match profile_config.interval.next_datetime(now) {
        Some(at) => {
            let matched = match profile_config.interval.matches_datetime(at) {
                DateTimeMatch::Matched => true,
                _ => false,
            };
            (!now.is_before(&at), matched)
        },
        None => (false, false),
    };
    decide(forced, due, next_backup_matches, skipped_scheduled, scheduled_matches)
}

/// One invocation for a profile at `now`: decides, moves `next_backup` on if
/// that is due, and gives the steps to run, in order.
pub fn handle_profile(profile_config: &mut ProfileConfig, forced: bool, now: DateTime) -> (steps:
    Vec<Step>)
    ensures
        final(profile_config)@ == old(profile_config)@.after_invocation(forced, now@),
        step_views(steps@) == old(profile_config)@.invocation_steps(forced, now@),
{
    let (update_next_backup, do_perform_backup) = is_scheduled(profile_config, forced, now);
    let mut steps: Vec<Step> = Vec::new();
    if do_perform_backup {
        steps.push(Step::ProduceArchive);
    }
    if update_next_backup {
        let next_scheduled = profile_config.get_next_scheduled(Some(now));
        profile_config.next_backup = next_scheduled;
    }
    steps.push(Step::Persist);
    steps.push(Step::Register(profile_config.next_backup));
    assert(step_views(steps@) =~= old(profile_config)@.invocation_steps(forced, now@));
    steps
}

/// Moves `next_backup` on from `now`, as after a change of the schedule, and
/// gives the steps to run: here the next run is registered first.
pub fn reschedule(profile_config: &mut ProfileConfig, now: DateTime) -> (steps: Vec<Step>)
    ensures
        final(profile_config)@ == old(profile_config)@.advanced(now@),
        step_views(steps@) == seq![
            StepView::Register(old(profile_config)@.advanced(now@).next_backup),
            StepView::Persist,
        ],
{
    let next_backup = profile_config.get_next_scheduled(Some(now));
    profile_config.next_backup = next_backup;
    let mut steps: Vec<Step> = Vec::new();
    steps.push(Step::Register(next_backup));
    steps.push(Step::Persist);
    assert(step_views(steps@) =~= seq![
        StepView::Register(old(profile_config)@.advanced(now@).next_backup),
        StepView::Persist,
    ]);
    steps
}

} // verus!
