//! Selection of the work due first on the tick clock: the weight it is admitted under, and the
//! checks that bind the due member to its temporal Trigger or timed dependency review before
//! that work runs.
use std::collections::HashMap;
use vstd::prelude::*;

use crate::control::spec_max_w;
use crate::deadline_carrier::{
    classify_next_due_tick_deadline, spec_classify_due_tick, DeadlineHandle, DeadlineMutationError, DeadlinePage,
    DueDeadlineBranch, TriggerDeadlineHandle,
};
use crate::deadline_index::{DeadlineHeader, WakeupKey};
use crate::dependency_registry::DependencyDueReviewError;
use crate::dependency_review::{DependencyRegistrationError, DependencyTimedReview};
use crate::materialization::spec_sat_sub_w;
use crate::service_ring::{ActorProcess, ActorRef, ProcessResidence};
use crate::types::{ActorId, SchedulerTick};
use crate::weight::Weight;

verus! {

broadcast use vstd::std_specs::hash::group_hash_axioms;

#[derive(Clone, Copy, Debug, PartialEq, Eq, Structural)]
pub enum DependencyReviewWorkerError {
    InsufficientWeight,
    Deadline(DeadlineMutationError),
    Publication(DependencyDueReviewError),
    Interpretation(DependencyRegistrationError),
    TemporalOccurrence,
}

/// The work selected on the tick clock: a temporal Trigger to fire, or a timed review to
/// publish and interpret.
#[derive(Clone, Copy, Debug, PartialEq, Eq, Structural)]
pub enum DueTickWork {
    TemporalTrigger(ActorRef),
    Review { actor: ActorRef, expected: DependencyTimedReview },
}

/// The benchmarked weights of the tick frontier.
#[derive(Clone, Copy, Debug, PartialEq, Eq, Structural)]
pub struct DueTickWeights {
    pub classify: Weight,
    pub at_time_occurrence: Weight,
    pub cadenced_occurrence: Weight,
    pub review: Weight,
}

/// `key` is a tick no later than `now_tick`.
pub open spec fn tick_due(key: WakeupKey, now_tick: SchedulerTick) -> bool {
    match key {
        WakeupKey::Tick(t) => t <= now_tick,
        WakeupKey::Block(_) => false,
    }
}

/// The selection on the tick frontier and the meter's remaining weight afterwards.
pub open spec fn spec_due_tick(
    remaining: Weight,
    w: DueTickWeights,
    now_tick: SchedulerTick,
    earliest: Option<WakeupKey>,
    header: Option<DeadlineHeader>,
    pages: Map<u64, DeadlinePage>,
    trigger_handles: Map<ActorId, TriggerDeadlineHandle>,
    processes: Map<ActorId, ActorProcess>,
    timed_reviews: Map<ActorId, DependencyTimedReview>,
    handles: Map<ActorId, DeadlineHandle>,
) -> (Result<DueTickWork, DependencyReviewWorkerError>, Weight) {
    let after_select = spec_sat_sub_w(remaining, w.classify);
    if !w.classify.spec_all_lte(remaining) {
        (Err(DependencyReviewWorkerError::InsufficientWeight), remaining)
    } else {
        match spec_classify_due_tick(now_tick, earliest, header, pages, trigger_handles, processes) {
            Err(e) => (Err(DependencyReviewWorkerError::Deadline(e)), after_select),
            Ok(DueDeadlineBranch::TemporalTrigger(actor)) => {
                let temporal = spec_max_w(w.at_time_occurrence, w.cadenced_occurrence);
                if !temporal.spec_all_lte(after_select) {
                    (Err(DependencyReviewWorkerError::InsufficientWeight), after_select)
                } else {
                    let after = spec_sat_sub_w(after_select, temporal);
                    if !trigger_handles.contains_key(actor.actor_id) {
                        (
                            Err(DependencyReviewWorkerError::Deadline(DeadlineMutationError::MemberMissing)),
                            after,
                        )
                    } else if trigger_handles[actor.actor_id].actor != actor || !tick_due(
                        trigger_handles[actor.actor_id].key,
                        now_tick,
                    ) {
                        (
                            Err(
                                DependencyReviewWorkerError::Deadline(
                                    DeadlineMutationError::ProcessResidenceMismatch,
                                ),
                            ),
                            after,
                        )
                    } else {
                        (Ok(DueTickWork::TemporalTrigger(actor)), after)
                    }
                }
            },
            Ok(DueDeadlineBranch::Retry(_)) => (
                Err(DependencyReviewWorkerError::Deadline(DeadlineMutationError::ProcessResidenceMismatch)),
                after_select,
            ),
            Ok(DueDeadlineBranch::Review(actor)) => {
                let id = actor.actor_id;
                if !w.review.spec_all_lte(after_select) {
                    (Err(DependencyReviewWorkerError::InsufficientWeight), after_select)
                } else if !timed_reviews.contains_key(id) {
                    (
                        Err(DependencyReviewWorkerError::Publication(DependencyDueReviewError::ReviewMissing)),
                        after_select,
                    )
                } else if !handles.contains_key(id) {
                    (
                        Err(DependencyReviewWorkerError::Deadline(DeadlineMutationError::MemberMissing)),
                        after_select,
                    )
                } else if timed_reviews[id].owner.actor != actor || handles[id].actor != actor
                    || timed_reviews[id].deadline != handles[id].key || !tick_due(timed_reviews[id].deadline, now_tick) {
                    (
                        Err(DependencyReviewWorkerError::Publication(DependencyDueReviewError::ReviewMismatch)),
                        after_select,
                    )
                } else if !processes.contains_key(id) {
                    (
                        Err(DependencyReviewWorkerError::Deadline(DeadlineMutationError::ProcessMissing)),
                        after_select,
                    )
                } else if processes[id].residence != Some(ProcessResidence::Parked) {
                    (
                        Err(
                            DependencyReviewWorkerError::Deadline(
                                DeadlineMutationError::ProcessResidenceMismatch,
                            ),
                        ),
                        after_select,
                    )
                } else {
                    (Ok(DueTickWork::Review { actor, expected: timed_reviews[id] }), after_select)
                }
            },
        }
    }
}

/// Selects the work due first on the tick clock and charges the meter, whose remaining weight
/// is `meter_remaining`: the selector's weight is admitted first; a temporal Trigger is admitted
/// under the larger temporal occurrence weight and must still hold its due tick handle; a
/// timed review is admitted under the review weight (charged by the review worker) and must be
/// the parked Actor's stored review for exactly this deadline. Sleeping retries on the tick
/// clock are refused. `earliest`, `header` and `pages` are the tick clock's earliest bucket.
pub fn process_next_due_tick_deadline(
    meter_remaining: &mut Weight,
    weights: DueTickWeights,
    now_tick: SchedulerTick,
    earliest: Option<WakeupKey>,
    header: Option<DeadlineHeader>,
    pages: &HashMap<u64, DeadlinePage>,
    trigger_handles: &HashMap<ActorId, TriggerDeadlineHandle>,
    processes: &HashMap<ActorId, ActorProcess>,
    timed_reviews: &HashMap<ActorId, DependencyTimedReview>,
    handles: &HashMap<ActorId, DeadlineHandle>,
) -> (r: Result<DueTickWork, DependencyReviewWorkerError>)
    ensures
        (r, *final(meter_remaining)) == spec_due_tick(
            *old(meter_remaining),
            weights,
            now_tick,
            earliest,
            header,
            pages@,
            trigger_handles@,
            processes@,
            timed_reviews@,
            handles@,
        ),
{
    if !weights.classify.all_lte(*meter_remaining) {
        return Err(DependencyReviewWorkerError::InsufficientWeight);
    }
    *meter_remaining = meter_remaining.saturating_sub(weights.classify);
    let branch = match classify_next_due_tick_deadline(now_tick, earliest, header, pages, trigger_handles, processes) {
        Ok(b) => b,
        Err(e) => return Err(DependencyReviewWorkerError::Deadline(e)),
    };
    match branch {
        DueDeadlineBranch::TemporalTrigger(actor) => {
            let temporal = weights.at_time_occurrence.component_max(weights.cadenced_occurrence);
            if !temporal.all_lte(*meter_remaining) {
                return Err(DependencyReviewWorkerError::InsufficientWeight);
            }
            *meter_remaining = meter_remaining.saturating_sub(temporal);
            let handle = match trigger_handles.get(&actor.actor_id) {
                Some(h) => *h,
                None => return Err(DependencyReviewWorkerError::Deadline(DeadlineMutationError::MemberMissing)),
            };
            let due = match handle.key {
                WakeupKey::Tick(t) => t <= now_tick,
                WakeupKey::Block(_) => false,
            };
            if handle.actor != actor || !due {
                return Err(DependencyReviewWorkerError::Deadline(DeadlineMutationError::ProcessResidenceMismatch));
            }
            Ok(DueTickWork::TemporalTrigger(actor))
        },
        DueDeadlineBranch::Retry(_) => Err(
            DependencyReviewWorkerError::Deadline(DeadlineMutationError::ProcessResidenceMismatch),
        ),
        DueDeadlineBranch::Review(actor) => {
            let id = actor.actor_id;
            if !weights.review.all_lte(*meter_remaining) {
                return Err(DependencyReviewWorkerError::InsufficientWeight);
            }
            let expected = match timed_reviews.get(&id) {
                Some(e) => *e,
                None => return Err(DependencyReviewWorkerError::Publication(DependencyDueReviewError::ReviewMissing)),
            };
            let handle = match handles.get(&id) {
                Some(h) => *h,
                None => return Err(DependencyReviewWorkerError::Deadline(DeadlineMutationError::MemberMissing)),
            };
            let due = match expected.deadline {
                WakeupKey::Tick(t) => t <= now_tick,
                WakeupKey::Block(_) => false,
            };
            if expected.owner.actor != actor || handle.actor != actor || expected.deadline != handle.key || !due {
                return Err(DependencyReviewWorkerError::Publication(DependencyDueReviewError::ReviewMismatch));
            }
            let process = match processes.get(&id) {
                Some(p) => *p,
                None => return Err(DependencyReviewWorkerError::Deadline(DeadlineMutationError::ProcessMissing)),
            };
            let parked = match process.residence {
                Some(ProcessResidence::Parked) => true,
                _ => false,
            };
            if !parked {
                return Err(DependencyReviewWorkerError::Deadline(DeadlineMutationError::ProcessResidenceMismatch));
            }
            Ok(DueTickWork::Review { actor, expected })
        },
    }
}


/// The tick frontier's key facts: when the selector's weight does not fit, it refuses for weight
/// and charges nothing; the meter never grows; a temporal Trigger it selects still holds a due
/// tick handle, and a review it selects is the stored review of a due deadline.
pub proof fn lemma_due_tick_facts(
    remaining: Weight,
    w: DueTickWeights,
    now_tick: SchedulerTick,
    earliest: Option<WakeupKey>,
    header: Option<DeadlineHeader>,
    pages: Map<u64, DeadlinePage>,
    trigger_handles: Map<ActorId, TriggerDeadlineHandle>,
    processes: Map<ActorId, ActorProcess>,
    timed_reviews: Map<ActorId, DependencyTimedReview>,
    handles: Map<ActorId, DeadlineHandle>,
)
    ensures
        ({
            let (r, after) = spec_due_tick(
                remaining,
                w,
                now_tick,
                earliest,
                header,
                pages,
                trigger_handles,
                processes,
                timed_reviews,
                handles,
            );
            &&& !w.classify.spec_all_lte(remaining) ==> r == Err::<DueTickWork, DependencyReviewWorkerError>(
                DependencyReviewWorkerError::InsufficientWeight,
            ) && after == remaining
            &&& after.spec_all_lte(remaining)
            &&& r matches Ok(DueTickWork::TemporalTrigger(a)) ==> trigger_handles.contains_key(a.actor_id)
                && trigger_handles[a.actor_id].actor == a && tick_due(trigger_handles[a.actor_id].key, now_tick)
            &&& r matches Ok(DueTickWork::Review { actor, expected }) ==> timed_reviews.contains_key(actor.actor_id)
                && expected == timed_reviews[actor.actor_id] && tick_due(expected.deadline, now_tick)
        }),
{
}

} // verus!
