//! Dependency registrations of parked Actors and the interpretation of a due review of their
//! Oracle-feed sources.
use vstd::prelude::*;

use crate::deadline_index::WakeupKey;
use crate::service_ring::ActorRef;

verus! {

#[derive(Clone, Copy, Debug, PartialEq, Eq, Structural)]
pub enum DependencyRegistrationError {
    TransactionRequired,
    CapacityExceeded,
    ClockUnavailable,
    CorruptTopology,
    CurrentRegistrationMismatch,
    DeadlineNotFuture,
    DuplicateSource,
    PendingEventMismatch,
    PendingEventMissing,
    PendingOwnerMismatch,
    PendingOwnerMissing,
    PendingReviewMismatch,
    PendingReviewMissing,
    PlanTooLarge,
    PositionMismatch,
    PositionMissing,
    RegistrationAlreadyExists,
    RegistrationMissing,
    RevisionFromFuture,
    RevisionMismatch,
    SourceExhausted,
    SourceUninitialized,
    StoredPlanMismatch,
}

/// The owner of a parked Actor's pending dependency check: the Actor and its plan revision.
#[derive(Clone, Copy, Debug, PartialEq, Eq, Structural)]
pub struct PendingCheckOwner {
    pub actor: ActorRef,
    pub plan_revision: u64,
}

/// A parked Actor's timed review: its pending owner and the deadline bucket it waits in.
#[derive(Clone, Copy, Debug, PartialEq, Eq, Structural)]
pub struct DependencyTimedReview {
    pub owner: PendingCheckOwner,
    pub deadline: WakeupKey,
}

/// Revision state of one dependency source, and its running registration scan: the revision
/// it targets, the next registration index it visits and the index it stops at.
#[derive(Clone, Copy, Debug, PartialEq, Eq, Structural)]
pub struct DependencyRevisionState {
    pub revision: u64,
    pub exhausted: bool,
    pub scan_target: Option<u64>,
    pub scan_cursor: u64,
    pub scan_end: u64,
}

/// A registration of an owner on a source, acknowledging the source revision it has seen.
#[derive(Clone, Copy, Debug, PartialEq, Eq, Structural)]
pub struct DependencyRegistrationHandle {
    pub actor: ActorRef,
    pub plan_revision: u64,
    pub acknowledged_revision: u64,
}

/// The registration handle for `owner` at `acknowledged_revision`, or the first reason it cannot
/// register: no pending owner, another pending owner, an exhausted source, or a revision the
/// source has not reached.
pub open spec fn registration_validation(
    owner: PendingCheckOwner,
    pending: Option<PendingCheckOwner>,
    source: DependencyRevisionState,
    acknowledged_revision: u64,
) -> Result<DependencyRegistrationHandle, DependencyRegistrationError> {
    match pending {
        None => Err(DependencyRegistrationError::PendingOwnerMissing),
        Some(p) => if p != owner {
            Err(DependencyRegistrationError::PendingOwnerMismatch)
        } else if source.exhausted {
            Err(DependencyRegistrationError::SourceExhausted)
        } else if acknowledged_revision > source.revision {
            Err(DependencyRegistrationError::RevisionFromFuture)
        } else {
            Ok(
                DependencyRegistrationHandle {
                    actor: owner.actor,
                    plan_revision: owner.plan_revision,
                    acknowledged_revision,
                },
            )
        },
    }
}

/// A dependency event waiting for its owner: the revision of `source` the owner must still see.
#[derive(Clone, Copy, Debug, PartialEq, Eq, Structural)]
pub struct PendingDependencyEvent {
    pub owner: PendingCheckOwner,
    pub source: u64,
    pub revision: u64,
}

/// One registration of an Actor's dependency plan: the source and the handle registered on it.
#[derive(Clone, Copy, Debug, PartialEq, Eq, Structural)]
pub struct DependencyPlanRegistration {
    pub source: u64,
    pub handle: DependencyRegistrationHandle,
}

/// One source of a desired dependency plan, with the revision the owner observed on it.
#[derive(Clone, Copy, Debug, PartialEq, Eq, Structural)]
pub struct DependencyPlanSource {
    pub source: u64,
    pub observed_revision: u64,
}

/// Validates that `owner` is the Actor's current pending owner and that the source can still
/// be registered on at `acknowledged_revision`; yields the registration handle. `pending` is the
/// Actor's stored pending owner and `source` the source's stored state.
pub fn validate_dependency_registration(
    owner: PendingCheckOwner,
    pending: Option<PendingCheckOwner>,
    source: DependencyRevisionState,
    acknowledged_revision: u64,
) -> (r: Result<DependencyRegistrationHandle, DependencyRegistrationError>)
    ensures
        r == registration_validation(owner, pending, source, acknowledged_revision),
{
    let p = match pending {
        None => return Err(DependencyRegistrationError::PendingOwnerMissing),
        Some(p) => p,
    };
    if p != owner {
        return Err(DependencyRegistrationError::PendingOwnerMismatch);
    }
    if source.exhausted {
        return Err(DependencyRegistrationError::SourceExhausted);
    }
    if acknowledged_revision > source.revision {
        return Err(DependencyRegistrationError::RevisionFromFuture);
    }
    Ok(DependencyRegistrationHandle { actor: owner.actor, plan_revision: owner.plan_revision, acknowledged_revision })
}

/// What the Oracle provider reports for a feed.
#[derive(Clone, Copy, Debug, PartialEq, Eq, Structural)]
pub enum CanonicalObservationState {
    Available,
    Unavailable,
    Uninitialized,
}

/// One source of a due review as read: its source-to-feed mapping does not round-trip, or the
/// provider's report for its feed.
#[derive(Clone, Copy, Debug, PartialEq, Eq, Structural)]
pub enum SourceReading {
    MappingMismatch,
    Observed(CanonicalObservationState),
}

/// Whether a due review wakes the Actor or re-arms it.
#[derive(Clone, Copy, Debug, PartialEq, Eq, Structural)]
pub enum DependencyReviewInterpretation {
    Positive,
    Negative,
}

/// The first reading from position `i` on that refuses the review, if any.
pub open spec fn first_refusal(readings: Seq<SourceReading>, i: int) -> Option<DependencyRegistrationError>
    decreases readings.len() - i,
{
    if i < 0 || i >= readings.len() {
        None
    } else {
        match readings[i] {
            SourceReading::MappingMismatch => Some(DependencyRegistrationError::StoredPlanMismatch),
            SourceReading::Observed(CanonicalObservationState::Uninitialized) => Some(
                DependencyRegistrationError::SourceUninitialized,
            ),
            _ => first_refusal(readings, i + 1),
        }
    }
}

/// Interpretation of the readings: refused at the first corrupt mapping or uninitialized
/// feed; otherwise negative when any feed is unavailable, positive when every feed is available.
pub open spec fn spec_interpret_availability(readings: Seq<SourceReading>) -> Result<
    DependencyReviewInterpretation,
    DependencyRegistrationError,
> {
    match first_refusal(readings, 0) {
        Some(e) => Err(e),
        None => if exists|i: int|
            0 <= i < readings.len() && readings[i] == SourceReading::Observed(
                CanonicalObservationState::Unavailable,
            ) {
            Ok(DependencyReviewInterpretation::Negative)
        } else {
            Ok(DependencyReviewInterpretation::Positive)
        },
    }
}

/// Interprets a due review of Oracle-availability sources, each read once, in plan order.
pub fn interpret_observation_availability(readings: &Vec<SourceReading>) -> (r: Result<
    DependencyReviewInterpretation,
    DependencyRegistrationError,
>)
    ensures
        r == spec_interpret_availability(readings@),
{
    let mut interpretation = DependencyReviewInterpretation::Positive;
    let mut i: usize = 0;
    while i < readings.len()
        invariant
            0 <= i <= readings@.len(),
            first_refusal(readings@, 0) == first_refusal(readings@, i as int),
            (interpretation == DependencyReviewInterpretation::Negative) == exists|j: int|
                0 <= j < i && readings@[j] == SourceReading::Observed(CanonicalObservationState::Unavailable),
        decreases readings@.len() - i,
    {
        match readings[i] {
            SourceReading::MappingMismatch => return Err(DependencyRegistrationError::StoredPlanMismatch),
            SourceReading::Observed(CanonicalObservationState::Uninitialized) => {
                return Err(DependencyRegistrationError::SourceUninitialized);
            },
            SourceReading::Observed(CanonicalObservationState::Unavailable) => {
                interpretation = DependencyReviewInterpretation::Negative;
            },
            SourceReading::Observed(CanonicalObservationState::Available) => {},
        }
        i = i + 1;
    }
    Ok(interpretation)
}


/// A reading that neither refuses nor is unknown: an available or unavailable feed.
pub open spec fn reading_usable(r: SourceReading) -> bool {
    r == SourceReading::Observed(CanonicalObservationState::Available) || r == SourceReading::Observed(
        CanonicalObservationState::Unavailable,
    )
}

proof fn lemma_first_refusal_none(readings: Seq<SourceReading>, i: int)
    requires
        0 <= i <= readings.len(),
    ensures
        first_refusal(readings, i) is None <==> forall|j: int| i <= j < readings.len() ==> reading_usable(
            #[trigger] readings[j],
        ),
    decreases readings.len() - i,
{
    if i < readings.len() {
        lemma_first_refusal_none(readings, i + 1);
    }
}

/// A due availability review is interpreted exactly when every reading is a usable feed
/// report; it wakes the Actor only when every feed it depends on is available, and re-arms it
/// whenever any one of them, at any position, is unavailable.
pub proof fn lemma_availability_review_needs_every_feed(readings: Seq<SourceReading>)
    ensures
        spec_interpret_availability(readings) is Ok <==> forall|j: int|
            0 <= j < readings.len() ==> reading_usable(#[trigger] readings[j]),
        spec_interpret_availability(readings) == Ok::<DependencyReviewInterpretation, DependencyRegistrationError>(
            DependencyReviewInterpretation::Positive,
        ) ==> forall|j: int|
            0 <= j < readings.len() ==> #[trigger] readings[j] == SourceReading::Observed(
                CanonicalObservationState::Available,
            ),
        forall|j: int|
            0 <= j < readings.len() && #[trigger] readings[j] == SourceReading::Observed(
                CanonicalObservationState::Unavailable,
            ) && spec_interpret_availability(readings) is Ok ==> spec_interpret_availability(readings) == Ok::<
                DependencyReviewInterpretation,
                DependencyRegistrationError,
            >(DependencyReviewInterpretation::Negative),
{
    lemma_first_refusal_none(readings, 0);
}


/// A registration is validated only for the Actor's own pending check, on a source that is not
/// exhausted, at a revision the source has reached; the handle carries exactly the owner's
/// Actor, plan revision and the acknowledged revision.
pub proof fn lemma_registration_needs_pending_owner(
    owner: PendingCheckOwner,
    pending: Option<PendingCheckOwner>,
    source: DependencyRevisionState,
    acknowledged_revision: u64,
)
    ensures
        registration_validation(owner, pending, source, acknowledged_revision) is Ok <==> pending == Some(owner)
            && !source.exhausted && acknowledged_revision <= source.revision,
        registration_validation(owner, pending, source, acknowledged_revision) matches Ok(h) ==> h.actor == owner.actor
            && h.plan_revision == owner.plan_revision && h.acknowledged_revision == acknowledged_revision,
{
}

} // verus!
