//! Actor-keyed semantic records: generations, compare-and-replace mutations and the
//! execution projection, plus the waiting-entry and control-location shapes.
use vstd::prelude::*;
use vstd::std_specs::cmp::PartialEqSpec;

use crate::deadline_index::WakeupKey;
use crate::geometry::{ActorStepResourceEnvelope, Commitment};
use crate::types::{ActorId, BlockNumber};

verus! {

/// Run phase of an Actor's current cycle.
#[derive(Clone, Copy, Debug, PartialEq, Eq, Structural)]
pub enum CycleState {
    Idle,
    Running,
    Suspended,
}

/// Non-placement semantic authority of an Active Actor.
#[derive(Clone, Debug, PartialEq, Eq)]
pub struct ActorSemanticRecord<Identity, Hot, Admission> {
    pub identity: Identity,
    /// Stable Contract-generation authority used by every generation-bound carrier.
    pub generation: u64,
    pub hot: Hot,
    pub admission: Admission,
}

/// Dormant semantic authority: the last published Contract generation, zero when this
/// identity never published a Contract.
#[derive(Clone, Debug, PartialEq, Eq)]
pub struct DormantActorSemanticRecord<Identity> {
    pub identity: Identity,
    pub generation: u64,
}

/// Complete lifecycle shape of the actor-keyed semantic owner.
#[derive(Clone, Debug, PartialEq, Eq)]
pub enum ActorSemanticState<Identity, Hot, Admission> {
    Dormant(DormantActorSemanticRecord<Identity>),
    Active(ActorSemanticRecord<Identity, Hot, Admission>),
}

/// The generation after `current`; none once the counter is exhausted (zero never recurs).
pub fn next_actor_generation(current: u64) -> (r: Option<u64>)
    ensures
        r == if current == u64::MAX {
            None
        } else {
            Some((current + 1) as u64)
        },
        r matches Some(g) ==> g != 0,
{
    match current.checked_add(1) {
        Some(generation) => {
            if generation != 0 {
                Some(generation)
            } else {
                None
            }
        },
        None => None,
    }
}

#[derive(Clone, Copy, Debug, PartialEq, Eq, Structural)]
pub enum ActorSemanticLoadError {
    Corrupt,
}

/// Storage-neutral operation on the semantic owner. Every update compares and replaces the
/// whole record, so independently authored patches cannot overwrite one another.
#[derive(Clone, Debug, PartialEq, Eq)]
pub enum ActorSemanticMutation<Record> {
    Publish(Record),
    Replace { expected: Record, replacement: Record },
    Remove { expected: Record },
}

#[derive(Clone, Copy, Debug, PartialEq, Eq, Structural)]
pub enum ActorSemanticMutationError {
    AlreadyPublished,
    Missing,
    Stale,
}

/// Outcome of applying `mutation` to the `current` record; records are compared with the record
/// type's own `==`.
pub open spec fn spec_apply_mutation<Record: PartialEq>(
    current: Option<Record>,
    mutation: ActorSemanticMutation<Record>,
) -> Result<Option<Record>, ActorSemanticMutationError> {
    match (current, mutation) {
        (None, ActorSemanticMutation::Publish(record)) => Ok(Some(record)),
        (Some(_), ActorSemanticMutation::Publish(_)) => Err(
            ActorSemanticMutationError::AlreadyPublished,
        ),
        (Some(c), ActorSemanticMutation::Replace { expected, replacement }) => if c.eq_spec(&expected) {
            Ok(Some(replacement))
        } else {
            Err(ActorSemanticMutationError::Stale)
        },
        (Some(c), ActorSemanticMutation::Remove { expected }) => if c.eq_spec(&expected) {
            Ok(None)
        } else {
            Err(ActorSemanticMutationError::Stale)
        },
        (None, _) => Err(ActorSemanticMutationError::Missing),
    }
}

/// Applies one compare-and-replace mutation to the current record. A Publish compares nothing;
/// a Replace or Remove compares with the record type's `==`, which must obey the equality laws.
pub fn apply_actor_semantic_mutation<Record: PartialEq>(
    current: Option<&Record>,
    mutation: ActorSemanticMutation<Record>,
) -> (r: Result<Option<Record>, ActorSemanticMutationError>)
    requires
        !(mutation is Publish) ==> vstd::laws_eq::obeys_eq::<Record>(),
    ensures
        r == spec_apply_mutation(
            match current {
                Some(c) => Some(*c),
                None => None,
            },
            mutation,
        ),
{
    match (current, mutation) {
        (None, ActorSemanticMutation::Publish(record)) => Ok(Some(record)),
        (Some(_), ActorSemanticMutation::Publish(_)) => Err(
            ActorSemanticMutationError::AlreadyPublished,
        ),
        (Some(c), ActorSemanticMutation::Replace { expected, replacement }) => {
            if c.eq(&expected) {
                Ok(Some(replacement))
            } else {
                Err(ActorSemanticMutationError::Stale)
            }
        },
        (Some(c), ActorSemanticMutation::Remove { expected }) => {
            if c.eq(&expected) {
                Ok(None)
            } else {
                Err(ActorSemanticMutationError::Stale)
            }
        },
        (None, ActorSemanticMutation::Replace { .. }) => Err(ActorSemanticMutationError::Missing),
        (None, ActorSemanticMutation::Remove { .. }) => Err(ActorSemanticMutationError::Missing),
    }
}

/// Publishing a record into an empty owner and then removing exactly that record leaves the
/// owner empty again (the record equals itself, as `Eq` promises).
pub proof fn lemma_publish_then_remove_restores<Record: PartialEq>(record: Record)
    requires
        record.eq_spec(&record),
    ensures
        spec_apply_mutation(None, ActorSemanticMutation::Publish(record)) == Ok::<
            Option<Record>,
            ActorSemanticMutationError,
        >(Some(record)),
        spec_apply_mutation(Some(record), ActorSemanticMutation::Remove { expected: record })
            == Ok::<Option<Record>, ActorSemanticMutationError>(None),
{
}

/// A replacement that succeeded is undone by the inverse replacement.
pub proof fn lemma_replace_is_invertible<Record: PartialEq>(current: Record, replacement: Record)
    requires
        current.eq_spec(&current),
        replacement.eq_spec(&replacement),
    ensures
        spec_apply_mutation(
            Some(current),
            ActorSemanticMutation::Replace { expected: current, replacement },
        ) == Ok::<Option<Record>, ActorSemanticMutationError>(Some(replacement)),
        spec_apply_mutation(
            Some(replacement),
            ActorSemanticMutation::Replace { expected: replacement, replacement: current },
        ) == Ok::<Option<Record>, ActorSemanticMutationError>(Some(current)),
{
}

/// A mutation authored against a record that is not equal to the current one is refused as
/// stale: a stale compare-and-replace never overwrites.
pub proof fn lemma_stale_mutation_refused<Record: PartialEq>(
    current: Record,
    mutation: ActorSemanticMutation<Record>,
)
    requires
        mutation matches ActorSemanticMutation::Replace { expected, .. } ==> !current.eq_spec(&expected),
        mutation matches ActorSemanticMutation::Remove { expected } ==> !current.eq_spec(&expected),
    ensures
        !(mutation is Publish) ==> spec_apply_mutation(Some(current), mutation) == Err::<
            Option<Record>,
            ActorSemanticMutationError,
        >(ActorSemanticMutationError::Stale),
{
}

/// Two whole-record updates authored against the same read `a`: once the first replaced `a` by a
/// record `b` not equal to it, the second is refused as stale and cannot overwrite `b`.
pub proof fn lemma_stale_read_never_overwrites<Record: PartialEq>(
    a: Record,
    b: Record,
    second: ActorSemanticMutation<Record>,
)
    requires
        vstd::laws_eq::obeys_eq::<Record>(),
        a.eq_spec(&a),
        !a.eq_spec(&b),
        second matches ActorSemanticMutation::Replace { expected, .. } ==> expected == a,
        second matches ActorSemanticMutation::Remove { expected } ==> expected == a,
        !(second is Publish),
    ensures
        spec_apply_mutation(Some(a), ActorSemanticMutation::Replace { expected: a, replacement: b }) == Ok::<
            Option<Record>,
            ActorSemanticMutationError,
        >(Some(b)),
        spec_apply_mutation(Some(b), second) == Err::<Option<Record>, ActorSemanticMutationError>(
            ActorSemanticMutationError::Stale,
        ),
{
    reveal(vstd::laws_eq::obeys_eq_spec_properties);
    assert(b.eq_spec(&a) <==> a.eq_spec(&b));
}

/// Storage-free projection of the fields duplicated by placement cells.
#[derive(Clone, Copy, Debug, PartialEq, Eq, Structural)]
pub struct ActorSemanticExecutionProjection {
    pub cursor: u32,
    pub eligible_at: Option<BlockNumber>,
    pub resources: ActorStepResourceEnvelope,
}

#[derive(Clone, Copy, Debug, PartialEq, Eq, Structural)]
pub enum ActorSemanticProjectionError {
    RunStateMismatch,
    CurrentStepMissing,
}

/// Projects execution fields from their canonical owners: an idle cycle has no run and
/// starts at cursor zero; a running or suspended cycle takes cursor and eligibility from its
/// run; the current Step's resources must be present.
pub fn project_actor_semantic_execution(
    cycle_state: CycleState,
    run: Option<(u32, BlockNumber)>,
    current_step_resources: Option<ActorStepResourceEnvelope>,
) -> (r: Result<ActorSemanticExecutionProjection, ActorSemanticProjectionError>)
    ensures
        r == match (cycle_state, run) {
            (CycleState::Idle, None) => match current_step_resources {
                Some(resources) => Ok(
                    ActorSemanticExecutionProjection { cursor: 0, eligible_at: None, resources },
                ),
                None => Err(ActorSemanticProjectionError::CurrentStepMissing),
            },
            (CycleState::Running, Some((cursor, eligible_at))) | (
                CycleState::Suspended,
                Some((cursor, eligible_at)),
            ) => match current_step_resources {
                Some(resources) => Ok(
                    ActorSemanticExecutionProjection {
                        cursor,
                        eligible_at: Some(eligible_at),
                        resources,
                    },
                ),
                None => Err(ActorSemanticProjectionError::CurrentStepMissing),
            },
            _ => Err(ActorSemanticProjectionError::RunStateMismatch),
        },
{
    let (cursor, eligible_at) = match (cycle_state, run) {
        (CycleState::Idle, None) => (0, None),
        (CycleState::Running, Some((cursor, eligible_at))) => (cursor, Some(eligible_at)),
        (CycleState::Suspended, Some((cursor, eligible_at))) => (cursor, Some(eligible_at)),
        _ => return Err(ActorSemanticProjectionError::RunStateMismatch),
    };
    let resources = match current_step_resources {
        Some(resources) => resources,
        None => return Err(ActorSemanticProjectionError::CurrentStepMissing),
    };
    Ok(ActorSemanticExecutionProjection { cursor, eligible_at, resources })
}

/// A deadline membership pointing at the single control owner.
#[derive(Clone, Copy, Debug, PartialEq, Eq)]
pub struct ActorWakeupReference {
    pub actor_id: ActorId,
    pub admission_identity: Commitment,
}

/// A waiting slot holds either the primary control cell or a reference to it.
#[derive(Clone, Debug, PartialEq, Eq)]
pub enum ActorWaitingEntry<Cell> {
    Primary(Cell),
    Reference(ActorWakeupReference),
}

impl<Cell> ActorWaitingEntry<Cell> {
    pub fn primary(&self) -> (r: Option<&Cell>)
        ensures
            r == match self {
                ActorWaitingEntry::Primary(cell) => Some(cell),
                ActorWaitingEntry::Reference(_) => None,
            },
    {
        match self {
            ActorWaitingEntry::Primary(cell) => Some(cell),
            ActorWaitingEntry::Reference(_) => None,
        }
    }

    pub fn primary_mut(&mut self) -> (r: Option<&mut Cell>)
        ensures
            (*old(self) is Primary) <==> r is Some,
            r matches Some(cell) ==> *old(self) == ActorWaitingEntry::<Cell>::Primary(*cell)
                && *final(self) == ActorWaitingEntry::<Cell>::Primary(*final(cell)),
            r is None ==> *final(self) == *old(self),
    {
        match self {
            ActorWaitingEntry::Primary(cell) => Some(cell),
            ActorWaitingEntry::Reference(_) => None,
        }
    }

    pub fn into_primary(self) -> (r: Option<Cell>)
        ensures
            r == match self {
                ActorWaitingEntry::Primary(cell) => Some(cell),
                ActorWaitingEntry::Reference(_) => None,
            },
    {
        match self {
            ActorWaitingEntry::Primary(cell) => Some(cell),
            ActorWaitingEntry::Reference(_) => None,
        }
    }
}

/// Queue ticket of a Ready Actor.
pub type QueueTicket = u64;

/// External-boundary location of an Actor's control cell.
#[derive(Clone, Copy, Debug, PartialEq, Eq, Structural)]
pub enum ActorControlLocation {
    Unsignaled,
    Waiting { key: WakeupKey, page: u64, slot: u8 },
    Ready { ticket: QueueTicket },
}

/// Whether a materialization pass can reserve every family's minimum quantum.
#[derive(Clone, Copy, Debug, PartialEq, Eq, Structural)]
pub enum MaterializationMinimumReservation {
    ReserveAllFamilies,
    Unavailable,
}

impl MaterializationMinimumReservation {
    pub fn reserves_all_families(self) -> (r: bool)
        ensures
            r == (self == MaterializationMinimumReservation::ReserveAllFamilies),
    {
        match self {
            MaterializationMinimumReservation::ReserveAllFamilies => true,
            MaterializationMinimumReservation::Unavailable => false,
        }
    }
}

} // verus!
