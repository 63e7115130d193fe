//! Dependency plans of parked Actors across all sources: each source's revision state and
//! registration table, each Actor's pending owner, plan, timed review, and pending event or
//! review.
use std::collections::HashMap;
use vstd::prelude::*;

use crate::deadline_index::WakeupKey;
use crate::dependency_review::{
    registration_validation, DependencyPlanRegistration, DependencyPlanSource, DependencyRegistrationHandle, DependencyRegistrationError, DependencyRevisionState, DependencyTimedReview,
    PendingCheckOwner, PendingDependencyEvent,
};
use crate::registrations::{
    handle_of, install_into, install_position, install_refusal, install_slot_fits, put_at, remove_refusal, slot_at, replace_refusal, spec_install, spec_position, spec_remove, spec_replace,
    DependencyRegistrationHeader, DependencyRegistrationMutation,
    DependencyRegistrationTable, RegistrationTableView,
};
use crate::scan_sources::DependencySourceId;
use crate::dependency_scan::{first_on_source, first_registration_on, lemma_first_on_source, maps_to, plan_has_source, plan_of};
use crate::types::{ActorId, BlockNumber};

verus! {

broadcast use vstd::std_specs::hash::group_hash_axioms;

/// The dependency state as stored. A source without a stored revision state or table has the
/// initial state and an empty table.
pub struct DependencyRegistry {
    pub revisions: HashMap<DependencySourceId, DependencyRevisionState>,
    pub tables: HashMap<DependencySourceId, DependencyRegistrationTable>,
    pub pending_owners: HashMap<ActorId, PendingCheckOwner>,
    pub plans: HashMap<ActorId, Vec<DependencyPlanRegistration>>,
    pub timed_reviews: HashMap<ActorId, DependencyTimedReview>,
    pub pending_events: HashMap<ActorId, PendingDependencyEvent>,
    pub pending_reviews: HashMap<ActorId, DependencyTimedReview>,
}

/// The registry as its contents.
pub struct DependencyRegistryView {
    pub revisions: Map<DependencySourceId, DependencyRevisionState>,
    pub tables: Map<DependencySourceId, RegistrationTableView>,
    pub pending_owners: Map<ActorId, PendingCheckOwner>,
    pub plans: Map<ActorId, Seq<DependencyPlanRegistration>>,
    pub timed_reviews: Map<ActorId, DependencyTimedReview>,
    pub pending_events: Map<ActorId, PendingDependencyEvent>,
    pub pending_reviews: Map<ActorId, DependencyTimedReview>,
}

impl View for DependencyRegistry {
    type V = DependencyRegistryView;

    open spec fn view(&self) -> DependencyRegistryView {
        DependencyRegistryView {
            revisions: self.revisions@,
            tables: tables_view(self.tables@),
            pending_owners: self.pending_owners@,
            plans: self.plans@.map_values(|p: Vec<DependencyPlanRegistration>| p@),
            timed_reviews: self.timed_reviews@,
            pending_events: self.pending_events@,
            pending_reviews: self.pending_reviews@,
        }
    }
}

/// Stored tables as their contents.
pub open spec fn tables_view(m: Map<DependencySourceId, DependencyRegistrationTable>) -> Map<
    DependencySourceId,
    RegistrationTableView,
> {
    m.map_values(|t: DependencyRegistrationTable| t@)
}

proof fn lemma_tables_view_insert(
    m: Map<DependencySourceId, DependencyRegistrationTable>,
    k: DependencySourceId,
    t: DependencyRegistrationTable,
)
    ensures
        tables_view(m.insert(k, t)) == tables_view(m).insert(k, t@),
{
    assert(tables_view(m.insert(k, t)) =~= tables_view(m).insert(k, t@));
}

proof fn lemma_tables_view_remove(m: Map<DependencySourceId, DependencyRegistrationTable>, k: DependencySourceId)
    ensures
        tables_view(m.remove(k)) == tables_view(m).remove(k),
{
    assert(tables_view(m.remove(k)) =~= tables_view(m).remove(k));
}

/// The revision state of a source that has none stored.
pub open spec fn initial_revision() -> DependencyRevisionState {
    DependencyRevisionState { revision: 0, exhausted: false, scan_target: None, scan_cursor: 0, scan_end: 0 }
}

/// A table without registrations.
pub open spec fn empty_table_view() -> RegistrationTableView {
    RegistrationTableView {
        header: DependencyRegistrationHeader { count: 0, free_count: 0, next_index: 0 },
        free_positions: Map::empty(),
        pages: Map::empty(),
        positions: Map::empty(),
        registrations: Map::empty(),
    }
}

/// The revision state of `source`.
pub open spec fn revision_of(v: DependencyRegistryView, source: DependencySourceId) -> DependencyRevisionState {
    if v.revisions.contains_key(source) {
        v.revisions[source]
    } else {
        initial_revision()
    }
}

/// The registration table of `source`.
pub open spec fn table_of(v: DependencyRegistryView, source: DependencySourceId) -> RegistrationTableView {
    if v.tables.contains_key(source) {
        v.tables[source]
    } else {
        empty_table_view()
    }
}

/// The stored pending owner of `id`.
pub open spec fn pending_of(v: DependencyRegistryView, id: ActorId) -> Option<PendingCheckOwner> {
    if v.pending_owners.contains_key(id) {
        Some(v.pending_owners[id])
    } else {
        None
    }
}

/// Registering `owner` on `source` at `revision` reaches the write of a new registration: the
/// owner has none there and nothing refuses the install.
pub open spec fn install_reached(
    v: DependencyRegistryView,
    source: DependencySourceId,
    owner: PendingCheckOwner,
    revision: u64,
    max_active_actors: u32,
) -> bool {
    let t = table_of(v, source);
    let id = owner.actor.actor_id;
    !t.registrations.contains_key(id) && install_refusal(
        t,
        owner,
        revision,
        pending_of(v, id),
        revision_of(v, source),
        max_active_actors,
        true,
    ) is None
}

/// The slot a new registration of `owner` on `source` would take lies within its page, where
/// the registration gets that far.
pub open spec fn install_fits_where_reached(
    v: DependencyRegistryView,
    source: DependencySourceId,
    owner: PendingCheckOwner,
    revision: u64,
    max_active_actors: u32,
) -> bool {
    install_reached(v, source, owner, revision, max_active_actors) ==> install_slot_fits(
        table_of(v, source),
        revision_of(v, source).scan_target is Some,
    )
}

/// Every desired source that a plan commit reaches with a new registration has room for it in
/// its page.
#[verifier::opaque]
pub open spec fn plan_installs_fit(
    v: DependencyRegistryView,
    owner: PendingCheckOwner,
    desired: Seq<DependencyPlanSource>,
    max_active_actors: u32,
) -> bool {
    forall|i: int|
        0 <= i < desired.len() && register_desired(v, owner, desired, max_active_actors, i as nat).error is None
            ==> install_fits_where_reached(
            v,
            #[trigger] desired[i].source,
            owner,
            desired[i].observed_revision,
            max_active_actors,
        )
}

/// A registration result that wrote the table.
pub open spec fn wrote(r: Result<DependencyRegistrationMutation, DependencyRegistrationError>) -> bool {
    r is Ok && !(r->Ok_0 is Unchanged)
}

/// `v` with `t` stored as the table of `source` where `r` says it was written.
pub open spec fn store_table(
    v: DependencyRegistryView,
    source: DependencySourceId,
    t: RegistrationTableView,
    r: Result<DependencyRegistrationMutation, DependencyRegistrationError>,
) -> DependencyRegistryView {
    if wrote(r) {
        DependencyRegistryView { tables: v.tables.insert(source, t), ..v }
    } else {
        v
    }
}

/// `owner`'s registration on `source` at `revision`: a replacement of its current registration
/// there, else an install.
pub open spec fn register_on(
    v: DependencyRegistryView,
    source: DependencySourceId,
    owner: PendingCheckOwner,
    revision: u64,
    max_active_actors: u32,
) -> (Result<DependencyRegistrationMutation, DependencyRegistrationError>, DependencyRegistryView) {
    let t = table_of(v, source);
    let id = owner.actor.actor_id;
    let st = revision_of(v, source);
    let (r, t2) = if t.registrations.contains_key(id) {
        spec_replace(t, t.registrations[id], owner, revision, pending_of(v, id), st, true)
    } else {
        spec_install(t, owner, revision, pending_of(v, id), st, max_active_actors, true)
    };
    (r, store_table(v, source, t2, r))
}

/// Result and new registry of committing one negative evaluation of `source` at
/// `observed_revision` for `owner`.
pub open spec fn negative_evaluation(
    v: DependencyRegistryView,
    source: DependencySourceId,
    owner: PendingCheckOwner,
    observed_revision: u64,
    max_active_actors: u32,
    transactional: bool,
) -> (Result<DependencyRegistrationMutation, DependencyRegistrationError>, DependencyRegistryView) {
    let st = revision_of(v, source);
    if !transactional {
        (Err(DependencyRegistrationError::TransactionRequired), v)
    } else if st.exhausted {
        (Err(DependencyRegistrationError::SourceExhausted), v)
    } else if st.revision != observed_revision {
        (Err(DependencyRegistrationError::RevisionMismatch), v)
    } else {
        register_on(v, source, owner, observed_revision, max_active_actors)
    }
}

#[derive(Clone, Copy, Debug, PartialEq, Eq, Structural)]
pub enum DependencyTimedReviewMutation {
    Absent,
    Installed,
    Retained,
    Replaced,
    Removed,
}

/// What committing a dependency plan did: registrations installed, left unchanged, replaced
/// and removed, and what became of the timed review.
#[derive(Clone, Copy, Debug, PartialEq, Eq, Structural)]
pub struct DependencyPlanMutation {
    pub installed: u32,
    pub retained: u32,
    pub replaced: u32,
    pub removed: u32,
    pub timed_review: DependencyTimedReviewMutation,
}

/// An earlier entry of `desired` than the one at `i` names the same source.
pub open spec fn repeats_earlier(desired: Seq<DependencyPlanSource>, i: int) -> bool {
    exists|j: int| 0 <= j < i && #[trigger] desired[j].source == desired[i].source
}

/// Some entry of `desired` names `source`.
pub open spec fn desires_source(desired: Seq<DependencyPlanSource>, source: DependencySourceId) -> bool {
    exists|j: int| 0 <= j < desired.len() && #[trigger] desired[j].source == source
}

/// The first refusal among the first `n` entries of `desired`: a repeated source, an exhausted
/// source, or a source whose revision is not the observed one.
pub open spec fn desired_refusal(v: DependencyRegistryView, desired: Seq<DependencyPlanSource>, n: nat) -> Option<
    DependencyRegistrationError,
>
    decreases n,
{
    if n == 0 {
        None
    } else {
        match desired_refusal(v, desired, (n - 1) as nat) {
            Some(e) => Some(e),
            None => {
                let entry = desired[n - 1];
                if repeats_earlier(desired, n - 1) {
                    Some(DependencyRegistrationError::DuplicateSource)
                } else if revision_of(v, entry.source).exhausted {
                    Some(DependencyRegistrationError::SourceExhausted)
                } else if revision_of(v, entry.source).revision != entry.observed_revision {
                    Some(DependencyRegistrationError::RevisionMismatch)
                } else {
                    None
                }
            },
        }
    }
}

/// The first refusal among the first `n` registrations of `id`'s stored plan `stored`: one
/// that is not `id`'s current registration on its source, or not found where it is recorded.
pub open spec fn stored_plan_refusal(
    v: DependencyRegistryView,
    id: ActorId,
    stored: Seq<DependencyPlanRegistration>,
    n: nat,
) -> Option<DependencyRegistrationError>
    decreases n,
{
    if n == 0 {
        None
    } else {
        match stored_plan_refusal(v, id, stored, (n - 1) as nat) {
            Some(e) => Some(e),
            None => {
                let reg = stored[n - 1];
                let t = table_of(v, reg.source);
                if reg.handle.actor.actor_id != id || !maps_to(t.registrations, id, reg.handle) {
                    Some(DependencyRegistrationError::StoredPlanMismatch)
                } else {
                    match spec_position(t, id, reg.handle) {
                        Err(e) => Some(e),
                        Ok(_) => None,
                    }
                }
            },
        }
    }
}

/// The refusal, if any, of the timed review: a stored one of another Actor, or a deadline that
/// is not in the future of its clock (`current_tick` is `None` where the tick clock cannot be
/// read).
pub open spec fn timed_refusal(
    v: DependencyRegistryView,
    owner: PendingCheckOwner,
    timed_review: Option<WakeupKey>,
    current_block: BlockNumber,
    current_tick: Option<u64>,
) -> Option<DependencyRegistrationError> {
    let id = owner.actor.actor_id;
    if v.timed_reviews.contains_key(id) && v.timed_reviews[id].owner.actor != owner.actor {
        Some(DependencyRegistrationError::StoredPlanMismatch)
    } else {
        match timed_review {
            None => None,
            Some(WakeupKey::Block(b)) => if b > current_block {
                None
            } else {
                Some(DependencyRegistrationError::DeadlineNotFuture)
            },
            Some(WakeupKey::Tick(t)) => match current_tick {
                None => Some(DependencyRegistrationError::ClockUnavailable),
                Some(now) => if t > now {
                    None
                } else {
                    Some(DependencyRegistrationError::DeadlineNotFuture)
                },
            },
        }
    }
}

/// The handle of the first registration of `stored` on `source`, if any.
pub open spec fn stored_handle_on(stored: Seq<DependencyPlanRegistration>, source: DependencySourceId) -> Option<
    DependencyRegistrationHandle,
> {
    if plan_has_source(stored, source) {
        Some(stored[first_on_source(stored, source)].handle)
    } else {
        None
    }
}

/// The registration of `id` on table `t`, if any.
pub open spec fn registration_in(t: RegistrationTableView, id: ActorId) -> Option<DependencyRegistrationHandle> {
    if t.registrations.contains_key(id) {
        Some(t.registrations[id])
    } else {
        None
    }
}

/// The first refusal among the first `n` entries of `desired` against `id`'s stored plan `stored`: a
/// current registration that is not the one the stored plan holds, or a source with no room
/// for a new registration.
pub open spec fn capacity_refusal(
    v: DependencyRegistryView,
    id: ActorId,
    desired: Seq<DependencyPlanSource>,
    stored: Seq<DependencyPlanRegistration>,
    max_active_actors: u32,
    n: nat,
) -> Option<DependencyRegistrationError>
    decreases n,
{
    if n == 0 {
        None
    } else {
        match capacity_refusal(v, id, desired, stored, max_active_actors, (n - 1) as nat) {
            Some(e) => Some(e),
            None => {
                let entry = desired[n - 1];
                let t = table_of(v, entry.source);
                let h = t.header;
                let current = registration_in(t, id);
                if current != stored_handle_on(stored, entry.source) {
                    Some(DependencyRegistrationError::StoredPlanMismatch)
                } else if current is None && (h.count >= max_active_actors || (revision_of(
                    v,
                    entry.source,
                ).scan_target is Some && h.next_index >= max_active_actors) || (h.free_count == 0 && h.next_index
                    >= max_active_actors)) {
                    Some(DependencyRegistrationError::CapacityExceeded)
                } else {
                    None
                }
            },
        }
    }
}

/// The refusal, if any, of committing `desired` as `owner`'s plan before anything is written.
pub open spec fn plan_refusal(
    v: DependencyRegistryView,
    owner: PendingCheckOwner,
    desired: Seq<DependencyPlanSource>,
    timed_review: Option<WakeupKey>,
    current_block: BlockNumber,
    current_tick: Option<u64>,
    max_active_actors: u32,
    max_contract_steps: u32,
    transactional: bool,
) -> Option<DependencyRegistrationError> {
    let id = owner.actor.actor_id;
    let stored = plan_of(v.plans, id);
    if !transactional {
        Some(DependencyRegistrationError::TransactionRequired)
    } else if desired.len() > max_contract_steps {
        Some(DependencyRegistrationError::PlanTooLarge)
    } else if pending_of(v, id) != Some(owner) {
        Some(DependencyRegistrationError::PendingOwnerMismatch)
    } else if desired_refusal(v, desired, desired.len()) is Some {
        desired_refusal(v, desired, desired.len())
    } else if stored_plan_refusal(v, id, stored, stored.len()) is Some {
        stored_plan_refusal(v, id, stored, stored.len())
    } else if timed_refusal(v, owner, timed_review, current_block, current_tick) is Some {
        timed_refusal(v, owner, timed_review, current_block, current_tick)
    } else {
        capacity_refusal(v, id, desired, stored, max_active_actors, desired.len())
    }
}

/// Progress of a plan commit: the error it stopped at, the registry so far, and its counts.
pub struct PlanProgress {
    pub error: Option<DependencyRegistrationError>,
    pub registry: DependencyRegistryView,
    pub installed: nat,
    pub retained: nat,
    pub replaced: nat,
    pub removed: nat,
}

/// The progress `p` after registering `owner` on the source of `entry` at its observed
/// revision.
pub open spec fn register_step(
    p: PlanProgress,
    owner: PendingCheckOwner,
    entry: DependencyPlanSource,
    max_active_actors: u32,
) -> PlanProgress {
    let (r, v2) = register_on(p.registry, entry.source, owner, entry.observed_revision, max_active_actors);
    match r {
        Err(e) => PlanProgress { error: Some(e), registry: v2, ..p },
        Ok(DependencyRegistrationMutation::Installed) => PlanProgress {
            registry: v2,
            installed: p.installed + 1,
            ..p
        },
        Ok(DependencyRegistrationMutation::Unchanged) => PlanProgress { registry: v2, retained: p.retained + 1, ..p },
        Ok(DependencyRegistrationMutation::Replaced) => PlanProgress { registry: v2, replaced: p.replaced + 1, ..p },
        Ok(DependencyRegistrationMutation::Removed) => PlanProgress {
            error: Some(DependencyRegistrationError::CorruptTopology),
            registry: v2,
            ..p
        },
    }
}

/// The registry after registering `owner` on the sources of the first `n` entries of `desired`
/// in order, each at its observed revision, stopping at the first error.
pub open spec fn register_desired(
    v: DependencyRegistryView,
    owner: PendingCheckOwner,
    desired: Seq<DependencyPlanSource>,
    max_active_actors: u32,
    n: nat,
) -> PlanProgress
    decreases n,
{
    if n == 0 {
        PlanProgress { error: None, registry: v, installed: 0, retained: 0, replaced: 0, removed: 0 }
    } else {
        let p = register_desired(v, owner, desired, max_active_actors, (n - 1) as nat);
        if p.error is Some {
            p
        } else {
            register_step(p, owner, desired[n - 1], max_active_actors)
        }
    }
}

/// The progress `p` after removing the registrations among the first `n` of the stored plan
/// `stored` whose source `desired` no longer names, stopping at the first error.
pub open spec fn remove_undesired(
    p: PlanProgress,
    desired: Seq<DependencyPlanSource>,
    stored: Seq<DependencyPlanRegistration>,
    max_active_actors: u32,
    n: nat,
) -> PlanProgress
    decreases n,
{
    if n == 0 {
        p
    } else {
        let q = remove_undesired(p, desired, stored, max_active_actors, (n - 1) as nat);
        let reg = stored[n - 1];
        if q.error is Some || desires_source(desired, reg.source) {
            q
        } else {
            let (r, t2) = spec_remove(table_of(q.registry, reg.source), reg.handle, max_active_actors, true);
            let v2 = store_table(q.registry, reg.source, t2, r);
            match r {
                Err(e) => PlanProgress { error: Some(e), registry: v2, ..q },
                Ok(_) => if q.removed >= u32::MAX {
                    PlanProgress { error: Some(DependencyRegistrationError::CapacityExceeded), registry: v2, ..q }
                } else {
                    PlanProgress { registry: v2, removed: q.removed + 1, ..q }
                },
            }
        }
    }
}

/// What becomes of `id`'s stored timed review `stored` when `owner` commits `timed_review`.
pub open spec fn timed_review_change(
    stored: Option<DependencyTimedReview>,
    owner: PendingCheckOwner,
    timed_review: Option<WakeupKey>,
) -> DependencyTimedReviewMutation {
    match (stored, timed_review) {
        (None, None) => DependencyTimedReviewMutation::Absent,
        (None, Some(_)) => DependencyTimedReviewMutation::Installed,
        (Some(current), Some(deadline)) => if current == (DependencyTimedReview { owner, deadline }) {
            DependencyTimedReviewMutation::Retained
        } else {
            DependencyTimedReviewMutation::Replaced
        },
        (Some(_), None) => DependencyTimedReviewMutation::Removed,
    }
}

/// The timed reviews once `owner` commits `timed_review`.
pub open spec fn timed_reviews_after(
    reviews: Map<ActorId, DependencyTimedReview>,
    owner: PendingCheckOwner,
    timed_review: Option<WakeupKey>,
) -> Map<ActorId, DependencyTimedReview> {
    match timed_review {
        Some(deadline) => reviews.insert(owner.actor.actor_id, DependencyTimedReview { owner, deadline }),
        None => reviews.remove(owner.actor.actor_id),
    }
}

/// The plan `owner` stores for `desired`: one registration per entry, at its observed revision.
pub open spec fn plan_for(owner: PendingCheckOwner, desired: Seq<DependencyPlanSource>) -> Seq<
    DependencyPlanRegistration,
> {
    Seq::new(
        desired.len(),
        |i: int| DependencyPlanRegistration { source: desired[i].source, handle: handle_of(owner, desired[i].observed_revision) },
    )
}

/// The stored timed review of `id`, if any.
pub open spec fn timed_review_of(v: DependencyRegistryView, id: ActorId) -> Option<DependencyTimedReview> {
    if v.timed_reviews.contains_key(id) {
        Some(v.timed_reviews[id])
    } else {
        None
    }
}

/// Result and new registry of committing `desired` as `owner`'s complete dependency plan with
/// `timed_review`.
#[verifier::opaque]
pub open spec fn plan_commit(
    v: DependencyRegistryView,
    owner: PendingCheckOwner,
    desired: Seq<DependencyPlanSource>,
    timed_review: Option<WakeupKey>,
    current_block: BlockNumber,
    current_tick: Option<u64>,
    max_active_actors: u32,
    max_contract_steps: u32,
    transactional: bool,
) -> (Result<DependencyPlanMutation, DependencyRegistrationError>, DependencyRegistryView) {
    let id = owner.actor.actor_id;
    let stored = plan_of(v.plans, id);
    match plan_refusal(
        v,
        owner,
        desired,
        timed_review,
        current_block,
        current_tick,
        max_active_actors,
        max_contract_steps,
        transactional,
    ) {
        Some(e) => (Err(e), v),
        None => {
            let p = remove_undesired(
                register_desired(v, owner, desired, max_active_actors, desired.len()),
                desired,
                stored,
                max_active_actors,
                stored.len(),
            );
            match p.error {
                Some(e) => (Err(e), p.registry),
                None => (
                    Ok(
                        DependencyPlanMutation {
                            installed: p.installed as u32,
                            retained: p.retained as u32,
                            replaced: p.replaced as u32,
                            removed: p.removed as u32,
                            timed_review: timed_review_change(timed_review_of(v, id), owner, timed_review),
                        },
                    ),
                    DependencyRegistryView {
                        timed_reviews: timed_reviews_after(p.registry.timed_reviews, owner, timed_review),
                        plans: p.registry.plans.insert(id, plan_for(owner, desired)),
                        ..p.registry
                    },
                ),
            }
        },
    }
}

/// Every check before the plan commit passes for consuming the pending event `expected`: the
/// event is stored, its owner is the pending owner, its source is live and at least at its
/// revision, and the owner's registration there has acknowledged it.
pub open spec fn event_reaches_commit(v: DependencyRegistryView, expected: PendingDependencyEvent, transactional: bool) -> bool {
    let owner = expected.owner;
    let id = owner.actor.actor_id;
    let st = revision_of(v, expected.source);
    let current = registration_in(table_of(v, expected.source), id);
    &&& transactional
    &&& maps_to(v.pending_events, id, expected)
    &&& pending_of(v, id) == Some(owner)
    &&& !st.exhausted
    &&& st.revision >= expected.revision
    &&& current is Some
    &&& current->Some_0.actor == owner.actor
    &&& current->Some_0.plan_revision == owner.plan_revision
    &&& current->Some_0.acknowledged_revision >= expected.revision
}

/// Result and new registry of consuming the pending event `expected` by committing `desired`
/// as its owner's plan.
pub open spec fn event_consumption(
    v: DependencyRegistryView,
    expected: PendingDependencyEvent,
    desired: Seq<DependencyPlanSource>,
    timed_review: Option<WakeupKey>,
    current_block: BlockNumber,
    current_tick: Option<u64>,
    max_active_actors: u32,
    max_contract_steps: u32,
    transactional: bool,
) -> (Result<DependencyPlanMutation, DependencyRegistrationError>, DependencyRegistryView) {
    let owner = expected.owner;
    let id = owner.actor.actor_id;
    let st = revision_of(v, expected.source);
    let current = registration_in(table_of(v, expected.source), id);
    if !transactional {
        (Err(DependencyRegistrationError::TransactionRequired), v)
    } else if !v.pending_events.contains_key(id) {
        (Err(DependencyRegistrationError::PendingEventMissing), v)
    } else if v.pending_events[id] != expected {
        (Err(DependencyRegistrationError::PendingEventMismatch), v)
    } else if pending_of(v, id) != Some(owner) {
        (Err(DependencyRegistrationError::PendingOwnerMismatch), v)
    } else if st.exhausted {
        (Err(DependencyRegistrationError::SourceExhausted), v)
    } else if st.revision < expected.revision {
        (Err(DependencyRegistrationError::RevisionMismatch), v)
    } else if current is None {
        (Err(DependencyRegistrationError::RegistrationMissing), v)
    } else if current->Some_0.actor != owner.actor || current->Some_0.plan_revision != owner.plan_revision
        || current->Some_0.acknowledged_revision < expected.revision {
        (Err(DependencyRegistrationError::CurrentRegistrationMismatch), v)
    } else {
        let (r, w) = plan_commit(
            v,
            owner,
            desired,
            timed_review,
            current_block,
            current_tick,
            max_active_actors,
            max_contract_steps,
            true,
        );
        if r is Err {
            (r, w)
        } else if !maps_to(w.pending_events, id, expected) {
            (Err(DependencyRegistrationError::PendingEventMismatch), w)
        } else {
            (r, DependencyRegistryView { pending_events: w.pending_events.remove(id), ..w })
        }
    }
}

/// Result and new registry of consuming the pending review `expected` by committing `desired`
/// as its owner's plan.
pub open spec fn review_consumption(
    v: DependencyRegistryView,
    expected: DependencyTimedReview,
    desired: Seq<DependencyPlanSource>,
    timed_review: Option<WakeupKey>,
    current_block: BlockNumber,
    current_tick: Option<u64>,
    max_active_actors: u32,
    max_contract_steps: u32,
    transactional: bool,
) -> (Result<DependencyPlanMutation, DependencyRegistrationError>, DependencyRegistryView) {
    let id = expected.owner.actor.actor_id;
    if !transactional {
        (Err(DependencyRegistrationError::TransactionRequired), v)
    } else if !v.pending_reviews.contains_key(id) {
        (Err(DependencyRegistrationError::PendingReviewMissing), v)
    } else if v.pending_reviews[id] != expected {
        (Err(DependencyRegistrationError::PendingReviewMismatch), v)
    } else {
        let (r, w) = plan_commit(
            v,
            expected.owner,
            desired,
            timed_review,
            current_block,
            current_tick,
            max_active_actors,
            max_contract_steps,
            true,
        );
        if r is Err {
            (r, w)
        } else if !maps_to(w.pending_reviews, id, expected) {
            (Err(DependencyRegistrationError::PendingReviewMismatch), w)
        } else {
            (r, DependencyRegistryView { pending_reviews: w.pending_reviews.remove(id), ..w })
        }
    }
}

#[derive(Clone, Copy, Debug, PartialEq, Eq, Structural)]
pub enum DependencyDueReviewError {
    TransactionRequired,
    PendingOwnerMissing,
    PendingOwnerMismatch,
    ClockUnavailable,
    NotDue,
    DestinationOccupied,
    ReviewMissing,
    ReviewMismatch,
}

#[derive(Clone, Copy, Debug, PartialEq, Eq, Structural)]
pub enum DependencyDueReviewMutation {
    Published,
    AlreadyPending,
}

/// Result and new registry of publishing the due timed review `expected` as its owner's pending
/// review.
pub open spec fn due_review_publication(
    v: DependencyRegistryView,
    expected: DependencyTimedReview,
    current_block: BlockNumber,
    current_tick: Option<u64>,
    transactional: bool,
) -> (Result<DependencyDueReviewMutation, DependencyDueReviewError>, DependencyRegistryView) {
    let id = expected.owner.actor.actor_id;
    if !transactional {
        (Err(DependencyDueReviewError::TransactionRequired), v)
    } else if !v.pending_owners.contains_key(id) {
        (Err(DependencyDueReviewError::PendingOwnerMissing), v)
    } else if v.pending_owners[id] != expected.owner {
        (Err(DependencyDueReviewError::PendingOwnerMismatch), v)
    } else {
        match expected.deadline {
            WakeupKey::Tick(_) if current_tick is None => (Err(DependencyDueReviewError::ClockUnavailable), v),
            _ => if !(match expected.deadline {
                WakeupKey::Block(b) => b <= current_block,
                WakeupKey::Tick(t) => t <= current_tick->Some_0,
            }) {
                (Err(DependencyDueReviewError::NotDue), v)
            } else if v.pending_events.contains_key(id) {
                (Err(DependencyDueReviewError::DestinationOccupied), v)
            } else if v.pending_reviews.contains_key(id) {
                if v.pending_reviews[id] == expected && !v.timed_reviews.contains_key(id) {
                    (Ok(DependencyDueReviewMutation::AlreadyPending), v)
                } else {
                    (Err(DependencyDueReviewError::DestinationOccupied), v)
                }
            } else if !v.timed_reviews.contains_key(id) {
                (Err(DependencyDueReviewError::ReviewMissing), v)
            } else if v.timed_reviews[id] != expected {
                (Err(DependencyDueReviewError::ReviewMismatch), v)
            } else {
                (
                    Ok(DependencyDueReviewMutation::Published),
                    DependencyRegistryView {
                        pending_reviews: v.pending_reviews.insert(id, expected),
                        timed_reviews: v.timed_reviews.remove(id),
                        ..v
                    },
                )
            },
        }
    }
}

/// `w` differs from `v` at most in its tables.
pub open spec fn same_but_tables(w: DependencyRegistryView, v: DependencyRegistryView) -> bool {
    w == (DependencyRegistryView { tables: w.tables, ..v })
}

proof fn lemma_register_on_frame(
    v: DependencyRegistryView,
    source: DependencySourceId,
    owner: PendingCheckOwner,
    revision: u64,
    max_active_actors: u32,
)
    ensures
        same_but_tables(register_on(v, source, owner, revision, max_active_actors).1, v),
        forall|s: DependencySourceId|
            s != source ==> #[trigger] table_of(register_on(v, source, owner, revision, max_active_actors).1, s)
                == table_of(v, s),
{
}

proof fn lemma_desired_refusal_stable(v: DependencyRegistryView, desired: Seq<DependencyPlanSource>, m: nat, n: nat)
    requires
        m <= n,
        desired_refusal(v, desired, m) is Some,
    ensures
        desired_refusal(v, desired, n) == desired_refusal(v, desired, m),
    decreases n,
{
    if m < n {
        lemma_desired_refusal_stable(v, desired, m, (n - 1) as nat);
    }
}

proof fn lemma_stored_plan_refusal_stable(
    v: DependencyRegistryView,
    id: ActorId,
    stored: Seq<DependencyPlanRegistration>,
    m: nat,
    n: nat,
)
    requires
        m <= n,
        stored_plan_refusal(v, id, stored, m) is Some,
    ensures
        stored_plan_refusal(v, id, stored, n) == stored_plan_refusal(v, id, stored, m),
    decreases n,
{
    if m < n {
        lemma_stored_plan_refusal_stable(v, id, stored, m, (n - 1) as nat);
    }
}

proof fn lemma_capacity_refusal_stable(
    v: DependencyRegistryView,
    id: ActorId,
    desired: Seq<DependencyPlanSource>,
    stored: Seq<DependencyPlanRegistration>,
    max_active_actors: u32,
    m: nat,
    n: nat,
)
    requires
        m <= n,
        capacity_refusal(v, id, desired, stored, max_active_actors, m) is Some,
    ensures
        capacity_refusal(v, id, desired, stored, max_active_actors, n) == capacity_refusal(
            v,
            id,
            desired,
            stored,
            max_active_actors,
            m,
        ),
    decreases n,
{
    if m < n {
        lemma_capacity_refusal_stable(v, id, desired, stored, max_active_actors, m, (n - 1) as nat);
    }
}

proof fn lemma_register_desired_stable(
    v: DependencyRegistryView,
    owner: PendingCheckOwner,
    desired: Seq<DependencyPlanSource>,
    max_active_actors: u32,
    m: nat,
    n: nat,
)
    requires
        m <= n,
        register_desired(v, owner, desired, max_active_actors, m).error is Some,
    ensures
        register_desired(v, owner, desired, max_active_actors, n) == register_desired(
            v,
            owner,
            desired,
            max_active_actors,
            m,
        ),
    decreases n,
{
    if m < n {
        lemma_register_desired_stable(v, owner, desired, max_active_actors, m, (n - 1) as nat);
    }
}

proof fn lemma_remove_undesired_stable(
    p: PlanProgress,
    desired: Seq<DependencyPlanSource>,
    stored: Seq<DependencyPlanRegistration>,
    max_active_actors: u32,
    m: nat,
    n: nat,
)
    requires
        m <= n,
        remove_undesired(p, desired, stored, max_active_actors, m).error is Some,
    ensures
        remove_undesired(p, desired, stored, max_active_actors, n) == remove_undesired(
            p,
            desired,
            stored,
            max_active_actors,
            m,
        ),
    decreases n,
{
    if m < n {
        lemma_remove_undesired_stable(p, desired, stored, max_active_actors, m, (n - 1) as nat);
    }
}

proof fn lemma_desired_distinct(v: DependencyRegistryView, desired: Seq<DependencyPlanSource>, n: nat, i: int)
    requires
        desired_refusal(v, desired, n) is None,
        0 <= i < n,
    ensures
        !repeats_earlier(desired, i),
        !revision_of(v, desired[i].source).exhausted,
        revision_of(v, desired[i].source).revision == desired[i].observed_revision,
    decreases n,
{
    if i < n - 1 {
        lemma_desired_distinct(v, desired, (n - 1) as nat, i);
    }
}

proof fn lemma_register_desired_frame(
    v: DependencyRegistryView,
    owner: PendingCheckOwner,
    desired: Seq<DependencyPlanSource>,
    max_active_actors: u32,
    n: nat,
)
    requires
        n <= desired.len(),
    ensures
        same_but_tables(register_desired(v, owner, desired, max_active_actors, n).registry, v),
        register_desired(v, owner, desired, max_active_actors, n).installed + register_desired(
            v,
            owner,
            desired,
            max_active_actors,
            n,
        ).retained + register_desired(v, owner, desired, max_active_actors, n).replaced <= n,
        register_desired(v, owner, desired, max_active_actors, n).removed == 0,
        forall|s: DependencySourceId|
            (forall|j: int| 0 <= j < n ==> #[trigger] desired[j].source != s) ==> #[trigger] table_of(
                register_desired(v, owner, desired, max_active_actors, n).registry,
                s,
            ) == table_of(v, s),
    decreases n,
{
    if n > 0 {
        lemma_register_desired_frame(v, owner, desired, max_active_actors, (n - 1) as nat);
        let p = register_desired(v, owner, desired, max_active_actors, (n - 1) as nat);
        let entry = desired[n - 1];
        lemma_register_on_frame(p.registry, entry.source, owner, entry.observed_revision, max_active_actors);
        assert forall|s: DependencySourceId|
            (forall|j: int| 0 <= j < n ==> #[trigger] desired[j].source != s) implies #[trigger] table_of(
            register_desired(v, owner, desired, max_active_actors, n).registry,
            s,
        ) == table_of(v, s) by {
            assert(desired[n - 1].source != s);
            assert(forall|j: int| 0 <= j < n - 1 ==> #[trigger] desired[j].source != s);
        }
    }
}

proof fn lemma_remove_undesired_frame(
    p: PlanProgress,
    desired: Seq<DependencyPlanSource>,
    stored: Seq<DependencyPlanRegistration>,
    max_active_actors: u32,
    n: nat,
)
    requires
        n <= stored.len(),
    ensures
        same_but_tables(remove_undesired(p, desired, stored, max_active_actors, n).registry, p.registry),
        remove_undesired(p, desired, stored, max_active_actors, n).installed == p.installed,
        remove_undesired(p, desired, stored, max_active_actors, n).retained == p.retained,
        remove_undesired(p, desired, stored, max_active_actors, n).replaced == p.replaced,
        remove_undesired(p, desired, stored, max_active_actors, n).removed <= p.removed + n,
        p.error is Some ==> remove_undesired(p, desired, stored, max_active_actors, n) == p,
    decreases n,
{
    if n > 0 {
        lemma_remove_undesired_frame(p, desired, stored, max_active_actors, (n - 1) as nat);
    }
}

proof fn lemma_register_on_sets(
    v: DependencyRegistryView,
    source: DependencySourceId,
    owner: PendingCheckOwner,
    revision: u64,
    max_active_actors: u32,
)
    requires
        register_on(v, source, owner, revision, max_active_actors).0 is Ok,
    ensures
        registration_in(table_of(register_on(v, source, owner, revision, max_active_actors).1, source), owner.actor.actor_id)
            == Some(handle_of(owner, revision)),
{
    let t = table_of(v, source);
    let id = owner.actor.actor_id;
    let st = revision_of(v, source);
    assert(registration_validation(owner, pending_of(v, id), st, revision) is Ok ==> registration_validation(
        owner,
        pending_of(v, id),
        st,
        revision,
    ) == Ok::<DependencyRegistrationHandle, DependencyRegistrationError>(handle_of(owner, revision)));
}

proof fn lemma_register_step_sets(
    p: PlanProgress,
    owner: PendingCheckOwner,
    entry: DependencyPlanSource,
    max_active_actors: u32,
)
    requires
        register_step(p, owner, entry, max_active_actors).error is None,
    ensures
        registration_in(
            table_of(register_step(p, owner, entry, max_active_actors).registry, entry.source),
            owner.actor.actor_id,
        ) == Some(handle_of(owner, entry.observed_revision)),
{
    lemma_register_on_sets(p.registry, entry.source, owner, entry.observed_revision, max_active_actors);
}

/// A committed negative evaluation leaves the owner registered on the source at exactly the
/// observed revision, and changes no other source's table or anything else.
pub proof fn lemma_negative_evaluation_registers(
    v: DependencyRegistryView,
    source: DependencySourceId,
    owner: PendingCheckOwner,
    observed_revision: u64,
    max_active_actors: u32,
)
    requires
        negative_evaluation(v, source, owner, observed_revision, max_active_actors, true).0 is Ok,
    ensures
        ({
            let w = negative_evaluation(v, source, owner, observed_revision, max_active_actors, true).1;
            &&& registration_in(table_of(w, source), owner.actor.actor_id) == Some(
                handle_of(owner, observed_revision),
            )
            &&& same_but_tables(w, v)
            &&& forall|s: DependencySourceId| s != source ==> #[trigger] table_of(w, s) == table_of(v, s)
        }),
{
    lemma_register_on_sets(v, source, owner, observed_revision, max_active_actors);
    lemma_register_on_frame(v, source, owner, observed_revision, max_active_actors);
}

proof fn lemma_register_desired_sets(
    v: DependencyRegistryView,
    owner: PendingCheckOwner,
    desired: Seq<DependencyPlanSource>,
    max_active_actors: u32,
    n: nat,
)
    requires
        n <= desired.len(),
        desired_refusal(v, desired, desired.len()) is None,
        register_desired(v, owner, desired, max_active_actors, n).error is None,
    ensures
        forall|i: int|
            0 <= i < n ==> registration_in(
                table_of(register_desired(v, owner, desired, max_active_actors, n).registry, #[trigger] desired[i].source),
                owner.actor.actor_id,
            ) == Some(handle_of(owner, desired[i].observed_revision)),
    decreases n,
{
    if n > 0 {
        let p = register_desired(v, owner, desired, max_active_actors, (n - 1) as nat);
        lemma_register_desired_sets(v, owner, desired, max_active_actors, (n - 1) as nat);
        let entry = desired[n - 1];
        lemma_register_step_sets(p, owner, entry, max_active_actors);
        lemma_register_on_frame(p.registry, entry.source, owner, entry.observed_revision, max_active_actors);
        lemma_desired_distinct(v, desired, desired.len(), n - 1);
        assert forall|i: int| 0 <= i < n implies registration_in(
            table_of(register_desired(v, owner, desired, max_active_actors, n).registry, #[trigger] desired[i].source),
            owner.actor.actor_id,
        ) == Some(handle_of(owner, desired[i].observed_revision)) by {
            if i < n - 1 {
                if desired[i].source == entry.source {
                    assert(repeats_earlier(desired, n - 1));
                }
            }
        }
    }
}

proof fn lemma_remove_undesired_effects(
    p: PlanProgress,
    desired: Seq<DependencyPlanSource>,
    stored: Seq<DependencyPlanRegistration>,
    max_active_actors: u32,
    n: nat,
)
    requires
        n <= stored.len(),
        remove_undesired(p, desired, stored, max_active_actors, n).error is None,
    ensures
        forall|s: DependencySourceId|
            desires_source(desired, s) ==> #[trigger] table_of(
                remove_undesired(p, desired, stored, max_active_actors, n).registry,
                s,
            ) == table_of(p.registry, s),
        forall|j: int|
            0 <= j < n && !desires_source(desired, #[trigger] stored[j].source) ==> registration_in(
                table_of(remove_undesired(p, desired, stored, max_active_actors, n).registry, stored[j].source),
                stored[j].handle.actor.actor_id,
            ) is None,
    decreases n,
{
    if n > 0 {
        let q = remove_undesired(p, desired, stored, max_active_actors, (n - 1) as nat);
        lemma_remove_undesired_frame(p, desired, stored, max_active_actors, (n - 1) as nat);
        if q.error is Some {
            lemma_remove_undesired_frame(p, desired, stored, max_active_actors, n);
        }
        lemma_remove_undesired_effects(p, desired, stored, max_active_actors, (n - 1) as nat);
        let reg = stored[n - 1];
        let after = remove_undesired(p, desired, stored, max_active_actors, n);
        assert forall|s: DependencySourceId| desires_source(desired, s) implies #[trigger] table_of(after.registry, s)
            == table_of(p.registry, s) by {
            if !desires_source(desired, reg.source) {
                assert(s != reg.source);
                assert(table_of(after.registry, s) == table_of(q.registry, s));
            }
        }
        assert forall|j: int|
            0 <= j < n && !desires_source(desired, #[trigger] stored[j].source) implies registration_in(
            table_of(after.registry, stored[j].source),
            stored[j].handle.actor.actor_id,
        ) is None by {
            if j < n - 1 && !desires_source(desired, reg.source) && stored[j].source == reg.source {
                let t = table_of(q.registry, reg.source);
                if reg.handle.actor.actor_id == stored[j].handle.actor.actor_id {
                    assert(remove_refusal(t, reg.handle, max_active_actors, true) is Some);
                }
            }
        }
    }
}

proof fn lemma_stored_plan_owned(v: DependencyRegistryView, id: ActorId, stored: Seq<DependencyPlanRegistration>, n: nat)
    requires
        n <= stored.len(),
        stored_plan_refusal(v, id, stored, n) is None,
    ensures
        forall|j: int| 0 <= j < n ==> (#[trigger] stored[j]).handle.actor.actor_id == id,
    decreases n,
{
    if n > 0 {
        lemma_stored_plan_owned(v, id, stored, (n - 1) as nat);
    }
}

/// A committed dependency plan is in force as a whole: the owner is registered on every source
/// of the plan at the revision observed for it, holds no registration on a source the previous
/// plan had and the new one drops, has the new plan stored and exactly the requested timed
/// review; the sources' revisions, the pending owners and the pending events and reviews are
/// untouched.
pub proof fn lemma_plan_commit_in_force(
    v: DependencyRegistryView,
    owner: PendingCheckOwner,
    desired: Seq<DependencyPlanSource>,
    timed_review: Option<WakeupKey>,
    current_block: BlockNumber,
    current_tick: Option<u64>,
    max_active_actors: u32,
    max_contract_steps: u32,
)
    requires
        plan_commit(
            v,
            owner,
            desired,
            timed_review,
            current_block,
            current_tick,
            max_active_actors,
            max_contract_steps,
            true,
        ).0 is Ok,
    ensures
        ({
            let w = plan_commit(
                v,
                owner,
                desired,
                timed_review,
                current_block,
                current_tick,
                max_active_actors,
                max_contract_steps,
                true,
            ).1;
            let id = owner.actor.actor_id;
            let stored = plan_of(v.plans, id);
            &&& forall|i: int|
                0 <= i < desired.len() ==> registration_in(table_of(w, #[trigger] desired[i].source), id) == Some(
                    handle_of(owner, desired[i].observed_revision),
                )
            &&& forall|j: int|
                0 <= j < stored.len() && !desires_source(desired, #[trigger] stored[j].source) ==> registration_in(
                    table_of(w, stored[j].source),
                    id,
                ) is None
            &&& w.plans.contains_key(id) && w.plans[id] == plan_for(owner, desired)
            &&& timed_review_of(w, id) == match timed_review {
                Some(deadline) => Some(DependencyTimedReview { owner, deadline }),
                None => None::<DependencyTimedReview>,
            }
            &&& w.revisions == v.revisions
            &&& w.pending_owners == v.pending_owners
            &&& w.pending_events == v.pending_events
            &&& w.pending_reviews == v.pending_reviews
        }),
{
    reveal(plan_commit);
    let id = owner.actor.actor_id;
    let stored = plan_of(v.plans, id);
    let p0 = register_desired(v, owner, desired, max_active_actors, desired.len());
    lemma_register_desired_frame(v, owner, desired, max_active_actors, desired.len());
    if p0.error is Some {
        lemma_remove_undesired_frame(p0, desired, stored, max_active_actors, stored.len());
    }
    lemma_register_desired_sets(v, owner, desired, max_active_actors, desired.len());
    lemma_remove_undesired_frame(p0, desired, stored, max_active_actors, stored.len());
    lemma_remove_undesired_effects(p0, desired, stored, max_active_actors, stored.len());
    lemma_stored_plan_owned(v, id, stored, stored.len());
    let q = remove_undesired(p0, desired, stored, max_active_actors, stored.len());
    assert forall|i: int| 0 <= i < desired.len() implies registration_in(
        table_of(q.registry, #[trigger] desired[i].source),
        id,
    ) == Some(handle_of(owner, desired[i].observed_revision)) by {
        assert(desires_source(desired, desired[i].source));
    }
}

proof fn lemma_register_on_positions(
    v: DependencyRegistryView,
    source: DependencySourceId,
    owner: PendingCheckOwner,
    revision: u64,
    max_active_actors: u32,
)
    requires
        register_on(v, source, owner, revision, max_active_actors).0 is Ok,
        install_fits_where_reached(v, source, owner, revision, max_active_actors),
    ensures
        spec_position(
            table_of(register_on(v, source, owner, revision, max_active_actors).1, source),
            owner.actor.actor_id,
            handle_of(owner, revision),
        ) is Ok,
        registration_in(table_of(register_on(v, source, owner, revision, max_active_actors).1, source), owner.actor.actor_id)
            == Some(handle_of(owner, revision)),
{
    let id = owner.actor.actor_id;
    let t = table_of(v, source);
    let st = revision_of(v, source);
    let handle = handle_of(owner, revision);
    let w = register_on(v, source, owner, revision, max_active_actors).1;
    lemma_register_on_sets(v, source, owner, revision, max_active_actors);
    assert(registration_validation(owner, pending_of(v, id), st, revision) == Ok::<
        DependencyRegistrationHandle,
        DependencyRegistrationError,
    >(handle));
    let t2 = table_of(w, source);
    if t.registrations.contains_key(id) {
        if replace_refusal(t, t.registrations[id], owner, revision, pending_of(v, id), st, true) is None {
            let pos = t.positions[id];
            assert(t2 == put_at(t, pos, handle));
            assert(slot_at(t2.pages, pos) == Some(handle));
        }
    } else {
        if install_refusal(t, owner, revision, pending_of(v, id), st, max_active_actors, true) is None {
            let pos = install_position(t.header, t.free_positions, st.scan_target is Some);
            assert(t2 == install_into(t, handle, st.scan_target is Some));
            assert(t2.positions[id] == pos);
            assert(slot_at(t2.pages, pos) == Some(handle));
        }
    }
}

/// Registering `owner` on a source where it already holds exactly `handle_of(owner, revision)`,
/// found where it is recorded, changes nothing and reports it unchanged.
proof fn lemma_register_on_retained(
    v: DependencyRegistryView,
    source: DependencySourceId,
    owner: PendingCheckOwner,
    revision: u64,
    max_active_actors: u32,
)
    requires
        registration_in(table_of(v, source), owner.actor.actor_id) == Some(handle_of(owner, revision)),
        spec_position(table_of(v, source), owner.actor.actor_id, handle_of(owner, revision)) is Ok,
        registration_validation(owner, pending_of(v, owner.actor.actor_id), revision_of(v, source), revision)
            == Ok::<DependencyRegistrationHandle, DependencyRegistrationError>(handle_of(owner, revision)),
    ensures
        register_on(v, source, owner, revision, max_active_actors) == (
            Ok::<DependencyRegistrationMutation, DependencyRegistrationError>(
                DependencyRegistrationMutation::Unchanged,
            ),
            v,
        ),
{
}

/// Committing the same negative evaluation again right after it was committed changes nothing
/// and reports the registration as unchanged.
pub proof fn lemma_negative_evaluation_idempotent(
    v: DependencyRegistryView,
    source: DependencySourceId,
    owner: PendingCheckOwner,
    observed_revision: u64,
    max_active_actors: u32,
)
    requires
        negative_evaluation(v, source, owner, observed_revision, max_active_actors, true).0 is Ok,
        install_fits_where_reached(v, source, owner, observed_revision, max_active_actors),
    ensures
        ({
            let w = negative_evaluation(v, source, owner, observed_revision, max_active_actors, true).1;
            negative_evaluation(w, source, owner, observed_revision, max_active_actors, true) == (
                Ok::<DependencyRegistrationMutation, DependencyRegistrationError>(
                    DependencyRegistrationMutation::Unchanged,
                ),
                w,
            )
        }),
{
    let id = owner.actor.actor_id;
    let st = revision_of(v, source);
    let w = negative_evaluation(v, source, owner, observed_revision, max_active_actors, true).1;
    lemma_register_on_positions(v, source, owner, observed_revision, max_active_actors);
    lemma_register_on_frame(v, source, owner, observed_revision, max_active_actors);
    assert(registration_validation(owner, pending_of(v, id), st, observed_revision) is Ok);
    assert(revision_of(w, source) == st);
    assert(pending_of(w, id) == pending_of(v, id));
    lemma_register_on_retained(w, source, owner, observed_revision, max_active_actors);
}

proof fn lemma_installs_fit_at(
    v: DependencyRegistryView,
    owner: PendingCheckOwner,
    desired: Seq<DependencyPlanSource>,
    max_active_actors: u32,
    i: int,
)
    requires
        plan_installs_fit(v, owner, desired, max_active_actors),
        0 <= i < desired.len(),
        register_desired(v, owner, desired, max_active_actors, i as nat).error is None,
    ensures
        install_fits_where_reached(v, desired[i].source, owner, desired[i].observed_revision, max_active_actors),
{
    reveal(plan_installs_fit);
}

proof fn lemma_register_desired_positions(
    v: DependencyRegistryView,
    owner: PendingCheckOwner,
    desired: Seq<DependencyPlanSource>,
    max_active_actors: u32,
    n: nat,
)
    requires
        n <= desired.len(),
        desired_refusal(v, desired, desired.len()) is None,
        register_desired(v, owner, desired, max_active_actors, n).error is None,
        plan_installs_fit(v, owner, desired, max_active_actors),
    ensures
        forall|i: int|
            0 <= i < n ==> spec_position(
                table_of(register_desired(v, owner, desired, max_active_actors, n).registry, #[trigger] desired[i].source),
                owner.actor.actor_id,
                handle_of(owner, desired[i].observed_revision),
            ) is Ok,
    decreases n,
{
    if n > 0 {
        let p = register_desired(v, owner, desired, max_active_actors, (n - 1) as nat);
        lemma_register_desired_positions(v, owner, desired, max_active_actors, (n - 1) as nat);
        lemma_register_desired_frame(v, owner, desired, max_active_actors, (n - 1) as nat);
        let entry = desired[n - 1];
        lemma_desired_distinct(v, desired, desired.len(), n - 1);
        assert forall|j: int| 0 <= j < n - 1 implies #[trigger] desired[j].source != entry.source by {
            if desired[j].source == entry.source {
                assert(repeats_earlier(desired, n - 1));
            }
        }
        assert(table_of(p.registry, entry.source) == table_of(v, entry.source));
        lemma_installs_fit_at(v, owner, desired, max_active_actors, n - 1);
        lemma_register_on_positions(p.registry, entry.source, owner, entry.observed_revision, max_active_actors);
        lemma_register_on_frame(p.registry, entry.source, owner, entry.observed_revision, max_active_actors);
    }
}

proof fn lemma_register_desired_retained(
    w: DependencyRegistryView,
    owner: PendingCheckOwner,
    desired: Seq<DependencyPlanSource>,
    max_active_actors: u32,
    n: nat,
)
    requires
        n <= desired.len(),
        forall|i: int|
            0 <= i < desired.len() ==> {
                &&& registration_in(table_of(w, #[trigger] desired[i].source), owner.actor.actor_id) == Some(
                    handle_of(owner, desired[i].observed_revision),
                )
                &&& spec_position(
                    table_of(w, desired[i].source),
                    owner.actor.actor_id,
                    handle_of(owner, desired[i].observed_revision),
                ) is Ok
                &&& registration_validation(
                    owner,
                    pending_of(w, owner.actor.actor_id),
                    revision_of(w, desired[i].source),
                    desired[i].observed_revision,
                ) == Ok::<DependencyRegistrationHandle, DependencyRegistrationError>(
                    handle_of(owner, desired[i].observed_revision),
                )
            },
    ensures
        register_desired(w, owner, desired, max_active_actors, n) == (PlanProgress {
            error: None,
            registry: w,
            installed: 0,
            retained: n,
            replaced: 0,
            removed: 0,
        }),
    decreases n,
{
    if n > 0 {
        lemma_register_desired_retained(w, owner, desired, max_active_actors, (n - 1) as nat);
        let entry = desired[n - 1];
        lemma_register_on_retained(w, entry.source, owner, entry.observed_revision, max_active_actors);
    }
}

proof fn lemma_remove_undesired_skips(
    p: PlanProgress,
    desired: Seq<DependencyPlanSource>,
    stored: Seq<DependencyPlanRegistration>,
    max_active_actors: u32,
    n: nat,
)
    requires
        n <= stored.len(),
        forall|j: int| 0 <= j < stored.len() ==> desires_source(desired, #[trigger] stored[j].source),
    ensures
        remove_undesired(p, desired, stored, max_active_actors, n) == p,
    decreases n,
{
    if n > 0 {
        lemma_remove_undesired_skips(p, desired, stored, max_active_actors, (n - 1) as nat);
        assert(desires_source(desired, stored[n - 1].source));
    }
}

proof fn lemma_desired_refusal_reads_revisions(
    v: DependencyRegistryView,
    w: DependencyRegistryView,
    desired: Seq<DependencyPlanSource>,
    n: nat,
)
    requires
        w.revisions == v.revisions,
    ensures
        desired_refusal(w, desired, n) == desired_refusal(v, desired, n),
    decreases n,
{
    if n > 0 {
        lemma_desired_refusal_reads_revisions(v, w, desired, (n - 1) as nat);
        assert(revision_of(w, desired[n - 1].source) == revision_of(v, desired[n - 1].source));
    }
}

proof fn lemma_stored_plan_holds(
    w: DependencyRegistryView,
    owner: PendingCheckOwner,
    desired: Seq<DependencyPlanSource>,
    n: nat,
)
    requires
        n <= desired.len(),
        forall|i: int|
            0 <= i < desired.len() ==> {
                &&& registration_in(table_of(w, #[trigger] desired[i].source), owner.actor.actor_id) == Some(
                    handle_of(owner, desired[i].observed_revision),
                )
                &&& spec_position(
                    table_of(w, desired[i].source),
                    owner.actor.actor_id,
                    handle_of(owner, desired[i].observed_revision),
                ) is Ok
            },
    ensures
        stored_plan_refusal(w, owner.actor.actor_id, plan_for(owner, desired), n) is None,
    decreases n,
{
    if n > 0 {
        lemma_stored_plan_holds(w, owner, desired, (n - 1) as nat);
        let i = n - 1;
        assert(registration_in(table_of(w, desired[i].source), owner.actor.actor_id) == Some(
            handle_of(owner, desired[i].observed_revision),
        ));
    }
}

proof fn lemma_capacity_holds(
    v: DependencyRegistryView,
    w: DependencyRegistryView,
    owner: PendingCheckOwner,
    desired: Seq<DependencyPlanSource>,
    max_active_actors: u32,
    n: nat,
)
    requires
        n <= desired.len(),
        desired_refusal(v, desired, desired.len()) is None,
        forall|i: int|
            0 <= i < desired.len() ==> registration_in(table_of(w, #[trigger] desired[i].source), owner.actor.actor_id)
                == Some(handle_of(owner, desired[i].observed_revision)),
    ensures
        capacity_refusal(w, owner.actor.actor_id, desired, plan_for(owner, desired), max_active_actors, n) is None,
    decreases n,
{
    if n > 0 {
        lemma_capacity_holds(v, w, owner, desired, max_active_actors, (n - 1) as nat);
        let i = n - 1;
        let plan = plan_for(owner, desired);
        lemma_desired_distinct(v, desired, desired.len(), i);
        assert forall|j: int| 0 <= j < i implies #[trigger] plan[j].source != desired[i].source by {
            if plan[j].source == desired[i].source {
                assert(desired[j].source == desired[i].source);
                assert(repeats_earlier(desired, i));
            }
        }
        lemma_first_on_source(plan, desired[i].source, i);
        assert(registration_in(table_of(w, desired[i].source), owner.actor.actor_id) == Some(
            handle_of(owner, desired[i].observed_revision),
        ));
    }
}

/// What a committed plan leaves for a second commit of it to find.
pub open spec fn plan_held(
    w: DependencyRegistryView,
    owner: PendingCheckOwner,
    desired: Seq<DependencyPlanSource>,
    timed_review: Option<WakeupKey>,
) -> bool {
    let id = owner.actor.actor_id;
    &&& pending_of(w, id) == Some(owner)
    &&& plan_of(w.plans, id) == plan_for(owner, desired)
    &&& w.plans.insert(id, plan_for(owner, desired)) == w.plans
    &&& timed_reviews_after(w.timed_reviews, owner, timed_review) == w.timed_reviews
    &&& timed_review_of(w, id) == match timed_review {
        Some(deadline) => Some(DependencyTimedReview { owner, deadline }),
        None => None::<DependencyTimedReview>,
    }
    &&& forall|i: int|
        0 <= i < desired.len() ==> {
            &&& registration_in(table_of(w, #[trigger] desired[i].source), id) == Some(
                handle_of(owner, desired[i].observed_revision),
            )
            &&& spec_position(table_of(w, desired[i].source), id, handle_of(owner, desired[i].observed_revision))
                is Ok
            &&& registration_validation(
                owner,
                pending_of(w, id),
                revision_of(w, desired[i].source),
                desired[i].observed_revision,
            ) == Ok::<DependencyRegistrationHandle, DependencyRegistrationError>(
                handle_of(owner, desired[i].observed_revision),
            )
        }
}

proof fn lemma_commit_shape(
    v: DependencyRegistryView,
    owner: PendingCheckOwner,
    desired: Seq<DependencyPlanSource>,
    timed_review: Option<WakeupKey>,
    current_block: BlockNumber,
    current_tick: Option<u64>,
    max_active_actors: u32,
    max_contract_steps: u32,
)
    requires
        plan_commit(
            v,
            owner,
            desired,
            timed_review,
            current_block,
            current_tick,
            max_active_actors,
            max_contract_steps,
            true,
        ).0 is Ok,
    ensures
        ({
            let id = owner.actor.actor_id;
            let stored = plan_of(v.plans, id);
            let p0 = register_desired(v, owner, desired, max_active_actors, desired.len());
            let q = remove_undesired(p0, desired, stored, max_active_actors, stored.len());
            &&& plan_refusal(
                v,
                owner,
                desired,
                timed_review,
                current_block,
                current_tick,
                max_active_actors,
                max_contract_steps,
                true,
            ) is None
            &&& p0.error is None
            &&& q.error is None
            &&& plan_commit(
                v,
                owner,
                desired,
                timed_review,
                current_block,
                current_tick,
                max_active_actors,
                max_contract_steps,
                true,
            ).1 == (DependencyRegistryView {
                timed_reviews: timed_reviews_after(q.registry.timed_reviews, owner, timed_review),
                plans: q.registry.plans.insert(id, plan_for(owner, desired)),
                ..q.registry
            })
        }),
{
    reveal(plan_commit);
    let id = owner.actor.actor_id;
    let stored = plan_of(v.plans, id);
    let p0 = register_desired(v, owner, desired, max_active_actors, desired.len());
    if p0.error is Some {
        lemma_remove_undesired_frame(p0, desired, stored, max_active_actors, stored.len());
    }
}

proof fn lemma_held_registrations(
    v: DependencyRegistryView,
    mid: DependencyRegistryView,
    w: DependencyRegistryView,
    owner: PendingCheckOwner,
    desired: Seq<DependencyPlanSource>,
)
    requires
        desired_refusal(v, desired, desired.len()) is None,
        w.revisions == v.revisions,
        pending_of(w, owner.actor.actor_id) == Some(owner),
        forall|i: int|
            0 <= i < desired.len() ==> #[trigger] table_of(w, desired[i].source) == table_of(mid, desired[i].source),
        forall|i: int|
            0 <= i < desired.len() ==> registration_in(table_of(mid, #[trigger] desired[i].source), owner.actor.actor_id)
                == Some(handle_of(owner, desired[i].observed_revision)),
        forall|i: int|
            0 <= i < desired.len() ==> spec_position(
                table_of(mid, #[trigger] desired[i].source),
                owner.actor.actor_id,
                handle_of(owner, desired[i].observed_revision),
            ) is Ok,
    ensures
        forall|i: int|
            0 <= i < desired.len() ==> {
                &&& registration_in(table_of(w, #[trigger] desired[i].source), owner.actor.actor_id) == Some(
                    handle_of(owner, desired[i].observed_revision),
                )
                &&& spec_position(
                    table_of(w, desired[i].source),
                    owner.actor.actor_id,
                    handle_of(owner, desired[i].observed_revision),
                ) is Ok
                &&& registration_validation(
                    owner,
                    pending_of(w, owner.actor.actor_id),
                    revision_of(w, desired[i].source),
                    desired[i].observed_revision,
                ) == Ok::<DependencyRegistrationHandle, DependencyRegistrationError>(
                    handle_of(owner, desired[i].observed_revision),
                )
            },
{
    assert forall|i: int| 0 <= i < desired.len() implies {
        &&& registration_in(table_of(w, #[trigger] desired[i].source), owner.actor.actor_id) == Some(
            handle_of(owner, desired[i].observed_revision),
        )
        &&& spec_position(
            table_of(w, desired[i].source),
            owner.actor.actor_id,
            handle_of(owner, desired[i].observed_revision),
        ) is Ok
        &&& registration_validation(
            owner,
            pending_of(w, owner.actor.actor_id),
            revision_of(w, desired[i].source),
            desired[i].observed_revision,
        ) == Ok::<DependencyRegistrationHandle, DependencyRegistrationError>(
            handle_of(owner, desired[i].observed_revision),
        )
    } by {
        lemma_desired_distinct(v, desired, desired.len(), i);
        assert(revision_of(w, desired[i].source) == revision_of(v, desired[i].source));
    }
}

proof fn lemma_commit_leaves_plan_held(
    v: DependencyRegistryView,
    owner: PendingCheckOwner,
    desired: Seq<DependencyPlanSource>,
    timed_review: Option<WakeupKey>,
    current_block: BlockNumber,
    current_tick: Option<u64>,
    max_active_actors: u32,
    max_contract_steps: u32,
)
    requires
        plan_commit(
            v,
            owner,
            desired,
            timed_review,
            current_block,
            current_tick,
            max_active_actors,
            max_contract_steps,
            true,
        ).0 is Ok,
        plan_installs_fit(v, owner, desired, max_active_actors),
    ensures
        ({
            let w = plan_commit(
                v,
                owner,
                desired,
                timed_review,
                current_block,
                current_tick,
                max_active_actors,
                max_contract_steps,
                true,
            ).1;
            &&& plan_held(w, owner, desired, timed_review)
            &&& w.revisions == v.revisions
        }),
{
    let id = owner.actor.actor_id;
    let stored = plan_of(v.plans, id);
    lemma_commit_shape(
        v,
        owner,
        desired,
        timed_review,
        current_block,
        current_tick,
        max_active_actors,
        max_contract_steps,
    );
    let p0 = register_desired(v, owner, desired, max_active_actors, desired.len());
    let q = remove_undesired(p0, desired, stored, max_active_actors, stored.len());
    let w = plan_commit(
        v,
        owner,
        desired,
        timed_review,
        current_block,
        current_tick,
        max_active_actors,
        max_contract_steps,
        true,
    ).1;
    lemma_register_desired_frame(v, owner, desired, max_active_actors, desired.len());
    lemma_remove_undesired_frame(p0, desired, stored, max_active_actors, stored.len());
    lemma_remove_undesired_effects(p0, desired, stored, max_active_actors, stored.len());
    lemma_register_desired_sets(v, owner, desired, max_active_actors, desired.len());
    lemma_register_desired_positions(v, owner, desired, max_active_actors, desired.len());
    assert forall|i: int| 0 <= i < desired.len() implies #[trigger] table_of(w, desired[i].source) == table_of(
        p0.registry,
        desired[i].source,
    ) by {
        assert(desires_source(desired, desired[i].source));
        assert(table_of(w, desired[i].source) == table_of(q.registry, desired[i].source));
        assert(table_of(q.registry, desired[i].source) == table_of(p0.registry, desired[i].source));
    }
    assert(pending_of(w, id) == pending_of(v, id));
    lemma_held_registrations(v, p0.registry, w, owner, desired);
    assert(w.plans.insert(id, plan_for(owner, desired)) =~= w.plans);
    assert(timed_reviews_after(w.timed_reviews, owner, timed_review) =~= w.timed_reviews);
}

proof fn lemma_second_commit_refusal(
    v: DependencyRegistryView,
    w: DependencyRegistryView,
    owner: PendingCheckOwner,
    desired: Seq<DependencyPlanSource>,
    timed_review: Option<WakeupKey>,
    current_block: BlockNumber,
    current_tick: Option<u64>,
    max_active_actors: u32,
    max_contract_steps: u32,
)
    requires
        plan_refusal(
            v,
            owner,
            desired,
            timed_review,
            current_block,
            current_tick,
            max_active_actors,
            max_contract_steps,
            true,
        ) is None,
        plan_held(w, owner, desired, timed_review),
        w.revisions == v.revisions,
    ensures
        plan_refusal(
            w,
            owner,
            desired,
            timed_review,
            current_block,
            current_tick,
            max_active_actors,
            max_contract_steps,
            true,
        ) is None,
{
    lemma_desired_refusal_reads_revisions(v, w, desired, desired.len());
    lemma_stored_plan_holds(w, owner, desired, desired.len());
    lemma_capacity_holds(v, w, owner, desired, max_active_actors, desired.len());
}

/// Committing the same complete plan again right after it was committed, with the same timed
/// review and clocks, changes nothing: every registration is reported unchanged, none is
/// installed, replaced or removed, and the timed review is kept.
pub proof fn lemma_plan_commit_idempotent(
    v: DependencyRegistryView,
    owner: PendingCheckOwner,
    desired: Seq<DependencyPlanSource>,
    timed_review: Option<WakeupKey>,
    current_block: BlockNumber,
    current_tick: Option<u64>,
    max_active_actors: u32,
    max_contract_steps: u32,
)
    requires
        plan_commit(
            v,
            owner,
            desired,
            timed_review,
            current_block,
            current_tick,
            max_active_actors,
            max_contract_steps,
            true,
        ).0 is Ok,
        plan_installs_fit(v, owner, desired, max_active_actors),
    ensures
        ({
            let w = plan_commit(
                v,
                owner,
                desired,
                timed_review,
                current_block,
                current_tick,
                max_active_actors,
                max_contract_steps,
                true,
            ).1;
            plan_commit(
                w,
                owner,
                desired,
                timed_review,
                current_block,
                current_tick,
                max_active_actors,
                max_contract_steps,
                true,
            ) == (
                Ok::<DependencyPlanMutation, DependencyRegistrationError>(
                    DependencyPlanMutation {
                        installed: 0,
                        retained: desired.len() as u32,
                        replaced: 0,
                        removed: 0,
                        timed_review: if timed_review is Some {
                            DependencyTimedReviewMutation::Retained
                        } else {
                            DependencyTimedReviewMutation::Absent
                        },
                    },
                ),
                w,
            )
        }),
{
    reveal(plan_commit);
    let id = owner.actor.actor_id;
    let w = plan_commit(
        v,
        owner,
        desired,
        timed_review,
        current_block,
        current_tick,
        max_active_actors,
        max_contract_steps,
        true,
    ).1;
    lemma_commit_leaves_plan_held(
        v,
        owner,
        desired,
        timed_review,
        current_block,
        current_tick,
        max_active_actors,
        max_contract_steps,
    );
    lemma_second_commit_refusal(
        v,
        w,
        owner,
        desired,
        timed_review,
        current_block,
        current_tick,
        max_active_actors,
        max_contract_steps,
    );
    let plan = plan_for(owner, desired);
    lemma_register_desired_retained(w, owner, desired, max_active_actors, desired.len());
    let r0 = register_desired(w, owner, desired, max_active_actors, desired.len());
    assert forall|j: int| 0 <= j < plan.len() implies desires_source(desired, #[trigger] plan[j].source) by {
        assert(plan[j].source == desired[j].source);
    }
    lemma_remove_undesired_skips(r0, desired, plan, max_active_actors, plan.len());
}

/// The registrations of every Actor but `id` on every source agree between `w` and `v`.
pub open spec fn others_untouched(w: DependencyRegistryView, v: DependencyRegistryView, id: ActorId) -> bool {
    forall|s: DependencySourceId, a: ActorId|
        a != id ==> #[trigger] registration_in(table_of(w, s), a) == registration_in(table_of(v, s), a)
}

proof fn lemma_register_on_others(
    v: DependencyRegistryView,
    source: DependencySourceId,
    owner: PendingCheckOwner,
    revision: u64,
    max_active_actors: u32,
)
    ensures
        others_untouched(register_on(v, source, owner, revision, max_active_actors).1, v, owner.actor.actor_id),
{
    lemma_register_on_frame(v, source, owner, revision, max_active_actors);
}

proof fn lemma_register_desired_others(
    v: DependencyRegistryView,
    owner: PendingCheckOwner,
    desired: Seq<DependencyPlanSource>,
    max_active_actors: u32,
    n: nat,
)
    requires
        n <= desired.len(),
    ensures
        others_untouched(register_desired(v, owner, desired, max_active_actors, n).registry, v, owner.actor.actor_id),
    decreases n,
{
    if n > 0 {
        lemma_register_desired_others(v, owner, desired, max_active_actors, (n - 1) as nat);
        let p = register_desired(v, owner, desired, max_active_actors, (n - 1) as nat);
        let entry = desired[n - 1];
        lemma_register_on_others(p.registry, entry.source, owner, entry.observed_revision, max_active_actors);
    }
}

proof fn lemma_remove_undesired_others(
    p: PlanProgress,
    desired: Seq<DependencyPlanSource>,
    stored: Seq<DependencyPlanRegistration>,
    max_active_actors: u32,
    id: ActorId,
    n: nat,
)
    requires
        n <= stored.len(),
        forall|j: int| 0 <= j < stored.len() ==> (#[trigger] stored[j]).handle.actor.actor_id == id,
    ensures
        others_untouched(remove_undesired(p, desired, stored, max_active_actors, n).registry, p.registry, id),
    decreases n,
{
    if n > 0 {
        lemma_remove_undesired_others(p, desired, stored, max_active_actors, id, (n - 1) as nat);
        let q = remove_undesired(p, desired, stored, max_active_actors, (n - 1) as nat);
        let reg = stored[n - 1];
        let after = remove_undesired(p, desired, stored, max_active_actors, n);
        assert(reg.handle.actor.actor_id == id);
        assert forall|s: DependencySourceId, a: ActorId| a != id implies #[trigger] registration_in(
            table_of(after.registry, s),
            a,
        ) == registration_in(table_of(p.registry, s), a) by {
            assert(registration_in(table_of(q.registry, s), a) == registration_in(table_of(p.registry, s), a));
        }
    }
}

/// Committing a dependency plan changes no other Actor's registration on any source.
pub proof fn lemma_plan_commit_touches_only_owner(
    v: DependencyRegistryView,
    owner: PendingCheckOwner,
    desired: Seq<DependencyPlanSource>,
    timed_review: Option<WakeupKey>,
    current_block: BlockNumber,
    current_tick: Option<u64>,
    max_active_actors: u32,
    max_contract_steps: u32,
    transactional: bool,
)
    ensures
        others_untouched(
            plan_commit(
                v,
                owner,
                desired,
                timed_review,
                current_block,
                current_tick,
                max_active_actors,
                max_contract_steps,
                transactional,
            ).1,
            v,
            owner.actor.actor_id,
        ),
{
    reveal(plan_commit);
    let id = owner.actor.actor_id;
    let stored = plan_of(v.plans, id);
    if plan_refusal(
        v,
        owner,
        desired,
        timed_review,
        current_block,
        current_tick,
        max_active_actors,
        max_contract_steps,
        transactional,
    ) is None {
        let p0 = register_desired(v, owner, desired, max_active_actors, desired.len());
        lemma_register_desired_others(v, owner, desired, max_active_actors, desired.len());
        lemma_stored_plan_owned(v, id, stored, stored.len());
        lemma_remove_undesired_others(p0, desired, stored, max_active_actors, id, stored.len());
        let q = remove_undesired(p0, desired, stored, max_active_actors, stored.len());
        let w = plan_commit(
            v,
            owner,
            desired,
            timed_review,
            current_block,
            current_tick,
            max_active_actors,
            max_contract_steps,
            transactional,
        ).1;
        assert(w.tables == q.registry.tables);
        assert forall|s: DependencySourceId, a: ActorId| a != id implies #[trigger] registration_in(table_of(w, s), a)
            == registration_in(table_of(v, s), a) by {
            assert(table_of(w, s) == table_of(q.registry, s));
            assert(registration_in(table_of(q.registry, s), a) == registration_in(table_of(p0.registry, s), a));
            assert(registration_in(table_of(p0.registry, s), a) == registration_in(table_of(v, s), a));
        }
    }
}

fn empty_table() -> (t: DependencyRegistrationTable)
    ensures
        t@ == empty_table_view(),
{
    let t = DependencyRegistrationTable {
        header: DependencyRegistrationHeader { count: 0, free_count: 0, next_index: 0 },
        free_positions: HashMap::new(),
        pages: HashMap::new(),
        positions: HashMap::new(),
        registrations: HashMap::new(),
    };
    proof {
        assert(t@.pages =~= Map::empty());
    }
    t
}

fn desires(desired: &Vec<DependencyPlanSource>, source: DependencySourceId) -> (r: bool)
    ensures
        r == desires_source(desired@, source),
{
    let mut i: usize = 0;
    while i < desired.len()
        invariant
            0 <= i <= desired@.len(),
            forall|j: int| 0 <= j < i ==> #[trigger] desired@[j].source != source,
        decreases desired@.len() - i,
    {
        if desired[i].source == source {
            return true;
        }
        i = i + 1;
    }
    false
}

fn plan_registrations(owner: PendingCheckOwner, desired: &Vec<DependencyPlanSource>) -> (p: Vec<
    DependencyPlanRegistration,
>)
    ensures
        p@ == plan_for(owner, desired@),
{
    let mut p: Vec<DependencyPlanRegistration> = Vec::new();
    let mut i: usize = 0;
    while i < desired.len()
        invariant
            0 <= i <= desired@.len(),
            p@ == plan_for(owner, desired@.take(i as int)),
        decreases desired@.len() - i,
    {
        let entry = desired[i];
        p.push(
            DependencyPlanRegistration {
                source: entry.source,
                handle: DependencyRegistrationHandle {
                    actor: owner.actor,
                    plan_revision: owner.plan_revision,
                    acknowledged_revision: entry.observed_revision,
                },
            },
        );
        i = i + 1;
        proof {
            assert(p@ =~= plan_for(owner, desired@.take(i as int)));
        }
    }
    proof {
        assert(desired@.take(desired@.len() as int) =~= desired@);
    }
    p
}

impl DependencyRegistry {
    /// The next never-used registration index of `source`.
    pub fn registration_next_index(&self, source: DependencySourceId) -> (n: u64)
        ensures
            n == table_of(self@, source).header.next_index,
    {
        match self.tables.get(&source) {
            Some(t) => t.header.next_index,
            None => 0,
        }
    }

    /// The revision state of `source`.
    pub fn revision_state(&self, source: DependencySourceId) -> (s: DependencyRevisionState)
        ensures
            s == revision_of(self@, source),
    {
        match self.revisions.get(&source) {
            Some(s) => *s,
            None => DependencyRevisionState {
                revision: 0,
                exhausted: false,
                scan_target: None,
                scan_cursor: 0,
                scan_end: 0,
            },
        }
    }

    fn pending_owner(&self, id: ActorId) -> (p: Option<PendingCheckOwner>)
        ensures
            p == pending_of(self@, id),
    {
        match self.pending_owners.get(&id) {
            Some(p) => Some(*p),
            None => None,
        }
    }

    /// Takes the table of `source` out of the registry, and whether one was stored.
    fn take_table(&mut self, source: DependencySourceId) -> (r: (DependencyRegistrationTable, bool))
        ensures
            r.0@ == table_of(old(self)@, source),
            r.1 == old(self)@.tables.contains_key(source),
            final(self)@ == (DependencyRegistryView { tables: old(self)@.tables.remove(source), ..old(self)@ }),
    {
        let r = match self.tables.remove(&source) {
            Some(t) => (t, true),
            None => (empty_table(), false),
        };
        proof {
            lemma_tables_view_remove(old(self).tables@, source);
        }
        r
    }

    /// Puts `t` back as the table of `source` where it was written or was stored before.
    fn restore_table(
        &mut self,
        source: DependencySourceId,
        t: DependencyRegistrationTable,
        present: bool,
        written: bool,
        Ghost(before): Ghost<DependencyRegistryView>,
    )
        requires
            old(self)@ == (DependencyRegistryView { tables: before.tables.remove(source), ..before }),
            present == before.tables.contains_key(source),
            !written ==> t@ == table_of(before, source),
        ensures
            final(self)@ == (if written {
                DependencyRegistryView { tables: before.tables.insert(source, t@), ..before }
            } else {
                before
            }),
    {
        if written || present {
            let ghost tv = t@;
            let ghost old_tables = self.tables@;
            self.tables.insert(source, t);
            proof {
                lemma_tables_view_insert(old_tables, source, t);
                assert(self@.tables =~= before.tables.insert(source, tv));
                if !written {
                    assert(before.tables.insert(source, t@) =~= before.tables);
                }
            }
        } else {
            proof {
                assert(self@.tables =~= before.tables);
            }
        }
    }

    /// Runs the registration of `owner` on `source` at `revision`: a replacement of its current
    /// registration there, else an install.
    fn register_owner_on(
        &mut self,
        source: DependencySourceId,
        owner: PendingCheckOwner,
        revision: u64,
        max_active_actors: u32,
    ) -> (r: Result<DependencyRegistrationMutation, DependencyRegistrationError>)
        requires
            install_fits_where_reached(old(self)@, source, owner, revision, max_active_actors),
        ensures
            (r, final(self)@) == register_on(old(self)@, source, owner, revision, max_active_actors),
    {
        let state = self.revision_state(source);
        let id = owner.actor.actor_id;
        let pending = self.pending_owner(id);
        let ghost before = self@;
        let (mut table, present) = self.take_table(source);
        let current = match table.registrations.get(&id) {
            Some(c) => Some(*c),
            None => None,
        };
        let r = match current {
            Some(c) => table.replace_dependency_registration(c, owner, revision, pending, state, true),
            None => table.install_dependency_registration(owner, revision, pending, state, max_active_actors, true),
        };
        let written = match r {
            Ok(DependencyRegistrationMutation::Unchanged) => false,
            Ok(_) => true,
            Err(_) => false,
        };
        self.restore_table(source, table, present, written, Ghost(before));
        r
    }

    /// Commits one negative evaluation of `source` by `owner`, only while the source is live and
    /// still at `observed_revision`: the owner's registration there is replaced, or installed
    /// where it has none.
    pub fn commit_negative_dependency_evaluation(
        &mut self,
        source: DependencySourceId,
        owner: PendingCheckOwner,
        observed_revision: u64,
        max_active_actors: u32,
        transactional: bool,
    ) -> (r: Result<DependencyRegistrationMutation, DependencyRegistrationError>)
        requires
            transactional && !revision_of(old(self)@, source).exhausted && revision_of(old(self)@, source).revision
                == observed_revision ==> install_fits_where_reached(
                old(self)@,
                source,
                owner,
                observed_revision,
                max_active_actors,
            ),
        ensures
            (r, final(self)@) == negative_evaluation(
                old(self)@,
                source,
                owner,
                observed_revision,
                max_active_actors,
                transactional,
            ),
    {
        if !transactional {
            return Err(DependencyRegistrationError::TransactionRequired);
        }
        let state = self.revision_state(source);
        if state.exhausted {
            return Err(DependencyRegistrationError::SourceExhausted);
        }
        if state.revision != observed_revision {
            return Err(DependencyRegistrationError::RevisionMismatch);
        }
        self.register_owner_on(source, owner, observed_revision, max_active_actors)
    }

    /// The registration of `id` on `source`, if any.
    fn registration_on(&self, source: DependencySourceId, id: ActorId) -> (r: Option<DependencyRegistrationHandle>)
        ensures
            r == registration_in(table_of(self@, source), id),
    {
        match self.tables.get(&source) {
            Some(t) => match t.registrations.get(&id) {
                Some(h) => Some(*h),
                None => None,
            },
            None => None,
        }
    }

    /// The header of the table of `source`.
    fn table_header(&self, source: DependencySourceId) -> (h: DependencyRegistrationHeader)
        ensures
            h == table_of(self@, source).header,
    {
        match self.tables.get(&source) {
            Some(t) => t.header,
            None => DependencyRegistrationHeader { count: 0, free_count: 0, next_index: 0 },
        }
    }

    /// The stored plan of `id`.
    fn stored_plan(&self, id: ActorId) -> (p: Vec<DependencyPlanRegistration>)
        ensures
            p@ == plan_of(self@.plans, id),
    {
        match self.plans.get(&id) {
            Some(p) => p.clone(),
            None => Vec::new(),
        }
    }

    fn check_desired(&self, desired: &Vec<DependencyPlanSource>) -> (r: Result<(), DependencyRegistrationError>)
        ensures
            match desired_refusal(self@, desired@, desired@.len()) {
                Some(e) => r == Err::<(), DependencyRegistrationError>(e),
                None => r is Ok,
            },
    {
        let mut i: usize = 0;
        while i < desired.len()
            invariant
                0 <= i <= desired@.len(),
                desired_refusal(self@, desired@, i as nat) is None,
            decreases desired@.len() - i,
        {
            let entry = desired[i];
            let mut j: usize = 0;
            while j < i
                invariant
                    0 <= j <= i < desired@.len(),
                    entry == desired@[i as int],
                    desired_refusal(self@, desired@, i as nat) is None,
                    forall|k: int| 0 <= k < j ==> #[trigger] desired@[k].source != entry.source,
                decreases i - j,
            {
                if desired[j].source == entry.source {
                    proof {
                        assert(desired@[j as int].source == desired@[i as int].source);
                        assert(repeats_earlier(desired@, i as int));
                        assert(desired_refusal(self@, desired@, (i + 1) as nat) == Some(
                            DependencyRegistrationError::DuplicateSource,
                        ));
                        lemma_desired_refusal_stable(self@, desired@, (i + 1) as nat, desired@.len());
                    }
                    return Err(DependencyRegistrationError::DuplicateSource);
                }
                j = j + 1;
            }
            proof {
                assert(!repeats_earlier(desired@, i as int));
            }
            let state = self.revision_state(entry.source);
            if state.exhausted {
                proof {
                    lemma_desired_refusal_stable(self@, desired@, (i + 1) as nat, desired@.len());
                }
                return Err(DependencyRegistrationError::SourceExhausted);
            }
            if state.revision != entry.observed_revision {
                proof {
                    lemma_desired_refusal_stable(self@, desired@, (i + 1) as nat, desired@.len());
                }
                return Err(DependencyRegistrationError::RevisionMismatch);
            }
            i = i + 1;
        }
        Ok(())
    }

    fn check_stored_plan(&self, id: ActorId, stored: &Vec<DependencyPlanRegistration>) -> (r: Result<
        (),
        DependencyRegistrationError,
    >)
        ensures
            match stored_plan_refusal(self@, id, stored@, stored@.len()) {
                Some(e) => r == Err::<(), DependencyRegistrationError>(e),
                None => r is Ok,
            },
    {
        let mut i: usize = 0;
        while i < stored.len()
            invariant
                0 <= i <= stored@.len(),
                stored_plan_refusal(self@, id, stored@, i as nat) is None,
            decreases stored@.len() - i,
        {
            let reg = stored[i];
            let step = self.stored_registration_check(id, reg);
            match step {
                Err(e) => {
                    proof {
                        lemma_stored_plan_refusal_stable(self@, id, stored@, (i + 1) as nat, stored@.len());
                    }
                    return Err(e);
                },
                Ok(()) => {},
            }
            i = i + 1;
        }
        Ok(())
    }

    fn stored_registration_check(&self, id: ActorId, reg: DependencyPlanRegistration) -> (r: Result<
        (),
        DependencyRegistrationError,
    >)
        ensures
            ({
                let t = table_of(self@, reg.source);
                if reg.handle.actor.actor_id != id || !maps_to(t.registrations, id, reg.handle) {
                    r == Err::<(), DependencyRegistrationError>(DependencyRegistrationError::StoredPlanMismatch)
                } else {
                    match spec_position(t, id, reg.handle) {
                        Err(e) => r == Err::<(), DependencyRegistrationError>(e),
                        Ok(_) => r is Ok,
                    }
                }
            }),
    {
        if reg.handle.actor.actor_id != id {
            return Err(DependencyRegistrationError::StoredPlanMismatch);
        }
        match self.tables.get(&reg.source) {
            None => Err(DependencyRegistrationError::StoredPlanMismatch),
            Some(t) => {
                let holds = match t.registrations.get(&id) {
                    Some(h) => *h == reg.handle,
                    None => false,
                };
                if !holds {
                    return Err(DependencyRegistrationError::StoredPlanMismatch);
                }
                match t.dependency_registration_position(id, reg.handle) {
                    Ok(_) => Ok(()),
                    Err(e) => Err(e),
                }
            },
        }
    }

    fn check_timed(
        &self,
        owner: PendingCheckOwner,
        timed_review: Option<WakeupKey>,
        current_block: BlockNumber,
        current_tick: Option<u64>,
    ) -> (r: Result<(), DependencyRegistrationError>)
        ensures
            match timed_refusal(self@, owner, timed_review, current_block, current_tick) {
                Some(e) => r == Err::<(), DependencyRegistrationError>(e),
                None => r is Ok,
            },
    {
        match self.timed_reviews.get(&owner.actor.actor_id) {
            Some(current) => {
                if current.owner.actor != owner.actor {
                    return Err(DependencyRegistrationError::StoredPlanMismatch);
                }
            },
            None => {},
        }
        match timed_review {
            None => Ok(()),
            Some(WakeupKey::Block(b)) => if b > current_block {
                Ok(())
            } else {
                Err(DependencyRegistrationError::DeadlineNotFuture)
            },
            Some(WakeupKey::Tick(t)) => match current_tick {
                None => Err(DependencyRegistrationError::ClockUnavailable),
                Some(now) => if t > now {
                    Ok(())
                } else {
                    Err(DependencyRegistrationError::DeadlineNotFuture)
                },
            },
        }
    }

    fn check_capacity(
        &self,
        id: ActorId,
        desired: &Vec<DependencyPlanSource>,
        stored: &Vec<DependencyPlanRegistration>,
        max_active_actors: u32,
    ) -> (r: Result<(), DependencyRegistrationError>)
        ensures
            match capacity_refusal(self@, id, desired@, stored@, max_active_actors, desired@.len()) {
                Some(e) => r == Err::<(), DependencyRegistrationError>(e),
                None => r is Ok,
            },
    {
        let mut i: usize = 0;
        while i < desired.len()
            invariant
                0 <= i <= desired@.len(),
                capacity_refusal(self@, id, desired@, stored@, max_active_actors, i as nat) is None,
            decreases desired@.len() - i,
        {
            let entry = desired[i];
            let current = self.registration_on(entry.source, id);
            let previous = match first_registration_on(stored, entry.source) {
                Some(k) => Some(stored[k].handle),
                None => None,
            };
            if current != previous {
                proof {
                    lemma_capacity_refusal_stable(self@, id, desired@, stored@, max_active_actors, (i + 1) as nat, desired@.len());
                }
                return Err(DependencyRegistrationError::StoredPlanMismatch);
            }
            if current.is_none() {
                let h = self.table_header(entry.source);
                let scan_active = self.revision_state(entry.source).scan_target.is_some();
                if h.count >= max_active_actors || (scan_active && h.next_index >= max_active_actors as u64) || (
                h.free_count == 0 && h.next_index >= max_active_actors as u64) {
                    proof {
                        lemma_capacity_refusal_stable(
                            self@,
                            id,
                            desired@,
                            stored@,
                            max_active_actors,
                            (i + 1) as nat,
                            desired@.len(),
                        );
                    }
                    return Err(DependencyRegistrationError::CapacityExceeded);
                }
            }
            i = i + 1;
        }
        Ok(())
    }


    /// One registration step of a plan commit.
    fn register_step_on(
        &mut self,
        owner: PendingCheckOwner,
        entry: DependencyPlanSource,
        max_active_actors: u32,
        Ghost(p): Ghost<PlanProgress>,
    ) -> (outcome: Result<DependencyRegistrationMutation, DependencyRegistrationError>)
        requires
            old(self)@ == p.registry,
            install_fits_where_reached(old(self)@, entry.source, owner, entry.observed_revision, max_active_actors),
        ensures
            final(self)@ == register_step(p, owner, entry, max_active_actors).registry,
            match outcome {
                Err(e) => register_step(p, owner, entry, max_active_actors).error == Some(e),
                Ok(DependencyRegistrationMutation::Removed) => register_step(p, owner, entry, max_active_actors).error
                    == Some(DependencyRegistrationError::CorruptTopology),
                Ok(DependencyRegistrationMutation::Installed) => register_step(p, owner, entry, max_active_actors)
                    == (PlanProgress { registry: final(self)@, installed: p.installed + 1, ..p }),
                Ok(DependencyRegistrationMutation::Unchanged) => register_step(p, owner, entry, max_active_actors)
                    == (PlanProgress { registry: final(self)@, retained: p.retained + 1, ..p }),
                Ok(DependencyRegistrationMutation::Replaced) => register_step(p, owner, entry, max_active_actors)
                    == (PlanProgress { registry: final(self)@, replaced: p.replaced + 1, ..p }),
            },
    {
        self.register_owner_on(entry.source, owner, entry.observed_revision, max_active_actors)
    }

    /// Registers `owner` on each desired source in order, stopping at the first error.
    fn register_desired_sources(
        &mut self,
        owner: PendingCheckOwner,
        desired: &Vec<DependencyPlanSource>,
        max_active_actors: u32,
        max_contract_steps: u32,
    ) -> (r: Result<(u32, u32, u32), DependencyRegistrationError>)
        requires
            desired@.len() <= max_contract_steps,
            desired_refusal(old(self)@, desired@, desired@.len()) is None,
            plan_installs_fit(old(self)@, owner, desired@, max_active_actors),
        ensures
            ({
                let p = register_desired(old(self)@, owner, desired@, max_active_actors, desired@.len());
                &&& final(self)@ == p.registry
                &&& match p.error {
                    Some(e) => r == Err::<(u32, u32, u32), DependencyRegistrationError>(e),
                    None => r == Ok::<(u32, u32, u32), DependencyRegistrationError>(
                        (p.installed as u32, p.retained as u32, p.replaced as u32),
                    ),
                }
            }),
    {
        let ghost v0 = self@;
        let mut installed: u32 = 0;
        let mut retained: u32 = 0;
        let mut replaced: u32 = 0;
        let mut i: usize = 0;
        while i < desired.len()
            invariant
                v0 == old(self)@,
                0 <= i <= desired@.len() <= max_contract_steps,
                desired_refusal(v0, desired@, desired@.len()) is None,
                plan_installs_fit(v0, owner, desired@, max_active_actors),
                register_desired(v0, owner, desired@, max_active_actors, i as nat).error is None,
                self@ == register_desired(v0, owner, desired@, max_active_actors, i as nat).registry,
                installed == register_desired(v0, owner, desired@, max_active_actors, i as nat).installed,
                retained == register_desired(v0, owner, desired@, max_active_actors, i as nat).retained,
                replaced == register_desired(v0, owner, desired@, max_active_actors, i as nat).replaced,
            decreases desired@.len() - i,
        {
            let entry = desired[i];
            proof {
                lemma_installs_fit_at(v0, owner, desired@, max_active_actors, i as int);
                lemma_register_desired_frame(v0, owner, desired@, max_active_actors, i as nat);
                lemma_desired_distinct(v0, desired@, desired@.len(), i as int);
                assert forall|j: int| 0 <= j < i implies #[trigger] desired@[j].source != entry.source by {
                    if desired@[j].source == entry.source {
                        assert(repeats_earlier(desired@, i as int));
                    }
                }
            }
            let ghost p = register_desired(v0, owner, desired@, max_active_actors, i as nat);
            let outcome = self.register_step_on(owner, entry, max_active_actors, Ghost(p));
            proof {
                assert(register_desired(v0, owner, desired@, max_active_actors, (i + 1) as nat) == register_step(
                    p,
                    owner,
                    entry,
                    max_active_actors,
                ));
            }
            match outcome {
                Err(e) => {
                    proof {
                        lemma_register_desired_stable(v0, owner, desired@, max_active_actors, (i + 1) as nat, desired@.len());
                    }
                    return Err(e);
                },
                Ok(DependencyRegistrationMutation::Installed) => {
                    installed = installed + 1;
                },
                Ok(DependencyRegistrationMutation::Unchanged) => {
                    retained = retained + 1;
                },
                Ok(DependencyRegistrationMutation::Replaced) => {
                    replaced = replaced + 1;
                },
                Ok(DependencyRegistrationMutation::Removed) => {
                    proof {
                        lemma_register_desired_stable(v0, owner, desired@, max_active_actors, (i + 1) as nat, desired@.len());
                    }
                    return Err(DependencyRegistrationError::CorruptTopology);
                },
            }
            i = i + 1;
        }
        Ok((installed, retained, replaced))
    }

    /// Removes the registrations of the stored plan `stored` whose source `desired` drops, in
    /// order, stopping at the first error.
    fn remove_undesired_sources(
        &mut self,
        desired: &Vec<DependencyPlanSource>,
        stored: &Vec<DependencyPlanRegistration>,
        max_active_actors: u32,
        Ghost(p0): Ghost<PlanProgress>,
    ) -> (r: Result<u32, DependencyRegistrationError>)
        requires
            p0.error is None,
            p0.removed == 0,
            old(self)@ == p0.registry,
        ensures
            ({
                let p = remove_undesired(p0, desired@, stored@, max_active_actors, stored@.len());
                &&& final(self)@ == p.registry
                &&& match p.error {
                    Some(e) => r == Err::<u32, DependencyRegistrationError>(e),
                    None => r == Ok::<u32, DependencyRegistrationError>(p.removed as u32),
                }
            }),
    {
        let mut removed: u32 = 0;
        let mut k: usize = 0;
        while k < stored.len()
            invariant
                old(self)@ == p0.registry,
                0 <= k <= stored@.len(),
                p0.error is None,
                p0.removed == 0,
                remove_undesired(p0, desired@, stored@, max_active_actors, k as nat).error is None,
                self@ == remove_undesired(p0, desired@, stored@, max_active_actors, k as nat).registry,
                removed == remove_undesired(p0, desired@, stored@, max_active_actors, k as nat).removed,
            decreases stored@.len() - k,
        {
            let reg = stored[k];
            if !desires(desired, reg.source) {
                let ghost before = self@;
                let (mut table, present) = self.take_table(reg.source);
                let r = table.remove_dependency_registration(reg.handle, max_active_actors, true);
                let written = r.is_ok();
                self.restore_table(reg.source, table, present, written, Ghost(before));
                match r {
                    Err(e) => {
                        proof {
                            lemma_remove_undesired_stable(p0, desired@, stored@, max_active_actors, (k + 1) as nat, stored@.len());
                        }
                        return Err(e);
                    },
                    Ok(_) => {},
                }
                if removed == u32::MAX {
                    proof {
                        lemma_remove_undesired_stable(p0, desired@, stored@, max_active_actors, (k + 1) as nat, stored@.len());
                    }
                    return Err(DependencyRegistrationError::CapacityExceeded);
                }
                removed = removed + 1;
            }
            k = k + 1;
        }
        Ok(removed)
    }

    /// Replaces `owner`'s complete dependency plan by `desired`, with `timed_review` as its timed
    /// review, after validating every new and stored source: each desired source is registered at
    /// its observed revision (replacing or installing), each source the stored plan had and
    /// `desired` drops loses its registration, the timed review is installed, kept, replaced or
    /// removed, and the plan is stored. `current_block` is the current block and `current_tick`
    /// the scheduler tick, `None` where it cannot be read.
    pub fn commit_negative_dependency_plan(
        &mut self,
        owner: PendingCheckOwner,
        desired: &Vec<DependencyPlanSource>,
        timed_review: Option<WakeupKey>,
        current_block: BlockNumber,
        current_tick: Option<u64>,
        max_active_actors: u32,
        max_contract_steps: u32,
        transactional: bool,
    ) -> (r: Result<DependencyPlanMutation, DependencyRegistrationError>)
        requires
            plan_refusal(
                old(self)@,
                owner,
                desired@,
                timed_review,
                current_block,
                current_tick,
                max_active_actors,
                max_contract_steps,
                transactional,
            ) is None ==> plan_installs_fit(old(self)@, owner, desired@, max_active_actors),
        ensures
            (r, final(self)@) == plan_commit(
                old(self)@,
                owner,
                desired@,
                timed_review,
                current_block,
                current_tick,
                max_active_actors,
                max_contract_steps,
                transactional,
            ),
    {
        proof {
            reveal(plan_commit);
        }
        if !transactional {
            return Err(DependencyRegistrationError::TransactionRequired);
        }
        if desired.len() > max_contract_steps as usize {
            return Err(DependencyRegistrationError::PlanTooLarge);
        }
        let id = owner.actor.actor_id;
        match self.pending_owner(id) {
            Some(p) => {
                if p != owner {
                    return Err(DependencyRegistrationError::PendingOwnerMismatch);
                }
            },
            None => return Err(DependencyRegistrationError::PendingOwnerMismatch),
        }
        self.check_desired(desired)?;
        let stored = self.stored_plan(id);
        self.check_stored_plan(id, &stored)?;
        let stored_review = match self.timed_reviews.get(&id) {
            Some(t) => Some(*t),
            None => None,
        };
        self.check_timed(owner, timed_review, current_block, current_tick)?;
        self.check_capacity(id, desired, &stored, max_active_actors)?;
        let ghost v0 = self@;
        let ghost p0 = register_desired(v0, owner, desired@, max_active_actors, desired@.len());
        proof {
            lemma_register_desired_frame(v0, owner, desired@, max_active_actors, desired@.len());
        }
        let (installed, retained, replaced) = match self.register_desired_sources(
            owner,
            desired,
            max_active_actors,
            max_contract_steps,
        ) {
            Ok(counts) => counts,
            Err(e) => {
                proof {
                    lemma_remove_undesired_frame(p0, desired@, stored@, max_active_actors, stored@.len());
                }
                return Err(e);
            },
        };
        let removed = self.remove_undesired_sources(desired, &stored, max_active_actors, Ghost(p0))?;
        proof {
            lemma_remove_undesired_frame(p0, desired@, stored@, max_active_actors, stored@.len());
        }
        let change = match (stored_review, timed_review) {
            (None, None) => DependencyTimedReviewMutation::Absent,
            (None, Some(_)) => DependencyTimedReviewMutation::Installed,
            (Some(current), Some(deadline)) => if current == (DependencyTimedReview { owner, deadline }) {
                DependencyTimedReviewMutation::Retained
            } else {
                DependencyTimedReviewMutation::Replaced
            },
            (Some(_), None) => DependencyTimedReviewMutation::Removed,
        };
        match timed_review {
            Some(deadline) => {
                self.timed_reviews.insert(id, DependencyTimedReview { owner, deadline });
            },
            None => {
                self.timed_reviews.remove(&id);
            },
        }
        let plan = plan_registrations(owner, desired);
        let ghost plans_before = self.plans@;
        self.plans.insert(id, plan);
        proof {
            assert(self@.plans =~= plans_before.map_values(|p: Vec<DependencyPlanRegistration>| p@).insert(
                id,
                plan_for(owner, desired@),
            ));
        }
        Ok(DependencyPlanMutation { installed, retained, replaced, removed, timed_review: change })
    }

    /// Consumes the pending event `expected` once its owner's complete successor plan `desired`
    /// is committed. The event's source must still be live and at least at the event's revision,
    /// and the owner's registration there must have acknowledged it.
    pub fn consume_pending_dependency_event(
        &mut self,
        expected: PendingDependencyEvent,
        desired: &Vec<DependencyPlanSource>,
        timed_review: Option<WakeupKey>,
        current_block: BlockNumber,
        current_tick: Option<u64>,
        max_active_actors: u32,
        max_contract_steps: u32,
        transactional: bool,
    ) -> (r: Result<DependencyPlanMutation, DependencyRegistrationError>)
        requires
            event_reaches_commit(old(self)@, expected, transactional) && plan_refusal(
                old(self)@,
                expected.owner,
                desired@,
                timed_review,
                current_block,
                current_tick,
                max_active_actors,
                max_contract_steps,
                true,
            ) is None ==> plan_installs_fit(old(self)@, expected.owner, desired@, max_active_actors),
        ensures
            (r, final(self)@) == event_consumption(
                old(self)@,
                expected,
                desired@,
                timed_review,
                current_block,
                current_tick,
                max_active_actors,
                max_contract_steps,
                transactional,
            ),
    {
        if !transactional {
            return Err(DependencyRegistrationError::TransactionRequired);
        }
        let id = expected.owner.actor.actor_id;
        match self.pending_events.get(&id) {
            None => return Err(DependencyRegistrationError::PendingEventMissing),
            Some(current) => {
                if *current != expected {
                    return Err(DependencyRegistrationError::PendingEventMismatch);
                }
            },
        }
        if self.pending_owner(id) != Some(expected.owner) {
            return Err(DependencyRegistrationError::PendingOwnerMismatch);
        }
        let state = self.revision_state(expected.source);
        if state.exhausted {
            return Err(DependencyRegistrationError::SourceExhausted);
        }
        if state.revision < expected.revision {
            return Err(DependencyRegistrationError::RevisionMismatch);
        }
        let registration = match self.registration_on(expected.source, id) {
            Some(h) => h,
            None => return Err(DependencyRegistrationError::RegistrationMissing),
        };
        if registration.actor != expected.owner.actor || registration.plan_revision != expected.owner.plan_revision
            || registration.acknowledged_revision < expected.revision {
            return Err(DependencyRegistrationError::CurrentRegistrationMismatch);
        }
        let mutation = self.commit_negative_dependency_plan(
            expected.owner,
            desired,
            timed_review,
            current_block,
            current_tick,
            max_active_actors,
            max_contract_steps,
            true,
        )?;
        match self.pending_events.get(&id) {
            Some(current) => {
                if *current != expected {
                    return Err(DependencyRegistrationError::PendingEventMismatch);
                }
            },
            None => return Err(DependencyRegistrationError::PendingEventMismatch),
        }
        self.pending_events.remove(&id);
        Ok(mutation)
    }

    /// Consumes the pending review `expected` once its owner's complete successor plan `desired`
    /// is committed.
    pub fn consume_pending_dependency_review(
        &mut self,
        expected: DependencyTimedReview,
        desired: &Vec<DependencyPlanSource>,
        timed_review: Option<WakeupKey>,
        current_block: BlockNumber,
        current_tick: Option<u64>,
        max_active_actors: u32,
        max_contract_steps: u32,
        transactional: bool,
    ) -> (r: Result<DependencyPlanMutation, DependencyRegistrationError>)
        requires
            transactional && maps_to(old(self)@.pending_reviews, expected.owner.actor.actor_id, expected) && plan_refusal(
                old(self)@,
                expected.owner,
                desired@,
                timed_review,
                current_block,
                current_tick,
                max_active_actors,
                max_contract_steps,
                true,
            ) is None ==> plan_installs_fit(old(self)@, expected.owner, desired@, max_active_actors),
        ensures
            (r, final(self)@) == review_consumption(
                old(self)@,
                expected,
                desired@,
                timed_review,
                current_block,
                current_tick,
                max_active_actors,
                max_contract_steps,
                transactional,
            ),
    {
        if !transactional {
            return Err(DependencyRegistrationError::TransactionRequired);
        }
        let id = expected.owner.actor.actor_id;
        match self.pending_reviews.get(&id) {
            None => return Err(DependencyRegistrationError::PendingReviewMissing),
            Some(current) => {
                if *current != expected {
                    return Err(DependencyRegistrationError::PendingReviewMismatch);
                }
            },
        }
        let mutation = self.commit_negative_dependency_plan(
            expected.owner,
            desired,
            timed_review,
            current_block,
            current_tick,
            max_active_actors,
            max_contract_steps,
            true,
        )?;
        match self.pending_reviews.get(&id) {
            Some(current) => {
                if *current != expected {
                    return Err(DependencyRegistrationError::PendingReviewMismatch);
                }
            },
            None => return Err(DependencyRegistrationError::PendingReviewMismatch),
        }
        self.pending_reviews.remove(&id);
        Ok(mutation)
    }

    /// Publishes the due timed review `expected` as its owner's pending review and releases the
    /// timed review. A review already published is reported as such; any other pending event or
    /// review of the owner refuses it.
    pub fn publish_due_dependency_review(
        &mut self,
        expected: DependencyTimedReview,
        current_block: BlockNumber,
        current_tick: Option<u64>,
        transactional: bool,
    ) -> (r: Result<DependencyDueReviewMutation, DependencyDueReviewError>)
        ensures
            (r, final(self)@) == due_review_publication(old(self)@, expected, current_block, current_tick, transactional),
    {
        if !transactional {
            return Err(DependencyDueReviewError::TransactionRequired);
        }
        let id = expected.owner.actor.actor_id;
        match self.pending_owners.get(&id) {
            None => return Err(DependencyDueReviewError::PendingOwnerMissing),
            Some(owner) => {
                if *owner != expected.owner {
                    return Err(DependencyDueReviewError::PendingOwnerMismatch);
                }
            },
        }
        let due = match expected.deadline {
            WakeupKey::Block(block) => block <= current_block,
            WakeupKey::Tick(tick) => match current_tick {
                Some(now) => tick <= now,
                None => return Err(DependencyDueReviewError::ClockUnavailable),
            },
        };
        if !due {
            return Err(DependencyDueReviewError::NotDue);
        }
        if self.pending_events.contains_key(&id) {
            return Err(DependencyDueReviewError::DestinationOccupied);
        }
        match self.pending_reviews.get(&id) {
            Some(current) => {
                if *current == expected {
                    if self.timed_reviews.contains_key(&id) {
                        return Err(DependencyDueReviewError::DestinationOccupied);
                    }
                    return Ok(DependencyDueReviewMutation::AlreadyPending);
                }
                return Err(DependencyDueReviewError::DestinationOccupied);
            },
            None => {},
        }
        match self.timed_reviews.get(&id) {
            None => return Err(DependencyDueReviewError::ReviewMissing),
            Some(current) => {
                if *current != expected {
                    return Err(DependencyDueReviewError::ReviewMismatch);
                }
            },
        }
        self.pending_reviews.insert(id, expected);
        self.timed_reviews.remove(&id);
        Ok(DependencyDueReviewMutation::Published)
    }
}


/// A refused plan commit leaves the registry as it was, and a committed plan is stored as
/// the desired plan of its owner; a commit succeeds only where no refusal applies.
pub proof fn lemma_plan_commit_facts(
    v: DependencyRegistryView,
    owner: PendingCheckOwner,
    desired: Seq<DependencyPlanSource>,
    timed_review: Option<WakeupKey>,
    current_block: BlockNumber,
    current_tick: Option<u64>,
    max_active_actors: u32,
    max_contract_steps: u32,
    transactional: bool,
)
    ensures
        ({
            let refusal = plan_refusal(
                v,
                owner,
                desired,
                timed_review,
                current_block,
                current_tick,
                max_active_actors,
                max_contract_steps,
                transactional,
            );
            let (r, after) = plan_commit(
                v,
                owner,
                desired,
                timed_review,
                current_block,
                current_tick,
                max_active_actors,
                max_contract_steps,
                transactional,
            );
            &&& refusal matches Some(e) ==> r == Err::<DependencyPlanMutation, DependencyRegistrationError>(e)
                && after == v
            &&& r is Ok ==> refusal is None && after.plans.contains_key(owner.actor.actor_id)
                && after.plans[owner.actor.actor_id] == plan_for(owner, desired)
        }),
{
    reveal(plan_commit);
}


/// A negative evaluation registers its owner only inside a transaction, on a source that is
/// not exhausted, at exactly the source's current revision; otherwise the registry is
/// unchanged.
pub proof fn lemma_negative_evaluation_needs_current_revision(
    v: DependencyRegistryView,
    source: DependencySourceId,
    owner: PendingCheckOwner,
    observed_revision: u64,
    max_active_actors: u32,
    transactional: bool,
)
    ensures
        ({
            let (r, w) = negative_evaluation(v, source, owner, observed_revision, max_active_actors, transactional);
            &&& (r is Ok ==> transactional && !revision_of(v, source).exhausted && revision_of(v, source).revision
                == observed_revision)
            &&& (!transactional || revision_of(v, source).exhausted || revision_of(v, source).revision != observed_revision
                ==> r is Err && w == v)
        }),
{
}

/// Consuming a pending event commits a plan only inside a transaction, for the Actor's own
/// pending event and pending check, on a source that is not exhausted and has reached the
/// event's revision, against the owner's current registration acknowledging that revision; a
/// consumed event is gone afterwards. Any refusal before the commit leaves the registry as it
/// was.
pub proof fn lemma_event_consumption_needs_the_event(
    v: DependencyRegistryView,
    expected: PendingDependencyEvent,
    desired: Seq<DependencyPlanSource>,
    timed_review: Option<WakeupKey>,
    current_block: BlockNumber,
    current_tick: Option<u64>,
    max_active_actors: u32,
    max_contract_steps: u32,
    transactional: bool,
)
    ensures
        ({
            let (r, w) = event_consumption(
                v,
                expected,
                desired,
                timed_review,
                current_block,
                current_tick,
                max_active_actors,
                max_contract_steps,
                transactional,
            );
            let id = expected.owner.actor.actor_id;
            let st = revision_of(v, expected.source);
            let current = registration_in(table_of(v, expected.source), id);
            let admitted = transactional && v.pending_events.contains_key(id) && v.pending_events[id] == expected
                && pending_of(v, id) == Some(expected.owner) && !st.exhausted && st.revision >= expected.revision
                && current is Some && current->Some_0.actor == expected.owner.actor && current->Some_0.plan_revision
                == expected.owner.plan_revision && current->Some_0.acknowledged_revision >= expected.revision;
            &&& (r is Ok ==> admitted && !w.pending_events.contains_key(id))
            &&& (!admitted ==> r is Err && w == v)
        }),
{
}

/// Consuming a pending review commits a plan only inside a transaction and for the Actor's
/// own pending review, which is gone afterwards; a missing or different review leaves the
/// registry as it was.
pub proof fn lemma_review_consumption_needs_the_review(
    v: DependencyRegistryView,
    expected: DependencyTimedReview,
    desired: Seq<DependencyPlanSource>,
    timed_review: Option<WakeupKey>,
    current_block: BlockNumber,
    current_tick: Option<u64>,
    max_active_actors: u32,
    max_contract_steps: u32,
    transactional: bool,
)
    ensures
        ({
            let (r, w) = review_consumption(
                v,
                expected,
                desired,
                timed_review,
                current_block,
                current_tick,
                max_active_actors,
                max_contract_steps,
                transactional,
            );
            let id = expected.owner.actor.actor_id;
            let admitted = transactional && v.pending_reviews.contains_key(id) && v.pending_reviews[id] == expected;
            &&& (r is Ok ==> admitted && !w.pending_reviews.contains_key(id))
            &&& (!admitted ==> r is Err && w == v)
        }),
{
}

/// A timed review is published only inside a transaction, for the Actor's own pending check,
/// once its deadline is due on its clock, into a free pending-review slot: the stored timed
/// review moves to the pending reviews. An already pending identical review is acknowledged
/// without change; every refusal leaves the registry as it was.
pub proof fn lemma_review_publication_needs_due_deadline(
    v: DependencyRegistryView,
    expected: DependencyTimedReview,
    current_block: BlockNumber,
    current_tick: Option<u64>,
    transactional: bool,
)
    ensures
        ({
            let (r, w) = due_review_publication(v, expected, current_block, current_tick, transactional);
            let id = expected.owner.actor.actor_id;
            let due = match expected.deadline {
                WakeupKey::Block(b) => b <= current_block,
                WakeupKey::Tick(t) => current_tick matches Some(now) && t <= now,
            };
            &&& (r is Ok ==> transactional && v.pending_owners.contains_key(id) && v.pending_owners[id] == expected.owner
                && due && !v.pending_events.contains_key(id))
            &&& (r == Ok::<DependencyDueReviewMutation, DependencyDueReviewError>(DependencyDueReviewMutation::Published)
                ==> v.timed_reviews.contains_key(id) && v.timed_reviews[id] == expected && !v.pending_reviews.contains_key(
                id,
            ) && w.pending_reviews == v.pending_reviews.insert(id, expected) && w.timed_reviews
                == v.timed_reviews.remove(id))
            &&& (r == Ok::<DependencyDueReviewMutation, DependencyDueReviewError>(
                DependencyDueReviewMutation::AlreadyPending,
            ) ==> w == v && v.pending_reviews[id] == expected)
            &&& (r is Err ==> w == v)
        }),
{
}

} // verus!
