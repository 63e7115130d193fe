//! Revisions of dependency sources and the fixed-target scan that walks a source's registration
//! slots after each published revision.
use vstd::prelude::*;

use std::collections::HashMap;

use crate::dependency_review::{
    DependencyPlanRegistration, DependencyRegistrationHandle, DependencyRevisionState, DependencyTimedReview,
    PendingCheckOwner, PendingDependencyEvent,
};
use crate::registrations::{
    free_slot, header_balanced, put_at, slot_at, table_consistent, DependencyRegistrationPosition,
    DependencyRegistrationTable, RegistrationTableView,
};
use crate::types::ActorId;
use crate::scan_sources::{
    insert_outcome, insert_result, DependencyScanSourceError, DependencyScanSources, DependencySourceId,
};

verus! {

#[derive(Clone, Copy, Debug, PartialEq, Eq, Structural)]
pub enum DependencyRevisionMutation {
    Advanced(u64),
    Exhausted,
}

#[derive(Clone, Copy, Debug, PartialEq, Eq, Structural)]
pub enum DependencyRevisionError {
    TransactionRequired,
}

#[derive(Clone, Copy, Debug, PartialEq, Eq, Structural)]
pub enum DependencyPublicationMutation {
    Begun(u64),
    Coalesced { revision: u64, active_target: u64 },
    Exhausted,
}

#[derive(Clone, Copy, Debug, PartialEq, Eq, Structural)]
pub enum DependencyPublicationError {
    Revision(DependencyRevisionError),
    SourceCarrier(DependencyScanSourceError),
}

#[derive(Clone, Copy, Debug, PartialEq, Eq, Structural)]
pub enum DependencyScanMutation {
    Begun(u64),
    Advanced(u64),
    HandedOff(u64),
    Completed,
}

#[derive(Clone, Copy, Debug, PartialEq, Eq, Structural)]
pub enum DependencyScanError {
    TransactionRequired,
    SourceExhausted,
    ScanAlreadyActive,
    ScanMissing,
    TargetMismatch,
    CursorMismatch,
    ScanComplete,
    CorruptTopology,
    CorruptRegistrationPosition,
    PendingAuthorityMissing,
    PendingAuthorityMismatch,
    PendingDestinationMismatch,
    CursorExhausted,
}

/// `s` with a scan targeting `target` started at index zero and ending at `end`.
pub open spec fn with_scan(s: DependencyRevisionState, target: u64, end: u64) -> DependencyRevisionState {
    DependencyRevisionState { scan_target: Some(target), scan_cursor: 0, scan_end: end, ..s }
}

/// Advances the source's revision by one; at the last revision the source is marked exhausted
/// instead, and an exhausted source stays as it is.
pub fn revise_dependency_source(state: &mut DependencyRevisionState, transactional: bool) -> (r: Result<
    DependencyRevisionMutation,
    DependencyRevisionError,
>)
    ensures
        !transactional ==> r == Err::<DependencyRevisionMutation, DependencyRevisionError>(
            DependencyRevisionError::TransactionRequired,
        ) && *final(state) == *old(state),
        transactional && old(state).exhausted ==> r == Ok::<DependencyRevisionMutation, DependencyRevisionError>(
            DependencyRevisionMutation::Exhausted,
        ) && *final(state) == *old(state),
        transactional && !old(state).exhausted && old(state).revision == u64::MAX ==> r == Ok::<
            DependencyRevisionMutation,
            DependencyRevisionError,
        >(DependencyRevisionMutation::Exhausted) && *final(state) == (DependencyRevisionState {
            exhausted: true,
            ..*old(state)
        }),
        transactional && !old(state).exhausted && old(state).revision < u64::MAX ==> r == Ok::<
            DependencyRevisionMutation,
            DependencyRevisionError,
        >(DependencyRevisionMutation::Advanced((old(state).revision + 1) as u64)) && *final(state) == (
        DependencyRevisionState { revision: (old(state).revision + 1) as u64, ..*old(state) }),
{
    if !transactional {
        return Err(DependencyRevisionError::TransactionRequired);
    }
    if state.exhausted {
        return Ok(DependencyRevisionMutation::Exhausted);
    }
    if state.revision == u64::MAX {
        state.exhausted = true;
        return Ok(DependencyRevisionMutation::Exhausted);
    }
    let next = state.revision + 1;
    state.revision = next;
    Ok(DependencyRevisionMutation::Advanced(next))
}

/// Outcome and new state of publishing one event on a source whose registrations have handed
/// out `registration_next_index` indices.
pub open spec fn publication(s: DependencyRevisionState, registration_next_index: u64) -> (
    DependencyPublicationMutation,
    DependencyRevisionState,
) {
    if s.exhausted {
        (DependencyPublicationMutation::Exhausted, s)
    } else if s.revision == u64::MAX {
        (DependencyPublicationMutation::Exhausted, DependencyRevisionState { exhausted: true, ..s })
    } else {
        let next = (s.revision + 1) as u64;
        match s.scan_target {
            Some(active_target) => (
                DependencyPublicationMutation::Coalesced { revision: next, active_target },
                DependencyRevisionState { revision: next, ..s },
            ),
            None => (
                DependencyPublicationMutation::Begun(next),
                with_scan(DependencyRevisionState { revision: next, ..s }, next, registration_next_index),
            ),
        }
    }
}

/// Publishes one event on a source: advances its revision, and starts a scan targeting the new
/// revision over the indices handed out so far unless one is already running, in which case the
/// running scan absorbs the event.
pub fn publish_dependency_event(
    state: &mut DependencyRevisionState,
    registration_next_index: u64,
    transactional: bool,
) -> (r: Result<DependencyPublicationMutation, DependencyRevisionError>)
    ensures
        !transactional ==> r == Err::<DependencyPublicationMutation, DependencyRevisionError>(
            DependencyRevisionError::TransactionRequired,
        ) && *final(state) == *old(state),
        transactional ==> r == Ok::<DependencyPublicationMutation, DependencyRevisionError>(
            publication(*old(state), registration_next_index).0,
        ) && *final(state) == publication(*old(state), registration_next_index).1,
{
    if !transactional {
        return Err(DependencyRevisionError::TransactionRequired);
    }
    if state.exhausted {
        return Ok(DependencyPublicationMutation::Exhausted);
    }
    if state.revision == u64::MAX {
        state.exhausted = true;
        return Ok(DependencyPublicationMutation::Exhausted);
    }
    let next = state.revision + 1;
    state.revision = next;
    match state.scan_target {
        Some(active_target) => Ok(DependencyPublicationMutation::Coalesced { revision: next, active_target }),
        None => {
            state.scan_target = Some(next);
            state.scan_cursor = 0;
            state.scan_end = registration_next_index;
            Ok(DependencyPublicationMutation::Begun(next))
        },
    }
}

/// Two selectors with the same list state and nodes.
pub open spec fn same_sources(a: DependencyScanSources, b: DependencyScanSources) -> bool {
    a.list == b.list && a.nodes@ == b.nodes@
}

/// Publishing never lowers the revision and never revives an exhausted source; on a source that
/// is not exhausted afterwards, exactly one scan runs: the one that was running, with its target
/// unchanged, or else one targeting the new revision.
pub proof fn lemma_publication_retains_one_scan(s: DependencyRevisionState, registration_next_index: u64)
    ensures
        publication(s, registration_next_index).1.revision >= s.revision,
        s.exhausted ==> publication(s, registration_next_index).1.exhausted,
        !publication(s, registration_next_index).1.exhausted ==> match s.scan_target {
            Some(t) => publication(s, registration_next_index).1.scan_target == Some(t),
            None => publication(s, registration_next_index).1.scan_target == Some(
                publication(s, registration_next_index).1.revision,
            ),
        },
{
}

/// Publishes one event on `source` and keeps the source in the fair-scan selector `sources`
/// while its scan runs. The revision is published first; a refusal of the selector is reported
/// after it.
pub fn publish_dependency_event_with_source_retention(
    state: &mut DependencyRevisionState,
    sources: &mut DependencyScanSources,
    source: DependencySourceId,
    registration_next_index: u64,
    capacity: u32,
    transactional: bool,
) -> (r: Result<DependencyPublicationMutation, DependencyPublicationError>)
    ensures
        !transactional ==> r == Err::<DependencyPublicationMutation, DependencyPublicationError>(
            DependencyPublicationError::Revision(DependencyRevisionError::TransactionRequired),
        ) && *final(state) == *old(state) && same_sources(*final(sources), *old(sources)),
        transactional ==> *final(state) == publication(*old(state), registration_next_index).1,
        transactional && publication(*old(state), registration_next_index).0 is Exhausted ==> r == Ok::<
            DependencyPublicationMutation,
            DependencyPublicationError,
        >(DependencyPublicationMutation::Exhausted) && same_sources(*final(sources), *old(sources)),
        transactional && !(publication(*old(state), registration_next_index).0 is Exhausted) ==> match insert_outcome(
            old(sources).list,
            old(sources).nodes@,
            source,
            final(state).scan_target is Some,
            capacity,
            true,
        ) {
            Some(Ok(_)) => r == Ok::<DependencyPublicationMutation, DependencyPublicationError>(
                publication(*old(state), registration_next_index).0,
            ) && same_sources(*final(sources), *old(sources)),
            Some(Err(e)) => r == Err::<DependencyPublicationMutation, DependencyPublicationError>(
                DependencyPublicationError::SourceCarrier(e),
            ) && same_sources(*final(sources), *old(sources)),
            None => r == Ok::<DependencyPublicationMutation, DependencyPublicationError>(
                publication(*old(state), registration_next_index).0,
            ) && (final(sources).list, final(sources).nodes@) == insert_result(
                old(sources).list,
                old(sources).nodes@,
                source,
            ),
        },
{
    let publication = match publish_dependency_event(state, registration_next_index, transactional) {
        Ok(p) => p,
        Err(e) => return Err(DependencyPublicationError::Revision(e)),
    };
    match publication {
        DependencyPublicationMutation::Exhausted => return Ok(publication),
        _ => {},
    }
    let scan_active = state.scan_target.is_some();
    match sources.insert_dependency_scan_source(source, scan_active, capacity, transactional) {
        Ok(_) => Ok(publication),
        Err(e) => Err(DependencyPublicationError::SourceCarrier(e)),
    }
}

/// Outcome of starting a scan on a source whose registrations have handed out
/// `registration_next_index` indices.
pub open spec fn scan_start(s: DependencyRevisionState, registration_next_index: u64, transactional: bool) -> (
    Result<DependencyScanMutation, DependencyScanError>,
    DependencyRevisionState,
) {
    if !transactional {
        (Err(DependencyScanError::TransactionRequired), s)
    } else if s.exhausted {
        (Err(DependencyScanError::SourceExhausted), s)
    } else if s.scan_target is Some {
        (Err(DependencyScanError::ScanAlreadyActive), s)
    } else {
        (Ok(DependencyScanMutation::Begun(s.revision)), with_scan(s, s.revision, registration_next_index))
    }
}

/// Starts a scan targeting the current revision over the indices handed out so far, unless the
/// source is exhausted or a scan is already running.
pub fn begin_dependency_scan(
    state: &mut DependencyRevisionState,
    registration_next_index: u64,
    transactional: bool,
) -> (r: Result<DependencyScanMutation, DependencyScanError>)
    ensures
        (r, *final(state)) == scan_start(*old(state), registration_next_index, transactional),
{
    if !transactional {
        return Err(DependencyScanError::TransactionRequired);
    }
    if state.exhausted {
        return Err(DependencyScanError::SourceExhausted);
    }
    if state.scan_target.is_some() {
        return Err(DependencyScanError::ScanAlreadyActive);
    }
    let target = state.revision;
    state.scan_target = Some(target);
    state.scan_cursor = 0;
    state.scan_end = registration_next_index;
    Ok(DependencyScanMutation::Begun(target))
}

/// The refusal, if any, of an operation on the running scan that names `expected_target` and
/// `expected_cursor`.
pub open spec fn scan_identity_refusal(
    s: DependencyRevisionState,
    expected_target: u64,
    expected_cursor: u64,
    transactional: bool,
) -> Option<DependencyScanError> {
    if !transactional {
        Some(DependencyScanError::TransactionRequired)
    } else if s.exhausted {
        Some(DependencyScanError::SourceExhausted)
    } else if s.scan_target is None {
        Some(DependencyScanError::ScanMissing)
    } else if s.scan_target != Some(expected_target) {
        Some(DependencyScanError::TargetMismatch)
    } else if s.scan_cursor != expected_cursor {
        Some(DependencyScanError::CursorMismatch)
    } else {
        None
    }
}

/// Outcome of completing the scan that names `expected_target` and `expected_cursor`.
pub open spec fn scan_completion(
    s: DependencyRevisionState,
    expected_target: u64,
    expected_cursor: u64,
    registration_next_index: u64,
    transactional: bool,
) -> (Result<DependencyScanMutation, DependencyScanError>, DependencyRevisionState) {
    match scan_identity_refusal(s, expected_target, expected_cursor, transactional) {
        Some(e) => (Err(e), s),
        None => if s.scan_cursor != s.scan_end {
            (Err(DependencyScanError::ScanComplete), s)
        } else if s.revision > expected_target {
            (Ok(DependencyScanMutation::HandedOff(s.revision)), with_scan(s, s.revision, registration_next_index))
        } else {
            (
                Ok(DependencyScanMutation::Completed),
                DependencyRevisionState { scan_target: None, scan_cursor: 0, scan_end: 0, ..s },
            )
        },
    }
}

/// Completes the scan that names `expected_target` once its cursor has reached its end. Where
/// the revision moved past the target meanwhile, a scan targeting the newest revision takes
/// over at once.
pub fn complete_dependency_scan(
    state: &mut DependencyRevisionState,
    expected_target: u64,
    expected_cursor: u64,
    registration_next_index: u64,
    transactional: bool,
) -> (r: Result<DependencyScanMutation, DependencyScanError>)
    ensures
        (r, *final(state)) == scan_completion(
            *old(state),
            expected_target,
            expected_cursor,
            registration_next_index,
            transactional,
        ),
{
    if !transactional {
        return Err(DependencyScanError::TransactionRequired);
    }
    if state.exhausted {
        return Err(DependencyScanError::SourceExhausted);
    }
    match state.scan_target {
        None => return Err(DependencyScanError::ScanMissing),
        Some(t) => {
            if t != expected_target {
                return Err(DependencyScanError::TargetMismatch);
            }
        },
    }
    if state.scan_cursor != expected_cursor {
        return Err(DependencyScanError::CursorMismatch);
    }
    if state.scan_cursor != state.scan_end {
        return Err(DependencyScanError::ScanComplete);
    }
    if state.revision > expected_target {
        let target = state.revision;
        state.scan_target = Some(target);
        state.scan_cursor = 0;
        state.scan_end = registration_next_index;
        Ok(DependencyScanMutation::HandedOff(target))
    } else {
        state.scan_target = None;
        state.scan_cursor = 0;
        state.scan_end = 0;
        Ok(DependencyScanMutation::Completed)
    }
}

/// The registration slot that scan index `index` visits.
pub open spec fn scan_position(index: u64) -> DependencyRegistrationPosition {
    DependencyRegistrationPosition { page: index / 32, slot: (index % 32) as u8 }
}

/// `m` maps `k` to exactly `v`.
pub open spec fn maps_to<K, V>(m: Map<K, V>, k: K, v: V) -> bool {
    m.contains_key(k) && m[k] == v
}

/// Stored dependency plans as sequences.
pub open spec fn plans_view(plans: Map<ActorId, Vec<DependencyPlanRegistration>>) -> Map<
    ActorId,
    Seq<DependencyPlanRegistration>,
> {
    plans.map_values(|v: Vec<DependencyPlanRegistration>| v@)
}

/// The stored dependency plan of `id`; an Actor without one has the empty plan.
pub open spec fn plan_of(plans: Map<ActorId, Seq<DependencyPlanRegistration>>, id: ActorId) -> Seq<
    DependencyPlanRegistration,
> {
    if plans.contains_key(id) {
        plans[id]
    } else {
        Seq::empty()
    }
}

/// `plan` has a registration on `source`.
pub open spec fn plan_has_source(plan: Seq<DependencyPlanRegistration>, source: DependencySourceId) -> bool {
    exists|i: int| 0 <= i < plan.len() && #[trigger] plan[i].source == source
}

/// The index of the first registration of `plan` on `source`.
pub open spec fn first_on_source(plan: Seq<DependencyPlanRegistration>, source: DependencySourceId) -> int {
    choose|i: int|
        0 <= i < plan.len() && #[trigger] plan[i].source == source && forall|j: int|
            0 <= j < i ==> #[trigger] plan[j].source != source
}

/// A non-empty stored plan of `id` does not hold `handle` as its first registration on
/// `source`.
pub open spec fn plan_disagrees(
    plans: Map<ActorId, Seq<DependencyPlanRegistration>>,
    id: ActorId,
    source: DependencySourceId,
    handle: DependencyRegistrationHandle,
) -> bool {
    let plan = plan_of(plans, id);
    plan.len() > 0 && (!plan_has_source(plan, source) || plan[first_on_source(plan, source)].handle != handle)
}

/// `plans` with `id`'s first registration on `source` acknowledged as `handle`; an empty plan is
/// left as it is.
pub open spec fn acknowledge_plan(
    plans: Map<ActorId, Seq<DependencyPlanRegistration>>,
    id: ActorId,
    source: DependencySourceId,
    handle: DependencyRegistrationHandle,
) -> Map<ActorId, Seq<DependencyPlanRegistration>> {
    let plan = plan_of(plans, id);
    if plan.len() == 0 {
        plans
    } else {
        plans.insert(id, plan.update(first_on_source(plan, source), DependencyPlanRegistration { source, handle }))
    }
}

/// `t` with the stale entry of `id` at `pos` freed; `id`'s recorded position goes too where it is
/// unregistered and recorded at `pos`.
pub open spec fn release_slot(t: RegistrationTableView, pos: DependencyRegistrationPosition, id: ActorId) -> RegistrationTableView {
    RegistrationTableView {
        positions: if !t.registrations.contains_key(id) && maps_to(t.positions, id, pos) {
            t.positions.remove(id)
        } else {
            t.positions
        },
        ..free_slot(t, pos)
    }
}

/// The entry a scan finds at `pos`, where the page exists and has that slot.
pub open spec fn scan_entry(t: RegistrationTableView, pos: DependencyRegistrationPosition) -> Option<
    Option<DependencyRegistrationHandle>,
> {
    if t.pages.contains_key(pos.page) && (pos.slot as int) < t.pages[pos.page].len() {
        Some(t.pages[pos.page][pos.slot as int])
    } else {
        None
    }
}

/// The refusal, if any, of visiting the scan's current index before anything is written.
pub open spec fn member_refusal(
    s: DependencyRevisionState,
    t: RegistrationTableView,
    pending_owners: Map<ActorId, PendingCheckOwner>,
    pending_reviews: Map<ActorId, DependencyTimedReview>,
    pending_events: Map<ActorId, PendingDependencyEvent>,
    expected_target: u64,
    expected_cursor: u64,
    max_active_actors: u32,
    transactional: bool,
) -> Option<DependencyScanError> {
    let pos = scan_position(s.scan_cursor);
    match scan_identity_refusal(s, expected_target, expected_cursor, transactional) {
        Some(e) => Some(e),
        None => if s.scan_cursor >= s.scan_end || s.scan_end > t.header.next_index {
            Some(DependencyScanError::ScanComplete)
        } else {
            match scan_entry(t, pos) {
                None => Some(DependencyScanError::CorruptTopology),
                Some(None) => None,
                Some(Some(h)) => {
                    let id = h.actor.actor_id;
                    if maps_to(t.registrations, id, h) {
                        if !maps_to(t.positions, id, pos) {
                            Some(DependencyScanError::CorruptRegistrationPosition)
                        } else if !pending_owners.contains_key(id) {
                            Some(DependencyScanError::PendingAuthorityMissing)
                        } else if pending_owners[id] != (PendingCheckOwner {
                            actor: h.actor,
                            plan_revision: h.plan_revision,
                        }) {
                            Some(DependencyScanError::PendingAuthorityMismatch)
                        } else if h.acknowledged_revision < expected_target && (pending_reviews.contains_key(id) || (
                        pending_events.contains_key(id) && pending_events[id].owner != pending_owners[id])) {
                            Some(DependencyScanError::PendingDestinationMismatch)
                        } else {
                            None
                        }
                    } else if t.registrations.contains_key(id) && maps_to(t.positions, id, pos) {
                        Some(DependencyScanError::CorruptRegistrationPosition)
                    } else if t.header.count == 0 || t.header.free_count >= max_active_actors {
                        Some(DependencyScanError::CorruptTopology)
                    } else {
                        None
                    }
                },
            }
        },
    }
}

/// What visiting the scan's current index does once nothing refused it: the cursor advances
/// past an empty slot, past a registration that already acknowledged the target, past a current
/// registration that it acknowledges (routing a pending event to the owner and acknowledging its
/// plan), and past a stale entry that it releases.
pub open spec fn member_visited(
    s0: DependencyRevisionState,
    s1: DependencyRevisionState,
    t0: RegistrationTableView,
    t1: RegistrationTableView,
    pending_owners: Map<ActorId, PendingCheckOwner>,
    e0: Map<ActorId, PendingDependencyEvent>,
    e1: Map<ActorId, PendingDependencyEvent>,
    p0: Map<ActorId, Seq<DependencyPlanRegistration>>,
    p1: Map<ActorId, Seq<DependencyPlanRegistration>>,
    source: DependencySourceId,
    target: u64,
    r: Result<DependencyScanMutation, DependencyScanError>,
) -> bool {
    let pos = scan_position(s0.scan_cursor);
    let advanced = s1 == DependencyRevisionState { scan_cursor: (s0.scan_cursor + 1) as u64, ..s0 } && r == Ok::<
        DependencyScanMutation,
        DependencyScanError,
    >(DependencyScanMutation::Advanced((s0.scan_cursor + 1) as u64));
    match scan_entry(t0, pos) {
        Some(Some(h)) => {
            let id = h.actor.actor_id;
            if maps_to(t0.registrations, id, h) {
                if h.acknowledged_revision < target {
                    let ack = DependencyRegistrationHandle { acknowledged_revision: target, ..h };
                    &&& e1 == (if e0.contains_key(id) {
                        e0
                    } else {
                        e0.insert(id, PendingDependencyEvent { owner: pending_owners[id], source, revision: target })
                    })
                    &&& if plan_disagrees(p0, id, source, h) {
                        r == Err::<DependencyScanMutation, DependencyScanError>(DependencyScanError::CorruptTopology)
                            && s1 == s0 && t1 == t0 && p1 == p0
                    } else {
                        advanced && t1 == put_at(t0, pos, ack) && p1 == acknowledge_plan(p0, id, source, ack)
                    }
                } else {
                    advanced && t1 == t0 && e1 == e0 && p1 == p0
                }
            } else {
                advanced && t1 == release_slot(t0, pos, id) && e1 == e0 && p1 == p0
            }
        },
        _ => advanced && t1 == t0 && e1 == e0 && p1 == p0,
    }
}

pub(crate) proof fn lemma_first_on_source(plan: Seq<DependencyPlanRegistration>, source: DependencySourceId, i: int)
    requires
        0 <= i < plan.len(),
        plan[i].source == source,
        forall|j: int| 0 <= j < i ==> #[trigger] plan[j].source != source,
    ensures
        plan_has_source(plan, source),
        first_on_source(plan, source) == i,
{
    let k = first_on_source(plan, source);
    assert(0 <= k < plan.len() && plan[k].source == source && forall|j: int|
        0 <= j < k ==> #[trigger] plan[j].source != source);
    if k < i {
        assert(plan[k].source != source);
    } else if k > i {
        assert(plan[i].source != source);
    }
}

/// The index of the first registration of `plan` on `source`, if any.
pub(crate) fn first_registration_on(plan: &Vec<DependencyPlanRegistration>, source: DependencySourceId) -> (r: Option<usize>)
    ensures
        match r {
            Some(i) => plan_has_source(plan@, source) && i as int == first_on_source(plan@, source) && i
                < plan@.len(),
            None => !plan_has_source(plan@, source),
        },
{
    let mut i: usize = 0;
    while i < plan.len()
        invariant
            0 <= i <= plan@.len(),
            forall|j: int| 0 <= j < i ==> #[trigger] plan@[j].source != source,
        decreases plan@.len() - i,
    {
        if plan[i].source == source {
            proof {
                lemma_first_on_source(plan@, source, i as int);
            }
            return Some(i);
        }
        i = i + 1;
    }
    None
}

/// Visits the registration slot at the running scan's cursor, which must be the scan named by
/// `expected_target` and `expected_cursor`, then advances the cursor. A current registration
/// that has not acknowledged the target is acknowledged, its owner gets a pending event for the
/// target unless it has one, and its stored plan records the acknowledgement; a stale entry (no
/// longer the owner's registration) is released to the freed stack. `pending_owners` and
/// `pending_reviews` are the Actors' pending owners and pending reviews.
pub fn process_dependency_scan_member(
    state: &mut DependencyRevisionState,
    table: &mut DependencyRegistrationTable,
    pending_owners: &HashMap<ActorId, PendingCheckOwner>,
    pending_reviews: &HashMap<ActorId, DependencyTimedReview>,
    pending_events: &mut HashMap<ActorId, PendingDependencyEvent>,
    plans: &mut HashMap<ActorId, Vec<DependencyPlanRegistration>>,
    source: DependencySourceId,
    expected_target: u64,
    expected_cursor: u64,
    max_active_actors: u32,
    transactional: bool,
) -> (r: Result<DependencyScanMutation, DependencyScanError>)
    ensures
        match member_refusal(
            *old(state),
            old(table)@,
            pending_owners@,
            pending_reviews@,
            old(pending_events)@,
            expected_target,
            expected_cursor,
            max_active_actors,
            transactional,
        ) {
            Some(e) => r == Err::<DependencyScanMutation, DependencyScanError>(e) && *final(state) == *old(state)
                && final(table)@ == old(table)@ && final(pending_events)@ == old(pending_events)@
                && final(plans)@ == old(plans)@,
            None => member_visited(
                *old(state),
                *final(state),
                old(table)@,
                final(table)@,
                pending_owners@,
                old(pending_events)@,
                final(pending_events)@,
                plans_view(old(plans)@),
                plans_view(final(plans)@),
                source,
                expected_target,
                r,
            ),
        },
{
    if !transactional {
        return Err(DependencyScanError::TransactionRequired);
    }
    if state.exhausted {
        return Err(DependencyScanError::SourceExhausted);
    }
    match state.scan_target {
        None => return Err(DependencyScanError::ScanMissing),
        Some(t) => {
            if t != expected_target {
                return Err(DependencyScanError::TargetMismatch);
            }
        },
    }
    if state.scan_cursor != expected_cursor {
        return Err(DependencyScanError::CursorMismatch);
    }
    if state.scan_cursor >= state.scan_end || state.scan_end > table.header.next_index {
        return Err(DependencyScanError::ScanComplete);
    }
    let cursor = state.scan_cursor;
    let page_id = cursor / 32;
    let slot = (cursor % 32) as usize;
    let position = DependencyRegistrationPosition { page: page_id, slot: (cursor % 32) as u8 };
    let mut page = match table.page_copy(page_id) {
        Some(p) => p,
        None => return Err(DependencyScanError::CorruptTopology),
    };
    if slot >= page.len() {
        return Err(DependencyScanError::CorruptTopology);
    }
    match page[slot] {
        None => {},
        Some(handle) => {
            let id = handle.actor.actor_id;
            let current_matches = match table.registrations.get(&id) {
                Some(c) => *c == handle,
                None => false,
            };
            let reverse_here = match table.positions.get(&id) {
                Some(p) => *p == position,
                None => false,
            };
            if current_matches {
                if !reverse_here {
                    return Err(DependencyScanError::CorruptRegistrationPosition);
                }
                let pending = match pending_owners.get(&id) {
                    Some(p) => *p,
                    None => return Err(DependencyScanError::PendingAuthorityMissing),
                };
                if pending != (PendingCheckOwner { actor: handle.actor, plan_revision: handle.plan_revision }) {
                    return Err(DependencyScanError::PendingAuthorityMismatch);
                }
                if handle.acknowledged_revision < expected_target {
                    if pending_reviews.contains_key(&id) {
                        return Err(DependencyScanError::PendingDestinationMismatch);
                    }
                    let event_present = match pending_events.get(&id) {
                        None => false,
                        Some(current) => {
                            if current.owner != pending {
                                return Err(DependencyScanError::PendingDestinationMismatch);
                            }
                            true
                        },
                    };
                    if !event_present {
                        pending_events.insert(id, PendingDependencyEvent { owner: pending, source, revision: expected_target });
                    }
                    let acknowledged = DependencyRegistrationHandle { acknowledged_revision: expected_target, ..handle };
                    let mut plan = match plans.get(&id) {
                        Some(p) => p.clone(),
                        None => Vec::new(),
                    };
                    if plan.len() > 0 {
                        let index = match first_registration_on(&plan, source) {
                            Some(index) => index,
                            None => return Err(DependencyScanError::CorruptTopology),
                        };
                        if plan[index].handle != handle {
                            return Err(DependencyScanError::CorruptTopology);
                        }
                        plan.set(index, DependencyPlanRegistration { source, handle: acknowledged });
                        plans.insert(id, plan);
                        proof {
                            assert(plans_view(plans@) =~= acknowledge_plan(
                                plans_view(old(plans)@),
                                id,
                                source,
                                acknowledged,
                            ));
                        }
                    }
                    page.set(slot, Some(acknowledged));
                    table.pages.insert(page_id, page);
                    table.registrations.insert(id, acknowledged);
                    proof {
                        assert(table@.pages =~= old(table)@.pages.insert(
                            page_id,
                            old(table)@.pages[page_id].update(slot as int, Some(acknowledged)),
                        ));
                        assert(table@ == put_at(old(table)@, position, acknowledged));
                    }
                }
            } else {
                if table.registrations.contains_key(&id) && reverse_here {
                    return Err(DependencyScanError::CorruptRegistrationPosition);
                }
                page.set(slot, None);
                let mut header = table.header;
                if header.count == 0 {
                    return Err(DependencyScanError::CorruptTopology);
                }
                header.count = header.count - 1;
                if header.free_count >= max_active_actors {
                    return Err(DependencyScanError::CorruptTopology);
                }
                table.free_positions.insert(header.free_count, position);
                header.free_count = header.free_count + 1;
                table.pages.insert(page_id, page);
                table.header = header;
                if !table.registrations.contains_key(&id) && reverse_here {
                    table.positions.remove(&id);
                }
                proof {
                    assert(table@.pages =~= old(table)@.pages.insert(
                        page_id,
                        old(table)@.pages[page_id].update(slot as int, None),
                    ));
                    assert(table@ == release_slot(old(table)@, position, id));
                }
            }
        },
    }
    state.scan_cursor = cursor + 1;
    Ok(DependencyScanMutation::Advanced(cursor + 1))
}

/// A scan visit that advances leaves the visited slot settled for the target: empty, or holding
/// a registration that has acknowledged the target. Every other slot keeps its entry.
pub proof fn lemma_visit_settles_slot(
    s0: DependencyRevisionState,
    s1: DependencyRevisionState,
    t0: RegistrationTableView,
    t1: RegistrationTableView,
    pending_owners: Map<ActorId, PendingCheckOwner>,
    pending_reviews: Map<ActorId, DependencyTimedReview>,
    e0: Map<ActorId, PendingDependencyEvent>,
    e1: Map<ActorId, PendingDependencyEvent>,
    p0: Map<ActorId, Seq<DependencyPlanRegistration>>,
    p1: Map<ActorId, Seq<DependencyPlanRegistration>>,
    source: DependencySourceId,
    target: u64,
    cursor: u64,
    max_active_actors: u32,
    r: Result<DependencyScanMutation, DependencyScanError>,
)
    requires
        member_refusal(s0, t0, pending_owners, pending_reviews, e0, target, cursor, max_active_actors, true) is None,
        member_visited(s0, s1, t0, t1, pending_owners, e0, e1, p0, p1, source, target, r),
        r is Ok,
    ensures
        s1.scan_cursor == cursor + 1,
        s1.scan_target == Some(target),
        match slot_at(t1.pages, scan_position(cursor)) {
            None => true,
            Some(h) => h.acknowledged_revision >= target,
        },
        forall|q: DependencyRegistrationPosition|
            q != scan_position(cursor) ==> #[trigger] slot_at(t1.pages, q) == slot_at(t0.pages, q),
{
    let pos = scan_position(cursor);
    assert forall|q: DependencyRegistrationPosition| q != pos implies #[trigger] slot_at(t1.pages, q) == slot_at(
        t0.pages,
        q,
    ) by {
        if q.page == pos.page {
            assert(q.slot != pos.slot);
        }
    }
}

/// A scan visit keeps every registered owner at its recorded position and keeps the header
/// balanced.
pub proof fn lemma_visit_keeps_consistent(
    s0: DependencyRevisionState,
    s1: DependencyRevisionState,
    t0: RegistrationTableView,
    t1: RegistrationTableView,
    pending_owners: Map<ActorId, PendingCheckOwner>,
    pending_reviews: Map<ActorId, DependencyTimedReview>,
    e0: Map<ActorId, PendingDependencyEvent>,
    e1: Map<ActorId, PendingDependencyEvent>,
    p0: Map<ActorId, Seq<DependencyPlanRegistration>>,
    p1: Map<ActorId, Seq<DependencyPlanRegistration>>,
    source: DependencySourceId,
    target: u64,
    cursor: u64,
    max_active_actors: u32,
    r: Result<DependencyScanMutation, DependencyScanError>,
)
    requires
        table_consistent(t0),
        header_balanced(t0.header, max_active_actors),
        member_refusal(s0, t0, pending_owners, pending_reviews, e0, target, cursor, max_active_actors, true) is None,
        member_visited(s0, s1, t0, t1, pending_owners, e0, e1, p0, p1, source, target, r),
    ensures
        table_consistent(t1),
        header_balanced(t1.header, max_active_actors),
{
    let pos = scan_position(s0.scan_cursor);
    if let Some(Some(h)) = scan_entry(t0, pos) {
        let id = h.actor.actor_id;
        if maps_to(t0.registrations, id, h) {
            if h.acknowledged_revision < target && !plan_disagrees(p0, id, source, h) {
                assert(t1.positions.dom() =~= t1.registrations.dom());
                assert forall|a: ActorId| #[trigger] t1.registrations.contains_key(a) implies t1.registrations[a].actor.actor_id
                    == a && t1.positions.contains_key(a) && slot_at(t1.pages, t1.positions[a]) == Some(
                    t1.registrations[a],
                ) by {
                    if a != id {
                        let p = t0.positions[a];
                        assert(slot_at(t0.pages, p) == Some(t0.registrations[a]));
                        if p.page == pos.page && p.slot == pos.slot {
                            assert(t0.registrations[a] == t0.registrations[id]);
                        }
                    }
                }
            }
        } else {
            assert(t1.positions.dom() =~= t1.registrations.dom());
            assert forall|a: ActorId| #[trigger] t1.registrations.contains_key(a) implies t1.registrations[a].actor.actor_id
                == a && t1.positions.contains_key(a) && slot_at(t1.pages, t1.positions[a]) == Some(
                t1.registrations[a],
            ) by {
                let p = t0.positions[a];
                assert(slot_at(t0.pages, p) == Some(t0.registrations[a]));
                if p.page == pos.page && p.slot == pos.slot {
                    assert(t0.registrations[a] == h);
                }
            }
        }
    }
}

} // verus!
