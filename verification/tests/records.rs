use std::collections::HashMap;

use lib::contract::{AmountResolution, Predicate, Step, StepErrorPolicy, Task};
use lib::control::{derive_step_resource_envelopes, step_control_weight_contexts, contract_steps_admission_weight_upper, is_inherent_required, observation_fanout_ordinary_weight_upper, ActorPrepassInherentError};
use lib::deadline_index::{WakeupClock, WakeupKey};
use lib::dependency_registry::DependencyRegistry;
use lib::dependency_review::DependencyRevisionState;
use lib::geometry::ActorStepResourceEnvelope;
use lib::owner_slots::{owner_slot_bitmap_is_empty, owner_slot_bitmap_is_valid, set_owner_slot, OwnerSlotBitmap};
use lib::registrations::{DependencyRegistrationHeader, DependencyRegistrationTable};
use lib::scan_sources::{
    dependency_scan_source_capacity, DependencyScanSourceError, DependencyScanSourceMutation, DependencyScanSources,
};
use lib::semantic::{
    project_actor_semantic_execution, ActorSemanticExecutionProjection, ActorSemanticProjectionError,
    ActorWaitingEntry, ActorWakeupReference, CycleState, MaterializationMinimumReservation,
};
use lib::weight::Weight;

fn wt(r: u64, p: u64) -> Weight {
    Weight::from_parts(r, p)
}

#[test]
fn semantic_execution_projection() {
    let res = ActorStepResourceEnvelope { control: wt(1, 1), effect: wt(2, 2) };
    assert_eq!(
        project_actor_semantic_execution(CycleState::Idle, None, Some(res)),
        Ok(ActorSemanticExecutionProjection { cursor: 0, eligible_at: None, resources: res })
    );
    assert_eq!(
        project_actor_semantic_execution(CycleState::Suspended, Some((3, 40)), Some(res)),
        Ok(ActorSemanticExecutionProjection { cursor: 3, eligible_at: Some(40), resources: res })
    );
    assert_eq!(
        project_actor_semantic_execution(CycleState::Idle, Some((3, 40)), Some(res)),
        Err(ActorSemanticProjectionError::RunStateMismatch)
    );
    assert_eq!(
        project_actor_semantic_execution(CycleState::Running, Some((1, 2)), None),
        Err(ActorSemanticProjectionError::CurrentStepMissing)
    );
}

#[test]
fn waiting_entries_expose_their_primary_cell() {
    let mut primary: ActorWaitingEntry<u32> = ActorWaitingEntry::Primary(5);
    let reference: ActorWaitingEntry<u32> =
        ActorWaitingEntry::Reference(ActorWakeupReference { actor_id: 1, admission_identity: [0u8; 32] });
    assert_eq!(primary.primary(), Some(&5));
    assert_eq!(reference.primary(), None);
    if let Some(cell) = primary.primary_mut() {
        *cell = 6;
    }
    assert_eq!(primary.clone().into_primary(), Some(6));
    assert_eq!(reference.into_primary(), None);
    assert!(MaterializationMinimumReservation::ReserveAllFamilies.reserves_all_families());
    assert!(!MaterializationMinimumReservation::Unavailable.reserves_all_families());
}

#[test]
fn admission_weight_upper_takes_heaviest_step() {
    let step = Step { task: Task::StopCycle, on_error: StepErrorPolicy::NoRetry, precondition: None };
    let steps = vec![step.clone(), step];
    let res = vec![
        ActorStepResourceEnvelope { control: wt(5, 1), effect: wt(1, 9) },
        ActorStepResourceEnvelope { control: wt(2, 2), effect: wt(7, 1) },
    ];
    assert_eq!(contract_steps_admission_weight_upper(&steps, Some(&res), wt(50, 50), wt(1, 1), wt(2, 2)), wt(12, 13));
    assert_eq!(
        contract_steps_admission_weight_upper(&steps, None, wt(50, 50), wt(1, 1), wt(2, 2)),
        wt(u64::MAX, u64::MAX)
    );
    assert_eq!(contract_steps_admission_weight_upper(&Vec::new(), None, wt(50, 50), wt(1, 1), wt(2, 2)), wt(53, 53));
    assert_eq!(observation_fanout_ordinary_weight_upper(wt(1, 9), wt(4, 2), wt(3, 3), wt(2, 1)), wt(4, 9));
    assert_eq!(is_inherent_required(), Ok(Some(ActorPrepassInherentError::MissingCall)));
}

#[test]
fn owner_bitmap_validity() {
    let mut b: OwnerSlotBitmap = [0u8; 32];
    assert!(owner_slot_bitmap_is_empty(&b));
    assert!(owner_slot_bitmap_is_valid(&b, 4));
    assert!(!owner_slot_bitmap_is_valid(&b, 0));
    set_owner_slot(&mut b, 5);
    assert!(!owner_slot_bitmap_is_empty(&b));
    assert!(!owner_slot_bitmap_is_valid(&b, 5));
    assert!(owner_slot_bitmap_is_valid(&b, 6));
}

#[test]
fn scan_selector_direct_membership() {
    assert_eq!(dependency_scan_source_capacity(10, 4), 40);
    assert_eq!(dependency_scan_source_capacity(u32::MAX, 2), u32::MAX);
    let mut sources = DependencyScanSources::new();
    assert_eq!(sources.insert_dependency_scan_source(3, false, 4, true), Err(DependencyScanSourceError::ScanInactive));
    assert_eq!(sources.insert_dependency_scan_source(3, true, 4, true), Ok(DependencyScanSourceMutation::Inserted));
    assert_eq!(sources.insert_dependency_scan_source(4, true, 4, true), Ok(DependencyScanSourceMutation::Inserted));
    assert_eq!(sources.insert_dependency_scan_source(3, true, 4, true), Ok(DependencyScanSourceMutation::AlreadyActive));
    assert_eq!(sources.list.count, 2);
    assert_eq!(sources.remove_dependency_scan_source(3, true, true), Err(DependencyScanSourceError::ScanInactive));
    assert_eq!(sources.remove_dependency_scan_source(3, false, true), Ok(DependencyScanSourceMutation::Removed));
    assert_eq!(sources.list.count, 1);
    assert_eq!(sources.remove_dependency_scan_source(9, false, true), Err(DependencyScanSourceError::Missing));
}

#[test]
fn small_values() {
    assert!(Weight::zero().is_zero());
    assert!(!wt(0, 1).is_zero());
    assert_eq!(wt(3, 9).component_min(wt(5, 2)), wt(3, 2));
    assert_eq!(WakeupKey::Block(7).clock(), WakeupClock::Block);
    assert_eq!(WakeupKey::Tick(9).instant(), 9);
    assert_eq!(WakeupKey::Block(7).instant(), 7);
    let p = Predicate { encoded: vec![1, 2, 3], observation_max_age_blocks: Some(4) };
    assert_eq!(p.duplicate(), p);
    assert!(Task::Mint { asset: 1, amount: AmountResolution::Fixed(1) }.is_mint());
    assert!(!Task::StopCycle.is_mint());
}

#[test]
fn registry_reads_default_source_state() {
    let mut r = DependencyRegistry {
        revisions: HashMap::new(),
        tables: HashMap::new(),
        pending_owners: HashMap::new(),
        plans: HashMap::new(),
        timed_reviews: HashMap::new(),
        pending_events: HashMap::new(),
        pending_reviews: HashMap::new(),
    };
    assert_eq!(
        r.revision_state(4),
        DependencyRevisionState { revision: 0, exhausted: false, scan_target: None, scan_cursor: 0, scan_end: 0 }
    );
    assert_eq!(r.registration_next_index(4), 0);
    r.tables.insert(
        4,
        DependencyRegistrationTable {
            header: DependencyRegistrationHeader { count: 1, free_count: 0, next_index: 6 },
            free_positions: HashMap::new(),
            pages: HashMap::new(),
            positions: HashMap::new(),
            registrations: HashMap::new(),
        },
    );
    assert_eq!(r.registration_next_index(4), 6);
}

#[test]
fn step_resource_envelopes_from_runtime_weights() {
    let ctx = step_control_weight_contexts(&vec![0, 2, 1], 8, 2).unwrap();
    assert_eq!(ctx.len(), 3);
    assert_eq!(ctx[0].opening_tail_chunks, 1);
    assert_eq!(ctx[1].predicate_evaluation_units, 2);
    assert_eq!(ctx[2].steps_in_fragment, 2);
    assert!(step_control_weight_contexts(&vec![0, 0, 0], 2, 2).is_none());
    let controls = vec![Some(wt(1, 1)), Some(wt(2, 2))];
    let effects = vec![Some(wt(3, 3)), Some(wt(4, 4))];
    let env = derive_step_resource_envelopes(&controls, &effects, 8).unwrap();
    assert_eq!(env[1], ActorStepResourceEnvelope { control: wt(2, 2), effect: wt(4, 4) });
    assert!(derive_step_resource_envelopes(&controls, &vec![Some(wt(3, 3)), None], 8).is_none());
    assert!(derive_step_resource_envelopes(&controls, &effects, 1).is_none());
}
