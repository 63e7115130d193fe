use lib::contract::{Step, StepErrorPolicy, Task, Trigger, TriggerFamily};
use lib::control::{
    check_inherent, create_inherent, ensure_contract_steps_fits_idle_budget, guaranteed_actor_service_weight,
    materialization_family_budget, materialization_weight_limit, max_configurable_active_actor_limit,
    classify_sweep_load, permissionless_sweep_many, set_active_actor_limit, step_control_weight_context, tally_sweep_batch,
    update_idle_starvation_state, SweepLoad,
    ActorPrepassInherentData, ActorPrepassInherentError, Event, IdleStarvationPhase, InherentDataRead,
    StepControlWeightContext, SweepOutcome,
};
use lib::errors::Error;
use lib::fees::{
    compose_attempt_fee_envelope, fee_native_protected_minimum, pipeline_fee_breakdown, settle_attempt_fee_step,
    trigger_fee_for_weight, FeeAssetClass, FeeChargeKind, FeeEnvelopeError, FeeEnvelopeInput,
    FeeStepSettlement, PipelineFeeBreakdown, PipelineMachineEnvelope,
};
use lib::geometry::{tail_chunk_count, tail_chunk_index};
use lib::owner_slots::{available_owner_slot, clear_owner_slot, owner_slot_is_set, set_owner_slot};
use lib::semantic::{apply_actor_semantic_mutation, next_actor_generation, ActorSemanticMutation, ActorSemanticMutationError};
use lib::state_hold::{state_hold_component, state_hold_total, ActorStateHoldBreakdown};
use lib::types::ActorType;
use lib::validation::{contract_steps_bound_is_valid, ensure_auto_close_target, validate_trigger};
use lib::weight::Weight;

fn w(r: u64, p: u64) -> Weight {
    Weight::from_parts(r, p)
}

#[test]
fn weight_arithmetic_saturates_and_checks() {
    assert_eq!(w(u64::MAX, 1).saturating_add(w(5, 2)), w(u64::MAX, 3));
    assert_eq!(w(3, 1).saturating_sub(w(5, 1)), w(0, 0));
    assert_eq!(w(9, 9).checked_sub(w(4, 10)), None);
    assert_eq!(w(9, 9).checked_sub(w(4, 9)), Some(w(5, 0)));
    assert!(w(1, 2).all_lte(w(1, 3)));
    assert!(!w(2, 2).all_lte(w(1, 3)));
    assert_eq!(w(1, 7).component_max(w(4, 2)), w(4, 7));
}

#[test]
fn materialization_limit_sums_worker_weights() {
    assert_eq!(materialization_weight_limit(w(1, 2), w(3, 4), w(5, 6)), w(9, 12));
}

#[test]
fn family_budget_reserves_later_minimums() {
    let minimums = [w(10, 1), w(20, 2), w(30, 3)];
    // Cursor 1, offset 0: families 2 and 0 are still to be served.
    assert_eq!(materialization_family_budget(1, 0, w(100, 100), true, &minimums), w(60, 96));
    assert_eq!(materialization_family_budget(1, 2, w(100, 100), true, &minimums), w(100, 100));
    assert_eq!(materialization_family_budget(1, 0, w(30, 100), true, &minimums), w(0, 0));
    assert_eq!(materialization_family_budget(1, 0, w(30, 100), false, &minimums), w(30, 100));
}

#[test]
fn guaranteed_service_weight_subtracts_overheads() {
    assert_eq!(
        guaranteed_actor_service_weight(w(100, 100), w(10, 1), w(20, 2), w(30, 3), w(5, 4)),
        Some(w(35, 90))
    );
    assert_eq!(guaranteed_actor_service_weight(w(100, 100), w(10, 1), w(20, 2), w(30, 3), w(41, 4)), None);
}

#[test]
fn idle_budget_admission() {
    assert_eq!(
        ensure_contract_steps_fits_idle_budget(ActorType::User, w(5, 5), None, true),
        Err(Error::ContractStepsExceedOnIdleBudget)
    );
    assert_eq!(
        ensure_contract_steps_fits_idle_budget(ActorType::User, w(5, 5), Some(w(5, 4)), true),
        Err(Error::ContractStepsExceedOnIdleBudget)
    );
    assert_eq!(
        ensure_contract_steps_fits_idle_budget(ActorType::User, w(5, 5), Some(w(5, 5)), false),
        Err(Error::ActorRunInvariant)
    );
    assert_eq!(ensure_contract_steps_fits_idle_budget(ActorType::System, w(5, 5), Some(w(5, 5)), false), Ok(()));
}

#[test]
fn step_control_context_for_head_and_tail() {
    assert_eq!(
        step_control_weight_context(10, 0, 3, 2, 16, 4),
        Some(StepControlWeightContext {
            cursor: 0,
            steps_in_fragment: 1,
            opening_tail_chunks: 3,
            predicate_evaluation_units: 3,
            opening_snapshot_entries: 2,
        })
    );
    assert_eq!(
        step_control_weight_context(10, 9, 3, 2, 16, 4),
        Some(StepControlWeightContext {
            cursor: 9,
            steps_in_fragment: 1,
            opening_tail_chunks: 0,
            predicate_evaluation_units: 3,
            opening_snapshot_entries: 0,
        })
    );
    assert_eq!(step_control_weight_context(10, 10, 3, 2, 16, 4), None);
    assert_eq!(step_control_weight_context(20, 1, 3, 2, 16, 4), None);
}

#[test]
fn tail_chunks_cover_the_steps_after_the_head() {
    assert_eq!(tail_chunk_count(0, 4), 0);
    assert_eq!(tail_chunk_count(1, 4), 0);
    assert_eq!(tail_chunk_count(5, 4), 1);
    assert_eq!(tail_chunk_count(6, 4), 2);
    assert_eq!(tail_chunk_index(1, 4), (0, 1));
    assert_eq!(tail_chunk_index(5, 4), (1, 5));
}

#[test]
fn active_actor_limit_changes() {
    assert_eq!(max_configurable_active_actor_limit(100, 50), 50);
    let mut limit: u32 = 5;
    assert_eq!(set_active_actor_limit(0, 10, 10, 0, &mut limit), Err(Error::ActiveActorLimitTooLow));
    assert_eq!(set_active_actor_limit(11, 10, 20, 0, &mut limit), Err(Error::ActiveActorLimitTooHigh));
    assert_eq!(set_active_actor_limit(9, 10, 8, 0, &mut limit), Err(Error::ActiveActorLimitExceedsQueueCapacity));
    assert_eq!(set_active_actor_limit(3, 10, 10, 4, &mut limit), Err(Error::ActiveActorLimitBelowCurrent));
    assert_eq!(limit, 5);
    assert_eq!(set_active_actor_limit(5, 10, 10, 4, &mut limit), Ok(None));
    assert_eq!(
        set_active_actor_limit(7, 10, 10, 4, &mut limit),
        Ok(Some(Event::ActiveActorLimitSet { old_limit: 5, new_limit: 7 }))
    );
    assert_eq!(limit, 7);
}

#[test]
fn starvation_alerts_once_and_recovers() {
    let (s1, e1) = update_idle_starvation_state(IdleStarvationPhase::Healthy, true, 2);
    assert_eq!(s1, IdleStarvationPhase::Starving { consecutive_blocks: 1 });
    assert_eq!(e1, None);
    let (s2, e2) = update_idle_starvation_state(s1, true, 2);
    assert_eq!(s2, IdleStarvationPhase::Alerted { consecutive_blocks: 2 });
    assert_eq!(e2, Some(Event::IdleStarvationDetected { consecutive_blocks: 2 }));
    let (s3, e3) = update_idle_starvation_state(s2, true, 2);
    assert_eq!(s3, IdleStarvationPhase::Alerted { consecutive_blocks: 3 });
    assert_eq!(e3, None);
    let (s4, e4) = update_idle_starvation_state(s3, false, 2);
    assert_eq!(s4, IdleStarvationPhase::Healthy);
    assert_eq!(e4, Some(Event::IdleStarvationRecovered { consecutive_blocks: 3 }));
}

#[test]
fn prepass_inherent_checks() {
    let good = InherentDataRead::Present(ActorPrepassInherentData { version: 1 });
    let old = InherentDataRead::Present(ActorPrepassInherentData { version: 0 });
    assert!(create_inherent(good));
    assert!(!create_inherent(old));
    assert!(!create_inherent(InherentDataRead::Absent));
    assert_eq!(check_inherent(true, good), Ok(()));
    assert_eq!(check_inherent(true, old), Err(ActorPrepassInherentError::UnsupportedVersion));
    assert_eq!(check_inherent(true, InherentDataRead::Undecodable), Err(ActorPrepassInherentError::MissingData));
    assert_eq!(check_inherent(false, InherentDataRead::Absent), Ok(()));
    assert!(ActorPrepassInherentError::MissingCall.is_fatal_error());
}

#[test]
fn sweep_batch_tally() {
    let batch = vec![SweepOutcome::Closed, SweepOutcome::Alive, SweepOutcome::Missing, SweepOutcome::Closed];
    assert_eq!(
        tally_sweep_batch(&batch),
        Ok(Event::SweepBatchProcessed { requested: 4, closed: 2, alive: 1, missing: 1 })
    );
    assert_eq!(tally_sweep_batch(&vec![SweepOutcome::Alive, SweepOutcome::Corrupt]), Err(Error::ActorInvariant));
}

#[test]
fn fee_envelope_composition() {
    let inputs = vec![
        FeeEnvelopeInput { evaluation: 1, execution: 2 },
        FeeEnvelopeInput { evaluation: 3, execution: 4 },
    ];
    let env = compose_attempt_fee_envelope(ActorType::User, &inputs, 0).unwrap();
    assert_eq!(env.total, 10);
    assert_eq!(env.steps.len(), 2);
    assert_eq!(env.steps[1].total, 7);
    let tail = compose_attempt_fee_envelope(ActorType::User, &inputs, 1).unwrap();
    assert_eq!(tail.total, 7);
    let system = compose_attempt_fee_envelope(ActorType::System, &inputs, 0).unwrap();
    assert_eq!(system.total, 0);
    assert_eq!(compose_attempt_fee_envelope(ActorType::User, &inputs, 3).unwrap_err(), FeeEnvelopeError::CursorOutOfBounds);
    let huge = vec![FeeEnvelopeInput { evaluation: u128::MAX, execution: 1 }];
    assert_eq!(compose_attempt_fee_envelope(ActorType::User, &huge, 0).unwrap_err(), FeeEnvelopeError::Overflow);
}

#[test]
fn settling_an_envelope_releases_the_reservation() {
    let inputs = vec![
        FeeEnvelopeInput { evaluation: 1, execution: 2 },
        FeeEnvelopeInput { evaluation: 3, execution: 4 },
    ];
    let env = compose_attempt_fee_envelope(ActorType::User, &inputs, 0).unwrap();
    let mut reservation = env.total;
    let first = settle_attempt_fee_step(ActorType::User, reservation, &env.steps[0], FeeChargeKind::EvaluationOnly).unwrap();
    assert_eq!(first, FeeStepSettlement { charged: 1, reservation_remaining: 7 });
    reservation = first.reservation_remaining;
    let second = settle_attempt_fee_step(ActorType::User, reservation, &env.steps[1], FeeChargeKind::Attempted).unwrap();
    assert_eq!(second, FeeStepSettlement { charged: 7, reservation_remaining: 0 });
    assert!(first.charged + second.charged < env.total);
    assert_eq!(
        settle_attempt_fee_step(ActorType::User, 2, &env.steps[0], FeeChargeKind::Attempted),
        Err(FeeEnvelopeError::ReservationUnderflow)
    );
}

#[test]
fn fee_breakdowns() {
    assert_eq!(fee_native_protected_minimum(ActorType::User, FeeAssetClass::FeeNative, 5, 100), 100);
    assert_eq!(fee_native_protected_minimum(ActorType::System, FeeAssetClass::FeeNative, 5, 100), 5);
    let t = trigger_fee_for_weight(ActorType::User, TriggerFamily::Manual, w(1, 0), 42);
    assert_eq!(t.trigger_fee, 42);
    assert_eq!(trigger_fee_for_weight(ActorType::User, TriggerFamily::Manual, w(0, 0), 42).trigger_fee, 0);
    assert_eq!(trigger_fee_for_weight(ActorType::System, TriggerFamily::Manual, w(1, 0), 42).trigger_fee, 0);
    let env = PipelineMachineEnvelope { pipeline_machine_fee_upper: 6, cleanup_fee_upper: 4 };
    assert_eq!(
        pipeline_fee_breakdown(ActorType::User, env),
        Ok(PipelineFeeBreakdown { pipeline_machine_fee: 6, cleanup_fee: 4, total_fee: 10 })
    );
    let over = PipelineMachineEnvelope { pipeline_machine_fee_upper: u128::MAX, cleanup_fee_upper: 1 };
    assert_eq!(pipeline_fee_breakdown(ActorType::User, over), Err(Error::AdmissionBoundOverflow));
}

#[test]
fn owner_slots_set_clear_and_allocate() {
    let mut bitmap = [0u8; 32];
    set_owner_slot(&mut bitmap, 0);
    set_owner_slot(&mut bitmap, 1);
    set_owner_slot(&mut bitmap, 9);
    assert!(owner_slot_is_set(&bitmap, 9));
    assert!(!owner_slot_is_set(&bitmap, 8));
    assert_eq!(bitmap[1], 0b10);
    assert_eq!(available_owner_slot(&bitmap, 16, None), Ok(2));
    assert_eq!(available_owner_slot(&bitmap, 16, Some(9)), Err(Error::OwnerSlotOccupied));
    assert_eq!(available_owner_slot(&bitmap, 16, Some(16)), Err(Error::InvalidOwnerSlot));
    assert_eq!(available_owner_slot(&bitmap, 8, None), Err(Error::InvalidOwnerSlot));
    assert_eq!(available_owner_slot(&bitmap, 2, Some(0)), Err(Error::InvalidOwnerSlot));
    clear_owner_slot(&mut bitmap, 9);
    assert_eq!(available_owner_slot(&bitmap, 2, None), Err(Error::OwnerSlotCapacityExceeded));
    assert!(owner_slot_is_set(&bitmap, 1));
}

#[test]
fn semantic_mutations_compare_and_replace() {
    assert_eq!(next_actor_generation(0), Some(1));
    assert_eq!(next_actor_generation(u64::MAX), None);
    assert_eq!(apply_actor_semantic_mutation::<u32>(None, ActorSemanticMutation::Publish(4)), Ok(Some(4)));
    assert_eq!(
        apply_actor_semantic_mutation(Some(&4u32), ActorSemanticMutation::Publish(5)),
        Err(ActorSemanticMutationError::AlreadyPublished)
    );
    assert_eq!(
        apply_actor_semantic_mutation(Some(&4u32), ActorSemanticMutation::Replace { expected: 4, replacement: 6 }),
        Ok(Some(6))
    );
    assert_eq!(
        apply_actor_semantic_mutation(Some(&4u32), ActorSemanticMutation::Remove { expected: 3 }),
        Err(ActorSemanticMutationError::Stale)
    );
    assert_eq!(
        apply_actor_semantic_mutation::<u32>(None, ActorSemanticMutation::Remove { expected: 3 }),
        Err(ActorSemanticMutationError::Missing)
    );
    assert_eq!(apply_actor_semantic_mutation(Some(&4u32), ActorSemanticMutation::Remove { expected: 4 }), Ok(None));
}

#[test]
fn state_hold_components() {
    assert_eq!(state_hold_component(0, 3, 10), Ok(0));
    assert_eq!(state_hold_component(5, 3, 10), Ok(25));
    assert_eq!(state_hold_component(1, u128::MAX, 1), Err(Error::StateHoldOverflow));
    let b = ActorStateHoldBreakdown { identity: 1, contract_head: 2, contract_body: 3, detector: 4, run: 5 };
    assert_eq!(state_hold_total(&b), Ok(15));
}

#[test]
fn admission_validation() {
    assert!(contract_steps_bound_is_valid(255));
    assert!(!contract_steps_bound_is_valid(0));
    assert!(!contract_steps_bound_is_valid(256));
    assert_eq!(ensure_auto_close_target(5, 5, 10), Err(Error::InvalidAutoCloseNonce));
    assert_eq!(ensure_auto_close_target(5, 16, 10), Err(Error::AutoCloseNonceHorizonExceeded));
    assert_eq!(ensure_auto_close_target(5, 15, 10), Ok(()));
    assert_eq!(validate_trigger(&Trigger::Manual, 0, false, true, 10, 10), Err(Error::InvalidTriggerConfiguration));
    assert_eq!(validate_trigger(&Trigger::AtTime { after_ticks: 0 }, 0, true, true, 10, 10), Err(Error::InvalidTriggerConfiguration));
    assert_eq!(validate_trigger(&Trigger::Cadenced { every_ticks: 11 }, 0, true, true, 10, 10), Err(Error::ExecutionDelayTooLong));
    assert_eq!(validate_trigger(&Trigger::Cadenced { every_ticks: 5 }, 1, true, true, 10, 10), Err(Error::InvalidTriggerConfiguration));
    assert_eq!(validate_trigger(&Trigger::Manual, 11, true, true, 10, 10), Err(Error::ExecutionDelayTooLong));
    assert_eq!(validate_trigger(&Trigger::ObservationCrossing { feed: 1 }, 0, true, false, 10, 10), Err(Error::InvalidTriggerConfiguration));
    assert_eq!(validate_trigger(&Trigger::Manual, 3, true, true, 10, 10), Ok(()));
}

#[test]
fn step_retry_policy() {
    let s = Step { task: Task::StopCycle, on_error: StepErrorPolicy::RetryLater { max_attempts: 3 }, precondition: None };
    assert_eq!(s.on_error.retry_max_attempts(), Some(3));
    assert!(s.task.is_stop_cycle());
}

#[test]
fn sweep_decides_who_is_finalized() {
    let ids = vec![4u64, 5, 6, 7];
    let loads = vec![
        SweepLoad::NotRegistered,
        SweepLoad::Active { terminal: true },
        SweepLoad::Active { terminal: false },
        SweepLoad::Dormant,
    ];
    let (closed, event) = permissionless_sweep_many(&ids, &loads).unwrap();
    assert_eq!(closed, vec![5]);
    assert_eq!(event, Event::SweepBatchProcessed { requested: 4, closed: 1, alive: 1, missing: 2 });
    let corrupt = vec![SweepLoad::Active { terminal: true }, SweepLoad::Corrupt, SweepLoad::Dormant, SweepLoad::Dormant];
    assert_eq!(permissionless_sweep_many(&ids, &corrupt), Err(Error::ActorInvariant));
    assert_eq!(classify_sweep_load(SweepLoad::Dormant), SweepOutcome::Missing);
}
