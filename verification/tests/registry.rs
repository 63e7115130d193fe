use std::collections::HashMap;

use lib::contract::{AmountResolution, ScheduleWindow, Step, StepErrorPolicy, Task, Trigger};
use lib::control::{
    check_inherent, create_inherent, provide_actor_prepass_inherent_data, InherentDataError, InherentDataRead,
};
use lib::creation::{
    plan_create_actor, plan_create_dormant_actor, AdmissionLimits, CreationContext, CreationPlan, CreationRequest,
    DormantCreationContext,
};
use lib::errors::Error;
use lib::genesis::{genesis_active_actor_limit, plan_genesis_system_actor, GenesisContext, GenesisRefusal};
use lib::geometry::ActorContract;
use lib::integrity::RuntimeConfiguration;
use lib::lifecycle::{
    plan_activate_actor, plan_cancel_run, plan_close_actor, plan_deactivate_actor, plan_finalize_actor,
    plan_manual_trigger, plan_pause_transition, ActivationContext, ManualTriggerPlan, PauseTransition,
    RunCancellationPlan,
};
use lib::pallet_state::{
    ActiveRecord, ActorRecord, ContractMeta, PalletStateModel, SystemSovereignState, TryStateViolation,
};
use lib::semantic::CycleState;
use lib::types::{ActorType, Mutability};
use lib::update::{
    apply_contract_replacement, plan_update_contract, same_steps, ContractUpdatePlan, ControlOrigin, UpdateContext,
};
use lib::validation::ShapeLimits;
use lib::weight::Weight;

fn wt(ref_time: u64, proof_size: u64) -> Weight {
    Weight { ref_time, proof_size }
}

fn config() -> RuntimeConfiguration {
    RuntimeConfiguration {
        max_consecutive_failures: 3,
        max_contract_steps: 16,
        max_retry_attempts: 10,
        target_block_time: 6,
        cadence_tick_millis: 6000,
        max_temporal_delay_ticks: 1000,
        max_execution_delay_blocks: 1000,
        max_opening_snapshot_entries: 32,
        min_user_balance: 100,
        fee_native_minimum_balance: 10,
        queue_page_size: 8,
        max_queue_length: 64,
        observation_page_size: 8,
        crossing_page_size: 8,
        max_active_actors: 100,
        max_crossing_members_per_feed: 50,
        max_user_crossing_members_per_feed: 40,
        max_crossing_transitions_per_feed: 4,
        max_crossing_transitions_per_block: 4,
        max_crossing_leaves_per_block: 4,
        max_crossing_pages_per_block: 4,
        max_crossing_actors_per_block: 4,
        crossing_worker_weight_limit: wt(100, 100),
        max_queue_entries_scanned_per_block: 16,
        max_observation_fanout_pages_per_block: 2,
        observation_fanout_weight_limit: wt(100, 100),
        wakeup_weight_limit: wt(100, 100),
        observation_fanout_terminal: wt(9, 1),
        on_idle_reserve: wt(1000, 1000),
        on_idle_base: wt(10, 10),
        coordinator_base: wt(10, 10),
        tombstone_drain_one: wt(10, 10),
        close_cleanup_weight_upper: wt(50, 50),
    }
}

fn manual_meta() -> ContractMeta {
    ContractMeta { trigger: Trigger::Manual, cooldown_blocks: 0, window: None, auto_close_at_cycle_nonce: None }
}

fn burn_step(amount: u128) -> Step {
    Step {
        task: Task::Burn { asset: 1, amount: AmountResolution::Fixed(amount) },
        on_error: StepErrorPolicy::NoRetry,
        precondition: None,
    }
}

fn contract(steps: Vec<Step>) -> ActorContract<ContractMeta, Step> {
    ActorContract { meta: manual_meta(), steps }
}

fn active_record(owner: u64, sovereign: u64, actor_type: ActorType, mutability: Mutability, state: CycleState) -> ActorRecord {
    ActorRecord {
        owner,
        sovereign,
        actor_type,
        mutability,
        owner_slot: if actor_type == ActorType::User { Some(0) } else { None },
        system_sovereign_id: if actor_type == ActorType::System { Some(9) } else { None },
        cycle_nonce: 0,
        last_control_mutation_block: 1,
        active: Some(ActiveRecord {
            paused: false,
            cycle_state: state,
            pending_signal: false,
            contract: contract(vec![burn_step(5)]),
        }),
    }
}

/// Two Actors: 0 a Mutable User Actor of owner 7 running a cycle, 1 a Dormant User Actor of
/// owner 8; one System sovereign (9) Vacant.
fn registry() -> PalletStateModel {
    let mut actors = HashMap::new();
    actors.insert(0, active_record(7, 100, ActorType::User, Mutability::Mutable, CycleState::Running));
    actors.insert(
        1,
        ActorRecord {
            owner: 8,
            sovereign: 101,
            actor_type: ActorType::User,
            mutability: Mutability::Mutable,
            owner_slot: Some(0),
            system_sovereign_id: None,
            cycle_nonce: 0,
            last_control_mutation_block: 1,
            active: None,
        },
    );
    let mut run_heads = HashMap::new();
    run_heads.insert(0, ());
    let mut run_payloads = HashMap::new();
    run_payloads.insert(0, ());
    let mut sovereign_index = HashMap::new();
    sovereign_index.insert(100, 0);
    sovereign_index.insert(101, 1);
    let mut system_sovereigns = HashMap::new();
    system_sovereigns.insert(9, SystemSovereignState::Vacant);
    PalletStateModel {
        global_circuit_breaker: false,
        active_actor_limit: 10,
        active_actor_count: 1,
        actor_identity_count: 2,
        next_actor_id: 2,
        actors,
        run_heads,
        run_payloads,
        sovereign_index,
        system_sovereigns,
        system_sovereign_count: 1,
    }
}

fn check(s: &PalletStateModel) -> Result<(), TryStateViolation> {
    s.check_pallet_state(&config())
}

fn admission_limits() -> AdmissionLimits {
    AdmissionLimits {
        min_window_length: 2,
        auto_close_horizon: 100,
        max_execution_delay_blocks: 1000,
        max_temporal_delay_ticks: 1000,
        shape: ShapeLimits { max_contract_steps: 8, max_retry_attempts: 10, max_predicates_per_step: 4, max_split_transfer_legs: 3 },
        max_owner_slots: 4,
        max_actor_identities: 10,
        max_system_sovereigns: 4,
    }
}

fn creation_context() -> CreationContext {
    CreationContext {
        now: 5,
        filters_canonical: true,
        crossing_hysteresis_valid: true,
        opening_surfaces_ok: true,
        manual_source_enabled: true,
        admission_upper: wt(10, 10),
        guaranteed_service: Some(wt(100, 100)),
        resources_derivable: true,
        system_validator_ok: true,
        owner_slots: [0u8; 32],
        slot_sovereigns: vec![200, 201, 202, 203],
        system_sovereign_account: 300,
    }
}

fn user_request(owner: u64) -> CreationRequest {
    CreationRequest {
        owner,
        actor_type: ActorType::User,
        mutability: Mutability::Mutable,
        preferred_user_slot: None,
        requested_system_sovereign: None,
    }
}

fn system_request(requested: Option<u64>) -> CreationRequest {
    CreationRequest {
        owner: 1,
        actor_type: ActorType::System,
        mutability: Mutability::Mutable,
        preferred_user_slot: None,
        requested_system_sovereign: requested,
    }
}

fn create(s: &PalletStateModel, req: CreationRequest, ctx: &CreationContext) -> Result<CreationPlan, Error> {
    let mut c = contract(vec![burn_step(5)]);
    plan_create_actor(s, req, &mut c, ctx, admission_limits())
}

#[test]
fn sound_registry_passes_the_state_check() {
    assert_eq!(check(&registry()), Ok(()));
}

#[test]
fn state_check_names_the_first_broken_invariant() {
    let mut s = registry();
    s.active_actor_limit = 0;
    assert_eq!(check(&s), Err(TryStateViolation::ActiveActorLimitOutOfBounds));
    let mut s = registry();
    s.active_actor_limit = 65;
    assert_eq!(check(&s), Err(TryStateViolation::ActiveActorLimitOutOfBounds));
    let mut s = registry();
    s.active_actor_count = 2;
    assert_eq!(check(&s), Err(TryStateViolation::ActiveActorCountMismatch));
    let mut s = registry();
    s.active_actor_limit = 1;
    s.actors.insert(5, active_record(9, 105, ActorType::User, Mutability::Mutable, CycleState::Idle));
    s.sovereign_index.insert(105, 5);
    s.active_actor_count = 2;
    s.actor_identity_count = 3;
    s.next_actor_id = 6;
    assert_eq!(check(&s), Err(TryStateViolation::ActiveActorCountAboveLimit));
    let mut s = registry();
    s.actor_identity_count = 1;
    assert_eq!(check(&s), Err(TryStateViolation::ActorIdentityCountMismatch));
    let mut s = registry();
    s.run_payloads.clear();
    assert_eq!(check(&s), Err(TryStateViolation::RunRecordMismatch));
    let mut s = registry();
    s.actors.insert(0, active_record(7, 100, ActorType::User, Mutability::Mutable, CycleState::Idle));
    assert_eq!(check(&s), Err(TryStateViolation::RunRecordMismatch));
    let mut s = registry();
    s.sovereign_index.insert(555, 1);
    assert_eq!(check(&s), Err(TryStateViolation::SovereignIndexMismatch));
    let mut s = registry();
    s.sovereign_index.remove(&101);
    assert_eq!(check(&s), Err(TryStateViolation::SovereignIndexMismatch));
    let mut s = registry();
    s.next_actor_id = 1;
    assert_eq!(check(&s), Err(TryStateViolation::NextActorIdTooLow));
    let mut s = registry();
    s.system_sovereign_count = 0;
    assert_eq!(check(&s), Err(TryStateViolation::SystemSovereignCountMismatch));
    // Two broken invariants: the earlier one is named.
    let mut s = registry();
    s.actor_identity_count = 9;
    s.next_actor_id = 0;
    assert_eq!(check(&s), Err(TryStateViolation::ActorIdentityCountMismatch));
}

#[test]
fn user_creation_plans_the_lowest_free_slot() {
    let s = registry();
    let mut ctx = creation_context();
    ctx.owner_slots[0] = 0b0000_0011;
    let plan = create(&s, user_request(7), &ctx).unwrap();
    assert_eq!(plan.actor_id, 2);
    assert_eq!(plan.next_actor_id, 3);
    assert_eq!(plan.owner_slot, Some(2));
    assert_eq!(plan.sovereign_account, 202);
    assert_eq!(plan.system_sovereign_id, None);
    assert!(!plan.new_system_sovereign);
    assert_eq!(plan.active_actor_count, 2);
    assert_eq!(plan.actor_identity_count, 3);
    assert_eq!(plan.system_sovereign_count, 1);
    assert!(plan.charge_creation_fee);
    assert_eq!(plan.event.actor_id, 2);
    assert_eq!(plan.event.owner, 7);
    assert_eq!(plan.event.sovereign_account, 202);
}

#[test]
fn system_creation_takes_a_new_or_a_vacant_sovereign() {
    let s = registry();
    let ctx = creation_context();
    let fresh = create(&s, system_request(None), &ctx).unwrap();
    assert_eq!(fresh.system_sovereign_id, Some(2));
    assert!(fresh.new_system_sovereign);
    assert_eq!(fresh.system_sovereign_count, 2);
    assert_eq!(fresh.sovereign_account, 300);
    assert!(!fresh.charge_creation_fee);
    let reattached = create(&s, system_request(Some(9)), &ctx).unwrap();
    assert_eq!(reattached.system_sovereign_id, Some(9));
    assert!(!reattached.new_system_sovereign);
    assert_eq!(reattached.system_sovereign_count, 1);
}

#[test]
fn creation_gates_refuse_in_order() {
    let ctx = creation_context();
    let mut s = registry();
    s.global_circuit_breaker = true;
    assert_eq!(create(&s, user_request(7), &ctx), Err(Error::GlobalCircuitBreakerActive));
    let mut s = registry();
    s.active_actor_count = 10;
    assert_eq!(create(&s, user_request(7), &ctx), Err(Error::ActiveActorCapacityExceeded));
    let mut s = registry();
    s.actor_identity_count = 10;
    assert_eq!(create(&s, user_request(7), &ctx), Err(Error::ActorIdentityCapacityExceeded));
    let mut s = registry();
    s.next_actor_id = 1;
    assert_eq!(create(&s, user_request(7), &ctx), Err(Error::ActorIdOccupied));
    let s = registry();
    let mut no_validator = creation_context();
    no_validator.system_validator_ok = false;
    assert_eq!(create(&s, system_request(None), &no_validator), Err(Error::SystemActorTopologyInvalid));
    assert_eq!(create(&s, system_request(Some(4)), &ctx), Err(Error::SystemSovereignUnknown));
    let mut s = registry();
    s.system_sovereigns.insert(9, SystemSovereignState::Occupied(0));
    assert_eq!(create(&s, system_request(Some(9)), &ctx), Err(Error::SystemSovereignOccupied));
    let mut s = registry();
    s.system_sovereigns.insert(2, SystemSovereignState::Vacant);
    assert_eq!(create(&s, system_request(None), &ctx), Err(Error::SystemSovereignOccupied));
    let mut s = registry();
    s.system_sovereign_count = 4;
    assert_eq!(create(&s, system_request(None), &ctx), Err(Error::SystemSovereignCapacityExceeded));
    let s = registry();
    let mut full = creation_context();
    full.owner_slots[0] = 0b0000_1111;
    assert_eq!(create(&s, user_request(7), &full), Err(Error::OwnerSlotCapacityExceeded));
    let mut s = registry();
    s.next_actor_id = u64::MAX;
    assert_eq!(create(&s, user_request(7), &ctx), Err(Error::ActorIdOverflow));
    // The capacity gate comes before the identity gate.
    let mut s = registry();
    s.active_actor_count = 10;
    s.actor_identity_count = 10;
    assert_eq!(create(&s, user_request(7), &ctx), Err(Error::ActiveActorCapacityExceeded));
}

#[test]
fn creation_refuses_contracts_before_the_registry() {
    let s = registry();
    let ctx = creation_context();
    let mut mint = contract(vec![Step {
        task: Task::Mint { asset: 1, amount: AmountResolution::Fixed(1) },
        on_error: StepErrorPolicy::NoRetry,
        precondition: None,
    }]);
    assert_eq!(
        plan_create_actor(&s, user_request(7), &mut mint, &ctx, admission_limits()),
        Err(Error::MintNotAllowedForUserActor)
    );
    let mut self_pay = contract(vec![Step {
        task: Task::Transfer { asset: 1, amount: AmountResolution::Fixed(1), to: 200 },
        on_error: StepErrorPolicy::NoRetry,
        precondition: None,
    }]);
    assert_eq!(
        plan_create_actor(&s, user_request(7), &mut self_pay, &ctx, admission_limits()),
        Err(Error::SelfTransferNotAllowed)
    );
    let mut immutable_manual = contract(vec![burn_step(5)]);
    let req = CreationRequest { mutability: Mutability::Immutable, ..system_request(None) };
    assert_eq!(
        plan_create_actor(&s, req, &mut immutable_manual, &ctx, admission_limits()),
        Err(Error::InvalidTriggerConfiguration)
    );
    let mut bad_window = ActorContract {
        meta: ContractMeta { window: Some(ScheduleWindow { start: 9, end: 9 }), ..manual_meta() },
        steps: vec![burn_step(5)],
    };
    let mut broken = registry();
    broken.active_actor_count = 10;
    assert_eq!(
        plan_create_actor(&broken, user_request(7), &mut bad_window, &ctx, admission_limits()),
        Err(Error::InvalidScheduleWindow)
    );
    let mut no_surfaces = creation_context();
    no_surfaces.opening_surfaces_ok = false;
    assert_eq!(create(&s, user_request(7), &no_surfaces), Err(Error::InvalidAmountResolution));
}

#[test]
fn applied_creation_keeps_the_state_sound() {
    let mut s = registry();
    let ctx = creation_context();
    let plan = create(&s, user_request(7), &ctx).unwrap();
    s.apply_creation_plan(&plan, user_request(7), contract(vec![burn_step(5)]), 5);
    assert_eq!(check(&s), Ok(()));
    assert_eq!(s.next_actor_id, 3);
    assert_eq!(s.sovereign_index.get(&200), Some(&2));
    let plan = create(&s, system_request(None), &ctx).unwrap();
    s.apply_creation_plan(&plan, system_request(None), contract(vec![burn_step(5)]), 5);
    assert_eq!(check(&s), Ok(()));
    assert_eq!(s.system_sovereigns.get(&3), Some(&SystemSovereignState::Occupied(3)));
    assert_eq!(s.system_sovereign_count, 2);
}

fn update_context() -> UpdateContext {
    UpdateContext {
        now: 5,
        filters_canonical: true,
        crossing_hysteresis_valid: true,
        opening_surfaces_ok: true,
        admission_upper: wt(10, 10),
        guaranteed_service: Some(wt(100, 100)),
        resources_derivable: true,
        system_validator_ok: true,
        expiry_due: false,
        admission_bound_ok: true,
    }
}

fn update(
    s: &PalletStateModel,
    actor_id: u64,
    origin: ControlOrigin,
    c: ActorContract<ContractMeta, Step>,
    ctx: &UpdateContext,
) -> Result<ContractUpdatePlan, Error> {
    let mut c = c;
    plan_update_contract(s, actor_id, origin, &mut c, ctx, admission_limits())
}

#[test]
fn unchanged_contract_update_succeeds_without_a_write() {
    let s = registry();
    let mut ctx = update_context();
    // Even a rate-limited, expiring Actor: an unchanged Contract is no change.
    ctx.now = 1;
    ctx.expiry_due = true;
    assert_eq!(
        update(&s, 0, ControlOrigin::Signed(7), contract(vec![burn_step(5)]), &ctx),
        Ok(ContractUpdatePlan::Unchanged)
    );
}

#[test]
fn contract_update_gates() {
    let s = registry();
    let ctx = update_context();
    let changed = || contract(vec![burn_step(6)]);
    assert_eq!(update(&s, 5, ControlOrigin::Signed(7), changed(), &ctx), Err(Error::ActorNotFound));
    assert_eq!(update(&s, 1, ControlOrigin::Signed(8), changed(), &ctx), Err(Error::ActorNotFound));
    assert_eq!(update(&s, 0, ControlOrigin::Signed(8), changed(), &ctx), Err(Error::NotOwner));
    assert_eq!(update(&s, 0, ControlOrigin::System, changed(), &ctx), Err(Error::NotGovernance));
    let mut expiring = update_context();
    expiring.expiry_due = true;
    assert_eq!(
        update(&s, 0, ControlOrigin::Signed(7), changed(), &expiring),
        Ok(ContractUpdatePlan::CloseWindowExpired)
    );
    let mut same_block = update_context();
    same_block.now = 1;
    assert_eq!(update(&s, 0, ControlOrigin::Signed(7), changed(), &same_block), Err(Error::ControlMutationRateLimited));
    let mut immutable = registry();
    immutable.actors.insert(0, active_record(7, 100, ActorType::User, Mutability::Immutable, CycleState::Running));
    assert_eq!(update(&immutable, 0, ControlOrigin::Signed(7), changed(), &ctx), Err(Error::ImmutableActor));
    let mut system = registry();
    system.actors.insert(0, active_record(7, 100, ActorType::System, Mutability::Immutable, CycleState::Running));
    assert_eq!(update(&system, 0, ControlOrigin::System, changed(), &ctx), Err(Error::ImmutableActor));
    let mut no_bound = update_context();
    no_bound.admission_bound_ok = false;
    assert_eq!(update(&s, 0, ControlOrigin::Signed(7), changed(), &no_bound), Err(Error::AdmissionBoundOverflow));
    let self_pay = contract(vec![Step {
        task: Task::Transfer { asset: 1, amount: AmountResolution::Fixed(1), to: 100 },
        on_error: StepErrorPolicy::NoRetry,
        precondition: None,
    }]);
    assert_eq!(update(&s, 0, ControlOrigin::Signed(7), self_pay, &ctx), Err(Error::SelfTransferNotAllowed));
}

#[test]
fn contract_update_reports_what_changed() {
    let s = registry();
    let ctx = update_context();
    assert_eq!(
        update(&s, 0, ControlOrigin::Signed(7), contract(vec![burn_step(6)]), &ctx),
        Ok(ContractUpdatePlan::Replace { schedule_changed: false, steps_changed: true, mutation_block: 5 })
    );
    let rescheduled = ActorContract { meta: ContractMeta { cooldown_blocks: 3, ..manual_meta() }, steps: vec![burn_step(5)] };
    assert_eq!(
        update(&s, 0, ControlOrigin::Signed(7), rescheduled, &ctx),
        Ok(ContractUpdatePlan::Replace { schedule_changed: true, steps_changed: false, mutation_block: 5 })
    );
}

#[test]
fn contract_replacement_keeps_the_state_sound() {
    let mut s = registry();
    apply_contract_replacement(&mut s, 0, contract(vec![burn_step(6)]), 5);
    assert_eq!(check(&s), Ok(()));
    let rec = s.actors.get(&0).unwrap();
    let active = rec.active.as_ref().unwrap();
    assert_eq!(rec.last_control_mutation_block, 5);
    assert!(same_steps(&active.contract.steps, &vec![burn_step(6)]));
    assert!(!same_steps(&active.contract.steps, &vec![burn_step(5)]));
}

fn genesis_context(sovereign_account: u64) -> GenesisContext {
    GenesisContext {
        filters_canonical: true,
        crossing_hysteresis_valid: true,
        opening_surfaces_ok: true,
        manual_source_enabled: true,
        admission_upper: wt(10, 10),
        guaranteed_service: Some(wt(100, 100)),
        system_validator_ok: true,
        sovereign_account,
        max_active_actors: 10,
    }
}

fn empty_registry() -> PalletStateModel {
    PalletStateModel {
        global_circuit_breaker: false,
        active_actor_limit: genesis_active_actor_limit(0, 100, 64),
        active_actor_count: 0,
        actor_identity_count: 0,
        next_actor_id: 0,
        actors: HashMap::new(),
        run_heads: HashMap::new(),
        run_payloads: HashMap::new(),
        sovereign_index: HashMap::new(),
        system_sovereigns: HashMap::new(),
        system_sovereign_count: 0,
    }
}

#[test]
fn genesis_limit_defaults_to_the_largest_configurable() {
    assert_eq!(genesis_active_actor_limit(0, 100, 64), 64);
    assert_eq!(genesis_active_actor_limit(0, 10, 64), 10);
    assert_eq!(genesis_active_actor_limit(7, 100, 64), 7);
}

#[test]
fn genesis_registers_system_actors_soundly() {
    let mut s = empty_registry();
    let mut c = contract(vec![burn_step(5)]);
    let plan = plan_genesis_system_actor(&s, 4, 1, Mutability::Mutable, &mut c, &genesis_context(400), admission_limits()).unwrap();
    assert_eq!(plan.actor_id, 4);
    assert_eq!(plan.next_actor_id, 5);
    assert_eq!(plan.system_sovereign_id, Some(4));
    s.apply_creation_plan(&plan, system_request(None), c, 0);
    assert_eq!(check(&s), Ok(()));
    let mut c = contract(vec![burn_step(5)]);
    let plan = plan_genesis_system_actor(&s, 2, 1, Mutability::Mutable, &mut c, &genesis_context(402), admission_limits()).unwrap();
    assert_eq!(plan.next_actor_id, 5);
    s.apply_creation_plan(&plan, system_request(None), c, 0);
    assert_eq!(check(&s), Ok(()));
    assert_eq!(s.active_actor_count, 2);
    assert_eq!(s.system_sovereign_count, 2);
}

#[test]
fn genesis_checks_fail_in_order() {
    let s = registry();
    let limits = admission_limits();
    let mut c = contract(vec![burn_step(5)]);
    assert_eq!(
        plan_genesis_system_actor(&s, 0, 1, Mutability::Mutable, &mut c, &genesis_context(400), limits),
        Err(GenesisRefusal::DuplicateActorId)
    );
    assert_eq!(
        plan_genesis_system_actor(&s, u64::MAX, 1, Mutability::Mutable, &mut c, &genesis_context(400), limits),
        Err(GenesisRefusal::ActorIdOverflow)
    );
    assert_eq!(
        plan_genesis_system_actor(&s, 5, 1, Mutability::Mutable, &mut c, &genesis_context(100), limits),
        Err(GenesisRefusal::SovereignCollision)
    );
    assert_eq!(
        plan_genesis_system_actor(&s, 5, 1, Mutability::Immutable, &mut c, &genesis_context(400), limits),
        Err(GenesisRefusal::ImmutableManualReadiness)
    );
    let mut no_validator = genesis_context(400);
    no_validator.system_validator_ok = false;
    assert_eq!(
        plan_genesis_system_actor(&s, 5, 1, Mutability::Mutable, &mut c, &no_validator, limits),
        Err(GenesisRefusal::TopologyInvalid)
    );
    assert_eq!(
        plan_genesis_system_actor(&s, 9, 1, Mutability::Mutable, &mut c, &genesis_context(400), limits),
        Err(GenesisRefusal::DuplicateSovereign)
    );
    let mut no_budget = genesis_context(400);
    no_budget.guaranteed_service = None;
    assert_eq!(
        plan_genesis_system_actor(&s, 5, 1, Mutability::Mutable, &mut c, &no_budget, limits),
        Err(GenesisRefusal::Contract(Error::ContractStepsExceedOnIdleBudget))
    );
}

#[test]
fn provided_prepass_data_round_trips() {
    let mut data = InherentDataRead::Absent;
    assert_eq!(provide_actor_prepass_inherent_data(&mut data), Ok(()));
    assert!(create_inherent(data));
    assert_eq!(check_inherent(true, data), Ok(()));
    assert_eq!(provide_actor_prepass_inherent_data(&mut data), Err(InherentDataError::IdentifierAlreadyExists));
    assert!(create_inherent(data));
    let mut undecodable = InherentDataRead::Undecodable;
    assert_eq!(
        provide_actor_prepass_inherent_data(&mut undecodable),
        Err(InherentDataError::IdentifierAlreadyExists)
    );
    assert_eq!(undecodable, InherentDataRead::Undecodable);
}

fn activation_context() -> ActivationContext {
    ActivationContext {
        now: 5,
        filters_canonical: true,
        crossing_hysteresis_valid: true,
        opening_surfaces_ok: true,
        admission_upper: wt(10, 10),
        guaranteed_service: Some(wt(100, 100)),
        resources_derivable: true,
        system_validator_ok: true,
    }
}

fn activate(s: &PalletStateModel, actor_id: u64, origin: ControlOrigin, ctx: &ActivationContext) -> Result<(), Error> {
    let mut c = contract(vec![burn_step(5)]);
    plan_activate_actor(s, actor_id, origin, &mut c, ctx, admission_limits())
}

#[test]
fn dormant_actor_activation_and_deactivation_round_trip() {
    let mut s = registry();
    let ctx = activation_context();
    assert_eq!(activate(&s, 1, ControlOrigin::Signed(8), &ctx), Ok(()));
    s.apply_activation(1, contract(vec![burn_step(5)]), 5);
    assert_eq!(check(&s), Ok(()));
    assert_eq!(s.active_actor_count, 2);
    assert_eq!(plan_deactivate_actor(&s, 1, ControlOrigin::Signed(8), 5), Err(Error::ControlMutationRateLimited));
    assert_eq!(plan_deactivate_actor(&s, 1, ControlOrigin::Signed(8), 6), Ok(()));
    s.apply_deactivation(1, 6);
    assert_eq!(check(&s), Ok(()));
    assert_eq!(s.active_actor_count, 1);
    // Deactivating the running Actor cancels its run.
    assert_eq!(plan_deactivate_actor(&s, 0, ControlOrigin::Signed(7), 6), Ok(()));
    s.apply_deactivation(0, 6);
    assert_eq!(check(&s), Ok(()));
    assert!(s.run_heads.is_empty());
    assert_eq!(s.active_actor_count, 0);
}

#[test]
fn activation_gates_refuse_in_order() {
    let s = registry();
    let ctx = activation_context();
    assert_eq!(activate(&s, 9, ControlOrigin::Signed(8), &ctx), Err(Error::ActorNotFound));
    assert_eq!(activate(&s, 0, ControlOrigin::Signed(7), &ctx), Err(Error::ActorAlreadyActive));
    assert_eq!(activate(&s, 1, ControlOrigin::Signed(7), &ctx), Err(Error::NotOwner));
    assert_eq!(activate(&s, 1, ControlOrigin::System, &ctx), Err(Error::NotGovernance));
    let mut breaker = registry();
    breaker.global_circuit_breaker = true;
    assert_eq!(activate(&breaker, 1, ControlOrigin::Signed(8), &ctx), Err(Error::GlobalCircuitBreakerActive));
    let mut full = registry();
    full.active_actor_limit = 1;
    assert_eq!(activate(&full, 1, ControlOrigin::Signed(8), &ctx), Err(Error::ActiveActorCapacityExceeded));
    let mut same_block = activation_context();
    same_block.now = 1;
    assert_eq!(activate(&s, 1, ControlOrigin::Signed(8), &same_block), Err(Error::ControlMutationRateLimited));
    let mut no_budget = activation_context();
    no_budget.guaranteed_service = None;
    assert_eq!(activate(&s, 1, ControlOrigin::Signed(8), &no_budget), Err(Error::ContractStepsExceedOnIdleBudget));
}

#[test]
fn deactivation_gates_refuse_in_order() {
    let s = registry();
    assert_eq!(plan_deactivate_actor(&s, 9, ControlOrigin::Signed(7), 5), Err(Error::ActorNotFound));
    assert_eq!(plan_deactivate_actor(&s, 1, ControlOrigin::Signed(8), 5), Err(Error::ActorDormant));
    assert_eq!(plan_deactivate_actor(&s, 0, ControlOrigin::Signed(8), 5), Err(Error::NotOwner));
    let mut immutable = registry();
    immutable.actors.insert(0, active_record(7, 100, ActorType::User, Mutability::Immutable, CycleState::Running));
    assert_eq!(plan_deactivate_actor(&immutable, 0, ControlOrigin::Signed(7), 5), Err(Error::ImmutableActor));
}

#[test]
fn closing_actors_keeps_the_state_sound() {
    let mut s = registry();
    let ctx = creation_context();
    let plan = create(&s, system_request(Some(9)), &ctx).unwrap();
    s.apply_creation_plan(&plan, system_request(Some(9)), contract(vec![burn_step(5)]), 5);
    assert_eq!(check(&s), Ok(()));
    assert_eq!(plan_finalize_actor(&s, 2, true), Ok(()));
    s.apply_finalization(2);
    assert_eq!(check(&s), Ok(()));
    assert_eq!(s.system_sovereigns.get(&9), Some(&SystemSovereignState::Vacant));
    assert_eq!(s.system_sovereign_count, 1);
    assert_eq!(plan_finalize_actor(&s, 0, false), Err(Error::InvalidOwnerSlot));
    assert_eq!(plan_finalize_actor(&s, 0, true), Ok(()));
    s.apply_finalization(0);
    assert_eq!(check(&s), Ok(()));
    assert!(s.run_heads.is_empty());
    assert_eq!(s.active_actor_count, 0);
    assert_eq!(s.actor_identity_count, 1);
    assert_eq!(s.sovereign_index.get(&100), None);
}

#[test]
fn closing_checks_refuse_corrupt_records() {
    let s = registry();
    assert_eq!(plan_finalize_actor(&s, 7, true), Err(Error::ActorNotFound));
    let mut unindexed = registry();
    unindexed.sovereign_index.remove(&100);
    assert_eq!(plan_finalize_actor(&unindexed, 0, true), Err(Error::ActorNotFound));
    let mut system = registry();
    system.actors.insert(0, active_record(7, 100, ActorType::System, Mutability::Mutable, CycleState::Running));
    assert_eq!(plan_finalize_actor(&system, 0, true), Err(Error::SystemSovereignInvariant));
    let mut no_count = registry();
    no_count.active_actor_count = 0;
    assert_eq!(plan_finalize_actor(&no_count, 0, true), Err(Error::ActiveActorCountInvariant));
}

#[test]
fn owner_closes_a_dormant_actor() {
    let mut s = registry();
    assert_eq!(plan_close_actor(&s, 1, ControlOrigin::Signed(7), true), Err(Error::NotOwner));
    assert_eq!(plan_close_actor(&s, 1, ControlOrigin::System, true), Err(Error::NotGovernance));
    assert_eq!(plan_close_actor(&s, 4, ControlOrigin::Signed(8), true), Err(Error::ActorNotFound));
    assert_eq!(plan_close_actor(&s, 1, ControlOrigin::Signed(8), false), Err(Error::InvalidOwnerSlot));
    assert_eq!(plan_close_actor(&s, 1, ControlOrigin::Signed(8), true), Ok(()));
    s.apply_finalization(1);
    assert_eq!(check(&s), Ok(()));
    assert_eq!(s.active_actor_count, 1);
    assert_eq!(s.actor_identity_count, 1);
    let mut immutable = registry();
    immutable.actors.insert(0, active_record(7, 100, ActorType::User, Mutability::Immutable, CycleState::Running));
    assert_eq!(plan_close_actor(&immutable, 0, ControlOrigin::Signed(7), true), Err(Error::ImmutableActor));
}

#[test]
fn pause_and_resume_round_trip() {
    let mut s = registry();
    assert_eq!(
        plan_pause_transition(&s, 0, ControlOrigin::Signed(7), false, false, 5),
        Ok(PauseTransition::Unchanged)
    );
    assert_eq!(
        plan_pause_transition(&s, 0, ControlOrigin::Signed(7), true, false, 5),
        Ok(PauseTransition::Apply { mutation_block: 5 })
    );
    s.apply_pause_transition(0, true, 5);
    assert_eq!(check(&s), Ok(()));
    assert!(s.actors.get(&0).unwrap().active.as_ref().unwrap().paused);
    assert_eq!(
        plan_pause_transition(&s, 0, ControlOrigin::Signed(7), true, false, 6),
        Ok(PauseTransition::Unchanged)
    );
    assert_eq!(
        plan_pause_transition(&s, 0, ControlOrigin::Signed(7), false, false, 5),
        Err(Error::ControlMutationRateLimited)
    );
    assert_eq!(
        plan_pause_transition(&s, 0, ControlOrigin::Signed(7), false, false, 6),
        Ok(PauseTransition::Apply { mutation_block: 6 })
    );
    s.apply_pause_transition(0, false, 6);
    assert_eq!(check(&s), Ok(()));
}

#[test]
fn pause_gates() {
    let s = registry();
    assert_eq!(plan_pause_transition(&s, 1, ControlOrigin::Signed(8), true, false, 5), Err(Error::ActorNotFound));
    assert_eq!(plan_pause_transition(&s, 0, ControlOrigin::Signed(8), true, false, 5), Err(Error::NotOwner));
    assert_eq!(
        plan_pause_transition(&s, 0, ControlOrigin::Signed(7), true, true, 5),
        Ok(PauseTransition::CloseWindowExpired)
    );
    let mut idle_with_run = registry();
    idle_with_run.actors.insert(0, active_record(7, 100, ActorType::User, Mutability::Mutable, CycleState::Idle));
    assert_eq!(
        plan_pause_transition(&idle_with_run, 0, ControlOrigin::Signed(7), false, false, 5),
        Err(Error::ActorInvariant)
    );
    let mut system = registry();
    system.actors.insert(0, active_record(7, 100, ActorType::System, Mutability::Immutable, CycleState::Running));
    assert_eq!(plan_pause_transition(&system, 0, ControlOrigin::System, true, false, 5), Err(Error::ImmutableActor));
}

#[test]
fn manual_trigger_gates() {
    let s = registry();
    assert_eq!(plan_manual_trigger(&s, 1, ControlOrigin::Signed(8), false, true), Err(Error::ActorNotFound));
    assert_eq!(plan_manual_trigger(&s, 0, ControlOrigin::Signed(8), false, true), Err(Error::NotOwner));
    assert_eq!(plan_manual_trigger(&s, 0, ControlOrigin::Signed(7), true, true), Ok(ManualTriggerPlan::CloseWindowExpired));
    assert_eq!(plan_manual_trigger(&s, 0, ControlOrigin::Signed(7), false, false), Err(Error::ManualSourceDisabled));
    // A running cycle ignores the occurrence.
    assert_eq!(plan_manual_trigger(&s, 0, ControlOrigin::Signed(7), false, true), Ok(ManualTriggerPlan::Ignored));
    let mut idle = registry();
    idle.actors.insert(0, active_record(7, 100, ActorType::User, Mutability::Mutable, CycleState::Idle));
    assert_eq!(plan_manual_trigger(&idle, 0, ControlOrigin::Signed(7), false, true), Ok(ManualTriggerPlan::Occurrence));
    let mut paused = registry();
    paused.apply_pause_transition(0, true, 5);
    assert_eq!(plan_manual_trigger(&paused, 0, ControlOrigin::Signed(7), false, true), Err(Error::ActorPaused));
}

fn dormant_context() -> DormantCreationContext {
    DormantCreationContext { owner_slots: [0u8; 32], slot_sovereigns: vec![200, 201, 202, 203], system_sovereign_account: 300 }
}

#[test]
fn dormant_creation_keeps_the_state_sound() {
    let mut s = registry();
    let ctx = dormant_context();
    let plan = plan_create_dormant_actor(&s, user_request(7), &ctx, admission_limits()).unwrap();
    assert_eq!(plan.actor_id, 2);
    assert_eq!(plan.active_actor_count, 1);
    assert_eq!(plan.actor_identity_count, 3);
    assert_eq!(plan.event.mutability, Mutability::Mutable);
    s.apply_dormant_creation(&plan, user_request(7), 5);
    assert_eq!(check(&s), Ok(()));
    assert!(s.actors.get(&2).unwrap().active.is_none());
    let plan = plan_create_dormant_actor(&s, system_request(Some(9)), &ctx, admission_limits()).unwrap();
    s.apply_dormant_creation(&plan, system_request(Some(9)), 5);
    assert_eq!(check(&s), Ok(()));
    assert_eq!(s.system_sovereigns.get(&9), Some(&SystemSovereignState::Occupied(3)));
}

#[test]
fn dormant_creation_gates() {
    let ctx = dormant_context();
    let mut s = registry();
    s.global_circuit_breaker = true;
    assert_eq!(plan_create_dormant_actor(&s, user_request(7), &ctx, admission_limits()), Err(Error::GlobalCircuitBreakerActive));
    let mut s = registry();
    s.actor_identity_count = 10;
    assert_eq!(plan_create_dormant_actor(&s, user_request(7), &ctx, admission_limits()), Err(Error::ActorIdentityCapacityExceeded));
    // The active limit does not bound dormant creation.
    let mut s = registry();
    s.active_actor_limit = 1;
    assert!(plan_create_dormant_actor(&s, user_request(7), &ctx, admission_limits()).is_ok());
    let s = registry();
    assert_eq!(plan_create_dormant_actor(&s, system_request(Some(4)), &ctx, admission_limits()), Err(Error::SystemSovereignUnknown));
}

#[test]
fn run_cancellation_keeps_the_state_sound() {
    let mut s = registry();
    assert_eq!(plan_cancel_run(&s, 0, ControlOrigin::Signed(8), false, 5), Err(Error::NotOwner));
    assert_eq!(plan_cancel_run(&s, 0, ControlOrigin::Signed(7), true, 5), Ok(RunCancellationPlan::CloseWindowExpired));
    assert_eq!(plan_cancel_run(&s, 0, ControlOrigin::Signed(7), false, 1), Err(Error::ControlMutationRateLimited));
    assert_eq!(
        plan_cancel_run(&s, 0, ControlOrigin::Signed(7), false, 5),
        Ok(RunCancellationPlan::Cancel { mutation_block: 5 })
    );
    s.apply_run_cancellation(0, 5);
    assert_eq!(check(&s), Ok(()));
    assert!(s.run_heads.is_empty());
    assert_eq!(plan_cancel_run(&s, 0, ControlOrigin::Signed(7), false, 6), Err(Error::ActorRunNotFound));
    assert_eq!(plan_cancel_run(&s, 1, ControlOrigin::Signed(8), false, 6), Err(Error::ActorNotFound));
}
