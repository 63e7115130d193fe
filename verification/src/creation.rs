//! Actor creation: the admission gates in the order the pallet applies them, the plan of the
//! registry change that an admitted creation makes, and that change itself.
use vstd::prelude::*;

use crate::contract::Step;
use crate::control::{ensure_contract_steps_fits_idle_budget, spec_idle_budget_fit_outcome};
use crate::errors::Error;
use crate::geometry::ActorContract;
use crate::owner_slots::{available_owner_slot, spec_owner_slot_outcome, OwnerSlotBitmap};
use crate::pallet_state::{
    active_ids, pallet_state_invariants, runs_a_cycle, sovereign_index_exact, ActiveRecord, ActorRecord,
    ContractMeta, PalletStateModel, SystemSovereignState,
};
use crate::precondition::{canonicalize_preconditions, outcome_from, precondition_well_encoded, step_canonicalized};
use crate::integrity::RuntimeConfiguration;
use crate::semantic::CycleState;
use crate::types::{AccountId, ActorId, ActorType, BlockNumber, Mutability, SchedulerTick};
use crate::validation::{
    contract_steps_contains_mint, ensure_auto_close_target, ensure_retry_later_allowed, spec_auto_close_outcome,
    spec_future_targets_outcome, spec_recipient_outcome, spec_retry_later_outcome, spec_steps_shape,
    spec_trigger_outcome, spec_window_outcome, validate_contract_steps_shape, validate_future_schedule_targets,
    validate_recipient_configuration, validate_schedule_window, validate_trigger, ShapeLimits,
};
use crate::weight::Weight;

verus! {

broadcast use vstd::std_specs::hash::group_hash_axioms;

/// Who asks for an Actor, and of what kind.
#[derive(Clone, Copy, Debug, PartialEq, Eq, Structural)]
pub struct CreationRequest {
    pub owner: AccountId,
    pub actor_type: ActorType,
    pub mutability: Mutability,
    pub preferred_user_slot: Option<u8>,
    pub requested_system_sovereign: Option<u64>,
}

/// What the creation gates read besides the registry and the Contract: the block, the results
/// of checks made by other parts of the runtime (the Trigger's filters and hysteresis, the
/// staking share assets of opening surfaces, the Trigger's manual source, the weight bounds of
/// the canonical Steps, the System Contract validator), the owner's slot bitmap, and the
/// sovereign accounts derived for each owner slot and for the System sovereign id that
/// creation resolves.
pub struct CreationContext {
    pub now: BlockNumber,
    pub filters_canonical: bool,
    pub crossing_hysteresis_valid: bool,
    pub opening_surfaces_ok: bool,
    pub manual_source_enabled: bool,
    pub admission_upper: Weight,
    pub guaranteed_service: Option<Weight>,
    pub resources_derivable: bool,
    pub system_validator_ok: bool,
    pub owner_slots: OwnerSlotBitmap,
    pub slot_sovereigns: Vec<AccountId>,
    pub system_sovereign_account: AccountId,
}

/// The configured bounds the Contract admission gates read.
#[derive(Clone, Copy, Debug, PartialEq, Eq, Structural)]
pub struct AdmissionLimits {
    pub min_window_length: BlockNumber,
    pub auto_close_horizon: u64,
    pub max_execution_delay_blocks: BlockNumber,
    pub max_temporal_delay_ticks: SchedulerTick,
    pub shape: ShapeLimits,
    pub max_owner_slots: u8,
    pub max_actor_identities: u32,
    pub max_system_sovereigns: u32,
}

/// The event an admitted creation deposits.
#[derive(Clone, Copy, Debug, PartialEq, Eq, Structural)]
pub struct ActorCreatedEvent {
    pub actor_id: ActorId,
    pub owner: AccountId,
    pub actor_type: ActorType,
    pub owner_slot: Option<u8>,
    pub system_sovereign_id: Option<u64>,
    pub mutability: Mutability,
    pub sovereign_account: AccountId,
}

/// The registry change of an admitted creation.
#[derive(Clone, Copy, Debug, PartialEq, Eq, Structural)]
pub struct CreationPlan {
    pub actor_id: ActorId,
    pub next_actor_id: ActorId,
    pub sovereign_account: AccountId,
    pub owner_slot: Option<u8>,
    pub system_sovereign_id: Option<u64>,
    /// The System sovereign is new, rather than a Vacant one reattached.
    pub new_system_sovereign: bool,
    pub active_actor_count: u32,
    pub actor_identity_count: u32,
    pub system_sovereign_count: u32,
    /// A User creation pays the creation fee.
    pub charge_creation_fee: bool,
    pub event: ActorCreatedEvent,
}

/// The System sovereign id creation resolves: the requested one, or the new Actor's id.
pub open spec fn resolved_system_sovereign(req: CreationRequest, actor_id: ActorId) -> u64 {
    match req.requested_system_sovereign {
        Some(id) => id,
        None => actor_id,
    }
}

/// Why the System sovereign cannot be taken, if it cannot.
pub open spec fn system_sovereign_refusal(s: PalletStateModel, req: CreationRequest, limits: AdmissionLimits) -> Option<
    Error,
> {
    match req.requested_system_sovereign {
        Some(id) => if !s.system_sovereigns@.contains_key(id) {
            Some(Error::SystemSovereignUnknown)
        } else if s.system_sovereigns@[id] is Occupied {
            Some(Error::SystemSovereignOccupied)
        } else {
            None
        },
        None => if s.system_sovereigns@.contains_key(s.next_actor_id) {
            Some(Error::SystemSovereignOccupied)
        } else if s.system_sovereign_count >= limits.max_system_sovereigns {
            Some(Error::SystemSovereignCapacityExceeded)
        } else {
            None
        },
    }
}

/// The sovereign account the new Actor would hold, once its owner slot is known.
pub open spec fn prospective_sovereign(req: CreationRequest, ctx: CreationContext, limits: AdmissionLimits) -> AccountId {
    match req.actor_type {
        ActorType::User => ctx.slot_sovereigns@[spec_owner_slot_outcome(
            ctx.owner_slots,
            limits.max_owner_slots,
            req.preferred_user_slot,
        )->Ok_0 as int],
        ActorType::System => ctx.system_sovereign_account,
    }
}

/// The gates a Contract passes on its own, before the registry is read: its precondition
/// canonicalization (of the submitted Steps `submitted`), then, on the canonical Steps
/// `steps`, the Step bound, the User mint ban, the Trigger, the window, the future schedule
/// targets, the Step shapes, the opening surfaces, retries of Immutable Actors, the auto-close
/// target and the manual source of Immutable System Actors.
pub open spec fn contract_gate_refusal(
    submitted: Seq<Step>,
    steps: Seq<Step>,
    meta: ContractMeta,
    req: CreationRequest,
    ctx: CreationContext,
    limits: AdmissionLimits,
) -> Option<Error> {
    if outcome_from(submitted, limits.shape.max_predicates_per_step, 0) is Err {
        Some(outcome_from(submitted, limits.shape.max_predicates_per_step, 0)->Err_0)
    } else if steps.len() > limits.shape.max_contract_steps {
        Some(Error::TooManyContractSteps)
    } else if req.actor_type == ActorType::User && exists|i: int| 0 <= i < steps.len() && (#[trigger] steps[i]).task is Mint {
        Some(Error::MintNotAllowedForUserActor)
    } else if spec_trigger_outcome(
        meta.trigger,
        meta.cooldown_blocks,
        ctx.filters_canonical,
        ctx.crossing_hysteresis_valid,
        limits.max_execution_delay_blocks,
        limits.max_temporal_delay_ticks,
    ) is Err {
        Some(
            spec_trigger_outcome(
                meta.trigger,
                meta.cooldown_blocks,
                ctx.filters_canonical,
                ctx.crossing_hysteresis_valid,
                limits.max_execution_delay_blocks,
                limits.max_temporal_delay_ticks,
            )->Err_0,
        )
    } else if meta.window matches Some(w) && spec_window_outcome(
        w,
        ctx.now,
        limits.min_window_length,
        limits.max_execution_delay_blocks,
    ) is Err {
        Some(
            spec_window_outcome(
                meta.window->Some_0,
                ctx.now,
                limits.min_window_length,
                limits.max_execution_delay_blocks,
            )->Err_0,
        )
    } else if spec_future_targets_outcome(meta.trigger, meta.window, meta.cooldown_blocks, ctx.now) is Err {
        Some(spec_future_targets_outcome(meta.trigger, meta.window, meta.cooldown_blocks, ctx.now)->Err_0)
    } else if !(0 < limits.shape.max_contract_steps <= 255) {
        Some(Error::TooManyContractSteps)
    } else if spec_steps_shape(steps, limits.shape) is Err {
        Some(spec_steps_shape(steps, limits.shape)->Err_0)
    } else if !ctx.opening_surfaces_ok {
        Some(Error::InvalidAmountResolution)
    } else if spec_retry_later_outcome(req.mutability, steps) is Err {
        Some(Error::RetryLaterNotAllowedForImmutableActor)
    } else if meta.auto_close_at_cycle_nonce matches Some(t) && spec_auto_close_outcome(0, t, limits.auto_close_horizon)
        is Err {
        Some(spec_auto_close_outcome(0, meta.auto_close_at_cycle_nonce->Some_0, limits.auto_close_horizon)->Err_0)
    } else if req.actor_type == ActorType::System && req.mutability == Mutability::Immutable
        && ctx.manual_source_enabled {
        Some(Error::InvalidTriggerConfiguration)
    } else {
        None
    }
}

/// The gates that read the registry, in order after the Contract's own: active capacity,
/// identity capacity, the idle budget, the new id's occupancy, the System Contract validator,
/// the System sovereign, the owner slot, the recipients against the prospective sovereign
/// account, and the id after the new one.
pub open spec fn registry_gate_refusal(
    steps: Seq<Step>,
    s: PalletStateModel,
    req: CreationRequest,
    ctx: CreationContext,
    limits: AdmissionLimits,
) -> Option<Error> {
    let slot = spec_owner_slot_outcome(ctx.owner_slots, limits.max_owner_slots, req.preferred_user_slot);
    if s.active_actor_count >= s.active_actor_limit {
        Some(Error::ActiveActorCapacityExceeded)
    } else if s.actor_identity_count >= limits.max_actor_identities {
        Some(Error::ActorIdentityCapacityExceeded)
    } else if spec_idle_budget_fit_outcome(
        req.actor_type,
        ctx.admission_upper,
        ctx.guaranteed_service,
        ctx.resources_derivable,
    ) is Err {
        Some(
            spec_idle_budget_fit_outcome(
                req.actor_type,
                ctx.admission_upper,
                ctx.guaranteed_service,
                ctx.resources_derivable,
            )->Err_0,
        )
    } else if s.actors@.contains_key(s.next_actor_id) {
        Some(Error::ActorIdOccupied)
    } else if req.actor_type == ActorType::System && !ctx.system_validator_ok {
        Some(Error::SystemActorTopologyInvalid)
    } else if req.actor_type == ActorType::System && system_sovereign_refusal(s, req, limits) is Some {
        system_sovereign_refusal(s, req, limits)
    } else if req.actor_type == ActorType::User && slot is Err {
        Some(slot->Err_0)
    } else if spec_recipient_outcome(steps, prospective_sovereign(req, ctx, limits)) is Err {
        Some(Error::SelfTransferNotAllowed)
    } else if s.next_actor_id == u64::MAX {
        Some(Error::ActorIdOverflow)
    } else {
        None
    }
}

/// The first gate that refuses the creation, if any. `submitted` are the Steps as submitted and
/// `steps` their canonical form.
pub open spec fn spec_first_create_refusal(
    submitted: Seq<Step>,
    steps: Seq<Step>,
    meta: ContractMeta,
    s: PalletStateModel,
    req: CreationRequest,
    ctx: CreationContext,
    limits: AdmissionLimits,
) -> Option<Error> {
    if s.global_circuit_breaker {
        Some(Error::GlobalCircuitBreakerActive)
    } else if contract_gate_refusal(submitted, steps, meta, req, ctx, limits) is Some {
        contract_gate_refusal(submitted, steps, meta, req, ctx, limits)
    } else {
        registry_gate_refusal(steps, s, req, ctx, limits)
    }
}

/// The registry change of an admitted creation: the new Actor takes the next id, its sovereign
/// account and, for a User, the owner slot; the counters grow by one (the System sovereign
/// count only for a new sovereign); a User pays the creation fee.
pub open spec fn spec_creation_plan(
    s: PalletStateModel,
    req: CreationRequest,
    ctx: CreationContext,
    limits: AdmissionLimits,
) -> CreationPlan {
    let actor_id = s.next_actor_id;
    let is_user = req.actor_type == ActorType::User;
    let owner_slot = if is_user {
        Some(spec_owner_slot_outcome(ctx.owner_slots, limits.max_owner_slots, req.preferred_user_slot)->Ok_0)
    } else {
        None
    };
    let system_sovereign_id = if is_user {
        None
    } else {
        Some(resolved_system_sovereign(req, actor_id))
    };
    let new_system_sovereign = !is_user && req.requested_system_sovereign is None;
    let sovereign_account = prospective_sovereign(req, ctx, limits);
    CreationPlan {
        actor_id,
        next_actor_id: (actor_id + 1) as u64,
        sovereign_account,
        owner_slot,
        system_sovereign_id,
        new_system_sovereign,
        active_actor_count: (s.active_actor_count + 1) as u32,
        actor_identity_count: (s.actor_identity_count + 1) as u32,
        system_sovereign_count: if new_system_sovereign {
            (s.system_sovereign_count + 1) as u32
        } else {
            s.system_sovereign_count
        },
        charge_creation_fee: is_user,
        event: ActorCreatedEvent {
            actor_id,
            owner: req.owner,
            actor_type: req.actor_type,
            owner_slot,
            system_sovereign_id,
            mutability: req.mutability,
            sovereign_account,
        },
    }
}

/// The admission gates of Actor creation, in the pallet's order, and the plan of the registry
/// change when every gate passes. The Contract's preconditions are canonicalized in place (and
/// left as submitted when canonicalization fails or the circuit breaker refuses first).
#[verifier::rlimit(40)]
pub fn plan_create_actor(
    s: &PalletStateModel,
    req: CreationRequest,
    contract: &mut ActorContract<ContractMeta, Step>,
    ctx: &CreationContext,
    limits: AdmissionLimits,
) -> (r: Result<CreationPlan, Error>)
    requires
        forall|i: int| 0 <= i < old(contract).steps@.len() ==> precondition_well_encoded(#[trigger] old(contract).steps@[i]),
        ctx.slot_sovereigns@.len() == limits.max_owner_slots,
    ensures
        final(contract).meta == old(contract).meta,
        s.global_circuit_breaker || outcome_from(old(contract).steps@, limits.shape.max_predicates_per_step, 0) is Err
            ==> final(contract).steps@ == old(contract).steps@,
        !s.global_circuit_breaker && outcome_from(old(contract).steps@, limits.shape.max_predicates_per_step, 0) is Ok
            ==> final(contract).steps@.len() == old(contract).steps@.len() && forall|i: int|
            0 <= i < old(contract).steps@.len() ==> step_canonicalized(
                #[trigger] final(contract).steps@[i],
                old(contract).steps@[i],
            ),
        r is Ok <==> spec_first_create_refusal(
            old(contract).steps@,
            final(contract).steps@,
            old(contract).meta,
            *s,
            req,
            *ctx,
            limits,
        ) is None,
        r matches Err(e) ==> Some(e) == spec_first_create_refusal(
            old(contract).steps@,
            final(contract).steps@,
            old(contract).meta,
            *s,
            req,
            *ctx,
            limits,
        ),
        r matches Ok(p) ==> p == spec_creation_plan(*s, req, *ctx, limits),
{
    if s.global_circuit_breaker {
        return Err(Error::GlobalCircuitBreakerActive);
    }
    let ghost submitted = contract.steps@;
    match canonicalize_preconditions(&mut contract.steps, limits.shape.max_predicates_per_step) {
        Ok(()) => {},
        Err(e) => return Err(e),
    }
    let meta = contract.meta;
    let steps = &contract.steps;
    if steps.len() as u64 > limits.shape.max_contract_steps as u64 {
        return Err(Error::TooManyContractSteps);
    }
    if req.actor_type == ActorType::User && contract_steps_contains_mint(steps) {
        return Err(Error::MintNotAllowedForUserActor);
    }
    match validate_trigger(
        &meta.trigger,
        meta.cooldown_blocks,
        ctx.filters_canonical,
        ctx.crossing_hysteresis_valid,
        limits.max_execution_delay_blocks,
        limits.max_temporal_delay_ticks,
    ) {
        Ok(()) => {},
        Err(e) => return Err(e),
    }
    if let Some(w) = meta.window {
        match validate_schedule_window(&w, ctx.now, limits.min_window_length, limits.max_execution_delay_blocks) {
            Ok(()) => {},
            Err(e) => return Err(e),
        }
    }
    match validate_future_schedule_targets(&meta.trigger, meta.window, meta.cooldown_blocks, ctx.now) {
        Ok(()) => {},
        Err(e) => return Err(e),
    }
    match validate_contract_steps_shape(steps, limits.shape) {
        Ok(()) => {},
        Err(e) => return Err(e),
    }
    if !ctx.opening_surfaces_ok {
        return Err(Error::InvalidAmountResolution);
    }
    match ensure_retry_later_allowed(req.mutability, steps) {
        Ok(()) => {},
        Err(e) => return Err(e),
    }
    if let Some(target) = meta.auto_close_at_cycle_nonce {
        match ensure_auto_close_target(0, target, limits.auto_close_horizon) {
            Ok(()) => {},
            Err(e) => return Err(e),
        }
    }
    if req.actor_type == ActorType::System && req.mutability == Mutability::Immutable && ctx.manual_source_enabled {
        return Err(Error::InvalidTriggerConfiguration);
    }
    assert(contract_gate_refusal(submitted, steps@, meta, req, *ctx, limits) is None);
    if s.active_actor_count >= s.active_actor_limit {
        return Err(Error::ActiveActorCapacityExceeded);
    }
    if s.actor_identity_count >= limits.max_actor_identities {
        return Err(Error::ActorIdentityCapacityExceeded);
    }
    match ensure_contract_steps_fits_idle_budget(
        req.actor_type,
        ctx.admission_upper,
        ctx.guaranteed_service,
        ctx.resources_derivable,
    ) {
        Ok(()) => {},
        Err(e) => return Err(e),
    }
    let actor_id = s.next_actor_id;
    if s.actors.contains_key(&actor_id) {
        return Err(Error::ActorIdOccupied);
    }
    let is_user = match req.actor_type {
        ActorType::User => true,
        ActorType::System => false,
    };
    if !is_user && !ctx.system_validator_ok {
        return Err(Error::SystemActorTopologyInvalid);
    }
    let system_sovereign_id = match req.requested_system_sovereign {
        Some(id) => id,
        None => actor_id,
    };
    if !is_user {
        match req.requested_system_sovereign {
            Some(_) => match s.system_sovereigns.get(&system_sovereign_id) {
                Some(SystemSovereignState::Vacant) => {},
                Some(SystemSovereignState::Occupied(_)) => return Err(Error::SystemSovereignOccupied),
                None => return Err(Error::SystemSovereignUnknown),
            },
            None => {
                if s.system_sovereigns.contains_key(&system_sovereign_id) {
                    return Err(Error::SystemSovereignOccupied);
                }
                if s.system_sovereign_count >= limits.max_system_sovereigns {
                    return Err(Error::SystemSovereignCapacityExceeded);
                }
            },
        }
    }
    let owner_slot: Option<u8> = if is_user {
        match available_owner_slot(&ctx.owner_slots, limits.max_owner_slots, req.preferred_user_slot) {
            Ok(slot) => Some(slot),
            Err(e) => return Err(e),
        }
    } else {
        None
    };
    let sovereign_account = match owner_slot {
        Some(slot) => ctx.slot_sovereigns[slot as usize],
        None => ctx.system_sovereign_account,
    };
    match validate_recipient_configuration(steps, sovereign_account) {
        Ok(()) => {},
        Err(e) => return Err(e),
    }
    if actor_id == u64::MAX {
        return Err(Error::ActorIdOverflow);
    }
    let new_system_sovereign = !is_user && req.requested_system_sovereign.is_none();
    let system_sovereign = if is_user { None } else { Some(system_sovereign_id) };
    Ok(CreationPlan {
        actor_id,
        next_actor_id: actor_id + 1,
        sovereign_account,
        owner_slot,
        system_sovereign_id: system_sovereign,
        new_system_sovereign,
        active_actor_count: s.active_actor_count + 1,
        actor_identity_count: s.actor_identity_count + 1,
        system_sovereign_count: if new_system_sovereign {
            s.system_sovereign_count + 1
        } else {
            s.system_sovereign_count
        },
        charge_creation_fee: is_user,
        event: ActorCreatedEvent {
            actor_id,
            owner: req.owner,
            actor_type: req.actor_type,
            owner_slot,
            system_sovereign_id: system_sovereign,
            mutability: req.mutability,
            sovereign_account,
        },
    })
}

/// The record of a newly created Actor for the request and plan: Active, Idle, with no
/// pending signal, at cycle nonce 0.
pub open spec fn is_new_actor_record(rec: ActorRecord, plan: CreationPlan, req: CreationRequest) -> bool {
    &&& rec.owner == req.owner
    &&& rec.sovereign == plan.sovereign_account
    &&& rec.actor_type == req.actor_type
    &&& rec.mutability == req.mutability
    &&& rec.owner_slot == plan.owner_slot
    &&& rec.system_sovereign_id == plan.system_sovereign_id
    &&& rec.active matches Some(a) && !a.paused && a.cycle_state == CycleState::Idle && !a.pending_signal
    &&& rec.cycle_nonce == 0
}

/// The registry `t` is `s` after the creation `plan` for `req`: the new record under the new
/// id, its sovereign account indexed, its System sovereign Occupied, and the plan's counters
/// and next id; nothing else changes.
pub open spec fn spec_applied_creation(s: PalletStateModel, t: PalletStateModel, plan: CreationPlan, req: CreationRequest) -> bool {
    &&& t.global_circuit_breaker == s.global_circuit_breaker
    &&& t.active_actor_limit == s.active_actor_limit
    &&& t.active_actor_count == plan.active_actor_count
    &&& t.actor_identity_count == plan.actor_identity_count
    &&& t.next_actor_id == plan.next_actor_id
    &&& t.actors@ == s.actors@.insert(plan.actor_id, t.actors@[plan.actor_id])
    &&& is_new_actor_record(t.actors@[plan.actor_id], plan, req)
    &&& t.run_heads@ == s.run_heads@
    &&& t.run_payloads@ == s.run_payloads@
    &&& t.sovereign_index@ == s.sovereign_index@.insert(plan.sovereign_account, plan.actor_id)
    &&& t.system_sovereigns@ == match plan.system_sovereign_id {
        Some(id) => s.system_sovereigns@.insert(id, SystemSovereignState::Occupied(plan.actor_id)),
        None => s.system_sovereigns@,
    }
    &&& t.system_sovereign_count == plan.system_sovereign_count
}

impl PalletStateModel {
    /// Applies an admitted creation: stores the new Active Actor with the Contract, indexes
    /// its sovereign account, occupies its System sovereign, and takes the plan's counters and
    /// next id.
    pub fn apply_creation_plan(
        &mut self,
        plan: &CreationPlan,
        req: CreationRequest,
        contract: ActorContract<ContractMeta, Step>,
        now: BlockNumber,
    )
        ensures
            spec_applied_creation(*old(self), *final(self), *plan, req),
            final(self).actors@[plan.actor_id].active->Some_0.contract == contract,
            final(self).actors@[plan.actor_id].last_control_mutation_block == now,
    {
        let record = ActorRecord {
            owner: req.owner,
            sovereign: plan.sovereign_account,
            actor_type: req.actor_type,
            mutability: req.mutability,
            owner_slot: plan.owner_slot,
            system_sovereign_id: plan.system_sovereign_id,
            cycle_nonce: 0,
            last_control_mutation_block: now,
            active: Some(ActiveRecord { paused: false, cycle_state: CycleState::Idle, pending_signal: false, contract }),
        };
        self.sovereign_index.insert(plan.sovereign_account, plan.actor_id);
        self.actors.insert(plan.actor_id, record);
        if let Some(id) = plan.system_sovereign_id {
            self.system_sovereigns.insert(id, SystemSovereignState::Occupied(plan.actor_id));
        }
        self.active_actor_count = plan.active_actor_count;
        self.actor_identity_count = plan.actor_identity_count;
        self.system_sovereign_count = plan.system_sovereign_count;
        self.next_actor_id = plan.next_actor_id;
        proof {
            assert(self.actors@ =~= old(self).actors@.insert(plan.actor_id, self.actors@[plan.actor_id]));
        }
    }
}

/// The conditions under which registering a new Active Actor by `plan` keeps the storage
/// invariants: a fresh id below the next id afterwards, room under the active limit, a fresh
/// sovereign account, and a System sovereign that is either new (and counted) or reattached.
pub open spec fn admission_fits(s: PalletStateModel, plan: CreationPlan) -> bool {
    &&& !s.actors@.contains_key(plan.actor_id)
    &&& plan.actor_id < plan.next_actor_id
    &&& s.next_actor_id <= plan.next_actor_id
    &&& s.active_actor_count < s.active_actor_limit
    &&& plan.active_actor_count == s.active_actor_count + 1
    &&& plan.actor_identity_count == s.actor_identity_count + 1
    &&& !s.sovereign_index@.contains_key(plan.sovereign_account)
    &&& match plan.system_sovereign_id {
        Some(id) => if plan.new_system_sovereign {
            !s.system_sovereigns@.contains_key(id) && plan.system_sovereign_count == s.system_sovereign_count + 1
        } else {
            s.system_sovereigns@.contains_key(id) && plan.system_sovereign_count == s.system_sovereign_count
        },
        None => plan.system_sovereign_count == s.system_sovereign_count,
    }
}

/// Registering a new Active Actor by a plan that fits the registry keeps every storage
/// invariant.
pub proof fn lemma_admission_keeps_invariants(
    s: PalletStateModel,
    t: PalletStateModel,
    plan: CreationPlan,
    req: CreationRequest,
    cfg: RuntimeConfiguration,
)
    requires
        pallet_state_invariants(s, cfg),
        admission_fits(s, plan),
        spec_applied_creation(s, t, plan, req),
    ensures
        pallet_state_invariants(t, cfg),
{
    let id = plan.actor_id;
    let sa = s.actors@;
    let ta = t.actors@;
    assert(sa.dom().finite()) by {
        vstd::std_specs::hash::axiom_hashmap_view_finite_dom(s.actors);
    }
    // Active and identity counts.
    assert(active_ids(ta) =~= active_ids(sa).insert(id));
    sa.dom().lemma_len_filter(|k: ActorId| sa[k].active is Some);
    assert(ta.dom() =~= sa.dom().insert(id));
    // Run records.
    assert forall|k: ActorId| #[trigger] t.run_heads@.contains_key(k) implies runs_a_cycle(ta, k) by {
        assert(s.run_heads@.contains_key(k));
        assert(runs_a_cycle(sa, k));
    }
    // Sovereign index.
    let sov = plan.sovereign_account;
    assert forall|k: ActorId| #[trigger] ta.contains_key(k) implies t.sovereign_index@.contains_key(ta[k].sovereign)
        && t.sovereign_index@[ta[k].sovereign] == k by {
        if k != id {
            assert(sa.contains_key(k));
            assert(s.sovereign_index@.contains_key(sa[k].sovereign));
        }
    }
    assert forall|a: AccountId| #[trigger] t.sovereign_index@.contains_key(a) implies ta.contains_key(t.sovereign_index@[a])
        && ta[t.sovereign_index@[a]].sovereign == a by {
        if a != sov {
            assert(s.sovereign_index@.contains_key(a));
        }
    }
    assert(sovereign_index_exact(ta, t.sovereign_index@));
    // Next id.
    assert forall|k: ActorId| #[trigger] ta.contains_key(k) implies k < t.next_actor_id by {
        if k != id {
            assert(sa.contains_key(k));
            assert(!(sa.contains_key(k) && k >= s.next_actor_id));
        }
    }
    // System sovereign count.
    assert(s.system_sovereigns@.dom().finite()) by {
        vstd::std_specs::hash::axiom_hashmap_view_finite_dom(s.system_sovereigns);
    }
    if let Some(ssid) = plan.system_sovereign_id {
        assert(t.system_sovereigns@.dom() =~= s.system_sovereigns@.dom().insert(ssid));
    }
}

/// An admitted creation keeps every storage invariant of the registry: applying the plan
/// that the gates admit to a registry whose invariants hold gives a registry whose invariants
/// hold. The new sovereign account must not already be indexed, which the account derivation
/// makes so for every sovereign account it has not handed out before.
pub proof fn lemma_creation_keeps_invariants(
    s: PalletStateModel,
    t: PalletStateModel,
    submitted: Seq<Step>,
    steps: Seq<Step>,
    meta: ContractMeta,
    req: CreationRequest,
    ctx: CreationContext,
    limits: AdmissionLimits,
    cfg: RuntimeConfiguration,
)
    requires
        pallet_state_invariants(s, cfg),
        spec_first_create_refusal(submitted, steps, meta, s, req, ctx, limits) is None,
        !s.sovereign_index@.contains_key(prospective_sovereign(req, ctx, limits)),
        spec_applied_creation(s, t, spec_creation_plan(s, req, ctx, limits), req),
    ensures
        pallet_state_invariants(t, cfg),
{
    assert(registry_gate_refusal(steps, s, req, ctx, limits) is None);
    assert(admission_fits(s, spec_creation_plan(s, req, ctx, limits)));
    lemma_admission_keeps_invariants(s, t, spec_creation_plan(s, req, ctx, limits), req, cfg);
}

/// What dormant creation reads besides the registry: the owner's slot bitmap and the sovereign
/// accounts derived for each owner slot and for the System sovereign id that creation resolves.
pub struct DormantCreationContext {
    pub owner_slots: OwnerSlotBitmap,
    pub slot_sovereigns: Vec<AccountId>,
    pub system_sovereign_account: AccountId,
}

/// The sovereign account a new Dormant Actor would hold, once its owner slot is known.
pub open spec fn dormant_sovereign(req: CreationRequest, ctx: DormantCreationContext, limits: AdmissionLimits) -> AccountId {
    match req.actor_type {
        ActorType::User => ctx.slot_sovereigns@[spec_owner_slot_outcome(
            ctx.owner_slots,
            limits.max_owner_slots,
            req.preferred_user_slot,
        )->Ok_0 as int],
        ActorType::System => ctx.system_sovereign_account,
    }
}

/// The first gate that refuses creating a Dormant Actor, if any: the breaker, identity
/// capacity, the new id's occupancy and successor, the System sovereign, then the owner slot.
pub open spec fn spec_dormant_refusal(
    s: PalletStateModel,
    req: CreationRequest,
    ctx: DormantCreationContext,
    limits: AdmissionLimits,
) -> Option<Error> {
    let slot = spec_owner_slot_outcome(ctx.owner_slots, limits.max_owner_slots, req.preferred_user_slot);
    if s.global_circuit_breaker {
        Some(Error::GlobalCircuitBreakerActive)
    } else if s.actor_identity_count >= limits.max_actor_identities {
        Some(Error::ActorIdentityCapacityExceeded)
    } else if s.actors@.contains_key(s.next_actor_id) {
        Some(Error::ActorIdOccupied)
    } else if s.next_actor_id == u64::MAX {
        Some(Error::ActorIdOverflow)
    } else if req.actor_type == ActorType::System && system_sovereign_refusal(s, req, limits) is Some {
        system_sovereign_refusal(s, req, limits)
    } else if req.actor_type == ActorType::User && slot is Err {
        Some(slot->Err_0)
    } else {
        None
    }
}

/// The registry change of an admitted dormant creation: as for an Active creation, but the
/// Actor is Mutable and Dormant and the active count stays.
pub open spec fn spec_dormant_plan(
    s: PalletStateModel,
    req: CreationRequest,
    ctx: DormantCreationContext,
    limits: AdmissionLimits,
) -> CreationPlan {
    let actor_id = s.next_actor_id;
    let is_user = req.actor_type == ActorType::User;
    let owner_slot = if is_user {
        Some(spec_owner_slot_outcome(ctx.owner_slots, limits.max_owner_slots, req.preferred_user_slot)->Ok_0)
    } else {
        None
    };
    let system_sovereign_id = if is_user {
        None
    } else {
        Some(resolved_system_sovereign(req, actor_id))
    };
    let new_system_sovereign = !is_user && req.requested_system_sovereign is None;
    let sovereign_account = dormant_sovereign(req, ctx, limits);
    CreationPlan {
        actor_id,
        next_actor_id: (actor_id + 1) as u64,
        sovereign_account,
        owner_slot,
        system_sovereign_id,
        new_system_sovereign,
        active_actor_count: s.active_actor_count,
        actor_identity_count: (s.actor_identity_count + 1) as u32,
        system_sovereign_count: if new_system_sovereign {
            (s.system_sovereign_count + 1) as u32
        } else {
            s.system_sovereign_count
        },
        charge_creation_fee: is_user,
        event: ActorCreatedEvent {
            actor_id,
            owner: req.owner,
            actor_type: req.actor_type,
            owner_slot,
            system_sovereign_id,
            mutability: Mutability::Mutable,
            sovereign_account,
        },
    }
}

/// The gates of creating a Dormant Actor, in the pallet's order, and the plan of the registry
/// change when every gate passes.
pub fn plan_create_dormant_actor(
    s: &PalletStateModel,
    req: CreationRequest,
    ctx: &DormantCreationContext,
    limits: AdmissionLimits,
) -> (r: Result<CreationPlan, Error>)
    requires
        ctx.slot_sovereigns@.len() == limits.max_owner_slots,
    ensures
        r is Ok <==> spec_dormant_refusal(*s, req, *ctx, limits) is None,
        r matches Err(e) ==> Some(e) == spec_dormant_refusal(*s, req, *ctx, limits),
        r matches Ok(p) ==> p == spec_dormant_plan(*s, req, *ctx, limits),
{
    if s.global_circuit_breaker {
        return Err(Error::GlobalCircuitBreakerActive);
    }
    if s.actor_identity_count >= limits.max_actor_identities {
        return Err(Error::ActorIdentityCapacityExceeded);
    }
    let actor_id = s.next_actor_id;
    if s.actors.contains_key(&actor_id) {
        return Err(Error::ActorIdOccupied);
    }
    if actor_id == u64::MAX {
        return Err(Error::ActorIdOverflow);
    }
    let is_user = match req.actor_type {
        ActorType::User => true,
        ActorType::System => false,
    };
    let system_sovereign_id = match req.requested_system_sovereign {
        Some(id) => id,
        None => actor_id,
    };
    if !is_user {
        match req.requested_system_sovereign {
            Some(_) => match s.system_sovereigns.get(&system_sovereign_id) {
                Some(SystemSovereignState::Vacant) => {},
                Some(SystemSovereignState::Occupied(_)) => return Err(Error::SystemSovereignOccupied),
                None => return Err(Error::SystemSovereignUnknown),
            },
            None => {
                if s.system_sovereigns.contains_key(&system_sovereign_id) {
                    return Err(Error::SystemSovereignOccupied);
                }
                if s.system_sovereign_count >= limits.max_system_sovereigns {
                    return Err(Error::SystemSovereignCapacityExceeded);
                }
            },
        }
    }
    let owner_slot: Option<u8> = if is_user {
        match available_owner_slot(&ctx.owner_slots, limits.max_owner_slots, req.preferred_user_slot) {
            Ok(slot) => Some(slot),
            Err(e) => return Err(e),
        }
    } else {
        None
    };
    let sovereign_account = match owner_slot {
        Some(slot) => ctx.slot_sovereigns[slot as usize],
        None => ctx.system_sovereign_account,
    };
    let new_system_sovereign = !is_user && req.requested_system_sovereign.is_none();
    let system_sovereign = if is_user { None } else { Some(system_sovereign_id) };
    Ok(CreationPlan {
        actor_id,
        next_actor_id: actor_id + 1,
        sovereign_account,
        owner_slot,
        system_sovereign_id: system_sovereign,
        new_system_sovereign,
        active_actor_count: s.active_actor_count,
        actor_identity_count: s.actor_identity_count + 1,
        system_sovereign_count: if new_system_sovereign {
            s.system_sovereign_count + 1
        } else {
            s.system_sovereign_count
        },
        charge_creation_fee: is_user,
        event: ActorCreatedEvent {
            actor_id,
            owner: req.owner,
            actor_type: req.actor_type,
            owner_slot,
            system_sovereign_id: system_sovereign,
            mutability: Mutability::Mutable,
            sovereign_account,
        },
    })
}

/// The registry `t` is `s` after the dormant creation `plan` for `req` at block `now`: the new
/// Mutable Dormant record under the new id, its sovereign account indexed, its System sovereign
/// Occupied, and the plan's counters and next id; nothing else changes.
pub open spec fn spec_applied_dormant_creation(
    s: PalletStateModel,
    t: PalletStateModel,
    plan: CreationPlan,
    req: CreationRequest,
    now: BlockNumber,
) -> bool {
    &&& t.actors@ == s.actors@.insert(
        plan.actor_id,
        ActorRecord {
            owner: req.owner,
            sovereign: plan.sovereign_account,
            actor_type: req.actor_type,
            mutability: Mutability::Mutable,
            owner_slot: plan.owner_slot,
            system_sovereign_id: plan.system_sovereign_id,
            cycle_nonce: 0,
            last_control_mutation_block: now,
            active: None,
        },
    )
    &&& t.global_circuit_breaker == s.global_circuit_breaker
    &&& t.active_actor_limit == s.active_actor_limit
    &&& t.active_actor_count == plan.active_actor_count
    &&& t.actor_identity_count == plan.actor_identity_count
    &&& t.next_actor_id == plan.next_actor_id
    &&& t.run_heads@ == s.run_heads@
    &&& t.run_payloads@ == s.run_payloads@
    &&& t.sovereign_index@ == s.sovereign_index@.insert(plan.sovereign_account, plan.actor_id)
    &&& t.system_sovereigns@ == match plan.system_sovereign_id {
        Some(id) => s.system_sovereigns@.insert(id, SystemSovereignState::Occupied(plan.actor_id)),
        None => s.system_sovereigns@,
    }
    &&& t.system_sovereign_count == plan.system_sovereign_count
}

impl PalletStateModel {
    /// Applies an admitted dormant creation at block `now`.
    pub fn apply_dormant_creation(&mut self, plan: &CreationPlan, req: CreationRequest, now: BlockNumber)
        ensures
            spec_applied_dormant_creation(*old(self), *final(self), *plan, req, now),
    {
        let record = ActorRecord {
            owner: req.owner,
            sovereign: plan.sovereign_account,
            actor_type: req.actor_type,
            mutability: Mutability::Mutable,
            owner_slot: plan.owner_slot,
            system_sovereign_id: plan.system_sovereign_id,
            cycle_nonce: 0,
            last_control_mutation_block: now,
            active: None,
        };
        self.sovereign_index.insert(plan.sovereign_account, plan.actor_id);
        self.actors.insert(plan.actor_id, record);
        if let Some(id) = plan.system_sovereign_id {
            self.system_sovereigns.insert(id, SystemSovereignState::Occupied(plan.actor_id));
        }
        self.active_actor_count = plan.active_actor_count;
        self.actor_identity_count = plan.actor_identity_count;
        self.system_sovereign_count = plan.system_sovereign_count;
        self.next_actor_id = plan.next_actor_id;
    }
}

/// An admitted dormant creation keeps every storage invariant of the registry, where the new
/// sovereign account is not already indexed (as the account derivation makes so for every
/// account it has not handed out before).
pub proof fn lemma_dormant_creation_keeps_invariants(
    s: PalletStateModel,
    t: PalletStateModel,
    req: CreationRequest,
    ctx: DormantCreationContext,
    limits: AdmissionLimits,
    now: BlockNumber,
    cfg: RuntimeConfiguration,
)
    requires
        pallet_state_invariants(s, cfg),
        spec_dormant_refusal(s, req, ctx, limits) is None,
        !s.sovereign_index@.contains_key(dormant_sovereign(req, ctx, limits)),
        spec_applied_dormant_creation(s, t, spec_dormant_plan(s, req, ctx, limits), req, now),
    ensures
        pallet_state_invariants(t, cfg),
{
    let plan = spec_dormant_plan(s, req, ctx, limits);
    let id = plan.actor_id;
    let sa = s.actors@;
    let ta = t.actors@;
    assert(sa.dom().finite()) by {
        vstd::std_specs::hash::axiom_hashmap_view_finite_dom(s.actors);
    }
    assert(active_ids(ta) =~= active_ids(sa));
    assert(ta.dom() =~= sa.dom().insert(id));
    assert forall|k: ActorId| #[trigger] t.run_heads@.contains_key(k) implies runs_a_cycle(ta, k) by {
        assert(runs_a_cycle(sa, k));
    }
    let sov = plan.sovereign_account;
    assert forall|k: ActorId| #[trigger] ta.contains_key(k) implies t.sovereign_index@.contains_key(ta[k].sovereign)
        && t.sovereign_index@[ta[k].sovereign] == k by {
        if k != id {
            assert(sa.contains_key(k));
            assert(s.sovereign_index@.contains_key(sa[k].sovereign));
        }
    }
    assert forall|a: AccountId| #[trigger] t.sovereign_index@.contains_key(a) implies ta.contains_key(t.sovereign_index@[a])
        && ta[t.sovereign_index@[a]].sovereign == a by {
        if a != sov {
            assert(s.sovereign_index@.contains_key(a));
        }
    }
    assert(sovereign_index_exact(ta, t.sovereign_index@));
    assert forall|k: ActorId| #[trigger] ta.contains_key(k) implies k < t.next_actor_id by {
        if k != id {
            assert(sa.contains_key(k));
            assert(!(sa.contains_key(k) && k >= s.next_actor_id));
        }
    }
    assert(s.system_sovereigns@.dom().finite()) by {
        vstd::std_specs::hash::axiom_hashmap_view_finite_dom(s.system_sovereigns);
    }
    if let Some(ssid) = plan.system_sovereign_id {
        assert(t.system_sovereigns@.dom() =~= s.system_sovereigns@.dom().insert(ssid));
    }
}


/// Creation admits an Actor only when every admission rule holds: the breaker is off, the
/// submitted preconditions canonicalize, the canonical Steps are within the Step bound, have
/// valid shapes, pay no Mint for a User, never pay the new sovereign account and (for an
/// Immutable Actor) never retry later; the Trigger, window, schedule targets, opening surfaces
/// and auto-close target are valid; an Immutable System Actor admits no manual source; there is
/// room under the active limit and the identity bound; the Contract fits the idle budget; the
/// next id is free and has a successor; a System Actor passes its validator and takes a Vacant
/// requested sovereign or a fresh one under the sovereign bound; a User Actor gets a free owner
/// slot. The admitted plan takes the next id, bumps both counts, and charges the fee exactly
/// for a User Actor.
pub proof fn lemma_creation_admits_only_sound(
    submitted: Seq<Step>,
    steps: Seq<Step>,
    meta: ContractMeta,
    s: PalletStateModel,
    req: CreationRequest,
    ctx: CreationContext,
    limits: AdmissionLimits,
)
    requires
        spec_first_create_refusal(submitted, steps, meta, s, req, ctx, limits) is None,
    ensures
        !s.global_circuit_breaker,
        outcome_from(submitted, limits.shape.max_predicates_per_step, 0) is Ok,
        steps.len() <= limits.shape.max_contract_steps,
        0 < limits.shape.max_contract_steps <= 255,
        spec_steps_shape(steps, limits.shape) is Ok,
        req.actor_type == ActorType::User ==> forall|i: int| 0 <= i < steps.len() ==> !((#[trigger] steps[i]).task is Mint),
        spec_trigger_outcome(
            meta.trigger,
            meta.cooldown_blocks,
            ctx.filters_canonical,
            ctx.crossing_hysteresis_valid,
            limits.max_execution_delay_blocks,
            limits.max_temporal_delay_ticks,
        ) is Ok,
        meta.window matches Some(w) ==> spec_window_outcome(
            w,
            ctx.now,
            limits.min_window_length,
            limits.max_execution_delay_blocks,
        ) is Ok,
        spec_future_targets_outcome(meta.trigger, meta.window, meta.cooldown_blocks, ctx.now) is Ok,
        ctx.opening_surfaces_ok,
        spec_retry_later_outcome(req.mutability, steps) is Ok,
        meta.auto_close_at_cycle_nonce matches Some(t) ==> spec_auto_close_outcome(0, t, limits.auto_close_horizon) is Ok,
        !(req.actor_type == ActorType::System && req.mutability == Mutability::Immutable && ctx.manual_source_enabled),
        s.active_actor_count < s.active_actor_limit,
        s.actor_identity_count < limits.max_actor_identities,
        spec_idle_budget_fit_outcome(req.actor_type, ctx.admission_upper, ctx.guaranteed_service, ctx.resources_derivable)
            is Ok,
        !s.actors@.contains_key(s.next_actor_id),
        s.next_actor_id < u64::MAX,
        req.actor_type == ActorType::System ==> ctx.system_validator_ok,
        req.actor_type == ActorType::System ==> match req.requested_system_sovereign {
            Some(id) => s.system_sovereigns@.contains_key(id) && s.system_sovereigns@[id] == SystemSovereignState::Vacant,
            None => !s.system_sovereigns@.contains_key(s.next_actor_id) && s.system_sovereign_count
                < limits.max_system_sovereigns,
        },
        req.actor_type == ActorType::User ==> spec_owner_slot_outcome(
            ctx.owner_slots,
            limits.max_owner_slots,
            req.preferred_user_slot,
        ) is Ok,
        spec_recipient_outcome(steps, prospective_sovereign(req, ctx, limits)) is Ok,
        ({
            let p = spec_creation_plan(s, req, ctx, limits);
            &&& p.actor_id == s.next_actor_id
            &&& p.next_actor_id == s.next_actor_id + 1
            &&& p.active_actor_count == s.active_actor_count + 1
            &&& p.actor_identity_count == s.actor_identity_count + 1
            &&& p.charge_creation_fee == (req.actor_type == ActorType::User)
            &&& p.sovereign_account == prospective_sovereign(req, ctx, limits)
            &&& (req.actor_type == ActorType::User ==> p.owner_slot is Some && p.system_sovereign_id is None)
            &&& (req.actor_type == ActorType::System ==> p.owner_slot is None && p.system_sovereign_id is Some)
        }),
{
    assert(contract_gate_refusal(submitted, steps, meta, req, ctx, limits) is None);
    assert(registry_gate_refusal(steps, s, req, ctx, limits) is None);
    if req.actor_type == ActorType::User {
        assert forall|i: int| 0 <= i < steps.len() implies !((#[trigger] steps[i]).task is Mint) by {}
    }
}

/// The first gates of creation in order: the breaker refuses before anything else, and with a
/// valid Contract a full active set refuses before the identity bound is read.
pub proof fn lemma_creation_gate_order(
    submitted: Seq<Step>,
    steps: Seq<Step>,
    meta: ContractMeta,
    s: PalletStateModel,
    req: CreationRequest,
    ctx: CreationContext,
    limits: AdmissionLimits,
)
    ensures
        s.global_circuit_breaker ==> spec_first_create_refusal(submitted, steps, meta, s, req, ctx, limits) == Some(
            Error::GlobalCircuitBreakerActive,
        ),
        !s.global_circuit_breaker && contract_gate_refusal(submitted, steps, meta, req, ctx, limits) is None
            && s.active_actor_count >= s.active_actor_limit ==> spec_first_create_refusal(
            submitted,
            steps,
            meta,
            s,
            req,
            ctx,
            limits,
        ) == Some(Error::ActiveActorCapacityExceeded),
{
}

/// Dormant creation admits an Actor only when the breaker is off, there is room under the
/// identity bound, the next id is free and has a successor, a System Actor takes a Vacant
/// requested sovereign or a fresh one under the sovereign bound, and a User Actor gets a free
/// owner slot; the plan is Mutable and leaves the active count as it was.
pub proof fn lemma_dormant_creation_admits_only_sound(
    s: PalletStateModel,
    req: CreationRequest,
    ctx: DormantCreationContext,
    limits: AdmissionLimits,
)
    requires
        spec_dormant_refusal(s, req, ctx, limits) is None,
    ensures
        !s.global_circuit_breaker,
        s.actor_identity_count < limits.max_actor_identities,
        !s.actors@.contains_key(s.next_actor_id),
        s.next_actor_id < u64::MAX,
        req.actor_type == ActorType::System ==> match req.requested_system_sovereign {
            Some(id) => s.system_sovereigns@.contains_key(id) && s.system_sovereigns@[id] == SystemSovereignState::Vacant,
            None => !s.system_sovereigns@.contains_key(s.next_actor_id) && s.system_sovereign_count
                < limits.max_system_sovereigns,
        },
        req.actor_type == ActorType::User ==> spec_owner_slot_outcome(
            ctx.owner_slots,
            limits.max_owner_slots,
            req.preferred_user_slot,
        ) is Ok,
        spec_dormant_plan(s, req, ctx, limits).active_actor_count == s.active_actor_count,
        spec_dormant_plan(s, req, ctx, limits).actor_identity_count == s.actor_identity_count + 1,
        spec_dormant_plan(s, req, ctx, limits).event.mutability == Mutability::Mutable,
        spec_dormant_plan(s, req, ctx, limits).charge_creation_fee == (req.actor_type == ActorType::User),
{
}

} // verus!
