//! Genesis admission of the configured System Actors: the active-actor limit a fresh chain
//! starts with, and, for each Active System Actor, the checks genesis makes (each fails genesis
//! outright) before it registers the Actor under its own id and System sovereign.
use vstd::prelude::*;

use crate::contract::Step;
use crate::control::{ensure_contract_steps_fits_idle_budget, spec_idle_budget_fit_outcome};
use crate::creation::{
    admission_fits, lemma_admission_keeps_invariants, spec_applied_creation, ActorCreatedEvent, AdmissionLimits,
    CreationPlan, CreationRequest,
};
use crate::errors::Error;
use crate::geometry::ActorContract;
use crate::integrity::RuntimeConfiguration;
use crate::pallet_state::{pallet_state_invariants, ContractMeta, PalletStateModel};
use crate::precondition::{canonicalize_preconditions, outcome_from, precondition_well_encoded, step_canonicalized};
use crate::types::{AccountId, ActorId, ActorType, Mutability};
use crate::validation::{
    ensure_auto_close_target, ensure_retry_later_allowed, spec_auto_close_outcome, spec_future_targets_outcome,
    spec_recipient_outcome, spec_retry_later_outcome, spec_steps_shape, spec_trigger_outcome, spec_window_outcome,
    validate_contract_steps_shape, validate_future_schedule_targets, validate_recipient_configuration,
    validate_schedule_window, validate_trigger,
};
use crate::weight::Weight;

verus! {

broadcast use vstd::std_specs::hash::group_hash_axioms;

/// The active-actor limit after genesis: the stored limit, or the largest configurable one
/// where none is stored.
pub fn genesis_active_actor_limit(stored: u32, max_active_actors: u32, max_queue_length: u32) -> (r: u32)
    ensures
        r == if stored != 0 {
            stored
        } else if max_active_actors <= max_queue_length {
            max_active_actors
        } else {
            max_queue_length
        },
{
    if stored != 0 {
        stored
    } else if max_active_actors <= max_queue_length {
        max_active_actors
    } else {
        max_queue_length
    }
}

/// Which genesis check fails.
#[derive(Clone, Copy, Debug, PartialEq, Eq, Structural)]
pub enum GenesisRefusal {
    DuplicateActorId,
    ActorIdOverflow,
    SovereignCollision,
    ImmutableManualReadiness,
    Contract(Error),
    TopologyInvalid,
    ActiveCapacity,
    SovereignCapacity,
    DuplicateSovereign,
    IdentityCapacity,
}

/// What the genesis checks of one System Actor read besides the registry and the Contract: the
/// results of checks made by other parts of the runtime, the sovereign account derived for the
/// Actor's id, and the capacity bounds.
pub struct GenesisContext {
    pub filters_canonical: bool,
    pub crossing_hysteresis_valid: bool,
    pub opening_surfaces_ok: bool,
    pub manual_source_enabled: bool,
    pub admission_upper: Weight,
    pub guaranteed_service: Option<Weight>,
    pub system_validator_ok: bool,
    pub sovereign_account: AccountId,
    pub max_active_actors: u32,
}

/// The Contract checks genesis makes for one Active System Actor, in order, at block 0:
/// Trigger, window, future schedule targets, auto-close target, canonicalization, Step shapes.
pub open spec fn genesis_contract_refusal(
    submitted: Seq<Step>,
    steps: Seq<Step>,
    meta: ContractMeta,
    ctx: GenesisContext,
    limits: AdmissionLimits,
) -> Option<Error> {
    if spec_trigger_outcome(
        meta.trigger,
        meta.cooldown_blocks,
        ctx.filters_canonical,
        ctx.crossing_hysteresis_valid,
        limits.max_execution_delay_blocks,
        limits.max_temporal_delay_ticks,
    ) is Err {
        Some(
            spec_trigger_outcome(
                meta.trigger,
                meta.cooldown_blocks,
                ctx.filters_canonical,
                ctx.crossing_hysteresis_valid,
                limits.max_execution_delay_blocks,
                limits.max_temporal_delay_ticks,
            )->Err_0,
        )
    } else if meta.window matches Some(w) && spec_window_outcome(
        w,
        0,
        limits.min_window_length,
        limits.max_execution_delay_blocks,
    ) is Err {
        Some(spec_window_outcome(meta.window->Some_0, 0, limits.min_window_length, limits.max_execution_delay_blocks)->Err_0)
    } else if spec_future_targets_outcome(meta.trigger, meta.window, meta.cooldown_blocks, 0) is Err {
        Some(spec_future_targets_outcome(meta.trigger, meta.window, meta.cooldown_blocks, 0)->Err_0)
    } else if meta.auto_close_at_cycle_nonce matches Some(t) && spec_auto_close_outcome(0, t, limits.auto_close_horizon)
        is Err {
        Some(spec_auto_close_outcome(0, meta.auto_close_at_cycle_nonce->Some_0, limits.auto_close_horizon)->Err_0)
    } else if outcome_from(submitted, limits.shape.max_predicates_per_step, 0) is Err {
        Some(outcome_from(submitted, limits.shape.max_predicates_per_step, 0)->Err_0)
    } else if !(0 < limits.shape.max_contract_steps <= 255) {
        Some(Error::TooManyContractSteps)
    } else if spec_steps_shape(steps, limits.shape) is Err {
        Some(spec_steps_shape(steps, limits.shape)->Err_0)
    } else {
        None
    }
}

/// The first genesis check that fails for the Active System Actor `actor_id`, if any: the id is
/// fresh and has a successor, the sovereign account is fresh, an Immutable Actor admits no
/// manual readiness, the Contract checks, the System validator, recipients, opening surfaces,
/// retries, the idle budget, then active capacity, System sovereign capacity and freshness, and
/// identity capacity.
pub open spec fn genesis_active_refusal(
    submitted: Seq<Step>,
    steps: Seq<Step>,
    meta: ContractMeta,
    s: PalletStateModel,
    actor_id: ActorId,
    mutability: Mutability,
    ctx: GenesisContext,
    limits: AdmissionLimits,
) -> Option<GenesisRefusal> {
    if s.actors@.contains_key(actor_id) {
        Some(GenesisRefusal::DuplicateActorId)
    } else if actor_id == u64::MAX {
        Some(GenesisRefusal::ActorIdOverflow)
    } else if s.sovereign_index@.contains_key(ctx.sovereign_account) {
        Some(GenesisRefusal::SovereignCollision)
    } else if mutability != Mutability::Mutable && ctx.manual_source_enabled {
        Some(GenesisRefusal::ImmutableManualReadiness)
    } else if genesis_contract_refusal(submitted, steps, meta, ctx, limits) is Some {
        Some(GenesisRefusal::Contract(genesis_contract_refusal(submitted, steps, meta, ctx, limits)->Some_0))
    } else if !ctx.system_validator_ok {
        Some(GenesisRefusal::TopologyInvalid)
    } else if spec_recipient_outcome(steps, ctx.sovereign_account) is Err {
        Some(GenesisRefusal::Contract(Error::SelfTransferNotAllowed))
    } else if !ctx.opening_surfaces_ok {
        Some(GenesisRefusal::Contract(Error::InvalidAmountResolution))
    } else if spec_retry_later_outcome(mutability, steps) is Err {
        Some(GenesisRefusal::Contract(Error::RetryLaterNotAllowedForImmutableActor))
    } else if spec_idle_budget_fit_outcome(ActorType::System, ctx.admission_upper, ctx.guaranteed_service, true)
        is Err {
        Some(GenesisRefusal::Contract(Error::ContractStepsExceedOnIdleBudget))
    } else if s.active_actor_count >= ctx.max_active_actors {
        Some(GenesisRefusal::ActiveCapacity)
    } else if s.system_sovereign_count >= limits.max_system_sovereigns {
        Some(GenesisRefusal::SovereignCapacity)
    } else if s.system_sovereigns@.contains_key(actor_id) {
        Some(GenesisRefusal::DuplicateSovereign)
    } else if s.actor_identity_count >= limits.max_actor_identities {
        Some(GenesisRefusal::IdentityCapacity)
    } else {
        None
    }
}

/// The registry change of a genesis System Actor: registered under its own id and System
/// sovereign, with the next id raised past it where needed.
pub open spec fn spec_genesis_plan(
    s: PalletStateModel,
    actor_id: ActorId,
    owner: AccountId,
    mutability: Mutability,
    ctx: GenesisContext,
) -> CreationPlan {
    let next = if s.next_actor_id < actor_id + 1 {
        (actor_id + 1) as u64
    } else {
        s.next_actor_id
    };
    CreationPlan {
        actor_id,
        next_actor_id: next,
        sovereign_account: ctx.sovereign_account,
        owner_slot: None,
        system_sovereign_id: Some(actor_id),
        new_system_sovereign: true,
        active_actor_count: (s.active_actor_count + 1) as u32,
        actor_identity_count: (s.actor_identity_count + 1) as u32,
        system_sovereign_count: (s.system_sovereign_count + 1) as u32,
        charge_creation_fee: false,
        event: ActorCreatedEvent {
            actor_id,
            owner,
            actor_type: ActorType::System,
            owner_slot: None,
            system_sovereign_id: Some(actor_id),
            mutability,
            sovereign_account: ctx.sovereign_account,
        },
    }
}

/// The request a genesis System Actor is registered as.
pub open spec fn genesis_request(owner: AccountId, mutability: Mutability) -> CreationRequest {
    CreationRequest {
        owner,
        actor_type: ActorType::System,
        mutability,
        preferred_user_slot: None,
        requested_system_sovereign: None,
    }
}

/// Runs the genesis checks of one Active System Actor, in the order genesis makes them, and
/// plans its registration when they all pass (genesis fails outright on the first failed
/// check). The Contract's preconditions are canonicalized in place (and left as submitted when
/// an earlier check or canonicalization fails).
#[verifier::rlimit(40)]
pub fn plan_genesis_system_actor(
    s: &PalletStateModel,
    actor_id: ActorId,
    owner: AccountId,
    mutability: Mutability,
    contract: &mut ActorContract<ContractMeta, Step>,
    ctx: &GenesisContext,
    limits: AdmissionLimits,
) -> (r: Result<CreationPlan, GenesisRefusal>)
    requires
        forall|i: int| 0 <= i < old(contract).steps@.len() ==> precondition_well_encoded(#[trigger] old(contract).steps@[i]),
    ensures
        final(contract).meta == old(contract).meta,
        final(contract).steps@ == old(contract).steps@ || (final(contract).steps@.len() == old(contract).steps@.len()
            && forall|i: int|
            0 <= i < old(contract).steps@.len() ==> step_canonicalized(
                #[trigger] final(contract).steps@[i],
                old(contract).steps@[i],
            )),
        r is Ok <==> genesis_active_refusal(
            old(contract).steps@,
            final(contract).steps@,
            old(contract).meta,
            *s,
            actor_id,
            mutability,
            *ctx,
            limits,
        ) is None,
        r matches Err(e) ==> Some(e) == genesis_active_refusal(
            old(contract).steps@,
            final(contract).steps@,
            old(contract).meta,
            *s,
            actor_id,
            mutability,
            *ctx,
            limits,
        ),
        r matches Ok(p) ==> p == spec_genesis_plan(*s, actor_id, owner, mutability, *ctx),
{
    let ghost submitted = contract.steps@;
    let meta = contract.meta;
    if s.actors.contains_key(&actor_id) {
        return Err(GenesisRefusal::DuplicateActorId);
    }
    if actor_id == u64::MAX {
        return Err(GenesisRefusal::ActorIdOverflow);
    }
    if s.sovereign_index.contains_key(&ctx.sovereign_account) {
        return Err(GenesisRefusal::SovereignCollision);
    }
    if mutability != Mutability::Mutable && ctx.manual_source_enabled {
        return Err(GenesisRefusal::ImmutableManualReadiness);
    }
    match validate_trigger(
        &meta.trigger,
        meta.cooldown_blocks,
        ctx.filters_canonical,
        ctx.crossing_hysteresis_valid,
        limits.max_execution_delay_blocks,
        limits.max_temporal_delay_ticks,
    ) {
        Ok(()) => {},
        Err(e) => return Err(GenesisRefusal::Contract(e)),
    }
    if let Some(w) = meta.window {
        match validate_schedule_window(&w, 0, limits.min_window_length, limits.max_execution_delay_blocks) {
            Ok(()) => {},
            Err(e) => return Err(GenesisRefusal::Contract(e)),
        }
    }
    match validate_future_schedule_targets(&meta.trigger, meta.window, meta.cooldown_blocks, 0) {
        Ok(()) => {},
        Err(e) => return Err(GenesisRefusal::Contract(e)),
    }
    if let Some(target) = meta.auto_close_at_cycle_nonce {
        match ensure_auto_close_target(0, target, limits.auto_close_horizon) {
            Ok(()) => {},
            Err(e) => return Err(GenesisRefusal::Contract(e)),
        }
    }
    match canonicalize_preconditions(&mut contract.steps, limits.shape.max_predicates_per_step) {
        Ok(()) => {},
        Err(e) => return Err(GenesisRefusal::Contract(e)),
    }
    let steps = &contract.steps;
    match validate_contract_steps_shape(steps, limits.shape) {
        Ok(()) => {},
        Err(e) => return Err(GenesisRefusal::Contract(e)),
    }
    if !ctx.system_validator_ok {
        return Err(GenesisRefusal::TopologyInvalid);
    }
    match validate_recipient_configuration(steps, ctx.sovereign_account) {
        Ok(()) => {},
        Err(e) => return Err(GenesisRefusal::Contract(e)),
    }
    if !ctx.opening_surfaces_ok {
        return Err(GenesisRefusal::Contract(Error::InvalidAmountResolution));
    }
    match ensure_retry_later_allowed(mutability, steps) {
        Ok(()) => {},
        Err(e) => return Err(GenesisRefusal::Contract(e)),
    }
    match ensure_contract_steps_fits_idle_budget(ActorType::System, ctx.admission_upper, ctx.guaranteed_service, true) {
        Ok(()) => {},
        Err(e) => return Err(GenesisRefusal::Contract(e)),
    }
    if s.active_actor_count >= ctx.max_active_actors {
        return Err(GenesisRefusal::ActiveCapacity);
    }
    if s.system_sovereign_count >= limits.max_system_sovereigns {
        return Err(GenesisRefusal::SovereignCapacity);
    }
    if s.system_sovereigns.contains_key(&actor_id) {
        return Err(GenesisRefusal::DuplicateSovereign);
    }
    if s.actor_identity_count >= limits.max_actor_identities {
        return Err(GenesisRefusal::IdentityCapacity);
    }
    let next = if s.next_actor_id < actor_id + 1 {
        actor_id + 1
    } else {
        s.next_actor_id
    };
    Ok(CreationPlan {
        actor_id,
        next_actor_id: next,
        sovereign_account: ctx.sovereign_account,
        owner_slot: None,
        system_sovereign_id: Some(actor_id),
        new_system_sovereign: true,
        active_actor_count: s.active_actor_count + 1,
        actor_identity_count: s.actor_identity_count + 1,
        system_sovereign_count: s.system_sovereign_count + 1,
        charge_creation_fee: false,
        event: ActorCreatedEvent {
            actor_id,
            owner,
            actor_type: ActorType::System,
            owner_slot: None,
            system_sovereign_id: Some(actor_id),
            mutability,
            sovereign_account: ctx.sovereign_account,
        },
    })
}

/// Registering a genesis System Actor that passes every genesis check keeps every storage
/// invariant of the registry, where the registry has room under its active limit (genesis
/// bounds the active count by the configured maximum instead, which may exceed the limit).
pub proof fn lemma_genesis_keeps_invariants(
    s: PalletStateModel,
    t: PalletStateModel,
    submitted: Seq<Step>,
    steps: Seq<Step>,
    meta: ContractMeta,
    actor_id: ActorId,
    owner: AccountId,
    mutability: Mutability,
    ctx: GenesisContext,
    limits: AdmissionLimits,
    cfg: RuntimeConfiguration,
)
    requires
        pallet_state_invariants(s, cfg),
        s.active_actor_count < s.active_actor_limit,
        genesis_active_refusal(submitted, steps, meta, s, actor_id, mutability, ctx, limits) is None,
        spec_applied_creation(s, t, spec_genesis_plan(s, actor_id, owner, mutability, ctx), genesis_request(owner, mutability)),
    ensures
        pallet_state_invariants(t, cfg),
{
    assert(admission_fits(s, spec_genesis_plan(s, actor_id, owner, mutability, ctx)));
    lemma_admission_keeps_invariants(
        s,
        t,
        spec_genesis_plan(s, actor_id, owner, mutability, ctx),
        genesis_request(owner, mutability),
        cfg,
    );
}


/// Genesis admits a System Actor only under a fresh id with a successor and a fresh sovereign
/// account and System sovereign, within the active, sovereign and identity bounds, with an
/// Immutable Actor admitting no manual source and a Contract that passes every admission rule;
/// the plan raises the next id past the Actor's id (never lowers it) and counts the Actor.
pub proof fn lemma_genesis_admits_only_sound(
    submitted: Seq<Step>,
    steps: Seq<Step>,
    meta: ContractMeta,
    s: PalletStateModel,
    actor_id: ActorId,
    owner: AccountId,
    mutability: Mutability,
    ctx: GenesisContext,
    limits: AdmissionLimits,
)
    requires
        genesis_active_refusal(submitted, steps, meta, s, actor_id, mutability, ctx, limits) is None,
    ensures
        !s.actors@.contains_key(actor_id),
        actor_id < u64::MAX,
        !s.sovereign_index@.contains_key(ctx.sovereign_account),
        !s.system_sovereigns@.contains_key(actor_id),
        mutability != Mutability::Mutable ==> !ctx.manual_source_enabled,
        ctx.system_validator_ok,
        ctx.opening_surfaces_ok,
        outcome_from(submitted, limits.shape.max_predicates_per_step, 0) is Ok,
        spec_steps_shape(steps, limits.shape) is Ok,
        spec_recipient_outcome(steps, ctx.sovereign_account) is Ok,
        spec_retry_later_outcome(mutability, steps) is Ok,
        s.active_actor_count < ctx.max_active_actors,
        s.system_sovereign_count < limits.max_system_sovereigns,
        s.actor_identity_count < limits.max_actor_identities,
        ({
            let p = spec_genesis_plan(s, actor_id, owner, mutability, ctx);
            &&& p.actor_id == actor_id
            &&& p.next_actor_id > actor_id
            &&& p.next_actor_id >= s.next_actor_id
            &&& p.active_actor_count == s.active_actor_count + 1
            &&& p.system_sovereign_count == s.system_sovereign_count + 1
            &&& p.system_sovereign_id == Some(actor_id)
            &&& !p.charge_creation_fee
        }),
{
    assert(genesis_contract_refusal(submitted, steps, meta, ctx, limits) is None);
}

} // verus!
