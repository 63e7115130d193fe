//! Activation of a Dormant Actor with a new Contract, and deactivation of an Active one: the
//! gates in the order the pallet applies them, the registry change of each, and that each
//! keeps the registry's storage invariants.
use vstd::prelude::*;

use crate::contract::Step;
use crate::control::{ensure_contract_steps_fits_idle_budget, spec_idle_budget_fit_outcome};
use crate::creation::AdmissionLimits;
use crate::errors::Error;
use crate::geometry::ActorContract;
use crate::integrity::RuntimeConfiguration;
use crate::pallet_state::{
    active_ids, pallet_state_invariants, runs_a_cycle, sovereign_index_exact, ActiveRecord, ActorRecord, ContractMeta,
    same_registry_footprint, PalletStateModel, SystemSovereignState,
};
use crate::precondition::{canonicalize_preconditions, outcome_from, precondition_well_encoded, step_canonicalized};
use crate::semantic::CycleState;
use crate::types::{AccountId, ActorId, ActorType, BlockNumber, Mutability};
use crate::update::{origin_controls, origin_refusal, ControlOrigin};
use crate::validation::{
    contract_steps_contains_mint, ensure_auto_close_target, ensure_control_mutation_allowed, ensure_retry_later_allowed,
    spec_auto_close_outcome, spec_future_targets_outcome, spec_recipient_outcome, spec_retry_later_outcome,
    spec_steps_shape, spec_trigger_outcome, spec_window_outcome, validate_contract_steps_shape,
    validate_future_schedule_targets, validate_recipient_configuration, validate_schedule_window, validate_trigger,
};
use crate::weight::Weight;

verus! {

broadcast use vstd::std_specs::hash::group_hash_axioms;

/// What the activation gates read besides the registry and the Contract: the block and the
/// results of checks made by other parts of the runtime (the Trigger's filters and hysteresis,
/// the staking share assets of opening surfaces, the weight bounds of the canonical Steps, the
/// System Contract validator).
pub struct ActivationContext {
    pub now: BlockNumber,
    pub filters_canonical: bool,
    pub crossing_hysteresis_valid: bool,
    pub opening_surfaces_ok: bool,
    pub admission_upper: Weight,
    pub guaranteed_service: Option<Weight>,
    pub resources_derivable: bool,
    pub system_validator_ok: bool,
}

/// The Contract gates of an activation, on the submitted Steps `submitted` and their canonical
/// form `steps`: canonicalization, the Step bound, the User mint ban, the Trigger, the window,
/// the future schedule targets, the Step shapes, the System validator, recipients, opening
/// surfaces, retries, the auto-close target and the idle budget.
pub open spec fn activation_contract_refusal(
    submitted: Seq<Step>,
    steps: Seq<Step>,
    meta: ContractMeta,
    rec: ActorRecord,
    ctx: ActivationContext,
    limits: AdmissionLimits,
) -> Option<Error> {
    if outcome_from(submitted, limits.shape.max_predicates_per_step, 0) is Err {
        Some(outcome_from(submitted, limits.shape.max_predicates_per_step, 0)->Err_0)
    } else if steps.len() > limits.shape.max_contract_steps {
        Some(Error::TooManyContractSteps)
    } else if rec.actor_type == ActorType::User && exists|i: int| 0 <= i < steps.len() && (#[trigger] steps[i]).task is Mint {
        Some(Error::MintNotAllowedForUserActor)
    } else if spec_trigger_outcome(
        meta.trigger,
        meta.cooldown_blocks,
        ctx.filters_canonical,
        ctx.crossing_hysteresis_valid,
        limits.max_execution_delay_blocks,
        limits.max_temporal_delay_ticks,
    ) is Err {
        Some(
            spec_trigger_outcome(
                meta.trigger,
                meta.cooldown_blocks,
                ctx.filters_canonical,
                ctx.crossing_hysteresis_valid,
                limits.max_execution_delay_blocks,
                limits.max_temporal_delay_ticks,
            )->Err_0,
        )
    } else if meta.window matches Some(w) && spec_window_outcome(
        w,
        ctx.now,
        limits.min_window_length,
        limits.max_execution_delay_blocks,
    ) is Err {
        Some(
            spec_window_outcome(
                meta.window->Some_0,
                ctx.now,
                limits.min_window_length,
                limits.max_execution_delay_blocks,
            )->Err_0,
        )
    } else if spec_future_targets_outcome(meta.trigger, meta.window, meta.cooldown_blocks, ctx.now) is Err {
        Some(spec_future_targets_outcome(meta.trigger, meta.window, meta.cooldown_blocks, ctx.now)->Err_0)
    } else if !(0 < limits.shape.max_contract_steps <= 255) {
        Some(Error::TooManyContractSteps)
    } else if spec_steps_shape(steps, limits.shape) is Err {
        Some(spec_steps_shape(steps, limits.shape)->Err_0)
    } else if rec.actor_type == ActorType::System && !ctx.system_validator_ok {
        Some(Error::SystemActorTopologyInvalid)
    } else if spec_recipient_outcome(steps, rec.sovereign) is Err {
        Some(Error::SelfTransferNotAllowed)
    } else if !ctx.opening_surfaces_ok {
        Some(Error::InvalidAmountResolution)
    } else if spec_retry_later_outcome(rec.mutability, steps) is Err {
        Some(Error::RetryLaterNotAllowedForImmutableActor)
    } else if meta.auto_close_at_cycle_nonce matches Some(t) && spec_auto_close_outcome(
        rec.cycle_nonce,
        t,
        limits.auto_close_horizon,
    ) is Err {
        Some(
            spec_auto_close_outcome(rec.cycle_nonce, meta.auto_close_at_cycle_nonce->Some_0, limits.auto_close_horizon)->Err_0,
        )
    } else if spec_idle_budget_fit_outcome(
        rec.actor_type,
        ctx.admission_upper,
        ctx.guaranteed_service,
        ctx.resources_derivable,
    ) is Err {
        Some(
            spec_idle_budget_fit_outcome(
                rec.actor_type,
                ctx.admission_upper,
                ctx.guaranteed_service,
                ctx.resources_derivable,
            )->Err_0,
        )
    } else {
        None
    }
}

/// The first gate that refuses activating the Actor `actor_id` by `origin`, if any: the Actor
/// must be registered and Dormant, the origin must control it, the breaker must be off, the
/// Actor Mutable, the Contract admissible, the active limit not reached and no control
/// mutation recorded in this block.
pub open spec fn spec_activation_refusal(
    submitted: Seq<Step>,
    steps: Seq<Step>,
    meta: ContractMeta,
    s: PalletStateModel,
    actor_id: ActorId,
    origin: ControlOrigin,
    ctx: ActivationContext,
    limits: AdmissionLimits,
) -> Option<Error> {
    let rec = s.actors@[actor_id];
    if !s.actors@.contains_key(actor_id) {
        Some(Error::ActorNotFound)
    } else if rec.active is Some {
        Some(Error::ActorAlreadyActive)
    } else if origin_refusal(rec, origin) is Some {
        origin_refusal(rec, origin)
    } else if s.global_circuit_breaker {
        Some(Error::GlobalCircuitBreakerActive)
    } else if rec.mutability != Mutability::Mutable {
        Some(Error::ImmutableActor)
    } else if activation_contract_refusal(submitted, steps, meta, rec, ctx, limits) is Some {
        activation_contract_refusal(submitted, steps, meta, rec, ctx, limits)
    } else if s.active_actor_count >= s.active_actor_limit {
        Some(Error::ActiveActorCapacityExceeded)
    } else if rec.last_control_mutation_block == ctx.now {
        Some(Error::ControlMutationRateLimited)
    } else {
        None
    }
}

/// The gates of activating a Dormant Actor with a new Contract, in the pallet's order. The
/// Contract's preconditions are canonicalized in place (and left as submitted when an earlier
/// gate or canonicalization refuses).
#[verifier::rlimit(40)]
pub fn plan_activate_actor(
    s: &PalletStateModel,
    actor_id: ActorId,
    origin: ControlOrigin,
    contract: &mut ActorContract<ContractMeta, Step>,
    ctx: &ActivationContext,
    limits: AdmissionLimits,
) -> (r: Result<(), Error>)
    requires
        forall|i: int| 0 <= i < old(contract).steps@.len() ==> precondition_well_encoded(#[trigger] old(contract).steps@[i]),
    ensures
        final(contract).meta == old(contract).meta,
        final(contract).steps@ == old(contract).steps@ || (final(contract).steps@.len() == old(contract).steps@.len()
            && forall|i: int|
            0 <= i < old(contract).steps@.len() ==> step_canonicalized(
                #[trigger] final(contract).steps@[i],
                old(contract).steps@[i],
            )),
        r is Ok <==> spec_activation_refusal(
            old(contract).steps@,
            final(contract).steps@,
            old(contract).meta,
            *s,
            actor_id,
            origin,
            *ctx,
            limits,
        ) is None,
        r matches Err(e) ==> Some(e) == spec_activation_refusal(
            old(contract).steps@,
            final(contract).steps@,
            old(contract).meta,
            *s,
            actor_id,
            origin,
            *ctx,
            limits,
        ),
{
    let ghost submitted = contract.steps@;
    let meta = contract.meta;
    let rec = match s.actors.get(&actor_id) {
        Some(rec) => rec,
        None => return Err(Error::ActorNotFound),
    };
    if rec.active.is_some() {
        return Err(Error::ActorAlreadyActive);
    }
    match origin {
        ControlOrigin::Signed(who) => {
            if who != rec.owner {
                return Err(Error::NotOwner);
            }
        },
        ControlOrigin::System => {
            if rec.actor_type != ActorType::System {
                return Err(Error::NotGovernance);
            }
        },
    }
    if s.global_circuit_breaker {
        return Err(Error::GlobalCircuitBreakerActive);
    }
    if rec.mutability != Mutability::Mutable {
        return Err(Error::ImmutableActor);
    }
    match canonicalize_preconditions(&mut contract.steps, limits.shape.max_predicates_per_step) {
        Ok(()) => {},
        Err(e) => return Err(e),
    }
    let steps = &contract.steps;
    if steps.len() as u64 > limits.shape.max_contract_steps as u64 {
        return Err(Error::TooManyContractSteps);
    }
    if rec.actor_type == ActorType::User && contract_steps_contains_mint(steps) {
        return Err(Error::MintNotAllowedForUserActor);
    }
    match validate_trigger(
        &meta.trigger,
        meta.cooldown_blocks,
        ctx.filters_canonical,
        ctx.crossing_hysteresis_valid,
        limits.max_execution_delay_blocks,
        limits.max_temporal_delay_ticks,
    ) {
        Ok(()) => {},
        Err(e) => return Err(e),
    }
    if let Some(w) = meta.window {
        match validate_schedule_window(&w, ctx.now, limits.min_window_length, limits.max_execution_delay_blocks) {
            Ok(()) => {},
            Err(e) => return Err(e),
        }
    }
    match validate_future_schedule_targets(&meta.trigger, meta.window, meta.cooldown_blocks, ctx.now) {
        Ok(()) => {},
        Err(e) => return Err(e),
    }
    match validate_contract_steps_shape(steps, limits.shape) {
        Ok(()) => {},
        Err(e) => return Err(e),
    }
    if rec.actor_type == ActorType::System && !ctx.system_validator_ok {
        return Err(Error::SystemActorTopologyInvalid);
    }
    match validate_recipient_configuration(steps, rec.sovereign) {
        Ok(()) => {},
        Err(e) => return Err(e),
    }
    if !ctx.opening_surfaces_ok {
        return Err(Error::InvalidAmountResolution);
    }
    match ensure_retry_later_allowed(rec.mutability, steps) {
        Ok(()) => {},
        Err(e) => return Err(e),
    }
    if let Some(target) = meta.auto_close_at_cycle_nonce {
        match ensure_auto_close_target(rec.cycle_nonce, target, limits.auto_close_horizon) {
            Ok(()) => {},
            Err(e) => return Err(e),
        }
    }
    match ensure_contract_steps_fits_idle_budget(
        rec.actor_type,
        ctx.admission_upper,
        ctx.guaranteed_service,
        ctx.resources_derivable,
    ) {
        Ok(()) => {},
        Err(e) => return Err(e),
    }
    if s.active_actor_count >= s.active_actor_limit {
        return Err(Error::ActiveActorCapacityExceeded);
    }
    match ensure_control_mutation_allowed(rec.last_control_mutation_block, ctx.now) {
        Ok(()) => {},
        Err(e) => return Err(e),
    }
    assert(activation_contract_refusal(submitted, steps@, meta, *rec, *ctx, limits) is None);
    Ok(())
}

/// The registry `t` is `s` after activating the Dormant Actor `actor_id` at block `now`: its
/// record becomes Active and Idle with no pending signal, its control mutation is recorded, and
/// the active count grows by one; nothing else changes.
pub open spec fn spec_applied_activation(s: PalletStateModel, t: PalletStateModel, actor_id: ActorId, now: BlockNumber) -> bool {
    let before = s.actors@[actor_id];
    let after = t.actors@[actor_id];
    &&& t.actors@ == s.actors@.insert(actor_id, after)
    &&& after.owner == before.owner
    &&& after.sovereign == before.sovereign
    &&& after.actor_type == before.actor_type
    &&& after.mutability == before.mutability
    &&& after.owner_slot == before.owner_slot
    &&& after.system_sovereign_id == before.system_sovereign_id
    &&& after.cycle_nonce == before.cycle_nonce
    &&& after.last_control_mutation_block == now
    &&& after.active matches Some(a) && a.cycle_state == CycleState::Idle && !a.pending_signal
    &&& t.active_actor_count == s.active_actor_count + 1
    &&& t.global_circuit_breaker == s.global_circuit_breaker
    &&& t.active_actor_limit == s.active_actor_limit
    &&& t.actor_identity_count == s.actor_identity_count
    &&& t.next_actor_id == s.next_actor_id
    &&& t.run_heads@ == s.run_heads@
    &&& t.run_payloads@ == s.run_payloads@
    &&& t.sovereign_index@ == s.sovereign_index@
    &&& t.system_sovereigns@ == s.system_sovereigns@
    &&& t.system_sovereign_count == s.system_sovereign_count
}

impl PalletStateModel {
    /// Activates a Dormant Actor that passed the activation gates, with its canonical Contract,
    /// at block `now`.
    pub fn apply_activation(&mut self, actor_id: ActorId, contract: ActorContract<ContractMeta, Step>, now: BlockNumber)
        requires
            old(self).actors@.contains_key(actor_id),
            old(self).active_actor_count < u32::MAX,
        ensures
            spec_applied_activation(*old(self), *final(self), actor_id, now),
            final(self).actors@[actor_id].active->Some_0.contract == contract,
    {
        let rec = self.actors.remove(&actor_id).unwrap();
        let activated = ActorRecord {
            owner: rec.owner,
            sovereign: rec.sovereign,
            actor_type: rec.actor_type,
            mutability: rec.mutability,
            owner_slot: rec.owner_slot,
            system_sovereign_id: rec.system_sovereign_id,
            cycle_nonce: rec.cycle_nonce,
            last_control_mutation_block: now,
            active: Some(ActiveRecord { paused: false, cycle_state: CycleState::Idle, pending_signal: false, contract }),
        };
        self.actors.insert(actor_id, activated);
        self.active_actor_count = self.active_actor_count + 1;
        proof {
            assert(self.actors@ =~= old(self).actors@.insert(actor_id, self.actors@[actor_id]));
        }
    }
}

/// Activating a Dormant Actor that passes every activation gate keeps every storage invariant
/// of the registry.
pub proof fn lemma_activation_keeps_invariants(
    s: PalletStateModel,
    t: PalletStateModel,
    submitted: Seq<Step>,
    steps: Seq<Step>,
    meta: ContractMeta,
    actor_id: ActorId,
    origin: ControlOrigin,
    ctx: ActivationContext,
    limits: AdmissionLimits,
    cfg: RuntimeConfiguration,
)
    requires
        pallet_state_invariants(s, cfg),
        spec_activation_refusal(submitted, steps, meta, s, actor_id, origin, ctx, limits) is None,
        spec_applied_activation(s, t, actor_id, ctx.now),
    ensures
        pallet_state_invariants(t, cfg),
{
    let sa = s.actors@;
    let ta = t.actors@;
    assert(sa.dom().finite()) by {
        vstd::std_specs::hash::axiom_hashmap_view_finite_dom(s.actors);
    }
    assert(ta.dom() =~= sa.dom());
    assert(active_ids(ta) =~= active_ids(sa).insert(actor_id));
    sa.dom().lemma_len_filter(|k: ActorId| sa[k].active is Some);
    assert forall|k: ActorId| #[trigger] t.run_heads@.contains_key(k) implies runs_a_cycle(ta, k) by {
        assert(runs_a_cycle(sa, k));
    }
    assert forall|k: ActorId| #[trigger] ta.contains_key(k) implies t.sovereign_index@.contains_key(ta[k].sovereign)
        && t.sovereign_index@[ta[k].sovereign] == k by {
        assert(sa.contains_key(k));
    }
    assert forall|a: AccountId| #[trigger] t.sovereign_index@.contains_key(a) implies ta.contains_key(t.sovereign_index@[a])
        && ta[t.sovereign_index@[a]].sovereign == a by {
        assert(s.sovereign_index@.contains_key(a));
    }
    assert(sovereign_index_exact(ta, t.sovereign_index@));
    assert forall|k: ActorId| #[trigger] ta.contains_key(k) implies k < t.next_actor_id by {
        assert(sa.contains_key(k));
        assert(!(sa.contains_key(k) && k >= s.next_actor_id));
    }
}

/// The first gate that refuses deactivating the Actor `actor_id` by `origin` at block `now`, if
/// any: it must be registered and Active, the origin must control it, it must be Mutable, no
/// control mutation may be recorded in this block, and the active count must be positive.
pub open spec fn spec_deactivation_refusal(
    s: PalletStateModel,
    actor_id: ActorId,
    origin: ControlOrigin,
    now: BlockNumber,
) -> Option<Error> {
    let rec = s.actors@[actor_id];
    if !s.actors@.contains_key(actor_id) {
        Some(Error::ActorNotFound)
    } else if rec.active is None {
        Some(Error::ActorDormant)
    } else if origin_refusal(rec, origin) is Some {
        origin_refusal(rec, origin)
    } else if rec.mutability != Mutability::Mutable {
        Some(Error::ImmutableActor)
    } else if rec.last_control_mutation_block == now {
        Some(Error::ControlMutationRateLimited)
    } else if s.active_actor_count == 0 {
        Some(Error::ActiveActorCountInvariant)
    } else {
        None
    }
}

/// The gates of deactivating an Active Actor, in the pallet's order.
pub fn plan_deactivate_actor(s: &PalletStateModel, actor_id: ActorId, origin: ControlOrigin, now: BlockNumber) -> (r:
    Result<(), Error>)
    ensures
        r is Ok <==> spec_deactivation_refusal(*s, actor_id, origin, now) is None,
        r matches Err(e) ==> Some(e) == spec_deactivation_refusal(*s, actor_id, origin, now),
{
    let rec = match s.actors.get(&actor_id) {
        Some(rec) => rec,
        None => return Err(Error::ActorNotFound),
    };
    if rec.active.is_none() {
        return Err(Error::ActorDormant);
    }
    match origin {
        ControlOrigin::Signed(who) => {
            if who != rec.owner {
                return Err(Error::NotOwner);
            }
        },
        ControlOrigin::System => {
            if rec.actor_type != ActorType::System {
                return Err(Error::NotGovernance);
            }
        },
    }
    if rec.mutability != Mutability::Mutable {
        return Err(Error::ImmutableActor);
    }
    match ensure_control_mutation_allowed(rec.last_control_mutation_block, now) {
        Ok(()) => {},
        Err(e) => return Err(e),
    }
    if s.active_actor_count == 0 {
        return Err(Error::ActiveActorCountInvariant);
    }
    Ok(())
}

/// The registry `t` is `s` after deactivating the Active Actor `actor_id` at block `now`: its
/// record keeps its identity and becomes Dormant, its control mutation is recorded, its open
/// run is cancelled, and the active count falls by one; nothing else changes.
pub open spec fn spec_applied_deactivation(s: PalletStateModel, t: PalletStateModel, actor_id: ActorId, now: BlockNumber) -> bool {
    let before = s.actors@[actor_id];
    let after = t.actors@[actor_id];
    &&& t.actors@ == s.actors@.insert(actor_id, after)
    &&& after.owner == before.owner
    &&& after.sovereign == before.sovereign
    &&& after.actor_type == before.actor_type
    &&& after.mutability == before.mutability
    &&& after.owner_slot == before.owner_slot
    &&& after.system_sovereign_id == before.system_sovereign_id
    &&& after.cycle_nonce == before.cycle_nonce
    &&& after.last_control_mutation_block == now
    &&& after.active is None
    &&& t.active_actor_count == s.active_actor_count - 1
    &&& t.run_heads@ == s.run_heads@.remove(actor_id)
    &&& t.run_payloads@ == s.run_payloads@.remove(actor_id)
    &&& t.global_circuit_breaker == s.global_circuit_breaker
    &&& t.active_actor_limit == s.active_actor_limit
    &&& t.actor_identity_count == s.actor_identity_count
    &&& t.next_actor_id == s.next_actor_id
    &&& t.sovereign_index@ == s.sovereign_index@
    &&& t.system_sovereigns@ == s.system_sovereigns@
    &&& t.system_sovereign_count == s.system_sovereign_count
}

impl PalletStateModel {
    /// Deactivates an Active Actor that passed the deactivation gates, at block `now`.
    pub fn apply_deactivation(&mut self, actor_id: ActorId, now: BlockNumber)
        requires
            old(self).actors@.contains_key(actor_id),
            old(self).active_actor_count > 0,
        ensures
            spec_applied_deactivation(*old(self), *final(self), actor_id, now),
    {
        let rec = self.actors.remove(&actor_id).unwrap();
        let dormant = ActorRecord {
            owner: rec.owner,
            sovereign: rec.sovereign,
            actor_type: rec.actor_type,
            mutability: rec.mutability,
            owner_slot: rec.owner_slot,
            system_sovereign_id: rec.system_sovereign_id,
            cycle_nonce: rec.cycle_nonce,
            last_control_mutation_block: now,
            active: None,
        };
        self.actors.insert(actor_id, dormant);
        self.run_heads.remove(&actor_id);
        self.run_payloads.remove(&actor_id);
        self.active_actor_count = self.active_actor_count - 1;
        proof {
            assert(self.actors@ =~= old(self).actors@.insert(actor_id, self.actors@[actor_id]));
        }
    }
}

/// Deactivating an Active Actor that passes every deactivation gate keeps every storage
/// invariant of the registry.
pub proof fn lemma_deactivation_keeps_invariants(
    s: PalletStateModel,
    t: PalletStateModel,
    actor_id: ActorId,
    origin: ControlOrigin,
    now: BlockNumber,
    cfg: RuntimeConfiguration,
)
    requires
        pallet_state_invariants(s, cfg),
        spec_deactivation_refusal(s, actor_id, origin, now) is None,
        spec_applied_deactivation(s, t, actor_id, now),
    ensures
        pallet_state_invariants(t, cfg),
{
    let sa = s.actors@;
    let ta = t.actors@;
    assert(sa.dom().finite()) by {
        vstd::std_specs::hash::axiom_hashmap_view_finite_dom(s.actors);
    }
    assert(ta.dom() =~= sa.dom());
    assert(active_ids(sa) =~= active_ids(ta).insert(actor_id));
    ta.dom().lemma_len_filter(|k: ActorId| ta[k].active is Some);
    assert(t.run_heads@.dom() =~= t.run_payloads@.dom());
    assert forall|k: ActorId| #[trigger] t.run_heads@.contains_key(k) implies runs_a_cycle(ta, k) by {
        assert(runs_a_cycle(sa, k));
    }
    assert forall|k: ActorId| #[trigger] ta.contains_key(k) implies t.sovereign_index@.contains_key(ta[k].sovereign)
        && t.sovereign_index@[ta[k].sovereign] == k by {
        assert(sa.contains_key(k));
    }
    assert forall|a: AccountId| #[trigger] t.sovereign_index@.contains_key(a) implies ta.contains_key(t.sovereign_index@[a])
        && ta[t.sovereign_index@[a]].sovereign == a by {
        assert(s.sovereign_index@.contains_key(a));
    }
    assert(sovereign_index_exact(ta, t.sovereign_index@));
    assert forall|k: ActorId| #[trigger] ta.contains_key(k) implies k < t.next_actor_id by {
        assert(sa.contains_key(k));
        assert(!(sa.contains_key(k) && k >= s.next_actor_id));
    }
}

/// The first check that refuses closing the Actor `actor_id`, Active or Dormant, if any: it
/// must be registered, the active count positive when it is Active, the identity count
/// positive, its sovereign account indexed to it, a User Actor's owner slot set in its
/// owner's bitmap (`owner_slot_set`), and a System Actor's sovereign Occupied by it.
pub open spec fn spec_finalize_refusal(s: PalletStateModel, actor_id: ActorId, owner_slot_set: bool) -> Option<Error> {
    let rec = s.actors@[actor_id];
    if !s.actors@.contains_key(actor_id) {
        Some(Error::ActorNotFound)
    } else if rec.active is Some && s.active_actor_count == 0 {
        Some(Error::ActiveActorCountInvariant)
    } else if s.actor_identity_count == 0 {
        Some(Error::ActorIdentityCountInvariant)
    } else if !(s.sovereign_index@.contains_key(rec.sovereign) && s.sovereign_index@[rec.sovereign] == actor_id) {
        Some(Error::ActorNotFound)
    } else if rec.actor_type == ActorType::User && !owner_slot_set {
        Some(Error::InvalidOwnerSlot)
    } else if rec.actor_type == ActorType::System && !(rec.system_sovereign_id matches Some(id)
        && s.system_sovereigns@.contains_key(id) && s.system_sovereigns@[id] == SystemSovereignState::Occupied(
        actor_id,
    )) {
        Some(Error::SystemSovereignInvariant)
    } else {
        None
    }
}

/// The checks of closing an Actor, Active or Dormant, in the pallet's order.
pub fn plan_finalize_actor(s: &PalletStateModel, actor_id: ActorId, owner_slot_set: bool) -> (r: Result<(), Error>)
    ensures
        r is Ok <==> spec_finalize_refusal(*s, actor_id, owner_slot_set) is None,
        r matches Err(e) ==> Some(e) == spec_finalize_refusal(*s, actor_id, owner_slot_set),
{
    let rec = match s.actors.get(&actor_id) {
        Some(rec) => rec,
        None => return Err(Error::ActorNotFound),
    };
    if rec.active.is_some() && s.active_actor_count == 0 {
        return Err(Error::ActiveActorCountInvariant);
    }
    if s.actor_identity_count == 0 {
        return Err(Error::ActorIdentityCountInvariant);
    }
    let indexed = match s.sovereign_index.get(&rec.sovereign) {
        Some(id) => *id == actor_id,
        None => false,
    };
    if !indexed {
        return Err(Error::ActorNotFound);
    }
    match rec.actor_type {
        ActorType::User => {
            if !owner_slot_set {
                return Err(Error::InvalidOwnerSlot);
            }
        },
        ActorType::System => {
            let held = match rec.system_sovereign_id {
                Some(id) => match s.system_sovereigns.get(&id) {
                    Some(SystemSovereignState::Occupied(holder)) => *holder == actor_id,
                    _ => false,
                },
                None => false,
            };
            if !held {
                return Err(Error::SystemSovereignInvariant);
            }
        },
    }
    Ok(())
}

/// The first gate that refuses closing the Actor `actor_id` at the request of `origin`, if
/// any: it must be registered, the origin must control it and it must be Mutable, then the
/// closing checks apply.
pub open spec fn spec_close_refusal(s: PalletStateModel, actor_id: ActorId, origin: ControlOrigin, owner_slot_set: bool) -> Option<
    Error,
> {
    let rec = s.actors@[actor_id];
    if !s.actors@.contains_key(actor_id) {
        Some(Error::ActorNotFound)
    } else if origin_refusal(rec, origin) is Some {
        origin_refusal(rec, origin)
    } else if rec.mutability != Mutability::Mutable {
        Some(Error::ImmutableActor)
    } else {
        spec_finalize_refusal(s, actor_id, owner_slot_set)
    }
}

/// The gates of an owner- or governance-initiated close, in the pallet's order.
pub fn plan_close_actor(s: &PalletStateModel, actor_id: ActorId, origin: ControlOrigin, owner_slot_set: bool) -> (r:
    Result<(), Error>)
    ensures
        r is Ok <==> spec_close_refusal(*s, actor_id, origin, owner_slot_set) is None,
        r matches Err(e) ==> Some(e) == spec_close_refusal(*s, actor_id, origin, owner_slot_set),
{
    let rec = match s.actors.get(&actor_id) {
        Some(rec) => rec,
        None => return Err(Error::ActorNotFound),
    };
    match origin {
        ControlOrigin::Signed(who) => {
            if who != rec.owner {
                return Err(Error::NotOwner);
            }
        },
        ControlOrigin::System => {
            if rec.actor_type != ActorType::System {
                return Err(Error::NotGovernance);
            }
        },
    }
    if rec.mutability != Mutability::Mutable {
        return Err(Error::ImmutableActor);
    }
    plan_finalize_actor(s, actor_id, owner_slot_set)
}

/// The registry `t` is `s` after closing the Actor `actor_id`: its record, its run records and
/// its sovereign account's index entry are gone, its System sovereign (if any) is Vacant for
/// reattachment, the identity count falls by one and, for an Active Actor, the active count
/// too; nothing else changes.
pub open spec fn spec_applied_finalization(s: PalletStateModel, t: PalletStateModel, actor_id: ActorId) -> bool {
    let rec = s.actors@[actor_id];
    &&& t.actors@ == s.actors@.remove(actor_id)
    &&& t.run_heads@ == s.run_heads@.remove(actor_id)
    &&& t.run_payloads@ == s.run_payloads@.remove(actor_id)
    &&& t.sovereign_index@ == s.sovereign_index@.remove(rec.sovereign)
    &&& t.system_sovereigns@ == match rec.system_sovereign_id {
        Some(id) => if rec.actor_type == ActorType::System {
            s.system_sovereigns@.insert(id, SystemSovereignState::Vacant)
        } else {
            s.system_sovereigns@
        },
        None => s.system_sovereigns@,
    }
    &&& t.active_actor_count == if rec.active is Some {
        s.active_actor_count - 1
    } else {
        s.active_actor_count as int
    }
    &&& t.actor_identity_count == s.actor_identity_count - 1
    &&& t.global_circuit_breaker == s.global_circuit_breaker
    &&& t.active_actor_limit == s.active_actor_limit
    &&& t.next_actor_id == s.next_actor_id
    &&& t.system_sovereign_count == s.system_sovereign_count
}

impl PalletStateModel {
    /// Closes an Actor that passed the closing checks.
    pub fn apply_finalization(&mut self, actor_id: ActorId)
        requires
            old(self).actors@.contains_key(actor_id),
            old(self).actors@[actor_id].active is Some ==> old(self).active_actor_count > 0,
            old(self).actor_identity_count > 0,
        ensures
            spec_applied_finalization(*old(self), *final(self), actor_id),
    {
        let rec = self.actors.remove(&actor_id).unwrap();
        self.run_heads.remove(&actor_id);
        self.run_payloads.remove(&actor_id);
        self.sovereign_index.remove(&rec.sovereign);
        if let Some(id) = rec.system_sovereign_id {
            if rec.actor_type == ActorType::System {
                self.system_sovereigns.insert(id, SystemSovereignState::Vacant);
            }
        }
        if rec.active.is_some() {
            self.active_actor_count = self.active_actor_count - 1;
        }
        self.actor_identity_count = self.actor_identity_count - 1;
    }
}

/// Closing an Actor that passes every closing check keeps every storage invariant of the
/// registry.
pub proof fn lemma_finalization_keeps_invariants(
    s: PalletStateModel,
    t: PalletStateModel,
    actor_id: ActorId,
    owner_slot_set: bool,
    cfg: RuntimeConfiguration,
)
    requires
        pallet_state_invariants(s, cfg),
        spec_finalize_refusal(s, actor_id, owner_slot_set) is None,
        spec_applied_finalization(s, t, actor_id),
    ensures
        pallet_state_invariants(t, cfg),
{
    let sa = s.actors@;
    let ta = t.actors@;
    let sov = sa[actor_id].sovereign;
    assert(sa.dom().finite()) by {
        vstd::std_specs::hash::axiom_hashmap_view_finite_dom(s.actors);
    }
    assert(ta.dom() =~= sa.dom().remove(actor_id));
    assert(active_ids(ta) =~= active_ids(sa).remove(actor_id));
    sa.dom().lemma_len_filter(|k: ActorId| sa[k].active is Some);
    if sa[actor_id].active is None {
        assert(active_ids(ta) =~= active_ids(sa));
    }
    assert(t.run_heads@.dom() =~= t.run_payloads@.dom());
    assert forall|k: ActorId| #[trigger] t.run_heads@.contains_key(k) implies runs_a_cycle(ta, k) by {
        assert(runs_a_cycle(sa, k));
    }
    assert forall|k: ActorId| #[trigger] ta.contains_key(k) implies t.sovereign_index@.contains_key(ta[k].sovereign)
        && t.sovereign_index@[ta[k].sovereign] == k by {
        assert(sa.contains_key(k));
        assert(s.sovereign_index@[sa[k].sovereign] == k);
    }
    assert forall|a: AccountId| #[trigger] t.sovereign_index@.contains_key(a) implies ta.contains_key(t.sovereign_index@[a])
        && ta[t.sovereign_index@[a]].sovereign == a by {
        assert(s.sovereign_index@.contains_key(a));
        assert(a != sov);
        if s.sovereign_index@[a] == actor_id {
            assert(sa[actor_id].sovereign == a);
        }
    }
    assert(sovereign_index_exact(ta, t.sovereign_index@));
    assert forall|k: ActorId| #[trigger] ta.contains_key(k) implies k < t.next_actor_id by {
        assert(sa.contains_key(k));
        assert(!(sa.contains_key(k) && k >= s.next_actor_id));
    }
    if sa[actor_id].actor_type == ActorType::System {
        assert(t.system_sovereigns@.dom() =~= s.system_sovereigns@.dom());
    }
}

/// What an admitted pause or resume does.
#[derive(Clone, Copy, Debug, PartialEq, Eq, Structural)]
pub enum PauseTransition {
    /// The Actor already is in the requested lifecycle: success, with no write and no event.
    Unchanged,
    /// The Actor's window has expired: it is closed for window expiry instead.
    CloseWindowExpired,
    /// The lifecycle changes and the control mutation is recorded at `mutation_block`.
    Apply { mutation_block: BlockNumber },
}

/// The outcome of pausing (`pause`) or resuming (`!pause`) the Actor `actor_id` at the request
/// of `origin` at block `now`; `expiry_due` says whether its window expiry is due. The Actor
/// must be registered and Active and controlled by the origin, not System Immutable; then an
/// expired window closes it; it must be Mutable; a request for the lifecycle it already has
/// changes nothing; no control mutation may be recorded in this block. A resume also refuses an
/// Idle Actor that still holds run records.
pub open spec fn spec_pause_transition(
    s: PalletStateModel,
    actor_id: ActorId,
    origin: ControlOrigin,
    pause: bool,
    expiry_due: bool,
    now: BlockNumber,
) -> Result<PauseTransition, Error> {
    let rec = s.actors@[actor_id];
    let a = rec.active->Some_0;
    if !s.actors@.contains_key(actor_id) || rec.active is None {
        Err(Error::ActorNotFound)
    } else if !pause && a.cycle_state == CycleState::Idle && (s.run_heads@.contains_key(actor_id)
        || s.run_payloads@.contains_key(actor_id)) {
        Err(Error::ActorInvariant)
    } else if origin_refusal(rec, origin) is Some {
        Err(origin_refusal(rec, origin)->Some_0)
    } else if rec.actor_type == ActorType::System && rec.mutability == Mutability::Immutable {
        Err(Error::ImmutableActor)
    } else if expiry_due {
        Ok(PauseTransition::CloseWindowExpired)
    } else if rec.mutability != Mutability::Mutable {
        Err(Error::ImmutableActor)
    } else if a.paused == pause {
        Ok(PauseTransition::Unchanged)
    } else if rec.last_control_mutation_block == now {
        Err(Error::ControlMutationRateLimited)
    } else {
        Ok(PauseTransition::Apply { mutation_block: now })
    }
}

/// The gates of pausing (`pause`) or resuming (`!pause`) an Actor, in the pallet's order.
pub fn plan_pause_transition(
    s: &PalletStateModel,
    actor_id: ActorId,
    origin: ControlOrigin,
    pause: bool,
    expiry_due: bool,
    now: BlockNumber,
) -> (r: Result<PauseTransition, Error>)
    ensures
        r == spec_pause_transition(*s, actor_id, origin, pause, expiry_due, now),
{
    let rec = match s.actors.get(&actor_id) {
        Some(rec) => rec,
        None => return Err(Error::ActorNotFound),
    };
    let a = match &rec.active {
        Some(a) => a,
        None => return Err(Error::ActorNotFound),
    };
    let idle = match a.cycle_state {
        CycleState::Idle => true,
        _ => false,
    };
    if !pause && idle && (s.run_heads.contains_key(&actor_id) || s.run_payloads.contains_key(&actor_id)) {
        return Err(Error::ActorInvariant);
    }
    match origin {
        ControlOrigin::Signed(who) => {
            if who != rec.owner {
                return Err(Error::NotOwner);
            }
        },
        ControlOrigin::System => {
            if rec.actor_type != ActorType::System {
                return Err(Error::NotGovernance);
            }
        },
    }
    if rec.actor_type == ActorType::System && rec.mutability == Mutability::Immutable {
        return Err(Error::ImmutableActor);
    }
    if expiry_due {
        return Ok(PauseTransition::CloseWindowExpired);
    }
    if rec.mutability != Mutability::Mutable {
        return Err(Error::ImmutableActor);
    }
    if a.paused == pause {
        return Ok(PauseTransition::Unchanged);
    }
    match ensure_control_mutation_allowed(rec.last_control_mutation_block, now) {
        Ok(()) => {},
        Err(e) => return Err(e),
    }
    Ok(PauseTransition::Apply { mutation_block: now })
}

impl PalletStateModel {
    /// Sets an Active Actor's lifecycle to Paused (`pause`) or Active and records the control
    /// mutation at `now`.
    pub fn apply_pause_transition(&mut self, actor_id: ActorId, pause: bool, now: BlockNumber)
        requires
            old(self).actors@.contains_key(actor_id),
            old(self).actors@[actor_id].active is Some,
        ensures
            final(self).actors@ == old(self).actors@.insert(actor_id, final(self).actors@[actor_id]),
            same_registry_footprint(old(self).actors@[actor_id], final(self).actors@[actor_id]),
            final(self).actors@[actor_id].active->Some_0.paused == pause,
            final(self).actors@[actor_id].last_control_mutation_block == now,
            final(self).actors@[actor_id].owner == old(self).actors@[actor_id].owner,
            final(self).actors@[actor_id].mutability == old(self).actors@[actor_id].mutability,
            final(self).actors@[actor_id].actor_type == old(self).actors@[actor_id].actor_type,
            final(self).global_circuit_breaker == old(self).global_circuit_breaker,
            final(self).active_actor_limit == old(self).active_actor_limit,
            final(self).active_actor_count == old(self).active_actor_count,
            final(self).actor_identity_count == old(self).actor_identity_count,
            final(self).next_actor_id == old(self).next_actor_id,
            final(self).run_heads@ == old(self).run_heads@,
            final(self).run_payloads@ == old(self).run_payloads@,
            final(self).sovereign_index@ == old(self).sovereign_index@,
            final(self).system_sovereigns@ == old(self).system_sovereigns@,
            final(self).system_sovereign_count == old(self).system_sovereign_count,
    {
        let rec = self.actors.remove(&actor_id).unwrap();
        let a = rec.active.unwrap();
        let updated = ActorRecord {
            owner: rec.owner,
            sovereign: rec.sovereign,
            actor_type: rec.actor_type,
            mutability: rec.mutability,
            owner_slot: rec.owner_slot,
            system_sovereign_id: rec.system_sovereign_id,
            cycle_nonce: rec.cycle_nonce,
            last_control_mutation_block: now,
            active: Some(
                ActiveRecord {
                    paused: pause,
                    cycle_state: a.cycle_state,
                    pending_signal: a.pending_signal,
                    contract: a.contract,
                },
            ),
        };
        self.actors.insert(actor_id, updated);
        proof {
            assert(self.actors@ =~= old(self).actors@.insert(actor_id, self.actors@[actor_id]));
        }
    }
}

/// What an admitted manual trigger does.
#[derive(Clone, Copy, Debug, PartialEq, Eq, Structural)]
pub enum ManualTriggerPlan {
    /// The Actor's window has expired: it is closed for window expiry instead.
    CloseWindowExpired,
    /// A cycle is open or a signal already latched: the occurrence is ignored, with nothing
    /// charged.
    Ignored,
    /// The occurrence is committed through the Trigger: the fee is charged and the signal
    /// latched.
    Occurrence,
}

/// The outcome of a manual trigger of the Actor `actor_id` by `origin`; `expiry_due` says
/// whether its window expiry is due and `manual_source_enabled` whether its Trigger admits a
/// manual source. The Actor must be registered and Active and controlled by the origin, not
/// System Immutable; an expired window closes it; it must not be Paused and must admit a
/// manual source.
pub open spec fn spec_manual_trigger(
    s: PalletStateModel,
    actor_id: ActorId,
    origin: ControlOrigin,
    expiry_due: bool,
    manual_source_enabled: bool,
) -> Result<ManualTriggerPlan, Error> {
    let rec = s.actors@[actor_id];
    let a = rec.active->Some_0;
    if !s.actors@.contains_key(actor_id) || rec.active is None {
        Err(Error::ActorNotFound)
    } else if origin_refusal(rec, origin) is Some {
        Err(origin_refusal(rec, origin)->Some_0)
    } else if rec.actor_type == ActorType::System && rec.mutability == Mutability::Immutable {
        Err(Error::ImmutableActor)
    } else if expiry_due {
        Ok(ManualTriggerPlan::CloseWindowExpired)
    } else if a.paused {
        Err(Error::ActorPaused)
    } else if !manual_source_enabled {
        Err(Error::ManualSourceDisabled)
    } else if a.cycle_state != CycleState::Idle || a.pending_signal {
        Ok(ManualTriggerPlan::Ignored)
    } else {
        Ok(ManualTriggerPlan::Occurrence)
    }
}

/// The gates of a manual trigger, in the pallet's order.
pub fn plan_manual_trigger(
    s: &PalletStateModel,
    actor_id: ActorId,
    origin: ControlOrigin,
    expiry_due: bool,
    manual_source_enabled: bool,
) -> (r: Result<ManualTriggerPlan, Error>)
    ensures
        r == spec_manual_trigger(*s, actor_id, origin, expiry_due, manual_source_enabled),
{
    let rec = match s.actors.get(&actor_id) {
        Some(rec) => rec,
        None => return Err(Error::ActorNotFound),
    };
    let a = match &rec.active {
        Some(a) => a,
        None => return Err(Error::ActorNotFound),
    };
    match origin {
        ControlOrigin::Signed(who) => {
            if who != rec.owner {
                return Err(Error::NotOwner);
            }
        },
        ControlOrigin::System => {
            if rec.actor_type != ActorType::System {
                return Err(Error::NotGovernance);
            }
        },
    }
    if rec.actor_type == ActorType::System && rec.mutability == Mutability::Immutable {
        return Err(Error::ImmutableActor);
    }
    if expiry_due {
        return Ok(ManualTriggerPlan::CloseWindowExpired);
    }
    if a.paused {
        return Err(Error::ActorPaused);
    }
    if !manual_source_enabled {
        return Err(Error::ManualSourceDisabled);
    }
    let idle = match a.cycle_state {
        CycleState::Idle => true,
        _ => false,
    };
    if !idle || a.pending_signal {
        return Ok(ManualTriggerPlan::Ignored);
    }
    Ok(ManualTriggerPlan::Occurrence)
}

/// What an admitted run cancellation does.
#[derive(Clone, Copy, Debug, PartialEq, Eq, Structural)]
pub enum RunCancellationPlan {
    /// The Actor's window has expired: it is closed for window expiry instead.
    CloseWindowExpired,
    /// The open run is cancelled and the control mutation recorded at `mutation_block`.
    Cancel { mutation_block: BlockNumber },
}

/// The outcome of cancelling the open run of the Actor `actor_id` at the request of `origin`
/// at block `now`; `expiry_due` says whether its window expiry is due. The Actor must be
/// registered and Active, controlled by the origin and Mutable; an expired window closes it;
/// it must run or be suspended in a cycle, and no control mutation may be recorded in this
/// block.
pub open spec fn spec_run_cancellation(
    s: PalletStateModel,
    actor_id: ActorId,
    origin: ControlOrigin,
    expiry_due: bool,
    now: BlockNumber,
) -> Result<RunCancellationPlan, Error> {
    let rec = s.actors@[actor_id];
    let a = rec.active->Some_0;
    if !s.actors@.contains_key(actor_id) || rec.active is None {
        Err(Error::ActorNotFound)
    } else if origin_refusal(rec, origin) is Some {
        Err(origin_refusal(rec, origin)->Some_0)
    } else if rec.mutability != Mutability::Mutable {
        Err(Error::ImmutableActor)
    } else if expiry_due {
        Ok(RunCancellationPlan::CloseWindowExpired)
    } else if a.cycle_state == CycleState::Idle {
        Err(Error::ActorRunNotFound)
    } else if rec.last_control_mutation_block == now {
        Err(Error::ControlMutationRateLimited)
    } else {
        Ok(RunCancellationPlan::Cancel { mutation_block: now })
    }
}

/// The gates of an explicit run cancellation, in the pallet's order.
pub fn plan_cancel_run(
    s: &PalletStateModel,
    actor_id: ActorId,
    origin: ControlOrigin,
    expiry_due: bool,
    now: BlockNumber,
) -> (r: Result<RunCancellationPlan, Error>)
    ensures
        r == spec_run_cancellation(*s, actor_id, origin, expiry_due, now),
{
    let rec = match s.actors.get(&actor_id) {
        Some(rec) => rec,
        None => return Err(Error::ActorNotFound),
    };
    let a = match &rec.active {
        Some(a) => a,
        None => return Err(Error::ActorNotFound),
    };
    match origin {
        ControlOrigin::Signed(who) => {
            if who != rec.owner {
                return Err(Error::NotOwner);
            }
        },
        ControlOrigin::System => {
            if rec.actor_type != ActorType::System {
                return Err(Error::NotGovernance);
            }
        },
    }
    if rec.mutability != Mutability::Mutable {
        return Err(Error::ImmutableActor);
    }
    if expiry_due {
        return Ok(RunCancellationPlan::CloseWindowExpired);
    }
    let idle = match a.cycle_state {
        CycleState::Idle => true,
        _ => false,
    };
    if idle {
        return Err(Error::ActorRunNotFound);
    }
    match ensure_control_mutation_allowed(rec.last_control_mutation_block, now) {
        Ok(()) => {},
        Err(e) => return Err(e),
    }
    Ok(RunCancellationPlan::Cancel { mutation_block: now })
}

impl PalletStateModel {
    /// Cancels the open run of an Active Actor: its run records are dropped, its cycle returns
    /// to Idle, and the control mutation is recorded at `now`.
    pub fn apply_run_cancellation(&mut self, actor_id: ActorId, now: BlockNumber)
        requires
            old(self).actors@.contains_key(actor_id),
            old(self).actors@[actor_id].active is Some,
        ensures
            final(self).actors@ == old(self).actors@.insert(actor_id, final(self).actors@[actor_id]),
            final(self).actors@[actor_id].sovereign == old(self).actors@[actor_id].sovereign,
            final(self).actors@[actor_id].owner == old(self).actors@[actor_id].owner,
            final(self).actors@[actor_id].active matches Some(a) && a.cycle_state == CycleState::Idle,
            final(self).actors@[actor_id].last_control_mutation_block == now,
            final(self).run_heads@ == old(self).run_heads@.remove(actor_id),
            final(self).run_payloads@ == old(self).run_payloads@.remove(actor_id),
            final(self).global_circuit_breaker == old(self).global_circuit_breaker,
            final(self).active_actor_limit == old(self).active_actor_limit,
            final(self).active_actor_count == old(self).active_actor_count,
            final(self).actor_identity_count == old(self).actor_identity_count,
            final(self).next_actor_id == old(self).next_actor_id,
            final(self).sovereign_index@ == old(self).sovereign_index@,
            final(self).system_sovereigns@ == old(self).system_sovereigns@,
            final(self).system_sovereign_count == old(self).system_sovereign_count,
    {
        let rec = self.actors.remove(&actor_id).unwrap();
        let a = rec.active.unwrap();
        let updated = ActorRecord {
            owner: rec.owner,
            sovereign: rec.sovereign,
            actor_type: rec.actor_type,
            mutability: rec.mutability,
            owner_slot: rec.owner_slot,
            system_sovereign_id: rec.system_sovereign_id,
            cycle_nonce: rec.cycle_nonce,
            last_control_mutation_block: now,
            active: Some(
                ActiveRecord {
                    paused: a.paused,
                    cycle_state: CycleState::Idle,
                    pending_signal: a.pending_signal,
                    contract: a.contract,
                },
            ),
        };
        self.actors.insert(actor_id, updated);
        self.run_heads.remove(&actor_id);
        self.run_payloads.remove(&actor_id);
        proof {
            assert(self.actors@ =~= old(self).actors@.insert(actor_id, self.actors@[actor_id]));
        }
    }
}

/// Cancelling an Active Actor's run (its run records dropped and its cycle back to Idle)
/// keeps every storage invariant of the registry.
pub proof fn lemma_run_cancellation_keeps_invariants(
    s: PalletStateModel,
    t: PalletStateModel,
    actor_id: ActorId,
    cfg: RuntimeConfiguration,
)
    requires
        pallet_state_invariants(s, cfg),
        s.actors@.contains_key(actor_id),
        s.actors@[actor_id].active is Some,
        t.actors@ == s.actors@.insert(actor_id, t.actors@[actor_id]),
        t.actors@[actor_id].sovereign == s.actors@[actor_id].sovereign,
        t.actors@[actor_id].active is Some,
        t.run_heads@ == s.run_heads@.remove(actor_id),
        t.run_payloads@ == s.run_payloads@.remove(actor_id),
        t.global_circuit_breaker == s.global_circuit_breaker,
        t.active_actor_limit == s.active_actor_limit,
        t.active_actor_count == s.active_actor_count,
        t.actor_identity_count == s.actor_identity_count,
        t.next_actor_id == s.next_actor_id,
        t.sovereign_index@ == s.sovereign_index@,
        t.system_sovereigns@ == s.system_sovereigns@,
        t.system_sovereign_count == s.system_sovereign_count,
    ensures
        pallet_state_invariants(t, cfg),
{
    let sa = s.actors@;
    let ta = t.actors@;
    assert(ta.dom() =~= sa.dom());
    assert(active_ids(ta) =~= active_ids(sa));
    assert(t.run_heads@.dom() =~= t.run_payloads@.dom());
    assert forall|k: ActorId| #[trigger] t.run_heads@.contains_key(k) implies runs_a_cycle(ta, k) by {
        assert(runs_a_cycle(sa, k));
    }
    assert forall|k: ActorId| #[trigger] ta.contains_key(k) implies t.sovereign_index@.contains_key(ta[k].sovereign)
        && t.sovereign_index@[ta[k].sovereign] == k by {
        assert(sa.contains_key(k));
    }
    assert forall|a: AccountId| #[trigger] t.sovereign_index@.contains_key(a) implies ta.contains_key(t.sovereign_index@[a])
        && ta[t.sovereign_index@[a]].sovereign == a by {
        assert(s.sovereign_index@.contains_key(a));
    }
    assert(sovereign_index_exact(ta, t.sovereign_index@));
    assert forall|k: ActorId| #[trigger] ta.contains_key(k) implies k < t.next_actor_id by {
        assert(sa.contains_key(k));
        assert(!(sa.contains_key(k) && k >= s.next_actor_id));
    }
}


/// A pause or resume changes (or confirms) the lifecycle only of a registered Active Mutable
/// Actor that the origin controls and whose window expiry is not due; an applied change also
/// flips the lifecycle, is recorded at the current block, and needs no earlier control mutation
/// in this block. Where the window expiry is not due, an Actor that is not Mutable is never
/// paused or resumed, and when it is registered, Active and controlled by the origin (and, for
/// a resume, holds no stray run records) the answer is `ImmutableActor`.
pub proof fn lemma_pause_transition_needs_mutable(
    s: PalletStateModel,
    actor_id: ActorId,
    origin: ControlOrigin,
    pause: bool,
    expiry_due: bool,
    now: BlockNumber,
)
    ensures
        ({
            let r = spec_pause_transition(s, actor_id, origin, pause, expiry_due, now);
            let rec = s.actors@[actor_id];
            let a = rec.active->Some_0;
            &&& (r matches Ok(PauseTransition::Apply { mutation_block }) ==> {
                &&& s.actors@.contains_key(actor_id) && rec.active is Some
                &&& origin_controls(rec, origin)
                &&& rec.mutability == Mutability::Mutable
                &&& !expiry_due
                &&& a.paused != pause
                &&& rec.last_control_mutation_block != now
                &&& mutation_block == now
            })
            &&& (r == Ok::<PauseTransition, Error>(PauseTransition::Unchanged) ==> {
                &&& s.actors@.contains_key(actor_id) && rec.active is Some
                &&& origin_controls(rec, origin)
                &&& rec.mutability == Mutability::Mutable
                &&& !expiry_due
                &&& a.paused == pause
            })
            &&& (r == Ok::<PauseTransition, Error>(PauseTransition::CloseWindowExpired) ==> expiry_due)
            &&& (!expiry_due && s.actors@.contains_key(actor_id) && rec.mutability != Mutability::Mutable ==> r is Err)
            &&& (!expiry_due && s.actors@.contains_key(actor_id) && rec.active is Some && origin_controls(rec, origin)
                && rec.mutability != Mutability::Mutable && (pause || !s.run_heads@.contains_key(actor_id)
                && !s.run_payloads@.contains_key(actor_id)) ==> r == Err::<PauseTransition, Error>(
                Error::ImmutableActor,
            ))
        }),
{
}

/// A manual trigger commits an occurrence (and charges for it) only for a registered Active
/// Actor the origin controls, not Paused, whose Trigger admits a manual source, whose window
/// expiry is not due, whose cycle is Idle and whose signal is not yet latched. An occurrence
/// for an Actor whose signal is already latched, or whose cycle is open, is ignored (nothing
/// charged, no second cycle) whenever it is admitted at all.
pub proof fn lemma_manual_trigger_coalesces(
    s: PalletStateModel,
    actor_id: ActorId,
    origin: ControlOrigin,
    expiry_due: bool,
    manual_source_enabled: bool,
)
    ensures
        ({
            let r = spec_manual_trigger(s, actor_id, origin, expiry_due, manual_source_enabled);
            let rec = s.actors@[actor_id];
            let a = rec.active->Some_0;
            &&& (r == Ok::<ManualTriggerPlan, Error>(ManualTriggerPlan::Occurrence) ==> {
                &&& s.actors@.contains_key(actor_id) && rec.active is Some
                &&& origin_controls(rec, origin)
                &&& !expiry_due
                &&& !a.paused
                &&& manual_source_enabled
                &&& a.cycle_state == CycleState::Idle
                &&& !a.pending_signal
            })
            &&& (r == Ok::<ManualTriggerPlan, Error>(ManualTriggerPlan::Ignored) ==> {
                &&& !expiry_due && !a.paused && manual_source_enabled
                &&& (a.cycle_state != CycleState::Idle || a.pending_signal)
            })
            &&& (!expiry_due && s.actors@.contains_key(actor_id) && rec.active is Some && (a.pending_signal
                || a.cycle_state != CycleState::Idle) && r is Ok ==> r == Ok::<ManualTriggerPlan, Error>(
                ManualTriggerPlan::Ignored,
            ))
            &&& (r == Ok::<ManualTriggerPlan, Error>(ManualTriggerPlan::CloseWindowExpired) ==> expiry_due)
        }),
{
}

/// A run is cancelled (or the Actor closed for window expiry) only for a registered Active
/// Mutable Actor the origin controls; a cancellation also needs an open cycle and no earlier
/// control mutation in this block, and is recorded at the current block. An Actor that is not
/// Mutable never has its run cancelled, and when it is registered, Active and controlled by
/// the origin the answer is `ImmutableActor`.
pub proof fn lemma_run_cancellation_needs_mutable(
    s: PalletStateModel,
    actor_id: ActorId,
    origin: ControlOrigin,
    expiry_due: bool,
    now: BlockNumber,
)
    ensures
        ({
            let r = spec_run_cancellation(s, actor_id, origin, expiry_due, now);
            let rec = s.actors@[actor_id];
            let a = rec.active->Some_0;
            &&& (r is Ok ==> s.actors@.contains_key(actor_id) && rec.active is Some && origin_controls(rec, origin)
                && rec.mutability == Mutability::Mutable)
            &&& (r matches Ok(RunCancellationPlan::Cancel { mutation_block }) ==> !expiry_due && a.cycle_state
                != CycleState::Idle && rec.last_control_mutation_block != now && mutation_block == now)
            &&& (r == Ok::<RunCancellationPlan, Error>(RunCancellationPlan::CloseWindowExpired) ==> expiry_due)
            &&& (s.actors@.contains_key(actor_id) && rec.mutability != Mutability::Mutable ==> r is Err)
            &&& (s.actors@.contains_key(actor_id) && rec.active is Some && origin_controls(rec, origin) && rec.mutability
                != Mutability::Mutable ==> r == Err::<RunCancellationPlan, Error>(Error::ImmutableActor))
        }),
{
}


/// Activation admits only a registered Dormant Mutable Actor that the origin controls, with
/// the breaker off, room under the active limit and no control mutation earlier in this
/// block, and a new Contract that passes every admission rule against the Actor: its
/// preconditions canonicalize, its Steps are within the bound with valid shapes, pay no Mint
/// for a User, never pay its own sovereign account and fit the idle budget; its Trigger,
/// window, schedule targets, opening surfaces and auto-close target (after the Actor's cycle
/// nonce) are valid; a System Actor passes its validator.
pub proof fn lemma_activation_admits_only_sound(
    submitted: Seq<Step>,
    steps: Seq<Step>,
    meta: ContractMeta,
    s: PalletStateModel,
    actor_id: ActorId,
    origin: ControlOrigin,
    ctx: ActivationContext,
    limits: AdmissionLimits,
)
    requires
        spec_activation_refusal(submitted, steps, meta, s, actor_id, origin, ctx, limits) is None,
    ensures
        ({
            let rec = s.actors@[actor_id];
            &&& s.actors@.contains_key(actor_id)
            &&& rec.active is None
            &&& origin_controls(rec, origin)
            &&& !s.global_circuit_breaker
            &&& rec.mutability == Mutability::Mutable
            &&& s.active_actor_count < s.active_actor_limit
            &&& rec.last_control_mutation_block != ctx.now
            &&& outcome_from(submitted, limits.shape.max_predicates_per_step, 0) is Ok
            &&& steps.len() <= limits.shape.max_contract_steps
            &&& spec_steps_shape(steps, limits.shape) is Ok
            &&& (rec.actor_type == ActorType::User ==> forall|i: int|
                0 <= i < steps.len() ==> !((#[trigger] steps[i]).task is Mint))
            &&& spec_trigger_outcome(
                meta.trigger,
                meta.cooldown_blocks,
                ctx.filters_canonical,
                ctx.crossing_hysteresis_valid,
                limits.max_execution_delay_blocks,
                limits.max_temporal_delay_ticks,
            ) is Ok
            &&& (meta.window matches Some(w) ==> spec_window_outcome(
                w,
                ctx.now,
                limits.min_window_length,
                limits.max_execution_delay_blocks,
            ) is Ok)
            &&& spec_future_targets_outcome(meta.trigger, meta.window, meta.cooldown_blocks, ctx.now) is Ok
            &&& (rec.actor_type == ActorType::System ==> ctx.system_validator_ok)
            &&& spec_recipient_outcome(steps, rec.sovereign) is Ok
            &&& ctx.opening_surfaces_ok
            &&& (meta.auto_close_at_cycle_nonce matches Some(t) ==> spec_auto_close_outcome(
                rec.cycle_nonce,
                t,
                limits.auto_close_horizon,
            ) is Ok)
            &&& spec_idle_budget_fit_outcome(
                rec.actor_type,
                ctx.admission_upper,
                ctx.guaranteed_service,
                ctx.resources_derivable,
            ) is Ok
        }),
{
    let rec = s.actors@[actor_id];
    assert(activation_contract_refusal(submitted, steps, meta, rec, ctx, limits) is None);
    if rec.actor_type == ActorType::User {
        assert forall|i: int| 0 <= i < steps.len() implies !((#[trigger] steps[i]).task is Mint) by {}
    }
}

/// Deactivation admits only a registered Active Mutable Actor that the origin controls, with
/// no control mutation earlier in this block and a positive active count; an Actor that is
/// not Mutable is never deactivated, and when it is registered, Active and controlled by the
/// origin the answer is `ImmutableActor`.
pub proof fn lemma_deactivation_needs_mutable(s: PalletStateModel, actor_id: ActorId, origin: ControlOrigin, now: BlockNumber)
    ensures
        ({
            let r = spec_deactivation_refusal(s, actor_id, origin, now);
            let rec = s.actors@[actor_id];
            &&& (r is None ==> s.actors@.contains_key(actor_id) && rec.active is Some && origin_controls(rec, origin)
                && rec.mutability == Mutability::Mutable && rec.last_control_mutation_block != now
                && s.active_actor_count > 0)
            &&& (s.actors@.contains_key(actor_id) && rec.active is Some && origin_controls(rec, origin)
                && rec.mutability != Mutability::Mutable ==> r == Some(Error::ImmutableActor))
        }),
{
}

/// An Actor is closed only when it is registered, its sovereign account is indexed to it, the
/// identity count (and for an Active Actor the active count) is positive, a User Actor's owner
/// slot is set and a System Actor holds its sovereign. An owner- or governance-initiated close
/// also needs a controlling origin and a Mutable Actor: an Actor that is not Mutable is never
/// closed that way, and when it is registered and controlled the answer is `ImmutableActor`.
pub proof fn lemma_close_needs_mutable(s: PalletStateModel, actor_id: ActorId, origin: ControlOrigin, owner_slot_set: bool)
    ensures
        ({
            let rec = s.actors@[actor_id];
            &&& (spec_finalize_refusal(s, actor_id, owner_slot_set) is None ==> {
                &&& s.actors@.contains_key(actor_id)
                &&& (rec.active is Some ==> s.active_actor_count > 0)
                &&& s.actor_identity_count > 0
                &&& s.sovereign_index@.contains_key(rec.sovereign) && s.sovereign_index@[rec.sovereign] == actor_id
                &&& (rec.actor_type == ActorType::User ==> owner_slot_set)
                &&& (rec.actor_type == ActorType::System ==> rec.system_sovereign_id is Some
                    && s.system_sovereigns@.contains_key(rec.system_sovereign_id->Some_0)
                    && s.system_sovereigns@[rec.system_sovereign_id->Some_0] == SystemSovereignState::Occupied(actor_id))
            })
            &&& (spec_close_refusal(s, actor_id, origin, owner_slot_set) is None ==> origin_controls(rec, origin)
                && rec.mutability == Mutability::Mutable && spec_finalize_refusal(s, actor_id, owner_slot_set) is None)
            &&& (s.actors@.contains_key(actor_id) && origin_controls(rec, origin) && rec.mutability != Mutability::Mutable
                ==> spec_close_refusal(s, actor_id, origin, owner_slot_set) == Some(Error::ImmutableActor))
        }),
{
}

} // verus!
