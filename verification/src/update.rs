//! Contract replacement of an Active Actor: equality of Contracts by value, the update gates in
//! the order the pallet applies them, and what an admitted update does.
use vstd::prelude::*;

use crate::contract::{Predicate, Precondition, SplitLeg, Step, Task};
use crate::control::{ensure_contract_steps_fits_idle_budget, spec_idle_budget_fit_outcome};
use crate::creation::AdmissionLimits;
use crate::errors::Error;
use crate::geometry::ActorContract;
use crate::pallet_state::{same_registry_footprint, ActiveRecord, ActorRecord, ContractMeta, PalletStateModel};
use crate::precondition::{
    bytes_eq, canonicalize_preconditions, clause_view, clauses_view, lemma_canonicalize_preconditions_twice, outcome_from,
    precondition_well_encoded, step_canonicalized,
};
use crate::types::{AccountId, ActorId, ActorType, BlockNumber, Mutability};
use crate::validation::{
    contract_steps_contains_mint, ensure_auto_close_target, ensure_control_mutation_allowed, ensure_retry_later_allowed,
    spec_auto_close_outcome, spec_future_targets_outcome, spec_recipient_outcome, spec_retry_later_outcome,
    spec_steps_shape, spec_trigger_outcome, spec_window_outcome, validate_contract_steps_shape,
    validate_future_schedule_targets, validate_recipient_configuration, validate_schedule_window, validate_trigger,
};
use crate::weight::Weight;

verus! {

broadcast use vstd::std_specs::hash::group_hash_axioms;

// ---------------------------------------------------------------------------------------------
// Contract equality by value.
// ---------------------------------------------------------------------------------------------

/// Two Tasks are the same value.
pub open spec fn task_same(a: Task, b: Task) -> bool {
    match (a, b) {
        (
            Task::SplitTransfer { asset: x, amount: m, legs: l },
            Task::SplitTransfer { asset: y, amount: n, legs: k },
        ) => x == y && m == n && l@ == k@,
        (Task::SplitTransfer { .. }, _) => false,
        (_, Task::SplitTransfer { .. }) => false,
        _ => a == b,
    }
}

/// Two preconditions are the same value.
pub open spec fn precondition_same(a: Option<Precondition>, b: Option<Precondition>) -> bool {
    match (a, b) {
        (Some(p), Some(q)) => clauses_view(p.clauses@) == clauses_view(q.clauses@),
        (None, None) => true,
        _ => false,
    }
}

/// Two Steps are the same value.
pub open spec fn step_same(a: Step, b: Step) -> bool {
    task_same(a.task, b.task) && a.on_error == b.on_error && precondition_same(a.precondition, b.precondition)
}

/// Two Step lists are the same value.
pub open spec fn steps_same(a: Seq<Step>, b: Seq<Step>) -> bool {
    a.len() == b.len() && forall|i: int| 0 <= i < a.len() ==> #[trigger] step_same(a[i], b[i])
}

fn same_legs(a: &Vec<SplitLeg>, b: &Vec<SplitLeg>) -> (r: bool)
    ensures
        r == (a@ == b@),
{
    if a.len() != b.len() {
        return false;
    }
    let mut i: usize = 0;
    while i < a.len()
        invariant
            0 <= i <= a@.len(),
            a@.len() == b@.len(),
            forall|k: int| 0 <= k < i ==> a@[k] == b@[k],
        decreases a@.len() - i,
    {
        if a[i] != b[i] {
            return false;
        }
        i = i + 1;
    }
    proof {
        assert(a@ =~= b@);
    }
    true
}

/// Compares two Tasks by value.
pub fn same_task(a: &Task, b: &Task) -> (r: bool)
    ensures
        r == task_same(*a, *b),
{
    match (a, b) {
        (Task::Transfer { asset: x, amount: m, to: t }, Task::Transfer { asset: y, amount: n, to: u }) => *x == *y && *m
            == *n && *t == *u,
        (Task::Burn { asset: x, amount: m }, Task::Burn { asset: y, amount: n }) => *x == *y && *m == *n,
        (Task::Mint { asset: x, amount: m }, Task::Mint { asset: y, amount: n }) => *x == *y && *m == *n,
        (
            Task::SplitTransfer { asset: x, amount: m, legs: l },
            Task::SplitTransfer { asset: y, amount: n, legs: k },
        ) => *x == *y && *m == *n && same_legs(l, k),
        (
            Task::SwapIn { asset_in: x, amount_in: m, asset_out: o },
            Task::SwapIn { asset_in: y, amount_in: n, asset_out: p },
        ) => *x == *y && *m == *n && *o == *p,
        (
            Task::SwapOut { asset_out: x, amount_out: m, asset_in: o, input_limit: l },
            Task::SwapOut { asset_out: y, amount_out: n, asset_in: p, input_limit: k },
        ) => *x == *y && *m == *n && *o == *p && *l == *k,
        (
            Task::AddLiquidity { asset_a: x, asset_b: o, amount_a: m, amount_b: mb, min_lp_out: l },
            Task::AddLiquidity { asset_a: y, asset_b: p, amount_a: n, amount_b: nb, min_lp_out: k },
        ) => *x == *y && *o == *p && *m == *n && *mb == *nb && *l == *k,
        (
            Task::RemoveLiquidity { lp_asset: x, lp_amount: m, min_amount_a: a1, min_amount_b: b1 },
            Task::RemoveLiquidity { lp_asset: y, lp_amount: n, min_amount_a: a2, min_amount_b: b2 },
        ) => *x == *y && *m == *n && *a1 == *a2 && *b1 == *b2,
        (Task::Stake { asset: x, amount: m }, Task::Stake { asset: y, amount: n }) => *x == *y && *m == *n,
        (
            Task::DonateLiquidity { asset_a: x, asset_b: o, max_amount_a: m },
            Task::DonateLiquidity { asset_a: y, asset_b: p, max_amount_a: n },
        ) => *x == *y && *o == *p && *m == *n,
        (Task::Unstake { asset: x, shares: m }, Task::Unstake { asset: y, shares: n }) => *x == *y && *m == *n,
        (Task::StopCycle, Task::StopCycle) => true,
        _ => false,
    }
}

fn same_clause(a: &Vec<Predicate>, b: &Vec<Predicate>) -> (r: bool)
    ensures
        r == (clause_view(a@) == clause_view(b@)),
{
    if a.len() != b.len() {
        return false;
    }
    let mut i: usize = 0;
    while i < a.len()
        invariant
            0 <= i <= a@.len(),
            a@.len() == b@.len(),
            forall|k: int| 0 <= k < i ==> a@[k]@ == b@[k]@,
        decreases a@.len() - i,
    {
        if !bytes_eq(&a[i].encoded, &b[i].encoded) || a[i].observation_max_age_blocks != b[i].observation_max_age_blocks {
            proof {
                assert(clause_view(a@)[i as int] != clause_view(b@)[i as int]);
            }
            return false;
        }
        i = i + 1;
    }
    proof {
        assert(clause_view(a@) =~= clause_view(b@));
    }
    true
}

fn same_precondition(a: &Option<Precondition>, b: &Option<Precondition>) -> (r: bool)
    ensures
        r == precondition_same(*a, *b),
{
    match (a, b) {
        (Some(p), Some(q)) => {
            let n = p.clauses.len();
            if n != q.clauses.len() {
                proof {
                    assert(clauses_view(p.clauses@).len() != clauses_view(q.clauses@).len());
                }
                return false;
            }
            let mut i: usize = 0;
            while i < n
                invariant
                    0 <= i <= n,
                    n == p.clauses@.len(),
                    n == q.clauses@.len(),
                    *a == Some(*p),
                    *b == Some(*q),
                    forall|k: int| 0 <= k < i ==> clause_view(p.clauses@[k]@) == clause_view(q.clauses@[k]@),
                decreases n - i,
            {
                if !same_clause(&p.clauses[i], &q.clauses[i]) {
                    proof {
                        assert(clauses_view(p.clauses@)[i as int] == clause_view(p.clauses@[i as int]@));
                        assert(clauses_view(q.clauses@)[i as int] == clause_view(q.clauses@[i as int]@));
                        assert(clauses_view(p.clauses@)[i as int] != clauses_view(q.clauses@)[i as int]);
                        assert(clauses_view(p.clauses@) != clauses_view(q.clauses@));
                    }
                    return false;
                }
                i = i + 1;
            }
            proof {
                assert(clauses_view(p.clauses@) =~= clauses_view(q.clauses@));
            }
            true
        },
        (None, None) => true,
        _ => false,
    }
}

/// Compares two Step lists by value.
pub fn same_steps(a: &Vec<Step>, b: &Vec<Step>) -> (r: bool)
    ensures
        r == steps_same(a@, b@),
{
    if a.len() != b.len() {
        return false;
    }
    let mut i: usize = 0;
    while i < a.len()
        invariant
            0 <= i <= a@.len(),
            a@.len() == b@.len(),
            forall|k: int| 0 <= k < i ==> #[trigger] step_same(a@[k], b@[k]),
        decreases a@.len() - i,
    {
        let same = same_task(&a[i].task, &b[i].task) && a[i].on_error == b[i].on_error && same_precondition(
            &a[i].precondition,
            &b[i].precondition,
        );
        if !same {
            proof {
                assert(!step_same(a@[i as int], b@[i as int]));
            }
            return false;
        }
        i = i + 1;
    }
    true
}

/// Canonicalizing the preconditions of Steps that were just canonicalized succeeds and gives
/// back the same Steps, by value.
pub proof fn lemma_canonicalize_twice_same_steps(s0: Seq<Step>, s1: Seq<Step>, s2: Seq<Step>, max: u32)
    requires
        outcome_from(s0, max, 0) == Ok::<(), Error>(()),
        s1.len() == s0.len(),
        forall|i: int| 0 <= i < s0.len() ==> step_canonicalized(#[trigger] s1[i], s0[i]),
        s2.len() == s1.len(),
        forall|i: int| 0 <= i < s1.len() ==> step_canonicalized(#[trigger] s2[i], s1[i]),
    ensures
        outcome_from(s1, max, 0) == Ok::<(), Error>(()),
        steps_same(s2, s1),
{
    lemma_canonicalize_preconditions_twice(s0, s1, s2, max);
    assert forall|i: int| 0 <= i < s2.len() implies #[trigger] step_same(s2[i], s1[i]) by {
        assert(s2[i].task == s1[i].task);
    }
}

// ---------------------------------------------------------------------------------------------
// Update gates.
// ---------------------------------------------------------------------------------------------

/// Who asks for a control change: a signed account, or the configured System authority.
#[derive(Clone, Copy, Debug, PartialEq, Eq, Structural)]
pub enum ControlOrigin {
    Signed(AccountId),
    System,
}

/// What the update gates read besides the registry and the Contract: the block, the results
/// of checks made by other parts of the runtime (the Trigger's filters and hysteresis, the
/// staking share assets of opening surfaces, the weight bounds of the canonical Steps, the
/// System Contract validator, whether the Actor's window expiry is due, whether the new
/// admission bound is representable).
pub struct UpdateContext {
    pub now: BlockNumber,
    pub filters_canonical: bool,
    pub crossing_hysteresis_valid: bool,
    pub opening_surfaces_ok: bool,
    pub admission_upper: Weight,
    pub guaranteed_service: Option<Weight>,
    pub resources_derivable: bool,
    pub system_validator_ok: bool,
    pub expiry_due: bool,
    pub admission_bound_ok: bool,
}

/// What an admitted update does.
#[derive(Clone, Copy, Debug, PartialEq, Eq, Structural)]
pub enum ContractUpdatePlan {
    /// The canonical Contract equals the stored one: success, with no write and no event.
    Unchanged,
    /// The Actor's window has expired: it is closed for window expiry instead.
    CloseWindowExpired,
    /// The Contract is replaced, the open run cancelled, the control mutation recorded at
    /// `mutation_block`, and a Contract-updated event deposited; the schedule is reinstalled
    /// when it changed and the failure streak reset when the Steps changed.
    Replace { schedule_changed: bool, steps_changed: bool, mutation_block: BlockNumber },
}

/// Why `origin` may not control the Actor `rec`, if it may not.
pub open spec fn origin_refusal(rec: ActorRecord, origin: ControlOrigin) -> Option<Error> {
    match origin {
        ControlOrigin::Signed(who) => if who != rec.owner {
            Some(Error::NotOwner)
        } else {
            None
        },
        ControlOrigin::System => if rec.actor_type != ActorType::System {
            Some(Error::NotGovernance)
        } else {
            None
        },
    }
}

/// The gates a replacement Contract passes before the Actor is read: its precondition
/// canonicalization (of the submitted Steps), its Trigger, its window and its future schedule
/// targets.
pub open spec fn update_contract_refusal(
    submitted: Seq<Step>,
    meta: ContractMeta,
    ctx: UpdateContext,
    limits: AdmissionLimits,
) -> Option<Error> {
    if outcome_from(submitted, limits.shape.max_predicates_per_step, 0) is Err {
        Some(outcome_from(submitted, limits.shape.max_predicates_per_step, 0)->Err_0)
    } else if spec_trigger_outcome(
        meta.trigger,
        meta.cooldown_blocks,
        ctx.filters_canonical,
        ctx.crossing_hysteresis_valid,
        limits.max_execution_delay_blocks,
        limits.max_temporal_delay_ticks,
    ) is Err {
        Some(
            spec_trigger_outcome(
                meta.trigger,
                meta.cooldown_blocks,
                ctx.filters_canonical,
                ctx.crossing_hysteresis_valid,
                limits.max_execution_delay_blocks,
                limits.max_temporal_delay_ticks,
            )->Err_0,
        )
    } else if meta.window matches Some(w) && spec_window_outcome(
        w,
        ctx.now,
        limits.min_window_length,
        limits.max_execution_delay_blocks,
    ) is Err {
        Some(
            spec_window_outcome(
                meta.window->Some_0,
                ctx.now,
                limits.min_window_length,
                limits.max_execution_delay_blocks,
            )->Err_0,
        )
    } else if spec_future_targets_outcome(meta.trigger, meta.window, meta.cooldown_blocks, ctx.now) is Err {
        Some(spec_future_targets_outcome(meta.trigger, meta.window, meta.cooldown_blocks, ctx.now)->Err_0)
    } else {
        None
    }
}

/// The gates of a changed Contract against the Actor `rec`, after the unchanged case, the
/// retry rule and the System-immutable rule, and after window expiry: mutability, the
/// control-mutation rate limit, Step shapes, the System validator, recipients, opening
/// surfaces, the idle budget, the Step bound, the User mint ban, the auto-close target and the
/// admission bound.
pub open spec fn replacement_refusal(
    steps: Seq<Step>,
    meta: ContractMeta,
    rec: ActorRecord,
    ctx: UpdateContext,
    limits: AdmissionLimits,
) -> Option<Error> {
    let a = rec.active->Some_0;
    if rec.mutability != Mutability::Mutable {
        Some(Error::ImmutableActor)
    } else if rec.last_control_mutation_block == ctx.now {
        Some(Error::ControlMutationRateLimited)
    } else if !(0 < limits.shape.max_contract_steps <= 255) {
        Some(Error::TooManyContractSteps)
    } else if spec_steps_shape(steps, limits.shape) is Err {
        Some(spec_steps_shape(steps, limits.shape)->Err_0)
    } else if rec.actor_type == ActorType::System && !ctx.system_validator_ok {
        Some(Error::SystemActorTopologyInvalid)
    } else if spec_recipient_outcome(steps, rec.sovereign) is Err {
        Some(Error::SelfTransferNotAllowed)
    } else if !ctx.opening_surfaces_ok {
        Some(Error::InvalidAmountResolution)
    } else if spec_idle_budget_fit_outcome(
        rec.actor_type,
        ctx.admission_upper,
        ctx.guaranteed_service,
        ctx.resources_derivable,
    ) is Err {
        Some(
            spec_idle_budget_fit_outcome(
                rec.actor_type,
                ctx.admission_upper,
                ctx.guaranteed_service,
                ctx.resources_derivable,
            )->Err_0,
        )
    } else if steps.len() > limits.shape.max_contract_steps {
        Some(Error::TooManyContractSteps)
    } else if rec.actor_type == ActorType::User && exists|i: int| 0 <= i < steps.len() && (#[trigger] steps[i]).task is Mint {
        Some(Error::MintNotAllowedForUserActor)
    } else if meta.auto_close_at_cycle_nonce matches Some(t) && spec_auto_close_outcome(
        rec.cycle_nonce,
        t,
        limits.auto_close_horizon,
    ) is Err {
        Some(
            spec_auto_close_outcome(rec.cycle_nonce, meta.auto_close_at_cycle_nonce->Some_0, limits.auto_close_horizon)->Err_0,
        )
    } else if !ctx.admission_bound_ok {
        Some(Error::AdmissionBoundOverflow)
    } else {
        None
    }
}

/// The outcome of replacing the Contract of Actor `actor_id` by `origin`. `submitted` are the
/// Steps as submitted and `steps` their canonical form; the stored Contract is compared with
/// the canonical one by value.
pub open spec fn spec_update_contract(
    submitted: Seq<Step>,
    steps: Seq<Step>,
    meta: ContractMeta,
    s: PalletStateModel,
    actor_id: ActorId,
    origin: ControlOrigin,
    ctx: UpdateContext,
    limits: AdmissionLimits,
) -> Result<ContractUpdatePlan, Error> {
    let rec = s.actors@[actor_id];
    let a = rec.active->Some_0;
    if update_contract_refusal(submitted, meta, ctx, limits) is Some {
        Err(update_contract_refusal(submitted, meta, ctx, limits)->Some_0)
    } else if !s.actors@.contains_key(actor_id) || rec.active is None {
        Err(Error::ActorNotFound)
    } else if origin_refusal(rec, origin) is Some {
        Err(origin_refusal(rec, origin)->Some_0)
    } else if a.contract.meta == meta && steps_same(a.contract.steps@, steps) {
        Ok(ContractUpdatePlan::Unchanged)
    } else if spec_retry_later_outcome(rec.mutability, steps) is Err {
        Err(Error::RetryLaterNotAllowedForImmutableActor)
    } else if rec.actor_type == ActorType::System && rec.mutability == Mutability::Immutable {
        Err(Error::ImmutableActor)
    } else if ctx.expiry_due {
        Ok(ContractUpdatePlan::CloseWindowExpired)
    } else if replacement_refusal(steps, meta, rec, ctx, limits) is Some {
        Err(replacement_refusal(steps, meta, rec, ctx, limits)->Some_0)
    } else {
        Ok(
            ContractUpdatePlan::Replace {
                schedule_changed: a.contract.meta.trigger != meta.trigger || a.contract.meta.cooldown_blocks
                    != meta.cooldown_blocks || a.contract.meta.window != meta.window,
                steps_changed: !steps_same(a.contract.steps@, steps),
                mutation_block: ctx.now,
            },
        )
    }
}

/// The update gates of a Contract replacement, in the pallet's order, and what an admitted
/// update does. The Contract's preconditions are canonicalized in place (and left as
/// submitted when canonicalization fails).
#[verifier::rlimit(40)]
pub fn plan_update_contract(
    s: &PalletStateModel,
    actor_id: ActorId,
    origin: ControlOrigin,
    contract: &mut ActorContract<ContractMeta, Step>,
    ctx: &UpdateContext,
    limits: AdmissionLimits,
) -> (r: Result<ContractUpdatePlan, Error>)
    requires
        forall|i: int| 0 <= i < old(contract).steps@.len() ==> precondition_well_encoded(#[trigger] old(contract).steps@[i]),
    ensures
        final(contract).meta == old(contract).meta,
        outcome_from(old(contract).steps@, limits.shape.max_predicates_per_step, 0) is Err ==> final(contract).steps@
            == old(contract).steps@,
        outcome_from(old(contract).steps@, limits.shape.max_predicates_per_step, 0) is Ok ==> final(contract).steps@.len()
            == old(contract).steps@.len() && forall|i: int|
            0 <= i < old(contract).steps@.len() ==> step_canonicalized(
                #[trigger] final(contract).steps@[i],
                old(contract).steps@[i],
            ),
        r == spec_update_contract(
            old(contract).steps@,
            final(contract).steps@,
            old(contract).meta,
            *s,
            actor_id,
            origin,
            *ctx,
            limits,
        ),
{
    let ghost submitted = contract.steps@;
    match canonicalize_preconditions(&mut contract.steps, limits.shape.max_predicates_per_step) {
        Ok(()) => {},
        Err(e) => return Err(e),
    }
    let meta = contract.meta;
    let steps = &contract.steps;
    match validate_trigger(
        &meta.trigger,
        meta.cooldown_blocks,
        ctx.filters_canonical,
        ctx.crossing_hysteresis_valid,
        limits.max_execution_delay_blocks,
        limits.max_temporal_delay_ticks,
    ) {
        Ok(()) => {},
        Err(e) => return Err(e),
    }
    if let Some(w) = meta.window {
        match validate_schedule_window(&w, ctx.now, limits.min_window_length, limits.max_execution_delay_blocks) {
            Ok(()) => {},
            Err(e) => return Err(e),
        }
    }
    match validate_future_schedule_targets(&meta.trigger, meta.window, meta.cooldown_blocks, ctx.now) {
        Ok(()) => {},
        Err(e) => return Err(e),
    }
    assert(update_contract_refusal(submitted, meta, *ctx, limits) is None);
    let rec = match s.actors.get(&actor_id) {
        Some(rec) => rec,
        None => return Err(Error::ActorNotFound),
    };
    let a = match &rec.active {
        Some(a) => a,
        None => return Err(Error::ActorNotFound),
    };
    match origin {
        ControlOrigin::Signed(who) => {
            if who != rec.owner {
                return Err(Error::NotOwner);
            }
        },
        ControlOrigin::System => {
            if rec.actor_type != ActorType::System {
                return Err(Error::NotGovernance);
            }
        },
    }
    let meta_same = a.contract.meta == meta;
    let steps_equal = same_steps(&a.contract.steps, steps);
    if meta_same && steps_equal {
        return Ok(ContractUpdatePlan::Unchanged);
    }
    match ensure_retry_later_allowed(rec.mutability, steps) {
        Ok(()) => {},
        Err(e) => return Err(e),
    }
    if rec.actor_type == ActorType::System && rec.mutability == Mutability::Immutable {
        return Err(Error::ImmutableActor);
    }
    if ctx.expiry_due {
        return Ok(ContractUpdatePlan::CloseWindowExpired);
    }
    if rec.mutability != Mutability::Mutable {
        return Err(Error::ImmutableActor);
    }
    match ensure_control_mutation_allowed(rec.last_control_mutation_block, ctx.now) {
        Ok(()) => {},
        Err(e) => return Err(e),
    }
    match validate_contract_steps_shape(steps, limits.shape) {
        Ok(()) => {},
        Err(e) => return Err(e),
    }
    if rec.actor_type == ActorType::System && !ctx.system_validator_ok {
        return Err(Error::SystemActorTopologyInvalid);
    }
    match validate_recipient_configuration(steps, rec.sovereign) {
        Ok(()) => {},
        Err(e) => return Err(e),
    }
    if !ctx.opening_surfaces_ok {
        return Err(Error::InvalidAmountResolution);
    }
    match ensure_contract_steps_fits_idle_budget(
        rec.actor_type,
        ctx.admission_upper,
        ctx.guaranteed_service,
        ctx.resources_derivable,
    ) {
        Ok(()) => {},
        Err(e) => return Err(e),
    }
    if steps.len() as u64 > limits.shape.max_contract_steps as u64 {
        return Err(Error::TooManyContractSteps);
    }
    if rec.actor_type == ActorType::User && contract_steps_contains_mint(steps) {
        return Err(Error::MintNotAllowedForUserActor);
    }
    if let Some(target) = meta.auto_close_at_cycle_nonce {
        match ensure_auto_close_target(rec.cycle_nonce, target, limits.auto_close_horizon) {
            Ok(()) => {},
            Err(e) => return Err(e),
        }
    }
    if !ctx.admission_bound_ok {
        return Err(Error::AdmissionBoundOverflow);
    }
    let current = a.contract.meta;
    Ok(
        ContractUpdatePlan::Replace {
            schedule_changed: current.trigger != meta.trigger || current.cooldown_blocks != meta.cooldown_blocks
                || current.window != meta.window,
            steps_changed: !steps_equal,
            mutation_block: ctx.now,
        },
    )
}

/// Installs a replacement Contract in an Active Actor's record and records the control
/// mutation at `now`; the run cancellation and schedule reinstallation of the plan belong to
/// the run store and the scheduler.
pub fn apply_contract_replacement(
    s: &mut PalletStateModel,
    actor_id: ActorId,
    contract: ActorContract<ContractMeta, Step>,
    now: BlockNumber,
)
    requires
        old(s).actors@.contains_key(actor_id),
        old(s).actors@[actor_id].active is Some,
    ensures
        final(s).actors@ == old(s).actors@.insert(actor_id, final(s).actors@[actor_id]),
        same_registry_footprint(old(s).actors@[actor_id], final(s).actors@[actor_id]),
        final(s).actors@[actor_id].owner == old(s).actors@[actor_id].owner,
        final(s).actors@[actor_id].actor_type == old(s).actors@[actor_id].actor_type,
        final(s).actors@[actor_id].mutability == old(s).actors@[actor_id].mutability,
        final(s).actors@[actor_id].active->Some_0.contract == contract,
        final(s).actors@[actor_id].last_control_mutation_block == now,
        final(s).actors@[actor_id].cycle_nonce == old(s).actors@[actor_id].cycle_nonce,
        final(s).actors@[actor_id].active->Some_0.pending_signal == old(s).actors@[actor_id].active->Some_0.pending_signal,
        final(s).actors@[actor_id].active->Some_0.paused == old(s).actors@[actor_id].active->Some_0.paused,
        final(s).global_circuit_breaker == old(s).global_circuit_breaker,
        final(s).active_actor_limit == old(s).active_actor_limit,
        final(s).active_actor_count == old(s).active_actor_count,
        final(s).actor_identity_count == old(s).actor_identity_count,
        final(s).next_actor_id == old(s).next_actor_id,
        final(s).run_heads@ == old(s).run_heads@,
        final(s).run_payloads@ == old(s).run_payloads@,
        final(s).sovereign_index@ == old(s).sovereign_index@,
        final(s).system_sovereigns@ == old(s).system_sovereigns@,
        final(s).system_sovereign_count == old(s).system_sovereign_count,
{
    let rec = s.actors.remove(&actor_id).unwrap();
    let a = rec.active.unwrap();
    let active = ActiveRecord {
        paused: a.paused,
        cycle_state: a.cycle_state,
        pending_signal: a.pending_signal,
        contract,
    };
    let updated = ActorRecord {
        owner: rec.owner,
        sovereign: rec.sovereign,
        actor_type: rec.actor_type,
        mutability: rec.mutability,
        owner_slot: rec.owner_slot,
        system_sovereign_id: rec.system_sovereign_id,
        cycle_nonce: rec.cycle_nonce,
        last_control_mutation_block: now,
        active: Some(active),
    };
    s.actors.insert(actor_id, updated);
    proof {
        assert(s.actors@ =~= old(s).actors@.insert(actor_id, s.actors@[actor_id]));
    }
}


/// The origin is the Actor's owner, or the System authority for a System Actor.
pub open spec fn origin_controls(rec: ActorRecord, origin: ControlOrigin) -> bool {
    origin == ControlOrigin::Signed(rec.owner) || (origin == ControlOrigin::System && rec.actor_type == ActorType::System)
}

/// An update leaves the Contract as it is exactly when the canonical Contract equals the stored
/// one (for a registered Active Actor the origin controls, once the new Contract's own checks
/// pass), whatever its mutability, window expiry or control-mutation block. A replacement
/// happens only for a changed Contract of a Mutable Actor (not System Immutable) whose window
/// expiry is not due, with no control mutation earlier in this block and every admission rule
/// of the new Contract holding against the Actor; it reports a schedule change exactly when
/// the Trigger, cooldown or window differ, and a Step change exactly when the Steps differ.
pub proof fn lemma_update_contract_outcomes(
    submitted: Seq<Step>,
    steps: Seq<Step>,
    meta: ContractMeta,
    s: PalletStateModel,
    actor_id: ActorId,
    origin: ControlOrigin,
    ctx: UpdateContext,
    limits: AdmissionLimits,
)
    ensures
        ({
            let r = spec_update_contract(submitted, steps, meta, s, actor_id, origin, ctx, limits);
            let rec = s.actors@[actor_id];
            let a = rec.active->Some_0;
            let same = a.contract.meta == meta && steps_same(a.contract.steps@, steps);
            &&& (r == Ok::<ContractUpdatePlan, Error>(ContractUpdatePlan::Unchanged) ==> s.actors@.contains_key(actor_id)
                && rec.active is Some && origin_controls(rec, origin) && same)
            &&& (update_contract_refusal(submitted, meta, ctx, limits) is None && s.actors@.contains_key(actor_id)
                && rec.active is Some && origin_controls(rec, origin) && same ==> r == Ok::<ContractUpdatePlan, Error>(
                ContractUpdatePlan::Unchanged,
            ))
            &&& (r == Ok::<ContractUpdatePlan, Error>(ContractUpdatePlan::CloseWindowExpired) ==> ctx.expiry_due && !same
                && s.actors@.contains_key(actor_id) && rec.active is Some && origin_controls(rec, origin)
                && !(rec.actor_type == ActorType::System && rec.mutability == Mutability::Immutable))
            &&& (r matches Ok(ContractUpdatePlan::Replace { schedule_changed, steps_changed, mutation_block }) ==> {
                &&& s.actors@.contains_key(actor_id) && rec.active is Some && origin_controls(rec, origin)
                &&& !same
                &&& rec.mutability == Mutability::Mutable
                &&& !ctx.expiry_due
                &&& rec.last_control_mutation_block != ctx.now
                &&& mutation_block == ctx.now
                &&& outcome_from(submitted, limits.shape.max_predicates_per_step, 0) is Ok
                &&& spec_trigger_outcome(
                    meta.trigger,
                    meta.cooldown_blocks,
                    ctx.filters_canonical,
                    ctx.crossing_hysteresis_valid,
                    limits.max_execution_delay_blocks,
                    limits.max_temporal_delay_ticks,
                ) is Ok
                &&& (meta.window matches Some(w) ==> spec_window_outcome(
                    w,
                    ctx.now,
                    limits.min_window_length,
                    limits.max_execution_delay_blocks,
                ) is Ok)
                &&& spec_future_targets_outcome(meta.trigger, meta.window, meta.cooldown_blocks, ctx.now) is Ok
                &&& spec_steps_shape(steps, limits.shape) is Ok
                &&& steps.len() <= limits.shape.max_contract_steps
                &&& (rec.actor_type == ActorType::System ==> ctx.system_validator_ok)
                &&& spec_recipient_outcome(steps, rec.sovereign) is Ok
                &&& ctx.opening_surfaces_ok
                &&& spec_idle_budget_fit_outcome(
                    rec.actor_type,
                    ctx.admission_upper,
                    ctx.guaranteed_service,
                    ctx.resources_derivable,
                ) is Ok
                &&& (rec.actor_type == ActorType::User ==> forall|i: int|
                    0 <= i < steps.len() ==> !((#[trigger] steps[i]).task is Mint))
                &&& (meta.auto_close_at_cycle_nonce matches Some(t) ==> spec_auto_close_outcome(
                    rec.cycle_nonce,
                    t,
                    limits.auto_close_horizon,
                ) is Ok)
                &&& ctx.admission_bound_ok
                &&& schedule_changed == (a.contract.meta.trigger != meta.trigger || a.contract.meta.cooldown_blocks
                    != meta.cooldown_blocks || a.contract.meta.window != meta.window)
                &&& steps_changed == !steps_same(a.contract.steps@, steps)
            })
            &&& (s.actors@.contains_key(actor_id) && rec.mutability != Mutability::Mutable && !same && !ctx.expiry_due
                ==> r is Err)
        }),
{
    let r = spec_update_contract(submitted, steps, meta, s, actor_id, origin, ctx, limits);
    let rec = s.actors@[actor_id];
    if r matches Ok(ContractUpdatePlan::Replace { .. }) {
        assert(replacement_refusal(steps, meta, rec, ctx, limits) is None);
        if rec.actor_type == ActorType::User {
            assert forall|i: int| 0 <= i < steps.len() implies !((#[trigger] steps[i]).task is Mint) by {}
        }
    }
}

} // verus!
