//! Fee envelopes, fee settlement and the fee breakdowns of Triggers, pipelines and Steps.
//!
//! Weight-to-fee conversion belongs to the embedding runtime; every function here takes the
//! converted fee of the weight it prices as an argument.
use vstd::prelude::*;

use crate::contract::{Step, TriggerFamily};
use crate::errors::Error;
use crate::geometry::ActorStepResourceEnvelope;
use crate::types::{ActorType, Balance};
use crate::weight::{sat_add, Weight};

verus! {

/// Per-Step evaluation and execution fee upper bounds before actor-type exemption.
#[derive(Clone, Copy, Debug, PartialEq, Eq, Structural)]
pub struct FeeEnvelopeInput {
    pub evaluation: Balance,
    pub execution: Balance,
}

/// Admitted fee bound of one Step attempt.
#[derive(Clone, Copy, Debug, PartialEq, Eq, Structural)]
pub struct StepFeeEnvelope {
    pub evaluation: Balance,
    pub execution: Balance,
    pub total: Balance,
}

/// Fee bounds of every remaining Step of one attempt, and their sum.
#[derive(Clone, Debug, PartialEq, Eq)]
pub struct AttemptFeeEnvelope {
    pub steps: Vec<StepFeeEnvelope>,
    pub total: Balance,
}

#[derive(Clone, Copy, Debug, PartialEq, Eq, Structural)]
pub enum FeeEnvelopeError {
    CursorOutOfBounds,
    Overflow,
    ReservationUnderflow,
}

#[derive(Clone, Copy, Debug, PartialEq, Eq, Structural)]
pub enum FeeChargeKind {
    EvaluationOnly,
    Attempted,
}

#[derive(Clone, Copy, Debug, PartialEq, Eq, Structural)]
pub struct FeeStepSettlement {
    pub charged: Balance,
    pub reservation_remaining: Balance,
}

#[derive(Clone, Copy, Debug, PartialEq, Eq, Structural)]
pub enum FeeAssetClass {
    FeeNative,
    Other,
}

#[derive(Clone, Copy, Debug, PartialEq, Eq, Structural)]
pub struct TriggerFeeBreakdown {
    pub trigger_family: TriggerFamily,
    pub trigger_fee: Balance,
}

#[derive(Clone, Copy, Debug, PartialEq, Eq, Structural)]
pub struct PipelineFeeBreakdown {
    pub pipeline_machine_fee: Balance,
    pub cleanup_fee: Balance,
    pub total_fee: Balance,
}

#[derive(Clone, Copy, Debug, PartialEq, Eq, Structural)]
pub struct StepFeeBreakdown {
    pub control_fee: Balance,
    pub effect_fee: Balance,
    pub total_fee: Balance,
}

/// Upfront bound of the pipeline machine and of terminal cleanup.
#[derive(Clone, Copy, Debug, PartialEq, Eq, Structural)]
pub struct PipelineMachineEnvelope {
    pub pipeline_machine_fee_upper: Balance,
    pub cleanup_fee_upper: Balance,
}

/// The fee one input contributes: everything for a User Actor, nothing for a System Actor.
pub open spec fn input_total(actor_type: ActorType, input: FeeEnvelopeInput) -> int {
    if actor_type == ActorType::User {
        input.evaluation + input.execution
    } else {
        0
    }
}

/// Sum of the inputs' contributions.
pub open spec fn inputs_total(actor_type: ActorType, inputs: Seq<FeeEnvelopeInput>) -> int
    decreases inputs.len(),
{
    if inputs.len() == 0 {
        0
    } else {
        inputs_total(actor_type, inputs.drop_last()) + input_total(actor_type, inputs.last())
    }
}

/// The envelope of one Step: the input itself for a User Actor, zero for a System Actor.
pub open spec fn spec_step_envelope(actor_type: ActorType, input: FeeEnvelopeInput) -> StepFeeEnvelope {
    if actor_type == ActorType::User {
        StepFeeEnvelope {
            evaluation: input.evaluation,
            execution: input.execution,
            total: (input.evaluation + input.execution) as Balance,
        }
    } else {
        StepFeeEnvelope { evaluation: 0, execution: 0, total: 0 }
    }
}

/// Sum of the Step totals of an envelope.
pub open spec fn envelope_total(steps: Seq<StepFeeEnvelope>) -> int
    decreases steps.len(),
{
    if steps.len() == 0 {
        0
    } else {
        envelope_total(steps.drop_last()) + steps.last().total
    }
}

proof fn lemma_inputs_total_prefix(actor_type: ActorType, s: Seq<FeeEnvelopeInput>, k: int)
    requires
        0 <= k <= s.len(),
    ensures
        inputs_total(actor_type, s.take(k)) <= inputs_total(actor_type, s),
        inputs_total(actor_type, s) >= 0,
    decreases s.len(),
{
    if s.len() > 0 {
        if k == s.len() {
            assert(s.take(k) =~= s);
            lemma_inputs_total_prefix(actor_type, s.drop_last(), k - 1);
        } else {
            assert(s.take(k) =~= s.drop_last().take(k));
            lemma_inputs_total_prefix(actor_type, s.drop_last(), k);
        }
    } else {
        assert(s.take(k) =~= s);
    }
}

/// Composes the fee envelope of the Steps from `start_cursor` on. A System Actor's envelope is
/// all zero; a User Actor's Step total is its evaluation plus execution bound.
pub fn compose_attempt_fee_envelope(
    actor_type: ActorType,
    inputs: &Vec<FeeEnvelopeInput>,
    start_cursor: usize,
) -> (r: Result<AttemptFeeEnvelope, FeeEnvelopeError>)
    ensures
        start_cursor > inputs@.len() ==> r == Err::<AttemptFeeEnvelope, FeeEnvelopeError>(
            FeeEnvelopeError::CursorOutOfBounds,
        ),
        start_cursor <= inputs@.len() ==> {
            let rest = inputs@.subrange(start_cursor as int, inputs@.len() as int);
            &&& (r is Ok <==> inputs_total(actor_type, rest) <= u128::MAX)
            &&& (r is Err ==> r == Err::<AttemptFeeEnvelope, FeeEnvelopeError>(
                FeeEnvelopeError::Overflow,
            ))
            &&& (r matches Ok(env) ==> {
                &&& env.total == inputs_total(actor_type, rest)
                &&& env.total == envelope_total(env.steps@)
                &&& env.steps@.len() == rest.len()
                &&& forall|j: int| 0 <= j < rest.len() ==> #[trigger] env.steps@[j] == spec_step_envelope(actor_type, rest[j])
            })
        },
{
    if start_cursor > inputs.len() {
        return Err(FeeEnvelopeError::CursorOutOfBounds);
    }
    let ghost rest = inputs@.subrange(start_cursor as int, inputs@.len() as int);
    let mut steps: Vec<StepFeeEnvelope> = Vec::new();
    let mut total: Balance = 0;
    let mut index = start_cursor;
    proof {
        assert(rest.take(0) =~= Seq::<FeeEnvelopeInput>::empty());
        assert(steps@ =~= Seq::<StepFeeEnvelope>::empty());
    }
    while index < inputs.len()
        invariant
            start_cursor <= index <= inputs@.len(),
            rest == inputs@.subrange(start_cursor as int, inputs@.len() as int),
            steps@.len() == index - start_cursor,
            total == inputs_total(actor_type, rest.take(index - start_cursor)),
            total == envelope_total(steps@),
            forall|j: int| 0 <= j < steps@.len() ==> #[trigger] steps@[j] == spec_step_envelope(actor_type, rest[j]),
        decreases inputs@.len() - index,
    {
        let input = inputs[index];
        let ghost k = (index - start_cursor) as int;
        proof {
            assert(rest[k] == input);
            assert(rest.take(k + 1).drop_last() =~= rest.take(k));
            assert(rest.take(k + 1).last() == input);
            lemma_inputs_total_prefix(actor_type, rest, k + 1);
        }
        let user = match actor_type {
            ActorType::User => true,
            ActorType::System => false,
        };
        let evaluation = if user { input.evaluation } else { 0 };
        let execution = if user { input.execution } else { 0 };
        let step_total = match evaluation.checked_add(execution) {
            Some(t) => t,
            None => return Err(FeeEnvelopeError::Overflow),
        };
        total = match total.checked_add(step_total) {
            Some(t) => t,
            None => return Err(FeeEnvelopeError::Overflow),
        };
        let ghost old_steps = steps@;
        steps.push(StepFeeEnvelope { evaluation, execution, total: step_total });
        proof {
            assert(steps@.drop_last() =~= old_steps);
        }
        index = index + 1;
    }
    proof {
        assert(rest.take(rest.len() as int) =~= rest);
    }
    Ok(AttemptFeeEnvelope { steps, total })
}

/// Preserve-spend floor of a debit surface: the User minimum balance for the fee-native asset
/// of a User Actor, otherwise the asset's own minimum.
pub fn fee_native_protected_minimum(
    actor_type: ActorType,
    asset_class: FeeAssetClass,
    asset_minimum: Balance,
    min_user_balance: Balance,
) -> (r: Balance)
    ensures
        r == if actor_type == ActorType::User && asset_class == FeeAssetClass::FeeNative {
            min_user_balance
        } else {
            asset_minimum
        },
{
    match (actor_type, asset_class) {
        (ActorType::User, FeeAssetClass::FeeNative) => min_user_balance,
        _ => asset_minimum,
    }
}

/// Settles one admitted fee-envelope Step without touching balances: a User reservation
/// releases the Step's full bound and is charged the evaluation-only or attempted amount;
/// a System Actor is exempt.
pub fn settle_attempt_fee_step(
    actor_type: ActorType,
    reservation: Balance,
    step: &StepFeeEnvelope,
    charge_kind: FeeChargeKind,
) -> (r: Result<FeeStepSettlement, FeeEnvelopeError>)
    ensures
        actor_type == ActorType::System ==> r == Ok::<FeeStepSettlement, FeeEnvelopeError>(
            FeeStepSettlement { charged: 0, reservation_remaining: 0 },
        ),
        actor_type == ActorType::User && reservation < step.total ==> r == Err::<
            FeeStepSettlement,
            FeeEnvelopeError,
        >(FeeEnvelopeError::ReservationUnderflow),
        actor_type == ActorType::User && reservation >= step.total ==> r == Ok::<
            FeeStepSettlement,
            FeeEnvelopeError,
        >(
            FeeStepSettlement {
                charged: match charge_kind {
                    FeeChargeKind::EvaluationOnly => step.evaluation,
                    FeeChargeKind::Attempted => step.total,
                },
                reservation_remaining: (reservation - step.total) as Balance,
            },
        ),
{
    if let ActorType::System = actor_type {
        return Ok(FeeStepSettlement { charged: 0, reservation_remaining: 0 });
    }
    let reservation_remaining = match reservation.checked_sub(step.total) {
        Some(r) => r,
        None => return Err(FeeEnvelopeError::ReservationUnderflow),
    };
    let charged = match charge_kind {
        FeeChargeKind::EvaluationOnly => step.evaluation,
        FeeChargeKind::Attempted => step.total,
    };
    Ok(FeeStepSettlement { charged, reservation_remaining })
}

/// Reservation left after settling the first `k` Steps against `reservation`.
pub open spec fn remaining_after(reservation: int, steps: Seq<StepFeeEnvelope>, k: int) -> int {
    reservation - envelope_total(steps.take(k))
}

proof fn lemma_envelope_total_prefix(steps: Seq<StepFeeEnvelope>, k: int)
    requires
        0 <= k <= steps.len(),
    ensures
        envelope_total(steps.take(k)) <= envelope_total(steps),
        envelope_total(steps.take(k)) >= 0,
    decreases steps.len(),
{
    if steps.len() > 0 {
        if k == steps.len() {
            assert(steps.take(k) =~= steps);
            lemma_envelope_total_prefix(steps.drop_last(), k - 1);
        } else {
            assert(steps.take(k) =~= steps.drop_last().take(k));
            lemma_envelope_total_prefix(steps.drop_last(), k);
        }
    } else {
        assert(steps.take(k) =~= steps);
    }
}

/// Settling an envelope's Steps in order against a reservation of the envelope total never
/// underflows, and settling every Step releases the whole reservation.
pub proof fn lemma_settlement_releases_reservation(env_total: int, steps: Seq<StepFeeEnvelope>)
    requires
        env_total == envelope_total(steps),
    ensures
        forall|k: int| 0 <= k < steps.len() ==> #[trigger] remaining_after(env_total, steps, k) >= steps[k].total
            && remaining_after(env_total, steps, k + 1) == remaining_after(env_total, steps, k) - steps[k].total,
        remaining_after(env_total, steps, steps.len() as int) == 0,
{
    assert forall|k: int| 0 <= k < steps.len() implies #[trigger] remaining_after(env_total, steps, k)
        >= steps[k].total && remaining_after(env_total, steps, k + 1) == remaining_after(env_total, steps, k)
        - steps[k].total by {
        assert(steps.take(k + 1).drop_last() =~= steps.take(k));
        assert(steps.take(k + 1).last() == steps[k]);
        lemma_envelope_total_prefix(steps, k + 1);
    }
    assert(steps.take(steps.len() as int) =~= steps);
}

/// What settling a User Step of `step` with `kind` charges.
pub open spec fn charged_for(step: StepFeeEnvelope, kind: FeeChargeKind) -> int {
    match kind {
        FeeChargeKind::EvaluationOnly => step.evaluation as int,
        FeeChargeKind::Attempted => step.total as int,
    }
}

/// Sum charged by settling the first `k` Steps with `kinds`.
pub open spec fn charged_total(steps: Seq<StepFeeEnvelope>, kinds: Seq<FeeChargeKind>, k: int) -> int
    decreases k,
{
    if k <= 0 {
        0
    } else {
        charged_total(steps, kinds, k - 1) + charged_for(steps[k - 1], kinds[k - 1])
    }
}

proof fn lemma_charged_bounded(steps: Seq<StepFeeEnvelope>, kinds: Seq<FeeChargeKind>, k: int)
    requires
        0 <= k <= steps.len(),
        kinds.len() == steps.len(),
        forall|j: int| 0 <= j < steps.len() ==> #[trigger] steps[j].evaluation <= steps[j].total,
    ensures
        charged_total(steps, kinds, k) <= envelope_total(steps.take(k)),
        (forall|j: int| 0 <= j < k ==> #[trigger] kinds[j] == FeeChargeKind::Attempted) ==> charged_total(
            steps,
            kinds,
            k,
        ) == envelope_total(steps.take(k)),
    decreases k,
{
    if k > 0 {
        lemma_charged_bounded(steps, kinds, k - 1);
        assert(steps.take(k).drop_last() =~= steps.take(k - 1));
        assert(steps.take(k).last() == steps[k - 1]);
    }
}

/// Settling every Step of an envelope charges at most the envelope total, and exactly the total
/// when every Step was attempted (each Step's evaluation bound being part of its total, as in
/// every composed envelope).
pub proof fn lemma_settlement_charges_within_total(steps: Seq<StepFeeEnvelope>, kinds: Seq<FeeChargeKind>)
    requires
        kinds.len() == steps.len(),
        forall|j: int| 0 <= j < steps.len() ==> #[trigger] steps[j].evaluation <= steps[j].total,
    ensures
        charged_total(steps, kinds, steps.len() as int) <= envelope_total(steps),
        (forall|j: int| 0 <= j < steps.len() ==> #[trigger] kinds[j] == FeeChargeKind::Attempted) ==> charged_total(
            steps,
            kinds,
            steps.len() as int,
        ) == envelope_total(steps),
{
    lemma_charged_bounded(steps, kinds, steps.len() as int);
    assert(steps.take(steps.len() as int) =~= steps);
}

/// A composed User Step envelope keeps its evaluation bound within its total.
pub proof fn lemma_step_envelope_evaluation_within_total(input: FeeEnvelopeInput)
    requires
        input.evaluation + input.execution <= u128::MAX,
    ensures
        spec_step_envelope(ActorType::User, input).evaluation <= spec_step_envelope(ActorType::User, input).total,
        spec_step_envelope(ActorType::System, input).evaluation <= spec_step_envelope(ActorType::System, input).total,
{
}

/// Fee of one Trigger occurrence: zero for a System Actor or a zero weight, otherwise the
/// runtime's fee for the occurrence weight (`weight_fee`).
pub fn trigger_fee_for_weight(
    actor_type: ActorType,
    trigger_family: TriggerFamily,
    weight: Weight,
    weight_fee: Balance,
) -> (r: TriggerFeeBreakdown)
    ensures
        r.trigger_family == trigger_family,
        r.trigger_fee == if actor_type == ActorType::System || (weight.ref_time == 0
            && weight.proof_size == 0) {
            0
        } else {
            weight_fee
        },
{
    let trigger_fee = if actor_type == ActorType::System || weight.is_zero() {
        0
    } else {
        weight_fee
    };
    TriggerFeeBreakdown { trigger_family, trigger_fee }
}

/// Pipeline fees of a Contract: zero for a System Actor, otherwise its machine and cleanup
/// bounds and their sum.
pub fn pipeline_fee_breakdown(actor_type: ActorType, envelope: PipelineMachineEnvelope) -> (r: Result<
    PipelineFeeBreakdown,
    Error,
>)
    ensures
        actor_type == ActorType::System ==> r == Ok::<PipelineFeeBreakdown, Error>(
            PipelineFeeBreakdown { pipeline_machine_fee: 0, cleanup_fee: 0, total_fee: 0 },
        ),
        actor_type == ActorType::User ==> r == if envelope.pipeline_machine_fee_upper
            + envelope.cleanup_fee_upper > u128::MAX {
            Err(Error::AdmissionBoundOverflow)
        } else {
            Ok(
                PipelineFeeBreakdown {
                    pipeline_machine_fee: envelope.pipeline_machine_fee_upper,
                    cleanup_fee: envelope.cleanup_fee_upper,
                    total_fee: (envelope.pipeline_machine_fee_upper
                        + envelope.cleanup_fee_upper) as Balance,
                },
            )
        },
{
    if actor_type == ActorType::System {
        return Ok(PipelineFeeBreakdown { pipeline_machine_fee: 0, cleanup_fee: 0, total_fee: 0 });
    }
    let total_fee = match envelope.pipeline_machine_fee_upper.checked_add(envelope.cleanup_fee_upper) {
        Some(t) => t,
        None => return Err(Error::AdmissionBoundOverflow),
    };
    Ok(
        PipelineFeeBreakdown {
            pipeline_machine_fee: envelope.pipeline_machine_fee_upper,
            cleanup_fee: envelope.cleanup_fee_upper,
            total_fee,
        },
    )
}

/// The Step fee of one resource envelope: zero for a System Actor; for a User Actor no control
/// fee and the runtime's fee for the effect weight (`effect_weight_fee`), zero for a zero
/// effect weight.
pub open spec fn spec_step_fee(
    actor_type: ActorType,
    resources: ActorStepResourceEnvelope,
    effect_weight_fee: Balance,
) -> StepFeeBreakdown {
    if actor_type == ActorType::System {
        StepFeeBreakdown { control_fee: 0, effect_fee: 0, total_fee: 0 }
    } else {
        let effect_fee = if resources.effect.ref_time == 0 && resources.effect.proof_size == 0 {
            0
        } else {
            effect_weight_fee
        };
        StepFeeBreakdown { control_fee: 0, effect_fee, total_fee: effect_fee }
    }
}

pub fn step_fee_for_resources(
    actor_type: ActorType,
    resources: ActorStepResourceEnvelope,
    effect_weight_fee: Balance,
) -> (r: Result<StepFeeBreakdown, Error>)
    ensures
        r == Ok::<StepFeeBreakdown, Error>(spec_step_fee(actor_type, resources, effect_weight_fee)),
{
    if actor_type == ActorType::System {
        return Ok(StepFeeBreakdown { control_fee: 0, effect_fee: 0, total_fee: 0 });
    }
    let control_fee: Balance = 0;
    let effect_fee = if resources.effect.is_zero() {
        0
    } else {
        effect_weight_fee
    };
    let total_fee = match control_fee.checked_add(effect_fee) {
        Some(t) => t,
        None => return Err(Error::AdmissionBoundOverflow),
    };
    Ok(StepFeeBreakdown { control_fee, effect_fee, total_fee })
}

/// Maximum fee of the current action: zero for a StopCycle Step, otherwise the Step fee.
pub fn maximum_current_action_fee(
    actor_type: ActorType,
    step: &Step,
    resources: ActorStepResourceEnvelope,
    effect_weight_fee: Balance,
) -> (r: Result<StepFeeBreakdown, Error>)
    ensures
        r == Ok::<StepFeeBreakdown, Error>(
            if step.task.spec_is_stop_cycle() {
                StepFeeBreakdown { control_fee: 0, effect_fee: 0, total_fee: 0 }
            } else {
                spec_step_fee(actor_type, resources, effect_weight_fee)
            },
        ),
{
    if step.task.is_stop_cycle() {
        return Ok(StepFeeBreakdown { control_fee: 0, effect_fee: 0, total_fee: 0 });
    }
    step_fee_for_resources(actor_type, resources, effect_weight_fee)
}

/// Maximum fee of the Step at `cursor` of a Contract's Steps, from their derived resource
/// envelopes `resources` (`None` where they cannot be derived); `effect_weight_fee` is the fee
/// of that Step's effect weight.
pub fn maximum_contract_step_fee(
    actor_type: ActorType,
    contract_steps: &Vec<Step>,
    resources: Option<&Vec<ActorStepResourceEnvelope>>,
    cursor: usize,
    effect_weight_fee: Balance,
) -> (r: Result<StepFeeBreakdown, Error>)
    ensures
        r == match resources {
            Some(rs) => if cursor < rs@.len() && cursor < contract_steps@.len() {
                Ok::<StepFeeBreakdown, Error>(
                    if contract_steps@[cursor as int].task.spec_is_stop_cycle() {
                        StepFeeBreakdown { control_fee: 0, effect_fee: 0, total_fee: 0 }
                    } else {
                        spec_step_fee(actor_type, rs@[cursor as int], effect_weight_fee)
                    },
                )
            } else {
                Err(Error::ActorRunInvariant)
            },
            None => Err(Error::ActorRunInvariant),
        },
{
    let resource = match resources {
        Some(rs) => {
            if cursor >= rs.len() {
                return Err(Error::ActorRunInvariant);
            }
            rs[cursor]
        },
        None => return Err(Error::ActorRunInvariant),
    };
    if cursor >= contract_steps.len() {
        return Err(Error::ActorRunInvariant);
    }
    maximum_current_action_fee(actor_type, &contract_steps[cursor], resource, effect_weight_fee)
}

/// Maximum fee of the current Step.
pub fn maximum_current_step_fee(
    actor_type: ActorType,
    resources: ActorStepResourceEnvelope,
    effect_weight_fee: Balance,
) -> (r: Result<StepFeeBreakdown, Error>)
    ensures
        r == Ok::<StepFeeBreakdown, Error>(spec_step_fee(actor_type, resources, effect_weight_fee)),
{
    step_fee_for_resources(actor_type, resources, effect_weight_fee)
}

/// Weight the pipeline machine spends on one Step attempt: control and effect for a
/// StopCycle Step, control alone otherwise.
pub open spec fn spec_machine_weight(step: Step, resource: ActorStepResourceEnvelope) -> Weight {
    if step.task.spec_is_stop_cycle() {
        Weight {
            ref_time: sat_add(resource.control.ref_time, resource.effect.ref_time),
            proof_size: sat_add(resource.control.proof_size, resource.effect.proof_size),
        }
    } else {
        resource.control
    }
}

pub fn machine_weight(step: &Step, resource: ActorStepResourceEnvelope) -> (w: Weight)
    ensures
        w == spec_machine_weight(*step, resource),
{
    if step.task.is_stop_cycle() {
        resource.control.saturating_add(resource.effect)
    } else {
        resource.control
    }
}

/// Attempts charged upfront for a Step: its retry bound, or one.
pub open spec fn spec_attempts(step: Step) -> int {
    match step.on_error.spec_retry_max_attempts() {
        Some(a) => a as int,
        None => 1,
    }
}

/// Fee of one machine attempt: zero for a zero machine weight, else the runtime's fee.
pub open spec fn spec_attempt_fee(step: Step, resource: ActorStepResourceEnvelope, fee: Balance) -> int {
    let w = spec_machine_weight(step, resource);
    if w.ref_time == 0 && w.proof_size == 0 {
        0
    } else {
        fee as int
    }
}

/// Upfront machine fee of the first `k` Steps: every Step's attempts times its attempt fee.
pub open spec fn machine_fee_sum(
    steps: Seq<Step>,
    resources: Seq<ActorStepResourceEnvelope>,
    fees: Seq<Balance>,
    k: int,
) -> int
    decreases k,
{
    if k <= 0 {
        0
    } else {
        machine_fee_sum(steps, resources, fees, k - 1) + spec_attempts(steps[k - 1]) * spec_attempt_fee(
            steps[k - 1],
            resources[k - 1],
            fees[k - 1],
        )
    }
}

proof fn lemma_machine_fee_sum_nonneg(
    steps: Seq<Step>,
    resources: Seq<ActorStepResourceEnvelope>,
    fees: Seq<Balance>,
    k: int,
)
    ensures
        machine_fee_sum(steps, resources, fees, k) >= 0,
    decreases k,
{
    if k > 0 {
        lemma_machine_fee_sum_nonneg(steps, resources, fees, k - 1);
        let a = spec_attempts(steps[k - 1]);
        let f = spec_attempt_fee(steps[k - 1], resources[k - 1], fees[k - 1]);
        assert(a * f >= 0) by (nonlinear_arith)
            requires
                a >= 0,
                f >= 0,
        ;
    }
}

proof fn lemma_machine_fee_sum_monotone(
    steps: Seq<Step>,
    resources: Seq<ActorStepResourceEnvelope>,
    fees: Seq<Balance>,
    j: int,
    k: int,
)
    requires
        0 <= j <= k,
    ensures
        machine_fee_sum(steps, resources, fees, j) <= machine_fee_sum(steps, resources, fees, k),
        machine_fee_sum(steps, resources, fees, j) >= 0,
    decreases k,
{
    lemma_machine_fee_sum_nonneg(steps, resources, fees, j);
    if k > j {
        lemma_machine_fee_sum_monotone(steps, resources, fees, j, k - 1);
        let a = spec_attempts(steps[k - 1]);
        let f = spec_attempt_fee(steps[k - 1], resources[k - 1], fees[k - 1]);
        assert(a * f >= 0) by (nonlinear_arith)
            requires
                a >= 0,
                f >= 0,
        ;
    }
}

/// Derives the upfront pipeline-machine envelope of a Contract. `attempt_fees[i]` is the
/// runtime's fee for Step `i`'s machine weight, `zero_step_fee` its fee for completing a
/// zero-Step Contract and `cleanup_fee` its fee for closing the Actor.
#[verifier::loop_isolation(false)]
pub fn derive_pipeline_machine_envelope(
    actor_type: ActorType,
    contract_steps: &Vec<Step>,
    resources: &Vec<ActorStepResourceEnvelope>,
    attempt_fees: &Vec<Balance>,
    zero_step_fee: Balance,
    cleanup_fee: Balance,
) -> (r: Result<PipelineMachineEnvelope, Error>)
    requires
        attempt_fees@.len() == contract_steps@.len(),
    ensures
        contract_steps@.len() != resources@.len() ==> r == Err::<PipelineMachineEnvelope, Error>(
            Error::ActorRunInvariant,
        ),
        contract_steps@.len() == resources@.len() && actor_type == ActorType::System ==> r == Ok::<
            PipelineMachineEnvelope,
            Error,
        >(PipelineMachineEnvelope { pipeline_machine_fee_upper: 0, cleanup_fee_upper: 0 }),
        contract_steps@.len() == resources@.len() && actor_type == ActorType::User ==> {
            let machine = (if contract_steps@.len() == 0 {
                zero_step_fee as int
            } else {
                0
            }) + machine_fee_sum(
                contract_steps@,
                resources@,
                attempt_fees@,
                contract_steps@.len() as int,
            );
            r == if machine > u128::MAX || machine + cleanup_fee > u128::MAX {
                Err(Error::AdmissionBoundOverflow)
            } else {
                Ok(
                    PipelineMachineEnvelope {
                        pipeline_machine_fee_upper: machine as Balance,
                        cleanup_fee_upper: cleanup_fee,
                    },
                )
            }
        },
{
    if contract_steps.len() != resources.len() {
        return Err(Error::ActorRunInvariant);
    }
    if actor_type == ActorType::System {
        return Ok(PipelineMachineEnvelope { pipeline_machine_fee_upper: 0, cleanup_fee_upper: 0 });
    }
    let n = contract_steps.len();
    let ghost base: int = if n == 0 { zero_step_fee as int } else { 0 };
    let mut upper: Balance = if n == 0 { zero_step_fee } else { 0 };
    let mut i: usize = 0;
    while i < n
        invariant
            n == contract_steps@.len(),
            n == resources@.len(),
            n == attempt_fees@.len(),
            0 <= i <= n,
            base == (if n == 0 { zero_step_fee as int } else { 0 }),
            upper == base + machine_fee_sum(contract_steps@, resources@, attempt_fees@, i as int),
        decreases n - i,
    {
        let weight = machine_weight(&contract_steps[i], resources[i]);
        let attempt_fee: Balance = if weight.is_zero() { 0 } else { attempt_fees[i] };
        let attempts = match contract_steps[i].on_error.retry_max_attempts() {
            Some(a) => a,
            None => 1,
        };
        let ghost before = upper as int;
        let mut made: u32 = 0;
        while made < attempts
            invariant
                0 <= made <= attempts,
                upper == before + made * attempt_fee,
                before == base + machine_fee_sum(contract_steps@, resources@, attempt_fees@, i as int),
                i < n,
                n == contract_steps@.len(),
                n == resources@.len(),
                n == attempt_fees@.len(),
                attempts == spec_attempts(contract_steps@[i as int]),
                attempt_fee == spec_attempt_fee(contract_steps@[i as int], resources@[i as int], attempt_fees@[i as int]),
            decreases attempts - made,
        {
            upper = match upper.checked_add(attempt_fee) {
                Some(u) => u,
                None => {
                    proof {
                        assert(before + (made + 1) * attempt_fee > u128::MAX) by (nonlinear_arith)
                            requires
                                before + made * attempt_fee + attempt_fee > u128::MAX,
                        ;
                        assert((made + 1) * attempt_fee <= attempts * attempt_fee) by (nonlinear_arith)
                            requires
                                made + 1 <= attempts,
                                attempt_fee >= 0,
                        ;
                        lemma_machine_fee_sum_monotone(contract_steps@, resources@, attempt_fees@, i as int + 1, n as int);
                    }
                    return Err(Error::AdmissionBoundOverflow);
                },
            };
            proof {
                assert(before + made * attempt_fee + attempt_fee == before + (made + 1) * attempt_fee) by (nonlinear_arith);
            }
            made = made + 1;
        }
        i = i + 1;
    }
    let total = upper.checked_add(cleanup_fee);
    if total.is_none() {
        return Err(Error::AdmissionBoundOverflow);
    }
    Ok(PipelineMachineEnvelope { pipeline_machine_fee_upper: upper, cleanup_fee_upper: cleanup_fee })
}

/// Fee input of one Step: no evaluation bound; the execution bound `fee` for a User Actor's
/// non-StopCycle Step, otherwise zero.
pub open spec fn spec_fee_input(actor_type: ActorType, step: Step, fee: Balance) -> FeeEnvelopeInput {
    FeeEnvelopeInput {
        evaluation: 0,
        execution: if actor_type == ActorType::User && !step.task.spec_is_stop_cycle() {
            fee
        } else {
            0
        },
    }
}

/// Composes the attempt fee envelope of a Contract's Steps from `start_cursor`. Every Step
/// has a zero evaluation bound; a User Actor's non-StopCycle Step has the runtime's fee for
/// its task's upper weight (`execution_fees[i]`) as execution bound.
pub fn attempt_fee_envelope(
    actor_type: ActorType,
    contract_steps: &Vec<Step>,
    start_cursor: usize,
    execution_fees: &Vec<Balance>,
) -> (r: Result<AttemptFeeEnvelope, Error>)
    requires
        execution_fees@.len() == contract_steps@.len(),
    ensures
        ({
            let inputs = Seq::new(
                contract_steps@.len(),
                |i: int|
                    spec_fee_input(actor_type, contract_steps@[i], execution_fees@[i]),
            );
            &&& start_cursor > inputs.len() ==> r == Err::<AttemptFeeEnvelope, Error>(
                Error::ActorRunInvariant,
            )
            &&& start_cursor <= inputs.len() ==> {
                let rest = inputs.subrange(start_cursor as int, inputs.len() as int);
                &&& (r is Ok <==> inputs_total(actor_type, rest) <= u128::MAX)
                &&& (r is Err ==> r == Err::<AttemptFeeEnvelope, Error>(
                    Error::AdmissionBoundOverflow,
                ))
                &&& (r matches Ok(env) ==> {
                    &&& env.total == inputs_total(actor_type, rest)
                    &&& env.steps@.len() == rest.len()
                    &&& forall|j: int| 0 <= j < rest.len() ==> #[trigger] env.steps@[j] == spec_step_envelope(actor_type, rest[j])
                })
            }
        }),
{
    let ghost target = Seq::new(
        contract_steps@.len(),
        |i: int|
            spec_fee_input(actor_type, contract_steps@[i], execution_fees@[i]),
    );
    let mut inputs: Vec<FeeEnvelopeInput> = Vec::new();
    let mut i: usize = 0;
    while i < contract_steps.len()
        invariant
            execution_fees@.len() == contract_steps@.len(),
            0 <= i <= contract_steps@.len(),
            inputs@ == target.take(i as int),
            target.len() == contract_steps@.len(),
            forall|j: int| 0 <= j < target.len() ==> #[trigger] target[j] == spec_fee_input(actor_type, contract_steps@[j], execution_fees@[j]),
        decreases contract_steps@.len() - i,
    {
        let execution = if actor_type == ActorType::User && !contract_steps[i].task.is_stop_cycle() {
            execution_fees[i]
        } else {
            0
        };
        inputs.push(FeeEnvelopeInput { evaluation: 0, execution });
        proof {
            assert(target[i as int] == (FeeEnvelopeInput { evaluation: 0, execution }));
            assert(inputs@ =~= target.take(i as int + 1));
        }
        i = i + 1;
    }
    proof {
        assert(inputs@ =~= target);
    }
    match compose_attempt_fee_envelope(actor_type, &inputs, start_cursor) {
        Ok(env) => Ok(env),
        Err(FeeEnvelopeError::CursorOutOfBounds) => Err(Error::ActorRunInvariant),
        Err(FeeEnvelopeError::ReservationUnderflow) => Err(Error::ActorRunInvariant),
        Err(FeeEnvelopeError::Overflow) => Err(Error::AdmissionBoundOverflow),
    }
}

/// Whether an account balance covers the User minimum plus a required fee. `Ok(true)` when
/// nothing is owed; an overflowing requirement is an admission-bound error.
pub open spec fn spec_covers(balance: Balance, min_user_balance: Balance, fee: Balance) -> Result<
    bool,
    Error,
> {
    if min_user_balance + fee > u128::MAX {
        Err(Error::AdmissionBoundOverflow)
    } else {
        Ok(balance >= min_user_balance + fee)
    }
}

fn covers(balance: Balance, min_user_balance: Balance, fee: Balance) -> (r: Result<bool, Error>)
    ensures
        r == spec_covers(balance, min_user_balance, fee),
{
    match min_user_balance.checked_add(fee) {
        Some(required) => Ok(balance >= required),
        None => Err(Error::AdmissionBoundOverflow),
    }
}

/// Whether the sovereign's fee-native `balance` covers one Trigger occurrence.
pub fn trigger_occurrence_capacity_sufficient(
    actor_type: ActorType,
    breakdown: TriggerFeeBreakdown,
    min_user_balance: Balance,
    balance: Balance,
) -> (r: Result<bool, Error>)
    ensures
        r == if actor_type == ActorType::System || breakdown.trigger_fee == 0 {
            Ok(true)
        } else {
            spec_covers(balance, min_user_balance, breakdown.trigger_fee)
        },
{
    if actor_type == ActorType::System || breakdown.trigger_fee == 0 {
        return Ok(true);
    }
    covers(balance, min_user_balance, breakdown.trigger_fee)
}

/// Whether the sovereign's fee-native `balance` covers the pipeline fees of the Actor's stored
/// contract head, whose Pipeline Machine envelope is `head_envelope` (`None` where no head is
/// stored).
pub fn pipeline_capacity_sufficient(
    actor_type: ActorType,
    head_envelope: Option<PipelineMachineEnvelope>,
    min_user_balance: Balance,
    balance: Balance,
) -> (r: Result<bool, Error>)
    ensures
        actor_type == ActorType::System ==> r == Ok::<bool, Error>(true),
        actor_type == ActorType::User ==> r == match head_envelope {
            None => Err(Error::ActorInvariant),
            Some(envelope) => if envelope.pipeline_machine_fee_upper + envelope.cleanup_fee_upper > u128::MAX {
                Err(Error::AdmissionBoundOverflow)
            } else {
                spec_covers(
                    balance,
                    min_user_balance,
                    (envelope.pipeline_machine_fee_upper + envelope.cleanup_fee_upper) as Balance,
                )
            },
        },
{
    if actor_type == ActorType::System {
        return Ok(true);
    }
    let envelope = match head_envelope {
        Some(e) => e,
        None => return Err(Error::ActorInvariant),
    };
    pipeline_capacity_sufficient_with_envelope(actor_type, envelope, min_user_balance, balance)
}

/// Refuses a Trigger occurrence whose fee the sovereign's fee-native `balance` does not cover.
pub fn ensure_trigger_occurrence_capacity(
    actor_type: ActorType,
    breakdown: TriggerFeeBreakdown,
    min_user_balance: Balance,
    balance: Balance,
) -> (r: Result<(), Error>)
    ensures
        r == match (if actor_type == ActorType::System || breakdown.trigger_fee == 0 {
            Ok::<bool, Error>(true)
        } else {
            spec_covers(balance, min_user_balance, breakdown.trigger_fee)
        }) {
            Ok(true) => Ok::<(), Error>(()),
            Ok(false) => Err(Error::InsufficientFee),
            Err(e) => Err(e),
        },
{
    if !trigger_occurrence_capacity_sufficient(actor_type, breakdown, min_user_balance, balance)? {
        return Err(Error::InsufficientFee);
    }
    Ok(())
}

/// Whether the sovereign's fee-native `balance` covers the pipeline fees of `envelope`.
pub fn pipeline_capacity_sufficient_with_envelope(
    actor_type: ActorType,
    envelope: PipelineMachineEnvelope,
    min_user_balance: Balance,
    balance: Balance,
) -> (r: Result<bool, Error>)
    ensures
        actor_type == ActorType::System ==> r == Ok::<bool, Error>(true),
        actor_type == ActorType::User ==> r == if envelope.pipeline_machine_fee_upper
            + envelope.cleanup_fee_upper > u128::MAX {
            Err(Error::AdmissionBoundOverflow)
        } else {
            spec_covers(
                balance,
                min_user_balance,
                (envelope.pipeline_machine_fee_upper + envelope.cleanup_fee_upper) as Balance,
            )
        },
{
    if actor_type == ActorType::System {
        return Ok(true);
    }
    let breakdown = pipeline_fee_breakdown(actor_type, envelope)?;
    covers(balance, min_user_balance, breakdown.total_fee)
}

/// Whether the sovereign's fee-native `balance` covers the maximum fee of the current action.
pub fn action_capacity_sufficient(
    actor_type: ActorType,
    step: &Step,
    resources: ActorStepResourceEnvelope,
    effect_weight_fee: Balance,
    min_user_balance: Balance,
    balance: Balance,
) -> (r: Result<bool, Error>)
    ensures
        ({
            let fee = if step.task.spec_is_stop_cycle() {
                0
            } else {
                spec_step_fee(actor_type, resources, effect_weight_fee).total_fee
            };
            r == if actor_type == ActorType::System || fee == 0 {
                Ok(true)
            } else {
                spec_covers(balance, min_user_balance, fee)
            }
        }),
{
    if actor_type == ActorType::System {
        return Ok(true);
    }
    let fee = maximum_current_action_fee(actor_type, step, resources, effect_weight_fee)?;
    if fee.total_fee == 0 {
        return Ok(true);
    }
    covers(balance, min_user_balance, fee.total_fee)
}

/// Balance a User Actor needs before admission: the minimum User balance plus the pipeline
/// machine and cleanup bounds of its Contract. `resources` are the Steps' derived resource
/// envelopes, `None` where they cannot be derived.
pub fn user_pipeline_machine_capacity_requirement(
    contract_steps: &Vec<Step>,
    resources: Option<&Vec<ActorStepResourceEnvelope>>,
    attempt_fees: &Vec<Balance>,
    zero_step_fee: Balance,
    cleanup_fee: Balance,
    min_user_balance: Balance,
) -> (r: Result<Balance, Error>)
    requires
        attempt_fees@.len() == contract_steps@.len(),
    ensures
        match resources {
            None => r == Err::<Balance, Error>(Error::ActorRunInvariant),
            Some(rs) => if rs@.len() != contract_steps@.len() {
                r == Err::<Balance, Error>(Error::ActorRunInvariant)
            } else {
                let machine = (if contract_steps@.len() == 0 {
                    zero_step_fee as int
                } else {
                    0
                }) + machine_fee_sum(contract_steps@, rs@, attempt_fees@, contract_steps@.len() as int);
                r == if machine + cleanup_fee + min_user_balance > u128::MAX {
                    Err(Error::AdmissionBoundOverflow)
                } else {
                    Ok((machine + cleanup_fee + min_user_balance) as Balance)
                }
            },
        },
{
    let resources = match resources {
        Some(rs) => rs,
        None => return Err(Error::ActorRunInvariant),
    };
    let ghost machine = (if contract_steps@.len() == 0 {
        zero_step_fee as int
    } else {
        0
    }) + machine_fee_sum(contract_steps@, resources@, attempt_fees@, contract_steps@.len() as int);
    proof {
        lemma_machine_fee_sum_monotone(contract_steps@, resources@, attempt_fees@, 0, contract_steps@.len() as int);
    }
    let envelope = derive_pipeline_machine_envelope(
        ActorType::User,
        contract_steps,
        resources,
        attempt_fees,
        zero_step_fee,
        cleanup_fee,
    )?;
    let cycle = match envelope.pipeline_machine_fee_upper.checked_add(envelope.cleanup_fee_upper) {
        Some(c) => c,
        None => return Err(Error::AdmissionBoundOverflow),
    };
    match min_user_balance.checked_add(cycle) {
        Some(total) => Ok(total),
        None => Err(Error::AdmissionBoundOverflow),
    }
}


/// System Actors pay no fees: every Step fee and every envelope contribution of a System Actor
/// is zero. A User Actor's Step fee is the effect-weight fee when its Step has an effect, and
/// nothing otherwise.
pub proof fn lemma_system_actors_pay_nothing(
    resources: ActorStepResourceEnvelope,
    effect_weight_fee: Balance,
    inputs: Seq<FeeEnvelopeInput>,
)
    ensures
        spec_step_fee(ActorType::System, resources, effect_weight_fee).total_fee == 0,
        inputs_total(ActorType::System, inputs) == 0,
        forall|i: FeeEnvelopeInput| #[trigger] spec_step_envelope(ActorType::System, i).total == 0,
        spec_step_fee(ActorType::User, resources, effect_weight_fee).total_fee == if resources.effect.ref_time == 0
            && resources.effect.proof_size == 0 {
            0
        } else {
            effect_weight_fee
        },
    decreases inputs.len(),
{
    if inputs.len() > 0 {
        lemma_system_actors_pay_nothing(resources, effect_weight_fee, inputs.drop_last());
    }
}

/// A balance covers a fee on top of the minimum balance exactly when it is at least their
/// (representable) sum; a larger balance covers whatever a smaller one covers, and a smaller
/// fee is covered whenever a larger one is.
pub proof fn lemma_cover_is_monotone(balance: Balance, more: Balance, min_user_balance: Balance, fee: Balance, less_fee: Balance)
    requires
        balance <= more,
        less_fee <= fee,
    ensures
        spec_covers(balance, min_user_balance, fee) == Ok::<bool, Error>(true) <==> min_user_balance + fee
            <= u128::MAX && balance >= min_user_balance + fee,
        spec_covers(balance, min_user_balance, fee) == Ok::<bool, Error>(true) ==> spec_covers(
            more,
            min_user_balance,
            fee,
        ) == Ok::<bool, Error>(true),
        spec_covers(balance, min_user_balance, fee) == Ok::<bool, Error>(true) ==> spec_covers(
            balance,
            min_user_balance,
            less_fee,
        ) == Ok::<bool, Error>(true),
{
}

} // verus!
