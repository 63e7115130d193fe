//! What the service round does with an eligible head member once its state is loaded: refuse
//! under the global breaker, close it, advance past an idle resident, or attempt its current
//! Step (or complete a zero-Step Contract), each only when the meter admits the branch's whole
//! weight envelope.
use vstd::prelude::*;

use crate::contract::Step;
use crate::control::spec_sat_add_w;
use crate::errors::Error;
use crate::fees::{
    action_capacity_sufficient, pipeline_capacity_sufficient, spec_covers, spec_step_fee, PipelineMachineEnvelope,
};
use crate::geometry::ActorStepResourceEnvelope;
use crate::semantic::CycleState;
use crate::service_ring::{CloseReason, ServiceRoundError};
use crate::types::{ActorType, Balance};
use crate::weight::Weight;

verus! {

/// The branch the service round takes for its eligible head member.
#[derive(Clone, Copy, Debug, PartialEq, Eq, Structural)]
pub enum ServiceHeadPlan {
    BreakerRefused,
    Close(CloseReason),
    AdvanceIdle,
    ExecuteStep,
    ExecuteZeroStep,
}

/// What the loaded state of the head member shows.
#[derive(Clone, Copy, Debug, PartialEq, Eq, Structural)]
pub struct ServiceHeadFacts {
    /// The global circuit breaker defers the member's work.
    pub breaker: bool,
    /// The terminal reason its classification gives, if any.
    pub terminal: Option<CloseReason>,
    pub actor_type: ActorType,
    pub cycle_state: CycleState,
    pub pending_signal: bool,
    pub run_present: bool,
}

/// The benchmarked weights of a service round's branches.
#[derive(Clone, Copy, Debug, PartialEq, Eq, Structural)]
pub struct ServiceHeadWeights {
    /// Beginning a populated round and probing the eligible head.
    pub selector: Weight,
    /// Admitting an eligible member, or retiring it from the ring, whichever is larger.
    pub admit_or_retire: Weight,
    pub zero_step_complete: Weight,
    pub close_dispatch: Weight,
}

/// The fee of an action, as `action_capacity_sufficient` prices it.
pub open spec fn action_fee(step: Step, resources: ActorStepResourceEnvelope, actor_type: ActorType, fee: Balance) -> int {
    if step.task.spec_is_stop_cycle() {
        0
    } else {
        spec_step_fee(actor_type, resources, fee).total_fee as int
    }
}

/// The plan for the head member and the admission checks it passes through. `head_envelope` is
/// the Pipeline Machine envelope of its stored contract head; `loaded` its current Step and
/// that Step's resources, when it has one; `effect_weight_fee` the fee of that Step's effect
/// weight; `balance` the sovereign's fee-native balance.
pub open spec fn spec_service_head_plan(
    remaining: Weight,
    w: ServiceHeadWeights,
    f: ServiceHeadFacts,
    head_envelope: Option<PipelineMachineEnvelope>,
    loaded: Option<(Step, ActorStepResourceEnvelope)>,
    effect_weight_fee: Balance,
    min_user_balance: Balance,
    balance: Balance,
) -> Result<ServiceHeadPlan, ServiceRoundError> {
    let complete = spec_sat_add_w(w.selector, spec_sat_add_w(w.zero_step_complete, w.admit_or_retire));
    let check_admission = f.terminal is None && f.actor_type == ActorType::User && f.cycle_state == CycleState::Idle
        && f.pending_signal;
    let check_retry = f.terminal is None && f.actor_type == ActorType::User && f.cycle_state
        == CycleState::Suspended && loaded is Some;
    let pipeline = match head_envelope {
        None => Err(Error::ActorInvariant),
        Some(e) => if e.pipeline_machine_fee_upper + e.cleanup_fee_upper > u128::MAX {
            Err(Error::AdmissionBoundOverflow)
        } else {
            spec_covers(balance, min_user_balance, (e.pipeline_machine_fee_upper + e.cleanup_fee_upper) as Balance)
        },
    };
    let retry = if action_fee(loaded->Some_0.0, loaded->Some_0.1, f.actor_type, effect_weight_fee) == 0 {
        Ok(true)
    } else {
        spec_covers(
            balance,
            min_user_balance,
            action_fee(loaded->Some_0.0, loaded->Some_0.1, f.actor_type, effect_weight_fee) as Balance,
        )
    };
    if !complete.spec_all_lte(remaining) {
        Err(ServiceRoundError::InsufficientWeight)
    } else if f.breaker {
        Ok(ServiceHeadPlan::BreakerRefused)
    } else if check_admission && pipeline is Err {
        Err(ServiceRoundError::ProcessResidenceMismatch)
    } else if check_retry && retry is Err {
        Err(ServiceRoundError::ProcessResidenceMismatch)
    } else {
        let reason = if f.terminal is Some {
            f.terminal
        } else if (check_admission && pipeline == Ok::<bool, Error>(false)) || (check_retry && retry == Ok::<
            bool,
            Error,
        >(false)) {
            Some(CloseReason::CycleAdmissionInsufficient)
        } else {
            None
        };
        match reason {
            Some(r) => if !spec_sat_add_w(w.selector, spec_sat_add_w(w.selector, w.close_dispatch)).spec_all_lte(
                remaining,
            ) {
                Err(ServiceRoundError::InsufficientWeight)
            } else {
                Ok(ServiceHeadPlan::Close(r))
            },
            None => if f.cycle_state == CycleState::Idle && !f.pending_signal && !f.run_present {
                Ok(ServiceHeadPlan::AdvanceIdle)
            } else {
                match loaded {
                    Some((_, res)) => if !spec_sat_add_w(
                        w.selector,
                        spec_sat_add_w(spec_sat_add_w(res.control, res.effect), w.admit_or_retire),
                    ).spec_all_lte(remaining) {
                        Err(ServiceRoundError::InsufficientWeight)
                    } else {
                        Ok(ServiceHeadPlan::ExecuteStep)
                    },
                    None => Ok(ServiceHeadPlan::ExecuteZeroStep),
                }
            },
        }
    }
}

/// Plans the service round's treatment of its eligible head member, from what its loaded state
/// shows; `remaining` is what the round's meter still admits. A closing member is priced at the
/// selector plus the close dispatch, an effectful Step at the selector plus the Step's control
/// and effect and the admission or retirement.
pub fn plan_service_head(
    remaining: Weight,
    weights: ServiceHeadWeights,
    facts: ServiceHeadFacts,
    head_envelope: Option<PipelineMachineEnvelope>,
    loaded: Option<(&Step, ActorStepResourceEnvelope)>,
    effect_weight_fee: Balance,
    min_user_balance: Balance,
    balance: Balance,
) -> (r: Result<ServiceHeadPlan, ServiceRoundError>)
    ensures
        r == spec_service_head_plan(
            remaining,
            weights,
            facts,
            head_envelope,
            match loaded {
                Some((s, res)) => Some((*s, res)),
                None => None,
            },
            effect_weight_fee,
            min_user_balance,
            balance,
        ),
{
    let complete = weights.selector.saturating_add(weights.zero_step_complete.saturating_add(weights.admit_or_retire));
    if !complete.all_lte(remaining) {
        return Err(ServiceRoundError::InsufficientWeight);
    }
    if facts.breaker {
        return Ok(ServiceHeadPlan::BreakerRefused);
    }
    let user = match facts.actor_type {
        ActorType::User => true,
        ActorType::System => false,
    };
    let idle = match facts.cycle_state {
        CycleState::Idle => true,
        _ => false,
    };
    let suspended = match facts.cycle_state {
        CycleState::Suspended => true,
        _ => false,
    };
    let admission_insufficient = if facts.terminal.is_none() && user && idle && facts.pending_signal {
        match pipeline_capacity_sufficient(ActorType::User, head_envelope, min_user_balance, balance) {
            Ok(sufficient) => !sufficient,
            Err(_) => return Err(ServiceRoundError::ProcessResidenceMismatch),
        }
    } else {
        false
    };
    let retry_insufficient = if facts.terminal.is_none() && user && suspended {
        match loaded {
            Some((step, res)) => match action_capacity_sufficient(
                ActorType::User,
                step,
                res,
                effect_weight_fee,
                min_user_balance,
                balance,
            ) {
                Ok(sufficient) => !sufficient,
                Err(_) => return Err(ServiceRoundError::ProcessResidenceMismatch),
            },
            None => false,
        }
    } else {
        false
    };
    let reason = if facts.terminal.is_some() {
        facts.terminal
    } else if admission_insufficient || retry_insufficient {
        Some(CloseReason::CycleAdmissionInsufficient)
    } else {
        None
    };
    match reason {
        Some(r) => {
            let close = weights.selector.saturating_add(weights.selector.saturating_add(weights.close_dispatch));
            if !close.all_lte(remaining) {
                return Err(ServiceRoundError::InsufficientWeight);
            }
            Ok(ServiceHeadPlan::Close(r))
        },
        None => {
            if idle && !facts.pending_signal && !facts.run_present {
                return Ok(ServiceHeadPlan::AdvanceIdle);
            }
            match loaded {
                Some((_, res)) => {
                    let effectful = weights.selector.saturating_add(
                        res.control.saturating_add(res.effect).saturating_add(weights.admit_or_retire),
                    );
                    if !effectful.all_lte(remaining) {
                        return Err(ServiceRoundError::InsufficientWeight);
                    }
                    Ok(ServiceHeadPlan::ExecuteStep)
                },
                None => Ok(ServiceHeadPlan::ExecuteZeroStep),
            }
        },
    }
}


/// The service round's key facts: it refuses for weight before anything else when the
/// completion bound does not fit the meter; under the breaker it only refuses; and every plan it
/// accepts fits the meter, a closing one at the selector plus the close dispatch, an effectful
/// Step at the selector plus the Step's control and effect and the admission or retirement.
pub proof fn lemma_service_head_plan_fits(
    remaining: Weight,
    w: ServiceHeadWeights,
    f: ServiceHeadFacts,
    head_envelope: Option<PipelineMachineEnvelope>,
    loaded: Option<(Step, ActorStepResourceEnvelope)>,
    effect_weight_fee: Balance,
    min_user_balance: Balance,
    balance: Balance,
)
    ensures
        ({
            let r = spec_service_head_plan(
                remaining,
                w,
                f,
                head_envelope,
                loaded,
                effect_weight_fee,
                min_user_balance,
                balance,
            );
            let complete = spec_sat_add_w(w.selector, spec_sat_add_w(w.zero_step_complete, w.admit_or_retire));
            &&& !complete.spec_all_lte(remaining) ==> r == Err::<ServiceHeadPlan, ServiceRoundError>(
                ServiceRoundError::InsufficientWeight,
            )
            &&& r is Ok ==> complete.spec_all_lte(remaining)
            &&& complete.spec_all_lte(remaining) && f.breaker ==> r == Ok::<ServiceHeadPlan, ServiceRoundError>(
                ServiceHeadPlan::BreakerRefused,
            )
            &&& r matches Ok(ServiceHeadPlan::Close(_)) ==> spec_sat_add_w(
                w.selector,
                spec_sat_add_w(w.selector, w.close_dispatch),
            ).spec_all_lte(remaining)
            &&& r matches Ok(ServiceHeadPlan::ExecuteStep) ==> loaded is Some && spec_sat_add_w(
                w.selector,
                spec_sat_add_w(spec_sat_add_w(loaded->Some_0.1.control, loaded->Some_0.1.effect), w.admit_or_retire),
            ).spec_all_lte(remaining)
            &&& r matches Ok(ServiceHeadPlan::ExecuteZeroStep) ==> loaded is None
        }),
{
}


/// The fee admission of the service round binds User Actors only: a member without a terminal
/// reason is closed for insufficient cycle admission only when it is a User Actor, and a System
/// Actor without a terminal reason is never closed and never refused for its fee envelope. A
/// close for any other reason carries the member's own terminal reason.
pub proof fn lemma_service_head_admission_binds_users(
    remaining: Weight,
    w: ServiceHeadWeights,
    f: ServiceHeadFacts,
    head_envelope: Option<PipelineMachineEnvelope>,
    loaded: Option<(Step, ActorStepResourceEnvelope)>,
    effect_weight_fee: Balance,
    min_user_balance: Balance,
    balance: Balance,
)
    ensures
        ({
            let r = spec_service_head_plan(
                remaining,
                w,
                f,
                head_envelope,
                loaded,
                effect_weight_fee,
                min_user_balance,
                balance,
            );
            &&& (r == Ok::<ServiceHeadPlan, ServiceRoundError>(
                ServiceHeadPlan::Close(CloseReason::CycleAdmissionInsufficient),
            ) ==> f.terminal == Some(CloseReason::CycleAdmissionInsufficient) || f.actor_type == ActorType::User)
            &&& (r matches Ok(ServiceHeadPlan::Close(reason)) ==> (reason != CloseReason::CycleAdmissionInsufficient
                ==> f.terminal == Some(reason)))
            &&& (f.actor_type == ActorType::System && f.terminal is None ==> !(r matches Ok(ServiceHeadPlan::Close(_)))
                && r != Err::<ServiceHeadPlan, ServiceRoundError>(ServiceRoundError::ProcessResidenceMismatch))
        }),
{
}

} // verus!
