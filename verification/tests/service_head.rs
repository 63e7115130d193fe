use lib::contract::{AmountResolution, Step, StepErrorPolicy, Task};
use lib::fees::PipelineMachineEnvelope;
use lib::geometry::ActorStepResourceEnvelope;
use lib::semantic::CycleState;
use lib::service_head::{plan_service_head, ServiceHeadFacts, ServiceHeadPlan, ServiceHeadWeights};
use lib::service_ring::{CloseReason, ServiceRoundError};
use lib::types::ActorType;
use lib::weight::Weight;

fn wh(r: u64, p: u64) -> Weight {
    Weight::from_parts(r, p)
}

fn weights() -> ServiceHeadWeights {
    ServiceHeadWeights { selector: wh(10, 1), admit_or_retire: wh(5, 1), zero_step_complete: wh(5, 1), close_dispatch: wh(30, 1) }
}

fn facts(cycle_state: CycleState, pending_signal: bool) -> ServiceHeadFacts {
    ServiceHeadFacts { breaker: false, terminal: None, actor_type: ActorType::User, cycle_state, pending_signal, run_present: false }
}

#[test]
fn service_head_branches() {
    let env = PipelineMachineEnvelope { pipeline_machine_fee_upper: 5, cleanup_fee_upper: 5 };
    let burn = Step { task: Task::Burn { asset: 1, amount: AmountResolution::Fixed(1) }, on_error: StepErrorPolicy::NoRetry, precondition: None };
    let res = ActorStepResourceEnvelope { control: wh(20, 1), effect: wh(20, 1) };
    let big = wh(1000, 1000);
    assert_eq!(plan_service_head(wh(19, 3), weights(), facts(CycleState::Idle, true), Some(env), None, 0, 100, 200), Err(ServiceRoundError::InsufficientWeight));
    assert_eq!(
        plan_service_head(big, weights(), ServiceHeadFacts { breaker: true, ..facts(CycleState::Idle, true) }, Some(env), None, 0, 100, 200),
        Ok(ServiceHeadPlan::BreakerRefused)
    );
    assert_eq!(plan_service_head(big, weights(), facts(CycleState::Idle, true), Some(env), None, 0, 100, 109), Ok(ServiceHeadPlan::Close(CloseReason::CycleAdmissionInsufficient)));
    assert_eq!(plan_service_head(big, weights(), facts(CycleState::Idle, true), None, None, 0, 100, 109), Err(ServiceRoundError::ProcessResidenceMismatch));
    assert_eq!(plan_service_head(big, weights(), facts(CycleState::Idle, true), Some(env), None, 0, 100, 110), Ok(ServiceHeadPlan::ExecuteZeroStep));
    assert_eq!(plan_service_head(big, weights(), facts(CycleState::Idle, false), Some(env), None, 0, 100, 0), Ok(ServiceHeadPlan::AdvanceIdle));
    assert_eq!(plan_service_head(big, weights(), facts(CycleState::Suspended, false), Some(env), Some((&burn, res)), 7, 100, 106), Ok(ServiceHeadPlan::Close(CloseReason::CycleAdmissionInsufficient)));
    assert_eq!(plan_service_head(big, weights(), facts(CycleState::Suspended, false), Some(env), Some((&burn, res)), 7, 100, 107), Ok(ServiceHeadPlan::ExecuteStep));
    assert_eq!(plan_service_head(wh(50, 50), weights(), facts(CycleState::Running, false), Some(env), Some((&burn, res)), 7, 100, 107), Err(ServiceRoundError::InsufficientWeight));
    let terminal = ServiceHeadFacts { terminal: Some(CloseReason::WindowExpired), ..facts(CycleState::Running, false) };
    assert_eq!(plan_service_head(wh(49, 50), weights(), terminal, Some(env), None, 0, 100, 0), Err(ServiceRoundError::InsufficientWeight));
    assert_eq!(plan_service_head(wh(50, 50), weights(), terminal, Some(env), None, 0, 100, 0), Ok(ServiceHeadPlan::Close(CloseReason::WindowExpired)));
}
