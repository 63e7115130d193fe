use lib::contract::{AmountResolution, Step, StepErrorPolicy, Task};
use lib::errors::Error;
use lib::fees::{
    action_capacity_sufficient, attempt_fee_envelope, derive_pipeline_machine_envelope, machine_weight,
    maximum_current_action_fee, maximum_current_step_fee, pipeline_capacity_sufficient_with_envelope,
    step_fee_for_resources, trigger_occurrence_capacity_sufficient, user_pipeline_machine_capacity_requirement,
    PipelineMachineEnvelope, StepFeeBreakdown, StepFeeEnvelope, TriggerFeeBreakdown,
};
use lib::contract::TriggerFamily;
use lib::geometry::ActorStepResourceEnvelope;
use lib::types::ActorType;
use lib::weight::Weight;

fn burn(retries: Option<u32>) -> Step {
    Step {
        task: Task::Burn { asset: 1, amount: AmountResolution::Fixed(5) },
        on_error: match retries {
            Some(n) => StepErrorPolicy::RetryLater { max_attempts: n },
            None => StepErrorPolicy::NoRetry,
        },
        precondition: None,
    }
}

fn stop() -> Step {
    Step { task: Task::StopCycle, on_error: StepErrorPolicy::NoRetry, precondition: None }
}

fn res(c: (u64, u64), e: (u64, u64)) -> ActorStepResourceEnvelope {
    ActorStepResourceEnvelope { control: Weight::from_parts(c.0, c.1), effect: Weight::from_parts(e.0, e.1) }
}

#[test]
fn pipeline_machine_envelope_counts_attempts() {
    let steps = vec![burn(Some(3)), stop()];
    let resources = vec![res((1, 1), (5, 1)), res((2, 2), (3, 3))];
    let fees = vec![10u128, 20];
    assert_eq!(
        derive_pipeline_machine_envelope(ActorType::User, &steps, &resources, &fees, 7, 4),
        Ok(PipelineMachineEnvelope { pipeline_machine_fee_upper: 50, cleanup_fee_upper: 4 })
    );
    assert_eq!(
        derive_pipeline_machine_envelope(ActorType::System, &steps, &resources, &fees, 7, 4),
        Ok(PipelineMachineEnvelope { pipeline_machine_fee_upper: 0, cleanup_fee_upper: 0 })
    );
    assert_eq!(
        derive_pipeline_machine_envelope(ActorType::User, &steps, &vec![res((1, 1), (1, 1))], &fees, 7, 4),
        Err(Error::ActorRunInvariant)
    );
    let none: Vec<Step> = Vec::new();
    assert_eq!(
        derive_pipeline_machine_envelope(ActorType::User, &none, &Vec::new(), &Vec::new(), 7, 4),
        Ok(PipelineMachineEnvelope { pipeline_machine_fee_upper: 7, cleanup_fee_upper: 4 })
    );
    let free = vec![res((0, 0), (5, 1)), res((2, 2), (3, 3))];
    assert_eq!(
        derive_pipeline_machine_envelope(ActorType::User, &steps, &free, &fees, 7, 4),
        Ok(PipelineMachineEnvelope { pipeline_machine_fee_upper: 20, cleanup_fee_upper: 4 })
    );
    assert_eq!(
        derive_pipeline_machine_envelope(ActorType::User, &steps, &resources, &vec![u128::MAX, 0], 7, 4),
        Err(Error::AdmissionBoundOverflow)
    );
    assert_eq!(
        user_pipeline_machine_capacity_requirement(&steps, Some(&resources), &fees, 7, 4, 100),
        Ok(154)
    );
    assert_eq!(user_pipeline_machine_capacity_requirement(&steps, None, &fees, 7, 4, 100), Err(Error::ActorRunInvariant));
    assert_eq!(
        user_pipeline_machine_capacity_requirement(&steps, Some(&vec![res((1, 1), (1, 1))]), &fees, 7, 4, 100),
        Err(Error::ActorRunInvariant)
    );
}

#[test]
fn attempt_fee_envelope_from_cursor() {
    let steps = vec![burn(None), stop(), burn(None)];
    let fees = vec![9u128, 9, 2];
    let env = attempt_fee_envelope(ActorType::User, &steps, 0, &fees).unwrap();
    assert_eq!(env.total, 11);
    assert_eq!(env.steps, vec![
        StepFeeEnvelope { evaluation: 0, execution: 9, total: 9 },
        StepFeeEnvelope { evaluation: 0, execution: 0, total: 0 },
        StepFeeEnvelope { evaluation: 0, execution: 2, total: 2 },
    ]);
    let tail = attempt_fee_envelope(ActorType::User, &steps, 2, &fees).unwrap();
    assert_eq!(tail.total, 2);
    assert_eq!(tail.steps.len(), 1);
    assert_eq!(attempt_fee_envelope(ActorType::User, &steps, 3, &fees).unwrap().total, 0);
    assert!(attempt_fee_envelope(ActorType::User, &steps, 4, &fees).is_err());
    assert_eq!(attempt_fee_envelope(ActorType::System, &steps, 0, &fees).unwrap().total, 0);
    assert!(attempt_fee_envelope(ActorType::User, &steps, 0, &vec![u128::MAX, 0, 1]).is_err());
}

#[test]
fn step_and_action_fees() {
    let charged = res((1, 1), (4, 0));
    let effectless = res((1, 1), (0, 0));
    let seven = StepFeeBreakdown { control_fee: 0, effect_fee: 7, total_fee: 7 };
    let nothing = StepFeeBreakdown { control_fee: 0, effect_fee: 0, total_fee: 0 };
    assert_eq!(step_fee_for_resources(ActorType::User, charged, 7), Ok(seven));
    assert_eq!(step_fee_for_resources(ActorType::User, effectless, 7), Ok(nothing));
    assert_eq!(step_fee_for_resources(ActorType::System, charged, 7), Ok(nothing));
    assert_eq!(maximum_current_step_fee(ActorType::User, charged, 7), Ok(seven));
    assert_eq!(maximum_current_action_fee(ActorType::User, &burn(None), charged, 7), Ok(seven));
    assert_eq!(maximum_current_action_fee(ActorType::User, &stop(), charged, 7), Ok(nothing));
    assert_eq!(machine_weight(&stop(), res((1, 2), (3, 4))), Weight::from_parts(4, 6));
    assert_eq!(machine_weight(&burn(None), res((1, 2), (3, 4))), Weight::from_parts(1, 2));
}

#[test]
fn balances_against_fees() {
    let charged = res((1, 1), (4, 0));
    assert_eq!(action_capacity_sufficient(ActorType::User, &burn(None), charged, 7, 10, 17), Ok(true));
    assert_eq!(action_capacity_sufficient(ActorType::User, &burn(None), charged, 7, 10, 16), Ok(false));
    assert_eq!(action_capacity_sufficient(ActorType::User, &stop(), charged, 7, 10, 0), Ok(true));
    assert_eq!(action_capacity_sufficient(ActorType::System, &burn(None), charged, 7, 10, 0), Ok(true));
    let fee = TriggerFeeBreakdown { trigger_family: TriggerFamily::Cadenced, trigger_fee: 3 };
    assert_eq!(trigger_occurrence_capacity_sufficient(ActorType::User, fee, 10, 13), Ok(true));
    assert_eq!(trigger_occurrence_capacity_sufficient(ActorType::User, fee, 10, 12), Ok(false));
    let env = PipelineMachineEnvelope { pipeline_machine_fee_upper: 5, cleanup_fee_upper: 5 };
    assert_eq!(pipeline_capacity_sufficient_with_envelope(ActorType::User, env, 10, 20), Ok(true));
    assert_eq!(pipeline_capacity_sufficient_with_envelope(ActorType::User, env, 10, 19), Ok(false));
    assert_eq!(pipeline_capacity_sufficient_with_envelope(ActorType::System, env, 10, 0), Ok(true));
}
