use lib::contract::{
    AmountResolution, InputLimit, Precondition, Predicate, ScheduleWindow, SplitLeg, Step, StepErrorPolicy, Task,
    Trigger,
};
use lib::errors::Error;
use lib::types::{ActorType, Mutability};
use lib::validation::{
    contract_steps_contains_mint, ensure_auto_close_target, ensure_not_system_immutable, ensure_retry_later_allowed,
    validate_amount_resolution, validate_contract_steps_shape, validate_future_schedule_targets,
    validate_recipient_configuration, validate_schedule_window, validate_split_transfer_legs, validate_trigger,
    window_terminal_at, ShapeLimits,
};

fn plain(task: Task) -> Step {
    Step { task, on_error: StepErrorPolicy::NoRetry, precondition: None }
}

fn limits() -> ShapeLimits {
    ShapeLimits { max_contract_steps: 8, max_retry_attempts: 10, max_predicates_per_step: 2, max_split_transfer_legs: 3 }
}

fn leg(to: u64, share: u32) -> SplitLeg {
    SplitLeg { to, share }
}

fn predicate(max_age: Option<u32>) -> Predicate {
    Predicate { encoded: vec![1, 2], observation_max_age_blocks: max_age }
}

#[test]
fn amounts_and_split_legs() {
    assert_eq!(validate_amount_resolution(&AmountResolution::Fixed(1)), Ok(()));
    assert_eq!(validate_amount_resolution(&AmountResolution::Percent(0)), Err(Error::InvalidAmountResolution));
    assert_eq!(validate_split_transfer_legs(&vec![leg(1, 500_000_000), leg(2, 500_000_000)], 3), Ok(()));
    assert_eq!(validate_split_transfer_legs(&vec![leg(1, 1)], 3), Err(Error::InvalidSplitTransfer));
    assert_eq!(validate_split_transfer_legs(&vec![leg(1, 1), leg(2, 1), leg(3, 1), leg(4, 1)], 3), Err(Error::InvalidSplitTransfer));
    assert_eq!(validate_split_transfer_legs(&vec![leg(1, 0), leg(2, 1)], 3), Err(Error::InvalidSplitTransfer));
    assert_eq!(validate_split_transfer_legs(&vec![leg(1, 1), leg(1, 1)], 3), Err(Error::InvalidSplitTransfer));
    assert_eq!(
        validate_split_transfer_legs(&vec![leg(1, 600_000_000), leg(2, 400_000_001)], 3),
        Err(Error::InvalidSplitTransfer)
    );
}

#[test]
fn contract_shape_first_refusal() {
    let ok = vec![plain(Task::Burn { asset: 1, amount: AmountResolution::Fixed(3) }), plain(Task::StopCycle)];
    assert_eq!(validate_contract_steps_shape(&ok, limits()), Ok(()));
    assert_eq!(
        validate_contract_steps_shape(&ok, ShapeLimits { max_contract_steps: 0, ..limits() }),
        Err(Error::TooManyContractSteps)
    );
    let retry = Step { on_error: StepErrorPolicy::RetryLater { max_attempts: 1 }, ..plain(Task::StopCycle) };
    assert_eq!(validate_contract_steps_shape(&vec![retry], limits()), Err(Error::InvalidRetryAttemptLimit));
    let swap = plain(Task::SwapIn { asset_in: 4, amount_in: AmountResolution::Fixed(1), asset_out: 4 });
    assert_eq!(validate_contract_steps_shape(&vec![swap], limits()), Err(Error::InvalidTradeBound));
    let swap_out = plain(Task::SwapOut {
        asset_out: 4,
        amount_out: AmountResolution::Fixed(1),
        asset_in: 5,
        input_limit: InputLimit::Absolute(0),
    });
    assert_eq!(validate_contract_steps_shape(&vec![swap_out], limits()), Err(Error::InvalidTradeBound));
    let empty = Step { precondition: Some(Precondition { clauses: vec![] }), ..plain(Task::StopCycle) };
    assert_eq!(validate_contract_steps_shape(&vec![empty], limits()), Err(Error::EmptyPrecondition));
    let crowded = Step {
        precondition: Some(Precondition { clauses: vec![vec![predicate(None), predicate(None)], vec![predicate(None)]] }),
        ..plain(Task::StopCycle)
    };
    assert_eq!(validate_contract_steps_shape(&vec![crowded], limits()), Err(Error::AdmissionBoundOverflow));
    let stale = Step { precondition: Some(Precondition { clauses: vec![vec![predicate(Some(0))]] }), ..plain(Task::StopCycle) };
    assert_eq!(validate_contract_steps_shape(&vec![stale], limits()), Err(Error::InvalidObservationMaxAge));
    let bad_burn = plain(Task::Burn { asset: 1, amount: AmountResolution::Fixed(0) });
    assert_eq!(
        validate_contract_steps_shape(&vec![bad_burn, retry_step_bad()], limits()),
        Err(Error::InvalidAmountResolution)
    );
}

fn retry_step_bad() -> Step {
    Step { on_error: StepErrorPolicy::RetryLater { max_attempts: 11 }, ..plain(Task::StopCycle) }
}

#[test]
fn step_set_queries() {
    let steps = vec![
        plain(Task::Mint { asset: 1, amount: AmountResolution::Fixed(1) }),
        Step { on_error: StepErrorPolicy::RetryLater { max_attempts: 3 }, ..plain(Task::StopCycle) },
    ];
    assert!(contract_steps_contains_mint(&steps));
    assert!(!contract_steps_contains_mint(&vec![plain(Task::StopCycle)]));
    assert_eq!(ensure_retry_later_allowed(Mutability::Immutable, &steps), Err(Error::RetryLaterNotAllowedForImmutableActor));
    assert_eq!(ensure_retry_later_allowed(Mutability::Mutable, &steps), Ok(()));
    let pays_self = vec![plain(Task::SplitTransfer {
        asset: 1,
        amount: AmountResolution::Fixed(1),
        legs: vec![leg(5, 1), leg(77, 1)],
    })];
    assert_eq!(validate_recipient_configuration(&pays_self, 77), Err(Error::SelfTransferNotAllowed));
    assert_eq!(validate_recipient_configuration(&pays_self, 78), Ok(()));
    assert_eq!(ensure_not_system_immutable(ActorType::System, Mutability::Immutable), Err(Error::ImmutableActor));
    assert_eq!(ensure_not_system_immutable(ActorType::User, Mutability::Immutable), Ok(()));
}

#[test]
fn triggers_and_windows() {
    assert_eq!(validate_trigger(&Trigger::Manual, 5, true, true, 10, 100), Ok(()));
    assert_eq!(validate_trigger(&Trigger::Manual, 11, true, true, 10, 100), Err(Error::ExecutionDelayTooLong));
    assert_eq!(validate_trigger(&Trigger::Manual, 0, false, true, 10, 100), Err(Error::InvalidTriggerConfiguration));
    assert_eq!(
        validate_trigger(&Trigger::ObservationCrossing { feed: 1 }, 0, true, false, 10, 100),
        Err(Error::InvalidTriggerConfiguration)
    );
    assert_eq!(validate_trigger(&Trigger::AtTime { after_ticks: 0 }, 0, true, true, 10, 100), Err(Error::InvalidTriggerConfiguration));
    assert_eq!(validate_trigger(&Trigger::Cadenced { every_ticks: 101 }, 0, true, true, 10, 100), Err(Error::ExecutionDelayTooLong));
    assert_eq!(validate_trigger(&Trigger::Cadenced { every_ticks: 100 }, 1, true, true, 10, 100), Err(Error::InvalidTriggerConfiguration));
    assert_eq!(validate_trigger(&Trigger::Cadenced { every_ticks: 100 }, 0, true, true, 10, 100), Ok(()));
    let w = ScheduleWindow { start: 20, end: 40 };
    assert_eq!(validate_schedule_window(&w, 10, 5, 20), Ok(()));
    assert_eq!(validate_schedule_window(&w, 10, 22, 20), Err(Error::InvalidScheduleWindow));
    assert_eq!(validate_schedule_window(&w, 41, 5, 20), Err(Error::InvalidScheduleWindow));
    assert_eq!(validate_schedule_window(&w, 10, 5, 9), Err(Error::ExecutionDelayTooLong));
    assert_eq!(validate_schedule_window(&ScheduleWindow { start: 5, end: 5 }, 0, 1, 20), Err(Error::InvalidScheduleWindow));
    assert_eq!(window_terminal_at(&w), 41);
    assert_eq!(validate_future_schedule_targets(&Trigger::Manual, Some(w), 5, 10), Ok(()));
    assert_eq!(validate_future_schedule_targets(&Trigger::Manual, Some(w), 25, 41), Err(Error::InvalidScheduleWindow));
    assert_eq!(
        validate_future_schedule_targets(&Trigger::AtTime { after_ticks: 3 }, Some(w), 0, 10),
        Err(Error::InvalidScheduleWindow)
    );
    assert_eq!(validate_future_schedule_targets(&Trigger::Manual, None, 0, u32::MAX), Err(Error::SchedulerIndexExhausted));
    assert_eq!(ensure_auto_close_target(5, 5, 10), Err(Error::InvalidAutoCloseNonce));
    assert_eq!(ensure_auto_close_target(5, 16, 10), Err(Error::AutoCloseNonceHorizonExceeded));
    assert_eq!(ensure_auto_close_target(5, 15, 10), Ok(()));
}
