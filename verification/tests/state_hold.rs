use lib::errors::Error;
use lib::state_hold::{
    actor_state_hold_quote, derive_actor_state_hold, plan_state_hold_reconciliation, release_is_exact,
    state_hold_component, state_hold_total, ActiveStateBytes, ActorCostQuoteError, ActorStateHoldBreakdown,
    ActorStateHoldRecord, HoldAdjustment, StateHoldReconciliation,
};
use lib::types::ActorType;

fn breakdown(identity: u128, head: u128, body: u128, detector: u128, run: u128) -> ActorStateHoldBreakdown {
    ActorStateHoldBreakdown { identity, contract_head: head, contract_body: body, detector, run }
}

#[test]
fn hold_components_and_total() {
    assert_eq!(state_hold_component(0, 3, 100), Ok(0));
    assert_eq!(state_hold_component(10, 3, 100), Ok(130));
    assert_eq!(state_hold_component(10, u128::MAX, 0), Err(Error::StateHoldOverflow));
    assert_eq!(state_hold_total(&breakdown(1, 2, 3, 4, 5)), Ok(15));
    assert_eq!(state_hold_total(&breakdown(u128::MAX, 1, 0, 0, 0)), Err(Error::StateHoldOverflow));
}

#[test]
fn derived_hold_by_actor_state() {
    let active = ActiveStateBytes { contract_head: 2, contract_body: 0, detector: 1, run: 4 };
    assert_eq!(derive_actor_state_hold(ActorType::System, 8, Some(active), 100, 3), Ok(breakdown(0, 0, 0, 0, 0)));
    assert_eq!(derive_actor_state_hold(ActorType::User, 8, None, 100, 3), Ok(breakdown(124, 0, 0, 0, 0)));
    assert_eq!(derive_actor_state_hold(ActorType::User, 8, Some(active), 100, 3), Ok(breakdown(124, 106, 0, 103, 112)));
}

#[test]
fn hold_quote_needs_matching_record() {
    let b = breakdown(1, 2, 3, 4, 5);
    let q = actor_state_hold_quote(ActorType::User, Some(b), 100, 3).unwrap();
    assert_eq!(q.total, 15);
    assert!(!q.exempt);
    assert_eq!(actor_state_hold_quote(ActorType::User, None, 100, 3), Err(ActorCostQuoteError::ActorInvariant));
    assert_eq!(actor_state_hold_quote(ActorType::System, Some(b), 100, 3), Err(ActorCostQuoteError::ActorInvariant));
    let exempt = actor_state_hold_quote(ActorType::System, None, 100, 3).unwrap();
    assert!(exempt.exempt);
    assert_eq!(exempt.total, 0);
    assert_eq!(
        actor_state_hold_quote(ActorType::User, Some(breakdown(u128::MAX, 1, 0, 0, 0)), 100, 3),
        Err(ActorCostQuoteError::ComputationOverflow)
    );
}

#[test]
fn hold_reconciliation_plans() {
    let small = ActorStateHoldRecord { owner: 9, breakdown: breakdown(10, 0, 0, 0, 0) };
    let large = ActorStateHoldRecord { owner: 9, breakdown: breakdown(10, 5, 0, 0, 0) };
    assert_eq!(plan_state_hold_reconciliation(None, None), Ok(StateHoldReconciliation::Unchanged));
    assert_eq!(plan_state_hold_reconciliation(Some(small), Some(small)), Ok(StateHoldReconciliation::Unchanged));
    assert_eq!(
        plan_state_hold_reconciliation(Some(small), Some(large)),
        Ok(StateHoldReconciliation::Adjust { adjustment: HoldAdjustment::Hold { owner: 9, amount: 5 }, record: Some(large) })
    );
    assert_eq!(
        plan_state_hold_reconciliation(Some(large), Some(small)),
        Ok(StateHoldReconciliation::Adjust { adjustment: HoldAdjustment::Release { owner: 9, amount: 5 }, record: Some(small) })
    );
    assert_eq!(
        plan_state_hold_reconciliation(Some(large), None),
        Ok(StateHoldReconciliation::Adjust { adjustment: HoldAdjustment::Release { owner: 9, amount: 15 }, record: None })
    );
    let moved = ActorStateHoldRecord { owner: 8, ..small };
    assert_eq!(plan_state_hold_reconciliation(Some(small), Some(moved)), Err(Error::StateHoldInvariant));
    let swapped = ActorStateHoldRecord { owner: 9, breakdown: breakdown(5, 10, 0, 0, 0) };
    assert_eq!(
        plan_state_hold_reconciliation(Some(large), Some(swapped)),
        Ok(StateHoldReconciliation::Adjust { adjustment: HoldAdjustment::NoMovement, record: Some(swapped) })
    );
    let huge = ActorStateHoldRecord { owner: 9, breakdown: breakdown(u128::MAX, 1, 0, 0, 0) };
    assert_eq!(plan_state_hold_reconciliation(Some(small), Some(huge)), Err(Error::StateHoldOverflow));
    assert_eq!(release_is_exact(5, 5), Ok(()));
    assert_eq!(release_is_exact(4, 5), Err(Error::StateHoldInvariant));
}
