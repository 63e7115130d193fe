use std::collections::HashMap;

use lib::contract::{AmountResolution, Step, StepErrorPolicy, Task, TriggerFamily};
use lib::errors::Error;
use lib::fees::{
    ensure_trigger_occurrence_capacity, maximum_contract_step_fee, pipeline_capacity_sufficient, PipelineMachineEnvelope,
    StepFeeBreakdown, TriggerFeeBreakdown,
};
use lib::geometry::ActorStepResourceEnvelope;
use lib::owner_slots::{owner_slot_is_set, remove_owner_slot_binding, set_owner_slot, OwnerSlotBitmap};
use lib::types::ActorType;
use lib::validation::ensure_control_mutation_allowed;
use lib::wakeup::{wakeup_bucket_state, WakeupBucketState};
use lib::weight::Weight;

#[test]
fn wakeup_bucket_pages() {
    assert_eq!(wakeup_bucket_state(0, 0, 10, None), None);
    assert_eq!(wakeup_bucket_state(3, 0, 0, None), None);
    assert_eq!(
        wakeup_bucket_state(3, 33, 70, Some(4)),
        Some(WakeupBucketState { head_page: 1, tail_page: 2, next_page_id: 3, live_entries: 3, cursor_index: Some(4) })
    );
    assert_eq!(
        wakeup_bucket_state(1, 31, 64, None),
        Some(WakeupBucketState { head_page: 0, tail_page: 1, next_page_id: 2, live_entries: 1, cursor_index: None })
    );
}

#[test]
fn removing_last_slot_binding_drops_bitmap() {
    let mut bitmaps: HashMap<u64, OwnerSlotBitmap> = HashMap::new();
    let mut index: HashMap<u64, u64> = HashMap::new();
    let mut b: OwnerSlotBitmap = [0u8; 32];
    set_owner_slot(&mut b, 3);
    set_owner_slot(&mut b, 200);
    bitmaps.insert(7, b);
    index.insert(1000, 1);
    index.insert(1001, 2);
    remove_owner_slot_binding(&mut bitmaps, &mut index, 7, 3, 1000);
    let kept = bitmaps.get(&7).unwrap();
    assert!(!owner_slot_is_set(kept, 3));
    assert!(owner_slot_is_set(kept, 200));
    assert_eq!(index.get(&1000), None);
    assert_eq!(index.get(&1001), Some(&2));
    remove_owner_slot_binding(&mut bitmaps, &mut index, 7, 200, 1001);
    assert!(bitmaps.get(&7).is_none());
    assert!(index.is_empty());
}

#[test]
fn trigger_occurrence_capacity_gate() {
    let fee = TriggerFeeBreakdown { trigger_family: TriggerFamily::Manual, trigger_fee: 5 };
    assert_eq!(ensure_trigger_occurrence_capacity(ActorType::User, fee, 10, 15), Ok(()));
    assert_eq!(ensure_trigger_occurrence_capacity(ActorType::User, fee, 10, 14), Err(Error::InsufficientFee));
    assert_eq!(ensure_trigger_occurrence_capacity(ActorType::System, fee, 10, 0), Ok(()));
    assert_eq!(
        ensure_trigger_occurrence_capacity(ActorType::User, fee, u128::MAX, 0),
        Err(Error::AdmissionBoundOverflow)
    );
}

#[test]
fn pipeline_capacity_from_stored_head() {
    let env = PipelineMachineEnvelope { pipeline_machine_fee_upper: 6, cleanup_fee_upper: 4 };
    assert_eq!(pipeline_capacity_sufficient(ActorType::User, Some(env), 100, 110), Ok(true));
    assert_eq!(pipeline_capacity_sufficient(ActorType::User, Some(env), 100, 109), Ok(false));
    assert_eq!(pipeline_capacity_sufficient(ActorType::User, None, 100, 109), Err(Error::ActorInvariant));
    assert_eq!(pipeline_capacity_sufficient(ActorType::System, None, 100, 0), Ok(true));
}

#[test]
fn contract_step_fee_by_cursor() {
    let transfer = Step {
        task: Task::Burn { asset: 1, amount: AmountResolution::Fixed(5) },
        on_error: StepErrorPolicy::NoRetry,
        precondition: None,
    };
    let stop = Step { task: Task::StopCycle, on_error: StepErrorPolicy::NoRetry, precondition: None };
    let steps = vec![transfer, stop];
    let env = |r: u64| ActorStepResourceEnvelope { control: Weight::from_parts(1, 1), effect: Weight::from_parts(r, 1) };
    let resources = vec![env(10), env(20)];
    assert_eq!(
        maximum_contract_step_fee(ActorType::User, &steps, Some(&resources), 0, 7),
        Ok(StepFeeBreakdown { control_fee: 0, effect_fee: 7, total_fee: 7 })
    );
    assert_eq!(
        maximum_contract_step_fee(ActorType::User, &steps, Some(&resources), 1, 7),
        Ok(StepFeeBreakdown { control_fee: 0, effect_fee: 0, total_fee: 0 })
    );
    assert_eq!(
        maximum_contract_step_fee(ActorType::System, &steps, Some(&resources), 0, 7),
        Ok(StepFeeBreakdown { control_fee: 0, effect_fee: 0, total_fee: 0 })
    );
    assert_eq!(maximum_contract_step_fee(ActorType::User, &steps, None, 0, 7), Err(Error::ActorRunInvariant));
    assert_eq!(maximum_contract_step_fee(ActorType::User, &steps, Some(&resources), 2, 7), Err(Error::ActorRunInvariant));
}

#[test]
fn control_mutation_once_per_block() {
    assert_eq!(ensure_control_mutation_allowed(9, 9), Err(Error::ControlMutationRateLimited));
    assert_eq!(ensure_control_mutation_allowed(8, 9), Ok(()));
}
