use std::collections::HashMap;

use lib::contract::{AmountResolution, Task, TriggerFamily};
use lib::control::{
    materialization_family_has_work, materialization_family_minimum, trigger_occurrence_weight, weight_upper_bound,
    MaterializationWeights, MaterializationWorkState, TaskWeights, TriggerWeights,
};
use lib::deadline_carrier::{
    classify_next_due_block_deadline, classify_next_due_tick_deadline, plan_deadline_destination, DeadlineHandle,
    DeadlineMutationError, DeadlinePage, DueDeadlineBranch, TriggerDeadlineHandle,
};
use lib::deadline_index::{DeadlineHeader, WakeupKey};
use lib::due_deadlines::{process_next_due_tick_deadline, DependencyReviewWorkerError, DueTickWeights, DueTickWork};
use lib::dependency_review::{
    interpret_observation_availability, validate_dependency_registration, CanonicalObservationState,
    DependencyRegistrationError, DependencyRegistrationHandle, DependencyReviewInterpretation, DependencyRevisionState,
    DependencyTimedReview, PendingCheckOwner, SourceReading,
};
use lib::service_ring::{ActorProcess, ActorRef, ProcessResidence, ProcessStatus};
use lib::weight::Weight;

fn w(r: u64, p: u64) -> Weight {
    Weight::from_parts(r, p)
}

fn actor(id: u64) -> ActorRef {
    ActorRef { actor_id: id, generation: 3 }
}

fn page(occupied: &[usize], next_page: Option<u64>) -> DeadlinePage {
    let mut entries = vec![None; 32];
    for s in occupied {
        entries[*s] = Some(actor(100 + *s as u64));
    }
    DeadlinePage { previous_page: None, next_page, live_entries: occupied.len() as u32, entries }
}

fn header(first: u64, last: u64, next: u64, pages: u32) -> DeadlineHeader {
    DeadlineHeader { count: 1, page_count: pages, first_page: first, last_page: last, next_page: next }
}

fn process(residence: ProcessResidence) -> ActorProcess {
    ActorProcess { generation: 3, last_attempted: None, status: ProcessStatus::Serving, residence: Some(residence) }
}

#[test]
fn family_minimums() {
    let mut units = [w(0, 0); 12];
    units[4] = w(9, 1);
    units[7] = w(2, 8);
    let weights = MaterializationWeights {
        wakeup_cursor_worker_future: w(5, 1),
        wakeup_cursor_drain_remove: w(3, 3),
        crossing_worker_base: w(10, 10),
        crossing_work_probe: w(1, 1),
        crossing_pair_probes: [w(4, 0), w(0, 6), w(2, 2)],
        crossing_units: units,
        record_crossing_worker_fault: w(1, 1),
        observation_fanout_base: w(7, 7),
        observation_fanout_ordinary_upper: w(2, 3),
        record_observation_fanout_worker_fault: w(1, 0),
    };
    assert_eq!(materialization_family_minimum(0, &weights), w(13, 5));
    assert_eq!(materialization_family_minimum(1, &weights), w(25, 26));
    assert_eq!(materialization_family_minimum(2, &weights), w(10, 10));
    assert_eq!(materialization_family_minimum(3, &weights), w(0, 0));
}

#[test]
fn family_work_detection() {
    let state = MaterializationWorkState {
        wakeup_worker_faulted: false,
        now_tick: Some(50),
        block_cursor_head: Some(WakeupKey::Block(12)),
        tick_cursor_head: Some(WakeupKey::Tick(60)),
        crossing_worker_faulted: true,
        crossing_pending_feeds: 3,
        observation_fanout_worker_faulted: false,
        dirty_observations: 0,
    };
    assert!(!materialization_family_has_work(0, 11, &state));
    assert!(materialization_family_has_work(0, 12, &state));
    assert!(!materialization_family_has_work(0, 12, &MaterializationWorkState { now_tick: None, ..state }));
    assert!(materialization_family_has_work(0, 0, &MaterializationWorkState { now_tick: Some(60), ..state }));
    assert!(!materialization_family_has_work(1, 12, &state));
    assert!(!materialization_family_has_work(2, 12, &state));
    assert!(materialization_family_has_work(2, 12, &MaterializationWorkState { dirty_observations: 1, ..state }));
    assert!(!materialization_family_has_work(7, 12, &state));
}

#[test]
fn task_and_trigger_weights_by_class() {
    let t = TaskWeights {
        transfer: w(1, 0),
        burn: w(2, 0),
        mint: w(3, 0),
        dex_exact_in: w(4, 0),
        dex_exact_out: w(5, 0),
        add_liquidity: w(6, 0),
        remove_liquidity: w(7, 0),
        stake: w(8, 0),
        donate_liquidity: w(9, 0),
        unstake: w(10, 0),
        stop_cycle: w(11, 0),
    };
    let mint = Task::Mint { asset: 1, amount: AmountResolution::Fixed(5) };
    assert_eq!(weight_upper_bound(&mint, &t, w(99, 0)), w(3, 0));
    let split = Task::SplitTransfer { asset: 1, amount: AmountResolution::Fixed(5), legs: vec![] };
    assert_eq!(weight_upper_bound(&split, &t, w(99, 0)), w(99, 0));
    assert_eq!(weight_upper_bound(&Task::StopCycle, &t, w(99, 0)), w(11, 0));
    let tw = TriggerWeights {
        manual: w(1, 1),
        address_event: w(2, 2),
        observation_change: w(3, 3),
        observation_crossing: w(4, 4),
        at_time: w(5, 5),
        cadenced: w(6, 6),
    };
    assert_eq!(trigger_occurrence_weight(TriggerFamily::ObservationCrossing, &tw), w(4, 4));
    assert_eq!(trigger_occurrence_weight(TriggerFamily::Cadenced, &tw), w(6, 6));
}

#[test]
fn destination_of_a_new_bucket() {
    let key = WakeupKey::Block(40);
    assert_eq!(
        plan_deadline_destination(actor(1), key, None, &HashMap::new()),
        Ok(DeadlineHandle { actor: actor(1), key, page: 0, slot: 0 })
    );
}

#[test]
fn destination_is_first_free_slot_along_the_chain() {
    let key = WakeupKey::Block(40);
    let full: Vec<usize> = (0..32).collect();
    let mut pages = HashMap::new();
    pages.insert(3, page(&full, Some(8)));
    pages.insert(8, page(&[0, 1, 5], None));
    assert_eq!(
        plan_deadline_destination(actor(1), key, Some(header(3, 8, 9, 2)), &pages),
        Ok(DeadlineHandle { actor: actor(1), key, page: 8, slot: 2 })
    );
    let mut full_pages = HashMap::new();
    full_pages.insert(3, page(&full, Some(8)));
    full_pages.insert(8, page(&full, None));
    assert_eq!(
        plan_deadline_destination(actor(1), key, Some(header(3, 8, 9, 2)), &full_pages),
        Ok(DeadlineHandle { actor: actor(1), key, page: 9, slot: 0 })
    );
}

#[test]
fn destination_refuses_corrupt_chains() {
    let key = WakeupKey::Tick(7);
    let full: Vec<usize> = (0..32).collect();
    let mut pages = HashMap::new();
    pages.insert(3, page(&full, None));
    assert_eq!(
        plan_deadline_destination(actor(1), key, Some(header(3, 8, 9, 2)), &pages),
        Err(DeadlineMutationError::CorruptCarrier)
    );
    assert_eq!(
        plan_deadline_destination(actor(1), key, Some(header(3, 4, 9, 1)), &pages),
        Err(DeadlineMutationError::CorruptCarrier)
    );
    let mut short = HashMap::new();
    short.insert(3, DeadlinePage { previous_page: None, next_page: None, live_entries: 0, entries: vec![None; 31] });
    assert_eq!(
        plan_deadline_destination(actor(1), key, Some(header(3, 3, 4, 1)), &short),
        Err(DeadlineMutationError::CorruptCarrier)
    );
    assert_eq!(
        plan_deadline_destination(actor(1), key, Some(header(3, 3, 4, 0)), &pages),
        Err(DeadlineMutationError::CorruptCarrier)
    );
}

#[test]
fn due_block_member_classification() {
    let key = WakeupKey::Block(10);
    let mut pages = HashMap::new();
    pages.insert(0, page(&[4, 9], None));
    let h = Some(header(0, 0, 1, 1));
    let mut processes = HashMap::new();
    processes.insert(104, process(ProcessResidence::Deadline { key: WakeupKey::Block(10), page: 0, slot: 4 }));
    assert_eq!(
        classify_next_due_block_deadline(10, Some(key), h, &pages, &processes),
        Ok(DueDeadlineBranch::Retry(actor(104)))
    );
    processes.insert(104, process(ProcessResidence::Parked));
    assert_eq!(
        classify_next_due_block_deadline(12, Some(key), h, &pages, &processes),
        Ok(DueDeadlineBranch::Review(actor(104)))
    );
    assert_eq!(
        classify_next_due_block_deadline(9, Some(key), h, &pages, &processes),
        Err(DeadlineMutationError::InvalidDestination)
    );
    assert_eq!(
        classify_next_due_block_deadline(12, None, h, &pages, &processes),
        Err(DeadlineMutationError::MemberMissing)
    );
    assert_eq!(
        classify_next_due_block_deadline(12, Some(key), None, &pages, &processes),
        Err(DeadlineMutationError::CorruptCarrier)
    );
    assert_eq!(
        classify_next_due_block_deadline(12, Some(key), h, &pages, &HashMap::new()),
        Err(DeadlineMutationError::ProcessMissing)
    );
}

#[test]
fn due_tick_member_classification() {
    let key = WakeupKey::Tick(70);
    let mut pages = HashMap::new();
    pages.insert(5, page(&[1], None));
    let h = Some(header(5, 5, 6, 1));
    let mut processes = HashMap::new();
    processes.insert(101, process(ProcessResidence::Parked));
    let mut handles = HashMap::new();
    assert_eq!(
        classify_next_due_tick_deadline(70, Some(key), h, &pages, &handles, &processes),
        Ok(DueDeadlineBranch::Review(actor(101)))
    );
    handles.insert(101, TriggerDeadlineHandle { actor: actor(101), key });
    assert_eq!(
        classify_next_due_tick_deadline(70, Some(key), h, &pages, &handles, &processes),
        Ok(DueDeadlineBranch::TemporalTrigger(actor(101)))
    );
    handles.insert(101, TriggerDeadlineHandle { actor: actor(101), key: WakeupKey::Tick(71) });
    processes.insert(101, process(ProcessResidence::Parked));
    assert_eq!(
        classify_next_due_tick_deadline(70, Some(key), h, &pages, &handles, &processes),
        Ok(DueDeadlineBranch::Review(actor(101)))
    );
    processes.insert(101, ActorProcess { residence: None, ..process(ProcessResidence::Deadline { key: WakeupKey::Block(10), page: 0, slot: 4 }) });
    assert_eq!(
        classify_next_due_tick_deadline(70, Some(key), h, &pages, &handles, &processes),
        Err(DeadlineMutationError::ProcessResidenceMismatch)
    );
    assert_eq!(
        classify_next_due_tick_deadline(70, Some(WakeupKey::Block(1)), h, &pages, &handles, &processes),
        Err(DeadlineMutationError::InvalidDestination)
    );
}

#[test]
fn registration_validation() {
    let owner = PendingCheckOwner { actor: actor(1), plan_revision: 4 };
    let state = DependencyRevisionState { revision: 10, exhausted: false, scan_target: None, scan_cursor: 0, scan_end: 0 };
    assert_eq!(
        validate_dependency_registration(owner, Some(owner), state, 10),
        Ok(DependencyRegistrationHandle { actor: actor(1), plan_revision: 4, acknowledged_revision: 10 })
    );
    assert_eq!(validate_dependency_registration(owner, None, state, 1), Err(DependencyRegistrationError::PendingOwnerMissing));
    assert_eq!(
        validate_dependency_registration(owner, Some(PendingCheckOwner { plan_revision: 5, ..owner }), state, 1),
        Err(DependencyRegistrationError::PendingOwnerMismatch)
    );
    assert_eq!(
        validate_dependency_registration(owner, Some(owner), DependencyRevisionState { exhausted: true, ..state }, 1),
        Err(DependencyRegistrationError::SourceExhausted)
    );
    assert_eq!(validate_dependency_registration(owner, Some(owner), state, 11), Err(DependencyRegistrationError::RevisionFromFuture));
}

#[test]
fn availability_review_interpretation() {
    assert_eq!(
        interpret_observation_availability(&vec![SourceReading::Observed(CanonicalObservationState::Available), SourceReading::Observed(CanonicalObservationState::Available)]),
        Ok(DependencyReviewInterpretation::Positive)
    );
    assert_eq!(interpret_observation_availability(&vec![]), Ok(DependencyReviewInterpretation::Positive));
    assert_eq!(
        interpret_observation_availability(&vec![SourceReading::Observed(CanonicalObservationState::Unavailable), SourceReading::Observed(CanonicalObservationState::Available)]),
        Ok(DependencyReviewInterpretation::Negative)
    );
    assert_eq!(
        interpret_observation_availability(&vec![SourceReading::Observed(CanonicalObservationState::Unavailable), SourceReading::Observed(CanonicalObservationState::Uninitialized)]),
        Err(DependencyRegistrationError::SourceUninitialized)
    );
    assert_eq!(
        interpret_observation_availability(&vec![SourceReading::MappingMismatch, SourceReading::Observed(CanonicalObservationState::Uninitialized)]),
        Err(DependencyRegistrationError::StoredPlanMismatch)
    );
}

#[test]
fn due_tick_work_selection() {
    let key = WakeupKey::Tick(70);
    let mut pages = HashMap::new();
    pages.insert(5, page(&[1], None));
    let h = Some(header(5, 5, 6, 1));
    let mut processes = HashMap::new();
    processes.insert(101, process(ProcessResidence::Parked));
    let mut triggers = HashMap::new();
    let mut reviews = HashMap::new();
    let mut handles = HashMap::new();
    let weights = DueTickWeights { classify: w(10, 1), at_time_occurrence: w(30, 1), cadenced_occurrence: w(20, 5), review: w(40, 1) };
    let mut meter = w(5, 5);
    assert_eq!(
        process_next_due_tick_deadline(&mut meter, weights, 70, Some(key), h, &pages, &triggers, &processes, &reviews, &handles),
        Err(DependencyReviewWorkerError::InsufficientWeight)
    );
    assert_eq!(meter, w(5, 5));
    let owner = PendingCheckOwner { actor: actor(101), plan_revision: 1 };
    let review = DependencyTimedReview { owner, deadline: key };
    reviews.insert(101, review);
    handles.insert(101, DeadlineHandle { actor: actor(101), key, page: 5, slot: 1 });
    let mut meter = w(100, 100);
    assert_eq!(
        process_next_due_tick_deadline(&mut meter, weights, 70, Some(key), h, &pages, &triggers, &processes, &reviews, &handles),
        Ok(DueTickWork::Review { actor: actor(101), expected: review })
    );
    assert_eq!(meter, w(90, 99));
    triggers.insert(101, TriggerDeadlineHandle { actor: actor(101), key });
    let mut meter = w(100, 100);
    assert_eq!(
        process_next_due_tick_deadline(&mut meter, weights, 70, Some(key), h, &pages, &triggers, &processes, &reviews, &handles),
        Ok(DueTickWork::TemporalTrigger(actor(101)))
    );
    assert_eq!(meter, w(60, 94));
    let mut meter = w(100, 100);
    assert_eq!(
        process_next_due_tick_deadline(&mut meter, weights, 69, Some(key), h, &pages, &triggers, &processes, &reviews, &handles),
        Err(DependencyReviewWorkerError::Deadline(DeadlineMutationError::InvalidDestination))
    );
    assert_eq!(meter, w(90, 99));
}
