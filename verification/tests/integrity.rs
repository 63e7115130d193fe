use lib::control::MaterializationWeights;
use lib::integrity::{integrity_test, IntegrityViolation, RuntimeConfiguration};
use lib::weight::Weight;

fn wt(r: u64, p: u64) -> Weight {
    Weight::from_parts(r, p)
}

fn worker_weights() -> MaterializationWeights {
    MaterializationWeights {
        wakeup_cursor_worker_future: wt(10, 1),
        wakeup_cursor_drain_remove: wt(20, 2),
        crossing_worker_base: wt(5, 1),
        crossing_work_probe: wt(5, 1),
        crossing_pair_probes: [wt(3, 1), wt(7, 1), wt(2, 2)],
        crossing_units: [wt(1, 1); 12],
        record_crossing_worker_fault: wt(1, 1),
        observation_fanout_base: wt(4, 1),
        observation_fanout_ordinary_upper: wt(6, 2),
        record_observation_fanout_worker_fault: wt(1, 1),
    }
}

fn sound_configuration() -> RuntimeConfiguration {
    RuntimeConfiguration {
        max_consecutive_failures: 3,
        max_contract_steps: 16,
        max_retry_attempts: 10,
        target_block_time: 6,
        cadence_tick_millis: 6000,
        max_temporal_delay_ticks: 52_596_000,
        max_execution_delay_blocks: 52_596_000,
        max_opening_snapshot_entries: 32,
        min_user_balance: 100,
        fee_native_minimum_balance: 10,
        queue_page_size: 8,
        max_queue_length: 64,
        observation_page_size: 8,
        crossing_page_size: 8,
        max_active_actors: 100,
        max_crossing_members_per_feed: 50,
        max_user_crossing_members_per_feed: 40,
        max_crossing_transitions_per_feed: 4,
        max_crossing_transitions_per_block: 4,
        max_crossing_leaves_per_block: 4,
        max_crossing_pages_per_block: 4,
        max_crossing_actors_per_block: 4,
        crossing_worker_weight_limit: wt(100, 100),
        max_queue_entries_scanned_per_block: 16,
        max_observation_fanout_pages_per_block: 2,
        observation_fanout_weight_limit: wt(100, 100),
        wakeup_weight_limit: wt(100, 100),
        observation_fanout_terminal: wt(9, 1),
        on_idle_reserve: wt(1000, 1000),
        on_idle_base: wt(10, 10),
        coordinator_base: wt(10, 10),
        tombstone_drain_one: wt(10, 10),
        close_cleanup_weight_upper: wt(50, 50),
    }
}

#[test]
fn sound_configuration_passes() {
    assert_eq!(integrity_test(&sound_configuration(), &worker_weights()), Ok(()));
}

#[test]
fn horizons_round_up() {
    let mut c = sound_configuration();
    c.cadence_tick_millis = 7000;
    assert_eq!(integrity_test(&c, &worker_weights()), Err(IntegrityViolation::TemporalHorizonMismatch));
    c.max_temporal_delay_ticks = 45_082_286;
    assert_eq!(integrity_test(&c, &worker_weights()), Ok(()));
    c.target_block_time = 7;
    assert_eq!(integrity_test(&c, &worker_weights()), Err(IntegrityViolation::ExecutionHorizonMismatch));
    c.max_execution_delay_blocks = 45_082_286;
    assert_eq!(integrity_test(&c, &worker_weights()), Ok(()));
}

#[test]
fn constant_bound_violations() {
    let w = worker_weights();
    let mut c = sound_configuration();
    c.max_consecutive_failures = 0;
    assert_eq!(integrity_test(&c, &w), Err(IntegrityViolation::ZeroConsecutiveFailures));
    let mut c = sound_configuration();
    c.max_contract_steps = 256;
    assert_eq!(integrity_test(&c, &w), Err(IntegrityViolation::ContractStepsOutOfRange));
    let mut c = sound_configuration();
    c.max_retry_attempts = 9;
    assert_eq!(integrity_test(&c, &w), Err(IntegrityViolation::RetryAttemptsNotFixed));
    let mut c = sound_configuration();
    c.max_opening_snapshot_entries = 31;
    assert_eq!(integrity_test(&c, &w), Err(IntegrityViolation::OpeningSnapshotEntriesMismatch));
    let mut c = sound_configuration();
    c.min_user_balance = 9;
    assert_eq!(integrity_test(&c, &w), Err(IntegrityViolation::MinUserBalanceTooLow));
    let mut c = sound_configuration();
    c.queue_page_size = 64;
    assert_eq!(integrity_test(&c, &w), Err(IntegrityViolation::QueuePageNotIntermediate));
    let mut c = sound_configuration();
    c.max_user_crossing_members_per_feed = 50;
    assert_eq!(integrity_test(&c, &w), Err(IntegrityViolation::UserCrossingMembersOutOfRange));
    let mut c = sound_configuration();
    c.max_crossing_pages_per_block = 0;
    assert_eq!(integrity_test(&c, &w), Err(IntegrityViolation::ZeroCrossingBlockCap));
}

#[test]
fn weight_bound_violations() {
    let w = worker_weights();
    let mut c = sound_configuration();
    c.observation_fanout_weight_limit = wt(12, 100);
    assert_eq!(integrity_test(&c, &w), Err(IntegrityViolation::FanoutUnitExceedsLimit));
    c.observation_fanout_weight_limit = wt(13, 100);
    assert_eq!(integrity_test(&c, &w), Ok(()));
    let mut c = sound_configuration();
    c.crossing_worker_weight_limit = wt(17, 100);
    assert_eq!(integrity_test(&c, &w), Err(IntegrityViolation::CrossingUnitExceedsLimit));
    let mut c = sound_configuration();
    c.wakeup_weight_limit = wt(100, 0);
    assert_eq!(integrity_test(&c, &w), Err(IntegrityViolation::ZeroWakeupWeightLimit));
    let mut c = sound_configuration();
    c.on_idle_reserve = wt(329, 1000);
    assert_eq!(integrity_test(&c, &w), Err(IntegrityViolation::ActorServiceReserveTooSmall));
    let mut c = sound_configuration();
    c.close_cleanup_weight_upper = wt(671, 1);
    assert_eq!(integrity_test(&c, &w), Err(IntegrityViolation::CleanupExceedsActorService));
    c.close_cleanup_weight_upper = wt(670, 1);
    assert_eq!(integrity_test(&c, &w), Ok(()));
}
