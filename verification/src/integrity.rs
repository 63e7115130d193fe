//! The runtime configuration's integrity: every bound the pallet relies on, checked once
//! against the configured constants and weights.
use vstd::prelude::*;

use crate::control::{
    guaranteed_actor_service_weight, materialization_family_minimum, materialization_weight_limit, spec_family_minimum,
    spec_max_of, spec_max_w, spec_sat_add_w, MaterializationWeights,
};
use crate::types::{Balance, BlockNumber};
use crate::validation::contract_steps_bound_is_valid;
use crate::weight::{spec_checked_sub, spec_then_sub, Weight};

verus! {

/// Milliseconds in ten Julian years.
pub const TEN_JULIAN_YEARS_MILLIS: u64 = 315_576_000_000;

/// Seconds in ten Julian years.
pub const TEN_JULIAN_YEARS_SECONDS: u64 = 315_576_000;

/// The configured constants and weights the integrity check reads.
#[derive(Clone, Copy, Debug, PartialEq, Eq)]
pub struct RuntimeConfiguration {
    pub max_consecutive_failures: u32,
    pub max_contract_steps: u32,
    pub max_retry_attempts: u32,
    pub target_block_time: u64,
    pub cadence_tick_millis: u64,
    pub max_temporal_delay_ticks: u64,
    pub max_execution_delay_blocks: BlockNumber,
    pub max_opening_snapshot_entries: u32,
    pub min_user_balance: Balance,
    /// The minimum balance of the fee-native asset.
    pub fee_native_minimum_balance: Balance,
    pub queue_page_size: u32,
    pub max_queue_length: u32,
    pub observation_page_size: u32,
    pub crossing_page_size: u32,
    pub max_active_actors: u32,
    pub max_crossing_members_per_feed: u32,
    pub max_user_crossing_members_per_feed: u32,
    pub max_crossing_transitions_per_feed: u32,
    pub max_crossing_transitions_per_block: u32,
    pub max_crossing_leaves_per_block: u32,
    pub max_crossing_pages_per_block: u32,
    pub max_crossing_actors_per_block: u32,
    pub crossing_worker_weight_limit: Weight,
    pub max_queue_entries_scanned_per_block: u32,
    pub max_observation_fanout_pages_per_block: u32,
    pub observation_fanout_weight_limit: Weight,
    pub wakeup_weight_limit: Weight,
    pub observation_fanout_terminal: Weight,
    pub on_idle_reserve: Weight,
    pub on_idle_base: Weight,
    pub coordinator_base: Weight,
    pub tombstone_drain_one: Weight,
    /// Upper weight of one automatic close cleanup.
    pub close_cleanup_weight_upper: Weight,
}

/// The first configuration bound that does not hold.
#[derive(Clone, Copy, Debug, PartialEq, Eq, Structural)]
pub enum IntegrityViolation {
    ZeroConsecutiveFailures,
    ContractStepsOutOfRange,
    RetryAttemptsNotFixed,
    PlanRetryOverflow,
    ZeroTargetBlockTime,
    ZeroCadenceTick,
    TemporalHorizonMismatch,
    ExecutionHorizonMismatch,
    OpeningSnapshotEntriesMismatch,
    MinUserBalanceTooLow,
    ZeroQueuePageSize,
    QueuePageNotIntermediate,
    ZeroObservationPageSize,
    ZeroCrossingPageSize,
    CrossingMembersOutOfRange,
    UserCrossingMembersOutOfRange,
    ZeroCrossingTransitionsPerFeed,
    ZeroCrossingBlockCap,
    ZeroCrossingWeightLimit,
    QueueScanCeilingOutOfRange,
    ZeroFanoutPageCeiling,
    ZeroFanoutWeightLimit,
    FanoutUnitExceedsLimit,
    CrossingUnitExceedsLimit,
    ZeroWakeupWeightLimit,
    WakeupUnitExceedsLimit,
    MaterializationMinimumsExceedLimit,
    ActorServiceReserveTooSmall,
    CleanupExceedsActorService,
}

/// `a / b` rounded up.
pub open spec fn ceil_div(a: u64, b: u64) -> u64 {
    if b == 0 {
        0
    } else {
        ((a + b - 1) / b as int) as u64
    }
}

/// Both components of `w` are non-zero.
pub open spec fn nonzero_both(w: Weight) -> bool {
    w.ref_time > 0 && w.proof_size > 0
}

/// One complete observation-fanout page unit.
pub open spec fn fanout_unit(c: RuntimeConfiguration, w: MaterializationWeights) -> Weight {
    spec_sat_add_w(w.observation_fanout_base, spec_max_w(w.observation_fanout_ordinary_upper, c.observation_fanout_terminal))
}

/// One complete maximum crossing unit.
pub open spec fn crossing_unit(w: MaterializationWeights) -> Weight {
    spec_sat_add_w(
        spec_sat_add_w(
            spec_sat_add_w(w.crossing_worker_base, w.crossing_work_probe),
            spec_max_of(w.crossing_pair_probes@, 3),
        ),
        spec_max_of(w.crossing_units@, 12),
    )
}

/// One complete maximum wakeup unit.
pub open spec fn wakeup_unit(w: MaterializationWeights) -> Weight {
    spec_sat_add_w(w.wakeup_cursor_worker_future, w.wakeup_cursor_drain_remove)
}

/// The minimum quanta of all three materialization families.
pub open spec fn minimum_quanta(w: MaterializationWeights) -> Weight {
    spec_sat_add_w(spec_sat_add_w(spec_family_minimum(0, w), spec_family_minimum(1, w)), spec_family_minimum(2, w))
}

/// The weight left for Actor service, if the idle reserve covers the housekeeping.
pub open spec fn actor_service(c: RuntimeConfiguration) -> Option<Weight> {
    spec_then_sub(
        spec_then_sub(
            spec_then_sub(spec_checked_sub(c.on_idle_reserve, c.on_idle_base), c.coordinator_base),
            c.tombstone_drain_one,
        ),
        spec_sat_add_w(spec_sat_add_w(c.wakeup_weight_limit, c.crossing_worker_weight_limit), c.observation_fanout_weight_limit),
    )
}

/// The bounds on counts and constants, in the order they are checked.
pub open spec fn constant_violation(c: RuntimeConfiguration) -> Option<IntegrityViolation> {
    if c.max_consecutive_failures == 0 {
        Some(IntegrityViolation::ZeroConsecutiveFailures)
    } else if !(0 < c.max_contract_steps <= 255) {
        Some(IntegrityViolation::ContractStepsOutOfRange)
    } else if c.max_retry_attempts != 10 {
        Some(IntegrityViolation::RetryAttemptsNotFixed)
    } else if c.max_contract_steps * c.max_retry_attempts > u32::MAX {
        Some(IntegrityViolation::PlanRetryOverflow)
    } else if c.target_block_time == 0 {
        Some(IntegrityViolation::ZeroTargetBlockTime)
    } else if c.cadence_tick_millis == 0 {
        Some(IntegrityViolation::ZeroCadenceTick)
    } else if c.max_temporal_delay_ticks != ceil_div(TEN_JULIAN_YEARS_MILLIS, c.cadence_tick_millis) {
        Some(IntegrityViolation::TemporalHorizonMismatch)
    } else if c.max_execution_delay_blocks as u64 != ceil_div(TEN_JULIAN_YEARS_SECONDS, c.target_block_time) {
        Some(IntegrityViolation::ExecutionHorizonMismatch)
    } else if c.max_opening_snapshot_entries != c.max_contract_steps * 2 {
        Some(IntegrityViolation::OpeningSnapshotEntriesMismatch)
    } else if c.min_user_balance < c.fee_native_minimum_balance {
        Some(IntegrityViolation::MinUserBalanceTooLow)
    } else if c.queue_page_size == 0 {
        Some(IntegrityViolation::ZeroQueuePageSize)
    } else if c.queue_page_size >= c.max_queue_length {
        Some(IntegrityViolation::QueuePageNotIntermediate)
    } else if c.observation_page_size == 0 {
        Some(IntegrityViolation::ZeroObservationPageSize)
    } else if c.crossing_page_size == 0 {
        Some(IntegrityViolation::ZeroCrossingPageSize)
    } else if !(0 < c.max_crossing_members_per_feed <= c.max_active_actors) {
        Some(IntegrityViolation::CrossingMembersOutOfRange)
    } else if !(0 < c.max_user_crossing_members_per_feed < c.max_crossing_members_per_feed) {
        Some(IntegrityViolation::UserCrossingMembersOutOfRange)
    } else if c.max_crossing_transitions_per_feed == 0 {
        Some(IntegrityViolation::ZeroCrossingTransitionsPerFeed)
    } else if c.max_crossing_transitions_per_block == 0 || c.max_crossing_leaves_per_block == 0
        || c.max_crossing_pages_per_block == 0 || c.max_crossing_actors_per_block == 0 {
        Some(IntegrityViolation::ZeroCrossingBlockCap)
    } else {
        None
    }
}

/// The first configuration bound that does not hold, if any.
pub open spec fn first_violation(c: RuntimeConfiguration, w: MaterializationWeights) -> Option<IntegrityViolation> {
    if constant_violation(c) is Some {
        constant_violation(c)
    } else if !nonzero_both(c.crossing_worker_weight_limit) {
        Some(IntegrityViolation::ZeroCrossingWeightLimit)
    } else if !(0 < c.max_queue_entries_scanned_per_block <= c.max_queue_length) {
        Some(IntegrityViolation::QueueScanCeilingOutOfRange)
    } else if c.max_observation_fanout_pages_per_block == 0 {
        Some(IntegrityViolation::ZeroFanoutPageCeiling)
    } else if !nonzero_both(c.observation_fanout_weight_limit) {
        Some(IntegrityViolation::ZeroFanoutWeightLimit)
    } else if !fanout_unit(c, w).spec_all_lte(c.observation_fanout_weight_limit) {
        Some(IntegrityViolation::FanoutUnitExceedsLimit)
    } else if !crossing_unit(w).spec_all_lte(c.crossing_worker_weight_limit) {
        Some(IntegrityViolation::CrossingUnitExceedsLimit)
    } else if !nonzero_both(c.wakeup_weight_limit) {
        Some(IntegrityViolation::ZeroWakeupWeightLimit)
    } else if !wakeup_unit(w).spec_all_lte(c.wakeup_weight_limit) {
        Some(IntegrityViolation::WakeupUnitExceedsLimit)
    } else if !minimum_quanta(w).spec_all_lte(
        spec_sat_add_w(spec_sat_add_w(c.wakeup_weight_limit, c.crossing_worker_weight_limit), c.observation_fanout_weight_limit),
    ) {
        Some(IntegrityViolation::MaterializationMinimumsExceedLimit)
    } else if actor_service(c) is None {
        Some(IntegrityViolation::ActorServiceReserveTooSmall)
    } else if !c.close_cleanup_weight_upper.spec_all_lte(actor_service(c)->Some_0) {
        Some(IntegrityViolation::CleanupExceedsActorService)
    } else {
        None
    }
}

fn div_ceil(a: u64, b: u64) -> (r: u64)
    requires
        b > 0,
    ensures
        r == ceil_div(a, b),
{
    let q = a / b;
    let rem = a % b;
    proof {
        assert(a == q * b + rem) by (nonlinear_arith)
            requires
                q == a / b,
                rem == a % b,
                b > 0,
        ;
        assert(q <= a) by (nonlinear_arith)
            requires
                q == a / b,
                b > 0,
        ;
        if rem == 0 {
            assert((a + b - 1) / b as int == q) by (nonlinear_arith)
                requires
                    a == q * b,
                    b > 0,
            ;
        } else {
            assert((a + b - 1) / b as int == q + 1) by (nonlinear_arith)
                requires
                    a == q * b + rem,
                    0 < rem < b,
            ;
        }
    }
    if rem == 0 {
        q
    } else {
        assert(q < u64::MAX) by (nonlinear_arith)
            requires
                q == a / b,
                b > 0,
                rem != 0,
                rem == a % b,
        ;
        q + 1
    }
}

fn check_constants(c: &RuntimeConfiguration) -> (r: Result<(), IntegrityViolation>)
    ensures
        r == match constant_violation(*c) {
            Some(v) => Err(v),
            None => Ok::<(), IntegrityViolation>(()),
        },
{
    if c.max_consecutive_failures == 0 {
        return Err(IntegrityViolation::ZeroConsecutiveFailures);
    }
    if !contract_steps_bound_is_valid(c.max_contract_steps) {
        return Err(IntegrityViolation::ContractStepsOutOfRange);
    }
    if c.max_retry_attempts != 10 {
        return Err(IntegrityViolation::RetryAttemptsNotFixed);
    }
    if c.max_contract_steps.checked_mul(c.max_retry_attempts).is_none() {
        return Err(IntegrityViolation::PlanRetryOverflow);
    }
    if c.target_block_time == 0 {
        return Err(IntegrityViolation::ZeroTargetBlockTime);
    }
    if c.cadence_tick_millis == 0 {
        return Err(IntegrityViolation::ZeroCadenceTick);
    }
    if c.max_temporal_delay_ticks != div_ceil(TEN_JULIAN_YEARS_MILLIS, c.cadence_tick_millis) {
        return Err(IntegrityViolation::TemporalHorizonMismatch);
    }
    if c.max_execution_delay_blocks as u64 != div_ceil(TEN_JULIAN_YEARS_SECONDS, c.target_block_time) {
        return Err(IntegrityViolation::ExecutionHorizonMismatch);
    }
    if c.max_opening_snapshot_entries != c.max_contract_steps * 2 {
        return Err(IntegrityViolation::OpeningSnapshotEntriesMismatch);
    }
    if c.min_user_balance < c.fee_native_minimum_balance {
        return Err(IntegrityViolation::MinUserBalanceTooLow);
    }
    if c.queue_page_size == 0 {
        return Err(IntegrityViolation::ZeroQueuePageSize);
    }
    if c.queue_page_size >= c.max_queue_length {
        return Err(IntegrityViolation::QueuePageNotIntermediate);
    }
    if c.observation_page_size == 0 {
        return Err(IntegrityViolation::ZeroObservationPageSize);
    }
    if c.crossing_page_size == 0 {
        return Err(IntegrityViolation::ZeroCrossingPageSize);
    }
    if !(c.max_crossing_members_per_feed > 0 && c.max_crossing_members_per_feed <= c.max_active_actors) {
        return Err(IntegrityViolation::CrossingMembersOutOfRange);
    }
    if !(c.max_user_crossing_members_per_feed > 0 && c.max_user_crossing_members_per_feed
        < c.max_crossing_members_per_feed) {
        return Err(IntegrityViolation::UserCrossingMembersOutOfRange);
    }
    if c.max_crossing_transitions_per_feed == 0 {
        return Err(IntegrityViolation::ZeroCrossingTransitionsPerFeed);
    }
    if c.max_crossing_transitions_per_block == 0 || c.max_crossing_leaves_per_block == 0
        || c.max_crossing_pages_per_block == 0 || c.max_crossing_actors_per_block == 0 {
        return Err(IntegrityViolation::ZeroCrossingBlockCap);
    }
    Ok(())
}

fn weight_nonzero(w: Weight) -> (r: bool)
    ensures
        r == nonzero_both(w),
{
    w.ref_time > 0 && w.proof_size > 0
}

fn max_of_pair_probes(w: &MaterializationWeights) -> (m: Weight)
    ensures
        m == spec_max_of(w.crossing_pair_probes@, 3),
{
    let mut m = Weight::zero();
    let mut i: usize = 0;
    while i < 3
        invariant
            0 <= i <= 3,
            m == spec_max_of(w.crossing_pair_probes@, i as int),
        decreases 3 - i,
    {
        m = m.component_max(w.crossing_pair_probes[i]);
        i = i + 1;
    }
    m
}

fn max_of_units(w: &MaterializationWeights) -> (m: Weight)
    ensures
        m == spec_max_of(w.crossing_units@, 12),
{
    let mut m = Weight::zero();
    let mut i: usize = 0;
    while i < 12
        invariant
            0 <= i <= 12,
            m == spec_max_of(w.crossing_units@, i as int),
        decreases 12 - i,
    {
        m = m.component_max(w.crossing_units[i]);
        i = i + 1;
    }
    m
}

/// Checks every bound the pallet relies on against the configuration `c` and the
/// materialization worker weights `w`, and names the first that does not hold.
pub fn integrity_test(c: &RuntimeConfiguration, w: &MaterializationWeights) -> (r: Result<(), IntegrityViolation>)
    ensures
        r == match first_violation(*c, *w) {
            Some(v) => Err(v),
            None => Ok::<(), IntegrityViolation>(()),
        },
{
    check_constants(c)?;
    if !weight_nonzero(c.crossing_worker_weight_limit) {
        return Err(IntegrityViolation::ZeroCrossingWeightLimit);
    }
    if !(c.max_queue_entries_scanned_per_block > 0 && c.max_queue_entries_scanned_per_block <= c.max_queue_length) {
        return Err(IntegrityViolation::QueueScanCeilingOutOfRange);
    }
    if c.max_observation_fanout_pages_per_block == 0 {
        return Err(IntegrityViolation::ZeroFanoutPageCeiling);
    }
    if !weight_nonzero(c.observation_fanout_weight_limit) {
        return Err(IntegrityViolation::ZeroFanoutWeightLimit);
    }
    let fanout = w.observation_fanout_base.saturating_add(
        w.observation_fanout_ordinary_upper.component_max(c.observation_fanout_terminal),
    );
    if !fanout.all_lte(c.observation_fanout_weight_limit) {
        return Err(IntegrityViolation::FanoutUnitExceedsLimit);
    }
    let crossing = w.crossing_worker_base.saturating_add(w.crossing_work_probe).saturating_add(
        max_of_pair_probes(w),
    ).saturating_add(max_of_units(w));
    if !crossing.all_lte(c.crossing_worker_weight_limit) {
        return Err(IntegrityViolation::CrossingUnitExceedsLimit);
    }
    if !weight_nonzero(c.wakeup_weight_limit) {
        return Err(IntegrityViolation::ZeroWakeupWeightLimit);
    }
    let wakeup = w.wakeup_cursor_worker_future.saturating_add(w.wakeup_cursor_drain_remove);
    if !wakeup.all_lte(c.wakeup_weight_limit) {
        return Err(IntegrityViolation::WakeupUnitExceedsLimit);
    }
    let limit = materialization_weight_limit(
        c.wakeup_weight_limit,
        c.crossing_worker_weight_limit,
        c.observation_fanout_weight_limit,
    );
    let quanta = materialization_family_minimum(0, w).saturating_add(materialization_family_minimum(1, w)).saturating_add(
        materialization_family_minimum(2, w),
    );
    if !quanta.all_lte(limit) {
        return Err(IntegrityViolation::MaterializationMinimumsExceedLimit);
    }
    let service = match guaranteed_actor_service_weight(
        c.on_idle_reserve,
        c.on_idle_base,
        c.coordinator_base,
        c.tombstone_drain_one,
        limit,
    ) {
        Some(s) => s,
        None => return Err(IntegrityViolation::ActorServiceReserveTooSmall),
    };
    if !c.close_cleanup_weight_upper.all_lte(service) {
        return Err(IntegrityViolation::CleanupExceedsActorService);
    }
    Ok(())
}


/// A configuration passes the integrity check only when every bound holds: the failure, Step,
/// retry and snapshot constants; the ten-year temporal and execution horizons; the balance
/// floor; the page sizes and queue scan ceiling; the crossing member, transition and block caps;
/// nonzero weight limits each covering its worker's unit; the materialization minimums within
/// the shared limit; and an Actor service reserve that covers the close cleanup.
pub proof fn lemma_integrity_passes_only_sound(c: RuntimeConfiguration, w: MaterializationWeights)
    requires
        first_violation(c, w) is None,
    ensures
        c.max_consecutive_failures > 0,
        0 < c.max_contract_steps <= 255,
        c.max_retry_attempts == 10,
        c.max_contract_steps * c.max_retry_attempts <= u32::MAX,
        c.target_block_time > 0,
        c.cadence_tick_millis > 0,
        c.max_temporal_delay_ticks == ceil_div(TEN_JULIAN_YEARS_MILLIS, c.cadence_tick_millis),
        c.max_execution_delay_blocks as u64 == ceil_div(TEN_JULIAN_YEARS_SECONDS, c.target_block_time),
        c.max_opening_snapshot_entries == c.max_contract_steps * 2,
        c.min_user_balance >= c.fee_native_minimum_balance,
        0 < c.queue_page_size < c.max_queue_length,
        c.observation_page_size > 0,
        c.crossing_page_size > 0,
        0 < c.max_crossing_members_per_feed <= c.max_active_actors,
        0 < c.max_user_crossing_members_per_feed < c.max_crossing_members_per_feed,
        c.max_crossing_transitions_per_feed > 0,
        c.max_crossing_transitions_per_block > 0,
        c.max_crossing_leaves_per_block > 0,
        c.max_crossing_pages_per_block > 0,
        c.max_crossing_actors_per_block > 0,
        nonzero_both(c.crossing_worker_weight_limit),
        0 < c.max_queue_entries_scanned_per_block <= c.max_queue_length,
        c.max_observation_fanout_pages_per_block > 0,
        nonzero_both(c.observation_fanout_weight_limit),
        fanout_unit(c, w).spec_all_lte(c.observation_fanout_weight_limit),
        crossing_unit(w).spec_all_lte(c.crossing_worker_weight_limit),
        nonzero_both(c.wakeup_weight_limit),
        wakeup_unit(w).spec_all_lte(c.wakeup_weight_limit),
        minimum_quanta(w).spec_all_lte(
            spec_sat_add_w(spec_sat_add_w(c.wakeup_weight_limit, c.crossing_worker_weight_limit), c.observation_fanout_weight_limit),
        ),
        actor_service(c) is Some,
        c.close_cleanup_weight_upper.spec_all_lte(actor_service(c)->Some_0),
{
}

} // verus!
