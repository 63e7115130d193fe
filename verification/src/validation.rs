//! Admission rules for Contracts: Triggers, schedule windows, Step shapes and recipients.
use vstd::prelude::*;

use crate::contract::{
    AmountResolution, InputLimit, Precondition, Predicate, SplitLeg, Step, StepErrorPolicy, Task,
    Trigger, ScheduleWindow, PERBILL_ACCURACY,
};
use crate::errors::Error;
use crate::types::{AccountId, ActorType, BlockNumber, Mutability, SchedulerTick};

verus! {

/// Hard ceiling on the number of Contract Steps.
pub const MAX_CONTRACT_STEPS_HARD_LIMIT: u32 = 255;

/// A configured Step bound is usable: positive and within the hard ceiling.
pub fn contract_steps_bound_is_valid(bound: u32) -> (r: bool)
    ensures
        r == (0 < bound <= 255),
{
    bound > 0 && bound <= MAX_CONTRACT_STEPS_HARD_LIMIT
}

/// The outcome of validating a Trigger and its cooldown.
pub open spec fn spec_trigger_outcome(trigger: Trigger, cooldown_blocks: u32, filters_canonical: bool, crossing_hysteresis_valid: bool, max_execution_delay_blocks: BlockNumber, max_temporal_delay_ticks: SchedulerTick) -> Result<(), Error> {
    if !filters_canonical {
        Err(Error::InvalidTriggerConfiguration)
    } else if trigger is ObservationCrossing && !crossing_hysteresis_valid {
        Err(Error::InvalidTriggerConfiguration)
    } else {
        match trigger {
            Trigger::AtTime { after_ticks: t } | Trigger::Cadenced { every_ticks: t } => if t == 0 {
                Err(Error::InvalidTriggerConfiguration)
            } else if t > max_temporal_delay_ticks {
                Err(Error::ExecutionDelayTooLong)
            } else if cooldown_blocks != 0 {
                Err(Error::InvalidTriggerConfiguration)
            } else if cooldown_blocks > max_execution_delay_blocks {
                Err(Error::ExecutionDelayTooLong)
            } else {
                Ok(())
            },
            _ => if cooldown_blocks > max_execution_delay_blocks {
                Err(Error::ExecutionDelayTooLong)
            } else {
                Ok(())
            },
        }
    }
}

/// Validates a Trigger and its cooldown. `filters_canonical` and `crossing_hysteresis_valid`
/// are the Trigger's own filter and hysteresis checks.
pub fn validate_trigger(
    trigger: &Trigger,
    cooldown_blocks: u32,
    filters_canonical: bool,
    crossing_hysteresis_valid: bool,
    max_execution_delay_blocks: BlockNumber,
    max_temporal_delay_ticks: SchedulerTick,
) -> (r: Result<(), Error>)
    ensures
        r == spec_trigger_outcome(*trigger, cooldown_blocks, filters_canonical, crossing_hysteresis_valid, max_execution_delay_blocks, max_temporal_delay_ticks),
{
    if !filters_canonical {
        return Err(Error::InvalidTriggerConfiguration);
    }
    if let Trigger::ObservationCrossing { .. } = trigger {
        if !crossing_hysteresis_valid {
            return Err(Error::InvalidTriggerConfiguration);
        }
    }
    match trigger {
        Trigger::AtTime { after_ticks } => {
            if *after_ticks == 0 {
                return Err(Error::InvalidTriggerConfiguration);
            }
            if *after_ticks > max_temporal_delay_ticks {
                return Err(Error::ExecutionDelayTooLong);
            }
            if cooldown_blocks != 0 {
                return Err(Error::InvalidTriggerConfiguration);
            }
        },
        Trigger::Cadenced { every_ticks } => {
            if *every_ticks == 0 {
                return Err(Error::InvalidTriggerConfiguration);
            }
            if *every_ticks > max_temporal_delay_ticks {
                return Err(Error::ExecutionDelayTooLong);
            }
            if cooldown_blocks != 0 {
                return Err(Error::InvalidTriggerConfiguration);
            }
        },
        _ => {},
    }
    if cooldown_blocks > max_execution_delay_blocks {
        return Err(Error::ExecutionDelayTooLong);
    }
    Ok(())
}

/// The outcome of checking an auto-close target.
pub open spec fn spec_auto_close_outcome(current_cycle_nonce: u64, target_nonce: u64, max_horizon: u64) -> Result<(), Error> {
    if target_nonce <= current_cycle_nonce {
        Err(Error::InvalidAutoCloseNonce)
    } else if target_nonce - current_cycle_nonce > max_horizon {
        Err(Error::AutoCloseNonceHorizonExceeded)
    } else {
        Ok(())
    }
}

/// An auto-close target must lie strictly after the current cycle nonce and within the
/// configured horizon.
pub fn ensure_auto_close_target(current_cycle_nonce: u64, target_nonce: u64, max_horizon: u64) -> (r:
    Result<(), Error>)
    ensures
        r == spec_auto_close_outcome(current_cycle_nonce, target_nonce, max_horizon),
{
    if target_nonce <= current_cycle_nonce {
        return Err(Error::InvalidAutoCloseNonce);
    }
    let horizon = target_nonce - current_cycle_nonce;
    if horizon > max_horizon {
        return Err(Error::AutoCloseNonceHorizonExceeded);
    }
    Ok(())
}

/// The outcome of checking a new Contract's future schedule targets at block `now`.
pub open spec fn spec_future_targets_outcome(trigger: Trigger, window: Option<ScheduleWindow>, cooldown_blocks: u32, now: BlockNumber) -> Result<(), Error> {
    let anchor: int = match window {
        Some(w) => if now >= w.start { now as int } else { w.start as int },
        None => now as int,
    };
    if now as int + 1 > u32::MAX {
        Err(Error::SchedulerIndexExhausted)
    } else if anchor + cooldown_blocks > u32::MAX {
        Err(Error::SchedulerIndexExhausted)
    } else if trigger is AtTime || trigger is Cadenced {
        if window is Some {
            Err(Error::InvalidScheduleWindow)
        } else {
            Ok(())
        }
    } else if window matches Some(w) && anchor > w.end {
        Err(Error::InvalidScheduleWindow)
    } else {
        Ok(())
    }
}

/// Every future schedule target of a newly installed Contract is representable, and its first
/// temporal eligibility lies inside its window. Temporal Triggers take no window.
pub fn validate_future_schedule_targets(
    trigger: &Trigger,
    window: Option<ScheduleWindow>,
    cooldown_blocks: u32,
    now: BlockNumber,
) -> (r: Result<(), Error>)
    ensures
        r == spec_future_targets_outcome(*trigger, window, cooldown_blocks, now),
{
    let schedule_anchor = match window {
        Some(w) => if now >= w.start { now } else { w.start },
        None => now,
    };
    if now.checked_add(1).is_none() {
        return Err(Error::SchedulerIndexExhausted);
    }
    if schedule_anchor.checked_add(cooldown_blocks).is_none() {
        return Err(Error::SchedulerIndexExhausted);
    }
    match trigger {
        Trigger::AtTime { .. } | Trigger::Cadenced { .. } => {
            if window.is_some() {
                return Err(Error::InvalidScheduleWindow);
            }
            return Ok(());
        },
        _ => {},
    }
    if let Some(w) = window {
        if schedule_anchor > w.end {
            return Err(Error::InvalidScheduleWindow);
        }
    }
    Ok(())
}

/// The outcome of validating a schedule window at block `now`.
pub open spec fn spec_window_outcome(window: ScheduleWindow, now: BlockNumber, min_window_length: BlockNumber, max_execution_delay_blocks: BlockNumber) -> Result<(), Error> {
    if window.end <= window.start {
        Err(Error::InvalidScheduleWindow)
    } else if window.end == u32::MAX {
        Err(Error::InvalidScheduleWindow)
    } else if window.end - window.start + 1 < min_window_length {
        Err(Error::InvalidScheduleWindow)
    } else if window.end < now {
        Err(Error::InvalidScheduleWindow)
    } else if (if window.start > now { window.start - now } else { 0 }) > max_execution_delay_blocks {
        Err(Error::ExecutionDelayTooLong)
    } else {
        Ok(())
    }
}

/// A schedule window is nonempty, has a representable terminal block, spans at least the
/// minimum length (inclusive), has not already ended, and starts within the execution delay.
pub fn validate_schedule_window(
    window: &ScheduleWindow,
    now: BlockNumber,
    min_window_length: BlockNumber,
    max_execution_delay_blocks: BlockNumber,
) -> (r: Result<(), Error>)
    ensures
        r == spec_window_outcome(*window, now, min_window_length, max_execution_delay_blocks),
{
    if window.end <= window.start {
        return Err(Error::InvalidScheduleWindow);
    }
    if window.end.checked_add(1).is_none() {
        return Err(Error::InvalidScheduleWindow);
    }
    let span = window.end - window.start + 1;
    if span < min_window_length {
        return Err(Error::InvalidScheduleWindow);
    }
    if window.end < now {
        return Err(Error::InvalidScheduleWindow);
    }
    if window.start.saturating_sub(now) > max_execution_delay_blocks {
        return Err(Error::ExecutionDelayTooLong);
    }
    Ok(())
}

/// The first block after an admitted window.
pub fn window_terminal_at(window: &ScheduleWindow) -> (r: BlockNumber)
    requires
        window.end < u32::MAX,
    ensures
        r == window.end + 1,
{
    window.end + 1
}

/// The outcome of checking that an Immutable Actor's Steps do not retry later.
pub open spec fn spec_retry_later_outcome(mutability: Mutability, contract_steps: Seq<Step>) -> Result<(), Error> {
    if mutability == Mutability::Immutable && exists|i: int|
        0 <= i < contract_steps.len() && (#[trigger] contract_steps[i]).on_error
            is RetryLater {
        Err(Error::RetryLaterNotAllowedForImmutableActor)
    } else {
        Ok(())
    }
}

/// An Immutable Actor may not retry Steps later.
#[verifier::loop_isolation(false)]
pub fn ensure_retry_later_allowed(mutability: Mutability, contract_steps: &Vec<Step>) -> (r: Result<
    (),
    Error,
>)
    ensures
        r == spec_retry_later_outcome(mutability, contract_steps@),
{
    if mutability == Mutability::Immutable {
        let mut i: usize = 0;
        while i < contract_steps.len()
            invariant
                0 <= i <= contract_steps@.len(),
                forall|j: int| 0 <= j < i ==> !((#[trigger] contract_steps@[j]).on_error is RetryLater),
            decreases contract_steps@.len() - i,
        {
            if contract_steps[i].on_error.retry_max_attempts().is_some() {
                proof {
                    assert(contract_steps@[i as int].on_error is RetryLater);
                }
                return Err(Error::RetryLaterNotAllowedForImmutableActor);
            }
            i = i + 1;
        }
    }
    Ok(())
}

/// Whether any Step mints.
#[verifier::loop_isolation(false)]
pub fn contract_steps_contains_mint(contract_steps: &Vec<Step>) -> (r: bool)
    ensures
        r == exists|i: int| 0 <= i < contract_steps@.len() && (#[trigger] contract_steps@[i]).task is Mint,
{
    let mut i: usize = 0;
    while i < contract_steps.len()
        invariant
            0 <= i <= contract_steps@.len(),
            forall|j: int| 0 <= j < i ==> !((#[trigger] contract_steps@[j]).task is Mint),
        decreases contract_steps@.len() - i,
    {
        if contract_steps[i].task.is_mint() {
            return true;
        }
        i = i + 1;
    }
    false
}

/// A fixed amount or a percentage must be nonzero.
pub open spec fn spec_amount_valid(amount: AmountResolution) -> bool {
    match amount {
        AmountResolution::Fixed(v) => v != 0,
        AmountResolution::Percent(v) => v != 0,
    }
}

pub fn validate_amount_resolution(amount: &AmountResolution) -> (r: Result<(), Error>)
    ensures
        r == if spec_amount_valid(*amount) {
            Ok(())
        } else {
            Err(Error::InvalidAmountResolution)
        },
{
    let zero = match amount {
        AmountResolution::Fixed(v) => *v == 0,
        AmountResolution::Percent(v) => *v == 0,
    };
    if zero {
        Err(Error::InvalidAmountResolution)
    } else {
        Ok(())
    }
}

/// Sum of the leg shares.
pub open spec fn shares_sum(legs: Seq<SplitLeg>) -> int
    decreases legs.len(),
{
    if legs.len() == 0 {
        0
    } else {
        shares_sum(legs.drop_last()) + legs.last().share
    }
}

/// Split legs: at least two and at most `max_legs`, each with a nonzero share and a distinct
/// recipient, the shares summing to at most one whole.
pub open spec fn spec_split_legs_valid(legs: Seq<SplitLeg>, max_legs: u32) -> bool {
    &&& legs.len() >= 2
    &&& legs.len() <= max_legs
    &&& forall|i: int| 0 <= i < legs.len() ==> (#[trigger] legs[i]).share != 0
    &&& forall|i: int, j: int| 0 <= j < i < legs.len() ==> (#[trigger] legs[i]).to != (#[trigger] legs[j]).to
    &&& shares_sum(legs) <= PERBILL_ACCURACY
}

proof fn lemma_shares_sum_prefix(legs: Seq<SplitLeg>, k: int)
    requires
        0 <= k <= legs.len(),
    ensures
        shares_sum(legs.take(k)) <= shares_sum(legs),
    decreases legs.len(),
{
    if legs.len() > 0 {
        if k == legs.len() {
            assert(legs.take(k) =~= legs);
        } else {
            assert(legs.take(k) =~= legs.drop_last().take(k));
            lemma_shares_sum_prefix(legs.drop_last(), k);
        }
    } else {
        assert(legs.take(k) =~= legs);
    }
}

#[verifier::loop_isolation(false)]
pub fn validate_split_transfer_legs(legs: &Vec<SplitLeg>, max_legs: u32) -> (r: Result<(), Error>)
    ensures
        r == if spec_split_legs_valid(legs@, max_legs) {
            Ok(())
        } else {
            Err(Error::InvalidSplitTransfer)
        },
{
    if legs.len() < 2 {
        return Err(Error::InvalidSplitTransfer);
    }
    if legs.len() > max_legs as usize {
        return Err(Error::InvalidSplitTransfer);
    }
    let mut sum_parts: u32 = 0;
    let mut idx: usize = 0;
    while idx < legs.len()
        invariant
            0 <= idx <= legs@.len(),
            sum_parts == shares_sum(legs@.take(idx as int)),
            forall|i: int| 0 <= i < idx ==> (#[trigger] legs@[i]).share != 0,
            forall|i: int, j: int| 0 <= j < i < idx ==> (#[trigger] legs@[i]).to != (#[trigger] legs@[j]).to,
        decreases legs@.len() - idx,
    {
        let leg = legs[idx];
        proof {
            assert(legs@.take(idx as int + 1).drop_last() =~= legs@.take(idx as int));
            lemma_shares_sum_prefix(legs@, idx as int + 1);
        }
        if leg.share == 0 {
            return Err(Error::InvalidSplitTransfer);
        }
        sum_parts = match sum_parts.checked_add(leg.share) {
            Some(s) => s,
            None => return Err(Error::InvalidSplitTransfer),
        };
        let mut k: usize = 0;
        while k < idx
            invariant
                0 <= k <= idx < legs@.len(),
                leg == legs@[idx as int],
                forall|j: int| 0 <= j < k ==> legs@[j].to != leg.to,
            decreases idx - k,
        {
            if legs[k].to == leg.to {
                return Err(Error::InvalidSplitTransfer);
            }
            k = k + 1;
        }
        idx = idx + 1;
    }
    proof {
        assert(legs@.take(legs@.len() as int) =~= legs@);
    }
    if sum_parts > PERBILL_ACCURACY {
        return Err(Error::InvalidSplitTransfer);
    }
    Ok(())
}

/// Sum of the clause lengths of a precondition.
pub open spec fn predicate_count(clauses: Seq<Vec<Predicate>>) -> int
    decreases clauses.len(),
{
    if clauses.len() == 0 {
        0
    } else {
        predicate_count(clauses.drop_last()) + clauses.last()@.len()
    }
}

/// Shape of one precondition: nonempty, with nonempty clauses, within the per-Step predicate
/// bound, and every observation predicate with a positive freshness bound.
pub open spec fn spec_precondition_shape(p: Precondition, max_predicates_per_step: u32) -> Result<
    (),
    Error,
> {
    if p.clauses@.len() == 0 {
        Err(Error::EmptyPrecondition)
    } else if exists|c: int| 0 <= c < p.clauses@.len() && (#[trigger] p.clauses@[c])@.len() == 0 {
        Err(Error::EmptyPrecondition)
    } else if predicate_count(p.clauses@) > max_predicates_per_step {
        Err(Error::AdmissionBoundOverflow)
    } else if exists|c: int, k: int|
        0 <= c < p.clauses@.len() && 0 <= k < p.clauses@[c]@.len() && (#[trigger] p.clauses@[c]@[k]).observation_max_age_blocks
            == Some(0u32) {
        Err(Error::InvalidObservationMaxAge)
    } else {
        Ok(())
    }
}

proof fn lemma_predicate_count_prefix(clauses: Seq<Vec<Predicate>>, k: int)
    requires
        0 <= k <= clauses.len(),
    ensures
        predicate_count(clauses.take(k)) <= predicate_count(clauses),
        predicate_count(clauses.take(k)) >= 0,
    decreases clauses.len(),
{
    if clauses.len() > 0 {
        if k == clauses.len() {
            assert(clauses.take(k) =~= clauses);
            lemma_predicate_count_prefix(clauses.drop_last(), k - 1);
        } else {
            assert(clauses.take(k) =~= clauses.drop_last().take(k));
            lemma_predicate_count_prefix(clauses.drop_last(), k);
        }
    } else {
        assert(clauses.take(k) =~= clauses);
    }
}

#[verifier::loop_isolation(false)]
fn validate_precondition_shape(p: &Precondition, max_predicates_per_step: u32) -> (r: Result<
    (),
    Error,
>)
    ensures
        r == spec_precondition_shape(*p, max_predicates_per_step),
{
    let clauses = &p.clauses;
    if clauses.len() == 0 {
        return Err(Error::EmptyPrecondition);
    }
    let mut c: usize = 0;
    while c < clauses.len()
        invariant
            0 <= c <= clauses@.len(),
            forall|j: int| 0 <= j < c ==> (#[trigger] clauses@[j])@.len() > 0,
        decreases clauses@.len() - c,
    {
        if clauses[c].len() == 0 {
            proof {
                assert(clauses@[c as int]@.len() == 0);
            }
            return Err(Error::EmptyPrecondition);
        }
        c = c + 1;
    }
    let mut count: u64 = 0;
    let mut c: usize = 0;
    while c < clauses.len()
        invariant
            0 <= c <= clauses@.len(),
            count == predicate_count(clauses@.take(c as int)),
            count <= max_predicates_per_step,
            forall|j: int| 0 <= j < clauses@.len() ==> (#[trigger] clauses@[j])@.len() > 0,
        decreases clauses@.len() - c,
    {
        proof {
            assert(clauses@.take(c as int + 1).drop_last() =~= clauses@.take(c as int));
            lemma_predicate_count_prefix(clauses@, c as int + 1);
        }
        let len = clauses[c].len();
        if len as u64 > max_predicates_per_step as u64 - count {
            return Err(Error::AdmissionBoundOverflow);
        }
        count = count + len as u64;
        c = c + 1;
    }
    proof {
        assert(clauses@.take(clauses@.len() as int) =~= clauses@);
    }
    let mut c: usize = 0;
    while c < clauses.len()
        invariant
            0 <= c <= clauses@.len(),
            predicate_count(clauses@) <= max_predicates_per_step,
            forall|j: int| 0 <= j < clauses@.len() ==> (#[trigger] clauses@[j])@.len() > 0,
            forall|j: int, k: int|
                0 <= j < c && 0 <= k < clauses@[j]@.len() ==> (#[trigger] clauses@[j]@[k]).observation_max_age_blocks
                    != Some(0u32),
        decreases clauses@.len() - c,
    {
        let clause = &clauses[c];
        let mut k: usize = 0;
        while k < clause.len()
            invariant
                0 <= k <= clause@.len(),
                clause == clauses@[c as int],
                c < clauses@.len(),
                forall|j: int, kk: int|
                    0 <= j < c && 0 <= kk < clauses@[j]@.len() ==> (#[trigger] clauses@[j]@[kk]).observation_max_age_blocks
                        != Some(0u32),
                forall|kk: int| 0 <= kk < k ==> (#[trigger] clause@[kk]).observation_max_age_blocks != Some(0u32),
            decreases clause@.len() - k,
        {
            if let Some(age) = clause[k].observation_max_age_blocks {
                if age == 0 {
                    proof {
                        assert(clauses@[c as int]@[k as int].observation_max_age_blocks == Some(0u32));
                    }
                    return Err(Error::InvalidObservationMaxAge);
                }
            }
            k = k + 1;
        }
        c = c + 1;
    }
    Ok(())
}

/// Shape of one Step's task.
pub open spec fn spec_task_shape(task: Task, max_split_legs: u32) -> Result<(), Error> {
    match task {
        Task::Transfer { amount, .. } | Task::Burn { amount, .. } | Task::Mint { amount, .. }
        | Task::Stake { amount, .. } => if spec_amount_valid(amount) {
            Ok(())
        } else {
            Err(Error::InvalidAmountResolution)
        },
        Task::SplitTransfer { amount, legs, .. } => if !spec_amount_valid(amount) {
            Err(Error::InvalidAmountResolution)
        } else if !spec_split_legs_valid(legs@, max_split_legs) {
            Err(Error::InvalidSplitTransfer)
        } else {
            Ok(())
        },
        Task::SwapIn { asset_in, amount_in, asset_out } => if asset_in == asset_out {
            Err(Error::InvalidTradeBound)
        } else if !spec_amount_valid(amount_in) {
            Err(Error::InvalidAmountResolution)
        } else {
            Ok(())
        },
        Task::SwapOut { asset_out, amount_out, asset_in, input_limit } => if asset_in == asset_out {
            Err(Error::InvalidTradeBound)
        } else if !spec_amount_valid(amount_out) {
            Err(Error::InvalidAmountResolution)
        } else if input_limit == InputLimit::Absolute(0) {
            Err(Error::InvalidTradeBound)
        } else {
            Ok(())
        },
        Task::AddLiquidity { asset_a, asset_b, amount_a, amount_b, min_lp_out } => if asset_a == asset_b {
            Err(Error::InvalidTradeBound)
        } else if !spec_amount_valid(amount_a) || !spec_amount_valid(amount_b) {
            Err(Error::InvalidAmountResolution)
        } else if min_lp_out == 0 {
            Err(Error::InvalidTradeBound)
        } else {
            Ok(())
        },
        Task::RemoveLiquidity { lp_amount, min_amount_a, min_amount_b, .. } => if !spec_amount_valid(
            lp_amount,
        ) {
            Err(Error::InvalidAmountResolution)
        } else if min_amount_a == 0 || min_amount_b == 0 {
            Err(Error::InvalidTradeBound)
        } else {
            Ok(())
        },
        Task::DonateLiquidity { asset_a, asset_b, max_amount_a } => if asset_a == asset_b {
            Err(Error::InvalidTradeBound)
        } else if !spec_amount_valid(max_amount_a) {
            Err(Error::InvalidAmountResolution)
        } else {
            Ok(())
        },
        Task::Unstake { shares, .. } => if spec_amount_valid(shares) {
            Ok(())
        } else {
            Err(Error::InvalidAmountResolution)
        },
        Task::StopCycle => Ok(()),
    }
}

fn validate_task_shape(task: &Task, max_split_legs: u32) -> (r: Result<(), Error>)
    ensures
        r == spec_task_shape(*task, max_split_legs),
{
    match task {
        Task::Transfer { amount, .. } => validate_amount_resolution(amount),
        Task::Burn { amount, .. } => validate_amount_resolution(amount),
        Task::Mint { amount, .. } => validate_amount_resolution(amount),
        Task::Stake { amount, .. } => validate_amount_resolution(amount),
        Task::SplitTransfer { amount, legs, .. } => {
            validate_amount_resolution(amount)?;
            validate_split_transfer_legs(legs, max_split_legs)
        },
        Task::SwapIn { asset_in, amount_in, asset_out } => {
            if asset_in == asset_out {
                return Err(Error::InvalidTradeBound);
            }
            validate_amount_resolution(amount_in)
        },
        Task::SwapOut { asset_out, amount_out, asset_in, input_limit } => {
            if asset_in == asset_out {
                return Err(Error::InvalidTradeBound);
            }
            validate_amount_resolution(amount_out)?;
            if let InputLimit::Absolute(max_amount_in) = input_limit {
                if *max_amount_in == 0 {
                    return Err(Error::InvalidTradeBound);
                }
            }
            Ok(())
        },
        Task::AddLiquidity { asset_a, asset_b, amount_a, amount_b, min_lp_out } => {
            if asset_a == asset_b {
                return Err(Error::InvalidTradeBound);
            }
            validate_amount_resolution(amount_a)?;
            validate_amount_resolution(amount_b)?;
            if *min_lp_out == 0 {
                return Err(Error::InvalidTradeBound);
            }
            Ok(())
        },
        Task::RemoveLiquidity { lp_amount, min_amount_a, min_amount_b, .. } => {
            validate_amount_resolution(lp_amount)?;
            if *min_amount_a == 0 || *min_amount_b == 0 {
                return Err(Error::InvalidTradeBound);
            }
            Ok(())
        },
        Task::DonateLiquidity { asset_a, asset_b, max_amount_a } => {
            if asset_a == asset_b {
                return Err(Error::InvalidTradeBound);
            }
            validate_amount_resolution(max_amount_a)
        },
        Task::Unstake { shares, .. } => validate_amount_resolution(shares),
        Task::StopCycle => Ok(()),
    }
}

/// Bounds the Contract shape checks read.
#[derive(Clone, Copy, Debug, PartialEq, Eq, Structural)]
pub struct ShapeLimits {
    pub max_contract_steps: u32,
    pub max_retry_attempts: u32,
    pub max_predicates_per_step: u32,
    pub max_split_transfer_legs: u32,
}

/// Shape of one Step: its retry bound, its precondition, then its task.
pub open spec fn spec_step_shape(step: Step, limits: ShapeLimits) -> Result<(), Error> {
    if step.on_error matches StepErrorPolicy::RetryLater { max_attempts } && (max_attempts < 2
        || max_attempts > limits.max_retry_attempts) {
        Err(Error::InvalidRetryAttemptLimit)
    } else if step.precondition matches Some(p) && spec_precondition_shape(
        p,
        limits.max_predicates_per_step,
    ) is Err {
        spec_precondition_shape(step.precondition.unwrap(), limits.max_predicates_per_step)
    } else {
        spec_task_shape(step.task, limits.max_split_transfer_legs)
    }
}

/// First shape error among the Steps, in order.
pub open spec fn spec_steps_shape(steps: Seq<Step>, limits: ShapeLimits) -> Result<(), Error>
    decreases steps.len(),
{
    if steps.len() == 0 {
        Ok(())
    } else {
        match spec_steps_shape(steps.drop_last(), limits) {
            Err(e) => Err(e),
            Ok(()) => spec_step_shape(steps.last(), limits),
        }
    }
}

/// Validates the configured Step bound and the shape of every Step, reporting the first
/// refusal in Step order.
#[verifier::loop_isolation(false)]
pub fn validate_contract_steps_shape(contract_steps: &Vec<Step>, limits: ShapeLimits) -> (r: Result<
    (),
    Error,
>)
    ensures
        r == if !(0 < limits.max_contract_steps <= 255) {
            Err(Error::TooManyContractSteps)
        } else {
            spec_steps_shape(contract_steps@, limits)
        },
{
    if !contract_steps_bound_is_valid(limits.max_contract_steps) {
        return Err(Error::TooManyContractSteps);
    }
    let mut i: usize = 0;
    proof {
        assert(contract_steps@.take(0) =~= Seq::<Step>::empty());
    }
    while i < contract_steps.len()
        invariant
            0 <= i <= contract_steps@.len(),
            spec_steps_shape(contract_steps@.take(i as int), limits) == Ok::<(), Error>(()),
        decreases contract_steps@.len() - i,
    {
        let step = &contract_steps[i];
        proof {
            assert(contract_steps@.take(i as int + 1).drop_last() =~= contract_steps@.take(i as int));
            assert(contract_steps@.take(i as int + 1).last() == *step);
        }
        if let Some(max_attempts) = step.on_error.retry_max_attempts() {
            if max_attempts < 2 || max_attempts > limits.max_retry_attempts {
                proof {
                    lemma_steps_shape_error_persists(contract_steps@, limits, i as int + 1);
                }
                return Err(Error::InvalidRetryAttemptLimit);
            }
        }
        if let Some(precondition) = &step.precondition {
            let checked = validate_precondition_shape(precondition, limits.max_predicates_per_step);
            if checked.is_err() {
                proof {
                    lemma_steps_shape_error_persists(contract_steps@, limits, i as int + 1);
                }
                return checked;
            }
        }
        let checked = validate_task_shape(&step.task, limits.max_split_transfer_legs);
        if checked.is_err() {
            proof {
                lemma_steps_shape_error_persists(contract_steps@, limits, i as int + 1);
            }
            return checked;
        }
        i = i + 1;
    }
    proof {
        assert(contract_steps@.take(contract_steps@.len() as int) =~= contract_steps@);
    }
    Ok(())
}

/// Once a prefix of the Steps is refused, the whole list is refused with the same error.
proof fn lemma_steps_shape_error_persists(steps: Seq<Step>, limits: ShapeLimits, k: int)
    requires
        0 <= k <= steps.len(),
        spec_steps_shape(steps.take(k), limits) is Err,
    ensures
        spec_steps_shape(steps, limits) == spec_steps_shape(steps.take(k), limits),
    decreases steps.len() - k,
{
    if k < steps.len() {
        assert(steps.take(k + 1).drop_last() =~= steps.take(k));
        lemma_steps_shape_error_persists(steps, limits, k + 1);
    } else {
        assert(steps.take(k) =~= steps);
    }
}

/// Whether a Step's task pays its own sovereign account.
pub open spec fn spec_pays_self(task: Task, sovereign: AccountId) -> bool {
    match task {
        Task::Transfer { to, .. } => to == sovereign,
        Task::SplitTransfer { legs, .. } => exists|j: int| 0 <= j < legs@.len() && (#[trigger] legs@[j]).to == sovereign,
        _ => false,
    }
}

/// The outcome of checking that no Step pays the Actor's own sovereign account.
pub open spec fn spec_recipient_outcome(contract_steps: Seq<Step>, sovereign_account: AccountId) -> Result<(), Error> {
    if exists|i: int| 0 <= i < contract_steps.len() && spec_pays_self(
        (#[trigger] contract_steps[i]).task,
        sovereign_account,
    ) {
        Err(Error::SelfTransferNotAllowed)
    } else {
        Ok(())
    }
}

/// No transfer of any Step pays the Actor's own sovereign account.
#[verifier::loop_isolation(false)]
pub fn validate_recipient_configuration(contract_steps: &Vec<Step>, sovereign_account: AccountId) -> (r:
    Result<(), Error>)
    ensures
        r == spec_recipient_outcome(contract_steps@, sovereign_account),
{
    let mut i: usize = 0;
    while i < contract_steps.len()
        invariant
            0 <= i <= contract_steps@.len(),
            forall|j: int| 0 <= j < i ==> !spec_pays_self((#[trigger] contract_steps@[j]).task, sovereign_account),
        decreases contract_steps@.len() - i,
    {
        match &contract_steps[i].task {
            Task::Transfer { to, .. } => {
                if *to == sovereign_account {
                    proof {
                        assert(spec_pays_self(contract_steps@[i as int].task, sovereign_account));
                    }
                    return Err(Error::SelfTransferNotAllowed);
                }
            },
            Task::SplitTransfer { legs, .. } => {
                let mut k: usize = 0;
                while k < legs.len()
                    invariant
                        0 <= k <= legs@.len(),
                        forall|j: int| 0 <= j < k ==> (#[trigger] legs@[j]).to != sovereign_account,
                    decreases legs@.len() - k,
                {
                    if legs[k].to == sovereign_account {
                        proof {
                            assert(legs@[k as int].to == sovereign_account);
                            assert(spec_pays_self(contract_steps@[i as int].task, sovereign_account));
                        }
                        return Err(Error::SelfTransferNotAllowed);
                    }
                    k = k + 1;
                }
            },
            _ => {},
        }
        i = i + 1;
    }
    Ok(())
}

/// An Actor's control may change at most once per block: refused when its last control
/// mutation was at `now`.
pub fn ensure_control_mutation_allowed(last_control_mutation_block: BlockNumber, now: BlockNumber) -> (r: Result<
    (),
    Error,
>)
    ensures
        r == if last_control_mutation_block == now {
            Err(Error::ControlMutationRateLimited)
        } else {
            Ok(())
        },
{
    if last_control_mutation_block == now {
        Err(Error::ControlMutationRateLimited)
    } else {
        Ok(())
    }
}

/// A System Actor that is Immutable may not be changed.
pub fn ensure_not_system_immutable(actor_type: ActorType, mutability: Mutability) -> (r: Result<
    (),
    Error,
>)
    ensures
        r == if actor_type == ActorType::System && mutability == Mutability::Immutable {
            Err(Error::ImmutableActor)
        } else {
            Ok(())
        },
{
    if actor_type == ActorType::System && mutability == Mutability::Immutable {
        Err(Error::ImmutableActor)
    } else {
        Ok(())
    }
}


/// The Steps pass the shape checks exactly when every Step, at any position, does; a refusal
/// is the refusal of the first Step that fails, every earlier Step passing.
pub proof fn lemma_steps_shape_every_step(steps: Seq<Step>, limits: ShapeLimits)
    ensures
        spec_steps_shape(steps, limits) is Ok <==> forall|i: int|
            0 <= i < steps.len() ==> spec_step_shape(#[trigger] steps[i], limits) is Ok,
        spec_steps_shape(steps, limits) matches Err(e) ==> exists|i: int|
            0 <= i < steps.len() && spec_step_shape(#[trigger] steps[i], limits) == Err::<(), Error>(e) && forall|j: int|
                0 <= j < i ==> spec_step_shape(#[trigger] steps[j], limits) is Ok,
    decreases steps.len(),
{
    if steps.len() > 0 {
        let init = steps.drop_last();
        lemma_steps_shape_every_step(init, limits);
        assert forall|i: int| 0 <= i < init.len() implies init[i] == steps[i] by {}
        match spec_steps_shape(init, limits) {
            Err(e) => {
                let i = choose|i: int|
                    0 <= i < init.len() && spec_step_shape(#[trigger] init[i], limits) == Err::<(), Error>(e) && forall|j: int|
                        0 <= j < i ==> spec_step_shape(#[trigger] init[j], limits) is Ok;
                assert(steps[i] == init[i]);
                assert forall|j: int| 0 <= j < i implies spec_step_shape(#[trigger] steps[j], limits) is Ok by {
                    assert(steps[j] == init[j]);
                }
            },
            Ok(_) => {
                assert(steps.last() == steps[steps.len() - 1]);
                if spec_step_shape(steps.last(), limits) is Ok {
                    assert forall|i: int| 0 <= i < steps.len() implies spec_step_shape(#[trigger] steps[i], limits) is Ok by {
                        if i < init.len() {
                            assert(steps[i] == init[i]);
                        }
                    }
                } else {
                    assert forall|j: int| 0 <= j < steps.len() - 1 implies spec_step_shape(#[trigger] steps[j], limits) is Ok by {
                        assert(steps[j] == init[j]);
                    }
                }
            },
        }
    }
}

/// A Step's shape check refuses a retry bound outside `2..=max`, then a malformed
/// precondition, then a malformed task; a Step passing it has a valid retry bound, a valid
/// precondition (if any) and a valid task.
pub proof fn lemma_step_shape_parts(step: Step, limits: ShapeLimits)
    ensures
        spec_step_shape(step, limits) is Ok <==> {
            &&& (step.on_error matches StepErrorPolicy::RetryLater { max_attempts } ==> 2 <= max_attempts
                <= limits.max_retry_attempts)
            &&& (step.precondition matches Some(p) ==> spec_precondition_shape(p, limits.max_predicates_per_step) is Ok)
            &&& spec_task_shape(step.task, limits.max_split_transfer_legs) is Ok
        },
{
}

/// A precondition passes its shape check exactly when it has clauses, none of them empty, at
/// most the allowed number of predicates, and no predicate, in any clause at any position,
/// with a zero freshness bound.
pub proof fn lemma_precondition_shape_exact(p: Precondition, max_predicates_per_step: u32)
    ensures
        spec_precondition_shape(p, max_predicates_per_step) is Ok <==> {
            &&& p.clauses@.len() > 0
            &&& forall|c: int| 0 <= c < p.clauses@.len() ==> (#[trigger] p.clauses@[c])@.len() > 0
            &&& predicate_count(p.clauses@) <= max_predicates_per_step
            &&& forall|c: int, k: int|
                0 <= c < p.clauses@.len() && 0 <= k < p.clauses@[c]@.len() ==> (#[trigger] p.clauses@[c]@[k]).observation_max_age_blocks
                    != Some(0u32)
        },
{
}

/// No Step, at any position, may pay the Actor's own sovereign account: the recipient check
/// passes exactly when none does.
pub proof fn lemma_recipient_refuses_every_self_payment(steps: Seq<Step>, sovereign: AccountId)
    ensures
        spec_recipient_outcome(steps, sovereign) is Ok <==> forall|i: int|
            0 <= i < steps.len() ==> !spec_pays_self(#[trigger] steps[i].task, sovereign),
        forall|i: int|
            0 <= i < steps.len() && spec_pays_self(#[trigger] steps[i].task, sovereign) ==> spec_recipient_outcome(
                steps,
                sovereign,
            ) == Err::<(), Error>(Error::SelfTransferNotAllowed),
{
}

/// A Mutable Actor may retry any Step later; an Immutable Actor may not, at any position.
pub proof fn lemma_retry_later_only_mutable(mutability: Mutability, steps: Seq<Step>)
    ensures
        mutability == Mutability::Mutable ==> spec_retry_later_outcome(mutability, steps) is Ok,
        forall|i: int|
            0 <= i < steps.len() && mutability == Mutability::Immutable && (#[trigger] steps[i]).on_error is RetryLater
                ==> spec_retry_later_outcome(mutability, steps) == Err::<(), Error>(
                Error::RetryLaterNotAllowedForImmutableActor,
            ),
        spec_retry_later_outcome(mutability, steps) is Ok <==> mutability == Mutability::Mutable || forall|i: int|
            0 <= i < steps.len() ==> !((#[trigger] steps[i]).on_error is RetryLater),
{
}

/// A Trigger is accepted exactly when its filters are canonical, a crossing Trigger has valid
/// hysteresis, its cooldown is within the execution delay, and a temporal Trigger has a
/// positive period within the temporal delay and no cooldown.
pub proof fn lemma_trigger_accepted_exactly(
    trigger: Trigger,
    cooldown_blocks: u32,
    filters_canonical: bool,
    crossing_hysteresis_valid: bool,
    max_execution_delay_blocks: BlockNumber,
    max_temporal_delay_ticks: SchedulerTick,
)
    ensures
        spec_trigger_outcome(
            trigger,
            cooldown_blocks,
            filters_canonical,
            crossing_hysteresis_valid,
            max_execution_delay_blocks,
            max_temporal_delay_ticks,
        ) is Ok <==> {
            &&& filters_canonical
            &&& (trigger is ObservationCrossing ==> crossing_hysteresis_valid)
            &&& cooldown_blocks <= max_execution_delay_blocks
            &&& (trigger matches Trigger::AtTime { after_ticks } ==> 0 < after_ticks <= max_temporal_delay_ticks
                && cooldown_blocks == 0)
            &&& (trigger matches Trigger::Cadenced { every_ticks } ==> 0 < every_ticks <= max_temporal_delay_ticks
                && cooldown_blocks == 0)
        },
{
}

/// A schedule window is accepted exactly when it is nonempty, ends before the last block,
/// spans at least the minimum length, has not ended at `now`, and starts within the execution
/// delay.
pub proof fn lemma_window_accepted_exactly(
    window: ScheduleWindow,
    now: BlockNumber,
    min_window_length: BlockNumber,
    max_execution_delay_blocks: BlockNumber,
)
    ensures
        spec_window_outcome(window, now, min_window_length, max_execution_delay_blocks) is Ok <==> {
            &&& window.start < window.end
            &&& window.end < u32::MAX
            &&& window.end - window.start + 1 >= min_window_length
            &&& now <= window.end
            &&& window.start <= now + max_execution_delay_blocks
        },
{
}

/// A new Contract's schedule targets are accepted exactly when the next block and the first
/// cooled-down block after the schedule anchor are representable, a temporal Trigger has no
/// window, and any other Trigger's anchor lies within its window.
pub proof fn lemma_future_targets_accepted_exactly(
    trigger: Trigger,
    window: Option<ScheduleWindow>,
    cooldown_blocks: u32,
    now: BlockNumber,
)
    ensures
        ({
            let anchor: int = match window {
                Some(w) => if now >= w.start { now as int } else { w.start as int },
                None => now as int,
            };
            spec_future_targets_outcome(trigger, window, cooldown_blocks, now) is Ok <==> {
                &&& now < u32::MAX
                &&& anchor + cooldown_blocks <= u32::MAX
                &&& (trigger is AtTime || trigger is Cadenced ==> window is None)
                &&& (!(trigger is AtTime || trigger is Cadenced) && window is Some ==> anchor <= window->Some_0.end)
            }
        }),
{
}

/// An auto-close target is accepted exactly when it lies strictly after the current cycle
/// nonce and no further than the horizon past it.
pub proof fn lemma_auto_close_accepted_exactly(current_cycle_nonce: u64, target_nonce: u64, max_horizon: u64)
    ensures
        spec_auto_close_outcome(current_cycle_nonce, target_nonce, max_horizon) is Ok <==> current_cycle_nonce
            < target_nonce && target_nonce <= current_cycle_nonce + max_horizon,
{
}

} // verus!
