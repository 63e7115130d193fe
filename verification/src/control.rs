//! Scheduler budgets, idle-starvation tracking, the Actor limit and the prepass inherent.
use vstd::prelude::*;

use crate::contract::{Step, Task, TriggerFamily};
use crate::errors::Error;
use crate::geometry::{spec_chunk_count, tail_chunk_count, tail_chunk_index, ActorStepResourceEnvelope};
use crate::deadline_index::WakeupKey;
use crate::types::{ActorId, ActorType, BlockNumber, SchedulerTick};
use crate::weight::{max_u64, sat_add, spec_checked_sub, spec_then_sub, Weight};

verus! {

/// Events whose emission the decisions in this module determine.
#[derive(Clone, Copy, Debug, PartialEq, Eq, Structural)]
pub enum Event {
    ActiveActorLimitSet { old_limit: u32, new_limit: u32 },
    GlobalCircuitBreakerSet { paused: bool },
    SweepBatchProcessed { requested: u32, closed: u32, alive: u32, missing: u32 },
    IdleStarvationDetected { consecutive_blocks: u32 },
    IdleStarvationRecovered { consecutive_blocks: u32 },
}

pub open spec fn spec_sat_add_w(a: Weight, b: Weight) -> Weight {
    Weight { ref_time: sat_add(a.ref_time, b.ref_time), proof_size: sat_add(a.proof_size, b.proof_size) }
}

pub open spec fn spec_max_w(a: Weight, b: Weight) -> Weight {
    Weight {
        ref_time: max_u64(a.ref_time, b.ref_time),
        proof_size: max_u64(a.proof_size, b.proof_size),
    }
}

/// Shared ceiling of the three materialization workers.
pub fn materialization_weight_limit(wakeup: Weight, crossing: Weight, fanout: Weight) -> (w: Weight)
    ensures
        w == spec_sat_add_w(spec_sat_add_w(wakeup, crossing), fanout),
{
    wakeup.saturating_add(crossing).saturating_add(fanout)
}

/// The family served `later` places after `family_cursor` in the three-family rotation.
pub open spec fn rotated_family(family_cursor: u8, later: u8) -> int {
    let c = if family_cursor as int + later as int > u8::MAX { u8::MAX as int } else {
        family_cursor as int + later as int
    };
    c % 3
}

/// Budget of the family at rotation `offset`: everything remaining, less the minimum quanta of
/// the families still to be served when every minimum can be reserved; zero if less remains.
pub fn materialization_family_budget(
    family_cursor: u8,
    offset: u8,
    remaining: Weight,
    reserve_all_families: bool,
    minimums: &[Weight; 3],
) -> (w: Weight)
    requires
        offset < 3,
    ensures
        ({
            let reserved = spec_reserved_later_fold(family_cursor, offset as int + 1, minimums@);
            w == if !reserve_all_families {
                remaining
            } else if reserved.spec_all_lte(remaining) {
                Weight {
                    ref_time: (remaining.ref_time - reserved.ref_time) as u64,
                    proof_size: (remaining.proof_size - reserved.proof_size) as u64,
                }
            } else {
                Weight { ref_time: 0, proof_size: 0 }
            }
        }),
{
    if !reserve_all_families {
        return remaining;
    }
    let mut reserved = Weight::zero();
    let mut later: u8 = offset + 1;
    while later < 3
        invariant
            offset + 1 <= later <= 3,
            reserved == spec_reserved_later_fold_upto(family_cursor, offset as int + 1, later as int, minimums@),
            minimums@.len() == 3,
        decreases 3 - later,
    {
        let family = (family_cursor.saturating_add(later) % 3) as usize;
        reserved = reserved.saturating_add(minimums[family]);
        later = later + 1;
    }
    match remaining.checked_sub(reserved) {
        Some(w) => w,
        None => Weight::zero(),
    }
}

/// Left fold of saturating additions of the minimum quanta of rotation positions `[from, upto)`.
pub open spec fn spec_reserved_later_fold_upto(family_cursor: u8, from: int, upto: int, minimums: Seq<Weight>) -> Weight
    decreases upto - from,
{
    if upto <= from {
        Weight { ref_time: 0, proof_size: 0 }
    } else {
        spec_sat_add_w(
            spec_reserved_later_fold_upto(family_cursor, from, upto - 1, minimums),
            minimums[rotated_family(family_cursor, (upto - 1) as u8)],
        )
    }
}

/// Minimum quanta of the families served after `from` in the rotation, folded in order.
pub open spec fn spec_reserved_later_fold(family_cursor: u8, from: int, minimums: Seq<Weight>) -> Weight {
    spec_reserved_later_fold_upto(family_cursor, from, 3, minimums)
}

/// Component-wise maximum of the four ordinary observation-fanout page weights.
pub fn observation_fanout_ordinary_weight_upper(
    page: Weight,
    wakeup_page: Weight,
    coalesced_page: Weight,
    blocked_page: Weight,
) -> (w: Weight)
    ensures
        w == spec_max_w(spec_max_w(spec_max_w(spec_max_w(Weight { ref_time: 0, proof_size: 0 }, page), wakeup_page), coalesced_page), blocked_page),
{
    Weight::zero().component_max(page).component_max(wakeup_page).component_max(
        coalesced_page,
    ).component_max(blocked_page)
}

/// The runtime's benchmarked weights that the per-family materialization minimums are built
/// from.
#[derive(Clone, Copy, Debug, PartialEq, Eq)]
pub struct MaterializationWeights {
    pub wakeup_cursor_worker_future: Weight,
    /// Upper weight of draining one wakeup-cursor unit whose bucket is removed.
    pub wakeup_cursor_drain_remove: Weight,
    pub crossing_worker_base: Weight,
    pub crossing_work_probe: Weight,
    /// Fire, re-arm and skip pair probes.
    pub crossing_pair_probes: [Weight; 3],
    /// Transition, leaf, page, re-arm, re-arm pair, coalesced, coalesced pair, placed, placed
    /// pair, skip, skip pair and Actor units.
    pub crossing_units: [Weight; 12],
    pub record_crossing_worker_fault: Weight,
    pub observation_fanout_base: Weight,
    pub observation_fanout_ordinary_upper: Weight,
    pub record_observation_fanout_worker_fault: Weight,
}

/// Component-wise maximum of the first `n` weights.
pub open spec fn spec_max_of(ws: Seq<Weight>, n: int) -> Weight
    decreases n,
{
    if n <= 0 {
        Weight { ref_time: 0, proof_size: 0 }
    } else {
        spec_max_w(spec_max_of(ws, n - 1), ws[n - 1])
    }
}

/// The minimum quantum reserved for materialization family `family`: the wakeup cursor worker
/// (twice its future-bucket cost plus one drain), the crossing worker (base, probe, the
/// costliest pair probe, the costliest unit and a fault record) or the observation fan-out
/// worker (base, the costliest ordinary page and a fault record); nothing for other families.
pub open spec fn spec_family_minimum(family: u8, w: MaterializationWeights) -> Weight {
    if family == 0 {
        spec_sat_add_w(spec_sat_add_w(w.wakeup_cursor_worker_future, w.wakeup_cursor_worker_future), w.wakeup_cursor_drain_remove)
    } else if family == 1 {
        spec_sat_add_w(
            spec_sat_add_w(
                spec_sat_add_w(
                    spec_sat_add_w(w.crossing_worker_base, w.crossing_work_probe),
                    spec_max_of(w.crossing_pair_probes@, 3),
                ),
                spec_max_of(w.crossing_units@, 12),
            ),
            w.record_crossing_worker_fault,
        )
    } else if family == 2 {
        spec_sat_add_w(
            spec_sat_add_w(w.observation_fanout_base, w.observation_fanout_ordinary_upper),
            w.record_observation_fanout_worker_fault,
        )
    } else {
        Weight { ref_time: 0, proof_size: 0 }
    }
}

fn max_of<const N: usize>(ws: &[Weight; N]) -> (m: Weight)
    ensures
        m == spec_max_of(ws@, N as int),
{
    let mut m = Weight::zero();
    let mut i: usize = 0;
    while i < N
        invariant
            0 <= i <= N,
            ws@.len() == N,
            m == spec_max_of(ws@, i as int),
        decreases N - i,
    {
        m = m.component_max(ws[i]);
        i = i + 1;
    }
    m
}

/// Minimum quantum reserved for one materialization family.
pub fn materialization_family_minimum(family: u8, weights: &MaterializationWeights) -> (m: Weight)
    ensures
        m == spec_family_minimum(family, *weights),
{
    match family {
        0 => weights.wakeup_cursor_worker_future.saturating_add(weights.wakeup_cursor_worker_future).saturating_add(
            weights.wakeup_cursor_drain_remove,
        ),
        1 => weights.crossing_worker_base.saturating_add(weights.crossing_work_probe).saturating_add(
            max_of(&weights.crossing_pair_probes),
        ).saturating_add(max_of(&weights.crossing_units)).saturating_add(weights.record_crossing_worker_fault),
        2 => weights.observation_fanout_base.saturating_add(weights.observation_fanout_ordinary_upper).saturating_add(
            weights.record_observation_fanout_worker_fault,
        ),
        _ => Weight::zero(),
    }
}

/// What the materialization workers' state shows at the start of a family's turn.
#[derive(Clone, Copy, Debug, PartialEq, Eq, Structural)]
pub struct MaterializationWorkState {
    pub wakeup_worker_faulted: bool,
    /// The current scheduler tick, when the scheduler clock is readable.
    pub now_tick: Option<SchedulerTick>,
    /// The earliest pending wakeup bucket of the block clock and of the tick clock.
    pub block_cursor_head: Option<WakeupKey>,
    pub tick_cursor_head: Option<WakeupKey>,
    pub crossing_worker_faulted: bool,
    pub crossing_pending_feeds: u32,
    pub observation_fanout_worker_faulted: bool,
    pub dirty_observations: u32,
}

/// A wakeup bucket key is due at block `now` and tick `now_tick`.
pub open spec fn key_due(key: WakeupKey, now: BlockNumber, now_tick: SchedulerTick) -> bool {
    match key {
        WakeupKey::Block(b) => b <= now,
        WakeupKey::Tick(t) => t <= now_tick,
    }
}

/// A family has work unless its worker is faulted: a due wakeup bucket on either clock, a
/// pending crossing feed, or a dirty observation.
pub open spec fn spec_family_has_work(family: u8, now: BlockNumber, s: MaterializationWorkState) -> bool {
    if family == 0 {
        !s.wakeup_worker_faulted && match s.now_tick {
            None => false,
            Some(t) => (s.block_cursor_head matches Some(k) && key_due(k, now, t)) || (
            s.tick_cursor_head matches Some(k) && key_due(k, now, t)),
        }
    } else if family == 1 {
        !s.crossing_worker_faulted && s.crossing_pending_feeds > 0
    } else if family == 2 {
        !s.observation_fanout_worker_faulted && s.dirty_observations > 0
    } else {
        false
    }
}

fn due(key: Option<WakeupKey>, now: BlockNumber, now_tick: SchedulerTick) -> (r: bool)
    ensures
        r == (key matches Some(k) && key_due(k, now, now_tick)),
{
    match key {
        Some(WakeupKey::Block(b)) => b <= now,
        Some(WakeupKey::Tick(t)) => t <= now_tick,
        None => false,
    }
}

/// Whether a materialization family has work to do at block `now`.
pub fn materialization_family_has_work(family: u8, now: BlockNumber, state: &MaterializationWorkState) -> (r: bool)
    ensures
        r == spec_family_has_work(family, now, *state),
{
    match family {
        0 => {
            if state.wakeup_worker_faulted {
                return false;
            }
            match state.now_tick {
                None => false,
                Some(now_tick) => due(state.block_cursor_head, now, now_tick) || due(
                    state.tick_cursor_head,
                    now,
                    now_tick,
                ),
            }
        },
        1 => !state.crossing_worker_faulted && state.crossing_pending_feeds > 0,
        2 => !state.observation_fanout_worker_faulted && state.dirty_observations > 0,
        _ => false,
    }
}

/// The runtime's upper weights of the Task classes; a split transfer is priced for its number
/// of legs by the caller.
#[derive(Clone, Copy, Debug, PartialEq, Eq, Structural)]
pub struct TaskWeights {
    pub transfer: Weight,
    pub burn: Weight,
    pub mint: Weight,
    pub dex_exact_in: Weight,
    pub dex_exact_out: Weight,
    pub add_liquidity: Weight,
    pub remove_liquidity: Weight,
    pub stake: Weight,
    pub donate_liquidity: Weight,
    pub unstake: Weight,
    pub stop_cycle: Weight,
}

/// Upper weight of a Task: the weight of its class.
pub open spec fn spec_task_weight(task: Task, w: TaskWeights, split_transfer: Weight) -> Weight {
    match task {
        Task::Transfer { .. } => w.transfer,
        Task::Burn { .. } => w.burn,
        Task::Mint { .. } => w.mint,
        Task::SplitTransfer { .. } => split_transfer,
        Task::SwapIn { .. } => w.dex_exact_in,
        Task::SwapOut { .. } => w.dex_exact_out,
        Task::AddLiquidity { .. } => w.add_liquidity,
        Task::RemoveLiquidity { .. } => w.remove_liquidity,
        Task::Stake { .. } => w.stake,
        Task::DonateLiquidity { .. } => w.donate_liquidity,
        Task::Unstake { .. } => w.unstake,
        Task::StopCycle => w.stop_cycle,
    }
}

/// Upper weight of a Task: the weight of its Task class, and for a split transfer the
/// `split_transfer` weight that the runtime gives for its number of legs.
pub fn weight_upper_bound(task: &Task, weights: &TaskWeights, split_transfer: Weight) -> (w: Weight)
    ensures
        w == spec_task_weight(*task, *weights, split_transfer),
{
    match task {
        Task::Transfer { .. } => weights.transfer,
        Task::Burn { .. } => weights.burn,
        Task::Mint { .. } => weights.mint,
        Task::SplitTransfer { .. } => split_transfer,
        Task::SwapIn { .. } => weights.dex_exact_in,
        Task::SwapOut { .. } => weights.dex_exact_out,
        Task::AddLiquidity { .. } => weights.add_liquidity,
        Task::RemoveLiquidity { .. } => weights.remove_liquidity,
        Task::Stake { .. } => weights.stake,
        Task::DonateLiquidity { .. } => weights.donate_liquidity,
        Task::Unstake { .. } => weights.unstake,
        Task::StopCycle => weights.stop_cycle,
    }
}

/// The runtime's weights of one Trigger occurrence, per Trigger family.
#[derive(Clone, Copy, Debug, PartialEq, Eq, Structural)]
pub struct TriggerWeights {
    pub manual: Weight,
    pub address_event: Weight,
    pub observation_change: Weight,
    pub observation_crossing: Weight,
    pub at_time: Weight,
    pub cadenced: Weight,
}

/// Weight of one occurrence of a Trigger of `family`.
pub fn trigger_occurrence_weight(family: TriggerFamily, weights: &TriggerWeights) -> (w: Weight)
    ensures
        w == match family {
            TriggerFamily::Manual => weights.manual,
            TriggerFamily::AddressEvent => weights.address_event,
            TriggerFamily::ObservationChange => weights.observation_change,
            TriggerFamily::ObservationCrossing => weights.observation_crossing,
            TriggerFamily::AtTime => weights.at_time,
            TriggerFamily::Cadenced => weights.cadenced,
        },
{
    match family {
        TriggerFamily::Manual => weights.manual,
        TriggerFamily::AddressEvent => weights.address_event,
        TriggerFamily::ObservationChange => weights.observation_change,
        TriggerFamily::ObservationCrossing => weights.observation_crossing,
        TriggerFamily::AtTime => weights.at_time,
        TriggerFamily::Cadenced => weights.cadenced,
    }
}

/// Weight left for Actor service inside the runtime's guaranteed idle reserve, after the
/// idle base, the materialization coordinator, one tombstone drain and the materialization
/// ceiling; `None` when the reserve does not cover them.
pub fn guaranteed_actor_service_weight(
    on_idle_reserve: Weight,
    on_idle_base: Weight,
    coordinator_base: Weight,
    tombstone_drain_one: Weight,
    materialization_limit: Weight,
) -> (r: Option<Weight>)
    ensures
        r == spec_then_sub(
            spec_then_sub(spec_then_sub(spec_checked_sub(on_idle_reserve, on_idle_base), coordinator_base), tombstone_drain_one),
            materialization_limit,
        ),
{
    let after_base = on_idle_reserve.checked_sub(on_idle_base)?;
    let after_coordinator = after_base.checked_sub(coordinator_base)?;
    let after_drain = after_coordinator.checked_sub(tombstone_drain_one)?;
    after_drain.checked_sub(materialization_limit)
}

/// Per-Step admission bound: the largest control plus effect weight of any Step, or the
/// zero-Step completion weight for an empty Contract, or the maximal weight when the Step
/// resources cannot be derived.
pub open spec fn spec_max_step_weight(resources: Seq<ActorStepResourceEnvelope>, k: int) -> Weight
    decreases k,
{
    if k <= 0 {
        Weight { ref_time: 0, proof_size: 0 }
    } else {
        spec_max_w(
            spec_max_step_weight(resources, k - 1),
            spec_sat_add_w(resources[k - 1].control, resources[k - 1].effect),
        )
    }
}

/// The control-weight contexts a Contract's Steps are priced for: Step `i` with
/// `evaluation_units[i]` predicate evaluation units, no opening snapshot entries yet; none where
/// any Step has no context.
pub fn step_control_weight_contexts(evaluation_units: &Vec<u32>, max_contract_steps: u32, chunk_steps: u32) -> (r:
    Option<Vec<StepControlWeightContext>>)
    requires
        chunk_steps > 0,
    ensures
        evaluation_units@.len() > u32::MAX ==> r is None,
        evaluation_units@.len() <= u32::MAX ==> {
            &&& r is Some <==> forall|i: int|
                0 <= i < evaluation_units@.len() ==> #[trigger] spec_step_context(
                    evaluation_units@.len() as u32,
                    i as u32,
                    evaluation_units@[i],
                    0,
                    max_contract_steps,
                    chunk_steps,
                ) is Some
            &&& r matches Some(v) ==> v@.len() == evaluation_units@.len() && forall|i: int|
                0 <= i < v@.len() ==> Some(#[trigger] v@[i]) == spec_step_context(
                    evaluation_units@.len() as u32,
                    i as u32,
                    evaluation_units@[i],
                    0,
                    max_contract_steps,
                    chunk_steps,
                )
        },
{
    if evaluation_units.len() > u32::MAX as usize {
        return None;
    }
    let step_count = evaluation_units.len() as u32;
    let mut contexts: Vec<StepControlWeightContext> = Vec::new();
    let mut i: usize = 0;
    while i < evaluation_units.len()
        invariant
            0 <= i <= evaluation_units@.len(),
            step_count == evaluation_units@.len(),
            evaluation_units@.len() <= u32::MAX,
            chunk_steps > 0,
            contexts@.len() == i,
            forall|j: int|
                0 <= j < i ==> Some(#[trigger] contexts@[j]) == spec_step_context(
                    step_count,
                    j as u32,
                    evaluation_units@[j],
                    0,
                    max_contract_steps,
                    chunk_steps,
                ),
        decreases evaluation_units@.len() - i,
    {
        match step_control_weight_context(step_count, i as u32, evaluation_units[i], 0, max_contract_steps, chunk_steps) {
            Some(c) => contexts.push(c),
            None => {
                proof {
                    let k = i as int;
                    assert(spec_step_context(step_count, k as u32, evaluation_units@[k], 0, max_contract_steps, chunk_steps)
                        is None);
                }
                return None;
            },
        }
        i = i + 1;
    }
    proof {
        assert forall|j: int| 0 <= j < evaluation_units@.len() implies #[trigger] spec_step_context(
            evaluation_units@.len() as u32,
            j as u32,
            evaluation_units@[j],
            0,
            max_contract_steps,
            chunk_steps,
        ) is Some by {
            assert(Some(contexts@[j]) == spec_step_context(
                step_count,
                j as u32,
                evaluation_units@[j],
                0,
                max_contract_steps,
                chunk_steps,
            ));
        }
    }
    Some(contexts)
}

/// The Steps' resource envelopes from the runtime's maximum control weight (`controls[i]`, for
/// Step `i` in its context) and maximum effect weight (`effects[i]`) of each Step; none where
/// either weight is not available for some Step or the Contract has more Steps than allowed.
pub fn derive_step_resource_envelopes(
    controls: &Vec<Option<Weight>>,
    effects: &Vec<Option<Weight>>,
    max_contract_steps: u32,
) -> (r: Option<Vec<ActorStepResourceEnvelope>>)
    requires
        controls@.len() == effects@.len(),
    ensures
        r is Some <==> (controls@.len() <= max_contract_steps && forall|i: int|
            0 <= i < controls@.len() ==> (#[trigger] controls@[i]) is Some && effects@[i] is Some),
        r matches Some(v) ==> v@.len() == controls@.len() && forall|i: int|
            0 <= i < v@.len() ==> #[trigger] v@[i] == (ActorStepResourceEnvelope {
                control: controls@[i]->Some_0,
                effect: effects@[i]->Some_0,
            }),
{
    let mut out: Vec<ActorStepResourceEnvelope> = Vec::new();
    let mut i: usize = 0;
    while i < controls.len()
        invariant
            0 <= i <= controls@.len(),
            controls@.len() == effects@.len(),
            out@.len() == i,
            forall|j: int| 0 <= j < i ==> (#[trigger] controls@[j]) is Some && effects@[j] is Some,
            forall|j: int|
                0 <= j < i ==> #[trigger] out@[j] == (ActorStepResourceEnvelope {
                    control: controls@[j]->Some_0,
                    effect: effects@[j]->Some_0,
                }),
        decreases controls@.len() - i,
    {
        let control = match controls[i] {
            Some(c) => c,
            None => return None,
        };
        let effect = match effects[i] {
            Some(e) => e,
            None => return None,
        };
        out.push(ActorStepResourceEnvelope { control, effect });
        i = i + 1;
    }
    if controls.len() > max_contract_steps as usize {
        return None;
    }
    Some(out)
}

/// Upper bound of one prospective run plus terminal cleanup after the scheduler overhead.
pub fn contract_steps_admission_weight_upper(
    contract_steps: &Vec<Step>,
    resources: Option<&Vec<ActorStepResourceEnvelope>>,
    zero_step_complete: Weight,
    admission_overhead: Weight,
    close_cleanup: Weight,
) -> (w: Weight)
    ensures
        ({
            let maximum_step = if contract_steps@.len() == 0 {
                zero_step_complete
            } else {
                match resources {
                    Some(r) => spec_max_step_weight(r@, r@.len() as int),
                    None => Weight { ref_time: u64::MAX, proof_size: u64::MAX },
                }
            };
            w == spec_sat_add_w(spec_sat_add_w(admission_overhead, maximum_step), close_cleanup)
        }),
{
    let maximum_step = if contract_steps.len() == 0 {
        zero_step_complete
    } else {
        match resources {
            Some(resources) => {
                let mut maximum = Weight::zero();
                let mut i: usize = 0;
                while i < resources.len()
                    invariant
                        0 <= i <= resources@.len(),
                        maximum == spec_max_step_weight(resources@, i as int),
                    decreases resources@.len() - i,
                {
                    let current = resources[i].control.saturating_add(resources[i].effect);
                    maximum = Weight::from_parts(
                        if maximum.ref_time >= current.ref_time { maximum.ref_time } else { current.ref_time },
                        if maximum.proof_size >= current.proof_size { maximum.proof_size } else { current.proof_size },
                    );
                    i = i + 1;
                }
                maximum
            },
            None => Weight::from_parts(u64::MAX, u64::MAX),
        }
    };
    admission_overhead.saturating_add(maximum_step).saturating_add(close_cleanup)
}

/// The outcome of checking that a Contract fits the idle budget.
pub open spec fn spec_idle_budget_fit_outcome(actor_type: ActorType, admission_upper: Weight, guaranteed_service: Option<Weight>, resources_derivable: bool) -> Result<(), Error> {
    match guaranteed_service {
        None => Err(Error::ContractStepsExceedOnIdleBudget),
        Some(g) => if !admission_upper.spec_all_lte(g) {
            Err(Error::ContractStepsExceedOnIdleBudget)
        } else if actor_type == ActorType::User && !resources_derivable {
            Err(Error::ActorRunInvariant)
        } else {
            Ok(())
        },
    }
}

/// A Contract fits the idle budget when its admission bound fits the guaranteed Actor
/// service weight; a User Contract must also have derivable Step resources.
pub fn ensure_contract_steps_fits_idle_budget(
    actor_type: ActorType,
    admission_upper: Weight,
    guaranteed_service: Option<Weight>,
    resources_derivable: bool,
) -> (r: Result<(), Error>)
    ensures
        r == spec_idle_budget_fit_outcome(actor_type, admission_upper, guaranteed_service, resources_derivable),
{
    let actor_service = match guaranteed_service {
        Some(g) => g,
        None => return Err(Error::ContractStepsExceedOnIdleBudget),
    };
    if !admission_upper.all_lte(actor_service) {
        return Err(Error::ContractStepsExceedOnIdleBudget);
    }
    if actor_type == ActorType::User && !resources_derivable {
        return Err(Error::ActorRunInvariant);
    }
    Ok(())
}

/// Geometry a Step's control weight is priced for.
#[derive(Clone, Copy, Debug, PartialEq, Eq, Structural)]
pub struct StepControlWeightContext {
    pub cursor: u32,
    pub steps_in_fragment: u32,
    pub opening_tail_chunks: u32,
    pub predicate_evaluation_units: u32,
    pub opening_snapshot_entries: u32,
}

/// Control-weight geometry of the Step at `cursor`, as `step_control_weight_context` gives it.
pub open spec fn spec_step_context(
    step_count: u32,
    cursor: u32,
    predicate_evaluation_units: u32,
    opening_snapshot_entries: u32,
    max_contract_steps: u32,
    chunk_steps: u32,
) -> Option<StepControlWeightContext> {
    if step_count == 0 || step_count > max_contract_steps || cursor >= step_count {
        None
    } else if cursor == 0 {
        Some(
            StepControlWeightContext {
                cursor,
                steps_in_fragment: 1,
                opening_tail_chunks: spec_chunk_count(step_count as int, chunk_steps as int) as u32,
                predicate_evaluation_units,
                opening_snapshot_entries,
            },
        )
    } else {
        let k = (cursor - 1) / (chunk_steps as int);
        let first = 1 + k * chunk_steps;
        let left = step_count - first;
        Some(
            StepControlWeightContext {
                cursor,
                steps_in_fragment: (if left < chunk_steps { left } else { chunk_steps as int }) as u32,
                opening_tail_chunks: 0,
                predicate_evaluation_units,
                opening_snapshot_entries: 0,
            },
        )
    }
}

/// Control-weight geometry of the Step at `cursor`: the opening head Step also loads every
/// tail chunk and the opening snapshot; a tail Step loads its own chunk.
pub fn step_control_weight_context(
    step_count: u32,
    cursor: u32,
    predicate_evaluation_units: u32,
    opening_snapshot_entries: u32,
    max_contract_steps: u32,
    chunk_steps: u32,
) -> (r: Option<StepControlWeightContext>)
    requires
        chunk_steps > 0,
    ensures
        r == spec_step_context(
            step_count,
            cursor,
            predicate_evaluation_units,
            opening_snapshot_entries,
            max_contract_steps,
            chunk_steps,
        ),
        (step_count == 0 || step_count > max_contract_steps || cursor >= step_count) ==> r is None,
        (step_count > 0 && step_count <= max_contract_steps && cursor == 0) ==> r == Some(
            StepControlWeightContext {
                cursor,
                steps_in_fragment: 1,
                opening_tail_chunks: spec_chunk_count(step_count as int, chunk_steps as int) as u32,
                predicate_evaluation_units,
                opening_snapshot_entries,
            },
        ),
        (step_count > 0 && step_count <= max_contract_steps && 0 < cursor < step_count) ==> ({
            let k = (cursor - 1) / (chunk_steps as int);
            let first = 1 + k * chunk_steps;
            let left = step_count - first;
            r == Some(
                StepControlWeightContext {
                    cursor,
                    steps_in_fragment: (if left < chunk_steps { left } else { chunk_steps as int }) as u32,
                    opening_tail_chunks: 0,
                    predicate_evaluation_units,
                    opening_snapshot_entries: 0,
                },
            )
        }),
{
    if step_count == 0 || step_count > max_contract_steps || cursor >= step_count {
        return None;
    }
    if cursor == 0 {
        return Some(
            StepControlWeightContext {
                cursor,
                steps_in_fragment: 1,
                opening_tail_chunks: tail_chunk_count(step_count, chunk_steps),
                predicate_evaluation_units,
                opening_snapshot_entries,
            },
        );
    }
    let (_, first_step_index) = tail_chunk_index(cursor, chunk_steps);
    let left = step_count - first_step_index;
    Some(
        StepControlWeightContext {
            cursor,
            steps_in_fragment: if left < chunk_steps { left } else { chunk_steps },
            opening_tail_chunks: 0,
            predicate_evaluation_units,
            opening_snapshot_entries: 0,
        },
    )
}

/// The largest Actor limit governance may configure.
pub fn max_configurable_active_actor_limit(max_active_actors: u32, max_queue_length: u32) -> (r: u32)
    ensures
        r == if max_active_actors <= max_queue_length { max_active_actors } else { max_queue_length },
{
    if max_active_actors <= max_queue_length {
        max_active_actors
    } else {
        max_queue_length
    }
}

/// Changes the stored active Actor limit `active_actor_limit` to `new_limit`: the new limit
/// must be positive, within the Actor and queue capacities, and not below the current active
/// count. A refusal stores nothing; an unchanged limit emits nothing.
pub fn set_active_actor_limit(
    new_limit: u32,
    max_active_actors: u32,
    max_queue_length: u32,
    active_count: u32,
    active_actor_limit: &mut u32,
) -> (r: Result<Option<Event>, Error>)
    ensures
        r == if new_limit == 0 {
            Err(Error::ActiveActorLimitTooLow)
        } else if new_limit > max_active_actors {
            Err(Error::ActiveActorLimitTooHigh)
        } else if new_limit > max_queue_length {
            Err(Error::ActiveActorLimitExceedsQueueCapacity)
        } else if new_limit < active_count {
            Err(Error::ActiveActorLimitBelowCurrent)
        } else if *old(active_actor_limit) == new_limit {
            Ok(None)
        } else {
            Ok(Some(Event::ActiveActorLimitSet { old_limit: *old(active_actor_limit), new_limit }))
        },
        r is Ok ==> *final(active_actor_limit) == new_limit,
        r is Err ==> *final(active_actor_limit) == *old(active_actor_limit),
{
    if new_limit == 0 {
        return Err(Error::ActiveActorLimitTooLow);
    }
    if new_limit > max_active_actors {
        return Err(Error::ActiveActorLimitTooHigh);
    }
    if new_limit > max_queue_length {
        return Err(Error::ActiveActorLimitExceedsQueueCapacity);
    }
    if new_limit < active_count {
        return Err(Error::ActiveActorLimitBelowCurrent);
    }
    let old_limit = *active_actor_limit;
    *active_actor_limit = new_limit;
    if old_limit == new_limit {
        return Ok(None);
    }
    Ok(Some(Event::ActiveActorLimitSet { old_limit, new_limit }))
}

/// Consecutive blocks in which idle Actor service was starved.
#[derive(Clone, Copy, Debug, PartialEq, Eq, Structural)]
pub enum IdleStarvationPhase {
    Healthy,
    Starving { consecutive_blocks: u32 },
    Alerted { consecutive_blocks: u32 },
}

pub open spec fn starvation_count(state: IdleStarvationPhase) -> int {
    match state {
        IdleStarvationPhase::Healthy => 0,
        IdleStarvationPhase::Starving { consecutive_blocks } => consecutive_blocks as int,
        IdleStarvationPhase::Alerted { consecutive_blocks } => consecutive_blocks as int,
    }
}

/// Advances the starvation tracker by one block. A served block returns to Healthy (and
/// reports recovery from an alert); a starved block counts on, and the count reaching
/// `max_idle_starvation_blocks` raises the alert, reported once.
pub fn update_idle_starvation_state(
    state: IdleStarvationPhase,
    starved: bool,
    max_idle_starvation_blocks: u32,
) -> (r: (IdleStarvationPhase, Option<Event>))
    ensures
        !starved ==> r.0 == IdleStarvationPhase::Healthy && r.1 == match state {
            IdleStarvationPhase::Alerted { consecutive_blocks } => Some(
                Event::IdleStarvationRecovered { consecutive_blocks },
            ),
            _ => None::<Event>,
        },
        starved ==> ({
            let n = if starvation_count(state) == u32::MAX {
                u32::MAX as int
            } else {
                starvation_count(state) + 1
            };
            if n >= max_idle_starvation_blocks {
                &&& r.0 == IdleStarvationPhase::Alerted { consecutive_blocks: n as u32 }
                &&& r.1 == if state is Alerted {
                    None::<Event>
                } else {
                    Some(Event::IdleStarvationDetected { consecutive_blocks: n as u32 })
                }
            } else {
                &&& r.0 == IdleStarvationPhase::Starving { consecutive_blocks: n as u32 }
                &&& r.1 == None::<Event>
            }
        }),
{
    if !starved {
        let event = match state {
            IdleStarvationPhase::Alerted { consecutive_blocks } => Some(
                Event::IdleStarvationRecovered { consecutive_blocks },
            ),
            _ => None,
        };
        return (IdleStarvationPhase::Healthy, event);
    }
    let consecutive_blocks = match state {
        IdleStarvationPhase::Healthy => 1,
        IdleStarvationPhase::Starving { consecutive_blocks } => consecutive_blocks.saturating_add(1),
        IdleStarvationPhase::Alerted { consecutive_blocks } => consecutive_blocks.saturating_add(1),
    };
    if consecutive_blocks >= max_idle_starvation_blocks {
        let first_alert = match state {
            IdleStarvationPhase::Alerted { .. } => false,
            _ => true,
        };
        let event = if first_alert {
            Some(Event::IdleStarvationDetected { consecutive_blocks })
        } else {
            None
        };
        (IdleStarvationPhase::Alerted { consecutive_blocks }, event)
    } else {
        (IdleStarvationPhase::Starving { consecutive_blocks }, None)
    }
}

/// The tracker state after a sequence of blocks (`true` for a starved block).
pub open spec fn spec_starvation_after(
    state: IdleStarvationPhase,
    blocks: Seq<bool>,
    max: u32,
) -> IdleStarvationPhase
    decreases blocks.len(),
{
    if blocks.len() == 0 {
        state
    } else {
        let prev = spec_starvation_after(state, blocks.drop_last(), max);
        if !blocks.last() {
            IdleStarvationPhase::Healthy
        } else {
            let n = if starvation_count(prev) == u32::MAX {
                u32::MAX as int
            } else {
                starvation_count(prev) + 1
            };
            if n >= max {
                IdleStarvationPhase::Alerted { consecutive_blocks: n as u32 }
            } else {
                IdleStarvationPhase::Starving { consecutive_blocks: n as u32 }
            }
        }
    }
}

/// Starting healthy, `k` consecutive starved blocks are counted exactly (below the counter's
/// ceiling), and the tracker is alerted exactly when the count has reached the threshold.
pub proof fn lemma_starvation_counts_consecutive_blocks(max: u32, k: nat)
    requires
        k <= u32::MAX,
    ensures
        starvation_count(spec_starvation_after(IdleStarvationPhase::Healthy, Seq::new(k, |i: int| true), max))
            == k,
        k > 0 ==> ((spec_starvation_after(IdleStarvationPhase::Healthy, Seq::new(k, |i: int| true), max)
            is Alerted) <==> k >= max),
    decreases k,
{
    let blocks = Seq::new(k, |i: int| true);
    if k > 0 {
        assert(blocks.drop_last() =~= Seq::new((k - 1) as nat, |i: int| true));
        lemma_starvation_counts_consecutive_blocks(max, (k - 1) as nat);
    } else {
        assert(blocks.len() == 0);
    }
}

/// Any block in which Actors were served resets the tracker to Healthy.
pub proof fn lemma_served_block_recovers(state: IdleStarvationPhase, blocks: Seq<bool>, max: u32)
    requires
        blocks.len() > 0,
        !blocks.last(),
    ensures
        spec_starvation_after(state, blocks, max) == IdleStarvationPhase::Healthy,
{
}

/// Version of the prepass inherent payload this runtime accepts.
pub const ACTOR_PREPASS_INHERENT_VERSION: u8 = 1;

/// Payload of the mandatory prepass inherent.
#[derive(Clone, Copy, Debug, PartialEq, Eq, Structural)]
pub struct ActorPrepassInherentData {
    pub version: u8,
}

#[derive(Clone, Copy, Debug, PartialEq, Eq, Structural)]
pub enum ActorPrepassInherentError {
    MissingData,
    MissingCall,
    UnsupportedVersion,
}

impl ActorPrepassInherentError {
    /// Every prepass inherent error invalidates the block.
    pub fn is_fatal_error(&self) -> (r: bool)
        ensures
            r,
    {
        true
    }
}

/// What the block's inherent data holds under the prepass identifier.
#[derive(Clone, Copy, Debug, PartialEq, Eq, Structural)]
pub enum InherentDataRead {
    Undecodable,
    Absent,
    Present(ActorPrepassInherentData),
}

/// The prepass call is created from the block's inherent data.
pub open spec fn spec_create_inherent(data: InherentDataRead) -> bool {
    data == InherentDataRead::Present(ActorPrepassInherentData { version: 1 })
}

/// The prepass call is created only for a payload of the supported version.
pub fn create_inherent(data: InherentDataRead) -> (r: bool)
    ensures
        r == spec_create_inherent(data),
{
    match data {
        InherentDataRead::Present(provided) => provided.version == ACTOR_PREPASS_INHERENT_VERSION,
        _ => false,
    }
}

/// Every block must carry the prepass call.
pub fn is_inherent_required() -> (r: Result<Option<ActorPrepassInherentError>, ActorPrepassInherentError>)
    ensures
        r == Ok::<Option<ActorPrepassInherentError>, ActorPrepassInherentError>(
            Some(ActorPrepassInherentError::MissingCall),
        ),
{
    Ok(Some(ActorPrepassInherentError::MissingCall))
}

/// The outcome of checking a block's call against its inherent data.
pub open spec fn spec_check_inherent(is_prepass_call: bool, data: InherentDataRead) -> Result<(), ActorPrepassInherentError> {
    if !is_prepass_call {
        Ok(())
    } else {
        match data {
            InherentDataRead::Present(p) => if p.version == 1 {
                Ok(())
            } else {
                Err(ActorPrepassInherentError::UnsupportedVersion)
            },
            _ => Err(ActorPrepassInherentError::MissingData),
        }
    }
}

/// Checks a block's call against its inherent data: only the prepass call is checked, and it
/// needs a payload of the supported version.
pub fn check_inherent(is_prepass_call: bool, data: InherentDataRead) -> (r: Result<
    (),
    ActorPrepassInherentError,
>)
    ensures
        r == spec_check_inherent(is_prepass_call, data),
{
    if !is_prepass_call {
        return Ok(());
    }
    match data {
        InherentDataRead::Present(provided) => {
            if provided.version == ACTOR_PREPASS_INHERENT_VERSION {
                Ok(())
            } else {
                Err(ActorPrepassInherentError::UnsupportedVersion)
            }
        },
        _ => Err(ActorPrepassInherentError::MissingData),
    }
}

/// Putting data under an identifier that already holds an entry.
#[derive(Clone, Copy, Debug, PartialEq, Eq, Structural)]
pub enum InherentDataError {
    IdentifierAlreadyExists,
}

/// The inherent data after the prepass payload is provided, and the outcome: the identifier
/// takes the supported payload when it holds no entry, and nothing changes otherwise.
pub open spec fn spec_provide_prepass(data: InherentDataRead) -> (Result<(), InherentDataError>, InherentDataRead) {
    match data {
        InherentDataRead::Absent => (Ok(()), InherentDataRead::Present(ActorPrepassInherentData { version: 1 })),
        _ => (Err(InherentDataError::IdentifierAlreadyExists), data),
    }
}

/// Provides the prepass inherent's payload, of the supported version, to the block's inherent
/// data.
pub fn provide_actor_prepass_inherent_data(data: &mut InherentDataRead) -> (r: Result<(), InherentDataError>)
    ensures
        (r, *final(data)) == spec_provide_prepass(*old(data)),
{
    match *data {
        InherentDataRead::Absent => {
            *data = InherentDataRead::Present(ActorPrepassInherentData { version: ACTOR_PREPASS_INHERENT_VERSION });
            Ok(())
        },
        _ => Err(InherentDataError::IdentifierAlreadyExists),
    }
}

/// Inherent data without a prepass entry, once provided with the prepass payload, yields the
/// prepass call, and that call passes the inherent check against the same data.
pub proof fn lemma_prepass_inherent_round_trip(data: InherentDataRead)
    requires
        data == InherentDataRead::Absent,
    ensures
        spec_provide_prepass(data).0 is Ok,
        spec_create_inherent(spec_provide_prepass(data).1),
        spec_check_inherent(true, spec_provide_prepass(data).1) is Ok,
{
}

/// Classification of one Actor visited by a sweep batch.
#[derive(Clone, Copy, Debug, PartialEq, Eq, Structural)]
pub enum SweepOutcome {
    Missing,
    Alive,
    Closed,
    Corrupt,
}

/// What loading one swept Actor showed: nothing registered, a Dormant Actor, an Active Actor
/// (and whether its classification gives a terminal reason), or a corrupt record.
#[derive(Clone, Copy, Debug, PartialEq, Eq, Structural)]
pub enum SweepLoad {
    NotRegistered,
    Dormant,
    Active { terminal: bool },
    Corrupt,
}

/// The sweep outcome of one loaded Actor: unregistered and Dormant Actors count as missing, an
/// Active Actor with a terminal reason is closed (finalized), any other Active Actor is alive.
pub open spec fn spec_sweep_outcome(load: SweepLoad) -> SweepOutcome {
    match load {
        SweepLoad::NotRegistered | SweepLoad::Dormant => SweepOutcome::Missing,
        SweepLoad::Active { terminal } => if terminal {
            SweepOutcome::Closed
        } else {
            SweepOutcome::Alive
        },
        SweepLoad::Corrupt => SweepOutcome::Corrupt,
    }
}

/// Classifies one swept Actor from what loading it showed.
pub fn classify_sweep_load(load: SweepLoad) -> (o: SweepOutcome)
    ensures
        o == spec_sweep_outcome(load),
{
    match load {
        SweepLoad::NotRegistered | SweepLoad::Dormant => SweepOutcome::Missing,
        SweepLoad::Active { terminal } => if terminal {
            SweepOutcome::Closed
        } else {
            SweepOutcome::Alive
        },
        SweepLoad::Corrupt => SweepOutcome::Corrupt,
    }
}

pub open spec fn count_outcomes(s: Seq<SweepOutcome>, o: SweepOutcome) -> int
    decreases s.len(),
{
    if s.len() == 0 {
        0
    } else {
        count_outcomes(s.drop_last(), o) + if s.last() == o { 1int } else { 0 }
    }
}

/// Tallies a sweep batch. A corrupt Actor aborts the batch; otherwise the batch event counts
/// the closed, alive and missing Actors.
pub fn tally_sweep_batch(outcomes: &Vec<SweepOutcome>) -> (r: Result<Event, Error>)
    requires
        outcomes@.len() <= u32::MAX,
    ensures
        (exists|i: int| 0 <= i < outcomes@.len() && outcomes@[i] == SweepOutcome::Corrupt) ==> r
            == Err::<Event, Error>(Error::ActorInvariant),
        (forall|i: int| 0 <= i < outcomes@.len() ==> outcomes@[i] != SweepOutcome::Corrupt) ==> r
            == Ok::<Event, Error>(
            Event::SweepBatchProcessed {
                requested: outcomes@.len() as u32,
                closed: count_outcomes(outcomes@, SweepOutcome::Closed) as u32,
                alive: count_outcomes(outcomes@, SweepOutcome::Alive) as u32,
                missing: count_outcomes(outcomes@, SweepOutcome::Missing) as u32,
            },
        ),
{
    let mut closed: u32 = 0;
    let mut alive: u32 = 0;
    let mut missing: u32 = 0;
    let requested = outcomes.len() as u32;
    let mut i: usize = 0;
    while i < outcomes.len()
        invariant
            0 <= i <= outcomes@.len() <= u32::MAX,
            closed == count_outcomes(outcomes@.take(i as int), SweepOutcome::Closed),
            alive == count_outcomes(outcomes@.take(i as int), SweepOutcome::Alive),
            missing == count_outcomes(outcomes@.take(i as int), SweepOutcome::Missing),
            closed + alive + missing == i,
            forall|j: int| 0 <= j < i ==> outcomes@[j] != SweepOutcome::Corrupt,
        decreases outcomes@.len() - i,
    {
        proof {
            assert(outcomes@.take(i as int + 1).drop_last() =~= outcomes@.take(i as int));
        }
        match outcomes[i] {
            SweepOutcome::Missing => missing = missing + 1,
            SweepOutcome::Alive => alive = alive + 1,
            SweepOutcome::Closed => closed = closed + 1,
            SweepOutcome::Corrupt => return Err(Error::ActorInvariant),
        }
        i = i + 1;
    }
    proof {
        assert(outcomes@.take(outcomes@.len() as int) =~= outcomes@);
    }
    Ok(Event::SweepBatchProcessed { requested, closed, alive, missing })
}

/// The ids among the first `n` swept Actors that a sweep closes, in order.
pub open spec fn swept_closed(ids: Seq<ActorId>, loads: Seq<SweepLoad>, n: int) -> Seq<ActorId>
    decreases n,
{
    if n <= 0 {
        Seq::empty()
    } else if spec_sweep_outcome(loads[n - 1]) == SweepOutcome::Closed {
        swept_closed(ids, loads, n - 1).push(ids[n - 1])
    } else {
        swept_closed(ids, loads, n - 1)
    }
}

/// The outcomes of the swept Actors.
pub open spec fn sweep_outcomes(loads: Seq<SweepLoad>) -> Seq<SweepOutcome> {
    Seq::new(loads.len(), |i: int| spec_sweep_outcome(loads[i]))
}

/// Decides a permissionless sweep of `actor_ids`, where `loads[i]` is what loading
/// `actor_ids[i]` showed: a corrupt Actor refuses the whole batch; otherwise the Actors to
/// finalize (those whose classification is terminal, in order) and the batch event.
pub fn permissionless_sweep_many(actor_ids: &Vec<ActorId>, loads: &Vec<SweepLoad>) -> (r: Result<
    (Vec<ActorId>, Event),
    Error,
>)
    requires
        loads@.len() == actor_ids@.len(),
        actor_ids@.len() <= u32::MAX,
    ensures
        (exists|i: int| 0 <= i < loads@.len() && #[trigger] loads@[i] == SweepLoad::Corrupt) ==> r == Err::<
            (Vec<ActorId>, Event),
            Error,
        >(Error::ActorInvariant),
        (forall|i: int| 0 <= i < loads@.len() ==> #[trigger] loads@[i] != SweepLoad::Corrupt) ==> (r matches Ok(
            (closed, event),
        ) && closed@ == swept_closed(actor_ids@, loads@, loads@.len() as int) && event == (Event::SweepBatchProcessed {
            requested: actor_ids@.len() as u32,
            closed: count_outcomes(sweep_outcomes(loads@), SweepOutcome::Closed) as u32,
            alive: count_outcomes(sweep_outcomes(loads@), SweepOutcome::Alive) as u32,
            missing: count_outcomes(sweep_outcomes(loads@), SweepOutcome::Missing) as u32,
        })),
{
    let mut outcomes: Vec<SweepOutcome> = Vec::new();
    let mut closed: Vec<ActorId> = Vec::new();
    let mut i: usize = 0;
    while i < loads.len()
        invariant
            0 <= i <= loads@.len(),
            loads@.len() == actor_ids@.len(),
            outcomes@ == sweep_outcomes(loads@).take(i as int),
            closed@ == swept_closed(actor_ids@, loads@, i as int),
        decreases loads@.len() - i,
    {
        let o = classify_sweep_load(loads[i]);
        if o == SweepOutcome::Closed {
            closed.push(actor_ids[i]);
        }
        outcomes.push(o);
        i = i + 1;
        proof {
            assert(outcomes@ =~= sweep_outcomes(loads@).take(i as int));
        }
    }
    proof {
        assert(outcomes@ =~= sweep_outcomes(loads@));
        if exists|i: int| 0 <= i < loads@.len() && #[trigger] loads@[i] == SweepLoad::Corrupt {
            let k = choose|i: int| 0 <= i < loads@.len() && #[trigger] loads@[i] == SweepLoad::Corrupt;
            assert(outcomes@[k] == SweepOutcome::Corrupt);
        } else {
            assert forall|i: int| 0 <= i < outcomes@.len() implies outcomes@[i] != SweepOutcome::Corrupt by {
                assert(loads@[i] != SweepLoad::Corrupt);
            }
        }
    }
    let event = tally_sweep_batch(&outcomes)?;
    Ok((closed, event))
}


/// A materialization family has work only while its worker is not faulted: the wakeup family
/// only once the tick clock is known and a cursor head on either clock is due, the crossing
/// family only with a pending feed, the fan-out family only with a dirty observation; no other
/// family ever has work.
pub proof fn lemma_family_work_needs_healthy_worker(family: u8, now: BlockNumber, s: MaterializationWorkState)
    ensures
        spec_family_has_work(0, now, s) ==> !s.wakeup_worker_faulted && s.now_tick is Some && ((s.block_cursor_head
            matches Some(k) && key_due(k, now, s.now_tick->Some_0)) || (s.tick_cursor_head matches Some(k) && key_due(
            k,
            now,
            s.now_tick->Some_0,
        ))),
        spec_family_has_work(1, now, s) <==> !s.crossing_worker_faulted && s.crossing_pending_feeds > 0,
        spec_family_has_work(2, now, s) <==> !s.observation_fanout_worker_faulted && s.dirty_observations > 0,
        family > 2 ==> !spec_family_has_work(family, now, s),
        !s.wakeup_worker_faulted && s.now_tick is Some && (s.block_cursor_head matches Some(k) && key_due(
            k,
            now,
            s.now_tick->Some_0,
        )) ==> spec_family_has_work(0, now, s),
{
}

} // verus!
