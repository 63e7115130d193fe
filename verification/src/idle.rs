//! The idle hook's weight accounting: the envelope it may use this block, the fixed overhead it
//! must fit first, and the budget each later stage (queue cleanup, materialization, due
//! deadlines, Actor service and execution) gets from what the earlier ones spent.
use vstd::prelude::*;

use crate::control::spec_sat_add_w;
use crate::materialization::{spec_min_w, spec_sat_sub_w};
use crate::weight::Weight;

verus! {

/// What the block's resource state shows the idle hook, when one is kept: whether it is usable
/// for optional Actor work (this block's, in the external phase, not halted), and the Actor
/// control weight its budget has left (`None` where the usage already exceeds the limit).
#[derive(Clone, Copy, Debug, PartialEq, Eq, Structural)]
pub struct BlockResourceView {
    pub usable: bool,
    pub control_remaining: Option<Weight>,
}

/// The idle hook's envelope for one block.
#[derive(Clone, Copy, Debug, PartialEq, Eq, Structural)]
pub struct IdleBudget {
    /// The remaining block weight, capped by the Actor idle reserve.
    pub available: Weight,
    /// What Actor control work may spend of it.
    pub control_available: Weight,
    /// Base, coordinator (without a resource state) and finalization overhead.
    pub fixed: Weight,
    /// No block resource state is kept: materialization runs unmetered by it.
    pub legacy: bool,
}

/// The envelope of the idle hook, or `None` where the fixed overhead does not fit and the hook
/// does nothing.
pub open spec fn spec_idle_budget(
    remaining: Weight,
    reserve: Weight,
    resource: Option<BlockResourceView>,
    base: Weight,
    coordinator: Weight,
    finalize: Weight,
) -> Option<IdleBudget> {
    let available = spec_min_w(remaining, reserve);
    let control_available = match resource {
        Some(r) => if r.usable {
            match r.control_remaining {
                Some(left) => spec_min_w(available, left),
                None => Weight { ref_time: 0, proof_size: 0 },
            }
        } else {
            Weight { ref_time: 0, proof_size: 0 }
        },
        None => available,
    };
    let legacy = resource is None;
    let fixed = spec_sat_add_w(
        spec_sat_add_w(base, if legacy { coordinator } else { Weight { ref_time: 0, proof_size: 0 } }),
        finalize,
    );
    if !fixed.spec_all_lte(control_available) {
        None
    } else {
        Some(IdleBudget { available, control_available, fixed, legacy })
    }
}

/// The envelope of the idle hook from the remaining block weight, the Actor idle reserve, the
/// block resource state and the base, coordinator and finalization weights; `None` where the
/// fixed overhead does not fit and the hook spends nothing.
pub fn on_idle_budget(
    remaining: Weight,
    reserve: Weight,
    resource: Option<BlockResourceView>,
    base: Weight,
    coordinator: Weight,
    finalize: Weight,
) -> (r: Option<IdleBudget>)
    ensures
        r == spec_idle_budget(remaining, reserve, resource, base, coordinator, finalize),
        r matches Some(b) ==> b.control_available.spec_all_lte(b.available) && b.available.spec_all_lte(remaining)
            && b.available.spec_all_lte(reserve) && b.fixed.spec_all_lte(b.control_available),
{
    let available = remaining.component_min(reserve);
    let control_available = match resource {
        Some(r) => if r.usable {
            match r.control_remaining {
                Some(left) => available.component_min(left),
                None => Weight::zero(),
            }
        } else {
            Weight::zero()
        },
        None => available,
    };
    let legacy = resource.is_none();
    let coordinator_weight = if legacy {
        coordinator
    } else {
        Weight::zero()
    };
    let fixed = base.saturating_add(coordinator_weight).saturating_add(finalize);
    if !fixed.all_lte(control_available) {
        return None;
    }
    Some(IdleBudget { available, control_available, fixed, legacy })
}

/// What the paged tombstone drain is charged: its weight, without a resource state, when ready
/// work exists, the ready queue spans its whole length, and the drain fits after the fixed
/// overhead; nothing otherwise.
pub open spec fn spec_cleanup_charge(b: IdleBudget, ready_work: bool, queue_full: bool, drain: Weight) -> Weight {
    if b.legacy && ready_work && queue_full && drain.spec_all_lte(spec_sat_sub_w(b.control_available, b.fixed)) {
        drain
    } else {
        Weight { ref_time: 0, proof_size: 0 }
    }
}

/// The tombstone drain's charge for this block; `queue_full` says the ready queue spans its
/// whole length.
pub fn idle_cleanup_charge(b: IdleBudget, ready_work: bool, queue_full: bool, drain: Weight) -> (w: Weight)
    ensures
        w == spec_cleanup_charge(b, ready_work, queue_full, drain),
{
    if b.legacy && ready_work && queue_full && drain.all_lte(b.control_available.saturating_sub(b.fixed)) {
        drain
    } else {
        Weight::zero()
    }
}

/// The materialization coordinator's weight: what control may spend after the fixed overhead
/// and the cleanup charge.
pub fn idle_materialization_budget(b: IdleBudget, cleanup: Weight) -> (w: Weight)
    ensures
        w == spec_sat_sub_w(spec_sat_sub_w(b.control_available, b.fixed), cleanup),
{
    b.control_available.saturating_sub(b.fixed).saturating_sub(cleanup)
}

/// Weight spent before the due-deadline frontiers: the fixed overhead, cleanup and
/// materialization.
pub open spec fn spec_before_deadlines(b: IdleBudget, cleanup: Weight, materialization: Weight) -> Weight {
    spec_sat_add_w(spec_sat_add_w(b.fixed, cleanup), materialization)
}

/// The due-deadline frontiers' meter limit: what control has left after the earlier stages.
pub fn idle_deadline_budget(b: IdleBudget, cleanup: Weight, materialization: Weight) -> (w: Weight)
    ensures
        w == spec_sat_sub_w(b.control_available, spec_before_deadlines(b, cleanup, materialization)),
{
    b.control_available.saturating_sub(b.fixed.saturating_add(cleanup).saturating_add(materialization))
}

/// The housekeeping weight: every stage before Actor service.
pub open spec fn spec_housekeeping(b: IdleBudget, cleanup: Weight, materialization: Weight, deadlines: Weight) -> Weight {
    spec_sat_add_w(spec_before_deadlines(b, cleanup, materialization), deadlines)
}

/// The housekeeping weight and the meter limit of Actor service and execution: what the
/// envelope has left after housekeeping.
pub fn idle_service_budget(b: IdleBudget, cleanup: Weight, materialization: Weight, deadlines: Weight) -> (r: (
    Weight,
    Weight,
))
    ensures
        r.0 == spec_housekeeping(b, cleanup, materialization, deadlines),
        r.1 == spec_sat_sub_w(b.available, r.0),
{
    let housekeeping = b.fixed.saturating_add(cleanup).saturating_add(materialization).saturating_add(deadlines);
    (housekeeping, b.available.saturating_sub(housekeeping))
}

/// The weight the idle hook reports: housekeeping plus what service and execution consumed.
pub fn idle_total(housekeeping: Weight, service_consumed: Weight) -> (w: Weight)
    ensures
        w == spec_sat_add_w(housekeeping, service_consumed),
{
    housekeeping.saturating_add(service_consumed)
}

/// When materialization, the deadline frontiers and Actor service each stay within the budget
/// the hook gives them, the idle hook never reports more than its envelope: the remaining block
/// weight capped by the Actor idle reserve.
pub proof fn lemma_idle_within_envelope(
    b: IdleBudget,
    ready_work: bool,
    queue_full: bool,
    drain: Weight,
    materialization: Weight,
    deadlines: Weight,
    service_consumed: Weight,
)
    requires
        b.control_available.spec_all_lte(b.available),
        b.fixed.spec_all_lte(b.control_available),
        materialization.spec_all_lte(
            spec_sat_sub_w(
                spec_sat_sub_w(b.control_available, b.fixed),
                spec_cleanup_charge(b, ready_work, queue_full, drain),
            ),
        ),
        deadlines.spec_all_lte(
            spec_sat_sub_w(
                b.control_available,
                spec_before_deadlines(b, spec_cleanup_charge(b, ready_work, queue_full, drain), materialization),
            ),
        ),
        service_consumed.spec_all_lte(
            spec_sat_sub_w(
                b.available,
                spec_housekeeping(b, spec_cleanup_charge(b, ready_work, queue_full, drain), materialization, deadlines),
            ),
        ),
    ensures
        spec_housekeeping(b, spec_cleanup_charge(b, ready_work, queue_full, drain), materialization, deadlines).spec_all_lte(
            b.control_available,
        ),
        spec_sat_add_w(
            spec_housekeeping(b, spec_cleanup_charge(b, ready_work, queue_full, drain), materialization, deadlines),
            service_consumed,
        ).spec_all_lte(b.available),
{
}


/// The idle hook's envelope never exceeds the remaining block weight or the Actor idle reserve,
/// what Actor control work may spend never exceeds the envelope, and the fixed overhead fits
/// it; where the fixed overhead does not fit, the hook has no envelope.
pub proof fn lemma_idle_budget_bounds(
    remaining: Weight,
    reserve: Weight,
    resource: Option<BlockResourceView>,
    base: Weight,
    coordinator: Weight,
    finalize: Weight,
)
    ensures
        spec_idle_budget(remaining, reserve, resource, base, coordinator, finalize) matches Some(b) ==> {
            &&& b.available.spec_all_lte(remaining)
            &&& b.available.spec_all_lte(reserve)
            &&& b.control_available.spec_all_lte(b.available)
            &&& b.fixed.spec_all_lte(b.control_available)
            &&& b.legacy == (resource is None)
        },
{
}

} // verus!
