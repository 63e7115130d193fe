//! The materialization coordinator's pass: the three workers (wakeup, crossing, observation
//! fanout) served in rotation from the family cursor within one shared envelope, then the cursor
//! family again with whatever is left when it still has work.
use vstd::prelude::*;

use crate::control::{materialization_family_budget, rotated_family, spec_reserved_later_fold, spec_sat_add_w};
use crate::weight::{min_u64, sat_sub, Weight};

verus! {

/// The coordinator's progress through one pass.
#[derive(Clone, Copy, Debug, PartialEq, Eq, Structural)]
pub struct MaterializationPass {
    pub family_cursor: u8,
    /// Rotation positions served so far; three once the rotation is done.
    pub served: u8,
    pub remaining: Weight,
    pub consumed_total: Weight,
    /// Every family's minimum quantum fits in the envelope and is reserved for it.
    pub reserve_all_families: bool,
    /// The cursor family's second turn has been taken.
    pub extra_served: bool,
}

/// What the coordinator does next.
#[derive(Clone, Copy, Debug, PartialEq, Eq, Structural)]
pub enum MaterializationAction {
    /// Run `family`'s worker within `budget`.
    Serve { family: u8, budget: Weight },
    /// The pass is over: `consumed` was spent and the cursor moves to `next_cursor`.
    Finish { consumed: Weight, next_cursor: u8 },
}

/// Component-wise minimum.
pub open spec fn spec_min_w(a: Weight, b: Weight) -> Weight {
    Weight { ref_time: min_u64(a.ref_time, b.ref_time), proof_size: min_u64(a.proof_size, b.proof_size) }
}

/// Component-wise saturating difference.
pub open spec fn spec_sat_sub_w(a: Weight, b: Weight) -> Weight {
    Weight { ref_time: sat_sub(a.ref_time, b.ref_time), proof_size: sat_sub(a.proof_size, b.proof_size) }
}

/// The pass that starts from `family_cursor` with `available` weight under the shared `limit`,
/// reserving every family's minimum when their sum fits; none for a corrupt cursor.
pub open spec fn pass_start(family_cursor: u8, available: Weight, limit: Weight, minimums: Seq<Weight>) -> Option<
    MaterializationPass,
> {
    if family_cursor >= 3 {
        None
    } else {
        let remaining = spec_min_w(limit, available);
        Some(
            MaterializationPass {
                family_cursor,
                served: 0,
                remaining,
                consumed_total: Weight { ref_time: 0, proof_size: 0 },
                reserve_all_families: spec_sat_add_w(spec_sat_add_w(minimums[0], minimums[1]), minimums[2]).spec_all_lte(
                    remaining,
                ),
                extra_served: false,
            },
        )
    }
}

/// The budget of the family at rotation position `p.served`.
pub open spec fn rotation_budget(p: MaterializationPass, minimums: Seq<Weight>) -> Weight {
    let reserved = spec_reserved_later_fold(p.family_cursor, p.served as int + 1, minimums);
    if !p.reserve_all_families {
        p.remaining
    } else if reserved.spec_all_lte(p.remaining) {
        Weight {
            ref_time: (p.remaining.ref_time - reserved.ref_time) as u64,
            proof_size: (p.remaining.proof_size - reserved.proof_size) as u64,
        }
    } else {
        Weight { ref_time: 0, proof_size: 0 }
    }
}

/// The next action of pass `p`; `cursor_has_work` says whether the cursor family has work now.
pub open spec fn pass_action(p: MaterializationPass, minimums: Seq<Weight>, cursor_has_work: bool) -> MaterializationAction {
    if p.served < 3 {
        MaterializationAction::Serve {
            family: rotated_family(p.family_cursor, p.served) as u8,
            budget: rotation_budget(p, minimums),
        }
    } else if !p.extra_served && !(p.remaining.ref_time == 0 && p.remaining.proof_size == 0) && cursor_has_work {
        MaterializationAction::Serve { family: p.family_cursor, budget: p.remaining }
    } else {
        MaterializationAction::Finish {
            consumed: p.consumed_total,
            next_cursor: ((p.family_cursor as int + 1) % 3) as u8,
        }
    }
}

/// Pass `p` after the family it served spent `consumed`.
pub open spec fn pass_after(p: MaterializationPass, consumed: Weight) -> MaterializationPass {
    if p.served < 3 {
        MaterializationPass {
            served: (p.served + 1) as u8,
            remaining: spec_sat_sub_w(p.remaining, consumed),
            consumed_total: spec_sat_add_w(p.consumed_total, consumed),
            ..p
        }
    } else {
        MaterializationPass { extra_served: true, consumed_total: spec_sat_add_w(p.consumed_total, consumed), ..p }
    }
}

/// Starts a pass from `family_cursor` with `available` weight; `limit` is the shared
/// materialization ceiling and `minimums` the families' minimum quanta.
pub fn begin_materialization_pass(family_cursor: u8, available: Weight, limit: Weight, minimums: &[Weight; 3]) -> (r:
    Option<MaterializationPass>)
    ensures
        r == pass_start(family_cursor, available, limit, minimums@),
{
    if family_cursor >= 3 {
        return None;
    }
    let remaining = limit.component_min(available);
    let all = minimums[0].saturating_add(minimums[1]).saturating_add(minimums[2]);
    Some(
        MaterializationPass {
            family_cursor,
            served: 0,
            remaining,
            consumed_total: Weight::zero(),
            reserve_all_families: all.all_lte(remaining),
            extra_served: false,
        },
    )
}

/// The next action of `pass`.
pub fn next_materialization_action(pass: &MaterializationPass, minimums: &[Weight; 3], cursor_has_work: bool) -> (a:
    MaterializationAction)
    requires
        pass.family_cursor < 3,
        pass.served <= 3,
    ensures
        a == pass_action(*pass, minimums@, cursor_has_work),
{
    if pass.served < 3 {
        let family = (pass.family_cursor.saturating_add(pass.served) % 3) as u8;
        let budget = materialization_family_budget(
            pass.family_cursor,
            pass.served,
            pass.remaining,
            pass.reserve_all_families,
            minimums,
        );
        MaterializationAction::Serve { family, budget }
    } else if !pass.extra_served && !pass.remaining.is_zero() && cursor_has_work {
        MaterializationAction::Serve { family: pass.family_cursor, budget: pass.remaining }
    } else {
        MaterializationAction::Finish { consumed: pass.consumed_total, next_cursor: (pass.family_cursor + 1) % 3 }
    }
}

/// Records that the family `pass` last served spent `consumed`.
pub fn record_materialization_consumption(pass: &mut MaterializationPass, consumed: Weight)
    requires
        old(pass).served <= 3,
    ensures
        *final(pass) == pass_after(*old(pass), consumed),
{
    pass.consumed_total = pass.consumed_total.saturating_add(consumed);
    if pass.served < 3 {
        pass.remaining = pass.remaining.saturating_sub(consumed);
        pass.served = pass.served + 1;
    } else {
        pass.extra_served = true;
    }
}

/// What a pass has spent plus what it has left never exceeds the envelope it started with.
pub open spec fn within_envelope(p: MaterializationPass, envelope: Weight) -> bool {
    if p.extra_served {
        p.consumed_total.spec_all_lte(envelope)
    } else {
        &&& p.consumed_total.ref_time + p.remaining.ref_time <= envelope.ref_time
        &&& p.consumed_total.proof_size + p.remaining.proof_size <= envelope.proof_size
    }
}

/// A pass starts inside its envelope, the smaller of the shared ceiling and the available
/// weight.
pub proof fn lemma_pass_starts_within_envelope(family_cursor: u8, available: Weight, limit: Weight, minimums: Seq<Weight>)
    requires
        family_cursor < 3,
    ensures
        within_envelope(pass_start(family_cursor, available, limit, minimums)->Some_0, spec_min_w(limit, available)),
{
}

/// When every served family spends at most the budget it was given, the pass stays inside its
/// envelope: it never spends more than the shared ceiling or the available weight. (The cursor
/// family's second turn is only ever taken after the rotation.)
pub proof fn lemma_serving_within_budget_keeps_envelope(
    p: MaterializationPass,
    envelope: Weight,
    minimums: Seq<Weight>,
    cursor_has_work: bool,
    consumed: Weight,
)
    requires
        within_envelope(p, envelope),
        p.served <= 3,
        p.extra_served ==> p.served == 3,
        pass_action(p, minimums, cursor_has_work) matches MaterializationAction::Serve { budget, .. }
            && consumed.spec_all_lte(budget),
    ensures
        within_envelope(pass_after(p, consumed), envelope),
        pass_after(p, consumed).consumed_total.spec_all_lte(envelope),
{
}

} // verus!
