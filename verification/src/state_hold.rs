//! Refundable hold backing the retained state of User Actors.
use vstd::prelude::*;

use crate::errors::Error;
use crate::types::{AccountId, ActorType, Balance};

verus! {

/// Why the pallet holds funds of an account.
#[derive(Clone, Copy, Debug, PartialEq, Eq, Structural)]
pub enum HoldReason {
    /// Refundable backing for the retained process state of a User Actor.
    ActorState,
}

/// Hold per retained-state component.
#[derive(Clone, Copy, Debug, PartialEq, Eq, Structural)]
pub struct ActorStateHoldBreakdown {
    pub identity: Balance,
    pub contract_head: Balance,
    pub contract_body: Balance,
    pub detector: Balance,
    pub run: Balance,
}

/// Hold currently taken from an owner for one Actor.
#[derive(Clone, Copy, Debug, PartialEq, Eq, Structural)]
pub struct ActorStateHoldRecord {
    pub owner: AccountId,
    pub breakdown: ActorStateHoldBreakdown,
}

/// Read-only quote of an Actor's state hold.
#[derive(Clone, Copy, Debug, PartialEq, Eq, Structural)]
pub struct ActorStateHoldQuote {
    pub exempt: bool,
    pub base_per_component: Balance,
    pub per_encoded_byte: Balance,
    pub breakdown: ActorStateHoldBreakdown,
    pub total: Balance,
}

/// Refusals of the cost projection.
#[derive(Clone, Copy, Debug, PartialEq, Eq, Structural)]
pub enum ActorCostQuoteError {
    ActorNotFound,
    ActorInvariant,
    WeightAuthorityUnavailable,
    ComputationOverflow,
}

pub open spec fn zero_breakdown() -> ActorStateHoldBreakdown {
    ActorStateHoldBreakdown { identity: 0, contract_head: 0, contract_body: 0, detector: 0, run: 0 }
}

/// Price of one component: nothing for no bytes, otherwise the per-byte price times the
/// encoded size plus the base price.
pub open spec fn spec_component(encoded_bytes: int, per_byte: Balance, base: Balance) -> Result<Balance, Error> {
    if encoded_bytes == 0 {
        Ok(0)
    } else if encoded_bytes > u32::MAX || per_byte * encoded_bytes + base > u128::MAX {
        Err(Error::StateHoldOverflow)
    } else {
        Ok((per_byte * encoded_bytes + base) as Balance)
    }
}

pub fn state_hold_component(encoded_bytes: usize, per_byte: Balance, base: Balance) -> (r: Result<
    Balance,
    Error,
>)
    ensures
        r == spec_component(encoded_bytes as int, per_byte, base),
{
    if encoded_bytes == 0 {
        return Ok(0);
    }
    if encoded_bytes > u32::MAX as usize {
        return Err(Error::StateHoldOverflow);
    }
    let bytes = encoded_bytes as u32 as Balance;
    let priced = match per_byte.checked_mul(bytes) {
        Some(p) => p,
        None => {
            proof {
                assert(per_byte * bytes + base > u128::MAX) by (nonlinear_arith)
                    requires
                        per_byte * bytes > u128::MAX,
                        base >= 0,
                ;
            }
            return Err(Error::StateHoldOverflow);
        },
    };
    match priced.checked_add(base) {
        Some(total) => Ok(total),
        None => Err(Error::StateHoldOverflow),
    }
}

pub open spec fn breakdown_sum(b: ActorStateHoldBreakdown) -> int {
    b.identity + b.contract_head + b.contract_body + b.detector + b.run
}

/// Sum of the components; a sum past the balance range is an overflow.
pub fn state_hold_total(breakdown: &ActorStateHoldBreakdown) -> (r: Result<Balance, Error>)
    ensures
        r == if breakdown_sum(*breakdown) > u128::MAX {
            Err(Error::StateHoldOverflow)
        } else {
            Ok(breakdown_sum(*breakdown) as Balance)
        },
{
    let mut total: Balance = 0;
    total = match total.checked_add(breakdown.identity) {
        Some(t) => t,
        None => return Err(Error::StateHoldOverflow),
    };
    total = match total.checked_add(breakdown.contract_head) {
        Some(t) => t,
        None => return Err(Error::StateHoldOverflow),
    };
    total = match total.checked_add(breakdown.contract_body) {
        Some(t) => t,
        None => return Err(Error::StateHoldOverflow),
    };
    total = match total.checked_add(breakdown.detector) {
        Some(t) => t,
        None => return Err(Error::StateHoldOverflow),
    };
    total = match total.checked_add(breakdown.run) {
        Some(t) => t,
        None => return Err(Error::StateHoldOverflow),
    };
    Ok(total)
}

/// Quotes the state hold of an Actor from its recorded breakdown. A System Actor is exempt and
/// must have no record; a User Actor must have one.
pub fn actor_state_hold_quote(
    actor_type: ActorType,
    recorded: Option<ActorStateHoldBreakdown>,
    base_per_component: Balance,
    per_encoded_byte: Balance,
) -> (r: Result<ActorStateHoldQuote, ActorCostQuoteError>)
    ensures
        ({
            let breakdown = if actor_type == ActorType::System {
                zero_breakdown()
            } else {
                recorded.unwrap()
            };
            r == if (actor_type == ActorType::System && recorded is Some) || (actor_type
                == ActorType::User && recorded is None) {
                Err(ActorCostQuoteError::ActorInvariant)
            } else if breakdown_sum(breakdown) > u128::MAX {
                Err(ActorCostQuoteError::ComputationOverflow)
            } else {
                Ok(
                    ActorStateHoldQuote {
                        exempt: actor_type == ActorType::System,
                        base_per_component,
                        per_encoded_byte,
                        breakdown,
                        total: breakdown_sum(breakdown) as Balance,
                    },
                )
            }
        }),
{
    let breakdown = if actor_type == ActorType::System {
        if recorded.is_some() {
            return Err(ActorCostQuoteError::ActorInvariant);
        }
        ActorStateHoldBreakdown { identity: 0, contract_head: 0, contract_body: 0, detector: 0, run: 0 }
    } else {
        match recorded {
            Some(b) => b,
            None => return Err(ActorCostQuoteError::ActorInvariant),
        }
    };
    let total = match state_hold_total(&breakdown) {
        Ok(t) => t,
        Err(_) => return Err(ActorCostQuoteError::ComputationOverflow),
    };
    Ok(
        ActorStateHoldQuote {
            exempt: actor_type == ActorType::System,
            base_per_component,
            per_encoded_byte,
            breakdown,
            total,
        },
    )
}

/// Encoded sizes of the retained state of an Active Actor beyond its identity.
#[derive(Clone, Copy, Debug, PartialEq, Eq, Structural)]
pub struct ActiveStateBytes {
    pub contract_head: usize,
    pub contract_body: usize,
    pub detector: usize,
    pub run: usize,
}

/// Derives an Actor's hold breakdown from the encoded sizes of its retained state: nothing for
/// a System Actor, the identity alone for a Dormant User Actor, every component for an Active
/// User Actor.
pub fn derive_actor_state_hold(
    actor_type: ActorType,
    identity_bytes: usize,
    active: Option<ActiveStateBytes>,
    base: Balance,
    per_byte: Balance,
) -> (r: Result<ActorStateHoldBreakdown, Error>)
    ensures
        spec_component(identity_bytes as int, per_byte, base) is Err ==> r == Err::<
            ActorStateHoldBreakdown,
            Error,
        >(Error::StateHoldOverflow),
        spec_component(identity_bytes as int, per_byte, base) matches Ok(identity) ==> {
            if actor_type == ActorType::System {
                r == Ok::<ActorStateHoldBreakdown, Error>(zero_breakdown())
            } else {
                match active {
                    None => r == Ok::<ActorStateHoldBreakdown, Error>(
                        ActorStateHoldBreakdown { identity, ..zero_breakdown() },
                    ),
                    Some(bytes) => match (
                        spec_component(bytes.contract_head as int, per_byte, base),
                        spec_component(bytes.contract_body as int, per_byte, base),
                        spec_component(bytes.detector as int, per_byte, base),
                        spec_component(bytes.run as int, per_byte, base),
                    ) {
                        (Ok(h), Ok(b), Ok(d), Ok(u)) => r == Ok::<ActorStateHoldBreakdown, Error>(
                            ActorStateHoldBreakdown {
                                identity,
                                contract_head: h,
                                contract_body: b,
                                detector: d,
                                run: u,
                            },
                        ),
                        _ => r == Err::<ActorStateHoldBreakdown, Error>(Error::StateHoldOverflow),
                    },
                }
            }
        },
{
    let identity = state_hold_component(identity_bytes, per_byte, base)?;
    if actor_type == ActorType::System {
        return Ok(
            ActorStateHoldBreakdown { identity: 0, contract_head: 0, contract_body: 0, detector: 0, run: 0 },
        );
    }
    let bytes = match active {
        None => {
            return Ok(
                ActorStateHoldBreakdown { identity, contract_head: 0, contract_body: 0, detector: 0, run: 0 },
            )
        },
        Some(bytes) => bytes,
    };
    let contract_head = state_hold_component(bytes.contract_head, per_byte, base)?;
    let contract_body = state_hold_component(bytes.contract_body, per_byte, base)?;
    let detector = state_hold_component(bytes.detector, per_byte, base)?;
    let run = state_hold_component(bytes.run, per_byte, base)?;
    Ok(ActorStateHoldBreakdown { identity, contract_head, contract_body, detector, run })
}

/// Balance movement needed to bring the held amount to its target.
#[derive(Clone, Copy, Debug, PartialEq, Eq, Structural)]
pub enum HoldAdjustment {
    NoMovement,
    Hold { owner: AccountId, amount: Balance },
    Release { owner: AccountId, amount: Balance },
}

/// What reconciling one Actor's hold requires: a balance movement and the record that stays
/// stored afterwards (`None` removes it).
#[derive(Clone, Copy, Debug, PartialEq, Eq, Structural)]
pub enum StateHoldReconciliation {
    Unchanged,
    Adjust { adjustment: HoldAdjustment, record: Option<ActorStateHoldRecord> },
}

/// Plans the reconciliation of an Actor's recorded hold with its target: the owner being
/// held from and the breakdown the retained state calls for (`None` when nothing is held).
pub fn plan_state_hold_reconciliation(
    existing: Option<ActorStateHoldRecord>,
    target: Option<ActorStateHoldRecord>,
) -> (r: Result<StateHoldReconciliation, Error>)
    ensures
        (existing is None && target is None) ==> r == Ok::<StateHoldReconciliation, Error>(
            StateHoldReconciliation::Unchanged,
        ),
        (existing matches Some(e) && target matches Some(t) && e.owner != t.owner) ==> r == Err::<
            StateHoldReconciliation,
            Error,
        >(Error::StateHoldInvariant),
        (r matches Ok(StateHoldReconciliation::Unchanged)) <==> ((existing is None && target is None)
            || (existing matches Some(e) && match target {
            Some(t) => t == e,
            None => e.breakdown == zero_breakdown(),
        })),
        r matches Ok(StateHoldReconciliation::Adjust { adjustment, record }) ==> {
            let owner = match target {
                Some(t) => t.owner,
                None => existing.unwrap().owner,
            };
            let old_total = match existing {
                Some(e) => breakdown_sum(e.breakdown),
                None => 0,
            };
            let new_breakdown = match target {
                Some(t) => t.breakdown,
                None => zero_breakdown(),
            };
            let new_total = breakdown_sum(new_breakdown);
            &&& new_total <= u128::MAX
            &&& old_total <= u128::MAX
            &&& match adjustment {
                HoldAdjustment::NoMovement => old_total == new_total,
                HoldAdjustment::Hold { owner: o, amount } => o == owner && old_total + amount
                    == new_total && amount > 0,
                HoldAdjustment::Release { owner: o, amount } => o == owner && old_total - amount
                    == new_total && amount > 0,
            }
            &&& record == if new_total == 0 {
                None
            } else {
                Some(ActorStateHoldRecord { owner, breakdown: new_breakdown })
            }
        },
        r is Err ==> r == Err::<StateHoldReconciliation, Error>(Error::StateHoldInvariant) || r
            == Err::<StateHoldReconciliation, Error>(Error::StateHoldOverflow),
        !(existing matches Some(e) && target matches Some(t) && e.owner != t.owner) && !(r matches Ok(
            StateHoldReconciliation::Unchanged,
        )) && ((existing matches Some(e) && breakdown_sum(e.breakdown) > u128::MAX) || (target matches Some(t)
            && breakdown_sum(t.breakdown) > u128::MAX)) ==> r == Err::<StateHoldReconciliation, Error>(
            Error::StateHoldOverflow,
        ),
        (!(existing matches Some(e) && target matches Some(t) && e.owner != t.owner)
            && (existing matches Some(e) ==> breakdown_sum(e.breakdown) <= u128::MAX)
            && (target matches Some(t) ==> breakdown_sum(t.breakdown) <= u128::MAX)) ==> r is Ok,
{
    let (owner, target_breakdown) = match (existing, target) {
        (Some(e), Some(t)) => {
            if e.owner != t.owner {
                return Err(Error::StateHoldInvariant);
            }
            (t.owner, t.breakdown)
        },
        (None, Some(t)) => (t.owner, t.breakdown),
        (Some(e), None) => (
            e.owner,
            ActorStateHoldBreakdown { identity: 0, contract_head: 0, contract_body: 0, detector: 0, run: 0 },
        ),
        (None, None) => return Ok(StateHoldReconciliation::Unchanged),
    };
    if let Some(e) = existing {
        if e.owner == owner && e.breakdown == target_breakdown {
            return Ok(StateHoldReconciliation::Unchanged);
        }
    }
    let old_total = match existing {
        Some(e) => state_hold_total(&e.breakdown)?,
        None => 0,
    };
    let target_total = state_hold_total(&target_breakdown)?;
    let adjustment = if target_total > old_total {
        HoldAdjustment::Hold { owner, amount: target_total - old_total }
    } else if old_total > target_total {
        HoldAdjustment::Release { owner, amount: old_total - target_total }
    } else {
        HoldAdjustment::NoMovement
    };
    let record = if target_total == 0 {
        None
    } else {
        Some(ActorStateHoldRecord { owner, breakdown: target_breakdown })
    };
    Ok(StateHoldReconciliation::Adjust { adjustment, record })
}

/// A release is accepted only when it freed exactly the planned amount.
pub fn release_is_exact(released: Balance, planned: Balance) -> (r: Result<(), Error>)
    ensures
        r == if released == planned {
            Ok(())
        } else {
            Err(Error::StateHoldInvariant)
        },
{
    if released == planned {
        Ok(())
    } else {
        Err(Error::StateHoldInvariant)
    }
}


/// A state-hold component is free for an empty encoding, and otherwise the base plus the
/// per-byte rate for every byte; it grows with the encoding's size.
pub proof fn lemma_component_grows_with_size(bytes: int, more: int, per_byte: Balance, base: Balance)
    requires
        0 <= bytes <= more,
    ensures
        spec_component(0, per_byte, base) == Ok::<Balance, Error>(0),
        spec_component(bytes, per_byte, base) matches Ok(v) ==> bytes > 0 ==> v == per_byte * bytes + base,
        spec_component(more, per_byte, base) matches Ok(w) ==> spec_component(bytes, per_byte, base) matches Ok(v) && v
            <= w,
{
    assert(per_byte * bytes <= per_byte * more) by (nonlinear_arith)
        requires
            0 <= bytes <= more,
            per_byte >= 0,
    ;
}

} // verus!
