//! The parts of an Actor Contract that the pallet's rules read.
use vstd::prelude::*;

use crate::types::{AccountId, AssetId, Balance, BlockNumber, SchedulerTick};

verus! {

/// How a Step resolves the amount it moves.
#[derive(Clone, Copy, Debug, PartialEq, Eq, Structural)]
pub enum AmountResolution {
    Fixed(Balance),
    /// Share of the resolved balance in parts per billion.
    Percent(u32),
}

/// Upper bound on the input of an exact-out swap.
#[derive(Clone, Copy, Debug, PartialEq, Eq, Structural)]
pub enum InputLimit {
    Absolute(Balance),
    Unbounded,
}

/// One leg of a split transfer: recipient and share in parts per billion.
#[derive(Clone, Copy, Debug, PartialEq, Eq, Structural)]
pub struct SplitLeg {
    pub to: AccountId,
    pub share: u32,
}

/// Parts-per-billion accuracy of split shares.
pub const PERBILL_ACCURACY: u32 = 1_000_000_000;

/// The effect a Step performs.
#[derive(Clone, Debug, PartialEq, Eq)]
pub enum Task {
    Transfer { asset: AssetId, amount: AmountResolution, to: AccountId },
    Burn { asset: AssetId, amount: AmountResolution },
    Mint { asset: AssetId, amount: AmountResolution },
    SplitTransfer { asset: AssetId, amount: AmountResolution, legs: Vec<SplitLeg> },
    SwapIn { asset_in: AssetId, amount_in: AmountResolution, asset_out: AssetId },
    SwapOut {
        asset_out: AssetId,
        amount_out: AmountResolution,
        asset_in: AssetId,
        input_limit: InputLimit,
    },
    AddLiquidity {
        asset_a: AssetId,
        asset_b: AssetId,
        amount_a: AmountResolution,
        amount_b: AmountResolution,
        min_lp_out: Balance,
    },
    RemoveLiquidity {
        lp_asset: AssetId,
        lp_amount: AmountResolution,
        min_amount_a: Balance,
        min_amount_b: Balance,
    },
    Stake { asset: AssetId, amount: AmountResolution },
    DonateLiquidity { asset_a: AssetId, asset_b: AssetId, max_amount_a: AmountResolution },
    Unstake { asset: AssetId, shares: AmountResolution },
    StopCycle,
}

impl Task {
    pub open spec fn spec_is_stop_cycle(&self) -> bool {
        self is StopCycle
    }

    pub fn is_stop_cycle(&self) -> (r: bool)
        ensures
            r == self.spec_is_stop_cycle(),
    {
        match self {
            Task::StopCycle => true,
            _ => false,
        }
    }

    pub fn is_mint(&self) -> (r: bool)
        ensures
            r == (self is Mint),
    {
        match self {
            Task::Mint { .. } => true,
            _ => false,
        }
    }
}

/// What a Step does after a failed attempt.
#[derive(Clone, Copy, Debug, PartialEq, Eq, Structural)]
pub enum StepErrorPolicy {
    /// Retry in a later block, at most `max_attempts` attempts in total.
    RetryLater { max_attempts: u32 },
    /// Any policy that does not retry.
    NoRetry,
}

impl StepErrorPolicy {
    pub open spec fn spec_retry_max_attempts(self) -> Option<u32> {
        match self {
            StepErrorPolicy::RetryLater { max_attempts } => Some(max_attempts),
            StepErrorPolicy::NoRetry => None,
        }
    }

    pub fn retry_max_attempts(&self) -> (r: Option<u32>)
        ensures
            r == self.spec_retry_max_attempts(),
    {
        match self {
            StepErrorPolicy::RetryLater { max_attempts } => Some(*max_attempts),
            StepErrorPolicy::NoRetry => None,
        }
    }
}

/// One predicate, held as its canonical encoding; observation predicates also expose their
/// freshness bound.
#[derive(Clone, Debug, PartialEq, Eq)]
pub struct Predicate {
    pub encoded: Vec<u8>,
    pub observation_max_age_blocks: Option<u32>,
}

impl View for Predicate {
    type V = (Seq<u8>, Option<u32>);

    open spec fn view(&self) -> (Seq<u8>, Option<u32>) {
        (self.encoded@, self.observation_max_age_blocks)
    }
}

impl Predicate {
    /// A copy of the predicate.
    pub fn duplicate(&self) -> (q: Predicate)
        ensures
            q@ == self@,
    {
        Predicate { encoded: self.encoded.clone(), observation_max_age_blocks: self.observation_max_age_blocks }
    }
}

/// A precondition in disjunctive normal form: any clause whose predicates all hold.
#[derive(Clone, Debug, PartialEq, Eq)]
pub struct Precondition {
    pub clauses: Vec<Vec<Predicate>>,
}

/// One Contract Step.
#[derive(Clone, Debug, PartialEq, Eq)]
pub struct Step {
    pub task: Task,
    pub on_error: StepErrorPolicy,
    pub precondition: Option<Precondition>,
}

/// The event families that start an Actor cycle.
#[derive(Clone, Copy, Debug, PartialEq, Eq, Structural)]
pub enum TriggerFamily {
    Manual,
    AddressEvent,
    ObservationChange,
    ObservationCrossing,
    AtTime,
    Cadenced,
}

/// The Trigger of a Contract, with the fields the admission rules read.
#[derive(Clone, Copy, Debug, PartialEq, Eq, Structural)]
pub enum Trigger {
    Manual,
    AddressEvent,
    ObservationChange { feed: u32 },
    ObservationCrossing { feed: u32 },
    AtTime { after_ticks: SchedulerTick },
    Cadenced { every_ticks: SchedulerTick },
}

impl Trigger {
    pub open spec fn spec_family(self) -> TriggerFamily {
        match self {
            Trigger::Manual => TriggerFamily::Manual,
            Trigger::AddressEvent => TriggerFamily::AddressEvent,
            Trigger::ObservationChange { .. } => TriggerFamily::ObservationChange,
            Trigger::ObservationCrossing { .. } => TriggerFamily::ObservationCrossing,
            Trigger::AtTime { .. } => TriggerFamily::AtTime,
            Trigger::Cadenced { .. } => TriggerFamily::Cadenced,
        }
    }

    pub fn family(&self) -> (f: TriggerFamily)
        ensures
            f == self.spec_family(),
    {
        match self {
            Trigger::Manual => TriggerFamily::Manual,
            Trigger::AddressEvent => TriggerFamily::AddressEvent,
            Trigger::ObservationChange { .. } => TriggerFamily::ObservationChange,
            Trigger::ObservationCrossing { .. } => TriggerFamily::ObservationCrossing,
            Trigger::AtTime { .. } => TriggerFamily::AtTime,
            Trigger::Cadenced { .. } => TriggerFamily::Cadenced,
        }
    }
}

/// Inclusive block window in which an Actor may run.
#[derive(Clone, Copy, Debug, PartialEq, Eq, Structural)]
pub struct ScheduleWindow {
    pub start: BlockNumber,
    pub end: BlockNumber,
}

} // verus!
