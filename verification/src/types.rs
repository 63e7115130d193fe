//! Plain value types shared by the pallet's logic.
use vstd::prelude::*;

verus! {

/// Block height.
pub type BlockNumber = u32;

/// Scheduler clock tick.
pub type SchedulerTick = u64;

/// Actor identifier.
pub type ActorId = u64;

/// Account identifier, taken by its integer handle.
pub type AccountId = u64;

/// Asset identifier.
pub type AssetId = u32;

/// Native balance.
pub type Balance = u128;

/// Whether an Actor pays fees (User) or is exempt (System).
#[derive(Clone, Copy, Debug, PartialEq, Eq, Structural)]
pub enum ActorType {
    User,
    System,
}

#[derive(Clone, Copy, Debug, PartialEq, Eq, Structural)]
pub enum Mutability {
    Mutable,
    Immutable,
}

} // verus!
