//! Dispatch errors of the Actors pallet.
use vstd::prelude::*;

verus! {

/// Every refusal the pallet reports.
#[derive(Clone, Copy, Debug, PartialEq, Eq, Structural)]
pub enum Error {
    ActorIdOverflow,
    ActorNotFound,
    ActiveActorCapacityExceeded,
    ActiveActorCountInvariant,
    ActorIdentityCapacityExceeded,
    ActorIdentityCountInvariant,
    ActorInvariant,
    ActorAlreadyActive,
    ActorDormant,
    ActiveActorLimitExceedsQueueCapacity,
    ActiveActorLimitTooHigh,
    ActiveActorLimitTooLow,
    ActiveActorLimitBelowCurrent,
    ActorPaused,
    ContractStepsExceedOnIdleBudget,
    ExecutionDelayTooLong,
    GlobalCircuitBreakerActive,
    ImmutableActor,
    InsufficientBalance,
    InsufficientFee,
    InvalidAmountResolution,
    InvalidPredicate,
    InvalidAutoCloseNonce,
    InvalidScheduleWindow,
    InvalidSplitTransfer,
    InvalidTriggerConfiguration,
    InvalidTradeBound,
    InvalidRetryAttemptLimit,
    InvalidObservationMaxAge,
    SelfTransferNotAllowed,
    MintNotAllowedForUserActor,
    NotGovernance,
    NotOwner,
    OwnerSlotCapacityExceeded,
    OwnerSlotOccupied,
    InvalidOwnerSlot,
    ActorIdOccupied,
    SystemSovereignCapacityExceeded,
    SystemSovereignUnknown,
    SystemSovereignOccupied,
    SystemSovereignInvariant,
    SovereignAccountCollision,
    ReservedSovereignAccount,
    TooManyContractSteps,
    SnapshotUnavailable,
    FundingAccumulatorOverflow,
    QueueTicketExhausted,
    SchedulerIndexExhausted,
    AutoCloseNonceHorizonExceeded,
    ControlMutationRateLimited,
    QueueCapacityUnavailable,
    RetryLaterNotAllowedForImmutableActor,
    ActorRunNotFound,
    ActorRunInvariant,
    ComputationOverflow,
    EmptyPrecondition,
    ManualSourceDisabled,
    RecipientDepositUnavailable,
    ObservationSubscriptionCapacityExceeded,
    ObservationSubscriptionInvariant,
    InvalidObservationRevision,
    DirtyObservationCapacityExceeded,
    DirtyObservationInvariant,
    ObservationUnavailable,
    ObservationUninitialized,
    CrossingIndexCapacityExceeded,
    CrossingUserCapacityExceeded,
    CrossingIndexInvariant,
    CrossingGenerationExhausted,
    CrossingTransitionCapacityExceeded,
    CrossingTransitionInvariant,
    CrossingWorkerFaultNotFound,
    ObservationFanoutWorkerFaultNotFound,
    WakeupWorkerFaultNotFound,
    SystemActorTopologyInvalid,
    AdmissionBoundOverflow,
    StateHoldUnavailable,
    StateHoldInvariant,
    StateHoldOverflow,
    PrepassDuplicateOrStale,
    ResourceProtocolFailed,
    PrepassContextIncomplete,
}

} // verus!
