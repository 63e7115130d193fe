//! Deadline buckets as carriers of sleeping retries, parked reviews and temporal Triggers:
//! choosing the slot a member enters and classifying the member that is due first.
use std::collections::HashMap;
use vstd::prelude::*;

use crate::deadline_index::{
    index_insert_outcome, index_remove_outcome, index_update_outcome, DeadlineBucketWitness, DeadlineHeader,
    DeadlineIndex, DeadlineIndexMutationError, WakeupKey,
};
use crate::dependency_review::{DependencyTimedReview, PendingCheckOwner};
use crate::service_ring::{ActorProcess, ActorRef, ProcessResidence, ProcessStatus};
use crate::types::{ActorId, BlockNumber, SchedulerTick};

verus! {

broadcast use vstd::std_specs::hash::group_hash_axioms;

/// Members per deadline page.
pub const DEADLINE_PAGE_SLOTS: usize = 32;

/// One page of a deadline bucket: the pages before and after it, the number of live members and
/// its member slots.
#[derive(Clone, Debug, PartialEq, Eq)]
pub struct DeadlinePage {
    pub previous_page: Option<u64>,
    pub next_page: Option<u64>,
    pub live_entries: u32,
    pub entries: Vec<Option<ActorRef>>,
}

/// An exact slot of a deadline bucket held by one member.
#[derive(Clone, Copy, Debug, PartialEq, Eq, Structural)]
pub struct DeadlineHandle {
    pub actor: ActorRef,
    pub key: WakeupKey,
    pub page: u64,
    pub slot: u8,
}

/// The deadline slot a temporal Trigger occupies.
#[derive(Clone, Copy, Debug, PartialEq, Eq, Structural)]
pub struct TriggerDeadlineHandle {
    pub actor: ActorRef,
    pub key: WakeupKey,
}

#[derive(Clone, Copy, Debug, PartialEq, Eq, Structural)]
pub enum DeadlineMutationError {
    TransactionRequired,
    LegacyAuthorityPresent,
    CorruptCarrier,
    InvalidDestination,
    MemberAlreadyExists,
    MemberMissing,
    PageFull,
    ProcessMissing,
    ProcessResidenceMismatch,
    StaleGeneration,
    CapacityExceeded,
}

/// What the member due first in a bucket is waiting for.
#[derive(Clone, Copy, Debug, PartialEq, Eq, Structural)]
pub enum DueDeadlineBranch {
    /// A sleeping retry that returns to Service.
    Retry(ActorRef),
    /// A parked Actor whose timed dependency review is due.
    Review(ActorRef),
    /// A temporal Trigger that fires.
    TemporalTrigger(ActorRef),
}

/// The first free slot of `entries` at or after `i`, if any.
pub open spec fn first_free_from(entries: Seq<Option<ActorRef>>, i: int) -> Option<int>
    decreases entries.len() - i,
{
    if i < 0 || i >= entries.len() {
        None
    } else if entries[i] is None {
        Some(i)
    } else {
        first_free_from(entries, i + 1)
    }
}

/// The first occupied slot's member of `entries` at or after `i`, if any.
pub open spec fn first_member_from(entries: Seq<Option<ActorRef>>, i: int) -> Option<ActorRef>
    decreases entries.len() - i,
{
    if i < 0 || i >= entries.len() {
        None
    } else if entries[i] is Some {
        entries[i]
    } else {
        first_member_from(entries, i + 1)
    }
}

/// A page whose shape is canonical: exactly its slots, and no more live members than slots.
pub open spec fn page_shape_ok(page: DeadlinePage) -> bool {
    page.entries@.len() == 32 && page.live_entries <= 32
}

/// The slot a new member of bucket `key` enters when the walk of the bucket's pages reaches
/// page `page_id` after `visited` pages: the first free slot of the first page that has one,
/// else slot zero of the bucket's next page once the last page is reached.
pub open spec fn destination_from(
    actor: ActorRef,
    key: WakeupKey,
    h: DeadlineHeader,
    pages: Map<u64, DeadlinePage>,
    page_id: u64,
    visited: int,
) -> Result<DeadlineHandle, DeadlineMutationError>
    decreases h.page_count - visited,
{
    if visited < 0 || visited >= h.page_count || !pages.contains_key(page_id) || !page_shape_ok(
        pages[page_id],
    ) {
        Err(DeadlineMutationError::CorruptCarrier)
    } else {
        let page = pages[page_id];
        match first_free_from(page.entries@, 0) {
            Some(slot) => Ok(DeadlineHandle { actor, key, page: page_id, slot: slot as u8 }),
            None => if visited + 1 == h.page_count {
                if page_id != h.last_page || page.next_page is Some {
                    Err(DeadlineMutationError::CorruptCarrier)
                } else {
                    Ok(DeadlineHandle { actor, key, page: h.next_page, slot: 0 })
                }
            } else {
                match page.next_page {
                    None => Err(DeadlineMutationError::CorruptCarrier),
                    Some(next) => destination_from(actor, key, h, pages, next, visited + 1),
                }
            },
        }
    }
}

/// The slot a new member of bucket `key` enters: slot zero of page zero of a new bucket,
/// otherwise the first free slot along the bucket's page chain.
pub open spec fn spec_deadline_destination(
    actor: ActorRef,
    key: WakeupKey,
    header: Option<DeadlineHeader>,
    pages: Map<u64, DeadlinePage>,
) -> Result<DeadlineHandle, DeadlineMutationError> {
    match header {
        None => Ok(DeadlineHandle { actor, key, page: 0, slot: 0 }),
        Some(h) => destination_from(actor, key, h, pages, h.first_page, 0),
    }
}

fn first_free_slot(entries: &Vec<Option<ActorRef>>) -> (r: Option<usize>)
    ensures
        r is None <==> first_free_from(entries@, 0) is None,
        r matches Some(i) ==> first_free_from(entries@, 0) == Some(i as int) && i < entries@.len(),
{
    let mut i: usize = 0;
    while i < entries.len()
        invariant
            0 <= i <= entries@.len(),
            first_free_from(entries@, 0) == first_free_from(entries@, i as int),
        decreases entries@.len() - i,
    {
        if entries[i].is_none() {
            return Some(i);
        }
        i = i + 1;
    }
    None
}

fn first_member(entries: &Vec<Option<ActorRef>>) -> (r: Option<ActorRef>)
    ensures
        r == first_member_from(entries@, 0),
{
    let mut i: usize = 0;
    while i < entries.len()
        invariant
            0 <= i <= entries@.len(),
            first_member_from(entries@, 0) == first_member_from(entries@, i as int),
        decreases entries@.len() - i,
    {
        if entries[i].is_some() {
            return entries[i];
        }
        i = i + 1;
    }
    None
}

/// Selects the slot a member enters in deadline bucket `key`, without changing anything.
/// `header` and `pages` are the bucket's stored header and pages.
pub fn plan_deadline_destination(
    actor: ActorRef,
    key: WakeupKey,
    header: Option<DeadlineHeader>,
    pages: &HashMap<u64, DeadlinePage>,
) -> (r: Result<DeadlineHandle, DeadlineMutationError>)
    ensures
        r == spec_deadline_destination(actor, key, header, pages@),
{
    let h = match header {
        None => return Ok(DeadlineHandle { actor, key, page: 0, slot: 0 }),
        Some(h) => h,
    };
    let mut page_id = h.first_page;
    let mut visited: u32 = 0;
    while visited < h.page_count
        invariant
            0 <= visited <= h.page_count,
            header == Some(h),
            spec_deadline_destination(actor, key, header, pages@) == destination_from(
                actor,
                key,
                h,
                pages@,
                page_id,
                visited as int,
            ),
        decreases h.page_count - visited,
    {
        let page = match pages.get(&page_id) {
            Some(p) => p,
            None => return Err(DeadlineMutationError::CorruptCarrier),
        };
        if page.entries.len() != DEADLINE_PAGE_SLOTS || page.live_entries > 32 {
            return Err(DeadlineMutationError::CorruptCarrier);
        }
        match first_free_slot(&page.entries) {
            Some(slot) => {
                proof {
                    assert(slot < 32);
                    assert((slot as u8) as int == slot as int);
                }
                return Ok(DeadlineHandle { actor, key, page: page_id, slot: slot as u8 });
            },
            None => {},
        }
        if visited + 1 == h.page_count {
            if page_id != h.last_page || page.next_page.is_some() {
                return Err(DeadlineMutationError::CorruptCarrier);
            }
            return Ok(DeadlineHandle { actor, key, page: h.next_page, slot: 0 });
        }
        page_id = match page.next_page {
            Some(next) => next,
            None => return Err(DeadlineMutationError::CorruptCarrier),
        };
        visited = visited + 1;
    }
    Err(DeadlineMutationError::CorruptCarrier)
}

/// The member due first in the bucket `key`: the first member of the bucket's first page.
pub open spec fn due_member(
    key: WakeupKey,
    header: Option<DeadlineHeader>,
    pages: Map<u64, DeadlinePage>,
) -> Result<ActorRef, DeadlineMutationError> {
    match header {
        None => Err(DeadlineMutationError::CorruptCarrier),
        Some(h) => if !pages.contains_key(h.first_page) {
            Err(DeadlineMutationError::CorruptCarrier)
        } else {
            match first_member_from(pages[h.first_page].entries@, 0) {
                None => Err(DeadlineMutationError::CorruptCarrier),
                Some(a) => Ok(a),
            }
        },
    }
}

/// What the residence of the due member's process says it waits for.
pub open spec fn branch_by_residence(
    actor: ActorRef,
    processes: Map<ActorId, ActorProcess>,
) -> Result<DueDeadlineBranch, DeadlineMutationError> {
    if !processes.contains_key(actor.actor_id) {
        Err(DeadlineMutationError::ProcessMissing)
    } else {
        match processes[actor.actor_id].residence {
            Some(ProcessResidence::Deadline { .. }) => Ok(DueDeadlineBranch::Retry(actor)),
            Some(ProcessResidence::Parked) => Ok(DueDeadlineBranch::Review(actor)),
            _ => Err(DeadlineMutationError::ProcessResidenceMismatch),
        }
    }
}

/// Classification of the member due first on the block clock at block `now`, given the
/// earliest block bucket of the deadline index.
pub open spec fn spec_classify_due_block(
    now: BlockNumber,
    earliest: Option<WakeupKey>,
    header: Option<DeadlineHeader>,
    pages: Map<u64, DeadlinePage>,
    processes: Map<ActorId, ActorProcess>,
) -> Result<DueDeadlineBranch, DeadlineMutationError> {
    match earliest {
        None => Err(DeadlineMutationError::MemberMissing),
        Some(key) => if !(key matches WakeupKey::Block(b) && b <= now) {
            Err(DeadlineMutationError::InvalidDestination)
        } else {
            match due_member(key, header, pages) {
                Err(e) => Err(e),
                Ok(actor) => branch_by_residence(actor, processes),
            }
        },
    }
}

/// Classification of the member due first on the tick clock at tick `now_tick`: a temporal
/// Trigger that holds exactly this slot fires; otherwise the member's process residence
/// decides.
pub open spec fn spec_classify_due_tick(
    now_tick: SchedulerTick,
    earliest: Option<WakeupKey>,
    header: Option<DeadlineHeader>,
    pages: Map<u64, DeadlinePage>,
    trigger_handles: Map<ActorId, TriggerDeadlineHandle>,
    processes: Map<ActorId, ActorProcess>,
) -> Result<DueDeadlineBranch, DeadlineMutationError> {
    match earliest {
        None => Err(DeadlineMutationError::MemberMissing),
        Some(key) => if !(key matches WakeupKey::Tick(t) && t <= now_tick) {
            Err(DeadlineMutationError::InvalidDestination)
        } else {
            match due_member(key, header, pages) {
                Err(e) => Err(e),
                Ok(actor) => if trigger_handles.contains_key(actor.actor_id) && trigger_handles[actor.actor_id]
                    == (TriggerDeadlineHandle { actor, key }) {
                    Ok(DueDeadlineBranch::TemporalTrigger(actor))
                } else {
                    branch_by_residence(actor, processes)
                },
            }
        },
    }
}

fn find_due_member(header: Option<DeadlineHeader>, pages: &HashMap<u64, DeadlinePage>) -> (r: Result<
    ActorRef,
    DeadlineMutationError,
>)
    ensures
        forall|key: WakeupKey| r == due_member(key, header, pages@),
{
    let h = match header {
        None => return Err(DeadlineMutationError::CorruptCarrier),
        Some(h) => h,
    };
    let page = match pages.get(&h.first_page) {
        Some(p) => p,
        None => return Err(DeadlineMutationError::CorruptCarrier),
    };
    match first_member(&page.entries) {
        Some(a) => Ok(a),
        None => Err(DeadlineMutationError::CorruptCarrier),
    }
}

fn classify_residence(actor: ActorRef, processes: &HashMap<ActorId, ActorProcess>) -> (r: Result<
    DueDeadlineBranch,
    DeadlineMutationError,
>)
    ensures
        r == branch_by_residence(actor, processes@),
{
    let process = match processes.get(&actor.actor_id) {
        Some(p) => *p,
        None => return Err(DeadlineMutationError::ProcessMissing),
    };
    match process.residence {
        Some(ProcessResidence::Deadline { .. }) => Ok(DueDeadlineBranch::Retry(actor)),
        Some(ProcessResidence::Parked) => Ok(DueDeadlineBranch::Review(actor)),
        _ => Err(DeadlineMutationError::ProcessResidenceMismatch),
    }
}

/// Classifies the member due first on the block clock without changing anything. `earliest`
/// is the block clock's earliest indexed bucket; `header` and `pages` are that bucket's.
pub fn classify_next_due_block_deadline(
    now: BlockNumber,
    earliest: Option<WakeupKey>,
    header: Option<DeadlineHeader>,
    pages: &HashMap<u64, DeadlinePage>,
    processes: &HashMap<ActorId, ActorProcess>,
) -> (r: Result<DueDeadlineBranch, DeadlineMutationError>)
    ensures
        r == spec_classify_due_block(now, earliest, header, pages@, processes@),
{
    let key = match earliest {
        None => return Err(DeadlineMutationError::MemberMissing),
        Some(k) => k,
    };
    match key {
        WakeupKey::Block(block) => {
            if block > now {
                return Err(DeadlineMutationError::InvalidDestination);
            }
        },
        WakeupKey::Tick(_) => return Err(DeadlineMutationError::InvalidDestination),
    }
    let actor = find_due_member(header, pages)?;
    proof {
        assert(due_member(key, header, pages@) == Ok::<ActorRef, DeadlineMutationError>(actor));
    }
    classify_residence(actor, processes)
}

/// Classifies the member due first on the tick clock without changing anything. `earliest` is
/// the tick clock's earliest indexed bucket; `header` and `pages` are that bucket's.
pub fn classify_next_due_tick_deadline(
    now_tick: SchedulerTick,
    earliest: Option<WakeupKey>,
    header: Option<DeadlineHeader>,
    pages: &HashMap<u64, DeadlinePage>,
    trigger_handles: &HashMap<ActorId, TriggerDeadlineHandle>,
    processes: &HashMap<ActorId, ActorProcess>,
) -> (r: Result<DueDeadlineBranch, DeadlineMutationError>)
    ensures
        r == spec_classify_due_tick(now_tick, earliest, header, pages@, trigger_handles@, processes@),
{
    let key = match earliest {
        None => return Err(DeadlineMutationError::MemberMissing),
        Some(k) => k,
    };
    match key {
        WakeupKey::Tick(tick) => {
            if tick > now_tick {
                return Err(DeadlineMutationError::InvalidDestination);
            }
        },
        WakeupKey::Block(_) => return Err(DeadlineMutationError::InvalidDestination),
    }
    let actor = find_due_member(header, pages)?;
    proof {
        assert(due_member(key, header, pages@) == Ok::<ActorRef, DeadlineMutationError>(actor));
    }
    match trigger_handles.get(&actor.actor_id) {
        Some(handle) => {
            if handle.actor == actor && handle.key == key {
                return Ok(DueDeadlineBranch::TemporalTrigger(actor));
            }
        },
        None => {},
    }
    classify_residence(actor, processes)
}


// ---------------------------------------------------------------------------------------------
// Members entering and leaving a bucket.
// ---------------------------------------------------------------------------------------------

/// A deadline page as plain values.
pub struct DeadlinePageView {
    pub previous_page: Option<u64>,
    pub next_page: Option<u64>,
    pub live_entries: u32,
    pub entries: Seq<Option<ActorRef>>,
}

impl View for DeadlinePage {
    type V = DeadlinePageView;

    open spec fn view(&self) -> DeadlinePageView {
        DeadlinePageView {
            previous_page: self.previous_page,
            next_page: self.next_page,
            live_entries: self.live_entries,
            entries: self.entries@,
        }
    }
}

/// The stored pages of a bucket as plain values.
pub open spec fn pages_view(pages: Map<u64, DeadlinePage>) -> Map<u64, DeadlinePageView> {
    pages.map_values(|p: DeadlinePage| p@)
}

/// One deadline bucket as stored: its header and its pages by page id.
pub struct DeadlineBucket {
    pub header: Option<DeadlineHeader>,
    pub pages: HashMap<u64, DeadlinePage>,
}

/// Where a temporal Trigger's next wakeup is recorded in the Actor's hot state.
#[derive(Clone, Copy, Debug, PartialEq, Eq, Structural)]
pub struct TriggerWakeupPointer {
    pub tick: SchedulerTick,
    pub page_id: u64,
    pub slot: u32,
}

/// The semantic authority of an Active Actor over its temporal Trigger.
#[derive(Clone, Copy, Debug, PartialEq, Eq, Structural)]
pub struct TriggerOwnerAuthority {
    pub generation: u64,
    pub trigger_wakeup_pointer: Option<TriggerWakeupPointer>,
}

/// The records that show who owns a deadline slot, as read for the slot's Actor.
#[derive(Clone, Copy, Debug, PartialEq, Eq, Structural)]
pub enum DeadlineOwner {
    /// A temporal Trigger; the authority is absent unless the Actor is Active.
    Trigger(Option<TriggerOwnerAuthority>),
    /// A process, with the Actor's timed review and pending check owner.
    Process { process: Option<ActorProcess>, review: Option<DependencyTimedReview>, pending: Option<PendingCheckOwner> },
}

/// What the caller does next to the clock's deadline index for the bucket.
#[derive(Clone, Copy, Debug, PartialEq, Eq, Structural)]
pub enum DeadlineIndexAction {
    /// The bucket is new: insert its key.
    Insert,
    /// The bucket changed and stays: revalidate its key.
    Update,
    /// The bucket is gone: remove its key.
    Remove,
}

/// A timed review of the bucket of `handle` for its Actor, owned by the Actor's pending owner.
pub open spec fn review_owns(
    handle: DeadlineHandle,
    review: Option<DependencyTimedReview>,
    pending: Option<PendingCheckOwner>,
) -> bool {
    match review {
        Some(r) => r.owner.actor == handle.actor && r.deadline == handle.key && pending == Some(r.owner),
        None => false,
    }
}

/// A process owns the slot `handle` names: it serves in exactly that deadline slot, or it is
/// parked with a timed review of that bucket whose owner is the Actor's pending owner.
pub open spec fn handle_matches_process(
    handle: DeadlineHandle,
    process: ActorProcess,
    review: Option<DependencyTimedReview>,
    pending: Option<PendingCheckOwner>,
) -> bool {
    &&& process.generation == handle.actor.generation
    &&& process.status == ProcessStatus::Serving
    &&& (process.residence == Some(ProcessResidence::Deadline { key: handle.key, page: handle.page, slot: handle.slot })
        || (process.residence == Some(ProcessResidence::Parked) && review_owns(handle, review, pending)))
}

/// The refusal, if any, of the slot's owner for a member at `handle`.
pub open spec fn owner_refusal(handle: DeadlineHandle, owner: DeadlineOwner, removing: bool) -> Option<DeadlineMutationError> {
    match owner {
        DeadlineOwner::Trigger(None) => Some(DeadlineMutationError::ProcessMissing),
        DeadlineOwner::Trigger(Some(a)) => match handle.key {
            WakeupKey::Block(_) => Some(DeadlineMutationError::InvalidDestination),
            WakeupKey::Tick(tick) => if a.generation != handle.actor.generation || a.trigger_wakeup_pointer != Some(
                TriggerWakeupPointer { tick, page_id: handle.page, slot: handle.slot as u32 },
            ) {
                Some(DeadlineMutationError::ProcessResidenceMismatch)
            } else {
                None
            },
        },
        DeadlineOwner::Process { process: None, .. } => Some(DeadlineMutationError::ProcessMissing),
        DeadlineOwner::Process { process: Some(p), review, pending } => if removing && p.generation
            != handle.actor.generation {
            Some(DeadlineMutationError::StaleGeneration)
        } else if !handle_matches_process(handle, p, review, pending) {
            Some(DeadlineMutationError::ProcessResidenceMismatch)
        } else {
            None
        },
    }
}

/// Whether a process owns the slot `handle` names.
pub fn deadline_handle_matches_process(
    handle: DeadlineHandle,
    process: &ActorProcess,
    review: Option<DependencyTimedReview>,
    pending: Option<PendingCheckOwner>,
) -> (r: bool)
    ensures
        r == handle_matches_process(handle, *process, review, pending),
{
    if process.generation != handle.actor.generation {
        return false;
    }
    match process.status {
        ProcessStatus::Serving => {},
        _ => return false,
    }
    match process.residence {
        Some(ProcessResidence::Deadline { key, page, slot }) => key == handle.key && page == handle.page && slot
            == handle.slot,
        Some(ProcessResidence::Parked) => match review {
            Some(r) => r.owner.actor == handle.actor && r.deadline == handle.key && match pending {
                Some(o) => o == r.owner,
                None => false,
            },
            None => false,
        },
        _ => false,
    }
}

fn check_owner(handle: DeadlineHandle, owner: DeadlineOwner, removing: bool) -> (r: Result<(), DeadlineMutationError>)
    ensures
        match owner_refusal(handle, owner, removing) {
            Some(e) => r == Err::<(), DeadlineMutationError>(e),
            None => r is Ok,
        },
{
    match owner {
        DeadlineOwner::Trigger(None) => Err(DeadlineMutationError::ProcessMissing),
        DeadlineOwner::Trigger(Some(a)) => match handle.key {
            WakeupKey::Block(_) => Err(DeadlineMutationError::InvalidDestination),
            WakeupKey::Tick(tick) => {
                let expected = TriggerWakeupPointer { tick, page_id: handle.page, slot: handle.slot as u32 };
                let pointer_ok = match a.trigger_wakeup_pointer {
                    Some(p) => p == expected,
                    None => false,
                };
                if a.generation != handle.actor.generation || !pointer_ok {
                    Err(DeadlineMutationError::ProcessResidenceMismatch)
                } else {
                    Ok(())
                }
            },
        },
        DeadlineOwner::Process { process: None, .. } => Err(DeadlineMutationError::ProcessMissing),
        DeadlineOwner::Process { process: Some(p), review, pending } => {
            if removing && p.generation != handle.actor.generation {
                return Err(DeadlineMutationError::StaleGeneration);
            }
            if !deadline_handle_matches_process(handle, &p, review, pending) {
                return Err(DeadlineMutationError::ProcessResidenceMismatch);
            }
            Ok(())
        },
    }
}

/// The slot `slot` of page `p` of a bucket, when both exist.
pub open spec fn entry_at(pages: Map<u64, DeadlinePageView>, p: u64, slot: int) -> Option<ActorRef> {
    if pages.contains_key(p) && 0 <= slot < pages[p].entries.len() {
        pages[p].entries[slot]
    } else {
        None
    }
}

/// The refusal, if any, of entering `handle.actor` at the slot `handle` names.
pub open spec fn insert_refusal(
    header: Option<DeadlineHeader>,
    pages: Map<u64, DeadlinePageView>,
    handles: Map<ActorId, DeadlineHandle>,
    handle: DeadlineHandle,
    owner: DeadlineOwner,
    legacy_authority_present: bool,
    transactional: bool,
    max_active_actors: u32,
) -> Option<DeadlineMutationError> {
    let slot = handle.slot as int;
    let existing = pages.contains_key(handle.page);
    let count = match header {
        Some(h) => h.count as int,
        None => 0,
    };
    if !transactional {
        Some(DeadlineMutationError::TransactionRequired)
    } else if legacy_authority_present {
        Some(DeadlineMutationError::LegacyAuthorityPresent)
    } else if owner_refusal(handle, owner, false) is Some {
        owner_refusal(handle, owner, false)
    } else if handles.contains_key(handle.actor.actor_id) {
        Some(DeadlineMutationError::MemberAlreadyExists)
    } else if slot >= 32 {
        Some(DeadlineMutationError::InvalidDestination)
    } else if !((header is None && !existing && handle.page == 0) || (header matches Some(h) && !existing
        && handle.page == h.next_page) || (header is Some && existing)) {
        Some(DeadlineMutationError::InvalidDestination)
    } else if existing && pages[handle.page].entries[slot] is Some {
        Some(DeadlineMutationError::InvalidDestination)
    } else if count + 1 > u32::MAX || count + 1 > max_active_actors {
        Some(DeadlineMutationError::CapacityExceeded)
    } else if !existing && header is Some && (!pages.contains_key(header->Some_0.last_page)
        || pages[header->Some_0.last_page].next_page is Some) {
        Some(DeadlineMutationError::CorruptCarrier)
    } else if existing && (pages[handle.page].live_entries >= 32 || pages[handle.page].entries.len() != 32) {
        Some(DeadlineMutationError::PageFull)
    } else if header matches Some(h) && handle.page == h.next_page && (h.next_page == u64::MAX || h.page_count
        == u32::MAX) {
        Some(DeadlineMutationError::CapacityExceeded)
    } else {
        None
    }
}

/// Inserting `handle` gets as far as reading the occupancy of its slot in an existing page:
/// every check before that read passes.
pub open spec fn occupancy_read_reached(
    header: Option<DeadlineHeader>,
    pages: Map<u64, DeadlinePageView>,
    handles: Map<ActorId, DeadlineHandle>,
    handle: DeadlineHandle,
    owner: DeadlineOwner,
    legacy_authority_present: bool,
    transactional: bool,
) -> bool {
    let existing = pages.contains_key(handle.page);
    &&& transactional
    &&& !legacy_authority_present
    &&& owner_refusal(handle, owner, false) is None
    &&& !handles.contains_key(handle.actor.actor_id)
    &&& handle.slot < 32
    &&& header is Some
    &&& existing
}

/// The bucket after `handle.actor` enters the slot `handle` names: a missing page is appended
/// after the last page, the member is written and counted, and a new bucket starts with one
/// page.
pub open spec fn insert_result(
    header: Option<DeadlineHeader>,
    pages: Map<u64, DeadlinePageView>,
    handle: DeadlineHandle,
) -> (DeadlineHeader, Map<u64, DeadlinePageView>) {
    let slot = handle.slot as int;
    let existing = pages.contains_key(handle.page);
    let previous = match header {
        Some(h) => Some(h.last_page),
        None => None,
    };
    let base = if existing {
        pages[handle.page]
    } else {
        DeadlinePageView {
            previous_page: previous,
            next_page: None,
            live_entries: 0,
            entries: Seq::new(32, |i: int| None::<ActorRef>),
        }
    };
    let linked = match previous {
        Some(pp) => if !existing {
            pages.insert(pp, DeadlinePageView { next_page: Some(handle.page), ..pages[pp] })
        } else {
            pages
        },
        None => pages,
    };
    let written = DeadlinePageView {
        live_entries: (base.live_entries + 1) as u32,
        entries: base.entries.update(slot, Some(handle.actor)),
        ..base
    };
    let new_header = match header {
        Some(h) => if handle.page == h.next_page {
            DeadlineHeader {
                last_page: handle.page,
                next_page: (h.next_page + 1) as u64,
                page_count: (h.page_count + 1) as u32,
                count: (h.count + 1) as u32,
                ..h
            }
        } else {
            DeadlineHeader { count: (h.count + 1) as u32, ..h }
        },
        None => DeadlineHeader { first_page: 0, last_page: 0, next_page: 1, page_count: 1, count: 1 },
    };
    (new_header, linked.insert(handle.page, written))
}

fn page_of(pages: &HashMap<u64, DeadlinePage>, id: u64) -> (r: Option<DeadlinePage>)
    ensures
        match r {
            Some(p) => pages@.contains_key(id) && p@ == pages@[id]@,
            None => !pages@.contains_key(id),
        },
{
    match pages.get(&id) {
        Some(p) => Some(
            DeadlinePage {
                previous_page: p.previous_page,
                next_page: p.next_page,
                live_entries: p.live_entries,
                entries: p.entries.clone(),
            },
        ),
        None => None,
    }
}

proof fn lemma_pages_view_insert(pages: Map<u64, DeadlinePage>, k: u64, v: DeadlinePage)
    ensures
        pages_view(pages.insert(k, v)) == pages_view(pages).insert(k, v@),
{
    assert(pages_view(pages.insert(k, v)) =~= pages_view(pages).insert(k, v@));
}

impl DeadlineBucket {
    /// Enters `handle.actor` at the exact slot `handle` names, for a temporal Trigger or a process
    /// as `owner` shows, and records the handle. On success, returns what the caller does to the
    /// clock's deadline index; on refusal nothing changes.
    pub fn enter_deadline_bucket(
        &mut self,
        handles: &mut HashMap<ActorId, DeadlineHandle>,
        handle: DeadlineHandle,
        owner: DeadlineOwner,
        legacy_authority_present: bool,
        transactional: bool,
        max_active_actors: u32,
    ) -> (r: Result<DeadlineIndexAction, DeadlineMutationError>)
        requires
            occupancy_read_reached(
                old(self).header,
                pages_view(old(self).pages@),
                old(handles)@,
                handle,
                owner,
                legacy_authority_present,
                transactional,
            ) ==> handle.slot < old(self).pages@[handle.page].entries@.len(),
        ensures
            ({
                let refusal = insert_refusal(
                    old(self).header,
                    pages_view(old(self).pages@),
                    old(handles)@,
                    handle,
                    owner,
                    legacy_authority_present,
                    transactional,
                    max_active_actors,
                );
                match refusal {
                    Some(e) => r == Err::<DeadlineIndexAction, DeadlineMutationError>(e) && final(self).header
                        == old(self).header && final(self).pages@ == old(self).pages@ && final(handles)@ == old(
                        handles,
                    )@,
                    None => {
                        let (h, p) = insert_result(old(self).header, pages_view(old(self).pages@), handle);
                        &&& r == Ok::<DeadlineIndexAction, DeadlineMutationError>(
                            if old(self).header is None {
                                DeadlineIndexAction::Insert
                            } else {
                                DeadlineIndexAction::Update
                            },
                        )
                        &&& final(self).header == Some(h)
                        &&& pages_view(final(self).pages@) == p
                        &&& final(handles)@ == old(handles)@.insert(handle.actor.actor_id, handle)
                    },
                }
            }),
    {
        if !transactional {
            return Err(DeadlineMutationError::TransactionRequired);
        }
        if legacy_authority_present {
            return Err(DeadlineMutationError::LegacyAuthorityPresent);
        }
        check_owner(handle, owner, false)?;
        if handles.contains_key(&handle.actor.actor_id) {
            return Err(DeadlineMutationError::MemberAlreadyExists);
        }
        let slot = handle.slot as usize;
        if slot >= 32 {
            return Err(DeadlineMutationError::InvalidDestination);
        }
        let existing = page_of(&self.pages, handle.page);
        let shape_ok = match (self.header, &existing) {
            (None, None) => handle.page == 0,
            (Some(h), None) => handle.page == h.next_page,
            (Some(_), Some(_)) => true,
            (None, Some(_)) => false,
        };
        if !shape_ok {
            return Err(DeadlineMutationError::InvalidDestination);
        }
        match &existing {
            Some(p) => {
                if p.entries[slot].is_some() {
                    return Err(DeadlineMutationError::InvalidDestination);
                }
            },
            None => {},
        }
        let next_count: u32 = match self.header {
            Some(h) => {
                if h.count == u32::MAX {
                    return Err(DeadlineMutationError::CapacityExceeded);
                }
                h.count + 1
            },
            None => 1,
        };
        if next_count > max_active_actors {
            return Err(DeadlineMutationError::CapacityExceeded);
        }
        // The page before a new page, relinked to it.
        let mut relinked_previous: Option<(u64, DeadlinePage)> = None;
        let page = match existing {
            Some(p) => p,
            None => {
                let previous_page = match self.header {
                    Some(h) => Some(h.last_page),
                    None => None,
                };
                match previous_page {
                    Some(pp) => {
                        let mut previous = match page_of(&self.pages, pp) {
                            Some(q) => q,
                            None => return Err(DeadlineMutationError::CorruptCarrier),
                        };
                        if previous.next_page.is_some() {
                            return Err(DeadlineMutationError::CorruptCarrier);
                        }
                        previous.next_page = Some(handle.page);
                        relinked_previous = Some((pp, previous));
                    },
                    None => {},
                }
                let mut entries: Vec<Option<ActorRef>> = Vec::new();
                let mut i: usize = 0;
                while i < 32
                    invariant
                        0 <= i <= 32,
                        entries@ == Seq::new(i as nat, |j: int| None::<ActorRef>),
                    decreases 32 - i,
                {
                    entries.push(None);
                    i = i + 1;
                    proof {
                        assert(entries@ =~= Seq::new(i as nat, |j: int| None::<ActorRef>));
                    }
                }
                DeadlinePage { previous_page, next_page: None, live_entries: 0, entries }
            },
        };
        if page.live_entries >= 32 || page.entries.len() != DEADLINE_PAGE_SLOTS {
            return Err(DeadlineMutationError::PageFull);
        }
        let new_header = match self.header {
            Some(h) => {
                if handle.page == h.next_page {
                    if h.next_page == u64::MAX || h.page_count == u32::MAX {
                        return Err(DeadlineMutationError::CapacityExceeded);
                    }
                    DeadlineHeader {
                        last_page: handle.page,
                        next_page: h.next_page + 1,
                        page_count: h.page_count + 1,
                        count: next_count,
                        ..h
                    }
                } else {
                    DeadlineHeader { count: next_count, ..h }
                }
            },
            None => DeadlineHeader { first_page: 0, last_page: 0, next_page: 1, page_count: 1, count: 1 },
        };
        let mut page = page;
        page.entries.set(slot, Some(handle.actor));
        page.live_entries = page.live_entries + 1;
        let ghost pages0 = self.pages@;
        match relinked_previous {
            Some((pp, previous)) => {
                self.pages.insert(pp, previous);
                proof {
                    lemma_pages_view_insert(pages0, pp, previous);
                }
            },
            None => {},
        }
        let ghost pages1 = self.pages@;
        self.pages.insert(handle.page, page);
        proof {
            lemma_pages_view_insert(pages1, handle.page, page);
        }
        let action = if self.header.is_none() {
            DeadlineIndexAction::Insert
        } else {
            DeadlineIndexAction::Update
        };
        self.header = Some(new_header);
        handles.insert(handle.actor.actor_id, handle);
        proof {
            let (h, p) = insert_result(old(self).header, pages_view(old(self).pages@), handle);
            assert(pages_view(self.pages@) =~= p);
        }
        Ok(action)
    }
}


/// The refusal, if any, of `actor` leaving its deadline slot.
pub open spec fn remove_refusal(
    header: Option<DeadlineHeader>,
    pages: Map<u64, DeadlinePageView>,
    handles: Map<ActorId, DeadlineHandle>,
    actor: ActorRef,
    owner: DeadlineOwner,
    legacy_authority_present: bool,
    transactional: bool,
) -> Option<DeadlineMutationError> {
    let handle = handles[actor.actor_id];
    let h = header->Some_0;
    let page = pages[handle.page];
    let emptied = page.live_entries == 1;
    let after_previous = match page.previous_page {
        Some(pp) => pages.insert(pp, DeadlinePageView { next_page: page.next_page, ..pages[pp] }),
        None => pages,
    };
    if !transactional {
        Some(DeadlineMutationError::TransactionRequired)
    } else if legacy_authority_present {
        Some(DeadlineMutationError::LegacyAuthorityPresent)
    } else if !handles.contains_key(actor.actor_id) {
        Some(DeadlineMutationError::MemberMissing)
    } else if handle.actor != actor {
        Some(DeadlineMutationError::StaleGeneration)
    } else if owner_refusal(handle, owner, true) is Some {
        owner_refusal(handle, owner, true)
    } else if header is None || !pages.contains_key(handle.page) {
        Some(DeadlineMutationError::CorruptCarrier)
    } else if entry_at(pages, handle.page, handle.slot as int) != Some(actor) || page.live_entries == 0
        || h.count == 0 {
        Some(DeadlineMutationError::CorruptCarrier)
    } else if !emptied {
        None
    } else if page.previous_page matches Some(pp) && (!pages.contains_key(pp) || pages[pp].next_page != Some(
        handle.page,
    )) {
        Some(DeadlineMutationError::CorruptCarrier)
    } else if page.next_page matches Some(np) && (!after_previous.contains_key(np)
        || after_previous[np].previous_page != Some(handle.page)) {
        Some(DeadlineMutationError::CorruptCarrier)
    } else if h.page_count == 0 {
        Some(DeadlineMutationError::CorruptCarrier)
    } else if h.page_count == 1 && h.count != 1 {
        Some(DeadlineMutationError::CorruptCarrier)
    } else if h.page_count > 1 && ((h.first_page == handle.page && page.next_page is None) || (h.last_page
        == handle.page && page.previous_page is None)) {
        Some(DeadlineMutationError::CorruptCarrier)
    } else {
        None
    }
}

/// The bucket after the member at `handle` leaves: the slot is cleared and uncounted; a page
/// left empty is unlinked from its neighbours and dropped, and a bucket left without pages is
/// dropped.
pub open spec fn remove_result(header: DeadlineHeader, pages: Map<u64, DeadlinePageView>, handle: DeadlineHandle) -> (
    Option<DeadlineHeader>,
    Map<u64, DeadlinePageView>,
    DeadlineIndexAction,
) {
    let h = header;
    let page = pages[handle.page];
    let cleared = DeadlinePageView {
        live_entries: (page.live_entries - 1) as u32,
        entries: page.entries.update(handle.slot as int, None),
        ..page
    };
    let count = (h.count - 1) as u32;
    if page.live_entries > 1 {
        (Some(DeadlineHeader { count, ..h }), pages.insert(handle.page, cleared), DeadlineIndexAction::Update)
    } else {
        let after_previous = match page.previous_page {
            Some(pp) => pages.insert(pp, DeadlinePageView { next_page: page.next_page, ..pages[pp] }),
            None => pages,
        };
        let after_next = match page.next_page {
            Some(np) => after_previous.insert(
                np,
                DeadlinePageView { previous_page: page.previous_page, ..after_previous[np] },
            ),
            None => after_previous,
        };
        let remaining = after_next.remove(handle.page);
        if h.page_count == 1 {
            (None, remaining, DeadlineIndexAction::Remove)
        } else {
            (
                Some(
                    DeadlineHeader {
                        count,
                        page_count: (h.page_count - 1) as u32,
                        first_page: if h.first_page == handle.page {
                            page.next_page->Some_0
                        } else {
                            h.first_page
                        },
                        last_page: if h.last_page == handle.page {
                            page.previous_page->Some_0
                        } else {
                            h.last_page
                        },
                        ..h
                    },
                ),
                remaining,
                DeadlineIndexAction::Update,
            )
        }
    }
}

proof fn lemma_pages_view_remove(pages: Map<u64, DeadlinePage>, k: u64)
    ensures
        pages_view(pages.remove(k)) == pages_view(pages).remove(k),
{
    assert(pages_view(pages.remove(k)) =~= pages_view(pages).remove(k));
}

impl DeadlineBucket {
    /// Takes `actor` out of the deadline slot its handle names, for a temporal Trigger or a
    /// process as `owner` shows, and drops the handle. On success, returns the handle and what
    /// the caller does to the clock's deadline index; on refusal nothing changes.
    pub fn leave_deadline_bucket(
        &mut self,
        handles: &mut HashMap<ActorId, DeadlineHandle>,
        actor: ActorRef,
        owner: DeadlineOwner,
        legacy_authority_present: bool,
        transactional: bool,
    ) -> (r: Result<(DeadlineHandle, DeadlineIndexAction), DeadlineMutationError>)
        ensures
            ({
                let refusal = remove_refusal(
                    old(self).header,
                    pages_view(old(self).pages@),
                    old(handles)@,
                    actor,
                    owner,
                    legacy_authority_present,
                    transactional,
                );
                match refusal {
                    Some(e) => r == Err::<(DeadlineHandle, DeadlineIndexAction), DeadlineMutationError>(e)
                        && final(self).header == old(self).header && final(self).pages@ == old(self).pages@
                        && final(handles)@ == old(handles)@,
                    None => {
                        let handle = old(handles)@[actor.actor_id];
                        let (h, p, action) = remove_result(
                            old(self).header->Some_0,
                            pages_view(old(self).pages@),
                            handle,
                        );
                        &&& r == Ok::<(DeadlineHandle, DeadlineIndexAction), DeadlineMutationError>(
                            (handle, action),
                        )
                        &&& final(self).header == h
                        &&& pages_view(final(self).pages@) == p
                        &&& final(handles)@ == old(handles)@.remove(actor.actor_id)
                    },
                }
            }),
    {
        if !transactional {
            return Err(DeadlineMutationError::TransactionRequired);
        }
        if legacy_authority_present {
            return Err(DeadlineMutationError::LegacyAuthorityPresent);
        }
        let handle = match handles.get(&actor.actor_id) {
            Some(h) => *h,
            None => return Err(DeadlineMutationError::MemberMissing),
        };
        if handle.actor != actor {
            return Err(DeadlineMutationError::StaleGeneration);
        }
        check_owner(handle, owner, true)?;
        let h = match self.header {
            Some(h) => h,
            None => return Err(DeadlineMutationError::CorruptCarrier),
        };
        let mut page = match page_of(&self.pages, handle.page) {
            Some(p) => p,
            None => return Err(DeadlineMutationError::CorruptCarrier),
        };
        let slot = handle.slot as usize;
        let occupied = slot < page.entries.len() && match page.entries[slot] {
            Some(a) => a == actor,
            None => false,
        };
        if !occupied || page.live_entries == 0 || h.count == 0 {
            return Err(DeadlineMutationError::CorruptCarrier);
        }
        let ghost pages0 = self.pages@;
        page.entries.set(slot, None);
        page.live_entries = page.live_entries - 1;
        let count = h.count - 1;
        if page.live_entries > 0 {
            self.pages.insert(handle.page, page);
            proof {
                lemma_pages_view_insert(pages0, handle.page, page);
            }
            self.header = Some(DeadlineHeader { count, ..h });
            handles.remove(&actor.actor_id);
            return Ok((handle, DeadlineIndexAction::Update));
        }
        // The emptied page leaves the chain; check every neighbour before writing.
        let relinked_previous: Option<(u64, DeadlinePage)> = match page.previous_page {
            Some(pp) => {
                let mut previous = match page_of(&self.pages, pp) {
                    Some(q) => q,
                    None => return Err(DeadlineMutationError::CorruptCarrier),
                };
                let links_here = match previous.next_page {
                    Some(n) => n == handle.page,
                    None => false,
                };
                if !links_here {
                    return Err(DeadlineMutationError::CorruptCarrier);
                }
                previous.next_page = page.next_page;
                Some((pp, previous))
            },
            None => None,
        };
        let relinked_next: Option<(u64, DeadlinePage)> = match page.next_page {
            Some(np) => {
                let same = match &relinked_previous {
                    Some((pp, _)) => *pp == np,
                    None => false,
                };
                let mut next = if same {
                    match relinked_previous {
                        Some((_, ref q)) => DeadlinePage {
                            previous_page: q.previous_page,
                            next_page: q.next_page,
                            live_entries: q.live_entries,
                            entries: q.entries.clone(),
                        },
                        None => return Err(DeadlineMutationError::CorruptCarrier),
                    }
                } else {
                    match page_of(&self.pages, np) {
                        Some(q) => q,
                        None => return Err(DeadlineMutationError::CorruptCarrier),
                    }
                };
                let links_here = match next.previous_page {
                    Some(p) => p == handle.page,
                    None => false,
                };
                if !links_here {
                    return Err(DeadlineMutationError::CorruptCarrier);
                }
                next.previous_page = page.previous_page;
                Some((np, next))
            },
            None => None,
        };
        if h.page_count == 0 {
            return Err(DeadlineMutationError::CorruptCarrier);
        }
        let page_count = h.page_count - 1;
        let new_header = if page_count == 0 {
            if count != 0 {
                return Err(DeadlineMutationError::CorruptCarrier);
            }
            None
        } else {
            let first_page = if h.first_page == handle.page {
                match page.next_page {
                    Some(n) => n,
                    None => return Err(DeadlineMutationError::CorruptCarrier),
                }
            } else {
                h.first_page
            };
            let last_page = if h.last_page == handle.page {
                match page.previous_page {
                    Some(p) => p,
                    None => return Err(DeadlineMutationError::CorruptCarrier),
                }
            } else {
                h.last_page
            };
            Some(DeadlineHeader { count, page_count, first_page, last_page, ..h })
        };
        match relinked_previous {
            Some((pp, q)) => {
                let ghost before = self.pages@;
                self.pages.insert(pp, q);
                proof {
                    lemma_pages_view_insert(before, pp, q);
                }
            },
            None => {},
        }
        match relinked_next {
            Some((np, q)) => {
                let ghost before = self.pages@;
                self.pages.insert(np, q);
                proof {
                    lemma_pages_view_insert(before, np, q);
                }
            },
            None => {},
        }
        let ghost before = self.pages@;
        self.pages.remove(&handle.page);
        proof {
            lemma_pages_view_remove(before, handle.page);
        }
        let action = if new_header.is_none() {
            DeadlineIndexAction::Remove
        } else {
            DeadlineIndexAction::Update
        };
        self.header = new_header;
        handles.remove(&actor.actor_id);
        proof {
            let (hh, p, a) = remove_result(h, pages_view(pages0), handle);
            assert(pages_view(self.pages@) =~= p);
        }
        Ok((handle, action))
    }
}


// ---------------------------------------------------------------------------------------------
// Laws of the bucket.
// ---------------------------------------------------------------------------------------------

/// Number of occupied slots.
pub open spec fn occupied_count(entries: Seq<Option<ActorRef>>) -> int
    decreases entries.len(),
{
    if entries.len() == 0 {
        0
    } else {
        occupied_count(entries.drop_last()) + if entries.last() is Some {
            1int
        } else {
            0
        }
    }
}

/// A page counts exactly its occupied slots.
pub open spec fn live_count_exact(page: DeadlinePageView) -> bool {
    page.live_entries == occupied_count(page.entries)
}

proof fn lemma_occupied_count_update(e: Seq<Option<ActorRef>>, i: int, v: Option<ActorRef>)
    requires
        0 <= i < e.len(),
    ensures
        occupied_count(e.update(i, v)) == occupied_count(e) - (if e[i] is Some { 1int } else { 0 }) + (if v is Some {
            1int
        } else {
            0
        }),
    decreases e.len(),
{
    if i < e.len() - 1 {
        assert(e.update(i, v).drop_last() =~= e.drop_last().update(i, v));
        lemma_occupied_count_update(e.drop_last(), i, v);
    } else {
        assert(e.update(i, v).drop_last() =~= e.drop_last());
    }
}

proof fn lemma_occupied_count_zero(e: Seq<Option<ActorRef>>, i: int)
    requires
        occupied_count(e) == 0,
        0 <= i < e.len(),
    ensures
        e[i] is None,
    decreases e.len(),
{
    lemma_occupied_count_nonneg(e.drop_last());
    if i < e.len() - 1 {
        lemma_occupied_count_zero(e.drop_last(), i);
    }
}

proof fn lemma_occupied_count_nonneg(e: Seq<Option<ActorRef>>)
    ensures
        occupied_count(e) >= 0,
    decreases e.len(),
{
    if e.len() > 0 {
        lemma_occupied_count_nonneg(e.drop_last());
    }
}

proof fn lemma_empty_entries_count(n: nat)
    ensures
        occupied_count(Seq::new(n, |i: int| None::<ActorRef>)) == 0,
    decreases n,
{
    if n > 0 {
        assert(Seq::new(n, |i: int| None::<ActorRef>).drop_last() =~= Seq::new((n - 1) as nat, |i: int| None::<ActorRef>));
        lemma_empty_entries_count((n - 1) as nat);
    }
}

/// Entering a member fills exactly its slot: every other slot of the bucket keeps its member.
pub proof fn lemma_insert_fills_only_its_slot(
    header: Option<DeadlineHeader>,
    pages: Map<u64, DeadlinePageView>,
    handles: Map<ActorId, DeadlineHandle>,
    handle: DeadlineHandle,
    owner: DeadlineOwner,
    max_active_actors: u32,
)
    requires
        insert_refusal(header, pages, handles, handle, owner, false, true, max_active_actors) is None,
        pages.contains_key(handle.page) ==> handle.slot < pages[handle.page].entries.len(),
    ensures
        ({
            let (h, p) = insert_result(header, pages, handle);
            &&& entry_at(p, handle.page, handle.slot as int) == Some(handle.actor)
            &&& forall|q: u64, t: int|
                !(q == handle.page && t == handle.slot as int) ==> #[trigger] entry_at(p, q, t) == entry_at(pages, q, t)
            &&& h.count == (match header {
                Some(old_h) => old_h.count + 1,
                None => 1,
            })
        }),
{
    let (h, p) = insert_result(header, pages, handle);
    assert forall|q: u64, t: int| !(q == handle.page && t == handle.slot as int) implies #[trigger] entry_at(p, q, t)
        == entry_at(pages, q, t) by {
        if q == handle.page && !pages.contains_key(q) {
            assert(p[q].entries[t] is None || !(0 <= t < p[q].entries.len()));
        }
    }
}

/// Taking a member out clears exactly its slot when its page counts its members exactly: every
/// other slot of the bucket keeps its member.
pub proof fn lemma_remove_clears_only_its_slot(
    header: Option<DeadlineHeader>,
    pages: Map<u64, DeadlinePageView>,
    handles: Map<ActorId, DeadlineHandle>,
    actor: ActorRef,
    owner: DeadlineOwner,
)
    requires
        remove_refusal(header, pages, handles, actor, owner, false, true) is None,
        live_count_exact(pages[handles[actor.actor_id].page]),
    ensures
        ({
            let handle = handles[actor.actor_id];
            let (h, p, action) = remove_result(header->Some_0, pages, handle);
            &&& entry_at(p, handle.page, handle.slot as int) is None
            &&& forall|q: u64, t: int|
                !(q == handle.page && t == handle.slot as int) ==> #[trigger] entry_at(p, q, t) == entry_at(pages, q, t)
            &&& (match h {
                Some(nh) => nh.count == header->Some_0.count - 1,
                None => header->Some_0.count == 1,
            })
        }),
{
    let handle = handles[actor.actor_id];
    let page = pages[handle.page];
    let (h, p, action) = remove_result(header->Some_0, pages, handle);
    let i = handle.slot as int;
    assert(0 <= i < page.entries.len());
    if page.live_entries == 1 {
        // The page held this member alone.
        lemma_occupied_count_update(page.entries, i, None);
        lemma_occupied_count_nonneg(page.entries.update(i, None));
        assert forall|t: int| 0 <= t < page.entries.len() && t != i implies page.entries[t] is None by {
            lemma_occupied_count_zero(page.entries.update(i, None), t);
        }
    }
    assert forall|q: u64, t: int| !(q == handle.page && t == handle.slot as int) implies #[trigger] entry_at(p, q, t)
        == entry_at(pages, q, t) by {
        if q == handle.page && page.live_entries == 1 {
            assert(!p.contains_key(q));
        }
    }
}

/// A member that enters a slot and leaves it again leaves every slot of the bucket, the
/// member count and the handles as they were.
pub proof fn lemma_insert_then_remove_restores_members(
    header: Option<DeadlineHeader>,
    pages: Map<u64, DeadlinePageView>,
    handles: Map<ActorId, DeadlineHandle>,
    handle: DeadlineHandle,
    owner: DeadlineOwner,
    max_active_actors: u32,
)
    requires
        insert_refusal(header, pages, handles, handle, owner, false, true, max_active_actors) is None,
        owner_refusal(handle, owner, true) is None,
        pages.contains_key(handle.page) ==> handle.slot < pages[handle.page].entries.len() && live_count_exact(
            pages[handle.page],
        ),
    ensures
        ({
            let (h1, p1) = insert_result(header, pages, handle);
            let handles1 = handles.insert(handle.actor.actor_id, handle);
            let (h2, p2, action) = remove_result(h1, p1, handle);
            &&& remove_refusal(Some(h1), p1, handles1, handle.actor, owner, false, true) is None ==> {
                &&& forall|q: u64, t: int| #[trigger] entry_at(p2, q, t) == entry_at(pages, q, t)
                &&& handles1.remove(handle.actor.actor_id) == handles
                &&& (match (h2, header) {
                    (Some(a), Some(b)) => a.count == b.count,
                    (None, None) => true,
                    (None, Some(b)) => b.count == 0,
                    (Some(a), None) => a.count == 0,
                })
            }
        }),
{
    let (h1, p1) = insert_result(header, pages, handle);
    let handles1 = handles.insert(handle.actor.actor_id, handle);
    lemma_insert_fills_only_its_slot(header, pages, handles, handle, owner, max_active_actors);
    let i = handle.slot as int;
    let written = p1[handle.page];
    if pages.contains_key(handle.page) {
        let page = pages[handle.page];
        assert(page.entries[i] is None);
        lemma_occupied_count_update(page.entries, i, Some(handle.actor));
    } else {
        lemma_empty_entries_count(32);
        lemma_occupied_count_update(Seq::new(32, |j: int| None::<ActorRef>), i, Some(handle.actor));
    }
    assert(live_count_exact(written));
    assert(handles1[handle.actor.actor_id] == handle);
    if remove_refusal(Some(h1), p1, handles1, handle.actor, owner, false, true) is None {
        lemma_remove_clears_only_its_slot(Some(h1), p1, handles1, handle.actor, owner);
        assert(handles1.remove(handle.actor.actor_id) =~= handles);
        let (h2, p2, action) = remove_result(h1, p1, handle);
        assert forall|q: u64, t: int| #[trigger] entry_at(p2, q, t) == entry_at(pages, q, t) by {
            if q == handle.page && t == i {
                if pages.contains_key(q) {
                    assert(pages[q].entries[t] is None);
                }
            }
        }
    }
}

/// Why a deadline member could not be entered or taken out: the bucket refused, or the bucket
/// changed and the clock's index refused the follow-up.
#[derive(Clone, Copy, Debug, PartialEq, Eq, Structural)]
pub enum DeadlineCarrierError {
    Member(DeadlineMutationError),
    Index(DeadlineIndexMutationError),
}

/// What the bucket's storage shows the index after the bucket became `header` and `pages`;
/// `legacy_waiting_present` says a legacy waiting occupancy or cursor index is stored for the key.
pub open spec fn bucket_witness(
    header: Option<DeadlineHeader>,
    pages: Map<u64, DeadlinePageView>,
    legacy_waiting_present: bool,
) -> DeadlineBucketWitness {
    DeadlineBucketWitness {
        legacy_authority_present: legacy_waiting_present,
        header,
        first_page_present: header is Some && pages.contains_key(header->Some_0.first_page),
        last_page_present: header is Some && pages.contains_key(header->Some_0.last_page),
    }
}

/// The index was left as it was.
pub open spec fn index_kept(after: DeadlineIndex, before: DeadlineIndex) -> bool {
    &&& after@ == before@
    &&& after.spec_entries() == before.spec_entries()
}

impl DeadlineBucket {
    fn witness(&self, legacy_waiting_present: bool) -> (w: DeadlineBucketWitness)
        ensures
            w == bucket_witness(self.header, pages_view(self.pages@), legacy_waiting_present),
    {
        let (first, last) = match self.header {
            Some(h) => (self.pages.contains_key(&h.first_page), self.pages.contains_key(&h.last_page)),
            None => (false, false),
        };
        DeadlineBucketWitness {
            legacy_authority_present: legacy_waiting_present,
            header: self.header,
            first_page_present: first,
            last_page_present: last,
        }
    }

    /// Enters `handle.actor` at the exact slot `handle` names in this bucket (the bucket of
    /// `handle.key`), records the handle, and then indexes the bucket's key in `index`, the
    /// index of the key's clock: a new bucket's key is inserted, an existing bucket's key is
    /// revalidated. A refusal of the index leaves the bucket changed and the index as it was.
    pub fn insert_deadline_member_for_owner(
        &mut self,
        index: &mut DeadlineIndex,
        handles: &mut HashMap<ActorId, DeadlineHandle>,
        handle: DeadlineHandle,
        owner: DeadlineOwner,
        legacy_authority_present: bool,
        legacy_waiting_present: bool,
        transactional: bool,
        max_active_actors: u32,
    ) -> (r: Result<(), DeadlineCarrierError>)
        requires
            old(index).well_formed(),
            occupancy_read_reached(
                old(self).header,
                pages_view(old(self).pages@),
                old(handles)@,
                handle,
                owner,
                legacy_authority_present,
                transactional,
            ) ==> handle.slot < old(self).pages@[handle.page].entries@.len(),
        ensures
            final(index).well_formed(),
            final(index).spec_clock() == old(index).spec_clock(),
            final(index).spec_capacity() == old(index).spec_capacity(),
            ({
                let refusal = insert_refusal(
                    old(self).header,
                    pages_view(old(self).pages@),
                    old(handles)@,
                    handle,
                    owner,
                    legacy_authority_present,
                    transactional,
                    max_active_actors,
                );
                match refusal {
                    Some(e) => r == Err::<(), DeadlineCarrierError>(DeadlineCarrierError::Member(e))
                        && final(self).header == old(self).header && final(self).pages@ == old(self).pages@
                        && final(handles)@ == old(handles)@ && index_kept(*final(index), *old(index)),
                    None => {
                        let (h, p) = insert_result(old(self).header, pages_view(old(self).pages@), handle);
                        let w = bucket_witness(Some(h), p, legacy_waiting_present);
                        let outcome = if old(self).header is None {
                            index_insert_outcome(
                                old(index)@,
                                old(index).spec_clock(),
                                old(index).spec_capacity(),
                                handle.key,
                                w,
                            )
                        } else {
                            index_update_outcome(old(index)@, old(index).spec_clock(), handle.key, w)
                        };
                        &&& final(self).header == Some(h)
                        &&& pages_view(final(self).pages@) == p
                        &&& final(handles)@ == old(handles)@.insert(handle.actor.actor_id, handle)
                        &&& match outcome {
                            Ok(()) => r == Ok::<(), DeadlineCarrierError>(()) && if old(self).header is None {
                                final(index)@ == old(index)@.insert(handle.key.spec_instant())
                                    && final(index).spec_entries().len() == old(index).spec_entries().len() + 1
                            } else {
                                index_kept(*final(index), *old(index))
                            },
                            Err(e) => r == Err::<(), DeadlineCarrierError>(DeadlineCarrierError::Index(e))
                                && index_kept(*final(index), *old(index)),
                        }
                    },
                }
            }),
    {
        let action = match self.enter_deadline_bucket(
            handles,
            handle,
            owner,
            legacy_authority_present,
            transactional,
            max_active_actors,
        ) {
            Ok(a) => a,
            Err(e) => return Err(DeadlineCarrierError::Member(e)),
        };
        let w = self.witness(legacy_waiting_present);
        let outcome = match action {
            DeadlineIndexAction::Insert => index.insert_deadline_index(handle.key, &w),
            _ => index.update_deadline_index(handle.key, &w),
        };
        match outcome {
            Ok(()) => Ok(()),
            Err(e) => Err(DeadlineCarrierError::Index(e)),
        }
    }

    /// Takes `actor` out of the deadline slot its handle names in this bucket (the bucket of the
    /// handle's key), drops the handle, and then brings `index`, the index of the key's clock, up
    /// to date: the key of an emptied bucket is removed, that of a remaining bucket revalidated.
    /// Returns the handle. A refusal of the index leaves the bucket changed and the index as it
    /// was.
    pub fn remove_deadline_member_for_owner(
        &mut self,
        index: &mut DeadlineIndex,
        handles: &mut HashMap<ActorId, DeadlineHandle>,
        actor: ActorRef,
        owner: DeadlineOwner,
        legacy_authority_present: bool,
        legacy_waiting_present: bool,
        transactional: bool,
    ) -> (r: Result<DeadlineHandle, DeadlineCarrierError>)
        requires
            old(index).well_formed(),
        ensures
            final(index).well_formed(),
            final(index).spec_clock() == old(index).spec_clock(),
            final(index).spec_capacity() == old(index).spec_capacity(),
            ({
                let refusal = remove_refusal(
                    old(self).header,
                    pages_view(old(self).pages@),
                    old(handles)@,
                    actor,
                    owner,
                    legacy_authority_present,
                    transactional,
                );
                match refusal {
                    Some(e) => r == Err::<DeadlineHandle, DeadlineCarrierError>(DeadlineCarrierError::Member(e))
                        && final(self).header == old(self).header && final(self).pages@ == old(self).pages@
                        && final(handles)@ == old(handles)@ && index_kept(*final(index), *old(index)),
                    None => {
                        let handle = old(handles)@[actor.actor_id];
                        let (h, p, action) = remove_result(
                            old(self).header->Some_0,
                            pages_view(old(self).pages@),
                            handle,
                        );
                        let w = bucket_witness(h, p, legacy_waiting_present);
                        let outcome = if action is Remove {
                            index_remove_outcome(old(index)@, old(index).spec_clock(), handle.key, w)
                        } else {
                            index_update_outcome(old(index)@, old(index).spec_clock(), handle.key, w)
                        };
                        &&& final(self).header == h
                        &&& pages_view(final(self).pages@) == p
                        &&& final(handles)@ == old(handles)@.remove(actor.actor_id)
                        &&& match outcome {
                            Ok(()) => r == Ok::<DeadlineHandle, DeadlineCarrierError>(handle) && if action is Remove {
                                final(index)@ == old(index)@.remove(handle.key.spec_instant())
                                    && final(index).spec_entries().len() + 1 == old(index).spec_entries().len()
                            } else {
                                index_kept(*final(index), *old(index))
                            },
                            Err(e) => r == Err::<DeadlineHandle, DeadlineCarrierError>(DeadlineCarrierError::Index(e))
                                && index_kept(*final(index), *old(index)),
                        }
                    },
                }
            }),
    {
        let (handle, action) = match self.leave_deadline_bucket(
            handles,
            actor,
            owner,
            legacy_authority_present,
            transactional,
        ) {
            Ok(x) => x,
            Err(e) => return Err(DeadlineCarrierError::Member(e)),
        };
        let w = self.witness(legacy_waiting_present);
        let outcome = match action {
            DeadlineIndexAction::Remove => index.remove_deadline_index(handle.key, &w),
            _ => index.update_deadline_index(handle.key, &w),
        };
        match outcome {
            Ok(()) => Ok(handle),
            Err(e) => Err(DeadlineCarrierError::Index(e)),
        }
    }
}


/// The first member from slot `i` on is the member of the lowest occupied slot at or after
/// `i`: every slot before it (from `i`) is empty; there is none exactly when every slot from
/// `i` on is empty.
pub proof fn lemma_first_member_is_lowest(entries: Seq<Option<ActorRef>>, i: int)
    requires
        0 <= i <= entries.len(),
    ensures
        first_member_from(entries, i) is None <==> forall|j: int| i <= j < entries.len() ==> (#[trigger] entries[j]) is None,
        first_member_from(entries, i) matches Some(a) ==> exists|k: int|
            i <= k < entries.len() && entries[k] == Some(a) && forall|j: int| i <= j < k ==> (#[trigger] entries[j]) is None,
    decreases entries.len() - i,
{
    if i < entries.len() {
        lemma_first_member_is_lowest(entries, i + 1);
        if entries[i] is None {
            if let Some(a) = first_member_from(entries, i + 1) {
                let k = choose|k: int|
                    i + 1 <= k < entries.len() && entries[k] == Some(a) && forall|j: int|
                        i + 1 <= j < k ==> (#[trigger] entries[j]) is None;
                assert(forall|j: int| i <= j < k ==> (#[trigger] entries[j]) is None);
            }
        } else {
            assert(forall|j: int| i <= j < i ==> (#[trigger] entries[j]) is None);
        }
    }
}

/// The tick clock's due work is classified only when its earliest bucket is a due tick: a
/// temporal Trigger fires only when its handle names the due member at exactly that bucket; a
/// retry runs only for a member whose process waits on a deadline, a review only for a parked
/// one. The block clock likewise classifies only a due block bucket, into a retry or a review.
pub proof fn lemma_due_classification_follows_the_member(
    now: BlockNumber,
    now_tick: SchedulerTick,
    earliest: Option<WakeupKey>,
    header: Option<DeadlineHeader>,
    pages: Map<u64, DeadlinePage>,
    trigger_handles: Map<ActorId, TriggerDeadlineHandle>,
    processes: Map<ActorId, ActorProcess>,
)
    ensures
        ({
            let r = spec_classify_due_tick(now_tick, earliest, header, pages, trigger_handles, processes);
            &&& (r is Ok ==> (earliest matches Some(WakeupKey::Tick(t)) && t <= now_tick))
            &&& (r matches Ok(DueDeadlineBranch::TemporalTrigger(a)) ==> trigger_handles.contains_key(a.actor_id)
                && trigger_handles[a.actor_id] == (TriggerDeadlineHandle { actor: a, key: earliest->Some_0 })
                && due_member(earliest->Some_0, header, pages) == Ok::<ActorRef, DeadlineMutationError>(a))
            &&& (r matches Ok(DueDeadlineBranch::Retry(a)) ==> processes.contains_key(a.actor_id)
                && processes[a.actor_id].residence matches Some(ProcessResidence::Deadline { .. }))
            &&& (r matches Ok(DueDeadlineBranch::Review(a)) ==> processes.contains_key(a.actor_id)
                && processes[a.actor_id].residence == Some(ProcessResidence::Parked))
        }),
        ({
            let r = spec_classify_due_block(now, earliest, header, pages, processes);
            &&& (r is Ok ==> (earliest matches Some(WakeupKey::Block(b)) && b <= now))
            &&& !(r matches Ok(DueDeadlineBranch::TemporalTrigger(_)))
            &&& (r matches Ok(DueDeadlineBranch::Retry(a)) ==> processes.contains_key(a.actor_id)
                && processes[a.actor_id].residence matches Some(ProcessResidence::Deadline { .. }))
            &&& (r matches Ok(DueDeadlineBranch::Review(a)) ==> processes.contains_key(a.actor_id)
                && processes[a.actor_id].residence == Some(ProcessResidence::Parked))
        }),
{
}

} // verus!
