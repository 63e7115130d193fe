use std::collections::HashMap;

use lib::deadline_carrier::{
    deadline_handle_matches_process, plan_deadline_destination, DeadlineBucket, DeadlineHandle, DeadlineIndexAction,
    DeadlineMutationError, DeadlineOwner, TriggerOwnerAuthority, TriggerWakeupPointer,
};
use lib::deadline_carrier::DeadlineCarrierError;
use lib::deadline_index::{DeadlineIndex, DeadlineIndexMutationError, WakeupClock, WakeupKey};
use lib::dependency_review::{DependencyTimedReview, PendingCheckOwner};
use lib::service_ring::{ActorProcess, ActorRef, ProcessResidence, ProcessStatus};

fn actor(id: u64) -> ActorRef {
    ActorRef { actor_id: id, generation: 2 }
}

fn sleeping(handle: &DeadlineHandle) -> DeadlineOwner {
    DeadlineOwner::Process {
        process: Some(ActorProcess {
            generation: 2,
            last_attempted: None,
            status: ProcessStatus::Serving,
            residence: Some(ProcessResidence::Deadline { key: handle.key, page: handle.page, slot: handle.slot }),
        }),
        review: None,
        pending: None,
    }
}

fn empty_bucket() -> DeadlineBucket {
    DeadlineBucket { header: None, pages: HashMap::new() }
}

/// Enters `n` members at the destinations the planner chooses, in order.
fn fill(bucket: &mut DeadlineBucket, handles: &mut HashMap<u64, DeadlineHandle>, key: WakeupKey, n: u64) {
    for id in 0..n {
        let h = plan_deadline_destination(actor(id), key, bucket.header, &bucket.pages).unwrap();
        bucket.enter_deadline_bucket(handles, h, sleeping(&h), false, true, 1000).unwrap();
    }
}

#[test]
fn first_member_creates_the_bucket() {
    let key = WakeupKey::Block(9);
    let mut bucket = empty_bucket();
    let mut handles = HashMap::new();
    let h = DeadlineHandle { actor: actor(1), key, page: 0, slot: 0 };
    assert_eq!(bucket.enter_deadline_bucket(&mut handles, h, sleeping(&h), false, true, 10), Ok(DeadlineIndexAction::Insert));
    let header = bucket.header.unwrap();
    assert_eq!((header.count, header.page_count, header.first_page, header.last_page, header.next_page), (1, 1, 0, 0, 1));
    assert_eq!(bucket.pages[&0].entries[0], Some(actor(1)));
    assert_eq!(bucket.pages[&0].live_entries, 1);
    assert_eq!(handles[&1], h);
}

#[test]
fn thirty_third_member_opens_a_second_page() {
    let key = WakeupKey::Block(9);
    let mut bucket = empty_bucket();
    let mut handles = HashMap::new();
    fill(&mut bucket, &mut handles, key, 33);
    let header = bucket.header.unwrap();
    assert_eq!((header.count, header.page_count, header.first_page, header.last_page, header.next_page), (33, 2, 0, 1, 2));
    assert_eq!(bucket.pages[&0].next_page, Some(1));
    assert_eq!(bucket.pages[&1].previous_page, Some(0));
    assert_eq!(bucket.pages[&1].entries[0], Some(actor(32)));
    assert_eq!(handles[&32], DeadlineHandle { actor: actor(32), key, page: 1, slot: 0 });
}

#[test]
fn insert_refusals_leave_the_bucket_unchanged() {
    let key = WakeupKey::Block(9);
    let mut bucket = empty_bucket();
    let mut handles = HashMap::new();
    fill(&mut bucket, &mut handles, key, 2);
    let pages_before = bucket.pages.clone();
    let header_before = bucket.header;
    let taken = DeadlineHandle { actor: actor(7), key, page: 0, slot: 1 };
    assert_eq!(
        bucket.enter_deadline_bucket(&mut handles, taken, sleeping(&taken), false, true, 100),
        Err(DeadlineMutationError::InvalidDestination)
    );
    let h = DeadlineHandle { actor: actor(1), key, page: 0, slot: 5 };
    assert_eq!(
        bucket.enter_deadline_bucket(&mut handles, h, sleeping(&h), false, true, 100),
        Err(DeadlineMutationError::MemberAlreadyExists)
    );
    let far = DeadlineHandle { actor: actor(7), key, page: 4, slot: 0 };
    assert_eq!(
        bucket.enter_deadline_bucket(&mut handles, far, sleeping(&far), false, true, 100),
        Err(DeadlineMutationError::InvalidDestination)
    );
    let ok = DeadlineHandle { actor: actor(7), key, page: 0, slot: 5 };
    assert_eq!(
        bucket.enter_deadline_bucket(&mut handles, ok, sleeping(&ok), false, true, 2),
        Err(DeadlineMutationError::CapacityExceeded)
    );
    assert_eq!(
        bucket.enter_deadline_bucket(&mut handles, ok, sleeping(&taken), false, true, 100),
        Err(DeadlineMutationError::ProcessResidenceMismatch)
    );
    assert_eq!(
        bucket.enter_deadline_bucket(&mut handles, ok, sleeping(&ok), true, true, 100),
        Err(DeadlineMutationError::LegacyAuthorityPresent)
    );
    assert_eq!(bucket.pages, pages_before);
    assert_eq!(bucket.header, header_before);
    assert_eq!(handles.len(), 2);
}

#[test]
fn remove_clears_slot_and_drops_empty_pages() {
    let key = WakeupKey::Block(9);
    let mut bucket = empty_bucket();
    let mut handles = HashMap::new();
    fill(&mut bucket, &mut handles, key, 33);
    let owner = sleeping(&handles[&32]);
    let (handle, action) = bucket.leave_deadline_bucket(&mut handles, actor(32), owner, false, true).unwrap();
    assert_eq!(handle.page, 1);
    assert_eq!(action, DeadlineIndexAction::Update);
    assert!(!bucket.pages.contains_key(&1));
    assert_eq!(bucket.pages[&0].next_page, None);
    let header = bucket.header.unwrap();
    assert_eq!((header.count, header.page_count, header.last_page, header.next_page), (32, 1, 0, 2));
    let owner = sleeping(&handles[&5]);
    bucket.leave_deadline_bucket(&mut handles, actor(5), owner, false, true).unwrap();
    assert_eq!(bucket.pages[&0].entries[5], None);
    assert_eq!(bucket.pages[&0].live_entries, 31);
}

#[test]
fn last_member_leaving_drops_the_bucket() {
    let key = WakeupKey::Tick(4);
    let mut bucket = empty_bucket();
    let mut handles = HashMap::new();
    fill(&mut bucket, &mut handles, key, 1);
    let owner = sleeping(&handles[&0]);
    assert_eq!(
        bucket.leave_deadline_bucket(&mut handles, actor(0), owner, false, true).map(|(_, a)| a),
        Ok(DeadlineIndexAction::Remove)
    );
    assert_eq!(bucket.header, None);
    assert!(bucket.pages.is_empty());
    assert!(handles.is_empty());
}

#[test]
fn bucket_remove_refusals() {
    let key = WakeupKey::Block(9);
    let mut bucket = empty_bucket();
    let mut handles = HashMap::new();
    fill(&mut bucket, &mut handles, key, 2);
    let owner = sleeping(&handles[&0]);
    assert_eq!(
        bucket.leave_deadline_bucket(&mut handles, actor(9), owner, false, true),
        Err(DeadlineMutationError::MemberMissing)
    );
    assert_eq!(
        bucket.leave_deadline_bucket(&mut handles, ActorRef { actor_id: 0, generation: 3 }, owner, false, true),
        Err(DeadlineMutationError::StaleGeneration)
    );
    assert_eq!(
        bucket.leave_deadline_bucket(&mut handles, actor(0), DeadlineOwner::Trigger(None), false, true),
        Err(DeadlineMutationError::ProcessMissing)
    );
    assert_eq!(
        bucket.leave_deadline_bucket(&mut handles, actor(0), owner, false, false),
        Err(DeadlineMutationError::TransactionRequired)
    );
    assert_eq!(handles.len(), 2);
}

#[test]
fn insert_then_remove_restores_entries() {
    let key = WakeupKey::Block(9);
    let mut bucket = empty_bucket();
    let mut handles = HashMap::new();
    fill(&mut bucket, &mut handles, key, 3);
    let pages_before = bucket.pages.clone();
    let handles_before = handles.clone();
    let count_before = bucket.header.unwrap().count;
    let h = DeadlineHandle { actor: actor(50), key, page: 0, slot: 20 };
    bucket.enter_deadline_bucket(&mut handles, h, sleeping(&h), false, true, 100).unwrap();
    bucket.leave_deadline_bucket(&mut handles, actor(50), sleeping(&h), false, true).unwrap();
    assert_eq!(bucket.pages, pages_before);
    assert_eq!(handles, handles_before);
    assert_eq!(bucket.header.unwrap().count, count_before);
}

#[test]
fn trigger_and_parked_owners() {
    let key = WakeupKey::Tick(77);
    let h = DeadlineHandle { actor: actor(3), key, page: 0, slot: 0 };
    let pointer = TriggerWakeupPointer { tick: 77, page_id: 0, slot: 0 };
    let trigger = DeadlineOwner::Trigger(Some(TriggerOwnerAuthority { generation: 2, trigger_wakeup_pointer: Some(pointer) }));
    let mut bucket = empty_bucket();
    let mut handles = HashMap::new();
    assert_eq!(bucket.enter_deadline_bucket(&mut handles, h, trigger, false, true, 10), Ok(DeadlineIndexAction::Insert));
    let block_handle = DeadlineHandle { key: WakeupKey::Block(77), ..h };
    let mut other = HashMap::new();
    assert_eq!(
        empty_bucket().enter_deadline_bucket(&mut other, block_handle, trigger, false, true, 10),
        Err(DeadlineMutationError::InvalidDestination)
    );
    let owner = PendingCheckOwner { actor: actor(3), plan_revision: 1 };
    let parked = ActorProcess {
        generation: 2,
        last_attempted: None,
        status: ProcessStatus::Serving,
        residence: Some(ProcessResidence::Parked),
    };
    let review = DependencyTimedReview { owner, deadline: key };
    assert!(deadline_handle_matches_process(h, &parked, Some(review), Some(owner)));
    assert!(!deadline_handle_matches_process(h, &parked, Some(review), None));
    assert!(!deadline_handle_matches_process(h, &parked, Some(DependencyTimedReview { deadline: WakeupKey::Tick(78), ..review }), Some(owner)));
}

#[test]
fn member_insert_and_remove_keep_the_index_current() {
    let key = WakeupKey::Block(9);
    let mut bucket = empty_bucket();
    let mut handles = HashMap::new();
    let mut index = DeadlineIndex::new(WakeupClock::Block, 4);
    let a = DeadlineHandle { actor: actor(1), key, page: 0, slot: 0 };
    let b = DeadlineHandle { actor: actor(2), key, page: 0, slot: 1 };
    assert_eq!(bucket.insert_deadline_member_for_owner(&mut index, &mut handles, a, sleeping(&a), false, false, true, 10), Ok(()));
    assert!(index.contains(&key));
    assert_eq!(index.len(), 1);
    assert_eq!(bucket.insert_deadline_member_for_owner(&mut index, &mut handles, b, sleeping(&b), false, false, true, 10), Ok(()));
    assert_eq!(index.len(), 1);
    assert_eq!(bucket.remove_deadline_member_for_owner(&mut index, &mut handles, actor(1), sleeping(&a), false, false, true), Ok(a));
    assert!(index.contains(&key));
    assert_eq!(bucket.remove_deadline_member_for_owner(&mut index, &mut handles, actor(2), sleeping(&b), false, false, true), Ok(b));
    assert!(!index.contains(&key));
    assert_eq!(index.len(), 0);
    assert!(bucket.header.is_none());
    let c = DeadlineHandle { actor: actor(3), key, page: 0, slot: 0 };
    assert_eq!(
        bucket.insert_deadline_member_for_owner(&mut index, &mut handles, c, sleeping(&c), false, true, true, 10),
        Err(DeadlineCarrierError::Index(DeadlineIndexMutationError::LegacyAuthorityPresent))
    );
    assert!(bucket.header.is_some());
    assert_eq!(index.len(), 0);
    assert_eq!(
        bucket.insert_deadline_member_for_owner(&mut index, &mut handles, c, sleeping(&c), false, false, false, 10),
        Err(DeadlineCarrierError::Member(DeadlineMutationError::TransactionRequired))
    );
}
