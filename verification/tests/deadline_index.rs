use lib::deadline_index::{
    deadline_index_height_bound, deadline_index_page_and_slot, validate_deadline_index_header, DeadlineBucketWitness,
    DeadlineHeader, DeadlineIndex, DeadlineIndexMutationError, WakeupClock, WakeupKey,
};

fn live_bucket() -> DeadlineBucketWitness {
    DeadlineBucketWitness {
        legacy_authority_present: false,
        header: Some(DeadlineHeader { count: 1, page_count: 1, first_page: 0, last_page: 0, next_page: 1 }),
        first_page_present: true,
        last_page_present: true,
    }
}

fn gone_bucket() -> DeadlineBucketWitness {
    DeadlineBucketWitness { legacy_authority_present: false, header: None, first_page_present: false, last_page_present: false }
}

#[test]
fn index_keeps_earliest_bucket_at_root() {
    let mut idx = DeadlineIndex::new(WakeupClock::Block, 8);
    assert_eq!(idx.peek_min(), None);
    for b in [40u32, 10, 30, 20, 50] {
        assert_eq!(idx.insert_deadline_index(WakeupKey::Block(b), &live_bucket()), Ok(()));
    }
    assert_eq!(idx.len(), 5);
    assert_eq!(idx.peek_min(), Some(10));
    assert!(idx.contains(&WakeupKey::Block(30)));
    assert!(!idx.contains(&WakeupKey::Tick(30)));
    assert_eq!(idx.update_deadline_index(WakeupKey::Block(30), &live_bucket()), Ok(()));
    assert_eq!(idx.remove_deadline_index(WakeupKey::Block(10), &gone_bucket()), Ok(()));
    assert_eq!(idx.peek_min(), Some(20));
    assert_eq!(idx.remove_deadline_index(WakeupKey::Block(20), &gone_bucket()), Ok(()));
    assert_eq!(idx.peek_min(), Some(30));
    assert_eq!(idx.len(), 3);
}

#[test]
fn index_refusals() {
    let mut idx = DeadlineIndex::new(WakeupClock::Tick, 1);
    assert_eq!(idx.insert_deadline_index(WakeupKey::Block(3), &live_bucket()), Err(DeadlineIndexMutationError::CorruptHeap));
    assert_eq!(idx.insert_deadline_index(WakeupKey::Tick(3), &live_bucket()), Ok(()));
    assert_eq!(
        idx.insert_deadline_index(WakeupKey::Tick(3), &live_bucket()),
        Err(DeadlineIndexMutationError::KeyAlreadyExists)
    );
    assert_eq!(
        idx.insert_deadline_index(WakeupKey::Tick(4), &live_bucket()),
        Err(DeadlineIndexMutationError::CapacityExceeded)
    );
    assert_eq!(idx.update_deadline_index(WakeupKey::Tick(4), &live_bucket()), Err(DeadlineIndexMutationError::KeyMissing));
    assert_eq!(
        idx.remove_deadline_index(WakeupKey::Tick(3), &live_bucket()),
        Err(DeadlineIndexMutationError::CorruptHeader)
    );
    let legacy = DeadlineBucketWitness { legacy_authority_present: true, ..gone_bucket() };
    assert_eq!(
        idx.remove_deadline_index(WakeupKey::Tick(3), &legacy),
        Err(DeadlineIndexMutationError::LegacyAuthorityPresent)
    );
    assert_eq!(idx.remove_deadline_index(WakeupKey::Tick(9), &gone_bucket()), Err(DeadlineIndexMutationError::KeyMissing));
    assert_eq!(idx.len(), 1);
}

#[test]
fn index_header_validation_and_geometry() {
    assert_eq!(validate_deadline_index_header(&live_bucket()), Ok(()));
    assert_eq!(validate_deadline_index_header(&gone_bucket()), Err(DeadlineIndexMutationError::HeaderMissing));
    let overfull = DeadlineBucketWitness {
        header: Some(DeadlineHeader { count: 33, page_count: 1, first_page: 0, last_page: 0, next_page: 1 }),
        ..live_bucket()
    };
    assert_eq!(validate_deadline_index_header(&overfull), Err(DeadlineIndexMutationError::CorruptHeader));
    assert_eq!(deadline_index_page_and_slot(70), (2, 6));
    assert_eq!(deadline_index_height_bound(0), 1);
    assert_eq!(deadline_index_height_bound(1000), 10);
    assert_eq!(deadline_index_height_bound(1024), 11);
}
