use std::collections::HashMap;

use lib::dependency_registry::DependencyRegistry;
use lib::dependency_review::DependencyRevisionState;
use lib::observation_sources::{
    publish_observation_dependency_event, DependencySourceAllocatorState, DependencySourceError,
    DependencySourceMutation, ObservationEventError, ObservationSourceMap,
};
use lib::scan_sources::DependencyScanSources;

fn empty_map(next: u64) -> ObservationSourceMap {
    ObservationSourceMap {
        feed_sources: HashMap::new(),
        source_feeds: HashMap::new(),
        allocator: DependencySourceAllocatorState { next, exhausted: false },
    }
}

fn empty_registry() -> DependencyRegistry {
    DependencyRegistry {
        revisions: HashMap::new(),
        tables: HashMap::new(),
        pending_owners: HashMap::new(),
        plans: HashMap::new(),
        timed_reviews: HashMap::new(),
        pending_events: HashMap::new(),
        pending_reviews: HashMap::new(),
    }
}

#[test]
fn feeds_get_sources_in_order_and_keep_them() {
    let mut m = empty_map(7);
    assert_eq!(m.resolve_observation_dependency_source(100, true), Ok(DependencySourceMutation::Allocated(7)));
    assert_eq!(m.resolve_observation_dependency_source(200, true), Ok(DependencySourceMutation::Allocated(8)));
    assert_eq!(m.resolve_observation_dependency_source(100, true), Ok(DependencySourceMutation::Existing(7)));
    assert_eq!(m.allocator.next, 9);
    assert_eq!(m.source_feeds.get(&8), Some(&200));
    assert_eq!(m.resolve_observation_dependency_source(300, false), Err(DependencySourceError::TransactionRequired));
}

#[test]
fn source_allocation_refusals() {
    let mut m = empty_map(u64::MAX);
    assert_eq!(m.resolve_observation_dependency_source(1, true), Ok(DependencySourceMutation::Allocated(u64::MAX)));
    assert!(m.allocator.exhausted);
    assert_eq!(m.resolve_observation_dependency_source(2, true), Err(DependencySourceError::Exhausted));
    let mut occupied = empty_map(3);
    occupied.source_feeds.insert(3, 55);
    assert_eq!(occupied.resolve_observation_dependency_source(9, true), Err(DependencySourceError::SourceOccupied));
    occupied.feed_sources.insert(9, 4);
    assert_eq!(occupied.resolve_observation_dependency_source(9, true), Err(DependencySourceError::ReverseMissing));
    occupied.source_feeds.insert(4, 10);
    assert_eq!(occupied.resolve_observation_dependency_source(9, true), Err(DependencySourceError::ReverseMismatch));
}

#[test]
fn feed_event_advances_revision_and_retains_source() {
    let mut m = empty_map(1);
    let mut r = empty_registry();
    let mut sources = DependencyScanSources::new();
    assert_eq!(publish_observation_dependency_event(&mut m, &mut r, &mut sources, 500, 4, 2, true), Ok(()));
    assert_eq!(
        r.revisions.get(&1),
        Some(&DependencyRevisionState { revision: 1, exhausted: false, scan_target: Some(1), scan_cursor: 0, scan_end: 0 })
    );
    assert!(sources.nodes.contains_key(&1));
    assert_eq!(publish_observation_dependency_event(&mut m, &mut r, &mut sources, 500, 4, 2, true), Ok(()));
    assert_eq!(r.revisions.get(&1).unwrap().revision, 2);
    assert_eq!(r.revisions.get(&1).unwrap().scan_target, Some(1));
    assert_eq!(sources.list.count, 1);
}

#[test]
fn feed_event_refusals() {
    let mut m = empty_map(1);
    let mut r = empty_registry();
    let mut sources = DependencyScanSources::new();
    assert_eq!(
        publish_observation_dependency_event(&mut m, &mut r, &mut sources, 500, 4, 2, false),
        Err(ObservationEventError::TransactionRequired)
    );
    r.revisions.insert(1, DependencyRevisionState { revision: u64::MAX, exhausted: false, scan_target: None, scan_cursor: 0, scan_end: 0 });
    assert_eq!(
        publish_observation_dependency_event(&mut m, &mut r, &mut sources, 500, 4, 2, true),
        Err(ObservationEventError::RevisionExhausted)
    );
    assert!(r.revisions.get(&1).unwrap().exhausted);
    assert_eq!(
        publish_observation_dependency_event(&mut m, &mut r, &mut sources, 501, 0, 2, true),
        Err(ObservationEventError::ScanSourceCapacityReached)
    );
}
