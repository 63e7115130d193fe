use std::collections::HashMap;

use lib::dependency_review::{
    DependencyPlanRegistration, DependencyRegistrationHandle, DependencyRevisionState, DependencyTimedReview,
    PendingCheckOwner, PendingDependencyEvent,
};
use lib::dependency_scan::{
    begin_dependency_scan, complete_dependency_scan, process_dependency_scan_member, publish_dependency_event,
    publish_dependency_event_with_source_retention, revise_dependency_source, DependencyPublicationError,
    DependencyPublicationMutation, DependencyRevisionError, DependencyRevisionMutation, DependencyScanError,
    DependencyScanMutation,
};
use lib::deadline_index::WakeupKey;
use lib::registrations::{
    DependencyRegistrationHeader, DependencyRegistrationPosition, DependencyRegistrationTable,
};
use lib::scan_sources::{DependencyScanSourceError, DependencyScanSources};
use lib::service_ring::ActorRef;

fn idle(revision: u64) -> DependencyRevisionState {
    DependencyRevisionState { revision, exhausted: false, scan_target: None, scan_cursor: 0, scan_end: 0 }
}

fn scan_owner(id: u64) -> PendingCheckOwner {
    PendingCheckOwner { actor: ActorRef { actor_id: id, generation: 2 }, plan_revision: 1 }
}

fn scan_handle(id: u64, ack: u64) -> DependencyRegistrationHandle {
    DependencyRegistrationHandle { actor: ActorRef { actor_id: id, generation: 2 }, plan_revision: 1, acknowledged_revision: ack }
}

fn blank_table() -> DependencyRegistrationTable {
    DependencyRegistrationTable {
        header: DependencyRegistrationHeader { count: 0, free_count: 0, next_index: 0 },
        free_positions: HashMap::new(),
        pages: HashMap::new(),
        positions: HashMap::new(),
        registrations: HashMap::new(),
    }
}

#[test]
fn revise_advances_then_exhausts() {
    let mut s = idle(4);
    assert_eq!(revise_dependency_source(&mut s, true), Ok(DependencyRevisionMutation::Advanced(5)));
    assert_eq!(s.revision, 5);
    assert_eq!(revise_dependency_source(&mut s, false), Err(DependencyRevisionError::TransactionRequired));
    let mut top = idle(u64::MAX);
    assert_eq!(revise_dependency_source(&mut top, true), Ok(DependencyRevisionMutation::Exhausted));
    assert!(top.exhausted);
    assert_eq!(top.revision, u64::MAX);
    assert_eq!(revise_dependency_source(&mut top, true), Ok(DependencyRevisionMutation::Exhausted));
}

#[test]
fn publish_begins_then_coalesces() {
    let mut s = idle(1);
    assert_eq!(publish_dependency_event(&mut s, 9, true), Ok(DependencyPublicationMutation::Begun(2)));
    assert_eq!(s, DependencyRevisionState { revision: 2, exhausted: false, scan_target: Some(2), scan_cursor: 0, scan_end: 9 });
    s.scan_cursor = 3;
    assert_eq!(
        publish_dependency_event(&mut s, 12, true),
        Ok(DependencyPublicationMutation::Coalesced { revision: 3, active_target: 2 })
    );
    assert_eq!(s, DependencyRevisionState { revision: 3, exhausted: false, scan_target: Some(2), scan_cursor: 3, scan_end: 9 });
    let mut top = idle(u64::MAX);
    assert_eq!(publish_dependency_event(&mut top, 0, true), Ok(DependencyPublicationMutation::Exhausted));
    assert!(top.exhausted);
}

#[test]
fn publish_retains_source_in_selector() {
    let mut s = idle(0);
    let mut sources = DependencyScanSources::new();
    assert_eq!(
        publish_dependency_event_with_source_retention(&mut s, &mut sources, 77, 0, 4, true),
        Ok(DependencyPublicationMutation::Begun(1))
    );
    assert!(sources.nodes.contains_key(&77));
    assert_eq!(sources.list.count, 1);
    assert_eq!(sources.list.cursor, Some(77));
    let mut other = idle(0);
    assert_eq!(
        publish_dependency_event_with_source_retention(&mut other, &mut sources, 78, 0, 1, true),
        Err(DependencyPublicationError::SourceCarrier(DependencyScanSourceError::CapacityExceeded))
    );
    assert_eq!(other.revision, 1);
    assert_eq!(
        publish_dependency_event_with_source_retention(&mut other, &mut sources, 78, 0, 1, false),
        Err(DependencyPublicationError::Revision(DependencyRevisionError::TransactionRequired))
    );
}

#[test]
fn begin_and_complete_scan() {
    let mut s = idle(6);
    assert_eq!(begin_dependency_scan(&mut s, 3, true), Ok(DependencyScanMutation::Begun(6)));
    assert_eq!(s.scan_target, Some(6));
    assert_eq!(s.scan_end, 3);
    assert_eq!(begin_dependency_scan(&mut s, 3, true), Err(DependencyScanError::ScanAlreadyActive));
    assert_eq!(complete_dependency_scan(&mut s, 6, 0, 3, true), Err(DependencyScanError::ScanComplete));
    assert_eq!(complete_dependency_scan(&mut s, 5, 0, 3, true), Err(DependencyScanError::TargetMismatch));
    assert_eq!(complete_dependency_scan(&mut s, 6, 1, 3, true), Err(DependencyScanError::CursorMismatch));
    s.scan_cursor = 3;
    assert_eq!(complete_dependency_scan(&mut s, 6, 3, 3, true), Ok(DependencyScanMutation::Completed));
    assert_eq!(s, idle(6));
    assert_eq!(complete_dependency_scan(&mut s, 6, 0, 3, true), Err(DependencyScanError::ScanMissing));
}

#[test]
fn completed_scan_hands_off_to_newer_revision() {
    let mut s = DependencyRevisionState { revision: 8, exhausted: false, scan_target: Some(6), scan_cursor: 2, scan_end: 2 };
    assert_eq!(complete_dependency_scan(&mut s, 6, 2, 5, true), Ok(DependencyScanMutation::HandedOff(8)));
    assert_eq!(s, DependencyRevisionState { revision: 8, exhausted: false, scan_target: Some(8), scan_cursor: 0, scan_end: 5 });
    let mut gone = DependencyRevisionState { exhausted: true, ..s };
    assert_eq!(begin_dependency_scan(&mut gone, 0, true), Err(DependencyScanError::SourceExhausted));
}

fn scanning_table() -> (DependencyRegistrationTable, HashMap<u64, PendingCheckOwner>) {
    let mut t = blank_table();
    let mut owners = HashMap::new();
    let open = idle(3);
    for id in [10u64, 11, 12] {
        let o = scan_owner(id);
        owners.insert(id, o);
        t.install_dependency_registration(o, 3, Some(o), open, 8, true).unwrap();
    }
    (t, owners)
}

#[test]
fn scan_visit_acknowledges_current_registration() {
    let (mut t, owners) = scanning_table();
    let mut s = DependencyRevisionState { revision: 4, exhausted: false, scan_target: Some(4), scan_cursor: 0, scan_end: 3 };
    let reviews: HashMap<u64, DependencyTimedReview> = HashMap::new();
    let mut events = HashMap::new();
    let mut plans = HashMap::new();
    plans.insert(10u64, vec![
        DependencyPlanRegistration { source: 1, handle: scan_handle(10, 0) },
        DependencyPlanRegistration { source: 5, handle: scan_handle(10, 3) },
    ]);
    assert_eq!(
        process_dependency_scan_member(&mut s, &mut t, &owners, &reviews, &mut events, &mut plans, 5, 4, 0, 8, true),
        Ok(DependencyScanMutation::Advanced(1))
    );
    assert_eq!(s.scan_cursor, 1);
    assert_eq!(t.registrations.get(&10), Some(&scan_handle(10, 4)));
    assert_eq!(t.pages.get(&0).unwrap()[0], Some(scan_handle(10, 4)));
    assert_eq!(events.get(&10), Some(&PendingDependencyEvent { owner: scan_owner(10), source: 5, revision: 4 }));
    assert_eq!(plans.get(&10).unwrap()[1], DependencyPlanRegistration { source: 5, handle: scan_handle(10, 4) });
    assert_eq!(plans.get(&10).unwrap()[0], DependencyPlanRegistration { source: 1, handle: scan_handle(10, 0) });
    assert_eq!(
        process_dependency_scan_member(&mut s, &mut t, &owners, &reviews, &mut events, &mut plans, 5, 4, 0, 8, true),
        Err(DependencyScanError::CursorMismatch)
    );
}

#[test]
fn scan_visit_releases_stale_entry() {
    let (mut t, owners) = scanning_table();
    t.registrations.insert(11, scan_handle(11, 2));
    t.positions.insert(11, DependencyRegistrationPosition { page: 9, slot: 0 });
    let mut s = DependencyRevisionState { revision: 4, exhausted: false, scan_target: Some(4), scan_cursor: 1, scan_end: 3 };
    let reviews: HashMap<u64, DependencyTimedReview> = HashMap::new();
    let mut events = HashMap::new();
    let mut plans: HashMap<u64, Vec<DependencyPlanRegistration>> = HashMap::new();
    assert_eq!(
        process_dependency_scan_member(&mut s, &mut t, &owners, &reviews, &mut events, &mut plans, 5, 4, 1, 8, true),
        Ok(DependencyScanMutation::Advanced(2))
    );
    assert_eq!(t.pages.get(&0).unwrap()[1], None);
    assert_eq!(t.header, DependencyRegistrationHeader { count: 2, free_count: 1, next_index: 3 });
    assert_eq!(t.free_positions.get(&0), Some(&DependencyRegistrationPosition { page: 0, slot: 1 }));
    assert!(events.is_empty());
}

#[test]
fn scan_visit_refusals() {
    let (mut t, owners) = scanning_table();
    let mut s = DependencyRevisionState { revision: 4, exhausted: false, scan_target: Some(4), scan_cursor: 2, scan_end: 3 };
    let mut reviews: HashMap<u64, DependencyTimedReview> = HashMap::new();
    let mut events = HashMap::new();
    let mut plans: HashMap<u64, Vec<DependencyPlanRegistration>> = HashMap::new();
    assert_eq!(
        process_dependency_scan_member(&mut s, &mut t, &owners, &reviews, &mut events, &mut plans, 5, 3, 2, 8, true),
        Err(DependencyScanError::TargetMismatch)
    );
    reviews.insert(12, DependencyTimedReview { owner: scan_owner(12), deadline: WakeupKey::Block(40) });
    assert_eq!(
        process_dependency_scan_member(&mut s, &mut t, &owners, &reviews, &mut events, &mut plans, 5, 4, 2, 8, true),
        Err(DependencyScanError::PendingDestinationMismatch)
    );
    reviews.clear();
    let empty_owners: HashMap<u64, PendingCheckOwner> = HashMap::new();
    assert_eq!(
        process_dependency_scan_member(&mut s, &mut t, &empty_owners, &reviews, &mut events, &mut plans, 5, 4, 2, 8, true),
        Err(DependencyScanError::PendingAuthorityMissing)
    );
    plans.insert(12, vec![DependencyPlanRegistration { source: 6, handle: scan_handle(12, 3) }]);
    assert_eq!(
        process_dependency_scan_member(&mut s, &mut t, &owners, &reviews, &mut events, &mut plans, 5, 4, 2, 8, true),
        Err(DependencyScanError::CorruptTopology)
    );
    assert_eq!(s.scan_cursor, 2);
    assert_eq!(t.registrations.get(&12), Some(&scan_handle(12, 3)));
    s.scan_cursor = 3;
    assert_eq!(
        process_dependency_scan_member(&mut s, &mut t, &owners, &reviews, &mut events, &mut plans, 5, 4, 3, 8, true),
        Err(DependencyScanError::ScanComplete)
    );
}
