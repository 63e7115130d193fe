use std::collections::HashMap;

use lib::dependency_review::{
    DependencyRegistrationError, DependencyRegistrationHandle, DependencyRevisionState, PendingCheckOwner,
};
use lib::registrations::{
    DependencyRegistrationHeader, DependencyRegistrationMutation, DependencyRegistrationPosition, RegistrationTableViolation,
    DependencyRegistrationTable,
};
use lib::service_ring::ActorRef;

fn owner(id: u64, plan: u64) -> PendingCheckOwner {
    PendingCheckOwner { actor: ActorRef { actor_id: id, generation: 1 }, plan_revision: plan }
}

fn handle(id: u64, plan: u64, ack: u64) -> DependencyRegistrationHandle {
    DependencyRegistrationHandle { actor: ActorRef { actor_id: id, generation: 1 }, plan_revision: plan, acknowledged_revision: ack }
}

fn empty_table() -> DependencyRegistrationTable {
    DependencyRegistrationTable {
        header: DependencyRegistrationHeader { count: 0, free_count: 0, next_index: 0 },
        free_positions: HashMap::new(),
        pages: HashMap::new(),
        positions: HashMap::new(),
        registrations: HashMap::new(),
    }
}

fn open_source() -> DependencyRevisionState {
    DependencyRevisionState { revision: 7, exhausted: false, scan_target: None, scan_cursor: 0, scan_end: 0 }
}

#[test]
fn install_takes_next_index_and_is_idempotent() {
    let mut t = empty_table();
    let o = owner(5, 2);
    assert_eq!(
        t.install_dependency_registration(o, 7, Some(o), open_source(), 8, true),
        Ok(DependencyRegistrationMutation::Installed)
    );
    let pos = DependencyRegistrationPosition { page: 0, slot: 0 };
    assert_eq!(t.header, DependencyRegistrationHeader { count: 1, free_count: 0, next_index: 1 });
    assert_eq!(t.positions.get(&5), Some(&pos));
    assert_eq!(t.registrations.get(&5), Some(&handle(5, 2, 7)));
    assert_eq!(t.pages.get(&0).unwrap()[0], Some(handle(5, 2, 7)));
    assert_eq!(t.pages.get(&0).unwrap().len(), 32);
    assert_eq!(t.dependency_registration_position(5, handle(5, 2, 7)), Ok(pos));
    assert_eq!(
        t.install_dependency_registration(o, 7, Some(o), open_source(), 8, true),
        Ok(DependencyRegistrationMutation::Unchanged)
    );
    assert_eq!(t.header.count, 1);
    assert_eq!(
        t.install_dependency_registration(o, 6, Some(o), open_source(), 8, true),
        Err(DependencyRegistrationError::RegistrationAlreadyExists)
    );
}

#[test]
fn registration_install_refusals() {
    let mut t = empty_table();
    let o = owner(5, 2);
    assert_eq!(
        t.install_dependency_registration(o, 7, Some(o), open_source(), 8, false),
        Err(DependencyRegistrationError::TransactionRequired)
    );
    assert_eq!(
        t.install_dependency_registration(o, 7, None, open_source(), 8, true),
        Err(DependencyRegistrationError::PendingOwnerMissing)
    );
    assert_eq!(
        t.install_dependency_registration(o, 8, Some(o), open_source(), 8, true),
        Err(DependencyRegistrationError::RevisionFromFuture)
    );
    assert!(t.registrations.is_empty());
    assert!(t.pages.is_empty());
    let a = owner(1, 1);
    let b = owner(2, 1);
    assert!(t.install_dependency_registration(a, 0, Some(a), open_source(), 1, true).is_ok());
    assert_eq!(
        t.install_dependency_registration(b, 0, Some(b), open_source(), 1, true),
        Err(DependencyRegistrationError::CapacityExceeded)
    );
}

#[test]
fn index_past_limit_is_capacity_exceeded() {
    let mut t = empty_table();
    t.header = DependencyRegistrationHeader { count: 0, free_count: 0, next_index: 3 };
    let o = owner(4, 1);
    assert_eq!(
        t.install_dependency_registration(o, 0, Some(o), open_source(), 3, true),
        Err(DependencyRegistrationError::CapacityExceeded)
    );
}

#[test]
fn install_then_remove_restores_and_frees_position() {
    let mut t = empty_table();
    let a = owner(1, 1);
    let b = owner(2, 1);
    t.install_dependency_registration(a, 0, Some(a), open_source(), 8, true).unwrap();
    t.install_dependency_registration(b, 0, Some(b), open_source(), 8, true).unwrap();
    assert_eq!(t.positions.get(&2), Some(&DependencyRegistrationPosition { page: 0, slot: 1 }));
    assert_eq!(
        t.remove_dependency_registration(handle(2, 1, 0), 8, true),
        Ok(DependencyRegistrationMutation::Removed)
    );
    assert_eq!(t.header, DependencyRegistrationHeader { count: 1, free_count: 1, next_index: 2 });
    assert_eq!(t.free_positions.get(&0), Some(&DependencyRegistrationPosition { page: 0, slot: 1 }));
    assert_eq!(t.pages.get(&0).unwrap()[1], None);
    assert!(t.positions.get(&2).is_none());
    assert!(t.registrations.get(&2).is_none());
    let c = owner(3, 1);
    t.install_dependency_registration(c, 0, Some(c), open_source(), 8, true).unwrap();
    assert_eq!(t.positions.get(&3), Some(&DependencyRegistrationPosition { page: 0, slot: 1 }));
    assert_eq!(t.header, DependencyRegistrationHeader { count: 2, free_count: 0, next_index: 2 });
    assert!(t.free_positions.is_empty());
}

#[test]
fn running_scan_skips_freed_positions() {
    let mut t = empty_table();
    let a = owner(1, 1);
    t.install_dependency_registration(a, 0, Some(a), open_source(), 8, true).unwrap();
    t.remove_dependency_registration(handle(1, 1, 0), 8, true).unwrap();
    let scanning = DependencyRevisionState { revision: 7, exhausted: false, scan_target: Some(7), scan_cursor: 0, scan_end: 0 };
    let c = owner(3, 1);
    t.install_dependency_registration(c, 0, Some(c), scanning, 8, true).unwrap();
    assert_eq!(t.positions.get(&3), Some(&DependencyRegistrationPosition { page: 0, slot: 1 }));
    assert_eq!(t.header, DependencyRegistrationHeader { count: 1, free_count: 1, next_index: 2 });
}

#[test]
fn index_thirty_three_lands_on_second_page() {
    let mut t = empty_table();
    t.header = DependencyRegistrationHeader { count: 0, free_count: 0, next_index: 33 };
    let o = owner(9, 1);
    t.install_dependency_registration(o, 0, Some(o), open_source(), 64, true).unwrap();
    assert_eq!(t.positions.get(&9), Some(&DependencyRegistrationPosition { page: 1, slot: 1 }));
    assert_eq!(t.pages.get(&1).unwrap()[1], Some(handle(9, 1, 0)));
}

#[test]
fn replace_keeps_slot() {
    let mut t = empty_table();
    let a = owner(1, 1);
    t.install_dependency_registration(a, 2, Some(a), open_source(), 8, true).unwrap();
    let a2 = owner(1, 2);
    assert_eq!(
        t.replace_dependency_registration(handle(1, 1, 2), a2, 5, Some(a2), open_source(), true),
        Ok(DependencyRegistrationMutation::Replaced)
    );
    assert_eq!(t.registrations.get(&1), Some(&handle(1, 2, 5)));
    assert_eq!(t.pages.get(&0).unwrap()[0], Some(handle(1, 2, 5)));
    assert_eq!(t.positions.get(&1), Some(&DependencyRegistrationPosition { page: 0, slot: 0 }));
    assert_eq!(
        t.replace_dependency_registration(handle(1, 2, 5), a2, 5, Some(a2), open_source(), true),
        Ok(DependencyRegistrationMutation::Unchanged)
    );
    assert_eq!(
        t.replace_dependency_registration(handle(1, 1, 2), a2, 5, Some(a2), open_source(), true),
        Err(DependencyRegistrationError::CurrentRegistrationMismatch)
    );
    assert_eq!(
        t.replace_dependency_registration(handle(4, 1, 2), a2, 5, Some(a2), open_source(), true),
        Err(DependencyRegistrationError::RegistrationMissing)
    );
    let b = owner(2, 1);
    assert_eq!(
        t.replace_dependency_registration(handle(1, 2, 5), b, 5, Some(b), open_source(), true),
        Err(DependencyRegistrationError::PendingOwnerMismatch)
    );
    let exhausted = DependencyRevisionState { revision: 7, exhausted: true, scan_target: None, scan_cursor: 0, scan_end: 0 };
    assert_eq!(
        t.replace_dependency_registration(handle(1, 2, 5), a2, 5, Some(a2), exhausted, true),
        Err(DependencyRegistrationError::SourceExhausted)
    );
}

#[test]
fn registration_remove_refusals() {
    let mut t = empty_table();
    let a = owner(1, 1);
    t.install_dependency_registration(a, 0, Some(a), open_source(), 8, true).unwrap();
    assert_eq!(
        t.remove_dependency_registration(handle(1, 1, 0), 8, false),
        Err(DependencyRegistrationError::TransactionRequired)
    );
    assert_eq!(
        t.remove_dependency_registration(handle(1, 1, 3), 8, true),
        Err(DependencyRegistrationError::CurrentRegistrationMismatch)
    );
    assert_eq!(
        t.remove_dependency_registration(handle(2, 1, 0), 8, true),
        Err(DependencyRegistrationError::RegistrationMissing)
    );
    t.positions.remove(&1);
    assert_eq!(
        t.remove_dependency_registration(handle(1, 1, 0), 8, true),
        Err(DependencyRegistrationError::PositionMissing)
    );
    t.positions.insert(1, DependencyRegistrationPosition { page: 0, slot: 4 });
    assert_eq!(
        t.remove_dependency_registration(handle(1, 1, 0), 8, true),
        Err(DependencyRegistrationError::PositionMismatch)
    );
    t.positions.insert(1, DependencyRegistrationPosition { page: 0, slot: 0 });
    t.header.free_count = 8;
    assert_eq!(
        t.remove_dependency_registration(handle(1, 1, 0), 8, true),
        Err(DependencyRegistrationError::CorruptTopology)
    );
}

#[test]
fn registration_table_invariant_check() {
    let mut t = empty_table();
    let a = owner(1, 1);
    let b = owner(2, 1);
    t.install_dependency_registration(a, 0, Some(a), open_source(), 8, true).unwrap();
    t.install_dependency_registration(b, 0, Some(b), open_source(), 8, true).unwrap();
    assert_eq!(t.check_registration_table(&vec![1, 2], 8), Ok(()));
    assert_eq!(t.check_registration_table(&vec![1, 2], 1), Err(RegistrationTableViolation::HeaderUnbalanced));
    t.positions.insert(2, DependencyRegistrationPosition { page: 0, slot: 0 });
    assert_eq!(t.check_registration_table(&vec![1, 2], 8), Err(RegistrationTableViolation::RegistrationMisplaced));
    t.positions.insert(9, DependencyRegistrationPosition { page: 0, slot: 5 });
    assert_eq!(t.check_registration_table(&vec![1, 2], 8), Err(RegistrationTableViolation::PositionsMismatch));
}
