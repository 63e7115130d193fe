use std::collections::HashMap;

use lib::deadline_index::WakeupKey;
use lib::dependency_registry::{
    DependencyDueReviewError, DependencyDueReviewMutation, DependencyPlanMutation, DependencyRegistry,
    DependencyTimedReviewMutation,
};
use lib::dependency_review::{
    DependencyPlanRegistration, DependencyPlanSource, DependencyRegistrationError, DependencyRegistrationHandle,
    DependencyRevisionState, DependencyTimedReview, PendingCheckOwner, PendingDependencyEvent,
};
use lib::registrations::DependencyRegistrationMutation;
use lib::service_ring::ActorRef;

fn plan_owner() -> PendingCheckOwner {
    PendingCheckOwner { actor: ActorRef { actor_id: 42, generation: 1 }, plan_revision: 3 }
}

fn at(revision: u64) -> DependencyRevisionState {
    DependencyRevisionState { revision, exhausted: false, scan_target: None, scan_cursor: 0, scan_end: 0 }
}

fn registry() -> DependencyRegistry {
    let mut r = DependencyRegistry {
        revisions: HashMap::new(),
        tables: HashMap::new(),
        pending_owners: HashMap::new(),
        plans: HashMap::new(),
        timed_reviews: HashMap::new(),
        pending_events: HashMap::new(),
        pending_reviews: HashMap::new(),
    };
    r.pending_owners.insert(42, plan_owner());
    r.revisions.insert(1, at(2));
    r.revisions.insert(2, at(0));
    r.revisions.insert(3, at(5));
    r
}

fn registered(r: &DependencyRegistry, source: u64) -> Option<DependencyRegistrationHandle> {
    r.tables.get(&source).and_then(|t| t.registrations.get(&42).copied())
}

fn handle_at(ack: u64) -> DependencyRegistrationHandle {
    DependencyRegistrationHandle { actor: plan_owner().actor, plan_revision: 3, acknowledged_revision: ack }
}

#[test]
fn negative_evaluation_installs_then_replaces() {
    let mut r = registry();
    assert_eq!(
        r.commit_negative_dependency_evaluation(1, plan_owner(), 2, 8, true),
        Ok(DependencyRegistrationMutation::Installed)
    );
    assert_eq!(registered(&r, 1), Some(handle_at(2)));
    assert_eq!(
        r.commit_negative_dependency_evaluation(1, plan_owner(), 2, 8, true),
        Ok(DependencyRegistrationMutation::Unchanged)
    );
    r.revisions.insert(1, at(4));
    assert_eq!(
        r.commit_negative_dependency_evaluation(1, plan_owner(), 4, 8, true),
        Ok(DependencyRegistrationMutation::Replaced)
    );
    assert_eq!(registered(&r, 1), Some(handle_at(4)));
    assert_eq!(
        r.commit_negative_dependency_evaluation(1, plan_owner(), 3, 8, true),
        Err(DependencyRegistrationError::RevisionMismatch)
    );
    r.revisions.insert(1, DependencyRevisionState { exhausted: true, ..at(4) });
    assert_eq!(
        r.commit_negative_dependency_evaluation(1, plan_owner(), 4, 8, true),
        Err(DependencyRegistrationError::SourceExhausted)
    );
    assert_eq!(
        r.commit_negative_dependency_evaluation(1, plan_owner(), 4, 8, false),
        Err(DependencyRegistrationError::TransactionRequired)
    );
}

#[test]
fn negative_evaluation_on_fresh_source_creates_table() {
    let mut r = registry();
    assert!(r.tables.is_empty());
    assert_eq!(
        r.commit_negative_dependency_evaluation(9, plan_owner(), 0, 8, true),
        Ok(DependencyRegistrationMutation::Installed)
    );
    assert_eq!(registered(&r, 9), Some(handle_at(0)));
    let mut refused = registry();
    refused.pending_owners.clear();
    assert_eq!(
        refused.commit_negative_dependency_evaluation(9, plan_owner(), 0, 8, true),
        Err(DependencyRegistrationError::PendingOwnerMissing)
    );
    assert!(refused.tables.is_empty());
}

#[test]
fn plan_commit_replaces_complete_plan() {
    let mut r = registry();
    let first = vec![
        DependencyPlanSource { source: 1, observed_revision: 2 },
        DependencyPlanSource { source: 2, observed_revision: 0 },
    ];
    assert_eq!(
        r.commit_negative_dependency_plan(plan_owner(), &first, Some(WakeupKey::Block(50)), 10, Some(7), 8, 4, true),
        Ok(DependencyPlanMutation {
            installed: 2,
            retained: 0,
            replaced: 0,
            removed: 0,
            timed_review: DependencyTimedReviewMutation::Installed,
        })
    );
    assert_eq!(registered(&r, 1), Some(handle_at(2)));
    assert_eq!(registered(&r, 2), Some(handle_at(0)));
    assert_eq!(
        r.plans.get(&42),
        Some(&vec![
            DependencyPlanRegistration { source: 1, handle: handle_at(2) },
            DependencyPlanRegistration { source: 2, handle: handle_at(0) },
        ])
    );
    assert_eq!(r.timed_reviews.get(&42), Some(&DependencyTimedReview { owner: plan_owner(), deadline: WakeupKey::Block(50) }));
    let second = vec![
        DependencyPlanSource { source: 2, observed_revision: 0 },
        DependencyPlanSource { source: 3, observed_revision: 5 },
    ];
    assert_eq!(
        r.commit_negative_dependency_plan(plan_owner(), &second, None, 10, Some(7), 8, 4, true),
        Ok(DependencyPlanMutation {
            installed: 1,
            retained: 1,
            replaced: 0,
            removed: 1,
            timed_review: DependencyTimedReviewMutation::Removed,
        })
    );
    assert_eq!(registered(&r, 1), None);
    assert_eq!(registered(&r, 2), Some(handle_at(0)));
    assert_eq!(registered(&r, 3), Some(handle_at(5)));
    assert_eq!(r.tables.get(&1).unwrap().header.free_count, 1);
    assert!(r.timed_reviews.get(&42).is_none());
    r.revisions.insert(2, at(1));
    let third = vec![DependencyPlanSource { source: 2, observed_revision: 1 }, DependencyPlanSource { source: 3, observed_revision: 5 }];
    let outcome = r.commit_negative_dependency_plan(plan_owner(), &third, Some(WakeupKey::Tick(9)), 10, Some(7), 8, 4, true);
    assert_eq!(
        outcome,
        Ok(DependencyPlanMutation {
            installed: 0,
            retained: 1,
            replaced: 1,
            removed: 0,
            timed_review: DependencyTimedReviewMutation::Installed,
        })
    );
    assert_eq!(registered(&r, 2), Some(handle_at(1)));
}

#[test]
fn plan_commit_refusals() {
    let mut r = registry();
    let dup = vec![
        DependencyPlanSource { source: 1, observed_revision: 2 },
        DependencyPlanSource { source: 1, observed_revision: 2 },
    ];
    assert_eq!(
        r.commit_negative_dependency_plan(plan_owner(), &dup, None, 10, Some(7), 8, 4, true),
        Err(DependencyRegistrationError::DuplicateSource)
    );
    assert_eq!(
        r.commit_negative_dependency_plan(plan_owner(), &dup, None, 10, Some(7), 8, 1, true),
        Err(DependencyRegistrationError::PlanTooLarge)
    );
    let one = vec![DependencyPlanSource { source: 1, observed_revision: 2 }];
    let stale = vec![DependencyPlanSource { source: 1, observed_revision: 1 }];
    assert_eq!(
        r.commit_negative_dependency_plan(plan_owner(), &stale, None, 10, Some(7), 8, 4, true),
        Err(DependencyRegistrationError::RevisionMismatch)
    );
    assert_eq!(
        r.commit_negative_dependency_plan(plan_owner(), &one, Some(WakeupKey::Block(10)), 10, Some(7), 8, 4, true),
        Err(DependencyRegistrationError::DeadlineNotFuture)
    );
    assert_eq!(
        r.commit_negative_dependency_plan(plan_owner(), &one, Some(WakeupKey::Tick(10)), 10, None, 8, 4, true),
        Err(DependencyRegistrationError::ClockUnavailable)
    );
    assert_eq!(
        r.commit_negative_dependency_plan(plan_owner(), &one, None, 10, Some(7), 0, 4, true),
        Err(DependencyRegistrationError::CapacityExceeded)
    );
    let other = PendingCheckOwner { plan_revision: 9, ..plan_owner() };
    assert_eq!(
        r.commit_negative_dependency_plan(other, &one, None, 10, Some(7), 8, 4, true),
        Err(DependencyRegistrationError::PendingOwnerMismatch)
    );
    r.plans.insert(42, vec![DependencyPlanRegistration { source: 2, handle: handle_at(0) }]);
    assert_eq!(
        r.commit_negative_dependency_plan(plan_owner(), &one, None, 10, Some(7), 8, 4, true),
        Err(DependencyRegistrationError::StoredPlanMismatch)
    );
    assert!(r.tables.is_empty());
}

#[test]
fn pending_event_consumed_after_plan_commit() {
    let mut r = registry();
    let one = vec![DependencyPlanSource { source: 1, observed_revision: 2 }];
    r.commit_negative_dependency_plan(plan_owner(), &one, None, 10, Some(7), 8, 4, true).unwrap();
    let event = PendingDependencyEvent { owner: plan_owner(), source: 1, revision: 2 };
    assert_eq!(
        r.consume_pending_dependency_event(event, &one, None, 10, Some(7), 8, 4, true),
        Err(DependencyRegistrationError::PendingEventMissing)
    );
    r.pending_events.insert(42, event);
    let later = PendingDependencyEvent { revision: 3, ..event };
    assert_eq!(
        r.consume_pending_dependency_event(later, &one, None, 10, Some(7), 8, 4, true),
        Err(DependencyRegistrationError::PendingEventMismatch)
    );
    assert_eq!(
        r.consume_pending_dependency_event(event, &one, None, 10, Some(7), 8, 4, true),
        Ok(DependencyPlanMutation {
            installed: 0,
            retained: 1,
            replaced: 0,
            removed: 0,
            timed_review: DependencyTimedReviewMutation::Absent,
        })
    );
    assert!(r.pending_events.is_empty());
}

#[test]
fn pending_review_consumed_after_plan_commit() {
    let mut r = registry();
    let review = DependencyTimedReview { owner: plan_owner(), deadline: WakeupKey::Block(5) };
    let one = vec![DependencyPlanSource { source: 3, observed_revision: 5 }];
    assert_eq!(
        r.consume_pending_dependency_review(review, &one, None, 10, Some(7), 8, 4, true),
        Err(DependencyRegistrationError::PendingReviewMissing)
    );
    r.pending_reviews.insert(42, review);
    let outcome = r.consume_pending_dependency_review(review, &one, None, 10, Some(7), 8, 4, true);
    assert_eq!(outcome.map(|m| m.installed), Ok(1));
    assert!(r.pending_reviews.is_empty());
    assert_eq!(registered(&r, 3), Some(handle_at(5)));
}

#[test]
fn due_review_publication() {
    let mut r = registry();
    let review = DependencyTimedReview { owner: plan_owner(), deadline: WakeupKey::Block(5) };
    assert_eq!(r.publish_due_dependency_review(review, 4, Some(0), true), Err(DependencyDueReviewError::NotDue));
    assert_eq!(r.publish_due_dependency_review(review, 5, Some(0), true), Err(DependencyDueReviewError::ReviewMissing));
    r.timed_reviews.insert(42, review);
    assert_eq!(r.publish_due_dependency_review(review, 5, Some(0), true), Ok(DependencyDueReviewMutation::Published));
    assert_eq!(r.pending_reviews.get(&42), Some(&review));
    assert!(r.timed_reviews.is_empty());
    assert_eq!(r.publish_due_dependency_review(review, 6, None, true), Ok(DependencyDueReviewMutation::AlreadyPending));
    let ticked = DependencyTimedReview { owner: plan_owner(), deadline: WakeupKey::Tick(5) };
    assert_eq!(r.publish_due_dependency_review(ticked, 6, None, true), Err(DependencyDueReviewError::ClockUnavailable));
    r.pending_events.insert(42, PendingDependencyEvent { owner: plan_owner(), source: 1, revision: 2 });
    assert_eq!(r.publish_due_dependency_review(review, 6, None, true), Err(DependencyDueReviewError::DestinationOccupied));
    r.pending_owners.clear();
    assert_eq!(r.publish_due_dependency_review(review, 6, None, true), Err(DependencyDueReviewError::PendingOwnerMissing));
}

#[test]
fn plan_commit_leaves_other_owners_registered() {
    let mut r = registry();
    let other = PendingCheckOwner { actor: ActorRef { actor_id: 7, generation: 2 }, plan_revision: 1 };
    r.pending_owners.insert(7, other);
    let on_one = vec![DependencyPlanSource { source: 1, observed_revision: 2 }];
    r.commit_negative_dependency_plan(other, &on_one, None, 10, Some(7), 8, 4, true).unwrap();
    r.commit_negative_dependency_plan(plan_owner(), &on_one, None, 10, Some(7), 8, 4, true).unwrap();
    let on_three = vec![DependencyPlanSource { source: 3, observed_revision: 5 }];
    r.commit_negative_dependency_plan(plan_owner(), &on_three, None, 10, Some(7), 8, 4, true).unwrap();
    assert_eq!(registered(&r, 1), None);
    assert_eq!(
        r.tables.get(&1).unwrap().registrations.get(&7),
        Some(&DependencyRegistrationHandle { actor: other.actor, plan_revision: 1, acknowledged_revision: 2 })
    );
    assert_eq!(r.tables.get(&1).unwrap().header.count, 1);
}

#[test]
fn repeated_plan_commit_changes_nothing() {
    let mut r = registry();
    let plan = vec![
        DependencyPlanSource { source: 1, observed_revision: 2 },
        DependencyPlanSource { source: 3, observed_revision: 5 },
    ];
    r.commit_negative_dependency_plan(plan_owner(), &plan, Some(WakeupKey::Block(60)), 10, Some(7), 8, 4, true).unwrap();
    let header_before = r.tables.get(&1).unwrap().header;
    assert_eq!(
        r.commit_negative_dependency_plan(plan_owner(), &plan, Some(WakeupKey::Block(60)), 10, Some(7), 8, 4, true),
        Ok(DependencyPlanMutation {
            installed: 0,
            retained: 2,
            replaced: 0,
            removed: 0,
            timed_review: DependencyTimedReviewMutation::Retained,
        })
    );
    assert_eq!(r.tables.get(&1).unwrap().header, header_before);
    assert_eq!(
        r.commit_negative_dependency_evaluation(3, plan_owner(), 5, 8, true),
        Ok(DependencyRegistrationMutation::Unchanged)
    );
}
