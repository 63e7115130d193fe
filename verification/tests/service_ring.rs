use std::collections::HashMap;

use lib::service_ring::{
    ServiceRingViolation,
    ActorProcess, ActorRef, ProcessResidence, ProcessStatus, ServiceResidenceKind, ServiceRing,
    ServiceRingMutationError, ServiceRoundEncounter, ServiceRoundError,
};

fn actor(id: u64) -> ActorRef {
    ActorRef { actor_id: id, generation: 1 }
}

fn serving(kind: ServiceResidenceKind) -> ActorProcess {
    ActorProcess {
        generation: 1,
        last_attempted: None,
        status: ProcessStatus::Serving,
        residence: Some(ProcessResidence::Service(kind)),
    }
}

fn processes(ids: &[u64]) -> HashMap<u64, ActorProcess> {
    let mut m = HashMap::new();
    for id in ids {
        m.insert(*id, serving(ServiceResidenceKind::Live));
    }
    m
}

/// Follows the ring from its cursor and returns the actor ids in rotation order.
fn rotation(ring: &ServiceRing) -> Vec<u64> {
    let mut out = Vec::new();
    let mut cursor = ring.header.cursor;
    for _ in 0..ring.header.count {
        let a = cursor.unwrap();
        out.push(a.actor_id);
        cursor = Some(ring.nodes[&a.actor_id].next);
    }
    out
}

fn ring_with(ids: &[u64], now: u32) -> (ServiceRing, HashMap<u64, ActorProcess>) {
    let procs = processes(ids);
    let mut ring = ServiceRing::new();
    for id in ids {
        ring.insert_service_member(actor(*id), ServiceResidenceKind::Live, now, &procs, false, true)
            .unwrap();
    }
    (ring, procs)
}

#[test]
fn insert_appends_members_in_order() {
    let (ring, _) = ring_with(&[7, 3, 9], 10);
    assert_eq!(ring.header.count, 3);
    assert_eq!(ring.header.cursor, Some(actor(7)));
    assert_eq!(ring.header.round_block, Some(10));
    assert_eq!(rotation(&ring), vec![7, 3, 9]);
    assert_eq!(ring.nodes[&3].previous, actor(7));
    assert_eq!(ring.nodes[&7].previous, actor(9));
    assert_eq!(ring.nodes[&9].eligible_from, 11);
    assert_eq!(ring.nodes[&9].last_considered, 10);
}

#[test]
fn insert_refusals() {
    let (mut ring, procs) = ring_with(&[1], 5);
    let before = rotation(&ring);
    assert_eq!(
        ring.insert_service_member(actor(2), ServiceResidenceKind::Live, 5, &procs, false, false),
        Err(ServiceRingMutationError::TransactionRequired)
    );
    assert_eq!(
        ring.insert_service_member(actor(2), ServiceResidenceKind::Live, 5, &procs, true, true),
        Err(ServiceRingMutationError::LegacyAuthorityPresent)
    );
    assert_eq!(
        ring.insert_service_member(actor(2), ServiceResidenceKind::Live, 5, &procs, false, true),
        Err(ServiceRingMutationError::ProcessMissing)
    );
    let mut procs2 = procs.clone();
    procs2.insert(2, serving(ServiceResidenceKind::Pending));
    assert_eq!(
        ring.insert_service_member(actor(2), ServiceResidenceKind::Live, 5, &procs2, false, true),
        Err(ServiceRingMutationError::ProcessResidenceMismatch)
    );
    assert_eq!(
        ring.insert_service_member(actor(1), ServiceResidenceKind::Live, 5, &procs, false, true),
        Err(ServiceRingMutationError::MemberAlreadyExists)
    );
    procs2.insert(2, serving(ServiceResidenceKind::Live));
    assert_eq!(
        ring.insert_service_member(actor(2), ServiceResidenceKind::Live, 4, &procs2, false, true),
        Err(ServiceRingMutationError::CorruptRing)
    );
    assert_eq!(
        ring.insert_service_member(actor(2), ServiceResidenceKind::Live, u32::MAX, &procs2, false, true),
        Err(ServiceRingMutationError::BlockNumberOverflow)
    );
    assert_eq!(rotation(&ring), before);
}

#[test]
fn remove_unlinks_member_and_moves_cursor() {
    let (mut ring, procs) = ring_with(&[1, 2, 3], 8);
    let node = ring.remove_service_member(actor(2), &procs, false, true).unwrap();
    assert_eq!(node.previous, actor(1));
    assert_eq!(node.next, actor(3));
    assert_eq!(rotation(&ring), vec![1, 3]);
    ring.remove_service_member(actor(1), &procs, false, true).unwrap();
    assert_eq!(ring.header.cursor, Some(actor(3)));
    assert_eq!(rotation(&ring), vec![3]);
    ring.remove_service_member(actor(3), &procs, false, true).unwrap();
    assert_eq!(ring.header.count, 0);
    assert_eq!(ring.header.cursor, None);
    assert_eq!(ring.header.round_block, None);
    assert!(ring.nodes.is_empty());
}

#[test]
fn remove_refusals() {
    let (mut ring, procs) = ring_with(&[1, 2], 8);
    assert_eq!(
        ring.remove_service_member(actor(4), &procs, false, true),
        Err(ServiceRingMutationError::ProcessMissing)
    );
    let mut procs2 = procs.clone();
    procs2.insert(4, serving(ServiceResidenceKind::Live));
    assert_eq!(
        ring.remove_service_member(actor(4), &procs2, false, true),
        Err(ServiceRingMutationError::MemberMissing)
    );
    assert_eq!(
        ring.remove_service_member(ActorRef { actor_id: 1, generation: 2 }, &procs, false, true),
        Err(ServiceRingMutationError::StaleGeneration)
    );
    assert_eq!(rotation(&ring), vec![1, 2]);
}

#[test]
fn insert_then_remove_restores_nodes() {
    let (mut ring, mut procs) = ring_with(&[4, 5, 6], 20);
    let nodes_before = ring.nodes.clone();
    let count_before = ring.header.count;
    let cursor_before = ring.header.cursor;
    procs.insert(8, serving(ServiceResidenceKind::Pending));
    ring.insert_service_member(actor(8), ServiceResidenceKind::Pending, 21, &procs, false, true)
        .unwrap();
    assert_eq!(rotation(&ring), vec![4, 5, 6, 8]);
    ring.remove_service_member(actor(8), &procs, false, true).unwrap();
    assert_eq!(ring.nodes, nodes_before);
    assert_eq!(ring.header.count, count_before);
    assert_eq!(ring.header.cursor, cursor_before);
}

#[test]
fn begin_round_is_idempotent() {
    let (mut ring, _) = ring_with(&[1, 2], 3);
    ring.begin_service_round(9, true).unwrap();
    let header = ring.header;
    ring.begin_service_round(9, true).unwrap();
    assert_eq!(ring.header, header);
    assert_eq!(header.round_block, Some(9));
    assert_eq!(header.cursor, Some(actor(1)));
    assert_eq!(ring.begin_service_round(8, true), Err(ServiceRoundError::RoundFromFuture));
    assert_eq!(ring.begin_service_round(9, false), Err(ServiceRoundError::TransactionRequired));
}

#[test]
fn consider_classifies_the_head() {
    let mut ring = ServiceRing::new();
    let procs = processes(&[1]);
    assert_eq!(ring.consider_service_head(3, &procs, true), Err(ServiceRoundError::RoundNotStarted));
    ring.begin_service_round(3, true).unwrap();
    assert_eq!(ring.consider_service_head(3, &procs, true), Ok(ServiceRoundEncounter::Empty));
    ring.insert_service_member(actor(1), ServiceResidenceKind::Live, 3, &procs, false, true).unwrap();
    // Inserted in this block: already considered in this round.
    assert_eq!(ring.consider_service_head(3, &procs, true), Ok(ServiceRoundEncounter::Closed));
    ring.begin_service_round(4, true).unwrap();
    assert_eq!(ring.consider_service_head(4, &procs, true), Ok(ServiceRoundEncounter::Eligible(actor(1))));
    let mut attempted = procs.clone();
    attempted.get_mut(&1).unwrap().last_attempted = Some(4);
    assert_eq!(
        ring.consider_service_head(4, &attempted, true),
        Ok(ServiceRoundEncounter::AlreadyAttempted(actor(1)))
    );
    attempted.get_mut(&1).unwrap().last_attempted = Some(5);
    assert_eq!(ring.consider_service_head(4, &attempted, true), Err(ServiceRoundError::AttemptFromFuture));
    let empty = HashMap::new();
    assert_eq!(ring.consider_service_head(4, &empty, true), Err(ServiceRoundError::ProcessMissing));
}

#[test]
fn advance_rotates_and_records_attempt() {
    let (mut ring, mut procs) = ring_with(&[1, 2, 3], 3);
    ring.begin_service_round(4, true).unwrap();
    ring.advance_service_head(actor(1), 4, &mut procs, true).unwrap();
    assert_eq!(rotation(&ring), vec![2, 3, 1]);
    assert_eq!(procs[&1].last_attempted, Some(4));
    assert_eq!(ring.nodes[&1].last_considered, 4);
    // Advancing a member that is not the eligible head is refused.
    assert_eq!(
        ring.advance_service_head(actor(3), 4, &mut procs, true),
        Err(ServiceRoundError::CorruptRing)
    );
    ring.advance_idle_service_head(actor(2), 4, &procs, true).unwrap();
    assert_eq!(rotation(&ring), vec![3, 1, 2]);
    assert_eq!(procs[&2].last_attempted, None);
}

#[test]
fn single_member_closed_after_advance() {
    let (mut ring, mut procs) = ring_with(&[5], 1);
    ring.begin_service_round(2, true).unwrap();
    ring.advance_service_head(actor(5), 2, &mut procs, true).unwrap();
    assert_eq!(ring.consider_service_head(2, &procs, true), Ok(ServiceRoundEncounter::Closed));
}

#[test]
fn converge_passes_an_attempted_head() {
    let (mut ring, mut procs) = ring_with(&[1, 2], 1);
    ring.begin_service_round(2, true).unwrap();
    procs.get_mut(&1).unwrap().last_attempted = Some(2);
    assert_eq!(
        ring.advance_service_head(actor(1), 2, &mut procs, true),
        Err(ServiceRoundError::CorruptRing)
    );
    ring.converge_attempted_service_head(actor(1), 2, &procs, true).unwrap();
    assert_eq!(rotation(&ring), vec![2, 1]);
    assert_eq!(ring.nodes[&1].last_considered, 2);
}

#[test]
fn ring_invariant_check_walks_from_cursor() {
    let (mut ring, _) = ring_with(&[4, 7, 9], 5);
    let order = ring.check_service_ring().unwrap();
    assert_eq!(order.iter().map(|a| a.actor_id).collect::<Vec<u64>>(), vec![4, 7, 9]);
    let mut broken = ring.nodes.get(&7).unwrap().clone();
    broken.previous = actor(9);
    ring.nodes.insert(7, broken);
    assert_eq!(ring.check_service_ring(), Err(ServiceRingViolation::LinkMismatch));
    let (mut stray, _) = ring_with(&[4, 7], 5);
    let extra = stray.nodes.get(&4).unwrap().clone();
    stray.nodes.insert(11, extra);
    assert_eq!(stray.check_service_ring(), Err(ServiceRingViolation::StrayNode));
    let (mut short, _) = ring_with(&[4, 7], 5);
    short.header.count = 3;
    assert_eq!(short.check_service_ring(), Err(ServiceRingViolation::NotClosed));
    let empty = ServiceRing::new();
    assert_eq!(empty.check_service_ring().map(|v| v.len()), Ok(0));
}
