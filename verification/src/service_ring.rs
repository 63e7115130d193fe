//! The persistent service ring: a circular, doubly linked order of serving Actors keyed by
//! Actor id, and the block-round frontier that visits each member at most once per block.
use std::collections::HashMap;
use vstd::prelude::*;

use crate::deadline_index::WakeupKey;
use crate::types::{ActorId, BlockNumber};

verus! {

broadcast use vstd::std_specs::hash::group_hash_axioms;

/// A generation-bound reference to an Actor.
#[derive(Clone, Copy, Debug, PartialEq, Eq, Structural)]
pub struct ActorRef {
    pub actor_id: ActorId,
    pub generation: u64,
}

/// Whether a ring member is still pending its first service or live.
#[derive(Clone, Copy, Debug, PartialEq, Eq, Structural)]
pub enum ServiceResidenceKind {
    Pending,
    Live,
}

#[derive(Clone, Copy, Debug, PartialEq, Eq, Structural)]
pub enum ProcessStatus {
    Serving,
    Disabled,
    Retired,
}

/// Where a serving process resides: in the service ring, in an exact deadline slot, or parked
/// on its dependencies (the park evidence is not read by these rules, so it is not held here).
#[derive(Clone, Copy, Debug, PartialEq, Eq, Structural)]
pub enum ProcessResidence {
    Service(ServiceResidenceKind),
    Deadline { key: WakeupKey, page: u64, slot: u8 },
    Parked,
}

/// The canonical generation-bound process of an Actor.
#[derive(Clone, Copy, Debug, PartialEq, Eq, Structural)]
pub struct ActorProcess {
    pub generation: u64,
    pub last_attempted: Option<BlockNumber>,
    pub status: ProcessStatus,
    pub residence: Option<ProcessResidence>,
}

/// One ring member: its links to the neighbouring members and its round bookkeeping.
#[derive(Clone, Copy, Debug, PartialEq, Eq, Structural)]
pub struct ServiceNode {
    pub generation: u64,
    pub previous: ActorRef,
    pub next: ActorRef,
    pub kind: ServiceResidenceKind,
    pub eligible_from: BlockNumber,
    pub last_considered: BlockNumber,
}

/// Ring header: member count, the frontier cursor and the block of the open round.
#[derive(Clone, Copy, Debug, PartialEq, Eq, Structural)]
pub struct ServiceHeaderRecord {
    pub count: u32,
    pub cursor: Option<ActorRef>,
    pub round_block: Option<BlockNumber>,
}

pub open spec fn empty_header() -> ServiceHeaderRecord {
    ServiceHeaderRecord { count: 0, cursor: None, round_block: None }
}

impl Default for ServiceHeaderRecord {
    fn default() -> (h: Self)
        ensures
            h == empty_header(),
    {
        ServiceHeaderRecord { count: 0, cursor: None, round_block: None }
    }
}

#[derive(Clone, Copy, Debug, PartialEq, Eq, Structural)]
pub enum ServiceRingMutationError {
    TransactionRequired,
    LegacyAuthorityPresent,
    ProcessMissing,
    ProcessResidenceMismatch,
    MemberAlreadyExists,
    MemberMissing,
    StaleGeneration,
    CorruptRing,
    BlockNumberOverflow,
    CapacityExceeded,
}

#[derive(Clone, Copy, Debug, PartialEq, Eq, Structural)]
pub enum ServiceRoundError {
    TransactionRequired,
    CorruptRing,
    RoundFromFuture,
    RoundNotStarted,
    StaleGeneration,
    ProcessMissing,
    ProcessResidenceMismatch,
    FutureMemberUnmarked,
    AttemptFromFuture,
    InsufficientWeight,
    ResourceUnavailable,
    FeeCollection,
}

/// Why an Actor was closed.
#[derive(Clone, Copy, Debug, PartialEq, Eq, Structural)]
pub enum CloseReason {
    CycleAdmissionInsufficient,
    OwnerInitiated,
    WindowExpired,
}

/// What the round frontier found at its cursor.
#[derive(Clone, Copy, Debug, PartialEq, Eq, Structural)]
pub enum ServiceRoundEncounter {
    Empty,
    Closed,
    Eligible(ActorRef),
    AlreadyAttempted(ActorRef),
    NoWork(ActorRef),
    BreakerRefused(ActorRef),
    TerminallyClosed(CloseReason),
}

/// The ring as stored: its header and its nodes keyed by Actor id.
pub struct ServiceRing {
    pub header: ServiceHeaderRecord,
    pub nodes: HashMap<ActorId, ServiceNode>,
}

// ---------------------------------------------------------------------------------------------
// The abstract ring order.
// ---------------------------------------------------------------------------------------------

/// The member after position `i` of the circular order `s`.
pub open spec fn ring_succ(s: Seq<ActorRef>, i: int) -> ActorRef {
    if i + 1 < s.len() {
        s[i + 1]
    } else {
        s[0]
    }
}

/// The member before position `i` of the circular order `s`.
pub open spec fn ring_pred(s: Seq<ActorRef>, i: int) -> ActorRef {
    if i > 0 {
        s[i - 1]
    } else {
        s[s.len() - 1]
    }
}

/// The node of the member at position `i` exists, carries its generation and links to its
/// circular neighbours.
pub open spec fn node_linked(m: Map<ActorId, ServiceNode>, s: Seq<ActorRef>, i: int) -> bool {
    &&& m.contains_key(s[i].actor_id)
    &&& m[s[i].actor_id].generation == s[i].generation
    &&& m[s[i].actor_id].next == ring_succ(s, i)
    &&& m[s[i].actor_id].previous == ring_pred(s, i)
}

/// Header and nodes hold exactly the circular order `s`, starting at the cursor.
pub open spec fn ring_shape(h: ServiceHeaderRecord, m: Map<ActorId, ServiceNode>, s: Seq<ActorRef>) -> bool {
    &&& h.count == s.len()
    &&& (s.len() == 0 <==> h.cursor is None)
    &&& s.len() > 0 ==> h.cursor == Some(s[0])
    &&& forall|i: int, j: int|
        0 <= i < s.len() && 0 <= j < s.len() && i != j ==> s[i].actor_id != s[j].actor_id
    &&& forall|i: int| 0 <= i < s.len() ==> #[trigger] node_linked(m, s, i)
    &&& forall|k: ActorId|
        #[trigger] m.contains_key(k) ==> exists|i: int| 0 <= i < s.len() && s[i].actor_id == k
}

/// The order after the frontier moves past its head.
pub open spec fn rotate_once(s: Seq<ActorRef>) -> Seq<ActorRef> {
    s.subrange(1, s.len() as int).push(s[0])
}

// ---------------------------------------------------------------------------------------------
// Membership changes.
// ---------------------------------------------------------------------------------------------

/// The process serves `generation` in the ring with residence `kind`.
pub open spec fn process_serves(p: ActorProcess, generation: u64, kind: ServiceResidenceKind) -> bool {
    p.generation == generation && p.status == ProcessStatus::Serving && p.residence == Some(
        ProcessResidence::Service(kind),
    )
}

/// The cursor node and the tail before it are present, current and consistently linked.
pub open spec fn splice_point_ok(h: ServiceHeaderRecord, m: Map<ActorId, ServiceNode>) -> bool {
    let c = h.cursor.unwrap();
    let head = m[c.actor_id];
    let t = head.previous;
    let tail = m[t.actor_id];
    &&& m.contains_key(c.actor_id)
    &&& head.generation == c.generation
    &&& m.contains_key(t.actor_id)
    &&& tail.generation == t.generation
    &&& tail.next == c
    &&& !(h.count == 1 && (t != c || head.next != c || head.previous != c))
    &&& !(h.count > 1 && t == c)
}

/// The refusal, if any, of inserting `actor`.
pub open spec fn insert_refusal(
    h: ServiceHeaderRecord,
    m: Map<ActorId, ServiceNode>,
    processes: Map<ActorId, ActorProcess>,
    actor: ActorRef,
    kind: ServiceResidenceKind,
    now: BlockNumber,
    legacy_authority_present: bool,
    transactional: bool,
) -> Option<ServiceRingMutationError> {
    if !transactional {
        Some(ServiceRingMutationError::TransactionRequired)
    } else if legacy_authority_present {
        Some(ServiceRingMutationError::LegacyAuthorityPresent)
    } else if !processes.contains_key(actor.actor_id) {
        Some(ServiceRingMutationError::ProcessMissing)
    } else if !process_serves(processes[actor.actor_id], actor.generation, kind) {
        Some(ServiceRingMutationError::ProcessResidenceMismatch)
    } else if m.contains_key(actor.actor_id) {
        Some(ServiceRingMutationError::MemberAlreadyExists)
    } else if h.round_block matches Some(r) && r > now {
        Some(ServiceRingMutationError::CorruptRing)
    } else if now == u32::MAX {
        Some(ServiceRingMutationError::BlockNumberOverflow)
    } else if h.count == u32::MAX {
        Some(ServiceRingMutationError::CapacityExceeded)
    } else if h.count == 0 && h.cursor is None {
        None
    } else if h.count == 0 || h.cursor is None || !splice_point_ok(h, m) {
        Some(ServiceRingMutationError::CorruptRing)
    } else {
        None
    }
}

/// Header and nodes after `actor` is spliced in just before the cursor (at the end of the
/// rotation) and the round is opened at `now`.
pub open spec fn insert_result(
    h: ServiceHeaderRecord,
    m: Map<ActorId, ServiceNode>,
    actor: ActorRef,
    kind: ServiceResidenceKind,
    now: BlockNumber,
) -> (ServiceHeaderRecord, Map<ActorId, ServiceNode>) {
    let fresh = ServiceNode {
        generation: actor.generation,
        previous: actor,
        next: actor,
        kind,
        eligible_from: (now + 1) as u32,
        last_considered: now,
    };
    if h.count == 0 {
        (
            ServiceHeaderRecord { count: 1, cursor: Some(actor), round_block: Some(now) },
            m.insert(actor.actor_id, fresh),
        )
    } else {
        let c = h.cursor.unwrap();
        let head = m[c.actor_id];
        let t = head.previous;
        let tail = m[t.actor_id];
        let linked = if c.actor_id == t.actor_id {
            m.insert(c.actor_id, ServiceNode { previous: actor, next: actor, ..head })
        } else {
            m.insert(c.actor_id, ServiceNode { previous: actor, ..head }).insert(
                t.actor_id,
                ServiceNode { next: actor, ..tail },
            )
        };
        (
            ServiceHeaderRecord { count: (h.count + 1) as u32, cursor: h.cursor, round_block: Some(now) },
            linked.insert(actor.actor_id, ServiceNode { previous: t, next: c, ..fresh }),
        )
    }
}

/// The refusal, if any, of removing `actor`.
pub open spec fn remove_refusal(
    h: ServiceHeaderRecord,
    m: Map<ActorId, ServiceNode>,
    processes: Map<ActorId, ActorProcess>,
    actor: ActorRef,
    legacy_authority_present: bool,
    transactional: bool,
) -> Option<ServiceRingMutationError> {
    let node = m[actor.actor_id];
    let process = processes[actor.actor_id];
    let p = node.previous;
    let n = node.next;
    if !transactional {
        Some(ServiceRingMutationError::TransactionRequired)
    } else if legacy_authority_present {
        Some(ServiceRingMutationError::LegacyAuthorityPresent)
    } else if !processes.contains_key(actor.actor_id) {
        Some(ServiceRingMutationError::ProcessMissing)
    } else if !m.contains_key(actor.actor_id) {
        Some(ServiceRingMutationError::MemberMissing)
    } else if node.generation != actor.generation || process.generation != actor.generation {
        Some(ServiceRingMutationError::StaleGeneration)
    } else if !process_serves(process, actor.generation, node.kind) {
        Some(ServiceRingMutationError::ProcessResidenceMismatch)
    } else if h.count == 0 || h.cursor is None {
        Some(ServiceRingMutationError::CorruptRing)
    } else if h.count == 1 {
        if h.cursor != Some(actor) || p != actor || n != actor {
            Some(ServiceRingMutationError::CorruptRing)
        } else {
            None
        }
    } else if !m.contains_key(p.actor_id) || m[p.actor_id].generation != p.generation
        || !m.contains_key(n.actor_id) || m[n.actor_id].generation != n.generation
        || m[p.actor_id].next != actor || m[n.actor_id].previous != actor {
        Some(ServiceRingMutationError::CorruptRing)
    } else {
        None
    }
}

/// Header and nodes after `actor` is unlinked; the last member leaves an empty header.
pub open spec fn remove_result(h: ServiceHeaderRecord, m: Map<ActorId, ServiceNode>, actor: ActorRef) -> (
    ServiceHeaderRecord,
    Map<ActorId, ServiceNode>,
) {
    let node = m[actor.actor_id];
    let p = node.previous;
    let n = node.next;
    if h.count == 1 {
        (empty_header(), m.remove(actor.actor_id))
    } else {
        let pn = m[p.actor_id];
        let nn = m[n.actor_id];
        let relinked = if p.actor_id == n.actor_id {
            m.insert(p.actor_id, ServiceNode { next: n, previous: p, ..pn })
        } else {
            m.insert(p.actor_id, ServiceNode { next: n, ..pn }).insert(
                n.actor_id,
                ServiceNode { previous: p, ..nn },
            )
        };
        (
            ServiceHeaderRecord {
                count: (h.count - 1) as u32,
                cursor: if h.cursor == Some(actor) { Some(n) } else { h.cursor },
                round_block: h.round_block,
            },
            relinked.remove(actor.actor_id),
        )
    }
}

fn serves_in_ring(process: &ActorProcess, generation: u64, kind: ServiceResidenceKind) -> (r: bool)
    ensures
        r == process_serves(*process, generation, kind),
{
    if process.generation != generation {
        return false;
    }
    match process.status {
        ProcessStatus::Serving => {},
        _ => return false,
    }
    match process.residence {
        Some(ProcessResidence::Service(k)) => k == kind,
        _ => false,
    }
}

fn same_ref(a: Option<ActorRef>, b: ActorRef) -> (r: bool)
    ensures
        r == (a == Some(b)),
{
    match a {
        Some(x) => x == b,
        None => false,
    }
}

impl ServiceRing {
    /// An empty ring.
    pub fn new() -> (r: Self)
        ensures
            r.header == empty_header(),
            r.nodes@ == Map::<ActorId, ServiceNode>::empty(),
    {
        ServiceRing { header: ServiceHeaderRecord::default(), nodes: HashMap::new() }
    }

    fn node_of(&self, actor_id: ActorId) -> (r: Option<ServiceNode>)
        ensures
            r == if self.nodes@.contains_key(actor_id) { Some(self.nodes@[actor_id]) } else { None },
    {
        match self.nodes.get(&actor_id) {
            Some(n) => Some(*n),
            None => None,
        }
    }

    /// Appends a generation-bound serving process to the ring, just before the cursor, so it is
    /// served last in the rotation; its node becomes eligible from the next block.
    pub fn insert_service_member(
        &mut self,
        actor: ActorRef,
        kind: ServiceResidenceKind,
        now: BlockNumber,
        processes: &HashMap<ActorId, ActorProcess>,
        legacy_authority_present: bool,
        transactional: bool,
    ) -> (r: Result<(), ServiceRingMutationError>)
        ensures
            ({
                let refusal = insert_refusal(
                    old(self).header,
                    old(self).nodes@,
                    processes@,
                    actor,
                    kind,
                    now,
                    legacy_authority_present,
                    transactional,
                );
                match refusal {
                    Some(e) => r == Err::<(), ServiceRingMutationError>(e) && final(self).header
                        == old(self).header && final(self).nodes@ == old(self).nodes@,
                    None => r is Ok && (final(self).header, final(self).nodes@) == insert_result(
                        old(self).header,
                        old(self).nodes@,
                        actor,
                        kind,
                        now,
                    ),
                }
            }),
    {
        if !transactional {
            return Err(ServiceRingMutationError::TransactionRequired);
        }
        if legacy_authority_present {
            return Err(ServiceRingMutationError::LegacyAuthorityPresent);
        }
        let process = match processes.get(&actor.actor_id) {
            Some(p) => *p,
            None => return Err(ServiceRingMutationError::ProcessMissing),
        };
        if !serves_in_ring(&process, actor.generation, kind) {
            return Err(ServiceRingMutationError::ProcessResidenceMismatch);
        }
        if self.nodes.contains_key(&actor.actor_id) {
            return Err(ServiceRingMutationError::MemberAlreadyExists);
        }
        let mut header = self.header;
        match header.round_block {
            Some(round) => {
                if round > now {
                    return Err(ServiceRingMutationError::CorruptRing);
                }
            },
            None => {},
        }
        header.round_block = Some(now);
        if now == u32::MAX {
            return Err(ServiceRingMutationError::BlockNumberOverflow);
        }
        let eligible_from = now + 1;
        if header.count == u32::MAX {
            return Err(ServiceRingMutationError::CapacityExceeded);
        }
        let next_count = header.count + 1;
        let fresh = ServiceNode {
            generation: actor.generation,
            previous: actor,
            next: actor,
            kind,
            eligible_from,
            last_considered: now,
        };
        if header.count == 0 {
            match header.cursor {
                None => {},
                Some(_) => return Err(ServiceRingMutationError::CorruptRing),
            }
            header.cursor = Some(actor);
            self.nodes.insert(actor.actor_id, fresh);
        } else {
            let cursor = match header.cursor {
                Some(c) => c,
                None => return Err(ServiceRingMutationError::CorruptRing),
            };
            let mut head = match self.node_of(cursor.actor_id) {
                Some(n) => n,
                None => return Err(ServiceRingMutationError::CorruptRing),
            };
            if head.generation != cursor.generation {
                return Err(ServiceRingMutationError::CorruptRing);
            }
            let tail_ref = head.previous;
            let mut tail = match self.node_of(tail_ref.actor_id) {
                Some(n) => n,
                None => return Err(ServiceRingMutationError::CorruptRing),
            };
            if tail.generation != tail_ref.generation {
                return Err(ServiceRingMutationError::CorruptRing);
            }
            if tail.next != cursor || (header.count == 1 && (tail_ref != cursor || head.next != cursor
                || head.previous != cursor)) || (header.count > 1 && tail_ref == cursor) {
                return Err(ServiceRingMutationError::CorruptRing);
            }
            head.previous = actor;
            tail.next = actor;
            if cursor.actor_id == tail_ref.actor_id {
                head.next = actor;
                self.nodes.insert(cursor.actor_id, head);
            } else {
                self.nodes.insert(cursor.actor_id, head);
                self.nodes.insert(tail_ref.actor_id, tail);
            }
            self.nodes.insert(
                actor.actor_id,
                ServiceNode { previous: tail_ref, next: cursor, ..fresh },
            );
        }
        header.count = next_count;
        self.header = header;
        Ok(())
    }

    /// Unlinks one generation-bound member and returns its node; a cursor on the member moves
    /// to its successor, and removing the last member empties the header.
    pub fn remove_service_member(
        &mut self,
        actor: ActorRef,
        processes: &HashMap<ActorId, ActorProcess>,
        legacy_authority_present: bool,
        transactional: bool,
    ) -> (r: Result<ServiceNode, ServiceRingMutationError>)
        ensures
            ({
                let refusal = remove_refusal(
                    old(self).header,
                    old(self).nodes@,
                    processes@,
                    actor,
                    legacy_authority_present,
                    transactional,
                );
                match refusal {
                    Some(e) => r == Err::<ServiceNode, ServiceRingMutationError>(e)
                        && final(self).header == old(self).header && final(self).nodes@
                        == old(self).nodes@,
                    None => r == Ok::<ServiceNode, ServiceRingMutationError>(
                        old(self).nodes@[actor.actor_id],
                    ) && (final(self).header, final(self).nodes@) == remove_result(
                        old(self).header,
                        old(self).nodes@,
                        actor,
                    ),
                }
            }),
    {
        if !transactional {
            return Err(ServiceRingMutationError::TransactionRequired);
        }
        if legacy_authority_present {
            return Err(ServiceRingMutationError::LegacyAuthorityPresent);
        }
        let process = match processes.get(&actor.actor_id) {
            Some(p) => *p,
            None => return Err(ServiceRingMutationError::ProcessMissing),
        };
        let node = match self.node_of(actor.actor_id) {
            Some(n) => n,
            None => return Err(ServiceRingMutationError::MemberMissing),
        };
        if node.generation != actor.generation || process.generation != actor.generation {
            return Err(ServiceRingMutationError::StaleGeneration);
        }
        if !serves_in_ring(&process, actor.generation, node.kind) {
            return Err(ServiceRingMutationError::ProcessResidenceMismatch);
        }
        let mut header = self.header;
        if header.count == 0 || header.cursor.is_none() {
            return Err(ServiceRingMutationError::CorruptRing);
        }
        if header.count == 1 {
            if !same_ref(header.cursor, actor) || node.previous != actor || node.next != actor {
                return Err(ServiceRingMutationError::CorruptRing);
            }
            header = ServiceHeaderRecord::default();
        } else {
            let mut previous = match self.node_of(node.previous.actor_id) {
                Some(n) => n,
                None => return Err(ServiceRingMutationError::CorruptRing),
            };
            if previous.generation != node.previous.generation {
                return Err(ServiceRingMutationError::CorruptRing);
            }
            let mut next = match self.node_of(node.next.actor_id) {
                Some(n) => n,
                None => return Err(ServiceRingMutationError::CorruptRing),
            };
            if next.generation != node.next.generation {
                return Err(ServiceRingMutationError::CorruptRing);
            }
            if previous.next != actor || next.previous != actor {
                return Err(ServiceRingMutationError::CorruptRing);
            }
            previous.next = node.next;
            next.previous = node.previous;
            if node.previous.actor_id == node.next.actor_id {
                previous.previous = node.previous;
                self.nodes.insert(node.previous.actor_id, previous);
            } else {
                self.nodes.insert(node.previous.actor_id, previous);
                self.nodes.insert(node.next.actor_id, next);
            }
            if same_ref(header.cursor, actor) {
                header.cursor = Some(node.next);
            }
            header.count = header.count - 1;
        }
        self.nodes.remove(&actor.actor_id);
        self.header = header;
        Ok(node)
    }
}


// ---------------------------------------------------------------------------------------------
// The block-round frontier.
// ---------------------------------------------------------------------------------------------

/// Outcome of opening (or resuming) the round of block `now`.
pub open spec fn begin_round_result(h: ServiceHeaderRecord, now: BlockNumber, transactional: bool) -> Result<
    ServiceHeaderRecord,
    ServiceRoundError,
> {
    if !transactional {
        Err(ServiceRoundError::TransactionRequired)
    } else if (h.count == 0 && h.cursor is Some) || (h.count != 0 && h.cursor is None) {
        Err(ServiceRoundError::CorruptRing)
    } else if h.round_block matches Some(r) && r > now {
        Err(ServiceRoundError::RoundFromFuture)
    } else {
        Ok(ServiceHeaderRecord { round_block: Some(now), ..h })
    }
}

/// Classification of the frontier's head in the round of block `now`.
pub open spec fn consider_result(
    h: ServiceHeaderRecord,
    m: Map<ActorId, ServiceNode>,
    processes: Map<ActorId, ActorProcess>,
    now: BlockNumber,
    transactional: bool,
) -> Result<ServiceRoundEncounter, ServiceRoundError> {
    let actor = h.cursor.unwrap();
    let node = m[actor.actor_id];
    let process = processes[actor.actor_id];
    if !transactional {
        Err(ServiceRoundError::TransactionRequired)
    } else if h.round_block != Some(now) {
        Err(ServiceRoundError::RoundNotStarted)
    } else if h.cursor is None {
        if h.count == 0 {
            Ok(ServiceRoundEncounter::Empty)
        } else {
            Err(ServiceRoundError::CorruptRing)
        }
    } else if h.count == 0 || !m.contains_key(actor.actor_id) {
        Err(ServiceRoundError::CorruptRing)
    } else if node.generation != actor.generation {
        Err(ServiceRoundError::StaleGeneration)
    } else if !processes.contains_key(actor.actor_id) {
        Err(ServiceRoundError::ProcessMissing)
    } else if process.generation != actor.generation {
        Err(ServiceRoundError::StaleGeneration)
    } else if !process_serves(process, actor.generation, node.kind) {
        Err(ServiceRoundError::ProcessResidenceMismatch)
    } else if node.last_considered > now {
        Err(ServiceRoundError::RoundFromFuture)
    } else if node.last_considered == now {
        Ok(ServiceRoundEncounter::Closed)
    } else if node.eligible_from > now {
        Err(ServiceRoundError::FutureMemberUnmarked)
    } else {
        match process.last_attempted {
            Some(a) => if a > now {
                Err(ServiceRoundError::AttemptFromFuture)
            } else if a == now {
                Ok(ServiceRoundEncounter::AlreadyAttempted(actor))
            } else {
                Ok(ServiceRoundEncounter::Eligible(actor))
            },
            None => Ok(ServiceRoundEncounter::Eligible(actor)),
        }
    }
}

/// Refusal of moving the frontier past `actor`, given the encounter the move requires.
pub open spec fn step_refusal(
    h: ServiceHeaderRecord,
    m: Map<ActorId, ServiceNode>,
    processes: Map<ActorId, ActorProcess>,
    now: BlockNumber,
    transactional: bool,
    required: ServiceRoundEncounter,
) -> Option<ServiceRoundError> {
    match consider_result(h, m, processes, now, transactional) {
        Err(e) => Some(e),
        Ok(found) => if found != required {
            Some(ServiceRoundError::CorruptRing)
        } else {
            None
        },
    }
}

/// Header and nodes once `actor` is marked considered at `now` and the cursor has moved on.
pub open spec fn step_result(h: ServiceHeaderRecord, m: Map<ActorId, ServiceNode>, actor: ActorRef, now: BlockNumber) -> (
    ServiceHeaderRecord,
    Map<ActorId, ServiceNode>,
) {
    let node = m[actor.actor_id];
    (
        ServiceHeaderRecord { cursor: Some(node.next), ..h },
        m.insert(actor.actor_id, ServiceNode { last_considered: now, ..node }),
    )
}

impl ServiceRing {
    /// Opens the round of block `now`, or resumes it when it is already open; the cursor and
    /// the members stay as they are.
    pub fn begin_service_round(&mut self, now: BlockNumber, transactional: bool) -> (r: Result<
        (),
        ServiceRoundError,
    >)
        ensures
            match begin_round_result(old(self).header, now, transactional) {
                Ok(h) => r is Ok && final(self).header == h,
                Err(e) => r == Err::<(), ServiceRoundError>(e) && final(self).header == old(self).header,
            },
            final(self).nodes@ == old(self).nodes@,
    {
        if !transactional {
            return Err(ServiceRoundError::TransactionRequired);
        }
        if self.header.count == 0 {
            if self.header.cursor.is_some() {
                return Err(ServiceRoundError::CorruptRing);
            }
        } else if self.header.cursor.is_none() {
            return Err(ServiceRoundError::CorruptRing);
        }
        match self.header.round_block {
            Some(round) => {
                if round > now {
                    return Err(ServiceRoundError::RoundFromFuture);
                }
                if round == now {
                    return Ok(());
                }
            },
            None => {},
        }
        self.header.round_block = Some(now);
        Ok(())
    }

    /// Classifies the frontier's head without changing anything: the ring is empty, the head was
    /// already considered this round, it was already attempted, or it is eligible.
    pub fn consider_service_head(
        &self,
        now: BlockNumber,
        processes: &HashMap<ActorId, ActorProcess>,
        transactional: bool,
    ) -> (r: Result<ServiceRoundEncounter, ServiceRoundError>)
        ensures
            r == consider_result(self.header, self.nodes@, processes@, now, transactional),
    {
        if !transactional {
            return Err(ServiceRoundError::TransactionRequired);
        }
        let header = self.header;
        match header.round_block {
            Some(round) => {
                if round != now {
                    return Err(ServiceRoundError::RoundNotStarted);
                }
            },
            None => return Err(ServiceRoundError::RoundNotStarted),
        }
        let actor = match header.cursor {
            Some(a) => a,
            None => {
                return if header.count == 0 {
                    Ok(ServiceRoundEncounter::Empty)
                } else {
                    Err(ServiceRoundError::CorruptRing)
                };
            },
        };
        if header.count == 0 {
            return Err(ServiceRoundError::CorruptRing);
        }
        let node = match self.node_of(actor.actor_id) {
            Some(n) => n,
            None => return Err(ServiceRoundError::CorruptRing),
        };
        if node.generation != actor.generation {
            return Err(ServiceRoundError::StaleGeneration);
        }
        let process = match processes.get(&actor.actor_id) {
            Some(p) => *p,
            None => return Err(ServiceRoundError::ProcessMissing),
        };
        if process.generation != actor.generation {
            return Err(ServiceRoundError::StaleGeneration);
        }
        if !serves_in_ring(&process, actor.generation, node.kind) {
            return Err(ServiceRoundError::ProcessResidenceMismatch);
        }
        if node.last_considered > now {
            return Err(ServiceRoundError::RoundFromFuture);
        }
        if node.last_considered == now {
            return Ok(ServiceRoundEncounter::Closed);
        }
        if node.eligible_from > now {
            return Err(ServiceRoundError::FutureMemberUnmarked);
        }
        match process.last_attempted {
            Some(attempted) => {
                if attempted > now {
                    Err(ServiceRoundError::AttemptFromFuture)
                } else if attempted == now {
                    Ok(ServiceRoundEncounter::AlreadyAttempted(actor))
                } else {
                    Ok(ServiceRoundEncounter::Eligible(actor))
                }
            },
            None => Ok(ServiceRoundEncounter::Eligible(actor)),
        }
    }

    fn step_past(&mut self, actor: ActorRef, now: BlockNumber) -> (r: Result<(), ServiceRoundError>)
        requires
            old(self).nodes@.contains_key(actor.actor_id),
        ensures
            r is Ok,
            (final(self).header, final(self).nodes@) == step_result(
                old(self).header,
                old(self).nodes@,
                actor,
                now,
            ),
    {
        let mut node = match self.node_of(actor.actor_id) {
            Some(n) => n,
            None => return Err(ServiceRoundError::CorruptRing),
        };
        node.last_considered = now;
        self.header.cursor = Some(node.next);
        self.nodes.insert(actor.actor_id, node);
        Ok(())
    }

    /// Commits the consideration of an eligible head: records the attempt on its process and
    /// moves the frontier to its successor.
    pub fn advance_service_head(
        &mut self,
        actor: ActorRef,
        now: BlockNumber,
        processes: &mut HashMap<ActorId, ActorProcess>,
        transactional: bool,
    ) -> (r: Result<(), ServiceRoundError>)
        ensures
            match step_refusal(
                old(self).header,
                old(self).nodes@,
                old(processes)@,
                now,
                transactional,
                ServiceRoundEncounter::Eligible(actor),
            ) {
                Some(e) => r == Err::<(), ServiceRoundError>(e) && final(self).header == old(self).header
                    && final(self).nodes@ == old(self).nodes@ && final(processes)@ == old(processes)@,
                None => r is Ok && (final(self).header, final(self).nodes@) == step_result(
                    old(self).header,
                    old(self).nodes@,
                    actor,
                    now,
                ) && final(processes)@ == old(processes)@.insert(
                    actor.actor_id,
                    ActorProcess { last_attempted: Some(now), ..old(processes)@[actor.actor_id] },
                ),
            },
    {
        let found = self.consider_service_head(now, processes, transactional)?;
        if found != ServiceRoundEncounter::Eligible(actor) {
            return Err(ServiceRoundError::CorruptRing);
        }
        let mut process = match processes.get(&actor.actor_id) {
            Some(p) => *p,
            None => return Err(ServiceRoundError::ProcessMissing),
        };
        process.last_attempted = Some(now);
        self.step_past(actor, now)?;
        processes.insert(actor.actor_id, process);
        Ok(())
    }

    /// Moves the frontier past a head that was already attempted this round, without admitting
    /// another attempt.
    pub fn converge_attempted_service_head(
        &mut self,
        actor: ActorRef,
        now: BlockNumber,
        processes: &HashMap<ActorId, ActorProcess>,
        transactional: bool,
    ) -> (r: Result<(), ServiceRoundError>)
        ensures
            match step_refusal(
                old(self).header,
                old(self).nodes@,
                processes@,
                now,
                transactional,
                ServiceRoundEncounter::AlreadyAttempted(actor),
            ) {
                Some(e) => r == Err::<(), ServiceRoundError>(e) && final(self).header == old(self).header
                    && final(self).nodes@ == old(self).nodes@,
                None => r is Ok && (final(self).header, final(self).nodes@) == step_result(
                    old(self).header,
                    old(self).nodes@,
                    actor,
                    now,
                ),
            },
    {
        let found = self.consider_service_head(now, processes, transactional)?;
        if found != ServiceRoundEncounter::AlreadyAttempted(actor) {
            return Err(ServiceRoundError::CorruptRing);
        }
        self.step_past(actor, now)
    }

    /// Moves the frontier past an eligible head that holds no admitted work this round, without
    /// recording an attempt; the member stays in the ring.
    pub fn advance_idle_service_head(
        &mut self,
        actor: ActorRef,
        now: BlockNumber,
        processes: &HashMap<ActorId, ActorProcess>,
        transactional: bool,
    ) -> (r: Result<(), ServiceRoundError>)
        ensures
            match step_refusal(
                old(self).header,
                old(self).nodes@,
                processes@,
                now,
                transactional,
                ServiceRoundEncounter::Eligible(actor),
            ) {
                Some(e) => r == Err::<(), ServiceRoundError>(e) && final(self).header == old(self).header
                    && final(self).nodes@ == old(self).nodes@,
                None => r is Ok && (final(self).header, final(self).nodes@) == step_result(
                    old(self).header,
                    old(self).nodes@,
                    actor,
                    now,
                ),
            },
    {
        let found = self.consider_service_head(now, processes, transactional)?;
        if found != ServiceRoundEncounter::Eligible(actor) {
            return Err(ServiceRoundError::CorruptRing);
        }
        let node = match self.node_of(actor.actor_id) {
            Some(n) => n,
            None => return Err(ServiceRoundError::CorruptRing),
        };
        if node.generation != actor.generation {
            return Err(ServiceRoundError::StaleGeneration);
        }
        self.step_past(actor, now)
    }
}


// ---------------------------------------------------------------------------------------------
// Laws of the ring.
// ---------------------------------------------------------------------------------------------

/// Opening the round of a block twice is the same as opening it once, and never moves the
/// cursor or changes the member count.
pub proof fn lemma_begin_round_idempotent(h: ServiceHeaderRecord, now: BlockNumber, transactional: bool)
    requires
        begin_round_result(h, now, transactional) is Ok,
    ensures
        ({
            let h1 = begin_round_result(h, now, transactional)->Ok_0;
            &&& begin_round_result(h1, now, transactional) == Ok::<ServiceHeaderRecord, ServiceRoundError>(h1)
            &&& h1.cursor == h.cursor
            &&& h1.count == h.count
            &&& h1.round_block == Some(now)
        }),
{
}

/// Moving the frontier past its head (after an eligible or already-attempted encounter)
/// rotates the ring order by one place; the members and their links are unchanged.
pub proof fn lemma_step_rotates(
    h: ServiceHeaderRecord,
    m: Map<ActorId, ServiceNode>,
    processes: Map<ActorId, ActorProcess>,
    s: Seq<ActorRef>,
    actor: ActorRef,
    now: BlockNumber,
)
    requires
        ring_shape(h, m, s),
        consider_result(h, m, processes, now, true) == Ok::<ServiceRoundEncounter, ServiceRoundError>(
            ServiceRoundEncounter::Eligible(actor),
        ) || consider_result(h, m, processes, now, true) == Ok::<
            ServiceRoundEncounter,
            ServiceRoundError,
        >(ServiceRoundEncounter::AlreadyAttempted(actor)),
    ensures
        s.len() > 0,
        actor == s[0],
        ring_shape(step_result(h, m, actor, now).0, step_result(h, m, actor, now).1, rotate_once(s)),
        step_result(h, m, actor, now).1[actor.actor_id].last_considered == now,
{
    let n = s.len() as int;
    let (h1, m1) = step_result(h, m, actor, now);
    let r = rotate_once(s);
    assert(n > 0);
    assert(actor == s[0]);
    assert(node_linked(m, s, 0));
    assert(r.len() == n);
    assert forall|j: int| 0 <= j < n implies #[trigger] r[j] == (if j + 1 < n { s[j + 1] } else { s[0] }) by {}
    assert forall|j: int| 0 <= j < n implies #[trigger] node_linked(m1, r, j) by {
        let i = if j + 1 < n { j + 1 } else { 0 };
        assert(node_linked(m, s, i));
        assert(r[j] == s[i]);
        if j + 1 < n {
            if j + 2 < n {
                assert(ring_succ(r, j) == s[j + 2]);
            } else {
                assert(ring_succ(r, j) == s[0]);
            }
        } else {
            assert(ring_succ(r, j) == r[0]);
        }
        if j > 0 {
            assert(ring_pred(r, j) == r[j - 1]);
        } else {
            assert(ring_pred(r, j) == r[n - 1]);
        }
    }
    assert forall|i: int, j: int| 0 <= i < n && 0 <= j < n && i != j implies r[i].actor_id
        != r[j].actor_id by {
        let a = if i + 1 < n { i + 1 } else { 0 };
        let b = if j + 1 < n { j + 1 } else { 0 };
        assert(r[i] == s[a] && r[j] == s[b]);
    }
    assert forall|k: ActorId| #[trigger] m1.contains_key(k) implies exists|i: int|
        0 <= i < n && r[i].actor_id == k by {
        assert(m.contains_key(k));
        let i = choose|i: int| 0 <= i < n && s[i].actor_id == k;
        if i == 0 {
            assert(r[n - 1] == s[0]);
        } else {
            assert(r[i - 1] == s[i]);
        }
    }
    if n > 1 {
        assert(r[0] == s[1]);
    }
}

/// A single-member ring is closed for the rest of a round once its member has been passed:
/// the round visits each member at most once per block.
pub proof fn lemma_single_member_closed_after_step(
    h: ServiceHeaderRecord,
    m: Map<ActorId, ServiceNode>,
    processes: Map<ActorId, ActorProcess>,
    actor: ActorRef,
    now: BlockNumber,
)
    requires
        ring_shape(h, m, seq![actor]),
        consider_result(h, m, processes, now, true) == Ok::<ServiceRoundEncounter, ServiceRoundError>(
            ServiceRoundEncounter::Eligible(actor),
        ),
    ensures
        consider_result(
            step_result(h, m, actor, now).0,
            step_result(h, m, actor, now).1,
            processes.insert(
                actor.actor_id,
                ActorProcess { last_attempted: Some(now), ..processes[actor.actor_id] },
            ),
            now,
            true,
        ) == Ok::<ServiceRoundEncounter, ServiceRoundError>(ServiceRoundEncounter::Closed),
{
    assert(node_linked(m, seq![actor], 0));
}


/// Inserting a new serving member into a well-formed ring succeeds when the round is not in
/// the future and neither the block number nor the count is exhausted, and the member joins
/// at the end of the rotation.
pub proof fn lemma_insert_appends(
    h: ServiceHeaderRecord,
    m: Map<ActorId, ServiceNode>,
    processes: Map<ActorId, ActorProcess>,
    s: Seq<ActorRef>,
    actor: ActorRef,
    kind: ServiceResidenceKind,
    now: BlockNumber,
)
    requires
        ring_shape(h, m, s),
        processes.contains_key(actor.actor_id),
        process_serves(processes[actor.actor_id], actor.generation, kind),
        !m.contains_key(actor.actor_id),
        h.round_block matches Some(r) ==> r <= now,
        now < u32::MAX,
        h.count < u32::MAX,
    ensures
        insert_refusal(h, m, processes, actor, kind, now, false, true) == None::<ServiceRingMutationError>,
        ring_shape(
            insert_result(h, m, actor, kind, now).0,
            insert_result(h, m, actor, kind, now).1,
            s.push(actor),
        ),
{
    let n = s.len() as int;
    let (h1, m1) = insert_result(h, m, actor, kind, now);
    let s1 = s.push(actor);
    assert forall|i: int| 0 <= i < n implies #[trigger] s[i].actor_id != actor.actor_id by {
        assert(node_linked(m, s, i));
    }
    if n == 0 {
        assert(m =~= Map::<ActorId, ServiceNode>::empty()) by {
            assert forall|k: ActorId| !m.contains_key(k) by {
                if m.contains_key(k) {
                    let i = choose|i: int| 0 <= i < n && s[i].actor_id == k;
                }
            }
        }
        assert(s1 =~= seq![actor]);
        assert(node_linked(m1, s1, 0));
    } else {
        let c = s[0];
        let t = s[n - 1];
        assert(node_linked(m, s, 0));
        assert(node_linked(m, s, n - 1));
        assert(h.cursor == Some(c));
        assert(m[c.actor_id].previous == t);
        assert(m[t.actor_id].next == c);
        if n > 1 {
            assert(t.actor_id != c.actor_id);
        }
        assert(splice_point_ok(h, m));
        assert forall|i: int| 0 <= i < n + 1 implies #[trigger] node_linked(m1, s1, i) by {
            if i == n {
                assert(s1[i] == actor);
            } else if i == 0 {
                assert(s1[0] == c);
                if n == 1 {
                    assert(ring_succ(s1, 0) == actor);
                }
            } else if i == n - 1 {
                assert(s1[i] == t);
                assert(node_linked(m, s, i));
                assert(ring_pred(s1, i) == s[i - 1]);
            } else {
                assert(node_linked(m, s, i));
                assert(s1[i] == s[i]);
                assert(s[i].actor_id != c.actor_id);
                assert(s[i].actor_id != t.actor_id);
                assert(ring_succ(s1, i) == s[i + 1]);
                assert(ring_pred(s1, i) == s[i - 1]);
            }
        }
        assert forall|k: ActorId| #[trigger] m1.contains_key(k) implies exists|i: int|
            0 <= i < n + 1 && s1[i].actor_id == k by {
            if k == actor.actor_id {
                assert(s1[n] == actor);
            } else {
                assert(m.contains_key(k));
                let i = choose|i: int| 0 <= i < n && s[i].actor_id == k;
                assert(s1[i] == s[i]);
            }
        }
        assert forall|i: int, j: int| 0 <= i < n + 1 && 0 <= j < n + 1 && i != j implies s1[i].actor_id
            != s1[j].actor_id by {
            if i < n && j < n {
                assert(s1[i] == s[i] && s1[j] == s[j]);
            } else if i < n {
                assert(s1[i] == s[i]);
            } else if j < n {
                assert(s1[j] == s[j]);
            }
        }
        assert(s1[0] == c);
    }
}


/// Removing a current serving member from a well-formed ring succeeds and leaves the ring
/// order without that member, starting at the (possibly moved) cursor.
pub proof fn lemma_remove_unlinks(
    h: ServiceHeaderRecord,
    m: Map<ActorId, ServiceNode>,
    processes: Map<ActorId, ActorProcess>,
    s: Seq<ActorRef>,
    i: int,
)
    requires
        ring_shape(h, m, s),
        0 <= i < s.len(),
        processes.contains_key(s[i].actor_id),
        process_serves(processes[s[i].actor_id], s[i].generation, m[s[i].actor_id].kind),
    ensures
        remove_refusal(h, m, processes, s[i], false, true) == None::<ServiceRingMutationError>,
        ring_shape(remove_result(h, m, s[i]).0, remove_result(h, m, s[i]).1, s.remove(i)),
{
    let n = s.len() as int;
    let actor = s[i];
    let (h1, m1) = remove_result(h, m, actor);
    let s1 = s.remove(i);
    assert(node_linked(m, s, i));
    let ip = if i > 0 { i - 1 } else { n - 1 };
    let inx = if i + 1 < n { i + 1 } else { 0 };
    assert(node_linked(m, s, ip));
    assert(node_linked(m, s, inx));
    let p = s[ip];
    let nx = s[inx];
    assert(m[actor.actor_id].previous == p);
    assert(m[actor.actor_id].next == nx);
    assert(node_linked(m, s, 0));
    if n == 1 {
        assert(m1 =~= Map::<ActorId, ServiceNode>::empty()) by {
            assert forall|k: ActorId| !m1.contains_key(k) by {
                if m1.contains_key(k) {
                    assert(m.contains_key(k));
                    let j = choose|j: int| 0 <= j < n && s[j].actor_id == k;
                }
            }
        }
        assert(s1.len() == 0);
    } else {
        assert(ring_succ(s, ip) == actor);
        assert(ring_pred(s, inx) == actor);
        assert(remove_refusal(h, m, processes, actor, false, true) == None::<ServiceRingMutationError>);
        // Position in `s` of the member at position `j` of `s1`.
        assert forall|j: int| 0 <= j < n - 1 implies #[trigger] s1[j] == (if j < i { s[j] } else { s[j + 1] }) by {}
        assert forall|j: int| 0 <= j < n - 1 implies #[trigger] node_linked(m1, s1, j) by {
            let o = if j < i { j } else { j + 1 };
            assert(s1[j] == s[o]);
            assert(node_linked(m, s, o));
            assert(o != i);
            assert(s[o].actor_id != actor.actor_id);
            // successor in s1
            let os = if o + 1 < n { o + 1 } else { 0 };
            let op = if o > 0 { o - 1 } else { n - 1 };
            if j + 1 < n - 1 {
                assert(ring_succ(s1, j) == s1[j + 1]);
            } else {
                assert(ring_succ(s1, j) == s1[0]);
            }
            if j > 0 {
                assert(ring_pred(s1, j) == s1[j - 1]);
            } else {
                assert(ring_pred(s1, j) == s1[n - 2]);
            }
            if os == i {
                assert(o == ip);
            }
            if op == i {
                assert(o == inx);
            }
            if os != i && op != i {
                assert(s[o].actor_id != p.actor_id || o == ip);
                assert(s[o].actor_id != nx.actor_id || o == inx);
            }
        }
        assert forall|a: int, b: int| 0 <= a < n - 1 && 0 <= b < n - 1 && a != b implies s1[a].actor_id
            != s1[b].actor_id by {
            let oa = if a < i { a } else { a + 1 };
            let ob = if b < i { b } else { b + 1 };
            assert(s1[a] == s[oa] && s1[b] == s[ob]);
        }
        assert forall|k: ActorId| #[trigger] m1.contains_key(k) implies exists|j: int|
            0 <= j < n - 1 && s1[j].actor_id == k by {
            assert(m.contains_key(k));
            let o = choose|o: int| 0 <= o < n && s[o].actor_id == k;
            assert(o != i);
            if o < i {
                assert(s1[o] == s[o]);
            } else {
                assert(s1[o - 1] == s[o]);
            }
        }
        if i == 0 {
            assert(s1[0] == s[1]);
        } else {
            assert(s1[0] == s[0]);
            assert(s[0].actor_id != actor.actor_id);
        }
    }
}


/// Removing a member right after inserting it restores every node of the ring exactly, with
/// the same member count and cursor.
pub proof fn lemma_insert_then_remove_restores(
    h: ServiceHeaderRecord,
    m: Map<ActorId, ServiceNode>,
    processes: Map<ActorId, ActorProcess>,
    s: Seq<ActorRef>,
    actor: ActorRef,
    kind: ServiceResidenceKind,
    now: BlockNumber,
)
    requires
        ring_shape(h, m, s),
        processes.contains_key(actor.actor_id),
        process_serves(processes[actor.actor_id], actor.generation, kind),
        !m.contains_key(actor.actor_id),
        h.round_block matches Some(r) ==> r <= now,
        now < u32::MAX,
        h.count < u32::MAX,
    ensures
        ({
            let (h1, m1) = insert_result(h, m, actor, kind, now);
            let (h2, m2) = remove_result(h1, m1, actor);
            &&& remove_refusal(h1, m1, processes, actor, false, true) == None::<ServiceRingMutationError>
            &&& m2 == m
            &&& h2.count == h.count
            &&& h2.cursor == h.cursor
        }),
{
    let n = s.len() as int;
    lemma_insert_appends(h, m, processes, s, actor, kind, now);
    let (h1, m1) = insert_result(h, m, actor, kind, now);
    let s1 = s.push(actor);
    assert(s1[n] == actor);
    assert(m1[actor.actor_id].kind == kind);
    lemma_remove_unlinks(h1, m1, processes, s1, n);
    let (h2, m2) = remove_result(h1, m1, actor);
    if n == 0 {
        assert(m =~= Map::<ActorId, ServiceNode>::empty()) by {
            assert forall|k: ActorId| !m.contains_key(k) by {
                if m.contains_key(k) {
                    let i = choose|i: int| 0 <= i < n && s[i].actor_id == k;
                }
            }
        }
        assert(m2 =~= m);
    } else {
        let c = s[0];
        let t = s[n - 1];
        assert(node_linked(m, s, 0));
        assert(node_linked(m, s, n - 1));
        assert forall|i: int| 0 <= i < n implies #[trigger] s[i].actor_id != actor.actor_id by {
            assert(node_linked(m, s, i));
        }
        if n == 1 {
            assert(m[c.actor_id].next == c);
        }
        assert(m2 =~= m);
        assert(h.cursor == Some(c));
    }
}

/// The first invariant the service ring breaks when it is walked from its cursor.
#[derive(Clone, Copy, Debug, PartialEq, Eq, Structural)]
pub enum ServiceRingViolation {
    CursorMismatch,
    NodeMissing,
    GenerationMismatch,
    NotClosed,
    LinkMismatch,
    DuplicateMember,
    StrayNode,
}

/// `v` is the first `n` members of the circular order `s`.
pub open spec fn walked(v: Seq<ActorRef>, s: Seq<ActorRef>, n: int) -> bool {
    v == s.take(n)
}

/// Any order the ring holds is `v`.
pub open spec fn only_order(h: ServiceHeaderRecord, m: Map<ActorId, ServiceNode>, v: Seq<ActorRef>) -> bool {
    forall|s: Seq<ActorRef>| #[trigger] ring_shape(h, m, s) ==> s == v
}

/// The ring holds no order.
pub open spec fn no_order(h: ServiceHeaderRecord, m: Map<ActorId, ServiceNode>) -> bool {
    forall|s: Seq<ActorRef>| !#[trigger] ring_shape(h, m, s)
}

impl ServiceRing {
    /// Walks `count` members from the cursor along the `next` links.
    #[verifier::loop_isolation(false)]
    fn walk_ring(&self) -> (r: Result<Vec<ActorRef>, ServiceRingViolation>)
        requires
            self.header.count > 0,
            self.header.cursor is Some,
        ensures
            r is Err ==> no_order(self.header, self.nodes@),
            r matches Ok(v) ==> {
                &&& v@.len() == self.header.count
                &&& self.header.cursor == Some(v@[0])
                &&& only_order(self.header, self.nodes@, v@)
                &&& forall|j: int|
                    0 <= j < v@.len() ==> self.nodes@.contains_key((#[trigger] v@[j]).actor_id)
                        && self.nodes@[v@[j].actor_id].generation == v@[j].generation
                        && self.nodes@[v@[j].actor_id].next == ring_succ(v@, j)
            },
    {
        let h = self.header;
        let n = h.count as usize;
        let mut v: Vec<ActorRef> = Vec::new();
        let mut cur = h.cursor.unwrap();
        proof {
            assert forall|s: Seq<ActorRef>| #[trigger] ring_shape(h, self.nodes@, s) implies walked(v@, s, 0)
                && s.len() == n && cur == s[0] by {
                assert(v@ =~= s.take(0));
            }
        }
        let mut i: usize = 0;
        while i < n
            invariant
                0 <= i <= n,
                v@.len() == i,
                forall|s: Seq<ActorRef>| #[trigger]
                    ring_shape(h, self.nodes@, s) ==> walked(v@, s, i as int) && s.len() == n && cur == (if i < n {
                        s[i as int]
                    } else {
                        s[0]
                    }),
                forall|j: int|
                    0 <= j < i ==> self.nodes@.contains_key((#[trigger] v@[j]).actor_id) && self.nodes@[v@[j].actor_id].generation
                        == v@[j].generation && (j + 1 < i ==> self.nodes@[v@[j].actor_id].next == v@[j + 1]),
                i > 0 ==> cur == self.nodes@[v@[i - 1].actor_id].next,
                h.cursor == Some(if i == 0 { cur } else { v@[0] }),
            decreases n - i,
        {
            let node = match self.nodes.get(&cur.actor_id) {
                Some(node) => *node,
                None => {
                    proof {
                        assert forall|s: Seq<ActorRef>| !#[trigger] ring_shape(h, self.nodes@, s) by {
                            if ring_shape(h, self.nodes@, s) {
                                assert(node_linked(self.nodes@, s, i as int));
                            }
                        }
                    }
                    return Err(ServiceRingViolation::NodeMissing);
                },
            };
            if node.generation != cur.generation {
                proof {
                    assert forall|s: Seq<ActorRef>| !#[trigger] ring_shape(h, self.nodes@, s) by {
                        if ring_shape(h, self.nodes@, s) {
                            assert(node_linked(self.nodes@, s, i as int));
                        }
                    }
                }
                return Err(ServiceRingViolation::GenerationMismatch);
            }
            let ghost old_v = v@;
            v.push(cur);
            proof {
                assert forall|s: Seq<ActorRef>| #[trigger] ring_shape(h, self.nodes@, s) implies walked(v@, s, i + 1)
                    && node.next == (if i + 1 < n {
                    s[i + 1]
                } else {
                    s[0]
                }) by {
                    assert(old_v == s.take(i as int));
                    assert(v@ =~= s.take(i + 1));
                    assert(node_linked(self.nodes@, s, i as int));
                }
            }
            cur = node.next;
            i = i + 1;
        }
        if cur != v[0] {
            proof {
                assert forall|s: Seq<ActorRef>| !#[trigger] ring_shape(h, self.nodes@, s) by {
                    if ring_shape(h, self.nodes@, s) {
                        assert(walked(v@, s, n as int));
                        assert(v@[0] == s[0]);
                    }
                }
            }
            return Err(ServiceRingViolation::NotClosed);
        }
        proof {
            assert forall|s: Seq<ActorRef>| #[trigger] ring_shape(h, self.nodes@, s) implies s == v@ by {
                assert(walked(v@, s, n as int));
                assert(s.take(n as int) =~= s);
            }
        }
        Ok(v)
    }

    /// Checks the `previous` links and the distinctness of the walked order `v`.
    #[verifier::loop_isolation(false)]
    fn check_ring_back_links(&self, v: &Vec<ActorRef>) -> (r: Result<(), ServiceRingViolation>)
        requires
            v@.len() > 0,
            only_order(self.header, self.nodes@, v@),
            forall|j: int| 0 <= j < v@.len() ==> self.nodes@.contains_key((#[trigger] v@[j]).actor_id),
        ensures
            r is Err ==> no_order(self.header, self.nodes@),
            r is Ok ==> (forall|j: int|
                0 <= j < v@.len() ==> self.nodes@[(#[trigger] v@[j]).actor_id].previous == ring_pred(v@, j)) && (forall|
                a: int,
                b: int,
            | 0 <= a < v@.len() && 0 <= b < v@.len() && a != b ==> v@[a].actor_id != v@[b].actor_id),
    {
        let h = self.header;
        let n = v.len();
        let mut k: usize = 0;
        while k < n
            invariant
                0 <= k <= n,
                forall|j: int| 0 <= j < k ==> self.nodes@[(#[trigger] v@[j]).actor_id].previous == ring_pred(v@, j),
                forall|a: int, b: int| 0 <= a < k && 0 <= b < n && a != b ==> v@[a].actor_id != v@[b].actor_id,
            decreases n - k,
        {
            let prev = if k > 0 {
                v[k - 1]
            } else {
                v[n - 1]
            };
            let node = *self.nodes.get(&v[k].actor_id).unwrap();
            if node.previous != prev {
                proof {
                    assert forall|s: Seq<ActorRef>| !#[trigger] ring_shape(h, self.nodes@, s) by {
                        if ring_shape(h, self.nodes@, s) {
                            assert(s == v@);
                            assert(node_linked(self.nodes@, s, k as int));
                        }
                    }
                }
                return Err(ServiceRingViolation::LinkMismatch);
            }
            let mut b: usize = 0;
            while b < n
                invariant
                    0 <= b <= n,
                    forall|c: int| 0 <= c < b && c != k ==> v@[k as int].actor_id != (#[trigger] v@[c]).actor_id,
                decreases n - b,
            {
                if b != k && v[b].actor_id == v[k].actor_id {
                    proof {
                        assert forall|s: Seq<ActorRef>| !#[trigger] ring_shape(h, self.nodes@, s) by {
                            if ring_shape(h, self.nodes@, s) {
                                assert(s == v@);
                                assert(s[b as int].actor_id == s[k as int].actor_id);
                            }
                        }
                    }
                    return Err(ServiceRingViolation::DuplicateMember);
                }
                b = b + 1;
            }
            proof {
                assert forall|a: int, bb: int| 0 <= a < k + 1 && 0 <= bb < n && a != bb implies v@[a].actor_id
                    != v@[bb].actor_id by {
                    if a == k {
                        assert(v@[k as int].actor_id != v@[bb].actor_id);
                    }
                }
            }
            k = k + 1;
        }
        Ok(())
    }

    /// Checks the ring's invariant by walking it from the cursor: the header and nodes hold a
    /// circular order of distinct members, each node carrying its member's generation and
    /// linked to both neighbours, with no stray node. Returns that order.
    pub fn check_service_ring(&self) -> (r: Result<Vec<ActorRef>, ServiceRingViolation>)
        ensures
            r matches Ok(v) ==> ring_shape(self.header, self.nodes@, v@),
            r is Err ==> no_order(self.header, self.nodes@),
    {
        let h = self.header;
        if h.cursor.is_none() || h.count == 0 {
            if h.cursor.is_some() || h.count != 0 || self.nodes.len() != 0 {
                proof {
                    assert forall|s: Seq<ActorRef>| !#[trigger] ring_shape(h, self.nodes@, s) by {
                        if ring_shape(h, self.nodes@, s) {
                            if self.nodes@.len() != 0 {
                                let k = self.nodes@.dom().choose();
                                assert(self.nodes@.dom().contains(k));
                            }
                        }
                    }
                }
                return Err(ServiceRingViolation::CursorMismatch);
            }
            let v: Vec<ActorRef> = Vec::new();
            proof {
                assert(self.nodes@.dom() =~= Set::<ActorId>::empty());
            }
            return Ok(v);
        }
        let v = self.walk_ring()?;
        self.check_ring_back_links(&v)?;
        let n = v.len();
        let ghost ids = Set::new(|a: ActorId| exists|j: int| 0 <= j < n && v@[j].actor_id == a);
        proof {
            lemma_ids_len(v@);
            assert(ids.subset_of(self.nodes@.dom()));
        }
        if self.nodes.len() != n {
            proof {
                assert forall|s: Seq<ActorRef>| !#[trigger] ring_shape(h, self.nodes@, s) by {
                    if ring_shape(h, self.nodes@, s) {
                        assert(s == v@);
                        assert forall|a: ActorId| self.nodes@.dom().contains(a) implies ids.contains(a) by {
                            let j = choose|j: int| 0 <= j < s.len() && s[j].actor_id == a;
                            assert(v@[j].actor_id == a);
                        }
                        assert(self.nodes@.dom() =~= ids);
                    }
                }
            }
            return Err(ServiceRingViolation::StrayNode);
        }
        proof {
            vstd::set_lib::lemma_subset_equality(ids, self.nodes@.dom());
            assert forall|kk: ActorId| #[trigger] self.nodes@.contains_key(kk) implies exists|j: int|
                0 <= j < v@.len() && v@[j].actor_id == kk by {
                assert(ids.contains(kk));
            }
            assert forall|j: int| 0 <= j < v@.len() implies #[trigger] node_linked(self.nodes@, v@, j) by {}
        }
        Ok(v)
    }
}

/// The set of ids of a sequence of distinct members has as many elements as the sequence.
proof fn lemma_ids_len(v: Seq<ActorRef>)
    requires
        forall|a: int, b: int| 0 <= a < v.len() && 0 <= b < v.len() && a != b ==> v[a].actor_id != v[b].actor_id,
    ensures
        Set::new(|a: ActorId| exists|j: int| 0 <= j < v.len() && v[j].actor_id == a).finite(),
        Set::new(|a: ActorId| exists|j: int| 0 <= j < v.len() && v[j].actor_id == a).len() == v.len(),
    decreases v.len(),
{
    let ids = Set::new(|a: ActorId| exists|j: int| 0 <= j < v.len() && v[j].actor_id == a);
    if v.len() == 0 {
        assert(ids =~= Set::<ActorId>::empty());
    } else {
        let w = v.drop_last();
        lemma_ids_len(w);
        let wids = Set::new(|a: ActorId| exists|j: int| 0 <= j < w.len() && w[j].actor_id == a);
        assert forall|a: ActorId| ids.contains(a) <==> wids.insert(v.last().actor_id).contains(a) by {
            if ids.contains(a) {
                let j = choose|j: int| 0 <= j < v.len() && v[j].actor_id == a;
                if j < v.len() - 1 {
                    assert(w[j].actor_id == a);
                }
            }
            if wids.contains(a) {
                let j = choose|j: int| 0 <= j < w.len() && w[j].actor_id == a;
                assert(v[j].actor_id == a);
            }
        }
        assert(ids =~= wids.insert(v.last().actor_id));
        assert(!wids.contains(v.last().actor_id)) by {
            if wids.contains(v.last().actor_id) {
                let j = choose|j: int| 0 <= j < w.len() && w[j].actor_id == v.last().actor_id;
                assert(v[j].actor_id == v[v.len() - 1].actor_id);
            }
        }
    }
}


/// The round frontier considers its cursor member only inside a round started this block: an
/// empty ring gives `Empty`; a member already considered this block closes the round; a member
/// is eligible only when it is current, its process serves it in this ring, it was considered
/// before this block, it is eligible by now and it was not attempted this block (which gives
/// `AlreadyAttempted` instead).
pub proof fn lemma_frontier_considers_only_current_members(
    h: ServiceHeaderRecord,
    m: Map<ActorId, ServiceNode>,
    processes: Map<ActorId, ActorProcess>,
    now: BlockNumber,
    transactional: bool,
)
    ensures
        ({
            let r = consider_result(h, m, processes, now, transactional);
            let actor = h.cursor.unwrap();
            let node = m[actor.actor_id];
            let process = processes[actor.actor_id];
            &&& (r is Ok ==> transactional && h.round_block == Some(now))
            &&& (r == Ok::<ServiceRoundEncounter, ServiceRoundError>(ServiceRoundEncounter::Empty) ==> h.cursor is None
                && h.count == 0)
            &&& (r == Ok::<ServiceRoundEncounter, ServiceRoundError>(ServiceRoundEncounter::Closed) ==> h.cursor is Some
                && m.contains_key(actor.actor_id) && node.last_considered == now)
            &&& (r matches Ok(ServiceRoundEncounter::Eligible(a)) ==> {
                &&& h.cursor == Some(a)
                &&& h.count > 0
                &&& m.contains_key(a.actor_id) && m[a.actor_id].generation == a.generation
                &&& processes.contains_key(a.actor_id)
                &&& process_serves(processes[a.actor_id], a.generation, m[a.actor_id].kind)
                &&& m[a.actor_id].last_considered < now
                &&& m[a.actor_id].eligible_from <= now
                &&& (processes[a.actor_id].last_attempted matches Some(t) ==> t < now)
            })
            &&& (r matches Ok(ServiceRoundEncounter::AlreadyAttempted(a)) ==> h.cursor == Some(a)
                && processes.contains_key(a.actor_id) && processes[a.actor_id].last_attempted == Some(now))
            &&& !(r matches Ok(ServiceRoundEncounter::NoWork(_)))
            &&& !(r matches Ok(ServiceRoundEncounter::BreakerRefused(_)))
        }),
{
}

} // verus!
