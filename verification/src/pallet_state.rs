//! The pallet's Actor registry as plain values: every registered Actor's identity and, while
//! Active, its control state and Contract; the counters, the sovereign index, the run records
//! and the System sovereign table; and the invariants that tie them together.
use std::collections::HashMap;
use vstd::prelude::*;

use crate::contract::{ScheduleWindow, Step, Trigger};
use crate::geometry::ActorContract;
use crate::integrity::RuntimeConfiguration;
use crate::semantic::CycleState;
use crate::types::{AccountId, ActorId, ActorType, BlockNumber, Mutability};
use vstd::std_specs::iter::IteratorSpec;

verus! {

broadcast use vstd::std_specs::hash::group_hash_axioms;

/// The body-independent fields of a Contract that the pallet's gates read.
#[derive(Clone, Copy, Debug, PartialEq, Eq, Structural)]
pub struct ContractMeta {
    pub trigger: Trigger,
    pub cooldown_blocks: u32,
    pub window: Option<ScheduleWindow>,
    pub auto_close_at_cycle_nonce: Option<u64>,
}

/// The control state of an Active Actor and its Contract.
pub struct ActiveRecord {
    /// The Actor's lifecycle is Paused.
    pub paused: bool,
    pub cycle_state: CycleState,
    pub pending_signal: bool,
    pub contract: ActorContract<ContractMeta, Step>,
}

/// A registered Actor: its identity, and its Active record unless it is Dormant.
pub struct ActorRecord {
    pub owner: AccountId,
    pub sovereign: AccountId,
    pub actor_type: ActorType,
    pub mutability: Mutability,
    /// The owner slot a User Actor holds.
    pub owner_slot: Option<u8>,
    /// The System sovereign a System Actor holds.
    pub system_sovereign_id: Option<u64>,
    pub cycle_nonce: u64,
    pub last_control_mutation_block: BlockNumber,
    pub active: Option<ActiveRecord>,
}

/// A System sovereign identity: free for reattachment, or held by an Actor.
#[derive(Clone, Copy, Debug, PartialEq, Eq, Structural)]
pub enum SystemSovereignState {
    Vacant,
    Occupied(ActorId),
}

/// The pallet's Actor registry.
pub struct PalletStateModel {
    pub global_circuit_breaker: bool,
    pub active_actor_limit: u32,
    pub active_actor_count: u32,
    pub actor_identity_count: u32,
    pub next_actor_id: ActorId,
    pub actors: HashMap<ActorId, ActorRecord>,
    /// Actors with a mutable run head, and Actors with an immutable run payload (the records
    /// themselves are kept by the run store; only their presence is read here).
    pub run_heads: HashMap<ActorId, ()>,
    pub run_payloads: HashMap<ActorId, ()>,
    pub sovereign_index: HashMap<AccountId, ActorId>,
    pub system_sovereigns: HashMap<u64, SystemSovereignState>,
    pub system_sovereign_count: u32,
}

/// The first storage invariant the registry breaks.
#[derive(Clone, Copy, Debug, PartialEq, Eq, Structural)]
pub enum TryStateViolation {
    ActiveActorLimitOutOfBounds,
    ActiveActorCountMismatch,
    ActiveActorCountAboveLimit,
    ActorIdentityCountMismatch,
    RunRecordMismatch,
    SovereignIndexMismatch,
    NextActorIdTooLow,
    SystemSovereignCountMismatch,
}

/// The Active Actors.
pub open spec fn active_ids(actors: Map<ActorId, ActorRecord>) -> Set<ActorId> {
    actors.dom().filter(|id: ActorId| actors[id].active is Some)
}

/// The Actor is Active in a Running or Suspended cycle.
pub open spec fn runs_a_cycle(actors: Map<ActorId, ActorRecord>, id: ActorId) -> bool {
    actors.contains_key(id) && actors[id].active is Some && (actors[id].active->Some_0.cycle_state
        == CycleState::Running || actors[id].active->Some_0.cycle_state == CycleState::Suspended)
}

/// The sovereign index maps each registered Actor's sovereign account to it, and nothing else.
pub open spec fn sovereign_index_exact(actors: Map<ActorId, ActorRecord>, index: Map<AccountId, ActorId>) -> bool {
    &&& forall|id: ActorId| #[trigger] actors.contains_key(id) ==> index.contains_key(actors[id].sovereign)
        && index[actors[id].sovereign] == id
    &&& forall|a: AccountId| #[trigger] index.contains_key(a) ==> actors.contains_key(index[a]) && actors[index[a]].sovereign
        == a
}

/// The first invariant of the registry `s` that does not hold under the configuration `cfg`.
pub open spec fn first_state_violation(s: PalletStateModel, cfg: RuntimeConfiguration) -> Option<TryStateViolation> {
    let actors = s.actors@;
    if !(0 < s.active_actor_limit && s.active_actor_limit <= cfg.max_active_actors && s.active_actor_limit
        <= cfg.max_queue_length) {
        Some(TryStateViolation::ActiveActorLimitOutOfBounds)
    } else if s.active_actor_count != active_ids(actors).len() {
        Some(TryStateViolation::ActiveActorCountMismatch)
    } else if s.active_actor_count > s.active_actor_limit {
        Some(TryStateViolation::ActiveActorCountAboveLimit)
    } else if s.actor_identity_count != actors.dom().len() {
        Some(TryStateViolation::ActorIdentityCountMismatch)
    } else if !(s.run_heads@.dom() == s.run_payloads@.dom() && forall|id: ActorId| #[trigger]
        s.run_heads@.contains_key(id) ==> runs_a_cycle(actors, id)) {
        Some(TryStateViolation::RunRecordMismatch)
    } else if !sovereign_index_exact(actors, s.sovereign_index@) {
        Some(TryStateViolation::SovereignIndexMismatch)
    } else if exists|id: ActorId| #[trigger] actors.contains_key(id) && id >= s.next_actor_id {
        Some(TryStateViolation::NextActorIdTooLow)
    } else if s.system_sovereign_count != s.system_sovereigns@.dom().len() {
        Some(TryStateViolation::SystemSovereignCountMismatch)
    } else {
        None
    }
}

/// Every storage invariant of the registry holds.
pub open spec fn pallet_state_invariants(s: PalletStateModel, cfg: RuntimeConfiguration) -> bool {
    first_state_violation(s, cfg) is None
}

/// The Active Actors among the first `n` ids of `ids`.
pub open spec fn active_in_prefix(actors: Map<ActorId, ActorRecord>, ids: Seq<ActorId>, n: int) -> Set<ActorId> {
    ids.take(n).to_set().filter(|id: ActorId| actors[id].active is Some)
}

proof fn lemma_active_prefix_step(actors: Map<ActorId, ActorRecord>, ids: Seq<ActorId>, n: int)
    requires
        0 <= n < ids.len(),
        ids.no_duplicates(),
    ensures
        active_in_prefix(actors, ids, n + 1) == if actors[ids[n]].active is Some {
            active_in_prefix(actors, ids, n).insert(ids[n])
        } else {
            active_in_prefix(actors, ids, n)
        },
        !active_in_prefix(actors, ids, n).contains(ids[n]),
        active_in_prefix(actors, ids, n).finite(),
{
    let p = ids.take(n);
    assert(ids.take(n + 1) =~= p.push(ids[n]));
    assert forall|x: ActorId| p.push(ids[n]).to_set().contains(x) <==> p.to_set().insert(ids[n]).contains(x) by {
        if p.push(ids[n]).contains(x) {
            let j = p.push(ids[n]).index_of(x);
            if j < p.len() {
                assert(p[j] == x);
            }
        }
        if p.contains(x) {
            let j = p.index_of(x);
            assert(p.push(ids[n])[j] == x);
        }
        if x == ids[n] {
            assert(p.push(ids[n])[n] == x);
        }
    }
    assert(p.push(ids[n]).to_set() =~= p.to_set().insert(ids[n]));
    p.lemma_cardinality_of_set();
    if p.to_set().contains(ids[n]) {
        let j = p.index_of(ids[n]);
        assert(ids[j] == ids[n]);
    }
    if actors[ids[n]].active is Some {
        assert(active_in_prefix(actors, ids, n + 1) =~= active_in_prefix(actors, ids, n).insert(ids[n]));
    } else {
        assert(active_in_prefix(actors, ids, n + 1) =~= active_in_prefix(actors, ids, n));
    }
}


/// The keys of a map keyed by integers, each once.
fn key_list<V>(m: &HashMap<u64, V>) -> (ks: Vec<u64>)
    ensures
        ks@.no_duplicates(),
        ks@.to_set() == m@.dom(),
{
    let ghost all = vstd::std_specs::hash::spec_keys_iter(m).remaining();
    let mut ks: Vec<u64> = Vec::new();
    for k in it: m.keys()
        invariant
            it.seq() == all,
            ks@.len() == it.index(),
            forall|i: int| 0 <= i < ks@.len() ==> ks@[i] == *it.seq()[i],
    {
        ks.push(*k);
    }
    proof {
        assert(ks@ =~= all.unref());
    }
    ks
}

impl PalletStateModel {
    /// Checks the registry's storage invariants under the configuration `cfg`, and names the
    /// first that fails.
    #[verifier::loop_isolation(false)]
    pub fn check_pallet_state(&self, cfg: &RuntimeConfiguration) -> (r: Result<(), TryStateViolation>)
        ensures
            r is Ok <==> pallet_state_invariants(*self, *cfg),
            r matches Err(v) ==> Some(v) == first_state_violation(*self, *cfg),
    {
        let ghost actors = self.actors@;
        let ids = key_list(&self.actors);
        let accounts = key_list(&self.sovereign_index);
        let runs = key_list(&self.run_heads);
        proof {
            ids@.unique_seq_to_set();
        }
        if !(0 < self.active_actor_limit && self.active_actor_limit <= cfg.max_active_actors && self.active_actor_limit
            <= cfg.max_queue_length) {
            return Err(TryStateViolation::ActiveActorLimitOutOfBounds);
        }
        proof {
            assert(ids@.take(0).to_set() =~= Set::<ActorId>::empty());
            assert(active_in_prefix(actors, ids@, 0) =~= Set::<ActorId>::empty());
        }
        // Active count and the next id bound, in one pass.
        let mut active: u64 = 0;
        let mut id_too_high = false;
        let mut i: usize = 0;
        while i < ids.len()
            invariant
                0 <= i <= ids@.len(),
                ids@.no_duplicates(),
                ids@.to_set() == actors.dom(),
                actors == self.actors@,
                active == active_in_prefix(actors, ids@, i as int).len(),
                active <= i,
                active_in_prefix(actors, ids@, i as int).finite(),
                id_too_high <==> exists|j: int| 0 <= j < i && #[trigger] ids@[j] >= self.next_actor_id,
            decreases ids@.len() - i,
        {
            let id = ids[i];
            proof {
                lemma_active_prefix_step(actors, ids@, i as int);
                assert(ids@.to_set().contains(id));
            }
            let is_active = match self.actors.get(&id) {
                Some(rec) => rec.active.is_some(),
                None => false,
            };
            if is_active {
                active = active + 1;
            }
            if id >= self.next_actor_id {
                id_too_high = true;
            }
            i = i + 1;
        }
        proof {
            assert(ids@.take(ids@.len() as int) =~= ids@);
            assert(active_in_prefix(actors, ids@, ids@.len() as int) =~= active_ids(actors));
        }
        if active != self.active_actor_count as u64 {
            return Err(TryStateViolation::ActiveActorCountMismatch);
        }
        if self.active_actor_count > self.active_actor_limit {
            return Err(TryStateViolation::ActiveActorCountAboveLimit);
        }
        if self.actor_identity_count as usize != self.actors.len() {
            return Err(TryStateViolation::ActorIdentityCountMismatch);
        }
        // Run records.
        if self.run_heads.len() != self.run_payloads.len() {
            return Err(TryStateViolation::RunRecordMismatch);
        }
        let mut k: usize = 0;
        while k < runs.len()
            invariant
                0 <= k <= runs@.len(),
                runs@.to_set() == self.run_heads@.dom(),
                self.run_heads@.len() == self.run_payloads@.len(),
                forall|j: int| 0 <= j < k ==> self.run_payloads@.contains_key(#[trigger] runs@[j]) && runs_a_cycle(
                    self.actors@,
                    runs@[j],
                ),
            decreases runs@.len() - k,
        {
            let id = runs[k];
            proof {
                assert(runs@.to_set().contains(id));
            }
            let ok = self.run_payloads.contains_key(&id) && match self.actors.get(&id) {
                Some(rec) => match &rec.active {
                    Some(a) => match a.cycle_state {
                        CycleState::Running => true,
                        CycleState::Suspended => true,
                        CycleState::Idle => false,
                    },
                    None => false,
                },
                None => false,
            };
            if !ok {
                return Err(TryStateViolation::RunRecordMismatch);
            }
            k = k + 1;
        }
        proof {
            assert forall|id: ActorId| #[trigger] self.run_heads@.contains_key(id) implies self.run_payloads@.contains_key(id)
                && runs_a_cycle(self.actors@, id) by {
                assert(runs@.to_set().contains(id));
                let j = runs@.index_of(id);
                assert(runs@[j] == id);
            }
            assert(self.run_heads@.dom().subset_of(self.run_payloads@.dom()));
            vstd::set_lib::lemma_subset_equality(self.run_heads@.dom(), self.run_payloads@.dom());
        }
        // Sovereign index, both ways.
        let mut m: usize = 0;
        while m < ids.len()
            invariant
                0 <= m <= ids@.len(),
                ids@.to_set() == actors.dom(),
                actors == self.actors@,
                forall|j: int|
                    0 <= j < m ==> self.sovereign_index@.contains_key(actors[#[trigger] ids@[j]].sovereign)
                        && self.sovereign_index@[actors[ids@[j]].sovereign] == ids@[j],
            decreases ids@.len() - m,
        {
            let id = ids[m];
            proof {
                assert(ids@.to_set().contains(id));
            }
            let sovereign = self.actors.get(&id).unwrap().sovereign;
            let back = match self.sovereign_index.get(&sovereign) {
                Some(b) => *b == id,
                None => false,
            };
            if !back {
                return Err(TryStateViolation::SovereignIndexMismatch);
            }
            m = m + 1;
        }
        let mut q: usize = 0;
        while q < accounts.len()
            invariant
                0 <= q <= accounts@.len(),
                accounts@.to_set() == self.sovereign_index@.dom(),
                forall|j: int|
                    0 <= j < q ==> self.actors@.contains_key(self.sovereign_index@[#[trigger] accounts@[j]])
                        && self.actors@[self.sovereign_index@[accounts@[j]]].sovereign == accounts@[j],
            decreases accounts@.len() - q,
        {
            let a = accounts[q];
            proof {
                assert(accounts@.to_set().contains(a));
            }
            let owner_id = *self.sovereign_index.get(&a).unwrap();
            let ok = match self.actors.get(&owner_id) {
                Some(rec) => rec.sovereign == a,
                None => false,
            };
            if !ok {
                return Err(TryStateViolation::SovereignIndexMismatch);
            }
            q = q + 1;
        }
        proof {
            assert forall|id: ActorId| #[trigger] actors.contains_key(id) implies self.sovereign_index@.contains_key(
                actors[id].sovereign,
            ) && self.sovereign_index@[actors[id].sovereign] == id by {
                assert(ids@.to_set().contains(id));
                let j = ids@.index_of(id);
                assert(ids@[j] == id);
            }
            assert forall|a: AccountId| #[trigger] self.sovereign_index@.contains_key(a) implies actors.contains_key(
                self.sovereign_index@[a],
            ) && actors[self.sovereign_index@[a]].sovereign == a by {
                assert(accounts@.to_set().contains(a));
                let j = accounts@.index_of(a);
                assert(accounts@[j] == a);
            }
        }
        if id_too_high {
            return Err(TryStateViolation::NextActorIdTooLow);
        }
        proof {
            assert forall|id: ActorId| #[trigger] actors.contains_key(id) implies id < self.next_actor_id by {
                assert(ids@.to_set().contains(id));
                let j = ids@.index_of(id);
                assert(ids@[j] == id);
            }
        }
        if self.system_sovereign_count as usize != self.system_sovereigns.len() {
            return Err(TryStateViolation::SystemSovereignCountMismatch);
        }
        Ok(())
    }
}

/// Two records agree on everything the storage invariants read: the sovereign account,
/// whether the Actor is Active, and its cycle state when it is.
pub open spec fn same_registry_footprint(a: ActorRecord, b: ActorRecord) -> bool {
    &&& a.sovereign == b.sovereign
    &&& (a.active is Some <==> b.active is Some)
    &&& a.active is Some ==> a.active->Some_0.cycle_state == b.active->Some_0.cycle_state
}

/// Changing one registered Actor's record in a way that keeps its sovereign account, its
/// activeness and its cycle state (a Contract replacement, a recorded control mutation) keeps
/// every storage invariant of the registry.
pub proof fn lemma_record_change_keeps_invariants(s: PalletStateModel, t: PalletStateModel, id: ActorId, cfg: RuntimeConfiguration)
    requires
        pallet_state_invariants(s, cfg),
        s.actors@.contains_key(id),
        t.actors@ == s.actors@.insert(id, t.actors@[id]),
        same_registry_footprint(s.actors@[id], t.actors@[id]),
        t.global_circuit_breaker == s.global_circuit_breaker,
        t.active_actor_limit == s.active_actor_limit,
        t.active_actor_count == s.active_actor_count,
        t.actor_identity_count == s.actor_identity_count,
        t.next_actor_id == s.next_actor_id,
        t.run_heads@ == s.run_heads@,
        t.run_payloads@ == s.run_payloads@,
        t.sovereign_index@ == s.sovereign_index@,
        t.system_sovereigns@ == s.system_sovereigns@,
        t.system_sovereign_count == s.system_sovereign_count,
    ensures
        pallet_state_invariants(t, cfg),
{
    let sa = s.actors@;
    let ta = t.actors@;
    assert(ta.dom() =~= sa.dom());
    assert(active_ids(ta) =~= active_ids(sa));
    assert forall|k: ActorId| #[trigger] t.run_heads@.contains_key(k) implies runs_a_cycle(ta, k) by {
        assert(runs_a_cycle(sa, k));
    }
    assert forall|k: ActorId| #[trigger] ta.contains_key(k) implies t.sovereign_index@.contains_key(ta[k].sovereign)
        && t.sovereign_index@[ta[k].sovereign] == k by {
        assert(sa.contains_key(k));
    }
    assert forall|a: AccountId| #[trigger] t.sovereign_index@.contains_key(a) implies ta.contains_key(t.sovereign_index@[a])
        && ta[t.sovereign_index@[a]].sovereign == a by {
        assert(s.sovereign_index@.contains_key(a));
    }
    assert(sovereign_index_exact(ta, t.sovereign_index@));
    assert forall|k: ActorId| #[trigger] ta.contains_key(k) implies k < t.next_actor_id by {
        assert(sa.contains_key(k));
        assert(!(sa.contains_key(k) && k >= s.next_actor_id));
    }
}

/// Setting the active Actor limit to a value the limit setter accepts under `cfg` (positive,
/// within the Actor and queue capacities, not below the active count) keeps every storage
/// invariant of the registry.
pub proof fn lemma_limit_change_keeps_invariants(s: PalletStateModel, t: PalletStateModel, cfg: RuntimeConfiguration)
    requires
        pallet_state_invariants(s, cfg),
        0 < t.active_actor_limit <= cfg.max_active_actors,
        t.active_actor_limit <= cfg.max_queue_length,
        s.active_actor_count <= t.active_actor_limit,
        t.global_circuit_breaker == s.global_circuit_breaker,
        t.active_actor_count == s.active_actor_count,
        t.actor_identity_count == s.actor_identity_count,
        t.next_actor_id == s.next_actor_id,
        t.actors@ == s.actors@,
        t.run_heads@ == s.run_heads@,
        t.run_payloads@ == s.run_payloads@,
        t.sovereign_index@ == s.sovereign_index@,
        t.system_sovereigns@ == s.system_sovereigns@,
        t.system_sovereign_count == s.system_sovereign_count,
    ensures
        pallet_state_invariants(t, cfg),
{
}


/// The storage invariants, each on its own: the active limit is positive and within the
/// Actor and queue capacities; the active count is the number of Active Actors and within the
/// limit; the identity count is the number of registered Actors; run heads and run payloads
/// belong to the same Actors, each Active in a running or suspended cycle; every registered
/// Actor's sovereign account is indexed to it and every indexed account is the sovereign
/// account of the Actor it names; every registered id is below the next id; the System
/// sovereign count is the number of System sovereigns.
pub proof fn lemma_state_invariants_meaning(s: PalletStateModel, cfg: RuntimeConfiguration)
    ensures
        pallet_state_invariants(s, cfg) <==> {
            &&& 0 < s.active_actor_limit
            &&& s.active_actor_limit <= cfg.max_active_actors
            &&& s.active_actor_limit <= cfg.max_queue_length
            &&& s.active_actor_count == s.actors@.dom().filter(|id: ActorId| s.actors@[id].active is Some).len()
            &&& s.active_actor_count <= s.active_actor_limit
            &&& s.actor_identity_count == s.actors@.dom().len()
            &&& s.run_heads@.dom() == s.run_payloads@.dom()
            &&& (forall|id: ActorId| #[trigger] s.run_heads@.contains_key(id) ==> s.actors@.contains_key(id)
                && s.actors@[id].active is Some && (s.actors@[id].active->Some_0.cycle_state == CycleState::Running
                || s.actors@[id].active->Some_0.cycle_state == CycleState::Suspended))
            &&& (forall|id: ActorId| #[trigger] s.actors@.contains_key(id) ==> s.sovereign_index@.contains_key(
                s.actors@[id].sovereign,
            ) && s.sovereign_index@[s.actors@[id].sovereign] == id)
            &&& (forall|a: AccountId| #[trigger] s.sovereign_index@.contains_key(a) ==> s.actors@.contains_key(
                s.sovereign_index@[a],
            ) && s.actors@[s.sovereign_index@[a]].sovereign == a)
            &&& (forall|id: ActorId| #[trigger] s.actors@.contains_key(id) ==> id < s.next_actor_id)
            &&& s.system_sovereign_count == s.system_sovereigns@.dom().len()
        },
{
    assert(active_ids(s.actors@) == s.actors@.dom().filter(|id: ActorId| s.actors@[id].active is Some));
}

} // verus!
