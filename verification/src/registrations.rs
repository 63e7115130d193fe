//! The registrations of parked owners on one dependency source: a paged table of slots with a
//! stack of freed positions, and the exact position of every registered owner.
use std::collections::HashMap;
use vstd::prelude::*;

use crate::dependency_review::{
    registration_validation, validate_dependency_registration, DependencyRegistrationError, DependencyRegistrationHandle,
    DependencyRevisionState, PendingCheckOwner,
};
use crate::types::ActorId;

verus! {

broadcast use vstd::std_specs::hash::group_hash_axioms;


/// The slot of one registration.
#[derive(Clone, Copy, Debug, PartialEq, Eq, Structural)]
pub struct DependencyRegistrationPosition {
    pub page: u64,
    pub slot: u8,
}

/// Registration count, freed positions on the stack, and the next never-used index.
#[derive(Clone, Copy, Debug, PartialEq, Eq, Structural)]
pub struct DependencyRegistrationHeader {
    pub count: u32,
    pub free_count: u32,
    pub next_index: u64,
}

/// The first invariant a registration table breaks.
#[derive(Clone, Copy, Debug, PartialEq, Eq, Structural)]
pub enum RegistrationTableViolation {
    HeaderUnbalanced,
    PositionsMismatch,
    RegistrationMisplaced,
}

#[derive(Clone, Copy, Debug, PartialEq, Eq, Structural)]
pub enum DependencyRegistrationMutation {
    Unchanged,
    Installed,
    Replaced,
    Removed,
}

/// The registrations of one source as stored.
pub struct DependencyRegistrationTable {
    pub header: DependencyRegistrationHeader,
    /// Freed positions, a stack indexed from zero up to `header.free_count`.
    pub free_positions: HashMap<u32, DependencyRegistrationPosition>,
    /// Registration pages: the registrations held in each page's slots.
    pub pages: HashMap<u64, Vec<Option<DependencyRegistrationHandle>>>,
    pub positions: HashMap<ActorId, DependencyRegistrationPosition>,
    pub registrations: HashMap<ActorId, DependencyRegistrationHandle>,
}

/// A table as its contents: the header, the freed-position stack, each page's slots, and each
/// registered owner's position and registration.
pub struct RegistrationTableView {
    pub header: DependencyRegistrationHeader,
    pub free_positions: Map<u32, DependencyRegistrationPosition>,
    pub pages: Map<u64, Seq<Option<DependencyRegistrationHandle>>>,
    pub positions: Map<ActorId, DependencyRegistrationPosition>,
    pub registrations: Map<ActorId, DependencyRegistrationHandle>,
}

impl View for DependencyRegistrationTable {
    type V = RegistrationTableView;

    open spec fn view(&self) -> RegistrationTableView {
        RegistrationTableView {
            header: self.header,
            free_positions: self.free_positions@,
            pages: self.pages@.map_values(|p: Vec<Option<DependencyRegistrationHandle>>| p@),
            positions: self.positions@,
            registrations: self.registrations@,
        }
    }
}

/// The registration held at `pos`, when the page and slot exist.
pub open spec fn slot_at(
    pages: Map<u64, Seq<Option<DependencyRegistrationHandle>>>,
    pos: DependencyRegistrationPosition,
) -> Option<DependencyRegistrationHandle> {
    if pages.contains_key(pos.page) && (pos.slot as int) < pages[pos.page].len() {
        pages[pos.page][pos.slot as int]
    } else {
        None
    }
}

/// Every registered owner is keyed by its own Actor and sits at its recorded position, and only
/// registered owners have a position.
pub open spec fn table_consistent(t: RegistrationTableView) -> bool {
    &&& t.positions.dom() == t.registrations.dom()
    &&& forall|a: ActorId|
        #[trigger] t.registrations.contains_key(a) ==> t.registrations[a].actor.actor_id == a
            && t.positions.contains_key(a) && slot_at(t.pages, t.positions[a]) == Some(t.registrations[a])
}

/// Every index handed out is either registered or on the freed stack, and no index beyond the
/// Actor limit was handed out.
pub open spec fn header_balanced(h: DependencyRegistrationHeader, max_active_actors: u32) -> bool {
    h.count + h.free_count == h.next_index && h.next_index <= max_active_actors
}

/// The position of `actor_id`'s registration, checked to hold exactly `expected`.
pub open spec fn spec_position(
    t: RegistrationTableView,
    actor_id: ActorId,
    expected: DependencyRegistrationHandle,
) -> Result<DependencyRegistrationPosition, DependencyRegistrationError> {
    if !t.positions.contains_key(actor_id) {
        Err(DependencyRegistrationError::PositionMissing)
    } else if !t.pages.contains_key(t.positions[actor_id].page) {
        Err(DependencyRegistrationError::CorruptTopology)
    } else if slot_at(t.pages, t.positions[actor_id]) != Some(expected) {
        Err(DependencyRegistrationError::PositionMismatch)
    } else {
        Ok(t.positions[actor_id])
    }
}

/// The position a new registration takes: the top freed position, unless a scan is running or
/// none is free, else the next never-used index.
pub open spec fn install_position(
    h: DependencyRegistrationHeader,
    free_positions: Map<u32, DependencyRegistrationPosition>,
    scan_active: bool,
) -> DependencyRegistrationPosition {
    if !scan_active && h.free_count > 0 {
        free_positions[(h.free_count - 1) as u32]
    } else {
        DependencyRegistrationPosition { page: h.next_index / 32, slot: (h.next_index % 32) as u8 }
    }
}

/// A page of empty slots.
pub open spec fn empty_page() -> Seq<Option<DependencyRegistrationHandle>> {
    Seq::new(32, |i: int| None::<DependencyRegistrationHandle>)
}

/// The slots of `page`, or a page of empty slots where it is not stored.
pub open spec fn page_or_empty(pages: Map<u64, Seq<Option<DependencyRegistrationHandle>>>, page: u64) -> Seq<
    Option<DependencyRegistrationHandle>,
> {
    if pages.contains_key(page) {
        pages[page]
    } else {
        empty_page()
    }
}

/// The position a new registration would take lies within its page.
pub open spec fn install_slot_fits(t: RegistrationTableView, scan_active: bool) -> bool {
    let pos = install_position(t.header, t.free_positions, scan_active);
    (pos.slot as int) < page_or_empty(t.pages, pos.page).len()
}

/// The registration handle that `owner` installs at `acknowledged_revision`.
pub open spec fn handle_of(owner: PendingCheckOwner, acknowledged_revision: u64) -> DependencyRegistrationHandle {
    DependencyRegistrationHandle { actor: owner.actor, plan_revision: owner.plan_revision, acknowledged_revision }
}

/// Outcome of installing `owner`'s registration at `acknowledged_revision` into `t`, when it ends
/// without installing anything (a refusal, or the same registration already in place); `None`
/// when it installs.
pub open spec fn install_refusal(
    t: RegistrationTableView,
    owner: PendingCheckOwner,
    acknowledged_revision: u64,
    pending: Option<PendingCheckOwner>,
    source: DependencyRevisionState,
    max_active_actors: u32,
    transactional: bool,
) -> Option<Result<DependencyRegistrationMutation, DependencyRegistrationError>> {
    let h = t.header;
    let id = owner.actor.actor_id;
    let reuse = source.scan_target is None && h.free_count > 0;
    let pos = install_position(h, t.free_positions, source.scan_target is Some);
    if !transactional {
        Some(Err(DependencyRegistrationError::TransactionRequired))
    } else {
        match registration_validation(owner, pending, source, acknowledged_revision) {
            Err(e) => Some(Err(e)),
            Ok(handle) => if t.registrations.contains_key(id) {
                if t.registrations[id] == handle {
                    match spec_position(t, id, handle) {
                        Err(e) => Some(Err(e)),
                        Ok(_) => Some(Ok(DependencyRegistrationMutation::Unchanged)),
                    }
                } else {
                    Some(Err(DependencyRegistrationError::RegistrationAlreadyExists))
                }
            } else if h.count == u32::MAX || h.count + 1 > max_active_actors {
                Some(Err(DependencyRegistrationError::CapacityExceeded))
            } else if reuse && !t.free_positions.contains_key((h.free_count - 1) as u32) {
                Some(Err(DependencyRegistrationError::CorruptTopology))
            } else if !reuse && h.next_index >= max_active_actors {
                Some(Err(DependencyRegistrationError::CapacityExceeded))
            } else if slot_at(t.pages, pos) is Some {
                Some(Err(DependencyRegistrationError::CorruptTopology))
            } else {
                None
            },
        }
    }
}

/// `t` with `handle` installed at the position a new registration takes.
pub open spec fn install_into(
    t: RegistrationTableView,
    handle: DependencyRegistrationHandle,
    scan_active: bool,
) -> RegistrationTableView {
    let h = t.header;
    let reuse = !scan_active && h.free_count > 0;
    let pos = install_position(h, t.free_positions, scan_active);
    RegistrationTableView {
        header: if reuse {
            DependencyRegistrationHeader { count: (h.count + 1) as u32, free_count: (h.free_count - 1) as u32, ..h }
        } else {
            DependencyRegistrationHeader { count: (h.count + 1) as u32, next_index: (h.next_index + 1) as u64, ..h }
        },
        free_positions: if reuse {
            t.free_positions.remove((h.free_count - 1) as u32)
        } else {
            t.free_positions
        },
        pages: t.pages.insert(pos.page, page_or_empty(t.pages, pos.page).update(pos.slot as int, Some(handle))),
        positions: t.positions.insert(handle.actor.actor_id, pos),
        registrations: t.registrations.insert(handle.actor.actor_id, handle),
    }
}

/// Result and new table of installing `owner`'s registration at `acknowledged_revision`.
pub open spec fn spec_install(
    t: RegistrationTableView,
    owner: PendingCheckOwner,
    acknowledged_revision: u64,
    pending: Option<PendingCheckOwner>,
    source: DependencyRevisionState,
    max_active_actors: u32,
    transactional: bool,
) -> (Result<DependencyRegistrationMutation, DependencyRegistrationError>, RegistrationTableView) {
    match install_refusal(t, owner, acknowledged_revision, pending, source, max_active_actors, transactional) {
        Some(answer) => (answer, t),
        None => (
            Ok(DependencyRegistrationMutation::Installed),
            install_into(t, handle_of(owner, acknowledged_revision), source.scan_target is Some),
        ),
    }
}

/// Outcome of replacing `current` by `owner`'s registration at `acknowledged_revision`, when it
/// ends without replacing anything; `None` when it replaces.
pub open spec fn replace_refusal(
    t: RegistrationTableView,
    current: DependencyRegistrationHandle,
    owner: PendingCheckOwner,
    acknowledged_revision: u64,
    pending: Option<PendingCheckOwner>,
    source: DependencyRevisionState,
    transactional: bool,
) -> Option<Result<DependencyRegistrationMutation, DependencyRegistrationError>> {
    let id = current.actor.actor_id;
    if !transactional {
        Some(Err(DependencyRegistrationError::TransactionRequired))
    } else {
        match registration_validation(owner, pending, source, acknowledged_revision) {
            Err(e) => Some(Err(e)),
            Ok(replacement) => if !t.registrations.contains_key(id) {
                Some(Err(DependencyRegistrationError::RegistrationMissing))
            } else if t.registrations[id] != current {
                Some(Err(DependencyRegistrationError::CurrentRegistrationMismatch))
            } else if id != replacement.actor.actor_id {
                Some(Err(DependencyRegistrationError::PendingOwnerMismatch))
            } else {
                match spec_position(t, id, current) {
                    Err(e) => Some(Err(e)),
                    Ok(_) => if current == replacement {
                        Some(Ok(DependencyRegistrationMutation::Unchanged))
                    } else {
                        None
                    },
                }
            },
        }
    }
}

/// `t` with `handle` in the registration of its Actor and in the slot at `pos`.
pub open spec fn put_at(
    t: RegistrationTableView,
    pos: DependencyRegistrationPosition,
    handle: DependencyRegistrationHandle,
) -> RegistrationTableView {
    RegistrationTableView {
        pages: t.pages.insert(pos.page, t.pages[pos.page].update(pos.slot as int, Some(handle))),
        registrations: t.registrations.insert(handle.actor.actor_id, handle),
        ..t
    }
}

/// Result and new table of replacing `current` by `owner`'s registration at
/// `acknowledged_revision`.
pub open spec fn spec_replace(
    t: RegistrationTableView,
    current: DependencyRegistrationHandle,
    owner: PendingCheckOwner,
    acknowledged_revision: u64,
    pending: Option<PendingCheckOwner>,
    source: DependencyRevisionState,
    transactional: bool,
) -> (Result<DependencyRegistrationMutation, DependencyRegistrationError>, RegistrationTableView) {
    match replace_refusal(t, current, owner, acknowledged_revision, pending, source, transactional) {
        Some(answer) => (answer, t),
        None => (
            Ok(DependencyRegistrationMutation::Replaced),
            put_at(t, t.positions[current.actor.actor_id], handle_of(owner, acknowledged_revision)),
        ),
    }
}

/// Outcome of removing `expected`, when it ends without removing anything; `None` when it
/// removes.
pub open spec fn remove_refusal(
    t: RegistrationTableView,
    expected: DependencyRegistrationHandle,
    max_active_actors: u32,
    transactional: bool,
) -> Option<Result<DependencyRegistrationMutation, DependencyRegistrationError>> {
    let id = expected.actor.actor_id;
    if !transactional {
        Some(Err(DependencyRegistrationError::TransactionRequired))
    } else if !t.registrations.contains_key(id) {
        Some(Err(DependencyRegistrationError::RegistrationMissing))
    } else if t.registrations[id] != expected {
        Some(Err(DependencyRegistrationError::CurrentRegistrationMismatch))
    } else {
        match spec_position(t, id, expected) {
            Err(e) => Some(Err(e)),
            Ok(_) => if t.header.count == 0 || t.header.free_count >= max_active_actors {
                Some(Err(DependencyRegistrationError::CorruptTopology))
            } else {
                None
            },
        }
    }
}

/// `t` with the slot at `pos` emptied and `pos` pushed on the freed stack.
pub open spec fn free_slot(t: RegistrationTableView, pos: DependencyRegistrationPosition) -> RegistrationTableView {
    let h = t.header;
    RegistrationTableView {
        header: DependencyRegistrationHeader { count: (h.count - 1) as u32, free_count: (h.free_count + 1) as u32, ..h },
        free_positions: t.free_positions.insert(h.free_count, pos),
        pages: t.pages.insert(pos.page, t.pages[pos.page].update(pos.slot as int, None)),
        ..t
    }
}

/// `t` with `expected`'s slot freed and its registration and position gone.
pub open spec fn remove_from(t: RegistrationTableView, expected: DependencyRegistrationHandle) -> RegistrationTableView {
    let id = expected.actor.actor_id;
    let freed = free_slot(t, t.positions[id]);
    RegistrationTableView {
        positions: t.positions.remove(id),
        registrations: t.registrations.remove(id),
        ..freed
    }
}

/// Result and new table of removing `expected`.
pub open spec fn spec_remove(
    t: RegistrationTableView,
    expected: DependencyRegistrationHandle,
    max_active_actors: u32,
    transactional: bool,
) -> (Result<DependencyRegistrationMutation, DependencyRegistrationError>, RegistrationTableView) {
    match remove_refusal(t, expected, max_active_actors, transactional) {
        Some(answer) => (answer, t),
        None => (Ok(DependencyRegistrationMutation::Removed), remove_from(t, expected)),
    }
}

/// Installing a registration keeps every registered owner at its recorded position, and keeps
/// the header balanced.
pub proof fn lemma_install_keeps_consistent(
    t: RegistrationTableView,
    owner: PendingCheckOwner,
    acknowledged_revision: u64,
    pending: Option<PendingCheckOwner>,
    source: DependencyRevisionState,
    max_active_actors: u32,
    transactional: bool,
)
    requires
        table_consistent(t),
        header_balanced(t.header, max_active_actors),
        install_refusal(t, owner, acknowledged_revision, pending, source, max_active_actors, transactional) is None
            ==> install_slot_fits(t, source.scan_target is Some),
    ensures
        table_consistent(
            spec_install(t, owner, acknowledged_revision, pending, source, max_active_actors, transactional).1,
        ),
        header_balanced(
            spec_install(t, owner, acknowledged_revision, pending, source, max_active_actors, transactional).1.header,
            max_active_actors,
        ),
{
    if install_refusal(t, owner, acknowledged_revision, pending, source, max_active_actors, transactional) is None {
        let handle = handle_of(owner, acknowledged_revision);
        let id = owner.actor.actor_id;
        let pos = install_position(t.header, t.free_positions, source.scan_target is Some);
        let after = install_into(t, handle, source.scan_target is Some);
        assert(registration_validation(owner, pending, source, acknowledged_revision) == Ok::<
            DependencyRegistrationHandle,
            DependencyRegistrationError,
        >(handle));
        assert(after.positions.dom() =~= after.registrations.dom());
        assert forall|a: ActorId| #[trigger] after.registrations.contains_key(a) implies after.registrations[a].actor.actor_id
            == a && after.positions.contains_key(a) && slot_at(after.pages, after.positions[a]) == Some(
            after.registrations[a],
        ) by {
            if a != id {
                let p = t.positions[a];
                assert(slot_at(t.pages, p) == Some(t.registrations[a]));
                if p.page == pos.page {
                    assert(p.slot != pos.slot);
                }
            }
        }
    }
}

/// Replacing a registration keeps every registered owner at its recorded position; the header
/// and positions stay as they were.
pub proof fn lemma_replace_keeps_consistent(
    t: RegistrationTableView,
    current: DependencyRegistrationHandle,
    owner: PendingCheckOwner,
    acknowledged_revision: u64,
    pending: Option<PendingCheckOwner>,
    source: DependencyRevisionState,
    transactional: bool,
)
    requires
        table_consistent(t),
    ensures
        table_consistent(spec_replace(t, current, owner, acknowledged_revision, pending, source, transactional).1),
        spec_replace(t, current, owner, acknowledged_revision, pending, source, transactional).1.header == t.header,
        spec_replace(t, current, owner, acknowledged_revision, pending, source, transactional).1.positions
            == t.positions,
{
    if replace_refusal(t, current, owner, acknowledged_revision, pending, source, transactional) is None {
        let handle = handle_of(owner, acknowledged_revision);
        let id = owner.actor.actor_id;
        let pos = t.positions[id];
        let after = put_at(t, pos, handle);
        assert(registration_validation(owner, pending, source, acknowledged_revision) == Ok::<
            DependencyRegistrationHandle,
            DependencyRegistrationError,
        >(handle));
        assert(after.positions.dom() =~= after.registrations.dom());
        assert forall|a: ActorId| #[trigger] after.registrations.contains_key(a) implies after.registrations[a].actor.actor_id
            == a && after.positions.contains_key(a) && slot_at(after.pages, after.positions[a]) == Some(
            after.registrations[a],
        ) by {
            if a != id {
                let p = t.positions[a];
                assert(slot_at(t.pages, p) == Some(t.registrations[a]));
                if p.page == pos.page && p.slot == pos.slot {
                    assert(t.registrations[a] == t.registrations[id]);
                }
            }
        }
    }
}

/// Removing a registration keeps every other registered owner at its recorded position, and
/// keeps the header balanced.
pub proof fn lemma_remove_keeps_consistent(
    t: RegistrationTableView,
    expected: DependencyRegistrationHandle,
    max_active_actors: u32,
    transactional: bool,
)
    requires
        table_consistent(t),
        header_balanced(t.header, max_active_actors),
    ensures
        table_consistent(spec_remove(t, expected, max_active_actors, transactional).1),
        header_balanced(spec_remove(t, expected, max_active_actors, transactional).1.header, max_active_actors),
{
    if remove_refusal(t, expected, max_active_actors, transactional) is None {
        let id = expected.actor.actor_id;
        let pos = t.positions[id];
        let after = remove_from(t, expected);
        assert(after.positions.dom() =~= after.registrations.dom());
        assert forall|a: ActorId| #[trigger] after.registrations.contains_key(a) implies after.registrations[a].actor.actor_id
            == a && after.positions.contains_key(a) && slot_at(after.pages, after.positions[a]) == Some(
            after.registrations[a],
        ) by {
            let p = t.positions[a];
            assert(slot_at(t.pages, p) == Some(t.registrations[a]));
            if p.page == pos.page && p.slot == pos.slot {
                assert(t.registrations[a] == t.registrations[id]);
            }
        }
    }
}

/// Removing a registration right after installing it succeeds, and gives back the registrations,
/// positions, count and slot contents from before the install.
pub proof fn lemma_install_then_remove_restores(
    t: RegistrationTableView,
    owner: PendingCheckOwner,
    acknowledged_revision: u64,
    pending: Option<PendingCheckOwner>,
    source: DependencyRevisionState,
    max_active_actors: u32,
)
    requires
        table_consistent(t),
        header_balanced(t.header, max_active_actors),
        install_refusal(t, owner, acknowledged_revision, pending, source, max_active_actors, true) is None
            ==> install_slot_fits(t, source.scan_target is Some),
        spec_install(t, owner, acknowledged_revision, pending, source, max_active_actors, true).0 == Ok::<
            DependencyRegistrationMutation,
            DependencyRegistrationError,
        >(DependencyRegistrationMutation::Installed),
    ensures
        ({
            let t1 = spec_install(t, owner, acknowledged_revision, pending, source, max_active_actors, true).1;
            let t2 = spec_remove(t1, handle_of(owner, acknowledged_revision), max_active_actors, true);
            &&& t2.0 == Ok::<DependencyRegistrationMutation, DependencyRegistrationError>(
                DependencyRegistrationMutation::Removed,
            )
            &&& t2.1.registrations == t.registrations
            &&& t2.1.positions == t.positions
            &&& t2.1.header.count == t.header.count
            &&& forall|q: DependencyRegistrationPosition| #[trigger] slot_at(t2.1.pages, q) == slot_at(t.pages, q)
        }),
{
    let handle = handle_of(owner, acknowledged_revision);
    let id = owner.actor.actor_id;
    let pos = install_position(t.header, t.free_positions, source.scan_target is Some);
    lemma_install_keeps_consistent(t, owner, acknowledged_revision, pending, source, max_active_actors, true);
    assert(registration_validation(owner, pending, source, acknowledged_revision) == Ok::<
        DependencyRegistrationHandle,
        DependencyRegistrationError,
    >(handle));
    assert(install_refusal(t, owner, acknowledged_revision, pending, source, max_active_actors, true) is None);
    let t1 = install_into(t, handle, source.scan_target is Some);
    assert(t1.registrations.contains_key(id));
    assert(remove_refusal(t1, handle, max_active_actors, true) is None);
    let t2 = remove_from(t1, handle);
    assert(t2.registrations =~= t.registrations);
    assert(!t.positions.contains_key(id));
    assert(t2.positions =~= t.positions);
    assert forall|q: DependencyRegistrationPosition| #[trigger] slot_at(t2.pages, q) == slot_at(t.pages, q) by {
        if q.page == pos.page && q.slot == pos.slot {
        } else if q.page == pos.page {
        }
    }
}

fn new_page() -> (p: Vec<Option<DependencyRegistrationHandle>>)
    ensures
        p@ == empty_page(),
{
    let mut p: Vec<Option<DependencyRegistrationHandle>> = Vec::new();
    let mut i: usize = 0;
    while i < 32
        invariant
            0 <= i <= 32,
            p@ == Seq::new(i as nat, |j: int| None::<DependencyRegistrationHandle>),
        decreases 32 - i,
    {
        p.push(None);
        i = i + 1;
        proof {
            assert(p@ =~= Seq::new(i as nat, |j: int| None::<DependencyRegistrationHandle>));
        }
    }
    p
}

impl DependencyRegistrationTable {
    /// The position of `actor_id`'s registration, checked to hold exactly `expected`.
    pub fn dependency_registration_position(&self, actor_id: ActorId, expected: DependencyRegistrationHandle) -> (r:
        Result<DependencyRegistrationPosition, DependencyRegistrationError>)
        ensures
            r == spec_position(self@, actor_id, expected),
    {
        let position = match self.positions.get(&actor_id) {
            Some(p) => *p,
            None => return Err(DependencyRegistrationError::PositionMissing),
        };
        let page = match self.pages.get(&position.page) {
            Some(p) => p,
            None => return Err(DependencyRegistrationError::CorruptTopology),
        };
        let slot = position.slot as usize;
        let holds = slot < page.len() && match page[slot] {
            Some(h) => h == expected,
            None => false,
        };
        if !holds {
            return Err(DependencyRegistrationError::PositionMismatch);
        }
        Ok(position)
    }

    pub(crate) fn page_copy(&self, id: u64) -> (r: Option<Vec<Option<DependencyRegistrationHandle>>>)
        ensures
            match r {
                Some(p) => self@.pages.contains_key(id) && p@ == self@.pages[id],
                None => !self@.pages.contains_key(id),
            },
    {
        match self.pages.get(&id) {
            Some(p) => Some(p.clone()),
            None => None,
        }
    }

    /// Installs `owner`'s registration on this source at `acknowledged_revision`. `pending` is
    /// the Actor's stored pending owner and `source` the source's stored state. An identical
    /// registration already in place is left unchanged; a new one takes the top freed position
    /// (unless a scan is running) or the next never-used index.
    pub fn install_dependency_registration(
        &mut self,
        owner: PendingCheckOwner,
        acknowledged_revision: u64,
        pending: Option<PendingCheckOwner>,
        source: DependencyRevisionState,
        max_active_actors: u32,
        transactional: bool,
    ) -> (r: Result<DependencyRegistrationMutation, DependencyRegistrationError>)
        requires
            install_refusal(
                old(self)@,
                owner,
                acknowledged_revision,
                pending,
                source,
                max_active_actors,
                transactional,
            ) is None ==> install_slot_fits(old(self)@, source.scan_target is Some),
        ensures
            (r, final(self)@) == spec_install(
                old(self)@,
                owner,
                acknowledged_revision,
                pending,
                source,
                max_active_actors,
                transactional,
            ),
    {
        if !transactional {
            return Err(DependencyRegistrationError::TransactionRequired);
        }
        let handle = validate_dependency_registration(owner, pending, source, acknowledged_revision)?;
        let id = owner.actor.actor_id;
        match self.registrations.get(&id) {
            Some(current) => {
                if *current == handle {
                    self.dependency_registration_position(id, handle)?;
                    return Ok(DependencyRegistrationMutation::Unchanged);
                }
                return Err(DependencyRegistrationError::RegistrationAlreadyExists);
            },
            None => {},
        }
        let mut header = self.header;
        if header.count == u32::MAX {
            return Err(DependencyRegistrationError::CapacityExceeded);
        }
        let next_count = header.count + 1;
        if next_count > max_active_actors {
            return Err(DependencyRegistrationError::CapacityExceeded);
        }
        let scan_active = source.scan_target.is_some();
        let reused_free_index: Option<u32>;
        let position = if !scan_active && header.free_count > 0 {
            let free_index = header.free_count - 1;
            let p = match self.free_positions.get(&free_index) {
                Some(p) => *p,
                None => return Err(DependencyRegistrationError::CorruptTopology),
            };
            reused_free_index = Some(free_index);
            p
        } else {
            if header.next_index >= max_active_actors as u64 {
                return Err(DependencyRegistrationError::CapacityExceeded);
            }
            let index = header.next_index;
            header.next_index = index + 1;
            reused_free_index = None;
            DependencyRegistrationPosition { page: index / 32, slot: (index % 32) as u8 }
        };
        let mut page = match self.page_copy(position.page) {
            Some(p) => p,
            None => new_page(),
        };
        let slot = position.slot as usize;
        let occupied = slot < page.len() && page[slot].is_some();
        if occupied {
            return Err(DependencyRegistrationError::CorruptTopology);
        }
        page.set(slot, Some(handle));
        header.count = next_count;
        match reused_free_index {
            Some(free_index) => {
                self.free_positions.remove(&free_index);
                header.free_count = free_index;
            },
            None => {},
        }
        self.pages.insert(position.page, page);
        self.header = header;
        self.positions.insert(id, position);
        self.registrations.insert(id, handle);
        proof {
            let pos = install_position(old(self)@.header, old(self)@.free_positions, source.scan_target is Some);
            assert(self@.pages =~= old(self)@.pages.insert(
                pos.page,
                page_or_empty(old(self)@.pages, pos.page).update(pos.slot as int, Some(handle)),
            ));
            assert(self@ == install_into(old(self)@, handle, source.scan_target is Some));
        }
        Ok(DependencyRegistrationMutation::Installed)
    }

    /// Replaces the registration `current` by `owner`'s registration at
    /// `acknowledged_revision`, in the same slot, once the successor is validated and `current`
    /// is found exactly where it is recorded. An identical successor leaves the table unchanged.
    pub fn replace_dependency_registration(
        &mut self,
        current: DependencyRegistrationHandle,
        owner: PendingCheckOwner,
        acknowledged_revision: u64,
        pending: Option<PendingCheckOwner>,
        source: DependencyRevisionState,
        transactional: bool,
    ) -> (r: Result<DependencyRegistrationMutation, DependencyRegistrationError>)
        ensures
            (r, final(self)@) == spec_replace(
                old(self)@,
                current,
                owner,
                acknowledged_revision,
                pending,
                source,
                transactional,
            ),
    {
        if !transactional {
            return Err(DependencyRegistrationError::TransactionRequired);
        }
        let replacement = validate_dependency_registration(owner, pending, source, acknowledged_revision)?;
        let id = current.actor.actor_id;
        let stored = match self.registrations.get(&id) {
            Some(h) => *h,
            None => return Err(DependencyRegistrationError::RegistrationMissing),
        };
        if stored != current {
            return Err(DependencyRegistrationError::CurrentRegistrationMismatch);
        }
        if id != replacement.actor.actor_id {
            return Err(DependencyRegistrationError::PendingOwnerMismatch);
        }
        let position = self.dependency_registration_position(id, current)?;
        if current == replacement {
            return Ok(DependencyRegistrationMutation::Unchanged);
        }
        let mut page = match self.page_copy(position.page) {
            Some(p) => p,
            None => return Err(DependencyRegistrationError::CorruptTopology),
        };
        page.set(position.slot as usize, Some(replacement));
        self.pages.insert(position.page, page);
        self.registrations.insert(id, replacement);
        proof {
            assert(self@.pages =~= old(self)@.pages.insert(
                position.page,
                old(self)@.pages[position.page].update(position.slot as int, Some(replacement)),
            ));
            assert(self@ == put_at(old(self)@, position, replacement));
        }
        Ok(DependencyRegistrationMutation::Replaced)
    }

    /// Removes exactly the registration `expected`: its slot is emptied and its position pushed
    /// on the freed stack.
    pub fn remove_dependency_registration(
        &mut self,
        expected: DependencyRegistrationHandle,
        max_active_actors: u32,
        transactional: bool,
    ) -> (r: Result<DependencyRegistrationMutation, DependencyRegistrationError>)
        ensures
            (r, final(self)@) == spec_remove(old(self)@, expected, max_active_actors, transactional),
    {
        if !transactional {
            return Err(DependencyRegistrationError::TransactionRequired);
        }
        let id = expected.actor.actor_id;
        let stored = match self.registrations.get(&id) {
            Some(h) => *h,
            None => return Err(DependencyRegistrationError::RegistrationMissing),
        };
        if stored != expected {
            return Err(DependencyRegistrationError::CurrentRegistrationMismatch);
        }
        let position = self.dependency_registration_position(id, expected)?;
        let mut page = match self.page_copy(position.page) {
            Some(p) => p,
            None => return Err(DependencyRegistrationError::CorruptTopology),
        };
        page.set(position.slot as usize, None);
        let mut header = self.header;
        if header.count == 0 {
            return Err(DependencyRegistrationError::CorruptTopology);
        }
        header.count = header.count - 1;
        if header.free_count >= max_active_actors {
            return Err(DependencyRegistrationError::CorruptTopology);
        }
        let next_free_count = header.free_count + 1;
        self.free_positions.insert(header.free_count, position);
        header.free_count = next_free_count;
        self.pages.insert(position.page, page);
        self.header = header;
        self.positions.remove(&id);
        self.registrations.remove(&id);
        proof {
            assert(self@.pages =~= old(self)@.pages.insert(
                position.page,
                old(self)@.pages[position.page].update(position.slot as int, None),
            ));
            assert(self@ == remove_from(old(self)@, expected));
        }
        Ok(DependencyRegistrationMutation::Removed)
    }

    /// Checks the table's invariants: the header is balanced, and every registered owner (the
    /// ids in `ids`, each once) is keyed by its own Actor and sits at its recorded position, with
    /// no other recorded position.
    pub fn check_registration_table(&self, ids: &Vec<ActorId>, max_active_actors: u32) -> (r: Result<
        (),
        RegistrationTableViolation,
    >)
        requires
            ids@.no_duplicates(),
            ids@.to_set() == self@.registrations.dom(),
        ensures
            (r == Err::<(), RegistrationTableViolation>(RegistrationTableViolation::HeaderUnbalanced)) <==> !header_balanced(
                self.header,
                max_active_actors,
            ),
            (r is Ok) <==> (header_balanced(self.header, max_active_actors) && table_consistent(self@)),
    {
        proof {
            ids@.unique_seq_to_set();
        }
        if !(self.header.count as u64 + self.header.free_count as u64 == self.header.next_index
            && self.header.next_index <= max_active_actors as u64) {
            return Err(RegistrationTableViolation::HeaderUnbalanced);
        }
        if self.positions.len() != self.registrations.len() {
            proof {
                if table_consistent(self@) {
                    assert(self@.positions.dom() == self@.registrations.dom());
                }
            }
            return Err(RegistrationTableViolation::PositionsMismatch);
        }
        let mut i: usize = 0;
        while i < ids.len()
            invariant
                0 <= i <= ids@.len(),
                ids@.to_set() == self@.registrations.dom(),
                header_balanced(self.header, max_active_actors),
                self@.positions.len() == self@.registrations.len(),
                forall|j: int|
                    0 <= j < i ==> {
                        let a = #[trigger] ids@[j];
                        &&& self@.registrations[a].actor.actor_id == a
                        &&& self@.positions.contains_key(a)
                        &&& slot_at(self@.pages, self@.positions[a]) == Some(self@.registrations[a])
                    },
            decreases ids@.len() - i,
        {
            let a = ids[i];
            proof {
                assert(ids@.to_set().contains(a));
            }
            let reg = match self.registrations.get(&a) {
                Some(h) => *h,
                None => return Err(RegistrationTableViolation::RegistrationMisplaced),
            };
            let placed = reg.actor.actor_id == a && match self.positions.get(&a) {
                Some(pos) => match self.pages.get(&pos.page) {
                    Some(page) => (pos.slot as usize) < page.len() && match page[pos.slot as usize] {
                        Some(h) => h == reg,
                        None => false,
                    },
                    None => false,
                },
                None => false,
            };
            if !placed {
                proof {
                    assert(self@.registrations.contains_key(a));
                }
                return Err(RegistrationTableViolation::RegistrationMisplaced);
            }
            i = i + 1;
        }
        proof {
            assert forall|a: ActorId| #[trigger] self@.registrations.contains_key(a) implies self@.registrations[a].actor.actor_id
                == a && self@.positions.contains_key(a) && slot_at(self@.pages, self@.positions[a]) == Some(
                self@.registrations[a],
            ) by {
                assert(ids@.to_set().contains(a));
                let j = ids@.index_of(a);
                assert(ids@[j] == a);
            }
            assert(self@.registrations.dom().subset_of(self@.positions.dom()));
            vstd::set_lib::lemma_subset_equality(self@.registrations.dom(), self@.positions.dom());
        }
        Ok(())
    }
}

} // verus!
