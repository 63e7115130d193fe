//! Clock-local min-heap over nonempty deadline buckets, with an exact position index.
use std::collections::HashMap;
use vstd::prelude::*;

use crate::types::{BlockNumber, SchedulerTick};

verus! {

broadcast use vstd::std_specs::hash::group_hash_axioms;

/// Entries per physical index page.
pub const DEADLINE_INDEX_PAGE_SIZE: u32 = 32;

/// The two clocks on which deadlines are kept.
#[derive(Clone, Copy, Debug, PartialEq, Eq, Structural)]
pub enum WakeupClock {
    Block,
    Tick,
}

/// A deadline bucket key: a block height or a scheduler tick.
#[derive(Clone, Copy, Debug, PartialEq, Eq, Structural)]
pub enum WakeupKey {
    Block(BlockNumber),
    Tick(SchedulerTick),
}

impl WakeupKey {
    pub open spec fn spec_clock(self) -> WakeupClock {
        match self {
            WakeupKey::Block(_) => WakeupClock::Block,
            WakeupKey::Tick(_) => WakeupClock::Tick,
        }
    }

    /// The position of the key on its clock's axis.
    pub open spec fn spec_instant(self) -> u64 {
        match self {
            WakeupKey::Block(b) => b as u64,
            WakeupKey::Tick(t) => t,
        }
    }

    pub fn clock(&self) -> (c: WakeupClock)
        ensures
            c == self.spec_clock(),
    {
        match self {
            WakeupKey::Block(_) => WakeupClock::Block,
            WakeupKey::Tick(_) => WakeupClock::Tick,
        }
    }

    pub fn instant(&self) -> (v: u64)
        ensures
            v == self.spec_instant(),
    {
        match self {
            WakeupKey::Block(b) => *b as u64,
            WakeupKey::Tick(t) => *t,
        }
    }
}

#[derive(Clone, Copy, Debug, PartialEq, Eq, Structural)]
pub enum DeadlineIndexMutationError {
    TransactionRequired,
    LegacyAuthorityPresent,
    HeaderMissing,
    CorruptHeader,
    KeyAlreadyExists,
    CapacityExceeded,
    KeyMissing,
    StaleIndex,
    CorruptHeap,
}

/// Canonical header of one nonempty deadline bucket.
#[derive(Clone, Copy, Debug, PartialEq, Eq, Structural)]
pub struct DeadlineHeader {
    pub count: u32,
    pub page_count: u32,
    pub first_page: u64,
    pub last_page: u64,
    /// The page id the bucket allocates next.
    pub next_page: u64,
}

/// What the bucket's storage shows for one key, as read by the caller.
#[derive(Clone, Copy, Debug, PartialEq, Eq, Structural)]
pub struct DeadlineBucketWitness {
    /// A legacy waiting occupancy or cursor index is still present for the key.
    pub legacy_authority_present: bool,
    pub header: Option<DeadlineHeader>,
    pub first_page_present: bool,
    pub last_page_present: bool,
}

pub open spec fn header_is_canonical(w: DeadlineBucketWitness) -> bool {
    match w.header {
        Some(h) => h.count != 0 && h.page_count != 0 && h.count <= h.page_count * 32
            && h.first_page <= h.last_page && w.first_page_present && w.last_page_present,
        None => false,
    }
}

pub open spec fn spec_validate_deadline_index_header(w: DeadlineBucketWitness) -> Result<
    (),
    DeadlineIndexMutationError,
> {
    if w.legacy_authority_present {
        Err(DeadlineIndexMutationError::LegacyAuthorityPresent)
    } else if w.header is None {
        Err(DeadlineIndexMutationError::HeaderMissing)
    } else if !header_is_canonical(w) {
        Err(DeadlineIndexMutationError::CorruptHeader)
    } else {
        Ok(())
    }
}

/// Checks that a key names exactly one canonical, nonempty deadline bucket.
pub fn validate_deadline_index_header(w: &DeadlineBucketWitness) -> (r: Result<
    (),
    DeadlineIndexMutationError,
>)
    ensures
        r == spec_validate_deadline_index_header(*w),
{
    if w.legacy_authority_present {
        return Err(DeadlineIndexMutationError::LegacyAuthorityPresent);
    }
    match w.header {
        None => Err(DeadlineIndexMutationError::HeaderMissing),
        Some(h) => {
            if h.count == 0 || h.page_count == 0 || h.count as u64 > h.page_count as u64 * 32
                || h.first_page > h.last_page || !w.first_page_present || !w.last_page_present {
                Err(DeadlineIndexMutationError::CorruptHeader)
            } else {
                Ok(())
            }
        },
    }
}

/// Result of inserting `key` for the bucket `w` into an index of `clock` holding `view`, with
/// room for `capacity` buckets.
pub open spec fn index_insert_outcome(
    view: Set<u64>,
    clock: WakeupClock,
    capacity: u32,
    key: WakeupKey,
    w: DeadlineBucketWitness,
) -> Result<(), DeadlineIndexMutationError> {
    if spec_validate_deadline_index_header(w) is Err {
        spec_validate_deadline_index_header(w)
    } else if key.spec_clock() != clock {
        Err(DeadlineIndexMutationError::CorruptHeap)
    } else if view.contains(key.spec_instant()) {
        Err(DeadlineIndexMutationError::KeyAlreadyExists)
    } else if view.len() >= capacity {
        Err(DeadlineIndexMutationError::CapacityExceeded)
    } else {
        Ok(())
    }
}

/// Result of revalidating the indexed `key` for the bucket `w`.
pub open spec fn index_update_outcome(view: Set<u64>, clock: WakeupClock, key: WakeupKey, w: DeadlineBucketWitness) -> Result<
    (),
    DeadlineIndexMutationError,
> {
    if spec_validate_deadline_index_header(w) is Err {
        spec_validate_deadline_index_header(w)
    } else if key.spec_clock() != clock || !view.contains(key.spec_instant()) {
        Err(DeadlineIndexMutationError::KeyMissing)
    } else {
        Ok(())
    }
}

/// Result of removing `key` once its bucket `w` is gone.
pub open spec fn index_remove_outcome(view: Set<u64>, clock: WakeupClock, key: WakeupKey, w: DeadlineBucketWitness) -> Result<
    (),
    DeadlineIndexMutationError,
> {
    if w.legacy_authority_present {
        Err(DeadlineIndexMutationError::LegacyAuthorityPresent)
    } else if w.header is Some {
        Err(DeadlineIndexMutationError::CorruptHeader)
    } else if key.spec_clock() != clock || !view.contains(key.spec_instant()) {
        Err(DeadlineIndexMutationError::KeyMissing)
    } else {
        Ok(())
    }
}

/// Physical page and slot of a heap position.
pub fn deadline_index_page_and_slot(index: u32) -> (r: (u64, usize))
    ensures
        r.0 == index / 32,
        r.1 == index % 32,
        r.1 < 32,
{
    ((index / 32) as u64, (index % 32) as usize)
}

/// Number of binary digits of `max(max_active_actors, 1)`: the greatest heap height.
pub fn deadline_index_height_bound(max_active_actors: u32) -> (h: u32)
    ensures
        h == 32 - (if max_active_actors == 0 { 1u32 } else { max_active_actors }).leading_zeros(),
{
    let m = if max_active_actors == 0 { 1u32 } else { max_active_actors };
    32u32.saturating_sub(m.leading_zeros())
}

pub open spec fn parent(i: int) -> int {
    (i - 1) / 2
}

/// Every parent is at most its child.
#[verifier::opaque]
pub open spec fn heap_ordered(s: Seq<u64>) -> bool {
    forall|i: int| 0 < i < s.len() ==> s[parent(i)] <= #[trigger] s[i]
}

/// Heap order holds on every edge that does not touch `cur`.
#[verifier::opaque]
pub open spec fn heap_except(s: Seq<u64>, cur: int) -> bool {
    forall|i: int| 0 < i < s.len() && i != cur && parent(i) != cur ==> s[parent(i)] <= #[trigger] s[i]
}

/// The parent of `cur` bounds the children of `cur`.
#[verifier::opaque]
pub open spec fn bridged(s: Seq<u64>, cur: int) -> bool {
    cur > 0 ==> forall|c: int| 0 < c < s.len() && parent(c) == cur ==> s[parent(cur)] <= #[trigger] s[c]
}

/// The entry at `cur` is not earlier than its parent.
pub open spec fn parent_bounds(s: Seq<u64>, cur: int) -> bool {
    cur > 0 ==> s[parent(cur)] <= s[cur]
}

/// `cur` bounds its own children.
#[verifier::opaque]
pub open spec fn bounds_children(s: Seq<u64>, cur: int) -> bool {
    forall|c: int| 0 < c < s.len() && parent(c) == cur ==> s[cur] <= #[trigger] s[c]
}

pub open spec fn distinct(s: Seq<u64>) -> bool {
    forall|i: int, j: int| 0 <= i < s.len() && 0 <= j < s.len() && i != j ==> s[i] != s[j]
}

/// The position index maps each stored instant to its exact slot and nothing else.
pub open spec fn positions_exact(s: Seq<u64>, p: Map<u64, u32>) -> bool {
    &&& forall|i: int| 0 <= i < s.len() ==> #[trigger] p.contains_key(s[i]) && p[s[i]] == i
    &&& forall|k: u64| #[trigger] p.contains_key(k) ==> p[k] < s.len() && s[p[k] as int] == k
}

/// Clock-local min-heap of nonempty deadline buckets.
pub struct DeadlineIndex {
    clock: WakeupClock,
    capacity: u32,
    entries: Vec<u64>,
    positions: HashMap<u64, u32>,
}

impl View for DeadlineIndex {
    type V = Set<u64>;

    /// The instants of the indexed buckets.
    closed spec fn view(&self) -> Set<u64> {
        self.positions@.dom()
    }
}

impl DeadlineIndex {
    pub closed spec fn spec_entries(&self) -> Seq<u64> {
        self.entries@
    }

    pub closed spec fn spec_clock(&self) -> WakeupClock {
        self.clock
    }

    pub closed spec fn spec_capacity(&self) -> u32 {
        self.capacity
    }

    pub closed spec fn well_formed(&self) -> bool {
        &&& self.entries@.len() <= self.capacity
        &&& distinct(self.entries@)
        &&& positions_exact(self.entries@, self.positions@)
        &&& heap_ordered(self.entries@)
    }

    /// An empty index for `clock` that admits at most `capacity` buckets.
    pub fn new(clock: WakeupClock, capacity: u32) -> (r: DeadlineIndex)
        ensures
            r.well_formed(),
            r@ == Set::<u64>::empty(),
            r.spec_clock() == clock,
            r.spec_capacity() == capacity,
    {
        let r = DeadlineIndex { clock, capacity, entries: Vec::new(), positions: HashMap::new() };
        assert(r.positions@.dom() =~= Set::<u64>::empty());
        proof {
            reveal(heap_ordered);
        }
        r
    }

    pub fn len(&self) -> (n: u32)
        requires
            self.well_formed(),
        ensures
            n == self@.len(),
    {
        proof {
            self.lemma_view_is_entries();
            self.entries@.unique_seq_to_set();
        }
        self.entries.len() as u32
    }

    pub fn contains(&self, key: &WakeupKey) -> (r: bool)
        requires
            self.well_formed(),
        ensures
            r == (key.spec_clock() == self.spec_clock() && self@.contains(key.spec_instant())),
    {
        if key.clock() != self.clock {
            return false;
        }
        self.positions.contains_key(&key.instant())
    }

    /// The earliest indexed bucket of this clock.
    pub fn peek_min(&self) -> (r: Option<u64>)
        requires
            self.well_formed(),
        ensures
            r is None <==> self@.is_empty(),
            r matches Some(m) ==> self@.contains(m) && forall|k: u64| self@.contains(k) ==> m <= k,
    {
        proof {
            self.lemma_view_is_entries();
        }
        if self.entries.len() == 0 {
            proof {
                assert(self@ =~= Set::<u64>::empty());
            }
            None
        } else {
            let m = self.entries[0];
            proof {
                assert(self.positions@.contains_key(self.entries@[0]));
                assert forall|k: u64| self@.contains(k) implies m <= k by {
                    let i = self.positions@[k] as int;
                    lemma_root_is_min(self.entries@, i);
                }
                assert(self.entries@[0] == m);
            }
            Some(m)
        }
    }

    proof fn lemma_view_is_entries(&self)
        requires
            self.well_formed(),
        ensures
            self@ == self.entries@.to_set(),
            forall|k: u64| self@.contains(k) <==> self.entries@.contains(k),
    {
        let s = self.entries@;
        assert forall|k: u64| self@.contains(k) <==> s.to_set().contains(k) by {
            if self@.contains(k) {
                assert(s[self.positions@[k] as int] == k);
            }
            if s.to_set().contains(k) {
                let i = choose|i: int| 0 <= i < s.len() && s[i] == k;
                assert(self.positions@.contains_key(s[i]));
            }
        }
        assert(self@ =~= s.to_set());
    }

    /// A well-formed index is a finite set of distinct instants, laid out in its entries as a
    /// binary min-heap, each entry indexed, and no more of them than the capacity.
    pub proof fn lemma_index_shape(&self)
        requires
            self.well_formed(),
        ensures
            self@.finite(),
            self@.len() == self.spec_entries().len(),
            self.spec_entries().len() <= self.spec_capacity(),
            self.spec_entries().no_duplicates(),
            heap_ordered(self.spec_entries()),
            forall|k: u64| self@.contains(k) <==> self.spec_entries().contains(k),
    {
        self.lemma_view_is_entries();
        self.entries@.unique_seq_to_set();
    }

    /// Exchanges two heap slots and repoints both position entries.
    fn swap_slots(&mut self, a: usize, b: usize)
        requires
            a < old(self).entries@.len(),
            b < old(self).entries@.len(),
            a != b,
            distinct(old(self).entries@),
            positions_exact(old(self).entries@, old(self).positions@),
            old(self).entries@.len() <= old(self).capacity,
        ensures
            final(self).entries@ == old(self).entries@.update(a as int, old(self).entries@[b as int]).update(
                b as int,
                old(self).entries@[a as int],
            ),
            distinct(final(self).entries@),
            positions_exact(final(self).entries@, final(self).positions@),
            final(self).positions@.dom() == old(self).positions@.dom(),
            final(self).clock == old(self).clock,
            final(self).capacity == old(self).capacity,
    {
        let ka = self.entries[a];
        let kb = self.entries[b];
        self.entries.set(a, kb);
        self.entries.set(b, ka);
        self.positions.insert(kb, a as u32);
        self.positions.insert(ka, b as u32);
        proof {
            let s0 = old(self).entries@;
            let s = self.entries@;
            let p = self.positions@;
            assert forall|i: int, j: int| 0 <= i < s.len() && 0 <= j < s.len() && i != j implies s[i]
                != s[j] by {
                let oi = if i == a as int { b as int } else if i == b as int { a as int } else { i };
                let oj = if j == a as int { b as int } else if j == b as int { a as int } else { j };
                assert(s[i] == s0[oi]);
                assert(s[j] == s0[oj]);
            }
            assert forall|i: int| 0 <= i < s.len() implies #[trigger] p.contains_key(s[i]) && p[s[i]]
                == i by {
                if i == a as int {
                    assert(s[i] == kb);
                } else if i == b as int {
                    assert(s[i] == ka);
                } else {
                    assert(s[i] == s0[i]);
                    assert(s0[i] != s0[a as int] && s0[i] != s0[b as int]);
                    assert(old(self).positions@.contains_key(s0[i]));
                    assert(old(self).positions@[s0[i]] == i);
                }
            }
            assert forall|k: u64| #[trigger] p.contains_key(k) implies p[k] < s.len() && s[p[k] as int]
                == k by {
                if k != ka && k != kb {
                    assert(old(self).positions@.contains_key(k));
                    let i = old(self).positions@[k] as int;
                    assert(s0[i] == k);
                    assert(i != a as int && i != b as int);
                }
            }
            assert(p.dom() =~= old(self).positions@.dom());
        }
    }

    /// Moves the entry at `cur` towards the root while its parent is later.
    fn sift_up(&mut self, cur: usize)
        requires
            cur < old(self).entries@.len(),
            distinct(old(self).entries@),
            positions_exact(old(self).entries@, old(self).positions@),
            old(self).entries@.len() <= old(self).capacity,
            heap_except(old(self).entries@, cur as int),
            bridged(old(self).entries@, cur as int),
            bounds_children(old(self).entries@, cur as int),
        ensures
            final(self).well_formed(),
            final(self).positions@.dom() == old(self).positions@.dom(),
            final(self).clock == old(self).clock,
            final(self).capacity == old(self).capacity,
    {
        let mut cur = cur;
        loop
            invariant
                cur < self.entries@.len(),
                distinct(self.entries@),
                positions_exact(self.entries@, self.positions@),
                self.entries@.len() <= self.capacity,
                heap_except(self.entries@, cur as int),
                bridged(self.entries@, cur as int),
                bounds_children(self.entries@, cur as int),
                self.positions@.dom() == old(self).positions@.dom(),
                self.clock == old(self).clock,
                self.capacity == old(self).capacity,
            ensures
                heap_ordered(self.entries@),
                distinct(self.entries@),
                positions_exact(self.entries@, self.positions@),
                self.entries@.len() <= self.capacity,
                self.positions@.dom() == old(self).positions@.dom(),
                self.clock == old(self).clock,
                self.capacity == old(self).capacity,
            decreases cur,
        {
            if cur == 0 {
                proof {
                    lemma_settled(self.entries@, 0);
                }
                break;
            }
            let p = (cur - 1) / 2;
            if self.entries[p] <= self.entries[cur] {
                proof {
                    lemma_settled(self.entries@, cur as int);
                }
                break;
            }
            let ghost s0 = self.entries@;
            self.swap_slots(p, cur);
            proof {
                lemma_up_step(s0, cur as int);
            }
            cur = p;
        }
    }

    /// Moves the entry at `cur` towards the leaves while a child is earlier.
    fn sift_down(&mut self, cur: usize)
        requires
            cur < old(self).entries@.len(),
            distinct(old(self).entries@),
            positions_exact(old(self).entries@, old(self).positions@),
            old(self).entries@.len() <= old(self).capacity,
            heap_except(old(self).entries@, cur as int),
            bridged(old(self).entries@, cur as int),
            parent_bounds(old(self).entries@, cur as int),
        ensures
            final(self).well_formed(),
            final(self).positions@.dom() == old(self).positions@.dom(),
            final(self).clock == old(self).clock,
            final(self).capacity == old(self).capacity,
    {
        let mut cur = cur;
        let len = self.entries.len();
        loop
            invariant
                len == self.entries@.len(),
                cur < len,
                distinct(self.entries@),
                positions_exact(self.entries@, self.positions@),
                self.entries@.len() <= self.capacity,
                heap_except(self.entries@, cur as int),
                bridged(self.entries@, cur as int),
                parent_bounds(self.entries@, cur as int),
                self.positions@.dom() == old(self).positions@.dom(),
                self.clock == old(self).clock,
                self.capacity == old(self).capacity,
            ensures
                heap_ordered(self.entries@),
                distinct(self.entries@),
                positions_exact(self.entries@, self.positions@),
                self.entries@.len() <= self.capacity,
                self.positions@.dom() == old(self).positions@.dom(),
                self.clock == old(self).clock,
                self.capacity == old(self).capacity,
            decreases len - cur,
        {
            let left_wide = cur as u64 * 2 + 1;
            if left_wide >= len as u64 {
                proof {
                    lemma_leaf_settled(self.entries@, cur as int);
                }
                break;
            }
            let left = left_wide as usize;
            let right = left + 1;
            let mut smallest = left;
            if right < len && self.entries[right] < self.entries[left] {
                smallest = right;
            }
            if self.entries[cur] <= self.entries[smallest] {
                proof {
                    lemma_down_settled(self.entries@, cur as int, smallest as int);
                }
                break;
            }
            let ghost s0 = self.entries@;
            self.swap_slots(cur, smallest);
            proof {
                lemma_down_step(s0, cur as int, smallest as int);
            }
            cur = smallest;
        }
    }

    /// Inserts one nonempty canonical deadline bucket into its clock-local min-heap.
    pub fn insert_deadline_index(&mut self, key: WakeupKey, bucket: &DeadlineBucketWitness) -> (r: Result<
        (),
        DeadlineIndexMutationError,
    >)
        requires
            old(self).well_formed(),
        ensures
            final(self).well_formed(),
            final(self).spec_clock() == old(self).spec_clock(),
            final(self).spec_capacity() == old(self).spec_capacity(),
            r is Ok ==> final(self)@ == old(self)@.insert(key.spec_instant()) && final(self).spec_entries().len()
                == old(self).spec_entries().len() + 1,
            r is Err ==> final(self)@ == old(self)@ && final(self).spec_entries() == old(self).spec_entries(),
            spec_validate_deadline_index_header(*bucket) is Err ==> r == spec_validate_deadline_index_header(*bucket),
            spec_validate_deadline_index_header(*bucket) is Ok ==> r == (
                if key.spec_clock() != old(self).spec_clock() {
                    Err(DeadlineIndexMutationError::CorruptHeap)
                } else if old(self)@.contains(key.spec_instant()) {
                    Err(DeadlineIndexMutationError::KeyAlreadyExists)
                } else if old(self)@.len() >= old(self).spec_capacity() {
                    Err(DeadlineIndexMutationError::CapacityExceeded)
                } else {
                    Ok(())
                }
            ),
    {
        proof {
            self.lemma_view_is_entries();
            self.entries@.unique_seq_to_set();
        }
        validate_deadline_index_header(bucket)?;
        if key.clock() != self.clock {
            return Err(DeadlineIndexMutationError::CorruptHeap);
        }
        let instant = key.instant();
        if self.positions.contains_key(&instant) {
            return Err(DeadlineIndexMutationError::KeyAlreadyExists);
        }
        let len = self.entries.len();
        if len as u32 >= self.capacity {
            return Err(DeadlineIndexMutationError::CapacityExceeded);
        }
        let ghost s0 = self.entries@;
        self.entries.push(instant);
        self.positions.insert(instant, len as u32);
        proof {
            let s = self.entries@;
            let p = self.positions@;
            assert(!s0.contains(instant));
            assert forall|i: int, j: int| 0 <= i < s.len() && 0 <= j < s.len() && i != j implies s[i]
                != s[j] by {
                if i < s0.len() && j < s0.len() {
                    assert(s[i] == s0[i] && s[j] == s0[j]);
                } else if i < s0.len() {
                    assert(s[i] == s0[i]);
                } else if j < s0.len() {
                    assert(s[j] == s0[j]);
                }
            }
            assert forall|i: int| 0 <= i < s.len() implies #[trigger] p.contains_key(s[i]) && p[s[i]] == i by {
                if i < s0.len() {
                    assert(s[i] == s0[i]);
                    assert(old(self).positions@.contains_key(s0[i]));
                    assert(s0[i] != instant);
                }
            }
            assert forall|k: u64| #[trigger] p.contains_key(k) implies p[k] < s.len() && s[p[k] as int] == k by {
                if k != instant {
                    assert(old(self).positions@.contains_key(k));
                }
            }
            assert(s == s0.push(instant));
            lemma_push_prepared(s0, instant);
        }
        self.sift_up(len);
        proof {
            assert(self.positions@.dom() =~= old(self).positions@.dom().insert(instant));
            old(self).lemma_index_shape();
            self.lemma_index_shape();
        }
        Ok(())
    }

    /// Revalidates one indexed nonempty bucket against its neighbours.
    pub fn update_deadline_index(&self, key: WakeupKey, bucket: &DeadlineBucketWitness) -> (r: Result<
        (),
        DeadlineIndexMutationError,
    >)
        requires
            self.well_formed(),
        ensures
            spec_validate_deadline_index_header(*bucket) is Err ==> r == spec_validate_deadline_index_header(*bucket),
            spec_validate_deadline_index_header(*bucket) is Ok ==> r == (
                if key.spec_clock() != self.spec_clock() || !self@.contains(key.spec_instant()) {
                    Err(DeadlineIndexMutationError::KeyMissing)
                } else {
                    Ok(())
                }
            ),
    {
        validate_deadline_index_header(bucket)?;
        if key.clock() != self.clock {
            return Err(DeadlineIndexMutationError::KeyMissing);
        }
        let instant = key.instant();
        let index = match self.positions.get(&instant) {
            Some(i) => *i,
            None => return Err(DeadlineIndexMutationError::KeyMissing),
        };
        let len = self.entries.len();
        if index as usize >= len || self.entries[index as usize] != instant {
            return Err(DeadlineIndexMutationError::StaleIndex);
        }
        proof {
            reveal(heap_ordered);
            let s = self.entries@;
            let x = index as int;
            assert(s[x] == instant);
            if 2 * x + 1 < s.len() {
                assert(parent(2 * x + 1) == x);
                assert(s[parent(2 * x + 1)] <= s[2 * x + 1]);
            }
            if 2 * x + 2 < s.len() {
                assert(parent(2 * x + 2) == x);
                assert(s[parent(2 * x + 2)] <= s[2 * x + 2]);
            }
            if x > 0 {
                assert(s[parent(x)] <= s[x]);
            }
        }
        if index > 0 {
            let p = (index - 1) / 2;
            if self.entries[p as usize] > instant {
                return Err(DeadlineIndexMutationError::CorruptHeap);
            }
        }
        let left = index as u64 * 2 + 1;
        if left < len as u64 && self.entries[left as usize] < instant {
            return Err(DeadlineIndexMutationError::CorruptHeap);
        }
        let right = left + 1;
        if right < len as u64 && self.entries[right as usize] < instant {
            return Err(DeadlineIndexMutationError::CorruptHeap);
        }
        Ok(())
    }

    /// Removes one exact bucket after its canonical header has been deleted.
    pub fn remove_deadline_index(&mut self, key: WakeupKey, bucket: &DeadlineBucketWitness) -> (r: Result<
        (),
        DeadlineIndexMutationError,
    >)
        requires
            old(self).well_formed(),
        ensures
            final(self).well_formed(),
            final(self).spec_clock() == old(self).spec_clock(),
            final(self).spec_capacity() == old(self).spec_capacity(),
            r is Ok ==> final(self)@ == old(self)@.remove(key.spec_instant()) && final(self).spec_entries().len() + 1
                == old(self).spec_entries().len(),
            r is Err ==> final(self)@ == old(self)@ && final(self).spec_entries() == old(self).spec_entries(),
            r == (if bucket.legacy_authority_present {
                Err(DeadlineIndexMutationError::LegacyAuthorityPresent)
            } else if bucket.header is Some {
                Err(DeadlineIndexMutationError::CorruptHeader)
            } else if key.spec_clock() != old(self).spec_clock() || !old(self)@.contains(key.spec_instant()) {
                Err(DeadlineIndexMutationError::KeyMissing)
            } else {
                Ok(())
            }),
    {
        if bucket.legacy_authority_present {
            return Err(DeadlineIndexMutationError::LegacyAuthorityPresent);
        }
        if bucket.header.is_some() {
            return Err(DeadlineIndexMutationError::CorruptHeader);
        }
        if key.clock() != self.clock {
            return Err(DeadlineIndexMutationError::KeyMissing);
        }
        let instant = key.instant();
        let index = match self.positions.get(&instant) {
            Some(i) => *i as usize,
            None => return Err(DeadlineIndexMutationError::KeyMissing),
        };
        let len = self.entries.len();
        let last = len - 1;
        let ghost s0 = self.entries@;
        if index != last {
            self.swap_slots(index, last);
        }
        let ghost s1 = self.entries@;
        let ghost p1 = self.positions@;
        let _ = self.entries.pop();
        self.positions.remove(&instant);
        proof {
            let s = self.entries@;
            let p = self.positions@;
            assert(s1[last as int] == instant);
            assert(s =~= s1.subrange(0, last as int));
            assert forall|i: int, j: int| 0 <= i < s.len() && 0 <= j < s.len() && i != j implies s[i]
                != s[j] by {
                assert(s[i] == s1[i] && s[j] == s1[j]);
            }
            assert forall|i: int| 0 <= i < s.len() implies #[trigger] p.contains_key(s[i]) && p[s[i]] == i by {
                assert(s[i] == s1[i]);
                assert(p1.contains_key(s1[i]));
                assert(s1[i] != s1[last as int]);
            }
            assert forall|k: u64| #[trigger] p.contains_key(k) implies p[k] < s.len() && s[p[k] as int] == k by {
                assert(k != instant);
                let q = p[k] as int;
                assert(s1[q] == k);
                assert(q != last as int);
            }
            assert(p.dom() =~= old(self).positions@.dom().remove(instant));
        }
        if index == last {
            proof {
                assert(self.entries@ =~= s0.subrange(0, last as int));
                lemma_truncate_ordered(s0, last as int);
                old(self).lemma_index_shape();
                self.lemma_index_shape();
            }
            return Ok(());
        }
        proof {
            assert(self.entries@ =~= swap_seq(s0, index as int, last as int).subrange(0, last as int));
            lemma_remove_prepared(s0, index as int);
        }
        if index > 0 && self.entries[(index - 1) / 2] > self.entries[index] {
            proof {
                lemma_remove_up_bounds(s0, index as int);
            }
            self.sift_up(index);
        } else {
            self.sift_down(index);
        }
        proof {
            old(self).lemma_index_shape();
            self.lemma_index_shape();
        }
        Ok(())
    }
}

proof fn lemma_push_prepared(s0: Seq<u64>, x: u64)
    requires
        heap_ordered(s0),
    ensures
        heap_except(s0.push(x), s0.len() as int),
        bridged(s0.push(x), s0.len() as int),
        bounds_children(s0.push(x), s0.len() as int),
{
    reveal(heap_ordered);
    reveal(heap_except);
    reveal(bridged);
    reveal(bounds_children);
    let s = s0.push(x);
    let n = s0.len() as int;
    assert forall|i: int| 0 < i < s.len() && i != n && parent(i) != n implies s[parent(i)] <= #[trigger] s[i] by {
        assert(s[i] == s0[i]);
        assert(s0[parent(i)] <= s0[i]);
    }
    assert forall|c: int| 0 < c < s.len() && parent(c) == n implies s[n] <= #[trigger] s[c] by {
        assert(c >= 2 * n + 1);
    }
    assert forall|c: int| 0 < c < s.len() && parent(c) == n implies s[parent(n)] <= #[trigger] s[c] by {
        assert(c >= 2 * n + 1);
    }
}

proof fn lemma_truncate_ordered(s0: Seq<u64>, n: int)
    requires
        heap_ordered(s0),
        0 <= n <= s0.len(),
    ensures
        heap_ordered(s0.subrange(0, n)),
{
    reveal(heap_ordered);
    let s = s0.subrange(0, n);
    assert forall|i: int| 0 < i < s.len() implies s[parent(i)] <= #[trigger] s[i] by {
        assert(s0[parent(i)] <= s0[i]);
    }
}

proof fn lemma_remove_prepared(s0: Seq<u64>, x: int)
    requires
        heap_ordered(s0),
        0 <= x < s0.len() - 1,
    ensures
        heap_except(swap_seq(s0, x, s0.len() - 1).subrange(0, s0.len() - 1), x),
        bridged(swap_seq(s0, x, s0.len() - 1).subrange(0, s0.len() - 1), x),
{
    reveal(heap_ordered);
    reveal(heap_except);
    reveal(bridged);
    let last = s0.len() - 1;
    let s = swap_seq(s0, x, last).subrange(0, last);
    assert(s.len() == last);
    assert forall|i: int| 0 <= i < last && i != x implies #[trigger] s[i] == s0[i] by {}
    assert(s[x] == s0[last]);
    assert forall|i: int| 0 < i < s.len() && i != x && parent(i) != x implies s[parent(i)] <= #[trigger] s[i] by {
        assert(s[i] == s0[i]);
        assert(s[parent(i)] == s0[parent(i)]);
        assert(s0[parent(i)] <= s0[i]);
    }
    if x > 0 {
        assert forall|c: int| 0 < c < s.len() && parent(c) == x implies s[parent(x)] <= #[trigger] s[c] by {
            assert(s[c] == s0[c]);
            assert(s[parent(x)] == s0[parent(x)]);
            assert(s0[parent(x)] <= s0[x]);
            assert(s0[x] <= s0[c]);
        }
    }
}

proof fn lemma_remove_up_bounds(s0: Seq<u64>, x: int)
    requires
        heap_ordered(s0),
        0 < x < s0.len() - 1,
        swap_seq(s0, x, s0.len() - 1).subrange(0, s0.len() - 1)[parent(x)]
            > swap_seq(s0, x, s0.len() - 1).subrange(0, s0.len() - 1)[x],
    ensures
        bounds_children(swap_seq(s0, x, s0.len() - 1).subrange(0, s0.len() - 1), x),
{
    reveal(heap_ordered);
    reveal(bounds_children);
    let last = s0.len() - 1;
    let s = swap_seq(s0, x, last).subrange(0, last);
    assert forall|c: int| 0 < c < s.len() && parent(c) == x implies s[x] <= #[trigger] s[c] by {
        assert(s[c] == s0[c]);
        assert(s[parent(x)] == s0[parent(x)]);
        assert(s0[parent(x)] <= s0[x]);
        assert(s0[x] <= s0[c]);
    }
}

pub open spec fn swap_seq(s: Seq<u64>, a: int, b: int) -> Seq<u64> {
    s.update(a, s[b]).update(b, s[a])
}

proof fn lemma_settled(s: Seq<u64>, cur: int)
    requires
        0 <= cur < s.len(),
        heap_except(s, cur),
        bounds_children(s, cur),
        parent_bounds(s, cur),
    ensures
        heap_ordered(s),
{
    reveal(heap_except);
    reveal(bounds_children);
    reveal(heap_ordered);
    assert forall|i: int| 0 < i < s.len() implies s[parent(i)] <= #[trigger] s[i] by {
        if i == cur {
        } else if parent(i) == cur {
        }
    }
}

proof fn lemma_leaf_settled(s: Seq<u64>, cur: int)
    requires
        0 <= cur < s.len(),
        2 * cur + 1 >= s.len(),
        heap_except(s, cur),
        parent_bounds(s, cur),
    ensures
        heap_ordered(s),
{
    reveal(bounds_children);
    assert(bounds_children(s, cur)) by {
        assert forall|c: int| 0 < c < s.len() && parent(c) == cur implies s[cur] <= #[trigger] s[c] by {
            assert(c >= 2 * cur + 1);
        }
    }
    lemma_settled(s, cur);
}

proof fn lemma_down_settled(s: Seq<u64>, cur: int, m: int)
    requires
        0 <= cur < s.len(),
        m == 2 * cur + 1 || m == 2 * cur + 2,
        0 < m < s.len(),
        2 * cur + 2 < s.len() ==> s[m] <= s[2 * cur + 2],
        s[m] <= s[2 * cur + 1],
        s[cur] <= s[m],
        heap_except(s, cur),
        parent_bounds(s, cur),
    ensures
        heap_ordered(s),
{
    reveal(bounds_children);
    assert(bounds_children(s, cur)) by {
        assert forall|c: int| 0 < c < s.len() && parent(c) == cur implies s[cur] <= #[trigger] s[c] by {
            assert(c == 2 * cur + 1 || c == 2 * cur + 2);
        }
    }
    lemma_settled(s, cur);
}

proof fn lemma_up_step(s0: Seq<u64>, c: int)
    requires
        0 < c < s0.len(),
        heap_except(s0, c),
        bridged(s0, c),
        bounds_children(s0, c),
        s0[parent(c)] > s0[c],
    ensures
        heap_except(swap_seq(s0, parent(c), c), parent(c)),
        bridged(swap_seq(s0, parent(c), c), parent(c)),
        bounds_children(swap_seq(s0, parent(c), c), parent(c)),
{
    reveal(heap_except);
    reveal(bridged);
    reveal(bounds_children);
    let pi = parent(c);
    let s = swap_seq(s0, pi, c);
    assert(s[pi] == s0[c]);
    assert(s[c] == s0[pi]);
    assert forall|i: int| 0 < i < s.len() && i != pi && parent(i) != pi implies s[parent(i)] <= #[trigger] s[i] by {
        if i == c {
        } else if parent(i) == c {
            assert(s0[i] == s[i]);
        } else {
            assert(s0[i] == s[i]);
            assert(s0[parent(i)] <= s0[i]);
        }
    }
    if pi > 0 {
        assert forall|ch: int| 0 < ch < s.len() && parent(ch) == pi implies s[parent(pi)] <= #[trigger] s[ch] by {
            assert(s0[parent(pi)] <= s0[pi]);
            if ch != c {
                assert(s0[ch] == s[ch]);
                assert(s0[pi] <= s0[ch]);
            }
        }
    }
    assert forall|ch: int| 0 < ch < s.len() && parent(ch) == pi implies s[pi] <= #[trigger] s[ch] by {
        if ch != c {
            assert(s0[ch] == s[ch]);
            assert(s0[pi] <= s0[ch]);
        }
    }
}

proof fn lemma_down_step(s0: Seq<u64>, c: int, m: int)
    requires
        0 <= c < s0.len(),
        m == 2 * c + 1 || m == 2 * c + 2,
        0 < m < s0.len(),
        2 * c + 2 < s0.len() ==> s0[m] <= s0[2 * c + 2],
        s0[m] <= s0[2 * c + 1],
        s0[m] < s0[c],
        heap_except(s0, c),
        bridged(s0, c),
        parent_bounds(s0, c),
    ensures
        heap_except(swap_seq(s0, c, m), m),
        bridged(swap_seq(s0, c, m), m),
        parent_bounds(swap_seq(s0, c, m), m),
{
    reveal(heap_except);
    reveal(bridged);
    let s = swap_seq(s0, c, m);
    assert(parent(m) == c);
    assert(s[c] == s0[m]);
    assert(s[m] == s0[c]);
    assert forall|i: int| 0 < i < s.len() && i != m && parent(i) != m implies s[parent(i)] <= #[trigger] s[i] by {
        if i == c {
            assert(s0[parent(c)] <= s0[c]);
            assert(s0[parent(c)] <= s0[m]);
        } else if parent(i) == c {
            assert(i == 2 * c + 1 || i == 2 * c + 2);
            assert(s0[i] == s[i]);
        } else {
            assert(s0[i] == s[i]);
            assert(s0[parent(i)] <= s0[i]);
        }
    }
    assert forall|ch: int| 0 < ch < s.len() && parent(ch) == m implies s[parent(m)] <= #[trigger] s[ch] by {
        assert(s0[ch] == s[ch]);
        assert(s0[m] <= s0[ch]);
    }
}

/// In a heap-ordered sequence the root is at most every element.
pub proof fn lemma_root_is_min(s: Seq<u64>, i: int)
    requires
        heap_ordered(s),
        0 <= i < s.len(),
    ensures
        s[0] <= s[i],
    decreases i,
{
    reveal(heap_ordered);
    if i > 0 {
        lemma_root_is_min(s, parent(i));
    }
}

} // verus!
