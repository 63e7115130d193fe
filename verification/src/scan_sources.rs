//! The fair scan selector: a circular, doubly linked list of the dependency sources whose
//! registrations are being scanned, keyed by source id.
use std::collections::HashMap;
use vstd::prelude::*;

verus! {

broadcast use vstd::std_specs::hash::group_hash_axioms;

/// Identifier of a dependency source.
pub type DependencySourceId = u64;

/// The links of one source in the selector.
#[derive(Clone, Copy, Debug, PartialEq, Eq, Structural)]
pub struct DependencyScanSourceNode {
    pub previous: DependencySourceId,
    pub next: DependencySourceId,
}

/// Selector header: the number of sources and the cursor.
#[derive(Clone, Copy, Debug, PartialEq, Eq, Structural)]
pub struct DependencyScanSourceList {
    pub count: u32,
    pub cursor: Option<DependencySourceId>,
}

#[derive(Clone, Copy, Debug, PartialEq, Eq, Structural)]
pub enum DependencyScanSourceError {
    TransactionRequired,
    ScanInactive,
    Missing,
    CapacityExceeded,
    CorruptTopology,
}

#[derive(Clone, Copy, Debug, PartialEq, Eq, Structural)]
pub enum DependencyScanSourceMutation {
    AlreadyActive,
    Inserted,
    Removed,
}

/// The selector as stored.
pub struct DependencyScanSources {
    pub list: DependencyScanSourceList,
    pub nodes: HashMap<DependencySourceId, DependencyScanSourceNode>,
}

/// Most sources the selector holds: one per Step of every active Actor, saturated.
pub open spec fn spec_scan_capacity(max_active_actors: u32, max_contract_steps: u32) -> u32 {
    if max_active_actors * max_contract_steps > u32::MAX {
        u32::MAX
    } else {
        (max_active_actors * max_contract_steps) as u32
    }
}

/// Most sources the selector holds.
pub fn dependency_scan_source_capacity(max_active_actors: u32, max_contract_steps: u32) -> (c: u32)
    ensures
        c == spec_scan_capacity(max_active_actors, max_contract_steps),
{
    let a = max_active_actors as u64;
    let b = max_contract_steps as u64;
    assert(a * b <= 0xffff_ffff * 0xffff_ffff) by (nonlinear_arith)
        requires
            a <= 0xffff_ffff,
            b <= 0xffff_ffff,
    ;
    let product = a * b;
    if product > u32::MAX as u64 {
        u32::MAX
    } else {
        product as u32
    }
}

// ---------------------------------------------------------------------------------------------
// The abstract order.
// ---------------------------------------------------------------------------------------------

pub open spec fn cyc_succ(s: Seq<DependencySourceId>, i: int) -> DependencySourceId {
    if i + 1 < s.len() {
        s[i + 1]
    } else {
        s[0]
    }
}

pub open spec fn cyc_pred(s: Seq<DependencySourceId>, i: int) -> DependencySourceId {
    if i > 0 {
        s[i - 1]
    } else {
        s[s.len() - 1]
    }
}

/// The node of the source at position `i` links to its circular neighbours.
pub open spec fn source_linked(m: Map<DependencySourceId, DependencyScanSourceNode>, s: Seq<DependencySourceId>, i: int) -> bool {
    &&& m.contains_key(s[i])
    &&& m[s[i]].next == cyc_succ(s, i)
    &&& m[s[i]].previous == cyc_pred(s, i)
}

/// Header and nodes hold exactly the circular order `s`, starting at the cursor.
pub open spec fn selector_shape(
    l: DependencyScanSourceList,
    m: Map<DependencySourceId, DependencyScanSourceNode>,
    s: Seq<DependencySourceId>,
) -> bool {
    &&& l.count == s.len()
    &&& (s.len() == 0 <==> l.cursor is None)
    &&& s.len() > 0 ==> l.cursor == Some(s[0])
    &&& s.no_duplicates()
    &&& forall|i: int| 0 <= i < s.len() ==> #[trigger] source_linked(m, s, i)
    &&& forall|k: DependencySourceId| #[trigger] m.contains_key(k) ==> s.contains(k)
}

// ---------------------------------------------------------------------------------------------
// Insertion and removal.
// ---------------------------------------------------------------------------------------------

/// The refusal or short answer, if any, of inserting `source`.
pub open spec fn insert_outcome(
    l: DependencyScanSourceList,
    m: Map<DependencySourceId, DependencyScanSourceNode>,
    source: DependencySourceId,
    scan_active: bool,
    capacity: u32,
    transactional: bool,
) -> Option<Result<DependencyScanSourceMutation, DependencyScanSourceError>> {
    let c = l.cursor->Some_0;
    let tail = m[c].previous;
    if !transactional {
        Some(Err(DependencyScanSourceError::TransactionRequired))
    } else if !scan_active {
        Some(Err(DependencyScanSourceError::ScanInactive))
    } else if m.contains_key(source) {
        Some(Ok(DependencyScanSourceMutation::AlreadyActive))
    } else if l.count >= capacity {
        Some(Err(DependencyScanSourceError::CapacityExceeded))
    } else if l.cursor is None {
        if l.count != 0 {
            Some(Err(DependencyScanSourceError::CorruptTopology))
        } else {
            None
        }
    } else if !m.contains_key(c) {
        Some(Err(DependencyScanSourceError::CorruptTopology))
    } else if l.count == 1 {
        if tail != c || m[c].next != c {
            Some(Err(DependencyScanSourceError::CorruptTopology))
        } else {
            None
        }
    } else if !m.contains_key(tail) || m[tail].next != c {
        Some(Err(DependencyScanSourceError::CorruptTopology))
    } else if l.count == u32::MAX {
        Some(Err(DependencyScanSourceError::CapacityExceeded))
    } else {
        None
    }
}

/// Header and nodes after `source` joins just before the cursor.
pub open spec fn insert_result(
    l: DependencyScanSourceList,
    m: Map<DependencySourceId, DependencyScanSourceNode>,
    source: DependencySourceId,
) -> (DependencyScanSourceList, Map<DependencySourceId, DependencyScanSourceNode>) {
    match l.cursor {
        None => (
            DependencyScanSourceList { count: (l.count + 1) as u32, cursor: Some(source) },
            m.insert(source, DependencyScanSourceNode { previous: source, next: source }),
        ),
        Some(c) => {
            let tail = m[c].previous;
            let linked = if l.count == 1 {
                m.insert(c, DependencyScanSourceNode { previous: source, next: source })
            } else {
                m.insert(tail, DependencyScanSourceNode { next: source, ..m[tail] }).insert(
                    c,
                    DependencyScanSourceNode { previous: source, ..m[c] },
                )
            };
            (
                DependencyScanSourceList { count: (l.count + 1) as u32, cursor: l.cursor },
                linked.insert(source, DependencyScanSourceNode { previous: tail, next: c }),
            )
        },
    }
}

/// The refusal, if any, of removing `source`.
pub open spec fn remove_refusal(
    l: DependencyScanSourceList,
    m: Map<DependencySourceId, DependencyScanSourceNode>,
    source: DependencySourceId,
    scan_active: bool,
    transactional: bool,
) -> Option<DependencyScanSourceError> {
    let node = m[source];
    if !transactional {
        Some(DependencyScanSourceError::TransactionRequired)
    } else if scan_active {
        Some(DependencyScanSourceError::ScanInactive)
    } else if !m.contains_key(source) {
        Some(DependencyScanSourceError::Missing)
    } else if l.count == 0 || l.cursor is None {
        Some(DependencyScanSourceError::CorruptTopology)
    } else if l.count == 1 {
        if l.cursor != Some(source) || node.previous != source || node.next != source {
            Some(DependencyScanSourceError::CorruptTopology)
        } else {
            None
        }
    } else if l.count == 2 {
        if node.previous != node.next || !m.contains_key(node.next) || m[node.next].previous != source
            || m[node.next].next != source {
            Some(DependencyScanSourceError::CorruptTopology)
        } else {
            None
        }
    } else if !m.contains_key(node.previous) || !m.contains_key(node.next) || m[node.previous].next != source
        || m[node.next].previous != source {
        Some(DependencyScanSourceError::CorruptTopology)
    } else {
        None
    }
}

/// Header and nodes after `source` is unlinked.
pub open spec fn remove_result(
    l: DependencyScanSourceList,
    m: Map<DependencySourceId, DependencyScanSourceNode>,
    source: DependencySourceId,
) -> (DependencyScanSourceList, Map<DependencySourceId, DependencyScanSourceNode>) {
    let node = m[source];
    let moved = if l.cursor == Some(source) {
        Some(node.next)
    } else {
        l.cursor
    };
    if l.count == 1 {
        (DependencyScanSourceList { count: 0, cursor: None }, m.remove(source))
    } else if l.count == 2 {
        (
            DependencyScanSourceList { count: 1, cursor: moved },
            m.insert(node.next, DependencyScanSourceNode { previous: node.next, next: node.next }).remove(source),
        )
    } else {
        (
            DependencyScanSourceList { count: (l.count - 1) as u32, cursor: moved },
            m.insert(node.previous, DependencyScanSourceNode { next: node.next, ..m[node.previous] }).insert(
                node.next,
                DependencyScanSourceNode { previous: node.previous, ..m[node.next] },
            ).remove(source),
        )
    }
}

impl DependencyScanSources {
    pub fn new() -> (r: Self)
        ensures
            r.list == (DependencyScanSourceList { count: 0, cursor: None }),
            r.nodes@ == Map::<DependencySourceId, DependencyScanSourceNode>::empty(),
    {
        DependencyScanSources { list: DependencyScanSourceList { count: 0, cursor: None }, nodes: HashMap::new() }
    }

    fn node_of(&self, id: DependencySourceId) -> (r: Option<DependencyScanSourceNode>)
        ensures
            r == if self.nodes@.contains_key(id) { Some(self.nodes@[id]) } else { None },
    {
        match self.nodes.get(&id) {
            Some(n) => Some(*n),
            None => None,
        }
    }

    /// Adds a source whose scan is active just before the cursor; a source already present is
    /// left as it is.
    pub fn insert_dependency_scan_source(
        &mut self,
        source: DependencySourceId,
        scan_active: bool,
        capacity: u32,
        transactional: bool,
    ) -> (r: Result<DependencyScanSourceMutation, DependencyScanSourceError>)
        ensures
            match insert_outcome(old(self).list, old(self).nodes@, source, scan_active, capacity, transactional) {
                Some(answer) => r == answer && final(self).list == old(self).list && final(self).nodes@ == old(
                    self,
                ).nodes@,
                None => r == Ok::<DependencyScanSourceMutation, DependencyScanSourceError>(
                    DependencyScanSourceMutation::Inserted,
                ) && (final(self).list, final(self).nodes@) == insert_result(old(self).list, old(self).nodes@, source),
            },
    {
        if !transactional {
            return Err(DependencyScanSourceError::TransactionRequired);
        }
        if !scan_active {
            return Err(DependencyScanSourceError::ScanInactive);
        }
        if self.nodes.contains_key(&source) {
            return Ok(DependencyScanSourceMutation::AlreadyActive);
        }
        let mut list = self.list;
        if list.count >= capacity {
            return Err(DependencyScanSourceError::CapacityExceeded);
        }
        match list.cursor {
            None => {
                if list.count != 0 {
                    return Err(DependencyScanSourceError::CorruptTopology);
                }
                self.nodes.insert(source, DependencyScanSourceNode { previous: source, next: source });
                list.cursor = Some(source);
            },
            Some(cursor) => {
                let mut cursor_node = match self.node_of(cursor) {
                    Some(n) => n,
                    None => return Err(DependencyScanSourceError::CorruptTopology),
                };
                let tail = cursor_node.previous;
                if list.count == 1 {
                    if tail != cursor || cursor_node.next != cursor {
                        return Err(DependencyScanSourceError::CorruptTopology);
                    }
                    cursor_node.previous = source;
                    cursor_node.next = source;
                    self.nodes.insert(cursor, cursor_node);
                } else {
                    let mut tail_node = match self.node_of(tail) {
                        Some(n) => n,
                        None => return Err(DependencyScanSourceError::CorruptTopology),
                    };
                    if tail_node.next != cursor {
                        return Err(DependencyScanSourceError::CorruptTopology);
                    }
                    if list.count == u32::MAX {
                        return Err(DependencyScanSourceError::CapacityExceeded);
                    }
                    tail_node.next = source;
                    cursor_node.previous = source;
                    self.nodes.insert(tail, tail_node);
                    self.nodes.insert(cursor, cursor_node);
                }
                self.nodes.insert(source, DependencyScanSourceNode { previous: tail, next: cursor });
            },
        }
        list.count = list.count + 1;
        self.list = list;
        Ok(DependencyScanSourceMutation::Inserted)
    }

    /// Removes a source whose scan has ended; a cursor on it moves to its successor.
    pub fn remove_dependency_scan_source(
        &mut self,
        source: DependencySourceId,
        scan_active: bool,
        transactional: bool,
    ) -> (r: Result<DependencyScanSourceMutation, DependencyScanSourceError>)
        ensures
            match remove_refusal(old(self).list, old(self).nodes@, source, scan_active, transactional) {
                Some(e) => r == Err::<DependencyScanSourceMutation, DependencyScanSourceError>(e) && final(self).list
                    == old(self).list && final(self).nodes@ == old(self).nodes@,
                None => r == Ok::<DependencyScanSourceMutation, DependencyScanSourceError>(
                    DependencyScanSourceMutation::Removed,
                ) && (final(self).list, final(self).nodes@) == remove_result(old(self).list, old(self).nodes@, source),
            },
    {
        if !transactional {
            return Err(DependencyScanSourceError::TransactionRequired);
        }
        if scan_active {
            return Err(DependencyScanSourceError::ScanInactive);
        }
        let node = match self.node_of(source) {
            Some(n) => n,
            None => return Err(DependencyScanSourceError::Missing),
        };
        let mut list = self.list;
        let cursor = match list.cursor {
            Some(c) => c,
            None => return Err(DependencyScanSourceError::CorruptTopology),
        };
        if list.count == 0 {
            return Err(DependencyScanSourceError::CorruptTopology);
        }
        if list.count == 1 {
            if cursor != source || node.previous != source || node.next != source {
                return Err(DependencyScanSourceError::CorruptTopology);
            }
            list.cursor = None;
        } else if list.count == 2 {
            if node.previous != node.next {
                return Err(DependencyScanSourceError::CorruptTopology);
            }
            let survivor = node.next;
            let survivor_node = match self.node_of(survivor) {
                Some(n) => n,
                None => return Err(DependencyScanSourceError::CorruptTopology),
            };
            if survivor_node.previous != source || survivor_node.next != source {
                return Err(DependencyScanSourceError::CorruptTopology);
            }
            self.nodes.insert(survivor, DependencyScanSourceNode { previous: survivor, next: survivor });
            if cursor == source {
                list.cursor = Some(survivor);
            }
        } else {
            let mut previous = match self.node_of(node.previous) {
                Some(n) => n,
                None => return Err(DependencyScanSourceError::CorruptTopology),
            };
            let mut next = match self.node_of(node.next) {
                Some(n) => n,
                None => return Err(DependencyScanSourceError::CorruptTopology),
            };
            if previous.next != source || next.previous != source {
                return Err(DependencyScanSourceError::CorruptTopology);
            }
            previous.next = node.next;
            next.previous = node.previous;
            self.nodes.insert(node.previous, previous);
            self.nodes.insert(node.next, next);
            if cursor == source {
                list.cursor = Some(node.next);
            }
        }
        list.count = list.count - 1;
        self.nodes.remove(&source);
        self.list = list;
        Ok(DependencyScanSourceMutation::Removed)
    }
}


// ---------------------------------------------------------------------------------------------
// Laws of the selector.
// ---------------------------------------------------------------------------------------------

/// Inserting a new source into a well-formed selector within its capacity succeeds, and the
/// source joins at the end of the rotation.
pub proof fn lemma_scan_insert_appends(
    l: DependencyScanSourceList,
    m: Map<DependencySourceId, DependencyScanSourceNode>,
    s: Seq<DependencySourceId>,
    source: DependencySourceId,
    capacity: u32,
)
    requires
        selector_shape(l, m, s),
        !m.contains_key(source),
        l.count < capacity,
    ensures
        insert_outcome(l, m, source, true, capacity, true) is None,
        selector_shape(insert_result(l, m, source).0, insert_result(l, m, source).1, s.push(source)),
{
    let n = s.len() as int;
    let (l1, m1) = insert_result(l, m, source);
    let s1 = s.push(source);
    assert forall|i: int| 0 <= i < n implies s[i] != source by {
        assert(source_linked(m, s, i));
    }
    assert(!s.contains(source));
    if n == 0 {
        assert(m =~= Map::<DependencySourceId, DependencyScanSourceNode>::empty()) by {
            assert forall|k: DependencySourceId| !m.contains_key(k) by {
                if m.contains_key(k) {
                    assert(s.contains(k));
                }
            }
        }
        assert(s1 =~= seq![source]);
        assert(source_linked(m1, s1, 0));
    } else {
        let c = s[0];
        let t = s[n - 1];
        assert(source_linked(m, s, 0));
        assert(source_linked(m, s, n - 1));
        if n > 1 {
            assert(t != c);
        }
        assert forall|i: int| 0 <= i < n + 1 implies #[trigger] source_linked(m1, s1, i) by {
            if i == n {
                assert(s1[i] == source);
            } else if i == 0 {
                assert(s1[0] == c);
                if n == 1 {
                    assert(cyc_succ(s1, 0) == source);
                }
            } else if i == n - 1 {
                assert(s1[i] == t);
                assert(source_linked(m, s, i));
                assert(cyc_pred(s1, i) == s[i - 1]);
            } else {
                assert(source_linked(m, s, i));
                assert(s1[i] == s[i]);
                assert(s[i] != c && s[i] != t);
                assert(cyc_succ(s1, i) == s[i + 1]);
                assert(cyc_pred(s1, i) == s[i - 1]);
            }
        }
        assert forall|k: DependencySourceId| #[trigger] m1.contains_key(k) implies s1.contains(k) by {
            if k == source {
                assert(s1[n] == source);
            } else {
                assert(s.contains(k));
                let i = choose|i: int| 0 <= i < n && s[i] == k;
                assert(s1[i] == s[i]);
            }
        }
        assert(s1.no_duplicates()) by {
            assert forall|i: int, j: int| 0 <= i < n + 1 && 0 <= j < n + 1 && i != j implies s1[i] != s1[j] by {
                if i < n && j < n {
                    assert(s1[i] == s[i] && s1[j] == s[j]);
                } else if i < n {
                    assert(s1[i] == s[i]);
                    assert(s.contains(s[i]));
                } else if j < n {
                    assert(s1[j] == s[j]);
                    assert(s.contains(s[j]));
                }
            }
        }
        assert(s1[0] == c);
    }
}

/// Removing a source of a well-formed selector whose scan has ended succeeds and leaves the
/// rotation without that source.
pub proof fn lemma_scan_remove_unlinks(
    l: DependencyScanSourceList,
    m: Map<DependencySourceId, DependencyScanSourceNode>,
    s: Seq<DependencySourceId>,
    i: int,
)
    requires
        selector_shape(l, m, s),
        0 <= i < s.len(),
    ensures
        remove_refusal(l, m, s[i], false, true) is None,
        selector_shape(remove_result(l, m, s[i]).0, remove_result(l, m, s[i]).1, s.remove(i)),
{
    let n = s.len() as int;
    let source = s[i];
    let (l1, m1) = remove_result(l, m, source);
    let s1 = s.remove(i);
    assert(source_linked(m, s, i));
    let ip = if i > 0 { i - 1 } else { n - 1 };
    let inx = if i + 1 < n { i + 1 } else { 0 };
    assert(source_linked(m, s, ip));
    assert(source_linked(m, s, inx));
    let p = s[ip];
    let nx = s[inx];
    assert(source_linked(m, s, 0));
    if n == 1 {
        assert(m1 =~= Map::<DependencySourceId, DependencyScanSourceNode>::empty()) by {
            assert forall|k: DependencySourceId| !m1.contains_key(k) by {
                if m1.contains_key(k) {
                    assert(s.contains(k));
                }
            }
        }
        assert(s1.len() == 0);
    } else {
        assert(cyc_succ(s, ip) == source);
        assert(cyc_pred(s, inx) == source);
        if n == 2 {
            assert(p == nx);
        }
        assert(remove_refusal(l, m, source, false, true) is None);
        assert forall|j: int| 0 <= j < n - 1 implies #[trigger] s1[j] == (if j < i { s[j] } else { s[j + 1] }) by {}
        assert forall|j: int| 0 <= j < n - 1 implies #[trigger] source_linked(m1, s1, j) by {
            let o = if j < i { j } else { j + 1 };
            assert(s1[j] == s[o]);
            assert(source_linked(m, s, o));
            assert(o != i);
            assert(s[o] != source);
            let os = if o + 1 < n { o + 1 } else { 0 };
            let op = if o > 0 { o - 1 } else { n - 1 };
            if j + 1 < n - 1 {
                assert(cyc_succ(s1, j) == s1[j + 1]);
            } else {
                assert(cyc_succ(s1, j) == s1[0]);
            }
            if j > 0 {
                assert(cyc_pred(s1, j) == s1[j - 1]);
            } else {
                assert(cyc_pred(s1, j) == s1[n - 2]);
            }
            if os == i {
                assert(o == ip);
            }
            if op == i {
                assert(o == inx);
            }
            if os != i && op != i {
                assert(s[o] != p || o == ip);
                assert(s[o] != nx || o == inx);
            }
        }
        assert(s1.no_duplicates()) by {
            assert forall|a: int, b: int| 0 <= a < n - 1 && 0 <= b < n - 1 && a != b implies s1[a] != s1[b] by {
                let oa = if a < i { a } else { a + 1 };
                let ob = if b < i { b } else { b + 1 };
                assert(s1[a] == s[oa] && s1[b] == s[ob]);
            }
        }
        assert forall|k: DependencySourceId| #[trigger] m1.contains_key(k) implies s1.contains(k) by {
            assert(s.contains(k));
            let o = choose|o: int| 0 <= o < n && s[o] == k;
            assert(o != i);
            if o < i {
                assert(s1[o] == s[o]);
            } else {
                assert(s1[o - 1] == s[o]);
            }
        }
        if i == 0 {
            assert(s1[0] == s[1]);
        } else {
            assert(s1[0] == s[0]);
            assert(s[0] != source);
        }
    }
}

/// Removing a source right after inserting it restores every node and the count and cursor.
pub proof fn lemma_scan_insert_then_remove_restores(
    l: DependencyScanSourceList,
    m: Map<DependencySourceId, DependencyScanSourceNode>,
    s: Seq<DependencySourceId>,
    source: DependencySourceId,
    capacity: u32,
)
    requires
        selector_shape(l, m, s),
        !m.contains_key(source),
        l.count < capacity,
    ensures
        ({
            let (l1, m1) = insert_result(l, m, source);
            &&& remove_refusal(l1, m1, source, false, true) is None
            &&& remove_result(l1, m1, source).1 == m
            &&& remove_result(l1, m1, source).0 == l
        }),
{
    let n = s.len() as int;
    lemma_scan_insert_appends(l, m, s, source, capacity);
    let (l1, m1) = insert_result(l, m, source);
    let s1 = s.push(source);
    assert(s1[n] == source);
    lemma_scan_remove_unlinks(l1, m1, s1, n);
    let (l2, m2) = remove_result(l1, m1, source);
    if n == 0 {
        assert(m =~= Map::<DependencySourceId, DependencyScanSourceNode>::empty()) by {
            assert forall|k: DependencySourceId| !m.contains_key(k) by {
                if m.contains_key(k) {
                    assert(s.contains(k));
                }
            }
        }
        assert(m2 =~= m);
    } else {
        let c = s[0];
        let t = s[n - 1];
        assert(source_linked(m, s, 0));
        assert(source_linked(m, s, n - 1));
        assert(c != source);
        if n == 1 {
            assert(m[c].next == c);
        }
        assert(m2 =~= m);
    }
}

} // verus!
