//! Oracle feeds as dependency sources: a collision-free, retained mapping from each feed to a
//! scalar source identity, allocated in order, and the publication of a feed's events.
use std::collections::HashMap;
use vstd::prelude::*;

use crate::dependency_registry::{revision_of, table_of, DependencyRegistry, DependencyRegistryView};
use crate::dependency_scan::{
    publication, publish_dependency_event_with_source_retention, same_sources, DependencyPublicationError,
    DependencyPublicationMutation, DependencyRevisionError,
};
use crate::scan_sources::{
    dependency_scan_source_capacity, insert_outcome, insert_result, spec_scan_capacity, DependencyScanSourceError,
    DependencyScanSources, DependencySourceId,
};

verus! {

broadcast use vstd::std_specs::hash::group_hash_axioms;

/// Identifier of an Oracle observation feed.
pub type ObservationFeedId = u64;

/// The next source identity to hand out, and whether identities ran out.
#[derive(Clone, Copy, Debug, PartialEq, Eq, Structural)]
pub struct DependencySourceAllocatorState {
    pub next: DependencySourceId,
    pub exhausted: bool,
}

#[derive(Clone, Copy, Debug, PartialEq, Eq, Structural)]
pub enum DependencySourceMutation {
    Allocated(DependencySourceId),
    Existing(DependencySourceId),
}

#[derive(Clone, Copy, Debug, PartialEq, Eq, Structural)]
pub enum DependencySourceError {
    TransactionRequired,
    Exhausted,
    ReverseMissing,
    ReverseMismatch,
    SourceOccupied,
}

/// The feed-to-source mapping, its reverse, and the allocator, as stored.
pub struct ObservationSourceMap {
    pub feed_sources: HashMap<ObservationFeedId, DependencySourceId>,
    pub source_feeds: HashMap<DependencySourceId, ObservationFeedId>,
    pub allocator: DependencySourceAllocatorState,
}

/// The mapping as its contents.
pub struct ObservationSourceMapView {
    pub feed_sources: Map<ObservationFeedId, DependencySourceId>,
    pub source_feeds: Map<DependencySourceId, ObservationFeedId>,
    pub allocator: DependencySourceAllocatorState,
}

impl View for ObservationSourceMap {
    type V = ObservationSourceMapView;

    open spec fn view(&self) -> ObservationSourceMapView {
        ObservationSourceMapView {
            feed_sources: self.feed_sources@,
            source_feeds: self.source_feeds@,
            allocator: self.allocator,
        }
    }
}

/// Result and new mapping of resolving `feed` to its source.
pub open spec fn source_resolution(m: ObservationSourceMapView, feed: ObservationFeedId, transactional: bool) -> (
    Result<DependencySourceMutation, DependencySourceError>,
    ObservationSourceMapView,
) {
    let a = m.allocator;
    if !transactional {
        (Err(DependencySourceError::TransactionRequired), m)
    } else if m.feed_sources.contains_key(feed) {
        let source = m.feed_sources[feed];
        if !m.source_feeds.contains_key(source) {
            (Err(DependencySourceError::ReverseMissing), m)
        } else if m.source_feeds[source] != feed {
            (Err(DependencySourceError::ReverseMismatch), m)
        } else {
            (Ok(DependencySourceMutation::Existing(source)), m)
        }
    } else if a.exhausted {
        (Err(DependencySourceError::Exhausted), m)
    } else if m.source_feeds.contains_key(a.next) {
        (Err(DependencySourceError::SourceOccupied), m)
    } else {
        (
            Ok(DependencySourceMutation::Allocated(a.next)),
            ObservationSourceMapView {
                feed_sources: m.feed_sources.insert(feed, a.next),
                source_feeds: m.source_feeds.insert(a.next, feed),
                allocator: if a.next == u64::MAX {
                    DependencySourceAllocatorState { exhausted: true, ..a }
                } else {
                    DependencySourceAllocatorState { next: (a.next + 1) as u64, ..a }
                },
            },
        )
    }
}

/// The source a resolution names.
pub open spec fn resolved_source(r: DependencySourceMutation) -> DependencySourceId {
    match r {
        DependencySourceMutation::Allocated(s) => s,
        DependencySourceMutation::Existing(s) => s,
    }
}

/// Each feed maps to a source that maps back to it, and the other way round; every source
/// handed out lies below the allocator's next identity unless identities ran out.
pub open spec fn mapping_consistent(m: ObservationSourceMapView) -> bool {
    &&& forall|f: ObservationFeedId| #[trigger]
        m.feed_sources.contains_key(f) ==> m.source_feeds.contains_key(m.feed_sources[f])
            && m.source_feeds[m.feed_sources[f]] == f
    &&& forall|s: DependencySourceId| #[trigger]
        m.source_feeds.contains_key(s) ==> m.feed_sources.contains_key(m.source_feeds[s])
            && m.feed_sources[m.source_feeds[s]] == s
    &&& forall|s: DependencySourceId| #[trigger]
        m.source_feeds.contains_key(s) ==> m.allocator.exhausted || s < m.allocator.next
}

/// Resolving a feed once it resolved gives back the same source and changes nothing.
pub proof fn lemma_resolution_is_stable(m: ObservationSourceMapView, feed: ObservationFeedId)
    requires
        source_resolution(m, feed, true).0 is Ok,
    ensures
        source_resolution(source_resolution(m, feed, true).1, feed, true) == (
            Ok::<DependencySourceMutation, DependencySourceError>(
                DependencySourceMutation::Existing(resolved_source(source_resolution(m, feed, true).0->Ok_0)),
            ),
            source_resolution(m, feed, true).1,
        ),
{
}

/// Resolution keeps the mapping consistent.
pub proof fn lemma_resolution_keeps_consistent(m: ObservationSourceMapView, feed: ObservationFeedId, transactional: bool)
    requires
        mapping_consistent(m),
    ensures
        mapping_consistent(source_resolution(m, feed, transactional).1),
{
    let w = source_resolution(m, feed, transactional).1;
    if transactional && !m.feed_sources.contains_key(feed) && !m.allocator.exhausted && !m.source_feeds.contains_key(
        m.allocator.next,
    ) {
        let s = m.allocator.next;
        assert forall|f: ObservationFeedId| #[trigger] w.feed_sources.contains_key(f) implies w.source_feeds.contains_key(
            w.feed_sources[f],
        ) && w.source_feeds[w.feed_sources[f]] == f by {
            if f != feed {
                assert(m.source_feeds.contains_key(m.feed_sources[f]));
                assert(m.feed_sources[f] != s);
            }
        }
        assert forall|t: DependencySourceId| #[trigger] w.source_feeds.contains_key(t) implies w.feed_sources.contains_key(
            w.source_feeds[t],
        ) && w.feed_sources[w.source_feeds[t]] == t by {
            if t != s {
                assert(m.feed_sources.contains_key(m.source_feeds[t]));
                assert(m.source_feeds[t] != feed);
            }
        }
    }
}

impl ObservationSourceMap {
    /// Resolves `feed` to its source identity: the one it already has, whose reverse must name
    /// the feed, or else the allocator's next identity, which must be free.
    pub fn resolve_observation_dependency_source(&mut self, feed: ObservationFeedId, transactional: bool) -> (r: Result<
        DependencySourceMutation,
        DependencySourceError,
    >)
        ensures
            (r, final(self)@) == source_resolution(old(self)@, feed, transactional),
    {
        if !transactional {
            return Err(DependencySourceError::TransactionRequired);
        }
        match self.feed_sources.get(&feed) {
            Some(source) => {
                let source = *source;
                return match self.source_feeds.get(&source) {
                    Some(reverse) => if *reverse == feed {
                        Ok(DependencySourceMutation::Existing(source))
                    } else {
                        Err(DependencySourceError::ReverseMismatch)
                    },
                    None => Err(DependencySourceError::ReverseMissing),
                };
            },
            None => {},
        }
        let mut allocator = self.allocator;
        if allocator.exhausted {
            return Err(DependencySourceError::Exhausted);
        }
        let source = allocator.next;
        if self.source_feeds.contains_key(&source) {
            return Err(DependencySourceError::SourceOccupied);
        }
        if source == u64::MAX {
            allocator.exhausted = true;
        } else {
            allocator.next = source + 1;
        }
        self.feed_sources.insert(feed, source);
        self.source_feeds.insert(source, feed);
        self.allocator = allocator;
        Ok(DependencySourceMutation::Allocated(source))
    }
}

/// Why publishing an event of a feed was refused.
#[derive(Clone, Copy, Debug, PartialEq, Eq, Structural)]
pub enum ObservationEventError {
    TransactionRequired,
    SourceIdentityExhausted,
    SourceReverseMissing,
    SourceReverseMismatch,
    SourceIdentityOccupied,
    RevisionExhausted,
    ScanSourceCapacityReached,
    ScanSourceInactive,
    ScanSourceMissing,
    ScanSourceTopologyCorrupt,
}

/// The refusal reported for a source resolution error.
pub open spec fn resolution_refusal(e: DependencySourceError) -> ObservationEventError {
    match e {
        DependencySourceError::TransactionRequired => ObservationEventError::TransactionRequired,
        DependencySourceError::Exhausted => ObservationEventError::SourceIdentityExhausted,
        DependencySourceError::ReverseMissing => ObservationEventError::SourceReverseMissing,
        DependencySourceError::ReverseMismatch => ObservationEventError::SourceReverseMismatch,
        DependencySourceError::SourceOccupied => ObservationEventError::SourceIdentityOccupied,
    }
}

/// The refusal reported for a scan selector error.
pub open spec fn selector_refusal(e: DependencyScanSourceError) -> ObservationEventError {
    match e {
        DependencyScanSourceError::TransactionRequired => ObservationEventError::TransactionRequired,
        DependencyScanSourceError::CapacityExceeded => ObservationEventError::ScanSourceCapacityReached,
        DependencyScanSourceError::ScanInactive => ObservationEventError::ScanSourceInactive,
        DependencyScanSourceError::Missing => ObservationEventError::ScanSourceMissing,
        DependencyScanSourceError::CorruptTopology => ObservationEventError::ScanSourceTopologyCorrupt,
    }
}

fn to_resolution_refusal(e: DependencySourceError) -> (r: ObservationEventError)
    ensures
        r == resolution_refusal(e),
{
    match e {
        DependencySourceError::TransactionRequired => ObservationEventError::TransactionRequired,
        DependencySourceError::Exhausted => ObservationEventError::SourceIdentityExhausted,
        DependencySourceError::ReverseMissing => ObservationEventError::SourceReverseMissing,
        DependencySourceError::ReverseMismatch => ObservationEventError::SourceReverseMismatch,
        DependencySourceError::SourceOccupied => ObservationEventError::SourceIdentityOccupied,
    }
}

fn to_selector_refusal(e: DependencyScanSourceError) -> (r: ObservationEventError)
    ensures
        r == selector_refusal(e),
{
    match e {
        DependencyScanSourceError::TransactionRequired => ObservationEventError::TransactionRequired,
        DependencyScanSourceError::CapacityExceeded => ObservationEventError::ScanSourceCapacityReached,
        DependencyScanSourceError::ScanInactive => ObservationEventError::ScanSourceInactive,
        DependencyScanSourceError::Missing => ObservationEventError::ScanSourceMissing,
        DependencyScanSourceError::CorruptTopology => ObservationEventError::ScanSourceTopologyCorrupt,
    }
}

/// What publishing an event of the feed resolved to `source` does to the registry and the
/// selector, and its result: the source's revision advances (or the source is marked
/// exhausted), and a source whose scan runs is kept in the selector.
pub open spec fn feed_event_published(
    v: DependencyRegistryView,
    w: DependencyRegistryView,
    before: DependencyScanSources,
    after: DependencyScanSources,
    source: DependencySourceId,
    max_active_actors: u32,
    max_contract_steps: u32,
    r: Result<(), ObservationEventError>,
) -> bool {
    let (m, st) = publication(revision_of(v, source), table_of(v, source).header.next_index);
    &&& w == (DependencyRegistryView { revisions: v.revisions.insert(source, st), ..v })
    &&& if m is Exhausted {
        r == Err::<(), ObservationEventError>(ObservationEventError::RevisionExhausted) && same_sources(after, before)
    } else {
        match insert_outcome(
            before.list,
            before.nodes@,
            source,
            st.scan_target is Some,
            spec_scan_capacity(max_active_actors, max_contract_steps),
            true,
        ) {
            Some(Ok(_)) => r == Ok::<(), ObservationEventError>(()) && same_sources(after, before),
            Some(Err(e)) => r == Err::<(), ObservationEventError>(selector_refusal(e)) && same_sources(after, before),
            None => r == Ok::<(), ObservationEventError>(()) && (after.list, after.nodes@) == insert_result(
                before.list,
                before.nodes@,
                source,
            ),
        }
    }
}

/// Resolves `feed` to its dependency source and publishes one event on it, keeping the source
/// in the fair scan selector while its scan runs.
pub fn publish_observation_dependency_event(
    map: &mut ObservationSourceMap,
    registry: &mut DependencyRegistry,
    sources: &mut DependencyScanSources,
    feed: ObservationFeedId,
    max_active_actors: u32,
    max_contract_steps: u32,
    transactional: bool,
) -> (r: Result<(), ObservationEventError>)
    ensures
        final(map)@ == source_resolution(old(map)@, feed, transactional).1,
        match source_resolution(old(map)@, feed, transactional).0 {
            Err(e) => r == Err::<(), ObservationEventError>(resolution_refusal(e)) && final(registry)@ == old(
                registry,
            )@ && same_sources(*final(sources), *old(sources)),
            Ok(m) => feed_event_published(
                old(registry)@,
                final(registry)@,
                *old(sources),
                *final(sources),
                resolved_source(m),
                max_active_actors,
                max_contract_steps,
                r,
            ),
        },
{
    let source = match map.resolve_observation_dependency_source(feed, transactional) {
        Ok(DependencySourceMutation::Allocated(s)) => s,
        Ok(DependencySourceMutation::Existing(s)) => s,
        Err(e) => return Err(to_resolution_refusal(e)),
    };
    let mut state = registry.revision_state(source);
    let next_index = registry.registration_next_index(source);
    let capacity = dependency_scan_source_capacity(max_active_actors, max_contract_steps);
    let outcome = publish_dependency_event_with_source_retention(
        &mut state,
        sources,
        source,
        next_index,
        capacity,
        true,
    );
    registry.revisions.insert(source, state);
    proof {
        let v = old(registry)@;
        if revision_of(v, source).exhausted {
            assert(v.revisions.insert(source, state) =~= v.revisions);
        }
    }
    match outcome {
        Ok(DependencyPublicationMutation::Exhausted) => Err(ObservationEventError::RevisionExhausted),
        Ok(_) => Ok(()),
        Err(DependencyPublicationError::Revision(DependencyRevisionError::TransactionRequired)) => Err(
            ObservationEventError::TransactionRequired,
        ),
        Err(DependencyPublicationError::SourceCarrier(e)) => Err(to_selector_refusal(e)),
    }
}

} // verus!
