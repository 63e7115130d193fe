//! Verified core of the DEOS Actors pallet, as storage-free logic with contracts: weights and
//! fee envelopes, Actor semantic records, contract geometry and validation, precondition
//! canonicalization, owner slots, state holds, the idle-service controls, the canonical service
//! ring, the deadline carrier and its min-heap index, and the dependency machinery of parked
//! Actors (registration tables, revision scans, the fair scan selector, complete dependency
//! plans, Oracle feed sources), the idle hook's weight accounting, the service head plan, due
//! tick work selection, the runtime configuration's integrity check, and the Actor registry
//! with its storage invariants and the creation, Contract update, genesis admission and
//! lifecycle transitions that keep them.

pub mod weight;
pub mod types;
pub mod deadline_index;
pub mod geometry;
pub mod errors;
pub mod contract;
pub mod fees;
pub mod semantic;
pub mod owner_slots;
pub mod state_hold;
pub mod validation;
pub mod control;
pub mod service_ring;
pub mod precondition;
pub mod deadline_carrier;
pub mod dependency_review;
pub mod scan_sources;
pub mod registrations;
pub mod dependency_scan;
pub mod dependency_registry;
pub mod observation_sources;
pub mod integrity;
pub mod materialization;
pub mod wakeup;
pub mod idle;
pub mod due_deadlines;
pub mod service_head;
pub mod pallet_state;
pub mod creation;
pub mod update;
pub mod genesis;
pub mod lifecycle;
