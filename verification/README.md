# Actors pallet core

The storage-free logic of the DEOS Actors pallet, written as a Verus library. The storage
maps it works on are plain values or `HashMap`s here; the operations it holds are functions
over those values with contracts that state their results, and the invariants they rely on
are stated and proved as laws (public proof functions) next to them. The Actor registry is a
plain-value model (`pallet_state`) with its storage invariants; creation, Contract update and
genesis admission, activation, deactivation, pause, resume and close are gate sequences over
it whose plans are applied to it and keep its invariants. Where a step of the pallet needs a
value this library does not compute (a hashed sovereign account, a Config validator's
verdict, a weight read from benchmarks, the run store or the scheduler), that value is an
argument, and the decision made from it is a function here.

- `weight`, `types`, `errors`: plain value types.
- `pallet_state`, `creation`, `update`, `genesis`, `lifecycle`: the Actor registry and its
  storage invariant check, the creation gates and plans (Active and Dormant), Contract
  equality and the update gates, the genesis admission of System Actors, activation,
  deactivation, pause, resume, manual triggers, run cancellation and close, and the laws that
  each admitted change keeps the invariants.
- `fees`, `state_hold`, `control`, `materialization`, `idle`, `integrity`: fee envelopes,
  state-hold quotes, idle-service weight budgets, the materialization coordinator's pass, the
  idle hook's weight accounting, and the runtime configuration's integrity check.
- `contract`, `validation`, `precondition`, `geometry`, `semantic`: contract shape checks,
  canonical precondition encoding, contract geometry (decomposition and reconstruction), and
  Actor semantic records.
- `owner_slots`, `wakeup`: owner slot bitmaps and wakeup bucket shapes.
- `service_ring`, `service_head`: the canonical service ring, its round and its invariant
  check, and the plan for an eligible head member.
- `deadline_index`, `deadline_carrier`, `due_deadlines`: the clock-local min-heap of deadline
  buckets, the paged deadline buckets with their index upkeep, and the selection of due tick
  work.
- `dependency_review`, `registrations`, `scan_sources`, `dependency_scan`,
  `dependency_registry`, `observation_sources`: dependency registrations of parked Actors, the
  revision scan, the fair scan selector, complete dependency plans, pending events and reviews,
  and the mapping of Oracle feeds to dependency sources.

The tests under `tests/` run the library on concrete values.
