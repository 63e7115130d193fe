use lib::geometry::{
    certificate_matches_header, commitment_eq, decompose_contract_geometry, load_current_step_from_geometry,
    reconstruct_contract_geometry, ActorAdmissionIdentity, ActorContract, ActorStepResourceEnvelope,
};
use lib::weight::Weight;

fn commit(b: u8) -> [u8; 32] {
    [b; 32]
}

fn envelope(i: u64) -> ActorStepResourceEnvelope {
    ActorStepResourceEnvelope { control: Weight::from_parts(i, 1), effect: Weight::from_parts(2 * i, 1) }
}

fn contract(n: u32) -> ActorContract<&'static str, u32> {
    ActorContract { meta: "meta", steps: (0..n).map(|i| 100 + i).collect() }
}

fn certificate() -> ActorAdmissionIdentity {
    ActorAdmissionIdentity {
        identity_valid: true,
        semantic_contract_id: commit(1),
        body_commitment: commit(2),
        admission_identity: commit(3),
    }
}

#[test]
fn decomposition_round_trips() {
    let resources: Vec<ActorStepResourceEnvelope> = (0..5).map(envelope).collect();
    let (head, chunks) =
        decompose_contract_geometry(9, contract(5), commit(1), commit(2), commit(3), resources.clone(), 2).unwrap();
    assert_eq!(head.header.step_count, 5);
    assert_eq!(head.first_step, Some(100));
    assert_eq!(head.first_step_resources, Some(envelope(0)));
    assert_eq!(chunks.len(), 2);
    assert_eq!(chunks[0].0, 0);
    assert_eq!(chunks[0].1.first_step_index, 1);
    assert_eq!(chunks[0].1.steps, vec![101, 102]);
    assert_eq!(chunks[1].1.first_step_index, 3);
    assert_eq!(chunks[1].1.steps, vec![103, 104]);
    assert_eq!(chunks[1].1.step_resources, vec![envelope(3), envelope(4)]);
    let rebuilt = reconstruct_contract_geometry(9, head, chunks, 2).unwrap();
    assert_eq!(rebuilt.meta, "meta");
    assert_eq!(rebuilt.steps, vec![100, 101, 102, 103, 104]);
}

#[test]
fn decomposition_needs_one_resource_per_step() {
    let short: Vec<ActorStepResourceEnvelope> = (0..4).map(envelope).collect();
    assert!(decompose_contract_geometry(9, contract(5), commit(1), commit(2), commit(3), short, 2).is_none());
    let (head, chunks) =
        decompose_contract_geometry(9, contract(1), commit(1), commit(2), commit(3), vec![envelope(0)], 2).unwrap();
    assert!(chunks.is_empty());
    assert_eq!(reconstruct_contract_geometry(9, head, chunks, 2).unwrap().steps, vec![100]);
}

#[test]
fn reconstruction_refuses_foreign_or_missing_chunks() {
    let resources: Vec<ActorStepResourceEnvelope> = (0..5).map(envelope).collect();
    let (head, mut chunks) =
        decompose_contract_geometry(9, contract(5), commit(1), commit(2), commit(3), resources.clone(), 2).unwrap();
    chunks.pop();
    assert!(reconstruct_contract_geometry(9, head, chunks, 2).is_none());
    let (head, chunks) =
        decompose_contract_geometry(9, contract(5), commit(1), commit(2), commit(3), resources, 2).unwrap();
    assert!(reconstruct_contract_geometry(8, head, chunks, 2).is_none());
}

#[test]
fn current_step_loads_from_head_or_its_chunk() {
    let resources: Vec<ActorStepResourceEnvelope> = (0..5).map(envelope).collect();
    let (head, chunks) =
        decompose_contract_geometry(9, contract(5), commit(1), commit(2), commit(3), resources, 2).unwrap();
    let cert = certificate();
    assert!(certificate_matches_header(&cert, &head.header));
    let first = load_current_step_from_geometry(9, &head, &cert, 0, None, 2).unwrap();
    assert_eq!((*first.step, first.resources, first.cursor), (100, envelope(0), 0));
    let (index, chunk) = (&chunks[1].0, &chunks[1].1);
    let fourth = load_current_step_from_geometry(9, &head, &cert, 4, Some((*index, chunk)), 2).unwrap();
    assert_eq!((*fourth.step, fourth.resources), (104, envelope(4)));
    assert!(load_current_step_from_geometry(9, &head, &cert, 2, Some((*index, chunk)), 2).is_none());
    let stale = ActorAdmissionIdentity { admission_identity: commit(4), ..cert };
    assert!(!certificate_matches_header(&stale, &head.header));
    assert!(load_current_step_from_geometry(9, &head, &stale, 0, None, 2).is_none());
    assert!(commitment_eq(&commit(7), &commit(7)));
    assert!(!commitment_eq(&commit(7), &commit(8)));
    assert!(chunk.matches(9, &commit(1), &commit(2), &commit(3), 3));
    assert!(!chunk.matches(9, &commit(1), &commit(2), &commit(3), 1));
}
