use lib::contract::{Precondition, Predicate, Step, StepErrorPolicy, Task};
use lib::errors::Error;
use lib::precondition::{bytes_eq, bytes_lt, canonical_clause, canonicalize_dnf, canonicalize_preconditions, encode_clause};

fn p(bytes: &[u8]) -> Predicate {
    Predicate { encoded: bytes.to_vec(), observation_max_age_blocks: None }
}

fn clause(keys: &[u8]) -> Vec<Predicate> {
    keys.iter().map(|k| p(&[*k])).collect()
}

fn keys_of(c: &Vec<Predicate>) -> Vec<Vec<u8>> {
    c.iter().map(|q| q.encoded.clone()).collect()
}

fn step_with(clauses: Option<Vec<Vec<Predicate>>>) -> Step {
    Step {
        task: Task::StopCycle,
        on_error: StepErrorPolicy::NoRetry,
        precondition: clauses.map(|clauses| Precondition { clauses }),
    }
}

#[test]
fn byte_order_is_lexicographic() {
    assert!(bytes_lt(&vec![1, 2], &vec![1, 3]));
    assert!(bytes_lt(&vec![1], &vec![1, 0]));
    assert!(!bytes_lt(&vec![2], &vec![1, 9]));
    assert!(!bytes_lt(&vec![4, 4], &vec![4, 4]));
    assert!(bytes_lt(&vec![], &vec![0]));
    assert!(bytes_eq(&vec![7, 8], &vec![7, 8]));
    assert!(!bytes_eq(&vec![7, 8], &vec![7]));
}

#[test]
fn canonical_clause_sorts_and_dedups() {
    let c = vec![p(&[3]), p(&[1]), p(&[3]), p(&[2, 0])];
    let out = canonical_clause(&c);
    assert_eq!(keys_of(&out), vec![vec![1], vec![2, 0], vec![3]]);
}

#[test]
fn canonical_clause_keeps_first_of_equal_encodings() {
    let first = Predicate { encoded: vec![9], observation_max_age_blocks: Some(5) };
    let second = Predicate { encoded: vec![9], observation_max_age_blocks: Some(7) };
    let out = canonical_clause(&vec![second.clone(), first.clone()]);
    assert_eq!(out, vec![second]);
}

#[test]
fn clause_encoding_prefixes_compact_length() {
    let c = vec![p(&[0xaa]), p(&[0xbb, 0xcc])];
    assert_eq!(encode_clause(&c), vec![8, 0xaa, 0xbb, 0xcc]);
    let long: Vec<Predicate> = (0..64).map(|_| p(&[])).collect();
    assert_eq!(encode_clause(&long), vec![0x01, 0x01]);
    let longer: Vec<Predicate> = (0..16384).map(|_| p(&[])).collect();
    assert_eq!(encode_clause(&longer), vec![0x02, 0x00, 0x01, 0x00]);
}

#[test]
fn dnf_orders_clauses_by_encoding() {
    let out = canonicalize_dnf(&vec![clause(&[3, 1, 3]), clause(&[2])], 10).unwrap();
    let keys: Vec<Vec<Vec<u8>>> = out.iter().map(keys_of).collect();
    assert_eq!(keys, vec![vec![vec![2]], vec![vec![1], vec![3]]]);
}

#[test]
fn dnf_absorbs_implied_clauses() {
    let out = canonicalize_dnf(&vec![clause(&[1, 2]), clause(&[1]), clause(&[3, 4])], 10).unwrap();
    let keys: Vec<Vec<Vec<u8>>> = out.iter().map(keys_of).collect();
    assert_eq!(keys, vec![vec![vec![1]], vec![vec![3], vec![4]]]);
}

#[test]
fn dnf_refusals() {
    assert_eq!(canonicalize_dnf(&vec![], 10), Err(Error::EmptyPrecondition));
    assert_eq!(canonicalize_dnf(&vec![clause(&[1]), vec![]], 10), Err(Error::EmptyPrecondition));
    assert_eq!(canonicalize_dnf(&vec![clause(&[1, 2]), clause(&[2, 1, 1])], 10), Err(Error::InvalidPredicate));
    assert_eq!(canonicalize_dnf(&vec![clause(&[1, 2, 3])], 2), Err(Error::AdmissionBoundOverflow));
    // Duplicates and absorbed clauses do not count towards the bound.
    assert!(canonicalize_dnf(&vec![clause(&[1, 1, 1])], 1).is_ok());
    assert!(canonicalize_dnf(&vec![clause(&[5]), clause(&[5, 6, 7])], 1).is_ok());
}

#[test]
fn canonicalizing_twice_changes_nothing() {
    let once = canonicalize_dnf(&vec![clause(&[9, 4]), clause(&[4, 9, 2]), clause(&[7])], 10).unwrap();
    let twice = canonicalize_dnf(&once, 10).unwrap();
    assert_eq!(once, twice);
}

#[test]
fn preconditions_of_every_step_are_canonicalized() {
    let mut steps = vec![step_with(None), step_with(Some(vec![clause(&[2, 1]), clause(&[1])]))];
    canonicalize_preconditions(&mut steps, 5).unwrap();
    assert!(steps[0].precondition.is_none());
    let clauses = &steps[1].precondition.as_ref().unwrap().clauses;
    assert_eq!(clauses.len(), 1);
    assert_eq!(keys_of(&clauses[0]), vec![vec![1]]);
}

#[test]
fn refused_steps_stay_unchanged() {
    let before = vec![
        step_with(Some(vec![clause(&[3, 1])])),
        step_with(Some(vec![clause(&[1]), clause(&[1])])),
        step_with(Some(vec![])),
    ];
    let mut steps = before.clone();
    assert_eq!(canonicalize_preconditions(&mut steps, 5), Err(Error::InvalidPredicate));
    assert_eq!(steps, before);
}


#[test]
fn step_preconditions_canonicalized_twice_stay_put() {
    let mut steps = vec![
        step_with(Some(vec![clause(&[3, 1]), clause(&[2]), clause(&[1, 3, 4])])),
        step_with(None),
    ];
    assert_eq!(canonicalize_preconditions(&mut steps, 8), Ok(()));
    let once = steps.clone();
    assert_eq!(canonicalize_preconditions(&mut steps, 8), Ok(()));
    assert_eq!(steps, once);
}
