//! Contract geometry: the first Step lives in the Contract head, every later Step in
//! fixed-size tail chunks bound to the head by the Contract's authority.
use vstd::prelude::*;

use crate::types::ActorId;
use crate::weight::Weight;

verus! {

/// A 32-byte commitment.
pub type Commitment = [u8; 32];

/// Byte-wise equality of two commitments.
pub fn commitment_eq(a: &Commitment, b: &Commitment) -> (r: bool)
    ensures
        r == (a@ == b@),
{
    let mut i: usize = 0;
    while i < 32
        invariant
            0 <= i <= 32,
            a@.len() == 32,
            b@.len() == 32,
            forall|j: int| 0 <= j < i ==> a@[j] == b@[j],
        decreases 32 - i,
    {
        if a[i] != b[i] {
            return false;
        }
        i = i + 1;
    }
    assert(a@ =~= b@);
    true
}

/// Control and effect weight reserved for one Step.
#[derive(Clone, Copy, Debug, PartialEq, Eq, Structural)]
pub struct ActorStepResourceEnvelope {
    pub control: Weight,
    pub effect: Weight,
}

/// Binds a tail chunk to one Actor's published Contract body.
#[derive(Clone, Copy, Debug, PartialEq, Eq)]
pub struct ActorBodyAuthority {
    pub actor_id: ActorId,
    pub semantic_contract_id: Commitment,
    pub body_commitment: Commitment,
    pub admission_identity: Commitment,
}

/// Contract-head header: the body-independent Contract fields `meta` plus the commitments
/// and the Step count.
pub struct ActorContractHeader<M> {
    pub meta: M,
    pub semantic_contract_id: Commitment,
    pub body_commitment: Commitment,
    pub admission_identity: Commitment,
    pub step_count: u32,
}

/// The Contract head: header plus the first Step and its resources when the Contract has Steps.
pub struct ActorContractHead<M, S> {
    pub header: ActorContractHeader<M>,
    pub first_step: Option<S>,
    pub first_step_resources: Option<ActorStepResourceEnvelope>,
}

/// One tail chunk of consecutive Steps starting at `first_step_index`.
pub struct ActorStepChunk<S> {
    pub authority: ActorBodyAuthority,
    pub first_step_index: u32,
    pub steps: Vec<S>,
    pub step_resources: Vec<ActorStepResourceEnvelope>,
}

/// A Contract: its body-independent fields and its Steps in order.
pub struct ActorContract<M, S> {
    pub meta: M,
    pub steps: Vec<S>,
}

/// The identities an admission certificate carries for its Contract.
#[derive(Clone, Copy, Debug, PartialEq, Eq)]
pub struct ActorAdmissionIdentity {
    pub identity_valid: bool,
    pub semantic_contract_id: Commitment,
    pub body_commitment: Commitment,
    pub admission_identity: Commitment,
}

/// One Step loaded at a cursor, with its resource envelope.
pub struct LoadedActorStep<'a, S> {
    pub cursor: u32,
    pub step: &'a S,
    pub resources: ActorStepResourceEnvelope,
}

/// `ceil(a / b)` for positive `b`.
pub open spec fn ceil_div(a: int, b: int) -> int {
    (a + b - 1) / b
}

/// Number of tail chunks for `step_count` Steps.
pub open spec fn spec_chunk_count(step_count: int, chunk_steps: int) -> int {
    if step_count <= 1 {
        0
    } else {
        ceil_div(step_count - 1, chunk_steps)
    }
}

/// First Contract index held by tail chunk `chunk_index`.
pub open spec fn spec_chunk_first(chunk_index: int, chunk_steps: int) -> int {
    1 + chunk_index * chunk_steps
}

/// One past the last Contract index held by tail chunk `chunk_index`.
pub open spec fn spec_chunk_end(chunk_index: int, chunk_steps: int, step_count: int) -> int {
    let e = spec_chunk_first(chunk_index + 1, chunk_steps);
    if e <= step_count {
        e
    } else {
        step_count
    }
}

/// Number of tail chunks needed for `step_count` Steps: `(step_count - 1) / chunk_steps`
/// rounded up, and none when the Contract has at most one Step.
pub fn tail_chunk_count(step_count: u32, chunk_steps: u32) -> (n: u32)
    requires
        chunk_steps > 0,
    ensures
        n == spec_chunk_count(step_count as int, chunk_steps as int),
{
    if step_count <= 1 {
        0
    } else {
        let t = step_count - 1;
        let q = t / chunk_steps;
        if t % chunk_steps == 0 {
            proof {
                vstd::arithmetic::div_mod::lemma_fundamental_div_mod(t as int, chunk_steps as int);
                assert(((t + chunk_steps - 1) as int) / (chunk_steps as int) == q) by (nonlinear_arith)
                    requires
                        t == q * chunk_steps,
                        chunk_steps > 0,
                        q >= 0,
                {
                    assert(t + chunk_steps - 1 == q * chunk_steps + (chunk_steps - 1));
                    vstd::arithmetic::div_mod::lemma_fundamental_div_mod_converse(
                        t + chunk_steps - 1,
                        chunk_steps as int,
                        q as int,
                        chunk_steps - 1,
                    );
                }
            }
            q
        } else {
            proof {
                vstd::arithmetic::div_mod::lemma_fundamental_div_mod(t as int, chunk_steps as int);
                let r = t % chunk_steps;
                assert(((t + chunk_steps - 1) as int) / (chunk_steps as int) == q + 1) by (nonlinear_arith)
                    requires
                        t == q * chunk_steps + r,
                        0 < r < chunk_steps,
                        q >= 0,
                {
                    vstd::arithmetic::div_mod::lemma_fundamental_div_mod_converse(
                        t + chunk_steps - 1,
                        chunk_steps as int,
                        q + 1,
                        r - 1,
                    );
                }
            }
            q + 1
        }
    }
}

/// Tail chunk holding the Step at `cursor` (which must lie past the head Step).
pub fn tail_chunk_index(cursor: u32, chunk_steps: u32) -> (r: (u32, u32))
    requires
        chunk_steps > 0,
        cursor > 0,
    ensures
        r.0 == (cursor - 1) / (chunk_steps as int),
        r.1 as int == spec_chunk_first(r.0 as int, chunk_steps as int),
        r.1 <= cursor,
        cursor < spec_chunk_first(r.0 as int + 1, chunk_steps as int),
{
    let chunk_index = (cursor - 1) / chunk_steps;
    proof {
        let x = (cursor - 1) as int;
        let d = chunk_steps as int;
        vstd::arithmetic::div_mod::lemma_fundamental_div_mod(x, d);
        vstd::arithmetic::div_mod::lemma_mod_pos_bound(x, d);
        let r = x % d;
        assert(chunk_index * chunk_steps <= cursor - 1 && cursor - 1 < chunk_index * chunk_steps + chunk_steps) by (nonlinear_arith)
            requires
                x == d * chunk_index + r,
                0 <= r < d,
                x == cursor - 1,
                d == chunk_steps,
        ;
        assert(spec_chunk_first(chunk_index as int + 1, chunk_steps as int) == 1 + chunk_index * chunk_steps + chunk_steps) by (nonlinear_arith);
    }
    (chunk_index, 1 + chunk_index * chunk_steps)
}

/// Whether a chunk belongs to the named Contract body at the expected position.
pub open spec fn spec_chunk_matches<S>(
    chunk: &ActorStepChunk<S>,
    actor_id: ActorId,
    semantic_contract_id: Commitment,
    body_commitment: Commitment,
    admission_identity: Commitment,
    first_step_index: u32,
) -> bool {
    &&& chunk.authority.actor_id == actor_id
    &&& chunk.authority.semantic_contract_id@ == semantic_contract_id@
    &&& chunk.authority.body_commitment@ == body_commitment@
    &&& chunk.authority.admission_identity@ == admission_identity@
    &&& chunk.first_step_index == first_step_index
}

impl<S> ActorStepChunk<S> {
    pub fn matches(
        &self,
        actor_id: ActorId,
        semantic_contract_id: &Commitment,
        body_commitment: &Commitment,
        admission_identity: &Commitment,
        first_step_index: u32,
    ) -> (r: bool)
        ensures
            r == spec_chunk_matches(
                self,
                actor_id,
                *semantic_contract_id,
                *body_commitment,
                *admission_identity,
                first_step_index,
            ),
    {
        self.authority.actor_id == actor_id && commitment_eq(
            &self.authority.semantic_contract_id,
            semantic_contract_id,
        ) && commitment_eq(&self.authority.body_commitment, body_commitment) && commitment_eq(
            &self.authority.admission_identity,
            admission_identity,
        ) && self.first_step_index == first_step_index
    }
}

/// The certificate names exactly the Contract body recorded in the header.
pub open spec fn spec_certificate_matches_header<M>(
    certificate: ActorAdmissionIdentity,
    header: &ActorContractHeader<M>,
) -> bool {
    &&& certificate.identity_valid
    &&& certificate.semantic_contract_id@ == header.semantic_contract_id@
    &&& certificate.body_commitment@ == header.body_commitment@
    &&& certificate.admission_identity@ == header.admission_identity@
}

pub fn certificate_matches_header<M>(
    certificate: &ActorAdmissionIdentity,
    header: &ActorContractHeader<M>,
) -> (r: bool)
    ensures
        r == spec_certificate_matches_header(*certificate, header),
{
    certificate.identity_valid && commitment_eq(
        &certificate.semantic_contract_id,
        &header.semantic_contract_id,
    ) && commitment_eq(&certificate.body_commitment, &header.body_commitment) && commitment_eq(
        &certificate.admission_identity,
        &header.admission_identity,
    )
}

/// Chunk `i` of a decomposition of `steps`/`resources` is exactly the `i`-th window.
pub open spec fn spec_chunk_is_window<S>(
    chunk: &ActorStepChunk<S>,
    i: int,
    authority: ActorBodyAuthority,
    steps: Seq<S>,
    resources: Seq<ActorStepResourceEnvelope>,
    chunk_steps: int,
) -> bool {
    let first = spec_chunk_first(i, chunk_steps);
    let end = spec_chunk_end(i, chunk_steps, steps.len() as int);
    &&& chunk.authority == authority
    &&& chunk.first_step_index == first
    &&& chunk.steps@ == steps.subrange(first, end)
    &&& chunk.step_resources@ == resources.subrange(first, end)
}

/// `head` and `chunks` are the geometry of a Contract with `meta` and `steps`.
pub open spec fn spec_is_decomposition<M, S>(
    actor_id: ActorId,
    meta: M,
    steps: Seq<S>,
    resources: Seq<ActorStepResourceEnvelope>,
    semantic_contract_id: Commitment,
    body_commitment: Commitment,
    admission_identity: Commitment,
    head: &ActorContractHead<M, S>,
    chunks: Seq<(u32, ActorStepChunk<S>)>,
    chunk_steps: int,
) -> bool {
    let n = steps.len() as int;
    let authority = ActorBodyAuthority {
        actor_id,
        semantic_contract_id,
        body_commitment,
        admission_identity,
    };
    &&& resources.len() == n
    &&& n <= u32::MAX
    &&& head.header.meta == meta
    &&& head.header.semantic_contract_id == semantic_contract_id
    &&& head.header.body_commitment == body_commitment
    &&& head.header.admission_identity == admission_identity
    &&& head.header.step_count == n
    &&& (n == 0 ==> head.first_step is None && head.first_step_resources is None)
    &&& (n > 0 ==> head.first_step == Some(steps[0]) && head.first_step_resources == Some(resources[0]))
    &&& chunks.len() == spec_chunk_count(n, chunk_steps)
    &&& forall|i: int|
        0 <= i < chunks.len() ==> #[trigger] chunks[i].0 == i && spec_chunk_is_window(
            &chunks[i].1,
            i,
            authority,
            steps,
            resources,
            chunk_steps,
        )
}

/// Splits a Contract into its head and tail chunks. Returns `None` when the resource list does
/// not have one envelope per Step or the Step count does not fit a `u32`.
pub fn decompose_contract_geometry<M, S>(
    actor_id: ActorId,
    contract: ActorContract<M, S>,
    semantic_contract_id: Commitment,
    body_commitment: Commitment,
    admission_identity: Commitment,
    resources: Vec<ActorStepResourceEnvelope>,
    chunk_steps: u32,
) -> (r: Option<(ActorContractHead<M, S>, Vec<(u32, ActorStepChunk<S>)>)>)
    requires
        chunk_steps > 0,
    ensures
        r is Some <==> (resources@.len() == contract.steps@.len() && contract.steps@.len() <= u32::MAX),
        r matches Some((head, chunks)) ==> spec_is_decomposition(
            actor_id,
            contract.meta,
            contract.steps@,
            resources@,
            semantic_contract_id,
            body_commitment,
            admission_identity,
            &head,
            chunks@,
            chunk_steps as int,
        ),
{
    let ActorContract { meta, steps } = contract;
    if resources.len() != steps.len() || steps.len() > u32::MAX as usize {
        return None;
    }
    let n = steps.len() as u32;
    let ghost all_steps = steps@;
    let ghost all_resources = resources@;
    let authority = ActorBodyAuthority {
        actor_id,
        semantic_contract_id,
        body_commitment,
        admission_identity,
    };
    let mut rest_steps = steps;
    let mut rest_resources = resources;
    let mut first_step: Option<S> = None;
    let mut first_step_resources: Option<ActorStepResourceEnvelope> = None;
    if n > 0 {
        let tail_steps = rest_steps.split_off(1);
        let tail_resources = rest_resources.split_off(1);
        first_step = rest_steps.pop();
        first_step_resources = rest_resources.pop();
        rest_steps = tail_steps;
        rest_resources = tail_resources;
    }
    let chunk_count = tail_chunk_count(n, chunk_steps);
    let mut chunks: Vec<(u32, ActorStepChunk<S>)> = Vec::new();
    let mut chunk_index: u32 = 0;
    let mut next: u32 = if n > 0 { 1 } else { 0 };
    proof {
        if n > 0 {
            assert(rest_steps@ =~= all_steps.subrange(1, n as int));
            assert(rest_resources@ =~= all_resources.subrange(1, n as int));
            if n > 1 {
                lemma_more_chunks(n as int, chunk_steps as int, 0);
            }
        } else {
            assert(rest_steps@ =~= all_steps.subrange(0, 0));
            assert(rest_resources@ =~= all_resources.subrange(0, 0));
        }
    }
    while rest_steps.len() > 0
        invariant
            chunk_steps > 0,
            n == all_steps.len(),
            n == all_resources.len(),
            n > 0 ==> next == (if spec_chunk_first(chunk_index as int, chunk_steps as int) <= n {
                spec_chunk_first(chunk_index as int, chunk_steps as int)
            } else {
                n as int
            }),
            n == 0 ==> next == 0 && chunk_index == 0,
            next <= n,
            rest_steps@ == all_steps.subrange(next as int, n as int),
            rest_resources@ == all_resources.subrange(next as int, n as int),
            chunks@.len() == chunk_index,
            chunk_index <= spec_chunk_count(n as int, chunk_steps as int),
            rest_steps@.len() > 0 ==> chunk_index < spec_chunk_count(n as int, chunk_steps as int),
            chunk_count == spec_chunk_count(n as int, chunk_steps as int),
            forall|i: int|
                0 <= i < chunks@.len() ==> #[trigger] chunks@[i].0 == i && spec_chunk_is_window(
                    &chunks@[i].1,
                    i,
                    authority,
                    all_steps,
                    all_resources,
                    chunk_steps as int,
                ),
        decreases rest_steps@.len(),
    {
        let take = if rest_steps.len() < chunk_steps as usize {
            rest_steps.len()
        } else {
            chunk_steps as usize
        };
        let later_steps = rest_steps.split_off(take);
        let later_resources = rest_resources.split_off(take);
        let chunk = ActorStepChunk {
            authority,
            first_step_index: next,
            steps: rest_steps,
            step_resources: rest_resources,
        };
        proof {
            lemma_window_step(n as int, chunk_steps as int, chunk_index as int);
            assert(chunk.steps@ =~= all_steps.subrange(
                next as int,
                spec_chunk_end(chunk_index as int, chunk_steps as int, n as int),
            ));
            assert(chunk.step_resources@ =~= all_resources.subrange(
                next as int,
                spec_chunk_end(chunk_index as int, chunk_steps as int, n as int),
            ));
        }
        chunks.push((chunk_index, chunk));
        rest_steps = later_steps;
        rest_resources = later_resources;
        next = next + take as u32;
        chunk_index = chunk_index + 1;
        proof {
            assert(rest_steps@ =~= all_steps.subrange(next as int, n as int));
            assert(rest_resources@ =~= all_resources.subrange(next as int, n as int));
            assert(spec_chunk_first(chunk_index as int, chunk_steps as int) == spec_chunk_first(
                chunk_index - 1,
                chunk_steps as int,
            ) + chunk_steps) by (nonlinear_arith);
            if rest_steps@.len() > 0 {
                lemma_more_chunks(n as int, chunk_steps as int, chunk_index as int);
            }
        }
    }
    proof {
        if n > 0 {
            lemma_chunks_complete(n as int, chunk_steps as int, chunk_index as int);
        } else {
            assert(spec_chunk_count(0, chunk_steps as int) == 0);
        }
    }
    let header = ActorContractHeader {
        meta,
        semantic_contract_id,
        body_commitment,
        admission_identity,
        step_count: n,
    };
    Some((ActorContractHead { header, first_step, first_step_resources }, chunks))
}

/// Steps of all tail chunks, concatenated in chunk order.
pub open spec fn concat_chunk_steps<S>(chunks: Seq<(u32, ActorStepChunk<S>)>) -> Seq<S>
    decreases chunks.len(),
{
    if chunks.len() == 0 {
        Seq::empty()
    } else {
        concat_chunk_steps(chunks.drop_last()) + chunks.last().1.steps@
    }
}

/// Tail chunk `i` is well placed: right index, nonempty, one resource per Step, full unless
/// last, and bound to the head's Contract body at its first Step index.
pub open spec fn spec_chunk_valid<M, S>(
    actor_id: ActorId,
    head: &ActorContractHead<M, S>,
    chunks: Seq<(u32, ActorStepChunk<S>)>,
    i: int,
    chunk_steps: int,
) -> bool {
    let chunk = chunks[i].1;
    &&& chunks[i].0 == i
    &&& chunk.steps@.len() > 0
    &&& chunk.steps@.len() == chunk.step_resources@.len()
    &&& (i + 1 < chunks.len() ==> chunk.steps@.len() == chunk_steps)
    &&& spec_chunk_first(i, chunk_steps) <= u32::MAX
    &&& spec_chunk_matches(
        &chunk,
        actor_id,
        head.header.semantic_contract_id,
        head.header.body_commitment,
        head.header.admission_identity,
        spec_chunk_first(i, chunk_steps) as u32,
    )
}

/// The head's first-Step slots agree with its Step count.
pub open spec fn spec_head_valid<M, S>(head: &ActorContractHead<M, S>) -> bool {
    ||| (head.first_step is Some && head.first_step_resources is Some && head.header.step_count > 0)
    ||| (head.first_step is None && head.first_step_resources is None && head.header.step_count == 0)
}

pub open spec fn head_steps<M, S>(head: &ActorContractHead<M, S>) -> Seq<S> {
    match head.first_step {
        Some(s) => seq![s],
        None => Seq::empty(),
    }
}

/// A head and its tail chunks form one complete Contract geometry.
pub open spec fn spec_geometry_valid<M, S>(
    actor_id: ActorId,
    head: &ActorContractHead<M, S>,
    chunks: Seq<(u32, ActorStepChunk<S>)>,
    chunk_steps: int,
) -> bool {
    &&& spec_head_valid(head)
    &&& forall|i: int| 0 <= i < chunks.len() ==> #[trigger] spec_chunk_valid(actor_id, head, chunks, i, chunk_steps)
    &&& head_steps(head).len() + concat_chunk_steps(chunks).len() == head.header.step_count
}

/// Rebuilds the Contract from its head and tail chunks, refusing any geometry that is not
/// exactly one complete, consistently bound decomposition.
pub fn reconstruct_contract_geometry<M, S>(
    actor_id: ActorId,
    head: ActorContractHead<M, S>,
    chunks: Vec<(u32, ActorStepChunk<S>)>,
    chunk_steps: u32,
) -> (r: Option<ActorContract<M, S>>)
    requires
        chunk_steps > 0,
    ensures
        r is Some <==> spec_geometry_valid(actor_id, &head, chunks@, chunk_steps as int),
        r matches Some(c) ==> c.meta == head.header.meta && c.steps@ == head_steps(&head)
            + concat_chunk_steps(chunks@),
{
    let ghost head0 = head;
    let ghost all = chunks@;
    let ActorContractHead { header, first_step, first_step_resources } = head;
    let mut steps: Vec<S> = Vec::new();
    match (first_step, first_step_resources) {
        (Some(s), Some(_)) => {
            if header.step_count == 0 {
                return None;
            }
            steps.push(s);
        },
        (None, None) => {
            if header.step_count != 0 {
                return None;
            }
        },
        _ => {
            return None;
        },
    }
    proof {
        assert(steps@ =~= head_steps(&head0));
    }
    let total = chunks.len();
    let mut rest = chunks;
    let mut expected: usize = 0;
    #[verifier::loop_isolation(false)]
    while rest.len() > 0
        invariant
            chunk_steps > 0,
            total == all.len(),
            expected + rest@.len() == total,
            rest@ == all.subrange(expected as int, total as int),
            header.step_count == head0.header.step_count,
            header.semantic_contract_id == head0.header.semantic_contract_id,
            header.body_commitment == head0.header.body_commitment,
            header.admission_identity == head0.header.admission_identity,
            header.meta == head0.header.meta,
            spec_head_valid(&head0),
            steps@ == head_steps(&head0) + concat_chunk_steps(all.take(expected as int)),
            forall|i: int| 0 <= i < expected ==> #[trigger] spec_chunk_valid(actor_id, &head0, all, i, chunk_steps as int),
        decreases rest@.len(),
    {
        let ghost entry = all[expected as int];
        let (chunk_index, chunk) = rest.remove(0);
        proof {
            assert(chunk_index == entry.0 && chunk == entry.1);
        }
        if expected > u32::MAX as usize {
            proof {
                lemma_first_exceeds(expected as int, chunk_steps as int);
                assert(!spec_chunk_valid(actor_id, &head0, all, expected as int, chunk_steps as int));
                assert(!spec_geometry_valid(actor_id, &head0, all, chunk_steps as int));
            }
            return None;
        }
        let expected32 = expected as u32;
        if chunk_index != expected32 || chunk.steps.len() == 0 || chunk.steps.len()
            != chunk.step_resources.len() || (expected + 1 < total && chunk.steps.len()
            != chunk_steps as usize) {
            proof {
                assert(!spec_chunk_valid(actor_id, &head0, all, expected as int, chunk_steps as int));
                assert(!spec_geometry_valid(actor_id, &head0, all, chunk_steps as int));
            }
            return None;
        }
        proof {
            assert(expected32 as u64 * chunk_steps as u64 <= 0xFFFF_FFFE_0000_0001u64) by (nonlinear_arith)
                requires
                    expected32 <= u32::MAX,
                    chunk_steps <= u32::MAX,
            ;
        }
        let first_wide = 1u64 + expected32 as u64 * chunk_steps as u64;
        if first_wide > u32::MAX as u64 {
            proof {
                assert(!spec_chunk_valid(actor_id, &head0, all, expected as int, chunk_steps as int));
                assert(!spec_geometry_valid(actor_id, &head0, all, chunk_steps as int));
            }
            return None;
        }
        let first_step_index = first_wide as u32;
        if !chunk.matches(
            actor_id,
            &header.semantic_contract_id,
            &header.body_commitment,
            &header.admission_identity,
            first_step_index,
        ) {
            proof {
                assert(!spec_chunk_valid(actor_id, &head0, all, expected as int, chunk_steps as int));
                assert(!spec_geometry_valid(actor_id, &head0, all, chunk_steps as int));
            }
            return None;
        }
        let ActorStepChunk { authority: _, first_step_index: _, steps: mut chunk_steps_vec, step_resources: _ } = chunk;
        steps.append(&mut chunk_steps_vec);
        proof {
            assert(all.take(expected as int + 1).drop_last() =~= all.take(expected as int));
            assert(all.take(expected as int + 1).last() == entry);
            assert(spec_chunk_valid(actor_id, &head0, all, expected as int, chunk_steps as int));
        }
        expected = expected + 1;
        proof {
            assert(rest@ =~= all.subrange(expected as int, total as int));
        }
    }
    proof {
        assert(all.take(total as int) =~= all);
    }
    if steps.len() != header.step_count as usize {
        return None;
    }
    Some(ActorContract { meta: header.meta, steps })
}

proof fn lemma_first_exceeds(i: int, cs: int)
    requires
        i > u32::MAX,
        cs > 0,
    ensures
        spec_chunk_first(i, cs) > u32::MAX,
{
    assert(i * cs >= i) by (nonlinear_arith)
        requires
            i > 0,
            cs > 0,
    ;
}

/// Bounds of the chunk count: the chunks cover every Step past the head and the last chunk
/// is not empty.
proof fn lemma_chunk_count_bounds(n: int, cs: int)
    requires
        n >= 2,
        cs > 0,
    ensures
        spec_chunk_count(n, cs) >= 1,
        spec_chunk_count(n, cs) * cs >= n - 1,
        (spec_chunk_count(n, cs) - 1) * cs < n - 1,
{
    let t = n - 1;
    let q = spec_chunk_count(n, cs);
    vstd::arithmetic::div_mod::lemma_fundamental_div_mod(t + cs - 1, cs);
    vstd::arithmetic::div_mod::lemma_mod_pos_bound(t + cs - 1, cs);
    let r = (t + cs - 1) % cs;
    assert(q == (t + cs - 1) / cs);
    assert(q * cs >= t && (q - 1) * cs < t && q >= 1) by (nonlinear_arith)
        requires
            t + cs - 1 == cs * q + r,
            0 <= r < cs,
            t >= 1,
    ;
}

/// Every chunk below the count starts inside the Contract.
proof fn lemma_chunk_first_inside(n: int, cs: int, k: int)
    requires
        n >= 2,
        cs > 0,
        0 <= k < spec_chunk_count(n, cs),
    ensures
        spec_chunk_first(k, cs) < n,
        spec_chunk_first(k + 1, cs) == spec_chunk_first(k, cs) + cs,
{
    lemma_chunk_count_bounds(n, cs);
    let q = spec_chunk_count(n, cs);
    assert(k * cs <= (q - 1) * cs) by (nonlinear_arith)
        requires
            k <= q - 1,
            cs > 0,
    ;
    assert(spec_chunk_first(k + 1, cs) == spec_chunk_first(k, cs) + cs) by (nonlinear_arith);
}

/// The tail chunks of a decomposition hold, in order, every Step after the first.
proof fn lemma_windows_concat<S>(
    chunks: Seq<(u32, ActorStepChunk<S>)>,
    authority: ActorBodyAuthority,
    steps: Seq<S>,
    resources: Seq<ActorStepResourceEnvelope>,
    cs: int,
    k: int,
)
    requires
        steps.len() >= 2,
        cs > 0,
        chunks.len() == spec_chunk_count(steps.len() as int, cs),
        0 <= k <= chunks.len(),
        forall|i: int|
            0 <= i < chunks.len() ==> #[trigger] chunks[i].0 == i && spec_chunk_is_window(
                &chunks[i].1,
                i,
                authority,
                steps,
                resources,
                cs,
            ),
    ensures
        concat_chunk_steps(chunks.take(k)) == steps.subrange(
            1,
            if spec_chunk_first(k, cs) <= steps.len() {
                spec_chunk_first(k, cs)
            } else {
                steps.len() as int
            },
        ),
    decreases k,
{
    let n = steps.len() as int;
    if k == 0 {
        assert(chunks.take(0) =~= Seq::<(u32, ActorStepChunk<S>)>::empty());
        assert(steps.subrange(1, 1) =~= Seq::<S>::empty());
    } else {
        lemma_windows_concat(chunks, authority, steps, resources, cs, k - 1);
        lemma_chunk_first_inside(n, cs, k - 1);
        assert(chunks.take(k).drop_last() =~= chunks.take(k - 1));
        assert(chunks.take(k).last() == chunks[k - 1]);
        assert(chunks[k - 1].0 == k - 1);
        assert(spec_chunk_is_window(&chunks[k - 1].1, k - 1, authority, steps, resources, cs));
        let a = spec_chunk_first(k - 1, cs);
        let e = spec_chunk_end(k - 1, cs, n);
        assert(steps.subrange(1, a) + steps.subrange(a, e) =~= steps.subrange(1, e));
    }
}

/// Decomposing a Contract and reconstructing the result gives the Contract back: the
/// geometry is accepted and yields the same Steps in the same order.
pub proof fn lemma_reconstruct_inverts_decompose<M, S>(
    actor_id: ActorId,
    meta: M,
    steps: Seq<S>,
    resources: Seq<ActorStepResourceEnvelope>,
    semantic_contract_id: Commitment,
    body_commitment: Commitment,
    admission_identity: Commitment,
    head: &ActorContractHead<M, S>,
    chunks: Seq<(u32, ActorStepChunk<S>)>,
    chunk_steps: int,
)
    requires
        chunk_steps > 0,
        spec_is_decomposition(
            actor_id,
            meta,
            steps,
            resources,
            semantic_contract_id,
            body_commitment,
            admission_identity,
            head,
            chunks,
            chunk_steps,
        ),
    ensures
        spec_geometry_valid(actor_id, head, chunks, chunk_steps),
        head_steps(head) + concat_chunk_steps(chunks) == steps,
        head.header.meta == meta,
{
    let n = steps.len() as int;
    let authority = ActorBodyAuthority {
        actor_id,
        semantic_contract_id,
        body_commitment,
        admission_identity,
    };
    if n <= 1 {
        assert(chunks.len() == 0);
        assert(chunks =~= Seq::<(u32, ActorStepChunk<S>)>::empty());
        if n == 1 {
            assert(head_steps(head) =~= steps);
        } else {
            assert(head_steps(head) =~= steps);
        }
    } else {
        lemma_chunk_count_bounds(n, chunk_steps);
        lemma_windows_concat(chunks, authority, steps, resources, chunk_steps, chunks.len() as int);
        assert(chunks.take(chunks.len() as int) =~= chunks);
        assert(spec_chunk_first(chunks.len() as int, chunk_steps) >= n);
        assert(head_steps(head) + steps.subrange(1, n) =~= steps);
        assert forall|i: int| 0 <= i < chunks.len() implies #[trigger] spec_chunk_valid(
            actor_id,
            head,
            chunks,
            i,
            chunk_steps,
        ) by {
            lemma_chunk_first_inside(n, chunk_steps, i);
            assert(chunks[i].0 == i);
            assert(spec_chunk_is_window(&chunks[i].1, i, authority, steps, resources, chunk_steps));
            if i + 1 < chunks.len() {
                lemma_chunk_first_inside(n, chunk_steps, i + 1);
            }
        }
    }
}

/// Loads the Step at `cursor` from the head (cursor zero) or from the supplied tail chunk,
/// refusing a certificate that does not name the head's Contract body and any chunk that is
/// not the exact chunk holding `cursor`.
pub fn load_current_step_from_geometry<'a, M, S>(
    actor_id: ActorId,
    head: &'a ActorContractHead<M, S>,
    certificate: &ActorAdmissionIdentity,
    cursor: u32,
    tail_chunk: Option<(u32, &'a ActorStepChunk<S>)>,
    chunk_steps: u32,
) -> (r: Option<LoadedActorStep<'a, S>>)
    requires
        chunk_steps > 0,
    ensures
        r is Some <==> {
            &&& spec_certificate_matches_header(*certificate, &head.header)
            &&& if cursor == 0 {
                &&& tail_chunk is None
                &&& head.header.step_count != 0
                &&& head.first_step is Some
                &&& head.first_step_resources is Some
            } else {
                &&& spec_chunk_first((cursor - 1) / (chunk_steps as int), chunk_steps as int) <= u32::MAX
                &&& tail_chunk matches Some((index, chunk)) && {
                    let local = cursor - spec_chunk_first(index as int, chunk_steps as int);
                    &&& index == (cursor - 1) / (chunk_steps as int)
                    &&& spec_chunk_matches(
                        chunk,
                        actor_id,
                        head.header.semantic_contract_id,
                        head.header.body_commitment,
                        head.header.admission_identity,
                        spec_chunk_first(index as int, chunk_steps as int) as u32,
                    )
                    &&& local < chunk.step_resources@.len()
                    &&& chunk.steps@.len() == chunk.step_resources@.len()
                }
            }
        },
        r matches Some(loaded) ==> loaded.cursor == cursor && if cursor == 0 {
            Some(*loaded.step) == head.first_step && Some(loaded.resources) == head.first_step_resources
        } else {
            tail_chunk matches Some((index, chunk)) && {
                let local = cursor - spec_chunk_first(index as int, chunk_steps as int);
                &&& *loaded.step == chunk.steps@[local]
                &&& loaded.resources == chunk.step_resources@[local]
            }
        },
{
    if !certificate_matches_header(certificate, &head.header) {
        return None;
    }
    if cursor == 0 {
        if tail_chunk.is_some() || head.header.step_count == 0 {
            return None;
        }
        let step = match &head.first_step {
            Some(step) => step,
            None => return None,
        };
        let resources = match head.first_step_resources {
            Some(resources) => resources,
            None => return None,
        };
        return Some(LoadedActorStep { cursor, step, resources });
    }
    let expected_chunk_index = (cursor - 1) / chunk_steps;
    proof {
        assert(expected_chunk_index as u64 * chunk_steps as u64 <= 0xFFFF_FFFE_0000_0001u64) by (nonlinear_arith)
            requires
                expected_chunk_index <= u32::MAX,
                chunk_steps <= u32::MAX,
        ;
    }
    let first_wide = 1u64 + expected_chunk_index as u64 * chunk_steps as u64;
    if first_wide > u32::MAX as u64 {
        return None;
    }
    let expected_first_step_index = first_wide as u32;
    let (chunk_index, chunk) = match tail_chunk {
        Some(entry) => entry,
        None => return None,
    };
    if chunk_index != expected_chunk_index || !chunk.matches(
        actor_id,
        &head.header.semantic_contract_id,
        &head.header.body_commitment,
        &head.header.admission_identity,
        expected_first_step_index,
    ) {
        return None;
    }
    proof {
        let x = (cursor - 1) as int;
        let d = chunk_steps as int;
        vstd::arithmetic::div_mod::lemma_fundamental_div_mod(x, d);
        vstd::arithmetic::div_mod::lemma_mod_pos_bound(x, d);
        assert(expected_chunk_index * chunk_steps <= cursor - 1) by (nonlinear_arith)
            requires
                x == d * expected_chunk_index + x % d,
                0 <= x % d,
                x == cursor - 1,
                d == chunk_steps,
        ;
    }
    let local_index = (cursor - expected_first_step_index) as usize;
    if local_index >= chunk.step_resources.len() {
        return None;
    }
    let resources = chunk.step_resources[local_index];
    if chunk.steps.len() != chunk.step_resources.len() {
        return None;
    }
    Some(LoadedActorStep { cursor, step: &chunk.steps[local_index], resources })
}

/// On a decomposed geometry, loading any cursor of the Contract with its chunk gives back
/// exactly that Step and its resources.
pub proof fn lemma_load_returns_decomposed_step<M, S>(
    actor_id: ActorId,
    meta: M,
    steps: Seq<S>,
    resources: Seq<ActorStepResourceEnvelope>,
    semantic_contract_id: Commitment,
    body_commitment: Commitment,
    admission_identity: Commitment,
    head: &ActorContractHead<M, S>,
    chunks: Seq<(u32, ActorStepChunk<S>)>,
    chunk_steps: int,
    cursor: int,
)
    requires
        chunk_steps > 0,
        spec_is_decomposition(
            actor_id,
            meta,
            steps,
            resources,
            semantic_contract_id,
            body_commitment,
            admission_identity,
            head,
            chunks,
            chunk_steps,
        ),
        0 < cursor < steps.len(),
    ensures
        ({
            let k = (cursor - 1) / chunk_steps;
            let local = cursor - spec_chunk_first(k, chunk_steps);
            &&& 0 <= k < chunks.len()
            &&& chunks[k].0 == k
            &&& spec_chunk_first(k, chunk_steps) <= u32::MAX
            &&& spec_chunk_matches(
                &chunks[k].1,
                actor_id,
                head.header.semantic_contract_id,
                head.header.body_commitment,
                head.header.admission_identity,
                spec_chunk_first(k, chunk_steps) as u32,
            )
            &&& 0 <= local < chunks[k].1.steps@.len()
            &&& chunks[k].1.steps@.len() == chunks[k].1.step_resources@.len()
            &&& chunks[k].1.steps@[local] == steps[cursor]
            &&& chunks[k].1.step_resources@[local] == resources[cursor]
        }),
{
    let n = steps.len() as int;
    let cs = chunk_steps;
    let k = (cursor - 1) / cs;
    vstd::arithmetic::div_mod::lemma_fundamental_div_mod(cursor - 1, cs);
    vstd::arithmetic::div_mod::lemma_mod_pos_bound(cursor - 1, cs);
    let r = (cursor - 1) % cs;
    assert(k >= 0) by {
        vstd::arithmetic::div_mod::lemma_div_pos_is_pos(cursor - 1, cs);
    }
    assert(spec_chunk_first(k, cs) <= cursor && cursor < spec_chunk_first(k, cs) + cs) by (nonlinear_arith)
        requires
            cursor - 1 == cs * k + r,
            0 <= r < cs,
    ;
    lemma_chunk_count_bounds(n, cs);
    let q = spec_chunk_count(n, cs);
    if k >= q {
        assert(k * cs >= q * cs) by (nonlinear_arith)
            requires
                k >= q,
                cs > 0,
        ;
    }
    assert(k < chunks.len());
    lemma_chunk_first_inside(n, cs, k);
    assert(chunks[k].0 == k);
    let authority = ActorBodyAuthority {
        actor_id,
        semantic_contract_id,
        body_commitment,
        admission_identity,
    };
    assert(spec_chunk_is_window(&chunks[k].1, k, authority, steps, resources, cs));
}

proof fn lemma_window_step(n: int, cs: int, ci: int)
    requires
        cs > 0,
        n > 0,
        0 <= ci,
        spec_chunk_first(ci, cs) < n,
    ensures
        spec_chunk_first(ci + 1, cs) == spec_chunk_first(ci, cs) + cs,
        spec_chunk_end(ci, cs, n) == if n - spec_chunk_first(ci, cs) < cs {
            n
        } else {
            spec_chunk_first(ci, cs) + cs
        },
{
    assert(spec_chunk_first(ci + 1, cs) == spec_chunk_first(ci, cs) + cs) by (nonlinear_arith);
}

/// While Steps remain after `ci` full chunks, another chunk is counted.
proof fn lemma_more_chunks(n: int, cs: int, ci: int)
    requires
        cs > 0,
        ci >= 0,
        spec_chunk_first(ci, cs) < n,
    ensures
        ci < spec_chunk_count(n, cs),
{
    assert(1 + ci * cs < n);
    assert(n - 1 >= ci * cs + 1);
    assert(ceil_div(n - 1, cs) >= ci + 1) by (nonlinear_arith)
        requires
            n - 1 >= ci * cs + 1,
            cs > 0,
            ci >= 0,
    {
        assert(n - 1 + cs - 1 >= (ci + 1) * cs);
        vstd::arithmetic::div_mod::lemma_div_is_ordered((ci + 1) * cs, n - 1 + cs - 1, cs);
        vstd::arithmetic::div_mod::lemma_div_by_multiple(ci + 1, cs);
    }
}

/// Once the last chunk ends at `n`, exactly `spec_chunk_count` chunks were emitted.
proof fn lemma_chunks_complete(n: int, cs: int, ci: int)
    requires
        cs > 0,
        n > 0,
        ci >= 0,
        spec_chunk_first(ci, cs) >= n,
        ci <= spec_chunk_count(n, cs),
    ensures
        ci == spec_chunk_count(n, cs),
{
    if ci < spec_chunk_count(n, cs) {
        assert(1 + ci * cs >= n);
        assert(n - 1 + cs - 1 < (ci + 1) * cs) by (nonlinear_arith)
            requires
                1 + ci * cs >= n,
                cs > 0,
        ;
        assert(ceil_div(n - 1, cs) <= ci) by (nonlinear_arith)
            requires
                n - 1 + cs - 1 < (ci + 1) * cs,
                cs > 0,
                n >= 1,
        {
            vstd::arithmetic::div_mod::lemma_div_is_ordered(n - 1 + cs - 1, (ci + 1) * cs - 1, cs);
            vstd::arithmetic::div_mod::lemma_fundamental_div_mod_converse((ci + 1) * cs - 1, cs, ci, cs - 1);
        }
    }
}

} // verus!
