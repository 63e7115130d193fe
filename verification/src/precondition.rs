//! Canonical disjunctive normal form of Step preconditions: predicates ordered by encoding
//! and deduplicated inside each clause, clauses ordered by encoding, duplicate clauses
//! refused and clauses implied by a smaller clause absorbed.
use vstd::prelude::*;

use crate::contract::{Precondition, Predicate, Step};
use crate::errors::Error;

verus! {

/// A predicate as a plain value: its encoding and its observation freshness bound.
pub type PredicateView = (Seq<u8>, Option<u32>);

// ---------------------------------------------------------------------------------------------
// Byte-string order.
// ---------------------------------------------------------------------------------------------

/// Lexicographic strict order on byte strings, the order of `Vec<u8>`.
#[verifier::opaque]
pub open spec fn lex_lt(a: Seq<u8>, b: Seq<u8>) -> bool
    decreases a.len(),
{
    if a.len() == 0 {
        b.len() > 0
    } else if b.len() == 0 {
        false
    } else if a[0] != b[0] {
        a[0] < b[0]
    } else {
        lex_lt(a.drop_first(), b.drop_first())
    }
}

pub proof fn lemma_lex_irreflexive(a: Seq<u8>)
    ensures
        !lex_lt(a, a),
    decreases a.len(),
{
    reveal(lex_lt);
    if a.len() > 0 {
        lemma_lex_irreflexive(a.drop_first());
    }
}

pub proof fn lemma_lex_asymmetric(a: Seq<u8>, b: Seq<u8>)
    requires
        lex_lt(a, b),
    ensures
        !lex_lt(b, a),
    decreases a.len(),
{
    reveal(lex_lt);
    if a.len() > 0 && b.len() > 0 && a[0] == b[0] {
        lemma_lex_asymmetric(a.drop_first(), b.drop_first());
    }
}

pub proof fn lemma_lex_transitive(a: Seq<u8>, b: Seq<u8>, c: Seq<u8>)
    requires
        lex_lt(a, b),
        lex_lt(b, c),
    ensures
        lex_lt(a, c),
    decreases a.len(),
{
    reveal(lex_lt);
    if a.len() > 0 && b.len() > 0 && c.len() > 0 && a[0] == b[0] && b[0] == c[0] {
        lemma_lex_transitive(a.drop_first(), b.drop_first(), c.drop_first());
    }
}

pub proof fn lemma_lex_total(a: Seq<u8>, b: Seq<u8>)
    requires
        a != b,
    ensures
        lex_lt(a, b) || lex_lt(b, a),
    decreases a.len(),
{
    reveal(lex_lt);
    if a.len() == 0 {
        assert(b.len() > 0) by {
            if b.len() == 0 {
                assert(a =~= b);
            }
        }
    } else if b.len() > 0 && a[0] == b[0] {
        assert(a.drop_first() != b.drop_first()) by {
            if a.drop_first() =~= b.drop_first() {
                assert(a =~= seq![a[0]] + a.drop_first());
                assert(b =~= seq![b[0]] + b.drop_first());
            }
        }
        lemma_lex_total(a.drop_first(), b.drop_first());
    }
}

/// `lex_lt` restricted to the suffixes after a common prefix of length `i`.
proof fn lemma_lex_skip(a: Seq<u8>, b: Seq<u8>, i: int)
    requires
        0 <= i <= a.len(),
        i <= b.len(),
        a.subrange(0, i) =~= b.subrange(0, i),
    ensures
        lex_lt(a, b) == lex_lt(a.subrange(i, a.len() as int), b.subrange(i, b.len() as int)),
    decreases i,
{
    reveal(lex_lt);
    if i > 0 {
        assert(a[0] == a.subrange(0, i)[0]);
        assert(b[0] == b.subrange(0, i)[0]);
        let a1 = a.drop_first();
        let b1 = b.drop_first();
        assert(a1.subrange(0, i - 1) =~= b1.subrange(0, i - 1)) by {
            assert forall|k: int| 0 <= k < i - 1 implies #[trigger] a1.subrange(0, i - 1)[k] == b1.subrange(0, i - 1)[k] by {
                assert(a.subrange(0, i)[k + 1] == b.subrange(0, i)[k + 1]);
            }
        }
        lemma_lex_skip(a1, b1, i - 1);
        assert(a1.subrange(i - 1, a1.len() as int) =~= a.subrange(i, a.len() as int));
        assert(b1.subrange(i - 1, b1.len() as int) =~= b.subrange(i, b.len() as int));
    } else {
        assert(a.subrange(0, a.len() as int) =~= a);
        assert(b.subrange(0, b.len() as int) =~= b);
    }
}

/// Strict lexicographic comparison of two byte strings.
pub fn bytes_lt(a: &Vec<u8>, b: &Vec<u8>) -> (r: bool)
    ensures
        r == lex_lt(a@, b@),
{
    let mut i: usize = 0;
    while i < a.len() && i < b.len()
        invariant
            0 <= i <= a@.len(),
            i <= b@.len(),
            a@.subrange(0, i as int) =~= b@.subrange(0, i as int),
        decreases a@.len() - i,
    {
        if a[i] != b[i] {
            proof {
                reveal(lex_lt);
                lemma_lex_skip(a@, b@, i as int);
                let sa = a@.subrange(i as int, a@.len() as int);
                let sb = b@.subrange(i as int, b@.len() as int);
                assert(sa[0] == a@[i as int]);
                assert(sb[0] == b@[i as int]);
            }
            return a[i] < b[i];
        }
        proof {
            assert(a@.subrange(0, i as int + 1) =~= a@.subrange(0, i as int).push(a@[i as int]));
            assert(b@.subrange(0, i as int + 1) =~= b@.subrange(0, i as int).push(b@[i as int]));
        }
        i = i + 1;
    }
    proof {
        reveal(lex_lt);
        lemma_lex_skip(a@, b@, i as int);
    }
    i < b.len()
}

/// Equality of two byte strings.
pub fn bytes_eq(a: &Vec<u8>, b: &Vec<u8>) -> (r: bool)
    ensures
        r == (a@ == b@),
{
    if a.len() != b.len() {
        return false;
    }
    let mut i: usize = 0;
    while i < a.len()
        invariant
            0 <= i <= a@.len(),
            a@.len() == b@.len(),
            forall|k: int| 0 <= k < i ==> a@[k] == b@[k],
        decreases a@.len() - i,
    {
        if a[i] != b[i] {
            return false;
        }
        i = i + 1;
    }
    proof {
        assert(a@ =~= b@);
    }
    true
}


// ---------------------------------------------------------------------------------------------
// Canonical clauses.
// ---------------------------------------------------------------------------------------------

/// A clause as plain values.
pub open spec fn clause_view(c: Seq<Predicate>) -> Seq<PredicateView> {
    c.map_values(|p: Predicate| p@)
}

/// The encodings of a clause's predicates, in order.
pub open spec fn keys(c: Seq<PredicateView>) -> Seq<Seq<u8>> {
    c.map_values(|p: PredicateView| p.0)
}

/// The set of encodings of a clause's predicates.
pub open spec fn keyset(c: Seq<PredicateView>) -> Set<Seq<u8>> {
    keys(c).to_set()
}

/// Strictly increasing in the byte-string order.
pub open spec fn strictly_sorted(ks: Seq<Seq<u8>>) -> bool {
    forall|i: int, j: int| 0 <= i < j < ks.len() ==> lex_lt(ks[i], ks[j])
}

/// The first predicate of `c` whose encoding is `k`.
pub open spec fn first_with_key(c: Seq<PredicateView>, k: Seq<u8>) -> PredicateView
    decreases c.len(),
{
    if c.len() == 0 {
        (k, None)
    } else if c[0].0 == k {
        c[0]
    } else {
        first_with_key(c.drop_first(), k)
    }
}

/// `out` is the canonical form of clause `c`: the distinct predicates of `c` (the first of each
/// encoding), ordered by encoding.
pub open spec fn canonical_clause_of(out: Seq<PredicateView>, c: Seq<PredicateView>) -> bool {
    &&& strictly_sorted(keys(out))
    &&& keyset(out) == keyset(c)
    &&& forall|i: int| 0 <= i < out.len() ==> out[i] == #[trigger] first_with_key(c, out[i].0)
}

proof fn lemma_first_with_key_push(c: Seq<PredicateView>, x: PredicateView, k: Seq<u8>)
    ensures
        keys(c).contains(k) ==> first_with_key(c.push(x), k) == first_with_key(c, k),
        !keys(c).contains(k) && x.0 == k ==> first_with_key(c.push(x), k) == x,
    decreases c.len(),
{
    if c.len() > 0 {
        assert(c.push(x).drop_first() =~= c.drop_first().push(x));
        if c[0].0 != k {
            lemma_first_with_key_push(c.drop_first(), x, k);
            if keys(c).contains(k) {
                let i = choose|i: int| 0 <= i < keys(c).len() && keys(c)[i] == k;
                assert(i > 0);
                assert(keys(c.drop_first())[i - 1] == k);
            }
            if keys(c.drop_first()).contains(k) {
                let i = choose|i: int| 0 <= i < keys(c.drop_first()).len() && keys(c.drop_first())[i] == k;
                assert(keys(c)[i + 1] == k);
            }
        } else {
            assert(keys(c)[0] == k);
        }
    } else {
        assert(c.push(x) =~= seq![x]);
    }
}

/// Strictly increasing sequences hold no duplicates.
pub proof fn lemma_strictly_sorted_no_duplicates(ks: Seq<Seq<u8>>)
    requires
        strictly_sorted(ks),
    ensures
        ks.no_duplicates(),
{
    assert forall|i: int, j: int| 0 <= i < ks.len() && 0 <= j < ks.len() && i != j implies ks[i] != ks[j] by {
        if i < j {
            lemma_lex_irreflexive(ks[i]);
        } else {
            lemma_lex_irreflexive(ks[j]);
        }
    }
}

/// Two strictly increasing sequences with the same elements are equal.
pub proof fn lemma_strictly_sorted_unique(a: Seq<Seq<u8>>, b: Seq<Seq<u8>>)
    requires
        strictly_sorted(a),
        strictly_sorted(b),
        a.to_set() == b.to_set(),
    ensures
        a == b,
    decreases a.len(),
{
    if a.len() == 0 {
        if b.len() > 0 {
            assert(b.to_set().contains(b[0]));
        }
    } else if b.len() == 0 {
        assert(a.to_set().contains(a[0]));
    } else {
        // Both heads are the least element of the common set.
        assert(b.to_set().contains(a[0]));
        assert(a.to_set().contains(b[0]));
        let ia = choose|i: int| 0 <= i < a.len() && a[i] == b[0];
        let ib = choose|i: int| 0 <= i < b.len() && b[i] == a[0];
        if a[0] != b[0] {
            assert(ia > 0 && ib > 0);
            assert(lex_lt(a[0], a[ia]));
            assert(lex_lt(b[0], b[ib]));
            lemma_lex_asymmetric(a[0], b[0]);
        }
        let a1 = a.drop_first();
        let b1 = b.drop_first();
        assert(a1.to_set() =~= b1.to_set()) by {
            assert forall|x: Seq<u8>| a1.to_set().contains(x) implies b1.to_set().contains(x) by {
                let i = choose|i: int| 0 <= i < a1.len() && a1[i] == x;
                assert(a[i + 1] == x);
                assert(lex_lt(a[0], x));
                assert(b.to_set().contains(x));
                let j = choose|j: int| 0 <= j < b.len() && b[j] == x;
                if j == 0 {
                    lemma_lex_irreflexive(x);
                }
                assert(b1[j - 1] == x);
            }
            assert forall|x: Seq<u8>| b1.to_set().contains(x) implies a1.to_set().contains(x) by {
                let i = choose|i: int| 0 <= i < b1.len() && b1[i] == x;
                assert(b[i + 1] == x);
                assert(lex_lt(b[0], x));
                assert(a.to_set().contains(x));
                let j = choose|j: int| 0 <= j < a.len() && a[j] == x;
                if j == 0 {
                    lemma_lex_irreflexive(x);
                }
                assert(a1[j - 1] == x);
            }
        }
        lemma_strictly_sorted_unique(a1, b1);
        assert(a =~= seq![a[0]] + a1);
        assert(b =~= seq![b[0]] + b1);
    }
}

/// The canonical form of one clause: each distinct encoding once, the first predicate that
/// carries it, in encoding order.
pub fn canonical_clause(c: &Vec<Predicate>) -> (out: Vec<Predicate>)
    ensures
        canonical_clause_of(clause_view(out@), clause_view(c@)),
        out@.len() <= c@.len(),
{
    let mut out: Vec<Predicate> = Vec::new();
    let mut i: usize = 0;
    proof {
        assert(clause_view(c@.take(0)) =~= Seq::<PredicateView>::empty());
        assert(clause_view(out@) =~= Seq::<PredicateView>::empty());
        assert(keyset(Seq::<PredicateView>::empty()) =~= Set::<Seq<u8>>::empty());
    }
    while i < c.len()
        invariant
            0 <= i <= c@.len(),
            out@.len() <= i,
            canonical_clause_of(clause_view(out@), clause_view(c@.take(i as int))),
        decreases c@.len() - i,
    {
        let ghost cv = clause_view(c@.take(i as int));
        let ghost ov = clause_view(out@);
        let ghost x = c@[i as int]@;
        proof {
            assert(clause_view(c@.take(i as int + 1)) =~= cv.push(x));
        }
        // First position whose encoding is not below the new one.
        let mut j: usize = 0;
        loop
            invariant
                0 <= j <= out@.len(),
                i < c@.len(),
                ov == clause_view(out@),
                x == c@[i as int]@,
                forall|k: int| 0 <= k < j ==> lex_lt(#[trigger] ov[k].0, x.0),
            ensures
                0 <= j <= out@.len(),
                forall|k: int| 0 <= k < j ==> lex_lt(#[trigger] ov[k].0, x.0),
                j < out@.len() ==> !lex_lt(ov[j as int].0, x.0),
            decreases out@.len() - j,
        {
            if j >= out.len() {
                break;
            }
            if !bytes_lt(&out[j].encoded, &c[i].encoded) {
                break;
            }
            j = j + 1;
        }
        let present = j < out.len() && bytes_eq(&out[j].encoded, &c[i].encoded);
        if present {
            proof {
                assert(keys(ov)[j as int] == x.0);
                assert(keyset(ov).contains(x.0));
                assert(keyset(cv).contains(x.0));
                assert(keyset(cv.push(x)) =~= keyset(cv)) by {
                    assert(keys(cv.push(x)) =~= keys(cv).push(x.0));
                    assert forall|k: Seq<u8>| keyset(cv.push(x)).contains(k) implies keyset(cv).contains(k) by {
                        let t = choose|t: int| 0 <= t < keys(cv.push(x)).len() && keys(cv.push(x))[t] == k;
                        if t < cv.len() {
                            assert(keys(cv)[t] == k);
                        }
                    }
                    assert forall|k: Seq<u8>| keyset(cv).contains(k) implies keyset(cv.push(x)).contains(k) by {
                        let t = choose|t: int| 0 <= t < keys(cv).len() && keys(cv)[t] == k;
                        assert(keys(cv.push(x))[t] == k);
                    }
                }
                assert forall|k: int| 0 <= k < ov.len() implies ov[k] == #[trigger] first_with_key(
                    cv.push(x),
                    ov[k].0,
                ) by {
                    assert(keyset(ov).contains(keys(ov)[k]));
                    lemma_first_with_key_push(cv, x, ov[k].0);
                    assert(ov[k] == first_with_key(cv, ov[k].0));
                }
            }
        } else {
            let p = c[i].duplicate();
            out.insert(j, p);
            proof {
                let nv = clause_view(out@);
                assert(nv =~= ov.insert(j as int, x));
                assert(!keyset(ov).contains(x.0)) by {
                    if keyset(ov).contains(x.0) {
                        let k = choose|k: int| 0 <= k < keys(ov).len() && keys(ov)[k] == x.0;
                        if k < j {
                            lemma_lex_irreflexive(x.0);
                        } else if k > j {
                            assert(lex_lt(keys(ov)[j as int], keys(ov)[k]));
                            lemma_lex_total(ov[j as int].0, x.0);
                            lemma_lex_asymmetric(x.0, ov[j as int].0);
                        }
                    }
                }
                assert(!keys(cv).contains(x.0));
                // Sortedness.
                assert forall|a: int, b: int| 0 <= a < b < nv.len() implies lex_lt(
                    #[trigger] keys(nv)[a],
                    #[trigger] keys(nv)[b],
                ) by {
                    if b < j {
                        assert(lex_lt(keys(ov)[a], keys(ov)[b]));
                    } else if b == j {
                        assert(lex_lt(ov[a].0, x.0));
                    } else if a < j {
                        assert(lex_lt(ov[a].0, x.0));
                        lemma_lex_total(ov[j as int].0, x.0);
                        if b - 1 > j {
                            assert(lex_lt(keys(ov)[j as int], keys(ov)[b - 1]));
                            lemma_lex_transitive(x.0, ov[j as int].0, ov[b - 1].0);
                        }
                        lemma_lex_transitive(ov[a].0, x.0, ov[b - 1].0);
                    } else if a == j {
                        lemma_lex_total(ov[j as int].0, x.0);
                        if b - 1 > j {
                            assert(lex_lt(keys(ov)[j as int], keys(ov)[b - 1]));
                            lemma_lex_transitive(x.0, ov[j as int].0, ov[b - 1].0);
                        }
                    } else {
                        assert(lex_lt(keys(ov)[a - 1], keys(ov)[b - 1]));
                    }
                }
                assert(keys(nv) =~= keys(ov).insert(j as int, x.0));
                assert(keys(cv.push(x)) =~= keys(cv).push(x.0));
                assert(keyset(nv) =~= keyset(cv.push(x))) by {
                    assert forall|k: Seq<u8>| keyset(nv).contains(k) <==> keyset(cv.push(x)).contains(k) by {
                        if keyset(nv).contains(k) {
                            let t = choose|t: int| 0 <= t < keys(nv).len() && keys(nv)[t] == k;
                            if t < j {
                                assert(keyset(ov).contains(keys(ov)[t]));
                            } else if t > j {
                                assert(keyset(ov).contains(keys(ov)[t - 1]));
                            }
                            if k != x.0 {
                                assert(keyset(cv).contains(k));
                                let u = choose|u: int| 0 <= u < keys(cv).len() && keys(cv)[u] == k;
                                assert(keys(cv.push(x))[u] == k);
                            } else {
                                assert(keys(cv.push(x))[cv.len() as int] == k);
                            }
                        }
                        if keyset(cv.push(x)).contains(k) {
                            let t = choose|t: int| 0 <= t < keys(cv.push(x)).len() && keys(cv.push(x))[t] == k;
                            if t < cv.len() {
                                assert(keys(cv)[t] == k);
                                assert(keyset(cv).contains(k));
                                assert(keyset(ov).contains(k));
                                let u = choose|u: int| 0 <= u < keys(ov).len() && keys(ov)[u] == k;
                                if u < j {
                                    assert(keys(nv)[u] == k);
                                } else {
                                    assert(keys(nv)[u + 1] == k);
                                }
                            } else {
                                assert(keys(nv)[j as int] == k);
                            }
                        }
                    }
                }
                assert forall|k: int| 0 <= k < nv.len() implies nv[k] == #[trigger] first_with_key(
                    cv.push(x),
                    nv[k].0,
                ) by {
                    if k == j {
                        lemma_first_with_key_push(cv, x, x.0);
                    } else {
                        let o = if k < j { k } else { k - 1 };
                        assert(nv[k] == ov[o]);
                        assert(keyset(ov).contains(keys(ov)[o]));
                        lemma_first_with_key_push(cv, x, ov[o].0);
                    }
                }
            }
        }
        i = i + 1;
    }
    proof {
        assert(c@.take(c@.len() as int) =~= c@);
    }
    out
}


// ---------------------------------------------------------------------------------------------
// Clause encodings.
// ---------------------------------------------------------------------------------------------

/// The compact encoding of a length: one byte below 2^6, two bytes below 2^14, four bytes
/// below 2^30, else a marker byte and the four little-endian bytes of the value; the low two
/// bits of the first byte name the mode.
pub open spec fn compact_len(n: u32) -> Seq<u8> {
    if n < 64 {
        seq![(n * 4) as u8]
    } else if n < 16384 {
        let v = n * 4 + 1;
        seq![(v % 256) as u8, (v / 256) as u8]
    } else if n < 1073741824 {
        let v = n * 4 + 2;
        seq![(v % 256) as u8, ((v / 256) % 256) as u8, ((v / 65536) % 256) as u8, (v / 16777216) as u8]
    } else {
        seq![3u8, (n % 256) as u8, ((n / 256) % 256) as u8, ((n / 65536) % 256) as u8, (n / 16777216) as u8]
    }
}

/// The concatenation of byte strings.
pub open spec fn flatten(ks: Seq<Seq<u8>>) -> Seq<u8>
    decreases ks.len(),
{
    if ks.len() == 0 {
        Seq::empty()
    } else {
        ks[0] + flatten(ks.drop_first())
    }
}

/// The encoding of a clause: its compact length, then its predicates' encodings in order.
#[verifier::opaque]
pub open spec fn clause_encoding(c: Seq<PredicateView>) -> Seq<u8> {
    compact_len(c.len() as u32) + flatten(keys(c))
}

/// No encoding in `s` is a proper prefix of another: a self-delimiting code.
pub open spec fn prefix_free(s: Set<Seq<u8>>) -> bool {
    forall|a: Seq<u8>, b: Seq<u8>|
        #![trigger s.contains(a), s.contains(b)]
        s.contains(a) && s.contains(b) && a.is_prefix_of(b) ==> a == b
}

proof fn lemma_flatten_push(ks: Seq<Seq<u8>>, k: Seq<u8>)
    ensures
        flatten(ks.push(k)) == flatten(ks) + k,
    decreases ks.len(),
{
    if ks.len() == 0 {
        assert(ks.push(k).drop_first() =~= Seq::<Seq<u8>>::empty());
        assert(flatten(ks.push(k).drop_first()) =~= Seq::<u8>::empty());
        assert(flatten(ks) =~= Seq::<u8>::empty());
        assert(flatten(ks.push(k)) =~= k);
    } else {
        assert(ks.push(k).drop_first() =~= ks.drop_first().push(k));
        lemma_flatten_push(ks.drop_first(), k);
        assert(flatten(ks.push(k)) =~= flatten(ks) + k);
    }
}

/// Concatenations of equally many words of a self-delimiting code decode uniquely.
proof fn lemma_flatten_injective(u: Seq<Seq<u8>>, v: Seq<Seq<u8>>, s: Set<Seq<u8>>)
    requires
        prefix_free(s),
        u.len() == v.len(),
        forall|i: int| 0 <= i < u.len() ==> s.contains(#[trigger] u[i]),
        forall|i: int| 0 <= i < v.len() ==> s.contains(#[trigger] v[i]),
        flatten(u) == flatten(v),
    ensures
        u == v,
    decreases u.len(),
{
    if u.len() > 0 {
        let a = u[0];
        let b = v[0];
        let fu = flatten(u.drop_first());
        let fv = flatten(v.drop_first());
        assert(flatten(u) == a + fu);
        assert(flatten(v) == b + fv);
        assert(s.contains(a) && s.contains(b));
        if a.len() <= b.len() {
            assert(a =~= b.subrange(0, a.len() as int)) by {
                assert forall|k: int| 0 <= k < a.len() implies a[k] == b.subrange(0, a.len() as int)[k] by {
                    assert((a + fu)[k] == (b + fv)[k]);
                }
            }
            assert(a.is_prefix_of(b));
        } else {
            assert(b =~= a.subrange(0, b.len() as int)) by {
                assert forall|k: int| 0 <= k < b.len() implies b[k] == a.subrange(0, b.len() as int)[k] by {
                    assert((a + fu)[k] == (b + fv)[k]);
                }
            }
            assert(b.is_prefix_of(a));
        }
        assert(a == b);
        assert(fu =~= fv) by {
            assert forall|k: int| 0 <= k < fu.len() implies fu[k] == fv[k] by {
                assert((a + fu)[a.len() + k] == (b + fv)[b.len() + k]);
            }
            assert((a + fu).len() == (b + fv).len());
        }
        lemma_flatten_injective(u.drop_first(), v.drop_first(), s);
        assert(u =~= seq![a] + u.drop_first());
        assert(v =~= seq![b] + v.drop_first());
    } else {
        assert(u =~= v);
    }
}

/// The mode of a compact length, as carried by the low two bits of its first byte.
pub open spec fn compact_mode(n: u32) -> u8 {
    if n < 64 {
        0
    } else if n < 16384 {
        1
    } else if n < 1073741824 {
        2
    } else {
        3
    }
}

proof fn lemma_compact_len_mode(n: u32)
    ensures
        compact_len(n)[0] % 4 == compact_mode(n),
{
    if n < 64 {
        assert((n * 4) as u8 == n * 4);
    } else if n < 16384 {
        let v = n * 4 + 1;
        assert((v % 256) as u8 == v % 256);
        assert((v % 256) % 4 == 1);
    } else if n < 1073741824 {
        let v = n * 4 + 2;
        assert((v % 256) as u8 == v % 256);
        assert((v % 256) % 4 == 2);
    }
}

/// Compact lengths form a self-delimiting code.
proof fn lemma_compact_len_prefix(a: u32, b: u32, x: Seq<u8>, y: Seq<u8>)
    requires
        compact_len(a) + x == compact_len(b) + y,
    ensures
        a == b,
        x == y,
{
    let ca = compact_len(a);
    let cb = compact_len(b);
    assert(ca[0] == (ca + x)[0]);
    assert(cb[0] == (cb + y)[0]);
    assert(ca[0] == cb[0]);
    // The low two bits of the first byte name the mode, and with it the length.
    lemma_compact_len_mode(a);
    lemma_compact_len_mode(b);
    assert(ca.len() == cb.len());
    assert forall|k: int| 0 <= k < ca.len() implies ca[k] == cb[k] by {
        assert((ca + x)[k] == (cb + y)[k]);
    }
    if a < 64 {
        assert(a == b) by (nonlinear_arith)
            requires
                b < 64,
                (a * 4) as u8 == (b * 4) as u8,
                a < 64,
        {}
    } else if a < 16384 {
        assert(a == b) by (nonlinear_arith)
            requires
                64 <= a < 16384,
                64 <= b < 16384,
                ((a * 4 + 1) % 256) as u8 == ((b * 4 + 1) % 256) as u8,
                ((a * 4 + 1) / 256) as u8 == ((b * 4 + 1) / 256) as u8,
        {}
    } else if a < 1073741824 {
        assert(a == b) by (nonlinear_arith)
            requires
                16384 <= a < 1073741824,
                16384 <= b < 1073741824,
                ((a * 4 + 2) % 256) as u8 == ((b * 4 + 2) % 256) as u8,
                (((a * 4 + 2) / 256) % 256) as u8 == (((b * 4 + 2) / 256) % 256) as u8,
                (((a * 4 + 2) / 65536) % 256) as u8 == (((b * 4 + 2) / 65536) % 256) as u8,
                ((a * 4 + 2) / 16777216) as u8 == ((b * 4 + 2) / 16777216) as u8,
        {}
    } else {
        assert(ca[1] == cb[1] && ca[2] == cb[2] && ca[3] == cb[3] && ca[4] == cb[4]);
        assert(a == b) by (nonlinear_arith)
            requires
                (a % 256) as u8 == (b % 256) as u8,
                ((a / 256) % 256) as u8 == ((b / 256) % 256) as u8,
                ((a / 65536) % 256) as u8 == ((b / 65536) % 256) as u8,
                (a / 16777216) as u8 == (b / 16777216) as u8,
        {}
    }
    assert(x =~= y) by {
        assert forall|k: int| 0 <= k < x.len() implies x[k] == y[k] by {
            assert((ca + x)[ca.len() + k] == (cb + y)[cb.len() + k]);
        }
        assert((ca + x).len() == (cb + y).len());
    }
}


/// Equal encodings of clauses over a self-delimiting code have equal predicate encodings.
proof fn lemma_clause_encoding_injective(c1: Seq<PredicateView>, c2: Seq<PredicateView>, s: Set<Seq<u8>>)
    requires
        prefix_free(s),
        c1.len() <= u32::MAX,
        c2.len() <= u32::MAX,
        keyset(c1).subset_of(s),
        keyset(c2).subset_of(s),
        clause_encoding(c1) == clause_encoding(c2),
    ensures
        keys(c1) == keys(c2),
{
    reveal(clause_encoding);
    lemma_compact_len_prefix(c1.len() as u32, c2.len() as u32, flatten(keys(c1)), flatten(keys(c2)));
    assert forall|i: int| 0 <= i < keys(c1).len() implies s.contains(#[trigger] keys(c1)[i]) by {
        assert(keyset(c1).contains(keys(c1)[i]));
    }
    assert forall|i: int| 0 <= i < keys(c2).len() implies s.contains(#[trigger] keys(c2)[i]) by {
        assert(keyset(c2).contains(keys(c2)[i]));
    }
    lemma_flatten_injective(keys(c1), keys(c2), s);
}

fn push_compact_len(out: &mut Vec<u8>, n: u32)
    ensures
        final(out)@ == old(out)@ + compact_len(n),
{
    if n < 64 {
        out.push((n * 4) as u8);
    } else if n < 16384 {
        let v = n * 4 + 1;
        out.push((v % 256) as u8);
        out.push((v / 256) as u8);
    } else if n < 1073741824 {
        let v = n * 4 + 2;
        out.push((v % 256) as u8);
        out.push(((v / 256) % 256) as u8);
        out.push(((v / 65536) % 256) as u8);
        out.push((v / 16777216) as u8);
    } else {
        out.push(3u8);
        out.push((n % 256) as u8);
        out.push(((n / 256) % 256) as u8);
        out.push(((n / 65536) % 256) as u8);
        out.push((n / 16777216) as u8);
    }
    proof {
        assert(final(out)@ =~= old(out)@ + compact_len(n));
    }
}

/// The encoding of a clause.
pub fn encode_clause(c: &Vec<Predicate>) -> (e: Vec<u8>)
    requires
        c@.len() <= u32::MAX,
    ensures
        e@ == clause_encoding(clause_view(c@)),
{
    let mut e: Vec<u8> = Vec::new();
    push_compact_len(&mut e, c.len() as u32);
    let ghost prefix = e@;
    let ghost ks = keys(clause_view(c@));
    let mut i: usize = 0;
    proof {
        assert(ks.take(0) =~= Seq::<Seq<u8>>::empty());
        assert(e@ =~= prefix + flatten(ks.take(0)));
    }
    while i < c.len()
        invariant
            0 <= i <= c@.len(),
            ks == keys(clause_view(c@)),
            e@ == prefix + flatten(ks.take(i as int)),
        decreases c@.len() - i,
    {
        let ghost before = e@;
        let mut k: usize = 0;
        let key = &c[i].encoded;
        while k < key.len()
            invariant
                0 <= k <= key@.len(),
                e@ == before + key@.take(k as int),
            decreases key@.len() - k,
        {
            e.push(key[k]);
            proof {
                assert(key@.take(k as int + 1) =~= key@.take(k as int).push(key@[k as int]));
                assert(e@ =~= before + key@.take(k as int + 1));
            }
            k = k + 1;
        }
        proof {
            assert(key@.take(key@.len() as int) =~= key@);
            assert(ks[i as int] == key@);
            assert(ks.take(i as int + 1) =~= ks.take(i as int).push(ks[i as int]));
            lemma_flatten_push(ks.take(i as int), ks[i as int]);
            assert(e@ =~= prefix + flatten(ks.take(i as int + 1)));
        }
        i = i + 1;
    }
    proof {
        assert(ks.take(c@.len() as int) =~= ks);
        reveal(clause_encoding);
    }
    e
}


// ---------------------------------------------------------------------------------------------
// Canonical disjunctive normal form.
// ---------------------------------------------------------------------------------------------

/// The clauses of a precondition as plain values.
pub open spec fn clauses_view(cs: Seq<Vec<Predicate>>) -> Seq<Seq<PredicateView>> {
    cs.map_values(|c: Vec<Predicate>| clause_view(c@))
}

/// Clause `j` is absorbed: a clause with fewer distinct predicates implies it.
pub open spec fn absorbed(cs: Seq<Seq<PredicateView>>, j: int) -> bool {
    exists|a: int|
        0 <= a < cs.len() && #[trigger] keyset(cs[a]).len() < keyset(cs[j]).len() && keyset(cs[a]).subset_of(
            keyset(cs[j]),
        )
}

/// Distinct predicates kept over the clauses `[0, n)` that are not absorbed.
pub open spec fn surviving_count(cs: Seq<Seq<PredicateView>>, n: int) -> int
    decreases n,
{
    if n <= 0 {
        0
    } else {
        surviving_count(cs, n - 1) + if absorbed(cs, n - 1) {
            0
        } else {
            keyset(cs[n - 1]).len() as int
        }
    }
}

/// Two clauses hold the same distinct predicates.
pub open spec fn has_duplicate_clause(cs: Seq<Seq<PredicateView>>) -> bool {
    exists|i: int, j: int| 0 <= i < j < cs.len() && #[trigger] keyset(cs[i]) == #[trigger] keyset(cs[j])
}

/// Every predicate encoding of the precondition.
pub open spec fn all_keys(cs: Seq<Seq<PredicateView>>) -> Set<Seq<u8>> {
    Set::new(|k: Seq<u8>| exists|j: int| 0 <= j < cs.len() && #[trigger] keyset(cs[j]).contains(k))
}

/// Whether a precondition can be put in canonical form: it needs clauses, none of them empty,
/// no two clauses with the same predicates, and at most `max` predicates once absorbed clauses
/// are dropped.
pub open spec fn dnf_outcome(cs: Seq<Seq<PredicateView>>, max: u32) -> Result<(), Error> {
    if cs.len() == 0 || exists|j: int| 0 <= j < cs.len() && (#[trigger] cs[j]).len() == 0 {
        Err(Error::EmptyPrecondition)
    } else if has_duplicate_clause(cs) {
        Err(Error::InvalidPredicate)
    } else if surviving_count(cs, cs.len() as int) > max {
        Err(Error::AdmissionBoundOverflow)
    } else {
        Ok(())
    }
}

/// Clause `c` is the canonical form of a clause of `cs` that is not absorbed.
#[verifier::opaque]
pub open spec fn canonical_of_kept(c: Seq<PredicateView>, cs: Seq<Seq<PredicateView>>) -> bool {
    exists|j: int| 0 <= j < cs.len() && !absorbed(cs, j) && #[trigger] canonical_clause_of(c, cs[j])
}

/// Some clause of `out` is the canonical form of clause `c`.
#[verifier::opaque]
pub open spec fn has_canonical_form(out: Seq<Seq<PredicateView>>, c: Seq<PredicateView>) -> bool {
    exists|k: int| 0 <= k < out.len() && #[trigger] canonical_clause_of(out[k], c)
}

/// `out` is the canonical form of the clauses `cs`: the canonical form of every clause that is
/// not absorbed, each once, in the order of their encodings.
pub open spec fn canonical_dnf_of(out: Seq<Seq<PredicateView>>, cs: Seq<Seq<PredicateView>>) -> bool {
    &&& forall|k: int, l: int|
        0 <= k < l < out.len() ==> lex_lt(clause_encoding(#[trigger] out[k]), clause_encoding(#[trigger] out[l]))
    &&& forall|k: int| 0 <= k < out.len() ==> canonical_of_kept(#[trigger] out[k], cs)
    &&& forall|j: int| 0 <= j < cs.len() && !absorbed(cs, j) ==> has_canonical_form(out, #[trigger] cs[j])
}

proof fn lemma_canonical_len(out: Seq<PredicateView>, c: Seq<PredicateView>)
    requires
        canonical_clause_of(out, c),
    ensures
        out.len() == keyset(c).len(),
        keys(out).no_duplicates(),
{
    lemma_strictly_sorted_no_duplicates(keys(out));
    keys(out).unique_seq_to_set();
}

proof fn lemma_canonical_same_keys(o1: Seq<PredicateView>, c1: Seq<PredicateView>, o2: Seq<PredicateView>, c2: Seq<PredicateView>)
    requires
        canonical_clause_of(o1, c1),
        canonical_clause_of(o2, c2),
    ensures
        (keys(o1) == keys(o2)) == (keyset(c1) == keyset(c2)),
{
    if keyset(c1) == keyset(c2) {
        lemma_strictly_sorted_unique(keys(o1), keys(o2));
    }
}

fn copy_clause(c: &Vec<Predicate>) -> (r: Vec<Predicate>)
    ensures
        clause_view(r@) == clause_view(c@),
        r@.len() == c@.len(),
{
    let mut r: Vec<Predicate> = Vec::new();
    let mut i: usize = 0;
    while i < c.len()
        invariant
            0 <= i <= c@.len(),
            r@.len() == i,
            forall|k: int| 0 <= k < i ==> (#[trigger] r@[k])@ == c@[k]@,
        decreases c@.len() - i,
    {
        r.push(c[i].duplicate());
        i = i + 1;
    }
    proof {
        assert(clause_view(r@) =~= clause_view(c@));
    }
    r
}

/// Whether the two clauses carry the same predicate encodings in the same order.
fn same_keys(a: &Vec<Predicate>, b: &Vec<Predicate>) -> (r: bool)
    ensures
        r == (keys(clause_view(a@)) == keys(clause_view(b@))),
{
    if a.len() != b.len() {
        proof {
            assert(keys(clause_view(a@)).len() != keys(clause_view(b@)).len());
        }
        return false;
    }
    let mut i: usize = 0;
    while i < a.len()
        invariant
            0 <= i <= a@.len(),
            a@.len() == b@.len(),
            forall|k: int| 0 <= k < i ==> a@[k].encoded@ == b@[k].encoded@,
        decreases a@.len() - i,
    {
        if !bytes_eq(&a[i].encoded, &b[i].encoded) {
            proof {
                assert(keys(clause_view(a@))[i as int] != keys(clause_view(b@))[i as int]);
            }
            return false;
        }
        i = i + 1;
    }
    proof {
        assert(keys(clause_view(a@)) =~= keys(clause_view(b@)));
    }
    true
}

/// Whether every predicate encoding of `a` occurs in `b`.
fn keys_within(a: &Vec<Predicate>, b: &Vec<Predicate>) -> (r: bool)
    ensures
        r == keyset(clause_view(a@)).subset_of(keyset(clause_view(b@))),
{
    let ghost ka = keys(clause_view(a@));
    let ghost kb = keys(clause_view(b@));
    let mut i: usize = 0;
    while i < a.len()
        invariant
            0 <= i <= a@.len(),
            ka == keys(clause_view(a@)),
            kb == keys(clause_view(b@)),
            forall|k: int| 0 <= k < i ==> kb.contains(#[trigger] ka[k]),
        decreases a@.len() - i,
    {
        let mut found = false;
        let mut j: usize = 0;
        while j < b.len()
            invariant
                0 <= j <= b@.len(),
                i < a@.len(),
                ka == keys(clause_view(a@)),
                kb == keys(clause_view(b@)),
                found == exists|t: int| 0 <= t < j && kb[t] == ka[i as int],
            decreases b@.len() - j,
        {
            if bytes_eq(&b[j].encoded, &a[i].encoded) {
                found = true;
            }
            proof {
                assert(kb[j as int] == b@[j as int].encoded@);
                assert(ka[i as int] == a@[i as int].encoded@);
            }
            j = j + 1;
        }
        if !found {
            proof {
                assert(!kb.contains(ka[i as int]));
                assert(keyset(clause_view(a@)).contains(ka[i as int]));
            }
            return false;
        }
        i = i + 1;
    }
    proof {
        assert forall|k: Seq<u8>| keyset(clause_view(a@)).contains(k) implies keyset(clause_view(b@)).contains(k) by {
            let t = choose|t: int| 0 <= t < ka.len() && ka[t] == k;
        }
    }
    true
}


/// The canonical form of every clause, in clause order.
fn canonical_forms(clauses: &Vec<Vec<Predicate>>) -> (canon: Vec<Vec<Predicate>>)
    ensures
        canon@.len() == clauses@.len(),
        forall|t: int|
            0 <= t < clauses@.len() ==> canonical_clause_of(
                #[trigger] clauses_view(canon@)[t],
                clauses_view(clauses@)[t],
            ) && clauses_view(canon@)[t].len() <= clauses_view(clauses@)[t].len(),
{
    let mut canon: Vec<Vec<Predicate>> = Vec::new();
    let mut j: usize = 0;
    while j < clauses.len()
        invariant
            0 <= j <= clauses@.len(),
            canon@.len() == j,
            forall|t: int|
                0 <= t < j ==> canonical_clause_of(
                    clause_view((#[trigger] canon@[t])@),
                    clause_view(clauses@[t]@),
                ) && canon@[t]@.len() <= clauses@[t]@.len(),
        decreases clauses@.len() - j,
    {
        canon.push(canonical_clause(&clauses[j]));
        j = j + 1;
    }
    proof {
        assert forall|t: int| 0 <= t < clauses@.len() implies canonical_clause_of(
            #[trigger] clauses_view(canon@)[t],
            clauses_view(clauses@)[t],
        ) && clauses_view(canon@)[t].len() <= clauses_view(clauses@)[t].len() by {
            assert(canonical_clause_of(clause_view(canon@[t]@), clause_view(clauses@[t]@)));
        }
    }
    canon
}

/// Whether two of the canonical clauses carry the same predicate encodings.
fn any_duplicate(canon: &Vec<Vec<Predicate>>) -> (r: bool)
    ensures
        r == exists|a: int, b: int|
            0 <= a < b < canon@.len() && #[trigger] keys(clauses_view(canon@)[a]) == #[trigger] keys(
                clauses_view(canon@)[b],
            ),
{
    let ghost cv = clauses_view(canon@);
    let mut b: usize = 0;
    while b < canon.len()
        invariant
            0 <= b <= canon@.len(),
            cv == clauses_view(canon@),
            forall|x: int, y: int| 0 <= x < y < b ==> #[trigger] keys(cv[x]) != #[trigger] keys(cv[y]),
        decreases canon@.len() - b,
    {
        let mut a: usize = 0;
        while a < b
            invariant
                0 <= a <= b < canon@.len(),
                cv == clauses_view(canon@),
                forall|x: int, y: int| 0 <= x < y < b ==> #[trigger] keys(cv[x]) != #[trigger] keys(cv[y]),
                forall|x: int| 0 <= x < a ==> #[trigger] keys(cv[x]) != keys(cv[b as int]),
            decreases b - a,
        {
            if same_keys(&canon[a], &canon[b]) {
                proof {
                    assert(cv[a as int] == clause_view(canon@[a as int]@));
                    assert(cv[b as int] == clause_view(canon@[b as int]@));
                }
                return true;
            }
            proof {
                assert(cv[a as int] == clause_view(canon@[a as int]@));
                assert(cv[b as int] == clause_view(canon@[b as int]@));
            }
            a = a + 1;
        }
        b = b + 1;
    }
    false
}

/// Clause `b` of `cv` contains a clause with fewer predicates.
pub open spec fn contains_smaller(cv: Seq<Seq<PredicateView>>, b: int) -> bool {
    exists|a: int|
        0 <= a < cv.len() && #[trigger] cv[a].len() < cv[b].len() && keyset(cv[a]).subset_of(keyset(cv[b]))
}

/// For each canonical clause, whether a canonical clause with fewer predicates is contained
/// in it.
fn absorbed_flags(canon: &Vec<Vec<Predicate>>) -> (flags: Vec<bool>)
    ensures
        flags@.len() == canon@.len(),
        forall|b: int| 0 <= b < canon@.len() ==> (#[trigger] flags@[b]) == contains_smaller(clauses_view(canon@), b),
{
    let ghost cv = clauses_view(canon@);
    let mut flags: Vec<bool> = Vec::new();
    let mut b: usize = 0;
    while b < canon.len()
        invariant
            0 <= b <= canon@.len(),
            cv == clauses_view(canon@),
            flags@.len() == b,
            forall|y: int| 0 <= y < b ==> (#[trigger] flags@[y]) == contains_smaller(cv, y),
        decreases canon@.len() - b,
    {
        let mut found = false;
        let mut a: usize = 0;
        while a < canon.len()
            invariant
                0 <= a <= canon@.len(),
                b < canon@.len(),
                cv == clauses_view(canon@),
                found == exists|x: int|
                    0 <= x < a && #[trigger] cv[x].len() < cv[b as int].len() && keyset(cv[x]).subset_of(
                        keyset(cv[b as int]),
                    ),
            decreases canon@.len() - a,
        {
            proof {
                assert(cv[a as int] == clause_view(canon@[a as int]@));
                assert(cv[b as int] == clause_view(canon@[b as int]@));
            }
            if canon[a].len() < canon[b].len() && keys_within(&canon[a], &canon[b]) {
                found = true;
            }
            a = a + 1;
        }
        flags.push(found);
        b = b + 1;
    }
    flags
}

pub open spec fn encodings_sorted(e: Seq<Vec<u8>>) -> bool {
    forall|k: int, l: int| 0 <= k < l < e.len() ==> lex_lt((#[trigger] e[k])@, (#[trigger] e[l])@)
}

/// Inserts `clause` with encoding `enc` at its place in the encoding order.
fn sorted_insert(
    out: &mut Vec<Vec<Predicate>>,
    encs: &mut Vec<Vec<u8>>,
    clause: Vec<Predicate>,
    enc: Vec<u8>,
) -> (pos: usize)
    requires
        old(out)@.len() == old(encs)@.len(),
        encodings_sorted(old(encs)@),
        forall|k: int| 0 <= k < old(encs)@.len() ==> (#[trigger] old(encs)@[k])@ != enc@,
    ensures
        pos <= old(out)@.len(),
        final(out)@ == old(out)@.insert(pos as int, clause),
        final(encs)@ == old(encs)@.insert(pos as int, enc),
        encodings_sorted(final(encs)@),
{
    let ghost e0 = encs@;
    let mut pos: usize = 0;
    loop
        invariant
            0 <= pos <= encs@.len(),
            encs@ == e0,
            forall|k: int| 0 <= k < pos ==> lex_lt((#[trigger] e0[k])@, enc@),
        ensures
            0 <= pos <= encs@.len(),
            encs@ == e0,
            forall|k: int| 0 <= k < pos ==> lex_lt((#[trigger] e0[k])@, enc@),
            pos < encs@.len() ==> !lex_lt(e0[pos as int]@, enc@),
        decreases encs@.len() - pos,
    {
        if pos >= encs.len() {
            break;
        }
        if !bytes_lt(&encs[pos], &enc) {
            break;
        }
        pos = pos + 1;
    }
    if pos < encs.len() {
        proof {
            lemma_lex_total(e0[pos as int]@, enc@);
        }
    }
    let ghost x = enc@;
    out.insert(pos, clause);
    encs.insert(pos, enc);
    proof {
        let e1 = encs@;
        assert forall|k: int, l: int| 0 <= k < l < e1.len() implies lex_lt((#[trigger] e1[k])@, (#[trigger] e1[l])@) by {
            if l < pos {
                assert(e1[k] == e0[k] && e1[l] == e0[l]);
            } else if l == pos {
                assert(e1[k] == e0[k]);
            } else if k < pos {
                assert(e1[k] == e0[k] && e1[l] == e0[l - 1]);
                if l - 1 > pos {
                    assert(lex_lt(e0[pos as int]@, e0[l - 1]@));
                    lemma_lex_transitive(x, e0[pos as int]@, e0[l - 1]@);
                }
                lemma_lex_transitive(e0[k]@, x, e0[l - 1]@);
            } else if k == pos {
                assert(e1[l] == e0[l - 1]);
                if l - 1 > pos {
                    assert(lex_lt(e0[pos as int]@, e0[l - 1]@));
                    lemma_lex_transitive(x, e0[pos as int]@, e0[l - 1]@);
                }
            } else {
                assert(e1[k] == e0[k - 1] && e1[l] == e0[l - 1]);
            }
        }
    }
    pos
}


/// Clauses that are ready for ordering: canonical, over the code, and of encodable length.
spec fn clauses_ready(cv: Seq<Seq<PredicateView>>, code: Set<Seq<u8>>) -> bool {
    forall|t: int|
        0 <= t < cv.len() ==> strictly_sorted(keys(#[trigger] cv[t])) && keyset(cv[t]).subset_of(code) && cv[t].len()
            <= u32::MAX
}

/// No two kept clauses carry the same predicate encodings.
spec fn kept_distinct(cv: Seq<Seq<PredicateView>>, flags: Seq<bool>) -> bool {
    forall|a: int, b: int|
        0 <= a < b < cv.len() && !flags[a] && !flags[b] ==> #[trigger] keys(cv[a]) != #[trigger] keys(cv[b])
}

/// Clause `c` is one of the clauses in `out`.
spec fn listed_in(out: Seq<Seq<PredicateView>>, c: Seq<PredicateView>) -> bool {
    exists|k: int| 0 <= k < out.len() && #[trigger] out[k] == c
}

/// Clause `c` is one of the kept clauses among the first `j` of `cv`.
spec fn kept_among(cv: Seq<Seq<PredicateView>>, flags: Seq<bool>, j: int, c: Seq<PredicateView>) -> bool {
    exists|t: int| 0 <= t < j && !flags[t] && #[trigger] cv[t] == c
}

/// `out` holds exactly the kept clauses among the first `j`.
#[verifier::opaque]
spec fn kept_covered(out: Seq<Seq<PredicateView>>, cv: Seq<Seq<PredicateView>>, flags: Seq<bool>, j: int) -> bool {
    &&& forall|k: int| 0 <= k < out.len() ==> kept_among(cv, flags, j, #[trigger] out[k])
    &&& forall|t: int| 0 <= t < j && !flags[t] ==> listed_in(out, #[trigger] cv[t])
}

/// The clauses in `out` are ordered by strictly increasing encoding.
pub open spec fn ordered_by_encoding(out: Seq<Seq<PredicateView>>) -> bool {
    forall|k: int, l: int|
        0 <= k < l < out.len() ==> lex_lt(clause_encoding(#[trigger] out[k]), clause_encoding(#[trigger] out[l]))
}

proof fn lemma_kept_covered_start(cv: Seq<Seq<PredicateView>>, flags: Seq<bool>)
    ensures
        kept_covered(Seq::empty(), cv, flags, 0),
{
    reveal(kept_covered);
}

proof fn lemma_kept_covered_skip(out: Seq<Seq<PredicateView>>, cv: Seq<Seq<PredicateView>>, flags: Seq<bool>, j: int)
    requires
        kept_covered(out, cv, flags, j),
        0 <= j < flags.len(),
        flags[j],
    ensures
        kept_covered(out, cv, flags, j + 1),
{
    reveal(kept_covered);
    assert forall|k: int| 0 <= k < out.len() implies kept_among(cv, flags, j + 1, #[trigger] out[k]) by {
        assert(kept_among(cv, flags, j, out[k]));
        let t = choose|t: int| 0 <= t < j && !flags[t] && #[trigger] cv[t] == out[k];
        assert(0 <= t < j + 1 && !flags[t] && cv[t] == out[k]);
    }
    assert forall|t: int| 0 <= t < j + 1 && !flags[t] implies listed_in(out, #[trigger] cv[t]) by {
        assert(t < j);
    }
}

proof fn lemma_kept_covered_insert(
    out: Seq<Seq<PredicateView>>,
    cv: Seq<Seq<PredicateView>>,
    flags: Seq<bool>,
    j: int,
    pos: int,
)
    requires
        kept_covered(out, cv, flags, j),
        0 <= j < flags.len(),
        j < cv.len(),
        !flags[j],
        0 <= pos <= out.len(),
    ensures
        kept_covered(out.insert(pos, cv[j]), cv, flags, j + 1),
{
    reveal(kept_covered);
    let o1 = out.insert(pos, cv[j]);
    assert forall|k: int| 0 <= k < o1.len() implies kept_among(cv, flags, j + 1, #[trigger] o1[k]) by {
        if k < pos {
            assert(o1[k] == out[k]);
            assert(kept_among(cv, flags, j, out[k]));
            let t = choose|t: int| 0 <= t < j && !flags[t] && #[trigger] cv[t] == out[k];
            assert(0 <= t < j + 1 && !flags[t] && cv[t] == o1[k]);
        } else if k > pos {
            assert(o1[k] == out[k - 1]);
            assert(kept_among(cv, flags, j, out[k - 1]));
            let t = choose|t: int| 0 <= t < j && !flags[t] && #[trigger] cv[t] == out[k - 1];
            assert(0 <= t < j + 1 && !flags[t] && cv[t] == o1[k]);
        } else {
            assert(o1[k] == cv[j]);
        }
    }
    assert forall|t: int| 0 <= t < j + 1 && !flags[t] implies listed_in(o1, #[trigger] cv[t]) by {
        if t == j {
            assert(o1[pos] == cv[t]);
        } else {
            assert(listed_in(out, cv[t]));
            let k = choose|k: int| 0 <= k < out.len() && #[trigger] out[k] == cv[t];
            if k < pos {
                assert(o1[k] == out[k]);
            } else {
                assert(o1[k + 1] == out[k]);
            }
        }
    }
}

/// Canonical clauses over a self-delimiting code with different predicate encodings have
/// different encodings.
proof fn lemma_distinct_encodings(a: Seq<PredicateView>, b: Seq<PredicateView>, code: Set<Seq<u8>>)
    requires
        prefix_free(code),
        keyset(a).subset_of(code),
        keyset(b).subset_of(code),
        a.len() <= u32::MAX,
        b.len() <= u32::MAX,
        keys(a) != keys(b),
    ensures
        clause_encoding(a) != clause_encoding(b),
{
    if clause_encoding(a) == clause_encoding(b) {
        lemma_clause_encoding_injective(a, b, code);
    }
}

/// The encoding of a kept clause differs from the encodings of the kept clauses before it.
proof fn lemma_fresh_encoding(
    out: Seq<Seq<PredicateView>>,
    encs: Seq<Seq<u8>>,
    cv: Seq<Seq<PredicateView>>,
    flags: Seq<bool>,
    code: Set<Seq<u8>>,
    j: int,
)
    requires
        kept_covered(out, cv, flags, j),
        encs.len() == out.len(),
        forall|k: int| 0 <= k < out.len() ==> #[trigger] encs[k] == clause_encoding(out[k]),
        prefix_free(code),
        clauses_ready(cv, code),
        kept_distinct(cv, flags),
        flags.len() == cv.len(),
        0 <= j < cv.len(),
        !flags[j],
    ensures
        forall|k: int| 0 <= k < encs.len() ==> #[trigger] encs[k] != clause_encoding(cv[j]),
{
    reveal(kept_covered);
    let cj = cv[j];
    assert(keyset(cj).subset_of(code) && cj.len() <= u32::MAX);
    assert forall|k: int| 0 <= k < encs.len() implies #[trigger] encs[k] != clause_encoding(cv[j]) by {
        assert(kept_among(cv, flags, j, out[k]));
        let t = choose|t: int| 0 <= t < j && !flags[t] && #[trigger] cv[t] == out[k];
        let ct = cv[t];
        assert(keyset(ct).subset_of(code) && ct.len() <= u32::MAX);
        assert(keys(cv[t]) != keys(cv[j]));
        lemma_distinct_encodings(ct, cj, code);
        assert(encs[k] == clause_encoding(out[k]));
    }
}

/// The kept clauses, each once, in the order of their encodings.
fn order_kept_clauses(
    canon: &Vec<Vec<Predicate>>,
    flags: &Vec<bool>,
    Ghost(code): Ghost<Set<Seq<u8>>>,
) -> (out: Vec<Vec<Predicate>>)
    requires
        canon@.len() == flags@.len(),
        prefix_free(code),
        clauses_ready(clauses_view(canon@), code),
        kept_distinct(clauses_view(canon@), flags@),
    ensures
        ordered_by_encoding(clauses_view(out@)),
        kept_covered(clauses_view(out@), clauses_view(canon@), flags@, canon@.len() as int),
{
    let ghost cv = clauses_view(canon@);
    let n = canon.len();
    let mut out: Vec<Vec<Predicate>> = Vec::new();
    let mut encs: Vec<Vec<u8>> = Vec::new();
    let mut j: usize = 0;
    proof {
        lemma_kept_covered_start(cv, flags@);
        assert(clauses_view(out@) =~= Seq::<Seq<PredicateView>>::empty());
    }
    while j < n
        invariant
            0 <= j <= n,
            n == canon@.len(),
            n == flags@.len(),
            cv == clauses_view(canon@),
            prefix_free(code),
            clauses_ready(cv, code),
            kept_distinct(cv, flags@),
            out@.len() == encs@.len(),
            encodings_sorted(encs@),
            forall|k: int| 0 <= k < out@.len() ==> (#[trigger] encs@[k])@ == clause_encoding(clauses_view(out@)[k]),
            kept_covered(clauses_view(out@), cv, flags@, j as int),
        decreases n - j,
    {
        if !flags[j] {
            let clause = copy_clause(&canon[j]);
            proof {
                assert(cv[j as int] == clause_view(canon@[j as int]@));
                assert(clauses_ready(cv, code));
                assert(cv[j as int].len() <= u32::MAX);
            }
            let enc = encode_clause(&clause);
            let ghost ov0 = clauses_view(out@);
            let ghost ev0 = encs@.map_values(|e: Vec<u8>| e@);
            proof {
                assert forall|k: int| 0 <= k < ov0.len() implies #[trigger] ev0[k] == clause_encoding(ov0[k]) by {
                    assert(ev0[k] == encs@[k]@);
                }
                lemma_fresh_encoding(ov0, ev0, cv, flags@, code, j as int);
                assert forall|k: int| 0 <= k < encs@.len() implies (#[trigger] encs@[k])@ != enc@ by {
                    assert(ev0[k] == encs@[k]@);
                }
            }
            let ghost out0 = out@;
            let pos = sorted_insert(&mut out, &mut encs, clause, enc);
            proof {
                assert(clauses_view(out@) =~= ov0.insert(pos as int, cv[j as int]));
                lemma_kept_covered_insert(ov0, cv, flags@, j as int, pos as int);
                assert forall|k: int| 0 <= k < out@.len() implies (#[trigger] encs@[k])@ == clause_encoding(
                    clauses_view(out@)[k],
                ) by {
                    if k < pos {
                        assert(out@[k] == out0[k]);
                    } else if k > pos {
                        assert(out@[k] == out0[k - 1]);
                    }
                }
            }
        } else {
            proof {
                lemma_kept_covered_skip(clauses_view(out@), cv, flags@, j as int);
            }
        }
        j = j + 1;
    }
    proof {
        let ov = clauses_view(out@);
        assert forall|k: int, l: int| 0 <= k < l < ov.len() implies lex_lt(
            clause_encoding(#[trigger] ov[k]),
            clause_encoding(#[trigger] ov[l]),
        ) by {
            assert(lex_lt(encs@[k]@, encs@[l]@));
        }
    }
    out
}

proof fn lemma_surviving_count_monotone(cs: Seq<Seq<PredicateView>>, a: int, b: int)
    requires
        0 <= a <= b,
    ensures
        surviving_count(cs, a) <= surviving_count(cs, b),
    decreases b - a,
{
    if a < b {
        lemma_surviving_count_monotone(cs, a, b - 1);
    }
}

/// Whether the distinct predicates of the clauses that are not absorbed fit the bound.
fn kept_total_within(
    canon: &Vec<Vec<Predicate>>,
    flags: &Vec<bool>,
    max_predicates_per_step: u32,
    Ghost(cs): Ghost<Seq<Seq<PredicateView>>>,
) -> (r: bool)
    requires
        canon@.len() == cs.len(),
        flags@.len() == cs.len(),
        forall|t: int| 0 <= t < cs.len() ==> (#[trigger] flags@[t]) == absorbed(cs, t),
        forall|t: int| 0 <= t < cs.len() ==> canon@[t]@.len() == keyset(#[trigger] cs[t]).len(),
    ensures
        r == (surviving_count(cs, cs.len() as int) <= max_predicates_per_step),
{
    let n = canon.len();
    let mut count: u64 = 0;
    let mut j: usize = 0;
    while j < n
        invariant
            0 <= j <= n,
            n == canon@.len(),
            n == flags@.len(),
            n == cs.len(),
            count == surviving_count(cs, j as int),
            count <= max_predicates_per_step,
            forall|t: int| 0 <= t < n ==> (#[trigger] flags@[t]) == absorbed(cs, t),
            forall|t: int| 0 <= t < n ==> canon@[t]@.len() == keyset(#[trigger] cs[t]).len(),
        decreases n - j,
    {
        if !flags[j] {
            let len = canon[j].len() as u64;
            proof {
                assert(canon@[j as int]@.len() == keyset(cs[j as int]).len());
            }
            if len > max_predicates_per_step as u64 - count {
                proof {
                    assert(surviving_count(cs, j as int + 1) == count + len);
                    lemma_surviving_count_monotone(cs, j as int + 1, n as int);
                }
                return false;
            }
            count = count + len;
        }
        j = j + 1;
    }
    true
}

/// Facts about the canonical forms of the clauses that the rest of the canonicalization reads.
proof fn lemma_canonical_forms_facts(cv: Seq<Seq<PredicateView>>, cs: Seq<Seq<PredicateView>>)
    requires
        cv.len() == cs.len(),
        forall|t: int| 0 <= t < cs.len() ==> canonical_clause_of(#[trigger] cv[t], cs[t]) && cv[t].len() <= cs[t].len(),
        forall|t: int| 0 <= t < cs.len() ==> (#[trigger] cs[t]).len() <= u32::MAX,
    ensures
        forall|t: int| 0 <= t < cs.len() ==> (#[trigger] cv[t]).len() == keyset(cs[t]).len(),
        forall|t: int| 0 <= t < cs.len() ==> contains_smaller(cv, t) == absorbed(cs, t),
        clauses_ready(cv, all_keys(cs)),
        (exists|a: int, b: int| 0 <= a < b < cv.len() && #[trigger] keys(cv[a]) == #[trigger] keys(cv[b]))
            == has_duplicate_clause(cs),
{
    assert forall|t: int| 0 <= t < cs.len() implies (#[trigger] cv[t]).len() == keyset(cs[t]).len() by {
        lemma_canonical_len(cv[t], cs[t]);
    }
    assert forall|t: int| 0 <= t < cs.len() implies contains_smaller(cv, t) == absorbed(cs, t) by {
        if contains_smaller(cv, t) {
            let a = choose|a: int|
                0 <= a < cv.len() && #[trigger] cv[a].len() < cv[t].len() && keyset(cv[a]).subset_of(keyset(cv[t]));
            lemma_canonical_len(cv[a], cs[a]);
            lemma_canonical_len(cv[t], cs[t]);
            assert(keyset(cs[a]).len() < keyset(cs[t]).len());
        }
        if absorbed(cs, t) {
            let a = choose|a: int|
                0 <= a < cs.len() && #[trigger] keyset(cs[a]).len() < keyset(cs[t]).len() && keyset(cs[a]).subset_of(
                    keyset(cs[t]),
                );
            lemma_canonical_len(cv[a], cs[a]);
            lemma_canonical_len(cv[t], cs[t]);
            assert(cv[a].len() < cv[t].len());
        }
    }
    assert forall|t: int| 0 <= t < cv.len() implies strictly_sorted(keys(#[trigger] cv[t])) && keyset(cv[t]).subset_of(
        all_keys(cs),
    ) && cv[t].len() <= u32::MAX by {
        assert forall|x: Seq<u8>| keyset(cv[t]).contains(x) implies all_keys(cs).contains(x) by {
            assert(keyset(cs[t]).contains(x));
        }
    }
    if exists|a: int, b: int| 0 <= a < b < cv.len() && #[trigger] keys(cv[a]) == #[trigger] keys(cv[b]) {
        let (a, b) = choose|a: int, b: int| 0 <= a < b < cv.len() && #[trigger] keys(cv[a]) == #[trigger] keys(cv[b]);
        lemma_canonical_same_keys(cv[a], cs[a], cv[b], cs[b]);
        assert(keyset(cs[a]) == keyset(cs[b]));
    }
    if has_duplicate_clause(cs) {
        let (a, b) = choose|a: int, b: int| 0 <= a < b < cs.len() && #[trigger] keyset(cs[a]) == #[trigger] keyset(cs[b]);
        lemma_canonical_same_keys(cv[a], cs[a], cv[b], cs[b]);
        assert(keys(cv[a]) == keys(cv[b]));
    }
}

/// The kept canonical clauses, covered and ordered, are the canonical form of the precondition.
proof fn lemma_kept_is_canonical_dnf(
    out: Seq<Seq<PredicateView>>,
    cv: Seq<Seq<PredicateView>>,
    cs: Seq<Seq<PredicateView>>,
    flags: Seq<bool>,
)
    requires
        cv.len() == cs.len(),
        flags.len() == cs.len(),
        forall|t: int| 0 <= t < cs.len() ==> canonical_clause_of(#[trigger] cv[t], cs[t]),
        forall|t: int| 0 <= t < cs.len() ==> (#[trigger] flags[t]) == absorbed(cs, t),
        ordered_by_encoding(out),
        kept_covered(out, cv, flags, cs.len() as int),
    ensures
        canonical_dnf_of(out, cs),
{
    reveal(kept_covered);
    reveal(canonical_of_kept);
    reveal(has_canonical_form);
    assert forall|k: int, l: int| 0 <= k < l < out.len() implies lex_lt(
        clause_encoding(#[trigger] out[k]),
        clause_encoding(#[trigger] out[l]),
    ) by {}
    assert forall|k: int| 0 <= k < out.len() implies canonical_of_kept(#[trigger] out[k], cs) by {
        assert(kept_among(cv, flags, cs.len() as int, out[k]));
        let t = choose|t: int| 0 <= t < cs.len() && !flags[t] && #[trigger] cv[t] == out[k];
        assert(canonical_clause_of(cv[t], cs[t]));
        assert(!absorbed(cs, t));
        assert(canonical_clause_of(out[k], cs[t]));
    }
    assert forall|j: int| 0 <= j < cs.len() && !absorbed(cs, j) implies has_canonical_form(out, #[trigger] cs[j]) by {
        assert(!flags[j]);
        assert(listed_in(out, cv[j]));
        let k = choose|k: int| 0 <= k < out.len() && #[trigger] out[k] == cv[j];
        assert(canonical_clause_of(cv[j], cs[j]));
        assert(canonical_clause_of(out[k], cs[j]));
    }
}

/// Puts the clauses of one precondition in canonical form.
pub fn canonicalize_dnf(clauses: &Vec<Vec<Predicate>>, max_predicates_per_step: u32) -> (r: Result<
    Vec<Vec<Predicate>>,
    Error,
>)
    requires
        prefix_free(all_keys(clauses_view(clauses@))),
        forall|j: int| 0 <= j < clauses@.len() ==> (#[trigger] clauses@[j])@.len() <= u32::MAX,
    ensures
        match dnf_outcome(clauses_view(clauses@), max_predicates_per_step) {
            Err(e) => r == Err::<Vec<Vec<Predicate>>, Error>(e),
            Ok(()) => r is Ok && canonical_dnf_of(clauses_view(r->Ok_0@), clauses_view(clauses@)),
        },
{
    let ghost cs = clauses_view(clauses@);
    let n = clauses.len();
    if n == 0 {
        return Err(Error::EmptyPrecondition);
    }
    let mut j: usize = 0;
    while j < n
        invariant
            0 <= j <= n,
            n == clauses@.len(),
            cs == clauses_view(clauses@),
            forall|t: int| 0 <= t < j ==> (#[trigger] cs[t]).len() > 0,
        decreases n - j,
    {
        if clauses[j].len() == 0 {
            proof {
                assert(cs[j as int].len() == 0);
            }
            return Err(Error::EmptyPrecondition);
        }
        j = j + 1;
    }
    let canon = canonical_forms(clauses);
    let ghost cv = clauses_view(canon@);
    proof {
        assert forall|t: int| 0 <= t < cs.len() implies (#[trigger] cs[t]).len() <= u32::MAX by {
            assert(cs[t].len() == clauses@[t]@.len());
        }
        lemma_canonical_forms_facts(cv, cs);
    }
    if any_duplicate(&canon) {
        return Err(Error::InvalidPredicate);
    }
    let flags = absorbed_flags(&canon);
    proof {
        assert forall|t: int| 0 <= t < n implies canon@[t]@.len() == keyset(#[trigger] cs[t]).len() by {
            assert(cv[t].len() == keyset(cs[t]).len());
        }
    }
    if !kept_total_within(&canon, &flags, max_predicates_per_step, Ghost(cs)) {
        return Err(Error::AdmissionBoundOverflow);
    }
    proof {
        assert forall|a: int, b: int| 0 <= a < b < cv.len() && !flags@[a] && !flags@[b] implies #[trigger] keys(
            cv[a],
        ) != #[trigger] keys(cv[b]) by {}
    }
    let out = order_kept_clauses(&canon, &flags, Ghost(all_keys(cs)));
    proof {
        lemma_kept_is_canonical_dnf(clauses_view(out@), cv, cs, flags@);
    }
    Ok(out)
}


/// A clause has exactly one canonical form.
pub proof fn lemma_canonical_clause_unique(x: Seq<PredicateView>, y: Seq<PredicateView>, c: Seq<PredicateView>)
    requires
        canonical_clause_of(x, c),
        canonical_clause_of(y, c),
    ensures
        x == y,
{
    lemma_strictly_sorted_unique(keys(x), keys(y));
    assert(x.len() == keys(x).len());
    assert forall|i: int| 0 <= i < x.len() implies x[i] == y[i] by {
        assert(keys(x)[i] == keys(y)[i]);
        assert(x[i] == first_with_key(c, x[i].0));
        assert(y[i] == first_with_key(c, y[i].0));
    }
    assert(x =~= y);
}

/// Two sequences of clauses, each strictly ordered by encoding, holding the same clauses, are
/// equal.
proof fn lemma_ordered_by_encoding_unique(a: Seq<Seq<PredicateView>>, b: Seq<Seq<PredicateView>>)
    requires
        ordered_by_encoding(a),
        ordered_by_encoding(b),
        forall|x: Seq<PredicateView>| a.contains(x) <==> b.contains(x),
    ensures
        a == b,
    decreases a.len(),
{
    if a.len() == 0 {
        if b.len() > 0 {
            assert(b.contains(b[0]));
        }
        assert(a =~= b);
    } else if b.len() == 0 {
        assert(a.contains(a[0]));
    } else {
        assert(a.contains(a[0]));
        assert(b.contains(b[0]));
        let ib = choose|i: int| 0 <= i < b.len() && b[i] == a[0];
        let ia = choose|i: int| 0 <= i < a.len() && a[i] == b[0];
        if ib > 0 {
            assert(lex_lt(clause_encoding(b[0]), clause_encoding(b[ib])));
            if ia == 0 {
                lemma_lex_irreflexive(clause_encoding(b[0]));
            } else {
                assert(lex_lt(clause_encoding(a[0]), clause_encoding(a[ia])));
                lemma_lex_asymmetric(clause_encoding(a[0]), clause_encoding(b[0]));
            }
        }
        assert(a[0] == b[0]);
        let a1 = a.drop_first();
        let b1 = b.drop_first();
        assert forall|x: Seq<PredicateView>| a1.contains(x) <==> b1.contains(x) by {
            if a1.contains(x) {
                let i = choose|i: int| 0 <= i < a1.len() && a1[i] == x;
                assert(a[i + 1] == x);
                assert(lex_lt(clause_encoding(a[0]), clause_encoding(x)));
                assert(b.contains(x));
                let j = choose|j: int| 0 <= j < b.len() && b[j] == x;
                if j == 0 {
                    lemma_lex_irreflexive(clause_encoding(x));
                }
                assert(b1[j - 1] == x);
            }
            if b1.contains(x) {
                let i = choose|i: int| 0 <= i < b1.len() && b1[i] == x;
                assert(b[i + 1] == x);
                assert(lex_lt(clause_encoding(b[0]), clause_encoding(x)));
                assert(a.contains(x));
                let j = choose|j: int| 0 <= j < a.len() && a[j] == x;
                if j == 0 {
                    lemma_lex_irreflexive(clause_encoding(x));
                }
                assert(a1[j - 1] == x);
            }
        }
        assert(ordered_by_encoding(a1)) by {
            assert forall|k: int, l: int| 0 <= k < l < a1.len() implies lex_lt(
                clause_encoding(#[trigger] a1[k]),
                clause_encoding(#[trigger] a1[l]),
            ) by {
                assert(a1[k] == a[k + 1] && a1[l] == a[l + 1]);
            }
        }
        assert(ordered_by_encoding(b1)) by {
            assert forall|k: int, l: int| 0 <= k < l < b1.len() implies lex_lt(
                clause_encoding(#[trigger] b1[k]),
                clause_encoding(#[trigger] b1[l]),
            ) by {
                assert(b1[k] == b[k + 1] && b1[l] == b[l + 1]);
            }
        }
        lemma_ordered_by_encoding_unique(a1, b1);
        assert(a =~= seq![a[0]] + a1);
        assert(b =~= seq![b[0]] + b1);
    }
}

/// A canonical form of clause `cs[j]` is a clause of any `o2` that holds a canonical form of it.
proof fn lemma_canonical_member(x: Seq<PredicateView>, o2: Seq<Seq<PredicateView>>, c: Seq<PredicateView>)
    requires
        canonical_clause_of(x, c),
        has_canonical_form(o2, c),
    ensures
        o2.contains(x),
{
    reveal(has_canonical_form);
    let l = choose|l: int| 0 <= l < o2.len() && #[trigger] canonical_clause_of(o2[l], c);
    lemma_canonical_clause_unique(x, o2[l], c);
    assert(o2[l] == x);
}

/// Each clause of one canonical form of `cs` is a clause of any other.
proof fn lemma_canonical_dnf_member(o1: Seq<Seq<PredicateView>>, o2: Seq<Seq<PredicateView>>, cs: Seq<Seq<PredicateView>>, k: int)
    requires
        canonical_of_kept(o1[k], cs),
        forall|j: int| 0 <= j < cs.len() && !absorbed(cs, j) ==> has_canonical_form(o2, #[trigger] cs[j]),
        0 <= k < o1.len(),
    ensures
        o2.contains(o1[k]),
{
    reveal(canonical_of_kept);
    let j = choose|j: int| 0 <= j < cs.len() && !absorbed(cs, j) && #[trigger] canonical_clause_of(o1[k], cs[j]);
    assert(has_canonical_form(o2, cs[j]));
    lemma_canonical_member(o1[k], o2, cs[j]);
}

/// The canonical form of a precondition's clauses is unique: the contract of the
/// canonicalization determines its result.
pub proof fn lemma_canonical_dnf_unique(o1: Seq<Seq<PredicateView>>, o2: Seq<Seq<PredicateView>>, cs: Seq<Seq<PredicateView>>)
    requires
        canonical_dnf_of(o1, cs),
        canonical_dnf_of(o2, cs),
    ensures
        o1 == o2,
{
    assert forall|x: Seq<PredicateView>| o1.contains(x) <==> o2.contains(x) by {
        if o1.contains(x) {
            let k = choose|k: int| 0 <= k < o1.len() && o1[k] == x;
            assert(canonical_of_kept(o1[k], cs));
            lemma_canonical_dnf_member(o1, o2, cs, k);
        }
        if o2.contains(x) {
            let k = choose|k: int| 0 <= k < o2.len() && o2[k] == x;
            assert(canonical_of_kept(o2[k], cs));
            lemma_canonical_dnf_member(o2, o1, cs, k);
        }
    }
    lemma_ordered_by_encoding_unique(o1, o2);
}

// ---------------------------------------------------------------------------------------------
// The canonical form is a fixed point.
// ---------------------------------------------------------------------------------------------

proof fn lemma_first_with_key_distinct(x: Seq<PredicateView>, i: int)
    requires
        keys(x).no_duplicates(),
        0 <= i < x.len(),
    ensures
        first_with_key(x, x[i].0) == x[i],
    decreases i,
{
    if i > 0 {
        assert(keys(x)[0] != keys(x)[i]);
        let x1 = x.drop_first();
        assert(keys(x1) =~= keys(x).drop_first());
        assert(keys(x1).no_duplicates()) by {
            assert forall|a: int, b: int| 0 <= a < keys(x1).len() && 0 <= b < keys(x1).len() && a != b implies keys(
                x1,
            )[a] != keys(x1)[b] by {
                assert(keys(x1)[a] == keys(x)[a + 1] && keys(x1)[b] == keys(x)[b + 1]);
            }
        }
        lemma_first_with_key_distinct(x1, i - 1);
        assert(x1[i - 1] == x[i]);
    }
}

/// A canonical clause is its own canonical form.
pub proof fn lemma_canonical_clause_self(x: Seq<PredicateView>, c: Seq<PredicateView>)
    requires
        canonical_clause_of(x, c),
    ensures
        canonical_clause_of(x, x),
{
    lemma_strictly_sorted_no_duplicates(keys(x));
    assert forall|i: int| 0 <= i < x.len() implies x[i] == #[trigger] first_with_key(x, x[i].0) by {
        lemma_first_with_key_distinct(x, i);
    }
}

/// Some clause is absorbed by no other: one with the fewest distinct predicates.
proof fn lemma_some_clause_kept(cs: Seq<Seq<PredicateView>>)
    requires
        cs.len() > 0,
    ensures
        exists|j: int| 0 <= j < cs.len() && !absorbed(cs, j),
{
    let j = least_clause(cs, cs.len() as int);
    assert(!absorbed(cs, j));
}

/// Position among the first `n` clauses of one with the fewest distinct predicates.
proof fn least_clause(cs: Seq<Seq<PredicateView>>, n: int) -> (j: int)
    requires
        0 < n <= cs.len(),
    ensures
        0 <= j < n,
        forall|a: int| 0 <= a < n ==> keyset(#[trigger] cs[a]).len() >= keyset(cs[j]).len(),
    decreases n,
{
    if n == 1 {
        0
    } else {
        let j = least_clause(cs, n - 1);
        if keyset(cs[n - 1]).len() < keyset(cs[j]).len() {
            n - 1
        } else {
            j
        }
    }
}

/// Sum of a sequence of integers.
pub open spec fn seq_sum(x: Seq<int>) -> int
    decreases x.len(),
{
    if x.len() == 0 {
        0
    } else {
        seq_sum(x.drop_last()) + x.last()
    }
}

proof fn lemma_seq_sum_update(y: Seq<int>, t: int, v: int)
    requires
        0 <= t < y.len(),
    ensures
        seq_sum(y.update(t, v)) == seq_sum(y) - y[t] + v,
    decreases y.len(),
{
    if t < y.len() - 1 {
        assert(y.update(t, v).drop_last() =~= y.drop_last().update(t, v));
        lemma_seq_sum_update(y.drop_last(), t, v);
    } else {
        assert(y.update(t, v).drop_last() =~= y.drop_last());
    }
}

proof fn lemma_seq_sum_nonneg(y: Seq<int>)
    requires
        forall|j: int| 0 <= j < y.len() ==> y[j] >= 0,
    ensures
        seq_sum(y) >= 0,
    decreases y.len(),
{
    if y.len() > 0 {
        lemma_seq_sum_nonneg(y.drop_last());
    }
}

/// A sum over `x` is at most a sum over `y` when `f` maps the positions of `x` injectively to
/// positions of `y` carrying the same values, and `y` carries no negative values.
proof fn lemma_seq_sum_injection(x: Seq<int>, y: Seq<int>, f: spec_fn(int) -> int)
    requires
        forall|j: int| 0 <= j < y.len() ==> y[j] >= 0,
        forall|k: int| 0 <= k < x.len() ==> 0 <= #[trigger] f(k) < y.len() && x[k] == y[f(k)],
        forall|k: int, l: int| 0 <= k < l < x.len() ==> #[trigger] f(k) != #[trigger] f(l),
    ensures
        seq_sum(x) <= seq_sum(y),
    decreases x.len(),
{
    if x.len() == 0 {
        lemma_seq_sum_nonneg(y);
    } else {
        let n = x.len() - 1;
        let t = f(n);
        let y1 = y.update(t, 0);
        let x1 = x.drop_last();
        assert forall|k: int| 0 <= k < x1.len() implies 0 <= #[trigger] f(k) < y1.len() && x1[k] == y1[f(k)] by {
            assert(f(k) != f(n));
        }
        lemma_seq_sum_injection(x1, y1, f);
        lemma_seq_sum_update(y, t, 0);
    }
}

/// The weights that `surviving_count` adds up.
pub open spec fn kept_weights(cs: Seq<Seq<PredicateView>>, n: int) -> Seq<int> {
    Seq::new(n as nat, |j: int| if absorbed(cs, j) { 0 } else { keyset(cs[j]).len() as int })
}

proof fn lemma_surviving_count_is_sum(cs: Seq<Seq<PredicateView>>, n: int)
    requires
        0 <= n,
    ensures
        surviving_count(cs, n) == seq_sum(kept_weights(cs, n)),
    decreases n,
{
    if n > 0 {
        assert(kept_weights(cs, n).drop_last() =~= kept_weights(cs, n - 1));
        lemma_surviving_count_is_sum(cs, n - 1);
    }
}

/// The clause of `cs` whose canonical form is clause `k` of `out`.
spec fn source_clause(out: Seq<Seq<PredicateView>>, cs: Seq<Seq<PredicateView>>, k: int) -> int {
    choose|j: int| 0 <= j < cs.len() && !absorbed(cs, j) && #[trigger] canonical_clause_of(out[k], cs[j])
}

proof fn lemma_source_clause(out: Seq<Seq<PredicateView>>, cs: Seq<Seq<PredicateView>>, k: int)
    requires
        canonical_of_kept(out[k], cs),
    ensures
        0 <= source_clause(out, cs, k) < cs.len(),
        !absorbed(cs, source_clause(out, cs, k)),
        canonical_clause_of(out[k], cs[source_clause(out, cs, k)]),
        keyset(out[k]) == keyset(cs[source_clause(out, cs, k)]),
        out[k].len() == keyset(cs[source_clause(out, cs, k)]).len(),
{
    reveal(canonical_of_kept);
    let j = source_clause(out, cs, k);
    lemma_canonical_len(out[k], cs[j]);
}

/// Distinct clauses of a canonical form come from clauses with different predicates.
proof fn lemma_sources_differ(out: Seq<Seq<PredicateView>>, cs: Seq<Seq<PredicateView>>, k: int, l: int)
    requires
        canonical_dnf_of(out, cs),
        !has_duplicate_clause(cs),
        0 <= k < l < out.len(),
    ensures
        source_clause(out, cs, k) != source_clause(out, cs, l),
        keyset(out[k]) != keyset(out[l]),
{
    lemma_source_clause(out, cs, k);
    lemma_source_clause(out, cs, l);
    let jk = source_clause(out, cs, k);
    let jl = source_clause(out, cs, l);
    assert(lex_lt(clause_encoding(out[k]), clause_encoding(out[l])));
    if keyset(out[k]) == keyset(out[l]) {
        if jk != jl {
            if jk < jl {
                assert(keyset(cs[jk]) == keyset(cs[jl]));
            } else {
                assert(keyset(cs[jl]) == keyset(cs[jk]));
            }
        }
    }
    if jk == jl {
        lemma_canonical_clause_unique(out[k], out[l], cs[jk]);
        lemma_lex_irreflexive(clause_encoding(out[k]));
    }
}

/// No clause of a canonical form is absorbed by another.
proof fn lemma_canonical_dnf_unabsorbed(out: Seq<Seq<PredicateView>>, cs: Seq<Seq<PredicateView>>, b: int)
    requires
        canonical_dnf_of(out, cs),
        0 <= b < out.len(),
    ensures
        !absorbed(out, b),
{
    if absorbed(out, b) {
        let a = choose|a: int|
            0 <= a < out.len() && #[trigger] keyset(out[a]).len() < keyset(out[b]).len() && keyset(out[a]).subset_of(
                keyset(out[b]),
            );
        lemma_source_clause(out, cs, a);
        lemma_source_clause(out, cs, b);
        let ja = source_clause(out, cs, a);
        let jb = source_clause(out, cs, b);
        assert(keyset(cs[ja]).len() < keyset(cs[jb]).len() && keyset(cs[ja]).subset_of(keyset(cs[jb])));
        assert(absorbed(cs, jb));
    }
}

proof fn lemma_canonical_dnf_nonempty(out: Seq<Seq<PredicateView>>, cs: Seq<Seq<PredicateView>>, max: u32)
    requires
        canonical_dnf_of(out, cs),
        dnf_outcome(cs, max) == Ok::<(), Error>(()),
    ensures
        out.len() > 0,
        forall|k: int| 0 <= k < out.len() ==> (#[trigger] out[k]).len() > 0,
{
    lemma_some_clause_kept(cs);
    let j0 = choose|j: int| 0 <= j < cs.len() && !absorbed(cs, j);
    assert(has_canonical_form(out, cs[j0]));
    assert(out.len() > 0) by {
        reveal(has_canonical_form);
    }
    assert forall|k: int| 0 <= k < out.len() implies (#[trigger] out[k]).len() > 0 by {
        assert(canonical_of_kept(out[k], cs));
        lemma_source_clause(out, cs, k);
        let j = source_clause(out, cs, k);
        assert(cs[j].len() > 0);
        assert(keyset(cs[j]).contains(keys(cs[j])[0]));
    }
}

proof fn lemma_canonical_dnf_distinct(out: Seq<Seq<PredicateView>>, cs: Seq<Seq<PredicateView>>)
    requires
        canonical_dnf_of(out, cs),
        !has_duplicate_clause(cs),
    ensures
        !has_duplicate_clause(out),
{
    if has_duplicate_clause(out) {
        let (k, l) = choose|k: int, l: int| 0 <= k < l < out.len() && #[trigger] keyset(out[k]) == #[trigger] keyset(out[l]);
        lemma_sources_differ(out, cs, k, l);
    }
}

proof fn lemma_canonical_dnf_count(out: Seq<Seq<PredicateView>>, cs: Seq<Seq<PredicateView>>)
    requires
        canonical_dnf_of(out, cs),
        !has_duplicate_clause(cs),
    ensures
        surviving_count(out, out.len() as int) <= surviving_count(cs, cs.len() as int),
{
    let n = out.len() as int;
    let f = |k: int| source_clause(out, cs, k);
    let x = kept_weights(out, n);
    let y = kept_weights(cs, cs.len() as int);
    assert forall|j: int| 0 <= j < y.len() implies y[j] >= 0 by {}
    assert forall|k: int| 0 <= k < x.len() implies 0 <= #[trigger] f(k) < y.len() && x[k] == y[f(k)] by {
        assert(canonical_of_kept(out[k], cs));
        lemma_source_clause(out, cs, k);
        lemma_canonical_dnf_unabsorbed(out, cs, k);
        lemma_canonical_len(out[k], cs[f(k)]);
    }
    assert forall|k: int, l: int| 0 <= k < l < x.len() implies #[trigger] f(k) != #[trigger] f(l) by {
        lemma_sources_differ(out, cs, k, l);
    }
    lemma_seq_sum_injection(x, y, f);
    lemma_surviving_count_is_sum(out, n);
    lemma_surviving_count_is_sum(cs, cs.len() as int);
}

proof fn lemma_canonical_dnf_self(out: Seq<Seq<PredicateView>>, cs: Seq<Seq<PredicateView>>)
    requires
        canonical_dnf_of(out, cs),
    ensures
        canonical_dnf_of(out, out),
{
    assert forall|k: int| 0 <= k < out.len() implies canonical_of_kept(#[trigger] out[k], out) by {
        assert(canonical_of_kept(out[k], cs));
        lemma_source_clause(out, cs, k);
        lemma_canonical_clause_self(out[k], cs[source_clause(out, cs, k)]);
        lemma_canonical_dnf_unabsorbed(out, cs, k);
        reveal(canonical_of_kept);
        assert(canonical_clause_of(out[k], out[k]));
    }
    assert forall|j: int| 0 <= j < out.len() && !absorbed(out, j) implies has_canonical_form(out, #[trigger] out[j]) by {
        assert(canonical_of_kept(out[j], cs));
        lemma_source_clause(out, cs, j);
        lemma_canonical_clause_self(out[j], cs[source_clause(out, cs, j)]);
        reveal(has_canonical_form);
        assert(canonical_clause_of(out[j], out[j]));
    }
}

/// Canonicalizing a canonical form succeeds under the same bound and leaves it unchanged: the
/// canonical form of a precondition is a fixed point of the canonicalization.
pub proof fn lemma_canonical_dnf_idempotent(out: Seq<Seq<PredicateView>>, cs: Seq<Seq<PredicateView>>, max: u32)
    requires
        canonical_dnf_of(out, cs),
        dnf_outcome(cs, max) == Ok::<(), Error>(()),
    ensures
        dnf_outcome(out, max) == Ok::<(), Error>(()),
        canonical_dnf_of(out, out),
{
    assert(!has_duplicate_clause(cs));
    lemma_canonical_dnf_nonempty(out, cs, max);
    lemma_canonical_dnf_distinct(out, cs);
    lemma_canonical_dnf_count(out, cs);
    lemma_canonical_dnf_self(out, cs);
}

/// Canonicalizing the canonical form of a precondition again gives back that same form.
pub proof fn lemma_recanonicalization_unchanged(
    out: Seq<Seq<PredicateView>>,
    again: Seq<Seq<PredicateView>>,
    cs: Seq<Seq<PredicateView>>,
    max: u32,
)
    requires
        canonical_dnf_of(out, cs),
        dnf_outcome(cs, max) == Ok::<(), Error>(()),
        canonical_dnf_of(again, out),
    ensures
        again == out,
        dnf_outcome(out, max) == Ok::<(), Error>(()),
{
    lemma_canonical_dnf_idempotent(out, cs, max);
    lemma_canonical_dnf_unique(again, out, out);
}

// ---------------------------------------------------------------------------------------------
// Every Step of a Contract.
// ---------------------------------------------------------------------------------------------

/// The precondition of a Step can be put in canonical form (trivially when it has none).
pub open spec fn step_outcome(step: Step, max: u32) -> Result<(), Error> {
    match step.precondition {
        None => Ok(()),
        Some(p) => dnf_outcome(clauses_view(p.clauses@), max),
    }
}

/// The first refusal among the Steps from position `i` on.
pub open spec fn outcome_from(steps: Seq<Step>, max: u32, i: int) -> Result<(), Error>
    decreases steps.len() - i,
{
    if i < 0 || i >= steps.len() {
        Ok(())
    } else {
        match step_outcome(steps[i], max) {
            Err(e) => Err(e),
            Ok(()) => outcome_from(steps, max, i + 1),
        }
    }
}

/// The precondition encodings of a Step form a self-delimiting code and every clause has an
/// encodable length, as every encoded precondition does.
pub open spec fn precondition_well_encoded(step: Step) -> bool {
    match step.precondition {
        None => true,
        Some(p) => {
            &&& prefix_free(all_keys(clauses_view(p.clauses@)))
            &&& forall|j: int| 0 <= j < p.clauses@.len() ==> (#[trigger] p.clauses@[j])@.len() <= u32::MAX
        },
    }
}

/// The Step `new` is `old` with its precondition in canonical form.
pub open spec fn step_canonicalized(new: Step, old: Step) -> bool {
    &&& new.task == old.task
    &&& new.on_error == old.on_error
    &&& (old.precondition is None <==> new.precondition is None)
    &&& old.precondition matches Some(op) ==> canonical_dnf_of(
        clauses_view(new.precondition->Some_0.clauses@),
        clauses_view(op.clauses@),
    )
}

/// The canonical form of well-encoded clauses is well-encoded: its encodings are among the
/// original ones, so they stay prefix-free, and no canonical clause is longer than its source.
pub proof fn lemma_canonical_dnf_well_encoded(out: Seq<Seq<PredicateView>>, cs: Seq<Seq<PredicateView>>)
    requires
        canonical_dnf_of(out, cs),
        prefix_free(all_keys(cs)),
        forall|j: int| 0 <= j < cs.len() ==> (#[trigger] cs[j]).len() <= u32::MAX,
    ensures
        prefix_free(all_keys(out)),
        forall|k: int| 0 <= k < out.len() ==> (#[trigger] out[k]).len() <= u32::MAX,
        all_keys(out).subset_of(all_keys(cs)),
{
    reveal(canonical_of_kept);
    assert forall|k: int| 0 <= k < out.len() implies (#[trigger] out[k]).len() <= u32::MAX && keyset(out[k]).subset_of(
        all_keys(cs),
    ) by {
        assert(canonical_of_kept(out[k], cs));
        let j = choose|j: int| 0 <= j < cs.len() && !absorbed(cs, j) && #[trigger] canonical_clause_of(out[k], cs[j]);
        lemma_canonical_len(out[k], cs[j]);
        keys(cs[j]).lemma_cardinality_of_set();
        assert forall|x: Seq<u8>| keyset(out[k]).contains(x) implies all_keys(cs).contains(x) by {
            assert(keyset(cs[j]).contains(x));
        }
    }
    assert forall|x: Seq<u8>| all_keys(out).contains(x) implies all_keys(cs).contains(x) by {
        let k = choose|k: int| 0 <= k < out.len() && #[trigger] keyset(out[k]).contains(x);
        assert(keyset(out[k]).subset_of(all_keys(cs)));
    }
}

/// A canonicalized Step of a well-encoded Step is well-encoded again, so it can be
/// canonicalized once more.
pub proof fn lemma_canonical_step_well_encoded(new: Step, old: Step)
    requires
        step_canonicalized(new, old),
        precondition_well_encoded(old),
    ensures
        precondition_well_encoded(new),
{
    if let Some(op) = old.precondition {
        let np = new.precondition->Some_0;
        let cs = clauses_view(op.clauses@);
        let out = clauses_view(np.clauses@);
        assert forall|j: int| 0 <= j < cs.len() implies (#[trigger] cs[j]).len() <= u32::MAX by {
            assert(cs[j].len() == op.clauses@[j]@.len());
        }
        lemma_canonical_dnf_well_encoded(out, cs);
        assert forall|j: int| 0 <= j < np.clauses@.len() implies (#[trigger] np.clauses@[j])@.len() <= u32::MAX by {
            assert(out[j].len() == np.clauses@[j]@.len());
        }
    }
}

proof fn lemma_outcome_from_ok(steps: Seq<Step>, max: u32, i: int)
    requires
        0 <= i <= steps.len(),
    ensures
        (outcome_from(steps, max, i) == Ok::<(), Error>(())) <==> (forall|j: int|
            i <= j < steps.len() ==> step_outcome(#[trigger] steps[j], max) == Ok::<(), Error>(())),
    decreases steps.len() - i,
{
    if i < steps.len() {
        lemma_outcome_from_ok(steps, max, i + 1);
    }
}

/// Canonicalizing the preconditions of Steps that were just canonicalized succeeds and gives
/// back the same Steps, clause for clause.
pub proof fn lemma_canonicalize_preconditions_twice(s0: Seq<Step>, s1: Seq<Step>, s2: Seq<Step>, max: u32)
    requires
        outcome_from(s0, max, 0) == Ok::<(), Error>(()),
        s1.len() == s0.len(),
        forall|i: int| 0 <= i < s0.len() ==> step_canonicalized(#[trigger] s1[i], s0[i]),
        s2.len() == s1.len(),
        forall|i: int| 0 <= i < s1.len() ==> step_canonicalized(#[trigger] s2[i], s1[i]),
    ensures
        outcome_from(s1, max, 0) == Ok::<(), Error>(()),
        forall|i: int|
            0 <= i < s1.len() ==> {
                &&& (#[trigger] s2[i]).task == s1[i].task
                &&& s2[i].on_error == s1[i].on_error
                &&& (s2[i].precondition is None <==> s1[i].precondition is None)
                &&& s1[i].precondition is Some ==> clauses_view(s2[i].precondition->Some_0.clauses@) == clauses_view(
                    s1[i].precondition->Some_0.clauses@,
                )
            },
{
    lemma_outcome_from_ok(s0, max, 0);
    lemma_outcome_from_ok(s1, max, 0);
    assert forall|i: int| 0 <= i < s1.len() implies step_outcome(#[trigger] s1[i], max) == Ok::<(), Error>(())
        && ((s1[i].precondition is Some ==> clauses_view(s2[i].precondition->Some_0.clauses@) == clauses_view(
        s1[i].precondition->Some_0.clauses@,
    ))) by {
        assert(step_outcome(s0[i], max) == Ok::<(), Error>(()));
        assert(step_canonicalized(s1[i], s0[i]));
        assert(step_canonicalized(s2[i], s1[i]));
        if let Some(op) = s0[i].precondition {
            lemma_recanonicalization_unchanged(
                clauses_view(s1[i].precondition->Some_0.clauses@),
                clauses_view(s2[i].precondition->Some_0.clauses@),
                clauses_view(op.clauses@),
                max,
            );
        }
    }
}

/// A finite set strictly inside another has fewer elements.
proof fn lemma_proper_subset_len<A>(a: Set<A>, b: Set<A>)
    requires
        b.finite(),
        a.subset_of(b),
        a != b,
    ensures
        a.len() < b.len(),
{
    if forall|x: A| b.contains(x) ==> a.contains(x) {
        assert(a =~= b);
    }
    let x = choose|x: A| b.contains(x) && !a.contains(x);
    assert(a.subset_of(b.remove(x)));
    vstd::set_lib::lemma_len_subset(a, b.remove(x));
}

/// In a canonical precondition no clause's predicates are a proper subset of another
/// clause's: a clause implied by a smaller one has been absorbed.
pub proof fn lemma_canonical_dnf_no_proper_subset(out: Seq<Seq<PredicateView>>, cs: Seq<Seq<PredicateView>>)
    requires
        canonical_dnf_of(out, cs),
    ensures
        forall|k: int, l: int|
            0 <= k < out.len() && 0 <= l < out.len() && #[trigger] keyset(out[k]).subset_of(#[trigger] keyset(out[l]))
                ==> keyset(out[k]) == keyset(out[l]),
{
    reveal(canonical_of_kept);
    assert forall|k: int, l: int|
        0 <= k < out.len() && 0 <= l < out.len() && #[trigger] keyset(out[k]).subset_of(#[trigger] keyset(out[l])) implies keyset(
        out[k],
    ) == keyset(out[l]) by {
        assert(canonical_of_kept(out[k], cs));
        assert(canonical_of_kept(out[l], cs));
        let j1 = choose|j: int| 0 <= j < cs.len() && !absorbed(cs, j) && #[trigger] canonical_clause_of(out[k], cs[j]);
        let j2 = choose|j: int| 0 <= j < cs.len() && !absorbed(cs, j) && #[trigger] canonical_clause_of(out[l], cs[j]);
        if keyset(out[k]) != keyset(out[l]) {
            vstd::seq_lib::seq_to_set_is_finite(keys(cs[j2]));
            lemma_proper_subset_len(keyset(cs[j1]), keyset(cs[j2]));
            assert(absorbed(cs, j2));
        }
    }
}

/// In a canonicalized Step's precondition no clause's predicates are a proper subset of
/// another clause's.
pub proof fn lemma_canonical_step_no_proper_subset(new: Step, old: Step)
    requires
        step_canonicalized(new, old),
        new.precondition is Some,
    ensures
        ({
            let out = clauses_view(new.precondition->Some_0.clauses@);
            forall|k: int, l: int|
                0 <= k < out.len() && 0 <= l < out.len() && #[trigger] keyset(out[k]).subset_of(#[trigger] keyset(out[l]))
                    ==> keyset(out[k]) == keyset(out[l])
        }),
{
    lemma_canonical_dnf_no_proper_subset(
        clauses_view(new.precondition->Some_0.clauses@),
        clauses_view(old.precondition->Some_0.clauses@),
    );
}

/// Puts the precondition of every Step in canonical form, or refuses with the first Step's
/// refusal and leaves the Steps unchanged.
pub fn canonicalize_preconditions(contract_steps: &mut Vec<Step>, max_predicates_per_step: u32) -> (r: Result<
    (),
    Error,
>)
    requires
        forall|i: int| 0 <= i < old(contract_steps)@.len() ==> precondition_well_encoded(
            #[trigger] old(contract_steps)@[i],
        ),
    ensures
        r == outcome_from(old(contract_steps)@, max_predicates_per_step, 0),
        r is Err ==> final(contract_steps)@ == old(contract_steps)@,
        r is Ok ==> final(contract_steps)@.len() == old(contract_steps)@.len() && forall|i: int|
            0 <= i < old(contract_steps)@.len() ==> step_canonicalized(
                #[trigger] final(contract_steps)@[i],
                old(contract_steps)@[i],
            ),
        r is Ok ==> forall|i: int|
            0 <= i < final(contract_steps)@.len() ==> precondition_well_encoded(#[trigger] final(contract_steps)@[i]),
{
    let ghost steps = contract_steps@;
    let n = contract_steps.len();
    let mut forms: Vec<Option<Vec<Vec<Predicate>>>> = Vec::new();
    let mut i: usize = 0;
    while i < n
        invariant
            0 <= i <= n,
            n == steps.len(),
            contract_steps@ == steps,
            forall|t: int| 0 <= t < n ==> precondition_well_encoded(#[trigger] steps[t]),
            outcome_from(steps, max_predicates_per_step, 0) == outcome_from(steps, max_predicates_per_step, i as int),
            forms@.len() == i,
            forall|t: int|
                0 <= t < i ==> match steps[t].precondition {
                    None => (#[trigger] forms@[t]) is None,
                    Some(p) => forms@[t] is Some && canonical_dnf_of(
                        clauses_view(forms@[t]->Some_0@),
                        clauses_view(p.clauses@),
                    ),
                },
        decreases n - i,
    {
        let ghost step = steps[i as int];
        proof {
            assert(precondition_well_encoded(steps[i as int]));
        }
        match &contract_steps[i].precondition {
            None => {
                forms.push(None);
            },
            Some(p) => {
                match canonicalize_dnf(&p.clauses, max_predicates_per_step) {
                    Err(e) => {
                        return Err(e);
                    },
                    Ok(c) => {
                        forms.push(Some(c));
                    },
                }
            },
        }
        i = i + 1;
    }
    let mut remaining: Vec<Step> = Vec::new();
    std::mem::swap(&mut remaining, contract_steps);
    let mut rebuilt: Vec<Step> = Vec::new();
    let ghost all_forms = forms@;
    let mut k: usize = 0;
    while k < n
        invariant
            0 <= k <= n,
            n == steps.len(),
            all_forms.len() == n,
            remaining@ == steps.subrange(k as int, n as int),
            forms@ == all_forms.subrange(k as int, n as int),
            rebuilt@.len() == k,
            forall|t: int|
                0 <= t < n ==> match steps[t].precondition {
                    None => (#[trigger] all_forms[t]) is None,
                    Some(p) => all_forms[t] is Some && canonical_dnf_of(
                        clauses_view(all_forms[t]->Some_0@),
                        clauses_view(p.clauses@),
                    ),
                },
            forall|t: int| 0 <= t < k ==> step_canonicalized(#[trigger] rebuilt@[t], steps[t]),
        decreases n - k,
    {
        let step = remaining.remove(0);
        let form = forms.remove(0);
        proof {
            assert(step == steps[k as int]);
            assert(form == all_forms[k as int]);
            assert(remaining@ =~= steps.subrange(k as int + 1, n as int));
            assert(forms@ =~= all_forms.subrange(k as int + 1, n as int));
        }
        let precondition = match form {
            None => None,
            Some(clauses) => Some(Precondition { clauses }),
        };
        rebuilt.push(Step { task: step.task, on_error: step.on_error, precondition });
        k = k + 1;
    }
    *contract_steps = rebuilt;
    proof {
        assert forall|i: int| 0 <= i < contract_steps@.len() implies precondition_well_encoded(
            #[trigger] contract_steps@[i],
        ) by {
            lemma_canonical_step_well_encoded(contract_steps@[i], steps[i]);
        }
    }
    Ok(())
}

} // verus!
