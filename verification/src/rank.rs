//! Similarity scoring and ranking: integer dot products over bounded
//! fixed-point embeddings, and selection of the top-scored indices in
//! descending score order.

use vstd::prelude::*;
use crate::COMP_BOUND;
use crate::DIM_MAX;
use crate::text::min_int;

verus! {

/// Every component of the vector is within the fixed-point bound.
pub open spec fn bounded(e: Seq<i64>) -> bool {
    forall|k: int| 0 <= k < e.len() ==> -(COMP_BOUND as int) <= #[trigger] e[k] as int <= COMP_BOUND as int
}

/// The dot product of two equal-length vectors, as an unbounded integer.
pub open spec fn dot(a: Seq<i64>, b: Seq<i64>) -> int
    decreases a.len(),
{
    if a.len() == 0 || b.len() == 0 {
        0
    } else {
        dot(a.drop_last(), b.drop_last()) + a.last() as int * b.last() as int
    }
}

/// The squared Euclidean norm of a vector.
pub open spec fn norm2(a: Seq<i64>) -> int {
    dot(a, a)
}

/// A dot product of bounded equal-length vectors is bounded by
/// `len * COMP_BOUND^2` in absolute value.
pub proof fn lemma_dot_bound(a: Seq<i64>, b: Seq<i64>)
    requires
        a.len() == b.len(),
        bounded(a),
        bounded(b),
    ensures
        -(a.len() as int * (COMP_BOUND as int * COMP_BOUND as int)) <= dot(a, b)
            <= a.len() as int * (COMP_BOUND as int * COMP_BOUND as int),
    decreases a.len(),
{
    let c = COMP_BOUND as int;
    if a.len() == 0 {
    } else {
        let x = a.last() as int;
        let y = b.last() as int;
        assert(-c <= x <= c && -c <= y <= c);
        assert(-(c * c) <= x * y <= c * c) by (nonlinear_arith)
            requires
                -c <= x <= c,
                -c <= y <= c,
                c > 0,
        ;
        assert(bounded(a.drop_last()) && bounded(b.drop_last()));
        lemma_dot_bound(a.drop_last(), b.drop_last());
        let m = a.drop_last().len() as int;
        assert(m + 1 == a.len() as int);
        assert((m + 1) * (c * c) == m * (c * c) + c * c) by (nonlinear_arith);
    }
}

/// Extending both vectors by one component extends the dot product by the
/// product of the new components.
pub proof fn lemma_dot_take_succ(a: Seq<i64>, b: Seq<i64>, i: int)
    requires
        a.len() == b.len(),
        0 <= i < a.len(),
    ensures
        dot(a.take(i + 1), b.take(i + 1)) == dot(a.take(i), b.take(i)) + a[i] as int * b[i] as int,
{
    assert(a.take(i + 1).drop_last() =~= a.take(i));
    assert(b.take(i + 1).drop_last() =~= b.take(i));
}

/// Computes the dot product of two bounded embedding vectors.
pub fn dot_product(a: &Vec<i64>, b: &Vec<i64>) -> (r: i64)
    requires
        a@.len() == b@.len(),
        a@.len() <= DIM_MAX,
        bounded(a@),
        bounded(b@),
    ensures
        r as int == dot(a@, b@),
{
    let n = a.len();
    let mut acc: i64 = 0;
    let mut i: usize = 0;
    while i < n
        invariant
            n == a@.len(),
            n == b@.len(),
            n <= DIM_MAX,
            bounded(a@),
            bounded(b@),
            i <= n,
            acc as int == dot(a@.take(i as int), b@.take(i as int)),
        decreases n - i,
    {
        let c: i64 = COMP_BOUND;
        proof {
            lemma_dot_take_succ(a@, b@, i as int);
            assert(bounded(a@.take(i as int)) && bounded(b@.take(i as int)));
            lemma_dot_bound(a@.take(i as int), b@.take(i as int));
            let x = a@[i as int] as int;
            let y = b@[i as int] as int;
            assert(-(c as int * c as int) <= x * y <= c as int * c as int) by (nonlinear_arith)
                requires
                    -(c as int) <= x <= c as int,
                    -(c as int) <= y <= c as int,
                    c as int > 0,
            ;
            assert(i as int * (c as int * c as int) + c as int * c as int <= DIM_MAX as int
                * (c as int * c as int)) by (nonlinear_arith)
                requires
                    i as int + 1 <= DIM_MAX as int,
                    c as int > 0,
            ;
        }
        let prod: i64 = a[i] * b[i];
        acc = acc + prod;
        i = i + 1;
    }
    proof {
        assert(a@.take(n as int) =~= a@);
        assert(b@.take(n as int) =~= b@);
    }
    acc
}

/// The selection is sound, descending, duplicate-free, and complete: indices
/// are in range, scores never increase along the selection, no index repeats,
/// and every unselected index scores no higher than any selected one.
pub open spec fn ranked_selection(scores: Seq<i64>, out: Seq<usize>) -> bool {
    &&& forall|i: int| 0 <= i < out.len() ==> (#[trigger] out[i]) < scores.len()
    &&& forall|i: int, j: int|
        0 <= i < j < out.len() ==> scores[#[trigger] out[i] as int] as int
            >= scores[#[trigger] out[j] as int] as int
    &&& forall|i: int, j: int| 0 <= i < j < out.len() ==> #[trigger] out[i] != #[trigger] out[j]
    &&& forall|v: usize, i: int|
        v < scores.len() && !(#[trigger] out.contains(v)) && 0 <= i < out.len()
            ==> scores[v as int] as int <= scores[#[trigger] out[i] as int] as int
}

/// Selects the indices of the `k` largest scores, largest first.
pub fn select_ranked(scores: &Vec<i64>, k: usize) -> (out: Vec<usize>)
    ensures
        out@.len() == min_int(k as int, scores@.len() as int),
        ranked_selection(scores@, out@),
        out@.len() == scores@.len() ==> forall|v: usize|
            v < scores@.len() ==> #[trigger] out@.contains(v),
{
    let n = scores.len();
    let mut cand: Vec<usize> = Vec::new();
    let mut i: usize = 0;
    while i < n
        invariant
            i <= n,
            cand@.len() == i,
            forall|j: int| 0 <= j < i ==> #[trigger] cand@[j] == j,
        decreases n - i,
    {
        cand.push(i);
        i = i + 1;
    }
    let mut out: Vec<usize> = Vec::new();
    proof {
        assert forall|v: usize| v < n implies #[trigger] cand@.contains(v) by {
            assert(cand@[v as int] == v);
        }
    }
    while out.len() < k && cand.len() > 0
        invariant
            n == scores@.len(),
            out@.len() + cand@.len() == n,
            out@.len() <= k,
            forall|i2: int| 0 <= i2 < out@.len() ==> (#[trigger] out@[i2]) < n,
            forall|j2: int| 0 <= j2 < cand@.len() ==> (#[trigger] cand@[j2]) < n,
            forall|i2: int, j2: int|
                0 <= i2 < j2 < out@.len() ==> #[trigger] out@[i2] != #[trigger] out@[j2],
            forall|i2: int, j2: int|
                0 <= i2 < j2 < cand@.len() ==> #[trigger] cand@[i2] != #[trigger] cand@[j2],
            forall|i2: int, j2: int|
                0 <= i2 < out@.len() && 0 <= j2 < cand@.len() ==> #[trigger] out@[i2]
                    != #[trigger] cand@[j2],
            forall|v: usize|
                v < n && !out@.contains(v) ==> #[trigger] cand@.contains(v),
            forall|i2: int, j2: int|
                0 <= i2 < j2 < out@.len() ==> scores@[#[trigger] out@[i2] as int] as int
                    >= scores@[#[trigger] out@[j2] as int] as int,
            forall|i2: int, j2: int|
                0 <= i2 < out@.len() && 0 <= j2 < cand@.len()
                    ==> scores@[#[trigger] cand@[j2] as int] as int
                    <= scores@[#[trigger] out@[i2] as int] as int,
        decreases k - out.len(),
    {
        let cl = cand.len();
        let mut best: usize = 0;
        let mut q: usize = 1;
        while q < cl
            invariant
                n == scores@.len(),
                cl == cand@.len(),
                0 < cl,
                best < cl,
                q <= cl,
                forall|j2: int| 0 <= j2 < cand@.len() ==> (#[trigger] cand@[j2]) < n,
                forall|j2: int|
                    0 <= j2 < q ==> scores@[#[trigger] cand@[j2] as int] as int
                        <= scores@[cand@[best as int] as int] as int,
            decreases cl - q,
        {
            if scores[cand[q]] > scores[cand[best]] {
                best = q;
            }
            q = q + 1;
        }
        let ghost old_out = out@;
        let ghost old_cand = cand@;
        let chosen = cand.remove(best);
        out.push(chosen);
        proof {
            old_cand.remove_ensures(best as int);
            assert(chosen == old_cand[best as int]);
            // every value outside the new selection is still a candidate
            assert forall|v: usize| v < n && !out@.contains(v) implies #[trigger] cand@.contains(
                v,
            ) by {
                assert(!old_out.contains(v)) by {
                    if old_out.contains(v) {
                        let w = choose|w: int| 0 <= w < old_out.len() && old_out[w] == v;
                        assert(out@[w] == v);
                    }
                }
                assert(old_cand.contains(v));
                let p = choose|p: int| 0 <= p < old_cand.len() && old_cand[p] == v;
                assert(v != chosen) by {
                    assert(out@[out@.len() - 1] == chosen);
                }
                if p < best as int {
                    assert(cand@[p] == v);
                } else {
                    assert(p > best as int);
                    assert(cand@[p - 1] == v);
                }
            }
        }
    }
    proof {
        if out@.len() < k {
            assert(cand@.len() == 0);
        }
        if out@.len() == scores@.len() {
            assert forall|v: usize| v < scores@.len() implies #[trigger] out@.contains(v) by {
                if !out@.contains(v) {
                    assert(cand@.contains(v));
                    let j = choose|j: int| 0 <= j < cand@.len() && cand@[j] == v;
                }
            }
        }
        assert forall|v: usize, i2: int|
            v < scores@.len() && !(#[trigger] out@.contains(v)) && 0 <= i2 < out@.len()
            implies scores@[v as int] as int <= scores@[#[trigger] out@[i2] as int] as int by {
            assert(cand@.contains(v));
            let j2 = choose|j2: int| 0 <= j2 < cand@.len() && cand@[j2] == v;
            assert(scores@[cand@[j2] as int] as int <= scores@[out@[i2] as int] as int);
        }
    }
    out
}

} // verus!
