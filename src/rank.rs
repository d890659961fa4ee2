//! The ranking of outcomes: latencies first, fastest first; failures after,
//! by name.
use vstd::prelude::*;
use vstd::set_lib::{lemma_int_range, lemma_subset_equality, set_int_range};
use crate::outcome::TestResult;
use crate::text::{
    chars_le, chars_less, lemma_chars_less_asymmetric,
    lemma_chars_less_total, lemma_chars_less_transitive, str_less,
};

verus! {

/// `a` ranks strictly before `b`: an outcome with a latency precedes one
/// without; latencies ascend; failed outcomes follow in name order.
pub open spec fn ranks_before(a: TestResult, b: TestResult) -> bool {
    match (a.response_time, b.response_time) {
        (Some(x), Some(y)) => x < y,
        (Some(_), None) => true,
        (None, Some(_)) => false,
        (None, None) => chars_less(a.name@, b.name@),
    }
}

/// Neither of `a` and `b` ranks before the other.
pub open spec fn same_rank(a: TestResult, b: TestResult) -> bool {
    !ranks_before(a, b) && !ranks_before(b, a)
}

/// No outcome ranks before one that precedes it.
pub open spec fn is_ranked(s: Seq<TestResult>) -> bool {
    forall|i: int, j: int| 0 <= i < j < s.len() ==> !ranks_before(#[trigger] s[j], #[trigger] s[i])
}

/// `p` is a permutation of the indices `0..n`.
pub open spec fn is_permutation(p: Seq<int>, n: nat) -> bool {
    &&& p.len() == n
    &&& forall|k: int| 0 <= k < n ==> 0 <= #[trigger] p[k] < n
    &&& forall|a: int, b: int| 0 <= a < b < n ==> #[trigger] p[a] != #[trigger] p[b]
}

/// `out` holds the outcomes of `inp`, moved by the permutation `p`, in
/// ranked order, with outcomes of the same rank in their order in `inp`.
pub open spec fn stable_ranking_by(out: Seq<TestResult>, inp: Seq<TestResult>, p: Seq<int>) -> bool {
    &&& out.len() == inp.len()
    &&& is_permutation(p, inp.len())
    &&& forall|k: int| 0 <= k < out.len() ==> #[trigger] out[k] == inp[p[k]]
    &&& is_ranked(out)
    &&& forall|a: int, b: int|
        0 <= a < b < out.len() && same_rank(#[trigger] out[a], #[trigger] out[b]) ==> p[a] < p[b]
}

/// `out` is the stable ranking of `inp`.
pub open spec fn is_stable_ranking_of(out: Seq<TestResult>, inp: Seq<TestResult>) -> bool {
    exists|p: Seq<int>| stable_ranking_by(out, inp, p)
}

/// No two outcomes each rank before the other.
pub proof fn lemma_ranks_before_asymmetric(a: TestResult, b: TestResult)
    ensures
        ranks_before(a, b) ==> !ranks_before(b, a),
{
    lemma_chars_less_asymmetric(a.name@, b.name@);
}

/// Not ranking before is transitive.
pub proof fn lemma_not_before_transitive(a: TestResult, b: TestResult, c: TestResult)
    ensures
        !ranks_before(a, b) && !ranks_before(b, c) ==> !ranks_before(a, c),
{
    lemma_chars_less_total(a.name@, b.name@);
    lemma_chars_less_total(b.name@, c.name@);
    lemma_chars_less_transitive(b.name@, a.name@, c.name@);
    lemma_chars_less_transitive(a.name@, c.name@, b.name@);
    lemma_chars_less_asymmetric(a.name@, b.name@);
    lemma_chars_less_asymmetric(b.name@, c.name@);
}

/// Whether `a` ranks strictly before `b`.
pub fn rank_before(a: &TestResult, b: &TestResult) -> (r: bool)
    ensures
        r == ranks_before(*a, *b),
{
    match (&a.response_time, &b.response_time) {
        (Some(x), Some(y)) => *x < *y,
        (Some(_), None) => true,
        (None, Some(_)) => false,
        (None, None) => str_less(a.name.as_str(), b.name.as_str()),
    }
}

/// Sorts `results` into report order, stably: outcomes with a latency first,
/// by ascending latency; then failed outcomes by ascending name.
pub fn sort_results(results: Vec<TestResult>) -> (r: Vec<TestResult>)
    ensures
        is_stable_ranking_of(r@, results@),
{
    let ghost orig = results@;
    let n = results.len();
    let mut rest = results;
    let mut sorted: Vec<TestResult> = Vec::new();
    let ghost mut perm: Seq<int> = Seq::empty();
    let mut i: usize = 0;
    while i < n
        invariant
            n == orig.len(),
            i <= n,
            rest@ == orig.subrange(i as int, n as int),
            sorted@.len() == i,
            perm.len() == i,
            forall|k: int| 0 <= k < i ==> 0 <= #[trigger] perm[k] < i,
            forall|k: int| 0 <= k < i ==> #[trigger] sorted@[k] == orig[perm[k]],
            forall|a: int, b: int| 0 <= a < b < i ==> #[trigger] perm[a] != #[trigger] perm[b],
            is_ranked(sorted@),
            forall|a: int, b: int|
                0 <= a < b < i && same_rank(#[trigger] sorted@[a], #[trigger] sorted@[b])
                    ==> perm[a] < perm[b],
        decreases n - i,
    {
        let x = rest.remove(0);
        assert(x == orig[i as int]);
        let mut k = sorted.len();
        loop
            invariant
                k <= sorted@.len(),
                sorted@.len() == i,
                forall|j: int| k <= j < i ==> ranks_before(x, #[trigger] sorted@[j]),
            ensures
                k <= sorted@.len(),
                forall|j: int| k <= j < i ==> ranks_before(x, #[trigger] sorted@[j]),
                k == 0 || !ranks_before(x, sorted@[k - 1]),
            decreases k,
        {
            if k == 0 {
                break;
            }
            if !rank_before(&x, &sorted[k - 1]) {
                break;
            }
            k = k - 1;
        }
        let ghost s = sorted@;
        let ghost old_perm = perm;
        proof {
            assert forall|a: int| 0 <= a < k implies !ranks_before(x, #[trigger] s[a]) by {
                if a < k - 1 {
                    assert(!ranks_before(s[k - 1], s[a]));
                    lemma_not_before_transitive(x, s[k - 1], s[a]);
                }
            }
            assert forall|b: int| k <= b < i implies !ranks_before(#[trigger] s[b], x) by {
                lemma_ranks_before_asymmetric(x, s[b]);
            }
        }
        sorted.insert(k, x);
        proof {
            perm = perm.insert(k as int, i as int);
            let t = sorted@;
            assert(t == s.insert(k as int, x));
            assert forall|a: int, b: int| 0 <= a < b < t.len() implies !ranks_before(
                #[trigger] t[b],
                #[trigger] t[a],
            ) by {
                let ia = if a < k { a } else if a == k { -1 } else { a - 1 };
                let ib = if b < k { b } else if b == k { -1 } else { b - 1 };
                if a != k && b != k {
                    assert(t[a] == s[ia] && t[b] == s[ib]);
                } else if b == k {
                    assert(t[a] == s[a]);
                } else {
                    assert(t[b] == s[b - 1]);
                }
            }
            assert forall|a: int, b: int|
                0 <= a < b < t.len() && same_rank(#[trigger] t[a], #[trigger] t[b]) implies perm[a]
                < perm[b] by {
                if a != k && b != k {
                    let ia = if a < k { a } else { a - 1 };
                    let ib = if b < k { b } else { b - 1 };
                    assert(t[a] == s[ia] && t[b] == s[ib]);
                    assert(perm[a] == old_perm[ia] && perm[b] == old_perm[ib]);
                } else if b == k {
                    assert(perm[a] == old_perm[a]);
                } else {
                    assert(t[b] == s[b - 1]);
                    lemma_ranks_before_asymmetric(x, s[b - 1]);
                }
            }
            assert forall|a: int, b: int| 0 <= a < b < t.len() implies #[trigger] perm[a]
                != #[trigger] perm[b] by {
                if a != k && b != k {
                    let ia = if a < k { a } else { a - 1 };
                    let ib = if b < k { b } else { b - 1 };
                    assert(perm[a] == old_perm[ia] && perm[b] == old_perm[ib]);
                } else if a == k {
                    assert(perm[b] == old_perm[b - 1]);
                } else {
                    assert(perm[a] == old_perm[a]);
                }
            }
            assert forall|m: int| 0 <= m < t.len() implies #[trigger] t[m] == orig[perm[m]] && 0
                <= perm[m] < i + 1 by {
                if m < k {
                    assert(t[m] == s[m] && perm[m] == old_perm[m]);
                } else if m > k {
                    assert(t[m] == s[m - 1] && perm[m] == old_perm[m - 1]);
                }
            }
            assert(rest@ =~= orig.subrange(i + 1, n as int));
        }
        i = i + 1;
    }
    assert(stable_ranking_by(sorted@, orig, perm));
    sorted
}

/// Ranking moves outcomes without changing them: when every input outcome
/// holds exactly one of a latency and an error, so does every ranked one.
pub proof fn lemma_ranking_keeps_settled(out: Seq<TestResult>, inp: Seq<TestResult>)
    requires
        is_stable_ranking_of(out, inp),
        forall|k: int| 0 <= k < inp.len() ==> (#[trigger] inp[k]).is_settled(),
    ensures
        forall|k: int| 0 <= k < out.len() ==> (#[trigger] out[k]).is_settled(),
{
    let p = choose|p: Seq<int>| stable_ranking_by(out, inp, p);
    assert forall|k: int| 0 <= k < out.len() implies (#[trigger] out[k]).is_settled() by {
        assert(out[k] == inp[p[k]]);
    }
}

/// In a ranked sequence every outcome with a latency stands before every
/// outcome without one.
pub proof fn lemma_latency_before_failure(out: Seq<TestResult>, i: int, j: int)
    requires
        is_ranked(out),
        0 <= i < out.len(),
        0 <= j < out.len(),
        out[i].response_time.is_some(),
        out[j].response_time.is_none(),
    ensures
        i < j,
{
    if j < i {
        assert(!ranks_before(out[i], out[j]));
    }
}

/// In a ranked sequence latencies do not decrease.
pub proof fn lemma_latencies_ascend(out: Seq<TestResult>, i: int, j: int)
    requires
        is_ranked(out),
        0 <= i < j < out.len(),
        out[i].response_time.is_some(),
        out[j].response_time.is_some(),
    ensures
        out[i].response_time.unwrap() <= out[j].response_time.unwrap(),
{
    assert(!ranks_before(out[j], out[i]));
}

/// In a ranked sequence the names of outcomes without a latency do not
/// decrease in lexicographic order, whatever their error texts.
pub proof fn lemma_failures_by_name(out: Seq<TestResult>, i: int, j: int)
    requires
        is_ranked(out),
        0 <= i < j < out.len(),
        out[i].response_time.is_none(),
        out[j].response_time.is_none(),
    ensures
        chars_le(out[i].name@, out[j].name@),
{
    assert(!ranks_before(out[j], out[i]));
    lemma_chars_less_total(out[i].name@, out[j].name@);
}

/// Index `a` of `inp` precedes index `b` in a stable ranking of `inp`.
pub open spec fn index_precedes(inp: Seq<TestResult>, a: int, b: int) -> bool {
    ranks_before(inp[a], inp[b]) || (same_rank(inp[a], inp[b]) && a < b)
}

/// Every index below `n` is taken by a permutation of `0..n`.
proof fn lemma_permutation_onto(p: Seq<int>, n: nat, m: int)
    requires
        is_permutation(p, n),
        0 <= m < n,
    ensures
        exists|k: int| 0 <= k < n && p[k] == m,
{
    assert(p.no_duplicates()) by {
        assert forall|a: int, b: int| 0 <= a < p.len() && 0 <= b < p.len() && a != b implies p[a]
            != p[b] by {
            if a < b {
                assert(p[a] != p[b]);
            } else {
                assert(p[b] != p[a]);
            }
        }
    }
    p.unique_seq_to_set();
    lemma_int_range(0, n as int);
    assert(p.to_set().subset_of(set_int_range(0, n as int))) by {
        assert forall|v: int| p.to_set().contains(v) implies set_int_range(0, n as int).contains(v) by {
            let k = choose|k: int| 0 <= k < p.len() && p[k] == v;
            assert(0 <= p[k] < n);
        }
    }
    vstd::set_lib::lemma_len_subset(p.to_set(), set_int_range(0, n as int));
    lemma_subset_equality(p.to_set(), set_int_range(0, n as int));
    assert(set_int_range(0, n as int).contains(m));
    assert(p.to_set().contains(m));
    assert(p.contains(m));
}

/// In a stable ranking by `p`, earlier positions hold preceding indices.
proof fn lemma_positions_follow_precedence(out: Seq<TestResult>, inp: Seq<TestResult>, p: Seq<int>, a: int, b: int)
    requires
        stable_ranking_by(out, inp, p),
        0 <= a < b < out.len(),
    ensures
        index_precedes(inp, p[a], p[b]),
{
    assert(out[a] == inp[p[a]] && out[b] == inp[p[b]]);
    assert(!ranks_before(out[b], out[a]));
}

/// A stable ranking is unique: two stable rankings of the same outcomes are
/// equal, so the ranking does not depend on how it was computed.
pub proof fn lemma_stable_ranking_unique(out1: Seq<TestResult>, out2: Seq<TestResult>, inp: Seq<TestResult>)
    requires
        is_stable_ranking_of(out1, inp),
        is_stable_ranking_of(out2, inp),
    ensures
        out1 == out2,
{
    let p = choose|p: Seq<int>| stable_ranking_by(out1, inp, p);
    let q = choose|q: Seq<int>| stable_ranking_by(out2, inp, q);
    lemma_permutations_agree(out1, out2, inp, p, q, inp.len() as int);
    assert forall|k: int| 0 <= k < out1.len() implies out1[k] == out2[k] by {
        assert(out1[k] == inp[p[k]] && out2[k] == inp[q[k]]);
    }
    assert(out1 =~= out2);
}

proof fn lemma_permutations_agree(
    out1: Seq<TestResult>,
    out2: Seq<TestResult>,
    inp: Seq<TestResult>,
    p: Seq<int>,
    q: Seq<int>,
    k: int,
)
    requires
        stable_ranking_by(out1, inp, p),
        stable_ranking_by(out2, inp, q),
        0 <= k <= inp.len(),
    ensures
        forall|j: int| 0 <= j < k ==> p[j] == q[j],
    decreases k,
{
    if k > 0 {
        lemma_permutations_agree(out1, out2, inp, p, q, k - 1);
        let j = k - 1;
        let n = inp.len();
        if p[j] != q[j] {
            let a = p[j];
            let b = q[j];
            lemma_ranks_before_asymmetric(inp[a], inp[b]);
            if index_precedes(inp, a, b) {
                lemma_permutation_onto(q, n, a);
                let i = choose|i: int| 0 <= i < n && q[i] == a;
                if i < j {
                    assert(p[i] == q[i]);
                    assert(p[i] != p[j]);
                }
                assert(i != j);
                lemma_positions_follow_precedence(out2, inp, q, j, i);
            } else {
                lemma_permutation_onto(p, n, b);
                let i = choose|i: int| 0 <= i < n && p[i] == b;
                if i < j {
                    assert(p[i] == q[i]);
                    assert(q[i] != q[j]);
                }
                assert(i != j);
                lemma_positions_follow_precedence(out1, inp, p, j, i);
                lemma_ranks_before_asymmetric(inp[b], inp[a]);
            }
        }
    }
}

} // verus!
