//! Wilcoxon rank-sum statistics of two latency samples, computed from their histograms.
//!
//! A sample is given by its recorded values: `(value, count)` pairs in strictly increasing order
//! of value, with positive counts. Ranks are mid-ranks in the pooled sample, so a rank is a
//! multiple of one half; every rank statistic here is therefore kept doubled, as an integer.

use crate::histogram::{
    histogram_len, histogram_recorded, histogram_values, is_recorded_seq, pair_count, total_count,
    Timing,
};
use vstd::prelude::*;

verus! {

/// Sum of the counts of the pairs in `s` whose value is below `v`.
pub open spec fn count_below(s: Seq<(u64, u64)>, v: u64) -> nat
    decreases s.len(),
{
    if s.len() == 0 {
        0
    } else {
        count_below(s.drop_last(), v) + if s.last().0 < v { s.last().1 as nat } else { 0 }
    }
}

/// Twice the mid-rank of the value `v` in the pooled sample of `own` and `other`: the tied
/// observations of `v` take the positions just above the `count_below` smaller ones.
pub open spec fn twice_mid_rank(own: Seq<(u64, u64)>, other: Seq<(u64, u64)>, v: u64) -> nat {
    2 * (count_below(own, v) + count_below(other, v)) + pair_count(own, v) + pair_count(other, v) + 1
}

/// Sum, over the pairs `(v, c)` of `part`, of `c` times the doubled mid-rank of `v`.
pub open spec fn weighted_twice_ranks(
    part: Seq<(u64, u64)>,
    own: Seq<(u64, u64)>,
    other: Seq<(u64, u64)>,
) -> nat
    decreases part.len(),
{
    if part.len() == 0 {
        0
    } else {
        weighted_twice_ranks(part.drop_last(), own, other) + part.last().1 as nat * twice_mid_rank(
            own,
            other,
            part.last().0,
        )
    }
}

/// Twice the Wilcoxon rank sum of the sample `own` in the pooled sample of `own` and `other`.
pub open spec fn twice_rank_sum(own: Seq<(u64, u64)>, other: Seq<(u64, u64)>) -> nat {
    weighted_twice_ranks(own, own, other)
}

/// `t^3 - t`, that is `(t - 1) * t * (t + 1)`, where `t` is the pooled number of observations
/// tied at `v`.
pub open spec fn tie_term(own: Seq<(u64, u64)>, other: Seq<(u64, u64)>, v: u64) -> nat {
    let t = pair_count(own, v) + pair_count(other, v);
    (t * t * t - t) as nat
}

/// Sum of the tie terms of the values of `part`.
pub open spec fn tie_sum(part: Seq<(u64, u64)>, own: Seq<(u64, u64)>, other: Seq<(u64, u64)>) -> nat
    decreases part.len(),
{
    if part.len() == 0 {
        0
    } else {
        tie_sum(part.drop_last(), own, other) + tie_term(own, other, part.last().0)
    }
}

/// Sum of the tie terms of the values of `part` that `other` does not hold.
pub open spec fn tie_sum_unshared(
    part: Seq<(u64, u64)>,
    own: Seq<(u64, u64)>,
    other: Seq<(u64, u64)>,
) -> nat
    decreases part.len(),
{
    if part.len() == 0 {
        0
    } else {
        tie_sum_unshared(part.drop_last(), own, other) + if pair_count(other, part.last().0) == 0 {
            tie_term(own, other, part.last().0)
        } else {
            0
        }
    }
}

/// The tie-adjustment sum: the tie term of every distinct value of the pooled sample, once each
/// (a value that both samples hold is counted with the values of `a`).
pub open spec fn ties_sum_prod(a: Seq<(u64, u64)>, b: Seq<(u64, u64)>) -> nat {
    tie_sum(a, a, b) + tie_sum_unshared(b, b, a)
}

/// After `i` pairs of `a` and `j` pairs of `b`, every pair taken is below every pair not taken.
pub open spec fn is_cut(a: Seq<(u64, u64)>, b: Seq<(u64, u64)>, i: int, j: int) -> bool {
    &&& 0 <= i <= a.len()
    &&& 0 <= j <= b.len()
    &&& i < a.len() ==> forall|k: int| 0 <= k < j ==> #[trigger] b[k].0 < a[i].0
    &&& j < b.len() ==> forall|k: int| 0 <= k < i ==> #[trigger] a[k].0 < b[j].0
}

proof fn lemma_total_count_take(s: Seq<(u64, u64)>, i: int)
    requires
        0 <= i < s.len(),
    ensures
        total_count(s.take(i + 1)) == total_count(s.take(i)) + s[i].1,
{
    assert(s.take(i + 1).drop_last() =~= s.take(i));
}

proof fn lemma_total_count_take_le(s: Seq<(u64, u64)>, i: int)
    requires
        0 <= i <= s.len(),
    ensures
        total_count(s.take(i)) <= total_count(s),
    decreases s.len() - i,
{
    if i < s.len() {
        lemma_total_count_take(s, i);
        lemma_total_count_take_le(s, i + 1);
    } else {
        assert(s.take(i) =~= s);
    }
}

/// In a sequence whose first `m` values are below `v` and whose other values are not, the count
/// below `v` is the total count of the first `m` pairs.
proof fn lemma_count_below_split(s: Seq<(u64, u64)>, v: u64, m: int)
    requires
        0 <= m <= s.len(),
        forall|k: int| 0 <= k < m ==> #[trigger] s[k].0 < v,
        forall|k: int| m <= k < s.len() ==> #[trigger] s[k].0 >= v,
    ensures
        count_below(s, v) == total_count(s.take(m)),
    decreases s.len(),
{
    if s.len() == 0 {
        assert(s.take(m) =~= s);
    } else if m == s.len() {
        let t = s.drop_last();
        assert forall|k: int| 0 <= k < t.len() implies #[trigger] t[k].0 < v by {
            assert(s[k].0 < v);
        }
        lemma_count_below_split(t, v, t.len() as int);
        assert(t.take(t.len() as int) =~= t);
        assert(s.take(m) =~= s);
        assert(s.drop_last() =~= t);
    } else {
        let t = s.drop_last();
        assert forall|k: int| 0 <= k < m implies #[trigger] t[k].0 < v by {
            assert(s[k].0 < v);
        }
        assert forall|k: int| m <= k < t.len() implies #[trigger] t[k].0 >= v by {
            assert(s[k].0 >= v);
        }
        lemma_count_below_split(t, v, m);
        assert(t.take(m) =~= s.take(m));
        assert(s[s.len() - 1].0 >= v);
    }
}

/// In a recorded sequence, the count of the value at position `m` is that pair's count.
proof fn lemma_pair_count_at(s: Seq<(u64, u64)>, m: int)
    requires
        is_recorded_seq(s),
        0 <= m < s.len(),
    ensures
        pair_count(s, s[m].0) == s[m].1,
    decreases s.len(),
{
    let t = s.drop_last();
    if m == s.len() - 1 {
        lemma_pair_count_absent(t, s[m].0);
    } else {
        assert(s[m].0 < s[s.len() - 1].0);
        lemma_pair_count_at(t, m);
    }
}

/// A value that no pair holds has count zero.
proof fn lemma_pair_count_absent(s: Seq<(u64, u64)>, v: u64)
    requires
        forall|k: int| 0 <= k < s.len() ==> #[trigger] s[k].0 != v,
    ensures
        pair_count(s, v) == 0,
    decreases s.len(),
{
    if s.len() > 0 {
        let t = s.drop_last();
        assert forall|k: int| 0 <= k < t.len() implies #[trigger] t[k].0 != v by {
            assert(s[k].0 != v);
        }
        lemma_pair_count_absent(t, v);
        assert(s[s.len() - 1].0 != v);
    }
}

proof fn lemma_cube_step(p: int, c: int)
    requires
        p >= 0,
        c >= 0,
    ensures
        (p + c) * (p + c + 1) == p * (p + 1) + c * (2 * p + c + 1),
{
    assert((p + c) * (p + c + 1) == p * (p + 1) + c * (2 * p + c + 1)) by (nonlinear_arith);
}

/// Taking the pair `a[i]`, whose value is below the next pair of `b` (or `b` is exhausted).
proof fn lemma_advance_own(a: Seq<(u64, u64)>, b: Seq<(u64, u64)>, i: int, j: int)
    requires
        is_recorded_seq(a),
        is_recorded_seq(b),
        is_cut(a, b, i, j),
        i < a.len(),
        j == b.len() || a[i].0 < b[j].0,
    ensures
        is_cut(a, b, i + 1, j),
        total_count(a.take(i + 1)) == total_count(a.take(i)) + a[i].1,
        twice_mid_rank(a, b, a[i].0) == 2 * (total_count(a.take(i)) + total_count(b.take(j)))
            + a[i].1 + 1,
        weighted_twice_ranks(a.take(i + 1), a, b) == weighted_twice_ranks(a.take(i), a, b)
            + a[i].1 * twice_mid_rank(a, b, a[i].0),
        pair_count(a, a[i].0) + pair_count(b, a[i].0) == a[i].1,
        pair_count(b, a[i].0) == 0,
        tie_sum(a.take(i + 1), a, b) == tie_sum(a.take(i), a, b) + tie_term(a, b, a[i].0),
        tie_sum_unshared(a.take(i + 1), a, b) == tie_sum_unshared(a.take(i), a, b) + tie_term(
            a,
            b,
            a[i].0,
        ),
{
    let v = a[i].0;
    lemma_total_count_take(a, i);
    assert(a.take(i + 1).drop_last() =~= a.take(i));
    assert(a.take(i + 1).last() == a[i]);
    assert forall|k: int| i <= k < a.len() implies #[trigger] a[k].0 >= v by {
        if k > i {
            assert(a[i].0 < a[k].0);
        }
    }
    lemma_count_below_split(a, v, i);
    assert forall|k: int| j <= k < b.len() implies #[trigger] b[k].0 >= v by {
        if k > j {
            assert(b[j].0 < b[k].0);
        }
    }
    lemma_count_below_split(b, v, j);
    lemma_pair_count_at(a, i);
    assert forall|k: int| 0 <= k < b.len() implies #[trigger] b[k].0 != v by {
        if k >= j {
            assert(b[k].0 >= b[j].0);
        }
    }
    lemma_pair_count_absent(b, v);
    if i + 1 < a.len() {
        assert forall|k: int| 0 <= k < j implies #[trigger] b[k].0 < a[i + 1].0 by {
            assert(b[k].0 < a[i].0);
            assert(a[i].0 < a[i + 1].0);
        }
    }
}

/// Taking both `a[i]` and `b[j]`, which hold the same value.
proof fn lemma_advance_tied(a: Seq<(u64, u64)>, b: Seq<(u64, u64)>, i: int, j: int)
    requires
        is_recorded_seq(a),
        is_recorded_seq(b),
        is_cut(a, b, i, j),
        i < a.len(),
        j < b.len(),
        a[i].0 == b[j].0,
    ensures
        is_cut(a, b, i + 1, j + 1),
        total_count(a.take(i + 1)) == total_count(a.take(i)) + a[i].1,
        total_count(b.take(j + 1)) == total_count(b.take(j)) + b[j].1,
        twice_mid_rank(a, b, a[i].0) == 2 * (total_count(a.take(i)) + total_count(b.take(j)))
            + a[i].1 + b[j].1 + 1,
        twice_mid_rank(b, a, b[j].0) == twice_mid_rank(a, b, a[i].0),
        weighted_twice_ranks(a.take(i + 1), a, b) == weighted_twice_ranks(a.take(i), a, b)
            + a[i].1 * twice_mid_rank(a, b, a[i].0),
        weighted_twice_ranks(b.take(j + 1), b, a) == weighted_twice_ranks(b.take(j), b, a)
            + b[j].1 * twice_mid_rank(b, a, b[j].0),
        pair_count(a, a[i].0) + pair_count(b, a[i].0) == a[i].1 + b[j].1,
        tie_sum(a.take(i + 1), a, b) == tie_sum(a.take(i), a, b) + tie_term(a, b, a[i].0),
        tie_sum(b.take(j + 1), b, a) == tie_sum(b.take(j), b, a) + tie_term(b, a, b[j].0),
        tie_term(b, a, b[j].0) == tie_term(a, b, a[i].0),
        pair_count(a, b[j].0) == a[i].1,
        a[i].1 > 0,
        tie_sum_unshared(b.take(j + 1), b, a) == tie_sum_unshared(b.take(j), b, a),
{
    let v = a[i].0;
    lemma_total_count_take(a, i);
    lemma_total_count_take(b, j);
    assert(a.take(i + 1).drop_last() =~= a.take(i));
    assert(b.take(j + 1).drop_last() =~= b.take(j));
    assert forall|k: int| i <= k < a.len() implies #[trigger] a[k].0 >= v by {
        if k > i {
            assert(a[i].0 < a[k].0);
        }
    }
    lemma_count_below_split(a, v, i);
    assert forall|k: int| j <= k < b.len() implies #[trigger] b[k].0 >= v by {
        if k > j {
            assert(b[j].0 < b[k].0);
        }
    }
    lemma_count_below_split(b, v, j);
    lemma_pair_count_at(a, i);
    lemma_pair_count_at(b, j);
    if i + 1 < a.len() {
        assert forall|k: int| 0 <= k < j + 1 implies #[trigger] b[k].0 < a[i + 1].0 by {
            assert(a[i].0 < a[i + 1].0);
            if k < j {
                assert(b[k].0 < a[i].0);
            }
        }
    }
    if j + 1 < b.len() {
        assert forall|k: int| 0 <= k < i + 1 implies #[trigger] a[k].0 < b[j + 1].0 by {
            assert(b[j].0 < b[j + 1].0);
            if k < i {
                assert(a[k].0 < b[j].0);
            }
        }
    }
}

proof fn lemma_rank_sum_walk(a: Seq<(u64, u64)>, b: Seq<(u64, u64)>, i: int, j: int)
    requires
        is_recorded_seq(a),
        is_recorded_seq(b),
        is_cut(a, b, i, j),
        ({
            let p = total_count(a.take(i)) + total_count(b.take(j));
            weighted_twice_ranks(a.take(i), a, b) + weighted_twice_ranks(b.take(j), b, a) == p * (p
                + 1)
        }),
    ensures
        ({
            let n = total_count(a) + total_count(b);
            twice_rank_sum(a, b) + twice_rank_sum(b, a) == n * (n + 1)
        }),
    decreases a.len() - i + b.len() - j,
{
    let p = total_count(a.take(i)) + total_count(b.take(j));
    if i == a.len() && j == b.len() {
        assert(a.take(i) =~= a);
        assert(b.take(j) =~= b);
    } else if i < a.len() && (j == b.len() || a[i].0 < b[j].0) {
        lemma_advance_own(a, b, i, j);
        lemma_cube_step(p as int, a[i].1 as int);
        lemma_rank_sum_walk(a, b, i + 1, j);
    } else if j < b.len() && (i == a.len() || b[j].0 < a[i].0) {
        lemma_advance_own(b, a, j, i);
        lemma_cube_step(p as int, b[j].1 as int);
        lemma_rank_sum_walk(a, b, i, j + 1);
    } else {
        lemma_advance_tied(a, b, i, j);
        lemma_cube_step(p as int, a[i].1 + b[j].1);
        let r = twice_mid_rank(a, b, a[i].0);
        assert(a[i].1 * r + b[j].1 * r == (a[i].1 + b[j].1) * r) by (nonlinear_arith);
        lemma_rank_sum_walk(a, b, i + 1, j + 1);
    }
}

/// The rank sums of the two samples add up to the sum of all ranks `1 + 2 + ... + n`, where
/// `n` is the pooled number of observations: doubled, `n * (n + 1)`.
pub proof fn lemma_rank_sums_complement(a: Seq<(u64, u64)>, b: Seq<(u64, u64)>)
    requires
        is_recorded_seq(a),
        is_recorded_seq(b),
    ensures
        ({
            let n = total_count(a) + total_count(b);
            twice_rank_sum(a, b) + twice_rank_sum(b, a) == n * (n + 1)
        }),
{
    assert(a.take(0) =~= Seq::<(u64, u64)>::empty());
    assert(b.take(0) =~= Seq::<(u64, u64)>::empty());
    assert(total_count(a.take(0)) == 0);
    assert(total_count(b.take(0)) == 0);
    assert(weighted_twice_ranks(a.take(0), a, b) == 0);
    assert(weighted_twice_ranks(b.take(0), b, a) == 0);
    lemma_rank_sum_walk(a, b, 0, 0);
}

proof fn lemma_rank_sum_lower_walk(a: Seq<(u64, u64)>, b: Seq<(u64, u64)>, i: int, j: int)
    requires
        is_recorded_seq(a),
        is_recorded_seq(b),
        is_cut(a, b, i, j),
        ({
            let t = total_count(a.take(i));
            weighted_twice_ranks(a.take(i), a, b) >= t * (t + 1)
        }),
    ensures
        twice_rank_sum(a, b) >= total_count(a) * (total_count(a) + 1),
    decreases a.len() - i + b.len() - j,
{
    let t = total_count(a.take(i));
    let p = total_count(a.take(i)) + total_count(b.take(j));
    if i == a.len() && j == b.len() {
        assert(a.take(i) =~= a);
    } else if i < a.len() && (j == b.len() || a[i].0 < b[j].0) {
        lemma_advance_own(a, b, i, j);
        let c = a[i].1 as int;
        lemma_cube_step(t as int, c);
        assert(c * (2 * p + c + 1) >= c * (2 * t + c + 1)) by (nonlinear_arith)
            requires
                c >= 0,
                p >= t,
        ;
        lemma_rank_sum_lower_walk(a, b, i + 1, j);
    } else if j < b.len() && (i == a.len() || b[j].0 < a[i].0) {
        lemma_advance_own(b, a, j, i);
        lemma_rank_sum_lower_walk(a, b, i, j + 1);
    } else {
        lemma_advance_tied(a, b, i, j);
        let c = a[i].1 as int;
        let d = b[j].1 as int;
        lemma_cube_step(t as int, c);
        assert(c * (2 * p + c + d + 1) >= c * (2 * t + c + 1)) by (nonlinear_arith)
            requires
                c >= 0,
                d >= 0,
                p >= t,
        ;
        lemma_rank_sum_lower_walk(a, b, i + 1, j + 1);
    }
}

/// The rank sum of a sample of `m` observations is at least `1 + 2 + ... + m`, the rank sum it
/// would have if all its observations were below all the others: doubled, `m * (m + 1)`.
pub proof fn lemma_rank_sum_lower_bound(a: Seq<(u64, u64)>, b: Seq<(u64, u64)>)
    requires
        is_recorded_seq(a),
        is_recorded_seq(b),
    ensures
        twice_rank_sum(a, b) >= total_count(a) * (total_count(a) + 1),
{
    assert(a.take(0) =~= Seq::<(u64, u64)>::empty());
    assert(total_count(a.take(0)) == 0);
    assert(weighted_twice_ranks(a.take(0), a, b) == 0);
    lemma_rank_sum_lower_walk(a, b, 0, 0);
}

/// Twice the Mann-Whitney *U* statistic of the sample `own`: twice its rank sum less
/// `m * (m + 1)`, where `m` is its number of observations.
pub open spec fn twice_mann_whitney_u(own: Seq<(u64, u64)>, other: Seq<(u64, u64)>) -> int {
    twice_rank_sum(own, other) - total_count(own) * (total_count(own) + 1)
}

/// The Mann-Whitney *U* statistics of two samples of `m` and `n` observations lie between 0 and
/// `m * n` and add up to `m * n`.
pub proof fn lemma_mann_whitney_u_range(a: Seq<(u64, u64)>, b: Seq<(u64, u64)>)
    requires
        is_recorded_seq(a),
        is_recorded_seq(b),
    ensures
        0 <= twice_mann_whitney_u(a, b) <= 2 * total_count(a) * total_count(b),
        0 <= twice_mann_whitney_u(b, a) <= 2 * total_count(a) * total_count(b),
        twice_mann_whitney_u(a, b) + twice_mann_whitney_u(b, a) == 2 * total_count(a)
            * total_count(b),
{
    lemma_rank_sums_complement(a, b);
    lemma_rank_sum_lower_bound(a, b);
    lemma_rank_sum_lower_bound(b, a);
    let m = total_count(a) as int;
    let n = total_count(b) as int;
    assert((m + n) * (m + n + 1) == m * (m + 1) + n * (n + 1) + 2 * m * n) by (nonlinear_arith);
}

/// `Some(x)` where `x` fits in a `u64`, else `None`.
pub open spec fn fit_u64(x: nat) -> Option<u64> {
    if x <= u64::MAX {
        Some(x as u64)
    } else {
        None
    }
}

/// A recorded value of the second sample, with its count and its doubled mid-rank in the pooled
/// sample.
#[derive(Debug, Clone, Copy, PartialEq, Eq, Structural)]
pub struct RankedItem {
    pub value: u64,
    pub count: u64,
    pub twice_rank: u128,
}

/// Rank statistics of two samples `a` and `b`.
#[derive(Debug, Clone, Copy, PartialEq, Eq, Structural)]
pub struct RankSums {
    /// Number of observations in `a`.
    pub n_a: u64,
    /// Number of observations in `b`.
    pub n_b: u64,
    /// Twice the rank sum of `a` in the pooled sample.
    pub twice_rank_sum_a: u128,
    /// Twice the rank sum of `b` in the pooled sample: twice the Wilcoxon *W* statistic.
    pub twice_rank_sum_b: u128,
    /// The tie-adjustment sum, where it fits in a `u64`.
    pub ties_sum_prod: Option<u64>,
}

/// What the rank statistics of `a` and `b` are.
pub open spec fn spec_rank_sums(a: Seq<(u64, u64)>, b: Seq<(u64, u64)>) -> RankSums {
    RankSums {
        n_a: total_count(a) as u64,
        n_b: total_count(b) as u64,
        twice_rank_sum_a: twice_rank_sum(a, b) as u128,
        twice_rank_sum_b: twice_rank_sum(b, a) as u128,
        ties_sum_prod: fit_u64(ties_sum_prod(a, b)),
    }
}

/// The ranked items of `b`: each recorded value of `b` with its count and doubled mid-rank.
pub open spec fn spec_ranked_items(a: Seq<(u64, u64)>, b: Seq<(u64, u64)>) -> Seq<RankedItem> {
    Seq::new(
        b.len(),
        |k: int| RankedItem { value: b[k].0, count: b[k].1, twice_rank: twice_mid_rank(b, a, b[k].0) as u128 },
    )
}

proof fn lemma_product_bound(x: int)
    requires
        0 <= x <= u64::MAX,
    ensures
        x * (x + 1) <= u128::MAX,
{
    assert(x * (x + 1) <= x * (u64::MAX + 1)) by (nonlinear_arith)
        requires
            0 <= x <= u64::MAX,
    ;
    assert(x * (u64::MAX + 1) <= u64::MAX * (u64::MAX + 1)) by (nonlinear_arith)
        requires
            0 <= x <= u64::MAX,
    ;
}

/// `t^3 - t`, where it fits in a `u64`.
fn tie_term_checked(t: u64) -> (r: Option<u64>)
    ensures
        r == fit_u64((t * t * t - t) as nat),
{
    let t2: u128 = t as u128;
    assert(t2 * t2 <= u128::MAX) by (nonlinear_arith)
        requires
            t2 <= u64::MAX,
    ;
    let sq = t2 * t2;
    match sq.checked_mul(t2) {
        Some(cube) => {
            assert(t2 <= cube) by (nonlinear_arith)
                requires
                    cube == t2 * t2 * t2,
            ;
            let term = cube - t2;
            if term <= u64::MAX as u128 {
                Some(term as u64)
            } else {
                None
            }
        },
        None => {
            assert(t2 * t2 * t2 - t2 > u64::MAX) by (nonlinear_arith)
                requires
                    t2 * t2 * t2 > u128::MAX,
                    t2 <= u64::MAX,
            ;
            None
        },
    }
}

fn add_fitted(x: Option<u64>, y: Option<u64>, Ghost(s): Ghost<nat>, Ghost(t): Ghost<nat>) -> (r:
    Option<u64>)
    requires
        x == fit_u64(s),
        y == fit_u64(t),
    ensures
        r == fit_u64(s + t),
{
    match (x, y) {
        (Some(p), Some(q)) => p.checked_add(q),
        _ => None,
    }
}

/// Ranks the pooled sample of `a` and `b` in one merge of the two: the ranked items of `b` and the
/// rank statistics of both.
#[verifier::spinoff_prover]
#[verifier::rlimit(40)]
fn rank_pooled(a: &Vec<(u64, u64)>, b: &Vec<(u64, u64)>) -> (r: (Vec<RankedItem>, RankSums))
    requires
        is_recorded_seq(a@),
        is_recorded_seq(b@),
        total_count(a@) + total_count(b@) <= u64::MAX,
    ensures
        r.0@ == spec_ranked_items(a@, b@),
        r.1 == spec_rank_sums(a@, b@),
{
    let ghost n = total_count(a@) + total_count(b@);
    let mut items: Vec<RankedItem> = Vec::new();
    let mut i: usize = 0;
    let mut j: usize = 0;
    let mut prev: u64 = 0;
    let mut na: u64 = 0;
    let mut nb: u64 = 0;
    let mut rs_a: u128 = 0;
    let mut rs_b: u128 = 0;
    let mut ties: Option<u64> = Some(0);
    proof {
        assert(a@.take(0) =~= Seq::<(u64, u64)>::empty());
        assert(b@.take(0) =~= Seq::<(u64, u64)>::empty());
        assert(total_count(a@.take(0)) == 0);
        assert(total_count(b@.take(0)) == 0);
        assert(weighted_twice_ranks(a@.take(0), a@, b@) == 0);
        assert(weighted_twice_ranks(b@.take(0), b@, a@) == 0);
        assert(tie_sum(a@.take(0), a@, b@) == 0);
        assert(tie_sum_unshared(b@.take(0), b@, a@) == 0);
    }
    while i < a.len() || j < b.len()
        invariant
            is_recorded_seq(a@),
            is_recorded_seq(b@),
            n == total_count(a@) + total_count(b@),
            n <= u64::MAX,
            is_cut(a@, b@, i as int, j as int),
            prev == total_count(a@.take(i as int)) + total_count(b@.take(j as int)),
            na == total_count(a@.take(i as int)),
            nb == total_count(b@.take(j as int)),
            rs_a == weighted_twice_ranks(a@.take(i as int), a@, b@),
            rs_b == weighted_twice_ranks(b@.take(j as int), b@, a@),
            rs_a + rs_b == prev * (prev + 1),
            ties == fit_u64(tie_sum(a@.take(i as int), a@, b@) + tie_sum_unshared(b@.take(j as int), b@, a@)),
            items@ == spec_ranked_items(a@, b@).take(j as int),
        decreases a.len() - i + b.len() - j,
    {
        proof {
            if i < a.len() {
                lemma_total_count_take_le(a@, i + 1);
            }
            if j < b.len() {
                lemma_total_count_take_le(b@, j + 1);
            }
            lemma_total_count_take_le(a@, i as int);
            lemma_total_count_take_le(b@, j as int);
        }
        if i < a.len() && (j == b.len() || a[i].0 < b[j].0) {
            let c = a[i].1;
            proof {
                lemma_advance_own(a@, b@, i as int, j as int);
                lemma_cube_step(prev as int, c as int);
                lemma_product_bound(prev + c);
            }
            let term = (c as u128) * (2 * (prev as u128) + (c as u128) + 1);
            rs_a = rs_a + term;
            let tt = tie_term_checked(c);
            ties = add_fitted(ties, tt, Ghost(tie_sum(a@.take(i as int), a@, b@) + tie_sum_unshared(b@.take(j as int), b@, a@)), Ghost(tie_term(a@, b@, a@[i as int].0)));
            prev = prev + c;
            na = na + c;
            i = i + 1;
        } else if j < b.len() && (i == a.len() || b[j].0 < a[i].0) {
            let c = b[j].1;
            proof {
                lemma_advance_own(b@, a@, j as int, i as int);
                lemma_cube_step(prev as int, c as int);
                lemma_product_bound(prev + c);
            }
            let twice_rank = 2 * (prev as u128) + (c as u128) + 1;
            let term = (c as u128) * twice_rank;
            rs_b = rs_b + term;
            let tt = tie_term_checked(c);
            ties = add_fitted(ties, tt, Ghost(tie_sum(a@.take(i as int), a@, b@) + tie_sum_unshared(b@.take(j as int), b@, a@)), Ghost(tie_term(b@, a@, b@[j as int].0)));
            items.push(RankedItem { value: b[j].0, count: c, twice_rank });
            proof {
                assert(spec_ranked_items(a@, b@).take(j + 1) =~= spec_ranked_items(a@, b@).take(
                    j as int,
                ).push(spec_ranked_items(a@, b@)[j as int]));
            }
            prev = prev + c;
            nb = nb + c;
            j = j + 1;
        } else {
            let ca = a[i].1;
            let cb = b[j].1;
            proof {
                lemma_advance_tied(a@, b@, i as int, j as int);
                lemma_cube_step(prev as int, ca + cb);
                lemma_product_bound(prev + ca + cb);
                let r = twice_mid_rank(a@, b@, a@[i as int].0);
                assert(ca * r + cb * r == (ca + cb) * r) by (nonlinear_arith);
            }
            let t = ca + cb;
            let twice_rank = 2 * (prev as u128) + (t as u128) + 1;
            rs_a = rs_a + (ca as u128) * twice_rank;
            rs_b = rs_b + (cb as u128) * twice_rank;
            let tt = tie_term_checked(t);
            let ghost s0 = tie_sum(a@.take(i as int), a@, b@) + tie_sum_unshared(b@.take(j as int), b@, a@);
            let ghost tv = tie_term(a@, b@, a@[i as int].0);
            ties = add_fitted(ties, tt, Ghost(s0), Ghost(tv));
            items.push(RankedItem { value: b[j].0, count: cb, twice_rank });
            proof {
                assert(spec_ranked_items(a@, b@).take(j + 1) =~= spec_ranked_items(a@, b@).take(
                    j as int,
                ).push(spec_ranked_items(a@, b@)[j as int]));
            }
            prev = prev + t;
            na = na + ca;
            nb = nb + cb;
            i = i + 1;
            j = j + 1;
        }
    }
    proof {
        assert(a@.take(i as int) =~= a@);
        assert(b@.take(j as int) =~= b@);
        assert(spec_ranked_items(a@, b@).take(j as int) =~= spec_ranked_items(a@, b@));
        lemma_rank_sums_complement(a@, b@);
    }
    let sums = RankSums {
        n_a: na,
        n_b: nb,
        twice_rank_sum_a: rs_a,
        twice_rank_sum_b: rs_b,
        ties_sum_prod: ties,
    };
    (items, sums)
}

/// Rank statistics of two samples given by their recorded values.
pub fn wilcoxon_rank_sums(a: &Vec<(u64, u64)>, b: &Vec<(u64, u64)>) -> (r: RankSums)
    requires
        is_recorded_seq(a@),
        is_recorded_seq(b@),
        total_count(a@) + total_count(b@) <= u64::MAX,
    ensures
        r == spec_rank_sums(a@, b@),
{
    rank_pooled(a, b).1
}

/// The ranked items of the second sample, and the tie-adjustment sum where it fits in a `u64`.
pub fn wilcoxon_ranked_items(a: &Vec<(u64, u64)>, b: &Vec<(u64, u64)>) -> (r: (
    Vec<RankedItem>,
    Option<u64>,
))
    requires
        is_recorded_seq(a@),
        is_recorded_seq(b@),
        total_count(a@) + total_count(b@) <= u64::MAX,
    ensures
        r.0@ == spec_ranked_items(a@, b@),
        r.1 == fit_u64(ties_sum_prod(a@, b@)),
{
    let (items, sums) = rank_pooled(a, b);
    (items, sums.ties_sum_prod)
}

/// `s` is what the recorded-values iterator of `h` yields.
pub open spec fn recorded_of(s: Seq<(u64, u64)>, h: Timing) -> bool {
    &&& is_recorded_seq(s)
    &&& total_count(s) == histogram_values(h).len()
    &&& forall|v: u64| #[trigger] pair_count(s, v) == histogram_values(h).count(v)
}

/// The pooled sample of two histograms can be ranked: neither count saturates and their sum fits
/// in a `u64`.
pub open spec fn pooled_fits(a: Timing, b: Timing) -> bool {
    &&& histogram_values(a).len() < u64::MAX
    &&& histogram_values(b).len() < u64::MAX
    &&& histogram_values(a).len() + histogram_values(b).len() <= u64::MAX
}

fn recorded_pair(hist_a: &Timing, hist_b: &Timing) -> (r: Option<(Vec<(u64, u64)>, Vec<(u64, u64)>)>)
    ensures
        r is Some <==> pooled_fits(*hist_a, *hist_b),
        r matches Some(p) ==> recorded_of(p.0@, *hist_a) && recorded_of(p.1@, *hist_b),
{
    let n_a = histogram_len(hist_a);
    let n_b = histogram_len(hist_b);
    if n_a == u64::MAX || n_b == u64::MAX || n_a > u64::MAX - n_b {
        None
    } else {
        Some((histogram_recorded(hist_a), histogram_recorded(hist_b)))
    }
}

/// The ranked items of `hist_b` in the pooled sample of `hist_a` and `hist_b`, and the
/// tie-adjustment sum where it fits in a `u64`; `None` where the pooled sample cannot be ranked.
pub fn wilcoxon_ranked_items_ties_sum_prod(hist_a: &Timing, hist_b: &Timing) -> (r: Option<
    (Vec<RankedItem>, Option<u64>),
>)
    ensures
        r is Some <==> pooled_fits(*hist_a, *hist_b),
        r matches Some(x) ==> exists|pa: Seq<(u64, u64)>, pb: Seq<(u64, u64)>|
            #[trigger] recorded_of(pa, *hist_a) && #[trigger] recorded_of(pb, *hist_b) && x.0@
                == spec_ranked_items(pa, pb) && x.1 == fit_u64(ties_sum_prod(pa, pb)),
{
    match recorded_pair(hist_a, hist_b) {
        Some((pa, pb)) => {
            let r = wilcoxon_ranked_items(&pa, &pb);
            assert(recorded_of(pa@, *hist_a) && recorded_of(pb@, *hist_b));
            Some(r)
        },
        None => None,
    }
}

/// The rank statistics of the pooled sample of `hist_a` and `hist_b`; `None` where the pooled
/// sample cannot be ranked.
pub fn wilcoxon_rank_sum_ties_sum_prod(hist_a: &Timing, hist_b: &Timing) -> (r: Option<RankSums>)
    ensures
        r is Some <==> pooled_fits(*hist_a, *hist_b),
        r matches Some(x) ==> exists|pa: Seq<(u64, u64)>, pb: Seq<(u64, u64)>|
            #[trigger] recorded_of(pa, *hist_a) && #[trigger] recorded_of(pb, *hist_b) && x
                == spec_rank_sums(pa, pb),
{
    match recorded_pair(hist_a, hist_b) {
        Some((pa, pb)) => {
            let r = wilcoxon_rank_sums(&pa, &pb);
            assert(recorded_of(pa@, *hist_a) && recorded_of(pb@, *hist_b));
            Some(r)
        },
        None => None,
    }
}

/// Twice the Wilcoxon rank-sum *W* statistic: twice the rank sum of `hist_b` in the pooled
/// sample; `None` where the pooled sample cannot be ranked.
pub fn wilcoxon_rank_sum_w(hist_a: &Timing, hist_b: &Timing) -> (r: Option<u128>)
    ensures
        r is Some <==> pooled_fits(*hist_a, *hist_b),
        r matches Some(w) ==> exists|pa: Seq<(u64, u64)>, pb: Seq<(u64, u64)>|
            #[trigger] recorded_of(pa, *hist_a) && #[trigger] recorded_of(pb, *hist_b) && w
                == twice_rank_sum(pb, pa),
{
    match wilcoxon_rank_sum_ties_sum_prod(hist_a, hist_b) {
        Some(sums) => {
            proof {
                let (pa, pb) = choose|pa: Seq<(u64, u64)>, pb: Seq<(u64, u64)>|
                    #[trigger] recorded_of(pa, *hist_a) && #[trigger] recorded_of(pb, *hist_b)
                        && sums == spec_rank_sums(pa, pb);
                lemma_rank_sums_complement(pa, pb);
                lemma_product_bound((total_count(pa) + total_count(pb)) as int);
                assert(recorded_of(pa, *hist_a) && recorded_of(pb, *hist_b));
            }
            Some(sums.twice_rank_sum_b)
        },
        None => None,
    }
}

/// Twice the Mann-Whitney *U* of the second sample, from its rank statistics.
fn twice_u_b_of(sums: &RankSums, Ghost(pa): Ghost<Seq<(u64, u64)>>, Ghost(pb): Ghost<Seq<(u64, u64)>>) -> (r: u128)
    requires
        is_recorded_seq(pa),
        is_recorded_seq(pb),
        total_count(pa) + total_count(pb) <= u64::MAX,
        *sums == spec_rank_sums(pa, pb),
    ensures
        r == twice_mann_whitney_u(pb, pa),
        r <= 2 * total_count(pa) * total_count(pb),
{
    proof {
        lemma_rank_sums_complement(pa, pb);
        lemma_mann_whitney_u_range(pa, pb);
        lemma_product_bound((total_count(pa) + total_count(pb)) as int);
        lemma_product_bound(total_count(pb) as int);
    }
    let n_b = sums.n_b as u128;
    sums.twice_rank_sum_b - n_b * (n_b + 1)
}

/// Twice the Mann-Whitney *U* of `hist_b`: twice its rank sum less `n_b * (n_b + 1)`; `None`
/// where the pooled sample cannot be ranked.
pub fn mann_whitney_u_b(hist_a: &Timing, hist_b: &Timing) -> (r: Option<u128>)
    ensures
        r is Some <==> pooled_fits(*hist_a, *hist_b),
        r matches Some(u) ==> exists|pa: Seq<(u64, u64)>, pb: Seq<(u64, u64)>|
            #[trigger] recorded_of(pa, *hist_a) && #[trigger] recorded_of(pb, *hist_b) && u
                == twice_mann_whitney_u(pb, pa),
{
    match recorded_pair(hist_a, hist_b) {
        Some((pa, pb)) => {
            let sums = wilcoxon_rank_sums(&pa, &pb);
            let u = twice_u_b_of(&sums, Ghost(pa@), Ghost(pb@));
            assert(recorded_of(pa@, *hist_a) && recorded_of(pb@, *hist_b));
            Some(u)
        },
        None => None,
    }
}

/// Twice the Mann-Whitney *U* of `hist_a`, computed as `2 * n_a * n_b` less twice the *U* of
/// `hist_b`. This is the `W` statistic that R's `wilcox.test` reports for the first sample.
/// `None` where the pooled sample cannot be ranked.
pub fn mann_whitney_u_a(hist_a: &Timing, hist_b: &Timing) -> (r: Option<u128>)
    ensures
        r is Some <==> pooled_fits(*hist_a, *hist_b),
        r matches Some(u) ==> exists|pa: Seq<(u64, u64)>, pb: Seq<(u64, u64)>|
            #[trigger] recorded_of(pa, *hist_a) && #[trigger] recorded_of(pb, *hist_b) && u
                == twice_mann_whitney_u(pa, pb),
{
    match recorded_pair(hist_a, hist_b) {
        Some((pa, pb)) => {
            let sums = wilcoxon_rank_sums(&pa, &pb);
            let u_b = twice_u_b_of(&sums, Ghost(pa@), Ghost(pb@));
            proof {
                lemma_mann_whitney_u_range(pa@, pb@);
                assert(2 * total_count(pa@) * total_count(pb@) <= u128::MAX) by (nonlinear_arith)
                    requires
                        total_count(pa@) + total_count(pb@) <= u64::MAX,
                ;
            }
            let n_a = sums.n_a as u128;
            let n_b = sums.n_b as u128;
            let u = 2 * n_a * n_b - u_b;
            assert(recorded_of(pa@, *hist_a) && recorded_of(pb@, *hist_b));
            Some(u)
        },
        None => None,
    }
}

/// The `W` statistic that R's `wilcox.test` reports: the Mann-Whitney *U* of the first sample
/// (doubled); `None` where the pooled sample cannot be ranked.
pub fn wilcoxon_rank_sum_r_w(hist_a: &Timing, hist_b: &Timing) -> (r: Option<u128>)
    ensures
        r is Some <==> pooled_fits(*hist_a, *hist_b),
        r matches Some(u) ==> exists|pa: Seq<(u64, u64)>, pb: Seq<(u64, u64)>|
            #[trigger] recorded_of(pa, *hist_a) && #[trigger] recorded_of(pb, *hist_b) && u
                == twice_mann_whitney_u(pa, pb),
{
    mann_whitney_u_a(hist_a, hist_b)
}

/// The smaller of the two (doubled) Mann-Whitney *U* statistics; `None` where the pooled sample
/// cannot be ranked.
pub fn mann_whitney_u(hist_a: &Timing, hist_b: &Timing) -> (r: Option<u128>)
    ensures
        r is Some <==> pooled_fits(*hist_a, *hist_b),
        r matches Some(u) ==> exists|pa: Seq<(u64, u64)>, pb: Seq<(u64, u64)>|
            #[trigger] recorded_of(pa, *hist_a) && #[trigger] recorded_of(pb, *hist_b) && u
                == if twice_mann_whitney_u(pb, pa) <= twice_mann_whitney_u(pa, pb) {
                twice_mann_whitney_u(pb, pa)
            } else {
                twice_mann_whitney_u(pa, pb)
            },
{
    match recorded_pair(hist_a, hist_b) {
        Some((pa, pb)) => {
            let sums = wilcoxon_rank_sums(&pa, &pb);
            let u_b = twice_u_b_of(&sums, Ghost(pa@), Ghost(pb@));
            proof {
                lemma_mann_whitney_u_range(pa@, pb@);
                assert(2 * total_count(pa@) * total_count(pb@) <= u128::MAX) by (nonlinear_arith)
                    requires
                        total_count(pa@) + total_count(pb@) <= u64::MAX,
                ;
            }
            let n_a = sums.n_a as u128;
            let n_b = sums.n_b as u128;
            let u_a = 2 * n_a * n_b - u_b;
            assert(recorded_of(pa@, *hist_a) && recorded_of(pb@, *hist_b));
            Some(if u_b <= u_a { u_b } else { u_a })
        },
        None => None,
    }
}

} // verus!
