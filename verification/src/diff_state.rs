//! The state that a latency comparison of two closures `f1` and `f2` accumulates: a histogram of
//! each function's latencies, and tallies of the paired observations.
//!
//! Latencies are captured in pairs, one of `f1` and one of `f2`, measured next to each other.
//! The comparison runs in two halves; in the second half the roles of `f1` and `f2` are swapped
//! by reversing the state, so that each function is as often measured first as second.

use crate::histogram::{
    counted_under, histogram_auto_resize, histogram_len, histogram_new_from, histogram_new_with_max,
    histogram_record, histogram_reset, histogram_set_auto, histogram_sigfig, histogram_values,
    Timing,
};
use crate::latency::{duo_exec, instant_duration_since, instant_now, Latency, LatencyUnit};
use vstd::multiset::Multiset;
use vstd::prelude::*;

verus! {

/// Number of significant decimal digits of the latency histograms.
pub const HISTOGRAM_SIGFIG: u8 = 5;

/// How long the comparison warms up before it starts to capture, in milliseconds.
pub const WARMUP_MILLIS: u64 = 3_000;

/// Number of executions of each function between two looks at the clock while warming up.
pub const WARMUP_INCREMENT_COUNT: usize = 20;

/// Why a pair of latencies could not be captured.
#[derive(Debug, Clone, Copy, PartialEq, Eq, Structural)]
pub enum CaptureError {
    /// A latency of zero, whose logarithm is undefined.
    ZeroLatency,
    /// A latency above `i64::MAX`, or a count or a sum that would overflow.
    Overflow,
}

/// Tallies of the paired observations `(e1, e2)`: how often `e1 < e2`, `e1 == e2` and
/// `e1 > e2`, the sums of the `e1` and of the `e2`, and the sum of the squared differences.
pub struct PairTallies {
    pub lt: nat,
    pub eq: nat,
    pub gt: nat,
    pub sum_f1: int,
    pub sum_f2: int,
    pub sum2_diff: int,
}

/// No observation yet.
pub open spec fn no_tallies() -> PairTallies {
    PairTallies { lt: 0, eq: 0, gt: 0, sum_f1: 0, sum_f2: 0, sum2_diff: 0 }
}

/// The tallies after one more observation `(e1, e2)`.
pub open spec fn tally(t: PairTallies, e1: u64, e2: u64) -> PairTallies {
    let d = e1 - e2;
    PairTallies {
        lt: t.lt + if d < 0 { 1nat } else { 0nat },
        eq: t.eq + if d == 0 { 1nat } else { 0nat },
        gt: t.gt + if d > 0 { 1nat } else { 0nat },
        sum_f1: t.sum_f1 + e1,
        sum_f2: t.sum_f2 + e2,
        sum2_diff: t.sum2_diff + d * d,
    }
}

/// The tallies after the observations `pairs`, in order.
pub open spec fn tally_all(t: PairTallies, pairs: Seq<(u64, u64)>) -> PairTallies
    decreases pairs.len(),
{
    if pairs.len() == 0 {
        t
    } else {
        tally(tally_all(t, pairs.drop_last()), pairs.last().0, pairs.last().1)
    }
}

/// The tallies with the roles of `f1` and `f2` swapped.
pub open spec fn reversed_tallies(t: PairTallies) -> PairTallies {
    PairTallies {
        lt: t.gt,
        eq: t.eq,
        gt: t.lt,
        sum_f1: t.sum_f2,
        sum_f2: t.sum_f1,
        sum2_diff: t.sum2_diff,
    }
}

/// Each pair with its components swapped.
pub open spec fn swapped_pairs(pairs: Seq<(u64, u64)>) -> Seq<(u64, u64)> {
    pairs.map_values(|p: (u64, u64)| (p.1, p.0))
}

/// What a `DiffState` holds: the values counted by each histogram, and the tallies.
pub struct DiffStateView {
    pub values_f1: Multiset<u64>,
    pub values_f2: Multiset<u64>,
    pub tallies: PairTallies,
}

/// The view with the roles of `f1` and `f2` swapped.
pub open spec fn reversed_view(v: DiffStateView) -> DiffStateView {
    DiffStateView {
        values_f1: v.values_f2,
        values_f2: v.values_f1,
        tallies: reversed_tallies(v.tallies),
    }
}

/// The number of observations.
pub open spec fn observations(t: PairTallies) -> nat {
    t.lt + t.eq + t.gt
}

/// Whether the observation `(e1, e2)` can be captured after the tallies `t`, and if not, why.
pub open spec fn capture_result(t: PairTallies, e1: u64, e2: u64) -> Result<(), CaptureError> {
    let d = e1 - e2;
    if e1 == 0 || e2 == 0 {
        Err(CaptureError::ZeroLatency)
    } else if e1 > i64::MAX || e2 > i64::MAX || observations(t) + 1 >= u64::MAX || t.sum_f1 + e1
        > i64::MAX || t.sum_f2 + e2 > i64::MAX || d * d > i64::MAX || t.sum2_diff + d * d
        > i64::MAX {
        Err(CaptureError::Overflow)
    } else {
        Ok(())
    }
}

/// An observation that could not be captured, with the observations of the same run captured
/// before it.
#[derive(Debug, PartialEq, Eq)]
pub struct CaptureFailure {
    /// Why the observation could not be captured.
    pub error: CaptureError,
    /// The observations captured before it, each a latency of `f1` and one of `f2`.
    pub captured: Vec<(u64, u64)>,
    /// The observation that could not be captured: a latency of `f1` and one of `f2`.
    pub failed: (u64, u64),
}

/// From the tallies `start`, the observations that `f` reports as captured leave tallies after
/// which its failed observation cannot be captured, for the reason that it gives.
pub open spec fn failure_after(start: PairTallies, f: CaptureFailure) -> bool {
    capture_result(tally_all(start, f.captured@), f.failed.0, f.failed.1) == Err::<(), CaptureError>(
        f.error,
    )
}

/// Appends to `all` the pairs of `v`, each with its components swapped.
fn push_swapped(all: &mut Vec<(u64, u64)>, v: &Vec<(u64, u64)>)
    ensures
        final(all)@ == old(all)@ + swapped_pairs(v@),
{
    let ghost start = all@;
    let mut i: usize = 0;
    while i < v.len()
        invariant
            i <= v.len(),
            all@ == start + swapped_pairs(v@).take(i as int),
        decreases v.len() - i,
    {
        let (a, b) = v[i];
        all.push((b, a));
        assert(swapped_pairs(v@).take(i + 1) =~= swapped_pairs(v@).take(i as int).push((b, a)));
        i = i + 1;
    }
    assert(swapped_pairs(v@).take(i as int) =~= swapped_pairs(v@));
}

/// `after` is `before` with the observation `(e1, e2)` captured: each latency counted by its
/// histogram, under the value of its bucket in `HISTOGRAM_SIGFIG` significant digits (see
/// `counted_under`), and the tallies updated.
pub open spec fn captured(before: DiffStateView, after: DiffStateView, e1: u64, e2: u64) -> bool {
    &&& after.tallies == tally(before.tallies, e1, e2)
    &&& exists|b1: u64|
        counted_under(HISTOGRAM_SIGFIG, e1, b1) && after.values_f1 == #[trigger] before.values_f1.insert(
            b1,
        )
    &&& exists|b2: u64|
        counted_under(HISTOGRAM_SIGFIG, e2, b2) && after.values_f2 == #[trigger] before.values_f2.insert(
            b2,
        )
}

proof fn lemma_capture_result_reversed(t: PairTallies, e1: u64, e2: u64)
    ensures
        capture_result(reversed_tallies(t), e1, e2) == capture_result(t, e2, e1),
{
    assert((e2 - e1) * (e2 - e1) == (e1 - e2) * (e1 - e2)) by (nonlinear_arith);
}

/// The latencies of `f1` in `pairs`.
pub open spec fn firsts(pairs: Seq<(u64, u64)>) -> Seq<u64> {
    pairs.map_values(|p: (u64, u64)| p.0)
}

/// The latencies of `f2` in `pairs`.
pub open spec fn seconds(pairs: Seq<(u64, u64)>) -> Seq<u64> {
    pairs.map_values(|p: (u64, u64)| p.1)
}

/// `buckets` are values under which the `latencies` can be counted, one each, in order.
pub open spec fn buckets_of(latencies: Seq<u64>, buckets: Seq<u64>) -> bool {
    &&& buckets.len() == latencies.len()
    &&& forall|i: int|
        0 <= i < latencies.len() ==> counted_under(HISTOGRAM_SIGFIG, latencies[i], #[trigger] buckets[i])
}

/// `after` is `before` with each of `latencies` counted once, under the value of its bucket.
pub open spec fn counts_latencies(before: Multiset<u64>, after: Multiset<u64>, latencies: Seq<u64>) -> bool {
    exists|buckets: Seq<u64>|
        #[trigger] buckets_of(latencies, buckets) && after == before.add(buckets.to_multiset())
}

/// The histograms of `after` are those of `before` with the observations `pairs` counted: the
/// latencies of `f1` in the histogram of `f1`, those of `f2` in the histogram of `f2`.
pub open spec fn histograms_counted(
    before: DiffStateView,
    after: DiffStateView,
    pairs: Seq<(u64, u64)>,
) -> bool {
    &&& counts_latencies(before.values_f1, after.values_f1, firsts(pairs))
    &&& counts_latencies(before.values_f2, after.values_f2, seconds(pairs))
}

/// The histograms of `s` hold exactly the observations `pairs`, each latency counted in its own
/// function's histogram.
pub open spec fn histograms_hold(s: DiffStateView, pairs: Seq<(u64, u64)>) -> bool {
    &&& counts_latencies(Multiset::empty(), s.values_f1, firsts(pairs))
    &&& counts_latencies(Multiset::empty(), s.values_f2, seconds(pairs))
}

proof fn lemma_counts_none(m: Multiset<u64>)
    ensures
        counts_latencies(m, m, Seq::empty()),
{
    broadcast use vstd::seq_lib::group_to_multiset_ensures;
    broadcast use vstd::multiset::group_multiset_axioms;

    let e = Seq::<u64>::empty();
    assert(e.to_multiset().len() == 0);
    assert(e.to_multiset() =~= Multiset::empty());
    assert(m.add(e.to_multiset()) =~= m);
    assert(buckets_of(e, e));
}

proof fn lemma_counts_push(
    before: Multiset<u64>,
    mid: Multiset<u64>,
    after: Multiset<u64>,
    latencies: Seq<u64>,
    e: u64,
    b: u64,
)
    requires
        counts_latencies(before, mid, latencies),
        counted_under(HISTOGRAM_SIGFIG, e, b),
        after == mid.insert(b),
    ensures
        counts_latencies(before, after, latencies.push(e)),
{
    broadcast use vstd::seq_lib::group_to_multiset_ensures;
    broadcast use vstd::multiset::group_multiset_axioms;

    let bk = choose|bk: Seq<u64>| #[trigger] buckets_of(latencies, bk) && mid == before.add(bk.to_multiset());
    let bk2 = bk.push(b);
    assert(bk2.to_multiset() =~= bk.to_multiset().insert(b));
    assert(after =~= before.add(bk2.to_multiset()));
    assert forall|i: int| 0 <= i < latencies.push(e).len() implies counted_under(
        HISTOGRAM_SIGFIG,
        latencies.push(e)[i],
        #[trigger] bk2[i],
    ) by {
        if i < latencies.len() {
            assert(bk2[i] == bk[i]);
        }
    }
    assert(buckets_of(latencies.push(e), bk2));
}

proof fn lemma_counts_concat(
    a: Multiset<u64>,
    b: Multiset<u64>,
    c: Multiset<u64>,
    l1: Seq<u64>,
    l2: Seq<u64>,
)
    requires
        counts_latencies(a, b, l1),
        counts_latencies(b, c, l2),
    ensures
        counts_latencies(a, c, l1 + l2),
{
    broadcast use vstd::multiset::group_multiset_axioms;

    let bk1 = choose|bk: Seq<u64>| #[trigger] buckets_of(l1, bk) && b == a.add(bk.to_multiset());
    let bk2 = choose|bk: Seq<u64>| #[trigger] buckets_of(l2, bk) && c == b.add(bk.to_multiset());
    vstd::seq_lib::lemma_multiset_commutative(bk1, bk2);
    assert(c =~= a.add((bk1 + bk2).to_multiset()));
    assert forall|i: int| 0 <= i < (l1 + l2).len() implies counted_under(
        HISTOGRAM_SIGFIG,
        (l1 + l2)[i],
        #[trigger] (bk1 + bk2)[i],
    ) by {
        if i < l1.len() {
            assert(bk1[i] == (bk1 + bk2)[i]);
        } else {
            assert(bk2[i - l1.len()] == (bk1 + bk2)[i]);
        }
    }
    assert(buckets_of(l1 + l2, bk1 + bk2));
}

/// Capturing one more observation counts its two latencies in their histograms.
proof fn lemma_histograms_step(
    start: DiffStateView,
    before: DiffStateView,
    after: DiffStateView,
    pairs: Seq<(u64, u64)>,
    e1: u64,
    e2: u64,
)
    requires
        histograms_counted(start, before, pairs),
        captured(before, after, e1, e2),
    ensures
        histograms_counted(start, after, pairs.push((e1, e2))),
{
    let b1 = choose|b1: u64|
        counted_under(HISTOGRAM_SIGFIG, e1, b1) && after.values_f1 == #[trigger] before.values_f1.insert(b1);
    let b2 = choose|b2: u64|
        counted_under(HISTOGRAM_SIGFIG, e2, b2) && after.values_f2 == #[trigger] before.values_f2.insert(b2);
    lemma_counts_push(start.values_f1, before.values_f1, after.values_f1, firsts(pairs), e1, b1);
    lemma_counts_push(start.values_f2, before.values_f2, after.values_f2, seconds(pairs), e2, b2);
    assert(firsts(pairs.push((e1, e2))) =~= firsts(pairs).push(e1));
    assert(seconds(pairs.push((e1, e2))) =~= seconds(pairs).push(e2));
}

/// A run in two halves, the second with the roles of `f1` and `f2` swapped and back, holds in each
/// histogram its own function's latencies of the observations of both halves, oriented as
/// `(f1, f2)`.
proof fn lemma_histograms_two_halves(
    start: DiffStateView,
    mid: DiffStateView,
    rev_end: DiffStateView,
    first: Seq<(u64, u64)>,
    second: Seq<(u64, u64)>,
)
    requires
        start.values_f1 =~= Multiset::empty(),
        start.values_f2 =~= Multiset::empty(),
        histograms_counted(start, mid, first),
        histograms_counted(reversed_view(mid), rev_end, second),
    ensures
        histograms_hold(reversed_view(rev_end), first + swapped_pairs(second)),
{
    lemma_counts_concat(Multiset::empty(), mid.values_f1, rev_end.values_f2, firsts(first), seconds(second));
    lemma_counts_concat(Multiset::empty(), mid.values_f2, rev_end.values_f1, seconds(first), firsts(second));
    assert(firsts(first + swapped_pairs(second)) =~= firsts(first) + seconds(second));
    assert(seconds(first + swapped_pairs(second)) =~= seconds(first) + firsts(second));
}

proof fn lemma_tally_all_append(t: PairTallies, v: Seq<(u64, u64)>, w: Seq<(u64, u64)>)
    ensures
        tally_all(t, v + w) == tally_all(tally_all(t, v), w),
    decreases w.len(),
{
    if w.len() == 0 {
        assert(v + w =~= v);
    } else {
        assert((v + w).drop_last() =~= v + w.drop_last());
        lemma_tally_all_append(t, v, w.drop_last());
    }
}

proof fn lemma_tally_reversed(t: PairTallies, e1: u64, e2: u64)
    ensures
        reversed_tallies(tally(reversed_tallies(t), e1, e2)) == tally(t, e2, e1),
{
    assert((e2 - e1) * (e2 - e1) == (e1 - e2) * (e1 - e2)) by (nonlinear_arith);
}

proof fn lemma_tally_all_reversed(t: PairTallies, v: Seq<(u64, u64)>)
    ensures
        reversed_tallies(tally_all(reversed_tallies(t), v)) == tally_all(t, swapped_pairs(v)),
    decreases v.len(),
{
    if v.len() > 0 {
        assert(swapped_pairs(v).drop_last() =~= swapped_pairs(v.drop_last()));
        lemma_tally_all_reversed(t, v.drop_last());
        let u = tally_all(reversed_tallies(t), v.drop_last());
        lemma_tally_reversed(reversed_tallies(u), v.last().0, v.last().1);
    }
}

proof fn lemma_observations_tally_all(t: PairTallies, v: Seq<(u64, u64)>)
    ensures
        observations(tally_all(t, v)) == observations(t) + v.len(),
    decreases v.len(),
{
    if v.len() > 0 {
        lemma_observations_tally_all(t, v.drop_last());
    }
}

/// Tallying the same observations with the roles of `f1` and `f2` swapped swaps the counts of
/// `f1 < f2` and `f1 > f2` and the two sums, and keeps the rest.
pub proof fn lemma_tallies_of_swapped_pairs(pairs: Seq<(u64, u64)>)
    ensures
        tally_all(no_tallies(), swapped_pairs(pairs)) == reversed_tallies(tally_all(no_tallies(), pairs)),
{
    lemma_tally_all_reversed(no_tallies(), pairs);
    assert(reversed_tallies(no_tallies()) == no_tallies());
}

/// Swapping the roles of `f1` and `f2` twice gives back the state.
pub proof fn lemma_reversed_view_involution(v: DiffStateView)
    ensures
        reversed_view(reversed_view(v)) == v,
{
}

/// Capturing the observation `(e1, e2)` in the reversed state is capturing `(e2, e1)` in the
/// state, reversed: the outcome, the histograms and the tallies agree.
pub proof fn lemma_capture_reversed(s: DiffStateView, t: DiffStateView, e1: u64, e2: u64)
    ensures
        capture_result(reversed_view(s).tallies, e1, e2) == capture_result(s.tallies, e2, e1),
        captured(reversed_view(s), t, e1, e2) <==> captured(s, reversed_view(t), e2, e1),
{
    lemma_tally_reversed(s.tallies, e1, e2);
    assert((e2 - e1) * (e2 - e1) == (e1 - e2) * (e1 - e2)) by (nonlinear_arith);
    let rs = reversed_view(s);
    let rt = reversed_view(t);
    assert(reversed_tallies(reversed_tallies(t.tallies)) == t.tallies);
    assert(reversed_tallies(tally(rs.tallies, e1, e2)) == tally(s.tallies, e2, e1));
    assert(t.tallies == tally(rs.tallies, e1, e2) <==> rt.tallies == tally(s.tallies, e2, e1));
    if captured(rs, t, e1, e2) {
        let b1 = choose|b1: u64|
            counted_under(HISTOGRAM_SIGFIG, e1, b1) && t.values_f1 == #[trigger] rs.values_f1.insert(b1);
        let b2 = choose|b2: u64|
            counted_under(HISTOGRAM_SIGFIG, e2, b2) && t.values_f2 == #[trigger] rs.values_f2.insert(b2);
        assert(rt.values_f1 == s.values_f1.insert(b2));
        assert(rt.values_f2 == s.values_f2.insert(b1));
    }
    if captured(s, rt, e2, e1) {
        let b1 = choose|b1: u64|
            counted_under(HISTOGRAM_SIGFIG, e2, b1) && rt.values_f1 == #[trigger] s.values_f1.insert(b1);
        let b2 = choose|b2: u64|
            counted_under(HISTOGRAM_SIGFIG, e1, b2) && rt.values_f2 == #[trigger] s.values_f2.insert(b2);
        assert(t.values_f1 == rs.values_f1.insert(b2));
        assert(t.values_f2 == rs.values_f2.insert(b1));
    }
}

/// Capturing the observation `(e1, e2)` counts it as `f1 < f2` exactly when `e1 < e2`, as
/// `f1 == f2` exactly when `e1 == e2`, and as `f1 > f2` exactly when `e1 > e2`; adds `e1` to the
/// sum of `f1`, `e2` to that of `f2`, and `(e1 - e2)^2` to the sum of squared differences; and
/// counts `e1` in the histogram of `f1`, `e2` in that of `f2`, each once.
pub proof fn lemma_capture_counts(before: DiffStateView, after: DiffStateView, e1: u64, e2: u64)
    requires
        captured(before, after, e1, e2),
    ensures
        after.tallies.lt == before.tallies.lt + (if e1 < e2 { 1int } else { 0int }),
        after.tallies.eq == before.tallies.eq + (if e1 == e2 { 1int } else { 0int }),
        after.tallies.gt == before.tallies.gt + (if e1 > e2 { 1int } else { 0int }),
        observations(after.tallies) == observations(before.tallies) + 1,
        after.tallies.sum_f1 == before.tallies.sum_f1 + e1,
        after.tallies.sum_f2 == before.tallies.sum_f2 + e2,
        after.tallies.sum2_diff == before.tallies.sum2_diff + (e1 - e2) * (e1 - e2),
        after.values_f1.len() == before.values_f1.len() + 1,
        after.values_f2.len() == before.values_f2.len() + 1,
{
    broadcast use vstd::multiset::group_multiset_axioms;

    let b1 = choose|b1: u64|
        counted_under(HISTOGRAM_SIGFIG, e1, b1) && after.values_f1 == #[trigger] before.values_f1.insert(b1);
    let b2 = choose|b2: u64|
        counted_under(HISTOGRAM_SIGFIG, e2, b2) && after.values_f2 == #[trigger] before.values_f2.insert(b2);
}

/// After the observations `pairs`, the count of `f1 < f2` has grown by the number of pairs whose
/// first latency is the smaller, that of `f1 == f2` by the number of pairs of equal latencies,
/// and that of `f1 > f2` by the number of pairs whose first latency is the larger.
pub proof fn lemma_tally_counts_pairs(t: PairTallies, pairs: Seq<(u64, u64)>)
    ensures
        tally_all(t, pairs).lt == t.lt + pairs.filter(|p: (u64, u64)| p.0 < p.1).len(),
        tally_all(t, pairs).eq == t.eq + pairs.filter(|p: (u64, u64)| p.0 == p.1).len(),
        tally_all(t, pairs).gt == t.gt + pairs.filter(|p: (u64, u64)| p.0 > p.1).len(),
    decreases pairs.len(),
{
    let lt = |p: (u64, u64)| p.0 < p.1;
    let eq = |p: (u64, u64)| p.0 == p.1;
    let gt = |p: (u64, u64)| p.0 > p.1;
    if pairs.len() == 0 {
        assert(pairs.filter(lt) =~= Seq::<(u64, u64)>::empty());
        assert(pairs.filter(eq) =~= Seq::<(u64, u64)>::empty());
        assert(pairs.filter(gt) =~= Seq::<(u64, u64)>::empty());
    } else {
        let init = pairs.drop_last();
        let x = pairs.last();
        lemma_tally_counts_pairs(t, init);
        assert(init.push(x) =~= pairs);
        init.lemma_filter_push(x, lt);
        init.lemma_filter_push(x, eq);
        init.lemma_filter_push(x, gt);
    }
}

/// Paired latency observations of two functions.
pub struct DiffState {
    hist_f1: Timing,
    hist_f2: Timing,
    count_f1_lt_f2: u64,
    count_f1_eq_f2: u64,
    count_f1_gt_f2: u64,
    sum_f1: i64,
    sum_f2: i64,
    sum2_diff_f1_f2: i64,
}

impl View for DiffState {
    type V = DiffStateView;

    closed spec fn view(&self) -> DiffStateView {
        DiffStateView {
            values_f1: histogram_values(self.hist_f1),
            values_f2: histogram_values(self.hist_f2),
            tallies: PairTallies {
                lt: self.count_f1_lt_f2 as nat,
                eq: self.count_f1_eq_f2 as nat,
                gt: self.count_f1_gt_f2 as nat,
                sum_f1: self.sum_f1 as int,
                sum_f2: self.sum_f2 as int,
                sum2_diff: self.sum2_diff_f1_f2 as int,
            },
        }
    }
}

impl DiffState {
    /// The number of significant decimal digits of the histograms.
    pub closed spec fn sigfig(&self) -> u8 {
        histogram_sigfig(self.hist_f1)
    }

    /// The state is well formed: both histograms auto-resize and keep `HISTOGRAM_SIGFIG`
    /// significant digits, and each has counted one latency per observation, of which there are
    /// fewer than `u64::MAX`.
    pub closed spec fn wf(&self) -> bool {
        &&& histogram_auto_resize(self.hist_f1)
        &&& histogram_auto_resize(self.hist_f2)
        &&& histogram_sigfig(self.hist_f1) == HISTOGRAM_SIGFIG
        &&& histogram_sigfig(self.hist_f2) == HISTOGRAM_SIGFIG
        &&& observations(self@.tallies) < u64::MAX
        &&& self.sum_f1 >= 0
        &&& self.sum_f2 >= 0
        &&& self.sum2_diff_f1_f2 >= 0
        &&& self@.values_f1.len() == observations(self@.tallies)
        &&& self@.values_f2.len() == observations(self@.tallies)
    }

    /// An empty state, with auto-resizing histograms that track values from 1 to 20,000,000 at
    /// first, with `HISTOGRAM_SIGFIG` (5) significant decimal digits.
    pub fn new() -> (r: DiffState)
        ensures
            r.wf(),
            r.sigfig() == HISTOGRAM_SIGFIG,
            r@.values_f1 =~= Multiset::empty(),
            r@.values_f2 =~= Multiset::empty(),
            r@.tallies == no_tallies(),
    {
        let mut hist_f1 = match histogram_new_with_max(20 * 1000 * 1000, HISTOGRAM_SIGFIG) {
            Ok(h) => h,
            Err(_) => vstd::pervasive::unreached(),
        };
        histogram_set_auto(&mut hist_f1, true);
        let hist_f2 = histogram_new_from(&hist_f1);
        DiffState {
            hist_f1,
            hist_f2,
            count_f1_lt_f2: 0,
            count_f1_eq_f2: 0,
            count_f1_gt_f2: 0,
            sum_f1: 0,
            sum_f2: 0,
            sum2_diff_f1_f2: 0,
        }
    }

    /// Empties both histograms and zeroes the tallies, keeping the histograms' configuration.
    pub fn reset(&mut self)
        requires
            old(self).wf(),
        ensures
            final(self).wf(),
            final(self)@.values_f1 =~= Multiset::empty(),
            final(self)@.values_f2 =~= Multiset::empty(),
            final(self)@.tallies == no_tallies(),
    {
        histogram_reset(&mut self.hist_f1);
        histogram_reset(&mut self.hist_f2);
        self.count_f1_lt_f2 = 0;
        self.count_f1_eq_f2 = 0;
        self.count_f1_gt_f2 = 0;
        self.sum_f1 = 0;
        self.sum_f2 = 0;
        self.sum2_diff_f1_f2 = 0;
    }

    /// Captures the observation `(elapsed1, elapsed2)`: a latency of `f1` and one of `f2`,
    /// measured as a pair. A zero latency, whose logarithm the statistics would need, is refused
    /// with `ZeroLatency`; a latency or a sum beyond an `i64` with `Overflow`. A refused
    /// observation leaves the state as it was.
    pub fn capture_data(&mut self, elapsed1: u64, elapsed2: u64) -> (r: Result<(), CaptureError>)
        requires
            old(self).wf(),
        ensures
            final(self).wf(),
            r == capture_result(old(self)@.tallies, elapsed1, elapsed2),
            r is Ok ==> captured(old(self)@, final(self)@, elapsed1, elapsed2),
            r is Ok ==> final(self)@.tallies.lt == old(self)@.tallies.lt + (if elapsed1 < elapsed2 {
                1int
            } else {
                0int
            }),
            r is Ok ==> final(self)@.tallies.eq == old(self)@.tallies.eq + (if elapsed1 == elapsed2 {
                1int
            } else {
                0int
            }),
            r is Ok ==> final(self)@.tallies.gt == old(self)@.tallies.gt + (if elapsed1 > elapsed2 {
                1int
            } else {
                0int
            }),
            r is Err ==> final(self)@ == old(self)@,
    {
        if elapsed1 == 0 || elapsed2 == 0 {
            return Err(CaptureError::ZeroLatency);
        }
        if elapsed1 > i64::MAX as u64 || elapsed2 > i64::MAX as u64 {
            return Err(CaptureError::Overflow);
        }
        let n = self.count_f1_lt_f2 + self.count_f1_eq_f2 + self.count_f1_gt_f2;
        if n >= u64::MAX - 1 {
            return Err(CaptureError::Overflow);
        }
        let e1 = elapsed1 as i64;
        let e2 = elapsed2 as i64;
        let diff = e1 - e2;
        assert(diff * diff >= 0) by (nonlinear_arith);
        let sums = (self.sum_f1.checked_add(e1), self.sum_f2.checked_add(e2), diff.checked_mul(diff));
        let (sum_f1, sum_f2, diff2) = match sums {
            (Some(a), Some(b), Some(c)) => (a, b, c),
            _ => {
                return Err(CaptureError::Overflow);
            },
        };
        let sum2 = match self.sum2_diff_f1_f2.checked_add(diff2) {
            Some(x) => x,
            None => {
                return Err(CaptureError::Overflow);
            },
        };
        let r1 = histogram_record(&mut self.hist_f1, elapsed1);
        let r2 = histogram_record(&mut self.hist_f2, elapsed2);
        if diff < 0 {
            self.count_f1_lt_f2 = self.count_f1_lt_f2 + 1;
        } else if diff == 0 {
            self.count_f1_eq_f2 = self.count_f1_eq_f2 + 1;
        } else {
            self.count_f1_gt_f2 = self.count_f1_gt_f2 + 1;
        }
        self.sum_f1 = sum_f1;
        self.sum_f2 = sum_f2;
        self.sum2_diff_f1_f2 = sum2;
        Ok(())
    }

    /// Swaps the roles of `f1` and `f2`.
    pub fn reverse(&mut self)
        requires
            old(self).wf(),
        ensures
            final(self).wf(),
            final(self)@ == reversed_view(old(self)@),
    {
        std::mem::swap(&mut self.hist_f1, &mut self.hist_f2);
        std::mem::swap(&mut self.count_f1_lt_f2, &mut self.count_f1_gt_f2);
        std::mem::swap(&mut self.sum_f1, &mut self.sum_f2);
    }

    /// Number of observations (sample size) of each function: the number of latencies that the
    /// histogram of `f1` has counted, which is that of `f2`.
    pub fn n(&self) -> (r: u64)
        requires
            self.wf(),
        ensures
            r == self@.values_f1.len(),
            r == self@.values_f2.len(),
            r == observations(self@.tallies),
    {
        histogram_len(&self.hist_f1)
    }

    /// Count of paired observations where `f1`'s latency is less than `f2`'s.
    pub fn count_f1_lt_f2(&self) -> (r: u64)
        ensures
            r == self@.tallies.lt,
    {
        self.count_f1_lt_f2
    }

    /// Count of paired observations where `f1`'s latency is equal to `f2`'s.
    pub fn count_f1_eq_f2(&self) -> (r: u64)
        ensures
            r == self@.tallies.eq,
    {
        self.count_f1_eq_f2
    }

    /// Count of paired observations where `f1`'s latency is greater than `f2`'s.
    pub fn count_f1_gt_f2(&self) -> (r: u64)
        ensures
            r == self@.tallies.gt,
    {
        self.count_f1_gt_f2
    }

    /// Sum of `f1`'s latencies.
    pub fn sum_f1(&self) -> (r: i64)
        ensures
            r == self@.tallies.sum_f1,
    {
        self.sum_f1
    }

    /// Sum of `f2`'s latencies.
    pub fn sum_f2(&self) -> (r: i64)
        ensures
            r == self@.tallies.sum_f2,
    {
        self.sum_f2
    }

    /// Sum of the squared differences between paired latencies of `f1` and `f2`.
    pub fn sum2_diff_f1_f2(&self) -> (r: i64)
        ensures
            r == self@.tallies.sum2_diff,
    {
        self.sum2_diff_f1_f2
    }

    /// Invokes the duo `f1, f2, f2, f1` `exec_count / 2` times (see `duo_exec`), capturing each
    /// of the two pairs of latencies that a duo yields, in `unit`s, and calling `exec_status`
    /// after each duo. Returns the observations, in order: `2 * (exec_count / 2)` of them. Stops at
    /// the first observation that cannot be captured and returns it, with why and with the
    /// observations captured before it.
    pub fn execute<F1: FnMut(), F2: FnMut(), S: FnMut()>(
        &mut self,
        unit: LatencyUnit,
        f1: &mut F1,
        f2: &mut F2,
        exec_count: usize,
        exec_status: &mut S,
    ) -> (r: Result<Vec<(u64, u64)>, CaptureFailure>)
        requires
            old(self).wf(),
            call_requires(*old(f1), ()),
            call_requires(*old(f2), ()),
            call_requires(*old(exec_status), ()),
        ensures
            final(self).wf(),
            *final(f1) == *old(f1),
            *final(f2) == *old(f2),
            *final(exec_status) == *old(exec_status),
            r matches Ok(v) ==> {
                &&& v.len() == 2 * (exec_count / 2)
                &&& final(self)@.tallies == tally_all(old(self)@.tallies, v@)
                &&& histograms_counted(old(self)@, final(self)@, v@)
            },
            exec_count / 2 == 0 ==> r is Ok,
            r matches Err(f) ==> {
                &&& f.captured.len() < 2 * (exec_count / 2)
                &&& final(self)@.tallies == tally_all(old(self)@.tallies, f.captured@)
                &&& histograms_counted(old(self)@, final(self)@, f.captured@)
                &&& failure_after(old(self)@.tallies, f)
            },
    {
        let duos = exec_count / 2;
        let mut observed: Vec<(u64, u64)> = Vec::new();
        let mut k: usize = 0;
        proof {
            lemma_counts_none(self@.values_f1);
            lemma_counts_none(self@.values_f2);
            assert(firsts(observed@) =~= Seq::<u64>::empty());
            assert(seconds(observed@) =~= Seq::<u64>::empty());
        }
        while k < duos
            invariant
                self.wf(),
                k <= duos,
                duos == exec_count / 2,
                observed.len() == 2 * k,
                self@.tallies == tally_all(old(self)@.tallies, observed@),
                histograms_counted(old(self)@, self@, observed@),
                call_requires(*f1, ()),
                call_requires(*f2, ()),
                call_requires(*exec_status, ()),
                *f1 == *old(f1),
                *f2 == *old(f2),
                *exec_status == *old(exec_status),
            decreases duos - k,
        {
            let pairs = duo_exec(f1, f2);
            let (l1, l2) = pairs[0];
            let e1 = unit.latency_as_u64(l1);
            let e2 = unit.latency_as_u64(l2);
            let ghost view_before = self@;
            match self.capture_data(e1, e2) {
                Ok(()) => {},
                Err(e) => {
                    return Err(CaptureFailure { error: e, captured: observed, failed: (e1, e2) });
                },
            }
            proof {
                lemma_histograms_step(old(self)@, view_before, self@, observed@, e1, e2);
            }
            let ghost before = observed@;
            observed.push((e1, e2));
            assert(observed@.drop_last() =~= before);
            assert(self@.tallies == tally_all(old(self)@.tallies, observed@));
            let (l1, l2) = pairs[1];
            let e1 = unit.latency_as_u64(l1);
            let e2 = unit.latency_as_u64(l2);
            let ghost view_before = self@;
            match self.capture_data(e1, e2) {
                Ok(()) => {},
                Err(e) => {
                    return Err(CaptureFailure { error: e, captured: observed, failed: (e1, e2) });
                },
            }
            proof {
                lemma_histograms_step(old(self)@, view_before, self@, observed@, e1, e2);
            }
            let ghost before = observed@;
            observed.push((e1, e2));
            assert(observed@.drop_last() =~= before);
            assert(self@.tallies == tally_all(old(self)@.tallies, observed@));
            exec_status();
            k = k + 1;
        }
        Ok(observed)
    }

    /// The comparison proper, after any warm-up: empties the state, calls `pre_exec`, then
    /// executes `f1` and `f2` for `exec_count / 2` observations (see `execute`), then swaps their
    /// roles and executes `f2` and `f1` for as many, swapping the roles back. Returns the
    /// observations as pairs of a latency of `f1` and one of `f2`: `4 * (exec_count / 4)` of them,
    /// the largest multiple of 4 that is not above `exec_count`. Stops at the first observation
    /// that cannot be captured and returns it, with why and with the observations captured before
    /// it, all oriented as `(f1, f2)`.
    pub fn run_after_warm_up<F1: FnMut(), F2: FnMut(), P: FnMut(), S: FnMut()>(
        &mut self,
        unit: LatencyUnit,
        f1: &mut F1,
        f2: &mut F2,
        exec_count: usize,
        pre_exec: &mut P,
        exec_status: &mut S,
    ) -> (r: Result<Vec<(u64, u64)>, CaptureFailure>)
        requires
            old(self).wf(),
            call_requires(*old(f1), ()),
            call_requires(*old(f2), ()),
            call_requires(*old(pre_exec), ()),
            call_requires(*old(exec_status), ()),
        ensures
            final(self).wf(),
            *final(f1) == *old(f1),
            *final(f2) == *old(f2),
            *final(pre_exec) == *old(pre_exec),
            *final(exec_status) == *old(exec_status),
            r matches Ok(v) ==> {
                &&& v.len() == 4 * (exec_count / 4)
                &&& final(self)@.tallies == tally_all(no_tallies(), v@)
                &&& final(self)@.values_f1.len() == v.len()
                &&& final(self)@.values_f2.len() == v.len()
                &&& histograms_hold(final(self)@, v@)
            },
            exec_count / 4 == 0 ==> r is Ok,
            r matches Err(f) ==> {
                &&& f.captured.len() < 4 * (exec_count / 4)
                &&& final(self)@.tallies == tally_all(no_tallies(), f.captured@)
                &&& histograms_hold(final(self)@, f.captured@)
                &&& failure_after(no_tallies(), f)
            },
    {
        self.reset();
        pre_exec();
        let ghost start_view = self@;
        let exec_count2 = exec_count / 2;
        assert((exec_count / 2) / 2 == exec_count / 4);
        let first = match self.execute(unit, f1, f2, exec_count2, exec_status) {
            Ok(v) => v,
            Err(f) => {
                return Err(f);
            },
        };
        let ghost mid = self@.tallies;
        let ghost mid_view = self@;
        self.reverse();
        let second = self.execute(unit, f2, f1, exec_count2, exec_status);
        let ghost rev_end = self@.tallies;
        let ghost rev_end_view = self@;
        self.reverse();
        let mut all = first;
        match second {
            Ok(v) => {
                proof {
                    lemma_tally_all_reversed(mid, v@);
                    lemma_tally_all_append(no_tallies(), first@, swapped_pairs(v@));
                    lemma_histograms_two_halves(start_view, mid_view, rev_end_view, first@, v@);
                }
                push_swapped(&mut all, &v);
                proof {
                    lemma_observations_tally_all(no_tallies(), all@);
                }
                Ok(all)
            },
            Err(g) => {
                proof {
                    lemma_tally_all_reversed(mid, g.captured@);
                    lemma_tally_all_append(no_tallies(), first@, swapped_pairs(g.captured@));
                    lemma_capture_result_reversed(self@.tallies, g.failed.0, g.failed.1);
                    assert(reversed_tallies(self@.tallies) == rev_end);
                    lemma_histograms_two_halves(start_view, mid_view, rev_end_view, first@, g.captured@);
                }
                push_swapped(&mut all, &g.captured);
                Err(CaptureFailure { error: g.error, captured: all, failed: (g.failed.1, g.failed.0) })
            },
        }
    }

    /// Warms up: executes `f1` and `f2` `WARMUP_INCREMENT_COUNT` times each (see `execute`),
    /// then calls `warm_up_status` with the number of increments so far, the milliseconds elapsed
    /// since the start and `WARMUP_MILLIS`, and stops once `WARMUP_MILLIS` have elapsed. Returns
    /// the observations captured, a positive multiple of `WARMUP_INCREMENT_COUNT` of them, or the
    /// first observation that could not be captured, with why and with those captured before it.
    pub fn warm_up<F1: FnMut(), F2: FnMut(), W: FnMut(usize, u64, u64)>(
        &mut self,
        unit: LatencyUnit,
        f1: &mut F1,
        f2: &mut F2,
        warm_up_status: &mut W,
    ) -> (r: Result<Vec<(u64, u64)>, CaptureFailure>)
        requires
            old(self).wf(),
            call_requires(*old(f1), ()),
            call_requires(*old(f2), ()),
            forall|i: usize, elapsed: u64, target: u64|
                call_requires(*old(warm_up_status), (i, elapsed, target)),
        ensures
            final(self).wf(),
            *final(f1) == *old(f1),
            *final(f2) == *old(f2),
            *final(warm_up_status) == *old(warm_up_status),
            r matches Ok(v) ==> {
                &&& v.len() > 0
                &&& v.len() % WARMUP_INCREMENT_COUNT == 0
                &&& final(self)@.tallies == tally_all(old(self)@.tallies, v@)
            },
            r matches Err(f) ==> {
                &&& final(self)@.tallies == tally_all(old(self)@.tallies, f.captured@)
                &&& failure_after(old(self)@.tallies, f)
            },
    {
        let start = instant_now();
        let mut no_status = || {};
        let mut observed: Vec<(u64, u64)> = Vec::new();
        let mut i: usize = 1;
        loop
            invariant
                self.wf(),
                1 <= i,
                observed.len() == (i - 1) * WARMUP_INCREMENT_COUNT,
                self@.tallies == tally_all(old(self)@.tallies, observed@),
                call_requires(*f1, ()),
                call_requires(*f2, ()),
                forall|i: usize, elapsed: u64, target: u64|
                    call_requires(*warm_up_status, (i, elapsed, target)),
                *f1 == *old(f1),
                *f2 == *old(f2),
                *warm_up_status == *old(warm_up_status),
                call_requires(no_status, ()),
            decreases usize::MAX - i,
        {
            let ghost before = observed@;
            let ghost mid = self@.tallies;
            let mut more = match self.execute(unit, f1, f2, WARMUP_INCREMENT_COUNT, &mut no_status) {
                Ok(v) => v,
                Err(mut f) => {
                    proof {
                        lemma_tally_all_append(old(self)@.tallies, before, f.captured@);
                    }
                    let ghost added = f.captured@;
                    observed.append(&mut f.captured);
                    assert(observed@ =~= before + added);
                    return Err(CaptureFailure { error: f.error, captured: observed, failed: f.failed });
                },
            };
            proof {
                lemma_tally_all_append(old(self)@.tallies, before, more@);
            }
            let ghost added = more@;
            observed.append(&mut more);
            assert(observed@ =~= before + added);
            let elapsed = Latency::from_duration(instant_duration_since(&instant_now(), &start));
            let elapsed_millis = LatencyUnit::Milli.latency_as_u64(elapsed);
            warm_up_status(i, elapsed_millis, WARMUP_MILLIS);
            if elapsed.nanos() >= (WARMUP_MILLIS as u128) * 1_000_000 || i == usize::MAX {
                assert(observed.len() == i * WARMUP_INCREMENT_COUNT) by (nonlinear_arith)
                    requires
                        observed.len() == (i - 1) * WARMUP_INCREMENT_COUNT + WARMUP_INCREMENT_COUNT,
                ;
                assert(observed.len() % WARMUP_INCREMENT_COUNT == 0) by (nonlinear_arith)
                    requires
                        observed.len() == i * WARMUP_INCREMENT_COUNT,
                        i >= 1,
                ;
                return Ok(observed);
            }
            assert(observed.len() == i * WARMUP_INCREMENT_COUNT) by (nonlinear_arith)
                requires
                    observed.len() == (i - 1) * WARMUP_INCREMENT_COUNT + WARMUP_INCREMENT_COUNT,
            ;
            i = i + 1;
        }
    }

    /// The histogram of `f1`'s latencies.
    pub fn hist_f1(&self) -> (r: &Timing)
        ensures
            histogram_values(*r) == self@.values_f1,
            self.wf() ==> histogram_sigfig(*r) == HISTOGRAM_SIGFIG,
    {
        &self.hist_f1
    }

    /// The histogram of `f2`'s latencies.
    pub fn hist_f2(&self) -> (r: &Timing)
        ensures
            histogram_values(*r) == self@.values_f2,
            self.wf() ==> histogram_sigfig(*r) == HISTOGRAM_SIGFIG,
    {
        &self.hist_f2
    }
}

/// Compares the latencies of `f1` and `f2`: warms up (see `DiffState::warm_up`), then captures
/// `4 * (exec_count / 4)` paired observations (see `DiffState::run_after_warm_up`). Returns the
/// state and the observations, as pairs of a latency of `f1` and one of `f2` in `unit`s; or the
/// observation, in the warm-up or after it, that could not be captured, with the observations
/// captured before it in the same phase.
pub fn bench_diff_x<
    F1: FnMut(),
    F2: FnMut(),
    W: FnMut(usize, u64, u64),
    P: FnMut(),
    S: FnMut(),
>(
    unit: LatencyUnit,
    f1: &mut F1,
    f2: &mut F2,
    exec_count: usize,
    warm_up_status: &mut W,
    pre_exec: &mut P,
    exec_status: &mut S,
) -> (r: Result<(DiffState, Vec<(u64, u64)>), CaptureFailure>)
    requires
        call_requires(*old(f1), ()),
        call_requires(*old(f2), ()),
        forall|i: usize, elapsed: u64, target: u64|
            call_requires(*old(warm_up_status), (i, elapsed, target)),
        call_requires(*old(pre_exec), ()),
        call_requires(*old(exec_status), ()),
    ensures
        r matches Ok((state, v)) ==> {
            &&& state.wf()
            &&& v.len() == 4 * (exec_count / 4)
            &&& state@.tallies == tally_all(no_tallies(), v@)
            &&& state@.values_f1.len() == v.len()
            &&& state@.values_f2.len() == v.len()
            &&& histograms_hold(state@, v@)
        },
        r matches Err(f) ==> failure_after(no_tallies(), f),
{
    let mut state = DiffState::new();
    match state.warm_up(unit, f1, f2, warm_up_status) {
        Ok(_) => {},
        Err(f) => {
            return Err(f);
        },
    }
    match state.run_after_warm_up(unit, f1, f2, exec_count, pre_exec, exec_status) {
        Ok(v) => Ok((state, v)),
        Err(f) => Err(f),
    }
}

/// `bench_diff_x` with no status reports.
pub fn bench_diff<F1: FnMut(), F2: FnMut()>(
    unit: LatencyUnit,
    f1: &mut F1,
    f2: &mut F2,
    exec_count: usize,
) -> (r: Result<(DiffState, Vec<(u64, u64)>), CaptureFailure>)
    requires
        call_requires(*old(f1), ()),
        call_requires(*old(f2), ()),
    ensures
        r matches Ok((state, v)) ==> {
            &&& state.wf()
            &&& v.len() == 4 * (exec_count / 4)
            &&& state@.tallies == tally_all(no_tallies(), v@)
            &&& state@.values_f1.len() == v.len()
            &&& state@.values_f2.len() == v.len()
            &&& histograms_hold(state@, v@)
        },
        r matches Err(f) ==> failure_after(no_tallies(), f),
{
    let mut warm_up_status = |_i: usize, _elapsed: u64, _target: u64| {};
    let mut pre_exec = || {};
    let mut exec_status = || {};
    bench_diff_x(unit, f1, f2, exec_count, &mut warm_up_status, &mut pre_exec, &mut exec_status)
}

} // verus!
