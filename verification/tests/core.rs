use bench_diff::bench_support::{all_tests, eq_result, ScenarioSpec, TestFailures, TestResult};
use bench_diff::claim::{is_critical_claim_type, is_valid_claim_type, validated_claim_type, ClaimId};
use bench_diff::diff_state::{bench_diff_x, CaptureError, DiffState, WARMUP_MILLIS};
use bench_diff::fn_spec::VarSelector;
use bench_diff::histogram::{Timing, TimingError};
use bench_diff::latency::{duo_exec, latency, pair_duo, Latency, LatencyUnit, LATENCY_NANOS_LIMIT};
use bench_diff::nested_btree_map::nest_btree_map;
use bench_diff::stats_types::{accepted_hyp, alt_hyp, AcceptedHyp, AltHyp, Hyp, PositionInCi};
use std::cell::RefCell;
use std::collections::BTreeMap;
use std::time::Duration;

fn spin(n: u64) -> u64 {
    let mut acc: u64 = 0;
    for i in 0..n {
        acc = std::hint::black_box(acc.wrapping_mul(31).wrapping_add(i));
    }
    acc
}

#[test]
fn latency_from_nanos_limit() {
    assert_eq!(Latency::from_nanos(5).map(|l| l.nanos()), Some(5));
    assert!(Latency::from_nanos(LATENCY_NANOS_LIMIT - 1).is_some());
    assert!(Latency::from_nanos(LATENCY_NANOS_LIMIT).is_none());
    assert_eq!(LATENCY_NANOS_LIMIT, (u64::MAX as u128 + 1) * 1_000_000_000);
}

#[test]
fn latency_duration_conversions() {
    let l = Latency::from_duration(Duration::from_millis(3));
    assert_eq!(l.nanos(), 3_000_000);
    assert_eq!(l.to_duration(), Duration::from_millis(3));
    let l = Latency::from_duration(Duration::new(7, 5));
    assert_eq!(l.nanos(), 7_000_000_005);
    assert_eq!(l.to_duration(), Duration::new(7, 5));
    let max = Latency::from_duration(Duration::MAX);
    assert_eq!(max.nanos(), LATENCY_NANOS_LIMIT - 1);
}

#[test]
fn latency_as_u64_per_unit() {
    let l = Latency::from_nanos(3_456_789_012).unwrap();
    assert_eq!(LatencyUnit::Nano.latency_as_u64(l), 3_456_789_012);
    assert_eq!(LatencyUnit::Micro.latency_as_u64(l), 3_456_789);
    assert_eq!(LatencyUnit::Milli.latency_as_u64(l), 3_456);
    let big = Latency::from_nanos(LATENCY_NANOS_LIMIT - 1).unwrap();
    assert_eq!(
        LatencyUnit::Nano.latency_as_u64(big),
        ((LATENCY_NANOS_LIMIT - 1) % (1u128 << 64)) as u64
    );
}

#[test]
fn latency_from_u64_per_unit() {
    assert_eq!(LatencyUnit::Nano.latency_from_u64(42).nanos(), 42);
    assert_eq!(LatencyUnit::Micro.latency_from_u64(42).nanos(), 42_000);
    assert_eq!(LatencyUnit::Milli.latency_from_u64(42).nanos(), 42_000_000);
    assert_eq!(
        LatencyUnit::Milli.latency_from_u64(42).to_duration(),
        Duration::from_millis(42)
    );
}

#[test]
fn latency_round_trip() {
    for unit in [LatencyUnit::Nano, LatencyUnit::Micro, LatencyUnit::Milli] {
        for e in [0u64, 1, 999, 1_000_001, u64::MAX] {
            assert_eq!(unit.latency_as_u64(unit.latency_from_u64(e)), e);
        }
    }
}

#[test]
fn latency_measures_a_call() {
    let calls = RefCell::new(0u32);
    let mut f = || {
        spin(10_000);
        *calls.borrow_mut() += 1;
    };
    let l = latency(&mut f);
    assert_eq!(*calls.borrow(), 1);
    assert!(l.nanos() > 0);
}

#[test]
fn duo_exec_order() {
    let log = RefCell::new(Vec::new());
    let mut f1 = || log.borrow_mut().push(1);
    let mut f2 = || log.borrow_mut().push(2);
    let _ = duo_exec(&mut f1, &mut f2);
    assert_eq!(*log.borrow(), vec![1, 2, 2, 1]);
}

#[test]
fn capture_data_counts_and_sums() {
    let mut s = DiffState::new();
    assert_eq!(s.n(), 0);
    assert_eq!(s.capture_data(10, 20), Ok(()));
    assert_eq!(s.capture_data(30, 30), Ok(()));
    assert_eq!(s.capture_data(50, 20), Ok(()));
    assert_eq!(s.n(), 3);
    assert_eq!((s.count_f1_lt_f2(), s.count_f1_eq_f2(), s.count_f1_gt_f2()), (1, 1, 1));
    assert_eq!((s.sum_f1(), s.sum_f2()), (90, 70));
    assert_eq!(s.sum2_diff_f1_f2(), 100 + 0 + 900);
    assert_eq!(s.hist_f1().len(), 3);
    assert_eq!(s.hist_f2().len(), 3);
    assert_eq!(s.hist_f1().recorded(), vec![(10, 1), (30, 1), (50, 1)]);
    assert_eq!(s.hist_f2().recorded(), vec![(20, 2), (30, 1)]);
}

#[test]
fn capture_data_errors() {
    let mut s = DiffState::new();
    assert_eq!(s.capture_data(0, 5), Err(CaptureError::ZeroLatency));
    assert_eq!(s.capture_data(5, 0), Err(CaptureError::ZeroLatency));
    assert_eq!(s.capture_data(i64::MAX as u64 + 1, 1), Err(CaptureError::Overflow));
    assert_eq!(s.n(), 0);
    assert_eq!(s.capture_data(i64::MAX as u64, 1), Err(CaptureError::Overflow));
    assert_eq!(s.n(), 0);
    assert_eq!(s.capture_data(1 << 31, 1), Ok(()));
    assert_eq!(s.capture_data(i64::MAX as u64, 1 << 31), Err(CaptureError::Overflow));
    assert_eq!(s.n(), 1);
    assert_eq!(s.sum_f1(), 1 << 31);
}

#[test]
fn reverse_swaps_and_reverse_twice_restores() {
    let mut s = DiffState::new();
    s.capture_data(10, 20).unwrap();
    s.capture_data(10, 20).unwrap();
    s.capture_data(40, 20).unwrap();
    s.reverse();
    assert_eq!((s.count_f1_lt_f2(), s.count_f1_eq_f2(), s.count_f1_gt_f2()), (1, 0, 2));
    assert_eq!((s.sum_f1(), s.sum_f2()), (60, 60));
    s.reverse();
    assert_eq!((s.count_f1_lt_f2(), s.count_f1_eq_f2(), s.count_f1_gt_f2()), (2, 0, 1));
    assert_eq!((s.sum_f1(), s.sum_f2()), (60, 60));
    assert_eq!(s.sum2_diff_f1_f2(), 100 + 100 + 400);
}

#[test]
fn capture_in_reversed_state_is_reversed_capture() {
    let mut s = DiffState::new();
    s.capture_data(10, 20).unwrap();
    let mut t = DiffState::new();
    t.capture_data(10, 20).unwrap();

    s.reverse();
    assert_eq!(s.capture_data(7, 3), Ok(()));
    s.reverse();
    assert_eq!(t.capture_data(3, 7), Ok(()));
    assert_eq!(
        (s.count_f1_lt_f2(), s.count_f1_eq_f2(), s.count_f1_gt_f2(), s.sum_f1(), s.sum_f2()),
        (t.count_f1_lt_f2(), t.count_f1_eq_f2(), t.count_f1_gt_f2(), t.sum_f1(), t.sum_f2())
    );
    assert_eq!(s.sum2_diff_f1_f2(), t.sum2_diff_f1_f2());
}

#[test]
fn reset_empties() {
    let mut s = DiffState::new();
    s.capture_data(10, 20).unwrap();
    s.reset();
    assert_eq!(s.n(), 0);
    assert_eq!((s.count_f1_lt_f2(), s.count_f1_eq_f2(), s.count_f1_gt_f2()), (0, 0, 0));
    assert_eq!((s.sum_f1(), s.sum_f2(), s.sum2_diff_f1_f2()), (0, 0, 0));
}

#[test]
fn execute_captures_two_per_duo() {
    let mut s = DiffState::new();
    let mut f1 = || {
        spin(2_000);
    };
    let mut f2 = || {
        spin(4_000);
    };
    let statuses = RefCell::new(0u32);
    let mut status = || *statuses.borrow_mut() += 1;
    let v = s.execute(LatencyUnit::Nano, &mut f1, &mut f2, 7, &mut status).unwrap();
    assert_eq!(v.len(), 6);
    assert_eq!(*statuses.borrow(), 3);
    assert_eq!(s.n(), 6);
    let lt = v.iter().filter(|(a, b)| a < b).count() as u64;
    let gt = v.iter().filter(|(a, b)| a > b).count() as u64;
    assert_eq!(s.count_f1_lt_f2(), lt);
    assert_eq!(s.count_f1_gt_f2(), gt);
    assert_eq!(s.sum_f1(), v.iter().map(|p| p.0 as i64).sum::<i64>());
    assert_eq!(s.sum_f2(), v.iter().map(|p| p.1 as i64).sum::<i64>());
}

#[test]
fn run_after_warm_up_multiple_of_four() {
    let mut s = DiffState::new();
    s.capture_data(1, 2).unwrap();
    let log = RefCell::new(Vec::new());
    let mut f1 = || {
        spin(1_000);
        log.borrow_mut().push(1);
    };
    let mut f2 = || {
        spin(50_000);
        log.borrow_mut().push(2);
    };
    let pre = RefCell::new(0u32);
    let mut pre_exec = || *pre.borrow_mut() += 1;
    let mut exec_status = || {};
    let v = s
        .run_after_warm_up(LatencyUnit::Nano, &mut f1, &mut f2, 10, &mut pre_exec, &mut exec_status)
        .unwrap();
    assert_eq!(v.len(), 8);
    assert_eq!(*pre.borrow(), 1);
    assert_eq!(s.n(), 8);
    assert_eq!(log.borrow().len(), 16);
    assert_eq!(log.borrow().iter().filter(|x| **x == 1).count(), 8);
    // the second half starts with f2
    assert_eq!(log.borrow()[8], 2);
    assert_eq!(s.sum_f1(), v.iter().map(|p| p.0 as i64).sum::<i64>());
    assert_eq!(s.sum_f2(), v.iter().map(|p| p.1 as i64).sum::<i64>());
    let lt = v.iter().filter(|(a, b)| a < b).count() as u64;
    assert_eq!(s.count_f1_lt_f2(), lt);
    assert_eq!(s.count_f1_lt_f2() + s.count_f1_eq_f2() + s.count_f1_gt_f2(), 8);
}

#[test]
fn bench_diff_x_warms_up_then_runs() {
    let mut f1 = || {
        spin(1_000);
    };
    let mut f2 = || {
        spin(2_000);
    };
    let warm = RefCell::new(Vec::new());
    let mut warm_up_status = |i: usize, elapsed: u64, target: u64| warm.borrow_mut().push((i, elapsed, target));
    let pre = RefCell::new(0u32);
    let mut pre_exec = || *pre.borrow_mut() += 1;
    let execs = RefCell::new(0u32);
    let mut exec_status = || *execs.borrow_mut() += 1;
    let (state, v) = bench_diff_x(
        LatencyUnit::Nano,
        &mut f1,
        &mut f2,
        23,
        &mut warm_up_status,
        &mut pre_exec,
        &mut exec_status,
    )
    .unwrap();
    assert_eq!(v.len(), 20);
    assert_eq!(state.n(), 20);
    assert_eq!(*pre.borrow(), 1);
    assert_eq!(*execs.borrow(), 10);
    let warm = warm.borrow();
    assert!(!warm.is_empty());
    for (k, (i, _, target)) in warm.iter().enumerate() {
        assert_eq!(*i, k + 1);
        assert_eq!(*target, WARMUP_MILLIS);
    }
    let (_, last_elapsed, _) = warm[warm.len() - 1];
    assert!(last_elapsed >= WARMUP_MILLIS);
    for (_, elapsed, _) in &warm[..warm.len() - 1] {
        assert!(*elapsed <= WARMUP_MILLIS);
    }
}

#[test]
fn histogram_wrappers() {
    assert_eq!(Timing::new_with_max(1, 3).err(), Some(TimingError::InvalidParameters));
    assert_eq!(Timing::new_with_max(2, 6).err(), Some(TimingError::InvalidParameters));
    let mut h = Timing::new_with_max(1000, 3).unwrap();
    assert_eq!(h.record(100_000), Err(TimingError::ValueOutOfRange));
    assert_eq!(h.len(), 0);
    h.record(7).unwrap();
    h.record(7).unwrap();
    h.record(3).unwrap();
    assert_eq!(h.len(), 3);
    assert_eq!(h.recorded(), vec![(3, 1), (7, 2)]);
    let mut g = h.new_from();
    assert_eq!(g.len(), 0);
    g.auto(true);
    g.record(5_000_000).unwrap();
    let rec = g.recorded();
    assert_eq!(rec.len(), 1);
    assert!(rec[0].0 >= 5_000_000);
    assert_eq!(rec[0].1, 1);
    h.reset();
    assert_eq!(h.len(), 0);
    assert!(h.recorded().is_empty());
}

#[test]
fn hypotheses() {
    assert_eq!(Hyp::Null.alt_hyp(), AltHyp::Ne);
    assert_eq!(Hyp::Alt(AltHyp::Lt).alt_hyp(), AltHyp::Lt);
    assert_eq!(alt_hyp(None), AltHyp::Ne);
    for h in [AltHyp::Lt, AltHyp::Gt, AltHyp::Ne] {
        assert_eq!(alt_hyp(Some(h)), h);
        assert_eq!(alt_hyp(Some(h)), Hyp::Alt(h).alt_hyp());
        assert_eq!(accepted_hyp(Some(h)), AcceptedHyp::Alt);
    }
    assert_eq!(alt_hyp(None), Hyp::Null.alt_hyp());
    assert_eq!(accepted_hyp(None), AcceptedHyp::Null);
    assert!(PositionInCi::In == PositionInCi::In);
    assert!(PositionInCi::In != PositionInCi::Above);
}

#[test]
fn var_selector_parse() {
    assert_eq!(VarSelector::parse("novar"), Some(VarSelector::No));
    assert_eq!(VarSelector::parse("lovar"), Some(VarSelector::Lo));
    assert_eq!(VarSelector::parse("hivar"), Some(VarSelector::Hi));
    assert_eq!(VarSelector::parse("midvar"), None);
    assert_eq!(VarSelector::parse(""), None);
    for v in [VarSelector::No, VarSelector::Lo, VarSelector::Hi] {
        assert_eq!(VarSelector::parse(v.as_str()), Some(v));
    }
}

#[test]
fn claim_types() {
    assert!(is_valid_claim_type("welch_ratio_test"));
    assert!(is_valid_claim_type("binomial_test"));
    assert!(!is_valid_claim_type("welch_ratio"));
    assert!(is_critical_claim_type("welch_ratio_test"));
    assert!(is_critical_claim_type("reversed_ratio_medians"));
    assert!(!is_critical_claim_type("student_diff_test"));
    assert_eq!(validated_claim_type("student_ratio_test"), "student_ratio_test");
    for t in [
        "welch_ratio_test",
        "student_ratio_test",
        "target_ratio_medians_f1_f2_in_welch_ratio_ci",
        "target_ratio_medians_f1_f2_in_student_ratio_ci",
        "reversed_ratio_medians",
    ] {
        assert!(is_critical_claim_type(t) && is_valid_claim_type(t));
    }
}

#[test]
fn claim_id_ref_ratio() {
    let id = ClaimId::new("welch_ratio_test", Some(1.1f64.to_string()));
    assert_eq!(id.has_ref_ratio(&1.1f64.to_string()), Some(true));
    assert_eq!(id.has_ref_ratio(&1.2f64.to_string()), Some(false));
    let id = ClaimId::new("student_diff_test", None);
    assert_eq!(id.has_ref_ratio("1"), None);
}

#[test]
fn test_failures_keep_failed_results() {
    let mut failures = TestFailures::new();
    failures.push_failure(TestResult::check("s1", "t1", true, "ok".to_string()), true);
    assert!(failures.failures().is_empty());
    failures.push_failure(TestResult::check("s1", "t2", false, "bad".to_string()), false);
    failures.push_failure(TestResult::check("s2", "t3", false, "worse".to_string()), true);
    let all = failures.failures();
    assert_eq!(all.len(), 2);
    assert_eq!((all[0].scenario.as_str(), all[0].test), ("s1", "t2"));
    assert_eq!(all[1].result_string, "worse");
    let must = failures.failed_must_pass();
    assert_eq!(must.len(), 1);
    assert_eq!(must[0].test, "t3");
}

#[test]
fn check_eq_result() {
    let r = TestResult::check_eq("s", "t", 3, 3);
    assert!(r.passed);
    let r = TestResult::check_eq("s", "t", PositionInCi::Below, PositionInCi::In);
    assert!(!r.passed);
    assert_eq!(r.result_string, "expected=Below, actual=In");
    assert_eq!(r.scenario, "s");
}

#[test]
fn all_tests_records_mismatches() {
    let mut failures = TestFailures::new();
    all_tests(
        PositionInCi::In,
        PositionInCi::Above,
        PositionInCi::Below,
        &mut failures,
        "f1=a, f2=b".to_string(),
        PositionInCi::In,
        true,
        false,
        true,
    );
    let all = failures.failures();
    assert_eq!(all.len(), 2);
    assert_eq!(all[0].test, "student_position_of_0_in_diff_ci");
    assert_eq!(all[1].test, "student_position_of_1_in_ratio_ci");
    assert_eq!(all[0].scenario, "f1=a, f2=b");
    let must = failures.failed_must_pass();
    assert_eq!(must.len(), 1);
    assert_eq!(must[0].test, "student_position_of_1_in_ratio_ci");
}

#[test]
fn scenario_spec_new() {
    let s = ScenarioSpec::new("base", "hi", PositionInCi::Below, true, false, true);
    assert_eq!((s.name1, s.name2), ("base", "hi"));
    assert!(s.position_in_ci == PositionInCi::Below);
    assert_eq!((s.must_pass1, s.must_pass2, s.must_pass3), (true, false, true));
}

#[test]
fn nest_btree_map_splits_keys() {
    let mut m = BTreeMap::new();
    m.insert(("a", 1), 10);
    m.insert(("a", 2), 20);
    m.insert(("b", 1), 30);
    let nested = nest_btree_map(m);
    assert_eq!(nested.len(), 2);
    assert_eq!(nested["a"].len(), 2);
    assert_eq!(nested["a"][&1], 10);
    assert_eq!(nested["a"][&2], 20);
    assert_eq!(nested["b"][&1], 30);
    let empty: BTreeMap<(u32, u32), u32> = BTreeMap::new();
    assert!(nest_btree_map(empty).is_empty());
}

#[test]
fn swapped_pairs_swap_tallies() {
    let pairs = [(10u64, 20u64), (30, 30), (50, 20), (5, 6)];
    let mut s = DiffState::new();
    let mut t = DiffState::new();
    for (a, b) in pairs {
        s.capture_data(a, b).unwrap();
        t.capture_data(b, a).unwrap();
    }
    assert_eq!(s.count_f1_lt_f2(), t.count_f1_gt_f2());
    assert_eq!(s.count_f1_gt_f2(), t.count_f1_lt_f2());
    assert_eq!(s.count_f1_eq_f2(), t.count_f1_eq_f2());
    assert_eq!((s.sum_f1(), s.sum_f2()), (t.sum_f2(), t.sum_f1()));
    assert_eq!(s.sum2_diff_f1_f2(), t.sum2_diff_f1_f2());
}

#[test]
fn eq_result_values() {
    assert_eq!(eq_result(PositionInCi::In, PositionInCi::In), None);
    assert_eq!(
        eq_result(PositionInCi::Below, PositionInCi::Above),
        Some("expected=Below, actual=Above".to_string())
    );
    assert_eq!(eq_result(1u64, 2u64), Some("expected=1, actual=2".to_string()));
}

#[test]
fn too_few_executions_capture_nothing() {
    let mut s = DiffState::new();
    let mut f1 = || {};
    let mut f2 = || {};
    let mut status = || {};
    assert_eq!(s.execute(LatencyUnit::Nano, &mut f1, &mut f2, 1, &mut status), Ok(vec![]));
    let mut pre_exec = || {};
    assert_eq!(
        s.run_after_warm_up(LatencyUnit::Nano, &mut f1, &mut f2, 3, &mut pre_exec, &mut status),
        Ok(vec![])
    );
    assert_eq!(s.n(), 0);
}

#[test]
fn pair_duo_orients_pairs() {
    let l = |n: u128| Latency::from_nanos(n).unwrap();
    let r = pair_duo(l(1), l(2), l(3), l(4));
    assert_eq!(r, [(l(1), l(2)), (l(4), l(3))]);
}

#[test]
fn execute_reports_the_failed_observation() {
    let mut s = DiffState::new();
    let mut f1 = || {};
    let mut f2 = || {};
    let mut status = || {};
    let f = s.execute(LatencyUnit::Milli, &mut f1, &mut f2, 4, &mut status).unwrap_err();
    assert_eq!(f.error, CaptureError::ZeroLatency);
    assert!(f.captured.is_empty());
    assert_eq!(f.failed, (0, 0));
    assert_eq!(s.n(), 0);
}

#[test]
fn run_after_warm_up_reports_pairs_as_f1_f2() {
    let mut s = DiffState::new();
    let mut f1 = || {
        spin(20_000_000);
    };
    let mut f2 = || {};
    let mut status = || {};
    let mut pre_exec = || {};
    let f = s
        .run_after_warm_up(LatencyUnit::Milli, &mut f1, &mut f2, 8, &mut pre_exec, &mut status)
        .unwrap_err();
    assert_eq!(f.error, CaptureError::ZeroLatency);
    assert!(f.captured.is_empty());
    assert!(f.failed.0 > 0);
    assert_eq!(f.failed.1, 0);
}

#[test]
fn failures_after_a_sequence_of_pushes() {
    let mut failures = TestFailures::new();
    let pushes = [("a", true, true), ("b", false, true), ("c", false, false), ("d", true, false), ("e", false, true)];
    for (name, passed, must_pass) in pushes {
        failures.push_failure(TestResult::check("s", name, passed, String::new()), must_pass);
    }
    let all: Vec<&str> = failures.failures().iter().map(|r| r.test).collect();
    assert_eq!(all, vec!["b", "c", "e"]);
    let must: Vec<&str> = failures.failed_must_pass().iter().map(|r| r.test).collect();
    assert_eq!(must, vec!["b", "e"]);
}

#[test]
fn histograms_count_within_their_precision() {
    let mut h = Timing::new_with_max(1000, 3).unwrap();
    h.auto(true);
    for v in [2047u64, 2048, 1_000_003, 987_654_321] {
        h.reset();
        h.record(v).unwrap();
        let rec = h.recorded();
        assert_eq!(rec.len(), 1);
        let b = rec[0].0;
        assert!(b >= v);
        assert!((b - v) * 1_000 <= v);
        if v < 2048 {
            assert_eq!(b, v);
        }
    }
    let mut s = DiffState::new();
    s.capture_data(262_143, 10_000_007).unwrap();
    assert_eq!(s.hist_f1().recorded(), vec![(262_143, 1)]);
    let b = s.hist_f2().recorded()[0].0;
    assert!(b >= 10_000_007 && (b - 10_000_007) * 100_000 <= 10_000_007);
}

#[test]
fn duration_round_trip() {
    for n in [0u128, 5, 1_000_000_005, LATENCY_NANOS_LIMIT - 1] {
        let l = Latency::from_nanos(n).unwrap();
        assert_eq!(Latency::from_duration(l.to_duration()), l);
    }
}

#[test]
fn each_histogram_holds_its_function_latencies() {
    let mut s = DiffState::new();
    let mut f1 = || {
        spin(200_000);
    };
    let mut f2 = || {
        spin(20_000);
    };
    let mut status = || {};
    let mut pre_exec = || {};
    let v = s
        .run_after_warm_up(LatencyUnit::Micro, &mut f1, &mut f2, 16, &mut pre_exec, &mut status)
        .unwrap();
    let counts = |xs: Vec<u64>| {
        let mut m = BTreeMap::new();
        for x in xs {
            *m.entry(x).or_insert(0u64) += 1;
        }
        m.into_iter().collect::<Vec<_>>()
    };
    assert_eq!(s.hist_f1().recorded(), counts(v.iter().map(|p| p.0).collect()));
    assert_eq!(s.hist_f2().recorded(), counts(v.iter().map(|p| p.1).collect()));
}

#[test]
fn check_eq_message_shape() {
    let r = TestResult::check_eq("s", "t", 1u8, 2u8);
    assert_eq!(r.result_string, "expected=1, actual=2");
}
