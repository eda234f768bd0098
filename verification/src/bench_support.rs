//! Bookkeeping of the test benchmarks: results of checks, the failures among them, and the
//! scenarios that they run.

use crate::stats_types::PositionInCi;
use vstd::prelude::*;
use vstd::std_specs::cmp::PartialEqSpec;

verus! {

/// The two status callbacks of a benchmark: one for the warm-up, one for the execution.
pub struct BenchStatus<F1, F2> {
    pub warmup_status: F1,
    pub exec_status: F2,
}

/// Result of one check of one scenario.
#[derive(Debug)]
pub struct TestResult {
    pub scenario: String,
    pub test: &'static str,
    pub passed: bool,
    pub result_string: String,
}

/// `format!("{x:?}")`: the `Debug` rendering of `x`, which depends on the `Debug` impl of `T` and
/// is left unsaid.
#[verifier::external_body]
fn debug_string<T: core::fmt::Debug>(x: &T) -> String {
    format!("{x:?}")
}

/// `m` is `expected=<e>, actual=<a>` for some renderings `e` and `a` of the two values.
pub open spec fn is_expected_actual_message(m: Seq<char>) -> bool {
    exists|e: Seq<char>, a: Seq<char>| m == "expected="@ + e + ", actual="@ + a
}

/// The message `expected=<expected>, actual=<actual>`, each value in its `Debug` rendering.
fn expected_actual_message<T: core::fmt::Debug>(expected: &T, actual: &T) -> (r: String)
    ensures
        is_expected_actual_message(r@),
{
    let e = debug_string(expected);
    let a = debug_string(actual);
    let mut m = "expected=".to_owned();
    m.append(e.as_str());
    m.append(", actual=");
    m.append(a.as_str());
    assert(m@ == "expected="@ + e@ + ", actual="@ + a@);
    m
}

/// `None` where `actual` equals `expected`; otherwise a message that shows both values.
pub fn eq_result<T: PartialEq + core::fmt::Debug>(expected: T, actual: T) -> (r: Option<String>)
    ensures
        T::obeys_eq_spec() ==> (r is None <==> expected.eq_spec(&actual)),
        r matches Some(m) ==> is_expected_actual_message(m@),
{
    if expected == actual {
        None
    } else {
        Some(expected_actual_message(&expected, &actual))
    }
}

impl TestResult {
    /// The result of a check of `scenario` named `test`, which passed if `condition` holds.
    pub fn check(scenario: &str, test: &'static str, condition: bool, result_string: String) -> (r:
        TestResult)
        ensures
            r.scenario@ == scenario@,
            r.test == test,
            r.passed == condition,
            r.result_string == result_string,
    {
        TestResult { scenario: scenario.to_owned(), test, passed: condition, result_string }
    }

    /// The result of a check of `scenario` named `test` that `actual` equals `expected`; its
    /// result string shows both values.
    pub fn check_eq<T: PartialEq + core::fmt::Debug>(
        scenario: &str,
        test: &'static str,
        expected: T,
        actual: T,
    ) -> (r: TestResult)
        ensures
            r.scenario@ == scenario@,
            r.test == test,
            T::obeys_eq_spec() ==> r.passed == expected.eq_spec(&actual),
            is_expected_actual_message(r.result_string@),
    {
        let passed = expected == actual;
        let result_string = expected_actual_message(&expected, &actual);
        TestResult { scenario: scenario.to_owned(), test, passed, result_string }
    }
}

/// Failed check results, each with whether the check must pass.
pub struct TestFailures(Vec<(TestResult, bool)>);

impl View for TestFailures {
    type V = Seq<(TestResult, bool)>;

    closed spec fn view(&self) -> Seq<(TestResult, bool)> {
        self.0@
    }
}

/// The results of `s` that failed a check that must pass, in order.
pub open spec fn must_pass_failures(s: Seq<(TestResult, bool)>) -> Seq<TestResult>
    decreases s.len(),
{
    if s.len() == 0 {
        Seq::empty()
    } else if !s.last().0.passed && s.last().1 {
        must_pass_failures(s.drop_last()).push(s.last().0)
    } else {
        must_pass_failures(s.drop_last())
    }
}

/// `s` after `result` is offered to it: kept only if it failed.
pub open spec fn with_failure(s: Seq<(TestResult, bool)>, result: TestResult, must_pass: bool) -> Seq<
    (TestResult, bool),
> {
    if result.passed {
        s
    } else {
        s.push((result, must_pass))
    }
}

/// The failures held after each `(result, must_pass)` of `pushes` is offered in turn, starting
/// from none.
pub open spec fn after_pushes(pushes: Seq<(TestResult, bool)>) -> Seq<(TestResult, bool)>
    decreases pushes.len(),
{
    if pushes.len() == 0 {
        Seq::empty()
    } else {
        with_failure(after_pushes(pushes.drop_last()), pushes.last().0, pushes.last().1)
    }
}

/// Whether an offered result failed.
pub open spec fn failed_entry() -> spec_fn((TestResult, bool)) -> bool {
    |e: (TestResult, bool)| !e.0.passed
}

/// Whether an offered result failed a check that must pass.
pub open spec fn failed_must_pass_entry() -> spec_fn((TestResult, bool)) -> bool {
    |e: (TestResult, bool)| !e.0.passed && e.1
}

/// The result of an offered entry.
pub open spec fn entry_result() -> spec_fn((TestResult, bool)) -> TestResult {
    |e: (TestResult, bool)| e.0
}

/// After a sequence of offered results, the failures held are the results that failed, in the
/// order offered, each with its flag.
pub proof fn lemma_failures_after_pushes(pushes: Seq<(TestResult, bool)>)
    ensures
        after_pushes(pushes) == pushes.filter(failed_entry()),
    decreases pushes.len(),
{
    reveal(Seq::filter);
    if pushes.len() == 0 {
        assert(pushes =~= Seq::<(TestResult, bool)>::empty());
    } else {
        lemma_failures_after_pushes(pushes.drop_last());
    }
}

/// After a sequence of offered results, the failures of checks that must pass are the results
/// offered that failed and must pass, in the order offered.
pub proof fn lemma_failed_must_pass_after_pushes(pushes: Seq<(TestResult, bool)>)
    ensures
        must_pass_failures(after_pushes(pushes)) == pushes.filter(failed_must_pass_entry()).map_values(
            entry_result(),
        ),
    decreases pushes.len(),
{
    reveal(Seq::filter);
    if pushes.len() == 0 {
        assert(pushes =~= Seq::<(TestResult, bool)>::empty());
        assert(pushes.filter(failed_must_pass_entry()).map_values(entry_result()) =~= Seq::<
            TestResult,
        >::empty());
    } else {
        let p = pushes.drop_last();
        let x = pushes.last();
        lemma_failed_must_pass_after_pushes(p);
        let kept = p.filter(failed_must_pass_entry());
        if !x.0.passed {
            assert(after_pushes(pushes) == after_pushes(p).push(x));
            assert(after_pushes(pushes).drop_last() =~= after_pushes(p));
            if x.1 {
                assert(kept.push(x).map_values(entry_result()) =~= kept.map_values(
                    entry_result(),
                ).push(x.0));
            }
        }
    }
}

impl TestFailures {
    /// All the results held failed.
    pub open spec fn wf(&self) -> bool {
        forall|i: int| 0 <= i < self@.len() ==> !(#[trigger] self@[i]).0.passed
    }

    /// No failure yet.
    pub fn new() -> (r: TestFailures)
        ensures
            r@ == Seq::<(TestResult, bool)>::empty(),
            r.wf(),
    {
        TestFailures(Vec::new())
    }

    /// Keeps `result`, with `must_pass`, if it failed.
    pub fn push_failure(&mut self, result: TestResult, must_pass: bool)
        requires
            old(self).wf(),
        ensures
            final(self).wf(),
            final(self)@ == with_failure(old(self)@, result, must_pass),
    {
        if !result.passed {
            let ghost entry = (result, must_pass);
            self.0.push((result, must_pass));
            assert(self@ == old(self)@.push(entry));
        }
    }

    /// The failed results, in order.
    pub fn failures(&self) -> (r: Vec<&TestResult>)
        ensures
            r@.len() == self@.len(),
            forall|i: int| 0 <= i < r@.len() ==> *r@[i] == self@[i].0,
    {
        let mut r: Vec<&TestResult> = Vec::new();
        let mut i: usize = 0;
        while i < self.0.len()
            invariant
                i <= self.0@.len(),
                r@.len() == i,
                forall|k: int| 0 <= k < i ==> *r@[k] == self.0@[k].0,
            decreases self.0.len() - i,
        {
            r.push(&self.0[i].0);
            i = i + 1;
        }
        r
    }

    /// The failed results of checks that must pass, in order.
    pub fn failed_must_pass(&self) -> (r: Vec<&TestResult>)
        ensures
            r@.len() == must_pass_failures(self@).len(),
            forall|i: int| 0 <= i < r@.len() ==> *r@[i] == must_pass_failures(self@)[i],
    {
        let mut r: Vec<&TestResult> = Vec::new();
        let mut i: usize = 0;
        while i < self.0.len()
            invariant
                i <= self.0@.len(),
                r@.len() == must_pass_failures(self.0@.take(i as int)).len(),
                forall|k: int|
                    0 <= k < r@.len() ==> *r@[k] == must_pass_failures(self.0@.take(i as int))[k],
            decreases self.0.len() - i,
        {
            assert(self.0@.take(i + 1).drop_last() =~= self.0@.take(i as int));
            let entry = &self.0[i];
            if !entry.0.passed && entry.1 {
                r.push(&entry.0);
            }
            i = i + 1;
        }
        assert(self.0@.take(i as int) =~= self.0@);
        r
    }
}

/// What identifies a failure: its scenario, its check, and whether the check must pass.
pub open spec fn failure_key(e: (TestResult, bool)) -> (Seq<char>, Seq<char>, bool) {
    (e.0.scenario@, e.0.test@, e.1)
}

/// The failure that a check named `test` of `scenario` adds where `actual` is not `expected`.
pub open spec fn position_failure(
    scenario: Seq<char>,
    test: Seq<char>,
    must_pass: bool,
    expected: PositionInCi,
    actual: PositionInCi,
) -> Seq<(Seq<char>, Seq<char>, bool)> {
    if actual == expected {
        Seq::empty()
    } else {
        seq![(scenario, test, must_pass)]
    }
}

/// Checks that each of the three positions of the benchmark's reference value (1 in Welch's
/// ratio confidence interval, 0 in Student's difference confidence interval, 1 in Student's
/// ratio confidence interval) is `expected`, and keeps the failures, with whether each check
/// must pass.
pub fn all_tests(
    welch_position_of_1_in_ratio_ci: PositionInCi,
    student_position_of_0_in_diff_ci: PositionInCi,
    student_position_of_1_in_ratio_ci: PositionInCi,
    test_failures: &mut TestFailures,
    scenario: String,
    expected: PositionInCi,
    must_pass1: bool,
    must_pass2: bool,
    must_pass3: bool,
)
    requires
        old(test_failures).wf(),
    ensures
        final(test_failures).wf(),
        final(test_failures)@.map_values(|e: (TestResult, bool)| failure_key(e)) == old(
            test_failures,
        )@.map_values(|e: (TestResult, bool)| failure_key(e)) + position_failure(
            scenario@,
            "welch_position_of_1_in_ratio_ci"@,
            must_pass1,
            expected,
            welch_position_of_1_in_ratio_ci,
        ) + position_failure(
            scenario@,
            "student_position_of_0_in_diff_ci"@,
            must_pass2,
            expected,
            student_position_of_0_in_diff_ci,
        ) + position_failure(
            scenario@,
            "student_position_of_1_in_ratio_ci"@,
            must_pass3,
            expected,
            student_position_of_1_in_ratio_ci,
        ),
{
    let r1 = TestResult::check_eq(
        scenario.as_str(),
        "welch_position_of_1_in_ratio_ci",
        expected,
        welch_position_of_1_in_ratio_ci,
    );
    assert(r1.passed == (expected == welch_position_of_1_in_ratio_ci));
    test_failures.push_failure(r1, must_pass1);
    let r2 = TestResult::check_eq(
        scenario.as_str(),
        "student_position_of_0_in_diff_ci",
        expected,
        student_position_of_0_in_diff_ci,
    );
    test_failures.push_failure(r2, must_pass2);
    let r3 = TestResult::check_eq(
        scenario.as_str(),
        "student_position_of_1_in_ratio_ci",
        expected,
        student_position_of_1_in_ratio_ci,
    );
    test_failures.push_failure(r3, must_pass3);
}

/// A scenario of the test benchmarks: the names of the two functions compared, the expected
/// position of the reference value in the confidence intervals, and whether each of the three
/// checks must pass.
pub struct ScenarioSpec {
    pub name1: &'static str,
    pub name2: &'static str,
    pub position_in_ci: PositionInCi,
    pub must_pass1: bool,
    pub must_pass2: bool,
    pub must_pass3: bool,
}

impl ScenarioSpec {
    /// A scenario with the given fields.
    pub fn new(
        name1: &'static str,
        name2: &'static str,
        position_in_ci: PositionInCi,
        must_pass1: bool,
        must_pass2: bool,
        must_pass3: bool,
    ) -> (r: ScenarioSpec)
        ensures
            r == (ScenarioSpec { name1, name2, position_in_ci, must_pass1, must_pass2, must_pass3 }),
    {
        ScenarioSpec { name1, name2, position_in_ci, must_pass1, must_pass2, must_pass3 }
    }
}

} // verus!
