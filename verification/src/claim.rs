//! Claims checked by the test benchmarks: their types, which of them are critical, and their
//! identifiers.

use crate::text::str_eq;
use vstd::prelude::*;

verus! {

/// The claim types, each with whether it is critical.
pub open spec fn claim_types_with_criticality() -> Seq<(Seq<char>, bool)> {
    seq![
        ("welch_ratio_test"@, true),
        ("student_diff_test"@, false),
        ("student_ratio_test"@, true),
        ("ratio_medians_f1_f2_near_target"@, false),
        ("ratio_medians_f1_f2_near_ratio_from_lns"@, false),
        ("target_ratio_medians_f1_f2_in_welch_ratio_ci"@, true),
        ("target_ratio_medians_f1_f2_in_student_ratio_ci"@, true),
        ("wilcoxon_rank_sum_test"@, false),
        ("binomial_test"@, false),
        ("reversed_ratio_medians"@, true),
    ]
}

/// `claim_type` is one of the claim types.
pub open spec fn spec_is_valid_claim_type(claim_type: Seq<char>) -> bool {
    exists|i: int|
        0 <= i < claim_types_with_criticality().len() && #[trigger] claim_types_with_criticality()[i].0
            == claim_type
}

/// `claim_type` is one of the claim types marked critical.
pub open spec fn spec_is_critical_claim_type(claim_type: Seq<char>) -> bool {
    exists|i: int|
        0 <= i < claim_types_with_criticality().len() && #[trigger] claim_types_with_criticality()[i]
            == (claim_type, true)
}

fn claim_type_table() -> (r: Vec<(&'static str, bool)>)
    ensures
        r@.len() == claim_types_with_criticality().len(),
        forall|i: int|
            0 <= i < r@.len() ==> (#[trigger] r@[i]).0@ == claim_types_with_criticality()[i].0
                && r@[i].1 == claim_types_with_criticality()[i].1,
{
    let r = vec![
        ("welch_ratio_test", true),
        ("student_diff_test", false),
        ("student_ratio_test", true),
        ("ratio_medians_f1_f2_near_target", false),
        ("ratio_medians_f1_f2_near_ratio_from_lns", false),
        ("target_ratio_medians_f1_f2_in_welch_ratio_ci", true),
        ("target_ratio_medians_f1_f2_in_student_ratio_ci", true),
        ("wilcoxon_rank_sum_test", false),
        ("binomial_test", false),
        ("reversed_ratio_medians", true),
    ];
    r
}

/// Whether `claim_type` is one of the claim types.
pub fn is_valid_claim_type(claim_type: &str) -> (r: bool)
    ensures
        r == spec_is_valid_claim_type(claim_type@),
{
    let table = claim_type_table();
    let mut i: usize = 0;
    while i < table.len()
        invariant
            i <= table.len(),
            table@.len() == claim_types_with_criticality().len(),
            forall|k: int|
                0 <= k < table@.len() ==> (#[trigger] table@[k]).0@ == claim_types_with_criticality()[k].0
                    && table@[k].1 == claim_types_with_criticality()[k].1,
            forall|k: int| 0 <= k < i ==> claim_types_with_criticality()[k].0 != claim_type@,
        decreases table.len() - i,
    {
        if str_eq(table[i].0, claim_type) {
            assert(claim_types_with_criticality()[i as int].0 == claim_type@);
            return true;
        }
        i = i + 1;
    }
    false
}

/// `claim_type` itself, which must be one of the claim types.
pub fn validated_claim_type(claim_type: &'static str) -> (r: &'static str)
    requires
        spec_is_valid_claim_type(claim_type@),
    ensures
        r == claim_type,
{
    claim_type
}

/// Whether `claim_type`, which must be one of the claim types, is critical.
pub fn is_critical_claim_type(claim_type: &str) -> (r: bool)
    requires
        spec_is_valid_claim_type(claim_type@),
    ensures
        r == spec_is_critical_claim_type(claim_type@),
{
    let table = claim_type_table();
    let mut i: usize = 0;
    while i < table.len()
        invariant
            i <= table.len(),
            table@.len() == claim_types_with_criticality().len(),
            forall|k: int|
                0 <= k < table@.len() ==> (#[trigger] table@[k]).0@ == claim_types_with_criticality()[k].0
                    && table@[k].1 == claim_types_with_criticality()[k].1,
            forall|k: int|
                0 <= k < i ==> claim_types_with_criticality()[k] != (claim_type@, true),
        decreases table.len() - i,
    {
        if table[i].1 && str_eq(table[i].0, claim_type) {
            assert(claim_types_with_criticality()[i as int] == (claim_type@, true));
            return true;
        }
        i = i + 1;
    }
    false
}

/// The claim types are exactly these ten.
pub proof fn lemma_valid_claim_types(c: Seq<char>)
    ensures
        spec_is_valid_claim_type(c) <==> (c == "welch_ratio_test"@ || c == "student_diff_test"@
            || c == "student_ratio_test"@ || c == "ratio_medians_f1_f2_near_target"@ || c
            == "ratio_medians_f1_f2_near_ratio_from_lns"@ || c
            == "target_ratio_medians_f1_f2_in_welch_ratio_ci"@ || c
            == "target_ratio_medians_f1_f2_in_student_ratio_ci"@ || c == "wilcoxon_rank_sum_test"@
            || c == "binomial_test"@ || c == "reversed_ratio_medians"@),
{
    let t = claim_types_with_criticality();
    if spec_is_valid_claim_type(c) {
        let i = choose|i: int| 0 <= i < t.len() && #[trigger] t[i].0 == c;
        assert(0 <= i < 10);
    }
    assert(t[0].0 == "welch_ratio_test"@);
    assert(t[1].0 == "student_diff_test"@);
    assert(t[2].0 == "student_ratio_test"@);
    assert(t[3].0 == "ratio_medians_f1_f2_near_target"@);
    assert(t[4].0 == "ratio_medians_f1_f2_near_ratio_from_lns"@);
    assert(t[5].0 == "target_ratio_medians_f1_f2_in_welch_ratio_ci"@);
    assert(t[6].0 == "target_ratio_medians_f1_f2_in_student_ratio_ci"@);
    assert(t[7].0 == "wilcoxon_rank_sum_test"@);
    assert(t[8].0 == "binomial_test"@);
    assert(t[9].0 == "reversed_ratio_medians"@);
}

/// The critical claim types are exactly these five: the two ratio tests, the two checks that
/// the target ratio lies in their confidence intervals, and the reversed ratio of medians.
pub proof fn lemma_critical_claim_types(c: Seq<char>)
    ensures
        spec_is_critical_claim_type(c) <==> (c == "welch_ratio_test"@ || c == "student_ratio_test"@
            || c == "target_ratio_medians_f1_f2_in_welch_ratio_ci"@ || c
            == "target_ratio_medians_f1_f2_in_student_ratio_ci"@ || c == "reversed_ratio_medians"@),
{
    let t = claim_types_with_criticality();
    if spec_is_critical_claim_type(c) {
        let i = choose|i: int| 0 <= i < t.len() && #[trigger] t[i] == (c, true);
        assert(0 <= i < 10);
        assert(t[i].1);
        assert(i == 0 || i == 2 || i == 5 || i == 6 || i == 9);
    }
    assert(t[0] == ("welch_ratio_test"@, true));
    assert(t[2] == ("student_ratio_test"@, true));
    assert(t[5] == ("target_ratio_medians_f1_f2_in_welch_ratio_ci"@, true));
    assert(t[6] == ("target_ratio_medians_f1_f2_in_student_ratio_ci"@, true));
    assert(t[9] == ("reversed_ratio_medians"@, true));
}

/// Every critical claim type is a claim type.
pub proof fn lemma_critical_claim_types_are_valid(claim_type: Seq<char>)
    ensures
        spec_is_critical_claim_type(claim_type) ==> spec_is_valid_claim_type(claim_type),
{
    if spec_is_critical_claim_type(claim_type) {
        let i = choose|i: int|
            0 <= i < claim_types_with_criticality().len() && #[trigger] claim_types_with_criticality()[i]
                == (claim_type, true);
        assert(claim_types_with_criticality()[i].0 == claim_type);
    }
}

/// Identifier of a claim: its type, qualified by the reference ratio that it was checked against
/// (written as a string), where there is one.
#[derive(Debug, Clone, PartialEq, Eq, PartialOrd, Ord)]
pub struct ClaimId {
    pub claim_type: &'static str,
    pub qualifier: Option<String>,
}

impl ClaimId {
    /// The identifier of a claim of type `claim_type`, qualified by `ref_ratio`, the reference
    /// ratio written as a string.
    pub fn new(claim_type: &'static str, ref_ratio: Option<String>) -> (r: ClaimId)
        ensures
            r.claim_type == claim_type,
            r.qualifier == ref_ratio,
    {
        ClaimId { claim_type, qualifier: ref_ratio }
    }

    /// Whether the claim's reference ratio is `ref_ratio` (written as a string); `None` where
    /// the claim has no reference ratio.
    pub fn has_ref_ratio(&self, ref_ratio: &str) -> (r: Option<bool>)
        ensures
            r == (match self.qualifier {
                Some(q) => Some(q@ == ref_ratio@),
                None => None,
            }),
    {
        match &self.qualifier {
            Some(v) => Some(str_eq(v.as_str(), ref_ratio)),
            None => None,
        }
    }
}

} // verus!
