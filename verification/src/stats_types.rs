//! Enums for hypotheses and positions relative to confidence intervals.

use vstd::prelude::*;

verus! {

/// Alternative statistical hypothesis to the null hypothesis of equality.
#[derive(Debug, Clone, Copy, PartialEq, Eq, Structural)]
pub enum AltHyp {
    /// Less than
    Lt,
    /// Greater than
    Gt,
    /// Not equal
    Ne,
}

/// Statistical test hypothesis.
#[derive(Debug, Clone, Copy, PartialEq, Eq, Structural)]
pub enum Hyp {
    /// Null hypothesis of equality.
    Null,
    /// Alternative hypothesis.
    Alt(AltHyp),
}

impl Hyp {
    /// The alternative hypothesis associated with `self`; the null hypothesis is paired with `Ne`.
    pub fn alt_hyp(&self) -> (r: AltHyp)
        ensures
            r == (match *self {
                Hyp::Null => AltHyp::Ne,
                Hyp::Alt(h) => h,
            }),
    {
        match self {
            Hyp::Null => AltHyp::Ne,
            Hyp::Alt(h) => *h,
        }
    }
}

/// Hypothesis accepted by a statistical test.
#[derive(Debug, Clone, Copy, PartialEq, Eq, Structural)]
pub enum AcceptedHyp {
    /// The null hypothesis of equality.
    Null,
    /// The alternative hypothesis.
    Alt,
}

/// Position of a value with respect to a confidence interval.
#[derive(Debug, Clone, Copy, PartialEq, Eq, Structural)]
pub enum PositionWrtCi {
    /// The value is lower than the low end of the confidence interval.
    Below,
    /// The value is inside the confidence interval.
    In,
    /// The value is higher than the high end of the confidence interval.
    Above,
}

/// Position of a value with respect to a confidence interval.
#[derive(Debug, Clone, Copy, Eq)]
pub enum PositionInCi {
    Below,
    In,
    Above,
}

/// The number of a position, in the order `Below`, `In`, `Above`.
pub open spec fn position_rank(p: PositionInCi) -> int {
    match p {
        PositionInCi::Below => 0,
        PositionInCi::In => 1,
        PositionInCi::Above => 2,
    }
}

impl PartialEq for PositionInCi {
    fn eq(&self, other: &PositionInCi) -> (r: bool) {
        match (self, other) {
            (PositionInCi::Below, PositionInCi::Below) => true,
            (PositionInCi::In, PositionInCi::In) => true,
            (PositionInCi::Above, PositionInCi::Above) => true,
            _ => false,
        }
    }
}

impl vstd::std_specs::cmp::PartialEqSpecImpl for PositionInCi {
    open spec fn obeys_eq_spec() -> bool {
        true
    }

    open spec fn eq_spec(&self, other: &PositionInCi) -> bool {
        position_rank(*self) == position_rank(*other)
    }
}

/// The hypothesis that an optional alternative hypothesis stands for: `None` for the null
/// hypothesis.
pub open spec fn hyp_of(hyp: Option<AltHyp>) -> Hyp {
    match hyp {
        Some(h) => Hyp::Alt(h),
        None => Hyp::Null,
    }
}

/// The alternative hypothesis to test for an expected hypothesis given as an option: the
/// expected one itself, or `Ne` where the null hypothesis is expected.
pub fn alt_hyp(hyp: Option<AltHyp>) -> (r: AltHyp)
    ensures
        r == (match hyp {
            Some(h) => h,
            None => AltHyp::Ne,
        }),
{
    match hyp {
        Some(alt) => alt,
        None => AltHyp::Ne,
    }
}

/// The hypothesis that a test should accept where `hyp` is expected.
pub fn accepted_hyp(hyp: Option<AltHyp>) -> (r: AcceptedHyp)
    ensures
        r == (if hyp is Some {
            AcceptedHyp::Alt
        } else {
            AcceptedHyp::Null
        }),
{
    match hyp {
        Some(_) => AcceptedHyp::Alt,
        None => AcceptedHyp::Null,
    }
}

/// An expected hypothesis given as an option tests the same alternative as the hypothesis it
/// stands for, and is accepted as that hypothesis's kind.
pub proof fn lemma_optional_hyp_agrees(hyp: Option<AltHyp>)
    ensures
        (match hyp {
            Some(h) => h,
            None => AltHyp::Ne,
        }) == (match hyp_of(hyp) {
            Hyp::Null => AltHyp::Ne,
            Hyp::Alt(h) => h,
        }),
        (hyp_of(hyp) is Null) <==> hyp is None,
{
}

} // verus!
