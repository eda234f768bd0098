//! Selection of the variance of a synthetic benchmark function.

use crate::text::str_eq;
use vstd::prelude::*;

verus! {

/// Variance selector: none, low, or high.
#[derive(Debug, Clone, Copy, PartialEq, Eq, Structural)]
pub enum VarSelector {
    No,
    Lo,
    Hi,
}

/// The name of a variance selector.
pub open spec fn var_selector_name(v: VarSelector) -> Seq<char> {
    match v {
        VarSelector::No => "novar"@,
        VarSelector::Lo => "lovar"@,
        VarSelector::Hi => "hivar"@,
    }
}

/// The selector whose name is `s`, if any.
pub open spec fn parsed_var_selector(s: Seq<char>) -> Option<VarSelector> {
    if s == var_selector_name(VarSelector::No) {
        Some(VarSelector::No)
    } else if s == var_selector_name(VarSelector::Lo) {
        Some(VarSelector::Lo)
    } else if s == var_selector_name(VarSelector::Hi) {
        Some(VarSelector::Hi)
    } else {
        None
    }
}

impl VarSelector {
    /// The selector named `s` (`novar`, `lovar` or `hivar`), if any.
    pub fn parse(s: &str) -> (r: Option<VarSelector>)
        ensures
            r == parsed_var_selector(s@),
    {
        if str_eq(s, "novar") {
            Some(VarSelector::No)
        } else if str_eq(s, "lovar") {
            Some(VarSelector::Lo)
        } else if str_eq(s, "hivar") {
            Some(VarSelector::Hi)
        } else {
            None
        }
    }

    /// The name of the selector, as its `Display` writes it.
    pub fn as_str(&self) -> (r: &'static str)
        ensures
            r@ == var_selector_name(*self),
    {
        match self {
            VarSelector::No => "novar",
            VarSelector::Lo => "lovar",
            VarSelector::Hi => "hivar",
        }
    }
}

/// Each selector has its own name, so that parsing a selector's name gives back the selector.
pub proof fn lemma_parse_var_selector_name(v: VarSelector)
    ensures
        parsed_var_selector(var_selector_name(v)) == Some(v),
{
    reveal_strlit("novar");
    reveal_strlit("lovar");
    reveal_strlit("hivar");
    assert(var_selector_name(VarSelector::No)[0] != var_selector_name(VarSelector::Lo)[0]);
    assert(var_selector_name(VarSelector::No)[0] != var_selector_name(VarSelector::Hi)[0]);
    assert(var_selector_name(VarSelector::Lo)[0] != var_selector_name(VarSelector::Hi)[0]);
}

} // verus!
