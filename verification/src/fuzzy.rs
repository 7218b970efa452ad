//! Fuzzy matching through the skim algorithm of the `fuzzy-matcher` crate.

use vstd::prelude::*;

use fuzzy_matcher::FuzzyMatcher;

verus! {

/// The score `SkimMatcherV2::default().fuzzy_match(choice, pattern)` returns:
/// `None` when the pattern does not match.
pub uninterp spec fn skim_score(choice: Seq<char>, pattern: Seq<char>) -> Option<i64>;

/// `SkimMatcherV2::fuzzy_match` with the matcher's default settings (smart
/// case). Its result is named `skim_score` of the two texts; the crate's
/// source returns `Some(0)` for an empty pattern.
#[verifier::external_body]
pub(crate) fn fuzzy_match(choice: &str, pattern: &str) -> (r: Option<i64>)
    ensures
        r == skim_score(choice@, pattern@),
        pattern@.len() == 0 ==> r == Some(0i64),
{
    fuzzy_matcher::skim::SkimMatcherV2::default().fuzzy_match(choice, pattern)
}

} // verus!
