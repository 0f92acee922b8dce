use fuzzy_matcher::skim::SkimMatcherV2;
use fuzzy_matcher::FuzzyMatcher;
use vstd::prelude::*;

verus! {

/// The settings of the skim fuzzy matcher: default scoring, smart case, and
/// an element limit above which the matcher falls back to a simpler and
/// faster scoring (0 means no limit).
#[derive(Clone, Copy, Debug)]
pub struct SearchMatcher {
    pub element_limit: usize,
}

impl SearchMatcher {
    pub fn new(element_limit: usize) -> (r: Self)
        ensures
            r.element_limit == element_limit,
    {
        SearchMatcher { element_limit }
    }
}

/// What the skim matcher (version 2) with the given element limit answers for
/// `choice` and `pattern`: the score and the matched character positions, or
/// nothing when `pattern` does not occur in `choice` as a subsequence.
pub uninterp spec fn skim_fuzzy_indices(
    element_limit: usize,
    choice: Seq<char>,
    pattern: Seq<char>,
) -> Option<(i64, Seq<usize>)>;

/// A matcher answer with its positions taken by their view.
pub open spec fn found_view(found: Option<(i64, Vec<usize>)>) -> Option<(i64, Seq<usize>)> {
    match found {
        Some((score, indices)) => Some((score, indices@)),
        None => None,
    }
}

/// Calls `FuzzyMatcher::fuzzy_indices` of `fuzzy_matcher::skim::SkimMatcherV2`,
/// on a matcher built by `SkimMatcherV2::default().element_limit(..)`.
/// Claimed: the answer depends on the element limit, `choice` and `pattern`
/// alone (the matcher's caches are scratch space), and an empty pattern is
/// answered with score 0 and no positions, as `SkimMatcherV2::fuzzy` begins
/// by doing.
#[verifier::external_body]
pub(crate) fn skim_indices(element_limit: usize, choice: &str, pattern: &str) -> (r: Option<(i64, Vec<usize>)>)
    ensures
        found_view(r) == skim_fuzzy_indices(element_limit, choice@, pattern@),
        pattern@.len() == 0 ==> found_view(r) == Some((0i64, Seq::<usize>::empty())),
{
    SkimMatcherV2::default().element_limit(element_limit).fuzzy_indices(choice, pattern)
}

/// The score and positions that the search uses for a matcher answer: a file
/// that does not match at all gets score 0 and no positions.
pub open spec fn score_or_zero_spec(found: Option<(i64, Seq<usize>)>) -> (i64, Seq<usize>) {
    match found {
        Some(x) => x,
        None => (0i64, Seq::<usize>::empty()),
    }
}

/// The score and positions that the search gives `choice` for `pattern`.
pub open spec fn search_score(element_limit: usize, choice: Seq<char>, pattern: Seq<char>) -> (i64, Seq<usize>) {
    score_or_zero_spec(skim_fuzzy_indices(element_limit, choice, pattern))
}

/// Turns a matcher answer into the score and positions that the search uses.
pub fn score_or_zero(found: Option<(i64, Vec<usize>)>) -> (r: (i64, Vec<usize>))
    ensures
        (r.0, r.1@) == score_or_zero_spec(found_view(found)),
{
    match found {
        Some(x) => x,
        None => (0, Vec::new()),
    }
}

impl SearchMatcher {
    /// Scores `choice` against `pattern`.
    pub fn score(&self, choice: &str, pattern: &str) -> (r: (i64, Vec<usize>))
        ensures
            (r.0, r.1@) == search_score(self.element_limit, choice@, pattern@),
    {
        score_or_zero(skim_indices(self.element_limit, choice, pattern))
    }
}

} // verus!
