use std::cmp::Ordering;
use vstd::prelude::*;
use vstd::std_specs::cmp::PartialEqSpecImpl;
use vstd::std_specs::cmp::PartialOrdSpecImpl;

verus! {

/// A search result: the fuzzy score of a file, the positions of the
/// characters of its search path that matched, and the file itself.
///
/// Two matches compare by their score alone.
#[derive(Clone)]
pub struct OrderedSearchMatch<T> {
    pub score: i64,
    pub indices: Vec<usize>,
    pub file: T,
}

/// The three-way comparison of two scores.
pub open spec fn score_order(a: i64, b: i64) -> Ordering {
    if a < b {
        Ordering::Less
    } else if a == b {
        Ordering::Equal
    } else {
        Ordering::Greater
    }
}

/// The order of matches is a total order on scores that agrees with their
/// equality: two matches are equal exactly when neither is less, and
/// swapping the two reverses the comparison.
pub proof fn law_order_agrees_with_equality(a: i64, b: i64)
    ensures
        (score_order(a, b) == Ordering::Equal) == (a == b),
        score_order(a, b) == Ordering::Less <==> score_order(b, a) == Ordering::Greater,
{
}

impl<T> OrderedSearchMatch<T> {
    /// Orders two matches by their scores.
    pub fn cmp(&self, other: &Self) -> (r: Ordering)
        ensures
            r == score_order(self.score, other.score),
    {
        if self.score < other.score {
            Ordering::Less
        } else if self.score == other.score {
            Ordering::Equal
        } else {
            Ordering::Greater
        }
    }
}

impl<T> PartialEq for OrderedSearchMatch<T> {
    fn eq(&self, other: &Self) -> (r: bool) {
        self.score == other.score
    }

    fn ne(&self, other: &Self) -> (r: bool) {
        self.score != other.score
    }
}

impl<T> PartialEqSpecImpl for OrderedSearchMatch<T> {
    open spec fn obeys_eq_spec() -> bool {
        true
    }

    open spec fn eq_spec(&self, other: &Self) -> bool {
        self.score == other.score
    }
}

impl<T> Eq for OrderedSearchMatch<T> {

}

impl<T> PartialOrd for OrderedSearchMatch<T> {
    fn partial_cmp(&self, other: &Self) -> (r: Option<Ordering>) {
        Some(self.cmp(other))
    }
}

impl<T> PartialOrdSpecImpl for OrderedSearchMatch<T> {
    open spec fn obeys_partial_cmp_spec() -> bool {
        true
    }

    open spec fn partial_cmp_spec(&self, other: &Self) -> Option<Ordering> {
        Some(score_order(self.score, other.score))
    }
}

} // verus!
