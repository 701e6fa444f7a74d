//! Fuzzy matching of a query against an entry's text, by `sublime_fuzzy`.
use vstd::prelude::*;

verus! {

/// The best fuzzy match of `query` in `target` that
/// `sublime_fuzzy::best_match` finds: its score and the positions of the
/// matched characters of `target`, or `None` when `target` holds no match
/// of the whole query.
pub uninterp spec fn fuzzy_best_match(query: Seq<char>, target: Seq<char>) -> Option<
    (isize, Seq<usize>),
>;

/// Calls `sublime_fuzzy::best_match` (case-insensitive, whitespace in the
/// query ignored) and hands back the score and matched character
/// positions of the match it finds. Claimed of it: the result is the named
/// `fuzzy_best_match` of the two strings; an empty query or an empty target
/// matches nothing; matched positions are strictly increasing character
/// positions of `target`. How the score is computed is not stated.
#[verifier::external_body]
pub(crate) fn fuzzy_match(query: &str, target: &str) -> (r: Option<(isize, Vec<usize>)>)
    ensures
        match r {
            Some((score, matched)) => fuzzy_best_match(query@, target@) == Some(
                (score, matched@),
            ),
            None => fuzzy_best_match(query@, target@) is None,
        },
        query@.len() == 0 || target@.len() == 0 ==> r is None,
        r matches Some((score, matched)) ==> (forall|i: int, j: int|
            0 <= i < j < matched@.len() ==> matched@[i] < matched@[j]),
        r matches Some((score, matched)) ==> (forall|i: int|
            0 <= i < matched@.len() ==> matched@[i] < target@.len()),
{
    match sublime_fuzzy::best_match(query, target) {
        Some(m) => Some((m.score(), m.matched_indices().cloned().collect())),
        None => None,
    }
}

} // verus!
