//! Sorting matches into the ranking order.

use crate::score::Match;
use itertools::Itertools;
use std::cmp::Ordering;
use vstd::prelude::*;

verus! {

/// How `a` stands to `b` in a result list: before it, if `a` outranks `b`;
/// behind it, if `b` outranks `a`; level only if both have the same score
/// and the same index.
pub fn rank_order(a: &Match, b: &Match) -> (order: Ordering)
    ensures
        order == Ordering::Less <==> a.outranks(*b),
        order == Ordering::Greater <==> b.outranks(*a),
{
    if a.score > b.score {
        Ordering::Less
    } else if a.score < b.score {
        Ordering::Greater
    } else if a.index < b.index {
        Ordering::Less
    } else if a.index > b.index {
        Ordering::Greater
    } else {
        Ordering::Equal
    }
}

/// No match is outranked by a later one.
pub open spec fn in_rank_order(matches: Seq<Match>) -> bool {
    forall|i: int, j: int|
        0 <= i < j < matches.len() ==> !(#[trigger] matches[j]).outranks(#[trigger] matches[i])
}

/// `Itertools::sorted_by` of itertools with `rank_order` as the comparison:
/// the same matches, sorted so that none is outranked by a later one.
#[verifier::external_body]
pub(crate) fn sort_by_rank(matches: Vec<Match>) -> (sorted: Vec<Match>)
    ensures
        sorted@.to_multiset() == matches@.to_multiset(),
        in_rank_order(sorted@),
{
    matches.into_iter().sorted_by(|a, b| rank_order(a, b)).collect()
}

} // verus!
