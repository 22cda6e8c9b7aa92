//! What holds of the results of a query, whatever the lines and however
//! they were fed and processed.

use crate::frecency::Frecency;
use crate::incremental::Session;
use crate::matcher::{candidates, fuzzy_score, lemma_candidates, query_points, scored, Line};
use crate::score::{Match, FREQUENCY_WEIGHT};
use crate::topk::{is_top_k, lemma_top_k_unique};
use vstd::prelude::*;

verus! {

/// The result of a session does not depend on the batches in which its
/// lines were fed nor on the chunks in which they were processed: what a
/// session reports once all its lines are scored is what matching all its
/// lines at once gives.
pub proof fn law_incremental_equals_batch<L: Line>(
    session: Session<L>,
    incremental: Seq<Match>,
    batch: Seq<Match>,
)
    requires
        session.lines_spec().len() <= usize::MAX,
        is_top_k(incremental, session.all_candidates(), session.limit_spec()),
        is_top_k(
            batch,
            candidates(
                session.frecency(),
                session.query_spec(),
                session.context_spec(),
                session.lines_spec(),
            ),
            session.limit_spec(),
        ),
    ensures
        incremental == batch,
{
    lemma_candidates(
        session.frecency(),
        session.query_spec(),
        session.context_spec(),
        session.lines_spec(),
    );
    lemma_top_k_unique(incremental, batch, session.all_candidates(), session.limit_spec());
}

/// The result is determined by the query, the context, the lines, the
/// number of results asked for and what is known of past selections: two
/// results for the same of each are equal.
pub proof fn law_result_is_determined<L: Line>(
    frecency: Frecency,
    query: Seq<char>,
    context: Seq<char>,
    lines: Seq<L>,
    k: nat,
    first: Seq<Match>,
    second: Seq<Match>,
)
    requires
        lines.len() <= usize::MAX,
        is_top_k(first, candidates(frecency, query, context, lines), k),
        is_top_k(second, candidates(frecency, query, context, lines), k),
    ensures
        first == second,
{
    lemma_candidates(frecency, query, context, lines);
    lemma_top_k_unique(first, second, candidates(frecency, query, context, lines), k);
}

/// Every match of a result is the match of the line at its index, and a
/// line whose match is missing from the result is outranked by all of the
/// result, which then has `k` matches.
pub proof fn law_top_k_of_lines<L: Line>(
    frecency: Frecency,
    query: Seq<char>,
    context: Seq<char>,
    lines: Seq<L>,
    k: nat,
    result: Seq<Match>,
)
    requires
        lines.len() <= usize::MAX,
        is_top_k(result, candidates(frecency, query, context, lines), k),
    ensures
        result.len() <= k,
        result.len() <= lines.len(),
        forall|j: int|
            0 <= j < result.len() ==> (#[trigger] result[j]).index < lines.len() && scored(
                frecency,
                query,
                context,
                result[j].index,
                lines[result[j].index as int].line_spec(),
                lines[result[j].index as int].path_spec(),
            ) == Some(result[j]),
        forall|i: int|
            0 <= i < lines.len() ==> (#[trigger] scored(
                frecency,
                query,
                context,
                i as usize,
                lines[i].line_spec(),
                lines[i].path_spec(),
            ) matches Some(m) ==> result.contains(m) || (result.len() == k && forall|j: int|
                0 <= j < result.len() ==> (#[trigger] result[j]).outranks(m))),
{
    let all = candidates(frecency, query, context, lines);
    lemma_candidates(frecency, query, context, lines);
    assert forall|j: int| 0 <= j < result.len() implies (#[trigger] result[j]).index < lines.len()
        && scored(
        frecency,
        query,
        context,
        result[j].index,
        lines[result[j].index as int].line_spec(),
        lines[result[j].index as int].path_spec(),
    ) == Some(result[j]) by {
        assert(all.contains(result[j]));
        let p = choose|p: int| 0 <= p < all.len() && all[p] == result[j];
        assert(all[p].index < lines.len());
    }
    assert forall|i: int| 0 <= i < lines.len() implies (#[trigger] scored(
        frecency,
        query,
        context,
        i as usize,
        lines[i].line_spec(),
        lines[i].path_spec(),
    ) matches Some(m) ==> result.contains(m) || (result.len() == k && forall|j: int|
        0 <= j < result.len() ==> (#[trigger] result[j]).outranks(m))) by {
        match scored(frecency, query, context, i as usize, lines[i].line_spec(), lines[i].path_spec()) {
            Some(m) => {
                assert(all.contains(m));
                let p = choose|p: int| 0 <= p < all.len() && all[p] == m;
                if !result.contains(all[p]) {
                    if result.len() < k {
                        lemma_selection_is_everything(result, all, k, p);
                    }
                }
            },
            None => {},
        }
    }
}

/// A selection with fewer than `k` matches holds every candidate.
proof fn lemma_selection_is_everything(result: Seq<Match>, all: Seq<Match>, k: nat, p: int)
    requires
        is_top_k(result, all, k),
        result.len() < k,
        0 <= p < all.len(),
    ensures
        result.contains(all[p]),
{
    if !result.contains(all[p]) {
        let rest = all.remove(p);
        assert forall|i: int| 0 <= i < result.len() implies rest.contains(#[trigger] result[i]) by {
            assert(all.contains(result[i]));
            let q = choose|q: int| 0 <= q < all.len() && all[q] == result[i];
            assert(q != p);
            if q < p {
                assert(rest[q] == all[q]);
            } else {
                assert(rest[q - 1] == all[q]);
            }
        }
        lemma_room(result, rest);
    }
}

/// A ranked list that draws all its members from a pool is no longer than
/// the pool.
proof fn lemma_room(result: Seq<Match>, pool: Seq<Match>)
    requires
        crate::topk::ranked(result),
        forall|i: int| 0 <= i < result.len() ==> pool.contains(#[trigger] result[i]),
    ensures
        result.len() <= pool.len(),
    decreases result.len(),
{
    if result.len() > 0 {
        let last = result.last();
        assert(pool.contains(result[result.len() - 1]));
        let q = choose|q: int| 0 <= q < pool.len() && pool[q] == last;
        let shorter = result.drop_last();
        let rest = pool.remove(q);
        assert forall|i: int| 0 <= i < shorter.len() implies rest.contains(
            #[trigger] shorter[i],
        ) by {
            assert(shorter[i] == result[i]);
            assert(pool.contains(result[i]));
            let r = choose|r: int| 0 <= r < pool.len() && pool[r] == result[i];
            assert(result[i].outranks(result[result.len() - 1]));
            assert(r != q);
            if r < q {
                assert(rest[r] == pool[r]);
            } else {
                assert(rest[r - 1] == pool[r]);
            }
        }
        assert forall|i: int, j: int| 0 <= i < j < shorter.len() implies (
        #[trigger] shorter[i]).outranks(#[trigger] shorter[j]) by {
            assert(shorter[i] == result[i] && shorter[j] == result[j]);
        }
        lemma_room(shorter, rest);
    }
}

/// A line that a query, which is not empty, does not match is in no
/// result, whatever the frecency of its path.
pub proof fn law_no_match_excluded<L: Line>(
    frecency: Frecency,
    query: Seq<char>,
    context: Seq<char>,
    lines: Seq<L>,
    k: nat,
    result: Seq<Match>,
    i: int,
)
    requires
        lines.len() <= usize::MAX,
        is_top_k(result, candidates(frecency, query, context, lines), k),
        0 <= i < lines.len(),
        query.len() > 0,
        fuzzy_score(query, lines[i].line_spec()) is None,
    ensures
        forall|j: int| 0 <= j < result.len() ==> (#[trigger] result[j]).index != i,
{
    law_top_k_of_lines(frecency, query, context, lines, k, result);
    assert(query_points(query, lines[i].line_spec()) is None);
}

/// With an empty query no line is excluded: the result has `k` matches, or
/// one for every line if there are fewer lines. Each match has a query
/// score of zero, so its score is its frequency score, which alone decides
/// the order.
pub proof fn law_empty_query<L: Line>(
    frecency: Frecency,
    context: Seq<char>,
    lines: Seq<L>,
    k: nat,
    result: Seq<Match>,
)
    requires
        lines.len() <= usize::MAX,
        is_top_k(result, candidates(frecency, Seq::<char>::empty(), context, lines), k),
    ensures
        result.len() == if k <= lines.len() { k } else { lines.len() },
        forall|j: int|
            0 <= j < result.len() ==> {
                let m = #[trigger] result[j];
                &&& m.query_score == 0
                &&& m.context_score == 0
                &&& m.index < lines.len()
                &&& m.frequency_score == FREQUENCY_WEIGHT * frecency.score_of(
                    lines[m.index as int].path_spec(),
                )
                &&& m.score == m.frequency_score + m.context_score
            },
{
    let query = Seq::<char>::empty();
    lemma_all_lines_are_candidates(frecency, context, lines);
    law_top_k_of_lines(frecency, query, context, lines, k, result);
    assert forall|j: int| 0 <= j < result.len() implies {
        let m = #[trigger] result[j];
        &&& m.query_score == 0
        &&& m.context_score == 0
        &&& m.index < lines.len()
        &&& m.frequency_score == FREQUENCY_WEIGHT * frecency.score_of(
            lines[m.index as int].path_spec(),
        )
        &&& m.score == m.frequency_score + m.context_score
    } by {
        let m = result[j];
        let path = lines[m.index as int].path_spec();
        assert(query_points(query, lines[m.index as int].line_spec()) == Some(0u32));
        lemma_score_bound(frecency, path);
    }
}

/// A frecency score is at most one whole point.
pub proof fn lemma_score_bound(frecency: Frecency, path: Seq<char>)
    ensures
        frecency.score_of(path) <= crate::score::SCORE_UNIT,
{
    match frecency.age_of(path) {
        Some(age) => {
            if age > 0 {
                crate::score::lemma_decay_decreases(0, age);
            }
        },
        None => {},
    }
}

/// With an empty query every line has a match.
proof fn lemma_all_lines_are_candidates<L: Line>(
    frecency: Frecency,
    context: Seq<char>,
    lines: Seq<L>,
)
    ensures
        candidates(frecency, Seq::<char>::empty(), context, lines).len() == lines.len(),
    decreases lines.len(),
{
    if lines.len() > 0 {
        lemma_all_lines_are_candidates(frecency, context, lines.drop_last());
        assert(query_points(Seq::<char>::empty(), lines.last().line_spec()) == Some(0u32));
    }
}

} // verus!
