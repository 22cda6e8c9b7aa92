//! The top-k selector: of all matches offered to it, it keeps the `k` that
//! rank highest, in memory bounded by `k`.

use crate::heap::{
    descending, heap_clone, heap_into_sorted_vec, heap_into_vec, heap_items, heap_len, heap_peek,
    heap_pop, heap_push, heap_with_capacity, item_le, item_lt, Item, MinHeap, MAX_RESERVE,
};
use crate::rank::{in_rank_order, sort_by_rank};
use crate::score::Match;
use vstd::prelude::*;

verus! {

/// The heap item that stands for a match. The index is counted down from
/// `usize::MAX`, so that the lesser of two items is the one ranked lower.
pub open spec fn item_of(m: Match) -> Item {
    (m.score, (usize::MAX - m.index) as usize, m.context_score, m.query_score, m.frequency_score)
}

/// The match that a heap item stands for.
pub open spec fn match_of(item: Item) -> Match {
    Match {
        index: (usize::MAX - item.1) as usize,
        score: item.0,
        context_score: item.2,
        query_score: item.3,
        frequency_score: item.4,
    }
}

/// No two matches of `matches` have the same index.
pub open spec fn distinct_indices(matches: Seq<Match>) -> bool {
    forall|i: int, j: int|
        0 <= i < j < matches.len() ==> (#[trigger] matches[i]).index != (
        #[trigger] matches[j]).index
}

/// No match of `matches` has the index `index`.
pub open spec fn index_is_new(matches: Seq<Match>, index: usize) -> bool {
    forall|i: int| 0 <= i < matches.len() ==> (#[trigger] matches[i]).index != index
}

/// Each match comes before all later ones in the ranking order.
pub open spec fn ranked(matches: Seq<Match>) -> bool {
    forall|i: int, j: int|
        0 <= i < j < matches.len() ==> (#[trigger] matches[i]).outranks(#[trigger] matches[j])
}

/// `result` holds the `k` highest ranked of `candidates`, all of them if
/// there are fewer, the highest first.
pub open spec fn is_top_k(result: Seq<Match>, candidates: Seq<Match>, k: nat) -> bool {
    &&& result.len() == if k <= candidates.len() { k } else { candidates.len() }
    &&& ranked(result)
    &&& forall|i: int| 0 <= i < result.len() ==> candidates.contains(#[trigger] result[i])
    &&& forall|j: int|
        0 <= j < candidates.len() ==> result.contains(#[trigger] candidates[j]) || forall|i: int|
            0 <= i < result.len() ==> (#[trigger] result[i]).outranks(candidates[j])
}

/// Turning a match into an item and back changes nothing, and the order of
/// items is the ranking order turned round.
pub proof fn lemma_item_order(a: Match, b: Match)
    ensures
        match_of(item_of(a)) == a,
        a.index != b.index ==> item_of(a) != item_of(b),
        a.index != b.index ==> (item_lt(item_of(a), item_of(b)) <==> b.outranks(a)),
        a.index != b.index ==> (item_lt(item_of(a), item_of(b)) <==> !item_lt(
            item_of(b),
            item_of(a),
        )),
{
}

/// Keeps the `limit` highest ranked matches of those offered so far.
pub struct TopK {
    heap: MinHeap,
    limit: usize,
    seen: Ghost<Seq<Match>>,
}

impl TopK {
    /// Every match that was offered, in the order of the offers.
    pub closed spec fn offered(&self) -> Seq<Match> {
        self.seen@
    }

    /// The number of matches that the selector keeps at most.
    pub closed spec fn limit_spec(&self) -> nat {
        self.limit as nat
    }

    /// The number of matches kept.
    pub closed spec fn len_spec(&self) -> nat {
        heap_items(self.heap).len()
    }

    /// Whether the selector keeps `m`.
    pub closed spec fn keeps(&self, m: Match) -> bool {
        heap_items(self.heap).count(item_of(m)) > 0
    }

    /// The invariant of a selector: it keeps `limit` of the offered matches,
    /// or all of them if fewer were offered, and every match that it keeps
    /// outranks every match that it has dropped.
    pub closed spec fn wf(&self) -> bool {
        let items = heap_items(self.heap);
        let seen = self.seen@;
        &&& distinct_indices(seen)
        &&& items.len() <= self.limit
        &&& items.len() <= seen.len()
        &&& items.len() < self.limit ==> items.len() == seen.len() && forall|j: int|
            0 <= j < seen.len() ==> items.count(item_of(#[trigger] seen[j])) > 0
        &&& forall|x: Item| #[trigger] items.count(x) <= 1
        &&& forall|x: Item| #[trigger]
            items.count(x) > 0 ==> seen.contains(match_of(x)) && item_of(match_of(x)) == x
        &&& forall|j: int, x: Item|
            0 <= j < seen.len() && items.count(item_of(#[trigger] seen[j])) == 0
                && #[trigger] items.count(x) > 0 ==> item_lt(item_of(seen[j]), x)
    }

    /// What the invariant says to the outside: the selector keeps `limit`
    /// matches, or as many as were offered if those are fewer; each match
    /// that it keeps was offered; and each match that was offered and is
    /// not kept is outranked by every match kept.
    pub proof fn lemma_invariant(&self)
        requires
            self.wf(),
        ensures
            distinct_indices(self.offered()),
            self.len_spec() == if self.limit_spec() <= self.offered().len() {
                self.limit_spec()
            } else {
                self.offered().len()
            },
            forall|m: Match| #[trigger] self.keeps(m) ==> self.offered().contains(m),
            forall|j: int, m: Match|
                0 <= j < self.offered().len() && !self.keeps(#[trigger] self.offered()[j])
                    && #[trigger] self.keeps(m) ==> m.outranks(self.offered()[j]),
    {
        let seen = self.seen@;
        assert forall|m: Match| #[trigger] self.keeps(m) implies seen.contains(m) by {
            lemma_item_order(m, m);
        }
        assert forall|j: int, m: Match|
            0 <= j < seen.len() && !self.keeps(#[trigger] seen[j]) && #[trigger] self.keeps(
                m,
            ) implies m.outranks(seen[j]) by {
            lemma_item_order(m, m);
            assert(item_lt(item_of(seen[j]), item_of(m)));
            let q = choose|q: int| 0 <= q < seen.len() && seen[q] == m;
            assert(seen.contains(m));
            assert(q != j);
            if q < j {
                assert(seen[q].index != seen[j].index);
            } else {
                assert(seen[j].index != seen[q].index);
            }
            lemma_item_order(seen[j], m);
        }
    }

    /// A selector that keeps at most `limit` matches and was offered none.
    pub fn new(limit: usize) -> (selector: TopK)
        ensures
            selector.wf(),
            selector.limit_spec() == limit,
            selector.offered() == Seq::<Match>::empty(),
            selector.len_spec() == 0,
    {
        let reserve = if limit <= MAX_RESERVE { limit } else { MAX_RESERVE };
        TopK { heap: heap_with_capacity(reserve), limit, seen: Ghost(Seq::empty()) }
    }

    /// The number of matches that the selector keeps at most.
    pub fn limit(&self) -> (limit: usize)
        ensures
            limit == self.limit_spec(),
    {
        self.limit
    }

    /// The number of matches kept: the number of matches offered, up to the
    /// limit.
    pub fn len(&self) -> (len: usize)
        requires
            self.wf(),
        ensures
            len == self.len_spec(),
            len == if self.limit_spec() <= self.offered().len() {
                self.limit_spec()
            } else {
                self.offered().len()
            },
    {
        heap_len(&self.heap)
    }

    /// Offers `m`. While fewer than `limit` matches are kept, `m` is kept.
    /// Once the selector is full, `m` takes the place of the lowest ranked
    /// match kept if it outranks that one, and is dropped otherwise.
    pub fn offer(&mut self, m: Match)
        requires
            old(self).wf(),
            index_is_new(old(self).offered(), m.index),
        ensures
            final(self).wf(),
            final(self).limit_spec() == old(self).limit_spec(),
            final(self).offered() == old(self).offered().push(m),
            old(self).len_spec() < old(self).limit_spec() ==> final(self).len_spec() == old(
                self,
            ).len_spec() + 1 && final(self).keeps(m) && forall|other: Match|
                old(self).keeps(other) ==> final(self).keeps(other),
            old(self).len_spec() >= old(self).limit_spec() ==> final(self).len_spec() == old(
                self,
            ).len_spec(),
            final(self).keeps(m) || forall|other: Match|
                #![trigger final(self).keeps(other)]
                final(self).keeps(other) ==> other.outranks(m) && old(self).keeps(other),
    {
        let ghost before = heap_items(self.heap);
        let ghost seen = self.seen@;
        let item: Item = (
            m.score,
            usize::MAX - m.index,
            m.context_score,
            m.query_score,
            m.frequency_score,
        );
        proof {
            assert(item == item_of(m));
            assert(match_of(item) == m);
            assert forall|x: Item| #[trigger] before.count(x) > 0 implies x != item by {
                let other = match_of(x);
                assert(seen.contains(other));
                let j = choose|j: int| 0 <= j < seen.len() && seen[j] == other;
                assert(seen[j].index != m.index);
            }
            assert(before.count(item) == 0);
            assert(seen.push(m).drop_last() == seen);
            assert forall|i: int, j: int| 0 <= i < j < seen.push(m).len() implies (
            #[trigger] seen.push(m)[i]).index != (#[trigger] seen.push(m)[j]).index by {
                if j < seen.len() {
                    assert(seen.push(m)[i] == seen[i]);
                    assert(seen.push(m)[j] == seen[j]);
                } else {
                    assert(seen.push(m)[i] == seen[i]);
                }
            }
        }
        if heap_len(&self.heap) < self.limit {
            heap_push(&mut self.heap, item);
            self.seen = Ghost(seen.push(m));
            proof {
                let after = heap_items(self.heap);
                let now = self.seen@;
                assert(after == before.insert(item));
                assert forall|j: int| 0 <= j < now.len() implies after.count(
                    item_of(#[trigger] now[j]),
                ) > 0 by {
                    if j < seen.len() {
                        assert(now[j] == seen[j]);
                    }
                }
                assert forall|x: Item| #[trigger] after.count(x) > 0 implies now.contains(
                    match_of(x),
                ) && item_of(match_of(x)) == x by {
                    if x == item {
                        assert(now[seen.len() as int] == m);
                    } else {
                        assert(before.count(x) > 0);
                        let j = choose|j: int| 0 <= j < seen.len() && seen[j] == match_of(x);
                        assert(now[j] == match_of(x));
                    }
                }
                assert forall|other: Match| old(self).keeps(other) implies self.keeps(other) by {}
            }
        } else {
            let root = heap_peek(&self.heap);
            let replace = match root {
                Some(least) => least.0 < item.0 || (least.0 == item.0 && least.1 < item.1),
                None => false,
            };
            if replace {
                let popped = heap_pop(&mut self.heap);
                let ghost least = popped->0;
                let ghost middle = heap_items(self.heap);
                heap_push(&mut self.heap, item);
                self.seen = Ghost(seen.push(m));
                proof {
                    let after = heap_items(self.heap);
                    let now = self.seen@;
                    assert(middle == before.remove(least));
                    assert(after == middle.insert(item));
                    assert(item_le(least, root->0) && item_le(root->0, least));
                    assert(item_lt(least, item));
                    assert forall|x: Item| #[trigger] after.count(x) <= 1 by {}
                    assert forall|x: Item| #[trigger] after.count(x) > 0 implies now.contains(
                        match_of(x),
                    ) && item_of(match_of(x)) == x by {
                        if x == item {
                            assert(now[seen.len() as int] == m);
                        } else {
                            assert(before.count(x) > 0);
                            let j = choose|j: int| 0 <= j < seen.len() && seen[j] == match_of(x);
                            assert(now[j] == match_of(x));
                        }
                    }
                    assert forall|j: int, x: Item|
                        0 <= j < now.len() && after.count(item_of(#[trigger] now[j])) == 0
                            && #[trigger] after.count(x) > 0 implies item_lt(
                        item_of(now[j]),
                        x,
                    ) by {
                        assert(j < seen.len());
                        assert(now[j] == seen[j]);
                        let dropped = item_of(seen[j]);
                        if dropped == least {
                            if x != item {
                                assert(before.count(x) > 0);
                                assert(item_le(least, x));
                            }
                        } else {
                            assert(before.count(dropped) == 0);
                            assert(item_lt(dropped, least));
                            if x != item {
                                assert(before.count(x) > 0);
                            }
                        }
                    }
                }
            } else {
                self.seen = Ghost(seen.push(m));
                proof {
                    let now = self.seen@;
                    assert forall|x: Item| #[trigger] before.count(x) > 0 implies now.contains(
                        match_of(x),
                    ) && item_of(match_of(x)) == x by {
                        let j = choose|j: int| 0 <= j < seen.len() && seen[j] == match_of(x);
                        assert(now[j] == match_of(x));
                    }
                    assert forall|j: int, x: Item|
                        0 <= j < now.len() && before.count(item_of(#[trigger] now[j])) == 0
                            && #[trigger] before.count(x) > 0 implies item_lt(
                        item_of(now[j]),
                        x,
                    ) by {
                        if j < seen.len() {
                            assert(now[j] == seen[j]);
                        } else {
                            assert(now[j] == m);
                            let least = root->0;
                            assert(item_le(least, x));
                            assert(least != item);
                        }
                    }
                    assert forall|other: Match| #[trigger]
                        self.keeps(other) implies other.outranks(m) && old(self).keeps(other) by {
                        let x = item_of(other);
                        assert(before.count(x) > 0);
                        assert(now[seen.len() as int] == m);
                        assert(item_lt(item_of(now[seen.len() as int]), x));
                        lemma_item_order(m, other);
                        assert(seen.contains(match_of(x)));
                    }
                }
            }
        }
    }

    /// The matches kept, the highest ranked first: the `limit` highest
    /// ranked of all matches offered. The selector is left as it is.
    pub fn sorted(&self) -> (result: Vec<Match>)
        requires
            self.wf(),
        ensures
            is_top_k(result@, self.offered(), self.limit_spec()),
            forall|m: Match| self.keeps(m) <==> result@.contains(m),
    {
        let items = heap_into_sorted_vec(heap_clone(&self.heap));
        let result = matches_of_items(&items);
        proof {
            self.lemma_sorted_is_top_k(items@, result@);
        }
        result
    }

    /// The matches kept, the highest ranked first: the `limit` highest
    /// ranked of all matches offered. The selector is used up.
    pub fn into_ranked(self) -> (result: Vec<Match>)
        requires
            self.wf(),
        ensures
            is_top_k(result@, self.offered(), self.limit_spec()),
            forall|m: Match| self.keeps(m) <==> result@.contains(m),
    {
        let ghost held = heap_items(self.heap);
        let items = heap_into_vec(self.heap);
        let list = matches_of_items(&items);
        let result = sort_by_rank(list);
        proof {
            self.lemma_ranked_is_top_k(items@, list@, result@);
        }
        result
    }

    proof fn lemma_ranked_is_top_k(&self, items: Seq<Item>, list: Seq<Match>, result: Seq<Match>)
        requires
            self.wf(),
            items.to_multiset() == heap_items(self.heap),
            list.len() == items.len(),
            forall|j: int| 0 <= j < items.len() ==> #[trigger] list[j] == match_of(items[j]),
            result.to_multiset() == list.to_multiset(),
            in_rank_order(result),
        ensures
            is_top_k(result, self.offered(), self.limit_spec()),
            forall|m: Match| self.keeps(m) <==> result.contains(m),
    {
        broadcast use vstd::seq_lib::group_to_multiset_ensures;

        let held = heap_items(self.heap);
        let seen = self.seen@;
        self.lemma_invariant();
        assert forall|j: int| 0 <= j < items.len() implies held.count(#[trigger] items[j]) > 0
            && item_of(list[j]) == items[j] by {
            assert(items.contains(items[j]));
        }
        assert forall|x: Item| held.contains(x) implies held.count(x) == 1 by {}
        items.lemma_multiset_has_no_duplicates_conv();
        assert forall|i: int, j: int| 0 <= i < list.len() && 0 <= j < list.len() && i
            != j implies list[i] != list[j] by {
            assert(item_of(list[i]) == items[i] && item_of(list[j]) == items[j]);
        }
        list.lemma_multiset_has_no_duplicates();
        assert(result.len() == result.to_multiset().len());
        assert(list.len() == list.to_multiset().len());
        assert(items.len() == items.to_multiset().len());
        assert forall|x: Match| result.to_multiset().contains(x) implies result.to_multiset().count(
            x,
        ) == 1 by {}
        result.lemma_multiset_has_no_duplicates_conv();
        assert forall|m: Match| self.keeps(m) <==> result.contains(m) by {
            lemma_item_order(m, m);
            assert(result.contains(m) <==> result.to_multiset().count(m) > 0);
            assert(list.contains(m) <==> list.to_multiset().count(m) > 0);
            if self.keeps(m) {
                assert(items.contains(item_of(m)));
                let p = choose|p: int| 0 <= p < items.len() && items[p] == item_of(m);
                assert(list[p] == m);
                assert(list.contains(m));
            }
            if result.contains(m) {
                assert(list.contains(m));
                let p = choose|p: int| 0 <= p < list.len() && list[p] == m;
                assert(held.count(items[p]) > 0);
            }
        }
        assert forall|i: int, j: int| 0 <= i < j < result.len() implies (
        #[trigger] result[i]).outranks(#[trigger] result[j]) by {
            assert(result.contains(result[i]) && result.contains(result[j]));
            assert(seen.contains(result[i]) && seen.contains(result[j]));
            let p = choose|p: int| 0 <= p < seen.len() && seen[p] == result[i];
            let q = choose|q: int| 0 <= q < seen.len() && seen[q] == result[j];
            assert(p != q);
            if p < q {
                assert(seen[p].index != seen[q].index);
            } else {
                assert(seen[q].index != seen[p].index);
            }
        }
        assert forall|i: int| 0 <= i < result.len() implies seen.contains(#[trigger] result[i]) by {
            assert(result.contains(result[i]));
        }
        assert forall|j: int| 0 <= j < seen.len() implies result.contains(#[trigger] seen[j])
            || forall|i: int|
            0 <= i < result.len() ==> (#[trigger] result[i]).outranks(seen[j]) by {
            if !self.keeps(seen[j]) {
                assert forall|i: int| 0 <= i < result.len() implies (
                #[trigger] result[i]).outranks(seen[j]) by {
                    assert(result.contains(result[i]));
                }
            }
        }
    }

    proof fn lemma_sorted_is_top_k(&self, items: Seq<Item>, result: Seq<Match>)
        requires
            self.wf(),
            items.to_multiset() == heap_items(self.heap),
            descending(items),
            result.len() == items.len(),
            forall|j: int| 0 <= j < items.len() ==> #[trigger] result[j] == match_of(items[j]),
        ensures
            is_top_k(result, self.offered(), self.limit_spec()),
            forall|m: Match| self.keeps(m) <==> result.contains(m),
    {
        broadcast use vstd::seq_lib::group_to_multiset_ensures;

        let held = heap_items(self.heap);
        let seen = self.seen@;
        assert(items.len() == held.len());
        assert forall|j: int| 0 <= j < items.len() implies held.count(#[trigger] items[j]) > 0
            && item_of(result[j]) == items[j] && seen.contains(result[j]) by {
            assert(items.contains(items[j]));
        }
        assert forall|i: int, j: int| 0 <= i < j < result.len() implies (
        #[trigger] result[i]).outranks(#[trigger] result[j]) by {
            assert(item_le(items[j], items[i]));
            if items[i] == items[j] {
                assert forall|x: Item| held.contains(x) implies held.count(x) == 1 by {}
                items.lemma_multiset_has_no_duplicates_conv();
            }
            let p = choose|p: int| 0 <= p < seen.len() && seen[p] == result[i];
            let q = choose|q: int| 0 <= q < seen.len() && seen[q] == result[j];
            assert(seen.contains(result[i]) && seen.contains(result[j]));
            assert(p != q);
            if p < q {
                assert(seen[p].index != seen[q].index);
            } else {
                assert(seen[q].index != seen[p].index);
            }
            lemma_item_order(result[j], result[i]);
        }
        assert forall|j: int| 0 <= j < seen.len() implies result.contains(#[trigger] seen[j])
            || forall|i: int|
            0 <= i < result.len() ==> (#[trigger] result[i]).outranks(seen[j]) by {
            let wanted = item_of(seen[j]);
            lemma_item_order(seen[j], seen[j]);
            if held.count(wanted) > 0 {
                assert(items.contains(wanted));
                let p = choose|p: int| 0 <= p < items.len() && items[p] == wanted;
                assert(result[p] == seen[j]);
            } else {
                assert forall|i: int| 0 <= i < result.len() implies (
                #[trigger] result[i]).outranks(seen[j]) by {
                    assert(item_lt(wanted, items[i]));
                    let q = choose|q: int| 0 <= q < seen.len() && seen[q] == result[i];
                    assert(seen.contains(result[i]));
                    assert(q != j);
                    if q < j {
                        assert(seen[q].index != seen[j].index);
                    } else {
                        assert(seen[j].index != seen[q].index);
                    }
                    lemma_item_order(seen[j], result[i]);
                }
            }
        }
        assert forall|m: Match| self.keeps(m) <==> result.contains(m) by {
            lemma_item_order(m, m);
            if self.keeps(m) {
                assert(items.contains(item_of(m)));
                let p = choose|p: int| 0 <= p < items.len() && items[p] == item_of(m);
                assert(result[p] == m);
            }
            if result.contains(m) {
                let p = choose|p: int| 0 <= p < result.len() && result[p] == m;
                assert(held.count(items[p]) > 0);
            }
        }
    }
}

/// Two ranked selections of the same candidates agree on their first
/// `n` places.
proof fn lemma_top_k_prefix(a: Seq<Match>, b: Seq<Match>, candidates: Seq<Match>, k: nat, n: nat)
    requires
        distinct_indices(candidates),
        is_top_k(a, candidates, k),
        is_top_k(b, candidates, k),
        n <= a.len(),
    ensures
        forall|p: int| 0 <= p < n ==> a[p] == b[p],
    decreases n,
{
    if n > 0 {
        lemma_top_k_prefix(a, b, candidates, k, (n - 1) as nat);
        let i = (n - 1) as int;
        if a[i] != b[i] {
            assert(candidates.contains(a[i]) && candidates.contains(b[i]));
            let x = choose|x: int| 0 <= x < candidates.len() && candidates[x] == a[i];
            let y = choose|y: int| 0 <= y < candidates.len() && candidates[y] == b[i];
            if x < y {
                assert(candidates[x].index != candidates[y].index);
            } else {
                assert(candidates[y].index != candidates[x].index);
            }
            if a[i].outranks(b[i]) {
                lemma_absent_from_selection(b, a, i, a[i]);
                assert(b.contains(candidates[x]) || forall|q: int|
                    0 <= q < b.len() ==> (#[trigger] b[q]).outranks(candidates[x]));
                assert(b[i].outranks(candidates[x]));
            } else {
                assert(b[i].outranks(a[i]));
                lemma_absent_from_selection(a, b, i, b[i]);
                assert(a.contains(candidates[y]) || forall|q: int|
                    0 <= q < a.len() ==> (#[trigger] a[q]).outranks(candidates[y]));
                assert(a[i].outranks(candidates[y]));
            }
        }
    }
}

/// A match that outranks the one at place `i` of a ranked list, and that
/// stands in another ranked list at place `i` after a common prefix, is not
/// in the first list.
proof fn lemma_absent_from_selection(list: Seq<Match>, other: Seq<Match>, i: int, m: Match)
    requires
        ranked(list),
        ranked(other),
        0 <= i < list.len(),
        list.len() == other.len(),
        forall|p: int| 0 <= p < i ==> list[p] == other[p],
        other[i] == m,
        m.outranks(list[i]),
    ensures
        !list.contains(m),
{
    if list.contains(m) {
        let q = choose|q: int| 0 <= q < list.len() && list[q] == m;
        if q < i {
            assert(other[q].outranks(other[i]));
        } else if q > i {
            assert(list[i].outranks(list[q]));
        }
    }
}

/// There is one selection of the `k` highest ranked candidates: two lists
/// that both are one are equal.
pub proof fn lemma_top_k_unique(a: Seq<Match>, b: Seq<Match>, candidates: Seq<Match>, k: nat)
    requires
        distinct_indices(candidates),
        is_top_k(a, candidates, k),
        is_top_k(b, candidates, k),
    ensures
        a == b,
{
    lemma_top_k_prefix(a, b, candidates, k, a.len());
    assert(a =~= b);
}

/// The matches that the items stand for, in the same order.
fn matches_of_items(items: &Vec<Item>) -> (result: Vec<Match>)
    ensures
        result@.len() == items@.len(),
        forall|j: int| 0 <= j < items@.len() ==> #[trigger] result@[j] == match_of(items@[j]),
{
    let mut result: Vec<Match> = Vec::new();
    let mut i: usize = 0;
    while i < items.len()
        invariant
            i <= items.len(),
            result@.len() == i,
            forall|j: int| 0 <= j < i ==> #[trigger] result@[j] == match_of(items@[j]),
        decreases items.len() - i,
    {
        let item = items[i];
        result.push(
            Match {
                index: usize::MAX - item.1,
                score: item.0,
                context_score: item.2,
                query_score: item.3,
                frequency_score: item.4,
            },
        );
        i += 1;
    }
    result
}

} // verus!
