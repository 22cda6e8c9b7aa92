//! The bounded heap behind the top-k selector.
//!
//! The heap is `BinaryHeap` of the binary-heap-plus crate with its
//! `MinComparator`, so the root is the least item. An item is a tuple of
//! integers, whose order is the lexicographic one.

use binary_heap_plus::{BinaryHeap, MinComparator};
use vstd::multiset::Multiset;
use vstd::prelude::*;

verus! {

#[verifier::external_type_specification]
#[verifier::external_body]
#[verifier::reject_recursive_types(T)]
#[verifier::reject_recursive_types(C)]
pub struct ExBinaryHeap<T, C>(binary_heap_plus::BinaryHeap<T, C>);

#[verifier::external_type_specification]
#[verifier::external_body]
pub struct ExMinComparator(binary_heap_plus::MinComparator);

/// A heap item: the score, the index counted down from `usize::MAX`, and
/// the context, query and frequency scores.
pub type Item = (u64, usize, u64, u64, u64);

/// The heap of items with the least item at its root.
pub type MinHeap = BinaryHeap<Item, MinComparator>;

/// The items that a heap holds.
pub uninterp spec fn heap_items(heap: MinHeap) -> Multiset<Item>;

/// The lexicographic order of tuples, strict.
pub open spec fn item_lt(a: Item, b: Item) -> bool {
    a.0 < b.0 || (a.0 == b.0 && (a.1 < b.1 || (a.1 == b.1 && (a.2 < b.2 || (a.2 == b.2 && (a.3
        < b.3 || (a.3 == b.3 && a.4 < b.4)))))))
}

/// The lexicographic order of tuples.
pub open spec fn item_le(a: Item, b: Item) -> bool {
    a == b || item_lt(a, b)
}

/// `item` is in `items` and no item of `items` is less.
pub open spec fn is_least(items: Multiset<Item>, item: Item) -> bool {
    &&& items.count(item) > 0
    &&& forall|other: Item| items.count(other) > 0 ==> item_le(item, other)
}

/// From the greatest item down to the least.
pub open spec fn descending(items: Seq<Item>) -> bool {
    forall|i: int, j: int| 0 <= i < j < items.len() ==> item_le(items[j], items[i])
}

/// The largest capacity that a heap is asked to reserve up front.
pub const MAX_RESERVE: usize = 0x1_0000;

/// `BinaryHeap::with_capacity_min` of binary-heap-plus: an empty min-heap
/// with room reserved for `capacity` items.
#[verifier::external_body]
pub(crate) fn heap_with_capacity(capacity: usize) -> (heap: MinHeap)
    requires
        capacity <= MAX_RESERVE,
    ensures
        heap_items(heap) == Multiset::<Item>::empty(),
{
    BinaryHeap::with_capacity_min(capacity)
}

/// `BinaryHeap::len` of binary-heap-plus: the number of items held.
#[verifier::external_body]
pub(crate) fn heap_len(heap: &MinHeap) -> (len: usize)
    ensures
        len == heap_items(*heap).len(),
{
    heap.len()
}

/// `BinaryHeap::push` of binary-heap-plus: the heap holds one more copy of
/// `item` and is otherwise unchanged.
#[verifier::external_body]
pub(crate) fn heap_push(heap: &mut MinHeap, item: Item)
    ensures
        heap_items(*final(heap)) == heap_items(*old(heap)).insert(item),
{
    heap.push(item)
}

/// `BinaryHeap::peek` of binary-heap-plus: the root of a min-heap, which is
/// a least item; nothing if the heap is empty.
#[verifier::external_body]
pub(crate) fn heap_peek(heap: &MinHeap) -> (root: Option<Item>)
    ensures
        root is None <==> heap_items(*heap).len() == 0,
        root matches Some(item) ==> is_least(heap_items(*heap), item),
{
    heap.peek().copied()
}

/// `BinaryHeap::pop` of binary-heap-plus: takes the root of a min-heap
/// out, which is a least item; nothing happens to an empty heap.
#[verifier::external_body]
pub(crate) fn heap_pop(heap: &mut MinHeap) -> (root: Option<Item>)
    ensures
        root is None <==> heap_items(*old(heap)).len() == 0,
        root is None ==> heap_items(*final(heap)) == heap_items(*old(heap)),
        root matches Some(item) ==> is_least(heap_items(*old(heap)), item) && heap_items(
            *final(heap),
        ) == heap_items(*old(heap)).remove(item),
{
    heap.pop()
}

/// `Clone::clone` of binary-heap-plus's `BinaryHeap`: a heap with the same
/// items.
#[verifier::external_body]
pub(crate) fn heap_clone(heap: &MinHeap) -> (copy: MinHeap)
    ensures
        heap_items(copy) == heap_items(*heap),
{
    heap.clone()
}

/// `BinaryHeap::into_iter` of binary-heap-plus, collected: all items of the
/// heap, in no particular order.
#[verifier::external_body]
pub(crate) fn heap_into_vec(heap: MinHeap) -> (items: Vec<Item>)
    ensures
        items@.to_multiset() == heap_items(heap),
{
    heap.into_iter().collect()
}

/// `BinaryHeap::into_sorted_vec` of binary-heap-plus: all items of the
/// heap, sorted by the heap's comparator. For a min-heap that is from the
/// greatest item down to the least.
#[verifier::external_body]
pub(crate) fn heap_into_sorted_vec(heap: MinHeap) -> (items: Vec<Item>)
    ensures
        items@.to_multiset() == heap_items(heap),
        descending(items@),
{
    heap.into_sorted_vec()
}

} // verus!
