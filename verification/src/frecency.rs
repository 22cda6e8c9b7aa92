//! The frecency counter: how recently each path was selected.
//!
//! The counter keeps a logical clock and, in a least-recently-used cache of
//! bounded size, the clock value at which each path was last selected.

use crate::score::{decay, decay_spec, SCORE_UNIT};
use lru::LruCache;
use vstd::prelude::*;

verus! {

#[verifier::external_type_specification]
#[verifier::external_body]
#[verifier::reject_recursive_types(K)]
#[verifier::reject_recursive_types(V)]
#[verifier::reject_recursive_types(S)]
pub struct ExLruCache<K, V, S>(lru::LruCache<K, V, S>);

#[verifier::external_type_specification]
#[verifier::external_body]
pub struct ExLruHasher(lru::DefaultHasher);

/// One cache entry: a path and the clock value of its last selection.
pub type Stamp = (Seq<char>, usize);

/// What a cache holds, the most recently used entry first.
pub uninterp spec fn lru_entries(cache: LruCache<String, usize>) -> Seq<Stamp>;

/// The number of entries that a cache was made to hold at most.
pub uninterp spec fn lru_capacity(cache: LruCache<String, usize>) -> nat;

/// Whether some entry of `entries` has the key `key`.
pub open spec fn has_key(entries: Seq<Stamp>, key: Seq<char>) -> bool {
    exists|i: int| 0 <= i < entries.len() && (#[trigger] entries[i]).0 == key
}

/// The position of an entry with the key `key`.
pub open spec fn key_index(entries: Seq<Stamp>, key: Seq<char>) -> int {
    choose|i: int| 0 <= i < entries.len() && (#[trigger] entries[i]).0 == key
}

/// The value stored under `key`, if any.
pub open spec fn stamp_of(entries: Seq<Stamp>, key: Seq<char>) -> Option<usize> {
    if has_key(entries, key) {
        Some(entries[key_index(entries, key)].1)
    } else {
        None
    }
}

/// The entries after `key` was put with `value` into a cache of capacity
/// `capacity`: the new entry comes first; an older entry of the same key is
/// gone; if there was none and the cache was full, the last entry is gone.
pub open spec fn entries_after_put(
    entries: Seq<Stamp>,
    capacity: nat,
    key: Seq<char>,
    value: usize,
) -> Seq<Stamp> {
    let rest = if has_key(entries, key) {
        entries.remove(key_index(entries, key))
    } else if entries.len() >= capacity {
        entries.drop_last()
    } else {
        entries
    };
    seq![(key, value)] + rest
}

/// No two entries share a key.
pub open spec fn distinct_keys(entries: Seq<Stamp>) -> bool {
    forall|i: int, j: int|
        0 <= i < j < entries.len() ==> (#[trigger] entries[i]).0 != (#[trigger] entries[j]).0
}

/// `LruCache::new` of the lru crate: the new cache is empty and evicts once
/// it holds `capacity` entries.
#[verifier::external_body]
fn lru_new(capacity: usize) -> (cache: LruCache<String, usize>)
    requires
        0 < capacity <= 0x1_0000,
    ensures
        lru_entries(cache) == Seq::<Stamp>::empty(),
        lru_capacity(cache) == capacity,
{
    LruCache::new(std::num::NonZeroUsize::new(capacity).unwrap())
}

/// `LruCache::put` of the lru crate: the entry becomes the most recently
/// used one. An entry that had the same key is replaced; otherwise a full
/// cache drops its least recently used entry. The capacity stays.
#[verifier::external_body]
fn lru_put(cache: &mut LruCache<String, usize>, key: String, value: usize)
    ensures
        lru_entries(*final(cache)) == entries_after_put(
            lru_entries(*old(cache)),
            lru_capacity(*old(cache)),
            key@,
            value,
        ),
        lru_capacity(*final(cache)) == lru_capacity(*old(cache)),
{
    cache.put(key, value);
}

/// `LruCache::peek` of the lru crate: the value stored under `key`, if the
/// cache has the key. The order of the entries is not touched.
#[verifier::external_body]
fn lru_peek(cache: &LruCache<String, usize>, key: &str) -> (value: Option<usize>)
    ensures
        value == stamp_of(lru_entries(*cache), key@),
{
    cache.peek(key).copied()
}

/// The number of paths whose last selection is remembered.
pub const FRECENCY_CAPACITY: usize = 20;

/// What a frecency counter knows: the remembered paths with the clock value
/// of their last selection, the most recently selected path first, and the
/// clock, which counts the selections.
pub struct Frecency {
    pub entries: Seq<Stamp>,
    pub clock: nat,
}

impl Frecency {
    /// At most `FRECENCY_CAPACITY` paths are remembered, each once, and no
    /// selection lies in the future.
    pub open spec fn wf(self) -> bool {
        &&& self.entries.len() <= FRECENCY_CAPACITY
        &&& distinct_keys(self.entries)
        &&& forall|i: int|
            0 <= i < self.entries.len() ==> 1 <= (#[trigger] self.entries[i]).1 <= self.clock
    }

    /// How many selections ago `path` was last selected, if it is remembered.
    pub open spec fn age_of(self, path: Seq<char>) -> Option<nat> {
        match stamp_of(self.entries, path) {
            Some(stamp) => Some((self.clock - stamp) as nat),
            None => None,
        }
    }

    /// The frecency score of `path` in units of `1 / SCORE_UNIT`:
    /// `decay_spec` of its age, zero if the path is not remembered.
    pub open spec fn score_of(self, path: Seq<char>) -> nat {
        match self.age_of(path) {
            Some(age) => decay_spec(age),
            None => 0,
        }
    }

    /// The state after a selection of `path`: the clock has advanced by one
    /// and `path` is remembered with the new clock value as the most recent
    /// path. If it was not remembered and the counter was full, the least
    /// recently selected path is forgotten.
    pub open spec fn after_update(self, path: Seq<char>) -> Frecency {
        Frecency {
            entries: entries_after_put(
                self.entries,
                FRECENCY_CAPACITY as nat,
                path,
                (self.clock + 1) as usize,
            ),
            clock: self.clock + 1,
        }
    }
}

/// Remembers when each of the most recently selected paths was selected.
pub struct FrequencyCounter {
    cache: LruCache<String, usize>,
    clock: usize,
}

impl View for FrequencyCounter {
    type V = Frecency;

    closed spec fn view(&self) -> Frecency {
        Frecency { entries: lru_entries(self.cache), clock: self.clock as nat }
    }
}

impl FrequencyCounter {
    /// The invariant of a counter: what it knows is well formed, and its
    /// clock can be stored.
    pub closed spec fn wf(&self) -> bool {
        &&& lru_capacity(self.cache) == FRECENCY_CAPACITY
        &&& self@.wf()
    }

    /// A counter that remembers nothing, with its clock at zero.
    pub fn new() -> (counter: FrequencyCounter)
        ensures
            counter.wf(),
            counter@.entries == Seq::<Stamp>::empty(),
            counter@.clock == 0,
    {
        FrequencyCounter { cache: lru_new(FRECENCY_CAPACITY), clock: 0 }
    }

    /// The logical clock: the number of selections so far.
    pub fn clock(&self) -> (clock: usize)
        ensures
            clock == self@.clock,
    {
        self.clock
    }

    /// Records a selection of `entry`.
    pub fn update(&mut self, entry: &str)
        requires
            old(self).wf(),
            old(self)@.clock < usize::MAX,
        ensures
            final(self).wf(),
            final(self)@ == old(self)@.after_update(entry@),
    {
        let ghost before = self@.entries;
        self.clock += 1;
        lru_put(&mut self.cache, entry.to_owned(), self.clock);
        proof {
            lemma_put_keeps_distinct(before, FRECENCY_CAPACITY as nat, entry@, self.clock);
        }
    }

    /// How many selections ago `entry` was last selected, if it is
    /// remembered.
    pub fn age(&self, entry: &str) -> (age: Option<usize>)
        requires
            self.wf(),
        ensures
            age.is_some() == self@.age_of(entry@).is_some(),
            age matches Some(a) ==> self@.age_of(entry@) == Some(a as nat),
    {
        match lru_peek(&self.cache, entry) {
            Some(stamp) => {
                assert(has_key(self@.entries, entry@));
                Some(self.clock - stamp)
            },
            None => None,
        }
    }

    /// The frecency score of `entry`, in units of `1 / SCORE_UNIT`: zero if
    /// the path is not remembered, else the decay factor of its age.
    pub fn score(&self, entry: &str) -> (score: u64)
        requires
            self.wf(),
        ensures
            score == self@.score_of(entry@),
            score <= SCORE_UNIT,
    {
        match self.age(entry) {
            Some(age) => decay(age),
            None => 0,
        }
    }
}

/// Putting an entry keeps the keys distinct and the length within the
/// capacity, and every entry but the new one was there before.
pub proof fn lemma_put_keeps_distinct(
    entries: Seq<Stamp>,
    capacity: nat,
    key: Seq<char>,
    value: usize,
)
    requires
        distinct_keys(entries),
        entries.len() <= capacity,
        capacity > 0,
    ensures
        distinct_keys(entries_after_put(entries, capacity, key, value)),
        entries_after_put(entries, capacity, key, value).len() <= capacity,
        entries_after_put(entries, capacity, key, value)[0] == (key, value),
        forall|i: int|
            1 <= i < entries_after_put(entries, capacity, key, value).len()
                ==> entries.contains(#[trigger] entries_after_put(entries, capacity, key, value)[i])
                && entries_after_put(entries, capacity, key, value)[i].0 != key,
{
    let after = entries_after_put(entries, capacity, key, value);
    if has_key(entries, key) {
        let k = key_index(entries, key);
        let rest = entries.remove(k);
        assert forall|i: int| 0 <= i < rest.len() implies rest[i] == entries[if i < k {
            i
        } else {
            i + 1
        }] by {}
        assert forall|i: int| 1 <= i < after.len() implies entries.contains(#[trigger] after[i])
            && after[i].0 != key by {
            let j = if i - 1 < k { i - 1 } else { i };
            assert(after[i] == rest[i - 1]);
            assert(rest[i - 1] == entries[j]);
        }
        assert forall|i: int, j: int| 0 <= i < j < after.len() implies (#[trigger] after[i]).0 != (
        #[trigger] after[j]).0 by {
            if i > 0 {
                let a = if i - 1 < k { i - 1 } else { i };
                let b = if j - 1 < k { j - 1 } else { j };
                assert(after[i] == entries[a]);
                assert(after[j] == entries[b]);
            }
        }
    } else {
        let rest = if entries.len() >= capacity { entries.drop_last() } else { entries };
        assert forall|i: int| 1 <= i < after.len() implies entries.contains(#[trigger] after[i])
            && after[i].0 != key by {
            assert(after[i] == entries[i - 1]);
        }
        assert forall|i: int, j: int| 0 <= i < j < after.len() implies (#[trigger] after[i]).0 != (
        #[trigger] after[j]).0 by {
            if i > 0 {
                assert(after[i] == entries[i - 1]);
                assert(after[j] == entries[j - 1]);
            } else {
                assert(after[j] == entries[j - 1]);
            }
        }
    }
}

/// With distinct keys, the entry found under a key is the only one.
pub proof fn lemma_stamp_unique(entries: Seq<Stamp>, i: int)
    requires
        distinct_keys(entries),
        0 <= i < entries.len(),
    ensures
        has_key(entries, entries[i].0),
        key_index(entries, entries[i].0) == i,
        stamp_of(entries, entries[i].0) == Some(entries[i].1),
{
    let key = entries[i].0;
    assert(has_key(entries, key));
    let k = key_index(entries, key);
    if k < i {
        assert(entries[k].0 != entries[i].0);
    } else if i < k {
        assert(entries[i].0 != entries[k].0);
    }
}

/// What a selection does to the stamps: the selected path gets the new
/// stamp, every other path keeps its stamp or is forgotten, and no path
/// but the selected one appears.
pub proof fn lemma_put_stamps(
    entries: Seq<Stamp>,
    capacity: nat,
    key: Seq<char>,
    value: usize,
    other: Seq<char>,
)
    requires
        distinct_keys(entries),
        entries.len() <= capacity,
        capacity > 0,
    ensures
        stamp_of(entries_after_put(entries, capacity, key, value), key) == Some(value),
        other != key ==> stamp_of(entries_after_put(entries, capacity, key, value), other)
            == stamp_of(entries, other) || stamp_of(
            entries_after_put(entries, capacity, key, value),
            other,
        ) is None,
{
    let after = entries_after_put(entries, capacity, key, value);
    lemma_put_keeps_distinct(entries, capacity, key, value);
    lemma_stamp_unique(after, 0);
    if other != key && has_key(after, other) {
        let i = key_index(after, other);
        lemma_stamp_unique(after, i);
        assert(i >= 1);
        assert(entries.contains(after[i]));
        let j = choose|j: int| 0 <= j < entries.len() && entries[j] == after[i];
        lemma_stamp_unique(entries, j);
    }
}

/// Selecting a path gives it the highest frecency score there is. Its score
/// does not drop, and it rises unless the path was already the one selected
/// last.
pub proof fn law_update_raises_score(before: Frecency, path: Seq<char>)
    requires
        before.wf(),
        before.clock < usize::MAX,
    ensures
        before.after_update(path).wf(),
        before.after_update(path).age_of(path) == Some(0nat),
        before.after_update(path).score_of(path) == SCORE_UNIT,
        before.after_update(path).score_of(path) >= before.score_of(path),
        before.age_of(path) != Some(0nat) ==> before.after_update(path).score_of(path)
            > before.score_of(path),
{
    let stamp = (before.clock + 1) as usize;
    lemma_put_keeps_distinct(before.entries, FRECENCY_CAPACITY as nat, path, stamp);
    lemma_put_stamps(before.entries, FRECENCY_CAPACITY as nat, path, stamp, path);
    match before.age_of(path) {
        Some(age) => {
            if age > 0 {
                crate::score::lemma_decay_decreases(0, age);
            }
        },
        None => {},
    }
}

/// Selecting a path ages every other path by one selection, or makes the
/// counter forget it. So the frecency score of another path does not rise,
/// and it drops if it was positive.
pub proof fn law_update_lowers_others(before: Frecency, selected: Seq<char>, path: Seq<char>)
    requires
        before.wf(),
        before.clock < usize::MAX,
        path != selected,
    ensures
        before.after_update(selected).age_of(path) matches Some(age) ==> age >= 1
            && before.age_of(path) == Some((age - 1) as nat),
        before.age_of(path) is None ==> before.after_update(selected).age_of(path) is None,
        before.after_update(selected).score_of(path) <= before.score_of(path),
        before.score_of(path) > 0 ==> before.after_update(selected).score_of(path)
            < before.score_of(path),
{
    let stamp = (before.clock + 1) as usize;
    let after = before.after_update(selected);
    lemma_put_stamps(before.entries, FRECENCY_CAPACITY as nat, selected, stamp, path);
    match after.age_of(path) {
        Some(age) => {
            let i = key_index(before.entries, path);
            assert(has_key(before.entries, path));
            assert(before.entries[i].1 <= before.clock);
            crate::score::lemma_decay_decreases((age - 1) as nat, age);
        },
        None => {},
    }
}

} // verus!
