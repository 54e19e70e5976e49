//! A cache that holds a bounded number of entries, each for a bounded time.
//!
//! Time is a count of ticks that the caller hands in with each call; the
//! cache never reads a clock. An entry is live while fewer than `ttl` ticks
//! have passed since it was inserted. Entries that are no longer live stay in
//! the cache, and count towards its capacity, until an insertion finds the
//! cache full: then the oldest entries leave, live or not.

use vstd::prelude::*;

verus! {

/// A value in a cache, with its key and the time of its insertion.
#[derive(Debug)]
pub struct CacheEntry<K, V> {
    pub key: K,
    pub value: V,
    pub inserted_at: u64,
}

/// A key of a cache: a value that can be told from another by its view.
pub trait CacheKey: View + Sized {
    /// Whether two keys are the same key.
    fn same_key(&self, other: &Self) -> (same: bool)
        ensures
            same == (self@ == other@),
    ;
}

impl CacheKey for String {
    fn same_key(&self, other: &Self) -> (same: bool) {
        *self == *other
    }
}

impl CacheKey for u64 {
    fn same_key(&self, other: &Self) -> (same: bool) {
        *self == *other
    }
}

/// Where the oldest entry stands: the one with the least time of insertion,
/// and of several such the first. Zero for no entries.
pub open spec fn oldest_index<K, V>(entries: Seq<CacheEntry<K, V>>) -> int
    decreases entries.len(),
{
    if entries.len() <= 1 {
        0
    } else {
        let before = oldest_index(entries.drop_last());
        if entries.last().inserted_at < entries[before].inserted_at {
            entries.len() - 1
        } else {
            before
        }
    }
}

/// The entries without the `count` oldest of them. The others keep their
/// order.
pub open spec fn without_oldest<K, V>(entries: Seq<CacheEntry<K, V>>, count: nat) -> Seq<
    CacheEntry<K, V>,
>
    decreases count,
{
    if count == 0 || entries.len() == 0 {
        entries
    } else {
        without_oldest(entries.remove(oldest_index(entries)), (count - 1) as nat)
    }
}

/// How many entries must leave a cache of `held` entries before one more is
/// inserted under a limit of `max_entries`: none while the cache is under
/// the limit, else as many as bring it one under the limit.
pub open spec fn evict_count(held: nat, max_entries: nat) -> nat {
    if held < max_entries {
        0
    } else if max_entries == 0 {
        held
    } else {
        (held - max_entries + 1) as nat
    }
}

/// The entries that stay when room is made for one more under a limit of
/// `max_entries`.
pub open spec fn evicted<K, V>(entries: Seq<CacheEntry<K, V>>, max_entries: nat) -> Seq<
    CacheEntry<K, V>,
> {
    without_oldest(entries, evict_count(entries.len(), max_entries))
}

/// The oldest entry is no newer than any other, and those before it are
/// newer than it.
pub proof fn lemma_oldest_is_oldest<K, V>(entries: Seq<CacheEntry<K, V>>)
    requires
        entries.len() > 0,
    ensures
        0 <= oldest_index(entries) < entries.len(),
        forall|i: int|
            0 <= i < entries.len() ==> entries[oldest_index(entries)].inserted_at
                <= #[trigger] entries[i].inserted_at,
        forall|i: int|
            0 <= i < oldest_index(entries) ==> entries[oldest_index(entries)].inserted_at
                < #[trigger] entries[i].inserted_at,
    decreases entries.len(),
{
    if entries.len() > 1 {
        let front = entries.drop_last();
        lemma_oldest_is_oldest(front);
        assert forall|i: int| 0 <= i < entries.len() implies entries[oldest_index(
            entries,
        )].inserted_at <= #[trigger] entries[i].inserted_at by {
            if i < entries.len() - 1 {
                assert(front[i] == entries[i]);
            }
        }
        assert forall|i: int| 0 <= i < oldest_index(entries) implies entries[oldest_index(
            entries,
        )].inserted_at < #[trigger] entries[i].inserted_at by {
            assert(front[i] == entries[i]);
        }
    }
}

/// Taking the oldest entries away shortens the cache by their number, as
/// far as there are entries.
pub proof fn lemma_without_oldest_len<K, V>(entries: Seq<CacheEntry<K, V>>, count: nat)
    ensures
        without_oldest(entries, count).len() == if count <= entries.len() {
            entries.len() - count
        } else {
            0
        },
    decreases count,
{
    if count > 0 && entries.len() > 0 {
        lemma_oldest_is_oldest(entries);
        lemma_without_oldest_len(entries.remove(oldest_index(entries)), (count - 1) as nat);
    }
}

/// Every entry that stays was there before.
pub proof fn lemma_without_oldest_keeps<K, V>(entries: Seq<CacheEntry<K, V>>, count: nat)
    ensures
        forall|i: int|
            0 <= i < without_oldest(entries, count).len() ==> entries.contains(
                #[trigger] without_oldest(entries, count)[i],
            ),
    decreases count,
{
    if count > 0 && entries.len() > 0 {
        lemma_oldest_is_oldest(entries);
        let at = oldest_index(entries);
        let rest = entries.remove(at);
        lemma_without_oldest_keeps(rest, (count - 1) as nat);
        let after = without_oldest(rest, (count - 1) as nat);
        assert(after == without_oldest(entries, count));
        assert forall|i: int| 0 <= i < after.len() implies entries.contains(
            #[trigger] after[i],
        ) by {
            assert(rest.contains(after[i]));
            let j = choose|j: int| 0 <= j < rest.len() && rest[j] == after[i];
            if j < at {
                assert(entries[j] == rest[j]);
            } else {
                assert(entries[j + 1] == rest[j]);
            }
        }
    } else {
        assert forall|i: int| 0 <= i < entries.len() implies entries.contains(
            #[trigger] entries[i],
        ) by {}
    }
}

/// The oldest entries leave first: an entry that was there before either
/// stays, or is no newer than any entry that stays.
pub proof fn lemma_oldest_leave_first<K, V>(entries: Seq<CacheEntry<K, V>>, count: nat)
    ensures
        forall|i: int, j: int|
            0 <= i < without_oldest(entries, count).len() && 0 <= j < entries.len()
                ==> without_oldest(entries, count).contains(#[trigger] entries[j])
                || entries[j].inserted_at <= (#[trigger] without_oldest(
                entries,
                count,
            )[i]).inserted_at,
    decreases count,
{
    let after = without_oldest(entries, count);
    if count > 0 && entries.len() > 0 {
        lemma_oldest_is_oldest(entries);
        let at = oldest_index(entries);
        let rest = entries.remove(at);
        lemma_oldest_leave_first(rest, (count - 1) as nat);
        lemma_without_oldest_keeps(entries, count);
        assert(after == without_oldest(rest, (count - 1) as nat));
        assert forall|i: int, j: int|
            0 <= i < after.len() && 0 <= j < entries.len() implies after.contains(
            #[trigger] entries[j],
        ) || entries[j].inserted_at <= (#[trigger] after[i]).inserted_at by {
            if j == at {
                assert(entries.contains(after[i]));
                let k = choose|k: int| 0 <= k < entries.len() && entries[k] == after[i];
                assert(entries[at].inserted_at <= entries[k].inserted_at);
            } else if j < at {
                assert(rest[j] == entries[j]);
            } else {
                assert(rest[j - 1] == entries[j]);
            }
        }
    } else {
        assert forall|i: int, j: int|
            0 <= i < after.len() && 0 <= j < entries.len() implies after.contains(
            #[trigger] entries[j],
        ) || entries[j].inserted_at <= (#[trigger] after[i]).inserted_at by {
            assert(after[j] == entries[j]);
        }
    }
}

/// Finds the oldest entry.
fn find_oldest<K, V>(entries: &Vec<CacheEntry<K, V>>) -> (at: usize)
    requires
        entries@.len() > 0,
    ensures
        at == oldest_index(entries@),
        at < entries@.len(),
{
    let mut best: usize = 0;
    let mut i: usize = 1;
    assert(entries@.take(1).len() == 1);
    while i < entries.len()
        invariant
            1 <= i <= entries@.len(),
            best < i,
            best == oldest_index(entries@.take(i as int)),
        decreases entries@.len() - i,
    {
        assert(entries@.take(i as int + 1).drop_last() =~= entries@.take(i as int));
        if entries[i].inserted_at < entries[best].inserted_at {
            best = i;
        }
        i = i + 1;
    }
    assert(entries@.take(i as int) =~= entries@);
    best
}

/// Makes room for one more entry under a limit of `max_entries`: where the
/// cache holds that many entries or more, the oldest leave until it holds one
/// fewer than the limit.
pub fn enforce_cache_limit<K, V>(cache: &mut Vec<CacheEntry<K, V>>, max_entries: usize)
    ensures
        final(cache)@ == evicted(old(cache)@, max_entries as nat),
        final(cache)@.len() == old(cache)@.len() - evict_count(
            old(cache)@.len(),
            max_entries as nat,
        ),
{
    proof {
        lemma_without_oldest_len(cache@, evict_count(cache@.len(), max_entries as nat));
    }
    if cache.len() < max_entries {
        return;
    }
    let to_remove: usize = if max_entries == 0 {
        cache.len()
    } else {
        cache.len() - max_entries + 1
    };
    let mut removed: usize = 0;
    while removed < to_remove
        invariant
            removed <= to_remove,
            cache@.len() == old(cache)@.len() - removed,
            to_remove <= old(cache)@.len(),
            to_remove == evict_count(old(cache)@.len(), max_entries as nat),
            without_oldest(cache@, (to_remove - removed) as nat) == evicted(
                old(cache)@,
                max_entries as nat,
            ),
        decreases to_remove - removed,
    {
        let at = find_oldest(cache);
        cache.remove(at);
        removed = removed + 1;
    }
}

/// No key stands in two entries.
pub open spec fn distinct_keys<K: CacheKey, V>(entries: Seq<CacheEntry<K, V>>) -> bool {
    forall|i: int, j: int| 0 <= i < j < entries.len() ==> entries[i].key@ != entries[j].key@
}

/// Where the first entry for `key` stands, looking from `from` on; the
/// number of entries where there is none.
pub open spec fn key_index<K: CacheKey, V>(
    entries: Seq<CacheEntry<K, V>>,
    key: K::V,
    from: int,
) -> int
    decreases entries.len() - from,
{
    if from >= entries.len() {
        entries.len() as int
    } else if entries[from].key@ == key {
        from
    } else {
        key_index(entries, key, from + 1)
    }
}

/// How many ticks ago an entry was inserted. An entry from the future is
/// new.
pub open spec fn age(inserted_at: u64, now: u64) -> nat {
    if now >= inserted_at {
        (now - inserted_at) as nat
    } else {
        0
    }
}

/// What a lookup of `key` at the time `now` finds: the value of the entry
/// for that key, if there is one and it is younger than `ttl`.
pub open spec fn found<K: CacheKey, V>(
    entries: Seq<CacheEntry<K, V>>,
    key: K::V,
    now: u64,
    ttl: u64,
) -> Option<V> {
    let at = key_index(entries, key, 0);
    if at < entries.len() && age(entries[at].inserted_at, now) < ttl {
        Some(entries[at].value)
    } else {
        None
    }
}

/// The entries without the one for `key`.
pub open spec fn without_key<K: CacheKey, V>(entries: Seq<CacheEntry<K, V>>, key: K::V) -> Seq<
    CacheEntry<K, V>,
> {
    let at = key_index(entries, key, 0);
    if at < entries.len() {
        entries.remove(at)
    } else {
        entries
    }
}

/// The entries after an insertion at the time `now`: room is made first,
/// whether or not the key is already there; then an entry for the same key
/// leaves; then the new entry goes to the end.
pub open spec fn inserted<K: CacheKey, V>(
    entries: Seq<CacheEntry<K, V>>,
    capacity: nat,
    key: K,
    value: V,
    now: u64,
) -> Seq<CacheEntry<K, V>> {
    without_key(evicted(entries, capacity), key@).push(
        CacheEntry { key, value, inserted_at: now },
    )
}

/// The most entries that a cache of the given capacity ever holds. A cache
/// of capacity zero still holds the entry that was inserted last.
pub open spec fn room(capacity: nat) -> nat {
    if capacity == 0 {
        1
    } else {
        capacity
    }
}

/// The first entry for a key, if any, is where `key_index` says, and no
/// entry before it is for that key.
pub proof fn lemma_key_index<K: CacheKey, V>(
    entries: Seq<CacheEntry<K, V>>,
    key: K::V,
    from: int,
)
    requires
        0 <= from <= entries.len(),
    ensures
        from <= key_index(entries, key, from) <= entries.len(),
        key_index(entries, key, from) < entries.len() ==> entries[key_index(
            entries,
            key,
            from,
        )].key@ == key,
        forall|i: int| from <= i < key_index(entries, key, from) ==> entries[i].key@ != key,
    decreases entries.len() - from,
{
    if from < entries.len() && entries[from].key@ != key {
        lemma_key_index(entries, key, from + 1);
    }
}

/// Taking an entry away leaves the keys distinct.
pub proof fn lemma_remove_keeps_distinct<K: CacheKey, V>(
    entries: Seq<CacheEntry<K, V>>,
    at: int,
)
    requires
        distinct_keys(entries),
        0 <= at < entries.len(),
    ensures
        distinct_keys(entries.remove(at)),
        forall|i: int|
            0 <= i < entries.remove(at).len() ==> (#[trigger] entries.remove(at)[i]).key@
                != entries[at].key@,
{
    let rest = entries.remove(at);
    assert forall|i: int, j: int| 0 <= i < j < rest.len() implies rest[i].key@
        != rest[j].key@ by {
        let from_i = if i < at {
            i
        } else {
            i + 1
        };
        let from_j = if j < at {
            j
        } else {
            j + 1
        };
        assert(rest[i] == entries[from_i] && rest[j] == entries[from_j]);
    }
    assert forall|i: int| 0 <= i < rest.len() implies (#[trigger] rest[i]).key@
        != entries[at].key@ by {
        let from_i = if i < at {
            i
        } else {
            i + 1
        };
        assert(rest[i] == entries[from_i]);
    }
}

/// Taking the oldest entries away leaves the keys distinct.
pub proof fn lemma_without_oldest_keeps_distinct<K: CacheKey, V>(
    entries: Seq<CacheEntry<K, V>>,
    count: nat,
)
    requires
        distinct_keys(entries),
    ensures
        distinct_keys(without_oldest(entries, count)),
    decreases count,
{
    if count > 0 && entries.len() > 0 {
        lemma_oldest_is_oldest(entries);
        lemma_remove_keeps_distinct(entries, oldest_index(entries));
        lemma_without_oldest_keeps_distinct(
            entries.remove(oldest_index(entries)),
            (count - 1) as nat,
        );
    }
}

/// An insertion leaves the keys distinct and the cache within its room.
pub proof fn lemma_inserted_is_sound<K: CacheKey, V>(
    entries: Seq<CacheEntry<K, V>>,
    capacity: nat,
    key: K,
    value: V,
    now: u64,
)
    requires
        distinct_keys(entries),
    ensures
        distinct_keys(inserted(entries, capacity, key, value, now)),
        inserted(entries, capacity, key, value, now).len() <= if entries.len() < capacity {
            entries.len() + 1
        } else {
            room(capacity)
        },
{
    let kept = evicted(entries, capacity);
    lemma_without_oldest_keeps_distinct(entries, evict_count(entries.len(), capacity));
    lemma_without_oldest_len(entries, evict_count(entries.len(), capacity));
    lemma_key_index(kept, key@, 0);
    let rest = without_key(kept, key@);
    let at = key_index(kept, key@, 0);
    if at < kept.len() {
        lemma_remove_keeps_distinct(kept, at);
    } else {
        assert forall|i: int| 0 <= i < rest.len() implies (#[trigger] rest[i]).key@ != key@ by {}
    }
    let after = inserted(entries, capacity, key, value, now);
    assert forall|i: int, j: int| 0 <= i < j < after.len() implies after[i].key@
        != after[j].key@ by {
        if j < rest.len() {
            assert(after[i] == rest[i] && after[j] == rest[j]);
        } else {
            assert(after[i] == rest[i]);
        }
    }
}

/// After an insertion the new entry comes last, and every other entry was
/// there before.
pub proof fn lemma_inserted_entries<K: CacheKey, V>(
    entries: Seq<CacheEntry<K, V>>,
    capacity: nat,
    key: K,
    value: V,
    now: u64,
)
    ensures
        inserted(entries, capacity, key, value, now).len() > 0,
        inserted(entries, capacity, key, value, now).last() == (CacheEntry {
            key,
            value,
            inserted_at: now,
        }),
        forall|i: int|
            0 <= i < inserted(entries, capacity, key, value, now).len() - 1 ==> entries.contains(
                #[trigger] inserted(entries, capacity, key, value, now)[i],
            ),
{
    let kept = evicted(entries, capacity);
    let rest = without_key(kept, key@);
    let after = inserted(entries, capacity, key, value, now);
    lemma_without_oldest_keeps(entries, evict_count(entries.len(), capacity));
    lemma_key_index(kept, key@, 0);
    let gone = key_index(kept, key@, 0);
    assert forall|i: int| 0 <= i < after.len() - 1 implies entries.contains(
        #[trigger] after[i],
    ) by {
        assert(after[i] == rest[i]);
        let from = if gone < kept.len() && i >= gone {
            i + 1
        } else {
            i
        };
        assert(rest[i] == kept[from]);
        assert(entries.contains(kept[from]));
    }
}

/// Among distinct keys, the entry for a key is the first and only one.
pub proof fn lemma_key_index_unique<K: CacheKey, V>(entries: Seq<CacheEntry<K, V>>, at: int)
    requires
        distinct_keys(entries),
        0 <= at < entries.len(),
    ensures
        key_index(entries, entries[at].key@, 0) == at,
{
    lemma_key_index(entries, entries[at].key@, 0);
    let first = key_index(entries, entries[at].key@, 0);
    if first < at {
        assert(entries[first].key@ != entries[at].key@);
    }
}

/// A key that no entry holds is not found.
pub proof fn lemma_key_absent<K: CacheKey, V>(entries: Seq<CacheEntry<K, V>>, key: K::V)
    requires
        forall|i: int| 0 <= i < entries.len() ==> (#[trigger] entries[i]).key@ != key,
    ensures
        key_index(entries, key, 0) == entries.len(),
{
    lemma_key_index(entries, key, 0);
}

/// After its insertion a value is found under its key while fewer than
/// `ttl` ticks have passed, and no longer from then on, though the cache
/// still holds it.
pub proof fn lemma_found_after_insert<K: CacheKey, V>(
    entries: Seq<CacheEntry<K, V>>,
    capacity: nat,
    key: K,
    value: V,
    inserted_at: u64,
    now: u64,
    ttl: u64,
)
    requires
        distinct_keys(entries),
    ensures
        found(inserted(entries, capacity, key, value, inserted_at), key@, now, ttl) == if age(
            inserted_at,
            now,
        ) < ttl {
            Some(value)
        } else {
            None
        },
        now - inserted_at >= ttl ==> found(
            inserted(entries, capacity, key, value, inserted_at),
            key@,
            now,
            ttl,
        ) is None,
{
    let after = inserted(entries, capacity, key, value, inserted_at);
    lemma_inserted_is_sound(entries, capacity, key, value, inserted_at);
    let last = after.len() - 1;
    assert(after[last].key@ == key@);
    lemma_key_index_unique(after, last);
}

/// An insertion for which nothing has to leave keeps what is found under
/// every other key.
pub proof fn lemma_insert_keeps_others<K: CacheKey, V>(
    entries: Seq<CacheEntry<K, V>>,
    capacity: nat,
    key: K,
    value: V,
    inserted_at: u64,
    other: K::V,
    now: u64,
    ttl: u64,
)
    requires
        distinct_keys(entries),
        entries.len() < capacity,
        other != key@,
    ensures
        found(inserted(entries, capacity, key, value, inserted_at), other, now, ttl) == found(
            entries,
            other,
            now,
            ttl,
        ),
{
    let after = inserted(entries, capacity, key, value, inserted_at);
    lemma_inserted_is_sound(entries, capacity, key, value, inserted_at);
    assert(evicted(entries, capacity) == entries);
    lemma_key_index(entries, key@, 0);
    lemma_key_index(entries, other, 0);
    lemma_key_index(after, other, 0);
    let gone = key_index(entries, key@, 0);
    let before = key_index(entries, other, 0);
    let rest = without_key(entries, key@);
    if before < entries.len() {
        let moved = if gone < before {
            before - 1
        } else {
            before
        };
        assert(rest[moved] == entries[before]);
        assert(after[moved] == entries[before]);
        lemma_key_index_unique(after, moved);
    } else {
        assert forall|i: int| 0 <= i < after.len() implies (#[trigger] after[i]).key@
            != other by {
            if i < rest.len() {
                let from = if gone < entries.len() && i >= gone {
                    i + 1
                } else {
                    i
                };
                assert(after[i] == entries[from]);
            }
        }
        lemma_key_absent(after, other);
    }
}

/// Inserting a new key into a cache that is full leaves it full: the oldest
/// entry leaves, which is no newer than any other, every other entry stays
/// in its order, and the new entry comes last.
pub proof fn lemma_insert_into_full<K: CacheKey, V>(
    entries: Seq<CacheEntry<K, V>>,
    capacity: nat,
    key: K,
    value: V,
    now: u64,
)
    requires
        capacity >= 1,
        entries.len() == capacity,
        forall|i: int| 0 <= i < entries.len() ==> (#[trigger] entries[i]).key@ != key@,
    ensures
        inserted(entries, capacity, key, value, now) == entries.remove(
            oldest_index(entries),
        ).push(CacheEntry { key, value, inserted_at: now }),
        inserted(entries, capacity, key, value, now).len() == capacity,
        0 <= oldest_index(entries) < entries.len(),
        forall|i: int|
            0 <= i < entries.len() ==> entries[oldest_index(entries)].inserted_at
                <= #[trigger] entries[i].inserted_at,
{
    lemma_oldest_is_oldest(entries);
    let at = oldest_index(entries);
    let kept = entries.remove(at);
    assert(evicted(entries, capacity) == kept) by {
        assert(evict_count(entries.len(), capacity) == 1);
        assert(without_oldest(kept, 0) == kept);
    }
    assert forall|i: int| 0 <= i < kept.len() implies (#[trigger] kept[i]).key@ != key@ by {
        let from = if i < at {
            i
        } else {
            i + 1
        };
        assert(kept[i] == entries[from]);
    }
    lemma_key_absent(kept, key@);
}

/// Inserting a new key into a cache that is not full adds one entry at the
/// end and takes none away.
pub proof fn lemma_insert_with_room<K: CacheKey, V>(
    entries: Seq<CacheEntry<K, V>>,
    capacity: nat,
    key: K,
    value: V,
    now: u64,
)
    requires
        entries.len() < capacity,
        forall|i: int| 0 <= i < entries.len() ==> (#[trigger] entries[i]).key@ != key@,
    ensures
        inserted(entries, capacity, key, value, now) == entries.push(
            CacheEntry { key, value, inserted_at: now },
        ),
{
    assert(evicted(entries, capacity) == entries);
    lemma_key_absent(entries, key@);
}

/// The entries after the insertions `items` were made one after the other,
/// each a key, a value and the time of the insertion.
pub open spec fn inserted_all<K: CacheKey, V>(
    entries: Seq<CacheEntry<K, V>>,
    capacity: nat,
    items: Seq<(K, V, u64)>,
) -> Seq<CacheEntry<K, V>>
    decreases items.len(),
{
    if items.len() == 0 {
        entries
    } else {
        let (key, value, now) = items.last();
        inserted(inserted_all(entries, capacity, items.drop_last()), capacity, key, value, now)
    }
}

/// Inserting distinct keys into an empty cache fills it up to its capacity
/// and no further: `capacity + 1` insertions, or more, leave exactly
/// `capacity` entries. Every key that is held is one of those inserted.
pub proof fn lemma_fill_stops_at_capacity<K: CacheKey, V>(capacity: nat, items: Seq<(K, V, u64)>)
    requires
        capacity >= 1,
        forall|i: int, j: int| 0 <= i < j < items.len() ==> items[i].0@ != items[j].0@,
    ensures
        inserted_all(Seq::<CacheEntry<K, V>>::empty(), capacity, items).len() == if items.len()
            <= capacity {
            items.len()
        } else {
            capacity
        },
        forall|i: int|
            0 <= i < inserted_all(Seq::<CacheEntry<K, V>>::empty(), capacity, items).len()
                ==> exists|j: int|
                0 <= j < items.len() && items[j].0@ == (#[trigger] inserted_all(
                    Seq::<CacheEntry<K, V>>::empty(),
                    capacity,
                    items,
                )[i]).key@,
    decreases items.len(),
{
    let empty = Seq::<CacheEntry<K, V>>::empty();
    let after = inserted_all(empty, capacity, items);
    if items.len() > 0 {
        let front = items.drop_last();
        let before = inserted_all(empty, capacity, front);
        let (key, value, now) = items.last();
        assert forall|i: int, j: int| 0 <= i < j < front.len() implies front[i].0@
            != front[j].0@ by {
            assert(front[i] == items[i] && front[j] == items[j]);
        }
        lemma_fill_stops_at_capacity(capacity, front);
        assert forall|i: int| 0 <= i < before.len() implies (#[trigger] before[i]).key@
            != key@ by {
            let j = choose|j: int| 0 <= j < front.len() && front[j].0@ == before[i].key@;
            assert(front[j] == items[j]);
            assert(items[j].0@ != items[items.len() - 1].0@);
        }
        let entry = CacheEntry { key, value, inserted_at: now };
        if before.len() < capacity {
            lemma_insert_with_room(before, capacity, key, value, now);
            assert(after == before.push(entry));
        } else {
            lemma_insert_into_full(before, capacity, key, value, now);
            assert(after == before.remove(oldest_index(before)).push(entry));
        }
        assert forall|i: int| 0 <= i < after.len() implies exists|j: int|
            0 <= j < items.len() && items[j].0@ == (#[trigger] after[i]).key@ by {
            if i == after.len() - 1 {
                assert(after[i] == entry);
                assert(items[items.len() - 1].0@ == after[i].key@);
            } else {
                let from = if before.len() < capacity || i < oldest_index(before) {
                    i
                } else {
                    i + 1
                };
                assert(after[i] == before[from]);
                let j = choose|j: int| 0 <= j < front.len() && front[j].0@ == before[from].key@;
                assert(front[j] == items[j]);
            }
        }
    }
}

/// A cache that holds no more entries than its capacity, each of which is
/// live for `ttl` ticks after its insertion. A cache of capacity zero holds
/// the one entry that was inserted last.
pub struct BoundedTtlCache<K: CacheKey, V> {
    entries: Vec<CacheEntry<K, V>>,
    capacity: usize,
    ttl: u64,
}

impl<K: CacheKey, V> View for BoundedTtlCache<K, V> {
    type V = Seq<CacheEntry<K, V>>;

    /// The entries, in the order of their insertion.
    closed spec fn view(&self) -> Seq<CacheEntry<K, V>> {
        self.entries@
    }
}

impl<K: CacheKey, V> BoundedTtlCache<K, V> {
    #[verifier::type_invariant]
    spec fn sound(self) -> bool {
        distinct_keys(self.entries@) && self.entries@.len() <= room(self.capacity as nat)
    }

    /// The capacity that the cache was made with.
    pub closed spec fn spec_capacity(&self) -> usize {
        self.capacity
    }

    /// The time to live that the cache was made with.
    pub closed spec fn spec_ttl(&self) -> u64 {
        self.ttl
    }

    /// An empty cache.
    pub fn new(capacity: usize, ttl: u64) -> (cache: Self)
        ensures
            cache@ == Seq::<CacheEntry<K, V>>::empty(),
            cache.capacity() == capacity,
            cache.ttl() == ttl,
    {
        BoundedTtlCache { entries: Vec::new(), capacity, ttl }
    }

    /// The capacity that the cache was made with.
    #[verifier::when_used_as_spec(spec_capacity)]
    pub fn capacity(&self) -> (capacity: usize)
        ensures
            capacity == self.capacity(),
    {
        self.capacity
    }

    /// The time to live that the cache was made with.
    #[verifier::when_used_as_spec(spec_ttl)]
    pub fn ttl(&self) -> (ttl: u64)
        ensures
            ttl == self.ttl(),
    {
        self.ttl
    }

    /// The number of entries held, live or not. No key stands in two of
    /// them, and they are no more than the cache has room for.
    pub fn len(&self) -> (len: usize)
        ensures
            len == self@.len(),
            len <= room(self.capacity() as nat),
            distinct_keys(self@),
    {
        proof {
            use_type_invariant(self);
        }
        self.entries.len()
    }

    /// Looks `key` up at the time `now`. An entry that was inserted `ttl`
    /// ticks ago or earlier is not found, though it may still be held.
    pub fn get(&self, key: &K, now: u64) -> (value: Option<&V>)
        ensures
            match found(self@, key@, now, self.ttl()) {
                Some(held) => value == Some(&held),
                None => value is None,
            },
            forall|i: int|
                0 <= i < self@.len() && (#[trigger] self@[i]).key@ == key@ && now
                    - self@[i].inserted_at >= self.ttl() ==> value is None,
    {
        proof {
            use_type_invariant(self);
            lemma_key_index(self@, key@, 0);
        }
        let mut i: usize = 0;
        while i < self.entries.len()
            invariant
                i <= self.entries@.len(),
                distinct_keys(self.entries@),
                key_index(self.entries@, key@, 0) == key_index(self.entries@, key@, i as int),
            decreases self.entries@.len() - i,
        {
            if self.entries[i].key.same_key(key) {
                let age: u64 = if now >= self.entries[i].inserted_at {
                    now - self.entries[i].inserted_at
                } else {
                    0
                };
                if age < self.ttl {
                    proof {
                        let at = i as int;
                        assert forall|j: int|
                            0 <= j < self@.len() && (#[trigger] self@[j]).key@ == key@ implies j
                            == at by {
                            if j < at {
                                assert(self@[j].key@ != self@[at].key@);
                            } else if at < j {
                                assert(self@[at].key@ != self@[j].key@);
                            }
                        }
                    }
                    return Some(&self.entries[i].value);
                } else {
                    return None;
                }
            }
            i = i + 1;
        }
        None
    }

    /// Inserts `value` for `key` at the time `now`. Where the cache is full,
    /// the oldest entry leaves first, whatever its key. An entry for the
    /// same key is replaced.
    pub fn insert(&mut self, key: K, value: V, now: u64)
        ensures
            final(self)@ == inserted(old(self)@, old(self).capacity() as nat, key, value, now),
            final(self).capacity() == old(self).capacity(),
            final(self).ttl() == old(self).ttl(),
            final(self)@.len() <= room(old(self).capacity() as nat),
            distinct_keys(final(self)@),
    {
        proof {
            use_type_invariant(&*self);
            lemma_inserted_is_sound(self@, self.capacity as nat, key, value, now);
        }
        let mut entries: Vec<CacheEntry<K, V>> = Vec::new();
        std::mem::swap(&mut entries, &mut self.entries);
        enforce_cache_limit(&mut entries, self.capacity);
        let mut i: usize = 0;
        let mut searching: bool = true;
        while searching && i < entries.len()
            invariant
                i <= entries@.len(),
                searching ==> key_index(entries@, key@, 0) == key_index(entries@, key@, i as int),
                searching ==> entries@ == evicted(old(self)@, old(self).capacity() as nat),
                !searching ==> entries@ == without_key(
                    evicted(old(self)@, old(self).capacity() as nat),
                    key@,
                ),
            decreases entries@.len() - i + if searching { 1nat } else { 0nat },
        {
            if entries[i].key.same_key(&key) {
                entries.remove(i);
                searching = false;
            } else {
                i = i + 1;
            }
        }
        entries.push(CacheEntry { key, value, inserted_at: now });
        self.entries = entries;
    }
}

} // verus!
