//! Deduplication of observed certificates.
//!
//! A cache of bounded size remembers the fingerprints that were seen, and forgets the one
//! that was not seen for the longest time when it is full. Only certificates whose
//! fingerprint is not in the cache are forwarded.

use vstd::prelude::*;
use crate::prometheus::{count_up, next_count};
use crate::time::Timestamp;

verus! {

/// Fingerprints that the cache holds unless configured otherwise.
pub const DEFAULT_CACHE_CAPACITY: usize = 100_000;

// ---------------------------------------------------------------------------
// The cache
// ---------------------------------------------------------------------------

/// `lru::LruCache`: a map of bounded size that forgets the least recently used key.
#[verifier::external_type_specification]
#[verifier::external_body]
#[verifier::reject_recursive_types(K)]
#[verifier::reject_recursive_types(V)]
#[verifier::reject_recursive_types(S)]
pub struct ExLruCache<K, V, S>(lru::LruCache<K, V, S>);

/// `lru::DefaultHasher`: the hasher of a cache that names none.
#[verifier::external_type_specification]
#[verifier::external_body]
pub struct ExDefaultHasher(lru::DefaultHasher);

/// What an `lru::LruCache` holds: its keys and values, the most recently used first.
pub uninterp spec fn cache_entries(cache: lru::LruCache<[u8; 32], i64>) -> Seq<(Seq<u8>, i64)>;

/// How many entries an `lru::LruCache` was made for.
pub uninterp spec fn cache_capacity(cache: lru::LruCache<[u8; 32], i64>) -> nat;

/// Some entry has the key.
pub open spec fn has_key(entries: Seq<(Seq<u8>, i64)>, key: Seq<u8>) -> bool {
    exists|i: int| 0 <= i < entries.len() && (#[trigger] entries[i]).0 == key
}

/// The entries without those of the given key.
pub open spec fn without(entries: Seq<(Seq<u8>, i64)>, key: Seq<u8>) -> Seq<(Seq<u8>, i64)>
    decreases entries.len(),
{
    if entries.len() == 0 {
        Seq::empty()
    } else if entries.last().0 == key {
        without(entries.drop_last(), key)
    } else {
        without(entries.drop_last(), key).push(entries.last())
    }
}

/// The entries after a value was put under a key: the key comes first, and where it is new
/// and the cache is full, the last entry leaves.
pub open spec fn after_put(
    entries: Seq<(Seq<u8>, i64)>,
    capacity: nat,
    key: Seq<u8>,
    value: i64,
) -> Seq<(Seq<u8>, i64)> {
    if has_key(entries, key) {
        seq![(key, value)] + without(entries, key)
    } else if entries.len() == capacity {
        seq![(key, value)] + entries.drop_last()
    } else {
        seq![(key, value)] + entries
    }
}

/// The entries after the value of a key was looked up: the key comes first, where there is
/// one.
pub open spec fn after_lookup(entries: Seq<(Seq<u8>, i64)>, key: Seq<u8>) -> Seq<(Seq<u8>, i64)> {
    if has_key(entries, key) {
        seq![(key, value_of(entries, key))] + without(entries, key)
    } else {
        entries
    }
}

/// The value of a key.
pub open spec fn value_of(entries: Seq<(Seq<u8>, i64)>, key: Seq<u8>) -> i64 {
    entries[choose|i: int| 0 <= i < entries.len() && (#[trigger] entries[i]).0 == key].1
}

/// No key occurs twice.
pub open spec fn distinct_keys(entries: Seq<(Seq<u8>, i64)>) -> bool {
    forall|i: int, j: int|
        0 <= i < j < entries.len() ==> (#[trigger] entries[i]).0 != (#[trigger] entries[j]).0
}

/// `lru::LruCache::new`: an empty cache for `capacity` entries. The bound keeps the size of
/// the table, which is allocated at once, within what can be addressed.
#[verifier::external_body]
fn new_cache(capacity: usize) -> (r: lru::LruCache<[u8; 32], i64>)
    requires
        0 < capacity <= usize::MAX / 256,
    ensures
        cache_entries(r) == Seq::<(Seq<u8>, i64)>::empty(),
        cache_capacity(r) == capacity,
{
    lru::LruCache::new(std::num::NonZeroUsize::new(capacity).unwrap())
}

/// `lru::LruCache::put`: puts a value under a key, which becomes the most recently used.
/// Where the key is new and the cache is full, the least recently used entry leaves.
#[verifier::external_body]
fn put(cache: &mut lru::LruCache<[u8; 32], i64>, key: [u8; 32], value: i64)
    ensures
        cache_entries(*final(cache)) == after_put(
            cache_entries(*old(cache)),
            cache_capacity(*old(cache)),
            key@,
            value,
        ),
        cache_capacity(*final(cache)) == cache_capacity(*old(cache)),
{
    cache.put(key, value);
}

/// `lru::LruCache::get`: looks up the value of a key, which becomes the most recently used.
#[verifier::external_body]
fn get(cache: &mut lru::LruCache<[u8; 32], i64>, key: &[u8; 32]) -> (r: Option<i64>)
    ensures
        r is Some <==> has_key(cache_entries(*old(cache)), key@),
        r matches Some(v) ==> v == value_of(cache_entries(*old(cache)), key@),
        cache_entries(*final(cache)) == after_lookup(cache_entries(*old(cache)), key@),
        cache_capacity(*final(cache)) == cache_capacity(*old(cache)),
{
    cache.get(key).copied()
}

/// `lru::LruCache::len`: the number of entries.
#[verifier::external_body]
fn len(cache: &lru::LruCache<[u8; 32], i64>) -> (r: usize)
    ensures
        r == cache_entries(*cache).len(),
{
    cache.len()
}

/// `lru::LruCache::cap`: the number of entries that the cache was made for.
#[verifier::external_body]
fn cap(cache: &lru::LruCache<[u8; 32], i64>) -> (r: usize)
    ensures
        r == cache_capacity(*cache),
{
    cache.cap().get()
}

// ---------------------------------------------------------------------------
// Facts about entries
// ---------------------------------------------------------------------------

proof fn lemma_without(entries: Seq<(Seq<u8>, i64)>, key: Seq<u8>)
    ensures
        !has_key(without(entries, key), key),
        forall|k: Seq<u8>|
            k != key ==> has_key(without(entries, key), k) == #[trigger] has_key(entries, k),
        !has_key(entries, key) ==> without(entries, key) == entries,
        without(entries, key).len() <= entries.len(),
        has_key(entries, key) ==> without(entries, key).len() < entries.len(),
        distinct_keys(entries) ==> distinct_keys(without(entries, key)),
        distinct_keys(entries) && has_key(entries, key) ==> without(entries, key).len()
            == entries.len() - 1,
    decreases entries.len(),
{
    if entries.len() > 0 {
        let rest = entries.drop_last();
        let last = entries.last();
        lemma_without(rest, key);
        assert(rest.push(last) =~= entries);
        assert forall|k: Seq<u8>| #[trigger] has_key(entries, k) == (has_key(rest, k) || last.0
            == k) by {
            lemma_has_key_push(rest, last, k);
        }
        if last.0 != key {
            let w = without(rest, key);
            assert forall|k: Seq<u8>| #[trigger] has_key(w.push(last), k) == (has_key(w, k)
                || last.0 == k) by {
                lemma_has_key_push(w, last, k);
            }
            if distinct_keys(entries) {
                lemma_distinct_prefix(entries);
                assert(!has_key(rest, last.0));
                lemma_distinct_push(w, last);
            }
        } else if distinct_keys(entries) {
            lemma_distinct_prefix(entries);
            assert(!has_key(rest, key));
        }
    }
}

proof fn lemma_has_key_push(entries: Seq<(Seq<u8>, i64)>, entry: (Seq<u8>, i64), key: Seq<u8>)
    ensures
        has_key(entries.push(entry), key) == (has_key(entries, key) || entry.0 == key),
{
    let all = entries.push(entry);
    if has_key(entries, key) {
        let i = choose|i: int| 0 <= i < entries.len() && (#[trigger] entries[i]).0 == key;
        assert(all[i].0 == key);
    }
    if entry.0 == key {
        assert(all[entries.len() as int].0 == key);
    }
    if has_key(all, key) {
        let i = choose|i: int| 0 <= i < all.len() && (#[trigger] all[i]).0 == key;
        if i < entries.len() {
            assert(entries[i].0 == key);
        }
    }
}

proof fn lemma_has_key_front(entries: Seq<(Seq<u8>, i64)>, entry: (Seq<u8>, i64), key: Seq<u8>)
    ensures
        has_key(seq![entry] + entries, key) == (has_key(entries, key) || entry.0 == key),
{
    let all = seq![entry] + entries;
    if has_key(entries, key) {
        let i = choose|i: int| 0 <= i < entries.len() && (#[trigger] entries[i]).0 == key;
        assert(all[i + 1].0 == key);
    }
    if entry.0 == key {
        assert(all[0].0 == key);
    }
    if has_key(all, key) {
        let i = choose|i: int| 0 <= i < all.len() && (#[trigger] all[i]).0 == key;
        if i > 0 {
            assert(entries[i - 1].0 == key);
        }
    }
}

proof fn lemma_distinct_prefix(entries: Seq<(Seq<u8>, i64)>)
    requires
        distinct_keys(entries),
        entries.len() > 0,
    ensures
        distinct_keys(entries.drop_last()),
        !has_key(entries.drop_last(), entries.last().0),
{
    let rest = entries.drop_last();
    assert forall|i: int, j: int| 0 <= i < j < rest.len() implies (#[trigger] rest[i]).0 != (
    #[trigger] rest[j]).0 by {
        assert(entries[i].0 != entries[j].0);
    }
    if has_key(rest, entries.last().0) {
        let i = choose|i: int| 0 <= i < rest.len() && (#[trigger] rest[i]).0 == entries.last().0;
        assert(entries[i].0 != entries[entries.len() - 1].0);
    }
}

proof fn lemma_distinct_push(entries: Seq<(Seq<u8>, i64)>, entry: (Seq<u8>, i64))
    requires
        distinct_keys(entries),
        !has_key(entries, entry.0),
    ensures
        distinct_keys(entries.push(entry)),
{
    let all = entries.push(entry);
    assert forall|i: int, j: int| 0 <= i < j < all.len() implies (#[trigger] all[i]).0 != (
    #[trigger] all[j]).0 by {
        assert(entries[i].0 == all[i].0);
        if j < entries.len() {
            assert(entries[j].0 == all[j].0);
        }
    }
}

proof fn lemma_distinct_front(entries: Seq<(Seq<u8>, i64)>, entry: (Seq<u8>, i64))
    requires
        distinct_keys(entries),
        !has_key(entries, entry.0),
    ensures
        distinct_keys(seq![entry] + entries),
{
    let all = seq![entry] + entries;
    assert forall|i: int, j: int| 0 <= i < j < all.len() implies (#[trigger] all[i]).0 != (
    #[trigger] all[j]).0 by {
        assert(entries[j - 1].0 == all[j].0);
        if i > 0 {
            assert(entries[i - 1].0 == all[i].0);
        }
    }
}

/// Putting a value keeps the keys distinct and the number of entries within the capacity.
pub proof fn put_keeps_bounds(
    entries: Seq<(Seq<u8>, i64)>,
    capacity: nat,
    key: Seq<u8>,
    value: i64,
)
    requires
        distinct_keys(entries),
        entries.len() <= capacity,
        capacity >= 1,
    ensures
        distinct_keys(after_put(entries, capacity, key, value)),
        after_put(entries, capacity, key, value).len() <= capacity,
        after_put(entries, capacity, key, value)[0] == (key, value),
{
    lemma_without(entries, key);
    if has_key(entries, key) {
        lemma_distinct_front(without(entries, key), (key, value));
    } else if entries.len() == capacity {
        lemma_distinct_prefix(entries);
        let rest = entries.drop_last();
        assert(!has_key(rest, key)) by {
            if has_key(rest, key) {
                let i = choose|i: int| 0 <= i < rest.len() && (#[trigger] rest[i]).0 == key;
                assert(entries[i].0 == key);
            }
        }
        lemma_distinct_front(rest, (key, value));
    } else {
        lemma_distinct_front(entries, (key, value));
    }
}

/// After a value was put the key is there. As long as the key was there or the cache was not
/// full, every other key stays.
pub proof fn put_is_seen(
    entries: Seq<(Seq<u8>, i64)>,
    capacity: nat,
    key: Seq<u8>,
    value: i64,
    other: Seq<u8>,
)
    ensures
        has_key(after_put(entries, capacity, key, value), key),
        has_key(entries, key) || entries.len() != capacity ==> has_key(
            after_put(entries, capacity, key, value),
            other,
        ) == (other == key || has_key(entries, other)),
{
    lemma_without(entries, key);
    assert(after_put(entries, capacity, key, value)[0].0 == key);
    if has_key(entries, key) {
        lemma_has_key_front(without(entries, key), (key, value), other);
    } else if entries.len() != capacity {
        lemma_has_key_front(entries, (key, value), other);
    }
}

/// Where a new key comes into a full cache, the least recently used entry leaves and every
/// other one stays.
pub proof fn full_cache_forgets_oldest(
    entries: Seq<(Seq<u8>, i64)>,
    capacity: nat,
    key: Seq<u8>,
    value: i64,
    i: int,
)
    requires
        distinct_keys(entries),
        entries.len() == capacity,
        capacity >= 1,
        !has_key(entries, key),
        0 <= i < entries.len(),
    ensures
        has_key(after_put(entries, capacity, key, value), entries[i].0) <==> i < entries.len() - 1,
{
    let rest = entries.drop_last();
    lemma_has_key_front(rest, (key, value), entries[i].0);
    assert(entries[i].0 != key);
    if i < entries.len() - 1 {
        assert(rest[i].0 == entries[i].0);
    } else {
        lemma_distinct_prefix(entries);
    }
}

/// Looking a key up and then putting a value under it is the same as only putting it.
proof fn lemma_lookup_then_put(
    entries: Seq<(Seq<u8>, i64)>,
    capacity: nat,
    key: Seq<u8>,
    value: i64,
)
    ensures
        after_put(after_lookup(entries, key), capacity, key, value) == after_put(
            entries,
            capacity,
            key,
            value,
        ),
{
    if has_key(entries, key) {
        let w = without(entries, key);
        lemma_without(entries, key);
        let looked = after_lookup(entries, key);
        assert(looked[0].0 == key);
        assert(has_key(looked, key));
        lemma_without_front(w, (key, value_of(entries, key)));
    }
}

proof fn lemma_without_front(entries: Seq<(Seq<u8>, i64)>, entry: (Seq<u8>, i64))
    requires
        !has_key(entries, entry.0),
    ensures
        without(seq![entry] + entries, entry.0) == entries,
    decreases entries.len(),
{
    let all = seq![entry] + entries;
    if entries.len() == 0 {
        assert(all.drop_last() =~= entries);
        assert(without(all.drop_last(), entry.0) =~= entries);
    } else {
        let rest = entries.drop_last();
        assert(all.drop_last() =~= seq![entry] + rest);
        assert(!has_key(rest, entry.0)) by {
            if has_key(rest, entry.0) {
                let i = choose|i: int| 0 <= i < rest.len() && (#[trigger] rest[i]).0 == entry.0;
                assert(entries[i].0 == entry.0);
            }
        }
        lemma_without_front(rest, entry);
        assert(entries[entries.len() - 1].0 != entry.0);
        assert(rest.push(entries.last()) =~= entries);
    }
}

// ---------------------------------------------------------------------------
// Sequences of observations
// ---------------------------------------------------------------------------

/// The entries after the given fingerprints were seen at the given times, one after the other.
pub open spec fn after_all(
    entries: Seq<(Seq<u8>, i64)>,
    capacity: nat,
    seen: Seq<(Seq<u8>, i64)>,
) -> Seq<(Seq<u8>, i64)>
    decreases seen.len(),
{
    if seen.len() == 0 {
        entries
    } else {
        after_put(
            after_all(entries, capacity, seen.drop_last()),
            capacity,
            seen.last().0,
            seen.last().1,
        )
    }
}

/// How many of the given fingerprints are new when they are seen one after the other.
pub open spec fn new_count(
    entries: Seq<(Seq<u8>, i64)>,
    capacity: nat,
    seen: Seq<(Seq<u8>, i64)>,
) -> nat
    decreases seen.len(),
{
    if seen.len() == 0 {
        0
    } else {
        new_count(entries, capacity, seen.drop_last()) + if has_key(
            after_all(entries, capacity, seen.drop_last()),
            seen.last().0,
        ) {
            0nat
        } else {
            1
        }
    }
}

/// The fingerprints that were seen.
pub open spec fn seen_fingerprints(seen: Seq<(Seq<u8>, i64)>) -> Set<Seq<u8>> {
    Seq::new(seen.len(), |i: int| seen[i].0).to_set()
}

proof fn lemma_seen_fingerprints(seen: Seq<(Seq<u8>, i64)>)
    ensures
        seen_fingerprints(seen).finite(),
        forall|k: Seq<u8>| #[trigger] seen_fingerprints(seen).contains(k) <==> has_key(seen, k),
        seen.len() > 0 ==> seen_fingerprints(seen) == seen_fingerprints(seen.drop_last()).insert(
            seen.last().0,
        ),
{
    let keys = Seq::new(seen.len(), |i: int| seen[i].0);
    vstd::seq_lib::seq_to_set_is_finite(keys);
    assert forall|k: Seq<u8>| #[trigger] seen_fingerprints(seen).contains(k) <==> has_key(seen, k) by {
        if has_key(seen, k) {
            let i = choose|i: int| 0 <= i < seen.len() && (#[trigger] seen[i]).0 == k;
            assert(keys[i] == k);
        }
        if keys.contains(k) {
            let i = choose|i: int| 0 <= i < keys.len() && keys[i] == k;
            assert(seen[i].0 == k);
        }
    }
    if seen.len() > 0 {
        let rest = seen.drop_last();
        let rest_keys = Seq::new(rest.len(), |i: int| rest[i].0);
        let last = seen.last().0;
        assert forall|k: Seq<u8>| keys.contains(k) <==> rest_keys.contains(k) || k == last by {
            if rest_keys.contains(k) {
                let i = choose|i: int| 0 <= i < rest_keys.len() && rest_keys[i] == k;
                assert(keys[i] == k);
            }
            if k == last {
                assert(keys[keys.len() - 1] == k);
            }
            if keys.contains(k) {
                let i = choose|i: int| 0 <= i < keys.len() && keys[i] == k;
                if i < rest_keys.len() {
                    assert(rest_keys[i] == k);
                }
            }
        }
        assert(seen_fingerprints(seen) =~= seen_fingerprints(rest).insert(last));
    }
}

/// As long as the cache can hold all fingerprints that occur, each is new exactly once: of
/// any number of observations as many are forwarded as there are different certificates.
pub proof fn forwarded_once_each(capacity: nat, seen: Seq<(Seq<u8>, i64)>)
    requires
        seen_fingerprints(seen).len() <= capacity,
    ensures
        new_count(Seq::empty(), capacity, seen) == seen_fingerprints(seen).len(),
        after_all(Seq::empty(), capacity, seen).len() == seen_fingerprints(seen).len(),
        distinct_keys(after_all(Seq::empty(), capacity, seen)),
        forall|k: Seq<u8>|
            has_key(after_all(Seq::empty(), capacity, seen), k) <==> #[trigger] seen_fingerprints(
                seen,
            ).contains(k),
    decreases seen.len(),
{
    lemma_seen_fingerprints(seen);
    if seen.len() == 0 {
        assert(seen_fingerprints(seen) =~= Set::<Seq<u8>>::empty());
    } else {
        let rest = seen.drop_last();
        let (last, time) = seen.last();
        lemma_seen_fingerprints(rest);
        forwarded_once_each(capacity, rest);
        let before = after_all(Seq::empty(), capacity, rest);
        assert(has_key(before, last) <==> seen_fingerprints(rest).contains(last));
        assert(seen_fingerprints(seen).contains(last));
        put_keeps_bounds(before, capacity, last, time);
        lemma_without(before, last);
        assert forall|k: Seq<u8>|
            has_key(after_all(Seq::empty(), capacity, seen), k) <==> #[trigger] seen_fingerprints(
                seen,
            ).contains(k) by {
            put_is_seen(before, capacity, last, time, k);
            assert(seen_fingerprints(rest).contains(k) <==> has_key(before, k));
        }
    }
}

/// The entries after stored fingerprints, the most recent first, were loaded from the last
/// to the first.
pub open spec fn after_reload(
    entries: Seq<(Seq<u8>, i64)>,
    capacity: nat,
    fps: Seq<Seq<u8>>,
    now: i64,
) -> Seq<(Seq<u8>, i64)>
    decreases fps.len(),
{
    if fps.len() == 0 {
        entries
    } else {
        after_put(after_reload(entries, capacity, fps.drop_first(), now), capacity, fps[0], now)
    }
}

/// Fingerprints loaded into an empty cache that can hold them all are there afterwards, in
/// the order in which they were stored: none of their certificates is new after a restart.
pub proof fn reload_restores_seen(capacity: nat, fps: Seq<Seq<u8>>, now: i64)
    requires
        fps.len() <= capacity,
        fps.no_duplicates(),
    ensures
        after_reload(Seq::empty(), capacity, fps, now) == Seq::new(
            fps.len(),
            |i: int| (fps[i], now),
        ),
        forall|i: int|
            0 <= i < fps.len() ==> has_key(
                after_reload(Seq::empty(), capacity, fps, now),
                #[trigger] fps[i],
            ),
    decreases fps.len(),
{
    let loaded = after_reload(Seq::empty(), capacity, fps, now);
    let goal = Seq::new(fps.len(), |i: int| (fps[i], now));
    if fps.len() == 0 {
        assert(loaded =~= goal);
    } else {
        let rest = fps.drop_first();
        assert(rest.no_duplicates()) by {
            assert forall|i: int, j: int|
                0 <= i < rest.len() && 0 <= j < rest.len() && i != j implies rest[i] != rest[j] by {
                assert(fps[i + 1] != fps[j + 1]);
            }
        }
        reload_restores_seen(capacity, rest, now);
        let before = after_reload(Seq::empty(), capacity, rest, now);
        assert(!has_key(before, fps[0])) by {
            if has_key(before, fps[0]) {
                let i = choose|i: int| 0 <= i < before.len() && (#[trigger] before[i]).0 == fps[0];
                assert(before[i].0 == rest[i]);
                assert(fps[i + 1] == fps[0]);
            }
        }
        assert(loaded =~= goal);
    }
    assert forall|i: int| 0 <= i < fps.len() implies has_key(loaded, #[trigger] fps[i]) by {
        assert(goal[i].0 == fps[i]);
    }
}

/// The fingerprints as mathematical values.
pub open spec fn fingerprint_views(fps: Seq<[u8; 32]>) -> Seq<Seq<u8>> {
    Seq::new(fps.len(), |i: int| fps[i]@)
}

// ---------------------------------------------------------------------------
// The engine
// ---------------------------------------------------------------------------

/// What the engine has counted.
#[derive(Clone, Copy, Debug, PartialEq, Eq, Structural)]
pub struct DeduplicationStats {
    /// All events.
    pub total_events: u64,
    /// Events of new certificates, which are forwarded.
    pub unique_forwarded: u64,
    /// Events of known certificates, which are not.
    pub duplicates_seen: u64,
}

impl Default for DeduplicationStats {
    fn default() -> (r: Self)
        ensures
            r == (DeduplicationStats { total_events: 0, unique_forwarded: 0, duplicates_seen: 0 }),
    {
        DeduplicationStats { total_events: 0, unique_forwarded: 0, duplicates_seen: 0 }
    }
}

/// The counts after one more event.
pub open spec fn counted(s: DeduplicationStats, is_new: bool) -> DeduplicationStats {
    DeduplicationStats {
        total_events: next_count(s.total_events),
        unique_forwarded: if is_new {
            next_count(s.unique_forwarded)
        } else {
            s.unique_forwarded
        },
        duplicates_seen: if is_new {
            s.duplicates_seen
        } else {
            next_count(s.duplicates_seen)
        },
    }
}

/// Every event is either forwarded or a duplicate.
pub proof fn every_event_is_counted(s: DeduplicationStats, is_new: bool)
    requires
        s.total_events == s.unique_forwarded + s.duplicates_seen,
        s.total_events < u64::MAX,
    ensures
        counted(s, is_new).total_events == counted(s, is_new).unique_forwarded + counted(
            s,
            is_new,
        ).duplicates_seen,
{
}

/// Remembers which fingerprints were seen.
pub struct DeduplicationEngine {
    cache: lru::LruCache<[u8; 32], i64>,
    stats: DeduplicationStats,
}

impl DeduplicationEngine {
    /// The fingerprints in the cache with the times when they were last seen, the most recent
    /// first.
    pub closed spec fn entries(&self) -> Seq<(Seq<u8>, i64)> {
        cache_entries(self.cache)
    }

    /// How many fingerprints the cache can hold.
    pub closed spec fn limit(&self) -> nat {
        cache_capacity(self.cache)
    }

    /// What was counted.
    pub closed spec fn counts(&self) -> DeduplicationStats {
        self.stats
    }

    /// No fingerprint is held twice, and no more are held than the cache can hold.
    pub open spec fn valid(&self) -> bool {
        &&& distinct_keys(self.entries())
        &&& self.entries().len() <= self.limit()
        &&& self.limit() >= 1
    }

    /// An engine that has seen nothing, with a cache for `capacity` fingerprints, or for the
    /// usual number where that is zero.
    pub fn new(capacity: usize) -> (r: Self)
        requires
            capacity <= usize::MAX / 256,
        ensures
            r.valid(),
            r.entries().len() == 0,
            r.limit() == if capacity == 0 {
                DEFAULT_CACHE_CAPACITY
            } else {
                capacity
            },
            r.counts() == (DeduplicationStats {
                total_events: 0,
                unique_forwarded: 0,
                duplicates_seen: 0,
            }),
    {
        let capacity = if capacity == 0 {
            DEFAULT_CACHE_CAPACITY
        } else {
            capacity
        };
        DeduplicationEngine { cache: new_cache(capacity), stats: DeduplicationStats::default() }
    }

    /// An engine that has seen nothing, with a cache of the usual size.
    pub fn with_default_capacity() -> (r: Self)
        ensures
            r.valid(),
            r.entries().len() == 0,
            r.limit() == DEFAULT_CACHE_CAPACITY,
            r.counts() == (DeduplicationStats {
                total_events: 0,
                unique_forwarded: 0,
                duplicates_seen: 0,
            }),
    {
        DeduplicationEngine::new(DEFAULT_CACHE_CAPACITY)
    }

    /// What was counted.
    pub fn stats(&self) -> (r: DeduplicationStats)
        ensures
            r == self.counts(),
    {
        self.stats
    }

    /// Loads fingerprints that were stored before a restart, the most recently seen first.
    /// Gives their number.
    pub fn reload_at(&mut self, fingerprints: &Vec<[u8; 32]>, now_ms: i64) -> (r: usize)
        ensures
            r == fingerprints.len(),
            final(self).entries() == after_reload(
                old(self).entries(),
                old(self).limit(),
                fingerprint_views(fingerprints@),
                now_ms,
            ),
            final(self).limit() == old(self).limit(),
            final(self).counts() == old(self).counts(),
            old(self).valid() ==> final(self).valid(),
    {
        let count: usize = fingerprints.len();
        let ghost views = fingerprint_views(fingerprints@);
        let mut i: usize = count;
        assert(views.skip(count as int) =~= Seq::<Seq<u8>>::empty());
        while i > 0
            invariant
                i <= count,
                count == fingerprints.len(),
                views == fingerprint_views(fingerprints@),
                self.entries() == after_reload(
                    old(self).entries(),
                    old(self).limit(),
                    views.skip(i as int),
                    now_ms,
                ),
                self.limit() == old(self).limit(),
                self.counts() == old(self).counts(),
                old(self).valid() ==> self.valid(),
            decreases i,
        {
            i -= 1;
            proof {
                if old(self).valid() {
                    put_keeps_bounds(
                        self.entries(),
                        self.limit(),
                        fingerprints@[i as int]@,
                        now_ms,
                    );
                }
                assert(views.skip(i as int).drop_first() =~= views.skip(i + 1));
                assert(views.skip(i as int)[0] == fingerprints@[i as int]@);
            }
            put(&mut self.cache, fingerprints[i], now_ms);
        }
        assert(views.skip(0) =~= views);
        count
    }

    /// Loads fingerprints that were stored before a restart, the most recently seen first,
    /// as seen at the present instant. Gives their number.
    pub fn reload_from_storage(&mut self, fingerprints: &Vec<[u8; 32]>) -> (r: usize)
        ensures
            r == fingerprints.len(),
            exists|now: i64|
                final(self).entries() == #[trigger] after_reload(
                    old(self).entries(),
                    old(self).limit(),
                    fingerprint_views(fingerprints@),
                    now,
                ),
            final(self).limit() == old(self).limit(),
            final(self).counts() == old(self).counts(),
            old(self).valid() ==> final(self).valid(),
    {
        let now_ms: i64 = Timestamp::now().timestamp_millis();
        self.reload_at(fingerprints, now_ms)
    }

    /// Whether the fingerprint is in the cache. It becomes the most recently used one there,
    /// and is not put there where it is not.
    pub fn is_seen(&mut self, fingerprint: &[u8; 32]) -> (r: bool)
        ensures
            r == has_key(old(self).entries(), fingerprint@),
            final(self).entries() == after_lookup(old(self).entries(), fingerprint@),
            final(self).limit() == old(self).limit(),
            final(self).counts() == old(self).counts(),
            old(self).valid() ==> final(self).valid(),
    {
        proof {
            lemma_without(self.entries(), fingerprint@);
            if old(self).valid() && has_key(self.entries(), fingerprint@) {
                lemma_distinct_front(
                    without(self.entries(), fingerprint@),
                    (fingerprint@, value_of(self.entries(), fingerprint@)),
                );
            }
        }
        get(&mut self.cache, fingerprint).is_some()
    }

    /// Puts the fingerprint into the cache as seen at a given time. Says whether it is new.
    pub fn mark_seen_at(&mut self, fingerprint: [u8; 32], now_ms: i64) -> (r: bool)
        ensures
            r == !has_key(old(self).entries(), fingerprint@),
            final(self).entries() == after_put(
                old(self).entries(),
                old(self).limit(),
                fingerprint@,
                now_ms,
            ),
            has_key(final(self).entries(), fingerprint@),
            is_noted(
                old(self).entries(),
                old(self).limit(),
                fingerprint@,
                now_ms,
                final(self).entries(),
                r,
            ),
            final(self).limit() == old(self).limit(),
            final(self).counts() == old(self).counts(),
            old(self).valid() ==> final(self).valid(),
    {
        proof {
            put_is_seen(self.entries(), self.limit(), fingerprint@, now_ms, fingerprint@);
            lemma_lookup_then_put(self.entries(), self.limit(), fingerprint@, now_ms);
            if old(self).valid() {
                put_keeps_bounds(self.entries(), self.limit(), fingerprint@, now_ms);
            }
        }
        let seen = get(&mut self.cache, &fingerprint).is_some();
        put(&mut self.cache, fingerprint, now_ms);
        !seen
    }

    /// Puts the fingerprint into the cache as seen at the present instant. Where the cache is
    /// full, the fingerprint that was not seen for the longest time is forgotten. Says
    /// whether it is new.
    pub fn mark_seen(&mut self, fingerprint: [u8; 32]) -> (r: bool)
        ensures
            r == !has_key(old(self).entries(), fingerprint@),
            exists|now: i64|
                final(self).entries() == #[trigger] after_put(
                    old(self).entries(),
                    old(self).limit(),
                    fingerprint@,
                    now,
                ),
            has_key(final(self).entries(), fingerprint@),
            final(self).limit() == old(self).limit(),
            final(self).counts() == old(self).counts(),
            old(self).valid() ==> final(self).valid(),
    {
        let now_ms: i64 = Timestamp::now().timestamp_millis();
        self.mark_seen_at(fingerprint, now_ms)
    }

    /// Takes the observation of a certificate at a given time and counts it. Says whether the
    /// certificate is new: then it is stored and forwarded, and else only its last
    /// observation is noted.
    pub fn handle_event_at(&mut self, fingerprint: [u8; 32], now_ms: i64) -> (r: bool)
        ensures
            r == !has_key(old(self).entries(), fingerprint@),
            final(self).entries() == after_put(
                old(self).entries(),
                old(self).limit(),
                fingerprint@,
                now_ms,
            ),
            has_key(final(self).entries(), fingerprint@),
            is_noted(
                old(self).entries(),
                old(self).limit(),
                fingerprint@,
                now_ms,
                final(self).entries(),
                r,
            ),
            final(self).limit() == old(self).limit(),
            final(self).counts() == counted(old(self).counts(), r),
            old(self).valid() ==> final(self).valid(),
    {
        let is_new = self.mark_seen_at(fingerprint, now_ms);
        self.stats.total_events = count_up(self.stats.total_events);
        if is_new {
            self.stats.unique_forwarded = count_up(self.stats.unique_forwarded);
        } else {
            self.stats.duplicates_seen = count_up(self.stats.duplicates_seen);
        }
        is_new
    }

    /// How many fingerprints are in the cache.
    pub fn len(&self) -> (r: usize)
        ensures
            r == self.entries().len(),
    {
        len(&self.cache)
    }

    /// Whether no fingerprint is in the cache.
    pub fn is_empty(&self) -> (r: bool)
        ensures
            r == (self.entries().len() == 0),
    {
        len(&self.cache) == 0
    }

    /// How many fingerprints the cache can hold.
    pub fn capacity(&self) -> (r: usize)
        ensures
            r == self.limit(),
    {
        cap(&self.cache)
    }
}

// ---------------------------------------------------------------------------
// Laws
// ---------------------------------------------------------------------------

/// Every event counts once, as forwarded where its certificate is new and else as a duplicate.
pub proof fn event_is_forwarded_or_duplicate(s: DeduplicationStats, is_new: bool)
    requires
        s.total_events < u64::MAX,
        s.unique_forwarded < u64::MAX,
        s.duplicates_seen < u64::MAX,
    ensures
        ({
            let after = counted(s, is_new);
            &&& after.total_events == s.total_events + 1
            &&& is_new ==> after.unique_forwarded == s.unique_forwarded + 1
                && after.duplicates_seen == s.duplicates_seen
            &&& !is_new ==> after.duplicates_seen == s.duplicates_seen + 1
                && after.unique_forwarded == s.unique_forwarded
        }),
{
}

/// Looking a fingerprint up neither forgets nor adds any, and makes the one that was found the
/// last to be forgotten.
pub proof fn lookup_keeps_fingerprints(
    entries: Seq<(Seq<u8>, i64)>,
    key: Seq<u8>,
    other: Seq<u8>,
)
    ensures
        has_key(after_lookup(entries, key), other) == has_key(entries, other),
        has_key(entries, key) ==> after_lookup(entries, key)[0].0 == key,
        !has_key(entries, key) ==> after_lookup(entries, key) == entries,
{
    lemma_without(entries, key);
    if has_key(entries, key) {
        lemma_has_key_front(without(entries, key), (key, value_of(entries, key)), other);
    }
}

/// Where more fingerprints were stored than the cache can hold, the most recently seen of them
/// are there after they were loaded.
pub proof fn reload_keeps_most_recent(capacity: nat, fps: Seq<Seq<u8>>, now: i64, i: int)
    requires
        capacity >= 1,
        fps.no_duplicates(),
        0 <= i < fps.len(),
    ensures
        has_key(after_reload(Seq::empty(), capacity, fps, now), fps[i]) <==> i < capacity,
        after_reload(Seq::empty(), capacity, fps, now)[0] == (fps[0], now),
{
    lemma_reloaded(capacity, fps, now);
    let loaded = after_reload(Seq::empty(), capacity, fps, now);
    if i < capacity {
        assert(loaded[i].0 == fps[i]);
    } else if has_key(loaded, fps[i]) {
        let k = choose|k: int| 0 <= k < loaded.len() && (#[trigger] loaded[k]).0 == fps[i];
        assert(loaded[k].0 == fps[k]);
    }
}

proof fn lemma_reloaded(capacity: nat, fps: Seq<Seq<u8>>, now: i64)
    requires
        capacity >= 1,
        fps.no_duplicates(),
    ensures
        after_reload(Seq::empty(), capacity, fps, now) == Seq::new(
            if fps.len() < capacity {
                fps.len()
            } else {
                capacity
            },
            |i: int| (fps[i], now),
        ),
    decreases fps.len(),
{
    let loaded = after_reload(Seq::empty(), capacity, fps, now);
    let goal = Seq::new(
        if fps.len() < capacity {
            fps.len()
        } else {
            capacity
        },
        |i: int| (fps[i], now),
    );
    if fps.len() == 0 {
        assert(loaded =~= goal);
    } else {
        let rest = fps.drop_first();
        assert(rest.no_duplicates()) by {
            assert forall|i: int, j: int|
                0 <= i < rest.len() && 0 <= j < rest.len() && i != j implies rest[i] != rest[j] by {
                assert(fps[i + 1] != fps[j + 1]);
            }
        }
        lemma_reloaded(capacity, rest, now);
        let before = after_reload(Seq::empty(), capacity, rest, now);
        assert(!has_key(before, fps[0])) by {
            if has_key(before, fps[0]) {
                let i = choose|i: int| 0 <= i < before.len() && (#[trigger] before[i]).0 == fps[0];
                assert(before[i].0 == rest[i]);
                assert(fps[i + 1] == fps[0]);
            }
        }
        assert(loaded =~= goal);
    }
}

/// A fingerprint was seen and put into the cache; it is news where it was not there.
pub open spec fn is_noted(
    before: Seq<(Seq<u8>, i64)>,
    capacity: nat,
    key: Seq<u8>,
    time: i64,
    after: Seq<(Seq<u8>, i64)>,
    is_new: bool,
) -> bool {
    &&& is_new <==> !has_key(before, key)
    &&& after == after_put(before, capacity, key, time)
}

/// A certificate that is observed twice in a row is news at most the first time, whenever that
/// is; and the observation of one certificate makes no other one news while there is room.
pub proof fn second_observation_is_no_news(
    first: Seq<(Seq<u8>, i64)>,
    capacity: nat,
    key: Seq<u8>,
    other: Seq<u8>,
    times: (i64, i64),
    second: Seq<(Seq<u8>, i64)>,
    third: Seq<(Seq<u8>, i64)>,
    news: (bool, bool),
)
    requires
        is_noted(first, capacity, key, times.0, second, news.0),
        is_noted(second, capacity, other, times.1, third, news.1),
    ensures
        news.0 <==> forall|i: int| 0 <= i < first.len() ==> (#[trigger] first[i]).0 != key,
        other == key ==> !news.1,
        other != key && first.len() < capacity ==> (news.1 <==> forall|i: int|
            0 <= i < first.len() ==> (#[trigger] first[i]).0 != other),
        second.len() > 0 && second[0] == (key, times.0),
{
    put_is_seen(first, capacity, key, times.0, other);
    put_is_seen(first, capacity, key, times.0, key);
}

} // verus!
