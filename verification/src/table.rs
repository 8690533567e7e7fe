//! The table of UDP associations: from the address of a client, as a
//! string, to the server that its association is bound to. An entry that
//! was not used for the table's time to live expires.

use vstd::prelude::*;
use lru_time_cache::LruCache;

verus! {

/// The cache of the `lru_time_cache` crate. Proofs see nothing of what is
/// inside one; `cache_entries` stands for what it holds.
#[verifier::external_type_specification]
#[verifier::external_body]
#[verifier::reject_recursive_types(Key)]
#[verifier::reject_recursive_types(Value)]
pub struct ExLruCache<Key, Value>(LruCache<Key, Value>);

/// What a cache holds: each key with its value. An entry that has expired
/// is held until the cache removes it.
pub uninterp spec fn cache_entries(cache: LruCache<String, usize>) -> Map<Seq<char>, usize>;

/// The time in milliseconds for which an entry of a cache lives after it
/// was last used, as the cache was made with it.
pub uninterp spec fn cache_time_to_live_ms(cache: LruCache<String, usize>) -> u32;

/// The keys of the entries in `removed`.
pub open spec fn keys_of(removed: Seq<(String, usize)>) -> Set<Seq<char>> {
    Set::new(|key: Seq<char>| exists|i: int| 0 <= i < removed.len() && #[trigger] removed[i].0@ == key)
}

/// Every entry in `removed` is one of `entries`.
pub open spec fn taken_from(removed: Seq<(String, usize)>, entries: Map<Seq<char>, usize>) -> bool {
    forall|i: int|
        0 <= i < removed.len() ==> entries.contains_pair((#[trigger] removed[i]).0@, removed[i].1)
}

/// Entries that were removed in two turns were removed all the same: what
/// is left is what is left without the keys of both runs, and each entry of
/// either run was one of the entries at the start.
pub proof fn lemma_removed_in_turn(
    entries: Map<Seq<char>, usize>,
    first: Seq<(String, usize)>,
    second: Seq<(String, usize)>,
)
    requires
        taken_from(first, entries),
        taken_from(second, entries.remove_keys(keys_of(first))),
    ensures
        taken_from(first + second, entries),
        keys_of(first + second) == keys_of(first) + keys_of(second),
        entries.remove_keys(keys_of(first)).remove_keys(keys_of(second)) == entries.remove_keys(
            keys_of(first + second),
        ),
{
    let both = first + second;
    assert forall|k: Seq<char>| keys_of(both).contains(k) <==> keys_of(first).contains(k)
        || keys_of(second).contains(k) by {
        if keys_of(both).contains(k) {
            let i = choose|i: int| 0 <= i < both.len() && #[trigger] both[i].0@ == k;
            if i < first.len() {
                assert(first[i].0@ == k);
            } else {
                assert(second[i - first.len()].0@ == k);
            }
        }
        if keys_of(first).contains(k) {
            let i = choose|i: int| 0 <= i < first.len() && #[trigger] first[i].0@ == k;
            assert(both[i].0@ == k);
        }
        if keys_of(second).contains(k) {
            let i = choose|i: int| 0 <= i < second.len() && #[trigger] second[i].0@ == k;
            assert(both[i + first.len()].0@ == k);
        }
    }
    assert(keys_of(both) =~= keys_of(first) + keys_of(second));
    assert(entries.remove_keys(keys_of(first)).remove_keys(keys_of(second)) =~= entries.remove_keys(
        keys_of(both),
    ));
    assert forall|i: int| 0 <= i < both.len() implies entries.contains_pair(
        (#[trigger] both[i]).0@,
        both[i].1,
    ) by {
        if i < first.len() {
            assert(both[i] == first[i]);
        } else {
            assert(both[i] == second[i - first.len()]);
        }
    }
}

/// `LruCache::with_expiry_duration`, with the time to live given in
/// milliseconds. Trusted: the new cache holds nothing and has that time to
/// live.
#[verifier::external_body]
fn lru_with_expiry_duration(time_to_live_ms: u32) -> (cache: LruCache<String, usize>)
    ensures
        cache_entries(cache).is_empty(),
        cache_time_to_live_ms(cache) == time_to_live_ms,
{
    LruCache::with_expiry_duration(std::time::Duration::from_millis(time_to_live_ms as u64))
}

/// `LruCache::notify_get`. Trusted: the cache first removes entries that
/// have expired and hands them back, which entries being for the clock to
/// say; then it returns the value under `key` if the key is still there.
/// No other entry changes, nor does the time to live.
#[verifier::external_body]
fn lru_notify_get(cache: &mut LruCache<String, usize>, key: &String) -> (r: (
    Option<usize>,
    Vec<(String, usize)>,
))
    ensures
        cache_time_to_live_ms(*final(cache)) == cache_time_to_live_ms(*old(cache)),
        taken_from(r.1@, cache_entries(*old(cache))),
        cache_entries(*final(cache)) == cache_entries(*old(cache)).remove_keys(keys_of(r.1@)),
        r.0 == cache_entries(*final(cache)).get(key@),
{
    let (value, expired) = cache.notify_get(key);
    (value.copied(), expired)
}

/// `LruCache::notify_insert`. Trusted: the cache first removes entries that
/// have expired and hands them back, then puts `value` under `key` and
/// returns the value that was there, if any. The time to live stays.
#[verifier::external_body]
fn lru_notify_insert(cache: &mut LruCache<String, usize>, key: String, value: usize) -> (r: (
    Option<usize>,
    Vec<(String, usize)>,
))
    ensures
        cache_time_to_live_ms(*final(cache)) == cache_time_to_live_ms(*old(cache)),
        taken_from(r.1@, cache_entries(*old(cache))),
        cache_entries(*final(cache)) == cache_entries(*old(cache)).remove_keys(
            keys_of(r.1@),
        ).insert(key@, value),
        r.0 == cache_entries(*old(cache)).remove_keys(keys_of(r.1@)).get(key@),
{
    cache.notify_insert(key, value)
}

/// `LruCache::iter`, the iterator dropped at once. Trusted: making the
/// iterator removes entries that have expired and changes no other, nor
/// the time to live.
#[verifier::external_body]
fn lru_remove_expired(cache: &mut LruCache<String, usize>)
    ensures
        cache_time_to_live_ms(*final(cache)) == cache_time_to_live_ms(*old(cache)),
        cache_entries(*final(cache)).submap_of(cache_entries(*old(cache))),
{
    let _ = cache.iter();
}

/// `LruCache::contains_key`. Trusted: a key that is found is held; one
/// that is held and has expired is not found.
#[verifier::external_body]
fn lru_contains_key(cache: &LruCache<String, usize>, key: &String) -> (r: bool)
    ensures
        r ==> cache_entries(*cache).contains_key(key@),
{
    cache.contains_key(key)
}

/// The associations that are alive, by the address of their client.
pub struct AssociationTable {
    cache: LruCache<String, usize>,
}

impl View for AssociationTable {
    type V = Map<Seq<char>, usize>;

    closed spec fn view(&self) -> Map<Seq<char>, usize> {
        cache_entries(self.cache)
    }
}

impl AssociationTable {
    /// The time in milliseconds for which an entry lives after it was last
    /// used.
    pub closed spec fn time_to_live_ms(&self) -> u32 {
        cache_time_to_live_ms(self.cache)
    }

    /// An empty table whose entries live `time_to_live_ms` milliseconds
    /// after they were last used.
    pub fn new(time_to_live_ms: u32) -> (r: AssociationTable)
        ensures
            r@ == Map::<Seq<char>, usize>::empty(),
            r.time_to_live_ms() == time_to_live_ms,
    {
        let cache = lru_with_expiry_duration(time_to_live_ms);
        AssociationTable { cache }
    }

    /// Looks up the association of `key` and renews it. Entries that have
    /// expired leave the table first and are handed back.
    pub fn get(&mut self, key: &String) -> (r: (Option<usize>, Vec<(String, usize)>))
        ensures
            final(self).time_to_live_ms() == old(self).time_to_live_ms(),
            taken_from(r.1@, old(self)@),
            final(self)@ == old(self)@.remove_keys(keys_of(r.1@)),
            r.0 == final(self)@.get(key@),
    {
        lru_notify_get(&mut self.cache, key)
    }

    /// Enters an association for `key`, bound to `server`. Entries that have
    /// expired leave the table first and are handed back.
    pub fn insert(&mut self, key: String, server: usize) -> (expired: Vec<(String, usize)>)
        ensures
            final(self).time_to_live_ms() == old(self).time_to_live_ms(),
            taken_from(expired@, old(self)@),
            final(self)@ == old(self)@.remove_keys(keys_of(expired@)).insert(key@, server),
    {
        let (_, expired) = lru_notify_insert(&mut self.cache, key, server);
        expired
    }

    /// Removes the entries that have expired. Which these are is for the
    /// clock of the cache to say, and it may be none: what holds whenever
    /// this returns is that no entry was added and none was changed.
    pub fn purge(&mut self)
        ensures
            final(self).time_to_live_ms() == old(self).time_to_live_ms(),
            final(self)@.submap_of(old(self)@),
    {
        lru_remove_expired(&mut self.cache);
    }

    /// Whether `key` has an association that has not expired. An entry that
    /// has expired and not yet left the table does not count, and whether
    /// one has expired is for the clock of the cache to say: a key that is
    /// found is in the table, one that is not in the table is not found.
    pub fn contains(&self, key: &String) -> (r: bool)
        ensures
            r ==> self@.contains_key(key@),
    {
        lru_contains_key(&self.cache, key)
    }
}

} // verus!
