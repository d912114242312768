//! The answer cache: a CLOCK-Pro store from deduplication keys to answer
//! packets with their expiry, and the TTL under which answers are cached.
use crate::FAILURE_TTL;
use clockpro_cache::ClockProCache;
use vstd::prelude::*;

verus! {

#[verifier::external_type_specification]
#[verifier::external_body]
#[verifier::reject_recursive_types(K)]
#[verifier::reject_recursive_types(V)]
pub struct ExClockProCache<K, V>(ClockProCache<K, V>);

/// The values that a CLOCK-Pro store holds (not the keys it only tracks),
/// each as an answer packet and its expiry in milliseconds.
pub uninterp spec fn store_entries(c: ClockProCache<Vec<u8>, (Vec<u8>, u64)>) -> Map<
    Seq<u8>,
    (Seq<u8>, u64),
>;

/// Largest capacity a cache is made with.
pub const MAX_CACHE_CAPACITY: usize = 16777216;

/// The store behind a cache: answer packets and their expiry by key.
pub type Store = ClockProCache<Vec<u8>, (Vec<u8>, u64)>;

/// Relies on `ClockProCache::new`: it refuses a capacity under three and
/// otherwise holds no value.
#[verifier::external_body]
fn store_new(capacity: usize) -> (r: Option<Store>)
    requires
        capacity <= MAX_CACHE_CAPACITY,
    ensures
        r is Some <==> capacity >= 3,
        r is Some ==> store_entries(r->Some_0).dom() == Set::<Seq<u8>>::empty(),
{
    ClockProCache::new(capacity).ok()
}

/// Relies on `ClockProCache::get`: the value held for the key, if any; it
/// only marks the entry as referenced.
#[verifier::external_body]
fn store_get(c: &mut Store, key: &Vec<u8>) -> (r: Option<
    (Vec<u8>, u64),
>)
    ensures
        store_entries(*final(c)) == store_entries(*old(c)),
        r is Some <==> store_entries(*old(c)).dom().contains(key@),
        r is Some ==> (r->Some_0.0@, r->Some_0.1) == store_entries(*old(c))[key@],
{
    c.get(key).cloned()
}

/// Relies on `ClockProCache::insert`: the key then maps to the value, and
/// other values may have been evicted but none was changed or added.
#[verifier::external_body]
fn store_insert(c: &mut Store, key: Vec<u8>, value: (Vec<u8>, u64))
    ensures
        store_entries(*final(c)).dom().contains(key@),
        store_entries(*final(c))[key@] == (value.0@, value.1),
        forall|k: Seq<u8>|
            #![trigger store_entries(*final(c)).dom().contains(k)]
            k != key@ && store_entries(*final(c)).dom().contains(k) ==> store_entries(
                *old(c),
            ).dom().contains(k) && store_entries(*final(c))[k] == store_entries(*old(c))[k],
{
    c.insert(key, value);
}

/// What a CLOCK-Pro store reports as the number of frequently fetched or updated values.
pub uninterp spec fn store_frequent(c: ClockProCache<Vec<u8>, (Vec<u8>, u64)>) -> usize;

/// Relies on `ClockProCache::frequent_len`: the number of frequently fetched or updated values, read without change.
#[verifier::external_body]
fn store_frequent_len_of(c: &Store) -> (r: usize)
    ensures
        r == store_frequent(*c),
{
    c.frequent_len()
}

/// What a CLOCK-Pro store reports as the number of recently inserted values.
pub uninterp spec fn store_recent(c: ClockProCache<Vec<u8>, (Vec<u8>, u64)>) -> usize;

/// Relies on `ClockProCache::recent_len`: the number of recently inserted values, read without change.
#[verifier::external_body]
fn store_recent_len_of(c: &Store) -> (r: usize)
    ensures
        r == store_recent(*c),
{
    c.recent_len()
}

/// What a CLOCK-Pro store reports as the number of keys it tracks as recently evicted.
pub uninterp spec fn store_test(c: ClockProCache<Vec<u8>, (Vec<u8>, u64)>) -> usize;

/// Relies on `ClockProCache::test_len`: the number of keys it tracks as recently evicted, read without change.
#[verifier::external_body]
fn store_test_len_of(c: &Store) -> (r: usize)
    ensures
        r == store_test(*c),
{
    c.test_len()
}

/// What a CLOCK-Pro store reports as how many values were inserted overall.
pub uninterp spec fn store_inserted(c: ClockProCache<Vec<u8>, (Vec<u8>, u64)>) -> u64;

/// Relies on `ClockProCache::inserted`: how many values were inserted overall, read without change.
#[verifier::external_body]
fn store_inserted_of(c: &Store) -> (r: u64)
    ensures
        r == store_inserted(*c),
{
    c.inserted()
}

/// What a CLOCK-Pro store reports as how many entries were evicted overall.
pub uninterp spec fn store_evicted(c: ClockProCache<Vec<u8>, (Vec<u8>, u64)>) -> u64;

/// Relies on `ClockProCache::evicted`: how many entries were evicted overall, read without change.
#[verifier::external_body]
fn store_evicted_of(c: &Store) -> (r: u64)
    ensures
        r == store_evicted(*c),
{
    c.evicted()
}

/// A cached answer.
pub struct CacheEntry {
    pub packet: Vec<u8>,
    /// Instant, in milliseconds, past which the answer is stale.
    pub expires_ms: u64,
}

/// The cache's segment sizes and counters.
#[derive(Clone, Copy, Debug, PartialEq, Eq, Structural)]
pub struct CacheStats {
    pub frequent_len: usize,
    pub recent_len: usize,
    pub test_len: usize,
    pub inserted: u64,
    pub evicted: u64,
}

/// Why a cache could not be made.
#[derive(Clone, Copy, Debug, PartialEq, Eq, Structural)]
pub enum CacheError {
    /// Fewer than three entries.
    CapacityTooSmall,
}

/// The answer cache.
pub struct Cache {
    pub store: Store,
}

/// The expiry of an answer cached at `now_ms` under `ttl` seconds.
pub open spec fn expiry(now_ms: u64, ttl: u32) -> u64 {
    if now_ms + ttl * 1000 > u64::MAX {
        u64::MAX
    } else {
        (now_ms + ttl * 1000) as u64
    }
}

impl Cache {
    /// The answers held, each as its packet and expiry.
    pub open spec fn entries(&self) -> Map<Seq<u8>, (Seq<u8>, u64)> {
        store_entries(self.store)
    }

    /// An empty cache of the given capacity; a capacity under three is
    /// refused.
    pub fn new(capacity: usize) -> (r: Result<Cache, CacheError>)
        requires
            capacity <= MAX_CACHE_CAPACITY,
        ensures
            r is Ok <==> capacity >= 3,
            r is Ok ==> r->Ok_0.entries().dom() == Set::<Seq<u8>>::empty(),
            r is Err ==> r->Err_0 == CacheError::CapacityTooSmall,
    {
        match store_new(capacity) {
            Some(store) => Ok(Cache { store }),
            None => Err(CacheError::CapacityTooSmall),
        }
    }

    /// The sizes of the frequently and recently used segments and of the
    /// set of recently evicted keys, and the insertion and eviction counts.
    pub fn stats(&self) -> (r: CacheStats)
        ensures
            r.frequent_len == store_frequent(self.store),
            r.recent_len == store_recent(self.store),
            r.test_len == store_test(self.store),
            r.inserted == store_inserted(self.store),
            r.evicted == store_evicted(self.store),
    {
        CacheStats {
            frequent_len: store_frequent_len_of(&self.store),
            recent_len: store_recent_len_of(&self.store),
            test_len: store_test_len_of(&self.store),
            inserted: store_inserted_of(&self.store),
            evicted: store_evicted_of(&self.store),
        }
    }

    /// The answer cached for a key, stale or not.
    pub fn get(&mut self, key: &Vec<u8>) -> (r: Option<CacheEntry>)
        ensures
            final(self).entries() == old(self).entries(),
            r is Some <==> old(self).entries().dom().contains(key@),
            r is Some ==> (r->Some_0.packet@, r->Some_0.expires_ms) == old(self).entries()[key@],
    {
        match store_get(&mut self.store, key) {
            Some(v) => Some(CacheEntry { packet: v.0, expires_ms: v.1 }),
            None => None,
        }
    }

    /// Caches an answer under `ttl` seconds from `now_ms`. Other answers may
    /// be evicted; none is changed.
    pub fn insert(&mut self, key: Vec<u8>, packet: Vec<u8>, ttl: u32, now_ms: u64)
        ensures
            final(self).entries().dom().contains(key@),
            final(self).entries()[key@] == (packet@, expiry(now_ms, ttl)),
            forall|k: Seq<u8>|
                #![trigger final(self).entries().dom().contains(k)]
                k != key@ && final(self).entries().dom().contains(k) ==> old(
                    self,
                ).entries().dom().contains(k) && final(self).entries()[k] == old(
                    self,
                ).entries()[k],
    {
        let ttl_ms: u64 = ttl as u64 * 1000;
        let expires_ms: u64 = if ttl_ms > u64::MAX - now_ms {
            u64::MAX
        } else {
            now_ms + ttl_ms
        };
        store_insert(&mut self.store, key, (packet, expires_ms));
    }
}

/// The TTL under which an answer is cached: a server failure always under
/// the failure TTL, else the answer's TTL raised to `min_ttl` and then
/// lowered to `max_ttl`.
pub open spec fn cache_ttl_spec(answer_ttl: u32, servfail: bool, min_ttl: u32, max_ttl: u32) -> u32 {
    if servfail {
        FAILURE_TTL
    } else if answer_ttl < min_ttl {
        min_ttl
    } else if answer_ttl > max_ttl {
        max_ttl
    } else {
        answer_ttl
    }
}

/// Computes the TTL under which an answer is cached.
pub fn cache_ttl(answer_ttl: u32, servfail: bool, min_ttl: u32, max_ttl: u32) -> (r: u32)
    ensures
        r == cache_ttl_spec(answer_ttl, servfail, min_ttl, max_ttl),
{
    if servfail {
        FAILURE_TTL
    } else if answer_ttl < min_ttl {
        min_ttl
    } else if answer_ttl > max_ttl {
        max_ttl
    } else {
        answer_ttl
    }
}

/// TTL clamping: with sane bounds, a cached answer's TTL lies within them,
/// an answer's TTL below the minimum becomes the minimum and one above the
/// maximum becomes the maximum; a server failure always gets the failure
/// TTL.
pub proof fn lemma_ttl_clamped(answer_ttl: u32, min_ttl: u32, max_ttl: u32)
    requires
        min_ttl <= max_ttl,
    ensures
        min_ttl <= cache_ttl_spec(answer_ttl, false, min_ttl, max_ttl) <= max_ttl,
        answer_ttl < min_ttl ==> cache_ttl_spec(answer_ttl, false, min_ttl, max_ttl) == min_ttl,
        answer_ttl > max_ttl ==> cache_ttl_spec(answer_ttl, false, min_ttl, max_ttl) == max_ttl,
        min_ttl <= answer_ttl <= max_ttl ==> cache_ttl_spec(answer_ttl, false, min_ttl, max_ttl)
            == answer_ttl,
        cache_ttl_spec(answer_ttl, true, min_ttl, max_ttl) == FAILURE_TTL,
{
}

} // verus!
