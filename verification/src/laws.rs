use vstd::prelude::*;
use crate::cache::CacheView;
use crate::cache::TTL_MILLIS;
use crate::cache::fresh_at;
use crate::cache::probe_spec;
use crate::query::cache_key_of;
use crate::query::lower_of;
use crate::query::pattern_of;

verus! {

/// Idempotence of cache reads: while an entry stays fresh, every read of
/// its key yields the same result list, and none of those reads needs the
/// upstream store.
pub proof fn lemma_cache_read_idempotent(m: CacheView, k: Seq<char>, now1: u64, now2: u64)
    requires
        m.contains_key(k),
        fresh_at(m[k].1, now1),
        fresh_at(m[k].1, now2),
    ensures
        probe_spec(m, k, now1) == Some(m[k].0),
        probe_spec(m, k, now1) == probe_spec(m, k, now2),
{
}

/// Stampede collapse: once one caller has recorded its fetch for key `k`
/// at time `t`, any caller whose guarded re-check runs while that entry is
/// fresh reads exactly the recorded results, so it issues no second fetch.
pub proof fn lemma_stampede_collapse(
    m: CacheView,
    k: Seq<char>,
    results: Seq<Seq<char>>,
    t: u64,
    now: u64,
)
    requires
        now < t + TTL_MILLIS,
    ensures
        probe_spec(m.insert(k, (results, t)), k, now) == Some(results),
{
}

/// Expiry: a read strictly before `fetchedAt + TTL` is served from the
/// cache; a read at or after that instant misses, which is what sends the
/// caller back upstream.
pub proof fn lemma_expiry(m: CacheView, k: Seq<char>, now: u64)
    requires
        m.contains_key(k),
    ensures
        now < m[k].1 + TTL_MILLIS ==> probe_spec(m, k, now) == Some(m[k].0),
        now >= m[k].1 + TTL_MILLIS ==> probe_spec(m, k, now) is None,
{
}

/// Case-insensitivity: raw queries with the same lower-cased text share
/// one cache key, read the same cache entry, and produce the same upstream
/// pattern.
pub proof fn lemma_case_insensitive(m: CacheView, a: Seq<char>, b: Seq<char>, now: u64)
    requires
        lower_of(a) == lower_of(b),
    ensures
        cache_key_of(a) == cache_key_of(b),
        probe_spec(m, cache_key_of(a), now) == probe_spec(m, cache_key_of(b), now),
        pattern_of(cache_key_of(a)) == pattern_of(cache_key_of(b)),
{
}

/// Isolation across keys: recording a refresh for one key leaves every
/// other key's reads exactly as they were, however the two refreshes
/// interleave under the shared guard.
pub proof fn lemma_key_isolation(
    m: CacheView,
    ka: Seq<char>,
    kb: Seq<char>,
    ra: Seq<Seq<char>>,
    ta: u64,
    now: u64,
)
    requires
        ka != kb,
    ensures
        probe_spec(m.insert(ka, (ra, ta)), kb, now) == probe_spec(m, kb, now),
{
}

} // verus!
