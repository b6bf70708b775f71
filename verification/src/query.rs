use vstd::prelude::*;
use crate::cache::CacheEntry;
use crate::cache::CacheStore;
use crate::cache::clone_results;
use crate::cache::probe_spec;

verus! {

/// What `str::to_lowercase` returns for a string: a function of its
/// characters alone.
pub uninterp spec fn lower_of(s: Seq<char>) -> Seq<char>;

/// Relies on `str::to_lowercase`: lower-cases the whole string; the result
/// depends on the input characters alone.
#[verifier::external_body]
fn lowercase(s: &str) -> (r: String)
    ensures
        r@ == lower_of(s@),
{
    s.to_lowercase()
}

/// The cache key of a raw query: its lower-cased text. Raw queries that
/// differ only in case share one key.
pub open spec fn cache_key_of(raw: Seq<char>) -> Seq<char> {
    lower_of(raw)
}

/// Normalize a raw query into its cache key. Any text is accepted, the
/// empty string included; nothing is rejected.
pub fn normalize_query(raw: &str) -> (key: String)
    ensures
        key@ == cache_key_of(raw@),
{
    lowercase(raw)
}

/// The substring pattern sent to the record store for a normalized key:
/// the key wrapped in `%` wildcards. An empty key yields the bare `%%`
/// pattern, which the store reads as matching every stored key.
pub open spec fn pattern_of(key: Seq<char>) -> Seq<char> {
    seq!['%'] + key + seq!['%']
}

/// Build the upstream pattern for a normalized key.
pub fn build_pattern(key: &String) -> (p: String)
    ensures
        p@ == pattern_of(key@),
{
    let mut p = String::from_str("%");
    p.append(key.as_str());
    p.append("%");
    proof {
        reveal_strlit("%");
        assert(p@ =~= pattern_of(key@));
    }
    p
}

/// The failure a search surfaces when the upstream record store call
/// fails; it is never retried at this layer.
#[derive(Debug)]
pub struct UpstreamFetchFailure {
    pub detail: String,
}

/// The guarded re-check's outcome: serve a refresh that another caller
/// completed while this one waited for the stampede guard, or go upstream.
pub enum RefreshPlan {
    /// The entry is fresh now: serve these results without fetching.
    Refreshed(Vec<String>),
    /// Still absent or stale: fetch upstream with this pattern.
    MustFetch(String),
}

/// The double-checked step of the refresh protocol, run with the stampede
/// guard held: re-read the cache, and only if the entry is still absent or
/// stale tell the caller to fetch upstream, handing it the pattern built
/// from the key. The re-check is what collapses concurrent identical
/// misses into a single fetch.
pub fn plan_refresh(cache: &CacheStore, key: &String, now: u64) -> (plan: RefreshPlan)
    ensures
        match plan {
            RefreshPlan::Refreshed(v) => probe_spec(cache@, key@, now) == Some(v.deep_view()),
            RefreshPlan::MustFetch(p) => probe_spec(cache@, key@, now) is None && p@ == pattern_of(
                key@,
            ),
        },
{
    match cache.probe(key, now) {
        Some(v) => RefreshPlan::Refreshed(v),
        None => RefreshPlan::MustFetch(build_pattern(key)),
    }
}

/// Final step of a refresh, run with the stampede guard still held: record
/// what the upstream call produced. On success the fetched results are
/// written into the cache under `key` with fetch time `now` and handed
/// back; on failure the cache is left exactly as it was and the failure is
/// handed back, so a failed fetch never creates or changes an entry.
pub fn finish_refresh(
    cache: &mut CacheStore,
    key: &String,
    fetched: Result<Vec<String>, UpstreamFetchFailure>,
    now: u64,
) -> (out: Result<Vec<String>, UpstreamFetchFailure>)
    ensures
        out == fetched,
        fetched is Ok ==> final(cache)@ == old(cache)@.insert(
            key@,
            ((fetched->Ok_0).deep_view(), now),
        ),
        fetched is Err ==> final(cache)@ == old(cache)@,
{
    match fetched {
        Ok(results) => {
            let stored = clone_results(&results);
            proof {
                assert(stored.deep_view() =~= results.deep_view());
            }
            cache.put(key, CacheEntry { results: stored, fetched_at: now });
            Ok(results)
        },
        Err(failure) => Err(failure),
    }
}

} // verus!
