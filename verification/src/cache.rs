use vstd::prelude::*;

verus! {

/// Maximum age of a cache entry, in milliseconds, before it counts as stale.
pub const TTL_MILLIS: u64 = 30_000;

/// An entry fetched at `fetched_at` is fresh at `now` exactly when its age
/// is strictly below the TTL.
pub open spec fn fresh_at(fetched_at: u64, now: u64) -> bool {
    (now as int) < fetched_at + TTL_MILLIS
}

/// The mathematical content of the cache: each normalized key maps to the
/// result list last fetched for it and the time of that fetch.
pub type CacheView = Map<Seq<char>, (Seq<Seq<char>>, u64)>;

/// What a read of key `k` at time `now` yields without contacting the
/// upstream store: the cached results if the entry is present and fresh,
/// nothing otherwise.
pub open spec fn probe_spec(m: CacheView, k: Seq<char>, now: u64) -> Option<Seq<Seq<char>>> {
    if m.contains_key(k) && fresh_at(m[k].1, now) {
        Some(m[k].0)
    } else {
        None
    }
}

/// One memoized result set: the keys the record store returned for a query,
/// and when that fetch succeeded.
pub struct CacheEntry {
    pub results: Vec<String>,
    pub fetched_at: u64,
}

impl View for CacheEntry {
    type V = (Seq<Seq<char>>, u64);

    open spec fn view(&self) -> (Seq<Seq<char>>, u64) {
        (self.results.deep_view(), self.fetched_at)
    }
}

/// No key occurs twice among the stored pairs.
pub open spec fn keys_distinct(s: Seq<(String, CacheEntry)>) -> bool {
    forall|i: int, j: int| 0 <= i < j < s.len() ==> s[i].0@ != s[j].0@
}

/// The mapping an association list denotes, later pairs overriding earlier
/// ones.
pub open spec fn assoc_map(s: Seq<(String, CacheEntry)>) -> CacheView
    decreases s.len(),
{
    if s.len() == 0 {
        Map::empty()
    } else {
        assoc_map(s.drop_last()).insert(s.last().0@, s.last().1@)
    }
}

proof fn lemma_assoc_map_contains(s: Seq<(String, CacheEntry)>, k: Seq<char>)
    ensures
        assoc_map(s).contains_key(k) <==> exists|i: int| 0 <= i < s.len() && s[i].0@ == k,
    decreases s.len(),
{
    if s.len() > 0 {
        lemma_assoc_map_contains(s.drop_last(), k);
        if s.last().0@ == k {
            assert(s[s.len() - 1].0@ == k);
        } else {
            if assoc_map(s).contains_key(k) {
                let i = choose|i: int|
                    0 <= i < s.drop_last().len() && s.drop_last()[i].0@ == k;
                assert(s[i].0@ == k);
            }
            if exists|i: int| 0 <= i < s.len() && s[i].0@ == k {
                let i = choose|i: int| 0 <= i < s.len() && s[i].0@ == k;
                assert(s.drop_last()[i].0@ == k);
            }
        }
    }
}

proof fn lemma_distinct_drop_last(s: Seq<(String, CacheEntry)>)
    requires
        s.len() > 0,
        keys_distinct(s),
    ensures
        keys_distinct(s.drop_last()),
{
    assert forall|i: int, j: int|
        0 <= i < j < s.drop_last().len() implies s.drop_last()[i].0@ != s.drop_last()[j].0@ by {
        assert(s.drop_last()[i] == s[i]);
        assert(s.drop_last()[j] == s[j]);
    }
}

proof fn lemma_assoc_map_value(s: Seq<(String, CacheEntry)>, i: int)
    requires
        0 <= i < s.len(),
        keys_distinct(s),
    ensures
        assoc_map(s).contains_key(s[i].0@),
        assoc_map(s)[s[i].0@] == s[i].1@,
    decreases s.len(),
{
    if i < s.len() - 1 {
        lemma_distinct_drop_last(s);
        lemma_assoc_map_value(s.drop_last(), i);
        assert(s.drop_last()[i] == s[i]);
        assert(s.last().0@ != s[i].0@);
    }
}

proof fn lemma_assoc_map_update(s: Seq<(String, CacheEntry)>, i: int, p: (String, CacheEntry))
    requires
        0 <= i < s.len(),
        keys_distinct(s),
        p.0@ == s[i].0@,
    ensures
        assoc_map(s.update(i, p)) == assoc_map(s).insert(p.0@, p.1@),
    decreases s.len(),
{
    let t = s.update(i, p);
    if i == s.len() - 1 {
        assert(t.drop_last() =~= s.drop_last());
        assert(t.last() == p);
        assert(assoc_map(t) =~= assoc_map(s).insert(p.0@, p.1@));
    } else {
        lemma_distinct_drop_last(s);
        assert(t.drop_last() =~= s.drop_last().update(i, p));
        lemma_assoc_map_update(s.drop_last(), i, p);
        assert(t.last() == s.last());
        assert(s.last().0@ != s[i].0@);
        assert(assoc_map(t) =~= assoc_map(s).insert(p.0@, p.1@));
    }
}

proof fn lemma_assoc_map_push(s: Seq<(String, CacheEntry)>, p: (String, CacheEntry))
    ensures
        assoc_map(s.push(p)) == assoc_map(s).insert(p.0@, p.1@),
{
    assert(s.push(p).drop_last() =~= s);
    assert(s.push(p).last() == p);
}

/// The cache store: a mapping from normalized query key to its entry.
///
/// Entries are only ever inserted or overwritten in place, never removed;
/// staleness is judged lazily against the TTL at read time.
pub struct CacheStore {
    entries: Vec<(String, CacheEntry)>,
}

impl View for CacheStore {
    type V = CacheView;

    closed spec fn view(&self) -> CacheView {
        assoc_map(self.entries@)
    }
}

impl CacheStore {
    #[verifier::type_invariant]
    spec fn wf(self) -> bool {
        keys_distinct(self.entries@)
    }

    /// An empty cache.
    pub fn new() -> (store: Self)
        ensures
            store@ == Map::<Seq<char>, (Seq<Seq<char>>, u64)>::empty(),
    {
        CacheStore { entries: Vec::new() }
    }

    /// Look up the entry stored for `key`, fresh or stale.
    pub fn get(&self, key: &String) -> (r: Option<&CacheEntry>)
        ensures
            match r {
                Some(e) => self@.contains_key(key@) && e@ == self@[key@],
                None => !self@.contains_key(key@),
            },
    {
        proof {
            use_type_invariant(&*self);
            lemma_assoc_map_contains(self.entries@, key@);
        }
        let n = self.entries.len();
        let mut i: usize = 0;
        while i < n
            invariant
                n == self.entries@.len(),
                i <= n,
                keys_distinct(self.entries@),
                assoc_map(self.entries@).contains_key(key@) <==> exists|j: int|
                    0 <= j < n && self.entries@[j].0@ == key@,
                forall|j: int| 0 <= j < i ==> self.entries@[j].0@ != key@,
            decreases n - i,
        {
            if self.entries[i].0 == *key {
                proof {
                    lemma_assoc_map_value(self.entries@, i as int);
                }
                return Some(&self.entries[i].1);
            }
            i += 1;
        }
        None
    }

    /// Insert the entry for `key`, overwriting any previous one in place.
    pub fn put(&mut self, key: &String, entry: CacheEntry)
        ensures
            final(self)@ == old(self)@.insert(key@, entry@),
    {
        proof {
            use_type_invariant(&*self);
        }
        let mut entries: Vec<(String, CacheEntry)> = Vec::new();
        std::mem::swap(&mut entries, &mut self.entries);
        let ghost s0 = entries@;
        let n = entries.len();
        let mut idx: Option<usize> = None;
        let mut i: usize = 0;
        while i < n
            invariant
                n == entries@.len(),
                entries@ == s0,
                i <= n,
                match idx {
                    Some(j) => j < i && s0[j as int].0@ == key@,
                    None => forall|j: int| 0 <= j < i ==> s0[j].0@ != key@,
                },
            decreases n - i,
        {
            if idx.is_none() && entries[i].0 == *key {
                idx = Some(i);
            }
            i += 1;
        }
        let pair = (key.clone(), entry);
        match idx {
            Some(j) => {
                proof {
                    lemma_assoc_map_update(s0, j as int, pair);
                    assert forall|a: int, b: int|
                        0 <= a < b < s0.update(j as int, pair).len()
                        implies s0.update(j as int, pair)[a].0@
                            != s0.update(j as int, pair)[b].0@ by {
                        assert(s0[a].0@ != s0[b].0@);
                    }
                }
                entries.set(j, pair);
            }
            None => {
                proof {
                    lemma_assoc_map_push(s0, pair);
                    assert forall|a: int, b: int|
                        0 <= a < b < s0.push(pair).len()
                        implies s0.push(pair)[a].0@ != s0.push(pair)[b].0@ by {
                        if b < s0.len() {
                            assert(s0[a].0@ != s0[b].0@);
                        } else {
                            assert(s0.push(pair)[b].0@ == key@);
                        }
                    }
                }
                entries.push(pair);
            }
        }
        self.entries = entries;
    }

    /// Read for `key` at time `now`: a copy of the cached results if the
    /// entry is present and fresh, `None` otherwise. Never contacts the
    /// upstream store and never changes the cache.
    pub fn probe(&self, key: &String, now: u64) -> (r: Option<Vec<String>>)
        ensures
            r.deep_view() == probe_spec(self@, key@, now),
    {
        match self.get(key) {
            Some(e) => {
                let fresh = if now >= e.fetched_at {
                    now - e.fetched_at < TTL_MILLIS
                } else {
                    true
                };
                if fresh {
                    let r = clone_results(&e.results);
                    proof {
                        assert(r.deep_view() =~= e.results.deep_view());
                    }
                    Some(r)
                } else {
                    None
                }
            },
            None => None,
        }
    }
}

/// Copy a result list element by element.
pub(crate) fn clone_results(v: &Vec<String>) -> (r: Vec<String>)
    ensures
        r@ == v@,
{
    let mut r: Vec<String> = Vec::new();
    let n = v.len();
    let mut i: usize = 0;
    while i < n
        invariant
            n == v@.len(),
            i <= n,
            r@ == v@.subrange(0, i as int),
        decreases n - i,
    {
        r.push(v[i].clone());
        proof {
            assert(v@.subrange(0, (i + 1) as int)
                =~= v@.subrange(0, i as int).push(v@[i as int]));
        }
        i += 1;
    }
    proof {
        assert(r@ =~= v@);
    }
    r
}

} // verus!
