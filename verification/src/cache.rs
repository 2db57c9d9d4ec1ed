//! LRU cache of crawled pages with a time-to-live per entry.
use vstd::prelude::*;
use std::time::Instant;
use lru::LruCache;

verus! {

#[verifier::external_type_specification]
#[verifier::external_body]
pub struct ExInstant(Instant);

#[verifier::external_type_specification]
#[verifier::external_body]
#[verifier::reject_recursive_types(K)]
#[verifier::reject_recursive_types(V)]
#[verifier::reject_recursive_types(S)]
pub struct ExLruCache<K, V, S>(LruCache<K, V, S>);

#[verifier::external_type_specification]
#[verifier::external_body]
pub struct ExLruHasher(lru::DefaultHasher);

/// The moment of the call (`Instant::now`); nothing is promised of it.
#[verifier::external_body]
fn instant_now() -> Instant {
    Instant::now()
}

/// Nanoseconds since `t` (`Instant::elapsed`); depends on the clock, so
/// nothing is promised of it.
#[verifier::external_body]
fn elapsed_nanos(t: &Instant) -> u128 {
    t.elapsed().as_nanos()
}

/// Default time-to-live of a new entry, in seconds (one hour).
pub const DEFAULT_TTL_SECS: u64 = 3600;

/// A single cached page.
#[derive(Debug)]
pub struct CacheEntry {
    pub content: String,
    pub url: String,
    pub fetched_at: Instant,
    pub ttl_secs: u64,
}

/// An entry whose age is `elapsed_nanos` is expired when the age exceeds its TTL.
pub open spec fn expired_at(ttl_secs: u64, elapsed_nanos: u128) -> bool {
    elapsed_nanos > ttl_secs * 1_000_000_000
}

impl CacheEntry {
    /// A page fetched now, kept for the default hour.
    pub fn new(content: String, url: String) -> (e: Self)
        ensures
            e.content@ == content@,
            e.url@ == url@,
            e.ttl_secs == DEFAULT_TTL_SECS,
    {
        CacheEntry { content, url, fetched_at: instant_now(), ttl_secs: DEFAULT_TTL_SECS }
    }

    /// The same entry with another time-to-live.
    pub fn with_ttl(self, ttl_secs: u64) -> (e: Self)
        ensures
            e.content == self.content,
            e.url == self.url,
            e.fetched_at == self.fetched_at,
            e.ttl_secs == ttl_secs,
    {
        let mut e = self;
        e.ttl_secs = ttl_secs;
        e
    }

    /// Whether the entry would be expired at the given age.
    pub fn is_expired_after(&self, elapsed_nanos: u128) -> (b: bool)
        ensures
            b == expired_at(self.ttl_secs, elapsed_nanos),
    {
        elapsed_nanos > (self.ttl_secs as u128) * 1_000_000_000
    }

    /// Whether the entry is older than its time-to-live now. This depends on
    /// the clock, so nothing is stated of the result; `is_expired_after`
    /// gives the answer for a given age.
    pub fn is_expired(&self) -> bool {
        let age = elapsed_nanos(&self.fetched_at);
        self.is_expired_after(age)
    }
}

/// One cached entry under its URL.
pub type Slot = (Seq<char>, CacheEntry);

/// What an LRU cache holds: its entries under their keys, from the least to
/// the most recently used.
pub uninterp spec fn lru_entries(c: LruCache<String, CacheEntry>) -> Seq<Slot>;

/// The capacity an LRU cache was made with.
pub uninterp spec fn lru_cap(c: LruCache<String, CacheEntry>) -> nat;

/// Some slot is under `k`.
pub open spec fn has_key(s: Seq<Slot>, k: Seq<char>) -> bool {
    exists|i: int| 0 <= i < s.len() && s[i].0 == k
}

/// No two slots share a key.
pub open spec fn keys_distinct(s: Seq<Slot>) -> bool {
    forall|i: int, j: int| 0 <= i < j < s.len() ==> s[i].0 != s[j].0
}

/// The slots other than the one under `k`, in their order.
pub open spec fn without(s: Seq<Slot>, k: Seq<char>) -> Seq<Slot>
    decreases s.len(),
{
    if s.len() == 0 {
        s
    } else if s.last().0 == k {
        without(s.drop_last(), k)
    } else {
        without(s.drop_last(), k).push(s.last())
    }
}

/// The slots as a map from key to entry.
pub open spec fn as_map(s: Seq<Slot>) -> Map<Seq<char>, CacheEntry>
    decreases s.len(),
{
    if s.len() == 0 {
        Map::empty()
    } else {
        as_map(s.drop_last()).insert(s.last().0, s.last().1)
    }
}

/// Appending a slot puts its entry under its key.
pub proof fn lemma_as_map_push(s: Seq<Slot>, x: Slot)
    ensures
        as_map(s.push(x)) == as_map(s).insert(x.0, x.1),
{
    assert(s.push(x).drop_last() =~= s);
}

/// The map of slots is finite, holds exactly their keys, and, with distinct
/// keys, has one entry per slot, each slot's entry under its key.
pub proof fn lemma_as_map(s: Seq<Slot>)
    ensures
        as_map(s).dom().finite(),
        forall|k: Seq<char>| #[trigger] as_map(s).contains_key(k) <==> has_key(s, k),
        keys_distinct(s) ==> as_map(s).len() == s.len(),
        keys_distinct(s) ==> forall|i: int| 0 <= i < s.len() ==> as_map(s)[#[trigger] s[i].0] == s[i].1,
    decreases s.len(),
{
    if s.len() > 0 {
        let d = s.drop_last();
        lemma_as_map(d);
        assert forall|k: Seq<char>| #[trigger] as_map(s).contains_key(k) <==> has_key(s, k) by {
            if has_key(d, k) {
                let i = choose|i: int| 0 <= i < d.len() && d[i].0 == k;
                assert(s[i].0 == k);
            }
            if has_key(s, k) && k != s.last().0 {
                let i = choose|i: int| 0 <= i < s.len() && s[i].0 == k;
                assert(d[i].0 == k);
            }
        }
        if keys_distinct(s) {
            assert(!has_key(d, s.last().0)) by {
                if has_key(d, s.last().0) {
                    let i = choose|i: int| 0 <= i < d.len() && d[i].0 == s.last().0;
                    assert(s[i].0 == s[s.len() - 1].0);
                }
            }
            assert(keys_distinct(d));
            assert forall|i: int| 0 <= i < s.len() implies as_map(s)[#[trigger] s[i].0] == s[i].1 by {
                if i < s.len() - 1 {
                    assert(d[i] == s[i]);
                    assert(s[i].0 != s.last().0);
                }
            }
        }
    }
}

/// Dropping the slot under `k` removes `k` from the map, keeps the keys
/// distinct, and leaves no slot under `k`.
pub proof fn lemma_without(s: Seq<Slot>, k: Seq<char>)
    ensures
        as_map(without(s, k)) == as_map(s).remove(k),
        keys_distinct(s) ==> keys_distinct(without(s, k)),
        !has_key(without(s, k), k),
        forall|j: Seq<char>| has_key(without(s, k), j) ==> #[trigger] has_key(s, j),
    decreases s.len(),
{
    if s.len() == 0 {
        assert(as_map(s).remove(k) =~= as_map(s));
    } else {
        let d = s.drop_last();
        lemma_without(d, k);
        let w = without(d, k);
        assert forall|j: Seq<char>| has_key(without(s, k), j) implies #[trigger] has_key(s, j) by {
            let i = choose|i: int| 0 <= i < without(s, k).len() && without(s, k)[i].0 == j;
            if s.last().0 != k && i == w.len() {
                assert(s[s.len() - 1].0 == j);
            } else {
                assert(w[i].0 == j);
                assert(has_key(d, j));
                let m = choose|m: int| 0 <= m < d.len() && d[m].0 == j;
                assert(s[m].0 == j);
            }
        }
        if s.last().0 == k {
            assert(as_map(s).remove(k) =~= as_map(d).remove(k));
            if keys_distinct(s) {
                assert(keys_distinct(d));
            }
        } else {
            lemma_as_map_push(w, s.last());
            assert(as_map(without(s, k)) == as_map(w).insert(s.last().0, s.last().1));
            assert(as_map(s).remove(k) =~= as_map(d).remove(k).insert(s.last().0, s.last().1));
            assert(!has_key(without(s, k), k)) by {
                if has_key(without(s, k), k) {
                    let i = choose|i: int| 0 <= i < without(s, k).len() && without(s, k)[i].0 == k;
                    if i < w.len() {
                        assert(w[i].0 == k);
                    }
                }
            }
            if keys_distinct(s) {
                assert(keys_distinct(d));
                assert(!has_key(w, s.last().0)) by {
                    if has_key(w, s.last().0) {
                        assert(has_key(d, s.last().0));
                        let m = choose|m: int| 0 <= m < d.len() && d[m].0 == s.last().0;
                        assert(s[m].0 == s[s.len() - 1].0);
                    }
                }
                assert forall|i: int, j: int| 0 <= i < j < without(s, k).len() implies without(
                    s,
                    k,
                )[i].0 != without(s, k)[j].0 by {
                    if j == w.len() {
                        assert(without(s, k)[i] == w[i]);
                        if w[i].0 == s.last().0 {
                            assert(has_key(w, s.last().0));
                        }
                    }
                }
            }
        }
    }
}

/// With distinct keys, dropping the least recently used slot removes its
/// key from the map and keeps the keys distinct.
pub proof fn lemma_drop_first(s: Seq<Slot>)
    requires
        s.len() > 0,
        keys_distinct(s),
    ensures
        as_map(s.drop_first()) == as_map(s).remove(s[0].0),
        keys_distinct(s.drop_first()),
    decreases s.len(),
{
    if s.len() == 1 {
        assert(s.drop_first() =~= Seq::<Slot>::empty());
        assert(s.drop_last() =~= Seq::<Slot>::empty());
        assert(s.last() == s[0]);
        assert(as_map(s.drop_last()) =~= Map::<Seq<char>, CacheEntry>::empty());
        assert(as_map(s) == Map::<Seq<char>, CacheEntry>::empty().insert(s[0].0, s[0].1));
        assert(as_map(s.drop_first()) == Map::<Seq<char>, CacheEntry>::empty());
        assert(as_map(s).remove(s[0].0) =~= Map::<Seq<char>, CacheEntry>::empty());
    } else {
        let d = s.drop_last();
        assert(keys_distinct(d));
        lemma_drop_first(d);
        assert(s.drop_first().drop_last() =~= d.drop_first());
        assert(s.drop_first().last() == s.last());
        assert(s[0].0 != s.last().0);
        assert(d[0] == s[0]);
        assert(as_map(s).remove(s[0].0) =~= as_map(d).remove(s[0].0).insert(s.last().0, s.last().1));
    }
}

/// Appending a slot under a new key keeps the keys distinct.
pub proof fn lemma_push_distinct(s: Seq<Slot>, x: Slot)
    requires
        keys_distinct(s),
        !has_key(s, x.0),
    ensures
        keys_distinct(s.push(x)),
{
    assert forall|i: int, j: int| 0 <= i < j < s.push(x).len() implies s.push(x)[i].0 != s.push(x)[j].0 by {
        if j == s.len() {
            assert(s.push(x)[i] == s[i]);
            if s[i].0 == x.0 {
                assert(has_key(s, x.0));
            }
        }
    }
}

/// Wraps `LruCache::new`: an empty cache of capacity `cap`.
#[verifier::external_body]
fn lru_new(cap: usize) -> (c: LruCache<String, CacheEntry>)
    requires
        cap > 0,
    ensures
        lru_entries(c) == Seq::<Slot>::empty(),
        lru_cap(c) == cap,
{
    LruCache::new(std::num::NonZeroUsize::new(cap).unwrap())
}

/// Wraps `LruCache::peek`: the entry of `k`, without touching recency.
#[verifier::external_body]
fn lru_peek<'a>(c: &'a LruCache<String, CacheEntry>, k: &str) -> (r: Option<&'a CacheEntry>)
    ensures
        match r {
            Some(e) => as_map(lru_entries(*c)).contains_key(k@) && *e == as_map(lru_entries(*c))[k@],
            None => !as_map(lru_entries(*c)).contains_key(k@),
        },
{
    c.peek(k)
}

/// Wraps `LruCache::get`: the entry of `k`, made the most recently used.
#[verifier::external_body]
fn lru_get<'a>(c: &'a mut LruCache<String, CacheEntry>, k: &str) -> (r: Option<&'a CacheEntry>)
    ensures
        lru_cap(*final(c)) == lru_cap(*old(c)),
        match r {
            Some(e) => as_map(lru_entries(*old(c))).contains_key(k@) && *e == as_map(lru_entries(*old(c)))[k@]
                && lru_entries(*final(c)) == without(lru_entries(*old(c)), k@).push((k@, *e)),
            None => !as_map(lru_entries(*old(c))).contains_key(k@) && lru_entries(*final(c))
                == lru_entries(*old(c)),
        },
{
    c.get(k)
}

/// Wraps `LruCache::pop`: removes the entry of `k` and hands it back.
#[verifier::external_body]
fn lru_pop(c: &mut LruCache<String, CacheEntry>, k: &str) -> (r: Option<CacheEntry>)
    ensures
        lru_entries(*final(c)) == without(lru_entries(*old(c)), k@),
        lru_cap(*final(c)) == lru_cap(*old(c)),
        match r {
            Some(e) => as_map(lru_entries(*old(c))).contains_key(k@) && e == as_map(lru_entries(*old(c)))[k@],
            None => !as_map(lru_entries(*old(c))).contains_key(k@),
        },
{
    c.pop(k)
}

/// Wraps `LruCache::put`: `k` becomes the most recently used key, holding
/// `v`; when `k` was absent and the cache full, the least recently used
/// entry leaves.
#[verifier::external_body]
fn lru_put(c: &mut LruCache<String, CacheEntry>, k: String, v: CacheEntry)
    ensures
        lru_cap(*final(c)) == lru_cap(*old(c)),
        as_map(lru_entries(*old(c))).contains_key(k@) ==> lru_entries(*final(c)) == without(
            lru_entries(*old(c)),
            k@,
        ).push((k@, v)),
        !as_map(lru_entries(*old(c))).contains_key(k@) && lru_entries(*old(c)).len() < lru_cap(*old(c))
            ==> lru_entries(*final(c)) == lru_entries(*old(c)).push((k@, v)),
        !as_map(lru_entries(*old(c))).contains_key(k@) && lru_entries(*old(c)).len() >= lru_cap(*old(c))
            ==> lru_entries(*final(c)) == lru_entries(*old(c)).drop_first().push((k@, v)),
{
    c.put(k, v);
}

/// Wraps `LruCache::len`: the number of entries, one per key.
#[verifier::external_body]
fn lru_len(c: &LruCache<String, CacheEntry>) -> (n: usize)
    ensures
        n == lru_entries(*c).len(),
        n == as_map(lru_entries(*c)).len(),
{
    c.len()
}

/// LRU cache of crawled pages; shared access wraps it in a mutex.
pub struct Cache {
    inner: LruCache<String, CacheEntry>,
    default_ttl_secs: u64,
}

impl Cache {
    /// The cached entries under their URLs, from the least to the most
    /// recently used.
    pub closed spec fn slots(&self) -> Seq<Slot> {
        lru_entries(self.inner)
    }

    /// Cached entries by URL.
    pub open spec fn entries(&self) -> Map<Seq<char>, CacheEntry> {
        as_map(self.slots())
    }

    /// Most entries the cache keeps.
    pub closed spec fn capacity(&self) -> nat {
        lru_cap(self.inner)
    }

    /// TTL given to entries that come with the default one.
    pub closed spec fn default_ttl(&self) -> u64 {
        self.default_ttl_secs
    }

    /// Each URL once, never more entries than the capacity (at least 1).
    pub open spec fn wf(&self) -> bool {
        &&& keys_distinct(self.slots())
        &&& self.capacity() >= 1
        &&& self.slots().len() <= self.capacity()
    }

    /// An empty cache of at most `max(max_entries, 1)` entries.
    pub fn new(max_entries: usize, ttl_secs: u64) -> (c: Self)
        ensures
            c.wf(),
            c.slots() == Seq::<Slot>::empty(),
            c.entries() == Map::<Seq<char>, CacheEntry>::empty(),
            c.capacity() == if max_entries > 0 { max_entries as nat } else { 1 },
            c.default_ttl() == ttl_secs,
    {
        let cap = if max_entries > 0 { max_entries } else { 1 };
        let c = Cache { inner: lru_new(cap), default_ttl_secs: ttl_secs };
        assert(c.entries() =~= Map::<Seq<char>, CacheEntry>::empty());
        c
    }

    /// The cached entry of `url` unless it is missing or expired; recency is
    /// left as it is. Expiry is judged by the clock.
    pub fn get(&self, url: &str) -> (r: Option<&CacheEntry>)
        ensures
            match r {
                Some(e) => self.entries().contains_key(url@) && *e == self.entries()[url@],
                None => true,
            },
            !self.entries().contains_key(url@) ==> r is None,
    {
        match lru_peek(&self.inner, url) {
            Some(e) => {
                let age = elapsed_nanos(&e.fetched_at);
                self.get_at(url, age)
            },
            None => None,
        }
    }

    /// The cached entry of `url` when it is present and not expired at the
    /// age `age_nanos`; what `get` returns for the age the clock gives.
    pub fn get_at(&self, url: &str, age_nanos: u128) -> (r: Option<&CacheEntry>)
        ensures
            match r {
                Some(e) => self.entries().contains_key(url@) && *e == self.entries()[url@]
                    && !expired_at(e.ttl_secs, age_nanos),
                None => !self.entries().contains_key(url@) || expired_at(
                    self.entries()[url@].ttl_secs,
                    age_nanos,
                ),
            },
    {
        match lru_peek(&self.inner, url) {
            Some(e) => if e.is_expired_after(age_nanos) {
                None
            } else {
                Some(e)
            },
            None => None,
        }
    }

    /// The cached entry of `url`, made the most recently used; an expired
    /// entry is removed and `None` returned. Expiry is judged by the clock.
    pub fn get_mut(&mut self, url: &str) -> (r: Option<&CacheEntry>)
        requires
            old(self).wf(),
        ensures
            final(self).wf(),
            final(self).capacity() == old(self).capacity(),
            final(self).default_ttl() == old(self).default_ttl(),
            match r {
                Some(e) => final(self).entries() == old(self).entries() && old(self).entries().contains_key(url@)
                    && *e == old(self).entries()[url@] && final(self).slots() == without(
                    old(self).slots(),
                    url@,
                ).push((url@, *e)),
                None => final(self).entries() == old(self).entries().remove(url@) && final(self).slots()
                    == without(old(self).slots(), url@),
            },
            !old(self).entries().contains_key(url@) ==> r is None,
    {
        let age = match lru_peek(&self.inner, url) {
            None => 0,
            Some(e) => elapsed_nanos(&e.fetched_at),
        };
        self.get_mut_at(url, age)
    }

    /// What `get_mut` does for the age the clock gives: the entry of `url`
    /// when it is present and not expired at the age `age_nanos`, made the
    /// most recently used (the entries unchanged); otherwise `None`, and an
    /// expired entry is removed.
    pub fn get_mut_at(&mut self, url: &str, age_nanos: u128) -> (r: Option<&CacheEntry>)
        requires
            old(self).wf(),
        ensures
            final(self).wf(),
            final(self).capacity() == old(self).capacity(),
            final(self).default_ttl() == old(self).default_ttl(),
            r is Some <==> (old(self).entries().contains_key(url@) && !expired_at(
                old(self).entries()[url@].ttl_secs,
                age_nanos,
            )),
            match r {
                Some(e) => final(self).entries() == old(self).entries() && *e == old(self).entries()[url@]
                    && final(self).slots() == without(old(self).slots(), url@).push((url@, *e)),
                None => final(self).entries() == old(self).entries().remove(url@) && final(self).slots()
                    == without(old(self).slots(), url@),
            },
    {
        let ghost s0 = lru_entries(self.inner);
        proof {
            lemma_as_map(s0);
            lemma_without(s0, url@);
        }
        let expired = match lru_get(&mut self.inner, url) {
            None => {
                assert(without(s0, url@) == s0) by {
                    lemma_without_absent(s0, url@);
                }
                assert(as_map(s0).remove(url@) =~= as_map(s0));
                return None;
            },
            Some(e) => e.is_expired_after(age_nanos),
        };
        let ghost s1 = lru_entries(self.inner);
        proof {
            let e = as_map(s0)[url@];
            assert(s1 == without(s0, url@).push((url@, e)));
            lemma_without(s0, url@);
            lemma_push_distinct(without(s0, url@), (url@, e));
            lemma_as_map(without(s0, url@));
            lemma_as_map(s1);
            lemma_as_map_push(without(s0, url@), (url@, e));
            assert(as_map(s1) =~= as_map(s0).remove(url@).insert(url@, e));
            assert(as_map(s1) =~= as_map(s0));
            lemma_without_len(s0, url@);
        }
        if expired {
            lru_pop(&mut self.inner, url);
            proof {
                let e = as_map(s0)[url@];
                lemma_without_push(without(s0, url@), url@, e);
                lemma_without_twice(s0, url@);
                lemma_without(s1, url@);
                lemma_without_len(s1, url@);
            }
            return None;
        }
        let r = lru_get(&mut self.inner, url);
        proof {
            let e = as_map(s0)[url@];
            lemma_without_push(without(s0, url@), url@, e);
            lemma_without_twice(s0, url@);
        }
        r
    }

    /// Insert or update the entry of `url`, which becomes the most recently
    /// used; an entry with the default TTL takes the cache's TTL instead.
    /// When `url` is new and the cache full, the least recently used entry
    /// leaves.
    pub fn put(&mut self, url: String, entry: CacheEntry)
        requires
            old(self).wf(),
        ensures
            final(self).wf(),
            final(self).capacity() == old(self).capacity(),
            final(self).default_ttl() == old(self).default_ttl(),
            ({
                let stored = if entry.ttl_secs == DEFAULT_TTL_SECS {
                    entry.with_ttl_spec(old(self).default_ttl())
                } else {
                    entry
                };
                &&& old(self).entries().contains_key(url@) ==> final(self).slots() == without(
                    old(self).slots(),
                    url@,
                ).push((url@, stored))
                &&& !old(self).entries().contains_key(url@) && old(self).entries().len()
                    < old(self).capacity() ==> final(self).slots() == old(self).slots().push((url@, stored))
                &&& !old(self).entries().contains_key(url@) && old(self).entries().len()
                    >= old(self).capacity() ==> final(self).slots() == old(self).slots().drop_first().push(
                    (url@, stored),
                )
                &&& (old(self).entries().contains_key(url@) || old(self).entries().len()
                    < old(self).capacity()) ==> final(self).entries() == old(self).entries().insert(url@, stored)
                &&& !(old(self).entries().contains_key(url@) || old(self).entries().len()
                    < old(self).capacity()) ==> final(self).entries() == old(self).entries().remove(
                    old(self).slots()[0].0,
                ).insert(url@, stored)
                &&& final(self).entries().len() == if !old(self).entries().contains_key(url@)
                    && old(self).entries().len() < old(self).capacity() {
                    old(self).entries().len() + 1
                } else {
                    old(self).entries().len()
                }
            }),
    {
        let mut entry = entry;
        if entry.ttl_secs == DEFAULT_TTL_SECS {
            entry.ttl_secs = self.default_ttl_secs;
        }
        let ghost s0 = lru_entries(self.inner);
        proof {
            lemma_as_map(s0);
        }
        lru_put(&mut self.inner, url, entry);
        proof {
            let s1 = lru_entries(self.inner);
            let u = url@;
            if as_map(s0).contains_key(u) {
                lemma_without(s0, u);
                lemma_without_len(s0, u);
                lemma_push_distinct(without(s0, u), (u, entry));
                lemma_as_map(without(s0, u));
                lemma_as_map(s1);
                lemma_as_map_push(without(s0, u), (u, entry));
                assert(as_map(s1) =~= as_map(s0).remove(u).insert(u, entry));
                assert(as_map(s1) =~= as_map(s0).insert(u, entry));
            } else if s0.len() < lru_cap(self.inner) {
                lemma_push_distinct(s0, (u, entry));
                lemma_as_map(s1);
                lemma_as_map_push(s0, (u, entry));
            } else {
                lemma_drop_first(s0);
                assert(!has_key(s0.drop_first(), u)) by {
                    if has_key(s0.drop_first(), u) {
                        let i = choose|i: int| 0 <= i < s0.drop_first().len() && s0.drop_first()[i].0 == u;
                        assert(s0[i + 1].0 == u);
                    }
                }
                lemma_push_distinct(s0.drop_first(), (u, entry));
                lemma_as_map(s0.drop_first());
                lemma_as_map(s1);
                lemma_as_map_push(s0.drop_first(), (u, entry));
            }
        }
    }

    /// Number of entries currently cached.
    pub fn len(&self) -> (n: usize)
        ensures
            n == self.entries().len(),
    {
        lru_len(&self.inner)
    }

    /// Whether the cache is empty.
    pub fn is_empty(&self) -> (b: bool)
        ensures
            b == (self.entries().len() == 0),
    {
        lru_len(&self.inner) == 0
    }
}

/// Without a slot under `k`, dropping `k` changes nothing.
proof fn lemma_without_absent(s: Seq<Slot>, k: Seq<char>)
    requires
        !has_key(s, k),
    ensures
        without(s, k) == s,
    decreases s.len(),
{
    if s.len() > 0 {
        let d = s.drop_last();
        assert(!has_key(d, k)) by {
            if has_key(d, k) {
                let i = choose|i: int| 0 <= i < d.len() && d[i].0 == k;
                assert(s[i].0 == k);
            }
        }
        lemma_without_absent(d, k);
        assert(s.last().0 != k);
        assert(d.push(s.last()) =~= s);
    }
}

/// Dropping `k` twice is dropping it once.
proof fn lemma_without_twice(s: Seq<Slot>, k: Seq<char>)
    ensures
        without(without(s, k), k) == without(s, k),
{
    lemma_without(s, k);
    lemma_without_absent(without(s, k), k);
}

/// Dropping `k` after appending a slot under `k` drops that slot too.
proof fn lemma_without_push(s: Seq<Slot>, k: Seq<char>, e: CacheEntry)
    ensures
        without(s.push((k, e)), k) == without(s, k),
{
    assert(s.push((k, e)).drop_last() =~= s);
}

/// With distinct keys, dropping a present key removes exactly one slot.
proof fn lemma_without_len(s: Seq<Slot>, k: Seq<char>)
    requires
        keys_distinct(s),
    ensures
        has_key(s, k) ==> without(s, k).len() == s.len() - 1,
        !has_key(s, k) ==> without(s, k).len() == s.len(),
    decreases s.len(),
{
    if s.len() > 0 {
        let d = s.drop_last();
        assert(keys_distinct(d));
        lemma_without_len(d, k);
        if s.last().0 == k {
            assert(!has_key(d, k)) by {
                if has_key(d, k) {
                    let i = choose|i: int| 0 <= i < d.len() && d[i].0 == k;
                    assert(s[i].0 == s[s.len() - 1].0);
                }
            }
        } else {
            if has_key(s, k) {
                let i = choose|i: int| 0 <= i < s.len() && s[i].0 == k;
                assert(d[i].0 == k);
            }
            if has_key(d, k) {
                let i = choose|i: int| 0 <= i < d.len() && d[i].0 == k;
                assert(s[i].0 == k);
            }
        }
    } else {
        assert(!has_key(s, k));
    }
}

impl CacheEntry {
    pub open spec fn with_ttl_spec(self, ttl_secs: u64) -> Self {
        CacheEntry { ttl_secs, ..self }
    }
}

} // verus!
