//! The content store: named data cached in a least-recently-used cache, each
//! item with the time it was stored and how long it lives.
use vstd::prelude::*;
use std::time::Instant;
use lru::LruCache;
use crate::clock::{elapsed_between, instant_now, nanos_since};

verus! {

#[verifier::external_type_specification]
#[verifier::external_body]
#[verifier::reject_recursive_types(K)]
#[verifier::reject_recursive_types(V)]
#[verifier::reject_recursive_types(S)]
pub struct ExLruCache<K, V, S>(LruCache<K, V, S>);

#[verifier::external_type_specification]
#[verifier::external_body]
pub struct ExDefaultHasher(lru::DefaultHasher);

/// How many items the store holds at most.
pub const MAX_CACHE_SIZE: usize = 1000;

/// How long an item lives unless told otherwise: an hour, in nanoseconds.
pub const DEFAULT_TTL: u64 = 3_600_000_000_000;

/// A cached item.
pub struct CacheEntry {
    pub content: Vec<u8>,
    /// When it was stored, in nanoseconds on the store's clock.
    pub timestamp: u64,
    /// How long it lives, in nanoseconds.
    pub ttl: u64,
}

/// An item as plain values: its content, when it was stored, how long it lives.
pub open spec fn entry_view(e: CacheEntry) -> (Seq<u8>, u64, u64) {
    (e.content@, e.timestamp, e.ttl)
}

/// The items of a cache, most recently used first, each under its name.
pub uninterp spec fn lru_items(cache: LruCache<String, CacheEntry>) -> Seq<(Seq<char>, (Seq<u8>, u64, u64))>;

/// How many items a cache holds at most.
pub uninterp spec fn lru_capacity(cache: LruCache<String, CacheEntry>) -> usize;

/// The names of a list of items.
pub open spec fn names(s: Seq<(Seq<char>, (Seq<u8>, u64, u64))>) -> Seq<Seq<char>> {
    s.map_values(|p: (Seq<char>, (Seq<u8>, u64, u64))| p.0)
}

/// Whether an item named `k` is in `s`.
pub open spec fn holds(s: Seq<(Seq<char>, (Seq<u8>, u64, u64))>, k: Seq<char>) -> bool {
    exists|i: int| 0 <= i < s.len() && s[i].0 == k
}

/// The position of the item named `k` in `s` (meaningful when it is there).
pub open spec fn position_in(s: Seq<(Seq<char>, (Seq<u8>, u64, u64))>, k: Seq<char>) -> int {
    choose|i: int| 0 <= i < s.len() && s[i].0 == k
}

/// `s` with the item named `k` moved to the front.
pub open spec fn touched(s: Seq<(Seq<char>, (Seq<u8>, u64, u64))>, k: Seq<char>) -> Seq<
    (Seq<char>, (Seq<u8>, u64, u64)),
> {
    seq![s[position_in(s, k)]] + s.remove(position_in(s, k))
}

/// Calls `lru::LruCache::new`: an empty cache that holds at most `cap`
/// items. Its map is allocated for `cap` items up front.
#[verifier::external_body]
fn lru_new(cap: usize) -> (c: LruCache<String, CacheEntry>)
    requires
        cap <= MAX_CACHE_SIZE,
    ensures
        lru_items(c) == Seq::<(Seq<char>, (Seq<u8>, u64, u64))>::empty(),
        lru_capacity(c) == cap,
{
    LruCache::new(cap)
}

/// Calls `lru::LruCache::put`. A name already there gets the new item and
/// moves to the front; the old item is handed back. A new name goes to the
/// front; a cache of capacity zero takes nothing, and a full one first drops
/// its least recently used item. Names never occur twice.
#[verifier::external_body]
fn lru_put(cache: &mut LruCache<String, CacheEntry>, k: String, v: CacheEntry) -> (old_item: Option<
    CacheEntry,
>)
    ensures
        lru_capacity(*final(cache)) == lru_capacity(*old(cache)),
        names(lru_items(*final(cache))).no_duplicates(),
        ({
            let s = lru_items(*old(cache));
            let t = lru_items(*final(cache));
            let item = (k@, entry_view(v));
            if holds(s, k@) {
                &&& t == seq![item] + s.remove(position_in(s, k@))
                &&& old_item matches Some(o) && entry_view(o) == s[position_in(s, k@)].1
            } else if lru_capacity(*old(cache)) == 0 {
                &&& t == s
                &&& old_item is None
            } else if s.len() == lru_capacity(*old(cache)) {
                &&& t == seq![item] + s.drop_last()
                &&& old_item is None
            } else {
                &&& t == seq![item] + s
                &&& old_item is None
            }
        }),
{
    cache.put(k, v)
}

/// Calls `lru::LruCache::get` and hands out a copy of the item's content.
/// An item that is there moves to the front.
#[verifier::external_body]
fn lru_get_content(cache: &mut LruCache<String, CacheEntry>, k: &str) -> (r: Option<Vec<u8>>)
    ensures
        lru_capacity(*final(cache)) == lru_capacity(*old(cache)),
        names(lru_items(*final(cache))).no_duplicates(),
        ({
            let s = lru_items(*old(cache));
            let t = lru_items(*final(cache));
            if holds(s, k@) {
                &&& t == touched(s, k@)
                &&& r matches Some(c) && c@ == s[position_in(s, k@)].1.0
            } else {
                &&& t == s
                &&& r is None
            }
        }),
{
    cache.get(k).map(|e| e.content.clone())
}

/// Calls `lru::LruCache::pop`: takes the item named `k` out, if it is there;
/// the others keep their order.
#[verifier::external_body]
fn lru_pop(cache: &mut LruCache<String, CacheEntry>, k: &str) -> (r: Option<CacheEntry>)
    ensures
        lru_capacity(*final(cache)) == lru_capacity(*old(cache)),
        names(lru_items(*final(cache))).no_duplicates(),
        ({
            let s = lru_items(*old(cache));
            let t = lru_items(*final(cache));
            if holds(s, k@) {
                &&& t == s.remove(position_in(s, k@))
                &&& r matches Some(e) && entry_view(e) == s[position_in(s, k@)].1
            } else {
                &&& t == s
                &&& r is None
            }
        }),
{
    cache.pop(k)
}

/// Calls `lru::LruCache::get_mut` and sets the lifetime of the item named
/// `k`, which moves to the front; nothing happens when it is not there.
#[verifier::external_body]
fn lru_set_ttl(cache: &mut LruCache<String, CacheEntry>, k: &str, ttl: u64)
    ensures
        lru_capacity(*final(cache)) == lru_capacity(*old(cache)),
        names(lru_items(*final(cache))).no_duplicates(),
        ({
            let s = lru_items(*old(cache));
            let t = lru_items(*final(cache));
            let i = position_in(s, k@);
            if holds(s, k@) {
                t == seq![(k@, (s[i].1.0, s[i].1.1, ttl))] + s.remove(i)
            } else {
                t == s
            }
        }),
{
    if let Some(e) = cache.get_mut(k) {
        e.ttl = ttl;
    }
}

/// Calls `lru::LruCache::is_empty`.
#[verifier::external_body]
fn lru_is_empty(cache: &LruCache<String, CacheEntry>) -> (b: bool)
    ensures
        b == (lru_items(*cache).len() == 0),
{
    cache.is_empty()
}

/// Calls `lru::LruCache::iter`, which visits the items most recently used
/// first, and hands out each item's name, time of storing and lifetime.
#[verifier::external_body]
fn lru_ages(cache: &LruCache<String, CacheEntry>) -> (r: Vec<(String, u64, u64)>)
    ensures
        r@.len() == lru_items(*cache).len(),
        forall|i: int|
            0 <= i < r@.len() ==> (#[trigger] r@[i]).0@ == lru_items(*cache)[i].0 && r@[i].1
                == lru_items(*cache)[i].1.1 && r@[i].2 == lru_items(*cache)[i].1.2,
{
    cache.iter().map(|(k, e)| (k.clone(), e.timestamp, e.ttl)).collect()
}

/// The items of a store holding `s` after `content` is stored under `name`
/// at `now`: the new item first; an item of the same name leaves, and when
/// the store is full and the name is new, so does the least recently used.
pub open spec fn added(
    s: Seq<(Seq<char>, (Seq<u8>, u64, u64))>,
    name: Seq<char>,
    content: Seq<u8>,
    now: u64,
) -> Seq<(Seq<char>, (Seq<u8>, u64, u64))> {
    let item = (name, (content, now, DEFAULT_TTL));
    if holds(s, name) {
        seq![item] + s.remove(position_in(s, name))
    } else if s.len() < MAX_CACHE_SIZE {
        seq![item] + s
    } else {
        seq![item] + s.drop_last()
    }
}

/// Whether `item` has outlived its lifetime at `now`.
pub open spec fn expired(item: (Seq<char>, (Seq<u8>, u64, u64)), now: u64) -> bool {
    elapsed_between(item.1.1, now) >= item.1.2
}

/// The items of `s` that have not outlived their lifetime at `now`, in order.
pub open spec fn unexpired(s: Seq<(Seq<char>, (Seq<u8>, u64, u64))>, now: u64) -> Seq<
    (Seq<char>, (Seq<u8>, u64, u64)),
> {
    s.filter(|p: (Seq<char>, (Seq<u8>, u64, u64))| !expired(p, now))
}

proof fn lemma_position(s: Seq<(Seq<char>, (Seq<u8>, u64, u64))>, k: Seq<char>)
    requires
        holds(s, k),
    ensures
        0 <= position_in(s, k) < s.len(),
        s[position_in(s, k)].0 == k,
{
}

proof fn lemma_position_unique(s: Seq<(Seq<char>, (Seq<u8>, u64, u64))>, k: Seq<char>, j: int)
    requires
        names(s).no_duplicates(),
        0 <= j < s.len(),
        s[j].0 == k,
    ensures
        position_in(s, k) == j,
{
    let i = position_in(s, k);
    assert(names(s)[i] == names(s)[j]);
}

proof fn lemma_remove_names(s: Seq<(Seq<char>, (Seq<u8>, u64, u64))>, i: int)
    requires
        0 <= i < s.len(),
    ensures
        names(s.remove(i)) == names(s).remove(i),
{
    assert(names(s.remove(i)) =~= names(s).remove(i));
}

proof fn lemma_filter_and<A>(s: Seq<A>, p: spec_fn(A) -> bool, q: spec_fn(A) -> bool)
    ensures
        s.filter(p).filter(q) == s.filter(|x: A| p(x) && q(x)),
    decreases s.len(),
{
    reveal_with_fuel(Seq::filter, 1);
    if s.len() > 0 {
        lemma_filter_and(s.drop_last(), p, q);
        let f = s.drop_last().filter(p);
        if p(s.last()) {
            assert(f.push(s.last()).drop_last() =~= f);
        }
    }
}

proof fn lemma_filter_agree<A>(s: Seq<A>, p: spec_fn(A) -> bool, q: spec_fn(A) -> bool)
    requires
        forall|i: int| 0 <= i < s.len() ==> p(s[i]) == q(#[trigger] s[i]),
    ensures
        s.filter(p) == s.filter(q),
    decreases s.len(),
{
    reveal_with_fuel(Seq::filter, 1);
    if s.len() > 0 {
        assert forall|i: int| 0 <= i < s.drop_last().len() implies p(s.drop_last()[i]) == q(
            #[trigger] s.drop_last()[i],
        ) by {
            assert(s.drop_last()[i] == s[i]);
        }
        lemma_filter_agree(s.drop_last(), p, q);
        assert(p(s[s.len() - 1]) == q(s[s.len() - 1]));
    }
}

proof fn lemma_remove_is_filter(s: Seq<(Seq<char>, (Seq<u8>, u64, u64))>, k: Seq<char>)
    requires
        names(s).no_duplicates(),
        holds(s, k),
    ensures
        s.remove(position_in(s, k)) == s.filter(|x: (Seq<char>, (Seq<u8>, u64, u64))| x.0 != k),
    decreases s.len(),
{
    reveal_with_fuel(Seq::filter, 1);
    let i = position_in(s, k);
    let last = s.len() - 1;
    let d = s.drop_last();
    let p = |x: (Seq<char>, (Seq<u8>, u64, u64))| x.0 != k;
    assert(names(d) =~= names(s).drop_last());
    if i == last {
        assert(s.remove(i) =~= d);
        assert forall|j: int| 0 <= j < d.len() implies p(#[trigger] d[j]) == (|x: (
            Seq<char>,
            (Seq<u8>, u64, u64),
        )| true)(d[j]) by {
            assert(names(s)[j] != names(s)[last]);
        }
        lemma_filter_agree(d, p, |x: (Seq<char>, (Seq<u8>, u64, u64))| true);
        lemma_filter_true(d);
    } else {
        assert(d[i].0 == k);
        lemma_position_unique(d, k, i);
        lemma_remove_is_filter(d, k);
        assert(s.remove(i) =~= d.remove(i).push(s[last]));
        assert(names(s)[last] != names(s)[i]);
    }
}

proof fn lemma_drop_name(s: Seq<(Seq<char>, (Seq<u8>, u64, u64))>, k: Seq<char>)
    requires
        !holds(s, k),
    ensures
        s == s.filter(|x: (Seq<char>, (Seq<u8>, u64, u64))| x.0 != k),
{
    let p = |x: (Seq<char>, (Seq<u8>, u64, u64))| x.0 != k;
    assert forall|j: int| 0 <= j < s.len() implies p(#[trigger] s[j]) == (|x: (
        Seq<char>,
        (Seq<u8>, u64, u64),
    )| true)(s[j]) by {}
    lemma_filter_agree(s, p, |x: (Seq<char>, (Seq<u8>, u64, u64))| true);
    lemma_filter_true(s);
}

/// Only expired items have their names among those of the expired items.
proof fn lemma_expired_names(s: Seq<(Seq<char>, (Seq<u8>, u64, u64))>, now: u64, j: int)
    requires
        names(s).no_duplicates(),
        0 <= j < s.len(),
    ensures
        names(s.filter(|p: (Seq<char>, (Seq<u8>, u64, u64))| expired(p, now))).contains(s[j].0)
            == expired(s[j], now),
{
    let e = s.filter(|p: (Seq<char>, (Seq<u8>, u64, u64))| expired(p, now));
    let pe = |p: (Seq<char>, (Seq<u8>, u64, u64))| expired(p, now);
    if expired(s[j], now) {
        s.lemma_filter_contains(pe, j);
        let m = choose|m: int| 0 <= m < e.len() && e[m] == s[j];
        assert(names(e)[m] == s[j].0);
    }
    if names(e).contains(s[j].0) {
        let m = choose|m: int| 0 <= m < names(e).len() && names(e)[m] == s[j].0;
        assert(e.contains(e[m]));
        s.lemma_filter_contains_rev(pe, e[m]);
        s.lemma_filter_pred(pe, m);
        let i = choose|i: int| 0 <= i < s.len() && s[i] == e[m];
        assert(names(s)[i] == names(s)[j]);
    }
}

proof fn lemma_push_contains<A>(t: Seq<A>, k: A, v: A)
    ensures
        t.push(k).contains(v) == (t.contains(v) || v == k),
{
    if t.contains(v) {
        let i = choose|i: int| 0 <= i < t.len() && t[i] == v;
        assert(t.push(k)[i] == v);
    }
    if v == k {
        assert(t.push(k)[t.len() as int] == v);
    }
    if t.push(k).contains(v) {
        let i = choose|i: int| 0 <= i < t.push(k).len() && t.push(k)[i] == v;
        if i < t.len() {
            assert(t[i] == v);
        }
    }
}

proof fn lemma_filter_len<A>(s: Seq<A>, p: spec_fn(A) -> bool)
    ensures
        s.filter(p).len() <= s.len(),
{
    s.lemma_filter_len(p);
}

proof fn lemma_filter_true<A>(s: Seq<A>)
    ensures
        s.filter(|x: A| true) == s,
    decreases s.len(),
{
    reveal_with_fuel(Seq::filter, 1);
    if s.len() > 0 {
        lemma_filter_true(s.drop_last());
        assert(s.drop_last().push(s.last()) =~= s);
    }
}

/// Named content, cached with a bound on how many items it keeps.
pub struct ContentStore {
    cache: LruCache<String, CacheEntry>,
    clock: Instant,
}

impl ContentStore {
    /// The items, most recently used first.
    pub closed spec fn items(&self) -> Seq<(Seq<char>, (Seq<u8>, u64, u64))> {
        lru_items(self.cache)
    }

    /// Names occur once; the store holds at most `MAX_CACHE_SIZE` items.
    pub closed spec fn wf(&self) -> bool {
        &&& names(lru_items(self.cache)).no_duplicates()
        &&& lru_capacity(self.cache) == MAX_CACHE_SIZE
        &&& lru_items(self.cache).len() <= MAX_CACHE_SIZE
    }

    /// An empty store, whose clock starts now.
    pub fn new() -> (cs: Self)
        ensures
            cs.wf(),
            cs.items() == Seq::<(Seq<char>, (Seq<u8>, u64, u64))>::empty(),
    {
        let cache = lru_new(MAX_CACHE_SIZE);
        let cs = ContentStore { cache, clock: instant_now() };
        assert(names(cs.items()) =~= Seq::<Seq<char>>::empty());
        cs
    }

    /// Stores `content` under `name` at `now` (nanoseconds on the store's
    /// clock), with the default lifetime, as the most recently used item. An
    /// item under the same name is replaced; when the store is full and the
    /// name is new, the least recently used item is dropped.
    pub fn add_at(&mut self, name: String, content: Vec<u8>, now: u64)
        requires
            old(self).wf(),
        ensures
            final(self).wf(),
            final(self).items() == added(old(self).items(), name@, content@, now),
            ({
                let s = old(self).items();
                let item = (name@, (content@, now, DEFAULT_TTL));
                &&& holds(s, name@) ==> final(self).items() == seq![item] + s.remove(
                    position_in(s, name@),
                )
                &&& !holds(s, name@) && s.len() == MAX_CACHE_SIZE ==> final(self).items() == seq![item]
                    + s.drop_last()
                &&& !holds(s, name@) && s.len() < MAX_CACHE_SIZE ==> final(self).items() == seq![item]
                    + s
            }),
    {
        proof {
            self.lemma_bounded();
        }
        let entry = CacheEntry { content, timestamp: now, ttl: DEFAULT_TTL };
        lru_put(&mut self.cache, name, entry);
    }

    /// Stores `content` under `name` now; see `add_at`.
    pub fn add(&mut self, name: String, content: Vec<u8>)
        requires
            old(self).wf(),
        ensures
            final(self).wf(),
            final(self).items().len() >= 1,
            final(self).items()[0].0 == name@,
            final(self).items()[0].1.0 == content@,
            final(self).items()[0].1.2 == DEFAULT_TTL,
            exists|now: u64| final(self).items() == #[trigger] added(old(self).items(), name@, content@, now),
    {
        let now = nanos_since(&self.clock);
        self.add_at(name, content, now);
    }

    /// The content of the item named `name`, which becomes the most recently used.
    pub fn get(&mut self, name: &str) -> (r: Option<Vec<u8>>)
        requires
            old(self).wf(),
        ensures
            final(self).wf(),
            ({
                let s = old(self).items();
                &&& holds(s, name@) ==> (r matches Some(c) && c@ == s[position_in(s, name@)].1.0)
                    && final(self).items() == touched(s, name@)
                &&& !holds(s, name@) ==> r is None && final(self).items() == s
            }),
    {
        let r = lru_get_content(&mut self.cache, name);
        proof {
            let s = old(self).items();
            if holds(s, name@) {
                lemma_position(s, name@);
                assert(touched(s, name@).len() == s.len());
            }
        }
        r
    }

    /// Takes the item named `name` out of the store and hands back its content.
    pub fn get_and_pop(&mut self, name: &str) -> (r: Option<Vec<u8>>)
        requires
            old(self).wf(),
        ensures
            final(self).wf(),
            ({
                let s = old(self).items();
                &&& holds(s, name@) ==> (r matches Some(c) && c@ == s[position_in(s, name@)].1.0)
                    && final(self).items() == s.remove(position_in(s, name@))
                &&& !holds(s, name@) ==> r is None && final(self).items() == s
            }),
    {
        let ghost s = self.items();
        match lru_get_content(&mut self.cache, name) {
            Some(content) => {
                proof {
                    let i = position_in(s, name@);
                    lemma_position(s, name@);
                    let t = lru_items(self.cache);
                    assert(t[0].0 == name@);
                    lemma_position_unique(t, name@, 0);
                    assert(t.remove(0) =~= s.remove(i));
                }
                lru_pop(&mut self.cache, name);
                proof {
                    let i = position_in(s, name@);
                    lemma_remove_names(s, i);
                }
                Some(content)
            },
            None => None,
        }
    }

    /// Sets how long the item named `name` lives; it becomes the most
    /// recently used. Nothing happens when there is no such item.
    pub fn set_ttl(&mut self, name: &str, ttl: u64)
        requires
            old(self).wf(),
        ensures
            final(self).wf(),
            ({
                let s = old(self).items();
                let i = position_in(s, name@);
                &&& holds(s, name@) ==> final(self).items() == seq![(name@, (s[i].1.0, s[i].1.1, ttl))]
                    + s.remove(i)
                &&& !holds(s, name@) ==> final(self).items() == s
            }),
    {
        lru_set_ttl(&mut self.cache, name, ttl);
    }

    /// Drops every item that has outlived its lifetime at `now`
    /// (nanoseconds on the store's clock); the others keep their order.
    pub fn remove_expired_at(&mut self, now: u64)
        requires
            old(self).wf(),
        ensures
            final(self).wf(),
            final(self).items() == unexpired(old(self).items(), now),
    {
        let ghost s = self.items();
        let ghost pe = |p: (Seq<char>, (Seq<u8>, u64, u64))| expired(p, now);
        let ages = lru_ages(&self.cache);
        let mut expired_keys: Vec<String> = Vec::new();
        let n = ages.len();
        let mut i: usize = 0;
        while i < n
            invariant
                n == ages@.len(),
                n == s.len(),
                i <= n,
                pe == (|p: (Seq<char>, (Seq<u8>, u64, u64))| expired(p, now)),
                forall|m: int|
                    0 <= m < ages@.len() ==> (#[trigger] ages@[m]).0@ == s[m].0 && ages@[m].1
                        == s[m].1.1 && ages@[m].2 == s[m].1.2,
                expired_keys@.map_values(|k: String| k@) == names(s.subrange(0, i as int).filter(pe)),
            decreases n - i,
        {
            let ts = ages[i].1;
            let ttl = ages[i].2;
            let gone = if ts <= now {
                now - ts >= ttl
            } else {
                ttl == 0
            };
            proof {
                let sub = s.subrange(0, i + 1);
                assert(sub.drop_last() =~= s.subrange(0, i as int));
                assert(sub.last() == s[i as int]);
                reveal_with_fuel(Seq::filter, 1);
                assert(gone == expired(s[i as int], now));
            }
            if gone {
                let k = ages[i].0.clone();
                let ghost before = expired_keys@;
                expired_keys.push(k);
                proof {
                    let f = s.subrange(0, i as int).filter(pe);
                    assert(names(f.push(s[i as int])) =~= names(f).push(s[i as int].0));
                    assert(expired_keys@.map_values(|k: String| k@) =~= before.map_values(
                        |k: String| k@,
                    ).push(s[i as int].0));
                }
            }
            i = i + 1;
        }
        let ghost kn = expired_keys@.map_values(|k: String| k@);
        proof {
            assert(s.subrange(0, n as int) =~= s);
            assert(s.filter(|p: (Seq<char>, (Seq<u8>, u64, u64))| !kn.take(0).contains(p.0)) == s) by {
                lemma_filter_agree(
                    s,
                    |p: (Seq<char>, (Seq<u8>, u64, u64))| !kn.take(0).contains(p.0),
                    |p: (Seq<char>, (Seq<u8>, u64, u64))| true,
                );
                lemma_filter_true(s);
            }
        }
        let m = expired_keys.len();
        let mut j: usize = 0;
        while j < m
            invariant
                m == expired_keys@.len(),
                j <= m,
                kn == expired_keys@.map_values(|k: String| k@),
                lru_capacity(self.cache) == MAX_CACHE_SIZE,
                names(lru_items(self.cache)).no_duplicates(),
                names(s).no_duplicates(),
                s.len() <= MAX_CACHE_SIZE,
                lru_items(self.cache) == s.filter(
                    |p: (Seq<char>, (Seq<u8>, u64, u64))| !kn.take(j as int).contains(p.0),
                ),
            decreases m - j,
        {
            let ghost cur = lru_items(self.cache);
            let ghost k = kn[j as int];
            assert(expired_keys@[j as int]@ == k);
            lru_pop(&mut self.cache, expired_keys[j].as_str());
            proof {
                let q = |x: (Seq<char>, (Seq<u8>, u64, u64))| x.0 != k;
                if holds(cur, k) {
                    lemma_remove_is_filter(cur, k);
                } else {
                    lemma_drop_name(cur, k);
                }
                let pj = |p: (Seq<char>, (Seq<u8>, u64, u64))| !kn.take(j as int).contains(p.0);
                let pj1 = |p: (Seq<char>, (Seq<u8>, u64, u64))| !kn.take(j + 1).contains(p.0);
                lemma_filter_and(s, pj, q);
                assert(kn.take(j + 1) =~= kn.take(j as int).push(k));
                assert forall|x: int| 0 <= x < s.len() implies (|p: (Seq<char>, (Seq<u8>, u64, u64))| pj(p) && q(p))(
                    s[x],
                ) == pj1(#[trigger] s[x]) by {
                    lemma_push_contains(kn.take(j as int), k, s[x].0);
                }
                lemma_filter_agree(s, |p: (Seq<char>, (Seq<u8>, u64, u64))| pj(p) && q(p), pj1);
                lemma_filter_len(s, pj1);
            }
            j = j + 1;
        }
        proof {
            assert(kn.take(m as int) =~= kn);
            assert forall|x: int| 0 <= x < s.len() implies (|p: (Seq<char>, (Seq<u8>, u64, u64))| !kn.take(m as int).contains(p.0))(
                s[x],
            ) == (|p: (Seq<char>, (Seq<u8>, u64, u64))| !expired(p, now))(#[trigger] s[x]) by {
                lemma_expired_names(s, now, x);
            }
            lemma_filter_agree(
                s,
                |p: (Seq<char>, (Seq<u8>, u64, u64))| !kn.take(m as int).contains(p.0),
                |p: (Seq<char>, (Seq<u8>, u64, u64))| !expired(p, now),
            );
        }
    }

    /// Drops every item that has outlived its lifetime now.
    pub fn remove_expired(&mut self)
        requires
            old(self).wf(),
        ensures
            final(self).wf(),
            exists|now: u64| final(self).items() == #[trigger] unexpired(old(self).items(), now),
    {
        let now = nanos_since(&self.clock);
        self.remove_expired_at(now);
    }

    /// Whether the store holds nothing.
    pub fn is_empty(&self) -> (b: bool)
        ensures
            b == (self.items().len() == 0),
    {
        lru_is_empty(&self.cache)
    }
}

impl ContentStore {
    /// A well-formed store never holds more than `MAX_CACHE_SIZE` items,
    /// and never two under one name.
    pub proof fn lemma_bounded(&self)
        requires
            self.wf(),
        ensures
            self.items().len() <= MAX_CACHE_SIZE,
            names(self.items()).no_duplicates(),
    {
    }
}

/// Content just added is served once: `get_and_pop` on its name hands it
/// back, and afterwards no item of that name is left.
pub proof fn lemma_added_content_is_served_once(
    s: Seq<(Seq<char>, (Seq<u8>, u64, u64))>,
    name: Seq<char>,
    content: Seq<u8>,
)
    requires
        names(s).no_duplicates(),
        s.len() > 0,
        s[0].0 == name,
        s[0].1.0 == content,
    ensures
        holds(s, name),
        s[position_in(s, name)].1.0 == content,
        !holds(s.remove(position_in(s, name)), name),
{
    lemma_position_unique(s, name, 0);
    let t = s.remove(0);
    if holds(t, name) {
        let j = choose|j: int| 0 <= j < t.len() && t[j].0 == name;
        assert(t[j] == s[j + 1]);
        assert(names(s)[j + 1] == names(s)[0]);
    }
}

/// Dropping the expired items at `now` leaves exactly the items that have
/// not expired, in their order.
pub proof fn lemma_unexpired(s: Seq<(Seq<char>, (Seq<u8>, u64, u64))>, now: u64)
    ensures
        forall|i: int| 0 <= i < unexpired(s, now).len() ==> !expired(#[trigger] unexpired(s, now)[i], now),
        forall|i: int| 0 <= i < s.len() && !expired(s[i], now) ==> #[trigger] unexpired(s, now).contains(s[i]),
        unexpired(s, now).len() <= s.len(),
{
    let p = |x: (Seq<char>, (Seq<u8>, u64, u64))| !expired(x, now);
    assert forall|i: int| 0 <= i < unexpired(s, now).len() implies !expired(#[trigger] unexpired(s, now)[i], now) by {
        s.lemma_filter_pred(p, i);
    }
    assert forall|i: int| 0 <= i < s.len() && !expired(s[i], now) implies #[trigger] unexpired(s, now).contains(s[i]) by {
        s.lemma_filter_contains(p, i);
    }
    s.lemma_filter_len(p);
}

} // verus!
