//! Performance helpers: cache entries with a time to live, a sliding-window
//! rate limiter and request metrics.
use std::time::Instant;
use vstd::prelude::*;

use crate::clock::{elapsed_between, elapsed_ns, instant_now, nanos_since};
use crate::text::str_eq;

verus! {

/// A span of seconds in nanoseconds.
pub open spec fn secs_to_ns(secs: u64) -> int {
    secs * 1_000_000_000
}

/// `secs_to_ns` computed without overflow.
pub fn secs_to_nanos(secs: u64) -> (r: u128)
    ensures
        r == secs_to_ns(secs),
{
    (secs as u128) * 1_000_000_000
}

/// Cache entry with a time to live: it expires once more than `ttl_secs`
/// seconds have passed since it was created.
pub struct CacheEntry<T> {
    pub value: T,
    pub created_at: Instant,
    pub ttl_secs: u64,
}

/// An entry whose age is `age_ns` has outlived a time to live of `ttl_secs`.
pub open spec fn expired(age_ns: int, ttl_secs: u64) -> bool {
    age_ns > secs_to_ns(ttl_secs)
}

impl<T> CacheEntry<T> {
    /// A fresh entry holding `value`, created now.
    pub fn new(value: T, ttl_secs: u64) -> (r: Self)
        ensures
            r.value == value,
            r.ttl_secs == ttl_secs,
    {
        CacheEntry { value, created_at: instant_now(), ttl_secs }
    }

    /// Whether the entry has expired once `age_ns` nanoseconds have passed
    /// since its creation.
    pub fn is_expired_after(&self, age_ns: u128) -> (r: bool)
        ensures
            r == expired(age_ns as int, self.ttl_secs),
    {
        age_ns > secs_to_nanos(self.ttl_secs)
    }

    /// Whether the entry has expired by now.
    pub fn is_expired(&self) -> (r: bool)
        ensures
            exists|age: u128| r == expired(age as int, self.ttl_secs),
    {
        let age = nanos_since(&self.created_at);
        self.is_expired_after(age)
    }
}

/// One cached value: its key, the time it was stored (nanoseconds on the
/// cache's clock) and its time to live.
pub struct CachedItem<V> {
    pub key: String,
    pub value: V,
    pub created_ns: u128,
    pub ttl_secs: u64,
}

/// The item stored under `k`, if any (the latest one, should there be more).
pub open spec fn lookup<V>(s: Seq<CachedItem<V>>, k: Seq<char>) -> Option<CachedItem<V>>
    decreases s.len(),
{
    if s.len() == 0 {
        None
    } else if s.last().key@ == k {
        Some(s.last())
    } else {
        lookup(s.drop_last(), k)
    }
}

/// No key is stored twice.
pub open spec fn keys_unique<V>(s: Seq<CachedItem<V>>) -> bool
    decreases s.len(),
{
    s.len() == 0 || (keys_unique(s.drop_last()) && lookup(s.drop_last(), s.last().key@) is None)
}

/// The items of `s` except those stored under `k`, in order.
pub open spec fn without_key<V>(s: Seq<CachedItem<V>>, k: Seq<char>) -> Seq<CachedItem<V>>
    decreases s.len(),
{
    if s.len() == 0 {
        Seq::empty()
    } else {
        let p = without_key(s.drop_last(), k);
        if s.last().key@ == k {
            p
        } else {
            p.push(s.last())
        }
    }
}

/// An item is still fresh at time `now`.
pub open spec fn fresh<V>(item: CachedItem<V>, now: u128) -> bool {
    !expired(elapsed_ns(now, item.created_ns), item.ttl_secs)
}

/// The items of `s` that are still fresh at time `now`, in order.
pub open spec fn fresh_items<V>(s: Seq<CachedItem<V>>, now: u128) -> Seq<CachedItem<V>>
    decreases s.len(),
{
    if s.len() == 0 {
        Seq::empty()
    } else {
        let p = fresh_items(s.drop_last(), now);
        if fresh(s.last(), now) {
            p.push(s.last())
        } else {
            p
        }
    }
}

/// The value a lookup of `k` at time `now` answers with: the stored value
/// while it is fresh.
pub open spec fn fresh_lookup<V>(s: Seq<CachedItem<V>>, k: Seq<char>, now: u128) -> Option<V> {
    match lookup(s, k) {
        Some(item) => if fresh(item, now) {
            Some(item.value)
        } else {
            None
        },
        None => None,
    }
}

proof fn lemma_lookup_without<V>(s: Seq<CachedItem<V>>, k: Seq<char>, k2: Seq<char>)
    ensures
        lookup(without_key(s, k), k2) == (if k2 == k {
            None
        } else {
            lookup(s, k2)
        }),
    decreases s.len(),
{
    if s.len() > 0 {
        lemma_lookup_without(s.drop_last(), k, k2);
        let p = without_key(s.drop_last(), k);
        if s.last().key@ != k {
            assert(p.push(s.last()).drop_last() =~= p);
        }
    }
}

proof fn lemma_without_unique<V>(s: Seq<CachedItem<V>>, k: Seq<char>)
    requires
        keys_unique(s),
    ensures
        keys_unique(without_key(s, k)),
    decreases s.len(),
{
    if s.len() > 0 {
        lemma_without_unique(s.drop_last(), k);
        let p = without_key(s.drop_last(), k);
        if s.last().key@ != k {
            lemma_lookup_without(s.drop_last(), k, s.last().key@);
            assert(p.push(s.last()).drop_last() =~= p);
        }
    }
}

proof fn lemma_lookup_fresh<V>(s: Seq<CachedItem<V>>, k: Seq<char>, now: u128)
    requires
        keys_unique(s),
    ensures
        lookup(fresh_items(s, now), k) == (match lookup(s, k) {
            Some(item) => if fresh(item, now) {
                Some(item)
            } else {
                None
            },
            None => None,
        }),
        keys_unique(fresh_items(s, now)),
        lookup(s, k) is None ==> lookup(fresh_items(s, now), k) is None,
    decreases s.len(),
{
    if s.len() > 0 {
        lemma_lookup_fresh(s.drop_last(), k, now);
        lemma_lookup_fresh(s.drop_last(), s.last().key@, now);
        let p = fresh_items(s.drop_last(), now);
        if fresh(s.last(), now) {
            assert(p.push(s.last()).drop_last() =~= p);
        }
    }
}

proof fn lemma_prefix_unique<V>(s: Seq<CachedItem<V>>, i: int)
    requires
        keys_unique(s),
        0 <= i <= s.len(),
    ensures
        keys_unique(s.take(i)),
    decreases s.len() - i,
{
    if i < s.len() {
        lemma_prefix_unique(s, i + 1);
        assert(s.take(i + 1).drop_last() =~= s.take(i));
    } else {
        assert(s.take(i) =~= s);
    }
}

/// In-memory cache keyed by strings, each value with its own time to live.
/// Times are nanoseconds on the cache's own monotonic clock, counted from
/// its creation.
pub struct TimedCache<V> {
    entries: Vec<CachedItem<V>>,
    default_ttl_secs: u64,
    origin: Instant,
}

impl<V> TimedCache<V> {
    #[verifier::type_invariant]
    spec fn well_formed(self) -> bool {
        keys_unique(self.entries@)
    }

    /// The stored items.
    pub closed spec fn items(self) -> Seq<CachedItem<V>> {
        self.entries@
    }

    /// The time to live given to values stored with `set`.
    pub closed spec fn default_ttl(self) -> u64 {
        self.default_ttl_secs
    }

    /// An empty cache whose values live `ttl_secs` seconds by default; its
    /// clock starts now.
    pub fn new(ttl_secs: u64) -> (r: Self)
        ensures
            r.items() == Seq::<CachedItem<V>>::empty(),
            r.default_ttl() == ttl_secs,
    {
        TimedCache { entries: Vec::new(), default_ttl_secs: ttl_secs, origin: instant_now() }
    }

    /// The current time on the cache's clock.
    pub fn now_ns(&self) -> u128 {
        nanos_since(&self.origin)
    }

    /// Position of the item stored under `key`.
    fn position(&self, key: &str) -> (r: Option<usize>)
        ensures
            r matches Some(i) ==> i < self.items().len() && lookup(self.items(), key@) == Some(
                self.items()[i as int],
            ),
            r is None ==> lookup(self.items(), key@) is None,
    {
        proof {
            use_type_invariant(self);
        }
        let n = self.entries.len();
        let mut i: usize = n;
        proof {
            assert(self.entries@.take(n as int) =~= self.entries@);
        }
        while i > 0
            invariant
                n == self.entries@.len(),
                i <= n,
                keys_unique(self.entries@),
                lookup(self.entries@, key@) == lookup(self.entries@.take(i as int), key@),
            decreases i,
        {
            proof {
                assert(self.entries@.take(i as int).drop_last() =~= self.entries@.take(i - 1));
            }
            if str_eq(self.entries[i - 1].key.as_str(), key) {
                return Some(i - 1);
            }
            i = i - 1;
        }
        proof {
            assert(self.entries@.take(0) =~= Seq::<CachedItem<V>>::empty());
        }
        None
    }

    /// The value stored under `key` if it is still fresh at time `now`.
    pub fn get_at(&self, key: &str, now: u128) -> (r: Option<V>) where V: Clone
        ensures
            match (r, fresh_lookup(self.items(), key@, now)) {
                (Some(a), Some(b)) => cloned(b, a),
                (None, None) => true,
                _ => false,
            },
    {
        match self.position(key) {
            Some(i) => {
                let item = &self.entries[i];
                let age = elapsed_between(now, item.created_ns);
                if age > secs_to_nanos(item.ttl_secs) {
                    None
                } else {
                    Some(item.value.clone())
                }
            },
            None => None,
        }
    }

    /// The value stored under `key` if it is still fresh now.
    pub fn get(&self, key: &str) -> (r: Option<V>) where V: Clone
        ensures
            exists|now: u128|
                match (r, #[trigger] fresh_lookup(self.items(), key@, now)) {
                    (Some(a), Some(b)) => cloned(b, a),
                    (None, None) => true,
                    _ => false,
                },
    {
        let now = self.now_ns();
        self.get_at(key, now)
    }

    /// Store `value` under `key` at time `now`, living `ttl_secs` seconds;
    /// it replaces any value stored under that key.
    pub fn set_with_ttl_at(&mut self, key: String, value: V, ttl_secs: u64, now: u128)
        ensures
            final(self).items() == without_key(old(self).items(), key@).push(
                CachedItem { key, value, created_ns: now, ttl_secs },
            ),
            final(self).default_ttl() == old(self).default_ttl(),
    {
        proof {
            use_type_invariant(&*self);
        }
        self.remove_all(key.as_str());
        let ghost k = key@;
        let ghost before = self.entries@;
        proof {
            use_type_invariant(&*self);
            lemma_lookup_without(old(self).entries@, k, k);
        }
        let mut entries: Vec<CachedItem<V>> = Vec::new();
        std::mem::swap(&mut entries, &mut self.entries);
        entries.push(CachedItem { key, value, created_ns: now, ttl_secs });
        proof {
            assert(entries@.drop_last() =~= before);
        }
        self.entries = entries;
    }

    /// Store `value` under `key` now, living `ttl_secs` seconds.
    pub fn set_with_ttl(&mut self, key: String, value: V, ttl_secs: u64)
        ensures
            exists|now: u128|
                final(self).items() == without_key(old(self).items(), key@).push(
                    CachedItem { key, value, created_ns: now, ttl_secs },
                ),
            final(self).default_ttl() == old(self).default_ttl(),
    {
        let now = self.now_ns();
        self.set_with_ttl_at(key, value, ttl_secs, now);
    }

    /// Store `value` under `key` now, living the default time.
    pub fn set(&mut self, key: String, value: V)
        ensures
            exists|now: u128|
                final(self).items() == without_key(old(self).items(), key@).push(
                    CachedItem { key, value, created_ns: now, ttl_secs: old(self).default_ttl() },
                ),
            final(self).default_ttl() == old(self).default_ttl(),
    {
        let ttl = self.default_ttl_secs;
        self.set_with_ttl(key, value, ttl);
    }

    /// Drop every item stored under `key`, returning the value of the latest.
    fn remove_all(&mut self, key: &str) -> (r: Option<V>)
        ensures
            final(self).items() == without_key(old(self).items(), key@),
            match (r, lookup(old(self).items(), key@)) {
                (Some(a), Some(b)) => a == b.value,
                (None, None) => true,
                _ => false,
            },
            final(self).default_ttl() == old(self).default_ttl(),
    {
        proof {
            use_type_invariant(&*self);
        }
        let ghost all = self.entries@;
        let ghost k = key@;
        let mut taken: Vec<CachedItem<V>> = Vec::new();
        std::mem::swap(&mut taken, &mut self.entries);
        let mut kept: Vec<CachedItem<V>> = Vec::new();
        let mut removed: Option<V> = None;
        proof {
            assert(all.take(0) =~= Seq::<CachedItem<V>>::empty());
        }
        for item in it: taken
            invariant
                it.seq() == all,
                k == key@,
                keys_unique(all),
                kept@ == without_key(all.take(it.index() as int), k),
                match (removed, lookup(all.take(it.index() as int), k)) {
                    (Some(a), Some(b)) => a == b.value,
                    (None, None) => true,
                    _ => false,
                },
                self.entries@.len() == 0,
                self.default_ttl_secs == old(self).default_ttl_secs,
        {
            let ghost i = it.index() as int;
            proof {
                assert(all.take(i + 1).drop_last() =~= all.take(i));
                assert(all.take(i + 1).last() == item);
            }
            let ghost g = item;
            if str_eq(item.key.as_str(), key) {
                proof {
                    assert(without_key(all.take(i + 1), k) == without_key(all.take(i), k));
                    assert(lookup(all.take(i + 1), k) == Some(g));
                }
                removed = Some(item.value);
            } else {
                proof {
                    assert(without_key(all.take(i + 1), k) == without_key(all.take(i), k).push(g));
                    assert(lookup(all.take(i + 1), k) == lookup(all.take(i), k));
                }
                kept.push(item);
            }
        }
        proof {
            assert(all.take(all.len() as int) =~= all);
            lemma_without_unique(all, k);
        }
        self.entries = kept;
        removed
    }

    /// Remove the value stored under `key`, returning it.
    pub fn remove(&mut self, key: &str) -> (r: Option<V>)
        ensures
            final(self).items() == without_key(old(self).items(), key@),
            match (r, lookup(old(self).items(), key@)) {
                (Some(a), Some(b)) => a == b.value,
                (None, None) => true,
                _ => false,
            },
            final(self).default_ttl() == old(self).default_ttl(),
    {
        self.remove_all(key)
    }

    /// Remove every value.
    pub fn clear(&mut self)
        ensures
            final(self).items() == Seq::<CachedItem<V>>::empty(),
            final(self).default_ttl() == old(self).default_ttl(),
    {
        self.entries = Vec::new();
    }

    /// Remove the values that are no longer fresh at time `now`.
    pub fn cleanup_expired_at(&mut self, now: u128)
        ensures
            final(self).items() == fresh_items(old(self).items(), now),
            final(self).default_ttl() == old(self).default_ttl(),
    {
        proof {
            use_type_invariant(&*self);
        }
        let ghost all = self.entries@;
        let mut taken: Vec<CachedItem<V>> = Vec::new();
        std::mem::swap(&mut taken, &mut self.entries);
        let mut kept: Vec<CachedItem<V>> = Vec::new();
        proof {
            assert(all.take(0) =~= Seq::<CachedItem<V>>::empty());
        }
        for item in it: taken
            invariant
                it.seq() == all,
                keys_unique(all),
                kept@ == fresh_items(all.take(it.index() as int), now),
                self.entries@.len() == 0,
                self.default_ttl_secs == old(self).default_ttl_secs,
        {
            let ghost i = it.index() as int;
            proof {
                assert(all.take(i + 1).drop_last() =~= all.take(i));
                assert(all.take(i + 1).last() == item);
            }
            let age = elapsed_between(now, item.created_ns);
            if !(age > secs_to_nanos(item.ttl_secs)) {
                kept.push(item);
            }
        }
        proof {
            assert(all.take(all.len() as int) =~= all);
            lemma_lookup_fresh(all, Seq::empty(), now);
        }
        self.entries = kept;
    }

    /// Remove the values that are no longer fresh now.
    pub fn cleanup_expired(&mut self)
        ensures
            exists|now: u128| final(self).items() == fresh_items(old(self).items(), now),
            final(self).default_ttl() == old(self).default_ttl(),
    {
        let now = self.now_ns();
        self.cleanup_expired_at(now);
    }
}

/// A value read back at `later` from a cache where it was stored at `now`
/// with time to live `ttl_secs` is the value stored while no more than the
/// time to live has passed, and nothing afterwards; other keys read back
/// what they held before.
pub proof fn lemma_cache_read_after_write<V>(
    s: Seq<CachedItem<V>>,
    key: String,
    value: V,
    ttl_secs: u64,
    now: u128,
    later: u128,
    other: Seq<char>,
)
    requires
        other != key@,
    ensures
        fresh_lookup(
            without_key(s, key@).push(CachedItem { key, value, created_ns: now, ttl_secs }),
            key@,
            later,
        ) == (if elapsed_ns(later, now) <= secs_to_ns(ttl_secs) {
            Some(value)
        } else {
            None
        }),
        fresh_lookup(
            without_key(s, key@).push(CachedItem { key, value, created_ns: now, ttl_secs }),
            other,
            later,
        ) == fresh_lookup(s, other, later),
{
    lemma_lookup_without(s, key@, other);
    let w = without_key(s, key@);
    assert(w.push(CachedItem { key, value, created_ns: now, ttl_secs }).drop_last() =~= w);
}

/// After removing a key, nothing is read back under it; after a clean-up at
/// `now`, a key reads back at `now` what it read before.
pub proof fn lemma_cache_remove_and_cleanup<V>(s: Seq<CachedItem<V>>, key: Seq<char>, now: u128)
    requires
        keys_unique(s),
    ensures
        lookup(without_key(s, key), key) is None,
        fresh_lookup(fresh_items(s, now), key, now) == fresh_lookup(s, key, now),
{
    lemma_lookup_without(s, key, key);
    lemma_lookup_fresh(s, key, now);
}

/// A value stored at time `set` with a time to live of `ttl_secs` seconds
/// reads back, at any time `now` from `set` on, exactly while at most that
/// many seconds have passed, and never after; other keys read as before.
pub proof fn lemma_cache_expires_after_ttl<V>(
    s: Seq<CachedItem<V>>,
    key: String,
    value: V,
    ttl_secs: u64,
    set: u128,
    now: u128,
)
    requires
        set <= now,
    ensures
        now - set <= ttl_secs * 1_000_000_000 ==> fresh_lookup(
            without_key(s, key@).push(CachedItem { key, value, created_ns: set, ttl_secs }),
            key@,
            now,
        ) == Some(value),
        now - set > ttl_secs * 1_000_000_000 ==> fresh_lookup(
            without_key(s, key@).push(CachedItem { key, value, created_ns: set, ttl_secs }),
            key@,
            now,
        ) is None,
{
    let w = without_key(s, key@);
    assert(w.push(CachedItem { key, value, created_ns: set, ttl_secs }).drop_last() =~= w);
}

/// Rate limiter for API calls: at most `max_requests` accepted requests
/// within any window of `window_secs` seconds.
pub struct RateLimiter {
    requests: Vec<u128>,
    max_requests: usize,
    window_secs: u64,
    origin: Instant,
}

/// The content of a rate limiter: when the requests it still counts were
/// accepted (nanoseconds on its clock), and its limits.
pub struct RateLimiterView {
    pub requests: Seq<u128>,
    pub max_requests: usize,
    pub window_secs: u64,
}

impl View for RateLimiter {
    type V = RateLimiterView;

    closed spec fn view(&self) -> RateLimiterView {
        RateLimiterView {
            requests: self.requests@,
            max_requests: self.max_requests,
            window_secs: self.window_secs,
        }
    }
}

/// A request accepted at `t` still counts at time `now`: it lies after the
/// start of the window that ends at `now`.
pub open spec fn in_window(t: u128, now: u128, window_secs: u64) -> bool {
    t > now - secs_to_ns(window_secs)
}

/// The requests of `s` that still count at time `now`, in order.
pub open spec fn still_counted(s: Seq<u128>, now: u128, window_secs: u64) -> Seq<u128>
    decreases s.len(),
{
    if s.len() == 0 {
        Seq::empty()
    } else {
        let prev = still_counted(s.drop_last(), now, window_secs);
        if in_window(s.last(), now, window_secs) {
            prev.push(s.last())
        } else {
            prev
        }
    }
}

/// The decision and the new content after a check at time `now`: requests
/// outside the window are forgotten, then the request is accepted (and
/// remembered) when fewer than the maximum remain.
pub open spec fn checked_limiter(v: RateLimiterView, now: u128) -> (bool, RateLimiterView) {
    let kept = still_counted(v.requests, now, v.window_secs);
    if kept.len() < v.max_requests {
        (true, RateLimiterView { requests: kept.push(now), ..v })
    } else {
        (false, RateLimiterView { requests: kept, ..v })
    }
}

proof fn lemma_still_counted_len(s: Seq<u128>, now: u128, window_secs: u64)
    ensures
        still_counted(s, now, window_secs).len() <= s.len(),
    decreases s.len(),
{
    if s.len() > 0 {
        lemma_still_counted_len(s.drop_last(), now, window_secs);
    }
}

impl RateLimiter {
    /// A limiter allowing `max_requests` per window of `window_secs` seconds;
    /// its clock starts now.
    pub fn new(max_requests: usize, window_secs: u64) -> (r: Self)
        ensures
            r@ == (RateLimiterView { requests: Seq::empty(), max_requests, window_secs }),
    {
        RateLimiter { requests: Vec::new(), max_requests, window_secs, origin: instant_now() }
    }

    /// The current time on the limiter's clock, in nanoseconds since it was
    /// created.
    pub fn now_ns(&self) -> u128 {
        nanos_since(&self.origin)
    }

    /// Whether a request arriving at time `now` is allowed (it is then
    /// counted).
    pub fn check_at(&mut self, now: u128) -> (r: bool)
        ensures
            (r, final(self)@) == checked_limiter(old(self)@, now),
    {
        let window = secs_to_nanos(self.window_secs);
        let n = self.requests.len();
        let mut kept: Vec<u128> = Vec::new();
        let mut i: usize = 0;
        while i < n
            invariant
                n == self.requests@.len(),
                i <= n,
                window == secs_to_ns(self.window_secs),
                kept@ == still_counted(self.requests@.take(i as int), now, self.window_secs),
            decreases n - i,
        {
            let t = self.requests[i];
            let keep = if now >= window {
                t > now - window
            } else {
                true
            };
            proof {
                assert(self.requests@.take(i + 1).drop_last() =~= self.requests@.take(i as int));
            }
            if keep {
                kept.push(t);
            }
            i = i + 1;
        }
        proof {
            assert(self.requests@.take(n as int) =~= self.requests@);
        }
        self.requests = kept;
        if self.requests.len() < self.max_requests {
            self.requests.push(now);
            true
        } else {
            false
        }
    }

    /// Whether a request arriving now is allowed (it is then counted).
    pub fn check(&mut self) -> (r: bool)
        ensures
            exists|now: u128| (r, final(self)@) == checked_limiter(old(self)@, now),
    {
        let now = self.now_ns();
        self.check_at(now)
    }
}

/// A limiter never counts more requests than it allows: starting from a
/// state within the maximum (as every new limiter is), a check keeps it
/// within the maximum.
pub proof fn lemma_limiter_bounded(v: RateLimiterView, now: u128)
    requires
        v.requests.len() <= v.max_requests,
    ensures
        checked_limiter(v, now).1.requests.len() <= v.max_requests,
        checked_limiter(v, now).1.max_requests == v.max_requests,
        checked_limiter(v, now).1.window_secs == v.window_secs,
{
    lemma_still_counted_len(v.requests, now, v.window_secs);
}

/// A check is refused only when as many requests as allowed already count
/// within the window.
pub proof fn lemma_limiter_refuses_only_when_full(v: RateLimiterView, now: u128)
    ensures
        !checked_limiter(v, now).0 ==> still_counted(v.requests, now, v.window_secs).len()
            >= v.max_requests,
        checked_limiter(v, now).0 ==> checked_limiter(v, now).1.requests.last() == now,
{
}

/// The limiter after checks at the times `ts`, in order.
pub open spec fn run_checks(v: RateLimiterView, ts: Seq<u128>) -> RateLimiterView
    decreases ts.len(),
{
    if ts.len() == 0 {
        v
    } else {
        checked_limiter(run_checks(v, ts.drop_last()), ts.last()).1
    }
}

/// The times of the checks among `ts` that were allowed, in order.
pub open spec fn accepted_upto(v: RateLimiterView, ts: Seq<u128>) -> Seq<u128>
    decreases ts.len(),
{
    if ts.len() == 0 {
        Seq::empty()
    } else {
        let prev = accepted_upto(v, ts.drop_last());
        if checked_limiter(run_checks(v, ts.drop_last()), ts.last()).0 {
            prev.push(ts.last())
        } else {
            prev
        }
    }
}

/// Forgetting the requests outside an earlier window, then those outside a
/// later one, forgets the same as the later one alone.
proof fn lemma_still_counted_twice(s: Seq<u128>, a: u128, b: u128, w: u64)
    requires
        a <= b,
    ensures
        still_counted(still_counted(s, a, w), b, w) == still_counted(s, b, w),
    decreases s.len(),
{
    if s.len() > 0 {
        lemma_still_counted_twice(s.drop_last(), a, b, w);
        let prev = still_counted(s.drop_last(), a, w);
        if in_window(s.last(), a, w) {
            assert(prev.push(s.last()).drop_last() =~= prev);
        }
    }
}

/// What a limiter counts after checks at non-decreasing times, at any later
/// time, is what was allowed among them; it never holds more than the
/// maximum.
pub proof fn lemma_run_counts_accepted(v: RateLimiterView, ts: Seq<u128>, t: u128)
    requires
        v.requests.len() == 0,
        forall|i: int, j: int| 0 <= i < j < ts.len() ==> ts[i] <= ts[j],
        ts.len() > 0 ==> ts.last() <= t,
    ensures
        still_counted(run_checks(v, ts).requests, t, v.window_secs) == still_counted(
            accepted_upto(v, ts),
            t,
            v.window_secs,
        ),
        run_checks(v, ts).requests.len() <= v.max_requests,
        run_checks(v, ts).max_requests == v.max_requests,
        run_checks(v, ts).window_secs == v.window_secs,
    decreases ts.len(),
{
    if ts.len() > 0 {
        let pre = ts.drop_last();
        let now = ts.last();
        lemma_run_counts_accepted(v, pre, now);
        let w = run_checks(v, pre);
        lemma_limiter_bounded(w, now);
        lemma_still_counted_twice(w.requests, now, t, v.window_secs);
        lemma_run_counts_accepted(v, pre, t);
        let kept = still_counted(w.requests, now, v.window_secs);
        let acc = accepted_upto(v, pre);
        if checked_limiter(w, now).0 {
            assert(kept.push(now).drop_last() =~= kept);
            assert(acc.push(now).drop_last() =~= acc);
        }
    }
}

/// A check on a new limiter, after earlier checks at non-decreasing times,
/// is allowed exactly when fewer than the maximum of the earlier allowed
/// checks lie within the window ending at its time; with a maximum of zero
/// nothing is ever allowed.
pub proof fn lemma_limiter_answers_by_accepted(
    max_requests: usize,
    window_secs: u64,
    ts: Seq<u128>,
    k: int,
)
    requires
        forall|i: int, j: int| 0 <= i < j < ts.len() ==> ts[i] <= ts[j],
        0 <= k < ts.len(),
    ensures
        checked_limiter(
            run_checks(
                RateLimiterView { requests: Seq::empty(), max_requests, window_secs },
                ts.take(k),
            ),
            ts[k],
        ).0 == (still_counted(
            accepted_upto(
                RateLimiterView { requests: Seq::empty(), max_requests, window_secs },
                ts.take(k),
            ),
            ts[k],
            window_secs,
        ).len() < max_requests),
        max_requests == 0 ==> !checked_limiter(
            run_checks(
                RateLimiterView { requests: Seq::empty(), max_requests, window_secs },
                ts.take(k),
            ),
            ts[k],
        ).0,
{
    let v = RateLimiterView { requests: Seq::empty(), max_requests, window_secs };
    let pre = ts.take(k);
    if k > 0 {
        assert(pre.last() == ts[k - 1]);
    }
    lemma_run_counts_accepted(v, pre, ts[k]);
}

proof fn lemma_none_counted(s: Seq<u128>, now: u128, w: u64)
    requires
        forall|i: int| 0 <= i < s.len() ==> s[i] + w * 1_000_000_000 <= now,
    ensures
        still_counted(s, now, w).len() == 0,
    decreases s.len(),
{
    if s.len() > 0 {
        lemma_none_counted(s.drop_last(), now, w);
    }
}

/// A check that comes a whole window or more after every request the
/// limiter still counts is allowed whenever the maximum is not zero, and
/// afterwards only it is counted.
pub proof fn lemma_limiter_allows_after_quiet_window(v: RateLimiterView, now: u128)
    requires
        v.max_requests > 0,
        forall|i: int| 0 <= i < v.requests.len() ==> v.requests[i] + v.window_secs * 1_000_000_000 <= now,
    ensures
        checked_limiter(v, now).0,
        checked_limiter(v, now).1.requests == seq![now],
{
    lemma_none_counted(v.requests, now, v.window_secs);
    assert(still_counted(v.requests, now, v.window_secs) =~= Seq::<u128>::empty());
    assert(Seq::<u128>::empty().push(now) =~= seq![now]);
}

/// A check is allowed exactly when fewer than the maximum of the requests
/// it holds were accepted less than a window before it.
pub proof fn lemma_limiter_counts_recent(v: RateLimiterView, now: u128)
    ensures
        checked_limiter(v, now).0 == (still_counted(v.requests, now, v.window_secs).len()
            < v.max_requests),
        forall|t: u128|
            #![trigger in_window(t, now, v.window_secs)]
            in_window(t, now, v.window_secs) <==> t + v.window_secs * 1_000_000_000 > now,
{
}

/// However the checks come, at non-decreasing times, to a new limiter: the
/// checks allowed up to any one of them that lie within the window ending at
/// its time are never more than the maximum.
pub proof fn lemma_limiter_window_law(max_requests: usize, window_secs: u64, ts: Seq<u128>, k: int)
    requires
        forall|i: int, j: int| 0 <= i < j < ts.len() ==> ts[i] <= ts[j],
        0 <= k < ts.len(),
    ensures
        still_counted(
            accepted_upto(
                RateLimiterView { requests: Seq::empty(), max_requests, window_secs },
                ts.take(k + 1),
            ),
            ts[k],
            window_secs,
        ).len() <= max_requests,
{
    let v = RateLimiterView { requests: Seq::empty(), max_requests, window_secs };
    let pre = ts.take(k + 1);
    assert(pre.last() == ts[k]);
    lemma_run_counts_accepted(v, pre, ts[k]);
    lemma_still_counted_len(run_checks(v, pre).requests, ts[k], window_secs);
}

/// Performance metrics.
#[derive(Debug, Clone, Copy)]
pub struct Metrics {
    pub request_count: u64,
    pub error_count: u64,
    pub total_latency_ms: u64,
    pub cache_hits: u64,
    pub cache_misses: u64,
}

impl Default for Metrics {
    fn default() -> (r: Self)
        ensures
            r == (Metrics {
                request_count: 0,
                error_count: 0,
                total_latency_ms: 0,
                cache_hits: 0,
                cache_misses: 0,
            }),
    {
        Metrics { request_count: 0, error_count: 0, total_latency_ms: 0, cache_hits: 0, cache_misses: 0 }
    }
}

/// The metrics after a request of `latency_ms` was served.
pub open spec fn with_request(m: Metrics, latency_ms: u64) -> Metrics {
    Metrics {
        request_count: (m.request_count + 1) as u64,
        total_latency_ms: (m.total_latency_ms + latency_ms) as u64,
        ..m
    }
}

/// Average latency in milliseconds, rounded down; zero before any request.
pub open spec fn average_latency(m: Metrics) -> int {
    if m.request_count > 0 {
        m.total_latency_ms as int / m.request_count as int
    } else {
        0
    }
}

impl Metrics {
    /// Record a served request and its latency.
    pub fn record_request(&mut self, latency_ms: u64)
        requires
            old(self).request_count < u64::MAX,
            old(self).total_latency_ms + latency_ms <= u64::MAX,
        ensures
            *final(self) == with_request(*old(self), latency_ms),
    {
        self.request_count = self.request_count + 1;
        self.total_latency_ms = self.total_latency_ms + latency_ms;
    }

    /// Record an error.
    pub fn record_error(&mut self)
        requires
            old(self).error_count < u64::MAX,
        ensures
            *final(self) == (Metrics { error_count: (old(self).error_count + 1) as u64, ..*old(self) }),
    {
        self.error_count = self.error_count + 1;
    }

    /// Record a cache hit.
    pub fn record_cache_hit(&mut self)
        requires
            old(self).cache_hits < u64::MAX,
        ensures
            *final(self) == (Metrics { cache_hits: (old(self).cache_hits + 1) as u64, ..*old(self) }),
    {
        self.cache_hits = self.cache_hits + 1;
    }

    /// Record a cache miss.
    pub fn record_cache_miss(&mut self)
        requires
            old(self).cache_misses < u64::MAX,
        ensures
            *final(self) == (Metrics {
                cache_misses: (old(self).cache_misses + 1) as u64,
                ..*old(self)
            }),
    {
        self.cache_misses = self.cache_misses + 1;
    }

    /// Average latency in milliseconds (rounded down; zero before any
    /// request).
    pub fn avg_latency_ms(&self) -> (r: u64)
        ensures
            r == average_latency(*self),
    {
        if self.request_count > 0 {
            self.total_latency_ms / self.request_count
        } else {
            0
        }
    }
}

/// The metrics after `n` requests of `latency_ms` each, starting from `m`.
pub open spec fn with_requests(m: Metrics, latency_ms: u64, n: nat) -> Metrics
    decreases n,
{
    if n == 0 {
        m
    } else {
        with_request(with_requests(m, latency_ms, (n - 1) as nat), latency_ms)
    }
}

/// Starting from empty metrics, `n > 0` requests of equal latency `l` (with
/// no counter overflowing) average exactly `l`.
pub proof fn lemma_uniform_latency_average(l: u64, n: nat)
    requires
        n > 0,
        n * l <= u64::MAX,
        n <= u64::MAX,
    ensures
        with_requests(
            Metrics {
                request_count: 0,
                error_count: 0,
                total_latency_ms: 0,
                cache_hits: 0,
                cache_misses: 0,
            },
            l,
            n,
        ).request_count == n,
        average_latency(
            with_requests(
                Metrics {
                    request_count: 0,
                    error_count: 0,
                    total_latency_ms: 0,
                    cache_hits: 0,
                    cache_misses: 0,
                },
                l,
                n,
            ),
        ) == l,
{
    let z = Metrics { request_count: 0, error_count: 0, total_latency_ms: 0, cache_hits: 0, cache_misses: 0 };
    lemma_requests_totals(z, l, n);
    vstd::arithmetic::div_mod::lemma_div_by_multiple(l as int, n as int);
    assert((n * l) as int == l * n) by (nonlinear_arith);
}

proof fn lemma_requests_totals(z: Metrics, l: u64, n: nat)
    requires
        z.request_count == 0,
        z.total_latency_ms == 0,
        n * l <= u64::MAX,
        n <= u64::MAX,
    ensures
        with_requests(z, l, n).request_count == n,
        with_requests(z, l, n).total_latency_ms == n * l,
    decreases n,
{
    if n > 0 {
        let k = (n - 1) as nat;
        assert(k * l <= n * l) by (nonlinear_arith)
            requires
                k + 1 == n,
        ;
        lemma_requests_totals(z, l, k);
        let prev = with_requests(z, l, k);
        assert(prev.total_latency_ms == k * l);
        assert(k * l + l == n * l) by (nonlinear_arith)
            requires
                k + 1 == n,
        ;
        assert(with_requests(z, l, n) == with_request(prev, l));
    } else {
        assert(n * l == 0) by (nonlinear_arith)
            requires
                n == 0,
        ;
    }
}

} // verus!
