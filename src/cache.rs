use lru_cache::LruCache;
use std::hash::{BuildHasher, Hash};
use vstd::prelude::*;

verus! {

/// The authorization-relevant projection of a user record that the cache
/// mirrors.
#[derive(Clone, Copy, Debug, PartialEq, Eq, Structural)]
pub struct UserState {
    pub uid: i64,
    pub email_verified: bool,
}

#[verifier::external_type_specification]
#[verifier::external_body]
#[verifier::reject_recursive_types(K)]
#[verifier::reject_recursive_types(V)]
#[verifier::reject_recursive_types(S)]
pub struct ExLruCache<K: Eq + Hash, V, S: BuildHasher>(LruCache<K, V, S>);

/// The entries of an `LruCache`, from least to most recently used.
pub uninterp spec fn lru_entries(c: LruCache<i64, UserState>) -> Seq<(i64, UserState)>;

/// The capacity an `LruCache` was made with.
pub uninterp spec fn lru_capacity(c: LruCache<i64, UserState>) -> nat;

/// The value stored under `k` in `s`, looking from the most recent entry.
pub open spec fn lookup(s: Seq<(i64, UserState)>, k: i64) -> Option<UserState>
    decreases s.len(),
{
    if s.len() == 0 {
        None
    } else if s.last().0 == k {
        Some(s.last().1)
    } else {
        lookup(s.drop_last(), k)
    }
}

/// `s` with every entry under `k` taken out, the others in their order.
pub open spec fn without_key(s: Seq<(i64, UserState)>, k: i64) -> Seq<(i64, UserState)>
    decreases s.len(),
{
    if s.len() == 0 {
        s
    } else if s.last().0 == k {
        without_key(s.drop_last(), k)
    } else {
        without_key(s.drop_last(), k).push(s.last())
    }
}

/// Whether some entry of `s` is stored under `k`.
pub open spec fn has_key(s: Seq<(i64, UserState)>, k: i64) -> bool {
    lookup(s, k) is Some
}

/// No key occurs twice in `s`.
pub open spec fn keys_distinct(s: Seq<(i64, UserState)>) -> bool
    decreases s.len(),
{
    s.len() == 0 || (keys_distinct(s.drop_last()) && !has_key(s.drop_last(), s.last().0))
}

/// The entries after `(k, v)` is inserted into a cache of capacity `cap`:
/// `k` moves to the most recent place, and the least recently used entry
/// leaves when the cache is over capacity.
pub open spec fn after_insert(s: Seq<(i64, UserState)>, cap: nat, k: i64, v: UserState) -> Seq<
    (i64, UserState),
> {
    let t = without_key(s, k).push((k, v));
    if t.len() > cap {
        t.drop_first()
    } else {
        t
    }
}

/// The entries after a read of `k`: a present key moves to the most recent
/// place.
pub open spec fn after_touch(s: Seq<(i64, UserState)>, k: i64) -> Seq<(i64, UserState)> {
    match lookup(s, k) {
        Some(v) => without_key(s, k).push((k, v)),
        None => s,
    }
}

/// Relies on `LruCache::new`: an empty cache holding at most `capacity` entries.
#[verifier::external_body]
fn lru_new(capacity: usize) -> (r: LruCache<i64, UserState>)
    ensures
        lru_entries(r) == Seq::<(i64, UserState)>::empty(),
        lru_capacity(r) == capacity,
{
    LruCache::new(capacity)
}

/// Relies on `LruCache::get_mut`, which refreshes the entry it finds
/// (`LinkedHashMap::get_refresh`); the value is copied out.
#[verifier::external_body]
fn lru_get(c: &mut LruCache<i64, UserState>, k: i64) -> (r: Option<UserState>)
    ensures
        r == lookup(lru_entries(*old(c)), k),
        lru_entries(*final(c)) == after_touch(lru_entries(*old(c)), k),
        lru_capacity(*final(c)) == lru_capacity(*old(c)),
{
    c.get_mut(&k).map(|v| *v)
}

/// Relies on `LruCache::insert`: `LinkedHashMap::insert` replaces the value of
/// a present key and moves it to the back, then `remove_lru` pops the front
/// while the length exceeds the capacity. The old value is returned.
#[verifier::external_body]
fn lru_insert(c: &mut LruCache<i64, UserState>, k: i64, v: UserState) -> (r: Option<UserState>)
    ensures
        r == lookup(lru_entries(*old(c)), k),
        lru_entries(*final(c)) == after_insert(lru_entries(*old(c)), lru_capacity(*old(c)), k, v),
        lru_capacity(*final(c)) == lru_capacity(*old(c)),
{
    c.insert(k, v)
}

/// Relies on `LruCache::remove`: the entry under `k` leaves, the order of the
/// others is kept, and its value is returned.
#[verifier::external_body]
fn lru_remove(c: &mut LruCache<i64, UserState>, k: i64) -> (r: Option<UserState>)
    ensures
        r == lookup(lru_entries(*old(c)), k),
        lru_entries(*final(c)) == without_key(lru_entries(*old(c)), k),
        lru_capacity(*final(c)) == lru_capacity(*old(c)),
{
    c.remove(&k)
}

/// Relies on `LruCache::clear`: every entry leaves; the capacity stays.
#[verifier::external_body]
fn lru_clear(c: &mut LruCache<i64, UserState>)
    ensures
        lru_entries(*final(c)) == Seq::<(i64, UserState)>::empty(),
        lru_capacity(*final(c)) == lru_capacity(*old(c)),
{
    c.clear()
}

/// A least-recently-used cache of user state keyed by user id. Reads and
/// writes both count as a use; it has no expiry of its own.
pub struct CacheManager {
    cache: LruCache<i64, UserState>,
}

impl CacheManager {
    /// The entries, from least to most recently used.
    pub closed spec fn entries(&self) -> Seq<(i64, UserState)> {
        lru_entries(self.cache)
    }

    /// The most entries the cache holds.
    pub closed spec fn capacity(&self) -> nat {
        lru_capacity(self.cache)
    }

    /// The state cached for `uid`, if any.
    pub open spec fn cached(&self, uid: i64) -> Option<UserState> {
        lookup(self.entries(), uid)
    }

    pub open spec fn wf(&self) -> bool {
        &&& keys_distinct(self.entries())
        &&& self.entries().len() <= self.capacity()
    }

    pub fn new(capacity: usize) -> (r: Self)
        ensures
            r.wf(),
            r.entries() == Seq::<(i64, UserState)>::empty(),
            r.capacity() == capacity,
    {
        CacheManager { cache: lru_new(capacity) }
    }

    /// The cached state of `key`, which becomes the most recently used entry.
    pub fn get(&mut self, key: &i64) -> (r: Option<UserState>)
        requires
            old(self).wf(),
        ensures
            final(self).wf(),
            r == old(self).cached(*key),
            final(self).entries() == after_touch(old(self).entries(), *key),
            final(self).capacity() == old(self).capacity(),
    {
        let r = lru_get(&mut self.cache, *key);
        proof {
            lemma_after_touch(old(self).entries(), *key);
        }
        r
    }

    /// Stores `value` under `key` as the most recently used entry, evicting the
    /// least recently used one when the cache is full.
    pub fn insert(&mut self, key: i64, value: UserState)
        requires
            old(self).wf(),
        ensures
            final(self).wf(),
            final(self).entries() == after_insert(
                old(self).entries(),
                old(self).capacity(),
                key,
                value,
            ),
            final(self).capacity() == old(self).capacity(),
    {
        lru_insert(&mut self.cache, key, value);
        proof {
            lemma_after_insert(old(self).entries(), old(self).capacity(), key, value);
        }
    }

    /// Takes out any entry of `key`, then stores `value` as the most recently
    /// used entry.
    pub fn replace(&mut self, key: i64, value: UserState)
        requires
            old(self).wf(),
        ensures
            final(self).wf(),
            final(self).entries() == after_insert(
                without_key(old(self).entries(), key),
                old(self).capacity(),
                key,
                value,
            ),
            final(self).capacity() == old(self).capacity(),
    {
        self.remove(&key);
        self.insert(key, value);
    }

    /// Takes out the entry of `key` and returns its state.
    pub fn remove(&mut self, key: &i64) -> (r: Option<UserState>)
        requires
            old(self).wf(),
        ensures
            final(self).wf(),
            r == old(self).cached(*key),
            final(self).entries() == without_key(old(self).entries(), *key),
            final(self).capacity() == old(self).capacity(),
    {
        let r = lru_remove(&mut self.cache, *key);
        proof {
            lemma_without_key(old(self).entries(), *key);
        }
        r
    }

    /// Empties the cache.
    pub fn clear(&mut self)
        requires
            old(self).wf(),
        ensures
            final(self).wf(),
            final(self).entries() == Seq::<(i64, UserState)>::empty(),
            final(self).capacity() == old(self).capacity(),
    {
        lru_clear(&mut self.cache);
    }
}

/// Taking `k` out of `s` leaves no entry of `k`, keeps the entries'
/// distinctness, and shortens a distinct `s` by one exactly when `k` was there.
pub proof fn lemma_without_key(s: Seq<(i64, UserState)>, k: i64)
    ensures
        !has_key(without_key(s, k), k),
        !has_key(s, k) ==> without_key(s, k) == s,
        without_key(s, k).len() <= s.len(),
        keys_distinct(s) ==> keys_distinct(without_key(s, k)),
        keys_distinct(s) && has_key(s, k) ==> without_key(s, k).len() + 1 == s.len(),
    decreases s.len(),
{
    if s.len() > 0 {
        let p = s.drop_last();
        let e = s.last();
        lemma_without_key(p, k);
        let w = without_key(p, k);
        if e.0 != k {
            assert(w.push(e).drop_last() =~= w);
            assert(p.push(e) =~= s);
            if keys_distinct(s) {
                lemma_without_key_lookup(p, k, e.0);
            }
        }
    }
}

/// Taking `k` out of `s` keeps the value of every other key.
pub proof fn lemma_without_key_lookup(s: Seq<(i64, UserState)>, k: i64, j: i64)
    requires
        j != k,
    ensures
        lookup(without_key(s, k), j) == lookup(s, j),
    decreases s.len(),
{
    if s.len() > 0 {
        let p = s.drop_last();
        let e = s.last();
        lemma_without_key_lookup(p, k, j);
        let w = without_key(p, k);
        if e.0 != k {
            assert(w.push(e).drop_last() =~= w);
        }
    }
}

/// Each entry's key is held by `s`.
proof fn lemma_index_has_key(s: Seq<(i64, UserState)>, i: int)
    requires
        0 <= i < s.len(),
    ensures
        has_key(s, s[i].0),
    decreases s.len(),
{
    if i < s.len() - 1 && s.last().0 != s[i].0 {
        lemma_index_has_key(s.drop_last(), i);
    }
}

/// Dropping the least recent entry keeps distinctness and every other key.
proof fn lemma_drop_first_lookup(s: Seq<(i64, UserState)>, k: i64)
    requires
        s.len() > 0,
        keys_distinct(s),
    ensures
        keys_distinct(s.drop_first()),
        k != s[0].0 ==> lookup(s.drop_first(), k) == lookup(s, k),
        k == s[0].0 ==> !has_key(s.drop_first(), k),
    decreases s.len(),
{
    if s.len() > 1 {
        let p = s.drop_last();
        let x = s.last().0;
        lemma_drop_first_lookup(p, k);
        lemma_drop_first_lookup(p, x);
        lemma_index_has_key(p, 0);
        let d = s.drop_first();
        assert(d.drop_last() =~= p.drop_first());
        assert(d.last() == s.last());
        assert(p[0] == s[0]);
        assert(!has_key(p, x));
        assert(!has_key(p.drop_first(), x));
        assert(keys_distinct(d));
        if k != s[0].0 && s.last().0 != k {
            assert(lookup(d, k) == lookup(p.drop_first(), k));
        }
    } else {
        assert(s.drop_first() =~= Seq::<(i64, UserState)>::empty());
        assert(keys_distinct(s.drop_first()));
        assert(lookup(s.drop_last(), k) is None);
    }
}

/// Inserting a new key into a full cache evicts exactly the least recently
/// used entry, and the new key becomes the most recently used.
pub proof fn lemma_full_insert_evicts_least_recent(
    s: Seq<(i64, UserState)>,
    cap: nat,
    k: i64,
    v: UserState,
)
    requires
        keys_distinct(s),
        s.len() == cap,
        cap > 0,
        !has_key(s, k),
    ensures
        after_insert(s, cap, k, v) == s.drop_first().push((k, v)),
        !has_key(after_insert(s, cap, k, v), s[0].0),
        forall|j: int| 1 <= j < s.len() ==> lookup(after_insert(s, cap, k, v), #[trigger] s[j].0) == lookup(s, s[j].0),
{
    lemma_without_key(s, k);
    let t = s.push((k, v));
    assert(t.drop_first() =~= s.drop_first().push((k, v)));
    assert(t.drop_last() =~= s);
    lemma_drop_first_lookup(t, s[0].0);
    assert forall|j: int| 1 <= j < s.len() implies lookup(after_insert(s, cap, k, v), #[trigger] s[j].0) == lookup(s, s[j].0) by {
        lemma_index_has_key(s, j);
        lemma_index_has_key(s, 0);
        lemma_distinct_index(s, 0, j);
        lemma_drop_first_lookup(t, s[j].0);
    }
}

/// A read makes its key the most recently used: when a new key then fills
/// the cache, the key that was read stays with its value.
pub proof fn lemma_read_refreshes(
    s: Seq<(i64, UserState)>,
    cap: nat,
    k: i64,
    j: i64,
    v: UserState,
)
    requires
        keys_distinct(s),
        s.len() == cap,
        cap >= 2,
        has_key(s, k),
        !has_key(s, j),
    ensures
        after_touch(s, k).last() == (k, lookup(s, k).unwrap()),
        lookup(after_insert(after_touch(s, k), cap, j, v), k) == lookup(s, k),
{
    lemma_without_key(s, k);
    lemma_without_key_lookup(s, k, j);
    lemma_after_touch(s, k);
    let w = without_key(s, k);
    let s2 = after_touch(s, k);
    assert(s2.drop_last() =~= w);
    assert(!has_key(s2, j));
    lemma_without_key(s2, j);
    let t = s2.push((j, v));
    assert(t.drop_last() =~= s2);
    assert(w.len() >= 1);
    lemma_index_has_key(w, 0);
    assert(t[0] == w[0]);
    assert(k != t[0].0);
    assert(j != k);
    lemma_drop_first_lookup(t, k);
    assert(lookup(t, k) == lookup(s2, k));
    assert(after_insert(s2, cap, j, v) == t.drop_first());
}

/// Two places of a distinct `s` hold two keys.
proof fn lemma_distinct_index(s: Seq<(i64, UserState)>, i: int, j: int)
    requires
        keys_distinct(s),
        0 <= i < j < s.len(),
    ensures
        s[i].0 != s[j].0,
    decreases s.len(),
{
    if j < s.len() - 1 {
        lemma_distinct_index(s.drop_last(), i, j);
    } else {
        lemma_index_has_key(s.drop_last(), i);
    }
}

proof fn lemma_after_touch(s: Seq<(i64, UserState)>, k: i64)
    requires
        keys_distinct(s),
    ensures
        keys_distinct(after_touch(s, k)),
        after_touch(s, k).len() == s.len(),
{
    lemma_without_key(s, k);
    if has_key(s, k) {
        let w = without_key(s, k);
        assert(w.push((k, lookup(s, k).unwrap())).drop_last() =~= w);
    }
}

proof fn lemma_after_insert(s: Seq<(i64, UserState)>, cap: nat, k: i64, v: UserState)
    requires
        keys_distinct(s),
        s.len() <= cap,
    ensures
        keys_distinct(after_insert(s, cap, k, v)),
        after_insert(s, cap, k, v).len() <= cap,
{
    lemma_without_key(s, k);
    let w = without_key(s, k);
    let t = w.push((k, v));
    assert(t.drop_last() =~= w);
    if t.len() > cap {
        lemma_drop_first_lookup(t, k);
    }
}

} // verus!
