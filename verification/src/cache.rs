//! The resolution cache: two least-recently-used maps, one from a path to
//! the route that owns its outlet and one from a path and an outlet to the
//! child that fills it, with counters of hits, misses and invalidations.
//!
//! The maps are `lru::LruCache`s. Their behaviour is stated here as
//! contracts that are believed, not proved; everything built on them is
//! proved from those contracts.

use crate::keyed::{distinct_keys, has_key, key_index, lemma_has_key, lemma_key_index, lookup};
use crate::route::Route;
use lru::LruCache;
use std::num::NonZeroUsize;
use vstd::prelude::*;

verus! {

/// `lru::LruCache`, the least-recently-used map of the `lru` crate. What a
/// cache holds is known only through `lru_entries` and `lru_capacity`.
#[verifier::external_type_specification]
#[verifier::external_body]
#[verifier::reject_recursive_types(K)]
#[verifier::reject_recursive_types(V)]
#[verifier::reject_recursive_types(S)]
pub struct ExLruCache<K, V, S>(LruCache<K, V, S>);

/// `lru::DefaultHasher`, the hasher of an `LruCache` that is made without
/// one of its own. Nothing is known of it.
#[verifier::external_type_specification]
#[verifier::external_body]
pub struct ExDefaultHasher(lru::DefaultHasher);

/// The key of a cache entry: a path and, for a named outlet, its name.
pub type OutletKey = (Seq<char>, Option<Seq<char>>);

/// What a cache holds: its entries from the most recently used to the
/// least recently used.
pub uninterp spec fn lru_entries(cache: LruCache<(String, Option<String>), String>) -> Seq<
    (OutletKey, Seq<char>),
>;

/// The number of entries that a cache was made to hold at most.
pub uninterp spec fn lru_capacity(cache: LruCache<(String, Option<String>), String>) -> nat;

/// The entries once the entry at `i` was used: it moves to the front.
pub open spec fn promoted(entries: Seq<(OutletKey, Seq<char>)>, i: int) -> Seq<
    (OutletKey, Seq<char>),
> {
    seq![entries[i]] + entries.remove(i)
}

/// The entries once `value` was stored under `key` in a cache that holds
/// at most `capacity` entries: the entry goes to the front, replacing the
/// entry of the same key if there is one and otherwise, in a full cache,
/// pushing out the least recently used entry.
pub open spec fn stored(
    entries: Seq<(OutletKey, Seq<char>)>,
    key: OutletKey,
    value: Seq<char>,
    capacity: nat,
) -> Seq<(OutletKey, Seq<char>)> {
    if has_key(entries, key) {
        seq![(key, value)] + entries.remove(key_index(entries, key))
    } else if entries.len() == capacity {
        seq![(key, value)] + entries.drop_last()
    } else {
        seq![(key, value)] + entries
    }
}

/// The entry that leaves when `value` is stored under `key`: the one of
/// the same key, or the least recently used one of a full cache.
pub open spec fn displaced(
    entries: Seq<(OutletKey, Seq<char>)>,
    key: OutletKey,
    capacity: nat,
) -> Option<(OutletKey, Seq<char>)> {
    if has_key(entries, key) {
        Some(entries[key_index(entries, key)])
    } else if entries.len() == capacity {
        Some(entries.last())
    } else {
        None
    }
}

/// Entries that a cache of this capacity can hold: no key twice, and no
/// more entries than the capacity, which is one that a cache is made with.
pub open spec fn valid_entries(entries: Seq<(OutletKey, Seq<char>)>, capacity: nat) -> bool {
    &&& distinct_keys(entries)
    &&& entries.len() <= capacity
    &&& 0 < capacity <= max_capacity()
}

/// Using an entry moves it and changes nothing else.
pub proof fn lemma_promoted(entries: Seq<(OutletKey, Seq<char>)>, i: int, capacity: nat)
    requires
        valid_entries(entries, capacity),
        0 <= i < entries.len(),
    ensures
        valid_entries(promoted(entries, i), capacity),
        promoted(entries, i).len() == entries.len(),
        forall|key: OutletKey| lookup(promoted(entries, i), key) == lookup(entries, key),
{
    let p = promoted(entries, i);
    assert forall|a: int| 0 <= a < p.len() implies #[trigger] p[a] == entries[source(i, a)] by {}
    assert forall|a: int, b: int| 0 <= a < b < p.len() implies (#[trigger] p[a]).0 != (
    #[trigger] p[b]).0 by {
        let x = source(i, a);
        let y = source(i, b);
        assert(x != y);
        if x < y {
            assert(entries[x].0 != entries[y].0);
        } else {
            assert(entries[y].0 != entries[x].0);
        }
    }
    assert forall|key: OutletKey| lookup(p, key) == lookup(entries, key) by {
        if has_key(entries, key) {
            lemma_has_key(entries, key);
            let x = key_index(entries, key);
            let a = if x == i {
                0
            } else if x < i {
                x + 1
            } else {
                x
            };
            assert(p[a] == entries[x]);
            lemma_key_index(p, a);
            lemma_key_index(entries, x);
        } else if has_key(p, key) {
            lemma_has_key(p, key);
            let a = key_index(p, key);
            assert(entries[source(i, a)].0 == key);
        }
    }
}

/// The position in the entries of what stands at `a` once the entry at `i`
/// was moved to the front.
pub open spec fn source(i: int, a: int) -> int {
    if a == 0 {
        i
    } else if a <= i {
        a - 1
    } else {
        a
    }
}

/// Storing puts the value under the key and keeps the entries valid.
pub proof fn lemma_stored(
    entries: Seq<(OutletKey, Seq<char>)>,
    key: OutletKey,
    value: Seq<char>,
    capacity: nat,
)
    requires
        valid_entries(entries, capacity),
    ensures
        valid_entries(stored(entries, key, value, capacity), capacity),
        stored(entries, key, value, capacity)[0] == (key, value),
        lookup(stored(entries, key, value, capacity), key) == Some(value),
        !has_key(entries, key) && entries.len() < capacity ==> stored(
            entries,
            key,
            value,
            capacity,
        ).len() == entries.len() + 1,
{
    let s = stored(entries, key, value, capacity);
    let rest = s.drop_first();
    assert(s[0] == (key, value));
    if has_key(entries, key) {
        lemma_has_key(entries, key);
        let i = key_index(entries, key);
        assert(rest =~= entries.remove(i));
        assert forall|a: int| 0 <= a < rest.len() implies (#[trigger] rest[a]).0 != key by {
            let x = if a < i {
                a
            } else {
                a + 1
            };
            assert(rest[a] == entries[x]);
            if x < i {
                assert(entries[x].0 != entries[i].0);
            } else {
                assert(entries[i].0 != entries[x].0);
            }
        }
        assert forall|a: int, b: int| 0 <= a < b < rest.len() implies (#[trigger] rest[a]).0 != (
        #[trigger] rest[b]).0 by {
            let x = if a < i {
                a
            } else {
                a + 1
            };
            let y = if b < i {
                b
            } else {
                b + 1
            };
            assert(rest[a] == entries[x] && rest[b] == entries[y]);
            assert(entries[x].0 != entries[y].0);
        }
    } else if entries.len() == capacity {
        assert(rest =~= entries.drop_last());
        assert forall|a: int| 0 <= a < rest.len() implies (#[trigger] rest[a]).0 != key by {
            assert(rest[a] == entries[a]);
        }
        assert forall|a: int, b: int| 0 <= a < b < rest.len() implies (#[trigger] rest[a]).0 != (
        #[trigger] rest[b]).0 by {
            assert(rest[a] == entries[a] && rest[b] == entries[b]);
            assert(entries[a].0 != entries[b].0);
        }
    } else {
        assert(rest =~= entries);
        assert forall|a: int| 0 <= a < rest.len() implies (#[trigger] rest[a]).0 != key by {
            assert(rest[a] == entries[a]);
        }
    }
    assert forall|a: int, b: int| 0 <= a < b < s.len() implies (#[trigger] s[a]).0 != (
    #[trigger] s[b]).0 by {
        assert(s[b] == rest[b - 1]);
        if a == 0 {
        } else {
            assert(s[a] == rest[a - 1]);
            assert(rest[a - 1].0 != rest[b - 1].0);
        }
    }
    lemma_key_index(s, 0);
}

/// The largest capacity that a cache is made with. `LruCache::new` sets up
/// a table for as many entries as the capacity, and a table for more than
/// these cannot be laid out in memory.
pub open spec fn max_capacity() -> int {
    usize::MAX as int / 128
}

/// `LruCache::new` makes an empty cache that holds at most `capacity`
/// entries. It is not called with a capacity of zero, which is no
/// capacity, nor with one for which it cannot lay out its table.
#[verifier::external_body]
fn lru_new(capacity: usize) -> (cache: LruCache<(String, Option<String>), String>)
    requires
        0 < capacity <= max_capacity(),
    ensures
        lru_entries(cache) == Seq::<(OutletKey, Seq<char>)>::empty(),
        lru_capacity(cache) == capacity,
{
    LruCache::new(NonZeroUsize::new(capacity).unwrap())
}

/// `LruCache::get` returns the value stored under the key and moves its
/// entry to the front; a key that is not there changes nothing.
#[verifier::external_body]
fn lru_get(cache: &mut LruCache<(String, Option<String>), String>, key: (String, Option<String>)) -> (r:
    Option<String>)
    requires
        distinct_keys(lru_entries(*old(cache))),
    ensures
        lru_capacity(*final(cache)) == lru_capacity(*old(cache)),
        match r {
            Some(value) => has_key(lru_entries(*old(cache)), key.deep_view()) && lookup(
                lru_entries(*old(cache)),
                key.deep_view(),
            ) == Some(value@) && lru_entries(*final(cache)) == promoted(
                lru_entries(*old(cache)),
                key_index(lru_entries(*old(cache)), key.deep_view()),
            ),
            None => !has_key(lru_entries(*old(cache)), key.deep_view()) && lru_entries(
                *final(cache),
            ) == lru_entries(*old(cache)),
        },
{
    cache.get(&key).cloned()
}

/// `LruCache::push` stores the value under the key at the front and
/// returns the entry that left the cache for it, if one did.
#[verifier::external_body]
fn lru_push(
    cache: &mut LruCache<(String, Option<String>), String>,
    key: (String, Option<String>),
    value: String,
) -> (r: Option<((String, Option<String>), String)>)
    requires
        distinct_keys(lru_entries(*old(cache))),
    ensures
        lru_capacity(*final(cache)) == lru_capacity(*old(cache)),
        lru_entries(*final(cache)) == stored(
            lru_entries(*old(cache)),
            key.deep_view(),
            value@,
            lru_capacity(*old(cache)),
        ),
        r.deep_view() == displaced(
            lru_entries(*old(cache)),
            key.deep_view(),
            lru_capacity(*old(cache)),
        ),
{
    cache.push(key, value)
}

/// `LruCache::clear` removes every entry.
#[verifier::external_body]
fn lru_clear(cache: &mut LruCache<(String, Option<String>), String>)
    ensures
        lru_capacity(*final(cache)) == lru_capacity(*old(cache)),
        lru_entries(*final(cache)) == Seq::<(OutletKey, Seq<char>)>::empty(),
{
    cache.clear()
}

/// `LruCache::len` is the number of entries.
#[verifier::external_body]
fn lru_len(cache: &LruCache<(String, Option<String>), String>) -> (n: usize)
    ensures
        n == lru_entries(*cache).len(),
{
    cache.len()
}

/// `LruCache::cap` is the capacity that the cache was made with.
#[verifier::external_body]
fn lru_cap(cache: &LruCache<(String, Option<String>), String>) -> (n: usize)
    ensures
        n == lru_capacity(*cache),
{
    cache.cap().get()
}

/// Identifies a route of the tree by its path.
#[derive(Debug, Clone, PartialEq, Eq, Hash)]
pub struct RouteId {
    /// The path of the route.
    pub path: String,
}

impl RouteId {
    /// The identifier of `route`.
    pub fn from_route<B>(route: &Route<B>) -> (r: Self)
        ensures
            r.path@ == route.config.path@,
    {
        RouteId { path: route.config.path.clone() }
    }

    /// The identifier of the route with the path `path`.
    pub fn from_path(path: &str) -> (r: Self)
        ensures
            r.path@ == path@,
    {
        RouteId { path: path.to_owned() }
    }
}

/// Counters of the cache.
#[derive(Debug, Clone, Copy)]
pub struct CacheStats {
    /// Hits of the parent lookup.
    pub parent_hits: usize,
    /// Misses of the parent lookup.
    pub parent_misses: usize,
    /// Hits of the child lookup.
    pub child_hits: usize,
    /// Misses of the child lookup.
    pub child_misses: usize,
    /// Number of times the cache was cleared.
    pub invalidations: usize,
}

/// The counters of the cache as mathematical integers.
pub struct StatsView {
    pub parent_hits: int,
    pub parent_misses: int,
    pub child_hits: int,
    pub child_misses: int,
    pub invalidations: int,
}

impl StatsView {
    /// Counters that are all zero.
    pub open spec fn zero() -> StatsView {
        StatsView { parent_hits: 0, parent_misses: 0, child_hits: 0, child_misses: 0, invalidations: 0 }
    }

    /// Number of hits of both lookups.
    pub open spec fn hits(self) -> int {
        self.parent_hits + self.child_hits
    }

    /// Number of lookups of both kinds.
    pub open spec fn lookups(self) -> int {
        self.parent_hits + self.child_hits + self.parent_misses + self.child_misses
    }
}

impl View for CacheStats {
    type V = StatsView;

    open spec fn view(&self) -> StatsView {
        StatsView {
            parent_hits: self.parent_hits as int,
            parent_misses: self.parent_misses as int,
            child_hits: self.child_hits as int,
            child_misses: self.child_misses as int,
            invalidations: self.invalidations as int,
        }
    }
}

impl Default for CacheStats {
    fn default() -> (r: Self)
        ensures
            r@ == StatsView::zero(),
    {
        CacheStats {
            parent_hits: 0,
            parent_misses: 0,
            child_hits: 0,
            child_misses: 0,
            invalidations: 0,
        }
    }
}

impl CacheStats {
    /// Hits and lookups of the parent cache; their quotient is its hit rate.
    pub fn parent_hit_ratio(&self) -> (r: (u128, u128))
        ensures
            r.0 == self@.parent_hits,
            r.1 == self@.parent_hits + self@.parent_misses,
    {
        (self.parent_hits as u128, self.parent_hits as u128 + self.parent_misses as u128)
    }

    /// Hits and lookups of the child cache; their quotient is its hit rate.
    pub fn child_hit_ratio(&self) -> (r: (u128, u128))
        ensures
            r.0 == self@.child_hits,
            r.1 == self@.child_hits + self@.child_misses,
    {
        (self.child_hits as u128, self.child_hits as u128 + self.child_misses as u128)
    }

    /// Hits and lookups of both caches; their quotient is the overall hit rate.
    pub fn overall_hit_ratio(&self) -> (r: (u128, u128))
        ensures
            r.0 == self@.hits(),
            r.1 == self@.lookups(),
    {
        let hits = self.parent_hits as u128 + self.child_hits as u128;
        let misses = self.parent_misses as u128 + self.child_misses as u128;
        (hits, hits + misses)
    }
}

/// The resolution cache as a mathematical value.
pub struct CacheView {
    /// The entries of the parent cache, most recently used first.
    pub parent: Seq<(OutletKey, Seq<char>)>,
    /// The entries of the child cache, most recently used first.
    pub child: Seq<(OutletKey, Seq<char>)>,
    /// The capacity of the parent cache.
    pub parent_capacity: nat,
    /// The capacity of the child cache.
    pub child_capacity: nat,
    /// The counters.
    pub stats: StatsView,
}

impl CacheView {
    /// Both caches hold valid entries.
    pub open spec fn wf(self) -> bool {
        &&& valid_entries(self.parent, self.parent_capacity)
        &&& valid_entries(self.child, self.child_capacity)
    }

    /// The cache after a lookup of the owner of the outlet for `path`, and
    /// what the lookup finds. A hit makes its entry the most recently used
    /// and counts a hit; a miss counts a miss.
    pub open spec fn get_parent(self, path: Seq<char>) -> (CacheView, Option<Seq<char>>) {
        let key = (path, None::<Seq<char>>);
        if has_key(self.parent, key) {
            (
                CacheView {
                    parent: promoted(self.parent, key_index(self.parent, key)),
                    stats: StatsView { parent_hits: self.stats.parent_hits + 1, ..self.stats },
                    ..self
                },
                lookup(self.parent, key),
            )
        } else {
            (
                CacheView {
                    stats: StatsView { parent_misses: self.stats.parent_misses + 1, ..self.stats },
                    ..self
                },
                None,
            )
        }
    }

    /// The cache after `owner` is stored as the owner of the outlet for `path`.
    pub open spec fn set_parent(self, path: Seq<char>, owner: Seq<char>) -> CacheView {
        CacheView {
            parent: stored(self.parent, (path, None::<Seq<char>>), owner, self.parent_capacity),
            ..self
        }
    }

    /// The cache after a lookup of the child that fills `outlet` for
    /// `path`, and what the lookup finds.
    pub open spec fn get_child(self, path: Seq<char>, outlet: Option<Seq<char>>) -> (
        CacheView,
        Option<Seq<char>>,
    ) {
        let key = (path, outlet);
        if has_key(self.child, key) {
            (
                CacheView {
                    child: promoted(self.child, key_index(self.child, key)),
                    stats: StatsView { child_hits: self.stats.child_hits + 1, ..self.stats },
                    ..self
                },
                lookup(self.child, key),
            )
        } else {
            (
                CacheView {
                    stats: StatsView { child_misses: self.stats.child_misses + 1, ..self.stats },
                    ..self
                },
                None,
            )
        }
    }

    /// The cache after `child` is stored as the child that fills `outlet`
    /// for `path`.
    pub open spec fn set_child(
        self,
        path: Seq<char>,
        outlet: Option<Seq<char>>,
        child: Seq<char>,
    ) -> CacheView {
        CacheView { child: stored(self.child, (path, outlet), child, self.child_capacity), ..self }
    }

    /// The cache after it is cleared: no entries, and one more invalidation.
    pub open spec fn clear(self) -> CacheView {
        CacheView {
            parent: Seq::empty(),
            child: Seq::empty(),
            stats: StatsView { invalidations: self.stats.invalidations + 1, ..self.stats },
            ..self
        }
    }

    /// The cache after a lookup of each of `paths` in turn.
    pub open spec fn lookups(self, paths: Seq<Seq<char>>) -> CacheView
        decreases paths.len(),
    {
        if paths.len() == 0 {
            self
        } else {
            self.lookups(paths.drop_last()).get_parent(paths.last()).0
        }
    }

    /// The cache after each of `paths` in turn is stored with its owner
    /// and looked up at once.
    pub open spec fn stores(self, paths: Seq<Seq<char>>, owners: Seq<Seq<char>>) -> CacheView
        decreases paths.len(),
    {
        if paths.len() == 0 {
            self
        } else {
            self.stores(paths.drop_last(), owners.drop_last()).set_parent(
                paths.last(),
                owners.last(),
            ).get_parent(paths.last()).0
        }
    }
}

/// Lookups in a cache without parent entries are all misses.
pub proof fn lemma_lookups_miss(c: CacheView, paths: Seq<Seq<char>>)
    requires
        c.parent.len() == 0,
    ensures
        c.lookups(paths) == (CacheView {
            stats: StatsView {
                parent_misses: c.stats.parent_misses + paths.len(),
                ..c.stats
            },
            ..c
        }),
    decreases paths.len(),
{
    if paths.len() > 0 {
        lemma_lookups_miss(c, paths.drop_last());
    }
}

/// What is stored is found by the next lookup.
pub proof fn lemma_stores_hit(c: CacheView, paths: Seq<Seq<char>>, owners: Seq<Seq<char>>)
    requires
        c.wf(),
        paths.len() == owners.len(),
    ensures
        c.stores(paths, owners).wf(),
        c.stores(paths, owners).stats == (StatsView {
            parent_hits: c.stats.parent_hits + paths.len(),
            ..c.stats
        }),
        c.stores(paths, owners).child == c.child,
    decreases paths.len(),
{
    if paths.len() > 0 {
        lemma_stores_hit(c, paths.drop_last(), owners.drop_last());
        let before = c.stores(paths.drop_last(), owners.drop_last());
        let key = (paths.last(), None::<Seq<char>>);
        lemma_stored(before.parent, key, owners.last(), before.parent_capacity);
        let kept = before.set_parent(paths.last(), owners.last());
        lemma_has_key(kept.parent, key);
        lemma_promoted(kept.parent, key_index(kept.parent, key), kept.parent_capacity);
    }
}

/// After `n` lookups that miss in a cache whose counters are zero, and `n`
/// rounds of storing an owner and looking it up, half of the lookups were
/// hits: `n` hits in `2n` lookups.
pub proof fn law_misses_then_hits(c: CacheView, paths: Seq<Seq<char>>, owners: Seq<Seq<char>>)
    requires
        c.wf(),
        c.parent.len() == 0,
        c.stats == StatsView::zero(),
        paths.len() == owners.len(),
    ensures
        c.lookups(paths).stores(paths, owners).stats.hits() == paths.len(),
        c.lookups(paths).stores(paths, owners).stats.lookups() == 2 * paths.len(),
{
    lemma_lookups_miss(c, paths);
    lemma_stores_hit(c.lookups(paths), paths, owners);
}

/// Clearing empties the cache and counts exactly one invalidation; the
/// counters of hits and misses stay as they are.
pub proof fn law_clear(c: CacheView)
    ensures
        c.clear().parent.len() + c.clear().child.len() == 0,
        c.clear().stats.invalidations == c.stats.invalidations + 1,
        c.clear().stats.hits() == c.stats.hits(),
        c.clear().stats.lookups() == c.stats.lookups(),
        c.clear().stats.parent_hits == c.stats.parent_hits,
        c.clear().stats.parent_misses == c.stats.parent_misses,
        c.clear().stats.child_hits == c.stats.child_hits,
        c.clear().stats.child_misses == c.stats.child_misses,
{
}

/// The resolution cache.
#[derive(Debug)]
pub struct RouteCache {
    parent_cache: LruCache<(String, Option<String>), String>,
    child_cache: LruCache<(String, Option<String>), String>,
    stats: CacheStats,
}

impl View for RouteCache {
    type V = CacheView;

    closed spec fn view(&self) -> CacheView {
        CacheView {
            parent: lru_entries(self.parent_cache),
            child: lru_entries(self.child_cache),
            parent_capacity: lru_capacity(self.parent_cache),
            child_capacity: lru_capacity(self.child_cache),
            stats: self.stats@,
        }
    }
}

impl Clone for RouteCache {
    /// A cache with the same capacities and counters, and no entries.
    fn clone(&self) -> (r: Self)
        ensures
            self.wf() ==> r@ == (CacheView { parent: Seq::empty(), child: Seq::empty(), ..self@ }),
    {
        let parent_cap = lru_cap(&self.parent_cache);
        let child_cap = lru_cap(&self.child_cache);
        let limit = usize::MAX / 128;
        let parent_cap = if 0 < parent_cap && parent_cap <= limit {
            parent_cap
        } else {
            1
        };
        let child_cap = if 0 < child_cap && child_cap <= limit {
            child_cap
        } else {
            1
        };
        RouteCache {
            parent_cache: lru_new(parent_cap),
            child_cache: lru_new(child_cap),
            stats: self.stats,
        }
    }
}

impl Default for RouteCache {
    fn default() -> (r: Self)
        ensures
            r.wf(),
            r@ == RouteCache::empty_view(1000),
    {
        RouteCache::new()
    }
}

impl RouteCache {
    /// Both caches hold valid entries.
    pub open spec fn wf(&self) -> bool {
        self@.wf()
    }

    /// An empty cache that holds `capacity` entries of each kind.
    pub open spec fn empty_view(capacity: nat) -> CacheView {
        CacheView {
            parent: Seq::empty(),
            child: Seq::empty(),
            parent_capacity: capacity,
            child_capacity: capacity,
            stats: StatsView::zero(),
        }
    }

    /// An empty cache that holds 1000 entries of each kind.
    pub fn new() -> (r: Self)
        ensures
            r.wf(),
            r@ == RouteCache::empty_view(1000),
    {
        RouteCache::with_capacity(1000)
    }

    /// An empty cache that holds `capacity` entries of each kind. The
    /// capacity is not zero and not beyond `max_capacity()`.
    pub fn with_capacity(capacity: usize) -> (r: Self)
        requires
            0 < capacity <= max_capacity(),
        ensures
            r.wf(),
            r@ == RouteCache::empty_view(capacity as nat),
    {
        RouteCache {
            parent_cache: lru_new(capacity),
            child_cache: lru_new(capacity),
            stats: CacheStats::default(),
        }
    }

    /// Empties both caches and counts one invalidation. The other counters
    /// stay as they are.
    pub fn clear(&mut self)
        requires
            old(self).wf(),
            old(self)@.stats.invalidations < usize::MAX,
        ensures
            final(self).wf(),
            final(self)@ == old(self)@.clear(),
    {
        lru_clear(&mut self.parent_cache);
        lru_clear(&mut self.child_cache);
        self.stats.invalidations += 1;
    }

    /// Looks up the owner of the outlet for `path`. A hit returns the
    /// cached owner, makes its entry the most recently used and counts a
    /// hit; a miss counts a miss.
    pub fn get_parent(&mut self, path: &str) -> (r: Option<RouteId>)
        requires
            old(self).wf(),
            old(self)@.stats.parent_hits < usize::MAX,
            old(self)@.stats.parent_misses < usize::MAX,
        ensures
            final(self).wf(),
            final(self)@ == old(self)@.get_parent(path@).0,
            match old(self)@.get_parent(path@).1 {
                Some(owner) => r matches Some(id) && id.path@ == owner,
                None => r is None,
            },
    {
        let key: (String, Option<String>) = (path.to_owned(), None);
        proof {
            let entries = self@.parent;
            if has_key(entries, key.deep_view()) {
                lemma_has_key(entries, key.deep_view());
                lemma_promoted(entries, key_index(entries, key.deep_view()), self@.parent_capacity);
            }
        }
        match lru_get(&mut self.parent_cache, key) {
            Some(owner) => {
                self.stats.parent_hits += 1;
                Some(RouteId { path: owner })
            },
            None => {
                self.stats.parent_misses += 1;
                None
            },
        }
    }

    /// Caches `parent_route_id` as the owner of the outlet for `path`. The
    /// entry becomes the most recently used; in a full cache the least
    /// recently used entry leaves.
    pub fn set_parent(&mut self, path: String, parent_route_id: RouteId)
        requires
            old(self).wf(),
        ensures
            final(self).wf(),
            final(self)@ == old(self)@.set_parent(path@, parent_route_id.path@),
            final(self)@.get_parent(path@).1 == Some(parent_route_id.path@),
    {
        proof {
            lemma_stored(
                self@.parent,
                (path@, None::<Seq<char>>),
                parent_route_id.path@,
                self@.parent_capacity,
            );
        }
        let key: (String, Option<String>) = (path, None);
        let _ = lru_push(&mut self.parent_cache, key, parent_route_id.path);
    }

    /// Looks up the child that fills the outlet `outlet_name` for `path`.
    /// A hit returns the cached child, makes its entry the most recently
    /// used and counts a hit; a miss counts a miss.
    pub fn get_child(&mut self, path: &str, outlet_name: Option<&str>) -> (r: Option<RouteId>)
        requires
            old(self).wf(),
            old(self)@.stats.child_hits < usize::MAX,
            old(self)@.stats.child_misses < usize::MAX,
        ensures
            final(self).wf(),
            final(self)@ == old(self)@.get_child(path@, crate::nested::outlet_view(outlet_name)).0,
            match old(self)@.get_child(path@, crate::nested::outlet_view(outlet_name)).1 {
                Some(child) => r matches Some(id) && id.path@ == child,
                None => r is None,
            },
    {
        let outlet = match outlet_name {
            Some(name) => Some(name.to_owned()),
            None => None,
        };
        let key: (String, Option<String>) = (path.to_owned(), outlet);
        proof {
            let entries = self@.child;
            if has_key(entries, key.deep_view()) {
                lemma_has_key(entries, key.deep_view());
                lemma_promoted(entries, key_index(entries, key.deep_view()), self@.child_capacity);
            }
        }
        match lru_get(&mut self.child_cache, key) {
            Some(child) => {
                self.stats.child_hits += 1;
                Some(RouteId { path: child })
            },
            None => {
                self.stats.child_misses += 1;
                None
            },
        }
    }

    /// Caches `child_route_id` as the child that fills the outlet
    /// `outlet_name` for `path`.
    pub fn set_child(&mut self, path: String, outlet_name: Option<String>, child_route_id: RouteId)
        requires
            old(self).wf(),
        ensures
            final(self).wf(),
            final(self)@ == old(self)@.set_child(
                path@,
                outlet_name.deep_view(),
                child_route_id.path@,
            ),
            final(self)@.get_child(path@, outlet_name.deep_view()).1 == Some(child_route_id.path@),
    {
        proof {
            lemma_stored(
                self@.child,
                (path@, outlet_name.deep_view()),
                child_route_id.path@,
                self@.child_capacity,
            );
        }
        let key: (String, Option<String>) = (path, outlet_name);
        let _ = lru_push(&mut self.child_cache, key, child_route_id.path);
    }

    /// The counters.
    pub fn stats(&self) -> (r: &CacheStats)
        ensures
            r@ == self@.stats,
    {
        &self.stats
    }

    /// Sets every counter to zero and keeps the entries.
    pub fn reset_stats(&mut self)
        ensures
            final(self)@ == (CacheView { stats: StatsView::zero(), ..old(self)@ }),
    {
        self.stats = CacheStats::default();
    }

    /// Number of entries of the parent cache.
    pub fn parent_cache_size(&self) -> (n: usize)
        ensures
            n == self@.parent.len(),
    {
        lru_len(&self.parent_cache)
    }

    /// Number of entries of the child cache.
    pub fn child_cache_size(&self) -> (n: usize)
        ensures
            n == self@.child.len(),
    {
        lru_len(&self.child_cache)
    }

    /// Number of entries of both caches.
    pub fn total_size(&self) -> (n: usize)
        requires
            self.wf(),
        ensures
            n == self@.parent.len() + self@.child.len(),
    {
        self.parent_cache_size() + self.child_cache_size()
    }
}

} // verus!
