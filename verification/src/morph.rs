use vstd::prelude::*;
use std::collections::HashMap;

verus! {

broadcast use vstd::std_specs::hash::group_hash_axioms;

/// A cache of normalized paths, keyed by a hash of the source path and the
/// requested vertex count.
pub struct PathMorphCache<V> {
    cache: HashMap<u64, V>,
}

impl<V: Clone> PathMorphCache<V> {
    /// The cached entries.
    pub closed spec fn entries(&self) -> Map<u64, V> {
        self.cache@
    }

    /// An empty cache.
    pub fn new() -> (r: Self)
        ensures
            r.entries() == Map::<u64, V>::empty(),
    {
        PathMorphCache { cache: HashMap::new() }
    }

    /// The entry cached under `key`, or else the value that `compute` produces,
    /// which a copy of is then cached under `key`.
    pub fn get_normalized<F: FnOnce() -> V>(&mut self, key: u64, compute: F) -> (r: V)
        requires
            compute.requires(()),
        ensures
            old(self).entries().contains_key(key) ==> final(self).entries() == old(self).entries()
                && cloned(old(self).entries()[key], r),
            !old(self).entries().contains_key(key) ==> compute.ensures((), r),
            !old(self).entries().contains_key(key) ==> final(self).entries().contains_key(key),
            !old(self).entries().contains_key(key) ==> cloned(r, final(self).entries()[key]),
            !old(self).entries().contains_key(key) ==> final(self).entries() == old(
                self,
            ).entries().insert(key, final(self).entries()[key]),
    {
        match self.cache.get(&key) {
            Some(cached) => {
                return cached.clone();
            },
            None => {},
        }
        let normalized = compute();
        self.cache.insert(key, normalized.clone());
        normalized
    }

    /// Empties the cache.
    pub fn clear(&mut self)
        ensures
            final(self).entries() == Map::<u64, V>::empty(),
    {
        self.cache.clear();
    }

    /// The number of cached entries.
    pub fn len(&self) -> (r: usize)
        ensures
            r == self.entries().len(),
    {
        self.cache.len()
    }

    /// Whether the cache holds no entry.
    pub fn is_empty(&self) -> (r: bool)
        ensures
            r == (self.entries().len() == 0),
    {
        proof {
            assert(self.entries().dom().finite());
            if self.entries().len() == 0 {
                assert(self.entries() =~= Map::empty());
            } else {
                assert(self.entries() != Map::<u64, V>::empty());
            }
        }
        self.cache.is_empty()
    }
}

/// Empties a morph cache. The engine keeps one cache per thread; it is passed
/// here explicitly.
pub fn clear_morph_cache<V: Clone>(cache: &mut PathMorphCache<V>)
    ensures
        final(cache).entries() == Map::<u64, V>::empty(),
{
    cache.clear();
}

/// Looking the same key up twice computes at most once: after a lookup (which
/// inserts only when the key was missing) the key is cached, so a second lookup
/// finds it and leaves the cache as it is; the cache grows by at most one entry.
pub proof fn lemma_cache_lookup_then_hit<V>(before: Map<u64, V>, key: u64, stored: V)
    requires
        before.dom().finite(),
    ensures
        ({
            let after = if before.contains_key(key) {
                before
            } else {
                before.insert(key, stored)
            };
            &&& after.contains_key(key)
            &&& after.dom().finite()
            &&& after.len() == before.len() + (if before.contains_key(key) {
                0int
            } else {
                1int
            })
        }),
{
}

/// Every entry of a cache holds what `f` gives for its key.
pub open spec fn cache_agrees<V>(entries: Map<u64, V>, f: spec_fn(u64) -> V) -> bool {
    forall|k: u64| #[trigger] entries.contains_key(k) ==> entries[k] == f(k)
}

/// The cache only saves work. Where every computation for a key gives `f(key)`
/// and cloning a value gives an equal one, a lookup (the relation between
/// `before`, `after` and `r` being the one `get_normalized` ensures) returns
/// `f(key)`, hit or miss, and leaves the cache agreeing with `f`. An empty cache,
/// such as one just cleared, agrees with every `f`, so lookups after a clear give
/// what they would have given without it.
pub proof fn lemma_cached_equals_fresh<V: Clone>(
    before: Map<u64, V>,
    after: Map<u64, V>,
    key: u64,
    r: V,
    f: spec_fn(u64) -> V,
)
    requires
        cache_agrees(before, f),
        forall|a: V, b: V| #[trigger] cloned::<V>(a, b) ==> a == b,
        before.contains_key(key) ==> after == before && cloned(before[key], r),
        !before.contains_key(key) ==> r == f(key),
        !before.contains_key(key) ==> after.contains_key(key),
        !before.contains_key(key) ==> cloned(r, after[key]),
        !before.contains_key(key) ==> after == before.insert(key, after[key]),
    ensures
        r == f(key),
        cache_agrees(after, f),
        cache_agrees(Map::<u64, V>::empty(), f),
{
    if before.contains_key(key) {
        assert(before.contains_key(key));
    } else {
        assert forall|k: u64| #[trigger] after.contains_key(k) implies after[k] == f(k) by {
            if k != key {
                assert(before.contains_key(k));
            }
        }
    }
}

/// Position `i` of a list of `m` items rotated left by `offset` holds the item at
/// `i + offset mod m`, computed without overflow from the reduced offset.
proof fn lemma_rotate_index(i: int, offset: int, m: int)
    requires
        0 < m,
        0 <= i < m,
        0 <= offset,
    ensures
        (i + offset) % m == (if i < m - offset % m {
            i + offset % m
        } else {
            i + offset % m - m
        }),
{
    let s = offset % m;
    vstd::arithmetic::div_mod::lemma_add_mod_noop_right(i, offset, m);
    vstd::arithmetic::div_mod::lemma_mod_bound(offset, m);
    if i < m - s {
        vstd::arithmetic::div_mod::lemma_small_mod((i + s) as nat, m as nat);
    } else {
        vstd::arithmetic::div_mod::lemma_mod_add_multiples_vanish(i + s - m, m);
        vstd::arithmetic::div_mod::lemma_small_mod((i + s - m) as nat, m as nat);
    }
}

/// The items of a list rotated left by `offset` places: item `i` of the result is
/// item `(i + offset) mod n` of the input.
pub fn rotate_items<T: Copy>(items: &Vec<T>, offset: usize) -> (r: Vec<T>)
    ensures
        r@.len() == items@.len(),
        forall|i: int|
            0 <= i < items@.len() ==> r@[i] == items@[((i + offset) % (items@.len() as int))],
{
    let n = items.len();
    let mut out: Vec<T> = Vec::new();
    if n == 0 {
        return out;
    }
    let shift = offset % n;
    let mut i: usize = 0;
    while i < n
        invariant
            n == items@.len(),
            n > 0,
            shift == offset % n,
            i <= n,
            out@.len() == i,
            forall|j: int| 0 <= j < i ==> out@[j] == items@[((j + offset) % (n as int))],
        decreases n - i,
    {
        let idx = if i < n - shift {
            i + shift
        } else {
            i - (n - shift)
        };
        proof {
            lemma_rotate_index(i as int, offset as int, n as int);
        }
        out.push(items[idx]);
        i = i + 1;
    }
    out
}

/// The items of a list in reverse order.
pub fn reversed_items<T: Copy>(items: &Vec<T>) -> (r: Vec<T>)
    ensures
        r@ == items@.reverse(),
{
    let n = items.len();
    let mut out: Vec<T> = Vec::new();
    let mut k: usize = 0;
    while k < n
        invariant
            n == items@.len(),
            k <= n,
            out@.len() == k,
            forall|j: int| 0 <= j < k ==> out@[j] == items@[n - 1 - j],
        decreases n - k,
    {
        out.push(items[n - 1 - k]);
        k = k + 1;
    }
    assert(out@ =~= items@.reverse());
    out
}

/// The segments of a path with `count` vertices: each vertex joined to the next,
/// and, when the path is closed, the last vertex joined back to the first. A
/// path of fewer than two vertices has no segments.
pub open spec fn spec_segment_pairs(count: nat, closed: bool) -> Seq<(usize, usize)> {
    if count < 2 {
        Seq::empty()
    } else {
        let open_pairs = Seq::new((count - 1) as nat, |i: int| (i as usize, (i + 1) as usize));
        if closed {
            open_pairs.push(((count - 1) as usize, 0usize))
        } else {
            open_pairs
        }
    }
}

/// Lists the segments of a Bezier path as pairs of vertex indices.
pub fn segment_pairs(count: usize, closed: bool) -> (r: Vec<(usize, usize)>)
    ensures
        r@ == spec_segment_pairs(count as nat, closed),
{
    let mut out: Vec<(usize, usize)> = Vec::new();
    if count < 2 {
        return out;
    }
    let mut i: usize = 0;
    while i + 1 < count
        invariant
            count > 0,
            i < count,
            out@ == Seq::new(i as nat, |j: int| (j as usize, (j + 1) as usize)),
        decreases count - i,
    {
        out.push((i, i + 1));
        i = i + 1;
        assert(out@ =~= Seq::new(i as nat, |j: int| (j as usize, (j + 1) as usize)));
    }
    if closed {
        out.push((count - 1, 0));
    }
    out
}

} // verus!
