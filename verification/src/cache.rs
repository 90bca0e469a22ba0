use crate::imaging::{image_bytes, GlintImage};
use crate::text::{path_key, path_key_of};
use lru::LruCache;
use std::num::NonZeroUsize;
use vstd::prelude::*;

verus! {

/// `lru::LruCache`: a bounded map that orders its entries by recency of use.
#[verifier::external_type_specification]
#[verifier::external_body]
#[verifier::reject_recursive_types(K)]
#[verifier::reject_recursive_types(V)]
#[verifier::reject_recursive_types(S)]
pub struct ExLruCache<K, V, S>(LruCache<K, V, S>);

/// The hash builder that `lru::LruCache::new` uses; carried opaquely.
#[verifier::external_type_specification]
#[verifier::external_body]
pub struct ExLruDefaultHasher(lru::DefaultHasher);

/// One cached image under the path it was stored with.
pub type CacheEntry = (Seq<char>, GlintImage);

/// What an `LruCache` of images holds, from the most recently used entry to the least.
pub uninterp spec fn lru_entries(cache: LruCache<String, GlintImage>) -> Seq<CacheEntry>;

/// The number of entries that an `LruCache` was made to hold at most.
pub uninterp spec fn lru_capacity(cache: LruCache<String, GlintImage>) -> nat;

// ---------------------------------------------------------------------------
// The model of an entry list
// ---------------------------------------------------------------------------

/// The image stored under `key`, taking the first (most recent) entry with that key.
pub open spec fn lookup(s: Seq<CacheEntry>, key: Seq<char>) -> Option<GlintImage>
    decreases s.len(),
{
    if s.len() == 0 {
        None
    } else if s[0].0 == key {
        Some(s[0].1)
    } else {
        lookup(s.drop_first(), key)
    }
}

/// Whether some entry is stored under `key`.
pub open spec fn has_key(s: Seq<CacheEntry>, key: Seq<char>) -> bool {
    lookup(s, key) is Some
}

/// The entries without those stored under `key`, in their order.
pub open spec fn remove_key(s: Seq<CacheEntry>, key: Seq<char>) -> Seq<CacheEntry>
    decreases s.len(),
{
    if s.len() == 0 {
        s
    } else if s[0].0 == key {
        remove_key(s.drop_first(), key)
    } else {
        seq![s[0]] + remove_key(s.drop_first(), key)
    }
}

/// No two entries share a key.
pub open spec fn distinct_keys(s: Seq<CacheEntry>) -> bool
    decreases s.len(),
{
    s.len() == 0 || (!has_key(s.drop_first(), s[0].0) && distinct_keys(s.drop_first()))
}

/// Every stored image's byte count fits in a `u64`.
pub open spec fn all_fit(s: Seq<CacheEntry>) -> bool
    decreases s.len(),
{
    s.len() == 0 || (image_bytes(s[0].1) <= u64::MAX && all_fit(s.drop_first()))
}

/// The entries after `put(key, img)` on an LRU list that holds at most `cap` entries:
/// the new entry comes first; an older entry with the same key goes; and when the key
/// is new and the list is full, the least recently used entry goes.
pub open spec fn put_entries(s: Seq<CacheEntry>, cap: nat, key: Seq<char>, img: GlintImage) -> Seq<
    CacheEntry,
> {
    if has_key(s, key) {
        seq![(key, img)] + remove_key(s, key)
    } else if s.len() == cap {
        seq![(key, img)] + s.drop_last()
    } else {
        seq![(key, img)] + s
    }
}

/// The entries after a lookup of `key` that marks it most recently used.
pub open spec fn promote(s: Seq<CacheEntry>, key: Seq<char>) -> Seq<CacheEntry> {
    match lookup(s, key) {
        Some(img) => seq![(key, img)] + remove_key(s, key),
        None => s,
    }
}

pub proof fn lemma_lookup_prepend(e: CacheEntry, s: Seq<CacheEntry>, key: Seq<char>)
    ensures
        lookup(seq![e] + s, key) == (if e.0 == key { Some(e.1) } else { lookup(s, key) }),
{
    assert((seq![e] + s).drop_first() =~= s);
}

pub proof fn lemma_lookup_remove(s: Seq<CacheEntry>, k: Seq<char>, key: Seq<char>)
    ensures
        lookup(remove_key(s, k), key) == (if key == k { None } else { lookup(s, key) }),
        remove_key(s, k).len() <= s.len(),
    decreases s.len(),
{
    if s.len() > 0 {
        lemma_lookup_remove(s.drop_first(), k, key);
        if s[0].0 != k {
            lemma_lookup_prepend(s[0], remove_key(s.drop_first(), k), key);
        }
    }
}

pub proof fn lemma_remove_preserves(s: Seq<CacheEntry>, k: Seq<char>)
    requires
        distinct_keys(s),
        all_fit(s),
    ensures
        distinct_keys(remove_key(s, k)),
        all_fit(remove_key(s, k)),
        !has_key(remove_key(s, k), k),
    decreases s.len(),
{
    lemma_lookup_remove(s, k, k);
    if s.len() > 0 {
        lemma_remove_preserves(s.drop_first(), k);
        if s[0].0 != k {
            let t = remove_key(s.drop_first(), k);
            assert((seq![s[0]] + t).drop_first() =~= t);
            lemma_lookup_remove(s.drop_first(), k, s[0].0);
        }
    }
}

pub proof fn lemma_has_last(s: Seq<CacheEntry>)
    requires
        s.len() > 0,
    ensures
        has_key(s, s.last().0),
    decreases s.len(),
{
    if s.len() > 1 && s[0].0 != s.last().0 {
        lemma_has_last(s.drop_first());
    }
}

pub proof fn lemma_lookup_drop_last(s: Seq<CacheEntry>, key: Seq<char>)
    requires
        s.len() > 0,
        distinct_keys(s),
        all_fit(s),
    ensures
        lookup(s.drop_last(), key) == (if key == s.last().0 { None } else { lookup(s, key) }),
        distinct_keys(s.drop_last()),
        all_fit(s.drop_last()),
        image_bytes(s.last().1) <= u64::MAX,
    decreases s.len(),
{
    if s.len() > 1 {
        let t = s.drop_first();
        let d = s.drop_last();
        assert(d.drop_first() =~= t.drop_last());
        assert(d[0] == s[0]);
        assert(t.last() == s.last());
        lemma_lookup_drop_last(t, key);
        lemma_lookup_drop_last(t, s[0].0);
        lemma_has_last(t);
        assert(lookup(d, key) == (if d[0].0 == key { Some(d[0].1) } else { lookup(d.drop_first(), key) }));
        assert(lookup(s, key) == (if s[0].0 == key { Some(s[0].1) } else { lookup(t, key) }));
    } else {
        assert(s.drop_last() =~= Seq::<CacheEntry>::empty());
        assert(s.drop_first().len() == 0);
        assert(lookup(s, key) == (if s[0].0 == key { Some(s[0].1) } else { lookup(s.drop_first(), key) }));
    }
}

pub proof fn lemma_lookup_fits(s: Seq<CacheEntry>, key: Seq<char>)
    requires
        all_fit(s),
    ensures
        lookup(s, key) matches Some(img) ==> image_bytes(img) <= u64::MAX,
    decreases s.len(),
{
    if s.len() > 0 && s[0].0 != key {
        lemma_lookup_fits(s.drop_first(), key);
    }
}

/// Putting an entry keeps keys distinct and sizes in range, and keeps the list within `cap`.
pub proof fn lemma_put_preserves(s: Seq<CacheEntry>, cap: nat, key: Seq<char>, img: GlintImage)
    requires
        distinct_keys(s),
        all_fit(s),
        s.len() <= cap,
        cap > 0,
        image_bytes(img) <= u64::MAX,
    ensures
        distinct_keys(put_entries(s, cap, key, img)),
        all_fit(put_entries(s, cap, key, img)),
        put_entries(s, cap, key, img).len() <= cap,
{
    let r = put_entries(s, cap, key, img);
    if has_key(s, key) {
        lemma_remove_preserves(s, key);
        lemma_lookup_remove(s, key, key);
        let t = remove_key(s, key);
        assert(r.drop_first() =~= t);
        // the removed key was present, so the list shrank
        lemma_remove_shrinks(s, key);
    } else if s.len() == cap {
        lemma_lookup_drop_last(s, key);
        assert(r.drop_first() =~= s.drop_last());
    } else {
        assert(r.drop_first() =~= s);
    }
}

/// Putting into a full list whose least recently used entry was already taken out gives the
/// same list as putting into the full list.
pub proof fn lemma_put_after_pop(s: Seq<CacheEntry>, cap: nat, key: Seq<char>, img: GlintImage)
    requires
        put_drops_last(s, cap, key),
        distinct_keys(s),
        all_fit(s),
    ensures
        put_entries(s.drop_last(), cap, key, img) == put_entries(s, cap, key, img),
{
    lemma_lookup_drop_last(s, key);
}

pub proof fn lemma_remove_shrinks(s: Seq<CacheEntry>, key: Seq<char>)
    requires
        has_key(s, key),
    ensures
        remove_key(s, key).len() < s.len(),
    decreases s.len(),
{
    lemma_lookup_remove(s.drop_first(), key, key);
    if s[0].0 != key {
        lemma_remove_shrinks(s.drop_first(), key);
    }
}

// ---------------------------------------------------------------------------
// Trusted calls into `lru`
// ---------------------------------------------------------------------------

/// `LruCache::new`: an empty cache that holds at most `cap` entries.
#[verifier::external_body]
fn lru_new(cap: usize) -> (r: LruCache<String, GlintImage>)
    requires
        cap > 0,
    ensures
        lru_entries(r) == Seq::<CacheEntry>::empty(),
        lru_capacity(r) == cap,
{
    LruCache::new(NonZeroUsize::new(cap).unwrap())
}

/// `LruCache::put`: stores `img` under `key` as the most recently used entry, returning the
/// value it replaced under the same key; when the key is new and the cache is full, the least
/// recently used entry is dropped.
#[verifier::external_body]
fn lru_put(cache: &mut LruCache<String, GlintImage>, key: String, img: GlintImage) -> (r: Option<
    GlintImage,
>)
    ensures
        lru_entries(*final(cache)) == put_entries(
            lru_entries(*old(cache)),
            lru_capacity(*old(cache)),
            key@,
            img,
        ),
        lru_capacity(*final(cache)) == lru_capacity(*old(cache)),
        r == lookup(lru_entries(*old(cache)), key@),
{
    cache.put(key, img)
}

/// `LruCache::peek`: the value stored under `key`, without changing the order.
#[verifier::external_body]
fn lru_peek<'a>(cache: &'a LruCache<String, GlintImage>, key: &str) -> (r: Option<&'a GlintImage>)
    ensures
        match r {
            Some(img) => lookup(lru_entries(*cache), key@) == Some(*img),
            None => lookup(lru_entries(*cache), key@) is None,
        },
{
    cache.peek(key)
}

/// `LruCache::get`: the value stored under `key`, which becomes the most recently used entry.
#[verifier::external_body]
fn lru_get<'a>(cache: &'a mut LruCache<String, GlintImage>, key: &str) -> (r: Option<
    &'a GlintImage,
>)
    ensures
        match r {
            Some(img) => lookup(lru_entries(*old(cache)), key@) == Some(*img),
            None => lookup(lru_entries(*old(cache)), key@) is None,
        },
        lru_entries(*final(cache)) == promote(lru_entries(*old(cache)), key@),
        lru_capacity(*final(cache)) == lru_capacity(*old(cache)),
{
    cache.get(key)
}

/// `LruCache::contains`: whether an entry is stored under `key`; the order is unchanged.
#[verifier::external_body]
fn lru_contains(cache: &LruCache<String, GlintImage>, key: &str) -> (r: bool)
    ensures
        r == has_key(lru_entries(*cache), key@),
{
    cache.contains(key)
}

/// `LruCache::pop`: removes and returns the value stored under `key`.
#[verifier::external_body]
fn lru_pop(cache: &mut LruCache<String, GlintImage>, key: &str) -> (r: Option<GlintImage>)
    ensures
        r == lookup(lru_entries(*old(cache)), key@),
        lru_entries(*final(cache)) == remove_key(lru_entries(*old(cache)), key@),
        lru_capacity(*final(cache)) == lru_capacity(*old(cache)),
{
    cache.pop(key)
}

/// `LruCache::pop_lru`: removes and returns the least recently used entry.
#[verifier::external_body]
fn lru_pop_lru(cache: &mut LruCache<String, GlintImage>) -> (r: Option<(String, GlintImage)>)
    ensures
        lru_entries(*old(cache)).len() == 0 ==> r is None && lru_entries(*final(cache))
            == lru_entries(*old(cache)),
        lru_entries(*old(cache)).len() > 0 ==> (r matches Some(e) && e.0@ == lru_entries(
            *old(cache),
        ).last().0 && e.1 == lru_entries(*old(cache)).last().1 && lru_entries(*final(cache))
            == lru_entries(*old(cache)).drop_last()),
        lru_capacity(*final(cache)) == lru_capacity(*old(cache)),
{
    cache.pop_lru()
}

/// `LruCache::cap`: the number of entries that the cache holds at most.
#[verifier::external_body]
fn lru_cap(cache: &LruCache<String, GlintImage>) -> (r: usize)
    ensures
        r == lru_capacity(*cache),
{
    cache.cap().get()
}

/// `LruCache::len`: the number of entries.
#[verifier::external_body]
fn lru_len(cache: &LruCache<String, GlintImage>) -> (r: usize)
    ensures
        r == lru_entries(*cache).len(),
{
    cache.len()
}

/// `LruCache::is_empty`: whether there are no entries.
#[verifier::external_body]
fn lru_is_empty(cache: &LruCache<String, GlintImage>) -> (r: bool)
    ensures
        r == (lru_entries(*cache).len() == 0),
{
    cache.is_empty()
}

/// `LruCache::clear`: removes every entry.
#[verifier::external_body]
fn lru_clear(cache: &mut LruCache<String, GlintImage>)
    ensures
        lru_entries(*final(cache)) == Seq::<CacheEntry>::empty(),
        lru_capacity(*final(cache)) == lru_capacity(*old(cache)),
{
    cache.clear()
}


// ---------------------------------------------------------------------------
// The image cache
// ---------------------------------------------------------------------------

/// The abstract state of an [`ImageCache`].
pub struct CacheState {
    /// The cached images, most recently used first.
    pub entries: Seq<CacheEntry>,
    /// How many images the cache holds at most.
    pub capacity: nat,
    /// The memory budget in bytes.
    pub max_memory: nat,
    /// The running estimate of the memory in use, in bytes.
    pub memory: nat,
}

/// `a - b`, or 0 where that is negative.
pub open spec fn sat_sub(a: int, b: int) -> nat {
    if a - b < 0 {
        0
    } else {
        (a - b) as nat
    }
}

/// The memory estimate once an older image stored under `key`, if any, is no longer counted.
pub open spec fn memory_base(s: CacheState, key: Seq<char>) -> nat {
    match lookup(s.entries, key) {
        Some(old) => sat_sub(s.memory as int, image_bytes(old)),
        None => s.memory,
    }
}

/// Evicting least recently used entries while `memory + size` exceeds `max` and
/// entries remain: the entries left and the memory estimate.
pub open spec fn evict(entries: Seq<CacheEntry>, memory: nat, size: int, max: nat) -> (Seq<
    CacheEntry,
>, nat)
    decreases entries.len(),
{
    if memory + size > max && entries.len() > 0 {
        evict(entries.drop_last(), sat_sub(memory as int, image_bytes(entries.last().1)), size, max)
    } else {
        (entries, memory)
    }
}

/// Whether storing a new entry under `key` in `entries`, which hold at most `cap`, pushes
/// out the least recently used entry.
pub open spec fn put_drops_last(entries: Seq<CacheEntry>, cap: nat, key: Seq<char>) -> bool {
    !has_key(entries, key) && entries.len() == cap && entries.len() > 0
}

/// The memory estimate `memory` once the entry that a put under `key` pushes out, if any,
/// is no longer counted.
pub open spec fn memory_after_push_out(
    entries: Seq<CacheEntry>,
    cap: nat,
    key: Seq<char>,
    memory: nat,
) -> nat {
    if put_drops_last(entries, cap, key) {
        sat_sub(memory as int, image_bytes(entries.last().1))
    } else {
        memory
    }
}

/// The state after storing `img` under `key` without regard to the memory budget: an older
/// image under `key`, or the least recently used image that a full cache pushes out, stops
/// counting.
pub open spec fn after_insert(s: CacheState, key: Seq<char>, img: GlintImage) -> CacheState {
    CacheState {
        entries: put_entries(s.entries, s.capacity, key, img),
        capacity: s.capacity,
        max_memory: s.max_memory,
        memory: (memory_after_push_out(s.entries, s.capacity, key, memory_base(s, key))
            + image_bytes(img)) as nat,
    }
}

/// The state after loading `img` under `key`: an older image under `key` stops counting, least
/// recently used images are evicted until the new one fits the budget (or none are left), and
/// the new image is stored as the most recently used (an image that a full cache pushes out
/// stops counting too).
pub open spec fn after_load(s: CacheState, key: Seq<char>, img: GlintImage) -> CacheState {
    let (left, memory) = evict(s.entries, memory_base(s, key), image_bytes(img), s.max_memory);
    CacheState {
        entries: put_entries(left, s.capacity, key, img),
        capacity: s.capacity,
        max_memory: s.max_memory,
        memory: (memory_after_push_out(left, s.capacity, key, memory) + image_bytes(img)) as nat,
    }
}

/// The state after dropping the image stored under `key`, if there is one.
pub open spec fn after_invalidate(s: CacheState, key: Seq<char>) -> CacheState {
    match lookup(s.entries, key) {
        Some(old) => CacheState {
            entries: remove_key(s.entries, key),
            memory: sat_sub(s.memory as int, image_bytes(old)),
            ..s
        },
        None => s,
    }
}

/// The state after looking up `key`: a hit becomes the most recently used entry.
pub open spec fn after_get(s: CacheState, key: Seq<char>) -> CacheState {
    CacheState { entries: promote(s.entries, key), ..s }
}

/// The state after clearing: no entries and no memory counted.
pub open spec fn after_clear(s: CacheState) -> CacheState {
    CacheState { entries: Seq::<CacheEntry>::empty(), memory: 0, ..s }
}

/// The state after setting the memory budget to `bytes`.
pub open spec fn after_set_max_memory(s: CacheState, bytes: nat) -> CacheState {
    CacheState { max_memory: bytes, ..s }
}

/// A least-recently-used cache of decoded images with an estimate of the memory they take.
pub struct ImageCache {
    cache: LruCache<String, GlintImage>,
    max_memory_bytes: u64,
    current_memory: u64,
}

impl View for ImageCache {
    type V = CacheState;

    closed spec fn view(&self) -> CacheState {
        CacheState {
            entries: lru_entries(self.cache),
            capacity: lru_capacity(self.cache),
            max_memory: self.max_memory_bytes as nat,
            memory: self.current_memory as nat,
        }
    }
}

impl ImageCache {
    /// Whether the cache state is one that an `ImageCache` can be in.
    pub open spec fn well_formed(s: CacheState) -> bool {
        &&& distinct_keys(s.entries)
        &&& all_fit(s.entries)
        &&& s.entries.len() <= s.capacity
        &&& s.capacity > 0
        &&& s.max_memory <= u64::MAX
        &&& s.memory <= u64::MAX
    }

    /// The cache is in a state that its operations keep.
    pub open spec fn wf(&self) -> bool {
        Self::well_formed(self@)
    }

    /// Create a new image cache with the given capacity (0 stands for 50), a 512 MB budget
    /// and nothing in it.
    pub fn new(capacity: usize) -> (r: Self)
        ensures
            r@.entries == Seq::<CacheEntry>::empty(),
            r@.capacity == (if capacity == 0 { 50 } else { capacity as nat }),
            r@.max_memory == 512 * 1024 * 1024,
            r@.memory == 0,
            r.wf(),
    {
        let cap: usize = if capacity == 0 { 50 } else { capacity };
        let r = ImageCache { cache: lru_new(cap), max_memory_bytes: 512 * 1024 * 1024, current_memory: 0 };
        r
    }

    /// The current memory estimate in bytes.
    pub fn current_memory_bytes(&self) -> (r: u64)
        ensures
            r == self@.memory,
    {
        self.current_memory
    }

    /// Load a decoded image into the cache under `path` (keyed by the path's components, so
    /// that paths that compare equal share an entry), evicting the least recently used images
    /// while the memory estimate would exceed the budget.
    pub fn load(&mut self, path: String, image: GlintImage)
        requires
            image_bytes(image) <= u64::MAX,
            old(self).wf(),
            old(self)@.memory + image_bytes(image) <= u64::MAX,
        ensures
            final(self)@ == after_load(old(self)@, path_key_of(path@), image),
            final(self).wf(),
    {
        let path = path_key(path.as_str());
        let image_size = image.memory_bytes();
        let ghost s0 = self@;
        let ghost key = path@;
        let mut memory = self.current_memory;
        match lru_peek(&self.cache, path.as_str()) {
            Some(old) => {
                proof { lemma_lookup_fits(s0.entries, key); }
                let old_size = old.memory_bytes();
                memory = memory.saturating_sub(old_size);
            },
            None => {},
        }
        let max_mem = self.max_memory_bytes;
        assert(memory == memory_base(s0, key));
        while memory + image_size > max_mem && !lru_is_empty(&self.cache)
            invariant
                distinct_keys(lru_entries(self.cache)),
                all_fit(lru_entries(self.cache)),
                lru_entries(self.cache).len() <= lru_capacity(self.cache),
                lru_capacity(self.cache) == s0.capacity,
                s0.capacity > 0,
                max_mem == s0.max_memory,
                self.max_memory_bytes == s0.max_memory,
                memory <= memory_base(s0, key),
                image_size == image_bytes(image),
                memory_base(s0, key) + image_bytes(image) <= u64::MAX,
                evict(lru_entries(self.cache), memory as nat, image_size as int, max_mem as nat)
                    == evict(s0.entries, memory_base(s0, key), image_bytes(image), s0.max_memory),
            decreases lru_entries(self.cache).len(),
        {
            let ghost before = lru_entries(self.cache);
            proof { lemma_lookup_drop_last(before, key); }
            match lru_pop_lru(&mut self.cache) {
                Some(evicted) => {
                    let evicted_size = evicted.1.memory_bytes();
                    memory = memory.saturating_sub(evicted_size);
                },
                None => {},
            }
        }
        let ghost left = lru_entries(self.cache);
        assert(evict(left, memory as nat, image_size as int, max_mem as nat) == (left, memory as nat));
        proof {
            lemma_put_preserves(left, s0.capacity, key, image);
            if put_drops_last(left, s0.capacity, key) {
                lemma_put_after_pop(left, s0.capacity, key, image);
            }
        }
        memory = self.push_out_for(&path, memory);
        memory = memory + image_size;
        let _ = lru_put(&mut self.cache, path, image);
        self.current_memory = memory;
    }

    /// Get an image from the cache; a hit makes it the most recently used entry.
    pub fn get(&mut self, path: &str) -> (r: Option<GlintImage>)
        requires
            old(self).wf(),
        ensures
            r == lookup(old(self)@.entries, path_key_of(path@)),
            final(self)@ == after_get(old(self)@, path_key_of(path@)),
            final(self).wf(),
    {
        let key = path_key(path);
        let path = key.as_str();
        let ghost s0 = self@;
        proof {
            lemma_promote_preserves(s0.entries, path@);
        }
        match lru_get(&mut self.cache, path) {
            Some(img) => Some(img.duplicate()),
            None => None,
        }
    }

    /// Check if an image is cached
    pub fn contains(&self, path: &str) -> (r: bool)
        ensures
            r == has_key(self@.entries, path_key_of(path@)),
    {
        let key = path_key(path);
        let path = key.as_str();
        lru_contains(&self.cache, path)
    }

    /// Invalidate a specific image from the cache
    pub fn invalidate(&mut self, path: &str)
        requires
            old(self).wf(),
        ensures
            final(self)@ == after_invalidate(old(self)@, path_key_of(path@)),
            final(self).wf(),
    {
        let key = path_key(path);
        let path = key.as_str();
        let ghost s0 = self@;
        proof {
            lemma_remove_preserves(s0.entries, path@);
            lemma_lookup_fits(s0.entries, path@);
            lemma_lookup_remove(s0.entries, path@, path@);
        }
        match lru_pop(&mut self.cache, path) {
            Some(removed) => {
                let removed_size = removed.memory_bytes();
                self.current_memory = self.current_memory.saturating_sub(removed_size);
            },
            None => {
                assert(remove_key(s0.entries, path@) == s0.entries) by {
                    lemma_remove_absent(s0.entries, path@);
                }
            },
        }
    }

    /// Clear the entire cache
    pub fn clear(&mut self)
        requires
            old(self).wf(),
        ensures
            final(self)@ == after_clear(old(self)@),
            final(self).wf(),
    {
        lru_clear(&mut self.cache);
        self.current_memory = 0;
    }

    /// Get the current number of cached images
    pub fn len(&self) -> (r: usize)
        ensures
            r == self@.entries.len(),
    {
        lru_len(&self.cache)
    }

    /// Insert an image directly into the cache (for processed editor results), without
    /// evicting for the memory budget.
    pub fn insert(&mut self, path: String, image: GlintImage)
        requires
            old(self).wf(),
            image_bytes(image) <= u64::MAX,
            old(self)@.memory + image_bytes(image) <= u64::MAX,
        ensures
            final(self)@ == after_insert(old(self)@, path_key_of(path@), image),
            final(self).wf(),
    {
        let path = path_key(path.as_str());
        let image_size = image.memory_bytes();
        let ghost s0 = self@;
        let mut memory = self.current_memory;
        match lru_peek(&self.cache, path.as_str()) {
            Some(old) => {
                proof { lemma_lookup_fits(s0.entries, path@); }
                let old_size = old.memory_bytes();
                memory = memory.saturating_sub(old_size);
            },
            None => {},
        }
        proof {
            lemma_put_preserves(s0.entries, s0.capacity, path@, image);
            if put_drops_last(s0.entries, s0.capacity, path@) {
                lemma_put_after_pop(s0.entries, s0.capacity, path@, image);
            }
        }
        memory = self.push_out_for(&path, memory);
        memory = memory + image_size;
        let _ = lru_put(&mut self.cache, path, image);
        self.current_memory = memory;
    }

    /// Make room for a new entry under `key` in a full cache: the least recently used entry
    /// is taken out and its bytes no longer counted in `memory`.
    fn push_out_for(&mut self, key: &String, memory: u64) -> (r: u64)
        requires
            distinct_keys(lru_entries(old(self).cache)),
            all_fit(lru_entries(old(self).cache)),
            lru_entries(old(self).cache).len() <= lru_capacity(old(self).cache),
        ensures
            r == memory_after_push_out(
                lru_entries(old(self).cache),
                lru_capacity(old(self).cache),
                key@,
                memory as nat,
            ),
            lru_entries(final(self).cache) == (if put_drops_last(
                lru_entries(old(self).cache),
                lru_capacity(old(self).cache),
                key@,
            ) {
                lru_entries(old(self).cache).drop_last()
            } else {
                lru_entries(old(self).cache)
            }),
            lru_capacity(final(self).cache) == lru_capacity(old(self).cache),
            final(self).max_memory_bytes == old(self).max_memory_bytes,
            final(self).current_memory == old(self).current_memory,
    {
        let ghost s = lru_entries(self.cache);
        let mut memory = memory;
        if !lru_contains(&self.cache, key.as_str()) && lru_len(&self.cache) == lru_cap(&self.cache)
            && lru_len(&self.cache) > 0 {
            proof { lemma_lookup_drop_last(s, key@); }
            match lru_pop_lru(&mut self.cache) {
                Some(dropped) => {
                    let dropped_size = dropped.1.memory_bytes();
                    memory = memory.saturating_sub(dropped_size);
                },
                None => {},
            }
        }
        memory
    }

    /// Set the maximum memory usage (in MB)
    pub fn set_max_memory(&mut self, max_mb: u64)
        requires
            old(self).wf(),
            max_mb * 1024 * 1024 <= u64::MAX,
        ensures
            final(self)@ == after_set_max_memory(old(self)@, (max_mb * 1024 * 1024) as nat),
            final(self).wf(),
    {
        self.max_memory_bytes = max_mb * 1024 * 1024;
    }

    /// Get the current estimated memory usage in MB (rounded down)
    pub fn current_memory_mb(&self) -> (r: u64)
        ensures
            r == self@.memory / 1024 / 1024,
    {
        self.current_memory / 1024 / 1024
    }

    /// Check if the cache is empty
    pub fn is_empty(&self) -> (r: bool)
        ensures
            r == (self@.entries.len() == 0),
    {
        lru_is_empty(&self.cache)
    }
}

pub proof fn lemma_remove_absent(s: Seq<CacheEntry>, key: Seq<char>)
    requires
        !has_key(s, key),
    ensures
        remove_key(s, key) == s,
    decreases s.len(),
{
    if s.len() > 0 {
        lemma_remove_absent(s.drop_first(), key);
        assert(seq![s[0]] + s.drop_first() =~= s);
    }
}

pub proof fn lemma_promote_preserves(s: Seq<CacheEntry>, key: Seq<char>)
    requires
        distinct_keys(s),
        all_fit(s),
    ensures
        distinct_keys(promote(s, key)),
        all_fit(promote(s, key)),
        promote(s, key).len() == s.len(),
        forall|k: Seq<char>| #[trigger] lookup(promote(s, key), k) == lookup(s, k),
{
    match lookup(s, key) {
        Some(img) => {
            lemma_remove_preserves(s, key);
            lemma_lookup_fits(s, key);
            lemma_remove_shrinks(s, key);
            lemma_remove_len_one(s, key);
            let t = remove_key(s, key);
            assert(promote(s, key).drop_first() =~= t);
            assert forall|k: Seq<char>| #[trigger] lookup(promote(s, key), k) == lookup(s, k) by {
                lemma_lookup_prepend((key, img), t, k);
                lemma_lookup_remove(s, key, k);
            }
        },
        None => {},
    }
}

/// With distinct keys, removing a present key removes exactly one entry.
pub proof fn lemma_remove_len_one(s: Seq<CacheEntry>, key: Seq<char>)
    requires
        distinct_keys(s),
        has_key(s, key),
    ensures
        remove_key(s, key).len() == s.len() - 1,
    decreases s.len(),
{
    if s[0].0 == key {
        lemma_remove_absent(s.drop_first(), key);
    } else {
        lemma_remove_len_one(s.drop_first(), key);
    }
}


// ---------------------------------------------------------------------------
// Laws of the image cache
// ---------------------------------------------------------------------------

/// Storing an image under a path and then looking the path up gives that image.
pub proof fn law_insert_then_lookup(s: CacheState, key: Seq<char>, img: GlintImage)
    ensures
        lookup(after_insert(s, key, img).entries, key) == Some(img),
{
    let e = s.entries;
    if has_key(e, key) {
        lemma_lookup_prepend((key, img), remove_key(e, key), key);
    } else if e.len() == s.capacity {
        lemma_lookup_prepend((key, img), e.drop_last(), key);
    } else {
        lemma_lookup_prepend((key, img), e, key);
    }
}

/// Loading an image under a path and then looking the path up gives that image.
pub proof fn law_load_then_lookup(s: CacheState, key: Seq<char>, img: GlintImage)
    ensures
        lookup(after_load(s, key, img).entries, key) == Some(img),
{
    let (left, memory) = evict(s.entries, memory_base(s, key), image_bytes(img), s.max_memory);
    if has_key(left, key) {
        lemma_lookup_prepend((key, img), remove_key(left, key), key);
    } else if left.len() == s.capacity {
        lemma_lookup_prepend((key, img), left.drop_last(), key);
    } else {
        lemma_lookup_prepend((key, img), left, key);
    }
}

/// Storing an image under one path leaves what every other path holds, except the least
/// recently used entry, which goes when the path is new and the cache is full.
pub proof fn law_insert_keeps_others(s: CacheState, key: Seq<char>, img: GlintImage, other: Seq<char>)
    requires
        ImageCache::well_formed(s),
        other != key,
    ensures
        lookup(after_insert(s, key, img).entries, other) == (if !has_key(s.entries, key)
            && s.entries.len() == s.capacity && other == s.entries.last().0 {
            None
        } else {
            lookup(s.entries, other)
        }),
{
    let e = s.entries;
    if has_key(e, key) {
        lemma_lookup_prepend((key, img), remove_key(e, key), other);
        lemma_lookup_remove(e, key, other);
    } else if e.len() == s.capacity {
        lemma_lookup_prepend((key, img), e.drop_last(), other);
        lemma_lookup_drop_last(e, other);
    } else {
        lemma_lookup_prepend((key, img), e, other);
    }
}

/// After a path is invalidated the cache holds nothing under it, and every other path
/// holds what it held.
pub proof fn law_invalidate_removes(s: CacheState, key: Seq<char>, other: Seq<char>)
    ensures
        !has_key(after_invalidate(s, key).entries, key),
        other != key ==> lookup(after_invalidate(s, key).entries, other) == lookup(s.entries, other),
{
    lemma_lookup_remove(s.entries, key, key);
    lemma_lookup_remove(s.entries, key, other);
}

/// Looking a path up never changes what any path holds.
pub proof fn law_get_keeps_contents(s: CacheState, key: Seq<char>, other: Seq<char>)
    requires
        ImageCache::well_formed(s),
    ensures
        lookup(promote(s.entries, key), other) == lookup(s.entries, other),
{
    lemma_promote_preserves(s.entries, key);
}

/// Eviction only drops least recently used entries, and stops once the new image fits the
/// budget or nothing is left to evict.
pub proof fn law_evict_respects_budget(entries: Seq<CacheEntry>, memory: nat, size: int, max: nat)
    ensures
        evict(entries, memory, size, max).1 + size <= max || evict(entries, memory, size, max).0.len()
            == 0,
        evict(entries, memory, size, max).0 == entries.subrange(
            0,
            evict(entries, memory, size, max).0.len() as int,
        ),
        evict(entries, memory, size, max).1 <= memory,
        evict(entries, memory, size, max).0.len() <= entries.len(),
    decreases entries.len(),
{
    if memory + size > max && entries.len() > 0 {
        let d = entries.drop_last();
        law_evict_respects_budget(d, sat_sub(memory as int, image_bytes(entries.last().1)), size, max);
        let l = evict(d, sat_sub(memory as int, image_bytes(entries.last().1)), size, max).0;
        assert(d.subrange(0, l.len() as int) =~= entries.subrange(0, l.len() as int));
    } else {
        assert(entries.subrange(0, entries.len() as int) =~= entries);
    }
}

/// The cache never holds more images than its capacity.
pub proof fn law_capacity_bound(c: ImageCache)
    requires
        c.wf(),
    ensures
        c@.entries.len() <= c@.capacity,
{
}

} // verus!
