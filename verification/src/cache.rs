//! The bounded, content-addressed audio cache: a mapping from 256-bit digests
//! to immutable audio entries, least-recently-used entries evicted once the
//! fixed capacity is reached. A lookup refreshes an entry's recency; an
//! insert replaces an existing entry for the same key.
//!
//! The model is the sequence of (key, entry) pairs in recency order, least
//! recently used first; keys are unique and the length never exceeds the
//! capacity.

use vstd::prelude::*;

verus! {

/// Audio bytes with an optional content-type tag; never mutated once
/// inserted.
#[derive(Debug)]
pub struct CacheEntry {
    pub audio: Vec<u8>,
    pub content_type: Option<String>,
}

/// The mathematical value of a cache entry.
pub struct EntryModel {
    pub audio: Seq<u8>,
    pub content_type: Option<Seq<char>>,
}

impl View for CacheEntry {
    type V = EntryModel;

    open spec fn view(&self) -> EntryModel {
        EntryModel {
            audio: self.audio@,
            content_type: match self.content_type {
                Some(s) => Some(s@),
                None => None,
            },
        }
    }
}

/// Copies a byte vector.
pub fn clone_bytes(v: &Vec<u8>) -> (r: Vec<u8>)
    ensures
        r@ == v@,
{
    let mut r: Vec<u8> = Vec::new();
    let n = v.len();
    let mut i: usize = 0;
    while i < n
        invariant
            i <= n,
            n == v@.len(),
            r@ == v@.take(i as int),
        decreases n - i,
    {
        r.push(v[i]);
        proof {
            assert(r@ =~= v@.take(i as int + 1));
        }
        i += 1;
    }
    proof {
        assert(v@.take(n as int) =~= v@);
    }
    r
}

impl CacheEntry {
    /// A fresh entry owning its audio.
    pub fn new(audio: Vec<u8>, content_type: Option<String>) -> (r: CacheEntry)
        ensures
            r@.audio == audio@,
            r@.content_type == (match content_type {
                Some(s) => Some(s@),
                None => None,
            }),
    {
        CacheEntry { audio, content_type }
    }

    /// A copy with the same bytes and tag.
    pub fn duplicate(&self) -> (r: CacheEntry)
        ensures
            r@ == self@,
    {
        CacheEntry {
            audio: clone_bytes(&self.audio),
            content_type: match &self.content_type {
                Some(s) => Some(s.clone()),
                None => None,
            },
        }
    }
}

/// The cache's model: (key, entry) pairs, least recently used first.
pub type CacheModel = Seq<(Seq<u8>, EntryModel)>;

/// Whether position `i` of `m` holds key `k`.
pub open spec fn spec_key_at(m: CacheModel, k: Seq<u8>, i: int) -> bool {
    0 <= i < m.len() && m[i].0 == k
}

/// Whether `m` holds key `k` anywhere.
pub open spec fn spec_contains_key(m: CacheModel, k: Seq<u8>) -> bool {
    exists|i: int| spec_key_at(m, k, i)
}

/// The position of key `k` in `m` (meaningful under unique keys).
pub open spec fn spec_index_of(m: CacheModel, k: Seq<u8>) -> int {
    choose|i: int| spec_key_at(m, k, i)
}

/// The entry stored under `k`, if any.
pub open spec fn spec_lookup(m: CacheModel, k: Seq<u8>) -> Option<EntryModel> {
    if spec_contains_key(m, k) {
        Some(m[spec_index_of(m, k)].1)
    } else {
        None
    }
}

/// No key occurs twice.
pub open spec fn spec_unique_keys(m: CacheModel) -> bool {
    forall|i: int, j: int| 0 <= i < j < m.len() ==> (#[trigger] m[i]).0 != (#[trigger] m[j]).0
}

/// A lookup hit moves the entry to the most-recent end; a miss changes
/// nothing.
pub open spec fn spec_touch(m: CacheModel, k: Seq<u8>) -> CacheModel {
    if spec_contains_key(m, k) {
        let i = spec_index_of(m, k);
        m.remove(i).push(m[i])
    } else {
        m
    }
}

/// An insert drops any entry already stored under the key, else — with the
/// cache full — the least recently used entry, and appends the new pair at
/// the most-recent end.
pub open spec fn spec_insert(m: CacheModel, capacity: int, k: Seq<u8>, e: EntryModel) -> CacheModel {
    let trimmed = if spec_contains_key(m, k) {
        m.remove(spec_index_of(m, k))
    } else if m.len() >= capacity {
        m.drop_first()
    } else {
        m
    };
    trimmed.push((k, e))
}

/// The in-memory cache tier.
#[derive(Debug)]
pub struct AudioCache {
    entries: Vec<(Vec<u8>, CacheEntry)>,
    capacity: usize,
}

fn find_key(entries: &Vec<(Vec<u8>, CacheEntry)>, key: &Vec<u8>) -> (r: Option<usize>)
    ensures
        match r {
            Some(i) => i < entries@.len() && entries@[i as int].0@ == key@,
            None => forall|j: int| 0 <= j < entries@.len() ==> (#[trigger] entries@[j]).0@ != key@,
        },
{
    let n = entries.len();
    let mut i: usize = 0;
    while i < n
        invariant
            i <= n,
            n == entries@.len(),
            forall|j: int| 0 <= j < i ==> (#[trigger] entries@[j]).0@ != key@,
        decreases n - i,
    {
        if &entries[i].0 == key {
            proof {
                assert(entries@[i as int].0@ =~= key@);
            }
            return Some(i);
        }
        proof {
            assert(!(entries@[i as int].0@ =~= key@));
        }
        i += 1;
    }
    None
}

impl AudioCache {
    /// The recency-ordered model.
    pub closed spec fn spec_model(&self) -> CacheModel {
        Seq::new(self.entries@.len(), |i: int| (self.entries@[i].0@, self.entries@[i].1@))
    }

    pub closed spec fn spec_capacity(&self) -> int {
        self.capacity as int
    }

    /// Bounded size, unique keys, non-trivial capacity.
    pub closed spec fn wf(&self) -> bool {
        &&& self.capacity >= 1
        &&& self.spec_model().len() <= self.capacity
        &&& spec_unique_keys(self.spec_model())
    }

    /// An empty cache that will hold at most `capacity` entries.
    pub fn new(capacity: usize) -> (r: AudioCache)
        requires
            capacity >= 1,
        ensures
            r.wf(),
            r.spec_model() == Seq::<(Seq<u8>, EntryModel)>::empty(),
            r.spec_capacity() == capacity,
    {
        let r = AudioCache { entries: Vec::new(), capacity };
        proof {
            assert(r.spec_model() =~= Seq::<(Seq<u8>, EntryModel)>::empty());
        }
        r
    }

    /// Looks `key` up in the in-memory tier, refreshing its recency on a
    /// hit. The returned entry is a copy: entries themselves are never
    /// mutated.
    pub fn lookup(&mut self, key: &Vec<u8>) -> (r: Option<CacheEntry>)
        requires
            old(self).wf(),
        ensures
            final(self).wf(),
            final(self).spec_capacity() == old(self).spec_capacity(),
            match r {
                Some(e) => spec_lookup(old(self).spec_model(), key@) == Some(e@)
                    && final(self).spec_model() == spec_touch(old(self).spec_model(), key@),
                None => !spec_contains_key(old(self).spec_model(), key@) && final(self).spec_model()
                    == old(self).spec_model(),
            },
    {
        let ghost m0 = self.spec_model();
        match find_key(&self.entries, key) {
            Some(i) => {
                proof {
                    assert(spec_key_at(m0, key@, i as int));
                    let w = spec_index_of(m0, key@);
                    assert(spec_key_at(m0, key@, w));
                    assert(w == i as int);
                }
                let pair = self.entries.remove(i);
                let duplicate = pair.1.duplicate();
                self.entries.push(pair);
                proof {
                    assert(final(self).spec_model() =~= m0.remove(i as int).push(m0[i as int]));
                    lemma_remove_push_unique(m0, i as int);
                }
                Some(duplicate)
            },
            None => {
                proof {
                    assert(!spec_contains_key(m0, key@));
                }
                None
            },
        }
    }

    /// Stores `entry` under `key`: replaces any entry already under the key,
    /// else — with the cache full — evicts the least recently used entry.
    pub fn insert(&mut self, key: Vec<u8>, entry: CacheEntry)
        requires
            old(self).wf(),
        ensures
            final(self).wf(),
            final(self).spec_capacity() == old(self).spec_capacity(),
            final(self).spec_model() == spec_insert(
                old(self).spec_model(),
                old(self).spec_capacity(),
                key@,
                entry@,
            ),
    {
        let ghost m0 = self.spec_model();
        let ghost cap = self.spec_capacity();
        match find_key(&self.entries, &key) {
            Some(i) => {
                proof {
                    assert(spec_key_at(m0, key@, i as int));
                    let w = spec_index_of(m0, key@);
                    assert(spec_key_at(m0, key@, w));
                    assert(w == i as int);
                }
                let _ = self.entries.remove(i);
                proof {
                    assert(self.spec_model() =~= m0.remove(i as int));
                    lemma_remove_unique(m0, i as int);
                    lemma_remove_own_key(m0, key@, i as int);
                }
            },
            None => {
                proof {
                    assert(!spec_contains_key(m0, key@));
                }
                if self.entries.len() == self.capacity {
                    proof {
                        assert(m0.len() >= cap);
                    }
                }
                if self.entries.len() >= self.capacity {
                    let _ = self.entries.remove(0);
                    proof {
                        assert(self.spec_model() =~= m0.remove(0));
                        assert(m0.remove(0) =~= m0.drop_first());
                        lemma_remove_unique(m0, 0);
                        assert(!spec_contains_key(m0.drop_first(), key@)) by {
                            if spec_contains_key(m0.drop_first(), key@) {
                                let w = choose|i: int| spec_key_at(m0.drop_first(), key@, i);
                                assert(spec_key_at(m0, key@, w + 1));
                            }
                        }
                    }
                }
            },
        }
        let ghost trimmed = self.spec_model();
        self.entries.push((key, entry));
        proof {
            assert(final(self).spec_model() =~= trimmed.push((key@, entry@)));
            assert(final(self).spec_model() =~= spec_insert(m0, cap, key@, entry@));
            assert(!spec_contains_key(trimmed, key@));
            lemma_push_fresh_unique(trimmed, key@, entry@);
        }
    }
}

/// Removing one pair keeps the remaining keys unique.
proof fn lemma_remove_unique(m: CacheModel, i: int)
    requires
        spec_unique_keys(m),
        0 <= i < m.len(),
    ensures
        spec_unique_keys(m.remove(i)),
{
    let r = m.remove(i);
    assert forall|p: int, q: int| 0 <= p < q < r.len() implies (#[trigger] r[p]).0 != (
    #[trigger] r[q]).0 by {
        let p0 = if p < i {
            p
        } else {
            p + 1
        };
        let q0 = if q < i {
            q
        } else {
            q + 1
        };
        assert(r[p] == m[p0]);
        assert(r[q] == m[q0]);
    }
}

/// After removing the one pair that held `k`, no pair holds `k`.
proof fn lemma_remove_own_key(m: CacheModel, k: Seq<u8>, i: int)
    requires
        spec_unique_keys(m),
        spec_key_at(m, k, i),
    ensures
        !spec_contains_key(m.remove(i), k),
{
    let r = m.remove(i);
    if spec_contains_key(r, k) {
        let w = choose|j: int| spec_key_at(r, k, j);
        let w0 = if w < i {
            w
        } else {
            w + 1
        };
        assert(r[w] == m[w0]);
        assert(spec_key_at(m, k, w0));
    }
}

/// Moving one pair to the end keeps the keys unique.
proof fn lemma_remove_push_unique(m: CacheModel, i: int)
    requires
        spec_unique_keys(m),
        0 <= i < m.len(),
    ensures
        spec_unique_keys(m.remove(i).push(m[i])),
{
    lemma_remove_unique(m, i);
    lemma_remove_own_key(m, m[i].0, i);
    let r = m.remove(i).push(m[i]);
    assert forall|p: int, q: int| 0 <= p < q < r.len() implies (#[trigger] r[p]).0 != (
    #[trigger] r[q]).0 by {
        if q < r.len() - 1 {
            assert(r[p] == m.remove(i)[p]);
            assert(r[q] == m.remove(i)[q]);
        } else {
            assert(r[p] == m.remove(i)[p]);
            assert(spec_key_at(m.remove(i), m[i].0, p) ==> spec_contains_key(m.remove(i), m[i].0));
        }
    }
}

/// Appending a pair whose key is absent keeps the keys unique.
proof fn lemma_push_fresh_unique(m: CacheModel, k: Seq<u8>, e: EntryModel)
    requires
        spec_unique_keys(m),
        !spec_contains_key(m, k),
    ensures
        spec_unique_keys(m.push((k, e))),
{
    let r = m.push((k, e));
    assert forall|p: int, q: int| 0 <= p < q < r.len() implies (#[trigger] r[p]).0 != (
    #[trigger] r[q]).0 by {
        if q < r.len() - 1 {
            assert(r[p] == m[p]);
            assert(r[q] == m[q]);
        } else {
            assert(r[p] == m[p]);
            assert(spec_key_at(m, k, p) ==> spec_contains_key(m, k));
        }
    }
}

/// Round trip: looking up a key right after inserting under it returns the
/// inserted entry, byte-identical audio and tag, whatever was stored before.
pub proof fn lemma_cache_round_trip(m: CacheModel, capacity: int, k: Seq<u8>, e: EntryModel)
    requires
        spec_unique_keys(m),
        capacity >= 1,
    ensures
        spec_lookup(spec_insert(m, capacity, k, e), k) == Some(e),
{
    let trimmed = if spec_contains_key(m, k) {
        m.remove(spec_index_of(m, k))
    } else if m.len() >= capacity {
        m.drop_first()
    } else {
        m
    };
    let inserted = trimmed.push((k, e));
    assert(!spec_contains_key(trimmed, k)) by {
        if spec_contains_key(m, k) {
            let i = spec_index_of(m, k);
            assert(spec_key_at(m, k, i));
            lemma_remove_own_key(m, k, i);
        } else if m.len() >= capacity {
            if spec_contains_key(m.drop_first(), k) {
                let w = choose|i: int| spec_key_at(m.drop_first(), k, i);
                assert(spec_key_at(m, k, w + 1));
            }
        }
    }
    let last = inserted.len() - 1;
    assert(spec_key_at(inserted, k, last));
    let w = spec_index_of(inserted, k);
    assert(spec_key_at(inserted, k, w));
    if w != last {
        assert(inserted[w] == trimmed[w]);
        assert(spec_key_at(trimmed, k, w));
    }
    assert(inserted[last].1 == e);
}

/// The model after inserting the first `n` of the given pairs, in order,
/// starting from `m`.
pub open spec fn spec_fill(
    m: CacheModel,
    capacity: int,
    keys: Seq<Seq<u8>>,
    entries: Seq<EntryModel>,
    n: int,
) -> CacheModel
    decreases n,
{
    if n <= 0 {
        m
    } else {
        spec_insert(
            spec_fill(m, capacity, keys, entries, n - 1),
            capacity,
            keys[n - 1],
            entries[n - 1],
        )
    }
}

/// Pairwise-distinct keys.
pub open spec fn spec_distinct(keys: Seq<Seq<u8>>) -> bool {
    forall|i: int, j: int| 0 <= i < j < keys.len() ==> keys[i] != keys[j]
}

spec fn spec_window(keys: Seq<Seq<u8>>, entries: Seq<EntryModel>, lo: int, hi: int) -> CacheModel {
    Seq::new((hi - lo) as nat, |i: int| (keys[lo + i], entries[lo + i]))
}

proof fn lemma_fill_window(keys: Seq<Seq<u8>>, entries: Seq<EntryModel>, capacity: int, n: int)
    requires
        capacity >= 1,
        0 <= n <= keys.len(),
        keys.len() == entries.len(),
        spec_distinct(keys),
    ensures
        spec_fill(Seq::empty(), capacity, keys, entries, n) == spec_window(
            keys,
            entries,
            if n - capacity > 0 {
                n - capacity
            } else {
                0
            },
            n,
        ),
    decreases n,
{
    let empty = Seq::<(Seq<u8>, EntryModel)>::empty();
    if n <= 0 {
        assert(spec_window(keys, entries, 0, 0) =~= empty);
    } else {
        lemma_fill_window(keys, entries, capacity, n - 1);
        let lo0 = if n - 1 - capacity > 0 {
            n - 1 - capacity
        } else {
            0
        };
        let w = spec_window(keys, entries, lo0, n - 1);
        assert(spec_fill(empty, capacity, keys, entries, n - 1) == w);
        assert(!spec_contains_key(w, keys[n - 1])) by {
            if spec_contains_key(w, keys[n - 1]) {
                let k1 = keys[n - 1];
                let j = choose|j: int| spec_key_at(w, k1, j);
                assert(w[j].0 == keys[lo0 + j]);
                assert(keys[lo0 + j] != keys[n - 1]);
            }
        }
        let filled = spec_insert(w, capacity, keys[n - 1], entries[n - 1]);
        if w.len() >= capacity {
            assert(lo0 == n - 1 - capacity);
            assert(filled =~= spec_window(keys, entries, lo0 + 1, n));
        } else {
            assert(n - 1 - lo0 < capacity);
            assert(lo0 == 0 && n - capacity <= 0);
            assert(filled =~= spec_window(keys, entries, lo0, n));
        }
    }
}

/// Eviction: with capacity `N`, inserting `N + 1` distinct keys in sequence
/// into an empty cache leaves the first-inserted key absent, while each of
/// the `N` most recently inserted keys still yields its entry.
pub proof fn lemma_eviction(keys: Seq<Seq<u8>>, entries: Seq<EntryModel>, capacity: int)
    requires
        capacity >= 1,
        keys.len() == capacity + 1,
        entries.len() == keys.len(),
        spec_distinct(keys),
    ensures
        !spec_contains_key(
            spec_fill(Seq::empty(), capacity, keys, entries, capacity + 1),
            keys[0],
        ),
        forall|i: int|
            1 <= i <= capacity ==> spec_lookup(
                spec_fill(Seq::empty(), capacity, keys, entries, capacity + 1),
                #[trigger] keys[i],
            ) == Some(entries[i]),
{
    lemma_fill_window(keys, entries, capacity, capacity + 1);
    let full = spec_fill(Seq::empty(), capacity, keys, entries, capacity + 1);
    assert(full == spec_window(keys, entries, 1, capacity + 1));
    assert(!spec_contains_key(full, keys[0])) by {
        if spec_contains_key(full, keys[0]) {
            let k0 = keys[0];
            let j = choose|j: int| spec_key_at(full, k0, j);
            assert(full[j].0 == keys[1 + j]);
            assert(keys[0] != keys[1 + j]);
        }
    }
    assert forall|i: int| 1 <= i <= capacity implies spec_lookup(full, #[trigger] keys[i]) == Some(
        entries[i],
    ) by {
        assert(full[i - 1] == (keys[i], entries[i]));
        assert(spec_key_at(full, keys[i], i - 1));
        let w = spec_index_of(full, keys[i]);
        assert(spec_key_at(full, keys[i], w));
        assert(full[w].0 == keys[1 + w]);
        assert(1 + w == i);
    }
}

} // verus!
