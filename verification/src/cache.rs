//! LRU cache for rendered pages.
use vstd::prelude::*;

verus! {

/// Target size for rendering a page.
///
/// Each window requests rasterization at its own appropriate resolution.
#[derive(Debug, Clone, Copy, PartialEq, Eq, Hash, Structural)]
pub struct RenderSize {
    /// Target width in pixels.
    pub width: u32,
    /// Target height in pixels.
    pub height: u32,
}

/// A rendered page as an RGBA bitmap.
#[derive(Debug)]
pub struct RenderedPage {
    /// RGBA pixel data (4 bytes per pixel, row-major).
    pub data: Vec<u8>,
    /// Width in pixels.
    pub width: u32,
    /// Height in pixels.
    pub height: u32,
}

/// The cache key: which page, at which size.
#[derive(Debug, Clone, Copy, PartialEq, Eq, Hash, Structural)]
pub struct CacheKey {
    pub page_index: usize,
    pub size: RenderSize,
}

/// LRU cache for rendered pages, keyed on (`page_index`, `render_size`).
///
/// Each window gets pages rendered at its own resolution, so the same page
/// may be cached at multiple sizes (e.g., presenter DPI and audience DPI).
pub struct PageCache {
    /// Cached pages, least recently used first.
    entries: Vec<(CacheKey, RenderedPage)>,
    capacity: usize,
}

/// The position of `key` in `entries`, if present.
pub open spec fn key_index(entries: Seq<(CacheKey, RenderedPage)>, key: CacheKey) -> Option<int> {
    if exists|i: int| 0 <= i < entries.len() && (#[trigger] entries[i]).0 == key {
        Some(choose|i: int| 0 <= i < entries.len() && (#[trigger] entries[i]).0 == key)
    } else {
        None
    }
}

/// No key occurs twice.
pub open spec fn unique_keys(entries: Seq<(CacheKey, RenderedPage)>) -> bool {
    forall|i: int, j: int|
        0 <= i < entries.len() && 0 <= j < entries.len() && i != j ==> (#[trigger] entries[i]).0
            != (#[trigger] entries[j]).0
}

/// The entries after inserting `page` under `key`: when the cache is full and the
/// key is new, the least recently used entry goes; any old entry for the key goes;
/// the new entry becomes the most recently used.
pub open spec fn after_insert(
    v: Seq<(CacheKey, RenderedPage)>,
    capacity: usize,
    key: CacheKey,
    page: RenderedPage,
) -> Seq<(CacheKey, RenderedPage)> {
    let evicted = if v.len() >= capacity && key_index(v, key) is None && v.len() > 0 {
        v.drop_first()
    } else {
        v
    };
    let kept = match key_index(evicted, key) {
        Some(i) => evicted.remove(i),
        None => evicted,
    };
    kept.push((key, page))
}

impl PageCache {
    /// The cached entries, least recently used first.
    pub closed spec fn view(&self) -> Seq<(CacheKey, RenderedPage)> {
        self.entries@
    }

    /// The capacity the cache was created with.
    pub closed spec fn spec_capacity(&self) -> usize {
        self.capacity
    }

    /// Keys are unique and the cache holds at most `max(capacity, 1)` pages.
    pub open spec fn wf(&self) -> bool {
        &&& unique_keys(self.view())
        &&& self.view().len() <= self.spec_capacity() || self.view().len() <= 1
    }

    /// Create a new cache with the given capacity (number of entries).
    pub fn new(capacity: usize) -> (c: Self)
        ensures
            c.wf(),
            c.view() == Seq::<(CacheKey, RenderedPage)>::empty(),
            c.spec_capacity() == capacity,
    {
        PageCache { entries: Vec::new(), capacity }
    }

    fn find(&self, key: CacheKey) -> (r: Option<usize>)
        requires
            unique_keys(self.view()),
        ensures
            match r {
                Some(i) => i < self.view().len() && self.view()[i as int].0 == key && key_index(
                    self.view(),
                    key,
                ) == Some(i as int),
                None => key_index(self.view(), key) is None,
            },
    {
        let mut i: usize = 0;
        while i < self.entries.len()
            invariant
                i <= self.entries@.len(),
                unique_keys(self.entries@),
                forall|j: int| 0 <= j < i ==> (#[trigger] self.entries@[j]).0 != key,
            decreases self.entries@.len() - i,
        {
            if self.entries[i].0 == key {
                proof {
                    let k = choose|k: int|
                        0 <= k < self.entries@.len() && (#[trigger] self.entries@[k]).0 == key;
                    if k != i {
                        assert(self.entries@[k].0 != self.entries@[i as int].0);
                    }
                }
                return Some(i);
            }
            i += 1;
        }
        None
    }

    /// Get a cached page, if available, marking it most recently used.
    pub fn get(&mut self, page_index: usize, size: RenderSize) -> (r: Option<&RenderedPage>)
        requires
            old(self).wf(),
        ensures
            final(self).wf(),
            final(self).spec_capacity() == old(self).spec_capacity(),
            ({
                let key = CacheKey { page_index, size };
                match key_index(old(self).view(), key) {
                    Some(i) => {
                        &&& final(self).view() == old(self).view().remove(i).push(old(self).view()[i])
                        &&& r == Some(&old(self).view()[i].1)
                    },
                    None => final(self).view() == old(self).view() && r is None,
                }
            }),
    {
        let key = CacheKey { page_index, size };
        match self.find(key) {
            Some(i) => {
                let entry = self.entries.remove(i);
                self.entries.push(entry);
                proof {
                    let v = old(self).view();
                    assert(self.entries@ =~= v.remove(i as int).push(v[i as int]));
                    assert forall|a: int, b: int|
                        0 <= a < self.entries@.len() && 0 <= b < self.entries@.len() && a != b
                            implies (#[trigger] self.entries@[a]).0 != (
                        #[trigger] self.entries@[b]).0 by {
                        let ia = if a == v.len() - 1 {
                            i as int
                        } else if a < i {
                            a
                        } else {
                            a + 1
                        };
                        let ib = if b == v.len() - 1 {
                            i as int
                        } else if b < i {
                            b
                        } else {
                            b + 1
                        };
                        assert(self.entries@[a] == v[ia]);
                        assert(self.entries@[b] == v[ib]);
                    }
                }
                let last = self.entries.len() - 1;
                Some(&self.entries[last].1)
            },
            None => None,
        }
    }

    /// Insert a rendered page into the cache, evicting the least recently used if full.
    pub fn insert(&mut self, page_index: usize, size: RenderSize, page: RenderedPage)
        requires
            old(self).wf(),
        ensures
            final(self).wf(),
            final(self).spec_capacity() == old(self).spec_capacity(),
            final(self).view() == after_insert(
                old(self).view(),
                old(self).spec_capacity(),
                CacheKey { page_index, size },
                page,
            ),
    {
        let key = CacheKey { page_index, size };
        let ghost v0 = self.entries@;
        let found = self.find(key);
        if self.entries.len() >= self.capacity && found.is_none() {
            // Evict LRU
            if self.entries.len() > 0 {
                self.entries.remove(0);
                proof {
                    assert(self.entries@ =~= v0.drop_first());
                    assert forall|a: int, b: int|
                        0 <= a < self.entries@.len() && 0 <= b < self.entries@.len() && a != b
                            implies (#[trigger] self.entries@[a]).0 != (
                        #[trigger] self.entries@[b]).0 by {
                        assert(self.entries@[a] == v0[a + 1]);
                        assert(self.entries@[b] == v0[b + 1]);
                    }
                }
            }
        }
        let ghost v1 = self.entries@;
        match self.find(key) {
            Some(i) => {
                self.entries.remove(i);
                proof {
                    assert(self.entries@ =~= v1.remove(i as int));
                    assert forall|a: int, b: int|
                        0 <= a < self.entries@.len() && 0 <= b < self.entries@.len() && a != b
                            implies (#[trigger] self.entries@[a]).0 != (
                        #[trigger] self.entries@[b]).0 by {
                        let ia = if a < i { a } else { a + 1 };
                        let ib = if b < i { b } else { b + 1 };
                        assert(self.entries@[a] == v1[ia]);
                        assert(self.entries@[b] == v1[ib]);
                    }
                    assert forall|a: int| 0 <= a < self.entries@.len() implies (
                    #[trigger] self.entries@[a]).0 != key by {
                        let ia = if a < i { a } else { a + 1 };
                        assert(self.entries@[a] == v1[ia]);
                    }
                }
            },
            None => {
                proof {
                    assert forall|a: int| 0 <= a < self.entries@.len() implies (
                    #[trigger] self.entries@[a]).0 != key by {
                        if self.entries@[a].0 == key {
                            assert(exists|j: int| 0 <= j < v1.len() && (#[trigger] v1[j]).0 == key);
                        }
                    }
                }
            },
        }
        let ghost v2 = self.entries@;
        self.entries.push((key, page));
        proof {
            assert forall|a: int, b: int|
                0 <= a < self.entries@.len() && 0 <= b < self.entries@.len() && a != b implies (
            #[trigger] self.entries@[a]).0 != (#[trigger] self.entries@[b]).0 by {
                if a < v2.len() {
                    assert(self.entries@[a] == v2[a]);
                }
                if b < v2.len() {
                    assert(self.entries@[b] == v2[b]);
                }
            }
        }
    }

    /// Clear the entire cache.
    pub fn clear(&mut self)
        ensures
            final(self).wf(),
            final(self).view() == Seq::<(CacheKey, RenderedPage)>::empty(),
            final(self).spec_capacity() == old(self).spec_capacity(),
    {
        self.entries.clear();
    }

    /// The number of cached pages.
    pub fn len(&self) -> (n: usize)
        ensures
            n == self.view().len(),
    {
        self.entries.len()
    }
}

// ---------------------------------------------------------------------------
// Laws
// ---------------------------------------------------------------------------

proof fn lemma_key_index_some(v: Seq<(CacheKey, RenderedPage)>, key: CacheKey, i: int)
    requires
        unique_keys(v),
        0 <= i < v.len(),
        v[i].0 == key,
    ensures
        key_index(v, key) == Some(i),
{
    let k = choose|k: int| 0 <= k < v.len() && (#[trigger] v[k]).0 == key;
    if k != i {
        assert(v[k].0 != v[i].0);
    }
}

/// A page just inserted is found again, and is the most recently used entry.
pub proof fn law_get_after_insert(
    v: Seq<(CacheKey, RenderedPage)>,
    capacity: usize,
    key: CacheKey,
    page: RenderedPage,
)
    requires
        unique_keys(v),
    ensures
        ({
            let w = after_insert(v, capacity, key, page);
            &&& unique_keys(w)
            &&& key_index(w, key) == Some(w.len() - 1)
            &&& w[w.len() - 1].1 == page
        }),
{
    let evicted = if v.len() >= capacity && key_index(v, key) is None && v.len() > 0 {
        v.drop_first()
    } else {
        v
    };
    assert(unique_keys(evicted)) by {
        assert forall|a: int, b: int|
            0 <= a < evicted.len() && 0 <= b < evicted.len() && a != b implies (
        #[trigger] evicted[a]).0 != (#[trigger] evicted[b]).0 by {
            if evicted.len() < v.len() {
                assert(evicted[a] == v[a + 1]);
                assert(evicted[b] == v[b + 1]);
            }
        }
    }
    let kept = match key_index(evicted, key) {
        Some(i) => evicted.remove(i),
        None => evicted,
    };
    assert forall|a: int| 0 <= a < kept.len() implies (#[trigger] kept[a]).0 != key by {
        match key_index(evicted, key) {
            Some(i) => {
                let j = choose|j: int| 0 <= j < evicted.len() && (#[trigger] evicted[j]).0 == key;
                let ia = if a < i { a } else { a + 1 };
                assert(kept[a] == evicted[ia]);
                assert(ia != j);
            },
            None => {
                if kept[a].0 == key {
                    assert(exists|j: int| 0 <= j < evicted.len() && (#[trigger] evicted[j]).0 == key);
                }
            },
        }
    }
    assert(unique_keys(kept)) by {
        assert forall|a: int, b: int|
            0 <= a < kept.len() && 0 <= b < kept.len() && a != b implies (#[trigger] kept[a]).0
            != (#[trigger] kept[b]).0 by {
            match key_index(evicted, key) {
                Some(i) => {
                    let ia = if a < i { a } else { a + 1 };
                    let ib = if b < i { b } else { b + 1 };
                    assert(kept[a] == evicted[ia]);
                    assert(kept[b] == evicted[ib]);
                },
                None => {},
            }
        }
    }
    let w = kept.push((key, page));
    assert(unique_keys(w)) by {
        assert forall|a: int, b: int|
            0 <= a < w.len() && 0 <= b < w.len() && a != b implies (#[trigger] w[a]).0 != (
        #[trigger] w[b]).0 by {
            if a < kept.len() {
                assert(w[a] == kept[a]);
            }
            if b < kept.len() {
                assert(w[b] == kept[b]);
            }
        }
    }
    lemma_key_index_some(w, key, w.len() - 1);
}

/// Inserting a new page into a full cache evicts exactly the least recently
/// used page: it is no longer found, and every other page stays.
pub proof fn law_insert_evicts_least_recent(
    v: Seq<(CacheKey, RenderedPage)>,
    capacity: usize,
    key: CacheKey,
    page: RenderedPage,
)
    requires
        unique_keys(v),
        v.len() >= capacity,
        v.len() > 0,
        key_index(v, key) is None,
    ensures
        ({
            let w = after_insert(v, capacity, key, page);
            &&& key_index(w, v[0].0) is None
            &&& w == v.drop_first().push((key, page))
        }),
{
    let w = after_insert(v, capacity, key, page);
    let e = v.drop_first();
    assert forall|j: int| 0 <= j < e.len() implies (#[trigger] e[j]).0 != key by {
        assert(e[j] == v[j + 1]);
        if e[j].0 == key {
            assert(exists|k: int| 0 <= k < v.len() && (#[trigger] v[k]).0 == key);
        }
    }
    if key_index(e, key) is Some {
        let j = choose|j: int| 0 <= j < e.len() && (#[trigger] e[j]).0 == key;
        assert(e[j].0 == key);
    }
    assert(w == e.push((key, page)));
    assert forall|j: int| 0 <= j < w.len() implies (#[trigger] w[j]).0 != v[0].0 by {
        if j < e.len() {
            assert(w[j] == v[j + 1]);
            assert(v[j + 1].0 != v[0].0);
        } else {
            assert(w[j].0 == key);
            if key == v[0].0 {
                assert(exists|k: int| 0 <= k < v.len() && (#[trigger] v[k]).0 == key);
            }
        }
    }
}

/// Inserting a page whose key is held, or into a cache that is not full, removes
/// no other page: every page under another key stays, in the same order, and the
/// new page comes last.
pub proof fn law_insert_keeps_others(
    v: Seq<(CacheKey, RenderedPage)>,
    capacity: usize,
    key: CacheKey,
    page: RenderedPage,
)
    requires
        key_index(v, key) is Some || v.len() < capacity,
    ensures
        ({
            let w = after_insert(v, capacity, key, page);
            &&& w.last() == (key, page)
            &&& key_index(v, key) is None ==> w.drop_last() == v
            &&& key_index(v, key) matches Some(i) ==> w.drop_last() == v.remove(i)
            &&& forall|j: int|
                0 <= j < v.len() && (#[trigger] v[j]).0 != key ==> w.contains(v[j])
        }),
{
    let w = after_insert(v, capacity, key, page);
    match key_index(v, key) {
        Some(i) => {
            assert(0 <= i < v.len());
            let kept = v.remove(i);
            assert(w == kept.push((key, page)));
            assert(w.drop_last() =~= kept);
            assert forall|j: int| 0 <= j < v.len() && (#[trigger] v[j]).0 != key implies w.contains(
                v[j],
            ) by {
                assert(j != i);
                if j < i {
                    assert(w[j] == v[j]);
                } else {
                    assert(w[j - 1] == v[j]);
                }
            }
        },
        None => {
            assert(w == v.push((key, page)));
            assert forall|j: int| 0 <= j < v.len() implies (#[trigger] v[j]).0 != key by {
                if v[j].0 == key {
                    assert(exists|k: int| 0 <= k < v.len() && (#[trigger] v[k]).0 == key);
                }
            }
            assert(w.drop_last() =~= v);
            assert forall|j: int| 0 <= j < v.len() && (#[trigger] v[j]).0 != key implies w.contains(
                v[j],
            ) by {
                assert(w[j] == v[j]);
            }
        },
    }
}

} // verus!
