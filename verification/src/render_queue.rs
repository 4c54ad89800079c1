//! The bookkeeping of background page rendering: which pages to ask for around
//! the current one, and which requests are in flight, so that no page is asked
//! for twice while it is being rendered.
use crate::cache::{CacheKey, RenderSize};
use vstd::prelude::*;

verus! {

/// The pages to have rendered around `current`, most urgent first: the current
/// page, the next one, the previous one, and the one after next.
pub open spec fn neighborhood(current: int, total: int) -> Seq<usize> {
    seq![current as usize] + (if current + 1 < total {
        seq![(current + 1) as usize]
    } else {
        seq![]
    }) + (if current > 0 {
        seq![(current - 1) as usize]
    } else {
        seq![]
    }) + (if current + 2 < total {
        seq![(current + 2) as usize]
    } else {
        seq![]
    })
}

/// The pages to prefetch around the current page.
pub fn prefetch_pages(current_page: usize, total_pages: usize) -> (r: Vec<usize>)
    requires
        current_page + 2 <= usize::MAX,
    ensures
        r@ == neighborhood(current_page as int, total_pages as int),
{
    let mut pages: Vec<usize> = Vec::new();
    pages.push(current_page);
    if current_page + 1 < total_pages {
        pages.push(current_page + 1);
    }
    if current_page > 0 {
        pages.push(current_page - 1);
    }
    if current_page + 2 < total_pages {
        pages.push(current_page + 2);
    }
    pages
}

/// Whether a page must be asked for: it is neither cached nor in flight.
pub open spec fn request_needed(pending: Set<CacheKey>, cached: bool, key: CacheKey) -> bool {
    !cached && !pending.contains(key)
}

/// The render requests in flight.
pub struct PendingRenders {
    pending: Vec<CacheKey>,
}

impl PendingRenders {
    /// The requests in flight.
    pub closed spec fn view(&self) -> Set<CacheKey> {
        self.pending@.to_set()
    }

    /// No request is recorded twice.
    pub closed spec fn wf(&self) -> bool {
        self.pending@.no_duplicates()
    }

    /// Nothing in flight.
    pub fn new() -> (r: Self)
        ensures
            r.wf(),
            r@ == Set::<CacheKey>::empty(),
    {
        let r = PendingRenders { pending: Vec::new() };
        assert(r.pending@.to_set() =~= Set::<CacheKey>::empty());
        r
    }

    /// Whether a request for `key` is in flight.
    pub fn contains(&self, key: CacheKey) -> (r: bool)
        ensures
            r == self@.contains(key),
    {
        let mut i: usize = 0;
        while i < self.pending.len()
            invariant
                i <= self.pending@.len(),
                forall|j: int| 0 <= j < i ==> self.pending@[j] != key,
            decreases self.pending@.len() - i,
        {
            if self.pending[i] == key {
                assert(self.pending@.to_set().contains(self.pending@[i as int]));
                return true;
            }
            i += 1;
        }
        assert(!self.pending@.to_set().contains(key)) by {
            if self.pending@.to_set().contains(key) {
                let j = choose|j: int| 0 <= j < self.pending@.len() && self.pending@[j] == key;
                assert(self.pending@[j] != key);
            }
        }
        false
    }

    /// Whether page `page_index` at `size` must be asked for: it is neither
    /// cached nor already in flight.
    pub fn needs_request(&self, cached: bool, page_index: usize, size: RenderSize) -> (r: bool)
        ensures
            r == request_needed(self@, cached, CacheKey { page_index, size }),
    {
        !cached && !self.contains(CacheKey { page_index, size })
    }

    /// A request for `key` was handed to the render workers.
    pub fn sent(&mut self, key: CacheKey)
        requires
            old(self).wf(),
        ensures
            final(self).wf(),
            final(self)@ == old(self)@.insert(key),
    {
        if !self.contains(key) {
            let ghost before = self.pending@;
            self.pending.push(key);
            proof {
                assert(self.pending@ == before.push(key));
                assert forall|x: CacheKey| #[trigger] self.pending@.to_set().contains(x)
                    == before.to_set().insert(key).contains(x) by {
                    if self.pending@.to_set().contains(x) {
                        let j = choose|j: int| 0 <= j < self.pending@.len() && self.pending@[j] == x;
                        if j < before.len() {
                            assert(before[j] == x);
                        }
                    }
                    if before.to_set().contains(x) {
                        let j = choose|j: int| 0 <= j < before.len() && before[j] == x;
                        assert(self.pending@[j] == x);
                    }
                    if x == key {
                        assert(self.pending@[before.len() as int] == x);
                    }
                }
                assert(self.pending@.to_set() =~= before.to_set().insert(key));
                assert forall|i: int, j: int|
                    0 <= i < j < self.pending@.len() implies self.pending@[i] != self.pending@[j] by {
                    if j == self.pending@.len() - 1 {
                        assert(before.to_set().contains(before[i]));
                    }
                }
            }
        } else {
            assert(self.pending@.to_set() =~= self.pending@.to_set().insert(key));
        }
    }

    /// The render of `key` came back.
    pub fn received(&mut self, key: CacheKey)
        requires
            old(self).wf(),
        ensures
            final(self).wf(),
            final(self)@ == old(self)@.remove(key),
    {
        let mut i: usize = 0;
        while i < self.pending.len()
            invariant
                i <= self.pending@.len(),
                self.pending@.no_duplicates(),
                self.pending@ == old(self).pending@,
                forall|j: int| 0 <= j < i ==> self.pending@[j] != key,
            decreases self.pending@.len() - i,
        {
            if self.pending[i] == key {
                let ghost before = self.pending@;
                self.pending.remove(i);
                proof {
                    assert(self.pending@ == before.remove(i as int));
                    assert forall|x: CacheKey| #[trigger] self.pending@.to_set().contains(x)
                        == before.to_set().remove(key).contains(x) by {
                        if before.to_set().remove(key).contains(x) {
                            let j = choose|j: int| 0 <= j < before.len() && before[j] == x;
                            assert(j != i);
                            if j < i {
                                assert(self.pending@[j] == x);
                            } else {
                                assert(self.pending@[j - 1] == x);
                            }
                        }
                        if self.pending@.to_set().contains(x) {
                            let j = choose|j: int| 0 <= j < self.pending@.len() && self.pending@[j] == x;
                            if j < i {
                                assert(before[j] == x);
                            } else {
                                assert(before[j + 1] == x);
                            }
                        }
                    }
                    assert(self.pending@.to_set() =~= before.to_set().remove(key));
                    assert forall|a: int, b: int|
                        0 <= a < b < self.pending@.len() implies self.pending@[a] != self.pending@[b] by {
                        let a0 = if a < i { a } else { a + 1 };
                        let b0 = if b < i { b } else { b + 1 };
                        assert(self.pending@[a] == before[a0]);
                        assert(self.pending@[b] == before[b0]);
                    }
                }
                return;
            }
            i += 1;
        }
        assert(self.pending@.to_set() =~= self.pending@.to_set().remove(key)) by {
            assert forall|x: CacheKey| #[trigger] self.pending@.to_set().contains(x) implies x != key by {
                let j = choose|j: int| 0 <= j < self.pending@.len() && self.pending@[j] == x;
            }
        }
    }
}

/// A page is asked for once while it renders: after its request is sent it is
/// not asked for again, once its render came back an uncached page is asked for
/// again, and neither changes what is asked for other pages.
pub proof fn law_one_request_in_flight(pending: Set<CacheKey>, key: CacheKey, other: CacheKey, cached: bool)
    requires
        other != key,
    ensures
        !request_needed(pending.insert(key), cached, key),
        request_needed(pending.remove(key), false, key),
        request_needed(pending.insert(key), cached, other) == request_needed(pending, cached, other),
        request_needed(pending.remove(key), cached, other) == request_needed(pending, cached, other),
{
}

} // verus!
