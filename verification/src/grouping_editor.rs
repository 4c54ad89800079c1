//! The grouping editor's model: the pages at which groups start, toggled one
//! at a time, the groups they cut the document into, and the group records
//! that saving writes.
use crate::order::{
    in_order, increasing, insert_in_order, lemma_in_order, lemma_in_order_finite,
    lemma_increasing_unique,
};
use crate::slide_group::SlideGroupMeta;
use vstd::prelude::*;

verus! {


/// The pages at which a group starts, other than the first page and pages
/// beyond the document.
pub open spec fn boundary_set(groups: Seq<SlideGroupMeta>, page_count: nat) -> Set<usize> {
    Set::new(
        |p: usize|
            0 < p < page_count && exists|i: int|
                0 <= i < groups.len() && (#[trigger] groups[i]).start_page == p,
    )
}

/// Convert a list of groups into its boundary pages, in increasing order.
pub fn groups_to_boundaries(groups: &Vec<SlideGroupMeta>, page_count: usize) -> (r: Vec<usize>)
    ensures
        r@ == in_order(boundary_set(groups@, page_count as nat)),
{
    let mut r: Vec<usize> = Vec::new();
    let mut k: usize = 0;
    while k < groups.len()
        invariant
            k <= groups@.len(),
            increasing(r@),
            forall|p: usize|
                r@.contains(p) <==> (0 < p < page_count && exists|i: int|
                    0 <= i < k && (#[trigger] groups@[i]).start_page == p),
        decreases groups@.len() - k,
    {
        let p = groups[k].start_page;
        if p > 0 && p < page_count && !contains_index(&r, p) {
            insert_in_order(&mut r, p);
        }
        assert forall|q: usize|
            r@.contains(q) <==> (0 < q < page_count && exists|i: int|
                0 <= i < k + 1 && (#[trigger] groups@[i]).start_page == q) by {
            if exists|i: int| 0 <= i < k + 1 && (#[trigger] groups@[i]).start_page == q {
                let i = choose|i: int| 0 <= i < k + 1 && (#[trigger] groups@[i]).start_page == q;
                if i < k {
                    assert(exists|i2: int| 0 <= i2 < k && (#[trigger] groups@[i2]).start_page == q);
                }
            }
        }
        k += 1;
    }
    proof {
        lemma_in_order(r@, boundary_set(groups@, page_count as nat));
    }
    r
}

/// Whether `v` holds `x`.
fn contains_index(v: &Vec<usize>, x: usize) -> (r: bool)
    ensures
        r == v@.contains(x),
{
    let mut i: usize = 0;
    while i < v.len()
        invariant
            i <= v@.len(),
            forall|j: int| 0 <= j < i ==> v@[j] != x,
        decreases v@.len() - i,
    {
        if v[i] == x {
            return true;
        }
        i += 1;
    }
    false
}

/// The boundaries with `page` added, or removed when it is one already.
pub open spec fn toggled(boundaries: Seq<usize>, page: usize) -> Set<usize> {
    if boundaries.contains(page) {
        boundaries.to_set().remove(page)
    } else {
        boundaries.to_set().insert(page)
    }
}

/// The boundaries after toggling `page`: page 0 always starts a group and is
/// never toggled.
pub open spec fn toggle_result(boundaries: Seq<usize>, page: usize) -> Seq<usize> {
    if page == 0 {
        boundaries
    } else {
        in_order(toggled(boundaries, page))
    }
}

/// Toggle a boundary at the given page index; the boundaries stay in
/// increasing order.
pub fn toggle_boundary(boundaries: &mut Vec<usize>, page: usize)
    requires
        increasing(old(boundaries)@),
    ensures
        final(boundaries)@ == toggle_result(old(boundaries)@, page),
        increasing(final(boundaries)@),
{
    if page == 0 {
        return;
    }
    let ghost before = boundaries@;
    let mut pos: usize = 0;
    while pos < boundaries.len() && boundaries[pos] != page
        invariant
            pos <= boundaries@.len(),
            boundaries@ == before,
            forall|j: int| 0 <= j < pos ==> boundaries@[j] != page,
        decreases boundaries@.len() - pos,
    {
        pos += 1;
    }
    if pos < boundaries.len() {
        boundaries.remove(pos);
        assert(before.contains(page));
        assert(increasing(boundaries@)) by {
            assert forall|i: int, j: int| 0 <= i < j < boundaries@.len() implies boundaries@[i]
                < boundaries@[j] by {
                if j < pos {
                    assert(boundaries@[i] == before[i] && boundaries@[j] == before[j]);
                } else if i < pos {
                    assert(boundaries@[i] == before[i] && boundaries@[j] == before[j + 1]);
                } else {
                    assert(boundaries@[i] == before[i + 1] && boundaries@[j] == before[j + 1]);
                }
            }
        }
        assert forall|x: usize| boundaries@.contains(x) <==> toggled(before, page).contains(x) by {
            if boundaries@.contains(x) {
                let k = choose|k: int| 0 <= k < boundaries@.len() && boundaries@[k] == x;
                if k < pos {
                    assert(before[k] == x);
                    assert(x != page);
                } else {
                    assert(before[k + 1] == x);
                    assert(before[pos as int] == page);
                    assert(before[pos as int] < before[k + 1]);
                }
                assert(before.contains(x));
            }
            if toggled(before, page).contains(x) {
                assert(before.to_set().contains(x));
                let k = choose|k: int| 0 <= k < before.len() && before[k] == x;
                assert(k != pos);
                if k < pos {
                    assert(boundaries@[k] == x);
                } else {
                    assert(boundaries@[k - 1] == x);
                }
            }
        }
        proof {
            lemma_in_order(boundaries@, toggled(before, page));
        }
    } else {
        assert(!before.contains(page));
        insert_in_order(boundaries, page);
        assert forall|x: usize| boundaries@.contains(x) <==> toggled(before, page).contains(x) by {
            assert(before.to_set().contains(x) <==> before.contains(x));
        }
        proof {
            lemma_in_order(boundaries@, toggled(before, page));
        }
    }
}

/// Toggling the same page twice gives back the boundaries.
pub proof fn law_toggle_twice_restores(boundaries: Seq<usize>, page: usize)
    requires
        increasing(boundaries),
    ensures
        toggle_result(toggle_result(boundaries, page), page) == boundaries,
{
    if page > 0 {
        let t1 = toggled(boundaries, page);
        let once = in_order(t1);
        assert(toggle_result(boundaries, page) == once);
        lemma_in_order_finite(t1);
        assert forall|x: usize| once.contains(x) <==> (boundaries.contains(x) != (x == page)) by {
            assert(once.contains(x) <==> t1.contains(x));
            assert(boundaries.to_set().contains(x) <==> boundaries.contains(x));
        }
        let t2 = toggled(once, page);
        let twice = in_order(t2);
        assert(toggle_result(once, page) == twice);
        lemma_in_order_finite(t2);
        assert forall|x: usize| twice.contains(x) <==> boundaries.contains(x) by {
            assert(twice.contains(x) <==> t2.contains(x));
            assert(once.to_set().contains(x) <==> once.contains(x));
            assert(once.contains(x) <==> (boundaries.contains(x) != (x == page)));
            assert(once.contains(page) <==> !boundaries.contains(page));
        }
        lemma_increasing_unique(twice, boundaries);
    }
}

/// The pages `a`, `a + 1`, ..., `b - 1` (none when `b <= a`).
pub open spec fn page_range(a: int, b: int) -> Seq<usize> {
    if a < b {
        Seq::new((b - a) as nat, |k: int| (a + k) as usize)
    } else {
        seq![]
    }
}

/// Where groups start: page 0 and the boundaries, in increasing order.
pub open spec fn group_starts(boundaries: Seq<usize>) -> Seq<usize> {
    in_order(boundaries.to_set().insert(0))
}

/// The group from the `i`th start to the next start, or to the end of the document.
pub open spec fn group_at(starts: Seq<usize>, i: int, page_count: usize) -> Seq<usize> {
    let end = if i + 1 < starts.len() {
        starts[i + 1] as int
    } else {
        page_count as int
    };
    page_range(starts[i] as int, end)
}

/// The non-empty groups among the first `n`.
pub open spec fn groups_upto(starts: Seq<usize>, n: nat, page_count: usize) -> Seq<Seq<usize>>
    decreases n,
{
    if n == 0 {
        seq![]
    } else {
        let prev = groups_upto(starts, (n - 1) as nat, page_count);
        let g = group_at(starts, n - 1, page_count);
        if g.len() > 0 {
            prev.push(g)
        } else {
            prev
        }
    }
}

/// The groups that the boundaries cut a document of `page_count` pages into.
pub open spec fn boundary_groups(boundaries: Seq<usize>, page_count: usize) -> Seq<Seq<usize>> {
    if page_count == 0 {
        seq![]
    } else {
        let starts = group_starts(boundaries);
        groups_upto(starts, starts.len(), page_count)
    }
}

pub open spec fn groups_view(groups: Seq<Vec<usize>>) -> Seq<Seq<usize>> {
    groups.map_values(|g: Vec<usize>| g@)
}

fn page_range_vec(a: usize, b: usize) -> (r: Vec<usize>)
    ensures
        r@ == page_range(a as int, b as int),
{
    let mut r: Vec<usize> = Vec::new();
    if a < b {
        let mut p = a;
        while p < b
            invariant
                a <= p <= b,
                r@ == page_range(a as int, p as int),
            decreases b - p,
        {
            r.push(p);
            p += 1;
            assert(r@ =~= page_range(a as int, p as int));
        }
    } else {
        assert(r@ =~= page_range(a as int, b as int));
    }
    r
}

fn starts_of(boundaries: &Vec<usize>) -> (r: Vec<usize>)
    ensures
        r@ == group_starts(boundaries@),
        increasing(r@),
        forall|x: usize| r@.contains(x) <==> (x == 0 || boundaries@.contains(x)),
{
    let mut r: Vec<usize> = Vec::new();
    r.push(0);
    assert(r@[0] == 0);
    let mut k: usize = 0;
    while k < boundaries.len()
        invariant
            k <= boundaries@.len(),
            increasing(r@),
            forall|x: usize| r@.contains(x) <==> (x == 0 || boundaries@.take(k as int).contains(x)),
        decreases boundaries@.len() - k,
    {
        let b = boundaries[k];
        let ghost pre = boundaries@.take(k as int);
        let ghost post = boundaries@.take(k + 1);
        assert forall|x: usize| post.contains(x) <==> (pre.contains(x) || x == b) by {
            if post.contains(x) {
                let j = choose|j: int| 0 <= j < post.len() && post[j] == x;
                if j < k {
                    assert(pre[j] == x);
                }
            }
            if pre.contains(x) {
                let j = choose|j: int| 0 <= j < pre.len() && pre[j] == x;
                assert(post[j] == x);
            }
            if x == b {
                assert(post[k as int] == x);
            }
        }
        if !contains_index(&r, b) {
            insert_in_order(&mut r, b);
        }
        k += 1;
    }
    assert(boundaries@.take(boundaries@.len() as int) =~= boundaries@);
    proof {
        assert forall|x: usize| r@.contains(x) <==> boundaries@.to_set().insert(0).contains(x) by {
            assert(boundaries@.to_set().contains(x) <==> boundaries@.contains(x));
        }
        lemma_in_order(r@, boundaries@.to_set().insert(0));
    }
    r
}

/// Compute the groups, as lists of pages, that the boundaries cut a document
/// of `page_count` pages into.
pub fn compute_groups(boundaries: &Vec<usize>, page_count: usize) -> (r: Vec<Vec<usize>>)
    ensures
        groups_view(r@) == boundary_groups(boundaries@, page_count),
{
    let mut groups: Vec<Vec<usize>> = Vec::new();
    if page_count == 0 {
        assert(groups_view(groups@) =~= Seq::<Seq<usize>>::empty());
        return groups;
    }
    let starts = starts_of(boundaries);
    let mut i: usize = 0;
    assert(groups_view(groups@) =~= groups_upto(starts@, 0, page_count));
    while i < starts.len()
        invariant
            i <= starts@.len(),
            page_count > 0,
            groups_view(groups@) == groups_upto(starts@, i as nat, page_count),
        decreases starts@.len() - i,
    {
        let start = starts[i];
        let end = if i + 1 < starts.len() {
            starts[i + 1]
        } else {
            page_count
        };
        let pages = page_range_vec(start, end);
        assert(pages@ == group_at(starts@, i as int, page_count));
        if pages.len() > 0 {
            groups.push(pages);
        }
        assert(groups_view(groups@) =~= groups_upto(starts@, (i + 1) as nat, page_count));
        i += 1;
    }
    groups
}

/// The record of a group: its first and last page (page 0 for an empty group).
pub open spec fn group_record(g: Seq<usize>) -> SlideGroupMeta {
    if g.len() > 0 {
        SlideGroupMeta { start_page: g[0], end_page: g.last() }
    } else {
        SlideGroupMeta { start_page: 0, end_page: 0 }
    }
}

/// The group records that saving the editor's groups writes.
pub fn group_records(groups: &Vec<Vec<usize>>) -> (r: Vec<SlideGroupMeta>)
    ensures
        r@ == groups_view(groups@).map_values(|g: Seq<usize>| group_record(g)),
{
    let mut r: Vec<SlideGroupMeta> = Vec::new();
    let mut i: usize = 0;
    while i < groups.len()
        invariant
            i <= groups@.len(),
            r@ == groups_view(groups@.take(i as int)).map_values(|g: Seq<usize>| group_record(g)),
        decreases groups@.len() - i,
    {
        let g = &groups[i];
        let record = if g.len() > 0 {
            SlideGroupMeta { start_page: g[0], end_page: g[g.len() - 1] }
        } else {
            SlideGroupMeta { start_page: 0, end_page: 0 }
        };
        r.push(record);
        assert(groups_view(groups@.take(i + 1)).map_values(|g: Seq<usize>| group_record(g))
            =~= groups_view(groups@.take(i as int)).map_values(|g: Seq<usize>| group_record(g)).push(
            group_record(groups@[i as int]@),
        ));
        i += 1;
    }
    assert(groups@.take(groups@.len() as int) =~= groups@);
    r
}

/// The pages of the groups, one group after another.
pub open spec fn concat_groups(groups: Seq<Seq<usize>>) -> Seq<usize>
    decreases groups.len(),
{
    if groups.len() == 0 {
        seq![]
    } else {
        concat_groups(groups.drop_last()) + groups.last()
    }
}

/// Boundaries as the editor keeps them: increasing, each a page of the
/// document other than the first.
pub open spec fn boundaries_in_document(boundaries: Seq<usize>, page_count: usize) -> bool {
    &&& increasing(boundaries)
    &&& forall|i: int| 0 <= i < boundaries.len() ==> 0 < #[trigger] boundaries[i] < page_count
}

proof fn lemma_starts(boundaries: Seq<usize>, page_count: usize)
    requires
        boundaries_in_document(boundaries, page_count),
    ensures
        group_starts(boundaries) == seq![0usize] + boundaries,
{
    let q = seq![0usize] + boundaries;
    assert(increasing(q)) by {
        assert forall|i: int, j: int| 0 <= i < j < q.len() implies q[i] < q[j] by {
            if i == 0 {
                assert(q[j] == boundaries[j - 1]);
            } else {
                assert(q[i] == boundaries[i - 1] && q[j] == boundaries[j - 1]);
            }
        }
    }
    assert forall|x: usize| q.contains(x) <==> boundaries.to_set().insert(0).contains(x) by {
        assert(boundaries.to_set().contains(x) <==> boundaries.contains(x));
        if q.contains(x) {
            let k = choose|k: int| 0 <= k < q.len() && q[k] == x;
            if k > 0 {
                assert(boundaries[k - 1] == x);
            }
        }
        if boundaries.contains(x) {
            let k = choose|k: int| 0 <= k < boundaries.len() && boundaries[k] == x;
            assert(q[k + 1] == x);
        }
        if x == 0 {
            assert(q[0] == x);
        }
    }
    lemma_in_order(q, boundaries.to_set().insert(0));
}

proof fn lemma_range_concat(a: int, b: int, c: int)
    requires
        0 <= a <= b <= c,
    ensures
        page_range(a, b) + page_range(b, c) == page_range(a, c),
{
    assert(page_range(a, b) + page_range(b, c) =~= page_range(a, c));
}

/// The end of the `i`th group.
spec fn group_end(starts: Seq<usize>, i: int, page_count: usize) -> int {
    if i + 1 < starts.len() {
        starts[i + 1] as int
    } else {
        page_count as int
    }
}

proof fn lemma_groups_upto(starts: Seq<usize>, n: nat, page_count: usize)
    requires
        increasing(starts),
        starts.len() > 0,
        starts[0] == 0,
        forall|i: int| 0 <= i < starts.len() ==> #[trigger] starts[i] < page_count,
        n <= starts.len(),
    ensures
        groups_upto(starts, n, page_count).len() == n,
        forall|i: int| 0 <= i < n ==> #[trigger] groups_upto(starts, n, page_count)[i] == group_at(starts, i, page_count),
        concat_groups(groups_upto(starts, n, page_count)) == page_range(
            0,
            if n == 0 {
                0
            } else {
                group_end(starts, n - 1, page_count)
            },
        ),
    decreases n,
{
    if n > 0 {
        let m = (n - 1) as nat;
        lemma_groups_upto(starts, m, page_count);
        let prev = groups_upto(starts, m, page_count);
        let g = group_at(starts, m as int, page_count);
        assert(starts[m as int] < page_count);
        if m + 1 < starts.len() {
            assert(starts[m as int] < starts[(m + 1) as int]);
        }
        assert(g.len() > 0);
        let cur = groups_upto(starts, n, page_count);
        assert(cur == prev.push(g));
        assert(cur.drop_last() =~= prev);
        let prev_end = if m == 0 {
            0
        } else {
            group_end(starts, m - 1, page_count)
        };
        assert(prev_end == starts[m as int]);
        lemma_range_concat(0, prev_end, group_end(starts, m as int, page_count));
        assert forall|i: int| 0 <= i < n implies #[trigger] cur[i] == group_at(starts, i, page_count) by {
            if i < m {
                assert(cur[i] == prev[i]);
            }
        }
    }
}

/// The groups cut a document into its pages, in order, each page once: one
/// group more than there are boundaries.
pub proof fn law_groups_partition_pages(boundaries: Seq<usize>, page_count: usize)
    requires
        boundaries_in_document(boundaries, page_count),
    ensures
        concat_groups(boundary_groups(boundaries, page_count)) == page_range(0, page_count as int),
        boundary_groups(boundaries, page_count).len() == if page_count > 0 {
            boundaries.len() + 1
        } else {
            0
        },
{
    if page_count > 0 {
        lemma_starts(boundaries, page_count);
        let starts = group_starts(boundaries);
        assert forall|i: int| 0 <= i < starts.len() implies #[trigger] starts[i] < page_count by {
            if i > 0 {
                assert(starts[i] == boundaries[i - 1]);
            }
        }
        lemma_groups_upto(starts, starts.len(), page_count);
    } else {
        if boundaries.len() > 0 {
            assert(0 < boundaries[0] < page_count);
        }
        assert(page_range(0, page_count as int) =~= Seq::<usize>::empty());
    }
}

/// Saving the editor's groups and reading their boundaries back gives the
/// boundaries the editor had.
pub proof fn law_saved_groups_load_back(boundaries: Seq<usize>, page_count: usize)
    requires
        boundaries_in_document(boundaries, page_count),
    ensures
        in_order(
            boundary_set(
                boundary_groups(boundaries, page_count).map_values(|g: Seq<usize>| group_record(g)),
                page_count as nat,
            ),
        ) == boundaries,
{
    let records = boundary_groups(boundaries, page_count).map_values(|g: Seq<usize>| group_record(g));
    let set = boundary_set(records, page_count as nat);
    if page_count > 0 {
        lemma_starts(boundaries, page_count);
        let starts = group_starts(boundaries);
        assert forall|i: int| 0 <= i < starts.len() implies #[trigger] starts[i] < page_count by {
            if i > 0 {
                assert(starts[i] == boundaries[i - 1]);
            }
        }
        lemma_groups_upto(starts, starts.len(), page_count);
        let groups = boundary_groups(boundaries, page_count);
        assert forall|i: int| 0 <= i < records.len() implies #[trigger] records[i].start_page
            == starts[i] by {
            assert(groups[i] == group_at(starts, i, page_count));
            if i + 1 < starts.len() {
                assert(starts[i] < starts[i + 1]);
            }
            assert(group_at(starts, i, page_count)[0] == starts[i]);
        }
        assert forall|x: usize| boundaries.contains(x) <==> set.contains(x) by {
            if boundaries.contains(x) {
                let k = choose|k: int| 0 <= k < boundaries.len() && boundaries[k] == x;
                assert(records[k + 1].start_page == starts[k + 1]);
                assert(starts[k + 1] == boundaries[k]);
                assert(0 < boundaries[k] < page_count);
            }
            if set.contains(x) {
                let i = choose|i: int| 0 <= i < records.len() && (#[trigger] records[i]).start_page == x;
                assert(records[i].start_page == starts[i]);
                assert(i > 0);
                assert(starts[i] == boundaries[i - 1]);
            }
        }
    } else {
        if boundaries.len() > 0 {
            assert(0 < boundaries[0] < page_count);
        }
        assert forall|x: usize| boundaries.contains(x) <==> set.contains(x) by {}
    }
    lemma_in_order(boundaries, set);
}

} // verus!
