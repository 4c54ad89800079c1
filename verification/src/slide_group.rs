//! Logical slide groups: which PDF pages make up each logical slide.
use std::collections::HashMap;
use vstd::prelude::*;

verus! {

broadcast use vstd::std_specs::hash::group_hash_axioms;

/// A logical slide group — one or more PDF pages representing build steps
/// of a single logical slide.
#[derive(Debug, Clone)]
pub struct SlideGroup {
    /// 0-based logical slide index.
    pub logical_index: usize,
    /// Raw PDF page indices belonging to this group (ordered).
    pub pages: Vec<usize>,
    /// Markdown notes for this logical slide, if any.
    pub notes: Option<String>,
}

/// How the grouping information was obtained.
#[derive(Debug, Clone, Copy, PartialEq, Eq)]
pub enum GroupingSource {
    /// Polylux/touying/pdfpc LaTeX package metadata embedded in the PDF.
    EmbeddedMetadata,
    /// Explicit grouping from a `.pdfpc` sidecar file.
    SidecarFile,
    /// User-set via the manual grouping editor.
    Manual,
    /// No grouping — 1:1 page-to-slide mapping.
    NoGrouping,
}

/// A contiguous range of PDF pages forming one logical slide, as sidecar files store it.
#[derive(Debug, Clone, Copy)]
pub struct SlideGroupMeta {
    /// First page index in this group (0-based, inclusive).
    pub start_page: usize,
    /// Last page index in this group (0-based, inclusive).
    pub end_page: usize,
}

/// The pages `a, a+1, ..., b-1` (empty when `b <= a`).
pub open spec fn page_range(a: int, b: int) -> Seq<usize> {
    if b <= a {
        seq![]
    } else {
        Seq::new((b - a) as nat, |i: int| (a + i) as usize)
    }
}

/// The model of a group: its pages and its notes.
pub open spec fn group_model(g: SlideGroup) -> (Seq<usize>, Option<String>) {
    (g.pages@, g.notes)
}

/// Whether `groups` lists exactly the models `expected`, numbered in order.
pub open spec fn groups_match(groups: Seq<SlideGroup>, expected: Seq<(Seq<usize>, Option<String>)>) -> bool {
    &&& groups.len() == expected.len()
    &&& forall|i: int|
        0 <= i < groups.len() ==> (#[trigger] groups[i]).logical_index == i && group_model(
            groups[i],
        ) == expected[i]
}

/// The note stored for `page`, if any.
pub open spec fn note_for(notes: Map<usize, String>, page: int) -> Option<String> {
    if 0 <= page <= usize::MAX && notes.contains_key(page as usize) {
        Some(notes[page as usize])
    } else {
        None
    }
}

/// One group per page, `first..total`, each carrying its page's note.
pub open spec fn singleton_groups(total: int, first: int, notes: Map<usize, String>) -> Seq<
    (Seq<usize>, Option<String>),
> {
    if total <= first {
        seq![]
    } else {
        Seq::new(
            (total - first) as nat,
            |i: int| (seq![(first + i) as usize], note_for(notes, first + i)),
        )
    }
}

/// Declared groups indexed by start page (start -> end). Groups starting past the
/// document are dropped; of two groups with the same start page the later one counts.
pub open spec fn groups_by_start(metas: Seq<SlideGroupMeta>, total: int) -> Map<usize, usize>
    decreases metas.len(),
{
    if metas.len() == 0 {
        Map::empty()
    } else {
        let m = groups_by_start(metas.drop_last(), total);
        let g = metas.last();
        if g.start_page < total {
            m.insert(g.start_page, g.end_page)
        } else {
            m
        }
    }
}

pub proof fn lemma_groups_by_start_finite(metas: Seq<SlideGroupMeta>, total: int)
    ensures
        groups_by_start(metas, total).dom().finite(),
        forall|k: usize| #[trigger]
            groups_by_start(metas, total).contains_key(k) ==> k < total,
        (forall|i: int|
            0 <= i < metas.len() ==> (#[trigger] metas[i]).start_page <= metas[i].end_page)
            ==> forall|k: usize| #[trigger]
            groups_by_start(metas, total).contains_key(k) ==> k <= groups_by_start(metas, total)[k],
    decreases metas.len(),
{
    if metas.len() > 0 {
        lemma_groups_by_start_finite(metas.drop_last(), total);
        if forall|i: int|
            0 <= i < metas.len() ==> (#[trigger] metas[i]).start_page <= metas[i].end_page {
            assert forall|i: int|
                0 <= i < metas.drop_last().len() implies (
                #[trigger] metas.drop_last()[i]).start_page <= metas.drop_last()[i].end_page by {
                assert(metas.drop_last()[i] == metas[i]);
            }
        }
    }
}

/// The page walk that turns declared groups into logical slides: at each page, a
/// declared group starting there takes its (clamped) range, and any other page
/// becomes a group of its own.
pub open spec fn group_walk(
    total: int,
    starts: Map<usize, usize>,
    page: int,
    notes: Map<usize, String>,
) -> Seq<(Seq<usize>, Option<String>)>
    decreases starts.dom().len(), total - page,
    when starts.dom().finite() && 0 <= page
{
    if page >= total {
        seq![]
    } else if starts.contains_key(page as usize) {
        let end = if starts[page as usize] < total - 1 {
            starts[page as usize] as int
        } else {
            total - 1
        };
        seq![(page_range(page, end + 1), note_for(notes, page))] + group_walk(
            total,
            starts.remove(page as usize),
            end + 1,
            notes,
        )
    } else {
        seq![(seq![page as usize], note_for(notes, page))] + group_walk(
            total,
            starts,
            page + 1,
            notes,
        )
    }
}

/// The logical slides for a document of `total` pages with declared groups `metas`.
pub open spec fn slide_grouping(
    total: int,
    metas: Seq<SlideGroupMeta>,
    notes: Map<usize, String>,
) -> Seq<(Seq<usize>, Option<String>)> {
    group_walk(total, groups_by_start(metas, total), 0, notes)
}

proof fn lemma_walk_without_starts(total: int, page: int, notes: Map<usize, String>)
    requires
        0 <= page,
    ensures
        group_walk(total, Map::<usize, usize>::empty(), page, notes) == singleton_groups(
            total,
            page,
            notes,
        ),
    decreases total - page,
{
    let e = Map::<usize, usize>::empty();
    assert(e.dom() =~= Set::empty());
    if page < total {
        lemma_walk_without_starts(total, page + 1, notes);
        assert(seq![(seq![page as usize], note_for(notes, page))] + singleton_groups(
            total,
            page + 1,
            notes,
        ) =~= singleton_groups(total, page, notes));
    } else {
        assert(singleton_groups(total, page, notes) =~= seq![]);
    }
}

/// Build a default 1:1 page-to-slide grouping for a document with `page_count` pages.
pub fn default_grouping(page_count: usize) -> (groups: Vec<SlideGroup>)
    ensures
        groups@.len() == page_count,
        forall|i: int|
            0 <= i < page_count ==> (#[trigger] groups@[i]).logical_index == i
                && groups@[i].pages@ == seq![i as usize] && groups@[i].notes is None,
{
    let mut groups: Vec<SlideGroup> = Vec::new();
    let mut i: usize = 0;
    while i < page_count
        invariant
            i <= page_count,
            groups@.len() == i,
            forall|j: int|
                0 <= j < i ==> (#[trigger] groups@[j]).logical_index == j && groups@[j].pages@
                    == seq![j as usize] && groups@[j].notes is None,
        decreases page_count - i,
    {
        let mut pages: Vec<usize> = Vec::new();
        pages.push(i);
        groups.push(SlideGroup { logical_index: i, pages, notes: None });
        i += 1;
    }
    groups
}

/// The note for `page` from a page -> notes map.
fn lookup_note(notes: &HashMap<usize, String>, page: usize) -> (r: Option<String>)
    ensures
        r == note_for(notes@, page as int),
{
    match notes.get(&page) {
        Some(n) => Some(n.clone()),
        None => None,
    }
}

/// The pages `a..=b` (empty when `b < a`).
fn inclusive_range(a: usize, b: usize) -> (r: Vec<usize>)
    ensures
        r@ == page_range(a as int, b + 1),
{
    let mut r: Vec<usize> = Vec::new();
    if b < a {
        assert(r@ =~= page_range(a as int, b + 1));
        return r;
    }
    let mut p = a;
    while p <= b
        invariant
            a <= p <= b + 1,
            r@ =~= page_range(a as int, p as int),
        decreases b + 1 - p,
    {
        r.push(p);
        assert(r@ =~= page_range(a as int, p + 1));
        if p == b {
            return r;
        }
        p += 1;
    }
    r
}

/// Build slide groups from declared groups and per-page notes, falling back to
/// 1:1 if no grouping info.
///
/// Walks pages in order so that uncovered pages are interleaved at their natural
/// position rather than appended after all declared groups.
pub fn build_slide_groups(
    total_pages: usize,
    metas: &Vec<SlideGroupMeta>,
    notes: &HashMap<usize, String>,
) -> (groups: Vec<SlideGroup>)
    ensures
        groups_match(groups@, slide_grouping(total_pages as int, metas@, notes@)),
{
    proof {
        lemma_groups_by_start_finite(metas@, total_pages as int);
    }
    if metas.len() == 0 {
        // 1:1 page-to-slide mapping, but still attach notes from metadata
        let mut groups = default_grouping(total_pages);
        let mut i: usize = 0;
        while i < groups.len()
            invariant
                groups@.len() == total_pages,
                i <= total_pages,
                forall|j: int|
                    0 <= j < total_pages ==> (#[trigger] groups@[j]).logical_index == j
                        && groups@[j].pages@ == seq![j as usize],
                forall|j: int| 0 <= j < i ==> (#[trigger] groups@[j]).notes == note_for(notes@, j),
            decreases total_pages - i,
        {
            let note = lookup_note(notes, i);
            let mut pages: Vec<usize> = Vec::new();
            pages.push(i);
            groups.set(i, SlideGroup { logical_index: i, pages, notes: note });
            i += 1;
        }
        proof {
            assert(groups_by_start(metas@, total_pages as int) =~= Map::<usize, usize>::empty());
            lemma_walk_without_starts(total_pages as int, 0, notes@);
        }
        return groups;
    }

    // Index declared groups by their start page.
    let mut by_start: HashMap<usize, usize> = HashMap::new();
    let mut k: usize = 0;
    while k < metas.len()
        invariant
            k <= metas.len(),
            by_start@ == groups_by_start(metas@.take(k as int), total_pages as int),
        decreases metas.len() - k,
    {
        let gm = metas[k];
        assert(metas@.take(k + 1).drop_last() =~= metas@.take(k as int));
        if gm.start_page < total_pages {
            by_start.insert(gm.start_page, gm.end_page);
        }
        k += 1;
    }
    assert(metas@.take(metas.len() as int) =~= metas@);

    let mut groups: Vec<SlideGroup> = Vec::new();
    let mut page: usize = 0;
    let ghost mut done: Seq<(Seq<usize>, Option<String>)> = seq![];
    proof {
        lemma_groups_by_start_finite(metas@, total_pages as int);
    }
    while page < total_pages
        invariant
            page <= total_pages,
            by_start@.dom().finite(),
            forall|s: usize| #[trigger] by_start@.contains_key(s) ==> s < total_pages,
            slide_grouping(total_pages as int, metas@, notes@) == done + group_walk(
                total_pages as int,
                by_start@,
                page as int,
                notes@,
            ),
            groups_match(groups@, done),
        decreases by_start@.dom().len(), total_pages - page,
    {
        let logical_index = groups.len();
        let ghost before = by_start@;
        let note = lookup_note(notes, page);
        match by_start.remove(&page) {
            Some(end_page) => {
                let end = if end_page < total_pages - 1 {
                    end_page
                } else {
                    total_pages - 1
                };
                let pages = inclusive_range(page, end);
                proof {
                    assert(before.contains_key(page));
                    assert(by_start@ == before.remove(page));
                    assert(before.remove(page).dom() =~= before.dom().remove(page));
                    done = done.push((pages@, note));
                    assert(done.drop_last() + group_walk(total_pages as int, before, page as int, notes@)
                        =~= done + group_walk(total_pages as int, by_start@, end + 1, notes@));
                }
                groups.push(SlideGroup { logical_index, pages, notes: note });
                page = end + 1;
            },
            None => {
                let mut pages: Vec<usize> = Vec::new();
                pages.push(page);
                proof {
                    assert(by_start@ == before);
                    done = done.push((pages@, note));
                    assert(done.drop_last() + group_walk(total_pages as int, before, page as int, notes@)
                        =~= done + group_walk(total_pages as int, by_start@, page + 1, notes@));
                }
                groups.push(SlideGroup { logical_index, pages, notes: note });
                page += 1;
            },
        }
    }
    assert(done + group_walk(total_pages as int, by_start@, page as int, notes@) =~= done);
    groups
}

// ---------------------------------------------------------------------------
// Laws
// ---------------------------------------------------------------------------

/// All pages of a list of groups, in order.
pub open spec fn all_pages(groups: Seq<(Seq<usize>, Option<String>)>) -> Seq<usize>
    decreases groups.len(),
{
    if groups.len() == 0 {
        seq![]
    } else {
        groups[0].0 + all_pages(groups.drop_first())
    }
}

proof fn lemma_walk_partitions(
    total: int,
    starts: Map<usize, usize>,
    page: int,
    notes: Map<usize, String>,
)
    requires
        starts.dom().finite(),
        0 <= page <= total,
        total <= usize::MAX + 1,
        forall|k: usize| #[trigger] starts.contains_key(k) ==> k <= starts[k],
    ensures
        all_pages(group_walk(total, starts, page, notes)) == page_range(page, total),
        forall|i: int|
            0 <= i < group_walk(total, starts, page, notes).len() ==> (#[trigger] group_walk(
                total,
                starts,
                page,
                notes,
            )[i]).0.len() > 0,
    decreases starts.dom().len(), total - page,
{
    let w = group_walk(total, starts, page, notes);
    if page >= total {
        assert(page_range(page, total) =~= seq![]);
    } else if starts.contains_key(page as usize) {
        let end = if starts[page as usize] < total - 1 {
            starts[page as usize] as int
        } else {
            total - 1
        };
        let rest = starts.remove(page as usize);
        assert(rest.dom() =~= starts.dom().remove(page as usize));
        lemma_walk_partitions(total, rest, end + 1, notes);
        let tail = group_walk(total, rest, end + 1, notes);
        assert(w.drop_first() =~= tail);
        assert(page_range(page, end + 1) + page_range(end + 1, total) =~= page_range(page, total));
        assert forall|i: int| 0 <= i < w.len() implies (#[trigger] w[i]).0.len() > 0 by {
            if i > 0 {
                assert(w[i] == tail[i - 1]);
            }
        }
    } else {
        lemma_walk_partitions(total, starts, page + 1, notes);
        let tail = group_walk(total, starts, page + 1, notes);
        assert(w.drop_first() =~= tail);
        assert(seq![page as usize] + page_range(page + 1, total) =~= page_range(page, total));
        assert forall|i: int| 0 <= i < w.len() implies (#[trigger] w[i]).0.len() > 0 by {
            if i > 0 {
                assert(w[i] == tail[i - 1]);
            }
        }
    }
}

/// When every declared group ends no earlier than it starts, the logical slides
/// are non-empty and, read in order, list every page of the document exactly
/// once and in order.
pub proof fn law_grouping_partitions_pages(
    total_pages: usize,
    metas: Seq<SlideGroupMeta>,
    notes: Map<usize, String>,
)
    requires
        forall|i: int| 0 <= i < metas.len() ==> (#[trigger] metas[i]).start_page <= metas[i].end_page,
    ensures
        all_pages(slide_grouping(total_pages as int, metas, notes)) == page_range(
            0,
            total_pages as int,
        ),
        forall|i: int|
            0 <= i < slide_grouping(total_pages as int, metas, notes).len() ==> (
            #[trigger] slide_grouping(total_pages as int, metas, notes)[i]).0.len() > 0,
{
    lemma_groups_by_start_finite(metas, total_pages as int);
    lemma_walk_partitions(total_pages as int, groups_by_start(metas, total_pages as int), 0, notes);
}

/// Without declared groups every page is a logical slide of its own.
pub proof fn law_no_declared_groups_is_one_to_one(total_pages: usize, notes: Map<usize, String>)
    ensures
        slide_grouping(total_pages as int, seq![], notes) == singleton_groups(
            total_pages as int,
            0,
            notes,
        ),
{
    assert(groups_by_start(seq![], total_pages as int) =~= Map::<usize, usize>::empty());
    lemma_walk_without_starts(total_pages as int, 0, notes);
}

} // verus!
