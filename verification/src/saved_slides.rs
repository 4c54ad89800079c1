//! Saving the logical slides: the declared groups and notes a sidecar records
//! for them, and the law that loading what was saved gives them back.
use std::collections::HashMap;
use crate::slide_group::{
    all_pages, group_model, groups_by_start, group_walk, note_for, page_range, slide_grouping,
    SlideGroup, SlideGroupMeta,
};
use crate::navigation::clone_note;
use crate::pdfpc::PdfpcMetadata;
use vstd::prelude::*;

verus! {

broadcast use vstd::std_specs::hash::group_hash_axioms;


/// The models of a list of groups.
pub open spec fn group_models(groups: Seq<SlideGroup>) -> Seq<(Seq<usize>, Option<String>)> {
    groups.map_values(|g: SlideGroup| group_model(g))
}

/// The declared groups a sidecar records for logical slides: the first and last
/// page of each group that has pages.
pub open spec fn saved_metas(gs: Seq<(Seq<usize>, Option<String>)>) -> Seq<SlideGroupMeta>
    decreases gs.len(),
{
    if gs.len() == 0 {
        seq![]
    } else {
        let rest = saved_metas(gs.drop_last());
        let g = gs.last();
        if g.0.len() > 0 {
            rest.push(SlideGroupMeta { start_page: g.0[0], end_page: g.0.last() })
        } else {
            rest
        }
    }
}

/// The notes a sidecar records for logical slides: each group's notes under its
/// first page (a later group with the same first page wins).
pub open spec fn saved_notes(gs: Seq<(Seq<usize>, Option<String>)>) -> Map<usize, String>
    decreases gs.len(),
{
    if gs.len() == 0 {
        Map::empty()
    } else {
        let rest = saved_notes(gs.drop_last());
        let g = gs.last();
        match g.1 {
            Some(text) => if g.0.len() > 0 {
                rest.insert(g.0[0], text)
            } else {
                rest
            },
            None => rest,
        }
    }
}

/// The declared groups and notes to save for the current logical slides.
pub fn saved_grouping(groups: &Vec<SlideGroup>) -> (r: (Vec<SlideGroupMeta>, HashMap<usize, String>))
    ensures
        r.0@ == saved_metas(group_models(groups@)),
        r.1@ == saved_notes(group_models(groups@)),
{
    let mut metas: Vec<SlideGroupMeta> = Vec::new();
    let mut notes: HashMap<usize, String> = HashMap::new();
    let mut i: usize = 0;
    while i < groups.len()
        invariant
            i <= groups@.len(),
            metas@ == saved_metas(group_models(groups@.take(i as int))),
            notes@ == saved_notes(group_models(groups@.take(i as int))),
        decreases groups@.len() - i,
    {
        let group = &groups[i];
        proof {
            assert(group_models(groups@.take(i + 1)).drop_last() =~= group_models(
                groups@.take(i as int),
            ));
            assert(group_models(groups@.take(i + 1)).last() == group_model(groups@[i as int]));
        }
        if group.pages.len() > 0 {
            let first = group.pages[0];
            let last = group.pages[group.pages.len() - 1];
            metas.push(SlideGroupMeta { start_page: first, end_page: last });
            match &group.notes {
                Some(text) => {
                    notes.insert(first, text.clone());
                },
                None => {},
            }
        }
        i += 1;
    }
    assert(groups@.take(groups@.len() as int) =~= groups@);
    (metas, notes)
}


/// The metadata a presentation saves: what was loaded, with the declared groups
/// and notes taken from the current logical slides.
pub fn metadata_to_save(loaded: &PdfpcMetadata, groups: &Vec<SlideGroup>) -> (r: PdfpcMetadata)
    ensures
        r.title == loaded.title,
        r.end_slide == loaded.end_slide,
        r.last_minutes == loaded.last_minutes,
        r.groups@ == saved_metas(group_models(groups@)),
        r.notes@ == saved_notes(group_models(groups@)),
{
    let (metas, notes) = saved_grouping(groups);
    PdfpcMetadata {
        title: clone_note(&loaded.title),
        groups: metas,
        notes,
        end_slide: loaded.end_slide,
        last_minutes: loaded.last_minutes,
    }
}

/// Groups that, read in order, list the pages `p..total` each once and in order
/// are consecutive page ranges with increasing first pages.
proof fn lemma_partition_ranges(hs: Seq<(Seq<usize>, Option<String>)>, p: int, total: int)
    requires
        0 <= p <= total <= usize::MAX + 1,
        all_pages(hs) == page_range(p, total),
        forall|i: int| 0 <= i < hs.len() ==> (#[trigger] hs[i]).0.len() > 0,
    ensures
        forall|i: int|
            0 <= i < hs.len() ==> {
                &&& p <= (#[trigger] hs[i]).0[0]
                &&& hs[i].0[0] + hs[i].0.len() <= total
                &&& hs[i].0 == page_range(hs[i].0[0] as int, hs[i].0[0] + hs[i].0.len())
            },
        forall|i: int, j: int|
            0 <= i < j < hs.len() ==> (#[trigger] hs[i]).0[0] + hs[i].0.len() <= (
            #[trigger] hs[j]).0[0],
        hs.len() > 0 ==> hs[0].0[0] == p,
    decreases hs.len(),
{
    if hs.len() > 0 {
        let h = hs[0];
        let rest = hs.drop_first();
        let len = h.0.len() as int;
        let whole = page_range(p, total);
        assert(all_pages(hs) == h.0 + all_pages(rest));
        assert(len <= whole.len());
        assert(whole.len() == total - p);
        assert(h.0 =~= whole.take(len));
        assert(all_pages(rest) =~= whole.skip(len));
        assert(whole.take(len) =~= page_range(p, p + len));
        assert(whole.skip(len) =~= page_range(p + len, total));
        assert(h.0[0] == p);
        lemma_partition_ranges(rest, p + len, total);
        assert forall|i: int|
            0 <= i < hs.len() implies {
                &&& p <= (#[trigger] hs[i]).0[0]
                &&& hs[i].0[0] + hs[i].0.len() <= total
                &&& hs[i].0 == page_range(hs[i].0[0] as int, hs[i].0[0] + hs[i].0.len())
            } by {
            if i > 0 {
                assert(hs[i] == rest[i - 1]);
            }
        }
        assert forall|i: int, j: int|
            0 <= i < j < hs.len() implies (#[trigger] hs[i]).0[0] + hs[i].0.len() <= (
            #[trigger] hs[j]).0[0] by {
            assert(hs[j] == rest[j - 1]);
            if i > 0 {
                assert(hs[i] == rest[i - 1]);
            }
        }
    } else {
        if p < total {
            assert(page_range(p, total).len() > 0);
        }
    }
}

/// The page walk over a map of declared groups that holds exactly the groups of a
/// partition from `p` on gives that partition back.
proof fn lemma_walk_reproduces(
    total: int,
    starts: Map<usize, usize>,
    p: int,
    notes: Map<usize, String>,
    hs: Seq<(Seq<usize>, Option<String>)>,
)
    requires
        starts.dom().finite(),
        0 <= p <= total <= usize::MAX + 1,
        all_pages(hs) == page_range(p, total),
        forall|i: int| 0 <= i < hs.len() ==> (#[trigger] hs[i]).0.len() > 0,
        forall|i: int|
            0 <= i < hs.len() ==> starts.contains_key((#[trigger] hs[i]).0[0]) && starts[hs[i].0[0]]
                == hs[i].0.last(),
        forall|k: usize|
            p <= k && #[trigger] starts.contains_key(k) ==> exists|i: int|
                0 <= i < hs.len() && (#[trigger] hs[i]).0[0] == k,
        forall|i: int|
            0 <= i < hs.len() ==> note_for(notes, (#[trigger] hs[i]).0[0] as int) == hs[i].1,
    ensures
        group_walk(total, starts, p, notes) == hs,
    decreases hs.len(),
{
    lemma_partition_ranges(hs, p, total);
    if hs.len() == 0 {
        if p < total {
            assert(page_range(p, total).len() > 0);
        }
        assert(group_walk(total, starts, p, notes) =~= hs);
    } else {
        let h = hs[0];
        let rest = hs.drop_first();
        let len = h.0.len() as int;
        let whole = page_range(p, total);
        assert(all_pages(hs) == h.0 + all_pages(rest));
        assert(all_pages(rest) =~= whole.skip(len));
        assert(whole.skip(len) =~= page_range(p + len, total));
        let key = p as usize;
        assert(h.0[0] == key);
        assert(h.0.last() == h.0[len - 1]);
        assert(starts[key] as int == p + len - 1);
        let end = p + len - 1;
        let next = starts.remove(key);
        assert(next.dom() =~= starts.dom().remove(key));
        assert forall|i: int|
            0 <= i < rest.len() implies next.contains_key((#[trigger] rest[i]).0[0]) && next[rest[i].0[0]]
                == rest[i].0.last() by {
            assert(rest[i] == hs[i + 1]);
            assert(hs[0].0[0] + hs[0].0.len() <= hs[i + 1].0[0]);
        }
        assert forall|k: usize| p + len <= k && #[trigger] next.contains_key(k) implies exists|i: int|
            0 <= i < rest.len() && (#[trigger] rest[i]).0[0] == k by {
            assert(starts.contains_key(k));
            let i = choose|i: int| 0 <= i < hs.len() && (#[trigger] hs[i]).0[0] == k;
            assert(i != 0);
            assert(rest[i - 1] == hs[i]);
        }
        assert forall|i: int| 0 <= i < rest.len() implies note_for(
            notes,
            (#[trigger] rest[i]).0[0] as int,
        ) == rest[i].1 by {
            assert(rest[i] == hs[i + 1]);
        }
        assert forall|i: int| 0 <= i < rest.len() implies (#[trigger] rest[i]).0.len() > 0 by {
            assert(rest[i] == hs[i + 1]);
        }
        lemma_walk_reproduces(total, next, p + len, notes, rest);
        assert(page_range(p, end + 1) == h.0);
        assert(group_walk(total, starts, p, notes) == seq![(page_range(p, end + 1), note_for(notes, p))]
            + group_walk(total, next, end + 1, notes));
        assert(seq![h] + rest =~= hs);
    }
}

/// The saved declared groups of groups with increasing first pages hold each
/// group, under its first page, and nothing else.
proof fn lemma_saved_starts(gs: Seq<(Seq<usize>, Option<String>)>, total: int)
    requires
        forall|i: int| 0 <= i < gs.len() ==> (#[trigger] gs[i]).0.len() > 0 && gs[i].0[0] < total,
        forall|i: int, j: int| 0 <= i < j < gs.len() ==> (#[trigger] gs[i]).0[0] < (#[trigger] gs[j]).0[0],
    ensures
        forall|i: int|
            0 <= i < gs.len() ==> groups_by_start(saved_metas(gs), total).contains_key(
                (#[trigger] gs[i]).0[0],
            ) && groups_by_start(saved_metas(gs), total)[gs[i].0[0]] == gs[i].0.last(),
        forall|k: usize| #[trigger]
            groups_by_start(saved_metas(gs), total).contains_key(k) ==> exists|i: int|
                0 <= i < gs.len() && (#[trigger] gs[i]).0[0] == k,
    decreases gs.len(),
{
    if gs.len() > 0 {
        let init = gs.drop_last();
        let g = gs.last();
        assert forall|i: int| 0 <= i < init.len() implies (#[trigger] init[i]).0.len() > 0
            && init[i].0[0] < total by {
            assert(init[i] == gs[i]);
        }
        assert forall|i: int, j: int| 0 <= i < j < init.len() implies (#[trigger] init[i]).0[0] < (
        #[trigger] init[j]).0[0] by {
            assert(init[i] == gs[i]);
            assert(init[j] == gs[j]);
        }
        lemma_saved_starts(init, total);
        let m = SlideGroupMeta { start_page: g.0[0], end_page: g.0.last() };
        let metas = saved_metas(gs);
        assert(metas == saved_metas(init).push(m));
        assert(metas.drop_last() =~= saved_metas(init));
        assert(metas.last() == m);
        let before = groups_by_start(saved_metas(init), total);
        assert(groups_by_start(metas, total) == before.insert(m.start_page, m.end_page));
        assert forall|i: int|
            0 <= i < gs.len() implies groups_by_start(metas, total).contains_key(
                (#[trigger] gs[i]).0[0],
            ) && groups_by_start(metas, total)[gs[i].0[0]] == gs[i].0.last() by {
            if i < gs.len() - 1 {
                assert(init[i] == gs[i]);
                assert(gs[i].0[0] < gs[gs.len() - 1].0[0]);
            }
        }
        assert forall|k: usize| #[trigger]
            groups_by_start(metas, total).contains_key(k) implies exists|i: int|
                0 <= i < gs.len() && (#[trigger] gs[i]).0[0] == k by {
            if k == m.start_page {
                assert(gs[gs.len() - 1].0[0] == k);
            } else {
                assert(before.contains_key(k));
                let i = choose|i: int| 0 <= i < init.len() && (#[trigger] init[i]).0[0] == k;
                assert(gs[i] == init[i]);
            }
        }
    }
}

/// The saved notes of groups with increasing first pages give each group its
/// notes back under its first page.
proof fn lemma_saved_notes(gs: Seq<(Seq<usize>, Option<String>)>)
    requires
        forall|i: int| 0 <= i < gs.len() ==> (#[trigger] gs[i]).0.len() > 0,
        forall|i: int, j: int| 0 <= i < j < gs.len() ==> (#[trigger] gs[i]).0[0] < (#[trigger] gs[j]).0[0],
    ensures
        forall|i: int|
            0 <= i < gs.len() ==> note_for(saved_notes(gs), (#[trigger] gs[i]).0[0] as int)
                == gs[i].1,
        forall|k: usize| #[trigger]
            saved_notes(gs).contains_key(k) ==> exists|i: int|
                0 <= i < gs.len() && (#[trigger] gs[i]).0[0] == k,
    decreases gs.len(),
{
    if gs.len() > 0 {
        let init = gs.drop_last();
        let g = gs.last();
        let n = gs.len() - 1;
        assert forall|i: int| 0 <= i < init.len() implies (#[trigger] init[i]).0.len() > 0 by {
            assert(init[i] == gs[i]);
        }
        assert forall|i: int, j: int| 0 <= i < j < init.len() implies (#[trigger] init[i]).0[0] < (
        #[trigger] init[j]).0[0] by {
            assert(init[i] == gs[i]);
            assert(init[j] == gs[j]);
        }
        lemma_saved_notes(init);
        let before = saved_notes(init);
        let key = g.0[0];
        assert(!before.contains_key(key)) by {
            if before.contains_key(key) {
                let i = choose|i: int| 0 <= i < init.len() && (#[trigger] init[i]).0[0] == key;
                assert(init[i] == gs[i]);
                assert(gs[i].0[0] < gs[n].0[0]);
            }
        }
        assert forall|i: int|
            0 <= i < gs.len() implies note_for(saved_notes(gs), (#[trigger] gs[i]).0[0] as int)
                == gs[i].1 by {
            if i < n {
                assert(init[i] == gs[i]);
                assert(gs[i].0[0] < gs[n].0[0]);
            }
        }
        assert forall|k: usize| #[trigger]
            saved_notes(gs).contains_key(k) implies exists|i: int|
                0 <= i < gs.len() && (#[trigger] gs[i]).0[0] == k by {
            if k == key {
                assert(gs[n].0[0] == k);
            } else {
                assert(before.contains_key(k));
                let i = choose|i: int| 0 <= i < init.len() && (#[trigger] init[i]).0[0] == k;
                assert(gs[i] == init[i]);
            }
        }
    }
}

/// Logical slides that cover the document's pages once and in order load back
/// unchanged from the declared groups and notes saved for them.
pub proof fn law_saved_slides_load_back(total_pages: usize, gs: Seq<(Seq<usize>, Option<String>)>)
    requires
        all_pages(gs) == page_range(0, total_pages as int),
        forall|i: int| 0 <= i < gs.len() ==> (#[trigger] gs[i]).0.len() > 0,
    ensures
        slide_grouping(total_pages as int, saved_metas(gs), saved_notes(gs)) == gs,
{
    let total = total_pages as int;
    lemma_partition_ranges(gs, 0, total);
    assert forall|i: int| 0 <= i < gs.len() implies (#[trigger] gs[i]).0.len() > 0 && gs[i].0[0]
        < total by {}
    assert forall|i: int, j: int| 0 <= i < j < gs.len() implies (#[trigger] gs[i]).0[0] < (
    #[trigger] gs[j]).0[0] by {}
    lemma_saved_starts(gs, total);
    lemma_saved_notes(gs);
    crate::slide_group::lemma_groups_by_start_finite(saved_metas(gs), total);
    let starts = groups_by_start(saved_metas(gs), total);
    assert forall|k: usize| 0 <= k && #[trigger] starts.contains_key(k) implies exists|i: int|
        0 <= i < gs.len() && (#[trigger] gs[i]).0[0] == k by {}
    lemma_walk_reproduces(total, starts, 0, saved_notes(gs), gs);
}

/// Saving the logical slides built from any well-formed declared groups and
/// loading the result gives the same logical slides.
pub proof fn law_built_slides_save_and_load_back(
    total_pages: usize,
    metas: Seq<SlideGroupMeta>,
    notes: Map<usize, String>,
)
    requires
        forall|i: int| 0 <= i < metas.len() ==> (#[trigger] metas[i]).start_page <= metas[i].end_page,
    ensures
        ({
            let gs = slide_grouping(total_pages as int, metas, notes);
            slide_grouping(total_pages as int, saved_metas(gs), saved_notes(gs)) == gs
        }),
{
    crate::slide_group::law_grouping_partitions_pages(total_pages, metas, notes);
    law_saved_slides_load_back(total_pages, slide_grouping(total_pages as int, metas, notes));
}


} // verus!
