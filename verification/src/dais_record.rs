//! The Dais sidecar's record of a presentation, without its drawings: the title,
//! the end slide, the timer hint, the slide groups and the notes, with page and
//! slide numbers one-based as the file stores them.
use std::collections::HashMap;

use crate::navigation::clone_note;
use crate::pdfpc::PdfpcMetadata;
use crate::sidecar::{is_one_based_entry, law_one_based_keys_round_trip, one_based_key, one_based_map, parse_one_based_key, to_one_based, to_zero_based};
use crate::slide_group::SlideGroupMeta;
use crate::text::decimal;
use vstd::prelude::*;

verus! {

broadcast use vstd::std_specs::hash::group_hash_axioms;

/// The fields of a `.dais` file that hold no drawing, numbers one-based.
#[derive(Debug)]
pub struct DaisRecord {
    pub version: u32,
    pub title: Option<String>,
    pub end_slide: Option<usize>,
    pub last_minutes: Option<u32>,
    pub groups: Vec<SlideGroupMeta>,
    /// Notes under one-based decimal slide keys.
    pub notes: Vec<(String, String)>,
}

/// A group with both pages moved up by one.
pub open spec fn group_up(g: SlideGroupMeta) -> SlideGroupMeta {
    SlideGroupMeta { start_page: (g.start_page + 1) as usize, end_page: (g.end_page + 1) as usize }
}

/// The groups read back from one-based groups: those with both pages above zero,
/// moved down by one, in order.
pub open spec fn groups_down(gs: Seq<SlideGroupMeta>) -> Seq<SlideGroupMeta>
    decreases gs.len(),
{
    if gs.len() == 0 {
        seq![]
    } else {
        let rest = groups_down(gs.drop_last());
        let g = gs.last();
        if g.start_page > 0 && g.end_page > 0 {
            rest.push(
                SlideGroupMeta {
                    start_page: (g.start_page - 1) as usize,
                    end_page: (g.end_page - 1) as usize,
                },
            )
        } else {
            rest
        }
    }
}

/// The notes read back from one-based entries: each entry whose key is a
/// one-based number, under its zero-based slide, a later entry for the same slide
/// replacing an earlier one.
pub open spec fn notes_down(entries: Seq<(String, String)>) -> Map<usize, String>
    decreases entries.len(),
{
    if entries.len() == 0 {
        Map::empty()
    } else {
        let rest = notes_down(entries.drop_last());
        let e = entries.last();
        match one_based_key(e.0@) {
            Some(k) => rest.insert(k, e.1),
            None => rest,
        }
    }
}

/// Every page and slide number of the metadata can be written one-based.
pub open spec fn numbers_fit(m: PdfpcMetadata) -> bool {
    &&& m.end_slide matches Some(e) ==> e < usize::MAX
    &&& forall|i: int|
        0 <= i < m.groups@.len() ==> (#[trigger] m.groups@[i]).start_page < usize::MAX
            && m.groups@[i].end_page < usize::MAX
    &&& forall|k: usize| m.notes@.contains_key(k) ==> k < usize::MAX
}

/// The groups with one-based pages.
pub fn groups_one_based(groups: &Vec<SlideGroupMeta>) -> (r: Vec<SlideGroupMeta>)
    requires
        forall|i: int|
            0 <= i < groups@.len() ==> (#[trigger] groups@[i]).start_page < usize::MAX
                && groups@[i].end_page < usize::MAX,
    ensures
        r@ == groups@.map_values(|g: SlideGroupMeta| group_up(g)),
{
    let mut r: Vec<SlideGroupMeta> = Vec::new();
    let mut i: usize = 0;
    while i < groups.len()
        invariant
            i <= groups@.len(),
            forall|j: int|
                0 <= j < groups@.len() ==> (#[trigger] groups@[j]).start_page < usize::MAX
                    && groups@[j].end_page < usize::MAX,
            r@ == groups@.take(i as int).map_values(|g: SlideGroupMeta| group_up(g)),
        decreases groups@.len() - i,
    {
        let g = groups[i];
        r.push(
            SlideGroupMeta {
                start_page: to_one_based(g.start_page),
                end_page: to_one_based(g.end_page),
            },
        );
        assert(groups@.take(i + 1).map_values(|g: SlideGroupMeta| group_up(g)) =~= groups@.take(
            i as int,
        ).map_values(|g: SlideGroupMeta| group_up(g)).push(group_up(g)));
        i += 1;
    }
    assert(groups@.take(groups@.len() as int) =~= groups@);
    r
}

/// The groups read back from one-based groups (see `groups_down`).
pub fn groups_zero_based(groups: &Vec<SlideGroupMeta>) -> (r: Vec<SlideGroupMeta>)
    ensures
        r@ == groups_down(groups@),
{
    let mut r: Vec<SlideGroupMeta> = Vec::new();
    let mut i: usize = 0;
    while i < groups.len()
        invariant
            i <= groups@.len(),
            r@ == groups_down(groups@.take(i as int)),
        decreases groups@.len() - i,
    {
        let g = groups[i];
        assert(groups@.take(i + 1).drop_last() =~= groups@.take(i as int));
        match (to_zero_based(g.start_page), to_zero_based(g.end_page)) {
            (Some(s), Some(e)) => {
                r.push(SlideGroupMeta { start_page: s, end_page: e });
            },
            _ => {},
        }
        i += 1;
    }
    assert(groups@.take(groups@.len() as int) =~= groups@);
    r
}

/// The notes read back from one-based entries (see `notes_down`).
pub fn notes_zero_based(entries: &Vec<(String, String)>) -> (r: HashMap<usize, String>)
    ensures
        r@ == notes_down(entries@),
{
    let mut r: HashMap<usize, String> = HashMap::new();
    let mut i: usize = 0;
    while i < entries.len()
        invariant
            i <= entries@.len(),
            r@ == notes_down(entries@.take(i as int)),
        decreases entries@.len() - i,
    {
        assert(entries@.take(i + 1).drop_last() =~= entries@.take(i as int));
        match parse_one_based_key(entries[i].0.as_str()) {
            Some(k) => {
                r.insert(k, entries[i].1.clone());
            },
            None => {},
        }
        i += 1;
    }
    assert(entries@.take(entries@.len() as int) =~= entries@);
    r
}

/// The record a `.dais` file keeps of the metadata.
pub fn dais_record(m: &PdfpcMetadata) -> (r: DaisRecord)
    requires
        numbers_fit(*m),
    ensures
        r.version == 1,
        r.title == m.title,
        r.end_slide == match m.end_slide {
            Some(e) => Some((e + 1) as usize),
            None => None::<usize>,
        },
        r.last_minutes == m.last_minutes,
        r.groups@ == m.groups@.map_values(|g: SlideGroupMeta| group_up(g)),
        r.notes@.len() == m.notes@.dom().len(),
        forall|i: int|
            0 <= i < r.notes@.len() ==> #[trigger] is_one_based_entry(m.notes@, r.notes@[i]),
        forall|k: usize|
            #[trigger] m.notes@.contains_key(k) ==> exists|i: int|
                0 <= i < r.notes@.len() && (#[trigger] r.notes@[i]).0@ == decimal((k + 1) as nat)
                    && r.notes@[i].1@ == m.notes@[k]@,
{
    let end_slide = match m.end_slide {
        Some(e) => Some(to_one_based(e)),
        None => None,
    };
    let notes = one_based_map(&m.notes);
    assert forall|k: usize| #[trigger] m.notes@.contains_key(k) implies exists|i: int|
        0 <= i < notes@.len() && (#[trigger] notes@[i]).0@ == decimal((k + 1) as nat)
            && notes@[i].1@ == m.notes@[k]@ by {
        assert(m.notes@.contains_key(k));
    }
    let ghost nv = notes@;
    let rec = DaisRecord {
        version: 1,
        title: clone_note(&m.title),
        end_slide,
        last_minutes: m.last_minutes,
        groups: groups_one_based(&m.groups),
        notes,
    };
    assert(rec.notes@ == nv);
    assert forall|k: usize| #[trigger] m.notes@.contains_key(k) implies exists|i: int|
        0 <= i < rec.notes@.len() && (#[trigger] rec.notes@[i]).0@ == decimal((k + 1) as nat)
            && rec.notes@[i].1@ == m.notes@[k]@ by {
        let i = choose|i: int|
            0 <= i < nv.len() && (#[trigger] nv[i]).0@ == decimal((k + 1) as nat) && nv[i].1@
                == m.notes@[k]@;
        assert(rec.notes@[i] == nv[i]);
    }
    rec
}

/// The metadata a `.dais` record gives: numbers moved down by one, entries
/// without a one-based number dropped.
pub fn metadata_of_record(r: &DaisRecord) -> (m: PdfpcMetadata)
    ensures
        m.title == r.title,
        m.end_slide == match r.end_slide {
            Some(e) => if e > 0 {
                Some((e - 1) as usize)
            } else {
                None::<usize>
            },
            None => None::<usize>,
        },
        m.last_minutes == r.last_minutes,
        m.groups@ == groups_down(r.groups@),
        m.notes@ == notes_down(r.notes@),
{
    let end_slide = match r.end_slide {
        Some(e) => to_zero_based(e),
        None => None,
    };
    PdfpcMetadata {
        title: clone_note(&r.title),
        groups: groups_zero_based(&r.groups),
        notes: notes_zero_based(&r.notes),
        end_slide,
        last_minutes: r.last_minutes,
    }
}

/// Slide groups written one-based to a `.dais` record and read back are the
/// same groups, in the same order.
pub proof fn law_dais_groups_round_trip(gs: Seq<SlideGroupMeta>)
    requires
        forall|i: int|
            0 <= i < gs.len() ==> (#[trigger] gs[i]).start_page < usize::MAX && gs[i].end_page
                < usize::MAX,
    ensures
        groups_down(gs.map_values(|g: SlideGroupMeta| group_up(g))) == gs,
    decreases gs.len(),
{
    if gs.len() > 0 {
        let d = gs.drop_last();
        assert forall|i: int|
            0 <= i < d.len() implies (#[trigger] d[i]).start_page < usize::MAX && d[i].end_page
                < usize::MAX by {
            assert(d[i] == gs[i]);
        }
        law_dais_groups_round_trip(d);
        let up = gs.map_values(|g: SlideGroupMeta| group_up(g));
        assert(up.drop_last() =~= d.map_values(|g: SlideGroupMeta| group_up(g)));
        assert(d.push(gs.last()) =~= gs);
    }
}

/// What `notes_down` holds: a slide exactly when some entry names it, and then
/// the text of an entry that names it.
proof fn lemma_notes_down(es: Seq<(String, String)>, k: usize)
    ensures
        notes_down(es).contains_key(k) <==> exists|i: int|
            0 <= i < es.len() && one_based_key((#[trigger] es[i]).0@) == Some(k),
        notes_down(es).contains_key(k) ==> exists|i: int|
            0 <= i < es.len() && one_based_key((#[trigger] es[i]).0@) == Some(k)
                && notes_down(es)[k] == es[i].1,
    decreases es.len(),
{
    if es.len() > 0 {
        let d = es.drop_last();
        lemma_notes_down(d, k);
        let n = es.len() - 1;
        if exists|i: int| 0 <= i < d.len() && one_based_key((#[trigger] d[i]).0@) == Some(k) {
            let i = choose|i: int| 0 <= i < d.len() && one_based_key((#[trigger] d[i]).0@) == Some(k);
            assert(es[i] == d[i]);
        }
        if exists|i: int| 0 <= i < es.len() && one_based_key((#[trigger] es[i]).0@) == Some(k) {
            let i = choose|i: int| 0 <= i < es.len() && one_based_key((#[trigger] es[i]).0@) == Some(k);
            if i < n {
                assert(d[i] == es[i]);
            }
        }
        if notes_down(d).contains_key(k) && one_based_key(es[n].0@) != Some(k) {
            let i = choose|i: int|
                0 <= i < d.len() && one_based_key((#[trigger] d[i]).0@) == Some(k)
                    && notes_down(d)[k] == d[i].1;
            assert(es[i] == d[i]);
        }
    }
}

/// Notes written under one-based keys to a `.dais` record and read back are the
/// same notes: the same slides, with the same texts.
pub proof fn law_dais_notes_round_trip(notes: Map<usize, String>, entries: Seq<(String, String)>)
    requires
        forall|k: usize| notes.contains_key(k) ==> k < usize::MAX,
        forall|i: int| 0 <= i < entries.len() ==> #[trigger] is_one_based_entry(notes, entries[i]),
        forall|k: usize|
            #[trigger] notes.contains_key(k) ==> exists|i: int|
                0 <= i < entries.len() && (#[trigger] entries[i]).0@ == decimal((k + 1) as nat)
                    && entries[i].1@ == notes[k]@,
    ensures
        notes_down(entries).dom() == notes.dom(),
        forall|k: usize| #[trigger] notes.contains_key(k) ==> notes_down(entries)[k]@ == notes[k]@,
{
    assert forall|k: usize| notes_down(entries).contains_key(k) <==> notes.contains_key(k) by {
        lemma_notes_down(entries, k);
        if notes.contains_key(k) {
            let i = choose|i: int|
                0 <= i < entries.len() && (#[trigger] entries[i]).0@ == decimal((k + 1) as nat)
                    && entries[i].1@ == notes[k]@;
            law_one_based_keys_round_trip(k);
            assert(one_based_key(entries[i].0@) == Some(k));
        }
        if notes_down(entries).contains_key(k) {
            let i = choose|i: int| 0 <= i < entries.len() && one_based_key((#[trigger] entries[i]).0@) == Some(k);
            assert(is_one_based_entry(notes, entries[i]));
            let k2 = choose|k2: usize|
                #[trigger] notes.contains_key(k2) && entries[i].0@ == decimal((k2 + 1) as nat)
                    && entries[i].1@ == notes[k2]@;
            law_one_based_keys_round_trip(k2);
        }
    }
    assert(notes_down(entries).dom() =~= notes.dom());
    assert forall|k: usize| #[trigger] notes.contains_key(k) implies notes_down(entries)[k]@ == notes[k]@ by {
        lemma_notes_down(entries, k);
        let i = choose|i: int|
            0 <= i < entries.len() && one_based_key((#[trigger] entries[i]).0@) == Some(k)
                && notes_down(entries)[k] == entries[i].1;
        assert(is_one_based_entry(notes, entries[i]));
        let k2 = choose|k2: usize|
            #[trigger] notes.contains_key(k2) && entries[i].0@ == decimal((k2 + 1) as nat)
                && entries[i].1@ == notes[k2]@;
        law_one_based_keys_round_trip(k2);
    }
}

} // verus!
