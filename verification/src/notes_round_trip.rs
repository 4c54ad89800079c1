//! What is written to a Markdown notes file is read back: parsing the text that
//! `render_with_notes` writes gives the notes it was given.
use crate::notes::{
    add_section, close_open, ends_nl, is_heading_line, lemma_add_section_valid, next_default,
    notes_of, parse_notes, pending_slides, render_added, render_notes, render_sections, scan_line,
    scan_lines, sections_valid, slide_anchor, slide_heading, slides_of, with_blank_line, with_note,
    NoteSection, NotesScan, ParseFailure,
};
use crate::order::{in_order, increasing};
use crate::text::{
    concat_lines, decimal, ends_at_line_end, find_sub, full_line, has_prefix, has_suffix, is_ws,
    lemma_concat_one_line, lemma_decimal_digits, lemma_find_char_at,
    lemma_find_sub_from, lemma_find_sub_push, lemma_parse_decimal, lemma_split_full_lines,
    lemma_split_inclusive_pieces, lemma_trim_id, lemma_trim_push_ws, lemma_trim_twice,
    lemma_trimmed_ends, occurs_at, one_line, split_inclusive, trim,
};
use vstd::prelude::*;

verus! {

/// The scan of `ls` from the state `st`, the lines numbered from `off + 1`.
pub open spec fn scan_from(st: NotesScan, ls: Seq<Seq<char>>, off: int, total: int) -> Result<
    NotesScan,
    ParseFailure,
>
    decreases ls.len(),
{
    if ls.len() == 0 {
        Ok(st)
    } else {
        match scan_from(st, ls.drop_last(), off, total) {
            Err(e) => Err(e),
            Ok(s) => scan_line(s, ls.last(), off + ls.len(), total),
        }
    }
}

pub open spec fn scan_init() -> NotesScan {
    (seq![], seq![], None, seq![])
}

proof fn lemma_scan_lines_from(ls: Seq<Seq<char>>, total: int)
    ensures
        scan_lines(ls, total) == scan_from(scan_init(), ls, 0, total),
    decreases ls.len(),
{
    if ls.len() > 0 {
        lemma_scan_lines_from(ls.drop_last(), total);
    }
}

proof fn lemma_scan_from_concat(st: NotesScan, a: Seq<Seq<char>>, b: Seq<Seq<char>>, off: int, total: int)
    ensures
        scan_from(st, a + b, off, total) == match scan_from(st, a, off, total) {
            Ok(s) => scan_from(s, b, off + a.len(), total),
            Err(e) => Err(e),
        },
    decreases b.len(),
{
    if b.len() == 0 {
        assert(a + b =~= a);
    } else {
        lemma_scan_from_concat(st, a, b.drop_last(), off, total);
        assert((a + b).drop_last() =~= a + b.drop_last());
        assert((a + b).last() == b.last());
    }
}

/// No line is a top-level heading.
pub open spec fn plain_lines(ls: Seq<Seq<char>>) -> bool {
    forall|i: int| 0 <= i < ls.len() ==> !is_heading_line(#[trigger] ls[i])
}

/// No line of the text is a top-level heading.
pub open spec fn plain_text(t: Seq<char>) -> bool {
    plain_lines(split_inclusive(t, '\n'))
}

/// Lines without headings are gathered as they are.
proof fn lemma_scan_plain(st: NotesScan, ls: Seq<Seq<char>>, off: int, total: int)
    requires
        plain_lines(ls),
    ensures
        scan_from(st, ls, off, total) == Ok::<NotesScan, ParseFailure>(
            (st.0, st.1, st.2, st.3 + concat_lines(ls)),
        ),
    decreases ls.len(),
{
    if ls.len() == 0 {
        assert(st.3 + concat_lines(ls) =~= st.3);
    } else {
        let p = ls.drop_last();
        assert(plain_lines(p)) by {
            assert forall|i: int| 0 <= i < p.len() implies !is_heading_line(#[trigger] p[i]) by {
                assert(p[i] == ls[i]);
            }
        }
        lemma_scan_plain(st, p, off, total);
        assert(!is_heading_line(ls[ls.len() - 1]));
        assert(st.3 + concat_lines(p) + ls.last() =~= st.3 + concat_lines(ls));
    }
}

/// A heading's slide does not depend on the line number, which only errors name.
pub proof fn lemma_anchor_line_free(line: Seq<char>, d: int, n1: int, n2: int)
    ensures
        slide_anchor(line, d, n1) is Ok ==> slide_anchor(line, d, n2) == slide_anchor(line, d, n1),
        slide_anchor(line, d, n1) is Err <==> slide_anchor(line, d, n2) is Err,
        d >= 0 ==> (slide_anchor(line, d, n1) matches Ok(v) ==> v >= 0),
{
}

/// The slide a heading takes after the sections `secs`.
pub open spec fn default_after(secs: Seq<NoteSection>) -> int {
    if secs.len() == 0 {
        0
    } else {
        secs.last().1 + 1
    }
}

/// Each section's heading is a heading line and names the section's slide, the
/// anchorless ones counting on from the section before.
pub open spec fn headings_chain(secs: Seq<NoteSection>) -> bool {
    forall|i: int|
        0 <= i < secs.len() ==> {
            &&& is_heading_line(#[trigger] secs[i].0)
            &&& one_line(secs[i].0)
            &&& slide_anchor(secs[i].0, default_after(secs.take(i)), 0) == Ok::<int, ParseFailure>(
                secs[i].1 as int,
            )
        }
}

/// What holds of the scan of the first `k` lines of a file.
spec fn scan_inv(st: NotesScan, ls: Seq<Seq<char>>, k: int, total: int) -> bool {
    match st.2 {
        None => st.0.len() == 0 && st.1.len() == 0 && st.3 == concat_lines(ls.take(k))
            && plain_lines(ls.take(k)),
        Some(cur) => {
            &&& plain_text(st.0)
            &&& ends_at_line_end(st.0)
            &&& sections_valid(st.1, total)
            &&& headings_chain(st.1)
            &&& is_heading_line(cur.1)
            &&& one_line(cur.1)
            &&& cur.0 >= 0
            &&& slide_anchor(cur.1, default_after(st.1), 0) == Ok::<int, ParseFailure>(cur.0)
        },
    }
}

proof fn lemma_chain_push(secs: Seq<NoteSection>, s: NoteSection)
    requires
        headings_chain(secs),
        is_heading_line(s.0),
        one_line(s.0),
        slide_anchor(s.0, default_after(secs), 0) == Ok::<int, ParseFailure>(s.1 as int),
    ensures
        headings_chain(secs.push(s)),
{
    let t = secs.push(s);
    assert forall|i: int| 0 <= i < t.len() implies {
        &&& is_heading_line(#[trigger] t[i].0)
        &&& one_line(t[i].0)
        &&& slide_anchor(t[i].0, default_after(t.take(i)), 0) == Ok::<int, ParseFailure>(
            t[i].1 as int,
        )
    } by {
        if i < secs.len() {
            assert(t[i] == secs[i]);
            assert(t.take(i) =~= secs.take(i));
        } else {
            assert(t.take(i) =~= secs);
        }
    }
}

proof fn lemma_scan_inv(ls: Seq<Seq<char>>, k: int, total: int)
    requires
        0 <= k <= ls.len(),
        0 <= total <= usize::MAX,
        forall|i: int| 0 <= i < ls.len() ==> one_line(#[trigger] ls[i]),
        forall|i: int| 0 <= i < ls.len() - 1 ==> (#[trigger] ls[i]).last() == '\n',
        scan_lines(ls.take(k), total) is Ok,
    ensures
        scan_inv(scan_lines(ls.take(k), total)->Ok_0, ls, k, total),
    decreases k,
{
    if k == 0 {
        assert(ls.take(0) =~= Seq::<Seq<char>>::empty());
        assert(concat_lines(ls.take(0)) =~= Seq::<char>::empty());
    } else {
        let prev = ls.take(k - 1);
        assert(ls.take(k).drop_last() =~= prev);
        assert(ls.take(k).last() == ls[k - 1]);
        if scan_lines(prev, total) is Err {
            assert(scan_lines(ls.take(k), total) is Err);
        }
        lemma_scan_inv(ls, k - 1, total);
        let st = scan_lines(prev, total)->Ok_0;
        let line = ls[k - 1];
        let st2 = scan_lines(ls.take(k), total)->Ok_0;
        assert(scan_lines(ls.take(k), total) == scan_line(st, line, k, total));
        if !is_heading_line(line) {
            if st.2 is None {
                assert(concat_lines(ls.take(k)) == concat_lines(prev) + line);
                assert(plain_lines(ls.take(k))) by {
                    assert forall|i: int| 0 <= i < k implies !is_heading_line(
                        #[trigger] ls.take(k)[i],
                    ) by {
                        if i < k - 1 {
                            assert(ls.take(k)[i] == prev[i]);
                        }
                    }
                }
            }
        } else {
            lemma_anchor_line_free(line, next_default(st), k, 0);
            match st.2 {
                None => {
                    assert forall|i: int| 0 <= i < prev.len() implies full_line(#[trigger] prev[i]) by {
                        assert(prev[i] == ls[i]);
                    }
                    lemma_split_full_lines(prev);
                    assert(st2.0 == concat_lines(prev));
                    if prev.len() > 0 {
                        assert(prev.last() == ls[k - 2]);
                    }
                },
                Some(cur) => {
                    assert(close_open(st, total) is Ok);
                    assert(cur.0 < total);
                    lemma_add_section_valid(st.1, cur.0, cur.1, st.3, cur.2, total);
                    let secs = st.1.push((cur.1, cur.0 as usize, st.3));
                    assert(add_section(st.1, cur.0, cur.1, st.3, cur.2, total) == Ok::<
                        Seq<NoteSection>,
                        ParseFailure,
                    >(secs));
                    lemma_chain_push(st.1, (cur.1, cur.0 as usize, st.3));
                    assert(st2.1 == secs);
                    assert(default_after(secs) == cur.0 + 1);
                },
            }
            assert(is_heading_line(line));
            assert(one_line(line));
        }
    }
}

/// What a successful parse of a notes file establishes: valid sections whose
/// headings are heading lines naming their slides, and a preamble without
/// headings, ending at a line end when sections follow it.
pub proof fn lemma_parsed_notes(content: Seq<char>, total: int)
    requires
        0 <= total <= usize::MAX,
        parse_notes(content, total) is Ok,
    ensures
        ({
            let (pre, secs) = parse_notes(content, total)->Ok_0;
            &&& sections_valid(secs, total)
            &&& headings_chain(secs)
            &&& plain_text(pre)
            &&& secs.len() > 0 ==> ends_at_line_end(pre)
        }),
{
    let ls = split_inclusive(content, '\n');
    lemma_split_inclusive_pieces(content);
    if scan_lines(ls, total) is Err {
        assert(parse_notes(content, total) is Err);
    }
    assert(ls.take(ls.len() as int) =~= ls);
    lemma_scan_inv(ls, ls.len() as int, total);
    let st = scan_lines(ls, total)->Ok_0;
    match st.2 {
        None => {
            assert(plain_text(content));
        },
        Some(cur) => {
            assert(close_open(st, total) is Ok);
            assert(cur.0 < total);
            lemma_add_section_valid(st.1, cur.0, cur.1, st.3, cur.2, total);
            lemma_chain_push(st.1, (cur.1, cur.0 as usize, st.3));
        },
    }
}

/// A section as written: its heading line and its body.
pub type Block = (Seq<char>, Seq<char>);

/// The text of the blocks, one after another.
pub open spec fn blocks_text(bs: Seq<Block>) -> Seq<char>
    decreases bs.len(),
{
    if bs.len() == 0 {
        seq![]
    } else {
        blocks_text(bs.drop_last()) + bs.last().0 + bs.last().1
    }
}

/// The sections the blocks are read as, with the slides their headings name.
pub open spec fn block_sections(bs: Seq<Block>, slides: Seq<int>) -> Seq<NoteSection> {
    Seq::new(bs.len(), |i: int| (bs[i].0, slides[i] as usize, bs[i].1))
}

/// Blocks that read back as sections of the given slides: each heading a whole
/// heading line naming its slide (counting on from the block before when it has
/// no anchor), each body whole lines without headings, the slides distinct and
/// below `total`.
pub open spec fn blocks_read_as(bs: Seq<Block>, slides: Seq<int>, total: int) -> bool {
    &&& slides.len() == bs.len()
    &&& total <= usize::MAX
    &&& forall|i: int|
        #![trigger bs[i]]
        0 <= i < bs.len() ==> {
            &&& full_line(bs[i].0)
            &&& is_heading_line(bs[i].0)
            &&& plain_text(bs[i].1)
            &&& ends_at_line_end(bs[i].1)
            &&& 0 <= slides[i] < total
            &&& slide_anchor(bs[i].0, if i == 0 {
                0
            } else {
                slides[i - 1] + 1
            }, 0) == Ok::<int, ParseFailure>(slides[i])
        }
    &&& forall|i: int, j: int| 0 <= i < j < slides.len() ==> slides[i] != slides[j]
}

proof fn lemma_blocks_prefix(bs: Seq<Block>, slides: Seq<int>, total: int)
    requires
        blocks_read_as(bs, slides, total),
        bs.len() > 0,
    ensures
        blocks_read_as(bs.drop_last(), slides.drop_last(), total),
{
    let q = bs.drop_last();
    let r = slides.drop_last();
    assert forall|i: int| #![trigger q[i]] 0 <= i < q.len() implies {
        &&& full_line(q[i].0)
        &&& is_heading_line(q[i].0)
        &&& plain_text(q[i].1)
        &&& ends_at_line_end(q[i].1)
        &&& 0 <= r[i] < total
        &&& slide_anchor(q[i].0, if i == 0 {
            0
        } else {
            r[i - 1] + 1
        }, 0) == Ok::<int, ParseFailure>(r[i])
    } by {
        assert(q[i] == bs[i] && r[i] == slides[i]);
        if i > 0 {
            assert(r[i - 1] == slides[i - 1]);
        }
    }
    assert forall|i: int, j: int| 0 <= i < j < r.len() implies r[i] != r[j] by {
        assert(r[i] == slides[i] && r[j] == slides[j]);
    }
}

proof fn lemma_blocks_text_end(bs: Seq<Block>, slides: Seq<int>, total: int)
    requires
        blocks_read_as(bs, slides, total),
    ensures
        ends_at_line_end(blocks_text(bs)),
{
    if bs.len() > 0 {
        let b = bs[bs.len() - 1];
        assert(bs.last() == b);
        assert(full_line(b.0) && ends_at_line_end(b.1));
        let t = blocks_text(bs.drop_last()) + b.0 + b.1;
        if b.1.len() > 0 {
            assert(t.last() == b.1.last());
        } else {
            assert(t.last() == b.0.last());
        }
    }
}

/// Reading the blocks after a preamble: every block but the last is a closed
/// section, and the last one is open with its body gathered.
proof fn lemma_scan_blocks(pre: Seq<char>, bs: Seq<Block>, slides: Seq<int>, off: int, total: int)
    requires
        blocks_read_as(bs, slides, total),
        bs.len() > 0,
    ensures
        ({
            let r = scan_from(
                (seq![], seq![], None, pre),
                split_inclusive(blocks_text(bs), '\n'),
                off,
                total,
            );
            let st = r->Ok_0;
            let cur = st.2->0;
            &&& r is Ok
            &&& st.0 == pre
            &&& st.1 == block_sections(bs.drop_last(), slides.drop_last())
            &&& st.2 is Some
            &&& cur.0 == slides.last()
            &&& cur.1 == bs.last().0
            &&& st.3 == bs.last().1
        }),
    decreases bs.len(),
{
    let st0: NotesScan = (seq![], seq![], None, pre);
    let q = bs.drop_last();
    let r = slides.drop_last();
    let h = bs.last().0;
    let b = bs.last().1;
    let m = bs.len() - 1;
    assert(bs[m] == bs.last());
    assert(full_line(bs[m].0) && is_heading_line(bs[m].0) && plain_text(bs[m].1) && ends_at_line_end(bs[m].1));
    lemma_blocks_prefix(bs, slides, total);
    lemma_blocks_text_end(q, r, total);
    crate::text::lemma_split_inclusive_concat(blocks_text(q), h + b);
    assert(blocks_text(bs) == blocks_text(q) + h + b);
    assert(blocks_text(q) + h + b =~= blocks_text(q) + (h + b));
    lemma_split_inclusive_cons_full(h, b);
    let a = split_inclusive(blocks_text(q), '\n');
    let rest = split_inclusive(b, '\n');
    assert(split_inclusive(blocks_text(bs), '\n') == a + (seq![h] + rest));
    lemma_scan_from_concat(st0, a, seq![h] + rest, off, total);
    let before = if q.len() == 0 {
        st0
    } else {
        lemma_scan_blocks(pre, q, r, off, total);
        scan_from(st0, a, off, total)->Ok_0
    };
    if q.len() == 0 {
        assert(a =~= Seq::<Seq<char>>::empty());
        assert(scan_from(st0, a, off, total) == Ok::<NotesScan, ParseFailure>(st0));
    }
    let ln = off + a.len();
    lemma_scan_from_concat(before, seq![h], rest, ln, total);
    assert(seq![h].drop_last() =~= Seq::<Seq<char>>::empty());
    assert(seq![h].last() == h);
    assert(scan_from(before, Seq::<Seq<char>>::empty(), ln, total) == Ok::<NotesScan, ParseFailure>(
        before,
    ));
    assert(scan_from(before, seq![h], ln, total) == scan_line(before, h, ln + 1, total));
    let d = if m == 0 {
        0
    } else {
        slides[m - 1] + 1
    };
    assert(slide_anchor(h, d, 0) == Ok::<int, ParseFailure>(slides[m]));
    lemma_anchor_line_free(h, d, 0, ln + 1);
    let closed = block_sections(q, r);
    if q.len() == 0 {
        assert(next_default(before) == 0);
        assert(close_open(before, total) == Ok::<(Seq<char>, Seq<NoteSection>), ParseFailure>(
            (pre, Seq::<NoteSection>::empty()),
        ));
        assert(closed =~= Seq::<NoteSection>::empty());
    } else {
        let prevs = block_sections(q.drop_last(), r.drop_last());
        assert(r.last() == slides[m - 1]);
        assert(next_default(before) == d);
        assert(0 <= slides[m - 1] < total);
        assert(!crate::notes::slides_of(prevs).contains(slides[m - 1] as usize)) by {
            if crate::notes::slides_of(prevs).contains(slides[m - 1] as usize) {
                let j = choose|j: int| 0 <= j < crate::notes::slides_of(prevs).len() && crate::notes::slides_of(prevs)[j]
                    == slides[m - 1] as usize;
                assert(crate::notes::slides_of(prevs)[j] == prevs[j].1);
                assert(prevs[j].1 == slides[j] as usize);
                assert(bs[j] == bs[j]);
                assert(0 <= slides[j] < total);
                assert(slides[j] != slides[m - 1]);
            }
        }
        assert(prevs.push((q.last().0, slides[m - 1] as usize, q.last().1)) =~= closed) by {
            assert(q.last() == q[q.len() - 1]);
        }
    }
    let opened: NotesScan = (pre, closed, Some((slides[m], h, ln + 1)), seq![]);
    assert(scan_line(before, h, ln + 1, total) == Ok::<NotesScan, ParseFailure>(opened));
    lemma_scan_plain(opened, rest, ln + 1, total);
    lemma_split_inclusive_pieces(b);
    assert(Seq::<char>::empty() + concat_lines(rest) =~= b);
}

proof fn lemma_split_inclusive_cons_full(h: Seq<char>, b: Seq<char>)
    requires
        full_line(h),
    ensures
        split_inclusive(h + b, '\n') == seq![h] + split_inclusive(b, '\n'),
{
    crate::text::lemma_split_inclusive_concat(h, b);
    assert(h =~= concat_lines(seq![h])) by {
        lemma_concat_one_line(h);
    }
    lemma_split_full_lines(seq![h]);
}

/// A preamble without headings, then blocks, reads as the preamble and the
/// blocks' sections.
pub proof fn lemma_parse_blocks(pre: Seq<char>, bs: Seq<Block>, slides: Seq<int>, total: int)
    requires
        blocks_read_as(bs, slides, total),
        plain_text(pre),
        bs.len() > 0 ==> ends_at_line_end(pre),
    ensures
        parse_notes(pre + blocks_text(bs), total) == Ok::<(Seq<char>, Seq<NoteSection>), ParseFailure>(
            (pre, block_sections(bs, slides)),
        ),
{
    let text = pre + blocks_text(bs);
    let ps = split_inclusive(pre, '\n');
    lemma_split_inclusive_pieces(pre);
    lemma_scan_lines_from(split_inclusive(text, '\n'), total);
    if bs.len() == 0 {
        assert(text =~= pre);
        lemma_scan_plain(scan_init(), ps, 0, total);
        assert(Seq::<char>::empty() + concat_lines(ps) =~= pre);
        assert(block_sections(bs, slides) =~= Seq::<NoteSection>::empty());
    } else {
        crate::text::lemma_split_inclusive_concat(pre, blocks_text(bs));
        lemma_scan_from_concat(scan_init(), ps, split_inclusive(blocks_text(bs), '\n'), 0, total);
        lemma_scan_plain(scan_init(), ps, 0, total);
        assert(Seq::<char>::empty() + concat_lines(ps) =~= pre);
        lemma_scan_blocks(pre, bs, slides, ps.len() as int, total);
        let st = scan_from(
            (seq![], seq![], None, pre),
            split_inclusive(blocks_text(bs), '\n'),
            ps.len() as int,
            total,
        )->Ok_0;
        let m = bs.len() - 1;
        assert(bs[m] == bs.last());
        assert(0 <= slides[m] < total);
        assert(slides.last() == slides[m]);
        let prevs = block_sections(bs.drop_last(), slides.drop_last());
        assert(!crate::notes::slides_of(prevs).contains(slides[m] as usize)) by {
            if crate::notes::slides_of(prevs).contains(slides[m] as usize) {
                let j = choose|j: int| 0 <= j < crate::notes::slides_of(prevs).len() && crate::notes::slides_of(prevs)[j]
                    == slides[m] as usize;
                assert(crate::notes::slides_of(prevs)[j] == prevs[j].1);
                assert(prevs[j].1 == slides[j] as usize);
                assert(bs[j] == bs[j]);
                assert(0 <= slides[j] < total);
                assert(slides[j] != slides[m]);
            }
        }
        assert(prevs.push((bs.last().0, slides[m] as usize, bs.last().1)) =~= block_sections(bs, slides));
    }
}

/// A heading line as written: with its line break.
pub open spec fn written_heading(h: Seq<char>) -> Seq<char> {
    if ends_nl(h) {
        h
    } else {
        h.push('\n')
    }
}

/// The body written under the heading of slide `k`: its note's trimmed text as a
/// paragraph of its own, or nothing.
pub open spec fn note_body(notes: Map<usize, String>, k: usize) -> Seq<char> {
    if notes.contains_key(k) && trim(notes[k]@).len() > 0 {
        seq!['\n'] + trim(notes[k]@).push('\n')
    } else {
        seq![]
    }
}

/// The blocks written for the sections a file had.
pub open spec fn section_blocks(secs: Seq<NoteSection>, notes: Map<usize, String>) -> Seq<Block> {
    Seq::new(secs.len(), |i: int| (written_heading(secs[i].0), note_body(notes, secs[i].1)))
}

/// The body written for a new section: its note, and an empty line when another
/// new section follows.
pub open spec fn added_body(notes: Map<usize, String>, k: usize, more: bool) -> Seq<char> {
    seq!['\n'] + trim(notes[k]@).push('\n') + if more {
        seq!['\n']
    } else {
        Seq::<char>::empty()
    }
}

/// The blocks written for the new sections.
pub open spec fn added_blocks(adds: Seq<usize>, notes: Map<usize, String>) -> Seq<Block> {
    Seq::new(
        adds.len(),
        |j: int| (slide_heading(adds[j]), added_body(notes, adds[j], j + 1 < adds.len())),
    )
}

proof fn lemma_render_sections_blocks(out: Seq<char>, secs: Seq<NoteSection>, notes: Map<usize, String>)
    ensures
        render_sections(out, secs, notes) == out + blocks_text(section_blocks(secs, notes)),
    decreases secs.len(),
{
    if secs.len() == 0 {
        assert(section_blocks(secs, notes) =~= Seq::<Block>::empty());
        assert(out + blocks_text(section_blocks(secs, notes)) =~= out);
    } else {
        let q = secs.drop_last();
        let sec = secs.last();
        lemma_render_sections_blocks(out, q, notes);
        let bs = section_blocks(secs, notes);
        assert(bs.drop_last() =~= section_blocks(q, notes));
        assert(bs.last() == (written_heading(sec.0), note_body(notes, sec.1)));
        let o = render_sections(out, q, notes);
        let o2 = o + sec.0 + (if ends_nl(sec.0) {
            Seq::<char>::empty()
        } else {
            seq!['\n']
        });
        assert(o2 =~= o + written_heading(sec.0));
        assert(ends_nl(o2));
        if notes.contains_key(sec.1) {
            let t = trim(notes[sec.1]@);
            if t.len() > 0 {
                assert(with_note(o2, notes[sec.1]@) =~= o2 + note_body(notes, sec.1));
            } else {
                assert(o2 + note_body(notes, sec.1) =~= o2);
            }
        } else {
            assert(o2 + note_body(notes, sec.1) =~= o2);
        }
        assert(out + blocks_text(bs) =~= o + written_heading(sec.0) + note_body(notes, sec.1));
    }
}

/// A trimmed text that is not empty neither starts nor ends with whitespace.
proof fn lemma_trimmed_note(note: Seq<char>)
    requires
        trim(note).len() > 0,
    ensures
        !is_ws(trim(note)[0]),
        !is_ws(trim(note).last()),
        trim(trim(note)) == trim(note),
{
    lemma_trim_twice(note);
    lemma_trimmed_ends(trim(note));
}

proof fn lemma_render_added_blocks(out: Seq<char>, adds: Seq<usize>, notes: Map<usize, String>)
    requires
        adds.len() > 0,
        forall|j: int|
            0 <= j < adds.len() ==> notes.contains_key(#[trigger] adds[j]) && trim(
                notes[adds[j]]@,
            ).len() > 0 && adds[j] < usize::MAX,
    ensures
        render_added(out, adds, notes) == with_blank_line(out) + blocks_text(added_blocks(adds, notes)),
    decreases adds.len(),
{
    let k = adds.last();
    let q = adds.drop_last();
    assert(adds[adds.len() - 1] == k);
    let t = trim(notes[k]@);
    lemma_slide_heading_line(k);
    let bs = added_blocks(adds, notes);
    assert(bs.last() == (slide_heading(k), added_body(notes, k, false)));
    if q.len() == 0 {
        assert(render_added(out, q, notes) == out);
        assert(bs.drop_last() =~= Seq::<Block>::empty());
        assert(blocks_text(Seq::<Block>::empty()) =~= Seq::<char>::empty());
        let x = with_blank_line(out) + slide_heading(k);
        assert(ends_nl(x));
        assert(with_note(x, notes[k]@) =~= x + added_body(notes, k, false));
        assert(with_blank_line(out) + blocks_text(bs) =~= x + added_body(notes, k, false));
    } else {
        assert forall|j: int| 0 <= j < q.len() implies notes.contains_key(#[trigger] q[j]) && trim(
            notes[q[j]]@,
        ).len() > 0 && q[j] < usize::MAX by {
            assert(q[j] == adds[j]);
        }
        lemma_render_added_blocks(out, q, notes);
        let o = render_added(out, q, notes);
        let qb = added_blocks(q, notes);
        let kq = q.last();
        assert(q[q.len() - 1] == kq);
        let tq = trim(notes[kq]@);
        lemma_trimmed_note(notes[kq]@);
        assert(qb.last() == (slide_heading(kq), added_body(notes, kq, false)));
        assert(o == with_blank_line(out) + blocks_text(qb.drop_last()) + slide_heading(kq)
            + added_body(notes, kq, false));
        assert(o.len() >= 2);
        assert(o.last() == '\n');
        assert(o[o.len() - 2] == tq.last());
        reveal_strlit("\n\n");
        assert(!has_suffix(o, "\n\n"@)) by {
            if has_suffix(o, "\n\n"@) {
                assert(o.skip(o.len() - 2)[0] == o[o.len() - 2]);
            }
        }
        assert(with_blank_line(o) == o.push('\n'));
        let x = o.push('\n') + slide_heading(k);
        assert(ends_nl(x));
        assert(with_note(x, notes[k]@) =~= x + added_body(notes, k, false));
        let longer = bs.drop_last();
        assert(longer.drop_last() =~= qb.drop_last());
        assert(longer.last() == (slide_heading(kq), added_body(notes, kq, true)));
        assert(blocks_text(longer) =~= blocks_text(qb) + seq!['\n']);
        assert(with_blank_line(out) + blocks_text(bs) =~= x + added_body(notes, k, false));
    }
}

/// The heading written for a new section is a whole heading line naming its slide.
proof fn lemma_slide_heading_line(k: usize)
    requires
        k < usize::MAX,
    ensures
        full_line(slide_heading(k)),
        is_heading_line(slide_heading(k)),
        forall|d: int| slide_anchor(slide_heading(k), d, 0) == Ok::<int, ParseFailure>(k as int),
{
    reveal_strlit("# Slide ");
    reveal_strlit(" {slide=");
    reveal_strlit("}\n");
    reveal_strlit("# ");
    reveal_strlit("{slide");
    reveal_strlit("{slide=");
    let dd = decimal((k + 1) as nat);
    lemma_decimal_digits((k + 1) as nat);
    let h = slide_heading(k);
    let a: int = 9 + dd.len() as int;
    assert(h =~= "# Slide "@ + dd + " {slide="@ + dd + "}\n"@);
    assert forall|j: int| 0 <= j < dd.len() implies dd[j] != '\n' && dd[j] != '{' && dd[j] != '}'
        && !is_ws(dd[j]) by {
        assert(crate::text::is_digit(dd[j]));
    }
    assert(one_line(h)) by {
        assert forall|j: int| 0 <= j < h.len() - 1 implies h[j] != '\n' by {
            if 8 <= j < 8 + dd.len() {
                assert(h[j] == dd[j - 8]);
            } else if 8 + dd.len() + 8 <= j < 16 + 2 * dd.len() {
                assert(h[j] == dd[j - 16 - dd.len()]);
            }
        }
    }
    assert(has_prefix(h, "# "@)) by {
        assert(h.take(2) =~= "# "@);
    }
    let p = "{slide"@;
    assert forall|j: int| 0 <= j < a implies !#[trigger] occurs_at(h, p, j) by {
        if occurs_at(h, p, j) {
            assert(h.subrange(j, j + 6)[0] == h[j]);
            assert(h[j] == '{');
            if 8 <= j < 8 + dd.len() {
                assert(h[j] == dd[j - 8]);
            }
        }
    }
    assert(occurs_at(h, p, a)) by {
        assert(h.subrange(a, a + 6) =~= p);
    }
    lemma_find_sub_from(h, p, a);
    let anchor_raw = h.skip(a);
    let anchor = "{slide="@ + dd + "}"@;
    reveal_strlit("}");
    assert(anchor_raw =~= anchor.push('\n'));
    lemma_trim_push_ws(anchor, '\n');
    lemma_trim_id(anchor);
    assert(has_prefix(anchor, "{slide="@)) by {
        assert(anchor.take(7) =~= "{slide="@);
    }
    let body = anchor.skip(7);
    assert(body =~= dd + "}"@);
    assert forall|j: int| 0 <= j < dd.len() implies body[j] != '}' by {
        assert(body[j] == dd[j]);
    }
    lemma_find_char_at(body, '}', dd.len() as int);
    assert(body.take(dd.len() as int) =~= dd);
    lemma_trim_id(dd);
    lemma_parse_decimal((k + 1) as usize);
}

proof fn lemma_find_sub_bound(s: Seq<char>, p: Seq<char>)
    ensures
        find_sub(s, p) matches Some(a) ==> 0 <= a && a + p.len() <= s.len(),
    decreases s.len(),
{
    if s.len() >= p.len() && s.take(p.len() as int) != p && s.len() > 0 {
        lemma_find_sub_bound(s.drop_first(), p);
    }
}

/// The line break written after a heading does not change the slide it names.
proof fn lemma_anchor_written(h: Seq<char>, d: int)
    ensures
        slide_anchor(written_heading(h), d, 0) == slide_anchor(h, d, 0),
{
    if !ends_nl(h) {
        reveal_strlit("{slide");
        let x = h.push('\n');
        lemma_find_sub_push(h, "{slide"@, '\n');
        lemma_find_sub_bound(h, "{slide"@);
        if let Some(a) = find_sub(h, "{slide"@) {
            assert(x.skip(a) =~= h.skip(a).push('\n'));
            lemma_trim_push_ws(h.skip(a), '\n');
        }
    }
}

proof fn lemma_blocks_concat(x: Seq<Block>, y: Seq<Block>)
    ensures
        blocks_text(x + y) == blocks_text(x) + blocks_text(y),
    decreases y.len(),
{
    if y.len() == 0 {
        assert(x + y =~= x);
        assert(blocks_text(x) + blocks_text(y) =~= blocks_text(x));
    } else {
        lemma_blocks_concat(x, y.drop_last());
        assert((x + y).drop_last() =~= x + y.drop_last());
        assert((x + y).last() == y.last());
        assert(blocks_text(x + y) =~= blocks_text(x) + blocks_text(y));
    }
}

/// A single line break is a line without a heading.
proof fn lemma_plain_newline()
    ensures
        plain_text(seq!['\n']),
        full_line(seq!['\n']),
{
    reveal_strlit("# ");
    lemma_concat_one_line(seq!['\n']);
    lemma_split_full_lines(seq![seq!['\n']]);
    assert(!is_heading_line(seq!['\n']));
}

/// A line break before plain text keeps it plain.
proof fn lemma_plain_cons_newline(x: Seq<char>)
    requires
        plain_text(x),
    ensures
        plain_text(seq!['\n'] + x),
{
    lemma_plain_newline();
    reveal_strlit("# ");
    assert(!is_heading_line(seq!['\n']));
    lemma_split_inclusive_cons_full(seq!['\n'], x);
    let sp = split_inclusive(seq!['\n'] + x, '\n');
    assert forall|i: int| 0 <= i < sp.len() implies !is_heading_line(#[trigger] sp[i]) by {
        if i > 0 {
            assert(sp[i] == split_inclusive(x, '\n')[i - 1]);
        } else {
            assert(sp[0] == seq!['\n']);
        }
    }
}

/// A line break after plain text that ends at a line end keeps it plain.
proof fn lemma_plain_append_newline(x: Seq<char>)
    requires
        plain_text(x),
        ends_at_line_end(x),
    ensures
        plain_text(x.push('\n')),
        ends_at_line_end(x.push('\n')),
{
    lemma_plain_newline();
    crate::text::lemma_split_inclusive_concat(x, seq!['\n']);
    assert(x.push('\n') =~= x + seq!['\n']);
    lemma_split_full_lines(seq![seq!['\n']]);
    lemma_concat_one_line(seq!['\n']);
    let sp = split_inclusive(x.push('\n'), '\n');
    let a = split_inclusive(x, '\n');
    reveal_strlit("# ");
    assert(!is_heading_line(seq!['\n']));
    assert(sp == a + seq![seq!['\n']]);
    assert forall|i: int| 0 <= i < sp.len() implies !is_heading_line(#[trigger] sp[i]) by {
        if i < a.len() {
            assert(sp[i] == a[i]);
        } else {
            assert(sp[i] == seq!['\n']);
        }
    }
}

/// A line break after an unfinished last line keeps plain text plain.
proof fn lemma_plain_finish_line(t: Seq<char>)
    requires
        plain_text(t),
        t.len() > 0,
        t.last() != '\n',
    ensures
        plain_text(t.push('\n')),
        ends_at_line_end(t.push('\n')),
{
    crate::text::lemma_split_push_nl(t);
    lemma_split_inclusive_pieces(t);
    let a = split_inclusive(t, '\n');
    let sp = split_inclusive(t.push('\n'), '\n');
    assert forall|i: int| 0 <= i < sp.len() implies !is_heading_line(#[trigger] sp[i]) by {
        if i < a.len() - 1 {
            assert(sp[i] == a[i]);
        } else {
            let l = a.last();
            assert(sp[i] == l.push('\n'));
            assert(!is_heading_line(a[a.len() - 1]));
            assert(one_line(a[a.len() - 1]));
            reveal_strlit("# ");
            if has_prefix(l.push('\n'), "# "@) {
                assert(l.push('\n').take(2)[1] == ' ');
                if l.len() >= 2 {
                    assert(l.take(2) =~= l.push('\n').take(2));
                } else {
                    assert(l.push('\n')[1] == '\n');
                }
            }
        }
    }
}

/// The paragraph written for a note: plain lines, ending at a line end, whose
/// trim is the note's trim.
proof fn lemma_paragraph(note: Seq<char>, more: bool)
    requires
        trim(note).len() > 0,
        plain_text(trim(note)),
    ensures
        ({
            let body = seq!['\n'] + trim(note).push('\n') + if more {
                seq!['\n']
            } else {
                Seq::<char>::empty()
            };
            &&& plain_text(body)
            &&& ends_at_line_end(body)
            &&& trim(body) == trim(note)
        }),
{
    let t = trim(note);
    lemma_trimmed_note(note);
    assert(t.last() != '\n') by {
        assert(is_ws('\n'));
    }
    lemma_plain_finish_line(t);
    lemma_plain_cons_newline(t.push('\n'));
    let base = seq!['\n'] + t.push('\n');
    assert(ends_at_line_end(base));
    crate::text::lemma_trim_prefix_ws(seq!['\n'], t.push('\n'));
    lemma_trim_push_ws(t, '\n');
    if more {
        lemma_plain_append_newline(base);
        assert(base + seq!['\n'] =~= base.push('\n'));
        lemma_trim_push_ws(base, '\n');
    } else {
        assert(base + Seq::<char>::empty() =~= base);
    }
}

/// The body written under a section's heading: plain lines ending at a line end
/// (with an empty line after it when `more`), whose trim is the note's trim, or
/// nothing for a blank or missing note.
proof fn lemma_note_body(notes: Map<usize, String>, k: usize, more: bool)
    requires
        notes.contains_key(k) && trim(notes[k]@).len() > 0 ==> plain_text(trim(notes[k]@)),
    ensures
        ({
            let body = if more {
                note_body(notes, k).push('\n')
            } else {
                note_body(notes, k)
            };
            &&& plain_text(body)
            &&& ends_at_line_end(body)
            &&& trim(body) == if notes.contains_key(k) && trim(notes[k]@).len() > 0 {
                trim(notes[k]@)
            } else {
                Seq::<char>::empty()
            }
        }),
{
    if notes.contains_key(k) && trim(notes[k]@).len() > 0 {
        lemma_paragraph(notes[k]@, more);
        assert(note_body(notes, k).push('\n') =~= seq!['\n'] + trim(notes[k]@).push('\n') + seq![
            '\n',
        ]);
        assert(note_body(notes, k) =~= seq!['\n'] + trim(notes[k]@).push('\n')
            + Seq::<char>::empty());
    } else {
        assert(split_inclusive(Seq::<char>::empty(), '\n') =~= Seq::<Seq<char>>::empty());
        if more {
            lemma_plain_newline();
            assert(note_body(notes, k).push('\n') =~= seq!['\n']);
            assert(crate::text::all_ws(seq!['\n']));
            crate::text::lemma_trim_empty(seq!['\n']);
        } else {
            assert(trim(Seq::<char>::empty()) =~= Seq::<char>::empty());
        }
    }
}

/// A heading line as written is a whole heading line.
proof fn lemma_written_heading(h: Seq<char>)
    requires
        is_heading_line(h),
        one_line(h),
    ensures
        full_line(written_heading(h)),
        is_heading_line(written_heading(h)),
{
    reveal_strlit("# ");
    if !ends_nl(h) {
        let x = h.push('\n');
        assert(x.take(2) =~= h.take(2));
        assert forall|j: int| 0 <= j < x.len() - 1 implies x[j] != '\n' by {
            assert(x[j] == h[j]);
        }
    }
}

/// With distinct slides, the notes of sections are the trimmed non-blank bodies
/// under their slides.
proof fn lemma_notes_of_distinct(ss: Seq<NoteSection>)
    requires
        slides_of(ss).no_duplicates(),
    ensures
        forall|k: usize|
            #[trigger] notes_of(ss).contains_key(k) <==> exists|i: int|
                0 <= i < ss.len() && ss[i].1 == k && trim(ss[i].2).len() > 0,
        forall|i: int|
            0 <= i < ss.len() && trim(ss[i].2).len() > 0 ==> #[trigger] notes_of(ss)[ss[i].1] == trim(
                ss[i].2,
            ),
    decreases ss.len(),
{
    if ss.len() > 0 {
        let q = ss.drop_last();
        let last = ss.last();
        assert(slides_of(q) =~= slides_of(ss).drop_last());
        assert(slides_of(q).no_duplicates()) by {
            assert forall|i: int, j: int|
                0 <= i < slides_of(q).len() && 0 <= j < slides_of(q).len() && i != j implies slides_of(
                q,
            )[i] != slides_of(q)[j] by {
                assert(slides_of(q)[i] == slides_of(ss)[i]);
                assert(slides_of(q)[j] == slides_of(ss)[j]);
            }
        }
        lemma_notes_of_distinct(q);
        assert forall|i: int| 0 <= i < q.len() implies q[i].1 != last.1 by {
            assert(slides_of(ss)[i] == q[i].1);
            assert(slides_of(ss)[ss.len() - 1] == last.1);
        }
        assert forall|k: usize| #[trigger] notes_of(ss).contains_key(k) <==> exists|i: int|
            0 <= i < ss.len() && ss[i].1 == k && trim(ss[i].2).len() > 0 by {
            if exists|i: int| 0 <= i < ss.len() && ss[i].1 == k && trim(ss[i].2).len() > 0 {
                let i = choose|i: int| 0 <= i < ss.len() && ss[i].1 == k && trim(ss[i].2).len() > 0;
                if i < q.len() {
                    assert(q[i] == ss[i]);
                }
            }
            if notes_of(q).contains_key(k) {
                let i = choose|i: int| 0 <= i < q.len() && q[i].1 == k && trim(q[i].2).len() > 0;
                assert(ss[i] == q[i]);
            }
            if k == last.1 && trim(last.2).len() > 0 {
                assert(ss[ss.len() - 1] == last);
            }
        }
        assert forall|i: int| 0 <= i < ss.len() && trim(ss[i].2).len() > 0 implies #[trigger] notes_of(
            ss,
        )[ss[i].1] == trim(ss[i].2) by {
            if i < q.len() {
                assert(q[i] == ss[i]);
                assert(notes_of(q)[q[i].1] == trim(q[i].2));
            } else {
                assert(ss[i] == last);
            }
        }
    }
}

/// The notes a file holds after writing `notes` into it: each non-blank note,
/// trimmed, under its slide.
pub open spec fn written_notes(notes: Map<usize, String>) -> Map<usize, Seq<char>> {
    Map::new(
        |k: usize| notes.contains_key(k) && trim(notes[k]@).len() > 0,
        |k: usize| trim(notes[k]@),
    )
}

/// Notes that a notes file of `total` slides holds as they are: each non-blank
/// note belongs to a slide of the presentation and has no line that is a
/// top-level heading.
pub open spec fn notes_fit(notes: Map<usize, String>, total: int) -> bool {
    &&& notes.dom().finite()
    &&& forall|k: usize| #[trigger]
        notes.contains_key(k) && trim(notes[k]@).len() > 0 ==> k < total && plain_text(
            trim(notes[k]@),
        )
}

/// The blocks written for a document: its sections' (the last body followed by
/// an empty line when `extra`), then the new sections'.
spec fn written_blocks(secs: Seq<NoteSection>, notes: Map<usize, String>, adds: Seq<usize>, extra: bool) -> Seq<
    Block,
> {
    let e = section_blocks(secs, notes);
    let e2 = if extra && secs.len() > 0 {
        e.update(e.len() - 1, (e.last().0, e.last().1.push('\n')))
    } else {
        e
    };
    e2 + added_blocks(adds, notes)
}

spec fn written_slides(secs: Seq<NoteSection>, adds: Seq<usize>) -> Seq<int> {
    Seq::new(secs.len(), |i: int| secs[i].1 as int) + Seq::new(adds.len(), |j: int| adds[j] as int)
}

/// What holds of the sections, the notes and the new slides when a parsed file
/// is written with `notes`.
spec fn writing(secs: Seq<NoteSection>, notes: Map<usize, String>, adds: Seq<usize>, total: int) -> bool {
    &&& 0 <= total <= usize::MAX
    &&& sections_valid(secs, total)
    &&& headings_chain(secs)
    &&& notes_fit(notes, total)
    &&& increasing(adds)
    &&& forall|k: usize| adds.contains(k) <==> pending_slides(secs, notes).contains(k)
}

proof fn lemma_written_block(
    secs: Seq<NoteSection>,
    notes: Map<usize, String>,
    adds: Seq<usize>,
    extra: bool,
    total: int,
    i: int,
)
    requires
        writing(secs, notes, adds, total),
        0 <= i < secs.len() + adds.len(),
    ensures
        ({
            let bs = written_blocks(secs, notes, adds, extra);
            let sl = written_slides(secs, adds);
            &&& bs.len() == sl.len() == secs.len() + adds.len()
            &&& full_line(bs[i].0)
            &&& is_heading_line(bs[i].0)
            &&& plain_text(bs[i].1)
            &&& ends_at_line_end(bs[i].1)
            &&& 0 <= sl[i] < total
            &&& slide_anchor(bs[i].0, if i == 0 {
                0
            } else {
                sl[i - 1] + 1
            }, 0) == Ok::<int, ParseFailure>(sl[i])
            &&& i < secs.len() ==> sl[i] == secs[i].1 as int && trim(bs[i].1) == if notes.contains_key(
                secs[i].1,
            ) && trim(notes[secs[i].1]@).len() > 0 {
                trim(notes[secs[i].1]@)
            } else {
                Seq::<char>::empty()
            }
            &&& i >= secs.len() ==> sl[i] == adds[i - secs.len()] as int && pending_slides(
                secs,
                notes,
            ).contains(adds[i - secs.len()]) && trim(bs[i].1) == trim(
                notes[adds[i - secs.len()]]@,
            )
        }),
{
    let bs = written_blocks(secs, notes, adds, extra);
    let sl = written_slides(secs, adds);
    let n = secs.len();
    let e = section_blocks(secs, notes);
    if i < n {
        let h = secs[i].0;
        let k = secs[i].1;
        assert(is_heading_line(secs[i].0) && one_line(secs[i].0));
        assert(slide_anchor(secs[i].0, default_after(secs.take(i)), 0) == Ok::<int, ParseFailure>(
            secs[i].1 as int,
        ));
        lemma_written_heading(h);
        lemma_anchor_written(h, default_after(secs.take(i)));
        let more = extra && i == n - 1;
        if notes.contains_key(k) && trim(notes[k]@).len() > 0 {
            assert(notes.contains_key(k) && trim(notes[k]@).len() > 0);
        }
        lemma_note_body(notes, k, more);
        assert(bs[i] == (written_heading(h), if more {
            note_body(notes, k).push('\n')
        } else {
            note_body(notes, k)
        }));
        assert(secs[i].1 < total);
        if i > 0 {
            assert(secs.take(i).last() == secs[i - 1]);
            assert(sl[i - 1] == secs[i - 1].1 as int);
        }
    } else {
        let j = i - n;
        let k = adds[j];
        assert(adds.contains(k));
        assert(pending_slides(secs, notes).contains(k));
        assert(notes.contains_key(k) && trim(notes[k]@).len() > 0);
        assert(k < total);
        lemma_slide_heading_line(k);
        lemma_paragraph(notes[k]@, j + 1 < adds.len());
        assert(bs[i] == (slide_heading(k), added_body(notes, k, j + 1 < adds.len())));
    }
}

proof fn lemma_written_blocks_read(
    secs: Seq<NoteSection>,
    notes: Map<usize, String>,
    adds: Seq<usize>,
    extra: bool,
    total: int,
)
    requires
        writing(secs, notes, adds, total),
    ensures
        blocks_read_as(written_blocks(secs, notes, adds, extra), written_slides(secs, adds), total),
{
    let bs = written_blocks(secs, notes, adds, extra);
    let sl = written_slides(secs, adds);
    let n = secs.len();
    assert forall|i: int|
        #![trigger bs[i]]
        0 <= i < bs.len() implies {
            &&& full_line(bs[i].0)
            &&& is_heading_line(bs[i].0)
            &&& plain_text(bs[i].1)
            &&& ends_at_line_end(bs[i].1)
            &&& 0 <= sl[i] < total
            &&& slide_anchor(bs[i].0, if i == 0 {
                0
            } else {
                sl[i - 1] + 1
            }, 0) == Ok::<int, ParseFailure>(sl[i])
        } by {
        lemma_written_block(secs, notes, adds, extra, total, i);
    }
    assert forall|i: int, j: int| 0 <= i < j < sl.len() implies sl[i] != sl[j] by {
        lemma_written_block(secs, notes, adds, extra, total, i);
        lemma_written_block(secs, notes, adds, extra, total, j);
        if j < n {
            assert(slides_of(secs)[i] == secs[i].1 && slides_of(secs)[j] == secs[j].1);
        } else if i < n {
            assert(slides_of(secs)[i] == secs[i].1);
            assert(slides_of(secs).contains(secs[i].1));
            assert(!slides_of(secs).contains(adds[j - n]));
        } else {
            assert(adds[i - n] < adds[j - n]);
        }
    }
}

proof fn lemma_notes_written(
    secs: Seq<NoteSection>,
    notes: Map<usize, String>,
    adds: Seq<usize>,
    extra: bool,
    total: int,
)
    requires
        writing(secs, notes, adds, total),
    ensures
        notes_of(block_sections(written_blocks(secs, notes, adds, extra), written_slides(secs, adds)))
            == written_notes(notes),
{
    let bs = written_blocks(secs, notes, adds, extra);
    let sl = written_slides(secs, adds);
    let ss = block_sections(bs, sl);
    let n = secs.len();
    lemma_written_blocks_read(secs, notes, adds, extra, total);
    assert(slides_of(ss).no_duplicates()) by {
        assert forall|i: int, j: int|
            0 <= i < slides_of(ss).len() && 0 <= j < slides_of(ss).len() && i != j implies slides_of(
            ss,
        )[i] != slides_of(ss)[j] by {
            assert(slides_of(ss)[i] == ss[i].1 && slides_of(ss)[j] == ss[j].1);
            assert(bs[i] == bs[i] && bs[j] == bs[j]);
            assert(0 <= sl[i] < total && 0 <= sl[j] < total);
            if i < j {
                assert(sl[i] != sl[j]);
            } else {
                assert(sl[j] != sl[i]);
            }
        }
    }
    lemma_notes_of_distinct(ss);
    let wn = written_notes(notes);
    let got = notes_of(ss);
    assert forall|k: usize| got.contains_key(k) <==> wn.contains_key(k) by {
        if got.contains_key(k) {
            let i = choose|i: int| 0 <= i < ss.len() && ss[i].1 == k && trim(ss[i].2).len() > 0;
            lemma_written_block(secs, notes, adds, extra, total, i);
            assert(bs[i] == bs[i]);
            assert(ss[i].1 == sl[i] as usize);
        }
        if wn.contains_key(k) {
            if slides_of(secs).contains(k) {
                let i = choose|i: int| 0 <= i < slides_of(secs).len() && slides_of(secs)[i] == k;
                lemma_written_block(secs, notes, adds, extra, total, i);
                assert(ss[i].1 == sl[i] as usize);
                assert(trim(ss[i].2).len() > 0);
            } else {
                assert(pending_slides(secs, notes).contains(k));
                assert(adds.contains(k));
                let j = choose|j: int| 0 <= j < adds.len() && adds[j] == k;
                lemma_written_block(secs, notes, adds, extra, total, n + j);
                assert(ss[n + j].1 == sl[n + j] as usize);
                assert(trim(ss[n + j].2).len() > 0);
            }
        }
    }
    assert forall|k: usize| got.contains_key(k) implies got[k] == wn[k] by {
        let i = choose|i: int| 0 <= i < ss.len() && ss[i].1 == k && trim(ss[i].2).len() > 0;
        lemma_written_block(secs, notes, adds, extra, total, i);
        assert(ss[i].1 == sl[i] as usize);
        assert(got[ss[i].1] == trim(ss[i].2));
    }
    assert(got =~= wn);
}

/// Ending a preamble with an empty line keeps it free of headings.
proof fn lemma_blank_line_preamble(pre: Seq<char>)
    requires
        plain_text(pre),
    ensures
        plain_text(with_blank_line(pre)),
        ends_at_line_end(with_blank_line(pre)),
{
    if pre.len() > 0 {
        let o = if ends_nl(pre) {
            pre
        } else {
            lemma_plain_finish_line(pre);
            pre.push('\n')
        };
        assert(plain_text(o) && ends_at_line_end(o));
        if !has_suffix(o, "\n\n"@) {
            lemma_plain_append_newline(o);
        }
    }
}

/// Writing notes into a parsed notes file and parsing what was written gives
/// those notes back: every non-blank one, trimmed, and no others.
pub proof fn law_written_notes_read_back(content: Seq<char>, total: int, notes: Map<usize, String>)
    requires
        0 <= total <= usize::MAX,
        parse_notes(content, total) is Ok,
        notes_fit(notes, total),
    ensures
        ({
            let parsed = parse_notes(content, total)->Ok_0;
            let back = parse_notes(render_notes(parsed.0, parsed.1, notes), total);
            back is Ok && notes_of(back->Ok_0.1) == written_notes(notes)
        }),
{
    let parsed = parse_notes(content, total)->Ok_0;
    let pre = parsed.0;
    let secs = parsed.1;
    lemma_parsed_notes(content, total);
    let pend = pending_slides(secs, notes);
    assert(pend.subset_of(notes.dom()));
    vstd::set_lib::lemma_set_subset_finite(notes.dom(), pend);
    crate::order::lemma_in_order_finite(pend);
    let adds = in_order(pend);
    assert(writing(secs, notes, adds, total));
    let e = section_blocks(secs, notes);
    lemma_render_sections_blocks(pre, secs, notes);
    let r = render_sections(pre, secs, notes);
    let text = render_notes(pre, secs, notes);
    assert(text == render_added(r, adds, notes));
    let extra = adds.len() > 0 && secs.len() > 0 && !has_suffix(r, "\n\n"@);
    let bs = written_blocks(secs, notes, adds, extra);
    let sl = written_slides(secs, adds);
    lemma_written_blocks_read(secs, notes, adds, extra, total);
    lemma_notes_written(secs, notes, adds, extra, total);
    if adds.len() == 0 {
        assert(text == r);
        assert(added_blocks(adds, notes) =~= Seq::<Block>::empty());
        assert(bs =~= e);
        lemma_parse_blocks(pre, bs, sl, total);
    } else {
        assert forall|j: int| 0 <= j < adds.len() implies notes.contains_key(#[trigger] adds[j])
            && trim(notes[adds[j]]@).len() > 0 && adds[j] < usize::MAX by {
            assert(adds.contains(adds[j]));
            assert(pend.contains(adds[j]));
        }
        lemma_render_added_blocks(r, adds, notes);
        let a = added_blocks(adds, notes);
        assert(text == with_blank_line(r) + blocks_text(a));
        if secs.len() == 0 {
            assert(e =~= Seq::<Block>::empty());
            assert(r =~= pre);
            assert(bs =~= a);
            lemma_blank_line_preamble(pre);
            lemma_parse_blocks(with_blank_line(pre), bs, sl, total);
        } else {
            let m = e.len() - 1;
            let last = secs[secs.len() - 1];
            assert(is_heading_line(last.0) && one_line(last.0));
            lemma_written_heading(last.0);
            assert(e[m] == e.last());
            assert(e.last() == (written_heading(last.0), note_body(notes, last.1)));
            let rb = blocks_text(e);
            assert(rb == blocks_text(e.drop_last()) + e.last().0 + e.last().1);
            assert(rb.len() > 0 && rb.last() == '\n') by {
                if e.last().1.len() > 0 {
                    assert(rb.last() == e.last().1.last());
                } else {
                    assert(rb.last() == e.last().0.last());
                }
            }
            assert(r.len() > 0 && r.last() == '\n');
            if extra {
                assert(with_blank_line(r) == r.push('\n'));
                let e2 = e.update(m, (e.last().0, e.last().1.push('\n')));
                assert(e2.drop_last() =~= e.drop_last());
                assert(e2.last() == (e.last().0, e.last().1.push('\n')));
                assert(blocks_text(e2) =~= rb.push('\n'));
                assert(bs == e2 + a);
                lemma_blocks_concat(e2, a);
                assert(text =~= pre + blocks_text(bs));
            } else {
                reveal_strlit("\n\n");
                assert(with_blank_line(r) == r);
                assert(bs == e + a);
                lemma_blocks_concat(e, a);
                assert(text =~= pre + blocks_text(bs));
            }
            lemma_parse_blocks(pre, bs, sl, total);
        }
    }
}

} // verus!
