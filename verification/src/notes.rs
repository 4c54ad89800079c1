//! Markdown speaker notes: a preamble, then one top-level heading per logical
//! slide. A heading may name its slide with a `{slide=N}` anchor (one-based);
//! otherwise it takes the slide after the previous heading's.
use std::collections::{HashMap, HashSet};
use std::path::PathBuf;

use crate::sidecar::{parse_failure, SidecarError};
use crate::text::{
    append_chars, append_str, chars_of, decimal, decimal_chars_wide, ends_with, ends_with_char,
    find_char, find_char_index, find_sub, find_substring, has_prefix, has_suffix, is_blank,
    parse_usize_range, parse_usize_spec, slice_of, split_inclusive, split_inclusive_ranges,
    starts_with, string_of, trim, trim_chars, trim_range,
};
use crate::order::{in_order, increasing, insert_in_order, lemma_in_order, lemma_prefix_contains};
use vstd::prelude::*;
use vstd::std_specs::hash::spec_keys_iter;
use vstd::std_specs::iter::IteratorSpec;

verus! {

broadcast use vstd::std_specs::hash::group_hash_axioms;

/// A section of notes: its heading line, its zero-based logical slide, its body.
pub type NoteSection = (Seq<char>, usize, Seq<char>);

/// Where parsing failed: the one-based line number and the message.
pub type ParseFailure = (int, Seq<char>);

/// The state of a scan: preamble, finished sections, the open heading (slide,
/// heading line, line number) if any, and the text gathered since it.
pub type NotesScan = (Seq<char>, Seq<NoteSection>, Option<(int, Seq<char>, int)>, Seq<char>);

/// A parsed Markdown notes file that can be updated without rewriting headings.
#[derive(Debug, Clone)]
pub struct MarkdownNotesDocument {
    path: PathBuf,
    preamble: String,
    sections: Vec<MarkdownNoteSection>,
}

#[derive(Debug, Clone)]
struct MarkdownNoteSection {
    heading: String,
    slide_index: usize,
    body: String,
}

spec fn section_model(s: MarkdownNoteSection) -> NoteSection {
    (s.heading@, s.slide_index, s.body@)
}

spec fn sections_model(v: Seq<MarkdownNoteSection>) -> Seq<NoteSection> {
    v.map_values(|s: MarkdownNoteSection| section_model(s))
}

impl MarkdownNotesDocument {
    /// The text before the first top-level heading.
    pub closed spec fn preamble_view(&self) -> Seq<char> {
        self.preamble@
    }

    /// The sections, in file order.
    pub closed spec fn sections_view(&self) -> Seq<NoteSection> {
        sections_model(self.sections@)
    }

    /// The file the notes belong to.
    pub closed spec fn path_view(&self) -> PathBuf {
        self.path
    }
}

// ---------------------------------------------------------------------------
// The format
// ---------------------------------------------------------------------------

/// A top-level heading line starts with `# `.
pub open spec fn is_heading_line(line: Seq<char>) -> bool {
    has_prefix(line, "# "@)
}

/// The slide a heading line names: its `{slide=N}` anchor's `N - 1`, or `default`
/// when the line has no `{slide` at all.
pub open spec fn slide_anchor(line: Seq<char>, default: int, line_no: int) -> Result<
    int,
    ParseFailure,
> {
    match find_sub(line, "{slide"@) {
        None => Ok(default),
        Some(a) => {
            let anchor = trim(line.skip(a));
            if !has_prefix(anchor, "{slide="@) {
                Err((line_no, "Malformed slide anchor"@))
            } else {
                let body = anchor.skip("{slide="@.len() as int);
                match find_char(body, '}') {
                    None => Err((line_no, "Malformed slide anchor"@)),
                    Some(e) => match parse_usize_spec(trim(body.take(e))) {
                        None => Err((line_no, "Slide anchor must contain a positive integer"@)),
                        Some(n) => if n == 0 {
                            Err((line_no, "Slide anchor must use one-based slide numbers"@))
                        } else {
                            Ok(n - 1)
                        },
                    },
                }
            }
        },
    }
}

/// The slides of a list of sections.
pub open spec fn slides_of(secs: Seq<NoteSection>) -> Seq<usize> {
    secs.map_values(|s: NoteSection| s.1)
}

/// The message for a slide beyond the presentation.
pub open spec fn outside_message(slide: int, total: int) -> Seq<char> {
    "Slide "@ + decimal((slide + 1) as nat) + " is outside this presentation's "@ + decimal(
        total as nat,
    ) + " logical slides"@
}

/// The message for a second section of one slide.
pub open spec fn duplicate_message(slide: int) -> Seq<char> {
    "Duplicate notes section for slide "@ + decimal((slide + 1) as nat)
}

/// Adds a finished section, unless its slide is out of range or already has one.
pub open spec fn add_section(
    secs: Seq<NoteSection>,
    slide: int,
    heading: Seq<char>,
    body: Seq<char>,
    heading_line: int,
    total: int,
) -> Result<Seq<NoteSection>, ParseFailure> {
    if slide >= total {
        Err((heading_line, outside_message(slide, total)))
    } else if slides_of(secs).contains(slide as usize) {
        Err((heading_line, duplicate_message(slide)))
    } else {
        Ok(secs.push((heading, slide as usize, body)))
    }
}

/// Closes the open section, or makes the gathered text the preamble if no heading
/// was seen yet.
pub open spec fn close_open(st: NotesScan, total: int) -> Result<
    (Seq<char>, Seq<NoteSection>),
    ParseFailure,
> {
    match st.2 {
        Some(cur) => match add_section(st.1, cur.0, cur.1, st.3, cur.2, total) {
            Ok(secs) => Ok((st.0, secs)),
            Err(e) => Err(e),
        },
        None => Ok((st.3, st.1)),
    }
}

/// The slide an anchorless heading takes: the one after the open heading's.
pub open spec fn next_default(st: NotesScan) -> int {
    match st.2 {
        Some(cur) => cur.0 + 1,
        None => 0,
    }
}

/// One line of the scan (`line_no` is one-based).
pub open spec fn scan_line(st: NotesScan, line: Seq<char>, line_no: int, total: int) -> Result<
    NotesScan,
    ParseFailure,
> {
    if is_heading_line(line) {
        match close_open(st, total) {
            Err(e) => Err(e),
            Ok(pc) => match slide_anchor(line, next_default(st), line_no) {
                Err(e) => Err(e),
                Ok(idx) => Ok((pc.0, pc.1, Some((idx, line, line_no)), seq![])),
            },
        }
    } else {
        Ok((st.0, st.1, st.2, st.3 + line))
    }
}

/// The scan of a list of lines.
pub open spec fn scan_lines(ls: Seq<Seq<char>>, total: int) -> Result<NotesScan, ParseFailure>
    decreases ls.len(),
{
    if ls.len() == 0 {
        Ok((seq![], seq![], None, seq![]))
    } else {
        match scan_lines(ls.drop_last(), total) {
            Err(e) => Err(e),
            Ok(st) => scan_line(st, ls.last(), ls.len() as int, total),
        }
    }
}

/// The preamble and sections of a notes file with `total` logical slides.
pub open spec fn parse_notes(content: Seq<char>, total: int) -> Result<
    (Seq<char>, Seq<NoteSection>),
    ParseFailure,
> {
    match scan_lines(split_inclusive(content, '\n'), total) {
        Err(e) => Err(e),
        Ok(st) => close_open(st, total),
    }
}

/// No slide has two sections, and every slide is below `total`.
pub open spec fn sections_valid(secs: Seq<NoteSection>, total: int) -> bool {
    &&& slides_of(secs).no_duplicates()
    &&& forall|i: int| 0 <= i < secs.len() ==> (#[trigger] secs[i]).1 < total
}

// ---------------------------------------------------------------------------
// Parsing
// ---------------------------------------------------------------------------

/// The slide a heading resolved to.
pub struct ParsedHeading {
    pub slide_index: usize,
}

/// Whether a line is a top-level heading.
pub fn is_top_level_heading(line: &Vec<char>) -> (r: bool)
    ensures
        r == is_heading_line(line@),
{
    let prefix = chars_of("# ");
    starts_with(line, &prefix)
}

/// A parse error at a line.
pub fn parse_error(line: usize, message: String) -> (r: SidecarError)
    ensures
        parse_failure(r) == Some((line as int, message@)),
{
    SidecarError::Parse { line, message }
}

/// The slide a heading line names (see `slide_anchor`).
pub fn parse_heading_slide(line: &Vec<char>, default_slide_index: usize, line_number: usize) -> (r:
    Result<ParsedHeading, SidecarError>)
    ensures
        match r {
            Ok(p) => slide_anchor(line@, default_slide_index as int, line_number as int) == Ok::<
                int,
                ParseFailure,
            >(p.slide_index as int),
            Err(e) => parse_failure(e) matches Some(f) && slide_anchor(
                line@,
                default_slide_index as int,
                line_number as int,
            ) == Err::<int, ParseFailure>(f),
        },
{
    let pat = chars_of("{slide");
    let start = match find_substring(line, &pat) {
        None => {
            return Ok(ParsedHeading { slide_index: default_slide_index });
        },
        Some(a) => a,
    };
    let (ta, tb) = trim_range(line, start, line.len());
    assert(line@.skip(start as int) =~= line@.subrange(start as int, line@.len() as int));
    let anchor = slice_of(line, ta, tb);
    let prefix = chars_of("{slide=");
    if !starts_with(&anchor, &prefix) {
        return Err(parse_error(line_number, "Malformed slide anchor".to_owned()));
    }
    let body = slice_of(&anchor, prefix.len(), anchor.len());
    assert(body@ =~= anchor@.skip("{slide="@.len() as int));
    let end = match find_char_index(&body, '}') {
        None => {
            return Err(parse_error(line_number, "Malformed slide anchor".to_owned()));
        },
        Some(e) => e,
    };
    let (na, nb) = trim_range(&body, 0, end);
    assert(body@.take(end as int) =~= body@.subrange(0, end as int));
    match parse_usize_range(&body, na, nb) {
        None => Err(
            parse_error(line_number, "Slide anchor must contain a positive integer".to_owned()),
        ),
        Some(n) => {
            if n == 0 {
                Err(
                    parse_error(
                        line_number,
                        "Slide anchor must use one-based slide numbers".to_owned(),
                    ),
                )
            } else {
                Ok(ParsedHeading { slide_index: n - 1 })
            }
        },
    }
}

/// Appends a finished section, unless its slide is out of range or taken.
fn push_section(
    sections: &mut Vec<MarkdownNoteSection>,
    seen: &mut HashSet<usize>,
    slide_index: usize,
    heading: String,
    body: String,
    heading_line: usize,
    total_logical_slides: usize,
) -> (r: Result<(), SidecarError>)
    requires
        old(seen)@ == slides_of(sections_model(old(sections)@)).to_set(),
    ensures
        match add_section(
            sections_model(old(sections)@),
            slide_index as int,
            heading@,
            body@,
            heading_line as int,
            total_logical_slides as int,
        ) {
            Ok(secs) => r is Ok && sections_model(final(sections)@) == secs && final(seen)@
                == slides_of(secs).to_set(),
            Err(f) => r matches Err(e) && parse_failure(e) == Some(f),
        },
{
    let ghost old_model = sections_model(sections@);
    if slide_index >= total_logical_slides {
        let mut msg: Vec<char> = Vec::new();
        append_str(&mut msg, "Slide ");
        let shown = decimal_chars_wide(slide_index as u128 + 1);
        append_chars(&mut msg, &shown);
        append_str(&mut msg, " is outside this presentation's ");
        let count = decimal_chars_wide(total_logical_slides as u128);
        append_chars(&mut msg, &count);
        append_str(&mut msg, " logical slides");
        assert(msg@ =~= outside_message(slide_index as int, total_logical_slides as int));
        return Err(parse_error(heading_line, string_of(&msg)));
    }
    if !seen.insert(slide_index) {
        assert(slides_of(old_model).to_set().contains(slide_index));
        let mut msg: Vec<char> = Vec::new();
        append_str(&mut msg, "Duplicate notes section for slide ");
        let shown = decimal_chars_wide(slide_index as u128 + 1);
        append_chars(&mut msg, &shown);
        assert(msg@ =~= duplicate_message(slide_index as int));
        return Err(parse_error(heading_line, string_of(&msg)));
    }
    assert(!slides_of(old_model).contains(slide_index)) by {
        if slides_of(old_model).contains(slide_index) {
            assert(slides_of(old_model).to_set().contains(slide_index));
        }
    }
    sections.push(MarkdownNoteSection { heading, slide_index, body });
    proof {
        let secs = old_model.push((heading@, slide_index, body@));
        assert(sections_model(sections@) =~= secs);
        assert(slides_of(secs) =~= slides_of(old_model).push(slide_index));
        assert forall|x: usize|
            slides_of(secs).contains(x) <==> slides_of(old_model).to_set().insert(
                slide_index,
            ).contains(x) by {
            if slides_of(secs).contains(x) {
                let j = choose|j: int| 0 <= j < slides_of(secs).len() && slides_of(secs)[j] == x;
                if j < old_model.len() {
                    assert(slides_of(old_model)[j] == x);
                }
            }
            if slides_of(old_model).contains(x) {
                let j = choose|j: int|
                    0 <= j < slides_of(old_model).len() && slides_of(old_model)[j] == x;
                assert(slides_of(secs)[j] == x);
            }
            if x == slide_index {
                assert(slides_of(secs)[old_model.len() as int] == x);
            }
        }
        assert(slides_of(secs).to_set() =~= slides_of(old_model).to_set().insert(slide_index));
    }
    Ok(())
}

/// Adding a section keeps the sections valid.
pub proof fn lemma_add_section_valid(
    secs: Seq<NoteSection>,
    slide: int,
    heading: Seq<char>,
    body: Seq<char>,
    heading_line: int,
    total: int,
)
    requires
        sections_valid(secs, total),
        0 <= slide,
    ensures
        add_section(secs, slide, heading, body, heading_line, total) matches Ok(s2)
            ==> sections_valid(s2, total),
{
    if let Ok(s2) = add_section(secs, slide, heading, body, heading_line, total) {
        assert(slides_of(s2) =~= slides_of(secs).push(slide as usize));
        assert forall|i: int| 0 <= i < s2.len() implies (#[trigger] s2[i]).1 < total by {
            if i < secs.len() {
                assert(s2[i] == secs[i]);
            }
        }
        assert forall|i: int, j: int|
            0 <= i < slides_of(s2).len() && 0 <= j < slides_of(s2).len() && i != j implies slides_of(
            s2,
        )[i] != slides_of(s2)[j] by {
            if i < secs.len() && j < secs.len() {
                assert(slides_of(s2)[i] == slides_of(secs)[i]);
                assert(slides_of(s2)[j] == slides_of(secs)[j]);
            } else if i < secs.len() {
                assert(slides_of(s2)[i] == slides_of(secs)[i]);
            } else {
                assert(slides_of(s2)[j] == slides_of(secs)[j]);
            }
        }
    }
}

/// Once a scan fails, the lines after do not change the failure.
proof fn lemma_scan_error_persists(ls: Seq<Seq<char>>, k: int, total: int)
    requires
        0 <= k <= ls.len(),
        scan_lines(ls.take(k), total) is Err,
    ensures
        scan_lines(ls, total) == scan_lines(ls.take(k), total),
    decreases ls.len() - k,
{
    if k < ls.len() {
        assert(ls.take(k + 1).drop_last() =~= ls.take(k));
        lemma_scan_error_persists(ls, k + 1, total);
    } else {
        assert(ls.take(k) =~= ls);
    }
}

/// The model of the open heading.
spec fn open_model(cur: Option<(usize, Vec<char>, usize)>) -> Option<(int, Seq<char>, int)> {
    match cur {
        Some(c) => Some((c.0 as int, c.1@, c.2 as int)),
        None => None,
    }
}

/// The scan state of the parser's buffers.
spec fn scan_state(
    preamble: Vec<char>,
    sections: Vec<MarkdownNoteSection>,
    current: Option<(usize, Vec<char>, usize)>,
    body: Vec<char>,
) -> NotesScan {
    (preamble@, sections_model(sections@), open_model(current), body@)
}

/// Closes the open section (or sets the preamble) as `close_open` says.
fn close_open_section(
    preamble: &mut Vec<char>,
    sections: &mut Vec<MarkdownNoteSection>,
    seen: &mut HashSet<usize>,
    current: Option<(usize, Vec<char>, usize)>,
    body: Vec<char>,
    total: usize,
) -> (r: Result<(), SidecarError>)
    requires
        old(seen)@ == slides_of(sections_model(old(sections)@)).to_set(),
        sections_valid(sections_model(old(sections)@), total as int),
    ensures
        match close_open(scan_state(*old(preamble), *old(sections), current, body), total as int) {
            Ok(pc) => r is Ok && final(preamble)@ == pc.0 && sections_model(final(sections)@)
                == pc.1 && final(seen)@ == slides_of(pc.1).to_set() && sections_valid(
                pc.1,
                total as int,
            ),
            Err(f) => r matches Err(e) && parse_failure(e) == Some(f),
        },
{
    match current {
        Some((slide, heading, heading_line)) => {
            proof {
                lemma_add_section_valid(
                    sections_model(sections@),
                    slide as int,
                    heading@,
                    body@,
                    heading_line as int,
                    total as int,
                );
            }
            push_section(
                sections,
                seen,
                slide,
                string_of(&heading),
                string_of(&body),
                heading_line,
                total,
            )
        },
        None => {
            *preamble = body;
            Ok(())
        },
    }
}

/// Handles a heading line as `scan_line` says.
fn scan_heading(
    preamble: &mut Vec<char>,
    sections: &mut Vec<MarkdownNoteSection>,
    seen: &mut HashSet<usize>,
    current: &mut Option<(usize, Vec<char>, usize)>,
    body: &mut Vec<char>,
    line: Vec<char>,
    line_number: usize,
    total: usize,
) -> (r: Result<(), SidecarError>)
    requires
        is_heading_line(line@),
        old(seen)@ == slides_of(sections_model(old(sections)@)).to_set(),
        sections_valid(sections_model(old(sections)@), total as int),
    ensures
        match scan_line(
            scan_state(*old(preamble), *old(sections), *old(current), *old(body)),
            line@,
            line_number as int,
            total as int,
        ) {
            Ok(st) => r is Ok && st == scan_state(
                *final(preamble),
                *final(sections),
                *final(current),
                *final(body),
            ) && final(seen)@ == slides_of(sections_model(final(sections)@)).to_set()
                && sections_valid(sections_model(final(sections)@), total as int),
            Err(f) => r matches Err(e) && parse_failure(e) == Some(f),
        },
{
    let ghost st = scan_state(*preamble, *sections, *current, *body);
    let mut open: Option<(usize, Vec<char>, usize)> = None;
    std::mem::swap(&mut open, current);
    let mut taken: Vec<char> = Vec::new();
    std::mem::swap(&mut taken, body);
    let default_index: usize = match &open {
        Some(c) => c.0,
        None => 0,
    };
    let had_open = open.is_some();
    match close_open_section(preamble, sections, seen, open, taken, total) {
        Err(e) => {
            return Err(e);
        },
        Ok(()) => {},
    }
    // A closed section's slide is below `total`, so the next slide fits.
    let default_index: usize = if had_open {
        assert(sections_model(sections@).last().1 == default_index);
        assert(sections_valid(sections_model(sections@), total as int));
        assert(sections_model(sections@)[sections_model(sections@).len() - 1].1 < total);
        default_index + 1
    } else {
        0
    };
    assert(default_index as int == next_default(st));
    match parse_heading_slide(&line, default_index, line_number) {
        Err(e) => Err(e),
        Ok(p) => {
            *current = Some((p.slide_index, line, line_number));
            Ok(())
        },
    }
}

impl MarkdownNotesDocument {
    /// Parses the notes of a presentation with `total_logical_slides` slides.
    pub fn parse(path: PathBuf, content: &str, total_logical_slides: usize) -> (r: Result<
        Self,
        SidecarError,
    >)
        ensures
            match r {
                Ok(doc) => parse_notes(content@, total_logical_slides as int) == Ok::<
                    (Seq<char>, Seq<NoteSection>),
                    ParseFailure,
                >((doc.preamble_view(), doc.sections_view())) && doc.path_view() == path
                    && sections_valid(doc.sections_view(), total_logical_slides as int),
                Err(e) => parse_failure(e) matches Some(f) && parse_notes(
                    content@,
                    total_logical_slides as int,
                ) == Err::<(Seq<char>, Seq<NoteSection>), ParseFailure>(f),
            },
    {
        let total = total_logical_slides;
        let chars = chars_of(content);
        let ranges = split_inclusive_ranges(&chars, 0, chars.len(), '\n');
        assert(chars@.subrange(0, chars@.len() as int) =~= chars@);
        let ghost ls = split_inclusive(chars@, '\n');
        let mut preamble: Vec<char> = Vec::new();
        let mut sections: Vec<MarkdownNoteSection> = Vec::new();
        let mut current: Option<(usize, Vec<char>, usize)> = None;
        let mut body: Vec<char> = Vec::new();
        let mut seen: HashSet<usize> = HashSet::new();
        assert(slides_of(sections_model(sections@)).to_set() =~= Set::<usize>::empty());
        assert(ls.take(0) =~= Seq::<Seq<char>>::empty());
        assert(sections_model(sections@) =~= Seq::<NoteSection>::empty());
        let mut i: usize = 0;
        while i < ranges.len()
            invariant
                i <= ranges@.len(),
                ranges@.len() == ls.len(),
                chars@ == content@,
                total == total_logical_slides,
                ls == split_inclusive(chars@, '\n'),
                forall|j: int|
                    0 <= j < ranges@.len() ==> (#[trigger] ranges@[j]).0 < ranges@[j].1
                        <= chars@.len() && chars@.subrange(ranges@[j].0 as int, ranges@[j].1 as int)
                        == ls[j],
                scan_lines(ls.take(i as int), total as int) == Ok::<NotesScan, ParseFailure>(
                    scan_state(preamble, sections, current, body),
                ),
                seen@ == slides_of(sections_model(sections@)).to_set(),
                sections_valid(sections_model(sections@), total as int),
            decreases ranges@.len() - i,
        {
            assert(ls.take(i + 1).drop_last() =~= ls.take(i as int));
            let (a, b) = ranges[i];
            let line = slice_of(&chars, a, b);
            assert(ls.take(i + 1).last() == line@);
            let ghost st = scan_state(preamble, sections, current, body);
            let ghost line_view = line@;
            assert(scan_lines(ls.take(i + 1), total as int) == scan_line(
                st,
                line_view,
                i + 1,
                total as int,
            ));
            if is_top_level_heading(&line) {
                match scan_heading(
                    &mut preamble,
                    &mut sections,
                    &mut seen,
                    &mut current,
                    &mut body,
                    line,
                    i + 1,
                    total,
                ) {
                    Err(e) => {
                        proof {
                            lemma_scan_error_persists(ls, i + 1, total as int);
                        }
                        return Err(e);
                    },
                    Ok(()) => {},
                }
            } else {
                append_chars(&mut body, &line);
            }
            i += 1;
        }
        assert(ls.take(ranges@.len() as int) =~= ls);
        match close_open_section(&mut preamble, &mut sections, &mut seen, current, body, total) {
            Err(e) => {
                return Err(e);
            },
            Ok(()) => {},
        }
        Ok(MarkdownNotesDocument { path, preamble: string_of(&preamble), sections })
    }
}

// ---------------------------------------------------------------------------
// Notes and rendering
// ---------------------------------------------------------------------------

/// The notes of a list of sections: each section with a non-blank body gives its
/// slide the trimmed body (a later section of a slide wins).
pub open spec fn notes_of(secs: Seq<NoteSection>) -> Map<usize, Seq<char>>
    decreases secs.len(),
{
    if secs.len() == 0 {
        Map::empty()
    } else {
        let m = notes_of(secs.drop_last());
        let s = secs.last();
        if trim(s.2).len() > 0 {
            m.insert(s.1, trim(s.2))
        } else {
            m
        }
    }
}

/// Whether `s` ends with a line break.
pub open spec fn ends_nl(s: Seq<char>) -> bool {
    s.len() > 0 && s.last() == '\n'
}

/// Appends a note's trimmed text as its own paragraph; a blank note adds nothing.
pub open spec fn with_note(out: Seq<char>, note: Seq<char>) -> Seq<char> {
    let t = trim(note);
    if t.len() == 0 {
        out
    } else {
        (if ends_nl(out) {
            out
        } else {
            out.push('\n')
        }).push('\n') + t.push('\n')
    }
}

/// Ends a non-empty text with an empty line.
pub open spec fn with_blank_line(out: Seq<char>) -> Seq<char> {
    if out.len() == 0 {
        out
    } else {
        let o = if ends_nl(out) {
            out
        } else {
            out.push('\n')
        };
        if has_suffix(o, "\n\n"@) {
            o
        } else {
            o.push('\n')
        }
    }
}

/// The heading written for a slide that had no section.
pub open spec fn slide_heading(k: usize) -> Seq<char> {
    "# Slide "@ + decimal((k + 1) as nat) + " {slide="@ + decimal((k + 1) as nat) + "}\n"@
}

/// Writes the sections in order, each heading followed by its slide's note if
/// `notes` has one.
pub open spec fn render_sections(
    out: Seq<char>,
    secs: Seq<NoteSection>,
    notes: Map<usize, String>,
) -> Seq<char>
    decreases secs.len(),
{
    if secs.len() == 0 {
        out
    } else {
        let o = render_sections(out, secs.drop_last(), notes);
        let s = secs.last();
        let o2 = o + s.0 + (if ends_nl(s.0) {
            seq![]
        } else {
            seq!['\n']
        });
        if notes.contains_key(s.1) {
            with_note(o2, notes[s.1]@)
        } else {
            o2
        }
    }
}

/// Appends a new section for each of `added`, in order.
pub open spec fn render_added(out: Seq<char>, added: Seq<usize>, notes: Map<usize, String>) -> Seq<
    char,
>
    decreases added.len(),
{
    if added.len() == 0 {
        out
    } else {
        let o = render_added(out, added.drop_last(), notes);
        let k = added.last();
        with_note(with_blank_line(o) + slide_heading(k), notes[k]@)
    }
}

/// The slides with a non-blank note and no section.
pub open spec fn pending_slides(secs: Seq<NoteSection>, notes: Map<usize, String>) -> Set<usize> {
    Set::new(
        |k: usize|
            notes.contains_key(k) && !slides_of(secs).contains(k) && trim(notes[k]@).len() > 0,
    )
}

/// The text of a document whose notes are replaced by `notes`: the preamble,
/// each section under its own heading, then a new section for each pending slide.
pub open spec fn render_notes(
    preamble: Seq<char>,
    secs: Seq<NoteSection>,
    notes: Map<usize, String>,
) -> Seq<char> {
    render_added(
        render_sections(preamble, secs, notes),
        in_order(pending_slides(secs, notes)),
        notes,
    )
}

/// Appends a note's trimmed text as its own paragraph (see `with_note`).
fn push_note_body(output: &mut Vec<char>, note: &Vec<char>)
    ensures
        final(output)@ == with_note(old(output)@, note@),
{
    let trimmed = trim_chars(note);
    if trimmed.len() == 0 {
        return;
    }
    if !ends_with_char(output, '\n') {
        output.push('\n');
    }
    output.push('\n');
    append_chars(output, &trimmed);
    output.push('\n');
    assert(final(output)@ =~= with_note(old(output)@, note@));
}

/// Ends a non-empty text with an empty line (see `with_blank_line`).
fn ensure_blank_line_before_appended_section(output: &mut Vec<char>)
    ensures
        final(output)@ == with_blank_line(old(output)@),
{
    if output.len() == 0 {
        return;
    }
    if !ends_with_char(output, '\n') {
        output.push('\n');
    }
    let pair = chars_of("\n\n");
    if !ends_with(output, &pair) {
        output.push('\n');
    }
}

/// Appends a new section for `slide` holding `note`.
fn append_slide_section(output: &mut Vec<char>, slide: usize, note: &Vec<char>)
    ensures
        final(output)@ == with_note(with_blank_line(old(output)@) + slide_heading(slide), note@),
{
    ensure_blank_line_before_appended_section(output);
    let ghost start = output@;
    let number = decimal_chars_wide(slide as u128 + 1);
    append_str(output, "# Slide ");
    append_chars(output, &number);
    append_str(output, " {slide=");
    append_chars(output, &number);
    append_str(output, "}\n");
    assert(output@ =~= start + slide_heading(slide));
    push_note_body(output, note);
}

/// The slides of `notes` with a non-blank note and no section, in increasing order.
fn pending_in_order(notes: &HashMap<usize, String>, written: &HashSet<usize>) -> (r: Vec<usize>)
    ensures
        increasing(r@),
        forall|x: usize|
            r@.contains(x) <==> (notes@.contains_key(x) && !written@.contains(x) && trim(
                notes@[x]@,
            ).len() > 0),
{
    let mut r: Vec<usize> = Vec::new();
    let ghost ks = spec_keys_iter(notes).remaining();
    for k in it: notes.keys()
        invariant
            it.seq() == ks,
            ks.no_duplicates(),
            ks.unref().to_set() == notes@.dom(),
            increasing(r@),
            forall|x: usize|
                r@.contains(x) <==> (ks.take(it.index()).unref().contains(x) && notes@.contains_key(
                    x,
                ) && !written@.contains(x) && trim(notes@[x]@).len() > 0),
    {
        let key = *k;
        let ghost idx = it.index();
        proof {
            lemma_prefix_contains(ks, idx);
        }
        let keep = match notes.get(&key) {
            Some(note) => {
                let chars = chars_of(note.as_str());
                !written.contains(&key) && !is_blank(&chars)
            },
            None => false,
        };
        if keep {
            assert(!r@.contains(key)) by {
                if r@.contains(key) {
                    let j = choose|j: int| 0 <= j < idx && ks.take(idx).unref()[j] == key;
                    assert(ks[j] == ks[idx]);
                }
            }
            insert_in_order(&mut r, key);
        }
    }
    proof {
        assert forall|x: usize| notes@.contains_key(x) implies ks.unref().contains(x) by {
            assert(ks.unref().to_set().contains(x));
        }
        assert(ks.take(ks.len() as int) =~= ks);
    }
    r
}

impl MarkdownNotesDocument {
    /// Return notes keyed by zero-based logical slide index.
    pub fn notes_by_slide(&self) -> (r: HashMap<usize, String>)
        ensures
            r@.dom() == notes_of(self.sections_view()).dom(),
            forall|k: usize| #[trigger]
                r@.contains_key(k) ==> r@[k]@ == notes_of(self.sections_view())[k],
    {
        let mut r: HashMap<usize, String> = HashMap::new();
        let ghost secs = self.sections_view();
        let mut i: usize = 0;
        while i < self.sections.len()
            invariant
                i <= self.sections@.len(),
                secs == self.sections_view(),
                r@.dom() == notes_of(secs.take(i as int)).dom(),
                forall|k: usize| #[trigger]
                    r@.contains_key(k) ==> r@[k]@ == notes_of(secs.take(i as int))[k],
            decreases self.sections@.len() - i,
        {
            assert(secs.take(i + 1).drop_last() =~= secs.take(i as int));
            assert(secs.take(i + 1).last() == section_model(self.sections@[i as int]));
            let section = &self.sections[i];
            let body = chars_of(section.body.as_str());
            let trimmed = trim_chars(&body);
            if trimmed.len() > 0 {
                r.insert(section.slide_index, string_of(&trimmed));
            }
            i += 1;
        }
        assert(secs.take(self.sections@.len() as int) =~= secs);
        r
    }

    /// The file's text with the sections' notes replaced by `notes`, headings kept
    /// as written; slides with a note and no section get a new section at the end.
    pub fn render_with_notes(&self, notes: &HashMap<usize, String>) -> (r: String)
        ensures
            r@ == render_notes(self.preamble_view(), self.sections_view(), notes@),
    {
        let ghost secs = self.sections_view();
        let mut output = chars_of(self.preamble.as_str());
        let mut written: HashSet<usize> = HashSet::new();
        assert(slides_of(secs.take(0)).to_set() =~= Set::<usize>::empty());
        assert(secs.take(0) =~= Seq::<NoteSection>::empty());
        let mut i: usize = 0;
        while i < self.sections.len()
            invariant
                i <= self.sections@.len(),
                secs == self.sections_view(),
                output@ == render_sections(self.preamble_view(), secs.take(i as int), notes@),
                written@ == slides_of(secs.take(i as int)).to_set(),
            decreases self.sections@.len() - i,
        {
            assert(secs.take(i + 1).drop_last() =~= secs.take(i as int));
            assert(secs.take(i + 1).last() == section_model(self.sections@[i as int]));
            let section = &self.sections[i];
            append_str(&mut output, section.heading.as_str());
            let heading = chars_of(section.heading.as_str());
            if !ends_with_char(&heading, '\n') {
                output.push('\n');
            }
            match notes.get(&section.slide_index) {
                Some(note) => {
                    let text = chars_of(note.as_str());
                    push_note_body(&mut output, &text);
                },
                None => {},
            }
            written.insert(section.slide_index);
            proof {
                let s2 = slides_of(secs.take(i + 1));
                assert(s2 =~= slides_of(secs.take(i as int)).push(self.sections@[i as int].slide_index));
                assert(s2.to_set() =~= slides_of(secs.take(i as int)).to_set().insert(
                    self.sections@[i as int].slide_index,
                )) by {
                    broadcast use vstd::seq_lib::group_seq_properties;
                }
            }
            i += 1;
        }
        assert(secs.take(self.sections@.len() as int) =~= secs);
        let added = pending_in_order(notes, &written);
        proof {
            assert forall|x: usize|
                added@.contains(x) <==> pending_slides(secs, notes@).contains(x) by {
                assert(slides_of(secs).to_set().contains(x) <==> slides_of(secs).contains(x));
            }
            lemma_in_order(added@, pending_slides(secs, notes@));
        }
        let ghost base = output@;
        let mut j: usize = 0;
        while j < added.len()
            invariant
                j <= added@.len(),
                output@ == render_added(base, added@.take(j as int), notes@),
                forall|x: usize| added@.contains(x) ==> notes@.contains_key(x),
            decreases added@.len() - j,
        {
            assert(added@.take(j + 1).drop_last() =~= added@.take(j as int));
            let slide = added[j];
            assert(added@.contains(slide));
            match notes.get(&slide) {
                Some(note) => {
                    let text = chars_of(note.as_str());
                    append_slide_section(&mut output, slide, &text);
                },
                None => {},
            }
            j += 1;
        }
        assert(added@.take(added@.len() as int) =~= added@);
        string_of(&output)
    }
}

/// Rendering never rewrites the preamble: the rendered text begins with it.
pub proof fn law_render_keeps_preamble(
    preamble: Seq<char>,
    secs: Seq<NoteSection>,
    notes: Map<usize, String>,
)
    ensures
        has_prefix(render_notes(preamble, secs, notes), preamble),
{
    lemma_sections_extend(preamble, secs, notes);
    lemma_added_extend(
        render_sections(preamble, secs, notes),
        in_order(pending_slides(secs, notes)),
        notes,
    );
    lemma_prefix_trans(
        render_notes(preamble, secs, notes),
        render_sections(preamble, secs, notes),
        preamble,
    );
}

/// Writing the sections only appends to the text.
proof fn lemma_sections_extend(out: Seq<char>, secs: Seq<NoteSection>, notes: Map<usize, String>)
    ensures
        has_prefix(render_sections(out, secs, notes), out),
    decreases secs.len(),
{
    if secs.len() > 0 {
        lemma_sections_extend(out, secs.drop_last(), notes);
        let o = render_sections(out, secs.drop_last(), notes);
        let s = secs.last();
        let o2 = o + s.0 + (if ends_nl(s.0) {
            seq![]
        } else {
            seq!['\n']
        });
        assert(o2.take(o.len() as int) =~= o);
        let r = render_sections(out, secs, notes);
        if notes.contains_key(s.1) {
            lemma_note_extends(o2, notes[s.1]@);
            lemma_prefix_trans(r, o2, o);
        }
        lemma_prefix_trans(r, o, out);
    } else {
        assert(out.take(out.len() as int) =~= out);
    }
}

/// Appending the new sections only appends to the text.
proof fn lemma_added_extend(out: Seq<char>, added: Seq<usize>, notes: Map<usize, String>)
    ensures
        has_prefix(render_added(out, added, notes), out),
    decreases added.len(),
{
    if added.len() > 0 {
        lemma_added_extend(out, added.drop_last(), notes);
        let o = render_added(out, added.drop_last(), notes);
        let b = with_blank_line(o);
        assert(b.take(o.len() as int) =~= o);
        let h = b + slide_heading(added.last());
        assert(h.take(b.len() as int) =~= b);
        lemma_note_extends(h, notes[added.last()]@);
        let r = render_added(out, added, notes);
        lemma_prefix_trans(r, h, b);
        lemma_prefix_trans(r, b, o);
        lemma_prefix_trans(r, o, out);
    } else {
        assert(out.take(out.len() as int) =~= out);
    }
}

/// A prefix of a prefix is a prefix.
proof fn lemma_prefix_trans(a: Seq<char>, b: Seq<char>, c: Seq<char>)
    requires
        has_prefix(a, b),
        has_prefix(b, c),
    ensures
        has_prefix(a, c),
{
    assert forall|i: int| 0 <= i < c.len() implies a[i] == c[i] by {
        assert(a.take(b.len() as int)[i] == a[i]);
        assert(b.take(c.len() as int)[i] == b[i]);
    }
    assert(a.take(c.len() as int) =~= c);
}

/// A note paragraph is appended after the text.
proof fn lemma_note_extends(out: Seq<char>, note: Seq<char>)
    ensures
        has_prefix(with_note(out, note), out),
{
    let w = with_note(out, note);
    assert(w.take(out.len() as int) =~= out);
}

/// The sections' heading lines occur in `text` verbatim and in order: the last
/// one at some place, and the ones before it in the text before that place.
pub open spec fn headings_in(text: Seq<char>, secs: Seq<NoteSection>) -> bool
    decreases secs.len(),
{
    if secs.len() == 0 {
        true
    } else {
        exists|p: int|
            0 <= p && p + secs.last().0.len() <= text.len() && #[trigger] text.subrange(
                p,
                p + secs.last().0.len(),
            ) == secs.last().0 && headings_in(text.take(p), secs.drop_last())
    }
}

/// Headings found in a text are found in any text that begins with it.
proof fn lemma_headings_in_extension(t: Seq<char>, big: Seq<char>, secs: Seq<NoteSection>)
    requires
        headings_in(t, secs),
        has_prefix(big, t),
    ensures
        headings_in(big, secs),
{
    if secs.len() > 0 {
        let h = secs.last().0;
        let p = choose|p: int|
            0 <= p && p + h.len() <= t.len() && #[trigger] t.subrange(p, p + h.len()) == h
                && headings_in(t.take(p), secs.drop_last());
        assert(big.take(t.len() as int) == t);
        assert(big.subrange(p, p + h.len()) =~= t.subrange(p, p + h.len()));
        assert(big.take(p) =~= t.take(p));
    }
}

/// Writing the sections puts each heading line into the text, in order.
proof fn lemma_sections_keep_headings(out: Seq<char>, secs: Seq<NoteSection>, notes: Map<usize, String>)
    ensures
        headings_in(render_sections(out, secs, notes), secs),
    decreases secs.len(),
{
    if secs.len() > 0 {
        lemma_sections_keep_headings(out, secs.drop_last(), notes);
        let o = render_sections(out, secs.drop_last(), notes);
        let s = secs.last();
        let o2 = o + s.0 + (if ends_nl(s.0) {
            seq![]
        } else {
            seq!['\n']
        });
        let r = render_sections(out, secs, notes);
        if notes.contains_key(s.1) {
            lemma_note_extends(o2, notes[s.1]@);
        } else {
            assert(r.take(o2.len() as int) =~= o2);
        }
        let p = o.len() as int;
        assert(r.take(o2.len() as int) == o2);
        assert(r.subrange(p, p + s.0.len()) =~= s.0);
        assert(r.take(p) =~= o);
        assert(headings_in(r, secs));
    }
}

/// Rendering notes keeps every heading line of the document verbatim and in
/// order, whatever the notes.
pub proof fn law_render_keeps_headings(
    preamble: Seq<char>,
    secs: Seq<NoteSection>,
    notes: Map<usize, String>,
)
    ensures
        headings_in(render_notes(preamble, secs, notes), secs),
{
    lemma_sections_keep_headings(preamble, secs, notes);
    lemma_added_extend(
        render_sections(preamble, secs, notes),
        in_order(pending_slides(secs, notes)),
        notes,
    );
    lemma_headings_in_extension(
        render_sections(preamble, secs, notes),
        render_notes(preamble, secs, notes),
        secs,
    );
}

} // verus!
