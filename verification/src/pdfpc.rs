//! The pdfpc sidecar format: its reader, its writer, and the proof that what
//! the writer writes the reader reads back.
use std::collections::HashMap;

use crate::order::{in_order, lemma_in_order_finite, sorted_keys};
use crate::sidecar::{one_less, overlay_line, overlay_line_group};
use crate::slide_group::SlideGroupMeta;
use crate::text::{
    all_plain, append_chars, append_str, chars_of, decimal, decimal_chars, find_char, is_digit,
    is_word, is_ws, join_lines, lemma_decimal_digits, lemma_find_char, lemma_join_lines_concat,
    lemma_join_one_line, lemma_lines_join, lemma_parse_decimal, lemma_split_on_lines,
    lemma_split_ws_pair, lemma_trim_id, lemma_trimmed_ends, line_ranges, lines, no_ws,
    parse_unsigned, parse_unsigned_range, parse_usize_range, parse_usize_spec, plain_line,
    slice_of, split_on, starts_with, string_of, trim, trim_chars, trim_range, unsigned_digits,
};
use vstd::prelude::*;

verus! {

broadcast use vstd::std_specs::hash::group_hash_axioms;

/// Metadata read from a `.pdfpc` file.
#[derive(Debug, Clone)]
pub struct PdfpcMetadata {
    /// Presentation title (the `[file]` entry), if any.
    pub title: Option<String>,
    /// Slide group definitions (page ranges).
    pub groups: Vec<SlideGroupMeta>,
    /// Per-page notes (`page_index` → text).
    pub notes: HashMap<usize, String>,
    /// Optional "end" slide marker (page index after which slides are backup).
    pub end_slide: Option<usize>,
    /// Timer duration hint, in minutes.
    pub last_minutes: Option<u32>,
}

/// The model of pdfpc metadata: title, groups, notes, end slide, minutes.
pub type PdfpcModel = (
    Option<Seq<char>>,
    Seq<SlideGroupMeta>,
    Map<usize, Seq<char>>,
    Option<usize>,
    Option<u32>,
);

/// Where a pdfpc scan is: the current section, and the note being gathered
/// (its page and text so far).
pub type PdfpcCursor = (Option<Seq<char>>, Option<usize>, Seq<char>);

/// Stores the note being gathered (trimmed, unless blank) and ends it.
pub open spec fn flush_note(m: PdfpcModel, c: PdfpcCursor) -> (PdfpcModel, PdfpcCursor) {
    match c.1 {
        Some(page) => {
            let note = trim(c.2);
            let m2 = if note.len() > 0 {
                (m.0, m.1, m.2.insert(page, note), m.3, m.4)
            } else {
                m
            };
            (m2, (c.0, None, seq![]))
        },
        None => (m, c),
    }
}

/// Whether a trimmed line is a `[section]` header.
pub open spec fn is_section_header(t: Seq<char>) -> bool {
    t.len() >= 2 && t[0] == '[' && t.last() == ']'
}

/// A line of the `[notes]` section (`t` is the line trimmed): a `### n` heading
/// starts the note of page `n` (one-based); other lines extend the current note.
pub open spec fn notes_step(m: PdfpcModel, c: PdfpcCursor, t: Seq<char>, line: Seq<char>) -> (
    PdfpcModel,
    PdfpcCursor,
) {
    if t.len() >= 4 && t.take(4) == "### "@ {
        let f = flush_note(m, c);
        let page = match parse_usize_spec(trim(t.skip(4))) {
            Some(n) => Some(one_less(n)),
            None => None,
        };
        (f.0, (f.1.0, page, f.1.2))
    } else if c.1 is Some {
        let text = if c.2.len() > 0 {
            c.2.push('\n')
        } else {
            c.2
        };
        (m, (c.0, c.1, text + line))
    } else {
        (m, c)
    }
}

/// A trimmed line of one of the single-value sections (`overlay`, `duration`,
/// `end_slide`, `end_user_slide`); lines of other sections change nothing.
pub open spec fn setting_step(m: PdfpcModel, section: Seq<char>, t: Seq<char>) -> PdfpcModel {
    if section == "overlay"@ {
        match overlay_line_group(t) {
            Some(g) => (m.0, m.1.push(g), m.2, m.3, m.4),
            None => m,
        }
    } else if section == "duration"@ {
        match parse_unsigned(t, u32::MAX as int) {
            Some(v) => (m.0, m.1, m.2, m.3, Some(v as u32)),
            None => m,
        }
    } else if section == "end_slide"@ || section == "end_user_slide"@ {
        match parse_usize_spec(t) {
            Some(n) => (m.0, m.1, m.2, Some(one_less(n)), m.4),
            None => m,
        }
    } else {
        m
    }
}

/// One line of a pdfpc file.
pub open spec fn pdfpc_step(m: PdfpcModel, c: PdfpcCursor, line: Seq<char>) -> (
    PdfpcModel,
    PdfpcCursor,
) {
    let t = trim(line);
    if is_section_header(t) {
        let f = flush_note(m, c);
        (f.0, (Some(t.subrange(1, t.len() - 1)), f.1.1, f.1.2))
    } else {
        match c.0 {
            None => (m, c),
            Some(section) => if section == "file"@ {
                if t.len() > 0 {
                    ((Some(t), m.1, m.2, m.3, m.4), c)
                } else {
                    (m, c)
                }
            } else if section == "notes"@ {
                notes_step(m, c, t, line)
            } else {
                (setting_step(m, section, t), c)
            },
        }
    }
}

/// The scan of a list of lines.
pub open spec fn pdfpc_scan(ls: Seq<Seq<char>>) -> (PdfpcModel, PdfpcCursor)
    decreases ls.len(),
{
    if ls.len() == 0 {
        ((None, seq![], Map::empty(), None, None), (None, None, seq![]))
    } else {
        let prev = pdfpc_scan(ls.drop_last());
        pdfpc_step(prev.0, prev.1, ls.last())
    }
}

/// The metadata of a pdfpc file: every line scanned, then the last note stored.
pub open spec fn pdfpc_metadata(content: Seq<char>) -> PdfpcModel {
    let end = pdfpc_scan(lines(content));
    flush_note(end.0, end.1).0
}

/// The model of a pdfpc metadata record.
pub open spec fn pdfpc_view(p: PdfpcMetadata) -> PdfpcModel {
    (
        match p.title {
            Some(t) => Some(t@),
            None => None,
        },
        p.groups@,
        p.notes@.map_values(|s: String| s@),
        p.end_slide,
        p.last_minutes,
    )
}

/// The buffers of a pdfpc scan.
struct PdfpcScan {
    title: Option<Vec<char>>,
    groups: Vec<SlideGroupMeta>,
    notes: HashMap<usize, String>,
    end_slide: Option<usize>,
    last_minutes: Option<u32>,
    section: Option<Vec<char>>,
    note_page: Option<usize>,
    note_text: Vec<char>,
}

spec fn opt_chars(o: Option<Vec<char>>) -> Option<Seq<char>> {
    match o {
        Some(v) => Some(v@),
        None => None,
    }
}

impl PdfpcScan {
    spec fn model(&self) -> PdfpcModel {
        (
            opt_chars(self.title),
            self.groups@,
            self.notes@.map_values(|s: String| s@),
            self.end_slide,
            self.last_minutes,
        )
    }

    spec fn cursor(&self) -> PdfpcCursor {
        (opt_chars(self.section), self.note_page, self.note_text@)
    }

    /// Stores the note being gathered (see `flush_note`).
    fn flush(&mut self)
        ensures
            (final(self).model(), final(self).cursor()) == flush_note(old(self).model(), old(self).cursor()),
    {
        match self.note_page {
            Some(page) => {
                let note = trim_chars(&self.note_text);
                if note.len() > 0 {
                    self.notes.insert(page, string_of(&note));
                    assert(self.notes@.map_values(|s: String| s@) =~= old(self).notes@.map_values(
                        |s: String| s@,
                    ).insert(page, note@));
                }
                self.note_page = None;
                self.note_text = Vec::new();
            },
            None => {},
        }
    }

    /// A line of the `[notes]` section (see `notes_step`).
    fn note_line(&mut self, t: &Vec<char>, line: &Vec<char>)
        requires
            t@ == trim(line@),
        ensures
            (final(self).model(), final(self).cursor()) == notes_step(
                old(self).model(),
                old(self).cursor(),
                t@,
                line@,
            ),
    {
        let hashes = chars_of("### ");
        proof {
            reveal_strlit("### ");
        }
        if starts_with(t, &hashes) {
            self.flush();
            let (a, b) = trim_range(t, 4, t.len());
            assert(t@.skip(4) =~= t@.subrange(4, t@.len() as int));
            let page = match parse_usize_range(t, a, b) {
                Some(n) => Some(
                    if n == 0 {
                        0
                    } else {
                        n - 1
                    },
                ),
                None => None,
            };
            self.note_page = page;
        } else if self.note_page.is_some() {
            if self.note_text.len() > 0 {
                self.note_text.push('\n');
            }
            append_chars(&mut self.note_text, line);
        }
    }

    /// A trimmed line of a single-value section (see `setting_step`).
    fn setting_line(&mut self, section: &Vec<char>, t: &Vec<char>)
        ensures
            final(self).model() == setting_step(old(self).model(), section@, t@),
            final(self).cursor() == old(self).cursor(),
    {
        assert(t@.subrange(0, t@.len() as int) =~= t@);
        if is_word(section, "overlay") {
            match overlay_line(t, 0, t.len()) {
                Some(g) => self.groups.push(g),
                None => {},
            }
        } else if is_word(section, "duration") {
            match parse_unsigned_range(t, 0, t.len(), u32::MAX as u64) {
                Some(v) => {
                    proof {
                        crate::text::lemma_digits_value_nonneg(crate::text::unsigned_digits(t@));
                    }
                    self.last_minutes = Some(v as u32);
                },
                None => {},
            }
        } else if is_word(section, "end_slide") || is_word(section, "end_user_slide") {
            match parse_usize_range(t, 0, t.len()) {
                Some(n) => {
                    self.end_slide = Some(
                        if n == 0 {
                            0
                        } else {
                            n - 1
                        },
                    );
                },
                None => {},
            }
        }
    }

    /// Scans one line (see `pdfpc_step`).
    fn step(&mut self, line: &Vec<char>)
        ensures
            (final(self).model(), final(self).cursor()) == pdfpc_step(
                old(self).model(),
                old(self).cursor(),
                line@,
            ),
    {
        let t = trim_chars(line);
        if t.len() >= 2 && t[0] == '[' && t[t.len() - 1] == ']' {
            self.flush();
            let name = slice_of(&t, 1, t.len() - 1);
            self.section = Some(name);
            return;
        }
        let section = match &self.section {
            Some(s) => slice_of(s, 0, s.len()),
            None => {
                return;
            },
        };
        assert(section@ =~= self.section->0@);
        if is_word(&section, "file") {
            if t.len() > 0 {
                self.title = Some(t);
            }
        } else if is_word(&section, "notes") {
            self.note_line(&t, line);
        } else {
            self.setting_line(&section, &t);
        }
    }
}

/// Parse `.pdfpc` file content into presentation metadata.
pub fn parse_pdfpc(content: &str) -> (r: PdfpcMetadata)
    ensures
        pdfpc_view(r) == pdfpc_metadata(content@),
{
    let chars = chars_of(content);
    let ranges = line_ranges(&chars);
    let ghost ls = lines(chars@);
    let mut scan = PdfpcScan {
        title: None,
        groups: Vec::new(),
        notes: HashMap::new(),
        end_slide: None,
        last_minutes: None,
        section: None,
        note_page: None,
        note_text: Vec::new(),
    };
    assert(scan.model().2 =~= Map::<usize, Seq<char>>::empty());
    assert(ls.take(0) =~= Seq::<Seq<char>>::empty());
    let mut k: usize = 0;
    while k < ranges.len()
        invariant
            k <= ranges@.len(),
            ranges@.len() == ls.len(),
            ls == lines(chars@),
            chars@ == content@,
            forall|j: int|
                0 <= j < ranges@.len() ==> (#[trigger] ranges@[j]).0 <= ranges@[j].1 <= chars@.len()
                    && chars@.subrange(ranges@[j].0 as int, ranges@[j].1 as int) == ls[j],
            (scan.model(), scan.cursor()) == pdfpc_scan(ls.take(k as int)),
        decreases ranges@.len() - k,
    {
        assert(ls.take(k + 1).drop_last() =~= ls.take(k as int));
        let (a, b) = ranges[k];
        let line = slice_of(&chars, a, b);
        scan.step(&line);
        k += 1;
    }
    assert(ls.take(ranges@.len() as int) =~= ls);
    scan.flush();
    let title = match scan.title {
        Some(t) => Some(string_of(&t)),
        None => None,
    };
    PdfpcMetadata {
        title,
        groups: scan.groups,
        notes: scan.notes,
        end_slide: scan.end_slide,
        last_minutes: scan.last_minutes,
    }
}

/// The `[overlay]` lines of `gs`: one-based start and end page, one group a line.
pub open spec fn overlay_lines(gs: Seq<SlideGroupMeta>) -> Seq<char>
    decreases gs.len(),
{
    if gs.len() == 0 {
        seq![]
    } else {
        let g = gs.last();
        ((overlay_lines(gs.drop_last()) + decimal((g.start_page + 1) as nat)).push(' ') + decimal(
            (g.end_page + 1) as nat,
        )).push('\n')
    }
}

/// The `[notes]` blocks of `pages`: a `### n` heading (one-based), then the note.
pub open spec fn note_blocks(pages: Seq<usize>, notes: Map<usize, Seq<char>>) -> Seq<char>
    decreases pages.len(),
{
    if pages.len() == 0 {
        seq![]
    } else {
        let p = pages.last();
        ((note_blocks(pages.drop_last(), notes) + "### "@ + decimal((p + 1) as nat)).push('\n')
            + notes[p]).push('\n')
    }
}

/// The pdfpc text of a metadata record: `[file]`, `[duration]`, `[end_slide]`,
/// `[overlay]` and `[notes]`, each only when there is something to write,
/// pages one-based, notes in page order.
pub open spec fn pdfpc_render(m: PdfpcModel) -> Seq<char> {
    let file = match m.0 {
        Some(t) => ("[file]\n"@ + t).push('\n'),
        None => seq![],
    };
    let duration = match m.4 {
        Some(v) => ("[duration]\n"@ + decimal(v as nat)).push('\n'),
        None => seq![],
    };
    let end = match m.3 {
        Some(e) => ("[end_slide]\n"@ + decimal((e + 1) as nat)).push('\n'),
        None => seq![],
    };
    let overlay = if m.1.len() > 0 {
        "[overlay]\n"@ + overlay_lines(m.1)
    } else {
        seq![]
    };
    let notes = if m.2.len() > 0 {
        "[notes]\n"@ + note_blocks(in_order(m.2.dom()), m.2)
    } else {
        seq![]
    };
    file + duration + end + overlay + notes
}

/// Every page of the record has a one-based number that fits in `usize`.
pub open spec fn pdfpc_pages_fit(m: PdfpcModel) -> bool {
    &&& (m.3 matches Some(e) ==> e < usize::MAX)
    &&& forall|i: int|
        0 <= i < m.1.len() ==> (#[trigger] m.1[i]).start_page < usize::MAX && m.1[i].end_page
            < usize::MAX
    &&& forall|k: usize| #[trigger] m.2.contains_key(k) ==> k < usize::MAX
}

/// Appends the `[overlay]` section of `groups` (nothing when there are none).
fn push_overlay_section(out: &mut Vec<char>, groups: &Vec<SlideGroupMeta>)
    requires
        forall|i: int|
            0 <= i < groups@.len() ==> (#[trigger] groups@[i]).start_page < usize::MAX
                && groups@[i].end_page < usize::MAX,
    ensures
        final(out)@ == old(out)@ + if groups@.len() > 0 {
            "[overlay]\n"@ + overlay_lines(groups@)
        } else {
            Seq::<char>::empty()
        },
{
    if groups.len() == 0 {
        assert(out@ =~= out@ + Seq::<char>::empty());
        return;
    }
    append_str(out, "[overlay]\n");
    let ghost start = out@;
    let mut i: usize = 0;
    while i < groups.len()
        invariant
            i <= groups@.len(),
            forall|i: int|
                0 <= i < groups@.len() ==> (#[trigger] groups@[i]).start_page < usize::MAX
                    && groups@[i].end_page < usize::MAX,
            out@ == start + overlay_lines(groups@.take(i as int)),
        decreases groups@.len() - i,
    {
        assert(groups@.take(i + 1).drop_last() =~= groups@.take(i as int));
        let g = &groups[i];
        assert(groups@[i as int] == *g);
        let a = decimal_chars((g.start_page + 1) as u64);
        append_chars(out, &a);
        out.push(' ');
        let b = decimal_chars((g.end_page + 1) as u64);
        append_chars(out, &b);
        out.push('\n');
        i += 1;
    }
    assert(groups@.take(groups@.len() as int) =~= groups@);
}

/// The notes of a page map, as character sequences.
pub open spec fn notes_model(notes: Map<usize, String>) -> Map<usize, Seq<char>> {
    notes.map_values(|s: String| s@)
}

/// Appends the `[notes]` section of `notes` (nothing when there are none).
fn push_notes_section(out: &mut Vec<char>, notes: &HashMap<usize, String>)
    requires
        forall|k: usize| #[trigger] notes@.contains_key(k) ==> k < usize::MAX,
    ensures
        final(out)@ == old(out)@ + if notes_model(notes@).len() > 0 {
            "[notes]\n"@ + note_blocks(in_order(notes_model(notes@).dom()), notes_model(notes@))
        } else {
            Seq::<char>::empty()
        },
{
    let ghost nm = notes_model(notes@);
    assert(nm.dom() =~= notes@.dom());
    if notes.len() == 0 {
        assert(out@ =~= out@ + Seq::<char>::empty());
        return;
    }
    append_str(out, "[notes]\n");
    let ghost start = out@;
    let pages = sorted_keys(notes);
    let mut i: usize = 0;
    while i < pages.len()
        invariant
            i <= pages@.len(),
            nm == notes_model(notes@),
            nm.dom() == notes@.dom(),
            forall|k: usize| #[trigger] notes@.contains_key(k) ==> k < usize::MAX,
            forall|x: usize| pages@.contains(x) <==> notes@.dom().contains(x),
            out@ == start + note_blocks(pages@.take(i as int), nm),
        decreases pages@.len() - i,
    {
        assert(pages@.take(i + 1).drop_last() =~= pages@.take(i as int));
        let p = pages[i];
        assert(pages@.contains(p));
        append_str(out, "### ");
        let digits = decimal_chars((p + 1) as u64);
        append_chars(out, &digits);
        out.push('\n');
        match notes.get(&p) {
            Some(note) => append_str(out, note.as_str()),
            None => {},
        }
        out.push('\n');
        i += 1;
    }
    assert(pages@.take(pages@.len() as int) =~= pages@);
}

/// The text of a `.pdfpc` file holding `metadata`.
pub fn pdfpc_text(metadata: &PdfpcMetadata) -> (r: String)
    requires
        pdfpc_pages_fit(pdfpc_view(*metadata)),
    ensures
        r@ == pdfpc_render(pdfpc_view(*metadata)),
{
    let ghost m = pdfpc_view(*metadata);
    assert(m.2 == notes_model(metadata.notes@));
    let mut out: Vec<char> = Vec::new();
    match &metadata.title {
        Some(title) => {
            append_str(&mut out, "[file]\n");
            append_str(&mut out, title.as_str());
            out.push('\n');
        },
        None => {},
    }
    let ghost file = out@;
    assert(file == match m.0 {
        Some(t) => ("[file]\n"@ + t).push('\n'),
        None => Seq::<char>::empty(),
    });
    match metadata.last_minutes {
        Some(minutes) => {
            append_str(&mut out, "[duration]\n");
            let digits = decimal_chars(minutes as u64);
            append_chars(&mut out, &digits);
            out.push('\n');
        },
        None => {},
    }
    let ghost with_duration = out@;
    assert(with_duration == file + match m.4 {
        Some(v) => ("[duration]\n"@ + decimal(v as nat)).push('\n'),
        None => Seq::<char>::empty(),
    });
    match metadata.end_slide {
        Some(end) => {
            append_str(&mut out, "[end_slide]\n");
            let digits = decimal_chars((end + 1) as u64);
            append_chars(&mut out, &digits);
            out.push('\n');
        },
        None => {},
    }
    let ghost head = out@;
    assert(head == with_duration + match m.3 {
        Some(e) => ("[end_slide]\n"@ + decimal((e + 1) as nat)).push('\n'),
        None => Seq::<char>::empty(),
    });
    assert(m.1 == metadata.groups@);
    assert forall|k: usize| #[trigger] metadata.notes@.contains_key(k) implies k < usize::MAX by {
        assert(m.2.contains_key(k));
    }
    push_overlay_section(&mut out, &metadata.groups);
    push_notes_section(&mut out, &metadata.notes);
    string_of(&out)
}

/// The metadata embedded in a PDF as pdfpc text: none when there is no text or
/// only blank text, or when it defines no groups, no notes and no end slide.
pub open spec fn embedded_metadata(raw: Option<Seq<char>>) -> Option<PdfpcModel> {
    match raw {
        None => None,
        Some(r) => {
            let data = trim(r);
            if data.len() == 0 {
                None
            } else {
                let m = pdfpc_metadata(data);
                if m.1.len() == 0 && m.2.len() == 0 && m.3 is None {
                    None
                } else {
                    Some(m)
                }
            }
        },
    }
}

pub open spec fn opt_text(raw: Option<&str>) -> Option<Seq<char>> {
    match raw {
        Some(s) => Some(s@),
        None => None,
    }
}

/// Attempt to extract pdfpc-compatible metadata from a raw pdfpc-format string
/// embedded in a PDF's info dictionary (typically the "pdfpc" or "pdfpcFormat" key).
///
/// Returns `None` if the input is empty or defines nothing useful.
pub fn extract_embedded_metadata(raw_pdfpc_data: Option<&str>) -> (r: Option<PdfpcMetadata>)
    ensures
        match r {
            Some(m) => embedded_metadata(opt_text(raw_pdfpc_data)) == Some(pdfpc_view(m)),
            None => embedded_metadata(opt_text(raw_pdfpc_data)) is None,
        },
{
    let raw = match raw_pdfpc_data {
        Some(s) => s,
        None => {
            return None;
        },
    };
    let chars = chars_of(raw);
    let data = trim_chars(&chars);
    if data.len() == 0 {
        return None;
    }
    let text = string_of(&data);
    let meta = parse_pdfpc(text.as_str());
    if meta.groups.len() == 0 && meta.notes.len() == 0 && meta.end_slide.is_none() {
        assert(pdfpc_view(meta).2.dom() =~= meta.notes@.dom());
        return None;
    }
    assert(pdfpc_view(meta).2.dom() =~= meta.notes@.dom());
    Some(meta)
}

// ---------------------------------------------------------------------------
// What the writer writes, the reader reads back
// ---------------------------------------------------------------------------

/// A title that reads back as written: one trimmed, non-empty line that is not
/// a section header.
pub open spec fn title_reads_back(t: Seq<char>) -> bool {
    &&& t.len() > 0
    &&& trim(t) == t
    &&& !t.contains('\n')
    &&& !is_section_header(t)
}

/// A line of a note that the reader keeps as note text: no `\r` before its line
/// break and, trimmed, neither a section header nor a `### ` heading.
pub open spec fn note_line_reads_back(l: Seq<char>) -> bool {
    let t = trim(l);
    &&& !(l.len() > 0 && l.last() == '\r')
    &&& !is_section_header(t)
    &&& !(t.len() >= 4 && t.take(4) == "### "@)
}

/// A note that reads back as written: trimmed, non-empty, every line kept.
pub open spec fn note_reads_back(n: Seq<char>) -> bool {
    &&& n.len() > 0
    &&& trim(n) == n
    &&& forall|i: int|
        0 <= i < split_on(n, '\n').len() ==> note_line_reads_back(
            #[trigger] split_on(n, '\n')[i],
        )
}

/// Metadata that its pdfpc text holds exactly.
pub open spec fn pdfpc_reads_back(m: PdfpcModel) -> bool {
    &&& pdfpc_pages_fit(m)
    &&& m.2.dom().finite()
    &&& (m.0 matches Some(t) ==> title_reads_back(t))
    &&& forall|k: usize| #[trigger] m.2.contains_key(k) ==> note_reads_back(m.2[k])
}

spec fn group_line(g: SlideGroupMeta) -> Seq<char> {
    decimal((g.start_page + 1) as nat).push(' ') + decimal((g.end_page + 1) as nat)
}

spec fn group_lines(gs: Seq<SlideGroupMeta>) -> Seq<Seq<char>>
    decreases gs.len(),
{
    if gs.len() == 0 {
        seq![]
    } else {
        group_lines(gs.drop_last()).push(group_line(gs.last()))
    }
}

spec fn heading_line(p: usize) -> Seq<char> {
    "### "@ + decimal((p + 1) as nat)
}

spec fn note_lines(pages: Seq<usize>, notes: Map<usize, Seq<char>>) -> Seq<Seq<char>>
    decreases pages.len(),
{
    if pages.len() == 0 {
        seq![]
    } else {
        let p = pages.last();
        note_lines(pages.drop_last(), notes) + seq![heading_line(p)] + split_on(notes[p], '\n')
    }
}

spec fn file_lines(m: PdfpcModel) -> Seq<Seq<char>> {
    match m.0 {
        Some(t) => seq!["[file]"@, t],
        None => seq![],
    }
}

spec fn duration_lines(m: PdfpcModel) -> Seq<Seq<char>> {
    match m.4 {
        Some(v) => seq!["[duration]"@, decimal(v as nat)],
        None => seq![],
    }
}

spec fn end_lines(m: PdfpcModel) -> Seq<Seq<char>> {
    match m.3 {
        Some(e) => seq!["[end_slide]"@, decimal((e + 1) as nat)],
        None => seq![],
    }
}

spec fn overlay_section_lines(m: PdfpcModel) -> Seq<Seq<char>> {
    if m.1.len() > 0 {
        seq!["[overlay]"@] + group_lines(m.1)
    } else {
        seq![]
    }
}

spec fn notes_section_lines(m: PdfpcModel) -> Seq<Seq<char>> {
    if m.2.len() > 0 {
        seq!["[notes]"@] + note_lines(in_order(m.2.dom()), m.2)
    } else {
        seq![]
    }
}

/// The lines of the pdfpc text of `m`.
spec fn render_lines(m: PdfpcModel) -> Seq<Seq<char>> {
    file_lines(m) + duration_lines(m) + end_lines(m) + overlay_section_lines(m)
        + notes_section_lines(m)
}

proof fn lemma_join_two(a: Seq<char>, b: Seq<char>)
    ensures
        join_lines(seq![a, b]) == a.push('\n') + b.push('\n'),
{
    assert(seq![a, b].drop_last() =~= seq![a]);
    lemma_join_one_line(a);
}

proof fn lemma_overlay_join(gs: Seq<SlideGroupMeta>)
    ensures
        overlay_lines(gs) == join_lines(group_lines(gs)),
    decreases gs.len(),
{
    if gs.len() > 0 {
        lemma_overlay_join(gs.drop_last());
        let gl = group_lines(gs);
        assert(gl.drop_last() =~= group_lines(gs.drop_last()));
        assert(overlay_lines(gs) =~= overlay_lines(gs.drop_last()) + group_line(gs.last()).push(
            '\n',
        ));
    }
}

proof fn lemma_notes_join(pages: Seq<usize>, notes: Map<usize, Seq<char>>)
    ensures
        note_blocks(pages, notes) == join_lines(note_lines(pages, notes)),
    decreases pages.len(),
{
    if pages.len() > 0 {
        let q = pages.drop_last();
        let p = pages.last();
        lemma_notes_join(q, notes);
        lemma_join_lines_concat(note_lines(q, notes), seq![heading_line(p)]);
        lemma_join_lines_concat(
            note_lines(q, notes) + seq![heading_line(p)],
            split_on(notes[p], '\n'),
        );
        lemma_join_one_line(heading_line(p));
        lemma_split_on_lines(notes[p]);
        assert(note_blocks(pages, notes) =~= note_blocks(q, notes) + heading_line(p).push('\n')
            + notes[p].push('\n'));
    }
}

proof fn lemma_render_join(m: PdfpcModel)
    ensures
        pdfpc_render(m) == join_lines(render_lines(m)),
{
    reveal_strlit("[file]");
    reveal_strlit("[file]\n");
    reveal_strlit("[duration]");
    reveal_strlit("[duration]\n");
    reveal_strlit("[end_slide]");
    reveal_strlit("[end_slide]\n");
    reveal_strlit("[overlay]");
    reveal_strlit("[overlay]\n");
    reveal_strlit("[notes]");
    reveal_strlit("[notes]\n");
    let f = file_lines(m);
    let d = duration_lines(m);
    let e = end_lines(m);
    let o = overlay_section_lines(m);
    let n = notes_section_lines(m);
    lemma_join_lines_concat(f, d);
    lemma_join_lines_concat(f + d, e);
    lemma_join_lines_concat(f + d + e, o);
    lemma_join_lines_concat(f + d + e + o, n);
    let file = match m.0 {
        Some(t) => ("[file]\n"@ + t).push('\n'),
        None => Seq::<char>::empty(),
    };
    assert(join_lines(f) == file) by {
        match m.0 {
            Some(t) => {
                lemma_join_two("[file]"@, t);
                assert(("[file]\n"@ + t).push('\n') =~= "[file]"@.push('\n') + t.push('\n'));
            },
            None => {},
        }
    }
    let duration = match m.4 {
        Some(v) => ("[duration]\n"@ + decimal(v as nat)).push('\n'),
        None => Seq::<char>::empty(),
    };
    assert(join_lines(d) == duration) by {
        match m.4 {
            Some(v) => {
                lemma_join_two("[duration]"@, decimal(v as nat));
                assert(("[duration]\n"@ + decimal(v as nat)).push('\n') =~= "[duration]"@.push(
                    '\n',
                ) + decimal(v as nat).push('\n'));
            },
            None => {},
        }
    }
    let end = match m.3 {
        Some(x) => ("[end_slide]\n"@ + decimal((x + 1) as nat)).push('\n'),
        None => Seq::<char>::empty(),
    };
    assert(join_lines(e) == end) by {
        match m.3 {
            Some(x) => {
                lemma_join_two("[end_slide]"@, decimal((x + 1) as nat));
                assert(("[end_slide]\n"@ + decimal((x + 1) as nat)).push('\n') =~= "[end_slide]"@.push(
                    '\n',
                ) + decimal((x + 1) as nat).push('\n'));
            },
            None => {},
        }
    }
    assert(join_lines(o) == if m.1.len() > 0 {
        "[overlay]\n"@ + overlay_lines(m.1)
    } else {
        Seq::<char>::empty()
    }) by {
        if m.1.len() > 0 {
            lemma_join_lines_concat(seq!["[overlay]"@], group_lines(m.1));
            lemma_join_one_line("[overlay]"@);
            lemma_overlay_join(m.1);
            assert("[overlay]\n"@ =~= "[overlay]"@.push('\n'));
        }
    }
    assert(join_lines(n) == if m.2.len() > 0 {
        "[notes]\n"@ + note_blocks(in_order(m.2.dom()), m.2)
    } else {
        Seq::<char>::empty()
    }) by {
        if m.2.len() > 0 {
            lemma_join_lines_concat(seq!["[notes]"@], note_lines(in_order(m.2.dom()), m.2));
            lemma_join_one_line("[notes]"@);
            lemma_notes_join(in_order(m.2.dom()), m.2);
            assert("[notes]\n"@ =~= "[notes]"@.push('\n'));
        }
    }
}

/// The scan of `ls` from the state `s`.
spec fn scan_from(s: (PdfpcModel, PdfpcCursor), ls: Seq<Seq<char>>) -> (PdfpcModel, PdfpcCursor)
    decreases ls.len(),
{
    if ls.len() == 0 {
        s
    } else {
        let p = scan_from(s, ls.drop_last());
        pdfpc_step(p.0, p.1, ls.last())
    }
}

spec fn scan_start() -> (PdfpcModel, PdfpcCursor) {
    ((None, seq![], Map::empty(), None, None), (None, None, seq![]))
}

/// A cursor in section `sec` with no note being gathered.
spec fn idle(sec: Option<Seq<char>>) -> PdfpcCursor {
    (sec, None, seq![])
}

proof fn lemma_scan_start(ls: Seq<Seq<char>>)
    ensures
        pdfpc_scan(ls) == scan_from(scan_start(), ls),
    decreases ls.len(),
{
    if ls.len() > 0 {
        lemma_scan_start(ls.drop_last());
    }
}

proof fn lemma_scan_push(s: (PdfpcModel, PdfpcCursor), a: Seq<Seq<char>>, l: Seq<char>)
    ensures
        scan_from(s, a.push(l)) == pdfpc_step(scan_from(s, a).0, scan_from(s, a).1, l),
{
    assert(a.push(l).drop_last() =~= a);
}

proof fn lemma_scan_concat(s: (PdfpcModel, PdfpcCursor), a: Seq<Seq<char>>, b: Seq<Seq<char>>)
    ensures
        scan_from(s, a + b) == scan_from(scan_from(s, a), b),
    decreases b.len(),
{
    if b.len() == 0 {
        assert(a + b =~= a);
    } else {
        lemma_scan_concat(s, a, b.drop_last());
        assert((a + b).drop_last() =~= a + b.drop_last());
        assert((a + b).last() == b.last());
    }
}

proof fn lemma_scan_one(s: (PdfpcModel, PdfpcCursor), l: Seq<char>)
    ensures
        scan_from(s, seq![l]) == pdfpc_step(s.0, s.1, l),
{
    lemma_scan_push(s, Seq::<Seq<char>>::empty(), l);
    assert(Seq::<Seq<char>>::empty().push(l) =~= seq![l]);
}

proof fn lemma_scan_two(s: (PdfpcModel, PdfpcCursor), a: Seq<char>, b: Seq<char>)
    ensures
        scan_from(s, seq![a, b]) == pdfpc_step(
            pdfpc_step(s.0, s.1, a).0,
            pdfpc_step(s.0, s.1, a).1,
            b,
        ),
{
    lemma_scan_one(s, a);
    lemma_scan_push(s, seq![a], b);
    assert(seq![a].push(b) =~= seq![a, b]);
}

/// A `[name]` line starts section `name`; with no note being gathered, nothing else changes.
proof fn lemma_header_line(m: PdfpcModel, c: PdfpcCursor, line: Seq<char>, name: Seq<char>)
    requires
        line.len() >= 2,
        line[0] == '[',
        line.last() == ']',
        line.subrange(1, line.len() - 1) == name,
        c.1 is None,
    ensures
        pdfpc_step(m, c, line) == (m, (Some(name), None::<usize>, c.2)),
{
    lemma_trim_id(line);
}

/// A decimal number is a plain line of digits: its own trim, and no section header.
proof fn lemma_decimal_line(n: nat)
    ensures
        decimal(n).len() > 0,
        trim(decimal(n)) == decimal(n),
        !is_section_header(decimal(n)),
        plain_line(decimal(n)),
        !is_ws(decimal(n)[0]),
        !is_ws(decimal(n).last()),
        decimal(n)[0] != '+',
{
    let d = decimal(n);
    lemma_decimal_digits(n);
    assert(is_digit(d[0]));
    assert(is_digit(d[d.len() - 1]));
    lemma_trim_id(d);
    if d.contains('\n') {
        let w = choose|w: int| 0 <= w < d.len() && d[w] == '\n';
        assert(is_digit(d[w]));
    }
}

proof fn lemma_file_section(m: PdfpcModel, sec: Option<Seq<char>>, t: Seq<char>)
    requires
        title_reads_back(t),
    ensures
        scan_from((m, idle(sec)), seq!["[file]"@, t]) == ((Some(t), m.1, m.2, m.3, m.4), idle(
            Some("file"@),
        )),
{
    reveal_strlit("[file]");
    reveal_strlit("file");
    assert("[file]"@.subrange(1, 5) =~= "file"@);
    lemma_header_line(m, idle(sec), "[file]"@, "file"@);
    lemma_scan_two((m, idle(sec)), "[file]"@, t);
}

proof fn lemma_duration_section(m: PdfpcModel, sec: Option<Seq<char>>, v: u32)
    ensures
        scan_from((m, idle(sec)), seq!["[duration]"@, decimal(v as nat)]) == (
            (m.0, m.1, m.2, m.3, Some(v)),
            idle(Some("duration"@)),
        ),
{
    reveal_strlit("[duration]");
    reveal_strlit("duration");
    reveal_strlit("file");
    reveal_strlit("notes");
    reveal_strlit("overlay");
    assert("[duration]"@.subrange(1, 9) =~= "duration"@);
    lemma_header_line(m, idle(sec), "[duration]"@, "duration"@);
    lemma_scan_two((m, idle(sec)), "[duration]"@, decimal(v as nat));
    let d = decimal(v as nat);
    lemma_decimal_line(v as nat);
    lemma_decimal_digits(v as nat);
    assert(unsigned_digits(d) == d);
    assert(parse_unsigned(d, u32::MAX as int) == Some(v as int));
}

proof fn lemma_end_section(m: PdfpcModel, sec: Option<Seq<char>>, e: usize)
    requires
        e < usize::MAX,
    ensures
        scan_from((m, idle(sec)), seq!["[end_slide]"@, decimal((e + 1) as nat)]) == (
            (m.0, m.1, m.2, Some(e), m.4),
            idle(Some("end_slide"@)),
        ),
{
    reveal_strlit("[end_slide]");
    reveal_strlit("end_slide");
    reveal_strlit("file");
    reveal_strlit("notes");
    reveal_strlit("overlay");
    reveal_strlit("duration");
    assert("[end_slide]"@.subrange(1, 10) =~= "end_slide"@);
    lemma_header_line(m, idle(sec), "[end_slide]"@, "end_slide"@);
    lemma_scan_two((m, idle(sec)), "[end_slide]"@, decimal((e + 1) as nat));
    lemma_decimal_line((e + 1) as nat);
    lemma_parse_decimal((e + 1) as usize);
}

/// The digits of a decimal number hold no whitespace.
proof fn lemma_decimal_no_ws(n: nat)
    ensures
        no_ws(decimal(n)),
        !decimal(n).contains('\n'),
{
    lemma_decimal_digits(n);
    let d = decimal(n);
    assert forall|i: int| 0 <= i < d.len() implies !is_ws(#[trigger] d[i]) by {
        assert(is_digit(d[i]));
    }
    if d.contains('\n') {
        let w = choose|w: int| 0 <= w < d.len() && d[w] == '\n';
        assert(is_digit(d[w]));
    }
}

/// The line of a group reads back as the group, and is a plain line.
proof fn lemma_group_line(g: SlideGroupMeta)
    requires
        g.start_page < usize::MAX,
        g.end_page < usize::MAX,
    ensures
        overlay_line_group(group_line(g)) == Some(g),
        trim(group_line(g)) == group_line(g),
        !is_section_header(group_line(g)),
        plain_line(group_line(g)),
{
    let a = decimal((g.start_page + 1) as nat);
    let b = decimal((g.end_page + 1) as nat);
    let l = group_line(g);
    lemma_decimal_line((g.start_page + 1) as nat);
    lemma_decimal_line((g.end_page + 1) as nat);
    lemma_decimal_no_ws((g.start_page + 1) as nat);
    lemma_decimal_no_ws((g.end_page + 1) as nat);
    lemma_split_ws_pair(a, b);
    lemma_parse_decimal((g.start_page + 1) as usize);
    lemma_parse_decimal((g.end_page + 1) as usize);
    assert(l[0] == a[0]);
    assert(l.last() == b.last());
    lemma_trim_id(l);
    if l.contains('\n') {
        let w = choose|w: int| 0 <= w < l.len() && l[w] == '\n';
        if w < a.len() {
            assert(a[w] == '\n');
            assert(a.contains('\n'));
        } else if w > a.len() {
            assert(b[w - a.len() - 1] == '\n');
            assert(b.contains('\n'));
        }
    }
}

proof fn lemma_group_lines(m: PdfpcModel, gs: Seq<SlideGroupMeta>)
    requires
        forall|i: int|
            0 <= i < gs.len() ==> (#[trigger] gs[i]).start_page < usize::MAX && gs[i].end_page
                < usize::MAX,
    ensures
        scan_from((m, idle(Some("overlay"@))), group_lines(gs)) == (
            (m.0, m.1 + gs, m.2, m.3, m.4),
            idle(Some("overlay"@)),
        ),
        all_plain(group_lines(gs)),
    decreases gs.len(),
{
    reveal_strlit("overlay");
    reveal_strlit("file");
    reveal_strlit("notes");
    if gs.len() == 0 {
        assert(m.1 + gs =~= m.1);
        assert(group_lines(gs) =~= Seq::<Seq<char>>::empty());
    } else {
        let q = gs.drop_last();
        let g = gs.last();
        assert(g == gs[gs.len() - 1]);
        lemma_group_lines(m, q);
        lemma_scan_push((m, idle(Some("overlay"@))), group_lines(q), group_line(g));
        lemma_group_line(g);
        assert(group_lines(gs) == group_lines(q).push(group_line(g)));
        let prev = scan_from((m, idle(Some("overlay"@))), group_lines(q));
        assert(prev.1 == idle(Some("overlay"@)));
        let st = pdfpc_step(prev.0, prev.1, group_line(g));
        assert(setting_step(prev.0, "overlay"@, group_line(g)) == (m.0, (m.1 + q).push(g), m.2, m.3, m.4));
        assert(!is_section_header(trim(group_line(g))));
        assert("overlay"@.len() == 7);
        assert("overlay"@ != "file"@);
        assert("overlay"@ != "notes"@);
        assert(st == (setting_step(prev.0, "overlay"@, group_line(g)), prev.1));
        assert(m.1 + q.push(g) =~= m.1 + gs);
        assert(q.push(g) =~= gs);
        let gl = group_lines(gs);
        assert forall|i: int| 0 <= i < gl.len() implies plain_line(#[trigger] gl[i]) by {
            if i < gl.len() - 1 {
                assert(gl[i] == group_lines(q)[i]);
            }
        }
    }
}

proof fn lemma_overlay_section(m: PdfpcModel, sec: Option<Seq<char>>, gs: Seq<SlideGroupMeta>)
    requires
        forall|i: int|
            0 <= i < gs.len() ==> (#[trigger] gs[i]).start_page < usize::MAX && gs[i].end_page
                < usize::MAX,
    ensures
        scan_from((m, idle(sec)), seq!["[overlay]"@] + group_lines(gs)) == (
            (m.0, m.1 + gs, m.2, m.3, m.4),
            idle(Some("overlay"@)),
        ),
        all_plain(seq!["[overlay]"@] + group_lines(gs)),
{
    reveal_strlit("[overlay]");
    reveal_strlit("overlay");
    assert("[overlay]"@.subrange(1, 8) =~= "overlay"@);
    lemma_header_line(m, idle(sec), "[overlay]"@, "overlay"@);
    lemma_scan_concat((m, idle(sec)), seq!["[overlay]"@], group_lines(gs));
    lemma_scan_one((m, idle(sec)), "[overlay]"@);
    lemma_group_lines(m, gs);
    let all = seq!["[overlay]"@] + group_lines(gs);
    assert forall|i: int| 0 <= i < all.len() implies plain_line(#[trigger] all[i]) by {
        if i > 0 {
            assert(all[i] == group_lines(gs)[i - 1]);
        } else {
            assert(!"[overlay]"@.contains('\n'));
        }
    }
}

/// `base` with the notes of `pages` stored, in order.
spec fn insert_notes(base: Map<usize, Seq<char>>, pages: Seq<usize>, notes: Map<usize, Seq<char>>) -> Map<
    usize,
    Seq<char>,
>
    decreases pages.len(),
{
    if pages.len() == 0 {
        base
    } else {
        insert_notes(base, pages.drop_last(), notes).insert(pages.last(), notes[pages.last()])
    }
}

/// The note text gathered so far, followed by the separator for the next line.
spec fn sep(pre: Seq<char>) -> Seq<char> {
    if pre.len() > 0 {
        pre.push('\n')
    } else {
        pre
    }
}

/// Reading the lines of a note adds the note to the text being gathered.
proof fn lemma_note_body(m: PdfpcModel, p: usize, pre: Seq<char>, n: Seq<char>)
    requires
        forall|i: int|
            0 <= i < split_on(n, '\n').len() ==> note_line_reads_back(
                #[trigger] split_on(n, '\n')[i],
            ),
        pre.len() > 0 || !(n.len() > 0 && n[0] == '\n'),
    ensures
        scan_from((m, (Some("notes"@), Some(p), pre)), split_on(n, '\n')) == (
            m,
            (Some("notes"@), Some(p), sep(pre) + n),
        ),
    decreases n.len(),
{
    reveal_strlit("notes");
    reveal_strlit("file");
    let s0 = (m, (Some("notes"@), Some(p), pre));
    lemma_find_char(n, '\n');
    match find_char(n, '\n') {
        Some(i) => {
            let a = n.take(i);
            let b = n.skip(i + 1);
            let sp = split_on(n, '\n');
            assert(sp == seq![a] + split_on(b, '\n'));
            assert(sp[0] == a);
            assert(note_line_reads_back(sp[0]));
            lemma_scan_concat(s0, seq![a], split_on(b, '\n'));
            lemma_scan_one(s0, a);
            let pre2 = sep(pre) + a;
            assert("notes"@.len() == 5 && "file"@.len() == 4);
            assert("notes"@ != "file"@);
            assert(notes_step(m, s0.1, trim(a), a) == (m, (Some("notes"@), Some(p), pre2)));
            assert(pdfpc_step(m, s0.1, a) == (m, (Some("notes"@), Some(p), pre2)));
            if pre.len() == 0 {
                assert(n[0] != '\n');
                assert(i > 0);
                assert(a.len() > 0);
            }
            assert forall|j: int| 0 <= j < split_on(b, '\n').len() implies note_line_reads_back(
                #[trigger] split_on(b, '\n')[j],
            ) by {
                assert(sp[j + 1] == split_on(b, '\n')[j]);
            }
            lemma_note_body(m, p, pre2, b);
            assert(n =~= a.push('\n') + b);
            assert(sep(pre2) + b =~= sep(pre) + n);
        },
        None => {
            let sp = split_on(n, '\n');
            assert(sp =~= seq![n]);
            assert(note_line_reads_back(sp[0]));
            assert("notes"@.len() == 5 && "file"@.len() == 4);
            assert("notes"@ != "file"@);
            lemma_scan_one(s0, n);
        },
    }
}

/// A `### n` heading line: plain, its own trim, and read as the heading of page `p`.
proof fn lemma_heading_line(p: usize)
    requires
        p < usize::MAX,
    ensures
        plain_line(heading_line(p)),
        trim(heading_line(p)) == heading_line(p),
        !is_section_header(heading_line(p)),
        heading_line(p).len() >= 4,
        heading_line(p).take(4) == "### "@,
        parse_usize_spec(trim(heading_line(p).skip(4))) == Some((p + 1) as usize),
{
    reveal_strlit("### ");
    let d = decimal((p + 1) as nat);
    let h = heading_line(p);
    lemma_decimal_line((p + 1) as nat);
    lemma_decimal_no_ws((p + 1) as nat);
    lemma_parse_decimal((p + 1) as usize);
    assert(h.take(4) =~= "### "@);
    assert(h.skip(4) =~= d);
    assert(h.last() == d.last());
    lemma_trim_id(h);
    if h.contains('\n') {
        let w = choose|w: int| 0 <= w < h.len() && h[w] == '\n';
        assert(w >= 4);
        assert(d[w - 4] == '\n');
        assert(d.contains('\n'));
    }
}

/// Pages whose notes read back, each with a one-based number that fits.
spec fn pages_read_back(pages: Seq<usize>, notes: Map<usize, Seq<char>>) -> bool {
    forall|i: int|
        0 <= i < pages.len() ==> #[trigger] pages[i] < usize::MAX && notes.contains_key(pages[i])
            && note_reads_back(notes[pages[i]])
}

proof fn lemma_note_blocks(m: PdfpcModel, pages: Seq<usize>, notes: Map<usize, Seq<char>>)
    requires
        pages_read_back(pages, notes),
    ensures
        pages.len() == 0 ==> scan_from((m, idle(Some("notes"@))), note_lines(pages, notes)) == (
            m,
            idle(Some("notes"@)),
        ),
        pages.len() > 0 ==> scan_from((m, idle(Some("notes"@))), note_lines(pages, notes)) == (
            (m.0, m.1, insert_notes(m.2, pages.drop_last(), notes), m.3, m.4),
            (Some("notes"@), Some(pages.last()), notes[pages.last()]),
        ),
    decreases pages.len(),
{
    reveal_strlit("notes");
    reveal_strlit("file");
    let start = (m, idle(Some("notes"@)));
    if pages.len() > 0 {
        let q = pages.drop_last();
        let p = pages.last();
        let n = notes[p];
        assert(pages[pages.len() - 1] == p);
        assert(pages_read_back(q, notes)) by {
            assert forall|i: int| 0 <= i < q.len() implies #[trigger] q[i] < usize::MAX
                && notes.contains_key(q[i]) && note_reads_back(notes[q[i]]) by {
                assert(q[i] == pages[i]);
            }
        }
        lemma_note_blocks(m, q, notes);
        let h = heading_line(p);
        lemma_heading_line(p);
        let st1 = scan_from(start, note_lines(q, notes));
        let mq = (m.0, m.1, insert_notes(m.2, q, notes), m.3, m.4);
        assert(flush_note(st1.0, st1.1) == (mq, idle(Some("notes"@)))) by {
            if q.len() > 0 {
                let r = q.last();
                assert(q[q.len() - 1] == r);
                assert(trim(notes[r]) == notes[r]);
            } else {
                assert(insert_notes(m.2, q, notes) == m.2);
            }
        }
        lemma_scan_push(start, note_lines(q, notes), h);
        let st2 = (mq, (Some("notes"@), Some(p), Seq::<char>::empty()));
        assert("notes"@.len() == 5 && "file"@.len() == 4);
            assert("notes"@ != "file"@);
        assert(st1.1.0 == Some("notes"@));
        assert(notes_step(st1.0, st1.1, trim(h), h) == st2);
        assert(pdfpc_step(st1.0, st1.1, h) == st2);
        assert(pages_read_back(pages, notes));
        assert(notes.contains_key(p) && note_reads_back(n));
        lemma_trimmed_ends(n);
        lemma_note_body(mq, p, Seq::<char>::empty(), n);
        lemma_scan_concat(start, note_lines(q, notes).push(h), split_on(n, '\n'));
        assert(note_lines(q, notes).push(h) =~= note_lines(q, notes) + seq![h]);
        assert(note_lines(pages, notes) == note_lines(q, notes) + seq![h] + split_on(n, '\n'));
        assert(sep(Seq::<char>::empty()) + n =~= n);
    }
}

proof fn lemma_insert_notes(base: Map<usize, Seq<char>>, pages: Seq<usize>, notes: Map<usize, Seq<char>>)
    ensures
        forall|k: usize| #[trigger]
            insert_notes(base, pages, notes).contains_key(k) <==> (base.contains_key(k)
                || pages.contains(k)),
        forall|k: usize| pages.contains(k) ==> #[trigger] insert_notes(base, pages, notes)[k] == notes[k],
    decreases pages.len(),
{
    if pages.len() > 0 {
        let q = pages.drop_last();
        let p = pages.last();
        lemma_insert_notes(base, q, notes);
        assert(insert_notes(base, pages, notes) == insert_notes(base, q, notes).insert(p, notes[p]));
        assert forall|k: usize| pages.contains(k) <==> (q.contains(k) || k == p) by {
            if pages.contains(k) {
                let i = choose|i: int| 0 <= i < pages.len() && pages[i] == k;
                if i < q.len() {
                    assert(q[i] == k);
                }
            }
            if q.contains(k) {
                let i = choose|i: int| 0 <= i < q.len() && q[i] == k;
                assert(pages[i] == k);
            }
            if k == p {
                assert(pages[pages.len() - 1] == k);
            }
        }
        let r = insert_notes(base, pages, notes);
        assert forall|k: usize| #[trigger] r.contains_key(k) <==> (base.contains_key(k)
            || pages.contains(k)) by {
            assert(pages.contains(k) <==> (q.contains(k) || k == p));
        }
        assert forall|k: usize| pages.contains(k) implies #[trigger] r[k] == notes[k] by {
            assert(q.contains(k) || k == p);
        }
    }
}

proof fn lemma_all_plain_concat(a: Seq<Seq<char>>, b: Seq<Seq<char>>)
    requires
        all_plain(a),
        all_plain(b),
    ensures
        all_plain(a + b),
{
    assert forall|i: int| 0 <= i < (a + b).len() implies plain_line(#[trigger] (a + b)[i]) by {
        if i < a.len() {
            assert((a + b)[i] == a[i]);
        } else {
            assert((a + b)[i] == b[i - a.len()]);
        }
    }
}

/// A line with a non-whitespace character at each end and no `\n` is plain.
proof fn lemma_plain_literal(l: Seq<char>)
    requires
        l.len() > 0,
        !l.contains('\n'),
        !is_ws(l.last()),
    ensures
        plain_line(l),
{
}

proof fn lemma_note_lines_plain(pages: Seq<usize>, notes: Map<usize, Seq<char>>)
    requires
        pages_read_back(pages, notes),
    ensures
        all_plain(note_lines(pages, notes)),
    decreases pages.len(),
{
    if pages.len() > 0 {
        let q = pages.drop_last();
        let p = pages.last();
        assert(pages[pages.len() - 1] == p);
        assert(pages_read_back(q, notes)) by {
            assert forall|i: int| 0 <= i < q.len() implies #[trigger] q[i] < usize::MAX
                && notes.contains_key(q[i]) && note_reads_back(notes[q[i]]) by {
                assert(q[i] == pages[i]);
            }
        }
        lemma_note_lines_plain(q, notes);
        lemma_heading_line(p);
        let n = notes[p];
        lemma_split_on_lines(n);
        let sp = split_on(n, '\n');
        assert(all_plain(sp)) by {
            assert forall|i: int| 0 <= i < sp.len() implies plain_line(#[trigger] sp[i]) by {
                assert(note_line_reads_back(sp[i]));
            }
        }
        lemma_one_plain(heading_line(p));
        lemma_all_plain_concat(note_lines(q, notes), seq![heading_line(p)]);
        lemma_all_plain_concat(note_lines(q, notes) + seq![heading_line(p)], sp);
    }
}

proof fn lemma_one_plain(a: Seq<char>)
    requires
        plain_line(a),
    ensures
        all_plain(seq![a]),
{
    let l = seq![a];
    assert forall|i: int| 0 <= i < l.len() implies plain_line(#[trigger] l[i]) by {
        assert(l[i] == a);
    }
}

proof fn lemma_two_plain(a: Seq<char>, b: Seq<char>)
    requires
        plain_line(a),
        plain_line(b),
    ensures
        all_plain(seq![a, b]),
{
    let l = seq![a, b];
    assert forall|i: int| 0 <= i < l.len() implies plain_line(#[trigger] l[i]) by {
        if i == 0 {
            assert(l[i] == a);
        } else {
            assert(l[i] == b);
        }
    }
}

/// Every line of the text of `m` is plain.
proof fn lemma_render_plain(m: PdfpcModel)
    requires
        pdfpc_reads_back(m),
    ensures
        all_plain(render_lines(m)),
{
    reveal_strlit("[file]");
    reveal_strlit("[duration]");
    reveal_strlit("[end_slide]");
    reveal_strlit("[notes]");
    let f = file_lines(m);
    let d = duration_lines(m);
    let e = end_lines(m);
    let o = overlay_section_lines(m);
    let n = notes_section_lines(m);
    assert(all_plain(f)) by {
        match m.0 {
            Some(t) => {
                lemma_trimmed_ends(t);
                lemma_plain_literal("[file]"@);
                lemma_two_plain("[file]"@, t);
            },
            None => {},
        }
    }
    assert(all_plain(d)) by {
        match m.4 {
            Some(v) => {
                lemma_decimal_line(v as nat);
                lemma_plain_literal("[duration]"@);
                lemma_two_plain("[duration]"@, decimal(v as nat));
            },
            None => {},
        }
    }
    assert(all_plain(e)) by {
        match m.3 {
            Some(x) => {
                lemma_decimal_line((x + 1) as nat);
                lemma_plain_literal("[end_slide]"@);
                lemma_two_plain("[end_slide]"@, decimal((x + 1) as nat));
            },
            None => {},
        }
    }
    assert(all_plain(o)) by {
        if m.1.len() > 0 {
            lemma_overlay_section(m, None, m.1);
        }
    }
    assert(all_plain(n)) by {
        if m.2.len() > 0 {
            let pages = in_order(m.2.dom());
            lemma_in_order_finite(m.2.dom());
            assert(pages_read_back(pages, m.2)) by {
                assert forall|i: int| 0 <= i < pages.len() implies #[trigger] pages[i] < usize::MAX
                    && m.2.contains_key(pages[i]) && note_reads_back(m.2[pages[i]]) by {
                    let k = pages[i];
                    assert(pages.contains(k));
                    assert(m.2.dom().contains(k));
                    assert(m.2.contains_key(k));
                    assert(pdfpc_pages_fit(m));
                    assert(k < usize::MAX);
                    assert(note_reads_back(m.2[k]));
                }
            }
            lemma_note_lines_plain(pages, m.2);
            lemma_plain_literal("[notes]"@);
            lemma_one_plain("[notes]"@);
            lemma_all_plain_concat(seq!["[notes]"@], note_lines(pages, m.2));
        }
    }
    lemma_all_plain_concat(f, d);
    lemma_all_plain_concat(f + d, e);
    lemma_all_plain_concat(f + d + e, o);
    lemma_all_plain_concat(f + d + e + o, n);
}

proof fn lemma_notes_section(m: PdfpcModel, sec: Option<Seq<char>>, notes: Map<usize, Seq<char>>)
    requires
        notes.dom().finite(),
        notes.len() > 0,
        forall|k: usize| #[trigger]
            notes.contains_key(k) ==> k < usize::MAX && note_reads_back(notes[k]),
    ensures
        ({
            let st = scan_from(
                (m, idle(sec)),
                seq!["[notes]"@] + note_lines(in_order(notes.dom()), notes),
            );
            flush_note(st.0, st.1).0 == (m.0, m.1, insert_notes(m.2, in_order(notes.dom()), notes), m.3, m.4)
        }),
{
    reveal_strlit("[notes]");
    reveal_strlit("notes");
    let pages = in_order(notes.dom());
    lemma_in_order_finite(notes.dom());
    assert(pages_read_back(pages, notes)) by {
        assert forall|i: int| 0 <= i < pages.len() implies #[trigger] pages[i] < usize::MAX
            && notes.contains_key(pages[i]) && note_reads_back(notes[pages[i]]) by {
            let k = pages[i];
            assert(pages.contains(k));
            assert(notes.dom().contains(k));
        }
    }
    let k0 = notes.dom().choose();
    assert(notes.dom().contains(k0));
    assert(pages.contains(k0));
    assert(pages.len() > 0);
    assert("[notes]"@.subrange(1, 6) =~= "notes"@);
    lemma_header_line(m, idle(sec), "[notes]"@, "notes"@);
    lemma_scan_concat((m, idle(sec)), seq!["[notes]"@], note_lines(pages, notes));
    lemma_scan_one((m, idle(sec)), "[notes]"@);
    lemma_note_blocks(m, pages, notes);
    let last = pages.last();
    assert(pages[pages.len() - 1] == last);
    assert(trim(notes[last]) == notes[last]);
}

/// What the pdfpc writer writes, the pdfpc reader reads back: title, overlay
/// groups, notes, end slide and duration, for metadata whose title and notes the
/// format can hold as they are (see `pdfpc_reads_back`).
pub proof fn law_pdfpc_text_reads_back(m: PdfpcModel)
    requires
        pdfpc_reads_back(m),
    ensures
        pdfpc_metadata(pdfpc_render(m)) == m,
{
    let ls = render_lines(m);
    lemma_render_join(m);
    lemma_render_plain(m);
    lemma_lines_join(ls);
    lemma_scan_start(ls);
    let f = file_lines(m);
    let d = duration_lines(m);
    let e = end_lines(m);
    let o = overlay_section_lines(m);
    let n = notes_section_lines(m);
    let s0 = scan_start();
    lemma_scan_concat(s0, f + d + e + o, n);
    lemma_scan_concat(s0, f + d + e, o);
    lemma_scan_concat(s0, f + d, e);
    lemma_scan_concat(s0, f, d);
    let empty_notes = Map::<usize, Seq<char>>::empty();
    // after `[file]`
    let s1 = scan_from(s0, f);
    assert(s1.0 == (m.0, Seq::<SlideGroupMeta>::empty(), empty_notes, None::<usize>, None::<u32>)
        && s1.1.1 is None && s1.1.2 == Seq::<char>::empty()) by {
        match m.0 {
            Some(t) => lemma_file_section(s0.0, None, t),
            None => {},
        }
    }
    // after `[duration]`
    let s2 = scan_from(s1, d);
    assert(s2.0 == (m.0, Seq::<SlideGroupMeta>::empty(), empty_notes, None::<usize>, m.4)
        && s2.1.1 is None && s2.1.2 == Seq::<char>::empty()) by {
        match m.4 {
            Some(v) => lemma_duration_section(s1.0, s1.1.0, v),
            None => {},
        }
    }
    // after `[end_slide]`
    let s3 = scan_from(s2, e);
    assert(s3.0 == (m.0, Seq::<SlideGroupMeta>::empty(), empty_notes, m.3, m.4) && s3.1.1 is None
        && s3.1.2 == Seq::<char>::empty()) by {
        match m.3 {
            Some(x) => lemma_end_section(s2.0, s2.1.0, x),
            None => {},
        }
    }
    // after `[overlay]`
    let s4 = scan_from(s3, o);
    assert(s4.0 == (m.0, m.1, empty_notes, m.3, m.4) && s4.1.1 is None && s4.1.2
        == Seq::<char>::empty()) by {
        if m.1.len() > 0 {
            lemma_overlay_section(s3.0, s3.1.0, m.1);
            assert(Seq::<SlideGroupMeta>::empty() + m.1 =~= m.1);
        } else {
            assert(m.1 =~= Seq::<SlideGroupMeta>::empty());
        }
    }
    // after `[notes]`, and the last note stored
    let s5 = scan_from(s4, n);
    assert(flush_note(s5.0, s5.1).0 == m) by {
        if m.2.len() > 0 {
            assert forall|k: usize| #[trigger] m.2.contains_key(k) implies k < usize::MAX
                && note_reads_back(m.2[k]) by {}
            lemma_notes_section(s4.0, s4.1.0, m.2);
            let pages = in_order(m.2.dom());
            lemma_in_order_finite(m.2.dom());
            lemma_insert_notes(empty_notes, pages, m.2);
            assert(insert_notes(empty_notes, pages, m.2) =~= m.2);
        } else {
            assert(m.2.dom() =~= Set::<usize>::empty()) by {
                assert forall|k: usize| !m.2.dom().contains(k) by {
                    if m.2.dom().contains(k) {
                        assert(m.2.dom().remove(k).len() + 1 == m.2.dom().len());
                    }
                }
            }
            assert(m.2 =~= empty_notes);
        }
    }
    assert(ls == f + d + e + o + n);
}

} // verus!
