//! Annotated export: formats, layers, artifact names, Typst source snippets, and
//! the cache of rendered text boxes.
use std::collections::hash_map::DefaultHasher;
use std::hash::Hasher;

use crate::document::DocumentError;
use crate::sidecar::io_error_text;
use crate::slide_group::SlideGroupMeta;
use crate::text::{
    append_chars, append_str, chars_of, decimal, decimal_chars, string_of, zero_padded,
    zero_padded_chars,
};
use vstd::prelude::*;
use vstd::std_specs::hash::DefaultHasherAdditionalSpecFns;
use vstd::string::StringSliceAdditionalSpecFns;

verus! {

/// Output format for annotated exports.
#[derive(Debug, Clone, Copy, PartialEq, Eq, Structural)]
pub enum ExportFormat {
    Pdf,
    Svg,
    Png,
}

/// Content layers to include in the export.
#[derive(Debug, Clone, Copy, PartialEq, Eq, Structural)]
pub enum ExportLayers {
    /// Source PDF pages only.
    Background,
    /// Slide ink only.
    Ink,
    /// Text boxes only.
    Text,
    /// Slide ink and text boxes without source PDF pages.
    Overlays,
    /// Source PDF pages, slide ink, and text boxes.
    All,
}

impl ExportLayers {
    /// Whether the source PDF pages are drawn.
    pub fn background(self) -> (r: bool)
        ensures
            r == (self == ExportLayers::Background || self == ExportLayers::All),
    {
        match self {
            ExportLayers::Background | ExportLayers::All => true,
            _ => false,
        }
    }

    /// Whether slide ink is drawn.
    pub fn ink(self) -> (r: bool)
        ensures
            r == (self == ExportLayers::Ink || self == ExportLayers::Overlays || self
                == ExportLayers::All),
    {
        match self {
            ExportLayers::Ink | ExportLayers::Overlays | ExportLayers::All => true,
            _ => false,
        }
    }

    /// Whether text boxes are drawn.
    pub fn text(self) -> (r: bool)
        ensures
            r == (self == ExportLayers::Text || self == ExportLayers::Overlays || self
                == ExportLayers::All),
    {
        match self {
            ExportLayers::Text | ExportLayers::Overlays | ExportLayers::All => true,
            _ => false,
        }
    }
}

/// Whiteboard export behavior.
#[derive(Debug, Clone, Copy, PartialEq, Eq, Structural)]
pub enum WhiteboardExport {
    /// The whiteboard is not exported.
    NoWhiteboard,
    /// The whiteboard follows the slides.
    Append,
    /// Only the whiteboard is exported.
    Only,
}

/// A rendered export artifact.
#[derive(Debug, Clone)]
pub struct ExportArtifact {
    pub name: String,
    pub bytes: Vec<u8>,
}

/// Errors produced while composing or exporting annotated slides.
#[derive(Debug)]
pub enum TypstExportError {
    /// The input PDF could not be read.
    ReadPdf(std::io::Error),
    /// The source PDF could not be opened for page geometry.
    OpenPdf(DocumentError),
    /// Typst compilation failed.
    Compile(String),
    /// Typst PDF serialization failed.
    Pdf(String),
    /// PNG serialization failed.
    Png(String),
}

impl TypstExportError {
    /// The human-readable message of the error.
    pub fn to_string(&self) -> (r: String)
        ensures
            match self {
                TypstExportError::ReadPdf(_) => crate::document::starts_with_text(
                    r@,
                    "failed to read source PDF: "@,
                ),
                TypstExportError::OpenPdf(_) => crate::document::starts_with_text(
                    r@,
                    "failed to open source PDF: "@,
                ),
                TypstExportError::Compile(m) => r@ == "Typst compilation failed: "@ + m@,
                TypstExportError::Pdf(m) => r@ == "Typst PDF export failed: "@ + m@,
                TypstExportError::Png(m) => r@ == "PNG export failed: "@ + m@,
            },
    {
        let mut out: Vec<char> = Vec::new();
        match self {
            TypstExportError::ReadPdf(e) => {
                append_str(&mut out, "failed to read source PDF: ");
                let ghost head = out@;
                let text = io_error_text(e);
                append_str(&mut out, text.as_str());
                assert(out@.take("failed to read source PDF: "@.len() as int) =~= head);
            },
            TypstExportError::OpenPdf(e) => {
                append_str(&mut out, "failed to open source PDF: ");
                let ghost head = out@;
                let text = e.to_string();
                append_str(&mut out, text.as_str());
                assert(out@.take("failed to open source PDF: "@.len() as int) =~= head);
            },
            TypstExportError::Compile(m) => {
                append_str(&mut out, "Typst compilation failed: ");
                append_str(&mut out, m.as_str());
            },
            TypstExportError::Pdf(m) => {
                append_str(&mut out, "Typst PDF export failed: ");
                append_str(&mut out, m.as_str());
            },
            TypstExportError::Png(m) => {
                append_str(&mut out, "PNG export failed: ");
                append_str(&mut out, m.as_str());
            },
        }
        string_of(&out)
    }
}

impl From<std::io::Error> for TypstExportError {
    fn from(e: std::io::Error) -> (r: Self) {
        TypstExportError::ReadPdf(e)
    }
}

impl vstd::std_specs::convert::FromSpecImpl<std::io::Error> for TypstExportError {
    open spec fn obeys_from_spec() -> bool {
        true
    }

    open spec fn from_spec(v: std::io::Error) -> Self {
        TypstExportError::ReadPdf(v)
    }
}

impl From<DocumentError> for TypstExportError {
    fn from(e: DocumentError) -> (r: Self) {
        TypstExportError::OpenPdf(e)
    }
}

impl vstd::std_specs::convert::FromSpecImpl<DocumentError> for TypstExportError {
    open spec fn obeys_from_spec() -> bool {
        true
    }

    open spec fn from_spec(v: DocumentError) -> Self {
        TypstExportError::OpenPdf(v)
    }
}

// ---------------------------------------------------------------------------
// Names and Typst snippets
// ---------------------------------------------------------------------------

/// The file name of the `index`-th exported page: `page-NNN.ext`, numbered from one.
pub open spec fn page_file_name(index: nat, extension: Seq<char>) -> Seq<char> {
    "page-"@ + zero_padded(index + 1, 3) + "."@ + extension
}

/// The file name of an exported page.
pub fn numbered_name(index: usize, extension: &str) -> (r: String)
    requires
        index < usize::MAX,
    ensures
        r@ == page_file_name(index as nat, extension@),
{
    let mut out: Vec<char> = Vec::new();
    append_str(&mut out, "page-");
    let digits = zero_padded_chars((index + 1) as u64, 3);
    append_chars(&mut out, &digits);
    append_str(&mut out, ".");
    append_str(&mut out, extension);
    string_of(&out)
}

/// A Typst color expression: `rgb(r, g, b, a)`.
pub open spec fn rgba_text(c: Seq<u8>) -> Seq<char> {
    "rgb("@ + decimal(c[0] as nat) + ", "@ + decimal(c[1] as nat) + ", "@ + decimal(c[2] as nat)
        + ", "@ + decimal(c[3] as nat) + ")"@
}

/// The Typst color of an RGBA value.
pub fn typst_rgba(rgba: [u8; 4]) -> (r: String)
    ensures
        r@ == rgba_text(rgba@),
{
    let mut out: Vec<char> = Vec::new();
    append_str(&mut out, "rgb(");
    let d0 = decimal_chars(rgba[0] as u64);
    append_chars(&mut out, &d0);
    append_str(&mut out, ", ");
    let d1 = decimal_chars(rgba[1] as u64);
    append_chars(&mut out, &d1);
    append_str(&mut out, ", ");
    let d2 = decimal_chars(rgba[2] as u64);
    append_chars(&mut out, &d2);
    append_str(&mut out, ", ");
    let d3 = decimal_chars(rgba[3] as u64);
    append_chars(&mut out, &d3);
    append_str(&mut out, ")");
    assert(out@ =~= rgba_text(rgba@));
    string_of(&out)
}

/// How one character is written inside a Typst string literal.
pub open spec fn escape_char(c: char) -> Seq<char> {
    if c == '\\' {
        seq!['\\', '\\']
    } else if c == '"' {
        seq!['\\', '"']
    } else if c == '\n' {
        seq!['\\', 'n']
    } else if c == '\r' {
        seq!['\\', 'r']
    } else if c == '\t' {
        seq!['\\', 't']
    } else {
        seq![c]
    }
}

/// The escaped characters of `s`.
pub open spec fn escaped(s: Seq<char>) -> Seq<char>
    decreases s.len(),
{
    if s.len() == 0 {
        seq![]
    } else {
        escaped(s.drop_last()) + escape_char(s.last())
    }
}

/// `s` as a Typst string literal: quoted, with `\`, `"`, and the line-break
/// and tab characters escaped.
pub open spec fn typst_quoted(s: Seq<char>) -> Seq<char> {
    seq!['"'] + escaped(s) + seq!['"']
}

/// `value` as a Typst string literal.
pub fn typst_string(value: &str) -> (r: String)
    ensures
        r@ == typst_quoted(value@),
{
    let chars = chars_of(value);
    let mut out: Vec<char> = Vec::new();
    out.push('"');
    let mut i: usize = 0;
    while i < chars.len()
        invariant
            i <= chars@.len(),
            out@ == seq!['"'] + escaped(chars@.take(i as int)),
        decreases chars@.len() - i,
    {
        assert(chars@.take(i + 1).drop_last() =~= chars@.take(i as int));
        let c = chars[i];
        if c == '\\' {
            out.push('\\');
            out.push('\\');
        } else if c == '"' {
            out.push('\\');
            out.push('"');
        } else if c == '\n' {
            out.push('\\');
            out.push('n');
        } else if c == '\r' {
            out.push('\\');
            out.push('r');
        } else if c == '\t' {
            out.push('\\');
            out.push('t');
        } else {
            out.push(c);
        }
        assert(out@ =~= seq!['"'] + escaped(chars@.take(i + 1)));
        i += 1;
    }
    assert(chars@.take(chars@.len() as int) =~= chars@);
    out.push('"');
    assert(out@ =~= typst_quoted(value@));
    string_of(&out)
}

/// `s` as a Typst string literal (see `typst_string`).
pub fn escape_typst_string(s: &str) -> (r: String)
    ensures
        r@ == typst_quoted(s@),
{
    typst_string(s)
}

/// The pages a handout shows: every page, or, when the slides are grouped, the
/// last page of each group that lies in the document.
pub open spec fn handout_pages(page_count: nat, groups: Seq<SlideGroupMeta>, handout: bool) -> Seq<
    usize,
>
    decreases groups.len(),
{
    if !handout || groups.len() == 0 {
        Seq::new(page_count, |i: int| i as usize)
    } else {
        last_pages(page_count, groups)
    }
}

/// The in-range last pages of the groups, in order.
pub open spec fn last_pages(page_count: nat, groups: Seq<SlideGroupMeta>) -> Seq<usize>
    decreases groups.len(),
{
    if groups.len() == 0 {
        seq![]
    } else {
        let prev = last_pages(page_count, groups.drop_last());
        if groups.last().end_page < page_count {
            prev.push(groups.last().end_page)
        } else {
            prev
        }
    }
}

/// The page indices to export.
pub fn selected_page_indices(page_count: usize, groups: &Vec<SlideGroupMeta>, handout: bool) -> (r:
    Vec<usize>)
    ensures
        r@ == handout_pages(page_count as nat, groups@, handout),
{
    if !handout || groups.len() == 0 {
        let mut r: Vec<usize> = Vec::new();
        let mut i: usize = 0;
        while i < page_count
            invariant
                i <= page_count,
                r@ == Seq::new(i as nat, |k: int| k as usize),
            decreases page_count - i,
        {
            r.push(i);
            assert(r@ =~= Seq::new((i + 1) as nat, |k: int| k as usize));
            i += 1;
        }
        return r;
    }
    let mut r: Vec<usize> = Vec::new();
    let mut k: usize = 0;
    while k < groups.len()
        invariant
            k <= groups@.len(),
            r@ == last_pages(page_count as nat, groups@.take(k as int)),
        decreases groups@.len() - k,
    {
        assert(groups@.take(k + 1).drop_last() =~= groups@.take(k as int));
        let g = groups[k];
        if g.end_page < page_count {
            r.push(g.end_page);
        }
        k += 1;
    }
    assert(groups@.take(groups@.len() as int) =~= groups@);
    r
}

// ---------------------------------------------------------------------------
// Rendered text boxes
// ---------------------------------------------------------------------------

/// A channel of a premultiplied-alpha pixel in straight alpha, rounded to nearest.
pub open spec fn unpremultiplied(channel: u8, alpha: u8) -> int {
    (channel * 255 + alpha / 2) / (alpha as int)
}

/// Converts one premultiplied channel to straight alpha.
pub fn unpremultiply_channel(channel: u8, alpha: u8) -> (r: u8)
    requires
        alpha > 0,
        unpremultiplied(channel, alpha) <= 255,
    ensures
        r == unpremultiplied(channel, alpha),
{
    let numerator: u16 = (channel as u16) * 255 + (alpha as u16) / 2;
    let value: u16 = numerator / (alpha as u16);
    value as u8
}

/// The hash of a string as `str::hash` feeds it to a fresh `DefaultHasher`: its
/// UTF-8 bytes, then the byte `0xff`.
pub open spec fn str_hash(s: &str) -> u64 {
    DefaultHasher::spec_finish(seq![s.spec_bytes(), seq![0xffu8]])
}

/// The `DefaultHasher` hash of a string.
pub fn hash_str(s: &str) -> (r: u64)
    ensures
        r == str_hash(s),
{
    let mut h = DefaultHasher::new();
    h.write(s.as_bytes());
    let end: [u8; 1] = [0xffu8];
    assert(end@ =~= seq![0xffu8]);
    h.write(end.as_slice());
    assert(h@ =~= seq![s.spec_bytes(), seq![0xffu8]]);
    h.finish()
}

/// RGBA bitmap output from a Typst render.
#[derive(Debug, Clone)]
pub struct RenderedTextBox {
    pub data: Vec<u8>,
    pub width: u32,
    pub height: u32,
}

/// An RGBA color in a cache key.
#[derive(Debug, Clone, Copy, PartialEq, Eq, Structural)]
pub struct KeyColor {
    pub r: u8,
    pub g: u8,
    pub b: u8,
    pub a: u8,
}

/// What a rendered text box depends on.
#[derive(Debug, Clone, Copy, PartialEq, Eq, Structural)]
pub struct CacheKey {
    pub content_hash: u64,
    pub prelude_hash: u64,
    pub width: u32,
    pub height: u32,
    pub font_size_bits: u32,
    pub color: KeyColor,
    pub background: Option<KeyColor>,
}

/// The key color of an RGBA value.
pub open spec fn key_color(c: Seq<u8>) -> KeyColor {
    KeyColor { r: c[0], g: c[1], b: c[2], a: c[3] }
}

/// Cache mapping (content, size, style) → rendered bitmap.
pub struct TextBoxRenderCache {
    entries: Vec<(CacheKey, RenderedTextBox)>,
}

/// The position of `key` among the entries, if present.
pub open spec fn key_position(v: Seq<(CacheKey, RenderedTextBox)>, key: CacheKey) -> Option<int> {
    if exists|i: int| 0 <= i < v.len() && v[i].0 == key {
        Some(choose|i: int| 0 <= i < v.len() && v[i].0 == key)
    } else {
        None
    }
}

impl TextBoxRenderCache {
    /// The entries, in insertion order.
    pub closed spec fn view(&self) -> Seq<(CacheKey, RenderedTextBox)> {
        self.entries@
    }

    /// No key appears twice.
    pub open spec fn wf(&self) -> bool {
        forall|i: int, j: int|
            0 <= i < j < self.view().len() ==> (#[trigger] self.view()[i]).0 != (
            #[trigger] self.view()[j]).0
    }

    /// An empty cache.
    pub fn new() -> (r: Self)
        ensures
            r.wf(),
            r.view().len() == 0,
    {
        TextBoxRenderCache { entries: Vec::new() }
    }

    /// The key of a text box render.
    pub fn key_for(
        content: &str,
        typst_prelude: &str,
        px_width: u32,
        px_height: u32,
        font_size_bits: u32,
        color: [u8; 4],
        background: Option<[u8; 4]>,
    ) -> (r: CacheKey)
        ensures
            r.content_hash == str_hash(content),
            r.prelude_hash == str_hash(typst_prelude),
            r.width == px_width,
            r.height == px_height,
            r.font_size_bits == font_size_bits,
            r.color == key_color(color@),
            r.background == match background {
                Some(b) => Some(key_color(b@)),
                None => None::<KeyColor>,
            },
    {
        CacheKey {
            content_hash: hash_str(content),
            prelude_hash: hash_str(typst_prelude),
            width: px_width,
            height: px_height,
            font_size_bits,
            color: KeyColor { r: color[0], g: color[1], b: color[2], a: color[3] },
            background: match background {
                Some(b) => Some(KeyColor { r: b[0], g: b[1], b: b[2], a: b[3] }),
                None => None,
            },
        }
    }

    fn find(&self, key: &CacheKey) -> (r: Option<usize>)
        ensures
            match r {
                Some(i) => i < self.view().len() && self.view()[i as int].0 == *key,
                None => forall|i: int| 0 <= i < self.view().len() ==> self.view()[i].0 != *key,
            },
    {
        let mut i: usize = 0;
        while i < self.entries.len()
            invariant
                i <= self.entries@.len(),
                forall|j: int| 0 <= j < i ==> self.entries@[j].0 != *key,
            decreases self.entries@.len() - i,
        {
            if self.entries[i].0 == *key {
                return Some(i);
            }
            i += 1;
        }
        None
    }

    /// The cached render for `key`, if any.
    pub fn get(&self, key: &CacheKey) -> (r: Option<&RenderedTextBox>)
        requires
            self.wf(),
        ensures
            match key_position(self.view(), *key) {
                Some(i) => r == Some(&self.view()[i].1),
                None => r is None,
            },
    {
        match self.find(key) {
            Some(i) => {
                assert(forall|j: int|
                    0 <= j < self.view().len() && self.view()[j].0 == *key ==> j == i);
                Some(&self.entries[i].1)
            },
            None => None,
        }
    }

    /// Caches a render under `key`, replacing any earlier one.
    pub fn insert(&mut self, key: CacheKey, rendered: RenderedTextBox)
        requires
            old(self).wf(),
        ensures
            final(self).wf(),
            key_position(final(self).view(), key) matches Some(i) && final(self).view()[i].1
                == rendered,
            forall|k: CacheKey|
                k != key ==> key_position(final(self).view(), k) == key_position(
                    old(self).view(),
                    k,
                ) && (key_position(old(self).view(), k) matches Some(i) ==> final(self).view()[i]
                    == old(self).view()[i]),
    {
        match self.find(&key) {
            Some(i) => {
                self.entries.set(i, (key, rendered));
                assert(self.view()[i as int].0 == key);
                assert forall|k: CacheKey| k != key implies key_position(self.view(), k)
                    == key_position(old(self).view(), k) by {
                    assert forall|j: int| 0 <= j < self.view().len() implies (self.view()[j].0 == k
                        <==> old(self).view()[j].0 == k) by {
                        if j == i {
                        } else {
                            assert(self.view()[j] == old(self).view()[j]);
                        }
                    }
                }
                assert(forall|j: int|
                    0 <= j < self.view().len() && self.view()[j].0 == key ==> j == i);
            },
            None => {
                self.entries.push((key, rendered));
                let ghost n = old(self).view().len() as int;
                assert(self.view()[n].0 == key);
                assert forall|k: CacheKey| k != key implies key_position(self.view(), k)
                    == key_position(old(self).view(), k) by {
                    assert forall|j: int| 0 <= j < n implies self.view()[j] == old(self).view()[j] by {}
                    if exists|j: int| 0 <= j < self.view().len() && self.view()[j].0 == k {
                        let j = choose|j: int| 0 <= j < self.view().len() && self.view()[j].0 == k;
                        assert(j < n);
                        assert(old(self).view()[j].0 == k);
                    }
                }
                assert(forall|j: int|
                    0 <= j < self.view().len() && self.view()[j].0 == key ==> j == n);
            },
        }
    }

    /// Remove all cached entries for a given content string (call after edit).
    pub fn invalidate(&mut self, content: &str)
        requires
            old(self).wf(),
        ensures
            final(self).wf(),
            final(self).view() == old(self).view().filter(other_content(str_hash(content))),
    {
        let h = hash_str(content);
        let ghost f = other_content(h);
        let mut rest: Vec<(CacheKey, RenderedTextBox)> = Vec::new();
        std::mem::swap(&mut rest, &mut self.entries);
        let ghost ov = rest@;
        assert(ov == old(self).view());
        let ghost mut i: int = 0;
        while rest.len() > 0
            invariant
                0 <= i <= ov.len(),
                rest@ == ov.skip(i),
                f == other_content(h),
                self.entries@ == ov.take(i).filter(f),
            decreases rest@.len(),
        {
            proof {
                reveal(Seq::filter);
                assert(ov.take(i + 1).drop_last() =~= ov.take(i));
                assert(ov.take(i + 1).last() == rest@[0]);
            }
            let e = rest.remove(0);
            if e.0.content_hash != h {
                self.entries.push(e);
            }
            proof {
                i = i + 1;
                assert(rest@ =~= ov.skip(i));
            }
        }
        proof {
            assert(ov.take(i) =~= ov);
            let w = self.entries@;
            assert forall|a: int, b: int|
                0 <= a < b < w.len() implies (#[trigger] w[a]).0 != (#[trigger] w[b]).0 by {
                lemma_filter_keeps_distinct_keys(ov, f, a, b);
            }
        }
    }
}

/// Holds of the entries whose content hash is not `h`.
pub open spec fn other_content(h: u64) -> spec_fn((CacheKey, RenderedTextBox)) -> bool {
    |e: (CacheKey, RenderedTextBox)| e.0.content_hash != h
}

/// Filtering a list of distinct keys keeps them distinct.
proof fn lemma_filter_keeps_distinct_keys(
    v: Seq<(CacheKey, RenderedTextBox)>,
    f: spec_fn((CacheKey, RenderedTextBox)) -> bool,
    a: int,
    b: int,
)
    requires
        forall|i: int, j: int| 0 <= i < j < v.len() ==> (#[trigger] v[i]).0 != (#[trigger] v[j]).0,
        0 <= a < b < v.filter(f).len(),
    ensures
        v.filter(f)[a].0 != v.filter(f)[b].0,
    decreases v.len(),
{
    reveal(Seq::filter);
    let d = v.drop_last();
    assert forall|i: int, j: int| 0 <= i < j < d.len() implies (#[trigger] d[i]).0 != (
    #[trigger] d[j]).0 by {
        assert(d[i] == v[i] && d[j] == v[j]);
    }
    let w = d.filter(f);
    if f(v.last()) {
        if b < w.len() {
            lemma_filter_keeps_distinct_keys(d, f, a, b);
        } else {
            assert(v.filter(f)[b] == v.last());
            assert(v.filter(f)[a] == w[a]);
            assert(w.contains(w[a]));
            d.lemma_filter_contains_rev(f, w[a]);
            let j = choose|j: int| 0 <= j < d.len() && d[j] == w[a];
            assert(v[j] == d[j]);
            assert(v[j].0 != v[v.len() - 1].0);
        }
    } else {
        lemma_filter_keeps_distinct_keys(d, f, a, b);
    }
}

/// A Typst string literal is one line: it holds no raw line break or tab, and
/// it begins and ends with a quote.
pub proof fn law_typst_string_is_one_line(s: Seq<char>)
    ensures
        typst_quoted(s).len() >= 2,
        typst_quoted(s)[0] == '"',
        typst_quoted(s).last() == '"',
        forall|i: int|
            0 <= i < typst_quoted(s).len() ==> #[trigger] typst_quoted(s)[i] != '\n'
                && typst_quoted(s)[i] != '\r' && typst_quoted(s)[i] != '\t',
{
    lemma_escaped_one_line(s);
    let q = typst_quoted(s);
    let e = escaped(s);
    assert forall|i: int| 0 <= i < q.len() implies #[trigger] q[i] != '\n' && q[i] != '\r' && q[i]
        != '\t' by {
        if 0 < i < q.len() - 1 {
            assert(q[i] == e[i - 1]);
        }
    }
}

/// Escaped text holds no raw line break or tab.
proof fn lemma_escaped_one_line(s: Seq<char>)
    ensures
        forall|i: int|
            0 <= i < escaped(s).len() ==> #[trigger] escaped(s)[i] != '\n' && escaped(s)[i] != '\r'
                && escaped(s)[i] != '\t',
    decreases s.len(),
{
    if s.len() > 0 {
        lemma_escaped_one_line(s.drop_last());
        let p = escaped(s.drop_last());
        let c = escape_char(s.last());
        assert forall|i: int| 0 <= i < escaped(s).len() implies #[trigger] escaped(s)[i] != '\n'
            && escaped(s)[i] != '\r' && escaped(s)[i] != '\t' by {
            if i < p.len() {
                assert(escaped(s)[i] == p[i]);
            } else {
                assert(escaped(s)[i] == c[i - p.len()]);
            }
        }
    }
}

} // verus!
