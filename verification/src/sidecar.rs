//! Sidecar files: their errors, where metadata came from, overlay groups in the
//! pdfpc text form, and the one-based slide keys of the Dais format.
use std::collections::HashMap;
use std::path::PathBuf;

use crate::slide_group::SlideGroupMeta;
use crate::text::{
    append_chars, append_str, chars_of, decimal, decimal_chars, line_ranges, lines,
    parse_usize_range, parse_usize_spec, split_ws, split_ws_ranges, string_of,
};
use vstd::prelude::*;
use vstd::std_specs::hash::spec_hash_map_iter;
use vstd::std_specs::iter::IteratorSpec;

verus! {

broadcast use vstd::std_specs::hash::group_hash_axioms;

#[verifier::external_type_specification]
#[verifier::external_body]
pub struct ExIoError(std::io::Error);

#[verifier::external_type_specification]
#[verifier::external_body]
pub struct ExPathBuf(std::path::PathBuf);

/// `PathBuf::clone`: a copy of the path.
pub assume_specification[ <std::path::PathBuf as Clone>::clone ](p: &std::path::PathBuf) -> (r:
    std::path::PathBuf)
    ensures
        r == *p,
;

/// Errors that can occur during sidecar operations.
#[derive(Debug)]
pub enum SidecarError {
    /// Filesystem read/write failure.
    Io(std::io::Error),
    /// The sidecar file could not be parsed.
    Parse { line: usize, message: String },
    /// A required sidecar section was absent.
    MissingSection(String),
}

/// The line and message of a parse error.
pub open spec fn parse_failure(e: SidecarError) -> Option<(int, Seq<char>)> {
    match e {
        SidecarError::Parse { line, message } => Some((line as int, message@)),
        _ => None,
    }
}

/// The message of a parse error.
pub open spec fn parse_error_text(line: nat, message: Seq<char>) -> Seq<char> {
    "Parse error at line "@ + decimal(line) + ": "@ + message
}

/// The message of a missing section.
pub open spec fn missing_section_text(name: Seq<char>) -> Seq<char> {
    "Missing required section: "@ + name
}

/// The `Display` text of an I/O error.
#[verifier::external_body]
pub(crate) fn io_error_text(e: &std::io::Error) -> (r: String) {
    format!("{e}")
}

impl SidecarError {
    /// The human-readable message of the error.
    pub fn to_string(&self) -> (r: String)
        ensures
            match self {
                SidecarError::Io(_) => r@.len() >= "I/O error: "@.len() && r@.take(
                    "I/O error: "@.len() as int,
                ) == "I/O error: "@,
                SidecarError::Parse { line, message } => r@ == parse_error_text(
                    *line as nat,
                    message@,
                ),
                SidecarError::MissingSection(name) => r@ == missing_section_text(name@),
            },
    {
        let mut out: Vec<char> = Vec::new();
        match self {
            SidecarError::Io(e) => {
                append_str(&mut out, "I/O error: ");
                let ghost head = out@;
                let text = io_error_text(e);
                append_str(&mut out, text.as_str());
                assert(out@.take("I/O error: "@.len() as int) =~= head);
            },
            SidecarError::Parse { line, message } => {
                append_str(&mut out, "Parse error at line ");
                let digits = decimal_chars(*line as u64);
                append_chars(&mut out, &digits);
                append_str(&mut out, ": ");
                append_str(&mut out, message.as_str());
                assert(out@ =~= parse_error_text(*line as nat, message@));
            },
            SidecarError::MissingSection(name) => {
                append_str(&mut out, "Missing required section: ");
                append_str(&mut out, name.as_str());
            },
        }
        string_of(&out)
    }
}

impl From<std::io::Error> for SidecarError {
    fn from(e: std::io::Error) -> (r: Self) {
        SidecarError::Io(e)
    }
}

impl vstd::std_specs::convert::FromSpecImpl<std::io::Error> for SidecarError {
    open spec fn obeys_from_spec() -> bool {
        true
    }

    open spec fn from_spec(v: std::io::Error) -> Self {
        SidecarError::Io(v)
    }
}

/// Where the metadata was loaded from.
#[derive(Debug, Clone)]
pub enum MetadataSource {
    /// Extracted from PDF info dictionary / XMP.
    Embedded,
    /// Loaded from a sidecar file.
    Sidecar(PathBuf),
    /// No metadata found — using 1:1 page-to-slide mapping.
    NoMetadata,
}

// ---------------------------------------------------------------------------
// Overlay groups
// ---------------------------------------------------------------------------

/// `n.saturating_sub(1)`.
pub open spec fn one_less(n: usize) -> usize {
    if n == 0 {
        0
    } else {
        (n - 1) as usize
    }
}

/// The group one overlay line defines: exactly two whitespace-separated numbers,
/// one-based start and end pages.
pub open spec fn overlay_line_group(line: Seq<char>) -> Option<SlideGroupMeta> {
    let parts = split_ws(line);
    if parts.len() == 2 {
        match (parse_usize_spec(parts[0]), parse_usize_spec(parts[1])) {
            (Some(start), Some(end)) => Some(
                SlideGroupMeta { start_page: one_less(start), end_page: one_less(end) },
            ),
            _ => None,
        }
    } else {
        None
    }
}

/// The groups the well-formed lines define, in order.
pub open spec fn overlay_groups(ls: Seq<Seq<char>>) -> Seq<SlideGroupMeta>
    decreases ls.len(),
{
    if ls.len() == 0 {
        seq![]
    } else {
        let prev = overlay_groups(ls.drop_last());
        match overlay_line_group(ls.last()) {
            Some(g) => prev.push(g),
            None => prev,
        }
    }
}

/// The group that the line `s[lo..hi]` defines (see `overlay_line_group`).
pub(crate) fn overlay_line(s: &Vec<char>, lo: usize, hi: usize) -> (r: Option<SlideGroupMeta>)
    requires
        lo <= hi <= s.len(),
    ensures
        r == overlay_line_group(s@.subrange(lo as int, hi as int)),
{
    let parts = split_ws_ranges(s, lo, hi);
    if parts.len() == 2 {
        let (s0, e0) = parts[0];
        let (s1, e1) = parts[1];
        match (parse_usize_range(s, s0, e0), parse_usize_range(s, s1, e1)) {
            (Some(st), Some(en)) => {
                let sp = if st == 0 {
                    0
                } else {
                    st - 1
                };
                let ep = if en == 0 {
                    0
                } else {
                    en - 1
                };
                Some(SlideGroupMeta { start_page: sp, end_page: ep })
            },
            _ => None,
        }
    } else {
        None
    }
}

/// Parse overlay group definitions from a pdfpc-style overlay string.
///
/// Each line: `start_page end_page` (1-based); other lines are skipped.
pub fn parse_overlay_groups(overlay_str: &str) -> (r: Vec<SlideGroupMeta>)
    ensures
        r@ == overlay_groups(lines(overlay_str@)),
{
    let chars = chars_of(overlay_str);
    let ranges = line_ranges(&chars);
    let ghost ls = lines(chars@);
    let mut groups: Vec<SlideGroupMeta> = Vec::new();
    let mut k: usize = 0;
    while k < ranges.len()
        invariant
            k <= ranges@.len(),
            ranges@.len() == ls.len(),
            ls == lines(chars@),
            forall|j: int|
                0 <= j < ranges@.len() ==> (#[trigger] ranges@[j]).0 <= ranges@[j].1 <= chars@.len()
                    && chars@.subrange(ranges@[j].0 as int, ranges@[j].1 as int) == ls[j],
            groups@ == overlay_groups(ls.take(k as int)),
        decreases ranges@.len() - k,
    {
        assert(ls.take(k + 1).drop_last() =~= ls.take(k as int));
        let (a, b) = ranges[k];
        match overlay_line(&chars, a, b) {
            Some(g) => groups.push(g),
            None => {},
        }
        k += 1;
    }
    assert(ls.take(ranges@.len() as int) =~= ls);
    groups
}

// ---------------------------------------------------------------------------
// One-based slide keys of the Dais format
// ---------------------------------------------------------------------------

/// The native Dais sidecar format.
pub struct DaisFormat;

/// The one-based number of a zero-based index.
pub fn to_one_based(index: usize) -> (r: usize)
    requires
        index < usize::MAX,
    ensures
        r == index + 1,
{
    index + 1
}

/// The zero-based index of a one-based number; `None` for zero.
pub fn to_zero_based(index: usize) -> (r: Option<usize>)
    ensures
        r == (if index == 0 {
            None
        } else {
            Some((index - 1) as usize)
        }),
{
    index.checked_sub(1)
}

/// The zero-based index a one-based decimal key names, if it is one.
pub open spec fn one_based_key(key: Seq<char>) -> Option<usize> {
    match parse_usize_spec(key) {
        Some(n) => if n == 0 {
            None
        } else {
            Some((n - 1) as usize)
        },
        None => None,
    }
}

/// Parses a one-based key (such as `"3"`) to its zero-based index.
pub fn parse_one_based_key(key: &str) -> (r: Option<usize>)
    ensures
        r == one_based_key(key@),
{
    let chars = chars_of(key);
    assert(chars@.subrange(0, chars@.len() as int) =~= chars@);
    match parse_usize_range(&chars, 0, chars.len()) {
        Some(n) => to_zero_based(n),
        None => None,
    }
}

/// Whether `e` is an entry of `map` under its one-based decimal key.
pub open spec fn is_one_based_entry(map: Map<usize, String>, e: (String, String)) -> bool {
    exists|k: usize|
        #[trigger] map.contains_key(k) && e.0@ == decimal((k + 1) as nat) && e.1@ == map[k]@
}

/// The entries of a zero-based map with one-based decimal keys, in the map's
/// iteration order: each key `k` becomes the text of `k + 1`.
pub fn one_based_map(map: &HashMap<usize, String>) -> (r: Vec<(String, String)>)
    requires
        forall|k: usize| map@.contains_key(k) ==> k < usize::MAX,
    ensures
        r@.len() == map@.dom().len(),
        forall|i: int| 0 <= i < r@.len() ==> #[trigger] is_one_based_entry(map@, r@[i]),
        forall|k: usize|
            #[trigger] map@.contains_key(k) ==> exists|i: int|
                0 <= i < r@.len() && (#[trigger] r@[i]).0@ == decimal((k + 1) as nat) && r@[i].1@
                    == map@[k]@,
{
    let mut r: Vec<(String, String)> = Vec::new();
    let ghost entries = spec_hash_map_iter(map).remaining();
    for kv in it: map.iter()
        invariant
            it.seq() == entries,
            forall|k: usize| map@.contains_key(k) ==> k < usize::MAX,
            r@.len() == it.index(),
            forall|i: int|
                0 <= i < it.index() ==> (#[trigger] r@[i]).0@ == decimal((*entries[i].0 + 1) as nat)
                    && r@[i].1@ == (*entries[i].1)@,
    {
        let (k, v) = kv;
        assert(map@.contains_key(*k));
        let n = to_one_based(*k);
        let digits = decimal_chars(n as u64);
        r.push((string_of(&digits), v.clone()));
    }
    proof {
        assert forall|i: int| 0 <= i < r@.len() implies #[trigger] is_one_based_entry(map@, r@[i]) by {
            let k = *entries[i].0;
            assert(map@.contains_key(k) && map@[k] == *entries[i].1);
        }
        assert forall|k: usize| #[trigger] map@.contains_key(k) implies exists|i: int|
            0 <= i < r@.len() && (#[trigger] r@[i]).0@ == decimal((k + 1) as nat) && r@[i].1@
                == map@[k]@ by {
            assert(entries.contains((&k, &map@[k])));
            let i = choose|i: int| 0 <= i < entries.len() && entries[i] == (&k, &map@[k]);
            assert(r@[i].0@ == decimal((k + 1) as nat));
        }
    }
    r
}

/// A slide written under its one-based key is read back as the same slide.
pub proof fn law_one_based_keys_round_trip(index: usize)
    requires
        index < usize::MAX,
    ensures
        one_based_key(decimal((index + 1) as nat)) == Some(index),
{
    crate::text::lemma_parse_decimal((index + 1) as usize);
}

} // verus!
