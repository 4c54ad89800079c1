use std::collections::HashMap;

use dais::document::DocumentError;
use dais::pdfpc::{extract_embedded_metadata, parse_pdfpc, pdfpc_text, PdfpcMetadata};
use dais::sidecar::{
    one_based_map, parse_one_based_key, parse_overlay_groups, to_one_based, to_zero_based,
    SidecarError,
};
use dais::slide_group::SlideGroupMeta;

#[test]
fn parse_overlay_groups_basic() {
    let groups = parse_overlay_groups("1 3\n4 5\n");
    assert_eq!(groups.len(), 2);
    assert_eq!(groups[0].start_page, 0);
    assert_eq!(groups[0].end_page, 2);
    assert_eq!(groups[1].start_page, 3);
    assert_eq!(groups[1].end_page, 4);
}

#[test]
fn overlay_lines_need_exactly_two_numbers() {
    let groups = parse_overlay_groups("  0\t2  \r\n1 2 3\nx 4\n\n7 9");
    assert_eq!(groups.len(), 2);
    assert_eq!((groups[0].start_page, groups[0].end_page), (0, 1));
    assert_eq!((groups[1].start_page, groups[1].end_page), (6, 8));
}

#[test]
fn one_based_keys_round_trip() {
    assert_eq!(to_one_based(0), 1);
    assert_eq!(to_zero_based(1), Some(0));
    assert_eq!(to_zero_based(0), None);
    assert_eq!(parse_one_based_key("12"), Some(11));
    assert_eq!(parse_one_based_key("+3"), Some(2));
    assert_eq!(parse_one_based_key("0"), None);
    assert_eq!(parse_one_based_key("-1"), None);
    assert_eq!(parse_one_based_key("x"), None);
}

#[test]
fn one_based_map_shifts_every_key() {
    let map = HashMap::from([(0, "a".to_string()), (9, "b".to_string())]);
    let mut entries = one_based_map(&map);
    entries.sort();
    assert_eq!(entries, vec![("1".to_string(), "a".to_string()), ("10".to_string(), "b".to_string())]);
}

#[test]
fn error_messages() {
    let err = SidecarError::MissingSection("notes".to_string());
    assert_eq!(err.to_string(), "Missing required section: notes");
    let io = std::io::Error::new(std::io::ErrorKind::NotFound, "gone");
    let err = SidecarError::from(io);
    assert_eq!(err.to_string(), "I/O error: gone");
    assert_eq!(
        DocumentError::Render { page_index: 4, message: "bad".to_string() }.to_string(),
        "Failed to render page 4: bad"
    );
    assert_eq!(DocumentError::PageOutOfRange(12).to_string(), "Page index 12 out of range");
    assert_eq!(DocumentError::Open("x".to_string()).to_string(), "Failed to open document: x");
}

#[test]
fn parse_basic_pdfpc() {
    let content = "\
[file]
test.pdf
[notes]
### 1
First slide notes
### 2
Second slide notes
with multiple lines
[overlay]
1 3
4 5
[duration]
20
";
    let meta = parse_pdfpc(content);
    assert_eq!(meta.title.as_deref(), Some("test.pdf"));
    assert_eq!(meta.notes.len(), 2);
    assert_eq!(meta.notes[&0], "First slide notes");
    assert_eq!(meta.notes[&1], "Second slide notes\nwith multiple lines");
    assert_eq!(meta.groups.len(), 2);
    assert_eq!(meta.groups[0].start_page, 0);
    assert_eq!(meta.groups[0].end_page, 2);
    assert_eq!(meta.groups[1].start_page, 3);
    assert_eq!(meta.groups[1].end_page, 4);
    assert_eq!(meta.last_minutes, Some(20));
}

#[test]
fn parse_empty_pdfpc() {
    let meta = parse_pdfpc("");
    assert!(meta.title.is_none());
    assert!(meta.notes.is_empty());
    assert!(meta.groups.is_empty());
}

#[test]
fn unknown_sections_ignored() {
    let content = "\
[file]
test.pdf
[unknown_future_section]
some data
[notes]
### 1
Note here
";
    let meta = parse_pdfpc(content);
    assert_eq!(meta.title.as_deref(), Some("test.pdf"));
    assert_eq!(meta.notes.len(), 1);
}

#[test]
fn pdfpc_end_slide_and_blank_notes() {
    let content = "[end_user_slide]\n12\n[notes]\n### 3\n   \n### 4\r\n  indented\r\n\n[duration]\nabc\n";
    let meta = parse_pdfpc(content);
    assert_eq!(meta.end_slide, Some(11));
    assert_eq!(meta.notes.len(), 1);
    assert_eq!(meta.notes[&3], "indented");
    assert_eq!(meta.last_minutes, None);
    assert!(meta.title.is_none());
}

#[test]
fn pdfpc_page_zero_saturates() {
    let meta = parse_pdfpc("[overlay]\n0 0\n1 2 3\n[end_slide]\n0\n");
    assert_eq!(meta.groups.len(), 1);
    assert_eq!(meta.groups[0].start_page, 0);
    assert_eq!(meta.groups[0].end_page, 0);
    assert_eq!(meta.end_slide, Some(0));
}

#[test]
fn pdfpc_text_writes_every_section() {
    let mut notes = HashMap::new();
    notes.insert(4usize, "Fifth".to_string());
    notes.insert(0usize, "First\nline two".to_string());
    let meta = PdfpcMetadata {
        title: Some("talk.pdf".to_string()),
        groups: vec![
            SlideGroupMeta { start_page: 0, end_page: 2 },
            SlideGroupMeta { start_page: 3, end_page: 3 },
        ],
        notes,
        end_slide: Some(9),
        last_minutes: Some(45),
    };
    let text = pdfpc_text(&meta);
    assert_eq!(
        text,
        "[file]\ntalk.pdf\n[duration]\n45\n[end_slide]\n10\n[overlay]\n1 3\n4 4\n[notes]\n### 1\nFirst\nline two\n### 5\nFifth\n"
    );
}

#[test]
fn pdfpc_text_of_nothing_is_empty() {
    let meta = PdfpcMetadata {
        title: None,
        groups: Vec::new(),
        notes: HashMap::new(),
        end_slide: None,
        last_minutes: None,
    };
    assert_eq!(pdfpc_text(&meta), "");
}

#[test]
fn pdfpc_text_reads_back() {
    let mut notes = HashMap::new();
    notes.insert(1usize, "Welcome\n\n- point".to_string());
    notes.insert(7usize, "Questions?".to_string());
    let meta = PdfpcMetadata {
        title: Some("beamer-example.pdf".to_string()),
        groups: vec![SlideGroupMeta { start_page: 1, end_page: 4 }],
        notes,
        end_slide: Some(7),
        last_minutes: Some(20),
    };
    let back = parse_pdfpc(&pdfpc_text(&meta));
    assert_eq!(back.title, meta.title);
    assert_eq!(back.notes, meta.notes);
    assert_eq!(back.groups.len(), 1);
    assert_eq!(back.groups[0].start_page, 1);
    assert_eq!(back.groups[0].end_page, 4);
    assert_eq!(back.end_slide, Some(7));
    assert_eq!(back.last_minutes, Some(20));
}

#[test]
fn extract_none_from_empty() {
    assert!(extract_embedded_metadata(None).is_none());
    assert!(extract_embedded_metadata(Some("")).is_none());
    assert!(extract_embedded_metadata(Some("  ")).is_none());
}

#[test]
fn extract_from_embedded_pdfpc_string() {
    let data = "[notes]\n### 1\nHello\n[overlay]\n1 3\n";
    let meta = extract_embedded_metadata(Some(data)).unwrap();
    assert_eq!(meta.notes.len(), 1);
    assert_eq!(meta.notes[&0], "Hello");
    assert_eq!(meta.groups.len(), 1);
}

#[test]
fn extract_returns_none_if_no_useful_content() {
    let data = "[file]\ntest.pdf\n";
    assert!(extract_embedded_metadata(Some(data)).is_none());
}

#[test]
fn extract_keeps_an_end_slide_alone() {
    let meta = extract_embedded_metadata(Some("  \n[end_slide]\n4\n  ")).unwrap();
    assert_eq!(meta.end_slide, Some(3));
    assert!(meta.groups.is_empty());
}
