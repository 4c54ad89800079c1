use std::collections::HashMap;
use std::path::PathBuf;

use dais::notes::MarkdownNotesDocument;
use dais::sidecar::SidecarError;

#[test]
fn maps_headings_in_order() {
    let doc = MarkdownNotesDocument::parse(
        PathBuf::from("notes.md"),
        "# Motivation\n\nOpening.\n\n# Prior Work\n\nCompare.\n",
        3,
    )
    .unwrap();

    let notes = doc.notes_by_slide();
    assert_eq!(notes[&0], "Opening.");
    assert_eq!(notes[&1], "Compare.");
}

#[test]
fn explicit_slide_anchor_skips_and_resets_counter() {
    let doc = MarkdownNotesDocument::parse(
        PathBuf::from("notes.md"),
        "# Motivation\n\nOpening.\n\n# Main Result {slide=4}\n\nSlow down.\n\n# Extra\n\nMore.\n",
        5,
    )
    .unwrap();

    let notes = doc.notes_by_slide();
    assert_eq!(notes[&0], "Opening.");
    assert_eq!(notes[&3], "Slow down.");
    assert_eq!(notes[&4], "More.");
    assert!(!notes.contains_key(&2));
}

#[test]
fn lower_level_headings_stay_in_body() {
    let doc = MarkdownNotesDocument::parse(
        PathBuf::from("notes.md"),
        "# Main {slide=2}\n\n## Setup\n\nExplain.\n",
        2,
    )
    .unwrap();

    assert_eq!(doc.notes_by_slide()[&1], "## Setup\n\nExplain.");
}

#[test]
fn duplicate_slide_is_error() {
    let err = MarkdownNotesDocument::parse(
        PathBuf::from("notes.md"),
        "# A {slide=1}\n\nA\n\n# B {slide=1}\n\nB\n",
        2,
    )
    .unwrap_err();

    assert!(err.to_string().contains("Duplicate"));
}

#[test]
fn render_updates_existing_and_appends_new_sections() {
    let doc = MarkdownNotesDocument::parse(
        PathBuf::from("notes.md"),
        "---\ntitle: Talk\n---\n\n# Motivation\n\nOld.\n",
        3,
    )
    .unwrap();
    let notes = HashMap::from([(0, "New.".to_string()), (2, "Third.".to_string())]);

    let rendered = doc.render_with_notes(&notes);

    assert!(rendered.contains("---\ntitle: Talk\n---"));
    assert!(rendered.contains("# Motivation\n\nNew.\n"));
    assert!(rendered.contains("# Slide 3 {slide=3}\n\nThird.\n"));
    assert!(!rendered.contains("Old."));
}

fn parse_error(content: &str, total: usize) -> (usize, String) {
    match MarkdownNotesDocument::parse(PathBuf::from("notes.md"), content, total) {
        Err(SidecarError::Parse { line, message }) => (line, message),
        Err(other) => panic!("unexpected error {other:?}"),
        Ok(_) => panic!("expected a parse error"),
    }
}

#[test]
fn anchor_errors_name_the_line() {
    assert_eq!(
        parse_error("intro\n# A {slide}\n", 3),
        (2, "Malformed slide anchor".to_string())
    );
    assert_eq!(
        parse_error("# A {slide=2\n", 3),
        (1, "Malformed slide anchor".to_string())
    );
    assert_eq!(
        parse_error("# A {slide=two}\n", 3),
        (1, "Slide anchor must contain a positive integer".to_string())
    );
    assert_eq!(
        parse_error("# A {slide=0}\n", 3),
        (1, "Slide anchor must use one-based slide numbers".to_string())
    );
    assert_eq!(
        parse_error("# A\n# B\n# C\n", 2),
        (3, "Slide 3 is outside this presentation's 2 logical slides".to_string())
    );
    let (line, message) = parse_error("# A {slide=2}\n\n# B {slide=2}\n", 2);
    assert_eq!(line, 3);
    assert_eq!(message, "Duplicate notes section for slide 2");
    let err = SidecarError::Parse { line, message };
    assert_eq!(err.to_string(), "Parse error at line 3: Duplicate notes section for slide 2");
}

#[test]
fn preamble_only_and_blank_sections() {
    let doc =
        MarkdownNotesDocument::parse(PathBuf::from("notes.md"), "Just text\nno headings\n", 1)
            .unwrap();
    assert!(doc.notes_by_slide().is_empty());
    assert_eq!(doc.render_with_notes(&HashMap::new()), "Just text\nno headings\n");

    let doc = MarkdownNotesDocument::parse(
        PathBuf::from("notes.md"),
        "# A\n   \n# B {slide=3}\nText  \n",
        3,
    )
    .unwrap();
    let notes = doc.notes_by_slide();
    assert_eq!(notes.len(), 1);
    assert_eq!(notes[&2], "Text");
}

#[test]
fn render_keeps_headings_and_skips_blank_new_notes() {
    let doc = MarkdownNotesDocument::parse(
        PathBuf::from("notes.md"),
        "# One\nold one\n# Two {slide=2}",
        4,
    )
    .unwrap();
    let notes = HashMap::from([
        (1, "  second  ".to_string()),
        (3, "   ".to_string()),
        (2, "third".to_string()),
    ]);
    let rendered = doc.render_with_notes(&notes);
    assert_eq!(rendered, "# One\n# Two {slide=2}\n\nsecond\n\n# Slide 3 {slide=3}\n\nthird\n");
}

#[test]
fn rendered_notes_parse_back() {
    let doc = MarkdownNotesDocument::parse(
        PathBuf::from("notes.md"),
        "Preface\n\n# Intro\n\nHello.\n",
        3,
    )
    .unwrap();
    let notes = HashMap::from([(0, "Welcome.".to_string()), (2, "Bye.".to_string())]);
    let rendered = doc.render_with_notes(&notes);
    assert!(rendered.starts_with("Preface\n\n# Intro\n"));
    let again = MarkdownNotesDocument::parse(PathBuf::from("notes.md"), &rendered, 3).unwrap();
    assert_eq!(again.notes_by_slide(), notes);
}

#[test]
fn written_notes_read_back() {
    let doc = MarkdownNotesDocument::parse(
        PathBuf::from("notes.md"),
        "---\ntitle: Talk\n---\n\n# Motivation\n\nOld.\n\n# Result {slide=3}\nkept?\n# Extra",
        6,
    )
    .unwrap();
    let mut notes = HashMap::new();
    notes.insert(0usize, "  New opening.\nSecond line.  ".to_string());
    notes.insert(3usize, "Extra words".to_string());
    notes.insert(5usize, "Appended\n\n- list".to_string());
    notes.insert(1usize, "   ".to_string());
    let text = doc.render_with_notes(&notes);
    let back = MarkdownNotesDocument::parse(PathBuf::from("notes.md"), &text, 6).unwrap();
    let read = back.notes_by_slide();
    assert_eq!(read.len(), 3);
    assert_eq!(read[&0], "New opening.\nSecond line.");
    assert_eq!(read[&3], "Extra words");
    assert_eq!(read[&5], "Appended\n\n- list");
}

#[test]
fn rendering_keeps_headings_in_order() {
    let doc = MarkdownNotesDocument::parse(
        PathBuf::from("talk.md"),
        "Preamble\n# Intro {slide=1}\nold\n## Details\n# Results {slide=3}\n",
        5,
    )
    .unwrap();
    let mut notes = HashMap::new();
    notes.insert(0, "new intro".to_string());
    notes.insert(1, "added".to_string());
    let text = doc.render_with_notes(&notes);
    let intro = text.find("# Intro {slide=1}\n").unwrap();
    let results = text.find("# Results {slide=3}\n").unwrap();
    assert!(text.starts_with("Preamble\n"));
    assert!(intro < results);
}
