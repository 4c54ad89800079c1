use std::collections::HashMap;

use dais::pdfpc::{parse_pdfpc, PdfpcMetadata};
use dais::saved_slides::{metadata_to_save, saved_grouping};
use dais::slide_group::{build_slide_groups, SlideGroupMeta};

fn metas(ranges: &[(usize, usize)]) -> Vec<SlideGroupMeta> {
    ranges.iter().map(|&(start_page, end_page)| SlideGroupMeta { start_page, end_page }).collect()
}

#[test]
fn saved_grouping_records_first_and_last_pages() {
    let mut notes = HashMap::new();
    notes.insert(0, "Intro".to_string());
    notes.insert(3, "Results".to_string());
    let groups = build_slide_groups(6, &metas(&[(0, 2), (3, 4)]), &notes);
    assert_eq!(groups.len(), 3);

    let (saved, saved_notes) = saved_grouping(&groups);
    let ranges: Vec<(usize, usize)> = saved.iter().map(|g| (g.start_page, g.end_page)).collect();
    assert_eq!(ranges, vec![(0, 2), (3, 4), (5, 5)]);
    assert_eq!(saved_notes.len(), 2);
    assert_eq!(saved_notes.get(&0).map(String::as_str), Some("Intro"));
    assert_eq!(saved_notes.get(&3).map(String::as_str), Some("Results"));
}

#[test]
fn saved_slides_load_back_unchanged() {
    let mut notes = HashMap::new();
    notes.insert(1, "one".to_string());
    notes.insert(4, "four".to_string());
    notes.insert(2, "inside a group".to_string());
    let groups = build_slide_groups(7, &metas(&[(1, 3), (4, 9)]), &notes);

    let (saved, saved_notes) = saved_grouping(&groups);
    let reloaded = build_slide_groups(7, &saved, &saved_notes);
    assert_eq!(reloaded.len(), groups.len());
    for (a, b) in groups.iter().zip(reloaded.iter()) {
        assert_eq!(a.logical_index, b.logical_index);
        assert_eq!(a.pages, b.pages);
        assert_eq!(a.notes, b.notes);
    }
    // The note on a page inside a group is not a slide's note, so it is not saved.
    assert!(saved_notes.get(&2).is_none());
}

#[test]
fn metadata_to_save_keeps_loaded_fields() {
    let loaded: PdfpcMetadata = parse_pdfpc(
        "[file]\ntalk.pdf\n[end_slide]\n3\n[duration]\n25\n[notes]\n### 1\nold note\n",
    );
    let groups = build_slide_groups(3, &Vec::new(), &HashMap::new());
    let saved = metadata_to_save(&loaded, &groups);
    assert_eq!(saved.title.as_deref(), Some("talk.pdf"));
    assert_eq!(saved.end_slide, Some(2));
    assert_eq!(saved.last_minutes, Some(25));
    assert_eq!(saved.groups.len(), 3);
    assert!(saved.notes.is_empty());
}
