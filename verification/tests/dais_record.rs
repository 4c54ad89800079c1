use std::collections::HashMap;

use dais::dais_record::{dais_record, metadata_of_record, DaisRecord};
use dais::pdfpc::PdfpcMetadata;
use dais::slide_group::SlideGroupMeta;

fn metadata() -> PdfpcMetadata {
    let mut notes = HashMap::new();
    notes.insert(0, "first".to_string());
    notes.insert(4, "fifth".to_string());
    PdfpcMetadata {
        title: Some("Talk".to_string()),
        groups: vec![
            SlideGroupMeta { start_page: 0, end_page: 2 },
            SlideGroupMeta { start_page: 3, end_page: 3 },
        ],
        notes,
        end_slide: Some(7),
        last_minutes: Some(30),
    }
}

#[test]
fn record_numbers_are_one_based() {
    let record = dais_record(&metadata());
    assert_eq!(record.version, 1);
    assert_eq!(record.end_slide, Some(8));
    let groups: Vec<(usize, usize)> = record.groups.iter().map(|g| (g.start_page, g.end_page)).collect();
    assert_eq!(groups, vec![(1, 3), (4, 4)]);
    let mut keys: Vec<&str> = record.notes.iter().map(|(k, _)| k.as_str()).collect();
    keys.sort();
    assert_eq!(keys, vec!["1", "5"]);
}

#[test]
fn dais_record_round_trips() {
    let original = metadata();
    let back = metadata_of_record(&dais_record(&original));
    assert_eq!(back.title, original.title);
    assert_eq!(back.end_slide, original.end_slide);
    assert_eq!(back.last_minutes, original.last_minutes);
    let groups: Vec<(usize, usize)> = back.groups.iter().map(|g| (g.start_page, g.end_page)).collect();
    assert_eq!(groups, vec![(0, 2), (3, 3)]);
    assert_eq!(back.notes, original.notes);
}

#[test]
fn zero_and_unnumbered_entries_are_dropped_on_reading() {
    let record = DaisRecord {
        version: 1,
        title: None,
        end_slide: Some(0),
        last_minutes: None,
        groups: vec![
            SlideGroupMeta { start_page: 0, end_page: 2 },
            SlideGroupMeta { start_page: 2, end_page: 3 },
        ],
        notes: vec![
            ("0".to_string(), "zero".to_string()),
            ("abc".to_string(), "junk".to_string()),
            ("2".to_string(), "second".to_string()),
        ],
    };
    let m = metadata_of_record(&record);
    assert_eq!(m.end_slide, None);
    let groups: Vec<(usize, usize)> = m.groups.iter().map(|g| (g.start_page, g.end_page)).collect();
    assert_eq!(groups, vec![(1, 2)]);
    assert_eq!(m.notes.len(), 1);
    assert_eq!(m.notes.get(&1).map(String::as_str), Some("second"));
}
