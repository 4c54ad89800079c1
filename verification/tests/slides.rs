use std::collections::HashMap;

use dais::navigation::SlideNavigation;
use dais::slide_group::{build_slide_groups, default_grouping, SlideGroupMeta};

fn navigation(total_pages: usize, metas: &[SlideGroupMeta]) -> SlideNavigation {
    let groups = build_slide_groups(total_pages, &metas.to_vec(), &HashMap::new());
    SlideNavigation::new(total_pages, groups)
}

fn two_groups() -> Vec<SlideGroupMeta> {
    vec![
        SlideGroupMeta { start_page: 0, end_page: 2 },
        SlideGroupMeta { start_page: 3, end_page: 4 },
    ]
}

#[test]
fn default_grouping_creates_one_group_per_page() {
    let groups = default_grouping(5);
    assert_eq!(groups.len(), 5);
    for (i, group) in groups.iter().enumerate() {
        assert_eq!(group.logical_index, i);
        assert_eq!(group.pages, vec![i]);
        assert!(group.notes.is_none());
    }
}

#[test]
fn default_grouping_empty_document() {
    let groups = default_grouping(0);
    assert!(groups.is_empty());
}

#[test]
fn build_groups_no_metadata_gives_one_to_one() {
    let groups = build_slide_groups(5, &Vec::new(), &HashMap::new());
    assert_eq!(groups.len(), 5);
    for (i, group) in groups.iter().enumerate() {
        assert_eq!(group.logical_index, i);
        assert_eq!(group.pages, vec![i]);
    }
}

#[test]
fn build_groups_from_metadata() {
    let groups = build_slide_groups(5, &two_groups(), &HashMap::new());
    assert_eq!(groups.len(), 2);
    assert_eq!(groups[0].pages, vec![0, 1, 2]);
    assert_eq!(groups[1].pages, vec![3, 4]);
}

#[test]
fn build_groups_with_notes() {
    let mut notes = HashMap::new();
    notes.insert(0, "Slide one notes".to_string());
    notes.insert(3, "Slide two notes".to_string());
    let groups = build_slide_groups(5, &two_groups(), &notes);
    assert_eq!(groups[0].notes.as_deref(), Some("Slide one notes"));
    assert_eq!(groups[1].notes.as_deref(), Some("Slide two notes"));
}

#[test]
fn build_groups_uncovered_pages_become_individual() {
    let metas = vec![SlideGroupMeta { start_page: 0, end_page: 1 }];
    let groups = build_slide_groups(5, &metas, &HashMap::new());
    assert_eq!(groups.len(), 4); // 1 group + 3 individual
    assert_eq!(groups[0].pages, vec![0, 1]);
    assert_eq!(groups[1].pages, vec![2]);
    assert_eq!(groups[2].pages, vec![3]);
    assert_eq!(groups[3].pages, vec![4]);
}

#[test]
fn initial_state_at_first_slide() {
    let nav = navigation(10, &[]);
    assert_eq!(nav.current_page, 0);
    assert_eq!(nav.current_logical_slide, 0);
    assert_eq!(nav.current_overlay_within_group, 0);
    assert_eq!(nav.total_pages, 10);
    assert_eq!(nav.total_logical_slides, 10);
}

#[test]
fn next_slide_advances() {
    let mut nav = navigation(5, &[]);
    nav.next_slide();
    assert_eq!(nav.current_logical_slide, 1);
    assert_eq!(nav.current_page, 1);
}

#[test]
fn next_slide_advances_within_group_before_next_group() {
    let mut nav = navigation(5, &two_groups());

    nav.next_slide();
    assert_eq!(nav.current_logical_slide, 0);
    assert_eq!(nav.current_overlay_within_group, 1);
    assert_eq!(nav.current_page, 1);

    nav.next_slide();
    assert_eq!(nav.current_logical_slide, 0);
    assert_eq!(nav.current_overlay_within_group, 2);
    assert_eq!(nav.current_page, 2);

    nav.next_slide();
    assert_eq!(nav.current_logical_slide, 1);
    assert_eq!(nav.current_overlay_within_group, 0);
    assert_eq!(nav.current_page, 3);
}

#[test]
fn next_slide_stops_at_end() {
    let mut nav = navigation(3, &[]);
    for _ in 0..10 {
        nav.next_slide();
    }
    assert_eq!(nav.current_logical_slide, 2);
    assert!(nav.blacked_out);
}

#[test]
fn previous_slide_stops_at_start() {
    let mut nav = navigation(5, &[]);
    nav.previous_slide();
    assert_eq!(nav.current_logical_slide, 0);
}

#[test]
fn previous_slide_rewinds_within_group_before_previous_group() {
    let mut nav = navigation(5, &two_groups());

    nav.last_slide();
    assert_eq!(nav.current_page, 3);

    nav.previous_slide();
    assert_eq!(nav.current_logical_slide, 0);
    assert_eq!(nav.current_overlay_within_group, 2);
    assert_eq!(nav.current_page, 2);

    nav.previous_slide();
    assert_eq!(nav.current_logical_slide, 0);
    assert_eq!(nav.current_overlay_within_group, 1);
    assert_eq!(nav.current_page, 1);
}

#[test]
fn previous_slide_clears_end_blackout() {
    let mut nav = navigation(1, &[]);
    nav.next_slide();
    assert!(nav.blacked_out);

    nav.previous_slide();
    assert!(!nav.blacked_out);
    assert_eq!(nav.current_logical_slide, 0);
}

#[test]
fn first_and_last_slide() {
    let mut nav = navigation(10, &[]);
    nav.last_slide();
    assert_eq!(nav.current_logical_slide, 9);

    nav.first_slide();
    assert_eq!(nav.current_logical_slide, 0);
}

#[test]
fn go_to_slide() {
    let mut nav = navigation(10, &[]);
    nav.go_to_group(5);
    assert_eq!(nav.current_logical_slide, 5);
}

#[test]
fn go_to_slide_out_of_range_ignored() {
    let mut nav = navigation(5, &[]);
    nav.go_to_group(100);
    // Out-of-range index is clamped to the last valid slide
    assert_eq!(nav.current_logical_slide, 4);
}

#[test]
fn overlay_navigation_within_group() {
    let mut nav = navigation(5, &two_groups());
    assert_eq!(nav.current_logical_slide, 0);

    nav.next_overlay();
    assert_eq!(nav.current_logical_slide, 0);
    assert_eq!(nav.current_overlay_within_group, 1);
    assert_eq!(nav.current_page, 1);

    nav.next_overlay();
    assert_eq!(nav.current_overlay_within_group, 2);
    assert_eq!(nav.current_page, 2);

    // Overflow to next slide
    nav.next_overlay();
    assert_eq!(nav.current_logical_slide, 1);
    assert_eq!(nav.current_overlay_within_group, 0);
    assert_eq!(nav.current_page, 3);
}

#[test]
fn previous_overlay_goes_to_last_overlay_of_prev_group() {
    let mut nav = navigation(5, &two_groups());
    nav.last_slide();
    assert_eq!(nav.current_logical_slide, 1);

    nav.previous_overlay();
    assert_eq!(nav.current_logical_slide, 0);
    assert_eq!(nav.current_overlay_within_group, 2);
    assert_eq!(nav.current_page, 2);
}

#[test]
fn toggle_freeze_captures_page() {
    let mut nav = navigation(5, &[]);
    nav.next_slide();
    nav.next_slide();
    assert_eq!(nav.current_page, 2);

    nav.toggle_freeze();
    assert!(nav.frozen);
    assert_eq!(nav.frozen_page, Some(2));
    assert_eq!(nav.audience_page(), 2);

    nav.toggle_freeze();
    assert!(!nav.frozen);
    assert_eq!(nav.frozen_page, None);
}

#[test]
fn toggle_blackout() {
    let mut nav = navigation(5, &[]);
    assert!(!nav.blacked_out);
    assert!(nav.toggle_blackout());
    assert!(nav.blacked_out);
    assert!(!nav.toggle_blackout());
    assert!(!nav.blacked_out);
}

#[test]
fn notes_update_on_navigation() {
    let mut notes = HashMap::new();
    notes.insert(0, "Notes for slide 0".to_string());
    notes.insert(1, "Notes for slide 1".to_string());
    let groups = build_slide_groups(3, &Vec::new(), &notes);
    let mut nav = SlideNavigation::new(3, groups);

    assert_eq!(nav.current_notes.as_deref(), Some("Notes for slide 0"));

    nav.next_slide();
    assert_eq!(nav.current_notes.as_deref(), Some("Notes for slide 1"));

    nav.next_slide();
    assert_eq!(nav.current_notes, None);
}

#[test]
fn frozen_audience_stays_while_presenter_moves() {
    let mut nav = navigation(5, &[]);
    nav.toggle_freeze();
    nav.next_slide();
    nav.next_slide();
    assert_eq!(nav.current_page, 2);
    assert_eq!(nav.audience_page(), 0);
}

#[test]
fn rewind_undoes_advance_across_groups() {
    let mut nav = navigation(5, &two_groups());
    for _ in 0..3 {
        nav.next_slide();
    }
    assert_eq!((nav.current_logical_slide, nav.current_page), (1, 3));
    nav.previous_slide();
    assert_eq!(
        (nav.current_logical_slide, nav.current_overlay_within_group, nav.current_page),
        (0, 2, 2)
    );
}

#[test]
fn groups_partition_pages_with_gaps() {
    let metas = vec![
        SlideGroupMeta { start_page: 1, end_page: 2 },
        SlideGroupMeta { start_page: 4, end_page: 7 },
    ];
    let groups = build_slide_groups(6, &metas, &HashMap::new());
    let pages: Vec<Vec<usize>> = groups.iter().map(|g| g.pages.clone()).collect();
    assert_eq!(pages, vec![vec![0], vec![1, 2], vec![3], vec![4, 5]]);
    let indices: Vec<usize> = groups.iter().map(|g| g.logical_index).collect();
    assert_eq!(indices, vec![0, 1, 2, 3]);
}

fn three_groups() -> SlideNavigation {
    navigation(
        6,
        &[
            SlideGroupMeta { start_page: 0, end_page: 2 },
            SlideGroupMeta { start_page: 3, end_page: 4 },
            SlideGroupMeta { start_page: 5, end_page: 5 },
        ],
    )
}

#[test]
fn next_page_is_first_page_of_next_slide() {
    let mut nav = three_groups();
    assert_eq!(nav.next_page(), 3);
    nav.go_to_group(1);
    assert_eq!(nav.next_page(), 5);
    nav.go_to_group(2);
    assert_eq!(nav.next_page(), nav.current_page);
    assert_eq!(nav.next_page(), 5);
}

#[test]
fn logical_slide_page_is_first_page_or_none() {
    let nav = three_groups();
    assert_eq!(nav.logical_slide_page(0), Some(0));
    assert_eq!(nav.logical_slide_page(1), Some(3));
    assert_eq!(nav.logical_slide_page(2), Some(5));
    assert_eq!(nav.logical_slide_page(3), None);
}
