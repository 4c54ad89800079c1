use std::collections::HashMap;

use dais::overview::{overview_key, thumbnail_page, NavigateDir, OverviewRequest};
use dais::slide_group::{build_slide_groups, SlideGroupMeta};

#[test]
fn arrows_move_within_the_grid() {
    // 10 slides in rows of 4.
    assert_eq!(overview_key(0, 4, 10, NavigateDir::Right), (1, OverviewRequest::Stay));
    assert_eq!(overview_key(9, 4, 10, NavigateDir::Right), (9, OverviewRequest::Stay));
    assert_eq!(overview_key(0, 4, 10, NavigateDir::Left), (0, OverviewRequest::Stay));
    assert_eq!(overview_key(5, 4, 10, NavigateDir::Left), (4, OverviewRequest::Stay));
    assert_eq!(overview_key(5, 4, 10, NavigateDir::Down), (9, OverviewRequest::Stay));
    assert_eq!(overview_key(6, 4, 10, NavigateDir::Down), (6, OverviewRequest::Stay));
    assert_eq!(overview_key(6, 4, 10, NavigateDir::Up), (2, OverviewRequest::Stay));
    assert_eq!(overview_key(3, 4, 10, NavigateDir::Up), (3, OverviewRequest::Stay));
}

#[test]
fn enter_jumps_and_escape_closes() {
    assert_eq!(overview_key(7, 4, 10, NavigateDir::Select), (7, OverviewRequest::GoTo(7)));
    assert_eq!(overview_key(7, 4, 10, NavigateDir::Close), (7, OverviewRequest::Close));
}

#[test]
fn thumbnails_show_first_page_of_each_slide() {
    let groups = build_slide_groups(
        6,
        &vec![SlideGroupMeta { start_page: 1, end_page: 3 }],
        &HashMap::new(),
    );
    assert_eq!(thumbnail_page(&groups, 0), 0);
    assert_eq!(thumbnail_page(&groups, 1), 1);
    assert_eq!(thumbnail_page(&groups, 2), 4);
    assert_eq!(thumbnail_page(&groups, 9), 9);
}
