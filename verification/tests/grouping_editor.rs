use dais::grouping_editor::{compute_groups, group_records, groups_to_boundaries, toggle_boundary};

#[test]
fn toggling_adds_and_removes_boundaries_in_order() {
    let mut boundaries = vec![2, 7];
    toggle_boundary(&mut boundaries, 4);
    assert_eq!(boundaries, vec![2, 4, 7]);
    toggle_boundary(&mut boundaries, 2);
    assert_eq!(boundaries, vec![4, 7]);
    toggle_boundary(&mut boundaries, 9);
    assert_eq!(boundaries, vec![4, 7, 9]);
}

#[test]
fn page_zero_is_never_toggled() {
    let mut boundaries = vec![3];
    toggle_boundary(&mut boundaries, 0);
    assert_eq!(boundaries, vec![3]);
}

#[test]
fn toggling_twice_restores_boundaries() {
    let mut boundaries = vec![1, 5, 8];
    toggle_boundary(&mut boundaries, 5);
    toggle_boundary(&mut boundaries, 5);
    assert_eq!(boundaries, vec![1, 5, 8]);
    toggle_boundary(&mut boundaries, 3);
    toggle_boundary(&mut boundaries, 3);
    assert_eq!(boundaries, vec![1, 5, 8]);
}

#[test]
fn groups_cut_the_document_at_boundaries() {
    let groups = compute_groups(&vec![2, 5], 7);
    assert_eq!(groups, vec![vec![0, 1], vec![2, 3, 4], vec![5, 6]]);
    assert_eq!(compute_groups(&Vec::new(), 3), vec![vec![0, 1, 2]]);
    assert!(compute_groups(&vec![1], 0).is_empty());
}

#[test]
fn groups_sort_and_dedup_boundaries() {
    let groups = compute_groups(&vec![4, 0, 2, 4], 5);
    assert_eq!(groups, vec![vec![0, 1], vec![2, 3], vec![4]]);
}

#[test]
fn boundary_past_the_end_extends_the_group_before_it() {
    let groups = compute_groups(&vec![7], 5);
    assert_eq!(groups, vec![(0..7).collect::<Vec<usize>>()]);
}

#[test]
fn saved_groups_load_back_as_boundaries() {
    let boundaries = vec![1, 4, 6];
    let records = group_records(&compute_groups(&boundaries, 9));
    assert_eq!(records.len(), 4);
    assert_eq!((records[0].start_page, records[0].end_page), (0, 0));
    assert_eq!((records[1].start_page, records[1].end_page), (1, 3));
    assert_eq!((records[3].start_page, records[3].end_page), (6, 8));
    assert_eq!(groups_to_boundaries(&records, 9), boundaries);
}

#[test]
fn empty_group_records_start_and_end_at_page_zero() {
    let records = group_records(&vec![Vec::new(), vec![3]]);
    assert_eq!((records[0].start_page, records[0].end_page), (0, 0));
    assert_eq!((records[1].start_page, records[1].end_page), (3, 3));
}
