use koenig_damico_planner::indices::sorted_unique;

#[test]
fn snapped_indices_are_sorted_and_deduplicated() {
    // Times 26, 4, 24 on a 10 s grid snap to 3, 0, 2.
    assert_eq!(sorted_unique(&[3, 0, 2]), vec![0, 2, 3]);
    // Times 50, 51, 49 all snap to 5.
    assert_eq!(sorted_unique(&[5, 5, 5]), vec![5]);
    // Endpoints.
    assert_eq!(sorted_unique(&[0, 10]), vec![0, 10]);
}

#[test]
fn sorted_unique_of_nothing_is_empty() {
    assert!(sorted_unique(&[]).is_empty());
}

#[test]
fn sorted_unique_is_idempotent() {
    let once = sorted_unique(&[9, 1, 4, 1, 9, 0, 7]);
    assert_eq!(once, vec![0, 1, 4, 7, 9]);
    assert_eq!(sorted_unique(&once), once);
}
