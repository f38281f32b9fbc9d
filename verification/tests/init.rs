use koenig_damico_planner::init::coarse_indices;

#[test]
fn coarse_indices_span_endpoints_and_dedup() {
    assert_eq!(
        coarse_indices(101, 11),
        vec![0, 10, 20, 30, 40, 50, 60, 70, 80, 90, 100]
    );
    assert_eq!(coarse_indices(1, 20), vec![0]); // clamped to grid_len
    assert_eq!(coarse_indices(5, 1), vec![0]); // n_coarse == 1
    let big = coarse_indices(3, 10); // clamp to 3 -> [0,1,2]
    assert_eq!(big, vec![0, 1, 2]);
}

#[test]
fn coarse_indices_zero_request_draws_one_index() {
    assert_eq!(coarse_indices(50, 0), vec![0]);
}

#[test]
fn coarse_indices_round_half_up() {
    // 4 indices over 6 points: j * 5 / 3 = 0, 1.67, 3.33, 5 -> 0, 2, 3, 5.
    assert_eq!(coarse_indices(6, 4), vec![0, 2, 3, 5]);
    // 3 indices over 4 points: j * 3 / 2 = 0, 1.5, 3 -> 0, 2, 3 (half rounds up).
    assert_eq!(coarse_indices(4, 3), vec![0, 2, 3]);
}

#[test]
fn coarse_indices_worked_example_grid() {
    // Default 20 coarse samples over the 3934-point worked-example grid.
    let idx = coarse_indices(3934, 20);
    assert_eq!(idx.len(), 20);
    assert_eq!(idx[0], 0);
    assert_eq!(idx[1], 207); // 3933 / 19 = 207
    assert_eq!(idx[19], 3933);
    assert!(idx.windows(2).all(|w| w[0] < w[1]));
}

#[test]
fn coarse_indices_full_grid_when_count_matches() {
    assert_eq!(coarse_indices(7, 7), vec![0, 1, 2, 3, 4, 5, 6]);
    assert_eq!(coarse_indices(2, 2), vec![0, 1]);
}

#[test]
fn coarse_indices_huge_grid_does_not_overflow() {
    let idx = coarse_indices(usize::MAX, 3);
    assert_eq!(idx, vec![0, (usize::MAX - 1) / 2, usize::MAX - 1]);
}
