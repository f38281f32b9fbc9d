use koenig_damico_planner::refine::{refine_decision, RefineDecision};

#[test]
fn converged_returns_sorted_active_set() {
    match refine_decision(&[30, 0, 60, 30], &[true, false, true, true], &[], true, 3, 50) {
        RefineDecision::Converged(t_opt) => assert_eq!(t_opt, vec![0, 30, 60]),
        other => panic!("expected Converged, got {other:?}"),
    }
}

#[test]
fn convergence_wins_over_the_iteration_cap() {
    let d = refine_decision(&[5], &[true], &[], true, 50, 50);
    assert!(matches!(d, RefineDecision::Converged(ref t) if t == &vec![5]));
}

#[test]
fn cap_reached_without_convergence_is_not_converged() {
    let d = refine_decision(&[0, 30, 60], &[true, true, true], &[12], false, 1, 1);
    assert!(matches!(d, RefineDecision::NotConverged));
}

#[test]
fn slack_times_drop_and_violated_maxima_join() {
    // Candidates 0 and 60 went slack; 30 stays; maxima 47 and 12 are added.
    match refine_decision(&[0, 30, 60], &[false, true, false], &[47, 12, 30], false, 1, 50) {
        RefineDecision::Continue(next) => assert_eq!(next, vec![12, 30, 47]),
        other => panic!("expected Continue, got {other:?}"),
    }
}

#[test]
fn nothing_kept_and_nothing_added_is_empty() {
    let d = refine_decision(&[4, 8], &[false, false], &[], false, 2, 50);
    assert!(matches!(d, RefineDecision::Empty));
}
