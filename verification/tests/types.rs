use koenig_damico_planner::{ErrorClass, PlannerErrorKind, M, N};

#[test]
fn dimensions_match_roe_and_rtn() {
    assert_eq!(N, 6);
    assert_eq!(M, 3);
}

#[test]
fn reexports_are_reachable() {
    assert_eq!(N, 6);
    assert_eq!(M, 3);
}

#[test]
fn error_class_partitions_every_variant() {
    assert_eq!(
        PlannerErrorKind::InvalidInput.class(),
        ErrorClass::InvalidInput
    );
    assert_eq!(PlannerErrorKind::SolverFailed.class(), ErrorClass::Unsolvable);
    assert_eq!(PlannerErrorKind::NotConverged.class(), ErrorClass::Unsolvable);
    assert_eq!(
        PlannerErrorKind::KeplerDivergence.class(),
        ErrorClass::Unsolvable
    );
}
