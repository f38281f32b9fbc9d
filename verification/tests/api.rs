use koenig_damico_planner::api::{
    bad_request, check_grid_size, check_request_size, check_sweep_size, map_dispatch_error,
    ApiErrorKind, MAX_GRID_POINTS, MAX_REQUEST_BYTES, MAX_SWEEP_TARGETS,
};
use koenig_damico_planner::PlannerErrorKind;

#[test]
fn api_error_kind_wire_strings_are_stable() {
    for (kind, want) in [
        (ApiErrorKind::BadRequest, "bad_request"),
        (ApiErrorKind::Solver, "solver"),
        (ApiErrorKind::Internal, "internal"),
    ] {
        assert_eq!(kind.as_str(), want);
    }
}

#[test]
fn grid_at_cap_is_accepted_and_one_over_is_rejected() {
    assert!(check_grid_size(MAX_GRID_POINTS).is_ok());
    assert!(check_grid_size(0).is_ok());
    let err = check_grid_size(MAX_GRID_POINTS + 1).expect_err("MAX_GRID_POINTS + 1 must be rejected");
    assert_eq!(err.kind, ApiErrorKind::BadRequest);
    assert!(err.message.contains("grid") && err.message.contains("max"));
    assert_eq!(
        err.message,
        "grid has 100001 points (> 100000 max); reduce (t_f - t_i)/dt"
    );
}

#[test]
fn oversized_grid_message_names_the_count() {
    // A tiny dt over the worked-example window: 117 990 001 points.
    let err = check_grid_size(117_990_001).unwrap_err();
    assert_eq!(err.kind.as_str(), "bad_request");
    assert_eq!(
        err.message,
        "grid has 117990001 points (> 100000 max); reduce (t_f - t_i)/dt"
    );
}

#[test]
fn request_size_cap_is_strict() {
    assert!(check_request_size(MAX_REQUEST_BYTES).is_ok());
    let err = check_request_size(MAX_REQUEST_BYTES + 1).unwrap_err();
    assert_eq!(err.kind, ApiErrorKind::BadRequest);
    assert_eq!(
        err.message,
        "request body is 1048577 bytes (> 1048576 max)"
    );
}

#[test]
fn sweep_size_cap_is_strict() {
    assert!(check_sweep_size(MAX_SWEEP_TARGETS).is_ok());
    let err = check_sweep_size(MAX_SWEEP_TARGETS + 1).unwrap_err();
    assert_eq!(err.kind, ApiErrorKind::BadRequest);
    assert_eq!(
        err.message,
        "sweep has 100001 targets (> 100000 max); reduce w_list"
    );
}

#[test]
fn dispatch_errors_map_by_class() {
    let e = map_dispatch_error(PlannerErrorKind::InvalidInput, "invalid input: bad w".into());
    assert_eq!(e.kind, ApiErrorKind::BadRequest);
    assert_eq!(e.message, "invalid input: bad w");
    for k in [
        PlannerErrorKind::SolverFailed,
        PlannerErrorKind::NotConverged,
        PlannerErrorKind::KeplerDivergence,
    ] {
        let e = map_dispatch_error(k, "x".into());
        assert_eq!(e.kind, ApiErrorKind::Solver);
        assert_eq!(e.message, "x");
    }
}

#[test]
fn bad_request_keeps_message() {
    let e = bad_request("grid requires dt > 0".into());
    assert_eq!(e.kind, ApiErrorKind::BadRequest);
    assert_eq!(e.message, "grid requires dt > 0");
}
