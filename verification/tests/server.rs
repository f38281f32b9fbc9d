use koenig_damico_planner::api::ApiErrorKind;
use koenig_damico_planner::server::{
    internal_error, parse_config, status_for_kind, DEFAULT_MAX_CONCURRENCY, DEFAULT_TIMEOUT_SECS,
};
use std::time::Duration;

#[test]
fn parse_config_uses_defaults_when_absent_or_invalid() {
    // Absent -> defaults.
    let c = parse_config(None, None);
    assert_eq!(c.max_concurrency, DEFAULT_MAX_CONCURRENCY);
    assert_eq!(
        Duration::from_secs(c.timeout_secs),
        Duration::from_secs(DEFAULT_TIMEOUT_SECS)
    );

    // Unparseable -> defaults (must not panic).
    let c = parse_config(Some("abc".into()), Some("-5".into()));
    assert_eq!(c.max_concurrency, DEFAULT_MAX_CONCURRENCY);
    assert_eq!(
        Duration::from_secs(c.timeout_secs),
        Duration::from_secs(DEFAULT_TIMEOUT_SECS)
    );

    // Zero -> defaults (0 concurrency would deadlock; 0 s would reject all).
    let c = parse_config(Some("0".into()), Some("0".into()));
    assert_eq!(c.max_concurrency, DEFAULT_MAX_CONCURRENCY);
    assert_eq!(
        Duration::from_secs(c.timeout_secs),
        Duration::from_secs(DEFAULT_TIMEOUT_SECS)
    );
}

#[test]
fn parse_config_reads_valid_values() {
    let c = parse_config(Some("30".into()), Some("128".into()));
    assert_eq!(Duration::from_secs(c.timeout_secs), Duration::from_secs(30));
    assert_eq!(c.max_concurrency, 128);
}

#[test]
fn parse_config_trims_white_space_and_accepts_plus() {
    let c = parse_config(Some("  \t45\n".into()), Some("+7".into()));
    assert_eq!(c.timeout_secs, 45);
    assert_eq!(c.max_concurrency, 7);
    // Unicode white space (no-break space, ideographic space) is trimmed too.
    let c = parse_config(Some("\u{a0}12\u{3000}".into()), Some("\u{2003}9".into()));
    assert_eq!(c.timeout_secs, 12);
    assert_eq!(c.max_concurrency, 9);
}

#[test]
fn parse_config_rejects_malformed_numbers() {
    for bad in ["", " ", "+", "++1", "1 2", "1.5", "0x10", "-0", "٣"] {
        let c = parse_config(Some(bad.into()), Some(bad.into()));
        assert_eq!(c.timeout_secs, DEFAULT_TIMEOUT_SECS, "input {bad:?}");
        assert_eq!(c.max_concurrency, DEFAULT_MAX_CONCURRENCY, "input {bad:?}");
    }
}

#[test]
fn parse_config_overflow_falls_back_to_default() {
    let c = parse_config(Some("18446744073709551616".into()), None);
    assert_eq!(c.timeout_secs, DEFAULT_TIMEOUT_SECS);
    let c = parse_config(Some("18446744073709551615".into()), None);
    assert_eq!(c.timeout_secs, u64::MAX);
    let c = parse_config(None, Some(format!("{}", usize::MAX)));
    assert_eq!(c.max_concurrency, usize::MAX);
    let c = parse_config(None, Some(format!("{}0", usize::MAX)));
    assert_eq!(c.max_concurrency, DEFAULT_MAX_CONCURRENCY);
}

#[test]
fn parse_config_accepts_leading_zeros() {
    let c = parse_config(Some("007".into()), Some("0010".into()));
    assert_eq!(c.timeout_secs, 7);
    assert_eq!(c.max_concurrency, 10);
}

#[test]
fn app_error_maps_bad_request_to_400() {
    assert_eq!(status_for_kind(ApiErrorKind::BadRequest), 400);
}

#[test]
fn app_error_maps_solver_to_422() {
    assert_eq!(status_for_kind(ApiErrorKind::Solver), 422);
}

#[test]
fn app_error_maps_internal_to_500() {
    assert_eq!(status_for_kind(ApiErrorKind::Internal), 500);
}

#[test]
fn internal_error_is_uniform_and_generic() {
    let e = internal_error();
    assert_eq!(e.kind, ApiErrorKind::Internal);
    assert_eq!(e.message, "internal server error");
}
