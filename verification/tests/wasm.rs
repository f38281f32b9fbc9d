use koenig_damico_planner::api;
use koenig_damico_planner::wasm;

#[test]
fn api_error_maps_kind_and_message() {
    let e = api::ApiError {
        kind: api::ApiErrorKind::BadRequest,
        message: "boom".to_string(),
    };
    let m: wasm::ApiError = e.into();
    assert_eq!(m.kind, wasm::ApiErrorKind::BadRequest);
    assert_eq!(m.message, "boom");
}

#[test]
fn every_wire_kind_maps_to_its_mirror() {
    assert_eq!(
        wasm::ApiErrorKind::from(api::ApiErrorKind::BadRequest),
        wasm::ApiErrorKind::BadRequest
    );
    assert_eq!(
        wasm::ApiErrorKind::from(api::ApiErrorKind::Solver),
        wasm::ApiErrorKind::Solver
    );
    assert_eq!(
        wasm::ApiErrorKind::from(api::ApiErrorKind::Internal),
        wasm::ApiErrorKind::Internal
    );
}
