//! The error half of the planner's wire contract: the status class of an
//! error, its stable wire string, and the request-size guards that reject an
//! oversized request before any work is done.

use crate::text::{decimal, push_decimal};
use crate::types::{class_of, ErrorClass, PlannerErrorKind};
use vstd::prelude::*;

verus! {

/// Maximum accepted request-body size in bytes.
pub const MAX_REQUEST_BYTES: usize = 1_048_576;

/// Maximum number of grid points a request may solve over.
pub const MAX_GRID_POINTS: usize = 100_000;

/// Maximum number of targets one sweep may evaluate.
pub const MAX_SWEEP_TARGETS: usize = 100_000;

/// Status class for an [`ApiError`].
#[derive(Debug, Clone, Copy, PartialEq, Eq, Structural)]
pub enum ApiErrorKind {
    /// Invalid input or malformed request: the caller should fix the request.
    BadRequest,
    /// Well-formed input but numerically unsolvable, or a solver failure.
    Solver,
    /// Unexpected internal fault.
    Internal,
}

impl ApiErrorKind {
    /// The stable wire string of this kind.
    pub open spec fn wire_name(self) -> Seq<char> {
        match self {
            ApiErrorKind::BadRequest => "bad_request"@,
            ApiErrorKind::Solver => "solver"@,
            ApiErrorKind::Internal => "internal"@,
        }
    }

    /// The stable wire string (`"bad_request"` / `"solver"` / `"internal"`).
    pub fn as_str(self) -> (s: &'static str)
        ensures
            s@ == self.wire_name(),
    {
        match self {
            ApiErrorKind::BadRequest => "bad_request",
            ApiErrorKind::Solver => "solver",
            ApiErrorKind::Internal => "internal",
        }
    }
}

/// Distinct kinds have distinct wire strings, so a client can recover the
/// kind from the string alone.
pub proof fn lemma_wire_names_distinct(a: ApiErrorKind, b: ApiErrorKind)
    ensures
        a.wire_name() == b.wire_name() ==> a == b,
{
    reveal_strlit("bad_request");
    reveal_strlit("solver");
    reveal_strlit("internal");
    if a != b {
        match (a, b) {
            (ApiErrorKind::BadRequest, ApiErrorKind::Solver) => {
                assert(a.wire_name().len() != b.wire_name().len());
            },
            (ApiErrorKind::Solver, ApiErrorKind::BadRequest) => {
                assert(a.wire_name().len() != b.wire_name().len());
            },
            (ApiErrorKind::BadRequest, ApiErrorKind::Internal) => {
                assert(a.wire_name().len() != b.wire_name().len());
            },
            (ApiErrorKind::Internal, ApiErrorKind::BadRequest) => {
                assert(a.wire_name().len() != b.wire_name().len());
            },
            (ApiErrorKind::Solver, ApiErrorKind::Internal) => {
                assert(a.wire_name()[0] != b.wire_name()[0]);
            },
            (ApiErrorKind::Internal, ApiErrorKind::Solver) => {
                assert(a.wire_name()[0] != b.wire_name()[0]);
            },
            _ => {},
        }
    }
}

/// An owned error for the wire: a status class and a human-readable message.
#[derive(Debug)]
pub struct ApiError {
    /// Status class for the HTTP/Python/WASM frontends.
    pub kind: ApiErrorKind,
    /// Human-readable description of what went wrong.
    pub message: String,
}

/// The wire kind for a failure class: caller-fixable failures are bad
/// requests, unsolvable ones are solver errors.
pub open spec fn kind_for_class(class: ErrorClass) -> ApiErrorKind {
    match class {
        ErrorClass::InvalidInput => ApiErrorKind::BadRequest,
        ErrorClass::Unsolvable => ApiErrorKind::Solver,
    }
}

/// A failure is answered as a bad request exactly when it is an input
/// violation; every other failure is answered as a solver error.
pub proof fn lemma_dispatch_kind_bad_request_iff_invalid_input(kind: PlannerErrorKind)
    ensures
        (kind_for_class(class_of(kind)) == ApiErrorKind::BadRequest) <==> (kind
            == PlannerErrorKind::InvalidInput),
        (kind_for_class(class_of(kind)) == ApiErrorKind::Solver) <==> (kind
            != PlannerErrorKind::InvalidInput),
        kind_for_class(class_of(kind)) != ApiErrorKind::Internal,
{
}

/// A `bad_request` error with the given message.
pub fn bad_request(message: String) -> (e: ApiError)
    ensures
        e.kind == ApiErrorKind::BadRequest,
        e.message == message,
{
    ApiError { kind: ApiErrorKind::BadRequest, message }
}

/// The wire error for a failed planner call of the given kind, carrying the
/// planner's rendered message: input violations become `bad_request`, every
/// other failure `solver`.
pub fn map_dispatch_error(kind: PlannerErrorKind, message: String) -> (e: ApiError)
    ensures
        e.kind == kind_for_class(class_of(kind)),
        e.message == message,
{
    let class = kind.class();
    let api_kind = match class {
        ErrorClass::InvalidInput => ApiErrorKind::BadRequest,
        ErrorClass::Unsolvable => ApiErrorKind::Solver,
    };
    ApiError { kind: api_kind, message }
}

/// The message that rejects a request body of `len` bytes.
pub open spec fn request_size_message(len: nat) -> Seq<char> {
    "request body is "@ + decimal(len) + " bytes (> "@ + decimal(MAX_REQUEST_BYTES as nat)
        + " max)"@
}

/// The message that rejects a grid of `n_points` points.
pub open spec fn grid_size_message(n_points: nat) -> Seq<char> {
    "grid has "@ + decimal(n_points) + " points (> "@ + decimal(MAX_GRID_POINTS as nat)
        + " max); reduce (t_f - t_i)/dt"@
}

/// The message that rejects a sweep of `n_targets` targets.
pub open spec fn sweep_size_message(n_targets: nat) -> Seq<char> {
    "sweep has "@ + decimal(n_targets) + " targets (> "@ + decimal(MAX_SWEEP_TARGETS as nat)
        + " max); reduce w_list"@
}

/// Reject a request body longer than [`MAX_REQUEST_BYTES`].
pub fn check_request_size(len: usize) -> (r: Result<(), ApiError>)
    ensures
        r is Err <==> len > MAX_REQUEST_BYTES,
        r matches Err(e) ==> e.kind == ApiErrorKind::BadRequest && e.message@
            == request_size_message(len as nat),
{
    if len > MAX_REQUEST_BYTES {
        let mut m = String::from_str("request body is ");
        push_decimal(&mut m, len as u64);
        m.append(" bytes (> ");
        push_decimal(&mut m, MAX_REQUEST_BYTES as u64);
        m.append(" max)");
        Err(ApiError { kind: ApiErrorKind::BadRequest, message: m })
    } else {
        Ok(())
    }
}

/// Reject a grid with more than [`MAX_GRID_POINTS`] points, before any
/// allocation sized by it.
pub fn check_grid_size(n_points: usize) -> (r: Result<(), ApiError>)
    ensures
        r is Err <==> n_points > MAX_GRID_POINTS,
        r matches Err(e) ==> e.kind == ApiErrorKind::BadRequest && e.message@
            == grid_size_message(n_points as nat),
{
    if n_points > MAX_GRID_POINTS {
        let mut m = String::from_str("grid has ");
        push_decimal(&mut m, n_points as u64);
        m.append(" points (> ");
        push_decimal(&mut m, MAX_GRID_POINTS as u64);
        m.append(" max); reduce (t_f - t_i)/dt");
        Err(ApiError { kind: ApiErrorKind::BadRequest, message: m })
    } else {
        Ok(())
    }
}

/// Reject a sweep of more than [`MAX_SWEEP_TARGETS`] targets.
pub fn check_sweep_size(n_targets: usize) -> (r: Result<(), ApiError>)
    ensures
        r is Err <==> n_targets > MAX_SWEEP_TARGETS,
        r matches Err(e) ==> e.kind == ApiErrorKind::BadRequest && e.message@
            == sweep_size_message(n_targets as nat),
{
    if n_targets > MAX_SWEEP_TARGETS {
        let mut m = String::from_str("sweep has ");
        push_decimal(&mut m, n_targets as u64);
        m.append(" targets (> ");
        push_decimal(&mut m, MAX_SWEEP_TARGETS as u64);
        m.append(" max); reduce w_list");
        Err(ApiError { kind: ApiErrorKind::BadRequest, message: m })
    } else {
        Ok(())
    }
}

} // verus!
