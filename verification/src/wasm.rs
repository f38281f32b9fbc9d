//! The error types of the browser boundary. They mirror the wire error of
//! [`crate::api`] field for field, so an error crosses the boundary with its
//! class and message intact.

use crate::api;
use vstd::prelude::*;

verus! {

/// Status class for an [`ApiError`]; the same three classes as
/// [`api::ApiErrorKind`].
#[derive(Debug, Clone, Copy, PartialEq, Eq, Structural)]
pub enum ApiErrorKind {
    BadRequest,
    Solver,
    Internal,
}

/// An error as the browser receives it: a status class and a message.
#[derive(Debug)]
pub struct ApiError {
    pub kind: ApiErrorKind,
    pub message: String,
}

/// The browser-side class of a wire class: the variant of the same name.
pub open spec fn mirror_kind(k: api::ApiErrorKind) -> ApiErrorKind {
    match k {
        api::ApiErrorKind::BadRequest => ApiErrorKind::BadRequest,
        api::ApiErrorKind::Solver => ApiErrorKind::Solver,
        api::ApiErrorKind::Internal => ApiErrorKind::Internal,
    }
}

impl From<api::ApiErrorKind> for ApiErrorKind {
    fn from(k: api::ApiErrorKind) -> (r: ApiErrorKind)
        ensures
            r == mirror_kind(k),
    {
        match k {
            api::ApiErrorKind::BadRequest => ApiErrorKind::BadRequest,
            api::ApiErrorKind::Solver => ApiErrorKind::Solver,
            api::ApiErrorKind::Internal => ApiErrorKind::Internal,
        }
    }
}

impl vstd::std_specs::convert::FromSpecImpl<api::ApiErrorKind> for ApiErrorKind {
    open spec fn obeys_from_spec() -> bool {
        true
    }

    open spec fn from_spec(k: api::ApiErrorKind) -> ApiErrorKind {
        mirror_kind(k)
    }
}

impl From<api::ApiError> for ApiError {
    fn from(e: api::ApiError) -> (r: ApiError)
        ensures
            r.kind == mirror_kind(e.kind),
            r.message == e.message,
    {
        let kind = match e.kind {
            api::ApiErrorKind::BadRequest => ApiErrorKind::BadRequest,
            api::ApiErrorKind::Solver => ApiErrorKind::Solver,
            api::ApiErrorKind::Internal => ApiErrorKind::Internal,
        };
        ApiError { kind, message: e.message }
    }
}

impl vstd::std_specs::convert::FromSpecImpl<api::ApiError> for ApiError {
    open spec fn obeys_from_spec() -> bool {
        true
    }

    open spec fn from_spec(e: api::ApiError) -> ApiError {
        ApiError { kind: mirror_kind(e.kind), message: e.message }
    }
}

/// The mirror keeps the classes apart: two wire classes map to the same
/// browser class only when they are the same class.
pub proof fn lemma_mirror_kind_injective(a: api::ApiErrorKind, b: api::ApiErrorKind)
    ensures
        mirror_kind(a) == mirror_kind(b) ==> a == b,
{
}

/// Each wire class crosses the boundary as the browser class of the same
/// name: bad requests stay bad requests, unsolvable requests stay solver
/// errors, and internal faults stay internal.
pub proof fn lemma_mirror_kind_same_class(k: api::ApiErrorKind)
    ensures
        (mirror_kind(k) == ApiErrorKind::BadRequest) <==> (k == api::ApiErrorKind::BadRequest),
        (mirror_kind(k) == ApiErrorKind::Solver) <==> (k == api::ApiErrorKind::Solver),
        (mirror_kind(k) == ApiErrorKind::Internal) <==> (k == api::ApiErrorKind::Internal),
{
}

/// Converting a whole wire error keeps its class and its message: the class
/// of the converted error is the conversion of the wire class, and the
/// message is handed over unchanged.
pub proof fn lemma_error_mirror_keeps_kind_and_message(e: api::ApiError)
    ensures
        <ApiError as vstd::std_specs::convert::FromSpec<api::ApiError>>::from_spec(e).kind
            == <ApiErrorKind as vstd::std_specs::convert::FromSpec<
            api::ApiErrorKind,
        >>::from_spec(e.kind),
        <ApiError as vstd::std_specs::convert::FromSpec<api::ApiError>>::from_spec(e).kind
            == mirror_kind(e.kind),
        <ApiError as vstd::std_specs::convert::FromSpec<api::ApiError>>::from_spec(e).message
            == e.message,
{
}

} // verus!
