//! Transport settings and status mapping for the HTTP service: how the
//! optional environment settings resolve to limits, which status code answers
//! each error kind, and the uniform body of an internal fault.

use crate::api::{ApiError, ApiErrorKind};
use crate::text::{
    all_white_space, decimal, lemma_parse_ignores_surrounding_white_space,
    lemma_parse_reads_back_decimal, parse_trimmed_unsigned, parse_unsigned, trim,
};
use vstd::prelude::*;

verus! {

/// Default cap on simultaneous in-flight solves.
pub const DEFAULT_MAX_CONCURRENCY: usize = 64;

/// Default per-request timeout, in seconds.
pub const DEFAULT_TIMEOUT_SECS: u64 = 10;

/// Resolved transport-hardening limits.
#[derive(Debug, Clone, Copy, PartialEq, Eq, Structural)]
pub struct ServerConfig {
    /// Cap on simultaneous in-flight requests.
    pub max_concurrency: usize,
    /// Per-request timeout, in whole seconds.
    pub timeout_secs: u64,
}

/// The value an optional setting resolves to: the text, trimmed, read as an
/// unsigned integer no larger than `max`, when that reading exists and is
/// positive; `default` otherwise (absent, unparseable, or zero).
pub open spec fn resolved_setting(text: Option<Seq<char>>, max: nat, default: nat) -> nat {
    match text {
        Some(t) => match parse_unsigned(trim(t), max) {
            Some(v) => if v > 0 {
                v
            } else {
                default
            },
            None => default,
        },
        None => default,
    }
}

/// The view of an optional owned string.
pub open spec fn text_of(s: Option<String>) -> Option<Seq<char>> {
    match s {
        Some(x) => Some(x@),
        None => None,
    }
}

/// Read one optional setting.
fn resolve(text: Option<String>, max: u64, default: u64) -> (v: u64)
    requires
        0 < default <= max,
    ensures
        v as nat == resolved_setting(text_of(text), max as nat, default as nat),
{
    match text {
        Some(s) => match parse_trimmed_unsigned(s.as_str(), max) {
            Some(v) => if v > 0 {
                v
            } else {
                default
            },
            None => default,
        },
        None => default,
    }
}

/// Resolve the limits from the optional setting strings, falling back to the
/// defaults on absent, unparseable, or zero values. Never fails.
pub fn parse_config(timeout_secs: Option<String>, max_concurrency: Option<String>) -> (c:
    ServerConfig)
    ensures
        c.timeout_secs as nat == resolved_setting(
            text_of(timeout_secs),
            u64::MAX as nat,
            DEFAULT_TIMEOUT_SECS as nat,
        ),
        c.max_concurrency as nat == resolved_setting(
            text_of(max_concurrency),
            usize::MAX as nat,
            DEFAULT_MAX_CONCURRENCY as nat,
        ),
        c.timeout_secs > 0,
        c.max_concurrency > 0,
{
    let t = resolve(timeout_secs, u64::MAX, DEFAULT_TIMEOUT_SECS);
    let m = resolve(max_concurrency, usize::MAX as u64, DEFAULT_MAX_CONCURRENCY as u64);
    ServerConfig { max_concurrency: m as usize, timeout_secs: t }
}

/// A positive setting written as decimal text reads back as the value written.
pub proof fn lemma_written_setting_reads_back(n: nat, max: nat, default: nat)
    requires
        0 < n <= max,
    ensures
        resolved_setting(Some(decimal(n)), max, default) == n,
{
    lemma_parse_reads_back_decimal(n, max);
}

/// White space around a written setting (a trailing line break, a leading
/// space) does not change what it reads back as.
pub proof fn lemma_padded_setting_reads_back(
    n: nat,
    max: nat,
    default: nat,
    before: Seq<char>,
    after: Seq<char>,
)
    requires
        0 < n <= max,
        all_white_space(before),
        all_white_space(after),
    ensures
        resolved_setting(Some(before + decimal(n) + after), max, default) == n,
{
    lemma_parse_ignores_surrounding_white_space(n, max, before, after);
}

/// The HTTP status code that answers an error of the given kind.
pub open spec fn status_code(kind: ApiErrorKind) -> u16 {
    match kind {
        ApiErrorKind::BadRequest => 400,
        ApiErrorKind::Solver => 422,
        ApiErrorKind::Internal => 500,
    }
}

/// Map an error kind to its response status: 400 for a bad request, 422 for
/// an unsolvable request, 500 for an internal fault.
pub fn status_for_kind(kind: ApiErrorKind) -> (s: u16)
    ensures
        s == status_code(kind),
{
    match kind {
        ApiErrorKind::BadRequest => 400,
        ApiErrorKind::Solver => 422,
        ApiErrorKind::Internal => 500,
    }
}

/// Distinct error kinds answer with distinct status codes, and every code is
/// an error status (4xx or 5xx).
pub proof fn lemma_status_codes_distinct(a: ApiErrorKind, b: ApiErrorKind)
    ensures
        status_code(a) == status_code(b) ==> a == b,
        400 <= status_code(a) < 600,
{
}

/// The body of the uniform answer to an internal fault. It never carries the
/// fault's own details.
pub fn internal_error() -> (e: ApiError)
    ensures
        e.kind == ApiErrorKind::Internal,
        e.message@ == "internal server error"@,
{
    ApiError { kind: ApiErrorKind::Internal, message: String::from_str("internal server error") }
}

} // verus!
