//! Core value types that carry no numeric payload: the problem dimensions and
//! the classification of planner failures.

use vstd::prelude::*;

verus! {

/// State dimension: six quasi-nonsingular relative orbital elements (ROEs).
pub const N: usize = 6;

/// Control dimension: three RTN delta-v components (R, T, N).
pub const M: usize = 3;

/// Which way a planner call failed, without the diagnostic values it carries.
///
/// `InvalidInput` is a violated input precondition; the other three are
/// failures of a well-formed problem: the convex solver failed, the refinement
/// did not converge within its iteration cap, or a Kepler solve diverged.
#[derive(Debug, Clone, Copy, PartialEq, Eq, Structural)]
pub enum PlannerErrorKind {
    SolverFailed,
    NotConverged,
    KeplerDivergence,
    InvalidInput,
}

/// Coarse, transport-agnostic category of a planner failure.
#[derive(Debug, Clone, Copy, PartialEq, Eq, Structural)]
#[non_exhaustive]
pub enum ErrorClass {
    /// Caller-fixable: the request was malformed; correct the inputs.
    InvalidInput,
    /// The request was well-formed but could not be solved.
    Unsolvable,
}

/// The class of a failure kind: input violations are caller-fixable, every
/// other kind is unsolvable.
pub open spec fn class_of(kind: PlannerErrorKind) -> ErrorClass {
    match kind {
        PlannerErrorKind::InvalidInput => ErrorClass::InvalidInput,
        _ => ErrorClass::Unsolvable,
    }
}

impl PlannerErrorKind {
    /// Classify this failure into a coarse [`ErrorClass`] for transport mapping.
    pub fn class(self) -> (c: ErrorClass)
        ensures
            c == class_of(self),
    {
        match self {
            PlannerErrorKind::InvalidInput => ErrorClass::InvalidInput,
            PlannerErrorKind::SolverFailed
            | PlannerErrorKind::NotConverged
            | PlannerErrorKind::KeplerDivergence => ErrorClass::Unsolvable,
        }
    }
}

/// The two classes partition the failure kinds: a kind is caller-fixable
/// exactly when it is an input violation, and unsolvable otherwise.
pub proof fn lemma_classes_partition_kinds(kind: PlannerErrorKind)
    ensures
        (class_of(kind) == ErrorClass::InvalidInput) <==> (kind == PlannerErrorKind::InvalidInput),
        (class_of(kind) == ErrorClass::Unsolvable) <==> (kind != PlannerErrorKind::InvalidInput),
{
}

} // verus!
