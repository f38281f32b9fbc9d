//! Fuel-optimal impulsive control planning: the discrete core of the planner —
//! problem dimensions, failure classification and its wire contract, request
//! guards, server settings, the coarse candidate-time sampling, the
//! refinement's candidate-set decisions, and the min-fuel variable layout.

pub mod api;
pub mod indices;
pub mod init;
pub mod layout;
pub mod refine;
pub mod server;
pub mod text;
pub mod types;
pub mod wasm;

pub use types::{ErrorClass, PlannerErrorKind, M, N};
