//! Combinators over size hints: a lower bound and an optional upper bound on
//! how many units of input an operation consumes.
pub mod laws;
pub mod model;
pub mod ops;

pub use model::SizeHint;
pub use ops::{and, and_all, and_all_lazy, or, or_all, or_all_lazy, recursion_guard, MAX_DEPTH};
