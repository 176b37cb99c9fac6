//! Weighted least-squares temperament fitting: the observation system.
//!
//! A temperament is described by the positions of the non-reference pitches of
//! one repeating cycle. Every (interval class, key) pair yields one equation of
//! a linear system; this crate builds that system exactly: its integer design
//! matrix, its target vector (with the wraparound across the cycle) and its
//! weight vector. The arithmetic on the real values is supplied by the caller.

pub mod criteria;
pub mod observation;

pub use criteria::{Criteria, CriteriaError, CriteriaView, SingularSystem};
