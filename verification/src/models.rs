//! Contracts for what a model answers: the form that is asked for, and reading an answer by it.
pub mod answers;
pub mod laws;
pub mod normalize;
pub mod refusal;
pub mod roles;
pub mod strict;
