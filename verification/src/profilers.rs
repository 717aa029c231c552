//! What the profilers print.
pub mod laws;
pub mod ncu;
pub mod rules;
pub mod sass;
