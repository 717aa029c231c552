//! Tools that look for bottlenecks in a kernel's metrics.
pub mod invoke;
pub mod laws;
pub mod metric;
pub mod numeric;
pub mod output;
pub mod sass;
pub mod tool;
