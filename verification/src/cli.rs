//! What a run is asked for.
use vstd::prelude::*;

verus! {

/// The command line.
#[derive(Debug)]
pub struct KernelCli {
    pub command: KernelCommand,
}

/// The commands.
#[derive(Debug)]
pub enum KernelCommand {
    /// Optimize a kernel with sessions whose candidates are scored by an evaluator.
    Optimize(OptimizeArgs),
}

/// What scores the candidates.
#[derive(Clone, Copy, Debug, PartialEq, Eq, Structural)]
pub enum Evaluator {
    Gpu,
    Simulated,
}

/// The arguments of an optimization.
#[derive(Debug)]
pub struct OptimizeArgs {
    pub dataset: String,
    pub dataset_root: String,
    pub cutlass_root: Option<String>,
    pub task: String,
    pub level: u8,
    pub strategy: String,
    pub search_config: Option<String>,
    pub iterations: Option<usize>,
    pub candidates: Option<usize>,
    pub parallel_sessions: usize,
    pub model: String,
    pub provider: String,
    pub reference_model: Option<String>,
    pub profile_model: Option<String>,
    pub memory_model: Option<String>,
    pub python: Option<String>,
    pub worker: Option<String>,
    pub output: String,
    pub evaluator: Evaluator,
    /// A synthetic scenario that is trusted and that no candidate controls.
    pub scenario: Option<String>,
    pub profiling: String,
    pub ncu_full: bool,
    pub memory_off: bool,
    pub hint: Option<String>,
    pub gpus: Vec<usize>,
    pub timeout_seconds: u64,
    pub strict_config: bool,
}

/// The name of an evaluator.
pub open spec fn backend_name(evaluator: Evaluator) -> Seq<char> {
    match evaluator {
        Evaluator::Gpu => "gpu"@,
        Evaluator::Simulated => "simulated"@,
    }
}

impl OptimizeArgs {
    /// The name of the evaluator.
    pub fn backend(&self) -> (name: &'static str)
        ensures
            name@ == backend_name(self.evaluator),
    {
        match self.evaluator {
            Evaluator::Gpu => "gpu",
            Evaluator::Simulated => "simulated",
        }
    }
}

} // verus!
