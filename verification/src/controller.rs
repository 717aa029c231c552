//! The rules of a run, and its records.
pub mod briefing;
pub mod laws;
pub mod machine;
pub mod run;

use crate::cli;
use crate::cli::{Evaluator, OptimizeArgs};
use crate::fields;
use crate::fields::{natural, optional_text, text, Fields};
use crate::json;
use crate::json::{Json, JsonView};
use crate::number::Real;
use crate::pieces;
use crate::roles;
use crate::roles::chosen_model;
use crate::search::config::{SearchConfig, Strategy};
use crate::search::node::{NodeId, NodeView, Status};
use crate::search::state::SearchState;
use crate::table::Table;
use crate::text::same;
use vstd::prelude::*;

verus! {

/// The rank of minus a hundred.
pub const MINUS_HUNDRED: i64 = -0x4059_0000_0000_0000;

/// What a run may not be asked, if it is asked it; `exists` says whether its output is there.
pub open spec fn arguments_refusal(args: OptimizeArgs, exists: bool) -> Option<Seq<char>> {
    if exists {
        Some("output already exists; select a new run directory"@)
    } else if args.timeout_seconds == 0 || args.gpus@.len() == 0 {
        Some("invalid worker budget"@)
    } else if args.evaluator == Evaluator::Simulated && args.scenario is None {
        Some("simulated evaluation requires --scenario"@)
    } else {
        None
    }
}

/// Refuses what a run may not be asked.
pub fn check_arguments(args: &OptimizeArgs, exists: bool) -> (checked: Result<(), String>)
    ensures
        pieces::trouble(checked) == arguments_refusal(*args, exists),
{
    if exists {
        return Err("output already exists; select a new run directory".to_owned());
    }
    if args.timeout_seconds == 0 || args.gpus.len() == 0 {
        return Err("invalid worker budget".to_owned());
    }
    if args.evaluator == Evaluator::Simulated && args.scenario.is_none() {
        return Err("simulated evaluation requires --scenario".to_owned());
    }
    Ok(())
}

/// What a run on a GPU lacks, if it lacks something; `is_file` says whether its Python is a file.
pub open spec fn gpu_refusal(args: OptimizeArgs, is_file: bool) -> Option<Seq<char>> {
    if args.evaluator != Evaluator::Gpu {
        None
    } else if args.python is None {
        Some("GPU workloads require --python"@)
    } else if !is_file {
        Some("configured venv Python not found"@)
    } else if args.worker is None {
        Some("GPU workloads require --worker"@)
    } else {
        None
    }
}

/// Refuses a run on a GPU that lacks something.
pub fn check_gpu(args: &OptimizeArgs, is_file: bool) -> (checked: Result<(), String>)
    ensures
        pieces::trouble(checked) == gpu_refusal(*args, is_file),
{
    if args.evaluator == Evaluator::Gpu {
        if args.python.is_none() {
            return Err("GPU workloads require --python".to_owned());
        }
        if !is_file {
            return Err("configured venv Python not found".to_owned());
        }
        if args.worker.is_none() {
            return Err("GPU workloads require --worker".to_owned());
        }
    }
    Ok(())
}

/// The record of a run that could not start.
pub open spec fn startup_record(error: Seq<char>) -> JsonView {
    JsonView::Object(
        seq![
            ("status"@, JsonView::Text("failed"@)),
            ("phase"@, JsonView::Text("startup"@)),
            ("error"@, JsonView::Text(error)),
        ],
    )
}

/// The record of a run that could not start.
pub fn startup_failure(error: &str) -> (value: Json)
    ensures
        value@ == startup_record(error@),
{
    let all = Fields::new().with("status", text("failed")).with("phase", text("startup")).with(
        "error",
        text(error),
    );
    assert(all@ =~= startup_record(error@)->Object_0);
    all.object()
}

/// What the threads have used up, in the order of the threads.
pub open spec fn usage_record(usage: Table<Json>) -> JsonView {
    JsonView::Object(json::fields_view(usage.list@))
}

/// The record of a run that is over.
pub open spec fn completion_record(
    error: Option<Seq<char>>,
    usage: Table<Json>,
    root: Seq<char>,
    backend: Seq<char>,
) -> JsonView {
    JsonView::Object(
        seq![
            (
                "status"@,
                JsonView::Text(
                    if error is None {
                        "completed"@
                    } else {
                        "failed"@
                    },
                ),
            ),
            ("error"@, fields::text_or_null(error)),
            ("usage"@, usage_record(usage)),
            ("root_thread_id"@, JsonView::Text(root)),
            ("validation"@, JsonView::Text(backend)),
        ],
    )
}

/// The record of a run that is over; `error` is why it has failed, if it has.
pub fn completion(args: &OptimizeArgs, root: &str, error: &Option<String>, usage: &Table<Json>) -> (value:
    Json)
    ensures
        value@ == completion_record(
            pieces::optional(*error),
            *usage,
            root@,
            cli::backend_name(args.evaluator),
        ),
{
    let status = match error {
        None => "completed",
        Some(_) => "failed",
    };
    let all = Fields::new().with("status", text(status)).with("error", optional_text(error)).with(
        "usage",
        Fields::copied(&usage.list).object(),
    ).with("root_thread_id", text(root)).with("validation", text(args.backend()));
    assert(all@ =~= completion_record(
        pieces::optional(*error),
        *usage,
        root@,
        cli::backend_name(args.evaluator),
    )->Object_0);
    all.object()
}

/// What is set where the configuration leaves it out.
pub open spec fn with_defaults(config: SearchConfig) -> SearchConfig {
    SearchConfig {
        max_iterations: Some(
            match config.max_iterations {
                Some(limit) => limit,
                None => 10,
            },
        ),
        num_candidates: Some(
            match config.num_candidates {
                Some(count) => count,
                None => 3,
            },
        ),
        max_consecutive_failures: Some(
            match config.max_consecutive_failures {
                Some(limit) => limit,
                None => 3,
            },
        ),
        speedup_threshold: Some(
            match config.speedup_threshold {
                Some(threshold) => threshold,
                None => Real { rank: MINUS_HUNDRED },
            },
        ),
        use_recent_failed_only: Some(
            match config.use_recent_failed_only {
                Some(only) => only,
                None => false,
            },
        ),
        ..config
    }
}

/// Sets what the configuration leaves out: ten batches of three candidates, three failures in a
/// row, no threshold that counts, and all failed nodes.
pub fn apply_runtime_defaults(config: &mut SearchConfig)
    ensures
        *final(config) == with_defaults(*old(config)),
{
    if config.max_iterations.is_none() {
        config.max_iterations = Some(10);
    }
    if config.num_candidates.is_none() {
        config.num_candidates = Some(3);
    }
    if config.max_consecutive_failures.is_none() {
        config.max_consecutive_failures = Some(3);
    }
    if config.speedup_threshold.is_none() {
        config.speedup_threshold = Some(Real { rank: MINUS_HUNDRED });
    }
    if config.use_recent_failed_only.is_none() {
        config.use_recent_failed_only = Some(false);
    }
}

/// The configuration of a run's search, or why there is none: what was given, then the defaults,
/// then what the arguments say.
pub open spec fn configuration(args: OptimizeArgs, given: SearchConfig) -> Result<
    SearchConfig,
    Seq<char>,
> {
    let set = with_defaults(given);
    let config = SearchConfig {
        max_iterations: if args.iterations is Some {
            args.iterations
        } else {
            set.max_iterations
        },
        num_candidates: if args.candidates is Some {
            args.candidates
        } else {
            set.num_candidates
        },
        ..set
    };
    if config.num_candidates == Some(0usize) {
        Err("at least one candidate is required"@)
    } else if !config.valid() {
        Err("search parameters must be finite"@)
    } else {
        Ok(config)
    }
}

/// The strategy that was asked for.
pub open spec fn strategy_of(name: Seq<char>) -> Strategy {
    if name == "mcts"@ {
        Strategy::Mcts
    } else {
        Strategy::Greedy
    }
}

/// The strategy that was asked for.
pub fn chosen_strategy(args: &OptimizeArgs) -> (strategy: Strategy)
    ensures
        strategy == strategy_of(args.strategy@),
{
    if same(args.strategy.as_str(), "mcts") {
        Strategy::Mcts
    } else {
        Strategy::Greedy
    }
}

/// The configuration of a run's search.
pub fn configure(args: &OptimizeArgs, given: SearchConfig) -> (result: Result<SearchConfig, String>)
    ensures
        configuration(*args, given) == match result {
            Ok(config) => Ok::<SearchConfig, Seq<char>>(config),
            Err(error) => Err::<SearchConfig, Seq<char>>(error@),
        },
{
    let mut config = given;
    apply_runtime_defaults(&mut config);
    if args.iterations.is_some() {
        config.max_iterations = args.iterations;
    }
    if args.candidates.is_some() {
        config.num_candidates = args.candidates;
    }
    if config.num_candidates() == 0 {
        return Err("at least one candidate is required".to_owned());
    }
    match config.validate() {
        Err(error) => Err(error),
        Ok(_) => Ok(config),
    }
}

/// Whether an analysis says something.
pub open spec fn tells(candidate: Option<JsonView>) -> bool {
    match candidate {
        Some(value) => match value.at("analysis"@).fields() {
            Some(list) => list.len() > 0,
            None => false,
        },
        None => false,
    }
}

/// How candidates are asked for: anew, to repair the parent, or to improve it.
pub open spec fn mode_of(
    nodes: Seq<NodeView>,
    parent: Option<NodeId>,
    candidate: Option<JsonView>,
) -> Seq<char> {
    match parent {
        None => "initial"@,
        Some(id) => if nodes[id as int].failed() {
            "repair"@
        } else if nodes[id as int].successful() && tells(candidate) {
            "optimize"@
        } else {
            "initial"@
        },
    }
}

/// How candidates are asked for; `candidate` is what is known of the parent.
pub fn candidate_mode(tree: &SearchState, parent: Option<NodeId>, candidate: Option<&Json>) -> (mode:
    &'static str)
    requires
        match parent {
            Some(id) => id < tree.nodes@.len(),
            None => true,
        },
    ensures
        mode@ == mode_of(
            tree@.nodes,
            parent,
            match candidate {
                Some(value) => Some(value@),
                None => None,
            },
        ),
{
    let id: usize = match parent {
        None => {
            return "initial";
        },
        Some(id) => id,
    };
    assert(tree@.nodes[id as int] == tree.nodes@[id as int]@);
    if tree.nodes[id].outcome.status == Status::Failed {
        return "repair";
    }
    if tree.nodes[id].outcome.status == Status::Success {
        match candidate {
            Some(value) => match value.at("analysis").fields() {
                Some(list) => {
                    if list.len() > 0 {
                        return "optimize";
                    }
                },
                None => {},
            },
            None => {},
        }
    }
    "initial"
}

/// The record of a candidate whose evaluation has failed.
pub open spec fn failure_record(validation: Seq<char>, error: Seq<char>) -> JsonView {
    JsonView::Object(
        seq![
            (
                "outcome"@,
                JsonView::Object(
                    seq![
                        ("status"@, JsonView::Text("failed"@)),
                        ("speedup"@, JsonView::Null),
                        (
                            "error_context"@,
                            JsonView::Object(
                                seq![
                                    ("error_type"@, JsonView::Text("WorkerCrash"@)),
                                    ("error_message"@, JsonView::Text(error)),
                                ],
                            ),
                        ),
                    ],
                ),
            ),
            ("candidate_seconds"@, JsonView::Null),
            ("profile"@, JsonView::Null),
            ("validation"@, JsonView::Text(validation)),
        ],
    )
}

/// The record of a candidate whose evaluation has failed.
pub fn failed_evaluation(validation: &str, error: &str) -> (value: Json)
    ensures
        value@ == failure_record(validation@, error@),
{
    let ghost all = failure_record(validation@, error@)->Object_0;
    let context = Fields::new().with("error_type", text("WorkerCrash")).with(
        "error_message",
        text(error),
    );
    assert(context@ =~= all[0].1->Object_0[2].1->Object_0);
    let outcome = Fields::new().with("status", text("failed")).with("speedup", Json::Null).with(
        "error_context",
        context.object(),
    );
    assert(outcome@ =~= all[0].1->Object_0);
    let record = Fields::new().with("outcome", outcome.object()).with(
        "candidate_seconds",
        Json::Null,
    ).with("profile", Json::Null).with("validation", text(validation));
    assert(record@ =~= all);
    record.object()
}

/// How a task is asked for.
pub open spec fn prepare_record(args: OptimizeArgs) -> JsonView {
    JsonView::Object(
        seq![
            ("dataset_root"@, JsonView::Text(args.dataset_root@)),
            ("dataset"@, JsonView::Text(args.dataset@)),
            ("task"@, JsonView::Text(args.task@)),
            ("level"@, fields::natural_view(args.level as nat)),
            ("backend"@, JsonView::Text(cli::backend_name(args.evaluator))),
            ("cutlass_root"@, fields::text_or_null(pieces::optional(args.cutlass_root))),
            ("gpu_id"@, fields::natural_view(args.gpus@[0] as nat)),
        ],
    )
}

/// How a task is asked for.
pub fn prepare_payload(args: &OptimizeArgs) -> (payload: Json)
    requires
        args.gpus@.len() > 0,
    ensures
        payload@ == prepare_record(*args),
{
    let all = Fields::new().with("dataset_root", text(args.dataset_root.as_str())).with(
        "dataset",
        text(args.dataset.as_str()),
    ).with("task", text(args.task.as_str())).with("level", natural(args.level as u64)).with(
        "backend",
        text(args.backend()),
    ).with("cutlass_root", optional_text(&args.cutlass_root)).with(
        "gpu_id",
        natural(args.gpus[0] as u64),
    );
    assert(all@ =~= prepare_record(*args)->Object_0);
    all.object()
}

/// The name of a strategy.
pub open spec fn strategy_name(strategy: Strategy) -> Seq<char> {
    match strategy {
        Strategy::Greedy => "greedy"@,
        Strategy::Mcts => "mcts"@,
    }
}

/// The record of what a run is.
pub open spec fn run_record(
    args: OptimizeArgs,
    root: Seq<char>,
    strategy: Strategy,
    config: JsonView,
    problem: JsonView,
) -> JsonView {
    JsonView::Object(
        seq![
            ("root_thread_id"@, JsonView::Text(root)),
            ("provider"@, JsonView::Text(args.provider@)),
            ("model"@, JsonView::Text(args.model@)),
            ("reference_model"@, JsonView::Text(roles::model_of(args.reference_model, args))),
            ("profile_model"@, JsonView::Text(roles::model_of(args.profile_model, args))),
            ("memory_model"@, JsonView::Text(roles::model_of(args.memory_model, args))),
            ("strategy"@, JsonView::Text(strategy_name(strategy))),
            ("search_config"@, config),
            ("evaluator"@, JsonView::Text(cli::backend_name(args.evaluator))),
            ("profiling"@, JsonView::Text(args.profiling@)),
            ("ncu_full"@, JsonView::Bool(args.ncu_full)),
            ("memory_off"@, JsonView::Bool(args.memory_off)),
            ("task_sha256"@, problem.at("sha256"@)),
        ],
    )
}

/// The record of what a run is; `config` is what its search's configuration is written as.
pub fn describe_run(
    args: &OptimizeArgs,
    root: &str,
    strategy: Strategy,
    config: &Json,
    problem: &Json,
) -> (value: Json)
    ensures
        value@ == run_record(*args, root@, strategy, config@, problem@),
{
    let name = match strategy {
        Strategy::Greedy => "greedy",
        Strategy::Mcts => "mcts",
    };
    let first = Fields::new().with("root_thread_id", text(root)).with(
        "provider",
        text(args.provider.as_str()),
    ).with("model", text(args.model.as_str())).with(
        "reference_model",
        text(chosen_model(&args.reference_model, args).as_str()),
    ).with("profile_model", text(chosen_model(&args.profile_model, args).as_str())).with(
        "memory_model",
        text(chosen_model(&args.memory_model, args).as_str()),
    ).with("strategy", text(name));
    let all = first.with("search_config", config.clone()).with(
        "evaluator",
        text(args.backend()),
    ).with("profiling", text(args.profiling.as_str())).with(
        "ncu_full",
        Json::Bool(args.ncu_full),
    ).with("memory_off", Json::Bool(args.memory_off)).with(
        "task_sha256",
        problem.at("sha256").clone(),
    );
    assert(all@ =~= run_record(*args, root@, strategy, config@, problem@)->Object_0);
    all.object()
}

} // verus!
