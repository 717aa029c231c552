use cubineer::cli::{Evaluator, KernelCli, KernelCommand, OptimizeArgs};
use cubineer::controller::machine::{Event, File, Phase, Run, Step, Work};
use cubineer::controller::{
    apply_runtime_defaults, candidate_mode, check_arguments, check_gpu, chosen_strategy, completion,
    configure, failed_evaluation, prepare_payload, startup_failure,
};
use cubineer::json::Json;
use cubineer::memory::{finding, Snapshot};
use cubineer::number::{Number, Reading, Real};
use cubineer::roles::generation_failure;
use cubineer::search::config::{SearchConfig, Strategy};
use cubineer::search::mcts::Scores;
use cubineer::search::node::{Outcome, Status};
use cubineer::search::state::SearchState;
use cubineer::session::SessionResult;
use cubineer::table::Table;
use cubineer::written::to_text;

fn ranked(value: f64) -> Real {
    Real::from_bits(value.to_bits())
}

fn reading(value: f64) -> Reading {
    let whole = value.fract() == 0.0 && value >= -(2f64.powi(63)) && value < 2f64.powi(64);
    Reading {
        value: ranked(value),
        text: serde_json::to_string(&value).unwrap(),
        tenths: format!("{value:.1}"),
        units: format!("{value:.0}"),
        whole: if whole { Some(value as i128) } else { None },
        fractional: value.fract() != 0.0,
    }
}

fn convert(value: &serde_json::Value) -> Json {
    match value {
        serde_json::Value::Null => Json::Null,
        serde_json::Value::Bool(value) => Json::Bool(*value),
        serde_json::Value::Number(number) => {
            let shown = reading(number.as_f64().unwrap());
            if let Some(value) = number.as_u64() {
                Json::Number(Number::Integer(value as i128, Some(shown)))
            } else if let Some(value) = number.as_i64() {
                Json::Number(Number::Integer(value as i128, Some(shown)))
            } else {
                Json::Number(Number::Decimal(shown))
            }
        }
        serde_json::Value::String(value) => Json::Text(value.clone()),
        serde_json::Value::Array(items) => Json::Array(items.iter().map(convert).collect()),
        serde_json::Value::Object(fields) => Json::Object(
            fields.iter().map(|(key, value)| (key.clone(), convert(value))).collect(),
        ),
    }
}

fn json(text: &str) -> Json {
    convert(&serde_json::from_str(text).unwrap())
}

fn outcome(status: Status, speedup: Option<f64>) -> Outcome {
    Outcome {
        status,
        speedup: speedup.map(ranked),
        log: ranked(speedup.unwrap_or(0.0).max(0.1).ln()),
        error_context: None,
    }
}

fn arguments() -> OptimizeArgs {
    OptimizeArgs {
        dataset: "kernelbench".to_string(),
        dataset_root: "/tasks".to_string(),
        cutlass_root: None,
        task: "relu".to_string(),
        level: 1,
        strategy: "greedy".to_string(),
        search_config: None,
        iterations: Some(2),
        candidates: Some(2),
        parallel_sessions: 5,
        model: "model".to_string(),
        provider: "provider".to_string(),
        reference_model: Some("classifier".to_string()),
        profile_model: None,
        memory_model: None,
        python: None,
        worker: None,
        output: "/out".to_string(),
        evaluator: Evaluator::Simulated,
        scenario: Some("scenario.json".to_string()),
        profiling: "proactive".to_string(),
        ncu_full: false,
        memory_off: false,
        hint: Some("tile".to_string()),
        gpus: vec![4, 6],
        timeout_seconds: 900,
        strict_config: false,
    }
}

#[test]
fn runtime_defaults_match_original_entrypoint_and_preserve_overrides() {
    let mut config = SearchConfig {
        max_iterations: Some(4),
        use_recent_failed_only: Some(true),
        ..SearchConfig::default()
    };
    apply_runtime_defaults(&mut config);

    assert_eq!(
        config,
        SearchConfig {
            max_iterations: Some(4),
            num_candidates: Some(3),
            max_consecutive_failures: Some(3),
            speedup_threshold: Some(ranked(-100.0)),
            use_recent_failed_only: Some(true),
            ..SearchConfig::default()
        }
    );
}

#[test]
fn candidate_mode_matches_original_parent_feedback_fallbacks() {
    let mut tree = SearchState::new(Strategy::Greedy, SearchConfig::default()).unwrap();
    let failed = tree.record_batch(None, vec![outcome(Status::Failed, None)]).unwrap()[0];
    let successful =
        tree.record_batch(None, vec![outcome(Status::Success, Some(2.0))]).unwrap()[0];
    let discarded = tree.record_batch(None, vec![outcome(Status::Discarded, None)]).unwrap()[0];
    let empty = json("{\"analysis\": null}");
    let stale = json("{\"analysis\": {\"severity\": \"stale\"}}");

    assert_eq!(candidate_mode(&tree, None, None), "initial");
    assert_eq!(candidate_mode(&tree, Some(failed), Some(&empty)), "repair");
    assert_eq!(candidate_mode(&tree, Some(successful), Some(&empty)), "initial");
    assert_eq!(candidate_mode(&tree, Some(discarded), Some(&stale)), "initial");
    let high = json("{\"analysis\": {\"severity\": \"high\"}}");
    assert_eq!(candidate_mode(&tree, Some(successful), Some(&high)), "optimize");
    assert_eq!(candidate_mode(&tree, Some(successful), None), "initial");
}

#[test]
fn candidate_evaluation_errors_become_failed_search_outcomes() {
    let evaluated = failed_evaluation("gpu", "worker exited");
    let outcome = evaluated.at("outcome");

    assert!(outcome.at("status").is_text("failed"));
    assert!(outcome.at("speedup").is_null());
    assert!(outcome.at("error_context").at("error_type").is_text("WorkerCrash"));
    assert!(outcome.at("error_context").at("error_message").is_text("worker exited"));
    assert!(evaluated.at("profile").is_null());
    assert!(evaluated.at("validation").is_text("gpu"));
}

#[test]
fn arguments_are_checked_in_order() {
    let mut args = arguments();
    assert_eq!(check_arguments(&args, false), Ok(()));
    args.scenario = None;
    assert_eq!(
        check_arguments(&args, false),
        Err("simulated evaluation requires --scenario".to_string())
    );
    args.gpus = Vec::new();
    assert_eq!(check_arguments(&args, false), Err("invalid worker budget".to_string()));
    args.gpus = vec![0];
    args.timeout_seconds = 0;
    assert_eq!(check_arguments(&args, false), Err("invalid worker budget".to_string()));
    assert_eq!(
        check_arguments(&args, true),
        Err("output already exists; select a new run directory".to_string())
    );
    assert_eq!(check_gpu(&args, false), Ok(()));
    args.evaluator = Evaluator::Gpu;
    assert_eq!(check_gpu(&args, true), Err("GPU workloads require --python".to_string()));
    args.python = Some("python".to_string());
    assert_eq!(check_gpu(&args, false), Err("configured venv Python not found".to_string()));
    assert_eq!(check_gpu(&args, true), Err("GPU workloads require --worker".to_string()));
    args.worker = Some("worker.py".to_string());
    assert_eq!(check_gpu(&args, true), Ok(()));
    assert_eq!(args.backend(), "gpu");
}

#[test]
fn commands_hold_their_arguments() {
    let cli = KernelCli { command: KernelCommand::Optimize(arguments()) };
    let KernelCommand::Optimize(args) = cli.command;
    assert_eq!(args.backend(), "simulated");
    assert_eq!(chosen_strategy(&args), Strategy::Greedy);
    assert_eq!(
        to_text(&prepare_payload(&args)),
        "{\"dataset_root\":\"/tasks\",\"dataset\":\"kernelbench\",\"task\":\"relu\",\"level\":1,\"backend\":\"simulated\",\"cutlass_root\":null,\"gpu_id\":4}"
    );
}

#[test]
fn configurations_put_arguments_first() {
    let args = arguments();
    let given = SearchConfig { max_iterations: Some(9), ..SearchConfig::default() };
    let config = configure(&args, given).unwrap();
    assert_eq!((config.max_iterations, config.num_candidates), (Some(2), Some(2)));
    let mut none = arguments();
    none.candidates = Some(0);
    assert_eq!(
        configure(&none, SearchConfig::default()).err(),
        Some("at least one candidate is required".to_string())
    );
    let endless =
        SearchConfig { pw_alpha: Some(ranked(f64::INFINITY)), ..SearchConfig::default() };
    assert_eq!(
        configure(&args, endless).err(),
        Some("search parameters must be finite".to_string())
    );
}

#[test]
fn completions_say_what_became_of_a_run() {
    let mut usage = Table::new();
    usage.insert("b", json("{\"total\": 2}"));
    usage.insert("a", json("{\"total\": 1}"));
    assert_eq!(
        to_text(&completion(&arguments(), "root", &None, &usage)),
        "{\"status\":\"completed\",\"error\":null,\"usage\":{\"a\":{\"total\":1},\"b\":{\"total\":2}},\"root_thread_id\":\"root\",\"validation\":\"simulated\"}"
    );
    assert!(completion(&arguments(), "root", &Some("late".to_string()), &usage)
        .at("status")
        .is_text("failed"));
    assert_eq!(
        to_text(&startup_failure("no model")),
        "{\"status\":\"failed\",\"phase\":\"startup\",\"error\":\"no model\"}"
    );
}

fn session(role: &str, value: Option<&str>, error: Option<&str>) -> SessionResult {
    SessionResult {
        thread_id: "t".to_string(),
        turn_id: "u".to_string(),
        role: role.to_string(),
        model: "model".to_string(),
        value: value.map(json),
        error: error.map(str::to_string),
        events: vec![json("{\"tool\": \"profile_reference_with_ncu\"}")],
    }
}

fn begin(args: OptimizeArgs, scenario: &str) -> (Run, Step) {
    let settings = configure(&args, SearchConfig::default()).unwrap();
    Run::new(args, "root".to_string(), settings, json("{}"), json(scenario)).unwrap()
}

fn advance(run: &mut Run, event: Event) -> Step {
    assert!(run.admits(&event));
    run.advance(event)
}

fn operation(step: &Step) -> (&'static str, &Json) {
    match &step.work {
        Work::Call(name, payload) => (*name, payload),
        _ => panic!("a call is expected"),
    }
}

fn paths(files: &[File]) -> Vec<String> {
    files
        .iter()
        .map(|file| match file {
            File::Value(path, _) => path.clone(),
            File::Text(path, _) => path.clone(),
            File::Tree(path) => path.clone(),
        })
        .collect()
}

fn zero_scores(run: &Run) -> Scores {
    let count = run.tree.nodes.len();
    Scores {
        uct: vec![ranked(0.0); count],
        virtual_uct: vec![ranked(0.0); count],
        width: vec![ranked(0.0); count],
    }
}

const PROBLEM: &str = "{\"sha256\": \"task\", \"reference_instructions\": \"classify\", \"canonical_solution\": \"code\", \"description\": \"relu\", \"instructions\": {\"initial\": \"write\", \"repair\": \"mend\", \"optimize\": \"tune\"}, \"profile_instructions\": \"explain\", \"schemas\": {\"reference\": 1, \"candidate\": 2, \"profile\": 3}}";

/// Leads a run up to the sessions of its first batch.
fn generating(args: OptimizeArgs, scenario: &str) -> Run {
    let (mut run, step) = begin(args, scenario);
    assert_eq!(operation(&step).0, "prepare");
    let step = advance(&mut run, Event::Reply(Ok(json(PROBLEM))));
    assert_eq!(paths(&step.files), vec!["task.json", "run.json"]);
    assert_eq!(operation(&step).0, "reference");
    assert!(operation(&step).1.at("output_dir").is_text("/out/reference"));
    let step = advance(&mut run, Event::Reply(Ok(json("{\"profile\": {\"success\": true}}"))));
    assert_eq!(paths(&step.files), vec!["reference.json"]);
    match &step.work {
        Work::Sessions(tasks) => {
            assert_eq!(tasks[0].role, "reference");
            assert_eq!(tasks[0].model, "classifier");
            assert_eq!(tasks[0].cwd, "/out/workspaces/reference");
            assert_eq!(to_text(&tasks[0].evidence), "{\"success\":true}");
        }
        _ => panic!("a session is expected"),
    }
    let step = advance(
        &mut run,
        Event::Sessions(Ok(vec![session("reference", Some("{\"x\": 1}"), None)])),
    );
    assert_eq!(paths(&step.parts), vec!["reference-session.json"]);
    assert_eq!(to_text(operation(&step).1), "{\"role\":\"reference\",\"value\":{\"x\":1}}");
    let value = "{\"invalid_reference_code\": false, \"final_bottleneck\": \"memory\"}";
    let step = advance(&mut run, Event::Reply(Ok(json(value))));
    assert_eq!(paths(&step.files), vec!["classification.json"]);
    let (name, payload) = operation(&step);
    assert_eq!(name, "feedback");
    assert_eq!(to_text(payload), "{\"parent\":null,\"mode\":\"initial\",\"hint\":\"tile\"}");
    let step = advance(
        &mut run,
        Event::Advice(Ok(json("{\"text\": \"go\"}")), "remember".to_string()),
    );
    match &step.work {
        Work::Sessions(tasks) => {
            assert_eq!(tasks.len(), 2);
            assert_eq!(tasks[1].cwd, "/out/workspaces/candidate-0-1");
            assert_eq!(tasks[1].instructions, "write");
            assert!(tasks[1].input.contains("\"feedback\":\"go\""));
        }
        _ => panic!("sessions are expected"),
    }
    run
}

#[test]
fn runs_go_from_the_task_to_the_winner() {
    let scenario = "{\"reference\": {}, \"batches\": [[{\"candidate_seconds\": 1}], [{\"a\": 1}]]}";
    let mut run = generating(arguments(), scenario);
    let step = advance(
        &mut run,
        Event::Sessions(Ok(vec![
            session("candidate", None, Some("late")),
            session("candidate", Some("{\"code\": \"pass\"}"), None),
        ])),
    );
    assert_eq!(
        paths(&step.files),
        vec!["generation-errors/0-0.json", "candidates/1/session.json"]
    );
    assert_eq!(operation(&step).0, "validate");
    let step = advance(&mut run, Event::Reply(Ok(json("{\"code\": \"pass\"}"))));
    assert_eq!(paths(&step.parts), vec!["candidates/1/solution.py"]);
    let (name, payload) = operation(&step);
    assert_eq!(name, "evaluate");
    assert!(payload.at("source").is_text("/out/candidates/1/solution.py"));
    assert!(payload.at("source_sha256").is_text(
        "d74ff0ee8da3b9806b18c877dbf29bbde50b5bd8e4dad7a3a725000feb82e8f1"
    ));
    assert_eq!(to_text(payload.at("fixture")), "{\"candidate_seconds\":1}");
    assert_eq!(to_text(payload.at("gpu_id")), "4");
    let evaluated =
        "{\"outcome\": {\"status\": \"success\", \"speedup\": 2.0}, \"profile\": {\"success\": true, \"rule_recommendations\": [1]}, \"validation\": \"simulated\"}";
    let step = advance(&mut run, Event::Reply(Ok(json(evaluated))));
    let (name, payload) = operation(&step);
    assert_eq!(name, "analyze");
    assert!(payload.at("bottleneck").is_text("memory"));
    let prepared =
        "{\"tools\": [{\"name\": \"a\", \"description\": \"b\"}], \"text\": \"look\", \"selected_tools\": [\"a\"]}";
    let step = advance(&mut run, Event::Reply(Ok(json(prepared))));
    match &step.work {
        Work::Sessions(tasks) => {
            assert_eq!(tasks[0].cwd, "/out/workspaces/profile-1");
            assert_eq!(tasks[0].input, "look");
            assert!(tasks[0].tools[0].at("name").is_text("a"));
        }
        _ => panic!("a session is expected"),
    }
    let step = advance(
        &mut run,
        Event::Sessions(Ok(vec![session("profile", Some("{\"y\": 2}"), None)])),
    );
    assert_eq!(paths(&step.parts), vec!["candidates/1/profile-session.json"]);
    assert!(!run.admits(&Event::Reply(Ok(json("[]")))));
    let step = advance(&mut run, Event::Reply(Ok(json("{\"severity\": \"high\"}"))));
    assert_eq!(paths(&step.files), vec!["candidates/1/evidence.json"]);
    assert_eq!(
        to_text(run.batch[0].at("analysis")),
        "{\"severity\":\"high\",\"rule_recommendations\":[1],\"selected_tools\":[\"a\"]}"
    );
    assert!(run.batch[0].at("id").is_text("candidate:1"));
    match &step.work {
        Work::Read(list) => assert_eq!(list.len(), 1),
        _ => panic!("outcomes are expected"),
    }
    let step = advance(
        &mut run,
        Event::Outcomes(Ok(vec![outcome(Status::Success, Some(2.0))])),
    );
    assert_eq!(paths(&step.files), vec!["tree.json"]);
    assert!(matches!(step.work, Work::Claim));
    let step = advance(&mut run, Event::Claimed(Ok(()), "memory".to_string()));
    match &step.work {
        Work::Scope(told) => assert!(told.contains("Existing memory:\nmemory\nBatch:\n[{")),
        _ => panic!("the extraction is to be framed"),
    }
    let step = advance(&mut run, Event::Scoped(Ok("framed".to_string())));
    match &step.work {
        Work::Sessions(tasks) => {
            assert_eq!(tasks[0].input, "framed");
            assert_eq!(tasks[0].cwd, "/out/workspaces/memory-0");
        }
        _ => panic!("a session is expected"),
    }
    let step = advance(
        &mut run,
        Event::Sessions(Ok(vec![session("memory", Some("{\"findings\": []}"), None)])),
    );
    assert_eq!(paths(&step.parts), vec!["memory-session-0.json"]);
    assert!(matches!(&step.work, Work::Find(value) if to_text(value) == "[]"));
    let step =
        advance(&mut run, Event::Findings(Ok(vec![finding("Use tiles", "candidate:1")])));
    match &step.work {
        Work::Commit(version, value) => {
            assert_eq!(*version, 0);
            assert_eq!(to_text(value.at("version")), "1");
        }
        _ => panic!("the memory is to be kept"),
    }
    let step = advance(&mut run, Event::Committed(Ok(())));
    assert!(matches!(step.work, Work::Load));
    assert_eq!(run.snapshot.version, 1);
    assert_eq!(run.snapshot.entries.len(), 2);
    let step = advance(&mut run, Event::Loaded(Ok(None)));
    assert_eq!(paths(&step.files), vec!["winner.json"]);
    match &step.files[0] {
        File::Value(_, value) => {
            assert_eq!(to_text(value.at("node")), "1");
            assert!(value.at("evidence").at("id").is_text("candidate:1"));
        }
        _ => panic!("a value is expected"),
    }
    let step = advance(&mut run, Event::Gain(ranked(0.0)));
    assert!(matches!(step.work, Work::Score));
    let scores = zero_scores(&run);
    let step = advance(&mut run, Event::Scores(scores));
    let (name, payload) = operation(&step);
    assert_eq!(name, "feedback");
    assert!(payload.at("mode").is_text("optimize"));
    assert_eq!(to_text(payload.at("parent").at("submission")), "{\"code\":\"pass\"}");
    assert_eq!(run.parent, Some(1));
}

#[test]
fn memory_that_is_off_is_passed_over() {
    let mut args = arguments();
    args.memory_off = true;
    args.iterations = Some(1);
    let mut run = generating(args, "{\"batches\": [[{\"a\": 1}]]}");
    advance(
        &mut run,
        Event::Sessions(Ok(vec![session("candidate", Some("{\"code\": \"x\"}"), None)])),
    );
    advance(&mut run, Event::Reply(Ok(json("{\"code\": \"x\"}"))));
    let step = advance(&mut run, Event::Reply(Ok(json("{\"outcome\": {}, \"profile\": null}"))));
    assert_eq!(paths(&step.files), vec!["candidates/1/evidence.json"]);
    let step =
        advance(&mut run, Event::Outcomes(Ok(vec![outcome(Status::Failed, None)])));
    assert_eq!(paths(&step.files), vec!["tree.json", "winner.json"]);
    assert!(matches!(step.work, Work::Gain));
    let step = advance(&mut run, Event::Gain(ranked(0.0)));
    assert!(matches!(step.work, Work::Finish));
    assert_eq!(run.phase, Phase::Over);
}

#[test]
fn troubles_with_a_candidate_are_its_own() {
    let mut args = arguments();
    args.memory_off = true;
    let mut run = generating(args, "{\"batches\": [[{\"a\": 1}]]}");
    advance(
        &mut run,
        Event::Sessions(Ok(vec![
            session("candidate", Some("{\"code\": \"x\"}"), None),
            session("candidate", Some("{\"code\": \"y\"}"), None),
        ])),
    );
    let step = advance(&mut run, Event::Reply(Err("no code".to_string())));
    assert_eq!(
        paths(&step.files),
        vec![
            "candidates/1/evaluation-error.json",
            "candidates/1/evidence.json",
            "candidates/2/session.json"
        ]
    );
    assert!(run.batch[0]
        .at("evaluation")
        .at("outcome")
        .at("error_context")
        .at("error_message")
        .is_text("no code"));
    let step = advance(&mut run, Event::Reply(Ok(json("{\"code\": \"y\"}"))));
    assert_eq!(paths(&step.parts), vec!["candidates/2/solution.py"]);
    assert!(matches!(step.work, Work::Keep));
    let step = advance(&mut run, Event::Kept(Ok(())));
    assert!(run.batch[1]
        .at("evaluation")
        .at("outcome")
        .at("error_context")
        .at("error_message")
        .is_text("scenario exhausted; no implicit success feedback"));
    assert!(matches!(step.work, Work::Read(_)));
    let step = advance(&mut run, Event::Outcomes(Ok(vec![
        outcome(Status::Failed, None),
        outcome(Status::Pending, None),
    ])));
    assert!(matches!(step.work, Work::Abort(reason) if reason == "cannot commit a pending outcome"));
}

#[test]
fn batches_without_candidates_end_the_run() {
    let mut run = generating(arguments(), "{}");
    let step = advance(
        &mut run,
        Event::Sessions(Ok(vec![session("candidate", None, None)])),
    );
    assert_eq!(paths(&step.files), vec!["generation-errors/0-0.json"]);
    assert!(
        matches!(step.work, Work::Abort(reason) if reason == "all candidate sessions failed in iteration 0")
    );
}

#[test]
fn memory_troubles_leave_a_record() {
    let mut run = generating(arguments(), "{\"batches\": [[{\"a\": 1}]]}");
    advance(
        &mut run,
        Event::Sessions(Ok(vec![session("candidate", Some("{\"code\": \"x\"}"), None)])),
    );
    advance(&mut run, Event::Reply(Ok(json("{\"code\": \"x\"}"))));
    advance(
        &mut run,
        Event::Reply(Ok(json("{\"outcome\": {\"status\": \"failed\"}, \"profile\": null}"))),
    );
    advance(&mut run, Event::Outcomes(Ok(vec![outcome(Status::Failed, None)])));
    advance(&mut run, Event::Claimed(Ok(()), String::new()));
    advance(&mut run, Event::Scoped(Ok(String::new())));
    let step = advance(
        &mut run,
        Event::Sessions(Ok(vec![session("memory", None, None)])),
    );
    assert!(matches!(step.work, Work::Keep));
    let step = advance(&mut run, Event::Kept(Ok(())));
    assert!(matches!(step.work, Work::Fail(reason) if reason == "memory extraction failed"));
    let step = advance(&mut run, Event::Failed(Ok(())));
    assert_eq!(paths(&step.files), vec!["memory-error-0.json"]);
    let stored = Snapshot { version: 7, entries: Vec::new() };
    let step = advance(&mut run, Event::Loaded(Ok(Some(stored))));
    assert_eq!(paths(&step.files), vec!["memory.json", "winner.json"]);
    assert_eq!(run.snapshot.version, 7);
}

#[test]
fn classifications_that_do_not_count_leave_a_record() {
    let (mut run, _) = begin(arguments(), "{}");
    advance(&mut run, Event::Reply(Ok(json(PROBLEM))));
    advance(&mut run, Event::Reply(Ok(json("{}"))));
    let mut blind = session("reference", Some("{}"), None);
    blind.events = Vec::new();
    advance(&mut run, Event::Sessions(Ok(vec![blind])));
    let value = "{\"invalid_reference_code\": false}";
    let step = advance(&mut run, Event::Reply(Ok(json(value))));
    match &step.files[0] {
        File::Value(_, value) => assert!(value
            .at("error")
            .is_text("reference classifier did not inspect NCU measurements")),
        _ => panic!("a value is expected"),
    }
    let (mut run, _) = begin(arguments(), "{}");
    let step = advance(&mut run, Event::Reply(Err("no task".to_string())));
    assert!(matches!(step.work, Work::Abort(reason) if reason == "no task"));
    let (mut run, _) = begin(arguments(), "{}");
    advance(&mut run, Event::Reply(Ok(json("{}"))));
    let step = advance(&mut run, Event::Reply(Ok(json("{}"))));
    match &step.files[1] {
        File::Value(_, value) => {
            assert!(value.at("error").is_text("missing reference instructions"))
        }
        _ => panic!("a value is expected"),
    }
}

#[test]
fn candidates_that_were_not_made_have_failed() {
    assert_eq!(
        to_text(&generation_failure("lost")),
        "{\"outcome\":{\"status\":\"failed\",\"speedup\":null,\"error_context\":{\"error_type\":\"generation_error\",\"error_message\":\"lost\"}},\"validation\":\"not_evaluated\"}"
    );
}
