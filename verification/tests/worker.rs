use cubineer::children::{close_controller_child, start_controller_child, ChildRequest};
use cubineer::cli::{Evaluator, OptimizeArgs};
use cubineer::context::KernelContextFragment;
use cubineer::fields::Fields;
use cubineer::json::Json;
use cubineer::number::{Number, Reading, Real};
use cubineer::paths::below;
use cubineer::startup::{overrides, parallel_sessions, root_request, root_thread};
use cubineer::worker::{
    metadata_payload, read_output, read_response, route, timed_out, validated_role, Route, Worker,
};
use cubineer::written::to_text;

fn ranked(value: f64) -> Real {
    Real::from_bits(value.to_bits())
}

fn reading(value: f64) -> Reading {
    let whole = value.fract() == 0.0 && value >= -(2f64.powi(63)) && value < 2f64.powi(64);
    Reading {
        value: ranked(value),
        text: serde_json::to_string(&value).unwrap(),
        tenths: format!("{value:.1}"),
        units: format!("{value:.0}"),
        whole: if whole { Some(value as i128) } else { None },
        fractional: value.fract() != 0.0,
    }
}

fn convert(value: &serde_json::Value) -> Json {
    match value {
        serde_json::Value::Null => Json::Null,
        serde_json::Value::Bool(value) => Json::Bool(*value),
        serde_json::Value::Number(number) => {
            let shown = reading(number.as_f64().unwrap());
            if let Some(value) = number.as_u64() {
                Json::Number(Number::Integer(value as i128, Some(shown)))
            } else if let Some(value) = number.as_i64() {
                Json::Number(Number::Integer(value as i128, Some(shown)))
            } else {
                Json::Number(Number::Decimal(shown))
            }
        }
        serde_json::Value::String(value) => Json::Text(value.clone()),
        serde_json::Value::Array(items) => Json::Array(items.iter().map(convert).collect()),
        serde_json::Value::Object(fields) => Json::Object(
            fields.iter().map(|(key, value)| (key.clone(), convert(value))).collect(),
        ),
    }
}

fn json(text: &str) -> Json {
    convert(&serde_json::from_str(text).unwrap())
}

#[test]
fn operations_are_routed() {
    let gpu = json("{\"backend\": \"gpu\"}");
    let simulated = json("{\"backend\": \"simulated\"}");
    assert_eq!(route("analyze", &gpu), Route::Analyze);
    assert_eq!(route("reference", &gpu), Route::Gpu);
    assert_eq!(route("evaluate", &gpu), Route::Gpu);
    assert_eq!(route("reference", &simulated), Route::SimulatedReference);
    assert_eq!(route("evaluate", &simulated), Route::SimulatedEvaluate);
    assert_eq!(route("prepare", &simulated), Route::Prepare);
    assert_eq!(route("feedback", &Json::Null), Route::Feedback);
    assert_eq!(route("tool", &Json::Null), Route::Tool);
    assert_eq!(route("validate", &Json::Null), Route::Validate);
    assert_eq!(route("metadata", &gpu), Route::External);
    assert_eq!(route("evaluate", &Json::Null), Route::External);
}

#[test]
fn late_candidates_have_failed() {
    let payload = json(
        "{\"source_sha256\": \"s\", \"problem\": {\"sha256\": \"t\"}, \"tool_mode\": \"proactive\", \"ncu_full\": true}",
    );
    assert_eq!(
        to_text(&timed_out("evaluate", &payload, 900_999).unwrap()),
        "{\"outcome\":{\"status\":\"failed\",\"speedup\":null,\"error_context\":{\"error_type\":\"TimeoutError\",\"error_message\":\"Evaluation exceeded 900s timeout\"}},\"candidate_seconds\":null,\"source_sha256\":\"s\",\"task_sha256\":\"t\",\"build_identity\":null,\"profile\":null,\"validation\":\"gpu\",\"profiling_options\":{\"tool_mode\":\"proactive\",\"ncu_full\":true,\"nsys\":false}}"
    );
    assert_eq!(
        timed_out("reference", &payload, 1).err(),
        Some("GPU evaluation timed out".to_string())
    );
}

#[test]
fn machines_are_asked_about_for_a_gpu() {
    let asked = metadata_payload(&json("{\"backend\": \"gpu\", \"gpu_id\": 3}")).unwrap();
    assert_eq!(to_text(&asked), "{\"backend\":\"gpu\",\"gpu_id\":3}");
    assert!(metadata_payload(&json("{\"backend\": \"simulated\"}")).is_none());
    assert_eq!(validated_role(&json("{\"role\": \"candidate\"}")), Ok("candidate"));
    assert_eq!(validated_role(&Json::Null), Err("missing model role".to_string()));
}

#[test]
fn requests_are_numbered() {
    let mut bare = Worker::new(None, None, "requests".to_string(), 1000);
    assert_eq!(
        bare.request("metadata", Json::Null).err(),
        Some("GPU workloads require --python".to_string())
    );
    assert_eq!(bare.sequence, 1);
    let mut half = Worker::new(Some("python".to_string()), None, String::new(), 1000);
    assert_eq!(
        half.request("metadata", Json::Null).err(),
        Some("GPU workloads require --worker".to_string())
    );
    let mut worker = Worker::new(
        Some("python".to_string()),
        Some("worker.py".to_string()),
        "requests".to_string(),
        1000,
    );
    worker.sequence = 12;
    let request = worker.request("metadata", json("{\"output_dir\": \"/o\"}")).unwrap();
    assert_eq!(request.file, "000012-metadata.json");
    assert_eq!(request.named_directory.as_deref(), Some("/o"));
    assert_eq!(request.own_directory, "worker-12");
    assert_eq!(
        to_text(&request.body),
        "{\"version\":1,\"id\":12,\"operation\":\"metadata\",\"payload\":{\"output_dir\":\"/o\"}}"
    );
    assert_eq!(worker.sequence, 13);
    worker.sequence = u64::MAX;
    assert!(worker.request("metadata", Json::Null).is_ok());
    assert_eq!(worker.sequence, 0);
}

#[test]
fn commands_run_within_the_time() {
    let worker = Worker::new(None, None, String::new(), 1000);
    let params = worker.exec_request(
        &vec!["python".to_string(), "x.py".to_string()],
        "/work",
        "/work/tmp",
        Fields::new(),
        5000,
    );
    assert_eq!(
        to_text(&params),
        "{\"command\":[\"python\",\"x.py\"],\"cwd\":\"/work\",\"timeoutMs\":1000,\"outputBytesCap\":4194304,\"env\":{\"TMPDIR\":\"/work/tmp\",\"PYTHONDONTWRITEBYTECODE\":\"1\"},\"sandboxPolicy\":{\"type\":\"workspaceWrite\",\"writableRoots\":[\"/work\"],\"networkAccess\":false,\"excludeTmpdirEnvVar\":true,\"excludeSlashTmp\":true}}"
    );
}

#[test]
fn answers_are_checked() {
    let output = json("{\"exitCode\": 2, \"stderr\": \"no \\\"gpu\\\"\"}");
    assert_eq!(
        read_output("metadata", &output),
        Err("worker metadata failed: \"no \\\"gpu\\\"\"".to_string())
    );
    assert_eq!(
        read_output("metadata", &json("{\"exitCode\": 0}")),
        Err("missing worker stdout".to_string())
    );
    assert_eq!(read_output("metadata", &json("{\"exitCode\": 0, \"stdout\": \"x\"}")), Ok("x"));
    let read = |text: &str| read_response("metadata", 5, &Some(json(text)));
    assert_eq!(
        read_response("metadata", 5, &None).err(),
        Some("invalid or truncated worker response".to_string())
    );
    let other = Some("worker response identity mismatch".to_string());
    assert_eq!(read("{\"version\": 2, \"id\": 5, \"result\": 1}").err(), other);
    assert_eq!(read("{\"version\": 1, \"id\": 6, \"result\": 1}").err(), other);
    assert_eq!(read("{\"version\": 1.0, \"id\": 5, \"result\": 1}").err(), other);
    assert_eq!(
        read("{\"version\": 1, \"id\": 5, \"error\": {\"a\": 1}}").err(),
        Some("worker metadata: {\"a\":1}".to_string())
    );
    assert_eq!(
        read("{\"version\": 1, \"id\": 5}").err(),
        Some("missing worker result".to_string())
    );
    assert_eq!(to_text(&read("{\"version\": 1, \"id\": 5, \"result\": [1]}").unwrap()), "[1]");
}

fn arguments() -> OptimizeArgs {
    OptimizeArgs {
        dataset: String::new(),
        dataset_root: String::new(),
        cutlass_root: None,
        task: String::new(),
        level: 1,
        strategy: String::new(),
        search_config: None,
        iterations: None,
        candidates: None,
        parallel_sessions: 5,
        model: "m".to_string(),
        provider: "p".to_string(),
        reference_model: None,
        profile_model: None,
        memory_model: None,
        python: None,
        worker: None,
        output: "/out".to_string(),
        evaluator: Evaluator::Gpu,
        scenario: None,
        profiling: String::new(),
        ncu_full: false,
        memory_off: false,
        hint: None,
        gpus: vec![0],
        timeout_seconds: 900,
        strict_config: false,
    }
}

#[test]
fn sessions_run_within_the_limit() {
    assert_eq!(parallel_sessions(5, None), Ok(5));
    assert_eq!(parallel_sessions(9, None), Ok(6));
    assert_eq!(parallel_sessions(9, Some(12)), Ok(9));
    let refused = Err("parallel session limit must be positive".to_string());
    assert_eq!(parallel_sessions(0, None), refused);
    assert_eq!(parallel_sessions(5, Some(0)), refused);
}

#[test]
fn root_sessions_start_as_asked() {
    let args = arguments();
    assert_eq!(
        to_text(&root_request(&args)),
        "{\"model\":\"m\",\"modelProvider\":\"p\",\"cwd\":\"/out\",\"allowProviderModelFallback\":false}"
    );
    assert_eq!(
        to_text(&overrides(&args)),
        "{\"model\":\"m\",\"model_provider\":\"p\",\"features.memories\":false}"
    );
    let started = |model: &str, thread: &str| {
        json(&format!("{{\"model\": \"{model}\", \"modelProvider\": \"p\", \"thread\": {thread}}}"))
    };
    assert_eq!(root_thread(&args, &started("m", "{\"id\": \"r\"}")), Ok("r".to_string()));
    assert_eq!(
        root_thread(&args, &started("m", "{}")),
        Err("missing root thread ID".to_string())
    );
    assert_eq!(
        root_thread(&args, &started("n", "{\"id\": \"r\"}")),
        Err("resolved root provider/model differs from requested configuration".to_string())
    );
}

#[test]
fn children_belong_to_a_live_root() {
    let request = |parent_running, parent_owned, fresh_history, model_fallback| ChildRequest {
        parent_running,
        parent_owned,
        fresh_history,
        model_fallback,
    };
    let options = start_controller_child(&request(true, false, true, false)).unwrap();
    assert!(!options.multi_agent && !options.agents_enabled);
    let refused =
        Some("controller children require a live root, fresh history, and no model fallback".to_string());
    assert_eq!(start_controller_child(&request(false, false, true, false)).err(), refused);
    assert_eq!(start_controller_child(&request(true, true, true, false)).err(), refused);
    assert_eq!(start_controller_child(&request(true, false, false, false)).err(), refused);
    assert_eq!(start_controller_child(&request(true, false, true, true)).err(), refused);
    assert_eq!(close_controller_child("a", Some("a")), Ok(()));
    let foreign = Err("child is not owned by this parent".to_string());
    assert_eq!(close_controller_child("a", Some("b")), foreign);
    assert_eq!(close_controller_child("a", None), foreign);
}

#[test]
fn fragments_name_their_file() {
    let fragment =
        KernelContextFragment { text: "long".to_string(), file: "task-context.txt".to_string() };
    assert_eq!(
        fragment.body("lo", "task-context.txt"),
        "Complete controller-provided content: task-context.txt. Read it when this excerpt is truncated.\nlo"
    );
    assert_eq!(fragment.role(), "user");
    assert_eq!(fragment.content_kind(), "kernel.evidence");
    assert!(fragment.requires_separate_message());
    assert_eq!(fragment.markers(), ("", ""));
}

#[test]
fn paths_are_joined_once() {
    assert_eq!(below("/out", "a/b"), "/out/a/b");
    assert_eq!(below("/", "a"), "/a");
    assert_eq!(below("", "a"), "a");
}
