use cubineer::gpu::{
    candidate_error, environment, judge, positive_timing, record_candidate, record_reference,
    report, summarize_reference, time_reference, without_profiler, workload_request,
};
use cubineer::gpu_binary::{
    entry_points, function_names, library_symbols, listing, merge, newest, record, shorten,
};
use cubineer::gpu_profile::{
    check_script, collect, csv_name, details_command, kernel_filter, metrics_command, privileged,
    read_rules, rules_command, run_failure, settle, succeeded, unavailable,
};
use cubineer::identity::{
    check_candidate, check_reference, check_task_digest, check_unchanged, task_file, text_digest,
    validate_task,
};
use cubineer::json::Json;
use cubineer::number::{Number, Reading, Readings, Real};
use cubineer::simulated;
use cubineer::simulated::trial::{Event, Trial, Work};
use cubineer::written::to_text;

fn ranked(value: f64) -> Real {
    Real::from_bits(value.to_bits())
}

fn reading(value: f64) -> Reading {
    let whole = value.fract() == 0.0 && value >= -(2f64.powi(63)) && value < 2f64.powi(64);
    Reading {
        value: ranked(value),
        text: serde_json::to_string(&value).unwrap(),
        tenths: format!("{value:.1}"),
        units: format!("{value:.0}"),
        whole: if whole { Some(value as i128) } else { None },
        fractional: value.fract() != 0.0,
    }
}

fn convert(value: &serde_json::Value) -> Json {
    match value {
        serde_json::Value::Null => Json::Null,
        serde_json::Value::Bool(value) => Json::Bool(*value),
        serde_json::Value::Number(number) => {
            let shown = reading(number.as_f64().unwrap());
            if let Some(value) = number.as_u64() {
                Json::Number(Number::Integer(value as i128, Some(shown)))
            } else if let Some(value) = number.as_i64() {
                Json::Number(Number::Integer(value as i128, Some(shown)))
            } else {
                Json::Number(Number::Decimal(shown))
            }
        }
        serde_json::Value::String(value) => Json::Text(value.clone()),
        serde_json::Value::Array(items) => Json::Array(items.iter().map(convert).collect()),
        serde_json::Value::Object(fields) => Json::Object(
            fields.iter().map(|(key, value)| (key.clone(), convert(value))).collect(),
        ),
    }
}

fn json(text: &str) -> Json {
    convert(&serde_json::from_str(text).unwrap())
}

fn readings(texts: &[&str]) -> Readings {
    Readings {
        entries: texts
            .iter()
            .map(|text| {
                let value: f64 = text.parse().unwrap();
                (text.to_string(), if value.is_finite() { Some(reading(value)) } else { None })
            })
            .collect(),
    }
}

fn names(list: &[&str]) -> Vec<String> {
    list.iter().map(|name| name.to_string()).collect()
}

fn assets() -> Json {
    let mut groups: Vec<(String, Json)> = Vec::new();
    for index in 0..6 {
        let name = cubineer::analysis::group_name(index);
        groups.push((name.to_string(), json(&format!("[\"metric_{index}\"]"))));
    }
    let patterns = json("{\"wgmma\": \"WGMMA\", \"ffma\": \"\\\\bFFMA\\\\b\"}");
    Json::Object(vec![
        ("metrics".to_string(), Json::Object(groups)),
        ("sass_patterns".to_string(), patterns),
    ])
}

#[test]
fn metric_collection_switches_between_extracted_and_library_kernels() {
    let args = |list: &[&str]| {
        metrics_command(
            &assets(),
            "ncu",
            "venv/python",
            "profile_solution.py",
            "report.csv",
            &names(list),
        )
        .unwrap()
    };
    let library = args(&[]);
    let named = args(&["foo<int>", "a.b"]);
    assert!(library.contains(&"--launch-count=5".to_string()));
    assert!(named.contains(&"--launch-count=1".to_string()));
    let mut normalized = named;
    let filter = normalized.remove(8);
    assert_eq!(filter, "--kernel-name=regex:(foo<int>|a\\.b)");
    normalized[10] = "--launch-count=5".to_string();
    assert_eq!(normalized, library);
    assert!(library.contains(
        &"--metrics=metric_0,metric_1,metric_2,metric_3,metric_4,metric_5".to_string()
    ));
    assert_eq!(
        metrics_command(&Json::Null, "ncu", "p", "s", "c", &Vec::new()),
        Err("metric group".to_string())
    );
}

#[test]
fn filters_escape_names() {
    assert_eq!(kernel_filter(&names(&["f(x)", "g+h"])), "--kernel-name=regex:(f\\(x\\)|g\\+h)");
}

#[test]
fn the_profiler_runs_with_rights() {
    let command = names(&["ncu", "x"]);
    assert_eq!(privileged(&json("{\"uid\": 0}"), Some("sudo"), command.clone()), command);
    assert_eq!(privileged(&json("{\"uid\": 5}"), None, command.clone()), command);
    assert_eq!(
        privileged(&json("{\"uid\": 5}"), Some("sudo"), command),
        names(&[
            "sudo",
            "-E",
            "--preserve-env=PATH,LD_LIBRARY_PATH,CUDA_VISIBLE_DEVICES,TORCH_EXTENSIONS_DIR",
            "ncu",
            "x"
        ])
    );
    assert_eq!(rules_command("ncu", "base", "python", "s.py", &Vec::new()).len(), 12);
    assert_eq!(
        details_command("ncu", "r.ncu-rep"),
        names(&["ncu", "--import", "r.ncu-rep", "--page", "details"])
    );
}

#[test]
fn profiles_are_collected() {
    assert!(succeeded(&json("{\"exitCode\": 0}")));
    assert!(!succeeded(&json("{\"exitCode\": 1}")));
    assert_eq!(
        to_text(&settle(Err("no driver".to_string()))),
        "{\"success\":false,\"error\":\"NCU profiling error: no driver\",\"metrics\":{}}"
    );
    assert!(unavailable().at("error").is_text("NCU not available"));
    assert!(run_failure(&json("{\"stderr\": \"denied\"}")).at("error").is_text("NCU failed: denied"));
    assert_eq!(csv_name("profile_solution"), "ncu_profile_profile_solution.csv");
    let python = Some("python".to_string());
    assert_eq!(check_script("profile_solution.py", &python), Ok(()));
    assert_eq!(check_script("solution.py", &python), Err("expected profile script".to_string()));
    assert_eq!(
        check_script("profile_solution.py", &None),
        Err("GPU workloads require --python".to_string())
    );
    let made =
        collect(json("{\"k\": {}}"), &Vec::new(), "x.csv", json("[]")).unwrap();
    assert_eq!(
        to_text(&made),
        "{\"success\":true,\"kernel_names\":[\"k\"],\"library_fallback\":true,\"metrics\":{\"k\":{}},\"csv_path\":\"x.csv\",\"rule_recommendations\":[]}"
    );
    let given = collect(json("[]"), &names(&["a"]), "x.csv", json("[]")).unwrap();
    assert_eq!(to_text(given.at("library_fallback")), "false");
    assert_eq!(
        collect(json("[]"), &Vec::new(), "x.csv", json("[]")).err(),
        Some("NCU metrics".to_string())
    );
    let output = json(
        "{\"exitCode\": 0, \"stdout\": \"OPT Est. Speedup: 12.5%\\n  Fuse loads\\n  now\\n\\nOPT Est. Local Speedup: 50%\\nTile\\n\"}",
    );
    assert_eq!(
        to_text(&read_rules(&output, &readings(&["12.5", "50"])).unwrap()),
        "[{\"est_speedup_pct\":50.0,\"text\":\"Tile\"},{\"est_speedup_pct\":12.5,\"text\":\"Fuse loads now\"}]"
    );
    assert_eq!(to_text(&read_rules(&json("{\"exitCode\": 1}"), &readings(&[])).unwrap()), "[]");
}

#[test]
fn workload_observations_preserve_failure_classification() {
    let observation = |correct: bool, message: &str, details: &str| {
        json(&format!(
            "{{\"comparison\": {{\"correct\": {correct}, \"message\": \"{message}\", \"details\": {details}}}}}"
        ))
    };
    assert!(candidate_error(&observation(true, "", "null")).unwrap().is_null());
    for (message, category) in [
        ("Execution error: launch failure", "execution_error"),
        ("Shape mismatch", "execution_error"),
        ("Numerical error: mismatch", "correctness_error"),
    ] {
        assert!(candidate_error(&observation(false, message, "{\"max_diff\": 2.0}")).unwrap().equals(
            &json(&format!(
                "{{\"error_type\": \"{category}\", \"error_message\": \"{message}\", \"max_diff\": 2.0}}"
            ))
        ));
    }
    let exception =
        "{\"error_type\": \"RuntimeError\", \"error_message\": \"compile failed\", \"traceback\": \"trace\"}";
    assert!(candidate_error(&json(&format!("{{\"exception\": {exception}}}")))
        .unwrap()
        .equals(&json(exception)));
    assert!(candidate_error(&json("{}")).is_err());
    for invalid in ["0", "-1", "\"nan\""] {
        assert!(positive_timing(&json(invalid), "candidate").is_err());
    }
    assert!(positive_timing(&Json::Null, "candidate").unwrap().is_none());
    let seconds = positive_timing(&json("0.25"), "candidate").unwrap().unwrap();
    assert_eq!(seconds.text, "0.25");
    assert_eq!(seconds.value.rank, ranked(0.25).rank);
}

#[test]
fn reference_summary_preserves_first_kernel_and_failure() {
    let none = readings(&[]);
    assert!(summarize_reference(
        &json("{\"success\": false, \"error\": \"no ncu\"}"),
        &none,
        &None
    )
    .unwrap()
    .equals(&json("{\"error\": \"no ncu\"}")));
    assert!(summarize_reference(&json("{\"success\": true, \"metrics\": {}}"), &none, &None)
        .unwrap()
        .equals(&json("{\"error\": \"No metrics collected by NCU\"}")));
    let metrics = "{\"first\": {\"gpu__time_duration.sum\": 2000000.0, \"sm__throughput.avg.pct_of_peak_sustained_elapsed\": \"25.0\"}, \"second\": {\"gpu__time_duration.sum\": 1000000.0}}";
    let made = summarize_reference(
        &json(&format!("{{\"success\": true, \"metrics\": {metrics}}}")),
        &readings(&["25.0"]),
        &Some(reading(2000000.0 / 1_000_000.0)),
    )
    .unwrap();
    assert!(made.equals(&json(&format!(
        "{{\"success\": true, \"metrics\": {metrics}, \"kernel_name\": \"first\", \"sm_throughput\": 25.0, \"dram_throughput\": 0.0, \"latency_ms\": 2.0, \"occupancy\": 0.0}}"
    ))));
}

#[test]
fn workloads_are_requested() {
    let request = workload_request(json("{\"problem\": {}}"), true);
    assert!(request.at("problem").fields().is_some());
    assert!(request.fields().unwrap().len() > 1);
    let made = environment(&json("{\"gpu_id\": 3}"), &json("{}"), "/build", "/cache");
    assert!(made.fields().is_some());
}

#[test]
fn references_are_timed() {
    let seconds = time_reference(&json("{\"seconds\": 0.5}")).unwrap();
    assert_eq!(
        to_text(&record_reference(seconds, Json::Null, &json("{\"sha256\": \"t\"}"), "gpu")),
        "{\"reference_seconds\":0.5,\"profile\":null,\"task_sha256\":\"t\",\"validation\":\"gpu\"}"
    );
    assert_eq!(
        time_reference(&json("{\"exception\": \"boom\"}")).err(),
        Some("reference workload: \"boom\"".to_string())
    );
    assert_eq!(
        time_reference(&json("{}")).err(),
        Some("reference timing must be finite and positive".to_string())
    );
    assert!(without_profiler().at("error").is_text("NCU not available on this system"));
}

#[test]
fn candidates_are_judged() {
    let correct = "{\"comparison\": {\"correct\": true}, \"seconds\": 0.5}";
    let verdict = judge(&json(correct)).unwrap();
    assert!(verdict.error.is_null());
    assert_eq!(
        judge(&json("{\"comparison\": {\"correct\": true}}")).err(),
        Some("successful candidate has no timing".to_string())
    );
    let payload =
        json("{\"problem\": {\"sha256\": \"t\"}, \"reference\": {\"reference_seconds\": 1.0}, \"ncu_full\": true}");
    let artifacts = vec![("build/x.so".to_string(), "d".to_string())];
    let made = record_candidate(
        &payload,
        "s",
        verdict,
        Json::Null,
        &json("{\"torch_version\": \"2\"}"),
        &artifacts,
        Some(Some(reading(2.0))),
    )
    .unwrap();
    assert_eq!(
        to_text(&made),
        "{\"outcome\":{\"status\":\"success\",\"speedup\":2.0,\"error_context\":null},\"candidate_seconds\":0.5,\"source_sha256\":\"s\",\"task_sha256\":\"t\",\"profile\":null,\"build_identity\":{\"torch_version\":\"2\",\"cuda_version\":null,\"cuda_arch_list\":null,\"artifacts\":[{\"path\":\"build/x.so\",\"sha256\":\"d\"}]},\"validation\":\"gpu\",\"profiling_options\":{\"tool_mode\":\"proactive\",\"ncu_full\":true,\"nsys\":false}}"
    );
    let again = |reference: &str, speedup: Option<Option<Reading>>| {
        record_candidate(
            &json(reference),
            "s",
            judge(&json(correct)).unwrap(),
            Json::Null,
            &Json::Null,
            &Vec::new(),
            speedup,
        )
        .err()
    };
    assert_eq!(again("{}", None), Some("reference timing".to_string()));
    assert_eq!(
        again("{\"reference\": {\"reference_seconds\": 1.0}}", Some(None)),
        Some("speedup must be finite".to_string())
    );
    assert_eq!(
        to_text(&report(Err("no kernel".to_string()), Json::Null)),
        "{\"success\":false,\"error\":\"no kernel\"}"
    );
    assert_eq!(
        to_text(&report(Ok(json("{\"success\": true}")), json("{}"))),
        "{\"success\":true,\"sass\":{}}"
    );
}

#[test]
fn binaries_tell_their_kernels() {
    assert_eq!(newest(&vec![3, 9, 9, 1]), Some(1));
    assert_eq!(newest(&Vec::new()), None);
    let table = json(
        "{\"exitCode\": 0, \"stdout\": \"STT_FUNC  STB_GLOBAL STO_ENTRY  _Z3addv\\nSTT_FUNC STB_LOCAL x y\\n\"}",
    );
    assert_eq!(entry_points(&table), Ok(names(&["_Z3addv"])));
    assert_eq!(entry_points(&json("{\"exitCode\": 1}")), Ok(Vec::new()));
    let plain = json("{\"exitCode\": 0, \"stdout\": \"void add<float>(float*)\\nns::scale(int)\\n\"}");
    assert_eq!(function_names(&plain), Ok(names(&["add", "ns::scale"])));
    assert_eq!(shorten("void add"), "add");
    let mut list = names(&["a"]);
    merge(&mut list, &names(&["b", "a", "b"]));
    assert_eq!(list, names(&["a", "b"]));
    let failed = json("{\"exitCode\": 1}");
    assert_eq!(library_symbols(&failed), Ok(Vec::new()));
    let dumped = json("{\"exitCode\": 0, \"stdout\": \"FFMA\"}");
    assert_eq!(listing(Some((&dumped.clone(), &dumped)), &Vec::new()), Some("FFMA".to_string()));
    assert_eq!(listing(None, &Vec::new()), None);
    assert_eq!(listing(None, &names(&["cublasSgemm"])), Some(String::new()));
    let made = record(&assets(), &Some("FFMA ffma WGMMA".to_string()), &names(&["s"])).unwrap();
    assert_eq!(to_text(made.at("ffma_count")), "2");
    assert!(made.at("uses_cublas").is_true());
    assert!(record(&assets(), &None, &Vec::new()).unwrap().is_null());
}

#[test]
fn identities_are_checked() {
    let digest = "ba7816bf8f01cfea414140de5dae2223b00361a396177a9cb410ff61f20015ad";
    assert_eq!(text_digest("abc"), digest);
    let problem =
        json(&format!("{{\"file_sha256\": \"{digest}\", \"file_path\": \"/t.py\"}}"));
    assert_eq!(task_file(&problem), Ok(Some("/t.py")));
    assert_eq!(task_file(&json("{}")), Ok(None));
    assert_eq!(
        task_file(&json("{\"file_sha256\": \"x\"}")),
        Err("reference file".to_string())
    );
    assert_eq!(validate_task(&problem, &b"abc".to_vec()), Ok(()));
    assert_eq!(
        validate_task(&problem, &b"abd".to_vec()),
        Err("reference file changed after task preparation".to_string())
    );
    assert_eq!(check_task_digest(&problem, digest), Ok(()));
    assert_eq!(check_candidate(&json("{\"source_sha256\": \"a\"}"), "a"), Ok(()));
    assert_eq!(
        check_candidate(&json("{}"), "a"),
        Err("candidate source identity mismatch".to_string())
    );
    assert_eq!(
        check_reference(&json("{\"reference\": {\"task_sha256\": \"t\"}, \"problem\": {\"sha256\": \"u\"}}")),
        Err("reference task identity mismatch".to_string())
    );
    assert_eq!(check_unchanged("a", "a"), Ok(()));
    assert!(check_unchanged("a", "b").is_err());
}

fn number(reading: &Reading) -> f64 {
    f64::from_bits(reading.value.to_bits())
}

fn finite(value: f64) -> Option<Reading> {
    if value.is_finite() {
        Some(reading(value))
    } else {
        None
    }
}

/// Evaluates by a scenario; every file that is read holds `code`, and those that are written are
/// kept.
fn simulate(
    payload: Json,
    candidate: bool,
    code: &str,
    files: &mut Vec<(String, String)>,
) -> Result<Json, String> {
    let (mut trial, mut work) = Trial::new(payload, candidate, assets())?;
    loop {
        let event = match work {
            Work::Open(path) => Event::Opened(Ok(path)),
            Work::Read(_) => Event::Bytes(Ok(code.as_bytes().to_vec())),
            Work::Write(path, content) => {
                files.push((path, content));
                Event::Done(Ok(()))
            }
            Work::Name(list) => {
                let list = list.items().unwrap().iter();
                let list = list.map(|name| name.text().unwrap().to_string()).collect();
                Event::Named(Ok(list), readings(&["1000.0"]))
            }
            Work::Scale(report) => {
                let kernel = report.at("kernel_names").item(0).text_or_empty();
                let duration = report.at("metrics").at(kernel).at("gpu__time_duration.sum");
                Event::Scaled(finite(duration.reading().map_or(0.0, number) / 1_000_000.0))
            }
            Work::Divide(reference, seconds) => {
                let reference = reference.as_ref().map_or(0.0, number);
                Event::Divided(finite(reference / number(&seconds)))
            }
            Work::Finish(record) => return Ok(record),
            Work::Abort(reason) => return Err(reason),
        };
        assert!(trial.admits(&event));
        let next = trial.advance(event);
        trial = next.0;
        work = next.1;
    }
}

#[test]
fn simulation_checks_identity_and_never_executes_candidate() {
    let code = "raise RuntimeError('must not execute')";
    let hash = text_digest(code);
    let payload = |hash: &str, fixture: &str| {
        json(&format!(
            "{{\"output_dir\": \"/o\", \"source\": \"/o/solution.py\", \"source_sha256\": \"{hash}\", \"problem\": {{\"sha256\": \"task\"}}, \"reference\": {{\"task_sha256\": \"task\", \"reference_seconds\": 0.002}}, \"fixture\": {{{fixture} \"ncu_csv\": \"Kernel Name,gpu__time_duration.sum\\n,ns\\nprobe,1000.0\\n\", \"sass\": \"HGMMA FFMA\"}}}}"
        ))
    };
    let evaluate = |payload: &Json| simulate(payload.clone(), true, code, &mut Vec::new());
    let result = evaluate(&payload(&hash, "\"candidate_seconds\": 0.001,")).unwrap();
    assert!(result
        .at("outcome")
        .equals(&json("{\"status\": \"success\", \"speedup\": 2.0, \"error_context\": null}")));
    assert!(result.at("profile").at("sass").at("wgmma_count").is_integer(0));
    let failing = "\"candidate_seconds\": 0.001, \"error_context\": {\"error_type\": \"correctness_error\"},";
    assert!(evaluate(&payload(&hash, failing)).unwrap().at("outcome").equals(&json(
        "{\"status\": \"failed\", \"speedup\": 2.0, \"error_context\": {\"error_type\": \"correctness_error\"}}"
    )));
    assert!(evaluate(&payload("changed", failing)).is_err());
    assert!(evaluate(&payload(&hash, "\"candidate_seconds\": 0,")).is_err());
    let problem = json("{\"file_path\": \"/o/solution.py\", \"file_sha256\": \"changed\"}");
    assert!(validate_task(&problem, &code.as_bytes().to_vec()).is_err());
}

#[test]
fn simulations_keep_their_files() {
    let payload = json(
        "{\"output_dir\": \"/o\", \"problem\": {\"sha256\": \"t\"}, \"fixture\": {\"reference_seconds\": 0.5, \"kernel_names\": [\"probe\"], \"ncu_csv\": \"Kernel Name,gpu__time_duration.sum\\n,ns\\nprobe,1000.0\\n\", \"sass\": \"FFMA\"}}",
    );
    let mut files = Vec::new();
    let record = simulate(payload.clone(), false, "", &mut files).unwrap();
    assert_eq!(files[0].0, "/o/profile.csv");
    assert_eq!(files[1], ("/o/kernel.sass".to_string(), "FFMA".to_string()));
    assert_eq!(files.len(), 2);
    assert!(record.at("validation").is_text("simulated"));
    assert_eq!(to_text(record.at("profile").at("latency_ms")), "0.001");
    let refused = |text: &str, candidate: bool| {
        simulate(json(text), candidate, "code", &mut Vec::new()).err().unwrap()
    };
    assert_eq!(refused("{}", true), "candidate output");
    assert_eq!(refused("{}", false), "reference output");
    assert_eq!(refused("{\"output_dir\": \"/o\"}", true), "candidate source");
    assert_eq!(
        refused("{\"output_dir\": \"/o\"}", false),
        "reference timing must be finite and positive"
    );
    assert_eq!(
        refused("{\"output_dir\": \"/o\", \"problem\": {\"file_sha256\": 1}}", false),
        "reference file"
    );
    assert_eq!(
        refused(
            "{\"output_dir\": \"/o\", \"problem\": {\"file_sha256\": 1, \"file_path\": \"p\"}}",
            false
        ),
        "reference file changed after task preparation"
    );
    let timed = "{\"output_dir\": \"/o\", \"fixture\": {\"reference_seconds\": 1.0}}";
    assert_eq!(refused(timed, false), "scenario NCU CSV");
    let digest = text_digest("code");
    let strange = format!(
        "{{\"output_dir\": \"/o\", \"source\": \"s\", \"source_sha256\": \"{digest}\", \"problem\": {{\"sha256\": \"t\"}}}}"
    );
    assert_eq!(refused(&strange, true), "reference task identity mismatch");
}

#[test]
fn simulated_references_are_recorded() {
    let payload = json(
        "{\"problem\": {\"sha256\": \"t\"}, \"fixture\": {\"reference_seconds\": 0.5, \"ncu_csv\": \"Kernel Name,gpu__time_duration.sum\\n,ns\\nprobe,1000.0\\n\"}}",
    );
    let made =
        simulated::report(&payload, &Vec::new(), "/x.csv", &assets(), &readings(&["1000.0"]))
            .unwrap();
    assert!(made.at("success").is_true());
    assert!(made.at("sass").is_null());
    let seconds = simulated::reference_time(&payload).unwrap();
    let recorded =
        simulated::reference(&payload, seconds, &made, &Some(reading(0.001))).unwrap();
    assert!(recorded.at("validation").is_text("simulated"));
    assert!(recorded.at("profile").at("kernel_name").is_text("probe"));
    assert_eq!(
        simulated::scenario_table(&json("{}")),
        Err("scenario NCU CSV".to_string())
    );
    assert_eq!(
        simulated::reference_time(&json("{}")).err(),
        Some("reference timing must be finite and positive".to_string())
    );
    assert!(!simulated::fails(&payload));
}
