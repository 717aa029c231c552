use cubineer::gpu::progress::{Evaluation, Event, Phase, Work};
use cubineer::gpu_binary::artifacts::{artifacts, is_artifact, is_library, libraries};
use cubineer::gpu_binary::inspection::{self, choose_tool, tool_places, Inspection};
use cubineer::gpu_binary::naming::Naming;
use cubineer::gpu_profile::collection::{Answer, Ask, Collection, Progress, Subject};
use cubineer::gpu_profile::Process;
use cubineer::identity::text_digest;
use cubineer::json::Json;
use cubineer::number::{Number, Reading, Readings, Real};
use cubineer::paths::{ending, file_name, stem};
use cubineer::template::{Part, Template, Templates};
use cubineer::written::to_text;

fn ranked(value: f64) -> Real {
    Real::from_bits(value.to_bits())
}

fn reading(value: f64) -> Reading {
    let whole = value.fract() == 0.0 && value >= -(2f64.powi(63)) && value < 2f64.powi(64);
    Reading {
        value: ranked(value),
        text: serde_json::to_string(&value).unwrap(),
        tenths: format!("{value:.1}"),
        units: format!("{value:.0}"),
        whole: if whole { Some(value as i128) } else { None },
        fractional: value.fract() != 0.0,
    }
}

fn convert(value: &serde_json::Value) -> Json {
    match value {
        serde_json::Value::Null => Json::Null,
        serde_json::Value::Bool(value) => Json::Bool(*value),
        serde_json::Value::Number(number) => {
            let shown = reading(number.as_f64().unwrap());
            if let Some(value) = number.as_u64() {
                Json::Number(Number::Integer(value as i128, Some(shown)))
            } else if let Some(value) = number.as_i64() {
                Json::Number(Number::Integer(value as i128, Some(shown)))
            } else {
                Json::Number(Number::Decimal(shown))
            }
        }
        serde_json::Value::String(value) => Json::Text(value.clone()),
        serde_json::Value::Array(items) => Json::Array(items.iter().map(convert).collect()),
        serde_json::Value::Object(fields) => Json::Object(
            fields.iter().map(|(key, value)| (key.clone(), convert(value))).collect(),
        ),
    }
}

fn json(text: &str) -> Json {
    convert(&serde_json::from_str(text).unwrap())
}

fn readings(texts: &[&str]) -> Readings {
    Readings {
        entries: texts
            .iter()
            .map(|text| {
                let value: f64 = text.parse().unwrap();
                (text.to_string(), if value.is_finite() { Some(reading(value)) } else { None })
            })
            .collect(),
    }
}

fn names(list: &[&str]) -> Vec<String> {
    list.iter().map(|name| name.to_string()).collect()
}

fn assets() -> Json {
    let mut groups: Vec<(String, Json)> = Vec::new();
    for index in 0..6 {
        let name = cubineer::analysis::group_name(index);
        groups.push((name.to_string(), json(&format!("[\"metric_{index}\"]"))));
    }
    let patterns = json("{\"wgmma\": \"WGMMA\", \"ffma\": \"\\\\bFFMA\\\\b\"}");
    Json::Object(vec![
        ("metrics".to_string(), Json::Object(groups)),
        ("sass_patterns".to_string(), patterns),
    ])
}


fn printed(text: &str) -> Json {
    Json::Object(vec![
        ("exitCode".to_string(), json("0")),
        ("stdout".to_string(), Json::Text(text.to_string())),
    ])
}

fn command(process: &Process) -> Vec<&str> {
    process.command.iter().map(String::as_str).collect()
}

#[test]
fn files_have_names_and_endings() {
    assert_eq!(file_name("build/a/b.so"), "b.so");
    assert_eq!(file_name("b.so"), "b.so");
    assert_eq!(ending("profile_solution.py"), Some("py".to_string()));
    assert_eq!(ending("archive.tar.gz"), Some("gz".to_string()));
    assert_eq!(ending(".so"), None);
    assert_eq!(ending("plain"), None);
    assert_eq!(stem("profile_solution.py"), "profile_solution");
    assert_eq!(stem(".so"), ".so");
}

#[test]
fn artifacts_are_libraries_and_plans_in_order() {
    assert!(is_library("build/ext.so"));
    assert!(!is_library("build/ext.so.1"));
    assert!(is_artifact("build/build.ninja"));
    assert!(!is_artifact("build/ext.o"));
    let files = names(&["build/b.so", "build/a.c", "build/a.d/z.so", "build/a/z.so", "build/build.ninja"]);
    assert_eq!(libraries(&files), names(&["build/b.so", "build/a.d/z.so", "build/a/z.so"]));
    assert_eq!(
        artifacts(&files),
        names(&["build/a/z.so", "build/a.d/z.so", "build/b.so", "build/build.ninja"])
    );
    let mut paths: Vec<std::path::PathBuf> =
        artifacts(&files).iter().map(std::path::PathBuf::from).collect();
    let before = paths.clone();
    paths.sort();
    assert_eq!(paths, before);
}

#[test]
fn kernels_are_named_library_by_library() {
    let tools = Some(("cuobjdump".to_string(), "c++filt".to_string()));
    let (mut naming, process) = Naming::new(tools, names(&["one.so", "two.so", "three.so"]));
    let process = process.unwrap();
    assert_eq!(command(&process), ["cuobjdump", "-symbols", "one.so"]);
    assert_eq!(process.timeout_ms, 30_000);
    let process = naming
        .advance(Ok(printed("STT_FUNC STB_GLOBAL STO_ENTRY _Z3addv\n")))
        .unwrap();
    assert_eq!(command(&process), ["c++filt", "_Z3addv"]);
    assert_eq!(process.timeout_ms, 10_000);
    let process = naming.advance(Ok(printed("void add<int>(int)\nadd(float)\nscale()\n"))).unwrap();
    assert_eq!(command(&process), ["cuobjdump", "--dump-resource-usage", "one.so"]);
    let process = naming.advance(Ok(Json::Null)).unwrap();
    assert_eq!(command(&process), ["cuobjdump", "-symbols", "two.so"]);
    assert_eq!(naming.names, names(&["add", "scale"]));
    let process = naming.advance(Err("lost".to_string())).unwrap();
    assert_eq!(command(&process), ["cuobjdump", "-symbols", "three.so"]);
    assert!(naming.advance(Ok(json("{\"exitCode\": 1}"))).is_none());
    assert_eq!(naming.names, names(&["add", "scale"]));
    let (naming, process) = Naming::new(None, names(&["one.so"]));
    assert!(process.is_none());
    assert!(naming.names.is_empty());
}

#[test]
fn libraries_are_inspected() {
    assert_eq!(tool_places().len(), 3);
    assert_eq!(choose_tool(Some("found".to_string()), &names(&["place"])), "found");
    assert_eq!(choose_tool(None, &names(&["place", "other"])), "place");
    assert_eq!(choose_tool(None, &Vec::new()), "cuobjdump");
    let (inspected, process) = Inspection::new("cuobjdump".to_string(), "one.so".to_string());
    assert_eq!(command(&process), ["nm", "-D", "one.so"]);
    let (inspected, process) = match inspected.advance(Ok(printed(" U cublasSgemm_v2\n U puts\n")), &assets()) {
        inspection::Progress::Run(next, process) => (next, process),
        inspection::Progress::Made(_) => panic!("nothing is made yet"),
    };
    assert_eq!(inspected.symbols, names(&["cublasSgemm_v2"]));
    assert_eq!(command(&process), ["cuobjdump", "--list-ptx", "one.so"]);
    let (inspected, process) = match inspected.advance(Ok(printed("")), &assets()) {
        inspection::Progress::Run(next, process) => (next, process),
        inspection::Progress::Made(_) => panic!("nothing is made yet"),
    };
    assert_eq!(command(&process), ["cuobjdump", "--dump-sass", "one.so"]);
    match inspected.advance(Ok(printed("FFMA R1\nFFMA R2\n")), &assets()) {
        inspection::Progress::Made(Ok(record)) => {
            assert!(record.at("uses_cublas").is_true());
            assert_eq!(to_text(record.at("ffma_count")), "2");
            assert_eq!(to_text(record.at("cublas_symbols")), "[\"cublasSgemm_v2\"]");
        }
        _ => panic!("a record was expected"),
    }
    let (inspected, _) = Inspection::new("cuobjdump".to_string(), "one.so".to_string());
    let inspected = match inspected.advance(Err("lost".to_string()), &assets()) {
        inspection::Progress::Run(next, _) => next,
        inspection::Progress::Made(_) => panic!("nothing is made yet"),
    };
    match inspected.advance(Err("lost".to_string()), &assets()) {
        inspection::Progress::Made(Ok(record)) => assert!(record.is_null()),
        _ => panic!("null was expected"),
    }
}

fn subject(full: bool) -> Subject {
    Subject {
        sudo: Some("/bin/sudo".to_string()),
        output: "out".to_string(),
        file: "profile_solution.py".to_string(),
        names: names(&["add"]),
        full,
        runtime: json("{\"uid\": 0}"),
    }
}

fn asked(progress: Progress) -> (Collection, Ask) {
    match progress {
        Progress::Asked(collection, ask) => (collection, ask),
        Progress::Made(_) => panic!("nothing is made yet"),
    }
}

fn made(progress: Progress) -> Json {
    match progress {
        Progress::Asked(_, _) => panic!("a record was expected"),
        Progress::Made(record) => record,
    }
}

#[test]
fn profiles_are_collected_step_by_step() {
    let python = Some("python".to_string());
    let absent = made(Collection::begin(None, &python, subject(true), &assets()));
    assert_eq!(to_text(absent.at("error")), "\"NCU not available\"");
    let ncu = Some("ncu".to_string());
    let bare = made(Collection::begin(ncu.clone(), &None, subject(true), &assets()));
    assert_eq!(
        to_text(bare.at("error")),
        "\"NCU profiling error: GPU workloads require --python\""
    );
    let mut other = subject(true);
    other.file = "benchmark_solution.py".to_string();
    let wrong = made(Collection::begin(ncu.clone(), &python, other, &assets()));
    assert_eq!(to_text(wrong.at("error")), "\"NCU profiling error: expected profile script\"");
    let (collection, ask) =
        asked(Collection::begin(ncu.clone(), &python, subject(true), &assets()));
    match ask {
        Ask::Run(process) => {
            assert_eq!(process.timeout_ms, 300_000);
            assert_eq!(process.command[0], "ncu");
            assert_eq!(process.command[7], "--log-file=out/ncu_profile_profile_solution.csv");
        }
        _ => panic!("a process was expected"),
    }
    assert!(!collection.admits(&Answer::Looked(true)));
    let (collection, ask) = asked(collection.advance(Answer::Ran(Ok(printed("")))));
    match ask {
        Ask::Table(path) => assert_eq!(path, "out/ncu_profile_profile_solution.csv"),
        _ => panic!("a table was expected"),
    }
    let table = "\"Kernel Name\",\"m\"\n\"\",\"\"\n\"add(int)\",\"5\"\n".to_string();
    let (collection, ask) =
        asked(collection.advance(Answer::Table(Ok(Some(table)), readings(&["5"]))));
    match ask {
        Ask::Run(process) => {
            assert_eq!(process.timeout_ms, 600_000);
            assert_eq!(process.command[9], "out/ncu_rules");
        }
        _ => panic!("a process was expected"),
    }
    let (collection, ask) = asked(collection.advance(Answer::Ran(Ok(printed("")))));
    match ask {
        Ask::Look(path) => assert_eq!(path, "out/ncu_rules.ncu-rep"),
        _ => panic!("a look was expected"),
    }
    let (collection, ask) = asked(collection.advance(Answer::Looked(true)));
    match ask {
        Ask::Tell(process) => {
            assert_eq!(
                command(&process),
                ["ncu", "--import", "out/ncu_rules.ncu-rep", "--page", "details"]
            );
        }
        _ => panic!("a process was expected"),
    }
    let record = made(collection.advance(Answer::Told(Err("lost".to_string()), readings(&[]))));
    assert!(record.at("success").is_true());
    assert_eq!(to_text(record.at("kernel_names")), "[\"add\"]");
    assert_eq!(to_text(record.at("rule_recommendations")), "[]");
    assert!(record.at("library_fallback").is_false());
    let (collection, _) = asked(Collection::begin(ncu.clone(), &python, subject(false), &assets()));
    let failed = made(collection.advance(Answer::Ran(Ok(json(
        "{\"exitCode\": 1, \"stderr\": \"no counters\"}",
    )))));
    assert_eq!(to_text(failed.at("error")), "\"NCU failed: no counters\"");
    let (collection, _) = asked(Collection::begin(ncu, &python, subject(false), &assets()));
    let lost = made(collection.advance(Answer::Ran(Err("lost".to_string()))));
    assert_eq!(to_text(lost.at("error")), "\"NCU profiling error: lost\"");
}

fn templates() -> Templates {
    let plain = |text: &str| {
        Ok(Template { placeholders: Vec::new(), parts: vec![Part::Text(text.to_string())] })
    };
    Templates {
        entries: vec![
            ("reference".to_string(), plain("# reference")),
            ("candidate".to_string(), plain("# candidate")),
            ("benchmark".to_string(), plain("# benchmark")),
        ],
    }
}

fn payload() -> Json {
    json(&format!(
        "{{\"output_dir\": \"out\", \"source\": \"out/solution.py\", \"source_sha256\": \"{}\", \
         \"problem\": {{\"sha256\": \"task\", \"input_generator\": \"x\", \"canonical_solution\": \"y\", \
         \"file_path\": \"p.py\"}}, \"reference\": {{\"task_sha256\": \"task\", \"reference_seconds\": 2.0}}}}",
        text_digest("code")
    ))
}

fn start(operation: &str, payload: Json) -> Evaluation {
    let (evaluation, work) = Evaluation::new(
        operation,
        payload,
        Some("python".to_string()),
        "solution.py".to_string(),
        assets(),
        templates(),
    )
    .unwrap();
    match work {
        Work::Open(path) => assert_eq!(path, "out"),
        _ => panic!("a directory was expected"),
    }
    evaluation
}

fn step(evaluation: Evaluation, event: Event) -> (Evaluation, Work) {
    assert!(evaluation.admits(&event));
    evaluation.advance(event)
}

fn aborted(next: (Evaluation, Work)) -> String {
    assert!(matches!(next.0.phase, Phase::Over));
    match next.1 {
        Work::Abort(reason) => reason,
        _ => panic!("a failure was expected"),
    }
}

fn observed(text: &str) -> (Evaluation, Work) {
    let evaluation = start("evaluate", payload());
    let (evaluation, work) = step(evaluation, Event::Done(Ok(())));
    match work {
        Work::Read(path) => assert_eq!(path, "out/solution.py"),
        _ => panic!("the source was expected"),
    }
    let (evaluation, work) = step(evaluation, Event::Bytes(Ok(b"code".to_vec())));
    match work {
        Work::Observe(request) => {
            assert_eq!(to_text(request.at("operation")), "\"candidate\"");
            assert!(request.at("settings").at("set_arch").is_true());
        }
        _ => panic!("a workload was expected"),
    }
    step(evaluation, Event::Observed(Ok(json(text))))
}

const SUCCESS: &str = "{\"runtime\": {\"uid\": 1, \"torch_version\": \"2\", \"cuda_arch_list\": \"9.0\"}, \
                       \"exception\": null, \"comparison\": {\"correct\": true}, \"seconds\": 0.5}";

#[test]
fn candidates_are_evaluated_step_by_step() {
    let (evaluation, work) = observed(SUCCESS);
    match work {
        Work::Write(path, content) => {
            assert_eq!(path, "out/benchmark_solution.py");
            assert_eq!(content, "# benchmark");
        }
        _ => panic!("a script was expected"),
    }
    assert_eq!(
        to_text(&evaluation.environment()),
        "{\"CUDA_VISIBLE_DEVICES\":\"0\",\"TORCH_EXTENSIONS_DIR\":\"out/build\",\"TRITON_CACHE_DIR\":\"out/triton\",\"TORCH_CUDA_ARCH_LIST\":\"9.0\"}"
    );
    let (evaluation, work) = step(evaluation, Event::Done(Err("full".to_string())));
    assert!(matches!(work, Work::Tools));
    let tools = Some(("cuobjdump".to_string(), "c++filt".to_string()));
    let (evaluation, work) =
        step(evaluation, Event::Tools(tools, names(&["build/a.so", "build/a.o"])));
    match work {
        Work::Run(process) => {
            assert_eq!(command(&process), ["cuobjdump", "-symbols", "out/build/a.so"]);
        }
        _ => panic!("a process was expected"),
    }
    let (evaluation, work) = step(evaluation, Event::Ran(Err("lost".to_string())));
    match work {
        Work::Write(path, content) => {
            assert_eq!(path, "out/profile_solution.py");
            assert_eq!(content, "# candidate");
        }
        _ => panic!("a script was expected"),
    }
    let (evaluation, work) = step(evaluation, Event::Done(Ok(())));
    assert!(matches!(work, Work::Seek));
    let (evaluation, work) = step(evaluation, Event::Found(None, None));
    assert!(matches!(work, Work::List));
    let (evaluation, work) = step(evaluation, Event::Files(names(&["build/b.so", "build/a.so"])));
    match work {
        Work::Date(list) => assert_eq!(list, names(&["out/build/b.so", "out/build/a.so"])),
        _ => panic!("libraries were expected"),
    }
    assert!(!evaluation.admits(&Event::Dated(Ok(vec![1]), None, Vec::new())));
    let (evaluation, work) = step(evaluation, Event::Dated(Ok(vec![1, 2]), None, Vec::new()));
    match work {
        Work::Run(process) => assert_eq!(command(&process), ["nm", "-D", "out/build/a.so"]),
        _ => panic!("a process was expected"),
    }
    let (evaluation, _) = step(evaluation, Event::Ran(Err("lost".to_string())));
    let (evaluation, work) = step(evaluation, Event::Ran(Err("lost".to_string())));
    assert!(matches!(work, Work::Read(_)));
    let (evaluation, work) = step(evaluation, Event::Bytes(Ok(b"code".to_vec())));
    match work {
        Work::Divide(reference, seconds) => {
            assert_eq!(reference.text, "2.0");
            assert_eq!(seconds.text, "0.5");
        }
        _ => panic!("a division was expected"),
    }
    let (evaluation, work) = step(evaluation, Event::Divided(Some(reading(4.0))));
    assert!(matches!(work, Work::List));
    let (evaluation, work) = step(
        evaluation,
        Event::Files(names(&["build/b.so", "build/b.o", "build/a.so"])),
    );
    match work {
        Work::Digest(list) => assert_eq!(list, names(&["out/build/a.so", "out/build/b.so"])),
        _ => panic!("files were expected"),
    }
    assert!(!evaluation.admits(&Event::Contents(Ok(Vec::new()))));
    let (evaluation, work) =
        step(evaluation, Event::Contents(Ok(vec![b"abc".to_vec(), b"code".to_vec()])));
    assert!(matches!(evaluation.phase, Phase::Over));
    let record = match work {
        Work::Finish(record) => record,
        _ => panic!("a record was expected"),
    };
    assert_eq!(
        to_text(record.at("outcome")),
        "{\"status\":\"success\",\"speedup\":4.0,\"error_context\":null}"
    );
    assert_eq!(to_text(record.at("source_sha256")), format!("\"{}\"", text_digest("code")));
    assert_eq!(
        to_text(record.at("build_identity").at("artifacts").item(0)),
        format!("{{\"path\":\"build/a.so\",\"sha256\":\"{}\"}}", text_digest("abc"))
    );
    assert_eq!(to_text(record.at("profile").at("error")), "\"NCU not available\"");
    assert!(record.at("profile").get("sass").is_some());
    assert!(!evaluation.admits(&Event::Done(Ok(()))));
}

#[test]
fn failed_candidates_are_not_profiled() {
    let (evaluation, work) = observed(
        "{\"exception\": null, \"comparison\": {\"correct\": false, \"message\": \"Numerical error\"}, \"seconds\": null}",
    );
    assert!(matches!(work, Work::Read(_)));
    let (evaluation, work) = step(evaluation, Event::Bytes(Ok(b"code".to_vec())));
    assert!(matches!(work, Work::List));
    let (evaluation, work) = step(evaluation, Event::Files(Vec::new()));
    assert!(matches!(work, Work::Digest(_)));
    let (_, work) = step(evaluation, Event::Contents(Ok(Vec::new())));
    let record = match work {
        Work::Finish(record) => record,
        _ => panic!("a record was expected"),
    };
    assert_eq!(to_text(record.at("outcome").at("status")), "\"failed\"");
    assert_eq!(
        to_text(record.at("outcome").at("error_context").at("error_type")),
        "\"correctness_error\""
    );
    assert!(record.at("profile").is_null());
    assert!(record.at("candidate_seconds").is_null());
}

#[test]
fn evaluations_refuse_what_changed() {
    let evaluation = start("evaluate", payload());
    let (evaluation, _) = step(evaluation, Event::Done(Ok(())));
    let reason = aborted(step(evaluation, Event::Bytes(Ok(b"other".to_vec()))));
    assert_eq!(reason, "candidate source identity mismatch");
    let (evaluation, _) = observed(
        "{\"exception\": {\"error_type\": \"timeout\"}, \"seconds\": null}",
    );
    let reason = aborted(step(evaluation, Event::Bytes(Ok(b"other".to_vec()))));
    assert_eq!(reason, "candidate source changed during evaluation");
    let reason = aborted(observed("{\"comparison\": {\"correct\": true}}"));
    assert_eq!(reason, "successful candidate has no timing");
    let evaluation = start("evaluate", payload());
    assert_eq!(aborted(step(evaluation, Event::Done(Err("full".to_string())))), "full");
    let lost = Evaluation::new(
        "evaluate",
        Json::Null,
        None,
        String::new(),
        Json::Null,
        templates(),
    );
    assert!(matches!(lost, Err(reason) if reason == "GPU output"));
}

#[test]
fn references_are_evaluated_step_by_step() {
    let (evaluation, work) = step(start("reference", payload()), Event::Done(Ok(())));
    match work {
        Work::Observe(request) => {
            assert_eq!(to_text(request.at("operation")), "\"reference\"");
            assert!(request.at("settings").at("set_arch").is_false());
        }
        _ => panic!("a workload was expected"),
    }
    let (evaluation, work) =
        step(evaluation, Event::Observed(Ok(json("{\"runtime\": {\"uid\": 0}, \"seconds\": 0.25}"))));
    assert!(matches!(work, Work::Seek));
    let (evaluation, work) = step(evaluation, Event::Found(Some("ncu".to_string()), None));
    match work {
        Work::Write(path, content) => {
            assert_eq!(path, "out/profile_reference.py");
            assert_eq!(content, "# reference");
        }
        _ => panic!("a script was expected"),
    }
    let (evaluation, work) = step(evaluation, Event::Done(Ok(())));
    match work {
        Work::Collect(Ask::Run(process)) => assert!(process.command.contains(&"--launch-count=5".to_string())),
        _ => panic!("a process was expected"),
    }
    let (evaluation, work) =
        step(evaluation, Event::Answered(Answer::Ran(Ok(json("{\"exitCode\": 2}")))));
    match work {
        Work::Sum(report) => assert_eq!(to_text(report.at("error")), "\"NCU failed: \""),
        _ => panic!("a report was expected"),
    }
    let (_, work) = step(evaluation, Event::Summed(readings(&[]), None));
    match work {
        Work::Finish(record) => assert_eq!(
            to_text(&record),
            "{\"reference_seconds\":0.25,\"profile\":{\"error\":\"NCU failed: \"},\"task_sha256\":\"task\",\"validation\":\"gpu\"}"
        ),
        _ => panic!("a record was expected"),
    }
}
