use cubineer::feedback::feedback;
use cubineer::json::Json;
use cubineer::number::{Number, Reading, Real};
use cubineer::prompts::{asset, baseline, candidate, populate, reference, round, Hardware};
use cubineer::scripts::{filename, script};
use cubineer::template::{Part, Template, Templates};

fn ranked(value: f64) -> Real {
    Real::from_bits(value.to_bits())
}

fn reading(value: f64) -> Reading {
    let whole = value.fract() == 0.0 && value >= -(2f64.powi(63)) && value < 2f64.powi(64);
    Reading {
        value: ranked(value),
        text: serde_json::to_string(&value).unwrap(),
        tenths: format!("{value:.1}"),
        units: format!("{value:.0}"),
        whole: if whole { Some(value as i128) } else { None },
        fractional: value.fract() != 0.0,
    }
}

fn convert(value: &serde_json::Value) -> Json {
    match value {
        serde_json::Value::Null => Json::Null,
        serde_json::Value::Bool(value) => Json::Bool(*value),
        serde_json::Value::Number(number) => {
            let shown = reading(number.as_f64().unwrap());
            if let Some(value) = number.as_u64() {
                Json::Number(Number::Integer(value as i128, Some(shown)))
            } else if let Some(value) = number.as_i64() {
                Json::Number(Number::Integer(value as i128, Some(shown)))
            } else {
                Json::Number(Number::Decimal(shown))
            }
        }
        serde_json::Value::String(value) => Json::Text(value.clone()),
        serde_json::Value::Array(items) => Json::Array(items.iter().map(convert).collect()),
        serde_json::Value::Object(fields) => Json::Object(
            fields.iter().map(|(key, value)| (key.clone(), convert(value))).collect(),
        ),
    }
}

fn json(text: &str) -> Json {
    convert(&serde_json::from_str(text).unwrap())
}

/// Reads a template whose places are written `{{name}}`.
fn template(text: &str) -> Template {
    let mut made = Template { placeholders: Vec::new(), parts: Vec::new() };
    let mut rest = text;
    while let Some(start) = rest.find("{{") {
        let end = start + rest[start..].find("}}").unwrap();
        made.parts.push(Part::Text(rest[..start].to_string()));
        let name = rest[start + 2..end].to_string();
        if !made.placeholders.contains(&name) {
            made.placeholders.push(name.clone());
        }
        made.parts.push(Part::Value(name));
        rest = &rest[end + 2..];
    }
    made.parts.push(Part::Text(rest.to_string()));
    made
}

fn templates(list: &[(&str, &str)]) -> Templates {
    Templates {
        entries: list.iter().map(|(name, text)| (name.to_string(), Ok(template(text)))).collect(),
    }
}

const REFERENCE: &str = "{{gpu_name}}: {{ridge}} ({{compute}}, {{memory}})";

fn assets() -> Json {
    let names = [
        "mode_instructions/initial.txt",
        "mode_instructions/repair.txt",
        "mode_instructions/optimize.txt",
        "mode_instructions/initial_requirements.txt",
        "dataset_formats/kernelbench_pytorch.txt",
        "dataset_formats/kernelbench_triton.txt",
        "base/optimization_strategies.txt",
        "base/common_pitfalls.txt",
        "base/pytorch_integration.txt",
        "base/output_format.txt",
        "hopper",
        "profile",
    ];
    let mut list: Vec<(String, Json)> =
        names.iter().map(|name| (name.to_string(), Json::Text(format!("<{name}>")))).collect();
    list.push((
        "base/cutlass_setup.txt".to_string(),
        Json::Text("{{CUTLASS_ROOT}} {{GPU_SPECIFIC_CUTLASS_INFO}}".to_string()),
    ));
    list.push(("reference".to_string(), Json::Text(REFERENCE.to_string())));
    Json::Object(list)
}

fn told(name: &str, ridge: f64) -> String {
    format!("{name}: {ridge:.0} ({:.0}, {:.0})", ridge * 4.0, ridge / 4.0)
}

#[test]
fn gpu_prompts_use_target_hardware() {
    let payload = json("{\"backend\": \"gpu\"}");
    for (name, capability, ridge) in [
        ("NVIDIA H100 80GB HBM3", [9, 0], 1979.0 / 3.35),
        ("NVIDIA H200", [9, 0], 1979.0 / 4.8),
        ("NVIDIA B200", [10, 0], 4500.0 / 8.0),
    ] {
        let problem = populate(
            json("{\"task_id\": \"example_triton\"}"),
            &payload,
            &json(&format!("{{\"name\": \"{name}\", \"capability\": {capability:?}}}")),
            &assets(),
            &Ok(template(REFERENCE)),
            Json::Null,
        )
        .unwrap();
        let hardware = Hardware::of(payload.at("backend"), &Json::Text(name.to_string()));
        assert_eq!(
            problem.at("reference_instructions").text(),
            Some(reference(&assets(), &Ok(template(REFERENCE)), hardware).unwrap().as_str())
        );
        assert!(problem.at("reference_instructions").is_text(&told(name, ridge)));
        assert_eq!(
            problem.at("instructions").at("initial").text(),
            Some(
                candidate(&assets(), "initial", "triton", None, &capability.to_vec())
                    .unwrap()
                    .as_str()
            )
        );
    }
}

#[test]
fn simulated_prompts_do_not_require_a_gpu() {
    let problem = populate(
        json("{\"task_id\": \"example\"}"),
        &json("{\"backend\": \"simulated\"}"),
        &Json::Null,
        &assets(),
        &Ok(template(REFERENCE)),
        Json::Null,
    )
    .unwrap();
    assert!(problem
        .at("reference_instructions")
        .is_text("NVIDIA H200 (simulated): 412 (1648, 103)"));
    assert_eq!(Hardware::of(&json("\"simulated\""), &Json::Null).name(), "NVIDIA H200 (simulated)");
}

#[test]
fn candidates_are_told_by_mode() {
    let told = candidate(&assets(), "optimize", "pytorch", Some("/cutlass"), &vec![9, 0]).unwrap();
    assert_eq!(
        told,
        "<mode_instructions/optimize.txt>\n\n<base/optimization_strategies.txt>\n\n/cutlass <hopper>\n\n<base/pytorch_integration.txt>\n\nReturn exactly one JSON CodeCompletion object with code, approach, and confidence. No completions wrapper or markdown fences."
    );
    let plain = candidate(&assets(), "repair", "pytorch", Some(""), &Vec::new()).unwrap();
    assert!(plain.contains("/path/to/cutlass \n\n<base/common_pitfalls.txt>"));
    assert_eq!(
        candidate(&assets(), "other", "pytorch", None, &Vec::new()),
        Err("invalid candidate mode".to_string())
    );
    assert_eq!(
        candidate(&assets(), "initial", "jax", None, &Vec::new()),
        Err("invalid baseline".to_string())
    );
    assert_eq!(
        candidate(&Json::Null, "repair", "pytorch", None, &Vec::new()),
        Err("missing prompt mode_instructions/repair.txt".to_string())
    );
    assert_eq!(asset(&assets(), "hopper"), Ok("<hopper>"));
    assert_eq!((baseline("x_triton_y"), baseline("x")), ("triton", "pytorch"));
}

const FRESH: &str = "\n**Previous Solution Context:**\nThe following solution was generated but needs a fresh approach:\n\n```python\n{{previous_code}}\n```\n\n**Task:** Generate a new solution with a different optimization strategy.\n";

#[test]
fn successful_parent_without_profile_uses_fresh_approach_feedback() {
    let payload = json(
        "{\"parent\": {\"submission\": {\"code\": \"candidate\"}, \"outcome\": {\"status\": \"success\"}, \"analysis\": null}, \"mode\": \"initial\", \"hint\": null}",
    );
    let result = feedback(&payload, &templates(&[("fresh", FRESH)]), &Json::Null).unwrap();
    assert!(result.at("text").is_text(
        "\n**Previous Solution Context:**\nThe following solution was generated but needs a fresh approach:\n\n```python\ncandidate\n```\n\n**Task:** Generate a new solution with a different optimization strategy.\n"
    ));
}

#[test]
fn feedback_depends_on_the_parent() {
    let told = |payload: &str, list: &[(&str, &str)]| {
        feedback(&json(payload), &templates(list), &Json::Null)
            .map(|value| value.at("text").text_or_empty().to_string())
    };
    assert_eq!(told("{\"parent\": null, \"mode\": \"initial\"}", &[]), Ok(String::new()));
    assert_eq!(
        told("{\"parent\": null, \"hint\": \"tile\"}", &[("hint", "Hint: {{hint}}")]),
        Ok("\n\nHint: tile".to_string())
    );
    assert_eq!(
        told("{\"parent\": {\"submission\": {\"code\": \"c\"}}, \"mode\": \"optimize\"}", &[]),
        Ok("c".to_string())
    );
    assert_eq!(
        told("{\"parent\": null, \"hint\": \"tile\"}", &[]),
        Err("feedback template".to_string())
    );
    assert_eq!(
        told("{\"parent\": null, \"hint\": \"tile\"}", &[("hint", "{{other}}")]),
        Err("missing template value other".to_string())
    );
}

#[test]
fn scripts_are_filled_in() {
    assert_eq!(filename("benchmark"), Ok("benchmark_solution.py"));
    assert_eq!(filename("other"), Err("unknown workload template".to_string()));
    let payload = json(
        "{\"output_dir\": \"/o\", \"source\": \"/o/solution.py\", \"problem\": {\"input_generator\": \"a\\n\\\"\\\"\\\"doc\\\"\\\"\\\"\\n'''x'''\", \"canonical_solution\": \"ref\", \"file_path\": \"/t.py\"}}",
    );
    let list = templates(&[(
        "candidate",
        "{{seed}} {{solution_name}} {{num_iterations}} {{output_name}} {{clean_input_gen}} {{reference}}",
    )]);
    assert_eq!(
        script("candidate", &payload, "solution.py", &list),
        Ok("42 solution.py 1 profile_solution.py a\n# [docstring removed]\n# [docstring removed] ref"
            .to_string())
    );
    assert_eq!(
        script("reference", &payload, "solution.py", &list),
        Err("workload template".to_string())
    );
    assert_eq!(
        script("candidate", &payload, "solution.py", &templates(&[("candidate", "{{odd}}")])),
        Err("missing script field odd".to_string())
    );
}

const ERRORS: [(&str, &str); 6] = [
    ("error_header", "{{error_type}}/{{stage}}\n"),
    ("error_summary", "S:{{error_summary}}:{{error_abbrev}}\n"),
    ("error_message", "M:{{error_msg}}\n"),
    ("error_cute", "C:{{cute_summary}}:{{traceback_tail}}\n"),
    ("error_traceback", "T:{{traceback_head}}\n"),
    ("error_tail", "{{guidance}} {{previous_code}}"),
];

fn failed(error: &str) -> Result<String, String> {
    let payload = format!(
        "{{\"parent\": {{\"submission\": {{\"code\": \"c\"}}, \"outcome\": {{\"status\": \"failed\", \"error_context\": {error}}}}}, \"mode\": \"repair\"}}"
    );
    let assets = json("{\"guidance\": [\"g0\", \"g1\", \"g2\", \"g3\", \"g4\", \"g5\", \"g6\"]}");
    feedback(&json(&payload), &templates(&ERRORS), &assets)
        .map(|value| value.at("text").text_or_empty().to_string())
}

#[test]
fn failures_are_explained() {
    assert_eq!(failed("null"), Ok("Unknown/unknown\nM:No details\ng6 c".to_string()));
    assert_eq!(
        failed("{\"error_type\": \"correctness_error\", \"error_message\": \"CUDA off\"}"),
        Ok("correctness_error/unknown\nM:CUDA off\ng0 c".to_string())
    );
    for (message, guidance) in [
        ("CUDA error: Misaligned address", "g1"),
        ("CUDA error: launch failed", "g2"),
        ("cuda", "g3"),
    ] {
        assert_eq!(
            failed(&format!("{{\"error_message\": \"{message}\"}}")),
            Ok(format!("Unknown/unknown\nM:{message}\n{guidance} c"))
        );
    }
    for (kind, guidance) in [("SyntaxError", "g4"), ("ImportError", "g5")] {
        assert_eq!(
            failed(&format!("{{\"error_type\": \"{kind}\"}}")),
            Ok(format!("{kind}/unknown\nM:No details\n{guidance} c"))
        );
    }
    assert_eq!(
        failed("{\"error_summary\": \"short\", \"error_message\": true, \"stage\": null}"),
        Ok("Unknown/None\nS:short:True\ng6 c".to_string())
    );
    assert_eq!(
        failed("{\"traceback\": \"line\"}"),
        Ok("Unknown/unknown\nM:No details\nT:line\ng6 c".to_string())
    );
}

#[test]
fn compiler_errors_are_summed_up() {
    let trace = "x error: one\\nstatic assertion failed with \\\"b\\\"\\nstatic assertion failed with \\\"a\\\"\\nstatic assertion failed with \\\"b\\\"\\nerror: two";
    assert_eq!(
        failed(&format!("{{\"traceback\": \"{trace}\"}}")),
        Ok(format!(
            "Unknown/unknown\nM:No details\nC:**Root cause (static_assert):**\n- a\n- b\n**Compiler errors:**\n```\nerror: one\nerror: two\n```\n:{}\ng6 c",
            trace.replace("\\n", "\n").replace("\\\"", "\"")
        ))
    );
}

#[test]
fn profiles_are_explained() {
    let list = [
        ("profile_header", "{{bottleneck}} {{severity}} {{priority}} {{improvement}}|{{rule_block}}|"),
        ("rules", "R:{{ranked}}"),
        ("profile_details", "D:{{detailed}}|"),
        ("profile_tail", "{{recs_text}} {{previous_code}}"),
    ];
    let told = |analysis: &str| {
        let payload = format!(
            "{{\"parent\": {{\"submission\": {{\"code\": \"c\"}}, \"outcome\": {{\"status\": \"success\"}}, \"analysis\": {analysis}}}, \"mode\": \"optimize\"}}"
        );
        feedback(&json(&payload), &templates(&list), &Json::Null)
            .unwrap()
            .at("text")
            .text_or_empty()
            .to_string()
    };
    assert_eq!(
        told("{\"bottleneck_type\": \"memory\", \"priority_score\": 7.25, \"estimated_improvement\": 3}"),
        "memory Unknown 7.2 3.0||No specific recommendations available. c"
    );
    assert_eq!(
        told("{\"severity\": \"high\", \"optimization_recommendations\": [\"tile\", 5], \"rule_recommendations\": [{\"est_speedup_pct\": 12.5, \"text\": \"fuse\"}, {}], \"detailed_analysis\": \"long\"}"),
        "Unknown high 0.0 0.0|R:1. [est. 12% speedup] fuse\n2. [est. 0% speedup] |D:long|1. tile\n2.  c"
    );
}

#[test]
fn quotients_are_rounded_to_even() {
    assert_eq!((round(1125, 2), round(1127, 2), round(7, 2)), (562, 564, 4));
    assert_eq!((round(10, 3), round(11, 3), round(0, 5)), (3, 4, 0));
}
