use cubineer::analysis::analyze;
use cubineer::analyzers::invoke::invoke;
use cubineer::analyzers::metric::title;
use cubineer::analyzers::numeric::is_complete;
use cubineer::analyzers::output::{Output, Outputs};
use cubineer::analyzers::sass::{Share, Shares};
use cubineer::analyzers::tool::{prioritized, selected, Tool};
use cubineer::fields::Fields;
use cubineer::json::Json;
use cubineer::models::normalize::{clean, normalize, numeric};
use cubineer::models::roles::{schemas, validate};
use cubineer::models::strict::strict_schema;
use cubineer::number::{Number, Reading, Readings, Real};
use cubineer::profilers::ncu::{is_missing, metric_text, ncu_csv};
use cubineer::profilers::rules::rules;
use cubineer::profilers::sass::sass;
use cubineer::profilers::{ncu, rules as report};
use cubineer::written::{display, to_text};

fn ranked(value: f64) -> Real {
    Real::from_bits(value.to_bits())
}

fn reading(value: f64) -> Reading {
    let whole = value.fract() == 0.0 && value >= -(2f64.powi(63)) && value < 2f64.powi(64);
    Reading {
        value: ranked(value),
        text: serde_json::to_string(&value).unwrap(),
        tenths: format!("{value:.1}"),
        units: format!("{value:.0}"),
        whole: if whole { Some(value as i128) } else { None },
        fractional: value.fract() != 0.0,
    }
}

fn convert(value: &serde_json::Value) -> Json {
    match value {
        serde_json::Value::Null => Json::Null,
        serde_json::Value::Bool(value) => Json::Bool(*value),
        serde_json::Value::Number(number) => {
            let shown = reading(number.as_f64().unwrap());
            if let Some(value) = number.as_u64() {
                Json::Number(Number::Integer(value as i128, Some(shown)))
            } else if let Some(value) = number.as_i64() {
                Json::Number(Number::Integer(value as i128, Some(shown)))
            } else {
                Json::Number(Number::Decimal(shown))
            }
        }
        serde_json::Value::String(value) => Json::Text(value.clone()),
        serde_json::Value::Array(items) => Json::Array(items.iter().map(convert).collect()),
        serde_json::Value::Object(fields) => Json::Object(
            fields.iter().map(|(key, value)| (key.clone(), convert(value))).collect(),
        ),
    }
}

fn json(text: &str) -> Json {
    convert(&serde_json::from_str(text).unwrap())
}

fn readings(texts: &[&str]) -> Readings {
    Readings {
        entries: texts
            .iter()
            .map(|text| {
                let value: f64 = text.parse().unwrap();
                (text.to_string(), if value.is_finite() { Some(reading(value)) } else { None })
            })
            .collect(),
    }
}

fn names(list: &[&str]) -> Vec<String> {
    list.iter().map(|name| name.to_string()).collect()
}

fn base(advice: &[&str]) -> Output {
    Output {
        severity: "low".to_string(),
        title: "Title".to_string(),
        summary: String::new(),
        metrics_observed: Fields::new(),
        metrics_thresholds: Fields::new(),
        root_cause: String::new(),
        recommendations: names(advice),
        expected_improvement: String::new(),
        code_example: None,
        references: Vec::new(),
    }
}

fn outputs() -> Outputs {
    let keys = [
        "occupancy_limiter:registers",
        "occupancy_limiter:shared_memory",
        "warp_stall_analyzer:barrier",
        "wgmma_instruction_detector:wgmma",
        "wgmma_instruction_detector:cublas",
        "wgmma_instruction_detector:none",
        "register_spill_detector",
        "barrier_stall_detector",
        "high_dram_throughput",
    ];
    Outputs {
        entries: keys.iter().map(|key| (key.to_string(), base(&["one", "two"]))).collect(),
    }
}

fn tool(name: &str, priority: u64, required: &[&str]) -> Tool {
    Tool {
        name: name.to_string(),
        description: format!("about {name}"),
        priority,
        required: names(required),
    }
}

fn registry() -> Vec<Tool> {
    vec![
        tool("high_dram_throughput", 1, &[]),
        tool("wgmma_instruction_detector", 5, &[]),
        tool("register_spill_detector", 5, &[]),
        tool("barrier_stall_detector", 3, &["smsp__warp_issue_stalled_barrier_per_warp_active.pct"]),
        tool("occupancy_limiter", 2, &[]),
    ]
}

fn shares() -> Shares {
    Shares { entries: Vec::new() }
}

fn invoked(name: &str, metrics: &str, listing: &str) -> String {
    assert!(is_complete(&outputs()));
    let payload = json(&format!(
        "{{\"name\": \"{name}\", \"report\": {{\"metrics\": {{\"kernel\": {metrics}}}, \"sass\": {listing}}}}}"
    ));
    let made = invoke(&payload, &registry(), &outputs(), &readings(&["12.5"]), &shares()).unwrap();
    made.at("text").text_or_empty().to_string()
}

#[test]
fn empty_sass_report_is_absent_evidence() {
    for name in ["wgmma_instruction_detector", "register_spill_detector"] {
        assert_eq!(invoked(name, "{}", "{}"), invoked(name, "{}", "null"));
        assert_eq!(
            invoked(name, "{}", "{}"),
            format!("[{name}] Kernel `kernel`: analyzed but no issue detected")
        );
    }
}

#[test]
fn tools_are_ordered_and_chosen() {
    let order: Vec<String> = prioritized(&registry()).into_iter().map(|tool| tool.name).collect();
    assert_eq!(
        order,
        names(&[
            "wgmma_instruction_detector",
            "register_spill_detector",
            "barrier_stall_detector",
            "occupancy_limiter",
            "high_dram_throughput"
        ])
    );
    let chosen: Vec<String> = selected(&registry(), "compute_bound")
        .unwrap()
        .unwrap()
        .into_iter()
        .map(|tool| tool.name)
        .collect();
    assert!(!chosen.contains(&"high_dram_throughput".to_string()));
    assert!(chosen.contains(&"wgmma_instruction_detector".to_string()));
    assert!(selected(&registry(), "mixed").unwrap().is_none());
    assert!(selected(&registry(), "").unwrap().is_none());
    assert_eq!(
        selected(&registry(), "odd").err(),
        Some("unknown bottleneck: odd".to_string())
    );
}

#[test]
fn titles_begin_with_capitals() {
    assert_eq!(title("shared_memory"), "Shared Memory");
    assert_eq!(title("\u{df}_a"), "SS A");
    assert_eq!(title("a__b"), "A  B");
}

#[test]
fn tools_say_what_they_found() {
    assert_eq!(
        invoked("barrier_stall_detector", "{}", "null"),
        "[barrier_stall_detector] Kernel `kernel`: not triggered (thresholds not met)"
    );
    let metrics = "{\"smsp__warp_issue_stalled_barrier_per_warp_active.pct\": 45.25}";
    let text = invoked("barrier_stall_detector", metrics, "null");
    assert!(text.starts_with("\n### [LOW] Title"));
    assert!(text.contains("**Kernel `kernel`**: 45.2% of warps stalled at __syncthreads()"));
    assert!(text.contains("- `Barrier stalls`: 45.2%"));
    assert!(text.contains("1. one\n2. two"));
    let occupied = "{\"sm__warps_active.avg.pct_of_peak_sustained_active\": \"12.5%\", \"launch__occupancy_limit_registers\": 3, \"launch__registers_per_thread\": 128}";
    let text = invoked("occupancy_limiter", occupied, "null");
    assert!(text.contains("### [HIGH] Low Occupancy (Limited by Registers)"));
    assert!(text.contains("Warp occupancy at 12.5% - limited by registers"));
    assert!(text.contains("1. Current register usage: 128 per thread (target: <64)"));
    let wgmma = invoked("wgmma_instruction_detector", "{}", "{\"wgmma_count\": 4, \"tma_count\": 1}");
    assert!(wgmma.contains("Kernel uses 4 WGMMA (Hopper tensor core) instructions"));
    assert!(wgmma.contains("2. TMA is being used for efficient memory access"));
    let linked =
        "{\"uses_cublas\": true, \"cublas_symbols\": [\"a\", \"b\", \"c\"]}";
    assert!(invoked("wgmma_instruction_detector", "{}", linked)
        .contains("Kernel links cuBLAS (a, b). cuBLAS auto-uses tensor cores on modern GPUs."));
    let spilled = "{\"smsp__warp_issue_stalled_long_scoreboard_per_warp_active.pct\": 20}";
    assert!(invoked("register_spill_detector", spilled, "{\"stl_count\": 2, \"ldl_count\": 1}")
        .contains("2 STL + 1 LDL spill instructions detected"));
}

#[test]
fn unknown_tools_are_refused() {
    let refused = invoke(
        &json("{\"name\": \"other\"}"),
        &registry(),
        &outputs(),
        &readings(&[]),
        &shares(),
    );
    assert_eq!(refused.err(), Some("unsupported or deferred analyzer".to_string()));
    let refused = invoke(
        &json("{\"name\": \"high_dram_throughput\"}"),
        &registry(),
        &outputs(),
        &readings(&[]),
        &shares(),
    );
    assert_eq!(refused.err(), Some("report metrics".to_string()));
    let share = Share { ratio: ranked(0.5), percent: "50.0%".to_string() };
    assert_eq!(Shares { entries: vec![("k".to_string(), share)] }.share("k").percent, "50.0%");
}

#[test]
fn analyses_list_metrics_and_tools() {
    let mut groups: Vec<(String, Json)> = Vec::new();
    for index in 0..6 {
        let name = cubineer::analysis::group_name(index);
        groups.push((name.to_string(), json(&format!("[\"metric_{index}\"]"))));
    }
    let assets = Json::Object(vec![("metrics".to_string(), Json::Object(groups))]);
    let payload = |mode: &str| {
        json(&format!(
            "{{\"report\": {{\"kernel_names\": [\"k\"], \"metrics\": {{\"k\": {{\"metric_1\": true}}}}, \"sass\": null}}, \"bottleneck\": null, \"tool_mode\": \"{mode}\"}}"
        ))
    };
    let run = |payload: &Json| {
        analyze(
            payload,
            &registry(),
            &outputs(),
            &assets,
            &json("{\"rules_header\": \"Rules\"}"),
            &readings(&[]),
            &shares(),
        )
    };
    assert_eq!(run(&payload("odd")).err(), Some("unknown profiling mode".to_string()));
    let made = run(&payload("reactive")).unwrap();
    let text = made.at("text").text_or_empty().to_string();
    assert!(text.starts_with("# GPU Profiling Metrics\n\n## Kernel: k\n\n### Compute Metrics:"));
    assert!(text.contains("- `metric_1`: True"));
    assert!(text.contains("Stage 1 bottleneck classification: **None**"));
    assert!(text.contains("- **wgmma_instruction_detector**: about wgmma_instruction_detector"));
    assert_eq!(to_text(made.at("selected_tools")), "[]");
    assert_eq!(made.at("tools").items().unwrap().len(), 5);
    let ruled = json(
        "{\"report\": {\"kernel_names\": [\"k\"], \"metrics\": {\"k\": {\"dram__throughput.avg.pct_of_peak_sustained_elapsed\": 96.0}}, \"sass\": {\"ffma_count\": 3}, \"rule_recommendations\": [{\"est_speedup_pct\": 10, \"text\": \"fuse\"}]}, \"bottleneck\": \"memory_bound\"}",
    );
    let made = run(&ruled).unwrap();
    let text = made.at("text").text_or_empty().to_string();
    assert!(text.starts_with("Rules\n1. [est. 10% speedup] fuse\n\n# GPU Profiling Metrics"));
    assert!(text.contains("- FP32 FMA (FFMA): 3"));
    assert!(text.contains("## Automated Bottleneck Analysis"));
    assert!(text.contains("Memory-Bound Kernel (Saturated)"));
    assert_eq!(
        to_text(made.at("selected_tools")),
        "[\"high_dram_throughput\",\"register_spill_detector\",\"barrier_stall_detector\",\"occupancy_limiter\"]"
    );
    assert_eq!(
        run(&json("{\"report\": {}}")).err(),
        Some("kernel names".to_string())
    );
}

#[test]
fn tables_are_read() {
    let csv = "Kernel Name,gpu__time_duration.sum,note\n,ns,\nslow,\"2,000\",a\nfast,10.5,50%\nslow,3000,b\n==PROF== done\n";
    let table = ncu_csv(csv, &Vec::new(), &readings(&["10.5"])).unwrap();
    assert_eq!(
        to_text(&table),
        "{\"slow\":{\"gpu__time_duration.sum\":3000,\"note\":\"b\"},\"fast\":{\"gpu__time_duration.sum\":10.5,\"note\":50}}"
    );
    let named = ncu_csv(csv, &names(&["fas"]), &readings(&["10.5"])).unwrap();
    assert_eq!(to_text(&named), "{\"fas\":{\"gpu__time_duration.sum\":10.5,\"note\":50}}");
    assert_eq!(to_text(&ncu_csv("a,b\n\n1,2\n", &Vec::new(), &readings(&[])).unwrap()), "{}");
    let missing = "Kernel Name,x\n,\nk,NaN\n";
    assert_eq!(
        ncu_csv(missing, &Vec::new(), &readings(&[])).err(),
        Some("nonfinite NCU metric x".to_string())
    );
    assert!(is_missing("#N/A N/A") && is_missing("") && !is_missing("0"));
    assert_eq!(metric_text(" 1,234.5% "), "1234.5");
    let cells = ["slow", "2000", "a", "fast", "10.5", "50", "slow", "3000", "b"];
    assert_eq!(ncu::numbers_in(csv), names(&cells));
    assert!(ncu::numbers_in("a,b\n1,2\n").is_empty());
}

#[test]
fn listings_are_counted() {
    let assets = json("{\"sass_patterns\": {\"ffma\": \"\\\\bFFMA\\\\b\"}}");
    let source = ".text.a FFMA ffma .text.b FFMA";
    let whole = sass(&assets, source, None).unwrap();
    assert!(whole.at("ffma_count").is_integer(3));
    assert!(whole.at("kernel_name").is_text(""));
    let part = sass(&assets, source, Some("a")).unwrap();
    assert!(part.at("ffma_count").is_integer(2));
    assert!(part.at("kernel_name").is_text("a"));
    assert!(part.at("sass_text").is_text(source));
    assert_eq!(sass(&Json::Null, source, None).err(), Some("SASS patterns".to_string()));
    assert_eq!(
        sass(&json("{\"sass_patterns\": {\"x\": 1}}"), source, None).err(),
        Some("SASS pattern".to_string())
    );
}

#[test]
fn recommendations_are_ordered_by_speedup() {
    let source = "Est. Speedup: 5%\nFirst\nOPT Est. Speedup: 20.5%\nSecond\n  line\n----\nEst. Speedup: 7%\n\n";
    assert_eq!(report::numbers_in(source), names(&["5", "20.5", "7"]));
    assert_eq!(
        to_text(&rules(source, &readings(&["5", "20.5", "7"])).unwrap()),
        "[{\"est_speedup_pct\":20.5,\"text\":\"Second line\"},{\"est_speedup_pct\":5.0,\"text\":\"First\"}]"
    );
}

#[test]
fn values_are_normalized() {
    let none = readings(&["3", "2.5", "10"]);
    let check = |value: &str, schema: &str| {
        let root = json(schema);
        normalize(&json(value), &root, &root, &none, 64)
            .map(|value| to_text(&value))
            .map_err(|refusal| refusal.message())
    };
    assert_eq!(check("\"yes\"", "{\"type\": \"boolean\"}"), Ok("true".to_string()));
    assert_eq!(check("0", "{\"type\": \"boolean\"}"), Ok("false".to_string()));
    assert_eq!(check("2", "{\"type\": \"boolean\"}"), Err("expected boolean".to_string()));
    assert_eq!(check("\"3\"", "{\"type\": \"integer\"}"), Ok("3".to_string()));
    assert_eq!(check("2.5", "{\"type\": \"integer\"}"), Err("expected integer".to_string()));
    assert_eq!(
        check("\"1e3\"", "{\"type\": \"integer\"}"),
        Err("expected integer string".to_string())
    );
    assert_eq!(check("1", "{\"type\": \"number\"}"), Ok("1.0".to_string()));
    assert_eq!(
        check("\"1_\"", "{\"type\": \"number\"}"),
        Err("invalid numeric separator".to_string())
    );
    assert_eq!(
        check("5", "{\"type\": \"number\", \"maximum\": 4}"),
        Err("number above maximum".to_string())
    );
    assert_eq!(
        check("1", "{\"type\": \"number\", \"minimum\": 4}"),
        Err("number below minimum".to_string())
    );
    assert_eq!(
        check("\"a\"", "{\"type\": \"string\", \"enum\": [\"b\"]}"),
        Err("unknown enum value".to_string())
    );
    assert_eq!(check("1", "{\"type\": \"null\"}"), Err("expected null".to_string()));
    assert_eq!(
        check("1", "{\"type\": \"date\"}"),
        Err("unsupported schema type date".to_string())
    );
    let object = "{\"type\": \"object\", \"additionalProperties\": false, \"properties\": {\"a\": {\"anyOf\": [{\"type\": \"integer\"}, {\"type\": \"null\"}]}, \"b\": {\"type\": \"string\", \"default\": \"x\"}}}";
    assert_eq!(check("{\"a\": null}", object), Ok("{\"a\":null,\"b\":\"x\"}".to_string()));
    assert_eq!(check("{}", object), Err("missing field a".to_string()));
    assert_eq!(check("{\"c\": 1}", object), Err("unexpected field".to_string()));
    assert_eq!(check("{\"a\": \"z\"}", object), Err("a".to_string()));
    let shared = "{\"$ref\": \"#/$defs/t\", \"$defs\": {\"t\": {\"type\": \"array\", \"items\": {\"type\": \"string\"}}}}";
    assert_eq!(check("[\"a\"]", shared), Ok("[\"a\"]".to_string()));
    assert_eq!(clean(" 1_0 "), "10");
    assert_eq!(numeric(&json("\"1_0\""), &none).unwrap().text, "10.0");
}

#[test]
fn schemas_are_made_strict() {
    let strict = |schema: &str| {
        let root = json(schema);
        strict_schema(&root, &root, 64)
            .map(|value| to_text(&value))
            .map_err(|refusal| refusal.message())
    };
    assert_eq!(
        strict("{}"),
        Ok("{\"additionalProperties\":false,\"type\":\"object\",\"properties\":{},\"required\":[]}"
            .to_string())
    );
    assert_eq!(
        strict("{\"type\": \"object\", \"properties\": {\"a\": {\"type\": \"string\", \"default\": \"x\"}}}"),
        Ok("{\"type\":\"object\",\"properties\":{\"a\":{\"type\":\"string\"}},\"additionalProperties\":false,\"required\":[\"a\"]}"
            .to_string())
    );
    assert_eq!(
        strict("{\"type\": \"object\", \"additionalProperties\": true}"),
        Err("additionalProperties must be false for object schemas".to_string())
    );
    assert_eq!(strict("[]"), Err("schema must be an object".to_string()));
    assert_eq!(
        strict("{\"$ref\": \"http:x\", \"description\": \"d\"}"),
        Err("unsupported schema reference".to_string())
    );
    assert_eq!(
        strict("{\"$defs\": {\"t\": {\"type\": \"object\", \"properties\": {\"k\": {\"type\": \"integer\", \"default\": 1}}}}, \"$ref\": \"#/$defs/t\", \"description\": \"d\"}"),
        Ok("{\"type\":\"object\",\"properties\":{\"k\":{\"type\":\"integer\"}},\"$defs\":{\"t\":{\"type\":\"object\",\"properties\":{\"k\":{\"type\":\"integer\"}},\"additionalProperties\":false,\"required\":[\"k\"]}},\"description\":\"d\",\"additionalProperties\":false,\"required\":[\"k\"]}"
            .to_string())
    );
    assert_eq!(
        strict("{\"oneOf\": [{\"type\": \"null\", \"default\": 2}], \"anyOf\": [{\"type\": \"string\"}]}"),
        Ok("{\"anyOf\":[{\"type\":\"string\"},{\"type\":\"null\"}]}".to_string())
    );
    assert_eq!(
        strict("{\"type\": \"object\", \"allOf\": [{\"additionalProperties\": true}]}"),
        Ok("{\"type\":\"object\",\"additionalProperties\":true}".to_string())
    );
    let models = json("{\"role\": {\"validation\": {\"type\": \"string\"}}}");
    let list = match &models {
        Json::Object(list) => list,
        _ => unreachable!(),
    };
    assert_eq!(to_text(&schemas(list, 64).unwrap()), "{\"role\":{\"type\":\"string\"}}");
    let none = readings(&[]);
    assert_eq!(
        to_text(&validate(&models, "role", &json("\"a\""), &none, 64).unwrap()),
        "\"a\""
    );
    assert_eq!(
        validate(&models, "other", &json("1"), &none, 64).err(),
        Some("unknown model role".to_string())
    );
}

#[test]
fn values_are_displayed() {
    assert_eq!(display(&json("\"a\"")), "a");
    assert_eq!(display(&json("null")), "None");
    assert_eq!(display(&json("true")), "True");
    assert_eq!(display(&json("[1, \"b\"]")), "[1,\"b\"]");
}

#[test]
fn empty_listings_count_as_absent() {
    for name in ["wgmma_instruction_detector", "register_spill_detector", "high_dram_throughput"] {
        let said = invoked(name, "{}", "{}");
        assert_eq!(said, invoked(name, "{}", "null"));
        assert!(said.starts_with(&format!("[{name}] Kernel `kernel`: ")));
    }
}

#[test]
fn schemas_are_strict_at_every_level() {
    let root = json(
        "{\"type\": \"object\", \"properties\": {\"a\": {\"type\": \"array\", \"items\": {\"oneOf\": [{\"type\": \"object\", \"default\": {}, \"properties\": {\"b\": {\"type\": \"null\", \"default\": null}}}]}}}}",
    );
    let made = strict_schema(&root, &root, 64).ok().unwrap();
    let inner = made.at("properties").at("a").at("items");
    assert!(inner.get("oneOf").is_none());
    let choice = inner.at("anyOf").item(0);
    assert!(choice.get("default").is_none());
    assert_eq!(to_text(choice.at("additionalProperties")), "false");
    assert_eq!(to_text(choice.at("required")), "[\"b\"]");
    assert_eq!(to_text(choice.at("properties")), "{\"b\":{\"type\":\"null\"}}");
}
