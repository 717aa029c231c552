use cubineer::json::Json;
use cubineer::memory::store::{
    begin_search_extraction, check_snapshot, check_version, commit_search_snapshot, job_key,
};
use cubineer::memory::{
    evidence_ids, extraction_input, facts, finding, schema, Category, Entry, Finding, Snapshot,
};
use cubineer::number::{Number, Reading, Real};
use cubineer::written::to_text;

fn ranked(value: f64) -> Real {
    Real::from_bits(value.to_bits())
}

fn reading(value: f64) -> Reading {
    let whole = value.fract() == 0.0 && value >= -(2f64.powi(63)) && value < 2f64.powi(64);
    Reading {
        value: ranked(value),
        text: serde_json::to_string(&value).unwrap(),
        tenths: format!("{value:.1}"),
        units: format!("{value:.0}"),
        whole: if whole { Some(value as i128) } else { None },
        fractional: value.fract() != 0.0,
    }
}

fn convert(value: &serde_json::Value) -> Json {
    match value {
        serde_json::Value::Null => Json::Null,
        serde_json::Value::Bool(value) => Json::Bool(*value),
        serde_json::Value::Number(number) => {
            let shown = reading(number.as_f64().unwrap());
            if let Some(value) = number.as_u64() {
                Json::Number(Number::Integer(value as i128, Some(shown)))
            } else if let Some(value) = number.as_i64() {
                Json::Number(Number::Integer(value as i128, Some(shown)))
            } else {
                Json::Number(Number::Decimal(shown))
            }
        }
        serde_json::Value::String(value) => Json::Text(value.clone()),
        serde_json::Value::Array(items) => Json::Array(items.iter().map(convert).collect()),
        serde_json::Value::Object(fields) => Json::Object(
            fields.iter().map(|(key, value)| (key.clone(), convert(value))).collect(),
        ),
    }
}

fn json(text: &str) -> Json {
    convert(&serde_json::from_str(text).unwrap())
}

fn known(names: &[&str]) -> Vec<String> {
    names.iter().map(|name| name.to_string()).collect()
}

#[test]
fn deduplicates_in_order_and_preserves_evidence() {
    let evidence = known(&["candidate:1", "candidate:2"]);
    let initial = Snapshot::default();
    let next = initial
        .merge(0, vec![finding("Use contiguous loads", "candidate:1")], Vec::new(), &evidence)
        .unwrap();
    let final_snapshot = next
        .merge(1, vec![finding("Use contiguous loads", "candidate:2")], Vec::new(), &evidence)
        .unwrap();
    assert_eq!(final_snapshot, Snapshot { version: 2, entries: next.entries });
    assert_eq!(initial, Snapshot::default());
}

#[test]
fn rejects_unknown_evidence_without_mutating_previous_snapshot() {
    let initial = Snapshot::default();
    let refused = initial.merge(
        0,
        vec![finding("Unverified claim", "other-run:1")],
        Vec::new(),
        &Vec::new(),
    );
    assert_eq!(refused, Err("memory entry references unknown evidence".to_string()));
    assert_eq!(initial, Snapshot::default());
}

#[test]
fn evicts_oldest_entries_and_bounds_multibyte_context() {
    let evidence = known(&["candidate:1"]);
    let findings = (0..100)
        .map(|index| finding(&format!("{index}: {}", "x".repeat(140)), "candidate:1"))
        .collect();
    let snapshot = Snapshot::default().merge(0, findings, Vec::new(), &evidence).unwrap();
    assert!(snapshot.entries.len() > 25);
    assert!(snapshot.entries.len() < 45);
    assert!(snapshot.entries.last().unwrap().finding.text.starts_with("99:"));
    assert!(snapshot.context("run-a").len() < 12_000);
}

#[test]
fn retains_the_original_per_section_memory_budget() {
    let evidence = known(&["candidate:1"]);
    let findings = (0..20)
        .map(|index| finding(&format!("{index}: {}", "x".repeat(120)), "candidate:1"))
        .collect();
    let snapshot = Snapshot::default().merge(0, findings, Vec::new(), &evidence).unwrap();

    assert_eq!(snapshot.entries.len(), 20);
}

#[test]
fn inference_and_evaluator_facts_remain_distinct() {
    let evidence = known(&["candidate:1"]);
    let snapshot = Snapshot::default()
        .merge(
            0,
            vec![finding("Likely register pressure", "candidate:1")],
            vec![finding("Simulated timing: 1 ms", "candidate:1")],
            &evidence,
        )
        .unwrap();
    assert_eq!(
        snapshot.entries.iter().map(|entry| entry.evaluator_fact).collect::<Vec<_>>(),
        vec![false, true]
    );
}

#[test]
fn inference_cannot_shadow_a_matching_evaluator_fact() {
    let evidence = known(&["candidate:1", "candidate:2"]);
    let snapshot = Snapshot::default()
        .merge(
            0,
            vec![finding("Measured", "candidate:1")],
            vec![finding("Measured", "candidate:2")],
            &evidence,
        )
        .unwrap();
    assert_eq!(
        snapshot.entries,
        vec![Entry {
            finding: finding("Measured", "candidate:2"),
            batch: 0,
            evaluator_fact: true
        }]
    );
}

#[test]
fn texts_that_do_not_fit_are_refused() {
    let evidence = known(&["candidate:1"]);
    for text in ["", "  ", "two\nlines", "two\rlines", &"x".repeat(151)] {
        let refused = Snapshot::default().merge(
            0,
            vec![finding(text, "candidate:1")],
            Vec::new(),
            &evidence,
        );
        assert_eq!(
            refused,
            Err("memory entries must be one line, at most 150 characters".to_string())
        );
    }
    let longest = "\u{754c}".repeat(150);
    assert!(Snapshot::default()
        .merge(0, vec![finding(&longest, "candidate:1")], Vec::new(), &evidence)
        .is_ok());
}

#[test]
fn other_sections_lose_nothing() {
    let evidence = known(&["candidate:1"]);
    let mut findings: Vec<Finding> = (0..100)
        .map(|index| finding(&format!("{index}: {}", "x".repeat(140)), "candidate:1"))
        .collect();
    findings.insert(
        0,
        Finding {
            category: Category::KeyFiles,
            text: "solution.py".to_string(),
            evidence: "candidate:1".to_string(),
        },
    );
    let snapshot = Snapshot::default().merge(3, findings, Vec::new(), &evidence).unwrap();
    assert_eq!(snapshot.entries[0].finding.category, Category::KeyFiles);
    assert_eq!(snapshot.entries[0].batch, 3);
}

#[test]
fn context_tells_version_and_entries() {
    let snapshot = Snapshot {
        version: 2,
        entries: vec![Entry {
            finding: finding("Say \"less\"", "candidate:1"),
            batch: 1,
            evaluator_fact: false,
        }],
    };
    assert_eq!(
        snapshot.context("run-a"),
        "Run-scoped search memory (run-a, version 2). Entries marked evaluator_fact are measurements; all others are unverified inferences.\n[{\"finding\":{\"category\":\"learnings\",\"text\":\"Say \\\"less\\\"\",\"evidence\":\"candidate:1\"},\"batch\":1,\"evaluator_fact\":false}]"
    );
    assert_eq!(
        to_text(&snapshot.record()),
        "{\"version\":2,\"entries\":[{\"finding\":{\"category\":\"learnings\",\"text\":\"Say \\\"less\\\"\",\"evidence\":\"candidate:1\"},\"batch\":1,\"evaluator_fact\":false}]}"
    );
}

#[test]
fn extraction_is_told_memory_and_batch() {
    assert_eq!(
        extraction_input(&json("[{\"id\": \"candidate:1\"}]"), "nothing"),
        "Distill this batch's candidate events and evaluator evidence. Cite only the supplied evidence IDs. Return new, concise inferences, not claims of verified correctness. Existing memory:\nnothing\nBatch:\n[{\"id\":\"candidate:1\"}]"
    );
}

#[test]
fn schema_names_the_categories() {
    let schema = to_text(&schema());
    let parsed: serde_json::Value = serde_json::from_str(&schema).unwrap();
    let item = &parsed["properties"]["findings"]["items"];
    assert_eq!(parsed["properties"]["findings"]["maxItems"], 30);
    assert_eq!(item["properties"]["text"]["maxLength"], 150);
    assert_eq!(
        item["properties"]["category"]["enum"].as_array().unwrap().len(),
        5
    );
    assert_eq!(item["properties"]["category"]["enum"][2], "successful_patterns");
    assert_eq!(Category::ErrorsAndCorrections.name(), "errors_and_corrections");
}

#[test]
fn facts_are_measured_outcomes() {
    let batch = vec![
        json(
            "{\"id\": \"candidate:1\", \"evaluation\": {\"outcome\": {\"status\": \"success\", \"speedup\": 2.5}, \"validation\": \"gpu\"}}",
        ),
        json("{\"evaluation\": {\"outcome\": {\"status\": \"failed\", \"speedup\": null}}}"),
    ];
    let list = facts(&batch);
    assert_eq!(list[0].category, Category::SuccessfulPatterns);
    assert_eq!(
        list[0].text,
        "\"candidate:1\": status=\"success\", speedup=2.5, validation=\"gpu\""
    );
    assert_eq!(list[0].evidence, "candidate:1");
    assert_eq!(list[1].category, Category::ErrorsAndCorrections);
    assert_eq!(list[1].text, "null: status=\"failed\", speedup=null, validation=null");
    assert_eq!(list[1].evidence, "");
    assert_eq!(evidence_ids(&batch), vec!["candidate:1".to_string()]);
}

#[test]
fn extractions_have_keys() {
    assert_eq!(job_key("run", 3), "run:3");
    assert_eq!(job_key("run", -1), "run:-1");
    assert_eq!(begin_search_extraction("run", 0), Ok("run:0".to_string()));
    let refused = Err("invalid search memory scope".to_string());
    assert_eq!(begin_search_extraction("", 0), refused);
    assert_eq!(begin_search_extraction("run", -1), refused);
}

#[test]
fn snapshots_are_swapped_against_the_latest() {
    assert_eq!(check_snapshot(&"x".repeat(65536), 0), Ok(()));
    assert_eq!(
        check_snapshot(&"x".repeat(65537), 0),
        Err("search memory snapshot is too large".to_string())
    );
    assert_eq!(
        check_snapshot(&"\u{754c}".repeat(21846), 0),
        Err("search memory snapshot is too large".to_string())
    );
    assert_eq!(check_snapshot("", -1), Err("invalid search memory version".to_string()));
    assert_eq!(check_version(1, 1), Ok(()));
    assert_eq!(check_version(1, 0), Err("stale search memory update".to_string()));
    assert_eq!(commit_search_snapshot("x", 1, 1, 1), Ok(2));
    let refused = |snapshot: &str, previous, latest, closed| {
        commit_search_snapshot(snapshot, previous, latest, closed).unwrap_err()
    };
    assert_eq!(refused("x", 1, 1, 0), "search memory extraction is not active");
    assert_eq!(refused("x", 0, 1, 0), "stale search memory update");
    assert_eq!(refused("x", -1, -1, 1), "invalid search memory version");
    assert_eq!(refused(&"x".repeat(65537), 1, 1, 1), "search memory snapshot is too large");
}
