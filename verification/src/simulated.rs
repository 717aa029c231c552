//! Evaluating by a scenario: nothing is run, and the scenario's files stand for what a run shows.
pub mod trial;

use crate::fields;
use crate::fields::Fields;
use crate::gpu;
use crate::gpu::{decimal, record_options, record_outcome, record_reference, Speedup};
use crate::json;
use crate::json::{Json, JsonView};
use crate::models::strict;
use crate::models::strict::keys_of;
use crate::number;
use crate::number::{Reading, ReadingView, Readings, ReadingsView};
use crate::outside;
use crate::pieces;
use crate::profilers::ncu;
use crate::profilers::ncu::ncu_csv;
use crate::profilers::rules;
use crate::profilers::sass;
use vstd::prelude::*;

verus! {

/// The table of a scenario.
pub open spec fn table_of(payload: JsonView) -> Result<Seq<char>, Seq<char>> {
    match payload.at("fixture"@).at("ncu_csv"@).text() {
        Some(table) => Ok(table),
        None => Err("scenario NCU CSV"@),
    }
}

/// The table of a scenario.
pub fn scenario_table(payload: &Json) -> (result: Result<&str, String>)
    ensures
        match result {
            Ok(table) => table_of(payload@) == Ok::<Seq<char>, Seq<char>>(table@),
            Err(error) => table_of(payload@) == Err::<Seq<char>, Seq<char>>(error@),
        },
{
    match payload.at("fixture").at("ncu_csv").text() {
        Some(table) => Ok(table),
        None => Err("scenario NCU CSV".to_owned()),
    }
}

/// The record of the instructions in a scenario, null where there are none.
pub open spec fn instructions_of(payload: JsonView, assets: JsonView) -> Result<JsonView, Seq<char>> {
    let listing = payload.at("fixture"@).at("sass"@).text_or_empty();
    if listing.len() == 0 {
        Ok(JsonView::Null)
    } else {
        sass::sass_record(assets, listing, None)
    }
}

/// The recommendations in a scenario, none unless they are asked for.
pub open spec fn rules_of(payload: JsonView, readings: ReadingsView) -> Result<JsonView, Seq<char>> {
    if payload.at("ncu_full"@) == JsonView::Bool(true) {
        rules::rules_record(payload.at("fixture"@).at("ncu_rules"@).text_or_empty(), readings)
    } else {
        Ok(JsonView::Array(Seq::empty()))
    }
}

/// The report of a scenario.
pub open spec fn scenario_report(
    payload: JsonView,
    names: Seq<Seq<char>>,
    path: Seq<char>,
    assets: JsonView,
    readings: ReadingsView,
) -> Result<JsonView, Seq<char>> {
    match table_of(payload) {
        Err(reason) => Err(reason),
        Ok(table) => match ncu::table_metrics(
            outside::csv_table(ncu::cleaned(table)),
            names,
            readings,
        ) {
            Err(reason) => Err(reason),
            Ok(JsonView::Object(metrics)) => match (
                instructions_of(payload, assets),
                rules_of(payload, readings),
            ) {
                (Err(reason), _) => Err(reason),
                (_, Err(reason)) => Err(reason),
                (Ok(instructions), Ok(list)) => Ok(
                    JsonView::Object(
                        seq![
                            ("success"@, JsonView::Bool(metrics.len() > 0)),
                            ("metrics"@, JsonView::Object(metrics)),
                            ("kernel_names"@, fields::strings_view(strict::keys(metrics))),
                            ("sass"@, instructions),
                            ("rule_recommendations"@, list),
                            ("csv_path"@, JsonView::Text(path)),
                            (
                                "error"@,
                                if metrics.len() == 0 {
                                    JsonView::Text("No NCU metrics"@)
                                } else {
                                    JsonView::Null
                                },
                            ),
                        ],
                    ),
                ),
            },
            Ok(_) => Err("metrics"@),
        },
    }
}

/// The report of a scenario on the kernels of some names; `path` is where its table is kept.
pub fn report(payload: &Json, names: &Vec<String>, path: &str, assets: &Json, readings: &Readings) -> (result:
    Result<Json, String>)
    ensures
        match result {
            Ok(made) => scenario_report(
                payload@,
                pieces::texts(names@),
                path@,
                assets@,
                readings@,
            ) == Ok::<JsonView, Seq<char>>(made@),
            Err(error) => scenario_report(
                payload@,
                pieces::texts(names@),
                path@,
                assets@,
                readings@,
            ) == Err::<JsonView, Seq<char>>(error@),
        },
{
    broadcast use json::object_view;

    let table = match scenario_table(payload) {
        Ok(table) => table,
        Err(error) => {
            return Err(error);
        },
    };
    let metrics = match ncu_csv(table, names, readings) {
        Ok(Json::Object(metrics)) => metrics,
        Ok(_) => {
            return Err("metrics".to_owned());
        },
        Err(error) => {
            return Err(error);
        },
    };
    let listing = payload.at("fixture").at("sass").text_or_empty();
    let instructions = if listing.is_empty() {
        Json::Null
    } else {
        match sass::sass(assets, listing, None) {
            Ok(record) => record,
            Err(error) => {
                return Err(error);
            },
        }
    };
    let list = if payload.at("ncu_full").is_true() {
        match rules::rules(payload.at("fixture").at("ncu_rules").text_or_empty(), readings) {
            Ok(list) => list,
            Err(error) => {
                return Err(error);
            },
        }
    } else {
        fields::empty_array()
    };
    let ghost whole = scenario_report(
        payload@,
        pieces::texts(names@),
        path@,
        assets@,
        readings@,
    );
    let found = keys_of(&metrics);
    let empty = metrics.len() == 0;
    let made = Fields::new().with("success", Json::Bool(!empty)).with(
        "metrics",
        Json::Object(metrics),
    ).with("kernel_names", fields::strings(&found)).with("sass", instructions).with(
        "rule_recommendations",
        list,
    ).with("csv_path", fields::text(path)).with(
        "error",
        if empty {
            fields::text("No NCU metrics")
        } else {
            Json::Null
        },
    ).object();
    assert(made@->Object_0 =~= whole->Ok_0->Object_0);
    Ok(made)
}

/// The time of the reference in a scenario.
pub open spec fn stated_time(payload: JsonView) -> Result<ReadingView, Seq<char>> {
    match payload.at("fixture"@).at("reference_seconds"@).reading() {
        Some(seconds) => Ok(seconds),
        None => Err("reference timing must be finite and positive"@),
    }
}

/// The time of the reference in a scenario.
pub fn reference_time(payload: &Json) -> (result: Result<Reading, String>)
    ensures
        match result {
            Ok(seconds) => stated_time(payload@) == Ok::<ReadingView, Seq<char>>(seconds@),
            Err(error) => stated_time(payload@) == Err::<ReadingView, Seq<char>>(error@),
        },
{
    match payload.at("fixture").at("reference_seconds").reading() {
        Some(seconds) => Ok(seconds.clone()),
        None => Err("reference timing must be finite and positive".to_owned()),
    }
}

/// The metric of a kernel, zero where it is missing.
pub open spec fn metric_or_zero(metrics: JsonView, key: Seq<char>) -> JsonView {
    match metrics.get(key) {
        Some(value) => value,
        None => fields::natural_view(0),
    }
}

fn metric_of(metrics: &Json, key: &str) -> (value: Json)
    ensures
        value@ == metric_or_zero(metrics@, key@),
{
    match metrics.get(key) {
        Some(value) => value.clone(),
        None => fields::natural(0),
    }
}

/// The record of a reference by a report; `latency` is the duration of its first kernel in
/// milliseconds, a millionth of the metric, `None` where that is not finite.
pub open spec fn reference_record(
    payload: JsonView,
    seconds: ReadingView,
    report: JsonView,
    latency: Option<ReadingView>,
) -> Result<JsonView, Seq<char>> {
    let name = report.at("kernel_names"@).item(0).text_or_empty();
    let metrics = report.at("metrics"@).at(name);
    if !(seconds.value.finite() && seconds.value.rank > 0) {
        Err("reference timing must be finite and positive"@)
    } else if metric_or_zero(metrics, "gpu__time_duration.sum"@).reading() is None {
        Err("NCU duration"@)
    } else {
        Ok(
            gpu::reference_record(
                seconds,
                JsonView::Object(
                    seq![
                        ("success"@, report.at("success"@)),
                        ("metrics"@, report.at("metrics"@)),
                        ("kernel_name"@, JsonView::Text(name)),
                        (
                            "sm_throughput"@,
                            metric_or_zero(
                                metrics,
                                "sm__throughput.avg.pct_of_peak_sustained_elapsed"@,
                            ),
                        ),
                        (
                            "dram_throughput"@,
                            metric_or_zero(
                                metrics,
                                "dram__throughput.avg.pct_of_peak_sustained_elapsed"@,
                            ),
                        ),
                        ("latency_ms"@, gpu::decimal_or_null(latency)),
                        (
                            "occupancy"@,
                            metric_or_zero(
                                metrics,
                                "sm__warps_active.avg.pct_of_peak_sustained_active"@,
                            ),
                        ),
                    ],
                ),
                payload.at("problem"@),
                "simulated"@,
            ),
        )
    }
}

/// The record of a reference by a report.
pub fn reference(payload: &Json, seconds: Reading, report: &Json, latency: &Option<Reading>) -> (result:
    Result<Json, String>)
    ensures
        match result {
            Ok(made) => reference_record(
                payload@,
                seconds@,
                report@,
                number::optional_reading(*latency),
            ) == Ok::<JsonView, Seq<char>>(made@),
            Err(error) => reference_record(
                payload@,
                seconds@,
                report@,
                number::optional_reading(*latency),
            ) == Err::<JsonView, Seq<char>>(error@),
        },
{
    let ghost whole = reference_record(
        payload@,
        seconds@,
        report@,
        number::optional_reading(*latency),
    );
    if !(seconds.value.is_finite() && seconds.value.rank > 0) {
        return Err("reference timing must be finite and positive".to_owned());
    }
    let name = report.at("kernel_names").item(0).text_or_empty();
    let metrics = report.at("metrics").at(name);
    if metric_of(metrics, "gpu__time_duration.sum").reading().is_none() {
        return Err("NCU duration".to_owned());
    }
    let profile = Fields::new().with("success", report.at("success").clone()).with(
        "metrics",
        report.at("metrics").clone(),
    ).with("kernel_name", fields::text(name)).with(
        "sm_throughput",
        metric_of(metrics, "sm__throughput.avg.pct_of_peak_sustained_elapsed"),
    ).with(
        "dram_throughput",
        metric_of(metrics, "dram__throughput.avg.pct_of_peak_sustained_elapsed"),
    ).with("latency_ms", decimal(latency)).with(
        "occupancy",
        metric_of(metrics, "sm__warps_active.avg.pct_of_peak_sustained_active"),
    ).object();
    assert(whole->Ok_0->Object_0[1].1->Object_0 =~= profile@->Object_0);
    let made = record_reference(seconds, profile, payload.at("problem"), "simulated");
    assert(made@->Object_0 =~= whole->Ok_0->Object_0);
    Ok(made)
}

/// Whether a scenario has a candidate fail.
pub open spec fn has_failure(payload: JsonView) -> bool {
    payload.at("fixture"@).at("error_context"@).filled()
}

/// Whether a scenario has a candidate fail.
pub fn fails(payload: &Json) -> (failed: bool)
    ensures
        failed == has_failure(payload@),
{
    payload.at("fixture").at("error_context").filled()
}

/// Why a scenario's candidate is refused, if it is: its time makes no sense, or it has none
/// although it succeeds, or the speedup is not finite.
pub open spec fn candidate_refusal(payload: JsonView, speedup: Option<Option<ReadingView>>) -> Option<
    Seq<char>,
> {
    let value = payload.at("fixture"@).at("candidate_seconds"@);
    if value != JsonView::Null && !(value.reading() matches Some(seconds) && seconds.value.finite()
        && seconds.value.rank > 0) {
        Some("candidate timing must be finite and positive"@)
    } else if !has_failure(payload) && value.reading() is None {
        Some("successful candidate has no timing"@)
    } else if speedup == Some(None::<ReadingView>) {
        Some("speedup must be finite"@)
    } else {
        None
    }
}

/// The record of a scenario's candidate; `speedup` is there where the scenario has a time.
pub open spec fn candidate_record(
    payload: JsonView,
    digest: Seq<char>,
    report: JsonView,
    speedup: Option<Option<ReadingView>>,
) -> Result<JsonView, Seq<char>> {
    match candidate_refusal(payload, speedup) {
        Some(reason) => Err(reason),
        None => Ok(
            JsonView::Object(
                seq![
                    (
                        "outcome"@,
                        gpu::outcome_record(
                            payload.at("fixture"@).at("error_context"@),
                            has_failure(payload),
                            speedup,
                        ),
                    ),
                    (
                        "candidate_seconds"@,
                        gpu::decimal_or_null(
                            payload.at("fixture"@).at("candidate_seconds"@).reading(),
                        ),
                    ),
                    ("source_sha256"@, JsonView::Text(digest)),
                    ("task_sha256"@, payload.at("problem"@).at("sha256"@)),
                    ("build_identity"@, JsonView::Null),
                    ("profile"@, report),
                    ("validation"@, JsonView::Text("simulated"@)),
                    (
                        "profiling_options"@,
                        gpu::options_record(payload, payload.at("ncu_full"@) == JsonView::Bool(true)),
                    ),
                ],
            ),
        ),
    }
}

/// The record of a scenario's candidate, whose source has the given digest.
pub fn evaluate(payload: &Json, digest: &str, report: Json, speedup: Option<Speedup>) -> (result: Result<
    Json,
    String,
>)
    ensures
        match result {
            Ok(made) => candidate_record(payload@, digest@, report@, gpu::speedup_view(speedup))
                == Ok::<JsonView, Seq<char>>(made@),
            Err(error) => candidate_record(payload@, digest@, report@, gpu::speedup_view(speedup))
                == Err::<JsonView, Seq<char>>(error@),
        },
{
    let ghost whole = candidate_record(payload@, digest@, report@, gpu::speedup_view(speedup));
    let value = payload.at("fixture").at("candidate_seconds");
    if !value.is_null() {
        let sound = match value.reading() {
            Some(seconds) => seconds.value.is_finite() && seconds.value.rank > 0,
            None => false,
        };
        if !sound {
            return Err("candidate timing must be finite and positive".to_owned());
        }
    }
    let failed = fails(payload);
    if !failed && value.reading().is_none() {
        return Err("successful candidate has no timing".to_owned());
    }
    if let Some(None) = speedup {
        return Err("speedup must be finite".to_owned());
    }
    let seconds = match value.reading() {
        Some(seconds) => decimal(&Some(seconds.clone())),
        None => Json::Null,
    };
    let outcome = record_outcome(
        payload.at("fixture").at("error_context").clone(),
        failed,
        &speedup,
    );
    let made = Fields::new().with("outcome", outcome).with("candidate_seconds", seconds).with(
        "source_sha256",
        fields::text(digest),
    ).with("task_sha256", payload.at("problem").at("sha256").clone()).with(
        "build_identity",
        Json::Null,
    ).with("profile", report).with("validation", fields::text("simulated")).with(
        "profiling_options",
        record_options(payload, payload.at("ncu_full").is_true()),
    ).object();
    assert(made@->Object_0 =~= whole->Ok_0->Object_0);
    Ok(made)
}

} // verus!
