//! Evaluating on a GPU.
pub mod evaluation;
pub mod laws;
pub mod progress;
pub mod steps;

use crate::fields;
use crate::fields::Fields;
use crate::json;
use crate::json::{FieldView, Json, JsonView};
use crate::number;
use crate::number::{Number, NumberView, Reading, ReadingView, Readings, ReadingsView, Real};
use crate::numeral;
use crate::numeral::numeral;
use crate::text;
use crate::text::contains;
use crate::written;
use crate::written::to_text;
use vstd::prelude::*;

verus! {

/// The model of a decimal number, null where it is not finite.
pub open spec fn decimal_or_null(reading: Option<ReadingView>) -> JsonView {
    match reading {
        Some(reading) => JsonView::Number(NumberView::Decimal(reading)),
        None => JsonView::Null,
    }
}

/// A decimal number, null where it is not finite.
pub fn decimal(reading: &Option<Reading>) -> (value: Json)
    ensures
        value@ == decimal_or_null(number::optional_reading(*reading)),
{
    match reading {
        Some(reading) => Json::Number(Number::Decimal(reading.clone())),
        None => Json::Null,
    }
}

/// The time that a value gives: none for null, else a finite positive number.
pub open spec fn timing(value: JsonView, label: Seq<char>) -> Result<Option<ReadingView>, Seq<char>> {
    if value == JsonView::Null {
        Ok(None)
    } else {
        match value.reading() {
            Some(reading) => if reading.value.finite() && reading.value.rank > 0 {
                Ok(Some(reading))
            } else {
                Err(label + " timing must be finite and positive"@)
            },
            None => Err(label + " timing must be finite and positive"@),
        }
    }
}

/// The time that a value gives: none for null, else a finite positive number.
pub fn positive_timing(value: &Json, label: &str) -> (result: Result<Option<Reading>, String>)
    ensures
        match result {
            Ok(reading) => timing(value@, label@) == Ok::<Option<ReadingView>, Seq<char>>(
                number::optional_reading(reading),
            ),
            Err(error) => timing(value@, label@) == Err::<Option<ReadingView>, Seq<char>>(error@),
        },
{
    if value.is_null() {
        return Ok(None);
    }
    if let Some(reading) = value.reading() {
        if reading.value.is_finite() && reading.value.rank > 0 {
            return Ok(Some(reading.clone()));
        }
    }
    Err(label.to_owned().concat(" timing must be finite and positive"))
}

/// What went wrong with a candidate: its exception, or what the comparison says; null where it was
/// correct.
pub open spec fn error_of(observation: JsonView) -> Result<JsonView, Seq<char>> {
    let comparison = observation.at("comparison"@);
    let details = comparison.at("details"@);
    if observation.at("exception"@) != JsonView::Null {
        Ok(observation.at("exception"@))
    } else if comparison.at("correct"@) == JsonView::Bool(true) {
        Ok(JsonView::Null)
    } else {
        match comparison.at("message"@) {
            JsonView::Text(message) => Ok(
                JsonView::Object(
                    seq![
                        (
                            "error_type"@,
                            JsonView::Text(
                                if text::holds(message, "Numerical error"@) {
                                    "correctness_error"@
                                } else {
                                    "execution_error"@
                                },
                            ),
                        ),
                        ("error_message"@, JsonView::Text(message)),
                    ] + (if details.filled() {
                        seq![
                            (
                                "max_diff"@,
                                match details.get("max_diff"@) {
                                    Some(value) => value,
                                    None => decimal_or_null(Some(number::integer_reading(0))),
                                },
                            ),
                        ]
                    } else {
                        Seq::empty()
                    }),
                ),
            ),
            _ => Err("workload comparison result"@),
        }
    }
}

/// What went wrong with a candidate; null where it was correct.
pub fn candidate_error(observation: &Json) -> (result: Result<Json, String>)
    ensures
        match result {
            Ok(error) => error_of(observation@) == Ok::<JsonView, Seq<char>>(error@),
            Err(error) => error_of(observation@) == Err::<JsonView, Seq<char>>(error@),
        },
{
    let exception = observation.at("exception");
    if !exception.is_null() {
        return Ok(exception.clone());
    }
    let comparison = observation.at("comparison");
    if comparison.at("correct").is_true() {
        return Ok(Json::Null);
    }
    let message = match comparison.at("message").text() {
        Some(message) => message,
        None => {
            return Err("workload comparison result".to_owned());
        },
    };
    let kind = if contains(message, "Numerical error") {
        "correctness_error"
    } else {
        "execution_error"
    };
    let mut error = Fields::new().with("error_type", fields::text(kind)).with(
        "error_message",
        fields::text(message),
    );
    let details = comparison.at("details");
    if details.filled() {
        let difference = match details.get("max_diff") {
            Some(value) => value.clone(),
            None => Json::Number(Number::Decimal(crate::analyzers::metric::small(0))),
        };
        error.push("max_diff", difference);
    }
    assert(error@ =~= error_of(observation@)->Ok_0->Object_0);
    Ok(error.object())
}

/// A metric of a reference: zero where it is missing, `None` where it is not finite.
pub open spec fn reference_metric(
    values: JsonView,
    key: Seq<char>,
    readings: ReadingsView,
) -> Result<Option<ReadingView>, Seq<char>> {
    let value = values.at(key);
    if value == JsonView::Null {
        Ok(Some(number::integer_reading(0)))
    } else {
        match value.reading() {
            Some(reading) => Ok(Some(reading)),
            None => match value {
                JsonView::Text(held) => match number::read_from(readings, held) {
                    Some(reading) => Ok(reading),
                    None => Err("numeric reference metric"@),
                },
                _ => Err("numeric reference metric"@),
            },
        }
    }
}

/// A metric of a reference.
pub fn read_reference_metric(values: &Json, key: &str, readings: &Readings) -> (result: Result<
    Option<Reading>,
    String,
>)
    ensures
        match result {
            Ok(reading) => reference_metric(values@, key@, readings@) == Ok::<
                Option<ReadingView>,
                Seq<char>,
            >(number::optional_reading(reading)),
            Err(error) => reference_metric(values@, key@, readings@) == Err::<
                Option<ReadingView>,
                Seq<char>,
            >(error@),
        },
{
    let value = values.at(key);
    if value.is_null() {
        return Ok(Some(crate::analyzers::metric::small(0)));
    }
    if let Some(reading) = value.reading() {
        return Ok(Some(reading.clone()));
    }
    if let Some(held) = value.text() {
        if let Some(reading) = readings.read(held) {
            return Ok(reading);
        }
    }
    Err("numeric reference metric".to_owned())
}

/// The summary of a reference's profile: of its first kernel; `latency` is the duration in
/// milliseconds, a millionth of the metric, `None` where that is not finite.
pub open spec fn reference_summary(
    report: JsonView,
    readings: ReadingsView,
    latency: Option<ReadingView>,
) -> Result<JsonView, Seq<char>> {
    if report.at("success"@) != JsonView::Bool(true) {
        Ok(JsonView::Object(seq![("error"@, report.at("error"@))]))
    } else {
        match report.at("metrics"@) {
            JsonView::Object(metrics) => if metrics.len() == 0 {
                Ok(
                    JsonView::Object(
                        seq![("error"@, JsonView::Text("No metrics collected by NCU"@))],
                    ),
                )
            } else {
                let values = metrics[0].1;
                match (
                    reference_metric(
                        values,
                        "sm__throughput.avg.pct_of_peak_sustained_elapsed"@,
                        readings,
                    ),
                    reference_metric(
                        values,
                        "dram__throughput.avg.pct_of_peak_sustained_elapsed"@,
                        readings,
                    ),
                    reference_metric(values, "gpu__time_duration.sum"@, readings),
                    reference_metric(
                        values,
                        "sm__warps_active.avg.pct_of_peak_sustained_active"@,
                        readings,
                    ),
                ) {
                    (Ok(sm), Ok(dram), Ok(_), Ok(occupancy)) => Ok(
                        JsonView::Object(
                            seq![
                                ("success"@, JsonView::Bool(true)),
                                ("metrics"@, JsonView::Object(metrics)),
                                ("kernel_name"@, JsonView::Text(metrics[0].0)),
                                ("sm_throughput"@, decimal_or_null(sm)),
                                ("dram_throughput"@, decimal_or_null(dram)),
                                ("latency_ms"@, decimal_or_null(latency)),
                                ("occupancy"@, decimal_or_null(occupancy)),
                            ],
                        ),
                    ),
                    _ => Err("numeric reference metric"@),
                }
            },
            _ => Err("NCU metrics"@),
        }
    }
}

/// The summary of a reference's profile.
pub fn summarize_reference(report: &Json, readings: &Readings, latency: &Option<Reading>) -> (result:
    Result<Json, String>)
    ensures
        match result {
            Ok(made) => reference_summary(report@, readings@, number::optional_reading(*latency))
                == Ok::<JsonView, Seq<char>>(made@),
            Err(error) => reference_summary(report@, readings@, number::optional_reading(*latency))
                == Err::<JsonView, Seq<char>>(error@),
        },
{
    if !report.at("success").is_true() {
        let made = Fields::new().with("error", report.at("error").clone()).object();
        assert(made@->Object_0 =~= seq![("error"@, report@.at("error"@))]);
        return Ok(made);
    }
    let metrics = match report.at("metrics").fields() {
        Some(metrics) => metrics,
        None => {
            return Err("NCU metrics".to_owned());
        },
    };
    let ghost all = json::fields_view(metrics@);
    if metrics.len() == 0 {
        let made = Fields::new().with("error", fields::text("No metrics collected by NCU")).object();
        assert(made@->Object_0 =~= seq![
            ("error"@, JsonView::Text("No metrics collected by NCU"@)),
        ]);
        return Ok(made);
    }
    assert(all[0] == (metrics@[0].0@, metrics@[0].1@));
    let values = &metrics[0].1;
    let sm = match read_reference_metric(
        values,
        "sm__throughput.avg.pct_of_peak_sustained_elapsed",
        readings,
    ) {
        Ok(reading) => reading,
        Err(error) => {
            return Err(error);
        },
    };
    let dram = match read_reference_metric(
        values,
        "dram__throughput.avg.pct_of_peak_sustained_elapsed",
        readings,
    ) {
        Ok(reading) => reading,
        Err(error) => {
            return Err(error);
        },
    };
    if let Err(error) = read_reference_metric(values, "gpu__time_duration.sum", readings) {
        return Err(error);
    }
    let occupancy = match read_reference_metric(
        values,
        "sm__warps_active.avg.pct_of_peak_sustained_active",
        readings,
    ) {
        Ok(reading) => reading,
        Err(error) => {
            return Err(error);
        },
    };
    let ghost wanted = reference_summary(
        report@,
        readings@,
        number::optional_reading(*latency),
    )->Ok_0->Object_0;
    let made = Fields::new().with("success", Json::Bool(true)).with(
        "metrics",
        report.at("metrics").clone(),
    ).with("kernel_name", fields::text(metrics[0].0.as_str())).with("sm_throughput", decimal(&sm)).with(
        "dram_throughput",
        decimal(&dram),
    ).with("latency_ms", decimal(latency)).with("occupancy", decimal(&occupancy)).object();
    assert(made@->Object_0 =~= wanted);
    Ok(made)
}

/// The rank of a thousandth.
pub const THOUSANDTH: i64 = 0x3f50_624d_d2f1_a9fc;

/// The rank of a hundredth.
pub const HUNDREDTH: i64 = 0x3f84_7ae1_47ae_147b;

/// A small fraction.
pub open spec fn fraction(rank: i64, text: Seq<char>) -> JsonView {
    JsonView::Number(
        NumberView::Decimal(
            ReadingView {
                value: Real { rank },
                text,
                tenths: "0.0"@,
                units: "0"@,
                whole: None,
                fractional: true,
            },
        ),
    )
}

fn small_fraction(rank: i64, text: &str) -> (value: Json)
    ensures
        value@ == fraction(rank, text@),
{
    Json::Number(
        Number::Decimal(
            Reading {
                value: Real { rank },
                text: text.to_owned(),
                tenths: "0.0".to_owned(),
                units: "0".to_owned(),
                whole: None,
                fractional: true,
            },
        ),
    )
}

/// The settings of a workload.
pub open spec fn settings(candidate: bool) -> JsonView {
    JsonView::Object(
        seq![
            ("seed"@, fields::natural_view(42)),
            ("rtol"@, fraction(THOUSANDTH, "0.001"@)),
            ("atol"@, fraction(HUNDREDTH, "0.01"@)),
            ("warmup"@, fields::natural_view(5)),
            ("trials"@, fields::natural_view(5)),
            ("set_arch"@, JsonView::Bool(candidate)),
            ("time_numerical_mismatch"@, JsonView::Bool(true)),
        ],
    )
}

/// The fields of a payload that is an object, none of null.
pub open spec fn payload_fields(payload: JsonView) -> Seq<FieldView> {
    match payload {
        JsonView::Object(list) => list,
        _ => Seq::empty(),
    }
}

/// The request to run a workload: the payload with the operation and the settings set.
pub open spec fn request_of(payload: JsonView, candidate: bool) -> JsonView {
    JsonView::Object(
        json::with_field(
            json::with_field(
                payload_fields(payload),
                "operation"@,
                JsonView::Text(
                    if candidate {
                        "candidate"@
                    } else {
                        "reference"@
                    },
                ),
            ),
            "settings"@,
            settings(candidate),
        ),
    )
}

/// The request to run a workload: the payload, an object or null, with the operation and the
/// settings set.
pub fn workload_request(payload: Json, candidate: bool) -> (request: Json)
    requires
        payload@ is Object || payload@ is Null,
    ensures
        request@ == request_of(payload@, candidate),
{
    broadcast use json::object_view;

    let mut list = match payload {
        Json::Object(list) => Fields { list },
        _ => Fields::new(),
    };
    let options = Fields::new().with("seed", fields::natural(42)).with(
        "rtol",
        small_fraction(THOUSANDTH, "0.001"),
    ).with("atol", small_fraction(HUNDREDTH, "0.01")).with("warmup", fields::natural(5)).with(
        "trials",
        fields::natural(5),
    ).with("set_arch", Json::Bool(candidate)).with(
        "time_numerical_mismatch",
        Json::Bool(true),
    ).object();
    assert(options@->Object_0 =~= settings(candidate)->Object_0);
    list.set(
        "operation",
        fields::text(
            if candidate {
                "candidate"
            } else {
                "reference"
            },
        ),
    );
    list.set("settings", options);
    list.object()
}

/// The environment of the processes of an evaluation.
pub open spec fn environment_of(
    payload: JsonView,
    runtime: JsonView,
    build: Seq<char>,
    cache: Seq<char>,
) -> JsonView {
    let list = seq![
        (
            "CUDA_VISIBLE_DEVICES"@,
            JsonView::Text(numeral::decimal(payload.at("gpu_id"@).natural_or_zero() as nat)),
        ),
        ("TORCH_EXTENSIONS_DIR"@, JsonView::Text(build)),
        ("TRITON_CACHE_DIR"@, JsonView::Text(cache)),
    ];
    JsonView::Object(
        match runtime.at("cuda_arch_list"@) {
            JsonView::Text(arch) => list.push(("TORCH_CUDA_ARCH_LIST"@, JsonView::Text(arch))),
            _ => list,
        },
    )
}

/// The environment of the processes of an evaluation.
pub fn environment(payload: &Json, runtime: &Json, build: &str, cache: &str) -> (made: Json)
    ensures
        made@ == environment_of(payload@, runtime@, build@, cache@),
{
    let mut list = Fields::new().with(
        "CUDA_VISIBLE_DEVICES",
        Json::Text(numeral(payload.at("gpu_id").natural_or_zero() as u128)),
    ).with("TORCH_EXTENSIONS_DIR", fields::text(build)).with(
        "TRITON_CACHE_DIR",
        fields::text(cache),
    );
    if let Some(arch) = runtime.at("cuda_arch_list").text() {
        list.push("TORCH_CUDA_ARCH_LIST", fields::text(arch));
    }
    assert(list@ =~= environment_of(payload@, runtime@, build@, cache@)->Object_0);
    list.object()
}

/// The time of a reference that was observed.
pub open spec fn reference_time(observation: JsonView) -> Result<ReadingView, Seq<char>> {
    if observation.at("exception"@) != JsonView::Null {
        Err("reference workload: "@ + written::compact(observation.at("exception"@)))
    } else {
        match timing(observation.at("seconds"@), "reference"@) {
            Err(reason) => Err(reason),
            Ok(None) => Err("reference timing must be finite and positive"@),
            Ok(Some(seconds)) => Ok(seconds),
        }
    }
}

/// The time of a reference that was observed.
pub fn time_reference(observation: &Json) -> (result: Result<Reading, String>)
    ensures
        match result {
            Ok(seconds) => reference_time(observation@) == Ok::<ReadingView, Seq<char>>(seconds@),
            Err(error) => reference_time(observation@) == Err::<ReadingView, Seq<char>>(error@),
        },
{
    let exception = observation.at("exception");
    if !exception.is_null() {
        return Err("reference workload: ".to_owned().concat(to_text(exception).as_str()));
    }
    match positive_timing(observation.at("seconds"), "reference") {
        Err(error) => Err(error),
        Ok(None) => Err("reference timing must be finite and positive".to_owned()),
        Ok(Some(seconds)) => Ok(seconds),
    }
}

/// The profile of a reference where there is no profiler.
pub open spec fn no_profiler() -> JsonView {
    let zero = decimal_or_null(Some(number::integer_reading(0)));
    JsonView::Object(
        seq![
            ("error"@, JsonView::Text("NCU not available on this system"@)),
            ("sm_throughput"@, zero),
            ("dram_throughput"@, zero),
            ("latency_ms"@, zero),
            ("occupancy"@, zero),
        ],
    )
}

/// The profile of a reference where there is no profiler.
pub fn without_profiler() -> (made: Json)
    ensures
        made@ == no_profiler(),
{
    let zero = Json::Number(Number::Decimal(crate::analyzers::metric::small(0)));
    let made = Fields::new().with("error", fields::text("NCU not available on this system")).with(
        "sm_throughput",
        zero.clone(),
    ).with("dram_throughput", zero.clone()).with("latency_ms", zero.clone()).with(
        "occupancy",
        zero,
    ).object();
    assert(made@->Object_0 =~= no_profiler()->Object_0);
    made
}

/// The record of a reference that was evaluated.
pub open spec fn reference_record(
    seconds: ReadingView,
    profile: JsonView,
    problem: JsonView,
    validation: Seq<char>,
) -> JsonView {
    JsonView::Object(
        seq![
            ("reference_seconds"@, decimal_or_null(Some(seconds))),
            ("profile"@, profile),
            ("task_sha256"@, problem.at("sha256"@)),
            ("validation"@, JsonView::Text(validation)),
        ],
    )
}

/// The record of a reference that was evaluated.
pub fn record_reference(seconds: Reading, profile: Json, problem: &Json, validation: &str) -> (made: Json)
    ensures
        made@ == reference_record(seconds@, profile@, problem@, validation@),
{
    let ghost wanted = reference_record(seconds@, profile@, problem@, validation@)->Object_0;
    let made = Fields::new().with("reference_seconds", decimal(&Some(seconds))).with(
        "profile",
        profile,
    ).with("task_sha256", problem.at("sha256").clone()).with(
        "validation",
        fields::text(validation),
    ).object();
    assert(made@->Object_0 =~= wanted);
    made
}

/// What a candidate's run showed: what went wrong, null where nothing did, and its time.
pub struct Verdict {
    pub error: Json,
    pub seconds: Option<Reading>,
}

/// The model of a [`Verdict`].
pub struct VerdictView {
    pub error: JsonView,
    pub seconds: Option<ReadingView>,
}

impl View for Verdict {
    type V = VerdictView;

    open spec fn view(&self) -> VerdictView {
        VerdictView {
            error: self.error@,
            seconds: number::optional_reading(self.seconds),
        }
    }
}

/// What a candidate's run showed.
pub open spec fn judged(observation: JsonView) -> Result<VerdictView, Seq<char>> {
    match error_of(observation) {
        Err(reason) => Err(reason),
        Ok(error) => match timing(observation.at("seconds"@), "candidate"@) {
            Err(reason) => Err(reason),
            Ok(seconds) => if error == JsonView::Null && seconds is None {
                Err("successful candidate has no timing"@)
            } else {
                Ok(VerdictView { error, seconds })
            },
        },
    }
}

/// What a candidate's run showed.
pub fn judge(observation: &Json) -> (result: Result<Verdict, String>)
    ensures
        match result {
            Ok(verdict) => judged(observation@) == Ok::<VerdictView, Seq<char>>(verdict@),
            Err(error) => judged(observation@) == Err::<VerdictView, Seq<char>>(error@),
        },
{
    let error = match candidate_error(observation) {
        Ok(error) => error,
        Err(reason) => {
            return Err(reason);
        },
    };
    let seconds = match positive_timing(observation.at("seconds"), "candidate") {
        Ok(seconds) => seconds,
        Err(reason) => {
            return Err(reason);
        },
    };
    if error.is_null() && seconds.is_none() {
        return Err("successful candidate has no timing".to_owned());
    }
    Ok(Verdict { error, seconds })
}

/// The record of a profile that could not be made.
pub open spec fn unprofiled(reason: Seq<char>) -> JsonView {
    JsonView::Object(
        seq![("success"@, JsonView::Bool(false)), ("error"@, JsonView::Text(reason))],
    )
}

/// The report on a candidate: its profile with the record of its instructions, or why there is
/// none.
pub open spec fn candidate_report(
    profile: Result<JsonView, Seq<char>>,
    instructions: JsonView,
) -> JsonView {
    match profile {
        Ok(profile) => JsonView::Object(
            json::with_field(payload_fields(profile), "sass"@, instructions),
        ),
        Err(reason) => unprofiled(reason),
    }
}

/// The report on a candidate; a profile is an object or null.
pub fn report(profile: Result<Json, String>, instructions: Json) -> (made: Json)
    requires
        profile matches Ok(profile) ==> profile@ is Object || profile@ is Null,
    ensures
        made@ == candidate_report(
            match profile {
                Ok(profile) => Ok(profile@),
                Err(error) => Err(error@),
            },
            instructions@,
        ),
{
    broadcast use json::object_view;

    match profile {
        Ok(profile) => {
            let mut list = match profile {
                Json::Object(list) => Fields { list },
                _ => Fields::new(),
            };
            list.set("sass", instructions);
            list.object()
        },
        Err(error) => {
            let made = Fields::new().with("success", Json::Bool(false)).with(
                "error",
                fields::text(error.as_str()),
            ).object();
            assert(made@->Object_0 =~= unprofiled(error@)->Object_0);
            made
        },
    }
}

/// A speedup that was worked out: the reference's time by the candidate's; `None` where it is not
/// finite.
pub type Speedup = Option<Reading>;

/// Why a speedup is refused, if it is: the reference has no time, or the speedup is not finite.
pub open spec fn speedup_refusal(
    payload: JsonView,
    seconds: Option<ReadingView>,
    speedup: Option<Option<ReadingView>>,
) -> Option<Seq<char>> {
    if seconds is Some && payload.at("reference"@).at("reference_seconds"@).reading() is None {
        Some("reference timing"@)
    } else if speedup == Some(None::<ReadingView>) {
        Some("speedup must be finite"@)
    } else {
        None
    }
}

/// The model of an optional speedup.
pub open spec fn speedup_view(speedup: Option<Speedup>) -> Option<Option<ReadingView>> {
    match speedup {
        Some(speedup) => Some(number::optional_reading(speedup)),
        None => None,
    }
}

/// The outcome of a candidate.
pub open spec fn outcome_record(error: JsonView, failed: bool, speedup: Option<Option<ReadingView>>) -> JsonView {
    JsonView::Object(
        seq![
            (
                "status"@,
                JsonView::Text(
                    if failed {
                        "failed"@
                    } else {
                        "success"@
                    },
                ),
            ),
            (
                "speedup"@,
                match speedup {
                    Some(speedup) => decimal_or_null(speedup),
                    None => JsonView::Null,
                },
            ),
            ("error_context"@, error),
        ],
    )
}

/// The outcome of a candidate.
pub fn record_outcome(error: Json, failed: bool, speedup: &Option<Speedup>) -> (made: Json)
    ensures
        made@ == outcome_record(error@, failed, speedup_view(*speedup)),
{
    let ghost wanted = outcome_record(error@, failed, speedup_view(*speedup))->Object_0;
    let number = match speedup {
        Some(speedup) => decimal(speedup),
        None => Json::Null,
    };
    let made = Fields::new().with(
        "status",
        fields::text(
            if failed {
                "failed"
            } else {
                "success"
            },
        ),
    ).with("speedup", number).with("error_context", error).object();
    assert(made@->Object_0 =~= wanted);
    made
}

/// How a candidate was profiled.
pub open spec fn options_record(payload: JsonView, full: bool) -> JsonView {
    JsonView::Object(
        seq![
            (
                "tool_mode"@,
                JsonView::Text(
                    match payload.at("tool_mode"@).text() {
                        Some(mode) => mode,
                        None => "proactive"@,
                    },
                ),
            ),
            ("ncu_full"@, JsonView::Bool(full)),
            ("nsys"@, JsonView::Bool(false)),
        ],
    )
}

/// How a candidate was profiled.
pub fn record_options(payload: &Json, full: bool) -> (made: Json)
    ensures
        made@ == options_record(payload@, full),
{
    let mode = match payload.at("tool_mode").text() {
        Some(mode) => mode,
        None => "proactive",
    };
    let made = Fields::new().with("tool_mode", fields::text(mode)).with(
        "ncu_full",
        Json::Bool(full),
    ).with("nsys", Json::Bool(false)).object();
    assert(made@->Object_0 =~= options_record(payload@, full)->Object_0);
    made
}

/// The models of files, each with its digest.
pub open spec fn pairs_view(artifacts: Seq<(String, String)>) -> Seq<(Seq<char>, Seq<char>)> {
    Seq::new(artifacts.len(), |i: int| (artifacts[i].0@, artifacts[i].1@))
}

/// The files that a build left behind, each with its digest.
pub open spec fn artifact_records(artifacts: Seq<(Seq<char>, Seq<char>)>) -> JsonView {
    JsonView::Array(
        Seq::new(
            artifacts.len(),
            |i: int|
                JsonView::Object(
                    seq![
                        ("path"@, JsonView::Text(artifacts[i].0)),
                        ("sha256"@, JsonView::Text(artifacts[i].1)),
                    ],
                ),
        ),
    )
}

fn record_artifacts(artifacts: &Vec<(String, String)>) -> (made: Json)
    ensures
        made@ == artifact_records(pairs_view(artifacts@)),
{
    broadcast use json::array_view;

    let ghost all = artifact_records(pairs_view(artifacts@))->Array_0;
    let mut list: Vec<Json> = Vec::new();
    let mut index: usize = 0;
    while index < artifacts.len()
        invariant
            index <= artifacts@.len(),
            all == artifact_records(pairs_view(artifacts@))->Array_0,
            list@.len() == index,
            forall|i: int| 0 <= i < index ==> (#[trigger] list@[i])@ == all[i],
        decreases artifacts@.len() - index,
    {
        let made = Fields::new().with("path", fields::text(artifacts[index].0.as_str())).with(
            "sha256",
            fields::text(artifacts[index].1.as_str()),
        ).object();
        assert(made@->Object_0 =~= all[index as int]->Object_0);
        list.push(made);
        index += 1;
    }
    let made = Json::Array(list);
    assert(made@->Array_0 =~= all);
    made
}

/// What a candidate was built with.
pub open spec fn build_record(runtime: JsonView, artifacts: Seq<(Seq<char>, Seq<char>)>) -> JsonView {
    JsonView::Object(
        seq![
            ("torch_version"@, runtime.at("torch_version"@)),
            ("cuda_version"@, runtime.at("cuda_version"@)),
            ("cuda_arch_list"@, runtime.at("cuda_arch_list"@)),
            ("artifacts"@, artifact_records(artifacts)),
        ],
    )
}

/// The record of a candidate that was evaluated.
pub open spec fn candidate_record(
    payload: JsonView,
    digest: Seq<char>,
    verdict: VerdictView,
    report: JsonView,
    runtime: JsonView,
    artifacts: Seq<(Seq<char>, Seq<char>)>,
    speedup: Option<Option<ReadingView>>,
) -> Result<JsonView, Seq<char>> {
    match speedup_refusal(payload, verdict.seconds, speedup) {
        Some(reason) => Err(reason),
        None => Ok(
            JsonView::Object(
                seq![
                    (
                        "outcome"@,
                        outcome_record(verdict.error, verdict.error != JsonView::Null, speedup),
                    ),
                    ("candidate_seconds"@, decimal_or_null(verdict.seconds)),
                    ("source_sha256"@, JsonView::Text(digest)),
                    ("task_sha256"@, payload.at("problem"@).at("sha256"@)),
                    ("profile"@, report),
                    ("build_identity"@, build_record(runtime, artifacts)),
                    ("validation"@, JsonView::Text("gpu"@)),
                    (
                        "profiling_options"@,
                        options_record(payload, payload.at("ncu_full"@) == JsonView::Bool(true)),
                    ),
                ],
            ),
        ),
    }
}

/// The record of a candidate that was evaluated.
pub fn record_candidate(
    payload: &Json,
    digest: &str,
    verdict: Verdict,
    report: Json,
    runtime: &Json,
    artifacts: &Vec<(String, String)>,
    speedup: Option<Speedup>,
) -> (result: Result<Json, String>)
    ensures
        match result {
            Ok(made) => candidate_record(
                payload@,
                digest@,
                verdict@,
                report@,
                runtime@,
                pairs_view(artifacts@),
                speedup_view(speedup),
            ) == Ok::<JsonView, Seq<char>>(made@),
            Err(error) => candidate_record(
                payload@,
                digest@,
                verdict@,
                report@,
                runtime@,
                pairs_view(artifacts@),
                speedup_view(speedup),
            ) == Err::<JsonView, Seq<char>>(error@),
        },
{
    let ghost whole = candidate_record(
        payload@,
        digest@,
        verdict@,
        report@,
        runtime@,
        pairs_view(artifacts@),
        speedup_view(speedup),
    );
    if verdict.seconds.is_some() && payload.at("reference").at(
        "reference_seconds",
    ).reading().is_none() {
        return Err("reference timing".to_owned());
    }
    if let Some(None) = speedup {
        return Err("speedup must be finite".to_owned());
    }
    let failed = !verdict.error.is_null();
    let build = Fields::new().with("torch_version", runtime.at("torch_version").clone()).with(
        "cuda_version",
        runtime.at("cuda_version").clone(),
    ).with("cuda_arch_list", runtime.at("cuda_arch_list").clone()).with(
        "artifacts",
        record_artifacts(artifacts),
    ).object();
    assert(build@->Object_0 =~= build_record(runtime@, pairs_view(artifacts@))->Object_0);
    let seconds = decimal(&verdict.seconds);
    let made = Fields::new().with("outcome", record_outcome(verdict.error, failed, &speedup)).with(
        "candidate_seconds",
        seconds,
    ).with("source_sha256", fields::text(digest)).with(
        "task_sha256",
        payload.at("problem").at("sha256").clone(),
    ).with("profile", report).with("build_identity", build).with("validation", fields::text("gpu")).with(
        "profiling_options",
        record_options(payload, payload.at("ncu_full").is_true()),
    ).object();
    assert(made@->Object_0 =~= whole->Ok_0->Object_0);
    Ok(made)
}

/// A candidate whose run gave a verdict succeeds exactly if nothing went wrong, and then its time
/// was measured.
pub proof fn success_is_timed(observation: JsonView)
    ensures
        judged(observation) matches Ok(verdict) ==> {
            &&& verdict.error == JsonView::Null ==> verdict.seconds is Some
            &&& verdict.seconds matches Some(seconds) ==> seconds.value.finite()
                && seconds.value.rank > 0
        },
{
}

} // verus!
