//! What holds of evaluations on a GPU.
use crate::gpu;
use crate::gpu::VerdictView;
use crate::gpu::progress;
use crate::gpu::progress::{EvaluationView, EventView, PhaseView};
use crate::gpu_binary::inspection;
use crate::gpu_binary::naming;
use crate::gpu_binary::naming::NamingView;
use crate::gpu_profile::collection;
use crate::identity;
use crate::json;
use crate::json::JsonView;
use crate::number;
use crate::number::{NumberView, ReadingView, ReadingsView};
use crate::numeral;
use crate::outside;
use crate::text::{lemma_surrounds, surrounds};
use crate::written;
use vstd::prelude::*;

verus! {

/// Whether a successful candidate is being profiled.
pub open spec fn profiling(phase: PhaseView) -> bool {
    match phase {
        PhaseView::Benching => true,
        PhaseView::Listing => true,
        PhaseView::Naming(_) => true,
        PhaseView::Writing(_) => true,
        PhaseView::Seeking(_) => true,
        PhaseView::Collecting(_) => true,
        PhaseView::Gathering(_) => true,
        PhaseView::Dating(_, _) => true,
        PhaseView::Inspecting(_, _) => true,
        _ => false,
    }
}

/// Whatever goes wrong while a candidate is profiled, its evaluation goes on, and what is known of
/// it stays.
pub proof fn profiling_fails_no_candidate(evaluation: EvaluationView, event: EventView)
    requires
        evaluation.task.candidate,
        evaluation.task.payload.at("source"@).text() is Some,
        profiling(evaluation.phase),
        progress::admitted(evaluation.phase, event),
    ensures
        !(progress::advanced(evaluation, event).1 is Abort),
        progress::advanced(evaluation, event).0.task == evaluation.task,
        profiling(progress::advanced(evaluation, event).0.phase) || progress::advanced(
            evaluation,
            event,
        ).0.phase is Rereading,
{
}

/// A candidate that failed is not profiled: its source is looked at once more, and its report is
/// null.
pub proof fn failures_are_not_profiled(evaluation: EvaluationView, observation: JsonView)
    requires
        evaluation.task.candidate,
        evaluation.task.payload.at("source"@).text() is Some,
        evaluation.phase is Observing,
        gpu::judged(observation) matches Ok(verdict) && verdict.error != JsonView::Null,
    ensures
        progress::advanced(evaluation, EventView::Observed(Ok(observation))).0.phase
            == PhaseView::Rereading(JsonView::Null),
{
}

/// A candidate whose source changed meanwhile is refused, and so is whatever belongs to a task
/// whose file changed.
pub proof fn changes_are_refused(evaluation: EvaluationView, bytes: Seq<u8>)
    requires
        match evaluation.phase {
            PhaseView::Rereading(_) => outside::sha256(bytes) != evaluation.task.digest,
            PhaseView::Checking => identity::task_refusal(
                evaluation.task.payload.at("problem"@),
                outside::sha256(bytes),
            ) is Some,
            PhaseView::Rechecking(_) => identity::task_refusal(
                evaluation.task.payload.at("problem"@),
                outside::sha256(bytes),
            ) is Some,
            _ => false,
        },
    ensures
        progress::advanced(evaluation, EventView::Bytes(Ok(bytes))).1 is Abort,
{
}

/// A record that completes an evaluation names its task, and a candidate's names the source that
/// was evaluated and says that it succeeded exactly if nothing went wrong.
pub proof fn records_are_identified(evaluation: EvaluationView, event: EventView)
    requires
        progress::admitted(evaluation.phase, event),
        progress::advanced(evaluation, event).1 is Finish,
    ensures
        ({
            let task = evaluation.task;
            let record = progress::advanced(evaluation, event).1->Finish_0;
            &&& record is Object
            &&& match evaluation.phase {
                PhaseView::Digesting(_, _, _) => {
                    &&& record->Object_0[2] == ("source_sha256"@, JsonView::Text(task.digest))
                    &&& record->Object_0[3] == (
                        "task_sha256"@,
                        task.payload.at("problem"@).at("sha256"@),
                    )
                    &&& record->Object_0[0].1 is Object
                    &&& record->Object_0[0].1->Object_0[0] == (
                        "status"@,
                        JsonView::Text(
                            if task.verdict.error == JsonView::Null {
                                "success"@
                            } else {
                                "failed"@
                            },
                        ),
                    )
                },
                _ => record->Object_0[2] == (
                    "task_sha256"@,
                    task.payload.at("problem"@).at("sha256"@),
                ),
            }
        }),
{
}

/// How far a phase is from the end.
pub open spec fn rank(phase: PhaseView) -> nat {
    match phase {
        PhaseView::Opening => 21,
        PhaseView::Checking => 20,
        PhaseView::Sourcing => 19,
        PhaseView::Observing => 18,
        PhaseView::Probing => 17,
        PhaseView::Drafting(_, _) => 16,
        PhaseView::Benching => 15,
        PhaseView::Listing => 14,
        PhaseView::Naming(_) => 13,
        PhaseView::Writing(_) => 12,
        PhaseView::Seeking(_) => 11,
        PhaseView::Collecting(_) => 10,
        PhaseView::Summing(_) => 9,
        PhaseView::Gathering(_) => 8,
        PhaseView::Dating(_, _) => 7,
        PhaseView::Inspecting(_, _) => 6,
        PhaseView::Rereading(_) => 5,
        PhaseView::Rechecking(_) => 4,
        PhaseView::Weighing(_) => 3,
        PhaseView::Keeping(_, _) => 2,
        PhaseView::Digesting(_, _, _) => 1,
        PhaseView::Over => 0,
    }
}

/// How many processes a naming of kernels may still run.
pub open spec fn processes(naming: NamingView) -> int {
    3 * (naming.libraries.len() - naming.position) - (match naming.stage {
        naming::StageView::Symbols => 0int,
        naming::StageView::Plain => 1int,
        naming::StageView::Usage(_) => 2int,
    })
}

/// How many steps a phase may still take before the next one.
pub open spec fn steps(phase: PhaseView) -> int {
    match phase {
        PhaseView::Naming(naming) => processes(naming),
        PhaseView::Collecting(collection) => match collection.stage {
            collection::StageView::Measuring => 5,
            collection::StageView::Tabling => 4,
            collection::StageView::Ruling(_) => 3,
            collection::StageView::Looking(_) => 2,
            collection::StageView::Telling(_) => 1,
        },
        PhaseView::Inspecting(_, inspection) => match inspection.stage {
            inspection::StageView::Symbols => 3,
            inspection::StageView::Listing => 2,
            inspection::StageView::Dumping(_) => 1,
        },
        _ => 1,
    }
}

/// Every evaluation comes to an end, whatever comes of the work: each step brings it to a later
/// phase, or leaves fewer steps in the phase, of which there is one at least; and an evaluation
/// that is over is complete or has failed.
pub proof fn evaluations_end(evaluation: EvaluationView, event: EventView)
    requires
        progress::sound(evaluation),
        progress::admitted(evaluation.phase, event),
    ensures
        ({
            let (after, work) = progress::advanced(evaluation, event);
            &&& steps(evaluation.phase) > 0
            &&& rank(after.phase) < rank(evaluation.phase) || (rank(after.phase) == rank(
                evaluation.phase,
            ) && steps(after.phase) < steps(evaluation.phase))
            &&& after.phase is Over <==> (work is Finish || work is Abort)
        }),
{
}

/// What a metric shows: zero where there is none, the number that it is, or what its text shows.
pub open spec fn shows(values: JsonView, key: Seq<char>, readings: ReadingsView) -> Option<
    Option<ReadingView>,
> {
    match values.at(key) {
        JsonView::Null => Some(Some(number::integer_reading(0))),
        JsonView::Number(NumberView::Decimal(reading)) => Some(Some(reading)),
        JsonView::Number(NumberView::Integer(_, Some(reading))) => Some(Some(reading)),
        JsonView::Text(held) => number::read_from(readings, held),
        _ => None,
    }
}

/// A number as a document holds it, null where it is not finite.
pub open spec fn held(reading: Option<ReadingView>) -> JsonView {
    match reading {
        Some(reading) => JsonView::Number(NumberView::Decimal(reading)),
        None => JsonView::Null,
    }
}

/// The summary of a profile that succeeded is about its first kernel: it has that kernel's name,
/// under each of its keys the number that the kernel's metrics show for it, and all the metrics; it
/// is refused exactly if one of the four metrics shows no number.
pub proof fn summaries_show_the_first_kernel(
    report: JsonView,
    readings: ReadingsView,
    latency: Option<ReadingView>,
)
    requires
        report.at("success"@) == JsonView::Bool(true),
        report.at("metrics"@) matches JsonView::Object(metrics) && metrics.len() > 0,
    ensures
        ({
            let (name, values) = report.at("metrics"@)->Object_0[0];
            let sm = shows(values, "sm__throughput.avg.pct_of_peak_sustained_elapsed"@, readings);
            let dram = shows(
                values,
                "dram__throughput.avg.pct_of_peak_sustained_elapsed"@,
                readings,
            );
            let time = shows(values, "gpu__time_duration.sum"@, readings);
            let warps = shows(
                values,
                "sm__warps_active.avg.pct_of_peak_sustained_active"@,
                readings,
            );
            match gpu::reference_summary(report, readings, latency) {
                Ok(summary) => {
                    &&& sm is Some && dram is Some && time is Some && warps is Some
                    &&& summary.at("success"@) == JsonView::Bool(true)
                    &&& summary.at("metrics"@) == report.at("metrics"@)
                    &&& summary.at("kernel_name"@) == JsonView::Text(name)
                    &&& summary.at("sm_throughput"@) == held(sm->Some_0)
                    &&& summary.at("dram_throughput"@) == held(dram->Some_0)
                    &&& summary.at("occupancy"@) == held(warps->Some_0)
                    &&& summary.at("latency_ms"@) == held(latency)
                },
                Err(reason) => {
                    &&& sm is None || dram is None || time is None || warps is None
                    &&& reason == "numeric reference metric"@
                },
            }
        }),
{
    if let Ok(summary) = gpu::reference_summary(report, readings, latency) {
        let list = summary->Object_0;
        reveal_strlit("success");
        reveal_strlit("metrics");
        reveal_strlit("kernel_name");
        reveal_strlit("sm_throughput");
        reveal_strlit("dram_throughput");
        reveal_strlit("latency_ms");
        reveal_strlit("occupancy");
        assert("success"@[0] != "metrics"@[0]);
        assert(list[0].0 == "success"@);
        json::lemma_at(list, 0);
        assert(list[1].0 == "metrics"@);
        json::lemma_at(list, 1);
        assert(list[2].0 == "kernel_name"@);
        json::lemma_at(list, 2);
        assert(list[3].0 == "sm_throughput"@);
        json::lemma_at(list, 3);
        assert(list[4].0 == "dram_throughput"@);
        json::lemma_at(list, 4);
        assert(list[5].0 == "latency_ms"@);
        json::lemma_at(list, 5);
        assert(list[6].0 == "occupancy"@);
        json::lemma_at(list, 6);
    }
}

/// The summary of a profile that failed, or that has no metrics, says why and nothing else.
pub proof fn summaries_say_why_there_are_none(
    report: JsonView,
    readings: ReadingsView,
    latency: Option<ReadingView>,
)
    ensures
        ({
            let summary = gpu::reference_summary(report, readings, latency);
            let failed = report.at("success"@) != JsonView::Bool(true);
            &&& failed ==> {
                &&& summary matches Ok(JsonView::Object(list)) && list.len() == 1
                &&& summary->Ok_0.get("error"@) == Some(report.at("error"@))
            }
            &&& !failed && !(report.at("metrics"@) is Object) ==> summary == Err::<
                JsonView,
                Seq<char>,
            >("NCU metrics"@)
            &&& !failed && report.at("metrics"@) == JsonView::Object(Seq::empty()) ==> {
                &&& summary matches Ok(JsonView::Object(list)) && list.len() == 1
                &&& summary->Ok_0.get("error"@) == Some(
                    JsonView::Text("No metrics collected by NCU"@),
                )
            }
        }),
{
    if let Ok(JsonView::Object(list)) = gpu::reference_summary(report, readings, latency) {
        if list.len() == 1 {
            json::lemma_at(list, 0);
        }
    }
}

/// A time is none exactly where the value is null, and the number that the value is exactly where
/// that is finite and positive; all else is refused.
pub proof fn times_are_positive(value: JsonView, label: Seq<char>)
    ensures
        match gpu::timing(value, label) {
            Ok(None) => value == JsonView::Null,
            Ok(Some(reading)) => {
                &&& reading.value.rank > 0
                &&& reading.value.finite()
                &&& value == JsonView::Number(NumberView::Decimal(reading)) || (value matches JsonView::Number(
                NumberView::Integer(_, Some(shown))) && shown == reading)
            },
            Err(reason) => {
                &&& reason == label + " timing must be finite and positive"@
                &&& value != JsonView::Null
                &&& value matches JsonView::Number(NumberView::Decimal(reading))
                    ==> !(reading.value.rank > 0 && reading.value.finite())
                &&& value matches JsonView::Number(NumberView::Integer(_, Some(reading)))
                    ==> !(reading.value.rank > 0 && reading.value.finite())
            },
        },
{
}

/// What is said of a candidate: its exception if it raised one, nothing if its result is correct,
/// else the comparison's message, an error of correctness exactly if it speaks of a numerical error,
/// and the largest difference where the comparison has details.
pub proof fn wrong_results_are_told(observation: JsonView)
    ensures
        ({
            let comparison = observation.at("comparison"@);
            let exception = observation.at("exception"@);
            let correct = comparison.at("correct"@) == JsonView::Bool(true);
            let said = gpu::error_of(observation);
            &&& exception != JsonView::Null ==> said == Ok::<JsonView, Seq<char>>(exception)
            &&& exception == JsonView::Null && correct ==> said == Ok::<JsonView, Seq<char>>(
                JsonView::Null,
            )
            &&& exception == JsonView::Null && !correct ==> match comparison.at("message"@) {
                JsonView::Text(message) => {
                    &&& said is Ok
                    &&& said->Ok_0.at("error_message"@) == JsonView::Text(message)
                    &&& said->Ok_0.at("error_type"@) == JsonView::Text(
                        if surrounds(message, "Numerical error"@) {
                            "correctness_error"@
                        } else {
                            "execution_error"@
                        },
                    )
                    &&& match comparison.at("details"@) {
                        JsonView::Object(details) => if details.len() == 0 {
                            said->Ok_0.get("max_diff"@) is None
                        } else {
                            said->Ok_0.get("max_diff"@) == Some(
                                match comparison.at("details"@).get("max_diff"@) {
                                    Some(value) => value,
                                    None => held(Some(number::integer_reading(0))),
                                },
                            )
                        },
                        _ => said->Ok_0.get("max_diff"@) is None,
                    }
                },
                _ => said == Err::<JsonView, Seq<char>>("workload comparison result"@),
            }
        }),
{
    let comparison = observation.at("comparison"@);
    if observation.at("exception"@) == JsonView::Null && comparison.at("correct"@)
        != JsonView::Bool(true) {
        if let JsonView::Text(message) = comparison.at("message"@) {
            lemma_surrounds(message, "Numerical error"@);
            let list = gpu::error_of(observation)->Ok_0->Object_0;
            reveal_strlit("error_type");
            reveal_strlit("error_message");
            assert(list[0].0 == "error_type"@);
            json::lemma_at(list, 0);
            assert(list[1].0 == "error_message"@);
            json::lemma_at(list, 1);
            reveal_strlit("max_diff");
            json::lemma_place(list, "max_diff"@);
            if list.len() == 3 {
                assert(list[2].0 == "max_diff"@);
                json::lemma_at(list, 2);
            }
        }
    }
}

/// A verdict on a candidate has what went wrong and its time; there is none where the comparison
/// tells nothing, where the time is refused, and where nothing went wrong and there is no time.
pub proof fn verdicts_are_complete(observation: JsonView)
    ensures
        ({
            let said = gpu::error_of(observation);
            let time = gpu::timing(observation.at("seconds"@), "candidate"@);
            match gpu::judged(observation) {
                Ok(verdict) => {
                    &&& said == Ok::<JsonView, Seq<char>>(verdict.error)
                    &&& time == Ok::<Option<ReadingView>, Seq<char>>(verdict.seconds)
                    &&& !(verdict.error == JsonView::Null && verdict.seconds is None)
                },
                Err(reason) => {
                    ||| said == Err::<JsonView, Seq<char>>(reason)
                    ||| said is Ok && time == Err::<Option<ReadingView>, Seq<char>>(reason)
                    ||| {
                        &&& said == Ok::<JsonView, Seq<char>>(JsonView::Null)
                        &&& observation.at("seconds"@) == JsonView::Null
                        &&& reason == "successful candidate has no timing"@
                    }
                },
            }
        }),
{
}

/// The time of a reference is refused where an exception was raised or there is no positive time.
pub proof fn references_are_timed(observation: JsonView)
    ensures
        ({
            let exception = observation.at("exception"@);
            let seconds = observation.at("seconds"@);
            match gpu::reference_time(observation) {
                Ok(time) => {
                    &&& exception == JsonView::Null
                    &&& seconds.reading() == Some(time)
                    &&& time.value.rank > 0 && time.value.finite()
                },
                Err(reason) => {
                    &&& exception != JsonView::Null ==> reason == "reference workload: "@
                        + written::compact(exception)
                    &&& exception == JsonView::Null ==> reason
                        == "reference timing must be finite and positive"@ && (seconds.reading() is None
                        || !(seconds.reading()->Some_0.value.rank > 0
                        && seconds.reading()->Some_0.value.finite()))
                },
            }
        }),
{
    assert("reference"@ + " timing must be finite and positive"@
        =~= "reference timing must be finite and positive"@) by {
        reveal_strlit("reference");
        reveal_strlit(" timing must be finite and positive");
        reveal_strlit("reference timing must be finite and positive");
    }
}

/// What a workload is asked to do: what its payload says, as a candidate or as a reference, with
/// fixed settings; the architecture is set for candidates alone.
pub proof fn workloads_are_settled(payload: JsonView, candidate: bool, key: Seq<char>)
    ensures
        ({
            let request = gpu::request_of(payload, candidate);
            let settings = request.at("settings"@);
            &&& request.at("operation"@) == JsonView::Text(
                if candidate {
                    "candidate"@
                } else {
                    "reference"@
                },
            )
            &&& key != "operation"@ && key != "settings"@ ==> request.at(key) == payload.at(key)
            &&& settings.at("seed"@).natural() == Some(42u64)
            &&& settings.at("warmup"@).natural() == Some(5u64)
            &&& settings.at("trials"@).natural() == Some(5u64)
            &&& settings.at("set_arch"@) == JsonView::Bool(candidate)
            &&& settings.at("time_numerical_mismatch"@) == JsonView::Bool(true)
            &&& settings.at("rtol"@).reading() matches Some(reading) && reading.text == "0.001"@
                && reading.value.rank == 0x3f50_624d_d2f1_a9fc
            &&& settings.at("atol"@).reading() matches Some(reading) && reading.text == "0.01"@
                && reading.value.rank == 0x3f84_7ae1_47ae_147b
        }),
{
    let fields = gpu::payload_fields(payload);
    let operation = JsonView::Text(
        if candidate {
            "candidate"@
        } else {
            "reference"@
        },
    );
    let first = json::with_field(fields, "operation"@, operation);
    let list = gpu::settings(candidate)->Object_0;
    reveal_strlit("seed");
    reveal_strlit("rtol");
    reveal_strlit("atol");
    reveal_strlit("warmup");
    reveal_strlit("trials");
    reveal_strlit("set_arch");
    reveal_strlit("time_numerical_mismatch");
    assert("seed"@[0] != "rtol"@[0]);
    assert("seed"@[0] != "atol"@[0]);
    assert("rtol"@[0] != "atol"@[0]);
    assert("warmup"@[0] != "trials"@[0]);
    assert(list[0].0 == "seed"@);
    json::lemma_at(list, 0);
    assert(list[1].0 == "rtol"@);
    json::lemma_at(list, 1);
    assert(list[2].0 == "atol"@);
    json::lemma_at(list, 2);
    assert(list[3].0 == "warmup"@);
    json::lemma_at(list, 3);
    assert(list[4].0 == "trials"@);
    json::lemma_at(list, 4);
    assert(list[5].0 == "set_arch"@);
    json::lemma_at(list, 5);
    assert(list[6].0 == "time_numerical_mismatch"@);
    json::lemma_at(list, 6);
    reveal_strlit("operation");
    reveal_strlit("settings");
    json::lemma_with_field(first, "settings"@, gpu::settings(candidate), "operation"@);
    json::lemma_with_field(first, "settings"@, gpu::settings(candidate), key);
    json::lemma_with_field(fields, "operation"@, operation, key);
    if !(payload is Object) {
        json::lemma_place(fields, key);
    }
    assert("operation"@.len() != "settings"@.len());
}

/// The processes of an evaluation see one device, that of the payload, and build and cache below
/// the evaluation's output; the architecture is handed on where it is known.
pub proof fn processes_are_confined(
    payload: JsonView,
    runtime: JsonView,
    build: Seq<char>,
    cache: Seq<char>,
)
    ensures
        ({
            let environment = gpu::environment_of(payload, runtime, build, cache);
            &&& environment.at("CUDA_VISIBLE_DEVICES"@) == JsonView::Text(
                numeral::decimal(
                    match payload.at("gpu_id"@).natural() {
                        Some(id) => id as nat,
                        None => 0,
                    },
                ),
            )
            &&& environment.at("TORCH_EXTENSIONS_DIR"@) == JsonView::Text(build)
            &&& environment.at("TRITON_CACHE_DIR"@) == JsonView::Text(cache)
            &&& match runtime.at("cuda_arch_list"@) {
                JsonView::Text(arch) => environment.at("TORCH_CUDA_ARCH_LIST"@) == JsonView::Text(
                    arch,
                ),
                _ => environment.get("TORCH_CUDA_ARCH_LIST"@) is None,
            }
        }),
{
    let list = gpu::environment_of(payload, runtime, build, cache)->Object_0;
    reveal_strlit("CUDA_VISIBLE_DEVICES");
    reveal_strlit("TORCH_EXTENSIONS_DIR");
    reveal_strlit("TRITON_CACHE_DIR");
    assert("CUDA_VISIBLE_DEVICES"@[0] != "TORCH_EXTENSIONS_DIR"@[0]);
    assert(list[0].0 == "CUDA_VISIBLE_DEVICES"@);
    json::lemma_at(list, 0);
    assert(list[1].0 == "TORCH_EXTENSIONS_DIR"@);
    json::lemma_at(list, 1);
    assert(list[2].0 == "TRITON_CACHE_DIR"@);
    json::lemma_at(list, 2);
    reveal_strlit("TORCH_CUDA_ARCH_LIST");
    assert("CUDA_VISIBLE_DEVICES"@[0] != "TORCH_CUDA_ARCH_LIST"@[0]);
    assert("TORCH_EXTENSIONS_DIR"@[6] != "TORCH_CUDA_ARCH_LIST"@[6]);
    json::lemma_place(list, "TORCH_CUDA_ARCH_LIST"@);
    if list.len() == 4 {
        assert(list[3].0 == "TORCH_CUDA_ARCH_LIST"@);
        json::lemma_at(list, 3);
    }
}

/// The record of a reference has its time, its profile, the digest of its task and how it was
/// evaluated; where there is no profiler its profile says so, and all its numbers are zero.
pub proof fn references_are_recorded(
    seconds: ReadingView,
    profile: JsonView,
    problem: JsonView,
    validation: Seq<char>,
)
    ensures
        ({
            let record = gpu::reference_record(seconds, profile, problem, validation);
            &&& record.at("reference_seconds"@) == held(Some(seconds))
            &&& record.at("profile"@) == profile
            &&& record.at("task_sha256"@) == problem.at("sha256"@)
            &&& record.at("validation"@) == JsonView::Text(validation)
        }),
        ({
            let profile = gpu::no_profiler();
            let zero = held(Some(number::integer_reading(0)));
            &&& profile.at("error"@) == JsonView::Text("NCU not available on this system"@)
            &&& profile.at("sm_throughput"@) == zero
            &&& profile.at("dram_throughput"@) == zero
            &&& profile.at("latency_ms"@) == zero
            &&& profile.at("occupancy"@) == zero
        }),
{
    let list = gpu::reference_record(seconds, profile, problem, validation)->Object_0;
    reveal_strlit("reference_seconds");
    reveal_strlit("profile");
    reveal_strlit("task_sha256");
    reveal_strlit("validation");
    assert(list[0].0 == "reference_seconds"@);
    json::lemma_at(list, 0);
    assert(list[1].0 == "profile"@);
    json::lemma_at(list, 1);
    assert(list[2].0 == "task_sha256"@);
    json::lemma_at(list, 2);
    assert(list[3].0 == "validation"@);
    json::lemma_at(list, 3);
    let none = gpu::no_profiler()->Object_0;
    reveal_strlit("error");
    reveal_strlit("sm_throughput");
    reveal_strlit("dram_throughput");
    reveal_strlit("latency_ms");
    reveal_strlit("occupancy");
    assert(none[0].0 == "error"@);
    json::lemma_at(none, 0);
    assert(none[1].0 == "sm_throughput"@);
    json::lemma_at(none, 1);
    assert(none[2].0 == "dram_throughput"@);
    json::lemma_at(none, 2);
    assert(none[3].0 == "latency_ms"@);
    json::lemma_at(none, 3);
    assert(none[4].0 == "occupancy"@);
    json::lemma_at(none, 4);
}

/// The report on a candidate is its profile with what is known of its instructions, or says why it
/// could not be profiled.
pub proof fn candidates_are_reported_on(
    profile: Result<JsonView, Seq<char>>,
    instructions: JsonView,
    key: Seq<char>,
)
    ensures
        ({
            let report = gpu::candidate_report(profile, instructions);
            match profile {
                Ok(profile) => {
                    &&& report.at("sass"@) == instructions
                    &&& key != "sass"@ ==> report.at(key) == profile.at(key)
                },
                Err(reason) => {
                    &&& report.at("success"@) == JsonView::Bool(false)
                    &&& report.at("error"@) == JsonView::Text(reason)
                },
            }
        }),
{
    match profile {
        Ok(profile) => {
            let fields = gpu::payload_fields(profile);
            json::lemma_with_field(fields, "sass"@, instructions, key);
            if !(profile is Object) {
                json::lemma_place(fields, key);
            }
        },
        Err(reason) => {
            let list = gpu::unprofiled(reason)->Object_0;
            reveal_strlit("success");
            reveal_strlit("error");
            assert(list[0].0 == "success"@);
            json::lemma_at(list, 0);
            assert(list[1].0 == "error"@);
            json::lemma_at(list, 1);
        },
    }
}

/// The record of a candidate says whether it succeeded and how fast it is, names its source and its
/// task, and holds its profile, what it was built with and how it was profiled; it is refused
/// exactly if a time has no time of the reference to be measured by, or the speedup is not finite.
pub proof fn candidates_are_recorded(
    payload: JsonView,
    digest: Seq<char>,
    verdict: VerdictView,
    report: JsonView,
    runtime: JsonView,
    artifacts: Seq<(Seq<char>, Seq<char>)>,
    speedup: Option<Option<ReadingView>>,
)
    ensures
        ({
            let unmeasured = verdict.seconds is Some && payload.at("reference"@).at(
                "reference_seconds"@,
            ).reading() is None;
            match gpu::candidate_record(
                payload,
                digest,
                verdict,
                report,
                runtime,
                artifacts,
                speedup,
            ) {
                Ok(record) => {
                    let outcome = record.at("outcome"@);
                    let build = record.at("build_identity"@);
                    let options = record.at("profiling_options"@);
                    &&& !unmeasured && speedup != Some(None::<ReadingView>)
                    &&& outcome.at("status"@) == JsonView::Text(
                        if verdict.error == JsonView::Null {
                            "success"@
                        } else {
                            "failed"@
                        },
                    )
                    &&& outcome.at("speedup"@) == (match speedup {
                        Some(Some(reading)) => JsonView::Number(NumberView::Decimal(reading)),
                        _ => JsonView::Null,
                    })
                    &&& outcome.at("error_context"@) == verdict.error
                    &&& record.at("candidate_seconds"@) == held(verdict.seconds)
                    &&& record.at("source_sha256"@) == JsonView::Text(digest)
                    &&& record.at("task_sha256"@) == payload.at("problem"@).at("sha256"@)
                    &&& record.at("profile"@) == report
                    &&& record.at("validation"@) == JsonView::Text("gpu"@)
                    &&& build.at("torch_version"@) == runtime.at("torch_version"@)
                    &&& build.at("cuda_version"@) == runtime.at("cuda_version"@)
                    &&& build.at("cuda_arch_list"@) == runtime.at("cuda_arch_list"@)
                    &&& options.at("tool_mode"@) == (match payload.at("tool_mode"@) {
                        JsonView::Text(mode) => JsonView::Text(mode),
                        _ => JsonView::Text("proactive"@),
                    })
                    &&& options.at("ncu_full"@) == JsonView::Bool(
                        payload.at("ncu_full"@) == JsonView::Bool(true),
                    )
                    &&& options.at("nsys"@) == JsonView::Bool(false)
                    &&& build.at("artifacts"@) matches JsonView::Array(kept)
                    &&& kept.len() == artifacts.len()
                    &&& forall|i: int|
                        0 <= i < artifacts.len() ==> (#[trigger] kept[i]).at("path"@)
                            == JsonView::Text(artifacts[i].0) && kept[i].at("sha256"@)
                            == JsonView::Text(artifacts[i].1)
                },
                Err(reason) => {
                    &&& unmeasured ==> reason == "reference timing"@
                    &&& !unmeasured ==> speedup == Some(None::<ReadingView>) && reason
                        == "speedup must be finite"@
                },
            }
        }),
{
    if let Ok(record) = gpu::candidate_record(
        payload,
        digest,
        verdict,
        report,
        runtime,
        artifacts,
        speedup,
    ) {
        let list = record->Object_0;
        assert(list == seq![
            list[0],
            list[1],
            list[2],
            list[3],
            list[4],
            list[5],
            list[6],
            list[7],
        ]);
        reveal_strlit("outcome");
        reveal_strlit("candidate_seconds");
        reveal_strlit("source_sha256");
        reveal_strlit("task_sha256");
        reveal_strlit("profile");
        reveal_strlit("build_identity");
        reveal_strlit("validation");
        reveal_strlit("profiling_options");
        assert("outcome"@[0] != "profile"@[0]);
        assert("candidate_seconds"@[0] != "profiling_options"@[0]);
        assert(list[0].0 == "outcome"@);
        json::lemma_at(list, 0);
        assert(list[1].0 == "candidate_seconds"@);
        json::lemma_at(list, 1);
        assert(list[2].0 == "source_sha256"@);
        json::lemma_at(list, 2);
        assert(list[3].0 == "task_sha256"@);
        json::lemma_at(list, 3);
        assert(list[4].0 == "profile"@);
        json::lemma_at(list, 4);
        assert(list[5].0 == "build_identity"@);
        json::lemma_at(list, 5);
        assert(list[6].0 == "validation"@);
        json::lemma_at(list, 6);
        assert(list[7].0 == "profiling_options"@);
        json::lemma_at(list, 7);
        let outcome = list[0].1->Object_0;
        reveal_strlit("status");
        reveal_strlit("speedup");
        reveal_strlit("error_context");
        assert(outcome[0].0 == "status"@);
        json::lemma_at(outcome, 0);
        assert(outcome[1].0 == "speedup"@);
        json::lemma_at(outcome, 1);
        assert(outcome[2].0 == "error_context"@);
        json::lemma_at(outcome, 2);
        let build = list[5].1->Object_0;
        reveal_strlit("torch_version");
        reveal_strlit("cuda_version");
        reveal_strlit("cuda_arch_list");
        reveal_strlit("artifacts");
        assert(build[0].0 == "torch_version"@);
        json::lemma_at(build, 0);
        assert(build[1].0 == "cuda_version"@);
        json::lemma_at(build, 1);
        assert(build[2].0 == "cuda_arch_list"@);
        json::lemma_at(build, 2);
        assert(build[3].0 == "artifacts"@);
        json::lemma_at(build, 3);
        let options = list[7].1->Object_0;
        reveal_strlit("tool_mode");
        reveal_strlit("ncu_full");
        reveal_strlit("nsys");
        assert(options[0].0 == "tool_mode"@);
        json::lemma_at(options, 0);
        assert(options[1].0 == "ncu_full"@);
        json::lemma_at(options, 1);
        assert(options[2].0 == "nsys"@);
        json::lemma_at(options, 2);
        let kept = gpu::artifact_records(artifacts)->Array_0;
        assert forall|i: int| 0 <= i < artifacts.len() implies (#[trigger] kept[i]).at("path"@)
            == JsonView::Text(artifacts[i].0) && kept[i].at("sha256"@) == JsonView::Text(
            artifacts[i].1,
        ) by {
            let pair = kept[i]->Object_0;
            reveal_strlit("path");
            reveal_strlit("sha256");
            assert(pair[0].0 == "path"@);
            json::lemma_at(pair, 0);
            assert(pair[1].0 == "sha256"@);
            json::lemma_at(pair, 1);
        }
    }
}

} // verus!
