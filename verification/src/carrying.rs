//! What holds of carrying out operations: who does, what is asked, and what is made of the answer.
use crate::fields;
use crate::gpu;
use crate::identity;
use crate::json;
use crate::json::{FieldView, JsonView};
use crate::number::{NumberView, ReadingView, ReadingsView};
use crate::numeral;
use crate::outside;
use crate::paths;
use crate::pieces;
use crate::pointer;
use crate::profilers::ncu;
use crate::profilers::rules;
use crate::profilers::sass;
use crate::prompts;
use crate::prompts::Hardware;
use crate::scripts;
use crate::simulated;
use crate::simulated::trial;
use crate::simulated::trial::{EventView, PhaseView, TaskView, TrialView, WorkView};
use crate::startup;
use crate::template;
use crate::template::{TemplateView, TemplatesView};
use crate::text::{lemma_surrounds, surrounds};
use crate::worker;
use crate::worker::Route;
use crate::written;
use vstd::prelude::*;

verus! {

/// The text that a value is, the empty text where it is none.
pub open spec fn held(value: JsonView) -> Seq<char> {
    match value {
        JsonView::Text(text) => text,
        _ => Seq::empty(),
    }
}

/// Who carries out an operation: references and evaluations go to the device or to the scenario by
/// the backend, all other operations that are known by their name alone, and the rest to the script.
pub proof fn operations_are_routed(operation: Seq<char>, payload: JsonView)
    ensures
        ({
            let route = worker::route_of(operation, payload);
            let device = payload.at("backend"@) == JsonView::Text("gpu"@);
            let scenario = payload.at("backend"@) == JsonView::Text("simulated"@);
            let timed = operation == "reference"@ || operation == "evaluate"@;
            &&& route == Route::Analyze <==> operation == "analyze"@
            &&& route == Route::Gpu <==> device && timed
            &&& route == Route::SimulatedReference <==> scenario && operation == "reference"@
            &&& route == Route::SimulatedEvaluate <==> scenario && operation == "evaluate"@
            &&& route == Route::Prepare <==> operation == "prepare"@
            &&& route == Route::Feedback <==> operation == "feedback"@
            &&& route == Route::Tool <==> operation == "tool"@
            &&& route == Route::Validate <==> operation == "validate"@
        }),
{
    reveal_strlit("reference");
    reveal_strlit("evaluate");
    reveal_strlit("analyze");
    reveal_strlit("gpu");
    reveal_strlit("simulated");
    reveal_strlit("prepare");
    reveal_strlit("feedback");
    reveal_strlit("tool");
    reveal_strlit("validate");
    assert("reference"@[0] != "simulated"@[0]);
    assert("evaluate"@[0] != "feedback"@[0]);
    assert("evaluate"@[0] != "validate"@[0]);
    assert("analyze"@[0] != "prepare"@[0]);
    assert("feedback"@[0] != "validate"@[0]);
    assert("reference"@.len() == 9);
    assert("evaluate"@.len() == 8);
    assert("analyze"@.len() == 7);
    assert("gpu"@.len() == 3);
    assert("simulated"@.len() == 9);
    assert("prepare"@.len() == 7);
    assert("feedback"@.len() == 8);
    assert("tool"@.len() == 4);
    assert("validate"@.len() == 8);
}

/// A candidate that takes too long has failed, and its record says so, names it and its task; any
/// other operation that takes too long is refused.
pub proof fn late_candidates_have_failed(operation: Seq<char>, payload: JsonView, limit: int)
    requires
        limit >= 0,
    ensures
        ({
            let told = worker::late(operation, payload, limit);
            &&& operation != "evaluate"@ ==> told == Err::<JsonView, Seq<char>>(
                "GPU evaluation timed out"@,
            )
            &&& operation == "evaluate"@ ==> {
                let record = told->Ok_0;
                let outcome = record.at("outcome"@);
                let context = outcome.at("error_context"@);
                let options = record.at("profiling_options"@);
                &&& told is Ok
                &&& outcome.at("status"@) == JsonView::Text("failed"@)
                &&& outcome.at("speedup"@) == JsonView::Null
                &&& context.at("error_type"@) == JsonView::Text("TimeoutError"@)
                &&& context.at("error_message"@) == JsonView::Text(
                    "Evaluation exceeded "@ + numeral::decimal((limit / 1000) as nat)
                        + "s timeout"@,
                )
                &&& record.at("candidate_seconds"@) == JsonView::Null
                &&& record.at("source_sha256"@) == payload.at("source_sha256"@)
                &&& record.at("task_sha256"@) == payload.at("problem"@).at("sha256"@)
                &&& record.at("build_identity"@) == JsonView::Null
                &&& record.at("profile"@) == JsonView::Null
                &&& record.at("validation"@) == JsonView::Text("gpu"@)
                &&& options.at("tool_mode"@) == payload.at("tool_mode"@)
                &&& options.at("ncu_full"@) == payload.at("ncu_full"@)
                &&& options.at("nsys"@) == JsonView::Bool(false)
            }
        }),
{
    let list = worker::timeout_record(payload, limit)->Object_0;
    reveal_strlit("outcome");
    reveal_strlit("candidate_seconds");
    reveal_strlit("source_sha256");
    reveal_strlit("task_sha256");
    reveal_strlit("build_identity");
    reveal_strlit("profile");
    reveal_strlit("validation");
    reveal_strlit("profiling_options");
    assert("outcome"@[0] != "profile"@[0]);
    assert("candidate_seconds"@[0] != "profiling_options"@[0]);
    assert(list[0].0 == "outcome"@);
    json::lemma_at(list, 0);
    assert(list[1].0 == "candidate_seconds"@);
    json::lemma_at(list, 1);
    assert(list[2].0 == "source_sha256"@);
    json::lemma_at(list, 2);
    assert(list[3].0 == "task_sha256"@);
    json::lemma_at(list, 3);
    assert(list[4].0 == "build_identity"@);
    json::lemma_at(list, 4);
    assert(list[5].0 == "profile"@);
    json::lemma_at(list, 5);
    assert(list[6].0 == "validation"@);
    json::lemma_at(list, 6);
    assert(list[7].0 == "profiling_options"@);
    json::lemma_at(list, 7);
    let outcome = list[0].1->Object_0;
    reveal_strlit("status");
    reveal_strlit("speedup");
    reveal_strlit("error_context");
    assert(outcome[0].0 == "status"@);
    json::lemma_at(outcome, 0);
    assert(outcome[1].0 == "speedup"@);
    json::lemma_at(outcome, 1);
    assert(outcome[2].0 == "error_context"@);
    json::lemma_at(outcome, 2);
    let context = outcome[2].1->Object_0;
    reveal_strlit("error_type");
    reveal_strlit("error_message");
    assert(context[0].0 == "error_type"@);
    json::lemma_at(context, 0);
    assert(context[1].0 == "error_message"@);
    json::lemma_at(context, 1);
    let options = list[7].1->Object_0;
    reveal_strlit("tool_mode");
    reveal_strlit("ncu_full");
    reveal_strlit("nsys");
    assert(options[0].0 == "tool_mode"@);
    json::lemma_at(options, 0);
    assert(options[1].0 == "ncu_full"@);
    json::lemma_at(options, 1);
    assert(options[2].0 == "nsys"@);
    json::lemma_at(options, 2);
}

/// The machine is asked about exactly where the backend is the device, by the device's number.
pub proof fn devices_are_asked_about(payload: JsonView)
    ensures
        match worker::metadata_of(payload) {
            Some(asked) => {
                &&& payload.at("backend"@) == JsonView::Text("gpu"@)
                &&& asked.at("backend"@) == JsonView::Text("gpu"@)
                &&& asked.at("gpu_id"@) == payload.at("gpu_id"@)
            },
            None => payload.at("backend"@) != JsonView::Text("gpu"@),
        },
{
    if let Some(asked) = worker::metadata_of(payload) {
        let list = asked->Object_0;
        reveal_strlit("backend");
        reveal_strlit("gpu_id");
        assert(list[0].0 == "backend"@);
        json::lemma_at(list, 0);
        assert(list[1].0 == "gpu_id"@);
        json::lemma_at(list, 1);
    }
}

/// A command is run in its directory, which alone it may write to, without a network and within its
/// time; its environment is what is given, with the directory for temporary files.
pub proof fn commands_are_confined(
    command: Seq<Seq<char>>,
    directory: Seq<char>,
    temporary: Seq<char>,
    env: Seq<FieldView>,
    limit: nat,
    key: Seq<char>,
)
    ensures
        ({
            let params = worker::exec_record(command, directory, temporary, env, limit);
            let policy = params.at("sandboxPolicy"@);
            &&& params.at("command"@) == JsonView::Array(
                Seq::new(command.len(), |i: int| JsonView::Text(command[i])),
            )
            &&& params.at("cwd"@) == JsonView::Text(directory)
            &&& params.at("timeoutMs"@) == fields::natural_view(limit)
            &&& params.at("outputBytesCap"@).natural() == Some(4194304u64)
            &&& params.at("env"@).at("TMPDIR"@) == JsonView::Text(temporary)
            &&& params.at("env"@).at("PYTHONDONTWRITEBYTECODE"@) == JsonView::Text("1"@)
            &&& key != "TMPDIR"@ && key != "PYTHONDONTWRITEBYTECODE"@ ==> params.at("env"@).at(key)
                == JsonView::Object(env).at(key)
            &&& policy.at("type"@) == JsonView::Text("workspaceWrite"@)
            &&& policy.at("writableRoots"@) == JsonView::Array(seq![JsonView::Text(directory)])
            &&& policy.at("networkAccess"@) == JsonView::Bool(false)
            &&& policy.at("excludeTmpdirEnvVar"@) == JsonView::Bool(true)
            &&& policy.at("excludeSlashTmp"@) == JsonView::Bool(true)
        }),
{
    let list = worker::exec_record(command, directory, temporary, env, limit)->Object_0;
    reveal_strlit("command");
    reveal_strlit("cwd");
    reveal_strlit("timeoutMs");
    reveal_strlit("outputBytesCap");
    reveal_strlit("env");
    reveal_strlit("sandboxPolicy");
    assert("cwd"@[0] != "env"@[0]);
    assert(list[0].0 == "command"@);
    json::lemma_at(list, 0);
    assert(list[1].0 == "cwd"@);
    json::lemma_at(list, 1);
    assert(list[2].0 == "timeoutMs"@);
    json::lemma_at(list, 2);
    assert(list[3].0 == "outputBytesCap"@);
    json::lemma_at(list, 3);
    assert(list[4].0 == "env"@);
    json::lemma_at(list, 4);
    assert(list[5].0 == "sandboxPolicy"@);
    json::lemma_at(list, 5);
    let policy = list[5].1->Object_0;
    reveal_strlit("type");
    reveal_strlit("writableRoots");
    reveal_strlit("networkAccess");
    reveal_strlit("excludeTmpdirEnvVar");
    reveal_strlit("excludeSlashTmp");
    assert("writableRoots"@[0] != "networkAccess"@[0]);
    assert(policy[0].0 == "type"@);
    json::lemma_at(policy, 0);
    assert(policy[1].0 == "writableRoots"@);
    json::lemma_at(policy, 1);
    assert(policy[2].0 == "networkAccess"@);
    json::lemma_at(policy, 2);
    assert(policy[3].0 == "excludeTmpdirEnvVar"@);
    json::lemma_at(policy, 3);
    assert(policy[4].0 == "excludeSlashTmp"@);
    json::lemma_at(policy, 4);
    reveal_strlit("TMPDIR");
    reveal_strlit("PYTHONDONTWRITEBYTECODE");
    assert("TMPDIR"@.len() == 6);
    assert("PYTHONDONTWRITEBYTECODE"@.len() == 23);
    let first = json::with_field(env, "TMPDIR"@, JsonView::Text(temporary));
    json::lemma_with_field(env, "TMPDIR"@, JsonView::Text(temporary), key);
    json::lemma_with_field(first, "PYTHONDONTWRITEBYTECODE"@, JsonView::Text("1"@), key);
    json::lemma_with_field(first, "PYTHONDONTWRITEBYTECODE"@, JsonView::Text("1"@), "TMPDIR"@);
    assert(list[0].1->Array_0 =~= Seq::new(
        command.len(),
        |i: int| JsonView::Text(command[i]),
    ));
}

/// Of two times the one that counts is no longer than either, and is one of them.
pub proof fn the_shorter_time_counts(left: u64, right: u64)
    ensures
        worker::shorter(left, right) <= left && worker::shorter(left, right) <= right,
        worker::shorter(left, right) == left || worker::shorter(left, right) == right,
{
}

/// What the script is asked says its version, its number, the operation and the payload; it is kept
/// under its number and the operation.
pub proof fn requests_are_numbered(id: nat, operation: Seq<char>, payload: JsonView)
    ensures
        ({
            let request = worker::request_record(id, operation, payload);
            &&& request.at("version"@).natural() == Some(1u64)
            &&& request.at("id"@) == fields::natural_view(id)
            &&& request.at("operation"@) == JsonView::Text(operation)
            &&& request.at("payload"@) == payload
        }),
        worker::request_name_of(id, operation) == numeral::padded(id, 6) + "-"@ + operation
            + ".json"@,
        worker::directory_name_of(id) == "worker-"@ + numeral::decimal(id),
{
    let list = worker::request_record(id, operation, payload)->Object_0;
    reveal_strlit("version");
    reveal_strlit("id");
    reveal_strlit("operation");
    reveal_strlit("payload");
    assert("version"@[0] != "payload"@[0]);
    assert(list[0].0 == "version"@);
    json::lemma_at(list, 0);
    assert(list[1].0 == "id"@);
    json::lemma_at(list, 1);
    assert(list[2].0 == "operation"@);
    json::lemma_at(list, 2);
    assert(list[3].0 == "payload"@);
    json::lemma_at(list, 3);
}

/// What the script printed counts exactly if it ended well.
pub proof fn failed_scripts_do_not_count(operation: Seq<char>, output: JsonView)
    ensures
        ({
            let ended = output.at("exitCode"@) matches JsonView::Number(
                NumberView::Integer(code, _),
            ) && code == 0;
            match worker::printed(operation, output) {
                Ok(printed) => ended && output.at("stdout"@) == JsonView::Text(printed),
                Err(reason) => {
                    &&& !ended ==> reason == "worker "@ + operation + " failed: "@
                        + written::compact(output.at("stderr"@))
                    &&& ended ==> reason == "missing worker stdout"@ && !(output.at("stdout"@)
                        is Text)
                },
            }
        }),
{
}

/// The script's answer gives a result exactly if it is to this request and names no error.
pub proof fn answers_give_their_result(operation: Seq<char>, id: int, response: JsonView)
    ensures
        ({
            let version = response.at("version"@) matches JsonView::Number(
                NumberView::Integer(held, _),
            ) && held == 1;
            let number = response.at("id"@) matches JsonView::Number(
                NumberView::Integer(held, _),
            ) && held == id;
            match worker::answered(operation, id, Some(response)) {
                Ok(result) => {
                    &&& version && number
                    &&& response.get("error"@) is None
                    &&& response.get("result"@) == Some(result)
                },
                Err(reason) => {
                    &&& !(version && number) ==> reason == "worker response identity mismatch"@
                    &&& version && number && response.get("error"@) is Some ==> reason == "worker "@
                        + operation + ": "@ + written::compact(response.at("error"@))
                    &&& version && number && response.get("error"@) is None ==> reason
                        == "missing worker result"@ && response.get("result"@) is None
                },
            }
        }),
        worker::answered(operation, id, None) == Err::<JsonView, Seq<char>>(
            "invalid or truncated worker response"@,
        ),
{
}

/// A task is refused exactly if its file has another digest than it had when the task was prepared,
/// or if the file is not known; a task without a digest of its file is not looked at.
pub proof fn tasks_are_compared_by_digest(problem: JsonView, now: Seq<char>)
    ensures
        problem.get("file_sha256"@) is None ==> identity::task_path(problem) == Ok::<
            Option<Seq<char>>,
            Seq<char>,
        >(None) && identity::task_refusal(problem, now) is None,
        problem.get("file_sha256"@) is Some ==> match problem.at("file_path"@) {
            JsonView::Text(path) => {
                &&& identity::task_path(problem) == Ok::<Option<Seq<char>>, Seq<char>>(Some(path))
                &&& problem.at("file_sha256"@) == JsonView::Text(now) ==> identity::task_refusal(
                    problem,
                    now,
                ) is None
                &&& problem.at("file_sha256"@) != JsonView::Text(now) ==> identity::task_refusal(
                    problem,
                    now,
                ) == Some("reference file changed after task preparation"@)
            },
            _ => identity::task_path(problem) == Err::<Option<Seq<char>>, Seq<char>>(
                "reference file"@,
            ) && identity::task_refusal(problem, now) == Some("reference file"@),
        },
{
}

/// A candidate is refused exactly if its source has another digest than the payload says, a
/// reference exactly if it belongs to another task, and a candidate once more exactly if its source
/// has changed.
pub proof fn candidates_are_compared_by_digest(payload: JsonView, before: Seq<char>, now: Seq<char>)
    ensures
        identity::candidate_refusal(payload, now) is None <==> payload.at("source_sha256"@)
            == JsonView::Text(now),
        identity::candidate_refusal(payload, now) is Some ==> identity::candidate_refusal(
            payload,
            now,
        ) == Some("candidate source identity mismatch"@),
        identity::reference_refusal(payload) is None <==> payload.at("reference"@).at(
            "task_sha256"@,
        ).equals(payload.at("problem"@).at("sha256"@)),
        identity::reference_refusal(payload) is Some ==> identity::reference_refusal(payload)
            == Some("reference task identity mismatch"@),
        identity::change_refusal(before, now) is None <==> before == now,
        identity::change_refusal(before, now) is Some ==> identity::change_refusal(before, now)
            == Some("candidate source changed during evaluation"@),
{
}

/// As many sessions run at a time as are asked for, but no more than the configuration allows, which
/// is six where it does not say.
pub proof fn sessions_are_limited(asked: usize, limit: Option<usize>)
    ensures
        ({
            let most = match limit {
                Some(most) => most,
                None => 6,
            };
            let count = startup::parallel_of(asked, limit);
            &&& count <= asked && count <= most
            &&& count == asked || count == most
        }),
{
}

/// The root session is started with the model and the provider that are asked for, in the output and
/// without a fallback, and counts exactly if it says that it runs with them and names its thread.
pub proof fn roots_are_started_as_asked(
    model: Seq<char>,
    provider: Seq<char>,
    output: Seq<char>,
    started: JsonView,
)
    ensures
        ({
            let asked = startup::root_record(model, provider, output);
            &&& asked.at("model"@) == JsonView::Text(model)
            &&& asked.at("modelProvider"@) == JsonView::Text(provider)
            &&& asked.at("cwd"@) == JsonView::Text(output)
            &&& asked.at("allowProviderModelFallback"@) == JsonView::Bool(false)
        }),
        ({
            let set = startup::settings(model, provider);
            &&& set.at("model"@) == JsonView::Text(model)
            &&& set.at("model_provider"@) == JsonView::Text(provider)
            &&& set.at("features.memories"@) == JsonView::Bool(false)
        }),
        ({
            let agreed = started.at("model"@) == JsonView::Text(model) && started.at(
                "modelProvider"@,
            ) == JsonView::Text(provider);
            match startup::root_of(started, model, provider) {
                Ok(thread) => agreed && started.at("thread"@).at("id"@) == JsonView::Text(thread),
                Err(reason) => {
                    &&& !agreed ==> reason
                        == "resolved root provider/model differs from requested configuration"@
                    &&& agreed ==> reason == "missing root thread ID"@ && !(started.at("thread"@).at(
                        "id"@,
                    ) is Text)
                },
            }
        }),
{
    let asked = startup::root_record(model, provider, output)->Object_0;
    reveal_strlit("model");
    reveal_strlit("modelProvider");
    reveal_strlit("cwd");
    reveal_strlit("allowProviderModelFallback");
    assert(asked[0].0 == "model"@);
    json::lemma_at(asked, 0);
    assert(asked[1].0 == "modelProvider"@);
    json::lemma_at(asked, 1);
    assert(asked[2].0 == "cwd"@);
    json::lemma_at(asked, 2);
    assert(asked[3].0 == "allowProviderModelFallback"@);
    json::lemma_at(asked, 3);
    let set = startup::settings(model, provider)->Object_0;
    reveal_strlit("model");
    reveal_strlit("model_provider");
    reveal_strlit("features.memories");
    assert(set[0].0 == "model"@);
    json::lemma_at(set, 0);
    assert(set[1].0 == "model_provider"@);
    json::lemma_at(set, 1);
    assert(set[2].0 == "features.memories"@);
    json::lemma_at(set, 2);
}

/// A script is made from its own template, with the reference, the inputs, the source and the
/// numbers of its runs: ten of a reference, one of anything else.
pub proof fn scripts_are_filled_in(
    name: Seq<char>,
    payload: JsonView,
    source_name: Seq<char>,
    templates: TemplatesView,
)
    ensures
        scripts::file_of("reference"@) == Ok::<Seq<char>, Seq<char>>("profile_reference.py"@),
        scripts::file_of("candidate"@) == Ok::<Seq<char>, Seq<char>>("profile_solution.py"@),
        scripts::file_of("benchmark"@) == Ok::<Seq<char>, Seq<char>>("benchmark_solution.py"@),
        name != "reference"@ && name != "candidate"@ && name != "benchmark"@ ==> scripts::file_of(
            name,
        ) == Err::<Seq<char>, Seq<char>>("unknown workload template"@),
        ({
            let problem = payload.at("problem"@);
            scripts::script_told(name, payload, source_name, templates) matches Ok(told) ==> {
                &&& scripts::file_of(name) is Ok
                &&& payload.at("output_dir"@) is Text
                &&& problem.at("input_generator"@) is Text
                &&& problem.at("canonical_solution"@) is Text
                &&& problem.at("file_path"@) is Text
                &&& scripts::without_docstrings(held(problem.at("input_generator"@))) matches Ok(
                    clean,
                )
                &&& template::rendered(
                    template::template_of(templates, name, "workload template"@, 0),
                    seq![
                        ("reference"@, held(problem.at("canonical_solution"@))),
                        ("inputs"@, held(problem.at("input_generator"@))),
                        ("seed"@, "42"@),
                        ("solution_file"@, held(payload.at("source"@))),
                        ("solution_path"@, held(payload.at("source"@))),
                        ("num_warmup"@, "5"@),
                        ("num_trials"@, "5"@),
                        (
                            "num_iterations"@,
                            if name == "reference"@ {
                                "10"@
                            } else {
                                "1"@
                            },
                        ),
                        ("output_name"@, scripts::file_of(name)->Ok_0),
                        ("reference_file_path_str"@, held(problem.at("file_path"@))),
                        ("clean_input_gen"@, clean),
                        ("solution_name"@, source_name),
                    ],
                    "missing script field "@,
                ) == Ok::<Seq<char>, Seq<char>>(told)
            }
        }),
{
    reveal_strlit("reference");
    reveal_strlit("candidate");
    reveal_strlit("benchmark");
    assert("reference"@[0] != "candidate"@[0]);
    assert("reference"@[0] != "benchmark"@[0]);
    assert("candidate"@[0] != "benchmark"@[0]);
    assert("reference"@.len() == 9);
    assert("candidate"@.len() == 9);
    assert("benchmark"@.len() == 9);
    if scripts::script_told(name, payload, source_name, templates) is Ok {
        let problem = payload.at("problem"@);
        let clean = scripts::without_docstrings(held(problem.at("input_generator"@)))->Ok_0;
        let values = scripts::script_values(
            name,
            scripts::file_of(name)->Ok_0,
            held(problem.at("canonical_solution"@)),
            held(problem.at("file_path"@)),
            held(problem.at("input_generator"@)),
            clean,
            held(payload.at("source"@)),
            source_name,
        );
        assert(values =~= seq![
            ("reference"@, held(problem.at("canonical_solution"@))),
            ("inputs"@, held(problem.at("input_generator"@))),
            ("seed"@, "42"@),
            ("solution_file"@, held(payload.at("source"@))),
            ("solution_path"@, held(payload.at("source"@))),
            ("num_warmup"@, "5"@),
            ("num_trials"@, "5"@),
            (
                "num_iterations"@,
                if name == "reference"@ {
                    "10"@
                } else {
                    "1"@
                },
            ),
            ("output_name"@, scripts::file_of(name)->Ok_0),
            ("reference_file_path_str"@, held(problem.at("file_path"@))),
            ("clean_input_gen"@, clean),
            ("solution_name"@, source_name),
        ]);
    }
}

/// The sections of the instructions for each way of asking for candidates, in their order.
pub proof fn instructions_have_their_sections(baseline: Seq<char>)
    ensures
        prompts::sections("initial"@, baseline) == seq![
            ("mode_instructions/"@ + "initial"@ + ".txt"@, false),
            ("dataset_formats/kernelbench_"@ + baseline + ".txt"@, false),
            ("mode_instructions/initial_requirements.txt"@, false),
            ("base/cutlass_setup.txt"@, false),
            ("base/common_pitfalls.txt"@, false),
            ("base/pytorch_integration.txt"@, false),
            ("examples/kernelbench_"@ + baseline + "_example.txt"@, true),
            ("base/output_format.txt"@, false),
        ],
        prompts::sections("repair"@, baseline) == seq![
            ("mode_instructions/"@ + "repair"@ + ".txt"@, false),
            ("base/cutlass_setup.txt"@, false),
            ("base/common_pitfalls.txt"@, false),
            ("base/pytorch_integration.txt"@, false),
            ("base/output_format.txt"@, false),
        ],
        prompts::sections("optimize"@, baseline) == seq![
            ("mode_instructions/"@ + "optimize"@ + ".txt"@, false),
            ("base/optimization_strategies.txt"@, false),
            ("base/cutlass_setup.txt"@, false),
            ("base/pytorch_integration.txt"@, false),
            ("base/output_format.txt"@, false),
        ],
{
    reveal_strlit("initial");
    reveal_strlit("repair");
    reveal_strlit("optimize");
    assert("initial"@.len() == 7);
    assert("repair"@.len() == 6);
    assert("optimize"@.len() == 8);
    assert(prompts::sections("initial"@, baseline) =~= seq![
        ("mode_instructions/"@ + "initial"@ + ".txt"@, false),
        ("dataset_formats/kernelbench_"@ + baseline + ".txt"@, false),
        ("mode_instructions/initial_requirements.txt"@, false),
        ("base/cutlass_setup.txt"@, false),
        ("base/common_pitfalls.txt"@, false),
        ("base/pytorch_integration.txt"@, false),
        ("examples/kernelbench_"@ + baseline + "_example.txt"@, true),
        ("base/output_format.txt"@, false),
    ]);
    assert(prompts::sections("repair"@, baseline) =~= seq![
        ("mode_instructions/"@ + "repair"@ + ".txt"@, false),
        ("base/cutlass_setup.txt"@, false),
        ("base/common_pitfalls.txt"@, false),
        ("base/pytorch_integration.txt"@, false),
        ("base/output_format.txt"@, false),
    ]);
    assert(prompts::sections("optimize"@, baseline) =~= seq![
        ("mode_instructions/"@ + "optimize"@ + ".txt"@, false),
        ("base/optimization_strategies.txt"@, false),
        ("base/cutlass_setup.txt"@, false),
        ("base/pytorch_integration.txt"@, false),
        ("base/output_format.txt"@, false),
    ]);
}

/// The prompts of the sections follow one another; one that is missing is refused, unless it can be
/// left out.
pub proof fn sections_follow_one_another(assets: JsonView, list: Seq<prompts::Section>, at: int)
    requires
        0 <= at < list.len(),
    ensures
        prompts::gathered(assets, list, 0) == Ok::<Seq<Seq<char>>, Seq<char>>(Seq::empty()),
        prompts::gathered(assets, list, at) is Err ==> prompts::gathered(assets, list, at + 1)
            == prompts::gathered(assets, list, at),
        prompts::gathered(assets, list, at) matches Ok(before) ==> match assets.at(list[at].0) {
            JsonView::Text(text) => prompts::gathered(assets, list, at + 1) == Ok::<
                Seq<Seq<char>>,
                Seq<char>,
            >(before.push(text)),
            _ => if list[at].1 {
                prompts::gathered(assets, list, at + 1) == Ok::<Seq<Seq<char>>, Seq<char>>(before)
            } else {
                prompts::gathered(assets, list, at + 1) == Err::<Seq<Seq<char>>, Seq<char>>(
                    "missing prompt "@ + list[at].0,
                )
            },
        },
{
}

/// Instructions are the prompts of their sections with the library's place and the device's features
/// filled in and the format of the answer put in the place of the one that the prompts give; a way of
/// asking or a baseline that is not known is refused.
pub proof fn instructions_are_filled_in(
    assets: JsonView,
    mode: Seq<char>,
    baseline: Seq<char>,
    cutlass: Option<Seq<char>>,
    capability: Seq<u64>,
)
    ensures
        ({
            let told = prompts::instructions(assets, mode, baseline, cutlass, capability);
            let known = mode == "initial"@ || mode == "repair"@ || mode == "optimize"@;
            let based = baseline == "pytorch"@ || baseline == "triton"@;
            let list = prompts::sections(mode, baseline);
            let root = match cutlass {
                Some(root) => if root.len() > 0 {
                    root
                } else {
                    "/path/to/cutlass"@
                },
                None => "/path/to/cutlass"@,
            };
            let hopper = capability.len() == 2 && capability[0] == 9;
            &&& !known ==> told == Err::<Seq<char>, Seq<char>>("invalid candidate mode"@)
            &&& known && !based ==> told == Err::<Seq<char>, Seq<char>>("invalid baseline"@)
            &&& told matches Ok(text) ==> {
                let info = if hopper {
                    held(assets.at("hopper"@))
                } else {
                    ""@
                };
                &&& known && based
                &&& hopper ==> assets.at("hopper"@) is Text
                &&& assets.at("base/output_format.txt"@) is Text
                &&& prompts::gathered(assets, list, list.len() as int) matches Ok(texts)
                &&& text == pieces::replaced(
                    pieces::replaced(
                        pieces::replaced(
                            pieces::joined(texts, "\n\n"@),
                            "{{CUTLASS_ROOT}}"@,
                            root,
                        ),
                        "{{GPU_SPECIFIC_CUTLASS_INFO}}"@,
                        info,
                    ),
                    held(assets.at("base/output_format.txt"@)),
                    "Return exactly one JSON CodeCompletion object with code, approach, and confidence. No completions wrapper or markdown fences."@,
                )
            }
        }),
{
}

/// The hardware whose limits count: what the scenario stands for, or the device by its name, the one
/// with the larger memory where the name is not known; and how it is told of.
pub proof fn hardware_is_known_by_name(backend: JsonView, name: JsonView)
    ensures
        ({
            let hardware = prompts::hardware_of(backend, name);
            let simulated = backend == JsonView::Text("simulated"@);
            &&& hardware == Hardware::Simulated <==> simulated
            &&& hardware == Hardware::B200 <==> !simulated && name == JsonView::Text(
                "NVIDIA B200"@,
            )
            &&& hardware == Hardware::H100 <==> !simulated && name == JsonView::Text(
                "NVIDIA H100 80GB HBM3"@,
            )
        }),
        Hardware::Simulated.title() == "NVIDIA H200 (simulated)"@,
        Hardware::B200.title() == "NVIDIA B200"@,
        Hardware::H100.title() == "NVIDIA H100 80GB HBM3"@,
        Hardware::H200.title() == "NVIDIA H200"@,
        Hardware::Simulated.limits().0 == 412 * Hardware::Simulated.limits().1,
        Hardware::B200.limits().0 * 8 == 4500 * Hardware::B200.limits().1,
        Hardware::H100.limits().0 * 335 == 197900 * Hardware::H100.limits().1,
        Hardware::H200.limits().0 * 480 == 197900 * Hardware::H200.limits().1,
{
    reveal_strlit("NVIDIA B200");
    reveal_strlit("NVIDIA H100 80GB HBM3");
    assert("NVIDIA B200"@.len() == 11);
    assert("NVIDIA H100 80GB HBM3"@.len() == 21);
}

/// A quotient is rounded to the nearest integer, and to the even one of two that are as near.
pub proof fn quotients_are_rounded(dividend: nat, divisor: nat)
    requires
        divisor > 0,
    ensures
        ({
            let near = prompts::rounded(dividend, divisor);
            &&& 2 * dividend <= (2 * near + 1) * divisor
            &&& (2 * near - 1) * divisor <= 2 * dividend
            &&& 2 * dividend == (2 * near + 1) * divisor || 2 * dividend == (2 * near - 1) * divisor
                ==> near % 2 == 0
        }),
{
    let whole = dividend / divisor;
    let rest = dividend % divisor;
    let near = prompts::rounded(dividend, divisor);
    vstd::arithmetic::div_mod::lemma_fundamental_div_mod(dividend as int, divisor as int);
    vstd::arithmetic::div_mod::lemma_mod_bound(dividend as int, divisor as int);
    assert(dividend == divisor * whole + rest);
    assert((2 * whole + 1) * divisor == 2 * (divisor * whole) + divisor) by (nonlinear_arith);
    assert((2 * whole - 1) * divisor == 2 * (divisor * whole) - divisor) by (nonlinear_arith);
    assert((2 * (whole + 1) + 1) * divisor == 2 * (divisor * whole) + 3 * divisor)
        by (nonlinear_arith);
    assert((2 * (whole + 1) - 1) * divisor == 2 * (divisor * whole) + divisor) by (nonlinear_arith);
    assert(near == whole || near == whole + 1);
}

/// The instructions of the classifier are filled in with the hardware and its limits: the ridge of
/// the roofline, four times that, and a quarter of it.
pub proof fn classifiers_are_told_the_limits(hardware: Hardware)
    ensures
        ({
            let values = prompts::reference_values(hardware);
            let (peak, bandwidth) = hardware.limits();
            &&& values.len() == 4
            &&& values[0] == ("gpu_name"@, hardware.title())
            &&& values[1] == (
                "ridge"@,
                numeral::decimal(prompts::rounded(peak, bandwidth)),
            )
            &&& values[2] == (
                "compute"@,
                numeral::decimal(prompts::rounded(4 * peak, bandwidth)),
            )
            &&& values[3] == (
                "memory"@,
                numeral::decimal(prompts::rounded(peak, 4 * bandwidth)),
            )
        }),
{
}

/// What a problem is filled in with: the instructions for each way of asking for candidates, for the
/// classifier and for the profile, and the schemas; what it has under other keys stays.
pub proof fn problems_are_filled_in(
    problem: JsonView,
    payload: JsonView,
    metadata: JsonView,
    assets: JsonView,
    template: Result<TemplateView, Seq<char>>,
    schemas: JsonView,
    key: Seq<char>,
)
    ensures
        prompts::populated(problem, payload, metadata, assets, template, schemas) matches Ok(made)
            ==> {
            let base = if surrounds(
                outside::lowercase(held(problem.at("task_id"@))),
                "_triton"@,
            ) {
                "triton"@
            } else {
                "pytorch"@
            };
            let capability = prompts::naturals_of(metadata.at("capability"@));
            let cutlass = payload.at("cutlass_root"@).text();
            let hardware = prompts::hardware_of(payload.at("backend"@), metadata.at("name"@));
            let told = made.at("instructions"@);
            &&& prompts::instructions(assets, "initial"@, base, cutlass, capability) == Ok::<
                Seq<char>,
                Seq<char>,
            >(held(told.at("initial"@)))
            &&& prompts::instructions(assets, "repair"@, base, cutlass, capability) == Ok::<
                Seq<char>,
                Seq<char>,
            >(held(told.at("repair"@)))
            &&& prompts::instructions(assets, "optimize"@, base, cutlass, capability) == Ok::<
                Seq<char>,
                Seq<char>,
            >(held(told.at("optimize"@)))
            &&& assets.at("reference"@) is Text
            &&& template::rendered(
                template,
                prompts::reference_values(hardware),
                "missing template value "@,
            ) == Ok::<Seq<char>, Seq<char>>(held(made.at("reference_instructions"@)))
            &&& made.at("profile_instructions"@) == assets.at("profile"@)
            &&& made.at("schemas"@) == schemas
            &&& key != "instructions"@ && key != "reference_instructions"@ && key
                != "profile_instructions"@ && key != "schemas"@ ==> made.at(key) == problem.at(key)
        },
{
    if let Ok(made) = prompts::populated(problem, payload, metadata, assets, template, schemas) {
        let lower = outside::lowercase(held(problem.at("task_id"@)));
        lemma_surrounds(lower, "_triton"@);
        let list = prompts::prompts_of(
            problem,
            payload,
            metadata,
            assets,
            template,
            schemas,
        )->Ok_0;
        let before = prompts::problem_fields(problem);
        reveal_strlit("instructions");
        reveal_strlit("reference_instructions");
        reveal_strlit("profile_instructions");
        reveal_strlit("schemas");
        assert("instructions"@.len() == 12);
        assert("reference_instructions"@.len() == 22);
        assert("profile_instructions"@.len() == 20);
        assert("schemas"@.len() == 7);
        assert(list.len() == 4);
        let zero = Seq::<FieldView>::empty();
        let one = seq![list[0]];
        let two = seq![list[0], list[1]];
        let three = seq![list[0], list[1], list[2]];
        assert(list =~= three.push(list[3]));
        assert(three =~= two.push(list[2]));
        assert(two =~= one.push(list[1]));
        assert(one =~= zero.push(list[0]));
        crate::wording::later_fields_go_first(before, three, list[3], key);
        crate::wording::later_fields_go_first(before, three, list[3], "instructions"@);
        crate::wording::later_fields_go_first(before, three, list[3], "reference_instructions"@);
        crate::wording::later_fields_go_first(before, three, list[3], "profile_instructions"@);
        crate::wording::later_fields_go_first(before, two, list[2], key);
        crate::wording::later_fields_go_first(before, two, list[2], "instructions"@);
        crate::wording::later_fields_go_first(before, two, list[2], "reference_instructions"@);
        crate::wording::later_fields_go_first(before, one, list[1], key);
        crate::wording::later_fields_go_first(before, one, list[1], "instructions"@);
        crate::wording::later_fields_go_first(before, zero, list[0], key);
        if !(problem is Object) {
            json::lemma_place(before, key);
        }
        let told = list[0].1->Object_0;
        reveal_strlit("initial");
        reveal_strlit("repair");
        reveal_strlit("optimize");
        assert(told[0].0 == "initial"@);
        json::lemma_at(told, 0);
        assert(told[1].0 == "repair"@);
        json::lemma_at(told, 1);
        assert(told[2].0 == "optimize"@);
        json::lemma_at(told, 2);
    }
}

/// A pointer without tokens points to the whole; each token goes one step down, to a field by its
/// key and to an item by its number, and a pointer that does not begin with a slash points nowhere.
pub proof fn pointers_go_down_step_by_step(
    value: JsonView,
    tokens: Seq<Seq<char>>,
    from: int,
    path: Seq<char>,
    key: Seq<char>,
)
    requires
        0 <= from,
    ensures
        pointer::pointed(value, Seq::empty()) == Some(value),
        path.len() > 0 && path[0] != '/' ==> pointer::pointed(value, path) is None,
        path.len() > 0 && path[0] == '/' ==> pointer::pointed(value, path) == pointer::followed(
            value,
            pieces::pieces(path, '/'),
            1,
        ),
        from >= tokens.len() ==> pointer::followed(value, tokens, from) == Some(value),
        from < tokens.len() ==> match pointer::step(
            value,
            pieces::replaced(pieces::replaced(tokens[from], "~1"@, "/"@), "~0"@, "~"@),
        ) {
            Some(next) => pointer::followed(value, tokens, from) == pointer::followed(
                next,
                tokens,
                from + 1,
            ),
            None => pointer::followed(value, tokens, from) is None,
        },
        value is Object ==> pointer::step(value, key) == value.get(key),
        value matches JsonView::Array(items) ==> match pointer::step(value, key) {
            Some(next) => {
                &&& numeral::all_digits(key)
                &&& key.len() == 1 || key[0] != '0'
                &&& numeral::integer_of(key) matches Some(index)
                &&& 0 <= index < items.len()
                &&& next == items[index]
            },
            None => !numeral::all_digits(key) || (key[0] == '0' && key.len() > 1) || !(
            numeral::integer_of(key) matches Some(index) && 0 <= index < items.len()),
        },
        !(value is Object) && !(value is Array) ==> pointer::step(value, key) is None,
{
}

/// The report of a scenario has its metrics and the names of their kernels, its instructions where
/// it gives any, and its recommendations where the full profile is asked for; it has succeeded
/// exactly if it has metrics.
pub proof fn scenarios_are_reported(
    payload: JsonView,
    names: Seq<Seq<char>>,
    path: Seq<char>,
    assets: JsonView,
    readings: ReadingsView,
)
    ensures
        simulated::scenario_report(payload, names, path, assets, readings) matches Ok(report) ==> {
            let fixture = payload.at("fixture"@);
            let listing = held(fixture.at("sass"@));
            let full = payload.at("ncu_full"@) == JsonView::Bool(true);
            let kernels = report.at("kernel_names"@);
            &&& fixture.at("ncu_csv"@) is Text
            &&& ncu::table_metrics(
                outside::csv_table(ncu::cleaned(held(fixture.at("ncu_csv"@)))),
                names,
                readings,
            ) == Ok::<JsonView, Seq<char>>(report.at("metrics"@))
            &&& report.at("metrics"@) matches JsonView::Object(metrics)
            &&& report.at("success"@) == JsonView::Bool(metrics.len() > 0)
            &&& report.at("error"@) == (if metrics.len() == 0 {
                JsonView::Text("No NCU metrics"@)
            } else {
                JsonView::Null
            })
            &&& report.at("csv_path"@) == JsonView::Text(path)
            &&& kernels matches JsonView::Array(list)
            &&& list.len() == metrics.len()
            &&& forall|i: int|
                0 <= i < list.len() ==> (#[trigger] list[i]) == JsonView::Text(metrics[i].0)
            &&& listing.len() == 0 ==> report.at("sass"@) == JsonView::Null
            &&& listing.len() > 0 ==> sass::sass_record(assets, listing, None) == Ok::<
                JsonView,
                Seq<char>,
            >(report.at("sass"@))
            &&& full ==> rules::rules_record(held(fixture.at("ncu_rules"@)), readings) == Ok::<
                JsonView,
                Seq<char>,
            >(report.at("rule_recommendations"@))
            &&& !full ==> report.at("rule_recommendations"@) == JsonView::Array(Seq::empty())
        },
{
    if let Ok(report) = simulated::scenario_report(payload, names, path, assets, readings) {
        let list = report->Object_0;
        assert(list.len() == 7);
        reveal_strlit("success");
        reveal_strlit("metrics");
        reveal_strlit("kernel_names");
        reveal_strlit("sass");
        reveal_strlit("rule_recommendations");
        reveal_strlit("csv_path");
        reveal_strlit("error");
        assert("success"@[0] != "metrics"@[0]);
        assert(list[0].0 == "success"@);
        json::lemma_at(list, 0);
        assert(list[1].0 == "metrics"@);
        json::lemma_at(list, 1);
        assert(list[2].0 == "kernel_names"@);
        json::lemma_at(list, 2);
        assert(list[3].0 == "sass"@);
        json::lemma_at(list, 3);
        assert(list[4].0 == "rule_recommendations"@);
        json::lemma_at(list, 4);
        assert(list[5].0 == "csv_path"@);
        json::lemma_at(list, 5);
        assert(list[6].0 == "error"@);
        json::lemma_at(list, 6);
    }
}

/// The record of a scenario's reference has its time and a profile of its first kernel: under each
/// key the kernel's metric, zero where it has none.
pub proof fn scenario_references_are_recorded(
    payload: JsonView,
    seconds: ReadingView,
    report: JsonView,
    latency: Option<ReadingView>,
)
    ensures
        ({
            let name = held(report.at("kernel_names"@).item(0));
            let metrics = report.at("metrics"@).at(name);
            let metric = |key: Seq<char>|
                match metrics.get(key) {
                    Some(value) => value,
                    None => fields::natural_view(0),
                };
            let timed = seconds.value.rank > 0 && seconds.value.finite();
            match simulated::reference_record(payload, seconds, report, latency) {
                Ok(record) => {
                    let profile = record.at("profile"@);
                    &&& timed
                    &&& metric("gpu__time_duration.sum"@).reading() is Some
                    &&& record.at("reference_seconds"@) == JsonView::Number(
                        NumberView::Decimal(seconds),
                    )
                    &&& record.at("task_sha256"@) == payload.at("problem"@).at("sha256"@)
                    &&& record.at("validation"@) == JsonView::Text("simulated"@)
                    &&& profile.at("success"@) == report.at("success"@)
                    &&& profile.at("metrics"@) == report.at("metrics"@)
                    &&& profile.at("kernel_name"@) == JsonView::Text(name)
                    &&& profile.at("sm_throughput"@) == metric(
                        "sm__throughput.avg.pct_of_peak_sustained_elapsed"@,
                    )
                    &&& profile.at("dram_throughput"@) == metric(
                        "dram__throughput.avg.pct_of_peak_sustained_elapsed"@,
                    )
                    &&& profile.at("occupancy"@) == metric(
                        "sm__warps_active.avg.pct_of_peak_sustained_active"@,
                    )
                    &&& profile.at("latency_ms"@) == (match latency {
                        Some(reading) => JsonView::Number(NumberView::Decimal(reading)),
                        None => JsonView::Null,
                    })
                },
                Err(reason) => {
                    &&& !timed ==> reason == "reference timing must be finite and positive"@
                    &&& timed ==> reason == "NCU duration"@ && metric(
                        "gpu__time_duration.sum"@,
                    ).reading() is None
                },
            }
        }),
{
    if let Ok(record) = simulated::reference_record(payload, seconds, report, latency) {
        let list = record->Object_0;
        reveal_strlit("reference_seconds");
        reveal_strlit("profile");
        reveal_strlit("task_sha256");
        reveal_strlit("validation");
        assert(list[0].0 == "reference_seconds"@);
        json::lemma_at(list, 0);
        assert(list[1].0 == "profile"@);
        json::lemma_at(list, 1);
        assert(list[2].0 == "task_sha256"@);
        json::lemma_at(list, 2);
        assert(list[3].0 == "validation"@);
        json::lemma_at(list, 3);
        let profile = list[1].1->Object_0;
        reveal_strlit("success");
        reveal_strlit("metrics");
        reveal_strlit("kernel_name");
        reveal_strlit("sm_throughput");
        reveal_strlit("dram_throughput");
        reveal_strlit("latency_ms");
        reveal_strlit("occupancy");
        assert("success"@[0] != "metrics"@[0]);
        assert(profile[0].0 == "success"@);
        json::lemma_at(profile, 0);
        assert(profile[1].0 == "metrics"@);
        json::lemma_at(profile, 1);
        assert(profile[2].0 == "kernel_name"@);
        json::lemma_at(profile, 2);
        assert(profile[3].0 == "sm_throughput"@);
        json::lemma_at(profile, 3);
        assert(profile[4].0 == "dram_throughput"@);
        json::lemma_at(profile, 4);
        assert(profile[5].0 == "latency_ms"@);
        json::lemma_at(profile, 5);
        assert(profile[6].0 == "occupancy"@);
        json::lemma_at(profile, 6);
    }
}

/// The record of a scenario's candidate: it fails exactly if the scenario gives an error, its time
/// is the scenario's, and it is refused where that is not positive, where it succeeds without one,
/// and where the speedup is not finite.
pub proof fn scenario_candidates_are_recorded(
    payload: JsonView,
    digest: Seq<char>,
    report: JsonView,
    speedup: Option<Option<ReadingView>>,
)
    ensures
        ({
            let fixture = payload.at("fixture"@);
            let error = fixture.at("error_context"@);
            let fails = error matches JsonView::Object(list) && list.len() > 0;
            let time = fixture.at("candidate_seconds"@);
            let sound = time == JsonView::Null || (time.reading() matches Some(seconds)
                && seconds.value.finite() && seconds.value.rank > 0);
            match simulated::candidate_record(payload, digest, report, speedup) {
                Ok(record) => {
                    let outcome = record.at("outcome"@);
                    let options = record.at("profiling_options"@);
                    &&& sound
                    &&& fails || time.reading() is Some
                    &&& speedup != Some(None::<ReadingView>)
                    &&& outcome.at("status"@) == JsonView::Text(
                        if fails {
                            "failed"@
                        } else {
                            "success"@
                        },
                    )
                    &&& outcome.at("error_context"@) == error
                    &&& outcome.at("speedup"@) == (match speedup {
                        Some(Some(reading)) => JsonView::Number(NumberView::Decimal(reading)),
                        _ => JsonView::Null,
                    })
                    &&& record.at("candidate_seconds"@) == (match time.reading() {
                        Some(seconds) => JsonView::Number(NumberView::Decimal(seconds)),
                        None => JsonView::Null,
                    })
                    &&& record.at("source_sha256"@) == JsonView::Text(digest)
                    &&& record.at("task_sha256"@) == payload.at("problem"@).at("sha256"@)
                    &&& record.at("build_identity"@) == JsonView::Null
                    &&& record.at("profile"@) == report
                    &&& record.at("validation"@) == JsonView::Text("simulated"@)
                    &&& options.at("tool_mode"@) == (match payload.at("tool_mode"@) {
                        JsonView::Text(mode) => JsonView::Text(mode),
                        _ => JsonView::Text("proactive"@),
                    })
                    &&& options.at("ncu_full"@) == JsonView::Bool(
                        payload.at("ncu_full"@) == JsonView::Bool(true),
                    )
                },
                Err(reason) => {
                    &&& !sound ==> reason == "candidate timing must be finite and positive"@
                    &&& sound && !fails && time.reading() is None ==> reason
                        == "successful candidate has no timing"@
                    &&& sound && (fails || time.reading() is Some) ==> reason
                        == "speedup must be finite"@ && speedup == Some(None::<ReadingView>)
                },
            }
        }),
{
    if let Ok(record) = simulated::candidate_record(payload, digest, report, speedup) {
        let list = record->Object_0;
        assert(list.len() == 8);
        reveal_strlit("outcome");
        reveal_strlit("candidate_seconds");
        reveal_strlit("source_sha256");
        reveal_strlit("task_sha256");
        reveal_strlit("build_identity");
        reveal_strlit("profile");
        reveal_strlit("validation");
        reveal_strlit("profiling_options");
        assert("outcome"@[0] != "profile"@[0]);
        assert("candidate_seconds"@[0] != "profiling_options"@[0]);
        assert(list[0].0 == "outcome"@);
        json::lemma_at(list, 0);
        assert(list[1].0 == "candidate_seconds"@);
        json::lemma_at(list, 1);
        assert(list[2].0 == "source_sha256"@);
        json::lemma_at(list, 2);
        assert(list[3].0 == "task_sha256"@);
        json::lemma_at(list, 3);
        assert(list[4].0 == "build_identity"@);
        json::lemma_at(list, 4);
        assert(list[5].0 == "profile"@);
        json::lemma_at(list, 5);
        assert(list[6].0 == "validation"@);
        json::lemma_at(list, 6);
        assert(list[7].0 == "profiling_options"@);
        json::lemma_at(list, 7);
        let outcome = list[0].1->Object_0;
        reveal_strlit("status");
        reveal_strlit("speedup");
        reveal_strlit("error_context");
        assert(outcome[0].0 == "status"@);
        json::lemma_at(outcome, 0);
        assert(outcome[1].0 == "speedup"@);
        json::lemma_at(outcome, 1);
        assert(outcome[2].0 == "error_context"@);
        json::lemma_at(outcome, 2);
        let options = list[7].1->Object_0;
        reveal_strlit("tool_mode");
        reveal_strlit("ncu_full");
        reveal_strlit("nsys");
        assert(options[0].0 == "tool_mode"@);
        json::lemma_at(options, 0);
        assert(options[1].0 == "ncu_full"@);
        json::lemma_at(options, 1);
        assert(options[2].0 == "nsys"@);
        json::lemma_at(options, 2);
    }
}

/// A candidate is evaluated by a scenario in this order: its source is read and compared, then its
/// task; one that fails has no report, any other has the scenario's table and instructions kept and
/// a report made of them; its source and its task are read once more, and its speedup is the
/// reference's time by its own.
pub proof fn scenarios_are_carried_out(
    task: TaskView,
    output: Seq<char>,
    made: JsonView,
    names: Seq<Seq<char>>,
    readings: ReadingsView,
)
    requires
        task.candidate,
        task.payload.at("source"@) is Text,
        task.payload.at("problem"@).get("file_sha256"@) is None,
    ensures
        ({
            let source = task.payload.at("source"@)->Text_0;
            let fixture = task.payload.at("fixture"@);
            let fails = fixture.at("error_context"@) matches JsonView::Object(list) && list.len()
                > 0;
            let opened = TaskView { output, ..task };
            &&& trial::advanced(
                TrialView { task, phase: PhaseView::Opening },
                EventView::Opened(Ok(output)),
            ) == (
                TrialView { task: opened, phase: PhaseView::Sourcing },
                WorkView::Read(source),
            )
            &&& identity::reference_refusal(task.payload) is None && fails ==> trial::checked(task)
                == (
                TrialView { task, phase: PhaseView::Rereading(JsonView::Null) },
                WorkView::Read(source),
            )
            &&& identity::reference_refusal(task.payload) is None && !fails && fixture.at(
                "ncu_csv"@,
            ) is Text ==> trial::checked(task) == (
                TrialView { task, phase: PhaseView::Tabling },
                WorkView::Write(
                    paths::path(task.output, "profile.csv"@),
                    fixture.at("ncu_csv"@)->Text_0,
                ),
            )
            &&& trial::advanced(
                TrialView { task, phase: PhaseView::Tabling },
                EventView::Done(None),
            ) == (
                TrialView { task, phase: PhaseView::Naming },
                WorkView::Name(
                    match fixture.get("kernel_names"@) {
                        Some(names) => names,
                        None => JsonView::Array(Seq::empty()),
                    },
                ),
            )
            &&& match trial::advanced(
                TrialView { task, phase: PhaseView::Naming },
                EventView::Named(Ok(names), readings),
            ) {
                (after, WorkView::Write(path, content)) => {
                    &&& after == TrialView { task, phase: PhaseView::Listing(names, readings) }
                    &&& path == paths::path(task.output, "kernel.sass"@)
                    &&& content == held(fixture.at("sass"@))
                },
                (after, work) => work is Abort,
            }
            &&& match simulated::scenario_report(
                task.payload,
                names,
                paths::path(task.output, "profile.csv"@),
                task.assets,
                readings,
            ) {
                Ok(report) => trial::advanced(
                    TrialView { task, phase: PhaseView::Listing(names, readings) },
                    EventView::Done(None),
                ) == (
                    TrialView { task, phase: PhaseView::Rereading(report) },
                    WorkView::Read(source),
                ),
                Err(reason) => trial::advanced(
                    TrialView { task, phase: PhaseView::Listing(names, readings) },
                    EventView::Done(None),
                ).1 == WorkView::Abort(reason),
            }
            &&& fixture.at("candidate_seconds"@).reading() matches Some(seconds)
                ==> trial::rechecked(task, made) == (
                TrialView { task, phase: PhaseView::Weighing(made) },
                WorkView::Divide(
                    task.payload.at("reference"@).at("reference_seconds"@).reading(),
                    seconds,
                ),
            )
        }),
{
}

} // verus!
