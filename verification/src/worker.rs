//! Who carries out an operation, and what is made of what comes back.
use crate::fields;
use crate::fields::{natural, strings, text, Fields};
use crate::json;
use crate::json::{Json, JsonView};
use crate::numeral;
use crate::numeral::{numeral, padded_numeral};
use crate::pieces;
use crate::session::requests::array_one;
use crate::text::same;
use crate::written;
use crate::written::to_text;
use vstd::prelude::*;

verus! {

/// What runs the operations that need a GPU.
pub struct Worker {
    pub python: Option<String>,
    pub script: Option<String>,
    /// Where requests are kept.
    pub requests: String,
    pub timeout_ms: u64,
    /// How many requests there were.
    pub sequence: u64,
}

/// Who carries out an operation.
#[derive(Clone, Copy, Debug, PartialEq, Eq, Structural)]
pub enum Route {
    Analyze,
    /// The workloads on a GPU, within the time that the worker has.
    Gpu,
    SimulatedReference,
    SimulatedEvaluate,
    Prepare,
    Feedback,
    Tool,
    Validate,
    /// The script.
    External,
}

/// Who carries out an operation.
pub open spec fn route_of(operation: Seq<char>, payload: JsonView) -> Route {
    let backend = payload.at("backend"@);
    let timed = operation == "reference"@ || operation == "evaluate"@;
    if operation == "analyze"@ {
        Route::Analyze
    } else if backend.is_text("gpu"@) && timed {
        Route::Gpu
    } else if backend.is_text("simulated"@) && timed {
        if operation == "reference"@ {
            Route::SimulatedReference
        } else {
            Route::SimulatedEvaluate
        }
    } else if operation == "prepare"@ {
        Route::Prepare
    } else if operation == "feedback"@ {
        Route::Feedback
    } else if operation == "tool"@ {
        Route::Tool
    } else if operation == "validate"@ {
        Route::Validate
    } else {
        Route::External
    }
}

/// Who carries out an operation.
pub fn route(operation: &str, payload: &Json) -> (route: Route)
    ensures
        route == route_of(operation@, payload@),
{
    let timed = same(operation, "reference") || same(operation, "evaluate");
    if same(operation, "analyze") {
        Route::Analyze
    } else if payload.at("backend").is_text("gpu") && timed {
        Route::Gpu
    } else if payload.at("backend").is_text("simulated") && timed {
        if same(operation, "reference") {
            Route::SimulatedReference
        } else {
            Route::SimulatedEvaluate
        }
    } else if same(operation, "prepare") {
        Route::Prepare
    } else if same(operation, "feedback") {
        Route::Feedback
    } else if same(operation, "tool") {
        Route::Tool
    } else if same(operation, "validate") {
        Route::Validate
    } else {
        Route::External
    }
}

/// The record of a candidate that took too long.
pub open spec fn timeout_record(payload: JsonView, timeout_ms: int) -> JsonView {
    JsonView::Object(
        seq![
            (
                "outcome"@,
                JsonView::Object(
                    seq![
                        ("status"@, JsonView::Text("failed"@)),
                        ("speedup"@, JsonView::Null),
                        (
                            "error_context"@,
                            JsonView::Object(
                                seq![
                                    ("error_type"@, JsonView::Text("TimeoutError"@)),
                                    (
                                        "error_message"@,
                                        JsonView::Text(
                                            "Evaluation exceeded "@ + numeral::decimal(
                                                (timeout_ms / 1000) as nat,
                                            ) + "s timeout"@,
                                        ),
                                    ),
                                ],
                            ),
                        ),
                    ],
                ),
            ),
            ("candidate_seconds"@, JsonView::Null),
            ("source_sha256"@, payload.at("source_sha256"@)),
            ("task_sha256"@, payload.at("problem"@).at("sha256"@)),
            ("build_identity"@, JsonView::Null),
            ("profile"@, JsonView::Null),
            ("validation"@, JsonView::Text("gpu"@)),
            (
                "profiling_options"@,
                JsonView::Object(
                    seq![
                        ("tool_mode"@, payload.at("tool_mode"@)),
                        ("ncu_full"@, payload.at("ncu_full"@)),
                        ("nsys"@, JsonView::Bool(false)),
                    ],
                ),
            ),
        ],
    )
}

/// What an operation that took too long gives.
pub open spec fn late(operation: Seq<char>, payload: JsonView, timeout_ms: int) -> Result<
    JsonView,
    Seq<char>,
> {
    if operation == "evaluate"@ {
        Ok(timeout_record(payload, timeout_ms))
    } else {
        Err("GPU evaluation timed out"@)
    }
}

fn write_timeout(payload: &Json, timeout_ms: u64) -> (value: Json)
    ensures
        value@ == timeout_record(payload@, timeout_ms as int),
{
    let ghost all = timeout_record(payload@, timeout_ms as int)->Object_0;
    let message = "Evaluation exceeded ".to_owned().concat(
        numeral((timeout_ms / 1000) as u128).as_str(),
    ).concat("s timeout");
    let context = Fields::new().with("error_type", text("TimeoutError")).with(
        "error_message",
        text(message.as_str()),
    );
    assert(context@ =~= all[0].1->Object_0[2].1->Object_0);
    let outcome = Fields::new().with("status", text("failed")).with("speedup", Json::Null).with(
        "error_context",
        context.object(),
    );
    assert(outcome@ =~= all[0].1->Object_0);
    let options = Fields::new().with("tool_mode", payload.at("tool_mode").clone()).with(
        "ncu_full",
        payload.at("ncu_full").clone(),
    ).with("nsys", Json::Bool(false));
    assert(options@ =~= all[7].1->Object_0);
    let record = Fields::new().with("outcome", outcome.object()).with(
        "candidate_seconds",
        Json::Null,
    ).with("source_sha256", payload.at("source_sha256").clone()).with(
        "task_sha256",
        payload.at("problem").at("sha256").clone(),
    ).with("build_identity", Json::Null).with("profile", Json::Null).with(
        "validation",
        text("gpu"),
    ).with("profiling_options", options.object());
    assert(record@ =~= all);
    record.object()
}

/// What an operation that took longer than `timeout_ms` gives.
pub fn timed_out(operation: &str, payload: &Json, timeout_ms: u64) -> (result: Result<Json, String>)
    ensures
        json::outcome(result) == late(operation@, payload@, timeout_ms as int),
{
    if same(operation, "evaluate") {
        Ok(write_timeout(payload, timeout_ms))
    } else {
        Err("GPU evaluation timed out".to_owned())
    }
}

/// What the script is asked about the machine while a task is prepared: nothing unless it is a
/// GPU that counts.
pub open spec fn metadata_of(payload: JsonView) -> Option<JsonView> {
    if payload.at("backend"@).is_text("gpu"@) {
        Some(
            JsonView::Object(
                seq![
                    ("backend"@, JsonView::Text("gpu"@)),
                    ("gpu_id"@, payload.at("gpu_id"@)),
                ],
            ),
        )
    } else {
        None
    }
}

/// What the script is asked about the machine while a task is prepared.
pub fn metadata_payload(payload: &Json) -> (asked: Option<Json>)
    ensures
        json::optional(asked) == metadata_of(payload@),
{
    if payload.at("backend").is_text("gpu") {
        let asked = Fields::new().with("backend", text("gpu")).with(
            "gpu_id",
            payload.at("gpu_id").clone(),
        );
        assert(asked@ =~= metadata_of(payload@)->Some_0->Object_0);
        Some(asked.object())
    } else {
        None
    }
}

/// The role whose value is to be validated.
pub fn validated_role(payload: &Json) -> (result: Result<&str, String>)
    ensures
        match result {
            Ok(role) => payload@.at("role"@).text() == Some(role@),
            Err(error) => payload@.at("role"@).text() is None && error@ == "missing model role"@,
        },
{
    match payload.at("role").text() {
        Some(role) => Ok(role),
        None => Err("missing model role".to_owned()),
    }
}

/// How a command is run: in `directory`, which alone it may write to, and within the time.
pub open spec fn exec_record(
    command: Seq<Seq<char>>,
    directory: Seq<char>,
    temporary: Seq<char>,
    env: Seq<json::FieldView>,
    timeout_ms: nat,
) -> JsonView {
    JsonView::Object(
        seq![
            ("command"@, fields::strings_view(command)),
            ("cwd"@, JsonView::Text(directory)),
            ("timeoutMs"@, fields::natural_view(timeout_ms)),
            ("outputBytesCap"@, fields::natural_view(4194304)),
            (
                "env"@,
                JsonView::Object(
                    json::with_field(
                        json::with_field(env, "TMPDIR"@, JsonView::Text(temporary)),
                        "PYTHONDONTWRITEBYTECODE"@,
                        JsonView::Text("1"@),
                    ),
                ),
            ),
            (
                "sandboxPolicy"@,
                JsonView::Object(
                    seq![
                        ("type"@, JsonView::Text("workspaceWrite"@)),
                        ("writableRoots"@, JsonView::Array(seq![JsonView::Text(directory)])),
                        ("networkAccess"@, JsonView::Bool(false)),
                        ("excludeTmpdirEnvVar"@, JsonView::Bool(true)),
                        ("excludeSlashTmp"@, JsonView::Bool(true)),
                    ],
                ),
            ),
        ],
    )
}

/// The smaller of two times.
pub open spec fn shorter(left: u64, right: u64) -> u64 {
    if left <= right {
        left
    } else {
        right
    }
}

/// What a request to the script is called.
pub open spec fn request_name_of(id: nat, operation: Seq<char>) -> Seq<char> {
    numeral::padded(id, 6) + "-"@ + operation + ".json"@
}

/// What a request's directory is called.
pub open spec fn directory_name_of(id: nat) -> Seq<char> {
    "worker-"@ + numeral::decimal(id)
}

/// What the script is asked.
pub open spec fn request_record(id: nat, operation: Seq<char>, payload: JsonView) -> JsonView {
    JsonView::Object(
        seq![
            ("version"@, fields::natural_view(1)),
            ("id"@, fields::natural_view(id)),
            ("operation"@, JsonView::Text(operation)),
            ("payload"@, payload),
        ],
    )
}

/// A request to the script.
pub struct Request {
    pub id: u64,
    /// The file that the request is kept in.
    pub file: String,
    /// The directory that it names to work in.
    pub named_directory: Option<String>,
    /// The directory that it works in where it names none.
    pub own_directory: String,
    pub body: Json,
}

/// What the script printed, where it did its work.
pub open spec fn printed(operation: Seq<char>, output: JsonView) -> Result<Seq<char>, Seq<char>> {
    if !output.at("exitCode"@).is_integer(0) {
        Err(
            "worker "@ + operation + " failed: "@ + written::compact(output.at("stderr"@)),
        )
    } else {
        match output.at("stdout"@).text() {
            Some(printed) => Ok(printed),
            None => Err("missing worker stdout"@),
        }
    }
}

/// What the script's answer to a request says; `response` is the value that the answer spells, if
/// it spells one.
pub open spec fn answered(operation: Seq<char>, id: int, response: Option<JsonView>) -> Result<
    JsonView,
    Seq<char>,
> {
    match response {
        None => Err("invalid or truncated worker response"@),
        Some(response) => if !(response.at("version"@).is_integer(1) && response.at(
            "id"@,
        ).is_integer(id)) {
            Err("worker response identity mismatch"@)
        } else if response.get("error"@) is Some {
            Err("worker "@ + operation + ": "@ + written::compact(response.at("error"@)))
        } else {
            match response.get("result"@) {
                Some(result) => Ok(result),
                None => Err("missing worker result"@),
            }
        },
    }
}

impl Worker {
    /// A worker that has had no requests.
    pub fn new(
        python: Option<String>,
        script: Option<String>,
        requests: String,
        timeout_ms: u64,
    ) -> (worker: Self)
        ensures
            worker == (Worker { python, script, requests, timeout_ms, sequence: 0 }),
    {
        Worker { python, script, requests, timeout_ms, sequence: 0 }
    }

    /// How a command is run in `directory`, whose directory for temporary files is `temporary`.
    pub fn exec_request(
        &self,
        command: &Vec<String>,
        directory: &str,
        temporary: &str,
        env: Fields,
        timeout_ms: u64,
    ) -> (params: Json)
        ensures
            params@ == exec_record(
                pieces::texts(command@),
                directory@,
                temporary@,
                env@,
                shorter(timeout_ms, self.timeout_ms) as nat,
            ),
    {
        let ghost given = env@;
        let limit: u64 = if timeout_ms <= self.timeout_ms {
            timeout_ms
        } else {
            self.timeout_ms
        };
        let ghost all = exec_record(
            pieces::texts(command@),
            directory@,
            temporary@,
            given,
            limit as nat,
        )->Object_0;
        let mut set = env;
        set.set("TMPDIR", text(temporary));
        set.set("PYTHONDONTWRITEBYTECODE", text("1"));
        let policy = Fields::new().with("type", text("workspaceWrite")).with(
            "writableRoots",
            array_one(text(directory)),
        ).with("networkAccess", Json::Bool(false)).with(
            "excludeTmpdirEnvVar",
            Json::Bool(true),
        ).with("excludeSlashTmp", Json::Bool(true));
        assert(policy@ =~= all[5].1->Object_0);
        let record = Fields::new().with("command", strings(command)).with(
            "cwd",
            text(directory),
        ).with("timeoutMs", natural(limit)).with("outputBytesCap", natural(4194304)).with(
            "env",
            set.object(),
        ).with("sandboxPolicy", policy.object());
        assert(record@ =~= all);
        record.object()
    }

    /// The next request to the script. Every request has a number of its own, one that is refused
    /// too.
    pub fn request(&mut self, operation: &str, payload: Json) -> (result: Result<Request, String>)
        ensures
            final(self).sequence == (if old(self).sequence == u64::MAX {
                0u64
            } else {
                (old(self).sequence + 1) as u64
            }),
            final(self).python == old(self).python,
            final(self).script == old(self).script,
            final(self).requests == old(self).requests,
            final(self).timeout_ms == old(self).timeout_ms,
            match result {
                Ok(request) => {
                    &&& old(self).python is Some && old(self).script is Some
                    &&& request.id == old(self).sequence
                    &&& request.file@ == request_name_of(request.id as nat, operation@)
                    &&& pieces::optional(request.named_directory)
                        == payload@.at("output_dir"@).text()
                    &&& request.own_directory@ == directory_name_of(request.id as nat)
                    &&& request.body@ == request_record(request.id as nat, operation@, payload@)
                },
                Err(error) => if old(self).python is None {
                    error@ == "GPU workloads require --python"@
                } else {
                    old(self).script is None && error@ == "GPU workloads require --worker"@
                },
            },
    {
        let id: u64 = self.sequence;
        self.sequence = if id == u64::MAX {
            0
        } else {
            id + 1
        };
        if self.python.is_none() {
            return Err("GPU workloads require --python".to_owned());
        }
        if self.script.is_none() {
            return Err("GPU workloads require --worker".to_owned());
        }
        let named_directory = match payload.at("output_dir").text() {
            Some(directory) => Some(directory.to_owned()),
            None => None,
        };
        let ghost given = payload@;
        let body = Fields::new().with("version", natural(1)).with("id", natural(id)).with(
            "operation",
            text(operation),
        ).with("payload", payload);
        assert(body@ =~= request_record(id as nat, operation@, given)->Object_0);
        Ok(
            Request {
                id,
                file: padded_numeral(id as u128, 6).concat("-").concat(operation).concat(".json"),
                named_directory,
                own_directory: "worker-".to_owned().concat(numeral(id as u128).as_str()),
                body: body.object(),
            },
        )
    }
}

/// What the script printed, where it did its work.
pub fn read_output<'a>(operation: &str, output: &'a Json) -> (result: Result<&'a str, String>)
    ensures
        printed(operation@, output@) == match result {
            Ok(printed) => Ok::<Seq<char>, Seq<char>>(printed@),
            Err(error) => Err::<Seq<char>, Seq<char>>(error@),
        },
{
    if !output.at("exitCode").is_integer(0) {
        return Err(
            "worker ".to_owned().concat(operation).concat(" failed: ").concat(
                to_text(output.at("stderr")).as_str(),
            ),
        );
    }
    match output.at("stdout").text() {
        Some(printed) => Ok(printed),
        None => Err("missing worker stdout".to_owned()),
    }
}

/// What the script's answer to the request `id` says.
pub fn read_response(operation: &str, id: u64, response: &Option<Json>) -> (result: Result<
    Json,
    String,
>)
    ensures
        json::outcome(result) == answered(operation@, id as int, json::optional(*response)),
{
    match response {
        None => Err("invalid or truncated worker response".to_owned()),
        Some(response) => {
            if !response.at("version").is_integer(1) || !response.at("id").is_integer(id as i128) {
                return Err("worker response identity mismatch".to_owned());
            }
            if response.get("error").is_some() {
                return Err(
                    "worker ".to_owned().concat(operation).concat(": ").concat(
                        to_text(response.at("error")).as_str(),
                    ),
                );
            }
            match response.get("result") {
                Some(result) => Ok(result.clone()),
                None => Err("missing worker result".to_owned()),
            }
        },
    }
}

/// No answer is taken for another: what is read from an answer says the number of its request.
pub proof fn answers_are_identified(operation: Seq<char>, id: int, other: int, response: JsonView)
    requires
        answered(operation, id, Some(response)) is Ok,
        other != id,
    ensures
        answered(operation, other, Some(response)) is Err,
{
}

} // verus!
