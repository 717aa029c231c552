//! Sessions that work on their own, and batches of them.
pub mod batch;
pub mod laws;
pub mod records;
pub mod requests;

use crate::fields;
use crate::fields::{optional_text, text, Fields};
use crate::json;
use crate::json::{Json, JsonView};
use crate::pieces;
use vstd::prelude::*;

verus! {

/// What a session is to do.
pub struct SessionSpec {
    pub role: String,
    pub model: String,
    pub cwd: String,
    pub instructions: String,
    pub input: String,
    pub schema: Json,
    pub tools: Vec<Json>,
    pub evidence: Json,
}

/// The model of what a session is to do.
#[verifier::ext_equal]
pub struct SpecView {
    pub role: Seq<char>,
    pub model: Seq<char>,
    pub cwd: Seq<char>,
    pub instructions: Seq<char>,
    pub input: Seq<char>,
    pub schema: JsonView,
    pub tools: Seq<JsonView>,
    pub evidence: JsonView,
}

impl View for SessionSpec {
    type V = SpecView;

    open spec fn view(&self) -> SpecView {
        SpecView {
            role: self.role@,
            model: self.model@,
            cwd: self.cwd@,
            instructions: self.instructions@,
            input: self.input@,
            schema: self.schema@,
            tools: json::items_view(self.tools@),
            evidence: self.evidence@,
        }
    }
}

/// The models of what sessions are to do.
pub open spec fn specs_view(specs: Seq<SessionSpec>) -> Seq<SpecView> {
    Seq::new(specs.len(), |i: int| specs[i]@)
}

/// What became of a session.
pub struct SessionResult {
    pub thread_id: String,
    pub turn_id: String,
    pub role: String,
    pub model: String,
    pub value: Option<Json>,
    pub error: Option<String>,
    pub events: Vec<Json>,
}

/// The model of what became of a session.
#[verifier::ext_equal]
pub struct ResultView {
    pub thread_id: Seq<char>,
    pub turn_id: Seq<char>,
    pub role: Seq<char>,
    pub model: Seq<char>,
    pub value: Option<JsonView>,
    pub error: Option<Seq<char>>,
    pub events: Seq<JsonView>,
}

impl View for SessionResult {
    type V = ResultView;

    open spec fn view(&self) -> ResultView {
        ResultView {
            thread_id: self.thread_id@,
            turn_id: self.turn_id@,
            role: self.role@,
            model: self.model@,
            value: json::optional(self.value),
            error: pieces::optional(self.error),
            events: json::items_view(self.events@),
        }
    }
}

/// The models of what became of sessions.
pub open spec fn results_view(results: Seq<SessionResult>) -> Seq<ResultView> {
    Seq::new(results.len(), |i: int| results[i]@)
}

/// How what became of a session is written.
pub open spec fn result_record(result: ResultView) -> JsonView {
    JsonView::Object(
        seq![
            ("thread_id"@, JsonView::Text(result.thread_id)),
            ("turn_id"@, JsonView::Text(result.turn_id)),
            ("role"@, JsonView::Text(result.role)),
            ("model"@, JsonView::Text(result.model)),
            ("value"@, fields::or_null(result.value)),
            ("error"@, fields::text_or_null(result.error)),
            ("events"@, JsonView::Array(result.events)),
        ],
    )
}

/// Copies of values.
pub fn copy_items(list: &Vec<Json>) -> (copy: Vec<Json>)
    ensures
        json::items_view(copy@) == json::items_view(list@),
{
    let mut copy: Vec<Json> = Vec::new();
    let mut index: usize = 0;
    while index < list.len()
        invariant
            index <= list@.len(),
            copy@.len() == index,
            forall|i: int| 0 <= i < index ==> (#[trigger] copy@[i])@ == list@[i]@,
        decreases list@.len() - index,
    {
        copy.push(list[index].clone());
        index += 1;
    }
    assert(json::items_view(copy@) =~= json::items_view(list@));
    copy
}

/// The array of copies of values.
pub fn array_of(list: &Vec<Json>) -> (value: Json)
    ensures
        value@ == JsonView::Array(json::items_view(list@)),
{
    broadcast use json::array_view;

    Json::Array(copy_items(list))
}

/// A copy of a value, or null.
pub fn value_or_null(value: &Option<Json>) -> (result: Json)
    ensures
        result@ == fields::or_null(json::optional(*value)),
{
    match value {
        Some(value) => value.clone(),
        None => Json::Null,
    }
}

impl SessionResult {
    /// How what became of a session is written.
    pub fn record(&self) -> (value: Json)
        ensures
            value@ == result_record(self@),
    {
        let all = Fields::new().with("thread_id", text(self.thread_id.as_str())).with(
            "turn_id",
            text(self.turn_id.as_str()),
        ).with("role", text(self.role.as_str())).with("model", text(self.model.as_str())).with(
            "value",
            value_or_null(&self.value),
        ).with("error", optional_text(&self.error)).with("events", array_of(&self.events));
        assert(all@ =~= result_record(self@)->Object_0);
        all.object()
    }
}

/// The tool `name`, which takes no arguments.
pub open spec fn tool_record(name: Seq<char>, description: Seq<char>) -> JsonView {
    JsonView::Object(
        seq![
            ("type"@, JsonView::Text("function"@)),
            ("name"@, JsonView::Text(name)),
            ("description"@, JsonView::Text(description)),
            (
                "inputSchema"@,
                JsonView::Object(
                    seq![
                        ("type"@, JsonView::Text("object"@)),
                        ("properties"@, JsonView::Object(Seq::empty())),
                        ("required"@, JsonView::Array(Seq::empty())),
                        ("additionalProperties"@, JsonView::Bool(false)),
                    ],
                ),
            ),
        ],
    )
}

/// The tool `name`, which takes no arguments.
pub fn tool(name: &str, description: &str) -> (value: Json)
    ensures
        value@ == tool_record(name@, description@),
{
    let schema = Fields::new().with("type", text("object")).with(
        "properties",
        Fields::new().object(),
    ).with("required", fields::empty_array()).with("additionalProperties", Json::Bool(false));
    assert(schema@ =~= tool_record(name@, description@)->Object_0[3].1->Object_0);
    let all = Fields::new().with("type", text("function")).with("name", text(name)).with(
        "description",
        text(description),
    ).with("inputSchema", schema.object());
    assert(all@ =~= tool_record(name@, description@)->Object_0);
    all.object()
}

} // verus!
