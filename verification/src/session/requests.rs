//! What the app server is asked on behalf of sessions.
use crate::fields;
use crate::fields::{natural, text, Fields};
use crate::json;
use crate::json::{Json, JsonView};
use crate::session;
use crate::session::{array_of, ResultView, SessionResult, SessionSpec, SpecView};
use vstd::prelude::*;

verus! {

/// A call of the app server.
pub open spec fn rpc_record(id: nat, method: Seq<char>, params: JsonView) -> JsonView {
    JsonView::Object(
        seq![
            ("id"@, fields::natural_view(id)),
            ("method"@, JsonView::Text(method)),
            ("params"@, params),
        ],
    )
}

/// A call of the app server.
pub fn rpc(id: u64, method: &str, params: Json) -> (request: Json)
    ensures
        request@ == rpc_record(id as nat, method@, params@),
{
    let ghost given = params@;
    let all = Fields::new().with("id", natural(id)).with("method", text(method)).with(
        "params",
        params,
    );
    assert(all@ =~= rpc_record(id as nat, method@, given)->Object_0);
    all.object()
}

/// The array of one value.
pub fn array_one(value: Json) -> (result: Json)
    ensures
        result@ == JsonView::Array(seq![value@]),
{
    broadcast use json::array_view;

    let ghost given = value@;
    let mut items: Vec<Json> = Vec::new();
    items.push(value);
    let result = Json::Array(items);
    assert(result@->Array_0 =~= seq![given]);
    result
}

/// What a session may not do.
pub open spec fn child_config() -> JsonView {
    JsonView::Object(
        seq![
            ("agents.enabled"@, JsonView::Bool(false)),
            ("features.multi_agent_v2"@, JsonView::Bool(false)),
            ("features.memories"@, JsonView::Bool(false)),
            ("sandbox_workspace_write.writable_roots"@, JsonView::Array(Seq::empty())),
            ("sandbox_workspace_write.exclude_tmpdir_env_var"@, JsonView::Bool(true)),
            ("sandbox_workspace_write.exclude_slash_tmp"@, JsonView::Bool(true)),
        ],
    )
}

/// How a session is started below `root`.
pub open spec fn child_record(
    root: Seq<char>,
    provider: Seq<char>,
    spec_: SpecView,
    instructions: Seq<char>,
) -> JsonView {
    JsonView::Object(
        seq![
            ("parentThreadId"@, JsonView::Text(root)),
            (
                "startup"@,
                JsonView::Object(
                    seq![
                        ("model"@, JsonView::Text(spec_.model)),
                        ("modelProvider"@, JsonView::Text(provider)),
                        ("cwd"@, JsonView::Text(spec_.cwd)),
                        (
                            "runtimeWorkspaceRoots"@,
                            JsonView::Array(seq![JsonView::Text(spec_.cwd)]),
                        ),
                        ("developerInstructions"@, JsonView::Text(instructions)),
                        ("dynamicTools"@, JsonView::Array(spec_.tools)),
                        ("sandbox"@, JsonView::Text("workspace-write"@)),
                        ("config"@, child_config()),
                    ],
                ),
            ),
        ],
    )
}

fn write_config() -> (value: Json)
    ensures
        value@ == child_config(),
{
    let all = Fields::new().with("agents.enabled", Json::Bool(false)).with(
        "features.multi_agent_v2",
        Json::Bool(false),
    ).with("features.memories", Json::Bool(false)).with(
        "sandbox_workspace_write.writable_roots",
        fields::empty_array(),
    ).with("sandbox_workspace_write.exclude_tmpdir_env_var", Json::Bool(true)).with(
        "sandbox_workspace_write.exclude_slash_tmp",
        Json::Bool(true),
    );
    assert(all@ =~= child_config()->Object_0);
    all.object()
}

/// How a session is started below `root`; `instructions` is what it is shown of them.
pub fn child_request(root: &str, provider: &str, task: &SessionSpec, instructions: &str) -> (params:
    Json)
    ensures
        params@ == child_record(root@, provider@, task@, instructions@),
{
    let startup = Fields::new().with("model", text(task.model.as_str())).with(
        "modelProvider",
        text(provider),
    ).with("cwd", text(task.cwd.as_str())).with(
        "runtimeWorkspaceRoots",
        array_one(text(task.cwd.as_str())),
    ).with("developerInstructions", text(instructions)).with(
        "dynamicTools",
        array_of(&task.tools),
    ).with("sandbox", text("workspace-write")).with("config", write_config());
    assert(startup@ =~= child_record(
        root@,
        provider@,
        task@,
        instructions@,
    )->Object_0[1].1->Object_0);
    let all = Fields::new().with("parentThreadId", text(root)).with("startup", startup.object());
    assert(all@ =~= child_record(root@, provider@, task@, instructions@)->Object_0);
    all.object()
}

/// How a session is given its task.
pub open spec fn turn_record(thread: Seq<char>, input: Seq<char>, schema: JsonView) -> JsonView {
    JsonView::Object(
        seq![
            ("threadId"@, JsonView::Text(thread)),
            (
                "input"@,
                JsonView::Array(
                    seq![
                        JsonView::Object(
                            seq![
                                ("type"@, JsonView::Text("text"@)),
                                ("text"@, JsonView::Text(input)),
                                ("textElements"@, JsonView::Array(Seq::empty())),
                            ],
                        ),
                    ],
                ),
            ),
            ("outputSchema"@, schema),
        ],
    )
}

/// How a session is given its task; `input` is what it is shown of it.
pub fn turn_request(thread: &str, input: &str, schema: &Json) -> (params: Json)
    ensures
        params@ == turn_record(thread@, input@, schema@),
{
    let item = Fields::new().with("type", text("text")).with("text", text(input)).with(
        "textElements",
        fields::empty_array(),
    );
    assert(item@ =~= turn_record(
        thread@,
        input@,
        schema@,
    )->Object_0[1].1->Array_0[0]->Object_0);
    let all = Fields::new().with("threadId", text(thread)).with(
        "input",
        array_one(item.object()),
    ).with("outputSchema", schema.clone());
    assert(all@ =~= turn_record(thread@, input@, schema@)->Object_0);
    all.object()
}

/// How a session is interrupted.
pub open spec fn interrupt_record(thread: Seq<char>, turn: Seq<char>) -> JsonView {
    JsonView::Object(
        seq![("threadId"@, JsonView::Text(thread)), ("turnId"@, JsonView::Text(turn))],
    )
}

/// How a session is interrupted.
pub fn interrupt_request(thread: &str, turn: &str) -> (params: Json)
    ensures
        params@ == interrupt_record(thread@, turn@),
{
    let all = Fields::new().with("threadId", text(thread)).with("turnId", text(turn));
    assert(all@ =~= interrupt_record(thread@, turn@)->Object_0);
    all.object()
}

/// What a tool call is answered.
pub open spec fn answer_record(shown: Seq<char>) -> JsonView {
    JsonView::Object(
        seq![
            ("success"@, JsonView::Bool(true)),
            (
                "contentItems"@,
                JsonView::Array(
                    seq![
                        JsonView::Object(
                            seq![
                                ("type"@, JsonView::Text("inputText"@)),
                                ("text"@, JsonView::Text(shown)),
                            ],
                        ),
                    ],
                ),
            ),
        ],
    )
}

/// What a tool call is answered.
pub fn answer(shown: &str) -> (value: Json)
    ensures
        value@ == answer_record(shown@),
{
    let item = Fields::new().with("type", text("inputText")).with("text", text(shown));
    assert(item@ =~= answer_record(shown@)->Object_0[1].1->Array_0[0]->Object_0);
    let all = Fields::new().with("success", Json::Bool(true)).with(
        "contentItems",
        array_one(item.object()),
    );
    assert(all@ =~= answer_record(shown@)->Object_0);
    all.object()
}

/// The code of what a request that only a person could answer is refused with.
pub const REJECTION_CODE: i64 = -32000;

/// What a request that only a person could answer is refused with.
pub fn rejection() -> (message: &'static str)
    ensures
        message@
            == "This headless run cannot answer an interactive approval; use an appropriate existing Codex policy."@,
{
    "This headless run cannot answer an interactive approval; use an appropriate existing Codex policy."
}

/// A method with what it is called on.
pub struct Cleanup {
    pub method: &'static str,
    pub params: Json,
}

/// The model of a cleanup.
pub open spec fn cleanup_view(cleanup: Cleanup) -> (Seq<char>, JsonView) {
    (cleanup.method@, cleanup.params@)
}

/// How the sessions of a batch are closed: each is closed and archived, in order.
pub open spec fn cleanups(root: Seq<char>, results: Seq<ResultView>, end: int) -> Seq<
    (Seq<char>, JsonView),
>
    decreases end,
{
    if end <= 0 {
        Seq::empty()
    } else {
        let thread = JsonView::Text(results[end - 1].thread_id);
        cleanups(root, results, end - 1).push(
            (
                "thread/closeChild"@,
                JsonView::Object(
                    seq![("parentThreadId"@, JsonView::Text(root)), ("threadId"@, thread)],
                ),
            ),
        ).push(("thread/archive"@, JsonView::Object(seq![("threadId"@, thread)])))
    }
}

/// How the sessions of a batch are closed.
pub fn cleanup(root: &str, results: &Vec<SessionResult>) -> (list: Vec<Cleanup>)
    ensures
        Seq::new(list@.len(), |i: int| cleanup_view(list@[i])) == cleanups(
            root@,
            session::results_view(results@),
            results@.len() as int,
        ),
{
    let ghost all = session::results_view(results@);
    let mut list: Vec<Cleanup> = Vec::new();
    let mut index: usize = 0;
    assert(Seq::new(list@.len(), |i: int| cleanup_view(list@[i])) =~= cleanups(root@, all, 0));
    while index < results.len()
        invariant
            index <= results@.len(),
            all == session::results_view(results@),
            Seq::new(list@.len(), |i: int| cleanup_view(list@[i])) == cleanups(
                root@,
                all,
                index as int,
            ),
        decreases results@.len() - index,
    {
        let ghost before = Seq::new(list@.len(), |i: int| cleanup_view(list@[i]));
        let ghost thread = JsonView::Text(all[index as int].thread_id);
        let close = Fields::new().with("parentThreadId", text(root)).with(
            "threadId",
            text(results[index].thread_id.as_str()),
        );
        assert(close@ =~= seq![("parentThreadId"@, JsonView::Text(root@)), ("threadId"@, thread)]);
        let archive = Fields::new().with("threadId", text(results[index].thread_id.as_str()));
        assert(archive@ =~= seq![("threadId"@, thread)]);
        let ghost first = ("thread/closeChild"@, JsonView::Object(close@));
        let ghost second = ("thread/archive"@, JsonView::Object(archive@));
        list.push(Cleanup { method: "thread/closeChild", params: close.object() });
        list.push(Cleanup { method: "thread/archive", params: archive.object() });
        assert(Seq::new(list@.len(), |i: int| cleanup_view(list@[i])) =~= before.push(first).push(
            second,
        ));
        index += 1;
    }
    list
}

/// The ranges of at most `size` sessions that run at a time, in order, from `from` on.
pub open spec fn ranges(count: int, size: int, from: int) -> Seq<(int, int)>
    decreases count - from,
{
    if size <= 0 || from >= count {
        Seq::empty()
    } else if from + size >= count {
        seq![(from, count)]
    } else {
        seq![(from, from + size)] + ranges(count, size, from + size)
    }
}

/// The ranges of at most `size` sessions that run at a time, in order.
pub fn chunks(count: usize, size: usize) -> (list: Vec<(usize, usize)>)
    requires
        size > 0,
    ensures
        Seq::new(list@.len(), |i: int| (list@[i].0 as int, list@[i].1 as int)) == ranges(
            count as int,
            size as int,
            0,
        ),
{
    let mut list: Vec<(usize, usize)> = Vec::new();
    let mut from: usize = 0;
    assert(Seq::new(list@.len(), |i: int| (list@[i].0 as int, list@[i].1 as int)) + ranges(
        count as int,
        size as int,
        0,
    ) =~= ranges(count as int, size as int, 0));
    while from < count
        invariant
            from <= count,
            size > 0,
            Seq::new(list@.len(), |i: int| (list@[i].0 as int, list@[i].1 as int)) + ranges(
                count as int,
                size as int,
                from as int,
            ) == ranges(count as int, size as int, 0),
        decreases count - from,
    {
        let ghost before = Seq::new(list@.len(), |i: int| (list@[i].0 as int, list@[i].1 as int));
        let end: usize = if count - from <= size {
            count
        } else {
            from + size
        };
        let ghost rest = ranges(count as int, size as int, from as int);
        list.push((from, end));
        proof {
            let after = Seq::new(list@.len(), |i: int| (list@[i].0 as int, list@[i].1 as int));
            assert(after =~= before.push((from as int, end as int)));
            assert(after + ranges(count as int, size as int, end as int) =~= before + rest);
        }
        from = end;
    }
    assert(Seq::new(list@.len(), |i: int| (list@[i].0 as int, list@[i].1 as int)) + Seq::<
        (int, int),
    >::empty() =~= Seq::new(list@.len(), |i: int| (list@[i].0 as int, list@[i].1 as int)));
    list
}

/// Every session is in exactly one range, and no range is longer than allowed: the first begins
/// with `from`, each begins where the one before ends, and the last ends with the last session.
pub proof fn ranges_cover(count: int, size: int, from: int)
    requires
        size > 0,
        0 <= from < count,
    ensures
        ({
            let list = ranges(count, size, from);
            &&& list.len() > 0
            &&& list[0].0 == from
            &&& list.last().1 == count
            &&& forall|i: int|
                0 <= i < list.len() ==> 0 < (#[trigger] list[i]).1 - list[i].0 <= size
            &&& forall|i: int, j: int|
                0 <= i < list.len() && j == i + 1 && j < list.len() ==> (#[trigger] list[i]).1
                    == (#[trigger] list[j]).0
        }),
    decreases count - from,
{
    if from + size < count {
        ranges_cover(count, size, from + size);
        let list = ranges(count, size, from);
        let rest = ranges(count, size, from + size);
        assert(list.last() == rest.last());
        assert forall|i: int| 0 <= i < list.len() implies 0 < (#[trigger] list[i]).1 - list[i].0
            <= size by {
            if i > 0 {
                assert(list[i] == rest[i - 1]);
            }
        }
        assert forall|i: int, j: int|
            0 <= i < list.len() && j == i + 1 && j < list.len() implies (#[trigger] list[i]).1
            == (#[trigger] list[j]).0 by {
            assert(list[j] == rest[j - 1]);
            if i > 0 {
                assert(list[i] == rest[i - 1]);
            }
        }
    }
}

} // verus!
