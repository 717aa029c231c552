//! What sessions are asked, what they may do, and what is made of what happens to them.
use crate::fields;
use crate::json;
use crate::json::JsonView;
use crate::numeral;
use crate::session::batch;
use crate::session::batch::{ActionView, BatchView, EventView, MessageView};
use crate::session::requests;
use crate::session::{ResultView, SpecView};
use crate::written;
use vstd::prelude::*;

verus! {

/// A call names its method and what it is called on, under its number.
pub proof fn calls_are_numbered(id: nat, method: Seq<char>, params: JsonView)
    ensures
        ({
            let call = requests::rpc_record(id, method, params);
            &&& call.at("id"@) == fields::natural_view(id)
            &&& call.at("method"@) == JsonView::Text(method)
            &&& call.at("params"@) == params
        }),
{
    let list = requests::rpc_record(id, method, params)->Object_0;
    reveal_strlit("id");
    reveal_strlit("method");
    reveal_strlit("params");
    assert("method"@[0] != "params"@[0]);
    assert(list[0].0 == "id"@);
    json::lemma_at(list, 0);
    assert(list[1].0 == "method"@);
    json::lemma_at(list, 1);
    assert(list[2].0 == "params"@);
    json::lemma_at(list, 2);
}

/// A session is started below the root with its model, its workspace, its instructions and its
/// tools; it may write to its workspace alone, and neither start agents nor remember.
pub proof fn sessions_are_started_confined(
    root: Seq<char>,
    provider: Seq<char>,
    task: SpecView,
    instructions: Seq<char>,
)
    ensures
        ({
            let started = requests::child_record(root, provider, task, instructions);
            let startup = started.at("startup"@);
            let config = startup.at("config"@);
            &&& started.at("parentThreadId"@) == JsonView::Text(root)
            &&& startup.at("model"@) == JsonView::Text(task.model)
            &&& startup.at("modelProvider"@) == JsonView::Text(provider)
            &&& startup.at("cwd"@) == JsonView::Text(task.cwd)
            &&& startup.at("runtimeWorkspaceRoots"@) == JsonView::Array(
                seq![JsonView::Text(task.cwd)],
            )
            &&& startup.at("developerInstructions"@) == JsonView::Text(instructions)
            &&& startup.at("dynamicTools"@) == JsonView::Array(task.tools)
            &&& startup.at("sandbox"@) == JsonView::Text("workspace-write"@)
            &&& config.at("agents.enabled"@) == JsonView::Bool(false)
            &&& config.at("features.multi_agent_v2"@) == JsonView::Bool(false)
            &&& config.at("features.memories"@) == JsonView::Bool(false)
            &&& config.at("sandbox_workspace_write.writable_roots"@) == JsonView::Array(
                Seq::empty(),
            )
            &&& config.at("sandbox_workspace_write.exclude_tmpdir_env_var"@) == JsonView::Bool(true)
            &&& config.at("sandbox_workspace_write.exclude_slash_tmp"@) == JsonView::Bool(true)
        }),
{
    let list = requests::child_record(root, provider, task, instructions)->Object_0;
    reveal_strlit("parentThreadId");
    reveal_strlit("startup");
    assert(list[0].0 == "parentThreadId"@);
    json::lemma_at(list, 0);
    assert(list[1].0 == "startup"@);
    json::lemma_at(list, 1);
    let startup = list[1].1->Object_0;
    reveal_strlit("model");
    reveal_strlit("modelProvider");
    reveal_strlit("cwd");
    reveal_strlit("runtimeWorkspaceRoots");
    reveal_strlit("developerInstructions");
    reveal_strlit("dynamicTools");
    reveal_strlit("sandbox");
    reveal_strlit("config");
    assert("runtimeWorkspaceRoots"@[0] != "developerInstructions"@[0]);
    assert(startup[0].0 == "model"@);
    json::lemma_at(startup, 0);
    assert(startup[1].0 == "modelProvider"@);
    json::lemma_at(startup, 1);
    assert(startup[2].0 == "cwd"@);
    json::lemma_at(startup, 2);
    assert(startup[3].0 == "runtimeWorkspaceRoots"@);
    json::lemma_at(startup, 3);
    assert(startup[4].0 == "developerInstructions"@);
    json::lemma_at(startup, 4);
    assert(startup[5].0 == "dynamicTools"@);
    json::lemma_at(startup, 5);
    assert(startup[6].0 == "sandbox"@);
    json::lemma_at(startup, 6);
    assert(startup[7].0 == "config"@);
    json::lemma_at(startup, 7);
    let config = requests::child_config()->Object_0;
    reveal_strlit("agents.enabled");
    reveal_strlit("features.multi_agent_v2");
    reveal_strlit("features.memories");
    reveal_strlit("sandbox_workspace_write.writable_roots");
    reveal_strlit("sandbox_workspace_write.exclude_tmpdir_env_var");
    reveal_strlit("sandbox_workspace_write.exclude_slash_tmp");
    assert(config[0].0 == "agents.enabled"@);
    json::lemma_at(config, 0);
    assert(config[1].0 == "features.multi_agent_v2"@);
    json::lemma_at(config, 1);
    assert(config[2].0 == "features.memories"@);
    json::lemma_at(config, 2);
    assert(config[3].0 == "sandbox_workspace_write.writable_roots"@);
    json::lemma_at(config, 3);
    assert(config[4].0 == "sandbox_workspace_write.exclude_tmpdir_env_var"@);
    json::lemma_at(config, 4);
    assert(config[5].0 == "sandbox_workspace_write.exclude_slash_tmp"@);
    json::lemma_at(config, 5);
}

/// A session is given its task as one text, with the form that its answer is to have; it is
/// interrupted by its thread and its turn, and a tool call is answered with one text.
pub proof fn tasks_are_given_as_text(
    thread: Seq<char>,
    input: Seq<char>,
    schema: JsonView,
    turn: Seq<char>,
    shown: Seq<char>,
)
    ensures
        ({
            let given = requests::turn_record(thread, input, schema);
            &&& given.at("threadId"@) == JsonView::Text(thread)
            &&& given.at("outputSchema"@) == schema
            &&& given.at("input"@) matches JsonView::Array(items)
            &&& items.len() == 1
            &&& items[0].at("type"@) == JsonView::Text("text"@)
            &&& items[0].at("text"@) == JsonView::Text(input)
            &&& items[0].at("textElements"@) == JsonView::Array(Seq::empty())
        }),
        ({
            let stopped = requests::interrupt_record(thread, turn);
            &&& stopped.at("threadId"@) == JsonView::Text(thread)
            &&& stopped.at("turnId"@) == JsonView::Text(turn)
        }),
        ({
            let answer = requests::answer_record(shown);
            &&& answer.at("success"@) == JsonView::Bool(true)
            &&& answer.at("contentItems"@) matches JsonView::Array(items)
            &&& items.len() == 1
            &&& items[0].at("type"@) == JsonView::Text("inputText"@)
            &&& items[0].at("text"@) == JsonView::Text(shown)
        }),
{
    let list = requests::turn_record(thread, input, schema)->Object_0;
    reveal_strlit("threadId");
    reveal_strlit("input");
    reveal_strlit("outputSchema");
    assert(list[0].0 == "threadId"@);
    json::lemma_at(list, 0);
    assert(list[1].0 == "input"@);
    json::lemma_at(list, 1);
    assert(list[2].0 == "outputSchema"@);
    json::lemma_at(list, 2);
    let item = list[1].1->Array_0[0]->Object_0;
    reveal_strlit("type");
    reveal_strlit("text");
    reveal_strlit("textElements");
    assert("type"@[1] != "text"@[1]);
    assert(item[0].0 == "type"@);
    json::lemma_at(item, 0);
    assert(item[1].0 == "text"@);
    json::lemma_at(item, 1);
    assert(item[2].0 == "textElements"@);
    json::lemma_at(item, 2);
    let stopped = requests::interrupt_record(thread, turn)->Object_0;
    reveal_strlit("threadId");
    reveal_strlit("turnId");
    assert(stopped[0].0 == "threadId"@);
    json::lemma_at(stopped, 0);
    assert(stopped[1].0 == "turnId"@);
    json::lemma_at(stopped, 1);
    let answer = requests::answer_record(shown)->Object_0;
    reveal_strlit("success");
    reveal_strlit("contentItems");
    assert(answer[0].0 == "success"@);
    json::lemma_at(answer, 0);
    assert(answer[1].0 == "contentItems"@);
    json::lemma_at(answer, 1);
    let part = answer[1].1->Array_0[0]->Object_0;
    reveal_strlit("type");
    reveal_strlit("text");
    assert("type"@[1] != "text"@[1]);
    assert(part[0].0 == "type"@);
    json::lemma_at(part, 0);
    assert(part[1].0 == "text"@);
    json::lemma_at(part, 1);
}

/// Every session of a batch is closed for the root and then archived, in their order.
pub proof fn sessions_are_closed_and_archived(root: Seq<char>, results: Seq<ResultView>, end: int, at: int)
    requires
        0 <= at < end <= results.len(),
    ensures
        ({
            let list = requests::cleanups(root, results, end);
            let thread = JsonView::Text(results[at].thread_id);
            &&& list.len() == 2 * end
            &&& list[2 * at].0 == "thread/closeChild"@
            &&& list[2 * at].1.at("parentThreadId"@) == JsonView::Text(root)
            &&& list[2 * at].1.at("threadId"@) == thread
            &&& list[2 * at + 1].0 == "thread/archive"@
            &&& list[2 * at + 1].1.at("threadId"@) == thread
        }),
    decreases end,
{
    lemma_cleanups(root, results, end - 1);
    if at < end - 1 {
        sessions_are_closed_and_archived(root, results, end - 1, at);
    } else {
        let list = requests::cleanups(root, results, end);
        let close = list[2 * at].1->Object_0;
        reveal_strlit("parentThreadId");
        reveal_strlit("threadId");
        assert(close[0].0 == "parentThreadId"@);
        json::lemma_at(close, 0);
        assert(close[1].0 == "threadId"@);
        json::lemma_at(close, 1);
        let archive = list[2 * at + 1].1->Object_0;
        reveal_strlit("threadId");
        assert(archive[0].0 == "threadId"@);
        json::lemma_at(archive, 0);
    }
}

proof fn lemma_cleanups(root: Seq<char>, results: Seq<ResultView>, end: int)
    requires
        0 <= end,
    ensures
        requests::cleanups(root, results, end).len() == 2 * end,
    decreases end,
{
    if end > 0 {
        lemma_cleanups(root, results, end - 1);
    }
}

/// A tool call is answered only of a session at work, for a tool that it was offered, and without
/// arguments: the reference's measurements at once, any other tool by running it on the evidence.
pub proof fn tool_calls_are_checked(
    batch: BatchView,
    tasks: Seq<SpecView>,
    thread: Seq<char>,
    tool: Seq<char>,
    arguments: JsonView,
)
    ensures
        ({
            let (after, done) = batch::stepped(
                batch,
                tasks,
                EventView::ToolCall(thread, tool, arguments),
            );
            let works = batch.active.dom().contains(thread);
            let index = batch.active[thread] as int;
            let offered = exists|i: int|
                0 <= i < tasks[index].tools.len() && (#[trigger] tasks[index].tools[i]).at("name"@)
                    == JsonView::Text(tool);
            let bare = arguments == JsonView::Object(Seq::empty());
            &&& after == batch
            &&& !works ==> done == Err::<ActionView, Seq<char>>("tool call outside active batch"@)
            &&& works && !offered ==> done == Err::<ActionView, Seq<char>>(
                "unregistered domain tool"@,
            )
            &&& works && offered && !bare ==> done == Err::<ActionView, Seq<char>>(
                "domain tools take no arguments"@,
            )
            &&& works && offered && bare && tool == "profile_reference_with_ncu"@ ==> done == Ok::<
                ActionView,
                Seq<char>,
            >(ActionView::Answer(index, tasks[index].evidence))
            &&& works && offered && bare && tool != "profile_reference_with_ncu"@ ==> {
                &&& done is Ok
                &&& done->Ok_0 matches ActionView::Invoke(at, payload)
                &&& at == index
                &&& payload.at("name"@) == JsonView::Text(tool)
                &&& payload.at("report"@) == tasks[index].evidence
            }
        }),
{
    let index = batch.active[thread] as int;
    let task = tasks[index];
    if batch::has_tool(task, tool) {
        let i = choose|i: int|
            0 <= i < task.tools.len() && (#[trigger] task.tools[i]).at("name"@).is_text(tool);
        assert(task.tools[i].at("name"@) == JsonView::Text(tool));
    }
    if exists|i: int|
        0 <= i < task.tools.len() && (#[trigger] task.tools[i]).at("name"@) == JsonView::Text(tool) {
        let i = choose|i: int|
            0 <= i < task.tools.len() && (#[trigger] task.tools[i]).at("name"@) == JsonView::Text(
                tool,
            );
        assert(task.tools[i].at("name"@).is_text(tool));
    }
    let payload = batch::tool_payload(tool, task.evidence)->Object_0;
    reveal_strlit("name");
    reveal_strlit("report");
    assert(payload[0].0 == "name"@);
    json::lemma_at(payload, 0);
    assert(payload[1].0 == "report"@);
    json::lemma_at(payload, 1);
}

/// A session's value is the last one that it said, not in passing; every item that it finishes is
/// kept, and no other session is touched.
pub proof fn values_are_the_last_said(
    batch: BatchView,
    tasks: Seq<SpecView>,
    thread: Seq<char>,
    item: JsonView,
    message: Option<MessageView>,
    other: int,
)
    requires
        batch.active.dom().contains(thread),
        batch.active[thread] < batch.results.len(),
        0 <= other < batch.results.len(),
    ensures
        ({
            let (after, done) = batch::stepped(batch, tasks, EventView::Item(thread, item, message));
            let index = batch.active[thread] as int;
            let before = batch.results[index];
            let now = after.results[index];
            let counts = message is Some && !message->Some_0.commentary
                && message->Some_0.value is Some;
            &&& done == Ok::<ActionView, Seq<char>>(ActionView::Wait)
            &&& after.active == batch.active && after.usage == batch.usage
            &&& after.results.len() == batch.results.len()
            &&& other != index ==> after.results[other] == batch.results[other]
            &&& now.events == before.events.push(item)
            &&& now.error == before.error && now.role == before.role && now.thread_id
                == before.thread_id
            &&& counts ==> now.value == message->Some_0.value
            &&& !counts ==> now.value == before.value
        }),
{
}

/// A turn that is over leaves an error exactly if it was not completed, which is told with the turn,
/// or if the session gave no value; what it gave stays.
pub proof fn turns_without_a_value_have_failed(
    batch: BatchView,
    tasks: Seq<SpecView>,
    thread: Seq<char>,
    completed: bool,
    turn: JsonView,
)
    requires
        batch.active.dom().contains(thread),
        batch.active[thread] < batch.results.len(),
    ensures
        ({
            let after = batch::stepped(batch, tasks, EventView::Turn(thread, completed, turn)).0;
            let index = batch.active[thread] as int;
            let before = batch.results[index];
            let now = after.results[index];
            &&& after.active == batch.active.remove(thread)
            &&& now.value == before.value && now.events == before.events
            &&& !completed ==> now.error == Some(written::compact(turn))
            &&& completed && before.value is None ==> now.error == Some(
                "missing structured submission"@,
            )
            &&& completed && before.value is Some ==> now.error == before.error
        }),
{
}

/// What ends a batch: the server is gone, the run is cancelled, or events were lost; what only a
/// person could answer is rejected, and what a thread has used up is noted.
pub proof fn broken_batches_end(
    batch: BatchView,
    tasks: Seq<SpecView>,
    skipped: nat,
    thread: Seq<char>,
    usage: JsonView,
)
    ensures
        batch::stepped(batch, tasks, EventView::Disconnected) == (
            batch,
            Err::<ActionView, Seq<char>>("app-server disconnected"@),
        ),
        batch::stepped(batch, tasks, EventView::Cancelled) == (
            batch,
            Err::<ActionView, Seq<char>>("kernel run cancelled"@),
        ),
        batch::stepped(batch, tasks, EventView::Lagged(skipped)) == (
            batch,
            Err::<ActionView, Seq<char>>(
                "lost "@ + numeral::decimal(skipped)
                    + " session events; refusing incomplete evidence"@,
            ),
        ),
        batch::stepped(batch, tasks, EventView::Request) == (
            batch,
            Ok::<ActionView, Seq<char>>(ActionView::Reject),
        ),
        batch::stepped(batch, tasks, EventView::Usage(thread, usage)).0.usage
            == batch.usage.insert(thread, usage),
        batch::stepped(batch, tasks, EventView::Usage(thread, usage)).0.results == batch.results,
{
}

/// A session counts as started exactly if it says that it runs with the model and the provider that
/// were asked for and names its thread; it begins with neither a value nor an error.
pub proof fn sessions_start_as_asked(
    child: JsonView,
    model: Seq<char>,
    provider: Seq<char>,
    task: SpecView,
    thread: Seq<char>,
)
    ensures
        ({
            let agreed = child.at("model"@) == JsonView::Text(model) && child.at("modelProvider"@)
                == JsonView::Text(provider);
            match batch::child_thread(child, model, provider) {
                Ok(thread) => agreed && child.at("thread"@).at("id"@) == JsonView::Text(thread),
                Err(reason) => {
                    &&& !agreed ==> reason
                        == "resolved child provider/model differs from requested configuration"@
                    &&& agreed ==> reason == "missing child ID"@ && !(child.at("thread"@).at("id"@)
                        is Text)
                },
            }
        }),
        ({
            let fresh = batch::fresh(task, thread);
            &&& fresh.thread_id == thread && fresh.role == task.role && fresh.model == task.model
            &&& fresh.value is None && fresh.error is None && fresh.events.len() == 0
        }),
{
}

/// Whether a session makes its batch fail: it was no candidate's, has an error and gave no value.
pub open spec fn spoils(result: ResultView) -> bool {
    result.role != "candidate"@ && result.error is Some && result.value is None
}

proof fn lemma_failure(results: Seq<ResultView>, from: int)
    requires
        0 <= from,
    ensures
        match batch::failure(results, from) {
            Some(reason) => exists|i: int|
                from <= i < results.len() && spoils(#[trigger] results[i]) && reason
                    == results[i].role + " session "@ + results[i].thread_id + " failed: "@
                    + results[i].error->Some_0 && forall|j: int|
                    from <= j < i ==> !spoils(#[trigger] results[j]),
            None => forall|i: int| from <= i < results.len() ==> !spoils(#[trigger] results[i]),
        },
    decreases results.len() - from,
{
    if from < results.len() {
        if spoils(results[from]) {
            assert(spoils(results[from]));
        } else {
            lemma_failure(results, from + 1);
            if let Some(reason) = batch::failure(results, from + 1) {
                let i = choose|i: int|
                    from + 1 <= i < results.len() && spoils(#[trigger] results[i]) && reason
                        == results[i].role + " session "@ + results[i].thread_id + " failed: "@
                        + results[i].error->Some_0 && forall|j: int|
                        from + 1 <= j < i ==> !spoils(#[trigger] results[j]);
                assert(spoils(results[i]));
            }
        }
    }
}

/// A batch gives its results exactly if neither it nor its cleanup failed and no session spoils it;
/// the reason of the batch itself goes first, then that of the cleanup, then the first such session.
pub proof fn batches_fail_with_their_roles(
    results: Seq<ResultView>,
    execution: Option<Seq<char>>,
    cleanup: Option<Seq<char>>,
)
    ensures
        match batch::finished(results, execution, cleanup) {
            Ok(given) => {
                &&& given == results
                &&& execution is None && cleanup is None
                &&& forall|i: int| 0 <= i < results.len() ==> !spoils(#[trigger] results[i])
            },
            Err(reason) => {
                &&& execution matches Some(error) ==> reason == error
                &&& execution is None && cleanup is Some ==> reason == cleanup->Some_0
                &&& execution is None && cleanup is None ==> exists|i: int|
                    0 <= i < results.len() && spoils(#[trigger] results[i]) && reason
                        == results[i].role + " session "@ + results[i].thread_id + " failed: "@
                        + results[i].error->Some_0 && forall|j: int|
                        0 <= j < i ==> !spoils(#[trigger] results[j])
            },
        },
{
    lemma_failure(results, 0);
}

/// A session that took too long is told of by its time, and by why it could not be interrupted.
pub proof fn overtime_is_told(seconds: nat, error: Seq<char>)
    ensures
        batch::overtime(seconds, None) == "session exceeded its "@ + numeral::decimal(seconds)
            + "s wall-clock budget"@,
        batch::overtime(seconds, Some(error)) == "session exceeded its "@ + numeral::decimal(seconds)
            + "s wall-clock budget"@ + "; interrupt failed: "@ + error,
{
}

} // verus!
