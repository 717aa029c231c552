//! Batches of sessions: what is made of what happens to them.
use crate::fields::{text, Fields};
use crate::json;
use crate::json::{Json, JsonView};
use crate::numeral;
use crate::numeral::numeral;
use crate::pieces;
use crate::session;
use crate::session::{ResultView, SessionResult, SessionSpec, SpecView};
use crate::table::Table;
use crate::text::same;
use crate::written;
use crate::written::to_text;
use vstd::prelude::*;

verus! {

/// The sessions of a batch.
pub struct Batch {
    pub results: Vec<SessionResult>,
    /// The sessions that are at work, by their threads.
    pub active: Table<usize>,
    /// What the threads have used up.
    pub usage: Table<Json>,
}

/// The model of a batch.
#[verifier::ext_equal]
pub struct BatchView {
    pub results: Seq<ResultView>,
    pub active: Map<Seq<char>, usize>,
    pub usage: Map<Seq<char>, JsonView>,
}

/// The models of the values of a table.
pub open spec fn values_view(table: Map<Seq<char>, Json>) -> Map<Seq<char>, JsonView> {
    Map::new(|key: Seq<char>| table.dom().contains(key), |key: Seq<char>| table[key]@)
}

impl View for Batch {
    type V = BatchView;

    open spec fn view(&self) -> BatchView {
        BatchView {
            results: session::results_view(self.results@),
            active: self.active@,
            usage: values_view(self.usage@),
        }
    }
}

impl BatchView {
    /// Every thread at work belongs to a session.
    pub open spec fn sound(self) -> bool {
        forall|thread: Seq<char>| #[trigger]
            self.active.dom().contains(thread) ==> self.active[thread] < self.results.len()
    }
}

/// What an agent said.
pub struct Message {
    /// Whether it was said in passing.
    pub commentary: bool,
    /// The value that its text spells, if it spells one.
    pub value: Option<Json>,
}

/// What happens to a batch.
pub enum Event {
    /// The app server is gone.
    Disconnected,
    /// The run was cancelled.
    Cancelled,
    /// Events were lost.
    Lagged(u64),
    /// A session calls a tool with arguments.
    ToolCall(String, String, Json),
    /// A session asks for something else.
    Request,
    /// A session has finished an item, which may be a message.
    Item(String, Json, Option<Message>),
    /// A session's turn is over; whether it was completed.
    Turn(String, bool, Json),
    /// What a thread has used up.
    Usage(String, Json),
    /// Anything else.
    Other,
}

/// The model of a message.
pub struct MessageView {
    pub commentary: bool,
    pub value: Option<JsonView>,
}

/// The model of an event.
pub enum EventView {
    Disconnected,
    Cancelled,
    Lagged(nat),
    ToolCall(Seq<char>, Seq<char>, JsonView),
    Request,
    Item(Seq<char>, JsonView, Option<MessageView>),
    Turn(Seq<char>, bool, JsonView),
    Usage(Seq<char>, JsonView),
    Other,
}

/// The model of an optional message.
pub open spec fn message_view(message: Option<Message>) -> Option<MessageView> {
    match message {
        Some(message) => Some(
            MessageView { commentary: message.commentary, value: json::optional(message.value) },
        ),
        None => None,
    }
}

impl View for Event {
    type V = EventView;

    open spec fn view(&self) -> EventView {
        match *self {
            Event::Disconnected => EventView::Disconnected,
            Event::Cancelled => EventView::Cancelled,
            Event::Lagged(skipped) => EventView::Lagged(skipped as nat),
            Event::ToolCall(thread, tool, arguments) => EventView::ToolCall(
                thread@,
                tool@,
                arguments@,
            ),
            Event::Request => EventView::Request,
            Event::Item(thread, item, message) => EventView::Item(
                thread@,
                item@,
                message_view(message),
            ),
            Event::Turn(thread, completed, turn) => EventView::Turn(thread@, completed, turn@),
            Event::Usage(thread, usage) => EventView::Usage(thread@, usage@),
            Event::Other => EventView::Other,
        }
    }
}

/// What is to be done about an event.
pub enum Action {
    /// Nothing: wait for the next one.
    Wait,
    /// The request is rejected.
    Reject,
    /// The session's tool call is answered with a value.
    Answer(usize, Json),
    /// The session's tool is to be run on a payload, and what comes of it is the answer.
    Invoke(usize, Json),
}

/// The model of an action.
pub enum ActionView {
    Wait,
    Reject,
    Answer(int, JsonView),
    Invoke(int, JsonView),
}

impl View for Action {
    type V = ActionView;

    open spec fn view(&self) -> ActionView {
        match *self {
            Action::Wait => ActionView::Wait,
            Action::Reject => ActionView::Reject,
            Action::Answer(index, value) => ActionView::Answer(index as int, value@),
            Action::Invoke(index, payload) => ActionView::Invoke(index as int, payload@),
        }
    }
}

/// Whether a session has a tool.
pub open spec fn has_tool(task: SpecView, tool: Seq<char>) -> bool {
    exists|i: int| 0 <= i < task.tools.len() && (#[trigger] task.tools[i]).at("name"@).is_text(tool)
}

/// What a tool is run on.
pub open spec fn tool_payload(tool: Seq<char>, evidence: JsonView) -> JsonView {
    JsonView::Object(seq![("name"@, JsonView::Text(tool)), ("report"@, evidence)])
}

/// What is done about a tool call.
pub open spec fn tool_action(
    batch: BatchView,
    tasks: Seq<SpecView>,
    thread: Seq<char>,
    tool: Seq<char>,
    arguments: JsonView,
) -> Result<ActionView, Seq<char>> {
    if !batch.active.dom().contains(thread) {
        Err("tool call outside active batch"@)
    } else {
        let index = batch.active[thread] as int;
        if !has_tool(tasks[index], tool) {
            Err("unregistered domain tool"@)
        } else if arguments.fields() != Some(Seq::<json::FieldView>::empty()) {
            Err("domain tools take no arguments"@)
        } else if tool == "profile_reference_with_ncu"@ {
            Ok(ActionView::Answer(index, tasks[index].evidence))
        } else {
            Ok(ActionView::Invoke(index, tool_payload(tool, tasks[index].evidence)))
        }
    }
}

/// What became of a session that finished an item: the last value that it said, not in passing,
/// is its value.
pub open spec fn noted(result: ResultView, item: JsonView, message: Option<MessageView>) -> ResultView {
    ResultView {
        events: result.events.push(item),
        value: match message {
            Some(message) => if !message.commentary && message.value is Some {
                message.value
            } else {
                result.value
            },
            None => result.value,
        },
        ..result
    }
}

/// What became of a session whose turn is over.
pub open spec fn ended(result: ResultView, completed: bool, turn: JsonView) -> ResultView {
    if !completed {
        ResultView { error: Some(written::compact(turn)), ..result }
    } else if result.value is None {
        ResultView { error: Some("missing structured submission"@), ..result }
    } else {
        result
    }
}

/// What an event makes of a batch, and what is done about it.
pub open spec fn stepped(batch: BatchView, tasks: Seq<SpecView>, event: EventView) -> (
    BatchView,
    Result<ActionView, Seq<char>>,
) {
    match event {
        EventView::Disconnected => (batch, Err("app-server disconnected"@)),
        EventView::Cancelled => (batch, Err("kernel run cancelled"@)),
        EventView::Lagged(skipped) => (
            batch,
            Err(
                "lost "@ + numeral::decimal(skipped)
                    + " session events; refusing incomplete evidence"@,
            ),
        ),
        EventView::ToolCall(thread, tool, arguments) => (
            batch,
            tool_action(batch, tasks, thread, tool, arguments),
        ),
        EventView::Request => (batch, Ok(ActionView::Reject)),
        EventView::Item(thread, item, message) => (
            if batch.active.dom().contains(thread) {
                let index = batch.active[thread] as int;
                BatchView {
                    results: batch.results.update(
                        index,
                        noted(batch.results[index], item, message),
                    ),
                    ..batch
                }
            } else {
                batch
            },
            Ok(ActionView::Wait),
        ),
        EventView::Turn(thread, completed, turn) => (
            if batch.active.dom().contains(thread) {
                let index = batch.active[thread] as int;
                BatchView {
                    results: batch.results.update(
                        index,
                        ended(batch.results[index], completed, turn),
                    ),
                    active: batch.active.remove(thread),
                    ..batch
                }
            } else {
                batch
            },
            Ok(ActionView::Wait),
        ),
        EventView::Usage(thread, usage) => (
            BatchView { usage: batch.usage.insert(thread, usage), ..batch },
            Ok(ActionView::Wait),
        ),
        EventView::Other => (batch, Ok(ActionView::Wait)),
    }
}

/// A session that was started and has no task yet.
pub open spec fn fresh(task: SpecView, thread: Seq<char>) -> ResultView {
    ResultView {
        thread_id: thread,
        turn_id: Seq::empty(),
        role: task.role,
        model: task.model,
        value: None,
        error: None,
        events: Seq::empty(),
    }
}

/// The thread of a session that was started as asked, or why it is refused.
pub open spec fn child_thread(
    child: JsonView,
    model: Seq<char>,
    provider: Seq<char>,
) -> Result<Seq<char>, Seq<char>> {
    if !(child.at("model"@).is_text(model) && child.at("modelProvider"@).is_text(provider)) {
        Err("resolved child provider/model differs from requested configuration"@)
    } else {
        match child.at("thread"@).at("id"@).text() {
            Some(thread) => Ok(thread),
            None => Err("missing child ID"@),
        }
    }
}

fn has_tool_named(tools: &Vec<Json>, tool: &str) -> (found: bool)
    ensures
        found == exists|i: int|
            0 <= i < tools@.len() && (#[trigger] json::items_view(tools@)[i]).at(
                "name"@,
            ).is_text(tool@),
{
    let ghost all = json::items_view(tools@);
    let mut index: usize = 0;
    while index < tools.len()
        invariant
            index <= tools@.len(),
            all == json::items_view(tools@),
            forall|i: int| 0 <= i < index ==> !(#[trigger] all[i]).at("name"@).is_text(tool@),
        decreases tools@.len() - index,
    {
        if tools[index].at("name").is_text(tool) {
            assert(all[index as int].at("name"@).is_text(tool@));
            return true;
        }
        index += 1;
    }
    false
}

/// How long a session may take, said of one that took longer.
pub open spec fn overtime(seconds: nat, interrupt: Option<Seq<char>>) -> Seq<char> {
    let said = "session exceeded its "@ + numeral::decimal(seconds) + "s wall-clock budget"@;
    match interrupt {
        None => said,
        Some(error) => said + "; interrupt failed: "@ + error,
    }
}

fn say_overtime(seconds: u64, interrupt: &Option<String>) -> (said: String)
    ensures
        said@ == overtime(seconds as nat, pieces::optional(*interrupt)),
{
    let said = "session exceeded its ".to_owned().concat(numeral(seconds as u128).as_str()).concat(
        "s wall-clock budget",
    );
    match interrupt {
        None => said,
        Some(error) => said.concat("; interrupt failed: ").concat(error.as_str()),
    }
}

/// The results once the first `end` of the threads at work, in their order, ran out of time;
/// `interrupts` says of each why it could not be interrupted, if it could not.
pub open spec fn expired(
    batch: BatchView,
    threads: Seq<Seq<char>>,
    interrupts: Seq<Option<Seq<char>>>,
    seconds: nat,
    end: int,
) -> Seq<ResultView>
    decreases end,
{
    if end <= 0 {
        batch.results
    } else {
        let before = expired(batch, threads, interrupts, seconds, end - 1);
        let index = batch.active[threads[end - 1]] as int;
        before.update(
            index,
            ResultView { error: Some(overtime(seconds, interrupts[end - 1])), ..before[index] },
        )
    }
}

/// The models of optional texts.
pub open spec fn optionals(list: Seq<Option<String>>) -> Seq<Option<Seq<char>>> {
    Seq::new(list.len(), |i: int| pieces::optional(list[i]))
}

/// Why a batch as a whole has failed, where neither it nor its cleanup did: the first session
/// that was no candidate's, has an error and gave no value.
pub open spec fn failure(results: Seq<ResultView>, from: int) -> Option<Seq<char>>
    decreases results.len() - from,
{
    if from < 0 || from >= results.len() {
        None
    } else if results[from].role != "candidate"@ && results[from].error is Some
        && results[from].value is None {
        Some(
            results[from].role + " session "@ + results[from].thread_id + " failed: "@
                + results[from].error->Some_0,
        )
    } else {
        failure(results, from + 1)
    }
}

/// The results of a batch, or why it has failed.
pub open spec fn finished(
    results: Seq<ResultView>,
    execution: Option<Seq<char>>,
    cleanup: Option<Seq<char>>,
) -> Result<Seq<ResultView>, Seq<char>> {
    match (execution, cleanup) {
        (Some(error), _) => Err(error),
        (None, Some(error)) => Err(error),
        (None, None) => match failure(results, 0) {
            Some(error) => Err(error),
            None => Ok(results),
        },
    }
}

impl Batch {
    /// The tables are in order, and every thread at work belongs to a session.
    pub open spec fn wf(self) -> bool {
        &&& self.active.wf()
        &&& self.usage.wf()
        &&& self@.sound()
    }

    /// A batch without sessions, where threads have used up `usage` so far.
    pub fn new(usage: Table<Json>) -> (batch: Self)
        requires
            usage.wf(),
        ensures
            batch.wf(),
            batch@ == (BatchView {
                results: Seq::empty(),
                active: Map::empty(),
                usage: values_view(usage@),
            }),
    {
        let batch = Batch { results: Vec::new(), active: Table::new(), usage };
        assert(batch@.results =~= Seq::<ResultView>::empty());
        batch
    }

    /// Whether no session is at work.
    pub fn is_done(&self) -> (done: bool)
        requires
            self.wf(),
        ensures
            done == (self@.active == Map::<Seq<char>, usize>::empty()),
    {
        let done = self.active.list.len() == 0;
        proof {
            if done {
                assert(self@.active =~= Map::<Seq<char>, usize>::empty());
            } else {
                self.active.lemma_at(0);
            }
        }
        done
    }

    /// Takes in a session that was started; what it was started as is `child`.
    pub fn opened(&mut self, task: &SessionSpec, provider: &str, child: &Json) -> (result: Result<
        String,
        String,
    >)
        requires
            old(self).wf(),
        ensures
            final(self).wf(),
            child_thread(child@, task.model@, provider@) == match result {
                Ok(thread) => Ok::<Seq<char>, Seq<char>>(thread@),
                Err(error) => Err::<Seq<char>, Seq<char>>(error@),
            },
            match result {
                Ok(thread) => final(self)@ == (BatchView {
                    results: old(self)@.results.push(fresh(task@, thread@)),
                    ..old(self)@
                }),
                Err(_) => final(self)@ == old(self)@,
            },
    {
        if !child.at("model").is_text(task.model.as_str()) || !child.at("modelProvider").is_text(
            provider,
        ) {
            return Err(
                "resolved child provider/model differs from requested configuration".to_owned(),
            );
        }
        match child.at("thread").at("id").text() {
            None => Err("missing child ID".to_owned()),
            Some(thread) => {
                let ghost before = self@;
                let result = SessionResult {
                    thread_id: thread.to_owned(),
                    turn_id: String::new(),
                    role: task.role.clone(),
                    model: task.model.clone(),
                    value: None,
                    error: None,
                    events: Vec::new(),
                };
                assert(result@ =~= fresh(task@, thread@));
                self.results.push(result);
                assert(self@.results =~= before.results.push(fresh(task@, thread@)));
                Ok(thread.to_owned())
            },
        }
    }

    /// Takes in that the session started last has its task; `turn` is what was said of it.
    pub fn turned(&mut self, turn: &Json) -> (result: Result<(), String>)
        requires
            old(self).wf(),
            old(self).results@.len() > 0,
        ensures
            final(self).wf(),
            match (result, turn@.at("turn"@).at("id"@).text()) {
                (Ok(_), Some(turn_id)) => {
                    let last = old(self)@.results.last();
                    let index = old(self)@.results.len() - 1;
                    final(self)@ == (BatchView {
                        results: old(self)@.results.update(
                            index,
                            ResultView { turn_id, ..last },
                        ),
                        active: old(self)@.active.insert(last.thread_id, index as usize),
                        ..old(self)@
                    })
                },
                (Err(error), None) => error@ == "missing turn ID"@ && final(self)@ == old(self)@,
                _ => false,
            },
    {
        match turn.at("turn").at("id").text() {
            None => Err("missing turn ID".to_owned()),
            Some(turn_id) => {
                let ghost before = self@;
                let index: usize = self.results.len() - 1;
                let thread = self.results[index].thread_id.clone();
                self.active.insert(thread.as_str(), index);
                self.results[index].turn_id = turn_id.to_owned();
                assert(self@.results =~= before.results.update(
                    index as int,
                    ResultView { turn_id: turn_id@, ..before.results.last() },
                ));
                Ok(())
            },
        }
    }

    fn tool_call(
        &self,
        tasks: &Vec<SessionSpec>,
        thread: &str,
        tool: &str,
        arguments: &Json,
    ) -> (result: Result<Action, String>)
        requires
            self.wf(),
            self.results@.len() <= tasks@.len(),
        ensures
            tool_action(self@, session::specs_view(tasks@), thread@, tool@, arguments@)
                == match result {
                Ok(action) => Ok::<ActionView, Seq<char>>(action@),
                Err(error) => Err::<ActionView, Seq<char>>(error@),
            },
    {
        let index: usize = match self.active.get(thread) {
            None => {
                return Err("tool call outside active batch".to_owned());
            },
            Some(index) => *index,
        };
        assert(session::specs_view(tasks@)[index as int] == tasks@[index as int]@);
        if !has_tool_named(&tasks[index].tools, tool) {
            return Err("unregistered domain tool".to_owned());
        }
        let empty = match arguments.fields() {
            Some(fields) => fields.len() == 0,
            None => false,
        };
        proof {
            if empty {
                assert(arguments@.fields()->Some_0 =~= Seq::<json::FieldView>::empty());
            }
        }
        if !empty {
            return Err("domain tools take no arguments".to_owned());
        }
        if same(tool, "profile_reference_with_ncu") {
            Ok(Action::Answer(index, tasks[index].evidence.clone()))
        } else {
            let payload = Fields::new().with("name", text(tool)).with(
                "report",
                tasks[index].evidence.clone(),
            );
            assert(payload@ =~= tool_payload(tool@, tasks@[index as int]@.evidence)->Object_0);
            Ok(Action::Invoke(index, payload.object()))
        }
    }

    fn note(&mut self, thread: &str, item: Json, message: Option<Message>)
        requires
            old(self).wf(),
        ensures
            final(self).wf(),
            final(self)@ == stepped(
                old(self)@,
                Seq::empty(),
                EventView::Item(thread@, item@, message_view(message)),
            ).0,
    {
        let ghost before = self@;
        let ghost given = item@;
        let ghost said = message_view(message);
        let index: usize = match self.active.get(thread) {
            None => {
                return;
            },
            Some(index) => *index,
        };
        let ghost result = self.results@[index as int];
        assert(before.results[index as int] == result@);
        self.results[index].events.push(item);
        assert(json::items_view(self.results@[index as int].events@) =~= json::items_view(
            result.events@,
        ).push(given));
        match message {
            Some(message) => {
                if !message.commentary && message.value.is_some() {
                    self.results[index].value = message.value;
                }
            },
            None => {},
        }
        assert(self.results@[index as int]@ =~= noted(result@, given, said));
        assert(self@.results =~= before.results.update(
            index as int,
            noted(result@, given, said),
        ));
    }

    fn end(&mut self, thread: &str, completed: bool, turn: &Json)
        requires
            old(self).wf(),
        ensures
            final(self).wf(),
            final(self)@ == stepped(
                old(self)@,
                Seq::empty(),
                EventView::Turn(thread@, completed, turn@),
            ).0,
    {
        let ghost before = self@;
        let index: usize = match self.active.remove(thread) {
            None => {
                assert(self@.active =~= before.active);
                return;
            },
            Some(index) => index,
        };
        let ghost result = self.results@[index as int];
        assert(before.results[index as int] == result@);
        if !completed {
            self.results[index].error = Some(to_text(turn));
        } else if self.results[index].value.is_none() {
            self.results[index].error = Some("missing structured submission".to_owned());
        }
        assert(self.results@[index as int]@ =~= ended(result@, completed, turn@));
        assert(self@.results =~= before.results.update(
            index as int,
            ended(result@, completed, turn@),
        ));
    }

    /// Takes in an event, and says what is to be done about it.
    pub fn step(&mut self, tasks: &Vec<SessionSpec>, event: Event) -> (result: Result<
        Action,
        String,
    >)
        requires
            old(self).wf(),
            old(self).results@.len() <= tasks@.len(),
        ensures
            final(self).wf(),
            final(self)@ == stepped(old(self)@, session::specs_view(tasks@), event@).0,
            stepped(old(self)@, session::specs_view(tasks@), event@).1 == match result {
                Ok(action) => Ok::<ActionView, Seq<char>>(action@),
                Err(error) => Err::<ActionView, Seq<char>>(error@),
            },
    {
        match event {
            Event::Disconnected => Err("app-server disconnected".to_owned()),
            Event::Cancelled => Err("kernel run cancelled".to_owned()),
            Event::Lagged(skipped) => Err(
                "lost ".to_owned().concat(numeral(skipped as u128).as_str()).concat(
                    " session events; refusing incomplete evidence",
                ),
            ),
            Event::ToolCall(thread, tool, arguments) => self.tool_call(
                tasks,
                thread.as_str(),
                tool.as_str(),
                &arguments,
            ),
            Event::Request => Ok(Action::Reject),
            Event::Item(thread, item, message) => {
                self.note(thread.as_str(), item, message);
                Ok(Action::Wait)
            },
            Event::Turn(thread, completed, turn) => {
                self.end(thread.as_str(), completed, &turn);
                Ok(Action::Wait)
            },
            Event::Usage(thread, usage) => {
                let ghost before = self@;
                let ghost given = usage@;
                self.usage.insert(thread.as_str(), usage);
                assert(self@.usage =~= before.usage.insert(thread@, given));
                Ok(Action::Wait)
            },
            Event::Other => Ok(Action::Wait),
        }
    }

    /// Takes in what a tool call of a session is answered, and gives the file that holds all of it
    /// and what that file holds.
    pub fn answered(&mut self, index: usize, tool: &str, value: Json) -> (file: (String, String))
        requires
            old(self).wf(),
            index < old(self).results@.len(),
        ensures
            final(self).wf(),
            file.0@ == "tool-"@ + tool@ + ".json"@,
            file.1@ == written::compact(value@),
            final(self)@ == (BatchView {
                results: old(self)@.results.update(
                    index as int,
                    ResultView {
                        events: old(self)@.results[index as int].events.push(
                            JsonView::Object(
                                seq![("tool"@, JsonView::Text(tool@)), ("evidence"@, value@)],
                            ),
                        ),
                        ..old(self)@.results[index as int]
                    },
                ),
                ..old(self)@
            }),
    {
        let ghost before = self@;
        let ghost result = self.results@[index as int];
        let held = to_text(&value);
        let ghost given = value@;
        let event = Fields::new().with("tool", text(tool)).with("evidence", value);
        assert(event@ =~= seq![("tool"@, JsonView::Text(tool@)), ("evidence"@, given)]);
        let ghost pushed = JsonView::Object(event@);
        self.results[index].events.push(event.object());
        proof {
            assert(before.results[index as int] == result@);
            assert(json::items_view(self.results@[index as int].events@) =~= json::items_view(
                result.events@,
            ).push(pushed));
            assert(self@.results =~= before.results.update(
                index as int,
                ResultView { events: result@.events.push(pushed), ..result@ },
            ));
        }
        ("tool-".to_owned().concat(tool).concat(".json"), held)
    }

    /// The sessions at work, each with its thread and its turn, in the order of their threads.
    pub fn overdue(&self) -> (list: Vec<(String, String)>)
        requires
            self.wf(),
        ensures
            Seq::new(list@.len(), |i: int| list@[i].0@) == self.active.keys(),
            forall|i: int|
                0 <= i < list@.len() ==> (#[trigger] list@[i]).1@
                    == self@.results[self@.active[list@[i].0@] as int].turn_id,
    {
        let mut list: Vec<(String, String)> = Vec::new();
        let mut index: usize = 0;
        while index < self.active.list.len()
            invariant
                index <= self.active.list@.len(),
                self.wf(),
                list@.len() == index,
                forall|i: int|
                    0 <= i < index ==> (#[trigger] list@[i]).0@ == self.active.list@[i].0@
                        && list@[i].1@ == self@.results[self@.active[list@[i].0@] as int].turn_id,
            decreases self.active.list@.len() - index,
        {
            proof {
                self.active.lemma_at(index as int);
            }
            let place: usize = self.active.list[index].1;
            assert(self@.results[place as int] == self.results@[place as int]@);
            list.push(
                (self.active.list[index].0.clone(), self.results[place].turn_id.clone()),
            );
            index += 1;
        }
        assert(Seq::new(list@.len(), |i: int| list@[i].0@) =~= self.active.keys());
        list
    }

    /// Takes in that all sessions at work ran out of time after `seconds`; `interrupts` says of
    /// each, in the order of their threads, why it could not be interrupted, if it could not.
    pub fn expire(&mut self, seconds: u64, interrupts: &Vec<Option<String>>)
        requires
            old(self).wf(),
            interrupts@.len() == old(self).active.keys().len(),
        ensures
            final(self).wf(),
            final(self)@ == (BatchView {
                results: expired(
                    old(self)@,
                    old(self).active.keys(),
                    optionals(interrupts@),
                    seconds as nat,
                    interrupts@.len() as int,
                ),
                active: Map::empty(),
                ..old(self)@
            }),
    {
        let ghost before = self@;
        let ghost threads = self.active.keys();
        let ghost said = optionals(interrupts@);
        let mut index: usize = 0;
        while index < self.active.list.len()
            invariant
                index <= self.active.list@.len(),
                self.wf(),
                interrupts@.len() == self.active.list@.len(),
                self.active.keys() == threads,
                said == optionals(interrupts@),
                self@.active == before.active,
                self@.usage == before.usage,
                self@.results.len() == before.results.len(),
                self@.results == expired(before, threads, said, seconds as nat, index as int),
            decreases self.active.list@.len() - index,
        {
            proof {
                self.active.lemma_at(index as int);
                assert(threads[index as int] == self.active.list@[index as int].0@);
            }
            let place: usize = self.active.list[index].1;
            let ghost results = self@.results;
            let ghost result = self.results@[place as int];
            assert(results[place as int] == result@);
            let error = say_overtime(seconds, &interrupts[index]);
            let ghost shown = error@;
            self.results[place].error = Some(error);
            proof {
                assert(self@.results =~= results.update(
                    place as int,
                    ResultView { error: Some(shown), ..result@ },
                ));
            }
            index += 1;
        }
        self.active.clear();
    }
}

proof fn lemma_failure(results: Seq<ResultView>, from: int, end: int)
    requires
        0 <= from <= end <= results.len(),
        forall|i: int|
            from <= i < end ==> !((#[trigger] results[i]).role != "candidate"@ && results[i].error is Some
                && results[i].value is None),
    ensures
        failure(results, from) == failure(results, end),
    decreases end - from,
{
    if from < end {
        lemma_failure(results, from + 1, end);
    }
}

fn find_failure(results: &Vec<SessionResult>) -> (found: Option<String>)
    ensures
        pieces::optional(found) == failure(session::results_view(results@), 0),
{
    let ghost all = session::results_view(results@);
    let mut index: usize = 0;
    while index < results.len()
        invariant
            index <= results@.len(),
            all == session::results_view(results@),
            forall|i: int|
                0 <= i < index ==> !((#[trigger] all[i]).role != "candidate"@ && all[i].error is Some
                    && all[i].value is None),
        decreases results@.len() - index,
    {
        assert(all[index as int] == results@[index as int]@);
        if !same(results[index].role.as_str(), "candidate") && results[index].value.is_none() {
            match &results[index].error {
                Some(error) => {
                    proof {
                        lemma_failure(all, 0, index as int);
                    }
                    return Some(
                        results[index].role.clone().concat(" session ").concat(
                            results[index].thread_id.as_str(),
                        ).concat(" failed: ").concat(error.as_str()),
                    );
                },
                None => {},
            }
        }
        index += 1;
    }
    proof {
        lemma_failure(all, 0, index as int);
    }
    None
}

/// The results of a batch; `execution` is why it has failed, `cleanup` why closing its sessions
/// has, if they did.
pub fn finish(
    results: Vec<SessionResult>,
    execution: Option<String>,
    cleanup: Option<String>,
) -> (result: Result<Vec<SessionResult>, String>)
    ensures
        finished(
            session::results_view(results@),
            pieces::optional(execution),
            pieces::optional(cleanup),
        ) == match result {
            Ok(list) => Ok::<Seq<ResultView>, Seq<char>>(session::results_view(list@)),
            Err(error) => Err::<Seq<ResultView>, Seq<char>>(error@),
        },
{
    match execution {
        Some(error) => {
            return Err(error);
        },
        None => {},
    }
    match cleanup {
        Some(error) => {
            return Err(error);
        },
        None => {},
    }
    match find_failure(&results) {
        Some(error) => Err(error),
        None => Ok(results),
    }
}

} // verus!
