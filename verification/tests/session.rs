use cubineer::json::Json;
use cubineer::number::{Number, Reading, Real};
use cubineer::session::batch::{finish, Action, Batch, Event, Message};
use cubineer::session::requests::{
    answer, child_request, chunks, cleanup, interrupt_request, rejection, rpc, turn_request,
    REJECTION_CODE,
};
use cubineer::session::{tool, SessionResult, SessionSpec};
use cubineer::table::Table;
use cubineer::written::to_text;

fn ranked(value: f64) -> Real {
    Real::from_bits(value.to_bits())
}

fn reading(value: f64) -> Reading {
    let whole = value.fract() == 0.0 && value >= -(2f64.powi(63)) && value < 2f64.powi(64);
    Reading {
        value: ranked(value),
        text: serde_json::to_string(&value).unwrap(),
        tenths: format!("{value:.1}"),
        units: format!("{value:.0}"),
        whole: if whole { Some(value as i128) } else { None },
        fractional: value.fract() != 0.0,
    }
}

fn convert(value: &serde_json::Value) -> Json {
    match value {
        serde_json::Value::Null => Json::Null,
        serde_json::Value::Bool(value) => Json::Bool(*value),
        serde_json::Value::Number(number) => {
            let shown = reading(number.as_f64().unwrap());
            if let Some(value) = number.as_u64() {
                Json::Number(Number::Integer(value as i128, Some(shown)))
            } else if let Some(value) = number.as_i64() {
                Json::Number(Number::Integer(value as i128, Some(shown)))
            } else {
                Json::Number(Number::Decimal(shown))
            }
        }
        serde_json::Value::String(value) => Json::Text(value.clone()),
        serde_json::Value::Array(items) => Json::Array(items.iter().map(convert).collect()),
        serde_json::Value::Object(fields) => Json::Object(
            fields.iter().map(|(key, value)| (key.clone(), convert(value))).collect(),
        ),
    }
}

fn json(text: &str) -> Json {
    convert(&serde_json::from_str(text).unwrap())
}

fn task(role: &str, tools: Vec<Json>) -> SessionSpec {
    SessionSpec {
        role: role.to_string(),
        model: "model".to_string(),
        cwd: "/work".to_string(),
        instructions: "do".to_string(),
        input: "this".to_string(),
        schema: json("{\"type\": \"object\"}"),
        tools,
        evidence: json("{\"metrics\": {}}"),
    }
}

fn child(thread: &str) -> Json {
    json(&format!(
        "{{\"model\": \"model\", \"modelProvider\": \"provider\", \"thread\": {{\"id\": \"{thread}\"}}}}"
    ))
}

fn turn(id: &str) -> Json {
    json(&format!("{{\"turn\": {{\"id\": \"{id}\"}}}}"))
}

fn running(tasks: &[SessionSpec]) -> Batch {
    let mut batch = Batch::new(Table::new());
    for (index, task) in tasks.iter().enumerate() {
        batch.opened(task, "provider", &child(&format!("thread-{index}"))).unwrap();
        batch.turned(&turn(&format!("turn-{index}"))).unwrap();
    }
    batch
}

fn said(batch: &mut Batch, tasks: &Vec<SessionSpec>, thread: &str, commentary: bool, text: &str) {
    let message = Message { commentary, value: Some(json(text)) };
    let event = Event::Item(thread.to_string(), json("{\"type\": \"agentMessage\"}"), Some(message));
    assert!(matches!(batch.step(tasks, event), Ok(Action::Wait)));
}

#[test]
fn sessions_start_as_asked() {
    let mut batch = Batch::new(Table::new());
    let task = task("candidate", Vec::new());
    let other = json("{\"model\": \"other\", \"modelProvider\": \"provider\", \"thread\": {\"id\": \"t\"}}");
    assert_eq!(
        batch.opened(&task, "provider", &other),
        Err("resolved child provider/model differs from requested configuration".to_string())
    );
    let nameless = json("{\"model\": \"model\", \"modelProvider\": \"provider\"}");
    assert_eq!(
        batch.opened(&task, "provider", &nameless),
        Err("missing child ID".to_string())
    );
    assert!(batch.is_done());
    assert_eq!(batch.opened(&task, "provider", &child("t")), Ok("t".to_string()));
    assert_eq!(batch.turned(&json("{}")), Err("missing turn ID".to_string()));
    assert!(batch.is_done());
    assert_eq!(batch.turned(&turn("u")), Ok(()));
    assert!(!batch.is_done());
    assert_eq!(batch.results[0].turn_id, "u");
}

#[test]
fn the_last_value_that_is_no_commentary_counts() {
    let tasks = vec![task("candidate", Vec::new())];
    let mut batch = running(&tasks);
    said(&mut batch, &tasks, "thread-0", false, "{\"code\": \"a\"}");
    said(&mut batch, &tasks, "thread-0", false, "{\"code\": \"b\"}");
    said(&mut batch, &tasks, "thread-0", true, "{\"code\": \"c\"}");
    said(&mut batch, &tasks, "stranger", false, "{\"code\": \"d\"}");
    let event = Event::Turn("thread-0".to_string(), true, Json::Null);
    assert!(matches!(batch.step(&tasks, event), Ok(Action::Wait)));
    assert!(batch.is_done());
    assert_eq!(to_text(batch.results[0].value.as_ref().unwrap()), "{\"code\":\"b\"}");
    assert_eq!(batch.results[0].error, None);
    assert_eq!(batch.results[0].events.len(), 3);
}

#[test]
fn turns_without_a_value_are_errors() {
    let tasks = vec![task("candidate", Vec::new()), task("candidate", Vec::new())];
    let mut batch = running(&tasks);
    batch.step(&tasks, Event::Turn("thread-0".to_string(), true, Json::Null)).ok();
    let failed = json("{\"status\": \"failed\"}");
    batch.step(&tasks, Event::Turn("thread-1".to_string(), false, failed)).ok();
    assert!(batch.is_done());
    assert_eq!(batch.results[0].error.as_deref(), Some("missing structured submission"));
    assert_eq!(batch.results[1].error.as_deref(), Some("{\"status\":\"failed\"}"));
}

#[test]
fn tool_calls_are_checked() {
    let tools = vec![tool("profile_reference_with_ncu", "read"), tool("occupancy", "look")];
    let tasks = vec![task("reference", tools)];
    let mut batch = running(&tasks);
    let call = |thread: &str, name: &str, arguments: &str| {
        Event::ToolCall(thread.to_string(), name.to_string(), json(arguments))
    };
    assert_eq!(
        batch.step(&tasks, call("stranger", "occupancy", "{}")).err(),
        Some("tool call outside active batch".to_string())
    );
    assert_eq!(
        batch.step(&tasks, call("thread-0", "other", "{}")).err(),
        Some("unregistered domain tool".to_string())
    );
    assert_eq!(
        batch.step(&tasks, call("thread-0", "occupancy", "{\"a\": 1}")).err(),
        Some("domain tools take no arguments".to_string())
    );
    match batch.step(&tasks, call("thread-0", "occupancy", "{}")) {
        Ok(Action::Invoke(0, payload)) => assert_eq!(
            to_text(&payload),
            "{\"name\":\"occupancy\",\"report\":{\"metrics\":{}}}"
        ),
        _ => panic!("the tool is to be run"),
    }
    match batch.step(&tasks, call("thread-0", "profile_reference_with_ncu", "{}")) {
        Ok(Action::Answer(0, value)) => assert_eq!(to_text(&value), "{\"metrics\":{}}"),
        _ => panic!("the measurements are known"),
    }
    let (file, held) = batch.answered(0, "occupancy", json("{\"text\": \"fine\"}"));
    assert_eq!((file.as_str(), held.as_str()), ("tool-occupancy.json", "{\"text\":\"fine\"}"));
    assert_eq!(
        to_text(&batch.results[0].events[0]),
        "{\"tool\":\"occupancy\",\"evidence\":{\"text\":\"fine\"}}"
    );
    assert_eq!(
        to_text(&answer("shown")),
        "{\"success\":true,\"contentItems\":[{\"type\":\"inputText\",\"text\":\"shown\"}]}"
    );
}

#[test]
fn lost_events_end_a_batch() {
    let tasks = vec![task("candidate", Vec::new())];
    let mut batch = running(&tasks);
    assert_eq!(
        batch.step(&tasks, Event::Lagged(12)).err(),
        Some("lost 12 session events; refusing incomplete evidence".to_string())
    );
    assert_eq!(
        batch.step(&tasks, Event::Disconnected).err(),
        Some("app-server disconnected".to_string())
    );
    assert_eq!(
        batch.step(&tasks, Event::Cancelled).err(),
        Some("kernel run cancelled".to_string())
    );
    assert!(matches!(batch.step(&tasks, Event::Request), Ok(Action::Reject)));
    assert!(matches!(batch.step(&tasks, Event::Other), Ok(Action::Wait)));
    assert_eq!(REJECTION_CODE, -32000);
    assert!(rejection().starts_with("This headless run cannot answer"));
}

#[test]
fn usage_is_kept_by_thread() {
    let tasks = vec![task("candidate", Vec::new())];
    let mut batch = running(&tasks);
    for (thread, used) in [("b", "1"), ("a", "2"), ("b", "3")] {
        batch.step(&tasks, Event::Usage(thread.to_string(), json(used))).ok();
    }
    assert_eq!(to_text(batch.usage.get("b").unwrap()), "3");
    let threads: Vec<&str> = batch.usage.list.iter().map(|entry| entry.0.as_str()).collect();
    assert_eq!(threads, vec!["a", "b"]);
}

#[test]
fn overdue_sessions_are_interrupted_in_order() {
    let tasks = vec![task("candidate", Vec::new()), task("candidate", Vec::new())];
    let mut batch = Batch::new(Table::new());
    for thread in ["z", "y"] {
        batch.opened(&tasks[0], "provider", &child(thread)).unwrap();
        batch.turned(&turn(&format!("turn-{thread}"))).unwrap();
    }
    assert_eq!(
        batch.overdue(),
        vec![
            ("y".to_string(), "turn-y".to_string()),
            ("z".to_string(), "turn-z".to_string())
        ]
    );
    batch.expire(900, &vec![None, Some("gone".to_string())]);
    assert!(batch.is_done());
    assert_eq!(
        batch.results[1].error.as_deref(),
        Some("session exceeded its 900s wall-clock budget")
    );
    assert_eq!(
        batch.results[0].error.as_deref(),
        Some("session exceeded its 900s wall-clock budget; interrupt failed: gone")
    );
    assert_eq!(
        to_text(&interrupt_request("y", "turn-y")),
        "{\"threadId\":\"y\",\"turnId\":\"turn-y\"}"
    );
}

fn result(role: &str, error: Option<&str>, value: Option<Json>) -> SessionResult {
    SessionResult {
        thread_id: "t".to_string(),
        turn_id: "u".to_string(),
        role: role.to_string(),
        model: "model".to_string(),
        value,
        error: error.map(str::to_string),
        events: Vec::new(),
    }
}

#[test]
fn roles_that_gave_nothing_fail_the_batch() {
    assert_eq!(
        finish(vec![result("profile", Some("late"), None)], None, None).err(),
        Some("profile session t failed: late".to_string())
    );
    assert!(finish(vec![result("candidate", Some("late"), None)], None, None).is_ok());
    assert!(finish(vec![result("profile", Some("late"), Some(Json::Null))], None, None).is_ok());
    let lost = Some("lost".to_string());
    assert_eq!(finish(Vec::new(), lost.clone(), Some("open".to_string())).err(), lost);
    assert_eq!(finish(Vec::new(), None, Some("open".to_string())).err(), Some("open".to_string()));
}

#[test]
fn sessions_are_closed_and_archived() {
    let list = cleanup("root", &vec![result("candidate", None, None)]);
    assert_eq!(list.len(), 2);
    assert_eq!(list[0].method, "thread/closeChild");
    assert_eq!(to_text(&list[0].params), "{\"parentThreadId\":\"root\",\"threadId\":\"t\"}");
    assert_eq!(list[1].method, "thread/archive");
    assert_eq!(to_text(&list[1].params), "{\"threadId\":\"t\"}");
}

#[test]
fn chunks_cover_all_sessions() {
    assert_eq!(chunks(0, 2), Vec::<(usize, usize)>::new());
    assert_eq!(chunks(5, 2), vec![(0, 2), (2, 4), (4, 5)]);
    assert_eq!(chunks(4, 2), vec![(0, 2), (2, 4)]);
    assert_eq!(chunks(3, usize::MAX), vec![(0, 3)]);
}

#[test]
fn requests_hold_what_was_asked() {
    assert_eq!(
        to_text(&rpc(7, "thread/start", json("{}"))),
        "{\"id\":7,\"method\":\"thread/start\",\"params\":{}}"
    );
    let task = task("candidate", Vec::new());
    let request = to_text(&child_request("root", "provider", &task, "shown"));
    let parsed: serde_json::Value = serde_json::from_str(&request).unwrap();
    assert_eq!(parsed["parentThreadId"], "root");
    assert_eq!(parsed["startup"]["runtimeWorkspaceRoots"][0], "/work");
    assert_eq!(parsed["startup"]["developerInstructions"], "shown");
    assert_eq!(parsed["startup"]["config"]["agents.enabled"], false);
    assert_eq!(
        to_text(&turn_request("t", "input", &task.schema)),
        "{\"threadId\":\"t\",\"input\":[{\"type\":\"text\",\"text\":\"input\",\"textElements\":[]}],\"outputSchema\":{\"type\":\"object\"}}"
    );
    assert_eq!(
        to_text(&tool("a", "b")),
        "{\"type\":\"function\",\"name\":\"a\",\"description\":\"b\",\"inputSchema\":{\"type\":\"object\",\"properties\":{},\"required\":[],\"additionalProperties\":false}}"
    );
    assert_eq!(
        to_text(&result("candidate", Some("e"), None).record()),
        "{\"thread_id\":\"t\",\"turn_id\":\"u\",\"role\":\"candidate\",\"model\":\"model\",\"value\":null,\"error\":\"e\",\"events\":[]}"
    );
}

#[test]
fn tables_are_in_order() {
    let mut table: Table<u64> = Table::new();
    table.insert("b", 2);
    table.insert("a", 1);
    table.insert("c", 3);
    table.insert("b", 4);
    assert_eq!(table.get("b"), Some(&4));
    assert_eq!(table.remove("a"), Some(1));
    assert_eq!(table.remove("a"), None);
    let keys: Vec<&str> = table.list.iter().map(|entry| entry.0.as_str()).collect();
    assert_eq!(keys, vec!["b", "c"]);
    table.clear();
    assert_eq!(table.get("b"), None);
}
