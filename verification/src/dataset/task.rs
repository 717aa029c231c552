//! What is read from a task's file.
use crate::dataset::docstring;
use crate::dataset::docstring::clean_docstring;
use crate::dataset::source;
use crate::dataset::source::read_statements;
use crate::dataset::tree;
use crate::dataset::tree::{declares, select, views, Kind, KindView, Statement, StatementView};
use crate::fields;
use crate::fields::Fields;
use crate::identity::text_digest;
use crate::json;
use crate::json::{Json, JsonView};
use crate::numeral;
use crate::outside;
use crate::outside::{decode, digest, read_python};
use crate::pieces;
use crate::pieces::{join, replace};
use crate::text;
use crate::text::{chars, same, slice};
use vstd::prelude::*;

verus! {

/// A file's text with every line ended by a line feed.
pub open spec fn line_fed(content: Seq<char>) -> Seq<char> {
    pieces::replaced(pieces::replaced(content, "\r\n"@, "\n"@), "\r"@, "\n"@)
}

/// A file's text with every line ended by a line feed.
pub fn normalize_lines(content: &str) -> (result: String)
    ensures
        result@ == line_fed(content@),
{
    replace(replace(content, "\r\n", "\n").as_str(), "\r", "\n")
}

/// The place where the line of `index` begins.
pub open spec fn line_start(code: Seq<char>, index: int) -> int
    decreases index,
{
    if index <= 0 {
        0
    } else if code[index - 1] == '\n' {
        index
    } else {
        line_start(code, index - 1)
    }
}

/// The place where the line of `index` ends.
pub open spec fn line_end(code: Seq<char>, index: int) -> int
    decreases code.len() - index,
{
    if index >= code.len() {
        code.len() as int
    } else if code[index] == '\n' {
        index
    } else {
        line_end(code, index + 1)
    }
}

/// The whole lines that a statement stands on.
pub open spec fn lines_of(code: Seq<char>, statement: StatementView) -> Seq<char> {
    code.subrange(line_start(code, statement.start), line_end(code, statement.end))
}

/// Whether a statement, and all inside it, lies within `length` characters.
pub open spec fn placed(statement: StatementView, length: int) -> bool
    decreases statement, 0int,
{
    0 <= statement.start <= statement.end <= length && all_placed(
        statement.children,
        statement.children.len() as int,
        length,
    )
}

/// Whether the first `end` statements lie within `length` characters.
pub open spec fn all_placed(list: Seq<StatementView>, end: int, length: int) -> bool
    decreases list, end,
{
    if end <= 0 || end > list.len() {
        true
    } else {
        all_placed(list, end - 1, length) && placed(list[end - 1], length)
    }
}

proof fn lemma_placed(list: Seq<StatementView>, end: int, length: int, index: int)
    requires
        0 <= index < end <= list.len(),
        all_placed(list, end, length),
    ensures
        placed(list[index], length),
    decreases end,
{
    if index < end - 1 {
        lemma_placed(list, end - 1, length, index);
    }
}

/// The whole lines that a statement stands on.
pub fn source_lines(code: &str, statement: &Statement) -> (lines: String)
    requires
        statement.start <= statement.end <= code@.len(),
    ensures
        lines@ == lines_of(code@, statement@),
{
    let characters = chars(code);
    let mut start: usize = statement.start;
    while start > 0 && characters[start - 1] != '\n'
        invariant
            start <= statement.start <= characters@.len(),
            characters@ == code@,
            line_start(code@, statement.start as int) == line_start(code@, start as int),
        decreases start,
    {
        start -= 1;
    }
    let mut end: usize = statement.end;
    while end < characters.len() && characters[end] != '\n'
        invariant
            statement.end <= end <= characters@.len(),
            characters@ == code@,
            line_end(code@, statement.end as int) == line_end(code@, end as int),
        decreases characters@.len() - end,
    {
        end += 1;
    }
    slice(&characters, start, end)
}

/// How many statements a statement holds, itself counted.
pub open spec fn size(statement: StatementView) -> nat
    decreases statement, 0int,
{
    1 + total(statement.children, statement.children.len() as int)
}

/// How many statements the first `end` statements hold.
pub open spec fn total(list: Seq<StatementView>, end: int) -> nat
    decreases list, end,
{
    if end <= 0 || end > list.len() {
        0
    } else {
        total(list, end - 1) + size(list[end - 1])
    }
}

/// The statements that wait once the first of them was looked at.
pub open spec fn behind(queue: Seq<StatementView>) -> Seq<StatementView> {
    queue.skip(1) + queue[0].children
}

proof fn lemma_prefix(left: Seq<StatementView>, right: Seq<StatementView>, end: int)
    requires
        0 <= end <= left.len(),
        end <= right.len(),
        forall|i: int| 0 <= i < end ==> #[trigger] left[i] == right[i],
    ensures
        total(left, end) == total(right, end),
    decreases end,
{
    if end > 0 {
        lemma_prefix(left, right, end - 1);
    }
}

proof fn lemma_shifted(list: Seq<StatementView>, end: int)
    requires
        0 < list.len(),
        0 <= end < list.len(),
    ensures
        total(list, end + 1) == size(list[0]) + total(list.skip(1), end),
    decreases end,
{
    if end > 0 {
        lemma_shifted(list, end - 1);
        assert(list.skip(1)[end - 1] == list[end]);
    } else {
        assert(total(list, 0) == 0);
    }
}

proof fn lemma_appended(list: Seq<StatementView>, more: Seq<StatementView>, end: int)
    requires
        0 <= end <= more.len(),
    ensures
        total(list + more, list.len() + end) == total(list, list.len() as int) + total(more, end),
    decreases end,
{
    if end > 0 {
        lemma_appended(list, more, end - 1);
        assert((list + more)[list.len() + end - 1] == more[end - 1]);
    } else {
        lemma_prefix(list + more, list, list.len() as int);
    }
}

/// Looking at a statement leaves fewer to look at.
pub proof fn lemma_behind(queue: Seq<StatementView>)
    requires
        queue.len() > 0,
    ensures
        total(behind(queue), behind(queue).len() as int) + 1 == total(queue, queue.len() as int),
{
    lemma_shifted(queue, queue.len() - 1);
    lemma_appended(queue.skip(1), queue[0].children, queue[0].children.len() as int);
}

/// Whether a statement is the class `name`.
pub open spec fn is_class(statement: StatementView, name: Seq<char>) -> bool {
    match statement.kind {
        KindView::Class(id, _) => id == name,
        _ => false,
    }
}

/// The first class `Model`, where statements are looked at level by level.
pub open spec fn model(queue: Seq<StatementView>) -> Option<StatementView>
    decreases total(queue, queue.len() as int),
{
    if queue.len() == 0 {
        None
    } else if is_class(queue[0], "Model"@) {
        Some(queue[0])
    } else {
        proof {
            lemma_behind(queue);
        }
        model(behind(queue))
    }
}

spec fn waiting(list: Seq<&Statement>, head: int) -> Seq<StatementView> {
    Seq::new((list.len() - head) as nat, |i: int| list[head + i]@)
}

fn find_model<'a>(code: &str, statements: &'a Vec<Statement>) -> (found: Option<&'a Statement>)
    requires
        all_placed(views(statements@), statements@.len() as int, code@.len() as int),
    ensures
        match found {
            Some(statement) => model(views(statements@)) == Some(statement@) && statement.start
                <= statement.end <= code@.len(),
            None => model(views(statements@)) is None,
        },
{
    let mut list: Vec<&'a Statement> = Vec::new();
    let mut index: usize = 0;
    while index < statements.len()
        invariant
            index <= statements@.len(),
            all_placed(views(statements@), statements@.len() as int, code@.len() as int),
            list@.len() == index,
            forall|i: int| 0 <= i < index ==> *(#[trigger] list@[i]) == statements@[i],
            forall|i: int|
                0 <= i < index ==> placed((#[trigger] list@[i])@, code@.len() as int),
        decreases statements@.len() - index,
    {
        proof {
            lemma_placed(
                views(statements@),
                statements@.len() as int,
                code@.len() as int,
                index as int,
            );
        }
        list.push(&statements[index]);
        index += 1;
    }
    assert(waiting(list@, 0) =~= views(statements@));
    let mut head: usize = 0;
    while head < list.len()
        invariant
            head <= list@.len(),
            model(waiting(list@, head as int)) == model(views(statements@)),
            forall|i: int|
                0 <= i < list@.len() ==> placed((#[trigger] list@[i])@, code@.len() as int),
        decreases total(waiting(list@, head as int), waiting(list@, head as int).len() as int),
    {
        let statement = list[head];
        let ghost queue = waiting(list@, head as int);
        assert(queue[0] == statement@);
        let is_model = match &statement.kind {
            Kind::Class(id, _) => same(id.as_str(), "Model"),
            _ => false,
        };
        if is_model {
            return Some(statement);
        }
        let ghost before = list@;
        let mut child: usize = 0;
        while child < statement.children.len()
            invariant
                child <= statement.children@.len(),
                placed(statement@, code@.len() as int),
                list@.len() == before.len() + child,
                forall|i: int| 0 <= i < before.len() ==> #[trigger] list@[i] == before[i],
                forall|i: int|
                    before.len() <= i < list@.len() ==> *(#[trigger] list@[i])
                        == statement.children@[i - before.len()],
                forall|i: int|
                    0 <= i < list@.len() ==> placed((#[trigger] list@[i])@, code@.len() as int),
            decreases statement.children@.len() - child,
        {
            proof {
                tree::lemma_children(*statement);
                lemma_placed(
                    statement@.children,
                    statement.children@.len() as int,
                    code@.len() as int,
                    child as int,
                );
            }
            list.push(&statement.children[child]);
            child += 1;
        }
        head += 1;
        proof {
            tree::lemma_children(*statement);
            assert(waiting(list@, head as int) =~= behind(queue));
            lemma_behind(queue);
        }
    }
    assert(waiting(list@, head as int).len() == 0);
    None
}

/// The lines of the needed statements among the first `end`.
pub open spec fn needed_lines(code: Seq<char>, statements: Seq<StatementView>, end: int) -> Seq<
    Seq<char>,
>
    decreases end,
{
    if end <= 0 {
        Seq::empty()
    } else {
        let before = needed_lines(code, statements, end - 1);
        if tree::needed(statements, end - 1) {
            before.push(lines_of(code, statements[end - 1]))
        } else {
            before
        }
    }
}

/// The source that makes a task's inputs.
pub open spec fn generator(code: Seq<char>, statements: Seq<StatementView>) -> Seq<char> {
    pieces::joined(needed_lines(code, statements, statements.len() as int), "\n\n"@)
}

fn write_generator(code: &str, statements: &Vec<Statement>) -> (source: String)
    requires
        all_placed(views(statements@), statements@.len() as int, code@.len() as int),
    ensures
        source@ == generator(code@, views(statements@)),
{
    let chosen = select(statements);
    let mut lines: Vec<String> = Vec::new();
    let mut index: usize = 0;
    assert(pieces::texts(lines@) =~= needed_lines(code@, views(statements@), 0));
    while index < statements.len()
        invariant
            index <= statements@.len(),
            all_placed(views(statements@), statements@.len() as int, code@.len() as int),
            chosen@.len() == statements@.len(),
            forall|i: int|
                0 <= i < statements@.len() ==> #[trigger] chosen@[i] == tree::needed(
                    views(statements@),
                    i,
                ),
            pieces::texts(lines@) == needed_lines(code@, views(statements@), index as int),
        decreases statements@.len() - index,
    {
        proof {
            lemma_placed(
                views(statements@),
                statements@.len() as int,
                code@.len() as int,
                index as int,
            );
        }
        if chosen[index] {
            let line = source_lines(code, &statements[index]);
            proof {
                pieces::lemma_texts_push(lines@, line);
            }
            lines.push(line);
        }
        index += 1;
    }
    join(&lines, "\n\n")
}

/// What a class says of itself.
pub open spec fn said(statement: StatementView) -> Seq<char> {
    match statement.kind {
        KindView::Class(_, Some(value)) => docstring::cleaned(value),
        _ => Seq::empty(),
    }
}

/// What is shown of a task's model: the class, or the whole file where there is none.
pub open spec fn prompt(code: Seq<char>, statements: Seq<StatementView>) -> Seq<char> {
    match model(statements) {
        Some(statement) => lines_of(code, statement),
        None => code,
    }
}

/// What a task's model says of itself.
pub open spec fn description(statements: Seq<StatementView>) -> Seq<char> {
    match model(statements) {
        Some(statement) => said(statement),
        None => Seq::empty(),
    }
}

/// The description of a task whose model says nothing.
pub open spec fn plain_description(stem: Seq<char>) -> Seq<char> {
    "Optimize PyTorch model: "@ + pieces::replaced(stem, "_"@, " "@)
}

/// The name of a task.
pub open spec fn task_id(level: nat, file_name: Seq<char>) -> Seq<char> {
    "KernelBench/level"@ + numeral::decimal(level) + "/"@ + file_name
}

/// The record of a task.
pub open spec fn record(
    id: Seq<char>,
    shown: Seq<char>,
    about: Seq<char>,
    code: Seq<char>,
    inputs: Seq<char>,
    path: Seq<char>,
    bytes: Seq<u8>,
) -> JsonView {
    JsonView::Object(
        seq![
            ("task_id"@, JsonView::Text(id)),
            ("prompt"@, JsonView::Text(shown)),
            ("description"@, JsonView::Text(about)),
            ("entry_point"@, JsonView::Text("Model"@)),
            ("canonical_solution"@, JsonView::Text(code)),
            ("input_generator"@, JsonView::Text(inputs)),
            ("test"@, JsonView::Text(""@)),
            ("completion_list"@, JsonView::Array(Seq::empty())),
            ("test_case_list"@, JsonView::Array(Seq::empty())),
            ("test_results"@, JsonView::Null),
            ("need_reproduce"@, JsonView::Bool(true)),
            ("dataset"@, JsonView::Text("kernelbench"@)),
            ("benchmark_type"@, JsonView::Text("performance"@)),
            ("requires_gpu"@, JsonView::Bool(true)),
            ("baseline_metrics"@, JsonView::Null),
            ("file_path"@, JsonView::Text(path)),
            ("sha256"@, JsonView::Text(outside::sha256(vstd::utf8::encode_utf8(code)))),
            ("file_sha256"@, JsonView::Text(outside::sha256(bytes))),
        ],
    )
}

fn write_record(
    id: &str,
    shown: &str,
    about: &str,
    code: &str,
    inputs: &str,
    path: &str,
    bytes: &Vec<u8>,
) -> (value: Json)
    ensures
        value@ == record(id@, shown@, about@, code@, inputs@, path@, bytes@),
{
    let first = Fields::new().with("task_id", fields::text(id)).with("prompt", fields::text(shown)).with(
        "description",
        fields::text(about),
    ).with("entry_point", fields::text("Model")).with("canonical_solution", fields::text(code)).with(
        "input_generator",
        fields::text(inputs),
    ).with("test", fields::text("")).with("completion_list", fields::empty_array()).with(
        "test_case_list",
        fields::empty_array(),
    );
    let all = first.with("test_results", Json::Null).with("need_reproduce", Json::Bool(true)).with(
        "dataset",
        fields::text("kernelbench"),
    ).with("benchmark_type", fields::text("performance")).with("requires_gpu", Json::Bool(true)).with(
        "baseline_metrics",
        Json::Null,
    ).with("file_path", fields::text(path)).with("sha256", fields::text(text_digest(code).as_str())).with(
        "file_sha256",
        fields::text(digest(bytes.as_slice()).as_str()),
    );
    assert(all@ =~= record(id@, shown@, about@, code@, inputs@, path@, bytes@)->Object_0);
    all.object()
}

/// The model of an optional text.
pub open spec fn optional(value: Option<&str>) -> Option<Seq<char>> {
    match value {
        Some(value) => Some(value@),
        None => None,
    }
}

/// The task that a file holds. `code` is the file's text and `statements` what it consists of.
pub open spec fn parsed(
    bytes: Seq<u8>,
    code: Seq<char>,
    statements: Seq<StatementView>,
    path: Seq<char>,
    file_name: Option<Seq<char>>,
    stem: Option<Seq<char>>,
    level: nat,
) -> Result<JsonView, Seq<char>> {
    if !tree::has_function(statements, "get_inputs"@) || !tree::has_function(
        statements,
        "get_init_inputs"@,
    ) {
        Err("benchmark must define get_inputs() and get_init_inputs()"@)
    } else {
        match (file_name, stem) {
            (None, _) => Err("task filename"@),
            (Some(file_name), stem) => if description(statements).len() > 0 {
                Ok(
                    record(
                        task_id(level, file_name),
                        prompt(code, statements),
                        description(statements),
                        code,
                        generator(code, statements),
                        path,
                        bytes,
                    ),
                )
            } else {
                match stem {
                    None => Err("task stem"@),
                    Some(stem) => Ok(
                        record(
                            task_id(level, file_name),
                            prompt(code, statements),
                            plain_description(stem),
                            code,
                            generator(code, statements),
                            path,
                            bytes,
                        ),
                    ),
                }
            },
        }
    }
}

fn write_id(level: u64, file_name: &str) -> (id: String)
    ensures
        id@ == task_id(level as nat, file_name@),
{
    "KernelBench/level".to_owned().concat(numeral::numeral(level as u128).as_str()).concat(
        "/",
    ).concat(file_name)
}

/// The task that a file with the text `code` and the statements `statements` holds.
pub fn parse_statements(
    bytes: &Vec<u8>,
    code: &str,
    statements: &Vec<Statement>,
    path: &str,
    file_name: Option<&str>,
    stem: Option<&str>,
    level: u64,
) -> (result: Result<Json, String>)
    requires
        all_placed(views(statements@), statements@.len() as int, code@.len() as int),
    ensures
        json::outcome(result) == parsed(
            bytes@,
            code@,
            views(statements@),
            path@,
            optional(file_name),
            optional(stem),
            level as nat,
        ),
{
    if !declares(statements, "get_inputs") || !declares(statements, "get_init_inputs") {
        return Err("benchmark must define get_inputs() and get_init_inputs()".to_owned());
    }
    let inputs = write_generator(code, statements);
    let (shown, mut about) = match find_model(code, statements) {
        Some(statement) => (
            source_lines(code, statement),
            match &statement.kind {
                Kind::Class(_, Some(value)) => clean_docstring(value.as_str()),
                _ => String::new(),
            },
        ),
        None => (code.to_owned(), String::new()),
    };
    assert(about@ =~= description(views(statements@)));
    let file_name = match file_name {
        None => {
            return Err("task filename".to_owned());
        },
        Some(file_name) => file_name,
    };
    if about.as_str().is_empty() {
        match stem {
            None => {
                return Err("task stem".to_owned());
            },
            Some(stem) => {
                about =
                "Optimize PyTorch model: ".to_owned().concat(replace(stem, "_", " ").as_str());
            },
        }
    }
    Ok(
        write_record(
            write_id(level, file_name).as_str(),
            shown.as_str(),
            about.as_str(),
            code,
            inputs.as_str(),
            path,
            bytes,
        ),
    )
}

proof fn lemma_bytes(left: Seq<char>, right: Seq<char>)
    ensures
        vstd::utf8::encode_utf8(left + right).len() == vstd::utf8::encode_utf8(left).len()
            + vstd::utf8::encode_utf8(right).len(),
    decreases left.len(),
{
    if left.len() == 0 {
        assert(left + right =~= right);
    } else {
        assert((left + right).drop_first() =~= left.drop_first() + right);
        lemma_bytes(left.drop_first(), right);
    }
}

proof fn lemma_replaced_bytes(text: Seq<char>, part: Seq<char>, with: Seq<char>, index: int)
    requires
        0 <= index <= text.len(),
        part.len() > 0,
        vstd::utf8::encode_utf8(with).len() <= vstd::utf8::encode_utf8(part).len(),
    ensures
        vstd::utf8::encode_utf8(pieces::replaced_from(text, part, with, index)).len()
            <= vstd::utf8::encode_utf8(text.skip(index)).len(),
    decreases text.len() - index,
{
    if index < text.len() {
        if text::stands_at(text, part, index) {
            let next = index + part.len();
            lemma_replaced_bytes(text, part, with, next);
            lemma_bytes(with, pieces::replaced_from(text, part, with, next));
            assert(text.skip(index) =~= part + text.skip(next));
            lemma_bytes(part, text.skip(next));
        } else {
            lemma_replaced_bytes(text, part, with, index + 1);
            let one = seq![text[index]];
            lemma_bytes(one, pieces::replaced_from(text, part, with, index + 1));
            assert(text.skip(index) =~= one + text.skip(index + 1));
            lemma_bytes(one, text.skip(index + 1));
        }
    }
}

proof fn lemma_line_fed_bytes(content: Seq<char>)
    ensures
        vstd::utf8::encode_utf8(line_fed(content)).len() <= vstd::utf8::encode_utf8(content).len(),
{
    reveal_strlit("\r\n");
    reveal_strlit("\r");
    reveal_strlit("\n");
    reveal_with_fuel(vstd::utf8::encode_utf8, 3);
    assert("\r\n"@.drop_first() =~= "\n"@);
    let once = pieces::replaced(content, "\r\n"@, "\n"@);
    lemma_replaced_bytes(content, "\r\n"@, "\n"@, 0);
    lemma_replaced_bytes(once, "\r"@, "\n"@, 0);
    assert(content.skip(0) =~= content);
    assert(once.skip(0) =~= once);
}

/// What the file at `path` with the bytes `bytes` holds: a task, or why it holds none.
pub open spec fn task_of(
    bytes: Seq<u8>,
    path: Seq<char>,
    file_name: Option<Seq<char>>,
    stem: Option<Seq<char>>,
    level: nat,
) -> Result<JsonView, Seq<char>> {
    if !vstd::utf8::valid_utf8(bytes) {
        Err(outside::utf8_trouble(bytes))
    } else {
        let code = line_fed(vstd::utf8::decode_utf8(bytes));
        match outside::python_tree(code, path) {
            Err(error) => Err(error),
            Ok(printed) => parsed(
                bytes,
                code,
                source::statements_of(printed, code),
                path,
                file_name,
                stem,
                level,
            ),
        }
    }
}

/// The task that the file at `path` holds. The bytes of a source are counted in 32 bits.
pub fn parse(
    bytes: &Vec<u8>,
    path: &str,
    file_name: Option<&str>,
    stem: Option<&str>,
    level: u64,
) -> (result: Result<Json, String>)
    requires
        bytes@.len() <= u32::MAX,
    ensures
        json::outcome(result) == task_of(
            bytes@,
            path@,
            optional(file_name),
            optional(stem),
            level as nat,
        ),
{
    let content = match decode(bytes.as_slice()) {
        Err(error) => {
            return Err(error);
        },
        Ok(content) => content,
    };
    let code = normalize_lines(content.as_str());
    proof {
        vstd::utf8::decode_utf8_encode_utf8(bytes@);
        lemma_line_fed_bytes(content@);
    }
    let printed = match read_python(code.as_str(), path) {
        Err(error) => {
            return Err(error);
        },
        Ok(printed) => printed,
    };
    let statements = read_statements(printed.as_str(), code.as_str());
    parse_statements(bytes, code.as_str(), &statements, path, file_name, stem, level)
}

/// A file that is no UTF-8, is no Python or lacks one of the two functions that make the inputs
/// holds no task.
pub proof fn other_files_are_refused(
    bytes: Seq<u8>,
    path: Seq<char>,
    file_name: Option<Seq<char>>,
    stem: Option<Seq<char>>,
    level: nat,
)
    ensures
        ({
            let code = line_fed(vstd::utf8::decode_utf8(bytes));
            &&& !vstd::utf8::valid_utf8(bytes) ==> task_of(bytes, path, file_name, stem, level)
                == Err::<JsonView, Seq<char>>(outside::utf8_trouble(bytes))
            &&& vstd::utf8::valid_utf8(bytes) ==> match outside::python_tree(code, path) {
                Err(error) => task_of(bytes, path, file_name, stem, level) == Err::<
                    JsonView,
                    Seq<char>,
                >(error),
                Ok(printed) => {
                    let statements = source::statements_of(printed, code);
                    !tree::has_function(statements, "get_inputs"@) || !tree::has_function(
                        statements,
                        "get_init_inputs"@,
                    ) ==> task_of(bytes, path, file_name, stem, level) == Err::<
                        JsonView,
                        Seq<char>,
                    >("benchmark must define get_inputs() and get_init_inputs()"@)
                },
            }
        }),
{
}

proof fn lemma_record(
    id: Seq<char>,
    shown: Seq<char>,
    about: Seq<char>,
    code: Seq<char>,
    inputs: Seq<char>,
    path: Seq<char>,
    bytes: Seq<u8>,
)
    ensures
        ({
            let task = record(id, shown, about, code, inputs, path, bytes);
            &&& task.at("description"@) == JsonView::Text(about)
            &&& task.at("canonical_solution"@) == JsonView::Text(code)
            &&& task.at("sha256"@) == JsonView::Text(
                outside::sha256(vstd::utf8::encode_utf8(code)),
            )
            &&& task.at("file_sha256"@) == JsonView::Text(outside::sha256(bytes))
        }),
{
    reveal_strlit("task_id");
    reveal_strlit("prompt");
    reveal_strlit("description");
    reveal_strlit("entry_point");
    reveal_strlit("canonical_solution");
    reveal_strlit("input_generator");
    reveal_strlit("test");
    reveal_strlit("completion_list");
    reveal_strlit("test_case_list");
    reveal_strlit("test_results");
    reveal_strlit("need_reproduce");
    reveal_strlit("dataset");
    reveal_strlit("benchmark_type");
    reveal_strlit("requires_gpu");
    reveal_strlit("baseline_metrics");
    reveal_strlit("file_path");
    reveal_strlit("sha256");
    reveal_strlit("file_sha256");
    let fields = record(id, shown, about, code, inputs, path, bytes)->Object_0;
    assert("prompt"@[0] != "sha256"@[0]);
    assert("description"@[0] != "file_sha256"@[0]);
    assert("entry_point"@[0] != "file_sha256"@[0]);
    json::lemma_place(fields, "description"@);
    assert(fields[2].0 == "description"@);
    json::lemma_place(fields, "canonical_solution"@);
    assert(fields[4].0 == "canonical_solution"@);
    json::lemma_place(fields, "sha256"@);
    assert(fields[16].0 == "sha256"@);
    json::lemma_place(fields, "file_sha256"@);
    assert(fields[17].0 == "file_sha256"@);
}

/// A task keeps its file's text with every line ended by a line feed, the digests of that text and
/// of the file's bytes, and a description.
pub proof fn tasks_keep_their_source(
    bytes: Seq<u8>,
    path: Seq<char>,
    file_name: Option<Seq<char>>,
    stem: Option<Seq<char>>,
    level: nat,
)
    ensures
        match task_of(bytes, path, file_name, stem, level) {
            Ok(task) => {
                let code = line_fed(vstd::utf8::decode_utf8(bytes));
                &&& vstd::utf8::valid_utf8(bytes)
                &&& task.at("canonical_solution"@) == JsonView::Text(code)
                &&& task.at("sha256"@) == JsonView::Text(
                    outside::sha256(vstd::utf8::encode_utf8(code)),
                )
                &&& task.at("file_sha256"@) == JsonView::Text(outside::sha256(bytes))
                &&& task.at("description"@) matches JsonView::Text(about) && about.len() > 0
            },
            Err(_) => true,
        },
{
    reveal_strlit("Optimize PyTorch model: ");
    let code = line_fed(vstd::utf8::decode_utf8(bytes));
    if vstd::utf8::valid_utf8(bytes) && outside::python_tree(code, path) is Ok && file_name is Some {
        let statements = source::statements_of(outside::python_tree(code, path)->Ok_0, code);
        let about = if description(statements).len() > 0 {
            description(statements)
        } else {
            plain_description(stem->Some_0)
        };
        lemma_record(
            task_id(level, file_name->Some_0),
            prompt(code, statements),
            about,
            code,
            generator(code, statements),
            path,
            bytes,
        );
    }
}

} // verus!
