//! What a request for a task asks, what a task's file gives, and how its parts are cut out.
use crate::dataset;
use crate::dataset::docstring;
use crate::dataset::literal;
use crate::dataset::task;
use crate::dataset::tree;
use crate::dataset::tree::{AliasView, KindView, StatementView};
use crate::dataset::Attempt;
use crate::json;
use crate::json::JsonView;
use crate::numeral;
use crate::outside;
use crate::pieces;
use crate::text;
use vstd::prelude::*;

verus! {

/// A request for the flat collection is for tasks of the first level right below the root; any
/// other is for the level that it names, or else the first, in the directory of that level.
pub proof fn requests_name_a_level(payload: JsonView)
    ensures
        payload.at("dataset"@) == JsonView::Text("kernelbench_veomni"@) ==> dataset::level_of(
            payload,
        ) == 1 && dataset::directory_of(payload) is None,
        payload.at("dataset"@) != JsonView::Text("kernelbench_veomni"@) ==> {
            &&& payload.at("level"@).natural() is None ==> dataset::level_of(payload) == 1
            &&& payload.at("level"@).natural() matches Some(level) ==> dataset::level_of(payload)
                == level
            &&& dataset::directory_of(payload) == Some(
                "level"@ + numeral::decimal(dataset::level_of(payload) as nat),
            )
        },
{
}

/// Whether a file holds a task that goes by the name, the file name or the stem `requested`.
pub open spec fn answers(attempt: Attempt, requested: Seq<char>) -> bool {
    &&& attempt.result is Ok
    &&& {
        ||| attempt.result->Ok_0@.at("task_id"@) == JsonView::Text(requested)
        ||| attempt.file_name is Some && attempt.file_name->Some_0@ == requested
        ||| attempt.stem is Some && attempt.stem->Some_0@ == requested
    }
}

proof fn lemma_called(attempts: Seq<Attempt>, end: int, requested: Seq<char>, strict: bool)
    requires
        0 <= end <= attempts.len(),
    ensures
        match dataset::called(attempts, end, requested, strict) {
            Ok(list) => {
                &&& strict ==> forall|i: int| 0 <= i < end ==> (#[trigger] attempts[i]).result is Ok
                &&& list.len() == 0 <==> forall|i: int|
                    0 <= i < end ==> !answers(#[trigger] attempts[i], requested)
                &&& forall|i: int|
                    0 <= i < end && answers(#[trigger] attempts[i], requested) && (forall|j: int|
                        0 <= j < end && j != i ==> !answers(#[trigger] attempts[j], requested))
                        ==> list == seq![attempts[i].result->Ok_0@]
                &&& forall|i: int, j: int|
                    0 <= i < j < end && answers(#[trigger] attempts[i], requested) && answers(
                        #[trigger] attempts[j],
                        requested,
                    ) ==> list.len() >= 2
            },
            Err(error) => strict && exists|i: int|
                0 <= i < end && (#[trigger] attempts[i]).result is Err && error
                    == attempts[i].result->Err_0@ && forall|j: int|
                    0 <= j < i ==> (#[trigger] attempts[j]).result is Ok,
        },
    decreases end,
{
    if end > 0 {
        lemma_called(attempts, end - 1, requested, strict);
        let last = attempts[end - 1];
        if let Ok(before) = dataset::called(attempts, end - 1, requested, strict) {
            assert(answers(last, requested) <==> last.result is Ok && dataset::is_called(
                last,
                last.result->Ok_0@,
                requested,
            ));
            if let Ok(list) = dataset::called(attempts, end, requested, strict) {
                assert forall|i: int|
                    0 <= i < end && answers(#[trigger] attempts[i], requested) && (forall|j: int|
                        0 <= j < end && j != i ==> !answers(
                            #[trigger] attempts[j],
                            requested,
                        )) implies list == seq![attempts[i].result->Ok_0@] by {
                    if i == end - 1 {
                        assert(before.len() == 0);
                        assert(list =~= seq![attempts[i].result->Ok_0@]);
                    } else {
                        assert(!answers(attempts[end - 1], requested));
                    }
                }
                assert forall|i: int, j: int|
                    0 <= i < j < end && answers(#[trigger] attempts[i], requested) && answers(
                        #[trigger] attempts[j],
                        requested,
                    ) implies list.len() >= 2 by {
                    if j == end - 1 {
                        assert(before.len() > 0);
                    }
                }
            }
        }
    }
}

/// The task that is picked is the only one that goes by the requested name. None and several fail
/// the request; a file that is no task fails it only in the flat collection.
pub proof fn the_only_match_is_picked(payload: JsonView, attempts: Seq<Attempt>, requested: Seq<char>, at: int)
    requires
        payload.at("task"@) == JsonView::Text(requested),
        0 <= at < attempts.len(),
        payload.at("dataset"@) != JsonView::Text("kernelbench_veomni"@) || forall|i: int|
            0 <= i < attempts.len() ==> (#[trigger] attempts[i]).result is Ok,
    ensures
        ({
            let picked = dataset::picked(payload, attempts);
            &&& answers(attempts[at], requested) && (forall|i: int|
                0 <= i < attempts.len() && i != at ==> !answers(#[trigger] attempts[i], requested))
                ==> picked == Ok::<JsonView, Seq<char>>(attempts[at].result->Ok_0@)
            &&& (forall|i: int|
                0 <= i < attempts.len() ==> !answers(#[trigger] attempts[i], requested)) ==> picked
                == Err::<JsonView, Seq<char>>(
                "task must match exactly one filename or task ID, matched "@ + numeral::decimal(0),
            )
            &&& forall|i: int|
                0 <= i < attempts.len() && i != at && answers(#[trigger] attempts[i], requested)
                    && answers(attempts[at], requested) ==> picked is Err
        }),
{
    let flat = dataset::is_flat(payload);
    lemma_called(attempts, attempts.len() as int, requested, flat);
    let found = dataset::called(attempts, attempts.len() as int, requested, flat);
    assert(found is Ok);
    assert forall|i: int|
        0 <= i < attempts.len() && i != at && answers(#[trigger] attempts[i], requested) && answers(
            attempts[at],
            requested,
        ) implies dataset::picked(payload, attempts) is Err by {
        if i < at {
            assert(found->Ok_0.len() >= 2);
        } else {
            assert(found->Ok_0.len() >= 2);
        }
    }
}

/// A request that names no task, and one for the flat collection with a file that is no task, fail.
pub proof fn unsound_requests_fail(payload: JsonView, attempts: Seq<Attempt>, at: int)
    requires
        0 <= at < attempts.len(),
    ensures
        !(payload.at("task"@) is Text) ==> dataset::picked(payload, attempts) == Err::<
            JsonView,
            Seq<char>,
        >("task selector"@),
        payload.at("task"@) is Text && payload.at("dataset"@) == JsonView::Text(
            "kernelbench_veomni"@,
        ) && attempts[at].result is Err && (forall|i: int|
            0 <= i < at ==> (#[trigger] attempts[i]).result is Ok) ==> dataset::picked(
            payload,
            attempts,
        ) == Err::<JsonView, Seq<char>>(attempts[at].result->Err_0@),
{
    if let JsonView::Text(requested) = payload.at("task"@) {
        lemma_called(attempts, attempts.len() as int, requested, dataset::is_flat(payload));
    }
}

/// A task is named by its level and its file and tells where it comes from; what stands for its
/// model is shown, and where the model says nothing of itself its file's stem stands in.
pub proof fn tasks_are_described(
    bytes: Seq<u8>,
    code: Seq<char>,
    statements: Seq<StatementView>,
    path: Seq<char>,
    file_name: Seq<char>,
    stem: Seq<char>,
    level: nat,
)
    ensures
        ({
            let inputs = exists|i: int|
                0 <= i < statements.len() && (#[trigger] statements[i]).kind == KindView::Function(
                    "get_inputs"@,
                );
            let initials = exists|i: int|
                0 <= i < statements.len() && (#[trigger] statements[i]).kind == KindView::Function(
                    "get_init_inputs"@,
                );
            match task::parsed(bytes, code, statements, path, Some(file_name), Some(stem), level) {
                Err(reason) => {
                    &&& !(inputs && initials)
                    &&& reason == "benchmark must define get_inputs() and get_init_inputs()"@
                },
                Ok(record) => {
                    let about = task::description(statements);
                    &&& inputs && initials
                    &&& record.at("task_id"@) == JsonView::Text(
                        "KernelBench/level"@ + numeral::decimal(level) + "/"@ + file_name,
                    )
                    &&& record.at("entry_point"@) == JsonView::Text("Model"@)
                    &&& record.at("dataset"@) == JsonView::Text("kernelbench"@)
                    &&& record.at("benchmark_type"@) == JsonView::Text("performance"@)
                    &&& record.at("requires_gpu"@) == JsonView::Bool(true)
                    &&& record.at("need_reproduce"@) == JsonView::Bool(true)
                    &&& record.at("file_path"@) == JsonView::Text(path)
                    &&& record.at("canonical_solution"@) == JsonView::Text(code)
                    &&& record.at("sha256"@) == JsonView::Text(
                        outside::sha256(vstd::utf8::encode_utf8(code)),
                    )
                    &&& record.at("file_sha256"@) == JsonView::Text(outside::sha256(bytes))
                    &&& record.at("input_generator"@) == JsonView::Text(
                        task::generator(code, statements),
                    )
                    &&& record.at("description"@) == JsonView::Text(
                        if about.len() > 0 {
                            about
                        } else {
                            "Optimize PyTorch model: "@ + pieces::replaced(stem, "_"@, " "@)
                        },
                    )
                    &&& task::model(statements) is None ==> record.at("prompt"@) == JsonView::Text(
                        code,
                    ) && about.len() == 0
                    &&& task::model(statements) matches Some(model) ==> record.at("prompt"@)
                        == JsonView::Text(task::lines_of(code, model))
                },
            }
        }),
{
    assert forall|i: int| 0 <= i < statements.len() implies tree::is_function(
        #[trigger] statements[i],
        "get_inputs"@,
    ) == (statements[i].kind == KindView::Function("get_inputs"@)) by {}
    assert forall|i: int| 0 <= i < statements.len() implies tree::is_function(
        #[trigger] statements[i],
        "get_init_inputs"@,
    ) == (statements[i].kind == KindView::Function("get_init_inputs"@)) by {}
    if let Ok(record) = task::parsed(
        bytes,
        code,
        statements,
        path,
        Some(file_name),
        Some(stem),
        level,
    ) {
        let list = record->Object_0;
        reveal_strlit("task_id");
        reveal_strlit("prompt");
        reveal_strlit("description");
        reveal_strlit("entry_point");
        reveal_strlit("canonical_solution");
        reveal_strlit("input_generator");
        reveal_strlit("test");
        reveal_strlit("completion_list");
        reveal_strlit("test_case_list");
        reveal_strlit("test_results");
        reveal_strlit("need_reproduce");
        reveal_strlit("dataset");
        reveal_strlit("benchmark_type");
        reveal_strlit("requires_gpu");
        reveal_strlit("baseline_metrics");
        reveal_strlit("file_path");
        reveal_strlit("sha256");
        reveal_strlit("file_sha256");
        assert("task_id"@[0] != "dataset"@[0]);
        assert("prompt"@[0] != "sha256"@[0]);
        assert("description"@[0] != "entry_point"@[0]);
        assert("description"@[0] != "file_sha256"@[0]);
        assert("entry_point"@[0] != "file_sha256"@[0]);
        assert("input_generator"@[0] != "completion_list"@[0]);
        assert("test_case_list"@[0] != "need_reproduce"@[0]);
        assert("test_case_list"@[0] != "benchmark_type"@[0]);
        assert("test_results"@[0] != "requires_gpu"@[0]);
        assert("need_reproduce"@[0] != "benchmark_type"@[0]);
        assert(list[0].0 == "task_id"@);
        json::lemma_at(list, 0);
        assert(list[1].0 == "prompt"@);
        json::lemma_at(list, 1);
        assert(list[2].0 == "description"@);
        json::lemma_at(list, 2);
        assert(list[3].0 == "entry_point"@);
        json::lemma_at(list, 3);
        assert(list[4].0 == "canonical_solution"@);
        json::lemma_at(list, 4);
        assert(list[5].0 == "input_generator"@);
        json::lemma_at(list, 5);
        assert(list[6].0 == "test"@);
        json::lemma_at(list, 6);
        assert(list[7].0 == "completion_list"@);
        json::lemma_at(list, 7);
        assert(list[8].0 == "test_case_list"@);
        json::lemma_at(list, 8);
        assert(list[9].0 == "test_results"@);
        json::lemma_at(list, 9);
        assert(list[10].0 == "need_reproduce"@);
        json::lemma_at(list, 10);
        assert(list[11].0 == "dataset"@);
        json::lemma_at(list, 11);
        assert(list[12].0 == "benchmark_type"@);
        json::lemma_at(list, 12);
        assert(list[13].0 == "requires_gpu"@);
        json::lemma_at(list, 13);
        assert(list[14].0 == "baseline_metrics"@);
        json::lemma_at(list, 14);
        assert(list[15].0 == "file_path"@);
        json::lemma_at(list, 15);
        assert(list[16].0 == "sha256"@);
        json::lemma_at(list, 16);
        assert(list[17].0 == "file_sha256"@);
        json::lemma_at(list, 17);
    }
}

/// What stands for a task's model is a class of that name. A file's own class goes before one that
/// is nested in another.
pub proof fn models_are_classes(queue: Seq<StatementView>, at: int)
    ensures
        task::model(queue) matches Some(found) ==> found.kind is Class && found.kind->Class_0
            == "Model"@,
        0 <= at < queue.len() && queue[at].kind is Class && queue[at].kind->Class_0 == "Model"@ && (
        forall|i: int|
            0 <= i < at ==> !((#[trigger] queue[i]).kind is Class && queue[i].kind->Class_0
                == "Model"@)) ==> task::model(queue) == Some(queue[at]),
    decreases task::total(queue, queue.len() as int),
{
    if queue.len() > 0 && !task::is_class(queue[0], "Model"@) {
        task::lemma_behind(queue);
        let rest = task::behind(queue);
        models_are_classes(rest, at - 1);
        if 0 < at < queue.len() {
            assert(rest[at - 1] == queue[at]);
            assert forall|i: int| 0 <= i < at - 1 implies rest[i] == #[trigger] queue[i + 1] by {}
        }
        assert(task::model(queue) == task::model(rest));
    }
}

/// What a model says of itself is what its class begins with, cleaned.
pub proof fn descriptions_are_docstrings(statements: Seq<StatementView>)
    ensures
        match task::model(statements) {
            Some(model) => match model.kind {
                KindView::Class(_, Some(value)) => task::description(statements)
                    == docstring::cleaned(value),
                _ => task::description(statements).len() == 0,
            },
            None => task::description(statements).len() == 0,
        },
{
}

proof fn lemma_line_start(code: Seq<char>, index: int)
    requires
        0 <= index <= code.len(),
    ensures
        0 <= task::line_start(code, index) <= index,
        task::line_start(code, index) == 0 || code[task::line_start(code, index) - 1] == '\n',
        forall|i: int| task::line_start(code, index) <= i < index ==> #[trigger] code[i] != '\n',
    decreases index,
{
    if index > 0 && code[index - 1] != '\n' {
        lemma_line_start(code, index - 1);
    }
}

proof fn lemma_line_end(code: Seq<char>, index: int)
    requires
        0 <= index <= code.len(),
    ensures
        index <= task::line_end(code, index) <= code.len(),
        task::line_end(code, index) == code.len() || code[task::line_end(code, index)] == '\n',
        forall|i: int| index <= i < task::line_end(code, index) ==> #[trigger] code[i] != '\n',
    decreases code.len() - index,
{
    if index < code.len() && code[index] != '\n' {
        lemma_line_end(code, index + 1);
    }
}

/// A statement is cut out with the whole lines that it stands on: from behind the line feed before
/// it, or the beginning, up to the line feed behind it, or the end.
pub proof fn statements_are_cut_out_by_lines(code: Seq<char>, statement: StatementView) -> (ends: (
    int,
    int,
))
    requires
        0 <= statement.start <= statement.end <= code.len(),
    ensures
        ends.0 <= statement.start && statement.end <= ends.1,
        ends.0 == 0 || code[ends.0 - 1] == '\n',
        ends.1 == code.len() || code[ends.1] == '\n',
        forall|i: int| ends.0 <= i < statement.start ==> #[trigger] code[i] != '\n',
        forall|i: int| statement.end <= i < ends.1 ==> #[trigger] code[i] != '\n',
        0 <= ends.0 <= ends.1 <= code.len(),
        task::lines_of(code, statement) == code.subrange(ends.0, ends.1),
{
    lemma_line_start(code, statement.start);
    lemma_line_end(code, statement.end);
    (task::line_start(code, statement.start), task::line_end(code, statement.end))
}

/// The source that makes the inputs has the lines of the statements that are needed and of no
/// others, in their order, with an empty line between them.
pub proof fn generators_hold_what_is_needed(code: Seq<char>, statements: Seq<StatementView>, end: int)
    requires
        0 < end <= statements.len(),
    ensures
        task::needed_lines(code, statements, 0).len() == 0,
        task::needed_lines(code, statements, end) == (if tree::needed(statements, end - 1) {
            task::needed_lines(code, statements, end - 1).push(
                task::lines_of(code, statements[end - 1]),
            )
        } else {
            task::needed_lines(code, statements, end - 1)
        }),
        task::generator(code, statements) == pieces::joined(
            task::needed_lines(code, statements, statements.len() as int),
            "\n\n"@,
        ),
{
}

/// An import gives the names that it brings in, under their new names where they have any; a
/// function or a class gives none.
pub proof fn imports_give_names(statement: StatementView, list: Seq<AliasView>, name: Seq<char>)
    ensures
        statement.kind == KindView::Import(list) ==> (tree::gives(statement, name) <==> exists|i: int|
            0 <= i < list.len() && ((#[trigger] list[i]).renamed == Some(name) || (
            list[i].renamed is None && list[i].name == name))),
        statement.kind is Function || statement.kind is Class || statement.kind is Other
            ==> !tree::gives(statement, name),
{
    if statement.kind == KindView::Import(list) {
        assert forall|i: int| 0 <= i < list.len() implies (tree::bound(#[trigger] list[i]) == name)
            == (list[i].renamed == Some(name) || (list[i].renamed is None && list[i].name == name)) by {}
    }
}

/// Filling up tabs leaves none, and leaves a text without any as it is.
pub proof fn tabs_are_filled_up(value: Seq<char>, from: int, column: int)
    requires
        0 <= from <= value.len(),
        0 <= column,
    ensures
        !docstring::expanded(value, from, column).contains('\t'),
        !value.contains('\t') ==> docstring::expanded(value, from, column) == value.skip(from),
    decreases value.len() - from,
{
    if from < value.len() {
        let count = 8 - column % 8;
        let next = if value[from] == '\n' || value[from] == '\r' {
            0
        } else {
            column + 1
        };
        tabs_are_filled_up(value, from + 1, column + count);
        tabs_are_filled_up(value, from + 1, next);
        let whole = docstring::expanded(value, from, column);
        if value[from] == '\t' {
            let rest = docstring::expanded(value, from + 1, column + count);
            assert(value.contains('\t'));
            assert forall|i: int| 0 <= i < whole.len() implies whole[i] != '\t' by {
                if i >= count {
                    assert(whole[i] == rest[i - count]);
                }
            }
        } else {
            let rest = docstring::expanded(value, from + 1, next);
            assert forall|i: int| 0 <= i < whole.len() implies whole[i] != '\t' by {
                if i >= 1 {
                    assert(whole[i] == rest[i - 1]);
                }
            }
            if !value.contains('\t') {
                assert(whole =~= value.skip(from));
            }
        }
    }
}

/// A tab is filled up with spaces to the next column that is a multiple of eight.
pub proof fn tabs_reach_columns_of_eight(rest: Seq<char>, column: int) -> (count: int)
    requires
        0 <= column,
    ensures
        1 <= count <= 8,
        (column + count) % 8 == 0,
        docstring::expanded(seq!['\t'] + rest, 0, column) == Seq::new(count as nat, |i: int| ' ')
            + docstring::expanded(seq!['\t'] + rest, 1, column + count),
{
    8 - column % 8
}

proof fn lemma_margin(lines: Seq<Seq<char>>, end: int)
    requires
        0 <= end <= lines.len(),
    ensures
        match docstring::margin(lines, end) {
            None => forall|i: int|
                1 <= i < end ==> text::trimmed_start(#[trigger] lines[i]).len() == 0,
            Some(least) => {
                &&& forall|i: int|
                    1 <= i < end && text::trimmed_start(#[trigger] lines[i]).len() > 0
                        ==> text::indent(lines[i]) >= least
                &&& exists|i: int|
                    1 <= i < end && text::trimmed_start(#[trigger] lines[i]).len() > 0
                        && text::indent(lines[i]) == least
            },
        },
    decreases end,
{
    if end > 1 {
        lemma_margin(lines, end - 1);
        let line = lines[end - 1];
        assert(text::trimmed_start(line) == text::trimmed_start(lines[end - 1]));
    }
}

/// Every line behind the first loses the indentation that all such lines with words share: as much
/// as the least indented of them has. The first loses the white space before it.
pub proof fn shared_indentation_is_taken_off(lines: Seq<Seq<char>>, at: int, least: int)
    requires
        1 <= at < lines.len(),
        0 <= least,
        text::trimmed_start(lines[at]).len() > 0,
        text::indent(lines[at]) == least,
        least <= lines[at].len(),
        forall|i: int|
            1 <= i < lines.len() && text::trimmed_start(#[trigger] lines[i]).len() > 0
                ==> text::indent(lines[i]) >= least,
    ensures
        ({
            let made = docstring::dedented(lines);
            &&& made.len() == lines.len()
            &&& made[0] == text::trimmed_start(lines[0])
            &&& made[at] == lines[at].skip(least)
            &&& forall|i: int|
                1 <= i < lines.len() && lines[i].len() >= least ==> #[trigger] made[i]
                    == lines[i].skip(least)
            &&& forall|i: int|
                1 <= i < lines.len() && lines[i].len() < least ==> (#[trigger] made[i]).len() == 0
        }),
{
    lemma_margin(lines, lines.len() as int);
    assert(text::trimmed_start(lines[at]).len() > 0);
    assert(docstring::margin(lines, lines.len() as int) == Some(least));
}

/// A text without a backslash stands for itself.
pub proof fn plain_texts_stand_for_themselves(text: Seq<char>, from: int)
    requires
        0 <= from <= text.len(),
        !text.contains('\\'),
    ensures
        literal::unescaped(text, from) == text.skip(from),
    decreases text.len() - from,
{
    if from < text.len() {
        assert(text.contains(text[from]));
        plain_texts_stand_for_themselves(text, from + 1);
        assert(seq![text[from]] + text.skip(from + 1) =~= text.skip(from));
    }
}

/// A backslash and a letter stand for one character: a line feed, a carriage return, a tab or a
/// zero for their letters, and otherwise for what follows the backslash.
pub proof fn escapes_stand_for_one_character(text: Seq<char>, from: int)
    requires
        0 <= from,
        from + 1 < text.len(),
        text[from] == '\\',
        text[from + 1] != 'u',
    ensures
        ({
            let letter = text[from + 1];
            let meant = if letter == 'n' {
                '\n'
            } else if letter == 'r' {
                '\r'
            } else if letter == 't' {
                '\t'
            } else if letter == '0' {
                '\0'
            } else {
                letter
            };
            literal::unescaped(text, from) == seq![meant] + literal::unescaped(text, from + 2)
        }),
{
}

/// The digits between the braces of an escape are read as hexadecimal: a digit counts sixteen times
/// as much as the one behind it.
pub proof fn codes_are_hexadecimal(text: Seq<char>, from: int, value: int)
    requires
        0 <= from < text.len(),
        0 <= value <= 0x10ffff,
    ensures
        ({
            let code = text[from] as u32;
            let read = literal::hex_value(text, from, value);
            &&& text[from] == '}' ==> read == Some((value, from + 1))
            &&& '0' as u32 <= code <= '9' as u32 ==> read == literal::hex_value(
                text,
                from + 1,
                value * 16 + (code - '0' as u32),
            )
            &&& 'a' as u32 <= code <= 'f' as u32 ==> read == literal::hex_value(
                text,
                from + 1,
                value * 16 + 10 + (code - 'a' as u32),
            )
            &&& text[from] != '}' && !('0' as u32 <= code <= '9' as u32) && !('a' as u32 <= code
                <= 'f' as u32) ==> read is None
        }),
{
}

} // verus!
