//! The metrics table of the profiler.
use crate::fields::Fields;
use crate::json;
use crate::json::{FieldView, Json, JsonView};
use crate::number;
use crate::number::{Number, NumberView, Readings, ReadingsView, EXACT};
use crate::numeral;
use crate::numeral::parse_integer;
use crate::outside;
use crate::outside::{read_table, Table, TableView};
use crate::pieces;
use crate::pieces::{lines, remove};
use crate::ranking;
use crate::ranking::rank;
use crate::text;
use crate::text::{chars, contains, one_of, same, trim};
use vstd::prelude::*;

verus! {

/// Whether a cell counts as empty.
pub open spec fn missing(value: Seq<char>) -> bool {
    value == ""@ || value == "NaN"@ || value == "nan"@ || value == "NA"@ || value == "N/A"@ || value
        == "NULL"@ || value == "null"@ || value == "None"@ || value == "#N/A"@ || value == "#NA"@
        || value == "<NA>"@ || value == "-NaN"@ || value == "-nan"@ || value == "#N/A N/A"@ || value
        == "n/a"@ || value == "-1.#IND"@ || value == "1.#IND"@ || value == "-1.#QNAN"@ || value
        == "1.#QNAN"@
}

/// Whether a cell counts as empty.
pub fn is_missing(value: &str) -> (found: bool)
    ensures
        found == missing(value@),
{
    one_of(
        value,
        &[
            "",
            "NaN",
            "nan",
            "NA",
            "N/A",
            "NULL",
            "null",
            "None",
            "#N/A",
            "#NA",
            "<NA>",
            "-NaN",
            "-nan",
            "#N/A N/A",
            "n/a",
            "-1.#IND",
            "1.#IND",
            "-1.#QNAN",
            "1.#QNAN",
        ],
    )
}

/// A line from `from` on up to the first equals sign outside quotation marks, and whether it
/// leaves a quotation open.
pub open spec fn kept_line(line: Seq<char>, from: int, quoted: bool) -> (Seq<char>, bool)
    decreases line.len() - from,
{
    if from < 0 || from >= line.len() {
        (Seq::empty(), quoted)
    } else {
        let open = if line[from] == '"' {
            !quoted
        } else {
            quoted
        };
        if line[from] == '=' && !open {
            (Seq::empty(), open)
        } else {
            let (rest, left) = kept_line(line, from + 1, open);
            (seq![line[from]] + rest, left)
        }
    }
}

/// The lines from `from` on but for the second of all, each cut at a status mark.
pub open spec fn kept_lines(lines: Seq<Seq<char>>, from: int, quoted: bool) -> Seq<char>
    decreases lines.len() - from,
{
    if from < 0 || from >= lines.len() {
        Seq::empty()
    } else if from == 1 {
        kept_lines(lines, from + 1, quoted)
    } else {
        let (kept, left) = kept_line(lines[from], 0, quoted);
        kept.push('\n') + kept_lines(lines, from + 1, left)
    }
}

/// The table in the profiler's output: without the line of units and without status lines.
pub open spec fn cleaned(source: Seq<char>) -> Seq<char> {
    kept_lines(pieces::lines_of(source), 0, false)
}

/// Adds what is kept of a line.
fn keep_line(line: &str, quoted: bool, kept: &mut String) -> (left: bool)
    ensures
        final(kept)@ == old(kept)@ + kept_line(line@, 0, quoted).0,
        left == kept_line(line@, 0, quoted).1,
{
    let characters = chars(line);
    let ghost before = kept@;
    let ghost whole = kept_line(line@, 0, quoted);
    let mut open = quoted;
    let mut index: usize = 0;
    while index < characters.len()
        invariant
            index <= characters@.len(),
            characters@ == line@,
            before == old(kept)@,
            whole == kept_line(line@, 0, quoted),
            before + whole.0 == kept@ + kept_line(line@, index as int, open).0,
            whole.1 == kept_line(line@, index as int, open).1,
        decreases characters@.len() - index,
    {
        let character = characters[index];
        let ghost so_far = kept@;
        if character == '"' {
            open = !open;
        }
        if character == '=' && !open {
            assert(kept@ + Seq::<char>::empty() =~= kept@);
            return open;
        }
        kept.push(character);
        index += 1;
        proof {
            let rest = kept_line(line@, index as int, open).0;
            assert(kept@ + rest =~= so_far + (seq![character] + rest));
        }
    }
    assert(kept@ + Seq::<char>::empty() =~= kept@);
    open
}

/// The table in the profiler's output.
fn clean(source: &str) -> (kept: String)
    ensures
        kept@ == cleaned(source@),
{
    let list = lines(source);
    let ghost all = pieces::texts(list@);
    let mut kept = String::new();
    let mut quoted = false;
    let mut index: usize = 0;
    assert(kept@ + kept_lines(all, 0, false) =~= kept_lines(all, 0, false));
    while index < list.len()
        invariant
            index <= list@.len(),
            all == pieces::texts(list@),
            all == pieces::lines_of(source@),
            kept@ + kept_lines(all, index as int, quoted) == kept_lines(all, 0, false),
        decreases list@.len() - index,
    {
        if index != 1 {
            let ghost before = kept@;
            let ghost was = quoted;
            assert(all[index as int] == list@[index as int]@);
            quoted = keep_line(list[index].as_str(), quoted, &mut kept);
            kept.push('\n');
            proof {
                let line = kept_line(all[index as int], 0, was).0;
                let rest = kept_lines(all, index + 1, quoted);
                assert(kept@ + rest =~= before + (line.push('\n') + rest));
            }
        }
        index += 1;
    }
    assert(kept@ + Seq::<char>::empty() =~= kept@);
    kept
}

/// The cell of a row, empty beyond its end.
pub open spec fn cell(row: Seq<Seq<char>>, column: int) -> Seq<char> {
    if 0 <= column < row.len() {
        row[column]
    } else {
        ""@
    }
}

/// The kernel that a row is about.
pub open spec fn kernel_of(row: Seq<Seq<char>>, column: int) -> Seq<char> {
    if missing(cell(row, column)) {
        "nan"@
    } else {
        cell(row, column)
    }
}

fn cell_of(row: &Vec<String>, column: usize) -> (value: &str)
    ensures
        value@ == cell(pieces::texts(row@), column as int),
{
    if column < row.len() {
        row[column].as_str()
    } else {
        ""
    }
}

fn kernel_name(row: &Vec<String>, column: usize) -> (value: &str)
    ensures
        value@ == kernel_of(pieces::texts(row@), column as int),
{
    let value = cell_of(row, column);
    if is_missing(value) {
        "nan"
    } else {
        value
    }
}

/// The kernels of the first `end` rows, each once, in the order of their first rows.
pub open spec fn kernels(rows: Seq<Seq<Seq<char>>>, column: int, end: int) -> Seq<Seq<char>>
    decreases end,
{
    if end <= 0 {
        Seq::empty()
    } else {
        let before = kernels(rows, column, end - 1);
        let name = kernel_of(rows[end - 1], column);
        if before.contains(name) {
            before
        } else {
            before.push(name)
        }
    }
}

/// The names among the first `end` that say something.
pub open spec fn telling(names: Seq<Seq<char>>, end: int) -> Seq<Seq<char>>
    decreases end,
{
    if end <= 0 {
        Seq::empty()
    } else {
        let before = telling(names, end - 1);
        let name = names[end - 1];
        if name != "nan"@ && text::trimmed(name).len() > 0 {
            before.push(name)
        } else {
            before
        }
    }
}

/// The kernels to report on: those that are named, or all that have a name.
pub open spec fn requested(rows: Seq<Seq<Seq<char>>>, column: int, names: Seq<Seq<char>>) -> Seq<
    Seq<char>,
> {
    if names.len() == 0 {
        let found = kernels(rows, column, rows.len() as int);
        telling(found, found.len() as int)
    } else {
        names
    }
}

/// Whether a list of texts holds one.
pub fn lists(list: &Vec<String>, name: &str) -> (found: bool)
    ensures
        found == pieces::texts(list@).contains(name@),
{
    let ghost all = pieces::texts(list@);
    let mut index: usize = 0;
    while index < list.len()
        invariant
            index <= list@.len(),
            all == pieces::texts(list@),
            forall|i: int| 0 <= i < index ==> (#[trigger] all[i]) != name@,
        decreases list@.len() - index,
    {
        if same(list[index].as_str(), name) {
            assert(all[index as int] == name@);
            return true;
        }
        index += 1;
    }
    false
}

/// The kernels of all rows, each once, in the order of their first rows.
fn all_kernels(rows: &Vec<Vec<String>>, column: usize) -> (found: Vec<String>)
    ensures
        pieces::texts(found@) == kernels(
            outside::rows_view(rows@),
            column as int,
            rows@.len() as int,
        ),
{
    let ghost all = outside::rows_view(rows@);
    let mut found: Vec<String> = Vec::new();
    let mut index: usize = 0;
    assert(pieces::texts(found@) =~= Seq::<Seq<char>>::empty());
    while index < rows.len()
        invariant
            index <= rows@.len(),
            all == outside::rows_view(rows@),
            pieces::texts(found@) == kernels(all, column as int, index as int),
        decreases rows@.len() - index,
    {
        assert(all[index as int] == pieces::texts(rows@[index as int]@));
        let name = kernel_name(&rows[index], column);
        if !lists(&found, name) {
            let name = name.to_owned();
            proof {
                pieces::lemma_texts_push(found@, name);
            }
            found.push(name);
        }
        index += 1;
    }
    found
}

/// The kernels to report on.
fn to_report(rows: &Vec<Vec<String>>, column: usize, names: &Vec<String>) -> (list: Vec<String>)
    ensures
        pieces::texts(list@) == requested(
            outside::rows_view(rows@),
            column as int,
            pieces::texts(names@),
        ),
{
    let mut list: Vec<String> = Vec::new();
    let mut index: usize = 0;
    assert(pieces::texts(list@) =~= Seq::<Seq<char>>::empty());
    if names.len() == 0 {
        let found = all_kernels(rows, column);
        let ghost all = pieces::texts(found@);
        while index < found.len()
            invariant
                index <= found@.len(),
                all == pieces::texts(found@),
                pieces::texts(list@) == telling(all, index as int),
            decreases found@.len() - index,
        {
            assert(all[index as int] == found@[index as int]@);
            if !same(found[index].as_str(), "nan") && !trim(found[index].as_str()).as_str().is_empty() {
                let name = found[index].clone();
                proof {
                    pieces::lemma_texts_push(list@, name);
                }
                list.push(name);
            }
            index += 1;
        }
    } else {
        let ghost all = pieces::texts(names@);
        while index < names.len()
            invariant
                index <= names@.len(),
                all == pieces::texts(names@),
                pieces::texts(list@) == all.take(index as int),
            decreases names@.len() - index,
        {
            let name = names[index].clone();
            proof {
                pieces::lemma_texts_push(list@, name);
            }
            list.push(name);
            index += 1;
            assert(all.take(index as int) =~= all.take(index - 1).push(all[index - 1]));
        }
        assert(all.take(index as int) =~= all);
    }
    list
}

/// The last of the first `end` rows that is about a kernel: by its name, or by a part of it.
pub open spec fn last_row(
    rows: Seq<Seq<Seq<char>>>,
    column: int,
    name: Seq<char>,
    exact: bool,
    end: int,
) -> Option<int>
    decreases end,
{
    if end <= 0 {
        None
    } else {
        let kernel = kernel_of(rows[end - 1], column);
        if (exact && kernel == name) || (!exact && text::holds(kernel, name)) {
            Some(end - 1)
        } else {
            last_row(rows, column, name, exact, end - 1)
        }
    }
}

fn find_row(rows: &Vec<Vec<String>>, column: usize, name: &str, exact: bool) -> (found: Option<usize>)
    ensures
        match found {
            Some(index) => last_row(
                outside::rows_view(rows@),
                column as int,
                name@,
                exact,
                rows@.len() as int,
            ) == Some(index as int) && index < rows@.len(),
            None => last_row(
                outside::rows_view(rows@),
                column as int,
                name@,
                exact,
                rows@.len() as int,
            ) is None,
        },
{
    let ghost all = outside::rows_view(rows@);
    let mut end: usize = rows.len();
    while end > 0
        invariant
            end <= rows@.len(),
            all == outside::rows_view(rows@),
            last_row(all, column as int, name@, exact, rows@.len() as int) == last_row(
                all,
                column as int,
                name@,
                exact,
                end as int,
            ),
        decreases end,
    {
        assert(all[end - 1] == pieces::texts(rows@[end - 1]@));
        let kernel = kernel_name(&rows[end - 1], column);
        let found = if exact {
            same(kernel, name)
        } else {
            contains(kernel, name)
        };
        if found {
            return Some(end - 1);
        }
        end -= 1;
    }
    None
}

/// An integer with its reading, where that is known.
pub open spec fn integer_number(value: i128, text: Seq<char>, readings: ReadingsView) -> NumberView {
    if 0 <= value <= EXACT {
        number::written(value as nat)
    } else {
        NumberView::Integer(
            value,
            match number::read_from(readings, text) {
                Some(Some(reading)) => Some(reading),
                _ => None,
            },
        )
    }
}

/// The text of a metric's cell that is read as a number.
pub open spec fn metric_part(value: Seq<char>) -> Seq<char> {
    text::trimmed(pieces::without(value, ",%"@))
}

/// The value of a metric's cell: a number if it writes one, else its text; `None` where the number
/// is not finite.
pub open spec fn metric_value(value: Seq<char>, readings: ReadingsView) -> Option<JsonView> {
    let text = metric_part(value);
    match numeral::integer_of(text) {
        Some(value) => Some(JsonView::Number(integer_number(value as i128, text, readings))),
        None => match number::read_from(readings, text) {
            None => Some(JsonView::Text(text)),
            Some(None) => None,
            Some(Some(reading)) => Some(JsonView::Number(NumberView::Decimal(reading))),
        },
    }
}

/// The text of a metric's cell that is read as a number.
pub fn metric_text(value: &str) -> (text: String)
    ensures
        text@ == metric_part(value@),
{
    trim(remove(value, ",%").as_str())
}

fn read_metric(value: &str, readings: &Readings) -> (read: Option<Json>)
    ensures
        json::optional(read) == metric_value(value@, readings@),
{
    let text = metric_text(value);
    match parse_integer(text.as_str()) {
        Some(value) => {
            if 0 <= value && value <= EXACT as i128 {
                Some(Json::Number(Number::of(value as u64)))
            } else {
                let reading = match readings.read(text.as_str()) {
                    Some(Some(reading)) => Some(reading),
                    _ => None,
                };
                Some(Json::Number(Number::Integer(value, reading)))
            }
        },
        None => match readings.read(text.as_str()) {
            None => Some(Json::Text(text)),
            Some(None) => None,
            Some(Some(reading)) => Some(Json::Number(Number::Decimal(reading))),
        },
    }
}

/// The metrics in the first `end` columns of a row, or the one that has no finite value.
pub open spec fn metrics_of(
    headers: Seq<Seq<char>>,
    row: Seq<Seq<char>>,
    column: int,
    readings: ReadingsView,
    end: int,
) -> Result<Seq<FieldView>, Seq<char>>
    decreases end,
{
    if end <= 0 {
        Ok(Seq::empty())
    } else {
        match metrics_of(headers, row, column, readings, end - 1) {
            Err(reason) => Err(reason),
            Ok(before) => if end - 1 == column {
                Ok(before)
            } else {
                let value = cell(row, end - 1);
                let header = headers[end - 1];
                match metric_value(value, readings) {
                    Some(read) => if missing(value) {
                        Err("nonfinite NCU metric "@ + header)
                    } else {
                        Ok(json::with_field(before, header, read))
                    },
                    None => Err("nonfinite NCU metric "@ + header),
                }
            },
        }
    }
}

proof fn lemma_metrics_refused(
    headers: Seq<Seq<char>>,
    row: Seq<Seq<char>>,
    column: int,
    readings: ReadingsView,
    index: int,
    end: int,
)
    requires
        0 <= index < end,
        metrics_of(headers, row, column, readings, index + 1) is Err,
    ensures
        metrics_of(headers, row, column, readings, end) == metrics_of(
            headers,
            row,
            column,
            readings,
            index + 1,
        ),
    decreases end,
{
    if end > index + 1 {
        lemma_metrics_refused(headers, row, column, readings, index, end - 1);
    }
}

fn read_metrics(headers: &Vec<String>, row: &Vec<String>, column: usize, readings: &Readings) -> (read:
    Result<Fields, String>)
    ensures
        match read {
            Ok(list) => metrics_of(
                pieces::texts(headers@),
                pieces::texts(row@),
                column as int,
                readings@,
                headers@.len() as int,
            ) == Ok::<Seq<FieldView>, Seq<char>>(list@),
            Err(error) => metrics_of(
                pieces::texts(headers@),
                pieces::texts(row@),
                column as int,
                readings@,
                headers@.len() as int,
            ) == Err::<Seq<FieldView>, Seq<char>>(error@),
        },
{
    let ghost heads = pieces::texts(headers@);
    let ghost cells = pieces::texts(row@);
    let mut list = Fields::new();
    let mut index: usize = 0;
    while index < headers.len()
        invariant
            index <= headers@.len(),
            heads == pieces::texts(headers@),
            cells == pieces::texts(row@),
            metrics_of(heads, cells, column as int, readings@, index as int) == Ok::<
                Seq<FieldView>,
                Seq<char>,
            >(list@),
        decreases headers@.len() - index,
    {
        if index != column {
            assert(heads[index as int] == headers@[index as int]@);
            let value = cell_of(row, index);
            let read = if is_missing(value) {
                None
            } else {
                read_metric(value, readings)
            };
            match read {
                Some(read) => {
                    list.set(headers[index].as_str(), read);
                },
                None => {
                    proof {
                        lemma_metrics_refused(
                            heads,
                            cells,
                            column as int,
                            readings@,
                            index as int,
                            heads.len() as int,
                        );
                    }
                    return Err("nonfinite NCU metric ".to_owned().concat(headers[index].as_str()));
                },
            }
        }
        index += 1;
    }
    Ok(list)
}

/// A kernel and its metrics.
pub type Selected = (Seq<char>, Seq<FieldView>);

/// The model of kernels and their metrics.
pub open spec fn selected_view(selected: Seq<(String, Fields)>) -> Seq<Selected> {
    Seq::new(selected.len(), |i: int| (selected[i].0@, selected[i].1@))
}

/// The metrics of the first `end` kernels that have a row.
pub open spec fn selection(
    headers: Seq<Seq<char>>,
    rows: Seq<Seq<Seq<char>>>,
    column: int,
    wanted: Seq<Seq<char>>,
    exact: bool,
    readings: ReadingsView,
    end: int,
) -> Result<Seq<Selected>, Seq<char>>
    decreases end,
{
    if end <= 0 {
        Ok(Seq::empty())
    } else {
        match selection(headers, rows, column, wanted, exact, readings, end - 1) {
            Err(reason) => Err(reason),
            Ok(before) => match last_row(rows, column, wanted[end - 1], exact, rows.len() as int) {
                None => Ok(before),
                Some(row) => match metrics_of(
                    headers,
                    rows[row],
                    column,
                    readings,
                    headers.len() as int,
                ) {
                    Err(reason) => Err(reason),
                    Ok(list) => Ok(before.push((wanted[end - 1], list))),
                },
            },
        }
    }
}

proof fn lemma_selection_refused(
    headers: Seq<Seq<char>>,
    rows: Seq<Seq<Seq<char>>>,
    column: int,
    wanted: Seq<Seq<char>>,
    exact: bool,
    readings: ReadingsView,
    index: int,
    end: int,
)
    requires
        0 <= index < end,
        selection(headers, rows, column, wanted, exact, readings, index + 1) is Err,
    ensures
        selection(headers, rows, column, wanted, exact, readings, end) == selection(
            headers,
            rows,
            column,
            wanted,
            exact,
            readings,
            index + 1,
        ),
    decreases end,
{
    if end > index + 1 {
        lemma_selection_refused(headers, rows, column, wanted, exact, readings, index, end - 1);
    }
}

fn select(
    headers: &Vec<String>,
    rows: &Vec<Vec<String>>,
    column: usize,
    wanted: &Vec<String>,
    exact: bool,
    readings: &Readings,
) -> (selected: Result<Vec<(String, Fields)>, String>)
    ensures
        match selected {
            Ok(list) => selection(
                pieces::texts(headers@),
                outside::rows_view(rows@),
                column as int,
                pieces::texts(wanted@),
                exact,
                readings@,
                wanted@.len() as int,
            ) == Ok::<Seq<Selected>, Seq<char>>(selected_view(list@)),
            Err(error) => selection(
                pieces::texts(headers@),
                outside::rows_view(rows@),
                column as int,
                pieces::texts(wanted@),
                exact,
                readings@,
                wanted@.len() as int,
            ) == Err::<Seq<Selected>, Seq<char>>(error@),
        },
{
    let ghost heads = pieces::texts(headers@);
    let ghost all = outside::rows_view(rows@);
    let ghost names = pieces::texts(wanted@);
    let mut list: Vec<(String, Fields)> = Vec::new();
    let mut index: usize = 0;
    assert(selected_view(list@) =~= Seq::<Selected>::empty());
    while index < wanted.len()
        invariant
            index <= wanted@.len(),
            heads == pieces::texts(headers@),
            all == outside::rows_view(rows@),
            names == pieces::texts(wanted@),
            selection(heads, all, column as int, names, exact, readings@, index as int) == Ok::<
                Seq<Selected>,
                Seq<char>,
            >(selected_view(list@)),
        decreases wanted@.len() - index,
    {
        assert(names[index as int] == wanted@[index as int]@);
        if let Some(row) = find_row(rows, column, wanted[index].as_str(), exact) {
            assert(all[row as int] == pieces::texts(rows@[row as int]@));
            match read_metrics(headers, &rows[row], column, readings) {
                Ok(metrics) => {
                    let ghost before = list@;
                    let ghost one = (names[index as int], metrics@);
                    list.push((wanted[index].clone(), metrics));
                    assert(selected_view(list@) =~= selected_view(before).push(one));
                },
                Err(error) => {
                    proof {
                        lemma_selection_refused(
                            heads,
                            all,
                            column as int,
                            names,
                            exact,
                            readings@,
                            index as int,
                            names.len() as int,
                        );
                    }
                    return Err(error);
                },
            }
        }
        index += 1;
    }
    Ok(list)
}

/// The place of a kernel's duration among numbers, that of zero where it has none.
pub open spec fn duration(selected: Selected) -> i128 {
    match JsonView::Object(selected.1).at("gpu__time_duration.sum"@).reading() {
        Some(reading) => reading.place() as i128,
        None => 0,
    }
}

/// The durations of kernels.
pub open spec fn durations(selected: Seq<Selected>) -> Seq<i128> {
    Seq::new(selected.len(), |i: int| duration(selected[i]))
}

/// The first five, the longest first.
pub open spec fn longest(selected: Seq<Selected>) -> Seq<Selected> {
    let sorted = ranking::arranged(selected, ranking::ranked(durations(selected), selected.len()));
    if sorted.len() > 5 {
        sorted.take(5)
    } else {
        sorted
    }
}

/// The record of the first `end` kernels, by name.
pub open spec fn by_name(selected: Seq<Selected>, end: int) -> Seq<FieldView>
    decreases end,
{
    if end <= 0 {
        Seq::empty()
    } else {
        json::with_field(
            by_name(selected, end - 1),
            selected[end - 1].0,
            JsonView::Object(selected[end - 1].1),
        )
    }
}

fn duration_of(list: &Fields) -> (key: i128)
    ensures
        forall|name: Seq<char>| #[trigger] duration((name, list@)) == key,
{
    let reading = match list.get("gpu__time_duration.sum") {
        Some(value) => value.reading(),
        None => None,
    };
    match reading {
        Some(reading) => reading.place(),
        None => 0,
    }
}

/// The record of the kernels in an order.
fn record(selected: &Vec<(String, Fields)>, order: &Vec<usize>, limit: usize) -> (made: Json)
    requires
        limit <= order@.len(),
        forall|i: int| 0 <= i < order@.len() ==> (#[trigger] order@[i]) < selected@.len(),
    ensures
        made@ == JsonView::Object(
            by_name(ranking::arranged(selected_view(selected@), order@), limit as int),
        ),
{
    let ghost sorted = ranking::arranged(selected_view(selected@), order@);
    let mut list = Fields::new();
    let mut index: usize = 0;
    while index < limit
        invariant
            index <= limit <= order@.len(),
            sorted == ranking::arranged(selected_view(selected@), order@),
            forall|i: int| 0 <= i < order@.len() ==> (#[trigger] order@[i]) < selected@.len(),
            list@ == by_name(sorted, index as int),
        decreases limit - index,
    {
        let place: usize = order[index];
        assert(sorted[index as int] == selected_view(selected@)[place as int]);
        let metrics = Fields::copied(&selected[place].1.list).object();
        list.set(selected[place].0.as_str(), metrics);
        index += 1;
    }
    list.object()
}

/// The metrics of the kernels in a table that was read: of those that are named, or the five that
/// took longest; nothing where the table has no kernels or cannot be read.
pub open spec fn table_metrics(
    table: Option<TableView>,
    names: Seq<Seq<char>>,
    readings: ReadingsView,
) -> Result<JsonView, Seq<char>> {
    match table {
        None => Ok(JsonView::Object(Seq::empty())),
        Some(table) => match (first_head(table.headers, 0), table.rows) {
            (Some(column), Some(rows)) => if exists|i: int|
                0 <= i < rows.len() && (#[trigger] rows[i]).len() > table.headers.len() {
                Ok(JsonView::Object(Seq::empty()))
            } else {
                let wanted = requested(rows, column, names);
                match selection(
                    table.headers,
                    rows,
                    column,
                    wanted,
                    names.len() == 0,
                    readings,
                    wanted.len() as int,
                ) {
                    Err(reason) => Err(reason),
                    Ok(selected) => {
                        let shown = if names.len() == 0 {
                            longest(selected)
                        } else {
                            selected
                        };
                        Ok(JsonView::Object(by_name(shown, shown.len() as int)))
                    },
                }
            },
            _ => Ok(JsonView::Object(Seq::empty())),
        },
    }
}

/// The first column from `from` on that names kernels.
pub open spec fn first_head(headers: Seq<Seq<char>>, from: int) -> Option<int>
    decreases headers.len() - from,
{
    if from < 0 || from >= headers.len() {
        None
    } else if headers[from] == "Kernel Name"@ {
        Some(from)
    } else {
        first_head(headers, from + 1)
    }
}

fn find_head(headers: &Vec<String>) -> (column: Option<usize>)
    ensures
        match column {
            Some(column) => first_head(pieces::texts(headers@), 0) == Some(column as int),
            None => first_head(pieces::texts(headers@), 0) is None,
        },
{
    let ghost all = pieces::texts(headers@);
    let mut index: usize = 0;
    while index < headers.len()
        invariant
            index <= headers@.len(),
            all == pieces::texts(headers@),
            first_head(all, 0) == first_head(all, index as int),
        decreases headers@.len() - index,
    {
        assert(all[index as int] == headers@[index as int]@);
        if same(headers[index].as_str(), "Kernel Name") {
            return Some(index);
        }
        index += 1;
    }
    None
}

fn any_longer(rows: &Vec<Vec<String>>, limit: usize) -> (found: bool)
    ensures
        found == exists|i: int|
            0 <= i < rows@.len() && (#[trigger] outside::rows_view(rows@)[i]).len() > limit,
{
    let ghost all = outside::rows_view(rows@);
    let mut index: usize = 0;
    while index < rows.len()
        invariant
            index <= rows@.len(),
            all == outside::rows_view(rows@),
            forall|i: int| 0 <= i < index ==> (#[trigger] all[i]).len() <= limit,
        decreases rows@.len() - index,
    {
        assert(all[index as int].len() == rows@[index as int]@.len());
        if rows[index].len() > limit {
            return true;
        }
        index += 1;
    }
    false
}

/// The model of an optional table.
pub open spec fn optional_table(table: Option<Table>) -> Option<TableView> {
    match table {
        Some(table) => Some(table@),
        None => None,
    }
}

/// The metrics of the kernels in a table that was read.
pub fn metrics(table: &Option<Table>, names: &Vec<String>, readings: &Readings) -> (result: Result<
    Json,
    String,
>)
    ensures
        match result {
            Ok(made) => table_metrics(optional_table(*table), pieces::texts(names@), readings@)
                == Ok::<JsonView, Seq<char>>(made@),
            Err(error) => table_metrics(optional_table(*table), pieces::texts(names@), readings@)
                == Err::<JsonView, Seq<char>>(error@),
        },
{
    let table = match table {
        Some(table) => table,
        None => {
            return Ok(Fields::new().object());
        },
    };
    let column = match find_head(&table.headers) {
        Some(column) => column,
        None => {
            return Ok(Fields::new().object());
        },
    };
    let rows = match &table.rows {
        Some(rows) => rows,
        None => {
            return Ok(Fields::new().object());
        },
    };
    if any_longer(rows, table.headers.len()) {
        return Ok(Fields::new().object());
    }
    let wanted = to_report(rows, column, names);
    assert(pieces::texts(wanted@).len() == wanted@.len());
    let selected = match select(
        &table.headers,
        rows,
        column,
        &wanted,
        names.len() == 0,
        readings,
    ) {
        Ok(selected) => selected,
        Err(error) => {
            return Err(error);
        },
    };
    let ghost all = selected_view(selected@);
    let mut keys: Vec<i128> = Vec::new();
    let mut index: usize = 0;
    let by_duration = names.len() == 0;
    while index < selected.len()
        invariant
            index <= selected@.len(),
            all == selected_view(selected@),
            keys@.len() == index,
            forall|i: int|
                0 <= i < index ==> (#[trigger] keys@[i]) == (if by_duration {
                    duration(all[i])
                } else {
                    0
                }),
        decreases selected@.len() - index,
    {
        assert(all[index as int] == (selected@[index as int].0@, selected@[index as int].1@));
        let key: i128 = if by_duration {
            duration_of(&selected[index].1)
        } else {
            0
        };
        keys.push(key);
        index += 1;
    }
    let ranks = rank(&keys);
    proof {
        if by_duration {
            assert(keys@ =~= durations(all));
            let sorted = ranking::arranged(all, ranks@);
            if sorted.len() > 5 {
                lemma_by_name(sorted, sorted.take(5), 5);
            }
        } else {
            ranking::equal_keys_stay(keys@, keys@.len());
            assert(ranking::arranged(all, ranks@) =~= all);
        }
    }
    let limit: usize = if by_duration && selected.len() > 5 {
        5
    } else {
        selected.len()
    };
    Ok(record(&selected, &ranks, limit))
}

proof fn lemma_by_name(left: Seq<Selected>, right: Seq<Selected>, end: int)
    requires
        end <= left.len(),
        end <= right.len(),
        forall|i: int| 0 <= i < end ==> #[trigger] left[i] == right[i],
    ensures
        by_name(left, end) == by_name(right, end),
    decreases end,
{
    if end > 0 {
        lemma_by_name(left, right, end - 1);
        assert(left[end - 1] == right[end - 1]);
    }
}

/// The metrics in the profiler's output, by kernel.
pub fn ncu_csv(source: &str, names: &Vec<String>, readings: &Readings) -> (result: Result<
    Json,
    String,
>)
    ensures
        match result {
            Ok(made) => table_metrics(
                outside::csv_table(cleaned(source@)),
                pieces::texts(names@),
                readings@,
            ) == Ok::<JsonView, Seq<char>>(made@),
            Err(error) => table_metrics(
                outside::csv_table(cleaned(source@)),
                pieces::texts(names@),
                readings@,
            ) == Err::<JsonView, Seq<char>>(error@),
        },
{
    metrics(&read_table(clean(source).as_str()), names, readings)
}

/// The texts of the first `end` cells of a row that are read as numbers.
pub open spec fn row_parts(row: Seq<Seq<char>>, end: int) -> Seq<Seq<char>>
    decreases end,
{
    if end <= 0 {
        Seq::empty()
    } else {
        row_parts(row, end - 1).push(metric_part(row[end - 1]))
    }
}

/// The texts in the first `end` rows that are read as numbers.
pub open spec fn rows_parts(rows: Seq<Seq<Seq<char>>>, end: int) -> Seq<Seq<char>>
    decreases end,
{
    if end <= 0 {
        Seq::empty()
    } else {
        rows_parts(rows, end - 1) + row_parts(rows[end - 1], rows[end - 1].len() as int)
    }
}

/// The texts in a table that are read as numbers.
pub open spec fn table_parts(table: Option<TableView>) -> Seq<Seq<char>> {
    match table {
        Some(table) => match table.rows {
            Some(rows) => rows_parts(rows, rows.len() as int),
            None => Seq::empty(),
        },
        None => Seq::empty(),
    }
}

/// The texts in the profiler's output that are read as numbers.
pub fn numbers_in(source: &str) -> (parts: Vec<String>)
    ensures
        pieces::texts(parts@) == table_parts(outside::csv_table(cleaned(source@))),
{
    let mut parts: Vec<String> = Vec::new();
    assert(pieces::texts(parts@) =~= Seq::<Seq<char>>::empty());
    let table = match read_table(clean(source).as_str()) {
        Some(table) => table,
        None => {
            return parts;
        },
    };
    let rows = match &table.rows {
        Some(rows) => rows,
        None => {
            return parts;
        },
    };
    let ghost all = outside::rows_view(rows@);
    let mut index: usize = 0;
    while index < rows.len()
        invariant
            index <= rows@.len(),
            all == outside::rows_view(rows@),
            pieces::texts(parts@) == rows_parts(all, index as int),
        decreases rows@.len() - index,
    {
        let row = &rows[index];
        let ghost before = pieces::texts(parts@);
        let ghost cells = pieces::texts(row@);
        assert(all[index as int] == cells);
        let mut column: usize = 0;
        assert(before + row_parts(cells, 0) =~= before);
        while column < row.len()
            invariant
                column <= row@.len(),
                cells == pieces::texts(row@),
                pieces::texts(parts@) == before + row_parts(cells, column as int),
            decreases row@.len() - column,
        {
            let part = metric_text(row[column].as_str());
            proof {
                pieces::lemma_texts_push(parts@, part);
                assert((before + row_parts(cells, column as int)).push(part@) =~= before
                    + row_parts(cells, column + 1));
            }
            parts.push(part);
            column += 1;
        }
        index += 1;
    }
    parts
}

proof fn lemma_row_parts(row: Seq<Seq<char>>, end: int, column: int)
    requires
        0 <= column < end <= row.len(),
    ensures
        row_parts(row, end).contains(metric_part(row[column])),
    decreases end,
{
    let before = row_parts(row, end - 1);
    let all = row_parts(row, end);
    if column < end - 1 {
        lemma_row_parts(row, end - 1, column);
        let place = choose|place: int|
            0 <= place < before.len() && before[place] == metric_part(row[column]);
        assert(all[place] == metric_part(row[column]));
    } else {
        assert(all[all.len() - 1] == metric_part(row[column]));
    }
}

proof fn lemma_rows_parts(rows: Seq<Seq<Seq<char>>>, end: int, index: int, part: Seq<char>)
    requires
        0 <= index < end <= rows.len(),
        row_parts(rows[index], rows[index].len() as int).contains(part),
    ensures
        rows_parts(rows, end).contains(part),
    decreases end,
{
    let before = rows_parts(rows, end - 1);
    let last = row_parts(rows[end - 1], rows[end - 1].len() as int);
    let all = rows_parts(rows, end);
    if index < end - 1 {
        lemma_rows_parts(rows, end - 1, index, part);
        let place = choose|place: int| 0 <= place < before.len() && before[place] == part;
        assert(all[place] == part);
    } else {
        let place = choose|place: int| 0 <= place < last.len() && last[place] == part;
        assert(all[before.len() + place] == part);
    }
}

proof fn lemma_metrics_agree(
    headers: Seq<Seq<char>>,
    rows: Seq<Seq<Seq<char>>>,
    row: int,
    column: int,
    left: ReadingsView,
    right: ReadingsView,
    end: int,
)
    requires
        0 <= row < rows.len(),
        number::agree(left, right, rows_parts(rows, rows.len() as int)),
    ensures
        metrics_of(headers, rows[row], column, left, end) == metrics_of(
            headers,
            rows[row],
            column,
            right,
            end,
        ),
    decreases end,
{
    if end > 0 {
        lemma_metrics_agree(headers, rows, row, column, left, right, end - 1);
        let cells = rows[row];
        if end - 1 < cells.len() {
            let part = metric_part(cells[end - 1]);
            lemma_row_parts(cells, cells.len() as int, end - 1);
            lemma_rows_parts(rows, rows.len() as int, row, part);
        }
    }
}

proof fn lemma_last_row(
    rows: Seq<Seq<Seq<char>>>,
    column: int,
    name: Seq<char>,
    exact: bool,
    end: int,
)
    ensures
        last_row(rows, column, name, exact, end) matches Some(row) ==> 0 <= row < end,
    decreases end,
{
    if end > 0 {
        lemma_last_row(rows, column, name, exact, end - 1);
    }
}

proof fn lemma_selection_agrees(
    headers: Seq<Seq<char>>,
    rows: Seq<Seq<Seq<char>>>,
    column: int,
    wanted: Seq<Seq<char>>,
    exact: bool,
    left: ReadingsView,
    right: ReadingsView,
    end: int,
)
    requires
        number::agree(left, right, rows_parts(rows, rows.len() as int)),
    ensures
        selection(headers, rows, column, wanted, exact, left, end) == selection(
            headers,
            rows,
            column,
            wanted,
            exact,
            right,
            end,
        ),
    decreases end,
{
    if end > 0 {
        lemma_selection_agrees(headers, rows, column, wanted, exact, left, right, end - 1);
        lemma_last_row(rows, column, wanted[end - 1], exact, rows.len() as int);
        if let Some(row) = last_row(rows, column, wanted[end - 1], exact, rows.len() as int) {
            lemma_metrics_agree(headers, rows, row, column, left, right, headers.len() as int);
        }
    }
}

/// What the metrics of a table are depends on the readings of the texts in it that are read as
/// numbers, and on no other reading.
pub proof fn other_readings_do_not_matter(
    table: Option<TableView>,
    names: Seq<Seq<char>>,
    left: ReadingsView,
    right: ReadingsView,
)
    requires
        number::agree(left, right, table_parts(table)),
    ensures
        table_metrics(table, names, left) == table_metrics(table, names, right),
{
    if let Some(table) = table {
        if let (Some(column), Some(rows)) = (first_head(table.headers, 0), table.rows) {
            let wanted = requested(rows, column, names);
            lemma_selection_agrees(
                table.headers,
                rows,
                column,
                wanted,
                names.len() == 0,
                left,
                right,
                wanted.len() as int,
            );
        }
    }
}

} // verus!
