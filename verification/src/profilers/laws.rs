//! What holds of the metrics in the profiler's table.
use crate::fields;
use crate::json;
use crate::json::{FieldView, JsonView};
use crate::number;
use crate::number::{NumberView, ReadingsView};
use crate::numeral;
use crate::outside;
use crate::outside::TableView;
use crate::profilers::ncu;
use crate::profilers::ncu::Selected;
use crate::profilers::rules;
use crate::profilers::rules::EntryView;
use crate::profilers::sass as listings;
use crate::ranking;
use crate::text;
use crate::text::{lemma_surrounds, surrounds};
use vstd::prelude::*;

verus! {

proof fn lemma_last(rows: Seq<Seq<Seq<char>>>, column: int, name: Seq<char>, end: int)
    requires
        0 <= end <= rows.len(),
    ensures
        match ncu::last_row(rows, column, name, false, end) {
            Some(row) => 0 <= row < end && surrounds(ncu::kernel_of(rows[row], column), name)
                && forall|i: int|
                row < i < end ==> !surrounds(#[trigger] ncu::kernel_of(rows[i], column), name),
            None => forall|i: int|
                0 <= i < end ==> !surrounds(#[trigger] ncu::kernel_of(rows[i], column), name),
        },
        match ncu::last_row(rows, column, name, true, end) {
            Some(row) => 0 <= row < end && ncu::kernel_of(rows[row], column) == name && forall|i: int|
                row < i < end ==> (#[trigger] ncu::kernel_of(rows[i], column)) != name,
            None => forall|i: int|
                0 <= i < end ==> (#[trigger] ncu::kernel_of(rows[i], column)) != name,
        },
    decreases end,
{
    if end > 0 {
        lemma_last(rows, column, name, end - 1);
        lemma_surrounds(ncu::kernel_of(rows[end - 1], column), name);
    }
}

/// A kernel that is asked for by a part of its name is found wherever that part stands in the
/// name, and the row that is found is the last one in whose name it stands.
pub proof fn kernels_are_found_by_a_part_of_their_name(
    rows: Seq<Seq<Seq<char>>>,
    column: int,
    name: Seq<char>,
    at: int,
    before: Seq<char>,
    after: Seq<char>,
)
    requires
        0 <= at < rows.len(),
        0 <= column < rows[at].len(),
        !ncu::missing(rows[at][column]),
        rows[at][column] == before + name + after,
    ensures
        ncu::last_row(rows, column, name, false, rows.len() as int) is Some,
        ({
            let row = ncu::last_row(rows, column, name, false, rows.len() as int)->Some_0;
            &&& at <= row < rows.len()
            &&& surrounds(ncu::kernel_of(rows[row], column), name)
            &&& forall|i: int|
                row < i < rows.len() ==> !surrounds(
                    #[trigger] ncu::kernel_of(rows[i], column),
                    name,
                )
        }),
{
    lemma_last(rows, column, name, rows.len() as int);
    assert(ncu::kernel_of(rows[at], column) == before + name + after);
    assert(surrounds(ncu::kernel_of(rows[at], column), name));
}

/// A kernel that is looked for by its whole name is found in the last row with exactly that name.
pub proof fn kernels_are_found_by_their_name(
    rows: Seq<Seq<Seq<char>>>,
    column: int,
    name: Seq<char>,
    at: int,
)
    requires
        0 <= at < rows.len(),
        ncu::kernel_of(rows[at], column) == name,
    ensures
        ncu::last_row(rows, column, name, true, rows.len() as int) is Some,
        ({
            let row = ncu::last_row(rows, column, name, true, rows.len() as int)->Some_0;
            &&& at <= row < rows.len()
            &&& ncu::kernel_of(rows[row], column) == name
            &&& forall|i: int|
                row < i < rows.len() ==> (#[trigger] ncu::kernel_of(rows[i], column)) != name
        }),
{
    lemma_last(rows, column, name, rows.len() as int);
}

/// The texts that say that a cell is empty.
pub open spec fn blanks() -> Seq<Seq<char>> {
    seq![
        ""@,
        "NaN"@,
        "nan"@,
        "NA"@,
        "N/A"@,
        "NULL"@,
        "null"@,
        "None"@,
        "#N/A"@,
        "#NA"@,
        "<NA>"@,
        "-NaN"@,
        "-nan"@,
        "#N/A N/A"@,
        "n/a"@,
        "-1.#IND"@,
        "1.#IND"@,
        "-1.#QNAN"@,
        "1.#QNAN"@,
    ]
}

/// A row is about the kernel that its cell names; a cell that is blank or not there names none.
pub proof fn rows_name_their_kernel(row: Seq<Seq<char>>, column: int)
    ensures
        ({
            let named = 0 <= column < row.len() && !blanks().contains(row[column]);
            ncu::kernel_of(row, column) == (if named {
                row[column]
            } else {
                "nan"@
            })
        }),
        0 <= column < row.len() ==> (ncu::missing(row[column]) <==> blanks().contains(row[column])),
{
    let all = blanks();
    assert(all[0] == ""@);
    assert(all[1] == "NaN"@);
    assert(all[2] == "nan"@);
    assert(all[3] == "NA"@);
    assert(all[4] == "N/A"@);
    assert(all[5] == "NULL"@);
    assert(all[6] == "null"@);
    assert(all[7] == "None"@);
    assert(all[8] == "#N/A"@);
    assert(all[9] == "#NA"@);
    assert(all[10] == "<NA>"@);
    assert(all[11] == "-NaN"@);
    assert(all[12] == "-nan"@);
    assert(all[13] == "#N/A N/A"@);
    assert(all[14] == "n/a"@);
    assert(all[15] == "-1.#IND"@);
    assert(all[16] == "1.#IND"@);
    assert(all[17] == "-1.#QNAN"@);
    assert(all[18] == "1.#QNAN"@);
}

/// Whether a column's header stands in no later column with metrics.
pub open spec fn stands_last(headers: Seq<Seq<char>>, column: int, at: int, end: int) -> bool {
    &&& 0 <= at < end
    &&& at != column
    &&& forall|i: int| at < i < end && i != column ==> (#[trigger] headers[i]) != headers[at]
}

/// What the metrics of a row are: every column but the kernel's has a value, and each header gives
/// the value of the last column under it.
pub proof fn rows_give_their_metrics(
    headers: Seq<Seq<char>>,
    row: Seq<Seq<char>>,
    column: int,
    readings: ReadingsView,
    end: int,
)
    requires
        0 <= end <= headers.len(),
    ensures
        match ncu::metrics_of(headers, row, column, readings, end) {
            Ok(list) => {
                &&& forall|i: int|
                    0 <= i < end && i != column ==> i < row.len() && !ncu::missing(
                        #[trigger] row[i],
                    ) && ncu::metric_value(row[i], readings) is Some
                &&& forall|i: int| #[trigger]
                    stands_last(headers, column, i, end) ==> json::field(list, headers[i]) == Some(
                        ncu::metric_value(row[i], readings)->Some_0,
                    )
            },
            Err(reason) => exists|i: int|
                0 <= i < end && i != column && reason == "nonfinite NCU metric "@ + (
                #[trigger] headers[i]) && (i >= row.len() || ncu::missing(row[i])
                    || ncu::metric_value(row[i], readings) is None),
        },
    decreases end,
{
    if end > 0 {
        rows_give_their_metrics(headers, row, column, readings, end - 1);
        let at = end - 1;
        match ncu::metrics_of(headers, row, column, readings, end - 1) {
            Err(reason) => {
                let i = choose|i: int|
                    0 <= i < at && i != column && reason == "nonfinite NCU metric "@ + (
                    #[trigger] headers[i]) && (i >= row.len() || ncu::missing(row[i])
                        || ncu::metric_value(row[i], readings) is None);
                assert(reason == "nonfinite NCU metric "@ + headers[i]);
            },
            Ok(before) => {
                if at == column {
                    assert forall|i: int| #[trigger]
                        stands_last(headers, column, i, end) implies stands_last(
                        headers,
                        column,
                        i,
                        at,
                    ) by {}
                } else {
                    assert("nonfinite NCU metric "@ + headers[at] == "nonfinite NCU metric "@
                        + headers[at]);
                    assert(at >= row.len() ==> ncu::missing(ncu::cell(row, at)));
                    if let Ok(list) = ncu::metrics_of(headers, row, column, readings, end) {
                        let read = ncu::metric_value(row[at], readings)->Some_0;
                        assert forall|i: int| #[trigger]
                            stands_last(headers, column, i, end) implies json::field(
                            list,
                            headers[i],
                        ) == Some(ncu::metric_value(row[i], readings)->Some_0) by {
                            json::lemma_with_field(before, headers[at], read, headers[i]);
                            if i < at {
                                assert(headers[at] != headers[i]);
                                assert(stands_last(headers, column, i, at));
                            }
                        }
                    }
                }
            },
        }
    }
}

/// A cell that writes an integer has that integer, one that writes another number has its reading,
/// any other cell has its text; commas, percent signs and white space around do not count.
pub proof fn cells_are_read(value: Seq<char>, readings: ReadingsView)
    ensures
        ({
            let part = ncu::metric_part(value);
            match (numeral::integer_of(part), ncu::metric_value(value, readings)) {
                (Some(whole), Some(JsonView::Number(NumberView::Integer(held, _)))) => held == whole,
                (Some(_), _) => false,
                (None, Some(JsonView::Number(NumberView::Decimal(reading)))) => number::read_from(
                    readings,
                    part,
                ) == Some(Some(reading)),
                (None, Some(JsonView::Text(held))) => held == part && number::read_from(
                    readings,
                    part,
                ) is None,
                (None, None) => number::read_from(readings, part) == Some(
                    None::<crate::number::ReadingView>,
                ),
                _ => false,
            }
        }),
{
}

proof fn lemma_by_name(selected: Seq<Selected>, end: int, name: Seq<char>)
    requires
        0 <= end <= selected.len(),
    ensures
        match json::field(ncu::by_name(selected, end), name) {
            Some(value) => exists|i: int|
                0 <= i < end && (#[trigger] selected[i]).0 == name && value == JsonView::Object(
                    selected[i].1,
                ),
            None => forall|i: int| 0 <= i < end ==> (#[trigger] selected[i]).0 != name,
        },
    decreases end,
{
    if end > 0 {
        lemma_by_name(selected, end - 1, name);
        let last = selected[end - 1];
        json::lemma_with_field(
            ncu::by_name(selected, end - 1),
            last.0,
            JsonView::Object(last.1),
            name,
        );
        if last.0 != name {
            if let Some(value) = json::field(ncu::by_name(selected, end - 1), name) {
                let i = choose|i: int|
                    0 <= i < end - 1 && (#[trigger] selected[i]).0 == name && value
                        == JsonView::Object(selected[i].1);
                assert(selected[i].0 == name);
            }
        } else {
            assert(selected[end - 1].0 == name);
        }
    } else {
        json::lemma_place(Seq::empty(), name);
    }
}

/// The metrics of the row that a kernel is found in.
pub open spec fn row_metrics(
    headers: Seq<Seq<char>>,
    rows: Seq<Seq<Seq<char>>>,
    column: int,
    name: Seq<char>,
    exact: bool,
    readings: ReadingsView,
) -> Option<Result<Seq<FieldView>, Seq<char>>> {
    match ncu::last_row(rows, column, name, exact, rows.len() as int) {
        Some(row) => Some(
            ncu::metrics_of(headers, rows[row], column, readings, headers.len() as int),
        ),
        None => None,
    }
}

proof fn lemma_selection(
    headers: Seq<Seq<char>>,
    rows: Seq<Seq<Seq<char>>>,
    column: int,
    wanted: Seq<Seq<char>>,
    exact: bool,
    readings: ReadingsView,
    end: int,
)
    requires
        0 <= end <= wanted.len(),
    ensures
        ncu::selection(headers, rows, column, wanted, exact, readings, end) matches Ok(selected) ==> {
            &&& forall|k: int|
                0 <= k < selected.len() ==> row_metrics(
                    headers,
                    rows,
                    column,
                    (#[trigger] selected[k]).0,
                    exact,
                    readings,
                ) == Some(Ok::<Seq<FieldView>, Seq<char>>(selected[k].1))
            &&& forall|k: int|
                0 <= k < selected.len() ==> exists|i: int|
                    0 <= i < end && (#[trigger] selected[k]).0 == #[trigger] wanted[i]
            &&& forall|i: int|
                0 <= i < end && row_metrics(
                    headers,
                    rows,
                    column,
                    #[trigger] wanted[i],
                    exact,
                    readings,
                ) is Some ==> exists|k: int|
                    0 <= k < selected.len() && (#[trigger] selected[k]).0 == wanted[i]
        },
    decreases end,
{
    if end > 0 {
        lemma_selection(headers, rows, column, wanted, exact, readings, end - 1);
        if let Ok(before) = ncu::selection(headers, rows, column, wanted, exact, readings, end - 1) {
            if let Ok(selected) = ncu::selection(
                headers,
                rows,
                column,
                wanted,
                exact,
                readings,
                end,
            ) {
                let here = row_metrics(headers, rows, column, wanted[end - 1], exact, readings);
                assert forall|k: int| 0 <= k < selected.len() implies exists|i: int|
                    0 <= i < end && (#[trigger] selected[k]).0 == #[trigger] wanted[i] by {
                    if k < before.len() {
                        assert(selected[k] == before[k]);
                        let i = choose|i: int|
                            0 <= i < end - 1 && before[k].0 == #[trigger] wanted[i];
                        assert(selected[k].0 == wanted[i]);
                    } else {
                        assert(selected[k].0 == wanted[end - 1]);
                    }
                }
                assert forall|k: int| 0 <= k < selected.len() implies row_metrics(
                    headers,
                    rows,
                    column,
                    (#[trigger] selected[k]).0,
                    exact,
                    readings,
                ) == Some(Ok::<Seq<FieldView>, Seq<char>>(selected[k].1)) by {
                    if k < before.len() {
                        assert(selected[k] == before[k]);
                    }
                }
                assert forall|i: int|
                    0 <= i < end && row_metrics(
                        headers,
                        rows,
                        column,
                        #[trigger] wanted[i],
                        exact,
                        readings,
                    ) is Some implies exists|k: int|
                    0 <= k < selected.len() && (#[trigger] selected[k]).0 == wanted[i] by {
                    if i < end - 1 {
                        let k = choose|k: int|
                            0 <= k < before.len() && (#[trigger] before[k]).0 == wanted[i];
                        assert(selected[k] == before[k]);
                    } else {
                        assert(selected[before.len() as int].0 == wanted[i]);
                    }
                }
            }
        }
    }
}

/// Whether a table has a column that names kernels, which comes before every other such column,
/// and no row is longer than the headers.
pub open spec fn is_sound(table: TableView, column: int) -> bool {
    &&& 0 <= column < table.headers.len()
    &&& table.headers[column] == "Kernel Name"@
    &&& forall|i: int| 0 <= i < column ==> (#[trigger] table.headers[i]) != "Kernel Name"@
    &&& table.rows matches Some(rows) && forall|i: int|
        0 <= i < rows.len() ==> (#[trigger] rows[i]).len() <= table.headers.len()
}

proof fn lemma_first_head(headers: Seq<Seq<char>>, column: int, from: int)
    requires
        0 <= from <= column < headers.len(),
        headers[column] == "Kernel Name"@,
        forall|i: int| 0 <= i < column ==> (#[trigger] headers[i]) != "Kernel Name"@,
    ensures
        ncu::first_head(headers, from) == Some(column),
    decreases column - from,
{
    if from < column {
        lemma_first_head(headers, column, from + 1);
    }
}

/// The report on kernels that are named has, for each name that stands in the name of some row's
/// kernel, the metrics of the last such row, and nothing else.
pub proof fn named_kernels_are_reported(
    table: TableView,
    column: int,
    names: Seq<Seq<char>>,
    readings: ReadingsView,
    name: Seq<char>,
)
    requires
        is_sound(table, column),
        names.len() > 0,
        ncu::table_metrics(Some(table), names, readings) is Ok,
    ensures
        ({
            let rows = table.rows->Some_0;
            let report = ncu::table_metrics(Some(table), names, readings)->Ok_0;
            let known = names.contains(name) && exists|i: int|
                0 <= i < rows.len() && surrounds(#[trigger] ncu::kernel_of(rows[i], column), name);
            &&& report is Object
            &&& report.get(name) is Some <==> known
            &&& forall|i: int|
                names.contains(name) && 0 <= i < rows.len() && surrounds(
                    #[trigger] ncu::kernel_of(rows[i], column),
                    name,
                ) && (forall|j: int|
                    i < j < rows.len() ==> !surrounds(
                        #[trigger] ncu::kernel_of(rows[j], column),
                        name,
                    )) ==> report.get(name) == Some(
                    JsonView::Object(
                        ncu::metrics_of(
                            table.headers,
                            rows[i],
                            column,
                            readings,
                            table.headers.len() as int,
                        )->Ok_0,
                    ),
                )
        }),
{
    let rows = table.rows->Some_0;
    lemma_first_head(table.headers, column, 0);
    lemma_selection(table.headers, rows, column, names, false, readings, names.len() as int);
    let selected = ncu::selection(
        table.headers,
        rows,
        column,
        names,
        false,
        readings,
        names.len() as int,
    )->Ok_0;
    let report = ncu::table_metrics(Some(table), names, readings)->Ok_0;
    lemma_by_name(selected, selected.len() as int, name);
    lemma_last(rows, column, name, rows.len() as int);
    if let Some(value) = report.get(name) {
        let k = choose|k: int|
            0 <= k < selected.len() && (#[trigger] selected[k]).0 == name && value
                == JsonView::Object(selected[k].1);
        let i = choose|i: int| 0 <= i < names.len() && selected[k].0 == #[trigger] names[i];
        assert(names[i] == name);
        assert(row_metrics(table.headers, rows, column, selected[k].0, false, readings) is Some);
    } else if names.contains(name) {
        let i = choose|i: int| 0 <= i < names.len() && names[i] == name;
        if row_metrics(table.headers, rows, column, names[i], false, readings) is Some {
            let k = choose|k: int| 0 <= k < selected.len() && (#[trigger] selected[k]).0 == names[i];
            assert(selected[k].0 == name);
        }
    }
}

/// How long a kernel took: the place of its duration, that of zero where it is not known.
pub open spec fn took(kernel: Selected) -> int {
    match JsonView::Object(kernel.1).at("gpu__time_duration.sum"@).reading() {
        Some(reading) => reading.place(),
        None => 0,
    }
}

/// Of all kernels the five that took longest are reported on, the longest first: none that is left
/// out took longer than one that is reported on.
pub proof fn the_longest_kernels_are_reported(selected: Seq<Selected>)
    requires
        selected.len() <= usize::MAX,
    ensures
        ({
            let shown = ncu::longest(selected);
            &&& shown.len() == (if selected.len() < 5 {
                selected.len()
            } else {
                5
            })
            &&& forall|i: int| 0 <= i < shown.len() ==> selected.contains(#[trigger] shown[i])
            &&& forall|i: int, j: int|
                0 <= i < j < shown.len() ==> took(#[trigger] shown[i]) >= took(#[trigger] shown[j])
            &&& forall|k: int, i: int|
                0 <= k < selected.len() && 0 <= i < shown.len() && !shown.contains(
                    #[trigger] selected[k],
                ) ==> took(#[trigger] shown[i]) >= took(selected[k])
        }),
{
    let keys = ncu::durations(selected);
    let ranks = ranking::ranked(keys, selected.len());
    let sorted = ranking::arranged(selected, ranks);
    let shown = ncu::longest(selected);
    ranking::ranking_is_stable(keys, selected.len());
    assert forall|i: int| 0 <= i < selected.len() implies took(#[trigger] selected[i]) == keys[i] by {}
    assert forall|i: int| 0 <= i < shown.len() implies shown[i] == selected[ranks[i] as int]
        && ranks[i] < selected.len() by {}
    assert forall|i: int, j: int| 0 <= i < j < ranks.len() implies took(
        selected[(#[trigger] ranks[i]) as int],
    ) >= took(selected[(#[trigger] ranks[j]) as int]) by {}
    assert forall|k: int, i: int|
        0 <= k < selected.len() && 0 <= i < shown.len() && !shown.contains(
            #[trigger] selected[k],
        ) implies took(#[trigger] shown[i]) >= took(selected[k]) by {
        ranking::every_key_is_ranked(keys, selected.len(), k as usize);
        let p = choose|p: int| 0 <= p < ranks.len() && ranks[p] == k;
        if p < shown.len() {
            assert(shown[p] == selected[k]);
        }
        assert(i < p);
        assert(took(selected[ranks[i] as int]) >= took(selected[ranks[p] as int]));
    }
}

proof fn lemma_kernels(rows: Seq<Seq<Seq<char>>>, column: int, end: int, name: Seq<char>)
    requires
        0 <= end <= rows.len(),
    ensures
        ncu::kernels(rows, column, end).contains(name) <==> exists|i: int|
            0 <= i < end && #[trigger] ncu::kernel_of(rows[i], column) == name,
    decreases end,
{
    if end > 0 {
        lemma_kernels(rows, column, end - 1, name);
        let before = ncu::kernels(rows, column, end - 1);
        let here = ncu::kernel_of(rows[end - 1], column);
        let all = ncu::kernels(rows, column, end);
        if before.contains(name) {
            let k = choose|k: int| 0 <= k < before.len() && before[k] == name;
            assert(all[k] == name);
        }
        if here == name && !before.contains(here) {
            assert(all[before.len() as int] == name);
        }
        if all.contains(name) && here != name {
            let k = choose|k: int| 0 <= k < all.len() && all[k] == name;
            assert(before[k] == name);
        }
    }
}

proof fn lemma_telling(names: Seq<Seq<char>>, end: int, name: Seq<char>)
    requires
        0 <= end <= names.len(),
    ensures
        ncu::telling(names, end).contains(name) <==> name != "nan"@ && text::trimmed(name).len() > 0
            && names.take(end).contains(name),
    decreases end,
{
    if end > 0 {
        lemma_telling(names, end - 1, name);
        let before = ncu::telling(names, end - 1);
        let all = ncu::telling(names, end);
        let here = names[end - 1];
        let short = names.take(end - 1);
        let long = names.take(end);
        assert(long[end - 1] == here);
        if before.contains(name) {
            let k = choose|k: int| 0 <= k < before.len() && before[k] == name;
            assert(all[k] == name);
        }
        if short.contains(name) {
            let k = choose|k: int| 0 <= k < end - 1 && short[k] == name;
            assert(long[k] == name);
        }
        if long.contains(name) {
            let k = choose|k: int| 0 <= k < end && long[k] == name;
            if k < end - 1 {
                assert(short[k] == name);
            }
        }
        if here == name && name != "nan"@ && text::trimmed(name).len() > 0 {
            assert(all[before.len() as int] == name);
        }
        if all.contains(name) {
            let k = choose|k: int| 0 <= k < all.len() && all[k] == name;
            if k < before.len() {
                assert(before[k] == name);
            }
        }
    }
}

/// Where no kernel is named, those are looked at that some row is about and that have a name.
pub proof fn all_kernels_are_looked_at(rows: Seq<Seq<Seq<char>>>, column: int, name: Seq<char>)
    ensures
        ncu::requested(rows, column, Seq::empty()).contains(name) <==> {
            &&& name != "nan"@
            &&& text::trimmed(name).len() > 0
            &&& exists|i: int|
                0 <= i < rows.len() && #[trigger] ncu::kernel_of(rows[i], column) == name
        },
{
    let found = ncu::kernels(rows, column, rows.len() as int);
    lemma_kernels(rows, column, rows.len() as int, name);
    lemma_telling(found, found.len() as int, name);
    assert(found.take(found.len() as int) =~= found);
}

/// A table without a column that names kernels, one that cannot be read and one with a row that is
/// longer than the headers give an empty report.
pub proof fn unsound_tables_are_not_reported_on(
    table: Option<TableView>,
    names: Seq<Seq<char>>,
    readings: ReadingsView,
)
    requires
        match table {
            None => true,
            Some(table) => table.rows is None || (forall|i: int|
                0 <= i < table.headers.len() ==> (#[trigger] table.headers[i]) != "Kernel Name"@) || (
            exists|i: int|
                0 <= i < table.rows->Some_0.len() && (#[trigger] table.rows->Some_0[i]).len()
                    > table.headers.len()),
        },
    ensures
        ncu::table_metrics(table, names, readings) == Ok::<JsonView, Seq<char>>(
            JsonView::Object(Seq::empty()),
        ),
{
    if let Some(table) = table {
        if forall|i: int|
            0 <= i < table.headers.len() ==> (#[trigger] table.headers[i]) != "Kernel Name"@ {
            lemma_no_head(table.headers, 0);
        }
    }
}

proof fn lemma_no_head(headers: Seq<Seq<char>>, from: int)
    requires
        0 <= from,
        forall|i: int| 0 <= i < headers.len() ==> (#[trigger] headers[i]) != "Kernel Name"@,
    ensures
        ncu::first_head(headers, from) is None,
    decreases headers.len() - from,
{
    if from < headers.len() {
        lemma_no_head(headers, from + 1);
    }
}

/// Whether a trimmed line ends a recommendation: it is empty, begins another section or another
/// recommendation, or has an estimate.
pub open spec fn closes(line: Seq<char>, starts: bool) -> bool {
    ||| line.len() == 0
    ||| starts
    ||| exists|rest: Seq<char>| line == #[trigger] ("OPT"@ + rest)
    ||| exists|rest: Seq<char>| line == #[trigger] ("Section:"@ + rest)
    ||| exists|rest: Seq<char>| line == #[trigger] ("----"@ + rest)
}

proof fn lemma_begins(line: Seq<char>, part: Seq<char>)
    ensures
        text::begins_with(line, part) <==> exists|rest: Seq<char>| line == #[trigger] (part + rest),
{
    text::texts_hold_their_parts(Seq::empty(), part, Seq::empty(), line);
    if exists|rest: Seq<char>| line == #[trigger] (part + rest) {
        let rest = choose|rest: Seq<char>| line == #[trigger] (part + rest);
        text::texts_hold_their_parts(Seq::empty(), part, rest, line);
    }
}

proof fn lemma_ends(line: Seq<char>, starts: bool)
    ensures
        rules::ends(line, starts) <==> closes(line, starts),
{
    lemma_begins(line, "OPT"@);
    lemma_begins(line, "Section:"@);
    lemma_begins(line, "----"@);
}

proof fn lemma_body(lines: Seq<Seq<char>>, starts: Seq<bool>, from: int)
    requires
        0 <= from <= lines.len(),
    ensures
        ({
            let end = rules::body_end(lines, starts, from);
            &&& from <= end <= lines.len()
            &&& forall|i: int|
                from <= i < end ==> !closes(#[trigger] text::trimmed(lines[i]), starts[i])
            &&& end < lines.len() ==> closes(text::trimmed(lines[end]), starts[end])
        }),
    decreases lines.len() - from,
{
    if from < lines.len() {
        lemma_ends(text::trimmed(lines[from]), starts[from]);
        if !rules::ends(text::trimmed(lines[from]), starts[from]) {
            lemma_body(lines, starts, from + 1);
        }
    }
}

/// A recommendation begins at a line with an estimate and goes on up to a line that closes it: its
/// percentage is what the estimate shows, its text the lines between, trimmed and joined by spaces;
/// lines without an estimate are passed over, and one with nothing behind it leaves no
/// recommendation.
pub proof fn recommendations_follow_estimates(
    lines: Seq<Seq<char>>,
    estimates: Seq<Option<Seq<char>>>,
    starts: Seq<bool>,
    readings: ReadingsView,
    from: int,
) -> (end: int)
    requires
        0 <= from < lines.len(),
    ensures
        ({
            let all = rules::entries_from(lines, estimates, starts, readings, from);
            match estimates[from] {
                None => all == rules::entries_from(lines, estimates, starts, readings, from + 1),
                Some(estimate) => {
                    let rest = rules::entries_from(lines, estimates, starts, readings, end);
                    &&& from < end <= lines.len()
                    &&& forall|i: int|
                        from < i < end ==> !closes(#[trigger] text::trimmed(lines[i]), starts[i])
                    &&& end < lines.len() ==> closes(text::trimmed(lines[end]), starts[end])
                    &&& match number::read_from(readings, estimate) {
                        None => all is Err,
                        Some(percentage) => match rest {
                            Err(reason) => all == Err::<Seq<EntryView>, Seq<char>>(reason),
                            Ok(rest) => if end == from + 1 {
                                all == Ok::<Seq<EntryView>, Seq<char>>(rest)
                            } else {
                                &&& all is Ok
                                &&& all->Ok_0.len() == rest.len() + 1
                                &&& all->Ok_0[0].percentage == percentage
                                &&& all->Ok_0[0].text == crate::pieces::joined(
                                    Seq::new(
                                        (end - from - 1) as nat,
                                        |i: int| text::trimmed(lines[from + 1 + i]),
                                    ),
                                    " "@,
                                )
                                &&& all->Ok_0.skip(1) == rest
                            },
                        },
                    }
                },
            }
        }),
{
    let end = rules::body_end(lines, starts, from + 1);
    lemma_body(lines, starts, from + 1);
    if let Some(estimate) = estimates[from] {
        if let Some(percentage) = number::read_from(readings, estimate) {
            if let Ok(rest) = rules::entries_from(lines, estimates, starts, readings, end) {
                let first = EntryView {
                    percentage,
                    text: crate::pieces::joined(rules::body(lines, from + 1, end), " "@),
                };
                assert((seq![first] + rest).skip(1) =~= rest);
                assert(rules::body(lines, from + 1, end) =~= Seq::new(
                    (end - from - 1) as nat,
                    |i: int| text::trimmed(lines[from + 1 + i]),
                ));
            }
        }
    }
    end
}

/// How high an estimate is: beyond every finite one where it is beyond all numbers.
pub open spec fn promises(percentage: Option<crate::number::ReadingView>) -> int {
    match percentage {
        Some(percentage) => percentage.place(),
        None => 2int * 0x7ff0_0000_0000_0000int,
    }
}

/// Recommendations are recorded with their percentage and their text, all of them, the highest
/// estimate first.
pub proof fn recommendations_are_ranked(entries: Seq<EntryView>) -> (order: Seq<usize>)
    requires
        entries.len() <= usize::MAX,
    ensures
        order.len() == entries.len(),
        forall|i: int| 0 <= i < order.len() ==> (#[trigger] order[i]) < entries.len(),
        forall|k: int| 0 <= k < entries.len() ==> order.contains(#[trigger] (k as usize)),
        forall|i: int, j: int|
            0 <= i < j < order.len() ==> promises(entries[(#[trigger] order[i]) as int].percentage)
                >= promises(entries[(#[trigger] order[j]) as int].percentage),
        rules::ranked_records(entries) matches JsonView::Array(list) && list.len() == entries.len()
            && forall|i: int|
            0 <= i < list.len() ==> {
                let entry = entries[order[i] as int];
                &&& (#[trigger] list[i]).at("text"@) == JsonView::Text(entry.text)
                &&& list[i].at("est_speedup_pct"@) == (match entry.percentage {
                    Some(percentage) => JsonView::Number(NumberView::Decimal(percentage)),
                    None => JsonView::Null,
                })
            },
{
    let keys = rules::weights(entries);
    let order = ranking::ranked(keys, entries.len());
    ranking::ranking_is_stable(keys, entries.len());
    assert forall|i: int| 0 <= i < entries.len() implies promises(
        (#[trigger] entries[i]).percentage,
    ) == keys[i] by {}
    assert forall|i: int, j: int| 0 <= i < j < order.len() implies promises(
        entries[(#[trigger] order[i]) as int].percentage,
    ) >= promises(entries[(#[trigger] order[j]) as int].percentage) by {
        assert(keys[order[i] as int] >= keys[order[j] as int]);
    }
    assert forall|k: int| 0 <= k < entries.len() implies order.contains(#[trigger] (k as usize)) by {
        ranking::every_key_is_ranked(keys, entries.len(), k as usize);
    }
    let list = rules::ranked_records(entries)->Array_0;
    assert forall|i: int| 0 <= i < list.len() implies ({
        let entry = entries[order[i] as int];
        &&& (#[trigger] list[i]).at("text"@) == JsonView::Text(entry.text)
        &&& list[i].at("est_speedup_pct"@) == (match entry.percentage {
            Some(percentage) => JsonView::Number(NumberView::Decimal(percentage)),
            None => JsonView::Null,
        })
    }) by {
        let entry = entries[order[i] as int];
        let record = rules::entry_record(entry)->Object_0;
        reveal_strlit("est_speedup_pct");
        reveal_strlit("text");
        assert(record[0].0 == "est_speedup_pct"@);
        json::lemma_at(record, 0);
        assert(record[1].0 == "text"@);
        json::lemma_at(record, 1);
    }
    order
}

/// The part of a listing that belongs to a kernel begins at the first heading with the kernel's name
/// and ends before the next heading; the whole listing counts where the kernel is not there.
pub proof fn listings_are_cut_to_a_kernel(source: Seq<char>, kernel: Seq<char>) -> (parts: (
    Seq<char>,
    Seq<char>,
))
    requires
        kernel.len() > 0,
    ensures
        ({
            let (part, name) = listings::excerpt(source, Some(kernel));
            let heading = ".text."@ + kernel;
            &&& !surrounds(source, heading) ==> part == source && name == ""@
            &&& surrounds(source, heading) ==> {
                &&& name == kernel
                &&& source == parts.0 + part + parts.1
                &&& exists|rest: Seq<char>| part == #[trigger] (heading + rest) && !surrounds(
                    rest,
                    ".text."@,
                )
                &&& parts.1.len() > 0 ==> exists|rest: Seq<char>|
                    parts.1 == #[trigger] (".text."@ + rest)
                &&& forall|i: int|
                    0 <= i < parts.0.len() ==> !text::stands_at(source, heading, i)
            }
        }),
        listings::excerpt(source, None) == (source, ""@),
        listings::excerpt(source, Some(Seq::empty())) == (source, ""@),
{
    let heading = ".text."@ + kernel;
    lemma_surrounds(source, heading);
    text::lemma_find_from(source, heading, 0);
    match text::find_from(source, heading, 0) {
        None => (Seq::empty(), Seq::empty()),
        Some(start) => {
            let after = start + heading.len();
            text::lemma_find_from(source, ".text."@, after as int);
            let end = match text::find_from(source, ".text."@, after as int) {
                Some(end) => end,
                None => source.len() as int,
            };
            let part = source.subrange(start, end);
            if let Some(place) = text::find_from(source, ".text."@, after as int) {
                assert(source.skip(place) =~= ".text."@ + source.skip(place + ".text."@.len()));
            }
            let rest = source.subrange(after as int, end);
            assert(source.subrange(start, start + heading.len() as int) =~= heading);
            assert(part =~= heading + rest);
            lemma_surrounds(rest, ".text."@);
            text::lemma_find_from(rest, ".text."@, 0);
            if let Some(place) = text::find_from(rest, ".text."@, 0) {
                let size = ".text."@.len() as int;
                assert(source.subrange(after + place, after + place + size) =~= rest.subrange(
                    place,
                    place + size,
                ));
                assert(text::stands_at(source, ".text."@, after + place));
                reveal_strlit(".text.");
                assert(size == 6);
                assert(after + place < end);
                assert(false);
            }
            assert(source =~= source.take(start) + part + source.skip(end));
            (source.take(start), source.skip(end))
        },
    }
}

proof fn lemma_with_counts(
    list: Seq<FieldView>,
    counts: Seq<(Seq<char>, nat)>,
    end: int,
    key: Seq<char>,
)
    requires
        0 <= end <= counts.len(),
    ensures
        (forall|i: int| 0 <= i < end ==> key != (#[trigger] counts[i]).0 + "_count"@) ==> json::field(
            listings::with_counts(list, counts, end),
            key,
        ) == json::field(list, key),
        forall|k: int|
            0 <= k < end && key == (#[trigger] counts[k]).0 + "_count"@ && (forall|i: int|
                k < i < end ==> key != (#[trigger] counts[i]).0 + "_count"@) ==> json::field(
                listings::with_counts(list, counts, end),
                key,
            ) == Some(fields::natural_view(counts[k].1)),
    decreases end,
{
    if end > 0 {
        lemma_with_counts(list, counts, end - 1, key);
        json::lemma_with_field(
            listings::with_counts(list, counts, end - 1),
            counts[end - 1].0 + "_count"@,
            fields::natural_view(counts[end - 1].1),
            key,
        );
    }
}

/// The record of a listing has the whole text, the kernel's name, and under each pattern's key how
/// often it occurs; that a library is linked is not seen from it.
pub proof fn listings_are_counted(
    source: Seq<char>,
    name: Seq<char>,
    counts: Seq<(Seq<char>, nat)>,
    at: int,
)
    requires
        0 <= at < counts.len(),
        forall|i: int, j: int|
            0 <= i < j < counts.len() ==> (#[trigger] counts[i]).0 != (#[trigger] counts[j]).0,
        forall|i: int|
            0 <= i < counts.len() ==> (#[trigger] counts[i]).0 + "_count"@ != "sass_text"@
                && counts[i].0 + "_count"@ != "kernel_name"@ && counts[i].0 + "_count"@
                != "uses_cublas"@ && counts[i].0 + "_count"@ != "cublas_symbols"@,
    ensures
        ({
            let record = listings::listing(source, name, counts);
            &&& record.at(counts[at].0 + "_count"@) == fields::natural_view(counts[at].1)
            &&& record.at("sass_text"@) == JsonView::Text(source)
            &&& record.at("kernel_name"@) == JsonView::Text(name)
            &&& record.at("uses_cublas"@) == JsonView::Bool(false)
            &&& record.at("cublas_symbols"@) == JsonView::Array(Seq::empty())
        }),
{
    let list = seq![
        ("sass_text"@, JsonView::Text(source)),
        ("kernel_name"@, JsonView::Text(name)),
        ("uses_cublas"@, JsonView::Bool(false)),
        ("cublas_symbols"@, JsonView::Array(Seq::empty())),
    ];
    let end = counts.len() as int;
    reveal_strlit("sass_text");
    reveal_strlit("kernel_name");
    reveal_strlit("uses_cublas");
    reveal_strlit("cublas_symbols");
    assert("kernel_name"@[0] != "uses_cublas"@[0]);
    assert(list[0].0 == "sass_text"@);
    json::lemma_at(list, 0);
    assert(list[1].0 == "kernel_name"@);
    json::lemma_at(list, 1);
    assert(list[2].0 == "uses_cublas"@);
    json::lemma_at(list, 2);
    assert(list[3].0 == "cublas_symbols"@);
    json::lemma_at(list, 3);
    lemma_with_counts(list, counts, end, "sass_text"@);
    lemma_with_counts(list, counts, end, "kernel_name"@);
    lemma_with_counts(list, counts, end, "uses_cublas"@);
    lemma_with_counts(list, counts, end, "cublas_symbols"@);
    lemma_with_counts(list, counts, end, counts[at].0 + "_count"@);
    assert forall|i: int| at < i < end implies counts[at].0 + "_count"@ != (
    #[trigger] counts[i]).0 + "_count"@ by {
        let left = counts[at].0 + "_count"@;
        let right = counts[i].0 + "_count"@;
        if left == right {
            assert(left.take(left.len() - "_count"@.len()) =~= counts[at].0);
            assert(right.take(right.len() - "_count"@.len()) =~= counts[i].0);
        }
    }
}

/// Whether a pattern's count is how often it is found in a text, large and small letters alike.
pub open spec fn is_count(pattern: FieldView, part: Seq<char>, count: (Seq<char>, nat)) -> bool {
    &&& count.0 == pattern.0
    &&& pattern.1 is Text
    &&& outside::regex_finds("(?i)"@ + pattern.1->Text_0, part) matches Ok(found)
    &&& found.len() == count.1
}

proof fn lemma_counts(patterns: Seq<FieldView>, part: Seq<char>, end: int)
    requires
        0 <= end <= patterns.len(),
    ensures
        listings::counts_of(patterns, part, end) matches Ok(counts) ==> counts.len() == end
            && forall|i: int|
            0 <= i < end ==> is_count(patterns[i], part, #[trigger] counts[i]),
    decreases end,
{
    if end > 0 {
        lemma_counts(patterns, part, end - 1);
    }
}

/// Each pattern is counted by how often it is found, large and small letters alike, in the part of
/// the listing that belongs to the kernel.
pub proof fn patterns_are_counted_in_the_kernel(
    assets: JsonView,
    source: Seq<char>,
    kernel: Option<Seq<char>>,
) -> (counts: Seq<(Seq<char>, nat)>)
    ensures
        listings::sass_record(assets, source, kernel) matches Ok(record) ==> {
            let patterns = assets.at("sass_patterns"@)->Object_0;
            let (part, name) = listings::excerpt(source, kernel);
            &&& assets.at("sass_patterns"@) is Object
            &&& counts.len() == patterns.len()
            &&& record == listings::listing(source, name, counts)
            &&& forall|i: int|
                0 <= i < patterns.len() ==> is_count(patterns[i], part, #[trigger] counts[i])
        },
{
    match assets.at("sass_patterns"@) {
        JsonView::Object(patterns) => {
            let part = listings::excerpt(source, kernel).0;
            lemma_counts(patterns, part, patterns.len() as int);
            match listings::counts_of(patterns, part, patterns.len() as int) {
                Ok(counts) => counts,
                Err(_) => Seq::empty(),
            }
        },
        _ => Seq::empty(),
    }
}

} // verus!
