//! The recommendations of the profiler's rules.
use crate::fields;
use crate::fields::Fields;
use crate::json;
use crate::json::{Json, JsonView};
use crate::number;
use crate::number::{Number, NumberView, Reading, ReadingView, Readings, ReadingsView, INFINITE};
use crate::outside;
use crate::outside::groups;
use crate::pieces;
use crate::pieces::{join, lines};
use crate::ranking;
use crate::ranking::rank;
use crate::text;
use crate::text::{starts_with, trim};
use vstd::prelude::*;

verus! {

/// A line with an estimate, the percentage in the first group.
pub open spec fn estimate_pattern() -> Seq<char> {
    "Est\\.\\s*(?:Local\\s*)?Speedup:\\s*([0-9]+(?:\\.[0-9]+)?)\\s*%"@
}

/// Whether a trimmed line ends a recommendation, where `starts` says whether it has an estimate.
pub open spec fn ends(line: Seq<char>, starts: bool) -> bool {
    line.len() == 0 || text::begins_with(line, "OPT"@) || text::begins_with(line, "Section:"@)
        || text::begins_with(line, "----"@) || starts
}

/// The first line from `from` on that ends a recommendation.
pub open spec fn body_end(lines: Seq<Seq<char>>, starts: Seq<bool>, from: int) -> int
    decreases lines.len() - from,
{
    if from >= lines.len() || ends(text::trimmed(lines[from]), starts[from]) {
        from
    } else {
        body_end(lines, starts, from + 1)
    }
}

/// The trimmed lines from `from` up to `end`.
pub open spec fn body(lines: Seq<Seq<char>>, from: int, end: int) -> Seq<Seq<char>> {
    Seq::new((end - from) as nat, |i: int| text::trimmed(lines[from + i]))
}

/// A recommendation: the estimated speedup, `None` beyond all numbers, and what it says.
pub struct Entry {
    pub percentage: Option<Reading>,
    pub text: String,
}

/// The model of an [`Entry`].
pub struct EntryView {
    pub percentage: Option<ReadingView>,
    pub text: Seq<char>,
}

impl View for Entry {
    type V = EntryView;

    open spec fn view(&self) -> EntryView {
        EntryView { percentage: number::optional_reading(self.percentage), text: self.text@ }
    }
}

/// The models of entries.
pub open spec fn entries_view(entries: Seq<Entry>) -> Seq<EntryView> {
    Seq::new(entries.len(), |i: int| entries[i]@)
}

/// The recommendations from the line `from` on, given the estimate that each line has and whether
/// each trimmed line has one: an estimate, and the lines after it up to one that ends it.
pub open spec fn entries_from(
    lines: Seq<Seq<char>>,
    estimates: Seq<Option<Seq<char>>>,
    starts: Seq<bool>,
    readings: ReadingsView,
    from: int,
) -> Result<Seq<EntryView>, Seq<char>>
    decreases lines.len() - from,
{
    if from < 0 || from >= lines.len() {
        Ok(Seq::empty())
    } else {
        match estimates[from] {
            None => entries_from(lines, estimates, starts, readings, from + 1),
            Some(estimate) => match number::read_from(readings, estimate) {
                None => Err("invalid float literal"@),
                Some(percentage) => {
                    let end = body_end(lines, starts, from + 1);
                    if end <= from || end > lines.len() {
                        Ok(Seq::empty())
                    } else {
                        match entries_from(lines, estimates, starts, readings, end) {
                            Err(reason) => Err(reason),
                            Ok(rest) => if end == from + 1 {
                                Ok(rest)
                            } else {
                                Ok(
                                    seq![
                                        EntryView {
                                            percentage,
                                            text: pieces::joined(body(lines, from + 1, end), " "@),
                                        },
                                    ] + rest,
                                )
                            },
                        }
                    }
                },
            },
        }
    }
}

/// By what an entry is ranked.
pub open spec fn weight(entry: EntryView) -> i128 {
    match entry.percentage {
        Some(percentage) => percentage.place() as i128,
        None => (2 * INFINITE) as i128,
    }
}

/// By what entries are ranked.
pub open spec fn weights(entries: Seq<EntryView>) -> Seq<i128> {
    Seq::new(entries.len(), |i: int| weight(entries[i]))
}

/// The record of an entry.
pub open spec fn entry_record(entry: EntryView) -> JsonView {
    JsonView::Object(
        seq![
            (
                "est_speedup_pct"@,
                match entry.percentage {
                    Some(percentage) => JsonView::Number(NumberView::Decimal(percentage)),
                    None => JsonView::Null,
                },
            ),
            ("text"@, JsonView::Text(entry.text)),
        ],
    )
}

/// The records of the entries, the highest estimate first.
pub open spec fn ranked_records(entries: Seq<EntryView>) -> JsonView {
    let sorted = ranking::arranged(entries, ranking::ranked(weights(entries), entries.len()));
    JsonView::Array(Seq::new(sorted.len(), |i: int| entry_record(sorted[i])))
}

/// What becomes of lines whose estimates are known.
pub open spec fn recommendations(
    lines: Seq<Seq<char>>,
    estimates: Seq<Option<Seq<char>>>,
    starts: Seq<bool>,
    readings: ReadingsView,
) -> Result<JsonView, Seq<char>> {
    match entries_from(lines, estimates, starts, readings, 0) {
        Ok(entries) => Ok(ranked_records(entries)),
        Err(reason) => Err(reason),
    }
}

proof fn lemma_body_end(lines: Seq<Seq<char>>, starts: Seq<bool>, from: int)
    requires
        from <= lines.len(),
    ensures
        from <= body_end(lines, starts, from) <= lines.len(),
    decreases lines.len() - from,
{
    if from < lines.len() && !ends(text::trimmed(lines[from]), starts[from]) {
        lemma_body_end(lines, starts, from + 1);
    }
}

/// The record of an entry.
fn entry(value: &Entry) -> (made: Json)
    ensures
        made@ == entry_record(value@),
{
    let percentage = match &value.percentage {
        Some(reading) => Json::Number(Number::Decimal(reading.clone())),
        None => Json::Null,
    };
    let made = Fields::new().with("est_speedup_pct", percentage).with(
        "text",
        fields::text(value.text.as_str()),
    ).object();
    assert(made@->Object_0 =~= entry_record(value@)->Object_0);
    made
}

/// The records of the entries, the highest estimate first.
fn records(entries: &Vec<Entry>) -> (made: Json)
    ensures
        made@ == ranked_records(entries_view(entries@)),
{
    broadcast use json::array_view;

    let ghost all = entries_view(entries@);
    let mut keys: Vec<i128> = Vec::new();
    let mut index: usize = 0;
    while index < entries.len()
        invariant
            index <= entries@.len(),
            all == entries_view(entries@),
            keys@ == weights(all).take(index as int),
        decreases entries@.len() - index,
    {
        assert(all[index as int] == entries@[index as int]@);
        let key: i128 = match &entries[index].percentage {
            Some(reading) => reading.place(),
            None => 2 * INFINITE as i128,
        };
        keys.push(key);
        index += 1;
        assert(keys@ =~= weights(all).take(index as int));
    }
    assert(keys@ =~= weights(all));
    let ranks = rank(&keys);
    let ghost sorted = ranking::arranged(all, ranks@);
    let mut made: Vec<Json> = Vec::new();
    let mut place: usize = 0;
    while place < ranks.len()
        invariant
            place <= ranks@.len(),
            all == entries_view(entries@),
            sorted == ranking::arranged(all, ranks@),
            ranks@.len() == entries@.len(),
            forall|i: int| 0 <= i < ranks@.len() ==> (#[trigger] ranks@[i]) < entries@.len(),
            made@.len() == place,
            forall|i: int| 0 <= i < place ==> (#[trigger] made@[i])@ == entry_record(sorted[i]),
        decreases ranks@.len() - place,
    {
        made.push(entry(&entries[ranks[place]]));
        place += 1;
    }
    let made = Json::Array(made);
    assert(made@->Array_0 =~= ranked_records(all)->Array_0);
    made
}

/// The trimmed lines from `from` up to one that ends a recommendation, and where that is.
fn take_body(lines: &Vec<String>, starts: &Vec<bool>, from: usize) -> (taken: (Vec<String>, usize))
    requires
        starts@.len() == lines@.len(),
        from <= lines@.len(),
    ensures
        taken.1 == body_end(pieces::texts(lines@), starts@, from as int),
        from <= taken.1 <= lines@.len(),
        pieces::texts(taken.0@) == body(pieces::texts(lines@), from as int, taken.1 as int),
{
    let ghost all = pieces::texts(lines@);
    let mut taken: Vec<String> = Vec::new();
    let mut index: usize = from;
    while index < lines.len()
        invariant_except_break
            body_end(all, starts@, from as int) == body_end(all, starts@, index as int),
        invariant
            from <= index <= lines@.len(),
            starts@.len() == lines@.len(),
            all == pieces::texts(lines@),
            taken@.len() == index - from,
            forall|i: int|
                0 <= i < taken@.len() ==> (#[trigger] taken@[i])@ == text::trimmed(all[from + i]),
        ensures
            index == body_end(all, starts@, from as int),
        decreases lines@.len() - index,
    {
        let line = trim(lines[index].as_str());
        assert(all[index as int] == lines@[index as int]@);
        if line.as_str().is_empty() || starts_with(line.as_str(), "OPT") || starts_with(
            line.as_str(),
            "Section:",
        ) || starts_with(line.as_str(), "----") || starts[index] {
            break;
        }
        taken.push(line);
        index += 1;
    }
    assert(pieces::texts(taken@) =~= body(all, from as int, index as int));
    (taken, index)
}

/// The model of estimates.
pub open spec fn estimates_view(estimates: Seq<Option<String>>) -> Seq<Option<Seq<char>>> {
    Seq::new(estimates.len(), |i: int| pieces::optional(estimates[i]))
}

/// Gathers the recommendations from lines whose estimates are known, the highest estimate first.
pub fn gather(
    lines: &Vec<String>,
    estimates: &Vec<Option<String>>,
    starts: &Vec<bool>,
    readings: &Readings,
) -> (result: Result<Json, String>)
    requires
        estimates@.len() == lines@.len(),
        starts@.len() == lines@.len(),
    ensures
        match result {
            Ok(made) => recommendations(
                pieces::texts(lines@),
                estimates_view(estimates@),
                starts@,
                readings@,
            ) == Ok::<JsonView, Seq<char>>(made@),
            Err(error) => recommendations(
                pieces::texts(lines@),
                estimates_view(estimates@),
                starts@,
                readings@,
            ) == Err::<JsonView, Seq<char>>(error@),
        },
{
    let ghost all = pieces::texts(lines@);
    let ghost marks = estimates_view(estimates@);
    let ghost wanted = entries_from(all, marks, starts@, readings@, 0);
    let mut entries: Vec<Entry> = Vec::new();
    let mut index: usize = 0;
    assert(entries_view(entries@) =~= Seq::<EntryView>::empty());
    proof {
        if let Ok(rest) = wanted {
            assert(Seq::<EntryView>::empty() + rest =~= rest);
        }
    }
    while index < lines.len()
        invariant
            index <= lines@.len(),
            estimates@.len() == lines@.len(),
            starts@.len() == lines@.len(),
            all == pieces::texts(lines@),
            marks == estimates_view(estimates@),
            wanted == entries_from(all, marks, starts@, readings@, 0),
            match entries_from(all, marks, starts@, readings@, index as int) {
                Ok(rest) => wanted == Ok::<Seq<EntryView>, Seq<char>>(
                    entries_view(entries@) + rest,
                ),
                Err(reason) => wanted == Err::<Seq<EntryView>, Seq<char>>(reason),
            },
        decreases lines@.len() - index,
    {
        assert(marks[index as int] == pieces::optional(estimates@[index as int]));
        match &estimates[index] {
            None => {
                index += 1;
            },
            Some(estimate) => {
                let percentage = match readings.read(estimate.as_str()) {
                    None => {
                        return Err("invalid float literal".to_owned());
                    },
                    Some(percentage) => percentage,
                };
                let from = index;
                let (taken, end) = take_body(lines, starts, index + 1);
                if taken.len() > 0 {
                    let ghost before = entries@;
                    let made = Entry { percentage, text: join(&taken, " ") };
                    let ghost one = made@;
                    entries.push(made);
                    proof {
                        assert(entries_view(entries@) =~= entries_view(before).push(one));
                        assert(pieces::texts(taken@).len() == taken@.len());
                        if let Ok(rest) = entries_from(all, marks, starts@, readings@, end as int) {
                            assert(entries_view(entries@) + rest =~= entries_view(before) + (seq![one]
                                + rest));
                        }
                    }
                } else {
                    assert(pieces::texts(taken@).len() == 0);
                    assert(end == from + 1);
                }
                index = end;
            },
        }
    }
    proof {
        assert(entries_view(entries@) + Seq::<EntryView>::empty() =~= entries_view(entries@));
    }
    Ok(records(&entries))
}

/// The estimate that a line has: what the first group of the first match takes in.
pub open spec fn estimate(found: Seq<Option<Seq<char>>>) -> Option<Seq<char>> {
    if found.len() == 0 {
        None
    } else {
        found[0]
    }
}

/// The estimate that a text has.
pub open spec fn looked(line: Seq<char>) -> Result<(Option<Seq<char>>, bool), Seq<char>> {
    match outside::regex_groups(estimate_pattern(), line) {
        Ok(found) => Ok((estimate(found), found.len() > 0)),
        Err(reason) => Err(reason),
    }
}

/// The estimate that a text has.
fn look(line: &str) -> (found: Result<(Option<String>, bool), String>)
    ensures
        match found {
            Ok((group, any)) => looked(line@) == Ok::<(Option<Seq<char>>, bool), Seq<char>>(
                (pieces::optional(group), any),
            ),
            Err(error) => looked(line@) == Err::<(Option<Seq<char>>, bool), Seq<char>>(error@),
        },
{
    match groups("Est\\.\\s*(?:Local\\s*)?Speedup:\\s*([0-9]+(?:\\.[0-9]+)?)\\s*%", line) {
        Ok(found) => {
            let ghost list = Seq::new(found@.len(), |i: int| pieces::optional(found@[i]));
            assert(outside::regex_groups(estimate_pattern(), line@)->Ok_0 =~= list);
            if found.len() == 0 {
                Ok((None, false))
            } else {
                let group = match &found[0] {
                    Some(group) => Some(group.clone()),
                    None => None,
                };
                Ok((group, true))
            }
        },
        Err(error) => Err(error),
    }
}

/// The estimates of the first `end` lines, and whether each trimmed line has one.
pub open spec fn marks_of(lines: Seq<Seq<char>>, end: int) -> Result<
    (Seq<Option<Seq<char>>>, Seq<bool>),
    Seq<char>,
>
    decreases end,
{
    if end <= 0 {
        Ok((Seq::empty(), Seq::empty()))
    } else {
        match marks_of(lines, end - 1) {
            Err(reason) => Err(reason),
            Ok(before) => match (looked(lines[end - 1]), looked(text::trimmed(lines[end - 1]))) {
                (Err(reason), _) => Err(reason),
                (_, Err(reason)) => Err(reason),
                (Ok(whole), Ok(trimmed)) => Ok((before.0.push(whole.0), before.1.push(trimmed.1))),
            },
        }
    }
}

proof fn lemma_marks_refused(lines: Seq<Seq<char>>, index: int, end: int)
    requires
        0 <= index < end,
        marks_of(lines, index + 1) is Err,
    ensures
        marks_of(lines, end) == marks_of(lines, index + 1),
    decreases end,
{
    if end > index + 1 {
        lemma_marks_refused(lines, index, end - 1);
    }
}

/// The recommendations that a report makes, or why there are none.
pub open spec fn rules_record(source: Seq<char>, readings: ReadingsView) -> Result<
    JsonView,
    Seq<char>,
> {
    let lines = pieces::lines_of(source);
    match marks_of(lines, lines.len() as int) {
        Err(reason) => Err(reason),
        Ok((estimates, starts)) => recommendations(lines, estimates, starts, readings),
    }
}

/// The model of what was found on the lines of a report.
pub open spec fn marks_view(marks: Result<(Vec<Option<String>>, Vec<bool>), String>) -> Result<
    (Seq<Option<Seq<char>>>, Seq<bool>),
    Seq<char>,
> {
    match marks {
        Ok((estimates, starts)) => Ok((estimates_view(estimates@), starts@)),
        Err(error) => Err(error@),
    }
}

/// The estimates of the lines of a report, and whether each trimmed line has one.
fn mark(list: &Vec<String>) -> (marks: Result<(Vec<Option<String>>, Vec<bool>), String>)
    ensures
        marks_view(marks) == marks_of(pieces::texts(list@), list@.len() as int),
        marks matches Ok((estimates, starts)) ==> estimates@.len() == list@.len() && starts@.len()
            == list@.len(),
{
    let ghost all = pieces::texts(list@);
    let mut estimates: Vec<Option<String>> = Vec::new();
    let mut starts: Vec<bool> = Vec::new();
    let mut index: usize = 0;
    assert(estimates_view(estimates@) =~= Seq::<Option<Seq<char>>>::empty());
    assert(starts@ =~= Seq::<bool>::empty());
    while index < list.len()
        invariant
            index <= list@.len(),
            all == pieces::texts(list@),
            estimates@.len() == index,
            starts@.len() == index,
            marks_of(all, index as int) == Ok::<
                (Seq<Option<Seq<char>>>, Seq<bool>),
                Seq<char>,
            >((estimates_view(estimates@), starts@)),
        decreases list@.len() - index,
    {
        assert(all[index as int] == list@[index as int]@);
        let whole = look(list[index].as_str());
        let trimmed = look(trim(list[index].as_str()).as_str());
        match (whole, trimmed) {
            (Ok((first, _)), Ok((_, start))) => {
                let ghost before = estimates@;
                estimates.push(first);
                starts.push(start);
                assert(estimates_view(estimates@) =~= estimates_view(before).push(
                    pieces::optional(first),
                ));
            },
            (Err(error), _) => {
                proof {
                    lemma_marks_refused(all, index as int, all.len() as int);
                }
                return Err(error);
            },
            (_, Err(error)) => {
                proof {
                    lemma_marks_refused(all, index as int, all.len() as int);
                }
                return Err(error);
            },
        }
        index += 1;
    }
    Ok((estimates, starts))
}

/// Gathers the recommendations that a report of the profiler's rules makes, the highest estimate
/// first.
pub fn rules(source: &str, readings: &Readings) -> (result: Result<Json, String>)
    ensures
        match result {
            Ok(made) => rules_record(source@, readings@) == Ok::<JsonView, Seq<char>>(made@),
            Err(error) => rules_record(source@, readings@) == Err::<JsonView, Seq<char>>(error@),
        },
{
    let list = lines(source);
    assert(pieces::texts(list@).len() == list@.len());
    match mark(&list) {
        Err(error) => Err(error),
        Ok((estimates, starts)) => gather(&list, &estimates, &starts, readings),
    }
}

/// The texts in a report that are read as numbers.
pub open spec fn report_parts(source: Seq<char>) -> Seq<Seq<char>> {
    let lines = pieces::lines_of(source);
    match marks_of(lines, lines.len() as int) {
        Ok((estimates, _)) => pieces::taken(estimates, estimates.len() as int),
        Err(_) => Seq::empty(),
    }
}

/// The texts in a report that are read as numbers.
pub fn numbers_in(source: &str) -> (parts: Vec<String>)
    ensures
        pieces::texts(parts@) == report_parts(source@),
{
    let mut parts: Vec<String> = Vec::new();
    assert(pieces::texts(parts@) =~= Seq::<Seq<char>>::empty());
    let list = lines(source);
    assert(pieces::texts(list@).len() == list@.len());
    let estimates = match mark(&list) {
        Err(_) => {
            return parts;
        },
        Ok((estimates, _)) => estimates,
    };
    let ghost all = estimates_view(estimates@);
    let mut index: usize = 0;
    while index < estimates.len()
        invariant
            index <= estimates@.len(),
            all == estimates_view(estimates@),
            pieces::texts(parts@) == pieces::taken(all, index as int),
        decreases estimates@.len() - index,
    {
        assert(all[index as int] == pieces::optional(estimates@[index as int]));
        if let Some(estimate) = &estimates[index] {
            let part = estimate.clone();
            proof {
                pieces::lemma_texts_push(parts@, part);
            }
            parts.push(part);
        }
        index += 1;
    }
    parts
}

proof fn lemma_taken(list: Seq<Option<Seq<char>>>, end: int, index: int)
    requires
        0 <= index < end <= list.len(),
        list[index] is Some,
    ensures
        pieces::taken(list, end).contains(list[index]->Some_0),
    decreases end,
{
    let before = pieces::taken(list, end - 1);
    let all = pieces::taken(list, end);
    if index < end - 1 {
        lemma_taken(list, end - 1, index);
        let place = choose|place: int|
            0 <= place < before.len() && before[place] == list[index]->Some_0;
        assert(all[place] == list[index]->Some_0);
    } else {
        assert(all[all.len() - 1] == list[index]->Some_0);
    }
}

proof fn lemma_marks_length(lines: Seq<Seq<char>>, end: int)
    requires
        0 <= end,
    ensures
        marks_of(lines, end) matches Ok((estimates, starts)) ==> estimates.len() == end
            && starts.len() == end,
    decreases end,
{
    if end > 0 {
        lemma_marks_length(lines, end - 1);
    }
}

proof fn lemma_entries_agree(
    lines: Seq<Seq<char>>,
    estimates: Seq<Option<Seq<char>>>,
    starts: Seq<bool>,
    left: ReadingsView,
    right: ReadingsView,
    from: int,
)
    requires
        estimates.len() == lines.len(),
        number::agree(left, right, pieces::taken(estimates, estimates.len() as int)),
    ensures
        entries_from(lines, estimates, starts, left, from) == entries_from(
            lines,
            estimates,
            starts,
            right,
            from,
        ),
    decreases lines.len() - from,
{
    if 0 <= from < lines.len() {
        match estimates[from] {
            None => lemma_entries_agree(lines, estimates, starts, left, right, from + 1),
            Some(_) => {
                lemma_taken(estimates, estimates.len() as int, from);
                let end = body_end(lines, starts, from + 1);
                if from < end <= lines.len() {
                    lemma_entries_agree(lines, estimates, starts, left, right, end);
                }
            },
        }
    }
}

/// What is recommended depends on the readings of the texts in the report that are read as numbers,
/// and on no other reading.
pub proof fn other_readings_do_not_matter(
    source: Seq<char>,
    left: ReadingsView,
    right: ReadingsView,
)
    requires
        number::agree(left, right, report_parts(source)),
    ensures
        rules_record(source, left) == rules_record(source, right),
{
    let lines = pieces::lines_of(source);
    lemma_marks_length(lines, lines.len() as int);
    if let Ok((estimates, starts)) = marks_of(lines, lines.len() as int) {
        lemma_entries_agree(lines, estimates, starts, left, right, 0);
    }
}

} // verus!
