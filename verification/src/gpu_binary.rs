//! What the compiled binaries show.
pub mod artifacts;
pub mod inspection;
pub mod naming;

use crate::fields;
use crate::fields::Fields;
use crate::gpu_profile;
use crate::gpu_profile::succeeded;
use crate::json;
use crate::json::{Json, JsonView};
use crate::lines::Lines;
use crate::outside;
use crate::outside::{finds, groups, replace_matches};
use crate::pieces;
use crate::pieces::{lines, split};
use crate::profilers::ncu::lists;
use crate::profilers::sass;
use crate::text;
use crate::text::trim;
use crate::words;
use crate::words::last_word;
use vstd::prelude::*;

verus! {

/// The first of the highest of `times` from `from` on, where `best` is the place of the highest
/// before.
pub open spec fn newest_of(times: Seq<i128>, best: Option<int>, from: int) -> Option<int>
    decreases times.len() - from,
{
    if from < 0 || from >= times.len() {
        best
    } else {
        match best {
            Some(place) => if times[from] > times[place] {
                newest_of(times, Some(from), from + 1)
            } else {
                newest_of(times, best, from + 1)
            },
            None => newest_of(times, Some(from), from + 1),
        }
    }
}

/// The place of the first of the latest times.
pub fn newest(times: &Vec<i128>) -> (place: Option<usize>)
    ensures
        match place {
            Some(place) => newest_of(times@, None, 0) == Some(place as int) && place < times@.len(),
            None => newest_of(times@, None, 0) is None,
        },
{
    let mut best: Option<usize> = None;
    let mut index: usize = 0;
    while index < times.len()
        invariant
            index <= times@.len(),
            best matches Some(place) ==> place < times@.len(),
            newest_of(times@, None, 0) == newest_of(
                times@,
                match best {
                    Some(place) => Some(place as int),
                    None => None,
                },
                index as int,
            ),
        decreases times@.len() - index,
    {
        let later = match best {
            Some(place) => times[index] > times[place],
            None => true,
        };
        if later {
            best = Some(index);
        }
        index += 1;
    }
    best
}

/// The latest time is not earlier than any other, and no earlier place has it.
pub proof fn newest_is_latest(times: Seq<i128>)
    ensures
        newest_of(times, None, 0) is None <==> times.len() == 0,
        newest_of(times, None, 0) matches Some(place) ==> {
            &&& 0 <= place < times.len()
            &&& forall|i: int| 0 <= i < times.len() ==> #[trigger] times[i] <= times[place]
            &&& forall|i: int| 0 <= i < place ==> #[trigger] times[i] < times[place]
        },
{
    if times.len() > 0 {
        lemma_newest(times, 0, 1);
    }
}

proof fn lemma_newest(times: Seq<i128>, best: int, from: int)
    requires
        0 <= best < from <= times.len(),
        forall|i: int| 0 <= i < from ==> #[trigger] times[i] <= times[best],
        forall|i: int| 0 <= i < best ==> #[trigger] times[i] < times[best],
    ensures
        newest_of(times, Some(best), from) matches Some(place) && 0 <= place < times.len() && (
        forall|i: int| 0 <= i < times.len() ==> #[trigger] times[i] <= times[place]) && (forall|i: int|
            0 <= i < place ==> #[trigger] times[i] < times[place]),
    decreases times.len() - from,
{
    if from < times.len() {
        if times[from] > times[best] {
            lemma_newest(times, from, from + 1);
        } else {
            lemma_newest(times, best, from + 1);
        }
    }
}

/// The regular expression for the entry points in a table of symbols.
pub open spec fn entry_pattern() -> Seq<char> {
    "(?m)^STT_FUNC\\s+STB_GLOBAL\\s+STO_ENTRY\\s+(\\S+)"@
}

/// The entry points in a table of symbols that a process printed; none where it failed.
pub open spec fn entries_told(output: JsonView) -> Result<Seq<Seq<char>>, Seq<char>> {
    if !gpu_profile::ended_well(output) {
        Ok(Seq::empty())
    } else {
        match outside::regex_groups(entry_pattern(), output.at("stdout"@).text_or_empty()) {
            Err(reason) => Err(reason),
            Ok(groups) => Ok(pieces::taken(groups, groups.len() as int)),
        }
    }
}

/// The entry points in a table of symbols that a process printed; none where it failed.
pub fn entry_points(output: &Json) -> (result: Result<Vec<String>, String>)
    ensures
        outside::listed(result) == entries_told(output@),
{
    let mut list = Lines::new();
    if !succeeded(output) {
        return Ok(list.list);
    }
    match groups(
        "(?m)^STT_FUNC\\s+STB_GLOBAL\\s+STO_ENTRY\\s+(\\S+)",
        output.at("stdout").text_or_empty(),
    ) {
        Err(error) => Err(error),
        Ok(found) => {
            let ghost all = Seq::new(found@.len(), |i: int| pieces::optional(found@[i]));
            let mut index: usize = 0;
            while index < found.len()
                invariant
                    index <= found@.len(),
                    all == Seq::new(found@.len(), |i: int| pieces::optional(found@[i])),
                    list@ == pieces::taken(all, index as int),
                decreases found@.len() - index,
            {
                assert(all[index as int] == pieces::optional(found@[index as int]));
                if let Some(entry) = &found[index] {
                    list.add_text(entry.as_str());
                }
                index += 1;
            }
            Ok(list.list)
        },
    }
}

/// What stands in a line before the first parenthesis.
pub open spec fn line_base(line: Seq<char>) -> Seq<char> {
    text::trimmed(pieces::pieces(line, '(')[0])
}

/// The name of a function, from what stands before its parameters without template arguments.
pub open spec fn short_name(plain: Seq<char>) -> Seq<char> {
    match words::last_of(plain) {
        Some(word) => word,
        None => Seq::empty(),
    }
}

/// The name of a function, from what stands before its parameters without template arguments.
pub fn shorten(plain: &str) -> (name: String)
    ensures
        name@ == short_name(plain@),
{
    match last_word(plain) {
        Some(word) => word,
        None => {
            let empty = String::new();
            assert(empty@ =~= Seq::<char>::empty());
            empty
        },
    }
}

/// The names of the functions in the first `end` lines.
pub open spec fn names_in(lines: Seq<Seq<char>>, end: int) -> Result<Seq<Seq<char>>, Seq<char>>
    decreases end,
{
    if end <= 0 {
        Ok(Seq::empty())
    } else {
        match names_in(lines, end - 1) {
            Err(reason) => Err(reason),
            Ok(before) => match outside::regex_replaced("<.*>"@, line_base(lines[end - 1]), ""@) {
                Err(reason) => Err(reason),
                Ok(plain) => Ok(before.push(short_name(plain))),
            },
        }
    }
}

proof fn lemma_names_refused(lines: Seq<Seq<char>>, index: int, end: int)
    requires
        0 <= index < end,
        names_in(lines, index + 1) is Err,
    ensures
        names_in(lines, end) == names_in(lines, index + 1),
    decreases end,
{
    if end > index + 1 {
        lemma_names_refused(lines, index, end - 1);
    }
}

/// The names of the functions whose declarations a process printed, one in a line.
pub open spec fn names_told(output: JsonView) -> Result<Seq<Seq<char>>, Seq<char>> {
    let lines = pieces::lines_of(text::trimmed(output.at("stdout"@).text_or_empty()));
    names_in(lines, lines.len() as int)
}

proof fn lemma_pieces_not_empty(line: Seq<char>, separator: char, start: int, index: int)
    requires
        0 <= start <= index <= line.len(),
    ensures
        pieces::pieces_from(line, separator, start, index).len() > 0,
    decreases line.len() - index,
{
    if index < line.len() {
        if line[index] == separator {
            lemma_pieces_not_empty(line, separator, index + 1, index + 1);
        } else {
            lemma_pieces_not_empty(line, separator, start, index + 1);
        }
    }
}

/// The names of the functions whose declarations a process printed, one in a line.
pub fn function_names(output: &Json) -> (result: Result<Vec<String>, String>)
    ensures
        outside::listed(result) == names_told(output@),
{
    let printed = lines(trim(output.at("stdout").text_or_empty()).as_str());
    read_names(&printed)
}

fn read_names(printed: &Vec<String>) -> (result: Result<Vec<String>, String>)
    ensures
        outside::listed(result) == names_in(pieces::texts(printed@), printed@.len() as int),
{
    let ghost all = pieces::texts(printed@);
    let mut list = Lines::new();
    let mut index: usize = 0;
    while index < printed.len()
        invariant
            index <= printed@.len(),
            all == pieces::texts(printed@),
            names_in(all, index as int) == Ok::<Seq<Seq<char>>, Seq<char>>(list@),
        decreases printed@.len() - index,
    {
        assert(all[index as int] == printed@[index as int]@);
        let parts = split(printed[index].as_str(), '(');
        proof {
            lemma_pieces_not_empty(all[index as int], '(', 0, 0);
            assert(pieces::texts(parts@).len() == parts@.len());
            assert(pieces::texts(parts@)[0] == parts@[0]@);
        }
        let base = trim(parts[0].as_str());
        match replace_matches("<.*>", base.as_str(), "") {
            Ok(plain) => {
                list.push(shorten(plain.as_str()));
            },
            Err(error) => {
                proof {
                    lemma_names_refused(all, index as int, all.len() as int);
                }
                return Err(error);
            },
        }
        index += 1;
    }
    Ok(list.list)
}

/// `list` with those of the first `end` names that it does not hold yet.
pub open spec fn merged(list: Seq<Seq<char>>, names: Seq<Seq<char>>, end: int) -> Seq<Seq<char>>
    decreases end,
{
    if end <= 0 {
        list
    } else {
        let before = merged(list, names, end - 1);
        if before.contains(names[end - 1]) {
            before
        } else {
            before.push(names[end - 1])
        }
    }
}

/// Adds the names that a list does not hold yet.
pub fn merge(list: &mut Vec<String>, names: &Vec<String>)
    ensures
        pieces::texts(final(list)@) == merged(
            pieces::texts(old(list)@),
            pieces::texts(names@),
            names@.len() as int,
        ),
{
    let ghost start = pieces::texts(list@);
    let ghost all = pieces::texts(names@);
    let mut index: usize = 0;
    while index < names.len()
        invariant
            index <= names@.len(),
            start == pieces::texts(old(list)@),
            all == pieces::texts(names@),
            pieces::texts(list@) == merged(start, all, index as int),
        decreases names@.len() - index,
    {
        assert(all[index as int] == names@[index as int]@);
        if !lists(list, names[index].as_str()) {
            let name = names[index].clone();
            proof {
                pieces::lemma_texts_push(list@, name);
            }
            list.push(name);
        }
        index += 1;
    }
}

/// The regular expression for symbols of the linear algebra library.
pub open spec fn library_pattern() -> Seq<char> {
    "(?i)cublas[A-Z]gemm|cublasGemmEx|cublasLt|cublas.*Batched|cublasGemmStrided"@
}

/// The symbols of the linear algebra library in the first `end` lines, each once.
pub open spec fn symbols_in(lines: Seq<Seq<char>>, end: int) -> Result<Seq<Seq<char>>, Seq<char>>
    decreases end,
{
    if end <= 0 {
        Ok(Seq::empty())
    } else {
        match symbols_in(lines, end - 1) {
            Err(reason) => Err(reason),
            Ok(before) => match outside::regex_finds(library_pattern(), lines[end - 1]) {
                Err(reason) => Err(reason),
                Ok(found) => match words::last_of(lines[end - 1]) {
                    Some(symbol) => if found.len() > 0 && !before.contains(symbol) {
                        Ok(before.push(symbol))
                    } else {
                        Ok(before)
                    },
                    None => Ok(before),
                },
            },
        }
    }
}

proof fn lemma_symbols_refused(lines: Seq<Seq<char>>, index: int, end: int)
    requires
        0 <= index < end,
        symbols_in(lines, index + 1) is Err,
    ensures
        symbols_in(lines, end) == symbols_in(lines, index + 1),
    decreases end,
{
    if end > index + 1 {
        lemma_symbols_refused(lines, index, end - 1);
    }
}

/// The symbols of the linear algebra library in a table that a process printed; none where it
/// failed.
pub open spec fn symbols_told(output: JsonView) -> Result<Seq<Seq<char>>, Seq<char>> {
    if !gpu_profile::ended_well(output) {
        Ok(Seq::empty())
    } else {
        let lines = pieces::lines_of(output.at("stdout"@).text_or_empty());
        symbols_in(lines, lines.len() as int)
    }
}

/// The symbols of the linear algebra library in a table that a process printed, each once; none
/// where it failed.
pub fn library_symbols(output: &Json) -> (result: Result<Vec<String>, String>)
    ensures
        outside::listed(result) == symbols_told(output@),
{
    if !succeeded(output) {
        let list = Lines::new();
        return Ok(list.list);
    }
    let printed = lines(output.at("stdout").text_or_empty());
    read_symbols(&printed)
}

fn read_symbols(printed: &Vec<String>) -> (result: Result<Vec<String>, String>)
    ensures
        outside::listed(result) == symbols_in(pieces::texts(printed@), printed@.len() as int),
{
    let ghost all = pieces::texts(printed@);
    let mut list = Lines::new();
    let mut index: usize = 0;
    while index < printed.len()
        invariant
            index <= printed@.len(),
            all == pieces::texts(printed@),
            symbols_in(all, index as int) == Ok::<Seq<Seq<char>>, Seq<char>>(list@),
        decreases printed@.len() - index,
    {
        assert(all[index as int] == printed@[index as int]@);
        match finds(
            "(?i)cublas[A-Z]gemm|cublasGemmEx|cublasLt|cublas.*Batched|cublasGemmStrided",
            printed[index].as_str(),
        ) {
            Err(error) => {
                proof {
                    lemma_symbols_refused(all, index as int, all.len() as int);
                }
                return Err(error);
            },
            Ok(found) => {
                if let Some(symbol) = last_word(printed[index].as_str()) {
                    if found.len() > 0 && !lists(&list.list, symbol.as_str()) {
                        list.push(symbol);
                    }
                }
            },
        }
        index += 1;
    }
    Ok(list.list)
}

/// The listing to count instructions in, from what two processes printed: one that lists what a
/// binary holds, and one that dumps its instructions. It is what was dumped, nothing where only
/// the library's symbols tell something, and none where nothing does.
pub open spec fn listing_of(
    printed: Option<(JsonView, JsonView)>,
    symbols: Seq<Seq<char>>,
) -> Option<Seq<char>> {
    match printed {
        Some((listed, dumped)) => {
            let text = dumped.at("stdout"@).text_or_empty();
            if gpu_profile::ended_well(dumped) && (!gpu_profile::ended_well(listed)
                || text::trimmed(text).len() > 0) {
                Some(text)
            } else if !gpu_profile::ended_well(listed) && symbols.len() > 0 {
                Some(""@)
            } else {
                None
            }
        },
        None => if symbols.len() > 0 {
            Some(""@)
        } else {
            None
        },
    }
}

/// The listing to count instructions in; `printed` is what the two processes printed, if they
/// could be run.
pub fn listing(printed: Option<(&Json, &Json)>, symbols: &Vec<String>) -> (text: Option<String>)
    ensures
        pieces::optional(text) == listing_of(
            match printed {
                Some((listed, dumped)) => Some((listed@, dumped@)),
                None => None,
            },
            pieces::texts(symbols@),
        ),
{
    match printed {
        Some((listed, dumped)) => {
            let text = dumped.at("stdout").text_or_empty();
            if succeeded(dumped) && (!succeeded(listed) || !trim(text).as_str().is_empty()) {
                Some(text.to_owned())
            } else if !succeeded(listed) && symbols.len() > 0 {
                Some("".to_owned())
            } else {
                None
            }
        },
        None => if symbols.len() > 0 {
            Some("".to_owned())
        } else {
            None
        },
    }
}

/// The record of a binary's instructions and of the library's symbols in it; null where there is
/// no listing.
pub open spec fn binary_record(
    assets: JsonView,
    listing: Option<Seq<char>>,
    symbols: Seq<Seq<char>>,
) -> Result<JsonView, Seq<char>> {
    match listing {
        None => Ok(JsonView::Null),
        Some(text) => match sass::sass_record(assets, text, None) {
            Err(reason) => Err(reason),
            Ok(record) => Ok(
                JsonView::Object(
                    json::with_field(
                        json::with_field(
                            record->Object_0,
                            "uses_cublas"@,
                            JsonView::Bool(symbols.len() > 0),
                        ),
                        "cublas_symbols"@,
                        fields::strings_view(symbols),
                    ),
                ),
            ),
        },
    }
}

/// The record of a binary's instructions and of the library's symbols in it.
pub fn record(assets: &Json, listing: &Option<String>, symbols: &Vec<String>) -> (result: Result<
    Json,
    String,
>)
    ensures
        match result {
            Ok(made) => binary_record(assets@, pieces::optional(*listing), pieces::texts(symbols@))
                == Ok::<JsonView, Seq<char>>(made@),
            Err(error) => binary_record(
                assets@,
                pieces::optional(*listing),
                pieces::texts(symbols@),
            ) == Err::<JsonView, Seq<char>>(error@),
        },
{
    broadcast use json::object_view;

    match listing {
        None => Ok(Json::Null),
        Some(text) => match sass::sass(assets, text.as_str(), None) {
            Err(error) => Err(error),
            Ok(Json::Object(list)) => {
                let mut list = Fields { list };
                list.set("uses_cublas", Json::Bool(symbols.len() > 0));
                list.set("cublas_symbols", fields::strings(symbols));
                Ok(list.object())
            },
            Ok(_) => Err("SASS record".to_owned()),
        },
    }
}

} // verus!
