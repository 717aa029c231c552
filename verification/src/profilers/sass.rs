//! Counting instructions in a listing.
use crate::fields;
use crate::fields::Fields;
use crate::json;
use crate::json::{FieldView, Json, JsonView};
use crate::outside;
use crate::outside::finds;
use crate::text;
use crate::text::{chars, find, slice};
use vstd::prelude::*;

verus! {

/// The part of a listing that belongs to a kernel, from its heading up to the next one, and the
/// kernel's name; the whole listing without a name where no kernel is asked for or found.
pub open spec fn excerpt(source: Seq<char>, kernel: Option<Seq<char>>) -> (Seq<char>, Seq<char>) {
    match kernel {
        None => (source, ""@),
        Some(kernel) => if kernel.len() == 0 {
            (source, ""@)
        } else {
            let heading = ".text."@ + kernel;
            match text::find_from(source, heading, 0) {
                None => (source, ""@),
                Some(start) => {
                    let end = match text::find_from(source, ".text."@, start + heading.len()) {
                        Some(end) => end,
                        None => source.len() as int,
                    };
                    (source.subrange(start, end), kernel)
                },
            }
        },
    }
}

/// How often each pattern up to `end` occurs in a text, or why that cannot be told.
pub open spec fn counts_of(patterns: Seq<FieldView>, part: Seq<char>, end: int) -> Result<
    Seq<(Seq<char>, nat)>,
    Seq<char>,
>
    decreases end,
{
    if end <= 0 {
        Ok(Seq::empty())
    } else {
        match counts_of(patterns, part, end - 1) {
            Err(reason) => Err(reason),
            Ok(before) => match patterns[end - 1].1 {
                JsonView::Text(pattern) => match outside::regex_finds("(?i)"@ + pattern, part) {
                    Ok(found) => Ok(before.push((patterns[end - 1].0, found.len()))),
                    Err(reason) => Err(reason),
                },
                _ => Err("SASS pattern"@),
            },
        }
    }
}

/// The fields for the first `end` counts.
pub open spec fn with_counts(list: Seq<FieldView>, counts: Seq<(Seq<char>, nat)>, end: int) -> Seq<
    FieldView,
>
    decreases end,
{
    if end <= 0 {
        list
    } else {
        json::with_field(
            with_counts(list, counts, end - 1),
            counts[end - 1].0 + "_count"@,
            fields::natural_view(counts[end - 1].1),
        )
    }
}

/// The record of a listing.
pub open spec fn listing(source: Seq<char>, name: Seq<char>, counts: Seq<(Seq<char>, nat)>) -> JsonView {
    JsonView::Object(
        with_counts(
            seq![
                ("sass_text"@, JsonView::Text(source)),
                ("kernel_name"@, JsonView::Text(name)),
                ("uses_cublas"@, JsonView::Bool(false)),
                ("cublas_symbols"@, JsonView::Array(Seq::empty())),
            ],
            counts,
            counts.len() as int,
        ),
    )
}

/// The model of counts.
pub open spec fn counts_view(counts: Seq<(String, u64)>) -> Seq<(Seq<char>, nat)> {
    Seq::new(counts.len(), |i: int| (counts[i].0@, counts[i].1 as nat))
}

/// The record of a listing with the counts of its instructions.
pub fn record(source: &str, name: &str, counts: &Vec<(String, u64)>) -> (made: Json)
    ensures
        made@ == listing(source@, name@, counts_view(counts@)),
{
    let mut list = Fields::new().with("sass_text", fields::text(source)).with(
        "kernel_name",
        fields::text(name),
    ).with("uses_cublas", Json::Bool(false)).with("cublas_symbols", fields::strings(&Vec::new()));
    let ghost start = seq![
        ("sass_text"@, JsonView::Text(source@)),
        ("kernel_name"@, JsonView::Text(name@)),
        ("uses_cublas"@, JsonView::Bool(false)),
        ("cublas_symbols"@, JsonView::Array(Seq::empty())),
    ];
    proof {
        assert(fields::strings_view(crate::pieces::texts(Seq::empty()))->Array_0 =~= Seq::<
            JsonView,
        >::empty());
        assert(list@ =~= start);
    }
    let ghost all = counts_view(counts@);
    let mut index: usize = 0;
    while index < counts.len()
        invariant
            index <= counts@.len(),
            all == counts_view(counts@),
            list@ == with_counts(start, all, index as int),
        decreases counts@.len() - index,
    {
        assert(all[index as int] == (counts@[index as int].0@, counts@[index as int].1 as nat));
        let key = counts[index].0.clone().concat("_count");
        list.set(key.as_str(), fields::natural(counts[index].1));
        index += 1;
    }
    list.object()
}

/// The part of a listing that belongs to a kernel, and the kernel's name.
fn select(source: &str, kernel: Option<&str>) -> (part: (String, String))
    ensures
        (part.0@, part.1@) == excerpt(
            source@,
            match kernel {
                Some(kernel) => Some(kernel@),
                None => None,
            },
        ),
{
    if let Some(kernel) = kernel {
        if kernel.is_empty() {
            return (source.to_owned(), "".to_owned());
        }
        let characters = chars(source);
        let heading = chars(".text.".to_owned().concat(kernel).as_str());
        let mark = chars(".text.");
        if let Some(start) = find(&characters, &heading, 0) {
            assert(start + heading@.len() <= characters.len());
            let after: usize = start + heading.len();
            let end = match find(&characters, &mark, after) {
                Some(end) => end,
                None => characters.len(),
            };
            return (slice(&characters, start, end), kernel.to_owned());
        }
    }
    (source.to_owned(), "".to_owned())
}

/// How often each pattern occurs in a text.
fn count_all(patterns: &Vec<(String, Json)>, part: &str) -> (counts: Result<
    Vec<(String, u64)>,
    String,
>)
    ensures
        match counts {
            Ok(counts) => counts_of(json::fields_view(patterns@), part@, patterns@.len() as int)
                == Ok::<Seq<(Seq<char>, nat)>, Seq<char>>(counts_view(counts@)),
            Err(error) => counts_of(json::fields_view(patterns@), part@, patterns@.len() as int)
                == Err::<Seq<(Seq<char>, nat)>, Seq<char>>(error@),
        },
{
    let ghost all = json::fields_view(patterns@);
    let mut counts: Vec<(String, u64)> = Vec::new();
    let mut index: usize = 0;
    assert(counts_view(counts@) =~= Seq::<(Seq<char>, nat)>::empty());
    while index < patterns.len()
        invariant
            index <= patterns@.len(),
            all == json::fields_view(patterns@),
            counts_of(all, part@, index as int) == Ok::<Seq<(Seq<char>, nat)>, Seq<char>>(
                counts_view(counts@),
            ),
        decreases patterns@.len() - index,
    {
        assert(all[index as int] == (patterns@[index as int].0@, patterns@[index as int].1@));
        let found = match patterns[index].1.text() {
            Some(pattern) => finds("(?i)".to_owned().concat(pattern).as_str(), part),
            None => Err("SASS pattern".to_owned()),
        };
        match found {
            Ok(found) => {
                let ghost before = counts@;
                counts.push((patterns[index].0.clone(), found.len() as u64));
                assert(counts_view(counts@) =~= counts_view(before).push(
                    (all[index as int].0, found@.len()),
                ));
            },
            Err(error) => {
                proof {
                    lemma_counts_refused(all, part@, index as int, all.len() as int);
                }
                return Err(error);
            },
        }
        index += 1;
    }
    Ok(counts)
}

proof fn lemma_counts_refused(patterns: Seq<FieldView>, part: Seq<char>, index: int, end: int)
    requires
        0 <= index < end,
        counts_of(patterns, part, index + 1) is Err,
    ensures
        counts_of(patterns, part, end) == counts_of(patterns, part, index + 1),
    decreases end,
{
    if end > index + 1 {
        lemma_counts_refused(patterns, part, index, end - 1);
    }
}

/// The record of a listing, or why there is none.
pub open spec fn sass_record(assets: JsonView, source: Seq<char>, kernel: Option<Seq<char>>) -> Result<
    JsonView,
    Seq<char>,
> {
    match assets.at("sass_patterns"@) {
        JsonView::Object(patterns) => {
            let (part, name) = excerpt(source, kernel);
            match counts_of(patterns, part, patterns.len() as int) {
                Ok(counts) => Ok(listing(source, name, counts)),
                Err(reason) => Err(reason),
            }
        },
        _ => Err("SASS patterns"@),
    }
}

/// Counts the instructions of a listing, or of one kernel's part of it, by the patterns of the
/// assets.
pub fn sass(assets: &Json, source: &str, kernel: Option<&str>) -> (result: Result<Json, String>)
    ensures
        match result {
            Ok(made) => sass_record(
                assets@,
                source@,
                match kernel {
                    Some(kernel) => Some(kernel@),
                    None => None,
                },
            ) == Ok::<JsonView, Seq<char>>(made@),
            Err(error) => sass_record(
                assets@,
                source@,
                match kernel {
                    Some(kernel) => Some(kernel@),
                    None => None,
                },
            ) == Err::<JsonView, Seq<char>>(error@),
        },
{
    broadcast use json::object_view;

    let (part, name) = select(source, kernel);
    match assets.at("sass_patterns") {
        Json::Object(patterns) => match count_all(patterns, part.as_str()) {
            Ok(counts) => Ok(record(source, name.as_str(), &counts)),
            Err(error) => Err(error),
        },
        _ => Err("SASS patterns".to_owned()),
    }
}

} // verus!
