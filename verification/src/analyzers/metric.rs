//! Reading a metric.
use crate::json::{Json, JsonView};
use crate::lines::Lines;
use crate::number;
use crate::number::{integer_rank, Number, NumberView, Reading, ReadingView, Readings, ReadingsView};
use crate::outside;
use crate::outside::to_capital;
use crate::pieces;
use crate::pieces::split;
use crate::profilers::ncu::metric_text;
use crate::text;
use crate::text::{chars, slice};
use vstd::prelude::*;

verus! {

/// A metric: a number or a truth value as it is, a text by the number that it writes.
pub open spec fn metric_of(
    metrics: JsonView,
    key: Seq<char>,
    default: JsonView,
    readings: ReadingsView,
) -> JsonView {
    match metrics.get(key) {
        Some(JsonView::Number(held)) => JsonView::Number(held),
        Some(JsonView::Bool(held)) => JsonView::Bool(held),
        Some(JsonView::Text(held)) => match number::read_from(
            readings,
            text::trimmed(pieces::without(held, ",%"@)),
        ) {
            None => default,
            Some(None) => JsonView::Null,
            Some(Some(reading)) => JsonView::Number(NumberView::Decimal(reading)),
        },
        _ => default,
    }
}

/// A metric.
pub fn metric(metrics: &Json, key: &str, default: Json, readings: &Readings) -> (value: Json)
    ensures
        value@ == metric_of(metrics@, key@, default@, readings@),
{
    match metrics.get(key) {
        Some(Json::Number(held)) => Json::Number(held.clone()),
        Some(Json::Bool(held)) => Json::Bool(*held),
        Some(Json::Text(held)) => match readings.read(metric_text(held.as_str()).as_str()) {
            None => default,
            Some(None) => Json::Null,
            Some(Some(reading)) => Json::Number(Number::Decimal(reading)),
        },
        _ => default,
    }
}

/// A metric as a number; truth values are 0 and 1.
pub open spec fn number_of(
    metrics: JsonView,
    key: Seq<char>,
    default: nat,
    readings: ReadingsView,
) -> ReadingView {
    let fallback = number::integer_reading(default);
    match metric_of(metrics, key, JsonView::Number(NumberView::Decimal(fallback)), readings) {
        JsonView::Bool(held) => number::integer_reading(
            if held {
                1
            } else {
                0
            },
        ),
        value => match value.reading() {
            Some(reading) => reading,
            None => fallback,
        },
    }
}

/// The reading of a small integer.
pub fn small(value: u64) -> (reading: Reading)
    requires
        value <= number::EXACT,
    ensures
        reading@ == number::integer_reading(value as nat),
{
    match Number::of(value) {
        Number::Integer(_, Some(reading)) => reading,
        Number::Decimal(reading) => reading,
        Number::Integer(_, None) => Reading {
            value: number::Real { rank: 0 },
            text: String::new(),
            tenths: String::new(),
            units: String::new(),
            whole: None,
            fractional: false,
        },
    }
}

/// A metric as a number; truth values are 0 and 1.
pub fn number(metrics: &Json, key: &str, default: u64, readings: &Readings) -> (reading: Reading)
    requires
        default <= number::EXACT,
    ensures
        reading@ == number_of(metrics@, key@, default as nat, readings@),
{
    let fallback = small(default);
    match metric(metrics, key, Json::Number(Number::Decimal(fallback.clone())), readings) {
        Json::Bool(held) => small(
            if held {
                1
            } else {
                0
            },
        ),
        value => match value.reading() {
            Some(reading) => reading.clone(),
            None => fallback,
        },
    }
}

/// Whether a number is at least `limit`.
pub open spec fn at_least(reading: ReadingView, limit: nat) -> bool {
    reading.value.rank >= number::rank_of_integer(limit as int)
}

/// Whether a number is at least `limit`.
pub fn reaches(reading: &Reading, limit: u64) -> (found: bool)
    requires
        limit <= number::EXACT,
    ensures
        found == at_least(reading@, limit as nat),
{
    reading.value.rank >= integer_rank(limit)
}

/// Whether a number is more than `limit`.
pub open spec fn more_than(reading: ReadingView, limit: nat) -> bool {
    reading.value.rank > number::rank_of_integer(limit as int)
}

/// Whether a number is more than `limit`.
pub fn exceeds(reading: &Reading, limit: u64) -> (found: bool)
    requires
        limit <= number::EXACT,
    ensures
        found == more_than(reading@, limit as nat),
{
    reading.value.rank > integer_rank(limit)
}

/// A word with a capital at its beginning.
pub open spec fn capitalized(word: Seq<char>) -> Seq<char> {
    if word.len() == 0 {
        Seq::empty()
    } else {
        outside::capital(word[0]) + word.skip(1)
    }
}

/// The words between underscores, each with a capital at its beginning and spaces between them.
pub open spec fn titled(value: Seq<char>) -> Seq<char> {
    let words = pieces::pieces(value, '_');
    pieces::joined(Seq::new(words.len(), |i: int| capitalized(words[i])), " "@)
}

fn capitalize(word: &str) -> (result: String)
    ensures
        result@ == capitalized(word@),
{
    let characters = chars(word);
    if characters.len() == 0 {
        let empty = String::new();
        assert(empty@ =~= Seq::<char>::empty());
        return empty;
    }
    let rest = slice(&characters, 1, characters.len());
    assert(rest@ =~= word@.skip(1));
    to_capital(characters[0]).concat(rest.as_str())
}

/// The words between underscores, each with a capital at its beginning and spaces between them.
pub fn title(value: &str) -> (result: String)
    ensures
        result@ == titled(value@),
{
    let words = split(value, '_');
    let ghost all = pieces::texts(words@);
    let ghost wanted = Seq::new(all.len(), |i: int| capitalized(all[i]));
    let mut lines = Lines::new();
    let mut index: usize = 0;
    while index < words.len()
        invariant
            index <= words@.len(),
            all == pieces::texts(words@),
            wanted == Seq::new(all.len(), |i: int| capitalized(all[i])),
            lines@ == wanted.take(index as int),
        decreases words@.len() - index,
    {
        lines.push(capitalize(words[index].as_str()));
        index += 1;
        assert(lines@ =~= wanted.take(index as int));
    }
    assert(wanted.take(index as int) =~= wanted);
    lines.join(" ")
}

} // verus!
