//! Reading a value by a schema.
use crate::fields::Fields;
use crate::json;
use crate::json::{FieldView, Json, JsonView};
use crate::models::refusal;
use crate::models::refusal::{Refusal, RefusalView, Verdict};
use crate::models::strict;
use crate::models::strict::FieldsVerdict;
use crate::number;
use crate::number::{Number, NumberView, Reading, ReadingView, Readings, ReadingsView, EXACT};
use crate::numeral;
use crate::pieces;
use crate::pieces::{has, replace};
use crate::pointer;
use crate::pointer::strip;
use crate::text;
use crate::text::{chars, one_of, same, trim};
use crate::words;
use crate::words::lower;
use vstd::prelude::*;

verus! {

/// The rank of one.
pub const ONE: i64 = 0x3ff0_0000_0000_0000;

/// How a value is read by a part of a schema.
pub type Rule = spec_fn(JsonView, JsonView) -> Verdict;

/// The truth that a value writes: a truth value, the numbers 0 and 1, or one of the usual words in
/// any case.
pub open spec fn truth(value: JsonView) -> Option<bool> {
    match value {
        JsonView::Bool(held) => Some(held),
        JsonView::Number(held) => match held.reading() {
            Some(reading) => if reading.value.rank == 0 {
                Some(false)
            } else if reading.value.rank == ONE {
                Some(true)
            } else {
                None
            },
            None => None,
        },
        JsonView::Text(held) => {
            let word = words::lowered(held);
            if word == "0"@ || word == "off"@ || word == "f"@ || word == "false"@ || word == "n"@
                || word == "no"@ {
                Some(false)
            } else if word == "1"@ || word == "on"@ || word == "t"@ || word == "true"@ || word
                == "y"@ || word == "yes"@ {
                Some(true)
            } else {
                None
            }
        },
        _ => None,
    }
}

/// Whether every underscore in `text` stands between two digits.
pub open spec fn separated(text: Seq<char>) -> bool {
    forall|i: int|
        0 <= i < text.len() && #[trigger] text[i] == '_' ==> 0 < i && i + 1 < text.len()
            && numeral::is_digit(text[i - 1]) && numeral::is_digit(text[i + 1])
}

/// The text that is read as a number: without white space around it and without underscores.
pub open spec fn cleaned(text: Seq<char>) -> Seq<char> {
    pieces::replaced(text::trimmed(text), "_"@, ""@)
}

/// The finite number that a value writes, or why it writes none.
pub open spec fn numeric_reading(value: JsonView, readings: ReadingsView) -> Result<
    ReadingView,
    Seq<char>,
> {
    match value {
        JsonView::Bool(held) => Ok(
            number::integer_reading(
                if held {
                    1
                } else {
                    0
                },
            ),
        ),
        JsonView::Number(held) => match held.reading() {
            Some(reading) => if reading.value.finite() {
                Ok(reading)
            } else {
                Err("nonfinite number"@)
            },
            None => Err("invalid number"@),
        },
        JsonView::Text(held) => if !separated(text::trimmed(held)) {
            Err("invalid numeric separator"@)
        } else {
            match number::read_from(readings, cleaned(held)) {
                None => Err("invalid numeric string"@),
                Some(None) => Err("nonfinite number"@),
                Some(Some(reading)) => if reading.value.finite() {
                    Ok(reading)
                } else {
                    Err("nonfinite number"@)
                },
            }
        },
        _ => Err("expected number"@),
    }
}

/// The integer that a whole number is written as.
pub open spec fn integer_view(value: i128, reading: ReadingView) -> JsonView {
    JsonView::Number(
        if 0 <= value <= EXACT {
            number::written(value as nat)
        } else {
            NumberView::Integer(value, Some(reading))
        },
    )
}

/// The integer that a value writes.
pub open spec fn integer_value(value: JsonView, readings: ReadingsView) -> Verdict {
    if value matches JsonView::Text(held) && (held.contains('e') || held.contains('E')) {
        strict::refused("expected integer string"@)
    } else if value matches JsonView::Number(NumberView::Integer(_, _)) {
        Ok(value)
    } else {
        match numeric_reading(value, readings) {
            Err(reason) => strict::refused(reason),
            Ok(reading) => if reading.fractional {
                strict::refused("expected integer"@)
            } else {
                match reading.whole {
                    None => strict::refused("integer out of range"@),
                    Some(whole) => Ok(integer_view(whole, reading)),
                }
            },
        }
    }
}

/// The properties up to `end` read from `input`, each from the field of its name or else by its
/// default; a field that is refused is told by its name.
pub open spec fn each_property(
    input: Seq<FieldView>,
    properties: Seq<FieldView>,
    rule: Rule,
    end: int,
) -> FieldsVerdict
    decreases end,
{
    if end <= 0 {
        Ok(Seq::empty())
    } else {
        match each_property(input, properties, rule, end - 1) {
            Err(refusal) => Err(refusal),
            Ok(before) => {
                let name = properties[end - 1].0;
                let part = properties[end - 1].1;
                match json::field(input, name) {
                    Some(value) => match rule(value, part) {
                        Ok(value) => Ok(json::with_field(before, name, value)),
                        Err(RefusalView::Depth) => Err(RefusalView::Depth),
                        Err(RefusalView::Text(_)) => strict::refused(name),
                    },
                    None => match part.get("default"@) {
                        Some(value) => Ok(json::with_field(before, name, value)),
                        None => strict::refused("missing field "@ + name),
                    },
                }
            },
        }
    }
}

/// Whether every field of `input` is one of `properties`.
pub open spec fn all_known(input: Seq<FieldView>, properties: Seq<FieldView>) -> bool {
    forall|i: int|
        0 <= i < input.len() ==> json::field(properties, (#[trigger] input[i]).0) is Some
}

/// The object that a value writes.
pub open spec fn object_value(value: JsonView, schema: JsonView, rule: Rule) -> Verdict {
    match value {
        JsonView::Object(input) => match schema.at("properties"@) {
            JsonView::Object(properties) => if schema.at("additionalProperties"@)
                == JsonView::Bool(false) && !all_known(input, properties) {
                strict::refused("unexpected field"@)
            } else {
                match each_property(input, properties, rule, properties.len() as int) {
                    Err(refusal) => Err(refusal),
                    Ok(fields) => Ok(JsonView::Object(fields)),
                }
            },
            _ => strict::refused("schema properties"@),
        },
        _ => strict::refused("expected object"@),
    }
}

/// How items are read by one schema.
pub open spec fn item_rule(schema: JsonView, rule: Rule) -> strict::Rule {
    |item: JsonView| rule(item, schema)
}

/// The value that is written, by the type of the schema.
pub open spec fn typed(
    value: JsonView,
    schema: JsonView,
    readings: ReadingsView,
    rule: Rule,
) -> Verdict {
    match schema.at("type"@).text() {
        None => strict::refused("schema type"@),
        Some(kind) => if kind == "object"@ {
            object_value(value, schema, rule)
        } else if kind == "array"@ {
            match value {
                JsonView::Array(items) => match strict::each_item(
                    items,
                    item_rule(schema.at("items"@), rule),
                ) {
                    Err(refusal) => Err(refusal),
                    Ok(items) => Ok(JsonView::Array(items)),
                },
                _ => strict::refused("expected array"@),
            }
        } else if kind == "string"@ {
            match value {
                JsonView::Text(_) => Ok(value),
                _ => strict::refused("expected string"@),
            }
        } else if kind == "boolean"@ {
            match truth(value) {
                Some(held) => Ok(JsonView::Bool(held)),
                None => strict::refused("expected boolean"@),
            }
        } else if kind == "integer"@ {
            integer_value(value, readings)
        } else if kind == "number"@ {
            match numeric_reading(value, readings) {
                Ok(reading) => Ok(JsonView::Number(NumberView::Decimal(reading))),
                Err(reason) => strict::refused(reason),
            }
        } else if kind == "null"@ {
            if value == JsonView::Null {
                Ok(JsonView::Null)
            } else {
                strict::refused("expected null"@)
            }
        } else {
            strict::refused("unsupported schema type "@ + kind)
        },
    }
}

/// Whether `value` equals one of `allowed`.
pub open spec fn is_allowed(allowed: Seq<JsonView>, value: JsonView) -> bool {
    exists|i: int| 0 <= i < allowed.len() && (#[trigger] allowed[i]).equals(value)
}

/// Why a value that was read is refused by the limits of the schema, if it is.
pub open spec fn out_of_limits(value: JsonView, schema: JsonView) -> Option<Seq<char>> {
    if schema.at("enum"@) matches JsonView::Array(allowed) && !is_allowed(allowed, value) {
        Some("unknown enum value"@)
    } else {
        match value.reading() {
            None => None,
            Some(number) => if schema.at("minimum"@).reading() matches Some(minimum)
                && number.value.rank < minimum.value.rank {
                Some("number below minimum"@)
            } else if schema.at("maximum"@).reading() matches Some(maximum) && number.value.rank
                > maximum.value.rank {
                Some("number above maximum"@)
            } else {
                None
            },
        }
    }
}

/// The first of the alternatives from `from` on that takes the value.
pub open spec fn first_choice(
    value: JsonView,
    choices: Seq<JsonView>,
    rule: Rule,
    from: int,
) -> Verdict
    decreases choices.len() - from,
{
    if from >= choices.len() {
        strict::refused("value does not match any schema alternative"@)
    } else {
        match rule(value, choices[from]) {
            Err(RefusalView::Text(_)) => first_choice(value, choices, rule, from + 1),
            decided => decided,
        }
    }
}

/// A value read by a schema, its parts by `rule`.
pub open spec fn normal_once(
    value: JsonView,
    schema: JsonView,
    root: JsonView,
    readings: ReadingsView,
    rule: Rule,
) -> Verdict {
    match (schema.at("$ref"@), schema.at("anyOf"@)) {
        (JsonView::Text(reference), _) => match pointer::pointed(
            root,
            pointer::stripped(reference, '#'),
        ) {
            None => strict::refused("schema reference"@),
            Some(target) => rule(value, target),
        },
        (_, JsonView::Array(choices)) => first_choice(value, choices, rule, 0),
        _ => match typed(value, schema, readings, rule) {
            Err(refusal) => Err(refusal),
            Ok(read) => match out_of_limits(read, schema) {
                Some(reason) => strict::refused(reason),
                None => Ok(read),
            },
        },
    }
}

/// A value read by a schema, with references into `root`, down to `depth` levels.
pub open spec fn normal(
    value: JsonView,
    schema: JsonView,
    root: JsonView,
    readings: ReadingsView,
    depth: nat,
) -> Verdict
    decreases depth, 0nat,
{
    if depth == 0 {
        Err(RefusalView::Depth)
    } else {
        normal_once(value, schema, root, readings, rule(root, readings, (depth - 1) as nat))
    }
}

/// How values are read with `depth` levels left.
pub open spec fn rule(root: JsonView, readings: ReadingsView, depth: nat) -> Rule
    decreases depth, 1nat,
{
    |value: JsonView, schema: JsonView| normal(value, schema, root, readings, depth)
}

/// The truth that a value writes.
fn boolean(value: &Json) -> (held: Option<bool>)
    ensures
        held == truth(value@),
{
    match value {
        Json::Bool(held) => Some(*held),
        Json::Number(held) => match held.reading() {
            Some(reading) => if reading.value.rank == 0 {
                Some(false)
            } else if reading.value.rank == ONE {
                Some(true)
            } else {
                None
            },
            None => None,
        },
        Json::Text(held) => {
            let word = lower(held.as_str());
            if one_of(word.as_str(), &["0", "off", "f", "false", "n", "no"]) {
                Some(false)
            } else if one_of(word.as_str(), &["1", "on", "t", "true", "y", "yes"]) {
                Some(true)
            } else {
                None
            }
        },
        _ => None,
    }
}

fn is_digit(character: char) -> (found: bool)
    ensures
        found == numeral::is_digit(character),
{
    let code: u32 = character as u32;
    48 <= code && code <= 57
}

/// Whether every underscore in `text` stands between two digits.
fn well_separated(text: &str) -> (found: bool)
    ensures
        found == separated(text@),
{
    let characters = chars(text);
    let mut index: usize = 0;
    while index < characters.len()
        invariant
            index <= characters@.len(),
            characters@ == text@,
            forall|i: int|
                0 <= i < index && #[trigger] text@[i] == '_' ==> 0 < i && i + 1 < text@.len()
                    && numeral::is_digit(text@[i - 1]) && numeral::is_digit(text@[i + 1]),
        decreases characters@.len() - index,
    {
        if characters[index] == '_' {
            let between = index > 0 && index < characters.len() - 1 && is_digit(
                characters[index - 1],
            ) && is_digit(characters[index + 1]);
            if !between {
                assert(text@[index as int] == '_');
                return false;
            }
        }
        index += 1;
    }
    true
}

/// The text that is read as a number.
pub fn clean(text: &str) -> (result: String)
    ensures
        result@ == cleaned(text@),
{
    replace(trim(text).as_str(), "_", "")
}

/// The finite number that a value writes.
pub fn numeric(value: &Json, readings: &Readings) -> (result: Result<Reading, String>)
    ensures
        match result {
            Ok(reading) => numeric_reading(value@, readings@) == Ok::<ReadingView, Seq<char>>(
                reading@,
            ),
            Err(error) => numeric_reading(value@, readings@) == Err::<ReadingView, Seq<char>>(
                error@,
            ),
        },
{
    let reading = match value {
        Json::Bool(held) => {
            let number = Number::of(
                if *held {
                    1
                } else {
                    0
                },
            );
            assert(number::integer_reading(1).value.finite()) by {
                reveal_with_fuel(number::doublings, 54);
                reveal_with_fuel(number::scaled, 54);
            }
            match number {
                Number::Integer(_, Some(reading)) => reading,
                _ => {
                    return Err("invalid number".to_owned());
                },
            }
        },
        Json::Number(held) => match held.reading() {
            Some(reading) => reading.clone(),
            None => {
                return Err("invalid number".to_owned());
            },
        },
        Json::Text(held) => {
            if !well_separated(trim(held.as_str()).as_str()) {
                return Err("invalid numeric separator".to_owned());
            }
            match readings.read(clean(held.as_str()).as_str()) {
                None => {
                    return Err("invalid numeric string".to_owned());
                },
                Some(None) => {
                    return Err("nonfinite number".to_owned());
                },
                Some(Some(reading)) => reading,
            }
        },
        _ => {
            return Err("expected number".to_owned());
        },
    };
    if reading.value.is_finite() {
        Ok(reading)
    } else {
        Err("nonfinite number".to_owned())
    }
}

/// The integer that a value writes.
fn integer(value: &Json, readings: &Readings) -> (result: Result<Json, Refusal>)
    ensures
        refusal::verdict(result) == integer_value(value@, readings@),
{
    match value {
        Json::Text(held) => {
            if has(held.as_str(), 'e') || has(held.as_str(), 'E') {
                return Err(Refusal::of("expected integer string"));
            }
        },
        Json::Number(Number::Integer(_, _)) => {
            return Ok(value.clone());
        },
        _ => {},
    }
    match numeric(value, readings) {
        Err(error) => Err(Refusal::Text(error)),
        Ok(reading) => if reading.fractional {
            Err(Refusal::of("expected integer"))
        } else {
            match reading.whole {
                None => Err(Refusal::of("integer out of range")),
                Some(whole) => if 0 <= whole && whole <= EXACT as i128 {
                    Ok(Json::Number(Number::of(whole as u64)))
                } else {
                    Ok(Json::Number(Number::Integer(whole, Some(reading))))
                },
            }
        },
    }
}

/// Whether every field of `input` is one of `properties`.
fn are_known(input: &Vec<(String, Json)>, properties: &Json) -> (known: bool)
    requires
        properties@ is Object,
    ensures
        known == all_known(json::fields_view(input@), properties@->Object_0),
{
    let ghost all = json::fields_view(input@);
    let mut index: usize = 0;
    while index < input.len()
        invariant
            index <= input@.len(),
            all == json::fields_view(input@),
            properties@ is Object,
            forall|i: int|
                0 <= i < index ==> json::field(properties@->Object_0, (#[trigger] all[i]).0) is Some,
        decreases input@.len() - index,
    {
        assert(all[index as int].0 == input@[index as int].0@);
        if properties.get(input[index].0.as_str()).is_none() {
            return false;
        }
        index += 1;
    }
    true
}

/// The properties read from `input`.
fn read_properties(
    value: &Json,
    properties: &Vec<(String, Json)>,
    root: &Json,
    readings: &Readings,
    depth: usize,
) -> (result: Result<Fields, Refusal>)
    requires
        value@ is Object,
    ensures
        refusal::fields_verdict(result) == each_property(
            value@->Object_0,
            json::fields_view(properties@),
            rule(root@, readings@, depth as nat),
            properties@.len() as int,
        ),
    decreases depth, 1nat,
{
    let ghost input = value@->Object_0;
    let ghost all = json::fields_view(properties@);
    let ghost how = rule(root@, readings@, depth as nat);
    let mut made = Fields::new();
    let mut index: usize = 0;
    while index < properties.len()
        invariant
            index <= properties@.len(),
            value@ is Object,
            input == value@->Object_0,
            all == json::fields_view(properties@),
            how == rule(root@, readings@, depth as nat),
            each_property(input, all, how, index as int) == FieldsVerdict::Ok(made@),
        decreases properties@.len() - index,
    {
        let name = properties[index].0.as_str();
        let part = &properties[index].1;
        assert(all[index as int] == (name@, part@));
        let read = match value.get(name) {
            Some(given) => match normalize(given, part, root, readings, depth) {
                Ok(read) => Ok(read),
                Err(Refusal::Depth) => Err(Refusal::Depth),
                Err(Refusal::Text(_)) => Err(Refusal::of(name)),
            },
            None => match part.get("default") {
                Some(given) => Ok(given.clone()),
                None => Err(Refusal::Text("missing field ".to_owned().concat(name))),
            },
        };
        match read {
            Ok(read) => {
                made.set(name, read);
            },
            Err(refusal) => {
                proof {
                    lemma_property_refused(input, all, how, index as int, all.len() as int);
                }
                return Err(refusal);
            },
        }
        index += 1;
    }
    Ok(made)
}

/// A refused property decides.
proof fn lemma_property_refused(
    input: Seq<FieldView>,
    properties: Seq<FieldView>,
    how: Rule,
    index: int,
    end: int,
)
    requires
        0 <= index < end,
        each_property(input, properties, how, index + 1) is Err,
    ensures
        each_property(input, properties, how, end) == each_property(
            input,
            properties,
            how,
            index + 1,
        ),
    decreases end,
{
    if end > index + 1 {
        lemma_property_refused(input, properties, how, index, end - 1);
    }
}

/// The items read by one schema.
fn read_items(
    list: &Vec<Json>,
    schema: &Json,
    root: &Json,
    readings: &Readings,
    depth: usize,
) -> (result: Result<Vec<Json>, Refusal>)
    ensures
        refusal::items_verdict(result) == strict::each_item(
            json::items_view(list@),
            item_rule(schema@, rule(root@, readings@, depth as nat)),
        ),
    decreases depth, 1nat,
{
    let ghost all = json::items_view(list@);
    let ghost how = item_rule(schema@, rule(root@, readings@, depth as nat));
    let mut made: Vec<Json> = Vec::new();
    let mut index: usize = 0;
    assert(json::items_view(made@) =~= Seq::<JsonView>::empty());
    while index < list.len()
        invariant
            index <= list@.len(),
            all == json::items_view(list@),
            how == item_rule(schema@, rule(root@, readings@, depth as nat)),
            strict::each_item(all.take(index as int), how) == Ok::<Seq<JsonView>, RefusalView>(
                json::items_view(made@),
            ),
        decreases list@.len() - index,
    {
        proof {
            assert(all.take(index + 1).drop_last() =~= all.take(index as int));
            assert(all.take(index + 1).last() == all[index as int]);
        }
        match normalize(&list[index], schema, root, readings, depth) {
            Ok(item) => {
                proof {
                    json::lemma_items_push(made@, item);
                }
                made.push(item);
            },
            Err(refusal) => {
                proof {
                    strict::lemma_item_refused(all, how, index as int);
                }
                return Err(refusal);
            },
        }
        index += 1;
    }
    assert(all.take(index as int) =~= all);
    Ok(made)
}

/// The first of the alternatives that takes the value.
fn read_choice(
    value: &Json,
    choices: &Vec<Json>,
    root: &Json,
    readings: &Readings,
    depth: usize,
) -> (result: Result<Json, Refusal>)
    ensures
        refusal::verdict(result) == first_choice(
            value@,
            json::items_view(choices@),
            rule(root@, readings@, depth as nat),
            0,
        ),
    decreases depth, 1nat,
{
    let ghost all = json::items_view(choices@);
    let ghost how = rule(root@, readings@, depth as nat);
    let mut index: usize = 0;
    while index < choices.len()
        invariant
            index <= choices@.len(),
            all == json::items_view(choices@),
            how == rule(root@, readings@, depth as nat),
            first_choice(value@, all, how, 0) == first_choice(value@, all, how, index as int),
        decreases choices@.len() - index,
    {
        assert(all[index as int] == choices@[index as int]@);
        match normalize(value, &choices[index], root, readings, depth) {
            Ok(read) => {
                return Ok(read);
            },
            Err(Refusal::Depth) => {
                return Err(Refusal::Depth);
            },
            Err(Refusal::Text(_)) => {},
        }
        index += 1;
    }
    Err(Refusal::of("value does not match any schema alternative"))
}

/// Whether `value` equals one of `allowed`.
fn allows(allowed: &Vec<Json>, value: &Json) -> (found: bool)
    ensures
        found == is_allowed(json::items_view(allowed@), value@),
{
    let ghost all = json::items_view(allowed@);
    let mut index: usize = 0;
    while index < allowed.len()
        invariant
            index <= allowed@.len(),
            all == json::items_view(allowed@),
            forall|i: int| 0 <= i < index ==> !(#[trigger] all[i]).equals(value@),
        decreases allowed@.len() - index,
    {
        if allowed[index].equals(value) {
            assert(all[index as int].equals(value@));
            return true;
        }
        index += 1;
    }
    false
}

/// Refuses a value that was read but lies outside the limits of the schema.
fn check_limits(value: &Json, schema: &Json) -> (checked: Result<(), String>)
    ensures
        match checked {
            Ok(_) => out_of_limits(value@, schema@) is None,
            Err(error) => out_of_limits(value@, schema@) == Some(error@),
        },
{
    broadcast use json::array_view;

    if let Some(allowed) = schema.at("enum").items() {
        if !allows(allowed, value) {
            return Err("unknown enum value".to_owned());
        }
    }
    if let Some(number) = value.reading() {
        if let Some(minimum) = schema.at("minimum").reading() {
            if number.value.rank < minimum.value.rank {
                return Err("number below minimum".to_owned());
            }
        }
        if let Some(maximum) = schema.at("maximum").reading() {
            if number.value.rank > maximum.value.rank {
                return Err("number above maximum".to_owned());
            }
        }
    }
    Ok(())
}

/// The value that is written, by the type of the schema.
fn read_typed(value: &Json, schema: &Json, root: &Json, readings: &Readings, depth: usize) -> (result:
    Result<Json, Refusal>)
    ensures
        refusal::verdict(result) == typed(
            value@,
            schema@,
            readings@,
            rule(root@, readings@, depth as nat),
        ),
    decreases depth, 2nat,
{
    broadcast use {json::array_view, json::object_view};

    let kind = match schema.at("type").text() {
        None => {
            return Err(Refusal::of("schema type"));
        },
        Some(kind) => kind,
    };
    if same(kind, "object") {
        match value {
            Json::Object(input) => {
                let properties = schema.at("properties");
                match properties {
                    Json::Object(list) => {
                        if schema.at("additionalProperties").is_false() && !are_known(
                            input,
                            properties,
                        ) {
                            return Err(Refusal::of("unexpected field"));
                        }
                        match read_properties(value, list, root, readings, depth) {
                            Ok(read) => Ok(read.object()),
                            Err(refusal) => Err(refusal),
                        }
                    },
                    _ => Err(Refusal::of("schema properties")),
                }
            },
            _ => Err(Refusal::of("expected object")),
        }
    } else if same(kind, "array") {
        match value {
            Json::Array(list) => match read_items(list, schema.at("items"), root, readings, depth) {
                Ok(read) => Ok(Json::Array(read)),
                Err(refusal) => Err(refusal),
            },
            _ => Err(Refusal::of("expected array")),
        }
    } else if same(kind, "string") {
        match value {
            Json::Text(_) => Ok(value.clone()),
            _ => Err(Refusal::of("expected string")),
        }
    } else if same(kind, "boolean") {
        match boolean(value) {
            Some(held) => Ok(Json::Bool(held)),
            None => Err(Refusal::of("expected boolean")),
        }
    } else if same(kind, "integer") {
        integer(value, readings)
    } else if same(kind, "number") {
        match numeric(value, readings) {
            Ok(reading) => Ok(Json::Number(Number::Decimal(reading))),
            Err(error) => Err(Refusal::Text(error)),
        }
    } else if same(kind, "null") {
        if value.is_null() {
            Ok(Json::Null)
        } else {
            Err(Refusal::of("expected null"))
        }
    } else {
        Err(Refusal::Text("unsupported schema type ".to_owned().concat(kind)))
    }
}

/// A value read by a schema, with references into `root`, down to `depth` levels.
pub fn normalize(value: &Json, schema: &Json, root: &Json, readings: &Readings, depth: usize) -> (result:
    Result<Json, Refusal>)
    ensures
        refusal::verdict(result) == normal(value@, schema@, root@, readings@, depth as nat),
    decreases depth, 0nat,
{
    broadcast use json::array_view;

    if depth == 0 {
        return Err(Refusal::Depth);
    }
    if let Some(reference) = schema.at("$ref").text() {
        return match pointer::pointer(root, strip(reference, '#').as_str()) {
            None => Err(Refusal::of("schema reference")),
            Some(target) => normalize(value, target, root, readings, depth - 1),
        };
    }
    if let Some(choices) = schema.at("anyOf").items() {
        return read_choice(value, choices, root, readings, depth - 1);
    }
    match read_typed(value, schema, root, readings, depth - 1) {
        Err(refusal) => Err(refusal),
        Ok(read) => match check_limits(&read, schema) {
            Ok(_) => Ok(read),
            Err(error) => Err(Refusal::Text(error)),
        },
    }
}

/// Whether one rule gives what the other does wherever it does not fall short of depth.
spec fn within(shallow: Rule, deep: Rule) -> bool {
    forall|value: JsonView, schema: JsonView|
        refusal::stands(#[trigger] shallow(value, schema), deep(value, schema))
}

proof fn lemma_properties_within(
    input: Seq<FieldView>,
    properties: Seq<FieldView>,
    shallow: Rule,
    deep: Rule,
    end: int,
)
    requires
        within(shallow, deep),
    ensures
        each_property(input, properties, shallow, end) == FieldsVerdict::Err(RefusalView::Depth)
            || each_property(input, properties, shallow, end) == each_property(
            input,
            properties,
            deep,
            end,
        ),
    decreases end,
{
    if end > 0 {
        lemma_properties_within(input, properties, shallow, deep, end - 1);
        if let Some(value) = json::field(input, properties[end - 1].0) {
            let part = properties[end - 1].1;
            assert(refusal::stands(shallow(value, part), deep(value, part)));
        }
    }
}

proof fn lemma_choice_within(
    value: JsonView,
    choices: Seq<JsonView>,
    shallow: Rule,
    deep: Rule,
    from: int,
)
    requires
        within(shallow, deep),
    ensures
        refusal::stands(
            first_choice(value, choices, shallow, from),
            first_choice(value, choices, deep, from),
        ),
    decreases choices.len() - from,
{
    if from < choices.len() {
        assert(refusal::stands(shallow(value, choices[from]), deep(value, choices[from])));
        lemma_choice_within(value, choices, shallow, deep, from + 1);
    }
}

proof fn lemma_once_within(
    value: JsonView,
    schema: JsonView,
    root: JsonView,
    readings: ReadingsView,
    shallow: Rule,
    deep: Rule,
)
    requires
        within(shallow, deep),
    ensures
        refusal::stands(
            normal_once(value, schema, root, readings, shallow),
            normal_once(value, schema, root, readings, deep),
        ),
{
    match (schema.at("$ref"@), schema.at("anyOf"@)) {
        (JsonView::Text(reference), _) => {
            if let Some(target) = pointer::pointed(root, pointer::stripped(reference, '#')) {
                assert(refusal::stands(shallow(value, target), deep(value, target)));
            }
        },
        (_, JsonView::Array(choices)) => {
            lemma_choice_within(value, choices, shallow, deep, 0);
        },
        _ => {
            match value {
                JsonView::Object(input) => {
                    if let JsonView::Object(properties) = schema.at("properties"@) {
                        lemma_properties_within(
                            input,
                            properties,
                            shallow,
                            deep,
                            properties.len() as int,
                        );
                    }
                },
                JsonView::Array(items) => {
                    let part = schema.at("items"@);
                    let left = item_rule(part, shallow);
                    let right = item_rule(part, deep);
                    assert forall|item: JsonView| refusal::stands(#[trigger] left(item), right(item)) by {
                        assert(refusal::stands(shallow(item, part), deep(item, part)));
                    }
                    strict::lemma_items_within(items, left, right);
                },
                _ => {},
            }
        },
    }
}

/// The depth that is allowed does not change how a value is read once it suffices.
pub proof fn reading_depth_is_no_matter(
    value: JsonView,
    schema: JsonView,
    root: JsonView,
    readings: ReadingsView,
    depth: nat,
    deeper: nat,
)
    requires
        depth <= deeper,
    ensures
        refusal::stands(
            normal(value, schema, root, readings, depth),
            normal(value, schema, root, readings, deeper),
        ),
    decreases depth,
{
    if depth > 0 {
        let shallow = rule(root, readings, (depth - 1) as nat);
        let deep = rule(root, readings, (deeper - 1) as nat);
        assert forall|value: JsonView, schema: JsonView|
            refusal::stands(#[trigger] shallow(value, schema), deep(value, schema)) by {
            reading_depth_is_no_matter(
                value,
                schema,
                root,
                readings,
                (depth - 1) as nat,
                (deeper - 1) as nat,
            );
        }
        lemma_once_within(value, schema, root, readings, shallow, deep);
    }
}

/// What is read by a schema that refers to no other and offers no choice lies within its limits.
pub proof fn reading_keeps_limits(
    value: JsonView,
    schema: JsonView,
    root: JsonView,
    readings: ReadingsView,
    depth: nat,
)
    requires
        !(schema.at("$ref"@) is Text),
        !(schema.at("anyOf"@) is Array),
    ensures
        normal(value, schema, root, readings, depth) matches Ok(read) ==> {
            &&& schema.at("enum"@) matches JsonView::Array(allowed) ==> is_allowed(allowed, read)
            &&& read.reading() matches Some(number) ==> {
                &&& schema.at("minimum"@).reading() matches Some(minimum) ==> number.value.rank
                    >= minimum.value.rank
                &&& schema.at("maximum"@).reading() matches Some(maximum) ==> number.value.rank
                    <= maximum.value.rank
            }
        },
{
}

} // verus!
