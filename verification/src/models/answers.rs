//! How answers are read: what each type of value accepts, and what is made of it.
use crate::json;
use crate::json::{FieldView, JsonView};
use crate::models::normalize;
use crate::models::refusal::RefusalView;
use crate::models::roles;
use crate::models::strict;
use crate::number;
use crate::number::{NumberView, ReadingView, ReadingsView};
use crate::numeral;
use crate::pieces;
use crate::pointer;
use crate::text;
use crate::words;
use vstd::prelude::*;

verus! {

/// Whether a schema says itself what it admits: it neither refers to another nor offers a choice.
pub open spec fn decides(schema: JsonView) -> bool {
    !(schema.at("$ref"@) is Text) && !(schema.at("anyOf"@) is Array)
}

/// Whether a schema admits every value of its type.
pub open spec fn unlimited(schema: JsonView) -> bool {
    &&& !(schema.at("enum"@) is Array)
    &&& schema.at("minimum"@).reading() is None
    &&& schema.at("maximum"@).reading() is None
}

/// A refusal that is told.
pub open spec fn told(reason: Seq<char>) -> Result<JsonView, RefusalView> {
    Err(RefusalView::Text(reason))
}

/// A text is read where a text is asked for and nothing else is; the same holds of null. A truth
/// value is read from itself, and from the usual words for it in capital or small letters.
pub proof fn texts_and_truths_are_read(
    value: JsonView,
    schema: JsonView,
    root: JsonView,
    readings: ReadingsView,
    depth: nat,
)
    requires
        depth > 0,
        decides(schema),
        unlimited(schema),
    ensures
        ({
            let kind = schema.at("type"@);
            let read = normalize::normal(value, schema, root, readings, depth);
            let yes = value matches JsonView::Text(held) && {
                let word = words::lowered(held);
                word == "1"@ || word == "on"@ || word == "t"@ || word == "true"@ || word == "y"@
                    || word == "yes"@
            };
            let no = value matches JsonView::Text(held) && {
                let word = words::lowered(held);
                word == "0"@ || word == "off"@ || word == "f"@ || word == "false"@ || word == "n"@
                    || word == "no"@
            };
            &&& !(kind is Text) ==> read == told("schema type"@)
            &&& kind == JsonView::Text("string"@) ==> read == (if value is Text {
                Ok(value)
            } else {
                told("expected string"@)
            })
            &&& kind == JsonView::Text("null"@) ==> read == (if value == JsonView::Null {
                Ok(JsonView::Null)
            } else {
                told("expected null"@)
            })
            &&& kind == JsonView::Text("boolean"@) ==> {
                &&& value is Bool ==> read == Ok::<JsonView, RefusalView>(value)
                &&& yes ==> read == Ok::<JsonView, RefusalView>(JsonView::Bool(true))
                &&& no ==> read == Ok::<JsonView, RefusalView>(JsonView::Bool(false))
                &&& value is Text && !yes && !no ==> read == told("expected boolean"@)
                &&& value is Null || value is Array || value is Object ==> read == told(
                    "expected boolean"@,
                )
                &&& value.reading() matches Some(number) ==> {
                    &&& number.value.rank == 0 ==> read == Ok::<JsonView, RefusalView>(
                        JsonView::Bool(false),
                    )
                    &&& number.value.rank == 0x3ff0_0000_0000_0000 ==> read == Ok::<
                        JsonView,
                        RefusalView,
                    >(JsonView::Bool(true))
                    &&& number.value.rank != 0 && number.value.rank != 0x3ff0_0000_0000_0000
                        ==> read == told("expected boolean"@)
                }
            }
        }),
{
    reveal_strlit("object");
    reveal_strlit("array");
    reveal_strlit("string");
    reveal_strlit("boolean");
    reveal_strlit("integer");
    reveal_strlit("number");
    reveal_strlit("null");
    assert("object"@[0] != "string"@[0]);
    assert("object"@[0] != "number"@[0]);
    assert("string"@[0] != "number"@[0]);
    assert("boolean"@[0] != "integer"@[0]);
    assert("object"@.len() == 6);
    assert("array"@.len() == 5);
    assert("string"@.len() == 6);
    assert("boolean"@.len() == 7);
    assert("integer"@.len() == 7);
    assert("number"@.len() == 6);
    assert("null"@.len() == 4);
    reveal_strlit("0");
    reveal_strlit("off");
    reveal_strlit("f");
    reveal_strlit("false");
    reveal_strlit("n");
    reveal_strlit("no");
    reveal_strlit("1");
    reveal_strlit("on");
    reveal_strlit("t");
    reveal_strlit("true");
    reveal_strlit("y");
    reveal_strlit("yes");
    assert("0"@[0] != "f"@[0]);
    assert("0"@[0] != "n"@[0]);
    assert("0"@[0] != "1"@[0]);
    assert("0"@[0] != "t"@[0]);
    assert("0"@[0] != "y"@[0]);
    assert("off"@[0] != "yes"@[0]);
    assert("f"@[0] != "n"@[0]);
    assert("f"@[0] != "1"@[0]);
    assert("f"@[0] != "t"@[0]);
    assert("f"@[0] != "y"@[0]);
    assert("n"@[0] != "1"@[0]);
    assert("n"@[0] != "t"@[0]);
    assert("n"@[0] != "y"@[0]);
    assert("no"@[0] != "on"@[0]);
    assert("1"@[0] != "t"@[0]);
    assert("1"@[0] != "y"@[0]);
    assert("t"@[0] != "y"@[0]);
    assert("0"@.len() == 1);
    assert("off"@.len() == 3);
    assert("f"@.len() == 1);
    assert("false"@.len() == 5);
    assert("n"@.len() == 1);
    assert("no"@.len() == 2);
    assert("1"@.len() == 1);
    assert("on"@.len() == 2);
    assert("t"@.len() == 1);
    assert("true"@.len() == 4);
    assert("y"@.len() == 1);
    assert("yes"@.len() == 3);
}

/// A finite number is read where a number is asked for, and a whole one where an integer is; an
/// integer stays as it is.
pub proof fn numbers_are_read(
    held: NumberView,
    schema: JsonView,
    root: JsonView,
    readings: ReadingsView,
    depth: nat,
)
    requires
        depth > 0,
        decides(schema),
        unlimited(schema),
    ensures
        ({
            let kind = schema.at("type"@);
            let read = normalize::normal(JsonView::Number(held), schema, root, readings, depth);
            &&& kind == JsonView::Text("number"@) ==> match held.reading() {
                None => read == told("invalid number"@),
                Some(reading) => if -0x7ff0_0000_0000_0000 < reading.value.rank
                    < 0x7ff0_0000_0000_0000 {
                    read == Ok::<JsonView, RefusalView>(
                        JsonView::Number(NumberView::Decimal(reading)),
                    )
                } else {
                    read == told("nonfinite number"@)
                },
            }
            &&& kind == JsonView::Text("integer"@) ==> match held {
                NumberView::Integer(_, _) => read == Ok::<JsonView, RefusalView>(
                    JsonView::Number(held),
                ),
                NumberView::Decimal(reading) => if !(-0x7ff0_0000_0000_0000 < reading.value.rank
                    < 0x7ff0_0000_0000_0000) {
                    read == told("nonfinite number"@)
                } else if reading.fractional {
                    read == told("expected integer"@)
                } else {
                    match reading.whole {
                        None => read == told("integer out of range"@),
                        Some(whole) => whole_is(read, whole),
                    }
                },
            }
        }),
{
    reveal_strlit("object");
    reveal_strlit("array");
    reveal_strlit("string");
    reveal_strlit("boolean");
    reveal_strlit("integer");
    reveal_strlit("number");
    reveal_strlit("null");
    assert("object"@[0] != "string"@[0]);
    assert("object"@[0] != "number"@[0]);
    assert("string"@[0] != "number"@[0]);
    assert("boolean"@[0] != "integer"@[0]);
    assert("object"@.len() == 6);
    assert("array"@.len() == 5);
    assert("string"@.len() == 6);
    assert("boolean"@.len() == 7);
    assert("integer"@.len() == 7);
    assert("number"@.len() == 6);
    assert("null"@.len() == 4);
}

/// Whether the integer `whole` was read.
pub open spec fn whole_is(read: Result<JsonView, RefusalView>, whole: i128) -> bool {
    &&& read is Ok
    &&& read->Ok_0 matches JsonView::Number(NumberView::Integer(value, _))
    &&& value == whole
}

/// A value that is no number, text or truth value is neither a number nor an integer; a text with
/// an exponent is no integer.
pub proof fn other_values_are_no_numbers(
    value: JsonView,
    schema: JsonView,
    root: JsonView,
    readings: ReadingsView,
    depth: nat,
)
    requires
        depth > 0,
        decides(schema),
        unlimited(schema),
    ensures
        ({
            let kind = schema.at("type"@);
            let read = normalize::normal(value, schema, root, readings, depth);
            let other = value is Null || value is Array || value is Object;
            &&& other && (kind == JsonView::Text("number"@) || kind == JsonView::Text("integer"@))
                ==> read == told("expected number"@)
            &&& kind == JsonView::Text("integer"@) && value is Text && (value->Text_0.contains('e')
                || value->Text_0.contains('E')) ==> read == told("expected integer string"@)
            &&& kind == JsonView::Text("object"@) && !(value is Object) ==> read == told(
                "expected object"@,
            )
            &&& kind == JsonView::Text("array"@) && !(value is Array) ==> read == told(
                "expected array"@,
            )
        }),
{
    reveal_strlit("object");
    reveal_strlit("array");
    reveal_strlit("string");
    reveal_strlit("boolean");
    reveal_strlit("integer");
    reveal_strlit("number");
    reveal_strlit("null");
    assert("object"@[0] != "string"@[0]);
    assert("object"@[0] != "number"@[0]);
    assert("string"@[0] != "number"@[0]);
    assert("boolean"@[0] != "integer"@[0]);
    assert("object"@.len() == 6);
    assert("array"@.len() == 5);
    assert("string"@.len() == 6);
    assert("boolean"@.len() == 7);
    assert("integer"@.len() == 7);
    assert("number"@.len() == 6);
    assert("null"@.len() == 4);
}

/// A value lies within a schema's limits exactly if it is one of the values that the schema lists,
/// where it lists any, and, where it is a number, neither below the minimum nor above the maximum.
pub proof fn limits_are_kept(value: JsonView, schema: JsonView)
    ensures
        ({
            let listed = schema.at("enum"@) matches JsonView::Array(allowed) ==> exists|i: int|
                0 <= i < allowed.len() && (#[trigger] allowed[i]).equals(value);
            let low = value.reading() is Some && schema.at("minimum"@).reading() is Some
                && value.reading()->Some_0.value.rank < schema.at(
                "minimum"@,
            ).reading()->Some_0.value.rank;
            let high = value.reading() is Some && schema.at("maximum"@).reading() is Some
                && value.reading()->Some_0.value.rank > schema.at(
                "maximum"@,
            ).reading()->Some_0.value.rank;
            let why = normalize::out_of_limits(value, schema);
            &&& why is None <==> listed && !low && !high
            &&& !listed ==> why == Some("unknown enum value"@)
            &&& listed && low ==> why == Some("number below minimum"@)
            &&& listed && !low && high ==> why == Some("number above maximum"@)
        }),
{
}

/// What is read by a schema lies within its limits, or is refused by them.
pub proof fn readings_outside_the_limits_are_refused(
    held: Seq<char>,
    schema: JsonView,
    root: JsonView,
    readings: ReadingsView,
    depth: nat,
)
    requires
        depth > 0,
        decides(schema),
        schema.at("type"@) == JsonView::Text("string"@),
    ensures
        ({
            let read = normalize::normal(JsonView::Text(held), schema, root, readings, depth);
            let listed = schema.at("enum"@) matches JsonView::Array(allowed) ==> exists|i: int|
                0 <= i < allowed.len() && (#[trigger] allowed[i]).equals(JsonView::Text(held));
            &&& listed ==> read == Ok::<JsonView, RefusalView>(JsonView::Text(held))
            &&& !listed ==> read == told("unknown enum value"@)
        }),
{
    reveal_strlit("object");
    reveal_strlit("array");
    reveal_strlit("string");
    reveal_strlit("boolean");
    reveal_strlit("integer");
    reveal_strlit("number");
    reveal_strlit("null");
    assert("object"@[0] != "string"@[0]);
    assert("object"@[0] != "number"@[0]);
    assert("string"@[0] != "number"@[0]);
    assert("boolean"@[0] != "integer"@[0]);
    assert("object"@.len() == 6);
    assert("array"@.len() == 5);
    assert("string"@.len() == 6);
    assert("boolean"@.len() == 7);
    assert("integer"@.len() == 7);
    assert("number"@.len() == 6);
    assert("null"@.len() == 4);
}

/// A schema that refers to another reads as that one does.
pub proof fn references_are_followed(
    value: JsonView,
    schema: JsonView,
    root: JsonView,
    readings: ReadingsView,
    depth: nat,
    path: Seq<char>,
)
    requires
        schema.at("$ref"@) == JsonView::Text("#"@ + path),
        path.len() == 0 || path[0] != '#',
    ensures
        normalize::normal(value, schema, root, readings, depth + 1) == match pointer::pointed(
            root,
            path,
        ) {
            None => told("schema reference"@),
            Some(target) => normalize::normal(value, target, root, readings, depth),
        },
{
    reveal_strlit("#");
    let whole = "#"@ + path;
    assert(whole.skip(1) =~= path);
    assert(whole[0] == '#');
    if path.len() > 0 {
        assert(path[0] != '#');
    }
    reveal_with_fuel(pointer::stripped, 3);
    assert(pointer::stripped(whole, '#') =~= path);
}

/// Of the alternatives the first that takes the value reads it; where all refuse it, it is refused.
pub proof fn first_alternatives_decide(
    value: JsonView,
    schema: JsonView,
    root: JsonView,
    readings: ReadingsView,
    depth: nat,
    choices: Seq<JsonView>,
    at: int,
)
    requires
        !(schema.at("$ref"@) is Text),
        schema.at("anyOf"@) == JsonView::Array(choices),
        0 <= at <= choices.len(),
        forall|i: int|
            0 <= i < at ==> normalize::normal(value, #[trigger] choices[i], root, readings, depth)
                matches Err(RefusalView::Text(_)),
        at < choices.len() ==> normalize::normal(value, choices[at], root, readings, depth) is Ok,
    ensures
        normalize::normal(value, schema, root, readings, depth + 1) == (if at < choices.len() {
            normalize::normal(value, choices[at], root, readings, depth)
        } else {
            told("value does not match any schema alternative"@)
        }),
{
    lemma_choices(value, choices, normalize::rule(root, readings, depth), 0, at);
}

proof fn lemma_choices(
    value: JsonView,
    choices: Seq<JsonView>,
    how: normalize::Rule,
    from: int,
    at: int,
)
    requires
        0 <= from <= at <= choices.len(),
        forall|i: int|
            from <= i < at ==> how(value, #[trigger] choices[i]) matches Err(RefusalView::Text(_)),
        at < choices.len() ==> how(value, choices[at]) is Ok,
    ensures
        normalize::first_choice(value, choices, how, from) == (if at < choices.len() {
            how(value, choices[at])
        } else {
            told("value does not match any schema alternative"@)
        }),
    decreases at - from,
{
    if from < at {
        assert(how(value, choices[from]) matches Err(RefusalView::Text(_)));
        lemma_choices(value, choices, how, from + 1, at);
    }
}

/// An array is read item by item, by the schema of its items: it has as many as were given.
pub proof fn items_are_read(
    items: Seq<JsonView>,
    schema: JsonView,
    root: JsonView,
    readings: ReadingsView,
    depth: nat,
    at: int,
)
    requires
        decides(schema),
        unlimited(schema),
        schema.at("type"@) == JsonView::Text("array"@),
        0 <= at < items.len(),
    ensures
        ({
            let part = schema.at("items"@);
            let item = normalize::normal(items[at], part, root, readings, depth);
            match normalize::normal(JsonView::Array(items), schema, root, readings, depth + 1) {
                Ok(read) => {
                    &&& read matches JsonView::Array(list)
                    &&& list.len() == items.len()
                    &&& item == Ok::<JsonView, RefusalView>(list[at])
                },
                Err(_) => exists|i: int|
                    0 <= i < items.len() && normalize::normal(
                        #[trigger] items[i],
                        part,
                        root,
                        readings,
                        depth,
                    ) is Err,
            }
        }),
{
    reveal_strlit("object");
    reveal_strlit("array");
    reveal_strlit("string");
    reveal_strlit("boolean");
    reveal_strlit("integer");
    reveal_strlit("number");
    reveal_strlit("null");
    assert("object"@[0] != "string"@[0]);
    assert("object"@[0] != "number"@[0]);
    assert("string"@[0] != "number"@[0]);
    assert("boolean"@[0] != "integer"@[0]);
    assert("object"@.len() == 6);
    assert("array"@.len() == 5);
    assert("string"@.len() == 6);
    assert("boolean"@.len() == 7);
    assert("integer"@.len() == 7);
    assert("number"@.len() == 6);
    assert("null"@.len() == 4);
    let part = schema.at("items"@);
    let how = normalize::item_rule(part, normalize::rule(root, readings, depth));
    lemma_items(items, how);
    let list = strict::each_item(items, how);
    match list {
        Ok(list) => {
            assert(how(items[at]) == Ok::<JsonView, RefusalView>(list[at]));
        },
        Err(_) => {
            let i = choose|i: int| 0 <= i < items.len() && how(#[trigger] items[i]) is Err;
            assert(normalize::normal(items[i], part, root, readings, depth) is Err);
        },
    }
}

proof fn lemma_items(items: Seq<JsonView>, how: strict::Rule)
    ensures
        match strict::each_item(items, how) {
            Ok(list) => list.len() == items.len() && forall|i: int|
                0 <= i < items.len() ==> how(#[trigger] items[i]) == Ok::<JsonView, RefusalView>(
                    list[i],
                ),
            Err(_) => exists|i: int| 0 <= i < items.len() && how(#[trigger] items[i]) is Err,
        },
    decreases items.len(),
{
    if items.len() > 0 {
        let before = items.drop_last();
        lemma_items(before, how);
        match strict::each_item(before, how) {
            Ok(list) => {
                assert forall|i: int| 0 <= i < before.len() implies how(#[trigger] items[i]) == Ok::<
                    JsonView,
                    RefusalView,
                >(list[i]) by {
                    assert(before[i] == items[i]);
                }
            },
            Err(_) => {
                let i = choose|i: int| 0 <= i < before.len() && how(#[trigger] before[i]) is Err;
                assert(items[i] == before[i]);
            },
        }
    }
}

/// An object is refused if it has a field that its schema neither names nor admits. Of any other
/// that is read, each property is what the field of its name reads as, or the property's default
/// where there is no such field.
pub proof fn properties_are_read(
    input: Seq<FieldView>,
    properties: Seq<FieldView>,
    schema: JsonView,
    root: JsonView,
    readings: ReadingsView,
    depth: nat,
    at: int,
)
    requires
        decides(schema),
        unlimited(schema),
        schema.at("type"@) == JsonView::Text("object"@),
        schema.at("properties"@) == JsonView::Object(properties),
        0 <= at < properties.len(),
        forall|i: int, j: int|
            0 <= i < j < properties.len() ==> #[trigger] properties[i].0
                != #[trigger] properties[j].0,
    ensures
        ({
            let strange = exists|i: int|
                0 <= i < input.len() && JsonView::Object(properties).get(
                    (#[trigger] input[i]).0,
                ) is None;
            let closed = schema.at("additionalProperties"@) == JsonView::Bool(false);
            let name = properties[at].0;
            let part = properties[at].1;
            let result = normalize::normal(
                JsonView::Object(input),
                schema,
                root,
                readings,
                depth + 1,
            );
            &&& closed && strange ==> result == told("unexpected field"@)
            &&& result matches Ok(read) ==> {
                &&& !(closed && strange)
                &&& match JsonView::Object(input).get(name) {
                    Some(given) => normalize::normal(given, part, root, readings, depth) == Ok::<
                        JsonView,
                        RefusalView,
                    >(read.at(name)),
                    None => part.get("default"@) == Some(read.at(name)),
                }
            }
        }),
{
    reveal_strlit("object");
    reveal_strlit("array");
    reveal_strlit("string");
    reveal_strlit("boolean");
    reveal_strlit("integer");
    reveal_strlit("number");
    reveal_strlit("null");
    assert("object"@[0] != "string"@[0]);
    assert("object"@[0] != "number"@[0]);
    assert("string"@[0] != "number"@[0]);
    assert("boolean"@[0] != "integer"@[0]);
    assert("object"@.len() == 6);
    assert("array"@.len() == 5);
    assert("string"@.len() == 6);
    assert("boolean"@.len() == 7);
    assert("integer"@.len() == 7);
    assert("number"@.len() == 6);
    assert("null"@.len() == 4);
    let how = normalize::rule(root, readings, depth);
    lemma_properties(input, properties, how, properties.len() as int);
    if normalize::all_known(input, properties) {
        assert forall|i: int| 0 <= i < input.len() implies JsonView::Object(properties).get(
            (#[trigger] input[i]).0,
        ) is Some by {}
    }
}

proof fn lemma_properties(
    input: Seq<FieldView>,
    properties: Seq<FieldView>,
    how: normalize::Rule,
    end: int,
)
    requires
        0 <= end <= properties.len(),
        forall|i: int, j: int|
            0 <= i < j < properties.len() ==> #[trigger] properties[i].0
                != #[trigger] properties[j].0,
    ensures
        normalize::each_property(input, properties, how, end) matches Ok(fields) ==> forall|i: int|
            0 <= i < end ==> json::field(fields, (#[trigger] properties[i]).0) is Some
                && match json::field(input, properties[i].0) {
                Some(given) => how(given, properties[i].1) == Ok::<JsonView, RefusalView>(
                    json::field(fields, properties[i].0)->Some_0,
                ),
                None => properties[i].1.get("default"@) == json::field(fields, properties[i].0),
            },
    decreases end,
{
    if end > 0 {
        lemma_properties(input, properties, how, end - 1);
        if let Ok(before) = normalize::each_property(input, properties, how, end - 1) {
            if let Ok(fields) = normalize::each_property(input, properties, how, end) {
                let name = properties[end - 1].0;
                let value = json::field(fields, name);
                assert forall|i: int| 0 <= i < end - 1 implies json::field(
                    fields,
                    (#[trigger] properties[i]).0,
                ) == json::field(before, properties[i].0) by {
                    assert(properties[i].0 != properties[end - 1].0);
                    let put = match json::field(input, name) {
                        Some(given) => how(given, properties[end - 1].1)->Ok_0,
                        None => properties[end - 1].1.get("default"@)->Some_0,
                    };
                    json::lemma_with_field(before, name, put, properties[i].0);
                }
                let put = match json::field(input, name) {
                    Some(given) => how(given, properties[end - 1].1)->Ok_0,
                    None => properties[end - 1].1.get("default"@)->Some_0,
                };
                json::lemma_with_field(before, name, put, name);
            }
        }
    }
}

/// A field that is missing and has no default, and one that is refused, are told by their name: it
/// is the first such property.
pub proof fn refused_properties_are_named(
    input: Seq<FieldView>,
    properties: Seq<FieldView>,
    schema: JsonView,
    root: JsonView,
    readings: ReadingsView,
    depth: nat,
    name: Seq<char>,
    part: JsonView,
)
    requires
        decides(schema),
        schema.at("type"@) == JsonView::Text("object"@),
        schema.at("properties"@) == JsonView::Object(properties),
        properties.len() == 1,
        properties[0] == (name, part),
        schema.at("additionalProperties"@) != JsonView::Bool(false),
    ensures
        ({
            let result = normalize::normal(
                JsonView::Object(input),
                schema,
                root,
                readings,
                depth + 1,
            );
            match JsonView::Object(input).get(name) {
                Some(given) => match normalize::normal(given, part, root, readings, depth) {
                    Err(RefusalView::Text(_)) => result == told(name),
                    _ => true,
                },
                None => part.get("default"@) is None ==> result == told("missing field "@ + name),
            }
        }),
{
    reveal_strlit("object");
    reveal_strlit("array");
    reveal_strlit("string");
    reveal_strlit("boolean");
    reveal_strlit("integer");
    reveal_strlit("number");
    reveal_strlit("null");
    assert("object"@[0] != "string"@[0]);
    assert("object"@[0] != "number"@[0]);
    assert("string"@[0] != "number"@[0]);
    assert("boolean"@[0] != "integer"@[0]);
    assert("object"@.len() == 6);
    assert("array"@.len() == 5);
    assert("string"@.len() == 6);
    assert("boolean"@.len() == 7);
    assert("integer"@.len() == 7);
    assert("number"@.len() == 6);
    assert("null"@.len() == 4);
    reveal_with_fuel(normalize::each_property, 2);
}

/// An answer is read by the validation schema of its role; a role that is not known has none.
pub proof fn answers_are_read_by_their_role(
    models: JsonView,
    role: Seq<char>,
    value: JsonView,
    readings: ReadingsView,
    depth: nat,
)
    ensures
        ({
            let read = roles::validated(models, role, value, readings, depth);
            let schema = models.at(role).at("validation"@);
            &&& models.get(role) is None ==> read == told("unknown model role"@)
            &&& models.get(role) is Some ==> read == normalize::normal(
                value,
                schema,
                schema,
                readings,
                depth,
            )
        }),
{
}

/// Every role has the strict form of its validation schema, in their order.
pub proof fn every_role_is_made_strict(models: Seq<FieldView>, depth: nat, end: int, at: int)
    requires
        0 <= at < end <= models.len(),
    ensures
        ({
            let schema = models[at].1.at("validation"@);
            match roles::strict_roles(models, depth, end) {
                Ok(list) => {
                    &&& list.len() == end
                    &&& list[at].0 == models[at].0
                    &&& strict::strict(schema, schema, depth) == Ok::<JsonView, RefusalView>(
                        list[at].1,
                    )
                },
                Err(reason) => exists|i: int|
                    #![trigger models[i]]
                    {
                        let schema = models[i].1.at("validation"@);
                        &&& 0 <= i < end
                        &&& strict::strict(schema, schema, depth) is Err
                        &&& reason == "bundled "@ + models[i].0 + " schema must be strict: "@
                            + strict::strict(schema, schema, depth)->Err_0.message()
                    },
            }
        }),
    decreases end,
{
    lemma_roles(models, depth, end - 1);
    if at < end - 1 {
        every_role_is_made_strict(models, depth, end - 1, at);
    }
    lemma_roles(models, depth, end);
}

proof fn lemma_roles(models: Seq<FieldView>, depth: nat, end: int)
    requires
        0 <= end <= models.len(),
    ensures
        match roles::strict_roles(models, depth, end) {
            Ok(list) => list.len() == end,
            Err(reason) => exists|i: int|
                #![trigger models[i]]
                {
                    let schema = models[i].1.at("validation"@);
                    &&& 0 <= i < end
                    &&& strict::strict(schema, schema, depth) is Err
                    &&& reason == "bundled "@ + models[i].0 + " schema must be strict: "@
                        + strict::strict(schema, schema, depth)->Err_0.message()
                },
        },
    decreases end,
{
    if end > 0 {
        lemma_roles(models, depth, end - 1);
        let schema = models[end - 1].1.at("validation"@);
        assert(strict::strict(schema, schema, depth) == strict::strict(schema, schema, depth));
    }
}

/// Whether the character of `shown` at `index` is no underscore, or stands between two digits.
pub open spec fn well_placed(shown: Seq<char>, index: int) -> bool {
    shown[index] == '_' ==> 0 < index < shown.len() - 1 && 48 <= shown[index - 1] as u32 <= 57 && 48
        <= shown[index + 1] as u32 <= 57
}

proof fn lemma_separated(shown: Seq<char>)
    ensures
        normalize::separated(shown) <==> forall|i: int|
            0 <= i < shown.len() ==> #[trigger] well_placed(shown, i),
{
    if normalize::separated(shown) {
        assert forall|i: int| 0 <= i < shown.len() implies #[trigger] well_placed(shown, i) by {
            if shown[i] == '_' {
                assert(0 < i && i + 1 < shown.len());
            }
        }
    }
    if forall|i: int| 0 <= i < shown.len() ==> #[trigger] well_placed(shown, i) {
        assert forall|i: int| 0 <= i < shown.len() && #[trigger] shown[i] == '_' implies 0 < i && i
            + 1 < shown.len() && numeral::is_digit(shown[i - 1]) && numeral::is_digit(
            shown[i + 1],
        ) by {
            assert(well_placed(shown, i));
        }
    }
}

/// A text is read as the number that its characters write without the white space around them and
/// without the underscores between digits; a misplaced underscore, a text that writes no number and
/// a number beyond all others are refused.
pub proof fn written_numbers_are_read(
    held: Seq<char>,
    schema: JsonView,
    root: JsonView,
    readings: ReadingsView,
    depth: nat,
)
    requires
        depth > 0,
        decides(schema),
        unlimited(schema),
        schema.at("type"@) == JsonView::Text("number"@),
    ensures
        ({
            let shown = text::trimmed(held);
            let placed = forall|i: int| 0 <= i < shown.len() ==> #[trigger] well_placed(shown, i);
            let read = normalize::normal(JsonView::Text(held), schema, root, readings, depth);
            let found = number::read_from(readings, pieces::replaced(shown, "_"@, ""@));
            &&& !placed ==> read == told("invalid numeric separator"@)
            &&& placed && found is None ==> read == told("invalid numeric string"@)
            &&& placed && found == Some(None::<ReadingView>) ==> read == told("nonfinite number"@)
            &&& placed && found is Some && found->Some_0 is Some ==> {
                let reading = found->Some_0->Some_0;
                if -0x7ff0_0000_0000_0000 < reading.value.rank < 0x7ff0_0000_0000_0000 {
                    read == Ok::<JsonView, RefusalView>(
                        JsonView::Number(NumberView::Decimal(reading)),
                    )
                } else {
                    read == told("nonfinite number"@)
                }
            }
        }),
{
    reveal_strlit("object");
    reveal_strlit("array");
    reveal_strlit("string");
    reveal_strlit("boolean");
    reveal_strlit("integer");
    reveal_strlit("number");
    reveal_strlit("null");
    assert("object"@[0] != "string"@[0]);
    assert("object"@[0] != "number"@[0]);
    assert("string"@[0] != "number"@[0]);
    assert("boolean"@[0] != "integer"@[0]);
    assert("object"@.len() == 6);
    assert("array"@.len() == 5);
    assert("string"@.len() == 6);
    assert("boolean"@.len() == 7);
    assert("integer"@.len() == 7);
    assert("number"@.len() == 6);
    assert("null"@.len() == 4);
    lemma_separated(text::trimmed(held));
}

} // verus!
