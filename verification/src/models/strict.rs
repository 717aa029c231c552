//! Schemas in the strict form: every object closed, every property required, no defaults.
use crate::fields;
use crate::fields::Fields;
use crate::json;
use crate::json::{FieldView, Json, JsonView};
use crate::models::refusal;
use crate::models::refusal::{Refusal, RefusalView, Verdict};
use crate::pieces;
use crate::pointer;
use crate::pointer::strip;
use crate::text;
use crate::text::starts_with;
use vstd::prelude::*;

verus! {

/// How a part of a schema is made strict.
pub type Rule = spec_fn(JsonView) -> Verdict;

/// What becomes of fields.
pub type FieldsVerdict = Result<Seq<FieldView>, RefusalView>;

/// A refusal with the reason `text`.
pub open spec fn refused<T>(text: Seq<char>) -> Result<T, RefusalView> {
    Err(RefusalView::Text(text))
}

/// Every item made strict, unless one is refused.
pub open spec fn each_item(items: Seq<JsonView>, rule: Rule) -> Result<Seq<JsonView>, RefusalView>
    decreases items.len(),
{
    if items.len() == 0 {
        Ok(Seq::empty())
    } else {
        match each_item(items.drop_last(), rule) {
            Err(refusal) => Err(refusal),
            Ok(before) => match rule(items.last()) {
                Err(refusal) => Err(refusal),
                Ok(item) => Ok(before.push(item)),
            },
        }
    }
}

/// Every value of the fields made strict, unless one is refused.
pub open spec fn each_field(list: Seq<FieldView>, rule: Rule) -> FieldsVerdict
    decreases list.len(),
{
    if list.len() == 0 {
        Ok(Seq::empty())
    } else {
        match each_field(list.drop_last(), rule) {
            Err(refusal) => Err(refusal),
            Ok(before) => match rule(list.last().1) {
                Err(refusal) => Err(refusal),
                Ok(value) => Ok(before.push((list.last().0, value))),
            },
        }
    }
}

/// The schema of an object without properties.
pub open spec fn empty_object() -> JsonView {
    JsonView::Object(
        seq![
            ("additionalProperties"@, JsonView::Bool(false)),
            ("type"@, JsonView::Text("object"@)),
            ("properties"@, JsonView::Object(Seq::empty())),
            ("required"@, JsonView::Array(Seq::empty())),
        ],
    )
}

/// The definitions under `name` made strict.
pub open spec fn definitions(list: Seq<FieldView>, name: Seq<char>, rule: Rule) -> FieldsVerdict {
    match json::field(list, name) {
        Some(JsonView::Object(parts)) => match each_field(parts, rule) {
            Err(refusal) => Err(refusal),
            Ok(parts) => Ok(json::with_field(list, name, JsonView::Object(parts))),
        },
        _ => Ok(list),
    }
}

/// An object closed against other properties.
pub open spec fn closed(list: Seq<FieldView>) -> FieldsVerdict {
    if json::field(list, "type"@) == Some(JsonView::Text("object"@)) {
        match json::field(list, "additionalProperties"@) {
            None => Ok(json::with_field(list, "additionalProperties"@, JsonView::Bool(false))),
            Some(JsonView::Bool(false)) => Ok(list),
            Some(_) => refused("additionalProperties must be false for object schemas"@),
        }
    } else {
        Ok(list)
    }
}

/// The keys of fields.
pub open spec fn keys(list: Seq<FieldView>) -> Seq<Seq<char>> {
    Seq::new(list.len(), |i: int| list[i].0)
}

/// The properties required and made strict.
pub open spec fn properties(list: Seq<FieldView>, rule: Rule) -> FieldsVerdict {
    match json::field(list, "properties"@) {
        Some(JsonView::Object(parts)) => match each_field(parts, rule) {
            Err(refusal) => Err(refusal),
            Ok(strict) => Ok(
                json::with_field(
                    json::with_field(list, "required"@, fields::strings_view(keys(parts))),
                    "properties"@,
                    JsonView::Object(strict),
                ),
            ),
        },
        _ => Ok(list),
    }
}

/// The schema of the items made strict.
pub open spec fn items(list: Seq<FieldView>, rule: Rule) -> FieldsVerdict {
    match json::field(list, "items"@) {
        Some(part) => match rule(part) {
            Err(refusal) => Err(refusal),
            Ok(part) => Ok(json::with_field(list, "items"@, part)),
        },
        None => Ok(list),
    }
}

/// The alternatives made strict.
pub open spec fn any_of(list: Seq<FieldView>, rule: Rule) -> FieldsVerdict {
    match json::field(list, "anyOf"@) {
        Some(JsonView::Array(choices)) => match each_item(choices, rule) {
            Err(refusal) => Err(refusal),
            Ok(choices) => Ok(json::with_field(list, "anyOf"@, JsonView::Array(choices))),
        },
        _ => Ok(list),
    }
}

/// The exclusive alternatives made strict and joined to the other alternatives.
pub open spec fn one_of(list: Seq<FieldView>, rule: Rule) -> FieldsVerdict {
    match json::field(list, "oneOf"@) {
        None => Ok(list),
        Some(one) => {
            let rest = json::without_field(list, "oneOf"@);
            let before = match json::field(rest, "anyOf"@) {
                Some(JsonView::Array(choices)) => choices,
                _ => Seq::empty(),
            };
            let rest = json::without_field(rest, "anyOf"@);
            match one {
                JsonView::Array(choices) => match each_item(choices, rule) {
                    Err(refusal) => Err(refusal),
                    Ok(choices) => Ok(
                        json::with_field(rest, "anyOf"@, JsonView::Array(before + choices)),
                    ),
                },
                _ => refused("oneOf must be an array"@),
            }
        },
    }
}

/// The parts of a conjunction made strict; a single part is merged into the schema.
pub open spec fn all_of(list: Seq<FieldView>, rule: Rule) -> FieldsVerdict {
    match json::field(list, "allOf"@) {
        None => Ok(list),
        Some(JsonView::Array(parts)) => {
            let rest = json::without_field(list, "allOf"@);
            if parts.len() == 1 {
                match rule(parts[0]) {
                    Err(refusal) => Err(refusal),
                    Ok(JsonView::Object(part)) => Ok(fields::extended(rest, part)),
                    Ok(_) => refused("allOf entry must be an object"@),
                }
            } else {
                match each_item(parts, rule) {
                    Err(refusal) => Err(refusal),
                    Ok(parts) => Ok(json::with_field(rest, "allOf"@, JsonView::Array(parts))),
                }
            }
        },
        Some(_) => refused("allOf must be an array"@),
    }
}

/// The schema with what it refers to put in the place of the reference, the schema's own fields
/// first; a reference that stands alone is kept.
pub open spec fn resolved(list: Seq<FieldView>, root: JsonView, rule: Rule) -> Verdict {
    if list.len() > 1 && json::field(list, "$ref"@) is Some {
        match json::field(list, "$ref"@)->Some_0 {
            JsonView::Text(reference) => if !text::begins_with(reference, "#/"@) {
                refused("unsupported schema reference"@)
            } else {
                match pointer::pointed(root, pointer::stripped(reference, '#')) {
                    None => refused("schema reference"@),
                    Some(JsonView::Object(found)) => rule(
                        JsonView::Object(
                            fields::extended(found, json::without_field(list, "$ref"@)),
                        ),
                    ),
                    Some(_) => refused("schema reference must resolve to an object"@),
                }
            },
            _ => refused("schema reference must be a string"@),
        }
    } else {
        Ok(JsonView::Object(list))
    }
}

/// The parts of a schema made strict, in the order in which they are looked at.
pub open spec fn strict_parts(list: Seq<FieldView>, rule: Rule) -> FieldsVerdict {
    match definitions(list, "$defs"@, rule) {
        Err(refusal) => Err(refusal),
        Ok(list) => match definitions(list, "definitions"@, rule) {
            Err(refusal) => Err(refusal),
            Ok(list) => match closed(list) {
                Err(refusal) => Err(refusal),
                Ok(list) => match properties(list, rule) {
                    Err(refusal) => Err(refusal),
                    Ok(list) => match items(list, rule) {
                        Err(refusal) => Err(refusal),
                        Ok(list) => strict_choices(list, rule),
                    },
                },
            },
        },
    }
}

/// The alternatives and conjunctions of a schema made strict.
pub open spec fn strict_choices(list: Seq<FieldView>, rule: Rule) -> FieldsVerdict {
    match any_of(list, rule) {
        Err(refusal) => Err(refusal),
        Ok(list) => match one_of(list, rule) {
            Err(refusal) => Err(refusal),
            Ok(list) => match all_of(list, rule) {
                Err(refusal) => Err(refusal),
                Ok(list) => Ok(json::without_field(list, "default"@)),
            },
        },
    }
}

/// A schema made strict, its parts by `rule`.
pub open spec fn strict_once(schema: JsonView, root: JsonView, rule: Rule) -> Verdict {
    match schema {
        JsonView::Object(list) => if list.len() == 0 {
            Ok(empty_object())
        } else {
            match strict_parts(list, rule) {
                Err(refusal) => Err(refusal),
                Ok(list) => resolved(list, root, rule),
            }
        },
        _ => refused("schema must be an object"@),
    }
}

/// A schema made strict, with references into `root`, down to `depth` levels.
pub open spec fn strict(schema: JsonView, root: JsonView, depth: nat) -> Verdict
    decreases depth, 0nat,
{
    if depth == 0 {
        Err(RefusalView::Depth)
    } else {
        strict_once(schema, root, rule(root, (depth - 1) as nat))
    }
}

/// How the parts of a schema are made strict with `depth` levels left.
pub open spec fn rule(root: JsonView, depth: nat) -> Rule
    decreases depth, 1nat,
{
    |part: JsonView| strict(part, root, depth)
}

/// Every item made strict, unless one is refused.
fn strict_items(list: &Vec<Json>, root: &Json, depth: usize) -> (result: Result<Vec<Json>, Refusal>)
    ensures
        refusal::items_verdict(result) == each_item(
            json::items_view(list@),
            rule(root@, depth as nat),
        ),
    decreases depth, 1nat,
{
    let ghost all = json::items_view(list@);
    let ghost how = rule(root@, depth as nat);
    let mut made: Vec<Json> = Vec::new();
    let mut index: usize = 0;
    assert(json::items_view(made@) =~= Seq::<JsonView>::empty());
    while index < list.len()
        invariant
            index <= list@.len(),
            all == json::items_view(list@),
            how == rule(root@, depth as nat),
            each_item(all.take(index as int), how) == Ok::<Seq<JsonView>, RefusalView>(
                json::items_view(made@),
            ),
        decreases list@.len() - index,
    {
        proof {
            assert(all.take(index + 1).drop_last() =~= all.take(index as int));
            assert(all.take(index + 1).last() == all[index as int]);
        }
        match strict_schema(&list[index], root, depth) {
            Ok(item) => {
                proof {
                    json::lemma_items_push(made@, item);
                }
                made.push(item);
            },
            Err(refusal) => {
                proof {
                    lemma_item_refused(all, how, index as int);
                }
                return Err(refusal);
            },
        }
        index += 1;
    }
    assert(all.take(index as int) =~= all);
    Ok(made)
}

/// A refused item decides.
pub proof fn lemma_item_refused(list: Seq<JsonView>, how: Rule, index: int)
    requires
        0 <= index < list.len(),
        each_item(list.take(index), how) is Ok,
        how(list[index]) is Err,
    ensures
        each_item(list, how) == Err::<Seq<JsonView>, RefusalView>(how(list[index])->Err_0),
    decreases list.len() - index,
{
    lemma_item_refused_by(list, how, index, list.len() as int);
    assert(list.take(list.len() as int) =~= list);
}

proof fn lemma_item_refused_by(list: Seq<JsonView>, how: Rule, index: int, end: int)
    requires
        0 <= index < end <= list.len(),
        each_item(list.take(index), how) is Ok,
        how(list[index]) is Err,
    ensures
        each_item(list.take(end), how) == Err::<Seq<JsonView>, RefusalView>(
            how(list[index])->Err_0,
        ),
    decreases end,
{
    assert(list.take(end).drop_last() =~= list.take(end - 1));
    assert(list.take(end).last() == list[end - 1]);
    if end > index + 1 {
        lemma_item_refused_by(list, how, index, end - 1);
    }
}

/// Every value of the fields made strict, unless one is refused.
fn strict_fields(list: &Vec<(String, Json)>, root: &Json, depth: usize) -> (result: Result<
    Fields,
    Refusal,
>)
    ensures
        refusal::fields_verdict(result) == each_field(
            json::fields_view(list@),
            rule(root@, depth as nat),
        ),
    decreases depth, 1nat,
{
    let ghost all = json::fields_view(list@);
    let ghost how = rule(root@, depth as nat);
    let mut made = Fields::new();
    let mut index: usize = 0;
    while index < list.len()
        invariant
            index <= list@.len(),
            all == json::fields_view(list@),
            how == rule(root@, depth as nat),
            each_field(all.take(index as int), how) == Ok::<Seq<FieldView>, RefusalView>(made@),
        decreases list@.len() - index,
    {
        proof {
            assert(all.take(index + 1).drop_last() =~= all.take(index as int));
            assert(all.take(index + 1).last() == all[index as int]);
        }
        match strict_schema(&list[index].1, root, depth) {
            Ok(value) => {
                made.push(list[index].0.as_str(), value);
            },
            Err(refusal) => {
                proof {
                    lemma_field_refused(all, how, index as int, all.len() as int);
                    assert(all.take(all.len() as int) =~= all);
                }
                return Err(refusal);
            },
        }
        index += 1;
    }
    assert(all.take(index as int) =~= all);
    Ok(made)
}

/// A refused value decides.
proof fn lemma_field_refused(list: Seq<FieldView>, how: Rule, index: int, end: int)
    requires
        0 <= index < end <= list.len(),
        each_field(list.take(index), how) is Ok,
        how(list[index].1) is Err,
    ensures
        each_field(list.take(end), how) == Err::<Seq<FieldView>, RefusalView>(
            how(list[index].1)->Err_0,
        ),
    decreases end,
{
    assert(list.take(end).drop_last() =~= list.take(end - 1));
    assert(list.take(end).last() == list[end - 1]);
    if end > index + 1 {
        lemma_field_refused(list, how, index, end - 1);
    }
}

/// The definitions under `name` made strict.
fn strict_definitions(list: Fields, name: &str, root: &Json, depth: usize) -> (result: Result<
    Fields,
    Refusal,
>)
    ensures
        refusal::fields_verdict(result) == definitions(list@, name@, rule(root@, depth as nat)),
    decreases depth, 2nat,
{
    broadcast use json::object_view;

    let made = match list.get(name) {
        Some(Json::Object(parts)) => Some(strict_fields(parts, root, depth)),
        _ => None,
    };
    match made {
        None => Ok(list),
        Some(Err(refusal)) => Err(refusal),
        Some(Ok(parts)) => {
            let mut list = list;
            list.set(name, parts.object());
            Ok(list)
        },
    }
}

/// An object closed against other properties.
fn strict_closed(list: Fields) -> (result: Result<Fields, Refusal>)
    ensures
        refusal::fields_verdict(result) == closed(list@),
{
    let object = match list.get("type") {
        Some(kind) => kind.is_text("object"),
        None => false,
    };
    if !object {
        return Ok(list);
    }
    let missing = match list.get("additionalProperties") {
        None => true,
        Some(Json::Bool(false)) => false,
        Some(_) => {
            return Err(Refusal::of("additionalProperties must be false for object schemas"));
        },
    };
    let mut list = list;
    if missing {
        list.set("additionalProperties", Json::Bool(false));
    }
    Ok(list)
}

/// The keys of fields.
pub fn keys_of(list: &Vec<(String, Json)>) -> (names: Vec<String>)
    ensures
        pieces::texts(names@) == keys(json::fields_view(list@)),
{
    let mut names: Vec<String> = Vec::new();
    let mut index: usize = 0;
    while index < list.len()
        invariant
            index <= list@.len(),
            names@.len() == index,
            forall|i: int| 0 <= i < index ==> (#[trigger] names@[i])@ == list@[i].0@,
        decreases list@.len() - index,
    {
        names.push(list[index].0.clone());
        index += 1;
    }
    assert(pieces::texts(names@) =~= keys(json::fields_view(list@)));
    names
}

/// The properties required and made strict.
fn strict_properties(list: Fields, root: &Json, depth: usize) -> (result: Result<Fields, Refusal>)
    ensures
        refusal::fields_verdict(result) == properties(list@, rule(root@, depth as nat)),
    decreases depth, 2nat,
{
    broadcast use json::object_view;

    let made = match list.get("properties") {
        Some(Json::Object(parts)) => Some((keys_of(parts), strict_fields(parts, root, depth))),
        _ => None,
    };
    match made {
        None => Ok(list),
        Some((_, Err(refusal))) => Err(refusal),
        Some((names, Ok(parts))) => {
            let mut list = list;
            list.set("required", fields::strings(&names));
            list.set("properties", parts.object());
            Ok(list)
        },
    }
}

/// The schema of the items made strict.
fn strict_item_schema(list: Fields, root: &Json, depth: usize) -> (result: Result<Fields, Refusal>)
    ensures
        refusal::fields_verdict(result) == items(list@, rule(root@, depth as nat)),
    decreases depth, 2nat,
{
    let made = match list.get("items") {
        Some(part) => Some(strict_schema(part, root, depth)),
        None => None,
    };
    match made {
        None => Ok(list),
        Some(Err(refusal)) => Err(refusal),
        Some(Ok(part)) => {
            let mut list = list;
            list.set("items", part);
            Ok(list)
        },
    }
}

/// The alternatives made strict.
fn strict_any_of(list: Fields, root: &Json, depth: usize) -> (result: Result<Fields, Refusal>)
    ensures
        refusal::fields_verdict(result) == any_of(list@, rule(root@, depth as nat)),
    decreases depth, 2nat,
{
    broadcast use json::array_view;

    let made = match list.get("anyOf") {
        Some(Json::Array(choices)) => Some(strict_items(choices, root, depth)),
        _ => None,
    };
    match made {
        None => Ok(list),
        Some(Err(refusal)) => Err(refusal),
        Some(Ok(choices)) => {
            let mut list = list;
            list.set("anyOf", Json::Array(choices));
            Ok(list)
        },
    }
}

/// The exclusive alternatives made strict and joined to the other alternatives.
fn strict_one_of(list: Fields, root: &Json, depth: usize) -> (result: Result<Fields, Refusal>)
    ensures
        refusal::fields_verdict(result) == one_of(list@, rule(root@, depth as nat)),
    decreases depth, 2nat,
{
    broadcast use json::array_view;

    let mut list = list;
    match list.take("oneOf") {
        None => Ok(list),
        Some(one) => {
            let mut choices: Vec<Json> = match list.take("anyOf") {
                Some(Json::Array(choices)) => choices,
                _ => Vec::new(),
            };
            assert(json::items_view(Seq::<Json>::empty()) =~= Seq::<JsonView>::empty());
            match one {
                Json::Array(parts) => match strict_items(&parts, root, depth) {
                    Err(refusal) => Err(refusal),
                    Ok(mut parts) => {
                        let ghost before = choices@;
                        let ghost added = parts@;
                        choices.append(&mut parts);
                        assert(json::items_view(choices@) =~= json::items_view(before)
                            + json::items_view(added));
                        list.set("anyOf", Json::Array(choices));
                        Ok(list)
                    },
                },
                _ => Err(Refusal::of("oneOf must be an array")),
            }
        },
    }
}

/// The parts of a conjunction made strict; a single part is merged into the schema.
fn strict_all_of(list: Fields, root: &Json, depth: usize) -> (result: Result<Fields, Refusal>)
    ensures
        refusal::fields_verdict(result) == all_of(list@, rule(root@, depth as nat)),
    decreases depth, 2nat,
{
    broadcast use {json::array_view, json::object_view};

    let mut list = list;
    match list.take("allOf") {
        None => Ok(list),
        Some(Json::Array(parts)) => {
            if parts.len() == 1 {
                assert(json::items_view(parts@)[0] == parts@[0]@);
                match strict_schema(&parts[0], root, depth) {
                    Err(refusal) => Err(refusal),
                    Ok(Json::Object(part)) => {
                        list.extend(Fields { list: part });
                        Ok(list)
                    },
                    Ok(_) => Err(Refusal::of("allOf entry must be an object")),
                }
            } else {
                match strict_items(&parts, root, depth) {
                    Err(refusal) => Err(refusal),
                    Ok(parts) => {
                        list.set("allOf", Json::Array(parts));
                        Ok(list)
                    },
                }
            }
        },
        Some(_) => Err(Refusal::of("allOf must be an array")),
    }
}

/// The schema with what it refers to put in the place of the reference.
fn strict_resolved(list: Fields, root: &Json, depth: usize) -> (result: Result<Json, Refusal>)
    ensures
        refusal::verdict(result) == resolved(list@, root@, rule(root@, depth as nat)),
    decreases depth, 2nat,
{
    broadcast use json::object_view;

    let mut list = list;
    if list.list.len() <= 1 {
        return Ok(list.object());
    }
    match list.take("$ref") {
        None => Ok(list.object()),
        Some(Json::Text(reference)) => {
            if !starts_with(reference.as_str(), "#/") {
                return Err(Refusal::of("unsupported schema reference"));
            }
            match pointer::pointer(root, strip(reference.as_str(), '#').as_str()) {
                None => Err(Refusal::of("schema reference")),
                Some(Json::Object(found)) => {
                    let mut merged = Fields::copied(found);
                    merged.extend(list);
                    strict_schema(&merged.object(), root, depth)
                },
                Some(_) => Err(Refusal::of("schema reference must resolve to an object")),
            }
        },
        Some(_) => Err(Refusal::of("schema reference must be a string")),
    }
}

/// The alternatives and conjunctions of a schema made strict.
fn strict_choice_parts(list: Fields, root: &Json, depth: usize) -> (result: Result<Fields, Refusal>)
    ensures
        refusal::fields_verdict(result) == strict_choices(list@, rule(root@, depth as nat)),
    decreases depth, 3nat,
{
    match strict_any_of(list, root, depth) {
        Err(refusal) => Err(refusal),
        Ok(list) => match strict_one_of(list, root, depth) {
            Err(refusal) => Err(refusal),
            Ok(list) => match strict_all_of(list, root, depth) {
                Err(refusal) => Err(refusal),
                Ok(list) => {
                    let mut list = list;
                    let _ = list.take("default");
                    Ok(list)
                },
            },
        },
    }
}

/// The parts of a schema made strict.
fn strict_all_parts(list: Fields, root: &Json, depth: usize) -> (result: Result<Fields, Refusal>)
    ensures
        refusal::fields_verdict(result) == strict_parts(list@, rule(root@, depth as nat)),
    decreases depth, 4nat,
{
    match strict_definitions(list, "$defs", root, depth) {
        Err(refusal) => Err(refusal),
        Ok(list) => match strict_definitions(list, "definitions", root, depth) {
            Err(refusal) => Err(refusal),
            Ok(list) => match strict_closed(list) {
                Err(refusal) => Err(refusal),
                Ok(list) => match strict_properties(list, root, depth) {
                    Err(refusal) => Err(refusal),
                    Ok(list) => match strict_item_schema(list, root, depth) {
                        Err(refusal) => Err(refusal),
                        Ok(list) => strict_choice_parts(list, root, depth),
                    },
                },
            },
        },
    }
}

/// A schema in the strict form, with references into `root`, down to `depth` levels.
pub fn strict_schema(schema: &Json, root: &Json, depth: usize) -> (result: Result<Json, Refusal>)
    ensures
        refusal::verdict(result) == strict(schema@, root@, depth as nat),
    decreases depth, 0nat,
{
    broadcast use json::object_view;

    if depth == 0 {
        return Err(Refusal::Depth);
    }
    match schema {
        Json::Object(list) => if list.len() == 0 {
            let made = Fields::new().with("additionalProperties", Json::Bool(false)).with(
                "type",
                fields::text("object"),
            ).with("properties", Fields::new().object()).with(
                "required",
                fields::strings(&Vec::new()),
            ).object();
            proof {
                assert(fields::strings_view(pieces::texts(Seq::empty()))->Array_0 =~= Seq::<
                    JsonView,
                >::empty());
                assert(made@->Object_0 =~= empty_object()->Object_0);
            }
            Ok(made)
        } else {
            match strict_all_parts(Fields::copied(list), root, depth - 1) {
                Err(refusal) => Err(refusal),
                Ok(list) => strict_resolved(list, root, depth - 1),
            }
        },
        _ => Err(Refusal::of("schema must be an object")),
    }
}

/// Whether one rule gives what the other does wherever it does not fall short of depth.
pub open spec fn within(shallow: Rule, deep: Rule) -> bool {
    forall|part: JsonView| refusal::stands(#[trigger] shallow(part), deep(part))
}

/// Items that a shallower rule admits become the same under a deeper one that agrees with it.
pub proof fn lemma_items_within(list: Seq<JsonView>, shallow: Rule, deep: Rule)
    requires
        within(shallow, deep),
    ensures
        each_item(list, shallow) == Err::<Seq<JsonView>, RefusalView>(RefusalView::Depth)
            || each_item(list, shallow) == each_item(list, deep),
    decreases list.len(),
{
    if list.len() > 0 {
        lemma_items_within(list.drop_last(), shallow, deep);
        assert(refusal::stands(shallow(list.last()), deep(list.last())));
    }
}

proof fn lemma_fields_within(list: Seq<FieldView>, shallow: Rule, deep: Rule)
    requires
        within(shallow, deep),
    ensures
        each_field(list, shallow) == FieldsVerdict::Err(RefusalView::Depth) || each_field(
            list,
            shallow,
        ) == each_field(list, deep),
    decreases list.len(),
{
    if list.len() > 0 {
        lemma_fields_within(list.drop_last(), shallow, deep);
        assert(refusal::stands(shallow(list.last().1), deep(list.last().1)));
    }
}

proof fn lemma_definitions_within(list: Seq<FieldView>, name: Seq<char>, shallow: Rule, deep: Rule)
    requires
        within(shallow, deep),
    ensures
        definitions(list, name, shallow) == FieldsVerdict::Err(RefusalView::Depth) || definitions(
            list,
            name,
            shallow,
        ) == definitions(list, name, deep),
{
    if let Some(JsonView::Object(parts)) = json::field(list, name) {
        lemma_fields_within(parts, shallow, deep);
    }
}

proof fn lemma_properties_within(list: Seq<FieldView>, shallow: Rule, deep: Rule)
    requires
        within(shallow, deep),
    ensures
        properties(list, shallow) == FieldsVerdict::Err(RefusalView::Depth) || properties(
            list,
            shallow,
        ) == properties(list, deep),
{
    if let Some(JsonView::Object(parts)) = json::field(list, "properties"@) {
        lemma_fields_within(parts, shallow, deep);
    }
}

proof fn lemma_choices_within(list: Seq<FieldView>, shallow: Rule, deep: Rule)
    requires
        within(shallow, deep),
    ensures
        strict_choices(list, shallow) == FieldsVerdict::Err(RefusalView::Depth) || strict_choices(
            list,
            shallow,
        ) == strict_choices(list, deep),
{
    if let Some(JsonView::Array(parts)) = json::field(list, "anyOf"@) {
        lemma_items_within(parts, shallow, deep);
    }
    if let Ok(list) = any_of(list, shallow) {
        if let Some(JsonView::Array(parts)) = json::field(list, "oneOf"@) {
            lemma_items_within(parts, shallow, deep);
        }
        if let Ok(list) = one_of(list, shallow) {
            if let Some(JsonView::Array(parts)) = json::field(list, "allOf"@) {
                lemma_items_within(parts, shallow, deep);
                assert(refusal::stands(shallow(parts[0]), deep(parts[0])));
            }
        }
    }
}

proof fn lemma_once_within(schema: JsonView, root: JsonView, shallow: Rule, deep: Rule)
    requires
        within(shallow, deep),
    ensures
        refusal::stands(strict_once(schema, root, shallow), strict_once(schema, root, deep)),
{
    if let JsonView::Object(list) = schema {
        lemma_definitions_within(list, "$defs"@, shallow, deep);
        if let Ok(list) = definitions(list, "$defs"@, shallow) {
            lemma_definitions_within(list, "definitions"@, shallow, deep);
            if let Ok(list) = definitions(list, "definitions"@, shallow) {
                if let Ok(list) = closed(list) {
                    lemma_properties_within(list, shallow, deep);
                    if let Ok(list) = properties(list, shallow) {
                        if let Some(part) = json::field(list, "items"@) {
                            assert(refusal::stands(shallow(part), deep(part)));
                        }
                        if let Ok(list) = items(list, shallow) {
                            lemma_choices_within(list, shallow, deep);
                        }
                    }
                }
            }
        }
        if let Ok(list) = strict_parts(list, shallow) {
            if let Some(JsonView::Text(reference)) = json::field(list, "$ref"@) {
                if let Some(JsonView::Object(found)) = pointer::pointed(
                    root,
                    pointer::stripped(reference, '#'),
                ) {
                    let merged = JsonView::Object(
                        fields::extended(found, json::without_field(list, "$ref"@)),
                    );
                    assert(refusal::stands(shallow(merged), deep(merged)));
                }
            }
        }
    }
}

/// The depth that is allowed does not change what becomes of a schema once it suffices.
pub proof fn strict_depth_is_no_matter(schema: JsonView, root: JsonView, depth: nat, deeper: nat)
    requires
        depth <= deeper,
    ensures
        refusal::stands(strict(schema, root, depth), strict(schema, root, deeper)),
    decreases depth,
{
    if depth > 0 {
        let shallow = rule(root, (depth - 1) as nat);
        let deep = rule(root, (deeper - 1) as nat);
        assert forall|part: JsonView| refusal::stands(#[trigger] shallow(part), deep(part)) by {
            strict_depth_is_no_matter(part, root, (depth - 1) as nat, (deeper - 1) as nat);
        }
        lemma_once_within(schema, root, shallow, deep);
    }
}

/// What is made strict is an object.
pub proof fn strict_gives_an_object(schema: JsonView, root: JsonView, depth: nat)
    ensures
        strict(schema, root, depth) matches Ok(made) ==> made is Object,
    decreases depth,
{
    if depth > 0 {
        if let JsonView::Object(list) = schema {
            let how = rule(root, (depth - 1) as nat);
            if let Ok(list) = strict_parts(list, how) {
                if let Some(JsonView::Text(reference)) = json::field(list, "$ref"@) {
                    if let Some(JsonView::Object(found)) = pointer::pointed(
                        root,
                        pointer::stripped(reference, '#'),
                    ) {
                        let merged = JsonView::Object(
                            fields::extended(found, json::without_field(list, "$ref"@)),
                        );
                        strict_gives_an_object(merged, root, (depth - 1) as nat);
                        assert(how(merged) == strict(merged, root, (depth - 1) as nat));
                    }
                }
            }
        }
    }
}

} // verus!
