//! What holds of strict schemas.
use crate::fields;
use crate::json;
use crate::json::{FieldView, JsonView};
use crate::models::refusal::RefusalView;
use crate::models::strict;
use crate::models::strict::{FieldsVerdict, Rule};
use crate::pointer;
use crate::text;
use vstd::prelude::*;

verus! {

/// Whether no key occurs twice, as in every document.
pub open spec fn distinct(list: Seq<FieldView>) -> bool {
    forall|i: int, j: int|
        0 <= i < list.len() && 0 <= j < list.len() && (#[trigger] list[i]).0 == (#[trigger] list[j]).0
            ==> i == j
}

proof fn lemma_field(list: Seq<FieldView>, key: Seq<char>, index: int)
    requires
        distinct(list),
        0 <= index < list.len(),
        list[index].0 == key,
    ensures
        json::field(list, key) == Some(list[index].1),
{
    json::lemma_place(list, key);
}

proof fn lemma_with(list: Seq<FieldView>, key: Seq<char>, value: JsonView)
    requires
        distinct(list),
    ensures
        distinct(json::with_field(list, key, value)),
        json::field(json::with_field(list, key, value), key) == Some(value),
        forall|other: Seq<char>|
            other != key ==> #[trigger] json::field(json::with_field(list, key, value), other)
                == json::field(list, other),
{
    let made = json::with_field(list, key, value);
    json::lemma_place(list, key);
    assert(distinct(made));
    match json::place(list, key) {
        Some(index) => lemma_field(made, key, index),
        None => lemma_field(made, key, list.len() as int),
    }
    assert forall|other: Seq<char>| other != key implies #[trigger] json::field(made, other)
        == json::field(list, other) by {
        json::lemma_place(list, other);
        json::lemma_place(made, other);
        match json::place(list, other) {
            Some(index) => {
                assert(made[index] == list[index]);
                lemma_field(made, other, index);
            },
            None => {
                if let Some(index) = json::place(made, other) {
                    assert(index < list.len() ==> made[index].0 == list[index].0);
                }
            },
        }
    }
}

proof fn lemma_without(list: Seq<FieldView>, key: Seq<char>)
    requires
        distinct(list),
    ensures
        distinct(json::without_field(list, key)),
        json::field(json::without_field(list, key), key) is None,
        forall|other: Seq<char>|
            other != key ==> #[trigger] json::field(json::without_field(list, key), other)
                == json::field(list, other),
{
    let made = json::without_field(list, key);
    json::lemma_place(list, key);
    if let Some(place) = json::place(list, key) {
        let last = list.len() - 1;
        assert forall|i: int| 0 <= i < made.len() implies made[i] == (if i == place {
            list[last]
        } else {
            list[i]
        }) by {}
        assert(distinct(made));
        json::lemma_place(made, key);
        if let Some(index) = json::place(made, key) {
            assert(made[index].0 == key);
            assert(list[place].0 == key);
            assert(false);
        }
        assert forall|other: Seq<char>| other != key implies #[trigger] json::field(made, other)
            == json::field(list, other) by {
            json::lemma_place(list, other);
            json::lemma_place(made, other);
            match json::place(list, other) {
                Some(index) => {
                    let now = if index == last {
                        place
                    } else {
                        index
                    };
                    assert(made[now] == list[index]);
                    lemma_field(made, other, now);
                },
                None => {
                    if let Some(index) = json::place(made, other) {
                        assert(made[index].0 == other);
                    }
                },
            }
        }
    }
}

proof fn lemma_extended(list: Seq<FieldView>, others: Seq<FieldView>)
    requires
        distinct(list),
        distinct(others),
    ensures
        distinct(fields::extended(list, others)),
        forall|key: Seq<char>| #[trigger]
            json::field(fields::extended(list, others), key) == match json::field(others, key) {
                Some(value) => Some(value),
                None => json::field(list, key),
            },
    decreases others.len(),
{
    if others.len() == 0 {
        assert forall|key: Seq<char>| json::field(others, key) is None by {
            json::lemma_place(others, key);
        }
    } else {
        let rest = others.drop_last();
        let (last, value) = others.last();
        assert forall|i: int, j: int|
            0 <= i < rest.len() && 0 <= j < rest.len() && (#[trigger] rest[i]).0 == (
            #[trigger] rest[j]).0 implies i == j by {
            assert(rest[i] == others[i] && rest[j] == others[j]);
        }
        lemma_extended(list, rest);
        let before = fields::extended(list, rest);
        lemma_with(before, last, value);
        lemma_field(others, last, others.len() - 1);
        assert forall|key: Seq<char>| #[trigger]
            json::field(fields::extended(list, others), key) == match json::field(others, key) {
                Some(value) => Some(value),
                None => json::field(list, key),
            } by {
            if key != last {
                json::lemma_place(rest, key);
                json::lemma_place(others, key);
                match json::place(rest, key) {
                    Some(index) => {
                        assert(others[index] == rest[index]);
                        lemma_field(others, key, index);
                    },
                    None => {
                        if let Some(index) = json::place(others, key) {
                            assert(index < rest.len() ==> rest[index] == others[index]);
                        }
                    },
                }
            }
        }
    }
}

/// Whether a schema is in the strict form itself: it has no default and no exclusive alternatives,
/// it admits no other properties if it is an object's, and all the properties that it lists are
/// required.
pub open spec fn is_strict(list: Seq<FieldView>) -> bool {
    &&& json::field(list, "default"@) is None
    &&& json::field(list, "oneOf"@) is None
    &&& is_closed(list)
    &&& requires_all(list)
}

/// Whether an object's schema admits no other properties.
pub open spec fn is_closed(list: Seq<FieldView>) -> bool {
    json::field(list, "type"@) == Some(JsonView::Text("object"@)) ==> json::field(
        list,
        "additionalProperties"@,
    ) == Some(JsonView::Bool(false))
}

/// Whether all properties that a schema lists are required.
pub open spec fn requires_all(list: Seq<FieldView>) -> bool {
    json::field(list, "properties"@) matches Some(JsonView::Object(parts)) ==> json::field(
        list,
        "required"@,
    ) == Some(fields::strings_view(strict::keys(parts)))
}

/// Whether the values under `name` are schemas by name.
pub open spec fn names_schemas(name: Seq<char>) -> bool {
    name == "$defs"@ || name == "definitions"@ || name == "properties"@
}

/// Whether the values under `name` are schemas in a row.
pub open spec fn lists_schemas(name: Seq<char>) -> bool {
    name == "anyOf"@ || name == "oneOf"@ || name == "allOf"@
}

/// Whether a field called `name` holds schemas.
pub open spec fn holds_schemas(name: Seq<char>) -> bool {
    name == "items"@ || names_schemas(name) || lists_schemas(name)
}

/// The schemas that a schema's field `name` holds.
pub open spec fn schemas_under(list: Seq<FieldView>, name: Seq<char>) -> Seq<JsonView> {
    match json::field(list, name) {
        None => Seq::empty(),
        Some(value) => if name == "items"@ {
            seq![value]
        } else {
            match value {
                JsonView::Object(parts) => if names_schemas(name) {
                    Seq::new(parts.len(), |i: int| parts[i].1)
                } else {
                    Seq::empty()
                },
                JsonView::Array(parts) => if lists_schemas(name) {
                    parts
                } else {
                    Seq::empty()
                },
                _ => Seq::empty(),
            }
        },
    }
}

/// Whether a schema and the schemas in it, down to `levels` levels, are in the strict form.
pub open spec fn strict_through(schema: JsonView, levels: nat) -> bool
    decreases levels,
{
    levels == 0 || match schema {
        JsonView::Object(list) => {
            &&& distinct(list)
            &&& is_strict(list)
            &&& forall|name: Seq<char>, i: int|
                holds_schemas(name) && 0 <= i < schemas_under(list, name).len() ==> strict_through(
                    #[trigger] schemas_under(list, name)[i],
                    (levels - 1) as nat,
                )
        },
        _ => false,
    }
}

/// The parts of a schema made strict, but for conjunctions and references.
pub open spec fn simple_parts(list: Seq<FieldView>, rule: Rule) -> FieldsVerdict {
    match strict::definitions(list, "$defs"@, rule) {
        Err(refusal) => Err(refusal),
        Ok(list) => match strict::definitions(list, "definitions"@, rule) {
            Err(refusal) => Err(refusal),
            Ok(list) => match strict::closed(list) {
                Err(refusal) => Err(refusal),
                Ok(list) => match strict::properties(list, rule) {
                    Err(refusal) => Err(refusal),
                    Ok(list) => match strict::items(list, rule) {
                        Err(refusal) => Err(refusal),
                        Ok(list) => match strict::any_of(list, rule) {
                            Err(refusal) => Err(refusal),
                            Ok(list) => strict::one_of(list, rule),
                        },
                    },
                },
            },
        },
    }
}

/// The single part of a conjunction, if a schema is one.
pub open spec fn single(list: Seq<FieldView>) -> Option<JsonView> {
    match json::field(list, "allOf"@) {
        Some(JsonView::Array(parts)) => if parts.len() == 1 {
            Some(parts[0])
        } else {
            None
        },
        _ => None,
    }
}

/// Whether the single part of a conjunction, merged into the schema, opens what the schema closes:
/// it admits other properties, or names others as required, without being an object's schema or
/// listing properties.
pub open spec fn clashes(rest: Seq<FieldView>, part: Seq<FieldView>) -> bool {
    ||| {
        &&& json::field(rest, "type"@) == Some(JsonView::Text("object"@))
        &&& json::field(part, "type"@) is None
        &&& json::field(part, "additionalProperties"@) matches Some(admitted) && admitted
            != JsonView::Bool(false)
    }
    ||| {
        &&& json::field(rest, "properties"@) is Some
        &&& json::field(rest, "properties"@)->Some_0 is Object
        &&& json::field(part, "properties"@) is None
        &&& json::field(part, "required"@) is Some
        &&& json::field(part, "required"@) != json::field(rest, "required"@)
    }
}

/// What a reference is replaced by, if it is replaced.
pub open spec fn merged(list: Seq<FieldView>, root: JsonView) -> Option<JsonView> {
    if list.len() > 1 {
        match json::field(list, "$ref"@) {
            Some(JsonView::Text(reference)) => if text::begins_with(reference, "#/"@) {
                match pointer::pointed(root, pointer::stripped(reference, '#')) {
                    Some(JsonView::Object(found)) => Some(
                        JsonView::Object(
                            fields::extended(found, json::without_field(list, "$ref"@)),
                        ),
                    ),
                    _ => None,
                }
            } else {
                None
            },
            _ => None,
        }
    } else {
        None
    }
}

/// Whether no key occurs twice in a schema, nor in the schemas in it or in what these are made of
/// by references and conjunctions, and no conjunction in them clashes.
pub open spec fn orderly(schema: JsonView, root: JsonView, depth: nat) -> bool
    decreases depth,
{
    match schema {
        JsonView::Object(list) => {
            &&& distinct(list)
            &&& depth > 0 ==> {
                let rule = strict::rule(root, (depth - 1) as nat);
                &&& forall|name: Seq<char>, i: int|
                    holds_schemas(name) && 0 <= i < schemas_under(list, name).len() ==> orderly(
                        #[trigger] schemas_under(list, name)[i],
                        root,
                        (depth - 1) as nat,
                    )
                &&& match simple_parts(list, rule) {
                    Ok(before) => match single(before) {
                        Some(only) => orderly(only, root, (depth - 1) as nat) && match rule(only) {
                            Ok(JsonView::Object(part)) => !clashes(
                                json::without_field(before, "allOf"@),
                                part,
                            ),
                            _ => true,
                        },
                        None => true,
                    },
                    Err(_) => true,
                }
                &&& match strict::strict_parts(list, rule) {
                    Ok(after) => match merged(after, root) {
                        Some(whole) => orderly(whole, root, (depth - 1) as nat),
                        None => true,
                    },
                    Err(_) => true,
                }
            }
        },
        _ => true,
    }
}

proof fn lemma_names()
    ensures
        "type"@ != "additionalProperties"@,
        "type"@ != "required"@,
        "type"@ != "properties"@,
        "type"@ != "items"@,
        "type"@ != "anyOf"@,
        "type"@ != "oneOf"@,
        "type"@ != "allOf"@,
        "type"@ != "default"@,
        "additionalProperties"@ != "required"@,
        "additionalProperties"@ != "properties"@,
        "additionalProperties"@ != "items"@,
        "additionalProperties"@ != "anyOf"@,
        "additionalProperties"@ != "oneOf"@,
        "additionalProperties"@ != "allOf"@,
        "additionalProperties"@ != "default"@,
        "required"@ != "properties"@,
        "required"@ != "items"@,
        "required"@ != "anyOf"@,
        "required"@ != "oneOf"@,
        "required"@ != "allOf"@,
        "required"@ != "default"@,
        "properties"@ != "items"@,
        "properties"@ != "anyOf"@,
        "properties"@ != "oneOf"@,
        "properties"@ != "allOf"@,
        "properties"@ != "default"@,
        "anyOf"@ != "oneOf"@,
        "allOf"@ != "oneOf"@,
        "anyOf"@ != "allOf"@,
        "default"@ != "oneOf"@,
        "default"@ != "anyOf"@,
        "default"@ != "allOf"@,
        "default"@ != "items"@,
        "items"@ != "anyOf"@,
        "items"@ != "oneOf"@,
        "items"@ != "allOf"@,
{
    reveal_strlit("type");
    reveal_strlit("additionalProperties");
    reveal_strlit("required");
    reveal_strlit("properties");
    reveal_strlit("items");
    reveal_strlit("anyOf");
    reveal_strlit("oneOf");
    reveal_strlit("allOf");
    reveal_strlit("default");
    assert("type"@[0] == 't' && "additionalProperties"@[0] == 'a' && "required"@[0] == 'r'
        && "properties"@[0] == 'p' && "items"@[0] == 'i' && "oneOf"@[0] == 'o' && "default"@[0]
        == 'd');
    assert("anyOf"@.len() == 5 && "allOf"@.len() == 5 && "additionalProperties"@.len() == 20);
    assert("anyOf"@[1] == 'n' && "allOf"@[1] == 'l');
}

proof fn lemma_definitions(list: Seq<FieldView>, name: Seq<char>, rule: Rule)
    requires
        distinct(list),
    ensures
        strict::definitions(list, name, rule) matches Ok(made) ==> distinct(made),
{
    if let Some(JsonView::Object(parts)) = json::field(list, name) {
        if let Ok(parts) = strict::each_field(parts, rule) {
            lemma_with(list, name, JsonView::Object(parts));
        }
    }
}

proof fn lemma_keys(list: Seq<FieldView>, rule: Rule)
    ensures
        strict::each_field(list, rule) matches Ok(made) ==> strict::keys(made) == strict::keys(
            list,
        ),
    decreases list.len(),
{
    if list.len() == 0 {
        assert(strict::keys(list) =~= Seq::<Seq<char>>::empty());
        assert(strict::keys(Seq::empty()) =~= Seq::<Seq<char>>::empty());
    } else {
        lemma_keys(list.drop_last(), rule);
        if let Ok(before) = strict::each_field(list.drop_last(), rule) {
            if let Ok(value) = rule(list.last().1) {
                let made = before.push((list.last().0, value));
                assert(strict::keys(list) =~= strict::keys(list.drop_last()).push(list.last().0));
                assert(strict::keys(made) =~= strict::keys(before).push(list.last().0));
            }
        }
    }
}

proof fn lemma_simple(list: Seq<FieldView>, rule: Rule)
    requires
        distinct(list),
    ensures
        simple_parts(list, rule) matches Ok(made) ==> distinct(made) && is_closed(made)
            && requires_all(made) && json::field(made, "oneOf"@) is None,
{
    lemma_names();
    lemma_definitions(list, "$defs"@, rule);
    if let Ok(list) = strict::definitions(list, "$defs"@, rule) {
        lemma_definitions(list, "definitions"@, rule);
        if let Ok(list) = strict::definitions(list, "definitions"@, rule) {
            lemma_with(list, "additionalProperties"@, JsonView::Bool(false));
            if let Ok(list) = strict::closed(list) {
                assert(distinct(list) && is_closed(list));
                lemma_properties(list, rule);
                if let Ok(list) = strict::properties(list, rule) {
                    lemma_rest(list, rule);
                }
            }
        }
    }
}

proof fn lemma_properties(list: Seq<FieldView>, rule: Rule)
    requires
        distinct(list),
        is_closed(list),
    ensures
        strict::properties(list, rule) matches Ok(made) ==> distinct(made) && is_closed(made)
            && requires_all(made),
{
    lemma_names();
    if let Some(JsonView::Object(parts)) = json::field(list, "properties"@) {
        if let Ok(made) = strict::each_field(parts, rule) {
            lemma_keys(parts, rule);
            let names = fields::strings_view(strict::keys(parts));
            lemma_with(list, "required"@, names);
            lemma_with(
                json::with_field(list, "required"@, names),
                "properties"@,
                JsonView::Object(made),
            );
        }
    }
}

proof fn lemma_rest(list: Seq<FieldView>, rule: Rule)
    requires
        distinct(list),
        is_closed(list),
        requires_all(list),
    ensures
        strict::items(list, rule) matches Ok(list) ==> (strict::any_of(list, rule) matches Ok(list)
            ==> (strict::one_of(list, rule) matches Ok(made) ==> distinct(made) && is_closed(made)
            && requires_all(made) && json::field(made, "oneOf"@) is None)),
{
    lemma_names();
    if let Some(part) = json::field(list, "items"@) {
        if let Ok(part) = rule(part) {
            lemma_with(list, "items"@, part);
        }
    }
    if let Ok(list) = strict::items(list, rule) {
        assert(distinct(list) && is_closed(list) && requires_all(list));
        if let Some(JsonView::Array(choices)) = json::field(list, "anyOf"@) {
            if let Ok(choices) = strict::each_item(choices, rule) {
                lemma_with(list, "anyOf"@, JsonView::Array(choices));
            }
        }
        if let Ok(list) = strict::any_of(list, rule) {
            assert(distinct(list) && is_closed(list) && requires_all(list));
            lemma_without(list, "oneOf"@);
            let rest = json::without_field(list, "oneOf"@);
            lemma_without(rest, "anyOf"@);
            if let Ok(made) = strict::one_of(list, rule) {
                if let Some(JsonView::Array(choices)) = json::field(list, "oneOf"@) {
                    let before = match json::field(rest, "anyOf"@) {
                        Some(JsonView::Array(choices)) => choices,
                        _ => Seq::empty(),
                    };
                    let strict = strict::each_item(choices, rule)->Ok_0;
                    lemma_with(
                        json::without_field(rest, "anyOf"@),
                        "anyOf"@,
                        JsonView::Array(before + strict),
                    );
                }
            }
        }
    }
}

proof fn lemma_all(list: Seq<FieldView>, root: JsonView, depth: nat)
    requires
        distinct(list),
        is_closed(list),
        requires_all(list),
        json::field(list, "oneOf"@) is None,
        single(list) matches Some(only) ==> orderly(only, root, depth) && match strict::rule(
            root,
            depth,
        )(only) {
            Ok(JsonView::Object(part)) => !clashes(json::without_field(list, "allOf"@), part),
            _ => true,
        },
    ensures
        strict::all_of(list, strict::rule(root, depth)) matches Ok(made) ==> {
            let after = json::without_field(made, "default"@);
            distinct(after) && is_strict(after)
        },
    decreases depth, 1nat,
{
    lemma_names();
    let rule = strict::rule(root, depth);
    lemma_without(list, "allOf"@);
    let rest = json::without_field(list, "allOf"@);
    if let Ok(made) = strict::all_of(list, rule) {
        if let Some(JsonView::Array(parts)) = json::field(list, "allOf"@) {
            if parts.len() == 1 {
                assert(rule(parts[0]) == strict::strict(parts[0], root, depth));
                lemma_strict(parts[0], root, depth);
                if let Ok(JsonView::Object(part)) = rule(parts[0]) {
                    lemma_extended(rest, part);
                    assert(is_closed(made));
                    assert(requires_all(made));
                }
            } else {
                let strict = strict::each_item(parts, rule)->Ok_0;
                lemma_with(rest, "allOf"@, JsonView::Array(strict));
            }
        }
        assert(distinct(made) && is_closed(made) && requires_all(made));
        lemma_without(made, "default"@);
    }
}

/// What is made strict is strict itself.
proof fn lemma_strict(schema: JsonView, root: JsonView, depth: nat)
    requires
        orderly(schema, root, depth),
    ensures
        strict::strict(schema, root, depth) matches Ok(JsonView::Object(made)) ==> distinct(made)
            && is_strict(made),
    decreases depth, 0nat,
{
    lemma_names();
    if depth > 0 {
        if let JsonView::Object(list) = schema {
            let below = (depth - 1) as nat;
            let rule = strict::rule(root, below);
            if list.len() == 0 {
                lemma_empty();
            } else {
                lemma_simple(list, rule);
                if let Ok(before) = simple_parts(list, rule) {
                    lemma_all(before, root, below);
                }
                if let Ok(after) = strict::strict_parts(list, rule) {
                    assert(simple_parts(list, rule) is Ok);
                    let before = simple_parts(list, rule)->Ok_0;
                    assert(strict::all_of(before, rule) is Ok);
                    assert(after == json::without_field(
                        strict::all_of(before, rule)->Ok_0,
                        "default"@,
                    ));
                    if let Some(whole) = merged(after, root) {
                        assert(rule(whole) == strict::strict(whole, root, below));
                        lemma_strict(whole, root, below);
                    }
                }
            }
        }
    }
}

proof fn lemma_empty()
    ensures
        distinct(strict::empty_object()->Object_0),
        is_strict(strict::empty_object()->Object_0),
{
    lemma_names();
    let list = strict::empty_object()->Object_0;
    assert(list[0].0 == "additionalProperties"@ && list[1].0 == "type"@ && list[2].0
        == "properties"@ && list[3].0 == "required"@);
    lemma_field(list, "additionalProperties"@, 0);
    lemma_field(list, "type"@, 1);
    lemma_field(list, "properties"@, 2);
    lemma_field(list, "required"@, 3);
    json::lemma_place(list, "default"@);
    json::lemma_place(list, "oneOf"@);
    assert(fields::strings_view(strict::keys(Seq::empty()))->Array_0 =~= Seq::<JsonView>::empty());
}

proof fn lemma_more_names()
    ensures
        forall|name: Seq<char>| #[trigger]
            holds_schemas(name) ==> name != "additionalProperties"@ && name != "required"@ && name
                != "default"@ && name != "type"@,
        "$defs"@ != "definitions"@,
        "$defs"@ != "properties"@,
        "$defs"@ != "items"@,
        "$defs"@ != "anyOf"@,
        "$defs"@ != "oneOf"@,
        "$defs"@ != "allOf"@,
        "definitions"@ != "properties"@,
        "definitions"@ != "items"@,
        "definitions"@ != "anyOf"@,
        "definitions"@ != "oneOf"@,
        "definitions"@ != "allOf"@,
{
    lemma_names();
    reveal_strlit("$defs");
    reveal_strlit("definitions");
    reveal_strlit("type");
    reveal_strlit("additionalProperties");
    reveal_strlit("required");
    reveal_strlit("default");
    reveal_strlit("properties");
    reveal_strlit("items");
    reveal_strlit("anyOf");
    reveal_strlit("oneOf");
    reveal_strlit("allOf");
    assert("$defs"@[0] == '$' && "definitions"@.len() == 11 && "definitions"@[0] == 'd');
}

/// Whether the schemas that a field holds are strict down to `levels` levels.
spec fn field_strict(list: Seq<FieldView>, name: Seq<char>, levels: nat) -> bool {
    forall|i: int|
        0 <= i < schemas_under(list, name).len() ==> strict_through(
            #[trigger] schemas_under(list, name)[i],
            levels,
        )
}

/// Whether the schemas that a field holds are orderly.
spec fn field_orderly(
    list: Seq<FieldView>,
    name: Seq<char>,
    root: JsonView,
    depth: nat,
) -> bool {
    forall|i: int|
        0 <= i < schemas_under(list, name).len() ==> orderly(
            #[trigger] schemas_under(list, name)[i],
            root,
            depth,
        )
}

proof fn lemma_items_through(items: Seq<JsonView>, root: JsonView, depth: nat, levels: nat)
    requires
        forall|i: int| 0 <= i < items.len() ==> orderly(#[trigger] items[i], root, depth),
    ensures
        strict::each_item(items, strict::rule(root, depth)) matches Ok(made) ==> made.len()
            == items.len() && forall|i: int|
            0 <= i < made.len() ==> strict_through(#[trigger] made[i], levels),
    decreases depth, 1nat, items.len(),
{
    if items.len() > 0 {
        let rule = strict::rule(root, depth);
        let before = items.drop_last();
        assert forall|i: int| 0 <= i < before.len() implies orderly(
            #[trigger] before[i],
            root,
            depth,
        ) by {
            assert(before[i] == items[i]);
        }
        lemma_items_through(before, root, depth, levels);
        assert(rule(items.last()) == strict::strict(items.last(), root, depth));
        strict_schemas_are_strict(items.last(), root, depth, levels);
    }
}

proof fn lemma_fields_through(list: Seq<FieldView>, root: JsonView, depth: nat, levels: nat)
    requires
        forall|i: int| 0 <= i < list.len() ==> orderly((#[trigger] list[i]).1, root, depth),
    ensures
        strict::each_field(list, strict::rule(root, depth)) matches Ok(made) ==> made.len()
            == list.len() && forall|i: int|
            0 <= i < made.len() ==> strict_through((#[trigger] made[i]).1, levels),
    decreases depth, 1nat, list.len(),
{
    if list.len() > 0 {
        let rule = strict::rule(root, depth);
        let before = list.drop_last();
        assert forall|i: int| 0 <= i < before.len() implies orderly(
            (#[trigger] before[i]).1,
            root,
            depth,
        ) by {
            assert(before[i] == list[i]);
        }
        lemma_fields_through(before, root, depth, levels);
        assert(rule(list.last().1) == strict::strict(list.last().1, root, depth));
        strict_schemas_are_strict(list.last().1, root, depth, levels);
    }
}

proof fn lemma_named_through(
    list: Seq<FieldView>,
    name: Seq<char>,
    root: JsonView,
    depth: nat,
    levels: nat,
)
    requires
        names_schemas(name),
        name != "items"@,
        field_orderly(list, name, root, depth),
        json::field(list, name) is Some,
        json::field(list, name)->Some_0 is Object,
    ensures
        strict::each_field(
            json::field(list, name)->Some_0->Object_0,
            strict::rule(root, depth),
        ) matches Ok(made) ==> forall|i: int|
            0 <= i < made.len() ==> strict_through((#[trigger] made[i]).1, levels),
    decreases depth, 2nat, 0nat,
{
    let parts = json::field(list, name)->Some_0->Object_0;
    assert forall|i: int| 0 <= i < parts.len() implies orderly(
        (#[trigger] parts[i]).1,
        root,
        depth,
    ) by {
        assert(schemas_under(list, name)[i] == parts[i].1);
    }
    lemma_fields_through(parts, root, depth, levels);
}

proof fn lemma_listed_through(
    list: Seq<FieldView>,
    name: Seq<char>,
    root: JsonView,
    depth: nat,
    levels: nat,
)
    requires
        lists_schemas(name),
        name != "items"@,
        field_orderly(list, name, root, depth),
        json::field(list, name) is Some,
        json::field(list, name)->Some_0 is Array,
    ensures
        strict::each_item(
            json::field(list, name)->Some_0->Array_0,
            strict::rule(root, depth),
        ) matches Ok(made) ==> forall|i: int|
            0 <= i < made.len() ==> strict_through(#[trigger] made[i], levels),
    decreases depth, 2nat, 0nat,
{
    let parts = json::field(list, name)->Some_0->Array_0;
    assert forall|i: int| 0 <= i < parts.len() implies orderly(#[trigger] parts[i], root, depth) by {
        assert(schemas_under(list, name)[i] == parts[i]);
    }
    lemma_items_through(parts, root, depth, levels);
}

/// Whether two schemas have the same fields but for `one` and `two`.
spec fn same_but(left: Seq<FieldView>, right: Seq<FieldView>, one: Seq<char>, two: Seq<char>) -> bool {
    forall|name: Seq<char>|
        name != one && name != two ==> #[trigger] json::field(left, name) == json::field(
            right,
            name,
        )
}

proof fn lemma_definitions_through(
    list: Seq<FieldView>,
    name: Seq<char>,
    root: JsonView,
    depth: nat,
    levels: nat,
)
    requires
        distinct(list),
        names_schemas(name),
        field_orderly(list, name, root, depth),
    ensures
        strict::definitions(list, name, strict::rule(root, depth)) matches Ok(made) ==> distinct(made)
            && field_strict(made, name, levels) && same_but(made, list, name, name),
    decreases depth, 3nat, 0nat,
{
    lemma_names();
    lemma_more_names();
    if let Some(JsonView::Object(parts)) = json::field(list, name) {
        lemma_named_through(list, name, root, depth, levels);
        if let Ok(parts) = strict::each_field(parts, strict::rule(root, depth)) {
            lemma_with(list, name, JsonView::Object(parts));
        }
    }
}

proof fn lemma_properties_through(
    list: Seq<FieldView>,
    root: JsonView,
    depth: nat,
    levels: nat,
)
    requires
        distinct(list),
        field_orderly(list, "properties"@, root, depth),
    ensures
        strict::properties(list, strict::rule(root, depth)) matches Ok(made) ==> distinct(made)
            && field_strict(made, "properties"@, levels) && same_but(
            made,
            list,
            "properties"@,
            "required"@,
        ),
    decreases depth, 3nat, 0nat,
{
    lemma_names();
    if let Some(JsonView::Object(parts)) = json::field(list, "properties"@) {
        lemma_named_through(list, "properties"@, root, depth, levels);
        if let Ok(made) = strict::each_field(parts, strict::rule(root, depth)) {
            let names = fields::strings_view(strict::keys(parts));
            lemma_with(list, "required"@, names);
            lemma_with(
                json::with_field(list, "required"@, names),
                "properties"@,
                JsonView::Object(made),
            );
        }
    }
}

proof fn lemma_items_field_through(list: Seq<FieldView>, root: JsonView, depth: nat, levels: nat)
    requires
        distinct(list),
        field_orderly(list, "items"@, root, depth),
    ensures
        strict::items(list, strict::rule(root, depth)) matches Ok(made) ==> distinct(made)
            && field_strict(made, "items"@, levels) && same_but(
            made,
            list,
            "items"@,
            "items"@,
        ),
    decreases depth, 3nat, 0nat,
{
    if let Some(part) = json::field(list, "items"@) {
        assert(schemas_under(list, "items"@)[0] == part);
        strict_schemas_are_strict(part, root, depth, levels);
        let rule = strict::rule(root, depth);
        assert(rule(part) == strict::strict(part, root, depth));
        if let Ok(part) = rule(part) {
            lemma_with(list, "items"@, part);
        }
    }
}

proof fn lemma_choices_through(list: Seq<FieldView>, root: JsonView, depth: nat, levels: nat)
    requires
        distinct(list),
        field_orderly(list, "anyOf"@, root, depth),
        field_orderly(list, "oneOf"@, root, depth),
    ensures
        strict::any_of(list, strict::rule(root, depth)) matches Ok(list_) ==> (strict::one_of(
            list_,
            strict::rule(root, depth),
        ) matches Ok(made) ==> distinct(made) && field_strict(made, "anyOf"@, levels) && same_but(
            made,
            list,
            "anyOf"@,
            "oneOf"@,
        )),
    decreases depth, 3nat, 0nat,
{
    lemma_names();
    lemma_more_names();
    let rule = strict::rule(root, depth);
    if let Some(JsonView::Array(choices)) = json::field(list, "anyOf"@) {
        lemma_listed_through(list, "anyOf"@, root, depth, levels);
        if let Ok(choices) = strict::each_item(choices, rule) {
            let next = json::with_field(list, "anyOf"@, JsonView::Array(choices));
            lemma_with(list, "anyOf"@, JsonView::Array(choices));
            assert(schemas_under(next, "anyOf"@) == choices);
        }
    }
    if let Ok(next) = strict::any_of(list, rule) {
        assert(distinct(next));
        assert(field_strict(next, "anyOf"@, levels));
        assert(same_but(next, list, "anyOf"@, "anyOf"@));
        assert(schemas_under(next, "oneOf"@) == schemas_under(list, "oneOf"@));
        lemma_without(next, "oneOf"@);
        let rest = json::without_field(next, "oneOf"@);
        lemma_without(rest, "anyOf"@);
        if let Ok(made) = strict::one_of(next, rule) {
            if let Some(JsonView::Array(choices)) = json::field(next, "oneOf"@) {
                let before = match json::field(rest, "anyOf"@) {
                    Some(JsonView::Array(choices)) => choices,
                    _ => Seq::empty(),
                };
                lemma_listed_through(next, "oneOf"@, root, depth, levels);
                let strict = strict::each_item(choices, rule)->Ok_0;
                lemma_with(
                    json::without_field(rest, "anyOf"@),
                    "anyOf"@,
                    JsonView::Array(before + strict),
                );
                assert(schemas_under(made, "anyOf"@) == before + strict);
                assert(before.len() > 0 ==> schemas_under(next, "anyOf"@) == before);
                assert forall|i: int| 0 <= i < (before + strict).len() implies strict_through(
                    #[trigger] (before + strict)[i],
                    levels,
                ) by {
                    if i < before.len() {
                        assert(schemas_under(next, "anyOf"@)[i] == (before + strict)[i]);
                    } else {
                        assert(strict[i - before.len()] == (before + strict)[i]);
                    }
                }
            }
        }
    }
}

/// Whether all that the fields of a schema hold, but its conjunctions, is strict.
spec fn mostly_strict(list: Seq<FieldView>, levels: nat) -> bool {
    &&& field_strict(list, "$defs"@, levels)
    &&& field_strict(list, "definitions"@, levels)
    &&& field_strict(list, "properties"@, levels)
    &&& field_strict(list, "items"@, levels)
    &&& field_strict(list, "anyOf"@, levels)
}

proof fn lemma_simple_through(list: Seq<FieldView>, root: JsonView, depth: nat, levels: nat)
    requires
        distinct(list),
        forall|name: Seq<char>| #[trigger]
            holds_schemas(name) ==> field_orderly(list, name, root, depth),
    ensures
        simple_parts(list, strict::rule(root, depth)) matches Ok(made) ==> mostly_strict(made, levels)
            && json::field(made, "allOf"@) == json::field(list, "allOf"@),
    decreases depth, 4nat, 0nat,
{
    lemma_names();
    lemma_more_names();
    let rule = strict::rule(root, depth);
    assert(holds_schemas("$defs"@) && holds_schemas("definitions"@) && holds_schemas(
        "properties"@,
    ) && holds_schemas("items"@) && holds_schemas("anyOf"@) && holds_schemas("oneOf"@));
    lemma_definitions_through(list, "$defs"@, root, depth, levels);
    if let Ok(one) = strict::definitions(list, "$defs"@, rule) {
        assert(schemas_under(one, "definitions"@) == schemas_under(list, "definitions"@));
        lemma_definitions_through(one, "definitions"@, root, depth, levels);
        if let Ok(two) = strict::definitions(one, "definitions"@, rule) {
            lemma_with(two, "additionalProperties"@, JsonView::Bool(false));
            if let Ok(three) = strict::closed(two) {
                assert(same_but(three, two, "additionalProperties"@, "additionalProperties"@));
                assert(schemas_under(three, "properties"@) == schemas_under(list, "properties"@));
                lemma_properties_through(three, root, depth, levels);
                if let Ok(four) = strict::properties(three, rule) {
                    assert(schemas_under(four, "items"@) == schemas_under(list, "items"@));
                    lemma_items_field_through(four, root, depth, levels);
                    if let Ok(five) = strict::items(four, rule) {
                        assert(schemas_under(five, "anyOf"@) == schemas_under(list, "anyOf"@));
                        assert(schemas_under(five, "oneOf"@) == schemas_under(list, "oneOf"@));
                        lemma_choices_through(five, root, depth, levels);
                        if let Ok(six) = strict::any_of(five, rule) {
                            if let Ok(made) = strict::one_of(six, rule) {
                                assert(schemas_under(made, "$defs"@) == schemas_under(one, "$defs"@));
                                assert(schemas_under(made, "definitions"@) == schemas_under(
                                    two,
                                    "definitions"@,
                                ));
                                assert(schemas_under(made, "properties"@) == schemas_under(
                                    four,
                                    "properties"@,
                                ));
                                assert(schemas_under(made, "items"@) == schemas_under(
                                    five,
                                    "items"@,
                                ));
                            }
                        }
                    }
                }
            }
        }
    }
}

proof fn lemma_all_through(list: Seq<FieldView>, root: JsonView, depth: nat, levels: nat)
    requires
        distinct(list),
        mostly_strict(list, levels),
        field_orderly(list, "allOf"@, root, depth),
    ensures
        strict::all_of(list, strict::rule(root, depth)) matches Ok(made) ==> {
            let after = json::without_field(made, "default"@);
            mostly_strict(after, levels) && field_strict(after, "allOf"@, levels)
        },
    decreases depth, 3nat, 0nat,
{
    lemma_names();
    lemma_more_names();
    let rule = strict::rule(root, depth);
    lemma_without(list, "allOf"@);
    let rest = json::without_field(list, "allOf"@);
    if let Ok(made) = strict::all_of(list, rule) {
        if let Some(JsonView::Array(parts)) = json::field(list, "allOf"@) {
            if parts.len() == 1 {
                assert(schemas_under(list, "allOf"@)[0] == parts[0]);
                assert(rule(parts[0]) == strict::strict(parts[0], root, depth));
                strict_schemas_are_strict(parts[0], root, depth, levels + 1);
                if let Ok(JsonView::Object(part)) = rule(parts[0]) {
                    lemma_extended(rest, part);
                    assert forall|name: Seq<char>| #[trigger] holds_schemas(name) && name
                        != "oneOf"@ implies field_strict(made, name, levels) by {
                        if json::field(part, name) is Some {
                            assert(schemas_under(made, name) == schemas_under(part, name));
                            assert(((levels + 1) - 1) as nat == levels);
                        } else {
                            assert(schemas_under(made, name) == schemas_under(rest, name));
                            if name != "allOf"@ {
                                assert(schemas_under(rest, name) == schemas_under(list, name));
                            }
                        }
                    }
                }
            } else {
                lemma_listed_through(list, "allOf"@, root, depth, levels);
                let strict = strict::each_item(parts, rule)->Ok_0;
                lemma_with(rest, "allOf"@, JsonView::Array(strict));
                assert forall|name: Seq<char>| #[trigger] holds_schemas(name) && name
                    != "oneOf"@ implies field_strict(made, name, levels) by {
                    if name != "allOf"@ {
                        assert(schemas_under(made, name) == schemas_under(list, name));
                    }
                }
            }
        }
        assert forall|name: Seq<char>| #[trigger] holds_schemas(name) && name
            != "oneOf"@ implies field_strict(made, name, levels) by {}
        assert(distinct(made));
        lemma_without(made, "default"@);
        let after = json::without_field(made, "default"@);
        assert forall|name: Seq<char>| #[trigger] holds_schemas(name) && name
            != "oneOf"@ implies field_strict(after, name, levels) by {
            assert(schemas_under(after, name) == schemas_under(made, name));
        }
        assert(holds_schemas("$defs"@) && holds_schemas("definitions"@) && holds_schemas(
            "properties"@,
        ) && holds_schemas("items"@) && holds_schemas("anyOf"@) && holds_schemas("allOf"@));
    }
}

proof fn lemma_empty_through(levels: nat)
    ensures
        strict_through(strict::empty_object(), levels),
{
    lemma_empty();
    lemma_names();
    lemma_more_names();
    let list = strict::empty_object()->Object_0;
    lemma_field(list, "properties"@, 2);
    assert forall|name: Seq<char>, i: int|
        holds_schemas(name) && 0 <= i < schemas_under(list, name).len() implies strict_through(
        #[trigger] schemas_under(list, name)[i],
        (levels - 1) as nat,
    ) by {
        json::lemma_place(list, name);
        assert(list[0].0 == "additionalProperties"@ && list[1].0 == "type"@ && list[2].0
            == "properties"@ && list[3].0 == "required"@);
    }
}

/// What is made strict is strict at every level: neither it nor a schema of a definition, of a
/// property, of items, of an alternative or of a conjunction in it has a default or exclusive
/// alternatives, each admits no other properties if it is an object's, and requires all the
/// properties that it lists.
pub proof fn strict_schemas_are_strict(schema: JsonView, root: JsonView, depth: nat, levels: nat)
    requires
        orderly(schema, root, depth),
    ensures
        strict::strict(schema, root, depth) matches Ok(made) ==> strict_through(made, levels),
    decreases depth, 0nat, 0nat,
{
    if depth > 0 && levels > 0 {
        if let JsonView::Object(list) = schema {
            let below = (depth - 1) as nat;
            let under = (levels - 1) as nat;
            let rule = strict::rule(root, below);
            if list.len() == 0 {
                lemma_empty_through(levels);
            } else if let Ok(after) = strict::strict_parts(list, rule) {
                lemma_strict(schema, root, depth);
                lemma_simple(list, rule);
                assert forall|name: Seq<char>| #[trigger] holds_schemas(name) implies field_orderly(
                    list,
                    name,
                    root,
                    below,
                ) by {}
                lemma_simple_through(list, root, below, under);
                assert(simple_parts(list, rule) is Ok);
                let before = simple_parts(list, rule)->Ok_0;
                assert(holds_schemas("allOf"@));
                assert(schemas_under(before, "allOf"@) == schemas_under(list, "allOf"@));
                lemma_all_through(before, root, below, under);
                assert(strict::all_of(before, rule) is Ok);
                assert(after == json::without_field(
                    strict::all_of(before, rule)->Ok_0,
                    "default"@,
                ));
                match merged(after, root) {
                    Some(whole) => {
                        assert(rule(whole) == strict::strict(whole, root, below));
                        strict_schemas_are_strict(whole, root, below, levels);
                    },
                    None => {
                        if let Ok(made) = strict::strict(schema, root, depth) {
                            assert(made == JsonView::Object(after));
                            assert forall|name: Seq<char>, i: int|
                                holds_schemas(name) && 0 <= i < schemas_under(
                                    after,
                                    name,
                                ).len() implies strict_through(
                                #[trigger] schemas_under(after, name)[i],
                                under,
                            ) by {
                                if name != "oneOf"@ {
                                    assert(field_strict(after, name, under));
                                }
                            }
                        }
                    },
                }
            }
        }
    }
}

proof fn lemma_each_field(list: Seq<FieldView>, how: Rule)
    ensures
        match strict::each_field(list, how) {
            Ok(made) => made.len() == list.len() && forall|i: int|
                0 <= i < list.len() ==> (#[trigger] made[i]).0 == list[i].0 && how(list[i].1)
                    == Ok::<JsonView, RefusalView>(made[i].1),
            Err(_) => exists|i: int| 0 <= i < list.len() && how((#[trigger] list[i]).1) is Err,
        },
    decreases list.len(),
{
    if list.len() > 0 {
        let before = list.drop_last();
        lemma_each_field(before, how);
        match strict::each_field(before, how) {
            Ok(made) => {
                assert forall|i: int| 0 <= i < before.len() implies (#[trigger] made[i]).0
                    == list[i].0 && how(list[i].1) == Ok::<JsonView, RefusalView>(made[i].1) by {
                    assert(before[i] == list[i]);
                }
            },
            Err(_) => {
                let i = choose|i: int| 0 <= i < before.len() && how((#[trigger] before[i]).1) is Err;
                assert(list[i] == before[i]);
            },
        }
    }
}

/// Of a schema with properties each property is made strict under its name and in its place, all of
/// them are required, and what else the schema says stays.
pub proof fn properties_are_required_and_made_strict(
    list: Seq<FieldView>,
    parts: Seq<FieldView>,
    how: Rule,
    at: int,
    other: Seq<char>,
)
    requires
        distinct(list),
        json::field(list, "properties"@) == Some(JsonView::Object(parts)),
        0 <= at < parts.len(),
    ensures
        match strict::properties(list, how) {
            Ok(made) => {
                let kept = json::field(made, "properties"@);
                let named = json::field(made, "required"@);
                &&& kept matches Some(JsonView::Object(strict))
                &&& strict.len() == parts.len()
                &&& strict[at].0 == parts[at].0
                &&& how(parts[at].1) == Ok::<JsonView, RefusalView>(strict[at].1)
                &&& named matches Some(JsonView::Array(names))
                &&& names.len() == parts.len()
                &&& names[at] == JsonView::Text(parts[at].0)
                &&& other != "properties"@ && other != "required"@ ==> json::field(made, other)
                    == json::field(list, other)
            },
            Err(_) => exists|i: int| 0 <= i < parts.len() && how((#[trigger] parts[i]).1) is Err,
        },
{
    lemma_names();
    lemma_each_field(parts, how);
    if let Ok(made) = strict::each_field(parts, how) {
        let names = fields::strings_view(strict::keys(parts));
        lemma_with(list, "required"@, names);
        lemma_with(json::with_field(list, "required"@, names), "properties"@, JsonView::Object(made));
    }
}

/// The schema of the items, and every alternative in its place, is made strict; what else the schema
/// says stays.
pub proof fn items_and_alternatives_are_made_strict(
    list: Seq<FieldView>,
    choices: Seq<JsonView>,
    how: Rule,
    at: int,
    other: Seq<char>,
)
    requires
        distinct(list),
        0 <= at < choices.len(),
    ensures
        strict::items(list, how) matches Ok(made) ==> {
            &&& json::field(list, "items"@) matches Some(part) ==> how(part) == Ok::<
                JsonView,
                RefusalView,
            >(json::field(made, "items"@)->Some_0) && json::field(made, "items"@) is Some
            &&& json::field(list, "items"@) is None ==> made == list
            &&& other != "items"@ ==> json::field(made, other) == json::field(list, other)
        },
        json::field(list, "anyOf"@) == Some(JsonView::Array(choices)) ==> match strict::any_of(
            list,
            how,
        ) {
            Ok(made) => {
                &&& json::field(made, "anyOf"@) matches Some(JsonView::Array(strict))
                &&& strict.len() == choices.len()
                &&& how(choices[at]) == Ok::<JsonView, RefusalView>(strict[at])
                &&& other != "anyOf"@ ==> json::field(made, other) == json::field(list, other)
            },
            Err(_) => exists|i: int| 0 <= i < choices.len() && how(#[trigger] choices[i]) is Err,
        },
{
    if let Some(part) = json::field(list, "items"@) {
        if let Ok(part) = how(part) {
            lemma_with(list, "items"@, part);
        }
    }
    lemma_each_item(choices, how);
    if let Ok(made) = strict::each_item(choices, how) {
        lemma_with(list, "anyOf"@, JsonView::Array(made));
    }
}

proof fn lemma_each_item(list: Seq<JsonView>, how: Rule)
    ensures
        match strict::each_item(list, how) {
            Ok(made) => made.len() == list.len() && forall|i: int|
                0 <= i < list.len() ==> how(#[trigger] list[i]) == Ok::<JsonView, RefusalView>(
                    made[i],
                ),
            Err(_) => exists|i: int| 0 <= i < list.len() && how(#[trigger] list[i]) is Err,
        },
    decreases list.len(),
{
    if list.len() > 0 {
        let before = list.drop_last();
        lemma_each_item(before, how);
        match strict::each_item(before, how) {
            Ok(made) => {
                assert forall|i: int| 0 <= i < before.len() implies how(#[trigger] list[i]) == Ok::<
                    JsonView,
                    RefusalView,
                >(made[i]) by {
                    assert(before[i] == list[i]);
                }
            },
            Err(_) => {
                let i = choose|i: int| 0 <= i < before.len() && how(#[trigger] before[i]) is Err;
                assert(list[i] == before[i]);
            },
        }
    }
}

/// Exclusive alternatives become alternatives behind those that there are; what else the schema says
/// stays.
pub proof fn exclusive_alternatives_join_the_others(
    list: Seq<FieldView>,
    before: Seq<JsonView>,
    choices: Seq<JsonView>,
    how: Rule,
    at: int,
    other: Seq<char>,
)
    requires
        distinct(list),
        json::field(list, "oneOf"@) == Some(JsonView::Array(choices)),
        json::field(list, "anyOf"@) == Some(JsonView::Array(before)),
        0 <= at < choices.len(),
    ensures
        match strict::one_of(list, how) {
            Ok(made) => {
                &&& json::field(made, "oneOf"@) is None
                &&& json::field(made, "anyOf"@) matches Some(JsonView::Array(all))
                &&& all.len() == before.len() + choices.len()
                &&& all.take(before.len() as int) == before
                &&& how(choices[at]) == Ok::<JsonView, RefusalView>(all[before.len() + at])
                &&& other != "anyOf"@ && other != "oneOf"@ ==> json::field(made, other)
                    == json::field(list, other)
            },
            Err(_) => exists|i: int| 0 <= i < choices.len() && how(#[trigger] choices[i]) is Err,
        },
{
    lemma_names();
    lemma_without(list, "oneOf"@);
    let rest = json::without_field(list, "oneOf"@);
    lemma_without(rest, "anyOf"@);
    let rest = json::without_field(rest, "anyOf"@);
    lemma_each_item(choices, how);
    if let Ok(made) = strict::each_item(choices, how) {
        lemma_with(rest, "anyOf"@, JsonView::Array(before + made));
        assert((before + made).take(before.len() as int) =~= before);
    }
}

/// A conjunction of one part is merged into its schema, the part's fields before the schema's own.
pub proof fn single_parts_are_merged(
    list: Seq<FieldView>,
    parts: Seq<JsonView>,
    part: Seq<FieldView>,
    how: Rule,
    key: Seq<char>,
)
    requires
        distinct(list),
        distinct(part),
        json::field(list, "allOf"@) == Some(JsonView::Array(parts)),
        parts.len() == 1,
        how(parts[0]) == Ok::<JsonView, RefusalView>(JsonView::Object(part)),
        key != "allOf"@,
    ensures
        strict::all_of(list, how) matches Ok(made) && json::field(made, key) == (match json::field(
            part,
            key,
        ) {
            Some(value) => Some(value),
            None => json::field(list, key),
        }),
{
    lemma_without(list, "allOf"@);
    lemma_extended(json::without_field(list, "allOf"@), part);
}

/// An object's schema admits no other properties, or is refused if it asks to.
pub proof fn objects_are_closed(list: Seq<FieldView>, other: Seq<char>)
    requires
        distinct(list),
        json::field(list, "type"@) == Some(JsonView::Text("object"@)),
    ensures
        match strict::closed(list) {
            Ok(made) => {
                &&& json::field(made, "additionalProperties"@) == Some(JsonView::Bool(false))
                &&& other != "additionalProperties"@ ==> json::field(made, other) == json::field(
                    list,
                    other,
                )
            },
            Err(refusal) => {
                &&& json::field(list, "additionalProperties"@) is Some
                &&& json::field(list, "additionalProperties"@) != Some(JsonView::Bool(false))
                &&& refusal == RefusalView::Text(
                    "additionalProperties must be false for object schemas"@,
                )
            },
        },
        json::field(list, "additionalProperties"@) is None || json::field(
            list,
            "additionalProperties"@,
        ) == Some(JsonView::Bool(false)) ==> strict::closed(list) is Ok,
{
    lemma_with(list, "additionalProperties"@, JsonView::Bool(false));
}

} // verus!
