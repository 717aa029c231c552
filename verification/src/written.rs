//! Documents as text.
use crate::json;
use crate::json::{FieldView, Json, JsonView};
use crate::outside;
use crate::outside::quote;
use vstd::prelude::*;

verus! {

/// A value written without white space.
pub open spec fn compact(value: JsonView) -> Seq<char>
    decreases value, 0nat,
{
    match value {
        JsonView::Null => "null"@,
        JsonView::Bool(held) => if held {
            "true"@
        } else {
            "false"@
        },
        JsonView::Number(held) => held.text(),
        JsonView::Text(held) => outside::quoted(held),
        JsonView::Array(items) => "["@ + compact_items(items, items.len()) + "]"@,
        JsonView::Object(fields) => "{"@ + compact_fields(fields, fields.len()) + "}"@,
    }
}

/// The first `count` items, with commas between them.
pub open spec fn compact_items(items: Seq<JsonView>, count: nat) -> Seq<char>
    decreases items, count,
{
    if count == 0 || count > items.len() {
        Seq::empty()
    } else if count == 1 {
        compact(items[0])
    } else {
        compact_items(items, (count - 1) as nat) + ","@ + compact(items[count - 1])
    }
}

/// The first `count` fields, with commas between them and a colon after each key.
pub open spec fn compact_fields(fields: Seq<FieldView>, count: nat) -> Seq<char>
    decreases fields, count,
{
    if count == 0 || count > fields.len() {
        Seq::empty()
    } else if count == 1 {
        outside::quoted(fields[0].0) + ":"@ + compact(fields[0].1)
    } else {
        compact_fields(fields, (count - 1) as nat) + ","@ + outside::quoted(fields[count - 1].0)
            + ":"@ + compact(fields[count - 1].1)
    }
}

/// A value written without white space.
pub fn to_text(value: &Json) -> (text: String)
    ensures
        text@ == compact(value@),
    decreases value,
{
    broadcast use {json::array_view, json::object_view};

    match value {
        Json::Null => "null".to_owned(),
        Json::Bool(held) => if *held {
            "true".to_owned()
        } else {
            "false".to_owned()
        },
        Json::Number(held) => held.text(),
        Json::Text(held) => quote(held.as_str()),
        Json::Array(items) => {
            let mut text = String::new();
            let ghost all = json::items_view(items@);
            let mut index: usize = 0;
            while index < items.len()
                invariant
                    index <= items@.len(),
                    all == json::items_view(items@),
                    *value == Json::Array(*items),
                    text@ == compact_items(all, index as nat),
                decreases items@.len() - index,
            {
                assert(decreases_to!(*value => (*value)->Array_0));
                assert(decreases_to!(*items => items@));
                assert(decreases_to!(items@ => items@[index as int]));
                if index > 0 {
                    text.append(",");
                }
                text.append(to_text(&items[index]).as_str());
                assert(index == 0 ==> text@ =~= compact(all[0]));
                index += 1;
            }
            "[".to_owned().concat(text.as_str()).concat("]")
        },
        Json::Object(fields) => {
            let mut text = String::new();
            let ghost all = json::fields_view(fields@);
            let mut index: usize = 0;
            while index < fields.len()
                invariant
                    index <= fields@.len(),
                    all == json::fields_view(fields@),
                    *value == Json::Object(*fields),
                    text@ == compact_fields(all, index as nat),
                decreases fields@.len() - index,
            {
                assert(decreases_to!(*value => (*value)->Object_0));
                assert(decreases_to!(*fields => fields@));
                assert(decreases_to!(fields@ => fields@[index as int]));
                assert(decreases_to!(fields@[index as int] => fields@[index as int].1));
                if index > 0 {
                    text.append(",");
                }
                text.append(quote(fields[index].0.as_str()).as_str());
                text.append(":");
                text.append(to_text(&fields[index].1).as_str());
                assert(index == 0 ==> text@ =~= outside::quoted(all[0].0) + ":"@ + compact(
                    all[0].1,
                ));
                index += 1;
            }
            "{".to_owned().concat(text.as_str()).concat("}")
        },
    }
}

/// A value as a report shows it: a string bare, and the words `None`, `True` and `False`.
pub open spec fn shown(value: JsonView) -> Seq<char> {
    match value {
        JsonView::Text(held) => held,
        JsonView::Null => "None"@,
        JsonView::Bool(held) => if held {
            "True"@
        } else {
            "False"@
        },
        _ => compact(value),
    }
}

/// A value as a report shows it.
pub fn display(value: &Json) -> (text: String)
    ensures
        text@ == shown(value@),
{
    match value {
        Json::Text(held) => held.clone(),
        Json::Null => "None".to_owned(),
        Json::Bool(held) => if *held {
            "True".to_owned()
        } else {
            "False".to_owned()
        },
        _ => to_text(value),
    }
}

} // verus!
