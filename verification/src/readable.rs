//! The texts of a document that can be read as numbers.
use crate::json;
use crate::json::{FieldView, Json, JsonView};
use crate::models::normalize;
use crate::models::normalize::clean;
use crate::pieces;
use crate::profilers::ncu;
use crate::profilers::ncu::metric_text;
use vstd::prelude::*;

verus! {

/// The forms of a text that are read as numbers: itself, as a metric, and as a model writes it.
pub open spec fn forms(text: Seq<char>) -> Seq<Seq<char>> {
    seq![text, ncu::metric_part(text), normalize::cleaned(text)]
}

/// The texts in a value that are read as numbers.
pub open spec fn value_parts(value: JsonView) -> Seq<Seq<char>>
    decreases value, 0int,
{
    match value {
        JsonView::Text(text) => forms(text),
        JsonView::Array(items) => items_parts(items, items.len() as int),
        JsonView::Object(fields) => fields_parts(fields, fields.len() as int),
        _ => Seq::empty(),
    }
}

/// The texts in the first `end` items that are read as numbers.
pub open spec fn items_parts(items: Seq<JsonView>, end: int) -> Seq<Seq<char>>
    decreases items, end,
{
    if end <= 0 || end > items.len() {
        Seq::empty()
    } else {
        items_parts(items, end - 1) + value_parts(items[end - 1])
    }
}

/// The texts in the first `end` fields that are read as numbers.
pub open spec fn fields_parts(fields: Seq<FieldView>, end: int) -> Seq<Seq<char>>
    decreases fields, end,
{
    if end <= 0 || end > fields.len() {
        Seq::empty()
    } else {
        fields_parts(fields, end - 1) + value_parts(fields[end - 1].1)
    }
}

fn put(parts: &mut Vec<String>, part: String)
    ensures
        pieces::texts(final(parts)@) == pieces::texts(old(parts)@).push(part@),
{
    proof {
        pieces::lemma_texts_push(parts@, part);
    }
    parts.push(part);
}

fn add_value(parts: &mut Vec<String>, value: &Json)
    ensures
        pieces::texts(final(parts)@) == pieces::texts(old(parts)@) + value_parts(value@),
    decreases *value,
{
    broadcast use json::array_view, json::object_view;

    let ghost before = pieces::texts(parts@);
    match value {
        Json::Text(text) => {
            put(parts, text.clone());
            put(parts, metric_text(text.as_str()));
            put(parts, clean(text.as_str()));
            assert(pieces::texts(parts@) =~= before + forms(text@));
        },
        Json::Array(items) => {
            let ghost all = json::items_view(items@);
            let mut index: usize = 0;
            assert(before + items_parts(all, 0) =~= before);
            while index < items.len()
                invariant
                    index <= items@.len(),
                    all == json::items_view(items@),
                    pieces::texts(parts@) == before + items_parts(all, index as int),
                    *value == Json::Array(*items),
                decreases items@.len() - index,
            {
                assert(decreases_to!(*value => (*value)->Array_0));
                assert(decreases_to!(*items => items@));
                assert(decreases_to!(items@ => items@[index as int]));
                assert(all[index as int] == items@[index as int]@);
                add_value(parts, &items[index]);
                index += 1;
                assert(pieces::texts(parts@) =~= before + items_parts(all, index as int));
            }
        },
        Json::Object(fields) => {
            let ghost all = json::fields_view(fields@);
            let mut index: usize = 0;
            assert(before + fields_parts(all, 0) =~= before);
            while index < fields.len()
                invariant
                    index <= fields@.len(),
                    all == json::fields_view(fields@),
                    pieces::texts(parts@) == before + fields_parts(all, index as int),
                    *value == Json::Object(*fields),
                decreases fields@.len() - index,
            {
                assert(decreases_to!(*value => (*value)->Object_0));
                assert(decreases_to!(*fields => fields@));
                assert(decreases_to!(fields@ => fields@[index as int]));
                assert(decreases_to!(fields@[index as int] => fields@[index as int].1));
                assert(all[index as int].1 == fields@[index as int].1@);
                add_value(parts, &fields[index].1);
                index += 1;
                assert(pieces::texts(parts@) =~= before + fields_parts(all, index as int));
            }
        },
        _ => {
            assert(before + Seq::<Seq<char>>::empty() =~= before);
        },
    }
}

/// The texts in a document that are read as numbers.
pub fn numbers_in(value: &Json) -> (parts: Vec<String>)
    ensures
        pieces::texts(parts@) == value_parts(value@),
{
    let mut parts: Vec<String> = Vec::new();
    assert(pieces::texts(parts@) + value_parts(value@) =~= value_parts(value@));
    add_value(&mut parts, value);
    parts
}

proof fn lemma_items_parts(items: Seq<JsonView>, end: int, part: Seq<char>)
    requires
        0 <= end <= items.len(),
    ensures
        items_parts(items, end).contains(part) <==> exists|i: int|
            0 <= i < end && value_parts(#[trigger] items[i]).contains(part),
    decreases end,
{
    if end > 0 {
        lemma_items_parts(items, end - 1, part);
        let before = items_parts(items, end - 1);
        let last = value_parts(items[end - 1]);
        lemma_either(before, last, part);
    }
}

proof fn lemma_fields_parts(fields: Seq<FieldView>, end: int, part: Seq<char>)
    requires
        0 <= end <= fields.len(),
    ensures
        fields_parts(fields, end).contains(part) <==> exists|i: int|
            0 <= i < end && value_parts((#[trigger] fields[i]).1).contains(part),
    decreases end,
{
    if end > 0 {
        lemma_fields_parts(fields, end - 1, part);
        let before = fields_parts(fields, end - 1);
        let last = value_parts(fields[end - 1].1);
        lemma_either(before, last, part);
    }
}

proof fn lemma_either(left: Seq<Seq<char>>, right: Seq<Seq<char>>, part: Seq<char>)
    ensures
        (left + right).contains(part) <==> left.contains(part) || right.contains(part),
{
    let both = left + right;
    if left.contains(part) {
        let k = choose|k: int| 0 <= k < left.len() && left[k] == part;
        assert(both[k] == part);
    }
    if right.contains(part) {
        let k = choose|k: int| 0 <= k < right.len() && right[k] == part;
        assert(both[left.len() + k] == part);
    }
}

/// What may be read as a number within a value: a text is, and what may be within an item or a field
/// is within the whole, and nothing else.
pub proof fn texts_within_are_listed(value: JsonView, part: Seq<char>)
    ensures
        match value {
            JsonView::Text(text) => value_parts(value).contains(text),
            JsonView::Array(items) => value_parts(value).contains(part) <==> exists|i: int|
                0 <= i < items.len() && value_parts(#[trigger] items[i]).contains(part),
            JsonView::Object(fields) => value_parts(value).contains(part) <==> exists|i: int|
                0 <= i < fields.len() && value_parts((#[trigger] fields[i]).1).contains(part),
            _ => !value_parts(value).contains(part),
        },
{
    match value {
        JsonView::Text(text) => {
            assert(value_parts(value)[0] == text);
        },
        JsonView::Array(items) => {
            lemma_items_parts(items, items.len() as int, part);
        },
        JsonView::Object(fields) => {
            lemma_fields_parts(fields, fields.len() as int, part);
        },
        _ => {},
    }
}

} // verus!
