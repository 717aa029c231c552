//! The fields of an object while it is put together.
use crate::json;
use crate::json::{FieldView, Json, JsonView};
use crate::number;
use crate::number::{Number, NumberView};
use crate::pieces;
use crate::text::same;
use vstd::prelude::*;

verus! {

/// A row of fields.
pub struct Fields {
    pub list: Vec<(String, Json)>,
}

impl View for Fields {
    type V = Seq<FieldView>;

    open spec fn view(&self) -> Seq<FieldView> {
        json::fields_view(self.list@)
    }
}

impl Fields {
    /// No fields.
    pub fn new() -> (fields: Self)
        ensures
            fields@ == Seq::<FieldView>::empty(),
    {
        let fields = Fields { list: Vec::new() };
        assert(fields@ =~= Seq::<FieldView>::empty());
        fields
    }

    /// Copies of the fields of `list`.
    pub fn copied(list: &Vec<(String, Json)>) -> (fields: Self)
        ensures
            fields@ == json::fields_view(list@),
    {
        let mut fields = Fields::new();
        let mut index: usize = 0;
        while index < list.len()
            invariant
                index <= list@.len(),
                fields@ == json::fields_view(list@).take(index as int),
            decreases list@.len() - index,
        {
            fields.push(list[index].0.as_str(), list[index].1.clone());
            index += 1;
            assert(json::fields_view(list@).take(index as int) =~= json::fields_view(list@).take(
                index - 1,
            ).push(json::fields_view(list@)[index - 1]));
        }
        assert(json::fields_view(list@).take(index as int) =~= json::fields_view(list@));
        fields
    }

    /// Adds a field at the end.
    pub fn push(&mut self, key: &str, value: Json)
        ensures
            final(self)@ == old(self)@.push((key@, value@)),
    {
        let name = key.to_owned();
        proof {
            json::lemma_fields_push(self.list@, (name, value));
        }
        self.list.push((name, value));
    }

    /// The fields with one more at the end.
    pub fn with(self, key: &str, value: Json) -> (fields: Self)
        ensures
            fields@ == self@.push((key@, value@)),
    {
        let mut fields = self;
        fields.push(key, value);
        fields
    }

    /// The object with these fields.
    pub fn object(self) -> (value: Json)
        ensures
            value@ == JsonView::Object(self@),
    {
        broadcast use json::object_view;

        Json::Object(self.list)
    }

    /// The place of the field `key`.
    pub fn position(&self, key: &str) -> (found: Option<usize>)
        ensures
            match found {
                Some(index) => json::place(self@, key@) == Some(index as int) && index < self.list@.len(),
                None => json::place(self@, key@) is None,
            },
    {
        let ghost all = self@;
        let mut index: usize = 0;
        while index < self.list.len()
            invariant
                index <= self.list@.len(),
                all == self@,
                forall|i: int| 0 <= i < index ==> (#[trigger] all[i]).0 != key@,
            decreases self.list@.len() - index,
        {
            if same(self.list[index].0.as_str(), key) {
                proof {
                    json::lemma_place(all, key@);
                    assert(all[index as int].0 == key@);
                }
                return Some(index);
            }
            index += 1;
        }
        proof {
            json::lemma_place(all, key@);
        }
        None
    }

    /// Whether there is a field `key`.
    pub fn has(&self, key: &str) -> (found: bool)
        ensures
            found == (json::field(self@, key@) is Some),
    {
        self.position(key).is_some()
    }

    /// The value of the field `key`.
    pub fn get(&self, key: &str) -> (found: Option<&Json>)
        ensures
            match found {
                Some(value) => json::field(self@, key@) == Some(value@),
                None => json::field(self@, key@) is None,
            },
    {
        match self.position(key) {
            Some(index) => Some(&self.list[index].1),
            None => None,
        }
    }

    /// Sets the field `key`: in its place, or at the end if the key is new.
    pub fn set(&mut self, key: &str, value: Json)
        ensures
            final(self)@ == json::with_field(old(self)@, key@, value@),
    {
        match self.position(key) {
            Some(index) => {
                let ghost before = self@;
                self.list[index] = (key.to_owned(), value);
                assert(self@ =~= before.update(index as int, (key@, value@)));
            },
            None => {
                self.push(key, value);
            },
        }
    }

    /// Takes the field `key` out; the last field takes its place.
    pub fn take(&mut self, key: &str) -> (taken: Option<Json>)
        ensures
            final(self)@ == json::without_field(old(self)@, key@),
            json::optional(taken) == json::field(old(self)@, key@),
    {
        match self.position(key) {
            Some(index) => {
                let ghost before = self@;
                let (_, value) = self.list.swap_remove(index);
                assert(self@ =~= before.update(index as int, before.last()).drop_last());
                Some(value)
            },
            None => None,
        }
    }

    /// Sets every field of `others`, in order.
    pub fn extend(&mut self, others: Fields)
        ensures
            final(self)@ == extended(old(self)@, others@),
    {
        let mut index: usize = 0;
        let ghost start = self@;
        assert(others@.take(0) =~= Seq::<FieldView>::empty());
        while index < others.list.len()
            invariant
                index <= others.list@.len(),
                self@ == extended(start, others@.take(index as int)),
            decreases others.list@.len() - index,
        {
            self.set(others.list[index].0.as_str(), others.list[index].1.clone());
            index += 1;
            assert(others@.take(index as int).drop_last() =~= others@.take(index - 1));
            assert(others@.take(index as int).last() == others@[index - 1]);
        }
        assert(others@.take(index as int) =~= others@);
    }
}

/// `fields` with every field of `others` set, in order.
pub open spec fn extended(fields: Seq<FieldView>, others: Seq<FieldView>) -> Seq<FieldView>
    decreases others.len(),
{
    if others.len() == 0 {
        fields
    } else {
        json::with_field(extended(fields, others.drop_last()), others.last().0, others.last().1)
    }
}

/// The string `content`.
pub fn text(content: &str) -> (value: Json)
    ensures
        value@ == JsonView::Text(content@),
{
    Json::Text(content.to_owned())
}

/// The model of the integer `value`.
pub open spec fn natural_view(value: nat) -> JsonView {
    JsonView::Number(number::written(value))
}

/// The integer `value`.
pub fn natural(value: u64) -> (result: Json)
    ensures
        result@ == natural_view(value as nat),
{
    Json::Number(Number::of(value))
}

/// The model of the integer `value`. A negative one is not read as a decimal number.
pub open spec fn signed_view(value: int) -> JsonView {
    if value >= 0 {
        natural_view(value as nat)
    } else {
        JsonView::Number(NumberView::Integer(value as i128, None))
    }
}

/// The integer `value`.
pub fn signed(value: i64) -> (result: Json)
    ensures
        result@ == signed_view(value as int),
{
    if value >= 0 {
        natural(value as u64)
    } else {
        Json::Number(Number::Integer(value as i128, None))
    }
}

/// An array with nothing in it.
pub fn empty_array() -> (value: Json)
    ensures
        value@ == JsonView::Array(Seq::empty()),
{
    broadcast use json::array_view;

    let value = Json::Array(Vec::new());
    assert(value@->Array_0 =~= Seq::<JsonView>::empty());
    value
}

/// The model of the array of strings that `list` holds.
pub open spec fn strings_view(list: Seq<Seq<char>>) -> JsonView {
    JsonView::Array(Seq::new(list.len(), |i: int| JsonView::Text(list[i])))
}

/// The array of strings that `list` holds.
pub fn strings(list: &Vec<String>) -> (value: Json)
    ensures
        value@ == strings_view(pieces::texts(list@)),
{
    broadcast use json::array_view;

    let mut items: Vec<Json> = Vec::new();
    let mut index: usize = 0;
    while index < list.len()
        invariant
            index <= list@.len(),
            items@.len() == index,
            forall|i: int| 0 <= i < index ==> (#[trigger] items@[i])@ == JsonView::Text(list@[i]@),
        decreases list@.len() - index,
    {
        items.push(text(list[index].as_str()));
        index += 1;
    }
    let value = Json::Array(items);
    assert(value@->Array_0 =~= strings_view(pieces::texts(list@))->Array_0);
    value
}

/// A value or null.
pub open spec fn or_null(value: Option<JsonView>) -> JsonView {
    match value {
        Some(value) => value,
        None => JsonView::Null,
    }
}

/// A string or null.
pub open spec fn text_or_null(text: Option<Seq<char>>) -> JsonView {
    match text {
        Some(text) => JsonView::Text(text),
        None => JsonView::Null,
    }
}

/// A string or null.
pub fn optional_text(value: &Option<String>) -> (result: Json)
    ensures
        result@ == text_or_null(pieces::optional(*value)),
{
    match value {
        Some(value) => text(value.as_str()),
        None => Json::Null,
    }
}

} // verus!
