//! Documents: JSON values as plain data.
//!
//! The fields of an object keep the order in which they came.
use crate::number::{Number, NumberView, Reading, ReadingView};
use crate::text::same;
use vstd::prelude::*;

verus! {

/// A JSON value.
#[verifier::ext_equal]
pub enum Json {
    Null,
    Bool(bool),
    Number(Number),
    Text(String),
    Array(Vec<Json>),
    Object(Vec<(String, Json)>),
}

/// The model of a field of an object.
pub type FieldView = (Seq<char>, JsonView);

/// The model of a JSON value.
#[verifier::ext_equal]
pub enum JsonView {
    Null,
    Bool(bool),
    Number(NumberView),
    Text(Seq<char>),
    Array(Seq<JsonView>),
    Object(Seq<FieldView>),
}

/// The model of `value`.
pub open spec fn view_of(value: Json) -> JsonView
    decreases value,
{
    match value {
        Json::Null => JsonView::Null,
        Json::Bool(value) => JsonView::Bool(value),
        Json::Number(value) => JsonView::Number(value@),
        Json::Text(value) => JsonView::Text(value@),
        Json::Array(items) => JsonView::Array(
            Seq::new(
                items@.len(),
                |i: int|
                    if 0 <= i < items@.len() {
                        view_of(items@[i])
                    } else {
                        JsonView::Null
                    },
            ),
        ),
        Json::Object(fields) => JsonView::Object(
            Seq::new(
                fields@.len(),
                |i: int|
                    if 0 <= i < fields@.len() {
                        (fields@[i].0@, view_of(fields@[i].1))
                    } else {
                        (seq![], JsonView::Null)
                    },
            ),
        ),
    }
}

impl View for Json {
    type V = JsonView;

    open spec fn view(&self) -> JsonView {
        view_of(*self)
    }
}

/// The models of a row of values.
pub open spec fn items_view(items: Seq<Json>) -> Seq<JsonView> {
    Seq::new(items.len(), |i: int| items[i]@)
}

/// The models of a row of fields.
pub open spec fn fields_view(fields: Seq<(String, Json)>) -> Seq<FieldView> {
    Seq::new(fields.len(), |i: int| (fields[i].0@, fields[i].1@))
}

/// The model of an optional value.
pub open spec fn optional(value: Option<Json>) -> Option<JsonView> {
    match value {
        Some(value) => Some(value@),
        None => None,
    }
}

/// The model of a value or of why there is none.
pub open spec fn outcome(result: Result<Json, String>) -> Result<JsonView, Seq<char>> {
    match result {
        Ok(value) => Ok(value@),
        Err(error) => Err(error@),
    }
}

/// The model of an array is made of the models of its items.
pub broadcast proof fn array_view(items: Vec<Json>)
    ensures
        #[trigger] (Json::Array(items))@ == JsonView::Array(items_view(items@)),
{
    assert((Json::Array(items))@->Array_0 =~= items_view(items@));
}

/// The model of an object is made of the models of its fields.
pub broadcast proof fn object_view(fields: Vec<(String, Json)>)
    ensures
        #[trigger] (Json::Object(fields))@ == JsonView::Object(fields_view(fields@)),
{
    assert((Json::Object(fields))@->Object_0 =~= fields_view(fields@));
}

/// Adding an item adds its model.
pub proof fn lemma_items_push(items: Seq<Json>, item: Json)
    ensures
        items_view(items.push(item)) == items_view(items).push(item@),
{
    assert(items_view(items.push(item)) =~= items_view(items).push(item@));
}

/// Adding a field adds its model.
pub proof fn lemma_fields_push(fields: Seq<(String, Json)>, field: (String, Json))
    ensures
        fields_view(fields.push(field)) == fields_view(fields).push((field.0@, field.1@)),
{
    assert(fields_view(fields.push(field)) =~= fields_view(fields).push((field.0@, field.1@)));
}

/// The place of the field `key`.
pub open spec fn place(fields: Seq<FieldView>, key: Seq<char>) -> Option<int>
    decreases fields.len(),
{
    if fields.len() == 0 {
        None
    } else if fields[0].0 == key {
        Some(0)
    } else {
        match place(fields.skip(1), key) {
            Some(index) => Some(index + 1),
            None => None,
        }
    }
}

/// `place` gives the first field with the key.
pub proof fn lemma_place(fields: Seq<FieldView>, key: Seq<char>)
    ensures
        match place(fields, key) {
            Some(index) => 0 <= index < fields.len() && fields[index].0 == key && forall|i: int|
                0 <= i < index ==> (#[trigger] fields[i]).0 != key,
            None => forall|i: int| 0 <= i < fields.len() ==> (#[trigger] fields[i]).0 != key,
        },
    decreases fields.len(),
{
    if fields.len() > 0 && fields[0].0 != key {
        let rest = fields.skip(1);
        lemma_place(rest, key);
        assert forall|i: int| 1 <= i < fields.len() implies fields[i] == rest[i - 1] by {}
    }
}

/// The value of the field `key`.
pub open spec fn field(fields: Seq<FieldView>, key: Seq<char>) -> Option<JsonView> {
    match place(fields, key) {
        Some(index) => Some(fields[index].1),
        None => None,
    }
}

/// The fields with `key` set to `value`: in its place, or at the end if the key is new.
pub open spec fn with_field(fields: Seq<FieldView>, key: Seq<char>, value: JsonView) -> Seq<FieldView> {
    match place(fields, key) {
        Some(index) => fields.update(index, (key, value)),
        None => fields.push((key, value)),
    }
}

/// The fields without `key`: the last field takes its place.
pub open spec fn without_field(fields: Seq<FieldView>, key: Seq<char>) -> Seq<FieldView> {
    match place(fields, key) {
        Some(index) => fields.update(index, fields.last()).drop_last(),
        None => fields,
    }
}

/// Setting a field gives the value under its key and leaves what the other keys give.
pub proof fn lemma_with_field(fields: Seq<FieldView>, key: Seq<char>, value: JsonView, other: Seq<char>)
    ensures
        field(with_field(fields, key, value), key) == Some(value),
        other != key ==> field(with_field(fields, key, value), other) == field(fields, other),
{
    let made = with_field(fields, key, value);
    lemma_place(fields, key);
    lemma_place(made, key);
    lemma_place(fields, other);
    lemma_place(made, other);
    match place(fields, key) {
        Some(index) => {
            assert(made[index] == (key, value));
            assert forall|i: int| 0 <= i < made.len() && i != index implies made[i] == fields[i] by {}
        },
        None => {
            assert(made[fields.len() as int] == (key, value));
            assert forall|i: int| 0 <= i < fields.len() implies made[i] == fields[i] by {}
        },
    }
    if other != key {
        if let Some(index) = place(fields, other) {
            assert(made[index] == fields[index]);
        }
        if let Some(index) = place(made, other) {
            assert(made[index] == fields[index]);
        }
    }
}

/// A field whose key no earlier field has is what its key gives.
pub proof fn lemma_at(fields: Seq<FieldView>, index: int)
    requires
        0 <= index < fields.len(),
        forall|i: int| 0 <= i < index ==> (#[trigger] fields[i]).0 != fields[index].0,
    ensures
        JsonView::Object(fields).get(fields[index].0) == Some(fields[index].1),
        JsonView::Object(fields).at(fields[index].0) == fields[index].1,
{
    lemma_place(fields, fields[index].0);
}

impl JsonView {
    /// The value of the field `key`, if the value is an object that has one.
    pub open spec fn get(self, key: Seq<char>) -> Option<JsonView> {
        match self {
            JsonView::Object(fields) => field(fields, key),
            _ => None,
        }
    }

    /// The value of the field `key`, null if there is none.
    pub open spec fn at(self, key: Seq<char>) -> JsonView {
        match self.get(key) {
            Some(value) => value,
            None => JsonView::Null,
        }
    }

    /// The item at `index`, null if there is none.
    pub open spec fn item(self, index: int) -> JsonView {
        match self {
            JsonView::Array(items) => if 0 <= index < items.len() {
                items[index]
            } else {
                JsonView::Null
            },
            _ => JsonView::Null,
        }
    }

    /// The text of a string.
    pub open spec fn text(self) -> Option<Seq<char>> {
        match self {
            JsonView::Text(value) => Some(value),
            _ => None,
        }
    }

    /// The text of a string, the empty text of any other value.
    pub open spec fn text_or_empty(self) -> Seq<char> {
        match self {
            JsonView::Text(value) => value,
            _ => seq![],
        }
    }

    /// Whether the value is the string `text`.
    pub open spec fn is_text(self, text: Seq<char>) -> bool {
        self == JsonView::Text(text)
    }

    /// The value as a binary64 number.
    pub open spec fn reading(self) -> Option<ReadingView> {
        match self {
            JsonView::Number(value) => value.reading(),
            _ => None,
        }
    }

    /// The value as a natural number of 64 bits.
    pub open spec fn natural(self) -> Option<u64> {
        match self {
            JsonView::Number(value) => value.natural(),
            _ => None,
        }
    }

    /// The value as a natural number of 64 bits, 0 for any other value.
    pub open spec fn natural_or_zero(self) -> u64 {
        match self.natural() {
            Some(value) => value,
            None => 0,
        }
    }

    /// The items of an array.
    pub open spec fn items(self) -> Option<Seq<JsonView>> {
        match self {
            JsonView::Array(items) => Some(items),
            _ => None,
        }
    }

    /// The fields of an object.
    pub open spec fn fields(self) -> Option<Seq<FieldView>> {
        match self {
            JsonView::Object(fields) => Some(fields),
            _ => None,
        }
    }

    /// Whether the value is an object with at least one field.
    pub open spec fn filled(self) -> bool {
        self matches JsonView::Object(fields) && fields.len() > 0
    }

    /// Whether the value is the integer `value`.
    pub open spec fn is_integer(self, value: int) -> bool {
        self matches JsonView::Number(NumberView::Integer(held, _)) && held == value
    }

    /// Whether two values are equal; the order of fields does not count.
    pub open spec fn equals(self, other: JsonView) -> bool
        decreases self,
    {
        match (self, other) {
            (JsonView::Null, JsonView::Null) => true,
            (JsonView::Bool(left), JsonView::Bool(right)) => left == right,
            (JsonView::Number(left), JsonView::Number(right)) => left.equals(right),
            (JsonView::Text(left), JsonView::Text(right)) => left == right,
            (JsonView::Array(left), JsonView::Array(right)) => left.len() == right.len()
                && forall|i: int| 0 <= i < left.len() ==> (#[trigger] left[i]).equals(right[i]),
            (JsonView::Object(left), JsonView::Object(right)) => left.len() == right.len()
                && forall|i: int|
                0 <= i < left.len() ==> match field(right, (#[trigger] left[i]).0) {
                    Some(value) => left[i].1.equals(value),
                    None => false,
                },
            _ => false,
        }
    }
}

impl Json {
    /// The place of the field `key` among `fields`.
    fn position(fields: &Vec<(String, Json)>, key: &str) -> (found: Option<usize>)
        ensures
            match found {
                Some(index) => place(fields_view(fields@), key@) == Some(index as int) && index
                    < fields@.len(),
                None => place(fields_view(fields@), key@) is None,
            },
    {
        let ghost all = fields_view(fields@);
        let mut index: usize = 0;
        while index < fields.len()
            invariant
                index <= fields@.len(),
                all == fields_view(fields@),
                forall|i: int| 0 <= i < index ==> (#[trigger] all[i]).0 != key@,
            decreases fields@.len() - index,
        {
            if same(fields[index].0.as_str(), key) {
                proof {
                    lemma_place(all, key@);
                    assert(all[index as int].0 == key@);
                }
                return Some(index);
            }
            index += 1;
        }
        proof {
            lemma_place(all, key@);
        }
        None
    }

    /// The value of the field `key`, if the value is an object that has one.
    pub fn get(&self, key: &str) -> (found: Option<&Json>)
        ensures
            match found {
                Some(value) => self@.get(key@) == Some(value@),
                None => self@.get(key@) is None,
            },
    {
        broadcast use object_view;

        match self {
            Json::Object(fields) => match Self::position(fields, key) {
                Some(index) => Some(&fields[index].1),
                None => None,
            },
            _ => None,
        }
    }

    /// The value of the field `key`, null if there is none.
    pub fn at(&self, key: &str) -> (value: &Json)
        ensures
            value@ == self@.at(key@),
    {
        match self.get(key) {
            Some(value) => value,
            None => &Json::Null,
        }
    }

    /// The item at `index`, null if there is none.
    pub fn item(&self, index: usize) -> (value: &Json)
        ensures
            value@ == self@.item(index as int),
    {
        broadcast use array_view;

        match self {
            Json::Array(items) => if index < items.len() {
                &items[index]
            } else {
                &Json::Null
            },
            _ => &Json::Null,
        }
    }

    /// The text of a string.
    pub fn text(&self) -> (text: Option<&str>)
        ensures
            match text {
                Some(text) => self@.text() == Some(text@),
                None => self@.text() is None,
            },
    {
        match self {
            Json::Text(value) => Some(value.as_str()),
            _ => None,
        }
    }

    /// The text of a string, the empty text of any other value.
    pub fn text_or_empty(&self) -> (text: &str)
        ensures
            text@ == self@.text_or_empty(),
    {
        match self {
            Json::Text(value) => value.as_str(),
            _ => {
                proof {
                    reveal_strlit("");
                }
                assert(""@ =~= seq![]);
                ""
            },
        }
    }

    /// Whether the value is the string `text`.
    pub fn is_text(&self, text: &str) -> (found: bool)
        ensures
            found == self@.is_text(text@),
    {
        match self {
            Json::Text(value) => same(value.as_str(), text),
            _ => false,
        }
    }

    /// Whether the value is null.
    pub fn is_null(&self) -> (found: bool)
        ensures
            found == (self@ is Null),
    {
        matches!(self, Json::Null)
    }

    /// Whether the value is `true`.
    pub fn is_true(&self) -> (found: bool)
        ensures
            found == (self@ == JsonView::Bool(true)),
    {
        match self {
            Json::Bool(value) => *value,
            _ => false,
        }
    }

    /// Whether the value is `false`.
    pub fn is_false(&self) -> (found: bool)
        ensures
            found == (self@ == JsonView::Bool(false)),
    {
        match self {
            Json::Bool(value) => !*value,
            _ => false,
        }
    }

    /// The value as a binary64 number.
    pub fn reading(&self) -> (reading: Option<&Reading>)
        ensures
            match reading {
                Some(reading) => self@.reading() == Some(reading@),
                None => self@.reading() is None,
            },
    {
        match self {
            Json::Number(value) => value.reading(),
            _ => None,
        }
    }

    /// The value as a natural number of 64 bits.
    pub fn natural(&self) -> (value: Option<u64>)
        ensures
            value == self@.natural(),
    {
        match self {
            Json::Number(value) => value.natural(),
            _ => None,
        }
    }

    /// The value as a natural number of 64 bits, 0 for any other value.
    pub fn natural_or_zero(&self) -> (value: u64)
        ensures
            value == self@.natural_or_zero(),
    {
        match self.natural() {
            Some(value) => value,
            None => 0,
        }
    }

    /// The items of an array.
    pub fn items(&self) -> (items: Option<&Vec<Json>>)
        ensures
            match items {
                Some(items) => self@ == JsonView::Array(items_view(items@)),
                None => self@.items() is None,
            },
    {
        broadcast use array_view;

        match self {
            Json::Array(items) => Some(items),
            _ => None,
        }
    }

    /// The fields of an object.
    pub fn fields(&self) -> (fields: Option<&Vec<(String, Json)>>)
        ensures
            match fields {
                Some(fields) => self@ == JsonView::Object(fields_view(fields@)),
                None => self@.fields() is None,
            },
    {
        broadcast use object_view;

        match self {
            Json::Object(fields) => Some(fields),
            _ => None,
        }
    }

    /// Whether the value is an object with at least one field.
    pub fn filled(&self) -> (found: bool)
        ensures
            found == self@.filled(),
    {
        match self.fields() {
            Some(fields) => fields.len() > 0,
            None => false,
        }
    }

    /// Whether the value is the integer `value`.
    pub fn is_integer(&self, value: i128) -> (found: bool)
        ensures
            found == self@.is_integer(value as int),
    {
        match self {
            Json::Number(Number::Integer(held, _)) => *held == value,
            _ => false,
        }
    }

    /// Whether two values are equal; the order of fields does not count.
    pub fn equals(&self, other: &Json) -> (equal: bool)
        ensures
            equal == self@.equals(other@),
        decreases self,
    {
        broadcast use {array_view, object_view};

        match (self, other) {
            (Json::Null, Json::Null) => true,
            (Json::Bool(left), Json::Bool(right)) => *left == *right,
            (Json::Number(left), Json::Number(right)) => left.equals(right),
            (Json::Text(left), Json::Text(right)) => same(left.as_str(), right.as_str()),
            (Json::Array(left), Json::Array(right)) => {
                if left.len() != right.len() {
                    return false;
                }
                let mut index: usize = 0;
                while index < left.len()
                    invariant
                        index <= left@.len(),
                        left@.len() == right@.len(),
                        *self == Json::Array(*left),
                        self@ == JsonView::Array(items_view(left@)),
                        other@ == JsonView::Array(items_view(right@)),
                        forall|i: int|
                            0 <= i < index ==> (#[trigger] items_view(left@)[i]).equals(
                                items_view(right@)[i],
                            ),
                    decreases left@.len() - index,
                {
                    assert(decreases_to!(*self => left@[index as int]));
                    if !left[index].equals(&right[index]) {
                        assert(!items_view(left@)[index as int].equals(items_view(right@)[index as int]));
                        return false;
                    }
                    index += 1;
                }
                true
            },
            (Json::Object(left), Json::Object(right)) => {
                if left.len() != right.len() {
                    return false;
                }
                let mut index: usize = 0;
                while index < left.len()
                    invariant
                        index <= left@.len(),
                        left@.len() == right@.len(),
                        *self == Json::Object(*left),
                        *other == Json::Object(*right),
                        self@ == JsonView::Object(fields_view(left@)),
                        other@ == JsonView::Object(fields_view(right@)),
                        forall|i: int|
                            0 <= i < index ==> match field(
                                fields_view(right@),
                                (#[trigger] fields_view(left@)[i]).0,
                            ) {
                                Some(value) => fields_view(left@)[i].1.equals(value),
                                None => false,
                            },
                    decreases left@.len() - index,
                {
                    assert(decreases_to!(*self => left@[index as int].1));
                    let ghost one = fields_view(left@)[index as int];
                    let found = match other.get(left[index].0.as_str()) {
                        Some(value) => left[index].1.equals(value),
                        None => false,
                    };
                    if !found {
                        return false;
                    }
                    index += 1;
                }
                true
            },
            _ => false,
        }
    }
}

impl Clone for Json {
    fn clone(&self) -> (copy: Self)
        ensures
            copy@ == self@,
        decreases self,
    {
        broadcast use {array_view, object_view};

        match self {
            Json::Null => Json::Null,
            Json::Bool(value) => Json::Bool(*value),
            Json::Number(value) => Json::Number(value.clone()),
            Json::Text(value) => Json::Text(value.clone()),
            Json::Array(items) => {
                let mut copies: Vec<Json> = Vec::new();
                let mut index: usize = 0;
                while index < items.len()
                    invariant
                        index <= items@.len(),
                        *self == Json::Array(*items),
                        items_view(copies@) == items_view(items@).take(index as int),
                    decreases items@.len() - index,
                {
                    assert(decreases_to!(*self => (*self)->Array_0));
                    assert(decreases_to!(*items => items@));
                    assert(decreases_to!(items@ => items@[index as int]));
                    let copy = items[index].clone();
                    proof {
                        lemma_items_push(copies@, copy);
                    }
                    copies.push(copy);
                    index += 1;
                    assert(items_view(items@).take(index as int) =~= items_view(items@).take(
                        index - 1,
                    ).push(items_view(items@)[index - 1]));
                }
                assert(items_view(items@).take(index as int) =~= items_view(items@));
                Json::Array(copies)
            },
            Json::Object(fields) => {
                let mut copies: Vec<(String, Json)> = Vec::new();
                let mut index: usize = 0;
                while index < fields.len()
                    invariant
                        index <= fields@.len(),
                        *self == Json::Object(*fields),
                        fields_view(copies@) == fields_view(fields@).take(index as int),
                    decreases fields@.len() - index,
                {
                    assert(decreases_to!(*self => (*self)->Object_0));
                    assert(decreases_to!(*fields => fields@));
                    assert(decreases_to!(fields@ => fields@[index as int]));
                    assert(decreases_to!(fields@[index as int] => fields@[index as int].1));
                    let copy = (fields[index].0.clone(), fields[index].1.clone());
                    proof {
                        lemma_fields_push(copies@, copy);
                    }
                    copies.push(copy);
                    index += 1;
                    assert(fields_view(fields@).take(index as int) =~= fields_view(fields@).take(
                        index - 1,
                    ).push(fields_view(fields@)[index - 1]));
                }
                assert(fields_view(fields@).take(index as int) =~= fields_view(fields@));
                Json::Object(copies)
            },
        }
    }
}

} // verus!
