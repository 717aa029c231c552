//! Pointers into documents.
use crate::json::{Json, JsonView};
use crate::numeral;
use crate::numeral::parse_integer;
use crate::pieces;
use crate::pieces::{replace, split};
use crate::text::{chars, slice};
use vstd::prelude::*;

verus! {

/// `text` without the characters `character` that it begins with.
pub open spec fn stripped(text: Seq<char>, character: char) -> Seq<char>
    decreases text.len(),
{
    if text.len() > 0 && text[0] == character {
        stripped(text.skip(1), character)
    } else {
        text
    }
}

/// `text` without the characters `character` that it begins with.
pub fn strip(text: &str, character: char) -> (rest: String)
    ensures
        rest@ == stripped(text@, character),
{
    let characters = chars(text);
    let mut index: usize = 0;
    assert(text@.skip(0) =~= text@);
    while index < characters.len() && characters[index] == character
        invariant
            index <= characters@.len(),
            characters@ == text@,
            stripped(text@, character) == stripped(text@.skip(index as int), character),
        decreases characters@.len() - index,
    {
        assert(text@.skip(index as int).skip(1) =~= text@.skip(index + 1));
        index += 1;
    }
    assert(text@.subrange(index as int, text@.len() as int) =~= text@.skip(index as int));
    slice(&characters, index, characters.len())
}

/// The key that a token of a pointer writes.
pub open spec fn key_of(token: Seq<char>) -> Seq<char> {
    pieces::replaced(pieces::replaced(token, "~1"@, "/"@), "~0"@, "~"@)
}

/// The place in an array that a key writes: digits without a needless zero before them.
pub open spec fn index_of(key: Seq<char>) -> Option<int> {
    if numeral::all_digits(key) && (key[0] != '0' || key.len() == 1) {
        numeral::integer_of(key)
    } else {
        None
    }
}

/// The value one step down.
pub open spec fn step(value: JsonView, key: Seq<char>) -> Option<JsonView> {
    match value {
        JsonView::Object(_) => value.get(key),
        JsonView::Array(items) => match index_of(key) {
            Some(index) => if 0 <= index < items.len() {
                Some(items[index])
            } else {
                None
            },
            None => None,
        },
        _ => None,
    }
}

/// The value that is reached along `tokens` from the one at `from` on.
pub open spec fn followed(value: JsonView, tokens: Seq<Seq<char>>, from: int) -> Option<JsonView>
    decreases tokens.len() - from,
{
    if from >= tokens.len() {
        Some(value)
    } else {
        match step(value, key_of(tokens[from])) {
            Some(next) => followed(next, tokens, from + 1),
            None => None,
        }
    }
}

/// The value that `path` points to: the whole for the empty path, else along the keys that follow
/// the slashes.
pub open spec fn pointed(value: JsonView, path: Seq<char>) -> Option<JsonView> {
    if path.len() == 0 {
        Some(value)
    } else if path[0] != '/' {
        None
    } else {
        followed(value, pieces::pieces(path, '/'), 1)
    }
}

/// The place in an array that a key writes.
fn index(key: &str) -> (place: Option<u64>)
    ensures
        match place {
            Some(place) => index_of(key@) == Some(place as int),
            None => index_of(key@) is None,
        },
{
    let characters = chars(key);
    if characters.len() == 0 {
        return None;
    }
    let first = characters[0];
    if first == '+' || first == '-' || (first == '0' && characters.len() != 1) {
        assert(!numeral::is_digit(key@[0]) || (key@[0] == '0' && key@.len() != 1));
        return None;
    }
    match parse_integer(key) {
        Some(value) => {
            assert(numeral::digits_value(key@) == value);
            Some(value as u64)
        },
        None => None,
    }
}

/// The value one step down.
fn below<'a>(value: &'a Json, key: &str) -> (found: Option<&'a Json>)
    ensures
        match found {
            Some(found) => step(value@, key@) == Some(found@),
            None => step(value@, key@) is None,
        },
{
    broadcast use {crate::json::array_view, crate::json::object_view};

    match value {
        Json::Object(_) => value.get(key),
        Json::Array(items) => match index(key) {
            Some(place) => if place < items.len() as u64 {
                Some(&items[place as usize])
            } else {
                None
            },
            None => None,
        },
        _ => None,
    }
}

/// The value that `path` points to.
pub fn pointer<'a>(value: &'a Json, path: &str) -> (found: Option<&'a Json>)
    ensures
        match found {
            Some(found) => pointed(value@, path@) == Some(found@),
            None => pointed(value@, path@) is None,
        },
{
    let characters = chars(path);
    if characters.len() == 0 {
        return Some(value);
    }
    if characters[0] != '/' {
        return None;
    }
    let tokens = split(path, '/');
    let ghost all = pieces::texts(tokens@);
    let mut current = value;
    let mut place: usize = 1;
    while place < tokens.len()
        invariant
            1 <= place,
            all == pieces::texts(tokens@),
            pointed(value@, path@) == followed(current@, all, place as int),
        decreases tokens@.len() - place,
    {
        let key = replace(replace(tokens[place].as_str(), "~1", "/").as_str(), "~0", "~");
        assert(key@ == key_of(all[place as int]));
        let next = below(current, key.as_str());
        match next {
            Some(next) => {
                current = next;
            },
            None => {
                return None;
            },
        }
        place += 1;
    }
    Some(current)
}

} // verus!
