//! Words and letters of a text.
use crate::text;
use crate::text::{chars, slice, trim, white};
use vstd::prelude::*;

verus! {

/// An ASCII capital letter as a small one; any other character as it is.
pub open spec fn lower_letter(character: char) -> char {
    if 65 <= character as u32 <= 90 {
        (character as u32 + 32) as char
    } else {
        character
    }
}

/// `text` with ASCII capital letters as small ones.
pub open spec fn lowered(text: Seq<char>) -> Seq<char> {
    text.map_values(|character: char| lower_letter(character))
}

/// `text` with ASCII capital letters as small ones.
pub fn lower(text: &str) -> (result: String)
    ensures
        result@ == lowered(text@),
{
    let characters = chars(text);
    let mut result = String::new();
    let mut index: usize = 0;
    while index < characters.len()
        invariant
            index <= characters@.len(),
            characters@ == text@,
            result@ == lowered(text@).take(index as int),
        decreases characters@.len() - index,
    {
        let character = characters[index];
        let code: u32 = character as u32;
        if 65 <= code && code <= 90 {
            let small: u8 = (code + 32) as u8;
            result.push(small as char);
        } else {
            result.push(character);
        }
        index += 1;
        assert(result@ =~= lowered(text@).take(index as int));
    }
    assert(lowered(text@).take(index as int) =~= lowered(text@));
    result
}

/// The last `count` characters of `text`, all of them where there are fewer.
pub open spec fn tail(text: Seq<char>, count: int) -> Seq<char> {
    if text.len() > count {
        text.skip(text.len() - count)
    } else {
        text
    }
}

/// The last `count` characters of `text`, all of them where there are fewer.
pub fn last_characters(text: &str, count: usize) -> (rest: String)
    ensures
        rest@ == tail(text@, count as int),
{
    let characters = chars(text);
    if characters.len() > count {
        let rest = slice(&characters, characters.len() - count, characters.len());
        assert(rest@ =~= tail(text@, count as int));
        rest
    } else {
        text.to_owned()
    }
}

/// The first `count` characters of `text`, all of them where there are fewer.
pub open spec fn head(text: Seq<char>, count: int) -> Seq<char> {
    if text.len() > count {
        text.take(count)
    } else {
        text
    }
}

/// The first `count` characters of `text`, all of them where there are fewer.
pub fn first_characters(text: &str, count: usize) -> (rest: String)
    ensures
        rest@ == head(text@, count as int),
{
    let characters = chars(text);
    if characters.len() > count {
        let rest = slice(&characters, 0, count);
        assert(rest@ =~= head(text@, count as int));
        rest
    } else {
        text.to_owned()
    }
}

/// Where the word that ends at `end` begins.
pub open spec fn word_start(text: Seq<char>, end: int) -> int
    decreases end,
{
    if end <= 0 || text::is_white(text[end - 1]) {
        end
    } else {
        word_start(text, end - 1)
    }
}

/// The last of the words that white space separates.
pub open spec fn last_of(text: Seq<char>) -> Option<Seq<char>> {
    let rest = text::trimmed(text);
    if rest.len() == 0 {
        None
    } else {
        Some(rest.skip(word_start(rest, rest.len() as int)))
    }
}

/// The last of the words that white space separates.
pub fn last_word(text: &str) -> (word: Option<String>)
    ensures
        crate::pieces::optional(word) == last_of(text@),
{
    let rest = trim(text);
    let characters = chars(rest.as_str());
    if characters.len() == 0 {
        return None;
    }
    let mut start: usize = characters.len();
    while start > 0 && !white(characters[start - 1])
        invariant
            start <= characters@.len(),
            characters@ == rest@,
            word_start(rest@, rest@.len() as int) == word_start(rest@, start as int),
        decreases start,
    {
        start -= 1;
    }
    let word = slice(&characters, start, characters.len());
    assert(word@ =~= rest@.skip(start as int));
    Some(word)
}

} // verus!
