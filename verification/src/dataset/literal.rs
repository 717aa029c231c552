//! Quoted strings as `Debug` writes them: what they stand for.
use crate::text::{chars, text_of};
use vstd::prelude::*;

verus! {

/// The value of a hexadecimal digit in small letters.
pub open spec fn hex_digit(character: char) -> Option<int> {
    let code = character as u32;
    if 48 <= code <= 57 {
        Some(code - 48)
    } else if 97 <= code <= 102 {
        Some(code - 87)
    } else {
        None
    }
}

/// The value that the hexadecimal digits from `from` on add to, up to a closing brace, where
/// `value` stands before them; and the place behind the brace.
pub open spec fn hex_value(text: Seq<char>, from: int, value: int) -> Option<(int, int)>
    decreases text.len() - from,
{
    if from < 0 || from >= text.len() || value > 0x10ffff {
        None
    } else if text[from] == '}' {
        Some((value, from + 1))
    } else {
        match hex_digit(text[from]) {
            Some(digit) => hex_value(text, from + 1, value * 16 + digit),
            None => None,
        }
    }
}

/// The character that the letter behind a backslash stands for; a `u` stands for none.
pub open spec fn plain_escape(letter: char) -> char {
    if letter == 'n' {
        '\n'
    } else if letter == 'r' {
        '\r'
    } else if letter == 't' {
        '\t'
    } else if letter == '0' {
        '\0'
    } else {
        letter
    }
}

/// The character at `from` and the place behind it, where an escape counts as one character.
pub open spec fn next(text: Seq<char>, from: int) -> Option<(char, int)> {
    if from < 0 || from >= text.len() {
        None
    } else if text[from] != '\\' {
        Some((text[from], from + 1))
    } else if from + 1 >= text.len() {
        None
    } else if text[from + 1] != 'u' {
        Some((plain_escape(text[from + 1]), from + 2))
    } else {
        match hex_value(text, from + 3, 0) {
            Some((code, behind)) => if vstd::utf8::is_scalar(code as u32) {
                Some((code as u32 as char, behind))
            } else {
                None
            },
            None => None,
        }
    }
}

/// The characters that `text` stands for from `from` on, up to an escape that stands for none.
pub open spec fn unescaped(text: Seq<char>, from: int) -> Seq<char>
    decreases text.len() - from,
{
    match next(text, from) {
        Some((character, behind)) => if from < behind <= text.len() {
            seq![character] + unescaped(text, behind)
        } else {
            Seq::empty()
        },
        None => Seq::empty(),
    }
}

/// What a quoted string stands for that a comma follows.
pub open spec fn unquoted(text: Seq<char>) -> Seq<char> {
    if text.len() < 3 {
        Seq::empty()
    } else {
        unescaped(text.subrange(1, text.len() - 2), 0)
    }
}

fn read_hex(text: &Vec<char>, from: usize) -> (found: Option<(u32, usize)>)
    requires
        from <= text@.len(),
    ensures
        match found {
            Some((code, behind)) => hex_value(text@, from as int, 0) == Some(
                (code as int, behind as int),
            ) && from < behind <= text@.len(),
            None => hex_value(text@, from as int, 0) is None,
        },
{
    let mut value: u32 = 0;
    let mut index: usize = from;
    while index < text.len() && value <= 0x10ffff
        invariant
            from <= index <= text@.len(),
            value <= 0x10ffff * 16 + 15,
            hex_value(text@, index as int, value as int) == hex_value(text@, from as int, 0),
        decreases text@.len() - index,
    {
        if text[index] == '}' {
            return Some((value, index + 1));
        }
        let code: u32 = text[index] as u32;
        let digit: u32 = if 48 <= code && code <= 57 {
            code - 48
        } else if 97 <= code && code <= 102 {
            code - 87
        } else {
            return None;
        };
        value = value * 16 + digit;
        index += 1;
    }
    None
}

fn read_next(text: &Vec<char>, from: usize) -> (found: Option<(char, usize)>)
    requires
        from < text@.len(),
    ensures
        match found {
            Some((character, behind)) => next(text@, from as int) == Some(
                (character, behind as int),
            ) && from < behind <= text@.len(),
            None => next(text@, from as int) is None,
        },
{
    let end: usize = text.len();
    if text[from] != '\\' {
        return Some((text[from], from + 1));
    }
    if end - from < 2 {
        return None;
    }
    let letter = text[from + 1];
    if letter != 'u' {
        let character = if letter == 'n' {
            '\n'
        } else if letter == 'r' {
            '\r'
        } else if letter == 't' {
            '\t'
        } else if letter == '0' {
            '\0'
        } else {
            letter
        };
        return Some((character, from + 2));
    }
    if end - from < 3 {
        return None;
    }
    match read_hex(text, from + 3) {
        Some((code, behind)) => match char::from_u32(code) {
            Some(character) => Some((character, behind)),
            None => None,
        },
        None => None,
    }
}

/// What a quoted string stands for that a comma follows.
pub fn unquote(text: &str) -> (result: String)
    ensures
        result@ == unquoted(text@),
{
    let all = chars(text);
    let end: usize = all.len();
    if end < 3 {
        return String::new();
    }
    let mut inner: Vec<char> = Vec::new();
    let mut index: usize = 1;
    while index < end - 2
        invariant
            1 <= index <= end - 2,
            end == all@.len(),
            inner@ == all@.subrange(1, index as int),
        decreases end - index,
    {
        inner.push(all[index]);
        index += 1;
    }
    let mut made: Vec<char> = Vec::new();
    let mut from: usize = 0;
    assert(made@ + unescaped(inner@, 0) =~= unescaped(inner@, 0));
    while from < inner.len()
        invariant
            from <= inner@.len(),
            unquoted(text@) == unescaped(inner@, 0),
            made@ + unescaped(inner@, from as int) == unescaped(inner@, 0),
        decreases inner@.len() - from,
    {
        match read_next(&inner, from) {
            Some((character, behind)) => {
                assert(made@.push(character) + unescaped(inner@, behind as int) =~= made@ + (seq![
                    character,
                ] + unescaped(inner@, behind as int)));
                made.push(character);
                from = behind;
            },
            None => {
                assert(made@ + unescaped(inner@, from as int) =~= made@);
                return text_of(&made);
            },
        }
    }
    assert(made@ + unescaped(inner@, from as int) =~= made@);
    text_of(&made)
}

} // verus!
