//! Text in pieces: replacing, splitting, joining, lines, words and numerals.
use crate::text;
use crate::text::{chars, is_at, slice};
use vstd::prelude::*;

verus! {

/// The texts that a list of strings holds.
pub open spec fn texts(list: Seq<String>) -> Seq<Seq<char>> {
    Seq::new(list.len(), |i: int| list[i]@)
}

/// The text that an optional string holds.
pub open spec fn optional(text: Option<String>) -> Option<Seq<char>> {
    match text {
        Some(text) => Some(text@),
        None => None,
    }
}

/// Copies of texts.
pub fn copied(list: &Vec<String>) -> (copies: Vec<String>)
    ensures
        texts(copies@) == texts(list@),
{
    let mut copies: Vec<String> = Vec::new();
    let mut index: usize = 0;
    while index < list.len()
        invariant
            index <= list@.len(),
            copies@.len() == index,
            forall|i: int| 0 <= i < index ==> (#[trigger] copies@[i])@ == list@[i]@,
        decreases list@.len() - index,
    {
        copies.push(list[index].clone());
        index += 1;
    }
    assert(texts(copies@) =~= texts(list@));
    copies
}

/// The model of a text or of why there is none.
pub open spec fn told(result: Result<String, String>) -> Result<Seq<char>, Seq<char>> {
    match result {
        Ok(text) => Ok(text@),
        Err(error) => Err(error@),
    }
}

/// The texts that are there, of the first `end`.
pub open spec fn taken(list: Seq<Option<Seq<char>>>, end: int) -> Seq<Seq<char>>
    decreases end,
{
    if end <= 0 {
        Seq::empty()
    } else {
        match list[end - 1] {
            Some(text) => taken(list, end - 1).push(text),
            None => taken(list, end - 1),
        }
    }
}

/// The model of why something failed, if it did.
pub open spec fn trouble(done: Result<(), String>) -> Option<Seq<char>> {
    match done {
        Ok(_) => None,
        Err(error) => Some(error@),
    }
}

/// Adding a string to a list adds its text.
pub proof fn lemma_texts_push(list: Seq<String>, text: String)
    ensures
        texts(list.push(text)) == texts(list).push(text@),
{
    assert(texts(list.push(text)) =~= texts(list).push(text@));
}

/// `text` from `index` on with every match of `part`, taken from the left, replaced.
///
/// The empty part stands before every character and at the end.
pub open spec fn replaced_from(text: Seq<char>, part: Seq<char>, with: Seq<char>, index: int) -> Seq<char>
    decreases text.len() + 1 - index,
{
    if index < 0 || index > text.len() {
        seq![]
    } else if index == text.len() {
        if part.len() == 0 {
            with
        } else {
            seq![]
        }
    } else if part.len() == 0 {
        with + seq![text[index]] + replaced_from(text, part, with, index + 1)
    } else if text::stands_at(text, part, index) {
        with + replaced_from(text, part, with, index + part.len())
    } else {
        seq![text[index]] + replaced_from(text, part, with, index + 1)
    }
}

/// `text` with every match of `part`, taken from the left, replaced by `with`.
pub open spec fn replaced(text: Seq<char>, part: Seq<char>, with: Seq<char>) -> Seq<char> {
    replaced_from(text, part, with, 0)
}

/// `text` with every match of `part`, taken from the left, replaced by `with`.
pub fn replace(text: &str, part: &str, with: &str) -> (result: String)
    ensures
        result@ == replaced(text@, part@, with@),
{
    let characters = chars(text);
    let pattern = chars(part);
    let mut result = String::new();
    let mut index: usize = 0;
    while index < characters.len()
        invariant
            index <= characters@.len(),
            characters@ == text@,
            pattern@ == part@,
            result@ + replaced_from(text@, part@, with@, index as int) == replaced(text@, part@, with@),
        decreases characters@.len() - index,
    {
        let ghost before = result@;
        let ghost rest = replaced_from(text@, part@, with@, index as int);
        if pattern.len() == 0 {
            result.append(with);
            result.push(characters[index]);
            index += 1;
            proof {
                let tail = replaced_from(text@, part@, with@, index as int);
                assert(result@ + tail =~= before + (with@ + seq![text@[index - 1]] + tail));
            }
        } else if is_at(&characters, &pattern, index) {
            result.append(with);
            index += pattern.len();
            proof {
                let tail = replaced_from(text@, part@, with@, index as int);
                assert(result@ + tail =~= before + (with@ + tail));
            }
        } else {
            result.push(characters[index]);
            index += 1;
            proof {
                let tail = replaced_from(text@, part@, with@, index as int);
                assert(result@ + tail =~= before + (seq![text@[index - 1]] + tail));
            }
        }
    }
    if pattern.len() == 0 {
        result.append(with);
    } else {
        assert(result@ + seq![] =~= result@);
    }
    result
}

/// `text` without the characters that `dropped` holds.
pub open spec fn without(text: Seq<char>, dropped: Seq<char>) -> Seq<char> {
    text.filter(|character: char| !dropped.contains(character))
}

/// `text` without the characters that `dropped` holds.
pub fn remove(text: &str, dropped: &str) -> (result: String)
    ensures
        result@ == without(text@, dropped@),
{
    let characters = chars(text);
    let unwanted = chars(dropped);
    let mut result = String::new();
    let mut index: usize = 0;
    let ghost keep = |character: char| !dropped@.contains(character);
    assert(text@.take(0).filter(keep) =~= Seq::<char>::empty()) by {
        reveal(Seq::filter);
    }
    while index < characters.len()
        invariant
            index <= characters@.len(),
            characters@ == text@,
            unwanted@ == dropped@,
            keep == (|character: char| !dropped@.contains(character)),
            result@ == text@.take(index as int).filter(keep),
        decreases characters@.len() - index,
    {
        let ghost head = text@.take(index as int);
        if !listed(&unwanted, characters[index]) {
            result.push(characters[index]);
        }
        index += 1;
        proof {
            reveal(Seq::filter);
            assert(text@.take(index as int).drop_last() =~= head);
            assert(text@.take(index as int).last() == text@[index - 1]);
        }
    }
    assert(text@.take(index as int) =~= text@);
    result
}

fn listed(list: &Vec<char>, character: char) -> (found: bool)
    ensures
        found == list@.contains(character),
{
    let mut index: usize = 0;
    while index < list.len()
        invariant
            index <= list@.len(),
            forall|i: int| 0 <= i < index ==> list@[i] != character,
        decreases list@.len() - index,
    {
        if list[index] == character {
            return true;
        }
        index += 1;
    }
    false
}

/// Whether `character` stands in `text`.
pub fn has(text: &str, character: char) -> (found: bool)
    ensures
        found == text@.contains(character),
{
    listed(&chars(text), character)
}

/// The characters that have a meaning in a regular expression.
pub open spec fn is_meta(character: char) -> bool {
    "\\.+*?()|[]{}^$#&-~"@.contains(character)
}

/// `text` with a backslash before every character that has a meaning in a regular expression.
pub open spec fn escaped(text: Seq<char>) -> Seq<char>
    decreases text.len(),
{
    if text.len() == 0 {
        Seq::empty()
    } else if is_meta(text.last()) {
        escaped(text.drop_last()).push('\\').push(text.last())
    } else {
        escaped(text.drop_last()).push(text.last())
    }
}

/// `text` with a backslash before every character that has a meaning in a regular expression.
pub fn escape(text: &str) -> (result: String)
    ensures
        result@ == escaped(text@),
{
    let characters = chars(text);
    let meta = chars("\\.+*?()|[]{}^$#&-~");
    let mut result = String::new();
    let mut index: usize = 0;
    assert(characters@.take(0) =~= Seq::<char>::empty());
    while index < characters.len()
        invariant
            index <= characters@.len(),
            meta@ == "\\.+*?()|[]{}^$#&-~"@,
            result@ == escaped(characters@.take(index as int)),
        decreases characters@.len() - index,
    {
        let ghost next = characters@.take(index + 1);
        assert(next.drop_last() =~= characters@.take(index as int));
        if listed(&meta, characters[index]) {
            result.push('\\');
        }
        result.push(characters[index]);
        index += 1;
    }
    assert(characters@.take(index as int) =~= text@);
    result
}

/// The pieces of `text` between `separator`s, from `index` on, the first one begun at `start`.
pub open spec fn pieces_from(text: Seq<char>, separator: char, start: int, index: int) -> Seq<Seq<char>>
    decreases text.len() - index,
{
    if index >= text.len() {
        seq![text.subrange(start, text.len() as int)]
    } else if text[index] == separator {
        seq![text.subrange(start, index)] + pieces_from(text, separator, index + 1, index + 1)
    } else {
        pieces_from(text, separator, start, index + 1)
    }
}

/// The pieces of `text` between `separator`s.
pub open spec fn pieces(text: Seq<char>, separator: char) -> Seq<Seq<char>> {
    pieces_from(text, separator, 0, 0)
}

/// The pieces of `text` between `separator`s.
pub fn split(text: &str, separator: char) -> (list: Vec<String>)
    ensures
        texts(list@) == pieces(text@, separator),
{
    let characters = chars(text);
    let mut list: Vec<String> = Vec::new();
    let mut start: usize = 0;
    let mut index: usize = 0;
    assert(texts(list@) + pieces(text@, separator) =~= pieces(text@, separator));
    while index < characters.len()
        invariant
            start <= index <= characters@.len(),
            characters@ == text@,
            texts(list@) + pieces_from(text@, separator, start as int, index as int) == pieces(text@, separator),
        decreases characters@.len() - index,
    {
        if characters[index] == separator {
            let ghost before = list@;
            let piece = slice(&characters, start, index);
            proof {
                lemma_texts_push(list@, piece);
                let tail = pieces_from(text@, separator, index + 1, index + 1);
                assert(texts(before).push(piece@) + tail =~= texts(before) + (seq![piece@] + tail));
            }
            list.push(piece);
            start = index + 1;
        }
        index += 1;
    }
    let piece = slice(&characters, start, index);
    proof {
        lemma_texts_push(list@, piece);
        assert(texts(list@).push(piece@) =~= texts(list@) + seq![piece@]);
    }
    list.push(piece);
    list
}

/// `parts` one after the other with `separator` between them.
pub open spec fn joined(parts: Seq<Seq<char>>, separator: Seq<char>) -> Seq<char>
    decreases parts.len(),
{
    if parts.len() == 0 {
        seq![]
    } else if parts.len() == 1 {
        parts[0]
    } else {
        joined(parts.drop_last(), separator) + separator + parts.last()
    }
}

/// `parts` one after the other with `separator` between them.
pub fn join(parts: &Vec<String>, separator: &str) -> (result: String)
    ensures
        result@ == joined(texts(parts@), separator@),
{
    let mut result = String::new();
    let mut index: usize = 0;
    let ghost all = texts(parts@);
    while index < parts.len()
        invariant
            index <= parts@.len(),
            all == texts(parts@),
            result@ == joined(all.take(index as int), separator@),
        decreases parts@.len() - index,
    {
        if index > 0 {
            result.append(separator);
        }
        result.append(parts[index].as_str());
        index += 1;
        proof {
            assert(all.take(index as int).drop_last() =~= all.take(index - 1));
            assert(all.take(index as int).last() == parts@[index - 1]@);
            if index == 1 {
                assert(result@ =~= parts@[0]@);
            }
        }
    }
    assert(all.take(index as int) =~= all);
    result
}

/// A line without the carriage return that ends it.
pub open spec fn without_return(line: Seq<char>) -> Seq<char> {
    if line.len() > 0 && line.last() == '\r' {
        line.drop_last()
    } else {
        line
    }
}

/// The lines of `text` from `index` on, the first one begun at `start`.
///
/// A line feed ends a line, with the carriage return before it; an empty rest is no line.
pub open spec fn lines_from(text: Seq<char>, start: int, index: int) -> Seq<Seq<char>>
    decreases text.len() - index,
{
    if index >= text.len() {
        if start >= text.len() {
            seq![]
        } else {
            seq![text.subrange(start, text.len() as int)]
        }
    } else if text[index] == '\n' {
        seq![without_return(text.subrange(start, index))] + lines_from(text, index + 1, index + 1)
    } else {
        lines_from(text, start, index + 1)
    }
}

/// The lines of `text`.
pub open spec fn lines_of(text: Seq<char>) -> Seq<Seq<char>> {
    lines_from(text, 0, 0)
}

/// The lines of `text`.
pub fn lines(text: &str) -> (list: Vec<String>)
    ensures
        texts(list@) == lines_of(text@),
{
    let characters = chars(text);
    let mut list: Vec<String> = Vec::new();
    let mut start: usize = 0;
    let mut index: usize = 0;
    assert(texts(list@) + lines_of(text@) =~= lines_of(text@));
    while index < characters.len()
        invariant
            start <= index <= characters@.len(),
            characters@ == text@,
            texts(list@) + lines_from(text@, start as int, index as int) == lines_of(text@),
        decreases characters@.len() - index,
    {
        if characters[index] == '\n' {
            let ghost before = list@;
            let ghost whole = text@.subrange(start as int, index as int);
            let line = if start < index && characters[index - 1] == '\r' {
                assert(whole.drop_last() =~= text@.subrange(start as int, index - 1));
                slice(&characters, start, index - 1)
            } else {
                slice(&characters, start, index)
            };
            proof {
                assert(line@ == without_return(whole));
                lemma_texts_push(list@, line);
                let tail = lines_from(text@, index + 1, index + 1);
                assert(texts(before).push(line@) + tail =~= texts(before) + (seq![line@] + tail));
            }
            list.push(line);
            start = index + 1;
        }
        index += 1;
    }
    if start < index {
        let line = slice(&characters, start, index);
        proof {
            lemma_texts_push(list@, line);
            assert(texts(list@).push(line@) =~= texts(list@) + seq![line@]);
        }
        list.push(line);
    } else {
        assert(texts(list@) + Seq::<Seq<char>>::empty() =~= texts(list@));
    }
    list
}

} // verus!
