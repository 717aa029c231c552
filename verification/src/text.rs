//! Text as a sequence of characters: searching, cutting, joining and decimal notation.
use vstd::prelude::*;

verus! {

/// `String::push` appends one character.
pub assume_specification[ String::push ](into: &mut String, character: char)
    ensures
        final(into)@ == old(into)@.push(character),
;

/// `str::eq` holds exactly for equal character sequences.
pub assume_specification[ <str as PartialEq>::eq ](a: &str, b: &str) -> (equal: bool)
    ensures
        equal == (a@ == b@),
;

/// `char::from_u32` gives the character with a code, where the code is a Unicode scalar value.
pub assume_specification[ char::from_u32 ](code: u32) -> (character: Option<char>)
    ensures
        character == if vstd::utf8::is_scalar(code) {
            Some(code as char)
        } else {
            None
        },
;

/// The characters of `text`, in order.
pub fn chars(text: &str) -> (characters: Vec<char>)
    ensures
        characters@ == text@,
{
    let mut characters: Vec<char> = Vec::new();
    for character in iter: text.chars()
        invariant
            characters@ == iter.seq().take(iter.index()),
            iter.seq() == text@,
    {
        characters.push(character);
    }
    characters
}

/// The text made of `characters[start..end]`.
pub fn slice(characters: &Vec<char>, start: usize, end: usize) -> (text: String)
    requires
        start <= end <= characters@.len(),
    ensures
        text@ == characters@.subrange(start as int, end as int),
{
    let mut text = String::new();
    let mut index: usize = start;
    while index < end
        invariant
            start <= index <= end <= characters@.len(),
            text@ == characters@.subrange(start as int, index as int),
        decreases end - index,
    {
        text.push(characters[index]);
        index += 1;
    }
    text
}

/// The text whose characters are `characters`.
pub fn text_of(characters: &Vec<char>) -> (text: String)
    ensures
        text@ == characters@,
{
    let text = slice(characters, 0, characters.len());
    assert(characters@.subrange(0, characters@.len() as int) == characters@);
    text
}

/// Whether two texts are the same.
pub fn same(left: &str, right: &str) -> (equal: bool)
    ensures
        equal == (left@ == right@),
{
    left.eq(right)
}

/// Whether `text` is one of `choices`.
pub fn one_of(text: &str, choices: &[&str]) -> (found: bool)
    ensures
        found == exists|i: int| 0 <= i < choices@.len() && #[trigger] choices@[i]@ == text@,
{
    let mut index: usize = 0;
    while index < choices.len()
        invariant
            index <= choices@.len(),
            forall|i: int| 0 <= i < index ==> #[trigger] choices@[i]@ != text@,
        decreases choices@.len() - index,
    {
        if same(text, choices[index]) {
            return true;
        }
        index += 1;
    }
    false
}

/// The characters with the Unicode property `White_Space`.
pub open spec fn is_white(character: char) -> bool {
    let code = character as u32;
    ||| 0x09 <= code <= 0x0d
    ||| code == 0x20
    ||| code == 0x85
    ||| code == 0xa0
    ||| code == 0x1680
    ||| 0x2000 <= code <= 0x200a
    ||| code == 0x2028
    ||| code == 0x2029
    ||| code == 0x202f
    ||| code == 0x205f
    ||| code == 0x3000
}

/// Whether a character is white space.
pub fn white(character: char) -> (found: bool)
    ensures
        found == is_white(character),
{
    let code: u32 = character as u32;
    (0x09 <= code && code <= 0x0d) || code == 0x20 || code == 0x85 || code == 0xa0 || code == 0x1680
        || (0x2000 <= code && code <= 0x200a) || code == 0x2028 || code == 0x2029 || code == 0x202f
        || code == 0x205f || code == 0x3000
}

/// `text` without its leading white space.
pub open spec fn trimmed_start(text: Seq<char>) -> Seq<char>
    decreases text.len(),
{
    if text.len() > 0 && is_white(text.first()) {
        trimmed_start(text.drop_first())
    } else {
        text
    }
}

/// `text` without its trailing white space.
pub open spec fn trimmed_end(text: Seq<char>) -> Seq<char>
    decreases text.len(),
{
    if text.len() > 0 && is_white(text.last()) {
        trimmed_end(text.drop_last())
    } else {
        text
    }
}

/// `text` without the white space at either end.
pub open spec fn trimmed(text: Seq<char>) -> Seq<char> {
    trimmed_end(trimmed_start(text))
}

/// The number of leading white-space characters.
pub open spec fn indent(text: Seq<char>) -> int {
    text.len() - trimmed_start(text).len()
}

proof fn lemma_trimmed_start(text: Seq<char>, count: int)
    requires
        0 <= count <= text.len(),
        forall|i: int| 0 <= i < count ==> is_white(#[trigger] text[i]),
        count < text.len() ==> !is_white(text[count]),
    ensures
        trimmed_start(text) == text.skip(count),
    decreases count,
{
    if count == 0 {
        assert(text.skip(0) == text);
    } else {
        let rest = text.drop_first();
        assert forall|i: int| 0 <= i < count - 1 implies is_white(#[trigger] rest[i]) by {
            assert(rest[i] == text[i + 1]);
        }
        lemma_trimmed_start(rest, count - 1);
        assert(rest.skip(count - 1) == text.skip(count));
    }
}

proof fn lemma_trimmed_end(text: Seq<char>, keep: int)
    requires
        0 <= keep <= text.len(),
        forall|i: int| keep <= i < text.len() ==> is_white(#[trigger] text[i]),
        keep > 0 ==> !is_white(text[keep - 1]),
    ensures
        trimmed_end(text) == text.take(keep),
    decreases text.len(),
{
    if keep == text.len() {
        assert(text.take(keep) == text);
    } else {
        lemma_trimmed_end(text.drop_last(), keep);
        assert(text.drop_last().take(keep) == text.take(keep));
    }
}

/// The number of leading white-space characters of `characters`.
pub fn leading_white(characters: &Vec<char>) -> (count: usize)
    ensures
        count <= characters@.len(),
        trimmed_start(characters@) == characters@.skip(count as int),
        count == indent(characters@),
{
    let mut count: usize = 0;
    while count < characters.len() && white(characters[count])
        invariant
            count <= characters@.len(),
            forall|i: int| 0 <= i < count ==> is_white(#[trigger] characters@[i]),
        decreases characters@.len() - count,
    {
        count += 1;
    }
    proof {
        lemma_trimmed_start(characters@, count as int);
    }
    count
}

/// `text` without its leading white space.
pub fn trim_start(text: &str) -> (rest: String)
    ensures
        rest@ == trimmed_start(text@),
{
    let characters = chars(text);
    let count: usize = leading_white(&characters);
    let rest = slice(&characters, count, characters.len());
    assert(rest@ == characters@.skip(count as int));
    rest
}

/// `text` without the white space at either end.
pub fn trim(text: &str) -> (rest: String)
    ensures
        rest@ == trimmed(text@),
{
    let characters = chars(text);
    let start: usize = leading_white(&characters);
    let mut end: usize = characters.len();
    while end > start && white(characters[end - 1])
        invariant
            start <= end <= characters@.len(),
            forall|i: int| end <= i < characters@.len() ==> is_white(#[trigger] characters@[i]),
        decreases end,
    {
        end -= 1;
    }
    proof {
        let rest = characters@.skip(start as int);
        lemma_trimmed_end(rest, end - start);
        assert(rest.take(end - start) == characters@.subrange(start as int, end as int));
    }
    slice(&characters, start, end)
}

/// Whether `part` stands in `text` at `index`.
pub open spec fn stands_at(text: Seq<char>, part: Seq<char>, index: int) -> bool {
    0 <= index && index + part.len() <= text.len() && text.subrange(index, index + part.len()) == part
}

/// Whether `text` begins with `part`.
pub open spec fn begins_with(text: Seq<char>, part: Seq<char>) -> bool {
    stands_at(text, part, 0)
}

/// The first place at or after `from` where `part` stands in `text`.
pub open spec fn find_from(text: Seq<char>, part: Seq<char>, from: int) -> Option<int>
    decreases text.len() + 1 - from,
{
    if from < 0 || from + part.len() > text.len() {
        None
    } else if stands_at(text, part, from) {
        Some(from)
    } else {
        find_from(text, part, from + 1)
    }
}

/// Whether `part` stands somewhere in `text`.
pub open spec fn holds(text: Seq<char>, part: Seq<char>) -> bool {
    find_from(text, part, 0) is Some
}

/// What `find_from` returns is the first place where the part stands.
pub proof fn lemma_find_from(text: Seq<char>, part: Seq<char>, from: int)
    requires
        0 <= from,
    ensures
        match find_from(text, part, from) {
            Some(place) => from <= place && stands_at(text, part, place) && forall|i: int|
                from <= i < place ==> !stands_at(text, part, i),
            None => forall|i: int| from <= i ==> !stands_at(text, part, i),
        },
    decreases text.len() + 1 - from,
{
    if from + part.len() <= text.len() && !stands_at(text, part, from) {
        lemma_find_from(text, part, from + 1);
    }
}

/// Whether `part` stands in `text` at `index`.
pub fn is_at(text: &Vec<char>, part: &Vec<char>, index: usize) -> (found: bool)
    requires
        index <= text@.len(),
    ensures
        found == stands_at(text@, part@, index as int),
{
    if part.len() > text.len() - index {
        return false;
    }
    let mut offset: usize = 0;
    while offset < part.len()
        invariant
            index + part@.len() <= text.len(),
            offset <= part@.len(),
            forall|i: int| 0 <= i < offset ==> text@[index + i] == part@[i],
        decreases part@.len() - offset,
    {
        if text[index + offset] != part[offset] {
            assert(text@.subrange(index as int, index + part@.len())[offset as int] != part@[offset as int]);
            return false;
        }
        offset += 1;
    }
    assert(text@.subrange(index as int, index + part@.len()) == part@);
    true
}

/// The first place at or after `from` where `part` stands in `text`.
pub fn find(text: &Vec<char>, part: &Vec<char>, from: usize) -> (place: Option<usize>)
    requires
        from <= text@.len(),
    ensures
        match place {
            Some(index) => find_from(text@, part@, from as int) == Some(index as int) && from
                <= index && index + part@.len() <= text@.len(),
            None => find_from(text@, part@, from as int) is None,
        },
{
    let mut index: usize = from;
    while index <= text.len() && part.len() <= text.len() - index
        invariant
            from <= index,
            index <= text@.len() + 1,
            find_from(text@, part@, from as int) == find_from(text@, part@, index as int),
        decreases text@.len() + 1 - index,
    {
        if is_at(text, part, index) {
            return Some(index);
        }
        if index == text.len() {
            assert(find_from(text@, part@, index + 1) is None);
            return None;
        }
        index += 1;
    }
    None
}

/// Whether `part` stands somewhere in `text`.
pub fn contains(text: &str, part: &str) -> (found: bool)
    ensures
        found == holds(text@, part@),
{
    find(&chars(text), &chars(part), 0).is_some()
}

/// Whether `text` begins with `part`.
pub fn starts_with(text: &str, part: &str) -> (found: bool)
    ensures
        found == begins_with(text@, part@),
{
    is_at(&chars(text), &chars(part), 0)
}

proof fn lemma_held(before: Seq<char>, part: Seq<char>, after: Seq<char>)
    ensures
        holds(before + part + after, part),
        begins_with(part + after, part),
{
    let whole = before + part + after;
    let at = before.len() as int;
    assert(whole.subrange(at, at + part.len()) =~= part);
    assert(stands_at(whole, part, at));
    lemma_find_from(whole, part, 0);
    assert((part + after).subrange(0, part.len() as int) =~= part);
}

proof fn lemma_split(text: Seq<char>, part: Seq<char>, place: int) -> (ends: (Seq<char>, Seq<char>))
    requires
        stands_at(text, part, place),
    ensures
        text == ends.0 + part + ends.1,
        ends.0.len() == place,
{
    let left = text.subrange(0, place);
    let end = place + part.len();
    let right = text.subrange(end, text.len() as int);
    assert(text =~= left + text.subrange(place, end) + right);
    (left, right)
}

/// A text holds a part exactly if it is that part with some text before it and some text after it,
/// and begins with it exactly if it is that part with some text after it.
pub proof fn texts_hold_their_parts(before: Seq<char>, part: Seq<char>, after: Seq<char>, text: Seq<char>)
    ensures
        holds(before + part + after, part),
        begins_with(part + after, part),
        holds(text, part) ==> exists|left: Seq<char>, right: Seq<char>|
            text == #[trigger] (left + part + right),
        begins_with(text, part) ==> exists|right: Seq<char>| text == #[trigger] (part + right),
{
    lemma_held(before, part, after);
    if holds(text, part) {
        lemma_find_from(text, part, 0);
        let (left, right) = lemma_split(text, part, find_from(text, part, 0)->Some_0);
        assert(text == left + part + right);
    }
    if begins_with(text, part) {
        let (left, right) = lemma_split(text, part, 0);
        assert(left + part =~= part);
        assert(text == part + right);
    }
}

/// Whether a text is a part with some text before it and some text after it.
pub open spec fn surrounds(whole: Seq<char>, part: Seq<char>) -> bool {
    exists|before: Seq<char>, after: Seq<char>| whole == #[trigger] (before + part + after)
}

/// A text holds exactly what it surrounds.
pub proof fn lemma_surrounds(whole: Seq<char>, part: Seq<char>)
    ensures
        holds(whole, part) <==> surrounds(whole, part),
{
    texts_hold_their_parts(Seq::empty(), part, Seq::empty(), whole);
    if surrounds(whole, part) {
        let (before, after) = choose|before: Seq<char>, after: Seq<char>|
            whole == #[trigger] (before + part + after);
        texts_hold_their_parts(before, part, after, whole);
    }
}

} // verus!
