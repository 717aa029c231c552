//! What holds of texts and of numbers in decimal notation.
use crate::fields;
use crate::json;
use crate::json::{FieldView, JsonView};
use crate::number;
use crate::number::{ReadingView, EXACT, FULL};
use crate::numeral;
use crate::outside;
use crate::paths;
use crate::pieces;
use crate::sorted;
use crate::text;
use crate::words;
use crate::written;
use vstd::prelude::*;

verus! {

/// Whether a character is nowhere in a text.
pub open spec fn lacks(text: Seq<char>, character: char) -> bool {
    forall|i: int| 0 <= i < text.len() ==> (#[trigger] text[i]) != character
}

/// Whether a text is made of white space.
pub open spec fn is_blank(text: Seq<char>) -> bool {
    forall|i: int| 0 <= i < text.len() ==> text::is_white(#[trigger] text[i])
}

/// White space is what Unicode calls so.
pub proof fn white_space_is_listed(character: char)
    ensures
        text::is_white(character) <==> {
            let code = character as u32;
            ||| code == 0x09 || code == 0x0a || code == 0x0b || code == 0x0c || code == 0x0d
            ||| code == 0x20 || code == 0x85 || code == 0xa0 || code == 0x1680
            ||| code == 0x2000 || code == 0x2001 || code == 0x2002 || code == 0x2003 || code
                == 0x2004 || code == 0x2005
            ||| code == 0x2006 || code == 0x2007 || code == 0x2008 || code == 0x2009 || code
                == 0x200a
            ||| code == 0x2028 || code == 0x2029 || code == 0x202f || code == 0x205f || code
                == 0x3000
        },
{
}

proof fn lemma_start(text: Seq<char>) -> (left: Seq<char>)
    ensures
        text == left + text::trimmed_start(text),
        is_blank(left),
        text::trimmed_start(text).len() > 0 ==> !text::is_white(text::trimmed_start(text)[0]),
    decreases text.len(),
{
    if text.len() > 0 && text::is_white(text.first()) {
        let rest = lemma_start(text.drop_first());
        let left = seq![text.first()] + rest;
        assert(text =~= seq![text.first()] + text.drop_first());
        assert(text =~= left + text::trimmed_start(text));
        assert forall|i: int| 0 <= i < left.len() implies text::is_white(#[trigger] left[i]) by {
            if i > 0 {
                assert(left[i] == rest[i - 1]);
            }
        }
        left
    } else {
        assert(text =~= Seq::<char>::empty() + text);
        Seq::empty()
    }
}

proof fn lemma_end(text: Seq<char>) -> (right: Seq<char>)
    ensures
        text == text::trimmed_end(text) + right,
        is_blank(right),
        text::trimmed_end(text).len() > 0 ==> !text::is_white(text::trimmed_end(text).last()),
    decreases text.len(),
{
    if text.len() > 0 && text::is_white(text.last()) {
        let rest = lemma_end(text.drop_last());
        let right = rest.push(text.last());
        assert(text =~= text.drop_last().push(text.last()));
        assert(text =~= text::trimmed_end(text) + right);
        right
    } else {
        assert(text =~= text + Seq::<char>::empty());
        Seq::empty()
    }
}

/// Trimming takes away white space at both ends, all of it and nothing else.
pub proof fn trimming_takes_white_ends(text: Seq<char>) -> (ends: (Seq<char>, Seq<char>))
    ensures
        text == ends.0 + text::trimmed(text) + ends.1,
        is_blank(ends.0) && is_blank(ends.1),
        text::trimmed(text).len() > 0 ==> !text::is_white(text::trimmed(text).first())
            && !text::is_white(text::trimmed(text).last()),
{
    let left = lemma_start(text);
    let rest = text::trimmed_start(text);
    let right = lemma_end(rest);
    assert(text =~= left + text::trimmed(text) + right);
    if text::trimmed(text).len() > 0 {
        assert(rest[0] == text::trimmed(text)[0]);
    }
    (left, right)
}

proof fn lemma_joined(first: Seq<char>, rest: Seq<Seq<char>>, separator: Seq<char>)
    requires
        rest.len() > 0,
    ensures
        pieces::joined(seq![first] + rest, separator) == first + separator + pieces::joined(
            rest,
            separator,
        ),
    decreases rest.len(),
{
    let all = seq![first] + rest;
    assert(all.last() == rest.last());
    assert(all.drop_last() =~= seq![first] + rest.drop_last());
    if rest.len() == 1 {
        assert(all.drop_last() =~= seq![first]);
        assert(pieces::joined(all.drop_last(), separator) == first);
    } else {
        lemma_joined(first, rest.drop_last(), separator);
        assert(pieces::joined(all, separator) =~= first + separator + pieces::joined(
            rest,
            separator,
        ));
    }
}

proof fn lemma_pieces(text: Seq<char>, separator: char, start: int, index: int)
    requires
        0 <= start <= index <= text.len(),
        forall|i: int| start <= i < index ==> (#[trigger] text[i]) != separator,
    ensures
        ({
            let list = pieces::pieces_from(text, separator, start, index);
            &&& list.len() > 0
            &&& pieces::joined(list, seq![separator]) == text.skip(start)
            &&& forall|i: int| 0 <= i < list.len() ==> lacks(#[trigger] list[i], separator)
        }),
    decreases text.len() - index,
{
    if index >= text.len() {
        assert(text.subrange(start, text.len() as int) =~= text.skip(start));
    } else if text[index] == separator {
        lemma_pieces(text, separator, index + 1, index + 1);
        let first = text.subrange(start, index);
        let rest = pieces::pieces_from(text, separator, index + 1, index + 1);
        lemma_joined(first, rest, seq![separator]);
        assert(text.skip(start) =~= first + seq![separator] + text.skip(index + 1));
        let list = pieces::pieces_from(text, separator, start, index);
        assert forall|i: int| 0 <= i < list.len() implies lacks(#[trigger] list[i], separator) by {
            if i > 0 {
                assert(list[i] == rest[i - 1]);
            }
        }
    } else {
        lemma_pieces(text, separator, start, index + 1);
    }
}

/// The pieces of a text hold no separator and give the text when they are joined by it.
pub proof fn pieces_join_to_their_text(text: Seq<char>, separator: char)
    ensures
        pieces::joined(pieces::pieces(text, separator), seq![separator]) == text,
        forall|i: int|
            0 <= i < pieces::pieces(text, separator).len() ==> lacks(
                #[trigger] pieces::pieces(text, separator)[i],
                separator,
            ),
{
    lemma_pieces(text, separator, 0, 0);
    assert(text.skip(0) =~= text);
}

/// Joining puts the separator between the parts and nowhere else.
pub proof fn joining_separates_parts(parts: Seq<Seq<char>>, last: Seq<char>, separator: Seq<char>)
    ensures
        pieces::joined(Seq::empty(), separator).len() == 0,
        pieces::joined(seq![last], separator) == last,
        parts.len() > 0 ==> pieces::joined(parts.push(last), separator) == pieces::joined(
            parts,
            separator,
        ) + separator + last,
{
    assert(parts.push(last).drop_last() =~= parts);
}

proof fn lemma_lines(text: Seq<char>, start: int, index: int, from: int)
    requires
        0 <= from <= start <= index <= text.len(),
    ensures
        pieces::lines_from(text, start, index) == pieces::lines_from(
            text.skip(from),
            start - from,
            index - from,
        ),
    decreases text.len() - index,
{
    let rest = text.skip(from);
    assert(text.subrange(start, text.len() as int) =~= rest.subrange(
        start - from,
        rest.len() as int,
    ));
    if index < text.len() {
        assert(text[index] == rest[index - from]);
        if text[index] == '\n' {
            assert(text.subrange(start, index) =~= rest.subrange(start - from, index - from));
            lemma_lines(text, index + 1, index + 1, from);
        } else {
            lemma_lines(text, start, index + 1, from);
        }
    }
}

proof fn lemma_line(text: Seq<char>, start: int, index: int, end: int)
    requires
        0 <= start <= index <= end <= text.len(),
        forall|i: int| index <= i < end ==> (#[trigger] text[i]) != '\n',
    ensures
        pieces::lines_from(text, start, index) == pieces::lines_from(text, start, end),
    decreases end - index,
{
    if index < end {
        lemma_line(text, start, index + 1, end);
    }
}

/// A line feed ends a line, and a carriage return before it belongs to the end; what comes after the
/// last line feed is a line if there is anything.
pub proof fn lines_end_with_line_feeds(line: Seq<char>, rest: Seq<char>)
    requires
        lacks(line, '\n'),
    ensures
        pieces::lines_of(line.push('\n') + rest) == seq![
            if line.len() > 0 && line.last() == '\r' {
                line.drop_last()
            } else {
                line
            },
        ] + pieces::lines_of(rest),
        pieces::lines_of(line) == (if line.len() == 0 {
            Seq::empty()
        } else {
            seq![line]
        }),
{
    let text = line.push('\n') + rest;
    let end = line.len() as int;
    assert forall|i: int| 0 <= i < end implies (#[trigger] text[i]) != '\n' by {
        assert(text[i] == line[i]);
    }
    lemma_line(text, 0, 0, end);
    assert(text[end] == '\n');
    assert(text.subrange(0, end) =~= line);
    lemma_lines(text, end + 1, end + 1, end + 1);
    assert(text.skip(end + 1) =~= rest);
    lemma_line(line, 0, 0, end);
    assert(line.subrange(0, end) =~= line);
}

proof fn lemma_replaced(
    text: Seq<char>,
    part: Seq<char>,
    with: Seq<char>,
    index: int,
    from: int,
)
    requires
        0 <= from <= index <= text.len(),
    ensures
        pieces::replaced_from(text, part, with, index) == pieces::replaced_from(
            text.skip(from),
            part,
            with,
            index - from,
        ),
    decreases text.len() - index,
{
    let rest = text.skip(from);
    if index < text.len() {
        assert(text[index] == rest[index - from]);
        if part.len() == 0 {
            lemma_replaced(text, part, with, index + 1, from);
        } else {
            if index + part.len() <= text.len() {
                assert(text.subrange(index, index + part.len()) =~= rest.subrange(
                    index - from,
                    index - from + part.len(),
                ));
            }
            assert(text::stands_at(text, part, index) == text::stands_at(rest, part, index - from));
            if text::stands_at(text, part, index) {
                lemma_replaced(text, part, with, index + part.len(), from);
            } else {
                lemma_replaced(text, part, with, index + 1, from);
            }
        }
    }
}

proof fn lemma_unreplaced(
    text: Seq<char>,
    part: Seq<char>,
    with: Seq<char>,
    index: int,
    end: int,
)
    requires
        part.len() > 0,
        0 <= index <= end <= text.len(),
        forall|i: int| index <= i < end ==> !text::stands_at(text, part, i),
    ensures
        pieces::replaced_from(text, part, with, index) == text.subrange(index, end)
            + pieces::replaced_from(text, part, with, end),
    decreases end - index,
{
    if index < end {
        lemma_unreplaced(text, part, with, index + 1, end);
        assert(text.subrange(index, end) =~= seq![text[index]] + text.subrange(index + 1, end));
        assert(pieces::replaced_from(text, part, with, index) =~= text.subrange(index, end)
            + pieces::replaced_from(text, part, with, end));
    } else {
        assert(text.subrange(index, end) + pieces::replaced_from(text, part, with, end)
            =~= pieces::replaced_from(text, part, with, end));
    }
}

/// Replacing takes the first place where a part stands and goes on behind it; a text that does not
/// hold the part stays as it is.
pub proof fn replacing_goes_from_the_left(
    before: Seq<char>,
    part: Seq<char>,
    after: Seq<char>,
    with: Seq<char>,
    other: Seq<char>,
)
    requires
        part.len() > 0,
        forall|i: int| 0 <= i < before.len() ==> !text::stands_at(before + part + after, part, i),
        forall|i: int| 0 <= i ==> !text::stands_at(other, part, i),
    ensures
        pieces::replaced(before + part + after, part, with) == before + with + pieces::replaced(
            after,
            part,
            with,
        ),
        pieces::replaced(other, part, with) == other,
{
    let whole = before + part + after;
    let at = before.len() as int;
    lemma_unreplaced(whole, part, with, 0, at);
    assert(whole.subrange(0, at) =~= before);
    assert(whole.subrange(at, at + part.len()) =~= part);
    lemma_replaced(whole, part, with, at + part.len(), at + part.len());
    assert(whole.skip(at + part.len()) =~= after);
    assert(pieces::replaced(whole, part, with) =~= before + with + pieces::replaced(
        after,
        part,
        with,
    ));
    lemma_unreplaced(other, part, with, 0, other.len() as int);
    assert(pieces::replaced(other, part, with) =~= other);
}

/// What is taken out of a text is nowhere in it any more, and all else stays.
pub proof fn removed_characters_are_gone(text: Seq<char>, dropped: Seq<char>, character: char)
    ensures
        pieces::without(text, dropped).contains(character) <==> text.contains(character)
            && !dropped.contains(character),
    decreases text.len(),
{
    let keep = |character: char| !dropped.contains(character);
    reveal(Seq::filter);
    if text.len() > 0 {
        let less = text.drop_last();
        let kept = less.filter(keep);
        let all = text.filter(keep);
        removed_characters_are_gone(less, dropped, character);
        assert(text =~= less.push(text.last()));
        if kept.contains(character) {
            let i = choose|i: int| 0 <= i < kept.len() && kept[i] == character;
            assert(all[i] == character);
        }
        if less.contains(character) {
            let i = choose|i: int| 0 <= i < less.len() && less[i] == character;
            assert(text[i] == character);
        }
        if text.contains(character) && !less.contains(character) {
            let i = choose|i: int| 0 <= i < text.len() && text[i] == character;
            if i < less.len() {
                assert(less[i] == character);
            }
            if keep(text.last()) {
                assert(all[kept.len() as int] == text.last());
            }
        }
        if all.contains(character) && !kept.contains(character) {
            let i = choose|i: int| 0 <= i < all.len() && all[i] == character;
            if i < kept.len() {
                assert(kept[i] == character);
            }
            assert(text[text.len() - 1] == character);
        }
    }
}

/// Escaping puts a backslash before each character that has a meaning in a regular expression.
pub proof fn escaping_marks_characters(text: Seq<char>, character: char)
    ensures
        pieces::escaped(Seq::empty()).len() == 0,
        pieces::escaped(text.push(character)) == pieces::escaped(text) + (
        if "\\.+*?()|[]{}^$#&-~"@.contains(character) {
            seq!['\\', character]
        } else {
            seq![character]
        }),
{
    assert(text.push(character).drop_last() =~= text);
    assert(pieces::escaped(text.push(character)) =~= pieces::escaped(text) + (
    if "\\.+*?()|[]{}^$#&-~"@.contains(character) {
        seq!['\\', character]
    } else {
        seq![character]
    }));
}

/// Capital letters of ASCII become small ones, all other characters stay.
pub proof fn lowering_keeps_other_characters(text: Seq<char>, index: int)
    requires
        0 <= index < text.len(),
    ensures
        words::lowered(text).len() == text.len(),
        65 <= text[index] as u32 <= 90 ==> words::lowered(text)[index] as u32 == text[index] as u32
            + 32,
        !(65 <= text[index] as u32 <= 90) ==> words::lowered(text)[index] == text[index],
{
}

/// The head and the tail of a text are its first and its last characters, as many as are asked for
/// or as there are.
pub proof fn ends_are_cut_off(text: Seq<char>, count: nat)
    ensures
        ({
            let size = if text.len() < count {
                text.len()
            } else {
                count
            };
            &&& words::head(text, count as int) == text.take(size as int)
            &&& words::tail(text, count as int) == text.skip(text.len() - size)
        }),
{
    assert(text.take(text.len() as int) =~= text);
    assert(text.skip(0) =~= text);
}

proof fn lemma_word(text: Seq<char>, end: int)
    requires
        0 <= end <= text.len(),
    ensures
        ({
            let start = words::word_start(text, end);
            &&& 0 <= start <= end
            &&& forall|i: int| start <= i < end ==> !text::is_white(#[trigger] text[i])
            &&& start > 0 ==> text::is_white(text[start - 1])
        }),
    decreases end,
{
    if end > 0 && !text::is_white(text[end - 1]) {
        lemma_word(text, end - 1);
    }
}

/// The last word of a text has no white space in it, and has white space or nothing before it and
/// after it; there is none exactly in a blank text.
pub proof fn last_words_are_whole(text: Seq<char>) -> (parts: (Seq<char>, Seq<char>))
    ensures
        match words::last_of(text) {
            Some(word) => {
                &&& text == parts.0 + word + parts.1
                &&& word.len() > 0
                &&& forall|i: int| 0 <= i < word.len() ==> !text::is_white(#[trigger] word[i])
                &&& is_blank(parts.1)
                &&& parts.0.len() > 0 ==> text::is_white(parts.0.last())
            },
            None => is_blank(text),
        },
{
    let (left, right) = trimming_takes_white_ends(text);
    let rest = text::trimmed(text);
    lemma_word(rest, rest.len() as int);
    if rest.len() == 0 {
        assert(text =~= left + right);
        assert forall|i: int| 0 <= i < text.len() implies text::is_white(#[trigger] text[i]) by {
            if i < left.len() {
                assert(text[i] == left[i]);
            } else {
                assert(text[i] == right[i - left.len()]);
            }
        }
        (left, right)
    } else {
        let start = words::word_start(rest, rest.len() as int);
        let word = rest.skip(start);
        let before = left + rest.take(start);
        assert(text =~= before + word + right);
        assert(!text::is_white(rest[rest.len() - 1]));
        assert(start < rest.len());
        if before.len() > 0 {
            if start > 0 {
                assert(before.last() == rest[start - 1]);
            } else {
                assert(before.last() == left.last());
            }
        }
        (before, right)
    }
}

/// A path below a directory begins with the directory and ends with the name, and has one slash
/// between them where the directory does not end with one.
pub proof fn paths_lie_below_their_directory(directory: Seq<char>, name: Seq<char>)
    ensures
        directory.len() > 0 && directory.last() != '/' ==> paths::path(directory, name)
            == directory + seq!['/'] + name,
        directory.len() == 0 || directory.last() == '/' ==> paths::path(directory, name)
            == directory + name,
{
    reveal_strlit("/");
    assert("/"@ =~= seq!['/']);
}

proof fn lemma_last_place(text: Seq<char>, part: char, end: int)
    requires
        0 <= end <= text.len(),
    ensures
        match paths::last_place(text, part, end) {
            Some(place) => 0 <= place < end && text[place] == part && forall|i: int|
                place < i < end ==> (#[trigger] text[i]) != part,
            None => forall|i: int| 0 <= i < end ==> (#[trigger] text[i]) != part,
        },
    decreases end,
{
    if end > 0 && text[end - 1] != part {
        lemma_last_place(text, part, end - 1);
    }
}

/// The name of a file is what comes after the last slash of its path.
pub proof fn files_are_named_by_their_path(path: Seq<char>) -> (directory: Seq<char>)
    ensures
        path == directory + paths::file_of(path),
        lacks(paths::file_of(path), '/'),
        directory.len() > 0 ==> directory.last() == '/',
{
    lemma_last_place(path, '/', path.len() as int);
    match paths::last_place(path, '/', path.len() as int) {
        Some(place) => {
            let directory = path.take(place + 1);
            assert(path =~= directory + paths::file_of(path));
            directory
        },
        None => {
            assert(path =~= Seq::<char>::empty() + path);
            Seq::empty()
        },
    }
}

/// A file's name is its stem, a dot and its ending, which has no dot in it; it has no ending exactly
/// if its only dot, if any, is its first character.
pub proof fn endings_follow_the_last_dot(name: Seq<char>)
    ensures
        match paths::ending_of(name) {
            Some(ending) => {
                &&& name == paths::stem_of(name) + seq!['.'] + ending
                &&& lacks(ending, '.')
                &&& paths::stem_of(name).len() > 0
            },
            None => {
                &&& paths::stem_of(name) == name
                &&& forall|i: int| 0 < i < name.len() ==> (#[trigger] name[i]) != '.'
            },
        },
{
    lemma_last_place(name, '.', name.len() as int);
    if let Some(ending) = paths::ending_of(name) {
        assert(name =~= paths::stem_of(name) + seq!['.'] + ending);
    }
}

proof fn lemma_before(left: Seq<char>, right: Seq<char>, from: int)
    requires
        0 <= from <= left.len(),
        from <= right.len(),
        forall|i: int| 0 <= i < from ==> (#[trigger] left[i]) == right[i],
    ensures
        sorted::before(left, right, from) <==> exists|at: int|
            from <= at < right.len() && at <= left.len() && differs(left, right, at),
    decreases right.len() - from,
{
    if from < right.len() {
        if from >= left.len() {
            assert(differs(left, right, from));
        } else if left[from] == right[from] {
            lemma_before(left, right, from + 1);
            if sorted::before(left, right, from + 1) {
                let at = choose|at: int|
                    from + 1 <= at < right.len() && at <= left.len() && differs(left, right, at);
                assert(differs(left, right, at));
            }
            if exists|at: int|
                from <= at < right.len() && at <= left.len() && differs(left, right, at) {
                let at = choose|at: int|
                    from <= at < right.len() && at <= left.len() && differs(left, right, at);
                assert(at != from);
            }
        } else {
            if left[from] < right[from] {
                assert(differs(left, right, from));
            }
            if exists|at: int|
                from <= at < right.len() && at <= left.len() && differs(left, right, at) {
                let at = choose|at: int|
                    from <= at < right.len() && at <= left.len() && differs(left, right, at);
                if at > from {
                    assert(left[from] == right[from]);
                }
            }
        }
    }
}

/// Whether two texts agree up to a place where the first is over or has the smaller character.
pub open spec fn differs(left: Seq<char>, right: Seq<char>, at: int) -> bool {
    &&& forall|i: int| 0 <= i < at ==> (#[trigger] left[i]) == right[i]
    &&& left.len() == at || left[at] < right[at]
}

/// One text comes before another exactly if they agree up to a place where the first is over, or has
/// the smaller character.
pub proof fn texts_are_ordered_by_characters(left: Seq<char>, right: Seq<char>)
    ensures
        sorted::precedes(left, right) <==> exists|at: int|
            0 <= at < right.len() && at <= left.len() && differs(left, right, at),
{
    lemma_before(left, right, 0);
}

/// A number in decimal notation is read back as that number, and has no zero before it.
pub proof fn numerals_are_read_back(value: nat)
    ensures
        numeral::all_digits(numeral::decimal(value)),
        numeral::digits_value(numeral::decimal(value)) == value,
        value > 0 ==> numeral::decimal(value)[0] != '0',
        value < 10 ==> numeral::decimal(value) == seq![(48 + value) as u8 as char],
        numeral::decimal(10 * value + 7).len() == (if value == 0 {
            1
        } else {
            numeral::decimal(value).len() + 1
        }),
    decreases value,
{
    let all = numeral::decimal(value);
    if value < 10 {
        assert(all.drop_last() =~= Seq::<char>::empty());
        assert(numeral::digits_value(Seq::<char>::empty()) == 0);
    } else {
        numerals_are_read_back(value / 10);
        let less = numeral::decimal(value / 10);
        assert(all.drop_last() =~= less);
        assert(all[0] == less[0]);
        assert forall|i: int| 0 <= i < all.len() implies numeral::is_digit(#[trigger] all[i]) by {
            if i < less.len() {
                assert(all[i] == less[i]);
            }
        }
    }
    assert((10 * value + 7) / 10 == value);
}

/// An integer is read from its decimal notation, with a sign or without.
pub proof fn integers_are_read_back(value: nat)
    requires
        value <= u64::MAX,
    ensures
        numeral::integer_of(numeral::decimal(value)) == Some(value as int),
        numeral::integer_of(seq!['+'] + numeral::decimal(value)) == Some(value as int),
        value <= 0x8000_0000_0000_0000 ==> numeral::integer_of(numeral::signed(-(value as int)))
            == Some(-(value as int)),
        value > 0x8000_0000_0000_0000 ==> numeral::integer_of(numeral::signed(-(value as int))) is None,
{
    let digits = numeral::decimal(value);
    numerals_are_read_back(value);
    assert(numeral::is_digit(digits[0]));
    let plus = seq!['+'] + digits;
    assert(plus.skip(1) =~= digits);
    let minus = seq!['-'] + digits;
    assert(minus.skip(1) =~= digits);
    assert(minus[0] == '-');
}

/// A padded number is at least as wide as is asked for, and reads as the number.
pub proof fn padding_adds_zeros(value: nat, width: int) -> (zeros: Seq<char>)
    ensures
        numeral::padded(value, width) == zeros + numeral::decimal(value),
        forall|i: int| 0 <= i < zeros.len() ==> (#[trigger] zeros[i]) == '0',
        zeros.len() == (if width <= numeral::decimal(value).len() {
            0
        } else {
            width - numeral::decimal(value).len()
        }),
{
    numeral::zeros(width - numeral::decimal(value).len())
}

proof fn lemma_scaled(value: int)
    requires
        0 < value < EXACT,
    ensures
        FULL <= number::scaled(value) < EXACT,
        number::doublings(value) >= 0,
        number::scaled(value) == value * vstd::arithmetic::power2::pow2(
            number::doublings(value) as nat,
        ),
    decreases EXACT - value,
{
    vstd::arithmetic::power2::lemma2_to64();
    if value < FULL {
        lemma_scaled(2 * value);
        let less = number::doublings(2 * value) as nat;
        vstd::arithmetic::power2::lemma_pow2_unfold(less + 1);
        assert(2 * value * vstd::arithmetic::power2::pow2(less) == value * (2
            * vstd::arithmetic::power2::pow2(less))) by (nonlinear_arith);
        assert(number::doublings(value) == less + 1);
    } else {
        assert(value * vstd::arithmetic::power2::pow2(0) == value) by (nonlinear_arith)
            requires
                vstd::arithmetic::power2::pow2(0) == 1,
        ;
    }
}

/// The rank of a whole number is what its binary notation is as a binary64 number: the exponent
/// counts how far it has to be shifted to fill the digits.
pub proof fn integers_are_ranked_as_binary_numbers(value: int) -> (shift: nat)
    requires
        0 < value < EXACT,
    ensures
        ({
            let filled = value * vstd::arithmetic::power2::pow2(shift);
            &&& 0x10_0000_0000_0000 <= filled < 0x20_0000_0000_0000
            &&& number::rank_of_integer(value) == (1075 - shift) * 0x10_0000_0000_0000 + (filled
                - 0x10_0000_0000_0000)
        }),
{
    lemma_scaled(value);
    let shift = number::doublings(value) as nat;
    assert((1075 - shift) * 0x10_0000_0000_0000 == (1074 - shift) * 0x10_0000_0000_0000
        + 0x10_0000_0000_0000) by (nonlinear_arith);
    shift
}

/// Of two whole numbers the smaller has the smaller rank.
pub proof fn integers_are_ranked_by_value(left: int, right: int)
    requires
        0 <= left < right <= EXACT,
    ensures
        number::rank_of_integer(0) == 0,
        number::rank_of_integer(left) < number::rank_of_integer(right),
    decreases EXACT - right,
{
    if left > 0 {
        lemma_scaled(left);
        if left < FULL {
            lemma_scaled(2 * left);
        }
    }
    if right < EXACT {
        lemma_scaled(right);
    }
    if left > 0 && left < FULL && right < FULL {
        integers_are_ranked_by_value(2 * left, 2 * right);
    } else if left == 0 {
        vstd::arithmetic::power2::lemma2_to64();
        number::lemma_doublings(right, 0);
    }
}

/// Of two numbers the one with the smaller rank has the smaller place; of the zeros the negative one
/// comes first.
pub proof fn places_follow_ranks(left: ReadingView, right: ReadingView)
    ensures
        left.value.rank < right.value.rank ==> left.place() < right.place(),
        left.value.rank == right.value.rank && left.value.rank != 0 ==> left.place()
            == right.place(),
        left.value.rank == 0 && right.value.rank == 0 && left.text.len() > 0 && left.text[0] == '-'
            && !(right.text.len() > 0 && right.text[0] == '-') ==> left.place() < right.place(),
{
}

/// Representations of binary64 numbers are ranked as the numbers are ordered: those without a sign
/// by their bits, those with one the other way round and below.
pub proof fn representations_are_ordered(left: u64, right: u64)
    ensures
        left < right < 0x8000_0000_0000_0000 ==> number::rank_of_bits(left) < number::rank_of_bits(
            right,
        ),
        0x8000_0000_0000_0000 <= left < right ==> number::rank_of_bits(left) > number::rank_of_bits(
            right,
        ),
        0x8000_0000_0000_0000 < left && right < 0x8000_0000_0000_0000 ==> number::rank_of_bits(left)
            < number::rank_of_bits(right),
        number::rank_of_bits(0) == 0 && number::rank_of_bits(0x8000_0000_0000_0000) == 0,
{
}

proof fn lemma_items(items: Seq<JsonView>, last: JsonView, count: nat)
    requires
        count <= items.len(),
    ensures
        written::compact_items(items.push(last), count) == written::compact_items(items, count),
    decreases count,
{
    if count > 0 {
        lemma_items(items, last, (count - 1) as nat);
        assert(items.push(last)[count - 1] == items[count - 1]);
    }
}

proof fn lemma_fields(list: Seq<FieldView>, last: FieldView, count: nat)
    requires
        count <= list.len(),
    ensures
        written::compact_fields(list.push(last), count) == written::compact_fields(list, count),
    decreases count,
{
    if count > 0 {
        lemma_fields(list, last, (count - 1) as nat);
        assert(list.push(last)[count - 1] == list[count - 1]);
    }
}

/// How documents are written: words for null and the truth values, brackets around items and braces
/// around fields, commas between them and a colon after each key.
pub proof fn documents_are_written_in_order(
    items: Seq<JsonView>,
    item: JsonView,
    list: Seq<FieldView>,
    field: FieldView,
)
    ensures
        written::compact(JsonView::Null) == "null"@,
        written::compact(JsonView::Bool(true)) == "true"@,
        written::compact(JsonView::Bool(false)) == "false"@,
        written::compact(JsonView::Array(Seq::empty())) == "["@ + "]"@,
        written::compact(JsonView::Object(Seq::empty())) == "{"@ + "}"@,
        written::compact(JsonView::Array(seq![item])) == "["@ + written::compact(item) + "]"@,
        items.len() > 0 ==> exists|inner: Seq<char>| {
            &&& #[trigger] ("["@ + inner + "]"@) == written::compact(JsonView::Array(items))
            &&& written::compact(JsonView::Array(items.push(item))) == "["@ + (inner + ","@
                + written::compact(item)) + "]"@
        },
        written::compact(JsonView::Object(seq![field])) == "{"@ + (outside::quoted(field.0) + ":"@
            + written::compact(field.1)) + "}"@,
        list.len() > 0 ==> exists|inner: Seq<char>| {
            &&& #[trigger] ("{"@ + inner + "}"@) == written::compact(JsonView::Object(list))
            &&& written::compact(JsonView::Object(list.push(field))) == "{"@ + (inner + ","@
                + outside::quoted(field.0) + ":"@ + written::compact(field.1)) + "}"@
        },
{
    assert(written::compact_items(Seq::empty(), 0) =~= Seq::<char>::empty());
    assert(written::compact_fields(Seq::empty(), 0) =~= Seq::<char>::empty());
    assert("["@ + Seq::<char>::empty() + "]"@ =~= "["@ + "]"@);
    assert("{"@ + Seq::<char>::empty() + "}"@ =~= "{"@ + "}"@);
    assert(written::compact_items(seq![item], 1) == written::compact(seq![item][0]));
    assert(written::compact_fields(seq![field], 1) == outside::quoted(seq![field][0].0) + ":"@
        + written::compact(seq![field][0].1));
    if items.len() > 0 {
        let inner = written::compact_items(items, items.len());
        lemma_items(items, item, items.len());
        assert(items.push(item)[items.len() as int] == item);
        assert("["@ + inner + "]"@ == written::compact(JsonView::Array(items)));
    }
    if list.len() > 0 {
        let inner = written::compact_fields(list, list.len());
        lemma_fields(list, field, list.len());
        assert(list.push(field)[list.len() as int] == field);
        assert("{"@ + inner + "}"@ == written::compact(JsonView::Object(list)));
    }
}

/// A report shows texts bare, and the words for nothing, true and false with a capital.
pub proof fn reports_show_values(text: Seq<char>, value: JsonView)
    ensures
        written::shown(JsonView::Text(text)) == text,
        written::shown(JsonView::Null) == "None"@,
        written::shown(JsonView::Bool(true)) == "True"@,
        written::shown(JsonView::Bool(false)) == "False"@,
        value is Number || value is Array || value is Object ==> written::shown(value)
            == written::compact(value),
{
}

/// Extending fields by others gives, under each key, what the others give, and what the fields give
/// under the keys that the others do not have.
pub proof fn later_fields_go_first(list: Seq<FieldView>, others: Seq<FieldView>, last: FieldView, key: Seq<char>)
    ensures
        fields::extended(list, Seq::empty()) == list,
        json::field(fields::extended(list, others.push(last)), last.0) == Some(last.1),
        key != last.0 ==> json::field(fields::extended(list, others.push(last)), key)
            == json::field(fields::extended(list, others), key),
{
    assert(others.push(last).drop_last() =~= others);
    json::lemma_with_field(fields::extended(list, others), last.0, last.1, key);
}

} // verus!
