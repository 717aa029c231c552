//! Documentation strings without their indentation.
use crate::pieces;
use crate::pieces::{join, split};
use crate::text;
use crate::text::{chars, leading_white, slice, trim_start};
use vstd::prelude::*;

verus! {

/// `count` spaces.
pub open spec fn spaces(count: int) -> Seq<char> {
    Seq::new(count as nat, |i: int| ' ')
}

/// `value` from `from` on with tabs filled up to columns of eight, where `column` is the column
/// before.
pub open spec fn expanded(value: Seq<char>, from: int, column: int) -> Seq<char>
    decreases value.len() - from,
{
    if from < 0 || from >= value.len() {
        Seq::empty()
    } else if value[from] == '\t' {
        let count = 8 - column % 8;
        spaces(count) + expanded(value, from + 1, column + count)
    } else {
        seq![value[from]] + expanded(
            value,
            from + 1,
            if value[from] == '\n' || value[from] == '\r' {
                0
            } else {
                column + 1
            },
        )
    }
}

/// The smallest indentation of the lines from the second up to `end` that say something.
pub open spec fn margin(lines: Seq<Seq<char>>, end: int) -> Option<int>
    decreases end,
{
    if end <= 1 {
        None
    } else {
        let before = margin(lines, end - 1);
        let line = lines[end - 1];
        if text::trimmed_start(line).len() == 0 {
            before
        } else {
            match before {
                Some(least) => if text::indent(line) < least {
                    Some(text::indent(line))
                } else {
                    before
                },
                None => Some(text::indent(line)),
            }
        }
    }
}

/// A line without its first `count` characters.
pub open spec fn cut(line: Seq<char>, count: int) -> Seq<char> {
    if line.len() < count {
        Seq::empty()
    } else {
        line.skip(count)
    }
}

/// The lines without the margin, the first without any white space before it.
pub open spec fn dedented(lines: Seq<Seq<char>>) -> Seq<Seq<char>> {
    Seq::new(
        lines.len(),
        |i: int|
            if i == 0 {
                text::trimmed_start(lines[0])
            } else {
                match margin(lines, lines.len() as int) {
                    Some(least) => cut(lines[i], least),
                    None => lines[i],
                }
            },
    )
}

/// The lines without the empty ones at the end.
pub open spec fn without_tail(lines: Seq<Seq<char>>) -> Seq<Seq<char>>
    decreases lines.len(),
{
    if lines.len() > 0 && lines.last().len() == 0 {
        without_tail(lines.drop_last())
    } else {
        lines
    }
}

/// The lines without the empty ones at the beginning.
pub open spec fn without_head(lines: Seq<Seq<char>>) -> Seq<Seq<char>>
    decreases lines.len(),
{
    if lines.len() > 0 && lines[0].len() == 0 {
        without_head(lines.skip(1))
    } else {
        lines
    }
}

/// A documentation string with its tabs filled up, without the indentation that its lines share
/// and without empty lines around it.
pub open spec fn cleaned(value: Seq<char>) -> Seq<char> {
    pieces::joined(
        without_head(without_tail(dedented(pieces::pieces(expanded(value, 0, 0), '\n')))),
        "\n"@,
    )
}

fn expand(value: &str) -> (result: String)
    ensures
        result@ == expanded(value@, 0, 0),
{
    let characters = chars(value);
    let mut result = String::new();
    let mut column: usize = 0;
    let mut index: usize = 0;
    let ghost mut total: int = 0;
    assert(result@ + expanded(value@, 0, 0) =~= expanded(value@, 0, 0));
    while index < characters.len()
        invariant
            index <= characters@.len(),
            characters@ == value@,
            column < 8,
            total >= 0,
            column == total % 8,
            result@ + expanded(value@, index as int, total) == expanded(value@, 0, 0),
        decreases characters@.len() - index,
    {
        let character = characters[index];
        let ghost before = result@;
        let ghost was = total;
        if character == '\t' {
            let count: usize = 8 - column;
            let mut written: usize = 0;
            assert(result@ =~= before + spaces(0));
            while written < count
                invariant
                    written <= count,
                    result@ == before + spaces(written as int),
                decreases count - written,
            {
                result.push(' ');
                written += 1;
                assert(result@ =~= before + spaces(written as int));
            }
            column = 0;
            proof {
                total = total + count;
                assert(result@ + expanded(value@, index + 1, total) =~= before + (spaces(
                    count as int,
                ) + expanded(value@, index + 1, total)));
            }
        } else {
            result.push(character);
            if character == '\n' || character == '\r' {
                column = 0;
                proof {
                    total = 0;
                }
            } else {
                column = if column == 7 {
                    0
                } else {
                    column + 1
                };
                proof {
                    total = total + 1;
                }
            }
            assert(result@ + expanded(value@, index + 1, total) =~= before + (seq![character]
                + expanded(value@, index + 1, total)));
        }
        index += 1;
    }
    assert(result@ + Seq::<char>::empty() =~= result@);
    result
}

fn find_margin(lines: &Vec<String>) -> (least: Option<usize>)
    ensures
        match least {
            Some(least) => margin(pieces::texts(lines@), lines@.len() as int) == Some(
                least as int,
            ),
            None => margin(pieces::texts(lines@), lines@.len() as int) is None,
        },
{
    let ghost all = pieces::texts(lines@);
    let mut least: Option<usize> = None;
    let mut index: usize = 1;
    while index < lines.len()
        invariant
            1 <= index,
            index <= lines@.len() || index == 1,
            all == pieces::texts(lines@),
            match least {
                Some(least) => margin(all, index as int) == Some(least as int),
                None => margin(all, index as int) is None,
            },
        decreases lines@.len() - index,
    {
        assert(all[index as int] == lines@[index as int]@);
        let characters = chars(lines[index].as_str());
        let white = leading_white(&characters);
        if white < characters.len() {
            least =
            match least {
                Some(before) => if white < before {
                    Some(white)
                } else {
                    Some(before)
                },
                None => Some(white),
            };
        }
        index += 1;
    }
    least
}

fn cut_line(line: &str, count: usize) -> (rest: String)
    ensures
        rest@ == cut(line@, count as int),
{
    let characters = chars(line);
    if characters.len() < count {
        let empty = String::new();
        assert(empty@ =~= Seq::<char>::empty());
        empty
    } else {
        let rest = slice(&characters, count, characters.len());
        assert(rest@ =~= line@.skip(count as int));
        rest
    }
}

fn dedent(lines: &Vec<String>) -> (list: Vec<String>)
    ensures
        pieces::texts(list@) == dedented(pieces::texts(lines@)),
{
    let ghost all = pieces::texts(lines@);
    let ghost wanted = dedented(all);
    let least = find_margin(lines);
    let mut list: Vec<String> = Vec::new();
    let mut index: usize = 0;
    while index < lines.len()
        invariant
            index <= lines@.len(),
            all == pieces::texts(lines@),
            wanted == dedented(all),
            match least {
                Some(least) => margin(all, all.len() as int) == Some(least as int),
                None => margin(all, all.len() as int) is None,
            },
            list@.len() == index,
            forall|i: int| 0 <= i < index ==> (#[trigger] list@[i])@ == wanted[i],
        decreases lines@.len() - index,
    {
        assert(all[index as int] == lines@[index as int]@);
        let line = if index == 0 {
            trim_start(lines[index].as_str())
        } else {
            match least {
                Some(least) => cut_line(lines[index].as_str(), least),
                None => lines[index].clone(),
            }
        };
        list.push(line);
        index += 1;
    }
    assert(pieces::texts(list@) =~= wanted);
    list
}

/// Drops the empty lines at the end.
fn drop_tail(lines: &mut Vec<String>)
    ensures
        pieces::texts(final(lines)@) == without_tail(pieces::texts(old(lines)@)),
{
    let ghost start = pieces::texts(lines@);
    loop
        invariant_except_break
            start == pieces::texts(old(lines)@),
            without_tail(start) == without_tail(pieces::texts(lines@)),
        ensures
            pieces::texts(lines@) == without_tail(start),
        decreases lines@.len(),
    {
        let ghost shown = pieces::texts(lines@);
        if lines.len() == 0 || !lines[lines.len() - 1].as_str().is_empty() {
            break;
        }
        let _ = lines.pop();
        assert(pieces::texts(lines@) =~= shown.drop_last());
    }
}

/// A documentation string with its tabs filled up, without the indentation that its lines share
/// and without empty lines around it.
pub fn clean_docstring(value: &str) -> (result: String)
    ensures
        result@ == cleaned(value@),
{
    let mut lines = dedent(&split(expand(value).as_str(), '\n'));
    drop_tail(&mut lines);
    let ghost all = pieces::texts(lines@);
    let mut start: usize = 0;
    assert(all.skip(0) =~= all);
    while start < lines.len() && lines[start].as_str().is_empty()
        invariant
            start <= lines@.len(),
            all == pieces::texts(lines@),
            without_head(all) == without_head(all.skip(start as int)),
        decreases lines@.len() - start,
    {
        assert(all.skip(start as int).skip(1) =~= all.skip(start + 1));
        start += 1;
    }
    let mut rest: Vec<String> = Vec::new();
    let mut index: usize = start;
    while index < lines.len()
        invariant
            start <= index <= lines@.len(),
            all == pieces::texts(lines@),
            rest@.len() == index - start,
            forall|i: int| 0 <= i < rest@.len() ==> (#[trigger] rest@[i])@ == all[start + i],
        decreases lines@.len() - index,
    {
        rest.push(lines[index].clone());
        index += 1;
    }
    assert(pieces::texts(rest@) =~= all.skip(start as int));
    join(&rest, "\n")
}

/// What is cleaned neither begins nor ends with an empty line.
pub proof fn cleaned_lines_say_something(value: Seq<char>)
    ensures
        ({
            let lines = without_head(
                without_tail(dedented(pieces::pieces(expanded(value, 0, 0), '\n'))),
            );
            lines.len() > 0 ==> lines[0].len() > 0 && lines.last().len() > 0
        }),
{
    let lines = without_tail(dedented(pieces::pieces(expanded(value, 0, 0), '\n')));
    lemma_without_tail(dedented(pieces::pieces(expanded(value, 0, 0), '\n')));
    lemma_without_head(lines);
}

proof fn lemma_without_tail(lines: Seq<Seq<char>>)
    ensures
        without_tail(lines).len() > 0 ==> without_tail(lines).last().len() > 0,
    decreases lines.len(),
{
    if lines.len() > 0 && lines.last().len() == 0 {
        lemma_without_tail(lines.drop_last());
    }
}

proof fn lemma_without_head(lines: Seq<Seq<char>>)
    ensures
        without_head(lines).len() > 0 ==> without_head(lines)[0].len() > 0,
        without_head(lines).len() > 0 ==> without_head(lines).last() == lines.last(),
    decreases lines.len(),
{
    if lines.len() > 0 && lines[0].len() == 0 {
        lemma_without_head(lines.skip(1));
    }
}

} // verus!
