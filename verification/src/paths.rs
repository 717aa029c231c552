//! Paths of files.
use crate::text::{chars, slice};
use vstd::prelude::*;

verus! {

/// The path `name` below `directory`.
pub open spec fn path(directory: Seq<char>, name: Seq<char>) -> Seq<char> {
    if directory.len() == 0 || directory.last() == '/' {
        directory + name
    } else {
        directory + "/"@ + name
    }
}

/// The path of the relative path `name` below `directory`.
pub fn below(directory: &str, name: &str) -> (result: String)
    ensures
        result@ == path(directory@, name@),
{
    let characters = chars(directory);
    if characters.len() == 0 || characters[characters.len() - 1] == '/' {
        directory.to_owned().concat(name)
    } else {
        directory.to_owned().concat("/").concat(name)
    }
}

/// Where the last `part` among the first `end` characters stands.
pub open spec fn last_place(text: Seq<char>, part: char, end: int) -> Option<int>
    decreases end,
{
    if end <= 0 {
        None
    } else if text[end - 1] == part {
        Some(end - 1)
    } else {
        last_place(text, part, end - 1)
    }
}

fn find_last(characters: &Vec<char>, part: char) -> (place: Option<usize>)
    ensures
        match place {
            Some(place) => place < characters@.len() && last_place(
                characters@,
                part,
                characters@.len() as int,
            ) == Some(place as int),
            None => last_place(characters@, part, characters@.len() as int) is None,
        },
{
    let mut end: usize = characters.len();
    while end > 0
        invariant
            end <= characters@.len(),
            last_place(characters@, part, characters@.len() as int) == last_place(
                characters@,
                part,
                end as int,
            ),
        decreases end,
    {
        if characters[end - 1] == part {
            return Some(end - 1);
        }
        end -= 1;
    }
    None
}

/// The name of the file at a path.
pub open spec fn file_of(path: Seq<char>) -> Seq<char> {
    match last_place(path, '/', path.len() as int) {
        Some(place) => path.subrange(place + 1, path.len() as int),
        None => path,
    }
}

/// The name of the file at a path.
pub fn file_name(path: &str) -> (name: String)
    ensures
        name@ == file_of(path@),
{
    let characters = chars(path);
    let end: usize = characters.len();
    match find_last(&characters, '/') {
        Some(place) => slice(&characters, place + 1, end),
        None => path.to_owned(),
    }
}

/// Where the ending of a file's name begins: at the last dot, unless the name begins with that.
pub open spec fn ending_place(name: Seq<char>) -> Option<int> {
    match last_place(name, '.', name.len() as int) {
        Some(place) => if place > 0 {
            Some(place)
        } else {
            None
        },
        None => None,
    }
}

/// The ending of a file's name.
pub open spec fn ending_of(name: Seq<char>) -> Option<Seq<char>> {
    match ending_place(name) {
        Some(place) => Some(name.subrange(place + 1, name.len() as int)),
        None => None,
    }
}

/// A file's name without its ending.
pub open spec fn stem_of(name: Seq<char>) -> Seq<char> {
    match ending_place(name) {
        Some(place) => name.subrange(0, place),
        None => name,
    }
}

/// The ending of a file's name.
pub fn ending(name: &str) -> (found: Option<String>)
    ensures
        crate::pieces::optional(found) == ending_of(name@),
{
    let characters = chars(name);
    let end: usize = characters.len();
    match find_last(&characters, '.') {
        Some(place) => if place > 0 {
            Some(slice(&characters, place + 1, end))
        } else {
            None
        },
        None => None,
    }
}

/// A file's name without its ending.
pub fn stem(name: &str) -> (rest: String)
    ensures
        rest@ == stem_of(name@),
{
    let characters = chars(name);
    match find_last(&characters, '.') {
        Some(place) => if place > 0 {
            slice(&characters, 0, place)
        } else {
            name.to_owned()
        },
        None => name.to_owned(),
    }
}

} // verus!
