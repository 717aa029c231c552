//! What other crates compute: Python trees, regular expressions, tables, digests, quoted strings,
//! letter case.
use crate::pieces;
use sha2::Digest;
use vstd::prelude::*;

verus! {

/// What [`std::str::Utf8Error`] says of bytes that are no UTF-8.
pub uninterp spec fn utf8_trouble(bytes: Seq<u8>) -> Seq<char>;

/// Calls [`std::str::from_utf8`]. The contract claims that it gives the text that the bytes are the
/// UTF-8 form of, where they are one, and otherwise an error whose text depends on the bytes alone.
#[verifier::external_body]
pub(crate) fn decode(bytes: &[u8]) -> (result: Result<String, String>)
    ensures
        match result {
            Ok(text) => vstd::utf8::valid_utf8(bytes@) && text@ == vstd::utf8::decode_utf8(bytes@),
            Err(error) => !vstd::utf8::valid_utf8(bytes@) && error@ == utf8_trouble(bytes@),
        },
{
    match std::str::from_utf8(bytes) {
        Ok(text) => Ok(text.to_owned()),
        Err(error) => Err(error.to_string()),
    }
}

/// The tree that [`rustpython_parser::Parse::parse`] makes of the Python source `code`, in the form
/// in which [`rustpython_ast::Suite`] prints itself over lines, or why `code` is no Python.
pub uninterp spec fn python_tree(code: Seq<char>, path: Seq<char>) -> Result<Seq<char>, Seq<char>>;

/// Calls [`rustpython_parser::Parse::parse`] for a [`rustpython_ast::Suite`] and prints the tree
/// with its alternate `Debug` form, which holds every field of every node. The contract claims that
/// what is printed, or the error's text, depends on the source and the path alone; it says nothing
/// of which tree a source has. The parser counts bytes in 32 bits.
#[verifier::external_body]
pub(crate) fn read_python(code: &str, path: &str) -> (result: Result<String, String>)
    requires
        vstd::utf8::encode_utf8(code@).len() <= u32::MAX,
    ensures
        pieces::told(result) == python_tree(code@, path@),
{
    match <rustpython_ast::Suite as rustpython_parser::Parse>::parse(code, path) {
        Ok(tree) => Ok(format!("{tree:#?}")),
        Err(error) => Err(error.to_string()),
    }
}

/// What [`regex::Regex::find_iter`] finds: the matches of `pattern` in `text`, from the left and
/// without overlap, or why `pattern` is no regular expression.
pub uninterp spec fn regex_finds(pattern: Seq<char>, text: Seq<char>) -> Result<
    Seq<Seq<char>>,
    Seq<char>,
>;

/// The model of a list of texts, or of the reason why there is none.
pub open spec fn listed(result: Result<Vec<String>, String>) -> Result<Seq<Seq<char>>, Seq<char>> {
    match result {
        Ok(list) => Ok(pieces::texts(list@)),
        Err(error) => Err(error@),
    }
}

/// Calls [`regex::Regex::new`] and [`regex::Regex::find_iter`]. The contract claims that the
/// matches, or the error's text, depend on the pattern and the text alone.
#[verifier::external_body]
pub(crate) fn finds(pattern: &str, text: &str) -> (result: Result<Vec<String>, String>)
    ensures
        listed(result) == regex_finds(pattern@, text@),
{
    match regex::Regex::new(pattern) {
        Ok(regex) => Ok(regex.find_iter(text).map(|found| found.as_str().to_owned()).collect()),
        Err(error) => Err(error.to_string()),
    }
}

/// What the first group of each match takes in, by [`regex::Regex::captures_iter`], or why
/// `pattern` is no regular expression.
pub uninterp spec fn regex_groups(pattern: Seq<char>, text: Seq<char>) -> Result<
    Seq<Option<Seq<char>>>,
    Seq<char>,
>;

/// The model of a list of groups, or of the reason why there is none.
pub open spec fn grouped(result: Result<Vec<Option<String>>, String>) -> Result<
    Seq<Option<Seq<char>>>,
    Seq<char>,
> {
    match result {
        Ok(list) => Ok(Seq::new(list@.len(), |i: int| pieces::optional(list@[i]))),
        Err(error) => Err(error@),
    }
}

/// Calls [`regex::Regex::new`] and [`regex::Regex::captures_iter`]. The contract claims that the
/// first groups, or the error's text, depend on the pattern and the text alone.
#[verifier::external_body]
pub(crate) fn groups(pattern: &str, text: &str) -> (result: Result<Vec<Option<String>>, String>)
    ensures
        grouped(result) == regex_groups(pattern@, text@),
{
    match regex::Regex::new(pattern) {
        Ok(regex) => Ok(
            regex.captures_iter(text).map(
                |found| found.get(1).map(|group| group.as_str().to_owned()),
            ).collect(),
        ),
        Err(error) => Err(error.to_string()),
    }
}

/// What [`regex::Regex::replace_all`] makes of `text`, or why `pattern` is no regular expression.
pub uninterp spec fn regex_replaced(pattern: Seq<char>, text: Seq<char>, with: Seq<char>) -> Result<
    Seq<char>,
    Seq<char>,
>;

/// Calls [`regex::Regex::new`] and [`regex::Regex::replace_all`]. The contract claims that the
/// result, or the error's text, depends on the pattern, the text and the replacement alone.
#[verifier::external_body]
pub(crate) fn replace_matches(pattern: &str, text: &str, with: &str) -> (result: Result<
    String,
    String,
>)
    ensures
        match result {
            Ok(made) => regex_replaced(pattern@, text@, with@) == Ok::<Seq<char>, Seq<char>>(made@),
            Err(error) => regex_replaced(pattern@, text@, with@) == Err::<Seq<char>, Seq<char>>(
                error@,
            ),
        },
{
    match regex::Regex::new(pattern) {
        Ok(regex) => Ok(regex.replace_all(text, with).into_owned()),
        Err(error) => Err(error.to_string()),
    }
}

/// A table: its heads, and its rows unless one cannot be read.
pub struct Table {
    pub headers: Vec<String>,
    pub rows: Option<Vec<Vec<String>>>,
}

/// The model of a [`Table`].
pub struct TableView {
    pub headers: Seq<Seq<char>>,
    pub rows: Option<Seq<Seq<Seq<char>>>>,
}

/// The texts that rows of strings hold.
pub open spec fn rows_view(rows: Seq<Vec<String>>) -> Seq<Seq<Seq<char>>> {
    Seq::new(rows.len(), |i: int| pieces::texts(rows[i]@))
}

impl View for Table {
    type V = TableView;

    open spec fn view(&self) -> TableView {
        TableView {
            headers: pieces::texts(self.headers@),
            rows: match self.rows {
                Some(rows) => Some(rows_view(rows@)),
                None => None,
            },
        }
    }
}

/// The table that a [`csv::Reader`] reads from `text`, with rows of any length.
pub uninterp spec fn csv_table(text: Seq<char>) -> Option<TableView>;

/// Reads a table with a flexible [`csv::Reader`]: its `headers`, then all its `records`. The
/// contract claims that what is read depends on the text alone.
#[verifier::external_body]
pub(crate) fn read_table(text: &str) -> (table: Option<Table>)
    ensures
        match table {
            Some(table) => csv_table(text@) == Some(table@),
            None => csv_table(text@) is None,
        },
{
    let mut reader = csv::ReaderBuilder::new().flexible(true).from_reader(text.as_bytes());
    let headers = reader.headers().ok()?.iter().map(str::to_owned).collect();
    let rows = reader.records().map(
        |row| row.map(|row| row.iter().map(str::to_owned).collect()),
    ).collect::<Result<Vec<Vec<String>>, csv::Error>>();
    Some(Table { headers, rows: rows.ok() })
}

/// The SHA-256 digest of `bytes` in lower-case hexadecimal digits, as [`sha2::Sha256`] computes it.
pub uninterp spec fn sha256(bytes: Seq<u8>) -> Seq<char>;

/// Calls [`sha2::Sha256`]'s `digest` and writes it in lower-case hexadecimal digits. The contract
/// claims that the digest depends on the bytes alone.
#[verifier::external_body]
pub(crate) fn digest(bytes: &[u8]) -> (digits: String)
    ensures
        digits@ == sha256(bytes@),
{
    format!("{:x}", sha2::Sha256::digest(bytes))
}

/// The string `text` as [`serde_json`] writes it in a document, quotation marks included.
pub uninterp spec fn quoted(text: Seq<char>) -> Seq<char>;

/// Writes a [`serde_json::Value`] that is a string. The contract claims that what is written
/// depends on the text alone.
#[verifier::external_body]
pub(crate) fn quote(text: &str) -> (written: String)
    ensures
        written@ == quoted(text@),
{
    serde_json::Value::String(text.to_owned()).to_string()
}

/// `text` in capital letters, as [`str::to_uppercase`] gives it.
pub uninterp spec fn uppercase(text: Seq<char>) -> Seq<char>;

/// Calls [`str::to_uppercase`]. The contract claims that the result depends on the text alone.
#[verifier::external_body]
pub(crate) fn to_upper(text: &str) -> (result: String)
    ensures
        result@ == uppercase(text@),
{
    text.to_uppercase()
}

/// A letter as a capital, as [`char::to_uppercase`] gives it.
pub uninterp spec fn capital(letter: char) -> Seq<char>;

/// Calls [`char::to_uppercase`]. The contract claims that the result depends on the letter alone.
#[verifier::external_body]
pub(crate) fn to_capital(letter: char) -> (result: String)
    ensures
        result@ == capital(letter),
{
    letter.to_uppercase().to_string()
}

/// `text` in small letters, as [`str::to_lowercase`] gives it.
pub uninterp spec fn lowercase(text: Seq<char>) -> Seq<char>;

/// Calls [`str::to_lowercase`]. The contract claims that the result depends on the text alone.
#[verifier::external_body]
pub(crate) fn to_lower(text: &str) -> (result: String)
    ensures
        result@ == lowercase(text@),
{
    text.to_lowercase()
}

} // verus!
