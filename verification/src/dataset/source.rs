//! The statements of a Python source, read from the lines on which its tree is printed.
//!
//! Every node stands on lines of its own: a line that opens it and names its type, one or more
//! lines for each of its fields in their order, and a line that closes it. What is inside a node
//! stands further to the right than the node.
use crate::dataset::literal;
use crate::dataset::literal::unquote;
use crate::dataset::task;
use crate::dataset::tree;
use crate::dataset::tree::{
    views, Alias, AliasView, Kind, KindView, Statement, StatementView, Target, TargetView,
};
use crate::numeral;
use crate::numeral::parse_integer;
use crate::pieces;
use crate::pieces::split;
use crate::text;
use crate::text::{chars, find, leading_white, same, slice, starts_with};
use vstd::prelude::*;

verus! {

/// A line: how far to the right it stands, and what it says.
pub struct Line {
    pub depth: usize,
    pub text: String,
}

/// The model of a [`Line`].
#[verifier::ext_equal]
pub struct LineView {
    pub depth: int,
    pub text: Seq<char>,
}

impl View for Line {
    type V = LineView;

    open spec fn view(&self) -> LineView {
        LineView { depth: self.depth as int, text: self.text@ }
    }
}

/// The models of a row of lines.
pub open spec fn line_views(lines: Seq<Line>) -> Seq<LineView> {
    Seq::new(lines.len(), |i: int| lines[i]@)
}

/// A line of a printed tree.
pub open spec fn line_of(line: Seq<char>) -> LineView {
    LineView { depth: text::indent(line), text: text::trimmed_start(line) }
}

/// The lines of a printed tree.
pub open spec fn printed_lines(printed: Seq<char>) -> Seq<LineView> {
    let all = pieces::pieces(printed, '\n');
    Seq::new(all.len(), |i: int| line_of(all[i]))
}

/// What the line at `index` says: nothing where there is none.
pub open spec fn text_at(lines: Seq<LineView>, index: int) -> Seq<char> {
    if 0 <= index < lines.len() {
        lines[index].text
    } else {
        Seq::empty()
    }
}

/// The first line from `from` on that stands no further to the right than `depth`.
pub open spec fn closing(lines: Seq<LineView>, depth: int, from: int) -> int
    decreases lines.len() - from,
{
    if from >= lines.len() {
        lines.len() as int
    } else if lines[from].depth <= depth {
        from
    } else {
        closing(lines, depth, from + 1)
    }
}

/// The line that closes the node that is opened at `head`.
pub open spec fn end_of(lines: Seq<LineView>, head: int) -> int {
    closing(lines, lines[head].depth, head + 1)
}

/// Whether a line opens a node whose type's name begins with `prefix`.
pub open spec fn opens(line: Seq<char>, prefix: Seq<char>) -> bool {
    text::begins_with(line, prefix) && line.len() > 0 && line.last() == '{'
}

/// The outermost nodes between two lines whose types' names begin with `prefix`, in their order.
pub open spec fn nodes(lines: Seq<LineView>, prefix: Seq<char>, from: int, end: int) -> Seq<int>
    decreases end - from,
{
    if from < 0 || from >= end || from >= lines.len() {
        Seq::empty()
    } else if opens(lines[from].text, prefix) {
        seq![from] + if from < end_of(lines, from) < end {
            nodes(lines, prefix, end_of(lines, from), end)
        } else {
            Seq::empty()
        }
    } else {
        nodes(lines, prefix, from + 1, end)
    }
}

/// The name of a node: the field behind its range.
pub open spec fn name_at(lines: Seq<LineView>, head: int) -> Seq<char> {
    literal::unquoted(text_at(lines, head + 3))
}

/// Whether a name is read at a line.
pub open spec fn reads(lines: Seq<LineView>, head: int) -> bool {
    text_at(lines, head) == "ExprName {"@ && text_at(lines, head + 5) == "ctx: Load,"@
}

/// The names that are read between two lines.
pub open spec fn names_read(lines: Seq<LineView>, from: int, end: int) -> Seq<Seq<char>>
    decreases end - from,
{
    if end <= from {
        Seq::empty()
    } else if reads(lines, end - 1) {
        names_read(lines, from, end - 1).push(name_at(lines, end - 1))
    } else {
        names_read(lines, from, end - 1)
    }
}

/// The target of an assignment: a name, a tuple or a list, or something else.
pub open spec fn target_at(lines: Seq<LineView>, head: int) -> TargetView
    decreases lines.len() - head,
{
    let says = text_at(lines, head);
    if says == "ExprName {"@ {
        TargetView::Name(name_at(lines, head))
    } else if says == "ExprTuple {"@ || says == "ExprList {"@ {
        let inner = nodes(lines, "Expr"@, head + 1, end_of(lines, head));
        TargetView::Group(
            Seq::new(
                inner.len(),
                |i: int|
                    if 0 <= i < inner.len() && head < inner[i] < lines.len() {
                        target_at(lines, inner[i])
                    } else {
                        TargetView::Other
                    },
            ),
        )
    } else {
        TargetView::Other
    }
}

/// The targets that stand between two lines.
pub open spec fn targets_in(lines: Seq<LineView>, from: int, end: int) -> Seq<TargetView> {
    let found = nodes(lines, "Expr"@, from, end);
    Seq::new(found.len(), |i: int| target_at(lines, found[i]))
}

/// An imported name.
pub open spec fn alias_at(lines: Seq<LineView>, head: int) -> AliasView {
    AliasView {
        name: name_at(lines, head),
        renamed: if text_at(lines, head + 5) == "asname: Some("@ {
            Some(literal::unquoted(text_at(lines, head + 7)))
        } else {
            None
        },
    }
}

/// The imported names that stand between two lines.
pub open spec fn aliases_in(lines: Seq<LineView>, from: int, end: int) -> Seq<AliasView> {
    let found = nodes(lines, "Alias"@, from, end);
    Seq::new(found.len(), |i: int| alias_at(lines, found[i]))
}

/// The string that a class begins with, if its first statement is one.
pub open spec fn docstring_at(lines: Seq<LineView>, head: int) -> Option<Seq<char>> {
    let body = nodes(lines, "Stmt"@, head + 1, end_of(lines, head));
    if body.len() > 0 && text_at(lines, body[0]) == "StmtExpr {"@ && text_at(lines, body[0] + 2)
        == "value: Constant("@ && text_at(lines, body[0] + 5) == "value: Str("@ {
        Some(literal::unquoted(text_at(lines, body[0] + 6)))
    } else {
        None
    }
}

/// What a statement is.
pub open spec fn kind_at(lines: Seq<LineView>, head: int) -> KindView {
    let says = text_at(lines, head);
    if says == "StmtFunctionDef {"@ {
        KindView::Function(name_at(lines, head))
    } else if says == "StmtClassDef {"@ {
        KindView::Class(name_at(lines, head), docstring_at(lines, head))
    } else if says == "StmtImport {"@ || says == "StmtImportFrom {"@ {
        KindView::Import(aliases_in(lines, head + 1, end_of(lines, head)))
    } else if says == "StmtAssign {"@ && head + 2 < lines.len() {
        KindView::Assign(targets_in(lines, head + 3, end_of(lines, head + 2)))
    } else {
        KindView::Other
    }
}

/// The number that `digits` writes.
pub open spec fn number_of(digits: Seq<char>) -> int {
    match numeral::integer_of(digits) {
        Some(value) => value,
        None => 0,
    }
}

/// The bytes between which a node stands, from the line with its range.
pub open spec fn offsets(line: Seq<char>) -> (int, int) {
    match text::find_from(line, ".."@, 0) {
        Some(dots) => if 7 <= dots && dots + 3 <= line.len() {
            (number_of(line.subrange(7, dots)), number_of(line.subrange(dots + 2, line.len() - 1)))
        } else {
            (0, 0)
        },
        None => (0, 0),
    }
}

/// How many of the characters from `index` on fit into `left` bytes; those before are counted.
pub open spec fn place_of(code: Seq<char>, index: int, left: int) -> int
    decreases code.len() - index,
{
    if 0 <= index < code.len() {
        let width = vstd::utf8::encode_scalar(code[index] as u32).len() as int;
        if width <= left {
            place_of(code, index + 1, left - width)
        } else {
            index
        }
    } else {
        index
    }
}

/// The statement that is opened at `head`. It ends no earlier than it starts.
pub open spec fn statement_at(lines: Seq<LineView>, head: int, code: Seq<char>) -> StatementView
    decreases lines.len() - head,
{
    let inner = nodes(lines, "Stmt"@, head + 1, end_of(lines, head));
    let (first, last) = offsets(text_at(lines, head + 1));
    let start = place_of(code, 0, first);
    let end = place_of(code, 0, last);
    StatementView {
        kind: kind_at(lines, head),
        start,
        end: if end < start {
            start
        } else {
            end
        },
        loads: names_read(lines, head, end_of(lines, head)),
        children: Seq::new(
            inner.len(),
            |i: int|
                if 0 <= i < inner.len() && head < inner[i] < lines.len() {
                    statement_at(lines, inner[i], code)
                } else {
                    StatementView {
                        kind: KindView::Other,
                        start: 0,
                        end: 0,
                        loads: Seq::empty(),
                        children: Seq::empty(),
                    }
                },
        ),
    }
}

/// The statements of a source whose tree is printed on `lines`.
pub open spec fn statements_on(lines: Seq<LineView>, code: Seq<char>) -> Seq<StatementView> {
    let found = nodes(lines, "Stmt"@, 0, lines.len() as int);
    Seq::new(found.len(), |i: int| statement_at(lines, found[i], code))
}

/// The statements of the source `code` whose tree prints as `printed`.
pub open spec fn statements_of(printed: Seq<char>, code: Seq<char>) -> Seq<StatementView> {
    statements_on(printed_lines(printed), code)
}

/// Whether all of `list` lies between two lines.
spec fn all_between(list: Seq<int>, from: int, end: int) -> bool {
    forall|i: int| 0 <= i < list.len() ==> from <= #[trigger] list[i] < end
}

proof fn lemma_nodes(lines: Seq<LineView>, prefix: Seq<char>, from: int, end: int)
    requires
        end <= lines.len(),
    ensures
        all_between(nodes(lines, prefix, from, end), from, end),
    decreases end - from,
{
    if 0 <= from < end {
        let all = nodes(lines, prefix, from, end);
        if opens(lines[from].text, prefix) {
            let next = end_of(lines, from);
            if from < next < end {
                lemma_nodes(lines, prefix, next, end);
                let rest = nodes(lines, prefix, next, end);
                assert(all == seq![from] + rest);
                assert forall|i: int| 0 <= i < all.len() implies from <= #[trigger] all[i] < end by {
                    if i > 0 {
                        assert(all[i] == rest[i - 1]);
                    }
                }
            } else {
                assert(all == seq![from] + Seq::<int>::empty());
            }
        } else {
            lemma_nodes(lines, prefix, from + 1, end);
            assert(all == nodes(lines, prefix, from + 1, end));
        }
    }
}

proof fn lemma_end(lines: Seq<LineView>, depth: int, from: int)
    ensures
        closing(lines, depth, from) <= lines.len(),
    decreases lines.len() - from,
{
    if from < lines.len() && lines[from].depth > depth {
        lemma_end(lines, depth, from + 1);
    }
}

proof fn lemma_place(code: Seq<char>, index: int, left: int)
    requires
        0 <= index <= code.len(),
    ensures
        index <= place_of(code, index, left) <= code.len(),
    decreases code.len() - index,
{
    if index < code.len() {
        let width = vstd::utf8::encode_scalar(code[index] as u32).len() as int;
        if width <= left {
            lemma_place(code, index + 1, left - width);
        }
    }
}

proof fn lemma_all_placed(list: Seq<StatementView>, end: int, length: int)
    requires
        0 <= end <= list.len(),
        forall|i: int| 0 <= i < end ==> task::placed(#[trigger] list[i], length),
    ensures
        task::all_placed(list, end, length),
    decreases end,
{
    if end > 0 {
        lemma_all_placed(list, end - 1, length);
    }
}

proof fn lemma_statement_placed(lines: Seq<LineView>, head: int, code: Seq<char>)
    requires
        0 <= head < lines.len(),
    ensures
        task::placed(statement_at(lines, head, code), code.len() as int),
    decreases lines.len() - head,
{
    let statement = statement_at(lines, head, code);
    let inner = nodes(lines, "Stmt"@, head + 1, end_of(lines, head));
    let (first, last) = offsets(text_at(lines, head + 1));
    lemma_place(code, 0, first);
    lemma_place(code, 0, last);
    lemma_end(lines, lines[head].depth, head + 1);
    lemma_nodes(lines, "Stmt"@, head + 1, end_of(lines, head));
    assert forall|i: int| 0 <= i < inner.len() implies task::placed(
        #[trigger] statement.children[i],
        code.len() as int,
    ) by {
        lemma_statement_placed(lines, inner[i], code);
    }
    lemma_all_placed(statement.children, statement.children.len() as int, code.len() as int);
}

/// Every statement that is read lies within its source.
pub proof fn statements_are_placed(lines: Seq<LineView>, code: Seq<char>)
    ensures
        task::all_placed(
            statements_on(lines, code),
            statements_on(lines, code).len() as int,
            code.len() as int,
        ),
{
    let found = nodes(lines, "Stmt"@, 0, lines.len() as int);
    let list = statements_on(lines, code);
    lemma_nodes(lines, "Stmt"@, 0, lines.len() as int);
    assert forall|i: int| 0 <= i < list.len() implies task::placed(
        #[trigger] list[i],
        code.len() as int,
    ) by {
        lemma_statement_placed(lines, found[i], code);
    }
    lemma_all_placed(list, list.len() as int, code.len() as int);
}

/// The lines of a printed tree.
pub fn read_lines(printed: &str) -> (lines: Vec<Line>)
    ensures
        line_views(lines@) == printed_lines(printed@),
{
    let all = split(printed, '\n');
    let mut lines: Vec<Line> = Vec::new();
    let mut index: usize = 0;
    while index < all.len()
        invariant
            index <= all@.len(),
            lines@.len() == index,
            forall|i: int| 0 <= i < index ==> (#[trigger] lines@[i])@ == line_of(all@[i]@),
        decreases all@.len() - index,
    {
        let characters = chars(all[index].as_str());
        let depth: usize = leading_white(&characters);
        let line = Line { depth, text: slice(&characters, depth, characters.len()) };
        assert(line.text@ =~= characters@.skip(depth as int));
        lines.push(line);
        index += 1;
    }
    assert(line_views(lines@) =~= printed_lines(printed@)) by {
        assert(pieces::texts(all@) == pieces::pieces(printed@, '\n'));
    }
    lines
}

fn line_text(lines: &Vec<Line>, head: usize, count: usize) -> (text: &str)
    requires
        head < lines@.len(),
    ensures
        text@ == text_at(line_views(lines@), head + count),
{
    let end: usize = lines.len();
    if count < end - head {
        lines[head + count].text.as_str()
    } else {
        proof {
            reveal_strlit("");
        }
        assert(""@ =~= Seq::<char>::empty());
        ""
    }
}

fn find_end(lines: &Vec<Line>, head: usize) -> (end: usize)
    requires
        head < lines@.len(),
    ensures
        end == end_of(line_views(lines@), head as int),
        head < end <= lines@.len(),
{
    let depth: usize = lines[head].depth;
    let last: usize = lines.len();
    let mut index: usize = head + 1;
    while index < last && lines[index].depth > depth
        invariant
            head < index <= last,
            last == lines@.len(),
            depth == lines@[head as int].depth,
            closing(line_views(lines@), depth as int, index as int) == end_of(
                line_views(lines@),
                head as int,
            ),
        decreases last - index,
    {
        index += 1;
    }
    index
}

fn does_open(line: &Line, prefix: &str) -> (found: bool)
    ensures
        found == opens(line@.text, prefix@),
{
    let characters = chars(line.text.as_str());
    let count: usize = characters.len();
    count > 0 && characters[count - 1] == '{' && starts_with(line.text.as_str(), prefix)
}

spec fn places(list: Seq<usize>) -> Seq<int> {
    Seq::new(list.len(), |i: int| list[i] as int)
}

fn find_nodes(lines: &Vec<Line>, prefix: &str, from: usize, end: usize) -> (found: Vec<usize>)
    requires
        end <= lines@.len(),
    ensures
        places(found@) == nodes(line_views(lines@), prefix@, from as int, end as int),
        forall|i: int|
            0 <= i < found@.len() ==> from <= (#[trigger] found@[i]) < end,
{
    let mut found: Vec<usize> = Vec::new();
    let mut index: usize = from;
    let ghost all = nodes(line_views(lines@), prefix@, from as int, end as int);
    assert(places(found@) + all =~= all);
    while index < end
        invariant
            from <= index,
            end <= lines@.len(),
            all == nodes(line_views(lines@), prefix@, from as int, end as int),
            places(found@) + nodes(line_views(lines@), prefix@, index as int, end as int) == all,
        decreases end - index,
    {
        if does_open(&lines[index], prefix) {
            let reached = find_end(lines, index);
            let next = if reached < end {
                reached
            } else {
                end
            };
            let ghost rest = nodes(line_views(lines@), prefix@, next as int, end as int);
            let ghost before = found@;
            found.push(index);
            assert(places(found@) =~= places(before).push(index as int));
            assert(places(before).push(index as int) + rest =~= places(before) + (seq![
                index as int,
            ] + rest));
            index = next;
        } else {
            index += 1;
        }
    }
    assert(places(found@) =~= all);
    proof {
        lemma_nodes(line_views(lines@), prefix@, from as int, end as int);
        assert forall|i: int| 0 <= i < found@.len() implies from <= (#[trigger] found@[i])
            < end by {
            assert(places(found@)[i] == found@[i]);
        }
    }
    found
}

fn read_name(lines: &Vec<Line>, head: usize) -> (name: String)
    requires
        head < lines@.len(),
    ensures
        name@ == name_at(line_views(lines@), head as int),
{
    unquote(line_text(lines, head, 3))
}

/// The names that are read between two lines.
pub fn read_names(lines: &Vec<Line>, from: usize, end: usize) -> (names: Vec<String>)
    requires
        from <= end <= lines@.len(),
    ensures
        pieces::texts(names@) == names_read(line_views(lines@), from as int, end as int),
{
    let mut names: Vec<String> = Vec::new();
    let mut index: usize = from;
    assert(pieces::texts(names@) =~= Seq::empty());
    while index < end
        invariant
            from <= index <= end <= lines@.len(),
            pieces::texts(names@) == names_read(line_views(lines@), from as int, index as int),
        decreases end - index,
    {
        if same(line_text(lines, index, 0), "ExprName {") && same(
            line_text(lines, index, 5),
            "ctx: Load,",
        ) {
            let name = read_name(lines, index);
            proof {
                pieces::lemma_texts_push(names@, name);
            }
            names.push(name);
        }
        index += 1;
    }
    names
}

fn read_target(lines: &Vec<Line>, head: usize) -> (target: Target)
    requires
        head < lines@.len(),
    ensures
        target@ == target_at(line_views(lines@), head as int),
    decreases lines@.len() - head,
{
    let says = line_text(lines, head, 0);
    if same(says, "ExprName {") {
        return Target::Name(read_name(lines, head));
    }
    if !same(says, "ExprTuple {") && !same(says, "ExprList {") {
        return Target::Other;
    }
    let end = find_end(lines, head);
    let inner = find_nodes(lines, "Expr", head + 1, end);
    let mut list: Vec<Target> = Vec::new();
    let mut index: usize = 0;
    while index < inner.len()
        invariant
            head < lines@.len(),
            end <= lines@.len(),
            index <= inner@.len(),
            forall|i: int| 0 <= i < inner@.len() ==> head < (#[trigger] inner@[i]) < end,
            list@.len() == index,
            forall|i: int|
                0 <= i < index ==> (#[trigger] list@[i])@ == target_at(
                    line_views(lines@),
                    inner@[i] as int,
                ),
        decreases inner@.len() - index,
    {
        list.push(read_target(lines, inner[index]));
        index += 1;
    }
    proof {
        tree::lemma_group(list);
        let found = nodes(line_views(lines@), "Expr"@, head + 1, end as int);
        assert forall|i: int| 0 <= i < inner@.len() implies #[trigger] found[i] == inner@[i] by {
            assert(places(inner@)[i] == inner@[i]);
        }
        assert(tree::targets(list@) =~= target_at(line_views(lines@), head as int)->Group_0);
    }
    Target::Group(list)
}

fn read_targets(lines: &Vec<Line>, from: usize, end: usize) -> (list: Vec<Target>)
    requires
        end <= lines@.len(),
    ensures
        tree::targets(list@) == targets_in(line_views(lines@), from as int, end as int),
{
    let found = find_nodes(lines, "Expr", from, end);
    let mut list: Vec<Target> = Vec::new();
    let mut index: usize = 0;
    while index < found.len()
        invariant
            end <= lines@.len(),
            index <= found@.len(),
            forall|i: int| 0 <= i < found@.len() ==> from <= (#[trigger] found@[i]) < end,
            list@.len() == index,
            forall|i: int|
                0 <= i < index ==> (#[trigger] list@[i])@ == target_at(
                    line_views(lines@),
                    found@[i] as int,
                ),
        decreases found@.len() - index,
    {
        list.push(read_target(lines, found[index]));
        index += 1;
    }
    proof {
        let all = nodes(line_views(lines@), "Expr"@, from as int, end as int);
        assert forall|i: int| 0 <= i < found@.len() implies #[trigger] all[i] == found@[i] by {
            assert(places(found@)[i] == found@[i]);
        }
        assert(tree::targets(list@) =~= targets_in(line_views(lines@), from as int, end as int));
    }
    list
}

fn read_alias(lines: &Vec<Line>, head: usize) -> (alias: Alias)
    requires
        head < lines@.len(),
    ensures
        alias@ == alias_at(line_views(lines@), head as int),
{
    let renamed = if same(line_text(lines, head, 5), "asname: Some(") {
        Some(unquote(line_text(lines, head, 7)))
    } else {
        None
    };
    Alias { name: read_name(lines, head), renamed }
}

fn read_aliases(lines: &Vec<Line>, from: usize, end: usize) -> (list: Vec<Alias>)
    requires
        end <= lines@.len(),
    ensures
        tree::aliases(list@) == aliases_in(line_views(lines@), from as int, end as int),
{
    let found = find_nodes(lines, "Alias", from, end);
    let mut list: Vec<Alias> = Vec::new();
    let mut index: usize = 0;
    while index < found.len()
        invariant
            end <= lines@.len(),
            index <= found@.len(),
            forall|i: int| 0 <= i < found@.len() ==> from <= (#[trigger] found@[i]) < end,
            list@.len() == index,
            forall|i: int|
                0 <= i < index ==> (#[trigger] list@[i])@ == alias_at(
                    line_views(lines@),
                    found@[i] as int,
                ),
        decreases found@.len() - index,
    {
        list.push(read_alias(lines, found[index]));
        index += 1;
    }
    proof {
        let all = nodes(line_views(lines@), "Alias"@, from as int, end as int);
        assert forall|i: int| 0 <= i < found@.len() implies #[trigger] all[i] == found@[i] by {
            assert(places(found@)[i] == found@[i]);
        }
        assert(tree::aliases(list@) =~= aliases_in(line_views(lines@), from as int, end as int));
    }
    list
}

fn read_docstring(lines: &Vec<Line>, head: usize) -> (docstring: Option<String>)
    requires
        head < lines@.len(),
    ensures
        pieces::optional(docstring) == docstring_at(line_views(lines@), head as int),
{
    let end = find_end(lines, head);
    let body = find_nodes(lines, "Stmt", head + 1, end);
    if body.len() == 0 {
        return None;
    }
    assert(places(body@)[0] == body@[0]);
    let first = body[0];
    if same(line_text(lines, first, 0), "StmtExpr {") && same(
        line_text(lines, first, 2),
        "value: Constant(",
    ) && same(line_text(lines, first, 5), "value: Str(") {
        Some(unquote(line_text(lines, first, 6)))
    } else {
        None
    }
}

fn read_kind(lines: &Vec<Line>, head: usize) -> (kind: Kind)
    requires
        head < lines@.len(),
    ensures
        kind@ == kind_at(line_views(lines@), head as int),
{
    let says = line_text(lines, head, 0);
    let last: usize = lines.len();
    if same(says, "StmtFunctionDef {") {
        Kind::Function(read_name(lines, head))
    } else if same(says, "StmtClassDef {") {
        Kind::Class(read_name(lines, head), read_docstring(lines, head))
    } else if same(says, "StmtImport {") || same(says, "StmtImportFrom {") {
        Kind::Import(read_aliases(lines, head + 1, find_end(lines, head)))
    } else if same(says, "StmtAssign {") && last - head > 2 {
        Kind::Assign(read_targets(lines, head + 3, find_end(lines, head + 2)))
    } else {
        Kind::Other
    }
}

fn read_number(characters: &Vec<char>, from: usize, end: usize) -> (value: i128)
    requires
        from <= end <= characters@.len(),
    ensures
        value == number_of(characters@.subrange(from as int, end as int)),
        i64::MIN <= value <= u64::MAX,
{
    match parse_integer(slice(characters, from, end).as_str()) {
        Some(value) => value,
        None => 0,
    }
}

fn read_offsets(line: &str) -> (found: (i128, i128))
    ensures
        (found.0 as int, found.1 as int) == offsets(line@),
        i64::MIN <= found.0 <= u64::MAX,
        i64::MIN <= found.1 <= u64::MAX,
{
    let characters = chars(line);
    let end: usize = characters.len();
    let dots = chars("..");
    proof {
        reveal_strlit("..");
    }
    match find(&characters, &dots, 0) {
        Some(place) => if 7 <= place && end - place >= 3 {
            (
                read_number(&characters, 7, place),
                read_number(&characters, place + 2, end - 1),
            )
        } else {
            (0, 0)
        },
        None => (0, 0),
    }
}

/// The place of the character that begins behind `offset` bytes.
pub fn find_place(code: &Vec<char>, offset: i128) -> (place: usize)
    requires
        i64::MIN <= offset <= u64::MAX,
    ensures
        place == place_of(code@, 0, offset as int),
        place <= code@.len(),
{
    let mut left: i128 = offset;
    let mut index: usize = 0;
    while index < code.len()
        invariant
            index <= code@.len(),
            i64::MIN <= left <= u64::MAX,
            place_of(code@, index as int, left as int) == place_of(code@, 0, offset as int),
        decreases code@.len() - index,
    {
        let scalar: u32 = code[index] as u32;
        proof {
            vstd::utf8::char_is_scalar(code@[index as int]);
        }
        let width: i128 = if scalar < 0x80 {
            1
        } else if scalar < 0x800 {
            2
        } else if scalar < 0x10000 {
            3
        } else {
            4
        };
        assert(width == vstd::utf8::encode_scalar(scalar).len());
        if width > left {
            return index;
        }
        left = left - width;
        index += 1;
    }
    index
}

fn read_statement(lines: &Vec<Line>, head: usize, code: &Vec<char>) -> (statement: Statement)
    requires
        head < lines@.len(),
    ensures
        statement@ == statement_at(line_views(lines@), head as int, code@),
    decreases lines@.len() - head,
{
    let end = find_end(lines, head);
    let inner = find_nodes(lines, "Stmt", head + 1, end);
    let mut children: Vec<Statement> = Vec::new();
    let mut index: usize = 0;
    while index < inner.len()
        invariant
            head < lines@.len(),
            end <= lines@.len(),
            index <= inner@.len(),
            forall|i: int| 0 <= i < inner@.len() ==> head < (#[trigger] inner@[i]) < end,
            children@.len() == index,
            forall|i: int|
                0 <= i < index ==> (#[trigger] children@[i])@ == statement_at(
                    line_views(lines@),
                    inner@[i] as int,
                    code@,
                ),
        decreases inner@.len() - index,
    {
        children.push(read_statement(lines, inner[index], code));
        index += 1;
    }
    let (first, last) = read_offsets(line_text(lines, head, 1));
    let start = find_place(code, first);
    let reached = find_place(code, last);
    let statement = Statement {
        kind: read_kind(lines, head),
        start,
        end: if reached < start {
            start
        } else {
            reached
        },
        loads: read_names(lines, head, end),
        children,
    };
    proof {
        tree::lemma_children(statement);
        let found = nodes(line_views(lines@), "Stmt"@, head + 1, end as int);
        assert forall|i: int| 0 <= i < inner@.len() implies #[trigger] found[i] == inner@[i] by {
            assert(places(inner@)[i] == inner@[i]);
        }
        let read = statement_at(line_views(lines@), head as int, code@);
        assert(statement@.children =~= read.children);
        assert(statement@.kind == read.kind);
        assert(statement@.loads == read.loads);
        assert(statement@ =~= read);
    }
    statement
}

/// The statements of the source `code` whose tree prints as `printed`.
pub fn read_statements(printed: &str, code: &str) -> (list: Vec<Statement>)
    ensures
        views(list@) == statements_of(printed@, code@),
        task::all_placed(views(list@), list@.len() as int, code@.len() as int),
{
    let lines = read_lines(printed);
    let characters = chars(code);
    let found = find_nodes(&lines, "Stmt", 0, lines.len());
    let mut list: Vec<Statement> = Vec::new();
    let mut index: usize = 0;
    while index < found.len()
        invariant
            index <= found@.len(),
            forall|i: int| 0 <= i < found@.len() ==> (#[trigger] found@[i]) < lines@.len(),
            list@.len() == index,
            forall|i: int|
                0 <= i < index ==> (#[trigger] list@[i])@ == statement_at(
                    line_views(lines@),
                    found@[i] as int,
                    characters@,
                ),
        decreases found@.len() - index,
    {
        list.push(read_statement(&lines, found[index], &characters));
        index += 1;
    }
    proof {
        let all = nodes(line_views(lines@), "Stmt"@, 0, lines@.len() as int);
        assert forall|i: int| 0 <= i < found@.len() implies #[trigger] all[i] == found@[i] by {
            assert(places(found@)[i] == found@[i]);
        }
        assert(views(list@) =~= statements_of(printed@, code@));
        statements_are_placed(printed_lines(printed@), code@);
    }
    list
}

} // verus!
