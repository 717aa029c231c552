//! How the printed tree of a source is read.
use crate::dataset::literal;
use crate::dataset::source;
use crate::dataset::source::LineView;
use crate::dataset::tree;
use crate::dataset::tree::{KindView, StatementView, TargetView};
use vstd::prelude::*;

verus! {

/// What a line of the tree says, without the white space before it.
pub open spec fn says(lines: Seq<LineView>, index: int, what: Seq<char>) -> bool {
    0 <= index < lines.len() && lines[index].text == what
}

proof fn lemma_closing(lines: Seq<LineView>, depth: int, from: int)
    requires
        0 <= from <= lines.len(),
    ensures
        ({
            let end = source::closing(lines, depth, from);
            &&& from <= end <= lines.len()
            &&& end < lines.len() ==> lines[end].depth <= depth
            &&& forall|i: int| from <= i < end ==> (#[trigger] lines[i]).depth > depth
        }),
    decreases lines.len() - from,
{
    if from < lines.len() && lines[from].depth > depth {
        lemma_closing(lines, depth, from + 1);
    }
}

/// A node goes up to the first line behind it that stands no further to the right than its own.
pub proof fn nodes_hold_what_is_indented(lines: Seq<LineView>, head: int)
    requires
        0 <= head < lines.len(),
    ensures
        ({
            let end = source::end_of(lines, head);
            &&& head < end <= lines.len()
            &&& end < lines.len() ==> lines[end].depth <= lines[head].depth
            &&& forall|i: int|
                head < i < end ==> (#[trigger] lines[i]).depth > lines[head].depth
        }),
{
    lemma_closing(lines, lines[head].depth, head + 1);
}

/// The nodes of a type between two lines begin with its name and open with a brace; no line outside
/// of them does so, and none lies within another.
pub proof fn outermost_nodes_are_found(
    lines: Seq<LineView>,
    prefix: Seq<char>,
    from: int,
    end: int,
    line: int,
)
    requires
        0 <= from <= end <= lines.len(),
        from <= line < end,
    ensures
        ({
            let found = source::nodes(lines, prefix, from, end);
            let marked = prefix.is_prefix_of(lines[line].text) && lines[line].text.len() > 0
                && lines[line].text.last() == '{';
            &&& forall|i: int|
                0 <= i < found.len() ==> from <= #[trigger] found[i] < end && prefix.is_prefix_of(
                    lines[found[i]].text,
                ) && lines[found[i]].text.last() == '{'
            &&& marked ==> exists|i: int|
                0 <= i < found.len() && #[trigger] found[i] <= line < source::end_of(
                    lines,
                    found[i],
                )
            &&& forall|i: int, j: int|
                0 <= i < j < found.len() ==> source::end_of(lines, #[trigger] found[i])
                    <= #[trigger] found[j]
        }),
    decreases end - from,
{
    let found = source::nodes(lines, prefix, from, end);
    nodes_hold_what_is_indented(lines, from);
    let first = lines[from].text;
    if prefix.is_prefix_of(first) {
        assert(first.subrange(0, prefix.len() as int) =~= prefix);
    }
    assert(source::opens(first, prefix) <==> prefix.is_prefix_of(first) && first.len() > 0
        && first.last() == '{');
    if source::opens(lines[from].text, prefix) {
        let next = source::end_of(lines, from);
        assert(found[0] == from);
        if next >= end {
            assert(found =~= seq![from]);
            assert(found[0] <= line < source::end_of(lines, found[0]));
        } else {
            let rest = source::nodes(lines, prefix, next, end);
            assert forall|i: int| 0 < i < found.len() implies found[i] == #[trigger] rest[i - 1] by {}
            if line >= next {
                outermost_nodes_are_found(lines, prefix, next, end, line);
                if prefix.is_prefix_of(lines[line].text) && lines[line].text.len() > 0
                    && lines[line].text.last() == '{' {
                    let i = choose|i: int|
                        0 <= i < rest.len() && #[trigger] rest[i] <= line < source::end_of(
                            lines,
                            rest[i],
                        );
                    assert(found[i + 1] == rest[i]);
                }
            } else {
                outermost_nodes_are_found(lines, prefix, next, end, next);
                assert(found[0] <= line < source::end_of(lines, found[0]));
            }
            assert forall|i: int| 0 <= i < found.len() implies from <= #[trigger] found[i] < end
                && prefix.is_prefix_of(lines[found[i]].text) && lines[found[i]].text.last()
                == '{' by {
                if i > 0 {
                    assert(found[i] == rest[i - 1]);
                }
            }
            assert forall|i: int, j: int| 0 <= i < j < found.len() implies source::end_of(
                lines,
                #[trigger] found[i],
            ) <= #[trigger] found[j] by {
                assert(found[j] == rest[j - 1]);
                if i > 0 {
                    assert(found[i] == rest[i - 1]);
                }
            }
        }
    } else if from + 1 < end {
        if line > from {
            outermost_nodes_are_found(lines, prefix, from + 1, end, line);
        } else {
            outermost_nodes_are_found(lines, prefix, from + 1, end, from + 1);
        }
        assert(found == source::nodes(lines, prefix, from + 1, end));
    } else {
        assert(source::nodes(lines, prefix, from + 1, end).len() == 0);
        assert(found == source::nodes(lines, prefix, from + 1, end));
    }
}

/// The names that a node reads are those of the name nodes in it that are marked as read.
pub proof fn read_names_are_loaded(lines: Seq<LineView>, from: int, end: int, name: Seq<char>)
    requires
        0 <= from,
    ensures
        source::names_read(lines, from, end).contains(name) <==> exists|i: int|
            from <= i < end && #[trigger] says(lines, i, "ExprName {"@) && says(
                lines,
                i + 5,
                "ctx: Load,"@,
            ) && source::name_at(lines, i) == name,
    decreases end - from,
{
    reveal_strlit("ExprName {");
    reveal_strlit("ctx: Load,");
    assert("ExprName {"@.len() == 10 && "ctx: Load,"@.len() == 10);
    if from < end {
        read_names_are_loaded(lines, from, end - 1, name);
        let all = source::names_read(lines, from, end);
        let before = source::names_read(lines, from, end - 1);
        assert(source::reads(lines, end - 1) <==> says(lines, end - 1, "ExprName {"@) && says(
            lines,
            end + 4,
            "ctx: Load,"@,
        ));
        if before.contains(name) {
            let k = choose|k: int| 0 <= k < before.len() && before[k] == name;
            assert(all[k] == name);
        }
        if source::reads(lines, end - 1) && source::name_at(lines, end - 1) == name {
            assert(all[before.len() as int] == name);
        }
        if all.contains(name) && !before.contains(name) {
            let k = choose|k: int| 0 <= k < all.len() && all[k] == name;
            if k < before.len() {
                assert(before[k] == name);
            }
            assert(says(lines, end - 1, "ExprName {"@));
        }
    }
}

/// What a statement is, by the line that opens it: a function or a class with the name three lines
/// below, an import, an assignment, or something else.
pub proof fn statements_are_told_by_their_opening(lines: Seq<LineView>, head: int)
    requires
        0 <= head,
        head + 3 < lines.len(),
    ensures
        ({
            let kind = source::kind_at(lines, head);
            let name = literal::unquoted(lines[head + 3].text);
            let opening = lines[head].text;
            &&& opening == "StmtFunctionDef {"@ <==> kind is Function
            &&& opening == "StmtClassDef {"@ <==> kind is Class
            &&& opening == "StmtImport {"@ || opening == "StmtImportFrom {"@ <==> kind is Import
            &&& opening == "StmtAssign {"@ <==> kind is Assign
            &&& kind is Function ==> kind->Function_0 == name
            &&& kind is Class ==> kind->Class_0 == name
        }),
{
    reveal_strlit("StmtFunctionDef {");
    reveal_strlit("StmtClassDef {");
    reveal_strlit("StmtImport {");
    reveal_strlit("StmtImportFrom {");
    reveal_strlit("StmtAssign {");
    assert("StmtImport {"@[4] != "StmtAssign {"@[4]);
    assert("StmtFunctionDef {"@.len() == 17);
    assert("StmtClassDef {"@.len() == 14);
    assert("StmtImport {"@.len() == 12);
    assert("StmtImportFrom {"@.len() == 16);
    assert("StmtAssign {"@.len() == 12);
}

/// An imported name has another name exactly if the line behind its own says so.
pub proof fn renamed_imports_are_seen(lines: Seq<LineView>, head: int)
    requires
        0 <= head,
        head + 7 < lines.len(),
    ensures
        ({
            let alias = source::alias_at(lines, head);
            &&& alias.name == literal::unquoted(lines[head + 3].text)
            &&& lines[head + 5].text == "asname: Some("@ ==> alias.renamed == Some(
                literal::unquoted(lines[head + 7].text),
            )
            &&& lines[head + 5].text != "asname: Some("@ ==> alias.renamed is None
        }),
{
}

/// What is quoted stands between its quotes, before the comma.
pub proof fn quoted_names_are_unquoted(name: Seq<char>)
    requires
        !name.contains('\\'),
    ensures
        literal::unquoted(seq!['"'] + name + seq!['"', ',']) == name,
{
    let whole = seq!['"'] + name + seq!['"', ','];
    assert(whole.subrange(1, whole.len() - 2) =~= name);
    crate::dataset::laws::plain_texts_stand_for_themselves(name, 0);
    assert(name.skip(0) =~= name);
}

proof fn lemma_place_of(code: Seq<char>, index: int, left: int)
    requires
        0 <= index <= code.len(),
    ensures
        index <= source::place_of(code, index, left) <= code.len(),
    decreases code.len() - index,
{
    if index < code.len() {
        let width = vstd::utf8::encode_scalar(code[index] as u32).len() as int;
        if width <= left {
            lemma_place_of(code, index + 1, left - width);
        }
    }
}

/// A place in bytes is counted over in characters: one character is one place, however many bytes it
/// has.
pub proof fn places_count_characters(code: Seq<char>, index: int, left: int)
    requires
        0 <= index < code.len(),
    ensures
        ({
            let width = vstd::utf8::encode_scalar(code[index] as u32).len() as int;
            &&& left < width ==> source::place_of(code, index, left) == index
            &&& left >= width ==> source::place_of(code, index, left) == source::place_of(
                code,
                index + 1,
                left - width,
            )
            &&& source::place_of(code, code.len() as int, left) == code.len()
            &&& index <= source::place_of(code, index, left) <= code.len()
        }),
{
    lemma_place_of(code, index, left);
}

/// Whether a target is `name`, or a tuple or list with one in it that is.
pub proof fn targets_write_their_names(target: TargetView, name: Seq<char>)
    ensures
        match target {
            TargetView::Name(id) => tree::writes(target, name) <==> id == name,
            TargetView::Group(list) => tree::writes(target, name) <==> exists|i: int|
                0 <= i < list.len() && tree::writes(#[trigger] list[i], name),
            TargetView::Other => !tree::writes(target, name),
        },
{
    if let TargetView::Group(list) = target {
        lemma_one_writes(list, list.len() as int, name);
    }
}

proof fn lemma_one_writes(list: Seq<TargetView>, end: int, name: Seq<char>)
    requires
        0 <= end <= list.len(),
    ensures
        tree::one_writes(list, end, name) <==> exists|i: int|
            0 <= i < end && tree::writes(#[trigger] list[i], name),
    decreases end,
{
    if end > 0 {
        lemma_one_writes(list, end - 1, name);
        if tree::writes(list[end - 1], name) {
            assert(tree::writes(list[end - 1], name));
        }
    }
}

/// An assignment gives the names that one of its targets writes.
pub proof fn assignments_give_names(statement: StatementView, list: Seq<TargetView>, name: Seq<char>)
    requires
        statement.kind == KindView::Assign(list),
    ensures
        tree::gives(statement, name) <==> exists|i: int|
            0 <= i < list.len() && tree::writes(#[trigger] list[i], name),
{
    lemma_one_writes(list, list.len() as int, name);
}

/// Where several statements give a name, the first of them does.
pub proof fn first_givers_count(statements: Seq<StatementView>, name: Seq<char>, from: int)
    requires
        0 <= from,
    ensures
        match tree::giver(statements, name, from) {
            Some(index) => {
                &&& from <= index < statements.len()
                &&& tree::gives(statements[index], name)
                &&& forall|i: int|
                    from <= i < index ==> !tree::gives(#[trigger] statements[i], name)
            },
            None => forall|i: int|
                from <= i < statements.len() ==> !tree::gives(#[trigger] statements[i], name),
        },
    decreases statements.len() - from,
{
    if from < statements.len() {
        first_givers_count(statements, name, from + 1);
    }
}

/// A statement leads to the first one that gives a name that it reads.
pub proof fn statements_lead_to_givers(statements: Seq<StatementView>, from: int, to: int, at: int)
    requires
        0 <= from < statements.len(),
        0 <= to < statements.len(),
        0 <= at < statements[from].loads.len(),
        tree::gives(statements[to], statements[from].loads[at]),
        forall|i: int|
            0 <= i < to ==> !tree::gives(#[trigger] statements[i], statements[from].loads[at]),
    ensures
        tree::leads(statements, from, to),
{
    first_givers_count(statements, statements[from].loads[at], 0);
    assert(tree::giver(statements, statements[from].loads[at], 0) == Some(to));
}

} // verus!
