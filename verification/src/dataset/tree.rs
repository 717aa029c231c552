//! The statements of a task's file, and which of them make its inputs.
use crate::pieces;
use crate::text::same;
use vstd::prelude::*;

verus! {

/// What an assignment writes to.
pub enum Target {
    Name(String),
    /// A tuple or a list of targets.
    Group(Vec<Target>),
    Other,
}

/// A name that an import brings in, under another name where one is given.
pub struct Alias {
    pub name: String,
    pub renamed: Option<String>,
}

/// What a statement is, as far as it matters here.
pub enum Kind {
    Function(String),
    /// A class; the string that its body begins with, if it begins with one.
    Class(String, Option<String>),
    Import(Vec<Alias>),
    Assign(Vec<Target>),
    Other,
}

/// A statement.
pub struct Statement {
    pub kind: Kind,
    /// The place of its first character.
    pub start: usize,
    /// The place behind its last character.
    pub end: usize,
    /// The names that it reads, at any depth.
    pub loads: Vec<String>,
    /// The statements right inside it.
    pub children: Vec<Statement>,
}

/// The model of a [`Target`].
pub enum TargetView {
    Name(Seq<char>),
    Group(Seq<TargetView>),
    Other,
}

/// The model of a target.
pub open spec fn target_of(target: Target) -> TargetView
    decreases target,
{
    match target {
        Target::Name(id) => TargetView::Name(id@),
        Target::Group(list) => TargetView::Group(
            Seq::new(
                list@.len(),
                |i: int|
                    if 0 <= i < list@.len() {
                        target_of(list@[i])
                    } else {
                        TargetView::Other
                    },
            ),
        ),
        Target::Other => TargetView::Other,
    }
}

impl View for Target {
    type V = TargetView;

    open spec fn view(&self) -> TargetView {
        target_of(*self)
    }
}

/// The models of a row of targets.
pub open spec fn targets(list: Seq<Target>) -> Seq<TargetView> {
    Seq::new(list.len(), |i: int| list[i]@)
}

/// The model of a group is made of the models of its members.
pub proof fn lemma_group(list: Vec<Target>)
    ensures
        Target::Group(list)@ == TargetView::Group(targets(list@)),
{
    assert(Target::Group(list)@->Group_0 =~= targets(list@));
}

/// The model of an [`Alias`].
pub struct AliasView {
    pub name: Seq<char>,
    pub renamed: Option<Seq<char>>,
}

impl View for Alias {
    type V = AliasView;

    open spec fn view(&self) -> AliasView {
        AliasView { name: self.name@, renamed: pieces::optional(self.renamed) }
    }
}

/// The models of a row of imported names.
pub open spec fn aliases(list: Seq<Alias>) -> Seq<AliasView> {
    Seq::new(list.len(), |i: int| list[i]@)
}

/// The model of a [`Kind`].
pub enum KindView {
    Function(Seq<char>),
    Class(Seq<char>, Option<Seq<char>>),
    Import(Seq<AliasView>),
    Assign(Seq<TargetView>),
    Other,
}

impl View for Kind {
    type V = KindView;

    open spec fn view(&self) -> KindView {
        match *self {
            Kind::Function(name) => KindView::Function(name@),
            Kind::Class(name, docstring) => KindView::Class(name@, pieces::optional(docstring)),
            Kind::Import(list) => KindView::Import(aliases(list@)),
            Kind::Assign(list) => KindView::Assign(targets(list@)),
            Kind::Other => KindView::Other,
        }
    }
}

/// The model of a [`Statement`].
#[verifier::ext_equal]
pub struct StatementView {
    pub kind: KindView,
    pub start: int,
    pub end: int,
    pub loads: Seq<Seq<char>>,
    pub children: Seq<StatementView>,
}

/// The model of a statement.
pub open spec fn statement_of(statement: Statement) -> StatementView
    decreases statement,
{
    StatementView {
        kind: statement.kind@,
        start: statement.start as int,
        end: statement.end as int,
        loads: pieces::texts(statement.loads@),
        children: Seq::new(
            statement.children@.len(),
            |i: int|
                if 0 <= i < statement.children@.len() {
                    statement_of(statement.children@[i])
                } else {
                    StatementView {
                        kind: KindView::Other,
                        start: 0,
                        end: 0,
                        loads: Seq::empty(),
                        children: Seq::empty(),
                    }
                },
        ),
    }
}

impl View for Statement {
    type V = StatementView;

    open spec fn view(&self) -> StatementView {
        statement_of(*self)
    }
}

/// The models of a row of statements.
pub open spec fn views(list: Seq<Statement>) -> Seq<StatementView> {
    Seq::new(list.len(), |i: int| list[i]@)
}

/// The model of a statement holds the models of what is inside it.
pub proof fn lemma_children(statement: Statement)
    ensures
        statement@.children == views(statement.children@),
{
    assert(statement@.children =~= views(statement.children@));
}

/// Whether `target` writes to `name`.
pub open spec fn writes(target: TargetView, name: Seq<char>) -> bool
    decreases target, 0int,
{
    match target {
        TargetView::Name(id) => id == name,
        TargetView::Group(list) => one_writes(list, list.len() as int, name),
        TargetView::Other => false,
    }
}

/// Whether one of the first `end` targets writes to `name`.
pub open spec fn one_writes(list: Seq<TargetView>, end: int, name: Seq<char>) -> bool
    decreases list, end,
{
    if end <= 0 || end > list.len() {
        false
    } else {
        one_writes(list, end - 1, name) || writes(list[end - 1], name)
    }
}

/// The name that an import binds.
pub open spec fn bound(alias: AliasView) -> Seq<char> {
    match alias.renamed {
        Some(name) => name,
        None => alias.name,
    }
}

/// Whether one of the imported names is bound as `name`.
pub open spec fn one_binds(list: Seq<AliasView>, name: Seq<char>) -> bool {
    exists|i: int| 0 <= i < list.len() && bound(#[trigger] list[i]) == name
}

/// Whether a statement imports or assigns `name`.
pub open spec fn gives(statement: StatementView, name: Seq<char>) -> bool {
    match statement.kind {
        KindView::Import(list) => one_binds(list, name),
        KindView::Assign(list) => one_writes(list, list.len() as int, name),
        _ => false,
    }
}

/// The first statement from `from` on that imports or assigns `name`.
pub open spec fn giver(tree: Seq<StatementView>, name: Seq<char>, from: int) -> Option<int>
    decreases tree.len() - from,
{
    if from < 0 || from >= tree.len() {
        None
    } else if gives(tree[from], name) {
        Some(from)
    } else {
        giver(tree, name, from + 1)
    }
}

/// Whether a statement is the function `name`.
pub open spec fn is_function(statement: StatementView, name: Seq<char>) -> bool {
    match statement.kind {
        KindView::Function(id) => id == name,
        _ => false,
    }
}

/// Whether a statement is one of the two functions that make the inputs.
pub open spec fn is_entry(statement: StatementView) -> bool {
    is_function(statement, "get_inputs"@) || is_function(statement, "get_init_inputs"@)
}

/// Whether one of the statements is the function `name`.
pub open spec fn has_function(tree: Seq<StatementView>, name: Seq<char>) -> bool {
    exists|i: int| 0 <= i < tree.len() && is_function(#[trigger] tree[i], name)
}

/// Whether the statement `from` reads a name that the statement `to` gives first.
pub open spec fn leads(tree: Seq<StatementView>, from: int, to: int) -> bool {
    exists|k: int|
        0 <= k < tree[from].loads.len() && giver(tree, #[trigger] tree[from].loads[k], 0)
            == Some(to)
}

/// The statements that the inputs need over at most `rounds` names.
pub open spec fn within(tree: Seq<StatementView>, rounds: nat) -> Set<int>
    decreases rounds,
{
    if rounds == 0 {
        Set::new(|i: int| 0 <= i < tree.len() && is_entry(tree[i]))
    } else {
        let before = within(tree, (rounds - 1) as nat);
        Set::new(
            |i: int|
                before.contains(i) || exists|from: int|
                    0 <= from < tree.len() && #[trigger] before.contains(from) && leads(
                        tree,
                        from,
                        i,
                    ),
        )
    }
}

/// Whether the inputs need a statement: it is one of the functions that make them, or the first
/// to give a name that a needed statement reads.
pub open spec fn needed(tree: Seq<StatementView>, index: int) -> bool {
    exists|rounds: nat| #[trigger] within(tree, rounds).contains(index)
}

/// A function that makes the inputs is needed.
pub proof fn entries_are_needed(tree: Seq<StatementView>, index: int)
    requires
        0 <= index < tree.len(),
        is_entry(tree[index]),
    ensures
        needed(tree, index),
{
    assert(within(tree, 0).contains(index));
}

/// What a needed statement reads is needed where it is first given.
pub proof fn needs_are_closed(tree: Seq<StatementView>, from: int, to: int)
    requires
        0 <= from < tree.len(),
        needed(tree, from),
        leads(tree, from, to),
    ensures
        needed(tree, to),
{
    let rounds = choose|rounds: nat| #[trigger] within(tree, rounds).contains(from);
    assert(((rounds + 1) - 1) as nat == rounds);
    assert(within(tree, rounds + 1).contains(to));
}

/// Nothing else is needed: every set of statements that holds the functions that make the inputs
/// and what its members read holds all that is needed.
pub proof fn needs_are_least(tree: Seq<StatementView>, held: Set<int>, index: int)
    requires
        forall|i: int| 0 <= i < tree.len() && is_entry(#[trigger] tree[i]) ==> held.contains(i),
        forall|i: int, j: int|
            0 <= i < tree.len() && held.contains(i) && #[trigger] leads(tree, i, j)
                ==> held.contains(j),
        needed(tree, index),
    ensures
        held.contains(index),
{
    let rounds = choose|rounds: nat| #[trigger] within(tree, rounds).contains(index);
    lemma_least(tree, held, index, rounds);
}

proof fn lemma_least(tree: Seq<StatementView>, held: Set<int>, index: int, rounds: nat)
    requires
        forall|i: int| 0 <= i < tree.len() && is_entry(#[trigger] tree[i]) ==> held.contains(i),
        forall|i: int, j: int|
            0 <= i < tree.len() && held.contains(i) && #[trigger] leads(tree, i, j)
                ==> held.contains(j),
        within(tree, rounds).contains(index),
    ensures
        held.contains(index),
    decreases rounds,
{
    if rounds > 0 {
        let before = within(tree, (rounds - 1) as nat);
        if before.contains(index) {
            lemma_least(tree, held, index, (rounds - 1) as nat);
        } else {
            let from = choose|from: int|
                0 <= from < tree.len() && #[trigger] before.contains(from) && leads(
                    tree,
                    from,
                    index,
                );
            lemma_least(tree, held, from, (rounds - 1) as nat);
        }
    }
}

/// Whether `target` writes to `name`.
pub fn defines(target: &Target, name: &str) -> (found: bool)
    ensures
        found == writes(target@, name@),
    decreases *target, 0int,
{
    match target {
        Target::Name(id) => same(id.as_str(), name),
        Target::Group(list) => {
            proof {
                lemma_group(*list);
            }
            one_defines(list, list.len(), name)
        },
        Target::Other => false,
    }
}

fn one_defines(list: &Vec<Target>, end: usize, name: &str) -> (found: bool)
    requires
        end <= list@.len(),
    ensures
        found == one_writes(targets(list@), end as int, name@),
    decreases list@, end as int,
{
    let mut found = false;
    let mut index: usize = 0;
    while index < end
        invariant
            index <= end <= list@.len(),
            found == one_writes(targets(list@), index as int, name@),
        decreases end - index,
    {
        found = found || defines(&list[index], name);
        index += 1;
    }
    found
}

fn binds(list: &Vec<Alias>, name: &str) -> (found: bool)
    ensures
        found == one_binds(aliases(list@), name@),
{
    let mut index: usize = 0;
    while index < list.len()
        invariant
            index <= list@.len(),
            forall|i: int| 0 <= i < index ==> bound(#[trigger] aliases(list@)[i]) != name@,
        decreases list@.len() - index,
    {
        let id = match &list[index].renamed {
            Some(renamed) => renamed.as_str(),
            None => list[index].name.as_str(),
        };
        if same(id, name) {
            assert(bound(aliases(list@)[index as int]) == name@);
            return true;
        }
        index += 1;
    }
    false
}

/// Whether a statement imports or assigns `name`.
pub fn definition(statement: &Statement, name: &str) -> (found: bool)
    ensures
        found == gives(statement@, name@),
{
    match &statement.kind {
        Kind::Import(list) => binds(list, name),
        Kind::Assign(list) => one_defines(list, list.len(), name),
        _ => false,
    }
}

proof fn lemma_giver(tree: Seq<StatementView>, name: Seq<char>, from: int, end: int)
    requires
        0 <= from <= end <= tree.len(),
        forall|i: int| from <= i < end ==> !gives(#[trigger] tree[i], name),
    ensures
        giver(tree, name, from) == giver(tree, name, end),
    decreases end - from,
{
    if from < end {
        lemma_giver(tree, name, from + 1, end);
    }
}

proof fn lemma_giver_bound(tree: Seq<StatementView>, name: Seq<char>, from: int)
    requires
        0 <= from,
    ensures
        match giver(tree, name, from) {
            Some(index) => 0 <= index < tree.len(),
            None => true,
        },
    decreases tree.len() - from,
{
    if from < tree.len() {
        lemma_giver_bound(tree, name, from + 1);
    }
}

fn find_giver(tree: &Vec<Statement>, name: &str) -> (found: Option<usize>)
    ensures
        match found {
            Some(index) => index < tree@.len() && giver(views(tree@), name@, 0) == Some(index as int),
            None => giver(views(tree@), name@, 0) is None,
        },
{
    let mut index: usize = 0;
    while index < tree.len()
        invariant
            index <= tree@.len(),
            forall|i: int| 0 <= i < index ==> !gives(#[trigger] views(tree@)[i], name@),
        decreases tree@.len() - index,
    {
        if definition(&tree[index], name) {
            proof {
                lemma_giver(views(tree@), name@, 0, index as int);
            }
            return Some(index);
        }
        index += 1;
    }
    proof {
        lemma_giver(views(tree@), name@, 0, index as int);
    }
    None
}

fn called(statement: &Statement, name: &str) -> (found: bool)
    ensures
        found == is_function(statement@, name@),
{
    match &statement.kind {
        Kind::Function(id) => same(id.as_str(), name),
        _ => false,
    }
}

/// Whether one of the statements is the function `name`.
pub fn declares(tree: &Vec<Statement>, name: &str) -> (found: bool)
    ensures
        found == has_function(views(tree@), name@),
{
    let mut index: usize = 0;
    while index < tree.len()
        invariant
            index <= tree@.len(),
            forall|i: int| 0 <= i < index ==> !is_function(#[trigger] views(tree@)[i], name@),
        decreases tree@.len() - index,
    {
        if called(&tree[index], name) {
            assert(is_function(views(tree@)[index as int], name@));
            return true;
        }
        index += 1;
    }
    false
}

/// Which statements are chosen and wait to be followed.
struct Choice {
    chosen: Vec<bool>,
    waiting: Vec<usize>,
}

spec fn chosen_count(chosen: Seq<bool>) -> nat
    decreases chosen.len(),
{
    if chosen.len() == 0 {
        0
    } else {
        chosen_count(chosen.drop_last()) + if chosen.last() {
            1nat
        } else {
            0nat
        }
    }
}

proof fn lemma_count(chosen: Seq<bool>, index: int)
    requires
        0 <= index < chosen.len(),
        !chosen[index],
    ensures
        chosen_count(chosen.update(index, true)) == chosen_count(chosen) + 1,
        chosen_count(chosen) < chosen.len(),
    decreases chosen.len(),
{
    let after = chosen.update(index, true);
    lemma_bound(chosen.drop_last());
    if index == chosen.len() - 1 {
        assert(after.drop_last() =~= chosen.drop_last());
    } else {
        assert(after.drop_last() =~= chosen.drop_last().update(index, true));
        lemma_count(chosen.drop_last(), index);
    }
}

proof fn lemma_bound(chosen: Seq<bool>)
    ensures
        chosen_count(chosen) <= chosen.len(),
    decreases chosen.len(),
{
    if chosen.len() > 0 {
        lemma_bound(chosen.drop_last());
    }
}

impl Choice {
    /// Every chosen statement is needed, every entry is chosen, and what waits is chosen.
    spec fn fits(self, tree: Seq<StatementView>) -> bool {
        &&& self.chosen@.len() == tree.len()
        &&& forall|i: int| 0 <= i < tree.len() && #[trigger] self.chosen@[i] ==> needed(tree, i)
        &&& forall|k: int|
            0 <= k < self.waiting@.len() ==> (#[trigger] self.waiting@[k]) < tree.len()
                && self.chosen@[self.waiting@[k] as int]
    }

    /// Whether a chosen statement still waits.
    spec fn waits(self, index: int) -> bool {
        exists|k: int| 0 <= k < self.waiting@.len() && #[trigger] self.waiting@[k] == index
    }

    /// Whether what the statement reads is chosen.
    spec fn followed(self, tree: Seq<StatementView>, index: int) -> bool {
        forall|k: int|
            0 <= k < tree[index].loads.len() ==> match giver(
                tree,
                #[trigger] tree[index].loads[k],
                0,
            ) {
                Some(to) => self.chosen@[to],
                None => true,
            }
    }

    /// What every chosen statement but those that wait and `aside` reads is chosen.
    spec fn closed_but(self, tree: Seq<StatementView>, aside: int) -> bool {
        forall|i: int|
            0 <= i < tree.len() && self.chosen@[i] && i != aside && !self.waits(i)
                ==> #[trigger] self.followed(tree, i)
    }

    fn start(tree: &Vec<Statement>) -> (choice: Self)
        ensures
            choice.fits(views(tree@)),
            choice.closed_but(views(tree@), -1),
            forall|i: int| 0 <= i < tree@.len() && is_entry(#[trigger] views(tree@)[i])
                ==> choice.chosen@[i],
    {
        let mut choice = Choice { chosen: Vec::new(), waiting: Vec::new() };
        let mut index: usize = 0;
        while index < tree.len()
            invariant
                index <= tree@.len(),
                choice.chosen@.len() == index,
                forall|i: int| 0 <= i < index ==> #[trigger] choice.chosen@[i] == is_entry(views(tree@)[i]),
                forall|i: int|
                    0 <= i < index && #[trigger] choice.chosen@[i] ==> choice.waits(i),
                forall|k: int|
                    0 <= k < choice.waiting@.len() ==> (#[trigger] choice.waiting@[k]) < index
                        && choice.chosen@[choice.waiting@[k] as int],
            decreases tree@.len() - index,
        {
            let entry = called(&tree[index], "get_inputs") || called(
                &tree[index],
                "get_init_inputs",
            );
            let ghost before = choice;
            choice.chosen.push(entry);
            if entry {
                choice.waiting.push(index);
                assert(choice.waiting@[choice.waiting@.len() - 1] == index);
            }
            assert forall|i: int|
                0 <= i <= index && #[trigger] choice.chosen@[i] implies choice.waits(i) by {
                if i < index {
                    assert(before.chosen@[i]);
                    let k = choose|k: int|
                        0 <= k < before.waiting@.len() && #[trigger] before.waiting@[k] == i;
                    assert(choice.waiting@[k] == i);
                }
            }
            index += 1;
        }
        assert forall|i: int| 0 <= i < tree@.len() && #[trigger] choice.chosen@[i] implies needed(
            views(tree@),
            i,
        ) by {
            entries_are_needed(views(tree@), i);
        }
        choice
    }

    /// Chooses the statement that gives `name`.
    fn choose_giver(&mut self, tree: &Vec<Statement>, from: usize, place: usize)
        requires
            old(self).fits(views(tree@)),
            from < tree@.len(),
            old(self).chosen@[from as int],
            place < views(tree@)[from as int].loads.len(),
            old(self).closed_but(views(tree@), from as int),
        ensures
            final(self).fits(views(tree@)),
            final(self).closed_but(views(tree@), from as int),
            forall|i: int| 0 <= i < tree@.len() && old(self).chosen@[i]
                ==> #[trigger] final(self).chosen@[i],
            match giver(views(tree@), views(tree@)[from as int].loads[place as int], 0) {
                Some(to) => final(self).chosen@[to],
                None => true,
            },
            tree@.len() - chosen_count(final(self).chosen@) + final(self).waiting@.len()
                == tree@.len() - chosen_count(old(self).chosen@) + old(self).waiting@.len(),
            chosen_count(final(self).chosen@) <= tree@.len(),
    {
        proof {
            lemma_bound(self.chosen@);
        }
        let ghost before = *self;
        match find_giver(tree, tree[from].loads[place].as_str()) {
            Some(to) => {
                if !self.chosen[to] {
                    proof {
                        lemma_count(self.chosen@, to as int);
                        assert(leads(views(tree@), from as int, to as int)) by {
                            assert(giver(
                                views(tree@),
                                views(tree@)[from as int].loads[place as int],
                                0,
                            ) == Some(to as int));
                        }
                        assert(needed(views(tree@), from as int));
                        needs_are_closed(views(tree@), from as int, to as int);
                    }
                    self.chosen.set(to, true);
                    self.waiting.push(to);
                    proof {
                        lemma_bound(self.chosen@);
                        assert(self.waiting@[self.waiting@.len() - 1] == to);
                        assert(self.waits(to as int));
                        assert forall|i: int|
                            0 <= i < tree@.len() && self.chosen@[i] && i != from && !self.waits(
                                i,
                            ) implies #[trigger] self.followed(views(tree@), i) by {
                            assert(i != to);
                            assert(before.chosen@[i]);
                            if before.waits(i) {
                                let k = choose|k: int|
                                    0 <= k < before.waiting@.len() && #[trigger] before.waiting@[k]
                                        == i;
                                assert(self.waiting@[k] == i);
                            }
                            assert(before.followed(views(tree@), i));
                            assert forall|k: int|
                                0 <= k < views(tree@)[i].loads.len() implies match giver(
                                views(tree@),
                                #[trigger] views(tree@)[i].loads[k],
                                0,
                            ) {
                                Some(next) => self.chosen@[next],
                                None => true,
                            } by {
                                lemma_giver_bound(views(tree@), views(tree@)[i].loads[k], 0);
                            }
                        }
                    }
                }
            },
            None => {},
        }
    }

    /// Chooses all that the statement `from` reads.
    fn follow(&mut self, tree: &Vec<Statement>, from: usize)
        requires
            old(self).fits(views(tree@)),
            from < tree@.len(),
            old(self).chosen@[from as int],
            old(self).closed_but(views(tree@), from as int),
        ensures
            final(self).fits(views(tree@)),
            final(self).closed_but(views(tree@), -1),
            forall|i: int| 0 <= i < tree@.len() && old(self).chosen@[i]
                ==> #[trigger] final(self).chosen@[i],
            tree@.len() - chosen_count(final(self).chosen@) + final(self).waiting@.len()
                == tree@.len() - chosen_count(old(self).chosen@) + old(self).waiting@.len(),
            chosen_count(final(self).chosen@) <= tree@.len(),
    {
        let ghost start = *self;
        proof {
            lemma_bound(self.chosen@);
        }
        let mut place: usize = 0;
        while place < tree[from].loads.len()
            invariant
                self.fits(views(tree@)),
                from < tree@.len(),
                place <= views(tree@)[from as int].loads.len(),
                start.chosen@[from as int],
                self.closed_but(views(tree@), from as int),
                forall|i: int| 0 <= i < tree@.len() && start.chosen@[i]
                    ==> #[trigger] self.chosen@[i],
                tree@.len() - chosen_count(self.chosen@) + self.waiting@.len() == tree@.len()
                    - chosen_count(start.chosen@) + start.waiting@.len(),
                chosen_count(self.chosen@) <= tree@.len(),
                forall|k: int|
                    0 <= k < place ==> match giver(
                        views(tree@),
                        #[trigger] views(tree@)[from as int].loads[k],
                        0,
                    ) {
                        Some(to) => self.chosen@[to],
                        None => true,
                    },
            decreases views(tree@)[from as int].loads.len() - place,
        {
            let ghost before = *self;
            self.choose_giver(tree, from, place);
            assert forall|k: int| 0 <= k < place implies match giver(
                views(tree@),
                #[trigger] views(tree@)[from as int].loads[k],
                0,
            ) {
                Some(to) => self.chosen@[to],
                None => true,
            } by {
                lemma_giver_bound(views(tree@), views(tree@)[from as int].loads[k], 0);
            }
            place += 1;
        }
        assert(self.followed(views(tree@), from as int));
    }
}

/// Which statements the inputs need.
pub fn select(tree: &Vec<Statement>) -> (chosen: Vec<bool>)
    ensures
        chosen@.len() == tree@.len(),
        forall|i: int| 0 <= i < tree@.len() ==> #[trigger] chosen@[i] == needed(views(tree@), i),
{
    let mut choice = Choice::start(tree);
    proof {
        lemma_bound(choice.chosen@);
    }
    while choice.waiting.len() > 0
        invariant
            choice.fits(views(tree@)),
            choice.closed_but(views(tree@), -1),
            chosen_count(choice.chosen@) <= tree@.len(),
            forall|i: int| 0 <= i < tree@.len() && is_entry(#[trigger] views(tree@)[i])
                ==> choice.chosen@[i],
        decreases tree@.len() - chosen_count(choice.chosen@) + choice.waiting@.len(),
    {
        let ghost before = choice;
        let from = choice.waiting[choice.waiting.len() - 1];
        let _ = choice.waiting.pop();
        assert forall|i: int|
            0 <= i < tree@.len() && choice.chosen@[i] && i != from && !choice.waits(i) implies
            #[trigger] choice.followed(views(tree@), i) by {
            if before.waits(i) {
                let k = choose|k: int|
                    0 <= k < before.waiting@.len() && #[trigger] before.waiting@[k] == i;
                assert(k < choice.waiting@.len());
                assert(choice.waiting@[k] == i);
            }
            assert(before.followed(views(tree@), i));
        }
        choice.follow(tree, from);
    }
    proof {
        let held = Set::new(|i: int| 0 <= i < tree@.len() && choice.chosen@[i]);
        assert forall|i: int, j: int|
            0 <= i < tree@.len() && held.contains(i) && #[trigger] leads(
                views(tree@),
                i,
                j,
            ) implies held.contains(j) by {
            assert(!choice.waits(i));
            assert(choice.followed(views(tree@), i));
            let k = choose|k: int|
                0 <= k < views(tree@)[i].loads.len() && giver(
                    views(tree@),
                    #[trigger] views(tree@)[i].loads[k],
                    0,
                ) == Some(j);
            lemma_giver_bound(views(tree@), views(tree@)[i].loads[k], 0);
        }
        assert forall|i: int| 0 <= i < tree@.len() implies #[trigger] choice.chosen@[i] == needed(
            views(tree@),
            i,
        ) by {
            if needed(views(tree@), i) {
                needs_are_least(views(tree@), held, i);
            }
        }
    }
    choice.chosen
}

} // verus!
