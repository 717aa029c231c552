//! Naming the kernels in the libraries that a candidate was built into, process by process.
use crate::gpu_binary;
use crate::gpu_binary::{entry_points, function_names, merge};
use crate::gpu_profile::{Process, ProcessView};
use crate::json;
use crate::json::{Json, JsonView};
use crate::lines::Lines;
use crate::pieces;
use vstd::prelude::*;

verus! {

/// What is waited for, of a library.
pub enum Stage {
    /// Its symbols.
    Symbols,
    /// The plain names of its entry points.
    Plain,
    /// The resources that it uses; the plain names have been printed.
    Usage(Json),
}

/// The model of a [`Stage`].
pub enum StageView {
    Symbols,
    Plain,
    Usage(JsonView),
}

impl View for Stage {
    type V = StageView;

    open spec fn view(&self) -> StageView {
        match *self {
            Stage::Symbols => StageView::Symbols,
            Stage::Plain => StageView::Plain,
            Stage::Usage(printed) => StageView::Usage(printed@),
        }
    }
}

/// The naming of the kernels in libraries.
pub struct Naming {
    /// The program that shows what a library holds.
    pub object_tool: String,
    /// The program that makes names plain.
    pub plain_tool: String,
    pub libraries: Vec<String>,
    /// How many libraries have been dealt with.
    pub position: usize,
    pub names: Vec<String>,
    pub stage: Stage,
}

/// The model of [`Naming`].
#[verifier::ext_equal]
pub struct NamingView {
    pub object_tool: Seq<char>,
    pub plain_tool: Seq<char>,
    pub libraries: Seq<Seq<char>>,
    pub position: int,
    pub names: Seq<Seq<char>>,
    pub stage: StageView,
}

impl View for Naming {
    type V = NamingView;

    open spec fn view(&self) -> NamingView {
        NamingView {
            object_tool: self.object_tool@,
            plain_tool: self.plain_tool@,
            libraries: pieces::texts(self.libraries@),
            position: self.position as int,
            names: pieces::texts(self.names@),
            stage: self.stage@,
        }
    }
}

impl NamingView {
    /// Whether there is a library left.
    pub open spec fn open(self) -> bool {
        0 <= self.position < self.libraries.len()
    }
}

/// The program that shows what a library holds, with an option.
pub open spec fn shown(tool: Seq<char>, option: Seq<char>, library: Seq<char>) -> ProcessView {
    ProcessView { command: seq![tool, option, library], timeout_ms: 30_000 }
}

pub(crate) fn show(tool: &str, option: &str, library: &str) -> (process: Process)
    ensures
        process@ == shown(tool@, option@, library@),
{
    let mut command = Lines::new();
    command.add_text(tool);
    command.add_text(option);
    command.add_text(library);
    assert(command@ =~= seq![tool@, option@, library@]);
    Process { command: command.list, timeout_ms: 30_000 }
}

/// The naming of the kernels in libraries, before anything was run: without both programs no
/// library is looked at.
pub open spec fn begun(
    tools: Option<(Seq<char>, Seq<char>)>,
    libraries: Seq<Seq<char>>,
) -> NamingView {
    NamingView {
        object_tool: match tools {
            Some((object_tool, _)) => object_tool,
            None => Seq::empty(),
        },
        plain_tool: match tools {
            Some((_, plain_tool)) => plain_tool,
            None => Seq::empty(),
        },
        libraries: match tools {
            Some(_) => libraries,
            None => Seq::empty(),
        },
        position: 0,
        names: Seq::empty(),
        stage: StageView::Symbols,
    }
}

/// What is run for the next library, if there is one: its symbols are printed.
pub open spec fn asked(naming: NamingView) -> Option<ProcessView> {
    if naming.open() {
        Some(shown(naming.object_tool, "-symbols"@, naming.libraries[naming.position]))
    } else {
        None
    }
}

/// The library at hand is dealt with.
pub open spec fn passed(naming: NamingView) -> (NamingView, Option<ProcessView>) {
    let after = NamingView {
        position: naming.position + 1,
        stage: StageView::Symbols,
        ..naming
    };
    (after, asked(after))
}

/// No kernel is named.
pub open spec fn abandoned(naming: NamingView) -> (NamingView, Option<ProcessView>) {
    (
        NamingView {
            position: naming.libraries.len() as int,
            names: Seq::empty(),
            stage: StageView::Symbols,
            ..naming
        },
        None,
    )
}

/// What is run next, given what came of what was run: a process that could not be run ends with
/// the library at hand.
pub open spec fn advanced(naming: NamingView, result: Result<JsonView, Seq<char>>) -> (
    NamingView,
    Option<ProcessView>,
) {
    match result {
        Err(_) => passed(naming),
        Ok(output) => match naming.stage {
            StageView::Symbols => match gpu_binary::entries_told(output) {
                Err(_) => abandoned(naming),
                Ok(entries) => if entries.len() == 0 {
                    passed(naming)
                } else {
                    (
                        NamingView { stage: StageView::Plain, ..naming },
                        Some(
                            ProcessView {
                                command: seq![naming.plain_tool] + entries,
                                timeout_ms: 10_000,
                            },
                        ),
                    )
                },
            },
            StageView::Plain => (
                NamingView { stage: StageView::Usage(output), ..naming },
                Some(
                    shown(
                        naming.object_tool,
                        "--dump-resource-usage"@,
                        naming.libraries[naming.position],
                    ),
                ),
            ),
            StageView::Usage(printed) => match gpu_binary::names_told(printed) {
                Err(_) => abandoned(naming),
                Ok(names) => passed(
                    NamingView {
                        names: gpu_binary::merged(naming.names, names, names.len() as int),
                        ..naming
                    },
                ),
            },
        },
    }
}

/// The model of what is run, if anything is.
pub open spec fn optional_process(process: Option<Process>) -> Option<ProcessView> {
    match process {
        Some(process) => Some(process@),
        None => None,
    }
}

/// The model of the two programs, if both are found.
pub open spec fn tools_view(tools: Option<(String, String)>) -> Option<(Seq<char>, Seq<char>)> {
    match tools {
        Some((object_tool, plain_tool)) => Some((object_tool@, plain_tool@)),
        None => None,
    }
}

impl Naming {
    /// The naming of the kernels in libraries, and what is run first: `tools` are the programs
    /// that show what a library holds and that make names plain, where both are found.
    pub fn new(tools: Option<(String, String)>, libraries: Vec<String>) -> (first: (
        Self,
        Option<Process>,
    ))
        ensures
            first.0@ == begun(tools_view(tools), pieces::texts(libraries@)),
            optional_process(first.1) == asked(first.0@),
    {
        let ghost wanted = begun(tools_view(tools), pieces::texts(libraries@));
        let (object_tool, plain_tool, libraries) = match tools {
            Some((object_tool, plain_tool)) => (object_tool, plain_tool, libraries),
            None => (String::new(), String::new(), Vec::new()),
        };
        let naming = Naming {
            object_tool,
            plain_tool,
            libraries,
            position: 0,
            names: Vec::new(),
            stage: Stage::Symbols,
        };
        assert(naming@ =~= wanted);
        let process = naming.ask();
        (naming, process)
    }

    fn ask(&self) -> (process: Option<Process>)
        ensures
            optional_process(process) == asked(self@),
    {
        if self.position < self.libraries.len() {
            Some(
                show(
                    self.object_tool.as_str(),
                    "-symbols",
                    self.libraries[self.position].as_str(),
                ),
            )
        } else {
            None
        }
    }

    fn pass(&mut self) -> (process: Option<Process>)
        requires
            old(self)@.open(),
        ensures
            (final(self)@, optional_process(process)) == passed(old(self)@),
    {
        let ghost before = self@;
        let count: usize = self.libraries.len();
        assert(self.position < count);
        self.position = self.position + 1;
        self.stage = Stage::Symbols;
        assert(self@ =~= passed(before).0);
        self.ask()
    }

    fn abandon(&mut self) -> (process: Option<Process>)
        ensures
            (final(self)@, optional_process(process)) == abandoned(old(self)@),
    {
        let ghost before = self@;
        self.position = self.libraries.len();
        self.names = Vec::new();
        self.stage = Stage::Symbols;
        assert(self@ =~= abandoned(before).0);
        None
    }

    /// What is run next, given what came of what was run.
    pub fn advance(&mut self, result: Result<Json, String>) -> (process: Option<Process>)
        requires
            old(self)@.open(),
        ensures
            (final(self)@, optional_process(process)) == advanced(
                old(self)@,
                json::outcome(result),
            ),
    {
        let ghost before = self@;
        let output = match result {
            Err(_) => {
                return self.pass();
            },
            Ok(output) => output,
        };
        match &self.stage {
            Stage::Symbols => match entry_points(&output) {
                Err(_) => self.abandon(),
                Ok(entries) => {
                    if entries.len() == 0 {
                        return self.pass();
                    }
                    let ghost told = pieces::texts(entries@);
                    let mut command = entries;
                    command.insert(0, self.plain_tool.clone());
                    assert(pieces::texts(command@) =~= seq![before.plain_tool] + told);
                    self.stage = Stage::Plain;
                    assert(self@ =~= NamingView { stage: StageView::Plain, ..before });
                    Some(Process { command, timeout_ms: 10_000 })
                },
            },
            Stage::Plain => {
                self.stage = Stage::Usage(output);
                assert(self@ =~= NamingView { stage: StageView::Usage(output@), ..before });
                Some(
                    show(
                        self.object_tool.as_str(),
                        "--dump-resource-usage",
                        self.libraries[self.position].as_str(),
                    ),
                )
            },
            Stage::Usage(printed) => match function_names(printed) {
                Err(_) => self.abandon(),
                Ok(names) => {
                    merge(&mut self.names, &names);
                    let ghost told = pieces::texts(names@);
                    assert(self@ =~= NamingView {
                        names: gpu_binary::merged(before.names, told, told.len() as int),
                        ..before
                    });
                    self.pass()
                },
            },
        }
    }
}

proof fn lemma_merged(list: Seq<Seq<char>>, names: Seq<Seq<char>>, end: int)
    requires
        list.no_duplicates(),
    ensures
        gpu_binary::merged(list, names, end).no_duplicates(),
    decreases end,
{
    if end > 0 {
        lemma_merged(list, names, end - 1);
    }
}

/// No kernel is named twice.
pub proof fn names_stay_distinct(naming: NamingView, result: Result<JsonView, Seq<char>>)
    requires
        naming.names.no_duplicates(),
    ensures
        advanced(naming, result).0.names.no_duplicates(),
{
    if let Ok(_) = result {
        if let StageView::Usage(printed) = naming.stage {
            if let Ok(names) = gpu_binary::names_told(printed) {
                lemma_merged(naming.names, names, names.len() as int);
            }
        }
    }
}

/// A process that cannot be run, or that fails where symbols are looked for, takes no name away
/// and adds none, and the next library is looked at.
pub proof fn troubles_pass_a_library(naming: NamingView, result: Result<JsonView, Seq<char>>)
    requires
        naming.open(),
        match result {
            Err(_) => true,
            Ok(output) => naming.stage is Symbols && !crate::gpu_profile::ended_well(output),
        },
    ensures
        advanced(naming, result).0.names == naming.names,
        advanced(naming, result).0.position == naming.position + 1,
{
}

} // verus!
