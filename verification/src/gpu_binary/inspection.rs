//! Inspecting the instructions of the library that a candidate was built into, process by process.
use crate::gpu_binary;
use crate::gpu_binary::naming;
use crate::gpu_binary::naming::show;
use crate::gpu_binary::{library_symbols, listing, record};
use crate::gpu_profile::{Process, ProcessView};
use crate::json;
use crate::json::{Json, JsonView};
use crate::lines::Lines;
use crate::pieces;
use vstd::prelude::*;

verus! {

/// What is waited for.
pub enum Stage {
    /// The symbols that the library needs.
    Symbols,
    /// The list of what it holds.
    Listing,
    /// Its instructions; the list has been printed.
    Dumping(Json),
}

/// The model of a [`Stage`].
pub enum StageView {
    Symbols,
    Listing,
    Dumping(JsonView),
}

impl View for Stage {
    type V = StageView;

    open spec fn view(&self) -> StageView {
        match *self {
            Stage::Symbols => StageView::Symbols,
            Stage::Listing => StageView::Listing,
            Stage::Dumping(listed) => StageView::Dumping(listed@),
        }
    }
}

/// The inspection of a library.
pub struct Inspection {
    /// The program that shows what a library holds.
    pub tool: String,
    pub library: String,
    /// The symbols of the linear algebra library that are needed.
    pub symbols: Vec<String>,
    pub stage: Stage,
}

/// The model of an [`Inspection`].
#[verifier::ext_equal]
pub struct InspectionView {
    pub tool: Seq<char>,
    pub library: Seq<char>,
    pub symbols: Seq<Seq<char>>,
    pub stage: StageView,
}

impl View for Inspection {
    type V = InspectionView;

    open spec fn view(&self) -> InspectionView {
        InspectionView {
            tool: self.tool@,
            library: self.library@,
            symbols: pieces::texts(self.symbols@),
            stage: self.stage@,
        }
    }
}

/// How far an inspection has come: something is run, or the record is made or cannot be.
pub enum Progress {
    Run(Inspection, Process),
    Made(Result<Json, String>),
}

/// The model of [`Progress`].
pub enum ProgressView {
    Run(InspectionView, ProcessView),
    Made(Result<JsonView, Seq<char>>),
}

impl View for Progress {
    type V = ProgressView;

    open spec fn view(&self) -> ProgressView {
        match *self {
            Progress::Run(inspection, process) => ProgressView::Run(inspection@, process@),
            Progress::Made(result) => ProgressView::Made(json::outcome(result)),
        }
    }
}

/// The places where the program that shows what a library holds may stand besides the usual ones.
pub open spec fn places() -> Seq<Seq<char>> {
    seq![
        "/usr/local/cuda/bin/cuobjdump"@,
        "/usr/local/cuda-12/bin/cuobjdump"@,
        "/usr/local/cuda-11/bin/cuobjdump"@,
    ]
}

/// The places where the program that shows what a library holds may stand besides the usual ones.
pub fn tool_places() -> (list: Vec<String>)
    ensures
        pieces::texts(list@) == places(),
{
    let mut list = Lines::new();
    list.add_text("/usr/local/cuda/bin/cuobjdump");
    list.add_text("/usr/local/cuda-12/bin/cuobjdump");
    list.add_text("/usr/local/cuda-11/bin/cuobjdump");
    assert(list@ =~= places());
    list.list
}

/// The program that shows what a library holds: where it was found, else the first of the places
/// where it stands, else by its name alone.
pub open spec fn tool_of(found: Option<Seq<char>>, standing: Seq<Seq<char>>) -> Seq<char> {
    match found {
        Some(tool) => tool,
        None => if standing.len() > 0 {
            standing[0]
        } else {
            "cuobjdump"@
        },
    }
}

/// The program that shows what a library holds; `standing` are the [`tool_places`] where it stands.
pub fn choose_tool(found: Option<String>, standing: &Vec<String>) -> (tool: String)
    ensures
        tool@ == tool_of(pieces::optional(found), pieces::texts(standing@)),
{
    match found {
        Some(tool) => tool,
        None => if standing.len() > 0 {
            assert(pieces::texts(standing@)[0] == standing@[0]@);
            standing[0].clone()
        } else {
            "cuobjdump".to_owned()
        },
    }
}

/// The inspection of a library, and what is run first: the symbols that it needs are printed.
pub open spec fn begun(tool: Seq<char>, library: Seq<char>) -> (InspectionView, ProcessView) {
    (
        InspectionView { tool, library, symbols: Seq::empty(), stage: StageView::Symbols },
        ProcessView { command: seq!["nm"@, "-D"@, library], timeout_ms: 10_000 },
    )
}

/// The inspection is over: the record is made of what was printed, if it was.
pub open spec fn closed(
    inspection: InspectionView,
    printed: Option<(JsonView, JsonView)>,
    assets: JsonView,
) -> ProgressView {
    ProgressView::Made(
        gpu_binary::binary_record(
            assets,
            gpu_binary::listing_of(printed, inspection.symbols),
            inspection.symbols,
        ),
    )
}

/// What is run next, given what came of what was run.
pub open spec fn advanced(
    inspection: InspectionView,
    result: Result<JsonView, Seq<char>>,
    assets: JsonView,
) -> ProgressView {
    match inspection.stage {
        StageView::Symbols => {
            let symbols = match result {
                Ok(output) => gpu_binary::symbols_told(output),
                Err(_) => Ok(Seq::empty()),
            };
            match symbols {
                Err(reason) => ProgressView::Made(Err(reason)),
                Ok(symbols) => ProgressView::Run(
                    InspectionView { symbols, stage: StageView::Listing, ..inspection },
                    naming::shown(inspection.tool, "--list-ptx"@, inspection.library),
                ),
            }
        },
        StageView::Listing => match result {
            Err(_) => closed(inspection, None, assets),
            Ok(listed) => ProgressView::Run(
                InspectionView { stage: StageView::Dumping(listed), ..inspection },
                naming::shown(inspection.tool, "--dump-sass"@, inspection.library),
            ),
        },
        StageView::Dumping(listed) => match result {
            Err(_) => closed(inspection, None, assets),
            Ok(dumped) => closed(inspection, Some((listed, dumped)), assets),
        },
    }
}

impl Inspection {
    /// The inspection of a library with a program that shows what it holds, and what is run first.
    pub fn new(tool: String, library: String) -> (first: (Self, Process))
        ensures
            (first.0@, first.1@) == begun(tool@, library@),
    {
        let ghost wanted = begun(tool@, library@);
        let mut command = Lines::new();
        command.add_text("nm");
        command.add_text("-D");
        command.add_text(library.as_str());
        assert(command@ =~= seq!["nm"@, "-D"@, library@]);
        let inspection = Inspection { tool, library, symbols: Vec::new(), stage: Stage::Symbols };
        assert(inspection@ =~= wanted.0);
        (inspection, Process { command: command.list, timeout_ms: 10_000 })
    }

    fn close(self, printed: Option<(&Json, &Json)>, assets: &Json) -> (progress: Progress)
        ensures
            progress@ == closed(
                self@,
                match printed {
                    Some((listed, dumped)) => Some((listed@, dumped@)),
                    None => None,
                },
                assets@,
            ),
    {
        Progress::Made(record(assets, &listing(printed, &self.symbols), &self.symbols))
    }

    /// What is run next, given what came of what was run.
    pub fn advance(self, result: Result<Json, String>, assets: &Json) -> (progress: Progress)
        ensures
            progress@ == advanced(self@, json::outcome(result), assets@),
    {
        let ghost before = self@;
        match &self.stage {
            Stage::Symbols => {
                let symbols = match result {
                    Ok(output) => match library_symbols(&output) {
                        Ok(symbols) => symbols,
                        Err(error) => {
                            return Progress::Made(Err(error));
                        },
                    },
                    Err(_) => Lines::new().list,
                };
                let process = show(self.tool.as_str(), "--list-ptx", self.library.as_str());
                let after = Inspection {
                    tool: self.tool,
                    library: self.library,
                    symbols,
                    stage: Stage::Listing,
                };
                Progress::Run(after, process)
            },
            Stage::Listing => match result {
                Err(_) => self.close(None, assets),
                Ok(listed) => {
                    let process = show(self.tool.as_str(), "--dump-sass", self.library.as_str());
                    let after = Inspection {
                        tool: self.tool,
                        library: self.library,
                        symbols: self.symbols,
                        stage: Stage::Dumping(listed),
                    };
                    Progress::Run(after, process)
                },
            },
            Stage::Dumping(listed) => {
                let listed = listed.clone();
                match result {
                    Err(_) => self.close(None, assets),
                    Ok(dumped) => self.close(Some((&listed, &dumped)), assets),
                }
            },
        }
    }
}

} // verus!
