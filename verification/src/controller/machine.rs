//! A run: what is done next, given what has come of what was done.
use crate::cli;
use crate::cli::OptimizeArgs;
use crate::controller;
use crate::fields;
use crate::json;
use crate::json::{Json, JsonView};
use crate::memory;
use crate::memory::{Finding, FindingView, Snapshot, SnapshotView};
use crate::number::{Real, EXACT};
use crate::numeral;
use crate::paths;
use crate::pieces;
use crate::roles;
use crate::search::mcts;
use crate::search::mcts::{Scores, ScoresView};
use crate::search::node::{NodeId, Outcome, OutcomeView};
use crate::search::state;
use crate::search::state::{SearchState, StateView};
use crate::session;
use crate::session::{ResultView, SessionResult, SessionSpec, SpecView};
use crate::written;
use vstd::prelude::*;

verus! {

/// What a run waits for.
#[derive(Clone, Copy, Debug, PartialEq, Eq, Structural)]
pub enum Phase {
    /// The task.
    Preparing,
    /// The measured reference.
    Measuring,
    /// The session that classifies the reference.
    Classifying,
    /// That the session's record is kept, where it gave no classification.
    Unclassified,
    /// The classification, validated.
    Checking,
    /// The scores of the nodes, to choose a parent.
    Choosing,
    /// The feedback on the parent.
    Advising,
    /// The sessions that make candidates.
    Generating,
    /// A candidate, validated.
    Submitting,
    /// That a candidate's code is kept, where it is not evaluated.
    Unevaluated,
    /// A candidate's evaluation.
    Evaluating,
    /// The analysis of a candidate's profile.
    Analyzing,
    /// The session that explains the profile.
    Profiling,
    /// The explanation, validated.
    Explaining,
    /// The outcomes of the batch.
    Reading,
    /// The claim to extract findings.
    Claiming,
    /// What the extraction is told.
    Scoping,
    /// The session that distills the batch.
    Distilling,
    /// That the session's record is kept, where it gave no findings.
    Undistilled,
    /// The findings.
    Finding,
    /// That the next memory is kept.
    Committing,
    /// That the extraction is given up.
    Failing,
    /// The kept memory.
    Loading,
    /// The last gain in speed.
    Deciding,
    /// Nothing.
    Over,
}

/// A file of the run, by its path below the output.
pub enum File {
    /// A value.
    Value(String, Json),
    /// A text.
    Text(String, String),
    /// The search as it is.
    Tree(String),
}

/// The model of a file.
pub enum FileView {
    Value(Seq<char>, JsonView),
    Text(Seq<char>, Seq<char>),
    Tree(Seq<char>),
}

impl View for File {
    type V = FileView;

    open spec fn view(&self) -> FileView {
        match *self {
            File::Value(path, value) => FileView::Value(path@, value@),
            File::Text(path, content) => FileView::Text(path@, content@),
            File::Tree(path) => FileView::Tree(path@),
        }
    }
}

/// The models of files.
pub open spec fn files_view(files: Seq<File>) -> Seq<FileView> {
    Seq::new(files.len(), |i: int| files[i]@)
}

/// What is to be done outside.
pub enum Work {
    /// An operation is to be carried out on a payload.
    Call(&'static str, Json),
    /// Sessions are to be run.
    Sessions(Vec<SessionSpec>),
    /// The scores of the nodes are to be worked out.
    Score,
    /// Nothing but keeping the files.
    Keep,
    /// Outcomes are to be read.
    Read(Vec<Json>),
    /// The extraction for the batch is to be claimed.
    Claim,
    /// What the extraction is told is to be framed.
    Scope(String),
    /// Findings are to be read.
    Find(Json),
    /// A memory is to be kept after a version.
    Commit(i64, Json),
    /// The extraction is to be given up, for a reason.
    Fail(String),
    /// The kept memory is to be read.
    Load,
    /// The last gain in speed is to be worked out.
    Gain,
    /// The run is complete.
    Finish,
    /// The run has failed.
    Abort(String),
}

/// The model of work.
#[verifier::ext_equal]
pub enum WorkView {
    Call(Seq<char>, JsonView),
    Sessions(Seq<SpecView>),
    Score,
    Keep,
    Read(Seq<JsonView>),
    Claim,
    Scope(Seq<char>),
    Find(JsonView),
    Commit(int, JsonView),
    Fail(Seq<char>),
    Load,
    Gain,
    Finish,
    Abort(Seq<char>),
}

impl View for Work {
    type V = WorkView;

    open spec fn view(&self) -> WorkView {
        match *self {
            Work::Call(operation, payload) => WorkView::Call(operation@, payload@),
            Work::Sessions(tasks) => WorkView::Sessions(session::specs_view(tasks@)),
            Work::Score => WorkView::Score,
            Work::Keep => WorkView::Keep,
            Work::Read(list) => WorkView::Read(json::items_view(list@)),
            Work::Claim => WorkView::Claim,
            Work::Scope(told) => WorkView::Scope(told@),
            Work::Find(value) => WorkView::Find(value@),
            Work::Commit(version, value) => WorkView::Commit(version as int, value@),
            Work::Fail(reason) => WorkView::Fail(reason@),
            Work::Load => WorkView::Load,
            Work::Gain => WorkView::Gain,
            Work::Finish => WorkView::Finish,
            Work::Abort(reason) => WorkView::Abort(reason@),
        }
    }
}

/// A step of a run: the files are written, then the parts, then the work is done. A file that
/// cannot be written fails the run; where a part cannot be written, the work has failed.
pub struct Step {
    pub files: Vec<File>,
    pub parts: Vec<File>,
    pub work: Work,
}

/// The model of a step.
#[verifier::ext_equal]
pub struct StepView {
    pub files: Seq<FileView>,
    pub parts: Seq<FileView>,
    pub work: WorkView,
}

impl View for Step {
    type V = StepView;

    open spec fn view(&self) -> StepView {
        StepView {
            files: files_view(self.files@),
            parts: files_view(self.parts@),
            work: self.work@,
        }
    }
}

/// What has come of a step.
pub enum Event {
    Reply(Result<Json, String>),
    /// A reply, and the memory as candidates are told of it.
    Advice(Result<Json, String>, String),
    Sessions(Result<Vec<SessionResult>, String>),
    Scores(Scores),
    Kept(Result<(), String>),
    Outcomes(Result<Vec<Outcome>, String>),
    /// Whether the extraction was claimed, and the memory as it is told of it.
    Claimed(Result<(), String>, String),
    Scoped(Result<String, String>),
    Findings(Result<Vec<Finding>, String>),
    Committed(Result<(), String>),
    Failed(Result<(), String>),
    Loaded(Result<Option<Snapshot>, String>),
    Gain(Real),
}

/// The model of an event.
pub enum EventView {
    Reply(Result<JsonView, Seq<char>>),
    Advice(Result<JsonView, Seq<char>>, Seq<char>),
    Sessions(Result<Seq<ResultView>, Seq<char>>),
    Scores(ScoresView),
    Kept(Option<Seq<char>>),
    Outcomes(Result<Seq<OutcomeView>, Seq<char>>),
    Claimed(Option<Seq<char>>, Seq<char>),
    Scoped(Result<Seq<char>, Seq<char>>),
    Findings(Result<Seq<FindingView>, Seq<char>>),
    Committed(Option<Seq<char>>),
    Failed(Option<Seq<char>>),
    Loaded(Result<Option<SnapshotView>, Seq<char>>),
    Gain(Real),
}

impl View for Event {
    type V = EventView;

    open spec fn view(&self) -> EventView {
        match *self {
            Event::Reply(result) => EventView::Reply(json::outcome(result)),
            Event::Advice(result, told) => EventView::Advice(json::outcome(result), told@),
            Event::Sessions(result) => EventView::Sessions(
                match result {
                    Ok(list) => Ok(session::results_view(list@)),
                    Err(error) => Err(error@),
                },
            ),
            Event::Scores(scores) => EventView::Scores(scores@),
            Event::Kept(done) => EventView::Kept(pieces::trouble(done)),
            Event::Outcomes(result) => EventView::Outcomes(
                match result {
                    Ok(list) => Ok(state::outcomes_view(list@)),
                    Err(error) => Err(error@),
                },
            ),
            Event::Claimed(done, told) => EventView::Claimed(pieces::trouble(done), told@),
            Event::Scoped(result) => EventView::Scoped(
                match result {
                    Ok(told) => Ok(told@),
                    Err(error) => Err(error@),
                },
            ),
            Event::Findings(result) => EventView::Findings(
                match result {
                    Ok(list) => Ok(memory::findings_view(list@)),
                    Err(error) => Err(error@),
                },
            ),
            Event::Committed(done) => EventView::Committed(pieces::trouble(done)),
            Event::Failed(done) => EventView::Failed(pieces::trouble(done)),
            Event::Loaded(result) => EventView::Loaded(
                match result {
                    Ok(Some(snapshot)) => Ok(Some(snapshot@)),
                    Ok(None) => Ok(None),
                    Err(error) => Err(error@),
                },
            ),
            Event::Gain(gain) => EventView::Gain(gain),
        }
    }
}

/// A run.
pub struct Run {
    pub args: OptimizeArgs,
    /// The thread of the root session.
    pub root: String,
    /// What the search's configuration is written as.
    pub config: Json,
    pub scenario: Json,
    pub tree: SearchState,
    pub problem: Json,
    pub reference: Json,
    pub classification: Result<Json, String>,
    /// Whether the classifier looked at the measurements.
    pub inspected: bool,
    /// What is known of the nodes but for the root, in their order.
    pub candidates: Vec<Json>,
    pub snapshot: Snapshot,
    pub iteration: usize,
    pub parent: Option<NodeId>,
    /// The sessions that were to make candidates.
    pub sessions: Vec<SessionResult>,
    /// How many of them have been dealt with.
    pub position: usize,
    /// What is known of the candidates of the batch.
    pub batch: Vec<Json>,
    /// The evaluation of the candidate at hand.
    pub evaluated: Json,
    /// The analysis of its profile.
    pub prepared: Json,
    /// The memory that is to be kept.
    pub next: Snapshot,
    /// Why what is at hand has failed.
    pub trouble: String,
    pub phase: Phase,
}

/// The model of a run.
#[verifier::ext_equal]
pub struct RunView {
    pub args: OptimizeArgs,
    pub root: Seq<char>,
    pub config: JsonView,
    pub scenario: JsonView,
    pub tree: StateView,
    pub problem: JsonView,
    pub reference: JsonView,
    pub classification: Result<JsonView, Seq<char>>,
    pub inspected: bool,
    pub candidates: Seq<JsonView>,
    pub snapshot: SnapshotView,
    pub iteration: nat,
    pub parent: Option<NodeId>,
    pub sessions: Seq<ResultView>,
    pub position: int,
    pub batch: Seq<JsonView>,
    pub evaluated: JsonView,
    pub prepared: JsonView,
    pub next: SnapshotView,
    pub trouble: Seq<char>,
    pub phase: Phase,
}

impl View for Run {
    type V = RunView;

    open spec fn view(&self) -> RunView {
        RunView {
            args: self.args,
            root: self.root@,
            config: self.config@,
            scenario: self.scenario@,
            tree: self.tree@,
            problem: self.problem@,
            reference: self.reference@,
            classification: json::outcome(self.classification),
            inspected: self.inspected,
            candidates: json::items_view(self.candidates@),
            snapshot: self.snapshot@,
            iteration: self.iteration as nat,
            parent: self.parent,
            sessions: session::results_view(self.sessions@),
            position: self.position as int,
            batch: json::items_view(self.batch@),
            evaluated: self.evaluated@,
            prepared: self.prepared@,
            next: self.next@,
            trouble: self.trouble@,
            phase: self.phase,
        }
    }
}

/// A step without parts.
pub open spec fn plain(files: Seq<FileView>, work: WorkView) -> StepView {
    StepView { files, parts: Seq::empty(), work }
}

/// A run that has failed.
pub open spec fn aborted(run: RunView, files: Seq<FileView>, reason: Seq<char>) -> (
    RunView,
    StepView,
) {
    (RunView { phase: Phase::Over, ..run }, plain(files, WorkView::Abort(reason)))
}

/// How the reference is handed over to be measured.
pub open spec fn reference_record(run: RunView) -> JsonView {
    JsonView::Object(
        seq![
            ("backend"@, JsonView::Text(cli::backend_name(run.args.evaluator))),
            ("problem"@, run.problem),
            ("output_dir"@, JsonView::Text(paths::path(run.args.output@, "reference"@))),
            ("fixture"@, run.scenario.at("reference"@)),
            ("ncu_full"@, JsonView::Bool(run.args.ncu_full)),
            ("gpu_id"@, fields::natural_view(run.args.gpus@[0] as nat)),
        ],
    )
}

/// The record of the classification.
pub open spec fn classification_record(classification: Result<JsonView, Seq<char>>) -> JsonView {
    JsonView::Object(
        seq![
            (
                "analysis"@,
                match classification {
                    Ok(value) => value,
                    Err(_) => JsonView::Null,
                },
            ),
            (
                "error"@,
                match classification {
                    Ok(_) => JsonView::Null,
                    Err(error) => JsonView::Text(error),
                },
            ),
        ],
    )
}

/// The bottleneck that the classification names.
pub open spec fn bottleneck(run: RunView) -> Option<JsonView> {
    match run.classification {
        Ok(value) => value.get("final_bottleneck"@),
        Err(_) => None,
    }
}

/// What is known of a node.
pub open spec fn known(run: RunView, id: Option<NodeId>) -> Option<JsonView> {
    match id {
        Some(id) => if 1 <= id <= run.candidates.len() {
            Some(run.candidates[id - 1])
        } else {
            None
        },
        None => None,
    }
}

/// How candidates are asked for.
pub open spec fn mode(run: RunView) -> Seq<char> {
    controller::mode_of(run.tree.nodes, run.parent, known(run, run.parent))
}

/// What candidates are shown of their parent.
pub open spec fn parent_record(run: RunView) -> JsonView {
    match known(run, run.parent) {
        Some(value) => JsonView::Object(
            seq![
                ("submission"@, value.at("submission"@)),
                ("outcome"@, value.at("evaluation"@).at("outcome"@)),
                ("analysis"@, value.at("analysis"@)),
                ("validation"@, value.at("evaluation"@).at("validation"@)),
            ],
        ),
        None => JsonView::Null,
    }
}

/// How feedback is asked for.
pub open spec fn feedback_record(run: RunView) -> JsonView {
    JsonView::Object(
        seq![
            ("parent"@, parent_record(run)),
            ("mode"@, JsonView::Text(mode(run))),
            ("hint"@, fields::text_or_null(pieces::optional(run.args.hint))),
        ],
    )
}

/// What candidates are told.
pub open spec fn candidate_input(run: RunView, feedback: JsonView, told: Seq<char>) -> JsonView {
    JsonView::Object(
        seq![
            ("reference"@, run.problem.at("canonical_solution"@)),
            ("task"@, run.problem.at("description"@)),
            ("parent"@, parent_record(run)),
            (
                "reference_analysis"@,
                match run.classification {
                    Ok(value) => value,
                    Err(_) => JsonView::Null,
                },
            ),
            (
                "memory"@,
                JsonView::Text(
                    if run.args.memory_off {
                        Seq::empty()
                    } else {
                        told
                    },
                ),
            ),
            ("feedback"@, feedback.at("text"@)),
            (
                "submission"@,
                JsonView::Text(
                    "Return one complete CodeCompletion. Evaluation is controller-owned; do not run full candidate evaluation or modify evaluator rules. Use native file/search tools for source research. No delegation or sibling communication."@,
                ),
            ),
        ],
    )
}

/// The session that makes the candidate `index` of the batch.
pub open spec fn candidate_task(
    run: RunView,
    feedback: JsonView,
    told: Seq<char>,
    index: nat,
) -> SpecView {
    SpecView {
        role: "candidate"@,
        model: run.args.model@,
        cwd: paths::path(
            run.args.output@,
            "workspaces/candidate-"@ + numeral::decimal(run.iteration) + "-"@ + numeral::decimal(
                index,
            ),
        ),
        instructions: run.problem.at("instructions"@).at(mode(run)).text_or_empty(),
        input: written::compact(candidate_input(run, feedback, told)),
        schema: run.problem.at("schemas"@).at("candidate"@),
        tools: Seq::empty(),
        evidence: JsonView::Null,
    }
}

/// How many candidates a batch is to have.
pub open spec fn wanted(run: RunView) -> nat {
    match run.tree.config.num_candidates {
        Some(count) => count as nat,
        None => 2,
    }
}

/// The number of the node that the candidate at hand becomes.
pub open spec fn candidate_id(run: RunView) -> nat {
    run.tree.nodes.len() + run.batch.len()
}

/// The path of a file of the candidate at hand.
pub open spec fn candidate_file(run: RunView, name: Seq<char>) -> Seq<char> {
    roles::candidate_path(candidate_id(run), name)
}

/// What is kept of the candidate at hand.
pub open spec fn evidence_record(run: RunView, analysis: JsonView) -> JsonView {
    let result = run.sessions[run.position];
    JsonView::Object(
        seq![
            ("id"@, JsonView::Text("candidate:"@ + numeral::decimal(candidate_id(run)))),
            ("evaluation"@, run.evaluated),
            ("analysis"@, analysis),
            ("submission"@, fields::or_null(result.value)),
            ("session"@, session::result_record(result)),
            ("memory_version"@, fields::signed_view(run.snapshot.version)),
        ],
    )
}

/// The record of the winner so far.
pub open spec fn winner_record(run: RunView) -> JsonView {
    let winner = run.tree.winner();
    JsonView::Object(
        seq![
            (
                "node"@,
                match winner {
                    Some(id) => fields::natural_view(id as nat),
                    None => JsonView::Null,
                },
            ),
            ("evidence"@, fields::or_null(known(run, winner))),
            ("validation"@, JsonView::Text(cli::backend_name(run.args.evaluator))),
        ],
    )
}

/// A parent is chosen, and feedback on it is asked for.
pub open spec fn chosen(run: RunView, parent: Option<NodeId>, files: Seq<FileView>) -> (
    RunView,
    StepView,
) {
    let after = RunView { parent, phase: Phase::Advising, ..run };
    (after, plain(files, WorkView::Call("feedback"@, feedback_record(after))))
}

/// A batch begins: the first has no parent, the others choose one.
pub open spec fn begun(run: RunView, files: Seq<FileView>) -> (RunView, StepView) {
    let after = RunView { iteration: run.tree.current_iteration, ..run };
    if run.tree.current_iteration == 0 {
        chosen(after, None, files)
    } else {
        (RunView { phase: Phase::Choosing, ..after }, plain(files, WorkView::Score))
    }
}

/// The reference is classified, or is not.
pub open spec fn classified(
    run: RunView,
    classification: Result<JsonView, Seq<char>>,
    files: Seq<FileView>,
) -> (RunView, StepView) {
    begun(
        RunView { classification, ..run },
        files.push(
            FileView::Value("classification.json"@, classification_record(classification)),
        ),
    )
}

/// The candidates of a batch are all dealt with.
pub open spec fn closed(run: RunView, files: Seq<FileView>) -> (RunView, StepView) {
    if run.batch.len() == 0 {
        aborted(
            run,
            files,
            "all candidate sessions failed in iteration "@ + numeral::decimal(run.iteration),
        )
    } else {
        (
            RunView { phase: Phase::Reading, ..run },
            plain(
                files,
                WorkView::Read(
                    Seq::new(
                        run.batch.len(),
                        |i: int| run.batch[i].at("evaluation"@).at("outcome"@),
                    ),
                ),
            ),
        )
    }
}

/// The next session that made a candidate is dealt with; those that made none leave a record.
pub open spec fn taken(run: RunView, files: Seq<FileView>) -> (RunView, StepView)
    decreases run.sessions.len() - run.position,
{
    if run.position < 0 || run.position >= run.sessions.len() {
        closed(run, files)
    } else {
        let result = run.sessions[run.position];
        if result.error is Some || result.value is None {
            taken(
                RunView { position: run.position + 1, ..run },
                files.push(
                    FileView::Value(
                        "generation-errors/"@ + numeral::decimal(run.iteration) + "-"@
                            + numeral::decimal(run.position as nat) + ".json"@,
                        session::result_record(result),
                    ),
                ),
            )
        } else {
            (
                RunView { phase: Phase::Submitting, ..run },
                plain(
                    files.push(
                        FileView::Value(
                            candidate_file(run, "/session.json"@),
                            session::result_record(result),
                        ),
                    ),
                    WorkView::Call(
                        "validate"@,
                        roles::validation_record("candidate"@, result.value->Some_0),
                    ),
                ),
            )
        }
    }
}

/// All that is known of the candidate at hand is kept, and the next one is taken.
pub open spec fn kept(run: RunView, analysis: JsonView, files: Seq<FileView>) -> (
    RunView,
    StepView,
) {
    let evidence = evidence_record(run, analysis);
    taken(
        RunView { batch: run.batch.push(evidence), position: run.position + 1, ..run },
        files.push(FileView::Value(candidate_file(run, "/evidence.json"@), evidence)),
    )
}

/// The candidate at hand is evaluated; a profile that could be made is analyzed.
pub open spec fn evaluated(run: RunView, value: JsonView, files: Seq<FileView>) -> (
    RunView,
    StepView,
) {
    let after = RunView { evaluated: value, ..run };
    if value.at("profile"@).at("success"@) == JsonView::Bool(true) {
        (
            RunView { phase: Phase::Analyzing, ..after },
            plain(
                files,
                WorkView::Call(
                    "analyze"@,
                    roles::analysis_record(
                        value.at("profile"@),
                        bottleneck(run),
                        run.args.profiling@,
                    ),
                ),
            ),
        )
    } else {
        kept(after, JsonView::Null, files)
    }
}

/// The candidate at hand could not be evaluated, which counts as its failure.
pub open spec fn unevaluated(run: RunView, error: Seq<char>) -> (RunView, StepView) {
    evaluated(
        run,
        controller::failure_record(cli::backend_name(run.args.evaluator), error),
        seq![
            FileView::Value(
                candidate_file(run, "/evaluation-error.json"@),
                JsonView::Text(error),
            ),
        ],
    )
}

/// The profile of the candidate at hand could not be explained.
pub open spec fn unexplained(run: RunView, error: Seq<char>) -> (RunView, StepView) {
    kept(
        run,
        JsonView::Null,
        seq![
            FileView::Value(candidate_file(run, "/profiling-error.json"@), JsonView::Text(error)),
        ],
    )
}

/// The batch is over, and so is what is remembered of it.
pub open spec fn settled(run: RunView, files: Seq<FileView>) -> (RunView, StepView) {
    (
        RunView { phase: Phase::Deciding, ..run },
        plain(files.push(FileView::Value("winner.json"@, winner_record(run))), WorkView::Gain),
    )
}

/// The kept memory is read again.
pub open spec fn reloaded(run: RunView, files: Seq<FileView>) -> (RunView, StepView) {
    (RunView { phase: Phase::Loading, ..run }, plain(files, WorkView::Load))
}

/// The batch leaves nothing in memory.
pub open spec fn forgotten(run: RunView, error: Seq<char>) -> (RunView, StepView) {
    reloaded(
        run,
        seq![
            FileView::Value(
                "memory-error-"@ + numeral::decimal(run.iteration) + ".json"@,
                JsonView::Text(error),
            ),
        ],
    )
}

/// The extraction is given up.
pub open spec fn undistilled(run: RunView, error: Seq<char>) -> (RunView, StepView) {
    (
        RunView { trouble: error, phase: Phase::Failing, ..run },
        plain(Seq::empty(), WorkView::Fail(error)),
    )
}

/// The reason that counts: why the files could not be kept, or what was the trouble before.
pub open spec fn reason(run: RunView, done: Option<Seq<char>>) -> Seq<char> {
    match done {
        Some(error) => error,
        None => run.trouble,
    }
}

/// What comes of a reply.
pub open spec fn replied(run: RunView, result: Result<JsonView, Seq<char>>) -> (RunView, StepView) {
    match (run.phase, result) {
        (Phase::Preparing, Err(error)) => aborted(run, Seq::empty(), error),
        (Phase::Preparing, Ok(problem)) => {
            let after = RunView { problem, phase: Phase::Measuring, ..run };
            (
                after,
                plain(
                    seq![
                        FileView::Value("task.json"@, problem),
                        FileView::Value(
                            "run.json"@,
                            controller::run_record(
                                run.args,
                                run.root,
                                run.tree.strategy,
                                run.config,
                                problem,
                            ),
                        ),
                    ],
                    WorkView::Call("reference"@, reference_record(after)),
                ),
            )
        },
        (Phase::Measuring, Err(error)) => aborted(run, Seq::empty(), error),
        (Phase::Measuring, Ok(reference)) => {
            let after = RunView { reference, ..run };
            let files = seq![FileView::Value("reference.json"@, reference)];
            match roles::reference_task(run.args, run.problem, reference) {
                Err(error) => classified(after, Err(error), files),
                Ok(task) => (
                    RunView { phase: Phase::Classifying, ..after },
                    plain(files, WorkView::Sessions(seq![task])),
                ),
            }
        },
        (Phase::Checking, Err(error)) => classified(run, Err(error), Seq::empty()),
        (Phase::Checking, Ok(value)) => classified(
            run,
            roles::classification(value, run.inspected),
            Seq::empty(),
        ),
        (Phase::Submitting, Err(error)) => unevaluated(run, error),
        (Phase::Submitting, Ok(submission)) => match roles::code_of(submission) {
            Err(error) => unevaluated(run, error),
            Ok(code) => {
                let parts = seq![FileView::Text(candidate_file(run, "/solution.py"@), code)];
                match roles::evaluation(
                    run.args,
                    run.problem,
                    run.reference,
                    run.scenario,
                    code,
                    run.iteration as int,
                    run.batch.len() as int,
                    candidate_id(run),
                ) {
                    Err(error) => (
                        RunView { trouble: error, phase: Phase::Unevaluated, ..run },
                        StepView { files: Seq::empty(), parts, work: WorkView::Keep },
                    ),
                    Ok(payload) => (
                        RunView { phase: Phase::Evaluating, ..run },
                        StepView {
                            files: Seq::empty(),
                            parts,
                            work: WorkView::Call("evaluate"@, payload),
                        },
                    ),
                }
            },
        },
        (Phase::Evaluating, Err(error)) => unevaluated(run, error),
        (Phase::Evaluating, Ok(value)) => evaluated(run, value, Seq::empty()),
        (Phase::Analyzing, Err(error)) => unexplained(run, error),
        (Phase::Analyzing, Ok(prepared)) => match roles::profile_task(
            run.args,
            run.problem,
            run.evaluated.at("profile"@),
            prepared,
            candidate_id(run),
        ) {
            Err(error) => unexplained(run, error),
            Ok(task) => (
                RunView { prepared, phase: Phase::Profiling, ..run },
                plain(Seq::empty(), WorkView::Sessions(seq![task])),
            ),
        },
        (Phase::Explaining, Err(error)) => unexplained(run, error),
        (Phase::Explaining, Ok(value)) => kept(
            run,
            roles::explained(value, run.evaluated.at("profile"@), run.prepared),
            Seq::empty(),
        ),
        _ => (run, plain(Seq::empty(), WorkView::Keep)),
    }
}

/// What comes of sessions.
pub open spec fn sessions_ended(run: RunView, result: Result<Seq<ResultView>, Seq<char>>) -> (
    RunView,
    StepView,
) {
    match (run.phase, result) {
        (Phase::Classifying, Err(error)) => classified(run, Err(error), Seq::empty()),
        (Phase::Classifying, Ok(list)) => {
            let parts = seq![
                FileView::Value("reference-session.json"@, session::result_record(list[0])),
            ];
            match list[0].value {
                None => (
                    RunView {
                        trouble: "reference classification failed"@,
                        phase: Phase::Unclassified,
                        ..run
                    },
                    StepView { files: Seq::empty(), parts, work: WorkView::Keep },
                ),
                Some(value) => (
                    RunView {
                        inspected: roles::has_inspected(list[0].events),
                        phase: Phase::Checking,
                        ..run
                    },
                    StepView {
                        files: Seq::empty(),
                        parts,
                        work: WorkView::Call(
                            "validate"@,
                            roles::validation_record("reference"@, value),
                        ),
                    },
                ),
            }
        },
        (Phase::Generating, Err(error)) => aborted(run, Seq::empty(), error),
        (Phase::Generating, Ok(list)) => taken(
            RunView { sessions: list, position: 0, batch: Seq::empty(), ..run },
            Seq::empty(),
        ),
        (Phase::Profiling, Err(error)) => unexplained(run, error),
        (Phase::Profiling, Ok(list)) => (
            RunView { phase: Phase::Explaining, ..run },
            StepView {
                files: Seq::empty(),
                parts: seq![
                    FileView::Value(
                        candidate_file(run, "/profile-session.json"@),
                        session::result_record(list[0]),
                    ),
                ],
                work: WorkView::Call(
                    "validate"@,
                    roles::validation_record("profile"@, fields::or_null(list[0].value)),
                ),
            },
        ),
        (Phase::Distilling, Err(error)) => undistilled(run, error),
        (Phase::Distilling, Ok(list)) => {
            let parts = seq![
                FileView::Value(
                    "memory-session-"@ + numeral::decimal(run.iteration) + ".json"@,
                    session::result_record(list[0]),
                ),
            ];
            match list[0].value {
                None => (
                    RunView {
                        trouble: "memory extraction failed"@,
                        phase: Phase::Undistilled,
                        ..run
                    },
                    StepView { files: Seq::empty(), parts, work: WorkView::Keep },
                ),
                Some(value) => (
                    RunView { phase: Phase::Finding, ..run },
                    StepView {
                        files: Seq::empty(),
                        parts,
                        work: WorkView::Find(value.at("findings"@)),
                    },
                ),
            }
        },
        _ => (run, plain(Seq::empty(), WorkView::Keep)),
    }
}

/// What comes of the outcomes of a batch.
pub open spec fn recorded(run: RunView, outcomes: Seq<OutcomeView>) -> (RunView, StepView) {
    match state::batch_refusal(run.tree.nodes, run.parent, outcomes) {
        Some(error) => aborted(run, Seq::empty(), error),
        None => {
            let after = RunView {
                tree: state::recorded(run.tree, run.parent, outcomes),
                candidates: run.candidates + run.batch,
                ..run
            };
            let files = seq![FileView::Tree("tree.json"@)];
            if run.args.memory_off {
                settled(after, files)
            } else {
                (RunView { phase: Phase::Claiming, ..after }, plain(files, WorkView::Claim))
            }
        },
    }
}

/// What comes of findings.
pub open spec fn found(run: RunView, findings: Seq<FindingView>) -> (RunView, StepView) {
    match memory::merged(
        run.snapshot,
        run.iteration,
        findings,
        Seq::new(run.batch.len(), |i: int| memory::fact(run.batch[i])),
        memory::known(run.batch, run.batch.len() as int),
    ) {
        Err(error) => undistilled(run, error),
        Ok(next) => (
            RunView { next, phase: Phase::Committing, ..run },
            plain(
                Seq::empty(),
                WorkView::Commit(run.snapshot.version, memory::snapshot_record(next)),
            ),
        ),
    }
}

/// What comes of an event.
pub open spec fn advanced(run: RunView, event: EventView) -> (RunView, StepView) {
    match event {
        EventView::Reply(result) => replied(run, result),
        EventView::Advice(Err(error), _) => aborted(run, Seq::empty(), error),
        EventView::Advice(Ok(feedback), told) => (
            RunView { phase: Phase::Generating, ..run },
            plain(
                Seq::empty(),
                WorkView::Sessions(
                    Seq::new(
                        wanted(run),
                        |i: int| candidate_task(run, feedback, told, i as nat),
                    ),
                ),
            ),
        ),
        EventView::Sessions(result) => sessions_ended(run, result),
        EventView::Scores(scores) => {
            let (tree, parent) = mcts::selected(run.tree, scores);
            chosen(RunView { tree, ..run }, parent, Seq::empty())
        },
        EventView::Kept(done) => if run.phase == Phase::Unclassified {
            classified(run, Err(reason(run, done)), Seq::empty())
        } else if run.phase == Phase::Unevaluated {
            unevaluated(run, reason(run, done))
        } else {
            undistilled(run, reason(run, done))
        },
        EventView::Outcomes(Err(error)) => aborted(run, Seq::empty(), error),
        EventView::Outcomes(Ok(outcomes)) => recorded(run, outcomes),
        EventView::Claimed(Some(error), _) => forgotten(run, error),
        EventView::Claimed(None, told) => (
            RunView { phase: Phase::Scoping, ..run },
            plain(
                Seq::empty(),
                WorkView::Scope(memory::extraction_text(told, JsonView::Array(run.batch))),
            ),
        ),
        EventView::Scoped(Err(error)) => undistilled(run, error),
        EventView::Scoped(Ok(told)) => (
            RunView { phase: Phase::Distilling, ..run },
            plain(
                Seq::empty(),
                WorkView::Sessions(seq![roles::memory_task(run.args, run.iteration, told)]),
            ),
        ),
        EventView::Findings(Err(error)) => undistilled(run, error),
        EventView::Findings(Ok(findings)) => found(run, findings),
        EventView::Committed(Some(error)) => undistilled(run, error),
        EventView::Committed(None) => reloaded(
            RunView { snapshot: run.next, ..run },
            Seq::empty(),
        ),
        EventView::Failed(done) => forgotten(run, reason(run, done)),
        EventView::Loaded(Err(error)) => aborted(run, Seq::empty(), error),
        EventView::Loaded(Ok(None)) => settled(run, Seq::empty()),
        EventView::Loaded(Ok(Some(snapshot))) => settled(
            RunView { snapshot, ..run },
            seq![FileView::Value("memory.json"@, memory::snapshot_record(snapshot))],
        ),
        EventView::Gain(gain) => if run.tree.continues(gain) {
            begun(run, Seq::empty())
        } else {
            (RunView { phase: Phase::Over, ..run }, plain(Seq::empty(), WorkView::Finish))
        },
    }
}

/// Whether a run waits for a kind of reply.
pub open spec fn awaits_reply(phase: Phase) -> bool {
    phase == Phase::Preparing || phase == Phase::Measuring || phase == Phase::Checking || phase
        == Phase::Submitting || phase == Phase::Evaluating || phase == Phase::Analyzing || phase
        == Phase::Explaining
}

/// Whether a run waits for sessions.
pub open spec fn awaits_sessions(phase: Phase) -> bool {
    phase == Phase::Classifying || phase == Phase::Generating || phase == Phase::Profiling || phase
        == Phase::Distilling
}

/// Whether an event is what a run waits for, and leaves room for what it counts.
pub open spec fn admitted(run: RunView, event: EventView) -> bool {
    match event {
        EventView::Reply(result) => {
            &&& awaits_reply(run.phase)
            &&& run.phase == Phase::Explaining ==> match result {
                Ok(value) => value is Object || value is Null,
                Err(_) => true,
            }
        },
        EventView::Advice(_, _) => run.phase == Phase::Advising,
        EventView::Sessions(result) => {
            &&& awaits_sessions(run.phase)
            &&& match result {
                Ok(list) => if run.phase == Phase::Generating {
                    run.tree.nodes.len() + list.len() <= EXACT && run.tree.nodes.len() + list.len()
                        <= usize::MAX
                } else {
                    list.len() > 0
                },
                Err(_) => true,
            }
        },
        EventView::Scores(scores) => {
            &&& run.phase == Phase::Choosing
            &&& scores.covers(run.tree.nodes.len())
            &&& run.tree.pw_gate_closures + run.tree.nodes.len() <= u64::MAX
            &&& run.tree.virtual_child_wins < u64::MAX
            &&& run.tree.root_expansions < u64::MAX
        },
        EventView::Kept(_) => run.phase == Phase::Unclassified || run.phase == Phase::Unevaluated
            || run.phase == Phase::Undistilled,
        EventView::Outcomes(result) => {
            &&& run.phase == Phase::Reading
            &&& run.tree.current_iteration < i64::MAX
            &&& run.tree.current_iteration < usize::MAX
            &&& match result {
                Ok(list) => list.len() == run.batch.len(),
                Err(_) => true,
            }
        },
        EventView::Claimed(_, _) => run.phase == Phase::Claiming,
        EventView::Scoped(_) => run.phase == Phase::Scoping,
        EventView::Findings(_) => run.phase == Phase::Finding && run.snapshot.version < i64::MAX,
        EventView::Committed(_) => run.phase == Phase::Committing,
        EventView::Failed(_) => run.phase == Phase::Failing,
        EventView::Loaded(_) => run.phase == Phase::Loading,
        EventView::Gain(gain) => run.phase == Phase::Deciding && gain.ordered(),
    }
}

/// Whether a candidate is at hand.
pub open spec fn at_hand(phase: Phase) -> bool {
    phase == Phase::Submitting || phase == Phase::Unevaluated || phase == Phase::Evaluating || phase
        == Phase::Analyzing || phase == Phase::Profiling || phase == Phase::Explaining
}

/// Whether a session made a candidate.
pub open spec fn made_candidate(result: ResultView) -> bool {
    result.error is None && result.value is Some
}

/// How many of the first `end` sessions made a candidate.
pub open spec fn made(sessions: Seq<ResultView>, end: int) -> nat
    decreases end,
{
    if end <= 0 {
        0
    } else {
        made(sessions, end - 1) + if made_candidate(sessions[end - 1]) {
            1nat
        } else {
            0nat
        }
    }
}

/// Whether what is known of a candidate says that it is the node `id`.
pub open spec fn names(value: JsonView, id: nat) -> bool {
    value.at("id"@) == JsonView::Text("candidate:"@ + numeral::decimal(id))
}

/// What holds of every run that waits for something: its tree is sound, what is known of a node
/// names it, and the batch holds every candidate that was made so far.
pub open spec fn sound(run: RunView) -> bool {
    &&& run.args.gpus@.len() > 0
    &&& run.tree.sound()
    &&& run.candidates.len() + 1 == run.tree.nodes.len()
    &&& forall|i: int|
        0 <= i < run.candidates.len() ==> names(#[trigger] run.candidates[i], (i + 1) as nat)
    &&& match run.parent {
        Some(id) => 0 < id < run.tree.nodes.len(),
        None => true,
    }
    &&& 0 <= run.position <= run.sessions.len()
    &&& run.batch.len() <= run.position
    &&& run.batch.len() == made(run.sessions, run.position)
    &&& at_hand(run.phase) || run.phase == Phase::Reading ==> forall|i: int|
        0 <= i < run.batch.len() ==> names(
            #[trigger] run.batch[i],
            (run.tree.nodes.len() + i) as nat,
        )
    &&& at_hand(run.phase) ==> {
        &&& run.position < run.sessions.len()
        &&& made_candidate(run.sessions[run.position])
        &&& run.tree.nodes.len() + run.sessions.len() <= EXACT
        &&& run.tree.nodes.len() + run.sessions.len() <= usize::MAX
    }
    &&& run.phase == Phase::Reading ==> {
        &&& run.batch.len() > 0
        &&& run.position == run.sessions.len()
        &&& run.tree.nodes.len() + run.sessions.len() <= EXACT
        &&& run.tree.nodes.len() + run.sessions.len() <= usize::MAX
    }
}

} // verus!
