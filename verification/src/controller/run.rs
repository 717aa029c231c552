//! A run, step by step.
use crate::cli::OptimizeArgs;
use crate::controller;
use crate::controller::laws;
use crate::controller::machine;
use crate::controller::machine::{
    Event, EventView, File, FileView, Phase, Run, RunView, Step, StepView, Work, WorkView,
};
use crate::controller::{
    candidate_mode, chosen_strategy, describe_run, failed_evaluation, prepare_payload,
};
use crate::fields::{natural, optional_text, signed, text, Fields};
use crate::json;
use crate::json::{Json, JsonView};
use crate::memory;
use crate::memory::{evidence_ids, extraction_input, facts, Finding, Snapshot, SnapshotView};
use crate::number::{Real, EXACT};
use crate::numeral::count;
use crate::paths::below;
use crate::pieces;
use crate::roles;
use crate::roles::{
    analysis_payload, candidate_file, classify, evaluate, explain, inspected, memory_spec,
    profile_spec, reference_spec, submitted_code, validation,
};
use crate::search::config::SearchConfig;
use crate::search::mcts;
use crate::search::mcts::Scores;
use crate::search::node::{NodeId, Outcome};
use crate::search::record;
use crate::search::state;
use crate::search::state::{SearchState, StateView};
use crate::session;
use crate::session::{array_of, copy_items, value_or_null, SessionResult, SessionSpec};
use crate::written;
use crate::written::to_text;
use vstd::prelude::*;

verus! {

fn step(files: Vec<File>, work: Work) -> (step: Step)
    ensures
        step@ == machine::plain(machine::files_view(files@), work@),
{
    let step = Step { files, parts: Vec::new(), work };
    assert(step@.parts =~= Seq::<FileView>::empty());
    step
}

fn with_part(part: File, work: Work) -> (step: Step)
    ensures
        step@ == (StepView { files: Seq::empty(), parts: seq![part@], work: work@ }),
{
    let ghost shown = part@;
    let mut parts: Vec<File> = Vec::new();
    parts.push(part);
    let step = Step { files: Vec::new(), parts, work };
    assert(step@.files =~= Seq::<FileView>::empty());
    assert(step@.parts =~= seq![shown]);
    step
}

fn no_files() -> (files: Vec<File>)
    ensures
        machine::files_view(files@) == Seq::<FileView>::empty(),
{
    let files: Vec<File> = Vec::new();
    assert(machine::files_view(files@) =~= Seq::<FileView>::empty());
    files
}

fn one_file(file: File) -> (files: Vec<File>)
    ensures
        machine::files_view(files@) == seq![file@],
{
    let ghost shown = file@;
    let mut files: Vec<File> = Vec::new();
    files.push(file);
    assert(machine::files_view(files@) =~= seq![shown]);
    files
}

fn add_file(files: &mut Vec<File>, file: File)
    ensures
        machine::files_view(final(files)@) == machine::files_view(old(files)@).push(file@),
{
    let ghost before = machine::files_view(files@);
    let ghost shown = file@;
    files.push(file);
    assert(machine::files_view(files@) =~= before.push(shown));
}

fn value_file(path: &str, value: Json) -> (file: File)
    ensures
        file@ == FileView::Value(path@, value@),
{
    File::Value(path.to_owned(), value)
}

fn sessions_one(task: SessionSpec) -> (work: Work)
    ensures
        work@ == WorkView::Sessions(seq![task@]),
{
    let ghost shown = task@;
    let mut tasks: Vec<SessionSpec> = Vec::new();
    tasks.push(task);
    assert(session::specs_view(tasks@) =~= seq![shown]);
    Work::Sessions(tasks)
}

impl Run {
    /// A run that has not begun, and its first step: the task is asked for. `config` is what the
    /// search's configuration is written as.
    pub fn new(
        args: OptimizeArgs,
        root: String,
        settings: SearchConfig,
        config: Json,
        scenario: Json,
    ) -> (made: Result<(Self, Step), String>)
        requires
            args.gpus@.len() > 0,
        ensures
            match made {
                Ok((run, step)) => {
                    &&& settings.valid()
                    &&& machine::sound(run@)
                    &&& run@.args == args && run@.root == root@ && run@.config == config@
                        && run@.scenario == scenario@
                    &&& run@.tree == StateView::initial(
                        controller::strategy_of(args.strategy@),
                        settings,
                    )
                    &&& run@.candidates == Seq::<JsonView>::empty()
                    &&& run@.snapshot == (SnapshotView { version: 0, entries: Seq::empty() })
                    &&& run@.phase == Phase::Preparing
                    &&& step@ == machine::plain(
                        Seq::empty(),
                        WorkView::Call("prepare"@, controller::prepare_record(args)),
                    )
                },
                Err(error) => !settings.valid() && error@ == "search parameters must be finite"@,
            },
    {
        let strategy = chosen_strategy(&args);
        let payload = prepare_payload(&args);
        match SearchState::new(strategy, settings) {
            Err(error) => Err(error),
            Ok(tree) => {
                let run = Run {
                    args,
                    root,
                    config,
                    scenario,
                    tree,
                    problem: Json::Null,
                    reference: Json::Null,
                    classification: Ok(Json::Null),
                    inspected: false,
                    candidates: Vec::new(),
                    snapshot: Snapshot::default(),
                    iteration: 0,
                    parent: None,
                    sessions: Vec::new(),
                    position: 0,
                    batch: Vec::new(),
                    evaluated: Json::Null,
                    prepared: Json::Null,
                    next: Snapshot::default(),
                    trouble: String::new(),
                    phase: Phase::Preparing,
                };
                assert(run@.candidates =~= Seq::<JsonView>::empty());
                Ok((run, step(no_files(), Work::Call("prepare", payload))))
            },
        }
    }

    fn abort(&mut self, files: Vec<File>, reason: String) -> (next: Step)
        ensures
            (final(self)@, next@) == machine::aborted(
                old(self)@,
                machine::files_view(files@),
                reason@,
            ),
    {
        let ghost before = self@;
        self.phase = Phase::Over;
        assert(self@ =~= RunView { phase: Phase::Over, ..before });
        step(files, Work::Abort(reason))
    }

    fn reference_payload(&self) -> (payload: Json)
        requires
            self.args.gpus@.len() > 0,
        ensures
            payload@ == machine::reference_record(self@),
    {
        let all = Fields::new().with("backend", text(self.args.backend())).with(
            "problem",
            self.problem.clone(),
        ).with(
            "output_dir",
            text(below(self.args.output.as_str(), "reference").as_str()),
        ).with("fixture", self.scenario.at("reference").clone()).with(
            "ncu_full",
            Json::Bool(self.args.ncu_full),
        ).with("gpu_id", natural(self.args.gpus[0] as u64));
        assert(all@ =~= machine::reference_record(self@)->Object_0);
        all.object()
    }

    fn bottleneck(&self) -> (found: Option<Json>)
        ensures
            json::optional(found) == machine::bottleneck(self@),
    {
        match &self.classification {
            Ok(value) => match value.get("final_bottleneck") {
                Some(found) => Some(found.clone()),
                None => None,
            },
            Err(_) => None,
        }
    }

    fn analysis(&self) -> (value: Json)
        ensures
            value@ == (match self@.classification {
                Ok(value) => value,
                Err(_) => JsonView::Null,
            }),
    {
        match &self.classification {
            Ok(value) => value.clone(),
            Err(_) => Json::Null,
        }
    }

    fn classification_record(&self) -> (value: Json)
        ensures
            value@ == machine::classification_record(self@.classification),
    {
        let error = match &self.classification {
            Ok(_) => Json::Null,
            Err(error) => text(error.as_str()),
        };
        let all = Fields::new().with("analysis", self.analysis()).with("error", error);
        assert(all@ =~= machine::classification_record(self@.classification)->Object_0);
        all.object()
    }

    fn known(&self, id: Option<NodeId>) -> (found: Option<&Json>)
        ensures
            match found {
                Some(value) => machine::known(self@, id) == Some(value@),
                None => machine::known(self@, id) is None,
            },
    {
        match id {
            Some(id) => if 1 <= id && id <= self.candidates.len() {
                Some(&self.candidates[id - 1])
            } else {
                None
            },
            None => None,
        }
    }

    fn mode(&self) -> (mode: &'static str)
        requires
            match self.parent {
                Some(id) => id < self.tree.nodes@.len(),
                None => true,
            },
        ensures
            mode@ == machine::mode(self@),
    {
        candidate_mode(&self.tree, self.parent, self.known(self.parent))
    }

    fn parent_record(&self) -> (value: Json)
        ensures
            value@ == machine::parent_record(self@),
    {
        match self.known(self.parent) {
            Some(value) => {
                let all = Fields::new().with("submission", value.at("submission").clone()).with(
                    "outcome",
                    value.at("evaluation").at("outcome").clone(),
                ).with("analysis", value.at("analysis").clone()).with(
                    "validation",
                    value.at("evaluation").at("validation").clone(),
                );
                assert(all@ =~= machine::parent_record(self@)->Object_0);
                all.object()
            },
            None => Json::Null,
        }
    }

    fn feedback_payload(&self) -> (payload: Json)
        requires
            match self.parent {
                Some(id) => id < self.tree.nodes@.len(),
                None => true,
            },
        ensures
            payload@ == machine::feedback_record(self@),
    {
        let all = Fields::new().with("parent", self.parent_record()).with(
            "mode",
            text(self.mode()),
        ).with("hint", optional_text(&self.args.hint));
        assert(all@ =~= machine::feedback_record(self@)->Object_0);
        all.object()
    }

    fn candidate_input(&self, feedback: &Json, told: &str) -> (value: Json)
        ensures
            value@ == machine::candidate_input(self@, feedback@, told@),
    {
        let shown = if self.args.memory_off {
            String::new()
        } else {
            told.to_owned()
        };
        assert(self.args.memory_off ==> shown@ =~= Seq::<char>::empty());
        let all = Fields::new().with(
            "reference",
            self.problem.at("canonical_solution").clone(),
        ).with("task", self.problem.at("description").clone()).with(
            "parent",
            self.parent_record(),
        ).with("reference_analysis", self.analysis()).with("memory", text(shown.as_str())).with(
            "feedback",
            feedback.at("text").clone(),
        ).with(
            "submission",
            text(
                "Return one complete CodeCompletion. Evaluation is controller-owned; do not run full candidate evaluation or modify evaluator rules. Use native file/search tools for source research. No delegation or sibling communication.",
            ),
        );
        assert(all@ =~= machine::candidate_input(self@, feedback@, told@)->Object_0);
        all.object()
    }

    fn candidate_spec(&self, mode: &str, input: &str, index: usize) -> (task: SessionSpec)
        ensures
            forall|feedback: JsonView, told: Seq<char>|
                mode@ == machine::mode(self@) && input@ == written::compact(
                    #[trigger] machine::candidate_input(self@, feedback, told),
                ) ==> task@ == machine::candidate_task(self@, feedback, told, index as nat),
    {
        let name = "workspaces/candidate-".to_owned().concat(
            count(self.iteration).as_str(),
        ).concat("-").concat(count(index).as_str());
        let task = SessionSpec {
            role: "candidate".to_owned(),
            model: self.args.model.clone(),
            cwd: below(self.args.output.as_str(), name.as_str()),
            instructions: self.problem.at("instructions").at(mode).text_or_empty().to_owned(),
            input: input.to_owned(),
            schema: self.problem.at("schemas").at("candidate").clone(),
            tools: Vec::new(),
            evidence: Json::Null,
        };
        assert(task@.tools =~= Seq::<JsonView>::empty());
        task
    }

    fn candidate_specs(&self, feedback: &Json, told: &str) -> (tasks: Vec<SessionSpec>)
        requires
            match self.parent {
                Some(id) => id < self.tree.nodes@.len(),
                None => true,
            },
        ensures
            session::specs_view(tasks@) == Seq::new(
                machine::wanted(self@),
                |i: int| machine::candidate_task(self@, feedback@, told@, i as nat),
            ),
    {
        let mode = self.mode();
        let input = to_text(&self.candidate_input(feedback, told));
        let wanted: usize = self.tree.config.num_candidates();
        let mut tasks: Vec<SessionSpec> = Vec::new();
        while tasks.len() < wanted
            invariant
                tasks@.len() <= wanted,
                mode@ == machine::mode(self@),
                input@ == written::compact(machine::candidate_input(self@, feedback@, told@)),
                forall|i: int|
                    0 <= i < tasks@.len() ==> (#[trigger] tasks@[i])@ == machine::candidate_task(
                        self@,
                        feedback@,
                        told@,
                        i as nat,
                    ),
            decreases wanted - tasks@.len(),
        {
            let index: usize = tasks.len();
            tasks.push(self.candidate_spec(mode, input.as_str(), index));
        }
        assert(session::specs_view(tasks@) =~= Seq::new(
            machine::wanted(self@),
            |i: int| machine::candidate_task(self@, feedback@, told@, i as nat),
        ));
        tasks
    }

    fn choose_parent(&mut self, parent: Option<NodeId>, files: Vec<File>) -> (next: Step)
        requires
            match parent {
                Some(id) => id < old(self).tree.nodes@.len(),
                None => true,
            },
        ensures
            (final(self)@, next@) == machine::chosen(
                old(self)@,
                parent,
                machine::files_view(files@),
            ),
    {
        let ghost before = self@;
        self.parent = parent;
        self.phase = Phase::Advising;
        assert(self@ =~= RunView { parent, phase: Phase::Advising, ..before });
        step(files, Work::Call("feedback", self.feedback_payload()))
    }

    fn begin(&mut self, files: Vec<File>) -> (next: Step)
        ensures
            (final(self)@, next@) == machine::begun(old(self)@, machine::files_view(files@)),
    {
        let ghost before = self@;
        self.iteration = self.tree.current_iteration;
        assert(self@ =~= RunView { iteration: before.tree.current_iteration, ..before });
        if self.tree.current_iteration == 0 {
            self.choose_parent(None, files)
        } else {
            let ghost between = self@;
            self.phase = Phase::Choosing;
            assert(self@ =~= RunView { phase: Phase::Choosing, ..between });
            step(files, Work::Score)
        }
    }

    fn take_classification(&mut self, classification: Result<Json, String>, files: Vec<File>) -> (next:
        Step)
        ensures
            (final(self)@, next@) == machine::classified(
                old(self)@,
                json::outcome(classification),
                machine::files_view(files@),
            ),
    {
        let ghost before = self@;
        let ghost given = json::outcome(classification);
        self.classification = classification;
        assert(self@ =~= RunView { classification: given, ..before });
        let mut all = files;
        add_file(&mut all, value_file("classification.json", self.classification_record()));
        self.begin(all)
    }

    fn id(&self) -> (id: usize)
        requires
            self.tree.nodes@.len() + self.batch@.len() <= usize::MAX,
        ensures
            id as nat == machine::candidate_id(self@),
    {
        self.tree.nodes.len() + self.batch.len()
    }

    fn file(&self, name: &str) -> (path: String)
        requires
            self.tree.nodes@.len() + self.batch@.len() <= usize::MAX,
        ensures
            path@ == machine::candidate_file(self@, name@),
    {
        candidate_file(self.id(), name)
    }

    fn outcomes(&self) -> (list: Vec<Json>)
        ensures
            json::items_view(list@) == Seq::new(
                self@.batch.len(),
                |i: int| self@.batch[i].at("evaluation"@).at("outcome"@),
            ),
    {
        let mut list: Vec<Json> = Vec::new();
        let mut index: usize = 0;
        while index < self.batch.len()
            invariant
                index <= self.batch@.len(),
                list@.len() == index,
                forall|i: int|
                    0 <= i < index ==> (#[trigger] list@[i])@ == self.batch@[i]@.at(
                        "evaluation"@,
                    ).at("outcome"@),
            decreases self.batch@.len() - index,
        {
            list.push(self.batch[index].at("evaluation").at("outcome").clone());
            index += 1;
        }
        assert(json::items_view(list@) =~= Seq::new(
            self@.batch.len(),
            |i: int| self@.batch[i].at("evaluation"@).at("outcome"@),
        ));
        list
    }

    fn close(&mut self, files: Vec<File>) -> (next: Step)
        ensures
            (final(self)@, next@) == machine::closed(old(self)@, machine::files_view(files@)),
    {
        if self.batch.len() == 0 {
            let reason = "all candidate sessions failed in iteration ".to_owned().concat(
                count(self.iteration).as_str(),
            );
            self.abort(files, reason)
        } else {
            let ghost before = self@;
            let list = self.outcomes();
            self.phase = Phase::Reading;
            assert(self@ =~= RunView { phase: Phase::Reading, ..before });
            step(files, Work::Read(list))
        }
    }

    /// Whether there is room for the nodes that the sessions make.
    spec fn fits(self) -> bool {
        &&& self.position <= self.sessions@.len()
        &&& self.batch@.len() <= self.position
        &&& self.tree.nodes@.len() + self.sessions@.len() <= usize::MAX
    }

    /// Whether a session is being dealt with that made a candidate.
    spec fn holds(self) -> bool {
        &&& self.fits()
        &&& self.position < self.sessions@.len()
    }

    fn take(&mut self, files: Vec<File>) -> (next: Step)
        requires
            old(self).fits(),
        ensures
            (final(self)@, next@) == machine::taken(old(self)@, machine::files_view(files@)),
    {
        let ghost start = self@;
        let ghost given = machine::files_view(files@);
        let mut all = files;
        while self.position < self.sessions.len()
            invariant
                self.fits(),
                start == old(self)@,
                given == machine::files_view(files@),
                machine::taken(self@, machine::files_view(all@)) == machine::taken(start, given),
            decreases self.sessions@.len() - self.position,
        {
            let ghost before = self@;
            let ghost written = machine::files_view(all@);
            let position: usize = self.position;
            assert(before.sessions[position as int] == self.sessions@[position as int]@);
            let record = self.sessions[position].record();
            let failed = self.sessions[position].error.is_some();
            match &self.sessions[position].value {
                Some(value) => {
                    if !failed {
                        let payload = validation("candidate", value.clone());
                        add_file(&mut all, File::Value(self.file("/session.json"), record));
                        self.phase = Phase::Submitting;
                        assert(self@ =~= RunView { phase: Phase::Submitting, ..before });
                        return step(all, Work::Call("validate", payload));
                    }
                },
                None => {},
            }
            let path = "generation-errors/".to_owned().concat(
                count(self.iteration).as_str(),
            ).concat("-").concat(count(position).as_str()).concat(".json");
            add_file(&mut all, File::Value(path, record));
            self.position = position + 1;
            assert(self@ =~= RunView { position: position + 1, ..before });
        }
        self.close(all)
    }

    fn evidence(&self, analysis: Json) -> (value: Json)
        requires
            self.holds(),
        ensures
            value@ == machine::evidence_record(self@, analysis@),
    {
        let ghost given = analysis@;
        let result = &self.sessions[self.position];
        assert(self@.sessions[self.position as int] == result@);
        let name = "candidate:".to_owned().concat(count(self.id()).as_str());
        let all = Fields::new().with("id", text(name.as_str())).with(
            "evaluation",
            self.evaluated.clone(),
        ).with("analysis", analysis).with("submission", value_or_null(&result.value)).with(
            "session",
            result.record(),
        ).with("memory_version", signed(self.snapshot.version));
        assert(all@ =~= machine::evidence_record(self@, given)->Object_0);
        all.object()
    }

    fn keep(&mut self, analysis: Json, files: Vec<File>) -> (next: Step)
        requires
            old(self).holds(),
        ensures
            (final(self)@, next@) == machine::kept(
                old(self)@,
                analysis@,
                machine::files_view(files@),
            ),
    {
        let ghost before = self@;
        let evidence = self.evidence(analysis);
        let ghost shown = evidence@;
        let mut all = files;
        add_file(&mut all, File::Value(self.file("/evidence.json"), evidence.clone()));
        self.batch.push(evidence);
        self.position = self.position + 1;
        assert(self@.batch =~= before.batch.push(shown));
        assert(self@ =~= RunView {
            batch: before.batch.push(shown),
            position: before.position + 1,
            ..before
        });
        self.take(all)
    }

    fn take_evaluation(&mut self, value: Json, files: Vec<File>) -> (next: Step)
        requires
            old(self).holds(),
        ensures
            (final(self)@, next@) == machine::evaluated(
                old(self)@,
                value@,
                machine::files_view(files@),
            ),
    {
        let ghost before = self@;
        let ghost given = value@;
        let success = value.at("profile").at("success").is_true();
        self.evaluated = value;
        assert(self@ =~= RunView { evaluated: given, ..before });
        if success {
            let ghost between = self@;
            let payload = analysis_payload(
                &self.args,
                self.evaluated.at("profile"),
                &self.bottleneck(),
            );
            self.phase = Phase::Analyzing;
            assert(self@ =~= RunView { phase: Phase::Analyzing, ..between });
            step(files, Work::Call("analyze", payload))
        } else {
            self.keep(Json::Null, files)
        }
    }

    fn fail_evaluation(&mut self, error: &str) -> (next: Step)
        requires
            old(self).holds(),
        ensures
            (final(self)@, next@) == machine::unevaluated(old(self)@, error@),
    {
        let value = failed_evaluation(self.args.backend(), error);
        let files = one_file(File::Value(self.file("/evaluation-error.json"), text(error)));
        self.take_evaluation(value, files)
    }

    fn fail_profile(&mut self, error: &str) -> (next: Step)
        requires
            old(self).holds(),
        ensures
            (final(self)@, next@) == machine::unexplained(old(self)@, error@),
    {
        let files = one_file(File::Value(self.file("/profiling-error.json"), text(error)));
        self.keep(Json::Null, files)
    }

    fn winner_record(&self) -> (value: Json)
        requires
            self.tree@.sound(),
        ensures
            value@ == machine::winner_record(self@),
    {
        let winner = self.tree.winner();
        let node = match winner {
            Some(id) => natural(id as u64),
            None => Json::Null,
        };
        let evidence = match self.known(winner) {
            Some(value) => value.clone(),
            None => Json::Null,
        };
        let all = Fields::new().with("node", node).with("evidence", evidence).with(
            "validation",
            text(self.args.backend()),
        );
        assert(all@ =~= machine::winner_record(self@)->Object_0);
        all.object()
    }

    fn settle(&mut self, files: Vec<File>) -> (next: Step)
        requires
            old(self).tree@.sound(),
        ensures
            (final(self)@, next@) == machine::settled(old(self)@, machine::files_view(files@)),
    {
        let ghost before = self@;
        let mut all = files;
        add_file(&mut all, value_file("winner.json", self.winner_record()));
        self.phase = Phase::Deciding;
        assert(self@ =~= RunView { phase: Phase::Deciding, ..before });
        step(all, Work::Gain)
    }

    fn reload(&mut self, files: Vec<File>) -> (next: Step)
        ensures
            (final(self)@, next@) == machine::reloaded(old(self)@, machine::files_view(files@)),
    {
        let ghost before = self@;
        self.phase = Phase::Loading;
        assert(self@ =~= RunView { phase: Phase::Loading, ..before });
        step(files, Work::Load)
    }

    fn forget(&mut self, error: &str) -> (next: Step)
        ensures
            (final(self)@, next@) == machine::forgotten(old(self)@, error@),
    {
        let path = "memory-error-".to_owned().concat(count(self.iteration).as_str()).concat(
            ".json",
        );
        let files = one_file(File::Value(path, text(error)));
        self.reload(files)
    }

    fn give_up(&mut self, error: String) -> (next: Step)
        ensures
            (final(self)@, next@) == machine::undistilled(old(self)@, error@),
    {
        let ghost before = self@;
        let ghost shown = error@;
        self.trouble = error.clone();
        self.phase = Phase::Failing;
        assert(self@ =~= RunView { trouble: shown, phase: Phase::Failing, ..before });
        step(no_files(), Work::Fail(error))
    }

    fn reason(&self, done: Result<(), String>) -> (reason: String)
        ensures
            reason@ == machine::reason(self@, pieces::trouble(done)),
    {
        match done {
            Err(error) => error,
            Ok(_) => self.trouble.clone(),
        }
    }

    fn take_problem(&mut self, problem: Json) -> (next: Step)
        requires
            old(self).args.gpus@.len() > 0,
            old(self).phase == Phase::Preparing,
        ensures
            (final(self)@, next@) == machine::replied(old(self)@, Ok(problem@)),
    {
        let ghost before = self@;
        let ghost given = problem@;
        let record = describe_run(
            &self.args,
            self.root.as_str(),
            self.tree.strategy,
            &self.config,
            &problem,
        );
        let ghost shown = record@;
        let mut files = one_file(value_file("task.json", problem.clone()));
        add_file(&mut files, value_file("run.json", record));
        self.problem = problem;
        self.phase = Phase::Measuring;
        assert(self@ =~= RunView { problem: given, phase: Phase::Measuring, ..before });
        assert(machine::files_view(files@) =~= seq![
            FileView::Value("task.json"@, given),
            FileView::Value("run.json"@, shown),
        ]);
        step(files, Work::Call("reference", self.reference_payload()))
    }

    fn take_reference(&mut self, reference: Json) -> (next: Step)
        requires
            old(self).phase == Phase::Measuring,
        ensures
            (final(self)@, next@) == machine::replied(old(self)@, Ok(reference@)),
    {
        let ghost before = self@;
        let ghost given = reference@;
        let files = one_file(value_file("reference.json", reference.clone()));
        self.reference = reference;
        assert(self@ =~= RunView { reference: given, ..before });
        match reference_spec(&self.args, &self.problem, &self.reference) {
            Err(error) => self.take_classification(Err(error), files),
            Ok(task) => {
                let ghost between = self@;
                self.phase = Phase::Classifying;
                assert(self@ =~= RunView { phase: Phase::Classifying, ..between });
                step(files, sessions_one(task))
            },
        }
    }

    fn take_submission(&mut self, submission: &Json) -> (next: Step)
        requires
            old(self).holds(),
            old(self).args.gpus@.len() > 0,
            old(self).phase == Phase::Submitting,
        ensures
            (final(self)@, next@) == machine::replied(old(self)@, Ok(submission@)),
    {
        let ghost before = self@;
        let code = match submitted_code(submission) {
            Err(error) => {
                return self.fail_evaluation(error.as_str());
            },
            Ok(code) => code,
        };
        let result = evaluate(
            &self.args,
            &self.problem,
            &self.reference,
            &self.scenario,
            code.as_str(),
            self.iteration,
            self.batch.len(),
            self.id(),
        );
        let part = File::Text(self.file("/solution.py"), code);
        match result {
            Err(error) => {
                let ghost shown = error@;
                self.trouble = error;
                self.phase = Phase::Unevaluated;
                assert(self@ =~= RunView { trouble: shown, phase: Phase::Unevaluated, ..before });
                with_part(part, Work::Keep)
            },
            Ok(payload) => {
                self.phase = Phase::Evaluating;
                assert(self@ =~= RunView { phase: Phase::Evaluating, ..before });
                with_part(part, Work::Call("evaluate", payload))
            },
        }
    }

    fn take_analysis(&mut self, prepared: Json) -> (next: Step)
        requires
            old(self).holds(),
            old(self).phase == Phase::Analyzing,
        ensures
            (final(self)@, next@) == machine::replied(old(self)@, Ok(prepared@)),
    {
        let ghost before = self@;
        let ghost given = prepared@;
        match profile_spec(
            &self.args,
            &self.problem,
            self.evaluated.at("profile"),
            &prepared,
            self.id(),
        ) {
            Err(error) => self.fail_profile(error.as_str()),
            Ok(task) => {
                self.prepared = prepared;
                self.phase = Phase::Profiling;
                assert(self@ =~= RunView { prepared: given, phase: Phase::Profiling, ..before });
                step(no_files(), sessions_one(task))
            },
        }
    }

    fn take_reply(&mut self, result: Result<Json, String>) -> (next: Step)
        requires
            machine::sound(old(self)@),
            machine::admitted(old(self)@, EventView::Reply(json::outcome(result))),
        ensures
            (final(self)@, next@) == machine::replied(old(self)@, json::outcome(result)),
    {
        match (self.phase, result) {
            (Phase::Preparing, Err(error)) => self.abort(no_files(), error),
            (Phase::Preparing, Ok(problem)) => self.take_problem(problem),
            (Phase::Measuring, Err(error)) => self.abort(no_files(), error),
            (Phase::Measuring, Ok(reference)) => self.take_reference(reference),
            (Phase::Checking, Err(error)) => self.take_classification(Err(error), no_files()),
            (Phase::Checking, Ok(value)) => {
                let classification = classify(value, self.inspected);
                self.take_classification(classification, no_files())
            },
            (Phase::Submitting, Err(error)) => self.fail_evaluation(error.as_str()),
            (Phase::Submitting, Ok(submission)) => self.take_submission(&submission),
            (Phase::Evaluating, Err(error)) => self.fail_evaluation(error.as_str()),
            (Phase::Evaluating, Ok(value)) => self.take_evaluation(value, no_files()),
            (Phase::Analyzing, Err(error)) => self.fail_profile(error.as_str()),
            (Phase::Analyzing, Ok(prepared)) => self.take_analysis(prepared),
            (Phase::Explaining, Err(error)) => self.fail_profile(error.as_str()),
            (Phase::Explaining, Ok(value)) => {
                let explained = explain(&value, self.evaluated.at("profile"), &self.prepared);
                self.keep(explained, no_files())
            },
            _ => step(no_files(), Work::Keep),
        }
    }

    fn take_class_session(&mut self, result: &SessionResult) -> (next: Step)
        requires
            old(self).phase == Phase::Classifying,
        ensures
            forall|list: Seq<session::ResultView>|
                list.len() > 0 && list[0] == result@ ==> (final(self)@, next@)
                    == #[trigger] machine::sessions_ended(old(self)@, Ok(list)),
    {
        let ghost before = self@;
        let part = value_file("reference-session.json", result.record());
        match &result.value {
            None => {
                self.trouble = "reference classification failed".to_owned();
                self.phase = Phase::Unclassified;
                assert(self@ =~= RunView {
                    trouble: "reference classification failed"@,
                    phase: Phase::Unclassified,
                    ..before
                });
                with_part(part, Work::Keep)
            },
            Some(value) => {
                self.inspected = inspected(&result.events);
                self.phase = Phase::Checking;
                assert(self@ =~= RunView {
                    inspected: roles::has_inspected(result@.events),
                    phase: Phase::Checking,
                    ..before
                });
                with_part(part, Work::Call("validate", validation("reference", value.clone())))
            },
        }
    }

    fn take_profile_session(&mut self, result: &SessionResult) -> (next: Step)
        requires
            old(self).holds(),
            old(self).phase == Phase::Profiling,
        ensures
            forall|list: Seq<session::ResultView>|
                list.len() > 0 && list[0] == result@ ==> (final(self)@, next@)
                    == #[trigger] machine::sessions_ended(old(self)@, Ok(list)),
    {
        let ghost before = self@;
        let part = File::Value(self.file("/profile-session.json"), result.record());
        self.phase = Phase::Explaining;
        assert(self@ =~= RunView { phase: Phase::Explaining, ..before });
        with_part(
            part,
            Work::Call("validate", validation("profile", value_or_null(&result.value))),
        )
    }

    fn take_memory_session(&mut self, result: &SessionResult) -> (next: Step)
        requires
            old(self).phase == Phase::Distilling,
        ensures
            forall|list: Seq<session::ResultView>|
                list.len() > 0 && list[0] == result@ ==> (final(self)@, next@)
                    == #[trigger] machine::sessions_ended(old(self)@, Ok(list)),
    {
        let ghost before = self@;
        let path = "memory-session-".to_owned().concat(count(self.iteration).as_str()).concat(
            ".json",
        );
        let part = File::Value(path, result.record());
        match &result.value {
            None => {
                self.trouble = "memory extraction failed".to_owned();
                self.phase = Phase::Undistilled;
                assert(self@ =~= RunView {
                    trouble: "memory extraction failed"@,
                    phase: Phase::Undistilled,
                    ..before
                });
                with_part(part, Work::Keep)
            },
            Some(value) => {
                self.phase = Phase::Finding;
                assert(self@ =~= RunView { phase: Phase::Finding, ..before });
                with_part(part, Work::Find(value.at("findings").clone()))
            },
        }
    }

    fn take_sessions(&mut self, result: Result<Vec<SessionResult>, String>) -> (next: Step)
        requires
            machine::sound(old(self)@),
            machine::admitted(old(self)@, (Event::Sessions(result))@),
        ensures
            (final(self)@, next@) == machine::advanced(old(self)@, (Event::Sessions(result))@),
    {
        let ghost before = self@;
        match (self.phase, result) {
            (Phase::Classifying, Err(error)) => self.take_classification(Err(error), no_files()),
            (Phase::Classifying, Ok(list)) => {
                assert(session::results_view(list@)[0] == list@[0]@);
                self.take_class_session(&list[0])
            },
            (Phase::Generating, Err(error)) => self.abort(no_files(), error),
            (Phase::Generating, Ok(list)) => {
                let ghost shown = session::results_view(list@);
                self.sessions = list;
                self.position = 0;
                self.batch = Vec::new();
                assert(self@.batch =~= Seq::<JsonView>::empty());
                assert(self@ =~= RunView {
                    sessions: shown,
                    position: 0,
                    batch: Seq::empty(),
                    ..before
                });
                self.take(no_files())
            },
            (Phase::Profiling, Err(error)) => self.fail_profile(error.as_str()),
            (Phase::Profiling, Ok(list)) => {
                assert(session::results_view(list@)[0] == list@[0]@);
                self.take_profile_session(&list[0])
            },
            (Phase::Distilling, Err(error)) => self.give_up(error),
            (Phase::Distilling, Ok(list)) => {
                assert(session::results_view(list@)[0] == list@[0]@);
                self.take_memory_session(&list[0])
            },
            _ => step(no_files(), Work::Keep),
        }
    }

    fn take_scores(&mut self, scores: &Scores) -> (next: Step)
        requires
            machine::sound(old(self)@),
            machine::admitted(old(self)@, EventView::Scores(scores@)),
        ensures
            (final(self)@, next@) == machine::advanced(old(self)@, EventView::Scores(scores@)),
    {
        let ghost before = self@;
        proof {
            mcts::selection_is_sound(before.tree, scores@);
            mcts::selection_keeps_nodes(before.tree, scores@);
        }
        let parent = self.tree.select(scores);
        assert(self@ =~= RunView { tree: mcts::selected(before.tree, scores@).0, ..before });
        assert(self.tree@.nodes.len() == self.tree.nodes@.len());
        self.choose_parent(parent, no_files())
    }

    fn take_advice(&mut self, result: Result<Json, String>, told: &str) -> (next: Step)
        requires
            machine::sound(old(self)@),
        ensures
            (final(self)@, next@) == machine::advanced(
                old(self)@,
                EventView::Advice(json::outcome(result), told@),
            ),
    {
        match result {
            Err(error) => self.abort(no_files(), error),
            Ok(feedback) => {
                let ghost before = self@;
                assert(self.tree@.nodes.len() == self.tree.nodes@.len());
                let tasks = self.candidate_specs(&feedback, told);
                self.phase = Phase::Generating;
                assert(self@ =~= RunView { phase: Phase::Generating, ..before });
                step(no_files(), Work::Sessions(tasks))
            },
        }
    }

    fn keep_batch(&mut self)
        ensures
            final(self)@ == (RunView {
                candidates: old(self)@.candidates + old(self)@.batch,
                ..old(self)@
            }),
            final(self).tree == old(self).tree,
    {
        let ghost before = self@;
        let mut copies = copy_items(&self.batch);
        let ghost added = json::items_view(copies@);
        self.candidates.append(&mut copies);
        assert(self@.candidates =~= before.candidates + added);
        assert(self@ =~= RunView { candidates: before.candidates + before.batch, ..before });
    }

    fn take_outcomes(&mut self, outcomes: Vec<Outcome>) -> (next: Step)
        requires
            machine::sound(old(self)@),
            machine::admitted(
                old(self)@,
                EventView::Outcomes(Ok(state::outcomes_view(outcomes@))),
            ),
        ensures
            (final(self)@, next@) == machine::recorded(
                old(self)@,
                state::outcomes_view(outcomes@),
            ),
    {
        let ghost before = self@;
        let ghost given = state::outcomes_view(outcomes@);
        assert(self.tree@.nodes.len() == self.tree.nodes@.len());
        match self.tree.record_batch(self.parent, outcomes) {
            Err(error) => {
                assert(self@ =~= before);
                self.abort(no_files(), error)
            },
            Ok(_) => {
                proof {
                    record::recording_is_sound(before.tree, before.parent, given);
                }
                assert(self@ =~= RunView {
                    tree: state::recorded(before.tree, before.parent, given),
                    ..before
                });
                self.keep_batch();
                let files = one_file(File::Tree("tree.json".to_owned()));
                if self.args.memory_off {
                    self.settle(files)
                } else {
                    let ghost between = self@;
                    self.phase = Phase::Claiming;
                    assert(self@ =~= RunView { phase: Phase::Claiming, ..between });
                    step(files, Work::Claim)
                }
            },
        }
    }

    fn take_claim(&mut self, done: Result<(), String>, told: &str) -> (next: Step)
        ensures
            (final(self)@, next@) == machine::advanced(
                old(self)@,
                EventView::Claimed(pieces::trouble(done), told@),
            ),
    {
        match done {
            Err(error) => self.forget(error.as_str()),
            Ok(_) => {
                let ghost before = self@;
                let input = extraction_input(&array_of(&self.batch), told);
                self.phase = Phase::Scoping;
                assert(self@ =~= RunView { phase: Phase::Scoping, ..before });
                step(no_files(), Work::Scope(input))
            },
        }
    }

    fn take_scope(&mut self, result: Result<String, String>) -> (next: Step)
        ensures
            (final(self)@, next@) == machine::advanced(old(self)@, (Event::Scoped(result))@),
    {
        match result {
            Err(error) => self.give_up(error),
            Ok(told) => {
                let ghost before = self@;
                let task = memory_spec(&self.args, self.iteration, told.as_str());
                self.phase = Phase::Distilling;
                assert(self@ =~= RunView { phase: Phase::Distilling, ..before });
                step(no_files(), sessions_one(task))
            },
        }
    }

    fn take_findings(&mut self, findings: Vec<Finding>) -> (next: Step)
        requires
            old(self).snapshot.version < i64::MAX,
        ensures
            (final(self)@, next@) == machine::found(
                old(self)@,
                memory::findings_view(findings@),
            ),
    {
        let ghost before = self@;
        let measured = facts(&self.batch);
        let ids = evidence_ids(&self.batch);
        proof {
            assert(memory::findings_view(measured@) =~= Seq::new(
                before.batch.len(),
                |i: int| memory::fact(before.batch[i]),
            ));
        }
        match self.snapshot.merge(self.iteration, findings, measured, &ids) {
            Err(error) => self.give_up(error),
            Ok(next) => {
                let ghost shown = next@;
                let record = next.record();
                self.next = next;
                self.phase = Phase::Committing;
                assert(self@ =~= RunView { next: shown, phase: Phase::Committing, ..before });
                step(no_files(), Work::Commit(self.snapshot.version, record))
            },
        }
    }

    fn take_commit(&mut self, done: Result<(), String>) -> (next: Step)
        ensures
            (final(self)@, next@) == machine::advanced(
                old(self)@,
                EventView::Committed(pieces::trouble(done)),
            ),
    {
        match done {
            Err(error) => self.give_up(error),
            Ok(_) => {
                let ghost before = self@;
                self.snapshot = self.next.clone();
                assert(self@ =~= RunView { snapshot: before.next, ..before });
                self.reload(no_files())
            },
        }
    }

    fn take_snapshot(&mut self, result: Result<Option<Snapshot>, String>) -> (next: Step)
        requires
            old(self).tree@.sound(),
        ensures
            (final(self)@, next@) == machine::advanced(old(self)@, (Event::Loaded(result))@),
    {
        match result {
            Err(error) => self.abort(no_files(), error),
            Ok(None) => self.settle(no_files()),
            Ok(Some(snapshot)) => {
                let ghost before = self@;
                let ghost shown = snapshot@;
                let files = one_file(value_file("memory.json", snapshot.record()));
                self.snapshot = snapshot;
                assert(self@ =~= RunView { snapshot: shown, ..before });
                self.settle(files)
            },
        }
    }

    fn take_kept(&mut self, done: Result<(), String>) -> (next: Step)
        requires
            machine::sound(old(self)@),
            machine::admitted(old(self)@, EventView::Kept(pieces::trouble(done))),
        ensures
            (final(self)@, next@) == machine::advanced(
                old(self)@,
                EventView::Kept(pieces::trouble(done)),
            ),
    {
        let reason = self.reason(done);
        if self.phase == Phase::Unclassified {
            self.take_classification(Err(reason), no_files())
        } else if self.phase == Phase::Unevaluated {
            self.fail_evaluation(reason.as_str())
        } else {
            self.give_up(reason)
        }
    }

    fn take_gain(&mut self, gain: Real) -> (next: Step)
        requires
            gain.ordered(),
        ensures
            (final(self)@, next@) == machine::advanced(old(self)@, EventView::Gain(gain)),
    {
        if self.tree.should_continue(gain) {
            self.begin(no_files())
        } else {
            let ghost before = self@;
            self.phase = Phase::Over;
            assert(self@ =~= RunView { phase: Phase::Over, ..before });
            step(no_files(), Work::Finish)
        }
    }

    /// Takes in what has come of a step, and gives the next one.
    pub fn advance(&mut self, event: Event) -> (next: Step)
        requires
            machine::sound(old(self)@),
            machine::admitted(old(self)@, event@),
        ensures
            (final(self)@, next@) == machine::advanced(old(self)@, event@),
            machine::sound(final(self)@),
    {
        proof {
            laws::advancing_is_sound(self@, event@);
        }
        match event {
            Event::Reply(result) => self.take_reply(result),
            Event::Advice(result, told) => self.take_advice(result, told.as_str()),
            Event::Sessions(result) => self.take_sessions(result),
            Event::Scores(scores) => self.take_scores(&scores),
            Event::Kept(done) => self.take_kept(done),
            Event::Outcomes(result) => match result {
                Err(error) => self.abort(no_files(), error),
                Ok(outcomes) => self.take_outcomes(outcomes),
            },
            Event::Claimed(done, told) => self.take_claim(done, told.as_str()),
            Event::Scoped(result) => self.take_scope(result),
            Event::Findings(result) => match result {
                Err(error) => self.give_up(error),
                Ok(findings) => self.take_findings(findings),
            },
            Event::Committed(done) => self.take_commit(done),
            Event::Failed(done) => {
                let reason = self.reason(done);
                self.forget(reason.as_str())
            },
            Event::Loaded(result) => self.take_snapshot(result),
            Event::Gain(gain) => self.take_gain(gain),
        }
    }

    fn admits_reply(&self, result: &Result<Json, String>) -> (fits: bool)
        ensures
            fits == machine::admitted(self@, EventView::Reply(json::outcome(*result))),
    {
        match self.phase {
            Phase::Preparing | Phase::Measuring | Phase::Checking | Phase::Submitting
            | Phase::Evaluating | Phase::Analyzing => true,
            Phase::Explaining => match result {
                Ok(value) => value.is_null() || value.fields().is_some(),
                Err(_) => true,
            },
            _ => false,
        }
    }

    fn admits_sessions(&self, result: &Result<Vec<SessionResult>, String>) -> (fits: bool)
        requires
            machine::sound(self@),
        ensures
            fits == machine::admitted(self@, (Event::Sessions(*result))@),
    {
        assert(self.tree@.nodes.len() == self.tree.nodes@.len());
        match self.phase {
            Phase::Generating => match result {
                Ok(list) => {
                    let room: u64 = EXACT - self.tree.nodes.len() as u64;
                    let space: usize = usize::MAX - self.tree.nodes.len();
                    list.len() as u64 <= room && list.len() <= space
                },
                Err(_) => true,
            },
            Phase::Classifying | Phase::Profiling | Phase::Distilling => match result {
                Ok(list) => list.len() > 0,
                Err(_) => true,
            },
            _ => false,
        }
    }

    fn admits_scores(&self, scores: &Scores) -> (fits: bool)
        requires
            machine::sound(self@),
        ensures
            fits == machine::admitted(self@, EventView::Scores(scores@)),
    {
        assert(self.tree@.nodes.len() == self.tree.nodes@.len());
        self.phase == Phase::Choosing && scores.cover(self.tree.nodes.len())
            && self.tree.pw_gate_closures <= u64::MAX - self.tree.nodes.len() as u64
            && self.tree.virtual_child_wins < u64::MAX && self.tree.root_expansions < u64::MAX
    }

    /// Whether an event is what the run waits for, and leaves room for what it counts.
    pub fn admits(&self, event: &Event) -> (fits: bool)
        requires
            machine::sound(self@),
        ensures
            fits == machine::admitted(self@, event@),
    {
        match event {
            Event::Reply(result) => self.admits_reply(result),
            Event::Advice(_, _) => self.phase == Phase::Advising,
            Event::Sessions(result) => self.admits_sessions(result),
            Event::Scores(scores) => self.admits_scores(scores),
            Event::Kept(_) => self.phase == Phase::Unclassified || self.phase == Phase::Unevaluated
                || self.phase == Phase::Undistilled,
            Event::Outcomes(result) => self.phase == Phase::Reading && self.tree.current_iteration
                < usize::MAX && (self.tree.current_iteration as u64) < i64::MAX as u64
                && match result {
                Ok(list) => list.len() == self.batch.len(),
                Err(_) => true,
            },
            Event::Claimed(_, _) => self.phase == Phase::Claiming,
            Event::Scoped(_) => self.phase == Phase::Scoping,
            Event::Findings(_) => self.phase == Phase::Finding && self.snapshot.version < i64::MAX,
            Event::Committed(_) => self.phase == Phase::Committing,
            Event::Failed(_) => self.phase == Phase::Failing,
            Event::Loaded(_) => self.phase == Phase::Loading,
            Event::Gain(gain) => self.phase == Phase::Deciding && gain.is_ordered(),
        }
    }
}

} // verus!
