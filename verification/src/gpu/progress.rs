//! An evaluation on a GPU: what is done next, given what has come of what was done.
use crate::gpu;
use crate::gpu::{Verdict, VerdictView};
use crate::gpu_binary;
use crate::gpu_binary::artifacts;
use crate::gpu_binary::inspection;
use crate::gpu_binary::inspection::{Inspection, InspectionView};
use crate::gpu_binary::naming;
use crate::gpu_binary::naming::{Naming, NamingView};
use crate::gpu_profile::collection;
use crate::gpu_profile::collection::{
    Answer, AnswerView, Ask, AskView, Collection, CollectionView, SubjectView,
};
use crate::gpu_profile::{Process, ProcessView};
use crate::identity;
use crate::json;
use crate::json::{Json, JsonView};
use crate::number;
use crate::number::{Reading, ReadingView, Readings, ReadingsView};
use crate::outside;
use crate::paths;
use crate::pieces;
use crate::scripts;
use crate::template::{Templates, TemplatesView};
use vstd::prelude::*;

verus! {

/// What is evaluated, and what is known of it.
pub struct Task {
    pub payload: Json,
    /// Whether a candidate is evaluated; the reference is otherwise.
    pub candidate: bool,
    /// The directory that everything is kept in.
    pub output: String,
    pub python: Option<String>,
    /// The name of the candidate's file.
    pub source_name: String,
    pub assets: Json,
    pub templates: Templates,
    /// The digest of the candidate's source.
    pub digest: String,
    /// What the workload showed.
    pub observation: Json,
    pub verdict: Verdict,
}

/// The model of a [`Task`].
#[verifier::ext_equal]
pub struct TaskView {
    pub payload: JsonView,
    pub candidate: bool,
    pub output: Seq<char>,
    pub python: Option<Seq<char>>,
    pub source_name: Seq<char>,
    pub assets: JsonView,
    pub templates: TemplatesView,
    pub digest: Seq<char>,
    pub observation: JsonView,
    pub verdict: VerdictView,
}

impl View for Task {
    type V = TaskView;

    open spec fn view(&self) -> TaskView {
        TaskView {
            payload: self.payload@,
            candidate: self.candidate,
            output: self.output@,
            python: pieces::optional(self.python),
            source_name: self.source_name@,
            assets: self.assets@,
            templates: self.templates@,
            digest: self.digest@,
            observation: self.observation@,
            verdict: self.verdict@,
        }
    }
}

/// What an evaluation waits for.
pub enum Phase {
    /// That the directory is made.
    Opening,
    /// The task's file.
    Checking,
    /// The candidate's source.
    Sourcing,
    /// What the workload shows.
    Observing,
    /// Where the profiler is, for the reference.
    Probing,
    /// That the reference's script is kept; the profiler was found.
    Drafting(String, Option<String>),
    /// That the benchmark's script is kept.
    Benching,
    /// The programs that look into libraries, and the files of the build.
    Listing,
    /// A process that names kernels.
    Naming(Naming),
    /// That the candidate's script is kept.
    Writing(Vec<String>),
    /// Where the profiler is, for the candidate.
    Seeking(Vec<String>),
    /// What the collection of a profile asked for.
    Collecting(Collection),
    /// What the reference's profile shows.
    Summing(Json),
    /// The files of the build, to inspect the newest library.
    Gathering(Json),
    /// How old libraries are.
    Dating(Json, Vec<String>),
    /// A process that inspects a library.
    Inspecting(Json, Inspection),
    /// The candidate's source once more.
    Rereading(Json),
    /// The task's file once more.
    Rechecking(Json),
    /// The speedup.
    Weighing(Json),
    /// The files of the build, to keep what it left behind.
    Keeping(Json, Option<Reading>),
    /// What those files hold.
    Digesting(Json, Option<Reading>, Vec<String>),
    /// Nothing.
    Over,
}

/// The model of a [`Phase`].
pub enum PhaseView {
    Opening,
    Checking,
    Sourcing,
    Observing,
    Probing,
    Drafting(Seq<char>, Option<Seq<char>>),
    Benching,
    Listing,
    Naming(NamingView),
    Writing(Seq<Seq<char>>),
    Seeking(Seq<Seq<char>>),
    Collecting(CollectionView),
    Summing(JsonView),
    Gathering(JsonView),
    Dating(JsonView, Seq<Seq<char>>),
    Inspecting(JsonView, InspectionView),
    Rereading(JsonView),
    Rechecking(JsonView),
    Weighing(JsonView),
    Keeping(JsonView, Option<ReadingView>),
    Digesting(JsonView, Option<ReadingView>, Seq<Seq<char>>),
    Over,
}

impl View for Phase {
    type V = PhaseView;

    open spec fn view(&self) -> PhaseView {
        match *self {
            Phase::Opening => PhaseView::Opening,
            Phase::Checking => PhaseView::Checking,
            Phase::Sourcing => PhaseView::Sourcing,
            Phase::Observing => PhaseView::Observing,
            Phase::Probing => PhaseView::Probing,
            Phase::Drafting(ncu, sudo) => PhaseView::Drafting(ncu@, pieces::optional(sudo)),
            Phase::Benching => PhaseView::Benching,
            Phase::Listing => PhaseView::Listing,
            Phase::Naming(naming) => PhaseView::Naming(naming@),
            Phase::Writing(names) => PhaseView::Writing(pieces::texts(names@)),
            Phase::Seeking(names) => PhaseView::Seeking(pieces::texts(names@)),
            Phase::Collecting(collection) => PhaseView::Collecting(collection@),
            Phase::Summing(report) => PhaseView::Summing(report@),
            Phase::Gathering(report) => PhaseView::Gathering(report@),
            Phase::Dating(report, libraries) => PhaseView::Dating(
                report@,
                pieces::texts(libraries@),
            ),
            Phase::Inspecting(report, inspection) => PhaseView::Inspecting(report@, inspection@),
            Phase::Rereading(report) => PhaseView::Rereading(report@),
            Phase::Rechecking(report) => PhaseView::Rechecking(report@),
            Phase::Weighing(report) => PhaseView::Weighing(report@),
            Phase::Keeping(report, speedup) => PhaseView::Keeping(
                report@,
                number::optional_reading(speedup),
            ),
            Phase::Digesting(report, speedup, files) => PhaseView::Digesting(
                report@,
                number::optional_reading(speedup),
                pieces::texts(files@),
            ),
            Phase::Over => PhaseView::Over,
        }
    }
}

/// An evaluation.
pub struct Evaluation {
    pub task: Task,
    pub phase: Phase,
}

/// The model of an [`Evaluation`].
#[verifier::ext_equal]
pub struct EvaluationView {
    pub task: TaskView,
    pub phase: PhaseView,
}

impl View for Evaluation {
    type V = EvaluationView;

    open spec fn view(&self) -> EvaluationView {
        EvaluationView { task: self.task@, phase: self.phase@ }
    }
}

/// What is to be done outside.
pub enum Work {
    /// A directory is to be made.
    Open(String),
    /// A file is to be read.
    Read(String),
    /// A workload is to be run.
    Observe(Json),
    /// The profiler is to be looked for, and the program that gives more rights.
    Seek,
    /// A script is to be kept.
    Write(String, String),
    /// The programs that look into libraries are to be looked for, and the build's files listed.
    Tools,
    /// A process is to be run.
    Run(Process),
    /// What the collection of a profile asks for is to be done.
    Collect(Ask),
    /// What the reference's profile shows is to be read.
    Sum(Json),
    /// The build's files are to be listed.
    List,
    /// How old libraries are is to be found out.
    Date(Vec<String>),
    /// The reference's time is to be divided by the candidate's.
    Divide(Reading, Reading),
    /// Files are to be read.
    Digest(Vec<String>),
    /// The evaluation is complete.
    Finish(Json),
    /// The evaluation has failed.
    Abort(String),
}

/// The model of [`Work`].
pub enum WorkView {
    Open(Seq<char>),
    Read(Seq<char>),
    Observe(JsonView),
    Seek,
    Write(Seq<char>, Seq<char>),
    Tools,
    Run(ProcessView),
    Collect(AskView),
    Sum(JsonView),
    List,
    Date(Seq<Seq<char>>),
    Divide(ReadingView, ReadingView),
    Digest(Seq<Seq<char>>),
    Finish(JsonView),
    Abort(Seq<char>),
}

impl View for Work {
    type V = WorkView;

    open spec fn view(&self) -> WorkView {
        match *self {
            Work::Open(path) => WorkView::Open(path@),
            Work::Read(path) => WorkView::Read(path@),
            Work::Observe(request) => WorkView::Observe(request@),
            Work::Seek => WorkView::Seek,
            Work::Write(path, content) => WorkView::Write(path@, content@),
            Work::Tools => WorkView::Tools,
            Work::Run(process) => WorkView::Run(process@),
            Work::Collect(ask) => WorkView::Collect(ask@),
            Work::Sum(report) => WorkView::Sum(report@),
            Work::List => WorkView::List,
            Work::Date(files) => WorkView::Date(pieces::texts(files@)),
            Work::Divide(reference, seconds) => WorkView::Divide(reference@, seconds@),
            Work::Digest(files) => WorkView::Digest(pieces::texts(files@)),
            Work::Finish(record) => WorkView::Finish(record@),
            Work::Abort(reason) => WorkView::Abort(reason@),
        }
    }
}

/// What has come of the work.
pub enum Event {
    Done(Result<(), String>),
    Bytes(Result<Vec<u8>, String>),
    Observed(Result<Json, String>),
    /// Where the profiler and the program that gives more rights are, if they are found.
    Found(Option<String>, Option<String>),
    /// The programs that show what a library holds and that make names plain, where both are
    /// found, and the build's files by their paths below the output, in the order of the walk.
    Tools(Option<(String, String)>, Vec<String>),
    Ran(Result<Json, String>),
    Answered(Answer),
    /// What the texts in the profile read as numbers show, and the latency, if it is finite.
    Summed(Readings, Option<Reading>),
    /// The build's files by their paths below the output, in the order of the walk.
    Files(Vec<String>),
    /// When the libraries were last changed; where the program that shows what a library holds
    /// was found, and at which of the further places it stands.
    Dated(Result<Vec<i128>, String>, Option<String>, Vec<String>),
    /// The quotient, if it is finite.
    Divided(Option<Reading>),
    Contents(Result<Vec<Vec<u8>>, String>),
}

/// The model of an [`Event`].
pub enum EventView {
    Done(Option<Seq<char>>),
    Bytes(Result<Seq<u8>, Seq<char>>),
    Observed(Result<JsonView, Seq<char>>),
    Found(Option<Seq<char>>, Option<Seq<char>>),
    Tools(Option<(Seq<char>, Seq<char>)>, Seq<Seq<char>>),
    Ran(Result<JsonView, Seq<char>>),
    Answered(AnswerView),
    Summed(ReadingsView, Option<ReadingView>),
    Files(Seq<Seq<char>>),
    Dated(Result<Seq<i128>, Seq<char>>, Option<Seq<char>>, Seq<Seq<char>>),
    Divided(Option<ReadingView>),
    Contents(Result<Seq<Seq<u8>>, Seq<char>>),
}

/// The models of what files hold.
pub open spec fn contents_view(list: Seq<Vec<u8>>) -> Seq<Seq<u8>> {
    Seq::new(list.len(), |i: int| list[i]@)
}

impl View for Event {
    type V = EventView;

    open spec fn view(&self) -> EventView {
        match *self {
            Event::Done(done) => EventView::Done(pieces::trouble(done)),
            Event::Bytes(result) => EventView::Bytes(
                match result {
                    Ok(bytes) => Ok(bytes@),
                    Err(error) => Err(error@),
                },
            ),
            Event::Observed(result) => EventView::Observed(json::outcome(result)),
            Event::Found(ncu, sudo) => EventView::Found(
                pieces::optional(ncu),
                pieces::optional(sudo),
            ),
            Event::Tools(tools, files) => EventView::Tools(
                naming::tools_view(tools),
                pieces::texts(files@),
            ),
            Event::Ran(result) => EventView::Ran(json::outcome(result)),
            Event::Answered(answer) => EventView::Answered(answer@),
            Event::Summed(readings, latency) => EventView::Summed(
                readings@,
                number::optional_reading(latency),
            ),
            Event::Files(files) => EventView::Files(pieces::texts(files@)),
            Event::Dated(result, found, standing) => EventView::Dated(
                match result {
                    Ok(times) => Ok(times@),
                    Err(error) => Err(error@),
                },
                pieces::optional(found),
                pieces::texts(standing@),
            ),
            Event::Divided(speedup) => EventView::Divided(number::optional_reading(speedup)),
            Event::Contents(result) => EventView::Contents(
                match result {
                    Ok(list) => Ok(contents_view(list@)),
                    Err(error) => Err(error@),
                },
            ),
        }
    }
}

/// What comes next: the evaluation as it then is, and what is to be done.
pub type Next = (EvaluationView, WorkView);

/// The evaluation goes on to a phase.
pub open spec fn onward(task: TaskView, phase: PhaseView, work: WorkView) -> Next {
    (EvaluationView { task, phase }, work)
}

/// The evaluation has failed.
pub open spec fn aborted(task: TaskView, reason: Seq<char>) -> Next {
    onward(task, PhaseView::Over, WorkView::Abort(reason))
}

/// What the workload was run with.
pub open spec fn runtime_of(task: TaskView) -> JsonView {
    task.observation.at("runtime"@)
}

/// The environment of the processes that are run once the workload was observed.
pub open spec fn environment(task: TaskView) -> JsonView {
    gpu::environment_of(
        task.payload,
        runtime_of(task),
        paths::path(task.output, "build"@),
        paths::path(task.output, "triton"@),
    )
}

/// Files by their whole paths.
pub open spec fn whole(output: Seq<char>, files: Seq<Seq<char>>) -> Seq<Seq<char>> {
    Seq::new(files.len(), |i: int| paths::path(output, files[i]))
}

/// The compiled libraries of the build, by their whole paths.
pub open spec fn libraries(task: TaskView, files: Seq<Seq<char>>) -> Seq<Seq<char>> {
    whole(task.output, artifacts::libraries_in(files, files.len() as int))
}

/// The directory is there: the task is checked.
pub open spec fn opened(task: TaskView) -> Next {
    match identity::task_path(task.payload.at("problem"@)) {
        Err(reason) => aborted(task, reason),
        Ok(Some(path)) => onward(task, PhaseView::Checking, WorkView::Read(path)),
        Ok(None) => checked(task),
    }
}

/// The task is checked: a candidate's source is looked at.
pub open spec fn checked(task: TaskView) -> Next {
    if task.candidate {
        match task.payload.at("source"@).text() {
            None => aborted(task, "candidate source"@),
            Some(path) => onward(task, PhaseView::Sourcing, WorkView::Read(path)),
        }
    } else {
        identified(task)
    }
}

/// What is evaluated is what was asked for: the workload is run.
pub open spec fn identified(task: TaskView) -> Next {
    let request = gpu::request_of(task.payload, task.candidate);
    onward(
        TaskView { payload: request, ..task },
        PhaseView::Observing,
        WorkView::Observe(request),
    )
}

/// The candidate's source has a digest.
pub open spec fn sourced(task: TaskView, now: Seq<char>) -> Next {
    match identity::candidate_refusal(task.payload, now) {
        Some(reason) => aborted(task, reason),
        None => match identity::reference_refusal(task.payload) {
            Some(reason) => aborted(task, reason),
            None => identified(TaskView { digest: now, ..task }),
        },
    }
}

/// The workload was observed.
pub open spec fn observed(before: TaskView, observation: JsonView) -> Next {
    let task = TaskView { observation, ..before };
    if task.candidate {
        match gpu::judged(observation) {
            Err(reason) => aborted(task, reason),
            Ok(verdict) => {
                let task = TaskView { verdict, ..task };
                if verdict.error == JsonView::Null {
                    benched(task)
                } else {
                    reported(task, JsonView::Null)
                }
            },
        }
    } else {
        match gpu::reference_time(observation) {
            Err(reason) => aborted(task, reason),
            Ok(seconds) => onward(
                TaskView {
                    verdict: VerdictView { error: JsonView::Null, seconds: Some(seconds) },
                    ..task
                },
                PhaseView::Probing,
                WorkView::Seek,
            ),
        }
    }
}

/// The text of a script.
pub open spec fn script_of(task: TaskView, name: Seq<char>) -> Result<Seq<char>, Seq<char>> {
    scripts::script_told(name, task.payload, task.source_name, task.templates)
}

/// A successful candidate's benchmark is kept, if it can be.
pub open spec fn benched(task: TaskView) -> Next {
    match script_of(task, "benchmark"@) {
        Err(_) => onward(task, PhaseView::Listing, WorkView::Tools),
        Ok(content) => onward(
            task,
            PhaseView::Benching,
            WorkView::Write(paths::path(task.output, "benchmark_solution.py"@), content),
        ),
    }
}

/// Kernels are being named.
pub open spec fn named(task: TaskView, naming: NamingView, process: Option<ProcessView>) -> Next {
    match process {
        Some(process) => onward(task, PhaseView::Naming(naming), WorkView::Run(process)),
        None => match script_of(task, "candidate"@) {
            Err(reason) => reported(task, gpu::unprofiled(reason)),
            Ok(content) => onward(
                task,
                PhaseView::Writing(naming.names),
                WorkView::Write(paths::path(task.output, "profile_solution.py"@), content),
            ),
        },
    }
}

/// What a profile is collected of.
pub open spec fn subject_of(
    task: TaskView,
    file: Seq<char>,
    names: Seq<Seq<char>>,
    full: bool,
    sudo: Option<Seq<char>>,
) -> SubjectView {
    SubjectView { sudo, output: task.output, file, names, full, runtime: runtime_of(task) }
}

/// A profile is being collected.
pub open spec fn collected(task: TaskView, progress: collection::ProgressView) -> Next {
    match progress {
        collection::ProgressView::Asked(collection, ask) => onward(
            task,
            PhaseView::Collecting(collection),
            WorkView::Collect(ask),
        ),
        collection::ProgressView::Made(report) => if task.candidate {
            onward(task, PhaseView::Gathering(report), WorkView::List)
        } else {
            onward(task, PhaseView::Summing(report), WorkView::Sum(report))
        },
    }
}

/// A library is being inspected; the report is complete without it where it cannot be.
pub open spec fn inspected(
    task: TaskView,
    report: JsonView,
    progress: inspection::ProgressView,
) -> Next {
    match progress {
        inspection::ProgressView::Run(inspection, process) => onward(
            task,
            PhaseView::Inspecting(report, inspection),
            WorkView::Run(process),
        ),
        inspection::ProgressView::Made(Ok(record)) => reported(
            task,
            gpu::candidate_report(Ok(report), record),
        ),
        inspection::ProgressView::Made(Err(_)) => reported(
            task,
            gpu::candidate_report(Ok(report), JsonView::Null),
        ),
    }
}

/// No library is inspected.
pub open spec fn uninspected(task: TaskView, report: JsonView) -> Next {
    reported(task, gpu::candidate_report(Ok(report), JsonView::Null))
}

/// The newest of the libraries is inspected.
pub open spec fn dated(
    task: TaskView,
    report: JsonView,
    libraries: Seq<Seq<char>>,
    times: Seq<i128>,
    tool: Seq<char>,
) -> Next {
    match gpu_binary::newest_of(times, None, 0) {
        None => uninspected(task, report),
        Some(place) => {
            let (inspection, process) = inspection::begun(tool, libraries[place]);
            onward(task, PhaseView::Inspecting(report, inspection), WorkView::Run(process))
        },
    }
}

/// The report on a candidate is made: its source is looked at once more.
pub open spec fn reported(task: TaskView, report: JsonView) -> Next {
    match task.payload.at("source"@).text() {
        None => aborted(task, "candidate source"@),
        Some(path) => onward(task, PhaseView::Rereading(report), WorkView::Read(path)),
    }
}

/// The task is checked once more.
pub open spec fn rechecked(task: TaskView, report: JsonView) -> Next {
    match identity::task_path(task.payload.at("problem"@)) {
        Err(reason) => aborted(task, reason),
        Ok(Some(path)) => onward(task, PhaseView::Rechecking(report), WorkView::Read(path)),
        Ok(None) => weighed(task, report),
    }
}

/// Everything is as it was: the reference's record is complete, a candidate's speedup is worked
/// out.
pub open spec fn weighed(task: TaskView, report: JsonView) -> Next {
    match task.verdict.seconds {
        Some(seconds) => if !task.candidate {
            onward(
                task,
                PhaseView::Over,
                WorkView::Finish(
                    gpu::reference_record(
                        seconds,
                        report,
                        task.payload.at("problem"@),
                        "gpu"@,
                    ),
                ),
            )
        } else {
            match task.payload.at("reference"@).at("reference_seconds"@).reading() {
                None => aborted(task, "reference timing"@),
                Some(reference) => onward(
                    task,
                    PhaseView::Weighing(report),
                    WorkView::Divide(reference, seconds),
                ),
            }
        },
        None => onward(task, PhaseView::Keeping(report, None), WorkView::List),
    }
}

/// Files with the digests of what they hold.
pub open spec fn digested(files: Seq<Seq<char>>, contents: Seq<Seq<u8>>) -> Seq<(Seq<char>, Seq<char>)> {
    Seq::new(files.len(), |i: int| (files[i], outside::sha256(contents[i])))
}

/// A candidate's record is complete.
pub open spec fn completed(
    task: TaskView,
    report: JsonView,
    speedup: Option<ReadingView>,
    artifacts: Seq<(Seq<char>, Seq<char>)>,
) -> Next {
    match gpu::candidate_record(
        task.payload,
        task.digest,
        task.verdict,
        report,
        runtime_of(task),
        artifacts,
        match speedup {
            Some(reading) => Some(Some(reading)),
            None => None,
        },
    ) {
        Ok(record) => onward(task, PhaseView::Over, WorkView::Finish(record)),
        Err(reason) => aborted(task, reason),
    }
}

/// Whether an event is what a phase waits for.
pub open spec fn admitted(phase: PhaseView, event: EventView) -> bool {
    match phase {
        PhaseView::Opening => event is Done,
        PhaseView::Checking => event is Bytes,
        PhaseView::Sourcing => event is Bytes,
        PhaseView::Observing => event is Observed,
        PhaseView::Probing => event is Found,
        PhaseView::Drafting(_, _) => event is Done,
        PhaseView::Benching => event is Done,
        PhaseView::Listing => event is Tools,
        PhaseView::Naming(_) => event is Ran,
        PhaseView::Writing(_) => event is Done,
        PhaseView::Seeking(_) => event is Found,
        PhaseView::Collecting(collection) => event matches EventView::Answered(answer)
            && collection::admitted(collection.stage, answer),
        PhaseView::Summing(_) => event is Summed,
        PhaseView::Gathering(_) => event is Files,
        PhaseView::Dating(_, libraries) => event matches EventView::Dated(result, _, _) && (
        result matches Ok(times) ==> times.len() == libraries.len()),
        PhaseView::Inspecting(_, _) => event is Ran,
        PhaseView::Rereading(_) => event is Bytes,
        PhaseView::Rechecking(_) => event is Bytes,
        PhaseView::Weighing(_) => event is Divided,
        PhaseView::Keeping(_, _) => event is Files,
        PhaseView::Digesting(_, _, files) => event matches EventView::Contents(result) && (
        result matches Ok(contents) ==> contents.len() == files.len()),
        PhaseView::Over => false,
    }
}

/// What comes next, given what has come of the work.
pub open spec fn advanced(evaluation: EvaluationView, event: EventView) -> Next {
    let task = evaluation.task;
    match (evaluation.phase, event) {
        (PhaseView::Opening, EventView::Done(Some(reason))) => aborted(task, reason),
        (PhaseView::Opening, EventView::Done(None)) => opened(task),
        (PhaseView::Checking, EventView::Bytes(Err(reason))) => aborted(task, reason),
        (PhaseView::Checking, EventView::Bytes(Ok(bytes))) => match identity::task_refusal(
            task.payload.at("problem"@),
            outside::sha256(bytes),
        ) {
            Some(reason) => aborted(task, reason),
            None => checked(task),
        },
        (PhaseView::Sourcing, EventView::Bytes(Err(reason))) => aborted(task, reason),
        (PhaseView::Sourcing, EventView::Bytes(Ok(bytes))) => sourced(task, outside::sha256(bytes)),
        (PhaseView::Observing, EventView::Observed(Err(reason))) => aborted(task, reason),
        (PhaseView::Observing, EventView::Observed(Ok(observation))) => observed(task, observation),
        (PhaseView::Probing, EventView::Found(None, _)) => rechecked(task, gpu::no_profiler()),
        (PhaseView::Probing, EventView::Found(Some(ncu), sudo)) => match script_of(
            task,
            "reference"@,
        ) {
            Err(reason) => aborted(task, reason),
            Ok(content) => onward(
                task,
                PhaseView::Drafting(ncu, sudo),
                WorkView::Write(paths::path(task.output, "profile_reference.py"@), content),
            ),
        },
        (PhaseView::Drafting(_, _), EventView::Done(Some(reason))) => aborted(task, reason),
        (PhaseView::Drafting(ncu, sudo), EventView::Done(None)) => collected(
            task,
            collection::begun(
                Some(ncu),
                task.python,
                subject_of(task, "profile_reference.py"@, Seq::empty(), false, sudo),
                task.assets,
            ),
        ),
        (PhaseView::Benching, EventView::Done(_)) => onward(
            task,
            PhaseView::Listing,
            WorkView::Tools,
        ),
        (PhaseView::Listing, EventView::Tools(tools, files)) => {
            let naming = naming::begun(tools, libraries(task, files));
            named(task, naming, naming::asked(naming))
        },
        (PhaseView::Naming(naming), EventView::Ran(result)) => {
            let (naming, process) = naming::advanced(naming, result);
            named(task, naming, process)
        },
        (PhaseView::Writing(_), EventView::Done(Some(reason))) => reported(
            task,
            gpu::unprofiled(reason),
        ),
        (PhaseView::Writing(names), EventView::Done(None)) => onward(
            task,
            PhaseView::Seeking(names),
            WorkView::Seek,
        ),
        (PhaseView::Seeking(names), EventView::Found(ncu, sudo)) => collected(
            task,
            collection::begun(
                ncu,
                task.python,
                subject_of(
                    task,
                    "profile_solution.py"@,
                    names,
                    task.payload.at("ncu_full"@) == JsonView::Bool(true),
                    sudo,
                ),
                task.assets,
            ),
        ),
        (PhaseView::Collecting(collection), EventView::Answered(answer)) => collected(
            task,
            collection::advanced(collection, answer),
        ),
        (PhaseView::Summing(report), EventView::Summed(readings, latency)) => {
            match gpu::reference_summary(report, readings, latency) {
                Err(reason) => aborted(task, reason),
                Ok(profile) => rechecked(task, profile),
            }
        },
        (PhaseView::Gathering(report), EventView::Files(files)) => {
            let found = libraries(task, files);
            if found.len() == 0 {
                uninspected(task, report)
            } else {
                onward(task, PhaseView::Dating(report, found), WorkView::Date(found))
            }
        },
        (PhaseView::Dating(report, _), EventView::Dated(Err(_), _, _)) => uninspected(task, report),
        (PhaseView::Dating(report, found), EventView::Dated(Ok(times), tool, standing)) => dated(
            task,
            report,
            found,
            times,
            inspection::tool_of(tool, standing),
        ),
        (PhaseView::Inspecting(report, inspection), EventView::Ran(result)) => inspected(
            task,
            report,
            inspection::advanced(inspection, result, task.assets),
        ),
        (PhaseView::Rereading(_), EventView::Bytes(Err(reason))) => aborted(task, reason),
        (PhaseView::Rereading(report), EventView::Bytes(Ok(bytes))) => match identity::change_refusal(
            task.digest,
            outside::sha256(bytes),
        ) {
            Some(reason) => aborted(task, reason),
            None => rechecked(task, report),
        },
        (PhaseView::Rechecking(_), EventView::Bytes(Err(reason))) => aborted(task, reason),
        (PhaseView::Rechecking(report), EventView::Bytes(Ok(bytes))) => match identity::task_refusal(
            task.payload.at("problem"@),
            outside::sha256(bytes),
        ) {
            Some(reason) => aborted(task, reason),
            None => weighed(task, report),
        },
        (PhaseView::Weighing(_), EventView::Divided(None)) => aborted(
            task,
            "speedup must be finite"@,
        ),
        (PhaseView::Weighing(report), EventView::Divided(Some(speedup))) => onward(
            task,
            PhaseView::Keeping(report, Some(speedup)),
            WorkView::List,
        ),
        (PhaseView::Keeping(report, speedup), EventView::Files(files)) => {
            let kept = artifacts::artifacts_in(files, files.len() as int);
            onward(
                task,
                PhaseView::Digesting(report, speedup, kept),
                WorkView::Digest(whole(task.output, kept)),
            )
        },
        (PhaseView::Digesting(_, _, _), EventView::Contents(Err(reason))) => aborted(task, reason),
        (PhaseView::Digesting(report, speedup, files), EventView::Contents(Ok(contents))) => completed(
            task,
            report,
            speedup,
            digested(files, contents),
        ),
        (_, _) => aborted(task, Seq::empty()),
    }
}

/// Whether an evaluation can stand where it does: what was asked with is an object, a report that
/// is being completed is one too, and a naming that goes on has a library left.
pub open spec fn sound(evaluation: EvaluationView) -> bool {
    &&& evaluation.task.payload is Object
    &&& match evaluation.phase {
        PhaseView::Naming(naming) => naming.open(),
        PhaseView::Gathering(report) => report is Object,
        PhaseView::Dating(report, _) => report is Object,
        PhaseView::Inspecting(report, _) => report is Object,
        _ => true,
    }
}

} // verus!
