//! An evaluation by a scenario, step by step.
use crate::fields::empty_array;
use crate::identity;
use crate::identity::{check_candidate, check_reference, check_unchanged, task_file, validate_task};
use crate::json::{Json, JsonView};
use crate::number;
use crate::number::{Reading, ReadingView, Readings, ReadingsView};
use crate::outside;
use crate::outside::digest;
use crate::paths;
use crate::paths::below;
use crate::pieces;
use crate::profilers::ncu;
use crate::profilers::ncu::ncu_csv;
use crate::simulated;
use crate::simulated::{evaluate, fails, reference, reference_time, report, scenario_table};
use vstd::prelude::*;

verus! {

/// What is evaluated, and what is known of it.
pub struct Task {
    pub payload: Json,
    /// Whether a candidate is evaluated; the reference is otherwise.
    pub candidate: bool,
    pub assets: Json,
    /// The directory that everything is kept in, by its whole path.
    pub output: String,
    /// The digest of the candidate's source.
    pub digest: String,
}

/// The model of a [`Task`].
#[verifier::ext_equal]
pub struct TaskView {
    pub payload: JsonView,
    pub candidate: bool,
    pub assets: JsonView,
    pub output: Seq<char>,
    pub digest: Seq<char>,
}

impl View for Task {
    type V = TaskView;

    open spec fn view(&self) -> TaskView {
        TaskView {
            payload: self.payload@,
            candidate: self.candidate,
            assets: self.assets@,
            output: self.output@,
            digest: self.digest@,
        }
    }
}

/// What is waited for.
pub enum Phase {
    /// That the directory is made.
    Opening,
    /// The candidate's source.
    Sourcing,
    /// The task's file.
    Checking,
    /// That the scenario's table is kept.
    Tabling,
    /// The kernels that the scenario names.
    Naming,
    /// That the scenario's instructions are kept.
    Listing(Vec<String>, Readings),
    /// The latency of the reference.
    Scaling(Json),
    /// The candidate's source once more.
    Rereading(Json),
    /// The task's file once more.
    Rechecking(Json),
    /// The speedup.
    Weighing(Json),
    /// Nothing.
    Over,
}

/// The model of a [`Phase`].
pub enum PhaseView {
    Opening,
    Sourcing,
    Checking,
    Tabling,
    Naming,
    Listing(Seq<Seq<char>>, ReadingsView),
    Scaling(JsonView),
    Rereading(JsonView),
    Rechecking(JsonView),
    Weighing(JsonView),
    Over,
}

impl View for Phase {
    type V = PhaseView;

    open spec fn view(&self) -> PhaseView {
        match *self {
            Phase::Opening => PhaseView::Opening,
            Phase::Sourcing => PhaseView::Sourcing,
            Phase::Checking => PhaseView::Checking,
            Phase::Tabling => PhaseView::Tabling,
            Phase::Naming => PhaseView::Naming,
            Phase::Listing(names, readings) => PhaseView::Listing(
                pieces::texts(names@),
                readings@,
            ),
            Phase::Scaling(made) => PhaseView::Scaling(made@),
            Phase::Rereading(made) => PhaseView::Rereading(made@),
            Phase::Rechecking(made) => PhaseView::Rechecking(made@),
            Phase::Weighing(made) => PhaseView::Weighing(made@),
            Phase::Over => PhaseView::Over,
        }
    }
}

/// An evaluation by a scenario.
pub struct Trial {
    pub task: Task,
    pub phase: Phase,
}

/// The model of a [`Trial`].
#[verifier::ext_equal]
pub struct TrialView {
    pub task: TaskView,
    pub phase: PhaseView,
}

impl View for Trial {
    type V = TrialView;

    open spec fn view(&self) -> TrialView {
        TrialView { task: self.task@, phase: self.phase@ }
    }
}

/// What is to be done outside.
pub enum Work {
    /// A directory is to be made.
    Open(String),
    /// A file is to be read.
    Read(String),
    /// A file is to be written.
    Write(String, String),
    /// Names are to be read.
    Name(Json),
    /// The duration in a report is to be given in milliseconds.
    Scale(Json),
    /// The reference's time, none where there is no number, is to be divided by the candidate's.
    Divide(Option<Reading>, Reading),
    /// The evaluation is complete.
    Finish(Json),
    /// The evaluation has failed.
    Abort(String),
}

/// The model of [`Work`].
pub enum WorkView {
    Open(Seq<char>),
    Read(Seq<char>),
    Write(Seq<char>, Seq<char>),
    Name(JsonView),
    Scale(JsonView),
    Divide(Option<ReadingView>, ReadingView),
    Finish(JsonView),
    Abort(Seq<char>),
}

impl View for Work {
    type V = WorkView;

    open spec fn view(&self) -> WorkView {
        match *self {
            Work::Open(path) => WorkView::Open(path@),
            Work::Read(path) => WorkView::Read(path@),
            Work::Write(path, content) => WorkView::Write(path@, content@),
            Work::Name(value) => WorkView::Name(value@),
            Work::Scale(made) => WorkView::Scale(made@),
            Work::Divide(reference, seconds) => WorkView::Divide(
                number::optional_reading(reference),
                seconds@,
            ),
            Work::Finish(record) => WorkView::Finish(record@),
            Work::Abort(reason) => WorkView::Abort(reason@),
        }
    }
}

/// What has come of the work.
pub enum Event {
    /// The directory's whole path.
    Opened(Result<String, String>),
    Bytes(Result<Vec<u8>, String>),
    Done(Result<(), String>),
    /// The names, and what the texts in the scenario read as numbers show.
    Named(Result<Vec<String>, String>, Readings),
    /// The latency, if it is finite.
    Scaled(Option<Reading>),
    /// The quotient, if it is finite.
    Divided(Option<Reading>),
}

/// The model of an [`Event`].
pub enum EventView {
    Opened(Result<Seq<char>, Seq<char>>),
    Bytes(Result<Seq<u8>, Seq<char>>),
    Done(Option<Seq<char>>),
    Named(Result<Seq<Seq<char>>, Seq<char>>, ReadingsView),
    Scaled(Option<ReadingView>),
    Divided(Option<ReadingView>),
}

impl View for Event {
    type V = EventView;

    open spec fn view(&self) -> EventView {
        match *self {
            Event::Opened(result) => EventView::Opened(pieces::told(result)),
            Event::Bytes(result) => EventView::Bytes(
                match result {
                    Ok(bytes) => Ok(bytes@),
                    Err(error) => Err(error@),
                },
            ),
            Event::Done(done) => EventView::Done(pieces::trouble(done)),
            Event::Named(result, readings) => EventView::Named(outside::listed(result), readings@),
            Event::Scaled(latency) => EventView::Scaled(number::optional_reading(latency)),
            Event::Divided(speedup) => EventView::Divided(number::optional_reading(speedup)),
        }
    }
}

/// What comes next: the evaluation as it then is, and what is to be done.
pub type Next = (TrialView, WorkView);

/// The evaluation goes on to a phase.
pub open spec fn onward(task: TaskView, phase: PhaseView, work: WorkView) -> Next {
    (TrialView { task, phase }, work)
}

/// The evaluation has failed.
pub open spec fn aborted(task: TaskView, reason: Seq<char>) -> Next {
    onward(task, PhaseView::Over, WorkView::Abort(reason))
}

/// The task is checked.
pub open spec fn sourced(task: TaskView) -> Next {
    match identity::task_path(task.payload.at("problem"@)) {
        Err(reason) => aborted(task, reason),
        Ok(Some(path)) => onward(task, PhaseView::Checking, WorkView::Read(path)),
        Ok(None) => checked(task),
    }
}

/// The task is what was asked for. A candidate that fails has no report; whatever else is
/// evaluated has one.
pub open spec fn checked(task: TaskView) -> Next {
    if task.candidate {
        match identity::reference_refusal(task.payload) {
            Some(reason) => aborted(task, reason),
            None => if simulated::has_failure(task.payload) {
                reported(task, JsonView::Null)
            } else {
                tabled(task)
            },
        }
    } else {
        match simulated::stated_time(task.payload) {
            Err(reason) => aborted(task, reason),
            Ok(_) => tabled(task),
        }
    }
}

/// The path of the table.
pub open spec fn table_path(task: TaskView) -> Seq<char> {
    paths::path(task.output, "profile.csv"@)
}

/// The scenario's table is kept.
pub open spec fn tabled(task: TaskView) -> Next {
    match simulated::table_of(task.payload) {
        Err(reason) => aborted(task, reason),
        Ok(table) => onward(
            task,
            PhaseView::Tabling,
            WorkView::Write(table_path(task), table),
        ),
    }
}

/// The names that the scenario gives, an empty list without any.
pub open spec fn names_of(payload: JsonView) -> JsonView {
    match payload.at("fixture"@).get("kernel_names"@) {
        Some(names) => names,
        None => JsonView::Array(Seq::empty()),
    }
}

/// The kernels are named: the scenario's instructions are kept if its metrics can be read.
pub open spec fn named(task: TaskView, names: Seq<Seq<char>>, readings: ReadingsView) -> Next {
    match simulated::table_of(task.payload) {
        Err(reason) => aborted(task, reason),
        Ok(table) => match ncu::table_metrics(
            outside::csv_table(ncu::cleaned(table)),
            names,
            readings,
        ) {
            Err(reason) => aborted(task, reason),
            Ok(_) => onward(
                task,
                PhaseView::Listing(names, readings),
                WorkView::Write(
                    paths::path(task.output, "kernel.sass"@),
                    task.payload.at("fixture"@).at("sass"@).text_or_empty(),
                ),
            ),
        },
    }
}

/// The report is made.
pub open spec fn listed(task: TaskView, names: Seq<Seq<char>>, readings: ReadingsView) -> Next {
    match simulated::scenario_report(
        task.payload,
        names,
        table_path(task),
        task.assets,
        readings,
    ) {
        Err(reason) => aborted(task, reason),
        Ok(made) => if task.candidate {
            reported(task, made)
        } else {
            onward(task, PhaseView::Scaling(made), WorkView::Scale(made))
        },
    }
}

/// The reference's record is made.
pub open spec fn scaled(task: TaskView, made: JsonView, latency: Option<ReadingView>) -> Next {
    match simulated::stated_time(task.payload) {
        Err(reason) => aborted(task, reason),
        Ok(seconds) => match simulated::reference_record(task.payload, seconds, made, latency) {
            Err(reason) => aborted(task, reason),
            Ok(record) => rechecked(task, record),
        },
    }
}

/// The candidate's source is looked at once more.
pub open spec fn reported(task: TaskView, made: JsonView) -> Next {
    match task.payload.at("source"@).text() {
        None => aborted(task, "candidate source"@),
        Some(path) => onward(task, PhaseView::Rereading(made), WorkView::Read(path)),
    }
}

/// The task is checked once more.
pub open spec fn rechecked(task: TaskView, made: JsonView) -> Next {
    match identity::task_path(task.payload.at("problem"@)) {
        Err(reason) => aborted(task, reason),
        Ok(Some(path)) => onward(task, PhaseView::Rechecking(made), WorkView::Read(path)),
        Ok(None) => weighed(task, made),
    }
}

/// Everything is as it was: the reference's record is complete, a candidate's speedup is worked
/// out where the scenario has a time.
pub open spec fn weighed(task: TaskView, made: JsonView) -> Next {
    if !task.candidate {
        onward(task, PhaseView::Over, WorkView::Finish(made))
    } else {
        match task.payload.at("fixture"@).at("candidate_seconds"@).reading() {
            Some(seconds) => onward(
                task,
                PhaseView::Weighing(made),
                WorkView::Divide(
                    task.payload.at("reference"@).at("reference_seconds"@).reading(),
                    seconds,
                ),
            ),
            None => completed(task, made, None),
        }
    }
}

/// A candidate's record is complete, or is refused.
pub open spec fn completed(
    task: TaskView,
    made: JsonView,
    speedup: Option<Option<ReadingView>>,
) -> Next {
    match simulated::candidate_record(task.payload, task.digest, made, speedup) {
        Ok(record) => onward(task, PhaseView::Over, WorkView::Finish(record)),
        Err(reason) => aborted(task, reason),
    }
}

/// Whether an event is what a phase waits for.
pub open spec fn admitted(phase: PhaseView, event: EventView) -> bool {
    match phase {
        PhaseView::Opening => event is Opened,
        PhaseView::Sourcing => event is Bytes,
        PhaseView::Checking => event is Bytes,
        PhaseView::Tabling => event is Done,
        PhaseView::Naming => event is Named,
        PhaseView::Listing(_, _) => event is Done,
        PhaseView::Scaling(_) => event is Scaled,
        PhaseView::Rereading(_) => event is Bytes,
        PhaseView::Rechecking(_) => event is Bytes,
        PhaseView::Weighing(_) => event is Divided,
        PhaseView::Over => false,
    }
}

/// What comes next, given what has come of the work.
pub open spec fn advanced(trial: TrialView, event: EventView) -> Next {
    let task = trial.task;
    match (trial.phase, event) {
        (PhaseView::Opening, EventView::Opened(Err(reason))) => aborted(task, reason),
        (PhaseView::Opening, EventView::Opened(Ok(output))) => {
            let task = TaskView { output, ..task };
            if task.candidate {
                match task.payload.at("source"@).text() {
                    None => aborted(task, "candidate source"@),
                    Some(path) => onward(task, PhaseView::Sourcing, WorkView::Read(path)),
                }
            } else {
                sourced(task)
            }
        },
        (PhaseView::Sourcing, EventView::Bytes(Err(reason))) => aborted(task, reason),
        (PhaseView::Sourcing, EventView::Bytes(Ok(bytes))) => {
            let now = outside::sha256(bytes);
            match identity::candidate_refusal(task.payload, now) {
                Some(reason) => aborted(task, reason),
                None => sourced(TaskView { digest: now, ..task }),
            }
        },
        (PhaseView::Checking, EventView::Bytes(Err(reason))) => aborted(task, reason),
        (PhaseView::Checking, EventView::Bytes(Ok(bytes))) => match identity::task_refusal(
            task.payload.at("problem"@),
            outside::sha256(bytes),
        ) {
            Some(reason) => aborted(task, reason),
            None => checked(task),
        },
        (PhaseView::Tabling, EventView::Done(Some(reason))) => aborted(task, reason),
        (PhaseView::Tabling, EventView::Done(None)) => onward(
            task,
            PhaseView::Naming,
            WorkView::Name(names_of(task.payload)),
        ),
        (PhaseView::Naming, EventView::Named(Err(reason), _)) => aborted(task, reason),
        (PhaseView::Naming, EventView::Named(Ok(names), readings)) => named(task, names, readings),
        (PhaseView::Listing(_, _), EventView::Done(Some(reason))) => aborted(task, reason),
        (PhaseView::Listing(names, readings), EventView::Done(None)) => listed(
            task,
            names,
            readings,
        ),
        (PhaseView::Scaling(made), EventView::Scaled(latency)) => scaled(task, made, latency),
        (PhaseView::Rereading(_), EventView::Bytes(Err(reason))) => aborted(task, reason),
        (PhaseView::Rereading(made), EventView::Bytes(Ok(bytes))) => match identity::change_refusal(
            task.digest,
            outside::sha256(bytes),
        ) {
            Some(reason) => aborted(task, reason),
            None => rechecked(task, made),
        },
        (PhaseView::Rechecking(_), EventView::Bytes(Err(reason))) => aborted(task, reason),
        (PhaseView::Rechecking(made), EventView::Bytes(Ok(bytes))) => match identity::task_refusal(
            task.payload.at("problem"@),
            outside::sha256(bytes),
        ) {
            Some(reason) => aborted(task, reason),
            None => weighed(task, made),
        },
        (PhaseView::Weighing(made), EventView::Divided(speedup)) => completed(
            task,
            made,
            Some(speedup),
        ),
        (_, _) => aborted(task, Seq::empty()),
    }
}

/// The model of what comes next.
pub open spec fn next_view(next: (Trial, Work)) -> Next {
    (next.0@, next.1@)
}

fn go_on(task: Task, phase: Phase, work: Work) -> (next: (Trial, Work))
    ensures
        next_view(next) == onward(task@, phase@, work@),
{
    (Trial { task, phase }, work)
}

fn abort(task: Task, reason: String) -> (next: (Trial, Work))
    ensures
        next_view(next) == aborted(task@, reason@),
{
    go_on(task, Phase::Over, Work::Abort(reason))
}

impl Task {
    fn open(self, output: String) -> (next: (Trial, Work))
        ensures
            next_view(next) == advanced(
                TrialView { task: self@, phase: PhaseView::Opening },
                EventView::Opened(Ok(output@)),
            ),
    {
        let ghost before = self@;
        let mut task = self;
        task.output = output;
        assert(task@ =~= TaskView { output: output@, ..before });
        if !task.candidate {
            return task.source();
        }
        let path = match task.payload.at("source").text() {
            Some(path) => path.to_owned(),
            None => {
                return abort(task, "candidate source".to_owned());
            },
        };
        go_on(task, Phase::Sourcing, Work::Read(path))
    }

    fn identify(self, bytes: &Vec<u8>) -> (next: (Trial, Work))
        ensures
            next_view(next) == advanced(
                TrialView { task: self@, phase: PhaseView::Sourcing },
                EventView::Bytes(Ok(bytes@)),
            ),
    {
        let ghost before = self@;
        let now = digest(bytes.as_slice());
        if let Err(error) = check_candidate(&self.payload, now.as_str()) {
            return abort(self, error);
        }
        let mut task = self;
        task.digest = now;
        assert(task@ =~= TaskView { digest: now@, ..before });
        task.source()
    }

    fn source(self) -> (next: (Trial, Work))
        ensures
            next_view(next) == sourced(self@),
    {
        let file = match task_file(self.payload.at("problem")) {
            Err(error) => Err(error),
            Ok(Some(path)) => Ok(Some(path.to_owned())),
            Ok(None) => Ok(None),
        };
        match file {
            Err(error) => abort(self, error),
            Ok(Some(path)) => go_on(self, Phase::Checking, Work::Read(path)),
            Ok(None) => self.check(),
        }
    }

    fn check(self) -> (next: (Trial, Work))
        ensures
            next_view(next) == checked(self@),
    {
        if self.candidate {
            if let Err(error) = check_reference(&self.payload) {
                return abort(self, error);
            }
            if fails(&self.payload) {
                self.report(Json::Null)
            } else {
                self.table()
            }
        } else {
            match reference_time(&self.payload) {
                Err(error) => abort(self, error),
                Ok(_) => self.table(),
            }
        }
    }

    fn table(self) -> (next: (Trial, Work))
        ensures
            next_view(next) == tabled(self@),
    {
        let table = match scenario_table(&self.payload) {
            Ok(table) => table.to_owned(),
            Err(error) => {
                return abort(self, error);
            },
        };
        let path = below(self.output.as_str(), "profile.csv");
        go_on(self, Phase::Tabling, Work::Write(path, table))
    }

    fn names(&self) -> (names: Json)
        ensures
            names@ == names_of(self@.payload),
    {
        match self.payload.at("fixture").get("kernel_names") {
            Some(names) => names.clone(),
            None => empty_array(),
        }
    }

    fn name(self, names: Vec<String>, readings: Readings) -> (next: (Trial, Work))
        ensures
            next_view(next) == named(self@, pieces::texts(names@), readings@),
    {
        let table = match scenario_table(&self.payload) {
            Ok(table) => table,
            Err(error) => {
                return abort(self, error);
            },
        };
        if let Err(error) = ncu_csv(table, &names, &readings) {
            return abort(self, error);
        }
        let path = below(self.output.as_str(), "kernel.sass");
        let listing = self.payload.at("fixture").at("sass").text_or_empty().to_owned();
        go_on(self, Phase::Listing(names, readings), Work::Write(path, listing))
    }

    fn list(self, names: &Vec<String>, readings: &Readings) -> (next: (Trial, Work))
        ensures
            next_view(next) == listed(self@, pieces::texts(names@), readings@),
    {
        let path = below(self.output.as_str(), "profile.csv");
        match report(&self.payload, names, path.as_str(), &self.assets, readings) {
            Err(error) => abort(self, error),
            Ok(made) => if self.candidate {
                self.report(made)
            } else {
                let shown = made.clone();
                go_on(self, Phase::Scaling(made), Work::Scale(shown))
            },
        }
    }

    fn scale(self, made: &Json, latency: &Option<Reading>) -> (next: (Trial, Work))
        ensures
            next_view(next) == scaled(self@, made@, number::optional_reading(*latency)),
    {
        match reference_time(&self.payload) {
            Err(error) => abort(self, error),
            Ok(seconds) => match reference(&self.payload, seconds, made, latency) {
                Err(error) => abort(self, error),
                Ok(record) => self.recheck(record),
            },
        }
    }

    fn report(self, made: Json) -> (next: (Trial, Work))
        ensures
            next_view(next) == reported(self@, made@),
    {
        let path = match self.payload.at("source").text() {
            Some(path) => path.to_owned(),
            None => {
                return abort(self, "candidate source".to_owned());
            },
        };
        go_on(self, Phase::Rereading(made), Work::Read(path))
    }

    fn recheck(self, made: Json) -> (next: (Trial, Work))
        ensures
            next_view(next) == rechecked(self@, made@),
    {
        let file = match task_file(self.payload.at("problem")) {
            Err(error) => Err(error),
            Ok(Some(path)) => Ok(Some(path.to_owned())),
            Ok(None) => Ok(None),
        };
        match file {
            Err(error) => abort(self, error),
            Ok(Some(path)) => go_on(self, Phase::Rechecking(made), Work::Read(path)),
            Ok(None) => self.weigh(made),
        }
    }

    fn weigh(self, made: Json) -> (next: (Trial, Work))
        ensures
            next_view(next) == weighed(self@, made@),
    {
        if !self.candidate {
            return go_on(self, Phase::Over, Work::Finish(made));
        }
        let seconds = match self.payload.at("fixture").at("candidate_seconds").reading() {
            Some(seconds) => seconds.clone(),
            None => {
                return self.complete(made, None);
            },
        };
        let reference = match self.payload.at("reference").at("reference_seconds").reading() {
            Some(reference) => Some(reference.clone()),
            None => None,
        };
        go_on(self, Phase::Weighing(made), Work::Divide(reference, seconds))
    }

    fn complete(self, made: Json, speedup: Option<Option<Reading>>) -> (next: (Trial, Work))
        ensures
            next_view(next) == completed(self@, made@, crate::gpu::speedup_view(speedup)),
    {
        match evaluate(&self.payload, self.digest.as_str(), made, speedup) {
            Ok(record) => go_on(self, Phase::Over, Work::Finish(record)),
            Err(error) => abort(self, error),
        }
    }
}

/// Why an evaluation cannot begin.
pub open spec fn lacking(candidate: bool) -> Seq<char> {
    if candidate {
        "candidate output"@
    } else {
        "reference output"@
    }
}

impl Trial {
    /// An evaluation of a candidate or of the reference, and what is to be done first: its
    /// directory is made.
    pub fn new(payload: Json, candidate: bool, assets: Json) -> (made: Result<(Self, Work), String>)
        ensures
            match made {
                Ok((trial, work)) => {
                    &&& trial@.task.payload == payload@ && trial@.task.candidate == candidate
                        && trial@.task.assets == assets@
                    &&& trial@.phase is Opening
                    &&& payload@.at("output_dir"@).text() matches Some(output) && work@
                        == WorkView::Open(output)
                },
                Err(error) => payload@.at("output_dir"@).text() is None && error@ == lacking(
                    candidate,
                ),
            },
    {
        let output = match payload.at("output_dir").text() {
            Some(output) => output.to_owned(),
            None => {
                return Err(
                    if candidate {
                        "candidate output"
                    } else {
                        "reference output"
                    }.to_owned(),
                );
            },
        };
        let task = Task {
            payload,
            candidate,
            assets,
            output: String::new(),
            digest: String::new(),
        };
        Ok((Trial { task, phase: Phase::Opening }, Work::Open(output)))
    }

    /// Whether an event is what is waited for.
    pub fn admits(&self, event: &Event) -> (fits: bool)
        ensures
            fits == admitted(self@.phase, event@),
    {
        match (&self.phase, event) {
            (Phase::Opening, Event::Opened(_)) => true,
            (Phase::Sourcing, Event::Bytes(_)) => true,
            (Phase::Checking, Event::Bytes(_)) => true,
            (Phase::Tabling, Event::Done(_)) => true,
            (Phase::Naming, Event::Named(_, _)) => true,
            (Phase::Listing(_, _), Event::Done(_)) => true,
            (Phase::Scaling(_), Event::Scaled(_)) => true,
            (Phase::Rereading(_), Event::Bytes(_)) => true,
            (Phase::Rechecking(_), Event::Bytes(_)) => true,
            (Phase::Weighing(_), Event::Divided(_)) => true,
            (_, _) => false,
        }
    }

    /// What comes next, given what has come of the work.
    pub fn advance(self, event: Event) -> (next: (Self, Work))
        requires
            admitted(self@.phase, event@),
        ensures
            next_view(next) == advanced(self@, event@),
    {
        let Trial { task, phase } = self;
        match (phase, event) {
            (Phase::Opening, Event::Opened(Err(error))) => abort(task, error),
            (Phase::Opening, Event::Opened(Ok(output))) => task.open(output),
            (Phase::Sourcing, Event::Bytes(Err(error))) => abort(task, error),
            (Phase::Sourcing, Event::Bytes(Ok(bytes))) => task.identify(&bytes),
            (Phase::Checking, Event::Bytes(Err(error))) => abort(task, error),
            (Phase::Checking, Event::Bytes(Ok(bytes))) => match validate_task(
                task.payload.at("problem"),
                &bytes,
            ) {
                Err(error) => abort(task, error),
                Ok(_) => task.check(),
            },
            (Phase::Tabling, Event::Done(Err(error))) => abort(task, error),
            (Phase::Tabling, Event::Done(Ok(_))) => {
                let names = task.names();
                go_on(task, Phase::Naming, Work::Name(names))
            },
            (Phase::Naming, Event::Named(Err(error), _)) => abort(task, error),
            (Phase::Naming, Event::Named(Ok(names), readings)) => task.name(names, readings),
            (Phase::Listing(_, _), Event::Done(Err(error))) => abort(task, error),
            (Phase::Listing(names, readings), Event::Done(Ok(_))) => task.list(&names, &readings),
            (Phase::Scaling(made), Event::Scaled(latency)) => task.scale(&made, &latency),
            (Phase::Rereading(_), Event::Bytes(Err(error))) => abort(task, error),
            (Phase::Rereading(made), Event::Bytes(Ok(bytes))) => match check_unchanged(
                task.digest.as_str(),
                digest(bytes.as_slice()).as_str(),
            ) {
                Err(error) => abort(task, error),
                Ok(_) => task.recheck(made),
            },
            (Phase::Rechecking(_), Event::Bytes(Err(error))) => abort(task, error),
            (Phase::Rechecking(made), Event::Bytes(Ok(bytes))) => match validate_task(
                task.payload.at("problem"),
                &bytes,
            ) {
                Err(error) => abort(task, error),
                Ok(_) => task.weigh(made),
            },
            (Phase::Weighing(made), Event::Divided(speedup)) => task.complete(made, Some(speedup)),
            (_, _) => abort(task, String::new()),
        }
    }
}

/// All that is ever written are the scenario's table and its instructions, below the output, which
/// stays the same once it is there.
pub proof fn writes_stay_in_the_output(trial: TrialView, event: EventView)
    ensures
        match advanced(trial, event).1 {
            WorkView::Write(path, _) => path == table_path(advanced(trial, event).0.task) || path
                == paths::path(advanced(trial, event).0.task.output, "kernel.sass"@),
            _ => true,
        },
        trial.phase is Opening || advanced(trial, event).0.task.output == trial.task.output,
{
}

/// A candidate whose source changed meanwhile is refused, and so is whatever belongs to a task
/// whose file changed.
pub proof fn changes_are_refused(trial: TrialView, bytes: Seq<u8>)
    requires
        match trial.phase {
            PhaseView::Sourcing => identity::candidate_refusal(
                trial.task.payload,
                outside::sha256(bytes),
            ) is Some,
            PhaseView::Rereading(_) => outside::sha256(bytes) != trial.task.digest,
            PhaseView::Checking => identity::task_refusal(
                trial.task.payload.at("problem"@),
                outside::sha256(bytes),
            ) is Some,
            PhaseView::Rechecking(_) => identity::task_refusal(
                trial.task.payload.at("problem"@),
                outside::sha256(bytes),
            ) is Some,
            _ => false,
        },
    ensures
        advanced(trial, EventView::Bytes(Ok(bytes))).1 is Abort,
{
}

/// How far a phase is from the end.
pub open spec fn rank(phase: PhaseView) -> nat {
    match phase {
        PhaseView::Opening => 10,
        PhaseView::Sourcing => 9,
        PhaseView::Checking => 8,
        PhaseView::Tabling => 7,
        PhaseView::Naming => 6,
        PhaseView::Listing(_, _) => 5,
        PhaseView::Scaling(_) => 4,
        PhaseView::Rereading(_) => 3,
        PhaseView::Rechecking(_) => 2,
        PhaseView::Weighing(_) => 1,
        PhaseView::Over => 0,
    }
}

/// Every evaluation by a scenario comes to an end, whatever comes of the work.
pub proof fn trials_end(trial: TrialView, event: EventView)
    requires
        admitted(trial.phase, event),
    ensures
        rank(advanced(trial, event).0.phase) < rank(trial.phase),
        advanced(trial, event).0.phase is Over <==> (advanced(trial, event).1 is Finish || advanced(
            trial,
            event,
        ).1 is Abort),
{
}

} // verus!
