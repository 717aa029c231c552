//! Collecting a profile, process by process.
use crate::fields::{empty_array, Fields};
use crate::gpu_profile;
use crate::gpu_profile::{
    check_script, collect, csv_name, details_command, metrics_command, privileged, read_rules,
    rules_command, run_failure, settle, succeeded, unavailable, Process, ProcessView,
};
use crate::json;
use crate::json::{Json, JsonView};
use crate::number::{Readings, ReadingsView};
use crate::outside;
use crate::paths;
use crate::paths::below;
use crate::pieces;
use crate::profilers::ncu;
use crate::profilers::ncu::ncu_csv;
use crate::text;
use vstd::prelude::*;

verus! {

/// What a profile is collected of.
pub struct Subject {
    /// The program that gives more rights, where it is found.
    pub sudo: Option<String>,
    /// The directory that everything is kept in.
    pub output: String,
    /// The name of the script's file in that directory.
    pub file: String,
    /// The kernels that are profiled; a library's where none are named.
    pub names: Vec<String>,
    /// Whether the profiler's rules are run too.
    pub full: bool,
    pub runtime: Json,
}

/// The model of a [`Subject`].
#[verifier::ext_equal]
pub struct SubjectView {
    pub sudo: Option<Seq<char>>,
    pub output: Seq<char>,
    pub file: Seq<char>,
    pub names: Seq<Seq<char>>,
    pub full: bool,
    pub runtime: JsonView,
}

impl View for Subject {
    type V = SubjectView;

    open spec fn view(&self) -> SubjectView {
        SubjectView {
            sudo: pieces::optional(self.sudo),
            output: self.output@,
            file: self.file@,
            names: pieces::texts(self.names@),
            full: self.full,
            runtime: self.runtime@,
        }
    }
}

/// What is waited for.
pub enum Stage {
    /// The run that measures.
    Measuring,
    /// The table of what was measured.
    Tabling,
    /// The run of the rules; the metrics are read.
    Ruling(Json),
    /// Whether the rules left a report.
    Looking(Json),
    /// What the report tells.
    Telling(Json),
}

/// The model of a [`Stage`].
pub enum StageView {
    Measuring,
    Tabling,
    Ruling(JsonView),
    Looking(JsonView),
    Telling(JsonView),
}

impl View for Stage {
    type V = StageView;

    open spec fn view(&self) -> StageView {
        match *self {
            Stage::Measuring => StageView::Measuring,
            Stage::Tabling => StageView::Tabling,
            Stage::Ruling(metrics) => StageView::Ruling(metrics@),
            Stage::Looking(metrics) => StageView::Looking(metrics@),
            Stage::Telling(metrics) => StageView::Telling(metrics@),
        }
    }
}

/// The collection of a profile.
pub struct Collection {
    /// The profiler.
    pub ncu: String,
    pub python: String,
    pub subject: Subject,
    pub stage: Stage,
}

/// The model of a [`Collection`].
#[verifier::ext_equal]
pub struct CollectionView {
    pub ncu: Seq<char>,
    pub python: Seq<char>,
    pub subject: SubjectView,
    pub stage: StageView,
}

impl View for Collection {
    type V = CollectionView;

    open spec fn view(&self) -> CollectionView {
        CollectionView {
            ncu: self.ncu@,
            python: self.python@,
            subject: self.subject@,
            stage: self.stage@,
        }
    }
}

/// What is to be done outside.
pub enum Ask {
    /// A process is to be run.
    Run(Process),
    /// A process is to be run whose output holds numbers.
    Tell(Process),
    /// A table is to be read, where it is there.
    Table(String),
    /// Whether a file is there.
    Look(String),
}

/// The model of an [`Ask`].
pub enum AskView {
    Run(ProcessView),
    Tell(ProcessView),
    Table(Seq<char>),
    Look(Seq<char>),
}

impl View for Ask {
    type V = AskView;

    open spec fn view(&self) -> AskView {
        match *self {
            Ask::Run(process) => AskView::Run(process@),
            Ask::Tell(process) => AskView::Tell(process@),
            Ask::Table(path) => AskView::Table(path@),
            Ask::Look(path) => AskView::Look(path@),
        }
    }
}

/// What has come of an [`Ask`].
pub enum Answer {
    Ran(Result<Json, String>),
    /// What was printed, and what the texts in it read as numbers show.
    Told(Result<Json, String>, Readings),
    /// The table, where it is there, and what the texts in it read as numbers show.
    Table(Result<Option<String>, String>, Readings),
    Looked(bool),
}

/// The model of an [`Answer`].
pub enum AnswerView {
    Ran(Result<JsonView, Seq<char>>),
    Told(Result<JsonView, Seq<char>>, ReadingsView),
    Table(Result<Option<Seq<char>>, Seq<char>>, ReadingsView),
    Looked(bool),
}

impl View for Answer {
    type V = AnswerView;

    open spec fn view(&self) -> AnswerView {
        match *self {
            Answer::Ran(result) => AnswerView::Ran(json::outcome(result)),
            Answer::Told(result, readings) => AnswerView::Told(json::outcome(result), readings@),
            Answer::Table(result, readings) => AnswerView::Table(
                match result {
                    Ok(table) => Ok(pieces::optional(table)),
                    Err(error) => Err(error@),
                },
                readings@,
            ),
            Answer::Looked(found) => AnswerView::Looked(found),
        }
    }
}

/// How far a collection has come: something is asked for, or the profile's record is made.
pub enum Progress {
    Asked(Collection, Ask),
    Made(Json),
}

/// The model of [`Progress`].
pub enum ProgressView {
    Asked(CollectionView, AskView),
    Made(JsonView),
}

impl View for Progress {
    type V = ProgressView;

    open spec fn view(&self) -> ProgressView {
        match *self {
            Progress::Asked(collection, ask) => ProgressView::Asked(collection@, ask@),
            Progress::Made(record) => ProgressView::Made(record@),
        }
    }
}

/// The path of the script.
pub open spec fn script_path(subject: SubjectView) -> Seq<char> {
    paths::path(subject.output, subject.file)
}

/// The path of the table.
pub open spec fn table_path(subject: SubjectView) -> Seq<char> {
    paths::path(subject.output, "ncu_profile_"@ + paths::stem_of(subject.file) + ".csv"@)
}

/// The path of the rules' report.
pub open spec fn report_path(subject: SubjectView) -> Seq<char> {
    paths::path(subject.output, "ncu_rules.ncu-rep"@)
}

/// The record of a failure that has none of its own.
pub open spec fn failed(reason: Seq<char>) -> ProgressView {
    ProgressView::Made(gpu_profile::settled(Err(reason)))
}

/// The collection of a profile begins: only with a profiler, and only of a script that can be
/// profiled.
pub open spec fn begun(
    ncu: Option<Seq<char>>,
    python: Option<Seq<char>>,
    subject: SubjectView,
    assets: JsonView,
) -> ProgressView {
    match (ncu, python) {
        (None, _) => ProgressView::Made(gpu_profile::failed_profile("NCU not available"@)),
        (Some(ncu), python) => if !text::begins_with(subject.file, "profile_"@) {
            failed("expected profile script"@)
        } else {
            match python {
                None => failed("GPU workloads require --python"@),
                Some(python) => match gpu_profile::collecting(
                    assets,
                    ncu,
                    python,
                    script_path(subject),
                    table_path(subject),
                    subject.names,
                ) {
                    Err(reason) => failed(reason),
                    Ok(command) => ProgressView::Asked(
                        CollectionView { ncu, python, subject, stage: StageView::Measuring },
                        AskView::Run(
                            ProcessView {
                                command: gpu_profile::with_rights(
                                    subject.runtime,
                                    subject.sudo,
                                    command,
                                ),
                                timeout_ms: 300_000,
                            },
                        ),
                    ),
                },
            }
        },
    }
}

/// The collection is over: the record is made of the metrics and the recommendations.
pub open spec fn closed(subject: SubjectView, metrics: JsonView, rules: JsonView) -> ProgressView {
    ProgressView::Made(
        gpu_profile::settled(
            gpu_profile::collected(metrics, subject.names, table_path(subject), rules),
        ),
    )
}

/// No recommendations.
pub open spec fn none() -> JsonView {
    JsonView::Array(Seq::empty())
}

/// The metrics are read: the rules are run if they are wanted.
pub open spec fn measured(collection: CollectionView, metrics: JsonView) -> ProgressView {
    let subject = collection.subject;
    if subject.full && gpu_profile::covered(metrics, subject.names) is Ok {
        ProgressView::Asked(
            CollectionView { stage: StageView::Ruling(metrics), ..collection },
            AskView::Run(
                ProcessView {
                    command: gpu_profile::with_rights(
                        subject.runtime,
                        subject.sudo,
                        gpu_profile::rules_arguments(
                            collection.ncu,
                            paths::path(subject.output, "ncu_rules"@),
                            collection.python,
                            script_path(subject),
                            subject.names,
                        ),
                    ),
                    timeout_ms: 600_000,
                },
            ),
        )
    } else {
        closed(subject, metrics, none())
    }
}

/// Whether an answer is to what was asked.
pub open spec fn admitted(stage: StageView, answer: AnswerView) -> bool {
    match stage {
        StageView::Measuring => answer is Ran,
        StageView::Tabling => answer is Table,
        StageView::Ruling(_) => answer is Ran,
        StageView::Looking(_) => answer is Looked,
        StageView::Telling(_) => answer is Told,
    }
}

/// What is asked next, given what came of what was asked. Whatever goes wrong with the rules, the
/// metrics are kept without recommendations.
pub open spec fn advanced(collection: CollectionView, answer: AnswerView) -> ProgressView {
    let subject = collection.subject;
    match (collection.stage, answer) {
        (StageView::Measuring, AnswerView::Ran(Err(reason))) => failed(reason),
        (StageView::Measuring, AnswerView::Ran(Ok(output))) => if gpu_profile::ended_well(output) {
            ProgressView::Asked(
                CollectionView { stage: StageView::Tabling, ..collection },
                AskView::Table(table_path(subject)),
            )
        } else {
            ProgressView::Made(gpu_profile::run_failed(output))
        },
        (StageView::Tabling, AnswerView::Table(Err(reason), _)) => failed(reason),
        (StageView::Tabling, AnswerView::Table(Ok(None), _)) => measured(
            collection,
            JsonView::Object(Seq::empty()),
        ),
        (StageView::Tabling, AnswerView::Table(Ok(Some(table)), readings)) => match ncu::table_metrics(
            outside::csv_table(ncu::cleaned(table)),
            subject.names,
            readings,
        ) {
            Err(reason) => failed(reason),
            Ok(metrics) => measured(collection, metrics),
        },
        (StageView::Ruling(metrics), AnswerView::Ran(Ok(output))) => if gpu_profile::ended_well(
            output,
        ) {
            ProgressView::Asked(
                CollectionView { stage: StageView::Looking(metrics), ..collection },
                AskView::Look(report_path(subject)),
            )
        } else {
            closed(subject, metrics, none())
        },
        (StageView::Looking(metrics), AnswerView::Looked(true)) => ProgressView::Asked(
            CollectionView { stage: StageView::Telling(metrics), ..collection },
            AskView::Tell(
                ProcessView {
                    command: gpu_profile::details_arguments(collection.ncu, report_path(subject)),
                    timeout_ms: 120_000,
                },
            ),
        ),
        (StageView::Telling(metrics), AnswerView::Told(Ok(output), readings)) => closed(
            subject,
            metrics,
            match gpu_profile::printed_rules(output, readings) {
                Ok(rules) => rules,
                Err(_) => none(),
            },
        ),
        (StageView::Ruling(metrics), _) => closed(subject, metrics, none()),
        (StageView::Looking(metrics), _) => closed(subject, metrics, none()),
        (StageView::Telling(metrics), _) => closed(subject, metrics, none()),
        (_, _) => failed(Seq::empty()),
    }
}

fn fail(error: String) -> (progress: Progress)
    ensures
        progress@ == failed(error@),
{
    Progress::Made(settle(Err(error)))
}

impl Subject {
    fn script(&self) -> (path: String)
        ensures
            path@ == script_path(self@),
    {
        below(self.output.as_str(), self.file.as_str())
    }

    fn table(&self) -> (path: String)
        ensures
            path@ == table_path(self@),
    {
        let stem = paths::stem(self.file.as_str());
        below(self.output.as_str(), csv_name(stem.as_str()).as_str())
    }

    fn report(&self) -> (path: String)
        ensures
            path@ == report_path(self@),
    {
        below(self.output.as_str(), "ncu_rules.ncu-rep")
    }

    fn run(&self, command: Vec<String>, timeout_ms: u64) -> (ask: Ask)
        ensures
            ask@ == AskView::Run(
                ProcessView {
                    command: gpu_profile::with_rights(
                        self@.runtime,
                        self@.sudo,
                        pieces::texts(command@),
                    ),
                    timeout_ms: timeout_ms as int,
                },
            ),
    {
        let sudo = match &self.sudo {
            Some(sudo) => Some(sudo.as_str()),
            None => None,
        };
        Ask::Run(Process { command: privileged(&self.runtime, sudo, command), timeout_ms })
    }

    fn close(&self, metrics: Json, rules: Json) -> (progress: Progress)
        ensures
            progress@ == closed(self@, metrics@, rules@),
    {
        Progress::Made(settle(collect(metrics, &self.names, self.table().as_str(), rules)))
    }
}

impl Collection {
    /// The collection of a profile, and what is asked first: `ncu` is the profiler and `python`
    /// the interpreter, where there are any.
    pub fn begin(
        ncu: Option<String>,
        python: &Option<String>,
        subject: Subject,
        assets: &Json,
    ) -> (progress: Progress)
        ensures
            progress@ == begun(
                pieces::optional(ncu),
                pieces::optional(*python),
                subject@,
                assets@,
            ),
    {
        let ncu = match ncu {
            Some(ncu) => ncu,
            None => {
                return Progress::Made(unavailable());
            },
        };
        if let Err(error) = check_script(subject.file.as_str(), python) {
            return fail(error);
        }
        let python = match python {
            Some(python) => python.clone(),
            None => {
                return fail("GPU workloads require --python".to_owned());
            },
        };
        match metrics_command(
            assets,
            ncu.as_str(),
            python.as_str(),
            subject.script().as_str(),
            subject.table().as_str(),
            &subject.names,
        ) {
            Err(error) => fail(error),
            Ok(command) => {
                let ask = subject.run(command, 300_000);
                Progress::Asked(
                    Collection { ncu, python, subject, stage: Stage::Measuring },
                    ask,
                )
            },
        }
    }

    fn measure(self, metrics: Json) -> (progress: Progress)
        ensures
            progress@ == measured(self@, metrics@),
    {
        let subject = self.subject;
        let known = subject.names.len() > 0 || metrics.fields().is_some();
        if subject.full && known {
            let command = rules_command(
                self.ncu.as_str(),
                below(subject.output.as_str(), "ncu_rules").as_str(),
                self.python.as_str(),
                subject.script().as_str(),
                &subject.names,
            );
            let ask = subject.run(command, 600_000);
            let stage = Stage::Ruling(metrics);
            Progress::Asked(Collection { ncu: self.ncu, python: self.python, subject, stage }, ask)
        } else {
            subject.close(metrics, empty_array())
        }
    }

    /// Whether an answer is to what was asked.
    pub fn admits(&self, answer: &Answer) -> (fits: bool)
        ensures
            fits == admitted(self@.stage, answer@),
    {
        match (&self.stage, answer) {
            (Stage::Measuring, Answer::Ran(_)) => true,
            (Stage::Tabling, Answer::Table(_, _)) => true,
            (Stage::Ruling(_), Answer::Ran(_)) => true,
            (Stage::Looking(_), Answer::Looked(_)) => true,
            (Stage::Telling(_), Answer::Told(_, _)) => true,
            (_, _) => false,
        }
    }

    /// What is asked next, given what came of what was asked.
    pub fn advance(self, answer: Answer) -> (progress: Progress)
        requires
            admitted(self@.stage, answer@),
        ensures
            progress@ == advanced(self@, answer@),
    {
        let Collection { ncu, python, subject, stage } = self;
        match (stage, answer) {
            (Stage::Measuring, Answer::Ran(Err(error))) => fail(error),
            (Stage::Measuring, Answer::Ran(Ok(output))) => if succeeded(&output) {
                let ask = Ask::Table(subject.table());
                Progress::Asked(Collection { ncu, python, subject, stage: Stage::Tabling }, ask)
            } else {
                Progress::Made(run_failure(&output))
            },
            (Stage::Tabling, Answer::Table(Err(error), _)) => fail(error),
            (Stage::Tabling, Answer::Table(Ok(None), _)) => {
                let empty = Fields::new().object();
                assert(empty@->Object_0 =~= Seq::empty());
                Collection { ncu, python, subject, stage: Stage::Tabling }.measure(empty)
            },
            (Stage::Tabling, Answer::Table(Ok(Some(table)), readings)) => match ncu_csv(
                table.as_str(),
                &subject.names,
                &readings,
            ) {
                Err(error) => fail(error),
                Ok(metrics) => Collection { ncu, python, subject, stage: Stage::Tabling }.measure(
                    metrics,
                ),
            },
            (Stage::Ruling(metrics), Answer::Ran(Ok(output))) => if succeeded(&output) {
                let ask = Ask::Look(subject.report());
                let stage = Stage::Looking(metrics);
                Progress::Asked(Collection { ncu, python, subject, stage }, ask)
            } else {
                subject.close(metrics, empty_array())
            },
            (Stage::Looking(metrics), Answer::Looked(true)) => {
                let command = details_command(ncu.as_str(), subject.report().as_str());
                let ask = Ask::Tell(Process { command, timeout_ms: 120_000 });
                let stage = Stage::Telling(metrics);
                Progress::Asked(Collection { ncu, python, subject, stage }, ask)
            },
            (Stage::Telling(metrics), Answer::Told(Ok(output), readings)) => {
                let rules = match read_rules(&output, &readings) {
                    Ok(rules) => rules,
                    Err(_) => empty_array(),
                };
                subject.close(metrics, rules)
            },
            (Stage::Ruling(metrics), _) => subject.close(metrics, empty_array()),
            (Stage::Looking(metrics), _) => subject.close(metrics, empty_array()),
            (Stage::Telling(metrics), _) => subject.close(metrics, empty_array()),
            (_, _) => fail(String::new()),
        }
    }
}

/// A record that is made is an object, whatever came of what was asked.
pub proof fn records_are_objects(
    ncu: Option<Seq<char>>,
    python: Option<Seq<char>>,
    subject: SubjectView,
    assets: JsonView,
    collection: CollectionView,
    answer: AnswerView,
)
    ensures
        begun(ncu, python, subject, assets) matches ProgressView::Made(record) ==> record is Object,
        advanced(collection, answer) matches ProgressView::Made(record) ==> record is Object,
{
}

/// Once the metrics are read, nothing that goes wrong with the rules loses them: the record tells
/// of a success with these metrics.
pub proof fn rules_lose_no_metrics(
    collection: CollectionView,
    metrics: JsonView,
    answer: AnswerView,
)
    requires
        gpu_profile::covered(metrics, collection.subject.names) is Ok,
        match collection.stage {
            StageView::Ruling(kept) => kept == metrics,
            StageView::Looking(kept) => kept == metrics,
            StageView::Telling(kept) => kept == metrics,
            _ => false,
        },
    ensures
        match advanced(collection, answer) {
            ProgressView::Asked(after, _) => {
                &&& after.subject == collection.subject
                &&& match after.stage {
                    StageView::Looking(kept) => kept == metrics,
                    StageView::Telling(kept) => kept == metrics,
                    _ => false,
                }
            },
            ProgressView::Made(record) => {
                &&& record is Object
                &&& record->Object_0[0] == ("success"@, JsonView::Bool(true))
                &&& record->Object_0[3] == ("metrics"@, metrics)
            },
        },
{
}

} // verus!
