//! An evaluation on a GPU, step by step.
use crate::gpu;
use crate::gpu::progress;
use crate::gpu::progress::{Evaluation, Event, Next, Phase, Task, TaskView, Work, WorkView};
use crate::gpu::{
    judge, record_candidate, record_reference, report, summarize_reference, time_reference,
    without_profiler, workload_request, Speedup, Verdict,
};
use crate::gpu_binary::artifacts;
use crate::gpu_binary::inspection;
use crate::gpu_binary::inspection::{choose_tool, Inspection};
use crate::gpu_binary::naming;
use crate::gpu_binary::naming::Naming;
use crate::gpu_binary::newest;
use crate::gpu_profile::Process;
use crate::gpu_profile::collection;
use crate::gpu_profile::collection::{Collection, Subject};
use crate::identity::{check_candidate, check_reference, check_unchanged, task_file, validate_task};
use crate::json::Json;
use crate::number::Reading;
use crate::outside;
use crate::outside::digest;
use crate::paths::below;
use crate::pieces;
use crate::pieces::copied;
use crate::scripts::script;
use crate::template::Templates;
use crate::text::same;
use vstd::prelude::*;

verus! {

/// The model of what comes next.
pub open spec fn next_view(next: (Evaluation, Work)) -> Next {
    (next.0@, next.1@)
}

fn go_on(task: Task, phase: Phase, work: Work) -> (next: (Evaluation, Work))
    ensures
        next_view(next) == progress::onward(task@, phase@, work@),
{
    (Evaluation { task, phase }, work)
}

fn abort(task: Task, reason: String) -> (next: (Evaluation, Work))
    ensures
        next_view(next) == progress::aborted(task@, reason@),
{
    go_on(task, Phase::Over, Work::Abort(reason))
}

fn whole(output: &str, files: &Vec<String>) -> (list: Vec<String>)
    ensures
        pieces::texts(list@) == progress::whole(output@, pieces::texts(files@)),
{
    let ghost wanted = progress::whole(output@, pieces::texts(files@));
    let mut list: Vec<String> = Vec::new();
    let mut index: usize = 0;
    while index < files.len()
        invariant
            index <= files@.len(),
            wanted == progress::whole(output@, pieces::texts(files@)),
            list@.len() == index,
            forall|i: int| 0 <= i < index ==> (#[trigger] list@[i])@ == wanted[i],
        decreases files@.len() - index,
    {
        list.push(below(output, files[index].as_str()));
        index += 1;
    }
    assert(pieces::texts(list@) =~= wanted);
    list
}

fn digests(files: Vec<String>, contents: &Vec<Vec<u8>>) -> (list: Vec<(String, String)>)
    requires
        files@.len() == contents@.len(),
    ensures
        gpu::pairs_view(list@) == progress::digested(
            pieces::texts(files@),
            progress::contents_view(contents@),
        ),
{
    let ghost wanted = progress::digested(
        pieces::texts(files@),
        progress::contents_view(contents@),
    );
    let mut list: Vec<(String, String)> = Vec::new();
    let mut index: usize = 0;
    while index < files.len()
        invariant
            index <= files@.len(),
            files@.len() == contents@.len(),
            wanted == progress::digested(
                pieces::texts(files@),
                progress::contents_view(contents@),
            ),
            list@.len() == index,
            forall|i: int|
                0 <= i < index ==> ((#[trigger] list@[i]).0@, list@[i].1@) == wanted[i],
        decreases files@.len() - index,
    {
        list.push((files[index].clone(), digest(contents[index].as_slice())));
        index += 1;
    }
    assert(gpu::pairs_view(list@) =~= wanted);
    list
}

impl Task {
    fn script(&self, name: &str) -> (result: Result<String, String>)
        ensures
            pieces::told(result) == progress::script_of(self@, name@),
    {
        script(name, &self.payload, self.source_name.as_str(), &self.templates)
    }

    fn libraries(&self, files: &Vec<String>) -> (list: Vec<String>)
        ensures
            pieces::texts(list@) == progress::libraries(self@, pieces::texts(files@)),
    {
        whole(self.output.as_str(), &artifacts::libraries(files))
    }

    fn subject(&self, file: &str, names: Vec<String>, full: bool, sudo: Option<String>) -> (subject:
        Subject)
        ensures
            subject@ == progress::subject_of(
                self@,
                file@,
                pieces::texts(names@),
                full,
                pieces::optional(sudo),
            ),
    {
        Subject {
            sudo,
            output: self.output.clone(),
            file: file.to_owned(),
            names,
            full,
            runtime: self.observation.at("runtime").clone(),
        }
    }

    fn open(self) -> (next: (Evaluation, Work))
        requires
            self@.payload is Object,
        ensures
            next_view(next) == progress::opened(self@),
            progress::sound(next.0@),
    {
        let file = match task_file(self.payload.at("problem")) {
            Err(error) => Err(error),
            Ok(Some(path)) => Ok(Some(path.to_owned())),
            Ok(None) => Ok(None),
        };
        match file {
            Err(error) => abort(self, error),
            Ok(Some(path)) => go_on(self, Phase::Checking, Work::Read(path)),
            Ok(None) => self.check(),
        }
    }

    fn check(self) -> (next: (Evaluation, Work))
        requires
            self@.payload is Object,
        ensures
            next_view(next) == progress::checked(self@),
            progress::sound(next.0@),
    {
        if self.candidate {
            let path = match self.payload.at("source").text() {
                Some(path) => path.to_owned(),
                None => {
                    return abort(self, "candidate source".to_owned());
                },
            };
            go_on(self, Phase::Sourcing, Work::Read(path))
        } else {
            self.identify()
        }
    }

    fn identify(self) -> (next: (Evaluation, Work))
        requires
            self@.payload is Object,
        ensures
            next_view(next) == progress::identified(self@),
            progress::sound(next.0@),
    {
        let ghost before = self@;
        let mut task = self;
        let request = workload_request(task.payload.clone(), task.candidate);
        task.payload = request.clone();
        assert(task@ =~= TaskView { payload: request@, ..before });
        go_on(task, Phase::Observing, Work::Observe(request))
    }

    fn source(self, bytes: &Vec<u8>) -> (next: (Evaluation, Work))
        requires
            self@.payload is Object,
        ensures
            next_view(next) == progress::sourced(self@, outside::sha256(bytes@)),
            progress::sound(next.0@),
    {
        let ghost before = self@;
        let now = digest(bytes.as_slice());
        if let Err(error) = check_candidate(&self.payload, now.as_str()) {
            return abort(self, error);
        }
        if let Err(error) = check_reference(&self.payload) {
            return abort(self, error);
        }
        let mut task = self;
        task.digest = now;
        assert(task@ =~= TaskView { digest: now@, ..before });
        task.identify()
    }

    fn observe(self, observation: Json) -> (next: (Evaluation, Work))
        requires
            self@.payload is Object,
        ensures
            next_view(next) == progress::observed(self@, observation@),
            progress::sound(next.0@),
    {
        let ghost before = self@;
        let mut task = self;
        let judged = if task.candidate {
            judge(&observation)
        } else {
            match time_reference(&observation) {
                Err(error) => Err(error),
                Ok(seconds) => Ok(Verdict { error: Json::Null, seconds: Some(seconds) }),
            }
        };
        task.observation = observation;
        assert(task@ =~= TaskView { observation: observation@, ..before });
        let verdict = match judged {
            Err(error) => {
                return abort(task, error);
            },
            Ok(verdict) => verdict,
        };
        let failed = !verdict.error.is_null();
        task.verdict = verdict;
        assert(task@ =~= TaskView { observation: observation@, verdict: verdict@, ..before });
        if !task.candidate {
            return go_on(task, Phase::Probing, Work::Seek);
        }
        if failed {
            task.report(Json::Null)
        } else {
            task.bench()
        }
    }

    fn bench(self) -> (next: (Evaluation, Work))
        requires
            self@.payload is Object,
        ensures
            next_view(next) == progress::benched(self@),
            progress::sound(next.0@),
    {
        match self.script("benchmark") {
            Err(_) => go_on(self, Phase::Listing, Work::Tools),
            Ok(content) => {
                let path = below(self.output.as_str(), "benchmark_solution.py");
                go_on(self, Phase::Benching, Work::Write(path, content))
            },
        }
    }

    fn name(self, naming: Naming, process: Option<Process>) -> (next: (Evaluation, Work))
        requires
            self@.payload is Object,
            process is Some ==> naming@.open(),
        ensures
            next_view(next) == progress::named(
                self@,
                naming@,
                naming::optional_process(process),
            ),
            progress::sound(next.0@),
    {
        match process {
            Some(process) => go_on(self, Phase::Naming(naming), Work::Run(process)),
            None => match self.script("candidate") {
                Err(error) => self.report(report(Err(error), Json::Null)),
                Ok(content) => {
                    let path = below(self.output.as_str(), "profile_solution.py");
                    go_on(self, Phase::Writing(naming.names), Work::Write(path, content))
                },
            },
        }
    }

    fn collect(self, made: collection::Progress) -> (next: (Evaluation, Work))
        requires
            self@.payload is Object,
            made@ matches collection::ProgressView::Made(record) ==> record is Object,
        ensures
            next_view(next) == progress::collected(self@, made@),
            progress::sound(next.0@),
    {
        match made {
            collection::Progress::Asked(collection, ask) => go_on(
                self,
                Phase::Collecting(collection),
                Work::Collect(ask),
            ),
            collection::Progress::Made(record) => if self.candidate {
                go_on(self, Phase::Gathering(record), Work::List)
            } else {
                let shown = record.clone();
                go_on(self, Phase::Summing(record), Work::Sum(shown))
            },
        }
    }

    fn leave_uninspected(self, made: Json) -> (next: (Evaluation, Work))
        requires
            self@.payload is Object,
            made@ is Object,
        ensures
            next_view(next) == progress::uninspected(self@, made@),
            progress::sound(next.0@),
    {
        self.report(report(Ok(made), Json::Null))
    }

    fn inspect(self, made: Json, progress: inspection::Progress) -> (next: (Evaluation, Work))
        requires
            self@.payload is Object,
            made@ is Object,
        ensures
            next_view(next) == progress::inspected(self@, made@, progress@),
            progress::sound(next.0@),
    {
        match progress {
            inspection::Progress::Run(inspection, process) => go_on(
                self,
                Phase::Inspecting(made, inspection),
                Work::Run(process),
            ),
            inspection::Progress::Made(Ok(record)) => self.report(report(Ok(made), record)),
            inspection::Progress::Made(Err(_)) => self.leave_uninspected(made),
        }
    }

    fn report(self, made: Json) -> (next: (Evaluation, Work))
        requires
            self@.payload is Object,
        ensures
            next_view(next) == progress::reported(self@, made@),
            progress::sound(next.0@),
    {
        let path = match self.payload.at("source").text() {
            Some(path) => path.to_owned(),
            None => {
                return abort(self, "candidate source".to_owned());
            },
        };
        go_on(self, Phase::Rereading(made), Work::Read(path))
    }

    fn recheck(self, made: Json) -> (next: (Evaluation, Work))
        requires
            self@.payload is Object,
        ensures
            next_view(next) == progress::rechecked(self@, made@),
            progress::sound(next.0@),
    {
        let file = match task_file(self.payload.at("problem")) {
            Err(error) => Err(error),
            Ok(Some(path)) => Ok(Some(path.to_owned())),
            Ok(None) => Ok(None),
        };
        match file {
            Err(error) => abort(self, error),
            Ok(Some(path)) => go_on(self, Phase::Rechecking(made), Work::Read(path)),
            Ok(None) => self.weigh(made),
        }
    }

    fn weigh(self, made: Json) -> (next: (Evaluation, Work))
        requires
            self@.payload is Object,
        ensures
            next_view(next) == progress::weighed(self@, made@),
            progress::sound(next.0@),
    {
        let seconds = match &self.verdict.seconds {
            Some(seconds) => seconds.clone(),
            None => {
                return go_on(self, Phase::Keeping(made, None), Work::List);
            },
        };
        if !self.candidate {
            let record = record_reference(seconds, made, self.payload.at("problem"), "gpu");
            return go_on(self, Phase::Over, Work::Finish(record));
        }
        let reference = match self.payload.at("reference").at("reference_seconds").reading() {
            Some(reference) => reference.clone(),
            None => {
                return abort(self, "reference timing".to_owned());
            },
        };
        go_on(self, Phase::Weighing(made), Work::Divide(reference, seconds))
    }

    fn complete(self, made: Json, speedup: Option<Reading>, artifacts: Vec<(String, String)>) -> (next: (
        Evaluation,
        Work,
    ))
        requires
            self@.payload is Object,
        ensures
            next_view(next) == progress::completed(
                self@,
                made@,
                crate::number::optional_reading(speedup),
                gpu::pairs_view(artifacts@),
            ),
            progress::sound(next.0@),
    {
        let given: Option<Speedup> = match speedup {
            Some(reading) => Some(Some(reading)),
            None => None,
        };
        let verdict = Verdict {
            error: self.verdict.error.clone(),
            seconds: self.verdict.seconds.clone(),
        };
        match record_candidate(
            &self.payload,
            self.digest.as_str(),
            verdict,
            made,
            self.observation.at("runtime"),
            &artifacts,
            given,
        ) {
            Ok(record) => go_on(self, Phase::Over, Work::Finish(record)),
            Err(error) => abort(self, error),
        }
    }
}

impl Evaluation {
    /// An evaluation, and what is to be done first: its directory is made. An operation of another
    /// name than `evaluate` is on the reference.
    pub fn new(
        operation: &str,
        payload: Json,
        python: Option<String>,
        source_name: String,
        assets: Json,
        templates: Templates,
    ) -> (made: Result<(Self, Work), String>)
        ensures
            match made {
                Ok((evaluation, work)) => {
                    let task = evaluation@.task;
                    &&& progress::sound(evaluation@)
                    &&& payload@.at("output_dir"@).text() == Some(task.output)
                    &&& task.payload == payload@ && task.candidate == (operation@ == "evaluate"@)
                        && task.python == pieces::optional(python) && task.source_name
                        == source_name@ && task.assets == assets@ && task.templates == templates@
                    &&& evaluation@.phase is Opening
                    &&& work@ == WorkView::Open(task.output)
                },
                Err(error) => payload@.at("output_dir"@).text() is None && error@ == "GPU output"@,
            },
    {
        let output = match payload.at("output_dir").text() {
            Some(output) => output.to_owned(),
            None => {
                return Err("GPU output".to_owned());
            },
        };
        let directory = output.clone();
        let task = Task {
            payload,
            candidate: same(operation, "evaluate"),
            output,
            python,
            source_name,
            assets,
            templates,
            digest: String::new(),
            observation: Json::Null,
            verdict: Verdict { error: Json::Null, seconds: None },
        };
        Ok((Evaluation { task, phase: Phase::Opening }, Work::Open(directory)))
    }

    /// The environment of the processes that are run once the workload was observed.
    pub fn environment(&self) -> (made: Json)
        ensures
            made@ == progress::environment(self@.task),
    {
        let output = self.task.output.as_str();
        gpu::environment(
            &self.task.payload,
            self.task.observation.at("runtime"),
            below(output, "build").as_str(),
            below(output, "triton").as_str(),
        )
    }

    /// Whether an event is what is waited for.
    pub fn admits(&self, event: &Event) -> (fits: bool)
        ensures
            fits == progress::admitted(self@.phase, event@),
    {
        match (&self.phase, event) {
            (Phase::Opening, Event::Done(_)) => true,
            (Phase::Checking, Event::Bytes(_)) => true,
            (Phase::Sourcing, Event::Bytes(_)) => true,
            (Phase::Observing, Event::Observed(_)) => true,
            (Phase::Probing, Event::Found(_, _)) => true,
            (Phase::Drafting(_, _), Event::Done(_)) => true,
            (Phase::Benching, Event::Done(_)) => true,
            (Phase::Listing, Event::Tools(_, _)) => true,
            (Phase::Naming(_), Event::Ran(_)) => true,
            (Phase::Writing(_), Event::Done(_)) => true,
            (Phase::Seeking(_), Event::Found(_, _)) => true,
            (Phase::Collecting(collection), Event::Answered(answer)) => collection.admits(answer),
            (Phase::Summing(_), Event::Summed(_, _)) => true,
            (Phase::Gathering(_), Event::Files(_)) => true,
            (Phase::Dating(_, libraries), Event::Dated(result, _, _)) => match result {
                Ok(times) => times.len() == libraries.len(),
                Err(_) => true,
            },
            (Phase::Inspecting(_, _), Event::Ran(_)) => true,
            (Phase::Rereading(_), Event::Bytes(_)) => true,
            (Phase::Rechecking(_), Event::Bytes(_)) => true,
            (Phase::Weighing(_), Event::Divided(_)) => true,
            (Phase::Keeping(_, _), Event::Files(_)) => true,
            (Phase::Digesting(_, _, files), Event::Contents(result)) => match result {
                Ok(contents) => contents.len() == files.len(),
                Err(_) => true,
            },
            (_, _) => false,
        }
    }

    /// What comes next, given what has come of the work.
    pub fn advance(self, event: Event) -> (next: (Self, Work))
        requires
            progress::sound(self@),
            progress::admitted(self@.phase, event@),
        ensures
            next_view(next) == progress::advanced(self@, event@),
            progress::sound(next.0@),
    {
        let Evaluation { task, phase } = self;
        match (phase, event) {
            (Phase::Opening, Event::Done(Err(error))) => abort(task, error),
            (Phase::Opening, Event::Done(Ok(_))) => task.open(),
            (Phase::Checking, Event::Bytes(Err(error))) => abort(task, error),
            (Phase::Checking, Event::Bytes(Ok(bytes))) => match validate_task(
                task.payload.at("problem"),
                &bytes,
            ) {
                Err(error) => abort(task, error),
                Ok(_) => task.check(),
            },
            (Phase::Sourcing, Event::Bytes(Err(error))) => abort(task, error),
            (Phase::Sourcing, Event::Bytes(Ok(bytes))) => task.source(&bytes),
            (Phase::Observing, Event::Observed(Err(error))) => abort(task, error),
            (Phase::Observing, Event::Observed(Ok(observation))) => task.observe(observation),
            (Phase::Probing, Event::Found(None, _)) => task.recheck(without_profiler()),
            (Phase::Probing, Event::Found(Some(ncu), sudo)) => match task.script("reference") {
                Err(error) => abort(task, error),
                Ok(content) => {
                    let path = below(task.output.as_str(), "profile_reference.py");
                    go_on(task, Phase::Drafting(ncu, sudo), Work::Write(path, content))
                },
            },
            (Phase::Drafting(_, _), Event::Done(Err(error))) => abort(task, error),
            (Phase::Drafting(ncu, sudo), Event::Done(Ok(_))) => {
                let names: Vec<String> = Vec::new();
                assert(pieces::texts(names@) =~= Seq::<Seq<char>>::empty());
                let subject = task.subject("profile_reference.py", names, false, sudo);
                let made = Collection::begin(Some(ncu), &task.python, subject, &task.assets);
                task.collect(made)
            },
            (Phase::Benching, Event::Done(_)) => go_on(task, Phase::Listing, Work::Tools),
            (Phase::Listing, Event::Tools(tools, files)) => {
                let (naming, process) = Naming::new(tools, task.libraries(&files));
                task.name(naming, process)
            },
            (Phase::Naming(naming), Event::Ran(result)) => {
                let mut naming = naming;
                let process = naming.advance(result);
                task.name(naming, process)
            },
            (Phase::Writing(_), Event::Done(Err(error))) => task.report(
                report(Err(error), Json::Null),
            ),
            (Phase::Writing(names), Event::Done(Ok(_))) => go_on(
                task,
                Phase::Seeking(names),
                Work::Seek,
            ),
            (Phase::Seeking(names), Event::Found(ncu, sudo)) => {
                let full = task.payload.at("ncu_full").is_true();
                let subject = task.subject("profile_solution.py", names, full, sudo);
                let made = Collection::begin(ncu, &task.python, subject, &task.assets);
                task.collect(made)
            },
            (Phase::Collecting(collection), Event::Answered(answer)) => {
                let made = collection.advance(answer);
                task.collect(made)
            },
            (Phase::Summing(made), Event::Summed(readings, latency)) => {
                match summarize_reference(&made, &readings, &latency) {
                    Err(error) => abort(task, error),
                    Ok(profile) => task.recheck(profile),
                }
            },
            (Phase::Gathering(made), Event::Files(files)) => {
                let found = task.libraries(&files);
                if found.len() == 0 {
                    task.leave_uninspected(made)
                } else {
                    let listed = copied(&found);
                    go_on(task, Phase::Dating(made, found), Work::Date(listed))
                }
            },
            (Phase::Dating(made, _), Event::Dated(Err(_), _, _)) => task.leave_uninspected(made),
            (Phase::Dating(made, found), Event::Dated(Ok(times), tool, standing)) => {
                match newest(&times) {
                    None => task.leave_uninspected(made),
                    Some(place) => {
                        assert(pieces::texts(found@)[place as int] == found@[place as int]@);
                        let (inspection, process) = Inspection::new(
                            choose_tool(tool, &standing),
                            found[place].clone(),
                        );
                        go_on(task, Phase::Inspecting(made, inspection), Work::Run(process))
                    },
                }
            },
            (Phase::Inspecting(made, inspection), Event::Ran(result)) => {
                let after = inspection.advance(result, &task.assets);
                task.inspect(made, after)
            },
            (Phase::Rereading(_), Event::Bytes(Err(error))) => abort(task, error),
            (Phase::Rereading(made), Event::Bytes(Ok(bytes))) => match check_unchanged(
                task.digest.as_str(),
                digest(bytes.as_slice()).as_str(),
            ) {
                Err(error) => abort(task, error),
                Ok(_) => task.recheck(made),
            },
            (Phase::Rechecking(_), Event::Bytes(Err(error))) => abort(task, error),
            (Phase::Rechecking(made), Event::Bytes(Ok(bytes))) => match validate_task(
                task.payload.at("problem"),
                &bytes,
            ) {
                Err(error) => abort(task, error),
                Ok(_) => task.weigh(made),
            },
            (Phase::Weighing(_), Event::Divided(None)) => abort(
                task,
                "speedup must be finite".to_owned(),
            ),
            (Phase::Weighing(made), Event::Divided(Some(speedup))) => go_on(
                task,
                Phase::Keeping(made, Some(speedup)),
                Work::List,
            ),
            (Phase::Keeping(made, speedup), Event::Files(files)) => {
                let kept = artifacts::artifacts(&files);
                let listed = whole(task.output.as_str(), &kept);
                go_on(task, Phase::Digesting(made, speedup, kept), Work::Digest(listed))
            },
            (Phase::Digesting(_, _, _), Event::Contents(Err(error))) => abort(task, error),
            (Phase::Digesting(made, speedup, files), Event::Contents(Ok(contents))) => {
                let pairs = digests(files, &contents);
                task.complete(made, speedup, pairs)
            },
            (_, _) => abort(task, String::new()),
        }
    }
}

} // verus!
