//! Running the profiler.
pub mod collection;

use crate::analysis;
use crate::analysis::group_name;
use crate::fields;
use crate::fields::Fields;
use crate::json;
use crate::json::{Json, JsonView};
use crate::lines::Lines;
use crate::models::strict;
use crate::models::strict::keys_of;
use crate::number::{Readings, ReadingsView};
use crate::outside;
use crate::pieces;
use crate::pieces::escape;
use crate::profilers::rules;
use crate::text::starts_with;
use vstd::prelude::*;

verus! {

/// A process that is to be run.
pub struct Process {
    pub command: Vec<String>,
    pub timeout_ms: u64,
}

/// The model of a [`Process`].
#[verifier::ext_equal]
pub struct ProcessView {
    pub command: Seq<Seq<char>>,
    pub timeout_ms: int,
}

impl View for Process {
    type V = ProcessView;

    open spec fn view(&self) -> ProcessView {
        ProcessView { command: pieces::texts(self.command@), timeout_ms: self.timeout_ms as int }
    }
}

/// The argument that limits a profile to the kernels of some names.
pub open spec fn filter_of(names: Seq<Seq<char>>) -> Seq<char> {
    "--kernel-name=regex:("@ + pieces::joined(
        Seq::new(names.len(), |i: int| pieces::escaped(names[i])),
        "|"@,
    ) + ")"@
}

/// The argument that limits a profile to the kernels of some names.
pub fn kernel_filter(names: &Vec<String>) -> (argument: String)
    ensures
        argument@ == filter_of(pieces::texts(names@)),
{
    let ghost all = pieces::texts(names@);
    let ghost wanted = Seq::new(all.len(), |i: int| pieces::escaped(all[i]));
    let mut list = Lines::new();
    let mut index: usize = 0;
    while index < names.len()
        invariant
            index <= names@.len(),
            all == pieces::texts(names@),
            wanted == Seq::new(all.len(), |i: int| pieces::escaped(all[i])),
            list@ == wanted.take(index as int),
        decreases names@.len() - index,
    {
        list.push(escape(names[index].as_str()));
        index += 1;
        assert(list@ =~= wanted.take(index as int));
    }
    assert(wanted.take(index as int) =~= wanted);
    "--kernel-name=regex:(".to_owned().concat(list.join("|").as_str()).concat(")")
}

/// The items of the first `end` groups of metrics.
pub open spec fn grouped(assets: JsonView, end: int) -> Result<Seq<JsonView>, Seq<char>>
    decreases end,
{
    if end <= 0 {
        Ok(Seq::empty())
    } else {
        match grouped(assets, end - 1) {
            Err(reason) => Err(reason),
            Ok(before) => match assets.at("metrics"@).at(analysis::group(end - 1)) {
                JsonView::Array(items) => Ok(before + items),
                _ => Err("metric group"@),
            },
        }
    }
}

/// The names among the first `end` items.
pub open spec fn named(items: Seq<JsonView>, end: int) -> Result<Seq<Seq<char>>, Seq<char>>
    decreases end,
{
    if end <= 0 {
        Ok(Seq::empty())
    } else {
        match named(items, end - 1) {
            Err(reason) => Err(reason),
            Ok(before) => match items[end - 1] {
                JsonView::Text(name) => Ok(before.push(name)),
                _ => Err("metric name"@),
            },
        }
    }
}

/// The metrics to collect, with commas between them.
pub open spec fn metric_names(assets: JsonView) -> Result<Seq<char>, Seq<char>> {
    match grouped(assets, 6) {
        Err(reason) => Err(reason),
        Ok(items) => match named(items, items.len() as int) {
            Err(reason) => Err(reason),
            Ok(names) => Ok(pieces::joined(names, ","@)),
        },
    }
}

proof fn lemma_grouped_refused(assets: JsonView, index: int, end: int)
    requires
        0 <= index < end,
        grouped(assets, index + 1) is Err,
    ensures
        grouped(assets, end) == grouped(assets, index + 1),
    decreases end,
{
    if end > index + 1 {
        lemma_grouped_refused(assets, index, end - 1);
    }
}

proof fn lemma_named_refused(items: Seq<JsonView>, index: int, end: int)
    requires
        0 <= index < end,
        named(items, index + 1) is Err,
    ensures
        named(items, end) == named(items, index + 1),
    decreases end,
{
    if end > index + 1 {
        lemma_named_refused(items, index, end - 1);
    }
}

fn collect_groups(assets: &Json) -> (result: Result<Vec<Json>, String>)
    ensures
        match result {
            Ok(items) => grouped(assets@, 6) == Ok::<Seq<JsonView>, Seq<char>>(
                json::items_view(items@),
            ),
            Err(error) => grouped(assets@, 6) == Err::<Seq<JsonView>, Seq<char>>(error@),
        },
{
    let mut list: Vec<Json> = Vec::new();
    let mut index: usize = 0;
    assert(json::items_view(list@) =~= Seq::<JsonView>::empty());
    while index < 6
        invariant
            index <= 6,
            grouped(assets@, index as int) == Ok::<Seq<JsonView>, Seq<char>>(
                json::items_view(list@),
            ),
        decreases 6 - index,
    {
        match assets.at("metrics").at(group_name(index)).items() {
            Some(items) => {
                append_items(&mut list, items);
            },
            None => {
                proof {
                    lemma_grouped_refused(assets@, index as int, 6);
                }
                return Err("metric group".to_owned());
            },
        }
        index += 1;
    }
    Ok(list)
}

fn append_items(list: &mut Vec<Json>, items: &Vec<Json>)
    ensures
        json::items_view(final(list)@) == json::items_view(old(list)@) + json::items_view(items@),
{
    let ghost before = json::items_view(list@);
    let ghost all = json::items_view(items@);
    let mut index: usize = 0;
    assert(before + all.take(0) =~= before);
    while index < items.len()
        invariant
            index <= items@.len(),
            before == json::items_view(old(list)@),
            all == json::items_view(items@),
            json::items_view(list@) == before + all.take(index as int),
        decreases items@.len() - index,
    {
        let copy = items[index].clone();
        proof {
            json::lemma_items_push(list@, copy);
        }
        list.push(copy);
        index += 1;
        assert(before + all.take(index as int) =~= (before + all.take(index - 1)).push(all[index - 1]));
    }
    assert(all.take(index as int) =~= all);
}

fn collect_names(items: &Vec<Json>) -> (result: Result<Lines, String>)
    ensures
        match result {
            Ok(names) => named(json::items_view(items@), items@.len() as int) == Ok::<
                Seq<Seq<char>>,
                Seq<char>,
            >(names@),
            Err(error) => named(json::items_view(items@), items@.len() as int) == Err::<
                Seq<Seq<char>>,
                Seq<char>,
            >(error@),
        },
{
    let ghost all = json::items_view(items@);
    let mut names = Lines::new();
    let mut index: usize = 0;
    while index < items.len()
        invariant
            index <= items@.len(),
            all == json::items_view(items@),
            named(all, index as int) == Ok::<Seq<Seq<char>>, Seq<char>>(names@),
        decreases items@.len() - index,
    {
        assert(all[index as int] == items@[index as int]@);
        match items[index].text() {
            Some(name) => {
                names.add_text(name);
            },
            None => {
                proof {
                    lemma_named_refused(all, index as int, all.len() as int);
                }
                return Err("metric name".to_owned());
            },
        }
        index += 1;
    }
    Ok(names)
}

/// The arguments before the names.
pub open spec fn first_arguments(ncu: Seq<char>, csv: Seq<char>) -> Seq<Seq<char>> {
    seq![
        ncu,
        "--csv"@,
        "--page=raw"@,
        "--kernel-name-base=demangled"@,
        "--target-processes=application-only"@,
        "--replay-mode=kernel"@,
        "--profile-from-start=on"@,
        "--log-file="@ + csv,
    ]
}

/// The arguments behind the names.
pub open spec fn last_arguments(
    metrics: Seq<char>,
    launches: Seq<char>,
    python: Seq<char>,
    script: Seq<char>,
) -> Seq<Seq<char>> {
    seq![
        "--metrics="@ + metrics,
        "--launch-skip=5"@,
        "--launch-count="@ + launches,
        python,
        script,
    ]
}

/// The argument for names, if there are any.
pub open spec fn name_arguments(names: Seq<Seq<char>>) -> Seq<Seq<char>> {
    if names.len() == 0 {
        Seq::empty()
    } else {
        seq![filter_of(names)]
    }
}

/// The command that collects metrics.
pub open spec fn collecting(
    assets: JsonView,
    ncu: Seq<char>,
    python: Seq<char>,
    script: Seq<char>,
    csv: Seq<char>,
    names: Seq<Seq<char>>,
) -> Result<Seq<Seq<char>>, Seq<char>> {
    match metric_names(assets) {
        Err(reason) => Err(reason),
        Ok(metrics) => Ok(
            first_arguments(ncu, csv) + name_arguments(names) + last_arguments(
                metrics,
                if names.len() == 0 {
                    "5"@
                } else {
                    "1"@
                },
                python,
                script,
            ),
        ),
    }
}

/// The command that collects metrics of the kernels of some names, or of a library's kernels where
/// none are named.
pub fn metrics_command(
    assets: &Json,
    ncu: &str,
    python: &str,
    script: &str,
    csv: &str,
    names: &Vec<String>,
) -> (result: Result<Vec<String>, String>)
    ensures
        outside::listed(result) == collecting(
            assets@,
            ncu@,
            python@,
            script@,
            csv@,
            pieces::texts(names@),
        ),
{
    let items = match collect_groups(assets) {
        Ok(items) => items,
        Err(error) => {
            return Err(error);
        },
    };
    assert(json::items_view(items@).len() == items@.len());
    let metrics = match collect_names(&items) {
        Ok(list) => list.join(","),
        Err(error) => {
            return Err(error);
        },
    };
    let ghost last = last_arguments(
        metrics@,
        if names@.len() == 0 {
            "5"@
        } else {
            "1"@
        },
        python@,
        script@,
    );
    let mut command = Lines::new();
    command.add_text(ncu);
    command.add_text("--csv");
    command.add_text("--page=raw");
    command.add_text("--kernel-name-base=demangled");
    command.add_text("--target-processes=application-only");
    command.add_text("--replay-mode=kernel");
    command.add_text("--profile-from-start=on");
    command.push("--log-file=".to_owned().concat(csv));
    assert(command@ =~= first_arguments(ncu@, csv@));
    if names.len() > 0 {
        command.push(kernel_filter(names));
    }
    assert(command@ =~= first_arguments(ncu@, csv@) + name_arguments(pieces::texts(names@)));
    command.push("--metrics=".to_owned().concat(metrics.as_str()));
    command.add_text("--launch-skip=5");
    command.push(
        "--launch-count=".to_owned().concat(
            if names.len() == 0 {
                "5"
            } else {
                "1"
            },
        ),
    );
    command.add_text(python);
    command.add_text(script);
    assert(command@ =~= first_arguments(ncu@, csv@) + name_arguments(pieces::texts(names@)) + last);
    Ok(command.list)
}

/// A command with the rights that the profiler needs: under `sudo`, where that is found, unless
/// the user is the superuser.
pub open spec fn with_rights(
    runtime: JsonView,
    sudo: Option<Seq<char>>,
    command: Seq<Seq<char>>,
) -> Seq<Seq<char>> {
    match sudo {
        Some(sudo) => if runtime.at("uid"@).is_integer(0) {
            command
        } else {
            seq![
                sudo,
                "-E"@,
                "--preserve-env=PATH,LD_LIBRARY_PATH,CUDA_VISIBLE_DEVICES,TORCH_EXTENSIONS_DIR"@,
            ] + command
        },
        None => command,
    }
}

/// A command with the rights that the profiler needs, where `sudo` is where that program is found.
pub fn privileged(runtime: &Json, sudo: Option<&str>, command: Vec<String>) -> (full: Vec<String>)
    ensures
        pieces::texts(full@) == with_rights(
            runtime@,
            match sudo {
                Some(sudo) => Some(sudo@),
                None => None,
            },
            pieces::texts(command@),
        ),
{
    match sudo {
        Some(sudo) => {
            if runtime.at("uid").is_integer(0) {
                return command;
            }
            let ghost given = pieces::texts(command@);
            let mut full = Lines::new();
            full.add_text(sudo);
            full.add_text("-E");
            full.add_text(
                "--preserve-env=PATH,LD_LIBRARY_PATH,CUDA_VISIBLE_DEVICES,TORCH_EXTENSIONS_DIR",
            );
            let ghost first = full@;
            let mut index: usize = 0;
            assert(first + given.take(0) =~= first);
            while index < command.len()
                invariant
                    index <= command@.len(),
                    given == pieces::texts(command@),
                    full@ == first + given.take(index as int),
                decreases command@.len() - index,
            {
                full.add_text(command[index].as_str());
                index += 1;
                assert(full@ =~= first + given.take(index as int));
            }
            assert(given.take(index as int) =~= given);
            assert(full@ =~= with_rights(runtime@, Some(sudo@), given));
            full.list
        },
        None => command,
    }
}

/// The command that runs the profiler's rules.
pub open spec fn rules_arguments(
    ncu: Seq<char>,
    base: Seq<char>,
    python: Seq<char>,
    script: Seq<char>,
    names: Seq<Seq<char>>,
) -> Seq<Seq<char>> {
    seq![
        ncu,
        "--set"@,
        "full"@,
        "--launch-skip"@,
        "0"@,
        "--launch-count"@,
        "1"@,
        "-f"@,
        "-o"@,
        base,
    ] + name_arguments(names) + seq![python, script]
}

/// The command that runs the profiler's rules and keeps their report under `base`.
pub fn rules_command(ncu: &str, base: &str, python: &str, script: &str, names: &Vec<String>) -> (command:
    Vec<String>)
    ensures
        pieces::texts(command@) == rules_arguments(
            ncu@,
            base@,
            python@,
            script@,
            pieces::texts(names@),
        ),
{
    let mut command = Lines::new();
    command.add_text(ncu);
    command.add_text("--set");
    command.add_text("full");
    command.add_text("--launch-skip");
    command.add_text("0");
    command.add_text("--launch-count");
    command.add_text("1");
    command.add_text("-f");
    command.add_text("-o");
    command.add_text(base);
    if names.len() > 0 {
        command.push(kernel_filter(names));
    }
    command.add_text(python);
    command.add_text(script);
    assert(command@ =~= rules_arguments(ncu@, base@, python@, script@, pieces::texts(names@)));
    command.list
}

/// The command that prints a report of the profiler's rules.
pub open spec fn details_arguments(ncu: Seq<char>, report: Seq<char>) -> Seq<Seq<char>> {
    seq![ncu, "--import"@, report, "--page"@, "details"@]
}

/// The command that prints a report of the profiler's rules.
pub fn details_command(ncu: &str, report: &str) -> (command: Vec<String>)
    ensures
        pieces::texts(command@) == details_arguments(ncu@, report@),
{
    let mut command = Lines::new();
    command.add_text(ncu);
    command.add_text("--import");
    command.add_text(report);
    command.add_text("--page");
    command.add_text("details");
    assert(command@ =~= details_arguments(ncu@, report@));
    command.list
}

/// Whether a process ended well.
pub open spec fn ended_well(output: JsonView) -> bool {
    output.at("exitCode"@).is_integer(0)
}

/// Whether a process ended well.
pub fn succeeded(output: &Json) -> (well: bool)
    ensures
        well == ended_well(output@),
{
    output.at("exitCode").is_integer(0)
}

/// The recommendations in the report that a process printed, none where it failed.
pub open spec fn printed_rules(output: JsonView, readings: ReadingsView) -> Result<
    JsonView,
    Seq<char>,
> {
    if ended_well(output) {
        rules::rules_record(output.at("stdout"@).text_or_empty(), readings)
    } else {
        Ok(JsonView::Array(Seq::empty()))
    }
}

/// The recommendations in the report that a process printed, none where it failed.
pub fn read_rules(output: &Json, readings: &Readings) -> (result: Result<Json, String>)
    ensures
        match result {
            Ok(made) => printed_rules(output@, readings@) == Ok::<JsonView, Seq<char>>(made@),
            Err(error) => printed_rules(output@, readings@) == Err::<JsonView, Seq<char>>(error@),
        },
{
    if succeeded(output) {
        rules::rules(output.at("stdout").text_or_empty(), readings)
    } else {
        Ok(fields::empty_array())
    }
}

/// The record of a profile that failed.
pub open spec fn failed_profile(reason: Seq<char>) -> JsonView {
    JsonView::Object(
        seq![
            ("success"@, JsonView::Bool(false)),
            ("error"@, JsonView::Text(reason)),
            ("metrics"@, JsonView::Object(Seq::empty())),
        ],
    )
}

/// The record of a profile that failed.
pub fn failure(reason: &str) -> (made: Json)
    ensures
        made@ == failed_profile(reason@),
{
    let made = Fields::new().with("success", Json::Bool(false)).with("error", fields::text(reason)).with(
        "metrics",
        Fields::new().object(),
    ).object();
    assert(made@->Object_0 =~= failed_profile(reason@)->Object_0);
    made
}

/// What becomes of a profile that the profiler was run for: a failure that has a record, or its
/// reason is told as an error of profiling.
pub open spec fn settled(result: Result<JsonView, Seq<char>>) -> JsonView {
    match result {
        Ok(report) => report,
        Err(reason) => failed_profile("NCU profiling error: "@ + reason),
    }
}

/// What becomes of a profile that the profiler was run for.
pub fn settle(result: Result<Json, String>) -> (report: Json)
    ensures
        report@ == settled(
            match result {
                Ok(report) => Ok(report@),
                Err(error) => Err(error@),
            },
        ),
{
    match result {
        Ok(report) => report,
        Err(error) => failure("NCU profiling error: ".to_owned().concat(error.as_str()).as_str()),
    }
}

/// The record that there is no profiler.
pub fn unavailable() -> (made: Json)
    ensures
        made@ == failed_profile("NCU not available"@),
{
    failure("NCU not available")
}

/// Whether a script can be profiled: by the name of its file, and only with an interpreter.
pub fn check_script(file: &str, python: &Option<String>) -> (checked: Result<(), String>)
    ensures
        match checked {
            Ok(_) => crate::text::begins_with(file@, "profile_"@) && *python is Some,
            Err(error) => if !crate::text::begins_with(file@, "profile_"@) {
                error@ == "expected profile script"@
            } else {
                *python is None && error@ == "GPU workloads require --python"@
            },
        },
{
    if !starts_with(file, "profile_") {
        return Err("expected profile script".to_owned());
    }
    if python.is_none() {
        return Err("GPU workloads require --python".to_owned());
    }
    Ok(())
}

/// The file that the metrics of a script are kept in.
pub fn csv_name(stem: &str) -> (name: String)
    ensures
        name@ == "ncu_profile_"@ + stem@ + ".csv"@,
{
    "ncu_profile_".to_owned().concat(stem).concat(".csv")
}

/// The names that a report covers: the given ones, or those that were found.
pub open spec fn covered(metrics: JsonView, names: Seq<Seq<char>>) -> Result<Seq<Seq<char>>, Seq<char>> {
    if names.len() > 0 {
        Ok(names)
    } else {
        match metrics {
            JsonView::Object(kernels) => Ok(strict::keys(kernels)),
            _ => Err("NCU metrics"@),
        }
    }
}

/// The record of a run of the profiler that ended badly.
pub open spec fn run_failed(output: JsonView) -> JsonView {
    failed_profile("NCU failed: "@ + output.at("stderr"@).text_or_empty())
}

/// The record of a run of the profiler that ended badly.
pub fn run_failure(output: &Json) -> (made: Json)
    ensures
        made@ == run_failed(output@),
{
    failure("NCU failed: ".to_owned().concat(output.at("stderr").text_or_empty()).as_str())
}

/// The record of a profile that was collected.
pub open spec fn collected(
    metrics: JsonView,
    names: Seq<Seq<char>>,
    csv: Seq<char>,
    rules: JsonView,
) -> Result<JsonView, Seq<char>> {
    match covered(metrics, names) {
        Err(reason) => Err(reason),
        Ok(found) => Ok(
            JsonView::Object(
                seq![
                    ("success"@, JsonView::Bool(true)),
                    ("kernel_names"@, fields::strings_view(found)),
                    ("library_fallback"@, JsonView::Bool(names.len() == 0)),
                    ("metrics"@, metrics),
                    ("csv_path"@, JsonView::Text(csv)),
                    ("rule_recommendations"@, rules),
                ],
            ),
        ),
    }
}

/// The record of a profile that was collected.
pub fn collect(metrics: Json, names: &Vec<String>, csv: &str, rules: Json) -> (result: Result<
    Json,
    String,
>)
    ensures
        match result {
            Ok(made) => collected(metrics@, pieces::texts(names@), csv@, rules@) == Ok::<
                JsonView,
                Seq<char>,
            >(made@),
            Err(error) => collected(metrics@, pieces::texts(names@), csv@, rules@) == Err::<
                JsonView,
                Seq<char>,
            >(error@),
        },
{
    let found = if names.len() > 0 {
        fields::strings(names)
    } else {
        match metrics.fields() {
            Some(kernels) => fields::strings(&keys_of(kernels)),
            None => {
                return Err("NCU metrics".to_owned());
            },
        }
    };
    let ghost wanted = seq![
        ("success"@, JsonView::Bool(true)),
        ("kernel_names"@, found@),
        ("library_fallback"@, JsonView::Bool(names@.len() == 0)),
        ("metrics"@, metrics@),
        ("csv_path"@, JsonView::Text(csv@)),
        ("rule_recommendations"@, rules@),
    ];
    let made = Fields::new().with("success", Json::Bool(true)).with("kernel_names", found).with(
        "library_fallback",
        Json::Bool(names.len() == 0),
    ).with("metrics", metrics).with("csv_path", fields::text(csv)).with(
        "rule_recommendations",
        rules,
    ).object();
    assert(made@->Object_0 =~= wanted);
    Ok(made)
}

/// Naming kernels changes two things of the command that collects metrics: the filter with their
/// names is there, and one launch is profiled in place of five.
pub proof fn naming_changes_filter_and_launches(
    assets: JsonView,
    ncu: Seq<char>,
    python: Seq<char>,
    script: Seq<char>,
    csv: Seq<char>,
    names: Seq<Seq<char>>,
)
    requires
        names.len() > 0,
    ensures
        ({
            let named = collecting(assets, ncu, python, script, csv, names);
            let library = collecting(assets, ncu, python, script, csv, Seq::empty());
            &&& named is Ok <==> library is Ok
            &&& named is Err ==> named == library
            &&& named is Ok ==> {
                &&& named->Ok_0[8] == filter_of(names)
                &&& library->Ok_0 == named->Ok_0.remove(8).update(10, "--launch-count="@ + "5"@)
                &&& named->Ok_0[11] == "--launch-count="@ + "1"@
            }
        }),
{
    if let Ok(metrics) = metric_names(assets) {
        let named = collecting(assets, ncu, python, script, csv, names)->Ok_0;
        let library = collecting(assets, ncu, python, script, csv, Seq::empty())->Ok_0;
        assert(library =~= named.remove(8).update(10, "--launch-count="@ + "5"@));
    }
}

} // verus!
