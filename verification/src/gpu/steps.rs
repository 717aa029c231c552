//! What holds of the steps of an evaluation on a GPU: what is run, and what is made of it.
use crate::fields;
use crate::gpu;
use crate::gpu::progress;
use crate::gpu::progress::{EvaluationView, EventView, PhaseView, TaskView, WorkView};
use crate::gpu::VerdictView;
use crate::gpu_binary;
use crate::gpu_binary::artifacts;
use crate::gpu_binary::inspection;
use crate::gpu_binary::inspection::InspectionView;
use crate::gpu_binary::naming;
use crate::gpu_binary::naming::NamingView;
use crate::gpu_profile;
use crate::gpu_profile::collection;
use crate::gpu_profile::collection::{AnswerView, AskView, CollectionView, StageView, SubjectView};
use crate::gpu_profile::ProcessView;
use crate::json;
use crate::json::JsonView;
use crate::number::{NumberView, ReadingView, ReadingsView};
use crate::outside;
use crate::paths;
use crate::pieces;
use crate::profilers::ncu;
use crate::profilers::rules;
use crate::profilers::sass;
use crate::scripts;
use crate::text;
use crate::words;
use vstd::prelude::*;

verus! {

/// The text that a value is, the empty text where it is none.
pub open spec fn held(value: JsonView) -> Seq<char> {
    match value {
        JsonView::Text(text) => text,
        _ => Seq::empty(),
    }
}

/// Whether a process ended with the code zero.
pub open spec fn succeeded(output: JsonView) -> bool {
    output.at("exitCode"@) matches JsonView::Number(NumberView::Integer(code, _)) && code == 0
}

/// The command that collects metrics: the profiler with its options, the filter by name where
/// kernels are named, all metrics of the six groups, the launches, and the script.
pub proof fn profilers_collect_metrics(
    assets: JsonView,
    ncu: Seq<char>,
    python: Seq<char>,
    script: Seq<char>,
    csv: Seq<char>,
    names: Seq<Seq<char>>,
)
    ensures
        gpu_profile::collecting(assets, ncu, python, script, csv, names) matches Ok(command) ==> {
            let shift: int = if names.len() == 0 {
                0
            } else {
                1
            };
            &&& command.len() == 13 + shift
            &&& command[0] == ncu
            &&& command[1] == "--csv"@
            &&& command[2] == "--page=raw"@
            &&& command[3] == "--kernel-name-base=demangled"@
            &&& command[4] == "--target-processes=application-only"@
            &&& command[5] == "--replay-mode=kernel"@
            &&& command[6] == "--profile-from-start=on"@
            &&& command[7] == "--log-file="@ + csv
            &&& names.len() > 0 ==> command[8] == "--kernel-name=regex:("@ + pieces::joined(
                Seq::new(names.len(), |i: int| pieces::escaped(names[i])),
                "|"@,
            ) + ")"@
            &&& gpu_profile::metric_names(assets) matches Ok(metrics)
            &&& command[8 + shift] == "--metrics="@ + metrics
            &&& command[9 + shift] == "--launch-skip=5"@
            &&& command[10 + shift] == "--launch-count="@ + (if names.len() == 0 {
                "5"@
            } else {
                "1"@
            })
            &&& command[11 + shift] == python
            &&& command[12 + shift] == script
        },
{
    if names.len() > 0 {
        assert(gpu_profile::filter_of(names) == "--kernel-name=regex:("@ + pieces::joined(
            Seq::new(names.len(), |i: int| pieces::escaped(names[i])),
            "|"@,
        ) + ")"@);
    }
}

/// The metrics to collect are those of all six groups, in the order of the groups.
pub proof fn all_groups_are_collected(assets: JsonView)
    ensures
        gpu_profile::grouped(assets, 6) matches Ok(items) ==> {
            let metrics = assets.at("metrics"@);
            &&& metrics.at("compute"@) is Array && metrics.at("memory"@) is Array
            &&& metrics.at("occupancy"@) is Array && metrics.at("stall"@) is Array
            &&& metrics.at("timing"@) is Array && metrics.at("branch"@) is Array
            &&& items == metrics.at("compute"@)->Array_0 + metrics.at("memory"@)->Array_0
                + metrics.at("occupancy"@)->Array_0 + metrics.at("stall"@)->Array_0 + metrics.at(
                "timing"@,
            )->Array_0 + metrics.at("branch"@)->Array_0
        },
        gpu_profile::metric_names(assets) matches Ok(text) ==> {
            &&& gpu_profile::grouped(assets, 6) matches Ok(items)
            &&& gpu_profile::named(items, items.len() as int) matches Ok(names)
            &&& text == pieces::joined(names, ","@)
            &&& names.len() == items.len()
            &&& forall|i: int|
                0 <= i < items.len() ==> (#[trigger] items[i]) == JsonView::Text(names[i])
        },
{
    reveal_with_fuel(gpu_profile::grouped, 7);
    if let Ok(items) = gpu_profile::grouped(assets, 6) {
        let metrics = assets.at("metrics"@);
        assert(items =~= metrics.at("compute"@)->Array_0 + metrics.at("memory"@)->Array_0
            + metrics.at("occupancy"@)->Array_0 + metrics.at("stall"@)->Array_0 + metrics.at(
            "timing"@,
        )->Array_0 + metrics.at("branch"@)->Array_0);
        lemma_named(items, items.len() as int);
    }
}

proof fn lemma_named(items: Seq<JsonView>, end: int)
    requires
        0 <= end <= items.len(),
    ensures
        gpu_profile::named(items, end) matches Ok(names) ==> names.len() == end && forall|i: int|
            0 <= i < end ==> (#[trigger] items[i]) == JsonView::Text(names[i]),
    decreases end,
{
    if end > 0 {
        lemma_named(items, end - 1);
    }
}

/// The profiler runs with more rights exactly if the program that gives them is found and the user
/// is not the superuser; what is run stays the same.
pub proof fn rights_are_raised_for_users(
    runtime: JsonView,
    sudo: Option<Seq<char>>,
    command: Seq<Seq<char>>,
)
    ensures
        ({
            let superuser = runtime.at("uid"@) matches JsonView::Number(
                NumberView::Integer(id, _),
            ) && id == 0;
            let run = gpu_profile::with_rights(runtime, sudo, command);
            &&& sudo is None || superuser ==> run == command
            &&& sudo is Some && !superuser ==> run == seq![
                sudo->Some_0,
                "-E"@,
                "--preserve-env=PATH,LD_LIBRARY_PATH,CUDA_VISIBLE_DEVICES,TORCH_EXTENSIONS_DIR"@,
            ] + command
        }),
{
}

/// The commands for the profiler's rules: one that runs them on one launch of the named kernels, and
/// one that prints their report.
pub proof fn rules_are_run_and_printed(
    ncu: Seq<char>,
    base: Seq<char>,
    python: Seq<char>,
    script: Seq<char>,
    names: Seq<Seq<char>>,
    report: Seq<char>,
)
    ensures
        ({
            let run = gpu_profile::rules_arguments(ncu, base, python, script, names);
            let shift: int = if names.len() == 0 {
                0
            } else {
                1
            };
            &&& run.len() == 12 + shift
            &&& run.take(10) == seq![
                ncu,
                "--set"@,
                "full"@,
                "--launch-skip"@,
                "0"@,
                "--launch-count"@,
                "1"@,
                "-f"@,
                "-o"@,
                base,
            ]
            &&& names.len() > 0 ==> run[10] == gpu_profile::filter_of(names)
            &&& run[10 + shift] == python
            &&& run[11 + shift] == script
        }),
        gpu_profile::details_arguments(ncu, report) == seq![
            ncu,
            "--import"@,
            report,
            "--page"@,
            "details"@,
        ],
{
    let run = gpu_profile::rules_arguments(ncu, base, python, script, names);
    assert(run.take(10) =~= seq![
        ncu,
        "--set"@,
        "full"@,
        "--launch-skip"@,
        "0"@,
        "--launch-count"@,
        "1"@,
        "-f"@,
        "-o"@,
        base,
    ]);
}

/// What the profiler's rules print counts exactly if the process ended well.
pub proof fn printed_rules_count_where_they_end_well(output: JsonView, readings: ReadingsView)
    ensures
        succeeded(output) ==> gpu_profile::printed_rules(output, readings) == rules::rules_record(
            held(output.at("stdout"@)),
            readings,
        ),
        !succeeded(output) ==> gpu_profile::printed_rules(output, readings) == Ok::<
            JsonView,
            Seq<char>,
        >(JsonView::Array(Seq::empty())),
{
}

/// The record of a profile that failed says why and has no metrics; that of a run that ended badly
/// says what the profiler complained of.
pub proof fn failed_profiles_say_why(reason: Seq<char>, output: JsonView)
    ensures
        ({
            let record = gpu_profile::failed_profile(reason);
            &&& record.at("success"@) == JsonView::Bool(false)
            &&& record.at("error"@) == JsonView::Text(reason)
            &&& record.at("metrics"@) == JsonView::Object(Seq::empty())
        }),
        ({
            let record = gpu_profile::run_failed(output);
            &&& record.at("success"@) == JsonView::Bool(false)
            &&& record.at("error"@) == JsonView::Text(
                "NCU failed: "@ + held(output.at("stderr"@)),
            )
        }),
        ({
            let record = gpu_profile::settled(Err(reason));
            &&& record.at("success"@) == JsonView::Bool(false)
            &&& record.at("error"@) == JsonView::Text("NCU profiling error: "@ + reason)
        }),
{
    let list = gpu_profile::failed_profile(reason)->Object_0;
    reveal_strlit("success");
    reveal_strlit("error");
    reveal_strlit("metrics");
    assert("success"@[0] != "metrics"@[0]);
    assert(list[0].0 == "success"@);
    json::lemma_at(list, 0);
    assert(list[1].0 == "error"@);
    json::lemma_at(list, 1);
    assert(list[2].0 == "metrics"@);
    json::lemma_at(list, 2);
    let run = gpu_profile::run_failed(output)->Object_0;
    reveal_strlit("success");
    reveal_strlit("error");
    reveal_strlit("metrics");
    assert("success"@[0] != "metrics"@[0]);
    assert(run[0].0 == "success"@);
    json::lemma_at(run, 0);
    assert(run[1].0 == "error"@);
    json::lemma_at(run, 1);
    assert(run[2].0 == "metrics"@);
    json::lemma_at(run, 2);
    let settled = gpu_profile::settled(Err(reason))->Object_0;
    reveal_strlit("success");
    reveal_strlit("error");
    reveal_strlit("metrics");
    assert("success"@[0] != "metrics"@[0]);
    assert(settled[0].0 == "success"@);
    json::lemma_at(settled, 0);
    assert(settled[1].0 == "error"@);
    json::lemma_at(settled, 1);
    assert(settled[2].0 == "metrics"@);
    json::lemma_at(settled, 2);
}

/// The record of a profile that was collected: its metrics, the kernels that are named or that were
/// found, whether none were named, where its table is, and what the rules recommend.
pub proof fn collected_profiles_are_recorded(
    metrics: JsonView,
    names: Seq<Seq<char>>,
    csv: Seq<char>,
    advice: JsonView,
)
    ensures
        match gpu_profile::collected(metrics, names, csv, advice) {
            Ok(record) => {
                &&& record.at("success"@) == JsonView::Bool(true)
                &&& record.at("metrics"@) == metrics
                &&& record.at("csv_path"@) == JsonView::Text(csv)
                &&& record.at("rule_recommendations"@) == advice
                &&& record.at("library_fallback"@) == JsonView::Bool(names.len() == 0)
                &&& record.at("kernel_names"@) matches JsonView::Array(list)
                &&& names.len() > 0 ==> list.len() == names.len() && forall|i: int|
                    0 <= i < names.len() ==> (#[trigger] list[i]) == JsonView::Text(names[i])
                &&& names.len() == 0 ==> metrics is Object && list.len() == metrics->Object_0.len()
                    && forall|i: int|
                    0 <= i < list.len() ==> (#[trigger] list[i]) == JsonView::Text(
                        metrics->Object_0[i].0,
                    )
            },
            Err(reason) => names.len() == 0 && !(metrics is Object) && reason == "NCU metrics"@,
        },
{
    if let Ok(record) = gpu_profile::collected(metrics, names, csv, advice) {
        let list = record->Object_0;
        assert(list.len() == 6);
        reveal_strlit("success");
        reveal_strlit("kernel_names");
        reveal_strlit("library_fallback");
        reveal_strlit("metrics");
        reveal_strlit("csv_path");
        reveal_strlit("rule_recommendations");
        assert("success"@[0] != "metrics"@[0]);
        assert(list[0].0 == "success"@);
        json::lemma_at(list, 0);
        assert(list[1].0 == "kernel_names"@);
        json::lemma_at(list, 1);
        assert(list[2].0 == "library_fallback"@);
        json::lemma_at(list, 2);
        assert(list[3].0 == "metrics"@);
        json::lemma_at(list, 3);
        assert(list[4].0 == "csv_path"@);
        json::lemma_at(list, 4);
        assert(list[5].0 == "rule_recommendations"@);
        json::lemma_at(list, 5);
    }
}

/// A collection begins exactly if there are a profiler and an interpreter and the script is one to
/// be profiled: with the run that measures, within five minutes.
pub proof fn collections_begin_with_measuring(
    ncu: Option<Seq<char>>,
    python: Option<Seq<char>>,
    subject: SubjectView,
    assets: JsonView,
)
    ensures
        ({
            let begun = collection::begun(ncu, python, subject, assets);
            let script = paths::path(subject.output, subject.file);
            let table = paths::path(
                subject.output,
                "ncu_profile_"@ + paths::stem_of(subject.file) + ".csv"@,
            );
            let profiled = exists|rest: Seq<char>| subject.file == #[trigger] ("profile_"@ + rest);
            &&& ncu is None ==> begun == collection::ProgressView::Made(
                gpu_profile::failed_profile("NCU not available"@),
            )
            &&& ncu is Some && !profiled ==> begun == collection::ProgressView::Made(
                gpu_profile::settled(Err("expected profile script"@)),
            )
            &&& ncu is Some && profiled && python is None ==> begun
                == collection::ProgressView::Made(
                gpu_profile::settled(Err("GPU workloads require --python"@)),
            )
            &&& ncu is Some && profiled && python is Some ==> match gpu_profile::collecting(
                assets,
                ncu->Some_0,
                python->Some_0,
                script,
                table,
                subject.names,
            ) {
                Err(reason) => begun == collection::ProgressView::Made(
                    gpu_profile::settled(Err(reason)),
                ),
                Ok(command) => {
                    &&& begun matches collection::ProgressView::Asked(after, ask)
                    &&& after.ncu == ncu->Some_0 && after.python == python->Some_0
                    &&& after.subject == subject && after.stage is Measuring
                    &&& ask == AskView::Run(
                        ProcessView {
                            command: gpu_profile::with_rights(
                                subject.runtime,
                                subject.sudo,
                                command,
                            ),
                            timeout_ms: 300_000,
                        },
                    )
                },
            }
        }),
{
    text::texts_hold_their_parts(Seq::empty(), "profile_"@, Seq::empty(), subject.file);
    if exists|rest: Seq<char>| subject.file == #[trigger] ("profile_"@ + rest) {
        let rest = choose|rest: Seq<char>| subject.file == #[trigger] ("profile_"@ + rest);
        text::texts_hold_their_parts(Seq::empty(), "profile_"@, rest, subject.file);
    }
}

/// A collection goes on: the table is read once the measuring has ended well, the rules are run
/// where the full profile is wanted, their report is printed if it is there, and what is known is
/// recorded; a run that ends badly is recorded as failed.
pub proof fn collections_go_on(
    collection: CollectionView,
    output: JsonView,
    table: Seq<char>,
    readings: ReadingsView,
    metrics: JsonView,
)
    ensures
        ({
            let subject = collection.subject;
            let csv = paths::path(
                subject.output,
                "ncu_profile_"@ + paths::stem_of(subject.file) + ".csv"@,
            );
            let at = |stage: StageView| CollectionView { stage, ..collection };
            let made = |rules: JsonView|
                collection::ProgressView::Made(
                    gpu_profile::settled(
                        gpu_profile::collected(metrics, subject.names, csv, rules),
                    ),
                );
            let none = JsonView::Array(Seq::empty());
            let covered = subject.names.len() > 0 || metrics is Object;
            let report = paths::path(subject.output, "ncu_rules.ncu-rep"@);
            &&& succeeded(output) ==> collection::advanced(
                at(StageView::Measuring),
                AnswerView::Ran(Ok(output)),
            ) == collection::ProgressView::Asked(at(StageView::Tabling), AskView::Table(csv))
            &&& !succeeded(output) ==> collection::advanced(
                at(StageView::Measuring),
                AnswerView::Ran(Ok(output)),
            ) == collection::ProgressView::Made(gpu_profile::run_failed(output))
            &&& ncu::table_metrics(
                outside::csv_table(ncu::cleaned(table)),
                subject.names,
                readings,
            ) == Ok::<JsonView, Seq<char>>(metrics) ==> {
                let next = collection::advanced(
                    at(StageView::Tabling),
                    AnswerView::Table(Ok(Some(table)), readings),
                );
                &&& subject.full && covered ==> next == collection::ProgressView::Asked(
                    at(StageView::Ruling(metrics)),
                    AskView::Run(
                        ProcessView {
                            command: gpu_profile::with_rights(
                                subject.runtime,
                                subject.sudo,
                                gpu_profile::rules_arguments(
                                    collection.ncu,
                                    paths::path(subject.output, "ncu_rules"@),
                                    collection.python,
                                    paths::path(subject.output, subject.file),
                                    subject.names,
                                ),
                            ),
                            timeout_ms: 600_000,
                        },
                    ),
                )
                &&& !(subject.full && covered) ==> next == made(none)
            }
            &&& succeeded(output) ==> collection::advanced(
                at(StageView::Ruling(metrics)),
                AnswerView::Ran(Ok(output)),
            ) == collection::ProgressView::Asked(
                at(StageView::Looking(metrics)),
                AskView::Look(report),
            )
            &&& !succeeded(output) ==> collection::advanced(
                at(StageView::Ruling(metrics)),
                AnswerView::Ran(Ok(output)),
            ) == made(none)
            &&& collection::advanced(
                at(StageView::Looking(metrics)),
                AnswerView::Looked(true),
            ) == collection::ProgressView::Asked(
                at(StageView::Telling(metrics)),
                AskView::Tell(
                    ProcessView {
                        command: gpu_profile::details_arguments(collection.ncu, report),
                        timeout_ms: 120_000,
                    },
                ),
            )
            &&& collection::advanced(
                at(StageView::Looking(metrics)),
                AnswerView::Looked(false),
            ) == made(none)
            &&& collection::advanced(
                at(StageView::Telling(metrics)),
                AnswerView::Told(Ok(output), readings),
            ) == made(
                match gpu_profile::printed_rules(output, readings) {
                    Ok(rules) => rules,
                    Err(_) => none,
                },
            )
        }),
{
}

proof fn lemma_taken(groups: Seq<Option<Seq<char>>>, end: int, entry: Seq<char>)
    requires
        0 <= end <= groups.len(),
    ensures
        pieces::taken(groups, end).contains(entry) <==> exists|i: int|
            0 <= i < end && (#[trigger] groups[i]) == Some(entry),
    decreases end,
{
    if end > 0 {
        lemma_taken(groups, end - 1, entry);
        let before = pieces::taken(groups, end - 1);
        let all = pieces::taken(groups, end);
        if before.contains(entry) {
            let k = choose|k: int| 0 <= k < before.len() && before[k] == entry;
            assert(all[k] == entry);
        }
        if groups[end - 1] == Some(entry) {
            assert(all[before.len() as int] == entry);
        }
        if all.contains(entry) && !before.contains(entry) {
            let k = choose|k: int| 0 <= k < all.len() && all[k] == entry;
            if k < before.len() {
                assert(before[k] == entry);
            }
            assert(groups[end - 1] == Some(entry));
        }
    }
}

/// The entry points of a library are what the table of its symbols marks as global entries; where
/// the process that prints it fails there are none.
pub proof fn entries_are_read_from_the_symbols(output: JsonView, entry: Seq<char>)
    ensures
        !succeeded(output) ==> gpu_binary::entries_told(output) == Ok::<
            Seq<Seq<char>>,
            Seq<char>,
        >(Seq::empty()),
        succeeded(output) ==> match outside::regex_groups(
            "(?m)^STT_FUNC\\s+STB_GLOBAL\\s+STO_ENTRY\\s+(\\S+)"@,
            held(output.at("stdout"@)),
        ) {
            Err(reason) => gpu_binary::entries_told(output) == Err::<Seq<Seq<char>>, Seq<char>>(
                reason,
            ),
            Ok(groups) => gpu_binary::entries_told(output) is Ok && (gpu_binary::entries_told(
                output,
            )->Ok_0.contains(entry) <==> exists|i: int|
                0 <= i < groups.len() && (#[trigger] groups[i]) == Some(entry)),
        },
{
    if succeeded(output) {
        if let Ok(groups) = outside::regex_groups(
            "(?m)^STT_FUNC\\s+STB_GLOBAL\\s+STO_ENTRY\\s+(\\S+)"@,
            held(output.at("stdout"@)),
        ) {
            lemma_taken(groups, groups.len() as int, entry);
        }
    }
}

/// The name of a kernel is the last word of what stands before its parameters, without the arguments
/// of its template; each line gives one.
pub proof fn kernels_are_named_by_their_declaration(lines: Seq<Seq<char>>, at: int)
    requires
        0 <= at < lines.len(),
    ensures
        gpu_binary::names_in(lines, 0) == Ok::<Seq<Seq<char>>, Seq<char>>(Seq::empty()),
        gpu_binary::names_in(lines, at) is Err ==> gpu_binary::names_in(lines, at + 1)
            == gpu_binary::names_in(lines, at),
        gpu_binary::names_in(lines, at) matches Ok(before) ==> match outside::regex_replaced(
            "<.*>"@,
            text::trimmed(pieces::pieces(lines[at], '(')[0]),
            ""@,
        ) {
            Err(reason) => gpu_binary::names_in(lines, at + 1) == Err::<Seq<Seq<char>>, Seq<char>>(
                reason,
            ),
            Ok(plain) => gpu_binary::names_in(lines, at + 1) == Ok::<Seq<Seq<char>>, Seq<char>>(
                before.push(
                    match words::last_of(plain) {
                        Some(word) => word,
                        None => Seq::empty(),
                    },
                ),
            ),
        },
{
}

/// Merging names keeps those that there are in their order and adds each new one once.
pub proof fn names_are_merged(list: Seq<Seq<char>>, names: Seq<Seq<char>>, end: int, name: Seq<char>)
    requires
        0 <= end <= names.len(),
    ensures
        ({
            let all = gpu_binary::merged(list, names, end);
            &&& list.len() <= all.len()
            &&& forall|i: int| 0 <= i < list.len() ==> (#[trigger] all[i]) == list[i]
            &&& all.contains(name) <==> list.contains(name) || names.take(end).contains(name)
        }),
    decreases end,
{
    if end > 0 {
        names_are_merged(list, names, end - 1, name);
        let before = gpu_binary::merged(list, names, end - 1);
        let all = gpu_binary::merged(list, names, end);
        let short = names.take(end - 1);
        let long = names.take(end);
        assert(long[end - 1] == names[end - 1]);
        if before.contains(name) {
            let k = choose|k: int| 0 <= k < before.len() && before[k] == name;
            assert(all[k] == name);
        }
        if short.contains(name) {
            let k = choose|k: int| 0 <= k < short.len() && short[k] == name;
            assert(long[k] == name);
        }
        if long.contains(name) && !short.contains(name) {
            let k = choose|k: int| 0 <= k < long.len() && long[k] == name;
            if k < end - 1 {
                assert(short[k] == name);
            }
            if !before.contains(name) {
                assert(all[before.len() as int] == name);
            }
        }
        if all.contains(name) && !before.contains(name) {
            let k = choose|k: int| 0 <= k < all.len() && all[k] == name;
            if k < before.len() {
                assert(before[k] == name);
            }
        }
    } else {
        assert(gpu_binary::merged(list, names, end) =~= list);
    }
}

/// The symbols of the linear algebra library are the last words of the lines in which one is found,
/// each once; where the process that prints them fails there are none.
pub proof fn library_symbols_are_collected(output: JsonView, lines: Seq<Seq<char>>, at: int)
    requires
        0 <= at < lines.len(),
    ensures
        !succeeded(output) ==> gpu_binary::symbols_told(output) == Ok::<
            Seq<Seq<char>>,
            Seq<char>,
        >(Seq::empty()),
        succeeded(output) ==> ({
            let all = pieces::lines_of(held(output.at("stdout"@)));
            gpu_binary::symbols_told(output) == gpu_binary::symbols_in(all, all.len() as int)
        }),
        gpu_binary::symbols_in(lines, 0) == Ok::<Seq<Seq<char>>, Seq<char>>(Seq::empty()),
        gpu_binary::symbols_in(lines, at) matches Ok(before) ==> match outside::regex_finds(
            "(?i)cublas[A-Z]gemm|cublasGemmEx|cublasLt|cublas.*Batched|cublasGemmStrided"@,
            lines[at],
        ) {
            Err(reason) => gpu_binary::symbols_in(lines, at + 1) == Err::<
                Seq<Seq<char>>,
                Seq<char>,
            >(reason),
            Ok(found) => {
                let word = words::last_of(lines[at]);
                &&& found.len() == 0 || word is None || before.contains(word->Some_0)
                    ==> gpu_binary::symbols_in(lines, at + 1) == Ok::<Seq<Seq<char>>, Seq<char>>(
                    before,
                )
                &&& found.len() > 0 && word is Some && !before.contains(word->Some_0)
                    ==> gpu_binary::symbols_in(lines, at + 1) == Ok::<Seq<Seq<char>>, Seq<char>>(
                    before.push(word->Some_0),
                )
            },
        },
{
}

/// What instructions are counted in: what was dumped, if the dump ended well and either shows
/// something or the listing failed; nothing, where the library's symbols alone tell something; and
/// there is no record where nothing does.
pub proof fn instructions_are_counted_where_they_are_dumped(
    listed: JsonView,
    dumped: JsonView,
    symbols: Seq<Seq<char>>,
)
    ensures
        ({
            let text = held(dumped.at("stdout"@));
            let shown = succeeded(dumped) && (!succeeded(listed) || text::trimmed(text).len() > 0);
            let listing = gpu_binary::listing_of(Some((listed, dumped)), symbols);
            &&& shown ==> listing == Some(text)
            &&& !shown && !succeeded(listed) && symbols.len() > 0 ==> listing == Some(""@)
            &&& !shown && (succeeded(listed) || symbols.len() == 0) ==> listing is None
        }),
        symbols.len() > 0 ==> gpu_binary::listing_of(None, symbols) == Some(""@),
        symbols.len() == 0 ==> gpu_binary::listing_of(None, symbols) is None,
{
}

/// The record of a binary has what its listing shows, and says which symbols of the linear algebra
/// library it needs and whether it needs any; without a listing it is null.
pub proof fn binaries_are_recorded(
    assets: JsonView,
    listing: Option<Seq<char>>,
    symbols: Seq<Seq<char>>,
    key: Seq<char>,
)
    ensures
        match listing {
            None => gpu_binary::binary_record(assets, listing, symbols) == Ok::<
                JsonView,
                Seq<char>,
            >(JsonView::Null),
            Some(text) => match sass::sass_record(assets, text, None) {
                Err(reason) => gpu_binary::binary_record(assets, listing, symbols) == Err::<
                    JsonView,
                    Seq<char>,
                >(reason),
                Ok(counted) => {
                    let made = gpu_binary::binary_record(assets, listing, symbols);
                    &&& made is Ok
                    &&& made->Ok_0.at("uses_cublas"@) == JsonView::Bool(symbols.len() > 0)
                    &&& made->Ok_0.at("cublas_symbols"@) == JsonView::Array(
                        Seq::new(symbols.len(), |i: int| JsonView::Text(symbols[i])),
                    )
                    &&& key != "uses_cublas"@ && key != "cublas_symbols"@ ==> made->Ok_0.at(key)
                        == counted.at(key)
                },
            },
        },
{
    if let Some(text) = listing {
        if let Ok(counted) = sass::sass_record(assets, text, None) {
            let list = counted->Object_0;
            let linked = JsonView::Bool(symbols.len() > 0);
            let named = fields::strings_view(symbols);
            let first = json::with_field(list, "uses_cublas"@, linked);
            reveal_strlit("uses_cublas");
            reveal_strlit("cublas_symbols");
            assert("uses_cublas"@.len() == 11);
            assert("cublas_symbols"@.len() == 14);
            json::lemma_with_field(list, "uses_cublas"@, linked, key);
            json::lemma_with_field(first, "cublas_symbols"@, named, key);
            json::lemma_with_field(first, "cublas_symbols"@, named, "uses_cublas"@);
            assert(named->Array_0 =~= Seq::new(
                symbols.len(),
                |i: int| JsonView::Text(symbols[i]),
            ));
        }
    }
}

/// The kernels of a library are named in three processes: its symbols are printed, its entry points
/// are made plain, and its resources are printed; then the next library is looked at. What cannot
/// be read ends the naming without any name.
pub proof fn libraries_are_looked_into(naming: NamingView, output: JsonView)
    requires
        0 <= naming.position < naming.libraries.len(),
    ensures
        ({
            let library = naming.libraries[naming.position];
            let at = |stage: naming::StageView| NamingView { stage, ..naming };
            &&& naming::asked(naming) == Some(
                ProcessView {
                    command: seq![naming.object_tool, "-symbols"@, library],
                    timeout_ms: 30_000,
                },
            )
            &&& match gpu_binary::entries_told(output) {
                Err(_) => {
                    let (after, process) = naming::advanced(
                        at(naming::StageView::Symbols),
                        Ok(output),
                    );
                    &&& after.names.len() == 0
                    &&& process is None
                },
                Ok(entries) => entries.len() > 0 ==> naming::advanced(
                    at(naming::StageView::Symbols),
                    Ok(output),
                ) == (
                    at(naming::StageView::Plain),
                    Some(
                        ProcessView {
                            command: seq![naming.plain_tool] + entries,
                            timeout_ms: 10_000,
                        },
                    ),
                ),
            }
            &&& naming::advanced(at(naming::StageView::Plain), Ok(output)) == (
                at(naming::StageView::Usage(output)),
                Some(
                    ProcessView {
                        command: seq![naming.object_tool, "--dump-resource-usage"@, library],
                        timeout_ms: 30_000,
                    },
                ),
            )
            &&& naming.stage matches naming::StageView::Usage(printed) ==> {
                let (after, process) = naming::advanced(naming, Ok(output));
                match gpu_binary::names_told(printed) {
                    Err(_) => after.names.len() == 0 && process is None,
                    Ok(names) => {
                        &&& after.names == gpu_binary::merged(
                            naming.names,
                            names,
                            names.len() as int,
                        )
                        &&& after.position == naming.position + 1
                        &&& process == naming::asked(after)
                    },
                }
            }
        }),
{
}

/// No library is looked into without both programs.
pub proof fn naming_needs_both_programs(
    object_tool: Seq<char>,
    plain_tool: Seq<char>,
    libraries: Seq<Seq<char>>,
)
    ensures
        naming::asked(naming::begun(None, libraries)) is None,
        naming::begun(None, libraries).names.len() == 0,
        ({
            let begun = naming::begun(Some((object_tool, plain_tool)), libraries);
            &&& begun.libraries == libraries && begun.position == 0 && begun.names.len() == 0
            &&& begun.object_tool == object_tool && begun.plain_tool == plain_tool
        }),
{
}

/// A library is inspected in three processes: the symbols that it needs, the list of what it holds,
/// and its instructions; a process that cannot be run counts as one that shows nothing.
pub proof fn libraries_are_inspected(
    tool: Seq<char>,
    library: Seq<char>,
    inspection: InspectionView,
    output: JsonView,
    assets: JsonView,
    standing: Seq<Seq<char>>,
)
    ensures
        inspection::begun(tool, library).1 == (ProcessView {
            command: seq!["nm"@, "-D"@, library],
            timeout_ms: 10_000,
        }),
        ({
            let begun = inspection::begun(tool, library).0;
            begun.tool == tool && begun.library == library && begun.symbols.len() == 0
                && begun.stage is Symbols
        }),
        inspection.stage is Symbols ==> match gpu_binary::symbols_told(output) {
            Err(reason) => inspection::advanced(inspection, Ok(output), assets)
                == inspection::ProgressView::Made(Err(reason)),
            Ok(symbols) => inspection::advanced(inspection, Ok(output), assets)
                == inspection::ProgressView::Run(
                InspectionView { symbols, stage: inspection::StageView::Listing, ..inspection },
                ProcessView {
                    command: seq![inspection.tool, "--list-ptx"@, inspection.library],
                    timeout_ms: 30_000,
                },
            ),
        },
        inspection.stage is Listing ==> inspection::advanced(inspection, Ok(output), assets)
            == inspection::ProgressView::Run(
            InspectionView { stage: inspection::StageView::Dumping(output), ..inspection },
            ProcessView {
                command: seq![inspection.tool, "--dump-sass"@, inspection.library],
                timeout_ms: 30_000,
            },
        ),
        inspection.stage matches inspection::StageView::Dumping(listed) ==> inspection::advanced(
            inspection,
            Ok(output),
            assets,
        ) == inspection::ProgressView::Made(
            gpu_binary::binary_record(
                assets,
                gpu_binary::listing_of(Some((listed, output)), inspection.symbols),
                inspection.symbols,
            ),
        ),
        inspection::tool_of(Some(tool), standing) == tool,
        standing.len() > 0 ==> inspection::tool_of(None, standing) == standing[0],
        inspection::tool_of(None, Seq::empty()) == "cuobjdump"@,
        inspection::places() == seq![
            "/usr/local/cuda/bin/cuobjdump"@,
            "/usr/local/cuda-12/bin/cuobjdump"@,
            "/usr/local/cuda-11/bin/cuobjdump"@,
        ],
{
}

/// Whether a file's name ends as that of a compiled library: some name, a dot and `so`.
pub open spec fn is_library(path: Seq<char>) -> bool {
    exists|stem: Seq<char>|
        stem.len() > 0 && paths::file_of(path) == #[trigger] (stem + ".so"@)
}

proof fn lemma_library(path: Seq<char>)
    ensures
        artifacts::library(path) <==> is_library(path),
{
    let name = paths::file_of(path);
    reveal_strlit("so");
    reveal_strlit(".so");
    assert("so"@ =~= seq!['s', 'o']);
    assert(".so"@ =~= seq!['.', 's', 'o']);
    crate::wording::endings_follow_the_last_dot(name);
    if artifacts::library(path) {
        let stem = paths::stem_of(name);
        assert(name =~= stem + ".so"@);
    }
    if is_library(path) {
        let stem = choose|stem: Seq<char>|
            stem.len() > 0 && name == #[trigger] (stem + ".so"@);
        let at = stem.len() as int;
        assert(name[at] == '.');
        assert(name[at + 1] == 's' && name[at + 2] == 'o');
        match paths::ending_of(name) {
            Some(ending) => {
                let rest = paths::stem_of(name);
                let dot = rest.len() as int;
                assert(name[dot] == '.');
                if dot < at {
                    assert(ending[at - dot - 1] == name[at]);
                    assert(false);
                }
                assert(dot == at);
                assert(ending =~= seq!['s', 'o']);
            },
            None => {
                assert(name[at] != '.');
            },
        }
    }
}

/// Compiled libraries are known by the ending of their name; what is kept of a build besides them is
/// its plan.
pub proof fn libraries_are_known_by_their_ending(path: Seq<char>)
    ensures
        artifacts::library(path) <==> is_library(path),
        artifacts::artifact(path) <==> is_library(path) || paths::file_of(path) == "build.ninja"@,
{
    lemma_library(path);
}

/// The compiled libraries of a build are all its files of that kind, in their order.
pub proof fn libraries_are_gathered(files: Seq<Seq<char>>, end: int, path: Seq<char>)
    requires
        0 <= end <= files.len(),
    ensures
        artifacts::libraries_in(files, end).contains(path) <==> is_library(path) && files.take(
            end,
        ).contains(path),
    decreases end,
{
    lemma_library(path);
    if end > 0 {
        libraries_are_gathered(files, end - 1, path);
        lemma_library(files[end - 1]);
        let before = artifacts::libraries_in(files, end - 1);
        let all = artifacts::libraries_in(files, end);
        let short = files.take(end - 1);
        let long = files.take(end);
        assert(long[end - 1] == files[end - 1]);
        if before.contains(path) {
            let k = choose|k: int| 0 <= k < before.len() && before[k] == path;
            assert(all[k] == path);
        }
        if short.contains(path) {
            let k = choose|k: int| 0 <= k < short.len() && short[k] == path;
            assert(long[k] == path);
        }
        if long.contains(path) && !short.contains(path) {
            let k = choose|k: int| 0 <= k < long.len() && long[k] == path;
            if k < end - 1 {
                assert(short[k] == path);
            }
            if is_library(path) {
                assert(all[before.len() as int] == path);
            }
        }
        if all.contains(path) && !before.contains(path) {
            let k = choose|k: int| 0 <= k < all.len() && all[k] == path;
            if k < before.len() {
                assert(before[k] == path);
            }
        }
    }
}

/// The workload that is run is what was asked for, as a candidate only once its source and its
/// reference are the ones that the payload names.
pub proof fn workloads_are_run_once_identified(task: TaskView, bytes: Seq<u8>)
    ensures
        ({
            let now = outside::sha256(bytes);
            let (after, work) = progress::advanced(
                EvaluationView { task, phase: PhaseView::Sourcing },
                EventView::Bytes(Ok(bytes)),
            );
            let named = task.payload.at("source_sha256"@) == JsonView::Text(now);
            let same = task.payload.at("reference"@).at("task_sha256"@).equals(
                task.payload.at("problem"@).at("sha256"@),
            );
            &&& named && same ==> {
                let request = gpu::request_of(task.payload, task.candidate);
                &&& work == WorkView::Observe(request)
                &&& after.task == TaskView { payload: request, digest: now, ..task }
                &&& after.phase is Observing
            }
            &&& !(named && same) ==> work is Abort
        }),
        !task.candidate ==> progress::checked(task) == (
            EvaluationView {
                task: TaskView { payload: gpu::request_of(task.payload, false), ..task },
                phase: PhaseView::Observing,
            },
            WorkView::Observe(gpu::request_of(task.payload, false)),
        ),
        task.candidate ==> match task.payload.at("source"@) {
            JsonView::Text(path) => progress::checked(task) == (
                EvaluationView { task, phase: PhaseView::Sourcing },
                WorkView::Read(path),
            ),
            _ => progress::checked(task).1 == WorkView::Abort("candidate source"@),
        },
{
}

/// An observed candidate is benchmarked and profiled exactly if nothing went wrong; an observed
/// reference is profiled if it was timed.
pub proof fn observed_workloads_are_profiled(task: TaskView, observation: JsonView)
    requires
        task.payload.at("source"@) is Text,
    ensures
        ({
            let (after, work) = progress::advanced(
                EvaluationView { task, phase: PhaseView::Observing },
                EventView::Observed(Ok(observation)),
            );
            &&& after.task.observation == observation
            &&& after.task.payload == task.payload
            &&& task.candidate ==> match gpu::judged(observation) {
                Err(reason) => work == WorkView::Abort(reason),
                Ok(verdict) => {
                    &&& after.task.verdict == verdict
                    &&& verdict.error != JsonView::Null ==> after.phase == PhaseView::Rereading(
                        JsonView::Null,
                    ) && work == WorkView::Read(task.payload.at("source"@)->Text_0)
                    &&& verdict.error == JsonView::Null ==> match scripts::script_told(
                        "benchmark"@,
                        task.payload,
                        task.source_name,
                        task.templates,
                    ) {
                        Ok(content) => after.phase is Benching && work == WorkView::Write(
                            paths::path(task.output, "benchmark_solution.py"@),
                            content,
                        ),
                        Err(_) => after.phase is Listing && work is Tools,
                    }
                },
            }
            &&& !task.candidate ==> match gpu::reference_time(observation) {
                Err(reason) => work == WorkView::Abort(reason),
                Ok(seconds) => {
                    &&& after.phase is Probing && work is Seek
                    &&& after.task.verdict == VerdictView {
                        error: JsonView::Null,
                        seconds: Some(seconds),
                    }
                },
            }
        }),
{
}

/// The reference is profiled by its script where there is a profiler, without names and without
/// rules, and its record is made with the summary of that profile; without a profiler its profile
/// says so.
pub proof fn references_are_profiled_by_their_script(
    task: TaskView,
    ncu: Seq<char>,
    sudo: Option<Seq<char>>,
    report: JsonView,
    readings: ReadingsView,
    latency: Option<ReadingView>,
)
    requires
        !task.candidate,
        task.payload.at("problem"@).get("file_sha256"@) is None,
        task.verdict.seconds is Some,
    ensures
        ({
            let seconds = task.verdict.seconds->Some_0;
            let finished = |profile: JsonView|
                WorkView::Finish(
                    gpu::reference_record(seconds, profile, task.payload.at("problem"@), "gpu"@),
                );
            &&& progress::advanced(
                EvaluationView { task, phase: PhaseView::Probing },
                EventView::Found(None, sudo),
            ).1 == finished(gpu::no_profiler())
            &&& match scripts::script_told(
                "reference"@,
                task.payload,
                task.source_name,
                task.templates,
            ) {
                Ok(content) => progress::advanced(
                    EvaluationView { task, phase: PhaseView::Probing },
                    EventView::Found(Some(ncu), sudo),
                ) == (
                    EvaluationView { task, phase: PhaseView::Drafting(ncu, sudo) },
                    WorkView::Write(paths::path(task.output, "profile_reference.py"@), content),
                ),
                Err(reason) => progress::advanced(
                    EvaluationView { task, phase: PhaseView::Probing },
                    EventView::Found(Some(ncu), sudo),
                ).1 == WorkView::Abort(reason),
            }
            &&& match collection::begun(
                Some(ncu),
                task.python,
                SubjectView {
                    sudo,
                    output: task.output,
                    file: "profile_reference.py"@,
                    names: Seq::empty(),
                    full: false,
                    runtime: task.observation.at("runtime"@),
                },
                task.assets,
            ) {
                collection::ProgressView::Asked(collection, ask) => progress::advanced(
                    EvaluationView { task, phase: PhaseView::Drafting(ncu, sudo) },
                    EventView::Done(None),
                ) == (
                    EvaluationView { task, phase: PhaseView::Collecting(collection) },
                    WorkView::Collect(ask),
                ),
                collection::ProgressView::Made(made) => progress::advanced(
                    EvaluationView { task, phase: PhaseView::Drafting(ncu, sudo) },
                    EventView::Done(None),
                ) == (
                    EvaluationView { task, phase: PhaseView::Summing(made) },
                    WorkView::Sum(made),
                ),
            }
            &&& match gpu::reference_summary(report, readings, latency) {
                Ok(profile) => progress::advanced(
                    EvaluationView { task, phase: PhaseView::Summing(report) },
                    EventView::Summed(readings, latency),
                ).1 == finished(profile),
                Err(reason) => progress::advanced(
                    EvaluationView { task, phase: PhaseView::Summing(report) },
                    EventView::Summed(readings, latency),
                ).1 == WorkView::Abort(reason),
            }
        }),
{
}

/// A successful candidate is profiled by its script: with the names of its kernels, and with the
/// rules where the payload asks for the full profile; then the newest of its libraries is inspected.
pub proof fn candidates_are_profiled_by_name(
    task: TaskView,
    names: Seq<Seq<char>>,
    ncu: Option<Seq<char>>,
    sudo: Option<Seq<char>>,
    report: JsonView,
    libraries: Seq<Seq<char>>,
    times: Seq<i128>,
    tool: Option<Seq<char>>,
    standing: Seq<Seq<char>>,
)
    requires
        task.candidate,
        task.payload.at("source"@) is Text,
        times.len() == libraries.len(),
    ensures
        ({
            let subject = SubjectView {
                sudo,
                output: task.output,
                file: "profile_solution.py"@,
                names,
                full: task.payload.at("ncu_full"@) == JsonView::Bool(true),
                runtime: task.observation.at("runtime"@),
            };
            &&& match collection::begun(ncu, task.python, subject, task.assets) {
                collection::ProgressView::Asked(collection, ask) => progress::advanced(
                    EvaluationView { task, phase: PhaseView::Seeking(names) },
                    EventView::Found(ncu, sudo),
                ) == (
                    EvaluationView { task, phase: PhaseView::Collecting(collection) },
                    WorkView::Collect(ask),
                ),
                collection::ProgressView::Made(made) => progress::advanced(
                    EvaluationView { task, phase: PhaseView::Seeking(names) },
                    EventView::Found(ncu, sudo),
                ) == (
                    EvaluationView { task, phase: PhaseView::Gathering(made) },
                    WorkView::List,
                ),
            }
            &&& times.len() > 0 ==> exists|newest: int| {
                &&& 0 <= newest < times.len()
                &&& forall|i: int| 0 <= i < times.len() ==> (#[trigger] times[i]) <= times[newest]
                &&& progress::advanced(
                    EvaluationView { task, phase: PhaseView::Dating(report, libraries) },
                    EventView::Dated(Ok(times), tool, standing),
                ).1 == WorkView::Run(
                    ProcessView {
                        command: seq!["nm"@, "-D"@, #[trigger] libraries[newest]],
                        timeout_ms: 10_000,
                    },
                )
            }
            &&& progress::advanced(
                EvaluationView { task, phase: PhaseView::Dating(report, libraries) },
                EventView::Dated(Err(Seq::empty()), tool, standing),
            ).0.phase == PhaseView::Rereading(
                gpu::candidate_report(Ok(report), JsonView::Null),
            )
        }),
{
    gpu_binary::newest_is_latest(times);
    if times.len() > 0 {
        let newest = gpu_binary::newest_of(times, None, 0)->Some_0;
        let command = seq!["nm"@, "-D"@, libraries[newest]];
        assert(progress::advanced(
            EvaluationView { task, phase: PhaseView::Dating(report, libraries) },
            EventView::Dated(Ok(times), tool, standing),
        ).1 == WorkView::Run(ProcessView { command, timeout_ms: 10_000 }));
    }
}

/// A candidate's speedup is the reference's time by its own, and its record is made with the digests
/// of what its build left behind.
pub proof fn speedups_are_measured_against_the_reference(
    task: TaskView,
    report: JsonView,
    speedup: ReadingView,
    files: Seq<Seq<char>>,
    contents: Seq<Seq<u8>>,
)
    requires
        task.candidate,
        task.payload.at("problem"@).get("file_sha256"@) is None,
        contents.len() == files.len(),
    ensures
        ({
            let reference = task.payload.at("reference"@).at("reference_seconds"@).reading();
            let next = progress::rechecked(task, report);
            &&& task.verdict.seconds is Some && reference is Some ==> next == (
                EvaluationView { task, phase: PhaseView::Weighing(report) },
                WorkView::Divide(reference->Some_0, task.verdict.seconds->Some_0),
            )
            &&& task.verdict.seconds is Some && reference is None ==> next.1 == WorkView::Abort(
                "reference timing"@,
            )
            &&& task.verdict.seconds is None ==> next == (
                EvaluationView { task, phase: PhaseView::Keeping(report, None) },
                WorkView::List,
            )
            &&& progress::advanced(
                EvaluationView { task, phase: PhaseView::Weighing(report) },
                EventView::Divided(Some(speedup)),
            ) == (
                EvaluationView { task, phase: PhaseView::Keeping(report, Some(speedup)) },
                WorkView::List,
            )
            &&& progress::advanced(
                EvaluationView { task, phase: PhaseView::Weighing(report) },
                EventView::Divided(None),
            ).1 == WorkView::Abort("speedup must be finite"@)
        }),
        ({
            let kept = artifacts::artifacts_in(files, files.len() as int);
            let (after, work) = progress::advanced(
                EvaluationView { task, phase: PhaseView::Keeping(report, Some(speedup)) },
                EventView::Files(files),
            );
            &&& after.phase == PhaseView::Digesting(report, Some(speedup), kept)
            &&& work matches WorkView::Digest(list)
            &&& list.len() == kept.len()
            &&& forall|i: int|
                0 <= i < kept.len() ==> (#[trigger] list[i]) == paths::path(task.output, kept[i])
        }),
        ({
            let kept = Seq::new(
                files.len(),
                |i: int| (files[i], outside::sha256(contents[i])),
            );
            match gpu::candidate_record(
                task.payload,
                task.digest,
                task.verdict,
                report,
                task.observation.at("runtime"@),
                kept,
                Some(Some(speedup)),
            ) {
                Ok(record) => progress::advanced(
                    EvaluationView {
                        task,
                        phase: PhaseView::Digesting(report, Some(speedup), files),
                    },
                    EventView::Contents(Ok(contents)),
                ).1 == WorkView::Finish(record),
                Err(reason) => progress::advanced(
                    EvaluationView {
                        task,
                        phase: PhaseView::Digesting(report, Some(speedup), files),
                    },
                    EventView::Contents(Ok(contents)),
                ).1 == WorkView::Abort(reason),
            }
        }),
{
    let kept = Seq::new(files.len(), |i: int| (files[i], outside::sha256(contents[i])));
    assert(progress::digested(files, contents) =~= kept);
}

} // verus!
