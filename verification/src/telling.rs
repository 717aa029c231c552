//! What reports and feedback tell.
use crate::analysis;
use crate::analysis::KitView;
use crate::analyzers::invoke;
use crate::analyzers::output::OutputsView;
use crate::analyzers::sass;
use crate::analyzers::sass::SharesView;
use crate::analyzers::tool;
use crate::analyzers::tool::ToolView;
use crate::feedback;
use crate::json;
use crate::json::JsonView;
use crate::number::ReadingsView;
use crate::numeral;
use crate::outside;
use crate::pieces;
use crate::recommend;
use crate::sorted;
use crate::template;
use crate::template::{PartView, TemplateView, TemplatesView, ValuesView};
use crate::text::{lemma_surrounds, surrounds};
use crate::words;
use crate::written;
use vstd::prelude::*;

verus! {

/// Whether `lines` go on from `before`.
pub open spec fn goes_on(before: Seq<Seq<char>>, lines: Seq<Seq<char>>) -> bool {
    &&& before.len() <= lines.len()
    &&& forall|i: int| 0 <= i < before.len() ==> (#[trigger] lines[i]) == before[i]
}

/// The line on a metric of a kernel.
pub open spec fn metric_line(key: Seq<char>, value: JsonView) -> Seq<char> {
    "- `"@ + key + "`: "@ + written::shown(value)
}

/// Whether a line is on one of the first metrics of a group that the kernel has.
pub open spec fn is_on(keys: Seq<JsonView>, metrics: JsonView, end: int, line: Seq<char>) -> bool {
    exists|i: int|
        0 <= i < end && (#[trigger] keys[i]) is Text && metrics.get(keys[i]->Text_0) is Some && line
            == metric_line(keys[i]->Text_0, metrics.get(keys[i]->Text_0)->Some_0)
}

/// Of a group of metrics those are told, under their names, that the kernel has, and no others; a
/// name that is no text is refused.
pub proof fn groups_tell_the_metrics_that_there_are(
    lines: Seq<Seq<char>>,
    keys: Seq<JsonView>,
    metrics: JsonView,
    end: int,
)
    requires
        0 <= end <= keys.len(),
    ensures
        match analysis::with_metrics(lines, keys, metrics, end) {
            Ok(all) => {
                &&& goes_on(lines, all)
                &&& forall|i: int|
                    lines.len() <= i < all.len() ==> is_on(keys, metrics, end, #[trigger] all[i])
                &&& forall|i: int|
                    0 <= i < end ==> (#[trigger] keys[i]) is Text && (metrics.get(keys[i]->Text_0)
                        is Some ==> all.contains(
                        metric_line(keys[i]->Text_0, metrics.get(keys[i]->Text_0)->Some_0),
                    ))
            },
            Err(reason) => reason == "metric name"@ && exists|i: int|
                0 <= i < end && !((#[trigger] keys[i]) is Text),
        },
    decreases end,
{
    if end > 0 {
        groups_tell_the_metrics_that_there_are(lines, keys, metrics, end - 1);
        match analysis::with_metrics(lines, keys, metrics, end - 1) {
            Err(_) => {
                let i = choose|i: int| 0 <= i < end - 1 && !((#[trigger] keys[i]) is Text);
                assert(!(keys[i] is Text));
            },
            Ok(before) => {
                if let Ok(all) = analysis::with_metrics(lines, keys, metrics, end) {
                    assert(keys[end - 1] is Text);
                    assert forall|i: int| lines.len() <= i < all.len() implies is_on(
                        keys,
                        metrics,
                        end,
                        #[trigger] all[i],
                    ) by {
                        if i < before.len() {
                            assert(all[i] == before[i]);
                            let k = choose|k: int|
                                0 <= k < end - 1 && (#[trigger] keys[k]) is Text && metrics.get(
                                    keys[k]->Text_0,
                                ) is Some && before[i] == metric_line(
                                    keys[k]->Text_0,
                                    metrics.get(keys[k]->Text_0)->Some_0,
                                );
                            assert(keys[k] is Text);
                        } else {
                            assert(keys[end - 1] is Text);
                        }
                    }
                    assert forall|i: int| 0 <= i < end implies (#[trigger] keys[i]) is Text && (
                    metrics.get(keys[i]->Text_0) is Some ==> all.contains(
                        metric_line(keys[i]->Text_0, metrics.get(keys[i]->Text_0)->Some_0),
                    )) by {
                        if metrics.get(keys[i]->Text_0) is Some {
                            let line = metric_line(
                                keys[i]->Text_0,
                                metrics.get(keys[i]->Text_0)->Some_0,
                            );
                            if i < end - 1 {
                                let k = choose|k: int| 0 <= k < before.len() && before[k] == line;
                                assert(all[k] == line);
                            } else {
                                assert(all[before.len() as int] == line);
                            }
                        }
                    }
                } else {
                    assert(!(keys[end - 1] is Text));
                }
            },
        }
    }
}

/// A report has its six groups in this order, each under its heading.
pub proof fn groups_come_in_their_order(lines: Seq<Seq<char>>, assets: JsonView, metrics: JsonView, at: int)
    requires
        0 <= at < 6,
    ensures
        ({
            let name = seq![
                "compute"@,
                "memory"@,
                "occupancy"@,
                "stall"@,
                "timing"@,
                "branch"@,
            ][at];
            let heading = seq![
                "### Compute Metrics:"@,
                "\n### Memory Metrics:"@,
                "\n### Occupancy Metrics:"@,
                "\n### Stall Metrics:"@,
                "\n### Timing Metrics:"@,
                "\n### Branch Metrics:"@,
            ][at];
            let whole = analysis::with_groups(lines, assets, metrics, at + 1);
            match (
                analysis::with_groups(lines, assets, metrics, at),
                assets.at("metrics"@).at(name),
            ) {
                (Err(reason), _) => whole == Err::<Seq<Seq<char>>, Seq<char>>(reason),
                (Ok(before), JsonView::Array(keys)) => whole == analysis::with_metrics(
                    before.push(heading),
                    keys,
                    metrics,
                    keys.len() as int,
                ),
                (Ok(_), _) => whole == Err::<Seq<Seq<char>>, Seq<char>>("metric group"@),
            }
        }),
        analysis::with_groups(lines, assets, metrics, 0) == Ok::<Seq<Seq<char>>, Seq<char>>(lines),
{
}

/// How often a kind of instruction was counted, by the key of its count.
pub open spec fn counted(listing: JsonView, key: Seq<char>) -> nat {
    match listing.at(key).natural() {
        Some(count) => count as nat,
        None => 0,
    }
}

/// That no tensor cores are used is told exactly of a listing in which none of the five kinds of
/// instructions occurs and no library is linked that may use them.
pub proof fn missing_tensors_are_told(listing: JsonView)
    ensures
        ({
            let filled = listing matches JsonView::Object(list) && list.len() > 0;
            let none = filled && counted(listing, "wgmma_count"@) == 0 && counted(
                listing,
                "hmma_count"@,
            ) == 0 && counted(listing, "imma_count"@) == 0 && counted(listing, "dmma_count"@) == 0
                && counted(listing, "bmma_count"@) == 0 && listing.at("uses_cublas"@)
                != JsonView::Bool(true);
            let lines = analysis::tensor_lines(listing);
            &&& none <==> lines.len() > 0
            &&& none ==> {
                &&& lines[0] == "\n### SASS Binary Analysis (Bottleneck Detected)"@
                &&& lines[1] == "- WGMMA instructions (Hopper TC): 0"@
                &&& lines[2] == "- HMMA instructions (Ampere TC): 0"@
                &&& lines[3] == "- cuBLAS detected: No"@
                &&& lines[4] == "- FP32 FMA (FFMA): "@ + numeral::decimal(
                    counted(listing, "ffma_count"@),
                )
                &&& lines.len() == 7
            }
        }),
{
    reveal_strlit("_count");
    reveal_strlit("wgmma");
    reveal_strlit("wgmma_count");
    assert("wgmma"@ + "_count"@ =~= "wgmma_count"@);
    reveal_strlit("hmma");
    reveal_strlit("hmma_count");
    assert("hmma"@ + "_count"@ =~= "hmma_count"@);
    reveal_strlit("imma");
    reveal_strlit("imma_count");
    assert("imma"@ + "_count"@ =~= "imma_count"@);
    reveal_strlit("dmma");
    reveal_strlit("dmma_count");
    assert("dmma"@ + "_count"@ =~= "dmma_count"@);
    reveal_strlit("bmma");
    reveal_strlit("bmma_count");
    assert("bmma"@ + "_count"@ =~= "bmma_count"@);
    reveal_strlit("ffma");
    reveal_strlit("ffma_count");
    assert("ffma"@ + "_count"@ =~= "ffma_count"@);
}

/// Whether a tool has what it needs of a kernel.
pub open spec fn is_served(tool: ToolView, metrics: JsonView) -> bool {
    forall|i: int| 0 <= i < tool.required.len() ==> metrics.get(#[trigger] tool.required[i]) is Some
}

/// The next tool is passed over where a metric is missing that it needs, and where it finds nothing;
/// what it finds comes after what the tools before it found.
pub proof fn tools_speak_in_turn(
    tools: Seq<ToolView>,
    outputs: OutputsView,
    name: Seq<char>,
    metrics: JsonView,
    instructions: JsonView,
    readings: ReadingsView,
    shares: SharesView,
    at: int,
)
    requires
        0 <= at < tools.len(),
    ensures
        ({
            let before = analysis::guidance(
                tools,
                outputs,
                name,
                metrics,
                instructions,
                readings,
                shares,
                at,
            );
            let all = analysis::guidance(
                tools,
                outputs,
                name,
                metrics,
                instructions,
                readings,
                shares,
                at + 1,
            );
            let found = invoke::tool_found(
                tools[at].name,
                outputs,
                metrics,
                instructions,
                readings,
                sass::share_of(shares, name, 0),
            );
            &&& before is Err ==> all == before
            &&& before matches Ok(lines) ==> {
                &&& !is_served(tools[at], metrics) ==> all == before
                &&& is_served(tools[at], metrics) ==> match found {
                    Err(reason) => all == Err::<Seq<Seq<char>>, Seq<char>>(reason),
                    Ok(None) => all == before,
                    Ok(Some(output)) => all == Ok::<Seq<Seq<char>>, Seq<char>>(
                        lines.push(pieces::joined(output.lines(name), "\n"@)),
                    ),
                }
            }
        }),
        analysis::guidance(tools, outputs, name, metrics, instructions, readings, shares, 0) == Ok::<
            Seq<Seq<char>>,
            Seq<char>,
        >(Seq::empty()),
{
}

/// A report that is asked for in advance has what the tools find under a heading, if they find
/// anything; one that leaves the tools to be called offers each of them by name and description.
pub proof fn tools_speak_or_are_offered(
    lines: Seq<Seq<char>>,
    kit: KitView,
    outputs: OutputsView,
    name: Seq<char>,
    metrics: JsonView,
    instructions: JsonView,
    readings: ReadingsView,
    shares: SharesView,
)
    ensures
        ({
            let said = analysis::guidance(
                kit.used,
                outputs,
                name,
                metrics,
                instructions,
                readings,
                shares,
                kit.used.len() as int,
            );
            let told = analysis::with_advice(
                lines,
                kit,
                outputs,
                name,
                metrics,
                instructions,
                readings,
                shares,
            );
            &&& kit.proactive ==> match said {
                Err(reason) => told == Err::<Seq<Seq<char>>, Seq<char>>(reason),
                Ok(said) => if said.len() == 0 {
                    told == Ok::<Seq<Seq<char>>, Seq<char>>(lines)
                } else {
                    told == Ok::<Seq<Seq<char>>, Seq<char>>(
                        lines + seq![
                            "\n## Automated Bottleneck Analysis"@,
                            pieces::joined(said, "\n"@),
                        ],
                    )
                },
            }
            &&& !kit.proactive ==> {
                &&& told is Ok
                &&& goes_on(lines, told->Ok_0)
                &&& told->Ok_0.len() == lines.len() + 3 + kit.all.len()
                &&& told->Ok_0[lines.len() as int] == "\n## Available Analysis Tools"@
                &&& told->Ok_0[lines.len() as int + 1] == "Stage 1 bottleneck classification: **"@ + (
                if kit.bottleneck.len() == 0 {
                    "None"@
                } else {
                    "BottleneckType."@ + outside::uppercase(kit.bottleneck)
                }) + "**"@
                &&& forall|i: int|
                    0 <= i < kit.all.len() ==> #[trigger] told->Ok_0[lines.len() + 3 + i] == "- **"@
                        + kit.all[i].name + "**: "@ + kit.all[i].description
            }
        }),
{
    if kit.proactive {
        if let Ok(said) = analysis::guidance(
            kit.used,
            outputs,
            name,
            metrics,
            instructions,
            readings,
            shares,
            kit.used.len() as int,
        ) {
            let heading = "\n## Automated Bottleneck Analysis"@;
            let body = pieces::joined(said, "\n"@);
            assert(lines.push(heading).push(body) =~= lines + seq![heading, body]);
        }
    }
}

/// Each kernel of a report that has metrics is told of after those before it: its name, its metrics,
/// what its instructions lack, and what the tools say of it.
pub proof fn kernels_are_told_in_turn(
    lines: Seq<Seq<char>>,
    kit: KitView,
    assets: JsonView,
    outputs: OutputsView,
    report: JsonView,
    names: Seq<JsonView>,
    readings: ReadingsView,
    shares: SharesView,
    at: int,
)
    requires
        0 <= at < names.len(),
    ensures
        ({
            let before = analysis::with_kernels(
                lines,
                kit,
                assets,
                outputs,
                report,
                names,
                readings,
                shares,
                at,
            );
            let all = analysis::with_kernels(
                lines,
                kit,
                assets,
                outputs,
                report,
                names,
                readings,
                shares,
                at + 1,
            );
            &&& before is Err ==> all == before
            &&& before matches Ok(before) ==> match names[at] {
                JsonView::Text(name) => match report.at("metrics"@).get(name) {
                    None => all == Ok::<Seq<Seq<char>>, Seq<char>>(before),
                    Some(metrics) => match analysis::with_groups(
                        before.push("## Kernel: "@ + name + "\n"@),
                        assets,
                        metrics,
                        6,
                    ) {
                        Err(reason) => all == Err::<Seq<Seq<char>>, Seq<char>>(reason),
                        Ok(told) => match analysis::with_advice(
                            told + analysis::tensor_lines(report.at("sass"@)),
                            kit,
                            outputs,
                            name,
                            metrics,
                            report.at("sass"@),
                            readings,
                            shares,
                        ) {
                            Err(reason) => all == Err::<Seq<Seq<char>>, Seq<char>>(reason),
                            Ok(told) => all == Ok::<Seq<Seq<char>>, Seq<char>>(told.push("\n"@)),
                        },
                    },
                },
                _ => all == Err::<Seq<Seq<char>>, Seq<char>>("kernel name"@),
            }
        }),
{
    reveal(analysis::with_kernel);
}

/// The rules that a value recommends: those of a list with any.
pub open spec fn rules(value: JsonView) -> Seq<JsonView> {
    match value.at("rule_recommendations"@) {
        JsonView::Array(list) => list,
        _ => Seq::empty(),
    }
}

/// Rules are told one by one, numbered from one, each with its estimate and its text.
pub proof fn rules_are_numbered(value: JsonView, at: int)
    requires
        0 <= at < rules(value).len(),
    ensures
        recommend::rules_of(value) == Some(rules(value)),
        recommend::rule_lines(rules(value)).len() == rules(value).len(),
        recommend::rule_lines(rules(value))[at] == numeral::decimal((at + 1) as nat) + ". [est. "@ + (
        match rules(value)[at].at("est_speedup_pct"@).reading() {
            Some(reading) => reading.units,
            None => "0"@,
        }) + "% speedup] "@ + (match rules(value)[at].at("text"@) {
            JsonView::Text(text) => text,
            _ => Seq::empty(),
        }),
{
}

/// The text of a report is its lines, with the rules of the profiler under their header before them
/// where there are any.
pub proof fn rules_come_before_the_report(report: JsonView, guide: JsonView, lines: Seq<Seq<char>>)
    ensures
        ({
            let told = analysis::report_text(report, guide, lines);
            &&& rules(report).len() == 0 ==> told == Ok::<Seq<char>, Seq<char>>(
                pieces::joined(lines, "\n"@),
            )
            &&& rules(report).len() > 0 ==> match guide.at("rules_header"@) {
                JsonView::Text(header) => told == Ok::<Seq<char>, Seq<char>>(
                    header + "\n"@ + pieces::joined(recommend::rule_lines(rules(report)), "\n"@)
                        + "\n\n"@ + pieces::joined(lines, "\n"@),
                ),
                _ => told == Err::<Seq<char>, Seq<char>>("rule engine header"@),
            }
        }),
{
}

/// A report is asked for in advance unless the payload says otherwise; only the two modes that are
/// known are answered. In advance the tools are used that suit the bottleneck, and are named; else
/// none is used and all are handed over.
pub proof fn reports_answer_their_mode(
    payload: JsonView,
    registry: Seq<ToolView>,
    outputs: OutputsView,
    assets: JsonView,
    guide: JsonView,
    readings: ReadingsView,
    shares: SharesView,
)
    ensures
        ({
            let mode = match payload.at("tool_mode"@) {
                JsonView::Text(mode) => mode,
                _ => "proactive"@,
            };
            let bottleneck = match payload.at("bottleneck"@) {
                JsonView::Text(bottleneck) => bottleneck,
                _ => Seq::empty(),
            };
            let chosen = tool::selection(registry, bottleneck);
            let all = tool::by_priority(registry);
            match analysis::analyzed(
                payload,
                registry,
                outputs,
                assets,
                guide,
                readings,
                shares,
            ) {
                Ok(record) => {
                    &&& mode == "proactive"@ || mode == "reactive"@
                    &&& chosen is Ok
                    &&& payload.at("report"@).at("kernel_names"@) is Array
                    &&& record.at("text"@) is Text
                    &&& mode == "reactive"@ ==> {
                        &&& record.at("selected_tools"@) == JsonView::Array(Seq::empty())
                        &&& record.at("tools"@) matches JsonView::Array(list)
                        &&& list.len() == all.len()
                        &&& forall|i: int|
                            0 <= i < all.len() ==> (#[trigger] list[i]).at("name"@)
                                == JsonView::Text(all[i].name) && list[i].at("description"@)
                                == JsonView::Text(all[i].description)
                    }
                    &&& mode == "proactive"@ ==> {
                        let used = match chosen->Ok_0 {
                            Some(tools) => tools,
                            None => registry,
                        };
                        &&& record.at("tools"@) == JsonView::Array(Seq::empty())
                        &&& record.at("selected_tools"@) matches JsonView::Array(list)
                        &&& list.len() == used.len()
                        &&& forall|i: int|
                            0 <= i < used.len() ==> (#[trigger] list[i]) == JsonView::Text(
                                used[i].name,
                            )
                    }
                },
                Err(reason) => mode != "proactive"@ && mode != "reactive"@ ==> reason
                    == "unknown profiling mode"@,
            }
        }),
{
    reveal_strlit("proactive");
    reveal_strlit("reactive");
    assert("proactive"@.len() == 9);
    assert("reactive"@.len() == 8);
    if let Ok(record) = analysis::analyzed(
        payload,
        registry,
        outputs,
        assets,
        guide,
        readings,
        shares,
    ) {
        let fields = record->Object_0;
        assert(fields.len() == 3);
        reveal_strlit("text");
        reveal_strlit("selected_tools");
        reveal_strlit("tools");
        assert(fields[0].0 == "text"@);
        json::lemma_at(fields, 0);
        assert(fields[1].0 == "selected_tools"@);
        json::lemma_at(fields, 1);
        assert(fields[2].0 == "tools"@);
        json::lemma_at(fields, 2);
        let all = tool::by_priority(registry);
        let list = analysis::tool_records(all)->Array_0;
        assert forall|i: int| 0 <= i < all.len() implies (#[trigger] list[i]).at("name"@)
            == JsonView::Text(all[i].name) && list[i].at("description"@) == JsonView::Text(
            all[i].description,
        ) by {
            let tool = list[i]->Object_0;
            reveal_strlit("name");
            reveal_strlit("description");
            assert(tool[0].0 == "name"@);
            json::lemma_at(tool, 0);
            assert(tool[1].0 == "description"@);
            json::lemma_at(tool, 1);
        }
        assert(Seq::new(0, |i: int| JsonView::Text(Seq::<Seq<char>>::empty()[i])) =~= Seq::<
            JsonView,
        >::empty());
    }
}

proof fn lemma_value(values: ValuesView, name: Seq<char>, from: int)
    requires
        0 <= from,
    ensures
        match template::value_of(values, name, from) {
            Some(value) => exists|i: int|
                from <= i < values.len() && #[trigger] values[i] == (name, value) && forall|j: int|
                    from <= j < i ==> (#[trigger] values[j]).0 != name,
            None => forall|i: int| from <= i < values.len() ==> (#[trigger] values[i]).0 != name,
        },
    decreases values.len() - from,
{
    if from < values.len() {
        if values[from].0 == name {
            assert(values[from] == (name, values[from].1));
        } else {
            lemma_value(values, name, from + 1);
            if let Some(value) = template::value_of(values, name, from + 1) {
                let i = choose|i: int|
                    from + 1 <= i < values.len() && #[trigger] values[i] == (name, value)
                        && forall|j: int| from + 1 <= j < i ==> (#[trigger] values[j]).0 != name;
                assert(values[i] == (name, value));
            }
        }
    }
}

proof fn lemma_missing(names: Seq<Seq<char>>, values: ValuesView, from: int)
    requires
        0 <= from,
    ensures
        match template::first_missing(names, values, from) {
            Some(name) => exists|i: int|
                from <= i < names.len() && #[trigger] names[i] == name && !knows(values, name)
                    && forall|j: int| from <= j < i ==> knows(values, #[trigger] names[j]),
            None => forall|i: int| from <= i < names.len() ==> knows(values, #[trigger] names[i]),
        },
    decreases names.len() - from,
{
    if from < names.len() {
        lemma_value(values, names[from], 0);
        if template::value_of(values, names[from], 0) is Some {
            lemma_missing(names, values, from + 1);
            if let Some(name) = template::first_missing(names, values, from + 1) {
                let i = choose|i: int|
                    from + 1 <= i < names.len() && #[trigger] names[i] == name && !knows(values, name)
                        && forall|j: int| from + 1 <= j < i ==> knows(values, #[trigger] names[j]);
                assert(names[i] == name);
            }
        } else {
            assert(names[from] == names[from]);
        }
    }
}

/// Whether there is a value of a name.
pub open spec fn knows(values: ValuesView, name: Seq<char>) -> bool {
    exists|i: int| 0 <= i < values.len() && (#[trigger] values[i]).0 == name
}

/// A template is filled in exactly if each of its names has a value; the first that has none is the
/// reason why it is not. What is filled in is the parts in their order, a text as it is and a name by
/// its first value.
pub proof fn templates_are_filled_in(
    template: TemplateView,
    values: ValuesView,
    lacking: Seq<char>,
    part: PartView,
)
    ensures
        match template::rendered(Ok(template), values, lacking) {
            Ok(text) => {
                &&& forall|i: int|
                    0 <= i < template.placeholders.len() ==> knows(
                        values,
                        #[trigger] template.placeholders[i],
                    )
                &&& template::rendered(
                    Ok(TemplateView { parts: template.parts.push(part), ..template }),
                    values,
                    lacking,
                ) == Ok::<Seq<char>, Seq<char>>(
                    text + (match part {
                        PartView::Text(kept) => kept,
                        PartView::Value(name) => match template::value_of(values, name, 0) {
                            Some(value) => value,
                            None => Seq::empty(),
                        },
                    }),
                )
                &&& template.parts.len() == 0 ==> text.len() == 0
            },
            Err(reason) => exists|i: int|
                0 <= i < template.placeholders.len() && !knows(
                    values,
                    #[trigger] template.placeholders[i],
                ) && reason == lacking + template.placeholders[i],
        },
        match template::value_of(values, part->Value_0, 0) {
            Some(value) => exists|i: int|
                0 <= i < values.len() && #[trigger] values[i] == (part->Value_0, value),
            None => !knows(values, part->Value_0),
        },
{
    lemma_missing(template.placeholders, values, 0);
    lemma_value(values, part->Value_0, 0);
    let longer = template.parts.push(part);
    lemma_filled(template.parts, part, values, template.parts.len() as int);
    assert(longer[template.parts.len() as int] == part);
}

proof fn lemma_filled(parts: Seq<PartView>, part: PartView, values: ValuesView, end: int)
    requires
        0 <= end <= parts.len(),
    ensures
        template::filled(parts.push(part), values, end) == template::filled(parts, values, end),
    decreases end,
{
    if end > 0 {
        lemma_filled(parts, part, values, end - 1);
        assert(parts.push(part)[end - 1] == parts[end - 1]);
    }
}

/// A template of the feedback, filled in.
pub open spec fn filled(templates: TemplatesView, name: Seq<char>, values: ValuesView) -> Result<
    Seq<char>,
    Seq<char>,
> {
    template::rendered(
        template::template_of(templates, name, "feedback template"@, 0),
        values,
        "missing template value "@,
    )
}

/// Texts one after the other, or the first reason why one is missing.
pub open spec fn chained(
    first: Result<Seq<char>, Seq<char>>,
    second: Result<Seq<char>, Seq<char>>,
) -> Result<Seq<char>, Seq<char>> {
    match (first, second) {
        (Err(reason), _) => Err(reason),
        (Ok(_), Err(reason)) => Err(reason),
        (Ok(left), Ok(right)) => Ok(left + right),
    }
}

/// Which advice on an error is given: on wrong results, on misaligned accesses, on launches and on
/// other errors of the device, on syntax, on imports, and on all else.
pub proof fn advice_suits_the_error(kind: Seq<char>, message: Seq<char>)
    ensures
        ({
            let device = surrounds(message, "cuda"@);
            let wrong = kind == "correctness_error"@;
            &&& feedback::advice(kind, message) == 0 <==> wrong
            &&& feedback::advice(kind, message) == 1 <==> !wrong && device && surrounds(
                message,
                "misaligned"@,
            )
            &&& feedback::advice(kind, message) == 2 <==> !wrong && device && !surrounds(
                message,
                "misaligned"@,
            ) && surrounds(message, "launch"@)
            &&& feedback::advice(kind, message) == 3 <==> !wrong && device && !surrounds(
                message,
                "misaligned"@,
            ) && !surrounds(message, "launch"@)
            &&& feedback::advice(kind, message) == 4 <==> !device && kind == "SyntaxError"@
            &&& feedback::advice(kind, message) == 5 <==> !device && kind == "ImportError"@
            &&& 0 <= feedback::advice(kind, message) <= 6
        }),
{
    lemma_surrounds(message, "cuda"@);
    lemma_surrounds(message, "misaligned"@);
    lemma_surrounds(message, "launch"@);
    reveal_strlit("correctness_error");
    reveal_strlit("SyntaxError");
    reveal_strlit("ImportError");
    assert("SyntaxError"@[0] != "ImportError"@[0]);
    assert("correctness_error"@.len() == 17);
    assert("SyntaxError"@.len() == 11);
    assert("ImportError"@.len() == 11);
}

/// A value of an error or an analysis as it is shown, a stand-in where it is not there.
pub open spec fn field_or(value: JsonView, key: Seq<char>, default: Seq<char>) -> Seq<char> {
    match value.get(key) {
        Some(held) => written::shown(held),
        None => default,
    }
}

/// The text that a value is, the empty text where it is none.
pub open spec fn held(value: JsonView) -> Seq<char> {
    match value {
        JsonView::Text(text) => text,
        _ => Seq::empty(),
    }
}

/// The feedback on an error: a header, its message or its summary with the end of the message, what
/// its traceback says, and the advice that suits it.
pub proof fn errors_are_explained(
    templates: TemplatesView,
    assets: JsonView,
    error: JsonView,
    code: Seq<char>,
)
    ensures
        ({
            let kind = field_or(error, "error_type"@, "Unknown"@);
            let message = field_or(error, "error_message"@, "No details"@);
            let summary = held(error.at("error_summary"@));
            let traceback = held(error.at("traceback"@));
            let told = feedback::error_feedback(templates, assets, error, code);
            match assets.at("guidance"@).item(
                feedback::advice(kind, outside::lowercase(message)),
            ) {
                JsonView::Text(guidance) => {
                    let values = seq![
                        ("error_type"@, kind),
                        ("error_msg"@, message),
                        ("stage"@, field_or(error, "stage"@, "unknown"@)),
                        ("previous_code"@, code),
                        ("guidance"@, guidance),
                    ];
                    let more = if summary.len() > 0 {
                        values.push(("error_summary"@, summary)).push(
                            ("error_abbrev"@, words::tail(message, 1500)),
                        )
                    } else {
                        values
                    };
                    let begun = chained(
                        filled(templates, "error_header"@, values),
                        filled(
                            templates,
                            if summary.len() > 0 {
                                "error_summary"@
                            } else {
                                "error_message"@
                            },
                            more,
                        ),
                    );
                    let compiled = surrounds(traceback, "static assertion failed"@) || surrounds(
                        traceback,
                        "copy_traits"@,
                    );
                    &&& traceback.len() == 0 ==> told == chained(
                        begun,
                        filled(templates, "error_tail"@, more),
                    )
                    &&& traceback.len() > 0 && !compiled ==> {
                        let all = more.push(("traceback_head"@, words::head(traceback, 2000)));
                        told == chained(
                            chained(begun, filled(templates, "error_traceback"@, all)),
                            filled(templates, "error_tail"@, all),
                        )
                    }
                    &&& traceback.len() > 0 && compiled ==> match feedback::output_summary(
                        traceback,
                    ) {
                        Ok(summed) => {
                            let all = more.push(("cute_summary"@, summed)).push(
                                ("traceback_tail"@, words::tail(traceback, 2000)),
                            );
                            told == chained(
                                chained(begun, filled(templates, "error_cute"@, all)),
                                filled(templates, "error_tail"@, all),
                            )
                        },
                        Err(reason) => told is Err,
                    }
                },
                _ => told == Err::<Seq<char>, Seq<char>>("error guidance"@),
            }
        }),
{
    let traceback = held(error.at("traceback"@));
    lemma_surrounds(traceback, "static assertion failed"@);
    lemma_surrounds(traceback, "copy_traits"@);
}

/// What a compiler printed comes down to the assertions that failed, each once and in order, and its
/// first five errors; what there is none of is not mentioned.
pub proof fn compilers_are_summed_up(groups: Seq<Option<Seq<char>>>, errors: Seq<Seq<char>>)
    ensures
        ({
            let list = pieces::taken(groups, groups.len() as int);
            let failed = sorted::in_order(list, list.len() as int);
            let shown = if errors.len() > 5 {
                errors.take(5)
            } else {
                errors
            };
            let first = if failed.len() > 0 {
                "**Root cause (static_assert):**\n"@ + feedback::assertion_lines(
                    failed,
                    failed.len() as int,
                )
            } else {
                Seq::empty()
            };
            let second = if errors.len() > 0 {
                "**Compiler errors:**\n```\n"@ + pieces::joined(shown, "\n"@) + "\n```\n"@
            } else {
                Seq::empty()
            };
            feedback::compiler_summary(groups, errors) == first + second
        }),
{
}

/// Assertions are listed one to a line.
pub proof fn assertions_are_listed(assertions: Seq<Seq<char>>, end: int)
    requires
        0 <= end < assertions.len(),
    ensures
        feedback::assertion_lines(assertions, 0).len() == 0,
        feedback::assertion_lines(assertions, end + 1) == feedback::assertion_lines(assertions, end)
            + "- "@ + assertions[end] + "\n"@,
{
}

/// What an analysis recommends, numbered, and that it recommends nothing where it does not.
pub open spec fn advised(profile: JsonView) -> Seq<char> {
    match profile.at("optimization_recommendations"@) {
        JsonView::Array(items) => if items.len() > 0 {
            pieces::joined(
                Seq::new(
                    items.len(),
                    |i: int| numeral::decimal((i + 1) as nat) + ". "@ + held(items[i]),
                ),
                "\n"@,
            )
        } else {
            "No specific recommendations available."@
        },
        _ => "No specific recommendations available."@,
    }
}

proof fn lemma_advised(profile: JsonView)
    ensures
        feedback::recommendations(profile) == advised(profile),
{
    if let JsonView::Array(items) = profile.at("optimization_recommendations"@) {
        let texts = feedback::item_texts(items);
        assert(crate::analyzers::output::numbered(texts) =~= Seq::new(
            items.len(),
            |i: int| numeral::decimal((i + 1) as nat) + ". "@ + held(items[i]),
        ));
    }
}

/// What the feedback on an analysis can show of it.
pub open spec fn shown_of(profile: JsonView, code: Seq<char>) -> ValuesView {
    seq![
        ("bottleneck"@, field_or(profile, "bottleneck_type"@, "Unknown"@)),
        ("severity"@, field_or(profile, "severity"@, "Unknown"@)),
        (
            "priority"@,
            match profile.at("priority_score"@).reading() {
                Some(reading) => reading.tenths,
                None => "0.0"@,
            },
        ),
        (
            "improvement"@,
            match profile.at("estimated_improvement"@).reading() {
                Some(reading) => reading.tenths,
                None => "0.0"@,
            },
        ),
        ("previous_code"@, code),
        ("recs_text"@, advised(profile)),
    ]
}

/// The feedback on an analysis: a header, its details where there are any, and an end; with the rules
/// of the profiler in a block where there are any, and the recommendations numbered.
pub proof fn analyses_are_explained(templates: TemplatesView, profile: JsonView, code: Seq<char>)
    ensures
        ({
            let values = shown_of(profile, code);
            let ranked = values.push(
                ("ranked"@, pieces::joined(recommend::rule_lines(rules(profile)), "\n"@)),
            );
            let block = if rules(profile).len() > 0 {
                filled(templates, "rules"@, ranked)
            } else {
                Ok(Seq::empty())
            };
            let details = held(profile.at("detailed_analysis"@));
            let told = feedback::profile_feedback(templates, profile, code);
            match block {
                Err(reason) => told == Err::<Seq<char>, Seq<char>>(reason),
                Ok(block) => {
                    let all = (if rules(profile).len() > 0 {
                        ranked
                    } else {
                        values
                    }).push(("rule_block"@, block));
                    let header = filled(templates, "profile_header"@, all);
                    &&& details.len() == 0 ==> told == chained(
                        header,
                        filled(templates, "profile_tail"@, all),
                    )
                    &&& details.len() > 0 ==> {
                        let more = all.push(("detailed"@, details));
                        told == chained(
                            chained(header, filled(templates, "profile_details"@, more)),
                            filled(templates, "profile_tail"@, more),
                        )
                    }
                },
            }
        }),
{
    lemma_advised(profile);
    let values = feedback::profile_values(profile, code);
    assert(values =~= shown_of(profile, code));
    match recommend::rules_of(profile) {
        None => {
            assert(rules(profile).len() == 0);
            assert(feedback::with_rules(templates, profile, values) == Ok::<ValuesView, Seq<char>>(
                values.push(("rule_block"@, Seq::empty())),
            ));
        },
        Some(list) => {
            assert(rules(profile) == list);
        },
    }
    let told = feedback::profile_feedback(templates, profile, code);
    match feedback::with_rules(templates, profile, values) {
        Ok(all) => {
            let header = filled(templates, "profile_header"@, all);
            let details = held(profile.at("detailed_analysis"@));
            if details.len() == 0 {
                assert(told == chained(header, filled(templates, "profile_tail"@, all)));
            } else {
                let more = all.push(("detailed"@, details));
                assert(told == chained(
                    chained(header, filled(templates, "profile_details"@, more)),
                    filled(templates, "profile_tail"@, more),
                ));
            }
        },
        Err(_) => {},
    }
}

/// Feedback is on the parent's error if it failed, else on its analysis if that tells something, else
/// its code, as a fresh start where candidates are asked for anew; without a parent there is none. A
/// hint comes behind it.
pub proof fn feedback_suits_the_parent(payload: JsonView, templates: TemplatesView, assets: JsonView)
    ensures
        ({
            let parent = payload.at("parent"@);
            let code = held(parent.at("submission"@).at("code"@));
            let failed = parent.at("outcome"@).at("status"@) == JsonView::Text("failed"@);
            let told = parent.at("analysis"@) matches JsonView::Object(list) && list.len() > 0;
            let hint = held(payload.at("hint"@));
            let body = if parent == JsonView::Null {
                Ok(Seq::empty())
            } else if failed {
                feedback::error_feedback(
                    templates,
                    assets,
                    parent.at("outcome"@).at("error_context"@),
                    code,
                )
            } else if told {
                feedback::profile_feedback(templates, parent.at("analysis"@), code)
            } else if payload.at("mode"@) == JsonView::Text("initial"@) {
                filled(templates, "fresh"@, seq![("previous_code"@, code)])
            } else {
                Ok::<Seq<char>, Seq<char>>(code)
            };
            &&& hint.len() == 0 ==> feedback::feedback_told(payload, templates, assets) == body
            &&& hint.len() > 0 ==> feedback::feedback_told(payload, templates, assets) == chained(
                chained(body, Ok("\n\n"@)),
                filled(templates, "hint"@, seq![("hint"@, hint)]),
            )
        }),
{
}

} // verus!
