//! Tools that look at numbers.
use crate::analyzers::metric;
use crate::analyzers::metric::{exceeds, metric, number, reaches, title};
use crate::analyzers::output;
use crate::analyzers::output::{Output, OutputView, Outputs, OutputsView};
use crate::fields;
use crate::fields::Fields;
use crate::json::{FieldView, Json, JsonView};
use crate::number::{Reading, ReadingView, Readings, ReadingsView};
use crate::text::same;
use crate::written;
use crate::written::display;
use vstd::prelude::*;

verus! {

/// What a tool finds: nothing, something, or why it cannot look.
pub type Found = Result<Option<OutputView>, Seq<char>>;

/// The model of what a tool finds.
pub open spec fn found_view(result: Result<Option<Output>, String>) -> Found {
    match result {
        Ok(Some(output)) => Ok(Some(output@)),
        Ok(None) => Ok(None),
        Err(error) => Err(error@),
    }
}

/// The model of an optional output.
pub open spec fn optional_output(output: Option<Output>) -> Option<OutputView> {
    match output {
        Some(output) => Some(output@),
        None => None,
    }
}

/// A share with one decimal place.
pub open spec fn percent(reading: ReadingView) -> Seq<char> {
    reading.tenths + "%"@
}

fn percent_text(reading: &Reading) -> (text: String)
    ensures
        text@ == percent(reading@),
{
    reading.tenths.clone().concat("%")
}

/// The severity: high or medium.
pub open spec fn severity(high: bool) -> Seq<char> {
    if high {
        "high"@
    } else {
        "medium"@
    }
}

fn severity_text(high: bool) -> (text: String)
    ensures
        text@ == severity(high),
{
    if high {
        "high".to_owned()
    } else {
        "medium".to_owned()
    }
}

/// Too little use of tensor cores.
pub open spec fn tensor_use(output: OutputView, metrics: JsonView, readings: ReadingsView) -> Option<
    OutputView,
> {
    let value = metric::number_of(
        metrics,
        "sm__inst_executed_pipe_tensor.avg.pct_of_peak_sustained_active"@,
        100,
        readings,
    );
    if metric::at_least(value, 10) {
        None
    } else {
        Some(
            OutputView {
                summary: "Only "@ + value.tenths
                    + "% tensor core utilization (essentially not using Tensor Cores)"@,
                metrics_observed: seq![
                    ("tensor_core_utilization"@, JsonView::Text(percent(value))),
                ],
                ..output
            },
        )
    }
}

fn look_at_tensor_use(output: Output, metrics: &Json, readings: &Readings) -> (found: Option<Output>)
    ensures
        optional_output(found) == tensor_use(output@, metrics@, readings@),
{
    let value = number(
        metrics,
        "sm__inst_executed_pipe_tensor.avg.pct_of_peak_sustained_active",
        100,
        readings,
    );
    if reaches(&value, 10) {
        return None;
    }
    let mut output = output;
    let ghost before = output@;
    output.summary = "Only ".to_owned().concat(value.tenths.as_str()).concat(
        "% tensor core utilization (essentially not using Tensor Cores)",
    );
    output.metrics_observed = Fields::new().with(
        "tensor_core_utilization",
        Json::Text(percent_text(&value)),
    );
    assert(output@.metrics_observed =~= tensor_use(
        before,
        metrics@,
        readings@,
    )->Some_0.metrics_observed);
    Some(output)
}

/// Poor cache hit rates together with stalls on memory.
pub open spec fn coalescing(output: OutputView, metrics: JsonView, readings: ReadingsView) -> Option<
    OutputView,
> {
    let l1 = metric::number_of(metrics, "l1tex__t_sector_hit_rate.pct"@, 100, readings);
    let l2 = metric::number_of(metrics, "lts__t_sector_hit_rate.pct"@, 100, readings);
    let stalls = metric::number_of(
        metrics,
        "smsp__warp_issue_stalled_memory_dependency_per_warp_active.pct"@,
        0,
        readings,
    );
    let critical = !metric::at_least(l1, 30) && metric::more_than(stalls, 40);
    if critical || (!metric::at_least(l1, 70) && metric::more_than(stalls, 20)) {
        Some(
            OutputView {
                severity: severity(critical),
                summary: "L1 hit rate: "@ + l1.tenths + "% (target: >70.0%), memory stalls: "@
                    + stalls.tenths + "%"@,
                metrics_observed: seq![
                    ("L1 cache hit rate"@, JsonView::Text(percent(l1))),
                    ("L2 cache hit rate"@, JsonView::Text(percent(l2))),
                    ("Memory dependency stalls"@, JsonView::Text(percent(stalls))),
                ],
                ..output
            },
        )
    } else {
        None
    }
}

fn look_at_coalescing(output: Output, metrics: &Json, readings: &Readings) -> (found: Option<Output>)
    ensures
        optional_output(found) == coalescing(output@, metrics@, readings@),
{
    let l1 = number(metrics, "l1tex__t_sector_hit_rate.pct", 100, readings);
    let l2 = number(metrics, "lts__t_sector_hit_rate.pct", 100, readings);
    let stalls = number(
        metrics,
        "smsp__warp_issue_stalled_memory_dependency_per_warp_active.pct",
        0,
        readings,
    );
    let critical = !reaches(&l1, 30) && exceeds(&stalls, 40);
    if !(critical || (!reaches(&l1, 70) && exceeds(&stalls, 20))) {
        return None;
    }
    let mut output = output;
    let ghost before = output@;
    output.severity = severity_text(critical);
    output.summary = "L1 hit rate: ".to_owned().concat(l1.tenths.as_str()).concat(
        "% (target: >70.0%), memory stalls: ",
    ).concat(stalls.tenths.as_str()).concat("%");
    output.metrics_observed = Fields::new().with(
        "L1 cache hit rate",
        Json::Text(percent_text(&l1)),
    ).with("L2 cache hit rate", Json::Text(percent_text(&l2))).with(
        "Memory dependency stalls",
        Json::Text(percent_text(&stalls)),
    );
    assert(output@.metrics_observed =~= coalescing(
        before,
        metrics@,
        readings@,
    )->Some_0.metrics_observed);
    Some(output)
}

/// The share of the memory's throughput that is used.
pub open spec fn dram_share(metrics: JsonView, readings: ReadingsView) -> ReadingView {
    let value = metric::number_of(
        metrics,
        "dram__throughput.avg.pct_of_peak_sustained_elapsed"@,
        0,
        readings,
    );
    if value.value.rank == 0 {
        metric::number_of(
            metrics,
            "gpu__dram_throughput.avg.pct_of_peak_sustained_elapsed"@,
            0,
            readings,
        )
    } else {
        value
    }
}

/// A memory that is nearly saturated.
pub open spec fn dram(output: OutputView, metrics: JsonView, readings: ReadingsView) -> Option<
    OutputView,
> {
    let value = dram_share(metrics, readings);
    if !metric::at_least(value, 80) {
        None
    } else {
        let saturated = metric::at_least(value, 95);
        Some(
            OutputView {
                severity: severity(saturated),
                title: "Memory-Bound Kernel"@ + (if saturated {
                    " (Saturated)"@
                } else {
                    ""@
                }),
                summary: "DRAM throughput at "@ + value.tenths
                    + "% of peak - kernel is memory-bound"@,
                metrics_observed: seq![
                    ("DRAM throughput"@, JsonView::Text(value.tenths + "% of peak"@)),
                ],
                ..output
            },
        )
    }
}

fn look_at_dram(output: Output, metrics: &Json, readings: &Readings) -> (found: Option<Output>)
    ensures
        optional_output(found) == dram(output@, metrics@, readings@),
{
    let mut value = number(
        metrics,
        "dram__throughput.avg.pct_of_peak_sustained_elapsed",
        0,
        readings,
    );
    if value.value.rank == 0 {
        value =
        number(metrics, "gpu__dram_throughput.avg.pct_of_peak_sustained_elapsed", 0, readings);
    }
    if !reaches(&value, 80) {
        return None;
    }
    let saturated = reaches(&value, 95);
    let mut output = output;
    let ghost before = output@;
    output.severity = severity_text(saturated);
    output.title = "Memory-Bound Kernel".to_owned().concat(
        if saturated {
            " (Saturated)"
        } else {
            ""
        },
    );
    output.summary = "DRAM throughput at ".to_owned().concat(value.tenths.as_str()).concat(
        "% of peak - kernel is memory-bound",
    );
    output.metrics_observed = Fields::new().with(
        "DRAM throughput",
        Json::Text(value.tenths.clone().concat("% of peak")),
    );
    assert(output@.metrics_observed =~= dram(before, metrics@, readings@)->Some_0.metrics_observed);
    Some(output)
}

/// Too many registers per thread.
pub open spec fn registers(output: OutputView, metrics: JsonView, readings: ReadingsView) -> Option<
    OutputView,
> {
    let value = metric::number_of(metrics, "launch__registers_per_thread"@, 32, readings);
    if !metric::at_least(value, 96) {
        None
    } else {
        let spilling = metric::at_least(value, 128);
        Some(
            OutputView {
                severity: severity(spilling),
                title: "High Register Usage"@ + (if spilling {
                    " (Likely Spilling)"@
                } else {
                    ""@
                }),
                summary: value.units + " registers per thread - may cause register spilling"@,
                metrics_observed: seq![("Registers per thread"@, JsonView::Text(value.units))],
                ..output
            },
        )
    }
}

fn look_at_registers(output: Output, metrics: &Json, readings: &Readings) -> (found: Option<Output>)
    ensures
        optional_output(found) == registers(output@, metrics@, readings@),
{
    let value = number(metrics, "launch__registers_per_thread", 32, readings);
    if !reaches(&value, 96) {
        return None;
    }
    let spilling = reaches(&value, 128);
    let mut output = output;
    let ghost before = output@;
    output.severity = severity_text(spilling);
    output.title = "High Register Usage".to_owned().concat(
        if spilling {
            " (Likely Spilling)"
        } else {
            ""
        },
    );
    output.summary = value.units.clone().concat(
        " registers per thread - may cause register spilling",
    );
    output.metrics_observed = Fields::new().with(
        "Registers per thread",
        Json::Text(value.units.clone()),
    );
    assert(output@.metrics_observed =~= registers(
        before,
        metrics@,
        readings@,
    )->Some_0.metrics_observed);
    Some(output)
}

/// Too much waiting at barriers.
pub open spec fn barriers(output: OutputView, metrics: JsonView, readings: ReadingsView) -> Option<
    OutputView,
> {
    let value = metric::number_of(
        metrics,
        "smsp__warp_issue_stalled_barrier_per_warp_active.pct"@,
        0,
        readings,
    );
    if !metric::at_least(value, 30) {
        None
    } else {
        Some(
            OutputView {
                summary: value.tenths + "% of warps stalled at __syncthreads()"@,
                metrics_observed: seq![("Barrier stalls"@, JsonView::Text(percent(value)))],
                ..output
            },
        )
    }
}

fn look_at_barriers(output: Output, metrics: &Json, readings: &Readings) -> (found: Option<Output>)
    ensures
        optional_output(found) == barriers(output@, metrics@, readings@),
{
    let value = number(
        metrics,
        "smsp__warp_issue_stalled_barrier_per_warp_active.pct",
        0,
        readings,
    );
    if !reaches(&value, 30) {
        return None;
    }
    let mut output = output;
    let ghost before = output@;
    output.summary = value.tenths.clone().concat("% of warps stalled at __syncthreads()");
    output.metrics_observed = Fields::new().with("Barrier stalls", Json::Text(percent_text(&value)));
    assert(output@.metrics_observed =~= barriers(
        before,
        metrics@,
        readings@,
    )->Some_0.metrics_observed);
    Some(output)
}

/// What limits the occupancy: the first of the lowest of the three limits.
pub open spec fn limiter(metrics: JsonView, readings: ReadingsView) -> Seq<char> {
    let registers = metric::number_of(
        metrics,
        "launch__occupancy_limit_registers"@,
        100,
        readings,
    ).place();
    let shared = metric::number_of(
        metrics,
        "launch__occupancy_limit_shared_mem"@,
        100,
        readings,
    ).place();
    let blocks = metric::number_of(
        metrics,
        "launch__occupancy_limit_blocks"@,
        100,
        readings,
    ).place();
    if registers <= shared && registers <= blocks {
        "registers"@
    } else if shared <= blocks {
        "shared_memory"@
    } else {
        "block_count"@
    }
}

fn find_limiter(metrics: &Json, readings: &Readings) -> (name: &'static str)
    ensures
        name@ == limiter(metrics@, readings@),
{
    let registers: i128 = number(metrics, "launch__occupancy_limit_registers", 100, readings).place();
    let shared: i128 = number(metrics, "launch__occupancy_limit_shared_mem", 100, readings).place();
    let blocks: i128 = number(metrics, "launch__occupancy_limit_blocks", 100, readings).place();
    if registers <= shared && registers <= blocks {
        "registers"
    } else if shared <= blocks {
        "shared_memory"
    } else {
        "block_count"
    }
}

/// A limit as it is shown.
pub open spec fn limit_text(metrics: JsonView, key: Seq<char>, readings: ReadingsView) -> Seq<char> {
    written::shown(metric::metric_of(metrics, key, fields::natural_view(100), readings)) + "%"@
}

fn show_limit(metrics: &Json, key: &str, readings: &Readings) -> (text: String)
    ensures
        text@ == limit_text(metrics@, key@, readings@),
{
    display(&metric(metrics, key, fields::natural(100), readings)).concat("%")
}

/// The metrics that a low occupancy is told with.
pub open spec fn occupancy_observed(metrics: JsonView, readings: ReadingsView) -> Seq<FieldView> {
    let occupancy = metric::number_of(
        metrics,
        "sm__warps_active.avg.pct_of_peak_sustained_active"@,
        100,
        readings,
    );
    seq![
        ("Warp occupancy"@, JsonView::Text(percent(occupancy))),
        (
            "Registers per thread"@,
            JsonView::Text(
                written::shown(
                    metric::metric_of(
                        metrics,
                        "launch__registers_per_thread"@,
                        fields::natural_view(32),
                        readings,
                    ),
                ),
            ),
        ),
        (
            "Occupancy limit (registers)"@,
            JsonView::Text(limit_text(metrics, "launch__occupancy_limit_registers"@, readings)),
        ),
        (
            "Occupancy limit (shared mem)"@,
            JsonView::Text(limit_text(metrics, "launch__occupancy_limit_shared_mem"@, readings)),
        ),
        (
            "Occupancy limit (blocks)"@,
            JsonView::Text(limit_text(metrics, "launch__occupancy_limit_blocks"@, readings)),
        ),
    ]
}

fn observe_occupancy(metrics: &Json, readings: &Readings) -> (list: Fields)
    ensures
        list@ == occupancy_observed(metrics@, readings@),
{
    let occupancy = number(
        metrics,
        "sm__warps_active.avg.pct_of_peak_sustained_active",
        100,
        readings,
    );
    let used = metric(metrics, "launch__registers_per_thread", fields::natural(32), readings);
    let list = Fields::new().with("Warp occupancy", Json::Text(percent_text(&occupancy))).with(
        "Registers per thread",
        Json::Text(display(&used)),
    ).with(
        "Occupancy limit (registers)",
        Json::Text(show_limit(metrics, "launch__occupancy_limit_registers", readings)),
    ).with(
        "Occupancy limit (shared mem)",
        Json::Text(show_limit(metrics, "launch__occupancy_limit_shared_mem", readings)),
    ).with(
        "Occupancy limit (blocks)",
        Json::Text(show_limit(metrics, "launch__occupancy_limit_blocks", readings)),
    );
    assert(list@ =~= occupancy_observed(metrics@, readings@));
    list
}

/// Too few active warps.
pub open spec fn occupancy(outputs: OutputsView, metrics: JsonView, readings: ReadingsView) -> Found {
    let value = metric::number_of(
        metrics,
        "sm__warps_active.avg.pct_of_peak_sustained_active"@,
        100,
        readings,
    );
    if metric::at_least(value, 50) {
        Ok(None)
    } else {
        let limiter = limiter(metrics, readings);
        match output::base(outputs, "occupancy_limiter:"@ + limiter) {
            Err(reason) => Err(reason),
            Ok(output) => Ok(
                Some(
                    OutputView {
                        severity: severity(!metric::at_least(value, 30)),
                        title: "Low Occupancy (Limited by "@ + metric::titled(limiter) + ")"@,
                        summary: "Warp occupancy at "@ + value.tenths + "% - limited by "@ + limiter,
                        metrics_observed: occupancy_observed(metrics, readings),
                        recommendations: if limiter == "registers"@ {
                            output.recommendations.update(
                                0,
                                "Current register usage: "@ + metric::number_of(
                                    metrics,
                                    "launch__registers_per_thread"@,
                                    32,
                                    readings,
                                ).units + " per thread (target: <64)"@,
                            )
                        } else {
                            output.recommendations
                        },
                        ..output
                    },
                ),
            ),
        }
    }
}

/// Whether the recommendations that are filled in have their places.
pub open spec fn complete(outputs: OutputsView) -> bool {
    &&& output::entry(outputs, "occupancy_limiter:registers"@, 0) matches Some(output)
        ==> output.recommendations.len() >= 1
    &&& output::entry(outputs, "wgmma_instruction_detector:wgmma"@, 0) matches Some(output)
        ==> output.recommendations.len() >= 2
}

/// Whether the recommendations that are filled in have their places.
pub fn is_complete(outputs: &Outputs) -> (found: bool)
    ensures
        found == complete(outputs@),
{
    let registers = match outputs.base("occupancy_limiter:registers") {
        Ok(output) => output.recommendations.len() >= 1,
        Err(_) => true,
    };
    let wgmma = match outputs.base("wgmma_instruction_detector:wgmma") {
        Ok(output) => output.recommendations.len() >= 2,
        Err(_) => true,
    };
    registers && wgmma
}

fn look_at_occupancy(outputs: &Outputs, metrics: &Json, readings: &Readings) -> (result: Result<
    Option<Output>,
    String,
>)
    requires
        complete(outputs@),
    ensures
        found_view(result) == occupancy(outputs@, metrics@, readings@),
{
    let value = number(
        metrics,
        "sm__warps_active.avg.pct_of_peak_sustained_active",
        100,
        readings,
    );
    if reaches(&value, 50) {
        return Ok(None);
    }
    let limiter = find_limiter(metrics, readings);
    let mut output = match outputs.base("occupancy_limiter:".to_owned().concat(limiter).as_str()) {
        Err(error) => {
            return Err(error);
        },
        Ok(output) => output,
    };
    let ghost before = output@;
    output.severity = severity_text(!reaches(&value, 30));
    output.title = "Low Occupancy (Limited by ".to_owned().concat(title(limiter).as_str()).concat(
        ")",
    );
    output.summary = "Warp occupancy at ".to_owned().concat(value.tenths.as_str()).concat(
        "% - limited by ",
    ).concat(limiter);
    output.metrics_observed = observe_occupancy(metrics, readings);
    if same(limiter, "registers") {
        proof {
            assert("occupancy_limiter:"@ + "registers"@ =~= "occupancy_limiter:registers"@) by {
                reveal_strlit("occupancy_limiter:");
                reveal_strlit("registers");
                reveal_strlit("occupancy_limiter:registers");
            }
        }
        let used = number(metrics, "launch__registers_per_thread", 32, readings);
        output.recommendations[0] =
        "Current register usage: ".to_owned().concat(used.units.as_str()).concat(
            " per thread (target: <64)",
        );
        assert(output@.recommendations =~= occupancy(
            outputs@,
            metrics@,
            readings@,
        )->Ok_0->Some_0.recommendations);
    }
    Ok(Some(output))
}

/// The reasons for stalls, in the order in which they are compared.
pub open spec fn reason(index: int) -> Seq<char> {
    if index == 0 {
        "memory_dependency"@
    } else if index == 1 {
        "short_scoreboard"@
    } else if index == 2 {
        "long_scoreboard"@
    } else if index == 3 {
        "barrier"@
    } else {
        "branch_resolving"@
    }
}

/// How the stalls for a reason are called.
pub open spec fn label(index: int) -> Seq<char> {
    if index == 0 {
        "Memory dependency stalls"@
    } else if index == 1 {
        "Short scoreboard stalls"@
    } else if index == 2 {
        "Long scoreboard stalls"@
    } else if index == 3 {
        "Barrier stalls"@
    } else {
        "Branch resolving stalls"@
    }
}

fn reason_text(index: usize) -> (text: &'static str)
    ensures
        text@ == reason(index as int),
{
    if index == 0 {
        "memory_dependency"
    } else if index == 1 {
        "short_scoreboard"
    } else if index == 2 {
        "long_scoreboard"
    } else if index == 3 {
        "barrier"
    } else {
        "branch_resolving"
    }
}

fn label_text(index: usize) -> (text: &'static str)
    ensures
        text@ == label(index as int),
{
    if index == 0 {
        "Memory dependency stalls"
    } else if index == 1 {
        "Short scoreboard stalls"
    } else if index == 2 {
        "Long scoreboard stalls"
    } else if index == 3 {
        "Barrier stalls"
    } else {
        "Branch resolving stalls"
    }
}

/// The share of warps that are stalled for a reason.
pub open spec fn stall(metrics: JsonView, readings: ReadingsView, index: int) -> ReadingView {
    metric::number_of(
        metrics,
        "smsp__warp_issue_stalled_"@ + reason(index) + "_per_warp_active.pct"@,
        0,
        readings,
    )
}

/// The first of the first `end` reasons with the highest share.
pub open spec fn dominant(metrics: JsonView, readings: ReadingsView, end: int) -> int
    decreases end,
{
    if end <= 1 {
        0
    } else {
        let before = dominant(metrics, readings, end - 1);
        if stall(metrics, readings, end - 1).place() > stall(metrics, readings, before).place() {
            end - 1
        } else {
            before
        }
    }
}

/// The metrics that stalls are told with.
pub open spec fn stalls_observed(metrics: JsonView, readings: ReadingsView) -> Seq<FieldView> {
    Seq::new(
        5,
        |i: int| (label(i), JsonView::Text(percent(stall(metrics, readings, i)))),
    ).push(("Dominant stall"@, JsonView::Text(reason(dominant(metrics, readings, 5)))))
}

/// Too many stalled warps.
pub open spec fn stalls(outputs: OutputsView, metrics: JsonView, readings: ReadingsView) -> Found {
    let index = dominant(metrics, readings, 5);
    let value = stall(metrics, readings, index);
    if !metric::at_least(value, 40) {
        Ok(None)
    } else {
        match output::base(outputs, "warp_stall_analyzer:"@ + reason(index)) {
            Err(reason) => Err(reason),
            Ok(output) => Ok(
                Some(
                    OutputView {
                        severity: severity(metric::at_least(value, 60)),
                        title: "High Warp Stalls ("@ + metric::titled(reason(index)) + ")"@,
                        summary: value.tenths + "% of warps stalled on "@ + reason(index),
                        metrics_observed: stalls_observed(metrics, readings),
                        ..output
                    },
                ),
            ),
        }
    }
}

fn stall_share(metrics: &Json, readings: &Readings, index: usize) -> (reading: Reading)
    ensures
        reading@ == stall(metrics@, readings@, index as int),
{
    number(
        metrics,
        "smsp__warp_issue_stalled_".to_owned().concat(reason_text(index)).concat(
            "_per_warp_active.pct",
        ).as_str(),
        0,
        readings,
    )
}

fn look_at_stalls(outputs: &Outputs, metrics: &Json, readings: &Readings) -> (result: Result<
    Option<Output>,
    String,
>)
    ensures
        found_view(result) == stalls(outputs@, metrics@, readings@),
{
    let mut best: usize = 0;
    let mut index: usize = 1;
    let mut list = Fields::new();
    while index < 5
        invariant
            1 <= index <= 5,
            best < 5,
            best == dominant(metrics@, readings@, index as int),
        decreases 5 - index,
    {
        if stall_share(metrics, readings, index).place() > stall_share(
            metrics,
            readings,
            best,
        ).place() {
            best = index;
        }
        index += 1;
    }
    let value = stall_share(metrics, readings, best);
    if !reaches(&value, 40) {
        return Ok(None);
    }
    let mut output = match outputs.base(
        "warp_stall_analyzer:".to_owned().concat(reason_text(best)).as_str(),
    ) {
        Err(error) => {
            return Err(error);
        },
        Ok(output) => output,
    };
    output.severity = severity_text(reaches(&value, 60));
    output.title = "High Warp Stalls (".to_owned().concat(
        title(reason_text(best)).as_str(),
    ).concat(")");
    output.summary = value.tenths.clone().concat("% of warps stalled on ").concat(reason_text(best));
    let ghost wanted = stalls_observed(metrics@, readings@);
    index = 0;
    while index < 5
        invariant
            index <= 5,
            wanted == stalls_observed(metrics@, readings@),
            list@ == wanted.take(index as int),
        decreases 5 - index,
    {
        list.push(
            label_text(index),
            Json::Text(percent_text(&stall_share(metrics, readings, index))),
        );
        index += 1;
        assert(list@ =~= wanted.take(index as int));
    }
    list.push("Dominant stall", fields::text(reason_text(best)));
    assert(list@ =~= wanted);
    output.metrics_observed = list;
    Ok(Some(output))
}

/// What a tool that looks at numbers finds.
pub open spec fn analysis(
    name: Seq<char>,
    outputs: OutputsView,
    metrics: JsonView,
    readings: ReadingsView,
) -> Found {
    if name == "occupancy_limiter"@ {
        occupancy(outputs, metrics, readings)
    } else if name == "warp_stall_analyzer"@ {
        stalls(outputs, metrics, readings)
    } else {
        match output::base(outputs, name) {
            Err(reason) => Err(reason),
            Ok(output) => if name == "tensor_core_underutilization"@ {
                Ok(tensor_use(output, metrics, readings))
            } else if name == "memory_coalescing"@ {
                Ok(coalescing(output, metrics, readings))
            } else if name == "high_dram_throughput"@ {
                Ok(dram(output, metrics, readings))
            } else if name == "high_register_usage"@ {
                Ok(registers(output, metrics, readings))
            } else if name == "barrier_stall_detector"@ {
                Ok(barriers(output, metrics, readings))
            } else {
                Err("unsupported analyzer "@ + name)
            },
        }
    }
}

/// Looks at a kernel's metrics with the tool of a name.
pub fn analyze(name: &str, outputs: &Outputs, metrics: &Json, readings: &Readings) -> (result: Result<
    Option<Output>,
    String,
>)
    requires
        complete(outputs@),
    ensures
        found_view(result) == analysis(name@, outputs@, metrics@, readings@),
{
    if same(name, "occupancy_limiter") {
        return look_at_occupancy(outputs, metrics, readings);
    }
    if same(name, "warp_stall_analyzer") {
        return look_at_stalls(outputs, metrics, readings);
    }
    let output = match outputs.base(name) {
        Err(error) => {
            return Err(error);
        },
        Ok(output) => output,
    };
    if same(name, "tensor_core_underutilization") {
        Ok(look_at_tensor_use(output, metrics, readings))
    } else if same(name, "memory_coalescing") {
        Ok(look_at_coalescing(output, metrics, readings))
    } else if same(name, "high_dram_throughput") {
        Ok(look_at_dram(output, metrics, readings))
    } else if same(name, "high_register_usage") {
        Ok(look_at_registers(output, metrics, readings))
    } else if same(name, "barrier_stall_detector") {
        Ok(look_at_barriers(output, metrics, readings))
    } else {
        Err("unsupported analyzer ".to_owned().concat(name))
    }
}

} // verus!
