//! What holds of what the tools find.
use crate::analyzers::invoke;
use crate::analyzers::metric;
use crate::analyzers::numeric;
use crate::analyzers::output;
use crate::analyzers::output::{OutputView, OutputsView};
use crate::analyzers::sass;
use crate::analyzers::sass::{ShareView, SharesView};
use crate::analyzers::tool;
use crate::analyzers::tool::ToolView;
use crate::fields;
use crate::json;
use crate::json::{FieldView, JsonView};
use crate::number;
use crate::number::{NumberView, ReadingView, ReadingsView};
use crate::numeral;
use crate::ranking;
use crate::written;
use vstd::prelude::*;

verus! {

/// Whether a number is at least a whole number.
pub open spec fn attains(reading: ReadingView, limit: nat) -> bool {
    reading.value.rank >= number::rank_of_integer(limit as int)
}

/// Whether a number is more than a whole number.
pub open spec fn passes(reading: ReadingView, limit: nat) -> bool {
    reading.value.rank > number::rank_of_integer(limit as int)
}

/// The shares of warps that are stalled, by reason.
pub open spec fn shares(metrics: JsonView, readings: ReadingsView) -> Seq<ReadingView> {
    seq![
        metric::number_of(
            metrics,
            "smsp__warp_issue_stalled_memory_dependency_per_warp_active.pct"@,
            0,
            readings,
        ),
        metric::number_of(
            metrics,
            "smsp__warp_issue_stalled_short_scoreboard_per_warp_active.pct"@,
            0,
            readings,
        ),
        metric::number_of(
            metrics,
            "smsp__warp_issue_stalled_long_scoreboard_per_warp_active.pct"@,
            0,
            readings,
        ),
        metric::number_of(
            metrics,
            "smsp__warp_issue_stalled_barrier_per_warp_active.pct"@,
            0,
            readings,
        ),
        metric::number_of(
            metrics,
            "smsp__warp_issue_stalled_branch_resolving_per_warp_active.pct"@,
            0,
            readings,
        ),
    ]
}

/// The names of the reasons for which warps are stalled.
pub open spec fn reasons() -> Seq<Seq<char>> {
    seq![
        "memory_dependency"@,
        "short_scoreboard"@,
        "long_scoreboard"@,
        "barrier"@,
        "branch_resolving"@,
    ]
}

/// Whether a share is the highest of all and none before it is as high.
pub open spec fn leads(shares: Seq<ReadingView>, index: int) -> bool {
    &&& 0 <= index < shares.len()
    &&& forall|i: int|
        0 <= i < shares.len() ==> (#[trigger] shares[i]).value.rank <= shares[index].value.rank
    &&& forall|i: int| 0 <= i < index ==> (#[trigger] shares[i]).place() < shares[index].place()
}

proof fn lemma_shares(metrics: JsonView, readings: ReadingsView)
    ensures
        forall|i: int|
            0 <= i < 5 ==> #[trigger] numeric::stall(metrics, readings, i) == shares(
                metrics,
                readings,
            )[i] && numeric::reason(i) == reasons()[i],
{
    reveal_strlit("smsp__warp_issue_stalled_");
    reveal_strlit("_per_warp_active.pct");
    reveal_strlit("memory_dependency");
    reveal_strlit("short_scoreboard");
    reveal_strlit("long_scoreboard");
    reveal_strlit("barrier");
    reveal_strlit("branch_resolving");
    reveal_strlit("smsp__warp_issue_stalled_memory_dependency_per_warp_active.pct");
    reveal_strlit("smsp__warp_issue_stalled_short_scoreboard_per_warp_active.pct");
    reveal_strlit("smsp__warp_issue_stalled_long_scoreboard_per_warp_active.pct");
    reveal_strlit("smsp__warp_issue_stalled_barrier_per_warp_active.pct");
    reveal_strlit("smsp__warp_issue_stalled_branch_resolving_per_warp_active.pct");
    assert("smsp__warp_issue_stalled_"@ + "memory_dependency"@ + "_per_warp_active.pct"@
        =~= "smsp__warp_issue_stalled_memory_dependency_per_warp_active.pct"@);
    assert("smsp__warp_issue_stalled_"@ + "short_scoreboard"@ + "_per_warp_active.pct"@
        =~= "smsp__warp_issue_stalled_short_scoreboard_per_warp_active.pct"@);
    assert("smsp__warp_issue_stalled_"@ + "long_scoreboard"@ + "_per_warp_active.pct"@
        =~= "smsp__warp_issue_stalled_long_scoreboard_per_warp_active.pct"@);
    assert("smsp__warp_issue_stalled_"@ + "barrier"@ + "_per_warp_active.pct"@
        =~= "smsp__warp_issue_stalled_barrier_per_warp_active.pct"@);
    assert("smsp__warp_issue_stalled_"@ + "branch_resolving"@ + "_per_warp_active.pct"@
        =~= "smsp__warp_issue_stalled_branch_resolving_per_warp_active.pct"@);
}

proof fn lemma_dominant(metrics: JsonView, readings: ReadingsView, end: int)
    requires
        1 <= end <= 5,
    ensures
        ({
            let index = numeric::dominant(metrics, readings, end);
            let all = shares(metrics, readings);
            &&& 0 <= index < end
            &&& forall|i: int| 0 <= i < end ==> (#[trigger] all[i]).place() <= all[index].place()
            &&& forall|i: int| 0 <= i < index ==> (#[trigger] all[i]).place() < all[index].place()
        }),
    decreases end,
{
    lemma_shares(metrics, readings);
    if end > 1 {
        lemma_dominant(metrics, readings, end - 1);
        assert(numeric::stall(metrics, readings, end - 1) == shares(metrics, readings)[end - 1]);
        let before = numeric::dominant(metrics, readings, end - 1);
        assert(numeric::stall(metrics, readings, before) == shares(metrics, readings)[before]);
    }
}

/// The reason that the stalled warps are told by has the highest share of the five, the first of
/// those that share it; so something is found exactly if some share is at least 40, and it is
/// severe exactly if some share is at least 60.
pub proof fn stalls_are_told_by_the_highest_share(
    outputs: OutputsView,
    metrics: JsonView,
    readings: ReadingsView,
) -> (index: int)
    ensures
        leads(shares(metrics, readings), index),
        ({
            let found = numeric::stalls(outputs, metrics, readings);
            let all = shares(metrics, readings);
            let name = reasons()[index];
            let some = exists|i: int| 0 <= i < 5 && attains(#[trigger] all[i], 40);
            &&& found == Ok::<Option<OutputView>, Seq<char>>(None) <==> !some
            &&& some ==> match (found, output::base(outputs, "warp_stall_analyzer:"@ + name)) {
                (Ok(Some(told)), Ok(base)) => {
                    &&& told.severity == (if exists|i: int|
                        0 <= i < 5 && attains(#[trigger] all[i], 60) {
                        "high"@
                    } else {
                        "medium"@
                    })
                    &&& told.title == "High Warp Stalls ("@ + metric::titled(name) + ")"@
                    &&& told.summary == all[index].tenths + "% of warps stalled on "@ + name
                    &&& told.metrics_observed.len() == 6
                    &&& told.metrics_observed[0] == (
                        "Memory dependency stalls"@,
                        JsonView::Text(all[0].tenths + "%"@),
                    )
                    &&& told.metrics_observed[1] == (
                        "Short scoreboard stalls"@,
                        JsonView::Text(all[1].tenths + "%"@),
                    )
                    &&& told.metrics_observed[2] == (
                        "Long scoreboard stalls"@,
                        JsonView::Text(all[2].tenths + "%"@),
                    )
                    &&& told.metrics_observed[3] == (
                        "Barrier stalls"@,
                        JsonView::Text(all[3].tenths + "%"@),
                    )
                    &&& told.metrics_observed[4] == (
                        "Branch resolving stalls"@,
                        JsonView::Text(all[4].tenths + "%"@),
                    )
                    &&& told.metrics_observed[5] == ("Dominant stall"@, JsonView::Text(name))
                    &&& keeps(told, base)
                },
                (Err(error), Err(reason)) => error == reason,
                _ => false,
            }
        }),
{
    let index = numeric::dominant(metrics, readings, 5);
    let all = shares(metrics, readings);
    lemma_shares(metrics, readings);
    lemma_dominant(metrics, readings, 5);
    assert forall|i: int| 0 <= i < 5 implies (#[trigger] all[i]).value.rank
        <= all[index].value.rank by {
        assert(all[i].place() <= all[index].place());
    }
    assert(numeric::stall(metrics, readings, index) == all[index]);
    assert(forall|i: int|
        0 <= i < 5 ==> #[trigger] numeric::stall(metrics, readings, i) == all[i]);
    let ghost observed = numeric::stalls_observed(metrics, readings);
    assert(numeric::stall(metrics, readings, 0) == all[0]);
    assert(numeric::stall(metrics, readings, 1) == all[1]);
    assert(numeric::stall(metrics, readings, 2) == all[2]);
    assert(numeric::stall(metrics, readings, 3) == all[3]);
    assert(numeric::stall(metrics, readings, 4) == all[4]);
    if attains(all[index], 40) {
        assert(exists|i: int| 0 <= i < 5 && attains(#[trigger] all[i], 40));
    }
    if attains(all[index], 60) {
        assert(exists|i: int| 0 <= i < 5 && attains(#[trigger] all[i], 60));
    }
    index
}

/// Whether what a tool tells keeps what is known of the case beforehand, but for its
/// recommendations.
pub open spec fn keeps(told: OutputView, base: OutputView) -> bool {
    &&& told.metrics_thresholds == base.metrics_thresholds
    &&& told.root_cause == base.root_cause
    &&& told.recommendations == base.recommendations
    &&& told.expected_improvement == base.expected_improvement
    &&& told.code_example == base.code_example
    &&& told.references == base.references
}

/// Tensor cores are too little used exactly below 10 percent, and where nothing is measured they
/// are not.
pub proof fn idle_tensor_cores_are_found(output: OutputView, metrics: JsonView, readings: ReadingsView)
    ensures
        ({
            let value = metric::number_of(
                metrics,
                "sm__inst_executed_pipe_tensor.avg.pct_of_peak_sustained_active"@,
                100,
                readings,
            );
            match numeric::tensor_use(output, metrics, readings) {
                None => attains(value, 10),
                Some(told) => {
                    &&& !attains(value, 10)
                    &&& told.summary == "Only "@ + value.tenths
                        + "% tensor core utilization (essentially not using Tensor Cores)"@
                    &&& told.metrics_observed == seq![
                        ("tensor_core_utilization"@, JsonView::Text(value.tenths + "%"@)),
                    ]
                    &&& told.severity == output.severity && told.title == output.title
                    &&& keeps(told, output)
                },
            }
        }),
{
}

/// Accesses are badly coalesced exactly if the first cache is hit less than 70 percent of the time
/// and more than 20 percent of the warps wait for memory; it is severe exactly if that is less than
/// 30 and more than 40 percent.
pub proof fn scattered_accesses_are_found(output: OutputView, metrics: JsonView, readings: ReadingsView)
    ensures
        ({
            let first = metric::number_of(
                metrics,
                "l1tex__t_sector_hit_rate.pct"@,
                100,
                readings,
            );
            let second = metric::number_of(metrics, "lts__t_sector_hit_rate.pct"@, 100, readings);
            let waiting = metric::number_of(
                metrics,
                "smsp__warp_issue_stalled_memory_dependency_per_warp_active.pct"@,
                0,
                readings,
            );
            let severe = !attains(first, 30) && passes(waiting, 40);
            let found = severe || (!attains(first, 70) && passes(waiting, 20));
            match numeric::coalescing(output, metrics, readings) {
                None => !found,
                Some(told) => {
                    &&& found
                    &&& told.severity == (if severe {
                        "high"@
                    } else {
                        "medium"@
                    })
                    &&& told.summary == "L1 hit rate: "@ + first.tenths
                        + "% (target: >70.0%), memory stalls: "@ + waiting.tenths + "%"@
                    &&& told.metrics_observed == seq![
                        ("L1 cache hit rate"@, JsonView::Text(first.tenths + "%"@)),
                        ("L2 cache hit rate"@, JsonView::Text(second.tenths + "%"@)),
                        ("Memory dependency stalls"@, JsonView::Text(waiting.tenths + "%"@)),
                    ]
                    &&& told.title == output.title
                    &&& keeps(told, output)
                },
            }
        }),
{
}

/// A memory is nearly saturated exactly if its throughput is at least 80 percent of the peak, and
/// severely from 95 percent on; a throughput of zero gives way to that of the whole device.
pub proof fn busy_memories_are_found(output: OutputView, metrics: JsonView, readings: ReadingsView)
    ensures
        ({
            let own = metric::number_of(
                metrics,
                "dram__throughput.avg.pct_of_peak_sustained_elapsed"@,
                0,
                readings,
            );
            let whole = metric::number_of(
                metrics,
                "gpu__dram_throughput.avg.pct_of_peak_sustained_elapsed"@,
                0,
                readings,
            );
            let value = if own.value.rank == 0 {
                whole
            } else {
                own
            };
            match numeric::dram(output, metrics, readings) {
                None => !attains(value, 80),
                Some(told) => {
                    &&& attains(value, 80)
                    &&& attains(value, 95) ==> told.severity == "high"@ && told.title
                        == "Memory-Bound Kernel"@ + " (Saturated)"@
                    &&& !attains(value, 95) ==> told.severity == "medium"@ && told.title
                        == "Memory-Bound Kernel"@ + ""@
                    &&& told.summary == "DRAM throughput at "@ + value.tenths
                        + "% of peak - kernel is memory-bound"@
                    &&& told.metrics_observed == seq![
                        ("DRAM throughput"@, JsonView::Text(value.tenths + "% of peak"@)),
                    ]
                    &&& keeps(told, output)
                },
            }
        }),
{
}

/// A thread uses too many registers exactly from 96 on, and severely from 128 on; where nothing is
/// measured it does not.
pub proof fn crowded_registers_are_found(output: OutputView, metrics: JsonView, readings: ReadingsView)
    ensures
        ({
            let value = metric::number_of(metrics, "launch__registers_per_thread"@, 32, readings);
            match numeric::registers(output, metrics, readings) {
                None => !attains(value, 96),
                Some(told) => {
                    &&& attains(value, 96)
                    &&& attains(value, 128) ==> told.severity == "high"@ && told.title
                        == "High Register Usage"@ + " (Likely Spilling)"@
                    &&& !attains(value, 128) ==> told.severity == "medium"@ && told.title
                        == "High Register Usage"@ + ""@
                    &&& told.summary == value.units
                        + " registers per thread - may cause register spilling"@
                    &&& told.metrics_observed == seq![
                        ("Registers per thread"@, JsonView::Text(value.units)),
                    ]
                    &&& keeps(told, output)
                },
            }
        }),
{
}

/// Warps wait too much at barriers exactly if at least 30 percent of them do.
pub proof fn long_barriers_are_found(output: OutputView, metrics: JsonView, readings: ReadingsView)
    ensures
        ({
            let value = metric::number_of(
                metrics,
                "smsp__warp_issue_stalled_barrier_per_warp_active.pct"@,
                0,
                readings,
            );
            match numeric::barriers(output, metrics, readings) {
                None => !attains(value, 30),
                Some(told) => {
                    &&& attains(value, 30)
                    &&& told.summary == value.tenths + "% of warps stalled at __syncthreads()"@
                    &&& told.metrics_observed == seq![
                        ("Barrier stalls"@, JsonView::Text(value.tenths + "%"@)),
                    ]
                    &&& told.severity == output.severity && told.title == output.title
                    &&& keeps(told, output)
                },
            }
        }),
{
}

/// The limits of how many warps can be active.
pub open spec fn limits(metrics: JsonView, readings: ReadingsView) -> Seq<ReadingView> {
    seq![
        metric::number_of(metrics, "launch__occupancy_limit_registers"@, 100, readings),
        metric::number_of(metrics, "launch__occupancy_limit_shared_mem"@, 100, readings),
        metric::number_of(metrics, "launch__occupancy_limit_blocks"@, 100, readings),
    ]
}

/// How a limit is shown: in percent, a hundred where it is not known.
pub open spec fn limit_shown(metrics: JsonView, key: Seq<char>, readings: ReadingsView) -> JsonView {
    JsonView::Text(
        written::shown(metric::metric_of(metrics, key, fields::natural_view(100), readings)) + "%"@,
    )
}

/// What the limits come from.
pub open spec fn limiters() -> Seq<Seq<char>> {
    seq!["registers"@, "shared_memory"@, "block_count"@]
}

/// Too few warps are active exactly below 50 percent, and severely below 30 percent; what limits
/// them has the lowest limit of the three, and of those that share it the first.
pub proof fn low_occupancy_is_told_by_the_lowest_limit(
    outputs: OutputsView,
    metrics: JsonView,
    readings: ReadingsView,
) -> (index: int)
    ensures
        0 <= index < 3,
        forall|i: int|
            0 <= i < 3 ==> limits(metrics, readings)[index].value.rank <= (#[trigger] limits(
                metrics,
                readings,
            )[i]).value.rank,
        forall|i: int|
            0 <= i < index ==> limits(metrics, readings)[index].place() < (#[trigger] limits(
                metrics,
                readings,
            )[i]).place(),
        ({
            let value = metric::number_of(
                metrics,
                "sm__warps_active.avg.pct_of_peak_sustained_active"@,
                100,
                readings,
            );
            let used = metric::number_of(metrics, "launch__registers_per_thread"@, 32, readings);
            let name = limiters()[index];
            let found = numeric::occupancy(outputs, metrics, readings);
            &&& found == Ok::<Option<OutputView>, Seq<char>>(None) <==> attains(value, 50)
            &&& !attains(value, 50) ==> match (
                found,
                output::base(outputs, "occupancy_limiter:"@ + name),
            ) {
                (Ok(Some(told)), Ok(base)) => {
                    &&& told.severity == (if attains(value, 30) {
                        "medium"@
                    } else {
                        "high"@
                    })
                    &&& told.title == "Low Occupancy (Limited by "@ + metric::titled(name) + ")"@
                    &&& told.summary == "Warp occupancy at "@ + value.tenths + "% - limited by "@
                        + name
                    &&& told.metrics_observed[0] == (
                        "Warp occupancy"@,
                        JsonView::Text(value.tenths + "%"@),
                    )
                    &&& told.metrics_observed[1] == (
                        "Registers per thread"@,
                        JsonView::Text(
                            written::shown(
                                metric::metric_of(
                                    metrics,
                                    "launch__registers_per_thread"@,
                                    fields::natural_view(32),
                                    readings,
                                ),
                            ),
                        ),
                    )
                    &&& told.metrics_observed[2] == (
                        "Occupancy limit (registers)"@,
                        limit_shown(metrics, "launch__occupancy_limit_registers"@, readings),
                    )
                    &&& told.metrics_observed[3] == (
                        "Occupancy limit (shared mem)"@,
                        limit_shown(metrics, "launch__occupancy_limit_shared_mem"@, readings),
                    )
                    &&& told.metrics_observed[4] == (
                        "Occupancy limit (blocks)"@,
                        limit_shown(metrics, "launch__occupancy_limit_blocks"@, readings),
                    )
                    &&& told.recommendations == (if name == "registers"@ {
                        base.recommendations.update(
                            0,
                            "Current register usage: "@ + used.units + " per thread (target: <64)"@,
                        )
                    } else {
                        base.recommendations
                    })
                    &&& told.metrics_thresholds == base.metrics_thresholds
                    &&& told.root_cause == base.root_cause
                    &&& told.expected_improvement == base.expected_improvement
                    &&& told.code_example == base.code_example
                    &&& told.references == base.references
                },
                (Err(error), Err(reason)) => error == reason,
                _ => false,
            }
        }),
{
    let all = limits(metrics, readings);
    assert(all[0].place() == all[0].place() && all[1].place() == all[1].place() && all[2].place()
        == all[2].place());
    if all[0].place() <= all[1].place() && all[0].place() <= all[2].place() {
        0
    } else if all[1].place() <= all[2].place() {
        1
    } else {
        2
    }
}

/// A metric that is a number is that number, a truth value counts as one or zero, and where there
/// is none the default stands in.
pub proof fn metrics_are_numbers(metrics: JsonView, key: Seq<char>, default: nat, readings: ReadingsView)
    ensures
        ({
            let value = metric::number_of(metrics, key, default, readings);
            match metrics.get(key) {
                Some(JsonView::Number(NumberView::Decimal(reading))) => value == reading,
                Some(JsonView::Number(NumberView::Integer(_, Some(reading)))) => value == reading,
                Some(JsonView::Bool(true)) => value == number::integer_reading(1),
                Some(JsonView::Bool(false)) => value == number::integer_reading(0),
                Some(JsonView::Text(_)) => true,
                _ => value == number::integer_reading(default),
            }
        }),
{
}

proof fn lemma_entry(outputs: OutputsView, key: Seq<char>, from: int)
    requires
        0 <= from,
    ensures
        match output::entry(outputs, key, from) {
            Some(output) => exists|i: int|
                from <= i < outputs.len() && #[trigger] outputs[i] == (key, output) && forall|j: int|
                    from <= j < i ==> (#[trigger] outputs[j]).0 != key,
            None => forall|i: int| from <= i < outputs.len() ==> (#[trigger] outputs[i]).0 != key,
        },
    decreases outputs.len() - from,
{
    if from < outputs.len() {
        if outputs[from].0 == key {
            assert(outputs[from] == (key, outputs[from].1));
        } else {
            lemma_entry(outputs, key, from + 1);
            if let Some(output) = output::entry(outputs, key, from + 1) {
                let i = choose|i: int|
                    from + 1 <= i < outputs.len() && #[trigger] outputs[i] == (key, output)
                        && forall|j: int| from + 1 <= j < i ==> (#[trigger] outputs[j]).0 != key;
                assert(outputs[i] == (key, output));
            }
        }
    }
}

/// What is said in a case is the first entry for it; without an entry nothing is.
pub proof fn cases_are_looked_up(outputs: OutputsView, key: Seq<char>)
    ensures
        match output::base(outputs, key) {
            Ok(output) => exists|i: int|
                0 <= i < outputs.len() && #[trigger] outputs[i] == (key, output) && forall|j: int|
                    0 <= j < i ==> (#[trigger] outputs[j]).0 != key,
            Err(reason) => {
                &&& forall|i: int| 0 <= i < outputs.len() ==> (#[trigger] outputs[i]).0 != key
                &&& reason == "invalid type: null, expected struct Output"@
            },
        },
{
    lemma_entry(outputs, key, 0);
}

/// Each tool that looks at numbers is reached by its name.
pub proof fn tools_are_reached_by_name(
    outputs: OutputsView,
    metrics: JsonView,
    readings: ReadingsView,
    name: Seq<char>,
)
    ensures
        numeric::analysis("occupancy_limiter"@, outputs, metrics, readings) == numeric::occupancy(
            outputs,
            metrics,
            readings,
        ),
        numeric::analysis("warp_stall_analyzer"@, outputs, metrics, readings) == numeric::stalls(
            outputs,
            metrics,
            readings,
        ),
        output::base(outputs, "tensor_core_underutilization"@) matches Ok(base)
            ==> numeric::analysis("tensor_core_underutilization"@, outputs, metrics, readings) == Ok::<
            Option<OutputView>,
            Seq<char>,
        >(numeric::tensor_use(base, metrics, readings)),
        output::base(outputs, "memory_coalescing"@) matches Ok(base) ==> numeric::analysis(
            "memory_coalescing"@,
            outputs,
            metrics,
            readings,
        ) == Ok::<Option<OutputView>, Seq<char>>(numeric::coalescing(base, metrics, readings)),
        output::base(outputs, "high_dram_throughput"@) matches Ok(base) ==> numeric::analysis(
            "high_dram_throughput"@,
            outputs,
            metrics,
            readings,
        ) == Ok::<Option<OutputView>, Seq<char>>(numeric::dram(base, metrics, readings)),
        output::base(outputs, "high_register_usage"@) matches Ok(base) ==> numeric::analysis(
            "high_register_usage"@,
            outputs,
            metrics,
            readings,
        ) == Ok::<Option<OutputView>, Seq<char>>(numeric::registers(base, metrics, readings)),
        output::base(outputs, "barrier_stall_detector"@) matches Ok(base) ==> numeric::analysis(
            "barrier_stall_detector"@,
            outputs,
            metrics,
            readings,
        ) == Ok::<Option<OutputView>, Seq<char>>(numeric::barriers(base, metrics, readings)),
        name != "occupancy_limiter"@ && name != "warp_stall_analyzer"@ && name
            != "tensor_core_underutilization"@ && name != "memory_coalescing"@ && name
            != "high_dram_throughput"@ && name != "high_register_usage"@ && name
            != "barrier_stall_detector"@ && output::base(outputs, name) is Ok ==> numeric::analysis(
            name,
            outputs,
            metrics,
            readings,
        ) == Err::<Option<OutputView>, Seq<char>>("unsupported analyzer "@ + name),
{
    reveal_strlit("occupancy_limiter");
    reveal_strlit("warp_stall_analyzer");
    reveal_strlit("tensor_core_underutilization");
    reveal_strlit("memory_coalescing");
    reveal_strlit("high_dram_throughput");
    reveal_strlit("high_register_usage");
    reveal_strlit("barrier_stall_detector");
    assert("occupancy_limiter"@[0] != "memory_coalescing"@[0]);
    assert("warp_stall_analyzer"@[0] != "high_register_usage"@[0]);
    assert("occupancy_limiter"@.len() == 17);
    assert("warp_stall_analyzer"@.len() == 19);
    assert("tensor_core_underutilization"@.len() == 28);
    assert("memory_coalescing"@.len() == 17);
    assert("high_dram_throughput"@.len() == 20);
    assert("high_register_usage"@.len() == 19);
    assert("barrier_stall_detector"@.len() == 22);
}

/// Whether a tool is for another bottleneck alone: two of them for computing, two for memory.
pub open spec fn is_foreign(name: Seq<char>, bottleneck: Seq<char>) -> bool {
    ||| (name == "tensor_core_underutilization"@ || name == "wgmma_instruction_detector"@)
        && bottleneck != "compute_bound"@
    ||| (name == "memory_coalescing"@ || name == "high_dram_throughput"@) && bottleneck
        != "memory_bound"@
}

proof fn lemma_suited(tools: Seq<ToolView>, bottleneck: Seq<char>, end: int, tool: ToolView)
    requires
        0 <= end <= tools.len(),
    ensures
        tool::suited(tools, bottleneck, end).contains(tool) <==> tools.take(end).contains(tool)
            && !is_foreign(tool.name, bottleneck),
        tool::suited(tools, bottleneck, end).len() <= end,
    decreases end,
{
    reveal_strlit("tensor_core_underutilization");
    reveal_strlit("wgmma_instruction_detector");
    reveal_strlit("memory_coalescing");
    reveal_strlit("high_dram_throughput");
    assert("tensor_core_underutilization"@.len() == 28);
    assert("wgmma_instruction_detector"@.len() == 26);
    assert("memory_coalescing"@.len() == 17);
    assert("high_dram_throughput"@.len() == 20);
    if end > 0 {
        lemma_suited(tools, bottleneck, end - 1, tool);
        let short = tools.take(end - 1);
        let long = tools.take(end);
        let before = tool::suited(tools, bottleneck, end - 1);
        let all = tool::suited(tools, bottleneck, end);
        assert(long[end - 1] == tools[end - 1]);
        if before.contains(tool) {
            let k = choose|k: int| 0 <= k < before.len() && before[k] == tool;
            assert(all[k] == tool);
        }
        if short.contains(tool) {
            let k = choose|k: int| 0 <= k < short.len() && short[k] == tool;
            assert(long[k] == tool);
        }
        if long.contains(tool) && !short.contains(tool) {
            let k = choose|k: int| 0 <= k < long.len() && long[k] == tool;
            if k < end - 1 {
                assert(short[k] == tool);
            }
            if !is_foreign(tool.name, bottleneck) {
                assert(all[before.len() as int] == tool);
            }
        }
        if all.contains(tool) && !before.contains(tool) {
            let k = choose|k: int| 0 <= k < all.len() && all[k] == tool;
            if k < before.len() {
                assert(before[k] == tool);
            }
        }
    }
}

/// A bottleneck of computing or of memory leaves out the tools that are for the other alone; the
/// other bottlenecks that are known leave out none, and one that is not known is refused.
pub proof fn tools_suit_the_bottleneck(tools: Seq<ToolView>, bottleneck: Seq<char>, tool: ToolView)
    ensures
        ({
            let limits = bottleneck == "compute_bound"@ || bottleneck == "memory_bound"@;
            let known = bottleneck == ""@ || bottleneck == "mixed"@ || bottleneck
                == "latency_bound"@ || bottleneck == "occupancy_limited"@ || bottleneck
                == "launch_overhead"@;
            match tool::selection(tools, bottleneck) {
                Ok(Some(chosen)) => {
                    &&& limits
                    &&& chosen.contains(tool) <==> tools.contains(tool) && !is_foreign(
                        tool.name,
                        bottleneck,
                    )
                },
                Ok(None) => known,
                Err(reason) => {
                    &&& !limits && !known
                    &&& reason == "unknown bottleneck: "@ + bottleneck
                },
            }
        }),
{
    lemma_suited(tools, bottleneck, tools.len() as int, tool);
    assert(tools.take(tools.len() as int) =~= tools);
    reveal_strlit("compute_bound");
    reveal_strlit("memory_bound");
    reveal_strlit("mixed");
    reveal_strlit("latency_bound");
    reveal_strlit("occupancy_limited");
    reveal_strlit("launch_overhead");
    assert("compute_bound"@[0] != "latency_bound"@[0]);
    assert("compute_bound"@.len() == 13);
    assert("memory_bound"@.len() == 12);
    assert("mixed"@.len() == 5);
    assert("latency_bound"@.len() == 13);
    assert("occupancy_limited"@.len() == 17);
    assert("launch_overhead"@.len() == 15);
    reveal_strlit("");
}

/// Tools are tried by their priority, the highest first, and in their order where it is the same;
/// all of them are.
pub proof fn tools_go_by_priority(tools: Seq<ToolView>)
    requires
        tools.len() <= usize::MAX,
    ensures
        ({
            let all = tool::by_priority(tools);
            &&& all.len() == tools.len()
            &&& forall|i: int, j: int|
                0 <= i < j < all.len() ==> (#[trigger] all[i]).priority >= (#[trigger] all[j]).priority
            &&& forall|i: int| 0 <= i < all.len() ==> tools.contains(#[trigger] all[i])
            &&& forall|i: int| 0 <= i < tools.len() ==> all.contains(#[trigger] tools[i])
        }),
{
    let keys = tool::priorities(tools);
    let ranks = ranking::ranked(keys, tools.len());
    let all = tool::by_priority(tools);
    ranking::ranking_is_stable(keys, tools.len());
    assert forall|i: int, j: int| 0 <= i < j < all.len() implies (#[trigger] all[i]).priority >= (
    #[trigger] all[j]).priority by {
        assert(keys[ranks[i] as int] >= keys[ranks[j] as int]);
    }
    assert forall|i: int| 0 <= i < all.len() implies tools.contains(#[trigger] all[i]) by {
        assert(all[i] == tools[ranks[i] as int]);
    }
    assert forall|i: int| 0 <= i < tools.len() implies all.contains(#[trigger] tools[i]) by {
        ranking::every_key_is_ranked(keys, tools.len(), i as usize);
        let p = choose|p: int| 0 <= p < ranks.len() && ranks[p] == i;
        assert(all[p] == tools[i]);
    }
}

/// How often a kind of instruction was counted, by the key of its count.
pub open spec fn counted(listing: JsonView, key: Seq<char>) -> nat {
    match listing.at(key).natural() {
        Some(count) => count as nat,
        None => 0,
    }
}

proof fn lemma_count(listing: JsonView, kind: Seq<char>, key: Seq<char>)
    requires
        kind + "_count"@ == key,
    ensures
        sass::count_of(listing, kind) as nat == counted(listing, key),
{
}

proof fn lemma_counts(listing: JsonView)
    ensures
        sass::count_of(listing, "wgmma"@) as nat == counted(listing, "wgmma_count"@),
        sass::count_of(listing, "hmma"@) as nat == counted(listing, "hmma_count"@),
        sass::count_of(listing, "imma"@) as nat == counted(listing, "imma_count"@),
        sass::count_of(listing, "dmma"@) as nat == counted(listing, "dmma_count"@),
        sass::count_of(listing, "bmma"@) as nat == counted(listing, "bmma_count"@),
        sass::count_of(listing, "tma"@) as nat == counted(listing, "tma_count"@),
        sass::count_of(listing, "ffma"@) as nat == counted(listing, "ffma_count"@),
        sass::count_of(listing, "ldg"@) as nat == counted(listing, "ldg_count"@),
        sass::count_of(listing, "stg"@) as nat == counted(listing, "stg_count"@),
{
    reveal_strlit("_count");
    reveal_strlit("wgmma");
    reveal_strlit("wgmma_count");
    assert("wgmma"@ + "_count"@ =~= "wgmma_count"@);
    reveal_strlit("hmma");
    reveal_strlit("hmma_count");
    assert("hmma"@ + "_count"@ =~= "hmma_count"@);
    reveal_strlit("imma");
    reveal_strlit("imma_count");
    assert("imma"@ + "_count"@ =~= "imma_count"@);
    reveal_strlit("dmma");
    reveal_strlit("dmma_count");
    assert("dmma"@ + "_count"@ =~= "dmma_count"@);
    reveal_strlit("bmma");
    reveal_strlit("bmma_count");
    assert("bmma"@ + "_count"@ =~= "bmma_count"@);
    reveal_strlit("tma");
    reveal_strlit("tma_count");
    assert("tma"@ + "_count"@ =~= "tma_count"@);
    reveal_strlit("ffma");
    reveal_strlit("ffma_count");
    assert("ffma"@ + "_count"@ =~= "ffma_count"@);
    reveal_strlit("ldg");
    reveal_strlit("ldg_count");
    assert("ldg"@ + "_count"@ =~= "ldg_count"@);
    reveal_strlit("stg");
    reveal_strlit("stg_count");
    assert("stg"@ + "_count"@ =~= "stg_count"@);
}

/// The kind of tensor instructions that a listing is told by: the first that occurs, from the newest
/// to the smallest numbers, else the library that is linked, else none.
pub open spec fn tensors(listing: JsonView) -> Seq<char> {
    if counted(listing, "wgmma_count"@) > 0 {
        "wgmma"@
    } else if counted(listing, "hmma_count"@) > 0 {
        "hmma"@
    } else if counted(listing, "imma_count"@) > 0 {
        "imma"@
    } else if counted(listing, "dmma_count"@) > 0 {
        "dmma"@
    } else if counted(listing, "bmma_count"@) > 0 {
        "bmma"@
    } else if listing.at("uses_cublas"@) == JsonView::Bool(true) {
        "cublas"@
    } else {
        "none"@
    }
}

/// The tool for tensor instructions says something of every listing with anything in it: by the
/// first kind that occurs and how often it does.
pub proof fn tensor_instructions_are_told(outputs: OutputsView, listing: JsonView)
    ensures
        ({
            let kind = tensors(listing);
            let found = sass::tensor_found(outputs, listing);
            let filled = listing matches JsonView::Object(list) && list.len() > 0;
            &&& !filled ==> found == Ok::<Option<OutputView>, Seq<char>>(None)
            &&& filled ==> match (
                found,
                output::base(outputs, "wgmma_instruction_detector:"@ + kind),
            ) {
                (Ok(Some(told)), Ok(base)) => {
                    let times = |key: Seq<char>| numeral::decimal(counted(listing, key));
                    let number = |key: Seq<char>| fields::natural_view(counted(listing, key));
                    &&& kind == "wgmma"@ ==> told.summary == "Kernel uses "@ + times(
                        "wgmma_count"@,
                    ) + " WGMMA (Hopper tensor core) instructions"@
                    &&& kind == "hmma"@ ==> told.summary == "Kernel uses "@ + times("hmma_count"@)
                        + " HMMA instructions (Ampere-style) instead of WGMMA (Hopper)"@
                    &&& kind == "imma"@ ==> told.summary == "Kernel uses "@ + times("imma_count"@)
                        + " IMMA instructions (INT8/INT4 tensor core ops)"@
                    &&& kind == "dmma"@ ==> told.summary == "Kernel uses "@ + times("dmma_count"@)
                        + " DMMA instructions (FP64 tensor core ops)"@
                    &&& kind == "bmma"@ ==> told.summary == "Kernel uses "@ + times("bmma_count"@)
                        + " BMMA instructions (INT1 binary tensor core ops)"@
                    &&& kind == "none"@ ==> told.summary
                        == "Kernel has 0 tensor core instructions (WGMMA/HMMA/IMMA/DMMA/BMMA) in compiled binary"@
                    &&& kind == "wgmma"@ ==> told.metrics_observed == seq![
                        ("WGMMA count"@, number("wgmma_count"@)),
                        ("HMMA count"@, number("hmma_count"@)),
                        (
                            "Uses TMA"@,
                            JsonView::Text(
                                if counted(listing, "tma_count"@) > 0 {
                                    "Yes"@
                                } else {
                                    "No"@
                                },
                            ),
                        ),
                    ]
                    &&& kind == "hmma"@ ==> told.metrics_observed == seq![
                        ("HMMA count"@, number("hmma_count"@)),
                        ("WGMMA count"@, fields::natural_view(0)),
                    ]
                    &&& kind == "dmma"@ ==> told.metrics_observed == seq![
                        ("DMMA count"@, number("dmma_count"@)),
                    ]
                    &&& kind == "bmma"@ ==> told.metrics_observed == seq![
                        ("BMMA count"@, number("bmma_count"@)),
                    ]
                    &&& kind == "imma"@ ==> told.metrics_observed == seq![
                        ("IMMA count"@, number("imma_count"@)),
                        ("WGMMA count"@, number("wgmma_count"@)),
                        ("HMMA count"@, number("hmma_count"@)),
                    ]
                    &&& kind == "none"@ ==> told.metrics_observed[4] == (
                        "FFMA (FP32 FMA) count"@,
                        number("ffma_count"@),
                    ) && told.metrics_observed[5] == (
                        "LDG/STG count"@,
                        JsonView::Text(times("ldg_count"@) + "/"@ + times("stg_count"@)),
                    )
                    &&& told.recommendations == (if kind == "wgmma"@ && counted(
                        listing,
                        "tma_count"@,
                    ) > 0 {
                        base.recommendations.update(
                            1,
                            "TMA is being used for efficient memory access"@,
                        )
                    } else {
                        base.recommendations
                    })
                    &&& told.severity == base.severity && told.title == base.title
                    &&& told.root_cause == base.root_cause && told.references == base.references
                },
                (Err(error), Err(reason)) => error == reason,
                _ => false,
            }
        }),
{
    lemma_counts(listing);
    reveal_strlit("wgmma");
    reveal_strlit("hmma");
    reveal_strlit("imma");
    reveal_strlit("dmma");
    reveal_strlit("bmma");
    reveal_strlit("cublas");
    reveal_strlit("none");
    assert("hmma"@[0] != "imma"@[0]);
    assert("hmma"@[0] != "dmma"@[0]);
    assert("hmma"@[0] != "bmma"@[0]);
    assert("hmma"@[0] != "none"@[0]);
    assert("imma"@[0] != "dmma"@[0]);
    assert("imma"@[0] != "bmma"@[0]);
    assert("imma"@[0] != "none"@[0]);
    assert("dmma"@[0] != "bmma"@[0]);
    assert("dmma"@[0] != "none"@[0]);
    assert("bmma"@[0] != "none"@[0]);
    assert("wgmma"@.len() == 5);
    assert("hmma"@.len() == 4);
    assert("imma"@.len() == 4);
    assert("dmma"@.len() == 4);
    assert("bmma"@.len() == 4);
    assert("cublas"@.len() == 6);
    assert("none"@.len() == 4);
}

/// Whether the spills of a kernel hurt: its warps wait for memory while neither the arithmetic nor
/// the memory is busy, or a busy memory carries a large local share, or the registers limit the
/// warps and few of them are ready.
pub open spec fn hurts(
    waiting: ReadingView,
    computing: ReadingView,
    memory: ReadingView,
    local: int,
    limit: ReadingView,
    issuing: ReadingView,
    ready: ReadingView,
) -> bool {
    ||| passes(waiting, 15) && !attains(computing, 50) && !attains(memory, 50)
    ||| passes(memory, 60) && 0x3fd3_3333_3333_3333 < local <= 0x7ff0_0000_0000_0000
    ||| !attains(limit, 1) && (!attains(issuing, 30) || ready.value.rank < 0x3fe3_3333_3333_3333)
}

/// A metric that tells whether spills hurt: its number, the default where it is not there.
pub open spec fn tells(metrics: JsonView, key: Seq<char>, default: nat) -> Option<ReadingView> {
    match metrics.get(key) {
        None => Some(number::integer_reading(default)),
        Some(value) => value.reading(),
    }
}

/// Spilled registers are found exactly if instructions that spill occur and the metrics say that
/// they hurt; a metric that is no number is refused.
pub proof fn spills_are_found_where_they_hurt(
    outputs: OutputsView,
    metrics: JsonView,
    listing: JsonView,
    share: ShareView,
)
    ensures
        ({
            let filled = listing matches JsonView::Object(list) && list.len() > 0;
            let stored = counted(listing, "stl_count"@);
            let loaded = counted(listing, "ldl_count"@);
            let spills = filled && (stored > 0 || loaded > 0);
            let waiting = tells(
                metrics,
                "smsp__warp_issue_stalled_long_scoreboard_per_warp_active.pct"@,
                0,
            );
            let computing = tells(
                metrics,
                "sm__throughput.avg.pct_of_peak_sustained_elapsed"@,
                0,
            );
            let memory = tells(
                metrics,
                "gpu__dram_throughput.avg.pct_of_peak_sustained_elapsed"@,
                0,
            );
            let limit = tells(metrics, "launch__occupancy_limit_registers"@, 1);
            let issuing = tells(
                metrics,
                "smsp__issue_active.avg.pct_of_peak_sustained_active"@,
                100,
            );
            let ready = tells(metrics, "smsp__warps_eligible.avg.per_cycle_active"@, 100);
            let hurt = hurts(
                waiting->Some_0,
                computing->Some_0,
                memory->Some_0,
                share.ratio.rank as int,
                limit->Some_0,
                issuing->Some_0,
                ready->Some_0,
            );
            match sass::spills_found(outputs, metrics, listing, share) {
                Ok(None) => !spills || !hurt,
                Ok(Some(told)) => {
                    &&& spills && hurt
                    &&& waiting is Some && computing is Some && memory is Some && limit is Some
                        && issuing is Some && ready is Some
                    &&& told.summary == numeral::decimal(stored) + " STL + "@ + numeral::decimal(
                        loaded,
                    ) + " LDL spill instructions detected"@
                    &&& told.metrics_observed == seq![
                        ("STL (Store to Local)"@, fields::natural_view(stored)),
                        ("LDL (Load from Local)"@, fields::natural_view(loaded)),
                        ("long_scoreboard"@, JsonView::Text(waiting->Some_0.tenths + "%"@)),
                        ("compute_throughput"@, JsonView::Text(computing->Some_0.tenths + "%"@)),
                        ("memory_throughput"@, JsonView::Text(memory->Some_0.tenths + "%"@)),
                        ("local_traffic_ratio"@, JsonView::Text(share.percent + "%"@)),
                    ]
                },
                Err(reason) => spills,
            }
        }),
{
    reveal_with_fuel(sass::spill_metrics, 11);
}

/// What is said of a kernel by a tool: that it does not apply where a metric is missing that it
/// needs, that it found nothing, or what it found.
pub proof fn kernels_are_told_of(
    tool: ToolView,
    outputs: OutputsView,
    name: Seq<char>,
    metrics: JsonView,
    instructions: JsonView,
    readings: ReadingsView,
    shares: SharesView,
)
    ensures
        ({
            let complete = forall|i: int|
                0 <= i < tool.required.len() ==> metrics.get(#[trigger] tool.required[i]) is Some;
            let said = invoke::kernel_said(
                tool,
                outputs,
                name,
                metrics,
                instructions,
                readings,
                shares,
            );
            let found = invoke::tool_found(
                tool.name,
                outputs,
                metrics,
                instructions,
                readings,
                sass::share_of(shares, name, 0),
            );
            &&& !complete ==> said == Ok::<Seq<char>, Seq<char>>(
                "["@ + tool.name + "] Kernel `"@ + name + "`: not triggered (thresholds not met)"@,
            )
            &&& complete ==> match found {
                Ok(None) => said == Ok::<Seq<char>, Seq<char>>(
                    "["@ + tool.name + "] Kernel `"@ + name + "`: analyzed but no issue detected"@,
                ),
                Ok(Some(output)) => said == Ok::<Seq<char>, Seq<char>>(
                    crate::pieces::joined(output.lines(name), "\n"@),
                ),
                Err(reason) => said == Err::<Seq<char>, Seq<char>>(reason),
            }
        }),
        invoke::tool_found(
            "wgmma_instruction_detector"@,
            outputs,
            metrics,
            instructions,
            readings,
            sass::share_of(shares, name, 0),
        ) == sass::tensor_found(outputs, instructions),
        invoke::tool_found(
            "register_spill_detector"@,
            outputs,
            metrics,
            instructions,
            readings,
            sass::share_of(shares, name, 0),
        ) == sass::spills_found(
            outputs,
            metrics,
            instructions,
            sass::share_of(shares, name, 0),
        ),
        tool.name != "wgmma_instruction_detector"@ && tool.name != "register_spill_detector"@
            ==> invoke::tool_found(
            tool.name,
            outputs,
            metrics,
            instructions,
            readings,
            sass::share_of(shares, name, 0),
        ) == numeric::analysis(tool.name, outputs, metrics, readings),
{
    reveal(invoke::tool_found);
    reveal_strlit("wgmma_instruction_detector");
    reveal_strlit("register_spill_detector");
    assert("wgmma_instruction_detector"@.len() == 26);
    assert("register_spill_detector"@.len() == 23);
}

proof fn lemma_named(registry: Seq<ToolView>, name: JsonView, from: int)
    requires
        0 <= from,
    ensures
        match invoke::named(registry, name, from) {
            Some(index) => from <= index < registry.len() && name == JsonView::Text(
                registry[index].name,
            ),
            None => forall|i: int|
                from <= i < registry.len() ==> name != JsonView::Text((#[trigger] registry[i]).name),
        },
    decreases registry.len() - from,
{
    if from < registry.len() && name != JsonView::Text(registry[from].name) {
        lemma_named(registry, name, from + 1);
    }
}

proof fn lemma_said(
    tool: ToolView,
    outputs: OutputsView,
    kernels: Seq<FieldView>,
    instructions: JsonView,
    readings: ReadingsView,
    shares: SharesView,
    end: int,
)
    requires
        0 <= end <= kernels.len(),
    ensures
        invoke::all_said(tool, outputs, kernels, instructions, readings, shares, end) matches Ok(said)
            ==> said.len() == end && forall|i: int|
            0 <= i < end ==> invoke::kernel_said(
                tool,
                outputs,
                kernels[i].0,
                kernels[i].1,
                instructions,
                readings,
                shares,
            ) == Ok::<Seq<char>, Seq<char>>(#[trigger] said[i]),
    decreases end,
{
    if end > 0 {
        lemma_said(tool, outputs, kernels, instructions, readings, shares, end - 1);
    }
}

/// A tool that is called says of each kernel of the report what it finds in it, one after the other;
/// only a tool that is registered can be called, and only of a report with metrics.
pub proof fn called_tools_tell_of_each_kernel(
    payload: JsonView,
    registry: Seq<ToolView>,
    outputs: OutputsView,
    readings: ReadingsView,
    shares: SharesView,
) -> (said: Seq<Seq<char>>)
    ensures
        ({
            let report = payload.at("report"@);
            let registered = exists|i: int|
                0 <= i < registry.len() && payload.at("name"@) == JsonView::Text(
                    (#[trigger] registry[i]).name,
                );
            let result = invoke::invoked(payload, registry, outputs, readings, shares);
            &&& !registered ==> result == Err::<JsonView, Seq<char>>(
                "unsupported or deferred analyzer"@,
            )
            &&& registered && !(report.at("metrics"@) is Object) ==> result == Err::<
                JsonView,
                Seq<char>,
            >("report metrics"@)
            &&& result matches Ok(told) ==> {
                let kernels = report.at("metrics"@)->Object_0;
                &&& registered && report.at("metrics"@) is Object
                &&& said.len() == kernels.len()
                &&& exists|k: int|
                    0 <= k < registry.len() && payload.at("name"@) == JsonView::Text(
                        (#[trigger] registry[k]).name,
                    ) && (forall|i: int|
                        0 <= i < kernels.len() ==> invoke::kernel_said(
                            registry[k],
                            outputs,
                            kernels[i].0,
                            kernels[i].1,
                            report.at("sass"@),
                            readings,
                            shares,
                        ) == Ok::<Seq<char>, Seq<char>>(#[trigger] said[i])) && told.at("text"@)
                        == JsonView::Text(
                        if said.len() == 0 {
                            "["@ + registry[k].name + "] No kernels to analyze"@
                        } else {
                            crate::pieces::joined(said, "\n"@)
                        },
                    )
            }
        }),
{
    lemma_named(registry, payload.at("name"@), 0);
    match invoke::named(registry, payload.at("name"@), 0) {
        Some(index) => match payload.at("report"@).at("metrics"@) {
            JsonView::Object(kernels) => {
                let sass = payload.at("report"@).at("sass"@);
                lemma_said(
                    registry[index],
                    outputs,
                    kernels,
                    sass,
                    readings,
                    shares,
                    kernels.len() as int,
                );
                match invoke::all_said(
                    registry[index],
                    outputs,
                    kernels,
                    sass,
                    readings,
                    shares,
                    kernels.len() as int,
                ) {
                    Ok(said) => {
                        let told = invoke::invoked(
                            payload,
                            registry,
                            outputs,
                            readings,
                            shares,
                        )->Ok_0->Object_0;
                        json::lemma_at(told, 0);
                        said
                    },
                    Err(_) => Seq::empty(),
                }
            },
            _ => Seq::empty(),
        },
        None => Seq::empty(),
    }
}

/// How what was found is written: a heading with the severity and the title, then what there is of
/// the summary, the observed metrics with their thresholds, the cause, the numbered recommendations,
/// the improvement, the example and the references.
pub proof fn findings_are_written_in_sections(output: OutputView, kernel: Seq<char>)
    ensures
        ({
            let said = |told: bool, line: Seq<char>|
                if told {
                    seq![line]
                } else {
                    Seq::<Seq<char>>::empty()
                };
            let lines = output.lines(kernel);
            &&& lines.len() > 0
            &&& lines[0] == "\n### ["@ + crate::outside::uppercase(output.severity) + "] "@
                + output.title
            &&& lines == seq![lines[0]] + said(
                output.summary.len() > 0,
                "\n**Kernel `"@ + kernel + "`**: "@ + output.summary,
            ) + output::metrics_section(output.metrics_observed, output.metrics_thresholds) + said(
                output.root_cause.len() > 0,
                "\n**Root Cause:**\n"@ + output.root_cause,
            ) + output::recommendations_section(output.recommendations) + said(
                output.expected_improvement.len() > 0,
                "\n**Expected Improvement:** "@ + output.expected_improvement,
            ) + said(
                output.code_example is Some,
                "\n**Example Fix:**\n```cuda\n"@ + output.code_example->Some_0 + "\n```"@,
            ) + output::references_section(output.references)
        }),
        ({
            let list = output::metrics_section(output.metrics_observed, output.metrics_thresholds);
            &&& output.metrics_observed.len() == 0 ==> list.len() == 0
            &&& output.metrics_observed.len() > 0 ==> {
                &&& list.len() == output.metrics_observed.len() + 1
                &&& list[0] == "\n**Observed Metrics:**"@
                &&& forall|i: int|
                    0 <= i < output.metrics_observed.len() ==> #[trigger] list[i + 1] == "- `"@
                        + output.metrics_observed[i].0 + "`: "@ + written::shown(
                        output.metrics_observed[i].1,
                    ) + (match json::field(
                        output.metrics_thresholds,
                        output.metrics_observed[i].0,
                    ) {
                        None => ""@,
                        Some(JsonView::Null) => ""@,
                        Some(value) => " (threshold: "@ + written::shown(value) + ")"@,
                    })
            }
        }),
        ({
            let list = output::recommendations_section(output.recommendations);
            &&& output.recommendations.len() == 0 ==> list.len() == 0
            &&& output.recommendations.len() > 0 ==> {
                &&& list.len() == output.recommendations.len() + 1
                &&& list[0] == "\n**Recommendations:**"@
                &&& forall|i: int|
                    0 <= i < output.recommendations.len() ==> #[trigger] list[i + 1]
                        == numeral::decimal((i + 1) as nat) + ". "@ + output.recommendations[i]
            }
        }),
        ({
            let list = output::references_section(output.references);
            &&& output.references.len() == 0 ==> list.len() == 0
            &&& output.references.len() > 0 ==> {
                &&& list.len() == output.references.len() + 1
                &&& list[0] == "\n**References:**"@
                &&& forall|i: int|
                    0 <= i < output.references.len() ==> #[trigger] list[i + 1] == "- "@
                        + output.references[i]
            }
        }),
{
}

} // verus!
