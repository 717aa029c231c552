//! Tools that look at a kernel's instructions.
use crate::analyzers::metric;
use crate::analyzers::metric::{exceeds, reaches, small};
use crate::analyzers::numeric;
use crate::analyzers::numeric::Found;
use crate::analyzers::output;
use crate::analyzers::output::{Output, OutputView, Outputs, OutputsView};
use crate::fields;
use crate::fields::Fields;
use crate::json;
use crate::json::{FieldView, Json, JsonView};
use crate::lines::Lines;
use crate::number;
use crate::number::{Reading, ReadingView, Real, INFINITE};
use crate::numeral;
use crate::numeral::numeral;
use crate::pieces;
use crate::text::same;
use vstd::prelude::*;

verus! {

/// The rank of three tenths.
pub const THREE_TENTHS: i64 = 0x3fd3_3333_3333_3333;

/// The rank of six tenths.
pub const SIX_TENTHS: i64 = 0x3fe3_3333_3333_3333;

/// How often a kind of instruction was counted.
pub open spec fn count_of(sass: JsonView, kind: Seq<char>) -> u64 {
    sass.at(kind + "_count"@).natural_or_zero()
}

/// How often a kind of instruction was counted.
pub fn counted(sass: &Json, kind: &str) -> (count: u64)
    ensures
        count == count_of(sass@, kind@),
{
    sass.at(kind.to_owned().concat("_count").as_str()).natural_or_zero()
}

/// The first kind of tensor instructions that was counted, or what there is in their place.
pub open spec fn tensor_kind(sass: JsonView) -> Seq<char> {
    if count_of(sass, "wgmma"@) > 0 {
        "wgmma"@
    } else if count_of(sass, "hmma"@) > 0 {
        "hmma"@
    } else if count_of(sass, "imma"@) > 0 {
        "imma"@
    } else if count_of(sass, "dmma"@) > 0 {
        "dmma"@
    } else if count_of(sass, "bmma"@) > 0 {
        "bmma"@
    } else if sass.at("uses_cublas"@) == JsonView::Bool(true) {
        "cublas"@
    } else {
        "none"@
    }
}

fn kind_of(sass: &Json) -> (kind: &'static str)
    ensures
        kind@ == tensor_kind(sass@),
{
    if counted(sass, "wgmma") > 0 {
        "wgmma"
    } else if counted(sass, "hmma") > 0 {
        "hmma"
    } else if counted(sass, "imma") > 0 {
        "imma"
    } else if counted(sass, "dmma") > 0 {
        "dmma"
    } else if counted(sass, "bmma") > 0 {
        "bmma"
    } else if sass.at("uses_cublas").is_true() {
        "cublas"
    } else {
        "none"
    }
}

/// The strings among the first `end` items.
pub open spec fn strings_among(items: Seq<JsonView>, end: int) -> Seq<Seq<char>>
    decreases end,
{
    if end <= 0 {
        Seq::empty()
    } else {
        let before = strings_among(items, end - 1);
        match items[end - 1] {
            JsonView::Text(held) => before.push(held),
            _ => before,
        }
    }
}

/// The strings of an array; none of any other value.
pub open spec fn strings_of(value: JsonView) -> Seq<Seq<char>> {
    match value {
        JsonView::Array(items) => strings_among(items, items.len() as int),
        _ => Seq::empty(),
    }
}

/// The strings of an array; none of any other value.
pub fn strings(value: &Json) -> (list: Lines)
    ensures
        list@ == strings_of(value@),
{
    broadcast use json::array_view;

    let mut list = Lines::new();
    if let Json::Array(items) = value {
        let ghost all = json::items_view(items@);
        let mut index: usize = 0;
        while index < items.len()
            invariant
                index <= items@.len(),
                all == json::items_view(items@),
                list@ == strings_among(all, index as int),
            decreases items@.len() - index,
        {
            assert(all[index as int] == items@[index as int]@);
            if let Some(held) = items[index].text() {
                list.add_text(held);
            }
            index += 1;
        }
    }
    list
}

/// The first `count` texts, with commas between them.
pub open spec fn first_few(list: Seq<Seq<char>>, count: int) -> Seq<char> {
    pieces::joined(
        if count < list.len() {
            list.take(count)
        } else {
            list
        },
        ", "@,
    )
}

fn join_few(list: &Lines, count: usize) -> (text: String)
    ensures
        text@ == first_few(list@, count as int),
{
    let mut few = Lines::new();
    let mut index: usize = 0;
    let limit: usize = if count < list.list.len() {
        count
    } else {
        list.list.len()
    };
    while index < limit
        invariant
            index <= limit <= list.list@.len(),
            few@ == list@.take(index as int),
        decreases limit - index,
    {
        few.add_text(list.list[index].as_str());
        index += 1;
        assert(few@ =~= list@.take(index as int));
    }
    assert(limit == list@.len() ==> few@ =~= list@);
    few.join(", ")
}

/// The summary that tensor instructions are told with.
pub open spec fn tensor_summary(sass: JsonView, kind: Seq<char>) -> Seq<char> {
    let value = numeral::decimal(count_of(sass, kind) as nat);
    if kind == "wgmma"@ {
        "Kernel uses "@ + value + " WGMMA (Hopper tensor core) instructions"@
    } else if kind == "hmma"@ {
        "Kernel uses "@ + value + " HMMA instructions (Ampere-style) instead of WGMMA (Hopper)"@
    } else if kind == "imma"@ {
        "Kernel uses "@ + value + " IMMA instructions (INT8/INT4 tensor core ops)"@
    } else if kind == "dmma"@ {
        "Kernel uses "@ + value + " DMMA instructions (FP64 tensor core ops)"@
    } else if kind == "bmma"@ {
        "Kernel uses "@ + value + " BMMA instructions (INT1 binary tensor core ops)"@
    } else if kind == "cublas"@ {
        "Kernel links cuBLAS ("@ + first_few(strings_of(sass.at("cublas_symbols"@)), 2)
            + "). cuBLAS auto-uses tensor cores on modern GPUs."@
    } else {
        "Kernel has 0 tensor core instructions (WGMMA/HMMA/IMMA/DMMA/BMMA) in compiled binary"@
    }
}

fn summarize(sass: &Json, kind: &str) -> (text: String)
    ensures
        text@ == tensor_summary(sass@, kind@),
{
    let value = numeral(counted(sass, kind) as u128);
    if same(kind, "wgmma") {
        "Kernel uses ".to_owned().concat(value.as_str()).concat(
            " WGMMA (Hopper tensor core) instructions",
        )
    } else if same(kind, "hmma") {
        "Kernel uses ".to_owned().concat(value.as_str()).concat(
            " HMMA instructions (Ampere-style) instead of WGMMA (Hopper)",
        )
    } else if same(kind, "imma") {
        "Kernel uses ".to_owned().concat(value.as_str()).concat(
            " IMMA instructions (INT8/INT4 tensor core ops)",
        )
    } else if same(kind, "dmma") {
        "Kernel uses ".to_owned().concat(value.as_str()).concat(
            " DMMA instructions (FP64 tensor core ops)",
        )
    } else if same(kind, "bmma") {
        "Kernel uses ".to_owned().concat(value.as_str()).concat(
            " BMMA instructions (INT1 binary tensor core ops)",
        )
    } else if same(kind, "cublas") {
        "Kernel links cuBLAS (".to_owned().concat(
            join_few(&strings(sass.at("cublas_symbols")), 2).as_str(),
        ).concat("). cuBLAS auto-uses tensor cores on modern GPUs.")
    } else {
        "Kernel has 0 tensor core instructions (WGMMA/HMMA/IMMA/DMMA/BMMA) in compiled binary".to_owned()
    }
}

/// The counts that tensor instructions are told with.
pub open spec fn tensor_observed(sass: JsonView, kind: Seq<char>) -> Seq<FieldView> {
    let count = |kind: Seq<char>| fields::natural_view(count_of(sass, kind) as nat);
    let zero = fields::natural_view(0);
    if kind == "wgmma"@ {
        seq![
            ("WGMMA count"@, count("wgmma"@)),
            ("HMMA count"@, count("hmma"@)),
            (
                "Uses TMA"@,
                JsonView::Text(
                    if count_of(sass, "tma"@) > 0 {
                        "Yes"@
                    } else {
                        "No"@
                    },
                ),
            ),
        ]
    } else if kind == "hmma"@ {
        seq![("HMMA count"@, count("hmma"@)), ("WGMMA count"@, zero)]
    } else if kind == "imma"@ {
        seq![
            ("IMMA count"@, count("imma"@)),
            ("WGMMA count"@, count("wgmma"@)),
            ("HMMA count"@, count("hmma"@)),
        ]
    } else if kind == "dmma"@ {
        seq![("DMMA count"@, count("dmma"@))]
    } else if kind == "bmma"@ {
        seq![("BMMA count"@, count("bmma"@))]
    } else if kind == "cublas"@ {
        seq![
            (
                "cuBLAS symbols"@,
                JsonView::Text(first_few(strings_of(sass.at("cublas_symbols"@)), 3)),
            ),
            ("WGMMA count"@, zero),
            ("HMMA count"@, zero),
            (
                "Note"@,
                JsonView::Text(
                    "cuBLAS JIT-compiles TC kernels at runtime; SASS only shows the dispatcher"@,
                ),
            ),
        ]
    } else {
        seq![
            ("WGMMA count"@, zero),
            ("HMMA count"@, zero),
            ("IMMA count"@, zero),
            ("DMMA count"@, zero),
            ("FFMA (FP32 FMA) count"@, count("ffma"@)),
            (
                "LDG/STG count"@,
                JsonView::Text(
                    numeral::decimal(count_of(sass, "ldg"@) as nat) + "/"@ + numeral::decimal(
                        count_of(sass, "stg"@) as nat,
                    ),
                ),
            ),
        ]
    }
}

fn count_value(sass: &Json, kind: &str) -> (value: Json)
    ensures
        value@ == fields::natural_view(count_of(sass@, kind@) as nat),
{
    fields::natural(counted(sass, kind))
}

fn observe(sass: &Json, kind: &str) -> (list: Fields)
    ensures
        list@ == tensor_observed(sass@, kind@),
{
    let list = if same(kind, "wgmma") {
        Fields::new().with("WGMMA count", count_value(sass, "wgmma")).with(
            "HMMA count",
            count_value(sass, "hmma"),
        ).with(
            "Uses TMA",
            fields::text(
                if counted(sass, "tma") > 0 {
                    "Yes"
                } else {
                    "No"
                },
            ),
        )
    } else if same(kind, "hmma") {
        Fields::new().with("HMMA count", count_value(sass, "hmma")).with(
            "WGMMA count",
            fields::natural(0),
        )
    } else if same(kind, "imma") {
        Fields::new().with("IMMA count", count_value(sass, "imma")).with(
            "WGMMA count",
            count_value(sass, "wgmma"),
        ).with("HMMA count", count_value(sass, "hmma"))
    } else if same(kind, "dmma") {
        Fields::new().with("DMMA count", count_value(sass, "dmma"))
    } else if same(kind, "bmma") {
        Fields::new().with("BMMA count", count_value(sass, "bmma"))
    } else if same(kind, "cublas") {
        Fields::new().with(
            "cuBLAS symbols",
            Json::Text(join_few(&strings(sass.at("cublas_symbols")), 3)),
        ).with("WGMMA count", fields::natural(0)).with("HMMA count", fields::natural(0)).with(
            "Note",
            fields::text("cuBLAS JIT-compiles TC kernels at runtime; SASS only shows the dispatcher"),
        )
    } else {
        Fields::new().with("WGMMA count", fields::natural(0)).with(
            "HMMA count",
            fields::natural(0),
        ).with("IMMA count", fields::natural(0)).with("DMMA count", fields::natural(0)).with(
            "FFMA (FP32 FMA) count",
            count_value(sass, "ffma"),
        ).with(
            "LDG/STG count",
            Json::Text(
                numeral(counted(sass, "ldg") as u128).concat("/").concat(
                    numeral(counted(sass, "stg") as u128).as_str(),
                ),
            ),
        )
    };
    assert(list@ =~= tensor_observed(sass@, kind@));
    list
}

/// What the tensor instructions show.
pub open spec fn tensor_found(outputs: OutputsView, sass: JsonView) -> Found {
    if !sass.filled() {
        Ok(None)
    } else {
        let kind = tensor_kind(sass);
        match output::base(outputs, "wgmma_instruction_detector:"@ + kind) {
            Err(reason) => Err(reason),
            Ok(output) => Ok(
                Some(
                    OutputView {
                        summary: tensor_summary(sass, kind),
                        metrics_observed: tensor_observed(sass, kind),
                        recommendations: if kind == "wgmma"@ && count_of(sass, "tma"@) > 0 {
                            output.recommendations.update(
                                1,
                                "TMA is being used for efficient memory access"@,
                            )
                        } else {
                            output.recommendations
                        },
                        ..output
                    },
                ),
            ),
        }
    }
}

/// Looks at the tensor instructions of a kernel.
pub fn tensor(outputs: &Outputs, sass: &Json) -> (result: Result<Option<Output>, String>)
    requires
        numeric::complete(outputs@),
    ensures
        numeric::found_view(result) == tensor_found(outputs@, sass@),
{
    if !sass.filled() {
        return Ok(None);
    }
    let kind = kind_of(sass);
    let mut output = match outputs.base(
        "wgmma_instruction_detector:".to_owned().concat(kind).as_str(),
    ) {
        Err(error) => {
            return Err(error);
        },
        Ok(output) => output,
    };
    let ghost before = output@;
    output.summary = summarize(sass, kind);
    output.metrics_observed = observe(sass, kind);
    if same(kind, "wgmma") && counted(sass, "tma") > 0 {
        proof {
            assert("wgmma_instruction_detector:"@ + "wgmma"@ =~= "wgmma_instruction_detector:wgmma"@)
                by {
                reveal_strlit("wgmma_instruction_detector:");
                reveal_strlit("wgmma");
                reveal_strlit("wgmma_instruction_detector:wgmma");
            }
        }
        output.recommendations[1] = "TMA is being used for efficient memory access".to_owned();
        assert(output@.recommendations =~= before.recommendations.update(
            1,
            "TMA is being used for efficient memory access"@,
        ));
    }
    Ok(Some(output))
}

/// The share of a kernel's memory traffic that is local: the local sectors that are loaded and
/// stored, divided by these and the global ones, and zero without traffic.
pub struct Share {
    pub ratio: Real,
    /// In percent, with one decimal place.
    pub percent: String,
}

/// The model of a [`Share`].
pub struct ShareView {
    pub ratio: Real,
    pub percent: Seq<char>,
}

impl View for Share {
    type V = ShareView;

    open spec fn view(&self) -> ShareView {
        ShareView { ratio: self.ratio, percent: self.percent@ }
    }
}

/// The shares of kernels, by name.
pub struct Shares {
    pub entries: Vec<(String, Share)>,
}

/// The model of [`Shares`].
pub type SharesView = Seq<(Seq<char>, ShareView)>;

impl View for Shares {
    type V = SharesView;

    open spec fn view(&self) -> SharesView {
        Seq::new(self.entries@.len(), |i: int| (self.entries@[i].0@, self.entries@[i].1@))
    }
}

/// The share of a kernel, by the first entry from `from` on for it; none without an entry.
pub open spec fn share_of(shares: SharesView, kernel: Seq<char>, from: int) -> ShareView
    decreases shares.len() - from,
{
    if from < 0 || from >= shares.len() {
        ShareView { ratio: Real { rank: 0 }, percent: "0.0"@ }
    } else if shares[from].0 == kernel {
        shares[from].1
    } else {
        share_of(shares, kernel, from + 1)
    }
}

impl Shares {
    /// The share of a kernel.
    pub fn share(&self, kernel: &str) -> (share: Share)
        ensures
            share@ == share_of(self@, kernel@, 0),
    {
        let ghost all = self@;
        let mut index: usize = 0;
        while index < self.entries.len()
            invariant
                index <= self.entries@.len(),
                all == self@,
                share_of(all, kernel@, 0) == share_of(all, kernel@, index as int),
            decreases self.entries@.len() - index,
        {
            assert(all[index as int] == (self.entries@[index as int].0@, self.entries@[index as int].1@));
            if same(self.entries[index].0.as_str(), kernel) {
                return Share {
                    ratio: self.entries[index].1.ratio,
                    percent: self.entries[index].1.percent.clone(),
                };
            }
            index += 1;
        }
        Share { ratio: Real { rank: 0 }, percent: "0.0".to_owned() }
    }
}

/// A metric that has to be a number if it is there.
pub open spec fn spill_metric(metrics: JsonView, key: Seq<char>, default: nat) -> Result<
    ReadingView,
    Seq<char>,
> {
    match metrics.get(key) {
        None => Ok(number::integer_reading(default)),
        Some(value) => match value.reading() {
            Some(reading) => Ok(reading),
            None => Err("nonnumeric spill metric "@ + key),
        },
    }
}

fn read_spill_metric(metrics: &Json, key: &str, default: u64) -> (result: Result<Reading, String>)
    requires
        default <= number::EXACT,
    ensures
        match result {
            Ok(reading) => spill_metric(metrics@, key@, default as nat) == Ok::<
                ReadingView,
                Seq<char>,
            >(reading@),
            Err(error) => spill_metric(metrics@, key@, default as nat) == Err::<
                ReadingView,
                Seq<char>,
            >(error@),
        },
{
    match metrics.get(key) {
        None => Ok(small(default)),
        Some(value) => match value.reading() {
            Some(reading) => Ok(reading.clone()),
            None => Err("nonnumeric spill metric ".to_owned().concat(key)),
        },
    }
}

/// The metrics that tell whether spills hurt, with their defaults, in the order in which they are
/// read.
pub open spec fn spill_key(index: int) -> (Seq<char>, nat) {
    if index == 0 {
        ("smsp__warp_issue_stalled_long_scoreboard_per_warp_active.pct"@, 0)
    } else if index == 1 {
        ("sm__throughput.avg.pct_of_peak_sustained_elapsed"@, 0)
    } else if index == 2 {
        ("gpu__dram_throughput.avg.pct_of_peak_sustained_elapsed"@, 0)
    } else if index == 3 {
        ("l1tex__t_sectors_pipe_lsu_mem_local_op_ld.sum"@, 0)
    } else if index == 4 {
        ("l1tex__t_sectors_pipe_lsu_mem_local_op_st.sum"@, 0)
    } else if index == 5 {
        ("l1tex__t_sectors_pipe_lsu_mem_global_op_ld.sum"@, 0)
    } else if index == 6 {
        ("l1tex__t_sectors_pipe_lsu_mem_global_op_st.sum"@, 0)
    } else if index == 7 {
        ("launch__occupancy_limit_registers"@, 1)
    } else if index == 8 {
        ("smsp__issue_active.avg.pct_of_peak_sustained_active"@, 100)
    } else {
        ("smsp__warps_eligible.avg.per_cycle_active"@, 100)
    }
}

fn spill_key_text(index: usize) -> (key: (&'static str, u64))
    ensures
        (key.0@, key.1 as nat) == spill_key(index as int),
        key.1 <= 100,
{
    if index == 0 {
        ("smsp__warp_issue_stalled_long_scoreboard_per_warp_active.pct", 0)
    } else if index == 1 {
        ("sm__throughput.avg.pct_of_peak_sustained_elapsed", 0)
    } else if index == 2 {
        ("gpu__dram_throughput.avg.pct_of_peak_sustained_elapsed", 0)
    } else if index == 3 {
        ("l1tex__t_sectors_pipe_lsu_mem_local_op_ld.sum", 0)
    } else if index == 4 {
        ("l1tex__t_sectors_pipe_lsu_mem_local_op_st.sum", 0)
    } else if index == 5 {
        ("l1tex__t_sectors_pipe_lsu_mem_global_op_ld.sum", 0)
    } else if index == 6 {
        ("l1tex__t_sectors_pipe_lsu_mem_global_op_st.sum", 0)
    } else if index == 7 {
        ("launch__occupancy_limit_registers", 1)
    } else if index == 8 {
        ("smsp__issue_active.avg.pct_of_peak_sustained_active", 100)
    } else {
        ("smsp__warps_eligible.avg.per_cycle_active", 100)
    }
}

/// The first `end` of these metrics, or the first that is no number.
pub open spec fn spill_metrics(metrics: JsonView, end: int) -> Result<Seq<ReadingView>, Seq<char>>
    decreases end,
{
    if end <= 0 {
        Ok(Seq::empty())
    } else {
        match spill_metrics(metrics, end - 1) {
            Err(reason) => Err(reason),
            Ok(before) => match spill_metric(
                metrics,
                spill_key(end - 1).0,
                spill_key(end - 1).1,
            ) {
                Err(reason) => Err(reason),
                Ok(reading) => Ok(before.push(reading)),
            },
        }
    }
}

proof fn lemma_spill_refused(metrics: JsonView, index: int, end: int)
    requires
        0 <= index < end,
        spill_metrics(metrics, index + 1) is Err,
    ensures
        spill_metrics(metrics, end) == spill_metrics(metrics, index + 1),
    decreases end,
{
    if end > index + 1 {
        lemma_spill_refused(metrics, index, end - 1);
    }
}

/// The models of readings.
pub open spec fn readings_of(list: Seq<Reading>) -> Seq<ReadingView> {
    Seq::new(list.len(), |i: int| list[i]@)
}

fn read_spill_metrics(metrics: &Json) -> (result: Result<Vec<Reading>, String>)
    ensures
        match result {
            Ok(list) => spill_metrics(metrics@, 10) == Ok::<Seq<ReadingView>, Seq<char>>(
                readings_of(list@),
            ) && list@.len() == 10,
            Err(error) => spill_metrics(metrics@, 10) == Err::<Seq<ReadingView>, Seq<char>>(error@),
        },
{
    let mut list: Vec<Reading> = Vec::new();
    let mut index: usize = 0;
    assert(readings_of(list@) =~= Seq::<ReadingView>::empty());
    while index < 10
        invariant
            index <= 10,
            list@.len() == index,
            spill_metrics(metrics@, index as int) == Ok::<Seq<ReadingView>, Seq<char>>(
                readings_of(list@),
            ),
        decreases 10 - index,
    {
        let (key, default) = spill_key_text(index);
        match read_spill_metric(metrics, key, default) {
            Ok(reading) => {
                let ghost before = list@;
                let ghost one = reading@;
                list.push(reading);
                assert(readings_of(list@) =~= readings_of(before).push(one));
            },
            Err(error) => {
                proof {
                    lemma_spill_refused(metrics@, index as int, 10);
                }
                return Err(error);
            },
        }
        index += 1;
    }
    Ok(list)
}

/// Whether spills hurt.
pub open spec fn spills_hurt(values: Seq<ReadingView>, ratio: Real) -> bool {
    ||| metric::more_than(values[0], 15) && !metric::at_least(values[1], 50) && !metric::at_least(
        values[2],
        50,
    )
    ||| metric::more_than(values[2], 60) && THREE_TENTHS < ratio.rank <= INFINITE
    ||| !metric::at_least(values[7], 1) && (!metric::at_least(values[8], 30)
        || values[9].value.rank < SIX_TENTHS)
}

/// What the spills of registers show.
pub open spec fn spills_found(
    outputs: OutputsView,
    metrics: JsonView,
    sass: JsonView,
    share: ShareView,
) -> Found {
    let stl = sass.at("stl_count"@).natural_or_zero();
    let ldl = sass.at("ldl_count"@).natural_or_zero();
    if !sass.filled() || (stl == 0 && ldl == 0) {
        Ok(None)
    } else {
        match spill_metrics(metrics, 10) {
            Err(reason) => Err(reason),
            Ok(values) => if !spills_hurt(values, share.ratio) {
                Ok(None)
            } else {
                match output::base(outputs, "register_spill_detector"@) {
                    Err(reason) => Err(reason),
                    Ok(output) => Ok(
                        Some(
                            OutputView {
                                summary: numeral::decimal(stl as nat) + " STL + "@
                                    + numeral::decimal(ldl as nat)
                                    + " LDL spill instructions detected"@,
                                metrics_observed: seq![
                                    ("STL (Store to Local)"@, fields::natural_view(stl as nat)),
                                    ("LDL (Load from Local)"@, fields::natural_view(ldl as nat)),
                                    (
                                        "long_scoreboard"@,
                                        JsonView::Text(numeric::percent(values[0])),
                                    ),
                                    (
                                        "compute_throughput"@,
                                        JsonView::Text(numeric::percent(values[1])),
                                    ),
                                    (
                                        "memory_throughput"@,
                                        JsonView::Text(numeric::percent(values[2])),
                                    ),
                                    (
                                        "local_traffic_ratio"@,
                                        JsonView::Text(share.percent + "%"@),
                                    ),
                                ],
                                ..output
                            },
                        ),
                    ),
                }
            },
        }
    }
}

/// Looks for spills of registers that hurt.
pub fn spills(outputs: &Outputs, metrics: &Json, sass: &Json, share: &Share) -> (result: Result<
    Option<Output>,
    String,
>)
    ensures
        numeric::found_view(result) == spills_found(outputs@, metrics@, sass@, share@),
{
    if !sass.filled() {
        return Ok(None);
    }
    let stl: u64 = sass.at("stl_count").natural_or_zero();
    let ldl: u64 = sass.at("ldl_count").natural_or_zero();
    if stl == 0 && ldl == 0 {
        return Ok(None);
    }
    let values = match read_spill_metrics(metrics) {
        Err(error) => {
            return Err(error);
        },
        Ok(values) => values,
    };
    let ghost shown = readings_of(values@);
    let hurt = (exceeds(&values[0], 15) && !reaches(&values[1], 50) && !reaches(&values[2], 50)) || (
    exceeds(&values[2], 60) && THREE_TENTHS < share.ratio.rank && share.ratio.rank <= INFINITE) || (
    !reaches(&values[7], 1) && (!reaches(&values[8], 30) || values[9].value.rank < SIX_TENTHS));
    if !hurt {
        return Ok(None);
    }
    let mut output = match outputs.base("register_spill_detector") {
        Err(error) => {
            return Err(error);
        },
        Ok(output) => output,
    };
    output.summary = numeral(stl as u128).concat(" STL + ").concat(
        numeral(ldl as u128).as_str(),
    ).concat(" LDL spill instructions detected");
    output.metrics_observed = Fields::new().with(
        "STL (Store to Local)",
        fields::natural(stl),
    ).with("LDL (Load from Local)", fields::natural(ldl)).with(
        "long_scoreboard",
        Json::Text(values[0].tenths.clone().concat("%")),
    ).with("compute_throughput", Json::Text(values[1].tenths.clone().concat("%"))).with(
        "memory_throughput",
        Json::Text(values[2].tenths.clone().concat("%")),
    ).with("local_traffic_ratio", Json::Text(share.percent.clone().concat("%")));
    assert(output@.metrics_observed =~= spills_found(
        outputs@,
        metrics@,
        sass@,
        share@,
    )->Ok_0->Some_0.metrics_observed);
    Ok(Some(output))
}

} // verus!
