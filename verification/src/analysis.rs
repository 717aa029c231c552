//! The report on a profile that an analyst reads.
use crate::analyzers::invoke;
use crate::analyzers::numeric;
use crate::analyzers::output::{Outputs, OutputsView};
use crate::analyzers::sass;
use crate::analyzers::sass::{Shares, SharesView};
use crate::analyzers::tool;
use crate::analyzers::tool::{prioritized, selected, Tool, ToolView};
use crate::fields;
use crate::fields::Fields;
use crate::json;
use crate::json::{Json, JsonView};
use crate::lines::Lines;
use crate::number::{Readings, ReadingsView};
use crate::numeral;
use crate::numeral::numeral;
use crate::outside;
use crate::outside::to_upper;
use crate::pieces;
use crate::recommend;
use crate::recommend::ranked;
use crate::text::same;
use crate::written;
use crate::written::display;
use vstd::prelude::*;

verus! {

/// The groups of metrics, in the order of the report.
pub open spec fn group(index: int) -> Seq<char> {
    if index == 0 {
        "compute"@
    } else if index == 1 {
        "memory"@
    } else if index == 2 {
        "occupancy"@
    } else if index == 3 {
        "stall"@
    } else if index == 4 {
        "timing"@
    } else {
        "branch"@
    }
}

/// The groups of metrics, in the order of the report.
pub fn group_name(index: usize) -> (name: &'static str)
    ensures
        name@ == group(index as int),
{
    if index == 0 {
        "compute"
    } else if index == 1 {
        "memory"
    } else if index == 2 {
        "occupancy"
    } else if index == 3 {
        "stall"
    } else if index == 4 {
        "timing"
    } else {
        "branch"
    }
}

/// The heading of a group.
pub open spec fn heading(index: int) -> Seq<char> {
    if index == 0 {
        "### Compute Metrics:"@
    } else if index == 1 {
        "\n### Memory Metrics:"@
    } else if index == 2 {
        "\n### Occupancy Metrics:"@
    } else if index == 3 {
        "\n### Stall Metrics:"@
    } else if index == 4 {
        "\n### Timing Metrics:"@
    } else {
        "\n### Branch Metrics:"@
    }
}

fn heading_text(index: usize) -> (name: &'static str)
    ensures
        name@ == heading(index as int),
{
    if index == 0 {
        "### Compute Metrics:"
    } else if index == 1 {
        "\n### Memory Metrics:"
    } else if index == 2 {
        "\n### Occupancy Metrics:"
    } else if index == 3 {
        "\n### Stall Metrics:"
    } else if index == 4 {
        "\n### Timing Metrics:"
    } else {
        "\n### Branch Metrics:"
    }
}

/// Lines, or why there are none.
pub type Told = Result<Seq<Seq<char>>, Seq<char>>;

/// The model of lines, or of why there are none.
pub open spec fn told(result: Result<Lines, String>) -> Told {
    match result {
        Ok(lines) => Ok(lines@),
        Err(error) => Err(error@),
    }
}

/// The model of lines that were added to, or of why they were not.
pub open spec fn grown(result: Result<(), String>, lines: Lines) -> Told {
    match result {
        Ok(_) => Ok(lines@),
        Err(error) => Err(error@),
    }
}

/// `lines` and the lines for those of the first `end` metrics that a kernel has.
pub open spec fn with_metrics(
    lines: Seq<Seq<char>>,
    keys: Seq<JsonView>,
    metrics: JsonView,
    end: int,
) -> Told
    decreases end,
{
    if end <= 0 {
        Ok(lines)
    } else {
        match with_metrics(lines, keys, metrics, end - 1) {
            Err(reason) => Err(reason),
            Ok(before) => match keys[end - 1] {
                JsonView::Text(key) => match metrics.get(key) {
                    Some(value) => Ok(before.push("- `"@ + key + "`: "@ + written::shown(value))),
                    None => Ok(before),
                },
                _ => Err("metric name"@),
            },
        }
    }
}

proof fn lemma_metrics_refused(
    lines: Seq<Seq<char>>,
    keys: Seq<JsonView>,
    metrics: JsonView,
    index: int,
    end: int,
)
    requires
        0 <= index < end,
        with_metrics(lines, keys, metrics, index + 1) is Err,
    ensures
        with_metrics(lines, keys, metrics, end) == with_metrics(lines, keys, metrics, index + 1),
    decreases end,
{
    if end > index + 1 {
        lemma_metrics_refused(lines, keys, metrics, index, end - 1);
    }
}

fn add_metrics(lines: &mut Lines, keys: &Vec<Json>, metrics: &Json) -> (result: Result<(), String>)
    ensures
        grown(result, *final(lines)) == with_metrics(
            old(lines)@,
            json::items_view(keys@),
            metrics@,
            keys@.len() as int,
        ),
{
    let ghost start = lines@;
    let ghost all = json::items_view(keys@);
    let mut index: usize = 0;
    while index < keys.len()
        invariant
            index <= keys@.len(),
            all == json::items_view(keys@),
            start == old(lines)@,
            with_metrics(start, all, metrics@, index as int) == Told::Ok(lines@),
        decreases keys@.len() - index,
    {
        assert(all[index as int] == keys@[index as int]@);
        match keys[index].text() {
            Some(key) => {
                if let Some(value) = metrics.get(key) {
                    lines.push(
                        "- `".to_owned().concat(key).concat("`: ").concat(display(value).as_str()),
                    );
                }
            },
            None => {
                proof {
                    lemma_metrics_refused(start, all, metrics@, index as int, all.len() as int);
                }
                return Err("metric name".to_owned());
            },
        }
        index += 1;
    }
    Ok(())
}

/// `lines` and those for the first `end` groups of metrics.
pub open spec fn with_groups(
    lines: Seq<Seq<char>>,
    assets: JsonView,
    metrics: JsonView,
    end: int,
) -> Told
    decreases end,
{
    if end <= 0 {
        Ok(lines)
    } else {
        match with_groups(lines, assets, metrics, end - 1) {
            Err(reason) => Err(reason),
            Ok(before) => match assets.at("metrics"@).at(group(end - 1)) {
                JsonView::Array(keys) => with_metrics(
                    before.push(heading(end - 1)),
                    keys,
                    metrics,
                    keys.len() as int,
                ),
                _ => Err("metric group"@),
            },
        }
    }
}

proof fn lemma_groups_refused(
    lines: Seq<Seq<char>>,
    assets: JsonView,
    metrics: JsonView,
    index: int,
    end: int,
)
    requires
        0 <= index < end,
        with_groups(lines, assets, metrics, index + 1) is Err,
    ensures
        with_groups(lines, assets, metrics, end) == with_groups(lines, assets, metrics, index + 1),
    decreases end,
{
    if end > index + 1 {
        lemma_groups_refused(lines, assets, metrics, index, end - 1);
    }
}

fn add_groups(lines: &mut Lines, assets: &Json, metrics: &Json) -> (result: Result<(), String>)
    ensures
        grown(result, *final(lines)) == with_groups(old(lines)@, assets@, metrics@, 6),
{
    let ghost start = lines@;
    let mut index: usize = 0;
    while index < 6
        invariant
            index <= 6,
            start == old(lines)@,
            with_groups(start, assets@, metrics@, index as int) == Told::Ok(lines@),
        decreases 6 - index,
    {
        match assets.at("metrics").at(group_name(index)).items() {
            Some(keys) => {
                lines.add_text(heading_text(index));
                match add_metrics(lines, keys, metrics) {
                    Ok(_) => {},
                    Err(error) => {
                        proof {
                            lemma_groups_refused(start, assets@, metrics@, index as int, 6);
                        }
                        return Err(error);
                    },
                }
            },
            None => {
                proof {
                    lemma_groups_refused(start, assets@, metrics@, index as int, 6);
                }
                return Err("metric group".to_owned());
            },
        }
        index += 1;
    }
    Ok(())
}

/// Whether there are instructions, but none for tensor cores and no library that has them.
pub open spec fn without_tensors(instructions: JsonView) -> bool {
    &&& instructions.filled()
    &&& sass::count_of(instructions, "wgmma"@) == 0
    &&& sass::count_of(instructions, "hmma"@) == 0
    &&& sass::count_of(instructions, "imma"@) == 0
    &&& sass::count_of(instructions, "dmma"@) == 0
    &&& sass::count_of(instructions, "bmma"@) == 0
    &&& instructions.at("uses_cublas"@) != JsonView::Bool(true)
}

/// The lines on missing tensor instructions.
pub open spec fn tensor_lines(instructions: JsonView) -> Seq<Seq<char>> {
    if without_tensors(instructions) {
        seq![
            "\n### SASS Binary Analysis (Bottleneck Detected)"@,
            "- WGMMA instructions (Hopper TC): 0"@,
            "- HMMA instructions (Ampere TC): 0"@,
            "- cuBLAS detected: No"@,
            "- FP32 FMA (FFMA): "@ + numeral::decimal(
                sass::count_of(instructions, "ffma"@) as nat,
            ),
            "\n**SASS Analysis: 0 tensor core instructions detected.**"@,
            "If this kernel performs matrix operations, consider leveraging tensor core instructions (cuBLAS, CUTLASS, or inline PTX) to improve performance."@,
        ]
    } else {
        Seq::empty()
    }
}

fn add_tensor_lines(lines: &mut Lines, instructions: &Json)
    ensures
        final(lines)@ == old(lines)@ + tensor_lines(instructions@),
{
    let ghost before = lines@;
    let missing = instructions.filled() && sass::counted(instructions, "wgmma") == 0
        && sass::counted(instructions, "hmma") == 0 && sass::counted(instructions, "imma") == 0
        && sass::counted(instructions, "dmma") == 0 && sass::counted(instructions, "bmma") == 0
        && !instructions.at("uses_cublas").is_true();
    if missing {
        lines.add_text("\n### SASS Binary Analysis (Bottleneck Detected)");
        lines.add_text("- WGMMA instructions (Hopper TC): 0");
        lines.add_text("- HMMA instructions (Ampere TC): 0");
        lines.add_text("- cuBLAS detected: No");
        lines.push(
            "- FP32 FMA (FFMA): ".to_owned().concat(
                numeral(sass::counted(instructions, "ffma") as u128).as_str(),
            ),
        );
        lines.add_text("\n**SASS Analysis: 0 tensor core instructions detected.**");
        lines.add_text(
            "If this kernel performs matrix operations, consider leveraging tensor core instructions (cuBLAS, CUTLASS, or inline PTX) to improve performance.",
        );
    }
    assert(lines@ =~= before + tensor_lines(instructions@));
}

/// What the first `end` tools find.
pub open spec fn guidance(
    tools: Seq<ToolView>,
    outputs: OutputsView,
    name: Seq<char>,
    metrics: JsonView,
    instructions: JsonView,
    readings: ReadingsView,
    shares: SharesView,
    end: int,
) -> Told
    decreases end,
{
    if end <= 0 {
        Ok(Seq::empty())
    } else {
        match guidance(
            tools,
            outputs,
            name,
            metrics,
            instructions,
            readings,
            shares,
            end - 1,
        ) {
            Err(reason) => Err(reason),
            Ok(before) => if !tools[end - 1].triggers(metrics) {
                Ok(before)
            } else {
                match invoke::tool_found(
                    tools[end - 1].name,
                    outputs,
                    metrics,
                    instructions,
                    readings,
                    sass::share_of(shares, name, 0),
                ) {
                    Err(reason) => Err(reason),
                    Ok(None) => Ok(before),
                    Ok(Some(output)) => Ok(before.push(output.text(name))),
                }
            },
        }
    }
}

proof fn lemma_guidance_refused(
    tools: Seq<ToolView>,
    outputs: OutputsView,
    name: Seq<char>,
    metrics: JsonView,
    instructions: JsonView,
    readings: ReadingsView,
    shares: SharesView,
    index: int,
    end: int,
)
    requires
        0 <= index < end,
        guidance(
            tools,
            outputs,
            name,
            metrics,
            instructions,
            readings,
            shares,
            index + 1,
        ) is Err,
    ensures
        guidance(tools, outputs, name, metrics, instructions, readings, shares, end) == guidance(
            tools,
            outputs,
            name,
            metrics,
            instructions,
            readings,
            shares,
            index + 1,
        ),
    decreases end,
{
    if end > index + 1 {
        lemma_guidance_refused(
            tools,
            outputs,
            name,
            metrics,
            instructions,
            readings,
            shares,
            index,
            end - 1,
        );
    }
}

fn guide(
    tools: &Vec<Tool>,
    outputs: &Outputs,
    name: &str,
    metrics: &Json,
    instructions: &Json,
    readings: &Readings,
    shares: &Shares,
) -> (result: Result<Lines, String>)
    requires
        numeric::complete(outputs@),
    ensures
        told(result) == guidance(
            tool::tools_view(tools@),
            outputs@,
            name@,
            metrics@,
            instructions@,
            readings@,
            shares@,
            tools@.len() as int,
        ),
{
    let ghost all = tool::tools_view(tools@);
    let mut lines = Lines::new();
    let mut index: usize = 0;
    while index < tools.len()
        invariant
            index <= tools@.len(),
            all == tool::tools_view(tools@),
            numeric::complete(outputs@),
            guidance(
                all,
                outputs@,
                name@,
                metrics@,
                instructions@,
                readings@,
                shares@,
                index as int,
            ) == Told::Ok(lines@),
        decreases tools@.len() - index,
    {
        assert(all[index as int] == tools@[index as int]@);
        if tools[index].should_trigger(metrics) {
            match tools[index].analyze(
                outputs,
                metrics,
                instructions,
                readings,
                &shares.share(name),
            ) {
                Ok(Some(output)) => {
                    lines.push(output.text(name));
                },
                Ok(None) => {},
                Err(error) => {
                    proof {
                        lemma_guidance_refused(
                            all,
                            outputs@,
                            name@,
                            metrics@,
                            instructions@,
                            readings@,
                            shares@,
                            index as int,
                            all.len() as int,
                        );
                    }
                    return Err(error);
                },
            }
        }
        index += 1;
    }
    Ok(lines)
}

/// The lines that offer the tools.
pub open spec fn offer(tools: Seq<ToolView>, bottleneck: Seq<char>) -> Seq<Seq<char>> {
    seq![
        "\n## Available Analysis Tools"@,
        "Stage 1 bottleneck classification: **"@ + (if bottleneck.len() == 0 {
            "None"@
        } else {
            "BottleneckType."@ + outside::uppercase(bottleneck)
        }) + "**"@,
        "You may call any of the following tools to get detailed analysis:"@,
    ] + Seq::new(
        tools.len(),
        |i: int| "- **"@ + tools[i].name + "**: "@ + tools[i].description,
    )
}

fn add_offer(lines: &mut Lines, tools: &Vec<Tool>, bottleneck: &str)
    ensures
        final(lines)@ == old(lines)@ + offer(tool::tools_view(tools@), bottleneck@),
{
    let ghost before = lines@;
    let ghost all = offer(tool::tools_view(tools@), bottleneck@);
    lines.add_text("\n## Available Analysis Tools");
    let classification = if bottleneck.is_empty() {
        "None".to_owned()
    } else {
        "BottleneckType.".to_owned().concat(to_upper(bottleneck).as_str())
    };
    lines.push(
        "Stage 1 bottleneck classification: **".to_owned().concat(classification.as_str()).concat(
            "**",
        ),
    );
    lines.add_text("You may call any of the following tools to get detailed analysis:");
    let mut index: usize = 0;
    assert(lines@ =~= before + all.take(3));
    while index < tools.len()
        invariant
            index <= tools@.len(),
            before == old(lines)@,
            all == offer(tool::tools_view(tools@), bottleneck@),
            lines@ == before + all.take(3 + index),
        decreases tools@.len() - index,
    {
        lines.push(
            "- **".to_owned().concat(tools[index].name.as_str()).concat("**: ").concat(
                tools[index].description.as_str(),
            ),
        );
        index += 1;
        assert(lines@ =~= before + all.take(3 + index));
    }
    assert(all.take(3 + index) =~= all);
}

/// What a report is made with.
pub struct Kit {
    /// The registered tools by priority.
    pub all: Vec<Tool>,
    /// The tools that are used without being asked for.
    pub used: Vec<Tool>,
    pub proactive: bool,
    pub bottleneck: String,
}

/// The model of a [`Kit`].
pub struct KitView {
    pub all: Seq<ToolView>,
    pub used: Seq<ToolView>,
    pub proactive: bool,
    pub bottleneck: Seq<char>,
}

impl View for Kit {
    type V = KitView;

    open spec fn view(&self) -> KitView {
        KitView {
            all: tool::tools_view(self.all@),
            used: tool::tools_view(self.used@),
            proactive: self.proactive,
            bottleneck: self.bottleneck@,
        }
    }
}

/// `lines` and those on what the tools of the kit say or offer.
pub open spec fn with_advice(
    lines: Seq<Seq<char>>,
    kit: KitView,
    outputs: OutputsView,
    name: Seq<char>,
    metrics: JsonView,
    instructions: JsonView,
    readings: ReadingsView,
    shares: SharesView,
) -> Told {
    if !kit.proactive {
        Ok(lines + offer(kit.all, kit.bottleneck))
    } else {
        match guidance(
            kit.used,
            outputs,
            name,
            metrics,
            instructions,
            readings,
            shares,
            kit.used.len() as int,
        ) {
            Err(reason) => Err(reason),
            Ok(said) => if said.len() == 0 {
                Ok(lines)
            } else {
                Ok(
                    lines.push("\n## Automated Bottleneck Analysis"@).push(
                        pieces::joined(said, "\n"@),
                    ),
                )
            },
        }
    }
}

fn add_advice(
    lines: &mut Lines,
    kit: &Kit,
    outputs: &Outputs,
    name: &str,
    metrics: &Json,
    instructions: &Json,
    readings: &Readings,
    shares: &Shares,
) -> (result: Result<(), String>)
    requires
        numeric::complete(outputs@),
    ensures
        grown(result, *final(lines)) == with_advice(
            old(lines)@,
            kit@,
            outputs@,
            name@,
            metrics@,
            instructions@,
            readings@,
            shares@,
        ),
{
    if !kit.proactive {
        add_offer(lines, &kit.all, kit.bottleneck.as_str());
        return Ok(());
    }
    match guide(&kit.used, outputs, name, metrics, instructions, readings, shares) {
        Err(error) => Err(error),
        Ok(said) => {
            if said.count() > 0 {
                lines.add_text("\n## Automated Bottleneck Analysis");
                lines.push(said.join("\n"));
            }
            Ok(())
        },
    }
}

/// `lines` and those on a kernel that has metrics.
#[verifier::opaque]
pub open spec fn with_kernel(
    lines: Seq<Seq<char>>,
    kit: KitView,
    assets: JsonView,
    outputs: OutputsView,
    name: Seq<char>,
    metrics: JsonView,
    instructions: JsonView,
    readings: ReadingsView,
    shares: SharesView,
) -> Told {
    match with_groups(lines.push("## Kernel: "@ + name + "\n"@), assets, metrics, 6) {
        Err(reason) => Err(reason),
        Ok(lines) => match with_advice(
            lines + tensor_lines(instructions),
            kit,
            outputs,
            name,
            metrics,
            instructions,
            readings,
            shares,
        ) {
            Err(reason) => Err(reason),
            Ok(lines) => Ok(lines.push("\n"@)),
        },
    }
}

fn add_kernel(
    lines: &mut Lines,
    kit: &Kit,
    assets: &Json,
    outputs: &Outputs,
    name: &str,
    metrics: &Json,
    instructions: &Json,
    readings: &Readings,
    shares: &Shares,
) -> (result: Result<(), String>)
    requires
        numeric::complete(outputs@),
    ensures
        grown(result, *final(lines)) == with_kernel(
            old(lines)@,
            kit@,
            assets@,
            outputs@,
            name@,
            metrics@,
            instructions@,
            readings@,
            shares@,
        ),
{
    reveal(with_kernel);
    lines.push("## Kernel: ".to_owned().concat(name).concat("\n"));
    if let Err(error) = add_groups(lines, assets, metrics) {
        return Err(error);
    }
    add_tensor_lines(lines, instructions);
    if let Err(error) = add_advice(
        lines,
        kit,
        outputs,
        name,
        metrics,
        instructions,
        readings,
        shares,
    ) {
        return Err(error);
    }
    lines.add_text("\n");
    Ok(())
}

/// `lines` and those on the first `end` kernels; a kernel without metrics is passed over.
pub open spec fn with_kernels(
    lines: Seq<Seq<char>>,
    kit: KitView,
    assets: JsonView,
    outputs: OutputsView,
    report: JsonView,
    names: Seq<JsonView>,
    readings: ReadingsView,
    shares: SharesView,
    end: int,
) -> Told
    decreases end,
{
    if end <= 0 {
        Ok(lines)
    } else {
        match with_kernels(
            lines,
            kit,
            assets,
            outputs,
            report,
            names,
            readings,
            shares,
            end - 1,
        ) {
            Err(reason) => Err(reason),
            Ok(before) => match names[end - 1] {
                JsonView::Text(name) => match report.at("metrics"@).get(name) {
                    None => Ok(before),
                    Some(metrics) => with_kernel(
                        before,
                        kit,
                        assets,
                        outputs,
                        name,
                        metrics,
                        report.at("sass"@),
                        readings,
                        shares,
                    ),
                },
                _ => Err("kernel name"@),
            },
        }
    }
}

proof fn lemma_kernels_refused(
    lines: Seq<Seq<char>>,
    kit: KitView,
    assets: JsonView,
    outputs: OutputsView,
    report: JsonView,
    names: Seq<JsonView>,
    readings: ReadingsView,
    shares: SharesView,
    index: int,
    end: int,
)
    requires
        0 <= index < end,
        with_kernels(
            lines,
            kit,
            assets,
            outputs,
            report,
            names,
            readings,
            shares,
            index + 1,
        ) is Err,
    ensures
        with_kernels(lines, kit, assets, outputs, report, names, readings, shares, end)
            == with_kernels(
            lines,
            kit,
            assets,
            outputs,
            report,
            names,
            readings,
            shares,
            index + 1,
        ),
    decreases end,
{
    if end > index + 1 {
        lemma_kernels_refused(
            lines,
            kit,
            assets,
            outputs,
            report,
            names,
            readings,
            shares,
            index,
            end - 1,
        );
    }
}

fn add_kernels(
    lines: &mut Lines,
    kit: &Kit,
    assets: &Json,
    outputs: &Outputs,
    report: &Json,
    names: &Vec<Json>,
    readings: &Readings,
    shares: &Shares,
) -> (result: Result<(), String>)
    requires
        numeric::complete(outputs@),
    ensures
        grown(result, *final(lines)) == with_kernels(
            old(lines)@,
            kit@,
            assets@,
            outputs@,
            report@,
            json::items_view(names@),
            readings@,
            shares@,
            names@.len() as int,
        ),
{
    let ghost start = lines@;
    let ghost all = json::items_view(names@);
    let mut index: usize = 0;
    while index < names.len()
        invariant
            index <= names@.len(),
            all == json::items_view(names@),
            numeric::complete(outputs@),
            start == old(lines)@,
            with_kernels(
                start,
                kit@,
                assets@,
                outputs@,
                report@,
                all,
                readings@,
                shares@,
                index as int,
            ) == Told::Ok(lines@),
        decreases names@.len() - index,
    {
        assert(all[index as int] == names@[index as int]@);
        proof {
            if with_kernels(
                start,
                kit@,
                assets@,
                outputs@,
                report@,
                all,
                readings@,
                shares@,
                index + 1,
            ) is Err {
                lemma_kernels_refused(
                    start,
                    kit@,
                    assets@,
                    outputs@,
                    report@,
                    all,
                    readings@,
                    shares@,
                    index as int,
                    all.len() as int,
                );
            }
        }
        match names[index].text() {
            None => {
                return Err("kernel name".to_owned());
            },
            Some(name) => {
                if let Some(metrics) = report.at("metrics").get(name) {
                    match add_kernel(
                        lines,
                        kit,
                        assets,
                        outputs,
                        name,
                        metrics,
                        report.at("sass"),
                        readings,
                        shares,
                    ) {
                        Ok(_) => {},
                        Err(error) => {
                            return Err(error);
                        },
                    }
                }
            },
        }
        index += 1;
    }
    Ok(())
}

/// The names of tools.
pub open spec fn names_of(tools: Seq<ToolView>) -> Seq<Seq<char>> {
    Seq::new(tools.len(), |i: int| tools[i].name)
}

/// The records of tools.
pub open spec fn tool_records(tools: Seq<ToolView>) -> JsonView {
    JsonView::Array(
        Seq::new(
            tools.len(),
            |i: int|
                JsonView::Object(
                    seq![
                        ("name"@, JsonView::Text(tools[i].name)),
                        ("description"@, JsonView::Text(tools[i].description)),
                    ],
                ),
        ),
    )
}

fn names(tools: &Vec<Tool>) -> (list: Vec<String>)
    ensures
        pieces::texts(list@) == names_of(tool::tools_view(tools@)),
{
    let ghost all = names_of(tool::tools_view(tools@));
    let mut lines = Lines::new();
    let mut index: usize = 0;
    while index < tools.len()
        invariant
            index <= tools@.len(),
            all == names_of(tool::tools_view(tools@)),
            lines@ == all.take(index as int),
        decreases tools@.len() - index,
    {
        lines.add_text(tools[index].name.as_str());
        index += 1;
        assert(lines@ =~= all.take(index as int));
    }
    assert(all.take(index as int) =~= all);
    lines.list
}

fn records(tools: &Vec<Tool>) -> (made: Json)
    ensures
        made@ == tool_records(tool::tools_view(tools@)),
{
    broadcast use json::array_view;

    let ghost all = tool_records(tool::tools_view(tools@))->Array_0;
    let mut list: Vec<Json> = Vec::new();
    let mut index: usize = 0;
    while index < tools.len()
        invariant
            index <= tools@.len(),
            all == tool_records(tool::tools_view(tools@))->Array_0,
            list@.len() == index,
            forall|i: int| 0 <= i < index ==> (#[trigger] list@[i])@ == all[i],
        decreases tools@.len() - index,
    {
        let made = Fields::new().with("name", fields::text(tools[index].name.as_str())).with(
            "description",
            fields::text(tools[index].description.as_str()),
        ).object();
        assert(made@->Object_0 =~= all[index as int]->Object_0);
        list.push(made);
        index += 1;
    }
    let made = Json::Array(list);
    assert(made@->Array_0 =~= all);
    made
}

/// The profiling mode that a payload asks for.
pub open spec fn mode_of(payload: JsonView) -> Seq<char> {
    match payload.at("tool_mode"@).text() {
        Some(mode) => mode,
        None => "proactive"@,
    }
}

/// The text of a report from its lines: with the rules of the profiler before it, if there are
/// any.
pub open spec fn report_text(report: JsonView, guide: JsonView, lines: Seq<Seq<char>>) -> Result<
    Seq<char>,
    Seq<char>,
> {
    let text = pieces::joined(lines, "\n"@);
    match recommend::rules_of(report) {
        None => Ok(text),
        Some(rules) => match guide.at("rules_header"@) {
            JsonView::Text(header) => Ok(
                header + "\n"@ + pieces::joined(recommend::rule_lines(rules), "\n"@) + "\n\n"@
                    + text,
            ),
            _ => Err("rule engine header"@),
        },
    }
}

/// The report on a profile, or why there is none.
pub open spec fn analyzed(
    payload: JsonView,
    registry: Seq<ToolView>,
    outputs: OutputsView,
    assets: JsonView,
    guide: JsonView,
    readings: ReadingsView,
    shares: SharesView,
) -> Result<JsonView, Seq<char>> {
    let report = payload.at("report"@);
    let mode = mode_of(payload);
    let proactive = mode == "proactive"@;
    let bottleneck = payload.at("bottleneck"@).text_or_empty();
    if !proactive && mode != "reactive"@ {
        Err("unknown profiling mode"@)
    } else {
        match tool::selection(registry, bottleneck) {
            Err(reason) => Err(reason),
            Ok(chosen) => match report.at("kernel_names"@) {
                JsonView::Array(names) => {
                    let all = tool::by_priority(registry);
                    let kit = KitView {
                        all,
                        used: match chosen {
                            Some(tools) => tools,
                            None => all,
                        },
                        proactive,
                        bottleneck,
                    };
                    match with_kernels(
                        seq!["# GPU Profiling Metrics\n"@],
                        kit,
                        assets,
                        outputs,
                        report,
                        names,
                        readings,
                        shares,
                        names.len() as int,
                    ) {
                        Err(reason) => Err(reason),
                        Ok(lines) => match report_text(
                            report,
                            guide,
                            lines.push(
                                "\nProvide your analysis following the guidelines in the system instructions."@,
                            ),
                        ) {
                            Err(reason) => Err(reason),
                            Ok(text) => Ok(
                                JsonView::Object(
                                    seq![
                                        ("text"@, JsonView::Text(text)),
                                        (
                                            "selected_tools"@,
                                            fields::strings_view(
                                                if !proactive {
                                                    Seq::empty()
                                                } else {
                                                    names_of(
                                                        match chosen {
                                                            Some(tools) => tools,
                                                            None => registry,
                                                        },
                                                    )
                                                },
                                            ),
                                        ),
                                        (
                                            "tools"@,
                                            if proactive {
                                                JsonView::Array(Seq::empty())
                                            } else {
                                                tool_records(all)
                                            },
                                        ),
                                    ],
                                ),
                            ),
                        },
                    }
                },
                _ => Err("kernel names"@),
            },
        }
    }
}

fn finish_text(report: &Json, guide: &Json, lines: &Lines) -> (result: Result<String, String>)
    ensures
        match result {
            Ok(text) => report_text(report@, guide@, lines@) == Ok::<Seq<char>, Seq<char>>(text@),
            Err(error) => report_text(report@, guide@, lines@) == Err::<Seq<char>, Seq<char>>(
                error@,
            ),
        },
{
    let text = lines.join("\n");
    match ranked(report) {
        None => Ok(text),
        Some(list) => match guide.at("rules_header").text() {
            Some(header) => Ok(
                header.to_owned().concat("\n").concat(list.as_str()).concat("\n\n").concat(
                    text.as_str(),
                ),
            ),
            None => Err("rule engine header".to_owned()),
        },
    }
}

/// The tools of a kit and the names of those that were selected.
fn assemble(registry: &Vec<Tool>, proactive: bool, bottleneck: &str) -> (result: Result<
    (Kit, Vec<String>),
    String,
>)
    ensures
        match result {
            Ok((kit, selected)) => {
                let all = tool::tools_view(registry@);
                &&& tool::selection(all, bottleneck@) is Ok
                &&& kit@ == (KitView {
                    all: tool::by_priority(all),
                    used: match tool::selection(all, bottleneck@)->Ok_0 {
                        Some(tools) => tools,
                        None => tool::by_priority(all),
                    },
                    proactive,
                    bottleneck: bottleneck@,
                })
                &&& pieces::texts(selected@) == names_of(
                    match tool::selection(all, bottleneck@)->Ok_0 {
                        Some(tools) => tools,
                        None => all,
                    },
                )
            },
            Err(error) => tool::selection(tool::tools_view(registry@), bottleneck@) == Err::<
                Option<Seq<ToolView>>,
                Seq<char>,
            >(error@),
        },
{
    let all = prioritized(registry);
    match selected(registry, bottleneck) {
        Err(error) => Err(error),
        Ok(Some(tools)) => {
            let list = names(&tools);
            Ok((Kit { all, used: tools, proactive, bottleneck: bottleneck.to_owned() }, list))
        },
        Ok(None) => {
            let list = names(registry);
            let used = prioritized(registry);
            Ok((Kit { all, used, proactive, bottleneck: bottleneck.to_owned() }, list))
        },
    }
}

/// Reports on a profile: the metrics of each kernel, and what the tools find in it or that they
/// can be called.
pub fn analyze(
    payload: &Json,
    registry: &Vec<Tool>,
    outputs: &Outputs,
    assets: &Json,
    guide: &Json,
    readings: &Readings,
    shares: &Shares,
) -> (result: Result<Json, String>)
    requires
        numeric::complete(outputs@),
    ensures
        match result {
            Ok(made) => analyzed(
                payload@,
                tool::tools_view(registry@),
                outputs@,
                assets@,
                guide@,
                readings@,
                shares@,
            ) == Ok::<JsonView, Seq<char>>(made@),
            Err(error) => analyzed(
                payload@,
                tool::tools_view(registry@),
                outputs@,
                assets@,
                guide@,
                readings@,
                shares@,
            ) == Err::<JsonView, Seq<char>>(error@),
        },
{
    let report = payload.at("report");
    let mode = match payload.at("tool_mode").text() {
        Some(mode) => mode,
        None => "proactive",
    };
    let proactive = same(mode, "proactive");
    if !proactive && !same(mode, "reactive") {
        return Err("unknown profiling mode".to_owned());
    }
    let (kit, chosen) = match assemble(
        registry,
        proactive,
        payload.at("bottleneck").text_or_empty(),
    ) {
        Ok(made) => made,
        Err(error) => {
            return Err(error);
        },
    };
    let kernels = match report.at("kernel_names").items() {
        Some(kernels) => kernels,
        None => {
            return Err("kernel names".to_owned());
        },
    };
    let mut lines = Lines::new();
    lines.add_text("# GPU Profiling Metrics\n");
    assert(lines@ =~= seq!["# GPU Profiling Metrics\n"@]);
    if let Err(error) = add_kernels(
        &mut lines,
        &kit,
        assets,
        outputs,
        report,
        kernels,
        readings,
        shares,
    ) {
        return Err(error);
    }
    lines.add_text("\nProvide your analysis following the guidelines in the system instructions.");
    let text = match finish_text(report, guide, &lines) {
        Ok(text) => text,
        Err(error) => {
            return Err(error);
        },
    };
    let none: Vec<String> = Vec::new();
    let no_tools: Vec<Tool> = Vec::new();
    proof {
        assert(pieces::texts(none@) =~= Seq::<Seq<char>>::empty());
        assert(tool_records(tool::tools_view(no_tools@))->Array_0 =~= Seq::<JsonView>::empty());
    }
    let selected_tools = if proactive {
        fields::strings(&chosen)
    } else {
        fields::strings(&none)
    };
    let offered = if proactive {
        records(&no_tools)
    } else {
        records(&kit.all)
    };
    let ghost wanted = seq![
        ("text"@, JsonView::Text(text@)),
        ("selected_tools"@, selected_tools@),
        ("tools"@, offered@),
    ];
    let made = Fields::new().with("text", Json::Text(text)).with(
        "selected_tools",
        selected_tools,
    ).with("tools", offered).object();
    proof {
        assert(made@->Object_0 =~= wanted);
        let whole = analyzed(
            payload@,
            tool::tools_view(registry@),
            outputs@,
            assets@,
            guide@,
            readings@,
            shares@,
        );
        assert(whole is Ok);
        assert(whole->Ok_0->Object_0 =~= wanted);
    }
    Ok(made)
}

} // verus!
