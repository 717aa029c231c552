//! Calling a tool on the kernels of a report.
use crate::analyzers::numeric;
use crate::analyzers::numeric::{analyze, Found};
use crate::analyzers::output::{Output, Outputs, OutputsView};
use crate::analyzers::sass;
use crate::analyzers::sass::{spills, tensor, Share, ShareView, Shares, SharesView};
use crate::analyzers::tool;
use crate::analyzers::tool::{Tool, ToolView};
use crate::fields::Fields;
use crate::json;
use crate::json::{FieldView, Json, JsonView};
use crate::lines::Lines;
use crate::number::{Readings, ReadingsView};
use crate::pieces;
use crate::text::same;
use vstd::prelude::*;

verus! {

/// What a tool finds in a kernel.
#[verifier::opaque]
pub open spec fn tool_found(
    name: Seq<char>,
    outputs: OutputsView,
    metrics: JsonView,
    instructions: JsonView,
    readings: ReadingsView,
    share: ShareView,
) -> Found {
    if name == "wgmma_instruction_detector"@ {
        sass::tensor_found(outputs, instructions)
    } else if name == "register_spill_detector"@ {
        sass::spills_found(outputs, metrics, instructions, share)
    } else {
        numeric::analysis(name, outputs, metrics, readings)
    }
}

impl Tool {
    /// Looks at a kernel: its metrics and its instructions.
    pub fn analyze(
        &self,
        outputs: &Outputs,
        metrics: &Json,
        instructions: &Json,
        readings: &Readings,
        share: &Share,
    ) -> (result: Result<Option<Output>, String>)
        requires
            numeric::complete(outputs@),
        ensures
            numeric::found_view(result) == tool_found(
                self@.name,
                outputs@,
                metrics@,
                instructions@,
                readings@,
                share@,
            ),
    {
        reveal(tool_found);
        if same(self.name.as_str(), "wgmma_instruction_detector") {
            tensor(outputs, instructions)
        } else if same(self.name.as_str(), "register_spill_detector") {
            spills(outputs, metrics, instructions, share)
        } else {
            analyze(self.name.as_str(), outputs, metrics, readings)
        }
    }
}

/// The place of the first tool from `from` on that `name` names.
pub open spec fn named(registry: Seq<ToolView>, name: JsonView, from: int) -> Option<int>
    decreases registry.len() - from,
{
    if from < 0 || from >= registry.len() {
        None
    } else if name == JsonView::Text(registry[from].name) {
        Some(from)
    } else {
        named(registry, name, from + 1)
    }
}

fn find_tool(registry: &Vec<Tool>, name: &Json) -> (found: Option<usize>)
    ensures
        match found {
            Some(index) => named(tool::tools_view(registry@), name@, 0) == Some(index as int) && index
                < registry@.len(),
            None => named(tool::tools_view(registry@), name@, 0) is None,
        },
{
    let ghost all = tool::tools_view(registry@);
    let mut index: usize = 0;
    while index < registry.len()
        invariant
            index <= registry@.len(),
            all == tool::tools_view(registry@),
            named(all, name@, 0) == named(all, name@, index as int),
        decreases registry@.len() - index,
    {
        assert(all[index as int] == registry@[index as int]@);
        if name.is_text(registry[index].name.as_str()) {
            return Some(index);
        }
        index += 1;
    }
    None
}

/// What is said of a kernel.
pub open spec fn kernel_said(
    tool: ToolView,
    outputs: OutputsView,
    name: Seq<char>,
    metrics: JsonView,
    instructions: JsonView,
    readings: ReadingsView,
    shares: SharesView,
) -> Result<Seq<char>, Seq<char>> {
    if !tool.triggers(metrics) {
        Ok("["@ + tool.name + "] Kernel `"@ + name + "`: not triggered (thresholds not met)"@)
    } else {
        match tool_found(
            tool.name,
            outputs,
            metrics,
            instructions,
            readings,
            sass::share_of(shares, name, 0),
        ) {
            Err(reason) => Err(reason),
            Ok(Some(output)) => Ok(output.text(name)),
            Ok(None) => Ok(
                "["@ + tool.name + "] Kernel `"@ + name + "`: analyzed but no issue detected"@,
            ),
        }
    }
}

fn say_of_kernel(
    tool: &Tool,
    outputs: &Outputs,
    name: &str,
    metrics: &Json,
    instructions: &Json,
    readings: &Readings,
    shares: &Shares,
) -> (result: Result<String, String>)
    requires
        numeric::complete(outputs@),
    ensures
        match result {
            Ok(said) => kernel_said(
                tool@,
                outputs@,
                name@,
                metrics@,
                instructions@,
                readings@,
                shares@,
            ) == Ok::<Seq<char>, Seq<char>>(said@),
            Err(error) => kernel_said(
                tool@,
                outputs@,
                name@,
                metrics@,
                instructions@,
                readings@,
                shares@,
            ) == Err::<Seq<char>, Seq<char>>(error@),
        },
{
    if !tool.should_trigger(metrics) {
        return Ok(
            "[".to_owned().concat(tool.name.as_str()).concat("] Kernel `").concat(name).concat(
                "`: not triggered (thresholds not met)",
            ),
        );
    }
    match tool.analyze(outputs, metrics, instructions, readings, &shares.share(name)) {
        Err(error) => Err(error),
        Ok(Some(output)) => Ok(output.text(name)),
        Ok(None) => Ok(
            "[".to_owned().concat(tool.name.as_str()).concat("] Kernel `").concat(name).concat(
                "`: analyzed but no issue detected",
            ),
        ),
    }
}

/// What is said of the first `end` kernels.
pub open spec fn all_said(
    tool: ToolView,
    outputs: OutputsView,
    kernels: Seq<FieldView>,
    instructions: JsonView,
    readings: ReadingsView,
    shares: SharesView,
    end: int,
) -> Result<Seq<Seq<char>>, Seq<char>>
    decreases end,
{
    if end <= 0 {
        Ok(Seq::empty())
    } else {
        match all_said(tool, outputs, kernels, instructions, readings, shares, end - 1) {
            Err(reason) => Err(reason),
            Ok(before) => match kernel_said(
                tool,
                outputs,
                kernels[end - 1].0,
                kernels[end - 1].1,
                instructions,
                readings,
                shares,
            ) {
                Err(reason) => Err(reason),
                Ok(said) => Ok(before.push(said)),
            },
        }
    }
}

proof fn lemma_said_refused(
    tool: ToolView,
    outputs: OutputsView,
    kernels: Seq<FieldView>,
    instructions: JsonView,
    readings: ReadingsView,
    shares: SharesView,
    index: int,
    end: int,
)
    requires
        0 <= index < end,
        all_said(tool, outputs, kernels, instructions, readings, shares, index + 1) is Err,
    ensures
        all_said(tool, outputs, kernels, instructions, readings, shares, end) == all_said(
            tool,
            outputs,
            kernels,
            instructions,
            readings,
            shares,
            index + 1,
        ),
    decreases end,
{
    if end > index + 1 {
        lemma_said_refused(tool, outputs, kernels, instructions, readings, shares, index, end - 1);
    }
}

fn say_all(
    tool: &Tool,
    outputs: &Outputs,
    kernels: &Vec<(String, Json)>,
    instructions: &Json,
    readings: &Readings,
    shares: &Shares,
) -> (result: Result<Lines, String>)
    requires
        numeric::complete(outputs@),
    ensures
        match result {
            Ok(said) => all_said(
                tool@,
                outputs@,
                json::fields_view(kernels@),
                instructions@,
                readings@,
                shares@,
                kernels@.len() as int,
            ) == Ok::<Seq<Seq<char>>, Seq<char>>(said@),
            Err(error) => all_said(
                tool@,
                outputs@,
                json::fields_view(kernels@),
                instructions@,
                readings@,
                shares@,
                kernels@.len() as int,
            ) == Err::<Seq<Seq<char>>, Seq<char>>(error@),
        },
{
    let ghost all = json::fields_view(kernels@);
    let mut said = Lines::new();
    let mut index: usize = 0;
    while index < kernels.len()
        invariant
            index <= kernels@.len(),
            all == json::fields_view(kernels@),
            numeric::complete(outputs@),
            all_said(tool@, outputs@, all, instructions@, readings@, shares@, index as int) == Ok::<
                Seq<Seq<char>>,
                Seq<char>,
            >(said@),
        decreases kernels@.len() - index,
    {
        assert(all[index as int] == (kernels@[index as int].0@, kernels@[index as int].1@));
        match say_of_kernel(
            tool,
            outputs,
            kernels[index].0.as_str(),
            &kernels[index].1,
            instructions,
            readings,
            shares,
        ) {
            Ok(line) => {
                said.push(line);
            },
            Err(error) => {
                proof {
                    lemma_said_refused(
                        tool@,
                        outputs@,
                        all,
                        instructions@,
                        readings@,
                        shares@,
                        index as int,
                        all.len() as int,
                    );
                }
                return Err(error);
            },
        }
        index += 1;
    }
    Ok(said)
}

/// What a tool says of a report, or why it says nothing.
pub open spec fn invoked(
    payload: JsonView,
    registry: Seq<ToolView>,
    outputs: OutputsView,
    readings: ReadingsView,
    shares: SharesView,
) -> Result<JsonView, Seq<char>> {
    match named(registry, payload.at("name"@), 0) {
        None => Err("unsupported or deferred analyzer"@),
        Some(index) => match payload.at("report"@).at("metrics"@) {
            JsonView::Object(kernels) => match all_said(
                registry[index],
                outputs,
                kernels,
                payload.at("report"@).at("sass"@),
                readings,
                shares,
                kernels.len() as int,
            ) {
                Err(reason) => Err(reason),
                Ok(said) => Ok(
                    JsonView::Object(
                        seq![
                            (
                                "text"@,
                                JsonView::Text(
                                    if said.len() == 0 {
                                        "["@ + registry[index].name + "] No kernels to analyze"@
                                    } else {
                                        pieces::joined(said, "\n"@)
                                    },
                                ),
                            ),
                        ],
                    ),
                ),
            },
            _ => Err("report metrics"@),
        },
    }
}

/// Calls the tool that the payload names on every kernel of its report.
pub fn invoke(
    payload: &Json,
    registry: &Vec<Tool>,
    outputs: &Outputs,
    readings: &Readings,
    shares: &Shares,
) -> (result: Result<Json, String>)
    requires
        numeric::complete(outputs@),
    ensures
        match result {
            Ok(made) => invoked(
                payload@,
                tool::tools_view(registry@),
                outputs@,
                readings@,
                shares@,
            ) == Ok::<JsonView, Seq<char>>(made@),
            Err(error) => invoked(
                payload@,
                tool::tools_view(registry@),
                outputs@,
                readings@,
                shares@,
            ) == Err::<JsonView, Seq<char>>(error@),
        },
{
    broadcast use json::object_view;

    let tool = match find_tool(registry, payload.at("name")) {
        Some(index) => &registry[index],
        None => {
            return Err("unsupported or deferred analyzer".to_owned());
        },
    };
    let report = payload.at("report");
    let kernels = match report.at("metrics") {
        Json::Object(kernels) => kernels,
        _ => {
            return Err("report metrics".to_owned());
        },
    };
    let said = match say_all(tool, outputs, kernels, report.at("sass"), readings, shares) {
        Ok(said) => said,
        Err(error) => {
            return Err(error);
        },
    };
    let text = if said.count() == 0 {
        "[".to_owned().concat(tool.name.as_str()).concat("] No kernels to analyze")
    } else {
        said.join("\n")
    };
    let made = Fields::new().with("text", Json::Text(text)).object();
    assert(made@->Object_0 =~= seq![("text"@, JsonView::Text(text@))]);
    Ok(made)
}

proof fn lemma_empty_listing(
    tool: ToolView,
    outputs: OutputsView,
    kernels: Seq<FieldView>,
    readings: ReadingsView,
    shares: SharesView,
    end: int,
)
    ensures
        all_said(
            tool,
            outputs,
            kernels,
            JsonView::Object(Seq::empty()),
            readings,
            shares,
            end,
        ) == all_said(tool, outputs, kernels, JsonView::Null, readings, shares, end),
        tool.name == "wgmma_instruction_detector"@ || tool.name == "register_spill_detector"@
            ==> all_said(tool, outputs, kernels, JsonView::Null, readings, shares, end) is Ok,
    decreases end,
{
    reveal(tool_found);
    if end > 0 {
        lemma_empty_listing(tool, outputs, kernels, readings, shares, end - 1);
    }
}

proof fn lemma_named(registry: Seq<ToolView>, name: JsonView, from: int)
    ensures
        named(registry, name, from) matches Some(index) ==> name == JsonView::Text(
            registry[index].name,
        ),
    decreases registry.len() - from,
{
    if 0 <= from < registry.len() && name != JsonView::Text(registry[from].name) {
        lemma_named(registry, name, from + 1);
    }
}

/// Of a report without instructions a tool says the same whether they are absent or an empty
/// record; and the tools that look at instructions then say something of every report with metrics.
pub proof fn empty_listing_is_absent(
    empty: JsonView,
    absent: JsonView,
    registry: Seq<ToolView>,
    outputs: OutputsView,
    readings: ReadingsView,
    shares: SharesView,
)
    requires
        empty.at("name"@) == absent.at("name"@),
        empty.at("report"@).at("metrics"@) == absent.at("report"@).at("metrics"@),
        empty.at("report"@).at("sass"@) == JsonView::Object(Seq::empty()),
        absent.at("report"@).at("sass"@) == JsonView::Null,
    ensures
        invoked(empty, registry, outputs, readings, shares) == invoked(
            absent,
            registry,
            outputs,
            readings,
            shares,
        ),
        (empty.at("name"@) == JsonView::Text("wgmma_instruction_detector"@) || empty.at("name"@)
            == JsonView::Text("register_spill_detector"@)) && named(
            registry,
            empty.at("name"@),
            0,
        ) is Some && empty.at("report"@).at("metrics"@) is Object ==> invoked(
            empty,
            registry,
            outputs,
            readings,
            shares,
        ) is Ok,
{
    lemma_named(registry, empty.at("name"@), 0);
    if let Some(index) = named(registry, empty.at("name"@), 0) {
        if let JsonView::Object(kernels) = empty.at("report"@).at("metrics"@) {
            lemma_empty_listing(
                registry[index],
                outputs,
                kernels,
                readings,
                shares,
                kernels.len() as int,
            );
        }
    }
}

} // verus!
