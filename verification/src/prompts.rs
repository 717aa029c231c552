//! The instructions for the roles.
use crate::fields;
use crate::fields::Fields;
use crate::json;
use crate::json::{FieldView, Json, JsonView};
use crate::lines::Lines;
use crate::numeral;
use crate::numeral::numeral;
use crate::outside;
use crate::outside::to_lower;
use crate::pieces;
use crate::pieces::replace;
use crate::template;
use crate::template::{render, Template, TemplateView, Values, ValuesView};
use crate::text;
use crate::text::{contains, one_of, same};
use vstd::prelude::*;

verus! {

/// A text, or why there is none.
pub type Told = Result<Seq<char>, Seq<char>>;

/// The prompt of a name.
pub open spec fn asset_text(assets: JsonView, name: Seq<char>) -> Told {
    match assets.at(name) {
        JsonView::Text(text) => Ok(text),
        _ => Err("missing prompt "@ + name),
    }
}

/// The prompt of a name.
pub fn asset<'a>(assets: &'a Json, name: &str) -> (result: Result<&'a str, String>)
    ensures
        match result {
            Ok(text) => asset_text(assets@, name@) == Told::Ok(text@),
            Err(error) => asset_text(assets@, name@) == Told::Err(error@),
        },
{
    match assets.at(name).text() {
        Some(text) => Ok(text),
        None => Err("missing prompt ".to_owned().concat(name)),
    }
}

/// A section of the instructions: the name of its prompt, and whether it can be left out.
pub type Section = (Seq<char>, bool);

/// The sections of a candidate's instructions.
pub open spec fn sections(mode: Seq<char>, baseline: Seq<char>) -> Seq<Section> {
    let initial = mode == "initial"@;
    seq![("mode_instructions/"@ + mode + ".txt"@, false)] + (if initial {
        seq![
            ("dataset_formats/kernelbench_"@ + baseline + ".txt"@, false),
            ("mode_instructions/initial_requirements.txt"@, false),
        ]
    } else {
        Seq::empty()
    }) + (if mode == "optimize"@ {
        seq![("base/optimization_strategies.txt"@, false)]
    } else {
        Seq::empty()
    }) + seq![("base/cutlass_setup.txt"@, false)] + (if initial || mode == "repair"@ {
        seq![("base/common_pitfalls.txt"@, false)]
    } else {
        Seq::empty()
    }) + seq![("base/pytorch_integration.txt"@, false)] + (if initial {
        seq![("examples/kernelbench_"@ + baseline + "_example.txt"@, true)]
    } else {
        Seq::empty()
    }) + seq![("base/output_format.txt"@, false)]
}

/// The prompts of the first `end` sections.
pub open spec fn gathered(assets: JsonView, list: Seq<Section>, end: int) -> Result<
    Seq<Seq<char>>,
    Seq<char>,
>
    decreases end,
{
    if end <= 0 {
        Ok(Seq::empty())
    } else {
        match gathered(assets, list, end - 1) {
            Err(reason) => Err(reason),
            Ok(before) => match asset_text(assets, list[end - 1].0) {
                Ok(text) => Ok(before.push(text)),
                Err(reason) => if list[end - 1].1 {
                    Ok(before)
                } else {
                    Err(reason)
                },
            },
        }
    }
}

/// The model of sections.
pub open spec fn sections_view(list: Seq<(String, bool)>) -> Seq<Section> {
    Seq::new(list.len(), |i: int| (list[i].0@, list[i].1))
}

/// The sections of a candidate's instructions.
fn list_sections(mode: &str, baseline: &str) -> (list: Vec<(String, bool)>)
    ensures
        sections_view(list@) == sections(mode@, baseline@),
{
    let initial = same(mode, "initial");
    let mut list: Vec<(String, bool)> = Vec::new();
    list.push(("mode_instructions/".to_owned().concat(mode).concat(".txt"), false));
    if initial {
        list.push(("dataset_formats/kernelbench_".to_owned().concat(baseline).concat(".txt"), false));
        list.push(("mode_instructions/initial_requirements.txt".to_owned(), false));
    }
    if same(mode, "optimize") {
        list.push(("base/optimization_strategies.txt".to_owned(), false));
    }
    list.push(("base/cutlass_setup.txt".to_owned(), false));
    if initial || same(mode, "repair") {
        list.push(("base/common_pitfalls.txt".to_owned(), false));
    }
    list.push(("base/pytorch_integration.txt".to_owned(), false));
    if initial {
        list.push(
            ("examples/kernelbench_".to_owned().concat(baseline).concat("_example.txt"), true),
        );
    }
    list.push(("base/output_format.txt".to_owned(), false));
    assert(sections_view(list@) =~= sections(mode@, baseline@));
    list
}

proof fn lemma_gathered_refused(assets: JsonView, list: Seq<Section>, index: int, end: int)
    requires
        0 <= index < end,
        gathered(assets, list, index + 1) is Err,
    ensures
        gathered(assets, list, end) == gathered(assets, list, index + 1),
    decreases end,
{
    if end > index + 1 {
        lemma_gathered_refused(assets, list, index, end - 1);
    }
}

fn gather(assets: &Json, list: &Vec<(String, bool)>) -> (result: Result<Lines, String>)
    ensures
        match result {
            Ok(lines) => gathered(assets@, sections_view(list@), list@.len() as int) == Ok::<
                Seq<Seq<char>>,
                Seq<char>,
            >(lines@),
            Err(error) => gathered(assets@, sections_view(list@), list@.len() as int) == Err::<
                Seq<Seq<char>>,
                Seq<char>,
            >(error@),
        },
{
    let ghost all = sections_view(list@);
    let mut lines = Lines::new();
    let mut index: usize = 0;
    while index < list.len()
        invariant
            index <= list@.len(),
            all == sections_view(list@),
            gathered(assets@, all, index as int) == Ok::<Seq<Seq<char>>, Seq<char>>(lines@),
        decreases list@.len() - index,
    {
        assert(all[index as int] == (list@[index as int].0@, list@[index as int].1));
        match asset(assets, list[index].0.as_str()) {
            Ok(text) => {
                lines.add_text(text);
            },
            Err(error) => {
                if !list[index].1 {
                    proof {
                        lemma_gathered_refused(assets@, all, index as int, all.len() as int);
                    }
                    return Err(error);
                }
            },
        }
        index += 1;
    }
    Ok(lines)
}

/// What stands in the place of the output format.
pub open spec fn answer_format() -> Seq<char> {
    "Return exactly one JSON CodeCompletion object with code, approach, and confidence. No completions wrapper or markdown fences."@
}

/// The part on a GPU's own features.
pub open spec fn gpu_info(assets: JsonView, capability: Seq<u64>) -> Told {
    if capability.len() == 2 && capability[0] == 9 {
        asset_text(assets, "hopper"@)
    } else {
        Ok(""@)
    }
}

/// A candidate's instructions.
pub open spec fn instructions(
    assets: JsonView,
    mode: Seq<char>,
    baseline: Seq<char>,
    cutlass: Option<Seq<char>>,
    capability: Seq<u64>,
) -> Told {
    if mode != "initial"@ && mode != "repair"@ && mode != "optimize"@ {
        Err("invalid candidate mode"@)
    } else if baseline != "pytorch"@ && baseline != "triton"@ {
        Err("invalid baseline"@)
    } else {
        let list = sections(mode, baseline);
        let root = match cutlass {
            Some(root) => if root.len() > 0 {
                root
            } else {
                "/path/to/cutlass"@
            },
            None => "/path/to/cutlass"@,
        };
        match gathered(assets, list, list.len() as int) {
            Err(reason) => Err(reason),
            Ok(texts) => match gpu_info(assets, capability) {
                Err(reason) => Err(reason),
                Ok(gpu) => match asset_text(assets, "base/output_format.txt"@) {
                    Err(reason) => Err(reason),
                    Ok(format) => Ok(
                        pieces::replaced(
                            pieces::replaced(
                                pieces::replaced(
                                    pieces::joined(texts, "\n\n"@),
                                    "{{CUTLASS_ROOT}}"@,
                                    root,
                                ),
                                "{{GPU_SPECIFIC_CUTLASS_INFO}}"@,
                                gpu,
                            ),
                            format,
                            answer_format(),
                        ),
                    ),
                },
            },
        }
    }
}

/// A candidate's instructions in a mode, for a baseline and a GPU.
pub fn candidate(
    assets: &Json,
    mode: &str,
    baseline: &str,
    cutlass: Option<&str>,
    capability: &Vec<u64>,
) -> (result: Result<String, String>)
    ensures
        pieces::told(result) == instructions(
            assets@,
            mode@,
            baseline@,
            match cutlass {
                Some(root) => Some(root@),
                None => None,
            },
            capability@,
        ),
{
    if !one_of(mode, &["initial", "repair", "optimize"]) {
        return Err("invalid candidate mode".to_owned());
    }
    if !one_of(baseline, &["pytorch", "triton"]) {
        return Err("invalid baseline".to_owned());
    }
    let list = list_sections(mode, baseline);
    assert(sections_view(list@).len() == list@.len());
    let texts = match gather(assets, &list) {
        Ok(texts) => texts,
        Err(error) => {
            return Err(error);
        },
    };
    let gpu = if capability.len() == 2 && capability[0] == 9 {
        match asset(assets, "hopper") {
            Ok(text) => text,
            Err(error) => {
                return Err(error);
            },
        }
    } else {
        ""
    };
    let format = match asset(assets, "base/output_format.txt") {
        Ok(format) => format,
        Err(error) => {
            return Err(error);
        },
    };
    let root = match cutlass {
        Some(root) => if root.is_empty() {
            "/path/to/cutlass"
        } else {
            root
        },
        None => "/path/to/cutlass",
    };
    let text = texts.join("\n\n");
    let text = replace(text.as_str(), "{{CUTLASS_ROOT}}", root);
    let text = replace(text.as_str(), "{{GPU_SPECIFIC_CUTLASS_INFO}}", gpu);
    Ok(
        replace(
            text.as_str(),
            format,
            "Return exactly one JSON CodeCompletion object with code, approach, and confidence. No completions wrapper or markdown fences.",
        ),
    )
}

/// The hardware whose limits a reference is classified by.
#[derive(Clone, Copy, Debug, PartialEq, Eq, Structural)]
pub enum Hardware {
    Simulated,
    B200,
    H100,
    H200,
}

/// The hardware for a backend and a device's name.
pub open spec fn hardware_of(backend: JsonView, name: JsonView) -> Hardware {
    if backend == JsonView::Text("simulated"@) {
        Hardware::Simulated
    } else if name == JsonView::Text("NVIDIA B200"@) {
        Hardware::B200
    } else if name == JsonView::Text("NVIDIA H100 80GB HBM3"@) {
        Hardware::H100
    } else {
        Hardware::H200
    }
}

impl Hardware {
    /// The hardware for a backend and a device's name.
    pub fn of(backend: &Json, name: &Json) -> (hardware: Self)
        ensures
            hardware == hardware_of(backend@, name@),
    {
        if backend.is_text("simulated") {
            Hardware::Simulated
        } else if name.is_text("NVIDIA B200") {
            Hardware::B200
        } else if name.is_text("NVIDIA H100 80GB HBM3") {
            Hardware::H100
        } else {
            Hardware::H200
        }
    }

    /// How the hardware is called.
    pub open spec fn title(self) -> Seq<char> {
        match self {
            Hardware::Simulated => "NVIDIA H200 (simulated)"@,
            Hardware::B200 => "NVIDIA B200"@,
            Hardware::H100 => "NVIDIA H100 80GB HBM3"@,
            Hardware::H200 => "NVIDIA H200"@,
        }
    }

    /// How the hardware is called.
    pub fn name(self) -> (name: &'static str)
        ensures
            name@ == self.title(),
    {
        match self {
            Hardware::Simulated => "NVIDIA H200 (simulated)",
            Hardware::B200 => "NVIDIA B200",
            Hardware::H100 => "NVIDIA H100 80GB HBM3",
            Hardware::H200 => "NVIDIA H200",
        }
    }

    /// The peak throughput and the memory bandwidth, in units whose quotient is the arithmetic
    /// intensity at the ridge of the roofline.
    pub open spec fn limits(self) -> (nat, nat) {
        match self {
            Hardware::Simulated => (412, 1),
            Hardware::B200 => (450000, 800),
            Hardware::H100 => (197900, 335),
            Hardware::H200 => (197900, 480),
        }
    }

    /// The peak throughput and the memory bandwidth.
    pub fn peak_and_bandwidth(self) -> (found: (u64, u64))
        ensures
            (found.0 as nat, found.1 as nat) == self.limits(),
            found.0 <= 450000,
            0 < found.1 <= 800,
    {
        match self {
            Hardware::Simulated => (412, 1),
            Hardware::B200 => (450000, 800),
            Hardware::H100 => (197900, 335),
            Hardware::H200 => (197900, 480),
        }
    }
}

/// A quotient without decimal places: the nearest integer, and of two the even one.
pub open spec fn rounded(dividend: nat, divisor: nat) -> nat
    recommends
        divisor > 0,
{
    let whole = dividend / divisor;
    let twice = 2 * (dividend % divisor);
    if twice > divisor || (twice == divisor && whole % 2 == 1) {
        whole + 1
    } else {
        whole
    }
}

/// A quotient without decimal places: the nearest integer, and of two the even one.
pub fn round(dividend: u64, divisor: u64) -> (quotient: u64)
    requires
        0 < divisor <= u64::MAX / 2,
        dividend < u64::MAX,
    ensures
        quotient == rounded(dividend as nat, divisor as nat),
{
    let whole: u64 = dividend / divisor;
    let twice: u64 = 2 * (dividend % divisor);
    if twice > divisor || (twice == divisor && whole % 2 == 1) {
        whole + 1
    } else {
        whole
    }
}

/// The values for the instructions of the classifier: the ridge of the roofline, which is the peak
/// throughput by the memory bandwidth, four times that, and a quarter of it.
pub open spec fn reference_values(hardware: Hardware) -> ValuesView {
    let (peak, bandwidth) = hardware.limits();
    seq![
        ("gpu_name"@, hardware.title()),
        ("ridge"@, numeral::decimal(rounded(peak, bandwidth))),
        ("compute"@, numeral::decimal(rounded(4 * peak, bandwidth))),
        ("memory"@, numeral::decimal(rounded(peak, 4 * bandwidth))),
    ]
}

/// The instructions of the classifier.
pub open spec fn reference_told(
    assets: JsonView,
    template: Result<TemplateView, Seq<char>>,
    hardware: Hardware,
) -> Told {
    match asset_text(assets, "reference"@) {
        Err(reason) => Err(reason),
        Ok(_) => template::rendered(
            template,
            reference_values(hardware),
            "missing template value "@,
        ),
    }
}

/// The instructions of the classifier, where `template` is its prompt.
pub fn reference(
    assets: &Json,
    template: &Result<Template, String>,
    hardware: Hardware,
) -> (result: Result<String, String>)
    ensures
        pieces::told(result) == reference_told(assets@, template::parsed(*template), hardware),
{
    if let Err(error) = asset(assets, "reference") {
        return Err(error);
    }
    let (peak, bandwidth) = hardware.peak_and_bandwidth();
    let ridge = numeral(round(peak, bandwidth) as u128);
    let compute = numeral(round(4 * peak, bandwidth) as u128);
    let memory = numeral(round(peak, 4 * bandwidth) as u128);
    let values = Values::new().with("gpu_name", hardware.name().to_owned()).with(
        "ridge",
        ridge,
    ).with("compute", compute).with("memory", memory);
    assert(values@ =~= reference_values(hardware));
    render(template, &values, "missing template value ")
}

/// The baseline of a task, by its name in small letters.
pub open spec fn baseline_of(lower: Seq<char>) -> Seq<char> {
    if text::holds(lower, "_triton"@) {
        "triton"@
    } else {
        "pytorch"@
    }
}

/// The baseline of a task, by its name in small letters.
pub fn baseline(lower: &str) -> (name: &'static str)
    ensures
        name@ == baseline_of(lower@),
{
    if contains(lower, "_triton") {
        "triton"
    } else {
        "pytorch"
    }
}

/// The natural numbers among the first `end` items.
pub open spec fn naturals_among(items: Seq<JsonView>, end: int) -> Seq<u64>
    decreases end,
{
    if end <= 0 {
        Seq::empty()
    } else {
        match items[end - 1].natural() {
            Some(value) => naturals_among(items, end - 1).push(value),
            None => naturals_among(items, end - 1),
        }
    }
}

/// The natural numbers of an array; none of any other value.
pub open spec fn naturals_of(value: JsonView) -> Seq<u64> {
    match value {
        JsonView::Array(items) => naturals_among(items, items.len() as int),
        _ => Seq::empty(),
    }
}

fn naturals(value: &Json) -> (list: Vec<u64>)
    ensures
        list@ == naturals_of(value@),
{
    let mut list: Vec<u64> = Vec::new();
    if let Some(items) = value.items() {
        let ghost all = json::items_view(items@);
        let mut index: usize = 0;
        while index < items.len()
            invariant
                index <= items@.len(),
                all == json::items_view(items@),
                list@ == naturals_among(all, index as int),
            decreases items@.len() - index,
        {
            assert(all[index as int] == items@[index as int]@);
            if let Some(value) = items[index].natural() {
                list.push(value);
            }
            index += 1;
        }
    }
    list
}

/// What a problem is filled in with.
pub open spec fn prompts_of(
    problem: JsonView,
    payload: JsonView,
    metadata: JsonView,
    assets: JsonView,
    template: Result<TemplateView, Seq<char>>,
    schemas: JsonView,
) -> Result<Seq<FieldView>, Seq<char>> {
    let base = baseline_of(outside::lowercase(problem.at("task_id"@).text_or_empty()));
    let capability = naturals_of(metadata.at("capability"@));
    let cutlass = payload.at("cutlass_root"@).text();
    let hardware = hardware_of(payload.at("backend"@), metadata.at("name"@));
    match (
        instructions(assets, "initial"@, base, cutlass, capability),
        instructions(assets, "repair"@, base, cutlass, capability),
        instructions(assets, "optimize"@, base, cutlass, capability),
        reference_told(assets, template, hardware),
        asset_text(assets, "profile"@),
    ) {
        (Err(reason), _, _, _, _) => Err(reason),
        (_, Err(reason), _, _, _) => Err(reason),
        (_, _, Err(reason), _, _) => Err(reason),
        (_, _, _, Err(reason), _) => Err(reason),
        (_, _, _, _, Err(reason)) => Err(reason),
        (Ok(initial), Ok(repair), Ok(optimize), Ok(reference), Ok(profile)) => Ok(
            seq![
                (
                    "instructions"@,
                    JsonView::Object(
                        seq![
                            ("initial"@, JsonView::Text(initial)),
                            ("repair"@, JsonView::Text(repair)),
                            ("optimize"@, JsonView::Text(optimize)),
                        ],
                    ),
                ),
                ("reference_instructions"@, JsonView::Text(reference)),
                ("profile_instructions"@, JsonView::Text(profile)),
                ("schemas"@, schemas),
            ],
        ),
    }
}

/// The fields of a problem, none of null.
pub open spec fn problem_fields(problem: JsonView) -> Seq<FieldView> {
    match problem {
        JsonView::Object(list) => list,
        _ => Seq::empty(),
    }
}

/// A problem with its prompts filled in.
pub open spec fn populated(
    problem: JsonView,
    payload: JsonView,
    metadata: JsonView,
    assets: JsonView,
    template: Result<TemplateView, Seq<char>>,
    schemas: JsonView,
) -> Result<JsonView, Seq<char>> {
    match prompts_of(problem, payload, metadata, assets, template, schemas) {
        Err(reason) => Err(reason),
        Ok(list) => Ok(JsonView::Object(fields::extended(problem_fields(problem), list))),
    }
}

/// Fills in the prompts and schemas of a problem, which is an object or null.
pub fn populate(
    problem: Json,
    payload: &Json,
    metadata: &Json,
    assets: &Json,
    template: &Result<Template, String>,
    schemas: Json,
) -> (result: Result<Json, String>)
    requires
        problem@ is Object || problem@ is Null,
    ensures
        match result {
            Ok(made) => populated(
                problem@,
                payload@,
                metadata@,
                assets@,
                template::parsed(*template),
                schemas@,
            ) == Ok::<JsonView, Seq<char>>(made@),
            Err(error) => populated(
                problem@,
                payload@,
                metadata@,
                assets@,
                template::parsed(*template),
                schemas@,
            ) == Err::<JsonView, Seq<char>>(error@),
        },
{
    broadcast use json::object_view;

    let base = baseline(to_lower(problem.at("task_id").text_or_empty()).as_str());
    let capability = naturals(metadata.at("capability"));
    let cutlass = payload.at("cutlass_root").text();
    let hardware = Hardware::of(payload.at("backend"), metadata.at("name"));
    let initial = match candidate(assets, "initial", base, cutlass, &capability) {
        Ok(text) => text,
        Err(error) => {
            return Err(error);
        },
    };
    let repair = match candidate(assets, "repair", base, cutlass, &capability) {
        Ok(text) => text,
        Err(error) => {
            return Err(error);
        },
    };
    let optimize = match candidate(assets, "optimize", base, cutlass, &capability) {
        Ok(text) => text,
        Err(error) => {
            return Err(error);
        },
    };
    let reference = match reference(assets, template, hardware) {
        Ok(text) => text,
        Err(error) => {
            return Err(error);
        },
    };
    let profile = match asset(assets, "profile") {
        Ok(text) => text,
        Err(error) => {
            return Err(error);
        },
    };
    let ghost wanted = prompts_of(
        problem@,
        payload@,
        metadata@,
        assets@,
        template::parsed(*template),
        schemas@,
    );
    let modes = Fields::new().with("initial", Json::Text(initial)).with(
        "repair",
        Json::Text(repair),
    ).with("optimize", Json::Text(optimize)).object();
    let added = Fields::new().with("instructions", modes).with(
        "reference_instructions",
        Json::Text(reference),
    ).with("profile_instructions", fields::text(profile)).with("schemas", schemas);
    proof {
        assert(modes@->Object_0 =~= wanted->Ok_0[0].1->Object_0);
        assert(added@ =~= wanted->Ok_0);
    }
    let mut list = match problem {
        Json::Object(list) => Fields { list },
        _ => Fields::new(),
    };
    list.extend(added);
    Ok(list.object())
}

} // verus!
