//! What a tool found.
use crate::fields::Fields;
use crate::json;
use crate::json::{FieldView, JsonView};
use crate::lines;
use crate::lines::Lines;
use crate::numeral;
use crate::numeral::count;
use crate::outside;
use crate::outside::to_upper;
use crate::pieces;
use crate::pieces::copied;
use crate::text::same;
use crate::written;
use crate::written::display;
use vstd::prelude::*;

verus! {

/// What a tool found.
pub struct Output {
    pub severity: String,
    pub title: String,
    pub summary: String,
    pub metrics_observed: Fields,
    pub metrics_thresholds: Fields,
    pub root_cause: String,
    pub recommendations: Vec<String>,
    pub expected_improvement: String,
    pub code_example: Option<String>,
    pub references: Vec<String>,
}

/// The model of an [`Output`].
#[verifier::ext_equal]
pub struct OutputView {
    pub severity: Seq<char>,
    pub title: Seq<char>,
    pub summary: Seq<char>,
    pub metrics_observed: Seq<FieldView>,
    pub metrics_thresholds: Seq<FieldView>,
    pub root_cause: Seq<char>,
    pub recommendations: Seq<Seq<char>>,
    pub expected_improvement: Seq<char>,
    pub code_example: Option<Seq<char>>,
    pub references: Seq<Seq<char>>,
}

impl View for Output {
    type V = OutputView;

    open spec fn view(&self) -> OutputView {
        OutputView {
            severity: self.severity@,
            title: self.title@,
            summary: self.summary@,
            metrics_observed: self.metrics_observed@,
            metrics_thresholds: self.metrics_thresholds@,
            root_cause: self.root_cause@,
            recommendations: pieces::texts(self.recommendations@),
            expected_improvement: self.expected_improvement@,
            code_example: pieces::optional(self.code_example),
            references: pieces::texts(self.references@),
        }
    }
}

impl Clone for Output {
    fn clone(&self) -> (copy: Self)
        ensures
            copy@ == self@,
    {
        Output {
            severity: self.severity.clone(),
            title: self.title.clone(),
            summary: self.summary.clone(),
            metrics_observed: Fields::copied(&self.metrics_observed.list),
            metrics_thresholds: Fields::copied(&self.metrics_thresholds.list),
            root_cause: self.root_cause.clone(),
            recommendations: copied(&self.recommendations),
            expected_improvement: self.expected_improvement.clone(),
            code_example: match &self.code_example {
                Some(example) => Some(example.clone()),
                None => None,
            },
            references: copied(&self.references),
        }
    }
}

/// What the tools say in each case, by its key.
pub struct Outputs {
    pub entries: Vec<(String, Output)>,
}

/// The model of [`Outputs`].
pub type OutputsView = Seq<(Seq<char>, OutputView)>;

impl View for Outputs {
    type V = OutputsView;

    open spec fn view(&self) -> OutputsView {
        Seq::new(self.entries@.len(), |i: int| (self.entries@[i].0@, self.entries@[i].1@))
    }
}

/// The first entry from `from` on with a key.
pub open spec fn entry(outputs: OutputsView, key: Seq<char>, from: int) -> Option<OutputView>
    decreases outputs.len() - from,
{
    if from < 0 || from >= outputs.len() {
        None
    } else if outputs[from].0 == key {
        Some(outputs[from].1)
    } else {
        entry(outputs, key, from + 1)
    }
}

/// What is said in a case, or that nothing is.
pub open spec fn base(outputs: OutputsView, key: Seq<char>) -> Result<OutputView, Seq<char>> {
    match entry(outputs, key, 0) {
        Some(output) => Ok(output),
        None => Err("invalid type: null, expected struct Output"@),
    }
}

impl Outputs {
    /// What is said in a case.
    pub fn base(&self, key: &str) -> (result: Result<Output, String>)
        ensures
            match result {
                Ok(output) => base(self@, key@) == Ok::<OutputView, Seq<char>>(output@),
                Err(error) => base(self@, key@) == Err::<OutputView, Seq<char>>(error@),
            },
    {
        let ghost all = self@;
        let mut index: usize = 0;
        while index < self.entries.len()
            invariant
                index <= self.entries@.len(),
                all == self@,
                entry(all, key@, 0) == entry(all, key@, index as int),
            decreases self.entries@.len() - index,
        {
            assert(all[index as int] == (self.entries@[index as int].0@, self.entries@[index as int].1@));
            if same(self.entries[index].0.as_str(), key) {
                return Ok(self.entries[index].1.clone());
            }
            index += 1;
        }
        Err("invalid type: null, expected struct Output".to_owned())
    }
}

/// The threshold of a metric as it is shown, if there is one.
pub open spec fn threshold(thresholds: Seq<FieldView>, key: Seq<char>) -> Seq<char> {
    match json::field(thresholds, key) {
        Some(JsonView::Null) => ""@,
        Some(value) => " (threshold: "@ + written::shown(value) + ")"@,
        None => ""@,
    }
}

/// The lines for metrics.
pub open spec fn metric_lines(observed: Seq<FieldView>, thresholds: Seq<FieldView>) -> Seq<Seq<char>> {
    Seq::new(
        observed.len(),
        |i: int|
            "- `"@ + observed[i].0 + "`: "@ + written::shown(observed[i].1) + threshold(
                thresholds,
                observed[i].0,
            ),
    )
}

/// Texts numbered from one.
pub open spec fn numbered(list: Seq<Seq<char>>) -> Seq<Seq<char>> {
    Seq::new(list.len(), |i: int| numeral::decimal((i + 1) as nat) + ". "@ + list[i])
}

/// Texts as points of a list.
pub open spec fn points(list: Seq<Seq<char>>) -> Seq<Seq<char>> {
    Seq::new(list.len(), |i: int| "- "@ + list[i])
}

/// The section with the metrics.
pub open spec fn metrics_section(observed: Seq<FieldView>, thresholds: Seq<FieldView>) -> Seq<Seq<char>> {
    if observed.len() > 0 {
        seq!["\n**Observed Metrics:**"@] + metric_lines(observed, thresholds)
    } else {
        Seq::empty()
    }
}

/// The section with the recommendations.
pub open spec fn recommendations_section(list: Seq<Seq<char>>) -> Seq<Seq<char>> {
    if list.len() > 0 {
        seq!["\n**Recommendations:**"@] + numbered(list)
    } else {
        Seq::empty()
    }
}

/// The section with the references.
pub open spec fn references_section(list: Seq<Seq<char>>) -> Seq<Seq<char>> {
    if list.len() > 0 {
        seq!["\n**References:**"@] + points(list)
    } else {
        Seq::empty()
    }
}

impl OutputView {
    /// The lines about a kernel.
    pub open spec fn lines(self, kernel: Seq<char>) -> Seq<Seq<char>> {
        seq!["\n### ["@ + outside::uppercase(self.severity) + "] "@ + self.title] + lines::line_if(
            self.summary.len() > 0,
            "\n**Kernel `"@ + kernel + "`**: "@ + self.summary,
        ) + metrics_section(self.metrics_observed, self.metrics_thresholds) + lines::line_if(
            self.root_cause.len() > 0,
            "\n**Root Cause:**\n"@ + self.root_cause,
        ) + recommendations_section(self.recommendations) + lines::line_if(
            self.expected_improvement.len() > 0,
            "\n**Expected Improvement:** "@ + self.expected_improvement,
        ) + lines::line_if(
            self.code_example is Some,
            "\n**Example Fix:**\n```cuda\n"@ + self.code_example->Some_0 + "\n```"@,
        ) + references_section(self.references)
    }

    /// The text about a kernel.
    pub open spec fn text(self, kernel: Seq<char>) -> Seq<char> {
        pieces::joined(self.lines(kernel), "\n"@)
    }
}

/// Adds the lines for metrics.
fn add_metrics(lines: &mut Lines, observed: &Fields, thresholds: &Fields)
    ensures
        final(lines)@ == old(lines)@ + metric_lines(observed@, thresholds@),
{
    let ghost before = lines@;
    let ghost all = metric_lines(observed@, thresholds@);
    let mut index: usize = 0;
    assert(before + all.take(0) =~= before);
    while index < observed.list.len()
        invariant
            index <= observed.list@.len(),
            before == old(lines)@,
            all == metric_lines(observed@, thresholds@),
            lines@ == before + all.take(index as int),
        decreases observed.list@.len() - index,
    {
        assert(observed@[index as int] == (observed.list@[index as int].0@, observed.list@[index as int].1@));
        let key = observed.list[index].0.as_str();
        let suffix = match thresholds.get(key) {
            Some(value) => if value.is_null() {
                "".to_owned()
            } else {
                " (threshold: ".to_owned().concat(display(value).as_str()).concat(")")
            },
            None => "".to_owned(),
        };
        lines.push(
            "- `".to_owned().concat(key).concat("`: ").concat(
                display(&observed.list[index].1).as_str(),
            ).concat(suffix.as_str()),
        );
        index += 1;
        assert(lines@ =~= before + all.take(index as int));
    }
    assert(all.take(index as int) =~= all);
}

/// Adds numbered lines.
pub fn add_numbered(lines: &mut Lines, list: &Vec<String>)
    ensures
        final(lines)@ == old(lines)@ + numbered(pieces::texts(list@)),
{
    let ghost before = lines@;
    let ghost all = numbered(pieces::texts(list@));
    let mut index: usize = 0;
    assert(before + all.take(0) =~= before);
    while index < list.len()
        invariant
            index <= list@.len(),
            before == old(lines)@,
            all == numbered(pieces::texts(list@)),
            lines@ == before + all.take(index as int),
        decreases list@.len() - index,
    {
        lines.push(count(index + 1).concat(". ").concat(list[index].as_str()));
        index += 1;
        assert(lines@ =~= before + all.take(index as int));
    }
    assert(all.take(index as int) =~= all);
}

/// Adds points of a list.
fn add_points(lines: &mut Lines, list: &Vec<String>)
    ensures
        final(lines)@ == old(lines)@ + points(pieces::texts(list@)),
{
    let ghost before = lines@;
    let ghost all = points(pieces::texts(list@));
    let mut index: usize = 0;
    assert(before + all.take(0) =~= before);
    while index < list.len()
        invariant
            index <= list@.len(),
            before == old(lines)@,
            all == points(pieces::texts(list@)),
            lines@ == before + all.take(index as int),
        decreases list@.len() - index,
    {
        lines.push("- ".to_owned().concat(list[index].as_str()));
        index += 1;
        assert(lines@ =~= before + all.take(index as int));
    }
    assert(all.take(index as int) =~= all);
}

/// Adds the section with the metrics.
fn add_metrics_section(lines: &mut Lines, observed: &Fields, thresholds: &Fields)
    ensures
        final(lines)@ == old(lines)@ + metrics_section(observed@, thresholds@),
{
    let ghost before = lines@;
    if observed.list.len() > 0 {
        lines.add_text("\n**Observed Metrics:**");
        add_metrics(lines, observed, thresholds);
    }
    assert(lines@ =~= before + metrics_section(observed@, thresholds@));
}

/// Adds the section with the recommendations.
fn add_recommendations_section(lines: &mut Lines, list: &Vec<String>)
    ensures
        final(lines)@ == old(lines)@ + recommendations_section(pieces::texts(list@)),
{
    let ghost before = lines@;
    if list.len() > 0 {
        lines.add_text("\n**Recommendations:**");
        add_numbered(lines, list);
    }
    assert(lines@ =~= before + recommendations_section(pieces::texts(list@)));
}

/// Adds the section with the references.
fn add_references_section(lines: &mut Lines, list: &Vec<String>)
    ensures
        final(lines)@ == old(lines)@ + references_section(pieces::texts(list@)),
{
    let ghost before = lines@;
    if list.len() > 0 {
        lines.add_text("\n**References:**");
        add_points(lines, list);
    }
    assert(lines@ =~= before + references_section(pieces::texts(list@)));
}

impl Output {
    /// The text about a kernel.
    pub fn text(&self, kernel: &str) -> (text: String)
        ensures
            text@ == self@.text(kernel@),
    {
        let mut lines = Lines::new();
        lines.push(
            "\n### [".to_owned().concat(to_upper(self.severity.as_str()).as_str()).concat("] ").concat(
                self.title.as_str(),
            ),
        );
        assert(lines@ =~= seq!["\n### ["@ + outside::uppercase(self.severity@) + "] "@ + self.title@]);
        lines.add_if(
            !self.summary.as_str().is_empty(),
            "\n**Kernel `".to_owned().concat(kernel).concat("`**: ").concat(self.summary.as_str()),
        );
        add_metrics_section(&mut lines, &self.metrics_observed, &self.metrics_thresholds);
        lines.add_if(
            !self.root_cause.as_str().is_empty(),
            "\n**Root Cause:**\n".to_owned().concat(self.root_cause.as_str()),
        );
        add_recommendations_section(&mut lines, &self.recommendations);
        lines.add_if(
            !self.expected_improvement.as_str().is_empty(),
            "\n**Expected Improvement:** ".to_owned().concat(self.expected_improvement.as_str()),
        );
        let ghost before = lines@;
        if let Some(example) = &self.code_example {
            lines.add_if(
                true,
                "\n**Example Fix:**\n```cuda\n".to_owned().concat(example.as_str()).concat("\n```"),
            );
        }
        assert(lines@ =~= before + lines::line_if(
            self@.code_example is Some,
            "\n**Example Fix:**\n```cuda\n"@ + self@.code_example->Some_0 + "\n```"@,
        ));
        add_references_section(&mut lines, &self.references);
        lines.join("\n")
    }
}

} // verus!
