//! The tools and their choice.
use crate::json::{Json, JsonView};
use crate::pieces;
use crate::pieces::copied;
use crate::ranking;
use crate::ranking::rank;
use crate::text::{one_of, same};
use vstd::prelude::*;

verus! {

/// A tool that looks for one kind of bottleneck.
pub struct Tool {
    pub name: String,
    pub description: String,
    pub priority: u64,
    /// The metrics that the tool needs.
    pub required: Vec<String>,
}

/// The model of a [`Tool`].
#[verifier::ext_equal]
pub struct ToolView {
    pub name: Seq<char>,
    pub description: Seq<char>,
    pub priority: u64,
    pub required: Seq<Seq<char>>,
}

impl View for Tool {
    type V = ToolView;

    open spec fn view(&self) -> ToolView {
        ToolView {
            name: self.name@,
            description: self.description@,
            priority: self.priority,
            required: pieces::texts(self.required@),
        }
    }
}

/// The models of tools.
pub open spec fn tools_view(tools: Seq<Tool>) -> Seq<ToolView> {
    Seq::new(tools.len(), |i: int| tools[i]@)
}

impl Clone for Tool {
    fn clone(&self) -> (copy: Self)
        ensures
            copy@ == self@,
    {
        Tool {
            name: self.name.clone(),
            description: self.description.clone(),
            priority: self.priority,
            required: copied(&self.required),
        }
    }
}

impl ToolView {
    /// Whether all the metrics that the tool needs are there.
    pub open spec fn triggers(self, metrics: JsonView) -> bool {
        forall|i: int|
            0 <= i < self.required.len() ==> metrics.get(#[trigger] self.required[i]) is Some
    }
}

impl Tool {
    /// Whether all the metrics that the tool needs are there.
    pub fn should_trigger(&self, metrics: &Json) -> (found: bool)
        ensures
            found == self@.triggers(metrics@),
    {
        let ghost all = self@.required;
        let mut index: usize = 0;
        while index < self.required.len()
            invariant
                index <= self.required@.len(),
                all == self@.required,
                forall|i: int| 0 <= i < index ==> metrics@.get(#[trigger] all[i]) is Some,
            decreases self.required@.len() - index,
        {
            assert(all[index as int] == self.required@[index as int]@);
            if metrics.get(self.required[index].as_str()).is_none() {
                return false;
            }
            index += 1;
        }
        true
    }
}

/// The priorities of tools.
pub open spec fn priorities(tools: Seq<ToolView>) -> Seq<i128> {
    Seq::new(tools.len(), |i: int| tools[i].priority as i128)
}

/// The tools by priority, the highest first.
pub open spec fn by_priority(tools: Seq<ToolView>) -> Seq<ToolView> {
    ranking::arranged(tools, ranking::ranked(priorities(tools), tools.len()))
}

/// The registered tools by priority, the highest first.
pub fn prioritized(registry: &Vec<Tool>) -> (tools: Vec<Tool>)
    ensures
        tools_view(tools@) == by_priority(tools_view(registry@)),
{
    let ghost all = tools_view(registry@);
    let mut keys: Vec<i128> = Vec::new();
    let mut index: usize = 0;
    while index < registry.len()
        invariant
            index <= registry@.len(),
            all == tools_view(registry@),
            keys@ == priorities(all).take(index as int),
        decreases registry@.len() - index,
    {
        keys.push(registry[index].priority as i128);
        index += 1;
        assert(keys@ =~= priorities(all).take(index as int));
    }
    assert(keys@ =~= priorities(all));
    let ranks = rank(&keys);
    let mut tools: Vec<Tool> = Vec::new();
    let mut place: usize = 0;
    while place < ranks.len()
        invariant
            place <= ranks@.len(),
            all == tools_view(registry@),
            ranks@.len() == registry@.len(),
            forall|i: int| 0 <= i < ranks@.len() ==> (#[trigger] ranks@[i]) < registry@.len(),
            tools@.len() == place,
            forall|i: int| 0 <= i < place ==> (#[trigger] tools@[i])@ == all[ranks@[i] as int],
        decreases ranks@.len() - place,
    {
        tools.push(registry[ranks[place]].clone());
        place += 1;
    }
    assert(tools_view(tools@) =~= by_priority(all));
    tools
}

/// The only bottleneck that a tool is for, if there is one.
pub open spec fn affinity(name: Seq<char>) -> Option<Seq<char>> {
    if name == "tensor_core_underutilization"@ || name == "wgmma_instruction_detector"@ {
        Some("compute_bound"@)
    } else if name == "memory_coalescing"@ || name == "high_dram_throughput"@ {
        Some("memory_bound"@)
    } else {
        None
    }
}

/// The tools of the first `end` that are for a bottleneck.
pub open spec fn suited(tools: Seq<ToolView>, bottleneck: Seq<char>, end: int) -> Seq<ToolView>
    decreases end,
{
    if end <= 0 {
        Seq::empty()
    } else {
        let before = suited(tools, bottleneck, end - 1);
        let tool = tools[end - 1];
        if affinity(tool.name) matches Some(only) && only != bottleneck {
            before
        } else {
            before.push(tool)
        }
    }
}

/// The tools for a bottleneck: `None` where the bottleneck does not limit them.
pub open spec fn selection(tools: Seq<ToolView>, bottleneck: Seq<char>) -> Result<
    Option<Seq<ToolView>>,
    Seq<char>,
> {
    if bottleneck == "compute_bound"@ || bottleneck == "memory_bound"@ {
        Ok(Some(suited(tools, bottleneck, tools.len() as int)))
    } else if bottleneck == ""@ || bottleneck == "mixed"@ || bottleneck == "latency_bound"@ || bottleneck
        == "occupancy_limited"@ || bottleneck == "launch_overhead"@ {
        Ok(None)
    } else {
        Err("unknown bottleneck: "@ + bottleneck)
    }
}

fn suits(name: &str, bottleneck: &str) -> (suited: bool)
    ensures
        suited == !(affinity(name@) matches Some(only) && only != bottleneck@),
{
    if one_of(name, &["tensor_core_underutilization", "wgmma_instruction_detector"]) {
        same(bottleneck, "compute_bound")
    } else if one_of(name, &["memory_coalescing", "high_dram_throughput"]) {
        same(bottleneck, "memory_bound")
    } else {
        true
    }
}

/// The model of an optional list of tools.
pub open spec fn optional_tools(tools: Option<Vec<Tool>>) -> Option<Seq<ToolView>> {
    match tools {
        Some(tools) => Some(tools_view(tools@)),
        None => None,
    }
}

/// The registered tools for a bottleneck: `None` where the bottleneck does not limit them.
pub fn selected(registry: &Vec<Tool>, bottleneck: &str) -> (result: Result<Option<Vec<Tool>>, String>)
    ensures
        match result {
            Ok(tools) => selection(tools_view(registry@), bottleneck@) == Ok::<
                Option<Seq<ToolView>>,
                Seq<char>,
            >(optional_tools(tools)),
            Err(error) => selection(tools_view(registry@), bottleneck@) == Err::<
                Option<Seq<ToolView>>,
                Seq<char>,
            >(error@),
        },
{
    if one_of(bottleneck, &["compute_bound", "memory_bound"]) {
        let ghost all = tools_view(registry@);
        let mut tools: Vec<Tool> = Vec::new();
        let mut index: usize = 0;
        assert(tools_view(tools@) =~= Seq::<ToolView>::empty());
        while index < registry.len()
            invariant
                index <= registry@.len(),
                all == tools_view(registry@),
                tools_view(tools@) == suited(all, bottleneck@, index as int),
            decreases registry@.len() - index,
        {
            assert(all[index as int] == registry@[index as int]@);
            if suits(registry[index].name.as_str(), bottleneck) {
                let ghost before = tools@;
                tools.push(registry[index].clone());
                assert(tools_view(tools@) =~= tools_view(before).push(all[index as int]));
            }
            index += 1;
        }
        Ok(Some(tools))
    } else if one_of(
        bottleneck,
        &["", "mixed", "latency_bound", "occupancy_limited", "launch_overhead"],
    ) {
        Ok(None)
    } else {
        Err("unknown bottleneck: ".to_owned().concat(bottleneck))
    }
}

} // verus!
