//! What is remembered, what is kept of it, and what is told of it.
use crate::fields;
use crate::json::JsonView;
use crate::json;
use crate::memory;
use crate::memory::store;
use crate::memory::{Category, EntryView, FindingView, SnapshotView};
use crate::numeral;
use crate::text;
use crate::wording;
use crate::written;
use vstd::prelude::*;

verus! {

/// A finding is refused exactly if it is blank, longer than 150 characters or of several lines, or
/// if the evidence that it names is not known.
pub proof fn findings_are_short_and_founded(finding: FindingView, evidence: Seq<Seq<char>>)
    ensures
        ({
            let content = finding.text;
            let sound = !wording::is_blank(content) && content.len() <= 150 && !content.contains(
                '\n',
            ) && !content.contains('\r');
            let refused = memory::refusal(finding, evidence);
            &&& refused is None <==> sound && evidence.contains(finding.evidence)
            &&& !sound ==> refused == Some(
                "memory entries must be one line, at most 150 characters"@,
            )
            &&& sound && !evidence.contains(finding.evidence) ==> refused == Some(
                "memory entry references unknown evidence"@,
            )
        }),
{
    let content = finding.text;
    let (left, right) = wording::trimming_takes_white_ends(content);
    let rest = text::trimmed(content);
    if rest.len() == 0 {
        assert(content =~= left + right);
        assert forall|i: int| 0 <= i < content.len() implies text::is_white(
            #[trigger] content[i],
        ) by {
            if i < left.len() {
                assert(content[i] == left[i]);
            } else {
                assert(content[i] == right[i - left.len()]);
            }
        }
    } else {
        assert(content[left.len() as int] == rest[0]);
        assert(!text::is_white(content[left.len() as int]));
    }
}

/// One more finding: one that says nothing new changes nothing, unless it was measured, which takes
/// the place of what said it before; any other comes last, with its batch and whether it was
/// measured.
pub proof fn new_findings_come_last(
    entries: Seq<EntryView>,
    finding: FindingView,
    batch: nat,
    measured: bool,
)
    ensures
        ({
            let entry = EntryView { finding, batch, evaluator_fact: measured };
            let known = exists|i: int|
                0 <= i < entries.len() && (#[trigger] entries[i]).finding.category
                    == finding.category && entries[i].finding.text == finding.text;
            let after = memory::added(entries, finding, batch, measured);
            &&& !known ==> after == entries.push(entry)
            &&& known && !measured ==> after == entries
            &&& known && measured ==> exists|i: int|
                0 <= i < entries.len() && (#[trigger] entries[i]).finding.category
                    == finding.category && entries[i].finding.text == finding.text && after
                    == entries.update(i, entry)
        }),
{
    lemma_place(entries, finding, 0);
    if let Some(index) = memory::place(entries, finding, 0) {
        assert(entries[index].finding.category == finding.category);
    }
}

proof fn lemma_place(entries: Seq<EntryView>, finding: FindingView, from: int)
    requires
        0 <= from,
    ensures
        match memory::place(entries, finding, from) {
            Some(index) => from <= index < entries.len() && entries[index].finding.category
                == finding.category && entries[index].finding.text == finding.text,
            None => forall|i: int|
                from <= i < entries.len() ==> !((#[trigger] entries[i]).finding.category
                    == finding.category && entries[i].finding.text == finding.text),
        },
    decreases entries.len() - from,
{
    if from < entries.len() {
        lemma_place(entries, finding, from + 1);
    }
}

/// An entry weighs as much as its text and the name of its evidence, and 64 more; entries weigh
/// together what each of them weighs.
pub proof fn entries_weigh_what_they_say(entries: Seq<EntryView>, entry: EntryView)
    ensures
        memory::weights(Seq::empty()) == 0,
        memory::weights(entries.push(entry)) == memory::weights(entries) + entry.finding.text.len()
            + entry.finding.evidence.len() + 64,
{
    assert(entries.push(entry).drop_last() =~= entries);
}

/// A section has the entries of its category, in their order, and no others.
pub proof fn sections_hold_their_category(entries: Seq<EntryView>, entry: EntryView, category: Category)
    ensures
        memory::section(Seq::empty(), category).len() == 0,
        memory::section(entries.push(entry), category) == (if entry.finding.category == category {
            memory::section(entries, category).push(entry)
        } else {
            memory::section(entries, category)
        }),
{
    assert(entries.push(entry).drop_last() =~= entries);
}

/// A category that weighs no more than 8000 keeps all its entries; of one that weighs more, an entry
/// leaves.
pub proof fn full_sections_are_cut(entries: Seq<EntryView>, category: Category)
    ensures
        memory::weights(memory::section(entries, category)) <= 8000 ==> memory::evicted(
            entries,
            category,
        ) == entries,
        memory::weights(memory::section(entries, category)) > 8000 ==> memory::evicted(
            entries,
            category,
        ).len() < entries.len(),
    decreases entries.len(),
{
    lemma_first(entries, category, 0);
    match memory::first(entries, category, 0) {
        Some(index) => {
            if memory::weights(memory::section(entries, category)) > 8000 {
                full_sections_are_cut(entries.remove(index), category);
            }
        },
        None => {
            lemma_no_section(entries, category);
        },
    }
}

proof fn lemma_first(entries: Seq<EntryView>, category: Category, from: int)
    requires
        0 <= from,
    ensures
        match memory::first(entries, category, from) {
            Some(index) => from <= index < entries.len(),
            None => forall|i: int|
                from <= i < entries.len() ==> (#[trigger] entries[i]).finding.category != category,
        },
    decreases entries.len() - from,
{
    if from < entries.len() {
        lemma_first(entries, category, from + 1);
    }
}

proof fn lemma_no_section(entries: Seq<EntryView>, category: Category)
    requires
        forall|i: int| 0 <= i < entries.len() ==> (#[trigger] entries[i]).finding.category != category,
    ensures
        memory::section(entries, category).len() == 0,
    decreases entries.len(),
{
    if entries.len() > 0 {
        lemma_no_section(entries.drop_last(), category);
    }
}

/// What is remembered after a batch that adds nothing to a memory with room in every category is
/// what was remembered before, under the next version.
pub proof fn memories_with_room_stay(snapshot: SnapshotView, batch: nat, evidence: Seq<Seq<char>>)
    requires
        forall|category: Category|
            memory::weights(#[trigger] memory::section(snapshot.entries, category)) <= 8000,
    ensures
        memory::merged(snapshot, batch, Seq::empty(), Seq::empty(), evidence) == Ok::<
            SnapshotView,
            Seq<char>,
        >(SnapshotView { version: snapshot.version + 1, entries: snapshot.entries }),
{
    let entries = snapshot.entries;
    assert(memory::weights(memory::section(entries, Category::SearchFindings)) <= 8000);
    full_sections_are_cut(entries, Category::SearchFindings);
    full_sections_are_cut(entries, Category::ErrorsAndCorrections);
    full_sections_are_cut(entries, Category::SuccessfulPatterns);
    full_sections_are_cut(entries, Category::KeyFiles);
    full_sections_are_cut(entries, Category::Learnings);
}

/// The name that a category goes by.
pub open spec fn called(category: Category) -> Seq<char> {
    match category {
        Category::SearchFindings => "search_findings"@,
        Category::ErrorsAndCorrections => "errors_and_corrections"@,
        Category::SuccessfulPatterns => "successful_patterns"@,
        Category::KeyFiles => "key_files"@,
        Category::Learnings => "learnings"@,
    }
}

/// A memory is kept with its version and its entries in their order, each with its finding, its
/// batch and whether it was measured.
pub proof fn memories_are_kept_whole(snapshot: SnapshotView, at: int)
    requires
        0 <= at < snapshot.entries.len(),
    ensures
        ({
            let record = memory::snapshot_record(snapshot);
            let entry = snapshot.entries[at];
            &&& record.at("version"@) == fields::signed_view(snapshot.version)
            &&& record.at("entries"@) matches JsonView::Array(list)
            &&& list.len() == snapshot.entries.len()
            &&& list[at].at("finding"@).at("category"@) == JsonView::Text(
                called(entry.finding.category),
            )
            &&& list[at].at("finding"@).at("text"@) == JsonView::Text(entry.finding.text)
            &&& list[at].at("finding"@).at("evidence"@) == JsonView::Text(entry.finding.evidence)
            &&& list[at].at("batch"@) == fields::natural_view(entry.batch)
            &&& list[at].at("evaluator_fact"@) == JsonView::Bool(entry.evaluator_fact)
        }),
{
    let record = memory::snapshot_record(snapshot)->Object_0;
    reveal_strlit("version");
    reveal_strlit("entries");
    assert("version"@[0] != "entries"@[0]);
    assert(record[0].0 == "version"@);
    json::lemma_at(record, 0);
    assert(record[1].0 == "entries"@);
    json::lemma_at(record, 1);
    let list = memory::entry_record(snapshot.entries[at])->Object_0;
    reveal_strlit("finding");
    reveal_strlit("batch");
    reveal_strlit("evaluator_fact");
    assert(list[0].0 == "finding"@);
    json::lemma_at(list, 0);
    assert(list[1].0 == "batch"@);
    json::lemma_at(list, 1);
    assert(list[2].0 == "evaluator_fact"@);
    json::lemma_at(list, 2);
    let finding = list[0].1->Object_0;
    reveal_strlit("category");
    reveal_strlit("text");
    reveal_strlit("evidence");
    assert("category"@[0] != "evidence"@[0]);
    assert(finding[0].0 == "category"@);
    json::lemma_at(finding, 0);
    assert(finding[1].0 == "text"@);
    json::lemma_at(finding, 1);
    assert(finding[2].0 == "evidence"@);
    json::lemma_at(finding, 2);
}

/// What candidates and the extraction are told: the run, the version and the entries, and the batch
/// behind what is remembered.
pub proof fn memories_are_told(
    snapshot: SnapshotView,
    run_id: Seq<char>,
    context: Seq<char>,
    evidence: JsonView,
)
    ensures
        memory::told(snapshot, run_id) == "Run-scoped search memory ("@ + run_id + ", version "@
            + numeral::signed(snapshot.version)
            + "). Entries marked evaluator_fact are measurements; all others are unverified inferences.\n"@
            + written::compact(memory::snapshot_record(snapshot).at("entries"@)),
        memory::extraction_text(context, evidence)
            == "Distill this batch's candidate events and evaluator evidence. Cite only the supplied evidence IDs. Return new, concise inferences, not claims of verified correctness. Existing memory:\n"@
            + context + "\nBatch:\n"@ + written::compact(evidence),
{
    let record = memory::snapshot_record(snapshot)->Object_0;
    reveal_strlit("version");
    reveal_strlit("entries");
    assert("version"@[0] != "entries"@[0]);
    assert(record[0].0 == "version"@);
    json::lemma_at(record, 0);
    assert(record[1].0 == "entries"@);
    json::lemma_at(record, 1);
}

/// What was measured of a candidate: a pattern that succeeded exactly if it did, with its name, its
/// status, its speedup and how it was evaluated, resting on its own evidence.
pub proof fn outcomes_are_facts(evidence: JsonView)
    ensures
        ({
            let fact = memory::fact(evidence);
            let evaluation = evidence.at("evaluation"@);
            let outcome = evaluation.at("outcome"@);
            &&& fact.category == Category::SuccessfulPatterns <==> outcome.at("status"@)
                == JsonView::Text("success"@)
            &&& fact.category == Category::ErrorsAndCorrections <==> outcome.at("status"@)
                != JsonView::Text("success"@)
            &&& fact.text == written::compact(evidence.at("id"@)) + ": status="@
                + written::compact(outcome.at("status"@)) + ", speedup="@ + written::compact(
                outcome.at("speedup"@),
            ) + ", validation="@ + written::compact(evaluation.at("validation"@))
            &&& evidence.at("id"@) is Text ==> JsonView::Text(fact.evidence) == evidence.at("id"@)
        }),
{
}

/// The evidence that is known is what the candidates of the batch are named by.
pub proof fn known_evidence_is_named(batch: Seq<JsonView>, end: int, name: Seq<char>)
    requires
        0 <= end <= batch.len(),
    ensures
        memory::known(batch, end).contains(name) <==> exists|i: int|
            0 <= i < end && (#[trigger] batch[i]).at("id"@) == JsonView::Text(name),
    decreases end,
{
    if end > 0 {
        known_evidence_is_named(batch, end - 1, name);
        let before = memory::known(batch, end - 1);
        let all = memory::known(batch, end);
        if before.contains(name) {
            let k = choose|k: int| 0 <= k < before.len() && before[k] == name;
            assert(all[k] == name);
        }
        if batch[end - 1].at("id"@) == JsonView::Text(name) {
            assert(all[before.len() as int] == name);
        }
        if all.contains(name) && !before.contains(name) {
            let k = choose|k: int| 0 <= k < all.len() && all[k] == name;
            if k < before.len() {
                assert(before[k] == name);
            }
            assert(batch[end - 1].at("id"@) == JsonView::Text(name));
        }
    }
}

/// An update is accepted exactly if it is no larger than 65536 bytes, follows the latest version and
/// closes an extraction that is running; its version is the next.
pub proof fn updates_follow_the_latest_version(
    snapshot: Seq<char>,
    previous: int,
    latest: int,
    closed: int,
)
    ensures
        ({
            let small = vstd::utf8::encode_utf8(snapshot).len() <= 65536;
            match store::update(snapshot, previous, latest, closed) {
                Ok(version) => {
                    &&& small && previous >= 0 && latest == previous && closed == 1
                    &&& version == latest + 1
                },
                Err(reason) => {
                    &&& !small ==> reason == "search memory snapshot is too large"@
                    &&& small && previous < 0 ==> reason == "invalid search memory version"@
                    &&& small && previous >= 0 && latest != previous ==> reason
                        == "stale search memory update"@
                    &&& small && previous >= 0 && latest == previous ==> reason
                        == "search memory extraction is not active"@ && closed != 1
                },
            }
        }),
        store::key_of(snapshot, previous) == snapshot + ":"@ + numeral::signed(previous),
{
}

/// The extraction is asked for at most 30 findings, each with a category of the five, a text of at
/// most 150 characters and evidence, and nothing else.
pub proof fn findings_are_asked_for(category: Category)
    ensures
        ({
            let schema = memory::findings_schema();
            let list = schema.at("properties"@).at("findings"@);
            let item = list.at("items"@);
            let parts = item.at("properties"@);
            &&& schema.at("type"@) == JsonView::Text("object"@)
            &&& schema.at("additionalProperties"@) == JsonView::Bool(false)
            &&& list.at("type"@) == JsonView::Text("array"@)
            &&& list.at("maxItems"@) == fields::natural_view(30)
            &&& item.at("type"@) == JsonView::Text("object"@)
            &&& item.at("additionalProperties"@) == JsonView::Bool(false)
            &&& item.at("required"@) == fields::strings_view(
                seq!["category"@, "text"@, "evidence"@],
            )
            &&& parts.at("text"@).at("type"@) == JsonView::Text("string"@)
            &&& parts.at("text"@).at("maxLength"@) == fields::natural_view(150)
            &&& parts.at("evidence"@).at("type"@) == JsonView::Text("string"@)
            &&& parts.at("category"@).at("enum"@) matches JsonView::Array(names)
            &&& names.len() == 5
            &&& names.contains(JsonView::Text(called(category)))
        }),
{
    let schema = memory::findings_schema()->Object_0;
    reveal_strlit("type");
    reveal_strlit("additionalProperties");
    reveal_strlit("required");
    reveal_strlit("properties");
    assert(schema[0].0 == "type"@);
    json::lemma_at(schema, 0);
    assert(schema[1].0 == "additionalProperties"@);
    json::lemma_at(schema, 1);
    assert(schema[2].0 == "required"@);
    json::lemma_at(schema, 2);
    assert(schema[3].0 == "properties"@);
    json::lemma_at(schema, 3);
    let outer = schema[3].1->Object_0;
    reveal_strlit("findings");
    assert(outer[0].0 == "findings"@);
    json::lemma_at(outer, 0);
    let list = outer[0].1->Object_0;
    reveal_strlit("type");
    reveal_strlit("maxItems");
    reveal_strlit("items");
    assert(list[0].0 == "type"@);
    json::lemma_at(list, 0);
    assert(list[1].0 == "maxItems"@);
    json::lemma_at(list, 1);
    assert(list[2].0 == "items"@);
    json::lemma_at(list, 2);
    let item = list[2].1->Object_0;
    reveal_strlit("type");
    reveal_strlit("additionalProperties");
    reveal_strlit("required");
    reveal_strlit("properties");
    assert(item[0].0 == "type"@);
    json::lemma_at(item, 0);
    assert(item[1].0 == "additionalProperties"@);
    json::lemma_at(item, 1);
    assert(item[2].0 == "required"@);
    json::lemma_at(item, 2);
    assert(item[3].0 == "properties"@);
    json::lemma_at(item, 3);
    let parts = item[3].1->Object_0;
    reveal_strlit("category");
    reveal_strlit("text");
    reveal_strlit("evidence");
    assert("category"@[0] != "evidence"@[0]);
    assert(parts[0].0 == "category"@);
    json::lemma_at(parts, 0);
    assert(parts[1].0 == "text"@);
    json::lemma_at(parts, 1);
    assert(parts[2].0 == "evidence"@);
    json::lemma_at(parts, 2);
    let kinds = parts[0].1->Object_0;
    reveal_strlit("type");
    reveal_strlit("enum");
    assert("type"@[0] != "enum"@[0]);
    assert(kinds[0].0 == "type"@);
    json::lemma_at(kinds, 0);
    assert(kinds[1].0 == "enum"@);
    json::lemma_at(kinds, 1);
    let words = parts[1].1->Object_0;
    reveal_strlit("type");
    reveal_strlit("maxLength");
    assert(words[0].0 == "type"@);
    json::lemma_at(words, 0);
    assert(words[1].0 == "maxLength"@);
    json::lemma_at(words, 1);
    let shown = parts[2].1->Object_0;
    reveal_strlit("type");
    assert(shown[0].0 == "type"@);
    json::lemma_at(shown, 0);
    let names = kinds[1].1->Array_0;
    assert(names.len() == 5);
    assert(names[0] == JsonView::Text("search_findings"@));
    assert(names[1] == JsonView::Text("errors_and_corrections"@));
    assert(names[2] == JsonView::Text("successful_patterns"@));
    assert(names[3] == JsonView::Text("key_files"@));
    assert(names[4] == JsonView::Text("learnings"@));
}

} // verus!
