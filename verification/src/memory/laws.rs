//! What holds of every memory.
use crate::memory;
use crate::memory::{Category, EntryView, FindingView, SnapshotView, MAX_SECTION_CHARS};
use vstd::prelude::*;

verus! {

/// Whether no two entries say the same.
pub open spec fn distinct(entries: Seq<EntryView>) -> bool {
    forall|i: int, j: int|
        0 <= i < j < entries.len() ==> !memory::says(#[trigger] entries[i], (#[trigger] entries[j]).finding)
}

proof fn lemma_place(entries: Seq<EntryView>, finding: FindingView, from: int)
    requires
        0 <= from,
    ensures
        match memory::place(entries, finding, from) {
            Some(index) => from <= index < entries.len() && memory::says(entries[index], finding)
                && forall|i: int| from <= i < index ==> !memory::says(#[trigger] entries[i], finding),
            None => forall|i: int|
                from <= i < entries.len() ==> !memory::says(#[trigger] entries[i], finding),
        },
    decreases entries.len() - from,
{
    if from < entries.len() {
        lemma_place(entries, finding, from + 1);
    }
}

/// Adding a finding keeps entries that say different things different.
pub proof fn adding_keeps_distinct(
    entries: Seq<EntryView>,
    finding: FindingView,
    batch: nat,
    evaluator_fact: bool,
)
    requires
        distinct(entries),
    ensures
        distinct(memory::added(entries, finding, batch, evaluator_fact)),
{
    lemma_place(entries, finding, 0);
    let after = memory::added(entries, finding, batch, evaluator_fact);
    assert forall|i: int, j: int| 0 <= i < j < after.len() implies !memory::says(
        #[trigger] after[i],
        (#[trigger] after[j]).finding,
    ) by {
        if i < entries.len() && j < entries.len() {
            assert(!memory::says(entries[i], entries[j].finding));
        }
    }
}

/// An inference changes no entry that is there: what was measured is not shadowed by it.
pub proof fn inferences_change_no_entry(
    entries: Seq<EntryView>,
    findings: Seq<FindingView>,
    end: int,
    batch: nat,
    evidence: Seq<Seq<char>>,
)
    requires
        memory::absorbed(entries, findings, end, batch, false, evidence) is Ok,
    ensures
        entries.is_prefix_of(memory::absorbed(entries, findings, end, batch, false, evidence)->Ok_0),
    decreases end,
{
    if end > 0 {
        inferences_change_no_entry(entries, findings, end - 1, batch, evidence);
    }
}

/// A measured finding is in memory as measured, whatever was inferred before.
pub proof fn facts_are_measured(entries: Seq<EntryView>, finding: FindingView, batch: nat)
    ensures
        memory::added(entries, finding, batch, true).contains(
            EntryView { finding, batch, evaluator_fact: true },
        ),
{
    lemma_place(entries, finding, 0);
    let entry = EntryView { finding, batch, evaluator_fact: true };
    let after = memory::added(entries, finding, batch, true);
    match memory::place(entries, finding, 0) {
        Some(index) => {
            assert(after[index] == entry);
        },
        None => {
            assert(after[entries.len() as int] == entry);
        },
    }
}

proof fn lemma_absorbed_distinct(
    entries: Seq<EntryView>,
    findings: Seq<FindingView>,
    end: int,
    batch: nat,
    evaluator_fact: bool,
    evidence: Seq<Seq<char>>,
)
    requires
        distinct(entries),
        memory::absorbed(entries, findings, end, batch, evaluator_fact, evidence) is Ok,
    ensures
        distinct(
            memory::absorbed(entries, findings, end, batch, evaluator_fact, evidence)->Ok_0,
        ),
    decreases end,
{
    if end > 0 {
        lemma_absorbed_distinct(entries, findings, end - 1, batch, evaluator_fact, evidence);
        adding_keeps_distinct(
            memory::absorbed(entries, findings, end - 1, batch, evaluator_fact, evidence)->Ok_0,
            findings[end - 1],
            batch,
            evaluator_fact,
        );
    }
}

proof fn lemma_removed_distinct(entries: Seq<EntryView>, index: int)
    requires
        distinct(entries),
        0 <= index < entries.len(),
    ensures
        distinct(entries.remove(index)),
{
    let after = entries.remove(index);
    assert forall|i: int, j: int| 0 <= i < j < after.len() implies !memory::says(
        #[trigger] after[i],
        (#[trigger] after[j]).finding,
    ) by {
        let from = if i < index {
            i
        } else {
            i + 1
        };
        let to = if j < index {
            j
        } else {
            j + 1
        };
        assert(!memory::says(entries[from], entries[to].finding));
    }
}

proof fn lemma_evicted_distinct(entries: Seq<EntryView>, category: Category)
    requires
        distinct(entries),
    ensures
        distinct(memory::evicted(entries, category)),
    decreases entries.len(),
{
    match memory::first(entries, category, 0) {
        Some(index) => {
            if memory::weights(memory::section(entries, category)) > MAX_SECTION_CHARS && 0 <= index
                < entries.len() {
                lemma_removed_distinct(entries, index);
                lemma_evicted_distinct(entries.remove(index), category);
            }
        },
        None => {},
    }
}

/// A memory whose entries say different things still does after a batch.
pub proof fn entries_stay_distinct(
    snapshot: SnapshotView,
    batch: nat,
    findings: Seq<FindingView>,
    facts: Seq<FindingView>,
    evidence: Seq<Seq<char>>,
)
    requires
        distinct(snapshot.entries),
        memory::merged(snapshot, batch, findings, facts, evidence) is Ok,
    ensures
        distinct(memory::merged(snapshot, batch, findings, facts, evidence)->Ok_0.entries),
{
    let inferred = memory::absorbed(
        snapshot.entries,
        findings,
        findings.len() as int,
        batch,
        false,
        evidence,
    )->Ok_0;
    let all = memory::absorbed(inferred, facts, facts.len() as int, batch, true, evidence)->Ok_0;
    lemma_absorbed_distinct(
        snapshot.entries,
        findings,
        findings.len() as int,
        batch,
        false,
        evidence,
    );
    lemma_absorbed_distinct(inferred, facts, facts.len() as int, batch, true, evidence);
    let first = memory::evicted(all, Category::SearchFindings);
    let second = memory::evicted(first, Category::ErrorsAndCorrections);
    let third = memory::evicted(second, Category::SuccessfulPatterns);
    let fourth = memory::evicted(third, Category::KeyFiles);
    lemma_evicted_distinct(all, Category::SearchFindings);
    lemma_evicted_distinct(first, Category::ErrorsAndCorrections);
    lemma_evicted_distinct(second, Category::SuccessfulPatterns);
    lemma_evicted_distinct(third, Category::KeyFiles);
    lemma_evicted_distinct(fourth, Category::Learnings);
}

proof fn lemma_first(entries: Seq<EntryView>, category: Category, from: int)
    requires
        0 <= from,
    ensures
        match memory::first(entries, category, from) {
            Some(index) => from <= index < entries.len() && entries[index].finding.category
                == category && forall|i: int|
                from <= i < index ==> (#[trigger] entries[i]).finding.category != category,
            None => forall|i: int|
                from <= i < entries.len() ==> (#[trigger] entries[i]).finding.category != category,
        },
    decreases entries.len() - from,
{
    if from < entries.len() {
        lemma_first(entries, category, from + 1);
    }
}

proof fn lemma_empty_section(entries: Seq<EntryView>, category: Category)
    requires
        forall|i: int| 0 <= i < entries.len() ==> (#[trigger] entries[i]).finding.category != category,
    ensures
        memory::section(entries, category) == Seq::<EntryView>::empty(),
    decreases entries.len(),
{
    if entries.len() > 0 {
        lemma_empty_section(entries.drop_last(), category);
    }
}

/// Taking out the first entry of a category takes it out of that section alone.
proof fn lemma_removed(entries: Seq<EntryView>, category: Category, index: int, other: Category)
    requires
        0 <= index < entries.len(),
        entries[index].finding.category == category,
        forall|i: int| 0 <= i < index ==> (#[trigger] entries[i]).finding.category != category,
    ensures
        memory::section(entries, category).len() > 0,
        memory::section(entries.remove(index), category) == memory::section(
            entries,
            category,
        ).skip(1),
        other != category ==> memory::section(entries.remove(index), other) == memory::section(
            entries,
            other,
        ),
    decreases entries.len(),
{
    let shorter = entries.drop_last();
    if index == entries.len() - 1 {
        assert(entries.remove(index) =~= shorter);
        lemma_empty_section(shorter, category);
        assert(memory::section(entries, category).skip(1) =~= Seq::<EntryView>::empty());
    } else {
        lemma_removed(shorter, category, index, other);
        assert(entries.remove(index).drop_last() =~= shorter.remove(index));
        assert(entries.remove(index).last() == entries.last());
        let before = memory::section(shorter, category);
        assert(before.push(entries.last()).skip(1) =~= before.skip(1).push(entries.last()));
    }
}

/// What leaves a full section is its oldest part, no more of it than has to, and no other section
/// loses anything.
pub proof fn oldest_entries_leave(entries: Seq<EntryView>, category: Category, other: Category)
    ensures
        exists|count: int|
            0 <= count <= memory::section(entries, category).len() && memory::section(
                memory::evicted(entries, category),
                category,
            ) == #[trigger] memory::section(entries, category).skip(count) && (count > 0
                ==> memory::weights(memory::section(entries, category).skip(count - 1)) > 8000),
        other != category ==> memory::section(memory::evicted(entries, category), other)
            == memory::section(entries, other),
    decreases entries.len(),
{
    let all = memory::section(entries, category);
    lemma_first(entries, category, 0);
    assert(all.skip(0) =~= all);
    match memory::first(entries, category, 0) {
        Some(index) => {
            if memory::weights(all) > MAX_SECTION_CHARS {
                let rest = entries.remove(index);
                lemma_removed(entries, category, index, other);
                oldest_entries_leave(rest, category, other);
                let count = choose|count: int|
                    0 <= count <= memory::section(rest, category).len() && memory::section(
                        memory::evicted(rest, category),
                        category,
                    ) == #[trigger] memory::section(rest, category).skip(count) && (count > 0
                        ==> memory::weights(memory::section(rest, category).skip(count - 1))
                        > 8000);
                assert(all.skip(1).skip(count) =~= all.skip(count + 1));
                if count > 0 {
                    assert(all.skip(1).skip(count - 1) =~= all.skip(count));
                }
            }
        },
        None => {},
    }
}

proof fn lemma_evicted_bounded(entries: Seq<EntryView>, category: Category)
    ensures
        memory::weights(memory::section(memory::evicted(entries, category), category))
            <= MAX_SECTION_CHARS,
    decreases entries.len(),
{
    lemma_first(entries, category, 0);
    match memory::first(entries, category, 0) {
        Some(index) => {
            if memory::weights(memory::section(entries, category)) > MAX_SECTION_CHARS {
                lemma_evicted_bounded(entries.remove(index), category);
            }
        },
        None => {
            lemma_empty_section(entries, category);
        },
    }
}

/// After a batch no section weighs more than it may, and the version is the next one.
pub proof fn sections_are_bounded(
    snapshot: SnapshotView,
    batch: nat,
    findings: Seq<FindingView>,
    facts: Seq<FindingView>,
    evidence: Seq<Seq<char>>,
    category: Category,
)
    requires
        memory::merged(snapshot, batch, findings, facts, evidence) is Ok,
    ensures
        ({
            let next = memory::merged(snapshot, batch, findings, facts, evidence)->Ok_0;
            &&& next.version == snapshot.version + 1
            &&& memory::weights(memory::section(next.entries, category)) <= MAX_SECTION_CHARS
        }),
{
    let inferred = memory::absorbed(
        snapshot.entries,
        findings,
        findings.len() as int,
        batch,
        false,
        evidence,
    )->Ok_0;
    let all = memory::absorbed(inferred, facts, facts.len() as int, batch, true, evidence)->Ok_0;
    let first = memory::evicted(all, Category::SearchFindings);
    let second = memory::evicted(first, Category::ErrorsAndCorrections);
    let third = memory::evicted(second, Category::SuccessfulPatterns);
    let fourth = memory::evicted(third, Category::KeyFiles);
    lemma_evicted_bounded(all, Category::SearchFindings);
    lemma_evicted_bounded(first, Category::ErrorsAndCorrections);
    lemma_evicted_bounded(second, Category::SuccessfulPatterns);
    lemma_evicted_bounded(third, Category::KeyFiles);
    lemma_evicted_bounded(fourth, Category::Learnings);
    oldest_entries_leave(first, Category::ErrorsAndCorrections, category);
    oldest_entries_leave(second, Category::SuccessfulPatterns, category);
    oldest_entries_leave(third, Category::KeyFiles, category);
    oldest_entries_leave(fourth, Category::Learnings, category);
}

/// Whether an entry was there before, or came with the batch and rests on known evidence.
pub open spec fn accounted(
    entry: EntryView,
    before: Seq<EntryView>,
    batch: nat,
    evidence: Seq<Seq<char>>,
) -> bool {
    before.contains(entry) || (entry.batch == batch && memory::refusal(entry.finding, evidence) is None)
}

proof fn lemma_absorbed_accounted(
    before: Seq<EntryView>,
    entries: Seq<EntryView>,
    findings: Seq<FindingView>,
    end: int,
    batch: nat,
    evaluator_fact: bool,
    evidence: Seq<Seq<char>>,
)
    requires
        forall|i: int|
            0 <= i < entries.len() ==> accounted(#[trigger] entries[i], before, batch, evidence),
        memory::absorbed(entries, findings, end, batch, evaluator_fact, evidence) is Ok,
    ensures
        ({
            let after = memory::absorbed(
                entries,
                findings,
                end,
                batch,
                evaluator_fact,
                evidence,
            )->Ok_0;
            forall|i: int|
                0 <= i < after.len() ==> accounted(#[trigger] after[i], before, batch, evidence)
        }),
    decreases end,
{
    if end > 0 {
        lemma_absorbed_accounted(
            before,
            entries,
            findings,
            end - 1,
            batch,
            evaluator_fact,
            evidence,
        );
        let earlier = memory::absorbed(
            entries,
            findings,
            end - 1,
            batch,
            evaluator_fact,
            evidence,
        )->Ok_0;
        lemma_place(earlier, findings[end - 1], 0);
    }
}

proof fn lemma_evicted_kept(entries: Seq<EntryView>, category: Category)
    ensures
        forall|entry: EntryView| #[trigger]
            memory::evicted(entries, category).contains(entry) ==> entries.contains(entry),
    decreases entries.len(),
{
    lemma_first(entries, category, 0);
    match memory::first(entries, category, 0) {
        Some(index) => {
            if memory::weights(memory::section(entries, category)) > MAX_SECTION_CHARS {
                let rest = entries.remove(index);
                lemma_evicted_kept(rest, category);
                assert forall|entry: EntryView| #[trigger]
                    memory::evicted(entries, category).contains(entry) implies entries.contains(
                    entry,
                ) by {
                    assert(memory::evicted(rest, category).contains(entry));
                    assert(rest.contains(entry));
                    let place = choose|place: int| 0 <= place < rest.len() && rest[place] == entry;
                    assert(entries[if place < index {
                        place
                    } else {
                        place + 1
                    }] == entry);
                }
            }
        },
        None => {},
    }
}

/// Nothing is remembered that was not there before and does not rest on known evidence.
pub proof fn entries_rest_on_evidence(
    snapshot: SnapshotView,
    batch: nat,
    findings: Seq<FindingView>,
    facts: Seq<FindingView>,
    evidence: Seq<Seq<char>>,
    entry: EntryView,
)
    requires
        memory::merged(snapshot, batch, findings, facts, evidence) is Ok,
        memory::merged(snapshot, batch, findings, facts, evidence)->Ok_0.entries.contains(entry),
    ensures
        accounted(entry, snapshot.entries, batch, evidence),
{
    let inferred = memory::absorbed(
        snapshot.entries,
        findings,
        findings.len() as int,
        batch,
        false,
        evidence,
    )->Ok_0;
    let all = memory::absorbed(inferred, facts, facts.len() as int, batch, true, evidence)->Ok_0;
    assert forall|i: int| 0 <= i < snapshot.entries.len() implies accounted(
        #[trigger] snapshot.entries[i],
        snapshot.entries,
        batch,
        evidence,
    ) by {
        assert(snapshot.entries.contains(snapshot.entries[i]));
    }
    lemma_absorbed_accounted(
        snapshot.entries,
        snapshot.entries,
        findings,
        findings.len() as int,
        batch,
        false,
        evidence,
    );
    lemma_absorbed_accounted(
        snapshot.entries,
        inferred,
        facts,
        facts.len() as int,
        batch,
        true,
        evidence,
    );
    let first = memory::evicted(all, Category::SearchFindings);
    let second = memory::evicted(first, Category::ErrorsAndCorrections);
    let third = memory::evicted(second, Category::SuccessfulPatterns);
    let fourth = memory::evicted(third, Category::KeyFiles);
    lemma_evicted_kept(all, Category::SearchFindings);
    lemma_evicted_kept(first, Category::ErrorsAndCorrections);
    lemma_evicted_kept(second, Category::SuccessfulPatterns);
    lemma_evicted_kept(third, Category::KeyFiles);
    lemma_evicted_kept(fourth, Category::Learnings);
    assert(fourth.contains(entry));
    assert(third.contains(entry));
    assert(second.contains(entry));
    assert(first.contains(entry));
    assert(all.contains(entry));
    let place = choose|place: int| 0 <= place < all.len() && all[place] == entry;
    assert(accounted(all[place], snapshot.entries, batch, evidence));
}

} // verus!
