//! What a run remembers from batch to batch.
pub mod laws;
pub mod records;
pub mod store;

use crate::fields;
use crate::fields::{natural, signed, strings, text, Fields};
use crate::json;
use crate::json::{Json, JsonView};
use crate::numeral;
use crate::numeral::signed_numeral;
use crate::pieces;
use crate::text as words;
use crate::text::{chars, same, trim};
use crate::written;
use crate::written::to_text;
use vstd::prelude::*;

verus! {

/// What a finding is about.
#[derive(Clone, Copy, Debug, PartialEq, Eq, Structural)]
pub enum Category {
    SearchFindings,
    ErrorsAndCorrections,
    SuccessfulPatterns,
    KeyFiles,
    Learnings,
}

/// The most that a section may weigh.
pub const MAX_SECTION_CHARS: usize = 8000;

/// The longest text of a finding.
pub const MAX_TEXT_CHARS: usize = 150;

/// Something learned, and the evidence that it rests on.
#[derive(Debug, PartialEq, Eq)]
pub struct Finding {
    pub category: Category,
    pub text: String,
    pub evidence: String,
}

/// A finding that is remembered.
#[derive(Debug, PartialEq, Eq)]
pub struct Entry {
    pub finding: Finding,
    pub batch: usize,
    /// Whether it was measured, not inferred.
    pub evaluator_fact: bool,
}

/// What is remembered at some time.
#[derive(Debug, PartialEq, Eq)]
pub struct Snapshot {
    pub version: i64,
    pub entries: Vec<Entry>,
}

/// The model of a finding.
#[verifier::ext_equal]
pub struct FindingView {
    pub category: Category,
    pub text: Seq<char>,
    pub evidence: Seq<char>,
}

/// The model of an entry.
#[verifier::ext_equal]
pub struct EntryView {
    pub finding: FindingView,
    pub batch: nat,
    pub evaluator_fact: bool,
}

/// The model of a snapshot.
#[verifier::ext_equal]
pub struct SnapshotView {
    pub version: int,
    pub entries: Seq<EntryView>,
}

impl View for Finding {
    type V = FindingView;

    open spec fn view(&self) -> FindingView {
        FindingView { category: self.category, text: self.text@, evidence: self.evidence@ }
    }
}

impl View for Entry {
    type V = EntryView;

    open spec fn view(&self) -> EntryView {
        EntryView {
            finding: self.finding@,
            batch: self.batch as nat,
            evaluator_fact: self.evaluator_fact,
        }
    }
}

/// The models of findings.
pub open spec fn findings_view(list: Seq<Finding>) -> Seq<FindingView> {
    Seq::new(list.len(), |i: int| list[i]@)
}

/// The models of entries.
pub open spec fn entries_view(list: Seq<Entry>) -> Seq<EntryView> {
    Seq::new(list.len(), |i: int| list[i]@)
}

impl View for Snapshot {
    type V = SnapshotView;

    open spec fn view(&self) -> SnapshotView {
        SnapshotView { version: self.version as int, entries: entries_view(self.entries@) }
    }
}

impl Clone for Finding {
    fn clone(&self) -> (copy: Self)
        ensures
            copy@ == self@,
    {
        Finding {
            category: self.category,
            text: self.text.clone(),
            evidence: self.evidence.clone(),
        }
    }
}

impl Clone for Entry {
    fn clone(&self) -> (copy: Self)
        ensures
            copy@ == self@,
    {
        Entry {
            finding: self.finding.clone(),
            batch: self.batch,
            evaluator_fact: self.evaluator_fact,
        }
    }
}

impl Clone for Snapshot {
    fn clone(&self) -> (copy: Self)
        ensures
            copy@ == self@,
    {
        Snapshot { version: self.version, entries: copy_entries(&self.entries) }
    }
}

impl Default for Snapshot {
    /// Nothing is remembered.
    fn default() -> (snapshot: Self)
        ensures
            snapshot@ == (SnapshotView { version: 0, entries: Seq::empty() }),
    {
        let snapshot = Snapshot { version: 0, entries: Vec::new() };
        assert(entries_view(snapshot.entries@) =~= Seq::<EntryView>::empty());
        snapshot
    }
}

fn copy_entries(list: &Vec<Entry>) -> (copy: Vec<Entry>)
    ensures
        entries_view(copy@) == entries_view(list@),
{
    let mut copy: Vec<Entry> = Vec::new();
    let mut index: usize = 0;
    while index < list.len()
        invariant
            index <= list@.len(),
            copy@.len() == index,
            forall|i: int| 0 <= i < index ==> (#[trigger] copy@[i])@ == list@[i]@,
        decreases list@.len() - index,
    {
        copy.push(list[index].clone());
        index += 1;
    }
    assert(entries_view(copy@) =~= entries_view(list@));
    copy
}

/// A learning that rests on `evidence`.
pub fn finding(text: &str, evidence: &str) -> (result: Finding)
    ensures
        result@ == (FindingView {
            category: Category::Learnings,
            text: text@,
            evidence: evidence@,
        }),
{
    Finding {
        category: Category::Learnings,
        text: text.to_owned(),
        evidence: evidence.to_owned(),
    }
}

/// Whether a text can be remembered: it says something, on one line, and is short.
pub open spec fn fits(content: Seq<char>) -> bool {
    words::trimmed(content).len() > 0 && content.len() <= MAX_TEXT_CHARS && !content.contains('\n')
        && !content.contains('\r')
}

/// Why a finding is refused, if it is.
pub open spec fn refusal(finding: FindingView, evidence: Seq<Seq<char>>) -> Option<Seq<char>> {
    if !fits(finding.text) {
        Some("memory entries must be one line, at most 150 characters"@)
    } else if !evidence.contains(finding.evidence) {
        Some("memory entry references unknown evidence"@)
    } else {
        None
    }
}

/// Whether an entry says what a finding says.
pub open spec fn says(entry: EntryView, finding: FindingView) -> bool {
    entry.finding.category == finding.category && entry.finding.text == finding.text
}

/// The first entry from `from` on that says what `finding` says.
pub open spec fn place(entries: Seq<EntryView>, finding: FindingView, from: int) -> Option<int>
    decreases entries.len() - from,
{
    if from < 0 || from >= entries.len() {
        None
    } else if says(entries[from], finding) {
        Some(from)
    } else {
        place(entries, finding, from + 1)
    }
}

/// The entries with one more finding. One that is there already changes nothing, unless it was
/// measured now.
pub open spec fn added(
    entries: Seq<EntryView>,
    finding: FindingView,
    batch: nat,
    evaluator_fact: bool,
) -> Seq<EntryView> {
    let entry = EntryView { finding, batch, evaluator_fact };
    match place(entries, finding, 0) {
        Some(index) => if evaluator_fact {
            entries.update(index, entry)
        } else {
            entries
        },
        None => entries.push(entry),
    }
}

/// The entries with the first `end` of `findings`, or why one of those is refused.
pub open spec fn absorbed(
    entries: Seq<EntryView>,
    findings: Seq<FindingView>,
    end: int,
    batch: nat,
    evaluator_fact: bool,
    evidence: Seq<Seq<char>>,
) -> Result<Seq<EntryView>, Seq<char>>
    decreases end,
{
    if end <= 0 {
        Ok(entries)
    } else {
        match absorbed(entries, findings, end - 1, batch, evaluator_fact, evidence) {
            Err(error) => Err(error),
            Ok(before) => match refusal(findings[end - 1], evidence) {
                Some(error) => Err(error),
                None => Ok(added(before, findings[end - 1], batch, evaluator_fact)),
            },
        }
    }
}

/// The entries of one category, in their order.
pub open spec fn section(entries: Seq<EntryView>, category: Category) -> Seq<EntryView>
    decreases entries.len(),
{
    if entries.len() == 0 {
        Seq::empty()
    } else {
        let before = section(entries.drop_last(), category);
        if entries.last().finding.category == category {
            before.push(entries.last())
        } else {
            before
        }
    }
}

/// What an entry weighs.
pub open spec fn weight(entry: EntryView) -> int {
    entry.finding.text.len() + entry.finding.evidence.len() + 64int
}

/// What entries weigh together.
pub open spec fn weights(entries: Seq<EntryView>) -> int
    decreases entries.len(),
{
    if entries.len() == 0 {
        0
    } else {
        weights(entries.drop_last()) + weight(entries.last())
    }
}

/// The first entry of a category from `from` on.
pub open spec fn first(entries: Seq<EntryView>, category: Category, from: int) -> Option<int>
    decreases entries.len() - from,
{
    if from < 0 || from >= entries.len() {
        None
    } else if entries[from].finding.category == category {
        Some(from)
    } else {
        first(entries, category, from + 1)
    }
}

/// The entries without the oldest of a category, as many as it takes for the rest of that
/// category to weigh no more than it may.
pub open spec fn evicted(entries: Seq<EntryView>, category: Category) -> Seq<EntryView>
    decreases entries.len(),
{
    match first(entries, category, 0) {
        Some(index) => if weights(section(entries, category)) > MAX_SECTION_CHARS && 0 <= index
            < entries.len() {
            evicted(entries.remove(index), category)
        } else {
            entries
        },
        None => entries,
    }
}

/// The entries with every category cut down to what it may weigh.
pub open spec fn bounded(entries: Seq<EntryView>) -> Seq<EntryView> {
    evicted(
        evicted(
            evicted(
                evicted(
                    evicted(entries, Category::SearchFindings),
                    Category::ErrorsAndCorrections,
                ),
                Category::SuccessfulPatterns,
            ),
            Category::KeyFiles,
        ),
        Category::Learnings,
    )
}

/// What is remembered after a batch: first what was inferred, then what was measured, is added;
/// then the oldest entries of full sections leave.
pub open spec fn merged(
    snapshot: SnapshotView,
    batch: nat,
    findings: Seq<FindingView>,
    facts: Seq<FindingView>,
    evidence: Seq<Seq<char>>,
) -> Result<SnapshotView, Seq<char>> {
    match absorbed(
        snapshot.entries,
        findings,
        findings.len() as int,
        batch,
        false,
        evidence,
    ) {
        Err(error) => Err(error),
        Ok(inferred) => match absorbed(
            inferred,
            facts,
            facts.len() as int,
            batch,
            true,
            evidence,
        ) {
            Err(error) => Err(error),
            Ok(all) => Ok(SnapshotView { version: snapshot.version + 1, entries: bounded(all) }),
        },
    }
}

fn check(finding: &Finding, evidence: &Vec<String>) -> (checked: Result<(), String>)
    ensures
        match checked {
            Ok(_) => refusal(finding@, pieces::texts(evidence@)) is None,
            Err(error) => refusal(finding@, pieces::texts(evidence@)) == Some(error@),
        },
{
    let length: usize = chars(finding.text.as_str()).len();
    if trim(finding.text.as_str()).as_str().is_empty() || length > MAX_TEXT_CHARS || pieces::has(
        finding.text.as_str(),
        '\n',
    ) || pieces::has(finding.text.as_str(), '\r') {
        return Err("memory entries must be one line, at most 150 characters".to_owned());
    }
    let mut index: usize = 0;
    while index < evidence.len()
        invariant
            index <= evidence@.len(),
            fits(finding.text@),
            forall|i: int| 0 <= i < index ==> (#[trigger] evidence@[i])@ != finding.evidence@,
        decreases evidence@.len() - index,
    {
        if same(evidence[index].as_str(), finding.evidence.as_str()) {
            assert(pieces::texts(evidence@)[index as int] == finding.evidence@);
            return Ok(());
        }
        index += 1;
    }
    Err("memory entry references unknown evidence".to_owned())
}

proof fn lemma_place(entries: Seq<EntryView>, finding: FindingView, from: int, end: int)
    requires
        0 <= from <= end <= entries.len(),
        forall|i: int| from <= i < end ==> !says(#[trigger] entries[i], finding),
    ensures
        place(entries, finding, from) == place(entries, finding, end),
    decreases end - from,
{
    if from < end {
        lemma_place(entries, finding, from + 1, end);
    }
}

fn find(entries: &Vec<Entry>, finding: &Finding) -> (found: Option<usize>)
    ensures
        match found {
            Some(index) => index < entries@.len() && place(entries_view(entries@), finding@, 0)
                == Some(index as int),
            None => place(entries_view(entries@), finding@, 0) is None,
        },
{
    let ghost all = entries_view(entries@);
    let mut index: usize = 0;
    while index < entries.len()
        invariant
            index <= entries@.len(),
            all == entries_view(entries@),
            forall|i: int| 0 <= i < index ==> !says(#[trigger] all[i], finding@),
        decreases entries@.len() - index,
    {
        assert(all[index as int] == entries@[index as int]@);
        if entries[index].finding.category == finding.category && same(
            entries[index].finding.text.as_str(),
            finding.text.as_str(),
        ) {
            proof {
                lemma_place(all, finding@, 0, index as int);
            }
            return Some(index);
        }
        index += 1;
    }
    proof {
        lemma_place(all, finding@, 0, index as int);
    }
    None
}

fn place_finding(entries: &mut Vec<Entry>, finding: Finding, batch: usize, evaluator_fact: bool)
    ensures
        entries_view(final(entries)@) == added(
            entries_view(old(entries)@),
            finding@,
            batch as nat,
            evaluator_fact,
        ),
{
    let ghost before = entries_view(entries@);
    match find(entries, &finding) {
        Some(index) => {
            if evaluator_fact {
                let entry = Entry { finding, batch, evaluator_fact };
                let ghost view = entry@;
                entries.set(index, entry);
                assert(entries_view(entries@) =~= before.update(index as int, view));
            }
        },
        None => {
            let entry = Entry { finding, batch, evaluator_fact };
            let ghost view = entry@;
            entries.push(entry);
            assert(entries_view(entries@) =~= before.push(view));
        },
    }
}

proof fn lemma_absorbed_refused(
    entries: Seq<EntryView>,
    findings: Seq<FindingView>,
    index: int,
    end: int,
    batch: nat,
    evaluator_fact: bool,
    evidence: Seq<Seq<char>>,
)
    requires
        0 <= index <= end,
        absorbed(entries, findings, index, batch, evaluator_fact, evidence) is Err,
    ensures
        absorbed(entries, findings, end, batch, evaluator_fact, evidence) == absorbed(
            entries,
            findings,
            index,
            batch,
            evaluator_fact,
            evidence,
        ),
    decreases end - index,
{
    if index < end {
        lemma_absorbed_refused(
            entries,
            findings,
            index,
            end - 1,
            batch,
            evaluator_fact,
            evidence,
        );
    }
}

fn absorb(
    entries: &mut Vec<Entry>,
    findings: Vec<Finding>,
    batch: usize,
    evaluator_fact: bool,
    evidence: &Vec<String>,
) -> (done: Result<(), String>)
    ensures
        absorbed(
            entries_view(old(entries)@),
            findings_view(findings@),
            findings@.len() as int,
            batch as nat,
            evaluator_fact,
            pieces::texts(evidence@),
        ) == match done {
            Ok(_) => Ok::<Seq<EntryView>, Seq<char>>(entries_view(final(entries)@)),
            Err(error) => Err::<Seq<EntryView>, Seq<char>>(error@),
        },
{
    let ghost start = entries_view(entries@);
    let ghost all = findings_view(findings@);
    let ghost known = pieces::texts(evidence@);
    for finding in iter: findings
        invariant
            start == entries_view(old(entries)@),
            all == findings_view(findings@),
            all == findings_view(iter.seq()),
            known == pieces::texts(evidence@),
            absorbed(start, all, iter.index() as int, batch as nat, evaluator_fact, known) == Ok::<
                Seq<EntryView>,
                Seq<char>,
            >(entries_view(entries@)),
    {
        assert(all[iter.index() as int] == finding@);
        match check(&finding, evidence) {
            Err(error) => {
                proof {
                    lemma_absorbed_refused(
                        start,
                        all,
                        iter.index() + 1,
                        all.len() as int,
                        batch as nat,
                        evaluator_fact,
                        known,
                    );
                }
                return Err(error);
            },
            Ok(_) => {},
        }
        place_finding(entries, finding, batch, evaluator_fact);
    }
    Ok(())
}

proof fn lemma_first(entries: Seq<EntryView>, category: Category, from: int, end: int)
    requires
        0 <= from <= end <= entries.len(),
        forall|i: int| from <= i < end ==> (#[trigger] entries[i]).finding.category != category,
    ensures
        first(entries, category, from) == first(entries, category, end),
    decreases end - from,
{
    if from < end {
        lemma_first(entries, category, from + 1, end);
    }
}

fn find_first(entries: &Vec<Entry>, category: Category) -> (found: Option<usize>)
    ensures
        match found {
            Some(index) => index < entries@.len() && first(entries_view(entries@), category, 0)
                == Some(index as int),
            None => first(entries_view(entries@), category, 0) is None,
        },
{
    let ghost all = entries_view(entries@);
    let mut index: usize = 0;
    while index < entries.len()
        invariant
            index <= entries@.len(),
            all == entries_view(entries@),
            forall|i: int|
                0 <= i < index ==> (#[trigger] all[i]).finding.category != category,
        decreases entries@.len() - index,
    {
        assert(all[index as int] == entries@[index as int]@);
        if entries[index].finding.category == category {
            proof {
                lemma_first(all, category, 0, index as int);
            }
            return Some(index);
        }
        index += 1;
    }
    proof {
        lemma_first(all, category, 0, index as int);
    }
    None
}

proof fn lemma_weights_rise(entries: Seq<EntryView>, category: Category, index: int)
    requires
        0 <= index <= entries.len(),
    ensures
        0 <= weights(section(entries.take(index), category)) <= weights(section(entries, category)),
    decreases entries.len(),
{
    lemma_weights_sign(section(entries.take(index), category));
    if index == entries.len() {
        assert(entries.take(index) =~= entries);
    } else {
        lemma_weights_rise(entries.drop_last(), category, index);
        assert(entries.drop_last().take(index) =~= entries.take(index));
        let before = section(entries.drop_last(), category);
        assert(before.push(entries.last()).drop_last() =~= before);
    }
}

proof fn lemma_weights_sign(entries: Seq<EntryView>)
    ensures
        weights(entries) >= 0,
    decreases entries.len(),
{
    if entries.len() > 0 {
        lemma_weights_sign(entries.drop_last());
    }
}

fn is_full(entries: &Vec<Entry>, category: Category) -> (full: bool)
    ensures
        full == (weights(section(entries_view(entries@), category)) > MAX_SECTION_CHARS),
{
    let ghost all = entries_view(entries@);
    let mut used: u128 = 0;
    let mut index: usize = 0;
    assert(all.take(0) =~= Seq::<EntryView>::empty());
    while index < entries.len()
        invariant
            index <= entries@.len(),
            all == entries_view(entries@),
            used <= MAX_SECTION_CHARS,
            used == weights(section(all.take(index as int), category)),
        decreases entries@.len() - index,
    {
        proof {
            assert(all[index as int] == entries@[index as int]@);
            assert(all.take(index + 1).drop_last() =~= all.take(index as int));
            let before = section(all.take(index as int), category);
            assert(before.push(all[index as int]).drop_last() =~= before);
            lemma_weights_rise(all, category, index + 1);
        }
        if entries[index].finding.category == category {
            let text: usize = chars(entries[index].finding.text.as_str()).len();
            let evidence: usize = chars(entries[index].finding.evidence.as_str()).len();
            used = used + (text as u128 + evidence as u128 + 64);
            if used > MAX_SECTION_CHARS as u128 {
                return true;
            }
        }
        index += 1;
    }
    assert(all.take(index as int) =~= all);
    false
}

fn evict(entries: &mut Vec<Entry>, category: Category)
    ensures
        entries_view(final(entries)@) == evicted(entries_view(old(entries)@), category),
{
    let ghost start = entries_view(entries@);
    loop
        invariant_except_break
            start == entries_view(old(entries)@),
            evicted(start, category) == evicted(entries_view(entries@), category),
        ensures
            entries_view(entries@) == evicted(start, category),
        decreases entries@.len(),
    {
        let ghost before = entries_view(entries@);
        if !is_full(entries, category) {
            break;
        }
        match find_first(entries, category) {
            Some(index) => {
                let _ = entries.remove(index);
                assert(entries_view(entries@) =~= before.remove(index as int));
            },
            None => {
                break;
            },
        }
    }
}

impl Snapshot {
    /// What is remembered after a batch: first what was inferred, then what was measured, is
    /// added; then the oldest entries of full sections leave.
    pub fn merge(
        &self,
        batch: usize,
        findings: Vec<Finding>,
        facts: Vec<Finding>,
        evidence: &Vec<String>,
    ) -> (result: Result<Self, String>)
        requires
            self.version < i64::MAX,
        ensures
            merged(
                self@,
                batch as nat,
                findings_view(findings@),
                findings_view(facts@),
                pieces::texts(evidence@),
            ) == match result {
                Ok(next) => Ok::<SnapshotView, Seq<char>>(next@),
                Err(error) => Err::<SnapshotView, Seq<char>>(error@),
            },
    {
        let mut next = self.clone();
        match absorb(&mut next.entries, findings, batch, false, evidence) {
            Err(error) => {
                return Err(error);
            },
            Ok(_) => {},
        }
        match absorb(&mut next.entries, facts, batch, true, evidence) {
            Err(error) => {
                return Err(error);
            },
            Ok(_) => {},
        }
        evict(&mut next.entries, Category::SearchFindings);
        evict(&mut next.entries, Category::ErrorsAndCorrections);
        evict(&mut next.entries, Category::SuccessfulPatterns);
        evict(&mut next.entries, Category::KeyFiles);
        evict(&mut next.entries, Category::Learnings);
        next.version = next.version + 1;
        Ok(next)
    }
}

/// The name of a category.
pub open spec fn category_name(category: Category) -> Seq<char> {
    match category {
        Category::SearchFindings => "search_findings"@,
        Category::ErrorsAndCorrections => "errors_and_corrections"@,
        Category::SuccessfulPatterns => "successful_patterns"@,
        Category::KeyFiles => "key_files"@,
        Category::Learnings => "learnings"@,
    }
}

impl Category {
    /// The name of a category.
    pub fn name(self) -> (name: &'static str)
        ensures
            name@ == category_name(self),
    {
        match self {
            Category::SearchFindings => "search_findings",
            Category::ErrorsAndCorrections => "errors_and_corrections",
            Category::SuccessfulPatterns => "successful_patterns",
            Category::KeyFiles => "key_files",
            Category::Learnings => "learnings",
        }
    }
}

/// How an entry is written.
pub open spec fn entry_record(entry: EntryView) -> JsonView {
    JsonView::Object(
        seq![
            (
                "finding"@,
                JsonView::Object(
                    seq![
                        ("category"@, JsonView::Text(category_name(entry.finding.category))),
                        ("text"@, JsonView::Text(entry.finding.text)),
                        ("evidence"@, JsonView::Text(entry.finding.evidence)),
                    ],
                ),
            ),
            ("batch"@, fields::natural_view(entry.batch)),
            ("evaluator_fact"@, JsonView::Bool(entry.evaluator_fact)),
        ],
    )
}

/// How entries are written.
pub open spec fn entry_records(entries: Seq<EntryView>) -> JsonView {
    JsonView::Array(Seq::new(entries.len(), |i: int| entry_record(entries[i])))
}

fn write_entry(entry: &Entry) -> (value: Json)
    ensures
        value@ == entry_record(entry@),
{
    let finding = Fields::new().with("category", text(entry.finding.category.name())).with(
        "text",
        text(entry.finding.text.as_str()),
    ).with("evidence", text(entry.finding.evidence.as_str()));
    assert(finding@ =~= entry_record(entry@)->Object_0[0].1->Object_0);
    let all = Fields::new().with("finding", finding.object()).with(
        "batch",
        natural(entry.batch as u64),
    ).with("evaluator_fact", Json::Bool(entry.evaluator_fact));
    assert(all@ =~= entry_record(entry@)->Object_0);
    all.object()
}

fn write_entries(entries: &Vec<Entry>) -> (value: Json)
    ensures
        value@ == entry_records(entries_view(entries@)),
{
    broadcast use json::array_view;

    let ghost all = entries_view(entries@);
    let mut items: Vec<Json> = Vec::new();
    let mut index: usize = 0;
    while index < entries.len()
        invariant
            index <= entries@.len(),
            all == entries_view(entries@),
            items@.len() == index,
            forall|i: int| 0 <= i < index ==> (#[trigger] items@[i])@ == entry_record(all[i]),
        decreases entries@.len() - index,
    {
        items.push(write_entry(&entries[index]));
        index += 1;
    }
    let value = Json::Array(items);
    assert(value@->Array_0 =~= entry_records(all)->Array_0);
    value
}

/// What a snapshot is kept as.
pub open spec fn snapshot_record(snapshot: SnapshotView) -> JsonView {
    JsonView::Object(
        seq![
            ("version"@, fields::signed_view(snapshot.version)),
            ("entries"@, entry_records(snapshot.entries)),
        ],
    )
}

/// What candidates are told of what is remembered.
pub open spec fn told(snapshot: SnapshotView, run_id: Seq<char>) -> Seq<char> {
    "Run-scoped search memory ("@ + run_id + ", version "@ + numeral::signed(snapshot.version)
        + "). Entries marked evaluator_fact are measurements; all others are unverified inferences.\n"@
        + written::compact(entry_records(snapshot.entries))
}

/// What the extraction of findings is told.
pub open spec fn extraction_text(context: Seq<char>, evidence: JsonView) -> Seq<char> {
    "Distill this batch's candidate events and evaluator evidence. Cite only the supplied evidence IDs. Return new, concise inferences, not claims of verified correctness. Existing memory:\n"@
        + context + "\nBatch:\n"@ + written::compact(evidence)
}

impl Snapshot {
    /// What candidates are told of what is remembered.
    pub fn context(&self, run_id: &str) -> (told: String)
        ensures
            told@ == self::told(self@, run_id@),
    {
        "Run-scoped search memory (".to_owned().concat(run_id).concat(", version ").concat(
            signed_numeral(self.version as i128).as_str(),
        ).concat(
            "). Entries marked evaluator_fact are measurements; all others are unverified inferences.\n",
        ).concat(to_text(&write_entries(&self.entries)).as_str())
    }

    /// What the snapshot is kept as.
    pub fn record(&self) -> (value: Json)
        ensures
            value@ == snapshot_record(self@),
    {
        let all = Fields::new().with("version", signed(self.version)).with(
            "entries",
            write_entries(&self.entries),
        );
        assert(all@ =~= snapshot_record(self@)->Object_0);
        all.object()
    }
}

/// What the extraction of findings is told; `context` is what is remembered.
pub fn extraction_input(evidence: &Json, context: &str) -> (told: String)
    ensures
        told@ == extraction_text(context@, evidence@),
{
    "Distill this batch's candidate events and evaluator evidence. Cite only the supplied evidence IDs. Return new, concise inferences, not claims of verified correctness. Existing memory:\n".to_owned().concat(
        context,
    ).concat("\nBatch:\n").concat(to_text(evidence).as_str())
}

/// What findings have to look like.
pub open spec fn findings_schema() -> JsonView {
    let words = JsonView::Object(seq![("type"@, JsonView::Text("string"@))]);
    let item = JsonView::Object(
        seq![
            ("type"@, JsonView::Text("object"@)),
            ("additionalProperties"@, JsonView::Bool(false)),
            (
                "required"@,
                fields::strings_view(seq!["category"@, "text"@, "evidence"@]),
            ),
            (
                "properties"@,
                JsonView::Object(
                    seq![
                        (
                            "category"@,
                            JsonView::Object(
                                seq![
                                    ("type"@, JsonView::Text("string"@)),
                                    (
                                        "enum"@,
                                        fields::strings_view(
                                            seq![
                                                "search_findings"@,
                                                "errors_and_corrections"@,
                                                "successful_patterns"@,
                                                "key_files"@,
                                                "learnings"@,
                                            ],
                                        ),
                                    ),
                                ],
                            ),
                        ),
                        (
                            "text"@,
                            JsonView::Object(
                                seq![
                                    ("type"@, JsonView::Text("string"@)),
                                    ("maxLength"@, fields::natural_view(150)),
                                ],
                            ),
                        ),
                        ("evidence"@, words),
                    ],
                ),
            ),
        ],
    );
    JsonView::Object(
        seq![
            ("type"@, JsonView::Text("object"@)),
            ("additionalProperties"@, JsonView::Bool(false)),
            ("required"@, fields::strings_view(seq!["findings"@])),
            (
                "properties"@,
                JsonView::Object(
                    seq![
                        (
                            "findings"@,
                            JsonView::Object(
                                seq![
                                    ("type"@, JsonView::Text("array"@)),
                                    ("maxItems"@, fields::natural_view(30)),
                                    ("items"@, item),
                                ],
                            ),
                        ),
                    ],
                ),
            ),
        ],
    )
}

fn owned(list: &[&str]) -> (copy: Vec<String>)
    ensures
        pieces::texts(copy@) == Seq::new(list@.len(), |i: int| list@[i]@),
{
    let mut copy: Vec<String> = Vec::new();
    let mut index: usize = 0;
    while index < list.len()
        invariant
            index <= list@.len(),
            copy@.len() == index,
            forall|i: int| 0 <= i < index ==> (#[trigger] copy@[i])@ == list@[i]@,
        decreases list@.len() - index,
    {
        copy.push(list[index].to_owned());
        index += 1;
    }
    assert(pieces::texts(copy@) =~= Seq::new(list@.len(), |i: int| list@[i]@));
    copy
}

fn write_properties() -> (value: Json)
    ensures
        value@
            == findings_schema()->Object_0[3].1->Object_0[0].1->Object_0[2].1->Object_0[3].1,
{
    let ghost all =
        findings_schema()->Object_0[3].1->Object_0[0].1->Object_0[2].1->Object_0[3].1->Object_0;
    let names = owned(
        &[
            "search_findings",
            "errors_and_corrections",
            "successful_patterns",
            "key_files",
            "learnings",
        ],
    );
    assert(pieces::texts(names@) =~= seq![
        "search_findings"@,
        "errors_and_corrections"@,
        "successful_patterns"@,
        "key_files"@,
        "learnings"@,
    ]);
    let category = Fields::new().with("type", text("string")).with("enum", strings(&names));
    assert(category@ =~= all[0].1->Object_0);
    let said = Fields::new().with("type", text("string")).with("maxLength", natural(150));
    assert(said@ =~= all[1].1->Object_0);
    let evidence = Fields::new().with("type", text("string"));
    assert(evidence@ =~= all[2].1->Object_0);
    let properties = Fields::new().with("category", category.object()).with(
        "text",
        said.object(),
    ).with("evidence", evidence.object());
    assert(properties@ =~= all);
    properties.object()
}

/// What findings have to look like.
pub fn schema() -> (value: Json)
    ensures
        value@ == findings_schema(),
{
    let ghost all = findings_schema()->Object_0;
    let names = owned(&["category", "text", "evidence"]);
    assert(pieces::texts(names@) =~= seq!["category"@, "text"@, "evidence"@]);
    let item = Fields::new().with("type", text("object")).with(
        "additionalProperties",
        Json::Bool(false),
    ).with("required", strings(&names)).with("properties", write_properties());
    assert(item@ =~= all[3].1->Object_0[0].1->Object_0[2].1->Object_0);
    let list = Fields::new().with("type", text("array")).with("maxItems", natural(30)).with(
        "items",
        item.object(),
    );
    assert(list@ =~= all[3].1->Object_0[0].1->Object_0);
    let properties = Fields::new().with("findings", list.object());
    assert(properties@ =~= all[3].1->Object_0);
    let names = owned(&["findings"]);
    assert(pieces::texts(names@) =~= seq!["findings"@]);
    let whole = Fields::new().with("type", text("object")).with(
        "additionalProperties",
        Json::Bool(false),
    ).with("required", strings(&names)).with("properties", properties.object());
    assert(whole@ =~= all);
    whole.object()
}

/// The evidence that a batch gave, by its names.
pub open spec fn known(batch: Seq<JsonView>, end: int) -> Seq<Seq<char>>
    decreases end,
{
    if end <= 0 {
        Seq::empty()
    } else {
        match batch[end - 1].at("id"@).text() {
            Some(id) => known(batch, end - 1).push(id),
            None => known(batch, end - 1),
        }
    }
}

/// What was measured of a candidate.
pub open spec fn fact(evidence: JsonView) -> FindingView {
    let outcome = evidence.at("evaluation"@).at("outcome"@);
    FindingView {
        category: if outcome.at("status"@).is_text("success"@) {
            Category::SuccessfulPatterns
        } else {
            Category::ErrorsAndCorrections
        },
        text: written::compact(evidence.at("id"@)) + ": status="@ + written::compact(
            outcome.at("status"@),
        ) + ", speedup="@ + written::compact(outcome.at("speedup"@)) + ", validation="@
            + written::compact(evidence.at("evaluation"@).at("validation"@)),
        evidence: evidence.at("id"@).text_or_empty(),
    }
}

/// The names of the evidence that a batch gave.
pub fn evidence_ids(batch: &Vec<Json>) -> (ids: Vec<String>)
    ensures
        pieces::texts(ids@) == known(json::items_view(batch@), batch@.len() as int),
{
    let ghost all = json::items_view(batch@);
    let mut ids: Vec<String> = Vec::new();
    let mut index: usize = 0;
    assert(pieces::texts(ids@) =~= known(all, 0));
    while index < batch.len()
        invariant
            index <= batch@.len(),
            all == json::items_view(batch@),
            pieces::texts(ids@) == known(all, index as int),
        decreases batch@.len() - index,
    {
        assert(all[index as int] == batch@[index as int]@);
        match batch[index].at("id").text() {
            Some(id) => {
                let id = id.to_owned();
                proof {
                    pieces::lemma_texts_push(ids@, id);
                }
                ids.push(id);
            },
            None => {},
        }
        index += 1;
    }
    ids
}

fn write_fact(evidence: &Json) -> (finding: Finding)
    ensures
        finding@ == fact(evidence@),
{
    let outcome = evidence.at("evaluation").at("outcome");
    let said = to_text(evidence.at("id")).concat(": status=").concat(
        to_text(outcome.at("status")).as_str(),
    ).concat(", speedup=").concat(to_text(outcome.at("speedup")).as_str()).concat(
        ", validation=",
    ).concat(to_text(evidence.at("evaluation").at("validation")).as_str());
    Finding {
        category: if outcome.at("status").is_text("success") {
            Category::SuccessfulPatterns
        } else {
            Category::ErrorsAndCorrections
        },
        text: said,
        evidence: evidence.at("id").text_or_empty().to_owned(),
    }
}

/// What was measured of the candidates of a batch.
pub fn facts(batch: &Vec<Json>) -> (list: Vec<Finding>)
    ensures
        findings_view(list@) == Seq::new(
            batch@.len(),
            |i: int| fact(json::items_view(batch@)[i]),
        ),
{
    let mut list: Vec<Finding> = Vec::new();
    let mut index: usize = 0;
    while index < batch.len()
        invariant
            index <= batch@.len(),
            list@.len() == index,
            forall|i: int| 0 <= i < index ==> (#[trigger] list@[i])@ == fact(batch@[i]@),
        decreases batch@.len() - index,
    {
        list.push(write_fact(&batch[index]));
        index += 1;
    }
    assert(findings_view(list@) =~= Seq::new(
        batch@.len(),
        |i: int| fact(json::items_view(batch@)[i]),
    ));
    list
}

} // verus!
