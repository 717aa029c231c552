//! What a candidate's author is told about its parent.
use crate::analyzers::output;
use crate::analyzers::output::add_numbered;
use crate::fields::Fields;
use crate::json;
use crate::json::{Json, JsonView};
use crate::lines::Lines;
use crate::outside;
use crate::outside::{finds, groups, to_lower};
use crate::pieces;
use crate::recommend;
use crate::recommend::ranked;
use crate::sorted;
use crate::template;
use crate::template::{Templates, TemplatesView, Values, ValuesView};
use crate::text;
use crate::text::{contains, same};
use crate::words;
use crate::words::{first_characters, last_characters};
use crate::written;
use crate::written::display;
use vstd::prelude::*;

verus! {

/// A text, or why there is none.
pub type Told = Result<Seq<char>, Seq<char>>;

/// A template of the feedback filled in.
pub open spec fn rendered(templates: TemplatesView, name: Seq<char>, values: ValuesView) -> Told {
    template::rendered(
        template::template_of(templates, name, "feedback template"@, 0),
        values,
        "missing template value "@,
    )
}

fn render(templates: &Templates, name: &str, values: &Values) -> (result: Result<String, String>)
    ensures
        pieces::told(result) == rendered(templates@, name@, values@),
{
    templates.render(name, values, "feedback template", "missing template value ")
}

/// `before` and the template of a name filled in.
pub open spec fn added(
    before: Told,
    templates: TemplatesView,
    name: Seq<char>,
    values: ValuesView,
) -> Told {
    match before {
        Err(reason) => Err(reason),
        Ok(text) => match rendered(templates, name, values) {
            Err(reason) => Err(reason),
            Ok(more) => Ok(text + more),
        },
    }
}

/// The text of a field as a report shows it, `default` where there is none.
pub open spec fn field_text(value: JsonView, key: Seq<char>, default: Seq<char>) -> Seq<char> {
    match value.get(key) {
        None => default,
        Some(held) => written::shown(held),
    }
}

fn text_of(value: &Json, key: &str, default: &str) -> (text: String)
    ensures
        text@ == field_text(value@, key@, default@),
{
    match value.get(key) {
        None => default.to_owned(),
        Some(held) => display(held),
    }
}

/// Which advice suits an error: by its kind, and by what its message in small letters says.
pub open spec fn advice(kind: Seq<char>, lower: Seq<char>) -> int {
    if kind == "correctness_error"@ {
        0
    } else if text::holds(lower, "cuda"@) {
        if text::holds(lower, "misaligned"@) {
            1
        } else if text::holds(lower, "launch"@) {
            2
        } else {
            3
        }
    } else if kind == "SyntaxError"@ {
        4
    } else if kind == "ImportError"@ {
        5
    } else {
        6
    }
}

/// Which advice suits an error: by its kind, and by what its message in small letters says.
pub fn choose_advice(kind: &str, lower: &str) -> (index: usize)
    ensures
        index == advice(kind@, lower@),
{
    if same(kind, "correctness_error") {
        0
    } else if contains(lower, "cuda") {
        if contains(lower, "misaligned") {
            1
        } else if contains(lower, "launch") {
            2
        } else {
            3
        }
    } else if same(kind, "SyntaxError") {
        4
    } else if same(kind, "ImportError") {
        5
    } else {
        6
    }
}

/// The lines on failed assertions.
pub open spec fn assertion_lines(assertions: Seq<Seq<char>>, end: int) -> Seq<char>
    decreases end,
{
    if end <= 0 {
        Seq::empty()
    } else {
        assertion_lines(assertions, end - 1) + "- "@ + assertions[end - 1] + "\n"@
    }
}

/// The first five of a list.
pub open spec fn first_five(list: Seq<Seq<char>>) -> Seq<Seq<char>> {
    if list.len() > 5 {
        list.take(5)
    } else {
        list
    }
}

/// What a compiler's output comes down to: the assertions that failed, each once and in order, and
/// its first five errors.
pub open spec fn compiler_summary(groups: Seq<Option<Seq<char>>>, errors: Seq<Seq<char>>) -> Seq<char> {
    let list = pieces::taken(groups, groups.len() as int);
    let assertions = sorted::in_order(list, list.len() as int);
    (if assertions.len() > 0 {
        "**Root cause (static_assert):**\n"@ + assertion_lines(assertions, assertions.len() as int)
    } else {
        Seq::empty()
    }) + (if errors.len() > 0 {
        "**Compiler errors:**\n```\n"@ + pieces::joined(first_five(errors), "\n"@) + "\n```\n"@
    } else {
        Seq::empty()
    })
}

/// The model of groups.
pub open spec fn groups_view(groups: Seq<Option<String>>) -> Seq<Option<Seq<char>>> {
    Seq::new(groups.len(), |i: int| pieces::optional(groups[i]))
}

/// The failed assertions, each once and in order.
fn sort_assertions(groups: &Vec<Option<String>>) -> (list: Vec<String>)
    ensures
        ({
            let all = pieces::taken(groups_view(groups@), groups@.len() as int);
            pieces::texts(list@) == sorted::in_order(all, all.len() as int)
        }),
{
    let ghost shown = groups_view(groups@);
    let mut list: Vec<String> = Vec::new();
    let mut index: usize = 0;
    assert(pieces::texts(list@) =~= Seq::<Seq<char>>::empty());
    while index < groups.len()
        invariant
            index <= groups@.len(),
            shown == groups_view(groups@),
            pieces::texts(list@) == sorted::in_order(
                pieces::taken(shown, index as int),
                pieces::taken(shown, index as int).len() as int,
            ),
        decreases groups@.len() - index,
    {
        assert(shown[index as int] == pieces::optional(groups@[index as int]));
        if let Some(group) = &groups[index] {
            sorted::insert(&mut list, group.as_str());
            proof {
                let before = pieces::taken(shown, index as int);
                let after = pieces::taken(shown, index + 1);
                assert(after == before.push(group@));
                lemma_in_order_prefix(after, before, before.len() as int);
            }
        }
        index += 1;
    }
    list
}

proof fn lemma_in_order_prefix(left: Seq<Seq<char>>, right: Seq<Seq<char>>, end: int)
    requires
        end <= left.len(),
        end <= right.len(),
        forall|i: int| 0 <= i < end ==> #[trigger] left[i] == right[i],
    ensures
        sorted::in_order(left, end) == sorted::in_order(right, end),
    decreases end,
{
    if end > 0 {
        lemma_in_order_prefix(left, right, end - 1);
        assert(left[end - 1] == right[end - 1]);
    }
}

/// What a compiler's output comes down to.
pub fn summarize(groups: &Vec<Option<String>>, errors: &Vec<String>) -> (text: String)
    ensures
        text@ == compiler_summary(groups_view(groups@), pieces::texts(errors@)),
{
    let assertions = sort_assertions(groups);
    let ghost sorted_texts = pieces::texts(assertions@);
    let mut text = String::new();
    assert(text@ =~= Seq::<char>::empty());
    if assertions.len() > 0 {
        text.append("**Root cause (static_assert):**\n");
        let ghost title = text@;
        assert(title =~= "**Root cause (static_assert):**\n"@);
        let mut index: usize = 0;
        assert(title + assertion_lines(sorted_texts, 0) =~= title);
        while index < assertions.len()
            invariant
                index <= assertions@.len(),
                sorted_texts == pieces::texts(assertions@),
                text@ == title + assertion_lines(sorted_texts, index as int),
            decreases assertions@.len() - index,
        {
            let ghost before = text@;
            text.append("- ");
            text.append(assertions[index].as_str());
            text.append("\n");
            index += 1;
            assert(text@ =~= title + assertion_lines(sorted_texts, index as int));
        }
    }
    let ghost first = text@;
    if errors.len() > 0 {
        let mut few = Lines::new();
        let mut index: usize = 0;
        let limit: usize = if errors.len() > 5 {
            5
        } else {
            errors.len()
        };
        let ghost all = pieces::texts(errors@);
        while index < limit
            invariant
                index <= limit <= errors@.len(),
                all == pieces::texts(errors@),
                few@ == all.take(index as int),
            decreases limit - index,
        {
            few.add_text(errors[index].as_str());
            index += 1;
            assert(few@ =~= all.take(index as int));
        }
        assert(few@ =~= first_five(all));
        text.append("**Compiler errors:**\n```\n");
        text.append(few.join("\n").as_str());
        text.append("\n```\n");
        assert(text@ =~= first + ("**Compiler errors:**\n```\n"@ + pieces::joined(
            first_five(all),
            "\n"@,
        ) + "\n```\n"@));
    } else {
        assert(text@ =~= first + Seq::<char>::empty());
    }
    text
}

/// The values that every part of the feedback on an error can use.
pub open spec fn error_values(error: JsonView, code: Seq<char>, guidance: Seq<char>) -> ValuesView {
    seq![
        ("error_type"@, field_text(error, "error_type"@, "Unknown"@)),
        ("error_msg"@, field_text(error, "error_message"@, "No details"@)),
        ("stage"@, field_text(error, "stage"@, "unknown"@)),
        ("previous_code"@, code),
        ("guidance"@, guidance),
    ]
}

/// The values for the part on the message, and the template for it.
pub open spec fn message_part(error: JsonView, values: ValuesView) -> (Seq<char>, ValuesView) {
    let summary = error.at("error_summary"@).text_or_empty();
    if summary.len() > 0 {
        (
            "error_summary"@,
            values.push(("error_summary"@, summary)).push(
                (
                    "error_abbrev"@,
                    words::tail(field_text(error, "error_message"@, "No details"@), 1500),
                ),
            ),
        )
    } else {
        ("error_message"@, values)
    }
}

/// The regular expression for failed assertions.
pub open spec fn assertion_pattern() -> Seq<char> {
    "static assertion failed with \"([^\"]+)\""@
}

/// The summary of a compiler's output.
pub open spec fn output_summary(traceback: Seq<char>) -> Told {
    match outside::regex_groups(assertion_pattern(), traceback) {
        Err(reason) => Err(reason),
        Ok(groups) => match outside::regex_finds("error:.*"@, traceback) {
            Err(reason) => Err(reason),
            Ok(errors) => Ok(compiler_summary(groups, errors)),
        },
    }
}

/// The feedback so far, and the part on the traceback; the values with what it needs.
pub open spec fn with_traceback(
    before: Told,
    templates: TemplatesView,
    traceback: Seq<char>,
    values: ValuesView,
) -> (Told, ValuesView) {
    if traceback.len() == 0 {
        (before, values)
    } else if text::holds(traceback, "static assertion failed"@) || text::holds(
        traceback,
        "copy_traits"@,
    ) {
        match output_summary(traceback) {
            Err(reason) => (
                match before {
                    Err(earlier) => Err(earlier),
                    Ok(_) => Err(reason),
                },
                values,
            ),
            Ok(summary) => {
                let more = values.push(("cute_summary"@, summary)).push(
                    ("traceback_tail"@, words::tail(traceback, 2000)),
                );
                (added(before, templates, "error_cute"@, more), more)
            },
        }
    } else {
        let more = values.push(("traceback_head"@, words::head(traceback, 2000)));
        (added(before, templates, "error_traceback"@, more), more)
    }
}

/// The feedback on an error.
pub open spec fn error_feedback(
    templates: TemplatesView,
    assets: JsonView,
    error: JsonView,
    code: Seq<char>,
) -> Told {
    let index = advice(
        field_text(error, "error_type"@, "Unknown"@),
        outside::lowercase(field_text(error, "error_message"@, "No details"@)),
    );
    match assets.at("guidance"@).item(index) {
        JsonView::Text(guidance) => {
            let values = error_values(error, code, guidance);
            let (name, more) = message_part(error, values);
            let header = rendered(templates, "error_header"@, values);
            let (told, all) = with_traceback(
                added(header, templates, name, more),
                templates,
                error.at("traceback"@).text_or_empty(),
                more,
            );
            added(told, templates, "error_tail"@, all)
        },
        _ => Err("error guidance"@),
    }
}

/// Adds a template filled in.
fn append_part(output: &mut String, templates: &Templates, name: &str, values: &Values) -> (result: Result<
    (),
    String,
>)
    ensures
        match result {
            Ok(_) => added(Ok(old(output)@), templates@, name@, values@) == Told::Ok(
                final(output)@,
            ),
            Err(error) => added(Ok(old(output)@), templates@, name@, values@) == Told::Err(error@),
        },
{
    match render(templates, name, values) {
        Err(error) => Err(error),
        Ok(more) => {
            output.append(more.as_str());
            Ok(())
        },
    }
}

/// Adds the part on the traceback.
fn add_traceback(output: &mut String, templates: &Templates, traceback: &str, values: &mut Values) -> (result:
    Result<(), String>)
    ensures
        ({
            let (told, all) = with_traceback(
                Ok(old(output)@),
                templates@,
                traceback@,
                old(values)@,
            );
            match result {
                Ok(_) => told == Told::Ok(final(output)@) && final(values)@ == all,
                Err(error) => told == Told::Err(error@),
            }
        }),
{
    if traceback.is_empty() {
        return Ok(());
    }
    if contains(traceback, "static assertion failed") || contains(traceback, "copy_traits") {
        let found = match groups("static assertion failed with \"([^\"]+)\"", traceback) {
            Ok(found) => found,
            Err(error) => {
                return Err(error);
            },
        };
        let errors = match finds("error:.*", traceback) {
            Ok(errors) => errors,
            Err(error) => {
                return Err(error);
            },
        };
        proof {
            assert(groups_view(found@) =~= outside::regex_groups(
                assertion_pattern(),
                traceback@,
            )->Ok_0);
        }
        values.push("cute_summary", summarize(&found, &errors));
        values.push("traceback_tail", last_characters(traceback, 2000));
        append_part(output, templates, "error_cute", values)
    } else {
        values.push("traceback_head", first_characters(traceback, 2000));
        append_part(output, templates, "error_traceback", values)
    }
}

/// Tells of an error.
fn tell_error(templates: &Templates, assets: &Json, error: &Json, code: &str) -> (result: Result<
    String,
    String,
>)
    ensures
        pieces::told(result) == error_feedback(templates@, assets@, error@, code@),
{
    let message = text_of(error, "error_message", "No details");
    let kind = text_of(error, "error_type", "Unknown");
    let index = choose_advice(kind.as_str(), to_lower(message.as_str()).as_str());
    let guidance = match assets.at("guidance").item(index).text() {
        Some(guidance) => guidance.to_owned(),
        None => {
            return Err("error guidance".to_owned());
        },
    };
    let ghost basic = error_values(error@, code@, guidance@);
    let mut values = Values::new().with("error_type", kind).with("error_msg", message.clone()).with(
        "stage",
        text_of(error, "stage", "unknown"),
    ).with("previous_code", code.to_owned()).with("guidance", guidance);
    assert(values@ =~= basic);
    let mut output = match render(templates, "error_header", &values) {
        Ok(output) => output,
        Err(reason) => {
            return Err(reason);
        },
    };
    let summary = error.at("error_summary").text_or_empty();
    let added_message = if !summary.is_empty() {
        values.push("error_summary", summary.to_owned());
        values.push("error_abbrev", last_characters(message.as_str(), 1500));
        append_part(&mut output, templates, "error_summary", &values)
    } else {
        append_part(&mut output, templates, "error_message", &values)
    };
    if let Err(reason) = added_message {
        return Err(reason);
    }
    if let Err(reason) = add_traceback(
        &mut output,
        templates,
        error.at("traceback").text_or_empty(),
        &mut values,
    ) {
        return Err(reason);
    }
    match append_part(&mut output, templates, "error_tail", &values) {
        Ok(_) => Ok(output),
        Err(reason) => Err(reason),
    }
}

/// The texts of items, empty for those that are none.
pub open spec fn item_texts(items: Seq<JsonView>) -> Seq<Seq<char>> {
    Seq::new(items.len(), |i: int| items[i].text_or_empty())
}

/// The recommendations of an analysis as a numbered list.
pub open spec fn recommendations(profile: JsonView) -> Seq<char> {
    match profile.at("optimization_recommendations"@) {
        JsonView::Array(items) => if items.len() > 0 {
            pieces::joined(output::numbered(item_texts(items)), "\n"@)
        } else {
            "No specific recommendations available."@
        },
        _ => "No specific recommendations available."@,
    }
}

fn list_recommendations(profile: &Json) -> (text: String)
    ensures
        text@ == recommendations(profile@),
{
    match profile.at("optimization_recommendations").items() {
        Some(items) => {
            if items.len() == 0 {
                return "No specific recommendations available.".to_owned();
            }
            let ghost all = item_texts(json::items_view(items@));
            let mut texts = Lines::new();
            let mut index: usize = 0;
            while index < items.len()
                invariant
                    index <= items@.len(),
                    all == item_texts(json::items_view(items@)),
                    texts@ == all.take(index as int),
                decreases items@.len() - index,
            {
                assert(json::items_view(items@)[index as int] == items@[index as int]@);
                texts.add_text(items[index].text_or_empty());
                index += 1;
                assert(texts@ =~= all.take(index as int));
            }
            assert(texts@ =~= all);
            let mut lines = Lines::new();
            add_numbered(&mut lines, &texts.list);
            assert(lines@ =~= output::numbered(all));
            lines.join("\n")
        },
        None => "No specific recommendations available.".to_owned(),
    }
}

/// A number with one decimal place, that of zero where there is none.
pub open spec fn tenths(value: JsonView) -> Seq<char> {
    match value.reading() {
        Some(reading) => reading.tenths,
        None => "0.0"@,
    }
}

fn tenths_text(value: &Json) -> (text: String)
    ensures
        text@ == tenths(value@),
{
    match value.reading() {
        Some(reading) => reading.tenths.clone(),
        None => "0.0".to_owned(),
    }
}

/// The values that every part of the feedback on an analysis can use.
pub open spec fn profile_values(profile: JsonView, code: Seq<char>) -> ValuesView {
    seq![
        ("bottleneck"@, field_text(profile, "bottleneck_type"@, "Unknown"@)),
        ("severity"@, field_text(profile, "severity"@, "Unknown"@)),
        ("priority"@, tenths(profile.at("priority_score"@))),
        ("improvement"@, tenths(profile.at("estimated_improvement"@))),
        ("previous_code"@, code),
        ("recs_text"@, recommendations(profile)),
    ]
}

/// The values with the block on the profiler's rules.
pub open spec fn with_rules(templates: TemplatesView, profile: JsonView, values: ValuesView) -> Result<
    ValuesView,
    Seq<char>,
> {
    match recommend::rules_of(profile) {
        None => Ok(values.push(("rule_block"@, Seq::empty()))),
        Some(rules) => {
            let more = values.push(
                ("ranked"@, pieces::joined(recommend::rule_lines(rules), "\n"@)),
            );
            match rendered(templates, "rules"@, more) {
                Err(reason) => Err(reason),
                Ok(block) => Ok(more.push(("rule_block"@, block))),
            }
        },
    }
}

/// The feedback on an analysis.
pub open spec fn profile_feedback(templates: TemplatesView, profile: JsonView, code: Seq<char>) -> Told {
    match with_rules(templates, profile, profile_values(profile, code)) {
        Err(reason) => Err(reason),
        Ok(values) => {
            let header = rendered(templates, "profile_header"@, values);
            let details = profile.at("detailed_analysis"@).text_or_empty();
            if details.len() > 0 {
                let more = values.push(("detailed"@, details));
                added(
                    added(header, templates, "profile_details"@, more),
                    templates,
                    "profile_tail"@,
                    more,
                )
            } else {
                added(header, templates, "profile_tail"@, values)
            }
        },
    }
}

/// Tells of an analysis.
fn tell_profile(templates: &Templates, profile: &Json, code: &str) -> (result: Result<String, String>)
    ensures
        pieces::told(result) == profile_feedback(templates@, profile@, code@),
{
    let mut values = Values::new().with(
        "bottleneck",
        text_of(profile, "bottleneck_type", "Unknown"),
    ).with("severity", text_of(profile, "severity", "Unknown")).with(
        "priority",
        tenths_text(profile.at("priority_score")),
    ).with("improvement", tenths_text(profile.at("estimated_improvement"))).with(
        "previous_code",
        code.to_owned(),
    ).with("recs_text", list_recommendations(profile));
    assert(values@ =~= profile_values(profile@, code@));
    let block = match ranked(profile) {
        None => {
            let empty = String::new();
            assert(empty@ =~= Seq::<char>::empty());
            empty
        },
        Some(list) => {
            values.push("ranked", list);
            match render(templates, "rules", &values) {
                Ok(block) => block,
                Err(reason) => {
                    return Err(reason);
                },
            }
        },
    };
    values.push("rule_block", block);
    let mut output = match render(templates, "profile_header", &values) {
        Ok(output) => output,
        Err(reason) => {
            return Err(reason);
        },
    };
    let details = profile.at("detailed_analysis").text_or_empty();
    if !details.is_empty() {
        values.push("detailed", details.to_owned());
        if let Err(reason) = append_part(&mut output, templates, "profile_details", &values) {
            return Err(reason);
        }
    }
    match append_part(&mut output, templates, "profile_tail", &values) {
        Ok(_) => Ok(output),
        Err(reason) => Err(reason),
    }
}

/// What is told about a parent.
pub open spec fn parent_feedback(payload: JsonView, templates: TemplatesView, assets: JsonView) -> Told {
    let parent = payload.at("parent"@);
    let code = parent.at("submission"@).at("code"@).text_or_empty();
    if parent == JsonView::Null {
        Ok(Seq::empty())
    } else if parent.at("outcome"@).at("status"@).is_text("failed"@) {
        error_feedback(templates, assets, parent.at("outcome"@).at("error_context"@), code)
    } else if parent.at("analysis"@).filled() {
        profile_feedback(templates, parent.at("analysis"@), code)
    } else if payload.at("mode"@).is_text("initial"@) {
        rendered(templates, "fresh"@, seq![("previous_code"@, code)])
    } else {
        Ok(code)
    }
}

/// The feedback, with a hint behind it if one is given.
pub open spec fn feedback_told(payload: JsonView, templates: TemplatesView, assets: JsonView) -> Told {
    let hint = payload.at("hint"@).text_or_empty();
    match parent_feedback(payload, templates, assets) {
        Err(reason) => Err(reason),
        Ok(text) => if hint.len() > 0 {
            added(Ok(text + "\n\n"@), templates, "hint"@, seq![("hint"@, hint)])
        } else {
            Ok(text)
        },
    }
}

fn tell_of_parent(payload: &Json, templates: &Templates, assets: &Json) -> (result: Result<
    String,
    String,
>)
    ensures
        pieces::told(result) == parent_feedback(payload@, templates@, assets@),
{
    let parent = payload.at("parent");
    let code = parent.at("submission").at("code").text_or_empty();
    if parent.is_null() {
        let empty = String::new();
        assert(empty@ =~= Seq::<char>::empty());
        Ok(empty)
    } else if parent.at("outcome").at("status").is_text("failed") {
        tell_error(templates, assets, parent.at("outcome").at("error_context"), code)
    } else if parent.at("analysis").filled() {
        tell_profile(templates, parent.at("analysis"), code)
    } else if payload.at("mode").is_text("initial") {
        let values = Values::new().with("previous_code", code.to_owned());
        assert(values@ =~= seq![("previous_code"@, code@)]);
        render(templates, "fresh", &values)
    } else {
        Ok(code.to_owned())
    }
}

/// What the author of a candidate is told about its parent: how its error came about, what its
/// analysis recommends, or that a fresh approach is wanted; and the hint, if one is given.
pub fn feedback(payload: &Json, templates: &Templates, assets: &Json) -> (result: Result<Json, String>)
    ensures
        match result {
            Ok(made) => {
                &&& feedback_told(payload@, templates@, assets@) is Ok
                &&& made@ == JsonView::Object(
                    seq![
                        (
                            "text"@,
                            JsonView::Text(feedback_told(payload@, templates@, assets@)->Ok_0),
                        ),
                    ],
                )
            },
            Err(error) => feedback_told(payload@, templates@, assets@) == Told::Err(error@),
        },
{
    let mut output = match tell_of_parent(payload, templates, assets) {
        Ok(output) => output,
        Err(error) => {
            return Err(error);
        },
    };
    let hint = payload.at("hint").text_or_empty();
    if !hint.is_empty() {
        output.append("\n\n");
        let values = Values::new().with("hint", hint.to_owned());
        assert(values@ =~= seq![("hint"@, hint@)]);
        if let Err(error) = append_part(&mut output, templates, "hint", &values) {
            return Err(error);
        }
    }
    let ghost text = output@;
    let made = Fields::new().with("text", Json::Text(output)).object();
    assert(made@->Object_0 =~= seq![("text"@, JsonView::Text(text))]);
    Ok(made)
}

} // verus!
