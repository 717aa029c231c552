//! Recommendations as a numbered list.
use crate::json;
use crate::json::{Json, JsonView};
use crate::lines::Lines;
use crate::numeral;
use crate::numeral::count;
use crate::pieces;
use vstd::prelude::*;

verus! {

/// The estimate of a rule without decimal places.
pub open spec fn estimate_text(rule: JsonView) -> Seq<char> {
    match rule.at("est_speedup_pct"@).reading() {
        Some(reading) => reading.units,
        None => "0"@,
    }
}

/// The lines for rules, numbered from one.
pub open spec fn rule_lines(rules: Seq<JsonView>) -> Seq<Seq<char>> {
    Seq::new(
        rules.len(),
        |i: int|
            numeral::decimal((i + 1) as nat) + ". [est. "@ + estimate_text(rules[i])
                + "% speedup] "@ + rules[i].at("text"@).text_or_empty(),
    )
}

/// The rules of a value, if it has any.
pub open spec fn rules_of(value: JsonView) -> Option<Seq<JsonView>> {
    match value.at("rule_recommendations"@) {
        JsonView::Array(rules) => if rules.len() > 0 {
            Some(rules)
        } else {
            None
        },
        _ => None,
    }
}

/// The rules of a value as a numbered list, if it has any.
pub fn ranked(value: &Json) -> (text: Option<String>)
    ensures
        pieces::optional(text) == (match rules_of(value@) {
            Some(rules) => Some(pieces::joined(rule_lines(rules), "\n"@)),
            None => None,
        }),
{
    broadcast use json::array_view;

    match value.at("rule_recommendations") {
        Json::Array(rules) => {
            if rules.len() == 0 {
                return None;
            }
            let ghost all = json::items_view(rules@);
            let ghost wanted = rule_lines(all);
            let mut lines = Lines::new();
            let mut index: usize = 0;
            while index < rules.len()
                invariant
                    index <= rules@.len(),
                    all == json::items_view(rules@),
                    wanted == rule_lines(all),
                    lines@ == wanted.take(index as int),
                decreases rules@.len() - index,
            {
                assert(all[index as int] == rules@[index as int]@);
                let rule = &rules[index];
                let estimate = match rule.at("est_speedup_pct").reading() {
                    Some(reading) => reading.units.clone(),
                    None => "0".to_owned(),
                };
                lines.push(
                    count(index + 1).concat(". [est. ").concat(estimate.as_str()).concat(
                        "% speedup] ",
                    ).concat(rule.at("text").text_or_empty()),
                );
                index += 1;
                assert(lines@ =~= wanted.take(index as int));
            }
            assert(wanted.take(index as int) =~= wanted);
            Some(lines.join("\n"))
        },
        _ => None,
    }
}

} // verus!
