//! The scripts that run a workload.
use crate::json::{Json, JsonView};
use crate::outside;
use crate::outside::replace_matches;
use crate::pieces;
use crate::template;
use crate::template::{Templates, TemplatesView, Values, ValuesView};
use crate::text::same;
use vstd::prelude::*;

verus! {

/// The file that a script is written to, or that there is no such script.
pub open spec fn file_of(name: Seq<char>) -> Result<Seq<char>, Seq<char>> {
    if name == "reference"@ {
        Ok("profile_reference.py"@)
    } else if name == "candidate"@ {
        Ok("profile_solution.py"@)
    } else if name == "benchmark"@ {
        Ok("benchmark_solution.py"@)
    } else {
        Err("unknown workload template"@)
    }
}

/// The file that a script is written to.
pub fn filename(name: &str) -> (result: Result<&'static str, String>)
    ensures
        match result {
            Ok(file) => file_of(name@) == Ok::<Seq<char>, Seq<char>>(file@),
            Err(error) => file_of(name@) == Err::<Seq<char>, Seq<char>>(error@),
        },
{
    if same(name, "reference") {
        Ok("profile_reference.py")
    } else if same(name, "candidate") {
        Ok("profile_solution.py")
    } else if same(name, "benchmark") {
        Ok("benchmark_solution.py")
    } else {
        Err("unknown workload template".to_owned())
    }
}

/// A generator of inputs without its documentation strings.
pub open spec fn without_docstrings(inputs: Seq<char>) -> Result<Seq<char>, Seq<char>> {
    match outside::regex_replaced(
        "(?s)\\\"\\\"\\\".*?\\\"\\\"\\\""@,
        inputs,
        "# [docstring removed]"@,
    ) {
        Err(reason) => Err(reason),
        Ok(clean) => outside::regex_replaced("(?s)'''.*?'''"@, clean, "# [docstring removed]"@),
    }
}

/// The values that a script's template is filled in with.
pub open spec fn script_values(
    name: Seq<char>,
    file: Seq<char>,
    reference: Seq<char>,
    path: Seq<char>,
    inputs: Seq<char>,
    clean: Seq<char>,
    source: Seq<char>,
    source_name: Seq<char>,
) -> ValuesView {
    seq![
        ("reference"@, reference),
        ("inputs"@, inputs),
        ("seed"@, "42"@),
        ("solution_file"@, source),
        ("solution_path"@, source),
        ("num_warmup"@, "5"@),
        ("num_trials"@, "5"@),
        (
            "num_iterations"@,
            if name == "reference"@ {
                "10"@
            } else {
                "1"@
            },
        ),
        ("output_name"@, file),
        ("reference_file_path_str"@, path),
        ("clean_input_gen"@, clean),
        ("solution_name"@, source_name),
    ]
}

/// The values that a script's template is filled in with.
pub fn values(
    name: &str,
    file: &str,
    reference: &str,
    path: &str,
    inputs: &str,
    clean: String,
    source: &str,
    source_name: &str,
) -> (list: Values)
    ensures
        list@ == script_values(
            name@,
            file@,
            reference@,
            path@,
            inputs@,
            clean@,
            source@,
            source_name@,
        ),
{
    let list = Values::new().with("reference", reference.to_owned()).with(
        "inputs",
        inputs.to_owned(),
    ).with("seed", "42".to_owned()).with("solution_file", source.to_owned()).with(
        "solution_path",
        source.to_owned(),
    ).with("num_warmup", "5".to_owned()).with("num_trials", "5".to_owned()).with(
        "num_iterations",
        if same(name, "reference") {
            "10".to_owned()
        } else {
            "1".to_owned()
        },
    ).with("output_name", file.to_owned()).with("reference_file_path_str", path.to_owned()).with(
        "clean_input_gen",
        clean,
    ).with("solution_name", source_name.to_owned());
    assert(list@ =~= script_values(
        name@,
        file@,
        reference@,
        path@,
        inputs@,
        clean@,
        source@,
        source_name@,
    ));
    list
}

/// The text of a script, or why there is none; `source_name` is the name of the source's file.
pub open spec fn script_told(
    name: Seq<char>,
    payload: JsonView,
    source_name: Seq<char>,
    templates: TemplatesView,
) -> Result<Seq<char>, Seq<char>> {
    let problem = payload.at("problem"@);
    match (payload.at("output_dir"@).text(), file_of(name), problem.at("input_generator"@).text()) {
        (None, _, _) => Err("workload output"@),
        (_, Err(reason), _) => Err(reason),
        (_, _, None) => Err("input generator"@),
        (Some(_), Ok(file), Some(inputs)) => match without_docstrings(inputs) {
            Err(reason) => Err(reason),
            Ok(clean) => match (
                problem.at("canonical_solution"@).text(),
                problem.at("file_path"@).text(),
            ) {
                (None, _) => Err("reference source"@),
                (_, None) => Err("reference path"@),
                (Some(reference), Some(path)) => template::rendered(
                    template::template_of(templates, name, "workload template"@, 0),
                    script_values(
                        name,
                        file,
                        reference,
                        path,
                        inputs,
                        clean,
                        payload.at("source"@).text_or_empty(),
                        source_name,
                    ),
                    "missing script field "@,
                ),
            },
        },
    }
}

/// The text of a script; `source_name` is the name of the source's file.
pub fn script(name: &str, payload: &Json, source_name: &str, templates: &Templates) -> (result: Result<
    String,
    String,
>)
    ensures
        pieces::told(result) == script_told(name@, payload@, source_name@, templates@),
{
    let problem = payload.at("problem");
    if payload.at("output_dir").text().is_none() {
        return Err("workload output".to_owned());
    }
    let file = match filename(name) {
        Ok(file) => file,
        Err(error) => {
            return Err(error);
        },
    };
    let inputs = match problem.at("input_generator").text() {
        Some(inputs) => inputs,
        None => {
            return Err("input generator".to_owned());
        },
    };
    let clean = match replace_matches(
        "(?s)\\\"\\\"\\\".*?\\\"\\\"\\\"",
        inputs,
        "# [docstring removed]",
    ) {
        Ok(clean) => clean,
        Err(error) => {
            return Err(error);
        },
    };
    let clean = match replace_matches("(?s)'''.*?'''", clean.as_str(), "# [docstring removed]") {
        Ok(clean) => clean,
        Err(error) => {
            return Err(error);
        },
    };
    let reference = match problem.at("canonical_solution").text() {
        Some(reference) => reference,
        None => {
            return Err("reference source".to_owned());
        },
    };
    let path = match problem.at("file_path").text() {
        Some(path) => path,
        None => {
            return Err("reference path".to_owned());
        },
    };
    let list = values(
        name,
        file,
        reference,
        path,
        inputs,
        clean,
        payload.at("source").text_or_empty(),
        source_name,
    );
    templates.render(name, &list, "workload template", "missing script field ")
}

} // verus!
