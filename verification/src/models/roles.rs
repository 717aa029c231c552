//! The contracts of the roles.
use crate::fields::Fields;
use crate::json;
use crate::json::{FieldView, Json, JsonView};
use crate::models::normalize;
use crate::models::normalize::normalize;
use crate::models::refusal::RefusalView;
use crate::models::strict;
use crate::models::strict::strict_schema;
use crate::number::{Readings, ReadingsView};
use vstd::prelude::*;

verus! {

/// The strict form of every role's schema up to `end`, or which role has none.
pub open spec fn strict_roles(models: Seq<FieldView>, depth: nat, end: int) -> Result<
    Seq<FieldView>,
    Seq<char>,
>
    decreases end,
{
    if end <= 0 {
        Ok(Seq::empty())
    } else {
        match strict_roles(models, depth, end - 1) {
            Err(reason) => Err(reason),
            Ok(before) => {
                let role = models[end - 1].0;
                let validation = models[end - 1].1.at("validation"@);
                match strict::strict(validation, validation, depth) {
                    Ok(schema) => Ok(before.push((role, schema))),
                    Err(refusal) => Err(
                        "bundled "@ + role + " schema must be strict: "@ + refusal.message(),
                    ),
                }
            },
        }
    }
}

/// The strict form of every role's schema, by role; `models` holds the contract of each role.
pub fn schemas(models: &Vec<(String, Json)>, depth: usize) -> (result: Result<Json, String>)
    ensures
        match result {
            Ok(made) => {
                &&& made@ is Object
                &&& strict_roles(json::fields_view(models@), depth as nat, models@.len() as int)
                    == Ok::<Seq<FieldView>, Seq<char>>(made@->Object_0)
            },
            Err(error) => strict_roles(
                json::fields_view(models@),
                depth as nat,
                models@.len() as int,
            ) == Err::<Seq<FieldView>, Seq<char>>(error@),
        },
{
    let ghost all = json::fields_view(models@);
    let mut made = Fields::new();
    let mut index: usize = 0;
    while index < models.len()
        invariant
            index <= models@.len(),
            all == json::fields_view(models@),
            strict_roles(all, depth as nat, index as int) == Ok::<Seq<FieldView>, Seq<char>>(made@),
        decreases models@.len() - index,
    {
        assert(all[index as int].0 == models@[index as int].0@);
        assert(all[index as int].1 == models@[index as int].1@);
        let role = models[index].0.as_str();
        let validation = models[index].1.at("validation");
        match strict_schema(validation, validation, depth) {
            Ok(schema) => {
                made.push(role, schema);
            },
            Err(refusal) => {
                proof {
                    lemma_role_refused(all, depth as nat, index as int, all.len() as int);
                }
                return Err(
                    "bundled ".to_owned().concat(role).concat(" schema must be strict: ").concat(
                        refusal.message().as_str(),
                    ),
                );
            },
        }
        index += 1;
    }
    Ok(made.object())
}

proof fn lemma_role_refused(models: Seq<FieldView>, depth: nat, index: int, end: int)
    requires
        0 <= index < end,
        strict_roles(models, depth, index + 1) is Err,
    ensures
        strict_roles(models, depth, end) == strict_roles(models, depth, index + 1),
    decreases end,
{
    if end > index + 1 {
        lemma_role_refused(models, depth, index, end - 1);
    }
}

/// What becomes of an answer in a role.
pub open spec fn validated(
    models: JsonView,
    role: Seq<char>,
    value: JsonView,
    readings: ReadingsView,
    depth: nat,
) -> Result<JsonView, RefusalView> {
    match models.get(role) {
        None => strict::refused("unknown model role"@),
        Some(model) => normalize::normal(
            value,
            model.at("validation"@),
            model.at("validation"@),
            readings,
            depth,
        ),
    }
}

/// Reads an answer by the contract of a role.
pub fn validate(models: &Json, role: &str, value: &Json, readings: &Readings, depth: usize) -> (result:
    Result<Json, String>)
    ensures
        match result {
            Ok(read) => validated(models@, role@, value@, readings@, depth as nat) == Ok::<
                JsonView,
                RefusalView,
            >(read@),
            Err(error) => {
                &&& validated(models@, role@, value@, readings@, depth as nat) is Err
                &&& validated(models@, role@, value@, readings@, depth as nat)->Err_0.message()
                    == error@
            },
        },
{
    match models.get(role) {
        None => Err("unknown model role".to_owned()),
        Some(model) => {
            let schema = model.at("validation");
            match normalize(value, schema, schema, readings, depth) {
                Ok(read) => Ok(read),
                Err(refusal) => Err(refusal.message()),
            }
        },
    }
}

} // verus!
