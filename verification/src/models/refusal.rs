//! Why a schema or a value is refused.
use crate::fields::Fields;
use crate::json;
use crate::json::{FieldView, Json, JsonView};
use vstd::prelude::*;

verus! {

/// Why a schema or a value is refused.
pub enum Refusal {
    /// For a reason that can be told.
    Text(String),
    /// Because it nests, or refers to parts of itself, more deeply than was allowed.
    Depth,
}

/// The model of a [`Refusal`].
pub enum RefusalView {
    Text(Seq<char>),
    Depth,
}

impl View for Refusal {
    type V = RefusalView;

    open spec fn view(&self) -> RefusalView {
        match self {
            Refusal::Text(text) => RefusalView::Text(text@),
            Refusal::Depth => RefusalView::Depth,
        }
    }
}

impl Refusal {
    /// The refusal with the reason `text`.
    pub fn of(text: &str) -> (refusal: Self)
        ensures
            refusal@ == RefusalView::Text(text@),
    {
        Refusal::Text(text.to_owned())
    }

    /// What is told of the refusal.
    pub fn message(self) -> (text: String)
        ensures
            text@ == self@.message(),
    {
        match self {
            Refusal::Text(text) => text,
            Refusal::Depth => "schema nests too deeply".to_owned(),
        }
    }
}

impl RefusalView {
    /// What is told of the refusal.
    pub open spec fn message(self) -> Seq<char> {
        match self {
            RefusalView::Text(text) => text,
            RefusalView::Depth => "schema nests too deeply"@,
        }
    }
}

/// The model of what becomes of a value.
pub type Verdict = Result<JsonView, RefusalView>;

/// The model of what becomes of a value.
pub open spec fn verdict(result: Result<Json, Refusal>) -> Verdict {
    match result {
        Ok(value) => Ok(value@),
        Err(refusal) => Err(refusal@),
    }
}

/// The model of what becomes of fields.
pub open spec fn fields_verdict(result: Result<Fields, Refusal>) -> Result<
    Seq<FieldView>,
    RefusalView,
> {
    match result {
        Ok(fields) => Ok(fields@),
        Err(refusal) => Err(refusal@),
    }
}

/// The model of what becomes of items.
pub open spec fn items_verdict(result: Result<Vec<Json>, Refusal>) -> Result<
    Seq<JsonView>,
    RefusalView,
> {
    match result {
        Ok(items) => Ok(json::items_view(items@)),
        Err(refusal) => Err(refusal@),
    }
}

/// Whether one verdict stands where the other does: they agree unless the first fell short of
/// depth.
pub open spec fn stands(shallow: Verdict, deep: Verdict) -> bool {
    shallow == Verdict::Err(RefusalView::Depth) || shallow == deep
}

} // verus!
