//! Which sessions a controller may start and close.
use crate::text::same;
use vstd::prelude::*;

verus! {

/// What is known of a request for a child.
pub struct ChildRequest {
    pub parent_running: bool,
    /// Whether the parent is itself a child.
    pub parent_owned: bool,
    pub fresh_history: bool,
    pub model_fallback: bool,
}

/// What a child may do on its own.
pub struct ChildOptions {
    pub multi_agent: bool,
    pub agents_enabled: bool,
}

/// What a child may do: neither start agents nor talk to any. A child is started only below a
/// live root, with no history and with the model that was asked for.
pub fn start_controller_child(request: &ChildRequest) -> (result: Result<ChildOptions, String>)
    ensures
        match result {
            Ok(options) => {
                &&& request.parent_running && !request.parent_owned && request.fresh_history
                    && !request.model_fallback
                &&& !options.multi_agent
                &&& !options.agents_enabled
            },
            Err(error) => {
                &&& !(request.parent_running && !request.parent_owned && request.fresh_history
                    && !request.model_fallback)
                &&& error@
                    == "controller children require a live root, fresh history, and no model fallback"@
            },
        },
{
    if !request.parent_running || request.parent_owned || !request.fresh_history
        || request.model_fallback {
        return Err(
            "controller children require a live root, fresh history, and no model fallback".to_owned(),
        );
    }
    Ok(ChildOptions { multi_agent: false, agents_enabled: false })
}

/// Whether `owner` is the parent.
pub open spec fn owned_by(owner: Option<&str>, parent: Seq<char>) -> bool {
    match owner {
        Some(owner) => owner@ == parent,
        None => false,
    }
}

/// Refuses to close a child for anyone but its owner.
pub fn close_controller_child(parent: &str, owner: Option<&str>) -> (checked: Result<(), String>)
    ensures
        match checked {
            Ok(_) => owned_by(owner, parent@),
            Err(error) => !owned_by(owner, parent@) && error@
                == "child is not owned by this parent"@,
        },
{
    match owner {
        Some(owner) => {
            if same(owner, parent) {
                return Ok(());
            }
        },
        None => {},
    }
    Err("child is not owned by this parent".to_owned())
}

/// A child is owned by exactly the parent that it names as its owner.
pub proof fn owners_are_parents(owner: Option<&str>, parent: Seq<char>)
    ensures
        owned_by(owner, parent) <==> owner is Some && owner->Some_0@ == parent,
{
}

} // verus!
