//! How a run's root session is started.
use crate::cli::OptimizeArgs;
use crate::fields::{text, Fields};
use crate::json::{Json, JsonView};
use vstd::prelude::*;

verus! {

/// How many sessions may run at a time where the configuration does not say.
pub const DEFAULT_LIMIT: usize = 6;

/// How many sessions run at a time.
pub open spec fn parallel_of(asked: usize, limit: Option<usize>) -> usize {
    let most = match limit {
        Some(most) => most,
        None => DEFAULT_LIMIT,
    };
    if asked <= most {
        asked
    } else {
        most
    }
}

/// How many sessions run at a time: as many as were asked for, as far as the configuration lets
/// them.
pub fn parallel_sessions(asked: usize, limit: Option<usize>) -> (result: Result<usize, String>)
    ensures
        match result {
            Ok(count) => count > 0 && count == parallel_of(asked, limit),
            Err(error) => parallel_of(asked, limit) == 0 && error@
                == "parallel session limit must be positive"@,
        },
{
    let most: usize = match limit {
        Some(most) => most,
        None => DEFAULT_LIMIT,
    };
    let count: usize = if asked <= most {
        asked
    } else {
        most
    };
    if count == 0 {
        return Err("parallel session limit must be positive".to_owned());
    }
    Ok(count)
}

/// The settings that a run makes.
pub open spec fn settings(model: Seq<char>, provider: Seq<char>) -> JsonView {
    JsonView::Object(
        seq![
            ("model"@, JsonView::Text(model)),
            ("model_provider"@, JsonView::Text(provider)),
            ("features.memories"@, JsonView::Bool(false)),
        ],
    )
}

/// The settings that a run makes, after all others.
pub fn overrides(args: &OptimizeArgs) -> (value: Json)
    ensures
        value@ == settings(args.model@, args.provider@),
{
    let all = Fields::new().with("model", text(args.model.as_str())).with(
        "model_provider",
        text(args.provider.as_str()),
    ).with("features.memories", Json::Bool(false));
    assert(all@ =~= settings(args.model@, args.provider@)->Object_0);
    all.object()
}

/// How the root session is started.
pub open spec fn root_record(model: Seq<char>, provider: Seq<char>, output: Seq<char>) -> JsonView {
    JsonView::Object(
        seq![
            ("model"@, JsonView::Text(model)),
            ("modelProvider"@, JsonView::Text(provider)),
            ("cwd"@, JsonView::Text(output)),
            ("allowProviderModelFallback"@, JsonView::Bool(false)),
        ],
    )
}

/// How the root session is started.
pub fn root_request(args: &OptimizeArgs) -> (params: Json)
    ensures
        params@ == root_record(args.model@, args.provider@, args.output@),
{
    let all = Fields::new().with("model", text(args.model.as_str())).with(
        "modelProvider",
        text(args.provider.as_str()),
    ).with("cwd", text(args.output.as_str())).with(
        "allowProviderModelFallback",
        Json::Bool(false),
    );
    assert(all@ =~= root_record(args.model@, args.provider@, args.output@)->Object_0);
    all.object()
}

/// The thread of a root session that was started as asked, or why it is refused.
pub open spec fn root_of(started: JsonView, model: Seq<char>, provider: Seq<char>) -> Result<
    Seq<char>,
    Seq<char>,
> {
    if !(started.at("model"@).is_text(model) && started.at("modelProvider"@).is_text(provider)) {
        Err("resolved root provider/model differs from requested configuration"@)
    } else {
        match started.at("thread"@).at("id"@).text() {
            Some(thread) => Ok(thread),
            None => Err("missing root thread ID"@),
        }
    }
}

/// The thread of the root session; `started` is what it was started as.
pub fn root_thread(args: &OptimizeArgs, started: &Json) -> (result: Result<String, String>)
    ensures
        root_of(started@, args.model@, args.provider@) == match result {
            Ok(thread) => Ok::<Seq<char>, Seq<char>>(thread@),
            Err(error) => Err::<Seq<char>, Seq<char>>(error@),
        },
{
    if !started.at("model").is_text(args.model.as_str()) || !started.at("modelProvider").is_text(
        args.provider.as_str(),
    ) {
        return Err("resolved root provider/model differs from requested configuration".to_owned());
    }
    match started.at("thread").at("id").text() {
        Some(thread) => Ok(thread.to_owned()),
        None => Err("missing root thread ID".to_owned()),
    }
}

} // verus!
