//! What holds of every run.
use crate::controller::machine;
use crate::controller::machine::{EventView, FileView, Phase, RunView, StepView};
use crate::json::JsonView;
use crate::search::mcts;
use crate::search::record;
use crate::search::state;
use vstd::prelude::*;

verus! {

proof fn lemma_taken(run: RunView, files: Seq<FileView>)
    requires
        machine::sound(RunView { phase: Phase::Over, ..run }),
        forall|i: int|
            0 <= i < run.batch.len() ==> machine::names(
                #[trigger] run.batch[i],
                (run.tree.nodes.len() + i) as nat,
            ),
        run.tree.nodes.len() + run.sessions.len() <= crate::number::EXACT,
        run.tree.nodes.len() + run.sessions.len() <= usize::MAX,
    ensures
        machine::sound(machine::taken(run, files).0),
    decreases run.sessions.len() - run.position,
{
    if run.position < run.sessions.len() {
        let result = run.sessions[run.position];
        if result.error is Some || result.value is None {
            lemma_taken(
                RunView { position: run.position + 1, ..run },
                files.push(
                    FileView::Value(
                        "generation-errors/"@ + crate::numeral::decimal(run.iteration) + "-"@
                            + crate::numeral::decimal(run.position as nat) + ".json"@,
                        crate::session::result_record(result),
                    ),
                ),
            );
        }
    }
}

proof fn lemma_kept(run: RunView, analysis: JsonView, files: Seq<FileView>)
    requires
        machine::sound(RunView { phase: Phase::Submitting, ..run }),
    ensures
        machine::sound(machine::kept(run, analysis, files).0),
{
    let evidence = machine::evidence_record(run, analysis);
    lemma_taken(
        RunView { batch: run.batch.push(evidence), position: run.position + 1, ..run },
        files.push(
            FileView::Value(machine::candidate_file(run, "/evidence.json"@), evidence),
        ),
    );
}

proof fn lemma_evaluated(run: RunView, value: JsonView, files: Seq<FileView>)
    requires
        machine::sound(RunView { phase: Phase::Submitting, ..run }),
    ensures
        machine::sound(machine::evaluated(run, value, files).0),
{
    lemma_kept(RunView { evaluated: value, ..run }, JsonView::Null, files);
}

proof fn lemma_unevaluated(run: RunView, error: Seq<char>)
    requires
        machine::sound(RunView { phase: Phase::Submitting, ..run }),
    ensures
        machine::sound(machine::unevaluated(run, error).0),
{
    lemma_evaluated(
        run,
        crate::controller::failure_record(crate::cli::backend_name(run.args.evaluator), error),
        seq![
            FileView::Value(
                machine::candidate_file(run, "/evaluation-error.json"@),
                JsonView::Text(error),
            ),
        ],
    );
}

proof fn lemma_unexplained(run: RunView, error: Seq<char>)
    requires
        machine::sound(RunView { phase: Phase::Submitting, ..run }),
    ensures
        machine::sound(machine::unexplained(run, error).0),
{
    lemma_kept(
        run,
        JsonView::Null,
        seq![
            FileView::Value(
                machine::candidate_file(run, "/profiling-error.json"@),
                JsonView::Text(error),
            ),
        ],
    );
}

proof fn lemma_replied(run: RunView, result: Result<JsonView, Seq<char>>)
    requires
        machine::sound(run),
        machine::awaits_reply(run.phase),
    ensures
        machine::sound(machine::replied(run, result).0),
{
    match (run.phase, result) {
        (Phase::Submitting, Err(error)) => {
            lemma_unevaluated(run, error);
        },
        (Phase::Submitting, Ok(submission)) => {
            match crate::roles::code_of(submission) {
                Err(error) => {
                    lemma_unevaluated(run, error);
                },
                Ok(_) => {},
            }
        },
        (Phase::Evaluating, Err(error)) => {
            lemma_unevaluated(run, error);
        },
        (Phase::Evaluating, Ok(value)) => {
            lemma_evaluated(run, value, Seq::empty());
        },
        (Phase::Analyzing, Err(error)) => {
            lemma_unexplained(run, error);
        },
        (Phase::Analyzing, Ok(prepared)) => {
            match crate::roles::profile_task(
                run.args,
                run.problem,
                run.evaluated.at("profile"@),
                prepared,
                machine::candidate_id(run),
            ) {
                Err(error) => {
                    lemma_unexplained(run, error);
                },
                Ok(_) => {},
            }
        },
        (Phase::Explaining, Err(error)) => {
            lemma_unexplained(run, error);
        },
        (Phase::Explaining, Ok(value)) => {
            lemma_kept(
                run,
                crate::roles::explained(value, run.evaluated.at("profile"@), run.prepared),
                Seq::empty(),
            );
        },
        _ => {},
    }
}

proof fn lemma_sessions(run: RunView, result: Result<Seq<crate::session::ResultView>, Seq<char>>)
    requires
        machine::sound(run),
        machine::admitted(run, EventView::Sessions(result)),
    ensures
        machine::sound(machine::sessions_ended(run, result).0),
{
    match (run.phase, result) {
        (Phase::Generating, Ok(list)) => {
            lemma_taken(
                RunView { sessions: list, position: 0, batch: Seq::empty(), ..run },
                Seq::empty(),
            );
        },
        (Phase::Profiling, Err(error)) => {
            lemma_unexplained(run, error);
        },
        _ => {},
    }
}

proof fn lemma_scored(run: RunView, scores: crate::search::mcts::ScoresView)
    requires
        machine::sound(run),
        machine::admitted(run, EventView::Scores(scores)),
    ensures
        machine::sound(machine::advanced(run, EventView::Scores(scores)).0),
{
    mcts::selection_is_sound(run.tree, scores);
    mcts::selection_keeps_nodes(run.tree, scores);
}

proof fn lemma_recorded(run: RunView, outcomes: Seq<crate::search::node::OutcomeView>)
    requires
        machine::sound(run),
        machine::admitted(run, EventView::Outcomes(Ok(outcomes))),
    ensures
        machine::sound(machine::recorded(run, outcomes).0),
{
    if state::batch_refusal(run.tree.nodes, run.parent, outcomes) is None {
        record::recording_is_sound(run.tree, run.parent, outcomes);
        record::batch_is_kept(run.tree, run.parent, outcomes);
    }
}

proof fn lemma_found(run: RunView, findings: Seq<crate::memory::FindingView>)
    requires
        machine::sound(run),
        run.phase == Phase::Finding,
    ensures
        machine::sound(machine::found(run, findings).0),
{
}

/// Whatever comes of a step, the run stays sound: its tree is, everything is known of every node
/// but the root, and the candidate at hand is one that was made.
pub proof fn advancing_is_sound(run: RunView, event: EventView)
    requires
        machine::sound(run),
        machine::admitted(run, event),
    ensures
        machine::sound(machine::advanced(run, event).0),
{
    match event {
        EventView::Reply(result) => {
            lemma_replied(run, result);
        },
        EventView::Sessions(result) => {
            lemma_sessions(run, result);
        },
        EventView::Scores(scores) => {
            lemma_scored(run, scores);
        },
        EventView::Kept(done) => {
            if run.phase == Phase::Unevaluated {
                lemma_unevaluated(run, machine::reason(run, done));
            }
        },
        EventView::Outcomes(Ok(outcomes)) => {
            lemma_recorded(run, outcomes);
        },
        EventView::Findings(Ok(findings)) => {
            lemma_found(run, findings);
        },
        _ => {},
    }
}

/// Whether a step ends the run as failed.
pub open spec fn aborts(next: StepView) -> bool {
    next.work is Abort
}

proof fn lemma_taken_goes_on(run: RunView, files: Seq<FileView>)
    requires
        run.batch.len() > 0,
    ensures
        !aborts(machine::taken(run, files).1),
    decreases run.sessions.len() - run.position,
{
    if 0 <= run.position < run.sessions.len() {
        let result = run.sessions[run.position];
        if result.error is Some || result.value is None {
            lemma_taken_goes_on(
                RunView { position: run.position + 1, ..run },
                files.push(
                    FileView::Value(
                        "generation-errors/"@ + crate::numeral::decimal(run.iteration) + "-"@
                            + crate::numeral::decimal(run.position as nat) + ".json"@,
                        crate::session::result_record(result),
                    ),
                ),
            );
        }
    }
}

proof fn lemma_kept_goes_on(run: RunView, analysis: JsonView, files: Seq<FileView>)
    ensures
        !aborts(machine::kept(run, analysis, files).1),
{
    let evidence = machine::evidence_record(run, analysis);
    lemma_taken_goes_on(
        RunView { batch: run.batch.push(evidence), position: run.position + 1, ..run },
        files.push(
            FileView::Value(machine::candidate_file(run, "/evidence.json"@), evidence),
        ),
    );
}

proof fn lemma_evaluated_goes_on(run: RunView, value: JsonView, files: Seq<FileView>)
    ensures
        !aborts(machine::evaluated(run, value, files).1),
{
    lemma_kept_goes_on(RunView { evaluated: value, ..run }, JsonView::Null, files);
}

proof fn lemma_unevaluated_goes_on(run: RunView, error: Seq<char>)
    ensures
        !aborts(machine::unevaluated(run, error).1),
{
    lemma_evaluated_goes_on(
        run,
        crate::controller::failure_record(crate::cli::backend_name(run.args.evaluator), error),
        seq![
            FileView::Value(
                machine::candidate_file(run, "/evaluation-error.json"@),
                JsonView::Text(error),
            ),
        ],
    );
}

proof fn lemma_unexplained_goes_on(run: RunView, error: Seq<char>)
    ensures
        !aborts(machine::unexplained(run, error).1),
{
    lemma_kept_goes_on(
        run,
        JsonView::Null,
        seq![
            FileView::Value(
                machine::candidate_file(run, "/profiling-error.json"@),
                JsonView::Text(error),
            ),
        ],
    );
}

proof fn lemma_reply_goes_on(run: RunView, result: Result<JsonView, Seq<char>>)
    requires
        machine::at_hand(run.phase),
        machine::awaits_reply(run.phase),
    ensures
        !aborts(machine::replied(run, result).1),
{
    match result {
        Err(error) => {
            lemma_unevaluated_goes_on(run, error);
            lemma_unexplained_goes_on(run, error);
        },
        Ok(value) => {
            match crate::roles::code_of(value) {
                Err(error) => {
                    lemma_unevaluated_goes_on(run, error);
                },
                Ok(_) => {},
            }
            lemma_evaluated_goes_on(run, value, Seq::empty());
            match crate::roles::profile_task(
                run.args,
                run.problem,
                run.evaluated.at("profile"@),
                value,
                machine::candidate_id(run),
            ) {
                Err(error) => {
                    lemma_unexplained_goes_on(run, error);
                },
                Ok(_) => {},
            }
            lemma_kept_goes_on(
                run,
                crate::roles::explained(value, run.evaluated.at("profile"@), run.prepared),
                Seq::empty(),
            );
        },
    }
}

/// Whatever comes of evaluating and explaining a candidate, the run goes on: a trouble with it is
/// the candidate's.
pub proof fn candidate_troubles_do_not_abort(run: RunView, event: EventView)
    requires
        machine::sound(run),
        machine::admitted(run, event),
        machine::at_hand(run.phase),
    ensures
        !aborts(machine::advanced(run, event).1),
{
    match event {
        EventView::Reply(result) => {
            lemma_reply_goes_on(run, result);
        },
        EventView::Sessions(Err(error)) => {
            lemma_unexplained_goes_on(run, error);
        },
        EventView::Kept(done) => {
            lemma_unevaluated_goes_on(run, machine::reason(run, done));
        },
        _ => {},
    }
}

/// Whether a run waits for something about its memory, before the kept memory is read.
pub open spec fn remembers(phase: Phase) -> bool {
    phase == Phase::Claiming || phase == Phase::Scoping || phase == Phase::Distilling || phase
        == Phase::Undistilled || phase == Phase::Finding || phase == Phase::Committing || phase
        == Phase::Failing
}

/// Whatever comes of remembering a batch, the run goes on, and its tree and all that is known of
/// its nodes stay as they are; what is remembered changes only where the next memory was kept.
pub proof fn memory_troubles_do_not_abort(run: RunView, event: EventView)
    requires
        machine::admitted(run, event),
        remembers(run.phase),
    ensures
        ({
            let (after, next) = machine::advanced(run, event);
            &&& !aborts(next)
            &&& after.tree == run.tree
            &&& after.candidates == run.candidates
            &&& after.snapshot != run.snapshot ==> event == EventView::Committed(None)
        }),
{
}

/// A run whose memory is off never claims an extraction: after a batch it goes straight to the
/// winner.
pub proof fn memory_that_is_off_stays_off(
    run: RunView,
    outcomes: Seq<crate::search::node::OutcomeView>,
)
    requires
        run.args.memory_off,
        state::batch_refusal(run.tree.nodes, run.parent, outcomes) is None,
    ensures
        machine::recorded(run, outcomes).1.work is Gain,
        machine::recorded(run, outcomes).0.snapshot == run.snapshot,
{
}

/// A run whose limit is reached is complete, whatever it gained last.
pub proof fn runs_stop_at_the_limit(run: RunView, gain: crate::number::Real)
    requires
        run.phase == Phase::Deciding,
        match run.tree.config.max_iterations {
            Some(limit) => run.tree.current_iteration >= limit,
            None => false,
        },
    ensures
        machine::advanced(run, EventView::Gain(gain)).1.work is Finish,
{
}

/// Every recorded batch brings the limit closer: it is one more.
pub proof fn batches_are_counted(run: RunView, outcomes: Seq<crate::search::node::OutcomeView>)
    requires
        state::batch_refusal(run.tree.nodes, run.parent, outcomes) is None,
    ensures
        machine::recorded(run, outcomes).0.tree.current_iteration == run.tree.current_iteration + 1,
        machine::recorded(run, outcomes).0.tree.config == run.tree.config,
{
}

} // verus!
