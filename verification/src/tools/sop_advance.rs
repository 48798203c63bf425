//! `sop_advance`: reports the result of the current step of a run and moves
//! the run on.

use vstd::prelude::*;
use vstd::string::*;
use crate::audit::{record_of, run_key, step_key, SopAuditLogger};
use crate::clock::{format_iso8601, iso8601, unix_now_secs};
use crate::engine::model::EngineView;
use crate::engine::proofs::{
    lemma_advance_wf, lemma_advanced_run_is_registered, lemma_run_lookup, lemma_runs_consistent,
};
use crate::engine::SopEngine;
use crate::tools::{
    any_string, arg_str, call_view, failure_view, missing_text, required_str, string_param,
    success_view, ToolArgs, ToolArgsView, ToolEffect, ToolEffectView, ToolError, ToolOutcome,
    ToolOutcomeView, ToolParam, ToolParamView, ToolResult,
};
use crate::types::{
    terminal, SopError, SopRun, SopRunAction, SopRunActionView, SopRunView, SopStepResult,
    SopStepResultView, SopStepStatus,
};

verus! {

/// What `sop_advance` answers for the action an advanced run asks for.
pub open spec fn advance_output(action: SopRunActionView) -> Seq<char> {
    match action {
        SopRunActionView::ExecuteStep { run_id, context, .. } => "Step recorded. Next step for run "@
            + run_id + ":\n\n"@ + context,
        SopRunActionView::WaitApproval { run_id, context, .. } => "Step recorded. Next step for run "@
            + run_id + " (waiting for approval):\n\n"@ + context,
        SopRunActionView::Completed { run_id, sop_name } => "SOP '"@ + sop_name + "' run "@
            + run_id + " completed successfully."@,
        SopRunActionView::Failed { run_id, sop_name, reason } => "SOP '"@ + sop_name + "' run "@
            + run_id + " failed: "@ + reason,
    }
}

/// What the operator is told of a status word that names no step status.
pub open spec fn invalid_status_text(word: Seq<char>) -> Seq<char> {
    "Invalid status '"@ + word + "'. Must be: completed, failed, or skipped"@
}

/// The effects that follow a step that was recorded: the record of the step,
/// and for a run that has ended the record of the run and the word to the
/// metrics. `run` is the run as it stands after the step.
pub open spec fn advance_effects(audits: bool, run: SopRunView, step: u32, ended: bool) -> Seq<
    ToolEffectView,
> {
    let step_record = if audits {
        seq![ToolEffectView::Audit(record_of(step_key(run.run_id, step as nat), run))]
    } else {
        Seq::empty()
    };
    let run_record = if audits {
        seq![ToolEffectView::Audit(record_of(run_key(run.run_id), run))]
    } else {
        Seq::empty()
    };
    if ended {
        step_record + run_record + seq![ToolEffectView::RecordRunComplete(run)]
    } else {
        step_record
    }
}

/// The result that is recorded for the step `step` at second `now`.
pub open spec fn step_result_at(
    step: u32,
    status: SopStepStatus,
    output: Seq<char>,
    now: u64,
) -> SopStepResultView {
    SopStepResultView {
        step_number: step,
        status,
        output,
        started_at: iso8601(now as nat),
        completed_at: Some(iso8601(now as nat)),
    }
}

/// What a call of `sop_advance` at second `now` makes of the engine, and what
/// it returns.
///
/// A call without the strings `run_id`, `status` and `output` is rejected. A
/// status other than `completed`, `failed` or `skipped`, and a run that is
/// not there, are reported to the operator. Else the result is recorded for
/// the current step of the run. Where the engine refuses, the operator is
/// told why and nothing is to follow.
pub open spec fn advance_call(audits: bool, engine: EngineView, args: ToolArgsView, now: u64) -> (
    EngineView,
    Result<ToolOutcomeView, (SopError, Seq<char>)>,
) {
    if arg_str(args, "run_id"@) is None {
        (engine, Err((SopError::ParamInvalid, missing_text("run_id"@))))
    } else if arg_str(args, "status"@) is None {
        (engine, Err((SopError::ParamInvalid, missing_text("status"@))))
    } else if arg_str(args, "output"@) is None {
        (engine, Err((SopError::ParamInvalid, missing_text("output"@))))
    } else {
        let run_id = arg_str(args, "run_id"@)->0;
        let word = arg_str(args, "status"@)->0;
        let output = arg_str(args, "output"@)->0;
        match SopStepStatus::of_text(word) {
            None => (
                engine,
                Ok(
                    ToolOutcomeView {
                        result: failure_view(invalid_status_text(word)),
                        effects: Seq::empty(),
                    },
                ),
            ),
            Some(status) => match engine.run_of(run_id) {
                None => (
                    engine,
                    Ok(
                        ToolOutcomeView {
                            result: failure_view(
                                "Failed to advance step: "@ + SopError::UnknownRun.text(),
                            ),
                            effects: Seq::empty(),
                        },
                    ),
                ),
                Some(run) => {
                    let advanced = engine.advance(
                        run_id,
                        step_result_at(run.current_step, status, output, now),
                        now,
                    );
                    match advanced.1 {
                        Ok(action) => (
                            advanced.0,
                            Ok(
                                ToolOutcomeView {
                                    result: success_view(advance_output(action)),
                                    effects: match advanced.0.run_of(run_id) {
                                        Some(after) => advance_effects(
                                            audits,
                                            after,
                                            run.current_step,
                                            action.ends_run(),
                                        ),
                                        None => Seq::empty(),
                                    },
                                },
                            ),
                        ),
                        Err(e) => (
                            advanced.0,
                            Ok(
                                ToolOutcomeView {
                                    result: failure_view("Failed to advance step: "@ + e.text()),
                                    effects: Seq::empty(),
                                },
                            ),
                        ),
                    }
                },
            },
        }
    }
}

/// Where a call records a step, the effects are those of the run as it
/// stands after the step, under the id that was given.
pub proof fn lemma_advance_effects(audits: bool, engine: EngineView, args: ToolArgsView, now: u64)
    requires
        engine.wf(),
        advance_call(audits, engine, args, now).1 is Ok,
        advance_call(audits, engine, args, now).1->Ok_0.result.success,
    ensures
        ({
            let id = arg_str(args, "run_id"@)->0;
            let after = advance_call(audits, engine, args, now).0;
            &&& engine.run_of(id) is Some
            &&& after.run_of(id) is Some
            &&& after.run_of(id)->0.run_id == id
            &&& advance_call(audits, engine, args, now).1->Ok_0.effects == advance_effects(
                audits,
                after.run_of(id)->0,
                engine.run_of(id)->0.current_step,
                terminal(after.run_of(id)->0.status),
            )
        }),
{
    let id = arg_str(args, "run_id"@)->0;
    let word = arg_str(args, "status"@)->0;
    let output = arg_str(args, "output"@)->0;
    let status = SopStepStatus::of_text(word)->0;
    let run = engine.run_of(id)->0;
    let result = step_result_at(run.current_step, status, output, now);
    lemma_advanced_run_is_registered(engine, id, result, now);
    lemma_advance_wf(engine, id, result, now);
    lemma_run_lookup(advance_call(audits, engine, args, now).0);
}

/// The run that the metrics are told of has at most one step result per
/// step of its procedure, and has a completion time.
pub proof fn lemma_advance_tells_of_a_consistent_run(
    audits: bool,
    engine: EngineView,
    args: ToolArgsView,
    now: u64,
)
    requires
        engine.wf(),
        advance_call(audits, engine, args, now).1 is Ok,
    ensures
        forall|k: int|
            0 <= k < advance_call(audits, engine, args, now).1->Ok_0.effects.len() && (
            #[trigger] advance_call(audits, engine, args, now).1->Ok_0.effects[k])
                is RecordRunComplete ==> ({
                let run = advance_call(
                    audits,
                    engine,
                    args,
                    now,
                ).1->Ok_0.effects[k]->RecordRunComplete_0;
                &&& run.consistent()
                &&& terminal(run.status)
                &&& run.step_results.len() <= run.total_steps
            }),
{
    let outcome = advance_call(audits, engine, args, now).1->Ok_0;
    if outcome.effects.len() > 0 {
        assert(outcome.result.success);
        lemma_advance_effects(audits, engine, args, now);
        let id = arg_str(args, "run_id"@)->0;
        let after = advance_call(audits, engine, args, now).0;
        let word = arg_str(args, "status"@)->0;
        let output = arg_str(args, "output"@)->0;
        let status = SopStepStatus::of_text(word)->0;
        let result = step_result_at(engine.run_of(id)->0.current_step, status, output, now);
        lemma_advance_wf(engine, id, result, now);
        lemma_runs_consistent(after);
    }
}

/// The text `sop_advance` answers with for an action.
pub fn render_advance(action: &SopRunAction) -> (r: String)
    ensures
        r@ == advance_output(action@),
{
    let mut out = String::new();
    match action {
        SopRunAction::ExecuteStep { run_id, context, .. } => {
            out.append("Step recorded. Next step for run ");
            out.append(run_id.as_str());
            out.append(":\n\n");
            out.append(context.as_str());
        },
        SopRunAction::WaitApproval { run_id, context, .. } => {
            out.append("Step recorded. Next step for run ");
            out.append(run_id.as_str());
            out.append(" (waiting for approval):\n\n");
            out.append(context.as_str());
        },
        SopRunAction::Completed { run_id, sop_name } => {
            out.append("SOP '");
            out.append(sop_name.as_str());
            out.append("' run ");
            out.append(run_id.as_str());
            out.append(" completed successfully.");
        },
        SopRunAction::Failed { run_id, sop_name, reason } => {
            out.append("SOP '");
            out.append(sop_name.as_str());
            out.append("' run ");
            out.append(run_id.as_str());
            out.append(" failed: ");
            out.append(reason.as_str());
        },
    }
    assert(out@ =~= advance_output(action@));
    out
}

/// The answer that tells the operator why a step could not be recorded.
fn refused(e: SopError) -> (r: ToolOutcome)
    ensures
        r@ == (ToolOutcomeView {
            result: failure_view("Failed to advance step: "@ + e.text()),
            effects: Seq::empty(),
        }),
{
    let mut message = String::new();
    message.append("Failed to advance step: ");
    message.append(e.message());
    assert(message@ =~= "Failed to advance step: "@ + e.text());
    let outcome = ToolOutcome { result: ToolResult::failed(message), effects: Vec::new() };
    assert(outcome@.effects =~= Seq::empty());
    outcome
}

/// Reports the result of the current step of a run and moves the run on.
pub struct SopAdvanceTool {
    audit: Option<SopAuditLogger>,
}

impl SopAdvanceTool {
    /// The tool without an audit trail.
    pub fn new() -> (r: SopAdvanceTool)
        ensures
            !r.audits(),
    {
        SopAdvanceTool { audit: None }
    }

    /// The tool with an audit trail.
    pub fn with_audit(self, audit: SopAuditLogger) -> (r: SopAdvanceTool)
        ensures
            r.audits(),
    {
        SopAdvanceTool { audit: Some(audit) }
    }

    /// Does the tool ask for audit records?
    pub closed spec fn audits(&self) -> bool {
        self.audit is Some
    }

    /// The name the tool is called by.
    pub fn name(&self) -> (r: &'static str)
        ensures
            r@ == "sop_advance"@,
    {
        "sop_advance"
    }

    /// What the tool says of itself to its caller.
    pub fn description(&self) -> (r: &'static str)
        ensures
            r@ == "Report the result of the current SOP step and advance to the next step. Provide the run_id, whether the step succeeded or failed, and a brief output summary."@,
    {
        "Report the result of the current SOP step and advance to the next step. Provide the run_id, whether the step succeeded or failed, and a brief output summary."
    }

    /// The parameters of the tool: `run_id`, `status` with its three words,
    /// and `output`, all required.
    pub fn parameters(&self) -> (r: Vec<ToolParam>)
        ensures
            r.deep_view() == seq![
                any_string("run_id"@, "The run ID to advance"@, true),
                ToolParamView {
                    name: "status"@,
                    description: "Result status of the current step"@,
                    required: true,
                    allowed: seq![
                        SopStepStatus::Completed.text(),
                        SopStepStatus::Failed.text(),
                        SopStepStatus::Skipped.text(),
                    ],
                },
                any_string("output"@, "Brief summary of what happened in this step"@, true),
            ],
    {
        let mut words: Vec<&'static str> = Vec::new();
        words.push(SopStepStatus::Completed.as_str());
        words.push(SopStepStatus::Failed.as_str());
        words.push(SopStepStatus::Skipped.as_str());
        assert(words.deep_view() =~= seq![
            SopStepStatus::Completed.text(),
            SopStepStatus::Failed.text(),
            SopStepStatus::Skipped.text(),
        ]);
        let mut params: Vec<ToolParam> = Vec::new();
        params.push(string_param("run_id", "The run ID to advance", true));
        params.push(
            ToolParam {
                name: "status",
                description: "Result status of the current step",
                required: true,
                allowed: words,
            },
        );
        params.push(string_param("output", "Brief summary of what happened in this step", true));
        assert(params.deep_view() =~= seq![
            any_string("run_id"@, "The run ID to advance"@, true),
            ToolParamView {
                name: "status"@,
                description: "Result status of the current step"@,
                required: true,
                allowed: seq![
                    SopStepStatus::Completed.text(),
                    SopStepStatus::Failed.text(),
                    SopStepStatus::Skipped.text(),
                ],
            },
            any_string("output"@, "Brief summary of what happened in this step"@, true),
        ]);
        params
    }

    /// The effects that follow a step that was recorded.
    fn effects(&self, run: &SopRun, step: u32, ended: bool) -> (r: Vec<ToolEffect>)
        ensures
            r.deep_view() == advance_effects(self.audits(), run@, step, ended),
    {
        let mut effects: Vec<ToolEffect> = Vec::new();
        match &self.audit {
            Some(audit) => {
                effects.push(ToolEffect::Audit(audit.log_step_result(run, step)));
                if ended {
                    effects.push(ToolEffect::Audit(audit.log_run_complete(run)));
                }
            },
            None => {},
        }
        if ended {
            effects.push(ToolEffect::RecordRunComplete(run.clone()));
        }
        assert(effects.deep_view() =~= advance_effects(self.audits(), run@, step, ended));
        effects
    }

    /// Runs the tool at second `now`.
    pub fn execute_at(&self, engine: &mut SopEngine, args: &ToolArgs, now: u64) -> (r: Result<
        ToolOutcome,
        ToolError,
    >)
        requires
            old(engine)@.wf(),
        ensures
            (final(engine)@, call_view(r)) == advance_call(self.audits(), old(engine)@, args@, now),
            final(engine)@.wf(),
    {
        let run_id = match required_str(args, "run_id") {
            Ok(s) => s,
            Err(e) => {
                return Err(e);
            },
        };
        let word = match required_str(args, "status") {
            Ok(s) => s,
            Err(e) => {
                return Err(e);
            },
        };
        let output = match required_str(args, "output") {
            Ok(s) => s,
            Err(e) => {
                return Err(e);
            },
        };
        let status = match SopStepStatus::parse(word) {
            Some(status) => status,
            None => {
                let mut message = String::new();
                message.append("Invalid status '");
                message.append(word);
                message.append("'. Must be: completed, failed, or skipped");
                assert(message@ =~= invalid_status_text(word@));
                let outcome = ToolOutcome {
                    result: ToolResult::failed(message),
                    effects: Vec::new(),
                };
                assert(outcome@.effects =~= Seq::empty());
                return Ok(outcome);
            },
        };
        let current = match engine.get_run(run_id) {
            Some(run) => run.current_step,
            None => {
                return Ok(refused(SopError::UnknownRun));
            },
        };
        let stamp = format_iso8601(now);
        let step_result = SopStepResult {
            step_number: current,
            status,
            output: output.to_owned(),
            started_at: stamp.clone(),
            completed_at: Some(stamp),
        };
        assert(step_result@ == step_result_at(current, status, output@, now));
        match engine.advance_step_at(run_id, step_result, now) {
            Ok(action) => {
                let ended = match &action {
                    SopRunAction::Completed { .. } => true,
                    SopRunAction::Failed { .. } => true,
                    _ => false,
                };
                let effects = match engine.get_run(run_id) {
                    Some(run) => self.effects(run, current, ended),
                    None => Vec::new(),
                };
                let outcome = ToolOutcome {
                    result: ToolResult::succeeded(render_advance(&action)),
                    effects,
                };
                proof {
                    if engine@.run_of(run_id@) is None {
                        assert(outcome@.effects =~= Seq::empty());
                    }
                }
                Ok(outcome)
            },
            Err(e) => Ok(refused(e)),
        }
    }

    /// Runs the tool at the present second.
    pub fn execute(&self, engine: &mut SopEngine, args: &ToolArgs) -> (r: Result<
        ToolOutcome,
        ToolError,
    >)
        requires
            old(engine)@.wf(),
        ensures
            exists|now: u64|
                (final(engine)@, call_view(r)) == advance_call(
                    self.audits(),
                    old(engine)@,
                    args@,
                    now,
                ),
            final(engine)@.wf(),
    {
        let now = unix_now_secs();
        self.execute_at(engine, args, now)
    }
}

} // verus!
