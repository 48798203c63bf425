//! `sop_approve`: approves the step a run waits at.

use vstd::prelude::*;
use vstd::string::*;
use crate::audit::{approval_key, record_of, SopAuditLogger};
use crate::engine::model::EngineView;
use crate::engine::proofs::{lemma_approve_wf, lemma_approved_run_is_registered, lemma_run_lookup};
use crate::engine::SopEngine;
use crate::tools::{
    any_string, arg_str, call_view, failure_view, missing_text, required_str, string_param,
    success_view, ToolArgs, ToolArgsView, ToolEffect, ToolEffectView, ToolError, ToolOutcome,
    ToolOutcomeView, ToolParam, ToolResult,
};
use crate::types::{SopError, SopRun, SopRunAction, SopRunActionView, SopRunView};

verus! {

/// What `sop_approve` answers for the action an approved run asks for.
pub open spec fn approve_output(action: SopRunActionView) -> Seq<char> {
    match action {
        SopRunActionView::ExecuteStep { run_id, context, .. } => "Approved. Proceeding with run "@
            + run_id + ".\n\n"@ + context,
        _ => "Approved."@,
    }
}

/// The step an action is about; zero where it is about none.
pub open spec fn action_step(action: SopRunActionView) -> u32 {
    match action {
        SopRunActionView::ExecuteStep { step_number, .. } => step_number,
        SopRunActionView::WaitApproval { step_number, .. } => step_number,
        _ => 0,
    }
}

/// The effects that follow an approval: its audit record, then the word to
/// the metrics. `run` is the run as it stands after the approval.
pub open spec fn approve_effects(audits: bool, run: SopRunView, step: u32) -> Seq<ToolEffectView> {
    let told = seq![
        ToolEffectView::RecordApproval { sop_name: run.sop_name, run_id: run.run_id },
    ];
    if audits {
        seq![ToolEffectView::Audit(record_of(approval_key(run.run_id, step as nat), run))] + told
    } else {
        told
    }
}

/// What a call of `sop_approve` makes of the engine, and what it returns.
///
/// A call without a string `run_id` is rejected. Where the engine refuses
/// the approval, the operator is told why. Else the answer is the instruction
/// of the approved step; the record of the approval is to be appended to the
/// audit trail, and after it the metrics are to be told.
pub open spec fn approve_call(audits: bool, engine: EngineView, args: ToolArgsView) -> (
    EngineView,
    Result<ToolOutcomeView, (SopError, Seq<char>)>,
) {
    match arg_str(args, "run_id"@) {
        None => (engine, Err((SopError::ParamInvalid, missing_text("run_id"@)))),
        Some(run_id) => {
            let approved = engine.approve(run_id);
            match approved.1 {
                Ok(action) => (
                    approved.0,
                    Ok(
                        ToolOutcomeView {
                            result: success_view(approve_output(action)),
                            effects: match approved.0.run_of(run_id) {
                                Some(run) => approve_effects(audits, run, action_step(action)),
                                None => Seq::empty(),
                            },
                        },
                    ),
                ),
                Err(e) => (
                    approved.0,
                    Ok(
                        ToolOutcomeView {
                            result: failure_view("Approval failed: "@ + e.text()),
                            effects: Seq::empty(),
                        },
                    ),
                ),
            }
        },
    }
}

/// Where a call approves a step, the record of the approval and the word to
/// the metrics are about the run as it stands after the approval, at the
/// step that was approved.
pub proof fn lemma_approve_effects(audits: bool, engine: EngineView, args: ToolArgsView)
    requires
        engine.wf(),
        approve_call(audits, engine, args).1 is Ok,
        approve_call(audits, engine, args).1->Ok_0.result.success,
    ensures
        ({
            let id = arg_str(args, "run_id"@)->0;
            let after = approve_call(audits, engine, args).0;
            &&& after.run_of(id) is Some
            &&& after.run_of(id)->0.run_id == id
            &&& approve_call(audits, engine, args).1->Ok_0.effects == approve_effects(
                audits,
                after.run_of(id)->0,
                after.run_of(id)->0.current_step,
            )
        }),
{
    let id = arg_str(args, "run_id"@)->0;
    lemma_approved_run_is_registered(engine, id);
    lemma_approve_wf(engine, id);
    lemma_run_lookup(approve_call(audits, engine, args).0);
}

/// The text `sop_approve` answers with for an action.
pub fn render_approve(action: &SopRunAction) -> (r: String)
    ensures
        r@ == approve_output(action@),
{
    let mut out = String::new();
    match action {
        SopRunAction::ExecuteStep { run_id, context, .. } => {
            out.append("Approved. Proceeding with run ");
            out.append(run_id.as_str());
            out.append(".\n\n");
            out.append(context.as_str());
        },
        _ => {
            out.append("Approved.");
        },
    }
    assert(out@ =~= approve_output(action@));
    out
}

/// Approves the step a run waits at.
pub struct SopApproveTool {
    audit: Option<SopAuditLogger>,
}

impl SopApproveTool {
    /// The tool without an audit trail.
    pub fn new() -> (r: SopApproveTool)
        ensures
            !r.audits(),
    {
        SopApproveTool { audit: None }
    }

    /// The tool with an audit trail.
    pub fn with_audit(self, audit: SopAuditLogger) -> (r: SopApproveTool)
        ensures
            r.audits(),
    {
        SopApproveTool { audit: Some(audit) }
    }

    /// Does the tool ask for audit records?
    pub closed spec fn audits(&self) -> bool {
        self.audit is Some
    }

    /// The name the tool is called by.
    pub fn name(&self) -> (r: &'static str)
        ensures
            r@ == "sop_approve"@,
    {
        "sop_approve"
    }

    /// What the tool says of itself to its caller.
    pub fn description(&self) -> (r: &'static str)
        ensures
            r@ == "Approve a pending SOP step that is waiting for operator approval. Returns the step instruction to execute. Use sop_status to see which runs are waiting."@,
    {
        "Approve a pending SOP step that is waiting for operator approval. Returns the step instruction to execute. Use sop_status to see which runs are waiting."
    }

    /// The parameters of the tool: `run_id`, required.
    pub fn parameters(&self) -> (r: Vec<ToolParam>)
        ensures
            r.deep_view() == seq![any_string("run_id"@, "The run ID to approve"@, true)],
    {
        let mut params: Vec<ToolParam> = Vec::new();
        params.push(string_param("run_id", "The run ID to approve", true));
        assert(params.deep_view() =~= seq![any_string("run_id"@, "The run ID to approve"@, true)]);
        params
    }

    /// The effects that follow an approval.
    fn effects(&self, run: &SopRun, step: u32) -> (r: Vec<ToolEffect>)
        ensures
            r.deep_view() == approve_effects(self.audits(), run@, step),
    {
        let mut effects: Vec<ToolEffect> = Vec::new();
        match &self.audit {
            Some(audit) => {
                effects.push(ToolEffect::Audit(audit.log_approval(run, step)));
            },
            None => {},
        }
        effects.push(
            ToolEffect::RecordApproval {
                sop_name: run.sop_name.clone(),
                run_id: run.run_id.clone(),
            },
        );
        assert(effects.deep_view() =~= approve_effects(self.audits(), run@, step));
        effects
    }

    /// Runs the tool.
    pub fn execute(&self, engine: &mut SopEngine, args: &ToolArgs) -> (r: Result<
        ToolOutcome,
        ToolError,
    >)
        requires
            old(engine)@.wf(),
        ensures
            (final(engine)@, call_view(r)) == approve_call(self.audits(), old(engine)@, args@),
            final(engine)@.wf(),
    {
        let run_id = match required_str(args, "run_id") {
            Ok(s) => s,
            Err(e) => {
                return Err(e);
            },
        };
        match engine.approve_step(run_id) {
            Ok(action) => {
                let step = match &action {
                    SopRunAction::ExecuteStep { step_number, .. } => *step_number,
                    SopRunAction::WaitApproval { step_number, .. } => *step_number,
                    _ => 0,
                };
                let effects = match engine.get_run(run_id) {
                    Some(run) => self.effects(run, step),
                    None => Vec::new(),
                };
                let outcome = ToolOutcome {
                    result: ToolResult::succeeded(render_approve(&action)),
                    effects,
                };
                proof {
                    if engine@.run_of(run_id@) is None {
                        assert(outcome@.effects =~= Seq::empty());
                    }
                }
                Ok(outcome)
            },
            Err(e) => {
                let mut message = String::new();
                message.append("Approval failed: ");
                message.append(e.message());
                assert(message@ =~= "Approval failed: "@ + e.text());
                let outcome = ToolOutcome {
                    result: ToolResult::failed(message),
                    effects: Vec::new(),
                };
                assert(outcome@.effects =~= Seq::empty());
                Ok(outcome)
            },
        }
    }
}

} // verus!
