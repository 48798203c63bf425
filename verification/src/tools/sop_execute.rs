//! `sop_execute`: starts a run of a procedure by name.

use vstd::prelude::*;
use vstd::string::*;
use crate::audit::{record_of, run_key, SopAuditLogger};
use crate::clock::{format_iso8601, iso8601, unix_now_secs};
use crate::engine::model::{run_id_text, EngineView};
use crate::engine::proofs::{
    lemma_limit_of_runs_ok, lemma_start_keeps_limit, lemma_start_refuses,
    lemma_started_run_is_registered,
};
use crate::text::occurs_in;
use crate::engine::SopEngine;
use crate::tools::{
    any_string, arg_str, call_view, failure_view, missing_text, required_str, string_param,
    success_view, ToolArgs, ToolArgsView, ToolEffect, ToolEffectView, ToolError, ToolOutcome,
    ToolOutcomeView, ToolParam, ToolResult,
};
use crate::types::{
    SopError, SopEvent, SopEventView, SopRunAction, SopRunActionView, SopTriggerSource,
};

verus! {

/// What `sop_execute` answers for the action a started run asks for.
pub open spec fn start_output(action: SopRunActionView) -> Seq<char> {
    match action {
        SopRunActionView::ExecuteStep { run_id, context, .. } => "SOP run started: "@ + run_id
            + "\n\n"@ + context,
        SopRunActionView::WaitApproval { run_id, context, .. } => "SOP run started: "@ + run_id
            + " (waiting for approval)\n\n"@ + context,
        SopRunActionView::Completed { run_id, sop_name } => "SOP '"@ + sop_name + "' run "@
            + run_id + " completed immediately (no steps)."@,
        SopRunActionView::Failed { run_id, reason, .. } => "SOP run "@ + run_id + " failed: "@
            + reason,
    }
}

/// The event of a manual trigger at second `now`, with the payload given.
pub open spec fn manual_event(payload: Option<Seq<char>>, now: u64) -> SopEventView {
    SopEventView {
        source: SopTriggerSource::Manual,
        topic: None,
        payload,
        timestamp: iso8601(now as nat),
    }
}

/// What a call of `sop_execute` at second `now` makes of the engine, and what
/// it returns.
///
/// A call without a string `name` is rejected. Else a run of that procedure
/// is started on a manual event that carries the string `payload`, if there
/// is one. Where the engine refuses, the operator is told why. Where it
/// starts the run, the answer shows what the run asks for, and the record of
/// the run is to be appended to the audit trail.
pub open spec fn execute_call(audits: bool, engine: EngineView, args: ToolArgsView, now: u64) -> (
    EngineView,
    Result<ToolOutcomeView, (SopError, Seq<char>)>,
) {
    match arg_str(args, "name"@) {
        None => (engine, Err((SopError::ParamInvalid, missing_text("name"@)))),
        Some(name) => {
            let started = engine.start(name, manual_event(arg_str(args, "payload"@), now), now);
            match started.1 {
                Ok(action) => (
                    started.0,
                    Ok(
                        ToolOutcomeView {
                            result: success_view(start_output(action)),
                            effects: match started.0.run_of(action.run_id()) {
                                Some(run) => if audits {
                                    seq![ToolEffectView::Audit(record_of(run_key(run.run_id), run))]
                                } else {
                                    Seq::empty()
                                },
                                None => Seq::empty(),
                            },
                        },
                    ),
                ),
                Err(e) => (
                    started.0,
                    Ok(
                        ToolOutcomeView {
                            result: failure_view(refusal_text(e)),
                            effects: Seq::empty(),
                        },
                    ),
                ),
            }
        },
    }
}

/// Is there a run id left for the run that the call asks for, where the
/// engine admits it at second `now`?
pub open spec fn has_id_for_call(engine: EngineView, args: ToolArgsView, now: u64) -> bool {
    match arg_str(args, "name"@) {
        Some(name) => engine.has_id_for(name, now),
        None => true,
    }
}

/// What the operator is told where the engine refuses to start a run.
pub open spec fn refusal_text(e: SopError) -> Seq<char> {
    "Failed to start SOP: "@ + e.text()
}

/// A call for a procedure of the catalogue that is not admitted tells the
/// operator so and changes nothing: no run is registered, no run id is
/// used, and nothing is to follow. A cooldown that has not passed is named
/// before the limit of open runs, and the operator reads the word
/// `cooldown`.
pub proof fn lemma_execute_refuses(audits: bool, engine: EngineView, args: ToolArgsView, now: u64)
    requires
        arg_str(args, "name"@) is Some,
        engine.sop_of(arg_str(args, "name"@)->0) is Some,
        !engine.admits(arg_str(args, "name"@)->0, now),
    ensures
        ({
            let name = arg_str(args, "name"@)->0;
            let sop = engine.sop_of(name)->0;
            let kind = if engine.cooling(name, sop.cooldown_secs, now) {
                SopError::CooldownActive
            } else {
                SopError::ConcurrencyLimit
            };
            &&& execute_call(audits, engine, args, now) == (
                engine,
                Ok::<ToolOutcomeView, (SopError, Seq<char>)>(
                    ToolOutcomeView {
                        result: failure_view(refusal_text(kind)),
                        effects: Seq::empty(),
                    },
                ),
            )
            &&& occurs_in("cooldown"@, refusal_text(SopError::CooldownActive))
        }),
{
    let name = arg_str(args, "name"@)->0;
    lemma_start_refuses(engine, name, manual_event(arg_str(args, "payload"@), now), now);
    reveal_strlit("cooldown");
    reveal_strlit("Failed to start SOP: ");
    reveal_strlit("cooldown active for this SOP");
    let text = refusal_text(SopError::CooldownActive);
    assert(text.subrange(21, 21 + "cooldown"@.len() as int) =~= "cooldown"@);
}

/// Whatever is called for, no procedure has more open runs after the call
/// than it allows, and a name outside the catalogue has none.
pub proof fn lemma_execute_keeps_limit(
    audits: bool,
    engine: EngineView,
    args: ToolArgsView,
    now: u64,
    other: Seq<char>,
)
    requires
        engine.runs_ok(),
    ensures
        execute_call(audits, engine, args, now).0.sops == engine.sops,
        match engine.sop_of(other) {
            Some(sop) => execute_call(audits, engine, args, now).0.open_runs(other)
                <= sop.max_concurrent,
            None => execute_call(audits, engine, args, now).0.open_runs(other) == 0,
        },
{
    match arg_str(args, "name"@) {
        Some(name) => {
            lemma_start_keeps_limit(
                engine,
                name,
                manual_event(arg_str(args, "payload"@), now),
                now,
                other,
            );
        },
        None => {
            lemma_limit_of_runs_ok(engine, other);
        },
    }
}

/// Where a call starts a run, the record of that run is what is to be
/// appended to the audit trail.
pub proof fn lemma_execute_effects(audits: bool, engine: EngineView, args: ToolArgsView, now: u64)
    requires
        engine.wf(),
        engine.run_counter < u64::MAX,
        execute_call(audits, engine, args, now).1 is Ok,
        execute_call(audits, engine, args, now).1->Ok_0.result.success,
    ensures
        ({
            let after = execute_call(audits, engine, args, now).0;
            let id = run_id_text((engine.run_counter + 1) as nat);
            &&& after.run_of(id) is Some
            &&& execute_call(audits, engine, args, now).1->Ok_0.effects == if audits {
                seq![ToolEffectView::Audit(record_of(run_key(id), after.run_of(id)->0))]
            } else {
                Seq::empty()
            }
        }),
{
    let name = arg_str(args, "name"@)->0;
    lemma_started_run_is_registered(
        engine,
        name,
        manual_event(arg_str(args, "payload"@), now),
        now,
    );
}

/// The id of the run an action is about.
pub fn action_run_id(action: &SopRunAction) -> (r: Option<&str>)
    ensures
        r.deep_view() == Some(action@.run_id()),
{
    Some(action.run_id().as_str())
}

/// The text `sop_execute` answers with for an action.
pub fn render_start(action: &SopRunAction) -> (r: String)
    ensures
        r@ == start_output(action@),
{
    let mut out = String::new();
    match action {
        SopRunAction::ExecuteStep { run_id, context, .. } => {
            out.append("SOP run started: ");
            out.append(run_id.as_str());
            out.append("\n\n");
            out.append(context.as_str());
        },
        SopRunAction::WaitApproval { run_id, context, .. } => {
            out.append("SOP run started: ");
            out.append(run_id.as_str());
            out.append(" (waiting for approval)\n\n");
            out.append(context.as_str());
        },
        SopRunAction::Completed { run_id, sop_name } => {
            out.append("SOP '");
            out.append(sop_name.as_str());
            out.append("' run ");
            out.append(run_id.as_str());
            out.append(" completed immediately (no steps).");
        },
        SopRunAction::Failed { run_id, reason, .. } => {
            out.append("SOP run ");
            out.append(run_id.as_str());
            out.append(" failed: ");
            out.append(reason.as_str());
        },
    }
    assert(out@ =~= start_output(action@));
    out
}

/// Starts a run of a procedure by name and answers with its run id and the
/// instruction of its first step.
pub struct SopExecuteTool {
    audit: Option<SopAuditLogger>,
}

impl SopExecuteTool {
    /// The tool without an audit trail.
    pub fn new() -> (r: SopExecuteTool)
        ensures
            !r.audits(),
    {
        SopExecuteTool { audit: None }
    }

    /// The tool with an audit trail.
    pub fn with_audit(self, audit: SopAuditLogger) -> (r: SopExecuteTool)
        ensures
            r.audits(),
    {
        SopExecuteTool { audit: Some(audit) }
    }

    /// Does the tool ask for audit records?
    pub closed spec fn audits(&self) -> bool {
        self.audit is Some
    }

    /// The name the tool is called by.
    pub fn name(&self) -> (r: &'static str)
        ensures
            r@ == "sop_execute"@,
    {
        "sop_execute"
    }

    /// What the tool says of itself to its caller.
    pub fn description(&self) -> (r: &'static str)
        ensures
            r@ == "Manually trigger a Standard Operating Procedure (SOP) by name. Returns the run ID and first step instruction. Use sop_list to see available SOPs."@,
    {
        "Manually trigger a Standard Operating Procedure (SOP) by name. Returns the run ID and first step instruction. Use sop_list to see available SOPs."
    }

    /// The parameters of the tool: `name`, required, and `payload`.
    pub fn parameters(&self) -> (r: Vec<ToolParam>)
        ensures
            r.deep_view() == seq![
                any_string("name"@, "Name of the SOP to execute"@, true),
                any_string("payload"@, "Optional trigger payload (JSON string)"@, false),
            ],
    {
        let mut params: Vec<ToolParam> = Vec::new();
        params.push(string_param("name", "Name of the SOP to execute", true));
        params.push(string_param("payload", "Optional trigger payload (JSON string)", false));
        assert(params.deep_view() =~= seq![
            any_string("name"@, "Name of the SOP to execute"@, true),
            any_string("payload"@, "Optional trigger payload (JSON string)"@, false),
        ]);
        params
    }

    /// Runs the tool at second `now`.
    pub fn execute_at(&self, engine: &mut SopEngine, args: &ToolArgs, now: u64) -> (r: Result<
        ToolOutcome,
        ToolError,
    >)
        requires
            old(engine)@.wf(),
            has_id_for_call(old(engine)@, args@, now),
        ensures
            (final(engine)@, call_view(r)) == execute_call(self.audits(), old(engine)@, args@, now),
            final(engine)@.wf(),
    {
        let sop_name = match required_str(args, "name") {
            Ok(name) => name,
            Err(e) => {
                return Err(e);
            },
        };
        let payload = match args.get_str("payload") {
            Some(p) => Some(p.to_owned()),
            None => None,
        };
        let event = SopEvent {
            source: SopTriggerSource::Manual,
            topic: None,
            payload,
            timestamp: format_iso8601(now),
        };
        assert(event@ == manual_event(arg_str(args@, "payload"@), now));
        match engine.start_run_at(sop_name, event, now) {
            Ok(action) => {
                let mut effects: Vec<ToolEffect> = Vec::new();
                match engine.get_run(action.run_id().as_str()) {
                    Some(run) => match &self.audit {
                        Some(audit) => {
                            effects.push(ToolEffect::Audit(audit.log_run_start(run)));
                        },
                        None => {},
                    },
                    None => {},
                }
                let result = ToolResult::succeeded(render_start(&action));
                let outcome = ToolOutcome { result, effects };
                proof {
                    let started = old(engine)@.start(
                        sop_name@,
                        manual_event(arg_str(args@, "payload"@), now),
                        now,
                    );
                    assert(outcome@.effects =~= execute_call(
                        self.audits(),
                        old(engine)@,
                        args@,
                        now,
                    ).1->Ok_0.effects);
                }
                Ok(outcome)
            },
            Err(e) => {
                let mut message = String::new();
                message.append("Failed to start SOP: ");
                message.append(e.message());
                assert(message@ =~= refusal_text(e));
                let outcome = ToolOutcome {
                    result: ToolResult::failed(message),
                    effects: Vec::new(),
                };
                assert(outcome@.effects =~= Seq::empty());
                Ok(outcome)
            },
        }
    }

    /// Runs the tool at the present second.
    pub fn execute(&self, engine: &mut SopEngine, args: &ToolArgs) -> (r: Result<
        ToolOutcome,
        ToolError,
    >)
        requires
            old(engine)@.wf(),
            forall|now: u64| has_id_for_call(old(engine)@, args@, now),
        ensures
            exists|now: u64|
                (final(engine)@, call_view(r)) == execute_call(
                    self.audits(),
                    old(engine)@,
                    args@,
                    now,
                ),
            final(engine)@.wf(),
    {
        let now = unix_now_secs();
        self.execute_at(engine, args, now)
    }
}

} // verus!
