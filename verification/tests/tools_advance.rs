use sop_core::audit::SopAuditLogger;
use sop_core::engine::SopEngine;
use sop_core::tools::sop_advance::SopAdvanceTool;
use sop_core::tools::{ToolArgs, ToolEffect};
use sop_core::types::{
    Sop, SopError, SopEvent, SopExecutionMode, SopPriority, SopRunStatus, SopStep, SopStepStatus,
    SopTrigger, SopTriggerSource,
};

fn test_sop() -> Sop {
    Sop {
        name: "test-sop".into(),
        description: "Test SOP".into(),
        version: "1.0.0".into(),
        priority: SopPriority::Normal,
        execution_mode: SopExecutionMode::Auto,
        triggers: vec![SopTrigger::Manual],
        steps: vec![
            SopStep {
                number: 1,
                title: "Step one".into(),
                body: "Do step one".into(),
                suggested_tools: vec![],
                requires_confirmation: false,
            },
            SopStep {
                number: 2,
                title: "Step two".into(),
                body: "Do step two".into(),
                suggested_tools: vec![],
                requires_confirmation: false,
            },
        ],
        cooldown_secs: 0,
        max_concurrent: 1,
        location: None,
    }
}

fn engine_with_active_run() -> SopEngine {
    let mut engine = SopEngine::new(vec![test_sop()]).unwrap();
    let event = SopEvent {
        source: SopTriggerSource::Manual,
        topic: None,
        payload: None,
        timestamp: "2026-02-19T12:00:00Z".into(),
    };
    engine.start_run("test-sop", event).unwrap();
    engine
}

fn args(run_id: &str, status: &str, output: &str) -> ToolArgs {
    ToolArgs::new().with_str("run_id", run_id).with_str("status", status).with_str("output", output)
}

#[test]
fn advance_to_next_step() {
    let mut engine = engine_with_active_run();
    let tool = SopAdvanceTool::new();
    let result = tool
        .execute(&mut engine, &args("run-000001", "completed", "Step 1 done successfully"))
        .unwrap()
        .result;
    assert!(result.success);
    assert!(result.output.contains("Next step"));
    assert!(result.output.contains("Step two"));
}

#[test]
fn advance_to_completion() {
    let mut engine = engine_with_active_run();
    let tool = SopAdvanceTool::new();

    tool.execute(&mut engine, &args("run-000001", "completed", "Step 1 done")).unwrap();

    let result =
        tool.execute(&mut engine, &args("run-000001", "completed", "Step 2 done")).unwrap().result;
    assert!(result.success);
    assert!(result.output.contains("completed successfully"));
}

#[test]
fn advance_with_failure() {
    let mut engine = engine_with_active_run();
    let tool = SopAdvanceTool::new();
    let result =
        tool.execute(&mut engine, &args("run-000001", "failed", "Valve stuck open")).unwrap().result;
    assert!(result.success);
    assert!(result.output.contains("failed"));
    assert!(result.output.contains("Valve stuck open"));
}

#[test]
fn advance_invalid_status() {
    let mut engine = engine_with_active_run();
    let tool = SopAdvanceTool::new();
    let result =
        tool.execute(&mut engine, &args("run-000001", "invalid", "whatever")).unwrap().result;
    assert!(!result.success);
    assert!(result.error.unwrap().contains("Invalid status"));
}

#[test]
fn advance_unknown_run() {
    let mut engine = SopEngine::new(vec![]).unwrap();
    let tool = SopAdvanceTool::new();
    let outcome = tool.execute(&mut engine, &args("nonexistent", "completed", "done")).unwrap();
    assert!(!outcome.result.success);
    assert_eq!(outcome.result.error.as_deref(), Some("Failed to advance step: run not found"));
}

#[test]
fn sop_advance_name_and_schema() {
    let tool = SopAdvanceTool::new();
    assert_eq!(tool.name(), "sop_advance");
    let params = tool.parameters();
    assert!(params.iter().any(|p| p.name == "run_id"));
    let status = params.iter().find(|p| p.name == "status").unwrap();
    assert_eq!(status.allowed, vec!["completed", "failed", "skipped"]);
}

#[test]
fn advance_error_does_not_write_step_audit() {
    let mut engine = SopEngine::new(vec![]).unwrap();
    let tool = SopAdvanceTool::new().with_audit(SopAuditLogger::new());
    let outcome = tool.execute(&mut engine, &args("nonexistent", "completed", "done")).unwrap();
    assert!(!outcome.result.success);
    assert!(outcome.effects.is_empty(), "no audit entries should exist after advance error");
}

#[test]
fn advance_success_writes_step_audit() {
    let mut engine = engine_with_active_run();
    let tool = SopAdvanceTool::new().with_audit(SopAuditLogger::new());
    let outcome =
        tool.execute(&mut engine, &args("run-000001", "completed", "Step 1 done")).unwrap();
    assert!(outcome.result.success);

    let step_keys: Vec<_> = outcome
        .effects
        .iter()
        .filter(|e| matches!(e, ToolEffect::Audit(r) if r.key.starts_with("sop_step_")))
        .collect();
    assert!(!step_keys.is_empty(), "step audit should be written on success");
}

#[test]
fn advance_rejects_missing_arguments_in_order() {
    let mut engine = engine_with_active_run();
    let tool = SopAdvanceTool::new();
    let cases = [
        (ToolArgs::new(), "Missing 'run_id' parameter"),
        (ToolArgs::new().with_str("run_id", "run-000001"), "Missing 'status' parameter"),
        (
            ToolArgs::new().with_str("run_id", "run-000001").with_str("status", "completed"),
            "Missing 'output' parameter",
        ),
        (
            ToolArgs::new()
                .with_str("run_id", "run-000001")
                .with_str("status", "completed")
                .with_other("output"),
            "Missing 'output' parameter",
        ),
    ];
    for (given, message) in cases {
        let error = tool.execute(&mut engine, &given).unwrap_err();
        assert_eq!(error.kind, SopError::ParamInvalid);
        assert_eq!(error.message, message);
    }
    assert_eq!(engine.get_run("run-000001").unwrap().current_step, 1);
    assert!(engine.get_run("run-000001").unwrap().step_results.is_empty());
}

#[test]
fn advance_says_which_status_is_invalid() {
    let mut engine = engine_with_active_run();
    let tool = SopAdvanceTool::new();
    let outcome = tool.execute(&mut engine, &args("run-000001", "Completed", "x")).unwrap();
    assert_eq!(
        outcome.result.error.as_deref(),
        Some("Invalid status 'Completed'. Must be: completed, failed, or skipped")
    );
    assert_eq!(outcome.result.output, "");
    assert!(engine.get_run("run-000001").unwrap().step_results.is_empty());
}

#[test]
fn advance_records_the_step_it_was_given() {
    let mut engine = engine_with_active_run();
    let tool = SopAdvanceTool::new().with_audit(SopAuditLogger::new());
    let outcome = tool
        .execute_at(&mut engine, &args("run-000001", "skipped", "not needed"), 1_771_502_460)
        .unwrap();
    assert_eq!(
        outcome.result.output,
        "Step recorded. Next step for run run-000001:\n\nSOP: test-sop v1.0.0\nStep 2/2: Step \
         two\n\nDo step two\n"
    );
    let run = engine.get_run("run-000001").unwrap();
    assert_eq!(run.current_step, 2);
    assert_eq!(run.step_results.len(), 1);
    assert_eq!(run.step_results[0].step_number, 1);
    assert_eq!(run.step_results[0].status, SopStepStatus::Skipped);
    assert_eq!(run.step_results[0].output, "not needed");
    assert_eq!(run.step_results[0].started_at, "2026-02-19T12:01:00Z");
    assert_eq!(run.step_results[0].completed_at.as_deref(), Some("2026-02-19T12:01:00Z"));
    assert_eq!(outcome.effects.len(), 1);
    match &outcome.effects[0] {
        ToolEffect::Audit(record) => {
            assert_eq!(record.key, "sop_step_run-000001_1");
            assert_eq!(&record.run, run);
        }
        other => panic!("unexpected effect: {other:?}"),
    }
}

#[test]
fn advance_to_the_end_tells_the_audit_and_then_the_metrics() {
    let mut engine = engine_with_active_run();
    let tool = SopAdvanceTool::new().with_audit(SopAuditLogger::new());
    tool.execute_at(&mut engine, &args("run-000001", "completed", "a"), 1_771_502_460).unwrap();
    let outcome = tool
        .execute_at(&mut engine, &args("run-000001", "completed", "b"), 1_771_502_520)
        .unwrap();
    assert_eq!(outcome.result.output, "SOP 'test-sop' run run-000001 completed successfully.");
    let run = engine.get_run("run-000001").unwrap();
    assert_eq!(run.status, SopRunStatus::Completed);
    assert_eq!(run.completed_at.as_deref(), Some("2026-02-19T12:02:00Z"));
    assert_eq!(outcome.effects.len(), 3);
    match (&outcome.effects[0], &outcome.effects[1], &outcome.effects[2]) {
        (ToolEffect::Audit(step), ToolEffect::Audit(end), ToolEffect::RecordRunComplete(told)) => {
            assert_eq!(step.key, "sop_step_run-000001_2");
            assert_eq!(end.key, "sop_run_run-000001");
            assert_eq!(&end.run, run);
            assert_eq!(told, run);
        }
        other => panic!("unexpected effects: {other:?}"),
    }
    // Without an audit trail only the metrics are told.
    let mut engine = engine_with_active_run();
    let quiet = SopAdvanceTool::new();
    let outcome = quiet
        .execute_at(&mut engine, &args("run-000001", "failed", "stuck"), 1_771_502_460)
        .unwrap();
    assert_eq!(outcome.result.output, "SOP 'test-sop' run run-000001 failed: stuck");
    assert_eq!(outcome.effects.len(), 1);
    assert!(matches!(&outcome.effects[0], ToolEffect::RecordRunComplete(r) if r.status == SopRunStatus::Failed));
}

#[test]
fn advance_of_a_finished_run_is_refused() {
    let mut engine = engine_with_active_run();
    let tool = SopAdvanceTool::new().with_audit(SopAuditLogger::new());
    tool.execute(&mut engine, &args("run-000001", "failed", "stuck")).unwrap();
    let before = engine.get_run("run-000001").unwrap().clone();
    let outcome = tool.execute(&mut engine, &args("run-000001", "completed", "again")).unwrap();
    assert!(!outcome.result.success);
    assert_eq!(
        outcome.result.error.as_deref(),
        Some("Failed to advance step: invalid transition for this run")
    );
    assert!(outcome.effects.is_empty());
    assert_eq!(engine.get_run("run-000001").unwrap(), &before);
}
