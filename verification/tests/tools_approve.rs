use sop_core::audit::SopAuditLogger;
use sop_core::engine::SopEngine;
use sop_core::tools::sop_approve::SopApproveTool;
use sop_core::tools::{ToolArgs, ToolEffect};
use sop_core::types::{
    Sop, SopEvent, SopExecutionMode, SopPriority, SopRunStatus, SopStep, SopTrigger,
    SopTriggerSource,
};

fn test_sop() -> Sop {
    Sop {
        name: "test-sop".into(),
        description: "Test SOP".into(),
        version: "1.0.0".into(),
        priority: SopPriority::Normal,
        execution_mode: SopExecutionMode::Supervised,
        triggers: vec![SopTrigger::Manual],
        steps: vec![SopStep {
            number: 1,
            title: "Step one".into(),
            body: "Do it".into(),
            suggested_tools: vec![],
            requires_confirmation: false,
        }],
        cooldown_secs: 0,
        max_concurrent: 1,
        location: None,
    }
}

fn engine_with_run() -> SopEngine {
    let mut engine = SopEngine::new(vec![test_sop()]).unwrap();
    let event = SopEvent {
        source: SopTriggerSource::Manual,
        topic: None,
        payload: None,
        timestamp: "2026-02-19T12:00:00Z".into(),
    };
    engine.start_run("test-sop", event).unwrap();
    engine
}

#[test]
fn approve_waiting_run() {
    let mut engine = engine_with_run();
    let tool = SopApproveTool::new();
    let result =
        tool.execute(&mut engine, &ToolArgs::new().with_str("run_id", "run-000001")).unwrap().result;
    assert!(result.success);
    assert!(result.output.contains("Approved"));
    assert!(result.output.contains("Step one"));
}

#[test]
fn approve_nonexistent_run() {
    let mut engine = SopEngine::new(vec![]).unwrap();
    let tool = SopApproveTool::new();
    let result = tool
        .execute(&mut engine, &ToolArgs::new().with_str("run_id", "nonexistent"))
        .unwrap()
        .result;
    assert!(!result.success);
    assert!(result.error.unwrap().contains("Approval failed"));
}

#[test]
fn approve_missing_run_id() {
    let mut engine = SopEngine::new(vec![]).unwrap();
    let tool = SopApproveTool::new();
    let result = tool.execute(&mut engine, &ToolArgs::new());
    assert!(result.is_err());
}

#[test]
fn sop_approve_name_and_schema() {
    let tool = SopApproveTool::new();
    assert_eq!(tool.name(), "sop_approve");
    let required: Vec<&str> =
        tool.parameters().iter().filter(|p| p.required).map(|p| p.name).collect();
    assert_eq!(required, vec!["run_id"]);
}

#[test]
fn approve_asks_for_the_record_and_then_the_metrics() {
    let mut engine = engine_with_run();
    let tool = SopApproveTool::new().with_audit(SopAuditLogger::new());
    let outcome =
        tool.execute(&mut engine, &ToolArgs::new().with_str("run_id", "run-000001")).unwrap();
    assert_eq!(
        outcome.result.output,
        "Approved. Proceeding with run run-000001.\n\nSOP: test-sop v1.0.0\nStep 1/1: Step \
         one\n\nDo it\n"
    );
    let run = engine.get_run("run-000001").unwrap();
    assert_eq!(run.status, SopRunStatus::Running);
    assert_eq!(run.waiting_since, None);
    assert_eq!(outcome.effects.len(), 2);
    match (&outcome.effects[0], &outcome.effects[1]) {
        (ToolEffect::Audit(record), ToolEffect::RecordApproval { sop_name, run_id }) => {
            assert_eq!(record.key, "sop_approval_run-000001_1");
            assert_eq!(&record.run, run);
            assert_eq!(sop_name, "test-sop");
            assert_eq!(run_id, "run-000001");
        }
        other => panic!("unexpected effects: {other:?}"),
    }
}

#[test]
fn approve_twice_is_refused() {
    let mut engine = engine_with_run();
    let tool = SopApproveTool::new();
    let first =
        tool.execute(&mut engine, &ToolArgs::new().with_str("run_id", "run-000001")).unwrap();
    assert_eq!(first.effects.len(), 1);
    let second =
        tool.execute(&mut engine, &ToolArgs::new().with_str("run_id", "run-000001")).unwrap();
    assert!(!second.result.success);
    assert_eq!(
        second.result.error.as_deref(),
        Some("Approval failed: invalid transition for this run")
    );
    assert!(second.effects.is_empty());
    assert_eq!(engine.get_run("run-000001").unwrap().status, SopRunStatus::Running);
}
