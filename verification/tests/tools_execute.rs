use sop_core::audit::SopAuditLogger;
use sop_core::engine::SopEngine;
use sop_core::tools::sop_execute::SopExecuteTool;
use sop_core::tools::{ToolArgs, ToolEffect};
use sop_core::types::{
    Sop, SopError, SopExecutionMode, SopPriority, SopRunStatus, SopStep, SopTrigger,
};

fn test_sop(name: &str, mode: SopExecutionMode) -> Sop {
    Sop {
        name: name.into(),
        description: format!("Test SOP: {name}"),
        version: "1.0.0".into(),
        priority: SopPriority::Normal,
        execution_mode: mode,
        triggers: vec![SopTrigger::Manual],
        steps: vec![
            SopStep {
                number: 1,
                title: "Step one".into(),
                body: "Do step one".into(),
                suggested_tools: vec!["shell".into()],
                requires_confirmation: false,
            },
            SopStep {
                number: 2,
                title: "Step two".into(),
                body: "Do step two".into(),
                suggested_tools: vec![],
                requires_confirmation: false,
            },
        ],
        cooldown_secs: 0,
        max_concurrent: 1,
        location: None,
    }
}

fn engine_with_sops(sops: Vec<Sop>) -> SopEngine {
    SopEngine::new(sops).unwrap()
}

#[test]
fn execute_auto_sop() {
    let mut engine = engine_with_sops(vec![test_sop("test-sop", SopExecutionMode::Auto)]);
    let tool = SopExecuteTool::new();
    let result =
        tool.execute(&mut engine, &ToolArgs::new().with_str("name", "test-sop")).unwrap().result;
    assert!(result.success);
    assert!(result.output.contains("run-000001"));
    assert!(result.output.contains("Step one"));
}

#[test]
fn execute_supervised_sop() {
    let mut engine = engine_with_sops(vec![test_sop("test-sop", SopExecutionMode::Supervised)]);
    let tool = SopExecuteTool::new();
    let result =
        tool.execute(&mut engine, &ToolArgs::new().with_str("name", "test-sop")).unwrap().result;
    assert!(result.success);
    assert!(result.output.contains("waiting for approval"));
}

#[test]
fn execute_unknown_sop() {
    let mut engine = engine_with_sops(vec![]);
    let tool = SopExecuteTool::new();
    let result = tool
        .execute(&mut engine, &ToolArgs::new().with_str("name", "nonexistent"))
        .unwrap()
        .result;
    assert!(!result.success);
    assert!(result.error.unwrap().contains("Failed to start SOP"));
}

#[test]
fn execute_missing_name() {
    let mut engine = engine_with_sops(vec![]);
    let tool = SopExecuteTool::new();
    let result = tool.execute(&mut engine, &ToolArgs::new());
    assert!(result.is_err());
}

#[test]
fn execute_with_payload() {
    let mut engine = engine_with_sops(vec![test_sop("test-sop", SopExecutionMode::Auto)]);
    let tool = SopExecuteTool::new();
    let args = ToolArgs::new().with_str("name", "test-sop").with_str("payload", "{\"value\": 87.3}");
    let result = tool.execute(&mut engine, &args).unwrap().result;
    assert!(result.success);
    assert!(result.output.contains("87.3"));
}

#[test]
fn sop_execute_name_and_schema() {
    let tool = SopExecuteTool::new();
    assert_eq!(tool.name(), "sop_execute");
    let required: Vec<&str> =
        tool.parameters().iter().filter(|p| p.required).map(|p| p.name).collect();
    assert_eq!(required, vec!["name"]);
}

#[test]
fn execute_rejects_a_name_that_is_no_string() {
    let mut engine = engine_with_sops(vec![test_sop("test-sop", SopExecutionMode::Auto)]);
    let tool = SopExecuteTool::new();
    let error = tool.execute(&mut engine, &ToolArgs::new().with_other("name")).unwrap_err();
    assert_eq!(error.kind, SopError::ParamInvalid);
    assert_eq!(error.message, "Missing 'name' parameter");
    assert_eq!(engine.runs_started(), 0);
    assert!(engine.active_runs().is_empty());
}

#[test]
fn execute_answers_with_the_whole_instruction() {
    let mut engine = engine_with_sops(vec![test_sop("test-sop", SopExecutionMode::Auto)]);
    let tool = SopExecuteTool::new();
    let args = ToolArgs::new().with_str("name", "test-sop").with_str("payload", "p=1");
    let outcome = tool.execute_at(&mut engine, &args, 1_771_502_400).unwrap();
    assert_eq!(
        outcome.result.output,
        "SOP run started: run-000001\n\nSOP: test-sop v1.0.0\nStep 1/2: Step one\n\nDo step one\n\
         \nSuggested tools: shell\n\nTrigger payload:\np=1\n"
    );
    assert_eq!(outcome.result.error, None);
    assert!(outcome.effects.is_empty());
    let run = engine.get_run("run-000001").unwrap();
    assert_eq!(run.trigger_event.timestamp, "2026-02-19T12:00:00Z");
    assert_eq!(run.trigger_event.payload.as_deref(), Some("p=1"));
    assert_eq!(run.status, SopRunStatus::Running);
}

#[test]
fn execute_with_audit_asks_for_the_record_of_the_run() {
    let mut engine = engine_with_sops(vec![test_sop("test-sop", SopExecutionMode::Supervised)]);
    let tool = SopExecuteTool::new().with_audit(SopAuditLogger::new());
    let outcome = tool
        .execute_at(&mut engine, &ToolArgs::new().with_str("name", "test-sop"), 1_771_502_400)
        .unwrap();
    assert_eq!(outcome.effects.len(), 1);
    match &outcome.effects[0] {
        ToolEffect::Audit(record) => {
            assert_eq!(record.category, "sop");
            assert_eq!(record.key, "sop_run_run-000001");
            assert_eq!(&record.run, engine.get_run("run-000001").unwrap());
            assert_eq!(record.run.status, SopRunStatus::WaitingApproval);
            assert_eq!(record.run.waiting_since.as_deref(), Some("2026-02-19T12:00:00Z"));
        }
        other => panic!("unexpected effect: {other:?}"),
    }
    // A refusal leaves nothing to write.
    let refused = tool
        .execute_at(&mut engine, &ToolArgs::new().with_str("name", "test-sop"), 1_771_502_401)
        .unwrap();
    assert!(!refused.result.success);
    assert_eq!(
        refused.result.error.as_deref(),
        Some("Failed to start SOP: concurrency limit reached for this SOP")
    );
    assert!(refused.effects.is_empty());
}
