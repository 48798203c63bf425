use sop_core::engine::SopEngine;
use sop_core::tools::sop_status::SopStatusTool;
use sop_core::tools::ToolArgs;
use sop_core::types::{
    Sop, SopEvent, SopExecutionMode, SopPriority, SopStep, SopStepResult, SopStepStatus,
    SopTrigger, SopTriggerSource,
};

fn test_sop(name: &str) -> Sop {
    Sop {
        name: name.into(),
        description: format!("Test SOP: {name}"),
        version: "1.0.0".into(),
        priority: SopPriority::Normal,
        execution_mode: SopExecutionMode::Auto,
        triggers: vec![SopTrigger::Manual],
        steps: vec![SopStep {
            number: 1,
            title: "Step one".into(),
            body: "Do it".into(),
            suggested_tools: vec![],
            requires_confirmation: false,
        }],
        cooldown_secs: 0,
        max_concurrent: 2,
        location: None,
    }
}

fn engine_with_sops(sops: Vec<Sop>) -> SopEngine {
    SopEngine::new(sops).unwrap()
}

fn manual_event() -> SopEvent {
    SopEvent {
        source: SopTriggerSource::Manual,
        topic: None,
        payload: None,
        timestamp: "2026-02-19T12:00:00Z".into(),
    }
}

fn step(number: u32, status: SopStepStatus, output: &str) -> SopStepResult {
    SopStepResult {
        step_number: number,
        status,
        output: output.into(),
        started_at: "2026-02-19T12:00:00Z".into(),
        completed_at: Some("2026-02-19T12:00:30Z".into()),
    }
}

#[test]
fn status_no_runs() {
    let engine = engine_with_sops(vec![test_sop("s1")]);
    let tool = SopStatusTool::new();
    let result = tool.execute(&engine, &ToolArgs::new()).unwrap().result;
    assert!(result.success);
    assert!(result.output.contains("No active runs"));
}

#[test]
fn status_with_active_run() {
    let mut engine = engine_with_sops(vec![test_sop("s1")]);
    engine.start_run("s1", manual_event()).unwrap();
    let tool = SopStatusTool::new();
    let result = tool.execute(&engine, &ToolArgs::new()).unwrap().result;
    assert!(result.success);
    assert!(result.output.contains("Active runs (1)"));
    assert!(result.output.contains("run-000001"));
}

#[test]
fn status_specific_run() {
    let mut engine = engine_with_sops(vec![test_sop("s1")]);
    engine.start_run("s1", manual_event()).unwrap();
    let tool = SopStatusTool::new();
    let result =
        tool.execute(&engine, &ToolArgs::new().with_str("run_id", "run-000001")).unwrap().result;
    assert!(result.success);
    assert!(result.output.contains("Run: run-000001"));
    assert!(result.output.contains("Status: running"));
}

#[test]
fn status_unknown_run() {
    let engine = engine_with_sops(vec![]);
    let tool = SopStatusTool::new();
    let outcome =
        tool.execute(&engine, &ToolArgs::new().with_str("run_id", "nonexistent")).unwrap();
    assert!(!outcome.result.success);
    assert_eq!(outcome.result.output, "");
    assert_eq!(
        outcome.result.error.as_deref(),
        Some("Status query failed: run not found: nonexistent")
    );
    assert!(outcome.effects.is_empty());
    assert!(engine.active_runs().is_empty());
    assert!(engine.finished_runs(None).is_empty());
}

#[test]
fn status_filter_by_sop_name() {
    let mut engine = engine_with_sops(vec![test_sop("s1"), test_sop("s2")]);
    engine.start_run("s1", manual_event()).unwrap();
    engine.start_run("s2", manual_event()).unwrap();
    let tool = SopStatusTool::new();
    let result = tool.execute(&engine, &ToolArgs::new().with_str("sop_name", "s1")).unwrap().result;
    assert!(result.success);
    assert!(result.output.contains("s1"));
    assert!(!result.output.contains(" s2 "));
}

#[test]
fn sop_status_name_and_schema() {
    let tool = SopStatusTool::new();
    assert_eq!(tool.name(), "sop_status");
    let params = tool.parameters();
    assert!(params.iter().any(|p| p.name == "run_id" && !p.required));
    assert!(params.iter().any(|p| p.name == "sop_name" && !p.required));
}

#[test]
fn status_reports_a_run_field_by_field() {
    let mut two = test_sop("s1");
    two.steps.push(SopStep {
        number: 2,
        title: "Step two".into(),
        body: "Do more".into(),
        suggested_tools: vec![],
        requires_confirmation: false,
    });
    let mut engine = engine_with_sops(vec![two]);
    engine.start_run_at("s1", manual_event(), 1_771_502_400).unwrap();
    let tool = SopStatusTool::new();
    let args = ToolArgs::new().with_str("run_id", "run-000001");
    assert_eq!(
        tool.execute(&engine, &args).unwrap().result.output,
        "Run: run-000001\nSOP: s1\nStatus: running\nStep: 1 of 2\nStarted: 2026-02-19T12:00:00Z\n"
    );
    engine
        .advance_step_at("run-000001", step(1, SopStepStatus::Skipped, "not needed"), 1_771_502_460)
        .unwrap();
    engine
        .advance_step_at("run-000001", step(2, SopStepStatus::Failed, "stuck"), 1_771_502_520)
        .unwrap();
    let outcome = tool.execute(&engine, &args).unwrap();
    assert!(outcome.effects.is_empty());
    assert_eq!(
        outcome.result.output,
        "Run: run-000001\nSOP: s1\nStatus: failed\nStep: 2 of 2\nStarted: 2026-02-19T12:00:00Z\n\
         Completed: 2026-02-19T12:02:00Z\n\nStep results:\n  Step 1: skipped — not needed\n  Step \
         2: failed — stuck\n"
    );
    let unknown = tool.execute(&engine, &ToolArgs::new().with_str("run_id", "x")).unwrap().result;
    assert!(!unknown.success);
    assert_eq!(unknown.error.as_deref(), Some("Status query failed: run not found: x"));
}

#[test]
fn status_lists_open_runs_and_the_latest_finished_ones() {
    let mut busy = test_sop("s1");
    busy.max_concurrent = 20;
    let mut engine = engine_with_sops(vec![busy, test_sop("s2")]);
    for i in 0..12u64 {
        engine.start_run_at("s1", manual_event(), 1_771_502_400 + i).unwrap();
    }
    for i in 1..=11u64 {
        let id = format!("run-{i:06}");
        engine
            .advance_step_at(&id, step(1, SopStepStatus::Completed, "ok"), 1_771_502_500 + i)
            .unwrap();
    }
    engine.start_run_at("s2", manual_event(), 1_771_502_600).unwrap();
    let tool = SopStatusTool::new();
    let all = tool.execute(&engine, &ToolArgs::new()).unwrap().result.output;
    let mut expected = String::from(
        "Active runs (2):\n  run-000012 — s1 [running] step 1/1\n  run-000013 — s2 [running] \
         step 1/1\n\nFinished runs (11):\n",
    );
    for i in (2..=11u64).rev() {
        let seconds = 40 + i;
        expected.push_str(&format!(
            "  run-{i:06} — s1 [completed] (2026-02-19T12:01:{seconds:02}Z)\n"
        ));
    }
    assert_eq!(all, expected);
    assert_eq!(
        tool.execute(&engine, &ToolArgs::new().with_str("sop_name", "s2")).unwrap().result.output,
        "Active runs (1):\n  run-000013 — s2 [running] step 1/1\n"
    );
    assert_eq!(
        tool.execute(&engine, &ToolArgs::new().with_str("sop_name", "s3")).unwrap().result.output,
        "No active runs for 's3'.\n"
    );
    let none = engine_with_sops(vec![]);
    assert_eq!(tool.execute(&none, &ToolArgs::new()).unwrap().result.output, "No active runs.\n");
}
