use sop_core::audit::SopAuditLogger;
use sop_core::engine::SopEngine;
use sop_core::health::HealthRegistry;
use sop_core::metrics::collector::SopMetricsCollector;
use sop_core::metrics::model::{Instant, MetricValue};
use sop_core::supervisor::{ComponentExit, Supervisor};
use sop_core::tools::sop_advance::SopAdvanceTool;
use sop_core::tools::sop_approve::SopApproveTool;
use sop_core::tools::sop_execute::SopExecuteTool;
use sop_core::tools::{ToolArgs, ToolEffect, ToolOutcome};
use sop_core::types::{Sop, SopExecutionMode, SopPriority, SopStep, SopTrigger};

/// 2026-02-19T12:00:00Z.
const NOON: u64 = 1_771_502_400;

fn at(secs: u64) -> Instant {
    Instant { secs: secs as i64, nanos: 0 }
}

fn sop(name: &str, mode: SopExecutionMode, steps: u32) -> Sop {
    Sop {
        name: name.into(),
        description: String::new(),
        version: "1.0.0".into(),
        priority: SopPriority::Normal,
        execution_mode: mode,
        triggers: vec![SopTrigger::Manual],
        steps: (1..=steps)
            .map(|n| SopStep {
                number: n,
                title: format!("Step {n}"),
                body: format!("Do step-{n}"),
                suggested_tools: vec![],
                requires_confirmation: false,
            })
            .collect(),
        cooldown_secs: 0,
        max_concurrent: 1,
        location: None,
    }
}

/// The tools around one engine, and the metrics that are told what follows.
struct Surface {
    engine: SopEngine,
    metrics: SopMetricsCollector,
    written: Vec<String>,
    now: u64,
}

impl Surface {
    fn new(sops: Vec<Sop>) -> Surface {
        Surface {
            engine: SopEngine::new(sops).unwrap(),
            metrics: SopMetricsCollector::new(),
            written: Vec::new(),
            now: NOON,
        }
    }

    fn follow(&mut self, outcome: ToolOutcome) -> ToolOutcome {
        for effect in &outcome.effects {
            match effect {
                ToolEffect::Audit(record) => self.written.push(record.key.clone()),
                ToolEffect::RecordApproval { sop_name, run_id } => {
                    self.metrics.record_approval_at(sop_name, run_id, at(self.now))
                }
                ToolEffect::RecordRunComplete(run) => {
                    self.metrics.record_run_complete_at(run, at(self.now))
                }
            }
        }
        outcome
    }

    fn execute(&mut self, name: &str) -> ToolOutcome {
        self.now += 1;
        let tool = SopExecuteTool::new().with_audit(SopAuditLogger::new());
        let outcome = tool
            .execute_at(&mut self.engine, &ToolArgs::new().with_str("name", name), self.now)
            .unwrap();
        self.follow(outcome)
    }

    fn advance(&mut self, run_id: &str, status: &str, output: &str) -> ToolOutcome {
        self.now += 1;
        let tool = SopAdvanceTool::new().with_audit(SopAuditLogger::new());
        let args = ToolArgs::new()
            .with_str("run_id", run_id)
            .with_str("status", status)
            .with_str("output", output);
        let outcome = tool.execute_at(&mut self.engine, &args, self.now).unwrap();
        self.follow(outcome)
    }

    fn approve(&mut self, run_id: &str) -> ToolOutcome {
        self.now += 1;
        let tool = SopApproveTool::new().with_audit(SopAuditLogger::new());
        let outcome =
            tool.execute(&mut self.engine, &ToolArgs::new().with_str("run_id", run_id)).unwrap();
        self.follow(outcome)
    }

    fn metric(&self, name: &str) -> Option<MetricValue> {
        self.metrics.get_metric_value_at(name, at(self.now))
    }
}

fn as_f64(value: Option<MetricValue>) -> f64 {
    match value {
        Some(MetricValue::Rate { numerator, denominator }) => numerator as f64 / denominator as f64,
        Some(MetricValue::Count(n)) => n as f64,
        None => panic!("no such metric"),
    }
}

#[test]
fn auto_two_step_completion() {
    let mut surface = Surface::new(vec![sop("demo", SopExecutionMode::Auto, 2)]);
    let started = surface.execute("demo");
    assert!(started.result.success);
    assert!(started.result.output.contains("run-000001"));
    assert!(started.result.output.contains("Do step-1"));
    let next = surface.advance("run-000001", "completed", "ok");
    assert!(next.result.output.contains("Do step-2"));
    let done = surface.advance("run-000001", "completed", "ok");
    assert!(done.result.output.contains("completed successfully"));

    assert_eq!(surface.metric("sop.runs_completed"), Some(MetricValue::Count(1)));
    assert_eq!(as_f64(surface.metric("sop.deviation_rate")), 0.0);
    assert_eq!(as_f64(surface.metric("sop.completion_rate")), 1.0);
    assert_eq!(
        surface.written,
        vec![
            "sop_run_run-000001",
            "sop_step_run-000001_1",
            "sop_step_run-000001_2",
            "sop_run_run-000001"
        ]
    );
}

#[test]
fn supervised_approval() {
    let mut surface = Surface::new(vec![sop("demo", SopExecutionMode::Supervised, 1)]);
    let started = surface.execute("demo");
    assert!(started.result.output.contains("waiting for approval"));
    let approved = surface.approve("run-000001");
    assert!(approved.result.success);
    assert_eq!(surface.metric("sop.human_intervention_count"), Some(MetricValue::Count(1)));
    assert_eq!(surface.metric("sop.human_intervention_count_7d"), Some(MetricValue::Count(0)));

    surface.advance("run-000001", "completed", "ok");
    assert_eq!(surface.metric("sop.human_intervention_count"), Some(MetricValue::Count(1)));
    assert_eq!(surface.metric("sop.human_intervention_count_7d"), Some(MetricValue::Count(1)));
    assert_eq!(surface.metrics.snapshot().pending_approvals, 0);
}

#[test]
fn failed_step() {
    let mut surface = Surface::new(vec![sop("demo", SopExecutionMode::Auto, 3)]);
    surface.execute("demo");
    surface.advance("run-000001", "completed", "ok");
    let failed = surface.advance("run-000001", "failed", "valve stuck");
    assert!(failed.result.output.contains("failed"));
    assert_eq!(surface.metric("sop.runs_failed"), Some(MetricValue::Count(1)));
    let adherence = as_f64(surface.metric("sop.protocol_adherence_rate"));
    assert!((adherence - 1.0 / 3.0).abs() < 1e-10);
    assert_eq!(
        surface.metric("sop.protocol_adherence_rate"),
        Some(MetricValue::Rate { numerator: 1, denominator: 3 })
    );
}

#[test]
fn longest_prefix_disambiguation() {
    let mut surface = Surface::new(vec![
        sop("valve", SopExecutionMode::Auto, 1),
        sop("valve-shutdown", SopExecutionMode::Auto, 1),
    ]);
    surface.execute("valve");
    surface.advance("run-000001", "completed", "ok");
    surface.execute("valve-shutdown");
    surface.advance("run-000002", "failed", "no");

    assert_eq!(surface.metric("sop.valve-shutdown.runs_failed"), Some(MetricValue::Count(1)));
    assert_eq!(surface.metric("sop.valve.runs_completed"), Some(MetricValue::Count(1)));
    assert_eq!(surface.metric("sop.valve.runs_failed"), Some(MetricValue::Count(0)));
    assert_eq!(surface.metric("sop.valve-shutdown.runs_completed"), Some(MetricValue::Count(0)));
}

#[test]
fn cooldown_refusal() {
    let mut cooling = sop("demo", SopExecutionMode::Auto, 1);
    cooling.cooldown_secs = 60;
    let mut surface = Surface::new(vec![cooling]);
    surface.execute("demo");
    surface.advance("run-000001", "completed", "ok");
    let again = surface.execute("demo");
    assert!(!again.result.success);
    assert!(again.result.error.unwrap().contains("cooldown"));
    assert!(again.effects.is_empty());
    surface.now += 60;
    assert!(surface.execute("demo").result.success);
}

#[test]
fn supervisor_error_and_restart() {
    let mut health = HealthRegistry::new();
    let mut supervisor = Supervisor::new("component", 1, 1);
    for _ in 0..3 {
        supervisor.before_run(&mut health);
        assert_eq!(health.snapshot()[0].status.as_str(), "ok");
        assert_eq!(health.snapshot()[0].last_error, None);
        let sleep = supervisor.after_run(&mut health, &ComponentExit::Failed("boom".into()));
        assert_eq!(sleep, 1);
        let component = &health.snapshot()[0];
        assert_eq!(component.name, "component");
        assert_eq!(component.status.as_str(), "error");
        assert!(component.last_error.as_deref().unwrap().contains("boom"));
        assert!(component.restart_count >= 1);
    }
    assert_eq!(health.snapshot()[0].restart_count, 3);
}
