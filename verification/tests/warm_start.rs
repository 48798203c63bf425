use sop_core::audit::{AuditRecord, SopAuditLogger};
use sop_core::metrics::collector::SopMetricsCollector;
use sop_core::metrics::model::{Instant, MetricValue};
use sop_core::metrics::warm::AuditEntry;
use sop_core::types::{
    SopEvent, SopRun, SopRunStatus, SopStepResult, SopStepStatus, SopTriggerSource,
};

/// 2026-02-20T00:00:00Z.
const SOON_AFTER: Instant = Instant { secs: 1_771_545_600, nanos: 0 };

fn make_event() -> SopEvent {
    SopEvent {
        source: SopTriggerSource::Manual,
        topic: None,
        payload: None,
        timestamp: "2026-02-19T12:00:00Z".into(),
    }
}

fn make_run(
    run_id: &str,
    sop_name: &str,
    status: SopRunStatus,
    total_steps: u32,
    step_results: Vec<SopStepResult>,
) -> SopRun {
    SopRun {
        run_id: run_id.into(),
        sop_name: sop_name.into(),
        trigger_event: make_event(),
        status,
        current_step: total_steps,
        total_steps,
        started_at: "2026-02-19T12:00:00Z".into(),
        completed_at: Some("2026-02-19T12:05:00Z".into()),
        step_results,
        waiting_since: None,
    }
}

fn make_step(number: u32, status: SopStepStatus) -> SopStepResult {
    SopStepResult {
        step_number: number,
        status,
        output: format!("Step {number}"),
        started_at: "2026-02-19T12:00:00Z".into(),
        completed_at: Some("2026-02-19T12:01:00Z".into()),
    }
}

/// The trail as a store that keeps one record per key holds it: a later
/// record under a key takes the place of an earlier one.
fn store(trail: &mut Vec<AuditEntry>, record: AuditRecord) {
    assert_eq!(record.category, "sop");
    let entry = AuditEntry { key: record.key, run: Some(record.run) };
    match trail.iter().position(|e| e.key == entry.key) {
        Some(i) => trail[i] = entry,
        None => trail.push(entry),
    }
}

fn metric(c: &SopMetricsCollector, name: &str) -> Option<MetricValue> {
    c.get_metric_value_at(name, SOON_AFTER)
}

#[test]
fn warm_start_roundtrip() {
    let audit = SopAuditLogger::new();
    let mut trail = Vec::new();
    let run = make_run(
        "r1",
        "test-sop",
        SopRunStatus::Completed,
        2,
        vec![make_step(1, SopStepStatus::Completed), make_step(2, SopStepStatus::Completed)],
    );
    store(&mut trail, audit.log_run_start(&run));
    store(&mut trail, audit.log_run_complete(&run));
    store(&mut trail, audit.log_approval(&run, 1));

    let collector = SopMetricsCollector::rebuild_from_memory_at(&trail, SOON_AFTER).unwrap();

    assert_eq!(metric(&collector, "sop.runs_completed"), Some(MetricValue::Count(1)));
    assert_eq!(metric(&collector, "sop.human_intervention_count"), Some(MetricValue::Count(1)));
    assert_eq!(metric(&collector, "sop.test-sop.runs_completed"), Some(MetricValue::Count(1)));
}

#[test]
fn warm_start_skips_running_runs() {
    let audit = SopAuditLogger::new();
    let mut trail = Vec::new();
    let run = SopRun {
        run_id: "r1".into(),
        sop_name: "test-sop".into(),
        trigger_event: make_event(),
        status: SopRunStatus::Running,
        current_step: 1,
        total_steps: 3,
        started_at: "2026-02-19T12:00:00Z".into(),
        completed_at: None,
        step_results: vec![],
        waiting_since: None,
    };
    store(&mut trail, audit.log_run_start(&run));

    let collector = SopMetricsCollector::rebuild_from_memory_at(&trail, SOON_AFTER).unwrap();

    assert_eq!(metric(&collector, "sop.runs_completed"), Some(MetricValue::Count(0)));
}

#[test]
fn warm_start_empty_memory() {
    let collector = SopMetricsCollector::rebuild_from_memory_at(&Vec::new(), SOON_AFTER).unwrap();

    assert_eq!(metric(&collector, "sop.runs_completed"), Some(MetricValue::Count(0)));
}

#[test]
fn warm_start_approval_matching() {
    let audit = SopAuditLogger::new();
    let mut trail = Vec::new();
    let run = make_run(
        "r1",
        "test-sop",
        SopRunStatus::Completed,
        1,
        vec![make_step(1, SopStepStatus::Completed)],
    );
    store(&mut trail, audit.log_run_start(&run));
    store(&mut trail, audit.log_timeout_auto_approve(&run, 1));
    store(&mut trail, audit.log_run_complete(&run));

    let collector = SopMetricsCollector::rebuild_from_memory_at(&trail, SOON_AFTER).unwrap();

    assert_eq!(metric(&collector, "sop.timeout_auto_approvals"), Some(MetricValue::Count(1)));
    assert_eq!(metric(&collector, "sop.timeout_auto_approvals_7d"), Some(MetricValue::Count(1)));
}

#[test]
fn warm_start_passes_over_what_it_cannot_read() {
    let audit = SopAuditLogger::new();
    let run = make_run(
        "r1",
        "a",
        SopRunStatus::Failed,
        2,
        vec![make_step(1, SopStepStatus::Failed)],
    );
    let trail = vec![
        AuditEntry { key: "sop_run_r0".into(), run: None },
        AuditEntry { key: "sop_approval_r0_1".into(), run: None },
        AuditEntry { key: "unrelated".into(), run: Some(run.clone()) },
        AuditEntry { key: audit.log_step_result(&run, 1).key, run: Some(run.clone()) },
        AuditEntry { key: audit.log_run_complete(&run).key, run: Some(run.clone()) },
    ];
    let collector = SopMetricsCollector::rebuild_from_memory_at(&trail, SOON_AFTER).unwrap();
    assert_eq!(metric(&collector, "sop.runs_failed"), Some(MetricValue::Count(1)));
    assert_eq!(metric(&collector, "sop.human_intervention_count"), Some(MetricValue::Count(0)));
    assert_eq!(
        metric(&collector, "sop.deviation_rate"),
        Some(MetricValue::Rate { numerator: 1, denominator: 1 })
    );
    assert_eq!(collector.snapshot().pending_approvals, 0);
}

#[test]
fn warm_start_counts_approvals_of_runs_that_never_ended() {
    let audit = SopAuditLogger::new();
    let mut open = make_run("r7", "a", SopRunStatus::WaitingApproval, 2, vec![]);
    open.completed_at = None;
    let mut trail = Vec::new();
    store(&mut trail, audit.log_run_start(&open));
    store(&mut trail, audit.log_approval(&open, 1));
    store(&mut trail, audit.log_approval(&open, 2));
    let collector = SopMetricsCollector::rebuild_from_memory_at(&trail, SOON_AFTER).unwrap();
    assert_eq!(metric(&collector, "sop.human_intervention_count"), Some(MetricValue::Count(2)));
    assert_eq!(metric(&collector, "sop.a.human_intervention_count"), Some(MetricValue::Count(2)));
    assert_eq!(metric(&collector, "sop.human_intervention_count_90d"), Some(MetricValue::Count(0)));
    assert_eq!(metric(&collector, "sop.runs_completed"), Some(MetricValue::Count(0)));
}

#[test]
fn warm_start_agrees_with_live_counting() {
    let audit = SopAuditLogger::new();
    let r1 = make_run(
        "r1",
        "valve",
        SopRunStatus::Completed,
        2,
        vec![make_step(1, SopStepStatus::Completed), make_step(2, SopStepStatus::Skipped)],
    );
    let r2 = make_run(
        "r2",
        "valve-shutdown",
        SopRunStatus::Failed,
        3,
        vec![make_step(1, SopStepStatus::Failed)],
    );
    let mut r3 = make_run("r3", "valve", SopRunStatus::Running, 2, vec![]);
    r3.completed_at = None;

    let mut live = SopMetricsCollector::new();
    let mut trail = Vec::new();
    trail.push(audit.log_run_start(&r3));
    trail.push(audit.log_approval(&r1, 1));
    live.record_approval_at("valve", "r1", SOON_AFTER);
    trail.push(audit.log_step_result(&r1, 1));
    trail.push(audit.log_timeout_auto_approve(&r2, 1));
    live.record_timeout_auto_approve_at("valve-shutdown", "r2", SOON_AFTER);
    trail.push(audit.log_run_complete(&r2));
    live.record_run_complete_at(&r2, SOON_AFTER);
    trail.push(audit.log_approval(&r3, 1));
    live.record_approval_at("valve", "r3", SOON_AFTER);
    trail.push(audit.log_run_complete(&r1));
    live.record_run_complete_at(&r1, SOON_AFTER);

    let entries: Vec<AuditEntry> =
        trail.into_iter().map(|r| AuditEntry { key: r.key, run: Some(r.run) }).collect();
    let warm = SopMetricsCollector::rebuild_from_memory_at(&entries, SOON_AFTER).unwrap();

    let live_view = live.snapshot();
    let warm_view = warm.snapshot();
    assert_eq!(warm_view.global.totals, live_view.global.totals);
    assert_eq!(warm_view.global.totals.runs_completed, 1);
    assert_eq!(warm_view.global.totals.runs_failed, 1);
    assert_eq!(warm_view.global.totals.steps_executed, 3);
    assert_eq!(warm_view.global.totals.steps_defined, 5);
    assert_eq!(warm_view.global.totals.human_approvals, 2);
    assert_eq!(warm_view.global.totals.timeout_auto_approvals, 1);
    for name in ["valve", "valve-shutdown"] {
        let of = |snap: &sop_core::metrics::collector::CollectorSnapshot| {
            snap.per_sop.iter().find(|s| s.name == name).map(|s| s.counters.totals)
        };
        assert!(of(&warm_view).is_some());
        assert_eq!(of(&warm_view), of(&live_view));
    }
}

#[test]
fn warm_start_keeps_the_last_record_of_a_run() {
    let audit = SopAuditLogger::new();
    let first = make_run("r1", "a", SopRunStatus::Failed, 1, vec![]);
    let last = make_run(
        "r1",
        "a",
        SopRunStatus::Completed,
        1,
        vec![make_step(1, SopStepStatus::Completed)],
    );
    let entries = vec![
        AuditEntry { key: audit.log_run_complete(&first).key, run: Some(first) },
        AuditEntry { key: audit.log_run_complete(&last).key, run: Some(last) },
    ];
    let warm = SopMetricsCollector::rebuild_from_memory_at(&entries, SOON_AFTER).unwrap();
    assert_eq!(metric(&warm, "sop.runs_completed"), Some(MetricValue::Count(1)));
    assert_eq!(metric(&warm, "sop.runs_failed"), Some(MetricValue::Count(0)));
    assert_eq!(metric(&warm, "sop.a.runs_completed_7d"), Some(MetricValue::Count(1)));
}
