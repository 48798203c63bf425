use sop_core::metrics::collector::SopMetricsCollector;
use sop_core::metrics::model::{Instant, MetricValue};
use sop_core::types::{
    SopEvent, SopRun, SopRunStatus, SopStepResult, SopStepStatus, SopTriggerSource,
};

/// 2026-02-20T00:00:00Z, half a day after the runs of these tests ended.
const SOON_AFTER: Instant = Instant { secs: 1_771_545_600, nanos: 0 };

fn make_event() -> SopEvent {
    SopEvent {
        source: SopTriggerSource::Manual,
        topic: None,
        payload: None,
        timestamp: "2026-02-19T12:00:00Z".into(),
    }
}

fn make_run(
    run_id: &str,
    sop_name: &str,
    status: SopRunStatus,
    total_steps: u32,
    step_results: Vec<SopStepResult>,
) -> SopRun {
    SopRun {
        run_id: run_id.into(),
        sop_name: sop_name.into(),
        trigger_event: make_event(),
        status,
        current_step: total_steps,
        total_steps,
        started_at: "2026-02-19T12:00:00Z".into(),
        completed_at: Some("2026-02-19T12:05:00Z".into()),
        step_results,
        waiting_since: None,
    }
}

fn make_step(number: u32, status: SopStepStatus) -> SopStepResult {
    SopStepResult {
        step_number: number,
        status,
        output: format!("Step {number}"),
        started_at: "2026-02-19T12:00:00Z".into(),
        completed_at: Some("2026-02-19T12:01:00Z".into()),
    }
}

fn to_json(value: Option<MetricValue>) -> Option<serde_json::Value> {
    value.map(|v| match v {
        MetricValue::Count(n) => serde_json::Value::from(n),
        MetricValue::Rate { numerator, denominator } => {
            serde_json::Value::from(numerator as f64 / denominator as f64)
        }
    })
}

fn metric(c: &SopMetricsCollector, name: &str) -> Option<serde_json::Value> {
    to_json(c.get_metric_value_at(name, SOON_AFTER))
}

fn count(n: u64) -> Option<serde_json::Value> {
    Some(serde_json::Value::from(n))
}

fn rate(x: f64) -> Option<serde_json::Value> {
    Some(serde_json::Value::from(x))
}

#[test]
fn zero_state_baseline() {
    let c = SopMetricsCollector::new();
    assert_eq!(metric(&c, "sop.runs_completed"), count(0));
    assert_eq!(metric(&c, "sop.runs_failed"), count(0));
    assert_eq!(metric(&c, "sop.runs_cancelled"), count(0));
    assert_eq!(metric(&c, "sop.deviation_rate"), rate(0.0));
    assert_eq!(metric(&c, "sop.completion_rate"), rate(0.0));
}

#[test]
fn counter_arithmetic() {
    let mut c = SopMetricsCollector::new();
    let run = make_run(
        "r1",
        "test-sop",
        SopRunStatus::Completed,
        3,
        vec![
            make_step(1, SopStepStatus::Completed),
            make_step(2, SopStepStatus::Completed),
            make_step(3, SopStepStatus::Completed),
        ],
    );
    c.record_run_complete(&run);

    assert_eq!(metric(&c, "sop.runs_completed"), count(1));
    assert_eq!(metric(&c, "sop.runs_failed"), count(0));
    assert_eq!(metric(&c, "sop.deviation_rate"), rate(0.0));
    assert_eq!(metric(&c, "sop.completion_rate"), rate(1.0));
}

#[test]
fn windowed_filtering() {
    let mut c = SopMetricsCollector::new();
    let run = make_run(
        "r1",
        "test-sop",
        SopRunStatus::Completed,
        2,
        vec![make_step(1, SopStepStatus::Completed), make_step(2, SopStepStatus::Completed)],
    );
    c.record_run_complete(&run);

    assert_eq!(metric(&c, "sop.runs_completed_7d"), count(1));
    assert_eq!(metric(&c, "sop.runs_completed_30d"), count(1));
    assert_eq!(metric(&c, "sop.runs_completed_90d"), count(1));
}

#[test]
fn deviation_rate_zero_steps() {
    let mut c = SopMetricsCollector::new();
    let run = make_run("r1", "test-sop", SopRunStatus::Completed, 0, vec![]);
    c.record_run_complete(&run);

    assert_eq!(metric(&c, "sop.deviation_rate"), rate(0.0));
}

#[test]
fn protocol_adherence_rate_partial_run() {
    let mut c = SopMetricsCollector::new();
    let run = make_run(
        "r1",
        "test-sop",
        SopRunStatus::Failed,
        3,
        vec![make_step(1, SopStepStatus::Completed), make_step(2, SopStepStatus::Failed)],
    );
    c.record_run_complete(&run);

    let val = metric(&c, "sop.protocol_adherence_rate").unwrap().as_f64().unwrap();
    assert!((val - 1.0 / 3.0).abs() < 1e-10);
}

#[test]
fn protocol_adherence_rate_full_run() {
    let mut c = SopMetricsCollector::new();
    let run = make_run(
        "r1",
        "test-sop",
        SopRunStatus::Completed,
        2,
        vec![make_step(1, SopStepStatus::Completed), make_step(2, SopStepStatus::Completed)],
    );
    c.record_run_complete(&run);

    let val = metric(&c, "sop.protocol_adherence_rate").unwrap().as_f64().unwrap();
    assert!((val - 1.0).abs() < 1e-10);
}

#[test]
fn protocol_adherence_rate_failed_run() {
    let mut c = SopMetricsCollector::new();
    let run = make_run(
        "r1",
        "test-sop",
        SopRunStatus::Failed,
        3,
        vec![
            make_step(1, SopStepStatus::Completed),
            make_step(2, SopStepStatus::Failed),
            make_step(3, SopStepStatus::Skipped),
        ],
    );
    c.record_run_complete(&run);

    let val = metric(&c, "sop.protocol_adherence_rate").unwrap().as_f64().unwrap();
    assert!((val - 1.0 / 3.0).abs() < 1e-10);
}

#[test]
fn derived_rate_metrics() {
    let mut c = SopMetricsCollector::new();
    c.record_approval("test-sop", "r1");
    c.record_timeout_auto_approve("test-sop", "r2");

    let run1 = make_run(
        "r1",
        "test-sop",
        SopRunStatus::Completed,
        1,
        vec![make_step(1, SopStepStatus::Completed)],
    );
    let run2 = make_run(
        "r2",
        "test-sop",
        SopRunStatus::Completed,
        1,
        vec![make_step(1, SopStepStatus::Completed)],
    );
    c.record_run_complete(&run1);
    c.record_run_complete(&run2);

    let hir = metric(&c, "sop.human_intervention_rate").unwrap().as_f64().unwrap();
    assert!((hir - 0.5).abs() < 1e-10);

    let tar = metric(&c, "sop.timeout_approval_rate").unwrap().as_f64().unwrap();
    assert!((tar - 0.5).abs() < 1e-10);

    assert_eq!(metric(&c, "sop.completion_rate"), rate(1.0));
}

#[test]
fn per_sop_lookup() {
    let mut c = SopMetricsCollector::new();
    let run = make_run(
        "r1",
        "valve-shutdown",
        SopRunStatus::Completed,
        2,
        vec![make_step(1, SopStepStatus::Completed), make_step(2, SopStepStatus::Completed)],
    );
    c.record_run_complete(&run);

    assert_eq!(metric(&c, "sop.valve-shutdown.runs_completed"), count(1));
    assert_eq!(metric(&c, "sop.valve-shutdown.completion_rate"), rate(1.0));
}

#[test]
fn longest_match_disambiguation() {
    let mut c = SopMetricsCollector::new();
    let r1 = make_run(
        "r1",
        "valve",
        SopRunStatus::Completed,
        1,
        vec![make_step(1, SopStepStatus::Completed)],
    );
    let r2 = make_run(
        "r2",
        "valve-shutdown",
        SopRunStatus::Failed,
        2,
        vec![make_step(1, SopStepStatus::Completed), make_step(2, SopStepStatus::Failed)],
    );
    c.record_run_complete(&r1);
    c.record_run_complete(&r2);

    assert_eq!(metric(&c, "sop.valve-shutdown.runs_failed"), count(1));
    assert_eq!(metric(&c, "sop.valve.runs_completed"), count(1));
}

#[test]
fn not_found_for_unknown_metric() {
    let c = SopMetricsCollector::new();
    assert_eq!(metric(&c, "sop.nonexistent"), None);
    assert_eq!(metric(&c, "other.runs_completed"), None);
    assert_eq!(metric(&c, "sop.no-sop.nonexistent"), None);
}

#[test]
fn approval_flag_propagation() {
    let mut c = SopMetricsCollector::new();
    c.record_approval("test-sop", "r1");

    let run = make_run(
        "r1",
        "test-sop",
        SopRunStatus::Completed,
        1,
        vec![make_step(1, SopStepStatus::Completed)],
    );
    c.record_run_complete(&run);

    let snap = c.snapshot();
    assert_eq!(snap.global.totals.human_approvals, 1);
    assert_eq!(snap.global.totals.runs_completed, 1);

    let hic = metric(&c, "sop.human_intervention_count_7d").unwrap().as_u64().unwrap();
    assert_eq!(hic, 1);
}

#[test]
fn pending_approval_stale_eviction() {
    let mut c = SopMetricsCollector::new();
    c.record_approval("test-sop", "orphan-run");
    assert_eq!(c.snapshot().pending_approvals, 1);

    let run = make_run(
        "r2",
        "test-sop",
        SopRunStatus::Completed,
        1,
        vec![make_step(1, SopStepStatus::Completed)],
    );
    c.record_run_complete(&run);

    assert_eq!(c.snapshot().pending_approvals, 1);
}

#[test]
fn snapshot_diagnostic_output() {
    let mut c = SopMetricsCollector::new();
    let run = make_run(
        "r1",
        "test-sop",
        SopRunStatus::Completed,
        1,
        vec![make_step(1, SopStepStatus::Completed)],
    );
    c.record_run_complete(&run);

    let snap = c.snapshot();
    assert_eq!(snap.global.totals.runs_completed, 1);
    assert_eq!(snap.global.recent_runs_depth, 1);
    assert_eq!(snap.per_sop.len(), 1);
    assert_eq!(snap.per_sop[0].name, "test-sop");
    assert_eq!(snap.per_sop[0].counters.totals.runs_completed, 1);
    assert_eq!(snap.pending_approvals, 0);
    assert_eq!(snap.pending_timeout_approvals, 0);
}

#[test]
fn runs_cancelled_tracking() {
    let mut c = SopMetricsCollector::new();
    let run = make_run(
        "r1",
        "test-sop",
        SopRunStatus::Cancelled,
        2,
        vec![make_step(1, SopStepStatus::Completed)],
    );
    c.record_run_complete(&run);

    assert_eq!(metric(&c, "sop.runs_cancelled"), count(1));
    let cr = metric(&c, "sop.completion_rate").unwrap().as_f64().unwrap();
    assert!((cr - 0.0).abs() < 1e-10);
}

#[test]
fn stale_pending_approval_is_evicted_after_an_hour() {
    let mut c = SopMetricsCollector::new();
    let start = Instant { secs: 1_000_000, nanos: 500 };
    c.record_approval_at("test-sop", "orphan-run", start);
    c.record_approval_at("test-sop", "r1", Instant { secs: 1_003_000, nanos: 0 });
    let run = make_run(
        "r2",
        "test-sop",
        SopRunStatus::Completed,
        1,
        vec![make_step(1, SopStepStatus::Completed)],
    );
    // One nanosecond short of an hour after the first approval: both stay.
    c.record_run_complete_at(&run, Instant { secs: 1_003_600, nanos: 499 });
    assert_eq!(c.snapshot().pending_approvals, 2);
    // Exactly an hour after it: the first one goes.
    let run3 = make_run("r3", "test-sop", SopRunStatus::Completed, 0, vec![]);
    c.record_run_complete_at(&run3, Instant { secs: 1_003_600, nanos: 500 });
    assert_eq!(c.snapshot().pending_approvals, 1);
    // A run whose approval went stale is not flagged.
    let orphan = make_run("orphan-run", "test-sop", SopRunStatus::Completed, 0, vec![]);
    c.record_run_complete_at(&orphan, Instant { secs: 1_003_601, nanos: 0 });
    assert_eq!(
        c.get_metric_value_at("sop.human_intervention_count_90d", SOON_AFTER),
        Some(MetricValue::Count(0))
    );
    assert_eq!(
        c.get_metric_value_at("sop.human_intervention_count", SOON_AFTER),
        Some(MetricValue::Count(2))
    );
}

#[test]
fn window_edges_are_inclusive() {
    let mut c = SopMetricsCollector::new();
    let run = make_run("r1", "s", SopRunStatus::Completed, 0, vec![]);
    // The run ended at 2026-02-19T12:05:00Z = 1_771_502_700.
    c.record_run_complete_at(&run, SOON_AFTER);
    let ended = 1_771_502_700_i64;
    let at_edge = Instant { secs: ended + 7 * 86_400, nanos: 0 };
    let past_edge = Instant { secs: ended + 7 * 86_400, nanos: 1 };
    assert_eq!(c.get_metric_value_at("sop.runs_completed_7d", at_edge), Some(MetricValue::Count(1)));
    assert_eq!(
        c.get_metric_value_at("sop.runs_completed_7d", past_edge),
        Some(MetricValue::Count(0))
    );
    assert_eq!(
        c.get_metric_value_at("sop.runs_completed_30d", past_edge),
        Some(MetricValue::Count(1))
    );
    assert_eq!(
        c.get_metric_value_at("sop.completion_rate_7d", past_edge),
        Some(MetricValue::Rate { numerator: 0, denominator: 1 })
    );
}

#[test]
fn completion_time_is_read_in_both_forms() {
    let mut c = SopMetricsCollector::new();
    let mut with_offset = make_run("r1", "s", SopRunStatus::Completed, 0, vec![]);
    with_offset.completed_at = Some("2026-02-19T13:05:00+01:00".into());
    let mut naive = make_run("r2", "s", SopRunStatus::Completed, 0, vec![]);
    naive.completed_at = Some("2026-02-19T12:05:00".into());
    let mut unreadable = make_run("r3", "s", SopRunStatus::Completed, 0, vec![]);
    unreadable.completed_at = Some("yesterday".into());
    let mut old = make_run("r4", "s", SopRunStatus::Completed, 0, vec![]);
    old.completed_at = Some("2020-01-01T00:00:00Z".into());
    let recorded_at = Instant { secs: 1_771_502_700 + 86_400, nanos: 0 };
    for run in [&with_offset, &naive, &unreadable, &old] {
        c.record_run_complete_at(run, recorded_at);
    }
    // All four count since the start.
    assert_eq!(
        c.get_metric_value_at("sop.runs_completed", recorded_at),
        Some(MetricValue::Count(4))
    );
    // Seven days after the first two ended, to the second: they are still in
    // the window, and so is the one that counts as ended when it was recorded.
    let edge = Instant { secs: 1_771_502_700 + 7 * 86_400, nanos: 0 };
    assert_eq!(c.get_metric_value_at("sop.runs_completed_7d", edge), Some(MetricValue::Count(3)));
    // A second later only the one that was recorded a day later is.
    let later = Instant { secs: 1_771_502_701 + 7 * 86_400, nanos: 0 };
    assert_eq!(c.get_metric_value_at("sop.runs_completed_7d", later), Some(MetricValue::Count(1)));
}

#[test]
fn rates_are_shares_of_a_whole() {
    let mut c = SopMetricsCollector::new();
    let runs = [
        make_run(
            "r1",
            "a",
            SopRunStatus::Failed,
            3,
            vec![make_step(1, SopStepStatus::Skipped), make_step(2, SopStepStatus::Failed)],
        ),
        make_run("r2", "a", SopRunStatus::Cancelled, 2, vec![]),
        make_run("r3", "b", SopRunStatus::Completed, 1, vec![make_step(1, SopStepStatus::Completed)]),
    ];
    for run in &runs {
        c.record_run_complete_at(run, SOON_AFTER);
    }
    assert_eq!(
        c.get_metric_value_at("sop.deviation_rate", SOON_AFTER),
        Some(MetricValue::Rate { numerator: 2, denominator: 3 })
    );
    assert_eq!(
        c.get_metric_value_at("sop.protocol_adherence_rate", SOON_AFTER),
        Some(MetricValue::Rate { numerator: 1, denominator: 6 })
    );
    assert_eq!(
        c.get_metric_value_at("sop.completion_rate", SOON_AFTER),
        Some(MetricValue::Rate { numerator: 1, denominator: 3 })
    );
    assert_eq!(
        c.get_metric_value_at("sop.a.completion_rate", SOON_AFTER),
        Some(MetricValue::Rate { numerator: 0, denominator: 2 })
    );
    for name in ["sop.", "sop.a.", "sop.b."] {
        for metric_name in ["completion_rate", "deviation_rate", "protocol_adherence_rate"] {
            for window in ["", "_7d", "_30d", "_90d"] {
                let full = format!("{name}{metric_name}{window}");
                match c.get_metric_value_at(&full, SOON_AFTER) {
                    Some(MetricValue::Rate { numerator, denominator }) => {
                        assert!(denominator >= 1);
                        assert!(numerator <= denominator, "{full}");
                    }
                    other => panic!("{full}: {other:?}"),
                }
            }
        }
    }
}

#[test]
fn a_dotted_name_and_an_empty_one() {
    let mut c = SopMetricsCollector::new();
    let dotted = make_run("r1", "plant.valve", SopRunStatus::Completed, 0, vec![]);
    let plain = make_run("r2", "plant", SopRunStatus::Failed, 0, vec![]);
    let nameless = make_run("r3", "", SopRunStatus::Failed, 0, vec![]);
    for run in [&dotted, &plain, &nameless] {
        c.record_run_complete_at(run, SOON_AFTER);
    }
    assert_eq!(
        c.get_metric_value_at("sop.plant.valve.runs_completed", SOON_AFTER),
        Some(MetricValue::Count(1))
    );
    assert_eq!(
        c.get_metric_value_at("sop.plant.runs_failed", SOON_AFTER),
        Some(MetricValue::Count(1))
    );
    assert_eq!(c.get_metric_value_at("sop.plant.valve.none", SOON_AFTER), None);
    assert_eq!(c.get_metric_value_at("sop..runs_failed", SOON_AFTER), None);
    assert_eq!(c.get_metric_value_at("sop.plantx.runs_failed", SOON_AFTER), None);
    assert_eq!(c.get_metric_value_at("sop.runs_failed", SOON_AFTER), Some(MetricValue::Count(2)));
}

#[test]
fn metric_read_at_the_present_instant() {
    let mut c = SopMetricsCollector::new();
    c.record_timeout_auto_approve("s", "r1");
    assert_eq!(c.get_metric_value("sop.timeout_auto_approvals"), Some(MetricValue::Count(1)));
    assert_eq!(c.get_metric_value("sop.s.timeout_auto_approvals"), Some(MetricValue::Count(1)));
    assert_eq!(c.snapshot().pending_timeout_approvals, 1);
}

#[test]
fn adherence_is_a_share_only_of_runs_within_their_plan() {
    let mut c = SopMetricsCollector::new();
    let overrun = make_run(
        "r1",
        "s",
        SopRunStatus::Completed,
        1,
        vec![make_step(1, SopStepStatus::Completed), make_step(2, SopStepStatus::Completed)],
    );
    c.record_run_complete_at(&overrun, SOON_AFTER);
    assert_eq!(
        c.get_metric_value_at("sop.protocol_adherence_rate", SOON_AFTER),
        Some(MetricValue::Rate { numerator: 2, denominator: 1 })
    );
    assert_eq!(
        c.get_metric_value_at("sop.deviation_rate", SOON_AFTER),
        Some(MetricValue::Rate { numerator: 0, denominator: 2 })
    );
}

#[test]
fn approval_rates_are_per_completed_run() {
    let mut c = SopMetricsCollector::new();
    c.record_approval_at("s", "r1", SOON_AFTER);
    c.record_approval_at("s", "r1", SOON_AFTER);
    c.record_approval_at("s", "r2", SOON_AFTER);
    assert_eq!(c.snapshot().pending_approvals, 2);
    assert_eq!(
        c.get_metric_value_at("sop.human_intervention_rate", SOON_AFTER),
        Some(MetricValue::Rate { numerator: 3, denominator: 1 })
    );
    assert_eq!(
        c.get_metric_value_at("sop.timeout_approval_rate", SOON_AFTER),
        Some(MetricValue::Rate { numerator: 0, denominator: 1 })
    );
    let done = make_run("r1", "s", SopRunStatus::Completed, 0, vec![]);
    let failed = make_run("r2", "s", SopRunStatus::Failed, 0, vec![]);
    c.record_run_complete_at(&done, SOON_AFTER);
    c.record_run_complete_at(&failed, SOON_AFTER);
    assert_eq!(
        c.get_metric_value_at("sop.s.human_intervention_rate", SOON_AFTER),
        Some(MetricValue::Rate { numerator: 3, denominator: 1 })
    );
    assert_eq!(
        c.get_metric_value_at("sop.human_intervention_count_30d", SOON_AFTER),
        Some(MetricValue::Count(2))
    );
    assert_eq!(
        c.get_metric_value_at("sop.human_intervention_rate_30d", SOON_AFTER),
        Some(MetricValue::Rate { numerator: 2, denominator: 1 })
    );
}

#[test]
fn recent_runs_are_kept_up_to_a_thousand() {
    let mut c = SopMetricsCollector::new();
    for i in 0..1005u32 {
        let name = if i < 5 { "early" } else { "late" };
        let run = make_run(&format!("r{i}"), name, SopRunStatus::Completed, 0, vec![]);
        c.record_run_complete_at(&run, SOON_AFTER);
    }
    let snap = c.snapshot();
    assert_eq!(snap.global.totals.runs_completed, 1005);
    assert_eq!(snap.global.recent_runs_depth, 1000);
    assert_eq!(snap.per_sop[0].counters.recent_runs_depth, 5);
    assert_eq!(snap.per_sop[1].counters.recent_runs_depth, 1000);
    assert_eq!(
        c.get_metric_value_at("sop.runs_completed_90d", SOON_AFTER),
        Some(MetricValue::Count(1000))
    );
    assert_eq!(
        c.get_metric_value_at("sop.early.runs_completed_90d", SOON_AFTER),
        Some(MetricValue::Count(5))
    );
    assert_eq!(
        c.get_metric_value_at("sop.runs_completed", SOON_AFTER),
        Some(MetricValue::Count(1005))
    );
}
