use sop_core::engine::SopEngine;
use sop_core::types::{
    Sop, SopError, SopEvent, SopExecutionMode, SopPriority, SopRunAction, SopRunStatus, SopStep,
    SopStepResult, SopStepStatus, SopTrigger, SopTriggerSource,
};

/// 2026-02-19T12:00:00Z.
const NOON: u64 = 1_771_502_400;

fn step_def(number: u32, confirm: bool) -> SopStep {
    SopStep {
        number,
        title: format!("Title {number}"),
        body: format!("Body {number}"),
        suggested_tools: if number == 1 { vec!["shell".into(), "http".into()] } else { vec![] },
        requires_confirmation: confirm,
    }
}

fn sop(name: &str, mode: SopExecutionMode, steps: u32) -> Sop {
    Sop {
        name: name.into(),
        description: String::new(),
        version: "2.1.0".into(),
        priority: SopPriority::High,
        execution_mode: mode,
        triggers: vec![SopTrigger::Manual, SopTrigger::Schedule("0 * * * *".into())],
        steps: (1..=steps).map(|n| step_def(n, false)).collect(),
        cooldown_secs: 0,
        max_concurrent: 1,
        location: Some("plant".into()),
    }
}

fn event(payload: Option<&str>) -> SopEvent {
    SopEvent {
        source: SopTriggerSource::Channel,
        topic: Some("alerts".into()),
        payload: payload.map(String::from),
        timestamp: "2026-02-19T11:59:59Z".into(),
    }
}

fn result(number: u32, status: SopStepStatus, output: &str) -> SopStepResult {
    SopStepResult {
        step_number: number,
        status,
        output: output.into(),
        started_at: "2026-02-19T12:00:00Z".into(),
        completed_at: Some("2026-02-19T12:00:30Z".into()),
    }
}

fn consistent(engine: &SopEngine) {
    let finished = engine.finished_runs(None);
    for run in engine.active_runs().iter().chain(finished.iter()) {
        let terminal = matches!(
            run.status,
            SopRunStatus::Completed | SopRunStatus::Failed | SopRunStatus::Cancelled
        );
        assert_eq!(run.completed_at.is_some(), terminal);
        assert!(run.step_results.len() <= run.total_steps as usize);
        if run.step_results.len() == run.total_steps as usize {
            assert!(terminal);
        }
    }
    for s in engine.sops() {
        let open = engine.active_runs().iter().filter(|r| r.sop_name == s.name).count();
        assert!(open <= s.max_concurrent as usize);
    }
}

#[test]
fn catalogue_is_checked() {
    assert!(SopEngine::new(vec![]).is_ok());
    assert!(SopEngine::new(vec![sop("a", SopExecutionMode::Auto, 2), sop("b", SopExecutionMode::Auto, 0)]).is_ok());
    let twice = SopEngine::new(vec![
        sop("a", SopExecutionMode::Auto, 1),
        sop("b", SopExecutionMode::Auto, 1),
        sop("a", SopExecutionMode::Supervised, 2),
    ]);
    assert_eq!(twice.err(), Some(SopError::ParamInvalid));
    let mut gap = sop("a", SopExecutionMode::Auto, 3);
    gap.steps[2].number = 4;
    assert_eq!(SopEngine::new(vec![gap]).err(), Some(SopError::ParamInvalid));
    let mut from_zero = sop("a", SopExecutionMode::Auto, 1);
    from_zero.steps[0].number = 0;
    assert_eq!(SopEngine::new(vec![from_zero]).err(), Some(SopError::ParamInvalid));
}

#[test]
fn start_run_registers_a_running_run() {
    let mut engine = SopEngine::new(vec![sop("demo", SopExecutionMode::Auto, 2)]).unwrap();
    let action = engine.start_run_at("demo", event(Some("{\"v\": 1}")), NOON).unwrap();
    assert_eq!(
        action,
        SopRunAction::ExecuteStep {
            run_id: "run-000001".into(),
            step_number: 1,
            context: "SOP: demo v2.1.0\nStep 1/2: Title 1\n\nBody 1\n\nSuggested tools: shell, \
                      http\n\nTrigger payload:\n{\"v\": 1}\n"
                .into(),
        }
    );
    let run = engine.get_run("run-000001").unwrap();
    assert_eq!(run.run_id, "run-000001");
    assert_eq!(run.sop_name, "demo");
    assert_eq!(run.trigger_event, event(Some("{\"v\": 1}")));
    assert_eq!(run.status, SopRunStatus::Running);
    assert_eq!(run.current_step, 1);
    assert_eq!(run.total_steps, 2);
    assert_eq!(run.started_at, "2026-02-19T12:00:00Z");
    assert_eq!(run.completed_at, None);
    assert!(run.step_results.is_empty());
    assert_eq!(run.waiting_since, None);
    assert_eq!(engine.runs_started(), 1);
    assert_eq!(engine.active_runs().len(), 1);
    consistent(&engine);
}

#[test]
fn start_run_waits_where_the_step_is_gated() {
    let mut confirm = sop("confirm", SopExecutionMode::Auto, 2);
    confirm.steps[0].requires_confirmation = true;
    let mut engine =
        SopEngine::new(vec![sop("sup", SopExecutionMode::Supervised, 1), confirm]).unwrap();
    for (name, id) in [("sup", "run-000001"), ("confirm", "run-000002")] {
        match engine.start_run_at(name, event(None), NOON).unwrap() {
            SopRunAction::WaitApproval { run_id, step_number, context } => {
                assert_eq!(run_id, id);
                assert_eq!(step_number, 1);
                assert!(context.starts_with(&format!("SOP: {name} v2.1.0\nStep 1/")));
                assert!(!context.contains("Trigger payload"));
            }
            other => panic!("unexpected action: {other:?}"),
        }
        let run = engine.get_run(id).unwrap();
        assert_eq!(run.status, SopRunStatus::WaitingApproval);
        assert_eq!(run.waiting_since.as_deref(), Some("2026-02-19T12:00:00Z"));
    }
    consistent(&engine);
}

#[test]
fn start_run_gates_in_order() {
    let mut cool = sop("cool", SopExecutionMode::Auto, 1);
    cool.cooldown_secs = 60;
    cool.max_concurrent = 1;
    let mut none = sop("none", SopExecutionMode::Auto, 1);
    none.max_concurrent = 0;
    let mut engine = SopEngine::new(vec![cool, none]).unwrap();
    assert_eq!(engine.start_run_at("absent", event(None), NOON), Err(SopError::UnknownSop));
    assert_eq!(engine.start_run_at("none", event(None), NOON), Err(SopError::ConcurrencyLimit));
    engine.start_run_at("cool", event(None), NOON).unwrap();
    assert_eq!(engine.start_run_at("cool", event(None), NOON), Err(SopError::ConcurrencyLimit));
    engine.advance_step_at("run-000001", result(1, SopStepStatus::Completed, "ok"), NOON + 10).unwrap();
    // Ended at +10: refused until +70, also where the clock stands before the end.
    assert_eq!(engine.start_run_at("cool", event(None), NOON + 10), Err(SopError::CooldownActive));
    assert_eq!(engine.start_run_at("cool", event(None), NOON + 69), Err(SopError::CooldownActive));
    assert_eq!(engine.start_run_at("cool", event(None), NOON), Err(SopError::CooldownActive));
    assert_eq!(engine.runs_started(), 1);
    let again = engine.start_run_at("cool", event(None), NOON + 70).unwrap();
    assert_eq!(again.run_id(), "run-000002");
    // With a run open and the cooldown running, the cooldown is named.
    engine.advance_step_at("run-000002", result(1, SopStepStatus::Failed, "no"), NOON + 80).unwrap();
    engine.start_run_at("cool", event(None), NOON + 140).unwrap();
    engine.advance_step_at("run-000003", result(1, SopStepStatus::Completed, "ok"), NOON + 141).unwrap();
    assert_eq!(engine.start_run_at("cool", event(None), NOON + 150), Err(SopError::CooldownActive));
    consistent(&engine);
}

#[test]
fn a_procedure_without_steps_completes_at_once() {
    let mut engine = SopEngine::new(vec![sop("empty", SopExecutionMode::Supervised, 0)]).unwrap();
    let action = engine.start_run_at("empty", event(None), NOON).unwrap();
    assert_eq!(
        action,
        SopRunAction::Completed { run_id: "run-000001".into(), sop_name: "empty".into() }
    );
    assert!(engine.active_runs().is_empty());
    let run = engine.get_run("run-000001").unwrap();
    assert_eq!(run.status, SopRunStatus::Completed);
    assert_eq!(run.total_steps, 0);
    assert_eq!(run.completed_at.as_deref(), Some("2026-02-19T12:00:00Z"));
    assert_eq!(engine.finished_runs(Some("empty")).len(), 1);
    consistent(&engine);
}

#[test]
fn advance_walks_the_steps() {
    let mut three = sop("three", SopExecutionMode::Auto, 3);
    three.steps[1].requires_confirmation = true;
    let mut engine = SopEngine::new(vec![three]).unwrap();
    engine.start_run_at("three", event(Some("p")), NOON).unwrap();
    let second = engine
        .advance_step_at("run-000001", result(1, SopStepStatus::Completed, "one"), NOON + 1)
        .unwrap();
    assert_eq!(
        second,
        SopRunAction::WaitApproval {
            run_id: "run-000001".into(),
            step_number: 2,
            context: "SOP: three v2.1.0\nStep 2/3: Title 2\n\nBody 2\n\nTrigger payload:\np\n".into(),
        }
    );
    let run = engine.get_run("run-000001").unwrap();
    assert_eq!((run.current_step, run.status), (2, SopRunStatus::WaitingApproval));
    assert_eq!(run.waiting_since.as_deref(), Some("2026-02-19T12:00:01Z"));
    consistent(&engine);
    let approved = engine.approve_step("run-000001").unwrap();
    assert!(matches!(&approved, SopRunAction::ExecuteStep { step_number: 2, context, .. }
        if context.starts_with("SOP: three v2.1.0\nStep 2/3")));
    let run = engine.get_run("run-000001").unwrap();
    assert_eq!((run.current_step, run.status), (2, SopRunStatus::Running));
    assert_eq!(run.waiting_since, None);
    let third = engine
        .advance_step_at("run-000001", result(2, SopStepStatus::Skipped, "two"), NOON + 2)
        .unwrap();
    assert!(matches!(third, SopRunAction::ExecuteStep { step_number: 3, .. }));
    consistent(&engine);
    let done = engine
        .advance_step_at("run-000001", result(3, SopStepStatus::Completed, "three"), NOON + 3)
        .unwrap();
    assert_eq!(
        done,
        SopRunAction::Completed { run_id: "run-000001".into(), sop_name: "three".into() }
    );
    assert!(engine.active_runs().is_empty());
    let run = engine.get_run("run-000001").unwrap();
    assert_eq!(run.status, SopRunStatus::Completed);
    assert_eq!(run.current_step, 3);
    assert_eq!(run.completed_at.as_deref(), Some("2026-02-19T12:00:03Z"));
    let outputs: Vec<&str> = run.step_results.iter().map(|s| s.output.as_str()).collect();
    assert_eq!(outputs, vec!["one", "two", "three"]);
    consistent(&engine);
}

#[test]
fn a_failed_step_ends_the_run() {
    let mut engine = SopEngine::new(vec![sop("three", SopExecutionMode::Auto, 3)]).unwrap();
    engine.start_run_at("three", event(None), NOON).unwrap();
    engine.advance_step_at("run-000001", result(1, SopStepStatus::Completed, "ok"), NOON).unwrap();
    let failed = engine
        .advance_step_at("run-000001", result(2, SopStepStatus::Failed, "Valve stuck"), NOON + 5)
        .unwrap();
    assert_eq!(
        failed,
        SopRunAction::Failed {
            run_id: "run-000001".into(),
            sop_name: "three".into(),
            reason: "Valve stuck".into(),
        }
    );
    let run = engine.get_run("run-000001").unwrap();
    assert_eq!(run.status, SopRunStatus::Failed);
    assert_eq!(run.step_results.len(), 2);
    assert_eq!(run.step_results[1].status, SopStepStatus::Failed);
    assert_eq!(run.completed_at.as_deref(), Some("2026-02-19T12:00:05Z"));
    consistent(&engine);
}

#[test]
fn a_refused_advance_changes_nothing() {
    let mut engine = SopEngine::new(vec![sop("two", SopExecutionMode::Auto, 2)]).unwrap();
    engine.start_run_at("two", event(None), NOON).unwrap();
    let before = engine.get_run("run-000001").unwrap().clone();
    for wrong in [0, 2, 3] {
        assert_eq!(
            engine.advance_step_at("run-000001", result(wrong, SopStepStatus::Completed, "x"), NOON),
            Err(SopError::InvalidTransition)
        );
        assert_eq!(engine.get_run("run-000001").unwrap(), &before);
    }
    assert_eq!(
        engine.advance_step_at("run-000009", result(1, SopStepStatus::Completed, "x"), NOON),
        Err(SopError::UnknownRun)
    );
    assert_eq!(engine.approve_step("run-000009"), Err(SopError::UnknownRun));
    assert_eq!(engine.approve_step("run-000001"), Err(SopError::InvalidTransition));
    assert_eq!(engine.get_run("run-000001").unwrap(), &before);
    engine.advance_step_at("run-000001", result(1, SopStepStatus::Failed, "x"), NOON).unwrap();
    let ended = engine.get_run("run-000001").unwrap().clone();
    assert_eq!(
        engine.advance_step_at("run-000001", result(1, SopStepStatus::Completed, "x"), NOON),
        Err(SopError::InvalidTransition)
    );
    assert_eq!(engine.approve_step("run-000001"), Err(SopError::InvalidTransition));
    assert_eq!(engine.get_run("run-000001").unwrap(), &ended);
    assert_eq!(engine.get_run("run-000002"), None);
}

#[test]
fn the_step_of_a_successful_advance_is_the_current_one() {
    let mut engine = SopEngine::new(vec![sop("four", SopExecutionMode::Auto, 4)]).unwrap();
    engine.start_run_at("four", event(None), NOON).unwrap();
    for given in [3, 1, 1, 2, 4, 3, 4, 4] {
        let current = engine.get_run("run-000001").unwrap().current_step;
        let open = engine.active_runs().len() == 1;
        let answer =
            engine.advance_step_at("run-000001", result(given, SopStepStatus::Completed, "x"), NOON);
        assert_eq!(answer.is_ok(), open && given == current);
        consistent(&engine);
    }
    assert_eq!(engine.get_run("run-000001").unwrap().status, SopRunStatus::Completed);
}

#[test]
fn open_runs_stay_within_the_limit() {
    let mut two = sop("two", SopExecutionMode::Auto, 1);
    two.max_concurrent = 2;
    let mut engine = SopEngine::new(vec![two, sop("one", SopExecutionMode::Auto, 1)]).unwrap();
    let mut started = 0;
    for round in 0..6u64 {
        for name in ["two", "one", "two", "two"] {
            if engine.start_run_at(name, event(None), NOON + round).is_ok() {
                started += 1;
            }
            consistent(&engine);
        }
        if round % 2 == 1 {
            let first = engine.active_runs()[0].run_id.clone();
            engine.advance_step_at(&first, result(1, SopStepStatus::Completed, "x"), NOON + round).unwrap();
        }
    }
    assert_eq!(started, 5);
    assert_eq!(engine.runs_started(), 5);
    assert_eq!(engine.active_runs().len(), 2);
}

#[test]
fn finished_runs_are_kept_up_to_a_cap_per_procedure() {
    let mut engine = SopEngine::new(vec![
        sop("a", SopExecutionMode::Auto, 0),
        sop("b", SopExecutionMode::Auto, 0),
    ])
    .unwrap();
    engine.start_run_at("b", event(None), NOON).unwrap();
    for i in 0..105u64 {
        engine.start_run_at("a", event(None), NOON + i).unwrap();
    }
    let of_a = engine.finished_runs(Some("a"));
    assert_eq!(of_a.len(), 100);
    assert_eq!(of_a[0].run_id, "run-000007");
    assert_eq!(of_a[99].run_id, "run-000106");
    assert_eq!(engine.finished_runs(Some("b")).len(), 1);
    assert_eq!(engine.finished_runs(None).len(), 101);
    assert_eq!(engine.finished_runs(None)[0].run_id, "run-000001");
    assert_eq!(engine.get_run("run-000002"), None);
    assert!(engine.get_run("run-000106").is_some());
}

#[test]
fn run_ids_grow_past_six_digits() {
    assert_eq!(sop_core::engine::render::run_id_string(7), "run-000007");
    assert_eq!(sop_core::engine::render::run_id_string(999_999), "run-999999");
    assert_eq!(sop_core::engine::render::run_id_string(1_000_000), "run-1000000");
    assert_eq!(
        sop_core::engine::render::run_id_string(u64::MAX),
        "run-18446744073709551615"
    );
}

#[test]
fn start_and_advance_at_the_present_second() {
    let mut engine = SopEngine::new(vec![sop("one", SopExecutionMode::Auto, 1)]).unwrap();
    engine.start_run("one", event(None)).unwrap();
    let started = engine.get_run("run-000001").unwrap().started_at.clone();
    assert_eq!(started.len(), 20);
    assert!(started.as_str() >= "2026-01-01T00:00:00Z");
    engine.advance_step("run-000001", result(1, SopStepStatus::Completed, "x")).unwrap();
    let run = engine.get_run("run-000001").unwrap();
    assert!(run.completed_at.as_deref().unwrap() >= started.as_str());
}

#[test]
fn every_error_has_its_sentence() {
    let sentences = [
        (SopError::UnknownSop, "SOP not found in catalogue"),
        (SopError::UnknownRun, "run not found"),
        (SopError::InvalidTransition, "invalid transition for this run"),
        (SopError::CooldownActive, "cooldown active for this SOP"),
        (SopError::ConcurrencyLimit, "concurrency limit reached for this SOP"),
        (SopError::ParamInvalid, "invalid parameter"),
        (SopError::LockPoisoned, "lock poisoned"),
        (SopError::BackendError, "audit backend error"),
    ];
    for (error, sentence) in sentences {
        assert_eq!(error.message(), sentence);
    }
    assert_eq!(SopRunStatus::WaitingApproval.as_str(), "waiting_approval");
    assert_eq!(SopRunStatus::Pending.as_str(), "pending");
    assert_eq!(SopRunStatus::Cancelled.as_str(), "cancelled");
    assert!(SopRunStatus::Cancelled.is_terminal());
    assert!(!SopRunStatus::WaitingApproval.is_terminal());
    assert_eq!(SopStepStatus::parse("skipped"), Some(SopStepStatus::Skipped));
    assert_eq!(SopStepStatus::parse("skipped "), None);
    assert_eq!(SopStepStatus::Failed.as_str(), "failed");
}

#[test]
fn run_ids_are_never_given_twice() {
    let mut many = sop("many", SopExecutionMode::Auto, 1);
    many.max_concurrent = 50;
    let mut engine = SopEngine::new(vec![many, sop("none", SopExecutionMode::Auto, 0)]).unwrap();
    let mut seen = std::collections::BTreeSet::new();
    for i in 0..40u64 {
        let name = if i % 3 == 0 { "none" } else { "many" };
        let action = engine.start_run_at(name, event(None), NOON + i).unwrap();
        assert!(seen.insert(action.run_id().clone()));
        let found = engine.get_run(action.run_id()).unwrap();
        assert_eq!(&found.run_id, action.run_id());
        assert_eq!(found.sop_name, name);
    }
    assert_eq!(seen.len(), 40);
    assert_eq!(seen.iter().next().unwrap(), "run-000001");
    assert_eq!(seen.iter().last().unwrap(), "run-000040");
}
