//! The engine as a state machine over mathematical values: what a state is,
//! when it is well formed, and what each transition makes of it.

use vstd::prelude::*;
use crate::clock::iso8601;
use crate::lookup::{count_key, first_index};
use crate::text::{decimal, zero_padded};
use crate::types::{
    terminal, SopError, SopEventView, SopRunActionView, SopRunStatus, SopRunView, SopStepResultView,
    SopStepStatus, SopStepView, SopView,
};

verus! {

/// How many finished runs of one procedure the engine keeps; the oldest one
/// leaves when one more arrives.
pub const FINISHED_CAP: usize = 100;

/// The state of the engine.
pub struct EngineView {
    /// The catalogue.
    pub sops: Seq<SopView>,
    /// The runs that have not ended, in the order they were started.
    pub active: Seq<SopRunView>,
    /// The runs that have ended, in the order they ended.
    pub finished: Seq<SopRunView>,
    /// For each finished run, the second it ended at.
    pub finished_secs: Seq<u64>,
    /// How many run ids have been given out.
    pub run_counter: u64,
}

/// The names of the procedures of a catalogue, in its order.
pub open spec fn sop_names(sops: Seq<SopView>) -> Seq<Seq<char>> {
    Seq::new(sops.len(), |i: int| sops[i].name)
}

/// The ids of the runs of a list, in its order.
pub open spec fn run_ids(runs: Seq<SopRunView>) -> Seq<Seq<char>> {
    Seq::new(runs.len(), |i: int| runs[i].run_id)
}

/// The procedure names of the runs of a list, in its order.
pub open spec fn run_sops(runs: Seq<SopRunView>) -> Seq<Seq<char>> {
    Seq::new(runs.len(), |i: int| runs[i].sop_name)
}

/// The id of the `n`-th run: `run-` and the number in at least six digits.
pub open spec fn run_id_text(n: nat) -> Seq<char> {
    "run-"@ + zero_padded(n, 6)
}

/// The items of `items`, each two parted by `, `.
pub open spec fn comma_list(items: Seq<Seq<char>>) -> Seq<char>
    decreases items.len(),
{
    if items.len() == 0 {
        Seq::empty()
    } else if items.len() == 1 {
        items[0]
    } else {
        comma_list(items.drop_last()) + ", "@ + items.last()
    }
}

/// The line that names the suggested tools of a step; nothing where it has none.
pub open spec fn tools_block(tools: Seq<Seq<char>>) -> Seq<char> {
    if tools.len() == 0 {
        Seq::empty()
    } else {
        "\nSuggested tools: "@ + comma_list(tools) + "\n"@
    }
}

/// The block that shows the trigger payload, verbatim; nothing where there is none.
pub open spec fn payload_block(payload: Option<Seq<char>>) -> Seq<char> {
    match payload {
        Some(p) => "\nTrigger payload:\n"@ + p + "\n"@,
        None => Seq::empty(),
    }
}

/// The instruction shown for a step: procedure name and version, the step's
/// place among the steps, its title and body, its suggested tools and the
/// trigger payload.
pub open spec fn render_context(
    sop: SopView,
    step: SopStepView,
    payload: Option<Seq<char>>,
) -> Seq<char> {
    "SOP: "@ + sop.name + " v"@ + sop.version + "\nStep "@ + decimal(step.number as nat) + "/"@
        + decimal(sop.steps.len()) + ": "@ + step.title + "\n\n"@ + step.body + "\n"@
        + tools_block(step.suggested_tools) + payload_block(payload)
}

/// The time that has passed at `now` since `then`; none where the clock stands before `then`.
pub open spec fn elapsed(now: u64, then: u64) -> nat {
    if now >= then {
        (now - then) as nat
    } else {
        0
    }
}

/// The run as it has ended at second `now` with the status given.
pub open spec fn ended(run: SopRunView, status: SopRunStatus, now: u64) -> SopRunView {
    SopRunView { status, completed_at: Some(iso8601(now as nat)), waiting_since: None, ..run }
}

/// A run that was started at second `now` and has not gone a step: it runs at
/// step 1.
pub open spec fn fresh_run(
    run_id: Seq<char>,
    sop_name: Seq<char>,
    event: SopEventView,
    total_steps: u32,
    now: u64,
) -> SopRunView {
    SopRunView {
        run_id,
        sop_name,
        trigger_event: event,
        status: SopRunStatus::Running,
        current_step: 1,
        total_steps,
        started_at: iso8601(now as nat),
        completed_at: None,
        step_results: Seq::empty(),
        waiting_since: None,
    }
}

impl EngineView {
    /// The procedure a name stands for.
    pub open spec fn sop_of(self, name: Seq<char>) -> Option<SopView> {
        match first_index(sop_names(self.sops), name) {
            Some(k) => Some(self.sops[k]),
            None => None,
        }
    }

    /// The run an id stands for: an open one first, else a finished one.
    pub open spec fn run_of(self, id: Seq<char>) -> Option<SopRunView> {
        match first_index(run_ids(self.active), id) {
            Some(i) => Some(self.active[i]),
            None => match first_index(run_ids(self.finished), id) {
                Some(i) => Some(self.finished[i]),
                None => None,
            },
        }
    }

    /// How many runs of the procedure are open.
    pub open spec fn open_runs(self, name: Seq<char>) -> nat {
        count_key(run_sops(self.active), name)
    }

    /// Some finished run of the procedure ended less than `cooldown` seconds before `now`.
    pub open spec fn cooling(self, name: Seq<char>, cooldown: u64, now: u64) -> bool {
        exists|i: int|
            0 <= i < self.finished.len() && (#[trigger] self.finished[i]).sop_name == name
                && elapsed(now, self.finished_secs[i]) < cooldown
    }

    /// Is a run of the procedure admitted at second `now`: is the procedure
    /// in the catalogue, has none of its finished runs ended less than its
    /// cooldown ago, and has it fewer open runs than it allows?
    pub open spec fn admits(self, name: Seq<char>, now: u64) -> bool {
        match self.sop_of(name) {
            Some(sop) => !self.cooling(name, sop.cooldown_secs, now) && self.open_runs(name)
                < sop.max_concurrent,
            None => false,
        }
    }

    /// Is there a run id left for a run of the procedure, where one is
    /// admitted at second `now`?
    pub open spec fn has_id_for(self, name: Seq<char>, now: u64) -> bool {
        self.admits(name, now) ==> self.run_counter < u64::MAX
    }

    /// No two procedures share a name, and each numbers its steps 1, 2, ...
    /// in order.
    pub open spec fn catalogue_valid(sops: Seq<SopView>) -> bool {
        &&& crate::lookup::distinct(sop_names(sops))
        &&& forall|k: int| 0 <= k < sops.len() ==> (#[trigger] sops[k]).steps_dense()
    }

    /// What holds of an open run: it has not ended, its procedure is in the
    /// catalogue and has the run's number of steps, its current step is one of
    /// them, the steps before it have a result each, and it waits for approval
    /// only before a step that asks for it.
    pub open spec fn open_run_ok(self, run: SopRunView) -> bool {
        &&& run.status == SopRunStatus::Running || run.status == SopRunStatus::WaitingApproval
        &&& run.completed_at is None
        &&& self.sop_of(run.sop_name) is Some
        &&& run.total_steps == self.sop_of(run.sop_name)->0.steps.len()
        &&& 1 <= run.current_step <= run.total_steps
        &&& run.step_results.len() == run.current_step - 1
        &&& run.status == SopRunStatus::WaitingApproval ==> self.sop_of(run.sop_name)->0.gated(
            run.current_step as int,
        )
    }

    /// What holds of a finished run: its status is terminal, it ended at the
    /// second recorded beside it, and it holds at most one result per step.
    pub open spec fn finished_run_ok(run: SopRunView, secs: u64) -> bool {
        &&& terminal(run.status)
        &&& run.completed_at == Some(iso8601(secs as nat))
        &&& run.step_results.len() <= run.total_steps
    }

    /// The id was given out when no more than `counter` ids had been.
    pub open spec fn issued(id: Seq<char>, counter: u64) -> bool {
        exists|n: nat| 1 <= n <= counter && id == #[trigger] run_id_text(n)
    }

    /// Every run has an id that the engine gave out, and no two runs share one.
    pub open spec fn ids_ok(self) -> bool {
        &&& forall|i: int|
            0 <= i < self.active.len() ==> Self::issued(
                (#[trigger] self.active[i]).run_id,
                self.run_counter,
            )
        &&& forall|i: int|
            0 <= i < self.finished.len() ==> Self::issued(
                (#[trigger] self.finished[i]).run_id,
                self.run_counter,
            )
        &&& crate::lookup::distinct(run_ids(self.active))
        &&& crate::lookup::distinct(run_ids(self.finished))
        &&& forall|i: int, j: int|
            0 <= i < self.active.len() && 0 <= j < self.finished.len() ==> (
            #[trigger] self.active[i]).run_id != (#[trigger] self.finished[j]).run_id
    }

    /// The state is well formed: the ids are in order, and so are the runs.
    pub open spec fn wf(self) -> bool {
        self.ids_ok() && self.runs_ok()
    }

    /// The catalogue is valid, every open and every finished run is in order,
    /// and no procedure has more open runs than it allows.
    pub open spec fn runs_ok(self) -> bool {
        &&& Self::catalogue_valid(self.sops)
        &&& self.finished.len() == self.finished_secs.len()
        &&& forall|i: int|
            0 <= i < self.active.len() ==> self.open_run_ok(#[trigger] self.active[i])
        &&& forall|i: int|
            0 <= i < self.finished.len() ==> Self::finished_run_ok(
                #[trigger] self.finished[i],
                self.finished_secs[i],
            )
        &&& forall|k: int|
            0 <= k < self.sops.len() ==> self.open_runs((#[trigger] self.sops[k]).name)
                <= self.sops[k].max_concurrent
    }

    /// The state with `run` added to the finished runs as ended at `now`; where
    /// its procedure then has more than `FINISHED_CAP` finished runs, the oldest
    /// of them leaves.
    pub open spec fn retire(self, run: SopRunView, now: u64) -> EngineView {
        let finished = self.finished.push(run);
        let secs = self.finished_secs.push(now);
        if count_key(run_sops(finished), run.sop_name) > FINISHED_CAP {
            let oldest = first_index(run_sops(finished), run.sop_name)->0;
            EngineView {
                finished: finished.remove(oldest),
                finished_secs: secs.remove(oldest),
                ..self
            }
        } else {
            EngineView { finished, finished_secs: secs, ..self }
        }
    }

    /// What `start_run` makes of the state at second `now`, and what it answers.
    pub open spec fn start(self, name: Seq<char>, event: SopEventView, now: u64) -> (
        EngineView,
        Result<SopRunActionView, SopError>,
    ) {
        match self.sop_of(name) {
            None => (self, Err(SopError::UnknownSop)),
            Some(sop) => {
                if self.cooling(name, sop.cooldown_secs, now) {
                    (self, Err(SopError::CooldownActive))
                } else if self.open_runs(name) >= sop.max_concurrent {
                    (self, Err(SopError::ConcurrencyLimit))
                } else {
                    let counter = (self.run_counter + 1) as u64;
                    let run_id = run_id_text(counter as nat);
                    let run = fresh_run(run_id, name, event, sop.steps.len() as u32, now);
                    let counted = EngineView { run_counter: counter, ..self };
                    if sop.steps.len() == 0 {
                        (
                            counted.retire(ended(run, SopRunStatus::Completed, now), now),
                            Ok(SopRunActionView::Completed { run_id, sop_name: name }),
                        )
                    } else {
                        let context = render_context(sop, sop.steps[0], event.payload);
                        if sop.gated(1) {
                            let waiting = SopRunView {
                                status: SopRunStatus::WaitingApproval,
                                waiting_since: Some(iso8601(now as nat)),
                                ..run
                            };
                            (
                                EngineView { active: self.active.push(waiting), ..counted },
                                Ok(
                                    SopRunActionView::WaitApproval {
                                        run_id,
                                        step_number: 1,
                                        context,
                                    },
                                ),
                            )
                        } else {
                            (
                                EngineView { active: self.active.push(run), ..counted },
                                Ok(
                                    SopRunActionView::ExecuteStep {
                                        run_id,
                                        step_number: 1,
                                        context,
                                    },
                                ),
                            )
                        }
                    }
                }
            },
        }
    }

    /// What `advance_step` makes of the state at second `now`, and what it answers.
    pub open spec fn advance(self, id: Seq<char>, result: SopStepResultView, now: u64) -> (
        EngineView,
        Result<SopRunActionView, SopError>,
    ) {
        match first_index(run_ids(self.active), id) {
            None => if first_index(run_ids(self.finished), id) is Some {
                (self, Err(SopError::InvalidTransition))
            } else {
                (self, Err(SopError::UnknownRun))
            },
            Some(i) => {
                let run = self.active[i];
                let sop = self.sop_of(run.sop_name)->0;
                if result.step_number != run.current_step {
                    (self, Err(SopError::InvalidTransition))
                } else {
                    let recorded = SopRunView {
                        step_results: run.step_results.push(result),
                        ..run
                    };
                    let without = EngineView { active: self.active.remove(i), ..self };
                    if result.status == SopStepStatus::Failed {
                        (
                            without.retire(ended(recorded, SopRunStatus::Failed, now), now),
                            Ok(
                                SopRunActionView::Failed {
                                    run_id: run.run_id,
                                    sop_name: run.sop_name,
                                    reason: result.output,
                                },
                            ),
                        )
                    } else if run.current_step < run.total_steps {
                        let next = (run.current_step + 1) as u32;
                        let context = render_context(
                            sop,
                            sop.steps[next - 1],
                            run.trigger_event.payload,
                        );
                        if sop.gated(next as int) {
                            let waiting = SopRunView {
                                current_step: next,
                                status: SopRunStatus::WaitingApproval,
                                waiting_since: Some(iso8601(now as nat)),
                                ..recorded
                            };
                            (
                                EngineView { active: self.active.update(i, waiting), ..self },
                                Ok(
                                    SopRunActionView::WaitApproval {
                                        run_id: run.run_id,
                                        step_number: next,
                                        context,
                                    },
                                ),
                            )
                        } else {
                            let running = SopRunView {
                                current_step: next,
                                status: SopRunStatus::Running,
                                waiting_since: None,
                                ..recorded
                            };
                            (
                                EngineView { active: self.active.update(i, running), ..self },
                                Ok(
                                    SopRunActionView::ExecuteStep {
                                        run_id: run.run_id,
                                        step_number: next,
                                        context,
                                    },
                                ),
                            )
                        }
                    } else {
                        (
                            without.retire(ended(recorded, SopRunStatus::Completed, now), now),
                            Ok(
                                SopRunActionView::Completed {
                                    run_id: run.run_id,
                                    sop_name: run.sop_name,
                                },
                            ),
                        )
                    }
                }
            },
        }
    }

    /// What `approve_step` makes of the state, and what it answers.
    pub open spec fn approve(self, id: Seq<char>) -> (
        EngineView,
        Result<SopRunActionView, SopError>,
    ) {
        match first_index(run_ids(self.active), id) {
            None => if first_index(run_ids(self.finished), id) is Some {
                (self, Err(SopError::InvalidTransition))
            } else {
                (self, Err(SopError::UnknownRun))
            },
            Some(i) => {
                let run = self.active[i];
                let sop = self.sop_of(run.sop_name)->0;
                if run.status != SopRunStatus::WaitingApproval {
                    (self, Err(SopError::InvalidTransition))
                } else {
                    let running = SopRunView {
                        status: SopRunStatus::Running,
                        waiting_since: None,
                        ..run
                    };
                    (
                        EngineView { active: self.active.update(i, running), ..self },
                        Ok(
                            SopRunActionView::ExecuteStep {
                                run_id: run.run_id,
                                step_number: run.current_step,
                                context: render_context(
                                    sop,
                                    sop.steps[run.current_step - 1],
                                    run.trigger_event.payload,
                                ),
                            },
                        ),
                    )
                }
            },
        }
    }
}

/// The runs of `runs` that belong to the procedure `name`, or all of them
/// where no name is given, in their order.
pub open spec fn runs_of(runs: Seq<SopRunView>, name: Option<Seq<char>>) -> Seq<SopRunView>
    decreases runs.len(),
{
    if runs.len() == 0 {
        Seq::empty()
    } else if name is None || runs.last().sop_name == name->0 {
        runs_of(runs.drop_last(), name).push(runs.last())
    } else {
        runs_of(runs.drop_last(), name)
    }
}

} // verus!
