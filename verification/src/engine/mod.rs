//! The engine: the catalogue of procedures, the registry of runs and the
//! transitions that start, advance and approve them.

pub mod model;
pub mod proofs;
pub mod render;

use vstd::prelude::*;
use vstd::string::*;
use crate::clock::{format_iso8601, unix_now_secs};
use crate::lookup::{
    count_key, first_index, lemma_count_take, lemma_first_index_is, lemma_first_index_none,
};
use crate::types::{
    Sop, SopError, SopEvent, SopExecutionMode, SopRun, SopRunAction, SopRunActionView, SopRunStatus,
    SopStepResult, SopStepStatus,
};
use model::{run_ids, run_sops, sop_names, EngineView, FINISHED_CAP};
use render::{render, run_id_string};

verus! {

/// The engine. It alone changes runs.
pub struct SopEngine {
    sops: Vec<Sop>,
    active: Vec<SopRun>,
    finished: Vec<SopRun>,
    finished_secs: Vec<u64>,
    run_counter: u64,
}

impl View for SopEngine {
    type V = EngineView;

    closed spec fn view(&self) -> EngineView {
        EngineView {
            sops: self.sops.deep_view(),
            active: self.active.deep_view(),
            finished: self.finished.deep_view(),
            finished_secs: self.finished_secs@,
            run_counter: self.run_counter,
        }
    }
}

/// An answer of the engine as a mathematical value.
pub open spec fn answer_view(answer: Result<SopRunAction, SopError>) -> Result<
    SopRunActionView,
    SopError,
> {
    match answer {
        Ok(action) => Ok(action@),
        Err(e) => Err(e),
    }
}

/// The place of the procedure called `name` in `sops`.
fn find_sop(sops: &Vec<Sop>, name: &str) -> (r: Option<usize>)
    ensures
        r is Some == first_index(sop_names(sops.deep_view()), name@) is Some,
        r is Some ==> r->0 == first_index(sop_names(sops.deep_view()), name@)->0,
        r is Some ==> r->0 < sops.len(),
{
    let ghost keys = sop_names(sops.deep_view());
    let mut i: usize = 0;
    while i < sops.len()
        invariant
            i <= sops.len(),
            keys == sop_names(sops.deep_view()),
            forall|j: int| 0 <= j < i ==> keys[j] != name@,
        decreases sops.len() - i,
    {
        if *sops[i].name.as_str() == *name {
            proof {
                lemma_first_index_is(keys, name@, i as int);
            }
            return Some(i);
        }
        i += 1;
    }
    proof {
        lemma_first_index_none(keys, name@);
    }
    None
}

/// The place of the run with id `id` in `runs`.
fn find_run(runs: &Vec<SopRun>, id: &str) -> (r: Option<usize>)
    ensures
        r is Some == first_index(run_ids(runs.deep_view()), id@) is Some,
        r is Some ==> r->0 == first_index(run_ids(runs.deep_view()), id@)->0,
        r is Some ==> r->0 < runs.len(),
{
    let ghost keys = run_ids(runs.deep_view());
    let mut i: usize = 0;
    while i < runs.len()
        invariant
            i <= runs.len(),
            keys == run_ids(runs.deep_view()),
            forall|j: int| 0 <= j < i ==> keys[j] != id@,
        decreases runs.len() - i,
    {
        if *runs[i].run_id.as_str() == *id {
            proof {
                lemma_first_index_is(keys, id@, i as int);
            }
            return Some(i);
        }
        i += 1;
    }
    proof {
        lemma_first_index_none(keys, id@);
    }
    None
}

/// The place of the first run of the procedure `name` in `runs`.
fn find_run_of(runs: &Vec<SopRun>, name: &str) -> (r: Option<usize>)
    ensures
        r is Some == first_index(run_sops(runs.deep_view()), name@) is Some,
        r is Some ==> r->0 == first_index(run_sops(runs.deep_view()), name@)->0,
        r is Some ==> r->0 < runs.len(),
{
    let ghost keys = run_sops(runs.deep_view());
    let mut i: usize = 0;
    while i < runs.len()
        invariant
            i <= runs.len(),
            keys == run_sops(runs.deep_view()),
            forall|j: int| 0 <= j < i ==> keys[j] != name@,
        decreases runs.len() - i,
    {
        if *runs[i].sop_name.as_str() == *name {
            proof {
                lemma_first_index_is(keys, name@, i as int);
            }
            return Some(i);
        }
        i += 1;
    }
    proof {
        lemma_first_index_none(keys, name@);
    }
    None
}

/// How many runs of the procedure `name` stand in `runs`.
fn count_runs_of(runs: &Vec<SopRun>, name: &str) -> (r: usize)
    ensures
        r == count_key(run_sops(runs.deep_view()), name@),
{
    let ghost keys = run_sops(runs.deep_view());
    let mut count: usize = 0;
    let mut i: usize = 0;
    while i < runs.len()
        invariant
            i <= runs.len(),
            keys == run_sops(runs.deep_view()),
            count == count_key(keys.take(i as int), name@),
            count <= i,
        decreases runs.len() - i,
    {
        proof {
            lemma_count_take(keys, i as int, name@);
        }
        if *runs[i].sop_name.as_str() == *name {
            count += 1;
        }
        i += 1;
    }
    assert(keys.take(runs.len() as int) =~= keys);
    count
}

/// Do the steps of `sop` carry the numbers 1, 2, ... in order, and do they fit
/// the step counter of a run?
fn steps_are_dense(sop: &Sop) -> (r: bool)
    ensures
        r == sop@.steps_dense(),
{
    if sop.steps.len() > u32::MAX as usize {
        return false;
    }
    let mut i: usize = 0;
    while i < sop.steps.len()
        invariant
            i <= sop.steps.len(),
            sop.steps.len() <= u32::MAX,
            forall|j: int| 0 <= j < i ==> (#[trigger] sop@.steps[j]).number == j + 1,
        decreases sop.steps.len() - i,
    {
        assert(sop@.steps[i as int] == sop.steps[i as int]@);
        if sop.steps[i].number as usize != i + 1 {
            return false;
        }
        i += 1;
    }
    true
}

/// Is the name of the procedure at `k` used by none before it?
fn name_is_new(sops: &Vec<Sop>, k: usize) -> (r: bool)
    requires
        k < sops.len(),
    ensures
        r == forall|j: int| 0 <= j < k ==> sop_names(sops.deep_view())[j] != sop_names(
            sops.deep_view(),
        )[k as int],
{
    let ghost keys = sop_names(sops.deep_view());
    let mut j: usize = 0;
    while j < k
        invariant
            j <= k < sops.len(),
            keys == sop_names(sops.deep_view()),
            forall|l: int| 0 <= l < j ==> keys[l] != keys[k as int],
        decreases k - j,
    {
        if *sops[j].name.as_str() == *sops[k].name.as_str() {
            assert(keys[j as int] == keys[k as int]);
            return false;
        }
        j += 1;
    }
    true
}

/// Copies of the runs of `runs` that belong to the procedure `name`, or of all
/// of them where no name is given, in their order.
pub fn select_runs(runs: &Vec<SopRun>, name: Option<&str>) -> (r: Vec<SopRun>)
    ensures
        r.deep_view() == model::runs_of(runs.deep_view(), name.deep_view()),
{
    let ghost all = runs.deep_view();
    let ghost wanted = name.deep_view();
    let mut out: Vec<SopRun> = Vec::new();
    let mut i: usize = 0;
    assert(out.deep_view() =~= model::runs_of(all.take(0), wanted));
    while i < runs.len()
        invariant
            i <= runs.len(),
            all == runs.deep_view(),
            wanted == name.deep_view(),
            out.deep_view() == model::runs_of(all.take(i as int), wanted),
        decreases runs.len() - i,
    {
        let ghost before = out.deep_view();
        let keep = match name {
            None => true,
            Some(n) => *runs[i].sop_name.as_str() == *n,
        };
        proof {
            assert(all.take(i + 1).drop_last() =~= all.take(i as int));
            assert(all.take(i + 1).last() == runs[i as int]@);
        }
        if keep {
            out.push(runs[i].clone());
            assert(out.deep_view() =~= before.push(runs[i as int]@));
        }
        i += 1;
    }
    assert(all.take(runs.len() as int) =~= all);
    out
}

impl SopEngine {
    /// An engine over the catalogue `sops`, with no runs. A catalogue in which
    /// two procedures share a name, or one does not number its steps 1, 2, ...
    /// in order, is refused as an invalid parameter.
    pub fn new(sops: Vec<Sop>) -> (r: Result<SopEngine, SopError>)
        ensures
            r is Ok == EngineView::catalogue_valid(sops.deep_view()),
            r is Err ==> r->Err_0 == SopError::ParamInvalid,
            r is Ok ==> r->Ok_0@ == (EngineView {
                sops: sops.deep_view(),
                active: Seq::empty(),
                finished: Seq::empty(),
                finished_secs: Seq::empty(),
                run_counter: 0,
            }),
            r is Ok ==> r->Ok_0@.wf(),
    {
        let ghost all = sops.deep_view();
        let ghost keys = sop_names(all);
        let mut k: usize = 0;
        while k < sops.len()
            invariant
                k <= sops.len(),
                all == sops.deep_view(),
                keys == sop_names(all),
                forall|i: int, j: int| 0 <= i < j < k ==> keys[i] != keys[j],
                forall|i: int| 0 <= i < k ==> (#[trigger] all[i]).steps_dense(),
            decreases sops.len() - k,
        {
            assert(all[k as int] == sops[k as int]@);
            if !steps_are_dense(&sops[k]) || !name_is_new(&sops, k) {
                return Err(SopError::ParamInvalid);
            }
            k += 1;
        }
        let engine = SopEngine {
            sops,
            active: Vec::new(),
            finished: Vec::new(),
            finished_secs: Vec::new(),
            run_counter: 0,
        };
        proof {
            assert(engine@.active =~= Seq::empty());
            assert(engine@.finished =~= Seq::empty());
            assert(count_key(run_sops(engine@.active), Seq::empty()) == 0);
            assert forall|k: int| 0 <= k < engine@.sops.len() implies engine@.open_runs(
                (#[trigger] engine@.sops[k]).name,
            ) <= engine@.sops[k].max_concurrent by {
                assert(run_sops(engine@.active) =~= Seq::empty());
            }
        }
        Ok(engine)
    }

    /// The state is well formed.
    pub open spec fn wf(&self) -> bool {
        self@.wf()
    }

    /// How many run ids the engine has given out.
    pub fn runs_started(&self) -> (r: u64)
        ensures
            r == self@.run_counter,
    {
        self.run_counter
    }

    /// Did a finished run of the procedure end less than `cooldown` seconds before `now`?
    fn cooling(&self, name: &str, cooldown: u64, now: u64) -> (r: bool)
        requires
            self.finished.len() == self.finished_secs.len(),
        ensures
            r == self@.cooling(name@, cooldown, now),
    {
        let mut i: usize = 0;
        while i < self.finished.len()
            invariant
                i <= self.finished.len(),
                self.finished.len() == self.finished_secs.len(),
                forall|j: int|
                    0 <= j < i ==> !((#[trigger] self@.finished[j]).sop_name == name@
                        && model::elapsed(now, self@.finished_secs[j]) < cooldown),
            decreases self.finished.len() - i,
        {
            assert(self@.finished[i as int] == self.finished[i as int]@);
            let then = self.finished_secs[i];
            let passed = if now >= then {
                now - then
            } else {
                0
            };
            if *self.finished[i].sop_name.as_str() == *name && passed < cooldown {
                return true;
            }
            i += 1;
        }
        false
    }

    /// Moves a run that has ended to the finished runs, and lets the oldest
    /// finished run of its procedure go where there are more than the cap.
    fn retire(&mut self, run: SopRun, now: u64)
        requires
            old(self).finished.len() == old(self).finished_secs.len(),
        ensures
            final(self)@ == old(self)@.retire(run@, now),
    {
        let name = run.sop_name.clone();
        self.finished.push(run);
        self.finished_secs.push(now);
        let ghost pushed = old(self)@.finished.push(run@);
        assert(self.finished.deep_view() =~= pushed);
        if count_runs_of(&self.finished, name.as_str()) > FINISHED_CAP {
            match find_run_of(&self.finished, name.as_str()) {
                Some(oldest) => {
                    self.finished.remove(oldest);
                    self.finished_secs.remove(oldest);
                    assert(self.finished.deep_view() =~= pushed.remove(oldest as int));
                },
                None => {
                    proof {
                        crate::lookup::lemma_count_bounds(run_sops(pushed), name@);
                    }
                },
            }
        }
    }

    /// Starts a run of the procedure `sop_name` at second `now`.
    ///
    /// The name must be in the catalogue. The run is refused while a finished
    /// run of the procedure ended less than its cooldown ago, and while the
    /// procedure has as many open runs as it allows. A procedure without steps
    /// completes at once. Otherwise the run is registered at step 1, waiting
    /// for approval where the procedure is supervised or the step asks for
    /// confirmation, running where not.
    pub fn start_run_at(&mut self, sop_name: &str, event: SopEvent, now: u64) -> (r: Result<
        SopRunAction,
        SopError,
    >)
        requires
            old(self)@.wf(),
            old(self)@.has_id_for(sop_name@, now),
        ensures
            (final(self)@, answer_view(r)) == old(self)@.start(sop_name@, event@, now),
            final(self)@.wf(),
    {
        proof {
            proofs::lemma_start_wf(self@, sop_name@, event@, now);
        }
        let k = match find_sop(&self.sops, sop_name) {
            None => {
                return Err(SopError::UnknownSop);
            },
            Some(k) => k,
        };
        assert(self@.sops[k as int] == self.sops[k as int]@);
        if self.cooling(sop_name, self.sops[k].cooldown_secs, now) {
            return Err(SopError::CooldownActive);
        }
        if count_runs_of(&self.active, sop_name) >= self.sops[k].max_concurrent as usize {
            return Err(SopError::ConcurrencyLimit);
        }
        let counter: u64 = self.run_counter + 1;
        let run_id = run_id_string(counter);
        let total = self.sops[k].steps.len();
        let stamp = format_iso8601(now);
        self.run_counter = counter;
        if total == 0 {
            let run = SopRun {
                run_id: run_id.clone(),
                sop_name: sop_name.to_owned(),
                trigger_event: event,
                status: SopRunStatus::Completed,
                current_step: 1,
                total_steps: 0,
                started_at: stamp.clone(),
                completed_at: Some(stamp),
                step_results: Vec::new(),
                waiting_since: None,
            };
            assert(run@.step_results =~= Seq::empty());
            self.retire(run, now);
            return Ok(SopRunAction::Completed { run_id, sop_name: sop_name.to_owned() });
        }
        assert(self.sops[k as int]@.steps[0] == self.sops[k as int].steps[0]@);
        let context = render(&self.sops[k], 0, &event.payload);
        let gated = match self.sops[k].execution_mode {
            SopExecutionMode::Supervised => true,
            SopExecutionMode::Auto => self.sops[k].steps[0].requires_confirmation,
        };
        let run = SopRun {
            run_id: run_id.clone(),
            sop_name: sop_name.to_owned(),
            trigger_event: event,
            status: if gated {
                SopRunStatus::WaitingApproval
            } else {
                SopRunStatus::Running
            },
            current_step: 1,
            total_steps: total as u32,
            started_at: stamp.clone(),
            completed_at: None,
            step_results: Vec::new(),
            waiting_since: if gated {
                Some(stamp)
            } else {
                None
            },
        };
        assert(run@.step_results =~= Seq::empty());
        self.active.push(run);
        assert(self.active.deep_view() =~= old(self)@.active.push(run@));
        if gated {
            Ok(SopRunAction::WaitApproval { run_id, step_number: 1, context })
        } else {
            Ok(SopRunAction::ExecuteStep { run_id, step_number: 1, context })
        }
    }

    /// Records the result of the current step of a run at second `now` and
    /// moves the run on.
    ///
    /// The run must be open, and the result must carry the number of its
    /// current step; else nothing changes. A failed step ends the run as
    /// failed, with the step's output as the reason. A completed or skipped
    /// step moves the run to the next step, waiting for approval where that
    /// step is gated, or ends it as completed after the last step.
    pub fn advance_step_at(&mut self, run_id: &str, step_result: SopStepResult, now: u64) -> (r:
        Result<SopRunAction, SopError>)
        requires
            old(self)@.wf(),
        ensures
            (final(self)@, answer_view(r)) == old(self)@.advance(run_id@, step_result@, now),
            final(self)@.wf(),
            r is Ok ==> old(self)@.run_of(run_id@) is Some && step_result.step_number == old(
                self,
            )@.run_of(run_id@)->0.current_step,
            r is Err ==> final(self)@ == old(self)@,
    {
        proof {
            proofs::lemma_advance_wf(self@, run_id@, step_result@, now);
        }
        let i = match find_run(&self.active, run_id) {
            None => {
                return if find_run(&self.finished, run_id).is_some() {
                    Err(SopError::InvalidTransition)
                } else {
                    Err(SopError::UnknownRun)
                };
            },
            Some(i) => i,
        };
        assert(self@.active[i as int] == self.active[i as int]@);
        assert(self@.open_run_ok(self@.active[i as int]));
        let current = self.active[i].current_step;
        if step_result.step_number != current {
            return Err(SopError::InvalidTransition);
        }
        let k = match find_sop(&self.sops, self.active[i].sop_name.as_str()) {
            Some(k) => k,
            None => {
                return Err(SopError::InvalidTransition);
            },
        };
        assert(self@.sops[k as int] == self.sops[k as int]@);
        let total = self.active[i].total_steps;
        let failed = match step_result.status {
            SopStepStatus::Failed => true,
            _ => false,
        };
        if failed || current >= total {
            let mut run = self.active.remove(i);
            assert(self.active.deep_view() =~= old(self)@.active.remove(i as int));
            let reason = step_result.output.clone();
            let ghost results = run@.step_results;
            run.step_results.push(step_result);
            assert(run.step_results.deep_view() =~= results.push(step_result@));
            run.status = if failed {
                SopRunStatus::Failed
            } else {
                SopRunStatus::Completed
            };
            run.completed_at = Some(format_iso8601(now));
            run.waiting_since = None;
            let id = run.run_id.clone();
            let sop_name = run.sop_name.clone();
            self.retire(run, now);
            return if failed {
                Ok(SopRunAction::Failed { run_id: id, sop_name, reason })
            } else {
                Ok(SopRunAction::Completed { run_id: id, sop_name })
            };
        }
        let next: u32 = current + 1;
        let index: usize = current as usize;
        assert(self.sops[k as int]@.steps[index as int] == self.sops[k as int].steps[index as int]@);
        let context = render(&self.sops[k], index, &self.active[i].trigger_event.payload);
        let gated = match self.sops[k].execution_mode {
            SopExecutionMode::Supervised => true,
            SopExecutionMode::Auto => self.sops[k].steps[index].requires_confirmation,
        };
        let id = self.active[i].run_id.clone();
        let mut run = self.active.remove(i);
        let ghost results = run@.step_results;
        run.step_results.push(step_result);
        assert(run.step_results.deep_view() =~= results.push(step_result@));
        run.current_step = next;
        if gated {
            run.status = SopRunStatus::WaitingApproval;
            run.waiting_since = Some(format_iso8601(now));
        } else {
            run.status = SopRunStatus::Running;
            run.waiting_since = None;
        }
        let ghost moved = run@;
        self.active.insert(i, run);
        assert(self.active.deep_view() =~= old(self)@.active.update(i as int, moved));
        if gated {
            Ok(SopRunAction::WaitApproval { run_id: id, step_number: next, context })
        } else {
            Ok(SopRunAction::ExecuteStep { run_id: id, step_number: next, context })
        }
    }

    /// Records the result of the current step of a run at the present second,
    /// as `advance_step_at` does at a given one.
    pub fn advance_step(&mut self, run_id: &str, step_result: SopStepResult) -> (r: Result<
        SopRunAction,
        SopError,
    >)
        requires
            old(self)@.wf(),
        ensures
            exists|now: u64|
                (final(self)@, answer_view(r)) == old(self)@.advance(run_id@, step_result@, now),
            final(self)@.wf(),
            r is Ok ==> old(self)@.run_of(run_id@) is Some && step_result.step_number == old(
                self,
            )@.run_of(run_id@)->0.current_step,
            r is Err ==> final(self)@ == old(self)@,
    {
        let now = unix_now_secs();
        self.advance_step_at(run_id, step_result, now)
    }

    /// Approves the step a run waits at: the run goes on running, and the
    /// answer is the instruction of that step. A run that is not waiting for
    /// approval is left as it is.
    pub fn approve_step(&mut self, run_id: &str) -> (r: Result<SopRunAction, SopError>)
        requires
            old(self)@.wf(),
        ensures
            (final(self)@, answer_view(r)) == old(self)@.approve(run_id@),
            final(self)@.wf(),
            r is Err ==> final(self)@ == old(self)@,
    {
        proof {
            proofs::lemma_approve_wf(self@, run_id@);
        }
        let i = match find_run(&self.active, run_id) {
            None => {
                return if find_run(&self.finished, run_id).is_some() {
                    Err(SopError::InvalidTransition)
                } else {
                    Err(SopError::UnknownRun)
                };
            },
            Some(i) => i,
        };
        assert(self@.active[i as int] == self.active[i as int]@);
        assert(self@.open_run_ok(self@.active[i as int]));
        match self.active[i].status {
            SopRunStatus::WaitingApproval => {},
            _ => {
                return Err(SopError::InvalidTransition);
            },
        }
        let k = match find_sop(&self.sops, self.active[i].sop_name.as_str()) {
            Some(k) => k,
            None => {
                return Err(SopError::InvalidTransition);
            },
        };
        assert(self@.sops[k as int] == self.sops[k as int]@);
        let current = self.active[i].current_step;
        let index: usize = (current - 1) as usize;
        assert(self.sops[k as int]@.steps[index as int] == self.sops[k as int].steps[index as int]@);
        let context = render(&self.sops[k], index, &self.active[i].trigger_event.payload);
        let id = self.active[i].run_id.clone();
        let mut run = self.active.remove(i);
        run.status = SopRunStatus::Running;
        run.waiting_since = None;
        let ghost moved = run@;
        self.active.insert(i, run);
        assert(self.active.deep_view() =~= old(self)@.active.update(i as int, moved));
        Ok(SopRunAction::ExecuteStep { run_id: id, step_number: current, context })
    }

    /// The run with the given id: an open one first, else a finished one.
    pub fn get_run(&self, run_id: &str) -> (r: Option<&SopRun>)
        ensures
            r.deep_view() == self@.run_of(run_id@),
    {
        match find_run(&self.active, run_id) {
            Some(i) => {
                assert(self@.active[i as int] == self.active[i as int]@);
                Some(&self.active[i])
            },
            None => match find_run(&self.finished, run_id) {
                Some(i) => {
                    assert(self@.finished[i as int] == self.finished[i as int]@);
                    Some(&self.finished[i])
                },
                None => None,
            },
        }
    }

    /// The open runs, in the order they were started.
    pub fn active_runs(&self) -> (r: &Vec<SopRun>)
        ensures
            r.deep_view() == self@.active,
    {
        &self.active
    }

    /// The finished runs of the procedure `sop_name`, or all finished runs
    /// where no name is given, in the order they ended.
    pub fn finished_runs(&self, sop_name: Option<&str>) -> (r: Vec<SopRun>)
        ensures
            r.deep_view() == model::runs_of(self@.finished, sop_name.deep_view()),
    {
        select_runs(&self.finished, sop_name)
    }

    /// The catalogue.
    pub fn sops(&self) -> (r: &Vec<Sop>)
        ensures
            r.deep_view() == self@.sops,
    {
        &self.sops
    }

    /// Starts a run of the procedure `sop_name` at the present second, as
    /// `start_run_at` does at a given one.
    pub fn start_run(&mut self, sop_name: &str, event: SopEvent) -> (r: Result<
        SopRunAction,
        SopError,
    >)
        requires
            old(self)@.wf(),
            forall|now: u64| old(self)@.has_id_for(sop_name@, now),
        ensures
            exists|now: u64|
                (final(self)@, answer_view(r)) == old(self)@.start(sop_name@, event@, now),
            final(self)@.wf(),
    {
        let now = unix_now_secs();
        self.start_run_at(sop_name, event, now)
    }
}

} // verus!
