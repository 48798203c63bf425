//! What the transitions of the engine keep: every state they reach is well
//! formed. And what follows of that: for every run, for the ids, for the
//! number of open runs and for what the answers say.

use vstd::prelude::*;
use crate::clock::iso8601;
use crate::engine::model::{
    ended, fresh_run, render_context, run_id_text, run_ids, run_sops, sop_names, tools_block,
    EngineView, FINISHED_CAP,
};
use crate::lookup::{
    count_key, first_index, lemma_count_bounds, lemma_count_push, lemma_count_remove,
    lemma_first_index,
};
use crate::text::{decimal, lemma_occurs_in_middle, lemma_zero_padded_value, occurs_in, zero_padded};
use crate::types::{
    terminal, SopError, SopEventView, SopRunActionView, SopRunStatus, SopRunView,
    SopStepResultView, SopStepStatus, SopStepView, SopView,
};

verus! {

/// A state with the same catalogue and the same open runs keeps what holds
/// of the open runs.
proof fn lemma_open_runs_kept(before: EngineView, after: EngineView)
    requires
        before.runs_ok(),
        after.sops == before.sops,
        after.active == before.active,
    ensures
        forall|i: int| 0 <= i < after.active.len() ==> after.open_run_ok(#[trigger] after.active[i]),
        forall|k: int|
            0 <= k < after.sops.len() ==> after.open_runs((#[trigger] after.sops[k]).name)
                <= after.sops[k].max_concurrent,
{
    assert forall|i: int| 0 <= i < after.active.len() implies after.open_run_ok(
        #[trigger] after.active[i],
    ) by {
        assert(before.open_run_ok(before.active[i]));
    }
}

/// Retiring a run that has ended keeps the runs in order.
proof fn lemma_retire_runs(state: EngineView, run: SopRunView, now: u64)
    requires
        state.runs_ok(),
        EngineView::finished_run_ok(run, now),
    ensures
        state.retire(run, now).runs_ok(),
        state.retire(run, now).sops == state.sops,
        state.retire(run, now).active == state.active,
        state.retire(run, now).run_counter == state.run_counter,
{
    let after = state.retire(run, now);
    let finished = state.finished.push(run);
    let secs = state.finished_secs.push(now);
    lemma_open_runs_kept(state, after);
    if count_key(run_sops(finished), run.sop_name) > FINISHED_CAP {
        lemma_count_bounds(run_sops(finished), run.sop_name);
        lemma_first_index(run_sops(finished), run.sop_name);
        let oldest = first_index(run_sops(finished), run.sop_name)->0;
        assert forall|i: int| 0 <= i < after.finished.len() implies EngineView::finished_run_ok(
            #[trigger] after.finished[i],
            after.finished_secs[i],
        ) by {
            let j = if i < oldest {
                i
            } else {
                i + 1
            };
            assert(after.finished[i] == finished[j]);
            assert(after.finished_secs[i] == secs[j]);
            if j < state.finished.len() {
                assert(EngineView::finished_run_ok(state.finished[j], state.finished_secs[j]));
            }
        }
    } else {
        assert forall|i: int| 0 <= i < after.finished.len() implies EngineView::finished_run_ok(
            #[trigger] after.finished[i],
            after.finished_secs[i],
        ) by {
            if i < state.finished.len() {
                assert(EngineView::finished_run_ok(state.finished[i], state.finished_secs[i]));
            }
        }
    }
}

/// Taking an open run out keeps the runs in order.
proof fn lemma_remove_open(state: EngineView, i: int)
    requires
        state.runs_ok(),
        0 <= i < state.active.len(),
    ensures
        (EngineView { active: state.active.remove(i), ..state }).runs_ok(),
{
    let after = EngineView { active: state.active.remove(i), ..state };
    assert forall|j: int| 0 <= j < after.active.len() implies after.open_run_ok(
        #[trigger] after.active[j],
    ) by {
        let from = if j < i {
            j
        } else {
            j + 1
        };
        assert(after.active[j] == state.active[from]);
        assert(state.open_run_ok(state.active[from]));
    }
    assert(run_sops(after.active) =~= run_sops(state.active).remove(i));
    assert forall|k: int| 0 <= k < after.sops.len() implies after.open_runs(
        (#[trigger] after.sops[k]).name,
    ) <= after.sops[k].max_concurrent by {
        lemma_count_remove(run_sops(state.active), i, state.sops[k].name);
        assert(state.open_runs(state.sops[k].name) <= state.sops[k].max_concurrent);
    }
}

/// Putting another run of the same procedure in the place of an open run
/// keeps the runs in order, where the new run is.
proof fn lemma_update_open(state: EngineView, i: int, run: SopRunView)
    requires
        state.runs_ok(),
        0 <= i < state.active.len(),
        run.sop_name == state.active[i].sop_name,
        state.open_run_ok(run),
    ensures
        (EngineView { active: state.active.update(i, run), ..state }).runs_ok(),
{
    let after = EngineView { active: state.active.update(i, run), ..state };
    assert forall|j: int| 0 <= j < after.active.len() implies after.open_run_ok(
        #[trigger] after.active[j],
    ) by {
        if j != i {
            assert(after.active[j] == state.active[j]);
            assert(state.open_run_ok(state.active[j]));
        }
    }
    assert(run_sops(after.active) =~= run_sops(state.active));
    assert forall|k: int| 0 <= k < after.sops.len() implies after.open_runs(
        (#[trigger] after.sops[k]).name,
    ) <= after.sops[k].max_concurrent by {
        assert(state.open_runs(state.sops[k].name) <= state.sops[k].max_concurrent);
    }
}

/// Starting a run keeps the runs in order.
proof fn lemma_start_runs(state: EngineView, name: Seq<char>, event: SopEventView, now: u64)
    requires
        state.runs_ok(),
    ensures
        state.start(name, event, now).0.runs_ok(),
{
    let after = state.start(name, event, now).0;
    let names = sop_names(state.sops);
    lemma_first_index(names, name);
    match state.sop_of(name) {
        None => {},
        Some(sop) => {
            let k0 = first_index(names, name)->0;
            assert(sop == state.sops[k0]);
            assert(sop.steps_dense());
            if state.cooling(name, sop.cooldown_secs, now) {
            } else if state.open_runs(name) >= sop.max_concurrent {
            } else {
                let counted = EngineView { run_counter: (state.run_counter + 1) as u64, ..state };
                lemma_open_runs_kept(state, counted);
                assert(counted.runs_ok());
                let fresh = fresh_run(
                    run_id_text(counted.run_counter as nat),
                    name,
                    event,
                    sop.steps.len() as u32,
                    now,
                );
                if sop.steps.len() == 0 {
                    lemma_retire_runs(counted, ended(fresh, SopRunStatus::Completed, now), now);
                } else {
                    let run = after.active.last();
                    assert(after.active =~= state.active.push(run));
                    assert(after.sop_of(name) == Some(sop));
                    assert(after.open_run_ok(run));
                    assert forall|i: int| 0 <= i < after.active.len() implies after.open_run_ok(
                        #[trigger] after.active[i],
                    ) by {
                        if i < state.active.len() {
                            assert(after.active[i] == state.active[i]);
                            assert(state.open_run_ok(state.active[i]));
                        }
                    }
                    assert(run_sops(after.active) =~= run_sops(state.active).push(name));
                    assert forall|k: int| 0 <= k < after.sops.len() implies after.open_runs(
                        (#[trigger] after.sops[k]).name,
                    ) <= after.sops[k].max_concurrent by {
                        lemma_count_push(run_sops(state.active), name, state.sops[k].name);
                        assert(state.open_runs(state.sops[k].name) <= state.sops[k].max_concurrent);
                        if state.sops[k].name == name {
                            assert(names[k] == name);
                            assert(names[k0] == name);
                            assert(k == k0);
                        }
                    }
                }
            }
        },
    }
}

/// Advancing a run keeps the runs in order.
proof fn lemma_advance_runs(
    state: EngineView,
    id: Seq<char>,
    result: SopStepResultView,
    now: u64,
)
    requires
        state.runs_ok(),
    ensures
        state.advance(id, result, now).0.runs_ok(),
{
    lemma_first_index(run_ids(state.active), id);
    match first_index(run_ids(state.active), id) {
        None => {},
        Some(i) => {
            let run = state.active[i];
            assert(state.open_run_ok(run));
            let sop = state.sop_of(run.sop_name)->0;
            if result.step_number != run.current_step {
            } else {
                let recorded = SopRunView { step_results: run.step_results.push(result), ..run };
                let without = EngineView { active: state.active.remove(i), ..state };
                lemma_remove_open(state, i);
                if result.status == SopStepStatus::Failed {
                    lemma_retire_runs(without, ended(recorded, SopRunStatus::Failed, now), now);
                } else if run.current_step < run.total_steps {
                    let next = (run.current_step + 1) as u32;
                    if sop.gated(next as int) {
                        let waiting = SopRunView {
                            current_step: next,
                            status: SopRunStatus::WaitingApproval,
                            waiting_since: Some(iso8601(now as nat)),
                            ..recorded
                        };
                        lemma_update_open(state, i, waiting);
                    } else {
                        let running = SopRunView {
                            current_step: next,
                            status: SopRunStatus::Running,
                            waiting_since: None,
                            ..recorded
                        };
                        lemma_update_open(state, i, running);
                    }
                } else {
                    lemma_retire_runs(without, ended(recorded, SopRunStatus::Completed, now), now);
                }
            }
        },
    }
}

/// Approving a step keeps the runs in order.
proof fn lemma_approve_runs(state: EngineView, id: Seq<char>)
    requires
        state.runs_ok(),
    ensures
        state.approve(id).0.runs_ok(),
{
    lemma_first_index(run_ids(state.active), id);
    match first_index(run_ids(state.active), id) {
        None => {},
        Some(i) => {
            let run = state.active[i];
            assert(state.open_run_ok(run));
            if run.status == SopRunStatus::WaitingApproval {
                let running = SopRunView {
                    status: SopRunStatus::Running,
                    waiting_since: None,
                    ..run
                };
                lemma_update_open(state, i, running);
            }
        },
    }
}

/// Two run ids that are written alike have the same number.
pub proof fn lemma_run_id_injective(a: nat, b: nat)
    requires
        run_id_text(a) == run_id_text(b),
    ensures
        a == b,
{
    let prefix = "run-"@;
    assert((prefix + zero_padded(a, 6)).skip(prefix.len() as int) =~= zero_padded(a, 6));
    assert((prefix + zero_padded(b, 6)).skip(prefix.len() as int) =~= zero_padded(b, 6));
    lemma_zero_padded_value(a, 6);
    lemma_zero_padded_value(b, 6);
}

/// Is `id` the id of no run of the state?
spec fn unused(state: EngineView, id: Seq<char>) -> bool {
    &&& forall|i: int| 0 <= i < state.active.len() ==> (#[trigger] state.active[i]).run_id != id
    &&& forall|i: int| 0 <= i < state.finished.len() ==> (#[trigger] state.finished[i]).run_id != id
}

/// The next id is the id of no run.
proof fn lemma_next_id_unused(state: EngineView)
    requires
        state.ids_ok(),
        state.run_counter < u64::MAX,
    ensures
        unused(state, run_id_text((state.run_counter + 1) as nat)),
        (EngineView { run_counter: (state.run_counter + 1) as u64, ..state }).ids_ok(),
        EngineView::issued(
            run_id_text((state.run_counter + 1) as nat),
            (state.run_counter + 1) as u64,
        ),
{
    let next = (state.run_counter + 1) as nat;
    let counted = EngineView { run_counter: (state.run_counter + 1) as u64, ..state };
    assert forall|i: int| 0 <= i < state.active.len() implies (#[trigger] state.active[i]).run_id
        != run_id_text(next) && EngineView::issued(state.active[i].run_id, counted.run_counter) by {
        let id = state.active[i].run_id;
        assert(EngineView::issued(id, state.run_counter));
        let n = choose|n: nat| 1 <= n <= state.run_counter && id == #[trigger] run_id_text(n);
        if id == run_id_text(next) {
            lemma_run_id_injective(n, next);
        }
    }
    assert forall|i: int| 0 <= i < state.finished.len() implies (
    #[trigger] state.finished[i]).run_id != run_id_text(next) && EngineView::issued(
        state.finished[i].run_id,
        counted.run_counter,
    ) by {
        let id = state.finished[i].run_id;
        assert(EngineView::issued(id, state.run_counter));
        let n = choose|n: nat| 1 <= n <= state.run_counter && id == #[trigger] run_id_text(n);
        if id == run_id_text(next) {
            lemma_run_id_injective(n, next);
        }
    }
    assert(run_id_text(next) == run_id_text(next));
}

/// An open run with an id that was given out and that no run has keeps the
/// ids in order when it is added.
proof fn lemma_ids_open(state: EngineView, run: SopRunView)
    requires
        state.ids_ok(),
        unused(state, run.run_id),
        EngineView::issued(run.run_id, state.run_counter),
    ensures
        (EngineView { active: state.active.push(run), ..state }).ids_ok(),
{
    let after = EngineView { active: state.active.push(run), ..state };
    assert forall|i: int| 0 <= i < after.active.len() implies EngineView::issued(
        (#[trigger] after.active[i]).run_id,
        after.run_counter,
    ) by {
        if i < state.active.len() {
            assert(after.active[i] == state.active[i]);
        }
    }
    assert forall|i: int, j: int| 0 <= i < j < run_ids(after.active).len() implies run_ids(
        after.active,
    )[i] != run_ids(after.active)[j] by {
        assert(run_ids(after.active)[i] == run_ids(state.active)[i]);
        if j < state.active.len() {
            assert(run_ids(after.active)[j] == run_ids(state.active)[j]);
        } else {
            assert(state.active[i].run_id != run.run_id);
        }
    }
    assert forall|i: int, j: int|
        0 <= i < after.active.len() && 0 <= j < after.finished.len() implies (
    #[trigger] after.active[i]).run_id != (#[trigger] after.finished[j]).run_id by {
        if i < state.active.len() {
            assert(after.active[i] == state.active[i]);
        }
    }
}

/// Taking an open run out keeps the ids in order, and its id is then the id
/// of no run.
proof fn lemma_ids_remove(state: EngineView, i: int)
    requires
        state.ids_ok(),
        0 <= i < state.active.len(),
    ensures
        (EngineView { active: state.active.remove(i), ..state }).ids_ok(),
        unused(EngineView { active: state.active.remove(i), ..state }, state.active[i].run_id),
{
    let after = EngineView { active: state.active.remove(i), ..state };
    let ids = run_ids(state.active);
    assert forall|j: int| 0 <= j < after.active.len() implies (#[trigger] after.active[j])
        == state.active[if j < i {
        j
    } else {
        j + 1
    }] by {}
    assert forall|j: int| 0 <= j < after.active.len() implies EngineView::issued(
        (#[trigger] after.active[j]).run_id,
        after.run_counter,
    ) && after.active[j].run_id != state.active[i].run_id by {
        let from = if j < i {
            j
        } else {
            j + 1
        };
        assert(after.active[j] == state.active[from]);
        assert(ids[from] != ids[i]);
    }
    assert forall|a: int, b: int| 0 <= a < b < run_ids(after.active).len() implies run_ids(
        after.active,
    )[a] != run_ids(after.active)[b] by {
        let fa = if a < i {
            a
        } else {
            a + 1
        };
        let fb = if b < i {
            b
        } else {
            b + 1
        };
        assert(run_ids(after.active)[a] == ids[fa]);
        assert(run_ids(after.active)[b] == ids[fb]);
    }
    assert forall|a: int, j: int|
        0 <= a < after.active.len() && 0 <= j < after.finished.len() implies (
    #[trigger] after.active[a]).run_id != (#[trigger] after.finished[j]).run_id by {
        let fa = if a < i {
            a
        } else {
            a + 1
        };
        assert(after.active[a] == state.active[fa]);
    }
    assert forall|j: int| 0 <= j < after.finished.len() implies (
    #[trigger] after.finished[j]).run_id != state.active[i].run_id by {
        assert(state.active[i].run_id != state.finished[j].run_id);
    }
}

/// Putting a run in the place of an open run of the same id keeps the ids in order.
proof fn lemma_ids_update(state: EngineView, i: int, run: SopRunView)
    requires
        state.ids_ok(),
        0 <= i < state.active.len(),
        run.run_id == state.active[i].run_id,
    ensures
        (EngineView { active: state.active.update(i, run), ..state }).ids_ok(),
{
    let after = EngineView { active: state.active.update(i, run), ..state };
    assert(run_ids(after.active) =~= run_ids(state.active));
    assert forall|j: int| 0 <= j < after.active.len() implies (#[trigger] after.active[j]).run_id
        == state.active[j].run_id by {}
    assert forall|j: int| 0 <= j < after.active.len() implies EngineView::issued(
        (#[trigger] after.active[j]).run_id,
        after.run_counter,
    ) by {
        assert(EngineView::issued(state.active[j].run_id, state.run_counter));
    }
    assert forall|a: int, j: int|
        0 <= a < after.active.len() && 0 <= j < after.finished.len() implies (
    #[trigger] after.active[a]).run_id != (#[trigger] after.finished[j]).run_id by {
        assert(state.active[a].run_id != state.finished[j].run_id);
    }
}

/// Retiring a run with an id that was given out and that no run has keeps
/// the ids in order.
proof fn lemma_ids_retire(state: EngineView, run: SopRunView, now: u64)
    requires
        state.ids_ok(),
        state.finished.len() == state.finished_secs.len(),
        unused(state, run.run_id),
        EngineView::issued(run.run_id, state.run_counter),
    ensures
        state.retire(run, now).ids_ok(),
{
    let after = state.retire(run, now);
    let pushed = state.finished.push(run);
    assert forall|a: int, b: int| 0 <= a < b < pushed.len() implies pushed[a].run_id
        != pushed[b].run_id by {
        assert(run_ids(state.finished)[a] == state.finished[a].run_id);
        if b < state.finished.len() {
            assert(run_ids(state.finished)[b] == state.finished[b].run_id);
            assert(run_ids(state.finished)[a] != run_ids(state.finished)[b]);
        }
    }
    let removed = count_key(run_sops(pushed), run.sop_name) > FINISHED_CAP;
    let oldest = first_index(run_sops(pushed), run.sop_name)->0;
    if removed {
        lemma_count_bounds(run_sops(pushed), run.sop_name);
        lemma_first_index(run_sops(pushed), run.sop_name);
    }
    assert forall|j: int| 0 <= j < after.finished.len() implies exists|k: int|
        0 <= k < pushed.len() && pushed[k] == #[trigger] after.finished[j] && (removed ==> k == if j
            < oldest {
            j
        } else {
            j + 1
        }) && (!removed ==> k == j) by {
        if removed {
            let k = if j < oldest {
                j
            } else {
                j + 1
            };
            assert(pushed[k] == after.finished[j]);
        } else {
            assert(pushed[j] == after.finished[j]);
        }
    }
    assert forall|j: int| 0 <= j < after.finished.len() implies EngineView::issued(
        (#[trigger] after.finished[j]).run_id,
        after.run_counter,
    ) by {
        let k = choose|k: int| 0 <= k < pushed.len() && pushed[k] == after.finished[j];
        if k < state.finished.len() {
            assert(pushed[k] == state.finished[k]);
        }
    }
    assert forall|a: int, b: int| 0 <= a < b < run_ids(after.finished).len() implies run_ids(
        after.finished,
    )[a] != run_ids(after.finished)[b] by {
        let ka = if removed && a >= oldest {
            a + 1
        } else {
            a
        };
        let kb = if removed && b >= oldest {
            b + 1
        } else {
            b
        };
        assert(after.finished[a] == pushed[ka]);
        assert(after.finished[b] == pushed[kb]);
        assert(pushed[ka].run_id != pushed[kb].run_id);
    }
    assert forall|i: int, j: int|
        0 <= i < after.active.len() && 0 <= j < after.finished.len() implies (
    #[trigger] after.active[i]).run_id != (#[trigger] after.finished[j]).run_id by {
        let k = if removed && j >= oldest {
            j + 1
        } else {
            j
        };
        assert(after.finished[j] == pushed[k]);
        if k < state.finished.len() {
            assert(pushed[k] == state.finished[k]);
        }
    }
}

/// Starting a run keeps the state well formed.
pub proof fn lemma_start_wf(state: EngineView, name: Seq<char>, event: SopEventView, now: u64)
    requires
        state.wf(),
        state.has_id_for(name, now),
    ensures
        state.start(name, event, now).0.wf(),
{
    lemma_start_runs(state, name, event, now);
    match state.sop_of(name) {
        None => {},
        Some(sop) => {
            if state.cooling(name, sop.cooldown_secs, now) {
            } else if state.open_runs(name) >= sop.max_concurrent {
            } else {
                lemma_next_id_unused(state);
                let counted = EngineView { run_counter: (state.run_counter + 1) as u64, ..state };
                if sop.steps.len() == 0 {
                    let fresh = fresh_run(
                        run_id_text((state.run_counter + 1) as nat),
                        name,
                        event,
                        0,
                        now,
                    );
                    lemma_ids_retire(counted, ended(fresh, SopRunStatus::Completed, now), now);
                } else {
                    let run = state.start(name, event, now).0.active.last();
                    lemma_ids_open(counted, run);
                }
            }
        },
    }
}

/// Advancing a run keeps the state well formed.
pub proof fn lemma_advance_wf(
    state: EngineView,
    id: Seq<char>,
    result: SopStepResultView,
    now: u64,
)
    requires
        state.wf(),
    ensures
        state.advance(id, result, now).0.wf(),
{
    lemma_advance_runs(state, id, result, now);
    lemma_first_index(run_ids(state.active), id);
    match first_index(run_ids(state.active), id) {
        None => {},
        Some(i) => {
            let run = state.active[i];
            if result.step_number == run.current_step {
                let recorded = SopRunView { step_results: run.step_results.push(result), ..run };
                let without = EngineView { active: state.active.remove(i), ..state };
                lemma_ids_remove(state, i);
                if result.status == SopStepStatus::Failed {
                    lemma_ids_retire(without, ended(recorded, SopRunStatus::Failed, now), now);
                } else if run.current_step < run.total_steps {
                    lemma_ids_update(state, i, state.advance(id, result, now).0.active[i]);
                } else {
                    lemma_ids_retire(without, ended(recorded, SopRunStatus::Completed, now), now);
                }
            }
        },
    }
}

/// Approving a step keeps the state well formed.
pub proof fn lemma_approve_wf(state: EngineView, id: Seq<char>)
    requires
        state.wf(),
    ensures
        state.approve(id).0.wf(),
{
    lemma_approve_runs(state, id);
    lemma_first_index(run_ids(state.active), id);
    match first_index(run_ids(state.active), id) {
        None => {},
        Some(i) => {
            if state.active[i].status == SopRunStatus::WaitingApproval {
                lemma_ids_update(state, i, state.approve(id).0.active[i]);
            }
        },
    }
}

/// Every run is found by its id, and by no other.
pub proof fn lemma_run_lookup(state: EngineView)
    requires
        state.wf(),
    ensures
        forall|i: int|
            0 <= i < state.active.len() ==> state.run_of((#[trigger] state.active[i]).run_id)
                == Some(state.active[i]),
        forall|i: int|
            0 <= i < state.finished.len() ==> state.run_of((#[trigger] state.finished[i]).run_id)
                == Some(state.finished[i]),
        forall|id: Seq<char>|
            state.run_of(id) is Some ==> (#[trigger] state.run_of(id))->0.run_id == id,
{
    assert forall|i: int| 0 <= i < state.active.len() implies state.run_of(
        (#[trigger] state.active[i]).run_id,
    ) == Some(state.active[i]) by {
        let ids = run_ids(state.active);
        lemma_first_index(ids, state.active[i].run_id);
        let k = first_index(ids, state.active[i].run_id)->0;
        assert(ids[i] == state.active[i].run_id);
        if k != i {
            assert(ids[k] == ids[i]);
        }
    }
    assert forall|i: int| 0 <= i < state.finished.len() implies state.run_of(
        (#[trigger] state.finished[i]).run_id,
    ) == Some(state.finished[i]) by {
        let id = state.finished[i].run_id;
        let ids = run_ids(state.finished);
        lemma_first_index(run_ids(state.active), id);
        lemma_first_index(ids, id);
        match first_index(run_ids(state.active), id) {
            Some(a) => {
                assert(state.active[a].run_id != state.finished[i].run_id);
            },
            None => {
                let k = first_index(ids, id)->0;
                assert(ids[i] == id);
                if k != i {
                    assert(ids[k] == ids[i]);
                }
            },
        }
    }
    assert forall|id: Seq<char>| state.run_of(id) is Some implies (#[trigger] state.run_of(
        id,
    ))->0.run_id == id by {
        lemma_first_index(run_ids(state.active), id);
        lemma_first_index(run_ids(state.finished), id);
    }
}

/// A run that is retired is the last of the finished runs: where the oldest
/// finished run of its procedure leaves, that is another one.
pub proof fn lemma_retire_keeps(state: EngineView, run: SopRunView, now: u64)
    ensures
        state.retire(run, now).finished.len() > 0,
        state.retire(run, now).finished.last() == run,
{
    let pushed = state.finished.push(run);
    let keys = run_sops(pushed);
    if count_key(keys, run.sop_name) > FINISHED_CAP {
        lemma_count_push(run_sops(state.finished), run.sop_name, run.sop_name);
        assert(keys =~= run_sops(state.finished).push(run.sop_name));
        lemma_count_bounds(run_sops(state.finished), run.sop_name);
        lemma_first_index(run_sops(state.finished), run.sop_name);
        lemma_first_index(keys, run.sop_name);
        let earlier = first_index(run_sops(state.finished), run.sop_name)->0;
        let oldest = first_index(keys, run.sop_name)->0;
        assert(keys[earlier] == run.sop_name);
        assert(oldest <= earlier);
        assert(pushed.remove(oldest).last() == run);
    }
}

/// A run that was started is registered under the id that the answer names.
pub proof fn lemma_started_run_is_registered(
    state: EngineView,
    name: Seq<char>,
    event: SopEventView,
    now: u64,
)
    requires
        state.wf(),
        state.run_counter < u64::MAX,
        state.start(name, event, now).1 is Ok,
    ensures
        ({
            let after = state.start(name, event, now).0;
            let id = state.start(name, event, now).1->Ok_0.run_id();
            &&& id == run_id_text((state.run_counter + 1) as nat)
            &&& after.run_of(id) is Some
            &&& after.run_of(id)->0.run_id == id
            &&& after.run_of(id)->0.sop_name == name
            &&& after.run_of(id)->0.trigger_event == event
            &&& after.run_of(id)->0.started_at == iso8601(now as nat)
        }),
{
    let after = state.start(name, event, now).0;
    lemma_start_wf(state, name, event, now);
    lemma_run_lookup(after);
    let sop = state.sop_of(name)->0;
    if sop.steps.len() == 0 {
        let counted = EngineView { run_counter: (state.run_counter + 1) as u64, ..state };
        let fresh = fresh_run(run_id_text((state.run_counter + 1) as nat), name, event, 0, now);
        let run = ended(fresh, SopRunStatus::Completed, now);
        lemma_retire_keeps(counted, run, now);
        assert(after.finished[after.finished.len() - 1] == run);
    } else {
        let run = after.active[after.active.len() - 1];
        assert(run.run_id == run_id_text((state.run_counter + 1) as nat));
    }
}

/// A run that was advanced is still found under its id, with the result
/// recorded as its last.
pub proof fn lemma_advanced_run_is_registered(
    state: EngineView,
    id: Seq<char>,
    result: SopStepResultView,
    now: u64,
)
    requires
        state.wf(),
        state.advance(id, result, now).1 is Ok,
    ensures
        ({
            let after = state.advance(id, result, now).0;
            &&& state.run_of(id) is Some
            &&& after.run_of(id) is Some
            &&& after.run_of(id)->0.step_results == state.run_of(id)->0.step_results.push(result)
            &&& state.advance(id, result, now).1->Ok_0.run_id() == id
            &&& state.advance(id, result, now).1->Ok_0.ends_run() == terminal(
                after.run_of(id)->0.status,
            )
        }),
{
    let after = state.advance(id, result, now).0;
    lemma_advance_wf(state, id, result, now);
    lemma_run_lookup(after);
    lemma_first_index(run_ids(state.active), id);
    let i = first_index(run_ids(state.active), id)->0;
    let run = state.active[i];
    assert(state.open_run_ok(run));
    let recorded = SopRunView { step_results: run.step_results.push(result), ..run };
    let without = EngineView { active: state.active.remove(i), ..state };
    if result.status == SopStepStatus::Failed {
        lemma_retire_keeps(without, ended(recorded, SopRunStatus::Failed, now), now);
        assert(after.finished[after.finished.len() - 1].run_id == id);
    } else if run.current_step < run.total_steps {
        assert(after.active[i].run_id == id);
    } else {
        lemma_retire_keeps(without, ended(recorded, SopRunStatus::Completed, now), now);
        assert(after.finished[after.finished.len() - 1].run_id == id);
    }
}

/// A run whose step was approved is still found under its id, running at the
/// step that the answer names.
pub proof fn lemma_approved_run_is_registered(state: EngineView, id: Seq<char>)
    requires
        state.wf(),
        state.approve(id).1 is Ok,
    ensures
        ({
            let after = state.approve(id).0;
            &&& after.run_of(id) is Some
            &&& after.run_of(id)->0.status == SopRunStatus::Running
            &&& state.approve(id).1->Ok_0 is ExecuteStep
            &&& state.approve(id).1->Ok_0->ExecuteStep_step_number == after.run_of(
                id,
            )->0.current_step
        }),
{
    let after = state.approve(id).0;
    lemma_approve_wf(state, id);
    lemma_run_lookup(after);
    lemma_first_index(run_ids(state.active), id);
    let i = first_index(run_ids(state.active), id)->0;
    assert(after.active[i].run_id == id);
}

/// Is every finished run of `after` a finished run of `before`, unless its
/// id is the id of no finished run of `before`, and is no open run of
/// `after` known to `before` as finished?
spec fn finished_from(before: EngineView, after: EngineView) -> bool {
    &&& forall|k: int|
        0 <= k < after.finished.len() ==> (exists|j: int|
            0 <= j < before.finished.len() && before.finished[j] == #[trigger] after.finished[k])
            || forall|j: int|
            0 <= j < before.finished.len() ==> (#[trigger] before.finished[j]).run_id
                != after.finished[k].run_id
    &&& forall|i: int, j: int|
        0 <= i < after.active.len() && 0 <= j < before.finished.len() ==> (
        #[trigger] after.active[i]).run_id != (#[trigger] before.finished[j]).run_id
}

/// Where the finished runs of one state come from those of another, each
/// finished run of the other is found in the one as it was, or not at all.
proof fn lemma_finished_stay(before: EngineView, after: EngineView)
    requires
        before.wf(),
        after.wf(),
        finished_from(before, after),
    ensures
        forall|j: int|
            0 <= j < before.finished.len() ==> after.run_of(
                (#[trigger] before.finished[j]).run_id,
            ) is None || after.run_of(before.finished[j].run_id) == Some(before.finished[j]),
{
    assert forall|j: int| 0 <= j < before.finished.len() implies after.run_of(
        (#[trigger] before.finished[j]).run_id,
    ) is None || after.run_of(before.finished[j].run_id) == Some(before.finished[j]) by {
        let id = before.finished[j].run_id;
        lemma_first_index(run_ids(after.active), id);
        lemma_first_index(run_ids(after.finished), id);
        match first_index(run_ids(after.active), id) {
            Some(i) => {
                assert(after.active[i].run_id == before.finished[j].run_id);
            },
            None => {
                match first_index(run_ids(after.finished), id) {
                    Some(k) => {
                        assert(after.finished[k].run_id == id);
                        let from = choose|from: int|
                            0 <= from < before.finished.len() && before.finished[from]
                                == after.finished[k];
                        assert(run_ids(before.finished)[from] == run_ids(before.finished)[j]);
                    },
                    None => {},
                }
            },
        }
    }
}

/// The finished runs after a run was retired are finished runs of before,
/// or the run that was retired.
proof fn lemma_retire_members(state: EngineView, run: SopRunView, now: u64)
    ensures
        forall|k: int|
            0 <= k < state.retire(run, now).finished.len() ==> (exists|j: int|
                0 <= j < state.finished.len() && state.finished[j]
                    == #[trigger] state.retire(run, now).finished[k]) || state.retire(
                run,
                now,
            ).finished[k] == run,
{
    let after = state.retire(run, now);
    let pushed = state.finished.push(run);
    let removed = count_key(run_sops(pushed), run.sop_name) > FINISHED_CAP;
    let oldest = first_index(run_sops(pushed), run.sop_name)->0;
    if removed {
        lemma_count_bounds(run_sops(pushed), run.sop_name);
        lemma_first_index(run_sops(pushed), run.sop_name);
    }
    assert forall|k: int| 0 <= k < after.finished.len() implies (exists|j: int|
        0 <= j < state.finished.len() && state.finished[j] == #[trigger] after.finished[k])
        || after.finished[k] == run by {
        let from = if removed && k >= oldest {
            k + 1
        } else {
            k
        };
        assert(after.finished[k] == pushed[from]);
        if from < state.finished.len() {
            assert(state.finished[from] == after.finished[k]);
        }
    }
}

/// What has ended stays as it is. After a run was started, advanced or
/// approved, every run that was finished before is found under its id as it
/// was, unless it has left the finished runs.
pub proof fn lemma_finished_runs_never_change(
    state: EngineView,
    name: Seq<char>,
    event: SopEventView,
    id: Seq<char>,
    result: SopStepResultView,
    now: u64,
)
    requires
        state.wf(),
        state.run_counter < u64::MAX,
    ensures
        forall|j: int|
            0 <= j < state.finished.len() ==> ({
                let was = #[trigger] state.finished[j];
                let started = state.start(name, event, now).0;
                let advanced = state.advance(id, result, now).0;
                let approved = state.approve(id).0;
                &&& started.run_of(was.run_id) is None || started.run_of(was.run_id) == Some(was)
                &&& advanced.run_of(was.run_id) is None || advanced.run_of(was.run_id) == Some(
                    was,
                )
                &&& approved.run_of(was.run_id) == Some(was)
            }),
{
    let started = state.start(name, event, now).0;
    let advanced = state.advance(id, result, now).0;
    let approved = state.approve(id).0;
    lemma_start_wf(state, name, event, now);
    lemma_advance_wf(state, id, result, now);
    lemma_approve_wf(state, id);
    lemma_run_lookup(state);
    lemma_first_index(run_ids(state.active), id);
    // Starting a run.
    assert(finished_from(state, started)) by {
        match state.sop_of(name) {
            None => {},
            Some(sop) => {
                if !state.cooling(name, sop.cooldown_secs, now) && state.open_runs(name)
                    < sop.max_concurrent {
                    lemma_next_id_unused(state);
                    let counted = EngineView {
                        run_counter: (state.run_counter + 1) as u64,
                        ..state
                    };
                    let fresh = fresh_run(
                        run_id_text((state.run_counter + 1) as nat),
                        name,
                        event,
                        sop.steps.len() as u32,
                        now,
                    );
                    if sop.steps.len() == 0 {
                        lemma_retire_members(
                            counted,
                            ended(fresh, SopRunStatus::Completed, now),
                            now,
                        );
                    } else {
                        assert forall|i: int, j: int|
                            0 <= i < started.active.len() && 0 <= j
                                < state.finished.len() implies (#[trigger] started.active[i]).run_id
                            != (#[trigger] state.finished[j]).run_id by {
                            if i < state.active.len() {
                                assert(started.active[i] == state.active[i]);
                            }
                        }
                    }
                }
            },
        }
    }
    lemma_finished_stay(state, started);
    // Advancing a run.
    assert(finished_from(state, advanced)) by {
        match first_index(run_ids(state.active), id) {
            None => {},
            Some(i) => {
                let run = state.active[i];
                if result.step_number == run.current_step {
                    let recorded = SopRunView {
                        step_results: run.step_results.push(result),
                        ..run
                    };
                    let without = EngineView { active: state.active.remove(i), ..state };
                    lemma_ids_remove(state, i);
                    if result.status == SopStepStatus::Failed {
                        lemma_retire_members(
                            without,
                            ended(recorded, SopRunStatus::Failed, now),
                            now,
                        );
                    } else if run.current_step < run.total_steps {
                        assert forall|a: int, j: int|
                            0 <= a < advanced.active.len() && 0 <= j
                                < state.finished.len() implies (#[trigger] advanced.active[a]).run_id
                            != (#[trigger] state.finished[j]).run_id by {
                            assert(advanced.active[a].run_id == state.active[a].run_id);
                        }
                    } else {
                        lemma_retire_members(
                            without,
                            ended(recorded, SopRunStatus::Completed, now),
                            now,
                        );
                    }
                }
            },
        }
    }
    lemma_finished_stay(state, advanced);
    // Approving a step.
    assert(finished_from(state, approved)) by {
        assert(approved.finished == state.finished);
        assert forall|a: int, j: int|
            0 <= a < approved.active.len() && 0 <= j < state.finished.len() implies (
        #[trigger] approved.active[a]).run_id != (#[trigger] state.finished[j]).run_id by {
            assert(approved.active[a].run_id == state.active[a].run_id);
        }
    }
    lemma_finished_stay(state, approved);
    lemma_run_lookup(approved);
    assert forall|j: int| 0 <= j < state.finished.len() implies approved.run_of(
        (#[trigger] state.finished[j]).run_id,
    ) == Some(state.finished[j]) by {
        assert(approved.finished[j] == state.finished[j]);
    }
}

/// A run that is not admitted is refused and changes nothing: an unknown
/// procedure first, then a cooldown that has not passed, then the limit of
/// open runs.
pub proof fn lemma_start_refuses(state: EngineView, name: Seq<char>, event: SopEventView, now: u64)
    ensures
        state.admits(name, now) <==> state.start(name, event, now).1 is Ok,
        !state.admits(name, now) ==> state.start(name, event, now) == (
            state,
            Err::<SopRunActionView, SopError>(
                match state.sop_of(name) {
                    None => SopError::UnknownSop,
                    Some(sop) => if state.cooling(name, sop.cooldown_secs, now) {
                        SopError::CooldownActive
                    } else {
                        SopError::ConcurrencyLimit
                    },
                },
            ),
        ),
{
}

/// However many runs are asked for, no procedure ever has more open runs
/// than it allows: starting a run keeps the limit of every procedure, and a
/// run of a procedure that is at its limit is refused.
pub proof fn lemma_start_keeps_limit(
    state: EngineView,
    name: Seq<char>,
    event: SopEventView,
    now: u64,
    other: Seq<char>,
)
    requires
        state.runs_ok(),
    ensures
        state.start(name, event, now).0.sops == state.sops,
        match state.sop_of(other) {
            Some(sop) => state.start(name, event, now).0.open_runs(other) <= sop.max_concurrent,
            None => state.start(name, event, now).0.open_runs(other) == 0,
        },
        state.sop_of(name) is Some && state.open_runs(name) >= state.sop_of(
            name,
        )->0.max_concurrent ==> state.start(name, event, now).1 is Err && state.start(
            name,
            event,
            now,
        ).0 == state,
{
    let after = state.start(name, event, now).0;
    lemma_start_runs(state, name, event, now);
    lemma_limit_of_runs_ok(after, other);
}

/// In a state whose runs are in order no procedure has more open runs than
/// it allows, and a name outside the catalogue has none.
pub proof fn lemma_limit_of_runs_ok(state: EngineView, name: Seq<char>)
    requires
        state.runs_ok(),
    ensures
        match state.sop_of(name) {
            Some(sop) => state.open_runs(name) <= sop.max_concurrent,
            None => state.open_runs(name) == 0,
        },
{
    let names = sop_names(state.sops);
    lemma_first_index(names, name);
    match first_index(names, name) {
        Some(k) => {
            assert(state.sops[k].name == name);
            assert(state.open_runs(state.sops[k].name) <= state.sops[k].max_concurrent);
        },
        None => {
            let keys = run_sops(state.active);
            assert forall|j: int| 0 <= j < keys.len() implies keys[j] != name by {
                assert(state.open_run_ok(state.active[j]));
                lemma_first_index(names, state.active[j].sop_name);
            }
            lemma_count_bounds(keys, name);
        },
    }
}

/// A transition is about one run. Starting a run, and advancing or approving
/// the run `id`, leave every other open run as it was.
pub proof fn lemma_other_open_runs_kept(
    state: EngineView,
    name: Seq<char>,
    event: SopEventView,
    id: Seq<char>,
    result: SopStepResultView,
    now: u64,
    j: int,
)
    requires
        state.wf(),
        state.has_id_for(name, now),
        0 <= j < state.active.len(),
    ensures
        state.start(name, event, now).0.run_of(state.active[j].run_id) == Some(state.active[j]),
        state.active[j].run_id != id ==> state.advance(id, result, now).0.run_of(
            state.active[j].run_id,
        ) == Some(state.active[j]) && state.approve(id).0.run_of(state.active[j].run_id) == Some(
            state.active[j],
        ),
{
    let other = state.active[j];
    let started = state.start(name, event, now).0;
    let advanced = state.advance(id, result, now).0;
    let approved = state.approve(id).0;
    lemma_start_wf(state, name, event, now);
    lemma_advance_wf(state, id, result, now);
    lemma_approve_wf(state, id);
    lemma_run_lookup(state);
    lemma_run_lookup(started);
    lemma_run_lookup(advanced);
    lemma_run_lookup(approved);
    lemma_first_index(run_ids(state.active), id);
    assert(started.active.len() >= state.active.len() && started.active[j] == other) by {
        if state.admits(name, now) && state.sop_of(name)->0.steps.len() > 0 {
            assert(started.active[j] == state.active[j]);
        }
    }
    if other.run_id != id {
        match first_index(run_ids(state.active), id) {
            None => {},
            Some(i) => {
                assert(state.active[i].run_id == id);
                assert(i != j);
                assert(approved.active[j] == other);
                let run = state.active[i];
                if result.step_number == run.current_step {
                    if result.status != SopStepStatus::Failed && run.current_step
                        < run.total_steps {
                        assert(advanced.active[j] == other);
                    } else {
                        let moved = if j < i {
                            j
                        } else {
                            j - 1
                        };
                        assert(advanced.active == state.active.remove(i));
                        assert(advanced.active[moved] == other);
                    }
                } else {
                    assert(advanced.active[j] == other);
                }
            },
        }
    }
}

/// Every run of a well-formed state, open or finished, holds at most one
/// result per step of its procedure, holds as many only when it has ended,
/// and has a completion time exactly when its status is terminal.
pub proof fn lemma_runs_consistent(state: EngineView)
    requires
        state.wf(),
    ensures
        forall|i: int| 0 <= i < state.active.len() ==> (#[trigger] state.active[i]).consistent(),
        forall|i: int|
            0 <= i < state.finished.len() ==> (#[trigger] state.finished[i]).consistent(),
        forall|id: Seq<char>|
            state.run_of(id) is Some ==> (#[trigger] state.run_of(id))->0.consistent(),
{
    assert forall|i: int| 0 <= i < state.active.len() implies (
    #[trigger] state.active[i]).consistent() by {
        assert(state.open_run_ok(state.active[i]));
    }
    assert forall|i: int| 0 <= i < state.finished.len() implies (
    #[trigger] state.finished[i]).consistent() by {
        assert(EngineView::finished_run_ok(state.finished[i], state.finished_secs[i]));
    }
    assert forall|id: Seq<char>| state.run_of(id) is Some implies (#[trigger] state.run_of(
        id,
    ))->0.consistent() by {
        lemma_first_index(run_ids(state.active), id);
        lemma_first_index(run_ids(state.finished), id);
    }
}

/// An advance that succeeds was given the number of the step the run stood
/// at; one that fails leaves every run as it was.
pub proof fn lemma_advance_takes_current_step(
    state: EngineView,
    id: Seq<char>,
    result: SopStepResultView,
    now: u64,
)
    ensures
        state.advance(id, result, now).1 is Ok ==> state.run_of(id) is Some && state.run_of(
            id,
        )->0.current_step == result.step_number,
        state.advance(id, result, now).1 is Err ==> state.advance(id, result, now).0 == state,
{
}

/// In a well-formed state no procedure has more open runs than it allows,
/// and a name outside the catalogue has none.
pub proof fn lemma_concurrency_bound(state: EngineView, name: Seq<char>)
    requires
        state.wf(),
    ensures
        match state.sop_of(name) {
            Some(sop) => state.open_runs(name) <= sop.max_concurrent,
            None => state.open_runs(name) == 0,
        },
{
    lemma_limit_of_runs_ok(state, name);
}

/// The instruction of a step shows the trigger payload verbatim.
pub proof fn lemma_payload_shown(sop: SopView, step: SopStepView, payload: Seq<char>)
    ensures
        occurs_in(payload, render_context(sop, step, Some(payload))),
{
    let before = "SOP: "@ + sop.name + " v"@ + sop.version + "\nStep "@ + decimal(
        step.number as nat,
    ) + "/"@ + decimal(sop.steps.len()) + ": "@ + step.title + "\n\n"@ + step.body + "\n"@
        + tools_block(step.suggested_tools) + "\nTrigger payload:\n"@;
    lemma_occurs_in_middle(before, payload, "\n"@);
    assert(before + payload + "\n"@ =~= render_context(sop, step, Some(payload)));
}

} // verus!
