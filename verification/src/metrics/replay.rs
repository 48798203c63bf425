//! Warm start against live counting: an aggregator rebuilt from the audit
//! trail holds the totals of one that was told the same events as they
//! happened.

use vstd::prelude::*;
use vstd::string::*;
use crate::audit::{approval_key, lemma_keys_classified, run_key, step_key, timeout_key, AuditKind};
use crate::engine::model::run_ids;
use crate::lookup::{first_index, lemma_first_index};
use crate::metrics::collector::{sop_keys, CollectorView};
use crate::metrics::model::{snapshot_of, CountersView, Instant, RunSnapshot, Tally};
use crate::metrics::warm::{
    approval_ids, is_approval, is_ended_run, rebuilt, terminal_runs, with_approvals, with_runs,
    EntriesView,
};
use crate::types::{terminal, SopRunView};

verus! {

/// What the audit trail was asked to hold, one write at a time.
pub enum AuditWrite {
    /// The record of a run at its start.
    RunStart(SopRunView),
    /// The record of a run after one of its steps was recorded.
    StepResult(SopRunView, nat),
    /// The record of a human approval of a step.
    Approval(SopRunView, nat),
    /// The record of an approval of a step that fired on a timeout.
    TimeoutAutoApprove(SopRunView, nat),
    /// The record of a run at its end.
    RunComplete(SopRunView),
}

/// The record that a write leaves in the trail, as the warm start reads it.
pub open spec fn entry_of(write: AuditWrite) -> (Seq<char>, Option<SopRunView>) {
    match write {
        AuditWrite::RunStart(run) => (run_key(run.run_id), Some(run)),
        AuditWrite::StepResult(run, step) => (step_key(run.run_id, step), Some(run)),
        AuditWrite::Approval(run, step) => (approval_key(run.run_id, step), Some(run)),
        AuditWrite::TimeoutAutoApprove(run, step) => (timeout_key(run.run_id, step), Some(run)),
        AuditWrite::RunComplete(run) => (run_key(run.run_id), Some(run)),
    }
}

/// The records that the writes leave in the trail, in their order.
pub open spec fn entries_of(writes: Seq<AuditWrite>) -> EntriesView {
    Seq::new(writes.len(), |i: int| entry_of(writes[i]))
}

/// The aggregator that was told of each write as it happened: of an
/// approval, of an approval on a timeout, and of the end of a run. The
/// `i`-th write happened at the instant `clock(i)`.
pub open spec fn fed(
    state: CollectorView,
    writes: Seq<AuditWrite>,
    clock: spec_fn(int) -> Instant,
) -> CollectorView
    decreases writes.len(),
{
    if writes.len() == 0 {
        state
    } else {
        let before = fed(state, writes.drop_last(), clock);
        let at = clock(writes.len() - 1);
        match writes.last() {
            AuditWrite::Approval(run, _) => before.record_approval(run.sop_name, run.run_id, at),
            AuditWrite::TimeoutAutoApprove(run, _) => before.record_timeout_auto_approve(
                run.sop_name,
                run.run_id,
                at,
            ),
            AuditWrite::RunComplete(run) => before.record_run_complete(run, at),
            _ => before,
        }
    }
}

/// The writes are those of runs that go their way: a run is written as
/// started before it has ended, as complete when it has, and as complete
/// only once.
pub open spec fn orderly(writes: Seq<AuditWrite>) -> bool {
    &&& forall|i: int|
        0 <= i < writes.len() && (#[trigger] writes[i]) is RunStart ==> !terminal(
            writes[i]->RunStart_0.status,
        )
    &&& forall|i: int|
        0 <= i < writes.len() && (#[trigger] writes[i]) is RunComplete ==> terminal(
            writes[i]->RunComplete_0.status,
        )
    &&& forall|i: int, j: int|
        0 <= i < j < writes.len() && (#[trigger] writes[i]) is RunComplete && (
        #[trigger] writes[j]) is RunComplete ==> writes[i]->RunComplete_0.run_id
            != writes[j]->RunComplete_0.run_id
}

/// The totals since the start of the counter over all procedures, or of the
/// counter of the procedure named.
pub open spec fn tallies(state: CollectorView, sop: Option<Seq<char>>) -> Tally {
    match sop {
        None => state.global.tally,
        Some(name) => state.counters_of(name).tally,
    }
}

/// Is what happens to the procedure `sop_name` counted by the counter asked
/// for: the one over all procedures, or the one of that procedure?
pub open spec fn concerns(sop: Option<Seq<char>>, sop_name: Seq<char>) -> bool {
    sop is None || sop->0 == sop_name
}

/// The totals with the run and step counts of `run` added.
pub open spec fn with_ended(t: Tally, run: SopRunView) -> Tally {
    t.with_run(snapshot_of(run, false, false, Instant { secs: 0, nanos: 0 }))
}

/// The totals that the writes add up to for the counter asked for.
pub open spec fn total(writes: Seq<AuditWrite>, sop: Option<Seq<char>>) -> Tally
    decreases writes.len(),
{
    if writes.len() == 0 {
        Tally::zero()
    } else {
        let before = total(writes.drop_last(), sop);
        match writes.last() {
            AuditWrite::Approval(run, _) => if concerns(sop, run.sop_name) {
                before.with_human_approval()
            } else {
                before
            },
            AuditWrite::TimeoutAutoApprove(run, _) => if concerns(sop, run.sop_name) {
                before.with_timeout_approval()
            } else {
                before
            },
            AuditWrite::RunComplete(run) => if concerns(sop, run.sop_name) {
                with_ended(before, run)
            } else {
                before
            },
            _ => before,
        }
    }
}

/// The counter of a procedure after one procedure was given a new counter.
pub proof fn lemma_counters_after(
    state: CollectorView,
    name: Seq<char>,
    counters: CountersView,
    other: Seq<char>,
)
    ensures
        (CollectorView { per_sop: state.with_counters(name, counters), ..state }).counters_of(
            other,
        ) == if other == name {
            counters
        } else {
            state.counters_of(other)
        },
{
    let keys = sop_keys(state.per_sop);
    let after = state.with_counters(name, counters);
    let after_keys = sop_keys(after);
    lemma_first_index(keys, name);
    lemma_first_index(keys, other);
    lemma_first_index(after_keys, other);
    match first_index(keys, name) {
        Some(k) => {
            assert(after_keys =~= keys);
        },
        None => {
            assert(after_keys =~= keys.push(name));
            match first_index(after_keys, other) {
                Some(j) => {
                    if j < keys.len() {
                        assert(keys[j] == after_keys[j]);
                    }
                },
                None => {
                    assert(after_keys[keys.len() as int] == name);
                },
            }
            match first_index(keys, other) {
                Some(i) => {
                    assert(after_keys[i] == other);
                },
                None => {},
            }
        },
    }
}

/// Counting an ended run adds it to the counter over all procedures and to
/// the counter of its procedure, and to no other.
proof fn lemma_tallies_counted(
    state: CollectorView,
    snap: RunSnapshot,
    sop_name: Seq<char>,
    sop: Option<Seq<char>>,
)
    ensures
        tallies(state.counted(snap, sop_name), sop) == if concerns(sop, sop_name) {
            tallies(state, sop).with_run(snap)
        } else {
            tallies(state, sop)
        },
{
    if sop is Some {
        let mid = CollectorView { global: state.global.with_run(snap), ..state };
        lemma_counters_after(mid, sop_name, state.counters_of(sop_name).with_run(snap), sop->0);
    }
}

/// Counting a human approval adds it to the counter over all procedures and
/// to the counter of its procedure, and to no other.
proof fn lemma_tallies_approved(state: CollectorView, sop_name: Seq<char>, sop: Option<Seq<char>>)
    ensures
        tallies(state.approved(sop_name), sop) == if concerns(sop, sop_name) {
            tallies(state, sop).with_human_approval()
        } else {
            tallies(state, sop)
        },
{
    if sop is Some {
        let mid = CollectorView {
            global: CountersView {
                tally: state.global.tally.with_human_approval(),
                ..state.global
            },
            ..state
        };
        lemma_counters_after(
            mid,
            sop_name,
            CountersView {
                tally: state.counters_of(sop_name).tally.with_human_approval(),
                ..state.counters_of(sop_name)
            },
            sop->0,
        );
    }
}

/// Counting an approval on a timeout adds it to the counter over all
/// procedures and to the counter of its procedure, and to no other.
proof fn lemma_tallies_timeout_approved(
    state: CollectorView,
    sop_name: Seq<char>,
    sop: Option<Seq<char>>,
)
    ensures
        tallies(state.timeout_approved(sop_name), sop) == if concerns(sop, sop_name) {
            tallies(state, sop).with_timeout_approval()
        } else {
            tallies(state, sop)
        },
{
    if sop is Some {
        let mid = CollectorView {
            global: CountersView {
                tally: state.global.tally.with_timeout_approval(),
                ..state.global
            },
            ..state
        };
        lemma_counters_after(
            mid,
            sop_name,
            CountersView {
                tally: state.counters_of(sop_name).tally.with_timeout_approval(),
                ..state.counters_of(sop_name)
            },
            sop->0,
        );
    }
}

/// An aggregator that is told the events as they happen holds their totals.
pub proof fn lemma_fed_total(
    writes: Seq<AuditWrite>,
    clock: spec_fn(int) -> Instant,
    sop: Option<Seq<char>>,
)
    ensures
        tallies(fed(CollectorView::empty(), writes, clock), sop) == total(writes, sop),
    decreases writes.len(),
{
    if writes.len() == 0 {
        if sop is Some {
            lemma_first_index(sop_keys(CollectorView::empty().per_sop), sop->0);
        }
    } else {
        lemma_fed_total(writes.drop_last(), clock, sop);
        let before = fed(CollectorView::empty(), writes.drop_last(), clock);
        let at = clock(writes.len() - 1);
        match writes.last() {
            AuditWrite::Approval(run, _) => {
                lemma_tallies_approved(before, run.sop_name, sop);
                let counted = before.approved(run.sop_name);
                let after = before.record_approval(run.sop_name, run.run_id, at);
                assert(after.global == counted.global && after.per_sop == counted.per_sop);
            },
            AuditWrite::TimeoutAutoApprove(run, _) => {
                lemma_tallies_timeout_approved(before, run.sop_name, sop);
                let counted = before.timeout_approved(run.sop_name);
                let after = before.record_timeout_auto_approve(run.sop_name, run.run_id, at);
                assert(after.global == counted.global && after.per_sop == counted.per_sop);
            },
            AuditWrite::RunComplete(run) => {
                let snap = before.snapshot_for(run, at);
                lemma_tallies_counted(before, snap, run.sop_name, sop);
                let counted = before.counted(snap, run.sop_name);
                let after = before.record_run_complete(run, at);
                assert(after.global == counted.global && after.per_sop == counted.per_sop);
            },
            _ => {},
        }
    }
}

/// The runs that were written as complete, in the order of the writes.
pub open spec fn completes(writes: Seq<AuditWrite>) -> Seq<SopRunView>
    decreases writes.len(),
{
    if writes.len() == 0 {
        Seq::empty()
    } else {
        match writes.last() {
            AuditWrite::RunComplete(run) => completes(writes.drop_last()).push(run),
            _ => completes(writes.drop_last()),
        }
    }
}

/// Every run of `completes` was written as complete.
proof fn lemma_completes(writes: Seq<AuditWrite>)
    ensures
        forall|k: int|
            0 <= k < completes(writes).len() ==> exists|i: int|
                0 <= i < writes.len() && writes[i] == AuditWrite::RunComplete(
                    #[trigger] completes(writes)[k],
                ),
    decreases writes.len(),
{
    if writes.len() > 0 {
        let front = writes.drop_last();
        lemma_completes(front);
        let c = completes(writes);
        let cf = completes(front);
        assert forall|k: int| 0 <= k < c.len() implies exists|i: int|
            0 <= i < writes.len() && writes[i] == AuditWrite::RunComplete(#[trigger] c[k]) by {
            if k < cf.len() {
                assert(c[k] == cf[k]);
                let i = choose|i: int|
                    0 <= i < front.len() && front[i] == AuditWrite::RunComplete(cf[k]);
                assert(writes[i] == AuditWrite::RunComplete(c[k]));
            } else {
                assert(writes[writes.len() - 1] == AuditWrite::RunComplete(c[k]));
            }
        }
    }
}

/// From the records of orderly writes the warm start reads the runs that
/// were written as complete, each once.
pub proof fn lemma_terminal_runs_of_orderly(writes: Seq<AuditWrite>)
    requires
        orderly(writes),
    ensures
        terminal_runs(entries_of(writes)) == completes(writes),
    decreases writes.len(),
{
    if writes.len() == 0 {
        assert(entries_of(writes) =~= Seq::empty());
    } else {
        let front = writes.drop_last();
        let last = writes.last();
        assert(orderly(front)) by {
            assert forall|i: int| 0 <= i < front.len() implies front[i] == writes[i] by {}
        }
        lemma_terminal_runs_of_orderly(front);
        assert(entries_of(writes).drop_last() =~= entries_of(front));
        assert(entries_of(writes).last() == entry_of(last));
        match last {
            AuditWrite::RunStart(run) => {
                assert(writes[writes.len() - 1] is RunStart);
            },
            AuditWrite::StepResult(run, step) => {
                lemma_keys_classified(run.run_id, step);
            },
            AuditWrite::Approval(run, step) => {
                lemma_keys_classified(run.run_id, step);
            },
            AuditWrite::TimeoutAutoApprove(run, step) => {
                lemma_keys_classified(run.run_id, step);
            },
            AuditWrite::RunComplete(run) => {
                lemma_keys_classified(run.run_id, 0);
                assert(writes[writes.len() - 1] is RunComplete);
                assert(is_ended_run(entry_of(last)));
                let earlier = completes(front);
                lemma_completes(front);
                assert forall|k: int| 0 <= k < earlier.len() implies run_ids(earlier)[k]
                    != run.run_id by {
                    let i = choose|i: int|
                        0 <= i < front.len() && front[i] == AuditWrite::RunComplete(earlier[k]);
                    assert(writes[i] is RunComplete);
                    assert(writes[i]->RunComplete_0.run_id != writes[writes.len()
                        - 1]->RunComplete_0.run_id);
                }
                lemma_first_index(run_ids(earlier), run.run_id);
            },
        }
    }
}

/// The totals `t` with the runs added that concern the counter asked for.
pub open spec fn runs_onto(t: Tally, runs: Seq<SopRunView>, sop: Option<Seq<char>>) -> Tally
    decreases runs.len(),
{
    if runs.len() == 0 {
        t
    } else if concerns(sop, runs.last().sop_name) {
        with_ended(runs_onto(t, runs.drop_last(), sop), runs.last())
    } else {
        runs_onto(t, runs.drop_last(), sop)
    }
}

/// The totals `t` with the approvals of the records added that concern the
/// counter asked for.
pub open spec fn approvals_onto(t: Tally, entries: EntriesView, sop: Option<Seq<char>>) -> Tally
    decreases entries.len(),
{
    if entries.len() == 0 {
        t
    } else {
        let before = approvals_onto(t, entries.drop_last(), sop);
        let entry = entries.last();
        if is_approval(entry, AuditKind::Approval) && concerns(sop, entry.1->0.sop_name) {
            before.with_human_approval()
        } else if !is_approval(entry, AuditKind::Approval) && is_approval(
            entry,
            AuditKind::TimeoutApproval,
        ) && concerns(sop, entry.1->0.sop_name) {
            before.with_timeout_approval()
        } else {
            before
        }
    }
}

/// What the warm start counts of runs, as totals.
proof fn lemma_with_runs_tallies(
    state: CollectorView,
    runs: Seq<SopRunView>,
    human: Seq<Seq<char>>,
    timeout: Seq<Seq<char>>,
    now: Instant,
    sop: Option<Seq<char>>,
)
    ensures
        tallies(with_runs(state, runs, human, timeout, now), sop) == runs_onto(
            tallies(state, sop),
            runs,
            sop,
        ),
    decreases runs.len(),
{
    if runs.len() > 0 {
        let run = runs.last();
        lemma_with_runs_tallies(state, runs.drop_last(), human, timeout, now, sop);
        lemma_tallies_counted(
            with_runs(state, runs.drop_last(), human, timeout, now),
            snapshot_of(
                run,
                human.contains(run.run_id),
                timeout.contains(run.run_id),
                crate::metrics::collector::ended_at(run, now),
            ),
            run.sop_name,
            sop,
        );
    }
}

/// What the warm start counts of approvals, as totals.
proof fn lemma_with_approvals_tallies(
    state: CollectorView,
    entries: EntriesView,
    sop: Option<Seq<char>>,
)
    ensures
        tallies(with_approvals(state, entries), sop) == approvals_onto(
            tallies(state, sop),
            entries,
            sop,
        ),
    decreases entries.len(),
{
    if entries.len() > 0 {
        let entry = entries.last();
        let before = with_approvals(state, entries.drop_last());
        lemma_with_approvals_tallies(state, entries.drop_last(), sop);
        if is_approval(entry, AuditKind::Approval) {
            lemma_tallies_approved(before, entry.1->0.sop_name, sop);
        } else if is_approval(entry, AuditKind::TimeoutApproval) {
            lemma_tallies_timeout_approved(before, entry.1->0.sop_name, sop);
        }
    }
}

/// Approvals and ended runs can be added in either order.
proof fn lemma_approvals_after_run(
    t: Tally,
    run: SopRunView,
    entries: EntriesView,
    sop: Option<Seq<char>>,
)
    ensures
        approvals_onto(with_ended(t, run), entries, sop) == with_ended(
            approvals_onto(t, entries, sop),
            run,
        ),
    decreases entries.len(),
{
    if entries.len() > 0 {
        lemma_approvals_after_run(t, run, entries.drop_last(), sop);
    }
}

/// Counting the complete runs first and every approval after them gives the
/// totals of the writes.
proof fn lemma_onto_total(writes: Seq<AuditWrite>, sop: Option<Seq<char>>)
    ensures
        approvals_onto(
            runs_onto(Tally::zero(), completes(writes), sop),
            entries_of(writes),
            sop,
        ) == total(writes, sop),
    decreases writes.len(),
{
    if writes.len() == 0 {
        assert(entries_of(writes) =~= Seq::empty());
    } else {
        let front = writes.drop_last();
        let last = writes.last();
        lemma_onto_total(front, sop);
        assert(entries_of(writes).drop_last() =~= entries_of(front));
        assert(entries_of(writes).last() == entry_of(last));
        let base = runs_onto(Tally::zero(), completes(front), sop);
        match last {
            AuditWrite::RunStart(run) => {
                lemma_keys_classified(run.run_id, 0);
            },
            AuditWrite::StepResult(run, step) => {
                lemma_keys_classified(run.run_id, step);
            },
            AuditWrite::Approval(run, step) => {
                lemma_keys_classified(run.run_id, step);
            },
            AuditWrite::TimeoutAutoApprove(run, step) => {
                lemma_keys_classified(run.run_id, step);
            },
            AuditWrite::RunComplete(run) => {
                lemma_keys_classified(run.run_id, 0);
                assert(completes(writes).drop_last() =~= completes(front));
                if concerns(sop, run.sop_name) {
                    lemma_approvals_after_run(base, run, entries_of(front), sop);
                }
            },
        }
    }
}

/// Warm start round trip. For writes of runs that go their way, the
/// aggregator rebuilt from the records they leave holds, for all procedures
/// and for each procedure, the totals since the start that an aggregator
/// holds which was told of each approval and each ended run as it happened.
/// The instants of the events and of the warm start do not matter.
pub proof fn lemma_warm_start_round_trip(
    writes: Seq<AuditWrite>,
    clock: spec_fn(int) -> Instant,
    now: Instant,
    sop: Option<Seq<char>>,
)
    requires
        orderly(writes),
    ensures
        tallies(rebuilt(entries_of(writes), now), sop) == tallies(
            fed(CollectorView::empty(), writes, clock),
            sop,
        ),
{
    let entries = entries_of(writes);
    let human = approval_ids(entries, AuditKind::Approval);
    let timeout = approval_ids(entries, AuditKind::TimeoutApproval);
    lemma_terminal_runs_of_orderly(writes);
    let counted = with_runs(CollectorView::empty(), completes(writes), human, timeout, now);
    lemma_with_runs_tallies(CollectorView::empty(), completes(writes), human, timeout, now, sop);
    lemma_with_approvals_tallies(counted, entries, sop);
    if sop is Some {
        lemma_first_index(sop_keys(CollectorView::empty().per_sop), sop->0);
    }
    lemma_onto_total(writes, sop);
    lemma_fed_total(writes, clock, sop);
}

} // verus!
