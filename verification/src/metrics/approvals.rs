//! How an approval finds its run: an approval that is recorded before its
//! run ends flags the snapshot of that run, and is counted in the time
//! windows with it.

use vstd::prelude::*;
use vstd::string::*;
use crate::lookup::{first_index, lemma_first_index};
use crate::metrics::collector::{ended_at, CollectorView};
use crate::metrics::model::{
    metric_value, split_window, tally_of, window, CountersView, Instant, MetricValue, Tally,
    MAX_RECENT_RUNS, PENDING_EVICT_SECS,
};
use crate::metrics::pending::{
    fresh, holds, lemma_fresh_wf, pending_ids, pending_wf, put, without, PendingView,
};
use crate::metrics::replay::lemma_counters_after;
use crate::types::SopRunView;

verus! {

/// A run has a fresh pending approval exactly where it has a pending
/// approval that is not stale.
pub proof fn lemma_fresh_holds(pending: PendingView, now: Instant, run_id: Seq<char>)
    ensures
        holds(fresh(pending, now), run_id) <==> exists|j: int|
            0 <= j < pending.len() && (#[trigger] pending[j]).0 == run_id && !pending[j].1.older_than(
                now,
                PENDING_EVICT_SECS as int,
            ),
    decreases pending.len(),
{
    let kept = fresh(pending, now);
    lemma_first_index(pending_ids(kept), run_id);
    if pending.len() > 0 {
        let front = pending.drop_last();
        let last = pending.last();
        lemma_fresh_holds(front, now, run_id);
        lemma_first_index(pending_ids(fresh(front, now)), run_id);
        let stale = last.1.older_than(now, PENDING_EVICT_SECS as int);
        if holds(kept, run_id) {
            let k = first_index(pending_ids(kept), run_id)->0;
            assert(pending_ids(kept)[k] == kept[k].0);
            if !stale && k == kept.len() - 1 {
                assert(pending[pending.len() - 1].0 == run_id);
            } else {
                assert(kept[k] == fresh(front, now)[k]);
                assert(pending_ids(fresh(front, now))[k] == run_id);
                let j = choose|j: int|
                    0 <= j < front.len() && (#[trigger] front[j]).0 == run_id
                        && !front[j].1.older_than(now, PENDING_EVICT_SECS as int);
                assert(pending[j] == front[j]);
            }
        }
        if exists|j: int|
            0 <= j < pending.len() && (#[trigger] pending[j]).0 == run_id && !pending[j].1.older_than(
                now,
                PENDING_EVICT_SECS as int,
            ) {
            let j = choose|j: int|
                0 <= j < pending.len() && (#[trigger] pending[j]).0 == run_id
                    && !pending[j].1.older_than(now, PENDING_EVICT_SECS as int);
            if j < front.len() {
                assert(front[j] == pending[j]);
                assert(holds(fresh(front, now), run_id));
                let k = first_index(pending_ids(fresh(front, now)), run_id)->0;
                assert(pending_ids(kept)[k] == pending_ids(fresh(front, now))[k]);
            } else {
                assert(pending_ids(kept)[kept.len() - 1] == run_id);
            }
        }
    }
}

/// An approval that was noted for a run is pending for it until it is an
/// hour old: after `put`, the run has a fresh pending approval at `now`
/// exactly where less than `PENDING_EVICT_SECS` seconds have passed.
pub proof fn lemma_noted_approval_is_pending(
    pending: PendingView,
    run_id: Seq<char>,
    at: Instant,
    now: Instant,
)
    requires
        pending_wf(pending),
    ensures
        holds(fresh(put(pending, run_id, at), now), run_id) <==> !at.older_than(
            now,
            PENDING_EVICT_SECS as int,
        ),
{
    let noted = put(pending, run_id, at);
    let ids = pending_ids(pending);
    lemma_first_index(ids, run_id);
    lemma_fresh_holds(noted, now, run_id);
    let place = match first_index(ids, run_id) {
        Some(k) => k,
        None => pending.len() as int,
    };
    assert(noted[place] == (run_id, at));
    assert forall|j: int| 0 <= j < noted.len() && (#[trigger] noted[j]).0 == run_id implies j
        == place by {
        if j != place {
            assert(noted[j] == pending[j]);
            assert(ids[j] == run_id);
            if first_index(ids, run_id) is Some {
                assert(ids[place] == run_id);
            }
        }
    }
}

/// A run that ends while it has a fresh pending human approval is counted
/// with the approval: the snapshot that is kept for it is flagged, the
/// approval is pending no longer, the approvals since the start stay as they
/// were counted, and every time window that the end of the run lies in
/// counts the approval.
pub proof fn lemma_pending_approval_flags_the_run(
    state: CollectorView,
    run: SopRunView,
    now: Instant,
    asked: Instant,
    days: int,
)
    requires
        state.wf(),
        holds(fresh(state.pending_approvals, now), run.run_id),
    ensures
        ({
            let after = state.record_run_complete(run, now);
            let kept = after.global.recent.last();
            &&& after.global.recent.len() > 0
            &&& kept == state.snapshot_for(run, now)
            &&& kept.had_human_approval
            &&& kept.completed_at == ended_at(run, now)
            &&& !holds(after.pending_approvals, run.run_id)
            &&& after.global.tally.human_approvals == state.global.tally.human_approvals
            &&& kept.completed_at.within_days(asked, days) ==> tally_of(
                window(after.global.recent, asked, days),
            ).human_approvals == tally_of(
                window(after.global.recent.drop_last(), asked, days),
            ).human_approvals + 1
        }),
{
    let after = state.record_run_complete(run, now);
    let snap = state.snapshot_for(run, now);
    let pushed = state.global.recent.push(snap);
    let recent = after.global.recent;
    assert(pushed.last() == snap);
    assert(recent.len() > 0 && recent.last() == snap) by {
        if pushed.len() > MAX_RECENT_RUNS {
            assert(pushed.drop_first().last() == pushed.last());
        }
    }
    if snap.completed_at.within_days(asked, days) {
        let inside = window(recent, asked, days);
        assert(inside == window(recent.drop_last(), asked, days).push(snap));
        assert(inside.drop_last() =~= window(recent.drop_last(), asked, days));
        assert(inside.last() == snap);
    }
    let kept = fresh(state.pending_approvals, now);
    lemma_fresh_wf(state.pending_approvals, now);
    let ids = pending_ids(kept);
    lemma_first_index(ids, run.run_id);
    let k = first_index(ids, run.run_id)->0;
    let rest = without(kept, run.run_id);
    assert(rest == kept.remove(k));
    lemma_first_index(pending_ids(rest), run.run_id);
    if holds(rest, run.run_id) {
        let j = first_index(pending_ids(rest), run.run_id)->0;
        let from = if j < k {
            j
        } else {
            j + 1
        };
        assert(rest[j] == kept[from]);
        assert(ids[from] == ids[k]);
    }
}

/// One approval, then the end of its run. An aggregator that has counted
/// nothing, is told of a human approval of a run and then, less than an hour
/// later, of the end of that run, answers `sop.human_intervention_count`
/// with 1, and `sop.human_intervention_count_7d` with 1 as long as the run
/// ended within the last seven days; and no approval is pending.
pub proof fn lemma_approval_then_completion(
    sop_name: Seq<char>,
    run: SopRunView,
    approved: Instant,
    ended: Instant,
    asked: Instant,
)
    requires
        !approved.older_than(ended, PENDING_EVICT_SECS as int),
        ended_at(run, ended).within_days(asked, 7),
    ensures
        ({
            let after = CollectorView::empty().record_approval(
                sop_name,
                run.run_id,
                approved,
            ).record_run_complete(run, ended);
            &&& after.query("sop.human_intervention_count"@, asked) == Some(MetricValue::Count(1))
            &&& after.query("sop.human_intervention_count_7d"@, asked) == Some(
                MetricValue::Count(1),
            )
            &&& after.pending_approvals.len() == 0
        }),
{
    let start = CollectorView::empty();
    let told = start.record_approval(sop_name, run.run_id, approved);
    let after = told.record_run_complete(run, ended);
    lemma_first_index(pending_ids(start.pending_approvals), run.run_id);
    assert(told.pending_approvals =~= seq![(run.run_id, approved)]);
    lemma_noted_approval_is_pending(start.pending_approvals, run.run_id, approved, ended);
    let kept = fresh(told.pending_approvals, ended);
    assert(told.pending_approvals.drop_last() =~= Seq::empty());
    assert(kept =~= told.pending_approvals);
    lemma_first_index(pending_ids(kept), run.run_id);
    assert(pending_ids(kept)[0] == run.run_id);
    assert(after.pending_approvals =~= Seq::empty());
    let snap = told.snapshot_for(run, ended);
    assert(snap.had_human_approval);
    let recent = after.global.recent;
    assert(recent =~= seq![snap]);
    assert(recent.drop_last() =~= Seq::empty());
    assert(snap.completed_at == ended_at(run, ended));
    assert(window(recent.drop_last(), asked, 7) =~= Seq::empty());
    assert(window(recent, asked, 7) =~= seq![snap]);
    let inside = window(recent, asked, 7);
    assert(inside.drop_last() =~= Seq::empty());
    assert(inside.last() == snap);
    assert(tally_of(inside.drop_last()).human_approvals == 0);
    assert(tally_of(inside) == tally_of(inside.drop_last()).with_flagged_run(snap));
    assert(tally_of(window(after.global.recent, asked, 7)).human_approvals == 1);
    assert(after.global.tally.human_approvals == 1);
    lemma_count_names();
    let all = "sop.human_intervention_count"@;
    let week = "sop.human_intervention_count_7d"@;
    assert(all.skip("sop."@.len() as int) =~= "human_intervention_count"@);
    assert(week.skip("sop."@.len() as int) =~= "human_intervention_count_7d"@);
}

/// What the two names of the count of human approvals are made of.
proof fn lemma_count_names()
    ensures
        "sop."@.is_prefix_of("sop.human_intervention_count"@),
        "sop."@.is_prefix_of("sop.human_intervention_count_7d"@),
        "sop.human_intervention_count"@.skip("sop."@.len() as int)
            == "human_intervention_count"@,
        "sop.human_intervention_count_7d"@.skip("sop."@.len() as int)
            == "human_intervention_count_7d"@,
        split_window("human_intervention_count"@) == ("human_intervention_count"@, None::<int>),
        split_window("human_intervention_count_7d"@) == (
            "human_intervention_count"@,
            Some(7int),
        ),
        forall|t: Tally|
            t.human_approvals <= u64::MAX ==> #[trigger] metric_value(
                t,
                "human_intervention_count"@,
            ) == Some(MetricValue::Count(t.human_approvals as u64)),
{
    reveal_strlit("sop.");
    reveal_strlit("sop.human_intervention_count");
    reveal_strlit("sop.human_intervention_count_7d");
    reveal_strlit("human_intervention_count");
    reveal_strlit("human_intervention_count_7d");
    reveal_strlit("_7d");
    reveal_strlit("_30d");
    reveal_strlit("_90d");
    reveal_strlit("runs_completed");
    reveal_strlit("runs_failed");
    reveal_strlit("runs_cancelled");
    reveal_strlit("deviation_rate");
    reveal_strlit("protocol_adherence_rate");
    let plain = "human_intervention_count"@;
    let week = "human_intervention_count_7d"@;
    assert("sop.human_intervention_count"@.skip(4) =~= plain);
    assert("sop.human_intervention_count_7d"@.skip(4) =~= week);
    assert("sop."@ =~= "sop.human_intervention_count"@.subrange(0, 4));
    assert("sop."@ =~= "sop.human_intervention_count_7d"@.subrange(0, 4));
    assert(plain.len() == 24 && week.len() == 27);
    assert(week.skip(24) =~= "_7d"@);
    assert(week.take(24) =~= plain);
    assert(plain.skip(21)[0] == 'u');
    assert(plain.skip(20)[0] == 'o');
    assert(plain[0] == 'h');
}

/// What is recorded for one procedure leaves the counter of every other
/// procedure as it was, totals and snapshots.
pub proof fn lemma_other_counters_kept(
    state: CollectorView,
    sop_name: Seq<char>,
    run_id: Seq<char>,
    run: SopRunView,
    now: Instant,
    other: Seq<char>,
)
    ensures
        other != sop_name ==> state.record_approval(sop_name, run_id, now).counters_of(other)
            == state.counters_of(other) && state.record_timeout_auto_approve(
            sop_name,
            run_id,
            now,
        ).counters_of(other) == state.counters_of(other),
        other != run.sop_name ==> state.record_run_complete(run, now).counters_of(other)
            == state.counters_of(other),
{
    let approved = CountersView {
        tally: state.counters_of(sop_name).tally.with_human_approval(),
        ..state.counters_of(sop_name)
    };
    lemma_counters_after(state, sop_name, approved, other);
    let timed_out = CountersView {
        tally: state.counters_of(sop_name).tally.with_timeout_approval(),
        ..state.counters_of(sop_name)
    };
    lemma_counters_after(state, sop_name, timed_out, other);
    let counted = state.counters_of(run.sop_name).with_run(state.snapshot_for(run, now));
    lemma_counters_after(state, run.sop_name, counted, other);
    assert(state.record_approval(sop_name, run_id, now).per_sop == state.with_counters(
        sop_name,
        approved,
    ));
    assert(state.record_timeout_auto_approve(sop_name, run_id, now).per_sop
        == state.with_counters(sop_name, timed_out));
    assert(state.record_run_complete(run, now).per_sop == state.with_counters(
        run.sop_name,
        counted,
    ));
}

/// The end of a run takes the pending approval of that run only: every other
/// run has a pending approval afterwards exactly where it had one that was
/// not stale.
pub proof fn lemma_other_pending_kept(
    state: CollectorView,
    run: SopRunView,
    now: Instant,
    other: Seq<char>,
)
    requires
        state.wf(),
        other != run.run_id,
    ensures
        holds(state.record_run_complete(run, now).pending_approvals, other) <==> holds(
            fresh(state.pending_approvals, now),
            other,
        ),
        holds(state.record_run_complete(run, now).pending_timeout_approvals, other) <==> holds(
            fresh(state.pending_timeout_approvals, now),
            other,
        ),
{
    lemma_without_other(fresh(state.pending_approvals, now), run.run_id, other);
    lemma_without_other(fresh(state.pending_timeout_approvals, now), run.run_id, other);
}

/// Taking the approval of one run out leaves that of another run.
proof fn lemma_without_other(pending: PendingView, taken: Seq<char>, other: Seq<char>)
    requires
        other != taken,
    ensures
        holds(without(pending, taken), other) <==> holds(pending, other),
{
    let ids = pending_ids(pending);
    let rest = without(pending, taken);
    lemma_first_index(ids, taken);
    lemma_first_index(ids, other);
    lemma_first_index(pending_ids(rest), other);
    match first_index(ids, taken) {
        Some(k) => {
            assert(rest == pending.remove(k));
            if holds(pending, other) {
                let j = first_index(ids, other)->0;
                let to = if j < k {
                    j
                } else {
                    j - 1
                };
                assert(ids[j] == other && j != k);
                assert(rest[to] == pending[j]);
                assert(pending_ids(rest)[to] == other);
            }
            if holds(rest, other) {
                let j = first_index(pending_ids(rest), other)->0;
                let from = if j < k {
                    j
                } else {
                    j + 1
                };
                assert(rest[j] == pending[from]);
                assert(ids[from] == other);
            }
        },
        None => {},
    }
}

} // verus!
