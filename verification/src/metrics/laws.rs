//! What holds of the metrics whatever was counted.

use vstd::prelude::*;
use vstd::string::*;
use crate::metrics::collector::{
    is_longest_match, lemma_longest_match_is, names_sop, sop_keys, CollectorView,
};
use crate::metrics::counters::{lemma_tally_of_wf, lemma_window_within};
use crate::metrics::model::{
    metric_value, split_window, tally_of, window, CountersView, Instant, RunSnapshot, Tally,
};

verus! {

/// Is `metric` the name of one of the three rates that are shares of a whole?
pub open spec fn is_share(metric: Seq<char>) -> bool {
    metric == "completion_rate"@ || metric == "deviation_rate"@ || metric
        == "protocol_adherence_rate"@
}

/// Over well-formed totals the completion rate and the deviation rate lie
/// between zero and one, and so does the protocol adherence rate where no
/// more steps were executed than defined.
pub proof fn lemma_shares_of_tally(t: Tally, metric: Seq<char>)
    requires
        t.wf(),
        is_share(metric),
        metric == "protocol_adherence_rate"@ ==> t.steps_executed <= t.steps_defined,
    ensures
        metric_value(t, metric) is Some,
        metric_value(t, metric)->0.in_unit_interval(),
{
    reveal_strlit("runs_completed");
    reveal_strlit("runs_failed");
    reveal_strlit("runs_cancelled");
    reveal_strlit("deviation_rate");
    reveal_strlit("protocol_adherence_rate");
    reveal_strlit("human_intervention_count");
    reveal_strlit("human_intervention_rate");
    reveal_strlit("timeout_auto_approvals");
    reveal_strlit("timeout_approval_rate");
    reveal_strlit("completion_rate");
    if metric == "completion_rate"@ {
        assert(metric.len() == 15);
        assert(metric[0] == 'c');
    } else if metric == "deviation_rate"@ {
        assert(metric.len() == 14);
        assert(metric[0] == 'd');
    } else {
        assert(metric.len() == 23);
        assert(metric[0] == 'p');
    }
}

/// Snapshots in which no more steps were executed than defined add up to
/// totals of which the same holds.
pub proof fn lemma_tally_within_plan(snaps: Seq<RunSnapshot>)
    requires
        forall|i: int| 0 <= i < snaps.len() ==> (#[trigger] snaps[i]).within_plan(),
    ensures
        tally_of(snaps).steps_executed <= tally_of(snaps).steps_defined,
    decreases snaps.len(),
{
    if snaps.len() > 0 {
        let front = snaps.drop_last();
        assert forall|i: int| 0 <= i < front.len() implies (#[trigger] front[i]).within_plan() by {
            assert(front[i] == snaps[i]);
        }
        lemma_tally_within_plan(front);
        assert(snaps.last().within_plan());
    }
}

/// The snapshots of a time window of a well-formed counter add up to
/// well-formed totals.
pub proof fn lemma_window_tally_wf(c: CountersView, now: Instant, days: int)
    requires
        c.wf(),
    ensures
        tally_of(window(c.recent, now, days)).wf(),
        c.within_plan() ==> tally_of(window(c.recent, now, days)).steps_executed <= tally_of(
            window(c.recent, now, days),
        ).steps_defined,
{
    let w = window(c.recent, now, days);
    lemma_window_within(c.recent, now, days);
    assert forall|k: int| 0 <= k < w.len() implies (#[trigger] w[k]).wf() by {
        let j = choose|j: int| 0 <= j < c.recent.len() && c.recent[j] == w[k];
        assert(c.recent[j].wf());
    }
    lemma_tally_of_wf(w);
    if c.within_plan() {
        assert forall|k: int| 0 <= k < w.len() implies (#[trigger] w[k]).within_plan() by {
            let j = choose|j: int| 0 <= j < c.recent.len() && c.recent[j] == w[k];
            assert(c.recent[j].within_plan());
        }
        lemma_tally_within_plan(w);
    }
}

/// The completion rate and the deviation rate of a well-formed counter lie
/// between zero and one at all times, over the totals since the start and
/// over every time window; so does the protocol adherence rate where no run
/// that was counted had more step results than its procedure has steps.
pub proof fn lemma_shares_in_unit_interval(c: CountersView, suffix: Seq<char>, now: Instant)
    requires
        c.wf(),
        is_share(split_window(suffix).0),
        split_window(suffix).0 == "protocol_adherence_rate"@ ==> c.within_plan(),
    ensures
        c.resolve(suffix, now) is Some,
        c.resolve(suffix, now)->0.in_unit_interval(),
{
    let (base, days) = split_window(suffix);
    match days {
        Some(d) => {
            lemma_window_tally_wf(c, now, d);
            lemma_shares_of_tally(tally_of(window(c.recent, now, d)), base);
        },
        None => {
            lemma_shares_of_tally(c.tally, base);
        },
    }
}

/// A metric that the counter over all procedures does not know is answered
/// by the counter of the procedure whose name is the longest that the rest
/// of the metric name begins with and that a dot follows; a shorter name that
/// the rest begins with as well does not shadow it.
pub proof fn lemma_longest_name_answers(state: CollectorView, name: Seq<char>, now: Instant, k: int)
    requires
        state.wf(),
        "sop."@.is_prefix_of(name),
        state.global.resolve(name.skip("sop."@.len() as int), now) is None,
        is_longest_match(sop_keys(state.per_sop), name.skip("sop."@.len() as int), k),
    ensures
        state.query(name, now) == state.per_sop[k].1.resolve(
            name.skip("sop."@.len() as int).skip(state.per_sop[k].0.len() as int + 1),
            now,
        ),
        forall|j: int|
            0 <= j < state.per_sop.len() && j != k && names_sop(
                #[trigger] sop_keys(state.per_sop)[j],
                name.skip("sop."@.len() as int),
            ) ==> sop_keys(state.per_sop)[j].len() < sop_keys(state.per_sop)[k].len(),
{
    let names = sop_keys(state.per_sop);
    let rest = name.skip("sop."@.len() as int);
    lemma_longest_match_is(names, rest, k);
    assert forall|j: int| 0 <= j < state.per_sop.len() && j != k && names_sop(
        #[trigger] names[j],
        rest,
    ) implies names[j].len() < names[k].len() by {
        if names[j].len() == names[k].len() {
            assert(names[j] =~= names[k]);
        }
    }
}

} // verus!
