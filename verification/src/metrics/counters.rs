//! One counter of the aggregator: totals since the start and a bounded queue
//! of snapshots for the time windows.

use std::collections::VecDeque;
use vstd::prelude::*;
use vstd::string::*;
use crate::metrics::model::{
    metric_value, tally_of, window, CountersView, Instant, MetricValue, RunSnapshot, Tally,
    MAX_RECENT_RUNS,
};
use crate::text::strip_suffix;
use crate::types::SopRunStatus;

verus! {

/// Nine totals, as they are held at run time.
#[derive(Clone, Copy, Debug, PartialEq, Eq)]
pub struct Totals {
    pub runs_completed: u64,
    pub runs_failed: u64,
    pub runs_cancelled: u64,
    pub steps_executed: u64,
    pub steps_defined: u64,
    pub steps_failed: u64,
    pub steps_skipped: u64,
    pub human_approvals: u64,
    pub timeout_auto_approvals: u64,
}

impl View for Totals {
    type V = Tally;

    open spec fn view(&self) -> Tally {
        Tally {
            runs_completed: self.runs_completed as nat,
            runs_failed: self.runs_failed as nat,
            runs_cancelled: self.runs_cancelled as nat,
            steps_executed: self.steps_executed as nat,
            steps_defined: self.steps_defined as nat,
            steps_failed: self.steps_failed as nat,
            steps_skipped: self.steps_skipped as nat,
            human_approvals: self.human_approvals as nat,
            timeout_auto_approvals: self.timeout_auto_approvals as nat,
        }
    }
}

impl Totals {
    /// All totals zero.
    pub fn zero() -> (r: Totals)
        ensures
            r@ == Tally::zero(),
    {
        Totals {
            runs_completed: 0,
            runs_failed: 0,
            runs_cancelled: 0,
            steps_executed: 0,
            steps_defined: 0,
            steps_failed: 0,
            steps_skipped: 0,
            human_approvals: 0,
            timeout_auto_approvals: 0,
        }
    }

    /// Adds the run and step counts of a snapshot.
    pub fn add_run(&mut self, snap: &RunSnapshot)
        requires
            old(self)@.wf(),
            snap.wf(),
            old(self)@.has_room(*snap),
        ensures
            final(self)@ == old(self)@.with_run(*snap),
            final(self)@.wf(),
    {
        match snap.terminal_status {
            SopRunStatus::Completed => {
                self.runs_completed = self.runs_completed + 1;
            },
            SopRunStatus::Failed => {
                self.runs_failed = self.runs_failed + 1;
            },
            SopRunStatus::Cancelled => {
                self.runs_cancelled = self.runs_cancelled + 1;
            },
            _ => {},
        }
        self.steps_executed = self.steps_executed + snap.steps_executed;
        self.steps_defined = self.steps_defined + snap.steps_defined;
        self.steps_failed = self.steps_failed + snap.steps_failed;
        self.steps_skipped = self.steps_skipped + snap.steps_skipped;
    }

    /// The value of the metric called `metric` over these totals.
    ///
    /// The counts are the totals themselves. `deviation_rate` is the failed
    /// and skipped steps over the executed ones, `protocol_adherence_rate` the
    /// executed steps that neither failed nor were skipped over the defined
    /// ones, both zero over nothing. The approval rates are per completed run
    /// and `completion_rate` is the completed runs per ended run, each over at
    /// least one.
    pub fn metric(&self, metric: &str) -> (r: Option<MetricValue>)
        requires
            self@.wf(),
        ensures
            r == metric_value(self@, metric@),
    {
        if *metric == *"runs_completed" {
            Some(MetricValue::Count(self.runs_completed))
        } else if *metric == *"runs_failed" {
            Some(MetricValue::Count(self.runs_failed))
        } else if *metric == *"runs_cancelled" {
            Some(MetricValue::Count(self.runs_cancelled))
        } else if *metric == *"deviation_rate" {
            if self.steps_executed == 0 {
                Some(MetricValue::Rate { numerator: 0, denominator: 1 })
            } else {
                Some(
                    MetricValue::Rate {
                        numerator: self.steps_failed + self.steps_skipped,
                        denominator: self.steps_executed,
                    },
                )
            }
        } else if *metric == *"protocol_adherence_rate" {
            if self.steps_defined == 0 {
                Some(MetricValue::Rate { numerator: 0, denominator: 1 })
            } else {
                Some(
                    MetricValue::Rate {
                        numerator: self.steps_executed.saturating_sub(
                            self.steps_failed,
                        ).saturating_sub(self.steps_skipped),
                        denominator: self.steps_defined,
                    },
                )
            }
        } else if *metric == *"human_intervention_count" {
            Some(MetricValue::Count(self.human_approvals))
        } else if *metric == *"human_intervention_rate" {
            Some(
                MetricValue::Rate {
                    numerator: self.human_approvals,
                    denominator: at_least_one(self.runs_completed),
                },
            )
        } else if *metric == *"timeout_auto_approvals" {
            Some(MetricValue::Count(self.timeout_auto_approvals))
        } else if *metric == *"timeout_approval_rate" {
            Some(
                MetricValue::Rate {
                    numerator: self.timeout_auto_approvals,
                    denominator: at_least_one(self.runs_completed),
                },
            )
        } else if *metric == *"completion_rate" {
            let total = self.runs_completed + self.runs_failed + self.runs_cancelled;
            Some(
                MetricValue::Rate {
                    numerator: self.runs_completed,
                    denominator: at_least_one(total),
                },
            )
        } else {
            None
        }
    }
}

/// `n`, or one where `n` is zero.
pub fn at_least_one(n: u64) -> (r: u64)
    ensures
        r == if n == 0 {
            1
        } else {
            n
        },
{
    if n == 0 {
        1
    } else {
        n
    }
}

/// Does `at` lie at or after the instant `days` days before `now`?
pub fn within_days(at: Instant, now: Instant, days: u32) -> (r: bool)
    ensures
        r == at.within_days(now, days as int),
{
    let cutoff: i128 = now.secs as i128 - (days as i128) * 86400;
    let secs: i128 = at.secs as i128;
    secs > cutoff || (secs == cutoff && at.nanos >= now.nanos)
}

/// The snapshots of a prefix add up to no more than those of the whole queue.
pub proof fn lemma_tally_prefix(snaps: Seq<RunSnapshot>, i: int)
    requires
        0 <= i <= snaps.len(),
    ensures
        tally_of(snaps.take(i)).within(tally_of(snaps)),
    decreases snaps.len(),
{
    if i == snaps.len() {
        assert(snaps.take(i) =~= snaps);
    } else {
        lemma_tally_prefix(snaps.drop_last(), i);
        assert(snaps.drop_last().take(i) =~= snaps.take(i));
    }
}

/// A time window adds up to no more than the queue it is taken from, and to
/// well-formed totals where the snapshots are well formed.
pub proof fn lemma_window_within(snaps: Seq<RunSnapshot>, now: Instant, days: int)
    ensures
        tally_of(window(snaps, now, days)).within(tally_of(snaps)),
        window(snaps, now, days).len() <= snaps.len(),
        forall|i: int|
            0 <= i < window(snaps, now, days).len() ==> exists|j: int|
                0 <= j < snaps.len() && snaps[j] == #[trigger] window(snaps, now, days)[i],
    decreases snaps.len(),
{
    if snaps.len() > 0 {
        let front = snaps.drop_last();
        lemma_window_within(front, now, days);
        let w = window(snaps, now, days);
        let wf = window(front, now, days);
        if snaps.last().completed_at.within_days(now, days) {
            assert(w.drop_last() =~= wf);
        }
        assert forall|i: int| 0 <= i < w.len() implies exists|j: int|
            0 <= j < snaps.len() && snaps[j] == #[trigger] w[i] by {
            if i < wf.len() {
                assert(w[i] == wf[i]);
                let j = choose|j: int| 0 <= j < front.len() && front[j] == wf[i];
                assert(snaps[j] == w[i]);
            } else {
                assert(snaps[snaps.len() - 1] == w[i]);
            }
        }
    }
}

/// Well-formed snapshots add up to totals in which no more steps failed or
/// were skipped than were executed, and in which at most one approval of each
/// kind is counted per snapshot.
pub proof fn lemma_tally_of_wf(snaps: Seq<RunSnapshot>)
    requires
        forall|i: int| 0 <= i < snaps.len() ==> (#[trigger] snaps[i]).wf(),
    ensures
        tally_of(snaps).steps_failed + tally_of(snaps).steps_skipped <= tally_of(
            snaps,
        ).steps_executed,
        tally_of(snaps).human_approvals <= snaps.len(),
        tally_of(snaps).timeout_auto_approvals <= snaps.len(),
        tally_of(snaps).runs() <= snaps.len(),
    decreases snaps.len(),
{
    if snaps.len() > 0 {
        let front = snaps.drop_last();
        assert forall|i: int| 0 <= i < front.len() implies (#[trigger] front[i]).wf() by {
            assert(front[i] == snaps[i]);
        }
        lemma_tally_of_wf(front);
        assert(snaps.last().wf());
    }
}

/// Counting one more snapshot, at the end of the queue.
pub proof fn lemma_tally_push(snaps: Seq<RunSnapshot>, snap: RunSnapshot)
    ensures
        tally_of(snaps.push(snap)) == tally_of(snaps).with_flagged_run(snap),
{
    assert(snaps.push(snap).drop_last() =~= snaps);
}

/// Dropping the oldest snapshot takes its counts out of what the queue adds up to.
pub proof fn lemma_tally_drop_first(snaps: Seq<RunSnapshot>)
    requires
        snaps.len() > 0,
    ensures
        tally_of(snaps.drop_first()).within(tally_of(snaps)),
    decreases snaps.len(),
{
    if snaps.len() == 1 {
        assert(snaps.drop_first() =~= Seq::empty());
    } else {
        lemma_tally_drop_first(snaps.drop_last());
        assert(snaps.drop_first().drop_last() =~= snaps.drop_last().drop_first());
        assert(snaps.drop_first().last() == snaps.last());
    }
}

/// One counter.
pub struct SopCounters {
    totals: Totals,
    recent_runs: VecDeque<RunSnapshot>,
}

impl View for SopCounters {
    type V = CountersView;

    closed spec fn view(&self) -> CountersView {
        CountersView { tally: self.totals@, recent: self.recent_runs@ }
    }
}

impl SopCounters {
    /// A counter that has counted nothing.
    pub fn new() -> (r: SopCounters)
        ensures
            r@ == CountersView::zero(),
            r@.wf(),
    {
        let r = SopCounters { totals: Totals::zero(), recent_runs: VecDeque::new() };
        assert(r@.recent =~= Seq::empty());
        r
    }

    /// The totals since the start.
    pub fn totals(&self) -> (r: Totals)
        ensures
            r@ == self@.tally,
    {
        self.totals
    }

    /// How many snapshots are kept.
    pub fn recent_runs_depth(&self) -> (r: usize)
        ensures
            r == self@.recent.len(),
    {
        self.recent_runs.len()
    }

    /// Counts an ended run and keeps its snapshot; the oldest snapshot leaves
    /// where more than `MAX_RECENT_RUNS` are kept.
    pub fn apply_run(&mut self, snap: &RunSnapshot)
        requires
            old(self)@.wf(),
            snap.wf(),
            old(self)@.tally.has_room(*snap),
        ensures
            final(self)@ == old(self)@.with_run(*snap),
            final(self)@.wf(),
            old(self)@.within_plan() && snap.within_plan() ==> final(self)@.within_plan(),
    {
        self.totals.add_run(snap);
        self.recent_runs.push_back(*snap);
        proof {
            lemma_tally_push(old(self)@.recent, *snap);
        }
        if self.recent_runs.len() > MAX_RECENT_RUNS {
            proof {
                lemma_tally_drop_first(self@.recent);
            }
            let _ = self.recent_runs.pop_front();
        }
        proof {
            let pushed = old(self)@.recent.push(*snap);
            assert forall|i: int| 0 <= i < self@.recent.len() implies (
            #[trigger] self@.recent[i]).wf() by {
                if self@.recent.len() == pushed.len() {
                    assert(self@.recent[i] == pushed[i]);
                } else {
                    assert(self@.recent[i] == pushed[i + 1]);
                }
            }
            if old(self)@.within_plan() && snap.within_plan() {
                assert forall|i: int| 0 <= i < self@.recent.len() implies (
                #[trigger] self@.recent[i]).within_plan() by {
                    if self@.recent.len() == pushed.len() {
                        assert(self@.recent[i] == pushed[i]);
                    } else {
                        assert(self@.recent[i] == pushed[i + 1]);
                    }
                }
            }
        }
    }

    /// Counts one more human approval.
    pub fn add_human_approval(&mut self)
        requires
            old(self)@.wf(),
            old(self)@.tally.human_approvals < u64::MAX,
        ensures
            final(self)@ == (CountersView {
                tally: old(self)@.tally.with_human_approval(),
                ..old(self)@
            }),
            final(self)@.wf(),
            old(self)@.within_plan() ==> final(self)@.within_plan(),
    {
        self.totals.human_approvals = self.totals.human_approvals + 1;
    }

    /// Counts one more approval that fired on a timeout.
    pub fn add_timeout_approval(&mut self)
        requires
            old(self)@.wf(),
            old(self)@.tally.timeout_auto_approvals < u64::MAX,
        ensures
            final(self)@ == (CountersView {
                tally: old(self)@.tally.with_timeout_approval(),
                ..old(self)@
            }),
            final(self)@.wf(),
            old(self)@.within_plan() ==> final(self)@.within_plan(),
    {
        self.totals.timeout_auto_approvals = self.totals.timeout_auto_approvals + 1;
    }

    /// The value of a metric over the totals since the start.
    pub fn resolve_alltime(&self, metric: &str) -> (r: Option<MetricValue>)
        requires
            self@.wf(),
        ensures
            r == metric_value(self@.tally, metric@),
    {
        self.totals.metric(metric)
    }

    /// The totals of the snapshots that ended within `days` days before `now`.
    pub fn window_totals(&self, days: u32, now: Instant) -> (r: Totals)
        requires
            self@.wf(),
        ensures
            r@ == tally_of(window(self@.recent, now, days as int)),
            r@.wf(),
    {
        let ghost all = self@.recent;
        let mut acc = Totals::zero();
        let mut i: usize = 0;
        assert(window(all.take(0), now, days as int) =~= Seq::empty());
        while i < self.recent_runs.len()
            invariant
                i <= self.recent_runs.len(),
                all == self@.recent,
                self@.wf(),
                acc@ == tally_of(window(all.take(i as int), now, days as int)),
            decreases self.recent_runs.len() - i,
        {
            let snap = self.recent_runs[i];
            proof {
                let seen = all.take(i as int);
                let grown = all.take(i + 1);
                assert(grown.drop_last() =~= seen);
                assert(grown.last() == snap);
                lemma_window_within(grown, now, days as int);
                lemma_tally_prefix(all, i + 1);
                lemma_tally_of_wf(all);
                assert(snap.wf());
                if snap.completed_at.within_days(now, days as int) {
                    lemma_tally_push(window(seen, now, days as int), snap);
                }
            }
            if within_days(snap.completed_at, now, days) {
                match snap.terminal_status {
                    SopRunStatus::Completed => {
                        acc.runs_completed = acc.runs_completed + 1;
                    },
                    SopRunStatus::Failed => {
                        acc.runs_failed = acc.runs_failed + 1;
                    },
                    SopRunStatus::Cancelled => {
                        acc.runs_cancelled = acc.runs_cancelled + 1;
                    },
                    _ => {},
                }
                acc.steps_executed = acc.steps_executed + snap.steps_executed;
                acc.steps_defined = acc.steps_defined + snap.steps_defined;
                acc.steps_failed = acc.steps_failed + snap.steps_failed;
                acc.steps_skipped = acc.steps_skipped + snap.steps_skipped;
                if snap.had_human_approval {
                    acc.human_approvals = acc.human_approvals + 1;
                }
                if snap.had_timeout_approval {
                    acc.timeout_auto_approvals = acc.timeout_auto_approvals + 1;
                }
            }
            i += 1;
        }
        proof {
            assert(all.take(all.len() as int) =~= all);
            let w = window(all, now, days as int);
            lemma_window_within(all, now, days as int);
            assert forall|k: int| 0 <= k < w.len() implies (#[trigger] w[k]).wf() by {
                let j = choose|j: int| 0 <= j < all.len() && all[j] == w[k];
                assert(all[j].wf());
            }
            lemma_tally_of_wf(w);
        }
        acc
    }

    /// The value of a metric over the snapshots that ended within `days` days
    /// before `now`.
    pub fn resolve_windowed(&self, metric: &str, days: u32, now: Instant) -> (r: Option<
        MetricValue,
    >)
        requires
            self@.wf(),
        ensures
            r == metric_value(tally_of(window(self@.recent, now, days as int)), metric@),
    {
        let totals = self.window_totals(days, now);
        totals.metric(metric)
    }

    /// The value of the metric `suffix` at `now`: a name that ends in `_7d`,
    /// `_30d` or `_90d` is answered over that time window, any other over the
    /// totals since the start.
    pub fn resolve_metric(&self, suffix: &str, now: Instant) -> (r: Option<MetricValue>)
        requires
            self@.wf(),
        ensures
            r == self@.resolve(suffix@, now),
    {
        proof {
            reveal_strlit("_7d");
            reveal_strlit("_30d");
            reveal_strlit("_90d");
        }
        match strip_suffix(suffix, "_7d") {
            Some(base) => self.resolve_windowed(base, 7, now),
            None => match strip_suffix(suffix, "_30d") {
                Some(base) => self.resolve_windowed(base, 30, now),
                None => match strip_suffix(suffix, "_90d") {
                    Some(base) => self.resolve_windowed(base, 90, now),
                    None => self.resolve_alltime(suffix),
                },
            },
        }
    }
}

} // verus!
