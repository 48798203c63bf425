//! The metrics as mathematical values: instants, snapshots of ended runs,
//! tallies, and the value each metric name stands for.

use vstd::prelude::*;
use crate::text::ends_with;
use crate::types::{count_status, SopRunStatus, SopRunView, SopStepStatus};

verus! {

/// Most snapshots of ended runs that one counter keeps for its time windows.
pub const MAX_RECENT_RUNS: usize = 1000;

/// A pending approval older than this many seconds is dropped.
pub const PENDING_EVICT_SECS: u64 = 3600;

/// An instant: whole seconds since the epoch, and the nanoseconds into that second.
#[derive(Clone, Copy, Debug, PartialEq, Eq, Structural)]
pub struct Instant {
    pub secs: i64,
    pub nanos: u32,
}

impl Instant {
    /// The nanoseconds from the epoch to the instant.
    pub open spec fn total_nanos(self) -> int {
        self.secs * 1_000_000_000 + self.nanos
    }

    /// Does the instant lie at or after the one `days` days before `now`?
    pub open spec fn within_days(self, now: Instant, days: int) -> bool {
        let cutoff = now.secs - days * 86400;
        self.secs > cutoff || (self.secs == cutoff && self.nanos >= now.nanos)
    }

    /// Has a time of `limit` seconds or more passed at `now` since the instant?
    pub open spec fn older_than(self, now: Instant, limit: int) -> bool {
        now.total_nanos() - self.total_nanos() >= limit * 1_000_000_000
    }
}

/// What the counters keep of an ended run.
#[derive(Clone, Copy, Debug, PartialEq, Eq, Structural)]
pub struct RunSnapshot {
    pub completed_at: Instant,
    pub terminal_status: SopRunStatus,
    pub steps_executed: u64,
    pub steps_defined: u64,
    pub steps_failed: u64,
    pub steps_skipped: u64,
    pub had_human_approval: bool,
    pub had_timeout_approval: bool,
}

impl RunSnapshot {
    /// No more steps failed or were skipped than were executed.
    pub open spec fn wf(self) -> bool {
        self.steps_failed + self.steps_skipped <= self.steps_executed
    }

    /// No more steps were executed than the procedure defines.
    pub open spec fn within_plan(self) -> bool {
        self.steps_executed <= self.steps_defined
    }
}

/// The snapshot of `run`, with the two approval flags given and with `at` as
/// the instant it ended.
pub open spec fn snapshot_of(
    run: SopRunView,
    human: bool,
    timeout: bool,
    at: Instant,
) -> RunSnapshot {
    RunSnapshot {
        completed_at: at,
        terminal_status: run.status,
        steps_executed: run.step_results.len() as u64,
        steps_defined: run.total_steps as u64,
        steps_failed: count_status(run.step_results, SopStepStatus::Failed) as u64,
        steps_skipped: count_status(run.step_results, SopStepStatus::Skipped) as u64,
        had_human_approval: human,
        had_timeout_approval: timeout,
    }
}

/// Nine totals.
pub struct Tally {
    pub runs_completed: nat,
    pub runs_failed: nat,
    pub runs_cancelled: nat,
    pub steps_executed: nat,
    pub steps_defined: nat,
    pub steps_failed: nat,
    pub steps_skipped: nat,
    pub human_approvals: nat,
    pub timeout_auto_approvals: nat,
}

impl Tally {
    /// All totals zero.
    pub open spec fn zero() -> Tally {
        Tally {
            runs_completed: 0,
            runs_failed: 0,
            runs_cancelled: 0,
            steps_executed: 0,
            steps_defined: 0,
            steps_failed: 0,
            steps_skipped: 0,
            human_approvals: 0,
            timeout_auto_approvals: 0,
        }
    }

    /// The number of ended runs.
    pub open spec fn runs(self) -> nat {
        self.runs_completed + self.runs_failed + self.runs_cancelled
    }

    /// The tally with the run and step counts of `snap` added. The approval
    /// totals stay: approvals are counted when they are given.
    pub open spec fn with_run(self, snap: RunSnapshot) -> Tally {
        Tally {
            runs_completed: self.runs_completed + if snap.terminal_status
                == SopRunStatus::Completed {
                1nat
            } else {
                0nat
            },
            runs_failed: self.runs_failed + if snap.terminal_status == SopRunStatus::Failed {
                1nat
            } else {
                0nat
            },
            runs_cancelled: self.runs_cancelled + if snap.terminal_status
                == SopRunStatus::Cancelled {
                1nat
            } else {
                0nat
            },
            steps_executed: self.steps_executed + snap.steps_executed as nat,
            steps_defined: self.steps_defined + snap.steps_defined as nat,
            steps_failed: self.steps_failed + snap.steps_failed as nat,
            steps_skipped: self.steps_skipped + snap.steps_skipped as nat,
            ..self
        }
    }

    /// The tally with the approval flags of `snap` counted as well.
    pub open spec fn with_flagged_run(self, snap: RunSnapshot) -> Tally {
        Tally {
            human_approvals: self.human_approvals + if snap.had_human_approval {
                1nat
            } else {
                0nat
            },
            timeout_auto_approvals: self.timeout_auto_approvals + if snap.had_timeout_approval {
                1nat
            } else {
                0nat
            },
            ..self.with_run(snap)
        }
    }

    /// The tally with one more human approval.
    pub open spec fn with_human_approval(self) -> Tally {
        Tally { human_approvals: self.human_approvals + 1, ..self }
    }

    /// The tally with one more approval that fired on a timeout.
    pub open spec fn with_timeout_approval(self) -> Tally {
        Tally { timeout_auto_approvals: self.timeout_auto_approvals + 1, ..self }
    }

    /// Every run and step total of `self` is at most that of `other`.
    pub open spec fn runs_within(self, other: Tally) -> bool {
        &&& self.runs_completed <= other.runs_completed
        &&& self.runs_failed <= other.runs_failed
        &&& self.runs_cancelled <= other.runs_cancelled
        &&& self.steps_executed <= other.steps_executed
        &&& self.steps_defined <= other.steps_defined
        &&& self.steps_failed <= other.steps_failed
        &&& self.steps_skipped <= other.steps_skipped
    }

    /// Every total of `self` is at most that of `other`.
    pub open spec fn within(self, other: Tally) -> bool {
        &&& self.runs_within(other)
        &&& self.human_approvals <= other.human_approvals
        &&& self.timeout_auto_approvals <= other.timeout_auto_approvals
    }

    /// The totals fit 64 bits, the number of ended runs does, and no more
    /// steps failed or were skipped than were executed.
    pub open spec fn wf(self) -> bool {
        &&& self.runs() <= u64::MAX
        &&& self.steps_executed <= u64::MAX
        &&& self.steps_defined <= u64::MAX
        &&& self.steps_failed + self.steps_skipped <= self.steps_executed
        &&& self.human_approvals <= u64::MAX
        &&& self.timeout_auto_approvals <= u64::MAX
    }

    /// There is room in 64 bits for the run and step counts of `snap`.
    pub open spec fn has_room(self, snap: RunSnapshot) -> bool {
        &&& self.runs() + 1 <= u64::MAX
        &&& self.steps_executed + snap.steps_executed <= u64::MAX
        &&& self.steps_defined + snap.steps_defined <= u64::MAX
    }
}

/// The tally of the snapshots in `snaps`, their approval flags counted.
pub open spec fn tally_of(snaps: Seq<RunSnapshot>) -> Tally
    decreases snaps.len(),
{
    if snaps.len() == 0 {
        Tally::zero()
    } else {
        tally_of(snaps.drop_last()).with_flagged_run(snaps.last())
    }
}

/// The snapshots of `snaps` that ended within `days` days before `now`.
pub open spec fn window(snaps: Seq<RunSnapshot>, now: Instant, days: int) -> Seq<RunSnapshot>
    decreases snaps.len(),
{
    if snaps.len() == 0 {
        Seq::empty()
    } else if snaps.last().completed_at.within_days(now, days) {
        window(snaps.drop_last(), now, days).push(snaps.last())
    } else {
        window(snaps.drop_last(), now, days)
    }
}

/// The value of a metric: a count, or a rate as a fraction whose denominator
/// is at least one.
#[derive(Clone, Copy, Debug, PartialEq, Eq, Structural)]
pub enum MetricValue {
    Count(u64),
    Rate { numerator: u64, denominator: u64 },
}

impl MetricValue {
    /// Does the value, where it is a rate, lie between zero and one?
    pub open spec fn in_unit_interval(self) -> bool {
        match self {
            MetricValue::Count(_) => true,
            MetricValue::Rate { numerator, denominator } => numerator <= denominator,
        }
    }
}

/// The rate `numerator / denominator`, or zero where the denominator is zero.
pub open spec fn rate_or_zero(numerator: nat, denominator: nat) -> MetricValue {
    if denominator == 0 {
        MetricValue::Rate { numerator: 0, denominator: 1 }
    } else {
        MetricValue::Rate { numerator: numerator as u64, denominator: denominator as u64 }
    }
}

/// The rate `numerator / max(1, denominator)`.
pub open spec fn rate_per(numerator: nat, denominator: nat) -> MetricValue {
    MetricValue::Rate {
        numerator: numerator as u64,
        denominator: if denominator == 0 {
            1
        } else {
            denominator as u64
        },
    }
}

/// The value of the metric called `metric` over the totals of `t`; `None`
/// where no metric has that name.
pub open spec fn metric_value(t: Tally, metric: Seq<char>) -> Option<MetricValue> {
    if metric == "runs_completed"@ {
        Some(MetricValue::Count(t.runs_completed as u64))
    } else if metric == "runs_failed"@ {
        Some(MetricValue::Count(t.runs_failed as u64))
    } else if metric == "runs_cancelled"@ {
        Some(MetricValue::Count(t.runs_cancelled as u64))
    } else if metric == "deviation_rate"@ {
        Some(rate_or_zero(t.steps_failed + t.steps_skipped, t.steps_executed))
    } else if metric == "protocol_adherence_rate"@ {
        Some(
            rate_or_zero(
                if t.steps_executed >= t.steps_failed + t.steps_skipped {
                    (t.steps_executed - t.steps_failed - t.steps_skipped) as nat
                } else {
                    0
                },
                t.steps_defined,
            ),
        )
    } else if metric == "human_intervention_count"@ {
        Some(MetricValue::Count(t.human_approvals as u64))
    } else if metric == "human_intervention_rate"@ {
        Some(rate_per(t.human_approvals, t.runs_completed))
    } else if metric == "timeout_auto_approvals"@ {
        Some(MetricValue::Count(t.timeout_auto_approvals as u64))
    } else if metric == "timeout_approval_rate"@ {
        Some(rate_per(t.timeout_auto_approvals, t.runs_completed))
    } else if metric == "completion_rate"@ {
        Some(rate_per(t.runs_completed, t.runs()))
    } else {
        None
    }
}

/// A metric name parted into the name proper and the days of its time
/// window: the name ends in `_7d`, `_30d` or `_90d`, or has no window.
pub open spec fn split_window(suffix: Seq<char>) -> (Seq<char>, Option<int>) {
    if ends_with(suffix, "_7d"@) {
        (suffix.take(suffix.len() - "_7d"@.len()), Some(7int))
    } else if ends_with(suffix, "_30d"@) {
        (suffix.take(suffix.len() - "_30d"@.len()), Some(30int))
    } else if ends_with(suffix, "_90d"@) {
        (suffix.take(suffix.len() - "_90d"@.len()), Some(90int))
    } else {
        (suffix, None)
    }
}

/// One counter: its totals since the start, and the snapshots of the last
/// ended runs, oldest first.
pub struct CountersView {
    pub tally: Tally,
    pub recent: Seq<RunSnapshot>,
}

impl CountersView {
    /// A counter that has counted nothing.
    pub open spec fn zero() -> CountersView {
        CountersView { tally: Tally::zero(), recent: Seq::empty() }
    }

    /// The counter is well formed: its totals are, it keeps at most
    /// `MAX_RECENT_RUNS` snapshots, each of them well formed, and what they
    /// add up to is within the totals.
    pub open spec fn wf(self) -> bool {
        &&& self.tally.wf()
        &&& self.recent.len() <= MAX_RECENT_RUNS
        &&& forall|i: int| 0 <= i < self.recent.len() ==> (#[trigger] self.recent[i]).wf()
        &&& tally_of(self.recent).runs_within(self.tally)
    }

    /// No run that was counted had more step results than its procedure has steps.
    pub open spec fn within_plan(self) -> bool {
        &&& self.tally.steps_executed <= self.tally.steps_defined
        &&& forall|i: int| 0 <= i < self.recent.len() ==> (#[trigger] self.recent[i]).within_plan()
    }

    /// The counter with `snap` counted and kept; the oldest snapshot leaves
    /// where there are more than `MAX_RECENT_RUNS`.
    pub open spec fn with_run(self, snap: RunSnapshot) -> CountersView {
        let pushed = self.recent.push(snap);
        CountersView {
            tally: self.tally.with_run(snap),
            recent: if pushed.len() > MAX_RECENT_RUNS {
                pushed.drop_first()
            } else {
                pushed
            },
        }
    }

    /// The value of the metric `suffix` at `now`: over the totals since the
    /// start, or over the snapshots in its time window where it names one.
    pub open spec fn resolve(self, suffix: Seq<char>, now: Instant) -> Option<MetricValue> {
        let (base, days) = split_window(suffix);
        match days {
            Some(d) => metric_value(tally_of(window(self.recent, now, d)), base),
            None => metric_value(self.tally, base),
        }
    }
}

} // verus!
