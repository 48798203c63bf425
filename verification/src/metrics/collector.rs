//! The aggregator: one counter for all procedures and one for each of them,
//! fed by approvals and ended runs and queried by dotted metric name.

use vstd::prelude::*;
use vstd::string::*;
use crate::lookup::{
    distinct, first_index, lemma_first_index, lemma_first_index_is, lemma_first_index_none,
};
use crate::metrics::counters::{SopCounters, Totals};
use crate::metrics::model::{snapshot_of, CountersView, Instant, MetricValue, RunSnapshot};
use crate::metrics::pending::{
    fresh, holds, pending_wf, put, without, PendingApprovals, PendingView,
};
use crate::metrics::time::{completed_instant, now_instant, parse_completed_at};
use crate::text::{starts_with, strip_prefix};
use crate::types::{
    count_status, SopRun, SopRunView, SopStepResult, SopStepResultView, SopStepStatus,
};

verus! {

/// The state of the aggregator.
pub struct CollectorView {
    /// The counter over all procedures.
    pub global: CountersView,
    /// The counter of each procedure that was counted, by its name.
    pub per_sop: Seq<(Seq<char>, CountersView)>,
    /// The human approvals whose run has not ended.
    pub pending_approvals: PendingView,
    /// The approvals that fired on a timeout and whose run has not ended.
    pub pending_timeout_approvals: PendingView,
}

/// The names of the procedures that have a counter.
pub open spec fn sop_keys(per_sop: Seq<(Seq<char>, CountersView)>) -> Seq<Seq<char>> {
    Seq::new(per_sop.len(), |i: int| per_sop[i].0)
}

/// The instant a run ended at: what its completion time says, or `now` where
/// it has none or one that cannot be read.
pub open spec fn ended_at(run: SopRunView, now: Instant) -> Instant {
    match run.completed_at {
        Some(ts) => match completed_instant(ts) {
            Some(at) => at,
            None => now,
        },
        None => now,
    }
}

/// Does `name` name a procedure in the metric name `rest`: is `rest` the
/// name, a dot and more?
pub open spec fn names_sop(name: Seq<char>, rest: Seq<char>) -> bool {
    name.len() > 0 && rest.len() > name.len() && name.is_prefix_of(rest) && rest[name.len() as int]
        == '.'
}

/// `names[k]` names a procedure in `rest`, and no name that does is longer.
pub open spec fn is_longest_match(names: Seq<Seq<char>>, rest: Seq<char>, k: int) -> bool {
    &&& 0 <= k < names.len()
    &&& names_sop(names[k], rest)
    &&& forall|j: int|
        0 <= j < names.len() && names_sop(#[trigger] names[j], rest) ==> names[j].len()
            <= names[k].len()
}

/// The place of the longest name that names a procedure in `rest`.
pub open spec fn longest_match(names: Seq<Seq<char>>, rest: Seq<char>) -> Option<int> {
    if exists|k: int| is_longest_match(names, rest, k) {
        Some(choose|k: int| is_longest_match(names, rest, k))
    } else {
        None
    }
}

/// Among distinct names, only one is the longest that names a procedure in `rest`.
pub proof fn lemma_longest_match_is(names: Seq<Seq<char>>, rest: Seq<char>, k: int)
    requires
        distinct(names),
        is_longest_match(names, rest, k),
    ensures
        longest_match(names, rest) == Some(k),
{
    let found = choose|k: int| is_longest_match(names, rest, k);
    assert(names[found].len() == names[k].len());
    assert(names[found] =~= names[k]);
}

impl CollectorView {
    /// The state of an aggregator that has counted nothing.
    pub open spec fn empty() -> CollectorView {
        CollectorView {
            global: CountersView::zero(),
            per_sop: Seq::empty(),
            pending_approvals: Seq::empty(),
            pending_timeout_approvals: Seq::empty(),
        }
    }

    /// The counter of the procedure `name`; one that has counted nothing
    /// where the procedure was never counted.
    pub open spec fn counters_of(self, name: Seq<char>) -> CountersView {
        match first_index(sop_keys(self.per_sop), name) {
            Some(k) => self.per_sop[k].1,
            None => CountersView::zero(),
        }
    }

    /// The per-procedure counters with `counters` as the counter of `name`.
    pub open spec fn with_counters(self, name: Seq<char>, counters: CountersView) -> Seq<
        (Seq<char>, CountersView),
    > {
        match first_index(sop_keys(self.per_sop), name) {
            Some(k) => self.per_sop.update(k, (name, counters)),
            None => self.per_sop.push((name, counters)),
        }
    }

    /// The state is well formed: every counter is, no procedure has two
    /// counters, no counter of a procedure exceeds the counter over all, and
    /// no run has two pending approvals of one kind.
    pub open spec fn wf(self) -> bool {
        &&& self.global.wf()
        &&& distinct(sop_keys(self.per_sop))
        &&& forall|k: int|
            0 <= k < self.per_sop.len() ==> (#[trigger] self.per_sop[k]).1.wf()
                && self.per_sop[k].1.tally.within(self.global.tally)
        &&& pending_wf(self.pending_approvals)
        &&& pending_wf(self.pending_timeout_approvals)
    }

    /// No run that was counted had more step results than its procedure has steps.
    pub open spec fn within_plan(self) -> bool {
        &&& self.global.within_plan()
        &&& forall|k: int|
            0 <= k < self.per_sop.len() ==> (#[trigger] self.per_sop[k]).1.within_plan()
    }

    /// The state with one more human approval counted, for all procedures
    /// and for the procedure `sop_name`.
    pub open spec fn approved(self, sop_name: Seq<char>) -> CollectorView {
        CollectorView {
            global: CountersView { tally: self.global.tally.with_human_approval(), ..self.global },
            per_sop: self.with_counters(
                sop_name,
                CountersView {
                    tally: self.counters_of(sop_name).tally.with_human_approval(),
                    ..self.counters_of(sop_name)
                },
            ),
            ..self
        }
    }

    /// The state with one more approval that fired on a timeout counted, for
    /// all procedures and for the procedure `sop_name`.
    pub open spec fn timeout_approved(self, sop_name: Seq<char>) -> CollectorView {
        CollectorView {
            global: CountersView {
                tally: self.global.tally.with_timeout_approval(),
                ..self.global
            },
            per_sop: self.with_counters(
                sop_name,
                CountersView {
                    tally: self.counters_of(sop_name).tally.with_timeout_approval(),
                    ..self.counters_of(sop_name)
                },
            ),
            ..self
        }
    }

    /// The state with the snapshot of an ended run counted and kept, for all
    /// procedures and for the procedure `sop_name`.
    pub open spec fn counted(self, snap: RunSnapshot, sop_name: Seq<char>) -> CollectorView {
        CollectorView {
            global: self.global.with_run(snap),
            per_sop: self.with_counters(sop_name, self.counters_of(sop_name).with_run(snap)),
            ..self
        }
    }

    /// What recording a human approval at `now` makes of the state.
    pub open spec fn record_approval(
        self,
        sop_name: Seq<char>,
        run_id: Seq<char>,
        now: Instant,
    ) -> CollectorView {
        CollectorView {
            pending_approvals: put(self.pending_approvals, run_id, now),
            ..self.approved(sop_name)
        }
    }

    /// What recording an approval that fired on a timeout at `now` makes of the state.
    pub open spec fn record_timeout_auto_approve(
        self,
        sop_name: Seq<char>,
        run_id: Seq<char>,
        now: Instant,
    ) -> CollectorView {
        CollectorView {
            pending_timeout_approvals: put(self.pending_timeout_approvals, run_id, now),
            ..self.timeout_approved(sop_name)
        }
    }

    /// The snapshot that is counted for `run` when it is recorded at `now`:
    /// it is flagged with the approvals of the run that are pending and fresh.
    pub open spec fn snapshot_for(self, run: SopRunView, now: Instant) -> RunSnapshot {
        snapshot_of(
            run,
            holds(fresh(self.pending_approvals, now), run.run_id),
            holds(fresh(self.pending_timeout_approvals, now), run.run_id),
            ended_at(run, now),
        )
    }

    /// What recording an ended run at `now` makes of the state: stale pending
    /// approvals go, those of the run are taken out and flag its snapshot,
    /// and the snapshot is counted for all procedures and for its own.
    pub open spec fn record_run_complete(self, run: SopRunView, now: Instant) -> CollectorView {
        CollectorView {
            pending_approvals: without(fresh(self.pending_approvals, now), run.run_id),
            pending_timeout_approvals: without(
                fresh(self.pending_timeout_approvals, now),
                run.run_id,
            ),
            ..self.counted(self.snapshot_for(run, now), run.sop_name)
        }
    }

    /// There is room in 64 bits to count `run`.
    pub open spec fn room_for(self, run: SopRunView) -> bool {
        &&& self.global.tally.runs() + 1 <= u64::MAX
        &&& self.global.tally.steps_executed + run.step_results.len() <= u64::MAX
        &&& self.global.tally.steps_defined + run.total_steps <= u64::MAX
    }

    /// The value of the metric called `name` at `now`.
    ///
    /// A name is `sop.`, then a metric, or a procedure name, a dot and a
    /// metric. The metric is first looked for over all procedures; where there
    /// is none of that name, the longest procedure name that the rest begins
    /// with and that a dot follows decides whose counter answers.
    pub open spec fn query(self, name: Seq<char>, now: Instant) -> Option<MetricValue> {
        if !"sop."@.is_prefix_of(name) {
            None
        } else {
            let rest = name.skip("sop."@.len() as int);
            match self.global.resolve(rest, now) {
                Some(v) => Some(v),
                None => match longest_match(sop_keys(self.per_sop), rest) {
                    Some(k) => self.per_sop[k].1.resolve(
                        rest.skip(self.per_sop[k].0.len() as int + 1),
                        now,
                    ),
                    None => None,
                },
            }
        }
    }
}

/// Of the results of a run no more failed or were skipped than there are.
pub proof fn lemma_count_status(results: Seq<SopStepResultView>)
    ensures
        count_status(results, SopStepStatus::Failed) + count_status(
            results,
            SopStepStatus::Skipped,
        ) <= results.len(),
    decreases results.len(),
{
    if results.len() > 0 {
        lemma_count_status(results.drop_last());
    }
}

/// How many of `results` have `status`.
fn count_results(results: &Vec<SopStepResult>, status: SopStepStatus) -> (r: u64)
    ensures
        r == count_status(results.deep_view(), status),
{
    let ghost all = results.deep_view();
    let mut count: u64 = 0;
    let mut i: usize = 0;
    while i < results.len()
        invariant
            i <= results.len(),
            all == results.deep_view(),
            count == count_status(all.take(i as int), status),
            count <= i,
        decreases results.len() - i,
    {
        proof {
            assert(all.take(i + 1).drop_last() =~= all.take(i as int));
            assert(all.take(i + 1).last() == results[i as int]@);
        }
        if results[i].status == status {
            count += 1;
        }
        i += 1;
    }
    assert(all.take(results.len() as int) =~= all);
    count
}

/// The snapshot of an ended run, with `at` as the instant it ended.
pub fn snapshot_at(run: &SopRun, had_human: bool, had_timeout: bool, at: Instant) -> (r:
    RunSnapshot)
    ensures
        r == snapshot_of(run@, had_human, had_timeout, at),
        r.wf(),
        run@.step_results.len() <= run@.total_steps ==> r.within_plan(),
{
    proof {
        lemma_count_status(run@.step_results);
    }
    RunSnapshot {
        completed_at: at,
        terminal_status: run.status,
        steps_executed: run.step_results.len() as u64,
        steps_defined: run.total_steps as u64,
        steps_failed: count_results(&run.step_results, SopStepStatus::Failed),
        steps_skipped: count_results(&run.step_results, SopStepStatus::Skipped),
        had_human_approval: had_human,
        had_timeout_approval: had_timeout,
    }
}

/// The snapshot of an ended run: it ended at the instant its completion time
/// says, or at `now` where it has none or one that cannot be read.
pub fn build_snapshot(run: &SopRun, had_human: bool, had_timeout: bool, now: Instant) -> (r:
    RunSnapshot)
    ensures
        r == snapshot_of(run@, had_human, had_timeout, ended_at(run@, now)),
        r.wf(),
        run@.step_results.len() <= run@.total_steps ==> r.within_plan(),
{
    let at = match &run.completed_at {
        Some(ts) => match parse_completed_at(ts.as_str()) {
            Some(at) => at,
            None => now,
        },
        None => now,
    };
    snapshot_at(run, had_human, had_timeout, at)
}

/// The counter of one procedure, under its name.
pub struct NamedCounters {
    pub name: String,
    pub counters: SopCounters,
}

impl DeepView for NamedCounters {
    type V = (Seq<char>, CountersView);

    open spec fn deep_view(&self) -> (Seq<char>, CountersView) {
        (self.name@, self.counters@)
    }
}

/// The aggregator.
pub struct SopMetricsCollector {
    global: SopCounters,
    per_sop: Vec<NamedCounters>,
    pending_approvals: PendingApprovals,
    pending_timeout_approvals: PendingApprovals,
}

impl View for SopMetricsCollector {
    type V = CollectorView;

    closed spec fn view(&self) -> CollectorView {
        CollectorView {
            global: self.global@,
            per_sop: self.per_sop.deep_view(),
            pending_approvals: self.pending_approvals@,
            pending_timeout_approvals: self.pending_timeout_approvals@,
        }
    }
}

/// The place of the counter of the procedure `name`.
fn find_counters(per_sop: &Vec<NamedCounters>, name: &str) -> (r: Option<usize>)
    ensures
        r is Some == first_index(sop_keys(per_sop.deep_view()), name@) is Some,
        r is Some ==> r->0 == first_index(sop_keys(per_sop.deep_view()), name@)->0,
        r is Some ==> r->0 < per_sop.len(),
{
    let ghost keys = sop_keys(per_sop.deep_view());
    let mut i: usize = 0;
    while i < per_sop.len()
        invariant
            i <= per_sop.len(),
            keys == sop_keys(per_sop.deep_view()),
            forall|j: int| 0 <= j < i ==> keys[j] != name@,
        decreases per_sop.len() - i,
    {
        if *per_sop[i].name.as_str() == *name {
            proof {
                lemma_first_index_is(keys, name@, i as int);
            }
            return Some(i);
        }
        i += 1;
    }
    proof {
        lemma_first_index_none(keys, name@);
    }
    None
}

/// Takes the counter of the procedure `name` out of `per_sop`, or makes one
/// that has counted nothing where there is none; with it comes the place it
/// goes back to.
fn take_counters(per_sop: &mut Vec<NamedCounters>, name: &str) -> (r: (usize, NamedCounters))
    ensures
        r.1.name@ == name@,
        r.0 <= final(per_sop).len(),
        match first_index(sop_keys(old(per_sop).deep_view()), name@) {
            Some(k) => {
                &&& r.0 == k
                &&& r.1.deep_view() == old(per_sop).deep_view()[k]
                &&& final(per_sop).deep_view() == old(per_sop).deep_view().remove(k)
            },
            None => {
                &&& r.0 == old(per_sop).len()
                &&& r.1.counters@ == CountersView::zero()
                &&& final(per_sop).deep_view() == old(per_sop).deep_view()
            },
        },
{
    proof {
        lemma_first_index(sop_keys(per_sop.deep_view()), name@);
    }
    match find_counters(per_sop, name) {
        Some(k) => {
            let entry = per_sop.remove(k);
            assert(per_sop.deep_view() =~= old(per_sop).deep_view().remove(k as int));
            assert(entry.deep_view() == old(per_sop).deep_view()[k as int]);
            (k, entry)
        },
        None => (
            per_sop.len(),
            NamedCounters { name: name.to_owned(), counters: SopCounters::new() },
        ),
    }
}

/// Giving one procedure a new counter keeps the state well formed, where the
/// new counter is well formed and within the new counter over all, and the
/// counter over all has not shrunk.
proof fn lemma_with_counters_wf(
    state: CollectorView,
    name: Seq<char>,
    counters: CountersView,
    global: CountersView,
)
    requires
        state.wf(),
        counters.wf(),
        global.wf(),
        counters.tally.within(global.tally),
        state.global.tally.within(global.tally),
    ensures
        (CollectorView { global, per_sop: state.with_counters(name, counters), ..state }).wf(),
        state.within_plan() && counters.within_plan() && global.within_plan() ==> (CollectorView {
            global,
            per_sop: state.with_counters(name, counters),
            ..state
        }).within_plan(),
{
    let after = CollectorView { global, per_sop: state.with_counters(name, counters), ..state };
    let keys = sop_keys(state.per_sop);
    lemma_first_index(keys, name);
    assert forall|k: int| 0 <= k < after.per_sop.len() implies (#[trigger] after.per_sop[k]).1.wf()
        && after.per_sop[k].1.tally.within(after.global.tally) by {
        if k < state.per_sop.len() && after.per_sop[k] == state.per_sop[k] {
            assert(state.per_sop[k].1.wf());
        }
    }
    assert forall|i: int, j: int| 0 <= i < j < sop_keys(after.per_sop).len() implies sop_keys(
        after.per_sop,
    )[i] != sop_keys(after.per_sop)[j] by {
        assert(sop_keys(after.per_sop)[i] == keys[i]);
        if j < keys.len() {
            assert(sop_keys(after.per_sop)[j] == keys[j]);
        }
    }
    if state.within_plan() && counters.within_plan() && global.within_plan() {
        assert forall|k: int| 0 <= k < after.per_sop.len() implies (
        #[trigger] after.per_sop[k]).1.within_plan() by {
            if k < state.per_sop.len() && after.per_sop[k] == state.per_sop[k] {
                assert(state.per_sop[k].1.within_plan());
            }
        }
    }
}

/// The counter of a procedure is well formed and within the counter over all.
proof fn lemma_counters_of(state: CollectorView, name: Seq<char>)
    requires
        state.wf(),
    ensures
        state.counters_of(name).wf(),
        state.counters_of(name).tally.within(state.global.tally),
        state.within_plan() ==> state.counters_of(name).within_plan(),
{
    lemma_first_index(sop_keys(state.per_sop), name);
    match first_index(sop_keys(state.per_sop), name) {
        Some(k) => {
            assert(state.per_sop[k].1.wf());
        },
        None => {},
    }
}

impl Default for SopMetricsCollector {
    fn default() -> (r: Self)
        ensures
            r@ == CollectorView::empty(),
            r@.wf(),
    {
        SopMetricsCollector::new()
    }
}

impl SopMetricsCollector {
    /// An aggregator that has counted nothing.
    pub fn new() -> (r: SopMetricsCollector)
        ensures
            r@ == CollectorView::empty(),
            r@.wf(),
            r@.within_plan(),
    {
        let r = SopMetricsCollector {
            global: SopCounters::new(),
            per_sop: Vec::new(),
            pending_approvals: PendingApprovals::new(),
            pending_timeout_approvals: PendingApprovals::new(),
        };
        assert(r@.per_sop =~= Seq::empty());
        r
    }

    /// The state is well formed.
    pub open spec fn wf(&self) -> bool {
        self@.wf()
    }

    /// Puts the counter of a procedure back at its place.
    fn put_counters(&mut self, k: usize, entry: NamedCounters)
        requires
            k <= old(self).per_sop.len(),
        ensures
            final(self)@ == (CollectorView {
                per_sop: old(self)@.per_sop.insert(k as int, entry.deep_view()),
                ..old(self)@
            }),
    {
        self.per_sop.insert(k, entry);
        assert(self.per_sop.deep_view() =~= old(self).per_sop.deep_view().insert(
            k as int,
            entry.deep_view(),
        ));
    }

    /// Is there room in 64 bits to count `run`?
    pub fn has_room(&self, run: &SopRun) -> (r: bool)
        requires
            self@.wf(),
        ensures
            r == self@.room_for(run@),
    {
        let t = self.global.totals();
        let runs = t.runs_completed + t.runs_failed + t.runs_cancelled;
        runs < u64::MAX && run.step_results.len() as u64 <= u64::MAX - t.steps_executed
            && run.total_steps as u64 <= u64::MAX - t.steps_defined
    }

    /// Is there room in 64 bits for one more human approval?
    pub fn has_room_for_human_approval(&self) -> (r: bool)
        requires
            self@.wf(),
        ensures
            r == (self@.global.tally.human_approvals < u64::MAX),
    {
        self.global.totals().human_approvals < u64::MAX
    }

    /// Is there room in 64 bits for one more approval that fired on a timeout?
    pub fn has_room_for_timeout_approval(&self) -> (r: bool)
        requires
            self@.wf(),
        ensures
            r == (self@.global.tally.timeout_auto_approvals < u64::MAX),
    {
        self.global.totals().timeout_auto_approvals < u64::MAX
    }

    /// Counts the snapshot of an ended run, for all procedures and for the
    /// procedure `sop_name`.
    pub fn count_run(&mut self, snapshot: &RunSnapshot, sop_name: &str)
        requires
            old(self)@.wf(),
            snapshot.wf(),
            old(self)@.global.tally.has_room(*snapshot),
        ensures
            final(self)@ == old(self)@.counted(*snapshot, sop_name@),
            final(self)@.wf(),
            old(self)@.within_plan() && snapshot.within_plan() ==> final(self)@.within_plan(),
    {
        proof {
            lemma_counters_of(old(self)@, sop_name@);
            lemma_first_index(sop_keys(old(self)@.per_sop), sop_name@);
        }
        self.global.apply_run(snapshot);
        let (k, mut entry) = take_counters(&mut self.per_sop, sop_name);
        entry.counters.apply_run(snapshot);
        self.put_counters(k, entry);
        proof {
            let counted = old(self)@.counters_of(sop_name@).with_run(*snapshot);
            assert(self@.per_sop =~= old(self)@.with_counters(sop_name@, counted));
            lemma_with_counters_wf(old(self)@, sop_name@, counted, self@.global);
        }
    }

    /// Counts one more human approval, for all procedures and for the
    /// procedure `sop_name`.
    pub fn count_approval(&mut self, sop_name: &str)
        requires
            old(self)@.wf(),
            old(self)@.global.tally.human_approvals < u64::MAX,
        ensures
            final(self)@ == old(self)@.approved(sop_name@),
            final(self)@.wf(),
            old(self)@.within_plan() ==> final(self)@.within_plan(),
    {
        proof {
            lemma_counters_of(old(self)@, sop_name@);
            lemma_first_index(sop_keys(old(self)@.per_sop), sop_name@);
        }
        self.global.add_human_approval();
        let (k, mut entry) = take_counters(&mut self.per_sop, sop_name);
        entry.counters.add_human_approval();
        self.put_counters(k, entry);
        proof {
            let counted = CountersView {
                tally: old(self)@.counters_of(sop_name@).tally.with_human_approval(),
                ..old(self)@.counters_of(sop_name@)
            };
            assert(self@.per_sop =~= old(self)@.with_counters(sop_name@, counted));
            lemma_with_counters_wf(old(self)@, sop_name@, counted, self@.global);
        }
    }

    /// Counts one more approval that fired on a timeout, for all procedures
    /// and for the procedure `sop_name`.
    pub fn count_timeout_approval(&mut self, sop_name: &str)
        requires
            old(self)@.wf(),
            old(self)@.global.tally.timeout_auto_approvals < u64::MAX,
        ensures
            final(self)@ == old(self)@.timeout_approved(sop_name@),
            final(self)@.wf(),
            old(self)@.within_plan() ==> final(self)@.within_plan(),
    {
        proof {
            lemma_counters_of(old(self)@, sop_name@);
            lemma_first_index(sop_keys(old(self)@.per_sop), sop_name@);
        }
        self.global.add_timeout_approval();
        let (k, mut entry) = take_counters(&mut self.per_sop, sop_name);
        entry.counters.add_timeout_approval();
        self.put_counters(k, entry);
        proof {
            let counted = CountersView {
                tally: old(self)@.counters_of(sop_name@).tally.with_timeout_approval(),
                ..old(self)@.counters_of(sop_name@)
            };
            assert(self@.per_sop =~= old(self)@.with_counters(sop_name@, counted));
            lemma_with_counters_wf(old(self)@, sop_name@, counted, self@.global);
        }
    }

    /// Records, at `now`, that an ended run is to be counted.
    ///
    /// Pending approvals that are 3600 seconds old or older are dropped. The
    /// pending approvals of the run are taken out, and its snapshot is flagged
    /// with those that were there. The snapshot is counted for all procedures
    /// and for the procedure of the run.
    pub fn record_run_complete_at(&mut self, run: &SopRun, now: Instant)
        requires
            old(self)@.wf(),
            old(self)@.room_for(run@),
        ensures
            final(self)@ == old(self)@.record_run_complete(run@, now),
            final(self)@.wf(),
            old(self)@.within_plan() && run@.step_results.len() <= run@.total_steps
                ==> final(self)@.within_plan(),
    {
        self.pending_approvals.evict_stale(now);
        self.pending_timeout_approvals.evict_stale(now);
        let had_human = self.pending_approvals.take(run.run_id.as_str());
        let had_timeout = self.pending_timeout_approvals.take(run.run_id.as_str());
        let snapshot = build_snapshot(run, had_human, had_timeout, now);
        assert(snapshot == old(self)@.snapshot_for(run@, now));
        self.count_run(&snapshot, run.sop_name.as_str());
    }

    /// Records that an ended run is to be counted, at the present instant.
    pub fn record_run_complete(&mut self, run: &SopRun)
        requires
            old(self)@.wf(),
            old(self)@.room_for(run@),
        ensures
            exists|now: Instant| final(self)@ == old(self)@.record_run_complete(run@, now),
            final(self)@.wf(),
            old(self)@.within_plan() && run@.step_results.len() <= run@.total_steps
                ==> final(self)@.within_plan(),
    {
        let now = now_instant();
        self.record_run_complete_at(run, now);
    }

    /// Records, at `now`, that a human approved a step of a run: the approval
    /// is counted for all procedures and for the procedure of the run, and is
    /// pending until the run ends.
    pub fn record_approval_at(&mut self, sop_name: &str, run_id: &str, now: Instant)
        requires
            old(self)@.wf(),
            old(self)@.global.tally.human_approvals < u64::MAX,
        ensures
            final(self)@ == old(self)@.record_approval(sop_name@, run_id@, now),
            final(self)@.wf(),
            old(self)@.within_plan() ==> final(self)@.within_plan(),
    {
        self.count_approval(sop_name);
        self.pending_approvals.put(run_id, now);
    }

    /// Records that a human approved a step of a run, at the present instant.
    pub fn record_approval(&mut self, sop_name: &str, run_id: &str)
        requires
            old(self)@.wf(),
            old(self)@.global.tally.human_approvals < u64::MAX,
        ensures
            exists|now: Instant|
                final(self)@ == old(self)@.record_approval(sop_name@, run_id@, now),
            final(self)@.wf(),
            old(self)@.within_plan() ==> final(self)@.within_plan(),
    {
        let now = now_instant();
        self.record_approval_at(sop_name, run_id, now);
    }

    /// Records, at `now`, that the approval of a step of a run fired on a
    /// timeout: it is counted for all procedures and for the procedure of the
    /// run, and is pending until the run ends.
    pub fn record_timeout_auto_approve_at(&mut self, sop_name: &str, run_id: &str, now: Instant)
        requires
            old(self)@.wf(),
            old(self)@.global.tally.timeout_auto_approvals < u64::MAX,
        ensures
            final(self)@ == old(self)@.record_timeout_auto_approve(sop_name@, run_id@, now),
            final(self)@.wf(),
            old(self)@.within_plan() ==> final(self)@.within_plan(),
    {
        self.count_timeout_approval(sop_name);
        self.pending_timeout_approvals.put(run_id, now);
    }

    /// Records that the approval of a step of a run fired on a timeout, at the
    /// present instant.
    pub fn record_timeout_auto_approve(&mut self, sop_name: &str, run_id: &str)
        requires
            old(self)@.wf(),
            old(self)@.global.tally.timeout_auto_approvals < u64::MAX,
        ensures
            exists|now: Instant|
                final(self)@ == old(self)@.record_timeout_auto_approve(sop_name@, run_id@, now),
            final(self)@.wf(),
            old(self)@.within_plan() ==> final(self)@.within_plan(),
    {
        let now = now_instant();
        self.record_timeout_auto_approve_at(sop_name, run_id, now);
    }

    /// The place of the counter whose procedure name is the longest that
    /// `rest` begins with and that a dot follows.
    fn longest_match(&self, rest: &str) -> (r: Option<usize>)
        requires
            self@.wf(),
        ensures
            r is Some == longest_match(sop_keys(self@.per_sop), rest@) is Some,
            r is Some ==> r->0 == longest_match(sop_keys(self@.per_sop), rest@)->0,
            r is Some ==> r->0 < self.per_sop.len() && names_sop(
                self@.per_sop[r->0 as int].0,
                rest@,
            ),
    {
        let ghost names = sop_keys(self@.per_sop);
        let rest_len = rest.unicode_len();
        let mut best: Option<usize> = None;
        let mut best_len: usize = 0;
        let mut i: usize = 0;
        while i < self.per_sop.len()
            invariant
                i <= self.per_sop.len(),
                names == sop_keys(self@.per_sop),
                rest_len == rest@.len(),
                best is None ==> best_len == 0 && forall|j: int|
                    0 <= j < i ==> !names_sop(#[trigger] names[j], rest@),
                best is Some ==> best->0 < i && best_len == names[best->0 as int].len()
                    && names_sop(names[best->0 as int], rest@) && forall|j: int|
                    0 <= j < i && names_sop(#[trigger] names[j], rest@) ==> names[j].len()
                        <= best_len,
            decreases self.per_sop.len() - i,
        {
            let key = self.per_sop[i].name.as_str();
            assert(key@ == names[i as int]);
            let key_len = key.unicode_len();
            if key_len > best_len && rest_len > key_len && starts_with(rest, key) && rest.get_char(
                key_len,
            ) == '.' {
                best = Some(i);
                best_len = key_len;
            }
            i += 1;
        }
        proof {
            match best {
                Some(b) => {
                    assert(is_longest_match(names, rest@, b as int));
                    lemma_longest_match_is(names, rest@, b as int);
                },
                None => {
                    assert forall|k: int| !is_longest_match(names, rest@, k) by {
                        if 0 <= k < names.len() {
                            assert(!names_sop(names[k], rest@));
                        }
                    }
                },
            }
        }
        best
    }

    /// The value of the metric called `name` at `now`; `None` where the name
    /// names no metric.
    pub fn get_metric_value_at(&self, name: &str, now: Instant) -> (r: Option<MetricValue>)
        requires
            self@.wf(),
        ensures
            r == self@.query(name@, now),
    {
        let rest = match strip_prefix(name, "sop.") {
            Some(rest) => rest,
            None => {
                return None;
            },
        };
        match self.global.resolve_metric(rest, now) {
            Some(v) => {
                return Some(v);
            },
            None => {},
        }
        match self.longest_match(rest) {
            Some(k) => {
                let key_len = self.per_sop[k].name.as_str().unicode_len();
                assert(self@.per_sop[k as int].0 == self.per_sop[k as int].name@);
                let rest_len = rest.unicode_len();
                assert(key_len < rest_len);
                let suffix = rest.substring_char(key_len + 1, rest_len);
                assert(suffix@ =~= rest@.skip(key_len as int + 1));
                assert(self@.per_sop[k as int] == self.per_sop[k as int].deep_view());
                proof {
                    assert(self@.per_sop[k as int].1.wf());
                }
                self.per_sop[k].counters.resolve_metric(suffix, now)
            },
            None => None,
        }
    }

    /// The value of the metric called `name` at the present instant.
    pub fn get_metric_value(&self, name: &str) -> (r: Option<MetricValue>)
        requires
            self@.wf(),
        ensures
            exists|now: Instant| r == self@.query(name@, now),
    {
        let now = now_instant();
        self.get_metric_value_at(name, now)
    }
}

/// What a diagnostic snapshot shows of one counter: its totals since the
/// start, and how many snapshots of ended runs it keeps.
#[derive(Clone, Copy, Debug, PartialEq, Eq)]
pub struct CountersSummary {
    pub totals: Totals,
    pub recent_runs_depth: usize,
}

/// What a diagnostic snapshot shows of the counter of one procedure.
#[derive(Debug, PartialEq, Eq)]
pub struct NamedSummary {
    pub name: String,
    pub counters: CountersSummary,
}

/// A diagnostic snapshot of the aggregator.
#[derive(Debug, PartialEq, Eq)]
pub struct CollectorSnapshot {
    pub global: CountersSummary,
    pub per_sop: Vec<NamedSummary>,
    pub pending_approvals: usize,
    pub pending_timeout_approvals: usize,
}

/// Does the summary show the counter?
pub open spec fn summarises(summary: CountersSummary, counters: CountersView) -> bool {
    summary.totals@ == counters.tally && summary.recent_runs_depth == counters.recent.len()
}

/// What a diagnostic snapshot shows of one counter.
pub fn counters_summary(counters: &SopCounters) -> (r: CountersSummary)
    ensures
        summarises(r, counters@),
{
    CountersSummary { totals: counters.totals(), recent_runs_depth: counters.recent_runs_depth() }
}

impl SopMetricsCollector {
    /// A diagnostic snapshot: every counter, and how many approvals of each
    /// kind are pending.
    pub fn snapshot(&self) -> (r: CollectorSnapshot)
        ensures
            summarises(r.global, self@.global),
            r.per_sop.len() == self@.per_sop.len(),
            forall|k: int|
                0 <= k < r.per_sop.len() ==> (#[trigger] r.per_sop[k]).name@ == self@.per_sop[k].0
                    && summarises(r.per_sop[k].counters, self@.per_sop[k].1),
            r.pending_approvals == self@.pending_approvals.len(),
            r.pending_timeout_approvals == self@.pending_timeout_approvals.len(),
    {
        let mut per_sop: Vec<NamedSummary> = Vec::new();
        let mut i: usize = 0;
        while i < self.per_sop.len()
            invariant
                i <= self.per_sop.len(),
                per_sop.len() == i,
                forall|k: int|
                    0 <= k < i ==> (#[trigger] per_sop[k]).name@ == self@.per_sop[k].0
                        && summarises(per_sop[k].counters, self@.per_sop[k].1),
            decreases self.per_sop.len() - i,
        {
            assert(self@.per_sop[i as int] == self.per_sop[i as int].deep_view());
            per_sop.push(
                NamedSummary {
                    name: self.per_sop[i].name.clone(),
                    counters: counters_summary(&self.per_sop[i].counters),
                },
            );
            i += 1;
        }
        CollectorSnapshot {
            global: counters_summary(&self.global),
            per_sop,
            pending_approvals: self.pending_approvals.len(),
            pending_timeout_approvals: self.pending_timeout_approvals.len(),
        }
    }
}

} // verus!
