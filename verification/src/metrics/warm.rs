//! Warm start: the aggregator as it is rebuilt from the records of the audit
//! trail.

use vstd::prelude::*;
use vstd::string::*;
use crate::audit::{classify_key, kind_of_key, AuditKind};
use crate::engine::model::run_ids;
use crate::lookup::{first_index, lemma_first_index, lemma_first_index_is, lemma_first_index_none};
use crate::metrics::collector::{build_snapshot, ended_at, CollectorView, SopMetricsCollector};
use crate::metrics::model::{snapshot_of, Instant, Tally};
use crate::metrics::time::now_instant;
use crate::types::{terminal, SopRun, SopRunView};

verus! {

/// One record as the warm start reads it: its key, and the run that its
/// content holds, where the content can be read as a run.
#[derive(Debug, PartialEq, Eq)]
pub struct AuditEntry {
    pub key: String,
    pub run: Option<SopRun>,
}

impl DeepView for AuditEntry {
    type V = (Seq<char>, Option<SopRunView>);

    open spec fn deep_view(&self) -> (Seq<char>, Option<SopRunView>) {
        (self.key@, self.run.deep_view())
    }
}

/// The records of the audit trail, in the order they are listed.
pub type EntriesView = Seq<(Seq<char>, Option<SopRunView>)>;

/// Does the record hold an ended run under the key of a run?
pub open spec fn is_ended_run(entry: (Seq<char>, Option<SopRunView>)) -> bool {
    kind_of_key(entry.0) == AuditKind::Run && entry.1 is Some && terminal(entry.1->0.status)
}

/// Does the record hold an approval of the given kind that can be read?
pub open spec fn is_approval(entry: (Seq<char>, Option<SopRunView>), kind: AuditKind) -> bool {
    kind_of_key(entry.0) == kind && entry.1 is Some
}

/// The runs with `run` in the place of the run of the same id, or at the end
/// where there is none.
pub open spec fn upsert_run(runs: Seq<SopRunView>, run: SopRunView) -> Seq<SopRunView> {
    match first_index(run_ids(runs), run.run_id) {
        Some(k) => runs.update(k, run),
        None => runs.push(run),
    }
}

/// The ended runs that the records hold, one for each run id: the last
/// record of a run decides, at the place of its first.
pub open spec fn terminal_runs(entries: EntriesView) -> Seq<SopRunView>
    decreases entries.len(),
{
    if entries.len() == 0 {
        Seq::empty()
    } else if is_ended_run(entries.last()) {
        upsert_run(terminal_runs(entries.drop_last()), entries.last().1->0)
    } else {
        terminal_runs(entries.drop_last())
    }
}

/// The run ids of the approvals of the given kind, in the order of the records.
pub open spec fn approval_ids(entries: EntriesView, kind: AuditKind) -> Seq<Seq<char>>
    decreases entries.len(),
{
    if entries.len() == 0 {
        Seq::empty()
    } else if is_approval(entries.last(), kind) {
        approval_ids(entries.drop_last(), kind).push(entries.last().1->0.run_id)
    } else {
        approval_ids(entries.drop_last(), kind)
    }
}

/// The state with the runs counted, each flagged with the approvals that
/// name it.
pub open spec fn with_runs(
    state: CollectorView,
    runs: Seq<SopRunView>,
    human: Seq<Seq<char>>,
    timeout: Seq<Seq<char>>,
    now: Instant,
) -> CollectorView
    decreases runs.len(),
{
    if runs.len() == 0 {
        state
    } else {
        let run = runs.last();
        with_runs(state, runs.drop_last(), human, timeout, now).counted(
            snapshot_of(
                run,
                human.contains(run.run_id),
                timeout.contains(run.run_id),
                ended_at(run, now),
            ),
            run.sop_name,
        )
    }
}

/// The state with every approval of the records counted, also those of runs
/// that have not ended.
pub open spec fn with_approvals(state: CollectorView, entries: EntriesView) -> CollectorView
    decreases entries.len(),
{
    if entries.len() == 0 {
        state
    } else if is_approval(entries.last(), AuditKind::Approval) {
        with_approvals(state, entries.drop_last()).approved(entries.last().1->0.sop_name)
    } else if is_approval(entries.last(), AuditKind::TimeoutApproval) {
        with_approvals(state, entries.drop_last()).timeout_approved(entries.last().1->0.sop_name)
    } else {
        with_approvals(state, entries.drop_last())
    }
}

/// The aggregator as it is rebuilt from the records at `now`.
///
/// The ended runs are counted, each once and flagged with the approvals that
/// name it. Then every approval is counted. Records that cannot be read as a
/// run are passed over. Nothing is pending.
pub open spec fn rebuilt(entries: EntriesView, now: Instant) -> CollectorView {
    with_approvals(
        with_runs(
            CollectorView::empty(),
            terminal_runs(entries),
            approval_ids(entries, AuditKind::Approval),
            approval_ids(entries, AuditKind::TimeoutApproval),
            now,
        ),
        entries,
    )
}

/// Every total fits 64 bits.
pub open spec fn fits(t: Tally) -> bool {
    &&& t.runs() <= u64::MAX
    &&& t.steps_executed <= u64::MAX
    &&& t.steps_defined <= u64::MAX
    &&& t.human_approvals <= u64::MAX
    &&& t.timeout_auto_approvals <= u64::MAX
}

/// Every run of `terminal_runs` has ended.
pub proof fn lemma_terminal_runs(entries: EntriesView)
    ensures
        forall|i: int|
            0 <= i < terminal_runs(entries).len() ==> terminal(
                (#[trigger] terminal_runs(entries)[i]).status,
            ),
    decreases entries.len(),
{
    if entries.len() > 0 {
        let front = entries.drop_last();
        lemma_terminal_runs(front);
        if is_ended_run(entries.last()) {
            lemma_first_index(run_ids(terminal_runs(front)), entries.last().1->0.run_id);
        }
    }
}

/// Counting more runs never lowers a total.
pub proof fn lemma_with_runs_grows(
    state: CollectorView,
    runs: Seq<SopRunView>,
    human: Seq<Seq<char>>,
    timeout: Seq<Seq<char>>,
    now: Instant,
    j: int,
)
    requires
        0 <= j <= runs.len(),
    ensures
        with_runs(state, runs.take(j), human, timeout, now).global.tally.within(
            with_runs(state, runs, human, timeout, now).global.tally,
        ),
    decreases runs.len(),
{
    if j == runs.len() {
        assert(runs.take(j) =~= runs);
    } else {
        lemma_with_runs_grows(state, runs.drop_last(), human, timeout, now, j);
        assert(runs.drop_last().take(j) =~= runs.take(j));
    }
}

/// Counting more approvals never lowers a total.
pub proof fn lemma_with_approvals_grows(state: CollectorView, entries: EntriesView, i: int)
    requires
        0 <= i <= entries.len(),
    ensures
        with_approvals(state, entries.take(i)).global.tally.within(
            with_approvals(state, entries).global.tally,
        ),
    decreases entries.len(),
{
    if i == entries.len() {
        assert(entries.take(i) =~= entries);
    } else {
        lemma_with_approvals_grows(state, entries.drop_last(), i);
        assert(entries.drop_last().take(i) =~= entries.take(i));
    }
}

/// Is `id` among `ids`?
fn contains_id(ids: &Vec<String>, id: &str) -> (r: bool)
    ensures
        r == ids.deep_view().contains(id@),
{
    let mut i: usize = 0;
    while i < ids.len()
        invariant
            i <= ids.len(),
            forall|j: int| 0 <= j < i ==> ids.deep_view()[j] != id@,
        decreases ids.len() - i,
    {
        if *ids[i].as_str() == *id {
            assert(ids.deep_view()[i as int] == id@);
            return true;
        }
        i += 1;
    }
    false
}

/// Puts `run` in the place of the run of the same id, or at the end.
fn upsert(runs: &mut Vec<SopRun>, run: SopRun)
    ensures
        final(runs).deep_view() == upsert_run(old(runs).deep_view(), run@),
{
    let ghost keys = run_ids(runs.deep_view());
    let mut i: usize = 0;
    while i < runs.len()
        invariant
            i <= runs.len(),
            runs.deep_view() == old(runs).deep_view(),
            keys == run_ids(runs.deep_view()),
            forall|j: int| 0 <= j < i ==> keys[j] != run@.run_id,
        decreases runs.len() - i,
    {
        if *runs[i].run_id.as_str() == *run.run_id.as_str() {
            proof {
                lemma_first_index_is(keys, run@.run_id, i as int);
            }
            let _ = runs.remove(i);
            runs.insert(i, run);
            assert(runs.deep_view() =~= old(runs).deep_view().update(i as int, run@));
            return ;
        }
        i += 1;
    }
    proof {
        lemma_first_index_none(keys, run@.run_id);
    }
    runs.push(run);
    assert(runs.deep_view() =~= old(runs).deep_view().push(run@));
}

impl SopMetricsCollector {
    /// The aggregator as it is rebuilt at `now` from the records that the
    /// audit trail lists; `None` where a total would not fit 64 bits.
    ///
    /// The ended runs are counted, each once and flagged with the approvals
    /// that name it; then every approval is counted, also those of runs that
    /// have not ended. A record whose content is no run is passed over.
    pub fn rebuild_from_memory_at(entries: &Vec<AuditEntry>, now: Instant) -> (r: Option<
        SopMetricsCollector,
    >)
        ensures
            r is Some == fits(rebuilt(entries.deep_view(), now).global.tally),
            r is Some ==> r->0@ == rebuilt(entries.deep_view(), now) && r->0@.wf(),
    {
        let ghost all = entries.deep_view();
        let mut runs: Vec<SopRun> = Vec::new();
        let mut human: Vec<String> = Vec::new();
        let mut timeout: Vec<String> = Vec::new();
        let mut i: usize = 0;
        proof {
            assert(runs.deep_view() =~= terminal_runs(all.take(0)));
            assert(human.deep_view() =~= approval_ids(all.take(0), AuditKind::Approval));
            assert(timeout.deep_view() =~= approval_ids(all.take(0), AuditKind::TimeoutApproval));
        }
        while i < entries.len()
            invariant
                i <= entries.len(),
                all == entries.deep_view(),
                runs.deep_view() == terminal_runs(all.take(i as int)),
                human.deep_view() == approval_ids(all.take(i as int), AuditKind::Approval),
                timeout.deep_view() == approval_ids(all.take(i as int), AuditKind::TimeoutApproval),
            decreases entries.len() - i,
        {
            let entry = &entries[i];
            let ghost old_human = human.deep_view();
            let ghost old_timeout = timeout.deep_view();
            proof {
                assert(all.take(i + 1).drop_last() =~= all.take(i as int));
                assert(all.take(i + 1).last() == entry.deep_view());
            }
            match &entry.run {
                Some(run) => match classify_key(entry.key.as_str()) {
                    AuditKind::Run => {
                        if run.status.is_terminal() {
                            upsert(&mut runs, run.clone());
                        }
                    },
                    AuditKind::Approval => {
                        human.push(run.run_id.clone());
                        assert(human.deep_view() =~= old_human.push(run@.run_id));
                    },
                    AuditKind::TimeoutApproval => {
                        timeout.push(run.run_id.clone());
                        assert(timeout.deep_view() =~= old_timeout.push(run@.run_id));
                    },
                    AuditKind::Other => {},
                },
                None => {},
            }
            i += 1;
        }
        assert(all.take(entries.len() as int) =~= all);
        let ghost ended = runs.deep_view();
        let ghost human_ids = human.deep_view();
        let ghost timeout_ids = timeout.deep_view();
        let ghost target = rebuilt(all, now);
        let ghost counted_all = with_runs(CollectorView::empty(), ended, human_ids, timeout_ids, now);
        proof {
            lemma_with_approvals_grows(counted_all, all, 0);
            assert(all.take(0) =~= Seq::empty());
            lemma_terminal_runs(all);
        }
        let mut collector = SopMetricsCollector::new();
        let mut j: usize = 0;
        assert(ended.take(0) =~= Seq::empty());
        while j < runs.len()
            invariant
                j <= runs.len(),
                all == entries.deep_view(),
                target == rebuilt(all, now),
                ended == runs.deep_view(),
                human_ids == human.deep_view(),
                timeout_ids == timeout.deep_view(),
                counted_all == with_runs(CollectorView::empty(), ended, human_ids, timeout_ids, now),
                counted_all.global.tally.within(target.global.tally),
                forall|k: int| 0 <= k < ended.len() ==> terminal((#[trigger] ended[k]).status),
                collector@ == with_runs(
                    CollectorView::empty(),
                    ended.take(j as int),
                    human_ids,
                    timeout_ids,
                    now,
                ),
                collector@.wf(),
            decreases runs.len() - j,
        {
            let run = &runs[j];
            let had_human = contains_id(&human, run.run_id.as_str());
            let had_timeout = contains_id(&timeout, run.run_id.as_str());
            let snapshot = build_snapshot(run, had_human, had_timeout, now);
            let executed = run.step_results.len();
            proof {
                assert(ended.take(j + 1).drop_last() =~= ended.take(j as int));
                assert(ended.take(j + 1).last() == run@);
                assert(terminal(ended[j as int].status));
                lemma_with_runs_grows(
                    CollectorView::empty(),
                    ended,
                    human_ids,
                    timeout_ids,
                    now,
                    j + 1,
                );
            }
            if !collector.has_room(run) {
                proof {
                    let next = with_runs(
                        CollectorView::empty(),
                        ended.take(j + 1),
                        human_ids,
                        timeout_ids,
                        now,
                    );
                    assert(next == collector@.counted(snapshot, run@.sop_name));
                    assert(next.global.tally == collector@.global.tally.with_run(snapshot));
                    assert(next.global.tally.within(counted_all.global.tally));
                    let before = collector@.global.tally;
                    let grown = next.global.tally;
                    assert(grown.runs() == before.runs() + 1);
                    assert(run@.step_results.len() == executed);
                    assert(snapshot.steps_executed == executed);
                    assert(snapshot.steps_defined == run@.total_steps);
                    assert(grown.steps_executed == before.steps_executed + executed);
                    assert(grown.steps_defined == before.steps_defined + run@.total_steps);
                    assert(!collector@.room_for(run@));
                    assert(grown.runs() > u64::MAX || grown.steps_executed > u64::MAX
                        || grown.steps_defined > u64::MAX);
                    assert(!fits(grown));
                    assert(!fits(target.global.tally));
                }
                return None;
            }
            collector.count_run(&snapshot, run.sop_name.as_str());
            j += 1;
        }
        assert(ended.take(runs.len() as int) =~= ended);
        let mut i: usize = 0;
        assert(all.take(0) =~= Seq::empty());
        while i < entries.len()
            invariant
                i <= entries.len(),
                all == entries.deep_view(),
                target == rebuilt(all, now),
                target == with_approvals(counted_all, all),
                collector@ == with_approvals(counted_all, all.take(i as int)),
                collector@.wf(),
            decreases entries.len() - i,
        {
            let entry = &entries[i];
            proof {
                assert(all.take(i + 1).drop_last() =~= all.take(i as int));
                assert(all.take(i + 1).last() == entry.deep_view());
                lemma_with_approvals_grows(counted_all, all, i + 1);
            }
            match &entry.run {
                Some(run) => match classify_key(entry.key.as_str()) {
                    AuditKind::Approval => {
                        if !collector.has_room_for_human_approval() {
                            proof {
                                let next = with_approvals(counted_all, all.take(i + 1));
                                assert(next == collector@.approved(run@.sop_name));
                                assert(!fits(next.global.tally));
                                assert(!fits(target.global.tally));
                            }
                            return None;
                        }
                        collector.count_approval(run.sop_name.as_str());
                    },
                    AuditKind::TimeoutApproval => {
                        if !collector.has_room_for_timeout_approval() {
                            proof {
                                let next = with_approvals(counted_all, all.take(i + 1));
                                assert(next == collector@.timeout_approved(run@.sop_name));
                                assert(!fits(next.global.tally));
                                assert(!fits(target.global.tally));
                            }
                            return None;
                        }
                        collector.count_timeout_approval(run.sop_name.as_str());
                    },
                    _ => {},
                },
                None => {},
            }
            i += 1;
        }
        assert(all.take(entries.len() as int) =~= all);
        Some(collector)
    }

    /// The aggregator as it is rebuilt at the present instant from the
    /// records that the audit trail lists.
    pub fn rebuild_from_memory(entries: &Vec<AuditEntry>) -> (r: Option<SopMetricsCollector>)
        ensures
            exists|now: Instant|
                r is Some == fits(rebuilt(entries.deep_view(), now).global.tally) && (r is Some
                    ==> r->0@ == rebuilt(entries.deep_view(), now) && r->0@.wf()),
    {
        let now = now_instant();
        Self::rebuild_from_memory_at(entries, now)
    }
}

} // verus!
