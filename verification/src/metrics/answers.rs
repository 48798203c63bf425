//! Warm start against live counting, as a reader of metrics sees it: every
//! metric over the totals since the start is answered alike by an aggregator
//! rebuilt from the audit trail and by one that was told the same events as
//! they happened.

use vstd::prelude::*;
use vstd::string::*;
use crate::audit::{lemma_keys_classified, AuditKind};
use crate::lookup::{distinct, first_index, lemma_first_index};
use crate::metrics::collector::{
    is_longest_match, lemma_longest_match_is, longest_match, names_sop, sop_keys, CollectorView,
};
use crate::metrics::model::{metric_value, split_window, CountersView, Instant, RunSnapshot};
use crate::metrics::replay::{
    completes, entries_of, entry_of, fed, lemma_terminal_runs_of_orderly,
    lemma_warm_start_round_trip, orderly, tallies, AuditWrite,
};
use crate::metrics::warm::{
    approval_ids, is_approval, rebuilt, with_approvals, with_runs, EntriesView,
};
use crate::text::ends_with;
use crate::types::SopRunView;

verus! {

/// Has the procedure `name` a counter of its own?
pub open spec fn named(state: CollectorView, name: Seq<char>) -> bool {
    first_index(sop_keys(state.per_sop), name) is Some
}

/// Is the metric name one without a time window: does it end in none of
/// `_7d`, `_30d` and `_90d`?
pub open spec fn since_the_start(name: Seq<char>) -> bool {
    !ends_with(name, "_7d"@) && !ends_with(name, "_30d"@) && !ends_with(name, "_90d"@)
}

/// The procedure whose counter a write touches when it is told to a live
/// aggregator; `None` for a write that touches none.
pub open spec fn touched(write: AuditWrite) -> Option<Seq<char>> {
    match write {
        AuditWrite::Approval(run, _) => Some(run.sop_name),
        AuditWrite::TimeoutAutoApprove(run, _) => Some(run.sop_name),
        AuditWrite::RunComplete(run) => Some(run.sop_name),
        _ => None,
    }
}

/// Does some write touch the counter of the procedure `name`?
pub open spec fn writes_touch(writes: Seq<AuditWrite>, name: Seq<char>) -> bool
    decreases writes.len(),
{
    writes.len() > 0 && (writes_touch(writes.drop_last(), name) || touched(writes.last()) == Some(
        name,
    ))
}

/// Is some run of the list a run of the procedure `name`?
pub open spec fn runs_touch(runs: Seq<SopRunView>, name: Seq<char>) -> bool
    decreases runs.len(),
{
    runs.len() > 0 && (runs_touch(runs.drop_last(), name) || runs.last().sop_name == name)
}

/// Is some record an approval, of either kind, of a run of the procedure `name`?
pub open spec fn approvals_touch(entries: EntriesView, name: Seq<char>) -> bool
    decreases entries.len(),
{
    entries.len() > 0 && (approvals_touch(entries.drop_last(), name) || ((is_approval(
        entries.last(),
        AuditKind::Approval,
    ) || is_approval(entries.last(), AuditKind::TimeoutApproval)) && entries.last().1->0.sop_name
        == name))
}

/// Giving a procedure a counter keeps the names distinct, and gives just
/// that procedure a counter of its own where it had none.
proof fn lemma_with_counters_names(
    state: CollectorView,
    given: Seq<char>,
    counters: CountersView,
    name: Seq<char>,
)
    requires
        distinct(sop_keys(state.per_sop)),
    ensures
        distinct(sop_keys(state.with_counters(given, counters))),
        first_index(sop_keys(state.with_counters(given, counters)), name) is Some <==> (named(
            state,
            name,
        ) || name == given),
{
    let keys = sop_keys(state.per_sop);
    let after = sop_keys(state.with_counters(given, counters));
    lemma_first_index(keys, given);
    lemma_first_index(keys, name);
    lemma_first_index(after, name);
    match first_index(keys, given) {
        Some(k) => {
            assert(after =~= keys);
        },
        None => {
            assert(after =~= keys.push(given));
            match first_index(after, name) {
                Some(j) => {
                    if j < keys.len() {
                        assert(keys[j] == after[j]);
                    }
                },
                None => {
                    assert(after[keys.len() as int] == given);
                    if named(state, name) {
                        let i = first_index(keys, name)->0;
                        assert(after[i] == name);
                    }
                },
            }
        },
    }
}

/// Counting for a procedure, whatever is counted, gives just that procedure
/// a counter of its own where it had none, and keeps the names distinct.
proof fn lemma_counting_names(state: CollectorView, given: Seq<char>, name: Seq<char>)
    requires
        distinct(sop_keys(state.per_sop)),
    ensures
        forall|snap: RunSnapshot|
            distinct(sop_keys((#[trigger] state.counted(snap, given)).per_sop)) && (named(
                state.counted(snap, given),
                name,
            ) <==> named(state, name) || name == given),
        distinct(sop_keys(state.approved(given).per_sop)),
        named(state.approved(given), name) <==> named(state, name) || name == given,
        distinct(sop_keys(state.timeout_approved(given).per_sop)),
        named(state.timeout_approved(given), name) <==> named(state, name) || name == given,
{
    assert forall|snap: RunSnapshot|
        distinct(sop_keys((#[trigger] state.counted(snap, given)).per_sop)) && (named(
            state.counted(snap, given),
            name,
        ) <==> named(state, name) || name == given) by {
        lemma_with_counters_names(state, given, state.counters_of(given).with_run(snap), name);
    }
    let approved = CountersView {
        tally: state.counters_of(given).tally.with_human_approval(),
        ..state.counters_of(given)
    };
    lemma_with_counters_names(state, given, approved, name);
    let timed_out = CountersView {
        tally: state.counters_of(given).tally.with_timeout_approval(),
        ..state.counters_of(given)
    };
    lemma_with_counters_names(state, given, timed_out, name);
}

/// Which procedures have a counter after runs were counted at a warm start.
proof fn lemma_with_runs_names(
    state: CollectorView,
    runs: Seq<SopRunView>,
    human: Seq<Seq<char>>,
    timeout: Seq<Seq<char>>,
    now: Instant,
    name: Seq<char>,
)
    requires
        distinct(sop_keys(state.per_sop)),
    ensures
        distinct(sop_keys(with_runs(state, runs, human, timeout, now).per_sop)),
        named(with_runs(state, runs, human, timeout, now), name) <==> named(state, name)
            || runs_touch(runs, name),
    decreases runs.len(),
{
    if runs.len() > 0 {
        lemma_with_runs_names(state, runs.drop_last(), human, timeout, now, name);
        lemma_counting_names(
            with_runs(state, runs.drop_last(), human, timeout, now),
            runs.last().sop_name,
            name,
        );
    }
}

/// Which procedures have a counter after approvals were counted at a warm start.
proof fn lemma_with_approvals_names(state: CollectorView, entries: EntriesView, name: Seq<char>)
    requires
        distinct(sop_keys(state.per_sop)),
    ensures
        distinct(sop_keys(with_approvals(state, entries).per_sop)),
        named(with_approvals(state, entries), name) <==> named(state, name) || approvals_touch(
            entries,
            name,
        ),
    decreases entries.len(),
{
    if entries.len() > 0 {
        lemma_with_approvals_names(state, entries.drop_last(), name);
        let entry = entries.last();
        if is_approval(entry, AuditKind::Approval) || is_approval(
            entry,
            AuditKind::TimeoutApproval,
        ) {
            lemma_counting_names(
                with_approvals(state, entries.drop_last()),
                entry.1->0.sop_name,
                name,
            );
        }
    }
}

/// Which procedures have a counter in an aggregator that was told the
/// writes as they happened.
proof fn lemma_fed_names(
    writes: Seq<AuditWrite>,
    clock: spec_fn(int) -> Instant,
    name: Seq<char>,
)
    ensures
        distinct(sop_keys(fed(CollectorView::empty(), writes, clock).per_sop)),
        named(fed(CollectorView::empty(), writes, clock), name) <==> writes_touch(writes, name),
    decreases writes.len(),
{
    if writes.len() == 0 {
        lemma_first_index(sop_keys(CollectorView::empty().per_sop), name);
    } else {
        lemma_fed_names(writes.drop_last(), clock, name);
        let before = fed(CollectorView::empty(), writes.drop_last(), clock);
        let at = clock(writes.len() - 1);
        match writes.last() {
            AuditWrite::Approval(run, _) => {
                lemma_counting_names(before, run.sop_name, name);
                let after = before.record_approval(run.sop_name, run.run_id, at);
                assert(after.per_sop == before.approved(run.sop_name).per_sop);
            },
            AuditWrite::TimeoutAutoApprove(run, _) => {
                lemma_counting_names(before, run.sop_name, name);
                let after = before.record_timeout_auto_approve(run.sop_name, run.run_id, at);
                assert(after.per_sop == before.timeout_approved(run.sop_name).per_sop);
            },
            AuditWrite::RunComplete(run) => {
                lemma_counting_names(before, run.sop_name, name);
                let snap = before.snapshot_for(run, at);
                let after = before.record_run_complete(run, at);
                assert(after.per_sop == before.counted(snap, run.sop_name).per_sop);
            },
            _ => {},
        }
    }
}

/// The runs that were written as complete and the approvals among the
/// records touch the counters that the writes touch.
proof fn lemma_touches(writes: Seq<AuditWrite>, name: Seq<char>)
    ensures
        runs_touch(completes(writes), name) || approvals_touch(entries_of(writes), name)
            <==> writes_touch(writes, name),
    decreases writes.len(),
{
    if writes.len() == 0 {
        assert(entries_of(writes) =~= Seq::empty());
    } else {
        let front = writes.drop_last();
        let last = writes.last();
        lemma_touches(front, name);
        assert(entries_of(writes).drop_last() =~= entries_of(front));
        assert(entries_of(writes).last() == entry_of(last));
        match last {
            AuditWrite::RunStart(run) => {
                lemma_keys_classified(run.run_id, 0);
            },
            AuditWrite::StepResult(run, step) => {
                lemma_keys_classified(run.run_id, step);
            },
            AuditWrite::Approval(run, step) => {
                lemma_keys_classified(run.run_id, step);
            },
            AuditWrite::TimeoutAutoApprove(run, step) => {
                lemma_keys_classified(run.run_id, step);
            },
            AuditWrite::RunComplete(run) => {
                lemma_keys_classified(run.run_id, 0);
                assert(completes(writes).drop_last() =~= completes(front));
                assert(completes(writes).last() == run);
            },
        }
    }
}

/// Where two lists of distinct names hold the same names, the longest name
/// that names a procedure in `rest` is the same in both.
proof fn lemma_longest_match_alike(
    one: Seq<Seq<char>>,
    other: Seq<Seq<char>>,
    rest: Seq<char>,
)
    requires
        distinct(one),
        distinct(other),
        forall|name: Seq<char>|
            first_index(one, name) is Some <==> first_index(other, name) is Some,
    ensures
        longest_match(one, rest) is Some <==> longest_match(other, rest) is Some,
        longest_match(one, rest) is Some ==> one[longest_match(one, rest)->0] == other[longest_match(
            other,
            rest,
        )->0] && 0 <= longest_match(one, rest)->0 < one.len() && 0 <= longest_match(
            other,
            rest,
        )->0 < other.len(),
{
    if exists|k: int| is_longest_match(one, rest, k) {
        let k = choose|k: int| is_longest_match(one, rest, k);
        lemma_longest_moved(one, other, rest, k);
        let moved = first_index(other, one[k])->0;
        lemma_longest_match_is(other, rest, moved);
        lemma_longest_match_is(one, rest, k);
    }
    if exists|k: int| is_longest_match(other, rest, k) {
        let k = choose|k: int| is_longest_match(other, rest, k);
        lemma_longest_moved(other, one, rest, k);
        let moved = first_index(one, other[k])->0;
        lemma_longest_match_is(one, rest, moved);
        lemma_longest_match_is(other, rest, k);
    }
}

/// The longest match of one list is the longest match of another list that
/// holds the same names, at the place where that list holds it.
proof fn lemma_longest_moved(from: Seq<Seq<char>>, to: Seq<Seq<char>>, rest: Seq<char>, k: int)
    requires
        forall|name: Seq<char>| first_index(from, name) is Some <==> first_index(to, name) is Some,
        is_longest_match(from, rest, k),
    ensures
        first_index(to, from[k]) is Some,
        to[first_index(to, from[k])->0] == from[k],
        is_longest_match(to, rest, first_index(to, from[k])->0),
{
    let name = from[k];
    lemma_first_index(from, name);
    lemma_first_index(to, name);
    assert(first_index(from, name) is Some);
    let moved = first_index(to, name)->0;
    assert forall|j: int| 0 <= j < to.len() && names_sop(#[trigger] to[j], rest) implies to[j].len()
        <= to[moved].len() by {
        lemma_first_index(to, to[j]);
        lemma_first_index(from, to[j]);
        assert(first_index(to, to[j]) is Some);
        let back = first_index(from, to[j])->0;
        assert(names_sop(from[back], rest));
    }
}

/// A tail of a name that has no time window has none.
proof fn lemma_tail_since_the_start(name: Seq<char>, from: int)
    requires
        since_the_start(name),
        0 <= from <= name.len(),
    ensures
        since_the_start(name.skip(from)),
        split_window(name.skip(from)) == (name.skip(from), None::<int>),
{
    let tail = name.skip(from);
    assert forall|suffix: Seq<char>| ends_with(tail, suffix) implies ends_with(name, suffix) by {
        assert(tail.skip(tail.len() - suffix.len()) =~= name.skip(name.len() - suffix.len()));
    }
}

/// Two aggregators that hold the same totals for all procedures and for
/// each procedure, and counters for the same procedures, answer every metric
/// over the totals since the start alike, whenever they are asked.
pub proof fn lemma_answers_alike(
    one: CollectorView,
    other: CollectorView,
    name: Seq<char>,
    asked_one: Instant,
    asked_other: Instant,
)
    requires
        distinct(sop_keys(one.per_sop)),
        distinct(sop_keys(other.per_sop)),
        forall|sop: Seq<char>| named(one, sop) <==> named(other, sop),
        forall|sop: Option<Seq<char>>| tallies(one, sop) == tallies(other, sop),
        since_the_start(name),
    ensures
        one.query(name, asked_one) == other.query(name, asked_other),
{
    if "sop."@.is_prefix_of(name) {
        let rest = name.skip("sop."@.len() as int);
        lemma_tail_since_the_start(name, "sop."@.len() as int);
        assert(tallies(one, None) == tallies(other, None));
        assert(one.global.resolve(rest, asked_one) == metric_value(one.global.tally, rest));
        assert(other.global.resolve(rest, asked_other) == metric_value(other.global.tally, rest));
        let names_one = sop_keys(one.per_sop);
        let names_other = sop_keys(other.per_sop);
        assert forall|sop: Seq<char>|
            first_index(names_one, sop) is Some <==> first_index(names_other, sop) is Some by {
            assert(named(one, sop) <==> named(other, sop));
        }
        lemma_longest_match_alike(names_one, names_other, rest);
        if longest_match(names_one, rest) is Some {
            let k = longest_match(names_one, rest)->0;
            let j = longest_match(names_other, rest)->0;
            let sop = names_one[k];
            assert(one.per_sop[k].0 == sop && other.per_sop[j].0 == sop);
            lemma_longest_match_is_one(names_one, rest, k);
            lemma_tail_since_the_start(rest, sop.len() as int + 1);
            lemma_first_index(names_one, sop);
            lemma_first_index(names_other, sop);
            assert(first_index(names_one, sop) == Some(k)) by {
                let found = first_index(names_one, sop)->0;
                if found != k {
                    assert(names_one[found] == names_one[k]);
                }
            }
            assert(first_index(names_other, sop) == Some(j)) by {
                let found = first_index(names_other, sop)->0;
                if found != j {
                    assert(names_other[found] == names_other[j]);
                }
            }
            assert(tallies(one, Some(sop)) == tallies(other, Some(sop)));
            assert(one.per_sop[k].1.tally == other.per_sop[j].1.tally);
        }
    }
}

/// What the longest match is: a name that names a procedure in `rest`.
proof fn lemma_longest_match_is_one(names: Seq<Seq<char>>, rest: Seq<char>, k: int)
    requires
        longest_match(names, rest) == Some(k),
    ensures
        is_longest_match(names, rest, k),
        names[k].len() + 1 <= rest.len(),
{
}

/// Warm start round trip, for the reader of metrics. For writes of runs that
/// go their way, an aggregator rebuilt from the records they leave and an
/// aggregator that was told of each approval and each ended run as it
/// happened answer alike to every metric name without a time window, over
/// all procedures or over one. The instants of the events, of the warm
/// start and of the two questions do not matter.
pub proof fn lemma_warm_start_answers_alike(
    writes: Seq<AuditWrite>,
    clock: spec_fn(int) -> Instant,
    now: Instant,
    name: Seq<char>,
    asked_warm: Instant,
    asked_live: Instant,
)
    requires
        orderly(writes),
        since_the_start(name),
    ensures
        rebuilt(entries_of(writes), now).query(name, asked_warm) == fed(
            CollectorView::empty(),
            writes,
            clock,
        ).query(name, asked_live),
{
    let entries = entries_of(writes);
    let warm = rebuilt(entries, now);
    let live = fed(CollectorView::empty(), writes, clock);
    let human = approval_ids(entries, AuditKind::Approval);
    let timeout = approval_ids(entries, AuditKind::TimeoutApproval);
    lemma_terminal_runs_of_orderly(writes);
    let counted = with_runs(CollectorView::empty(), completes(writes), human, timeout, now);
    assert(distinct(sop_keys(CollectorView::empty().per_sop)));
    assert forall|sop: Seq<char>| named(warm, sop) <==> named(live, sop) by {
        lemma_first_index(sop_keys(CollectorView::empty().per_sop), sop);
        lemma_with_runs_names(
            CollectorView::empty(),
            completes(writes),
            human,
            timeout,
            now,
            sop,
        );
        lemma_with_approvals_names(counted, entries, sop);
        lemma_fed_names(writes, clock, sop);
        lemma_touches(writes, sop);
    }
    assert forall|sop: Option<Seq<char>>| tallies(warm, sop) == tallies(live, sop) by {
        lemma_warm_start_round_trip(writes, clock, now, sop);
    }
    lemma_with_runs_names(
        CollectorView::empty(),
        completes(writes),
        human,
        timeout,
        now,
        Seq::empty(),
    );
    lemma_with_approvals_names(counted, entries, Seq::empty());
    lemma_fed_names(writes, clock, Seq::empty());
    lemma_answers_alike(warm, live, name, asked_warm, asked_live);
}

} // verus!
