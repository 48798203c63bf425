//! Approvals that wait for their run to end: which run, and since when.

use vstd::prelude::*;
use vstd::string::*;
use crate::lookup::{
    distinct, first_index, lemma_first_index, lemma_first_index_is, lemma_first_index_none,
};
use crate::metrics::model::{Instant, PENDING_EVICT_SECS};

verus! {

/// The pending approvals as a list of run id and instant.
pub type PendingView = Seq<(Seq<char>, Instant)>;

/// The run ids of a list of pending approvals.
pub open spec fn pending_ids(pending: PendingView) -> Seq<Seq<char>> {
    Seq::new(pending.len(), |i: int| pending[i].0)
}

/// No run has two pending approvals.
pub open spec fn pending_wf(pending: PendingView) -> bool {
    distinct(pending_ids(pending))
}

/// Does the run have a pending approval?
pub open spec fn holds(pending: PendingView, run_id: Seq<char>) -> bool {
    first_index(pending_ids(pending), run_id) is Some
}

/// The list with the approval of `run_id` at `at`, in the place of an earlier
/// one of the same run where there is one.
pub open spec fn put(pending: PendingView, run_id: Seq<char>, at: Instant) -> PendingView {
    match first_index(pending_ids(pending), run_id) {
        Some(k) => pending.update(k, (run_id, at)),
        None => pending.push((run_id, at)),
    }
}

/// The list without the approval of `run_id`.
pub open spec fn without(pending: PendingView, run_id: Seq<char>) -> PendingView {
    match first_index(pending_ids(pending), run_id) {
        Some(k) => pending.remove(k),
        None => pending,
    }
}

/// The approvals that are less than `PENDING_EVICT_SECS` seconds old at `now`.
pub open spec fn fresh(pending: PendingView, now: Instant) -> PendingView
    decreases pending.len(),
{
    if pending.len() == 0 {
        Seq::empty()
    } else if pending.last().1.older_than(now, PENDING_EVICT_SECS as int) {
        fresh(pending.drop_last(), now)
    } else {
        fresh(pending.drop_last(), now).push(pending.last())
    }
}

/// The fresh approvals are among the approvals.
pub proof fn lemma_fresh(pending: PendingView, now: Instant)
    ensures
        fresh(pending, now).len() <= pending.len(),
        forall|i: int|
            0 <= i < fresh(pending, now).len() ==> exists|j: int|
                0 <= j < pending.len() && pending[j] == #[trigger] fresh(pending, now)[i],
    decreases pending.len(),
{
    if pending.len() > 0 {
        let front = pending.drop_last();
        lemma_fresh(front, now);
        let f = fresh(pending, now);
        let ff = fresh(front, now);
        assert forall|i: int| 0 <= i < f.len() implies exists|j: int|
            0 <= j < pending.len() && pending[j] == #[trigger] f[i] by {
            if i < ff.len() {
                assert(f[i] == ff[i]);
                let j = choose|j: int| 0 <= j < front.len() && front[j] == ff[i];
                assert(pending[j] == f[i]);
            } else {
                assert(pending[pending.len() - 1] == f[i]);
            }
        }
    }
}

/// Dropping the stale approvals keeps the ids distinct.
pub proof fn lemma_fresh_wf(pending: PendingView, now: Instant)
    requires
        pending_wf(pending),
    ensures
        pending_wf(fresh(pending, now)),
    decreases pending.len(),
{
    if pending.len() > 0 {
        let front = pending.drop_last();
        assert forall|i: int, j: int| 0 <= i < j < pending_ids(front).len() implies pending_ids(
            front,
        )[i] != pending_ids(front)[j] by {
            assert(pending_ids(front)[i] == pending_ids(pending)[i]);
            assert(pending_ids(front)[j] == pending_ids(pending)[j]);
        }
        lemma_fresh_wf(front, now);
        lemma_fresh(front, now);
        let f = fresh(pending, now);
        let ff = fresh(front, now);
        assert forall|a: int, b: int| 0 <= a < b < pending_ids(f).len() implies pending_ids(f)[a]
            != pending_ids(f)[b] by {
            if b < ff.len() {
                assert(pending_ids(ff)[a] != pending_ids(ff)[b]);
                assert(f[a] == ff[a] && f[b] == ff[b]);
            } else {
                assert(f[a] == ff[a]);
                let j = choose|j: int| 0 <= j < front.len() && front[j] == ff[a];
                assert(pending_ids(pending)[j] != pending_ids(pending)[pending.len() - 1]);
            }
        }
    }
}

/// One pending approval.
pub struct PendingApproval {
    pub run_id: String,
    pub since: Instant,
}

impl DeepView for PendingApproval {
    type V = (Seq<char>, Instant);

    open spec fn deep_view(&self) -> (Seq<char>, Instant) {
        (self.run_id@, self.since)
    }
}

/// Has a time of `limit` seconds or more passed at `now` since `since`?
pub fn older_than(since: Instant, now: Instant, limit: u64) -> (r: bool)
    ensures
        r == since.older_than(now, limit as int),
{
    let passed: i128 = (now.secs as i128 - since.secs as i128) * 1_000_000_000 + (now.nanos as i128
        - since.nanos as i128);
    passed >= (limit as i128) * 1_000_000_000
}

/// The pending approvals of one kind.
pub struct PendingApprovals {
    entries: Vec<PendingApproval>,
}

impl View for PendingApprovals {
    type V = PendingView;

    closed spec fn view(&self) -> PendingView {
        self.entries.deep_view()
    }
}

impl PendingApprovals {
    /// No pending approvals.
    pub fn new() -> (r: PendingApprovals)
        ensures
            r@ == Seq::<(Seq<char>, Instant)>::empty(),
            pending_wf(r@),
    {
        let r = PendingApprovals { entries: Vec::new() };
        assert(r@ =~= Seq::empty());
        r
    }

    /// How many approvals are pending.
    pub fn len(&self) -> (r: usize)
        ensures
            r == self@.len(),
    {
        self.entries.len()
    }

    fn find(&self, run_id: &str) -> (r: Option<usize>)
        ensures
            r is Some == first_index(pending_ids(self@), run_id@) is Some,
            r is Some ==> r->0 == first_index(pending_ids(self@), run_id@)->0,
            r is Some ==> r->0 < self.entries.len(),
    {
        let ghost keys = pending_ids(self@);
        let mut i: usize = 0;
        while i < self.entries.len()
            invariant
                i <= self.entries.len(),
                keys == pending_ids(self@),
                forall|j: int| 0 <= j < i ==> keys[j] != run_id@,
            decreases self.entries.len() - i,
        {
            if *self.entries[i].run_id.as_str() == *run_id {
                proof {
                    lemma_first_index_is(keys, run_id@, i as int);
                }
                return Some(i);
            }
            i += 1;
        }
        proof {
            lemma_first_index_none(keys, run_id@);
        }
        None
    }

    /// Notes the approval of `run_id` at `at`; an earlier one of the same run
    /// is replaced.
    pub fn put(&mut self, run_id: &str, at: Instant)
        requires
            pending_wf(old(self)@),
        ensures
            final(self)@ == put(old(self)@, run_id@, at),
            pending_wf(final(self)@),
    {
        proof {
            lemma_first_index(pending_ids(self@), run_id@);
        }
        match self.find(run_id) {
            Some(k) => {
                let mut entry = self.entries.remove(k);
                entry.since = at;
                self.entries.insert(k, entry);
                assert(self@ =~= old(self)@.update(k as int, (run_id@, at)));
                assert(pending_ids(self@) =~= pending_ids(old(self)@));
            },
            None => {
                self.entries.push(PendingApproval { run_id: run_id.to_owned(), since: at });
                assert(self@ =~= old(self)@.push((run_id@, at)));
                assert forall|i: int, j: int| 0 <= i < j < pending_ids(self@).len() implies pending_ids(
                    self@,
                )[i] != pending_ids(self@)[j] by {
                    assert(pending_ids(self@)[i] == pending_ids(old(self)@)[i]);
                    if j < old(self)@.len() {
                        assert(pending_ids(self@)[j] == pending_ids(old(self)@)[j]);
                    }
                }
            },
        }
    }

    /// Drops the approvals that are `PENDING_EVICT_SECS` seconds old or older at `now`.
    pub fn evict_stale(&mut self, now: Instant)
        requires
            pending_wf(old(self)@),
        ensures
            final(self)@ == fresh(old(self)@, now),
            pending_wf(final(self)@),
    {
        let ghost all = self@;
        let ghost mut seen: int = 0;
        let mut i: usize = 0;
        assert(fresh(all.take(0), now) =~= Seq::empty());
        assert(all.skip(0) =~= all);
        while i < self.entries.len()
            invariant
                0 <= seen <= all.len(),
                i <= self.entries.len(),
                i == fresh(all.take(seen), now).len(),
                self@ == fresh(all.take(seen), now) + all.skip(seen),
            decreases self.entries.len() - i,
        {
            proof {
                assert(self@[i as int] == all.skip(seen)[0]);
                assert(seen < all.len());
                assert(all.take(seen + 1).drop_last() =~= all.take(seen));
                assert(all.take(seen + 1).last() == all[seen]);
            }
            let ghost before = self@;
            if older_than(self.entries[i].since, now, PENDING_EVICT_SECS) {
                let _ = self.entries.remove(i);
                proof {
                    assert(self@ =~= before.remove(i as int));
                    assert(self@ =~= fresh(all.take(seen + 1), now) + all.skip(seen + 1));
                }
            } else {
                i += 1;
                proof {
                    assert(self@ =~= fresh(all.take(seen + 1), now) + all.skip(seen + 1));
                }
            }
            proof {
                seen = seen + 1;
            }
        }
        proof {
            lemma_fresh(all.take(seen), now);
            assert(seen == all.len()) by {
                if seen < all.len() {
                    assert(self@.len() == i + all.skip(seen).len());
                }
            }
            assert(all.take(seen) =~= all);
            assert(all.skip(seen) =~= Seq::empty());
            assert(self@ =~= fresh(all, now));
            lemma_fresh_wf(all, now);
        }
    }

    /// Takes the approval of `run_id` out, and says whether there was one.
    pub fn take(&mut self, run_id: &str) -> (r: bool)
        requires
            pending_wf(old(self)@),
        ensures
            r == holds(old(self)@, run_id@),
            final(self)@ == without(old(self)@, run_id@),
            pending_wf(final(self)@),
    {
        match self.find(run_id) {
            Some(k) => {
                let _ = self.entries.remove(k);
                assert(self@ =~= old(self)@.remove(k as int));
                assert forall|i: int, j: int| 0 <= i < j < pending_ids(self@).len() implies pending_ids(
                    self@,
                )[i] != pending_ids(self@)[j] by {
                    let a = if i < k {
                        i
                    } else {
                        i + 1
                    };
                    let b = if j < k {
                        j
                    } else {
                        j + 1
                    };
                    assert(pending_ids(self@)[i] == pending_ids(old(self)@)[a]);
                    assert(pending_ids(self@)[j] == pending_ids(old(self)@)[b]);
                }
                true
            },
            None => false,
        }
    }
}

} // verus!
