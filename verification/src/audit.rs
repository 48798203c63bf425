//! The audit trail: the records the core writes, and the keys that say what
//! kind of record each is.

use vstd::prelude::*;
use vstd::string::*;
use crate::text::{decimal, push_decimal, starts_with};
use crate::types::{SopRun, SopRunView};

verus! {

/// The category the core writes its records under.
pub open spec fn category_text() -> Seq<char> {
    "sop"@
}

/// The key of the record of a run, written at its start and at its end.
pub open spec fn run_key(run_id: Seq<char>) -> Seq<char> {
    "sop_run_"@ + run_id
}

/// The key of the record written after step `step` of a run was recorded.
pub open spec fn step_key(run_id: Seq<char>, step: nat) -> Seq<char> {
    "sop_step_"@ + run_id + "_"@ + decimal(step)
}

/// The key of the record written when a human approved step `step` of a run.
pub open spec fn approval_key(run_id: Seq<char>, step: nat) -> Seq<char> {
    "sop_approval_"@ + run_id + "_"@ + decimal(step)
}

/// The key of the record written when the approval of step `step` of a run
/// fired on a timeout.
pub open spec fn timeout_key(run_id: Seq<char>, step: nat) -> Seq<char> {
    "sop_timeout_approve_"@ + run_id + "_"@ + decimal(step)
}

/// What a record tells the metrics at a warm start.
#[derive(Clone, Copy, Debug, PartialEq, Eq, Structural)]
pub enum AuditKind {
    /// The record of a run.
    Run,
    /// A human approval.
    Approval,
    /// An approval that fired on a timeout.
    TimeoutApproval,
    /// Anything else.
    Other,
}

/// The kind of record a key stands for, by its prefix.
pub open spec fn kind_of_key(key: Seq<char>) -> AuditKind {
    if "sop_run_"@.is_prefix_of(key) {
        AuditKind::Run
    } else if "sop_approval_"@.is_prefix_of(key) {
        AuditKind::Approval
    } else if "sop_timeout_approve_"@.is_prefix_of(key) {
        AuditKind::TimeoutApproval
    } else {
        AuditKind::Other
    }
}

/// The kind of record a key stands for.
pub fn classify_key(key: &str) -> (r: AuditKind)
    ensures
        r == kind_of_key(key@),
{
    if starts_with(key, "sop_run_") {
        AuditKind::Run
    } else if starts_with(key, "sop_approval_") {
        AuditKind::Approval
    } else if starts_with(key, "sop_timeout_approve_") {
        AuditKind::TimeoutApproval
    } else {
        AuditKind::Other
    }
}

/// Each key is read back as the kind of record it was written for.
pub proof fn lemma_keys_classified(run_id: Seq<char>, step: nat)
    ensures
        kind_of_key(run_key(run_id)) == AuditKind::Run,
        kind_of_key(step_key(run_id, step)) == AuditKind::Other,
        kind_of_key(approval_key(run_id, step)) == AuditKind::Approval,
        kind_of_key(timeout_key(run_id, step)) == AuditKind::TimeoutApproval,
{
    reveal_strlit("sop_run_");
    reveal_strlit("sop_step_");
    reveal_strlit("sop_approval_");
    reveal_strlit("sop_timeout_approve_");
    let tail = run_id + "_"@ + decimal(step);
    assert(step_key(run_id, step) =~= "sop_step_"@ + tail);
    assert(approval_key(run_id, step) =~= "sop_approval_"@ + tail);
    assert(timeout_key(run_id, step) =~= "sop_timeout_approve_"@ + tail);
    assert(step_key(run_id, step)[4] == 's');
    assert("sop_run_"@[4] == 'r');
    assert("sop_approval_"@[4] == 'a');
    assert("sop_timeout_approve_"@[4] == 't');
    assert(approval_key(run_id, step)[4] == 'a');
    assert(timeout_key(run_id, step)[4] == 't');
    assert(run_key(run_id)[4] == 'r');
    assert("sop_run_"@.is_prefix_of(run_key(run_id)));
    assert("sop_approval_"@.is_prefix_of(approval_key(run_id, step)));
    assert("sop_timeout_approve_"@.is_prefix_of(timeout_key(run_id, step)));
}

/// One record of the audit trail: its category, its key, and the run as it
/// stood when the record was made.
#[derive(Debug, PartialEq, Eq)]
pub struct AuditRecord {
    pub category: String,
    pub key: String,
    pub run: SopRun,
}

/// An audit record as a mathematical value.
pub struct AuditRecordView {
    pub category: Seq<char>,
    pub key: Seq<char>,
    pub run: SopRunView,
}

impl View for AuditRecord {
    type V = AuditRecordView;

    open spec fn view(&self) -> AuditRecordView {
        AuditRecordView { category: self.category@, key: self.key@, run: self.run@ }
    }
}

impl DeepView for AuditRecord {
    type V = AuditRecordView;

    open spec fn deep_view(&self) -> AuditRecordView {
        self@
    }
}

impl Clone for AuditRecord {
    fn clone(&self) -> (r: Self)
        ensures
            r@ == self@,
    {
        AuditRecord {
            category: self.category.clone(),
            key: self.key.clone(),
            run: self.run.clone(),
        }
    }
}

/// The record with the given key for `run`.
pub open spec fn record_of(key: Seq<char>, run: SopRunView) -> AuditRecordView {
    AuditRecordView { category: category_text(), key, run }
}

/// Makes the records of the audit trail. It writes nothing itself: whoever
/// holds the backend appends what it makes.
#[derive(Clone, Copy, Debug, PartialEq, Eq)]
pub struct SopAuditLogger {
}

impl SopAuditLogger {
    /// A maker of audit records.
    pub fn new() -> (r: SopAuditLogger) {
        SopAuditLogger {  }
    }

    /// The category all records are written under.
    pub fn category(&self) -> (r: &'static str)
        ensures
            r@ == category_text(),
    {
        "sop"
    }

    fn keyed(&self, prefix: &str, run: &SopRun, step: Option<u32>) -> (r: AuditRecord)
        ensures
            r@.category == category_text(),
            r@.run == run@,
            r@.key == match step {
                Some(n) => prefix@ + run@.run_id + "_"@ + decimal(n as nat),
                None => prefix@ + run@.run_id,
            },
    {
        let mut key = String::new();
        key.append(prefix);
        key.append(run.run_id.as_str());
        match step {
            Some(n) => {
                key.append("_");
                push_decimal(&mut key, n as u64);
            },
            None => {},
        }
        proof {
            match step {
                Some(n) => {
                    assert(key@ =~= prefix@ + run@.run_id + "_"@ + decimal(n as nat));
                },
                None => {
                    assert(key@ =~= prefix@ + run@.run_id);
                },
            }
        }
        AuditRecord { category: "sop".to_owned(), key, run: run.clone() }
    }

    /// The record of a run at its start.
    pub fn log_run_start(&self, run: &SopRun) -> (r: AuditRecord)
        ensures
            r@ == record_of(run_key(run@.run_id), run@),
    {
        self.keyed("sop_run_", run, None)
    }

    /// The record of a run at its end.
    pub fn log_run_complete(&self, run: &SopRun) -> (r: AuditRecord)
        ensures
            r@ == record_of(run_key(run@.run_id), run@),
    {
        self.keyed("sop_run_", run, None)
    }

    /// The record written after the result of step `step_number` was recorded;
    /// it holds the run as it stood after that.
    pub fn log_step_result(&self, run: &SopRun, step_number: u32) -> (r: AuditRecord)
        ensures
            r@ == record_of(step_key(run@.run_id, step_number as nat), run@),
    {
        self.keyed("sop_step_", run, Some(step_number))
    }

    /// The record written when a human approved step `step_number`.
    pub fn log_approval(&self, run: &SopRun, step_number: u32) -> (r: AuditRecord)
        ensures
            r@ == record_of(approval_key(run@.run_id, step_number as nat), run@),
    {
        self.keyed("sop_approval_", run, Some(step_number))
    }

    /// The record written when the approval of step `step_number` fired on a timeout.
    pub fn log_timeout_auto_approve(&self, run: &SopRun, step_number: u32) -> (r: AuditRecord)
        ensures
            r@ == record_of(timeout_key(run@.run_id, step_number as nat), run@),
    {
        self.keyed("sop_timeout_approve_", run, Some(step_number))
    }
}

} // verus!
