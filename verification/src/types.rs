//! The data model: procedure definitions, trigger events, runs, step results
//! and the action a run asks of its caller, each with its mathematical view.

use vstd::prelude::*;
use vstd::string::*;

verus! {

/// How urgent a procedure is.
#[derive(Clone, Copy, Debug, PartialEq, Eq, Structural)]
pub enum SopPriority {
    Low,
    Normal,
    High,
    Critical,
}

/// Whether the engine proceeds between steps by itself or waits for approval
/// before every step.
#[derive(Clone, Copy, Debug, PartialEq, Eq, Structural)]
pub enum SopExecutionMode {
    Auto,
    Supervised,
}

/// What kind of source raised a trigger event.
#[derive(Clone, Copy, Debug, PartialEq, Eq, Structural)]
pub enum SopTriggerSource {
    Manual,
    Schedule,
    Channel,
    Heartbeat,
}

/// Status of a run.
#[derive(Clone, Copy, Debug, PartialEq, Eq, Structural)]
pub enum SopRunStatus {
    Pending,
    Running,
    WaitingApproval,
    Completed,
    Failed,
    Cancelled,
}

/// Outcome of one step.
#[derive(Clone, Copy, Debug, PartialEq, Eq, Structural)]
pub enum SopStepStatus {
    Completed,
    Failed,
    Skipped,
}

/// What can start a procedure.
#[derive(Clone, Debug, PartialEq, Eq)]
pub enum SopTrigger {
    Manual,
    Schedule(String),
    Topic(String),
}

/// A trigger as a mathematical value.
pub enum SopTriggerView {
    Manual,
    Schedule(Seq<char>),
    Topic(Seq<char>),
}

impl View for SopTrigger {
    type V = SopTriggerView;

    open spec fn view(&self) -> SopTriggerView {
        match self {
            SopTrigger::Manual => SopTriggerView::Manual,
            SopTrigger::Schedule(cron) => SopTriggerView::Schedule(cron@),
            SopTrigger::Topic(pattern) => SopTriggerView::Topic(pattern@),
        }
    }
}

impl DeepView for SopTrigger {
    type V = SopTriggerView;

    open spec fn deep_view(&self) -> SopTriggerView {
        self@
    }
}

/// One step of a procedure.
#[derive(Clone, Debug, PartialEq, Eq)]
pub struct SopStep {
    pub number: u32,
    pub title: String,
    pub body: String,
    pub suggested_tools: Vec<String>,
    pub requires_confirmation: bool,
}

/// A step as a mathematical value.
pub struct SopStepView {
    pub number: u32,
    pub title: Seq<char>,
    pub body: Seq<char>,
    pub suggested_tools: Seq<Seq<char>>,
    pub requires_confirmation: bool,
}

impl View for SopStep {
    type V = SopStepView;

    open spec fn view(&self) -> SopStepView {
        SopStepView {
            number: self.number,
            title: self.title@,
            body: self.body@,
            suggested_tools: self.suggested_tools.deep_view(),
            requires_confirmation: self.requires_confirmation,
        }
    }
}

impl DeepView for SopStep {
    type V = SopStepView;

    open spec fn deep_view(&self) -> SopStepView {
        self@
    }
}

/// A catalogue entry: a named, versioned, ordered list of steps with its policy.
#[derive(Clone, Debug, PartialEq, Eq)]
pub struct Sop {
    pub name: String,
    pub description: String,
    pub version: String,
    pub priority: SopPriority,
    pub execution_mode: SopExecutionMode,
    pub triggers: Vec<SopTrigger>,
    pub steps: Vec<SopStep>,
    pub cooldown_secs: u64,
    pub max_concurrent: u32,
    pub location: Option<String>,
}

/// A procedure as a mathematical value.
pub struct SopView {
    pub name: Seq<char>,
    pub description: Seq<char>,
    pub version: Seq<char>,
    pub priority: SopPriority,
    pub execution_mode: SopExecutionMode,
    pub triggers: Seq<SopTriggerView>,
    pub steps: Seq<SopStepView>,
    pub cooldown_secs: u64,
    pub max_concurrent: u32,
    pub location: Option<Seq<char>>,
}

impl View for Sop {
    type V = SopView;

    open spec fn view(&self) -> SopView {
        SopView {
            name: self.name@,
            description: self.description@,
            version: self.version@,
            priority: self.priority,
            execution_mode: self.execution_mode,
            triggers: self.triggers.deep_view(),
            steps: self.steps.deep_view(),
            cooldown_secs: self.cooldown_secs,
            max_concurrent: self.max_concurrent,
            location: self.location.deep_view(),
        }
    }
}

impl DeepView for Sop {
    type V = SopView;

    open spec fn deep_view(&self) -> SopView {
        self@
    }
}

impl SopView {
    /// The steps carry the numbers 1, 2, ... in order, and there are no more
    /// of them than the step counter of a run can hold.
    pub open spec fn steps_dense(self) -> bool {
        &&& self.steps.len() <= u32::MAX
        &&& forall|i: int| 0 <= i < self.steps.len() ==> (#[trigger] self.steps[i]).number == i + 1
    }

    /// Does step `number` (counted from 1) halt for approval before it runs?
    pub open spec fn gated(self, number: int) -> bool {
        self.execution_mode == SopExecutionMode::Supervised || (1 <= number <= self.steps.len()
            && self.steps[number - 1].requires_confirmation)
    }
}

/// The context of a trigger.
#[derive(Debug, PartialEq, Eq)]
pub struct SopEvent {
    pub source: SopTriggerSource,
    pub topic: Option<String>,
    pub payload: Option<String>,
    pub timestamp: String,
}

/// An event as a mathematical value.
pub struct SopEventView {
    pub source: SopTriggerSource,
    pub topic: Option<Seq<char>>,
    pub payload: Option<Seq<char>>,
    pub timestamp: Seq<char>,
}

impl View for SopEvent {
    type V = SopEventView;

    open spec fn view(&self) -> SopEventView {
        SopEventView {
            source: self.source,
            topic: self.topic.deep_view(),
            payload: self.payload.deep_view(),
            timestamp: self.timestamp@,
        }
    }
}

impl DeepView for SopEvent {
    type V = SopEventView;

    open spec fn deep_view(&self) -> SopEventView {
        self@
    }
}

/// A copy of an optional string.
pub fn clone_opt_string(value: &Option<String>) -> (r: Option<String>)
    ensures
        r.deep_view() == value.deep_view(),
{
    match value {
        Some(s) => Some(s.clone()),
        None => None,
    }
}

impl Clone for SopEvent {
    fn clone(&self) -> (r: Self)
        ensures
            r@ == self@,
    {
        SopEvent {
            source: self.source,
            topic: clone_opt_string(&self.topic),
            payload: clone_opt_string(&self.payload),
            timestamp: self.timestamp.clone(),
        }
    }
}

/// The recorded outcome of one attempted step.
#[derive(Debug, PartialEq, Eq)]
pub struct SopStepResult {
    pub step_number: u32,
    pub status: SopStepStatus,
    pub output: String,
    pub started_at: String,
    pub completed_at: Option<String>,
}

/// A step result as a mathematical value.
pub struct SopStepResultView {
    pub step_number: u32,
    pub status: SopStepStatus,
    pub output: Seq<char>,
    pub started_at: Seq<char>,
    pub completed_at: Option<Seq<char>>,
}

impl View for SopStepResult {
    type V = SopStepResultView;

    open spec fn view(&self) -> SopStepResultView {
        SopStepResultView {
            step_number: self.step_number,
            status: self.status,
            output: self.output@,
            started_at: self.started_at@,
            completed_at: self.completed_at.deep_view(),
        }
    }
}

impl DeepView for SopStepResult {
    type V = SopStepResultView;

    open spec fn deep_view(&self) -> SopStepResultView {
        self@
    }
}

impl Clone for SopStepResult {
    fn clone(&self) -> (r: Self)
        ensures
            r@ == self@,
    {
        SopStepResult {
            step_number: self.step_number,
            status: self.status,
            output: self.output.clone(),
            started_at: self.started_at.clone(),
            completed_at: clone_opt_string(&self.completed_at),
        }
    }
}

/// A copy of a list of step results.
pub fn clone_step_results(results: &Vec<SopStepResult>) -> (r: Vec<SopStepResult>)
    ensures
        r.deep_view() == results.deep_view(),
{
    let mut out: Vec<SopStepResult> = Vec::new();
    let mut i: usize = 0;
    while i < results.len()
        invariant
            i <= results.len(),
            out.len() == i,
            forall|j: int| 0 <= j < i ==> out[j]@ == results[j]@,
        decreases results.len() - i,
    {
        out.push(results[i].clone());
        i += 1;
    }
    assert(out.deep_view() =~= results.deep_view());
    out
}

/// One execution of a procedure.
#[derive(Debug, PartialEq, Eq)]
pub struct SopRun {
    pub run_id: String,
    pub sop_name: String,
    pub trigger_event: SopEvent,
    pub status: SopRunStatus,
    pub current_step: u32,
    pub total_steps: u32,
    pub started_at: String,
    pub completed_at: Option<String>,
    pub step_results: Vec<SopStepResult>,
    pub waiting_since: Option<String>,
}

/// A run as a mathematical value.
pub struct SopRunView {
    pub run_id: Seq<char>,
    pub sop_name: Seq<char>,
    pub trigger_event: SopEventView,
    pub status: SopRunStatus,
    pub current_step: u32,
    pub total_steps: u32,
    pub started_at: Seq<char>,
    pub completed_at: Option<Seq<char>>,
    pub step_results: Seq<SopStepResultView>,
    pub waiting_since: Option<Seq<char>>,
}

impl View for SopRun {
    type V = SopRunView;

    open spec fn view(&self) -> SopRunView {
        SopRunView {
            run_id: self.run_id@,
            sop_name: self.sop_name@,
            trigger_event: self.trigger_event@,
            status: self.status,
            current_step: self.current_step,
            total_steps: self.total_steps,
            started_at: self.started_at@,
            completed_at: self.completed_at.deep_view(),
            step_results: self.step_results.deep_view(),
            waiting_since: self.waiting_since.deep_view(),
        }
    }
}

impl DeepView for SopRun {
    type V = SopRunView;

    open spec fn deep_view(&self) -> SopRunView {
        self@
    }
}

impl Clone for SopRun {
    fn clone(&self) -> (r: Self)
        ensures
            r@ == self@,
    {
        SopRun {
            run_id: self.run_id.clone(),
            sop_name: self.sop_name.clone(),
            trigger_event: self.trigger_event.clone(),
            status: self.status,
            current_step: self.current_step,
            total_steps: self.total_steps,
            started_at: self.started_at.clone(),
            completed_at: clone_opt_string(&self.completed_at),
            step_results: clone_step_results(&self.step_results),
            waiting_since: clone_opt_string(&self.waiting_since),
        }
    }
}

/// Is `status` one of the three statuses a run ends in?
pub open spec fn terminal(status: SopRunStatus) -> bool {
    status == SopRunStatus::Completed || status == SopRunStatus::Failed || status
        == SopRunStatus::Cancelled
}

impl SopRunView {
    /// What holds of every run the engine keeps: it has a completion time
    /// exactly when its status is terminal, it never holds more step results
    /// than the procedure has steps, and it holds as many only once it is
    /// terminal.
    pub open spec fn consistent(self) -> bool {
        &&& self.completed_at is Some <==> terminal(self.status)
        &&& self.step_results.len() <= self.total_steps
        &&& self.step_results.len() == self.total_steps ==> terminal(self.status)
    }
}

/// The number of results in `results` that have `status`.
pub open spec fn count_status(results: Seq<SopStepResultView>, status: SopStepStatus) -> nat
    decreases results.len(),
{
    if results.len() == 0 {
        0
    } else {
        count_status(results.drop_last(), status) + if results.last().status == status {
            1nat
        } else {
            0nat
        }
    }
}

impl SopRunStatus {
    /// The lower-case word a status is shown as.
    pub open spec fn text(self) -> Seq<char> {
        match self {
            SopRunStatus::Pending => "pending"@,
            SopRunStatus::Running => "running"@,
            SopRunStatus::WaitingApproval => "waiting_approval"@,
            SopRunStatus::Completed => "completed"@,
            SopRunStatus::Failed => "failed"@,
            SopRunStatus::Cancelled => "cancelled"@,
        }
    }

    /// The word the status is shown as.
    pub fn as_str(&self) -> (r: &'static str)
        ensures
            r@ == self.text(),
    {
        match self {
            SopRunStatus::Pending => "pending",
            SopRunStatus::Running => "running",
            SopRunStatus::WaitingApproval => "waiting_approval",
            SopRunStatus::Completed => "completed",
            SopRunStatus::Failed => "failed",
            SopRunStatus::Cancelled => "cancelled",
        }
    }

    /// Is the status one of the three a run ends in?
    pub fn is_terminal(&self) -> (r: bool)
        ensures
            r == terminal(*self),
    {
        match self {
            SopRunStatus::Completed | SopRunStatus::Failed | SopRunStatus::Cancelled => true,
            _ => false,
        }
    }
}

impl SopStepStatus {
    /// The lower-case word a step status is shown as and written as by an operator.
    pub open spec fn text(self) -> Seq<char> {
        match self {
            SopStepStatus::Completed => "completed"@,
            SopStepStatus::Failed => "failed"@,
            SopStepStatus::Skipped => "skipped"@,
        }
    }

    /// The step status an operator's word stands for, if it stands for one.
    pub open spec fn of_text(word: Seq<char>) -> Option<SopStepStatus> {
        if word == "completed"@ {
            Some(SopStepStatus::Completed)
        } else if word == "failed"@ {
            Some(SopStepStatus::Failed)
        } else if word == "skipped"@ {
            Some(SopStepStatus::Skipped)
        } else {
            None
        }
    }

    /// The word the status is shown as.
    pub fn as_str(&self) -> (r: &'static str)
        ensures
            r@ == self.text(),
    {
        match self {
            SopStepStatus::Completed => "completed",
            SopStepStatus::Failed => "failed",
            SopStepStatus::Skipped => "skipped",
        }
    }

    /// Reads `completed`, `failed` or `skipped`; any other word is `None`.
    pub fn parse(word: &str) -> (r: Option<SopStepStatus>)
        ensures
            r == Self::of_text(word@),
    {
        if *word == *"completed" {
            Some(SopStepStatus::Completed)
        } else if *word == *"failed" {
            Some(SopStepStatus::Failed)
        } else if *word == *"skipped" {
            Some(SopStepStatus::Skipped)
        } else {
            None
        }
    }
}

/// What a run requires of its caller after a transition.
#[derive(Debug, PartialEq, Eq)]
pub enum SopRunAction {
    /// Carry out the step whose instruction is `context`.
    ExecuteStep { run_id: String, step_number: u32, context: String },
    /// Show `context`, then halt until the step is approved.
    WaitApproval { run_id: String, step_number: u32, context: String },
    /// The run ended in success.
    Completed { run_id: String, sop_name: String },
    /// The run ended in failure.
    Failed { run_id: String, sop_name: String, reason: String },
}

/// An action as a mathematical value.
pub enum SopRunActionView {
    ExecuteStep { run_id: Seq<char>, step_number: u32, context: Seq<char> },
    WaitApproval { run_id: Seq<char>, step_number: u32, context: Seq<char> },
    Completed { run_id: Seq<char>, sop_name: Seq<char> },
    Failed { run_id: Seq<char>, sop_name: Seq<char>, reason: Seq<char> },
}

impl View for SopRunAction {
    type V = SopRunActionView;

    open spec fn view(&self) -> SopRunActionView {
        match self {
            SopRunAction::ExecuteStep { run_id, step_number, context } => {
                SopRunActionView::ExecuteStep {
                    run_id: run_id@,
                    step_number: *step_number,
                    context: context@,
                }
            },
            SopRunAction::WaitApproval { run_id, step_number, context } => {
                SopRunActionView::WaitApproval {
                    run_id: run_id@,
                    step_number: *step_number,
                    context: context@,
                }
            },
            SopRunAction::Completed { run_id, sop_name } => SopRunActionView::Completed {
                run_id: run_id@,
                sop_name: sop_name@,
            },
            SopRunAction::Failed { run_id, sop_name, reason } => SopRunActionView::Failed {
                run_id: run_id@,
                sop_name: sop_name@,
                reason: reason@,
            },
        }
    }
}

impl SopRunActionView {
    /// The run the action is about.
    pub open spec fn run_id(self) -> Seq<char> {
        match self {
            SopRunActionView::ExecuteStep { run_id, .. } => run_id,
            SopRunActionView::WaitApproval { run_id, .. } => run_id,
            SopRunActionView::Completed { run_id, .. } => run_id,
            SopRunActionView::Failed { run_id, .. } => run_id,
        }
    }

    /// Does the action end the run?
    pub open spec fn ends_run(self) -> bool {
        self is Completed || self is Failed
    }
}

impl SopRunAction {
    /// The id of the run the action is about.
    pub fn run_id(&self) -> (r: &String)
        ensures
            r@ == self@.run_id(),
    {
        match self {
            SopRunAction::ExecuteStep { run_id, .. } => run_id,
            SopRunAction::WaitApproval { run_id, .. } => run_id,
            SopRunAction::Completed { run_id, .. } => run_id,
            SopRunAction::Failed { run_id, .. } => run_id,
        }
    }
}

/// The kinds of error the core tells apart.
#[derive(Clone, Copy, Debug, PartialEq, Eq, Structural)]
pub enum SopError {
    /// No procedure of that name is in the catalogue.
    UnknownSop,
    /// No run has that id.
    UnknownRun,
    /// The run is terminal or in the wrong state, or the step number is not the current one.
    InvalidTransition,
    /// A run of the procedure ended less than its cooldown ago.
    CooldownActive,
    /// The procedure already has as many open runs as it allows.
    ConcurrencyLimit,
    /// An argument is missing or misshaped.
    ParamInvalid,
    /// A lock was poisoned by a holder that panicked.
    LockPoisoned,
    /// The audit backend failed to list or append.
    BackendError,
}

impl SopError {
    /// The sentence an error is reported with.
    pub open spec fn text(self) -> Seq<char> {
        match self {
            SopError::UnknownSop => "SOP not found in catalogue"@,
            SopError::UnknownRun => "run not found"@,
            SopError::InvalidTransition => "invalid transition for this run"@,
            SopError::CooldownActive => "cooldown active for this SOP"@,
            SopError::ConcurrencyLimit => "concurrency limit reached for this SOP"@,
            SopError::ParamInvalid => "invalid parameter"@,
            SopError::LockPoisoned => "lock poisoned"@,
            SopError::BackendError => "audit backend error"@,
        }
    }

    /// The sentence the error is reported with.
    pub fn message(&self) -> (r: &'static str)
        ensures
            r@ == self.text(),
    {
        match self {
            SopError::UnknownSop => "SOP not found in catalogue",
            SopError::UnknownRun => "run not found",
            SopError::InvalidTransition => "invalid transition for this run",
            SopError::CooldownActive => "cooldown active for this SOP",
            SopError::ConcurrencyLimit => "concurrency limit reached for this SOP",
            SopError::ParamInvalid => "invalid parameter",
            SopError::LockPoisoned => "lock poisoned",
            SopError::BackendError => "audit backend error",
        }
    }
}

} // verus!
