//! The operator's tools: `sop_execute`, `sop_advance`, `sop_approve` and
//! `sop_status`. Each turns an operator's arguments into calls of the engine
//! and answers with a result and with the effects that are to follow: audit
//! records to append and events to hand to the metrics.

pub mod sop_advance;
pub mod sop_approve;
pub mod sop_execute;
pub mod sop_status;

use vstd::prelude::*;
use vstd::string::*;
use crate::audit::{AuditRecord, AuditRecordView};
use crate::lookup::{first_index, lemma_first_index_is, lemma_first_index_none};
use crate::types::{SopError, SopRun, SopRunView};

verus! {

/// What a tool answers.
#[derive(Debug, PartialEq, Eq)]
pub struct ToolResult {
    pub success: bool,
    pub output: String,
    pub error: Option<String>,
}

/// The answer of a tool as a mathematical value.
pub struct ToolResultView {
    pub success: bool,
    pub output: Seq<char>,
    pub error: Option<Seq<char>>,
}

impl View for ToolResult {
    type V = ToolResultView;

    open spec fn view(&self) -> ToolResultView {
        ToolResultView {
            success: self.success,
            output: self.output@,
            error: self.error.deep_view(),
        }
    }
}

/// The answer of a tool that did what it was asked.
pub open spec fn success_view(output: Seq<char>) -> ToolResultView {
    ToolResultView { success: true, output, error: None }
}

/// The answer of a tool that reports an error to the operator.
pub open spec fn failure_view(error: Seq<char>) -> ToolResultView {
    ToolResultView { success: false, output: Seq::empty(), error: Some(error) }
}

impl ToolResult {
    /// The answer of a tool that did what it was asked.
    pub fn succeeded(output: String) -> (r: ToolResult)
        ensures
            r@ == success_view(output@),
    {
        ToolResult { success: true, output, error: None }
    }

    /// The answer of a tool that reports an error to the operator.
    pub fn failed(error: String) -> (r: ToolResult)
        ensures
            r@ == failure_view(error@),
    {
        ToolResult { success: false, output: String::new(), error: Some(error) }
    }
}

/// What a tool reads of the value of an argument: the string it is, or that
/// it is no string.
#[derive(Clone, Debug, PartialEq, Eq)]
pub enum ArgValue {
    Str(String),
    Other,
}

/// One named argument.
#[derive(Clone, Debug, PartialEq, Eq)]
pub struct ToolArg {
    pub key: String,
    pub value: ArgValue,
}

impl DeepView for ToolArg {
    type V = (Seq<char>, Option<Seq<char>>);

    open spec fn deep_view(&self) -> (Seq<char>, Option<Seq<char>>) {
        (
            self.key@,
            match self.value {
                ArgValue::Str(s) => Some(s@),
                ArgValue::Other => None,
            },
        )
    }
}

/// The arguments of a tool call, as the fields of one object.
#[derive(Clone, Debug, PartialEq, Eq)]
pub struct ToolArgs {
    pub entries: Vec<ToolArg>,
}

/// The arguments as a list of key and string value; `None` stands for a value
/// that is no string.
pub type ToolArgsView = Seq<(Seq<char>, Option<Seq<char>>)>;

/// The keys of the arguments.
pub open spec fn arg_keys(args: ToolArgsView) -> Seq<Seq<char>> {
    Seq::new(args.len(), |i: int| args[i].0)
}

/// The string that the argument `key` is; `None` where there is no such
/// argument or it is no string.
pub open spec fn arg_str(args: ToolArgsView, key: Seq<char>) -> Option<Seq<char>> {
    match first_index(arg_keys(args), key) {
        Some(i) => args[i].1,
        None => None,
    }
}

impl View for ToolArgs {
    type V = ToolArgsView;

    open spec fn view(&self) -> ToolArgsView {
        self.entries.deep_view()
    }
}

impl ToolArgs {
    /// No arguments.
    pub fn new() -> (r: ToolArgs)
        ensures
            r@ == Seq::<(Seq<char>, Option<Seq<char>>)>::empty(),
    {
        let r = ToolArgs { entries: Vec::new() };
        assert(r@ =~= Seq::empty());
        r
    }

    /// The arguments with the string `value` added under `key`.
    pub fn with_str(self, key: &str, value: &str) -> (r: ToolArgs)
        ensures
            r@ == self@.push((key@, Some(value@))),
    {
        let mut entries = self.entries;
        entries.push(ToolArg { key: key.to_owned(), value: ArgValue::Str(value.to_owned()) });
        let r = ToolArgs { entries };
        assert(r@ =~= self@.push((key@, Some(value@))));
        r
    }

    /// The arguments with a value that is no string added under `key`.
    pub fn with_other(self, key: &str) -> (r: ToolArgs)
        ensures
            r@ == self@.push((key@, None)),
    {
        let mut entries = self.entries;
        entries.push(ToolArg { key: key.to_owned(), value: ArgValue::Other });
        let r = ToolArgs { entries };
        assert(r@ =~= self@.push((key@, None)));
        r
    }

    /// The string that the argument `key` is.
    pub fn get_str(&self, key: &str) -> (r: Option<&str>)
        ensures
            r.deep_view() == arg_str(self@, key@),
    {
        let ghost keys = arg_keys(self@);
        let mut i: usize = 0;
        while i < self.entries.len()
            invariant
                i <= self.entries.len(),
                keys == arg_keys(self@),
                forall|j: int| 0 <= j < i ==> keys[j] != key@,
            decreases self.entries.len() - i,
        {
            if *self.entries[i].key.as_str() == *key {
                proof {
                    lemma_first_index_is(keys, key@, i as int);
                    assert(self@[i as int] == self.entries[i as int].deep_view());
                }
                return match &self.entries[i].value {
                    ArgValue::Str(s) => Some(s.as_str()),
                    ArgValue::Other => None,
                };
            }
            i += 1;
        }
        proof {
            lemma_first_index_none(keys, key@);
        }
        None
    }
}

/// Why a tool call was rejected outright.
#[derive(Debug, PartialEq, Eq)]
pub struct ToolError {
    pub kind: SopError,
    pub message: String,
}

/// The message that rejects a call without the argument `name`.
pub open spec fn missing_text(name: Seq<char>) -> Seq<char> {
    "Missing '"@ + name + "' parameter"@
}

/// The rejection of a call without the argument `name`, or with one that is
/// no string.
pub fn missing_param(name: &str) -> (r: ToolError)
    ensures
        r.kind == SopError::ParamInvalid,
        r.message@ == missing_text(name@),
{
    let mut message = String::new();
    message.append("Missing '");
    message.append(name);
    message.append("' parameter");
    assert(message@ =~= missing_text(name@));
    ToolError { kind: SopError::ParamInvalid, message }
}

/// The string argument `name`, which the call requires.
pub fn required_str<'a>(args: &'a ToolArgs, name: &str) -> (r: Result<&'a str, ToolError>)
    ensures
        r is Ok == arg_str(args@, name@) is Some,
        r is Ok ==> r->Ok_0@ == arg_str(args@, name@)->0,
        r is Err ==> r->Err_0.kind == SopError::ParamInvalid && r->Err_0.message@ == missing_text(
            name@,
        ),
{
    match args.get_str(name) {
        Some(s) => Ok(s),
        None => Err(missing_param(name)),
    }
}

/// What is to follow a tool call, outside the engine.
#[derive(Debug, PartialEq, Eq)]
pub enum ToolEffect {
    /// Append this record to the audit trail.
    Audit(AuditRecord),
    /// Tell the metrics that a human approved a step of the run.
    RecordApproval { sop_name: String, run_id: String },
    /// Tell the metrics that the run has ended.
    RecordRunComplete(SopRun),
}

/// An effect as a mathematical value.
pub enum ToolEffectView {
    Audit(AuditRecordView),
    RecordApproval { sop_name: Seq<char>, run_id: Seq<char> },
    RecordRunComplete(SopRunView),
}

impl View for ToolEffect {
    type V = ToolEffectView;

    open spec fn view(&self) -> ToolEffectView {
        match self {
            ToolEffect::Audit(record) => ToolEffectView::Audit(record@),
            ToolEffect::RecordApproval { sop_name, run_id } => ToolEffectView::RecordApproval {
                sop_name: sop_name@,
                run_id: run_id@,
            },
            ToolEffect::RecordRunComplete(run) => ToolEffectView::RecordRunComplete(run@),
        }
    }
}

impl DeepView for ToolEffect {
    type V = ToolEffectView;

    open spec fn deep_view(&self) -> ToolEffectView {
        self@
    }
}

/// The answer of a tool and the effects that are to follow, in their order.
#[derive(Debug, PartialEq, Eq)]
pub struct ToolOutcome {
    pub result: ToolResult,
    pub effects: Vec<ToolEffect>,
}

/// The outcome of a tool call as a mathematical value.
pub struct ToolOutcomeView {
    pub result: ToolResultView,
    pub effects: Seq<ToolEffectView>,
}

impl View for ToolOutcome {
    type V = ToolOutcomeView;

    open spec fn view(&self) -> ToolOutcomeView {
        ToolOutcomeView { result: self.result@, effects: self.effects.deep_view() }
    }
}

/// The view of what a tool call returns.
pub open spec fn call_view(r: Result<ToolOutcome, ToolError>) -> Result<
    ToolOutcomeView,
    (SopError, Seq<char>),
> {
    match r {
        Ok(outcome) => Ok(outcome@),
        Err(e) => Err((e.kind, e.message@)),
    }
}

/// One parameter of a tool, as it is described to the caller: a string
/// under a name, required or not, and the words it may be where it is one of
/// a few.
#[derive(Clone, Debug, PartialEq, Eq)]
pub struct ToolParam {
    pub name: &'static str,
    pub description: &'static str,
    pub required: bool,
    pub allowed: Vec<&'static str>,
}

/// The description of a parameter as a mathematical value.
pub struct ToolParamView {
    pub name: Seq<char>,
    pub description: Seq<char>,
    pub required: bool,
    pub allowed: Seq<Seq<char>>,
}

impl DeepView for ToolParam {
    type V = ToolParamView;

    open spec fn deep_view(&self) -> ToolParamView {
        ToolParamView {
            name: self.name@,
            description: self.description@,
            required: self.required,
            allowed: self.allowed.deep_view(),
        }
    }
}

/// A parameter that may be any string.
pub open spec fn any_string(name: Seq<char>, description: Seq<char>, required: bool) -> ToolParamView {
    ToolParamView { name, description, required, allowed: Seq::empty() }
}

/// A parameter that may be any string.
pub fn string_param(name: &'static str, description: &'static str, required: bool) -> (r:
    ToolParam)
    ensures
        r.deep_view() == any_string(name@, description@, required),
{
    let r = ToolParam { name, description, required, allowed: Vec::new() };
    assert(r.allowed.deep_view() =~= Seq::empty());
    r
}

} // verus!
