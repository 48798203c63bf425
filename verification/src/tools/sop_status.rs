//! `sop_status`: shows one run, or lists the open runs and the latest
//! finished ones.

use vstd::prelude::*;
use vstd::string::*;
use crate::engine::model::{runs_of, EngineView};
use crate::engine::{select_runs, SopEngine};
use crate::text::{decimal, push_decimal};
use crate::tools::{
    any_string, arg_str, call_view, failure_view, string_param, success_view, ToolArgs,
    ToolArgsView, ToolError, ToolOutcome, ToolOutcomeView, ToolParam, ToolResult, ToolResultView,
};
use crate::types::{SopError, SopRun, SopRunView, SopStepResult, SopStepResultView};

verus! {

/// How many finished runs a listing shows at most.
pub const FINISHED_SHOWN: usize = 10;

/// The line that shows one step result.
pub open spec fn step_line(result: SopStepResultView) -> Seq<char> {
    "  Step "@ + decimal(result.step_number as nat) + ": "@ + result.status.text() + " — "@
        + result.output + "\n"@
}

/// The lines that show the step results, in their order.
pub open spec fn step_lines(results: Seq<SopStepResultView>) -> Seq<char>
    decreases results.len(),
{
    if results.len() == 0 {
        Seq::empty()
    } else {
        step_lines(results.drop_last()) + step_line(results.last())
    }
}

/// The report on one run, field by field, with its step results.
pub open spec fn run_report(run: SopRunView) -> Seq<char> {
    "Run: "@ + run.run_id + "\nSOP: "@ + run.sop_name + "\nStatus: "@ + run.status.text()
        + "\nStep: "@ + decimal(run.current_step as nat) + " of "@ + decimal(
        run.total_steps as nat,
    ) + "\nStarted: "@ + run.started_at + "\n"@ + (match run.completed_at {
        Some(at) => "Completed: "@ + at + "\n"@,
        None => Seq::empty(),
    }) + (if run.step_results.len() == 0 {
        Seq::empty()
    } else {
        "\nStep results:\n"@ + step_lines(run.step_results)
    })
}

/// The line that lists one open run.
pub open spec fn active_line(run: SopRunView) -> Seq<char> {
    "  "@ + run.run_id + " — "@ + run.sop_name + " ["@ + run.status.text() + "] step "@ + decimal(
        run.current_step as nat,
    ) + "/"@ + decimal(run.total_steps as nat) + "\n"@
}

/// The lines that list the open runs, in their order.
pub open spec fn active_lines(runs: Seq<SopRunView>) -> Seq<char>
    decreases runs.len(),
{
    if runs.len() == 0 {
        Seq::empty()
    } else {
        active_lines(runs.drop_last()) + active_line(runs.last())
    }
}

/// The block that lists the open runs, or says that there are none.
pub open spec fn active_block(runs: Seq<SopRunView>, scope: Option<Seq<char>>) -> Seq<char> {
    if runs.len() == 0 {
        "No active runs"@ + (match scope {
            Some(name) => " for '"@ + name + "'"@,
            None => Seq::empty(),
        }) + ".\n"@
    } else {
        "Active runs ("@ + decimal(runs.len()) + "):\n"@ + active_lines(runs)
    }
}

/// The line that lists one finished run.
pub open spec fn finished_line(run: SopRunView) -> Seq<char> {
    "  "@ + run.run_id + " — "@ + run.sop_name + " ["@ + run.status.text() + "] ("@ + (
    match run.completed_at {
        Some(at) => at,
        None => "?"@,
    }) + ")\n"@
}

/// The lines that list the last `limit` runs of `runs`, the latest first.
pub open spec fn latest_lines(runs: Seq<SopRunView>, limit: nat) -> Seq<char>
    decreases limit,
{
    if limit == 0 || runs.len() == 0 {
        Seq::empty()
    } else {
        finished_line(runs.last()) + latest_lines(runs.drop_last(), (limit - 1) as nat)
    }
}

/// The block that lists the finished runs: how many there are, and the
/// latest of them; nothing where there are none.
pub open spec fn finished_block(runs: Seq<SopRunView>) -> Seq<char> {
    if runs.len() == 0 {
        Seq::empty()
    } else {
        "\nFinished runs ("@ + decimal(runs.len()) + "):\n"@ + latest_lines(
            runs,
            FINISHED_SHOWN as nat,
        )
    }
}

/// What the operator is told of a run id that names no run.
pub open spec fn unknown_run_text(run_id: Seq<char>) -> Seq<char> {
    "Status query failed: "@ + SopError::UnknownRun.text() + ": "@ + run_id
}

/// The listing of the open runs and then of the latest finished runs, those
/// of the procedure `scope` where one is given.
pub open spec fn status_listing(engine: EngineView, scope: Option<Seq<char>>) -> Seq<char> {
    active_block(runs_of(engine.active, scope), scope) + finished_block(
        runs_of(engine.finished, scope),
    )
}

/// What `sop_status` answers.
///
/// With a string `run_id` it reports on that run; a run id that names no run
/// is an error that the operator is told of. Without one it lists the open
/// runs and then the latest finished runs, those of the procedure `sop_name`
/// where that string is given.
pub open spec fn status_result(engine: EngineView, args: ToolArgsView) -> ToolResultView {
    match arg_str(args, "run_id"@) {
        Some(run_id) => match engine.run_of(run_id) {
            Some(run) => success_view(run_report(run)),
            None => failure_view(unknown_run_text(run_id)),
        },
        None => success_view(status_listing(engine, arg_str(args, "sop_name"@))),
    }
}

/// Appends the lines that show the step results.
fn push_step_lines(out: &mut String, results: &Vec<SopStepResult>)
    ensures
        final(out)@ == old(out)@ + step_lines(results.deep_view()),
{
    let ghost all = results.deep_view();
    let mut i: usize = 0;
    assert(step_lines(all.take(0)) =~= Seq::<char>::empty());
    while i < results.len()
        invariant
            i <= results.len(),
            all == results.deep_view(),
            out@ == old(out)@ + step_lines(all.take(i as int)),
        decreases results.len() - i,
    {
        let ghost before = out@;
        let result = &results[i];
        out.append("  Step ");
        push_decimal(out, result.step_number as u64);
        out.append(": ");
        out.append(result.status.as_str());
        out.append(" — ");
        out.append(result.output.as_str());
        out.append("\n");
        proof {
            assert(all.take(i + 1).drop_last() =~= all.take(i as int));
            assert(all.take(i + 1).last() == result@);
            assert(out@ =~= before + step_line(result@));
            assert(out@ =~= old(out)@ + step_lines(all.take(i + 1)));
        }
        i += 1;
    }
    assert(all.take(results.len() as int) =~= all);
}

/// The report on one run.
pub fn render_run(run: &SopRun) -> (r: String)
    ensures
        r@ == run_report(run@),
{
    let mut out = String::new();
    out.append("Run: ");
    out.append(run.run_id.as_str());
    out.append("\nSOP: ");
    out.append(run.sop_name.as_str());
    out.append("\nStatus: ");
    out.append(run.status.as_str());
    out.append("\nStep: ");
    push_decimal(&mut out, run.current_step as u64);
    out.append(" of ");
    push_decimal(&mut out, run.total_steps as u64);
    out.append("\nStarted: ");
    out.append(run.started_at.as_str());
    out.append("\n");
    let ghost head = out@;
    match &run.completed_at {
        Some(at) => {
            out.append("Completed: ");
            out.append(at.as_str());
            out.append("\n");
        },
        None => {},
    }
    let ghost mid = out@;
    assert(mid =~= head + (match run@.completed_at {
        Some(at) => "Completed: "@ + at + "\n"@,
        None => Seq::empty(),
    }));
    if run.step_results.len() > 0 {
        out.append("\nStep results:\n");
        push_step_lines(&mut out, &run.step_results);
    }
    assert(out@ =~= mid + (if run@.step_results.len() == 0 {
        Seq::empty()
    } else {
        "\nStep results:\n"@ + step_lines(run@.step_results)
    }));
    assert(out@ =~= run_report(run@));
    out
}

/// Appends the block that lists the open runs.
fn push_active_block(out: &mut String, runs: &Vec<SopRun>, scope: Option<&str>)
    ensures
        final(out)@ == old(out)@ + active_block(runs.deep_view(), scope.deep_view()),
{
    let ghost all = runs.deep_view();
    if runs.len() == 0 {
        out.append("No active runs");
        match scope {
            Some(name) => {
                out.append(" for '");
                out.append(name);
                out.append("'");
            },
            None => {},
        }
        out.append(".\n");
        assert(out@ =~= old(out)@ + active_block(all, scope.deep_view()));
        return ;
    }
    out.append("Active runs (");
    push_decimal(out, runs.len() as u64);
    out.append("):\n");
    let ghost head = out@;
    let mut i: usize = 0;
    assert(active_lines(all.take(0)) =~= Seq::<char>::empty());
    while i < runs.len()
        invariant
            i <= runs.len(),
            all == runs.deep_view(),
            out@ == head + active_lines(all.take(i as int)),
        decreases runs.len() - i,
    {
        let ghost before = out@;
        let run = &runs[i];
        out.append("  ");
        out.append(run.run_id.as_str());
        out.append(" — ");
        out.append(run.sop_name.as_str());
        out.append(" [");
        out.append(run.status.as_str());
        out.append("] step ");
        push_decimal(out, run.current_step as u64);
        out.append("/");
        push_decimal(out, run.total_steps as u64);
        out.append("\n");
        proof {
            assert(all.take(i + 1).drop_last() =~= all.take(i as int));
            assert(all.take(i + 1).last() == run@);
            assert(out@ =~= before + active_line(run@));
            assert(out@ =~= head + active_lines(all.take(i + 1)));
        }
        i += 1;
    }
    assert(all.take(runs.len() as int) =~= all);
    assert(out@ =~= old(out)@ + active_block(all, scope.deep_view()));
}

/// Appends the block that lists the finished runs.
fn push_finished_block(out: &mut String, runs: &Vec<SopRun>)
    ensures
        final(out)@ == old(out)@ + finished_block(runs.deep_view()),
{
    let ghost all = runs.deep_view();
    if runs.len() == 0 {
        assert(out@ =~= old(out)@ + finished_block(all));
        return ;
    }
    out.append("\nFinished runs (");
    push_decimal(out, runs.len() as u64);
    out.append("):\n");
    let ghost head = out@;
    let mut shown: usize = 0;
    let mut rest: usize = runs.len();
    assert(all.take(rest as int) =~= all);
    while shown < FINISHED_SHOWN && rest > 0
        invariant
            shown <= FINISHED_SHOWN,
            rest <= runs.len(),
            all == runs.deep_view(),
            out@ + latest_lines(all.take(rest as int), (FINISHED_SHOWN - shown) as nat) == head
                + latest_lines(all, FINISHED_SHOWN as nat),
        decreases rest,
    {
        let ghost before = out@;
        let run = &runs[rest - 1];
        out.append("  ");
        out.append(run.run_id.as_str());
        out.append(" — ");
        out.append(run.sop_name.as_str());
        out.append(" [");
        out.append(run.status.as_str());
        out.append("] (");
        match &run.completed_at {
            Some(at) => {
                out.append(at.as_str());
            },
            None => {
                out.append("?");
            },
        }
        out.append(")\n");
        proof {
            let seen = all.take(rest as int);
            assert(seen.last() == run@);
            assert(seen.drop_last() =~= all.take(rest - 1));
            assert(out@ =~= before + finished_line(run@));
            let tail = latest_lines(all.take(rest - 1), (FINISHED_SHOWN - shown - 1) as nat);
            assert(latest_lines(seen, (FINISHED_SHOWN - shown) as nat) == finished_line(run@)
                + tail);
            assert(out@ + tail =~= before + (finished_line(run@) + tail));
        }
        shown += 1;
        rest -= 1;
    }
    proof {
        let tail = latest_lines(all.take(rest as int), (FINISHED_SHOWN - shown) as nat);
        assert(tail =~= Seq::<char>::empty());
        assert(out@ =~= out@ + tail);
        assert(out@ =~= old(out)@ + finished_block(all));
    }
}

/// Shows one run, or lists the open runs and the latest finished ones.
pub struct SopStatusTool {
}

impl SopStatusTool {
    /// The tool. It keeps nothing.
    pub fn new() -> (r: SopStatusTool) {
        SopStatusTool {  }
    }

    /// The name the tool is called by.
    pub fn name(&self) -> (r: &'static str)
        ensures
            r@ == "sop_status"@,
    {
        "sop_status"
    }

    /// What the tool says of itself to its caller.
    pub fn description(&self) -> (r: &'static str)
        ensures
            r@ == "Query SOP execution status. Provide run_id for a specific run, or sop_name to list runs for that SOP. With no arguments, shows all active runs."@,
    {
        "Query SOP execution status. Provide run_id for a specific run, or sop_name to list runs for that SOP. With no arguments, shows all active runs."
    }

    /// The parameters of the tool: `run_id` and `sop_name`, neither required.
    pub fn parameters(&self) -> (r: Vec<ToolParam>)
        ensures
            r.deep_view() == seq![
                any_string("run_id"@, "Specific run ID to query"@, false),
                any_string("sop_name"@, "SOP name to list runs for"@, false),
            ],
    {
        let mut params: Vec<ToolParam> = Vec::new();
        params.push(string_param("run_id", "Specific run ID to query", false));
        params.push(string_param("sop_name", "SOP name to list runs for", false));
        assert(params.deep_view() =~= seq![
            any_string("run_id"@, "Specific run ID to query"@, false),
            any_string("sop_name"@, "SOP name to list runs for"@, false),
        ]);
        params
    }

    /// Runs the tool. It reads the engine and changes nothing; the call is
    /// never rejected, and nothing is to follow.
    pub fn execute(&self, engine: &SopEngine, args: &ToolArgs) -> (r: Result<
        ToolOutcome,
        ToolError,
    >)
        ensures
            call_view(r) == Ok::<ToolOutcomeView, (SopError, Seq<char>)>(
                ToolOutcomeView { result: status_result(engine@, args@), effects: Seq::empty() },
            ),
    {
        let result = match args.get_str("run_id") {
            Some(run_id) => match engine.get_run(run_id) {
                Some(run) => ToolResult::succeeded(render_run(run)),
                None => {
                    let mut message = String::new();
                    message.append("Status query failed: ");
                    message.append(SopError::UnknownRun.message());
                    message.append(": ");
                    message.append(run_id);
                    assert(message@ =~= unknown_run_text(run_id@));
                    ToolResult::failed(message)
                },
            },
            None => {
                let scope = args.get_str("sop_name");
                let active = select_runs(engine.active_runs(), scope);
                let finished = engine.finished_runs(scope);
                let mut out = String::new();
                push_active_block(&mut out, &active, scope);
                push_finished_block(&mut out, &finished);
                assert(out@ =~= status_listing(engine@, scope.deep_view()));
                ToolResult::succeeded(out)
            },
        };
        let outcome = ToolOutcome { result, effects: Vec::new() };
        assert(outcome@.effects =~= Seq::empty());
        Ok(outcome)
    }
}

} // verus!
