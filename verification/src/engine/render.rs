//! The texts the engine writes: run ids and the instruction shown for a step.

use vstd::prelude::*;
use vstd::string::*;
use crate::engine::model::{comma_list, payload_block, render_context, run_id_text, tools_block};
use crate::text::{push_decimal, push_padded};
use crate::types::Sop;

verus! {

/// The id of the `n`-th run.
pub fn run_id_string(n: u64) -> (r: String)
    ensures
        r@ == run_id_text(n as nat),
{
    let mut out = String::new();
    out.append("run-");
    push_padded(&mut out, n, 6);
    assert(out@ =~= run_id_text(n as nat));
    out
}

/// Appends the items of `items`, each two parted by `, `.
fn push_comma_list(out: &mut String, items: &Vec<String>)
    ensures
        final(out)@ == old(out)@ + comma_list(items.deep_view()),
{
    let ghost all = items.deep_view();
    let mut i: usize = 0;
    assert(comma_list(all.take(0)) =~= Seq::<char>::empty());
    while i < items.len()
        invariant
            i <= items.len(),
            all == items.deep_view(),
            out@ == old(out)@ + comma_list(all.take(i as int)),
        decreases items.len() - i,
    {
        let ghost before = out@;
        if i > 0 {
            out.append(", ");
        }
        out.append(items[i].as_str());
        proof {
            let grown = all.take(i + 1);
            assert(grown.drop_last() =~= all.take(i as int));
            assert(grown.last() == items[i as int]@);
            if i == 0 {
                assert(comma_list(grown) == grown[0]);
                assert(comma_list(all.take(0)).len() == 0);
            }
            assert(out@ =~= old(out)@ + comma_list(grown));
        }
        i += 1;
    }
    assert(all.take(items.len() as int) =~= all);
}

/// The instruction shown for the step at `index` of `sop`.
pub fn render(sop: &Sop, index: usize, payload: &Option<String>) -> (r: String)
    requires
        index < sop.steps.len(),
    ensures
        r@ == render_context(sop@, sop@.steps[index as int], payload.deep_view()),
{
    let step = &sop.steps[index];
    assert(sop@.steps[index as int] == step@);
    let mut out = String::new();
    out.append("SOP: ");
    out.append(sop.name.as_str());
    out.append(" v");
    out.append(sop.version.as_str());
    out.append("\nStep ");
    push_decimal(&mut out, step.number as u64);
    out.append("/");
    push_decimal(&mut out, sop.steps.len() as u64);
    out.append(": ");
    out.append(step.title.as_str());
    out.append("\n\n");
    out.append(step.body.as_str());
    out.append("\n");
    let ghost head = out@;
    if step.suggested_tools.len() > 0 {
        out.append("\nSuggested tools: ");
        push_comma_list(&mut out, &step.suggested_tools);
        out.append("\n");
    }
    assert(out@ =~= head + tools_block(step@.suggested_tools));
    let ghost mid = out@;
    match payload {
        Some(p) => {
            out.append("\nTrigger payload:\n");
            out.append(p.as_str());
            out.append("\n");
        },
        None => {},
    }
    assert(out@ =~= mid + payload_block(payload.deep_view()));
    assert(out@ =~= render_context(sop@, step@, payload.deep_view()));
    out
}

} // verus!
