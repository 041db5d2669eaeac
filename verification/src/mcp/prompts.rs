//! Prompts offered by the tool server: step-by-step plans that use the agent tools.
use vstd::prelude::*;
use crate::decimal::{decimal, u64_to_decimal};
use crate::text::concat;

verus! {

/// A prompt: its text and its description.
#[derive(Debug)]
pub struct PromptText {
    pub text: String,
    pub description: String,
}

/// The plan that splits work over `count` agents in `workspace`.
pub open spec fn parallel_view(workspace: Seq<char>, count: Seq<char>) -> Seq<char> {
    "1. Use agent/spawn "@ + count + " times in workspace \""@ + workspace
        + "\" with distinct names (worker-1, worker-2, ...)\n"@
        + "2. Break the task into "@ + count + " subtasks\n"@
        + "3. Use agent/task to assign each worker a subtask\n"@
        + "4. Use agent/task_status to poll each until TASK_STATE_COMPLETED\n"@
        + "5. Summarize results from all workers"@
}

/// The parallel-implementation prompt; two agents unless told otherwise.
pub fn parallel_implementation(workspace: &str, subtask_count: Option<u32>) -> (r: PromptText)
    ensures
        ({
            let n = decimal(match subtask_count { Some(c) => c as nat, None => 2 });
            &&& r.text@ == parallel_view(workspace@, n)
            &&& r.description@ == "Parallel implementation with "@ + n + " agents in workspace "@ + workspace@
        }),
{
    let count: u32 = match subtask_count {
        Some(c) => c,
        None => 2,
    };
    let n = u64_to_decimal(count as u64);
    let a = concat("1. Use agent/spawn ", n.as_str());
    let b = concat(a.as_str(), " times in workspace \"");
    let c = concat(b.as_str(), workspace);
    let d = concat(c.as_str(), "\" with distinct names (worker-1, worker-2, ...)\n");
    let e = concat(d.as_str(), "2. Break the task into ");
    let f = concat(e.as_str(), n.as_str());
    let g = concat(f.as_str(), " subtasks\n");
    let h = concat(g.as_str(), "3. Use agent/task to assign each worker a subtask\n");
    let i = concat(h.as_str(), "4. Use agent/task_status to poll each until TASK_STATE_COMPLETED\n");
    let text = concat(i.as_str(), "5. Summarize results from all workers");
    let da = concat("Parallel implementation with ", n.as_str());
    let db = concat(da.as_str(), " agents in workspace ");
    PromptText { text, description: concat(db.as_str(), workspace) }
}

} // verus!
