//! The fixed schedule of subdivision passes.
//!
//! A frame runs `PASS_COUNT` passes per model. The two work queues swap roles
//! from pass to pass, and the last pass is forced: it emits every patch that
//! is left.

use vstd::prelude::*;
use crate::limits::PASS_COUNT;

verus! {

/// Which queue a pass reads, which it writes, and whether it is forced.
#[derive(Clone, Copy, Debug, PartialEq, Eq, Structural)]
pub struct PassPlan {
    /// Index of the queue the pass reads, and of the dispatch record that
    /// drives it.
    pub source: usize,
    /// Index of the queue the pass writes, and of the dispatch record it
    /// maintains. Both are reset before the pass begins.
    pub target: usize,
    /// Value of the force-render flag during the pass.
    pub force_render: bool,
}

/// The plan of pass number `pass`.
pub open spec fn spec_pass_plan(pass: nat) -> PassPlan {
    PassPlan {
        source: (pass % 2) as usize,
        target: (1 - pass % 2) as usize,
        force_render: pass + 1 == PASS_COUNT,
    }
}

/// The plan of pass number `pass`: pass `i` reads queue `i % 2` and writes
/// the other one, and only the last pass is forced.
pub fn pass_plan(pass: u32) -> (plan: PassPlan)
    requires
        pass < PASS_COUNT,
    ensures
        plan == spec_pass_plan(pass as nat),
        plan.source == pass % 2,
        plan.target == 1 - plan.source,
        plan.force_render == (pass == PASS_COUNT - 1),
{
    let source: usize = (pass % 2) as usize;
    PassPlan { source, target: 1 - source, force_render: pass + 1 == PASS_COUNT }
}

/// The plans of all passes of a frame, in order.
pub fn pass_schedule() -> (plans: Vec<PassPlan>)
    ensures
        plans@.len() == PASS_COUNT,
        forall|i: int| 0 <= i < PASS_COUNT ==> #[trigger] plans@[i] == spec_pass_plan(i as nat),
{
    let mut plans: Vec<PassPlan> = Vec::new();
    let mut pass: u32 = 0;
    while pass < PASS_COUNT
        invariant
            pass <= PASS_COUNT,
            plans@.len() == pass,
            forall|i: int| 0 <= i < pass ==> #[trigger] plans@[i] == spec_pass_plan(i as nat),
        decreases PASS_COUNT - pass,
    {
        plans.push(pass_plan(pass));
        pass = pass + 1;
    }
    plans
}

/// The passes that the host records for a model: the whole schedule, or none
/// where the frame's level-of-detail stage is overridden by the caller.
pub fn lod_stage_passes(overridden: bool) -> (plans: Vec<PassPlan>)
    ensures
        overridden ==> plans@.len() == 0,
        !overridden ==> plans@.len() == PASS_COUNT && forall|i: int|
            0 <= i < PASS_COUNT ==> #[trigger] plans@[i] == spec_pass_plan(i as nat),
{
    if overridden {
        Vec::new()
    } else {
        pass_schedule()
    }
}

} // verus!
