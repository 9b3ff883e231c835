//! Functions lowered to resumable states.

use vstd::prelude::*;

use crate::await_plan::FunctionAwaitPlan;
use crate::control_flow::{BlockId, CfgFunction};
use crate::semantic::AwaitSlotId;

verus! {

/// One resumable state and the block it continues with.
#[derive(Debug, Clone, Copy, PartialEq, Eq, Structural)]
pub struct CoroutineState {
    pub state: u32,
    pub block: BlockId,
}

/// One suspension slot of a coroutine.
#[derive(Debug, Clone, Copy, PartialEq, Eq, Structural)]
pub struct CoroutineAwaitSlot {
    pub id: AwaitSlotId,
}

/// One function with its states and await metadata.
#[derive(Debug, PartialEq, Eq)]
pub struct CoroutineFunction {
    pub cfg: CfgFunction,
    pub task_type: String,
    pub init_name: String,
    pub poll_name: String,
    pub drop_name: String,
    pub states: Vec<CoroutineState>,
    pub state_by_block: Vec<(BlockId, u32)>,
    pub await_slots: Vec<CoroutineAwaitSlot>,
    pub await_plan: FunctionAwaitPlan,
}

} // verus!
