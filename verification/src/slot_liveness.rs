//! Lifetimes of await results and directly awaited children.

use vstd::prelude::*;

use crate::await_plan::ChildInstanceId;
use crate::control_flow::BlockId;
use crate::semantic::AwaitSlotId;

verus! {

/// A point of a function between two instructions.
#[derive(Debug, Clone, Copy, PartialEq, Eq, PartialOrd, Ord, Hash, Structural)]
pub enum ProgramPoint {
    BeforeInstruction(BlockId, u32),
    BeforeTerminator(BlockId),
}

/// Storage that is only needed during part of a function.
#[derive(Debug, Clone, Copy, PartialEq, Eq, PartialOrd, Ord, Hash, Structural)]
pub enum LogicalStorage {
    AwaitResult(AwaitSlotId),
    DirectChild(ChildInstanceId),
}

/// What is known of one directly awaited child.
#[derive(Debug, Clone, Copy, PartialEq, Eq, Structural)]
pub struct DirectChildBundle {
    pub active_flag_independent: bool,
}

/// Lifetimes of one function.
#[derive(Debug, PartialEq, Eq)]
pub struct SlotLivenessFunction {
    pub function_index: usize,
    pub function_name: String,
    pub live: Vec<(ProgramPoint, Vec<AwaitSlotId>)>,
    pub direct_children: Vec<(ChildInstanceId, DirectChildBundle)>,
    pub excluded_children: Vec<ChildInstanceId>,
    pub interference: Vec<(LogicalStorage, LogicalStorage)>,
}

/// Lifetimes of one translation unit.
#[derive(Debug, PartialEq, Eq)]
pub struct SlotLivenessUnit {
    pub functions: Vec<SlotLivenessFunction>,
}

/// Whether two storages are needed at the same time.
pub open spec fn interfering(
    interference: Seq<(LogicalStorage, LogicalStorage)>,
    first: LogicalStorage,
    second: LogicalStorage,
) -> bool {
    exists|i: int|
        0 <= i < interference.len() && (#[trigger] interference[i] == (first, second)
            || interference[i] == (second, first))
}

impl SlotLivenessFunction {
    /// Tells whether two storages are needed at the same time.
    pub fn interferes(&self, first: LogicalStorage, second: LogicalStorage) -> (r: bool)
        ensures
            r == interfering(self.interference@, first, second),
    {
        let mut i: usize = 0;
        while i < self.interference.len()
            invariant
                i <= self.interference@.len(),
                forall|k: int|
                    0 <= k < i ==> !(#[trigger] self.interference@[k] == (first, second)
                        || self.interference@[k] == (second, first)),
            decreases self.interference@.len() - i,
        {
            let pair = self.interference[i];
            if (pair.0 == first && pair.1 == second) || (pair.0 == second && pair.1 == first) {
                return true;
            }
            i += 1;
        }
        false
    }
}

} // verus!
