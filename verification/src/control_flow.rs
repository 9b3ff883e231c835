//! Control-flow graphs of function bodies.

use vstd::prelude::*;

use crate::order::Key;
use crate::semantic::{
    AwaitSlotId, DeclarationId, HirDeclaration, HirDefer, HirExpr, ScopeId, SourceFragment,
};
use crate::syntax::SourceSpan;

verus! {

/// Identity of one basic block: its position in the function.
#[derive(Debug, Clone, Copy, PartialEq, Eq, PartialOrd, Ord, Hash, Structural)]
pub struct BlockId(pub u32);

/// Identity of one suspension edge.
#[derive(Debug, Clone, Copy, PartialEq, Eq, PartialOrd, Ord, Hash, Structural)]
pub struct AwaitEdgeId(pub u32);

/// Identity of one cleanup registration.
#[derive(Debug, Clone, Copy, PartialEq, Eq, PartialOrd, Ord, Hash, Structural)]
pub struct CleanupId(pub u32);

/// One parameter of a function.
#[derive(Debug, PartialEq, Eq)]
pub struct CfgParameter {
    pub id: DeclarationId,
    pub name: String,
    pub ty: SourceFragment,
    pub scope: ScopeId,
    pub span: SourceSpan,
}

/// A transfer of control to another block.
#[derive(Debug, Clone, Copy, PartialEq, Eq, Structural)]
pub struct CfgEdge {
    pub target: BlockId,
}

/// One case of a switch.
#[derive(Debug, PartialEq, Eq)]
pub struct CfgSwitchCase {
    pub value: HirExpr,
    pub edge: CfgEdge,
}

/// A value that leaves a block.
#[derive(Debug, PartialEq, Eq)]
pub enum CfgValue {
    Expression(HirExpr),
    AwaitResult(AwaitSlotId),
}

/// One deferred call bound to a scope.
#[derive(Debug, PartialEq, Eq)]
pub struct CleanupRegistration {
    pub id: CleanupId,
    pub scope: ScopeId,
    pub function: SourceFragment,
    pub arguments: Vec<HirExpr>,
    pub span: SourceSpan,
}

/// One instruction of a block.
#[derive(Debug, PartialEq, Eq)]
pub enum CfgInstruction {
    Source(SourceFragment),
    Declaration(HirDeclaration),
    AssignAwaitResult { destination: DeclarationId, slot: AwaitSlotId, span: SourceSpan },
    AssignExpression { destination: DeclarationId, expression: HirExpr, span: SourceSpan },
    AssignExpressionSlot {
        slot: AwaitSlotId,
        ty: SourceFragment,
        expression: HirExpr,
        span: SourceSpan,
    },
    Evaluate(HirExpr),
    RegisterDefer(HirDefer),
    PushCleanup(CleanupRegistration),
    RunCleanups { exited_scopes: Vec<ScopeId> },
}

/// How a block ends.
#[derive(Debug, PartialEq, Eq)]
pub enum CfgTerminator {
    Open,
    Goto(CfgEdge),
    Branch { condition: HirExpr, consequence: CfgEdge, alternative: CfgEdge },
    Switch { expression: HirExpr, cases: Vec<CfgSwitchCase>, default: CfgEdge },
    Suspend {
        edge: AwaitEdgeId,
        operand: HirExpr,
        slot: AwaitSlotId,
        continuation: CfgEdge,
        span: SourceSpan,
    },
    Yield { value: Option<CfgValue>, continuation: CfgEdge, span: SourceSpan },
    Return { value: Option<CfgValue>, span: SourceSpan },
    Unreachable,
}

/// One basic block.
#[derive(Debug, PartialEq, Eq)]
pub struct BasicBlock {
    pub id: BlockId,
    pub scope_stack: Vec<ScopeId>,
    pub instructions: Vec<CfgInstruction>,
    pub terminator: CfgTerminator,
}

/// One function with its blocks.
#[derive(Debug, PartialEq, Eq)]
pub struct CfgFunction {
    pub name: String,
    pub is_async: bool,
    pub parameters: Vec<CfgParameter>,
    pub return_type: SourceFragment,
    pub entry: BlockId,
    pub blocks: Vec<BasicBlock>,
    pub span: SourceSpan,
    pub body_span: SourceSpan,
}

impl Key for BlockId {
    open spec fn rank_spec(&self) -> u64 {
        self.0 as u64
    }

    fn rank(&self) -> (r: u64) {
        self.0 as u64
    }

    proof fn injective(a: Self, b: Self) {
    }
}

impl Key for AwaitEdgeId {
    open spec fn rank_spec(&self) -> u64 {
        self.0 as u64
    }

    fn rank(&self) -> (r: u64) {
        self.0 as u64
    }

    proof fn injective(a: Self, b: Self) {
    }
}

impl Key for CleanupId {
    open spec fn rank_spec(&self) -> u64 {
        self.0 as u64
    }

    fn rank(&self) -> (r: u64) {
        self.0 as u64
    }

    proof fn injective(a: Self, b: Self) {
    }
}

impl Key for DeclarationId {
    open spec fn rank_spec(&self) -> u64 {
        self.0 as u64
    }

    fn rank(&self) -> (r: u64) {
        self.0 as u64
    }

    proof fn injective(a: Self, b: Self) {
    }
}

impl Key for AwaitSlotId {
    open spec fn rank_spec(&self) -> u64 {
        self.0 as u64
    }

    fn rank(&self) -> (r: u64) {
        self.0 as u64
    }

    proof fn injective(a: Self, b: Self) {
    }
}

} // verus!
