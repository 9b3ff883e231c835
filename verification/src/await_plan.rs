//! Target, ownership, and storage metadata for coroutine await sites.

use vstd::prelude::*;

pub use crate::control_flow::AwaitEdgeId;
use crate::control_flow::{BasicBlock, BlockId, CfgFunction, CfgInstruction, CfgTerminator};
use crate::order;
use crate::order::{find_value, put_value, sort_order, Key};
use crate::semantic;
use crate::semantic::{
    clone_expr, AwaitSlotId, DeclarationId, HirDeclaration, HirExpr, HirExprKind, SourceFragment,
};
use crate::symbol_index::FunctionId;
use crate::syntax;
use crate::syntax::SourceSpan;

pub use crate::await_graph::{
    build_static_call_graph, strongly_connected_components, AwaitGraphFunction, CallGraphScc,
    StaticCallEdge, StaticCallGraph,
};
pub use crate::await_storage::{
    plan_await_storage, validate_storage_plan, AwaitStorageFunction, AwaitStoragePlanResult,
};

verus! {

/// Identity of one child instance of a function.
#[derive(Debug, Clone, Copy, PartialEq, Eq, PartialOrd, Ord, Hash, Structural)]
pub struct ChildInstanceId(pub u32);

/// Identity of one dynamic await value of a function.
#[derive(Debug, Clone, Copy, PartialEq, Eq, PartialOrd, Ord, Hash, Structural)]
pub struct ValueId(pub u32);

/// Identity of one embedded child slot of a function.
#[derive(Debug, Clone, Copy, PartialEq, Eq, PartialOrd, Ord, Hash, Structural)]
pub struct ChildSlotId(pub u32);

/// Identity of one boxed child slot of a function.
#[derive(Debug, Clone, Copy, PartialEq, Eq, PartialOrd, Ord, Hash, Structural)]
pub struct TypedSlotId(pub u32);

/// The source construct that owns one compile-time child storage site.
#[derive(Debug, Clone, Copy, PartialEq, Eq, Structural)]
pub enum ChildOrigin {
    Direct(AwaitEdgeId),
    Binding(DeclarationId),
}

/// Whether a child has a compiler-known function target.
#[derive(Debug, Clone, Copy, PartialEq, Eq, Structural)]
pub enum AwaitTarget {
    Static(FunctionId),
    Dynamic(ValueId),
}

/// Storage policy selected for a child.
#[derive(Debug, Clone, Copy, PartialEq, Eq, Structural)]
pub enum AwaitStorage {
    Unplanned,
    Embedded(ChildSlotId),
    Boxed(TypedSlotId),
    Opaque(AwaitSlotId),
}

/// What is known about the representation of the child's result.
#[derive(Debug, PartialEq, Eq)]
pub enum ResultLayout {
    KnownType(SourceFragment),
    RuntimeDefined,
}

impl Clone for ResultLayout {
    fn clone(&self) -> (r: Self)
        ensures
            r == *self,
    {
        match self {
            ResultLayout::KnownType(ty) => ResultLayout::KnownType(ty.clone()),
            ResultLayout::RuntimeDefined => ResultLayout::RuntimeDefined,
        }
    }
}

/// The compiler site responsible for finalizing the child.
#[derive(Debug, Clone, Copy, PartialEq, Eq, Structural)]
pub enum AwaitOwnership {
    Edge(AwaitEdgeId),
    Binding(DeclarationId),
}

/// The runtime execution site that starts each new child generation.
#[derive(Debug, Clone, Copy, PartialEq, Eq, Structural)]
pub enum ChildGeneration {
    AwaitEntry(AwaitEdgeId),
    DeclarationExecution(DeclarationId),
}

/// One compile-time child instance shared by one or more await edges.
#[derive(Debug, PartialEq, Eq)]
pub struct ChildInstance {
    pub id: ChildInstanceId,
    pub origin: ChildOrigin,
    pub target: AwaitTarget,
    pub storage: AwaitStorage,
    pub result: ResultLayout,
    pub ownership: AwaitOwnership,
    pub generation: ChildGeneration,
    pub requires_activation: bool,
    pub span: SourceSpan,
}

impl Clone for ChildInstance {
    fn clone(&self) -> (r: Self)
        ensures
            r == *self,
    {
        ChildInstance {
            id: self.id,
            origin: self.origin,
            target: self.target,
            storage: self.storage,
            result: self.result.clone(),
            ownership: self.ownership,
            generation: self.generation,
            requires_activation: self.requires_activation,
            span: self.span.clone(),
        }
    }
}

/// One suspension edge and the child instance it polls.
#[derive(Debug, PartialEq, Eq)]
pub struct AwaitEdge {
    pub id: AwaitEdgeId,
    pub instance: ChildInstanceId,
    pub block: BlockId,
    pub slot: AwaitSlotId,
    pub continuation: BlockId,
    pub span: SourceSpan,
}

impl Clone for AwaitEdge {
    fn clone(&self) -> (r: Self)
        ensures
            r == *self,
    {
        AwaitEdge {
            id: self.id,
            instance: self.instance,
            block: self.block,
            slot: self.slot,
            continuation: self.continuation,
            span: self.span.clone(),
        }
    }
}

/// A dynamic target value retained without falling back to text identity.
#[derive(Debug, Clone, PartialEq, Eq)]
pub struct DynamicAwaitValue {
    pub id: ValueId,
    pub operand: HirExpr,
    pub span: SourceSpan,
}

/// Await metadata for one function before storage planning.
#[derive(Debug, Clone, PartialEq, Eq)]
pub struct FunctionAwaitPlan {
    pub edges: Vec<AwaitEdge>,
    pub children: Vec<ChildInstance>,
    pub dynamic_values: Vec<DynamicAwaitValue>,
}

impl Default for FunctionAwaitPlan {
    fn default() -> (r: Self)
        ensures
            r.edges@ == Seq::<AwaitEdge>::empty(),
            r.children@ == Seq::<ChildInstance>::empty(),
            r.dynamic_values@ == Seq::<DynamicAwaitValue>::empty(),
    {
        FunctionAwaitPlan { edges: Vec::new(), children: Vec::new(), dynamic_values: Vec::new() }
    }
}

impl Key for ChildInstanceId {
    open spec fn rank_spec(&self) -> u64 {
        self.0 as u64
    }

    fn rank(&self) -> (r: u64) {
        self.0 as u64
    }

    proof fn injective(a: Self, b: Self) {
    }
}

/// The contents of an await plan.
pub struct AwaitPlanView {
    pub edges: Seq<AwaitEdge>,
    pub children: Seq<ChildInstance>,
    pub dynamic_values: Seq<DynamicAwaitValue>,
}

/// Whether two dynamic values are the same, with the same operand.
pub open spec fn same_value(a: DynamicAwaitValue, b: DynamicAwaitValue) -> bool {
    a.id == b.id && a.span == b.span && semantic::same_expr(a.operand, b.operand)
}

/// Whether two lists hold the same dynamic values in the same order.
pub open spec fn same_values(a: Seq<DynamicAwaitValue>, b: Seq<DynamicAwaitValue>) -> bool {
    a.len() == b.len() && forall|i: int| 0 <= i < a.len() ==> same_value(#[trigger] a[i], b[i])
}

/// Whether a plan has the given contents.
pub open spec fn plan_is(plan: FunctionAwaitPlan, view: AwaitPlanView) -> bool {
    plan.edges@ == view.edges && plan.children@ == view.children && same_values(
        plan.dynamic_values@,
        view.dynamic_values,
    )
}

/// The task declarations after one more instruction, by declaration.
pub open spec fn note_declaration<'a>(
    found: Seq<(DeclarationId, &'a HirDeclaration)>,
    instruction: &'a CfgInstruction,
) -> Seq<(DeclarationId, &'a HirDeclaration)> {
    match instruction {
        CfgInstruction::Declaration(declaration) => if declaration.is_task {
            order::put(found, declaration.id, declaration)
        } else {
            found
        },
        _ => found,
    }
}

/// The assigned expressions after one more instruction, by declaration.
pub open spec fn note_assignment<'a>(
    found: Seq<(DeclarationId, &'a HirExpr)>,
    instruction: &'a CfgInstruction,
) -> Seq<(DeclarationId, &'a HirExpr)> {
    match instruction {
        CfgInstruction::AssignExpression { destination, expression, span } => order::put(
            found,
            *destination,
            expression,
        ),
        _ => found,
    }
}

/// The task declarations after the first `n` instructions of a block.
pub open spec fn declarations_in<'a>(
    found: Seq<(DeclarationId, &'a HirDeclaration)>,
    instructions: Seq<CfgInstruction>,
    n: int,
) -> Seq<(DeclarationId, &'a HirDeclaration)>
    decreases n,
{
    if n <= 0 {
        found
    } else {
        note_declaration(declarations_in(found, instructions, n - 1), &instructions[n - 1])
    }
}

/// The last task declaration of every identity in the first `n` blocks, in
/// ascending order of identities.
pub open spec fn task_declarations<'a>(blocks: Seq<BasicBlock>, n: int) -> Seq<
    (DeclarationId, &'a HirDeclaration),
>
    decreases n,
{
    if n <= 0 {
        Seq::empty()
    } else {
        declarations_in(
            task_declarations(blocks, n - 1),
            blocks[n - 1].instructions@,
            blocks[n - 1].instructions@.len() as int,
        )
    }
}

/// The assigned expressions after the first `n` instructions of a block.
pub open spec fn assignments_in<'a>(
    found: Seq<(DeclarationId, &'a HirExpr)>,
    instructions: Seq<CfgInstruction>,
    n: int,
) -> Seq<(DeclarationId, &'a HirExpr)>
    decreases n,
{
    if n <= 0 {
        found
    } else {
        note_assignment(assignments_in(found, instructions, n - 1), &instructions[n - 1])
    }
}

/// The last expression assigned to every declaration in the first `n` blocks.
pub open spec fn assigned_expressions<'a>(blocks: Seq<BasicBlock>, n: int) -> Seq<
    (DeclarationId, &'a HirExpr),
>
    decreases n,
{
    if n <= 0 {
        Seq::empty()
    } else {
        assignments_in(
            assigned_expressions(blocks, n - 1),
            blocks[n - 1].instructions@,
            blocks[n - 1].instructions@.len() as int,
        )
    }
}

/// The expression that stands for a task declaration without an initializer.
pub open spec fn placeholder(declaration: HirDeclaration) -> HirExpr {
    HirExpr { kind: HirExprKind::Source(declaration.name), span: declaration.span }
}

/// The expression that starts the child of a task declaration.
pub open spec fn initializer_of(
    declaration: HirDeclaration,
    assigned: Seq<(DeclarationId, &HirExpr)>,
) -> HirExpr {
    match declaration.initializer {
        Some(initializer) => initializer,
        None => match order::lookup(assigned, declaration.id) {
            Some(expression) => *expression,
            None => placeholder(declaration),
        },
    }
}

/// The target that a call names, if it names a known function.
pub open spec fn static_target(expression: HirExpr) -> Option<FunctionId> {
    match expression.kind {
        HirExprKind::AsyncCall { target, callee, arguments, result_type } => target,
        _ => None,
    }
}

/// The target of an expression, given the dynamic values found before it.
pub open spec fn target_of(expression: HirExpr, values: Seq<DynamicAwaitValue>) -> AwaitTarget {
    match static_target(expression) {
        Some(function) => AwaitTarget::Static(function),
        None => AwaitTarget::Dynamic(ValueId(values.len() as u32)),
    }
}

/// The dynamic values after an expression was used as a target.
pub open spec fn values_with(
    expression: HirExpr,
    values: Seq<DynamicAwaitValue>,
) -> Seq<DynamicAwaitValue> {
    match static_target(expression) {
        Some(function) => values,
        None => values.push(
            DynamicAwaitValue {
                id: ValueId(values.len() as u32),
                operand: expression,
                span: expression.span,
            },
        ),
    }
}

/// The plan after the first `n` task declarations got their children.
pub open spec fn binding_plan(
    declarations: Seq<(DeclarationId, &HirDeclaration)>,
    assigned: Seq<(DeclarationId, &HirExpr)>,
    n: int,
) -> AwaitPlanView
    decreases n,
{
    if n <= 0 {
        AwaitPlanView {
            edges: Seq::empty(),
            children: Seq::empty(),
            dynamic_values: Seq::empty(),
        }
    } else {
        let before = binding_plan(declarations, assigned, n - 1);
        let declaration = *declarations[n - 1].1;
        let start = initializer_of(declaration, assigned);
        AwaitPlanView {
            edges: before.edges,
            children: before.children.push(
                ChildInstance {
                    id: ChildInstanceId((n - 1) as u32),
                    origin: ChildOrigin::Binding(declaration.id),
                    target: target_of(start, before.dynamic_values),
                    storage: AwaitStorage::Unplanned,
                    result: ResultLayout::KnownType(declaration.ty),
                    ownership: AwaitOwnership::Binding(declaration.id),
                    generation: ChildGeneration::DeclarationExecution(declaration.id),
                    requires_activation: true,
                    span: declaration.span,
                },
            ),
            dynamic_values: values_with(start, before.dynamic_values),
        }
    }
}

/// The position of the task declaration with identity `id`, from `i` on.
pub open spec fn binding_position(
    declarations: Seq<(DeclarationId, &HirDeclaration)>,
    id: DeclarationId,
    i: int,
) -> Option<int>
    decreases declarations.len() - i,
{
    if i < 0 || i >= declarations.len() {
        None
    } else if declarations[i].0 == id {
        Some(i)
    } else {
        binding_position(declarations, id, i + 1)
    }
}

/// One block that ends in a suspension.
pub struct Suspension<'a> {
    pub edge: AwaitEdgeId,
    pub block: BlockId,
    pub operand: &'a HirExpr,
    pub slot: AwaitSlotId,
    pub continuation: BlockId,
    pub span: &'a SourceSpan,
}

/// The suspension that ends a block.
pub open spec fn suspension_of<'a>(block: &'a BasicBlock) -> Option<Suspension<'a>> {
    match &block.terminator {
        CfgTerminator::Suspend { edge, operand, slot, continuation, span } => Some(
            Suspension {
                edge: *edge,
                block: block.id,
                operand,
                slot: *slot,
                continuation: continuation.target,
                span,
            },
        ),
        _ => None,
    }
}

/// The suspensions of the first `n` blocks, in block order.
pub open spec fn suspensions_in<'a>(blocks: Seq<BasicBlock>, n: int) -> Seq<Suspension<'a>>
    decreases n,
{
    if n <= 0 {
        Seq::empty()
    } else {
        match suspension_of(&blocks[n - 1]) {
            Some(suspension) => suspensions_in(blocks, n - 1).push(suspension),
            None => suspensions_in(blocks, n - 1),
        }
    }
}

/// Suspensions are ordered by edge, block, and source range.
pub open spec fn suspension_key(suspension: Suspension) -> Seq<u64> {
    seq![
        suspension.edge.0 as u64,
        suspension.block.0 as u64,
        suspension.span.start_byte as u64,
        suspension.span.end_byte as u64,
    ]
}

/// The sort keys of a list of suspensions.
pub open spec fn suspension_keys(suspensions: Seq<Suspension>) -> Seq<Seq<u64>> {
    Seq::new(suspensions.len(), |i: int| suspension_key(suspensions[i]))
}

/// All suspensions of a function in planning order.
pub open spec fn planned_suspensions<'a>(blocks: Seq<BasicBlock>) -> Seq<Suspension<'a>> {
    let found = suspensions_in(blocks, blocks.len() as int);
    order::sorted_by(found, suspension_keys(found))
}

/// The edge that polls `instance` at a suspension.
pub open spec fn edge_at(suspension: Suspension, instance: ChildInstanceId) -> AwaitEdge {
    AwaitEdge {
        id: suspension.edge,
        instance,
        block: suspension.block,
        slot: suspension.slot,
        continuation: suspension.continuation,
        span: *suspension.span,
    }
}

/// What is known of the result of a directly awaited expression.
pub open spec fn result_of(operand: HirExpr) -> ResultLayout {
    match operand.kind {
        HirExprKind::AsyncCall { target, callee, arguments, result_type } => ResultLayout::KnownType(
            result_type,
        ),
        _ => ResultLayout::RuntimeDefined,
    }
}

/// The plan after one more suspension.
pub open spec fn plan_suspension(
    before: AwaitPlanView,
    declarations: Seq<(DeclarationId, &HirDeclaration)>,
    suspension: Suspension,
) -> AwaitPlanView {
    match suspension.operand.kind {
        HirExprKind::TaskRef { declaration, name } => {
            let position = binding_position(declarations, declaration, 0)->0;
            AwaitPlanView {
                edges: before.edges.push(edge_at(suspension, ChildInstanceId(position as u32))),
                children: before.children,
                dynamic_values: before.dynamic_values,
            }
        },
        _ => {
            let child = ChildInstanceId(before.children.len() as u32);
            AwaitPlanView {
                edges: before.edges.push(edge_at(suspension, child)),
                children: before.children.push(
                    ChildInstance {
                        id: child,
                        origin: ChildOrigin::Direct(suspension.edge),
                        target: target_of(*suspension.operand, before.dynamic_values),
                        storage: AwaitStorage::Unplanned,
                        result: result_of(*suspension.operand),
                        ownership: AwaitOwnership::Edge(suspension.edge),
                        generation: ChildGeneration::AwaitEntry(suspension.edge),
                        requires_activation: true,
                        span: *suspension.span,
                    },
                ),
                dynamic_values: values_with(*suspension.operand, before.dynamic_values),
            }
        },
    }
}

/// The plan after the first `n` suspensions.
pub open spec fn suspension_plan(
    start: AwaitPlanView,
    declarations: Seq<(DeclarationId, &HirDeclaration)>,
    suspensions: Seq<Suspension>,
    n: int,
) -> AwaitPlanView
    decreases n,
{
    if n <= 0 {
        start
    } else {
        plan_suspension(
            suspension_plan(start, declarations, suspensions, n - 1),
            declarations,
            suspensions[n - 1],
        )
    }
}

/// The await plan of a function: one child for every task declaration, then
/// one edge for every suspension, with a child of its own unless the
/// suspension awaits a declared task.
pub open spec fn await_plan_of(function: CfgFunction) -> AwaitPlanView {
    let blocks = function.blocks@;
    let declarations = task_declarations(blocks, blocks.len() as int);
    let assigned = assigned_expressions(blocks, blocks.len() as int);
    let suspensions = planned_suspensions(blocks);
    suspension_plan(
        binding_plan(declarations, assigned, declarations.len() as int),
        declarations,
        suspensions,
        suspensions.len() as int,
    )
}

/// Whether every awaited task is declared in the function, and the children
/// can be numbered.
pub open spec fn plannable(function: CfgFunction) -> bool {
    let blocks = function.blocks@;
    let declarations = task_declarations(blocks, blocks.len() as int);
    let suspensions = suspensions_in(blocks, blocks.len() as int);
    &&& declarations.len() + suspensions.len() <= u32::MAX
    &&& forall|i: int|
        #![trigger suspensions[i]]
        0 <= i < suspensions.len() ==> match suspensions[i].operand.kind {
            HirExprKind::TaskRef { declaration, name } => binding_position(
                declarations,
                declaration,
                0,
            ) is Some,
            _ => true,
        }
}

/// Builds identity-bearing await metadata without selecting a storage policy.
#[must_use]
pub fn build_function_await_plan(function: &CfgFunction) -> (r: FunctionAwaitPlan)
    requires
        plannable(*function),
    ensures
        plan_is(r, await_plan_of(*function)),
{
    let declarations = collect_declarations(&function.blocks);
    let assigned = collect_assignments(&function.blocks);
    let suspensions = collect_suspensions(&function.blocks);
    let mut plan = FunctionAwaitPlan::default();
    let ghost mut view = binding_plan(declarations@, assigned@, 0);
    let mut i: usize = 0;
    while i < declarations.len()
        invariant
            i <= declarations@.len() <= u32::MAX,
            plan_is(plan, view),
            view == binding_plan(declarations@, assigned@, i as int),
            view.children.len() == i,
            view.edges.len() == 0,
            view.dynamic_values.len() <= i,
        decreases declarations@.len() - i,
    {
        let declaration = declarations[i].1;
        let start = initializer(declaration, &assigned);
        proof {
            view = binding_plan(declarations@, assigned@, i + 1);
        }
        let target = add_target(&mut plan.dynamic_values, start);
        plan.children.push(
            ChildInstance {
                id: ChildInstanceId(i as u32),
                origin: ChildOrigin::Binding(declaration.id),
                target,
                storage: AwaitStorage::Unplanned,
                result: ResultLayout::KnownType(declaration.ty.clone()),
                ownership: AwaitOwnership::Binding(declaration.id),
                generation: ChildGeneration::DeclarationExecution(declaration.id),
                requires_activation: true,
                span: declaration.span.clone(),
            },
        );
        i += 1;
    }
    let ghost start = view;
    let ghost found = suspensions_in(function.blocks@, function.blocks@.len() as int);
    proof {
        order::stable_order_sorts(suspension_keys(found), found.len() as int);
    }
    let mut j: usize = 0;
    while j < suspensions.len()
        invariant
            j <= suspensions@.len(),
            suspensions@.len() + declarations@.len() <= u32::MAX,
            plan_is(plan, view),
            view == suspension_plan(start, declarations@, suspensions@, j as int),
            view.children.len() <= declarations@.len() + j,
            view.dynamic_values.len() <= view.children.len(),
            forall|k: int|
                #![trigger suspensions@[k]]
                0 <= k < suspensions@.len() ==> match suspensions@[k].operand.kind {
                    HirExprKind::TaskRef { declaration, name } => binding_position(
                        declarations@,
                        declaration,
                        0,
                    ) is Some,
                    _ => true,
                },
        decreases suspensions@.len() - j,
    {
        let suspension = &suspensions[j];
        proof {
            view = suspension_plan(start, declarations@, suspensions@, j + 1);
        }
        let instance = if let HirExprKind::TaskRef { declaration, name } =
            &suspension.operand.kind {
            ChildInstanceId(binding_index(&declarations, *declaration) as u32)
        } else {
            let operand = clone_expr(suspension.operand);
            let ghost values = plan.dynamic_values@;
            let target = add_target(&mut plan.dynamic_values, operand);
            let result = match &suspension.operand.kind {
                HirExprKind::AsyncCall { target, callee, arguments, result_type } => {
                    ResultLayout::KnownType(result_type.clone())
                },
                _ => ResultLayout::RuntimeDefined,
            };
            let child = ChildInstanceId(plan.children.len() as u32);
            plan.children.push(
                ChildInstance {
                    id: child,
                    origin: ChildOrigin::Direct(suspension.edge),
                    target,
                    storage: AwaitStorage::Unplanned,
                    result,
                    ownership: AwaitOwnership::Edge(suspension.edge),
                    generation: ChildGeneration::AwaitEntry(suspension.edge),
                    requires_activation: true,
                    span: suspension.span.clone(),
                },
            );
            child
        };
        plan.edges.push(
            AwaitEdge {
                id: suspension.edge,
                instance,
                block: suspension.block,
                slot: suspension.slot,
                continuation: suspension.continuation,
                span: suspension.span.clone(),
            },
        );
        j += 1;
    }
    plan
}

/// The position of a declared task.
fn binding_index(
    declarations: &Vec<(DeclarationId, &HirDeclaration)>,
    id: DeclarationId,
) -> (r: usize)
    requires
        binding_position(declarations@, id, 0) is Some,
    ensures
        binding_position(declarations@, id, 0) == Some(r as int),
        r < declarations@.len(),
{
    let mut i: usize = 0;
    while i < declarations.len() && declarations[i].0 != id
        invariant
            i <= declarations@.len(),
            binding_position(declarations@, id, 0) is Some,
            binding_position(declarations@, id, 0) == binding_position(
                declarations@,
                id,
                i as int,
            ),
        decreases declarations@.len() - i,
    {
        i += 1;
    }
    i
}

/// Names the target of an expression and keeps the expression when the target
/// is only known at run time.
fn add_target(values: &mut Vec<DynamicAwaitValue>, expression: HirExpr) -> (r: AwaitTarget)
    requires
        old(values)@.len() < u32::MAX,
    ensures
        r == target_of(expression, old(values)@),
        final(values)@ == values_with(expression, old(values)@),
{
    if let HirExprKind::AsyncCall { target: Some(target), callee, arguments, result_type } =
        &expression.kind {
        return AwaitTarget::Static(*target);
    }
    let value = ValueId(values.len() as u32);
    let span = expression.span.clone();
    values.push(DynamicAwaitValue { id: value, operand: expression, span });
    AwaitTarget::Dynamic(value)
}

/// Collects the last task declaration of every identity.
fn collect_declarations<'a>(blocks: &'a Vec<BasicBlock>) -> (r: Vec<
    (DeclarationId, &'a HirDeclaration),
>)
    ensures
        r@ == task_declarations(blocks@, blocks@.len() as int),
{
    let mut found: Vec<(DeclarationId, &'a HirDeclaration)> = Vec::new();
    let mut b: usize = 0;
    while b < blocks.len()
        invariant
            b <= blocks@.len(),
            found@ == task_declarations(blocks@, b as int),
        decreases blocks@.len() - b,
    {
        let instructions = &blocks[b].instructions;
        let mut i: usize = 0;
        while i < instructions.len()
            invariant
                b < blocks@.len(),
                instructions@ == blocks@[b as int].instructions@,
                i <= instructions@.len(),
                found@ == declarations_in(
                    task_declarations(blocks@, b as int),
                    instructions@,
                    i as int,
                ),
            decreases instructions@.len() - i,
        {
            if let CfgInstruction::Declaration(declaration) = &instructions[i] {
                if declaration.is_task {
                    put_value(&mut found, declaration.id, declaration);
                }
            }
            i += 1;
        }
        b += 1;
    }
    found
}

/// Collects the last expression assigned to every declaration.
fn collect_assignments<'a>(blocks: &'a Vec<BasicBlock>) -> (r: Vec<(DeclarationId, &'a HirExpr)>)
    ensures
        r@ == assigned_expressions(blocks@, blocks@.len() as int),
{
    let mut found: Vec<(DeclarationId, &'a HirExpr)> = Vec::new();
    let mut b: usize = 0;
    while b < blocks.len()
        invariant
            b <= blocks@.len(),
            found@ == assigned_expressions(blocks@, b as int),
        decreases blocks@.len() - b,
    {
        let instructions = &blocks[b].instructions;
        let mut i: usize = 0;
        while i < instructions.len()
            invariant
                b < blocks@.len(),
                instructions@ == blocks@[b as int].instructions@,
                i <= instructions@.len(),
                found@ == assignments_in(
                    assigned_expressions(blocks@, b as int),
                    instructions@,
                    i as int,
                ),
            decreases instructions@.len() - i,
        {
            if let CfgInstruction::AssignExpression { destination, expression, span } =
                &instructions[i] {
                put_value(&mut found, *destination, expression);
            }
            i += 1;
        }
        b += 1;
    }
    found
}

/// Collects the suspensions in planning order.
fn collect_suspensions<'a>(blocks: &'a Vec<BasicBlock>) -> (r: Vec<Suspension<'a>>)
    ensures
        r@ == planned_suspensions(blocks@),
{
    let mut found: Vec<Suspension<'a>> = Vec::new();
    let mut keys: Vec<Vec<u64>> = Vec::new();
    let mut b: usize = 0;
    while b < blocks.len()
        invariant
            b <= blocks@.len(),
            found@ == suspensions_in(blocks@, b as int),
            syntax::views(keys@) =~= suspension_keys(found@),
        decreases blocks@.len() - b,
    {
        let block = &blocks[b];
        if let CfgTerminator::Suspend { edge, operand, slot, continuation, span } =
            &block.terminator {
            let suspension = Suspension {
                edge: *edge,
                block: block.id,
                operand,
                slot: *slot,
                continuation: continuation.target,
                span,
            };
            let key: Vec<u64> = vec![
                edge.0 as u64,
                block.id.0 as u64,
                span.start_byte as u64,
                span.end_byte as u64,
            ];
            assert(key@ =~= suspension_key(suspension));
            proof {
                syntax::views_push(keys@, key);
            }
            assert(suspension_keys(found@.push(suspension)) =~= suspension_keys(found@).push(key@));
            found.push(suspension);
            keys.push(key);
        }
        b += 1;
    }
    let order = sort_order(&keys);
    let mut r: Vec<Suspension<'a>> = Vec::new();
    let mut i: usize = 0;
    while i < order.len()
        invariant
            i <= order@.len(),
            order@.len() == found@.len(),
            forall|k: int| 0 <= k < order@.len() ==> 0 <= #[trigger] order@[k] < found@.len(),
            r@ == order::arranged(found@, order::positions(order@)).take(i as int),
        decreases order@.len() - i,
    {
        let s = &found[order[i]];
        r.push(
            Suspension {
                edge: s.edge,
                block: s.block,
                operand: s.operand,
                slot: s.slot,
                continuation: s.continuation,
                span: s.span,
            },
        );
        assert(order::arranged(found@, order::positions(order@)).take(i + 1) =~= order::arranged(
            found@,
            order::positions(order@),
        ).take(i as int).push(found@[order@[i as int] as int]));
        i += 1;
    }
    assert(r@ =~= order::arranged(found@, order::positions(order@)));
    r
}

/// The expression that starts the child of a task declaration.
fn initializer(declaration: &HirDeclaration, assigned: &Vec<(DeclarationId, &HirExpr)>) -> (r:
    HirExpr)
    ensures
        semantic::same_expr(r, initializer_of(*declaration, assigned@)),
{
    match &declaration.initializer {
        Some(initializer) => clone_expr(initializer),
        None => match find_value(assigned, declaration.id) {
            Some(expression) => clone_expr(*expression),
            None => binding_placeholder(declaration),
        },
    }
}

fn binding_placeholder(declaration: &HirDeclaration) -> (r: HirExpr)
    ensures
        r == placeholder(*declaration),
{
    HirExpr {
        kind: HirExprKind::Source(declaration.name.clone()),
        span: declaration.span.clone(),
    }
}

} // verus!
