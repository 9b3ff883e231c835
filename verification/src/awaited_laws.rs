//! What the children of a function wait for.

use vstd::prelude::*;

use crate::await_plan;
use crate::await_plan::{
    AwaitPlanView, AwaitTarget, ChildInstance, ChildOrigin, DynamicAwaitValue, ResultLayout,
    Suspension,
};
use crate::control_flow::CfgFunction;
use crate::order;
use crate::semantic::{DeclarationId, HirDeclaration, HirExpr, HirExprKind};

verus! {

/// Whether a child waits for what an expression gives: for the function that a call
/// names, or for the value of the expression, which is kept.
pub open spec fn waits_for(
    child: ChildInstance,
    expression: HirExpr,
    values: Seq<DynamicAwaitValue>,
) -> bool {
    match expression.kind {
        HirExprKind::AsyncCall { target: Some(function), callee, arguments, result_type } =>
            child.target == AwaitTarget::Static(function),
        _ => child.target matches AwaitTarget::Dynamic(value) && value.0 < values.len()
            && values[value.0 as int].id == value && values[value.0 as int].operand == expression
            && values[value.0 as int].span == expression.span,
    }
}

/// Whether a child belongs to a suspension: it waits for the operand, where the
/// suspension stands, and its result has a type if the operand is a call.
pub open spec fn serves_suspension(
    child: ChildInstance,
    suspension: Suspension,
    values: Seq<DynamicAwaitValue>,
) -> bool {
    &&& waits_for(child, *suspension.operand, values)
    &&& child.origin == ChildOrigin::Direct(suspension.edge)
    &&& child.span == *suspension.span
    &&& match suspension.operand.kind {
        HirExprKind::AsyncCall { target, callee, arguments, result_type } => child.result
            == ResultLayout::KnownType(result_type),
        _ => child.result == ResultLayout::RuntimeDefined,
    }
}

/// Whether a plan has kept everything of another.
pub open spec fn plan_grows(before: AwaitPlanView, after: AwaitPlanView) -> bool {
    &&& before.edges.len() <= after.edges.len()
    &&& before.children.len() <= after.children.len()
    &&& before.dynamic_values.len() <= after.dynamic_values.len()
    &&& forall|i: int| 0 <= i < before.edges.len() ==> #[trigger] after.edges[i] == before.edges[i]
    &&& forall|i: int|
        0 <= i < before.children.len() ==> #[trigger] after.children[i] == before.children[i]
    &&& forall|i: int|
        0 <= i < before.dynamic_values.len() ==> #[trigger] after.dynamic_values[i]
            == before.dynamic_values[i]
}

/// Whether an edge of a plan stands for a suspension.
pub open spec fn edge_serves(
    plan: AwaitPlanView,
    at: int,
    suspension: Suspension,
    declarations: Seq<(DeclarationId, &HirDeclaration)>,
) -> bool {
    let edge = plan.edges[at];
    &&& 0 <= at < plan.edges.len()
    &&& edge.id == suspension.edge
    &&& edge.block == suspension.block
    &&& edge.slot == suspension.slot
    &&& edge.continuation == suspension.continuation
    &&& edge.span == *suspension.span
    &&& match suspension.operand.kind {
        HirExprKind::TaskRef { declaration, name } => edge.instance.0 < declarations.len()
            && declarations[edge.instance.0 as int].0 == declaration,
        _ => edge.instance.0 < plan.children.len() && serves_suspension(
            plan.children[edge.instance.0 as int],
            suspension,
            plan.dynamic_values,
        ),
    }
}

proof fn position_is_found(
    declarations: Seq<(DeclarationId, &HirDeclaration)>,
    id: DeclarationId,
    i: int,
)
    requires
        0 <= i <= declarations.len(),
    ensures
        await_plan::binding_position(declarations, id, i) matches Some(p) ==> i <= p
            < declarations.len() && declarations[p].0 == id,
    decreases declarations.len() - i,
{
    if i < declarations.len() {
        position_is_found(declarations, id, i + 1);
    }
}

proof fn suspensions_are_served(
    start: AwaitPlanView,
    declarations: Seq<(DeclarationId, &HirDeclaration)>,
    suspensions: Seq<Suspension>,
    n: int,
    k: int,
)
    requires
        0 <= n <= suspensions.len(),
        start.edges.len() == 0,
        start.dynamic_values.len() <= start.children.len(),
        start.children.len() + suspensions.len() <= u32::MAX,
        declarations.len() <= u32::MAX,
        forall|i: int|
            #![trigger suspensions[i]]
            0 <= i < suspensions.len() ==> (suspensions[i].operand.kind matches HirExprKind::TaskRef {
                declaration,
                name,
            } ==> await_plan::binding_position(declarations, declaration, 0) is Some),
    ensures
        ({
            let plan = await_plan::suspension_plan(start, declarations, suspensions, n);
            &&& plan_grows(start, plan)
            &&& plan.edges.len() == n
            &&& plan.children.len() <= start.children.len() + n
            &&& plan.dynamic_values.len() <= plan.children.len()
            &&& 0 <= k < n ==> edge_serves(plan, k, suspensions[k], declarations)
        }),
    decreases n,
{
    if n > 0 {
        suspensions_are_served(start, declarations, suspensions, n - 1, k);
        let before = await_plan::suspension_plan(start, declarations, suspensions, n - 1);
        let after = await_plan::suspension_plan(start, declarations, suspensions, n);
        let own = suspensions[n - 1];
        assert(plan_grows(before, after));
        match own.operand.kind {
            HirExprKind::TaskRef { declaration, name } => {
                position_is_found(declarations, declaration, 0);
            },
            _ => {
                let child = after.children[before.children.len() as int];
                assert(((before.dynamic_values.len() as u32) as int)
                    == before.dynamic_values.len());
                assert(waits_for(child, *own.operand, after.dynamic_values));
                assert(serves_suspension(child, own, after.dynamic_values));
            },
        }
        assert(edge_serves(after, n - 1, own, declarations));
        if 0 <= k < n - 1 {
            assert(edge_serves(before, k, suspensions[k], declarations));
            assert(after.edges[k] == before.edges[k]);
            let at = before.edges[k].instance.0 as int;
            if !(suspensions[k].operand.kind is TaskRef) {
                assert(after.children[at] == before.children[at]);
                if let AwaitTarget::Dynamic(value) = before.children[at].target {
                    if value.0 < before.dynamic_values.len() {
                        assert(after.dynamic_values[value.0 as int]
                            == before.dynamic_values[value.0 as int]);
                    }
                }
            }
        }
    }
}

proof fn bindings_are_served(
    declarations: Seq<(DeclarationId, &HirDeclaration)>,
    assigned: Seq<(DeclarationId, &HirExpr)>,
    n: int,
    k: int,
)
    requires
        0 <= n <= declarations.len() <= u32::MAX,
    ensures
        ({
            let plan = await_plan::binding_plan(declarations, assigned, n);
            &&& plan.edges.len() == 0
            &&& plan.children.len() == n
            &&& plan.dynamic_values.len() <= n
            &&& 0 <= k < n ==> waits_for(
                plan.children[k],
                await_plan::initializer_of(*declarations[k].1, assigned),
                plan.dynamic_values,
            ) && plan.children[k].result == ResultLayout::KnownType(declarations[k].1.ty)
                && plan.children[k].span == declarations[k].1.span
        }),
    decreases n,
{
    if n > 0 {
        bindings_are_served(declarations, assigned, n - 1, k);
        let before = await_plan::binding_plan(declarations, assigned, n - 1);
        let after = await_plan::binding_plan(declarations, assigned, n);
        assert(((before.dynamic_values.len() as u32) as int) == before.dynamic_values.len());
        if 0 <= k < n - 1 {
            assert(after.children[k] == before.children[k]);
            if let AwaitTarget::Dynamic(value) = before.children[k].target {
                if value.0 < before.dynamic_values.len() {
                    assert(after.dynamic_values[value.0 as int]
                        == before.dynamic_values[value.0 as int]);
                }
            }
        }
    }
}

/// Every suspension of a function has an edge of its own number, block, slot, place
/// and continuation. The edge polls the child of the task that the suspension
/// awaits, or a child that waits for what the operand gives.
pub proof fn suspensions_wait_for_their_operands(function: CfgFunction, i: int)
    requires
        await_plan::plannable(function),
        0 <= i < await_plan::planned_suspensions(function.blocks@).len(),
    ensures
        ({
            let blocks = function.blocks@;
            edge_serves(
                await_plan::await_plan_of(function),
                i,
                await_plan::planned_suspensions(blocks)[i],
                await_plan::task_declarations(blocks, blocks.len() as int),
            )
        }),
{
    let blocks = function.blocks@;
    let declarations = await_plan::task_declarations(blocks, blocks.len() as int);
    let assigned = await_plan::assigned_expressions(blocks, blocks.len() as int);
    let found = await_plan::suspensions_in(blocks, blocks.len() as int);
    let suspensions = await_plan::planned_suspensions(blocks);
    let keys = await_plan::suspension_keys(found);
    let sorted = order::stable_order(keys, found.len() as int);
    order::stable_order_sorts(keys, found.len() as int);
    assert forall|j: int|
        #![trigger suspensions[j]]
        0 <= j < suspensions.len() implies (suspensions[j].operand.kind matches HirExprKind::TaskRef {
        declaration,
        name,
    } ==> await_plan::binding_position(declarations, declaration, 0) is Some) by {
        assert(suspensions[j] == found[sorted[j]]);
    }
    bindings_are_served(declarations, assigned, declarations.len() as int, 0);
    suspensions_are_served(
        await_plan::binding_plan(declarations, assigned, declarations.len() as int),
        declarations,
        suspensions,
        suspensions.len() as int,
        i,
    );
}

/// The child of a declared task waits for what its initializer gives. Its result has
/// the type of the task.
pub proof fn tasks_wait_for_their_initializers(function: CfgFunction, k: int)
    requires
        await_plan::plannable(function),
        0 <= k < await_plan::task_declarations(
            function.blocks@,
            function.blocks@.len() as int,
        ).len(),
    ensures
        ({
            let blocks = function.blocks@;
            let plan = await_plan::await_plan_of(function);
            let declaration = *await_plan::task_declarations(blocks, blocks.len() as int)[k].1;
            let child = plan.children[k];
            &&& plan.children.len() > k
            &&& child.result == ResultLayout::KnownType(declaration.ty)
            &&& child.span == declaration.span
            &&& declaration.initializer matches Some(start) ==> waits_for(
                child,
                start,
                plan.dynamic_values,
            )
        }),
{
    let blocks = function.blocks@;
    let declarations = await_plan::task_declarations(blocks, blocks.len() as int);
    let assigned = await_plan::assigned_expressions(blocks, blocks.len() as int);
    let found = await_plan::suspensions_in(blocks, blocks.len() as int);
    let suspensions = await_plan::planned_suspensions(blocks);
    let keys = await_plan::suspension_keys(found);
    let sorted = order::stable_order(keys, found.len() as int);
    order::stable_order_sorts(keys, found.len() as int);
    assert forall|j: int|
        #![trigger suspensions[j]]
        0 <= j < suspensions.len() implies (suspensions[j].operand.kind matches HirExprKind::TaskRef {
        declaration,
        name,
    } ==> await_plan::binding_position(declarations, declaration, 0) is Some) by {
        assert(suspensions[j] == found[sorted[j]]);
    }
    bindings_are_served(declarations, assigned, declarations.len() as int, k);
    let start = await_plan::binding_plan(declarations, assigned, declarations.len() as int);
    suspensions_are_served(start, declarations, suspensions, suspensions.len() as int, 0);
    let plan = await_plan::await_plan_of(function);
    assert(plan.children[k] == start.children[k]);
    if let AwaitTarget::Dynamic(value) = start.children[k].target {
        if value.0 < start.dynamic_values.len() {
            assert(plan.dynamic_values[value.0 as int] == start.dynamic_values[value.0 as int]);
        }
    }
}

} // verus!
