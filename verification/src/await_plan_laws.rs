//! What holds of every await plan: who polls which child, and who owns it.

use vstd::prelude::*;

use crate::await_plan;
use crate::await_plan::{
    AwaitOwnership, AwaitPlanView, AwaitStorage, AwaitTarget, ChildGeneration, ChildInstance,
    ChildOrigin, Suspension,
};
use crate::control_flow::{BasicBlock, CfgFunction, CfgInstruction};
use crate::order;
use crate::semantic::{DeclarationId, HirDeclaration, HirExpr, HirExprKind};

verus! {

/// The task that a suspension awaits, if it awaits a declared task.
pub open spec fn awaited_task(suspension: Suspension) -> Option<DeclarationId> {
    match suspension.operand.kind {
        HirExprKind::TaskRef { declaration, name } => Some(declaration),
        _ => None,
    }
}

/// Whether a child belongs to a task declaration, which starts it each time
/// the declaration executes.
pub open spec fn bound_to(child: ChildInstance, declaration: DeclarationId) -> bool {
    child.origin == ChildOrigin::Binding(declaration) && child.ownership
        == AwaitOwnership::Binding(declaration) && child.generation
        == ChildGeneration::DeclarationExecution(declaration)
}

/// Whether a child belongs to a suspension, which starts it each time it is
/// reached.
pub open spec fn owned_by(child: ChildInstance, suspension: Suspension) -> bool {
    child.origin == ChildOrigin::Direct(suspension.edge) && child.ownership
        == AwaitOwnership::Edge(suspension.edge) && child.generation
        == ChildGeneration::AwaitEntry(suspension.edge)
}

/// Whether every child stands at its identity, has no storage yet, needs to
/// be activated, and refers to a kept value if its target is dynamic.
pub open spec fn children_fresh(plan: AwaitPlanView) -> bool {
    forall|k: int|
        0 <= k < plan.children.len() ==> {
            let child = #[trigger] plan.children[k];
            &&& child.id.0 == k
            &&& child.storage == AwaitStorage::Unplanned
            &&& child.requires_activation
            &&& match child.target {
                AwaitTarget::Static(function) => true,
                AwaitTarget::Dynamic(value) => value.0 < plan.dynamic_values.len()
                    && plan.dynamic_values[value.0 as int].id == value,
            }
        }
}

/// Whether the first children belong to the declared tasks, one each and in
/// order.
pub open spec fn tasks_bound(
    plan: AwaitPlanView,
    declarations: Seq<(DeclarationId, &HirDeclaration)>,
) -> bool {
    &&& plan.children.len() >= declarations.len()
    &&& forall|k: int|
        0 <= k < declarations.len() ==> bound_to(
            #[trigger] plan.children[k],
            declarations[k].0,
        )
}

/// Whether an edge polls the child that its suspension calls for: the child
/// of the awaited task, or else a child of its own.
pub open spec fn edge_polls(plan: AwaitPlanView, suspension: Suspension, i: int) -> bool {
    let edge = plan.edges[i];
    &&& edge == await_plan::edge_at(suspension, edge.instance)
    &&& edge.instance.0 < plan.children.len()
    &&& match awaited_task(suspension) {
        Some(declaration) => bound_to(plan.children[edge.instance.0 as int], declaration),
        None => owned_by(plan.children[edge.instance.0 as int], suspension),
    }
}

proof fn noted_declaration_named<'a>(
    found: Seq<(DeclarationId, &'a HirDeclaration)>,
    instruction: &'a CfgInstruction,
)
    requires
        forall|i: int| 0 <= i < found.len() ==> (#[trigger] found[i]).0 == found[i].1.id,
    ensures
        ({
            let after = await_plan::note_declaration(found, instruction);
            forall|i: int| 0 <= i < after.len() ==> (#[trigger] after[i]).0 == after[i].1.id
        }),
{
    if let CfgInstruction::Declaration(declaration) = instruction {
        order::key_point_bounds(found, declaration.id, 0);
    }
}

proof fn declarations_in_named<'a>(
    found: Seq<(DeclarationId, &'a HirDeclaration)>,
    instructions: Seq<CfgInstruction>,
    n: int,
)
    requires
        forall|i: int| 0 <= i < found.len() ==> (#[trigger] found[i]).0 == found[i].1.id,
    ensures
        ({
            let after = await_plan::declarations_in(found, instructions, n);
            forall|i: int| 0 <= i < after.len() ==> (#[trigger] after[i]).0 == after[i].1.id
        }),
    decreases n,
{
    if n > 0 {
        declarations_in_named(found, instructions, n - 1);
        noted_declaration_named(
            await_plan::declarations_in(found, instructions, n - 1),
            &instructions[n - 1],
        );
    }
}

proof fn task_declarations_named(blocks: Seq<BasicBlock>, n: int)
    ensures
        ({
            let found = await_plan::task_declarations(blocks, n);
            forall|i: int| 0 <= i < found.len() ==> (#[trigger] found[i]).0 == found[i].1.id
        }),
    decreases n,
{
    if n > 0 {
        task_declarations_named(blocks, n - 1);
        declarations_in_named(
            await_plan::task_declarations(blocks, n - 1),
            blocks[n - 1].instructions@,
            blocks[n - 1].instructions@.len() as int,
        );
    }
}

proof fn binding_position_finds(
    declarations: Seq<(DeclarationId, &HirDeclaration)>,
    id: DeclarationId,
    i: int,
)
    requires
        i >= 0,
    ensures
        match await_plan::binding_position(declarations, id, i) {
            Some(position) => i <= position < declarations.len() && declarations[position].0 == id,
            None => true,
        },
    decreases declarations.len() - i,
{
    if i < declarations.len() && declarations[i].0 != id {
        binding_position_finds(declarations, id, i + 1);
    }
}

proof fn bindings_planned(
    declarations: Seq<(DeclarationId, &HirDeclaration)>,
    assigned: Seq<(DeclarationId, &HirExpr)>,
    n: int,
)
    requires
        0 <= n <= declarations.len() <= u32::MAX,
        forall|i: int|
            0 <= i < declarations.len() ==> (#[trigger] declarations[i]).0
                == declarations[i].1.id,
    ensures
        ({
            let plan = await_plan::binding_plan(declarations, assigned, n);
            &&& plan.edges.len() == 0
            &&& plan.children.len() == n
            &&& plan.dynamic_values.len() <= n
            &&& children_fresh(plan)
            &&& forall|k: int|
                0 <= k < n ==> bound_to(#[trigger] plan.children[k], declarations[k].0)
        }),
    decreases n,
{
    if n > 0 {
        bindings_planned(declarations, assigned, n - 1);
        let before = await_plan::binding_plan(declarations, assigned, n - 1);
        let plan = await_plan::binding_plan(declarations, assigned, n);
        assert forall|k: int| 0 <= k < n - 1 implies #[trigger] plan.children[k]
            == before.children[k] by {}
        assert(declarations[n - 1].0 == declarations[n - 1].1.id);
    }
}

/// What holds of a plan after the first `n` suspensions.
spec fn planned_up_to(
    plan: AwaitPlanView,
    declarations: Seq<(DeclarationId, &HirDeclaration)>,
    suspensions: Seq<Suspension>,
    n: int,
) -> bool {
    &&& plan.edges.len() == n
    &&& plan.children.len() <= declarations.len() + n
    &&& plan.dynamic_values.len() <= plan.children.len()
    &&& children_fresh(plan)
    &&& tasks_bound(plan, declarations)
    &&& forall|k: int|
        declarations.len() <= k < plan.children.len() ==> (
        #[trigger] plan.children[k]).origin is Direct
    &&& forall|i: int| 0 <= i < n ==> #[trigger] edge_polls(plan, suspensions[i], i)
    &&& forall|i: int, j: int|
        #![trigger plan.edges[i], plan.edges[j]]
        0 <= i < j < n && awaited_task(suspensions[i]) is None ==> plan.edges[i].instance
            != plan.edges[j].instance
    &&& forall|i: int|
        0 <= i < n && awaited_task(suspensions[i]) is None ==> (
        #[trigger] plan.edges[i]).instance.0 >= declarations.len()
    &&& forall|i: int|
        0 <= i < n && awaited_task(suspensions[i]) is Some ==> (
        #[trigger] plan.edges[i]).instance.0 < declarations.len()
}

proof fn suspension_planned(
    before: AwaitPlanView,
    declarations: Seq<(DeclarationId, &HirDeclaration)>,
    suspensions: Seq<Suspension>,
    n: int,
)
    requires
        0 <= n < suspensions.len(),
        declarations.len() + suspensions.len() <= u32::MAX,
        planned_up_to(before, declarations, suspensions, n),
        match awaited_task(suspensions[n]) {
            Some(declaration) => await_plan::binding_position(
                declarations,
                declaration,
                0,
            ) is Some,
            None => true,
        },
    ensures
        planned_up_to(
            await_plan::plan_suspension(before, declarations, suspensions[n]),
            declarations,
            suspensions,
            n + 1,
        ),
{
    let suspension = suspensions[n];
    let plan = await_plan::plan_suspension(before, declarations, suspension);
    if let Some(declaration) = awaited_task(suspension) {
        binding_position_finds(declarations, declaration, 0);
    }
    assert forall|k: int| 0 <= k < before.children.len() implies #[trigger] plan.children[k]
        == before.children[k] by {}
    assert forall|i: int| 0 <= i < n implies #[trigger] plan.edges[i] == before.edges[i] by {}
    assert(forall|i: int|
        0 <= i < before.dynamic_values.len() ==> #[trigger] plan.dynamic_values[i]
            == before.dynamic_values[i]);
    assert forall|i: int| 0 <= i < n + 1 implies #[trigger] edge_polls(
        plan,
        suspensions[i],
        i,
    ) by {
        if i < n {
            assert(edge_polls(before, suspensions[i], i));
            assert(plan.edges[i] == before.edges[i]);
        }
    }
    assert forall|i: int, j: int|
        #![trigger plan.edges[i], plan.edges[j]]
        0 <= i < j < n + 1 && awaited_task(suspensions[i]) is None implies plan.edges[i].instance
        != plan.edges[j].instance by {
        assert(edge_polls(before, suspensions[i], i));
        assert(plan.edges[i] == before.edges[i]);
        if j < n {
            assert(plan.edges[j] == before.edges[j]);
        }
    }
}

proof fn suspensions_planned(
    start: AwaitPlanView,
    declarations: Seq<(DeclarationId, &HirDeclaration)>,
    suspensions: Seq<Suspension>,
    n: int,
)
    requires
        0 <= n <= suspensions.len(),
        declarations.len() + suspensions.len() <= u32::MAX,
        planned_up_to(start, declarations, suspensions, 0),
        forall|i: int|
            #![trigger suspensions[i]]
            0 <= i < suspensions.len() ==> match awaited_task(suspensions[i]) {
                Some(declaration) => await_plan::binding_position(
                    declarations,
                    declaration,
                    0,
                ) is Some,
                None => true,
            },
    ensures
        planned_up_to(
            await_plan::suspension_plan(start, declarations, suspensions, n),
            declarations,
            suspensions,
            n,
        ),
    decreases n,
{
    if n > 0 {
        suspensions_planned(start, declarations, suspensions, n - 1);
        suspension_planned(
            await_plan::suspension_plan(start, declarations, suspensions, n - 1),
            declarations,
            suspensions,
            n - 1,
        );
    }
}

proof fn plan_of_function(function: CfgFunction)
    requires
        await_plan::plannable(function),
    ensures
        ({
            let blocks = function.blocks@;
            let suspensions = await_plan::planned_suspensions(blocks);
            planned_up_to(
                await_plan::await_plan_of(function),
                await_plan::task_declarations(blocks, blocks.len() as int),
                suspensions,
                suspensions.len() as int,
            )
        }),
{
    let blocks = function.blocks@;
    let declarations = await_plan::task_declarations(blocks, blocks.len() as int);
    let assigned = await_plan::assigned_expressions(blocks, blocks.len() as int);
    let found = await_plan::suspensions_in(blocks, blocks.len() as int);
    let suspensions = await_plan::planned_suspensions(blocks);
    order::stable_order_sorts(await_plan::suspension_keys(found), found.len() as int);
    task_declarations_named(blocks, blocks.len() as int);
    bindings_planned(declarations, assigned, declarations.len() as int);
    let start = await_plan::binding_plan(declarations, assigned, declarations.len() as int);
    assert(suspensions.len() == found.len());
    let sorted = order::stable_order(await_plan::suspension_keys(found), found.len() as int);
    assert forall|i: int| #![trigger suspensions[i]] 0 <= i < suspensions.len() implies match awaited_task(
        suspensions[i],
    ) {
        Some(declaration) => await_plan::binding_position(declarations, declaration, 0) is Some,
        None => true,
    } by {
        assert(suspensions[i] == found[sorted[i]]);
    }
    suspensions_planned(start, declarations, suspensions, suspensions.len() as int);
}

/// A plan has one edge for every suspension, whatever loops it stands in. An
/// edge that awaits a declared task polls the child of that task; any other
/// edge polls a child of its own.
pub proof fn every_suspension_has_one_edge(function: CfgFunction)
    requires
        await_plan::plannable(function),
    ensures
        ({
            let plan = await_plan::await_plan_of(function);
            let suspensions = await_plan::planned_suspensions(function.blocks@);
            &&& plan.edges.len() == suspensions.len()
            &&& forall|i: int|
                0 <= i < suspensions.len() ==> #[trigger] edge_polls(plan, suspensions[i], i)
        }),
{
    plan_of_function(function);
}

/// Every declared task has one child, whatever number of suspensions await it.
/// All suspensions that await one task poll that one child.
pub proof fn awaits_of_a_task_share_its_child(function: CfgFunction)
    requires
        await_plan::plannable(function),
    ensures
        ({
            let blocks = function.blocks@;
            let plan = await_plan::await_plan_of(function);
            let suspensions = await_plan::planned_suspensions(blocks);
            let declarations = await_plan::task_declarations(blocks, blocks.len() as int);
            &&& tasks_bound(plan, declarations)
            &&& forall|k: int|
                declarations.len() <= k < plan.children.len() ==> (
                #[trigger] plan.children[k]).origin is Direct
            &&& forall|i: int, j: int|
                #![trigger plan.edges[i], plan.edges[j]]
                0 <= i < suspensions.len() && 0 <= j < suspensions.len() && awaited_task(
                    suspensions[i],
                ) is Some && awaited_task(suspensions[i]) == awaited_task(suspensions[j])
                    ==> plan.edges[i].instance == plan.edges[j].instance
        }),
{
    plan_of_function(function);
    let blocks = function.blocks@;
    let plan = await_plan::await_plan_of(function);
    let suspensions = await_plan::planned_suspensions(blocks);
    let declarations = await_plan::task_declarations(blocks, blocks.len() as int);
    task_declarations_ascend(blocks, blocks.len() as int);
    assert forall|i: int, j: int|
        #![trigger plan.edges[i], plan.edges[j]]
        0 <= i < suspensions.len() && 0 <= j < suspensions.len() && awaited_task(
            suspensions[i],
        ) is Some && awaited_task(suspensions[i]) == awaited_task(
            suspensions[j],
        ) implies plan.edges[i].instance == plan.edges[j].instance by {
        assert(edge_polls(plan, suspensions[i], i));
        assert(edge_polls(plan, suspensions[j], j));
        let a = plan.edges[i].instance.0 as int;
        let b = plan.edges[j].instance.0 as int;
        assert(bound_to(plan.children[a], declarations[a].0));
        assert(bound_to(plan.children[b], declarations[b].0));
        if a < b {
            assert(order::ascending(declarations));
        } else if b < a {
            assert(order::ascending(declarations));
        }
    }
}

proof fn declarations_in_ascend<'a>(
    found: Seq<(DeclarationId, &'a HirDeclaration)>,
    instructions: Seq<CfgInstruction>,
    n: int,
)
    requires
        order::ascending(found),
    ensures
        order::ascending(await_plan::declarations_in(found, instructions, n)),
    decreases n,
{
    if n > 0 {
        declarations_in_ascend(found, instructions, n - 1);
        let before = await_plan::declarations_in(found, instructions, n - 1);
        if let CfgInstruction::Declaration(declaration) = &instructions[n - 1] {
            order::put_ascending(before, declaration.id, declaration, declaration.id);
        }
    }
}

proof fn task_declarations_ascend(blocks: Seq<BasicBlock>, n: int)
    ensures
        order::ascending(await_plan::task_declarations(blocks, n)),
    decreases n,
{
    if n > 0 {
        task_declarations_ascend(blocks, n - 1);
        declarations_in_ascend(
            await_plan::task_declarations(blocks, n - 1),
            blocks[n - 1].instructions@,
            blocks[n - 1].instructions@.len() as int,
        );
    }
}

/// Two suspensions poll the same child only if both await declared tasks.
pub proof fn direct_awaits_own_their_children(function: CfgFunction, i: int, j: int)
    requires
        await_plan::plannable(function),
        0 <= i < await_plan::planned_suspensions(function.blocks@).len(),
        0 <= j < await_plan::planned_suspensions(function.blocks@).len(),
        i != j,
        awaited_task(await_plan::planned_suspensions(function.blocks@)[i]) is None,
    ensures
        await_plan::await_plan_of(function).edges[i].instance
            != await_plan::await_plan_of(function).edges[j].instance,
{
    plan_of_function(function);
    let plan = await_plan::await_plan_of(function);
    let a = plan.edges[i].instance;
    let b = plan.edges[j].instance;
}

/// Children stand at their identities. None has storage before storage is
/// planned, each needs to be activated, and a dynamic target refers to a value
/// that the plan keeps.
pub proof fn planned_children_are_fresh(function: CfgFunction)
    requires
        await_plan::plannable(function),
    ensures
        children_fresh(await_plan::await_plan_of(function)),
{
    plan_of_function(function);
}

} // verus!
