//! What is listed by key stands in ascending order of its keys, so no key is
//! listed twice.

use vstd::prelude::*;

use crate::await_plan::AwaitEdge;
use crate::built_emission_laws;
use crate::c_declaration_env::EnvironmentView;
use crate::c_emitter;
use crate::c_layout_laws;
use crate::c_layout_order;
use crate::c_static_plan;
use crate::c_static_plan::{ChildPlanView, CStaticAwaitPlan, FunctionPlanView};
use crate::config::{OptimizationLevel, TargetConfig};
use crate::context_layout;
use crate::context_layout::{
    Building, ContextLayoutPlan, LayoutView, LogicalFieldId, MemberView, PhysicalSlotId,
    PlacementView, SlotView,
};
use crate::context_soundness;
use crate::identity_layout;
use crate::identity_layout::FieldView;
use crate::layout_knowledge;
use crate::layout_passes;
use crate::liveness::{LivenessFunction, LivenessUnit};
use crate::order;
use crate::size_layout;
use crate::slot_liveness::{SlotLivenessFunction, SlotLivenessUnit};
use crate::slot_merging;
use crate::slot_sharing::NodeView;
use crate::speed_layout;
use crate::speed_layout::{CandidateView, Merging};
use crate::symbol_index::{AsyncSymbolIndex, FunctionId};
use crate::target_layout;
use crate::target_layout::{TargetLayoutModel, TypeLayout};

verus! {

proof fn polled_children_ascend(edges: Seq<AwaitEdge>, n: int)
    ensures
        order::ascending(c_static_plan::polled_children(edges, n)),
    decreases n,
{
    if n > 0 {
        polled_children_ascend(edges, n - 1);
        order::put_ascending(
            c_static_plan::polled_children(edges, n - 1),
            edges[n - 1].id,
            edges[n - 1].instance,
            edges[n - 1].id,
        );
    }
}

proof fn required_prototypes_ascend(
    children: Seq<(crate::await_plan::ChildInstanceId, ChildPlanView)>,
    symbols: AsyncSymbolIndex,
    unit: Seq<char>,
    env: EnvironmentView,
    start: usize,
    n: int,
)
    ensures
        order::keys_ascending(
            c_static_plan::required_prototypes(children, symbols, unit, env, start, n),
        ),
    decreases n,
{
    if n > 0 {
        required_prototypes_ascend(children, symbols, unit, env, start, n - 1);
        let before = c_static_plan::required_prototypes(
            children,
            symbols,
            unit,
            env,
            start,
            n - 1,
        );
        if let Some(Ok(function)) = c_static_plan::prototype_need(
            children[n - 1].1,
            symbols,
            unit,
            env,
            start,
        ) {
            order::with_key_ascending(before, function, 0);
        }
    }
}

/// Whether functions, their children and their edges stand in ascending order.
spec fn plans_ascend(functions: Seq<(FunctionId, FunctionPlanView)>) -> bool {
    &&& c_layout_order::plans_ordered(functions)
    &&& forall|i: int|
        0 <= i < functions.len() ==> order::ascending((#[trigger] functions[i]).1.edge_children)
}

/// Whether no two asynchronous functions start at one place.
pub open spec fn async_starts_distinct(functions: Seq<LivenessFunction>) -> bool {
    forall|i: int, j: int|
        0 <= i < j < functions.len() && functions[i].coroutine.cfg.is_async
            && functions[j].coroutine.cfg.is_async
            ==> #[trigger] context_soundness::start_of(functions, i)
            != #[trigger] context_soundness::start_of(functions, j)
}

/// Whether the plans stand where some of the first `n` functions start, and no
/// two at one place.
spec fn plans_stand(
    plans: Seq<(FunctionId, FunctionPlanView)>,
    functions: Seq<LivenessFunction>,
    n: int,
) -> bool {
    &&& forall|k: int|
        0 <= k < plans.len() ==> exists|i: int|
            0 <= i < n && functions[i].coroutine.cfg.is_async
                && #[trigger] context_soundness::start_of(functions, i) == (
            #[trigger] plans[k]).1.source_start
    &&& forall|k: int, l: int|
        0 <= k < l < plans.len() ==> (#[trigger] plans[k]).1.source_start != (
        #[trigger] plans[l]).1.source_start
}

proof fn function_plans_ascend(
    functions: Seq<LivenessFunction>,
    symbols: AsyncSymbolIndex,
    unit: Seq<char>,
    n: int,
)
    requires
        0 <= n <= functions.len() <= usize::MAX,
    ensures
        plans_ascend(c_static_plan::function_plans(functions, symbols, unit, n)),
        async_starts_distinct(functions) ==> plans_stand(
            c_static_plan::function_plans(functions, symbols, unit, n),
            functions,
            n,
        ),
    decreases n,
{
    c_static_plan::plans_ascending(functions, symbols, unit, n);
    if n > 0 {
        function_plans_ascend(functions, symbols, unit, n - 1);
        let before = c_static_plan::function_plans(functions, symbols, unit, n - 1);
        let after = c_static_plan::function_plans(functions, symbols, unit, n);
        let function = functions[n - 1];
        let edges = function.coroutine.await_plan.edges@;
        polled_children_ascend(edges, edges.len() as int);
        if let Some(caller) = c_static_plan::identity_of(function, symbols, unit) {
            if function.coroutine.cfg.is_async {
                order::key_point_bounds(before, caller, 0);
                let p = order::key_point(before, caller, 0);
                let shift = after.len() - before.len();
                assert forall|k: int| 0 <= k < after.len() && k != p implies #[trigger] after[k]
                    == before[if k < p {
                    k
                } else {
                    k - shift
                }] by {}
                assert(after[p].1.source_start == context_soundness::start_of(functions, n - 1));
                if async_starts_distinct(functions) {
                    plan_put_stands(before, after, functions, n, p, shift);
                }
            }
        }
        if after == before && async_starts_distinct(functions) {
            assert forall|k: int| 0 <= k < after.len() implies exists|i: int|
                0 <= i < n && functions[i].coroutine.cfg.is_async
                && #[trigger] context_soundness::start_of(functions, i) == (
                #[trigger] after[k]).1.source_start by {
                let i = choose|i: int|
                    0 <= i < n - 1 && functions[i].coroutine.cfg.is_async
                        && #[trigger] context_soundness::start_of(functions, i)
                        == before[k].1.source_start;
                assert(context_soundness::start_of(functions, i) == after[k].1.source_start);
            }
        }
    }
}

proof fn plan_put_stands(
    before: Seq<(FunctionId, FunctionPlanView)>,
    after: Seq<(FunctionId, FunctionPlanView)>,
    functions: Seq<LivenessFunction>,
    n: int,
    p: int,
    shift: int,
)
    requires
        0 < n <= functions.len(),
        functions[n - 1].coroutine.cfg.is_async,
        async_starts_distinct(functions),
        plans_stand(before, functions, n - 1),
        0 <= shift <= 1,
        after.len() == before.len() + shift,
        0 <= p < after.len(),
        forall|k: int|
            0 <= k < after.len() && k != p ==> #[trigger] after[k] == before[if k < p {
                k
            } else {
                k - shift
            }],
        after[p].1.source_start == context_soundness::start_of(functions, n - 1),
    ensures
        plans_stand(after, functions, n),
{
    assert forall|k: int| 0 <= k < after.len() implies exists|i: int|
        0 <= i < n && functions[i].coroutine.cfg.is_async
                && #[trigger] context_soundness::start_of(functions, i) == (
        #[trigger] after[k]).1.source_start && (k != p ==> i < n - 1) by {
        if k == p {
            assert(context_soundness::start_of(functions, n - 1) == after[k].1.source_start);
        } else {
            let o = if k < p {
                k
            } else {
                k - shift
            };
            assert(after[k] == before[o]);
            let i = choose|i: int|
                0 <= i < n - 1 && functions[i].coroutine.cfg.is_async
                        && #[trigger] context_soundness::start_of(functions, i)
                    == before[o].1.source_start;
            assert(context_soundness::start_of(functions, i) == after[k].1.source_start);
        }
    }
    assert forall|k: int, l: int| 0 <= k < l < after.len() implies (
    #[trigger] after[k]).1.source_start != (#[trigger] after[l]).1.source_start by {
        if k == p || l == p {
            let other = if k == p {
                l
            } else {
                k
            };
            let i = choose|i: int|
                0 <= i < n && functions[i].coroutine.cfg.is_async
                    && #[trigger] context_soundness::start_of(functions, i)
                    == after[other].1.source_start && (other != p ==> i < n - 1);
            assert(context_soundness::start_of(functions, i) != context_soundness::start_of(
                functions,
                n - 1,
            ));
        } else {
            let a = if k < p {
                k
            } else {
                k - shift
            };
            let b = if l < p {
                l
            } else {
                l - shift
            };
            assert(after[k] == before[a] && after[l] == before[b]);
            assert(a < b);
        }
    }
}

/// The functions of a unit's plan, their children, edges and prototypes stand in
/// ascending order of their keys. No two functions of the plan start at one place
/// if no two asynchronous functions of the unit do.
pub proof fn built_plans_are_ordered(
    plan: CStaticAwaitPlan,
    unit: LivenessUnit,
    project_path: Seq<char>,
    symbols: AsyncSymbolIndex,
    env: EnvironmentView,
)
    requires
        c_static_plan::plan_settled(plan, unit, project_path, symbols, env),
    ensures
        plan.ordered(),
        async_starts_distinct(unit.functions@) ==> built_emission_laws::plans_apart(
            Some(&plan),
        ),
{
    let functions = unit.functions@;
    let n = functions.len() as int;
    assert(n == unit.functions.len());
    let plans = c_static_plan::function_plans(functions, symbols, project_path, n);
    function_plans_ascend(functions, symbols, project_path, n);
    let unsettled = c_static_plan::unsettled_plans(unit, project_path, symbols, env);
    let positions = c_static_plan::function_positions(functions, symbols, project_path, n);
    let start = c_layout_order::initial_state(unsettled);
    let end = choose|end: c_layout_order::LayoutState|
        {
            &&& #[trigger] c_layout_order::settles_at(start, end, functions, positions, env)
            &&& order::entry_views(plan.functions@) == end.functions
        };
    c_layout_laws::settling_only_boxes_embedded_children(start, end, functions, positions, env);
    let views = order::entry_views(plan.functions@);
    assert(c_layout_laws::plans_kept(unsettled, views));
    assert forall|i: int, j: int| 0 <= i < j < plan.functions@.len() implies order::Key::rank_spec(
        &(#[trigger] plan.functions@[i]).0,
    ) < order::Key::rank_spec(&(#[trigger] plan.functions@[j]).0) by {
        assert(views[i].0 == unsettled[i].0 && views[j].0 == unsettled[j].0);
        assert(unsettled[i].0 == plans[i].0 && unsettled[j].0 == plans[j].0);
    }
    assert forall|i: int| 0 <= i < plan.functions@.len() implies {
        let own = (#[trigger] plan.functions@[i]).1;
        &&& order::ascending(own.children@)
        &&& order::ascending(own.edge_children@)
        &&& order::keys_ascending(own.required_prototypes@)
    } by {
        let own = plan.functions@[i].1;
        assert(views[i].1 == own@);
        assert(views[i].0 == unsettled[i].0);
        assert(order::ascending(plans[i].1.children));
        assert(order::ascending(plans[i].1.edge_children));
        required_prototypes_ascend(
            plans[i].1.children,
            symbols,
            project_path,
            env,
            plans[i].1.source_start,
            plans[i].1.children.len() as int,
        );
        let children = own@.children;
        let before = unsettled[i].1.children;
        assert(c_layout_laws::children_kept(before, children));
        assert forall|c: int, d: int| 0 <= c < d < own.children@.len() implies order::Key::rank_spec(
            &(#[trigger] own.children@[c]).0,
        ) < order::Key::rank_spec(&(#[trigger] own.children@[d]).0) by {
            assert(children[c].0 == before[c].0 && children[d].0 == before[d].0);
            assert(plans[i].1.children[c].0 == before[c].0);
            assert(plans[i].1.children[d].0 == before[d].0);
        }
    }
    if async_starts_distinct(functions) {
        let listed = c_emitter::planned_functions(Some(&plan));
        assert forall|i: int, j: int| 0 <= i < j < listed.len() implies (
        #[trigger] listed[i]).1.source_start != (#[trigger] listed[j]).1.source_start by {
            assert(views[i].0 == unsettled[i].0 && views[j].0 == unsettled[j].0);
            assert(plans[i].1.source_start != plans[j].1.source_start);
        }
    }
}

proof fn direct_ascends(building: Building, member: MemberView)
    requires
        order::ascending(building.fields),
    ensures
        order::ascending(context_layout::with_direct(building, member).fields),
{
    let slot = PhysicalSlotId(building.slots.len() as u32);
    order::put_ascending(
        building.fields,
        member.logical,
        PlacementView {
            slot,
            member: context_layout::UnionMemberId(0),
            access_path: context_layout::PathView::Direct { field: member.c_name },
        },
        member.logical,
    );
}

proof fn union_ascends(
    fields: Seq<(LogicalFieldId, PlacementView)>,
    slot: PhysicalSlotId,
    name: Seq<char>,
    members: Seq<MemberView>,
    n: int,
)
    requires
        order::ascending(fields),
    ensures
        order::ascending(context_layout::union_placements(fields, slot, name, members, n)),
    decreases n,
{
    if n > 0 {
        union_ascends(fields, slot, name, members, n - 1);
        order::put_ascending(
            context_layout::union_placements(fields, slot, name, members, n - 1),
            members[n - 1].logical,
            PlacementView {
                slot,
                member: context_layout::UnionMemberId((n - 1) as u32),
                access_path: context_layout::PathView::UnionMember {
                    slot: name,
                    member: members[n - 1].c_name,
                },
            },
            members[n - 1].logical,
        );
    }
}

proof fn lone_fields_ascend(fields: Seq<FieldView>, n: int)
    ensures
        order::ascending(identity_layout::placed_directly(fields, n).fields),
    decreases n,
{
    if n > 0 {
        lone_fields_ascend(fields, n - 1);
        direct_ascends(
            identity_layout::placed_directly(fields, n - 1),
            identity_layout::member_of(fields[n - 1]),
        );
    }
}

proof fn merged_fields_ascend(
    fields: Seq<(LogicalFieldId, PlacementView)>,
    slots: Seq<SlotView>,
    nodes: Seq<NodeView>,
    colors: Seq<usize>,
    n: int,
)
    requires
        order::ascending(fields),
    ensures
        order::ascending(
            slot_merging::rebuild_slots(fields, slots, nodes, colors, n).building.fields,
        ),
    decreases n,
{
    if n > 0 {
        merged_fields_ascend(fields, slots, nodes, colors, n - 1);
        let before = slot_merging::rebuild_slots(fields, slots, nodes, colors, n - 1);
        let slot = PhysicalSlotId(before.building.slots.len() as u32);
        let name = identity_layout::slot_name("cr_slot_"@, before.unions as u32);
        let members = match slot_merging::node_at(nodes, n - 1, 0) {
            Some(k) => slot_merging::color_members(
                slots,
                nodes,
                colors,
                colors[k],
                nodes.len() as int,
            ),
            None => slots[n - 1].members,
        };
        union_ascends(before.building.fields, slot, name, members, members.len() as int);
        direct_ascends(before.building, members[0]);
    }
}

proof fn shared_fields_ascend(
    start: Merging,
    slots: Seq<SlotView>,
    candidates: Seq<CandidateView>,
    groups: Seq<Seq<usize>>,
    n: int,
)
    requires
        order::ascending(start.building.fields),
    ensures
        order::ascending(
            speed_layout::merge_slots(start, slots, candidates, groups, n).building.fields,
        ),
    decreases n,
{
    if n > 0 {
        shared_fields_ascend(start, slots, candidates, groups, n - 1);
        let before = speed_layout::merge_slots(start, slots, candidates, groups, n - 1);
        let member = slots[n - 1].members[0];
        match speed_layout::group_with(candidates, groups, member.logical, 0) {
            None => {
                direct_ascends(before.building, member);
            },
            Some(g) => {
                let members = speed_layout::group_members(candidates, groups[g]);
                union_ascends(
                    before.building.fields,
                    PhysicalSlotId(before.building.slots.len() as u32),
                    identity_layout::slot_name("cr_slot_"@, before.emitted.len() as u32),
                    members,
                    members.len() as int,
                );
            },
        }
    }
}

proof fn speed_fields_ascend(
    layout: LayoutView,
    plan: Option<FunctionPlanView>,
    lifetimes: SlotLivenessFunction,
)
    requires
        order::ascending(layout.fields),
    ensures
        order::ascending(speed_layout::speed_layout(layout, plan, lifetimes).fields),
{
    let n = layout.slots.len() as int;
    shared_fields_ascend(
        Merging {
            building: Building { slots: Seq::empty(), fields: layout.fields },
            decisions: layout.decisions,
            emitted: Seq::empty(),
        },
        layout.slots,
        speed_layout::candidates_of(layout.slots, plan, lifetimes, n),
        speed_layout::speed_groups(layout, plan, lifetimes),
        n,
    );
}

proof fn sized_fields_ascend(
    layout: LayoutView,
    speed: LayoutView,
    function: LivenessFunction,
    plan: Option<FunctionPlanView>,
    lifetimes: Option<SlotLivenessFunction>,
    aggressive: bool,
    model: TargetLayoutModel,
    generated: Seq<(Seq<char>, TypeLayout)>,
)
    requires
        order::ascending(layout.fields),
        order::ascending(speed.fields),
    ensures
        order::ascending(
            size_layout::sized_layout(
                layout,
                speed,
                function,
                plan,
                lifetimes,
                aggressive,
                model,
                generated,
            ).fields,
        ),
{
    let n = speed.slots.len() as int;
    assert forall|nodes: Seq<NodeView>, colors: Seq<usize>|
        order::ascending(
            #[trigger] size_layout::merged_candidate(speed, function, nodes, colors).fields,
        ) by {
        merged_fields_ascend(speed.fields, speed.slots, nodes, colors, n);
    }
}

/// Whether layouts, and the fields of each, stand in ascending order.
spec fn layouts_ascend(layouts: Seq<(usize, LayoutView)>) -> bool {
    order::ascending(layouts) && forall|k: int|
        0 <= k < layouts.len() ==> order::ascending((#[trigger] layouts[k]).1.fields)
}

proof fn put_ascends(layouts: Seq<(usize, LayoutView)>, start: usize, layout: LayoutView)
    requires
        layouts_ascend(layouts),
        order::ascending(layout.fields),
    ensures
        layouts_ascend(order::put(layouts, start, layout)),
{
    order::put_ascending(layouts, start, layout, start);
    order::key_point_bounds(layouts, start, 0);
    let p = order::key_point(layouts, start, 0);
    let after = order::put(layouts, start, layout);
    assert forall|k: int| 0 <= k < after.len() implies order::ascending(
        (#[trigger] after[k]).1.fields,
    ) by {
        if k != p {
            if order::lookup(layouts, start) is Some || k < p {
                assert(after[k] == layouts[k]);
            } else {
                assert(after[k] == layouts[k - 1]);
            }
        }
    }
}

proof fn lookup_ascends(layouts: Seq<(usize, LayoutView)>, start: usize)
    requires
        layouts_ascend(layouts),
    ensures
        match order::lookup(layouts, start) {
            Some(layout) => order::ascending(layout.fields),
            None => true,
        },
{
    order::key_point_bounds(layouts, start, 0);
    let p = order::key_point(layouts, start, 0);
    if p < layouts.len() {
        assert(order::ascending(layouts[p].1.fields));
    }
}

proof fn identity_ascends(
    functions: Seq<LivenessFunction>,
    plan: Option<&CStaticAwaitPlan>,
    slot_liveness: SlotLivenessUnit,
    n: int,
)
    ensures
        layouts_ascend(identity_layout::identity_layouts(functions, plan, slot_liveness, n)),
    decreases n,
{
    if n > 0 {
        identity_ascends(functions, plan, slot_liveness, n - 1);
        let start = functions[n - 1].coroutine.cfg.span.start_byte;
        let own = identity_layout::planned_at(plan, start);
        let fields = identity_layout::context_fields(functions[n - 1], own);
        lone_fields_ascend(fields, fields.len() as int);
        put_ascends(
            identity_layout::identity_layouts(functions, plan, slot_liveness, n - 1),
            start,
            identity_layout::identity_layout(functions[n - 1], own),
        );
    }
}

proof fn speed_ascends(
    layouts: Seq<(usize, LayoutView)>,
    functions: Seq<LivenessFunction>,
    plan: Option<&CStaticAwaitPlan>,
    slot_liveness: SlotLivenessUnit,
    n: int,
)
    requires
        layouts_ascend(layouts),
    ensures
        layouts_ascend(
            layout_passes::speed_layouts(layouts, functions, plan, slot_liveness, n),
        ),
    decreases n,
{
    if n > 0 {
        speed_ascends(layouts, functions, plan, slot_liveness, n - 1);
        let before = layout_passes::speed_layouts(layouts, functions, plan, slot_liveness, n - 1);
        let start = functions[n - 1].coroutine.cfg.span.start_byte;
        lookup_ascends(before, start);
        if let (Some(layout), Some(lifetimes)) = (
            order::lookup(before, start),
            identity_layout::lifetimes_of(slot_liveness.functions@, n - 1, 0),
        ) {
            let own = identity_layout::planned_at(plan, start);
            speed_fields_ascend(layout, own, lifetimes);
            put_ascends(before, start, speed_layout::speed_layout(layout, own, lifetimes));
        }
    }
}

proof fn sized_ascends(
    layouts: Seq<(usize, LayoutView)>,
    functions: Seq<LivenessFunction>,
    plan: Option<&CStaticAwaitPlan>,
    slot_liveness: SlotLivenessUnit,
    aggressive: bool,
    model: TargetLayoutModel,
    n: int,
)
    requires
        layouts_ascend(layouts),
    ensures
        layouts_ascend(
            layout_passes::sized_layouts(
                layouts,
                functions,
                plan,
                slot_liveness,
                aggressive,
                model,
                n,
            ),
        ),
    decreases n,
{
    if n > 0 {
        sized_ascends(layouts, functions, plan, slot_liveness, aggressive, model, n - 1);
        let before = layout_passes::sized_layouts(
            layouts,
            functions,
            plan,
            slot_liveness,
            aggressive,
            model,
            n - 1,
        );
        let start = functions[n - 1].coroutine.cfg.span.start_byte;
        lookup_ascends(before, start);
        lookup_ascends(layouts, start);
        if let (Some(layout), Some(speed)) = (
            order::lookup(before, start),
            order::lookup(layouts, start),
        ) {
            let own = identity_layout::planned_at(plan, start);
            let lifetimes = identity_layout::lifetimes_of(slot_liveness.functions@, n - 1, 0);
            let generated = size_layout::exact_types(layouts, layouts.len() as int);
            sized_fields_ascend(
                layout,
                speed,
                functions[n - 1],
                own,
                lifetimes,
                aggressive,
                model,
                generated,
            );
            put_ascends(
                before,
                start,
                size_layout::sized_layout(
                    layout,
                    speed,
                    functions[n - 1],
                    own,
                    lifetimes,
                    aggressive,
                    model,
                    generated,
                ),
            );
        }
    }
}

proof fn same_fields_ascend(
    before: Seq<(usize, LayoutView)>,
    after: Seq<(usize, LayoutView)>,
)
    requires
        layouts_ascend(before),
        after.len() == before.len(),
        forall|k: int|
            0 <= k < before.len() ==> (#[trigger] after[k]).0 == before[k].0 && after[k].1.fields
                == before[k].1.fields,
    ensures
        layouts_ascend(after),
{
    assert forall|i: int, j: int| 0 <= i < j < after.len() implies order::Key::rank_spec(
        &(#[trigger] after[i]).0,
    ) < order::Key::rank_spec(&(#[trigger] after[j]).0) by {
        assert(before[i].0 == after[i].0 && before[j].0 == after[j].0);
    }
}

proof fn known_ascends(
    layouts: Seq<(usize, LayoutView)>,
    target: TargetConfig,
    packing_barrier: bool,
)
    requires
        layouts_ascend(layouts),
    ensures
        layouts_ascend(layout_knowledge::known_layouts(layouts, target, packing_barrier)),
{
    layout_knowledge::knowledge_keeps_layouts(layouts, target, packing_barrier);
    same_fields_ascend(
        layouts,
        layout_knowledge::known_layouts(layouts, target, packing_barrier),
    );
}

/// At every level of optimization, the contexts of a unit stand in ascending order
/// of where their functions start, and the fields of each in ascending order.
pub proof fn built_layouts_are_ordered(
    layouts: ContextLayoutPlan,
    functions: Seq<LivenessFunction>,
    plan: Option<&CStaticAwaitPlan>,
    slot_liveness: SlotLivenessUnit,
    optimization: OptimizationLevel,
    target: TargetConfig,
    packing_barrier: bool,
)
    requires
        order::entry_views(layouts.functions@) == layout_passes::context_layouts(
            functions,
            plan,
            slot_liveness,
            optimization,
            target,
            packing_barrier,
        ),
    ensures
        layouts.ordered(),
{
    let n = functions.len() as int;
    let identity = identity_layout::identity_layouts(functions, plan, slot_liveness, n);
    identity_ascends(functions, plan, slot_liveness, n);
    speed_ascends(identity, functions, plan, slot_liveness, n);
    let speed = if optimization == OptimizationLevel::Off {
        identity
    } else {
        layout_passes::speed_layouts(identity, functions, plan, slot_liveness, n)
    };
    known_ascends(speed, target, packing_barrier);
    let known = layout_knowledge::known_layouts(speed, target, packing_barrier);
    let aggressive = optimization == OptimizationLevel::Aggressive;
    let sized = layout_passes::size_layouts(
        known,
        functions,
        plan,
        slot_liveness,
        aggressive,
        target,
        packing_barrier,
    );
    if packing_barrier || target_layout::model_of(target) is None {
        same_fields_ascend(known, sized);
    } else {
        sized_ascends(
            known,
            functions,
            plan,
            slot_liveness,
            aggressive,
            target_layout::model_of(target)->0,
            n,
        );
    }
    known_ascends(sized, target, packing_barrier);
    let views = order::entry_views(layouts.functions@);
    assert(layouts_ascend(views));
    assert forall|i: int, j: int| 0 <= i < j < layouts.functions@.len() implies
        order::Key::rank_spec(&(#[trigger] layouts.functions@[i]).0) < order::Key::rank_spec(
        &(#[trigger] layouts.functions@[j]).0,
    ) by {
        assert(views[i].0 == layouts.functions@[i].0 && views[j].0 == layouts.functions@[j].0);
    }
    assert forall|k: int| 0 <= k < layouts.functions@.len() implies order::ascending(
        (#[trigger] layouts.functions@[k]).1.fields@,
    ) by {
        let fields = layouts.functions@[k].1.fields@;
        assert(views[k].1 == layouts.functions@[k].1@);
        assert(order::ascending(views[k].1.fields));
        assert forall|i: int, j: int| 0 <= i < j < fields.len() implies order::Key::rank_spec(
            &(#[trigger] fields[i]).0,
        ) < order::Key::rank_spec(&(#[trigger] fields[j]).0) by {
            assert(views[k].1.fields[i].0 == fields[i].0 && views[k].1.fields[j].0 == fields[j].0);
        }
    }
}

} // verus!
