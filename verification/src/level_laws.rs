//! Every level of optimization keeps the fields and the members of a context,
//! and accepts no change that makes it larger.

use vstd::prelude::*;

use crate::await_laws;
use crate::c_static_plan::{CStaticAwaitPlan, FunctionPlanView};
use crate::config::{OptimizationLevel, TargetConfig};
use crate::context_layout;
use crate::context_layout::{
    AggressiveDecisionView, Building, LayoutView, LogicalFieldId, MemberView, PlacementView,
    SizeDecisionView, SlotView,
};
use crate::context_soundness;
use crate::identity_layout;
use crate::layout_knowledge;
use crate::layout_passes;
use crate::layout_soundness;
use crate::liveness::LivenessFunction;
use crate::order;
use crate::order::Key;
use crate::placement;
use crate::size_laws;
use crate::size_layout;
use crate::slot_liveness::{SlotLivenessFunction, SlotLivenessUnit};
use crate::slot_merging;
use crate::slot_sharing;
use crate::slot_sharing::NodeView;
use crate::speed_layout;
use crate::speed_layout::{CandidateView, Merging};
use crate::speed_soundness;
use crate::target_layout;
use crate::target_layout::{Known, TargetLayoutModel, TypeLayout};

verus! {

/// Whether two members are the same but for their numbers.
pub open spec fn same_member(a: MemberView, b: MemberView) -> bool {
    &&& a.logical == b.logical
    &&& a.c_type == b.c_type
    &&& a.c_name == b.c_name
    &&& a.c_declaration == b.c_declaration
}

/// Whether a slot has such a member.
pub open spec fn has_like(slots: Seq<SlotView>, member: MemberView) -> bool {
    exists|s: int, m: int| #[trigger]
        layout_soundness::has_member(slots, s, m) && same_member(slots[s].members[m], member)
}

/// Whether all members of some slots are members of others.
pub open spec fn members_from(slots: Seq<SlotView>, others: Seq<SlotView>) -> bool {
    forall|s: int, m: int| #[trigger]
        layout_soundness::has_member(slots, s, m) ==> has_like(others, slots[s].members[m])
}

/// Whether all listed members are members of some slots.
spec fn list_from(members: Seq<MemberView>, slots: Seq<SlotView>) -> bool {
    forall|m: int| 0 <= m < members.len() ==> has_like(slots, #[trigger] members[m])
}

proof fn own_members(slots: Seq<SlotView>)
    ensures
        members_from(slots, slots),
        forall|s: int| 0 <= s < slots.len() ==> list_from((#[trigger] slots[s]).members, slots),
{
    assert forall|s: int, m: int| #[trigger]
        layout_soundness::has_member(slots, s, m) implies has_like(
        slots,
        slots[s].members[m],
    ) by {}
    assert forall|s: int| 0 <= s < slots.len() implies list_from(
        (#[trigger] slots[s]).members,
        slots,
    ) by {
        assert forall|m: int| 0 <= m < slots[s].members.len() implies has_like(
            slots,
            #[trigger] slots[s].members[m],
        ) by {
            assert(layout_soundness::has_member(slots, s, m));
        }
    }
}

proof fn members_from_through(a: Seq<SlotView>, b: Seq<SlotView>, c: Seq<SlotView>)
    requires
        members_from(a, b),
        members_from(b, c),
    ensures
        members_from(a, c),
{
    assert forall|s: int, m: int| #[trigger]
        layout_soundness::has_member(a, s, m) implies has_like(c, a[s].members[m]) by {
        let (t, k) = choose|t: int, k: int| #[trigger]
            layout_soundness::has_member(b, t, k) && same_member(
                b[t].members[k],
                a[s].members[m],
            );
        assert(has_like(c, b[t].members[k]));
        let (u, l) = choose|u: int, l: int| #[trigger]
            layout_soundness::has_member(c, u, l) && same_member(
                c[u].members[l],
                b[t].members[k],
            );
        assert(layout_soundness::has_member(c, u, l));
    }
}

/// One more slot whose members come from old slots.
proof fn pushed_from(
    before: Seq<SlotView>,
    added: SlotView,
    members: Seq<MemberView>,
    slots: Seq<SlotView>,
)
    requires
        members_from(before, slots),
        list_from(members, slots),
        added.members.len() == members.len(),
        forall|m: int|
            0 <= m < members.len() ==> same_member(#[trigger] added.members[m], members[m]),
    ensures
        members_from(before.push(added), slots),
{
    let after = before.push(added);
    assert forall|s: int, m: int| #[trigger]
        layout_soundness::has_member(after, s, m) implies has_like(
        slots,
        after[s].members[m],
    ) by {
        if s < before.len() {
            assert(layout_soundness::has_member(before, s, m));
        } else {
            assert(has_like(slots, members[m]));
            let (t, k) = choose|t: int, k: int| #[trigger]
                layout_soundness::has_member(slots, t, k) && same_member(
                    slots[t].members[k],
                    members[m],
                );
            assert(same_member(added.members[m], members[m]));
            assert(layout_soundness::has_member(slots, t, k));
        }
    }
}

proof fn direct_from(building: Building, member: MemberView, slots: Seq<SlotView>)
    requires
        members_from(building.slots, slots),
        has_like(slots, member),
    ensures
        members_from(context_layout::with_direct(building, member).slots, slots),
{
    let after = context_layout::with_direct(building, member).slots;
    pushed_from(building.slots, after[building.slots.len() as int], seq![member], slots);
}

proof fn union_from(
    building: Building,
    members: Seq<MemberView>,
    name: Seq<char>,
    slots: Seq<SlotView>,
)
    requires
        members_from(building.slots, slots),
        list_from(members, slots),
    ensures
        members_from(context_layout::with_union(building, members, name).slots, slots),
{
    let after = context_layout::with_union(building, members, name).slots;
    pushed_from(building.slots, after[building.slots.len() as int], members, slots);
}

proof fn color_members_from(
    slots: Seq<SlotView>,
    nodes: Seq<NodeView>,
    colors: Seq<usize>,
    color: usize,
    n: int,
)
    requires
        0 <= n <= nodes.len(),
        slot_sharing::nodes_ok(nodes, slots.len() as int),
    ensures
        list_from(slot_merging::color_members(slots, nodes, colors, color, n), slots),
    decreases n,
{
    if n > 0 {
        color_members_from(slots, nodes, colors, color, n - 1);
        own_members(slots);
        let before = slot_merging::color_members(slots, nodes, colors, color, n - 1);
        let after = slot_merging::color_members(slots, nodes, colors, color, n);
        let own = slots[nodes[n - 1].original_slot as int].members;
        assert forall|m: int| 0 <= m < after.len() implies has_like(
            slots,
            #[trigger] after[m],
        ) by {
            if m < before.len() {
                assert(after[m] == before[m]);
            } else {
                assert(after[m] == own[m - before.len()]);
            }
        }
    }
}

/// Merging slots by color adds no members.
proof fn merged_members_from(
    fields: Seq<(LogicalFieldId, PlacementView)>,
    slots: Seq<SlotView>,
    nodes: Seq<NodeView>,
    colors: Seq<usize>,
    n: int,
)
    requires
        0 <= n <= slots.len(),
        slot_sharing::nodes_ok(nodes, slots.len() as int),
        layout_knowledge::slots_filled(slots),
    ensures
        members_from(
            slot_merging::rebuild_slots(fields, slots, nodes, colors, n).building.slots,
            slots,
        ),
    decreases n,
{
    if n > 0 {
        let i = n - 1;
        merged_members_from(fields, slots, nodes, colors, i);
        own_members(slots);
        let before = slot_merging::rebuild_slots(fields, slots, nodes, colors, i);
        let name = identity_layout::slot_name("cr_slot_"@, before.unions as u32);
        assert(slots[i].members.len() > 0);
        slot_merging::node_at_finds(nodes, i, 0);
        match slot_merging::node_at(nodes, i, 0) {
            Some(k) => {
                let size = nodes.len() as int;
                let members = slot_merging::color_members(slots, nodes, colors, colors[k], size);
                color_members_from(slots, nodes, colors, colors[k], size);
                slot_merging::color_members_filled(slots, nodes, colors, k, size);
                if placement::first_with(colors, colors[k], k) is None {
                    if members.len() > 1 {
                        union_from(before.building, members, name, slots);
                    } else {
                        direct_from(before.building, members[0], slots);
                    }
                }
            },
            None => {
                assert(list_from(slots[i].members, slots));
                union_from(before.building, slots[i].members, name, slots);
                direct_from(before.building, slots[i].members[0], slots);
            },
        }
    }
}

proof fn candidates_from(
    slots: Seq<SlotView>,
    plan: Option<FunctionPlanView>,
    lifetimes: SlotLivenessFunction,
    n: int,
)
    requires
        0 <= n <= slots.len(),
    ensures
        speed_layout::candidates_of(slots, plan, lifetimes, n).len() <= n,
        forall|c: int|
            0 <= c < speed_layout::candidates_of(slots, plan, lifetimes, n).len() ==> has_like(
                slots,
                (#[trigger] speed_layout::candidates_of(slots, plan, lifetimes, n)[c]).member,
            ),
    decreases n,
{
    if n > 0 {
        candidates_from(slots, plan, lifetimes, n - 1);
        own_members(slots);
        let before = speed_layout::candidates_of(slots, plan, lifetimes, n - 1);
        let after = speed_layout::candidates_of(slots, plan, lifetimes, n);
        assert(list_from(slots[n - 1].members, slots));
        assert forall|c: int| 0 <= c < after.len() implies has_like(
            slots,
            (#[trigger] after[c]).member,
        ) by {
            if c < before.len() {
                assert(after[c] == before[c]);
            } else {
                assert(after[c].member == slots[n - 1].members[0]);
            }
        }
    }
}

/// Merging slots by type adds no members.
proof fn shared_members_from(
    start: Merging,
    slots: Seq<SlotView>,
    candidates: Seq<CandidateView>,
    groups: Seq<Seq<usize>>,
    n: int,
)
    requires
        0 <= n <= slots.len(),
        layout_knowledge::slots_filled(slots),
        start.building.slots.len() == 0,
        forall|c: int|
            0 <= c < candidates.len() ==> has_like(slots, (#[trigger] candidates[c]).member),
        speed_layout::groups_list(groups, candidates.len() as int),
    ensures
        members_from(
            speed_layout::merge_slots(start, slots, candidates, groups, n).building.slots,
            slots,
        ),
    decreases n,
{
    if n > 0 {
        shared_members_from(start, slots, candidates, groups, n - 1);
        own_members(slots);
        let before = speed_layout::merge_slots(start, slots, candidates, groups, n - 1);
        let member = slots[n - 1].members[0];
        assert(list_from(slots[n - 1].members, slots));
        assert(has_like(slots, member));
        layout_passes::group_with_finds(candidates, groups, member.logical, 0);
        match speed_layout::group_with(candidates, groups, member.logical, 0) {
            None => {
                direct_from(before.building, member, slots);
            },
            Some(g) => {
                let members = speed_layout::group_members(candidates, groups[g]);
                assert forall|m: int| 0 <= m < members.len() implies has_like(
                    slots,
                    #[trigger] members[m],
                ) by {
                    assert(groups[g][m] < candidates.len());
                    assert(members[m] == candidates[groups[g][m] as int].member);
                }
                union_from(
                    before.building,
                    members,
                    identity_layout::slot_name("cr_slot_"@, before.emitted.len() as u32),
                    slots,
                );
            },
        }
    }
}

proof fn speed_members_from(
    layout: LayoutView,
    plan: Option<FunctionPlanView>,
    lifetimes: SlotLivenessFunction,
)
    requires
        layout_knowledge::slots_filled(layout.slots),
        layout.slots.len() <= usize::MAX,
    ensures
        members_from(speed_layout::speed_layout(layout, plan, lifetimes).slots, layout.slots),
{
    let slots = layout.slots;
    let n = slots.len() as int;
    let candidates = speed_layout::candidates_of(slots, plan, lifetimes, n);
    let all = speed_layout::groups_of(candidates, lifetimes, candidates.len() as int);
    let groups = speed_layout::speed_groups(layout, plan, lifetimes);
    own_members(slots);
    candidates_from(slots, plan, lifetimes, n);
    speed_soundness::all_groups_ok(candidates, lifetimes, candidates.len() as int);
    speed_soundness::shared_groups_ok(
        candidates,
        lifetimes,
        all,
        candidates.len() as int,
        all.len() as int,
    );
    assert(speed_layout::groups_list(groups, candidates.len() as int)) by {
        assert forall|g: int, k: int|
            #![trigger groups[g][k]]
            0 <= g < groups.len() && 0 <= k < groups[g].len() implies groups[g][k]
            < candidates.len() by {
            assert(speed_soundness::group_ok(
                candidates,
                lifetimes,
                groups[g],
                candidates.len() as int,
            ));
        }
    }
    if groups.len() > 0 {
        shared_members_from(
            Merging {
                building: Building { slots: Seq::empty(), fields: layout.fields },
                decisions: layout.decisions,
                emitted: Seq::empty(),
            },
            slots,
            candidates,
            groups,
            n,
        );
    }
}

/// Whether a layout records no change that made its context larger.
pub open spec fn decisions_shrink(layout: LayoutView) -> bool {
    &&& match layout.size_decision {
        SizeDecisionView::Accepted { speed_size, size_size } => size_size <= speed_size,
        _ => true,
    }
    &&& match layout.aggressive_decision {
        AggressiveDecisionView::Accepted { size_size, aggressive_size, explored_nodes } =>
            aggressive_size <= size_size,
        _ => true,
    }
}

/// Whether two layouts are for one function, and its awaits give the same types.
pub open spec fn same_function(layout: LayoutView, other: LayoutView) -> bool {
    &&& layout.source_start == other.source_start
    &&& layout.function_name == other.function_name
    &&& layout.task_type == other.task_type
    &&& layout.await_result_types == other.await_result_types
}

/// Whether a layout has only members of another one for the same function, and
/// records no change that made its context larger.
spec fn derived(layout: LayoutView, lone: LayoutView) -> bool {
    &&& same_function(layout, lone)
    &&& members_from(layout.slots, lone.slots)
    &&& decisions_shrink(layout)
}

proof fn sized_derived(
    speed: LayoutView,
    lone: LayoutView,
    plan: Option<FunctionPlanView>,
    function: LivenessFunction,
    lifetimes: Option<SlotLivenessFunction>,
    aggressive: bool,
    model: TargetLayoutModel,
    generated: Seq<(Seq<char>, TypeLayout)>,
)
    requires
        derived(speed, lone),
        layout_knowledge::slots_filled(speed.slots),
        speed.slots.len() < u32::MAX,
    ensures
        derived(
            size_layout::sized_layout(
                speed,
                speed,
                function,
                plan,
                lifetimes,
                aggressive,
                model,
                generated,
            ),
            lone,
        ),
{
    if let (Known::Exact(known), Some(own)) = (speed.layout_knowledge, lifetimes) {
        let n = speed.slots.len() as int;
        let nodes = slot_sharing::nodes_of(speed.slots, plan, function, model, generated, n);
        slot_sharing::nodes_of_ok(speed.slots, plan, function, model, generated, n);
        let graph = slot_sharing::graph_of(speed.slots, nodes, function, own);
        let colors = placement::greedy_colors(graph, graph.weights.len() as int);
        let candidate = size_layout::merged_candidate(speed, function, nodes, colors);
        merged_members_from(speed.fields, speed.slots, nodes, colors, n);
        members_from_through(candidate.slots, speed.slots, lone.slots);
        if nodes.len() >= 2 {
            if let Known::Exact(merged) = layout_knowledge::context_layout_of(
                model,
                candidate.slots,
                generated,
            ) {
                let sized = size_layout::size_outcome(
                    size_layout::with_exclusions(speed, function),
                    speed,
                    function,
                    nodes,
                    graph,
                    false,
                    model,
                    generated,
                    known.size,
                );
                assert(derived(sized, lone));
                size_laws::aggressive_pass_never_grows(
                    sized,
                    speed,
                    plan,
                    function,
                    own,
                    colors,
                    model,
                    generated,
                );
                aggressive_derived(
                    sized,
                    speed,
                    lone,
                    function,
                    nodes,
                    graph,
                    colors,
                    model,
                    generated,
                );
            }
        }
    }
}

proof fn aggressive_derived(
    size: LayoutView,
    speed: LayoutView,
    lone: LayoutView,
    function: LivenessFunction,
    nodes: Seq<NodeView>,
    graph: crate::placement::GraphView,
    size_colors: Seq<usize>,
    model: TargetLayoutModel,
    generated: Seq<(Seq<char>, TypeLayout)>,
)
    requires
        derived(size, lone),
        derived(speed, lone),
        layout_knowledge::slots_filled(speed.slots),
        slot_sharing::nodes_ok(nodes, speed.slots.len() as int),
        size_laws::no_larger(
            size_layout::aggressive_layout(
                size,
                speed,
                function,
                nodes,
                graph,
                size_colors,
                model,
                generated,
            ),
            size,
        ),
    ensures
        derived(
            size_layout::aggressive_layout(
                size,
                speed,
                function,
                nodes,
                graph,
                size_colors,
                model,
                generated,
            ),
            lone,
        ),
{
    let n = speed.slots.len() as int;
    if let Known::Exact(known) = size.layout_knowledge {
        if let Known::Exact(bounds) = slot_merging::fixed_cost(
            speed.slots,
            nodes,
            model,
            generated,
            n,
        ) {
            let search = size_layout::aggressive_search(
                size,
                speed,
                nodes,
                graph,
                bounds,
                size_colors,
                model,
                generated,
                known.size,
            );
            merged_members_from(speed.fields, speed.slots, nodes, search.best_colors, n);
            members_from_through(
                size_layout::merged_candidate(speed, function, nodes, search.best_colors).slots,
                speed.slots,
                lone.slots,
            );
        }
    }
}

/// Whether two lists have the same keys at the same places.
pub open spec fn same_keys(a: Seq<(usize, LayoutView)>, b: Seq<(usize, LayoutView)>) -> bool {
    a.len() == b.len() && forall|k: int| 0 <= k < a.len() ==> (#[trigger] a[k]).0 == b[k].0
}

proof fn put_same_keys(layouts: Seq<(usize, LayoutView)>, start: usize, layout: LayoutView)
    requires
        order::lookup(layouts, start) is Some,
    ensures
        same_keys(order::put(layouts, start, layout), layouts),
{
    order::key_point_bounds(layouts, start, 0);
    let p = order::key_point(layouts, start, 0);
    <usize as order::Key>::injective(layouts[p].0, start);
}

proof fn speed_same_keys(
    layouts: Seq<(usize, LayoutView)>,
    functions: Seq<LivenessFunction>,
    plan: Option<&CStaticAwaitPlan>,
    slot_liveness: SlotLivenessUnit,
    n: int,
)
    ensures
        same_keys(
            layout_passes::speed_layouts(layouts, functions, plan, slot_liveness, n),
            layouts,
        ),
    decreases n,
{
    if n > 0 {
        speed_same_keys(layouts, functions, plan, slot_liveness, n - 1);
        let before = layout_passes::speed_layouts(layouts, functions, plan, slot_liveness, n - 1);
        let start = functions[n - 1].coroutine.cfg.span.start_byte;
        if let (Some(layout), Some(lifetimes)) = (
            order::lookup(before, start),
            identity_layout::lifetimes_of(slot_liveness.functions@, n - 1, 0),
        ) {
            put_same_keys(
                before,
                start,
                speed_layout::speed_layout(
                    layout,
                    identity_layout::planned_at(plan, start),
                    lifetimes,
                ),
            );
        }
    }
}

proof fn sized_same_keys(
    layouts: Seq<(usize, LayoutView)>,
    functions: Seq<LivenessFunction>,
    plan: Option<&CStaticAwaitPlan>,
    slot_liveness: SlotLivenessUnit,
    aggressive: bool,
    model: TargetLayoutModel,
    n: int,
)
    ensures
        same_keys(
            layout_passes::sized_layouts(
                layouts,
                functions,
                plan,
                slot_liveness,
                aggressive,
                model,
                n,
            ),
            layouts,
        ),
    decreases n,
{
    if n > 0 {
        sized_same_keys(layouts, functions, plan, slot_liveness, aggressive, model, n - 1);
        let before = layout_passes::sized_layouts(
            layouts,
            functions,
            plan,
            slot_liveness,
            aggressive,
            model,
            n - 1,
        );
        let start = functions[n - 1].coroutine.cfg.span.start_byte;
        if let (Some(layout), Some(speed)) = (
            order::lookup(before, start),
            order::lookup(layouts, start),
        ) {
            put_same_keys(
                before,
                start,
                size_layout::sized_layout(
                    layout,
                    speed,
                    functions[n - 1],
                    identity_layout::planned_at(plan, start),
                    identity_layout::lifetimes_of(slot_liveness.functions@, n - 1, 0),
                    aggressive,
                    model,
                    size_layout::exact_types(layouts, layouts.len() as int),
                ),
            );
        }
    }
}

/// Whether the layout of every function that has a context is derived from the
/// one in which every field stands alone.
spec fn layouts_derived(
    layouts: Seq<(usize, LayoutView)>,
    functions: Seq<LivenessFunction>,
    plan: Option<&CStaticAwaitPlan>,
    slot_liveness: SlotLivenessUnit,
) -> bool {
    forall|i: int|
        0 <= i < functions.len() ==> match (
            order::lookup(layouts, #[trigger] context_soundness::start_of(functions, i)),
            context_soundness::lone_layout(functions, plan, slot_liveness, i),
        ) {
            (Some(layout), Some(lone)) => derived(layout, lone),
            (None, None) => true,
            _ => false,
        }
}

proof fn same_slots_derived(
    before: Seq<(usize, LayoutView)>,
    after: Seq<(usize, LayoutView)>,
    functions: Seq<LivenessFunction>,
    plan: Option<&CStaticAwaitPlan>,
    slot_liveness: SlotLivenessUnit,
)
    requires
        layouts_derived(before, functions, plan, slot_liveness),
        order::ascending(before),
        same_keys(after, before),
        forall|k: int|
            0 <= k < before.len() ==> (#[trigger] after[k]).1.slots == before[k].1.slots
                && same_function(after[k].1, before[k].1) && (decisions_shrink(before[k].1)
                ==> decisions_shrink(after[k].1)),
    ensures
        layouts_derived(after, functions, plan, slot_liveness),
{
    assert forall|i: int| 0 <= i < functions.len() implies match (
        order::lookup(after, #[trigger] context_soundness::start_of(functions, i)),
        context_soundness::lone_layout(functions, plan, slot_liveness, i),
    ) {
        (Some(layout), Some(lone)) => derived(layout, lone),
        (None, None) => true,
        _ => false,
    } by {
        let start = context_soundness::start_of(functions, i);
        context_soundness::known_found(before, after, start);
        if let (Some(old_layout), Some(new_layout)) = (
            order::lookup(before, start),
            order::lookup(after, start),
        ) {
            let k = choose|k: int|
                0 <= k < before.len() && (#[trigger] before[k]).1 == old_layout && after[k].1
                    == new_layout;
            assert(after[k].1.slots == before[k].1.slots);
        }
    }
}

proof fn known_derived(
    layouts: Seq<(usize, LayoutView)>,
    functions: Seq<LivenessFunction>,
    plan: Option<&CStaticAwaitPlan>,
    slot_liveness: SlotLivenessUnit,
    target: TargetConfig,
    packing_barrier: bool,
)
    requires
        layouts_derived(layouts, functions, plan, slot_liveness),
        order::ascending(layouts),
    ensures
        layouts_derived(
            layout_knowledge::known_layouts(layouts, target, packing_barrier),
            functions,
            plan,
            slot_liveness,
        ),
        same_keys(layout_knowledge::known_layouts(layouts, target, packing_barrier), layouts),
{
    let after = layout_knowledge::known_layouts(layouts, target, packing_barrier);
    layout_knowledge::knowledge_keeps_layouts(layouts, target, packing_barrier);
    same_slots_derived(layouts, after, functions, plan, slot_liveness);
}

/// What a fine layout has: members in every slot, and few enough slots.
pub proof fn fine_slots(
    layout: LayoutView,
    expected: Seq<(LogicalFieldId, PlacementView)>,
    plan: Option<FunctionPlanView>,
    function: LivenessFunction,
    lifetimes: SlotLivenessFunction,
)
    requires
        context_soundness::layout_fine(layout, expected, plan, function, lifetimes),
    ensures
        layout_knowledge::slots_filled(layout.slots),
        layout.slots.len() < u32::MAX,
{
    let building = layout_soundness::building_in(layout);
    layout_soundness::slots_fit(building);
    assert forall|s: int| 0 <= s < layout.slots.len() implies (
    #[trigger] layout.slots[s]).members.len() > 0 by {
        assert(crate::layout_check::well_shaped(building.slots[s], s));
    }
}

proof fn speed_derived(
    functions: Seq<LivenessFunction>,
    plan: Option<&CStaticAwaitPlan>,
    slot_liveness: SlotLivenessUnit,
)
    requires
        context_soundness::starts_distinct(functions, slot_liveness),
        identity_layout::contexts_distinct(functions, plan, slot_liveness),
        context_soundness::contexts_fit(functions, plan, slot_liveness),
    ensures
        ({
            let n = functions.len() as int;
            let identity = identity_layout::identity_layouts(functions, plan, slot_liveness, n);
            let speed = layout_passes::speed_layouts(
                identity,
                functions,
                plan,
                slot_liveness,
                n,
            );
            &&& layouts_derived(identity, functions, plan, slot_liveness)
            &&& layouts_derived(speed, functions, plan, slot_liveness)
            &&& same_keys(speed, identity)
        }),
{
    let n = functions.len() as int;
    let identity = identity_layout::identity_layouts(functions, plan, slot_liveness, n);
    context_soundness::identity_found(functions, plan, slot_liveness, n);
    context_soundness::speed_found(identity, functions, plan, slot_liveness, n);
    speed_same_keys(identity, functions, plan, slot_liveness, n);
    assert forall|i: int| 0 <= i < functions.len() implies match context_soundness::lone_layout(
        functions,
        plan,
        slot_liveness,
        i,
    ) {
        Some(lone) => {
            let own = identity_layout::planned_at(
                plan,
                #[trigger] context_soundness::start_of(functions, i),
            );
            let lifetimes = identity_layout::lifetimes_of(slot_liveness.functions@, i, 0);
            &&& derived(lone, lone)
            &&& lifetimes is Some
            &&& derived(speed_layout::speed_layout(lone, own, lifetimes->0), lone)
        },
        None => true,
    } by {
        if let Some(lone) = context_soundness::lone_layout(functions, plan, slot_liveness, i) {
            let own = identity_layout::planned_at(plan, context_soundness::start_of(functions, i));
            let lifetimes = identity_layout::lifetimes_of(slot_liveness.functions@, i, 0)->0;
            context_soundness::lone_layout_fine(functions, plan, slot_liveness, i);
            fine_slots(lone, lone.fields, own, functions[i], lifetimes);
            own_members(lone.slots);
            speed_members_from(lone, own, lifetimes);
        }
    }
}

proof fn size_derived(
    layouts: Seq<(usize, LayoutView)>,
    functions: Seq<LivenessFunction>,
    plan: Option<&CStaticAwaitPlan>,
    slot_liveness: SlotLivenessUnit,
    aggressive: bool,
    target: TargetConfig,
    packing_barrier: bool,
)
    requires
        context_soundness::starts_distinct(functions, slot_liveness),
        context_soundness::layouts_fine(layouts, functions, plan, slot_liveness),
        layouts_derived(layouts, functions, plan, slot_liveness),
    ensures
        ({
            let after = layout_passes::size_layouts(
                layouts,
                functions,
                plan,
                slot_liveness,
                aggressive,
                target,
                packing_barrier,
            );
            &&& layouts_derived(after, functions, plan, slot_liveness)
            &&& same_keys(after, layouts)
        }),
{
    let n = functions.len() as int;
    let after = layout_passes::size_layouts(
        layouts,
        functions,
        plan,
        slot_liveness,
        aggressive,
        target,
        packing_barrier,
    );
    if packing_barrier || target_layout::model_of(target) is None {
        same_slots_derived(layouts, after, functions, plan, slot_liveness);
    } else {
        let model = target_layout::model_of(target)->0;
        context_soundness::sized_found(
            layouts,
            functions,
            plan,
            slot_liveness,
            aggressive,
            model,
            n,
        );
        sized_same_keys(layouts, functions, plan, slot_liveness, aggressive, model, n);
        assert forall|i: int| 0 <= i < functions.len() implies match (
            order::lookup(after, #[trigger] context_soundness::start_of(functions, i)),
            context_soundness::lone_layout(functions, plan, slot_liveness, i),
        ) {
            (Some(layout), Some(lone)) => derived(layout, lone),
            (None, None) => true,
            _ => false,
        } by {
            let start = context_soundness::start_of(functions, i);
            if let (Some(speed), Some(lone)) = (
                order::lookup(layouts, start),
                context_soundness::lone_layout(functions, plan, slot_liveness, i),
            ) {
                let own = identity_layout::planned_at(plan, start);
                let lifetimes = identity_layout::lifetimes_of(slot_liveness.functions@, i, 0);
                fine_slots(speed, lone.fields, own, functions[i], lifetimes->0);
                sized_derived(
                    speed,
                    lone,
                    own,
                    functions[i],
                    lifetimes,
                    aggressive,
                    model,
                    size_layout::exact_types(layouts, layouts.len() as int),
                );
            }
        }
    }
}

/// The fields that a layout places, in their order.
pub open spec fn field_keys(layout: LayoutView) -> Seq<LogicalFieldId> {
    Seq::new(layout.fields.len(), |i: int| layout.fields[i].0)
}

/// The fields that a layout places are those that are found in it.
proof fn field_keys_found(layout: LayoutView)
    requires
        order::ascending(layout.fields),
    ensures
        order::keys_ascending(field_keys(layout)),
        forall|field: LogicalFieldId| #[trigger]
            field_keys(layout).contains(field) <==> order::lookup(layout.fields, field) is Some,
{
    let keys = field_keys(layout);
    assert forall|i: int, j: int| 0 <= i < j < keys.len() implies (
    #[trigger] keys[i]).rank_spec() < (#[trigger] keys[j]).rank_spec() by {
        assert(layout.fields[i].0.rank_spec() < layout.fields[j].0.rank_spec());
    }
    assert forall|field: LogicalFieldId| #[trigger] keys.contains(field) <==> order::lookup(
        layout.fields,
        field,
    ) is Some by {
        order::lookup_finds(layout.fields, field);
        if keys.contains(field) {
            let i = choose|i: int| 0 <= i < keys.len() && keys[i] == field;
            assert(layout.fields[i].0 == field);
        }
        if let Some(value) = order::lookup(layout.fields, field) {
            let i = choose|i: int|
                0 <= i < layout.fields.len() && layout.fields[i] == (field, value);
            assert(keys[i] == field);
        }
    }
}

/// Whether a layout has the fields and the members of another one, and no member
/// in two places.
pub open spec fn keeps_members(layout: LayoutView, lone: LayoutView) -> bool {
    &&& field_keys(layout) == field_keys(lone)
    &&& forall|field: LogicalFieldId|
        (#[trigger] order::lookup(layout.fields, field)) is Some <==> order::lookup(
            lone.fields,
            field,
        ) is Some
    &&& members_from(layout.slots, lone.slots)
    &&& members_from(lone.slots, layout.slots)
    &&& forall|s: int, m: int, t: int, k: int| #[trigger]
        layout_soundness::has_member(layout.slots, s, m)
            && #[trigger] layout_soundness::has_member(layout.slots, t, k)
            && layout.slots[s].members[m].logical == layout.slots[t].members[k].logical ==> s == t
            && m == k
}

proof fn derived_keeps_members(
    layout: LayoutView,
    lone: LayoutView,
    plan: Option<FunctionPlanView>,
    function: LivenessFunction,
    lifetimes: SlotLivenessFunction,
)
    requires
        context_soundness::layout_fine(layout, lone.fields, plan, function, lifetimes),
        context_soundness::layout_fine(lone, lone.fields, plan, function, lifetimes),
        derived(layout, lone),
    ensures
        keeps_members(layout, lone),
{
    let building = layout_soundness::building_in(layout);
    let single = layout_soundness::building_in(lone);
    layout_soundness::slots_fit(building);
    layout_soundness::slots_fit(single);
    assert forall|field: LogicalFieldId|
        (#[trigger] order::lookup(layout.fields, field)) is Some implies order::lookup(
        lone.fields,
        field,
    ) is Some by {
        assert(order::lookup(building.fields, field) is Some);
        assert(layout_soundness::holds(building.slots, field));
        let (s, m) = choose|s: int, m: int| #[trigger]
            layout_soundness::has_member(building.slots, s, m) && building.slots[s].members[m].logical
                == field;
        assert(layout_soundness::has_member(layout.slots, s, m));
        assert(has_like(lone.slots, layout.slots[s].members[m]));
        let (t, k) = choose|t: int, k: int| #[trigger]
            layout_soundness::has_member(lone.slots, t, k) && same_member(
                lone.slots[t].members[k],
                layout.slots[s].members[m],
            );
        assert(layout_soundness::has_member(single.slots, t, k));
    }
    field_keys_found(layout);
    field_keys_found(lone);
    assert forall|field: LogicalFieldId| #[trigger]
        field_keys(layout).contains(field) <==> field_keys(lone).contains(field) by {
        assert(order::lookup(layout.fields, field) is Some <==> order::lookup(
            lone.fields,
            field,
        ) is Some);
    }
    await_laws::ascending_keys_are_unique(field_keys(layout), field_keys(lone));
    assert forall|t: int, k: int| #[trigger]
        layout_soundness::has_member(lone.slots, t, k) implies has_like(
        layout.slots,
        lone.slots[t].members[k],
    ) by {
        let field = lone.slots[t].members[k].logical;
        assert(layout_soundness::has_member(single.slots, t, k));
        assert(order::lookup(lone.fields, field) is Some);
        assert(order::lookup(layout.fields, field) is Some);
        assert(order::lookup(building.fields, field) is Some);
        assert(layout_soundness::holds(building.slots, field));
        let (s, m) = choose|s: int, m: int| #[trigger]
            layout_soundness::has_member(building.slots, s, m) && building.slots[s].members[m].logical
                == field;
        assert(layout_soundness::has_member(layout.slots, s, m));
        assert(has_like(lone.slots, layout.slots[s].members[m]));
        let (u, l) = choose|u: int, l: int| #[trigger]
            layout_soundness::has_member(lone.slots, u, l) && same_member(
                lone.slots[u].members[l],
                layout.slots[s].members[m],
            );
        assert(layout_soundness::has_member(single.slots, u, l));
        one_place(single, t, k, u, l);
    }
    assert forall|s: int, m: int, t: int, k: int| #[trigger]
        layout_soundness::has_member(layout.slots, s, m)
            && #[trigger] layout_soundness::has_member(layout.slots, t, k)
            && layout.slots[s].members[m].logical
            == layout.slots[t].members[k].logical implies s == t && m == k by {
        one_place(building, s, m, t, k);
    }
}

/// A field is a member in one place alone.
proof fn one_place(building: Building, s: int, m: int, t: int, k: int)
    requires
        layout_soundness::well_placed(building),
        building.fields.len() <= u32::MAX,
        layout_soundness::has_member(building.slots, s, m),
        layout_soundness::has_member(building.slots, t, k),
        building.slots[s].members[m].logical == building.slots[t].members[k].logical,
    ensures
        s == t,
        m == k,
{
    layout_soundness::slots_fit(building);
    assert(building.slots[s].members.len() <= building.fields.len());
    assert(building.slots[t].members.len() <= building.fields.len());
    let a = layout_soundness::placement_of(building.slots, s, m);
    let b = layout_soundness::placement_of(building.slots, t, k);
    assert(a == b);
    assert(a.slot.0 == s as u32 && b.slot.0 == t as u32);
    assert(a.member.0 == m as u32 && b.member.0 == k as u32);
}

/// A layout with the slots and fields of one in which every field stands alone
/// keeps its members.
proof fn lone_keeps_members(layout: LayoutView, lone: LayoutView)
    requires
        layout_soundness::building_in(layout) == layout_soundness::building_in(lone),
        layout_soundness::well_placed(layout_soundness::building_in(lone)),
        lone.fields.len() <= u32::MAX,
    ensures
        keeps_members(layout, lone),
{
    let building = layout_soundness::building_in(lone);
    own_members(building.slots);
    assert(layout.fields == building.fields && lone.fields == building.fields);
    assert(layout.slots == building.slots && lone.slots == building.slots);
    assert forall|s: int, m: int, t: int, k: int| #[trigger]
        layout_soundness::has_member(layout.slots, s, m)
            && #[trigger] layout_soundness::has_member(layout.slots, t, k)
            && layout.slots[s].members[m].logical
            == layout.slots[t].members[k].logical implies s == t && m == k by {
        one_place(building, s, m, t, k);
    }
}

/// What holds at every level where functions with contexts start alone.
proof fn sharing_keeps_members(
    functions: Seq<LivenessFunction>,
    plan: Option<&CStaticAwaitPlan>,
    slot_liveness: SlotLivenessUnit,
    optimization: OptimizationLevel,
    target: TargetConfig,
    packing_barrier: bool,
)
    requires
        identity_layout::contexts_distinct(functions, plan, slot_liveness),
        context_soundness::starts_distinct(functions, slot_liveness),
        context_soundness::contexts_fit(functions, plan, slot_liveness),
    ensures
        ({
            let identity = identity_layout::identity_layouts(
                functions,
                plan,
                slot_liveness,
                functions.len() as int,
            );
            let layouts = layout_passes::context_layouts(
                functions,
                plan,
                slot_liveness,
                optimization,
                target,
                packing_barrier,
            );
            &&& same_keys(layouts, identity)
            &&& forall|k: int|
                0 <= k < layouts.len() ==> keeps_members(
                    (#[trigger] layouts[k]).1,
                    identity[k].1,
                ) && same_function(layouts[k].1, identity[k].1) && decisions_shrink(layouts[k].1)
            &&& optimization == OptimizationLevel::Off ==> forall|k: int|
                0 <= k < layouts.len() ==> (#[trigger] layouts[k]).1.fields == identity[k].1.fields
                    && layouts[k].1.slots == identity[k].1.slots && layouts[k].1.decisions
                    == identity[k].1.decisions
        }),
{
    let n = functions.len() as int;
    let identity = identity_layout::identity_layouts(functions, plan, slot_liveness, n);
    let layouts = layout_passes::context_layouts(
        functions,
        plan,
        slot_liveness,
        optimization,
        target,
        packing_barrier,
    );
    context_soundness::speed_layouts_fine(functions, plan, slot_liveness);
    speed_derived(functions, plan, slot_liveness);
    let speed = if optimization == OptimizationLevel::Off {
        identity
    } else {
        layout_passes::speed_layouts(identity, functions, plan, slot_liveness, n)
    };
    context_soundness::known_layouts_fine(
        speed,
        functions,
        plan,
        slot_liveness,
        target,
        packing_barrier,
    );
    known_derived(speed, functions, plan, slot_liveness, target, packing_barrier);
    let known = layout_knowledge::known_layouts(speed, target, packing_barrier);
    let aggressive = optimization == OptimizationLevel::Aggressive;
    context_soundness::size_layouts_fine(
        known,
        functions,
        plan,
        slot_liveness,
        aggressive,
        target,
        packing_barrier,
    );
    size_derived(known, functions, plan, slot_liveness, aggressive, target, packing_barrier);
    let sized = layout_passes::size_layouts(
        known,
        functions,
        plan,
        slot_liveness,
        aggressive,
        target,
        packing_barrier,
    );
    known_derived(sized, functions, plan, slot_liveness, target, packing_barrier);
    assert(layouts_derived(layouts, functions, plan, slot_liveness));
    context_soundness::built_layouts_are_sound(
        functions,
        plan,
        slot_liveness,
        optimization,
        target,
        packing_barrier,
    );
    context_soundness::identity_found(functions, plan, slot_liveness, n);
    assert forall|k: int| 0 <= k < layouts.len() implies keeps_members(
        (#[trigger] layouts[k]).1,
        identity[k].1,
    ) && same_function(layouts[k].1, identity[k].1) && decisions_shrink(layouts[k].1) by {
        assert(layouts[k].0 == identity[k].0);
        let i = choose|i: int|
            0 <= i < n && #[trigger] context_soundness::start_of(functions, i) == identity[k].0;
        let start = context_soundness::start_of(functions, i);
        order::lookup_finds(identity, start);
        order::lookup_finds(layouts, start);
        let lone = identity[k].1;
        assert(order::lookup(identity, start) == Some(lone));
        assert(order::lookup(layouts, start) == Some(layouts[k].1));
        context_soundness::lone_layout_fine(functions, plan, slot_liveness, i);
        derived_keeps_members(
            layouts[k].1,
            lone,
            identity_layout::planned_at(plan, start),
            functions[i],
            identity_layout::lifetimes_of(slot_liveness.functions@, i, 0)->0,
        );
    }
    layout_knowledge::knowledge_keeps_layouts(speed, target, packing_barrier);
}

/// At every level of optimization and for every target, the same functions have
/// contexts, and each context has the fields and the members that it has when
/// every field stands alone, every member in one slot alone. Without optimization
/// it is that context, and a change of its slots that a pass accepts never makes
/// it larger. Where values share storage, a function with a context must start
/// where no other one does.
pub proof fn levels_keep_members(
    functions: Seq<LivenessFunction>,
    plan: Option<&CStaticAwaitPlan>,
    slot_liveness: SlotLivenessUnit,
    optimization: OptimizationLevel,
    target: TargetConfig,
    packing_barrier: bool,
)
    requires
        identity_layout::contexts_distinct(functions, plan, slot_liveness),
        context_soundness::storage_shared(functions, slot_liveness, optimization)
            ==> context_soundness::starts_distinct(functions, slot_liveness),
        context_soundness::contexts_fit(functions, plan, slot_liveness),
    ensures
        ({
            let identity = identity_layout::identity_layouts(
                functions,
                plan,
                slot_liveness,
                functions.len() as int,
            );
            let layouts = layout_passes::context_layouts(
                functions,
                plan,
                slot_liveness,
                optimization,
                target,
                packing_barrier,
            );
            &&& same_keys(layouts, identity)
            &&& forall|k: int|
                0 <= k < layouts.len() ==> keeps_members(
                    (#[trigger] layouts[k]).1,
                    identity[k].1,
                ) && same_function(layouts[k].1, identity[k].1) && decisions_shrink(layouts[k].1)
            &&& optimization == OptimizationLevel::Off ==> forall|k: int|
                0 <= k < layouts.len() ==> (#[trigger] layouts[k]).1.fields == identity[k].1.fields
                    && layouts[k].1.slots == identity[k].1.slots && layouts[k].1.decisions
                    == identity[k].1.decisions
        }),
{
    let n = functions.len() as int;
    let identity = identity_layout::identity_layouts(functions, plan, slot_liveness, n);
    let layouts = layout_passes::context_layouts(
        functions,
        plan,
        slot_liveness,
        optimization,
        target,
        packing_barrier,
    );
    if context_soundness::storage_shared(functions, slot_liveness, optimization) {
        sharing_keeps_members(
            functions,
            plan,
            slot_liveness,
            optimization,
            target,
            packing_barrier,
        );
    } else {
        layout_knowledge::knowledge_keeps_layouts(identity, target, packing_barrier);
        assert forall|k: int| 0 <= k < layouts.len() implies keeps_members(
            (#[trigger] layouts[k]).1,
            identity[k].1,
        ) && same_function(layouts[k].1, identity[k].1) && decisions_shrink(layouts[k].1) by {
            let i = context_soundness::identity_listed(functions, plan, slot_liveness, n, k);
            context_soundness::listed_layout_sound(functions, plan, slot_liveness, k);
            lone_keeps_members(layouts[k].1, identity[k].1);
        }
    }
}

} // verus!
