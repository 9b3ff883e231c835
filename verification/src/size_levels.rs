//! Sharing more storage never makes a context of a unit larger.

use vstd::prelude::*;

use crate::c_static_plan::{CStaticAwaitPlan, FunctionPlanView};
use crate::config::{OptimizationLevel, TargetConfig};
use crate::context_layout;
use crate::context_layout::{LayoutView, MemberView, PhysicalSlotKind, SlotView};
use crate::context_soundness;
use crate::identity_layout;
use crate::identity_layout::FieldView;
use crate::known_sizes;
use crate::layout_knowledge;
use crate::layout_passes;
use crate::liveness::LivenessFunction;
use crate::order;
use crate::placement;
use crate::placement_laws;
use crate::size_laws;
use crate::size_layout;
use crate::size_rounds;
use crate::slot_liveness::{SlotLivenessFunction, SlotLivenessUnit};
use crate::slot_merging;
use crate::slot_sharing;
use crate::slot_sharing::NodeView;
use crate::speed_layout;
use crate::speed_layout::{CandidateView, Merging};
use crate::target_layout;
use crate::target_layout::{Known, TargetLayoutModel, TypeLayout};

verus! {

/// Whether a context has members of the types of all members of a list.
pub open spec fn all_used(slots: Seq<SlotView>, members: Seq<MemberView>) -> bool {
    forall|m: int|
        0 <= m < members.len() ==> known_sizes::uses(slots, (#[trigger] members[m]).c_type)
}

proof fn color_members_used(
    slots: Seq<SlotView>,
    nodes: Seq<NodeView>,
    colors: Seq<usize>,
    color: usize,
    n: int,
)
    requires
        0 <= n <= nodes.len(),
        slot_sharing::nodes_ok(nodes, slots.len() as int),
    ensures
        all_used(slots, slot_merging::color_members(slots, nodes, colors, color, n)),
        forall|k: int, m: int|
            #![trigger slots[nodes[k].original_slot as int].members[m]]
            0 <= k < n && colors[k] == color && 0 <= m
                < slots[nodes[k].original_slot as int].members.len()
                ==> slot_merging::color_members(slots, nodes, colors, color, n).contains(
                slots[nodes[k].original_slot as int].members[m],
            ),
    decreases n,
{
    if n > 0 {
        color_members_used(slots, nodes, colors, color, n - 1);
        let before = slot_merging::color_members(slots, nodes, colors, color, n - 1);
        let after = slot_merging::color_members(slots, nodes, colors, color, n);
        let own = nodes[n - 1].original_slot as int;
        assert forall|m: int| 0 <= m < after.len() implies known_sizes::uses(
            slots,
            (#[trigger] after[m]).c_type,
        ) by {
            if m < before.len() {
                assert(after[m] == before[m]);
            } else {
                assert(after[m] == slots[own].members[m - before.len()]);
            }
        }
        assert forall|k: int, m: int|
            #![trigger slots[nodes[k].original_slot as int].members[m]]
            0 <= k < n && colors[k] == color && 0 <= m
                < slots[nodes[k].original_slot as int].members.len() implies after.contains(
            slots[nodes[k].original_slot as int].members[m],
        ) by {
            if k < n - 1 {
                let x = choose|x: int|
                    0 <= x < before.len() && before[x]
                        == slots[nodes[k].original_slot as int].members[m];
                assert(after[x] == before[x]);
            } else {
                assert(after[before.len() + m] == slots[own].members[m]);
            }
        }
    }
}

/// One more slot adds the types of its members.
pub proof fn pushed_uses(slots: Seq<SlotView>, added: SlotView)
    ensures
        forall|c_type: Seq<char>| #[trigger]
            known_sizes::uses(slots, c_type) ==> known_sizes::uses(slots.push(added), c_type),
        all_used(slots.push(added), added.members),
        forall|c_type: Seq<char>| #[trigger]
            known_sizes::uses(slots.push(added), c_type) ==> known_sizes::uses(slots, c_type)
                || exists|m: int|
                0 <= m < added.members.len() && (#[trigger] added.members[m]).c_type == c_type,
{
    let after = slots.push(added);
    let last = slots.len() as int;
    assert forall|c_type: Seq<char>| #[trigger]
        known_sizes::uses(slots, c_type) implies known_sizes::uses(after, c_type) by {
        let (i, m) = choose|i: int, m: int|
            0 <= i < slots.len() && 0 <= m < slots[i].members.len() && (
            #[trigger] slots[i].members[m]).c_type == c_type;
        assert(after[i].members[m].c_type == c_type);
    }
    assert forall|m: int| 0 <= m < added.members.len() implies known_sizes::uses(
        after,
        (#[trigger] added.members[m]).c_type,
    ) by {
        assert(after[last].members[m].c_type == added.members[m].c_type);
    }
    assert forall|c_type: Seq<char>| #[trigger] known_sizes::uses(
        after,
        c_type,
    ) implies known_sizes::uses(slots, c_type) || exists|m: int|
        0 <= m < added.members.len() && (#[trigger] added.members[m]).c_type == c_type by {
        let (i, m) = choose|i: int, m: int|
            0 <= i < after.len() && 0 <= m < after[i].members.len() && (
            #[trigger] after[i].members[m]).c_type == c_type;
        if i < last {
            assert(slots[i].members[m].c_type == c_type);
        } else {
            assert(added.members[m].c_type == c_type);
        }
    }
}

/// Whether merged slots come from the old ones, and hold all that the first
/// `n` old slots and those of the same colors hold.
spec fn merged_so_far(
    merged: Seq<SlotView>,
    slots: Seq<SlotView>,
    nodes: Seq<NodeView>,
    colors: Seq<usize>,
    n: int,
) -> bool {
    &&& known_sizes::plainly_shaped(merged)
    &&& forall|c_type: Seq<char>| #[trigger]
        known_sizes::uses(merged, c_type) ==> known_sizes::uses(slots, c_type)
    &&& forall|i: int|
        0 <= i < n ==> all_used(merged, (#[trigger] slots[i]).members)
    &&& forall|k: int, j: int|
        #![trigger nodes[k], nodes[j]]
        0 <= k < nodes.len() && 0 <= j < nodes.len() && nodes[k].original_slot < n && colors[j]
            == colors[k] ==> all_used(merged, slots[nodes[j].original_slot as int].members)
}

/// The slot that is added for an old one.
proof fn slot_added(
    before: Seq<SlotView>,
    added: SlotView,
    slots: Seq<SlotView>,
    nodes: Seq<NodeView>,
    colors: Seq<usize>,
    n: int,
)
    requires
        0 <= n < slots.len(),
        slot_sharing::nodes_ok(nodes, slots.len() as int),
        colors.len() == nodes.len(),
        merged_so_far(before, slots, nodes, colors, n),
        all_used(slots, added.members),
        added.members.len() > 0,
        added.kind == PhysicalSlotKind::Direct ==> added.members.len() == 1,
        match slot_merging::node_at(nodes, n, 0) {
            Some(k) => forall|j: int|
                0 <= j < nodes.len() && colors[j] == colors[k] ==> all_used(
                    before.push(added),
                    slots[(#[trigger] nodes[j]).original_slot as int].members,
                ),
            None => all_used(before.push(added), slots[n].members),
        },
    ensures
        merged_so_far(before.push(added), slots, nodes, colors, n + 1),
{
    let after = before.push(added);
    pushed_uses(before, added);
    slot_merging::node_at_finds(nodes, n, 0);
    assert forall|c_type: Seq<char>| #[trigger] known_sizes::uses(
        after,
        c_type,
    ) implies known_sizes::uses(slots, c_type) by {
        if !known_sizes::uses(before, c_type) {
            let m = choose|m: int|
                0 <= m < added.members.len() && (#[trigger] added.members[m]).c_type == c_type;
            assert(known_sizes::uses(slots, added.members[m].c_type));
        }
    }
    assert forall|members: Seq<MemberView>| all_used(before, members) implies #[trigger] all_used(
        after,
        members,
    ) by {
        assert forall|m: int| 0 <= m < members.len() implies known_sizes::uses(
            after,
            (#[trigger] members[m]).c_type,
        ) by {
            assert(known_sizes::uses(before, members[m].c_type));
        }
    }
    assert forall|i: int| 0 <= i < n + 1 implies all_used(after, (#[trigger] slots[i]).members) by {
        if i == n {
            if let Some(k) = slot_merging::node_at(nodes, n, 0) {
                assert(nodes[k].original_slot == n);
            }
        }
    }
    assert forall|k: int, j: int|
        #![trigger nodes[k], nodes[j]]
        0 <= k < nodes.len() && 0 <= j < nodes.len() && nodes[k].original_slot < n + 1
            && colors[j] == colors[k] implies all_used(
        after,
        slots[nodes[j].original_slot as int].members,
    ) by {
        if nodes[k].original_slot == n {
            let own = slot_merging::node_at(nodes, n, 0)->0;
            if own < k {
                assert(nodes[own].original_slot < nodes[k].original_slot);
            } else if k < own {
                assert(nodes[k].original_slot < nodes[own].original_slot);
            }
        }
    }
    assert(known_sizes::plainly_shaped(after));
}

proof fn slots_merged(
    slots: Seq<SlotView>,
    nodes: Seq<NodeView>,
    colors: Seq<usize>,
    n: int,
)
    requires
        0 <= n <= slots.len(),
        slot_sharing::nodes_ok(nodes, slots.len() as int),
        colors.len() == nodes.len(),
        known_sizes::plainly_shaped(slots),
    ensures
        merged_so_far(
            slot_merging::rebuild_slots(Seq::empty(), slots, nodes, colors, n).building.slots,
            slots,
            nodes,
            colors,
            n,
        ),
    decreases n,
{
    let rebuilt = slot_merging::rebuild_slots(Seq::empty(), slots, nodes, colors, n);
    if n > 0 {
        let i = n - 1;
        slots_merged(slots, nodes, colors, i);
        let old = slot_merging::rebuild_slots(Seq::empty(), slots, nodes, colors, i);
        let before = old.building.slots;
        let after = rebuilt.building.slots;
        slot_merging::node_at_finds(nodes, i, 0);
        assert(slots[i].members.len() > 0);
        match slot_merging::node_at(nodes, i, 0) {
            Some(k) => {
                placement::first_with_bounds(colors, colors[k], k);
                if let Some(first) = placement::first_with(colors, colors[k], k) {
                    assert(nodes[first].original_slot < nodes[k].original_slot);
                    assert forall|a: int, j: int|
                        #![trigger nodes[a], nodes[j]]
                        0 <= a < nodes.len() && 0 <= j < nodes.len() && nodes[a].original_slot < n
                            && colors[j] == colors[a] implies all_used(
                        after,
                        slots[nodes[j].original_slot as int].members,
                    ) by {
                        if nodes[a].original_slot == i {
                            if a < k {
                                assert(nodes[a].original_slot < nodes[k].original_slot);
                            } else if k < a {
                                assert(nodes[k].original_slot < nodes[a].original_slot);
                            }
                            assert(colors[j] == colors[first]);
                        }
                    }
                    assert(all_used(after, slots[i].members)) by {
                        assert(nodes[k].original_slot == i && nodes[first].original_slot < i);
                    }
                } else {
                    let size = nodes.len() as int;
                    let members = slot_merging::color_members(
                        slots,
                        nodes,
                        colors,
                        colors[k],
                        size,
                    );
                    color_members_used(slots, nodes, colors, colors[k], size);
                    slot_merging::color_members_filled(slots, nodes, colors, k, size);
                    let added = after[before.len() as int];
                    assert(after =~= before.push(added));
                    pushed_uses(before, added);
                    same_member_types(members, added.members);
                    assert forall|j: int|
                        0 <= j < nodes.len() && colors[j] == colors[k] implies all_used(
                        after,
                        slots[(#[trigger] nodes[j]).original_slot as int].members,
                    ) by {
                        let list = slots[nodes[j].original_slot as int].members;
                        assert forall|m: int| 0 <= m < list.len() implies known_sizes::uses(
                            after,
                            (#[trigger] list[m]).c_type,
                        ) by {
                            assert(slots[nodes[j].original_slot as int].members[m] == list[m]);
                            assert(members.contains(list[m]));
                            let x = choose|x: int|
                                0 <= x < members.len() && members[x] == list[m];
                            assert(added.members[x].c_type == members[x].c_type);
                        }
                    }
                    slot_added(before, added, slots, nodes, colors, i);
                }
            },
            None => {
                let added = after[before.len() as int];
                assert(after =~= before.push(added));
                pushed_uses(before, added);
                same_member_types(slots[i].members, added.members);
                assert(all_used(slots, slots[i].members)) by {
                    let list = slots[i].members;
                    assert forall|m: int| 0 <= m < list.len() implies known_sizes::uses(
                        slots,
                        (#[trigger] list[m]).c_type,
                    ) by {
                        assert(slots[i].members[m].c_type == list[m].c_type);
                    }
                }
                assert(all_used(after, slots[i].members)) by {
                    let list = slots[i].members;
                    assert forall|m: int| 0 <= m < list.len() implies known_sizes::uses(
                        after,
                        (#[trigger] list[m]).c_type,
                    ) by {
                        assert(added.members[m].c_type == list[m].c_type);
                    }
                }
                slot_added(before, added, slots, nodes, colors, i);
            },
        }
    }
}

/// Members of the same types are used alike.
pub proof fn same_member_types(a: Seq<MemberView>, b: Seq<MemberView>)
    requires
        a.len() == b.len(),
        forall|m: int| 0 <= m < a.len() ==> (#[trigger] b[m]).c_type == a[m].c_type,
    ensures
        forall|slots: Seq<SlotView>| #[trigger] all_used(slots, a) ==> all_used(slots, b),
{
    assert forall|slots: Seq<SlotView>| #[trigger] all_used(slots, a) implies all_used(
        slots,
        b,
    ) by {
        assert forall|m: int| 0 <= m < b.len() implies known_sizes::uses(
            slots,
            (#[trigger] b[m]).c_type,
        ) by {
            assert(known_sizes::uses(slots, a[m].c_type));
        }
    }
}

/// Merging slots keeps the types of all members.
proof fn merged_types_kept(slots: Seq<SlotView>, nodes: Seq<NodeView>, colors: Seq<usize>)
    requires
        slot_sharing::nodes_ok(nodes, slots.len() as int),
        colors.len() == nodes.len(),
        known_sizes::plainly_shaped(slots),
    ensures
        known_sizes::plainly_shaped(slot_merging::merged_slots(slots, nodes, colors)),
        known_sizes::same_types(slots, slot_merging::merged_slots(slots, nodes, colors)),
{
    let merged = slot_merging::merged_slots(slots, nodes, colors);
    slots_merged(slots, nodes, colors, slots.len() as int);
    assert forall|c_type: Seq<char>|
        #![trigger known_sizes::uses(slots, c_type)]
        #![trigger known_sizes::uses(merged, c_type)]
        known_sizes::uses(slots, c_type) <==> known_sizes::uses(merged, c_type) by {
        if known_sizes::uses(slots, c_type) {
            let (i, m) = choose|i: int, m: int|
                0 <= i < slots.len() && 0 <= m < slots[i].members.len() && (
                #[trigger] slots[i].members[m]).c_type == c_type;
            assert(all_used(merged, slots[i].members));
            assert(known_sizes::uses(merged, slots[i].members[m].c_type));
        }
    }
}

/// Whether a layout can stand for one of known size: it is what its slots come
/// to, with members of the same types, and fits.
spec fn may_stand(
    layout: LayoutView,
    speed: LayoutView,
    model: TargetLayoutModel,
    all: Seq<(Seq<char>, TypeLayout)>,
) -> bool {
    &&& layout.task_type == speed.task_type
    &&& match size_rounds::known_type(speed) {
        Some(known) => {
            &&& known_sizes::plainly_shaped(layout.slots)
            &&& known_sizes::same_types(speed.slots, layout.slots)
            &&& known_sizes::context_type(model, layout.slots, all) == size_rounds::known_type(
                layout,
            )
            &&& match size_rounds::known_type(layout) {
                Some(own) => known_sizes::fits(own, known, false),
                None => false,
            }
        },
        None => true,
    }
}

/// Whether a layout is what its slots come to, if its size is known.
spec fn well_known(
    speed: LayoutView,
    model: TargetLayoutModel,
    all: Seq<(Seq<char>, TypeLayout)>,
) -> bool {
    &&& known_sizes::plainly_shaped(speed.slots)
    &&& speed.slots.len() < u32::MAX
    &&& match size_rounds::known_type(speed) {
        Some(known) => known_sizes::context_type(model, speed.slots, all) == Some(known),
        None => true,
    }
}

proof fn candidate_stands(
    speed: LayoutView,
    function: LivenessFunction,
    plan: Option<FunctionPlanView>,
    nodes: Seq<NodeView>,
    colors: Seq<usize>,
    layout: LayoutView,
    model: TargetLayoutModel,
    all: Seq<(Seq<char>, TypeLayout)>,
)
    requires
        well_known(speed, model, all),
        nodes == slot_sharing::nodes_of(
            speed.slots,
            plan,
            function,
            model,
            all,
            speed.slots.len() as int,
        ),
        colors.len() == nodes.len(),
        layout.slots == size_layout::merged_candidate(speed, function, nodes, colors).slots,
        layout.task_type == speed.task_type,
        layout.layout_knowledge == layout_knowledge::context_layout_of(model, layout.slots, all),
        layout.layout_knowledge is Exact,
        match size_rounds::known_type(speed) {
            Some(known) => layout.layout_knowledge->Exact_0.size <= known.size,
            None => true,
        },
    ensures
        may_stand(layout, speed, model, all),
{
    let n = speed.slots.len() as int;
    slot_sharing::nodes_of_ok(speed.slots, plan, function, model, all, n);
    slot_merging::merged_slots_filled(
        size_layout::with_exclusions(speed, function).fields,
        speed.slots,
        nodes,
        colors,
        n,
    );
    assert(layout.slots == slot_merging::merged_slots(speed.slots, nodes, colors));
    merged_types_kept(speed.slots, nodes, colors);
    if size_rounds::known_type(speed) is Some {
        known_sizes::same_types_align_alike(model, speed.slots, layout.slots, all);
    }
}

proof fn aggressive_stands(
    size: LayoutView,
    speed: LayoutView,
    plan: Option<FunctionPlanView>,
    function: LivenessFunction,
    lifetimes: SlotLivenessFunction,
    size_colors: Seq<usize>,
    model: TargetLayoutModel,
    all: Seq<(Seq<char>, TypeLayout)>,
)
    requires
        well_known(speed, model, all),
        may_stand(size, speed, model, all),
        size_rounds::known_type(speed) is Some,
    ensures
        ({
            let nodes = slot_sharing::nodes_of(
                speed.slots,
                plan,
                function,
                model,
                all,
                speed.slots.len() as int,
            );
            may_stand(
                size_layout::aggressive_layout(
                    size,
                    speed,
                    function,
                    nodes,
                    slot_sharing::graph_of(speed.slots, nodes, function, lifetimes),
                    size_colors,
                    model,
                    all,
                ),
                speed,
                model,
                all,
            )
        }),
{
    let n = speed.slots.len() as int;
    let nodes = slot_sharing::nodes_of(speed.slots, plan, function, model, all, n);
    slot_sharing::nodes_of_ok(speed.slots, plan, function, model, all, n);
    let graph = slot_sharing::graph_of(speed.slots, nodes, function, lifetimes);
    slot_sharing::graph_of_ok(speed.slots, nodes, function, lifetimes);
    let result = size_layout::aggressive_layout(
        size,
        speed,
        function,
        nodes,
        graph,
        size_colors,
        model,
        all,
    );
    size_laws::aggressive_pass_never_grows(
        size,
        speed,
        plan,
        function,
        lifetimes,
        size_colors,
        model,
        all,
    );
    let known = size.layout_knowledge->Exact_0;
    if let Known::Exact(bounds) = slot_merging::fixed_cost(speed.slots, nodes, model, all, n) {
        let search = size_layout::aggressive_search(
            size,
            speed,
            nodes,
            graph,
            bounds,
            size_colors,
            model,
            all,
            known.size,
        );
        let incumbent = slot_merging::cost_of_slots(size.slots, known.size);
        let costs = slot_merging::merged_costs(speed.slots, nodes, model, all);
        slot_merging::merged_costs_depend_on_grouping(speed.slots, nodes, model, all);
        placement_laws::found_placement_is_sound(
            graph,
            bounds,
            size_layout::AGGRESSIVE_NODE_BUDGET,
            costs,
            size_layout::incumbent_colors(size, nodes.len(), size_colors),
            incumbent,
        );
        if !search.exhausted && size_layout::improved(search, incumbent) {
            assert(placement_laws::best_ok(graph, costs, search));
            let candidate = size_layout::merged_candidate(
                speed,
                function,
                nodes,
                search.best_colors,
            );
            if layout_knowledge::context_layout_of(model, candidate.slots, all) is Exact {
                candidate_stands(
                    speed,
                    function,
                    plan,
                    nodes,
                    search.best_colors,
                    result,
                    model,
                    all,
                );
            }
        }
    }
}

/// The size passes put layouts in place of others that may stand for them.
proof fn sized_stands(
    layout: LayoutView,
    speed: LayoutView,
    function: LivenessFunction,
    plan: Option<FunctionPlanView>,
    lifetimes: Option<SlotLivenessFunction>,
    aggressive: bool,
    model: TargetLayoutModel,
    all: Seq<(Seq<char>, TypeLayout)>,
)
    requires
        well_known(speed, model, all),
        may_stand(layout, speed, model, all),
    ensures
        may_stand(
            size_layout::sized_layout(
                layout,
                speed,
                function,
                plan,
                lifetimes,
                aggressive,
                model,
                all,
            ),
            speed,
            model,
            all,
        ),
{
    if let (Known::Exact(known), Some(own)) = (speed.layout_knowledge, lifetimes) {
        let n = speed.slots.len() as int;
        let nodes = slot_sharing::nodes_of(speed.slots, plan, function, model, all, n);
        slot_sharing::nodes_of_ok(speed.slots, plan, function, model, all, n);
        let graph = slot_sharing::graph_of(speed.slots, nodes, function, own);
        slot_sharing::graph_of_ok(speed.slots, nodes, function, own);
        let colors = placement::greedy_colors(graph, graph.weights.len() as int);
        placement_laws::greedy_coloring_is_proper(graph);
        let size = size_layout::sized_layout(
            layout,
            speed,
            function,
            plan,
            lifetimes,
            false,
            model,
            all,
        );
        let candidate = size_layout::merged_candidate(speed, function, nodes, colors);
        if nodes.len() >= 2 {
            if let Known::Exact(merged) = layout_knowledge::context_layout_of(
                model,
                candidate.slots,
                all,
            ) {
                if merged.size <= known.size {
                    candidate_stands(speed, function, plan, nodes, colors, size, model, all);
                }
                assert(may_stand(size, speed, model, all));
                aggressive_stands(size, speed, plan, function, own, colors, model, all);
            }
        } else {
            assert(may_stand(size_layout::with_exclusions(speed, function), speed, model, all));
        }
    }
}

/// Whether one list of layouts has the keys of another, and each of its
/// layouts may stand for the other's.
spec fn all_may_stand(
    layouts: Seq<(usize, LayoutView)>,
    speed: Seq<(usize, LayoutView)>,
    model: TargetLayoutModel,
    all: Seq<(Seq<char>, TypeLayout)>,
) -> bool {
    &&& layouts.len() == speed.len()
    &&& forall|i: int|
        0 <= i < speed.len() ==> (#[trigger] layouts[i]).0 == speed[i].0 && may_stand(
            layouts[i].1,
            speed[i].1,
            model,
            all,
        )
}

proof fn sized_layouts_stand(
    layouts: Seq<(usize, LayoutView)>,
    functions: Seq<LivenessFunction>,
    plan: Option<&CStaticAwaitPlan>,
    slot_liveness: SlotLivenessUnit,
    aggressive: bool,
    model: TargetLayoutModel,
    n: int,
)
    requires
        n <= functions.len(),
        ({
            let all = size_layout::exact_types(layouts, layouts.len() as int);
            forall|i: int|
                0 <= i < layouts.len() ==> well_known((#[trigger] layouts[i]).1, model, all)
        }),
    ensures
        all_may_stand(
            layout_passes::sized_layouts(
                layouts,
                functions,
                plan,
                slot_liveness,
                aggressive,
                model,
                n,
            ),
            layouts,
            model,
            size_layout::exact_types(layouts, layouts.len() as int),
        ),
    decreases n,
{
    let all = size_layout::exact_types(layouts, layouts.len() as int);
    if n > 0 {
        sized_layouts_stand(
            layouts,
            functions,
            plan,
            slot_liveness,
            aggressive,
            model,
            n - 1,
        );
        let before = layout_passes::sized_layouts(
            layouts,
            functions,
            plan,
            slot_liveness,
            aggressive,
            model,
            n - 1,
        );
        let start = functions[n - 1].coroutine.cfg.span.start_byte;
        assert forall|k: int| 0 <= k < layouts.len() implies (#[trigger] layouts[k]).0
            == before[k].0 by {
            assert(before[k].0 == layouts[k].0);
        }
        order::key_point_by_keys(layouts, before, start, 0);
        order::key_point_bounds(layouts, start, 0);
        let p = order::key_point(layouts, start, 0);
        if p < layouts.len() && order::lookup(layouts, start) is Some {
            assert(before[p].0 == layouts[p].0);
            sized_stands(
                before[p].1,
                layouts[p].1,
                functions[n - 1],
                identity_layout::planned_at(plan, start),
                identity_layout::lifetimes_of(slot_liveness.functions@, n - 1, 0),
                aggressive,
                model,
                all,
            );
        }
    } else {
        assert forall|i: int| 0 <= i < layouts.len() implies (#[trigger] layouts[i]).0
            == layouts[i].0 && may_stand(layouts[i].1, layouts[i].1, model, all) by {
            assert(well_known(layouts[i].1, model, all));
        }
    }
}

/// Whether a list of layouts has plainly shaped slots, not too many of them.
pub open spec fn all_plain(layouts: Seq<(usize, LayoutView)>) -> bool {
    forall|i: int|
        0 <= i < layouts.len() ==> known_sizes::plainly_shaped(
            (#[trigger] layouts[i]).1.slots,
        ) && layouts[i].1.slots.len() < u32::MAX
}

proof fn size_passes_keep_sizes(
    speed: Seq<(usize, LayoutView)>,
    functions: Seq<LivenessFunction>,
    plan: Option<&CStaticAwaitPlan>,
    slot_liveness: SlotLivenessUnit,
    aggressive: bool,
    target: TargetConfig,
    packing_barrier: bool,
    i: int,
)
    requires
        size_rounds::names_distinct(speed),
        all_plain(speed),
        0 <= i < speed.len(),
    ensures
        ({
            let known = layout_knowledge::known_layouts(speed, target, packing_barrier);
            let sized = layout_knowledge::known_layouts(
                layout_passes::size_layouts(
                    known,
                    functions,
                    plan,
                    slot_liveness,
                    aggressive,
                    target,
                    packing_barrier,
                ),
                target,
                packing_barrier,
            );
            &&& known.len() == speed.len()
            &&& sized.len() == speed.len()
            &&& sized[i].0 == known[i].0
            &&& size_laws::known_size(known[i].1) is Some ==> size_laws::no_larger(
                sized[i].1,
                known[i].1,
            )
        }),
{
    let known = layout_knowledge::known_layouts(speed, target, packing_barrier);
    let passed = layout_passes::size_layouts(
        known,
        functions,
        plan,
        slot_liveness,
        aggressive,
        target,
        packing_barrier,
    );
    layout_knowledge::knowledge_keeps_layouts(speed, target, packing_barrier);
    layout_knowledge::knowledge_keeps_layouts(passed, target, packing_barrier);
    assert(known[i].0 == speed[i].0);
    if packing_barrier {
        assert(passed[i].0 == known[i].0);
    } else {
        match target_layout::model_of(target) {
            None => {
                assert(passed[i].0 == known[i].0);
            },
            Some(model) => {
                let all = size_layout::exact_types(known, known.len() as int);
                assert(known == size_rounds::sizes_of(model, speed).functions);
                assert forall|k: int| 0 <= k < known.len() implies well_known(
                    (#[trigger] known[k]).1,
                    model,
                    all,
                ) by {
                    size_rounds::sizes_settled(model, speed, k);
                    assert(known[k].1 == layout_knowledge::with_knowledge(
                        speed[k].1,
                        known[k].1.layout_knowledge,
                    ));
                    assert(known_sizes::plainly_shaped(speed[k].1.slots));
                }
                sized_layouts_stand(
                    known,
                    functions,
                    plan,
                    slot_liveness,
                    aggressive,
                    model,
                    functions.len() as int,
                );
                assert forall|k: int| 0 <= k < speed.len() implies size_rounds::stands_for(
                    model,
                    speed[k].1.task_type,
                    (#[trigger] passed[k]).1.slots,
                    speed[k].1.slots,
                    all,
                ) && passed[k].1.task_type == speed[k].1.task_type by {
                    size_rounds::sizes_settled(model, speed, k);
                    assert(known[k].1 == layout_knowledge::with_knowledge(
                        speed[k].1,
                        known[k].1.layout_knowledge,
                    ));
                    assert(well_known(known[k].1, model, all));
                    assert(may_stand(passed[k].1, known[k].1, model, all));
                }
                size_rounds::standing_contexts_are_no_larger(model, speed, passed, i);
                assert(passed[i].0 == known[i].0);
            },
        }
    }
    let sized = layout_knowledge::known_layouts(passed, target, packing_barrier);
    assert(sized[i].0 == passed[i].0);
}

/// A context in which every field stands alone has plainly shaped slots.
pub proof fn direct_plain(fields: Seq<FieldView>, n: int)
    requires
        n <= fields.len(),
    ensures
        known_sizes::plainly_shaped(identity_layout::placed_directly(fields, n).slots),
        n >= 0 ==> identity_layout::placed_directly(fields, n).slots.len() == n,
    decreases n,
{
    if n > 0 {
        direct_plain(fields, n - 1);
    }
}

proof fn put_plain(layouts: Seq<(usize, LayoutView)>, start: usize, layout: LayoutView)
    requires
        all_plain(layouts),
        known_sizes::plainly_shaped(layout.slots),
        layout.slots.len() < u32::MAX,
    ensures
        all_plain(order::put(layouts, start, layout)),
{
    order::key_point_bounds(layouts, start, 0);
    let p = order::key_point(layouts, start, 0);
    let after = order::put(layouts, start, layout);
    assert forall|i: int| 0 <= i < after.len() implies known_sizes::plainly_shaped(
        (#[trigger] after[i]).1.slots,
    ) && after[i].1.slots.len() < u32::MAX by {
        if i != p {
            if order::lookup(layouts, start) is Some || i < p {
                assert(after[i] == layouts[i]);
            } else {
                assert(after[i] == layouts[i - 1]);
            }
        }
    }
}

/// Whether every layout stands at the start of a function with its type name.
pub open spec fn all_named(layouts: Seq<(usize, LayoutView)>, functions: Seq<LivenessFunction>) -> bool {
    forall|i: int|
        0 <= i < layouts.len() ==> exists|k: int|
            0 <= k < functions.len() && context_soundness::start_of(functions, k)
                == layouts[i].0 && functions[k].coroutine.cfg.is_async && (
            #[trigger] functions[k]).coroutine.task_type@ == (#[trigger] layouts[i]).1.task_type
}

proof fn put_named(
    layouts: Seq<(usize, LayoutView)>,
    functions: Seq<LivenessFunction>,
    k: int,
    layout: LayoutView,
)
    requires
        all_named(layouts, functions),
        0 <= k < functions.len(),
        functions[k].coroutine.cfg.is_async,
        functions[k].coroutine.task_type@ == layout.task_type,
    ensures
        all_named(
            order::put(layouts, context_soundness::start_of(functions, k), layout),
            functions,
        ),
{
    let start = context_soundness::start_of(functions, k);
    order::key_point_bounds(layouts, start, 0);
    let p = order::key_point(layouts, start, 0);
    let after = order::put(layouts, start, layout);
    assert forall|i: int| 0 <= i < after.len() implies exists|f: int|
        0 <= f < functions.len() && context_soundness::start_of(functions, f) == after[i].0
            && functions[f].coroutine.cfg.is_async && (
        #[trigger] functions[f]).coroutine.task_type@ == (
        #[trigger] after[i]).1.task_type by {
        if i != p {
            if order::lookup(layouts, start) is Some || i < p {
                assert(after[i] == layouts[i]);
            } else {
                assert(after[i] == layouts[i - 1]);
            }
        } else {
            assert(after[i] == (start, layout));
            assert(functions[k].coroutine.task_type@ == after[i].1.task_type);
        }
    }
}

/// Contexts in which every field stands alone have plainly shaped slots.
pub proof fn identity_plain(
    functions: Seq<LivenessFunction>,
    plan: Option<&CStaticAwaitPlan>,
    slot_liveness: SlotLivenessUnit,
    n: int,
)
    requires
        0 <= n <= functions.len(),
        context_soundness::contexts_fit(functions, plan, slot_liveness),
    ensures
        ({
            let layouts = identity_layout::identity_layouts(functions, plan, slot_liveness, n);
            all_plain(layouts) && all_named(layouts, functions) && order::ascending(layouts)
        }),
    decreases n,
{
    if n > 0 {
        identity_plain(functions, plan, slot_liveness, n - 1);
        let before = identity_layout::identity_layouts(functions, plan, slot_liveness, n - 1);
        let start = context_soundness::start_of(functions, n - 1);
        let own = identity_layout::planned_at(plan, start);
        let fields = identity_layout::context_fields(functions[n - 1], own);
        let layout = identity_layout::identity_layout(functions[n - 1], own);
        if identity_layout::has_context(functions, slot_liveness, n - 1) {
            direct_plain(fields, fields.len() as int);
            put_plain(before, start, layout);
            put_named(before, functions, n - 1, layout);
            order::put_ascending(before, start, layout, start);
        }
    }
}

/// Sharing storage leaves plainly shaped slots, and no more of them.
pub proof fn merge_plain(
    start: Merging,
    slots: Seq<SlotView>,
    candidates: Seq<CandidateView>,
    groups: Seq<Seq<usize>>,
    n: int,
)
    requires
        known_sizes::plainly_shaped(start.building.slots),
        forall|g: int| 0 <= g < groups.len() ==> (#[trigger] groups[g]).len() > 1,
        0 <= n,
    ensures
        ({
            let merged = speed_layout::merge_slots(start, slots, candidates, groups, n);
            known_sizes::plainly_shaped(merged.building.slots) && merged.building.slots.len()
                <= start.building.slots.len() + n
        }),
    decreases n,
{
    if n > 0 {
        merge_plain(start, slots, candidates, groups, n - 1);
        layout_passes::group_with_finds(
            candidates,
            groups,
            slots[n - 1].members[0].logical,
            0,
        );
    }
}

/// Sharing storage leaves plainly shaped slots.
pub proof fn speed_plain(
    layout: LayoutView,
    plan: Option<FunctionPlanView>,
    lifetimes: SlotLivenessFunction,
)
    requires
        known_sizes::plainly_shaped(layout.slots),
        layout.slots.len() < u32::MAX,
    ensures
        ({
            let speed = speed_layout::speed_layout(layout, plan, lifetimes);
            &&& known_sizes::plainly_shaped(speed.slots)
            &&& speed.slots.len() < u32::MAX
            &&& speed.task_type == layout.task_type
        }),
{
    let n = layout.slots.len() as int;
    let candidates = speed_layout::candidates_of(layout.slots, plan, lifetimes, n);
    let all = speed_layout::groups_of(candidates, lifetimes, candidates.len() as int);
    layout_passes::shared_groups_filled(all, all.len() as int);
    merge_plain(
        Merging {
            building: context_layout::Building { slots: Seq::empty(), fields: layout.fields },
            decisions: layout.decisions,
            emitted: Seq::empty(),
        },
        layout.slots,
        candidates,
        speed_layout::speed_groups(layout, plan, lifetimes),
        n,
    );
}

/// Contexts that share storage keep their names, and their slots are plainly
/// shaped.
pub proof fn speed_layouts_plain(
    layouts: Seq<(usize, LayoutView)>,
    functions: Seq<LivenessFunction>,
    plan: Option<&CStaticAwaitPlan>,
    slot_liveness: SlotLivenessUnit,
    n: int,
)
    requires
        0 <= n <= functions.len(),
        all_plain(layouts),
        size_rounds::names_distinct(layouts),
    ensures
        ({
            let speed = layout_passes::speed_layouts(layouts, functions, plan, slot_liveness, n);
            &&& all_plain(speed)
            &&& size_rounds::names_distinct(speed)
            &&& speed.len() == layouts.len()
            &&& forall|i: int|
                0 <= i < layouts.len() ==> (#[trigger] speed[i]).0 == layouts[i].0
                    && speed[i].1.task_type == layouts[i].1.task_type
        }),
    decreases n,
{
    if n > 0 {
        speed_layouts_plain(layouts, functions, plan, slot_liveness, n - 1);
        let before = layout_passes::speed_layouts(
            layouts,
            functions,
            plan,
            slot_liveness,
            n - 1,
        );
        let after = layout_passes::speed_layouts(layouts, functions, plan, slot_liveness, n);
        let start = functions[n - 1].coroutine.cfg.span.start_byte;
        order::key_point_bounds(before, start, 0);
        let p = order::key_point(before, start, 0);
        if let (Some(layout), Some(lifetimes)) = (
            order::lookup(before, start),
            identity_layout::lifetimes_of(slot_liveness.functions@, n - 1, 0),
        ) {
            assert(before[p].1 == layout);
            let own = identity_layout::planned_at(plan, start);
            speed_plain(layout, own, lifetimes);
            put_plain(before, start, speed_layout::speed_layout(layout, own, lifetimes));
        }
        assert forall|i: int| 0 <= i < layouts.len() implies (#[trigger] after[i]).0
            == layouts[i].0 && after[i].1.task_type == layouts[i].1.task_type by {
            assert(before[i].0 == layouts[i].0);
        }
        assert forall|i: int, j: int| 0 <= i < j < after.len() implies (
        #[trigger] after[i]).1.task_type != (#[trigger] after[j]).1.task_type by {
            assert(layouts[i].1.task_type != layouts[j].1.task_type);
        }
    }
}

/// Whether no two asynchronous functions have one task type.
pub open spec fn task_types_distinct(functions: Seq<LivenessFunction>) -> bool {
    forall|i: int, j: int|
        0 <= i < j < functions.len() && (#[trigger] functions[i]).coroutine.cfg.is_async && (
        #[trigger] functions[j]).coroutine.cfg.is_async ==> functions[i].coroutine.task_type@
            != functions[j].coroutine.task_type@
}

/// Contexts of functions with different task types have different names.
pub proof fn identity_names(
    functions: Seq<LivenessFunction>,
    plan: Option<&CStaticAwaitPlan>,
    slot_liveness: SlotLivenessUnit,
)
    requires
        task_types_distinct(functions),
        context_soundness::contexts_fit(functions, plan, slot_liveness),
    ensures
        size_rounds::names_distinct(
            identity_layout::identity_layouts(
                functions,
                plan,
                slot_liveness,
                functions.len() as int,
            ),
        ),
{
    let n = functions.len() as int;
    let layouts = identity_layout::identity_layouts(functions, plan, slot_liveness, n);
    identity_plain(functions, plan, slot_liveness, n);
    assert forall|i: int, j: int| 0 <= i < j < layouts.len() implies (
    #[trigger] layouts[i]).1.task_type != (#[trigger] layouts[j]).1.task_type by {
        let a = choose|k: int|
            0 <= k < functions.len() && context_soundness::start_of(functions, k)
                == layouts[i].0 && functions[k].coroutine.cfg.is_async && (
            #[trigger] functions[k]).coroutine.task_type@ == layouts[i].1.task_type;
        let b = choose|k: int|
            0 <= k < functions.len() && context_soundness::start_of(functions, k)
                == layouts[j].0 && functions[k].coroutine.cfg.is_async && (
            #[trigger] functions[k]).coroutine.task_type@ == layouts[j].1.task_type;
        assert(order::Key::rank_spec(&layouts[i].0) < order::Key::rank_spec(&layouts[j].0));
        if a < b {
            assert(functions[a].coroutine.task_type@ != functions[b].coroutine.task_type@);
        } else {
            assert(functions[b].coroutine.task_type@ != functions[a].coroutine.task_type@);
        }
    }
}

/// The levels that share more storage never cost size: a context whose size is
/// known where values of one type share storage has a known size at both
/// levels that share more, and is no larger there. This holds of contexts that
/// hold other contexts, too.
pub proof fn sharing_more_never_costs_size(
    functions: Seq<LivenessFunction>,
    plan: Option<&CStaticAwaitPlan>,
    slot_liveness: SlotLivenessUnit,
    level: OptimizationLevel,
    target: TargetConfig,
    packing_barrier: bool,
    i: int,
)
    requires
        task_types_distinct(functions),
        context_soundness::contexts_fit(functions, plan, slot_liveness),
        level == OptimizationLevel::Size || level == OptimizationLevel::Aggressive,
        0 <= i < layout_passes::context_layouts(
            functions,
            plan,
            slot_liveness,
            OptimizationLevel::Speed,
            target,
            packing_barrier,
        ).len(),
    ensures
        ({
            let speed = layout_passes::context_layouts(
                functions,
                plan,
                slot_liveness,
                OptimizationLevel::Speed,
                target,
                packing_barrier,
            );
            let sized = layout_passes::context_layouts(
                functions,
                plan,
                slot_liveness,
                level,
                target,
                packing_barrier,
            );
            &&& sized.len() == speed.len()
            &&& sized[i].0 == speed[i].0
            &&& size_laws::known_size(speed[i].1) is Some ==> size_laws::no_larger(
                sized[i].1,
                speed[i].1,
            )
        }),
{
    let n = functions.len() as int;
    let identity = identity_layout::identity_layouts(functions, plan, slot_liveness, n);
    identity_plain(functions, plan, slot_liveness, n);
    identity_names(functions, plan, slot_liveness);
    speed_layouts_plain(identity, functions, plan, slot_liveness, n);
    let speed = layout_passes::speed_layouts(identity, functions, plan, slot_liveness, n);
    if identity_layout::identity_problems(functions, slot_liveness, n).len() == 0 {
        layout_knowledge::knowledge_keeps_layouts(speed, target, packing_barrier);
        size_passes_keep_sizes(
            speed,
            functions,
            plan,
            slot_liveness,
            level == OptimizationLevel::Aggressive,
            target,
            packing_barrier,
            i,
        );
    }
}

} // verus!
