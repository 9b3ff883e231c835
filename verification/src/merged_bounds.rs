//! The bound that the search for the smallest context uses is never above what
//! a context costs, so a search that finishes finds the cheapest one.

use vstd::prelude::*;

use crate::c_static_plan::FunctionPlanView;
use crate::color_sums;
use crate::context_layout;
use crate::context_layout::{MemberView, PhysicalSlotKind, SlotView};
use crate::layout_check;
use crate::layout_knowledge;
use crate::liveness::LivenessFunction;
use crate::order;
use crate::placement;
use crate::placement::{GraphView, PlacementBounds, PlacementCost, UNCOLORED};
use crate::placement_laws;
use crate::slot_liveness::SlotLivenessFunction;
use crate::slot_merging;
use crate::slot_sharing;
use crate::slot_sharing::NodeView;
use crate::target_layout;
use crate::target_layout::{Known, TargetLayoutModel, TypeLayout};

verus! {

/// How many nodes stand for one of the first `n` slots.
pub open spec fn begun(nodes: Seq<NodeView>, n: int) -> nat
    decreases n,
{
    if n <= 0 {
        0
    } else if slot_merging::node_at(nodes, n - 1, 0) is Some {
        begun(nodes, n - 1) + 1
    } else {
        begun(nodes, n - 1)
    }
}

proof fn begun_counts(nodes: Seq<NodeView>, slots: int, n: int)
    requires
        slot_sharing::nodes_ok(nodes, slots),
        0 <= n,
    ensures
        begun(nodes, n) <= nodes.len(),
        forall|j: int|
            0 <= j < nodes.len() ==> ((#[trigger] nodes[j]).original_slot < n <==> j < begun(
                nodes,
                n,
            )),
        match slot_merging::node_at(nodes, n, 0) {
            Some(k) => k == begun(nodes, n),
            None => true,
        },
    decreases n,
{
    if n > 0 {
        begun_counts(nodes, slots, n - 1);
        slot_merging::node_at_finds(nodes, n - 1, 0);
        match slot_merging::node_at(nodes, n - 1, 0) {
            Some(k) => {
                assert(nodes[k].original_slot == n - 1);
                assert forall|j: int| 0 <= j < nodes.len() implies ((
                #[trigger] nodes[j]).original_slot < n <==> j < k + 1) by {
                    if j < k {
                        assert(nodes[j].original_slot < nodes[k].original_slot);
                    } else if k < j {
                        assert(nodes[k].original_slot < nodes[j].original_slot);
                    }
                }
            },
            None => {
                assert forall|j: int| 0 <= j < nodes.len() implies ((
                #[trigger] nodes[j]).original_slot < n <==> j < begun(nodes, n - 1)) by {
                    assert(nodes[j].original_slot != n - 1);
                }
            },
        }
    }
    slot_merging::node_at_finds(nodes, n, 0);
    if let Some(k) = slot_merging::node_at(nodes, n, 0) {
        let j = begun(nodes, n) as int;
        assert(nodes[k].original_slot == n);
        if j < k {
            assert(nodes[j].original_slot < nodes[k].original_slot);
        }
    }
}

/// The size of a slot, where it is known.
pub open spec fn slot_size(
    model: TargetLayoutModel,
    slot: SlotView,
    generated: Seq<(Seq<char>, TypeLayout)>,
) -> nat {
    match layout_knowledge::slot_layout(model, slot, generated) {
        Known::Exact(layout) => layout.size as nat,
        Known::Unknown(reason) => 0,
    }
}

/// The sizes of the first `n` slots together.
pub open spec fn size_sum(
    model: TargetLayoutModel,
    slots: Seq<SlotView>,
    generated: Seq<(Seq<char>, TypeLayout)>,
    n: int,
) -> nat
    decreases n,
{
    if n <= 0 {
        0
    } else {
        size_sum(model, slots, generated, n - 1) + slot_size(model, slots[n - 1], generated)
    }
}

proof fn size_sum_prefix(
    model: TargetLayoutModel,
    slots: Seq<SlotView>,
    slot: SlotView,
    generated: Seq<(Seq<char>, TypeLayout)>,
    n: int,
)
    requires
        n <= slots.len(),
    ensures
        size_sum(model, slots.push(slot), generated, n) == size_sum(model, slots, generated, n),
    decreases n,
{
    if n > 0 {
        size_sum_prefix(model, slots, slot, generated, n - 1);
        assert(slots.push(slot)[n - 1] == slots[n - 1]);
    }
}

/// The sizes of the first `n` fields together.
spec fn field_sum(fields: Seq<TypeLayout>, n: int) -> nat
    decreases n,
{
    if n <= 0 {
        0
    } else {
        field_sum(fields, n - 1) + fields[n - 1].size as nat
    }
}

proof fn field_sum_prefix(fields: Seq<TypeLayout>, field: TypeLayout, n: int)
    requires
        n <= fields.len(),
    ensures
        field_sum(fields.push(field), n) == field_sum(fields, n),
    decreases n,
{
    if n > 0 {
        field_sum_prefix(fields, field, n - 1);
        assert(fields.push(field)[n - 1] == fields[n - 1]);
    }
}

proof fn structure_holds_fields(fields: Seq<TypeLayout>, n: int)
    requires
        n <= fields.len(),
    ensures
        match target_layout::placed_fields(fields, n) {
            Some(placed) => placed.0 >= field_sum(fields, n),
            None => true,
        },
    decreases n,
{
    if n > 0 {
        structure_holds_fields(fields, n - 1);
        if let Some(placed) = target_layout::placed_fields(fields, n - 1) {
            target_layout::aligned_bounds(placed.0, fields[n - 1].align as nat);
        }
    }
}

proof fn slot_layouts_sum(
    model: TargetLayoutModel,
    slots: Seq<SlotView>,
    generated: Seq<(Seq<char>, TypeLayout)>,
    n: int,
)
    requires
        0 <= n <= slots.len(),
    ensures
        match layout_knowledge::slot_layouts(model, slots, generated, n) {
            Known::Exact(layouts) => {
                &&& layouts.len() == n
                &&& field_sum(layouts, n) == size_sum(model, slots, generated, n)
                &&& forall|i: int|
                    0 <= i < n ==> layout_knowledge::slot_layout(
                        model,
                        #[trigger] slots[i],
                        generated,
                    ) is Exact
            },
            Known::Unknown(reason) => true,
        },
    decreases n,
{
    if n > 0 {
        slot_layouts_sum(model, slots, generated, n - 1);
        if let Known::Exact(before) = layout_knowledge::slot_layouts(
            model,
            slots,
            generated,
            n - 1,
        ) {
            if let Known::Exact(layout) = layout_knowledge::slot_layout(
                model,
                slots[n - 1],
                generated,
            ) {
                field_sum_prefix(before, layout, n - 1);
            }
        }
    }
}

/// A context of known size holds its slots.
proof fn context_holds_slots(
    model: TargetLayoutModel,
    slots: Seq<SlotView>,
    generated: Seq<(Seq<char>, TypeLayout)>,
)
    ensures
        match layout_knowledge::context_layout_of(model, slots, generated) {
            Known::Exact(known) => {
                &&& known.size >= size_sum(model, slots, generated, slots.len() as int)
                &&& forall|i: int|
                    0 <= i < slots.len() ==> layout_knowledge::slot_layout(
                        model,
                        #[trigger] slots[i],
                        generated,
                    ) is Exact
            },
            Known::Unknown(reason) => true,
        },
{
    let n = slots.len() as int;
    slot_layouts_sum(model, slots, generated, n);
    if let Known::Exact(fields) = layout_knowledge::slot_layouts(model, slots, generated, n) {
        structure_holds_fields(fields, n);
        if let Some(placed) = target_layout::placed_fields(fields, n) {
            target_layout::aligned_bounds(placed.0, placed.1 as nat);
        }
    }
}

proof fn numbered_layouts(
    model: TargetLayoutModel,
    members: Seq<MemberView>,
    generated: Seq<(Seq<char>, TypeLayout)>,
    n: int,
)
    requires
        n <= members.len(),
    ensures
        layout_knowledge::member_layouts(
            model,
            context_layout::numbered(members),
            generated,
            n,
        ) == layout_knowledge::member_layouts(model, members, generated, n),
    decreases n,
{
    if n > 0 {
        numbered_layouts(model, members, generated, n - 1);
    }
}

/// Whether a slot is the one that members get.
pub open spec fn slot_for(slot: SlotView, members: Seq<MemberView>) -> bool {
    if members.len() > 1 {
        slot.kind == PhysicalSlotKind::Union && slot.members == context_layout::numbered(members)
    } else {
        slot.kind == PhysicalSlotKind::Direct && slot.members.len() == 1
            && slot.members[0].c_type == members[0].c_type
    }
}

/// A slot of known size holds each of its members.
proof fn slot_holds_members(
    model: TargetLayoutModel,
    slot: SlotView,
    members: Seq<MemberView>,
    generated: Seq<(Seq<char>, TypeLayout)>,
)
    requires
        members.len() > 0,
        slot_for(slot, members),
        layout_knowledge::slot_layout(model, slot, generated) is Exact,
    ensures
        match layout_knowledge::member_layouts(
            model,
            members,
            generated,
            members.len() as int,
        ) {
            Known::Exact(layouts) => slot_size(model, slot, generated)
                >= target_layout::largest_size(layouts, layouts.len() as int),
            Known::Unknown(reason) => false,
        },
{
    if members.len() > 1 {
        numbered_layouts(model, members, generated, members.len() as int);
        if let Known::Exact(layouts) = layout_knowledge::member_layouts(
            model,
            members,
            generated,
            members.len() as int,
        ) {
            let n = layouts.len() as int;
            target_layout::aligned_bounds(
                target_layout::largest_size(layouts, n) as nat,
                target_layout::largest_align(layouts, n) as nat,
            );
        }
    } else {
        reveal_with_fuel(layout_knowledge::member_layouts, 2);
        reveal_with_fuel(target_layout::largest_size, 2);
    }
}

proof fn largest_size_joined(a: Seq<TypeLayout>, b: Seq<TypeLayout>, n: int)
    requires
        0 <= n <= b.len(),
    ensures
        target_layout::largest_size(a + b, a.len() + n) >= target_layout::largest_size(
            a,
            a.len() as int,
        ),
        target_layout::largest_size(a + b, a.len() + n) >= target_layout::largest_size(b, n),
    decreases n,
{
    if n > 0 {
        largest_size_joined(a, b, n - 1);
        assert((a + b)[a.len() + n - 1] == b[n - 1]);
    } else {
        largest_size_prefix(a, b, a.len() as int);
    }
}

proof fn largest_size_prefix(a: Seq<TypeLayout>, b: Seq<TypeLayout>, n: int)
    requires
        n <= a.len(),
    ensures
        target_layout::largest_size(a + b, n) == target_layout::largest_size(a, n),
    decreases n,
{
    if n > 0 {
        largest_size_prefix(a, b, n - 1);
        assert((a + b)[n - 1] == a[n - 1]);
    }
}

proof fn joined_layouts(
    model: TargetLayoutModel,
    a: Seq<MemberView>,
    b: Seq<MemberView>,
    generated: Seq<(Seq<char>, TypeLayout)>,
    n: int,
)
    requires
        0 <= n <= b.len(),
        layout_knowledge::member_layouts(model, a + b, generated, a.len() + n) is Exact,
    ensures
        match (
            layout_knowledge::member_layouts(model, a, generated, a.len() as int),
            layout_knowledge::member_layouts(model, b, generated, n),
            layout_knowledge::member_layouts(model, a + b, generated, a.len() + n),
        ) {
            (Known::Exact(first), Known::Exact(second), Known::Exact(both)) => both == first
                + second && second.len() == n,
            _ => false,
        },
    decreases n,
{
    if n > 0 {
        assert((a + b)[a.len() + n - 1] == b[n - 1]);
        joined_layouts(model, a, b, generated, n - 1);
        if let (Known::Exact(first), Known::Exact(second), Known::Exact(both)) = (
            layout_knowledge::member_layouts(model, a, generated, a.len() as int),
            layout_knowledge::member_layouts(model, b, generated, n),
            layout_knowledge::member_layouts(model, a + b, generated, a.len() + n),
        ) {
            assert(both =~= first + second);
        }
    } else {
        prefix_layouts(model, a, b, generated, a.len() as int);
        if let (Known::Exact(first), Known::Exact(both)) = (
            layout_knowledge::member_layouts(model, a, generated, a.len() as int),
            layout_knowledge::member_layouts(model, a + b, generated, a.len() + n),
        ) {
            assert(both =~= first + Seq::<TypeLayout>::empty());
        }
    }
}

proof fn prefix_layouts(
    model: TargetLayoutModel,
    a: Seq<MemberView>,
    b: Seq<MemberView>,
    generated: Seq<(Seq<char>, TypeLayout)>,
    n: int,
)
    requires
        n <= a.len(),
    ensures
        layout_knowledge::member_layouts(model, a + b, generated, n)
            == layout_knowledge::member_layouts(model, a, generated, n),
    decreases n,
{
    if n > 0 {
        prefix_layouts(model, a, b, generated, n - 1);
        assert((a + b)[n - 1] == a[n - 1]);
    }
}

/// Whether a node weighs as much as the largest member of its slot.
pub open spec fn node_weighs(
    node: NodeView,
    slots: Seq<SlotView>,
    model: TargetLayoutModel,
    generated: Seq<(Seq<char>, TypeLayout)>,
) -> bool {
    let members = slots[node.original_slot as int].members;
    slot_sharing::members_size(model, members, generated) == Known::Exact(node.weight)
}

proof fn nodes_weigh(
    slots: Seq<SlotView>,
    plan: Option<FunctionPlanView>,
    function: LivenessFunction,
    model: TargetLayoutModel,
    generated: Seq<(Seq<char>, TypeLayout)>,
    n: int,
)
    requires
        0 <= n <= slots.len() <= usize::MAX,
    ensures
        forall|k: int|
            0 <= k < slot_sharing::nodes_of(slots, plan, function, model, generated, n).len()
                ==> node_weighs(
                #[trigger] slot_sharing::nodes_of(
                    slots,
                    plan,
                    function,
                    model,
                    generated,
                    n,
                )[k],
                slots,
                model,
                generated,
            ),
    decreases n,
{
    if n > 0 {
        nodes_weigh(slots, plan, function, model, generated, n - 1);
        let before = slot_sharing::nodes_of(slots, plan, function, model, generated, n - 1);
        let after = slot_sharing::nodes_of(slots, plan, function, model, generated, n);
        assert forall|k: int| 0 <= k < after.len() implies node_weighs(
            #[trigger] after[k],
            slots,
            model,
            generated,
        ) by {
            if k < before.len() {
                assert(after[k] == before[k]);
            }
        }
    }
}

/// Whether a graph weighs the nodes of slots.
pub open spec fn graph_fits(
    graph: GraphView,
    slots: Seq<SlotView>,
    nodes: Seq<NodeView>,
    model: TargetLayoutModel,
    generated: Seq<(Seq<char>, TypeLayout)>,
) -> bool {
    &&& slot_sharing::nodes_ok(nodes, slots.len() as int)
    &&& graph.weights.len() == nodes.len()
    &&& graph.access_weights.len() == nodes.len()
    &&& forall|k: int|
        0 <= k < nodes.len() ==> {
            &&& node_weighs(#[trigger] nodes[k], slots, model, generated)
            &&& graph.weights[k] == nodes[k].weight
            &&& graph.access_weights[k] == slots[nodes[k].original_slot as int].members.len()
        }
}

/// A color weighs no more than the largest of its members, and has as many
/// members as its nodes together.
proof fn color_members_weigh(
    graph: GraphView,
    slots: Seq<SlotView>,
    nodes: Seq<NodeView>,
    colors: Seq<usize>,
    color: usize,
    model: TargetLayoutModel,
    generated: Seq<(Seq<char>, TypeLayout)>,
    n: int,
)
    requires
        graph_fits(graph, slots, nodes, model, generated),
        0 <= n <= nodes.len(),
    ensures
        ({
            let members = slot_merging::color_members(slots, nodes, colors, color, n);
            &&& placement::color_access(graph, colors, color, n) == members.len()
            &&& match layout_knowledge::member_layouts(
                model,
                members,
                generated,
                members.len() as int,
            ) {
                Known::Exact(layouts) => placement::color_weight(graph, colors, color, n)
                    <= target_layout::largest_size(layouts, layouts.len() as int),
                Known::Unknown(reason) => true,
            }
        }),
    decreases n,
{
    if n > 0 {
        color_members_weigh(graph, slots, nodes, colors, color, model, generated, n - 1);
        if colors[n - 1] == color {
            let before = slot_merging::color_members(slots, nodes, colors, color, n - 1);
            let own = slots[nodes[n - 1].original_slot as int].members;
            let members = before + own;
            assert(node_weighs(nodes[n - 1], slots, model, generated));
            if layout_knowledge::member_layouts(
                model,
                members,
                generated,
                members.len() as int,
            ) is Exact {
                joined_layouts(model, before, own, generated, own.len() as int);
                if let (Known::Exact(first), Known::Exact(second)) = (
                    layout_knowledge::member_layouts(
                        model,
                        before,
                        generated,
                        before.len() as int,
                    ),
                    layout_knowledge::member_layouts(model, own, generated, own.len() as int),
                ) {
                    largest_size_joined(first, second, second.len() as int);
                }
            }
        }
    }
}

/// The members of the shared slots among the first `n`.
pub open spec fn shared_sum(slots: Seq<SlotView>, n: int) -> nat
    decreases n,
{
    if n <= 0 {
        0
    } else {
        shared_sum(slots, n - 1) + if slots[n - 1].kind == PhysicalSlotKind::Union {
            slots[n - 1].members.len()
        } else {
            0
        }
    }
}

proof fn shared_sum_prefix(slots: Seq<SlotView>, slot: SlotView, n: int)
    requires
        n <= slots.len(),
    ensures
        shared_sum(slots.push(slot), n) == shared_sum(slots, n),
    decreases n,
{
    if n > 0 {
        shared_sum_prefix(slots, slot, n - 1);
        assert(slots.push(slot)[n - 1] == slots[n - 1]);
    }
}

proof fn shared_members_capped(slots: Seq<SlotView>, n: int)
    ensures
        slot_merging::shared_members(slots, n) == if shared_sum(slots, n) > u64::MAX {
            u64::MAX as nat
        } else {
            shared_sum(slots, n)
        },
    decreases n,
{
    if n > 0 {
        shared_members_capped(slots, n - 1);
    }
}

/// The members of the first `n` slots.
pub open spec fn member_sum(slots: Seq<SlotView>, n: int) -> nat
    decreases n,
{
    if n <= 0 {
        0
    } else {
        member_sum(slots, n - 1) + slots[n - 1].members.len()
    }
}

/// What the colors of a placement weigh, by their first nodes.
pub open spec fn head_weight(graph: GraphView, colors: Seq<usize>) -> spec_fn(int) -> nat {
    |k: int| placement::color_weight(graph, colors, colors[k], colors.len() as int) as nat
}

/// What the colors of a placement cost in accesses, by their first nodes.
pub open spec fn head_access(graph: GraphView, colors: Seq<usize>) -> spec_fn(int) -> nat {
    |k: int|
        color_sums::access_cost(
            placement::color_access(graph, colors, colors[k], colors.len() as int),
        )
}

/// What the first `n` old slots cost at least once they are merged.
spec fn prefix_bounded(
    graph: GraphView,
    slots: Seq<SlotView>,
    nodes: Seq<NodeView>,
    colors: Seq<usize>,
    model: TargetLayoutModel,
    generated: Seq<(Seq<char>, TypeLayout)>,
    merged: Seq<SlotView>,
    fixed: PlacementBounds,
    n: int,
) -> bool {
    let count = begun(nodes, n) as int;
    &&& (forall|i: int|
        0 <= i < merged.len() ==> layout_knowledge::slot_layout(
            model,
            #[trigger] merged[i],
            generated,
        ) is Exact) ==> size_sum(model, merged, generated, merged.len() as int)
        >= fixed.fixed_storage_size + color_sums::weigh(
        colors,
        head_weight(graph, colors),
        Set::empty(),
        count,
    )
    &&& merged.len() == fixed.fixed_slot_count + color_sums::weigh(
        colors,
        |k: int| 1nat,
        Set::empty(),
        count,
    )
    &&& merged.len() <= n
    &&& shared_sum(merged, merged.len() as int) == fixed.fixed_access_complexity
        + color_sums::weigh(colors, head_access(graph, colors), Set::empty(), count)
    &&& fixed.fixed_access_complexity + color_sums::access_sum(graph, count) <= member_sum(
        slots,
        n,
    )
}

proof fn pushed_slot_bounded(
    model: TargetLayoutModel,
    merged: Seq<SlotView>,
    slot: SlotView,
    members: Seq<MemberView>,
    generated: Seq<(Seq<char>, TypeLayout)>,
)
    requires
        members.len() > 0,
        slot_for(slot, members),
    ensures
        shared_sum(merged.push(slot), merged.len() as int + 1) == shared_sum(
            merged,
            merged.len() as int,
        ) + color_sums::access_cost(members.len()),
        size_sum(model, merged.push(slot), generated, merged.len() as int + 1) == size_sum(
            model,
            merged,
            generated,
            merged.len() as int,
        ) + slot_size(model, slot, generated),
        layout_knowledge::slot_layout(model, slot, generated) is Exact ==> match (
        layout_knowledge::member_layouts(model, members, generated, members.len() as int)) {
            Known::Exact(layouts) => slot_size(model, slot, generated)
                >= target_layout::largest_size(layouts, layouts.len() as int),
            Known::Unknown(reason) => false,
        },
{
    shared_sum_prefix(merged, slot, merged.len() as int);
    size_sum_prefix(model, merged, slot, generated, merged.len() as int);
    assert(merged.push(slot)[merged.len() as int] == slot);
    if layout_knowledge::slot_layout(model, slot, generated) is Exact {
        slot_holds_members(model, slot, members, generated);
    }
}

proof fn merged_prefix_bounded(
    graph: GraphView,
    slots: Seq<SlotView>,
    nodes: Seq<NodeView>,
    colors: Seq<usize>,
    model: TargetLayoutModel,
    generated: Seq<(Seq<char>, TypeLayout)>,
    n: int,
)
    requires
        graph_fits(graph, slots, nodes, model, generated),
        colors.len() == nodes.len(),
        0 <= n <= slots.len() <= u32::MAX,
        forall|s: int| 0 <= s < slots.len() ==> layout_check::well_shaped(#[trigger] slots[s], s),
        member_sum(slots, slots.len() as int) <= u64::MAX,
        slot_merging::fixed_cost(slots, nodes, model, generated, n) is Exact,
    ensures
        prefix_bounded(
            graph,
            slots,
            nodes,
            colors,
            model,
            generated,
            slot_merging::rebuild_slots(Seq::empty(), slots, nodes, colors, n).building.slots,
            slot_merging::fixed_cost(slots, nodes, model, generated, n)->Exact_0,
            n,
        ),
    decreases n,
{
    if n > 0 {
        merged_prefix_bounded(graph, slots, nodes, colors, model, generated, n - 1);
        let before = slot_merging::rebuild_slots(Seq::empty(), slots, nodes, colors, n - 1);
        let after = slot_merging::rebuild_slots(Seq::empty(), slots, nodes, colors, n);
        let old_slots = before.building.slots;
        let new_slots = after.building.slots;
        member_sum_grows(slots, n, slots.len() as int);
        begun_counts(nodes, slots.len() as int, n - 1);
        slot_merging::node_at_finds(nodes, n - 1, 0);
        match slot_merging::node_at(nodes, n - 1, 0) {
            Some(k) => {
                assert(k == begun(nodes, n - 1));
                assert(node_weighs(nodes[k], slots, model, generated));
                if placement::first_with(colors, colors[k], k) is None {
                    let members = slot_merging::color_members(
                        slots,
                        nodes,
                        colors,
                        colors[k],
                        nodes.len() as int,
                    );
                    color_members_weigh(
                        graph,
                        slots,
                        nodes,
                        colors,
                        colors[k],
                        model,
                        generated,
                        nodes.len() as int,
                    );
                    assert(layout_check::well_shaped(slots[n - 1], n - 1));
                    color_access_counts(graph, colors, k, nodes.len() as int);
                    assert(members.len() > 0);
                    let slot = new_slots[old_slots.len() as int];
                    assert(new_slots =~= old_slots.push(slot));
                    assert(slot_for(slot, members));
                    pushed_slot_bounded(model, old_slots, slot, members, generated);
                    all_known_before(model, old_slots, slot, generated);
                }
            },
            None => {
                let members = slots[n - 1].members;
                assert(layout_check::well_shaped(slots[n - 1], n - 1));
                let slot = new_slots[old_slots.len() as int];
                assert(new_slots =~= old_slots.push(slot));
                assert(slot_for(slot, members));
                pushed_slot_bounded(model, old_slots, slot, members, generated);
                all_known_before(model, old_slots, slot, generated);
            },
        }
    }
}

proof fn all_known_before(
    model: TargetLayoutModel,
    slots: Seq<SlotView>,
    slot: SlotView,
    generated: Seq<(Seq<char>, TypeLayout)>,
)
    ensures
        (forall|i: int|
            0 <= i < slots.len() + 1 ==> layout_knowledge::slot_layout(
                model,
                #[trigger] slots.push(slot)[i],
                generated,
            ) is Exact) ==> {
            &&& layout_knowledge::slot_layout(model, slot, generated) is Exact
            &&& forall|i: int|
                0 <= i < slots.len() ==> layout_knowledge::slot_layout(
                    model,
                    #[trigger] slots[i],
                    generated,
                ) is Exact
        },
{
    let all = slots.push(slot);
    if forall|i: int|
        0 <= i < slots.len() + 1 ==> layout_knowledge::slot_layout(
            model,
            #[trigger] slots.push(slot)[i],
            generated,
        ) is Exact {
        assert(all[slots.len() as int] == slot);
        assert forall|i: int| 0 <= i < slots.len() implies layout_knowledge::slot_layout(
            model,
            #[trigger] slots[i],
            generated,
        ) is Exact by {
            assert(all[i] == slots[i]);
        }
    }
}

proof fn member_sum_grows(slots: Seq<SlotView>, m: int, n: int)
    requires
        m <= n,
    ensures
        member_sum(slots, m) <= member_sum(slots, n),
    decreases n - m,
{
    if m < n {
        member_sum_grows(slots, m, n - 1);
    }
}

proof fn color_access_counts(graph: GraphView, colors: Seq<usize>, k: int, n: int)
    requires
        0 <= k < n,
    ensures
        placement::color_access(graph, colors, colors[k], n) >= graph.access_weights[k],
    decreases n,
{
    if k < n - 1 {
        color_access_counts(graph, colors, k, n - 1);
    }
}

/// The bound of a part of a placement is never above what the placement costs.
pub proof fn merged_bounds_are_admissible(
    graph: GraphView,
    slots: Seq<SlotView>,
    nodes: Seq<NodeView>,
    model: TargetLayoutModel,
    generated: Seq<(Seq<char>, TypeLayout)>,
    bounds: PlacementBounds,
)
    requires
        graph_fits(graph, slots, nodes, model, generated),
        slots.len() < u32::MAX,
        forall|s: int| 0 <= s < slots.len() ==> layout_check::well_shaped(#[trigger] slots[s], s),
        member_sum(slots, slots.len() as int) <= u64::MAX,
        slot_merging::fixed_cost(slots, nodes, model, generated, slots.len() as int)
            == Known::Exact(bounds),
        nodes.len() <= slots.len(),
    ensures
        placement_laws::bound_admissible(
            graph,
            bounds,
            slot_merging::merged_costs(slots, nodes, model, generated),
        ),
{
    let costs = slot_merging::merged_costs(slots, nodes, model, generated);
    let n = slots.len() as int;
    assert forall|p: Seq<usize>, c: Seq<usize>|
        p.len() == graph.weights.len() && placement_laws::complete(c)
            && #[trigger] placement_laws::agrees(p, c) && placement::colors_ok(p)
            && placement_laws::gapless(p) implies match costs(c) {
        Some(cost) => !placement::cheaper(
            placement::bound_of(cost),
            placement::lower_bound(graph, bounds, p),
        ),
        None => true,
    } by {
        if let Some(cost) = costs(c) {
            let count = nodes.len() as int;
            let merged = slot_merging::merged_slots(slots, nodes, c);
            merged_prefix_bounded(graph, slots, nodes, c, model, generated, n);
            begun_counts(nodes, n, n);
            assert(begun(nodes, n) == count) by {
                if begun(nodes, n) < count {
                    assert(nodes[begun(nodes, n) as int].original_slot < n);
                }
            }
            context_holds_slots(model, merged, generated);
            placement::colored_bound(p, count);
            placement::used_colors_bound(p, count, placement::colored(p, count));
            let used = placement::used_colors(p, count) as int;
            color_sums::totals_are_sums(graph, p, used);
            let own_weight = |x: usize| placement::color_weight(graph, p, x, count) as nat;
            let own_access = |x: usize|
                color_sums::access_cost(placement::color_access(graph, p, x, count));
            let own_count = |x: usize| 1nat;
            assert forall|i: int| 0 <= i < p.len() && #[trigger] p[i] != UNCOLORED implies {
                &&& own_weight(p[i]) <= head_weight(graph, c)(color_sums::head_of(c, i))
                &&& own_access(p[i]) <= head_access(graph, c)(color_sums::head_of(c, i))
            } by {
                color_sums::color_grows(graph, p, c, i, count);
                placement::first_with_bounds(c, c[i], count);
                assert(c[color_sums::head_of(c, i)] == c[i]);
            }
            color_sums::partial_weighs_less(p, c, own_weight, head_weight(graph, c));
            color_sums::partial_weighs_less(p, c, own_access, head_access(graph, c));
            color_sums::partial_weighs_less(p, c, own_count, |k: int| 1nat);
            color_sums::total_access_within(graph, p, used);
            shared_members_capped(merged, merged.len() as int);
        }
    }
}

/// A search for the smallest context that finishes leaves no cheaper one: no
/// way to merge slots that hold values at different times gives a smaller
/// context, nor one of the same size with fewer slots, nor one with as many
/// slots and fewer shared members, than the one it ends with. Of the cheapest
/// ones it ends with the one whose renumbered colors come first.
pub proof fn finished_search_finds_the_cheapest_context(
    slots: Seq<SlotView>,
    plan: Option<FunctionPlanView>,
    function: LivenessFunction,
    lifetimes: SlotLivenessFunction,
    model: TargetLayoutModel,
    generated: Seq<(Seq<char>, TypeLayout)>,
    bounds: PlacementBounds,
    budget: u64,
    initial_colors: Seq<usize>,
    incumbent_cost: PlacementCost,
    goal: Seq<usize>,
)
    requires
        slots.len() < u32::MAX,
        forall|s: int| 0 <= s < slots.len() ==> layout_check::well_shaped(#[trigger] slots[s], s),
        member_sum(slots, slots.len() as int) <= u64::MAX,
        ({
            let nodes = slot_sharing::nodes_of(
                slots,
                plan,
                function,
                model,
                generated,
                slots.len() as int,
            );
            let graph = slot_sharing::graph_of(slots, nodes, function, lifetimes);
            let costs = slot_merging::merged_costs(slots, nodes, model, generated);
            &&& slot_merging::fixed_cost(slots, nodes, model, generated, slots.len() as int)
                == Known::Exact(bounds)
            &&& goal.len() == nodes.len()
            &&& placement_laws::complete(goal)
            &&& placement_laws::proper(graph, goal)
            &&& costs(goal) is Some
            &&& !placement::search_from(
                graph,
                bounds,
                budget,
                costs,
                placement::start_of(initial_colors, incumbent_cost),
                placement::no_colors(graph.weights.len()),
            ).exhausted
        }),
    ensures
        ({
            let nodes = slot_sharing::nodes_of(
                slots,
                plan,
                function,
                model,
                generated,
                slots.len() as int,
            );
            let graph = slot_sharing::graph_of(slots, nodes, function, lifetimes);
            let costs = slot_merging::merged_costs(slots, nodes, model, generated);
            let r = placement::search_from(
                graph,
                bounds,
                budget,
                costs,
                placement::start_of(initial_colors, incumbent_cost),
                placement::no_colors(graph.weights.len()),
            );
            &&& !placement::cheaper(
                placement::bound_of(costs(goal)->0),
                placement::bound_of(r.best_cost),
            )
            &&& costs(goal)->0 == r.best_cost ==> !order::lex_lt(
                placement::colors_key(placement::canonical(goal, goal.len() as int)),
                placement::colors_key(r.best_colors),
            )
        }),
{
    let n = slots.len() as int;
    let nodes = slot_sharing::nodes_of(slots, plan, function, model, generated, n);
    let graph = slot_sharing::graph_of(slots, nodes, function, lifetimes);
    let costs = slot_merging::merged_costs(slots, nodes, model, generated);
    slot_sharing::nodes_of_ok(slots, plan, function, model, generated, n);
    slot_sharing::graph_of_ok(slots, nodes, function, lifetimes);
    nodes_weigh(slots, plan, function, model, generated, n);
    assert forall|k: int| 0 <= k < nodes.len() implies {
        &&& node_weighs(#[trigger] nodes[k], slots, model, generated)
        &&& graph.weights[k] == nodes[k].weight
        &&& graph.access_weights[k] == slots[nodes[k].original_slot as int].members.len()
    } by {
        let s = nodes[k].original_slot as int;
        member_sum_grows(slots, s + 1, n);
    }
    merged_bounds_are_admissible(graph, slots, nodes, model, generated, bounds);
    slot_merging::merged_costs_depend_on_grouping(slots, nodes, model, generated);
    placement_laws::finished_search_is_optimal(
        graph,
        bounds,
        budget,
        costs,
        initial_colors,
        incumbent_cost,
        goal,
    );
}

} // verus!
