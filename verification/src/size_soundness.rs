//! Sharing storage for size keeps context layouts sound.

use vstd::prelude::*;

use crate::c_static_plan::FunctionPlanView;
use crate::context_layout;
use crate::context_layout::{Building, LayoutView, LogicalFieldId, MemberView, SlotView};
use crate::identity_layout;
use crate::layout_check;
use crate::layout_soundness;
use crate::liveness::LivenessFunction;
use crate::order;
use crate::placement;
use crate::placement_laws;
use crate::slot_liveness::SlotLivenessFunction;
use crate::slot_merging;
use crate::slot_merging::Rebuilding;
use crate::slot_sharing;
use crate::slot_sharing::NodeView;
use crate::storage_lifetimes;
use crate::target_layout::{TargetLayoutModel, TypeLayout};

verus! {

/// Whether a node knows when the members of its slot hold values.
pub open spec fn node_knows(
    node: NodeView,
    slots: Seq<SlotView>,
    plan: Option<FunctionPlanView>,
    function: LivenessFunction,
) -> bool {
    let members = slots[node.original_slot as int].members;
    &&& node.original_slot < slots.len()
    &&& node.lifetimes.len() == members.len()
    &&& forall|x: int|
        0 <= x < members.len() ==> storage_lifetimes::lifetime_of(
            (#[trigger] members[x]).logical,
            plan,
            function,
        ) == Some(node.lifetimes[x])
}

proof fn member_lifetimes_known(
    members: Seq<MemberView>,
    plan: Option<FunctionPlanView>,
    function: LivenessFunction,
    n: int,
)
    requires
        0 <= n <= members.len(),
    ensures
        match slot_sharing::member_lifetimes(members, plan, function, n) {
            Some(lifetimes) => lifetimes.len() == n && forall|x: int|
                0 <= x < n ==> storage_lifetimes::lifetime_of(
                    (#[trigger] members[x]).logical,
                    plan,
                    function,
                ) == Some(lifetimes[x]),
            None => true,
        },
    decreases n,
{
    if n > 0 {
        member_lifetimes_known(members, plan, function, n - 1);
    }
}

/// Nodes know when the members of their slots hold values.
pub proof fn nodes_know(
    slots: Seq<SlotView>,
    plan: Option<FunctionPlanView>,
    function: LivenessFunction,
    model: TargetLayoutModel,
    generated: Seq<(Seq<char>, TypeLayout)>,
    n: int,
)
    requires
        0 <= n <= slots.len() <= usize::MAX,
    ensures
        forall|k: int|
            0 <= k < slot_sharing::nodes_of(slots, plan, function, model, generated, n).len()
                ==> node_knows(
                #[trigger] slot_sharing::nodes_of(
                    slots,
                    plan,
                    function,
                    model,
                    generated,
                    n,
                )[k],
                slots,
                plan,
                function,
            ),
    decreases n,
{
    if n > 0 {
        nodes_know(slots, plan, function, model, generated, n - 1);
        let before = slot_sharing::nodes_of(slots, plan, function, model, generated, n - 1);
        let after = slot_sharing::nodes_of(slots, plan, function, model, generated, n);
        let members = slots[n - 1].members;
        member_lifetimes_known(members, plan, function, members.len() as int);
        assert forall|k: int| 0 <= k < after.len() implies node_knows(
            #[trigger] after[k],
            slots,
            plan,
            function,
        ) by {
            if k < before.len() {
                assert(after[k] == before[k]);
            }
        }
    }
}

/// Whether members of slots with one color never hold values at the same time.
pub open spec fn colors_apart(
    nodes: Seq<NodeView>,
    colors: Seq<usize>,
    function: LivenessFunction,
    lifetimes: SlotLivenessFunction,
) -> bool {
    forall|j: int, k: int|
        0 <= j < k < nodes.len() && colors[j] == colors[k] ==> !slot_sharing::nodes_clash(
            #[trigger] nodes[j],
            #[trigger] nodes[k],
            function,
            lifetimes,
        )
}

/// A proper coloring keeps apart what holds values at the same time.
pub proof fn proper_colors_are_apart(
    slots: Seq<SlotView>,
    nodes: Seq<NodeView>,
    colors: Seq<usize>,
    function: LivenessFunction,
    lifetimes: SlotLivenessFunction,
)
    requires
        nodes.len() <= usize::MAX,
        colors.len() == nodes.len(),
        placement_laws::complete(colors),
        placement_laws::proper(
            slot_sharing::graph_of(slots, nodes, function, lifetimes),
            colors,
        ),
    ensures
        colors_apart(nodes, colors, function, lifetimes),
{
    let graph = slot_sharing::graph_of(slots, nodes, function, lifetimes);
    assert forall|j: int, k: int|
        0 <= j < k < nodes.len() && colors[j] == colors[k] implies !slot_sharing::nodes_clash(
        #[trigger] nodes[j],
        #[trigger] nodes[k],
        function,
        lifetimes,
    ) by {
        slot_sharing::neighbors_hold(nodes, j, function, lifetimes, nodes.len() as int);
        let neighbors = slot_sharing::neighbors_of(
            nodes,
            j,
            function,
            lifetimes,
            nodes.len() as int,
        );
        assert(graph.adjacency[j] == neighbors);
        assert(neighbors.contains(k as usize) <==> k < nodes.len() && slot_sharing::nodes_adjacent(
            nodes,
            j,
            k,
            function,
            lifetimes,
        ));
        assert(colors[j] != placement::UNCOLORED && colors[k] != placement::UNCOLORED);
        assert(!graph.adjacency[j].contains(k as usize));
    }
}

/// Members of different places are for different fields.
proof fn places_differ(building: Building, s: int, m: int, t: int, k: int)
    requires
        layout_soundness::well_placed(building),
        building.fields.len() <= u32::MAX,
        layout_soundness::has_member(building.slots, s, m),
        layout_soundness::has_member(building.slots, t, k),
        s != t || m != k,
    ensures
        building.slots[s].members[m].logical != building.slots[t].members[k].logical,
{
    layout_soundness::slots_fit(building);
    let first = layout_soundness::placement_of(building.slots, s, m);
    let second = layout_soundness::placement_of(building.slots, t, k);
    if building.slots[s].members[m].logical == building.slots[t].members[k].logical {
        assert(first == second);
        assert(s as u32 == t as u32 && m as u32 == k as u32);
    }
}

/// Whether a member comes from a slot of one of the first `n` nodes that have
/// a color.
pub open spec fn from_color(
    member: MemberView,
    slots: Seq<SlotView>,
    nodes: Seq<NodeView>,
    colors: Seq<usize>,
    color: usize,
    n: int,
) -> bool {
    exists|k: int, x: int|
        #![trigger layout_soundness::has_member(slots, nodes[k].original_slot as int, x)]
        0 <= k < n && colors[k] == color && layout_soundness::has_member(
            slots,
            nodes[k].original_slot as int,
            x,
        ) && slots[nodes[k].original_slot as int].members[x] == member
}

proof fn color_members_share(
    building: Building,
    nodes: Seq<NodeView>,
    colors: Seq<usize>,
    color: usize,
    plan: Option<FunctionPlanView>,
    function: LivenessFunction,
    lifetimes: SlotLivenessFunction,
    n: int,
)
    requires
        layout_soundness::well_placed(building),
        building.fields.len() <= u32::MAX,
        forall|s: int|
            0 <= s < building.slots.len() ==> layout_soundness::slot_shares(
                #[trigger] building.slots[s],
                plan,
                function,
                lifetimes,
            ),
        slot_sharing::nodes_ok(nodes, building.slots.len() as int),
        forall|k: int|
            0 <= k < nodes.len() ==> node_knows(
                #[trigger] nodes[k],
                building.slots,
                plan,
                function,
            ),
        colors.len() == nodes.len(),
        colors_apart(nodes, colors, function, lifetimes),
        0 <= n <= nodes.len(),
    ensures
        ({
            let members = slot_merging::color_members(building.slots, nodes, colors, color, n);
            &&& layout_soundness::members_distinct(members)
            &&& layout_soundness::members_apart(members, plan, function, lifetimes)
            &&& layout_check::all_shareable(members, plan, function)
            &&& forall|y: int|
                0 <= y < members.len() ==> from_color(
                    #[trigger] members[y],
                    building.slots,
                    nodes,
                    colors,
                    color,
                    n,
                )
            &&& forall|k: int, x: int|
                #![trigger layout_soundness::has_member(
                    building.slots,
                    nodes[k].original_slot as int,
                    x,
                )]
                0 <= k < n && colors[k] == color && layout_soundness::has_member(
                    building.slots,
                    nodes[k].original_slot as int,
                    x,
                ) ==> layout_soundness::listed(
                    members,
                    building.slots[nodes[k].original_slot as int].members[x].logical,
                )
        }),
    decreases n,
{
    let slots = building.slots;
    let members = slot_merging::color_members(slots, nodes, colors, color, n);
    if n > 0 {
        color_members_share(
            building,
            nodes,
            colors,
            color,
            plan,
            function,
            lifetimes,
            n - 1,
        );
        let before = slot_merging::color_members(slots, nodes, colors, color, n - 1);
        let s = nodes[n - 1].original_slot as int;
        let own = slots[s].members;
        let old_len = before.len() as int;
        assert(node_knows(nodes[n - 1], slots, plan, function));
        if colors[n - 1] == color {
            assert(layout_soundness::slot_shares(slots[s], plan, function, lifetimes));
            assert(members == before + own);
            assert forall|y: int| 0 <= y < members.len() implies {
                &&& from_color(#[trigger] members[y], slots, nodes, colors, color, n)
                &&& storage_lifetimes::lifetime_of(members[y].logical, plan, function) is Some
            } by {
                if y < old_len {
                    assert(members[y] == before[y]);
                    from_color_more(before[y], slots, nodes, colors, color, n);
                } else {
                    assert(members[y] == own[y - old_len]);
                    assert(layout_soundness::has_member(
                        slots,
                        nodes[n - 1].original_slot as int,
                        y - old_len,
                    ));
                }
            }
            assert forall|y: int, z: int| 0 <= y < z < members.len() implies {
                &&& (#[trigger] members[y]).logical != (#[trigger] members[z]).logical
                &&& !layout_check::members_clash(
                    members[y],
                    members[z],
                    plan,
                    function,
                    lifetimes,
                )
            } by {
                if z < old_len {
                    assert(members[y] == before[y] && members[z] == before[z]);
                } else if y >= old_len {
                    assert(members[y] == own[y - old_len] && members[z] == own[z - old_len]);
                    assert(layout_soundness::has_member(slots, s, y - old_len));
                    assert(layout_soundness::has_member(slots, s, z - old_len));
                    places_differ(building, s, y - old_len, s, z - old_len);
                } else {
                    assert(members[y] == before[y] && members[z] == own[z - old_len]);
                    assert(from_color(before[y], slots, nodes, colors, color, n - 1));
                    let (k, x) = choose|k: int, x: int|
                        #![trigger layout_soundness::has_member(
                            slots,
                            nodes[k].original_slot as int,
                            x,
                        )]
                        0 <= k < n - 1 && colors[k] == color && layout_soundness::has_member(
                            slots,
                            nodes[k].original_slot as int,
                            x,
                        ) && slots[nodes[k].original_slot as int].members[x] == before[y];
                    let t = nodes[k].original_slot as int;
                    assert(t < s);
                    assert(layout_soundness::has_member(slots, s, z - old_len));
                    places_differ(building, t, x, s, z - old_len);
                    assert(node_knows(nodes[k], slots, plan, function));
                    assert(!slot_sharing::nodes_clash(
                        nodes[k],
                        nodes[n - 1],
                        function,
                        lifetimes,
                    ));
                    assert(slots[t].members[x].logical == members[y].logical);
                    assert(storage_lifetimes::lifetime_of(
                        slots[t].members[x].logical,
                        plan,
                        function,
                    ) == Some(nodes[k].lifetimes[x]));
                    assert(storage_lifetimes::lifetime_of(
                        own[z - old_len].logical,
                        plan,
                        function,
                    ) == Some(nodes[n - 1].lifetimes[z - old_len]));
                }
            }
            assert forall|k: int, x: int|
                #![trigger layout_soundness::has_member(
                    slots,
                    nodes[k].original_slot as int,
                    x,
                )]
                0 <= k < n && colors[k] == color && layout_soundness::has_member(
                    slots,
                    nodes[k].original_slot as int,
                    x,
                ) implies layout_soundness::listed(
                members,
                slots[nodes[k].original_slot as int].members[x].logical,
            ) by {
                let field = slots[nodes[k].original_slot as int].members[x].logical;
                if k < n - 1 {
                    let y = choose|y: int|
                        0 <= y < before.len() && (#[trigger] before[y]).logical == field;
                    assert(members[y].logical == field);
                } else {
                    assert(members[old_len + x].logical == field);
                }
            }
        } else {
            assert forall|y: int| 0 <= y < members.len() implies from_color(
                #[trigger] members[y],
                slots,
                nodes,
                colors,
                color,
                n,
            ) by {
                from_color_more(members[y], slots, nodes, colors, color, n);
            }
        }
    }
}

proof fn from_color_more(
    member: MemberView,
    slots: Seq<SlotView>,
    nodes: Seq<NodeView>,
    colors: Seq<usize>,
    color: usize,
    n: int,
)
    ensures
        from_color(member, slots, nodes, colors, color, n - 1) ==> from_color(
            member,
            slots,
            nodes,
            colors,
            color,
            n,
        ),
{
    if from_color(member, slots, nodes, colors, color, n - 1) {
        let (k, x) = choose|k: int, x: int|
            #![trigger layout_soundness::has_member(slots, nodes[k].original_slot as int, x)]
            0 <= k < n - 1 && colors[k] == color && layout_soundness::has_member(
                slots,
                nodes[k].original_slot as int,
                x,
            ) && slots[nodes[k].original_slot as int].members[x] == member;
        assert(layout_soundness::has_member(slots, nodes[k].original_slot as int, x));
    }
}

/// Whether a slot before slot `n` has a color.
pub open spec fn color_begun(
    nodes: Seq<NodeView>,
    colors: Seq<usize>,
    color: usize,
    n: int,
) -> bool {
    exists|k: int|
        0 <= k < nodes.len() && colors[k] == color && (#[trigger] nodes[k]).original_slot < n
}

/// Whether the members of slot `j` were placed with the first `n` slots.
pub open spec fn slot_done(nodes: Seq<NodeView>, colors: Seq<usize>, j: int, n: int) -> bool {
    match slot_merging::node_at(nodes, j, 0) {
        Some(k) => color_begun(nodes, colors, colors[k], n),
        None => j < n,
    }
}

/// Whether a field is a member of a slot that was placed with the first `n`.
pub open spec fn field_done(
    slots: Seq<SlotView>,
    nodes: Seq<NodeView>,
    colors: Seq<usize>,
    field: LogicalFieldId,
    n: int,
) -> bool {
    exists|j: int, x: int| #[trigger]
        layout_soundness::has_member(slots, j, x) && slots[j].members[x].logical == field
            && slot_done(nodes, colors, j, n)
}

/// Where rebuilding stands after the first `n` old slots.
pub open spec fn rebuilt_so_far(
    rebuilt: Building,
    start: Building,
    nodes: Seq<NodeView>,
    colors: Seq<usize>,
    plan: Option<FunctionPlanView>,
    function: LivenessFunction,
    lifetimes: SlotLivenessFunction,
    n: int,
) -> bool {
    &&& layout_soundness::well_placed(rebuilt)
    &&& forall|s: int|
        0 <= s < rebuilt.slots.len() ==> layout_soundness::slot_shares(
            #[trigger] rebuilt.slots[s],
            plan,
            function,
            lifetimes,
        )
    &&& forall|field: LogicalFieldId|
        (#[trigger] order::lookup(rebuilt.fields, field)) is Some <==> order::lookup(
            start.fields,
            field,
        ) is Some
    &&& rebuilt.fields.len() == start.fields.len()
    &&& forall|field: LogicalFieldId| #[trigger]
        layout_soundness::holds(rebuilt.slots, field) <==> field_done(
            start.slots,
            nodes,
            colors,
            field,
            n,
        )
}

/// The node of a slot is the only one of that slot.
proof fn node_at_is(nodes: Seq<NodeView>, slots: int, k: int)
    requires
        slot_sharing::nodes_ok(nodes, slots),
        0 <= k < nodes.len(),
    ensures
        slot_merging::node_at(nodes, nodes[k].original_slot as int, 0) == Some(k),
{
    slot_merging::node_at_finds(nodes, nodes[k].original_slot as int, 0);
    match slot_merging::node_at(nodes, nodes[k].original_slot as int, 0) {
        Some(j) => {
            if j < k {
                assert(nodes[j].original_slot < nodes[k].original_slot);
            } else if k < j {
                assert(nodes[k].original_slot < nodes[j].original_slot);
            }
        },
        None => {},
    }
}

/// A field that was placed with earlier slots was placed with more of them.
proof fn field_done_more(
    slots: Seq<SlotView>,
    nodes: Seq<NodeView>,
    colors: Seq<usize>,
    field: LogicalFieldId,
    n: int,
)
    ensures
        field_done(slots, nodes, colors, field, n - 1) ==> field_done(
            slots,
            nodes,
            colors,
            field,
            n,
        ),
{
    if field_done(slots, nodes, colors, field, n - 1) {
        let (j, x) = choose|j: int, x: int| #[trigger]
            layout_soundness::has_member(slots, j, x) && slots[j].members[x].logical == field
                && slot_done(nodes, colors, j, n - 1);
        if let Some(k) = slot_merging::node_at(nodes, j, 0) {
            let i = choose|i: int|
                0 <= i < nodes.len() && colors[i] == colors[k] && (
                #[trigger] nodes[i]).original_slot < n - 1;
            assert(nodes[i].original_slot < n);
        }
        assert(slot_done(nodes, colors, j, n));
    }
}

/// Placing members that were not placed yet keeps what was rebuilt in order.
proof fn members_rebuilt(
    rebuilt: Building,
    after: Building,
    members: Seq<MemberView>,
    name: Seq<char>,
    start: Building,
    nodes: Seq<NodeView>,
    colors: Seq<usize>,
    plan: Option<FunctionPlanView>,
    function: LivenessFunction,
    lifetimes: SlotLivenessFunction,
    n: int,
)
    requires
        rebuilt_so_far(
            rebuilt,
            start,
            nodes,
            colors,
            plan,
            function,
            lifetimes,
            n - 1,
        ),
        members.len() > 0,
        after == if members.len() > 1 {
            context_layout::with_union(rebuilt, members, name)
        } else {
            context_layout::with_direct(rebuilt, members[0])
        },
        layout_soundness::members_distinct(members),
        layout_soundness::members_apart(members, plan, function, lifetimes),
        members.len() > 1 ==> layout_check::all_shareable(members, plan, function),
        forall|i: int|
            0 <= i < members.len() ==> order::lookup(
                start.fields,
                (#[trigger] members[i]).logical,
            ) is Some,
        forall|i: int|
            0 <= i < members.len() ==> !field_done(
                start.slots,
                nodes,
                colors,
                (#[trigger] members[i]).logical,
                n - 1,
            ),
        forall|field: LogicalFieldId| #[trigger]
            field_done(start.slots, nodes, colors, field, n) <==> field_done(
                start.slots,
                nodes,
                colors,
                field,
                n - 1,
            ) || layout_soundness::listed(members, field),
    ensures
        rebuilt_so_far(after, start, nodes, colors, plan, function, lifetimes, n),
{
    assert forall|i: int| 0 <= i < members.len() implies !layout_soundness::holds(
        rebuilt.slots,
        (#[trigger] members[i]).logical,
    ) && order::lookup(rebuilt.fields, members[i].logical) is Some by {}
    if members.len() > 1 {
        layout_soundness::union_well_placed(rebuilt, members, name);
    } else {
        layout_soundness::direct_well_placed(rebuilt, members[0]);
        assert forall|field: LogicalFieldId| #[trigger]
            layout_soundness::listed(members, field) <==> field == members[0].logical by {
            assert(members[0].logical == field ==> layout_soundness::listed(members, field));
        }
    }
    assert forall|field: LogicalFieldId|
        (#[trigger] order::lookup(after.fields, field)) is Some <==> order::lookup(
            start.fields,
            field,
        ) is Some by {
        if layout_soundness::listed(members, field) {
            let i = choose|i: int|
                0 <= i < members.len() && (#[trigger] members[i]).logical == field;
            assert(order::lookup(start.fields, members[i].logical) is Some);
        }
    }
    assert forall|field: LogicalFieldId| #[trigger]
        layout_soundness::holds(after.slots, field) <==> field_done(
            start.slots,
            nodes,
            colors,
            field,
            n,
        ) by {
        assert(layout_soundness::holds(rebuilt.slots, field) <==> field_done(
            start.slots,
            nodes,
            colors,
            field,
            n - 1,
        ));
    }
    assert forall|s: int| 0 <= s < after.slots.len() implies layout_soundness::slot_shares(
        #[trigger] after.slots[s],
        plan,
        function,
        lifetimes,
    ) by {
        if s < rebuilt.slots.len() {
            assert(after.slots[s] == rebuilt.slots[s]);
        } else if members.len() > 1 {
            numbered_share(members, plan, function, lifetimes);
        }
    }
}

proof fn numbered_share(
    members: Seq<MemberView>,
    plan: Option<FunctionPlanView>,
    function: LivenessFunction,
    lifetimes: SlotLivenessFunction,
)
    requires
        layout_soundness::members_apart(members, plan, function, lifetimes),
        layout_check::all_shareable(members, plan, function),
    ensures
        layout_soundness::members_apart(
            context_layout::numbered(members),
            plan,
            function,
            lifetimes,
        ),
        layout_check::all_shareable(context_layout::numbered(members), plan, function),
{
    let shown = context_layout::numbered(members);
    assert forall|i: int| 0 <= i < shown.len() implies storage_lifetimes::lifetime_of(
        (#[trigger] shown[i]).logical,
        plan,
        function,
    ) is Some by {
        assert(shown[i].logical == members[i].logical);
    }
    assert forall|i: int, j: int| 0 <= i < j < shown.len() implies !layout_check::members_clash(
        #[trigger] shown[i],
        #[trigger] shown[j],
        plan,
        function,
        lifetimes,
    ) by {
        assert(!layout_check::members_clash(members[i], members[j], plan, function, lifetimes));
    }
}

/// Whether nodes and colors fit a building, so that its slots can be merged by
/// color.
pub open spec fn can_merge(
    building: Building,
    nodes: Seq<NodeView>,
    colors: Seq<usize>,
    plan: Option<FunctionPlanView>,
    function: LivenessFunction,
    lifetimes: SlotLivenessFunction,
) -> bool {
    &&& layout_soundness::well_placed(building)
    &&& building.fields.len() <= u32::MAX
    &&& forall|s: int|
        0 <= s < building.slots.len() ==> layout_soundness::slot_shares(
            #[trigger] building.slots[s],
            plan,
            function,
            lifetimes,
        )
    &&& slot_sharing::nodes_ok(nodes, building.slots.len() as int)
    &&& forall|k: int|
        0 <= k < nodes.len() ==> node_knows(#[trigger] nodes[k], building.slots, plan, function)
    &&& colors.len() == nodes.len()
    &&& colors_apart(nodes, colors, function, lifetimes)
}

proof fn lone_slot_rebuilt(
    rebuilding: Rebuilding,
    start: Building,
    nodes: Seq<NodeView>,
    colors: Seq<usize>,
    plan: Option<FunctionPlanView>,
    function: LivenessFunction,
    lifetimes: SlotLivenessFunction,
    n: int,
)
    requires
        0 < n <= start.slots.len(),
        can_merge(start, nodes, colors, plan, function, lifetimes),
        slot_merging::node_at(nodes, n - 1, 0) is None,
        rebuilt_so_far(
            rebuilding.building,
            start,
            nodes,
            colors,
            plan,
            function,
            lifetimes,
            n - 1,
        ),
    ensures
        rebuilt_so_far(
            slot_merging::rebuild_slot(
                rebuilding,
                start.slots,
                nodes,
                colors,
                n - 1,
            ).building,
            start,
            nodes,
            colors,
            plan,
            function,
            lifetimes,
            n,
        ),
{
    let slots = start.slots;
    let members = slots[n - 1].members;
    let name = identity_layout::slot_name("cr_slot_"@, rebuilding.unions as u32);
    let after = slot_merging::rebuild_slot(rebuilding, slots, nodes, colors, n - 1).building;
    slot_merging::node_at_finds(nodes, n - 1, 0);
    assert(layout_check::well_shaped(slots[n - 1], n - 1));
    assert(layout_soundness::slot_shares(slots[n - 1], plan, function, lifetimes));
    assert forall|i: int, j: int| 0 <= i < j < members.len() implies (
    #[trigger] members[i]).logical != (#[trigger] members[j]).logical by {
        assert(layout_soundness::has_member(slots, n - 1, i));
        assert(layout_soundness::has_member(slots, n - 1, j));
        places_differ(start, n - 1, i, n - 1, j);
    }
    assert forall|i: int| 0 <= i < members.len() implies {
        &&& order::lookup(start.fields, (#[trigger] members[i]).logical) is Some
        &&& !field_done(slots, nodes, colors, members[i].logical, n - 1)
    } by {
        assert(layout_soundness::has_member(slots, n - 1, i));
        if field_done(slots, nodes, colors, members[i].logical, n - 1) {
            let (j, x) = choose|j: int, x: int| #[trigger]
                layout_soundness::has_member(slots, j, x) && slots[j].members[x].logical
                    == members[i].logical && slot_done(nodes, colors, j, n - 1);
            if j != n - 1 {
                places_differ(start, n - 1, i, j, x);
            }
        }
    }
    assert forall|field: LogicalFieldId| #[trigger]
        field_done(slots, nodes, colors, field, n) <==> field_done(
            slots,
            nodes,
            colors,
            field,
            n - 1,
        ) || layout_soundness::listed(members, field) by {
        field_done_more(slots, nodes, colors, field, n);
        if layout_soundness::listed(members, field) {
            let i = choose|i: int|
                0 <= i < members.len() && (#[trigger] members[i]).logical == field;
            assert(layout_soundness::has_member(slots, n - 1, i));
            assert(slot_done(nodes, colors, n - 1, n));
        }
        if field_done(slots, nodes, colors, field, n) {
            let (j, x) = choose|j: int, x: int| #[trigger]
                layout_soundness::has_member(slots, j, x) && slots[j].members[x].logical == field
                    && slot_done(nodes, colors, j, n);
            match slot_merging::node_at(nodes, j, 0) {
                None => {
                    if j < n - 1 {
                        assert(slot_done(nodes, colors, j, n - 1));
                    } else {
                        assert(members[x].logical == field);
                    }
                },
                Some(k) => {
                    let i = choose|i: int|
                        0 <= i < nodes.len() && colors[i] == colors[k] && (
                        #[trigger] nodes[i]).original_slot < n;
                    assert(nodes[i].original_slot != n - 1);
                    assert(color_begun(nodes, colors, colors[k], n - 1));
                    assert(slot_done(nodes, colors, j, n - 1));
                },
            }
        }
    }
    members_rebuilt(
        rebuilding.building,
        after,
        members,
        name,
        start,
        nodes,
        colors,
        plan,
        function,
        lifetimes,
        n,
    );
}

proof fn colored_slot_rebuilt(
    rebuilding: Rebuilding,
    start: Building,
    nodes: Seq<NodeView>,
    colors: Seq<usize>,
    plan: Option<FunctionPlanView>,
    function: LivenessFunction,
    lifetimes: SlotLivenessFunction,
    n: int,
    k: int,
)
    requires
        0 < n <= start.slots.len(),
        can_merge(start, nodes, colors, plan, function, lifetimes),
        0 <= k < nodes.len(),
        nodes[k].original_slot == n - 1,
        rebuilt_so_far(
            rebuilding.building,
            start,
            nodes,
            colors,
            plan,
            function,
            lifetimes,
            n - 1,
        ),
    ensures
        rebuilt_so_far(
            slot_merging::rebuild_slot(
                rebuilding,
                start.slots,
                nodes,
                colors,
                n - 1,
            ).building,
            start,
            nodes,
            colors,
            plan,
            function,
            lifetimes,
            n,
        ),
{
    let slots = start.slots;
    let color = colors[k];
    let members = slot_merging::color_members(slots, nodes, colors, color, nodes.len() as int);
    let name = identity_layout::slot_name("cr_slot_"@, rebuilding.unions as u32);
    let after = slot_merging::rebuild_slot(rebuilding, slots, nodes, colors, n - 1).building;
    node_at_is(nodes, slots.len() as int, k);
    placement::first_with_bounds(colors, color, k);
    assert(color_begun(nodes, colors, color, n - 1) <==> placement::first_with(
        colors,
        color,
        k,
    ) is Some) by {
        if color_begun(nodes, colors, color, n - 1) {
            let i = choose|i: int|
                0 <= i < nodes.len() && colors[i] == color && (#[trigger] nodes[i]).original_slot
                    < n - 1;
            if i > k {
                assert(nodes[k].original_slot < nodes[i].original_slot);
            }
            assert(colors[i] == color);
        }
        if let Some(i) = placement::first_with(colors, color, k) {
            assert(nodes[i].original_slot < nodes[k].original_slot);
        }
    }
    assert(color_begun(nodes, colors, color, n)) by {
        assert(nodes[k].original_slot < n);
    }
    color_members_share(
        start,
        nodes,
        colors,
        color,
        plan,
        function,
        lifetimes,
        nodes.len() as int,
    );
    // The fields that are placed with slot `n - 1` are those of its color.
    assert forall|field: LogicalFieldId| #[trigger]
        field_done(slots, nodes, colors, field, n) <==> field_done(
            slots,
            nodes,
            colors,
            field,
            n - 1,
        ) || layout_soundness::listed(members, field) by {
        field_done_more(slots, nodes, colors, field, n);
        if layout_soundness::listed(members, field) {
            let y = choose|y: int|
                0 <= y < members.len() && (#[trigger] members[y]).logical == field;
            assert(from_color(members[y], slots, nodes, colors, color, nodes.len() as int));
            let (i, x) = choose|i: int, x: int|
                #![trigger layout_soundness::has_member(slots, nodes[i].original_slot as int, x)]
                0 <= i < nodes.len() && colors[i] == color && layout_soundness::has_member(
                    slots,
                    nodes[i].original_slot as int,
                    x,
                ) && slots[nodes[i].original_slot as int].members[x] == members[y];
            node_at_is(nodes, slots.len() as int, i);
            assert(slot_done(nodes, colors, nodes[i].original_slot as int, n));
        }
        if field_done(slots, nodes, colors, field, n) {
            let (j, x) = choose|j: int, x: int| #[trigger]
                layout_soundness::has_member(slots, j, x) && slots[j].members[x].logical == field
                    && slot_done(nodes, colors, j, n);
            slot_merging::node_at_finds(nodes, j, 0);
            match slot_merging::node_at(nodes, j, 0) {
                None => {
                    assert(j != n - 1);
                    assert(slot_done(nodes, colors, j, n - 1));
                },
                Some(h) => {
                    let i = choose|i: int|
                        0 <= i < nodes.len() && colors[i] == colors[h] && (
                        #[trigger] nodes[i]).original_slot < n;
                    if nodes[i].original_slot == n - 1 {
                        node_at_is(nodes, slots.len() as int, i);
                        assert(i == k);
                        assert(layout_soundness::has_member(
                            slots,
                            nodes[h].original_slot as int,
                            x,
                        ));
                        assert(layout_soundness::listed(members, field));
                    } else {
                        assert(color_begun(nodes, colors, colors[h], n - 1));
                        assert(slot_done(nodes, colors, j, n - 1));
                    }
                },
            }
        }
    }
    if placement::first_with(colors, color, k) is Some {
        assert forall|field: LogicalFieldId| layout_soundness::listed(members, field) implies
            #[trigger] field_done(slots, nodes, colors, field, n - 1) by {
            let y = choose|y: int|
                0 <= y < members.len() && (#[trigger] members[y]).logical == field;
            assert(from_color(members[y], slots, nodes, colors, color, nodes.len() as int));
            let (i, x) = choose|i: int, x: int|
                #![trigger layout_soundness::has_member(slots, nodes[i].original_slot as int, x)]
                0 <= i < nodes.len() && colors[i] == color && layout_soundness::has_member(
                    slots,
                    nodes[i].original_slot as int,
                    x,
                ) && slots[nodes[i].original_slot as int].members[x] == members[y];
            node_at_is(nodes, slots.len() as int, i);
            assert(slot_done(nodes, colors, nodes[i].original_slot as int, n - 1));
        }
        assert forall|field: LogicalFieldId| #[trigger]
            layout_soundness::holds(after.slots, field) <==> field_done(
                slots,
                nodes,
                colors,
                field,
                n,
            ) by {
            assert(layout_soundness::holds(rebuilding.building.slots, field) <==> field_done(
                slots,
                nodes,
                colors,
                field,
                n - 1,
            ));
        }
    } else {
        assert forall|y: int| 0 <= y < members.len() implies {
            &&& order::lookup(start.fields, (#[trigger] members[y]).logical) is Some
            &&& !field_done(slots, nodes, colors, members[y].logical, n - 1)
        } by {
            assert(from_color(members[y], slots, nodes, colors, color, nodes.len() as int));
            let (i, x) = choose|i: int, x: int|
                #![trigger layout_soundness::has_member(slots, nodes[i].original_slot as int, x)]
                0 <= i < nodes.len() && colors[i] == color && layout_soundness::has_member(
                    slots,
                    nodes[i].original_slot as int,
                    x,
                ) && slots[nodes[i].original_slot as int].members[x] == members[y];
            let own = nodes[i].original_slot as int;
            node_at_is(nodes, slots.len() as int, i);
            if field_done(slots, nodes, colors, members[y].logical, n - 1) {
                let (j, z) = choose|j: int, z: int| #[trigger]
                    layout_soundness::has_member(slots, j, z) && slots[j].members[z].logical
                        == members[y].logical && slot_done(nodes, colors, j, n - 1);
                if j != own {
                    places_differ(start, own, x, j, z);
                }
                assert(color_begun(nodes, colors, color, n - 1));
            }
        }
        assert(layout_check::well_shaped(slots[n - 1], n - 1));
        assert(layout_soundness::has_member(slots, nodes[k].original_slot as int, 0));
        assert(members.len() > 0);
        members_rebuilt(
            rebuilding.building,
            after,
            members,
            name,
            start,
            nodes,
            colors,
            plan,
            function,
            lifetimes,
            n,
        );
    }
}

proof fn slots_rebuilt(
    start: Building,
    nodes: Seq<NodeView>,
    colors: Seq<usize>,
    plan: Option<FunctionPlanView>,
    function: LivenessFunction,
    lifetimes: SlotLivenessFunction,
    n: int,
)
    requires
        0 <= n <= start.slots.len(),
        can_merge(start, nodes, colors, plan, function, lifetimes),
    ensures
        rebuilt_so_far(
            slot_merging::rebuild_slots(start.fields, start.slots, nodes, colors, n).building,
            start,
            nodes,
            colors,
            plan,
            function,
            lifetimes,
            n,
        ),
    decreases n,
{
    let slots = start.slots;
    if n > 0 {
        slots_rebuilt(start, nodes, colors, plan, function, lifetimes, n - 1);
        let before = slot_merging::rebuild_slots(start.fields, slots, nodes, colors, n - 1);
        slot_merging::node_at_finds(nodes, n - 1, 0);
        match slot_merging::node_at(nodes, n - 1, 0) {
            None => {
                lone_slot_rebuilt(
                    before,
                    start,
                    nodes,
                    colors,
                    plan,
                    function,
                    lifetimes,
                    n,
                );
            },
            Some(k) => {
                colored_slot_rebuilt(
                    before,
                    start,
                    nodes,
                    colors,
                    plan,
                    function,
                    lifetimes,
                    n,
                    k,
                );
            },
        }
    } else {
        let building = slot_merging::rebuild_slots(start.fields, slots, nodes, colors, n).building;
        assert forall|field: LogicalFieldId|
            !(#[trigger] layout_soundness::holds(building.slots, field)) by {}
        assert forall|field: LogicalFieldId|
            !(#[trigger] field_done(slots, nodes, colors, field, n)) by {
            if field_done(slots, nodes, colors, field, n) {
                let (j, x) = choose|j: int, x: int| #[trigger]
                    layout_soundness::has_member(slots, j, x) && slots[j].members[x].logical
                        == field && slot_done(nodes, colors, j, n);
                assert(slot_done(nodes, colors, j, 0));
            }
        }
    }
}

/// Merging the slots of a sound layout by color keeps it sound, and keeps
/// which fields it places.
pub proof fn merged_layout_sound(
    layout: LayoutView,
    nodes: Seq<NodeView>,
    colors: Seq<usize>,
    plan: Option<FunctionPlanView>,
    function: LivenessFunction,
    lifetimes: SlotLivenessFunction,
)
    requires
        can_merge(
            layout_soundness::building_in(layout),
            nodes,
            colors,
            plan,
            function,
            lifetimes,
        ),
        layout_soundness::all_held(layout_soundness::building_in(layout)),
    ensures
        layout_soundness::layout_sound(
            slot_merging::merged_layout(layout, layout.slots, nodes, colors),
            plan,
            function,
            lifetimes,
        ),
        slot_merging::merged_layout(layout, layout.slots, nodes, colors).fields.len()
            == layout.fields.len(),
        layout_soundness::places_all(
            slot_merging::merged_layout(layout, layout.slots, nodes, colors).fields,
            layout.fields,
        ),
{
    let start = layout_soundness::building_in(layout);
    let n = layout.slots.len() as int;
    slots_rebuilt(start, nodes, colors, plan, function, lifetimes, n);
    let after = slot_merging::merged_layout(layout, layout.slots, nodes, colors);
    let end = layout_soundness::building_in(after);
    assert forall|field: LogicalFieldId|
        (#[trigger] order::lookup(end.fields, field)) is Some implies layout_soundness::holds(
        end.slots,
        field,
    ) by {
        assert(order::lookup(start.fields, field) is Some);
        assert(layout_soundness::holds(start.slots, field));
        let (j, x) = choose|j: int, x: int| #[trigger]
            layout_soundness::has_member(start.slots, j, x) && start.slots[j].members[x].logical
                == field;
        slot_merging::node_at_finds(nodes, j, 0);
        if let Some(k) = slot_merging::node_at(nodes, j, 0) {
            assert(nodes[k].original_slot < n);
        }
        assert(slot_done(nodes, colors, j, n));
        assert(field_done(start.slots, nodes, colors, field, n));
    }
}

} // verus!
