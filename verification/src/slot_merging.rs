//! Contexts whose slots are merged by color.

use vstd::prelude::*;

use crate::context_layout;
use crate::context_layout::{
    append_direct_slot_to, append_union_slot_to, Building, FieldPlacement, LayoutDecision,
    LayoutDecisionReason, LayoutView, LogicalFieldId, MemberView, PhysicalMember, PhysicalSlot,
    PhysicalSlotKind, PlacementView, SlotView,
};
use crate::identity_layout;
use crate::identity_layout::numbered_name;
use crate::layout_knowledge;
use crate::layout_knowledge::physical_context_layout;
use crate::placement;
use crate::placement::{PlacementBounds, PlacementCost, PlacementEvaluator};
use crate::placement_laws;
use crate::slot_sharing;
use crate::slot_sharing::{size_of_members, NodeView, SizeNode};
use crate::syntax;
use crate::target_layout;
use crate::target_layout::{Known, LayoutKnowledge, LayoutUnknownReason, ReasonView, TargetLayoutModel, TypeLayout};
use crate::text;
use crate::text::{normalize_c_type, str_eq};

verus! {

/// The node of a slot, from node `k` on.
pub open spec fn node_at(nodes: Seq<NodeView>, slot: int, k: int) -> Option<int>
    decreases nodes.len() - k,
{
    if k < 0 || k >= nodes.len() {
        None
    } else if nodes[k].original_slot == slot {
        Some(k)
    } else {
        node_at(nodes, slot, k + 1)
    }
}

/// The members of the first `n` nodes that have a color.
pub open spec fn color_members(
    slots: Seq<SlotView>,
    nodes: Seq<NodeView>,
    colors: Seq<usize>,
    color: usize,
    n: int,
) -> Seq<MemberView>
    decreases n,
{
    if n <= 0 {
        Seq::empty()
    } else {
        let before = color_members(slots, nodes, colors, color, n - 1);
        if colors[n - 1] == color {
            before + slots[nodes[n - 1].original_slot as int].members
        } else {
            before
        }
    }
}

/// A context whose slots are being merged.
pub struct Rebuilding {
    pub building: Building,
    pub unions: nat,
}

/// The context after several fields got one slot.
pub open spec fn with_shared(rebuilding: Rebuilding, members: Seq<MemberView>) -> Rebuilding {
    Rebuilding {
        building: context_layout::with_union(
            rebuilding.building,
            members,
            identity_layout::slot_name("cr_slot_"@, rebuilding.unions as u32),
        ),
        unions: rebuilding.unions + 1,
    }
}

/// The context after one more old slot: as it was, merged with those of its
/// color, or merged before.
pub open spec fn rebuild_slot(
    rebuilding: Rebuilding,
    slots: Seq<SlotView>,
    nodes: Seq<NodeView>,
    colors: Seq<usize>,
    i: int,
) -> Rebuilding {
    match node_at(nodes, i, 0) {
        Some(k) => if placement::first_with(colors, colors[k], k) is Some {
            rebuilding
        } else {
            let members = color_members(slots, nodes, colors, colors[k], nodes.len() as int);
            if members.len() > 1 {
                with_shared(rebuilding, members)
            } else {
                Rebuilding {
                    building: context_layout::with_direct(rebuilding.building, members[0]),
                    ..rebuilding
                }
            }
        },
        None => if slots[i].kind == PhysicalSlotKind::Union {
            with_shared(rebuilding, slots[i].members)
        } else {
            Rebuilding {
                building: context_layout::with_direct(rebuilding.building, slots[i].members[0]),
                ..rebuilding
            }
        },
    }
}

/// The context after the first `n` old slots.
pub open spec fn rebuild_slots(
    fields: Seq<(LogicalFieldId, PlacementView)>,
    slots: Seq<SlotView>,
    nodes: Seq<NodeView>,
    colors: Seq<usize>,
    n: int,
) -> Rebuilding
    decreases n,
{
    if n <= 0 {
        Rebuilding { building: Building { slots: Seq::empty(), fields }, unions: 0 }
    } else {
        rebuild_slot(
            rebuild_slots(fields, slots, nodes, colors, n - 1),
            slots,
            nodes,
            colors,
            n - 1,
        )
    }
}

/// Whether the members of a slot have more than one type.
pub open spec fn types_differ(slot: SlotView) -> bool {
    exists|i: int|
        0 <= i < slot.members.len() && text::squeezed((#[trigger] slot.members[i]).c_type)
            != text::squeezed(slot.members[0].c_type)
}

/// Why the members of a slot share it.
pub open spec fn sharing_reason(slot: SlotView) -> LayoutDecisionReason {
    if types_differ(slot) {
        LayoutDecisionReason::ReusedCrossType
    } else {
        LayoutDecisionReason::ReusedSameType
    }
}

/// Whether a slot holds a field.
pub open spec fn slot_holds(slot: SlotView, field: LogicalFieldId) -> bool {
    exists|i: int|
        0 <= i < slot.members.len() && (#[trigger] slot.members[i]).logical == field
}

/// Why a field shares the last of the first `n` slots that it shares.
pub open spec fn reuse_reason(slots: Seq<SlotView>, field: LogicalFieldId, n: int) -> Option<
    LayoutDecisionReason,
>
    decreases n,
{
    if n <= 0 {
        None
    } else if slots[n - 1].kind == PhysicalSlotKind::Union && slot_holds(slots[n - 1], field) {
        Some(sharing_reason(slots[n - 1]))
    } else {
        reuse_reason(slots, field, n - 1)
    }
}

/// Decisions that say which fields share a slot.
pub open spec fn reuse_decisions(decisions: Seq<LayoutDecision>, slots: Seq<SlotView>) -> Seq<
    LayoutDecision,
> {
    Seq::new(
        decisions.len(),
        |i: int|
            match reuse_reason(slots, decisions[i].field, slots.len() as int) {
                Some(reason) => LayoutDecision { field: decisions[i].field, reason },
                None => decisions[i],
            },
    )
}

/// A layout whose slots are merged by color.
pub open spec fn merged_layout(
    layout: LayoutView,
    slots: Seq<SlotView>,
    nodes: Seq<NodeView>,
    colors: Seq<usize>,
) -> LayoutView {
    let building = rebuild_slots(
        layout.fields,
        slots,
        nodes,
        colors,
        slots.len() as int,
    ).building;
    LayoutView {
        slots: building.slots,
        fields: building.fields,
        decisions: reuse_decisions(layout.decisions, building.slots),
        ..layout
    }
}

/// The merged slots.
pub open spec fn merged_slots(
    slots: Seq<SlotView>,
    nodes: Seq<NodeView>,
    colors: Seq<usize>,
) -> Seq<SlotView> {
    rebuild_slots(Seq::empty(), slots, nodes, colors, slots.len() as int).building.slots
}

/// The node that is found for a slot stands for it.
pub proof fn node_at_finds(nodes: Seq<NodeView>, slot: int, k: int)
    requires
        0 <= k <= nodes.len(),
    ensures
        match node_at(nodes, slot, k) {
            Some(i) => k <= i < nodes.len() && nodes[i].original_slot == slot,
            None => forall|i: int|
                k <= i < nodes.len() ==> (#[trigger] nodes[i]).original_slot != slot,
        },
    decreases nodes.len() - k,
{
    if k < nodes.len() && nodes[k].original_slot != slot {
        node_at_finds(nodes, slot, k + 1);
    }
}

/// A color that a node has has members.
pub proof fn color_members_filled(
    slots: Seq<SlotView>,
    nodes: Seq<NodeView>,
    colors: Seq<usize>,
    k: int,
    n: int,
)
    requires
        0 <= k < n <= nodes.len(),
        slot_sharing::nodes_ok(nodes, slots.len() as int),
        layout_knowledge::slots_filled(slots),
    ensures
        color_members(slots, nodes, colors, colors[k], n).len() > 0,
    decreases n,
{
    if k < n - 1 {
        color_members_filled(slots, nodes, colors, k, n - 1);
    } else {
        assert(slots[nodes[k].original_slot as int].members.len() > 0);
    }
}

/// Merged slots have members.
pub proof fn merged_slots_filled(
    fields: Seq<(LogicalFieldId, PlacementView)>,
    slots: Seq<SlotView>,
    nodes: Seq<NodeView>,
    colors: Seq<usize>,
    n: int,
)
    requires
        0 <= n <= slots.len(),
        slot_sharing::nodes_ok(nodes, slots.len() as int),
        layout_knowledge::slots_filled(slots),
    ensures
        layout_knowledge::slots_filled(
            rebuild_slots(fields, slots, nodes, colors, n).building.slots,
        ),
        rebuild_slots(fields, slots, nodes, colors, n).unions <= n,
        rebuild_slots(fields, slots, nodes, colors, n).building.slots == rebuild_slots(
            Seq::empty(),
            slots,
            nodes,
            colors,
            n,
        ).building.slots,
        rebuild_slots(fields, slots, nodes, colors, n).unions == rebuild_slots(
            Seq::empty(),
            slots,
            nodes,
            colors,
            n,
        ).unions,
    decreases n,
{
    if n > 0 {
        merged_slots_filled(fields, slots, nodes, colors, n - 1);
        node_at_finds(nodes, n - 1, 0);
        assert(slots[n - 1].members.len() > 0);
        if let Some(k) = node_at(nodes, n - 1, 0) {
            color_members_filled(slots, nodes, colors, k, nodes.len() as int);
        }
    }
}

fn find_node(nodes: &Vec<SizeNode>, slot: usize) -> (r: Option<usize>)
    ensures
        match r {
            Some(k) => node_at(syntax::views(nodes@), slot as int, 0) == Some(k as int) && k
                < nodes@.len(),
            None => node_at(syntax::views(nodes@), slot as int, 0) is None,
        },
{
    let ghost views = syntax::views(nodes@);
    let mut k: usize = 0;
    while k < nodes.len()
        invariant
            k <= nodes@.len(),
            views == syntax::views(nodes@),
            node_at(views, slot as int, 0) == node_at(views, slot as int, k as int),
        decreases nodes@.len() - k,
    {
        assert(views[k as int] == nodes@[k as int]@);
        if nodes[k].original_slot == slot {
            return Some(k);
        }
        k += 1;
    }
    None
}

fn color_seen(colors: &Vec<usize>, k: usize) -> (r: bool)
    requires
        k < colors@.len(),
    ensures
        r == (placement::first_with(colors@, colors@[k as int], k as int) is Some),
{
    proof {
        placement::first_with_bounds(colors@, colors@[k as int], k as int);
    }
    let mut i: usize = 0;
    while i < k
        invariant
            i <= k < colors@.len(),
            forall|j: int| 0 <= j < i ==> #[trigger] colors@[j] != colors@[k as int],
        decreases k - i,
    {
        if colors[i] == colors[k] {
            proof {
                placement::first_with_bounds(colors@, colors@[k as int], k as int);
            }
            return true;
        }
        i += 1;
    }
    false
}

fn list_color_members(
    slots: &Vec<PhysicalSlot>,
    nodes: &Vec<SizeNode>,
    colors: &Vec<usize>,
    color: usize,
) -> (r: Vec<PhysicalMember>)
    requires
        colors@.len() == nodes@.len(),
        slot_sharing::nodes_ok(syntax::views(nodes@), slots@.len() as int),
    ensures
        syntax::views(r@) == color_members(
            syntax::views(slots@),
            syntax::views(nodes@),
            colors@,
            color,
            nodes@.len() as int,
        ),
{
    let ghost old_slots = syntax::views(slots@);
    let ghost all = syntax::views(nodes@);
    let mut members: Vec<PhysicalMember> = Vec::new();
    assert(syntax::views(members@) =~= Seq::empty());
    let mut n: usize = 0;
    while n < nodes.len()
        invariant
            n <= nodes@.len(),
            colors@.len() == nodes@.len(),
            old_slots == syntax::views(slots@),
            all == syntax::views(nodes@),
            slot_sharing::nodes_ok(all, slots@.len() as int),
            syntax::views(members@) == color_members(old_slots, all, colors@, color, n as int),
        decreases nodes@.len() - n,
    {
        assert(all[n as int] == nodes@[n as int]@);
        if colors[n] == color {
            let own = &slots[nodes[n].original_slot].members;
            let ghost before = syntax::views(members@);
            let ghost added = syntax::views(own@);
            assert(old_slots[nodes@[n as int].original_slot as int].members == added);
            let mut i: usize = 0;
            while i < own.len()
                invariant
                    i <= own@.len(),
                    added == syntax::views(own@),
                    syntax::views(members@) =~= before + added.take(i as int),
                decreases own@.len() - i,
            {
                let member = own[i].clone();
                proof {
                    syntax::views_push(members@, member);
                }
                members.push(member);
                i += 1;
            }
            assert(added.take(i as int) =~= added);
        }
        n += 1;
    }
    members
}

/// Merges slots by color.
pub fn rebuild_by_color(
    slots: &Vec<PhysicalSlot>,
    nodes: &Vec<SizeNode>,
    colors: &Vec<usize>,
    fields: &mut Vec<(LogicalFieldId, FieldPlacement)>,
) -> (r: Vec<PhysicalSlot>)
    requires
        colors@.len() == nodes@.len(),
        slot_sharing::nodes_ok(syntax::views(nodes@), slots@.len() as int),
        layout_knowledge::slots_filled(syntax::views(slots@)),
    ensures
        context_layout::building_of(r@, final(fields)@) == rebuild_slots(
            crate::order::entry_views(old(fields)@),
            syntax::views(slots@),
            syntax::views(nodes@),
            colors@,
            slots@.len() as int,
        ).building,
{
    let ghost old_slots = syntax::views(slots@);
    let ghost all = syntax::views(nodes@);
    let ghost start = crate::order::entry_views(fields@);
    let mut rebuilt: Vec<PhysicalSlot> = Vec::new();
    assert(syntax::views(rebuilt@) =~= Seq::empty());
    let mut unions: usize = 0;
    let mut i: usize = 0;
    while i < slots.len()
        invariant
            i <= slots@.len(),
            unions <= i,
            colors@.len() == nodes@.len(),
            old_slots == syntax::views(slots@),
            all == syntax::views(nodes@),
            slot_sharing::nodes_ok(all, slots@.len() as int),
            layout_knowledge::slots_filled(old_slots),
            (Rebuilding {
                building: context_layout::building_of(rebuilt@, fields@),
                unions: unions as nat,
            }) == rebuild_slots(start, old_slots, all, colors@, i as int),
        decreases slots@.len() - i,
    {
        assert(old_slots[i as int] == slots@[i as int]@);
        assert(old_slots[i as int].members.len() > 0);
        match find_node(nodes, i) {
            Some(k) => {
                if !color_seen(colors, k) {
                    let members = list_color_members(slots, nodes, colors, colors[k]);
                    proof {
                        color_members_filled(
                            old_slots,
                            all,
                            colors@,
                            k as int,
                            nodes@.len() as int,
                        );
                    }
                    if members.len() > 1 {
                        append_union_slot_to(
                            &mut rebuilt,
                            fields,
                            &members,
                            numbered_name("cr_slot_", unions as u32),
                        );
                        unions += 1;
                    } else {
                        assert(syntax::views(members@)[0] == members@[0]@);
                        append_direct_slot_to(&mut rebuilt, fields, members[0].clone());
                    }
                }
            },
            None => {
                if slots[i].kind == PhysicalSlotKind::Union {
                    append_union_slot_to(
                        &mut rebuilt,
                        fields,
                        &slots[i].members,
                        numbered_name("cr_slot_", unions as u32),
                    );
                    unions += 1;
                } else {
                    assert(old_slots[i as int].members[0] == slots@[i as int].members@[0]@);
                    append_direct_slot_to(&mut rebuilt, fields, slots[i].members[0].clone());
                }
            },
        }
        i += 1;
    }
    rebuilt
}

fn members_differ(members: &Vec<PhysicalMember>) -> (r: bool)
    requires
        members@.len() > 0,
    ensures
        r == exists|i: int|
            0 <= i < members@.len() && text::squeezed((#[trigger] syntax::views(members@)[i]).c_type)
                != text::squeezed(syntax::views(members@)[0].c_type),
{
    let ghost views = syntax::views(members@);
    let first = normalize_c_type(members[0].c_type.as_str());
    assert(views[0] == members@[0]@);
    let mut i: usize = 0;
    while i < members.len()
        invariant
            i <= members@.len(),
            members@.len() > 0,
            views == syntax::views(members@),
            first@ == text::squeezed(views[0].c_type),
            forall|j: int|
                0 <= j < i ==> text::squeezed((#[trigger] views[j]).c_type) == first@,
        decreases members@.len() - i,
    {
        assert(views[i as int] == members@[i as int]@);
        let own = normalize_c_type(members[i].c_type.as_str());
        if !str_eq(own.as_str(), first.as_str()) {
            return true;
        }
        i += 1;
    }
    false
}

fn find_reuse_reason(slots: &Vec<PhysicalSlot>, field: LogicalFieldId) -> (r: Option<
    LayoutDecisionReason,
>)
    ensures
        r == reuse_reason(syntax::views(slots@), field, slots@.len() as int),
{
    let ghost views = syntax::views(slots@);
    let mut n: usize = slots.len();
    while n > 0
        invariant
            n <= slots@.len(),
            views == syntax::views(slots@),
            reuse_reason(views, field, slots@.len() as int) == reuse_reason(
                views,
                field,
                n as int,
            ),
        decreases n,
    {
        let slot = &slots[n - 1];
        assert(views[n - 1] == slot@);
        if slot.kind == PhysicalSlotKind::Union {
            let mut i: usize = 0;
            while i < slot.members.len()
                invariant
                    0 < n <= slots@.len(),
                    views == syntax::views(slots@),
                    *slot == slots@[n - 1],
                    slot.kind == PhysicalSlotKind::Union,
                    i <= slot.members@.len(),
                    reuse_reason(views, field, slots@.len() as int) == reuse_reason(
                        views,
                        field,
                        n as int,
                    ),
                    forall|j: int|
                        0 <= j < i ==> (#[trigger] slot@.members[j]).logical != field,
                decreases slot.members@.len() - i,
            {
                assert(slot@.members[i as int] == slot.members@[i as int]@);
                if slot.members[i].logical == field {
                    assert(views[n - 1] == slot@);
                    assert(slot_holds(slot@, field));
                    if members_differ(&slot.members) {
                        return Some(LayoutDecisionReason::ReusedCrossType);
                    }
                    return Some(LayoutDecisionReason::ReusedSameType);
                }
                i += 1;
            }
        }
        n -= 1;
    }
    None
}

/// Records which fields share a slot.
pub fn mark_reuse(decisions: &mut Vec<LayoutDecision>, slots: &Vec<PhysicalSlot>)
    ensures
        final(decisions)@ == reuse_decisions(old(decisions)@, syntax::views(slots@)),
{
    let ghost before = decisions@;
    let ghost goal = reuse_decisions(before, syntax::views(slots@));
    let mut i: usize = 0;
    while i < decisions.len()
        invariant
            i <= decisions@.len(),
            decisions@.len() == before.len(),
            goal == reuse_decisions(before, syntax::views(slots@)),
            forall|j: int| 0 <= j < i ==> #[trigger] decisions@[j] == goal[j],
            forall|j: int| i <= j < before.len() ==> #[trigger] decisions@[j] == before[j],
        decreases decisions@.len() - i,
    {
        let field = decisions[i].field;
        if let Some(reason) = find_reuse_reason(slots, field) {
            decisions.set(i, LayoutDecision { field, reason });
        }
        i += 1;
    }
    assert(decisions@ =~= goal);
}

/// A sum that stops at the largest number.
pub open spec fn capped_sum(a: u64, b: nat) -> u64 {
    if a + b > u64::MAX {
        u64::MAX
    } else {
        (a + b) as u64
    }
}

/// How many members the shared slots among the first `n` have.
pub open spec fn shared_members(slots: Seq<SlotView>, n: int) -> u64
    decreases n,
{
    if n <= 0 {
        0
    } else if slots[n - 1].kind == PhysicalSlotKind::Union {
        capped_sum(shared_members(slots, n - 1), slots[n - 1].members.len())
    } else {
        shared_members(slots, n - 1)
    }
}

/// What a context costs.
pub open spec fn cost_of_slots(slots: Seq<SlotView>, size: u64) -> PlacementCost {
    PlacementCost {
        context_size: size,
        slot_count: slots.len() as u64,
        access_complexity: shared_members(slots, slots.len() as int),
    }
}

fn add_capped(a: u64, b: usize) -> (r: u64)
    ensures
        r == capped_sum(a, b as nat),
{
    let sum: u128 = a as u128 + b as u128;
    if sum > u64::MAX as u128 {
        u64::MAX
    } else {
        sum as u64
    }
}

/// Returns what a context costs.
pub fn placement_cost(slots: &Vec<PhysicalSlot>, context_size: u64) -> (r: PlacementCost)
    ensures
        r == cost_of_slots(syntax::views(slots@), context_size),
{
    let ghost views = syntax::views(slots@);
    let mut access: u64 = 0;
    let mut n: usize = 0;
    while n < slots.len()
        invariant
            n <= slots@.len(),
            views == syntax::views(slots@),
            access == shared_members(views, n as int),
        decreases slots@.len() - n,
    {
        assert(views[n as int] == slots@[n as int]@);
        if slots[n].kind == PhysicalSlotKind::Union {
            access = add_capped(access, slots[n].members.len());
        }
        n += 1;
    }
    PlacementCost {
        context_size,
        slot_count: slots.len() as u64,
        access_complexity: access,
    }
}

/// What the slots among the first `n` that aren't nodes cost.
pub open spec fn fixed_cost(
    slots: Seq<SlotView>,
    nodes: Seq<NodeView>,
    model: TargetLayoutModel,
    generated: Seq<(Seq<char>, TypeLayout)>,
    n: int,
) -> Known<PlacementBounds>
    decreases n,
{
    if n <= 0 {
        Known::Exact(
            PlacementBounds {
                fixed_storage_size: 0,
                fixed_slot_count: 0,
                fixed_access_complexity: 0,
            },
        )
    } else {
        match fixed_cost(slots, nodes, model, generated, n - 1) {
            Known::Unknown(reason) => Known::Unknown(reason),
            Known::Exact(before) => if node_at(nodes, n - 1, 0) is Some {
                Known::Exact(before)
            } else {
                let slot = slots[n - 1];
                match slot_sharing::members_size(model, slot.members, generated) {
                    Known::Unknown(reason) => Known::Unknown(reason),
                    Known::Exact(size) => if before.fixed_storage_size + size > u64::MAX {
                        Known::Unknown(ReasonView::ArithmeticOverflow)
                    } else {
                        Known::Exact(
                            PlacementBounds {
                                fixed_storage_size: (before.fixed_storage_size + size) as u64,
                                fixed_slot_count: (before.fixed_slot_count + 1) as u64,
                                fixed_access_complexity: if slot.kind == PhysicalSlotKind::Union {
                                    capped_sum(
                                        before.fixed_access_complexity,
                                        slot.members.len(),
                                    )
                                } else {
                                    before.fixed_access_complexity
                                },
                            },
                        )
                    },
                }
            },
        }
    }
}

proof fn unknown_fixed_cost(
    slots: Seq<SlotView>,
    nodes: Seq<NodeView>,
    model: TargetLayoutModel,
    generated: Seq<(Seq<char>, TypeLayout)>,
    k: int,
    n: int,
    reason: ReasonView,
)
    requires
        0 <= k <= n,
        fixed_cost(slots, nodes, model, generated, k) == Known::<PlacementBounds>::Unknown(reason),
    ensures
        fixed_cost(slots, nodes, model, generated, n) == Known::<PlacementBounds>::Unknown(reason),
    decreases n - k,
{
    if k < n {
        unknown_fixed_cost(slots, nodes, model, generated, k, n - 1, reason);
    }
}

/// Returns what every placement of the nodes costs at least.
pub fn placement_bounds(
    slots: &Vec<PhysicalSlot>,
    nodes: &Vec<SizeNode>,
    model: &TargetLayoutModel,
    generated: &Vec<(String, TypeLayout)>,
) -> (r: LayoutKnowledge<PlacementBounds>)
    requires
        model.pointer <= 16,
    ensures
        fixed_cost(
            syntax::views(slots@),
            syntax::views(nodes@),
            *model,
            target_layout::generated_view(generated@),
            slots@.len() as int,
        ) == (match r {
            LayoutKnowledge::Exact(bounds) => Known::Exact(bounds),
            LayoutKnowledge::Unknown(reason) => Known::Unknown(reason@),
        }),
{
    let ghost views = syntax::views(slots@);
    let ghost all = syntax::views(nodes@);
    let ghost types = target_layout::generated_view(generated@);
    let mut bounds = PlacementBounds {
        fixed_storage_size: 0,
        fixed_slot_count: 0,
        fixed_access_complexity: 0,
    };
    let mut n: usize = 0;
    while n < slots.len()
        invariant
            n <= slots.len(),
            model.pointer <= 16,
            views == syntax::views(slots@),
            all == syntax::views(nodes@),
            types == target_layout::generated_view(generated@),
            bounds.fixed_slot_count <= n,
            fixed_cost(views, all, *model, types, n as int) == Known::Exact(bounds),
        decreases slots@.len() - n,
    {
        assert(views[n as int] == slots@[n as int]@);
        if find_node(nodes, n).is_none() {
            match size_of_members(model, &slots[n].members, generated) {
                LayoutKnowledge::Unknown(reason) => {
                    proof {
                        unknown_fixed_cost(
                            views,
                            all,
                            *model,
                            types,
                            n + 1,
                            views.len() as int,
                            reason@,
                        );
                    }
                    return LayoutKnowledge::Unknown(reason);
                },
                LayoutKnowledge::Exact(size) => {
                    match bounds.fixed_storage_size.checked_add(size) {
                        None => {
                            proof {
                                unknown_fixed_cost(
                                    views,
                                    all,
                                    *model,
                                    types,
                                    n + 1,
                                    views.len() as int,
                                    ReasonView::ArithmeticOverflow,
                                );
                            }
                            return LayoutKnowledge::Unknown(
                                LayoutUnknownReason::ArithmeticOverflow,
                            );
                        },
                        Some(total) => {
                            bounds = PlacementBounds {
                                fixed_storage_size: total,
                                fixed_slot_count: bounds.fixed_slot_count + 1,
                                fixed_access_complexity: if slots[n].kind
                                    == PhysicalSlotKind::Union {
                                    add_capped(
                                        bounds.fixed_access_complexity,
                                        slots[n].members.len(),
                                    )
                                } else {
                                    bounds.fixed_access_complexity
                                },
                            };
                        },
                    }
                },
            }
        }
        n += 1;
    }
    LayoutKnowledge::Exact(bounds)
}

/// Contexts to be merged by color.
pub struct SlotEvaluator<'a> {
    pub slots: &'a Vec<PhysicalSlot>,
    pub nodes: &'a Vec<SizeNode>,
    pub model: &'a TargetLayoutModel,
    pub generated: &'a Vec<(String, TypeLayout)>,
}

/// What a context with merged slots costs, if its size is known.
pub open spec fn merged_cost(
    slots: Seq<SlotView>,
    nodes: Seq<NodeView>,
    model: TargetLayoutModel,
    generated: Seq<(Seq<char>, TypeLayout)>,
    colors: Seq<usize>,
) -> Option<PlacementCost> {
    let merged = merged_slots(slots, nodes, colors);
    match layout_knowledge::context_layout_of(model, merged, generated) {
        Known::Exact(layout) => Some(cost_of_slots(merged, layout.size)),
        Known::Unknown(reason) => None,
    }
}

/// What contexts with merged slots cost.
pub open spec fn merged_costs(
    slots: Seq<SlotView>,
    nodes: Seq<NodeView>,
    model: TargetLayoutModel,
    generated: Seq<(Seq<char>, TypeLayout)>,
) -> spec_fn(Seq<usize>) -> Option<PlacementCost> {
    |colors: Seq<usize>| merged_cost(slots, nodes, model, generated, colors)
}

impl<'a> PlacementEvaluator for SlotEvaluator<'a> {
    open spec fn costs(&self) -> spec_fn(Seq<usize>) -> Option<PlacementCost> {
        merged_costs(
            syntax::views(self.slots@),
            syntax::views(self.nodes@),
            *self.model,
            target_layout::generated_view(self.generated@),
        )
    }

    open spec fn accepts(&self, nodes: nat) -> bool {
        &&& nodes == self.nodes@.len()
        &&& self.model.pointer <= 16
        &&& slot_sharing::nodes_ok(syntax::views(self.nodes@), self.slots@.len() as int)
        &&& layout_knowledge::slots_filled(syntax::views(self.slots@))
    }

    fn evaluate(&self, colors: &Vec<usize>) -> (r: Option<PlacementCost>) {
        let mut fields: Vec<(LogicalFieldId, FieldPlacement)> = Vec::new();
        proof {
            merged_slots_filled(
                Seq::empty(),
                syntax::views(self.slots@),
                syntax::views(self.nodes@),
                colors@,
                self.slots@.len() as int,
            );
        }
        assert(crate::order::entry_views(fields@) =~= Seq::empty());
        let merged = rebuild_by_color(self.slots, self.nodes, colors, &mut fields);
        match physical_context_layout(&merged, self.model, self.generated) {
            LayoutKnowledge::Exact(layout) => Some(placement_cost(&merged, layout.size)),
            LayoutKnowledge::Unknown(reason) => None,
        }
    }
}

proof fn color_members_by_grouping(
    slots: Seq<SlotView>,
    nodes: Seq<NodeView>,
    a: Seq<usize>,
    b: Seq<usize>,
    k: int,
    n: int,
)
    requires
        a.len() == nodes.len(),
        placement_laws::complete(a),
        placement_laws::agrees(a, b),
        0 <= k < a.len(),
        0 <= n <= a.len(),
    ensures
        color_members(slots, nodes, a, a[k], n) == color_members(slots, nodes, b, b[k], n),
    decreases n,
{
    if n > 0 {
        color_members_by_grouping(slots, nodes, a, b, k, n - 1);
        assert(a[n - 1] != placement::UNCOLORED && a[k] != placement::UNCOLORED);
    }
}

proof fn merging_by_grouping(
    fields: Seq<(LogicalFieldId, PlacementView)>,
    slots: Seq<SlotView>,
    nodes: Seq<NodeView>,
    a: Seq<usize>,
    b: Seq<usize>,
    n: int,
)
    requires
        a.len() == nodes.len(),
        placement_laws::complete(a),
        placement_laws::agrees(a, b),
        0 <= n <= slots.len(),
    ensures
        rebuild_slots(fields, slots, nodes, a, n) == rebuild_slots(fields, slots, nodes, b, n),
    decreases n,
{
    if n > 0 {
        merging_by_grouping(fields, slots, nodes, a, b, n - 1);
        node_at_finds(nodes, n - 1, 0);
        if let Some(k) = node_at(nodes, n - 1, 0) {
            color_members_by_grouping(slots, nodes, a, b, k, nodes.len() as int);
            placement::first_with_bounds(a, a[k], k);
            placement::first_with_bounds(b, b[k], k);
            if let Some(i) = placement::first_with(a, a[k], k) {
                assert(a[i] == a[k] && a[i] != placement::UNCOLORED);
                assert(b[i] == b[k]);
            }
            if let Some(i) = placement::first_with(b, b[k], k) {
                assert(b[i] == b[k]);
                assert(a[i] != placement::UNCOLORED && a[k] != placement::UNCOLORED);
                assert(a[i] == a[k]);
            }
        }
    }
}

/// Merged contexts depend on nothing but which slots are merged.
pub proof fn merged_layouts_depend_on_grouping(
    layout: LayoutView,
    slots: Seq<SlotView>,
    nodes: Seq<NodeView>,
    a: Seq<usize>,
    b: Seq<usize>,
)
    requires
        a.len() == nodes.len(),
        placement_laws::complete(a),
        placement_laws::agrees(a, b),
    ensures
        merged_layout(layout, slots, nodes, a) == merged_layout(layout, slots, nodes, b),
        merged_slots(slots, nodes, a) == merged_slots(slots, nodes, b),
{
    merging_by_grouping(layout.fields, slots, nodes, a, b, slots.len() as int);
    merging_by_grouping(Seq::empty(), slots, nodes, a, b, slots.len() as int);
}

/// What merged contexts cost depends on nothing but which slots are merged.
pub proof fn merged_costs_depend_on_grouping(
    slots: Seq<SlotView>,
    nodes: Seq<NodeView>,
    model: TargetLayoutModel,
    generated: Seq<(Seq<char>, TypeLayout)>,
)
    ensures
        placement_laws::cost_by_grouping(
            merged_costs(slots, nodes, model, generated),
            nodes.len(),
        ),
{
    let costs = merged_costs(slots, nodes, model, generated);
    assert forall|a: Seq<usize>, b: Seq<usize>|
        a.len() == nodes.len() && placement_laws::complete(a) && placement_laws::complete(b)
            && #[trigger] placement_laws::agrees(a, b) implies costs(a) == costs(b) by {
        merging_by_grouping(Seq::empty(), slots, nodes, a, b, slots.len() as int);
    }
}

} // verus!
