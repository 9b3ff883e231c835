//! What slots have room for, and what is said of fields that share one.

use vstd::prelude::*;

use crate::context_layout::{
    LayoutDecision, LayoutDecisionReason, MemberView, PhysicalSlotKind, SlotView,
};
use crate::layout_knowledge;
use crate::slot_merging;
use crate::target_laws;
use crate::target_layout;
use crate::target_layout::{Known, TargetLayoutModel, TypeLayout};
use crate::text;

verus! {

/// Whether a shared slot holds a field.
pub open spec fn shares(slot: SlotView, decision: LayoutDecision) -> bool {
    slot.kind == PhysicalSlotKind::Union && exists|m: int|
        0 <= m < slot.members.len() && (#[trigger] slot.members[m]).logical == decision.field
}

/// Whether all members of a slot have one type, however it is spaced.
pub open spec fn of_one_type(slot: SlotView) -> bool {
    forall|i: int, j: int|
        0 <= i < slot.members.len() && 0 <= j < slot.members.len() ==> text::squeezed(
            (#[trigger] slot.members[i]).c_type,
        ) == text::squeezed((#[trigger] slot.members[j]).c_type)
}

/// The reason that fits a shared slot.
pub open spec fn fitting_reason(slot: SlotView, reason: LayoutDecisionReason) -> bool {
    reason == if of_one_type(slot) {
        LayoutDecisionReason::ReusedSameType
    } else {
        LayoutDecisionReason::ReusedCrossType
    }
}

proof fn reasons_fit(slot: SlotView)
    ensures
        fitting_reason(slot, slot_merging::sharing_reason(slot)),
{
    if slot_merging::types_differ(slot) {
        let i = choose|i: int|
            0 <= i < slot.members.len() && text::squeezed((#[trigger] slot.members[i]).c_type)
                != text::squeezed(slot.members[0].c_type);
        if of_one_type(slot) {
            assert(text::squeezed(slot.members[i].c_type) == text::squeezed(
                slot.members[0].c_type,
            ));
        }
    } else {
        assert forall|i: int, j: int|
            0 <= i < slot.members.len() && 0 <= j < slot.members.len() implies text::squeezed(
            (#[trigger] slot.members[i]).c_type,
        ) == text::squeezed((#[trigger] slot.members[j]).c_type) by {
        }
    }
}

proof fn last_slots_decide(slots: Seq<SlotView>, decision: LayoutDecision, n: int)
    requires
        0 <= n <= slots.len(),
    ensures
        match slot_merging::reuse_reason(slots, decision.field, n) {
            Some(reason) => exists|k: int|
                0 <= k < n && shares(#[trigger] slots[k], decision) && fitting_reason(
                    slots[k],
                    reason,
                ),
            None => forall|k: int| 0 <= k < n ==> !shares(#[trigger] slots[k], decision),
        },
    decreases n,
{
    if n > 0 {
        last_slots_decide(slots, decision, n - 1);
        reasons_fit(slots[n - 1]);
        if shares(slots[n - 1], decision) {
            assert(slot_merging::slot_holds(slots[n - 1], decision.field));
        } else if let Some(reason) = slot_merging::reuse_reason(slots, decision.field, n - 1) {
            let k = choose|k: int|
                0 <= k < n - 1 && shares(#[trigger] slots[k], decision) && fitting_reason(
                    slots[k],
                    reason,
                );
            assert(shares(slots[k], decision));
        }
    }
}

/// A decision on a field that shares a slot says so, and whether all that share the
/// slot have one type. Every other decision is left as it was, and every decision
/// stays on its field.
pub proof fn decisions_say_what_is_shared(
    decisions: Seq<LayoutDecision>,
    slots: Seq<SlotView>,
    i: int,
)
    requires
        0 <= i < decisions.len(),
    ensures
        ({
            let after = slot_merging::reuse_decisions(decisions, slots);
            &&& after.len() == decisions.len()
            &&& after[i].field == decisions[i].field
            &&& (exists|k: int| 0 <= k < slots.len() && shares(#[trigger] slots[k], decisions[i]))
                ==> exists|k: int|
                0 <= k < slots.len() && shares(#[trigger] slots[k], decisions[i])
                    && fitting_reason(slots[k], after[i].reason)
            &&& (forall|k: int|
                0 <= k < slots.len() ==> !shares(#[trigger] slots[k], decisions[i])) ==> after[i]
                == decisions[i]
        }),
{
    last_slots_decide(slots, decisions[i], slots.len() as int);
}

proof fn members_are_known(
    model: TargetLayoutModel,
    members: Seq<MemberView>,
    generated: Seq<(Seq<char>, TypeLayout)>,
    n: int,
)
    requires
        0 <= n <= members.len(),
    ensures
        match layout_knowledge::member_layouts(model, members, generated, n) {
            Known::Exact(found) => found.len() == n && forall|m: int|
                0 <= m < n ==> target_layout::layout_of_type(
                    model,
                    (#[trigger] members[m]).c_type,
                    generated,
                ) == Known::Exact(found[m]),
            Known::Unknown(reason) => exists|m: int|
                0 <= m < n && target_layout::layout_of_type(
                    model,
                    (#[trigger] members[m]).c_type,
                    generated,
                ) == Known::<TypeLayout>::Unknown(reason),
        },
    decreases n,
{
    if n > 0 {
        members_are_known(model, members, generated, n - 1);
        match layout_knowledge::member_layouts(model, members, generated, n - 1) {
            Known::Exact(before) => {
                if let Known::Unknown(reason) = target_layout::layout_of_type(
                    model,
                    members[n - 1].c_type,
                    generated,
                ) {
                    assert(members[n - 1].c_type == members[n - 1].c_type);
                }
            },
            Known::Unknown(reason) => {
                let m = choose|m: int|
                    0 <= m < n - 1 && target_layout::layout_of_type(
                        model,
                        (#[trigger] members[m]).c_type,
                        generated,
                    ) == Known::<TypeLayout>::Unknown(reason);
                assert(members[m].c_type == members[m].c_type);
            },
        }
    }
}

/// A slot of known layout has room for each of its members, whichever of them it
/// holds, and is aligned for it. A slot with one field is laid out like the field.
pub proof fn slots_have_room_for_their_members(
    model: TargetLayoutModel,
    slot: SlotView,
    generated: Seq<(Seq<char>, TypeLayout)>,
    m: int,
)
    requires
        0 <= m < slot.members.len(),
        slot.kind == PhysicalSlotKind::Direct ==> slot.members.len() == 1,
    ensures
        layout_knowledge::slot_layout(model, slot, generated) matches Known::Exact(layout) ==> {
            let own = target_layout::layout_of_type(model, slot.members[m].c_type, generated);
            &&& own is Exact
            &&& own->Exact_0.size <= layout.size
            &&& own->Exact_0.align <= layout.align
            &&& slot.kind == PhysicalSlotKind::Direct ==> own->Exact_0 == layout
        },
{
    members_are_known(model, slot.members, generated, slot.members.len() as int);
    if let Known::Exact(found) = layout_knowledge::member_layouts(
        model,
        slot.members,
        generated,
        slot.members.len() as int,
    ) {
        target_laws::unions_hold_every_member(found);
        assert(target_layout::layout_of_type(model, slot.members[m].c_type, generated)
            == Known::Exact(found[m]));
        assert(found[m].size == found[m].size);
    }
}

proof fn slots_are_known(
    model: TargetLayoutModel,
    slots: Seq<SlotView>,
    generated: Seq<(Seq<char>, TypeLayout)>,
    n: int,
)
    requires
        0 <= n <= slots.len(),
    ensures
        match layout_knowledge::slot_layouts(model, slots, generated, n) {
            Known::Exact(found) => found.len() == n && forall|k: int|
                0 <= k < n ==> layout_knowledge::slot_layout(model, #[trigger] slots[k], generated)
                    == Known::Exact(found[k]),
            Known::Unknown(reason) => exists|k: int|
                0 <= k < n && layout_knowledge::slot_layout(model, #[trigger] slots[k], generated)
                    == Known::<TypeLayout>::Unknown(reason),
        },
    decreases n,
{
    if n > 0 {
        slots_are_known(model, slots, generated, n - 1);
        match layout_knowledge::slot_layouts(model, slots, generated, n - 1) {
            Known::Exact(before) => {},
            Known::Unknown(reason) => {
                let k = choose|k: int|
                    0 <= k < n - 1 && layout_knowledge::slot_layout(
                        model,
                        #[trigger] slots[k],
                        generated,
                    ) == Known::<TypeLayout>::Unknown(reason);
                assert(slots[k] == slots[k]);
            },
        }
    }
}

/// Whether layouts are those of slots, one for each.
pub open spec fn laid_out(
    model: TargetLayoutModel,
    slots: Seq<SlotView>,
    generated: Seq<(Seq<char>, TypeLayout)>,
    fields: Seq<TypeLayout>,
) -> bool {
    fields.len() == slots.len() && forall|k: int|
        0 <= k < slots.len() ==> layout_knowledge::slot_layout(
            model,
            #[trigger] slots[k],
            generated,
        ) == Known::Exact(fields[k])
}

/// A context is laid out as a structure of its slots. If the layout of a slot isn't
/// known, neither is that of the context.
pub proof fn contexts_are_structures_of_their_slots(
    model: TargetLayoutModel,
    slots: Seq<SlotView>,
    generated: Seq<(Seq<char>, TypeLayout)>,
)
    ensures
        ({
            let whole = layout_knowledge::context_layout_of(model, slots, generated);
            ||| exists|fields: Seq<TypeLayout>| #[trigger]
                laid_out(model, slots, generated, fields) && whole
                    == target_layout::layout_of_struct(fields)
            ||| whole is Unknown && exists|k: int|
                0 <= k < slots.len() && layout_knowledge::slot_layout(
                    model,
                    #[trigger] slots[k],
                    generated,
                ) is Unknown
        }),
{
    slots_are_known(model, slots, generated, slots.len() as int);
    match layout_knowledge::slot_layouts(model, slots, generated, slots.len() as int) {
        Known::Exact(found) => {
            assert(laid_out(model, slots, generated, found));
        },
        Known::Unknown(reason) => {
            let k = choose|k: int|
                0 <= k < slots.len() && layout_knowledge::slot_layout(
                    model,
                    #[trigger] slots[k],
                    generated,
                ) == Known::<TypeLayout>::Unknown(reason);
            assert(layout_knowledge::slot_layout(model, slots[k], generated) is Unknown);
        },
    }
}

} // verus!
