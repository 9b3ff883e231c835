//! How the size of a context depends on the sizes of what it holds.

use vstd::prelude::*;

use crate::context_layout::{MemberView, PhysicalSlotKind, SlotView};
use crate::layout_knowledge;
use crate::target_layout;
use crate::target_layout::{Known, TargetLayoutModel, TypeLayout};

verus! {

/// Whether a type may take the place of another: aligned alike and no larger,
/// or the same.
pub open spec fn fits(new: TypeLayout, old: TypeLayout, same: bool) -> bool {
    new.align == old.align && new.size <= old.size && (same ==> new.size == old.size)
}

/// Whether every generated type that is known is still known, and fits.
pub open spec fn types_fit(
    new: Seq<(Seq<char>, TypeLayout)>,
    old: Seq<(Seq<char>, TypeLayout)>,
    same: bool,
) -> bool {
    forall|name: Seq<char>|
        match #[trigger] target_layout::generated_layout(old, name, 0) {
            Some(layout) => match target_layout::generated_layout(new, name, 0) {
                Some(other) => fits(other, layout, same),
                None => false,
            },
            None => true,
        }
}

/// Whether one list of layouts fits in the places of another.
pub open spec fn all_fit(new: Seq<TypeLayout>, old: Seq<TypeLayout>, same: bool) -> bool {
    new.len() == old.len() && forall|i: int|
        0 <= i < old.len() ==> fits(#[trigger] new[i], old[i], same)
}

/// Aligning keeps offsets in order.
pub proof fn aligned_grows(small: nat, large: nat, align: nat)
    requires
        small <= large,
    ensures
        target_layout::aligned(small, align) <= target_layout::aligned(large, align),
{
    if align > 0 {
        let a = (small + align - 1) as nat;
        let b = (large + align - 1) as nat;
        assert(a / align <= b / align) by (nonlinear_arith)
            requires
                a <= b,
                align > 0,
        ;
        let (x, y) = (a / align, b / align);
        assert(x * align <= y * align) by (nonlinear_arith)
            requires
                x <= y,
        ;
    }
}

proof fn type_fits(
    model: TargetLayoutModel,
    c_type: Seq<char>,
    new: Seq<(Seq<char>, TypeLayout)>,
    old: Seq<(Seq<char>, TypeLayout)>,
    same: bool,
)
    requires
        types_fit(new, old, same),
        target_layout::layout_of_type(model, c_type, old) is Exact,
    ensures
        match target_layout::layout_of_type(model, c_type, new) {
            Known::Exact(layout) => fits(
                layout,
                target_layout::layout_of_type(model, c_type, old)->Exact_0,
                same,
            ),
            Known::Unknown(reason) => false,
        },
{
    let s = crate::text::squeezed(c_type);
    let bracket = crate::text::first_occurrence(s, "["@, 0);
    let base = crate::text::trim_back(s.take(bracket));
    let plain = target_layout::unqualified(s);
    let element = target_layout::unqualified(base);
    assert(match target_layout::generated_layout(old, plain, 0) {
        Some(layout) => target_layout::generated_layout(new, plain, 0) is Some,
        None => true,
    });
    assert(match target_layout::generated_layout(old, element, 0) {
        Some(layout) => target_layout::generated_layout(new, element, 0) is Some,
        None => true,
    });
    if bracket >= 0 && !crate::text::occurs(s, "(*)"@) {
        let a = target_layout::plain_layout(model, base, new)->Exact_0.size;
        let b = target_layout::plain_layout(model, base, old)->Exact_0.size;
        let count = target_layout::element_count(s, bracket, 1)->0;
        assert(a * count <= b * count) by (nonlinear_arith)
            requires
                a <= b,
        ;
    }
}

proof fn members_fit(
    model: TargetLayoutModel,
    members: Seq<MemberView>,
    new: Seq<(Seq<char>, TypeLayout)>,
    old: Seq<(Seq<char>, TypeLayout)>,
    same: bool,
    n: int,
)
    requires
        types_fit(new, old, same),
        layout_knowledge::member_layouts(model, members, old, n) is Exact,
    ensures
        match layout_knowledge::member_layouts(model, members, new, n) {
            Known::Exact(layouts) => all_fit(
                layouts,
                layout_knowledge::member_layouts(model, members, old, n)->Exact_0,
                same,
            ),
            Known::Unknown(reason) => false,
        },
    decreases n,
{
    if n > 0 {
        members_fit(model, members, new, old, same, n - 1);
        type_fits(model, members[n - 1].c_type, new, old, same);
    }
}

proof fn largest_fit(new: Seq<TypeLayout>, old: Seq<TypeLayout>, same: bool, n: int)
    requires
        all_fit(new, old, same),
        n <= old.len(),
    ensures
        target_layout::largest_size(new, n) <= target_layout::largest_size(old, n),
        same ==> target_layout::largest_size(new, n) == target_layout::largest_size(old, n),
        target_layout::largest_align(new, n) == target_layout::largest_align(old, n),
    decreases n,
{
    if n > 0 {
        largest_fit(new, old, same, n - 1);
        assert(fits(new[n - 1], old[n - 1], same));
    }
}

proof fn slot_fits(
    model: TargetLayoutModel,
    slot: SlotView,
    new: Seq<(Seq<char>, TypeLayout)>,
    old: Seq<(Seq<char>, TypeLayout)>,
    same: bool,
)
    requires
        types_fit(new, old, same),
        layout_knowledge::slot_layout(model, slot, old) is Exact,
    ensures
        match layout_knowledge::slot_layout(model, slot, new) {
            Known::Exact(layout) => fits(
                layout,
                layout_knowledge::slot_layout(model, slot, old)->Exact_0,
                same,
            ),
            Known::Unknown(reason) => false,
        },
{
    match slot.kind {
        PhysicalSlotKind::Direct => {
            type_fits(model, slot.members[0].c_type, new, old, same);
        },
        PhysicalSlotKind::Union => {
            let n = slot.members.len() as int;
            members_fit(model, slot.members, new, old, same, n);
            let a = layout_knowledge::member_layouts(model, slot.members, new, n)->Exact_0;
            let b = layout_knowledge::member_layouts(model, slot.members, old, n)->Exact_0;
            largest_fit(a, b, same, a.len() as int);
            aligned_grows(
                target_layout::largest_size(a, a.len() as int) as nat,
                target_layout::largest_size(b, b.len() as int) as nat,
                target_layout::largest_align(b, b.len() as int) as nat,
            );
        },
    }
}

proof fn slots_fit(
    model: TargetLayoutModel,
    slots: Seq<SlotView>,
    new: Seq<(Seq<char>, TypeLayout)>,
    old: Seq<(Seq<char>, TypeLayout)>,
    same: bool,
    n: int,
)
    requires
        types_fit(new, old, same),
        layout_knowledge::slot_layouts(model, slots, old, n) is Exact,
    ensures
        match layout_knowledge::slot_layouts(model, slots, new, n) {
            Known::Exact(layouts) => all_fit(
                layouts,
                layout_knowledge::slot_layouts(model, slots, old, n)->Exact_0,
                same,
            ),
            Known::Unknown(reason) => false,
        },
    decreases n,
{
    if n > 0 {
        slots_fit(model, slots, new, old, same, n - 1);
        slot_fits(model, slots[n - 1], new, old, same);
    }
}

proof fn fields_fit(new: Seq<TypeLayout>, old: Seq<TypeLayout>, same: bool, n: int)
    requires
        all_fit(new, old, same),
        n <= old.len(),
        target_layout::placed_fields(old, n) is Some,
    ensures
        match target_layout::placed_fields(new, n) {
            Some(placed) => {
                let before = target_layout::placed_fields(old, n)->0;
                placed.0 <= before.0 && (same ==> placed.0 == before.0) && placed.1 == before.1
            },
            None => false,
        },
    decreases n,
{
    if n > 0 {
        fields_fit(new, old, same, n - 1);
        assert(fits(new[n - 1], old[n - 1], same));
        aligned_grows(
            (target_layout::placed_fields(new, n - 1)->0).0,
            (target_layout::placed_fields(old, n - 1)->0).0,
            old[n - 1].align as nat,
        );
    }
}

/// What is known of a context as a type.
pub open spec fn context_type(
    model: TargetLayoutModel,
    slots: Seq<SlotView>,
    generated: Seq<(Seq<char>, TypeLayout)>,
) -> Option<TypeLayout> {
    match layout_knowledge::context_layout_of(model, slots, generated) {
        Known::Exact(known) => Some(TypeLayout { size: known.size, align: known.align }),
        Known::Unknown(reason) => None,
    }
}

/// A context of known size stays known where more is known of what it holds,
/// and gets no larger where that gets no larger.
pub proof fn context_fits(
    model: TargetLayoutModel,
    slots: Seq<SlotView>,
    new: Seq<(Seq<char>, TypeLayout)>,
    old: Seq<(Seq<char>, TypeLayout)>,
    same: bool,
)
    requires
        types_fit(new, old, same),
        context_type(model, slots, old) is Some,
    ensures
        match context_type(model, slots, new) {
            Some(layout) => fits(layout, context_type(model, slots, old)->0, same),
            None => false,
        },
{
    let n = slots.len() as int;
    slots_fit(model, slots, new, old, same, n);
    let a = layout_knowledge::slot_layouts(model, slots, new, n)->Exact_0;
    let b = layout_knowledge::slot_layouts(model, slots, old, n)->Exact_0;
    fields_fit(a, b, same, b.len() as int);
    let (x, y) = (
        target_layout::placed_fields(a, a.len() as int)->0,
        target_layout::placed_fields(b, b.len() as int)->0,
    );
    aligned_grows(x.0, y.0, y.1 as nat);
}

/// Whether a context has a member of a type.
pub open spec fn uses(slots: Seq<SlotView>, c_type: Seq<char>) -> bool {
    exists|i: int, m: int|
        0 <= i < slots.len() && 0 <= m < slots[i].members.len() && (
        #[trigger] slots[i].members[m]).c_type == c_type
}

/// Whether every slot has members, and a slot of its own only one.
pub open spec fn plainly_shaped(slots: Seq<SlotView>) -> bool {
    forall|i: int|
        0 <= i < slots.len() ==> (#[trigger] slots[i]).members.len() > 0 && (slots[i].kind
            == PhysicalSlotKind::Direct ==> slots[i].members.len() == 1)
}

proof fn member_known(
    model: TargetLayoutModel,
    members: Seq<MemberView>,
    generated: Seq<(Seq<char>, TypeLayout)>,
    n: int,
    m: int,
)
    requires
        0 <= m < n <= members.len(),
        layout_knowledge::member_layouts(model, members, generated, n) is Exact,
    ensures
        layout_knowledge::member_layouts(model, members, generated, n)->Exact_0.len() == n,
        target_layout::layout_of_type(model, members[m].c_type, generated) == Known::Exact(
            layout_knowledge::member_layouts(model, members, generated, n)->Exact_0[m],
        ),
    decreases n,
{
    members_counted(model, members, generated, n);
    members_counted(model, members, generated, n - 1);
    if m < n - 1 {
        member_known(model, members, generated, n - 1, m);
    }
}

proof fn members_counted(
    model: TargetLayoutModel,
    members: Seq<MemberView>,
    generated: Seq<(Seq<char>, TypeLayout)>,
    n: int,
)
    requires
        0 <= n <= members.len(),
        layout_knowledge::member_layouts(model, members, generated, n) is Exact,
    ensures
        layout_knowledge::member_layouts(model, members, generated, n)->Exact_0.len() == n,
    decreases n,
{
    if n > 0 {
        members_counted(model, members, generated, n - 1);
    }
}

/// The layout of a context is made from the layouts of its slots.
pub proof fn slot_known(
    model: TargetLayoutModel,
    slots: Seq<SlotView>,
    generated: Seq<(Seq<char>, TypeLayout)>,
    n: int,
    i: int,
)
    requires
        0 <= i < n <= slots.len(),
        layout_knowledge::slot_layouts(model, slots, generated, n) is Exact,
    ensures
        layout_knowledge::slot_layouts(model, slots, generated, n)->Exact_0.len() == n,
        layout_knowledge::slot_layout(model, slots[i], generated) == Known::Exact(
            layout_knowledge::slot_layouts(model, slots, generated, n)->Exact_0[i],
        ),
    decreases n,
{
    slots_counted(model, slots, generated, n);
    slots_counted(model, slots, generated, n - 1);
    if i < n - 1 {
        slot_known(model, slots, generated, n - 1, i);
    }
}

/// Every slot has a layout of its own.
pub proof fn slots_counted(
    model: TargetLayoutModel,
    slots: Seq<SlotView>,
    generated: Seq<(Seq<char>, TypeLayout)>,
    n: int,
)
    requires
        0 <= n <= slots.len(),
        layout_knowledge::slot_layouts(model, slots, generated, n) is Exact,
    ensures
        layout_knowledge::slot_layouts(model, slots, generated, n)->Exact_0.len() == n,
    decreases n,
{
    if n > 0 {
        slots_counted(model, slots, generated, n - 1);
    }
}

proof fn largest_align_is(members: Seq<TypeLayout>, n: int)
    requires
        0 <= n <= members.len(),
    ensures
        forall|m: int|
            0 <= m < n ==> (#[trigger] members[m]).align <= target_layout::largest_align(
                members,
                n,
            ),
        target_layout::largest_align(members, n) == 1 || exists|m: int|
            0 <= m < n && (#[trigger] members[m]).align == target_layout::largest_align(
                members,
                n,
            ),
        target_layout::largest_align(members, n) >= 1,
    decreases n,
{
    if n > 0 {
        largest_align_is(members, n - 1);
        let before = target_layout::largest_align(members, n - 1);
        if before != 1 && members[n - 1].align <= before {
            let m = choose|m: int| 0 <= m < n - 1 && (#[trigger] members[m]).align == before;
            assert(members[m].align == before);
        }
    }
}

/// The alignment of a structure is the largest of its fields.
pub proof fn struct_align_is(fields: Seq<TypeLayout>, n: int)
    requires
        0 <= n <= fields.len(),
        target_layout::placed_fields(fields, n) is Some,
    ensures
        (target_layout::placed_fields(fields, n)->0).1 == target_layout::largest_align(fields, n),
    decreases n,
{
    if n > 0 {
        struct_align_is(fields, n - 1);
    }
}

/// What the alignment of a slot is: that of a member, none of which has a
/// larger one.
proof fn slot_align_is(
    model: TargetLayoutModel,
    slot: SlotView,
    generated: Seq<(Seq<char>, TypeLayout)>,
)
    requires
        slot.members.len() > 0,
        slot.kind == PhysicalSlotKind::Direct ==> slot.members.len() == 1,
        layout_knowledge::slot_layout(model, slot, generated) is Exact,
    ensures
        ({
            let align = layout_knowledge::slot_layout(model, slot, generated)->Exact_0.align;
            &&& forall|m: int|
                0 <= m < slot.members.len() ==> match target_layout::layout_of_type(
                    model,
                    (#[trigger] slot.members[m]).c_type,
                    generated,
                ) {
                    Known::Exact(layout) => layout.align <= align,
                    Known::Unknown(reason) => false,
                }
            &&& align <= 1 || exists|m: int|
                0 <= m < slot.members.len() && target_layout::layout_of_type(
                    model,
                    (#[trigger] slot.members[m]).c_type,
                    generated,
                )->Exact_0.align == align
        }),
{
    let n = slot.members.len() as int;
    match slot.kind {
        PhysicalSlotKind::Direct => {
            assert(slot.members[0].c_type == slot.members[0].c_type);
        },
        PhysicalSlotKind::Union => {
            let layouts = layout_knowledge::member_layouts(
                model,
                slot.members,
                generated,
                n,
            )->Exact_0;
            members_counted(model, slot.members, generated, n);
            largest_align_is(layouts, n);
            assert forall|m: int| 0 <= m < n implies match target_layout::layout_of_type(
                model,
                (#[trigger] slot.members[m]).c_type,
                generated,
            ) {
                Known::Exact(layout) => layout.align <= target_layout::largest_align(layouts, n),
                Known::Unknown(reason) => false,
            } by {
                member_known(model, slot.members, generated, n, m);
                assert(layouts[m].align <= target_layout::largest_align(layouts, n));
            }
            let align = target_layout::largest_align(layouts, n);
            if align > 1 {
                let m = choose|m: int| 0 <= m < n && (#[trigger] layouts[m]).align == align;
                member_known(model, slot.members, generated, n, m);
                assert(target_layout::layout_of_type(
                    model,
                    slot.members[m].c_type,
                    generated,
                )->Exact_0.align == align);
            }
        },
    }
}

/// What the alignment of a context is: that of a member, none of which has a
/// larger one, and at least one.
proof fn fields_align_is(
    model: TargetLayoutModel,
    slots: Seq<SlotView>,
    generated: Seq<(Seq<char>, TypeLayout)>,
)
    requires
        plainly_shaped(slots),
        layout_knowledge::slot_layouts(model, slots, generated, slots.len() as int) is Exact,
    ensures
        ({
            let n = slots.len() as int;
            let fields = layout_knowledge::slot_layouts(model, slots, generated, n)->Exact_0;
            let align = target_layout::largest_align(fields, n);
            &&& fields.len() == n
            &&& align >= 1
            &&& forall|c_type: Seq<char>| #[trigger]
                uses(slots, c_type) ==> match target_layout::layout_of_type(
                    model,
                    c_type,
                    generated,
                ) {
                    Known::Exact(layout) => layout.align <= align,
                    Known::Unknown(reason) => false,
                }
            &&& align == 1 || exists|c_type: Seq<char>| #[trigger]
                uses(slots, c_type) && target_layout::layout_of_type(
                    model,
                    c_type,
                    generated,
                )->Exact_0.align == align
        }),
{
    let n = slots.len() as int;
    let fields = layout_knowledge::slot_layouts(model, slots, generated, n)->Exact_0;
    slots_counted(model, slots, generated, n);
    largest_align_is(fields, n);
    let align = target_layout::largest_align(fields, n);
    assert forall|c_type: Seq<char>| #[trigger] uses(slots, c_type) implies match target_layout::layout_of_type(
        model,
        c_type,
        generated,
    ) {
        Known::Exact(layout) => layout.align <= align,
        Known::Unknown(reason) => false,
    } by {
        let (i, m) = choose|i: int, m: int|
            0 <= i < slots.len() && 0 <= m < slots[i].members.len() && (
            #[trigger] slots[i].members[m]).c_type == c_type;
        slot_known(model, slots, generated, n, i);
        assert(slots[i].members.len() > 0);
        slot_align_is(model, slots[i], generated);
        assert(fields[i].align <= align);
        assert(slots[i].members[m].c_type == c_type);
    }
    if align > 1 {
        let i = choose|i: int| 0 <= i < n && (#[trigger] fields[i]).align == align;
        slot_known(model, slots, generated, n, i);
        assert(slots[i].members.len() > 0);
        slot_align_is(model, slots[i], generated);
        let m = choose|m: int|
            0 <= m < slots[i].members.len() && target_layout::layout_of_type(
                model,
                (#[trigger] slots[i].members[m]).c_type,
                generated,
            )->Exact_0.align == align;
        let c_type = slots[i].members[m].c_type;
        assert(uses(slots, c_type));
    }
}

/// Whether two contexts have members of the same types.
pub open spec fn same_types(a: Seq<SlotView>, b: Seq<SlotView>) -> bool {
    forall|c_type: Seq<char>|
        #![trigger uses(a, c_type)]
        #![trigger uses(b, c_type)]
        uses(a, c_type) <==> uses(b, c_type)
}

/// Two contexts with members of the same types are aligned alike.
pub proof fn same_types_align_alike(
    model: TargetLayoutModel,
    a: Seq<SlotView>,
    b: Seq<SlotView>,
    generated: Seq<(Seq<char>, TypeLayout)>,
)
    requires
        plainly_shaped(a),
        plainly_shaped(b),
        same_types(a, b),
        layout_knowledge::slot_layouts(model, a, generated, a.len() as int) is Exact,
        layout_knowledge::slot_layouts(model, b, generated, b.len() as int) is Exact,
    ensures
        ({
            let first = layout_knowledge::slot_layouts(model, a, generated, a.len() as int);
            let second = layout_knowledge::slot_layouts(model, b, generated, b.len() as int);
            &&& first->Exact_0.len() == a.len()
            &&& second->Exact_0.len() == b.len()
            &&& target_layout::largest_align(first->Exact_0, a.len() as int)
                == target_layout::largest_align(second->Exact_0, b.len() as int)
            &&& context_type(model, a, generated) is Some && context_type(
                model,
                b,
                generated,
            ) is Some ==> context_type(model, a, generated)->0.align == context_type(
                model,
                b,
                generated,
            )->0.align
        }),
{
    fields_align_is(model, a, generated);
    fields_align_is(model, b, generated);
    let first = layout_knowledge::slot_layouts(model, a, generated, a.len() as int);
    let second = layout_knowledge::slot_layouts(model, b, generated, b.len() as int);
    if context_type(model, a, generated) is Some && context_type(model, b, generated) is Some {
        struct_align_is(first->Exact_0, a.len() as int);
        struct_align_is(second->Exact_0, b.len() as int);
    }
}

proof fn members_by_types(
    model: TargetLayoutModel,
    members: Seq<MemberView>,
    a: Seq<(Seq<char>, TypeLayout)>,
    b: Seq<(Seq<char>, TypeLayout)>,
    n: int,
)
    requires
        n <= members.len(),
        forall|m: int|
            0 <= m < n ==> target_layout::layout_of_type(model, (#[trigger] members[m]).c_type, a)
                == target_layout::layout_of_type(model, members[m].c_type, b),
    ensures
        layout_knowledge::member_layouts(model, members, a, n)
            == layout_knowledge::member_layouts(model, members, b, n),
    decreases n,
{
    if n > 0 {
        members_by_types(model, members, a, b, n - 1);
        assert(members[n - 1].c_type == members[n - 1].c_type);
    }
}

proof fn slots_by_types(
    model: TargetLayoutModel,
    slots: Seq<SlotView>,
    a: Seq<(Seq<char>, TypeLayout)>,
    b: Seq<(Seq<char>, TypeLayout)>,
    n: int,
)
    requires
        n <= slots.len(),
        plainly_shaped(slots),
        forall|c_type: Seq<char>| #[trigger]
            uses(slots, c_type) ==> target_layout::layout_of_type(model, c_type, a)
                == target_layout::layout_of_type(model, c_type, b),
    ensures
        layout_knowledge::slot_layouts(model, slots, a, n) == layout_knowledge::slot_layouts(
            model,
            slots,
            b,
            n,
        ),
    decreases n,
{
    if n > 0 {
        slots_by_types(model, slots, a, b, n - 1);
        let slot = slots[n - 1];
        assert(slot.members.len() > 0);
        assert forall|m: int| 0 <= m < slot.members.len() implies target_layout::layout_of_type(
            model,
            (#[trigger] slot.members[m]).c_type,
            a,
        ) == target_layout::layout_of_type(model, slot.members[m].c_type, b) by {
            assert(slots[n - 1].members[m].c_type == slot.members[m].c_type);
            assert(uses(slots, slot.members[m].c_type));
        }
        members_by_types(model, slot.members, a, b, slot.members.len() as int);
        assert(target_layout::layout_of_type(model, slot.members[0].c_type, a)
            == target_layout::layout_of_type(model, slot.members[0].c_type, b));
    }
}

/// Where one of two contexts with members of the same types is known from
/// less, the other is known from as little: it is what it is from more.
pub proof fn same_types_known_alike(
    model: TargetLayoutModel,
    known: Seq<SlotView>,
    other: Seq<SlotView>,
    more: Seq<(Seq<char>, TypeLayout)>,
    less: Seq<(Seq<char>, TypeLayout)>,
)
    requires
        plainly_shaped(known),
        plainly_shaped(other),
        same_types(known, other),
        types_fit(more, less, true),
        context_type(model, known, less) is Some,
    ensures
        context_type(model, other, less) == context_type(model, other, more),
{
    fields_align_is(model, known, less);
    assert forall|c_type: Seq<char>| #[trigger] uses(
        other,
        c_type,
    ) implies target_layout::layout_of_type(model, c_type, less)
        == target_layout::layout_of_type(model, c_type, more) by {
        assert(uses(known, c_type));
        type_fits(model, c_type, more, less, true);
    }
    slots_by_types(model, other, less, more, other.len() as int);
}

} // verus!
