//! Sharing storage among values of one type never makes a context larger.

use vstd::prelude::*;

use crate::c_static_plan::{CStaticAwaitPlan, FunctionPlanView};
use crate::config::{OptimizationLevel, TargetConfig};
use crate::context_layout;
use crate::context_layout::{LayoutView, MemberView, PhysicalSlotKind, SlotView};
use crate::context_soundness;
use crate::identity_layout;
use crate::known_sizes;
use crate::layout_knowledge;
use crate::layout_passes;
use crate::liveness::LivenessFunction;
use crate::order;
use crate::size_laws;
use crate::size_layout;
use crate::size_levels;
use crate::size_rounds;
use crate::slot_liveness::{SlotLivenessFunction, SlotLivenessUnit};
use crate::speed_layout;
use crate::speed_layout::{CandidateView, Merging};
use crate::speed_soundness;
use crate::target_layout;
use crate::target_layout::{Known, TargetLayoutModel, TypeLayout};
use crate::text;

verus! {

/// Whether a type has an alignment that divides its size.
pub open spec fn whole(layout: TypeLayout) -> bool {
    layout.align >= 1 && layout.size % layout.align == 0
}

/// Whether every generated type that is known is whole.
pub open spec fn all_whole(generated: Seq<(Seq<char>, TypeLayout)>) -> bool {
    forall|name: Seq<char>|
        match #[trigger] target_layout::generated_layout(generated, name, 0) {
            Some(layout) => whole(layout),
            None => true,
        }
}

proof fn aligned_divides(offset: nat, align: nat)
    requires
        align >= 1,
    ensures
        target_layout::aligned(offset, align) % align == 0,
        offset % align == 0 ==> target_layout::aligned(offset, align) == offset,
{
    let x = (offset + align - 1) as nat;
    let q = x / align;
    assert((q * align) % align == 0) by (nonlinear_arith)
        requires
            align >= 1,
    ;
    if offset % align == 0 {
        let d = offset / align;
        assert(offset == d * align) by (nonlinear_arith)
            requires
                align >= 1,
                d == offset / align,
                offset % align == 0,
        ;
        assert(q == d) by (nonlinear_arith)
            requires
                align >= 1,
                offset == d * align,
                q == ((offset + align - 1) as nat) / align,
        ;
    }
}

proof fn type_whole(
    target: TargetConfig,
    model: TargetLayoutModel,
    c_type: Seq<char>,
    generated: Seq<(Seq<char>, TypeLayout)>,
)
    requires
        target_layout::model_of(target) == Some(model),
        all_whole(generated),
        target_layout::layout_of_type(model, c_type, generated) is Exact,
    ensures
        whole(target_layout::layout_of_type(model, c_type, generated)->Exact_0),
{
    let s = text::squeezed(c_type);
    let bracket = text::first_occurrence(s, "["@, 0);
    let base = text::trim_back(s.take(bracket));
    plain_whole(target, model, s, generated);
    plain_whole(target, model, base, generated);
    if bracket >= 0 && !text::occurs(s, "(*)"@) {
        let element = target_layout::plain_layout(model, base, generated)->Exact_0;
        let count = target_layout::element_count(s, bracket, 1)->0;
        let (size, align) = (element.size as nat, element.align as nat);
        assert((size * count) % align == 0) by (nonlinear_arith)
            requires
                align >= 1,
                size % align == 0,
        {
            let d = size / align;
            assert(size == d * align);
            assert(size * count == (d * count) * align);
        }
    }
}

proof fn plain_whole(
    target: TargetConfig,
    model: TargetLayoutModel,
    s: Seq<char>,
    generated: Seq<(Seq<char>, TypeLayout)>,
)
    requires
        target_layout::model_of(target) == Some(model),
        all_whole(generated),
    ensures
        match target_layout::plain_layout(model, s, generated) {
            Known::Exact(layout) => whole(layout),
            Known::Unknown(reason) => true,
        },
{
    let name = target_layout::unqualified(s);
    assert(match target_layout::generated_layout(generated, name, 0) {
        Some(layout) => whole(layout),
        None => true,
    });
}

proof fn context_whole(
    model: TargetLayoutModel,
    slots: Seq<SlotView>,
    generated: Seq<(Seq<char>, TypeLayout)>,
)
    ensures
        match known_sizes::context_type(model, slots, generated) {
            Some(layout) => whole(layout),
            None => true,
        },
{
    let n = slots.len() as int;
    if known_sizes::context_type(model, slots, generated) is Some {
        let fields = layout_knowledge::slot_layouts(model, slots, generated, n)->Exact_0;
        let placed = target_layout::placed_fields(fields, fields.len() as int)->0;
        known_sizes::struct_align_is(fields, fields.len() as int);
        largest_align_positive(fields, fields.len() as int);
        aligned_divides(placed.0, placed.1 as nat);
    }
}

proof fn largest_align_positive(members: Seq<TypeLayout>, n: int)
    ensures
        target_layout::largest_align(members, n) >= 1,
    decreases n,
{
    if n > 0 {
        largest_align_positive(members, n - 1);
    }
}

proof fn exact_names(functions: Seq<(usize, LayoutView)>, n: int, name: Seq<char>)
    requires
        0 <= n <= functions.len(),
    ensures
        target_layout::generated_layout(
            size_layout::exact_types(functions, n),
            name,
            0,
        ) is Some ==> exists|i: int|
            0 <= i < n && (#[trigger] functions[i]).1.task_type == name,
    decreases n,
{
    if n > 0 {
        exact_names(functions, n - 1, name);
        let before = size_layout::exact_types(functions, n - 1);
        let own = functions[n - 1].1;
        if let Some(layout) = size_rounds::known_type(own) {
            size_rounds::given_layout(before, own.task_type, layout, name, 0);
        }
        if target_layout::generated_layout(
            size_layout::exact_types(functions, n),
            name,
            0,
        ) is Some {
            if own.task_type == name {
                assert(functions[n - 1].1.task_type == name);
            } else {
                let i = choose|i: int|
                    0 <= i < n - 1 && (#[trigger] functions[i]).1.task_type == name;
                assert(functions[i].1.task_type == name);
            }
        }
    }
}

/// All types that are known once sizes were computed are whole.
proof fn settled_types_whole(model: TargetLayoutModel, functions: Seq<(usize, LayoutView)>)
    requires
        size_rounds::names_distinct(functions),
    ensures
        ({
            let known = size_rounds::sizes_of(model, functions).functions;
            all_whole(size_layout::exact_types(known, known.len() as int))
        }),
{
    let known = size_rounds::sizes_of(model, functions).functions;
    let all = size_layout::exact_types(known, known.len() as int);
    assert forall|name: Seq<char>|
        match #[trigger] target_layout::generated_layout(all, name, 0) {
            Some(layout) => whole(layout),
            None => true,
        } by {
        if target_layout::generated_layout(all, name, 0) is Some {
            exact_names(known, known.len() as int, name);
            let i = choose|i: int|
                0 <= i < known.len() && (#[trigger] known[i]).1.task_type == name;
            if functions.len() > i {
                size_rounds::sizes_settled(model, functions, i);
            } else {
                size_rounds::sizes_counted(model, functions);
            }
            context_whole(model, known[i].1.slots, all);
        }
    }
}

/// Whether every candidate is the first member of a slot.
spec fn candidates_from(candidates: Seq<CandidateView>, slots: Seq<SlotView>, n: int) -> bool {
    forall|c: int|
        0 <= c < candidates.len() ==> exists|s: int|
            0 <= s < n && slots[s].members.len() > 0 && (#[trigger] slots[s]).members[0] == (
            #[trigger] candidates[c]).member && candidates[c].normalized_type
                == text::squeezed(slots[s].members[0].c_type)
}

proof fn candidates_found(
    slots: Seq<SlotView>,
    plan: Option<FunctionPlanView>,
    lifetimes: SlotLivenessFunction,
    n: int,
)
    requires
        0 <= n <= slots.len(),
    ensures
        candidates_from(speed_layout::candidates_of(slots, plan, lifetimes, n), slots, n),
        speed_layout::candidates_of(slots, plan, lifetimes, n).len() <= n,
    decreases n,
{
    if n > 0 {
        candidates_found(slots, plan, lifetimes, n - 1);
        let before = speed_layout::candidates_of(slots, plan, lifetimes, n - 1);
        let after = speed_layout::candidates_of(slots, plan, lifetimes, n);
        assert forall|c: int| 0 <= c < after.len() implies exists|s: int|
            0 <= s < n && slots[s].members.len() > 0 && (#[trigger] slots[s]).members[0] == (
            #[trigger] after[c]).member && after[c].normalized_type == text::squeezed(
                slots[s].members[0].c_type,
            ) by {
            if c < before.len() {
                assert(after[c] == before[c]);
                let s = choose|s: int|
                    0 <= s < n - 1 && slots[s].members.len() > 0 && (
                    #[trigger] slots[s]).members[0] == before[c].member
                        && before[c].normalized_type == text::squeezed(
                        slots[s].members[0].c_type,
                    );
                assert(slots[s].members[0] == after[c].member);
            } else {
                assert(slots[n - 1].members[0] == after[c].member);
            }
        }
    }
}

/// Whether the groups list candidates, each group candidates of one type.
spec fn groups_typed(
    candidates: Seq<CandidateView>,
    groups: Seq<Seq<usize>>,
    n: int,
) -> bool {
    forall|g: int, k: int|
        #![trigger groups[g][k]]
        0 <= g < groups.len() && 0 <= k < groups[g].len() ==> groups[g][k] < n
            && candidates[groups[g][k] as int].normalized_type
            == candidates[groups[g][0] as int].normalized_type
}

proof fn joined_typed(
    candidates: Seq<CandidateView>,
    groups: Seq<Seq<usize>>,
    c: int,
    lifetimes: SlotLivenessFunction,
    i: int,
)
    requires
        groups_typed(candidates, groups, c),
        0 <= i,
        0 <= c <= usize::MAX,
    ensures
        groups_typed(
            candidates,
            speed_layout::joined_groups(candidates, groups, c, lifetimes, i),
            c + 1,
        ),
    decreases groups.len() - i,
{
    let after = speed_layout::joined_groups(candidates, groups, c, lifetimes, i);
    if i >= groups.len() || speed_layout::can_join(candidates, groups[i], c, lifetimes) {
        assert forall|g: int, k: int|
            #![trigger after[g][k]]
            0 <= g < after.len() && 0 <= k < after[g].len() implies after[g][k] < c + 1
            && candidates[after[g][k] as int].normalized_type
            == candidates[after[g][0] as int].normalized_type by {
            if g < groups.len() && k < groups[g].len() {
                assert(after[g][k] == groups[g][k]);
                assert(after[g][0] == groups[g][0]);
            }
        }
    } else {
        joined_typed(candidates, groups, c, lifetimes, i + 1);
    }
}

proof fn all_typed(candidates: Seq<CandidateView>, lifetimes: SlotLivenessFunction, n: int)
    requires
        0 <= n <= candidates.len() <= usize::MAX,
    ensures
        groups_typed(candidates, speed_layout::groups_of(candidates, lifetimes, n), n),
    decreases n,
{
    if n > 0 {
        all_typed(candidates, lifetimes, n - 1);
        joined_typed(
            candidates,
            speed_layout::groups_of(candidates, lifetimes, n - 1),
            n - 1,
            lifetimes,
            0,
        );
    }
}

proof fn shared_typed(
    candidates: Seq<CandidateView>,
    groups: Seq<Seq<usize>>,
    m: int,
    n: int,
)
    requires
        groups_typed(candidates, groups, m),
        0 <= n <= groups.len(),
    ensures
        groups_typed(candidates, speed_layout::shared_groups(groups, n), m),
    decreases n,
{
    if n > 0 {
        shared_typed(candidates, groups, m, n - 1);
        let before = speed_layout::shared_groups(groups, n - 1);
        let after = speed_layout::shared_groups(groups, n);
        assert forall|g: int, k: int|
            #![trigger after[g][k]]
            0 <= g < after.len() && 0 <= k < after[g].len() implies after[g][k] < m
            && candidates[after[g][k] as int].normalized_type
            == candidates[after[g][0] as int].normalized_type by {
            if g < before.len() {
                assert(after[g][k] == before[g][k]);
            } else {
                assert(after[g][k] == groups[n - 1][k]);
            }
        }
    }
}

proof fn alike_members(
    model: TargetLayoutModel,
    members: Seq<MemberView>,
    generated: Seq<(Seq<char>, TypeLayout)>,
    layout: TypeLayout,
    n: int,
)
    requires
        0 <= n <= members.len(),
        forall|m: int|
            0 <= m < members.len() ==> target_layout::layout_of_type(
                model,
                (#[trigger] members[m]).c_type,
                generated,
            ) == Known::Exact(layout),
    ensures
        match layout_knowledge::member_layouts(model, members, generated, n) {
            Known::Exact(layouts) => layouts.len() == n && forall|m: int|
                0 <= m < n ==> #[trigger] layouts[m] == layout,
            Known::Unknown(reason) => false,
        },
    decreases n,
{
    if n > 0 {
        alike_members(model, members, generated, layout, n - 1);
        assert(target_layout::layout_of_type(model, members[n - 1].c_type, generated)
            == Known::Exact(layout));
    }
}

proof fn alike_largest(layouts: Seq<TypeLayout>, layout: TypeLayout, n: int)
    requires
        0 < n <= layouts.len(),
        layout.align >= 1,
        forall|m: int| 0 <= m < n ==> #[trigger] layouts[m] == layout,
    ensures
        target_layout::largest_size(layouts, n) == layout.size,
        target_layout::largest_align(layouts, n) == layout.align,
    decreases n,
{
    reveal_with_fuel(target_layout::largest_size, 2);
    reveal_with_fuel(target_layout::largest_align, 2);
    assert(layouts[n - 1] == layout);
    if n > 1 {
        alike_largest(layouts, layout, n - 1);
    }
}

/// A slot shared by values of one type is laid out as that type.
proof fn alike_slot(
    model: TargetLayoutModel,
    slot: SlotView,
    generated: Seq<(Seq<char>, TypeLayout)>,
    layout: TypeLayout,
)
    requires
        slot.members.len() > 0,
        whole(layout),
        forall|m: int|
            0 <= m < slot.members.len() ==> target_layout::layout_of_type(
                model,
                (#[trigger] slot.members[m]).c_type,
                generated,
            ) == Known::Exact(layout),
    ensures
        layout_knowledge::slot_layout(model, slot, generated) == Known::Exact(layout),
{
    let n = slot.members.len() as int;
    assert(target_layout::layout_of_type(model, slot.members[0].c_type, generated)
        == Known::Exact(layout));
    if slot.kind == PhysicalSlotKind::Union {
        alike_members(model, slot.members, generated, layout, n);
        let layouts = layout_knowledge::member_layouts(
            model,
            slot.members,
            generated,
            n,
        )->Exact_0;
        alike_largest(layouts, layout, n);
        aligned_divides(layout.size as nat, layout.align as nat);
    }
}

proof fn slot_layouts_prefix(
    model: TargetLayoutModel,
    a: Seq<SlotView>,
    b: Seq<SlotView>,
    generated: Seq<(Seq<char>, TypeLayout)>,
    n: int,
)
    requires
        forall|i: int| 0 <= i < n ==> #[trigger] a[i] == b[i],
    ensures
        layout_knowledge::slot_layouts(model, a, generated, n) == layout_knowledge::slot_layouts(
            model,
            b,
            generated,
            n,
        ),
    decreases n,
{
    if n > 0 {
        slot_layouts_prefix(model, a, b, generated, n - 1);
        assert(a[n - 1] == b[n - 1]);
    }
}

proof fn placed_prefix(a: Seq<TypeLayout>, b: Seq<TypeLayout>, n: int)
    requires
        forall|i: int| 0 <= i < n ==> #[trigger] a[i] == b[i],
    ensures
        target_layout::placed_fields(a, n) == target_layout::placed_fields(b, n),
    decreases n,
{
    if n > 0 {
        placed_prefix(a, b, n - 1);
        assert(a[n - 1] == b[n - 1]);
    }
}

proof fn placed_before(fields: Seq<TypeLayout>, n: int, m: int)
    requires
        0 <= n <= m,
        target_layout::placed_fields(fields, m) is Some,
    ensures
        target_layout::placed_fields(fields, n) is Some,
    decreases m - n,
{
    if n < m {
        placed_before(fields, n, m - 1);
    }
}

/// Where merging stands after the first `n` old slots: the merged slots are
/// known, end no later than the old ones, and have members of the same types.
spec fn shared_so_far(
    merging: Merging,
    slots: Seq<SlotView>,
    fields: Seq<TypeLayout>,
    candidates: Seq<CandidateView>,
    groups: Seq<Seq<usize>>,
    model: TargetLayoutModel,
    all: Seq<(Seq<char>, TypeLayout)>,
    n: int,
) -> bool {
    let merged = merging.building.slots;
    &&& match layout_knowledge::slot_layouts(model, merged, all, merged.len() as int) {
        Known::Exact(own) => own.len() == merged.len() && match target_layout::placed_fields(
            own,
            merged.len() as int,
        ) {
            Some(placed) => placed.0 <= (target_layout::placed_fields(fields, n)->0).0,
            None => false,
        },
        Known::Unknown(reason) => false,
    }
    &&& forall|c_type: Seq<char>| #[trigger]
        known_sizes::uses(merged, c_type) ==> known_sizes::uses(slots, c_type)
    &&& forall|i: int|
        0 <= i < n ==> known_sizes::uses(merged, (#[trigger] slots[i]).members[0].c_type)
    &&& forall|e: int|
        0 <= e < merging.emitted.len() ==> merging.emitted[e] < groups.len()
            && size_levels::all_used(
            merged,
            speed_layout::group_members(
                candidates,
                groups[#[trigger] merging.emitted[e] as int],
            ),
        )
}

/// One more slot that is laid out as the old one keeps the end in bounds.
proof fn kept_slot_ends(
    merged: Seq<SlotView>,
    added: SlotView,
    fields: Seq<TypeLayout>,
    model: TargetLayoutModel,
    all: Seq<(Seq<char>, TypeLayout)>,
    n: int,
)
    requires
        0 <= n < fields.len(),
        target_layout::placed_fields(fields, n + 1) is Some,
        layout_knowledge::slot_layouts(model, merged, all, merged.len() as int) is Exact,
        ({
            let own = layout_knowledge::slot_layouts(
                model,
                merged,
                all,
                merged.len() as int,
            )->Exact_0;
            &&& own.len() == merged.len()
            &&& match target_layout::placed_fields(own, merged.len() as int) {
                Some(placed) => placed.0 <= (target_layout::placed_fields(fields, n)->0).0,
                None => false,
            }
        }),
        layout_knowledge::slot_layout(model, added, all) == Known::Exact(fields[n]),
    ensures
        ({
            let after = merged.push(added);
            match layout_knowledge::slot_layouts(model, after, all, after.len() as int) {
                Known::Exact(own) => own.len() == after.len() && match target_layout::placed_fields(
                    own,
                    after.len() as int,
                ) {
                    Some(placed) => placed.0 <= (target_layout::placed_fields(
                        fields,
                        n + 1,
                    )->0).0,
                    None => false,
                },
                Known::Unknown(reason) => false,
            }
        }),
{
    let after = merged.push(added);
    let m = merged.len() as int;
    slot_layouts_prefix(model, after, merged, all, m);
    assert(after[m] == added);
    let own = layout_knowledge::slot_layouts(model, merged, all, m)->Exact_0;
    let more = layout_knowledge::slot_layouts(model, after, all, m + 1)->Exact_0;
    assert(more == own.push(fields[n]));
    placed_prefix(more, own, m);
    placed_before(fields, n, n + 1);
    known_sizes::aligned_grows(
        (target_layout::placed_fields(own, m)->0).0,
        (target_layout::placed_fields(fields, n)->0).0,
        fields[n].align as nat,
    );
    assert(more[m] == fields[n]);
}

proof fn more_used(before: Seq<SlotView>, added: SlotView)
    ensures
        forall|members: Seq<MemberView>| #[trigger]
            size_levels::all_used(before, members) ==> size_levels::all_used(
                before.push(added),
                members,
            ),
{
    size_levels::pushed_uses(before, added);
    assert forall|members: Seq<MemberView>| #[trigger]
        size_levels::all_used(before, members) implies size_levels::all_used(
        before.push(added),
        members,
    ) by {
        assert forall|m: int| 0 <= m < members.len() implies known_sizes::uses(
            before.push(added),
            (#[trigger] members[m]).c_type,
        ) by {
            assert(known_sizes::uses(before, members[m].c_type));
        }
    }
}

/// Whether every slot of a context holds one field.
spec fn all_direct(slots: Seq<SlotView>) -> bool {
    forall|i: int|
        0 <= i < slots.len() ==> (#[trigger] slots[i]).kind == PhysicalSlotKind::Direct
            && slots[i].members.len() == 1
}

proof fn shared_step(
    merging: Merging,
    slots: Seq<SlotView>,
    fields: Seq<TypeLayout>,
    candidates: Seq<CandidateView>,
    groups: Seq<Seq<usize>>,
    target: TargetConfig,
    model: TargetLayoutModel,
    all: Seq<(Seq<char>, TypeLayout)>,
    n: int,
)
    requires
        0 <= n < slots.len() == fields.len(),
        target_layout::model_of(target) == Some(model),
        all_whole(all),
        all_direct(slots),
        speed_soundness::slots_distinct(slots),
        layout_knowledge::slot_layouts(model, slots, all, slots.len() as int) == Known::Exact(
            fields,
        ),
        target_layout::placed_fields(fields, fields.len() as int) is Some,
        candidates_from(candidates, slots, slots.len() as int),
        groups_typed(candidates, groups, candidates.len() as int),
        groups.len() <= usize::MAX,
        forall|g: int| 0 <= g < groups.len() ==> (#[trigger] groups[g]).len() > 1,
        shared_so_far(merging, slots, fields, candidates, groups, model, all, n),
    ensures
        shared_so_far(
            speed_layout::merge_slot(merging, slots[n], candidates, groups),
            slots,
            fields,
            candidates,
            groups,
            model,
            all,
            n + 1,
        ),
{
    let merged = merging.building.slots;
    let next = speed_layout::merge_slot(merging, slots[n], candidates, groups);
    let after = next.building.slots;
    let member = slots[n].members[0];
    assert(slots[n].members.len() == 1);
    assert(slots[n].members[0].c_type == member.c_type);
    assert(known_sizes::uses(slots, member.c_type));
    placed_before(fields, n + 1, fields.len() as int);
    placed_before(fields, n, n + 1);
    known_sizes::slot_known(model, slots, all, slots.len() as int, n);
    assert(target_layout::layout_of_type(model, member.c_type, all) == Known::Exact(fields[n]));
    type_whole(target, model, member.c_type, all);
    layout_passes::group_with_finds(candidates, groups, member.logical, 0);
    match speed_layout::group_with(candidates, groups, member.logical, 0) {
        None => {
            let added = after[merged.len() as int];
            assert(after =~= merged.push(added));
            alike_slot(model, added, all, fields[n]);
            kept_slot_ends(merged, added, fields, model, all, n);
            size_levels::pushed_uses(merged, added);
            more_used(merged, added);
            assert(added.members[0].c_type == member.c_type);
            assert forall|c_type: Seq<char>| #[trigger] known_sizes::uses(
                after,
                c_type,
            ) implies known_sizes::uses(slots, c_type) by {
                if !known_sizes::uses(merged, c_type) {
                    let m = choose|m: int|
                        0 <= m < added.members.len() && (
                        #[trigger] added.members[m]).c_type == c_type;
                    assert(m == 0);
                }
            }
        },
        Some(g) => {
            let members = speed_layout::group_members(candidates, groups[g]);
            let k = choose|k: int|
                0 <= k < groups[g].len() && candidates[
                #[trigger] groups[g][k] as int].member.logical == member.logical;
            let own = groups[g][k] as int;
            let s = choose|s: int|
                0 <= s < slots.len() && slots[s].members.len() > 0 && (
                #[trigger] slots[s]).members[0] == candidates[own].member
                    && candidates[own].normalized_type == text::squeezed(
                    slots[s].members[0].c_type,
                );
            if s < n {
                assert(slots[s].members[0].logical != slots[n].members[0].logical);
            } else if n < s {
                assert(slots[n].members[0].logical != slots[s].members[0].logical);
            }
            assert(candidates[own].member == member);
            assert(members[k] == member);
            assert forall|m: int| 0 <= m < members.len() implies target_layout::layout_of_type(
                model,
                (#[trigger] members[m]).c_type,
                all,
            ) == Known::Exact(fields[n]) && known_sizes::uses(slots, members[m].c_type) by {
                let other = groups[g][m] as int;
                assert(candidates[other].normalized_type == candidates[own].normalized_type);
                let t = choose|t: int|
                    0 <= t < slots.len() && slots[t].members.len() > 0 && (
                    #[trigger] slots[t]).members[0] == candidates[other].member
                        && candidates[other].normalized_type == text::squeezed(
                        slots[t].members[0].c_type,
                    );
                assert(text::squeezed(members[m].c_type) == text::squeezed(member.c_type));
                assert(slots[t].members[0].c_type == members[m].c_type);
            }
            if merging.emitted.contains(g as usize) {
                let e = choose|e: int|
                    0 <= e < merging.emitted.len() && merging.emitted[e] == g as usize;
                assert(size_levels::all_used(
                    merged,
                    speed_layout::group_members(
                        candidates,
                        groups[merging.emitted[e] as int],
                    ),
                ));
                assert(known_sizes::uses(merged, members[k].c_type));
                target_layout::aligned_bounds(
                    (target_layout::placed_fields(fields, n)->0).0,
                    fields[n].align as nat,
                );
            } else {
                let added = after[merged.len() as int];
                assert(after =~= merged.push(added));
                assert(added.members == context_layout::numbered(members));
                assert forall|m: int|
                    0 <= m < added.members.len() implies target_layout::layout_of_type(
                    model,
                    (#[trigger] added.members[m]).c_type,
                    all,
                ) == Known::Exact(fields[n]) by {
                    assert(added.members[m].c_type == members[m].c_type);
                }
                alike_slot(model, added, all, fields[n]);
                kept_slot_ends(merged, added, fields, model, all, n);
                size_levels::pushed_uses(merged, added);
                more_used(merged, added);
                assert(known_sizes::uses(after, member.c_type)) by {
                    assert(added.members[k].c_type == member.c_type);
                }
                assert(size_levels::all_used(after, members)) by {
                    assert forall|m: int| 0 <= m < members.len() implies known_sizes::uses(
                        after,
                        (#[trigger] members[m]).c_type,
                    ) by {
                        assert(added.members[m].c_type == members[m].c_type);
                    }
                }
                assert forall|c_type: Seq<char>| #[trigger] known_sizes::uses(
                    after,
                    c_type,
                ) implies known_sizes::uses(slots, c_type) by {
                    if !known_sizes::uses(merged, c_type) {
                        let m = choose|m: int|
                            0 <= m < added.members.len() && (
                            #[trigger] added.members[m]).c_type == c_type;
                        assert(members[m].c_type == c_type);
                    }
                }
                assert forall|e: int| 0 <= e < next.emitted.len() implies next.emitted[e]
                    < groups.len() && size_levels::all_used(
                    after,
                    speed_layout::group_members(
                        candidates,
                        groups[#[trigger] next.emitted[e] as int],
                    ),
                ) by {
                    if e < merging.emitted.len() {
                        assert(next.emitted[e] == merging.emitted[e]);
                    }
                }
            }
        },
    }
}

proof fn shared_all(
    start: Merging,
    slots: Seq<SlotView>,
    fields: Seq<TypeLayout>,
    candidates: Seq<CandidateView>,
    groups: Seq<Seq<usize>>,
    target: TargetConfig,
    model: TargetLayoutModel,
    all: Seq<(Seq<char>, TypeLayout)>,
    n: int,
)
    requires
        0 <= n <= slots.len() == fields.len(),
        target_layout::model_of(target) == Some(model),
        all_whole(all),
        all_direct(slots),
        speed_soundness::slots_distinct(slots),
        layout_knowledge::slot_layouts(model, slots, all, slots.len() as int) == Known::Exact(
            fields,
        ),
        target_layout::placed_fields(fields, fields.len() as int) is Some,
        candidates_from(candidates, slots, slots.len() as int),
        groups_typed(candidates, groups, candidates.len() as int),
        groups.len() <= usize::MAX,
        forall|g: int| 0 <= g < groups.len() ==> (#[trigger] groups[g]).len() > 1,
        start.building.slots.len() == 0,
        start.emitted.len() == 0,
    ensures
        shared_so_far(
            speed_layout::merge_slots(start, slots, candidates, groups, n),
            slots,
            fields,
            candidates,
            groups,
            model,
            all,
            n,
        ),
    decreases n,
{
    if n > 0 {
        shared_all(start, slots, fields, candidates, groups, target, model, all, n - 1);
        shared_step(
            speed_layout::merge_slots(start, slots, candidates, groups, n - 1),
            slots,
            fields,
            candidates,
            groups,
            target,
            model,
            all,
            n - 1,
        );
    }
}

proof fn all_types_kept(slots: Seq<SlotView>, shared: Seq<SlotView>)
    requires
        all_direct(slots),
        forall|c_type: Seq<char>| #[trigger]
            known_sizes::uses(shared, c_type) ==> known_sizes::uses(slots, c_type),
        forall|i: int|
            0 <= i < slots.len() ==> known_sizes::uses(
                shared,
                (#[trigger] slots[i]).members[0].c_type,
            ),
    ensures
        known_sizes::same_types(slots, shared),
{
    assert forall|c_type: Seq<char>|
        #![trigger known_sizes::uses(slots, c_type)]
        #![trigger known_sizes::uses(shared, c_type)]
        known_sizes::uses(slots, c_type) <==> known_sizes::uses(shared, c_type) by {
        if known_sizes::uses(slots, c_type) {
            let (i, m) = choose|i: int, m: int|
                0 <= i < slots.len() && 0 <= m < slots[i].members.len() && (
                #[trigger] slots[i].members[m]).c_type == c_type;
            assert(slots[i].members.len() == 1);
            assert(known_sizes::uses(shared, slots[i].members[0].c_type));
        }
    }
}

/// A context with members of the same types that ends no later fits.
proof fn earlier_end_fits(
    model: TargetLayoutModel,
    slots: Seq<SlotView>,
    shared: Seq<SlotView>,
    all: Seq<(Seq<char>, TypeLayout)>,
)
    requires
        known_sizes::plainly_shaped(slots),
        known_sizes::plainly_shaped(shared),
        known_sizes::same_types(slots, shared),
        known_sizes::context_type(model, slots, all) is Some,
        layout_knowledge::slot_layouts(model, shared, all, shared.len() as int) is Exact,
        ({
            let fields = layout_knowledge::slot_layouts(
                model,
                slots,
                all,
                slots.len() as int,
            )->Exact_0;
            let own = layout_knowledge::slot_layouts(
                model,
                shared,
                all,
                shared.len() as int,
            )->Exact_0;
            match target_layout::placed_fields(own, shared.len() as int) {
                Some(placed) => placed.0 <= (target_layout::placed_fields(
                    fields,
                    slots.len() as int,
                )->0).0,
                None => false,
            }
        }),
    ensures
        match known_sizes::context_type(model, shared, all) {
            Some(own) => known_sizes::fits(
                own,
                known_sizes::context_type(model, slots, all)->0,
                false,
            ),
            None => false,
        },
{
    let (n, m) = (slots.len() as int, shared.len() as int);
    known_sizes::same_types_align_alike(model, slots, shared, all);
    let fields = layout_knowledge::slot_layouts(model, slots, all, n)->Exact_0;
    let own = layout_knowledge::slot_layouts(model, shared, all, m)->Exact_0;
    known_sizes::struct_align_is(fields, n);
    known_sizes::struct_align_is(own, m);
    known_sizes::aligned_grows(
        (target_layout::placed_fields(own, m)->0).0,
        (target_layout::placed_fields(fields, n)->0).0,
        (target_layout::placed_fields(fields, n)->0).1 as nat,
    );
}

/// A context whose fields share storage by type fits where the context whose
/// fields stand alone was.
proof fn shared_context_fits(
    layout: LayoutView,
    plan: Option<FunctionPlanView>,
    lifetimes: SlotLivenessFunction,
    target: TargetConfig,
    model: TargetLayoutModel,
    all: Seq<(Seq<char>, TypeLayout)>,
)
    requires
        target_layout::model_of(target) == Some(model),
        all_whole(all),
        all_direct(layout.slots),
        layout.slots.len() < u32::MAX,
        speed_soundness::slots_distinct(layout.slots),
        known_sizes::context_type(model, layout.slots, all) is Some,
    ensures
        ({
            let speed = speed_layout::speed_layout(layout, plan, lifetimes);
            &&& known_sizes::plainly_shaped(layout.slots)
            &&& known_sizes::plainly_shaped(speed.slots)
            &&& known_sizes::same_types(layout.slots, speed.slots)
            &&& match known_sizes::context_type(model, speed.slots, all) {
                Some(own) => known_sizes::fits(
                    own,
                    known_sizes::context_type(model, layout.slots, all)->0,
                    false,
                ),
                None => false,
            }
        }),
{
    let slots = layout.slots;
    let n = slots.len() as int;
    let speed = speed_layout::speed_layout(layout, plan, lifetimes);
    let candidates = speed_layout::candidates_of(slots, plan, lifetimes, n);
    let grouped = speed_layout::groups_of(candidates, lifetimes, candidates.len() as int);
    let groups = speed_layout::speed_groups(layout, plan, lifetimes);
    let fields = layout_knowledge::slot_layouts(model, slots, all, n)->Exact_0;
    assert(known_sizes::plainly_shaped(slots));
    size_levels::speed_plain(layout, plan, lifetimes);
    if groups.len() > 0 {
        known_sizes::slots_counted(model, slots, all, n);
        candidates_found(slots, plan, lifetimes, n);
        all_typed(candidates, lifetimes, candidates.len() as int);
        groups_counted(candidates, lifetimes, candidates.len() as int);
        shared_typed(candidates, grouped, candidates.len() as int, grouped.len() as int);
        shared_counted(grouped, grouped.len() as int);
        layout_passes::shared_groups_filled(grouped, grouped.len() as int);
        shared_all(
            Merging {
                building: context_layout::Building { slots: Seq::empty(), fields: layout.fields },
                decisions: layout.decisions,
                emitted: Seq::empty(),
            },
            slots,
            fields,
            candidates,
            groups,
            target,
            model,
            all,
            n,
        );
        all_types_kept(slots, speed.slots);
        earlier_end_fits(model, slots, speed.slots, all);
    }
}

proof fn groups_counted(
    candidates: Seq<CandidateView>,
    lifetimes: SlotLivenessFunction,
    n: int,
)
    requires
        0 <= n,
    ensures
        speed_layout::groups_of(candidates, lifetimes, n).len() <= n,
    decreases n,
{
    if n > 0 {
        groups_counted(candidates, lifetimes, n - 1);
        joined_counted(
            candidates,
            speed_layout::groups_of(candidates, lifetimes, n - 1),
            n - 1,
            lifetimes,
            0,
        );
    }
}

proof fn joined_counted(
    candidates: Seq<CandidateView>,
    groups: Seq<Seq<usize>>,
    c: int,
    lifetimes: SlotLivenessFunction,
    i: int,
)
    ensures
        speed_layout::joined_groups(candidates, groups, c, lifetimes, i).len() <= groups.len() + 1,
    decreases groups.len() - i,
{
    if 0 <= i < groups.len() && !speed_layout::can_join(candidates, groups[i], c, lifetimes) {
        joined_counted(candidates, groups, c, lifetimes, i + 1);
    }
}

proof fn shared_counted(groups: Seq<Seq<usize>>, n: int)
    requires
        0 <= n,
    ensures
        speed_layout::shared_groups(groups, n).len() <= n,
    decreases n,
{
    if n > 0 {
        shared_counted(groups, n - 1);
    }
}

proof fn placed_direct(fields: Seq<crate::identity_layout::FieldView>, n: int)
    requires
        0 <= n <= fields.len(),
    ensures
        all_direct(identity_layout::placed_directly(fields, n).slots),
        identity_layout::placed_directly(fields, n).slots.len() == n,
        forall|i: int|
            0 <= i < n ==> (#[trigger] identity_layout::placed_directly(
                fields,
                n,
            ).slots[i]).members[0].logical == fields[i].logical,
    decreases n,
{
    if n > 0 {
        placed_direct(fields, n - 1);
        let before = identity_layout::placed_directly(fields, n - 1).slots;
        let after = identity_layout::placed_directly(fields, n).slots;
        assert forall|i: int| 0 <= i < n implies (#[trigger] after[i]).members[0].logical
            == fields[i].logical by {
            if i < n - 1 {
                assert(after[i] == before[i]);
            }
        }
    }
}

/// Sharing storage among values of one type never costs size: a context whose
/// size is known where every field stands alone has a known size where values
/// of one type share storage, and is no larger there.
pub proof fn sharing_by_type_never_costs_size(
    functions: Seq<LivenessFunction>,
    plan: Option<&CStaticAwaitPlan>,
    slot_liveness: SlotLivenessUnit,
    target: TargetConfig,
    packing_barrier: bool,
    i: int,
)
    requires
        context_soundness::starts_distinct(functions, slot_liveness),
        size_levels::task_types_distinct(functions),
        context_soundness::contexts_fit(functions, plan, slot_liveness),
        identity_layout::contexts_distinct(functions, plan, slot_liveness),
        0 <= i < layout_passes::context_layouts(
            functions,
            plan,
            slot_liveness,
            OptimizationLevel::Off,
            target,
            packing_barrier,
        ).len(),
    ensures
        ({
            let alone = layout_passes::context_layouts(
                functions,
                plan,
                slot_liveness,
                OptimizationLevel::Off,
                target,
                packing_barrier,
            );
            let speed = layout_passes::context_layouts(
                functions,
                plan,
                slot_liveness,
                OptimizationLevel::Speed,
                target,
                packing_barrier,
            );
            &&& speed.len() == alone.len()
            &&& speed[i].0 == alone[i].0
            &&& size_laws::known_size(alone[i].1) is Some ==> size_laws::no_larger(
                speed[i].1,
                alone[i].1,
            )
        }),
{
    let n = functions.len() as int;
    let identity = identity_layout::identity_layouts(functions, plan, slot_liveness, n);
    let speed = layout_passes::speed_layouts(identity, functions, plan, slot_liveness, n);
    size_levels::identity_plain(functions, plan, slot_liveness, n);
    size_levels::identity_names(functions, plan, slot_liveness);
    size_levels::speed_layouts_plain(identity, functions, plan, slot_liveness, n);
    layout_knowledge::knowledge_keeps_layouts(identity, target, packing_barrier);
    layout_knowledge::knowledge_keeps_layouts(speed, target, packing_barrier);
    if identity_layout::identity_problems(functions, slot_liveness, n).len() == 0 {
        let known = layout_knowledge::known_layouts(identity, target, packing_barrier);
        let shared = layout_knowledge::known_layouts(speed, target, packing_barrier);
        assert(known[i].0 == identity[i].0);
        assert(shared[i].0 == speed[i].0);
        assert(speed[i].0 == identity[i].0);
        if !packing_barrier {
            if let Some(model) = target_layout::model_of(target) {
                let all = size_layout::exact_types(known, known.len() as int);
                settled_types_whole(model, identity);
                assert forall|k: int| 0 <= k < identity.len() implies size_rounds::stands_for(
                    model,
                    identity[k].1.task_type,
                    (#[trigger] speed[k]).1.slots,
                    identity[k].1.slots,
                    all,
                ) by {
                    alone_stands(
                        functions,
                        plan,
                        slot_liveness,
                        target,
                        model,
                        k,
                    );
                }
                size_rounds::standing_contexts_are_no_larger(model, identity, speed, i);
            }
        }
    }
}

proof fn alone_stands(
    functions: Seq<LivenessFunction>,
    plan: Option<&CStaticAwaitPlan>,
    slot_liveness: SlotLivenessUnit,
    target: TargetConfig,
    model: TargetLayoutModel,
    k: int,
)
    requires
        context_soundness::starts_distinct(functions, slot_liveness),
        size_levels::task_types_distinct(functions),
        context_soundness::contexts_fit(functions, plan, slot_liveness),
        identity_layout::contexts_distinct(functions, plan, slot_liveness),
        target_layout::model_of(target) == Some(model),
        0 <= k < identity_layout::identity_layouts(
            functions,
            plan,
            slot_liveness,
            functions.len() as int,
        ).len(),
    ensures
        ({
            let n = functions.len() as int;
            let identity = identity_layout::identity_layouts(functions, plan, slot_liveness, n);
            let speed = layout_passes::speed_layouts(
                identity,
                functions,
                plan,
                slot_liveness,
                n,
            );
            let known = size_rounds::sizes_of(model, identity).functions;
            size_rounds::stands_for(
                model,
                identity[k].1.task_type,
                speed[k].1.slots,
                identity[k].1.slots,
                size_layout::exact_types(known, known.len() as int),
            )
        }),
{
    let n = functions.len() as int;
    let identity = identity_layout::identity_layouts(functions, plan, slot_liveness, n);
    let speed = layout_passes::speed_layouts(identity, functions, plan, slot_liveness, n);
    let known = size_rounds::sizes_of(model, identity).functions;
    let all = size_layout::exact_types(known, known.len() as int);
    size_levels::identity_plain(functions, plan, slot_liveness, n);
    size_levels::identity_names(functions, plan, slot_liveness);
    size_levels::speed_layouts_plain(identity, functions, plan, slot_liveness, n);
    settled_types_whole(model, identity);
    size_rounds::sizes_settled(model, identity, k);
    size_rounds::sizes_keep_slots(model, identity, k);
    context_soundness::identity_found(functions, plan, slot_liveness, n);
    context_soundness::speed_found(identity, functions, plan, slot_liveness, n);
    let f = choose|f: int|
        0 <= f < n && #[trigger] context_soundness::start_of(functions, f) == identity[k].0;
    let start = context_soundness::start_of(functions, f);
    order::lookup_finds(identity, start);
    order::lookup_finds(speed, start);
    assert(speed[k].0 == identity[k].0);
    let own = identity_layout::planned_at(plan, start);
    let fields = identity_layout::context_fields(functions[f], own);
    placed_direct(fields, fields.len() as int);
    assert(identity[k].1 == identity_layout::identity_layout(functions[f], own));
    assert(functions[f].coroutine.cfg.is_async);
    assert(identity_layout::fields_distinct(fields));
    assert(speed_soundness::slots_distinct(identity[k].1.slots)) by {
        let slots = identity[k].1.slots;
        assert forall|s: int, t: int| 0 <= s < t < slots.len() implies (
        #[trigger] slots[s]).members[0].logical != (
        #[trigger] slots[t]).members[0].logical by {
            assert(fields[s].logical != fields[t].logical);
        }
    }
    if target_layout::generated_layout(all, identity[k].1.task_type, 0) is Some {
        if let Some(lifetimes) = identity_layout::lifetimes_of(
            slot_liveness.functions@,
            f,
            0,
        ) {
            shared_context_fits(identity[k].1, own, lifetimes, target, model, all);
            assert(speed[k].1 == speed_layout::speed_layout(identity[k].1, own, lifetimes));
        } else {
            assert(speed[k].1 == identity[k].1);
        }
    }
}

} // verus!
