//! Sizes of whole coroutine contexts.

use vstd::prelude::*;

use crate::config::TargetConfig;
use crate::context_layout::{
    ContextLayoutPlan, FunctionContextLayout, LayoutView, MemberView, PhysicalMember, PhysicalSlot,
    PhysicalSlotKind, SlotView,
};
use crate::order;
use crate::syntax;
use crate::target_layout;
use crate::target_layout::{
    find_generated, AggregateLayout, AggregateView, Known, LayoutKnowledge, LayoutUnknownReason,
    ReasonView, TargetLayoutModel, TypeLayout,
};
use crate::text::str_eq;

verus! {

/// The layouts of the first `n` members, unless one isn't known.
pub open spec fn member_layouts(
    model: TargetLayoutModel,
    members: Seq<MemberView>,
    generated: Seq<(Seq<char>, TypeLayout)>,
    n: int,
) -> Known<Seq<TypeLayout>>
    decreases n,
{
    if n <= 0 {
        Known::Exact(Seq::empty())
    } else {
        match member_layouts(model, members, generated, n - 1) {
            Known::Exact(before) => match target_layout::layout_of_type(
                model,
                members[n - 1].c_type,
                generated,
            ) {
                Known::Exact(layout) => Known::Exact(before.push(layout)),
                Known::Unknown(reason) => Known::Unknown(reason),
            },
            Known::Unknown(reason) => Known::Unknown(reason),
        }
    }
}

/// The layout of one slot.
pub open spec fn slot_layout(
    model: TargetLayoutModel,
    slot: SlotView,
    generated: Seq<(Seq<char>, TypeLayout)>,
) -> Known<TypeLayout> {
    match slot.kind {
        PhysicalSlotKind::Direct => target_layout::layout_of_type(
            model,
            slot.members[0].c_type,
            generated,
        ),
        PhysicalSlotKind::Union => match member_layouts(
            model,
            slot.members,
            generated,
            slot.members.len() as int,
        ) {
            Known::Exact(members) => target_layout::layout_of_union(members),
            Known::Unknown(reason) => Known::Unknown(reason),
        },
    }
}

/// The layouts of the first `n` slots, unless one isn't known.
pub open spec fn slot_layouts(
    model: TargetLayoutModel,
    slots: Seq<SlotView>,
    generated: Seq<(Seq<char>, TypeLayout)>,
    n: int,
) -> Known<Seq<TypeLayout>>
    decreases n,
{
    if n <= 0 {
        Known::Exact(Seq::empty())
    } else {
        match slot_layouts(model, slots, generated, n - 1) {
            Known::Exact(before) => match slot_layout(model, slots[n - 1], generated) {
                Known::Exact(layout) => Known::Exact(before.push(layout)),
                Known::Unknown(reason) => Known::Unknown(reason),
            },
            Known::Unknown(reason) => Known::Unknown(reason),
        }
    }
}

/// The layout of a whole context.
pub open spec fn context_layout_of(
    model: TargetLayoutModel,
    slots: Seq<SlotView>,
    generated: Seq<(Seq<char>, TypeLayout)>,
) -> Known<AggregateView> {
    match slot_layouts(model, slots, generated, slots.len() as int) {
        Known::Exact(fields) => target_layout::layout_of_struct(fields),
        Known::Unknown(reason) => Known::Unknown(reason),
    }
}

/// Whether every slot has a member.
pub open spec fn slots_filled(slots: Seq<SlotView>) -> bool {
    forall|i: int| 0 <= i < slots.len() ==> (#[trigger] slots[i]).members.len() > 0
}

/// Whether every slot of every layout has a member.
pub open spec fn layouts_filled(functions: Seq<(usize, LayoutView)>) -> bool {
    forall|i: int| 0 <= i < functions.len() ==> slots_filled((#[trigger] functions[i]).1.slots)
}

fn union_of_members(
    model: &TargetLayoutModel,
    members: &Vec<PhysicalMember>,
    generated: &Vec<(String, TypeLayout)>,
) -> (r: LayoutKnowledge<TypeLayout>)
    requires
        model.pointer <= 16,
    ensures
        target_layout::known_type(r) == (match member_layouts(
            *model,
            syntax::views(members@),
            target_layout::generated_view(generated@),
            members@.len() as int,
        ) {
            Known::Exact(layouts) => target_layout::layout_of_union(layouts),
            Known::Unknown(reason) => Known::Unknown(reason),
        }),
{
    let ghost views = syntax::views(members@);
    let ghost types = target_layout::generated_view(generated@);
    let mut layouts: Vec<TypeLayout> = Vec::new();
    let mut i: usize = 0;
    while i < members.len()
        invariant
            i <= members@.len(),
            model.pointer <= 16,
            views == syntax::views(members@),
            types == target_layout::generated_view(generated@),
            member_layouts(*model, views, types, i as int) == Known::Exact(layouts@),
        decreases members@.len() - i,
    {
        assert(views[i as int] == members@[i as int]@);
        match model.type_layout(members[i].c_type.as_str(), generated) {
            LayoutKnowledge::Exact(layout) => {
                layouts.push(layout);
            },
            LayoutKnowledge::Unknown(reason) => {
                proof {
                    unknown_member(*model, views, types, i + 1, views.len() as int, reason@);
                }
                return LayoutKnowledge::Unknown(reason);
            },
        }
        i += 1;
    }
    model.union_layout(&layouts)
}

/// A member that isn't known leaves all longer lists unknown.
pub proof fn unknown_member(
    model: TargetLayoutModel,
    members: Seq<MemberView>,
    generated: Seq<(Seq<char>, TypeLayout)>,
    k: int,
    n: int,
    reason: ReasonView,
)
    requires
        0 <= k <= n,
        member_layouts(model, members, generated, k) == Known::<Seq<TypeLayout>>::Unknown(reason),
    ensures
        member_layouts(model, members, generated, n) == Known::<Seq<TypeLayout>>::Unknown(reason),
    decreases n - k,
{
    if k < n {
        unknown_member(model, members, generated, k, n - 1, reason);
    }
}

proof fn unknown_slot(
    model: TargetLayoutModel,
    slots: Seq<SlotView>,
    generated: Seq<(Seq<char>, TypeLayout)>,
    k: int,
    n: int,
    reason: ReasonView,
)
    requires
        0 <= k <= n,
        slot_layouts(model, slots, generated, k) == Known::<Seq<TypeLayout>>::Unknown(reason),
    ensures
        slot_layouts(model, slots, generated, n) == Known::<Seq<TypeLayout>>::Unknown(reason),
    decreases n - k,
{
    if k < n {
        unknown_slot(model, slots, generated, k, n - 1, reason);
    }
}

/// Computes the layout of a whole context from its slots.
pub fn physical_context_layout(
    slots: &Vec<PhysicalSlot>,
    model: &TargetLayoutModel,
    generated: &Vec<(String, TypeLayout)>,
) -> (r: LayoutKnowledge<AggregateLayout>)
    requires
        model.pointer <= 16,
        slots_filled(syntax::views(slots@)),
    ensures
        target_layout::known_aggregate(r) == context_layout_of(
            *model,
            syntax::views(slots@),
            target_layout::generated_view(generated@),
        ),
{
    let ghost views = syntax::views(slots@);
    let ghost types = target_layout::generated_view(generated@);
    let mut fields: Vec<TypeLayout> = Vec::new();
    let mut i: usize = 0;
    while i < slots.len()
        invariant
            i <= slots@.len(),
            model.pointer <= 16,
            views == syntax::views(slots@),
            slots_filled(views),
            types == target_layout::generated_view(generated@),
            slot_layouts(*model, views, types, i as int) == Known::Exact(fields@),
        decreases slots@.len() - i,
    {
        assert(views[i as int] == slots@[i as int]@);
        assert(views[i as int].members.len() > 0);
        let layout = match slots[i].kind {
            PhysicalSlotKind::Direct => {
                assert(views[i as int].members[0] == slots@[i as int].members@[0]@);
                model.type_layout(slots[i].members[0].c_type.as_str(), generated)
            },
            PhysicalSlotKind::Union => union_of_members(model, &slots[i].members, generated),
        };
        assert(target_layout::known_type(layout) == slot_layout(*model, views[i as int], types));
        match layout {
            LayoutKnowledge::Exact(field) => {
                fields.push(field);
            },
            LayoutKnowledge::Unknown(reason) => {
                proof {
                    unknown_slot(*model, views, types, i + 1, views.len() as int, reason@);
                }
                return LayoutKnowledge::Unknown(reason);
            },
        }
        i += 1;
    }
    model.struct_layout(&fields)
}

/// The generated types after one got a layout.
pub open spec fn with_generated(
    generated: Seq<(Seq<char>, TypeLayout)>,
    name: Seq<char>,
    layout: TypeLayout,
    i: int,
) -> Seq<(Seq<char>, TypeLayout)>
    decreases generated.len() - i,
{
    if i < 0 || i >= generated.len() {
        generated.push((name, layout))
    } else if generated[i].0 == name {
        generated.update(i, (name, layout))
    } else {
        with_generated(generated, name, layout, i + 1)
    }
}

/// Gives a generated type a layout.
pub fn put_generated(generated: &mut Vec<(String, TypeLayout)>, name: &String, layout: TypeLayout)
    ensures
        target_layout::generated_view(final(generated)@) == with_generated(
            target_layout::generated_view(old(generated)@),
            name@,
            layout,
            0,
        ),
{
    let ghost view = target_layout::generated_view(generated@);
    let mut i: usize = 0;
    while i < generated.len()
        invariant
            i <= generated@.len(),
            generated@ == old(generated)@,
            view == target_layout::generated_view(generated@),
            with_generated(view, name@, layout, 0) == with_generated(
                view,
                name@,
                layout,
                i as int,
            ),
        decreases generated@.len() - i,
    {
        if str_eq(generated[i].0.as_str(), name.as_str()) {
            generated.set(i, (name.clone(), layout));
            assert(target_layout::generated_view(generated@) =~= view.update(
                i as int,
                (name@, layout),
            ));
            return;
        }
        i += 1;
    }
    generated.push((name.clone(), layout));
    assert(target_layout::generated_view(generated@) =~= view.push((name@, layout)));
}

/// Contexts whose layouts are being computed.
pub struct Knowing {
    pub functions: Seq<(usize, LayoutView)>,
    pub generated: Seq<(Seq<char>, TypeLayout)>,
    pub changed: bool,
}

/// A layout with another size.
pub open spec fn with_knowledge(layout: LayoutView, knowledge: Known<AggregateView>) -> LayoutView {
    LayoutView { layout_knowledge: knowledge, ..layout }
}

/// Contexts after the layout of the one at `i` was computed.
pub open spec fn know_one(model: TargetLayoutModel, knowing: Knowing, i: int) -> Knowing {
    let layout = knowing.functions[i].1;
    let knowledge = context_layout_of(model, layout.slots, knowing.generated);
    let functions = knowing.functions.update(
        i,
        (knowing.functions[i].0, with_knowledge(layout, knowledge)),
    );
    match knowledge {
        Known::Exact(aggregate) => {
            let value = TypeLayout { size: aggregate.size, align: aggregate.align };
            Knowing {
                functions,
                generated: with_generated(knowing.generated, layout.task_type, value, 0),
                changed: knowing.changed || target_layout::generated_layout(
                    knowing.generated,
                    layout.task_type,
                    0,
                ) != Some(value),
            }
        },
        Known::Unknown(reason) => Knowing { functions, ..knowing },
    }
}

/// Contexts after the layouts of the first `n` were computed.
pub open spec fn know_round(model: TargetLayoutModel, knowing: Knowing, n: int) -> Knowing
    decreases n,
{
    if n <= 0 {
        knowing
    } else {
        know_one(model, know_round(model, knowing, n - 1), n - 1)
    }
}

/// Contexts after at most `rounds` rounds: as many as it takes until nothing
/// changes.
pub open spec fn know_rounds(model: TargetLayoutModel, knowing: Knowing, rounds: nat) -> Knowing
    decreases rounds,
{
    if rounds == 0 {
        knowing
    } else {
        let next = know_round(
            model,
            Knowing { changed: false, ..knowing },
            knowing.functions.len() as int,
        );
        if next.changed {
            know_rounds(model, next, (rounds - 1) as nat)
        } else {
            next
        }
    }
}

/// Contexts of which nothing is known.
pub open spec fn all_unknown(functions: Seq<(usize, LayoutView)>, reason: ReasonView) -> Seq<
    (usize, LayoutView),
> {
    Seq::new(
        functions.len(),
        |i: int| (functions[i].0, with_knowledge(functions[i].1, Known::Unknown(reason))),
    )
}

/// Contexts with their layouts.
pub open spec fn known_layouts(
    functions: Seq<(usize, LayoutView)>,
    target: TargetConfig,
    packing_barrier: bool,
) -> Seq<(usize, LayoutView)> {
    if packing_barrier {
        all_unknown(functions, ReasonView::PackingEnvironment)
    } else {
        match target_layout::model_of(target) {
            None => all_unknown(functions, ReasonView::UnsupportedTarget),
            Some(model) => know_rounds(
                model,
                Knowing { functions, generated: Seq::empty(), changed: false },
                functions.len() + 1,
            ).functions,
        }
    }
}

fn forget_layouts(
    functions: &mut Vec<(usize, FunctionContextLayout)>,
    reason: &LayoutUnknownReason,
)
    ensures
        order::entry_views(final(functions)@) == all_unknown(
            order::entry_views(old(functions)@),
            reason@,
        ),
{
    let ghost before = order::entry_views(functions@);
    let ghost goal = all_unknown(before, reason@);
    let mut i: usize = 0;
    while i < functions.len()
        invariant
            i <= functions@.len(),
            functions@.len() == before.len(),
            goal == all_unknown(before, reason@),
            order::entry_views(functions@) =~= goal.take(i as int) + before.skip(i as int),
        decreases functions@.len() - i,
    {
        let ghost now = order::entry_views(functions@);
        assert(now[i as int] == before[i as int]);
        functions[i].1.layout_knowledge = LayoutKnowledge::Unknown(reason.clone());
        assert(order::entry_views(functions@)[i as int] == goal[i as int]);
        assert(order::entry_views(functions@) =~= now.update(i as int, goal[i as int]));
        i += 1;
    }
    assert(goal.take(i as int) + before.skip(i as int) =~= goal);
}

/// Whether layouts differ in nothing but what is known of them.
pub open spec fn same_placements(
    before: Seq<(usize, LayoutView)>,
    after: Seq<(usize, LayoutView)>,
) -> bool {
    &&& after.len() == before.len()
    &&& forall|i: int|
        0 <= i < before.len() ==> (#[trigger] after[i]).0 == before[i].0 && after[i].1
            == with_knowledge(before[i].1, after[i].1.layout_knowledge)
}

proof fn round_keeps_slots(model: TargetLayoutModel, knowing: Knowing, n: int)
    requires
        0 <= n <= knowing.functions.len(),
    ensures
        same_placements(knowing.functions, know_round(model, knowing, n).functions),
    decreases n,
{
    if n > 0 {
        round_keeps_slots(model, knowing, n - 1);
    }
}

/// Rounds change nothing but what is known of the contexts.
pub proof fn rounds_keep_slots(model: TargetLayoutModel, knowing: Knowing, rounds: nat)
    ensures
        same_placements(knowing.functions, know_rounds(model, knowing, rounds).functions),
    decreases rounds,
{
    if rounds > 0 {
        let start = Knowing { changed: false, ..knowing };
        let next = know_round(model, start, knowing.functions.len() as int);
        round_keeps_slots(model, start, knowing.functions.len() as int);
        if next.changed {
            rounds_keep_slots(model, next, (rounds - 1) as nat);
            let end = know_rounds(model, next, (rounds - 1) as nat);
            assert forall|i: int| 0 <= i < knowing.functions.len() implies (
            #[trigger] end.functions[i]).0 == knowing.functions[i].0 && end.functions[i].1
                == with_knowledge(
                knowing.functions[i].1,
                end.functions[i].1.layout_knowledge,
            ) by {
                assert(next.functions[i].0 == knowing.functions[i].0);
            }
        }
    }
}

/// Computing the layouts changes nothing but what is known of them.
pub proof fn knowledge_keeps_layouts(
    functions: Seq<(usize, LayoutView)>,
    target: TargetConfig,
    packing_barrier: bool,
)
    ensures
        same_placements(functions, known_layouts(functions, target, packing_barrier)),
{
    if !packing_barrier {
        if let Some(model) = target_layout::model_of(target) {
            rounds_keep_slots(
                model,
                Knowing { functions, generated: Seq::empty(), changed: false },
                functions.len() + 1,
            );
        }
    }
}

/// Computes one round of layouts and tells whether a size changed.
fn compute_round(
    functions: &mut Vec<(usize, FunctionContextLayout)>,
    generated: &mut Vec<(String, TypeLayout)>,
    model: &TargetLayoutModel,
) -> (r: bool)
    requires
        model.pointer <= 16,
        layouts_filled(order::entry_views(old(functions)@)),
    ensures
        (Knowing {
            functions: order::entry_views(final(functions)@),
            generated: target_layout::generated_view(final(generated)@),
            changed: r,
        }) == know_round(
            *model,
            Knowing {
                functions: order::entry_views(old(functions)@),
                generated: target_layout::generated_view(old(generated)@),
                changed: false,
            },
            old(functions)@.len() as int,
        ),
{
    let ghost start = Knowing {
        functions: order::entry_views(functions@),
        generated: target_layout::generated_view(generated@),
        changed: false,
    };
    let mut changed = false;
    let mut i: usize = 0;
    while i < functions.len()
        invariant
            i <= functions@.len(),
            functions@.len() == start.functions.len(),
            model.pointer <= 16,
            layouts_filled(start.functions),
            (Knowing {
                functions: order::entry_views(functions@),
                generated: target_layout::generated_view(generated@),
                changed,
            }) == know_round(*model, start, i as int),
        decreases functions@.len() - i,
    {
        let ghost now = know_round(*model, start, i as int);
        proof {
            round_keeps_slots(*model, start, i as int);
            assert(now.functions[i as int].1 == functions@[i as int].1@);
            assert(start.functions[i as int].1.slots == now.functions[i as int].1.slots);
        }
        let knowledge = physical_context_layout(&functions[i].1.slots, model, generated);
        let ghost known = target_layout::known_aggregate(knowledge);
        if let LayoutKnowledge::Exact(aggregate) = &knowledge {
            let value = TypeLayout { size: aggregate.size, align: aggregate.align };
            if find_generated(generated, functions[i].1.task_type.as_str()) != Some(value) {
                changed = true;
            }
            put_generated(generated, &functions[i].1.task_type, value);
        }
        functions[i].1.layout_knowledge = knowledge;
        assert(functions@[i as int].1@ == with_knowledge(now.functions[i as int].1, known));
        assert(order::entry_views(functions@) =~= now.functions.update(
            i as int,
            (now.functions[i as int].0, with_knowledge(now.functions[i as int].1, known)),
        ));
        i += 1;
    }
    changed
}

/// Computes the layouts of all contexts.
pub fn compute_layout_knowledge(
    plan: &mut ContextLayoutPlan,
    target: &TargetConfig,
    packing_barrier: bool,
)
    requires
        layouts_filled(order::entry_views(old(plan).functions@)),
    ensures
        final(plan).diagnostics == old(plan).diagnostics,
        order::entry_views(final(plan).functions@) == known_layouts(
            order::entry_views(old(plan).functions@),
            *target,
            packing_barrier,
        ),
{
    if packing_barrier {
        forget_layouts(&mut plan.functions, &LayoutUnknownReason::PackingEnvironment);
        return;
    }
    let model = match TargetLayoutModel::for_target(target) {
        LayoutKnowledge::Exact(model) => model,
        LayoutKnowledge::Unknown(reason) => {
            forget_layouts(&mut plan.functions, &reason);
            return;
        },
    };
    let ghost start = Knowing {
        functions: order::entry_views(plan.functions@),
        generated: Seq::empty(),
        changed: false,
    };
    let mut generated: Vec<(String, TypeLayout)> = Vec::new();
    assert(target_layout::generated_view(generated@) =~= Seq::empty());
    let ghost rounds = (plan.functions@.len() + 1) as nat;
    let ghost goal = know_rounds(model, start, rounds);
    let total: usize = plan.functions.len();
    let mut n: usize = 0;
    let mut changed = true;
    let ghost mut now = start;
    while changed && n <= total
        invariant
            n <= total + 1,
            total == plan.functions@.len(),
            model.pointer <= 16,
            plan.diagnostics == old(plan).diagnostics,
            now.functions == order::entry_views(plan.functions@),
            now.generated == target_layout::generated_view(generated@),
            layouts_filled(now.functions),
            rounds == total + 1,
            goal.functions == known_layouts(
                order::entry_views(old(plan).functions@),
                *target,
                packing_barrier,
            ),
            goal.functions == if changed {
                know_rounds(model, now, (rounds - n) as nat).functions
            } else {
                now.functions
            },
        decreases total + 1 - n,
    {
        let ghost from = Knowing { changed: false, ..now };
        proof {
            round_keeps_slots(model, from, from.functions.len() as int);
        }
        changed = compute_round(&mut plan.functions, &mut generated, &model);
        proof {
            reveal_with_fuel(know_rounds, 2);
            now = know_round(model, from, from.functions.len() as int);
            assert forall|i: int| 0 <= i < now.functions.len() implies slots_filled(
                (#[trigger] now.functions[i]).1.slots,
            ) by {
                assert(slots_filled(from.functions[i].1.slots));
            }
        }
        if n == total {
            return;
        }
        n += 1;
    }
}

} // verus!
