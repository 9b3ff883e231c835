//! Context layouts of a whole translation unit.

use vstd::prelude::*;

use crate::c_static_plan::CStaticAwaitPlan;
use crate::config::{OptimizationLevel, TargetConfig};
use crate::context_layout::{ContextLayoutPlan, FunctionContextLayout, LayoutView, SlotView};
use crate::identity_layout;
use crate::identity_layout::{
    build_identity_context_layout, find_lifetimes, find_plan, FieldView,
};
use crate::layout_knowledge;
use crate::layout_knowledge::compute_layout_knowledge;
use crate::liveness::{LivenessFunction, LivenessUnit};
use crate::order;
use crate::order::{find_index, find_value};
use crate::order_laws;
use crate::size_layout;
use crate::size_layout::{apply_size_layout, exact_generated_types, forget_sizes};
use crate::slot_liveness::{SlotLivenessFunction, SlotLivenessUnit};
use crate::slot_merging;
use crate::slot_sharing;
use crate::speed_layout;
use crate::speed_layout::{apply_speed_layout, CandidateView, Merging};
use crate::syntax;
use crate::target_layout;
use crate::target_layout::{
    LayoutKnowledge, LayoutUnknownReason, ReasonView, TargetLayoutModel, TypeLayout,
};

verus! {

/// The layouts after the first `n` functions let values of one type share
/// their storage.
pub open spec fn speed_layouts(
    layouts: Seq<(usize, LayoutView)>,
    functions: Seq<LivenessFunction>,
    plan: Option<&CStaticAwaitPlan>,
    slot_liveness: SlotLivenessUnit,
    n: int,
) -> Seq<(usize, LayoutView)>
    decreases n,
{
    if n <= 0 {
        layouts
    } else {
        let before = speed_layouts(layouts, functions, plan, slot_liveness, n - 1);
        let start = functions[n - 1].coroutine.cfg.span.start_byte;
        if !functions[n - 1].coroutine.cfg.is_async {
            before
        } else {
            match (
                order::lookup(before, start),
                identity_layout::lifetimes_of(slot_liveness.functions@, n - 1, 0),
            ) {
                (Some(layout), Some(lifetimes)) => order::put(
                    before,
                    start,
                    speed_layout::speed_layout(
                        layout,
                        identity_layout::planned_at(plan, start),
                        lifetimes,
                    ),
                ),
                _ => before,
            }
        }
    }
}

/// The layouts after the size passes over the first `n` functions.
pub open spec fn sized_layouts(
    layouts: Seq<(usize, LayoutView)>,
    functions: Seq<LivenessFunction>,
    plan: Option<&CStaticAwaitPlan>,
    slot_liveness: SlotLivenessUnit,
    aggressive: bool,
    model: TargetLayoutModel,
    n: int,
) -> Seq<(usize, LayoutView)>
    decreases n,
{
    if n <= 0 {
        layouts
    } else {
        let before = sized_layouts(
            layouts,
            functions,
            plan,
            slot_liveness,
            aggressive,
            model,
            n - 1,
        );
        let start = functions[n - 1].coroutine.cfg.span.start_byte;
        if !functions[n - 1].coroutine.cfg.is_async {
            before
        } else {
            match (order::lookup(before, start), order::lookup(layouts, start)) {
                (Some(layout), Some(speed)) => order::put(
                    before,
                    start,
                    size_layout::sized_layout(
                        layout,
                        speed,
                        functions[n - 1],
                        identity_layout::planned_at(plan, start),
                        identity_layout::lifetimes_of(slot_liveness.functions@, n - 1, 0),
                        aggressive,
                        model,
                        size_layout::exact_types(layouts, layouts.len() as int),
                    ),
                ),
                _ => before,
            }
        }
    }
}

/// The layouts of which no size is known.
pub open spec fn unsized_layouts(
    layouts: Seq<(usize, LayoutView)>,
    aggressive: bool,
    reason: ReasonView,
) -> Seq<(usize, LayoutView)> {
    Seq::new(
        layouts.len(),
        |i: int| (layouts[i].0, size_layout::with_unknown(layouts[i].1, aggressive, reason)),
    )
}

/// The layouts after the size passes.
pub open spec fn size_layouts(
    layouts: Seq<(usize, LayoutView)>,
    functions: Seq<LivenessFunction>,
    plan: Option<&CStaticAwaitPlan>,
    slot_liveness: SlotLivenessUnit,
    aggressive: bool,
    target: TargetConfig,
    packing_barrier: bool,
) -> Seq<(usize, LayoutView)> {
    if packing_barrier {
        unsized_layouts(layouts, aggressive, ReasonView::PackingEnvironment)
    } else {
        match target_layout::model_of(target) {
            None => unsized_layouts(layouts, aggressive, ReasonView::UnsupportedTarget),
            Some(model) => sized_layouts(
                layouts,
                functions,
                plan,
                slot_liveness,
                aggressive,
                model,
                functions.len() as int,
            ),
        }
    }
}

/// The layouts after the passes that an optimization level asks for.
pub open spec fn optimized_layouts(
    layouts: Seq<(usize, LayoutView)>,
    functions: Seq<LivenessFunction>,
    plan: Option<&CStaticAwaitPlan>,
    slot_liveness: SlotLivenessUnit,
    optimization: OptimizationLevel,
    target: TargetConfig,
    packing_barrier: bool,
) -> Seq<(usize, LayoutView)> {
    let speed = if optimization == OptimizationLevel::Off {
        layouts
    } else {
        speed_layouts(layouts, functions, plan, slot_liveness, functions.len() as int)
    };
    let known = layout_knowledge::known_layouts(speed, target, packing_barrier);
    if optimization == OptimizationLevel::Size || optimization == OptimizationLevel::Aggressive {
        layout_knowledge::known_layouts(
            size_layouts(
                known,
                functions,
                plan,
                slot_liveness,
                optimization == OptimizationLevel::Aggressive,
                target,
                packing_barrier,
            ),
            target,
            packing_barrier,
        )
    } else {
        known
    }
}

/// The context layouts of a unit.
pub open spec fn context_layouts(
    functions: Seq<LivenessFunction>,
    plan: Option<&CStaticAwaitPlan>,
    slot_liveness: SlotLivenessUnit,
    optimization: OptimizationLevel,
    target: TargetConfig,
    packing_barrier: bool,
) -> Seq<(usize, LayoutView)> {
    let n = functions.len() as int;
    let identity = identity_layout::identity_layouts(functions, plan, slot_liveness, n);
    if identity_layout::identity_problems(functions, slot_liveness, n).len() > 0 {
        identity
    } else {
        optimized_layouts(
            identity,
            functions,
            plan,
            slot_liveness,
            optimization,
            target,
            packing_barrier,
        )
    }
}

/// A layout whose slots have members keeps a list of such layouts so.
pub proof fn put_filled(layouts: Seq<(usize, LayoutView)>, start: usize, layout: LayoutView)
    requires
        layout_knowledge::layouts_filled(layouts),
        layout_knowledge::slots_filled(layout.slots),
    ensures
        layout_knowledge::layouts_filled(order::put(layouts, start, layout)),
{
    order::key_point_bounds(layouts, start, 0);
    let p = order::key_point(layouts, start, 0);
    let after = order::put(layouts, start, layout);
    assert forall|i: int| 0 <= i < after.len() implies layout_knowledge::slots_filled(
        (#[trigger] after[i]).1.slots,
    ) by {
        if i != p {
            if order::lookup(layouts, start) is Some || i < p {
                assert(after[i] == layouts[i]);
            } else {
                assert(after[i] == layouts[i - 1]);
            }
        }
    }
}

/// A layout of a list whose slots have members has members in its slots.
pub proof fn lookup_filled(layouts: Seq<(usize, LayoutView)>, start: usize)
    requires
        layout_knowledge::layouts_filled(layouts),
    ensures
        match order::lookup(layouts, start) {
            Some(layout) => layout_knowledge::slots_filled(layout.slots),
            None => true,
        },
{
    order::key_point_bounds(layouts, start, 0);
}

proof fn placed_filled(fields: Seq<FieldView>, n: int)
    ensures
        layout_knowledge::slots_filled(identity_layout::placed_directly(fields, n).slots),
    decreases n,
{
    if n > 0 {
        placed_filled(fields, n - 1);
    }
}

/// Every slot of an identity layout has a member.
pub proof fn identity_filled(
    functions: Seq<LivenessFunction>,
    plan: Option<&CStaticAwaitPlan>,
    slot_liveness: SlotLivenessUnit,
    n: int,
)
    ensures
        layout_knowledge::layouts_filled(
            identity_layout::identity_layouts(functions, plan, slot_liveness, n),
        ),
    decreases n,
{
    if n > 0 {
        identity_filled(functions, plan, slot_liveness, n - 1);
        let before = identity_layout::identity_layouts(functions, plan, slot_liveness, n - 1);
        let start = functions[n - 1].coroutine.cfg.span.start_byte;
        let own = identity_layout::planned_at(plan, start);
        let fields = identity_layout::context_fields(functions[n - 1], own);
        placed_filled(fields, fields.len() as int);
        put_filled(before, start, identity_layout::identity_layout(functions[n - 1], own));
    }
}

/// Groups that share storage have several members.
pub proof fn shared_groups_filled(groups: Seq<Seq<usize>>, n: int)
    ensures
        forall|g: int|
            0 <= g < speed_layout::shared_groups(groups, n).len() ==> (
            #[trigger] speed_layout::shared_groups(groups, n)[g]).len() > 1,
    decreases n,
{
    if n > 0 {
        shared_groups_filled(groups, n - 1);
        let before = speed_layout::shared_groups(groups, n - 1);
        let after = speed_layout::shared_groups(groups, n);
        assert forall|g: int| 0 <= g < after.len() implies (#[trigger] after[g]).len() > 1 by {
            if g < before.len() {
                assert(after[g] == before[g]);
            }
        }
    }
}

/// The group that is found for a field holds it.
pub proof fn group_with_finds(
    candidates: Seq<CandidateView>,
    groups: Seq<Seq<usize>>,
    field: crate::context_layout::LogicalFieldId,
    i: int,
)
    requires
        0 <= i <= groups.len(),
    ensures
        match speed_layout::group_with(candidates, groups, field, i) {
            Some(g) => i <= g < groups.len() && speed_layout::group_holds(
                candidates,
                groups[g],
                field,
            ),
            None => true,
        },
    decreases groups.len() - i,
{
    if i < groups.len() && !speed_layout::group_holds(candidates, groups[i], field) {
        group_with_finds(candidates, groups, field, i + 1);
    }
}

proof fn merge_filled(
    start: Merging,
    slots: Seq<SlotView>,
    candidates: Seq<CandidateView>,
    groups: Seq<Seq<usize>>,
    n: int,
)
    requires
        layout_knowledge::slots_filled(start.building.slots),
        forall|g: int| 0 <= g < groups.len() ==> (#[trigger] groups[g]).len() > 1,
    ensures
        layout_knowledge::slots_filled(
            speed_layout::merge_slots(start, slots, candidates, groups, n).building.slots,
        ),
    decreases n,
{
    if n > 0 {
        merge_filled(start, slots, candidates, groups, n - 1);
        group_with_finds(candidates, groups, slots[n - 1].members[0].logical, 0);
    }
}

/// Sharing storage among values of one type leaves a member in every slot.
pub proof fn speed_layout_filled(
    layout: LayoutView,
    plan: Option<crate::c_static_plan::FunctionPlanView>,
    lifetimes: SlotLivenessFunction,
)
    requires
        layout_knowledge::slots_filled(layout.slots),
    ensures
        layout_knowledge::slots_filled(
            speed_layout::speed_layout(layout, plan, lifetimes).slots,
        ),
{
    let n = layout.slots.len() as int;
    let candidates = speed_layout::candidates_of(layout.slots, plan, lifetimes, n);
    let all = speed_layout::groups_of(candidates, lifetimes, candidates.len() as int);
    shared_groups_filled(all, all.len() as int);
    let groups = speed_layout::speed_groups(layout, plan, lifetimes);
    merge_filled(
        Merging {
            building: crate::context_layout::Building {
                slots: Seq::empty(),
                fields: layout.fields,
            },
            decisions: layout.decisions,
            emitted: Seq::empty(),
        },
        layout.slots,
        candidates,
        groups,
        n,
    );
}

/// Sharing storage among values of different types leaves a member in every
/// slot.
pub proof fn sized_layout_filled(
    layout: LayoutView,
    speed: LayoutView,
    function: LivenessFunction,
    plan: Option<crate::c_static_plan::FunctionPlanView>,
    lifetimes: Option<SlotLivenessFunction>,
    aggressive: bool,
    model: TargetLayoutModel,
    generated: Seq<(Seq<char>, TypeLayout)>,
)
    requires
        layout_knowledge::slots_filled(layout.slots),
        layout_knowledge::slots_filled(speed.slots),
        speed.slots.len() <= usize::MAX,
    ensures
        layout_knowledge::slots_filled(
            size_layout::sized_layout(
                layout,
                speed,
                function,
                plan,
                lifetimes,
                aggressive,
                model,
                generated,
            ).slots,
        ),
{
    let n = speed.slots.len() as int;
    let nodes = slot_sharing::nodes_of(speed.slots, plan, function, model, generated, n);
    slot_sharing::nodes_of_ok(speed.slots, plan, function, model, generated, n);
    assert forall|colors: Seq<usize>| layout_knowledge::slots_filled(
        (#[trigger] size_layout::merged_candidate(speed, function, nodes, colors)).slots,
    ) by {
        slot_merging::merged_slots_filled(
            size_layout::with_exclusions(speed, function).fields,
            speed.slots,
            nodes,
            colors,
            n,
        );
    }
}

fn apply_speed_layouts(
    layouts: &mut Vec<(usize, FunctionContextLayout)>,
    unit: &LivenessUnit,
    static_plan: Option<&CStaticAwaitPlan>,
    slot_liveness: &SlotLivenessUnit,
)
    requires
        layout_knowledge::layouts_filled(order::entry_views(old(layouts)@)),
    ensures
        order::entry_views(final(layouts)@) == speed_layouts(
            order::entry_views(old(layouts)@),
            unit.functions@,
            static_plan,
            *slot_liveness,
            unit.functions@.len() as int,
        ),
        layout_knowledge::layouts_filled(order::entry_views(final(layouts)@)),
{
    let ghost first = order::entry_views(layouts@);
    let mut n: usize = 0;
    while n < unit.functions.len()
        invariant
            n <= unit.functions@.len(),
            layout_knowledge::layouts_filled(order::entry_views(layouts@)),
            order::entry_views(layouts@) == speed_layouts(
                first,
                unit.functions@,
                static_plan,
                *slot_liveness,
                n as int,
            ),
        decreases unit.functions@.len() - n,
    {
        let ghost before = order::entry_views(layouts@);
        let start = unit.functions[n].coroutine.cfg.span.start_byte;
        if unit.functions[n].coroutine.cfg.is_async {
            proof {
                order::lookup_views(layouts@, start);
                order::key_point_views(layouts@, start, 0);
                lookup_filled(before, start);
            }
            if let Some(i) = find_index(layouts, start) {
                if let Some(lifetimes) = find_lifetimes(slot_liveness, n) {
                    let ghost layout = layouts@[i as int].1@;
                    let ghost own = identity_layout::planned_at(static_plan, start);
                    assert(before[i as int] == (start, layout));
                    apply_speed_layout(
                        &mut layouts[i].1,
                        find_plan(static_plan, start),
                        lifetimes,
                    );
                    proof {
                        speed_layout_filled(layout, own, *lifetimes);
                        put_filled(
                            before,
                            start,
                            speed_layout::speed_layout(layout, own, *lifetimes),
                        );
                    }
                    assert(order::entry_views(layouts@) =~= before.update(
                        i as int,
                        (start, speed_layout::speed_layout(layout, own, *lifetimes)),
                    ));
                }
            }
        }
        n += 1;
    }
}

fn clone_layouts(layouts: &Vec<(usize, FunctionContextLayout)>) -> (r: Vec<
    (usize, FunctionContextLayout),
>)
    ensures
        order::entry_views(r@) == order::entry_views(layouts@),
{
    let ghost views = order::entry_views(layouts@);
    let mut r: Vec<(usize, FunctionContextLayout)> = Vec::new();
    let mut i: usize = 0;
    while i < layouts.len()
        invariant
            i <= layouts@.len(),
            views == order::entry_views(layouts@),
            order::entry_views(r@) =~= views.take(i as int),
        decreases layouts@.len() - i,
    {
        let entry = (layouts[i].0, layouts[i].1.clone());
        let ghost before = r@;
        r.push(entry);
        assert(order::entry_views(r@) =~= order::entry_views(before).push((entry.0, entry.1@)));
        i += 1;
    }
    assert(views.take(i as int) =~= views);
    r
}

fn forget_all_sizes(
    layouts: &mut Vec<(usize, FunctionContextLayout)>,
    aggressive: bool,
    reason: &LayoutUnknownReason,
)
    requires
        layout_knowledge::layouts_filled(order::entry_views(old(layouts)@)),
    ensures
        order::entry_views(final(layouts)@) == unsized_layouts(
            order::entry_views(old(layouts)@),
            aggressive,
            reason@,
        ),
        layout_knowledge::layouts_filled(order::entry_views(final(layouts)@)),
{
    let ghost before = order::entry_views(layouts@);
    let ghost goal = unsized_layouts(before, aggressive, reason@);
    let mut i: usize = 0;
    while i < layouts.len()
        invariant
            i <= layouts@.len(),
            layouts@.len() == before.len(),
            goal == unsized_layouts(before, aggressive, reason@),
            order::entry_views(layouts@) =~= goal.take(i as int) + before.skip(i as int),
        decreases layouts@.len() - i,
    {
        let ghost now = order::entry_views(layouts@);
        assert(now[i as int] == before[i as int]);
        forget_sizes(&mut layouts[i].1, aggressive, reason);
        assert(order::entry_views(layouts@) =~= now.update(i as int, goal[i as int]));
        i += 1;
    }
    assert(goal.take(i as int) + before.skip(i as int) =~= goal);
    assert forall|k: int| 0 <= k < goal.len() implies layout_knowledge::slots_filled(
        (#[trigger] goal[k]).1.slots,
    ) by {
        assert(layout_knowledge::slots_filled(before[k].1.slots));
    }
}

/// Lets values of different types share their storage.
pub fn apply_size_layouts(
    layouts: &mut Vec<(usize, FunctionContextLayout)>,
    unit: &LivenessUnit,
    static_plan: Option<&CStaticAwaitPlan>,
    slot_liveness: &SlotLivenessUnit,
    aggressive: bool,
    target: &TargetConfig,
    packing_barrier: bool,
)
    requires
        layout_knowledge::layouts_filled(order::entry_views(old(layouts)@)),
    ensures
        order::entry_views(final(layouts)@) == size_layouts(
            order::entry_views(old(layouts)@),
            unit.functions@,
            static_plan,
            *slot_liveness,
            aggressive,
            *target,
            packing_barrier,
        ),
        layout_knowledge::layouts_filled(order::entry_views(final(layouts)@)),
{
    if packing_barrier {
        forget_all_sizes(layouts, aggressive, &LayoutUnknownReason::PackingEnvironment);
        return;
    }
    let model = match TargetLayoutModel::for_target(target) {
        LayoutKnowledge::Exact(model) => model,
        LayoutKnowledge::Unknown(reason) => {
            forget_all_sizes(layouts, aggressive, &reason);
            return;
        },
    };
    let ghost first = order::entry_views(layouts@);
    let speed = clone_layouts(layouts);
    let generated = exact_generated_types(&speed);
    let mut n: usize = 0;
    while n < unit.functions.len()
        invariant
            n <= unit.functions@.len(),
            model.pointer <= 16,
            first == order::entry_views(speed@),
            layout_knowledge::layouts_filled(first),
            target_layout::generated_view(generated@) == size_layout::exact_types(
                first,
                first.len() as int,
            ),
            layout_knowledge::layouts_filled(order::entry_views(layouts@)),
            order::entry_views(layouts@) == sized_layouts(
                first,
                unit.functions@,
                static_plan,
                *slot_liveness,
                aggressive,
                model,
                n as int,
            ),
        decreases unit.functions@.len() - n,
    {
        let ghost before = order::entry_views(layouts@);
        let start = unit.functions[n].coroutine.cfg.span.start_byte;
        if unit.functions[n].coroutine.cfg.is_async {
            proof {
                order::lookup_views(layouts@, start);
                order::key_point_views(layouts@, start, 0);
                lookup_filled(before, start);
                order::lookup_views(speed@, start);
                lookup_filled(first, start);
            }
            if let Some(i) = find_index(layouts, start) {
                if let Some(own) = find_value(&speed, start) {
                    let ghost layout = layouts@[i as int].1@;
                    let ghost plan = identity_layout::planned_at(static_plan, start);
                    let ghost lifetimes = identity_layout::lifetimes_of(
                        slot_liveness.functions@,
                        n as int,
                        0,
                    );
                    let ghost goal = size_layout::sized_layout(
                        layout,
                        own@,
                        unit.functions@[n as int],
                        plan,
                        lifetimes,
                        aggressive,
                        model,
                        target_layout::generated_view(generated@),
                    );
                    assert(before[i as int] == (start, layout));
                    let sized = apply_size_layout(
                        layouts[i].1.clone(),
                        own,
                        &unit.functions[n],
                        find_plan(static_plan, start),
                        find_lifetimes(slot_liveness, n),
                        aggressive,
                        &model,
                        &generated,
                    );
                    assert(sized@ == goal);
                    let slots: usize = own.slots.len();
                    proof {
                        assert(own@.slots.len() == slots);
                        sized_layout_filled(
                            layout,
                            own@,
                            unit.functions@[n as int],
                            plan,
                            lifetimes,
                            aggressive,
                            model,
                            target_layout::generated_view(generated@),
                        );
                        put_filled(before, start, goal);
                    }
                    layouts[i].1 = sized;
                    assert(order::entry_views(layouts@) =~= before.update(
                        i as int,
                        (start, goal),
                    ));
                }
            }
        }
        n += 1;
    }
}

/// Builds the context layouts of a unit for an optimization level.
#[must_use]
pub fn build_context_layout(
    unit: &LivenessUnit,
    static_plan: Option<&CStaticAwaitPlan>,
    slot_liveness: &SlotLivenessUnit,
    optimization: OptimizationLevel,
    target: &TargetConfig,
    packing_barrier: bool,
) -> (r: ContextLayoutPlan)
    requires
        identity_layout::contexts_distinct(unit.functions@, static_plan, *slot_liveness),
    ensures
        order::entry_views(r.functions@) == context_layouts(
            unit.functions@,
            static_plan,
            *slot_liveness,
            optimization,
            *target,
            packing_barrier,
        ),
        syntax::views(r.diagnostics@) == identity_layout::identity_problems(
            unit.functions@,
            *slot_liveness,
            unit.functions@.len() as int,
        ),
        r.ordered(),
{
    let mut plan = build_identity_context_layout(unit, static_plan, slot_liveness);
    if plan.diagnostics.len() > 0 {
        assert(syntax::views(plan.diagnostics@).len() > 0);
        proof {
            order_laws::built_layouts_are_ordered(
                plan,
                unit.functions@,
                static_plan,
                *slot_liveness,
                optimization,
                *target,
                packing_barrier,
            );
        }
        return plan;
    }
    assert(syntax::views(plan.diagnostics@).len() == 0);
    proof {
        identity_filled(
            unit.functions@,
            static_plan,
            *slot_liveness,
            unit.functions@.len() as int,
        );
    }
    if optimization != OptimizationLevel::Off {
        apply_speed_layouts(&mut plan.functions, unit, static_plan, slot_liveness);
    }
    let ghost speed = order::entry_views(plan.functions@);
    compute_layout_knowledge(&mut plan, target, packing_barrier);
    proof {
        knowledge_filled(speed, *target, packing_barrier);
    }
    if optimization == OptimizationLevel::Size || optimization == OptimizationLevel::Aggressive {
        apply_size_layouts(
            &mut plan.functions,
            unit,
            static_plan,
            slot_liveness,
            optimization == OptimizationLevel::Aggressive,
            target,
            packing_barrier,
        );
        compute_layout_knowledge(&mut plan, target, packing_barrier);
    }
    proof {
        order_laws::built_layouts_are_ordered(
            plan,
            unit.functions@,
            static_plan,
            *slot_liveness,
            optimization,
            *target,
            packing_barrier,
        );
    }
    plan
}

proof fn knowledge_filled(
    layouts: Seq<(usize, LayoutView)>,
    target: TargetConfig,
    packing_barrier: bool,
)
    requires
        layout_knowledge::layouts_filled(layouts),
    ensures
        layout_knowledge::layouts_filled(
            layout_knowledge::known_layouts(layouts, target, packing_barrier),
        ),
{
    layout_knowledge::knowledge_keeps_layouts(layouts, target, packing_barrier);
    let known = layout_knowledge::known_layouts(layouts, target, packing_barrier);
    assert forall|i: int| 0 <= i < known.len() implies layout_knowledge::slots_filled(
        (#[trigger] known[i]).1.slots,
    ) by {
        assert(layout_knowledge::slots_filled(layouts[i].1.slots));
    }
}

} // verus!
