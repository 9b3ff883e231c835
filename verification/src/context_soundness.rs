//! Context layouts are sound at every level of optimization.

use vstd::prelude::*;

use crate::c_static_plan::{CStaticAwaitPlan, FunctionPlanView};
use crate::config::{OptimizationLevel, TargetConfig};
use crate::context_layout::{LayoutView, LogicalFieldId, PlacementView};
use crate::identity_layout;
use crate::layout_check;
use crate::layout_knowledge;
use crate::layout_passes;
use crate::layout_soundness;
use crate::liveness::{LivenessFunction, LivenessUnit};
use crate::order;
use crate::placement;
use crate::placement_laws;
use crate::size_layout;
use crate::size_soundness;
use crate::slot_liveness::{SlotLivenessFunction, SlotLivenessUnit};
use crate::slot_merging;
use crate::slot_sharing;
use crate::speed_layout;
use crate::speed_soundness;
use crate::syntax::DiagnosticView;
use crate::target_layout;
use crate::target_layout::{Known, TargetLayoutModel, TypeLayout};

verus! {

/// Whether a layout is sound, places the expected fields, and has few enough
/// of them to number.
pub open spec fn layout_fine(
    layout: LayoutView,
    expected: Seq<(LogicalFieldId, PlacementView)>,
    plan: Option<FunctionPlanView>,
    function: LivenessFunction,
    lifetimes: SlotLivenessFunction,
) -> bool {
    &&& layout_soundness::layout_sound(layout, plan, function, lifetimes)
    &&& layout_soundness::places_all(layout.fields, expected)
    &&& layout.fields.len() < u32::MAX
    &&& layout.source_start == function.coroutine.cfg.span.start_byte
}

proof fn merged_candidate_fine(
    speed: LayoutView,
    expected: Seq<(LogicalFieldId, PlacementView)>,
    plan: Option<FunctionPlanView>,
    function: LivenessFunction,
    lifetimes: SlotLivenessFunction,
    nodes: Seq<crate::slot_sharing::NodeView>,
    colors: Seq<usize>,
    model: TargetLayoutModel,
    generated: Seq<(Seq<char>, TypeLayout)>,
)
    requires
        layout_fine(speed, expected, plan, function, lifetimes),
        nodes == slot_sharing::nodes_of(
            speed.slots,
            plan,
            function,
            model,
            generated,
            speed.slots.len() as int,
        ),
        colors.len() == nodes.len(),
        placement_laws::complete(colors),
        placement_laws::proper(
            slot_sharing::graph_of(speed.slots, nodes, function, lifetimes),
            colors,
        ),
    ensures
        layout_fine(
            size_layout::merged_candidate(speed, function, nodes, colors),
            expected,
            plan,
            function,
            lifetimes,
        ),
{
    let marked = size_layout::with_exclusions(speed, function);
    let building = layout_soundness::building_in(speed);
    assert(layout_soundness::building_in(marked) == building);
    layout_soundness::slots_fit(building);
    slot_sharing::nodes_of_ok(
        speed.slots,
        plan,
        function,
        model,
        generated,
        speed.slots.len() as int,
    );
    size_soundness::nodes_know(
        speed.slots,
        plan,
        function,
        model,
        generated,
        speed.slots.len() as int,
    );
    size_soundness::proper_colors_are_apart(speed.slots, nodes, colors, function, lifetimes);
    size_soundness::merged_layout_sound(marked, nodes, colors, plan, function, lifetimes);
    let after = size_layout::merged_candidate(speed, function, nodes, colors);
    assert forall|field: LogicalFieldId| order::lookup(expected, field) is Some implies (
    #[trigger] order::lookup(after.fields, field)) is Some by {
        assert(order::lookup(speed.fields, field) is Some);
    }
}

/// The size pass, and the aggressive one after it, keep a layout sound.
proof fn sized_layout_fine(
    layout: LayoutView,
    speed: LayoutView,
    expected: Seq<(LogicalFieldId, PlacementView)>,
    plan: Option<FunctionPlanView>,
    function: LivenessFunction,
    lifetimes: SlotLivenessFunction,
    aggressive: bool,
    model: TargetLayoutModel,
    generated: Seq<(Seq<char>, TypeLayout)>,
)
    requires
        layout_fine(layout, expected, plan, function, lifetimes),
        layout_fine(speed, expected, plan, function, lifetimes),
    ensures
        layout_fine(
            size_layout::sized_layout(
                layout,
                speed,
                function,
                plan,
                Some(lifetimes),
                aggressive,
                model,
                generated,
            ),
            expected,
            plan,
            function,
            lifetimes,
        ),
{
    let n = speed.slots.len() as int;
    let nodes = slot_sharing::nodes_of(speed.slots, plan, function, model, generated, n);
    layout_soundness::slots_fit(layout_soundness::building_in(speed));
    slot_sharing::nodes_of_ok(speed.slots, plan, function, model, generated, n);
    let graph = slot_sharing::graph_of(speed.slots, nodes, function, lifetimes);
    slot_sharing::graph_of_ok(speed.slots, nodes, function, lifetimes);
    let colors = placement::greedy_colors(graph, graph.weights.len() as int);
    placement_laws::greedy_coloring_is_proper(graph);
    merged_candidate_fine(
        speed,
        expected,
        plan,
        function,
        lifetimes,
        nodes,
        colors,
        model,
        generated,
    );
    if let Known::Exact(known) = speed.layout_knowledge {
        let current = size_layout::with_exclusions(layout, function);
        let candidate = size_layout::merged_candidate(speed, function, nodes, colors);
        if let Known::Exact(merged) = layout_knowledge::context_layout_of(
            model,
            candidate.slots,
            generated,
        ) {
            let sized = if merged.size <= known.size {
                size_layout::with_size_decision(
                    LayoutView { layout_knowledge: Known::Exact(merged), ..candidate },
                    crate::context_layout::SizeDecisionView::Accepted {
                        speed_size: known.size,
                        size_size: merged.size,
                    },
                )
            } else {
                size_layout::with_size_decision(
                    current,
                    crate::context_layout::SizeDecisionView::RetainedLarger {
                        speed_size: known.size,
                        candidate_size: merged.size,
                    },
                )
            };
            assert(layout_soundness::building_in(sized) == layout_soundness::building_in(
                if merged.size <= known.size {
                    candidate
                } else {
                    layout
                },
            ));
            assert(layout_fine(sized, expected, plan, function, lifetimes));
            aggressive_layout_fine(
                sized,
                speed,
                expected,
                plan,
                function,
                lifetimes,
                nodes,
                colors,
                model,
                generated,
            );
        }
    }
}

proof fn aggressive_layout_fine(
    size: LayoutView,
    speed: LayoutView,
    expected: Seq<(LogicalFieldId, PlacementView)>,
    plan: Option<FunctionPlanView>,
    function: LivenessFunction,
    lifetimes: SlotLivenessFunction,
    nodes: Seq<crate::slot_sharing::NodeView>,
    size_colors: Seq<usize>,
    model: TargetLayoutModel,
    generated: Seq<(Seq<char>, TypeLayout)>,
)
    requires
        layout_fine(size, expected, plan, function, lifetimes),
        layout_fine(speed, expected, plan, function, lifetimes),
        nodes == slot_sharing::nodes_of(
            speed.slots,
            plan,
            function,
            model,
            generated,
            speed.slots.len() as int,
        ),
    ensures
        layout_fine(
            size_layout::aggressive_layout(
                size,
                speed,
                function,
                nodes,
                slot_sharing::graph_of(speed.slots, nodes, function, lifetimes),
                size_colors,
                model,
                generated,
            ),
            expected,
            plan,
            function,
            lifetimes,
        ),
{
    let n = speed.slots.len() as int;
    layout_soundness::slots_fit(layout_soundness::building_in(speed));
    slot_sharing::nodes_of_ok(speed.slots, plan, function, model, generated, n);
    let graph = slot_sharing::graph_of(speed.slots, nodes, function, lifetimes);
    slot_sharing::graph_of_ok(speed.slots, nodes, function, lifetimes);
    if let Known::Exact(known) = size.layout_knowledge {
        if let Known::Exact(bounds) = slot_merging::fixed_cost(
            speed.slots,
            nodes,
            model,
            generated,
            n,
        ) {
            let search = size_layout::aggressive_search(
                size,
                speed,
                nodes,
                graph,
                bounds,
                size_colors,
                model,
                generated,
                known.size,
            );
            let incumbent = slot_merging::cost_of_slots(size.slots, known.size);
            slot_merging::merged_costs_depend_on_grouping(speed.slots, nodes, model, generated);
            placement_laws::found_placement_is_sound(
                graph,
                bounds,
                size_layout::AGGRESSIVE_NODE_BUDGET,
                slot_merging::merged_costs(speed.slots, nodes, model, generated),
                size_layout::incumbent_colors(size, nodes.len(), size_colors),
                incumbent,
            );
            if !search.exhausted && size_layout::improved(search, incumbent) {
                merged_candidate_fine(
                    speed,
                    expected,
                    plan,
                    function,
                    lifetimes,
                    nodes,
                    search.best_colors,
                    model,
                    generated,
                );
            }
        }
    }
}

/// Where function `i` starts.
pub open spec fn start_of(functions: Seq<LivenessFunction>, i: int) -> usize {
    functions[i].coroutine.cfg.span.start_byte
}

/// Whether no function starts where another one starts that has a context.
pub open spec fn starts_distinct(
    functions: Seq<LivenessFunction>,
    slot_liveness: SlotLivenessUnit,
) -> bool {
    forall|i: int, j: int|
        0 <= i < j < functions.len() && (identity_layout::has_context(functions, slot_liveness, i)
            || identity_layout::has_context(functions, slot_liveness, j))
            ==> #[trigger] start_of(functions, i) != #[trigger] start_of(functions, j)
}

/// A function with a context starts where no other one does.
pub proof fn start_is_alone(
    functions: Seq<LivenessFunction>,
    slot_liveness: SlotLivenessUnit,
    i: int,
    j: int,
)
    requires
        starts_distinct(functions, slot_liveness),
        0 <= i < functions.len(),
        0 <= j < functions.len(),
        i != j,
        identity_layout::has_context(functions, slot_liveness, j),
    ensures
        start_of(functions, i) != start_of(functions, j),
{
    if i < j {
        assert(start_of(functions, i) != start_of(functions, j));
    } else {
        assert(start_of(functions, j) != start_of(functions, i));
    }
}

/// The context of function `i` in which every field stands alone, if it has
/// one.
pub open spec fn lone_layout(
    functions: Seq<LivenessFunction>,
    plan: Option<&CStaticAwaitPlan>,
    slot_liveness: SlotLivenessUnit,
    i: int,
) -> Option<LayoutView> {
    if identity_layout::has_context(functions, slot_liveness, i) {
        Some(
            identity_layout::identity_layout(
                functions[i],
                identity_layout::planned_at(plan, start_of(functions, i)),
            ),
        )
    } else {
        None
    }
}

/// The layouts in which every field stands alone, by where functions start.
pub proof fn identity_found(
    functions: Seq<LivenessFunction>,
    plan: Option<&CStaticAwaitPlan>,
    slot_liveness: SlotLivenessUnit,
    n: int,
)
    requires
        starts_distinct(functions, slot_liveness),
        0 <= n <= functions.len(),
    ensures
        order::ascending(
            identity_layout::identity_layouts(functions, plan, slot_liveness, n),
        ),
        forall|i: int|
            0 <= i < functions.len() ==> order::lookup(
                identity_layout::identity_layouts(functions, plan, slot_liveness, n),
                #[trigger] start_of(functions, i),
            ) == (if i < n {
                lone_layout(functions, plan, slot_liveness, i)
            } else {
                None
            }),
        forall|k: int|
            0 <= k < identity_layout::identity_layouts(functions, plan, slot_liveness, n).len()
                ==> exists|i: int|
                0 <= i < n && #[trigger] start_of(functions, i) == (
                #[trigger] identity_layout::identity_layouts(
                    functions,
                    plan,
                    slot_liveness,
                    n,
                )[k]).0,
    decreases n,
{
    let after = identity_layout::identity_layouts(functions, plan, slot_liveness, n);
    if n > 0 {
        identity_found(functions, plan, slot_liveness, n - 1);
        let before = identity_layout::identity_layouts(functions, plan, slot_liveness, n - 1);
        let start = start_of(functions, n - 1);
        if let Some(layout) = lone_layout(functions, plan, slot_liveness, n - 1) {
            order::put_ascending(before, start, layout, start);
            order::key_point_bounds(before, start, 0);
            assert forall|k: int| 0 <= k < after.len() implies exists|i: int|
                0 <= i < n && #[trigger] start_of(functions, i) == (#[trigger] after[k]).0 by {
                let p = order::key_point(before, start, 0);
                if after[k].0 == start {
                    assert(start_of(functions, n - 1) == after[k].0);
                } else {
                    let old_k = if after.len() == before.len() || k < p {
                        k
                    } else {
                        k - 1
                    };
                    assert(after[k] == before[old_k]);
                    let i = choose|i: int|
                        0 <= i < n - 1 && #[trigger] start_of(functions, i) == before[old_k].0;
                    assert(start_of(functions, i) == after[k].0);
                }
            }
        } else {
            assert(after == before);
            assert forall|k: int| 0 <= k < after.len() implies exists|i: int|
                0 <= i < n && #[trigger] start_of(functions, i) == (#[trigger] after[k]).0 by {
                let i = choose|i: int|
                    0 <= i < n - 1 && #[trigger] start_of(functions, i) == before[k].0;
                assert(start_of(functions, i) == after[k].0);
            }
        }
        assert forall|i: int| 0 <= i < functions.len() implies order::lookup(
            after,
            #[trigger] start_of(functions, i),
        ) == (if i < n {
            lone_layout(functions, plan, slot_liveness, i)
        } else {
            None
        }) by {
            if let Some(layout) = lone_layout(functions, plan, slot_liveness, n - 1) {
                order::put_ascending(before, start, layout, start_of(functions, i));
                if i != n - 1 {
                    start_is_alone(functions, slot_liveness, i, n - 1);
                }
            }
        }
    }
}

/// Whether every function that has a context has a fine layout, and no other
/// function has one.
pub open spec fn layouts_fine(
    layouts: Seq<(usize, LayoutView)>,
    functions: Seq<LivenessFunction>,
    plan: Option<&CStaticAwaitPlan>,
    slot_liveness: SlotLivenessUnit,
) -> bool {
    &&& order::ascending(layouts)
    &&& forall|i: int|
        0 <= i < functions.len() ==> match (
            order::lookup(layouts, #[trigger] start_of(functions, i)),
            lone_layout(functions, plan, slot_liveness, i),
        ) {
            (Some(layout), Some(lone)) => layout_fine(
                layout,
                lone.fields,
                identity_layout::planned_at(plan, start_of(functions, i)),
                functions[i],
                identity_layout::lifetimes_of(slot_liveness.functions@, i, 0)->0,
            ),
            (None, None) => true,
            _ => false,
        }
}

/// Whether the fields of every context can be numbered.
pub open spec fn contexts_fit(
    functions: Seq<LivenessFunction>,
    plan: Option<&CStaticAwaitPlan>,
    slot_liveness: SlotLivenessUnit,
) -> bool {
    forall|i: int|
        0 <= i < functions.len() && identity_layout::has_context(functions, slot_liveness, i)
            ==> identity_layout::context_fields(
            functions[i],
            identity_layout::planned_at(plan, #[trigger] start_of(functions, i)),
        ).len() < u32::MAX
}

pub proof fn lone_layout_fine(
    functions: Seq<LivenessFunction>,
    plan: Option<&CStaticAwaitPlan>,
    slot_liveness: SlotLivenessUnit,
    i: int,
)
    requires
        identity_layout::contexts_distinct(functions, plan, slot_liveness),
        contexts_fit(functions, plan, slot_liveness),
        0 <= i < functions.len(),
    ensures
        match lone_layout(functions, plan, slot_liveness, i) {
            Some(lone) => {
                &&& layout_fine(
                    lone,
                    lone.fields,
                    identity_layout::planned_at(plan, start_of(functions, i)),
                    functions[i],
                    identity_layout::lifetimes_of(slot_liveness.functions@, i, 0)->0,
                )
                &&& layout_soundness::all_alone(lone.slots)
                &&& identity_layout::lifetimes_of(slot_liveness.functions@, i, 0) is Some
            },
            None => true,
        },
{
    if let Some(lone) = lone_layout(functions, plan, slot_liveness, i) {
        let own = identity_layout::planned_at(plan, start_of(functions, i));
        assert(identity_layout::fields_distinct(
            identity_layout::context_fields(functions[i], own),
        ));
        layout_soundness::identity_sound(
            functions[i],
            own,
            identity_layout::lifetimes_of(slot_liveness.functions@, i, 0)->0,
        );
    }
}

/// The layouts after values of one type share storage, by where functions
/// start.
pub proof fn speed_found(
    layouts: Seq<(usize, LayoutView)>,
    functions: Seq<LivenessFunction>,
    plan: Option<&CStaticAwaitPlan>,
    slot_liveness: SlotLivenessUnit,
    n: int,
)
    requires
        starts_distinct(functions, slot_liveness),
        order::ascending(layouts),
        forall|i: int|
            0 <= i < functions.len() && order::lookup(
                layouts,
                #[trigger] start_of(functions, i),
            ) is Some ==> identity_layout::has_context(functions, slot_liveness, i),
        0 <= n <= functions.len(),
    ensures
        order::ascending(
            layout_passes::speed_layouts(layouts, functions, plan, slot_liveness, n),
        ),
        forall|i: int|
            0 <= i < functions.len() ==> order::lookup(
                layout_passes::speed_layouts(layouts, functions, plan, slot_liveness, n),
                #[trigger] start_of(functions, i),
            ) == (if i < n && functions[i].coroutine.cfg.is_async {
                match (
                    order::lookup(layouts, start_of(functions, i)),
                    identity_layout::lifetimes_of(slot_liveness.functions@, i, 0),
                ) {
                    (Some(layout), Some(lifetimes)) => Some(
                        speed_layout::speed_layout(
                            layout,
                            identity_layout::planned_at(plan, start_of(functions, i)),
                            lifetimes,
                        ),
                    ),
                    (found, _) => found,
                }
            } else {
                order::lookup(layouts, start_of(functions, i))
            }),
    decreases n,
{
    if n > 0 {
        speed_found(layouts, functions, plan, slot_liveness, n - 1);
        let before = layout_passes::speed_layouts(layouts, functions, plan, slot_liveness, n - 1);
        let after = layout_passes::speed_layouts(layouts, functions, plan, slot_liveness, n);
        let start = start_of(functions, n - 1);
        assert(order::lookup(before, start) == order::lookup(layouts, start));
        assert forall|i: int| 0 <= i < functions.len() implies {
            &&& order::ascending(after)
            &&& i != n - 1 ==> order::lookup(after, #[trigger] start_of(functions, i))
                == order::lookup(before, start_of(functions, i))
        } by {
            match (
                order::lookup(before, start),
                identity_layout::lifetimes_of(slot_liveness.functions@, n - 1, 0),
            ) {
                (Some(layout), Some(lifetimes)) => {
                    assert(identity_layout::has_context(functions, slot_liveness, n - 1));
                    if i != n - 1 {
                        start_is_alone(functions, slot_liveness, i, n - 1);
                    }
                    let value = speed_layout::speed_layout(
                        layout,
                        identity_layout::planned_at(plan, start),
                        lifetimes,
                    );
                    order::put_ascending(before, start, value, start_of(functions, i));
                },
                _ => {},
            }
        }
        if let (Some(layout), Some(lifetimes)) = (
            order::lookup(before, start),
            identity_layout::lifetimes_of(slot_liveness.functions@, n - 1, 0),
        ) {
            order::put_ascending(
                before,
                start,
                speed_layout::speed_layout(
                    layout,
                    identity_layout::planned_at(plan, start),
                    lifetimes,
                ),
                start,
            );
        }
    }
}

pub proof fn sized_found(
    layouts: Seq<(usize, LayoutView)>,
    functions: Seq<LivenessFunction>,
    plan: Option<&CStaticAwaitPlan>,
    slot_liveness: SlotLivenessUnit,
    aggressive: bool,
    model: TargetLayoutModel,
    n: int,
)
    requires
        starts_distinct(functions, slot_liveness),
        order::ascending(layouts),
        forall|i: int|
            0 <= i < functions.len() && order::lookup(
                layouts,
                #[trigger] start_of(functions, i),
            ) is Some ==> identity_layout::has_context(functions, slot_liveness, i),
        0 <= n <= functions.len(),
    ensures
        order::ascending(
            layout_passes::sized_layouts(
                layouts,
                functions,
                plan,
                slot_liveness,
                aggressive,
                model,
                n,
            ),
        ),
        forall|i: int|
            0 <= i < functions.len() ==> order::lookup(
                layout_passes::sized_layouts(
                    layouts,
                    functions,
                    plan,
                    slot_liveness,
                    aggressive,
                    model,
                    n,
                ),
                #[trigger] start_of(functions, i),
            ) == (match order::lookup(layouts, start_of(functions, i)) {
                Some(speed) => Some(
                    if i < n && functions[i].coroutine.cfg.is_async {
                        size_layout::sized_layout(
                            speed,
                            speed,
                            functions[i],
                            identity_layout::planned_at(plan, start_of(functions, i)),
                            identity_layout::lifetimes_of(slot_liveness.functions@, i, 0),
                            aggressive,
                            model,
                            size_layout::exact_types(layouts, layouts.len() as int),
                        )
                    } else {
                        speed
                    },
                ),
                None => None,
            }),
    decreases n,
{
    if n > 0 {
        sized_found(layouts, functions, plan, slot_liveness, aggressive, model, n - 1);
        let before = layout_passes::sized_layouts(
            layouts,
            functions,
            plan,
            slot_liveness,
            aggressive,
            model,
            n - 1,
        );
        let after = layout_passes::sized_layouts(
            layouts,
            functions,
            plan,
            slot_liveness,
            aggressive,
            model,
            n,
        );
        let start = start_of(functions, n - 1);
        assert(order::lookup(before, start) == order::lookup(layouts, start));
        let value = size_layout::sized_layout(
            order::lookup(layouts, start)->0,
            order::lookup(layouts, start)->0,
            functions[n - 1],
            identity_layout::planned_at(plan, start),
            identity_layout::lifetimes_of(slot_liveness.functions@, n - 1, 0),
            aggressive,
            model,
            size_layout::exact_types(layouts, layouts.len() as int),
        );
        assert forall|i: int| 0 <= i < functions.len() && i != n - 1 implies order::lookup(
            after,
            #[trigger] start_of(functions, i),
        ) == order::lookup(before, start_of(functions, i)) by {
            if order::lookup(layouts, start) is Some {
                assert(identity_layout::has_context(functions, slot_liveness, n - 1));
                start_is_alone(functions, slot_liveness, i, n - 1);
                order::put_ascending(before, start, value, start_of(functions, i));
            }
        }
        order::put_ascending(before, start, value, start);
    }
}

pub proof fn known_found(
    before: Seq<(usize, LayoutView)>,
    after: Seq<(usize, LayoutView)>,
    start: usize,
)
    requires
        order::ascending(before),
        after.len() == before.len(),
        forall|k: int| 0 <= k < before.len() ==> (#[trigger] after[k]).0 == before[k].0,
    ensures
        order::ascending(after),
        match (order::lookup(before, start), order::lookup(after, start)) {
            (Some(old_layout), Some(new_layout)) => exists|k: int|
                0 <= k < before.len() && (#[trigger] before[k]).1 == old_layout && after[k].1
                    == new_layout,
            (None, None) => true,
            _ => false,
        },
{
    assert forall|i: int, j: int| 0 <= i < j < after.len() implies order::Key::rank_spec(
        &(#[trigger] after[i]).0,
    ) < order::Key::rank_spec(&(#[trigger] after[j]).0) by {
        assert(before[i].0 == after[i].0 && before[j].0 == after[j].0);
    }
    order::lookup_finds(before, start);
    order::lookup_finds(after, start);
    if let Some(layout) = order::lookup(before, start) {
        let k = choose|k: int| 0 <= k < before.len() && before[k] == (start, layout);
        assert(after[k].0 == start);
        assert(before[k].1 == layout);
    } else {
        if let Some(layout) = order::lookup(after, start) {
            let k = choose|k: int| 0 <= k < after.len() && after[k] == (start, layout);
            assert(before[k].0 == start);
        }
    }
}

/// Layouts that place fields as fine ones do are fine.
proof fn same_places_fine(
    before: Seq<(usize, LayoutView)>,
    after: Seq<(usize, LayoutView)>,
    functions: Seq<LivenessFunction>,
    plan: Option<&CStaticAwaitPlan>,
    slot_liveness: SlotLivenessUnit,
)
    requires
        layouts_fine(before, functions, plan, slot_liveness),
        after.len() == before.len(),
        forall|k: int|
            0 <= k < before.len() ==> (#[trigger] after[k]).0 == before[k].0
                && after[k].1.source_start == before[k].1.source_start
                && layout_soundness::building_in(after[k].1) == layout_soundness::building_in(
                before[k].1,
            ),
    ensures
        layouts_fine(after, functions, plan, slot_liveness),
{
    assert forall|i: int| 0 <= i < functions.len() implies match (
        order::lookup(after, #[trigger] start_of(functions, i)),
        lone_layout(functions, plan, slot_liveness, i),
    ) {
        (Some(layout), Some(lone)) => layout_fine(
            layout,
            lone.fields,
            identity_layout::planned_at(plan, start_of(functions, i)),
            functions[i],
            identity_layout::lifetimes_of(slot_liveness.functions@, i, 0)->0,
        ),
        (None, None) => true,
        _ => false,
    } by {
        known_found(before, after, start_of(functions, i));
        if let (Some(old_layout), Some(new_layout)) = (
            order::lookup(before, start_of(functions, i)),
            order::lookup(after, start_of(functions, i)),
        ) {
            let k = choose|k: int|
                0 <= k < before.len() && (#[trigger] before[k]).1 == old_layout && after[k].1
                    == new_layout;
            assert(after[k].0 == before[k].0);
            assert(layout_soundness::building_in(new_layout) == layout_soundness::building_in(
                old_layout,
            ));
        }
    }
    known_found(before, after, 0);
}

pub proof fn known_layouts_fine(
    layouts: Seq<(usize, LayoutView)>,
    functions: Seq<LivenessFunction>,
    plan: Option<&CStaticAwaitPlan>,
    slot_liveness: SlotLivenessUnit,
    target: TargetConfig,
    packing_barrier: bool,
)
    requires
        layouts_fine(layouts, functions, plan, slot_liveness),
    ensures
        layouts_fine(
            layout_knowledge::known_layouts(layouts, target, packing_barrier),
            functions,
            plan,
            slot_liveness,
        ),
{
    let after = layout_knowledge::known_layouts(layouts, target, packing_barrier);
    layout_knowledge::knowledge_keeps_layouts(layouts, target, packing_barrier);
    same_places_fine(layouts, after, functions, plan, slot_liveness);
}

pub proof fn speed_layouts_fine(
    functions: Seq<LivenessFunction>,
    plan: Option<&CStaticAwaitPlan>,
    slot_liveness: SlotLivenessUnit,
)
    requires
        starts_distinct(functions, slot_liveness),
        identity_layout::contexts_distinct(functions, plan, slot_liveness),
        contexts_fit(functions, plan, slot_liveness),
    ensures
        ({
            let n = functions.len() as int;
            let identity = identity_layout::identity_layouts(functions, plan, slot_liveness, n);
            &&& layouts_fine(identity, functions, plan, slot_liveness)
            &&& layouts_fine(
                layout_passes::speed_layouts(identity, functions, plan, slot_liveness, n),
                functions,
                plan,
                slot_liveness,
            )
        }),
{
    let n = functions.len() as int;
    let identity = identity_layout::identity_layouts(functions, plan, slot_liveness, n);
    identity_found(functions, plan, slot_liveness, n);
    speed_found(identity, functions, plan, slot_liveness, n);
    assert forall|i: int| 0 <= i < functions.len() implies match lone_layout(
        functions,
        plan,
        slot_liveness,
        i,
    ) {
        Some(lone) => {
            let own = identity_layout::planned_at(plan, #[trigger] start_of(functions, i));
            let lifetimes = identity_layout::lifetimes_of(slot_liveness.functions@, i, 0)->0;
            &&& layout_fine(lone, lone.fields, own, functions[i], lifetimes)
            &&& layout_fine(
                speed_layout::speed_layout(lone, own, lifetimes),
                lone.fields,
                own,
                functions[i],
                lifetimes,
            )
            &&& identity_layout::lifetimes_of(slot_liveness.functions@, i, 0) is Some
        },
        None => true,
    } by {
        lone_layout_fine(functions, plan, slot_liveness, i);
        if let Some(lone) = lone_layout(functions, plan, slot_liveness, i) {
            speed_soundness::speed_layout_sound(
                lone,
                identity_layout::planned_at(plan, start_of(functions, i)),
                functions[i],
                identity_layout::lifetimes_of(slot_liveness.functions@, i, 0)->0,
            );
        }
    }
}

pub proof fn size_layouts_fine(
    layouts: Seq<(usize, LayoutView)>,
    functions: Seq<LivenessFunction>,
    plan: Option<&CStaticAwaitPlan>,
    slot_liveness: SlotLivenessUnit,
    aggressive: bool,
    target: TargetConfig,
    packing_barrier: bool,
)
    requires
        starts_distinct(functions, slot_liveness),
        layouts_fine(layouts, functions, plan, slot_liveness),
    ensures
        layouts_fine(
            layout_passes::size_layouts(
                layouts,
                functions,
                plan,
                slot_liveness,
                aggressive,
                target,
                packing_barrier,
            ),
            functions,
            plan,
            slot_liveness,
        ),
{
    let after = layout_passes::size_layouts(
        layouts,
        functions,
        plan,
        slot_liveness,
        aggressive,
        target,
        packing_barrier,
    );
    if packing_barrier || target_layout::model_of(target) is None {
        same_places_fine(layouts, after, functions, plan, slot_liveness);
    } else {
        let model = target_layout::model_of(target)->0;
        let generated = size_layout::exact_types(layouts, layouts.len() as int);
        sized_found(
            layouts,
            functions,
            plan,
            slot_liveness,
            aggressive,
            model,
            functions.len() as int,
        );
        assert forall|i: int| 0 <= i < functions.len() implies match (
            order::lookup(after, #[trigger] start_of(functions, i)),
            lone_layout(functions, plan, slot_liveness, i),
        ) {
            (Some(layout), Some(lone)) => layout_fine(
                layout,
                lone.fields,
                identity_layout::planned_at(plan, start_of(functions, i)),
                functions[i],
                identity_layout::lifetimes_of(slot_liveness.functions@, i, 0)->0,
            ),
            (None, None) => true,
            _ => false,
        } by {
            if let (Some(speed), Some(lone)) = (
                order::lookup(layouts, start_of(functions, i)),
                lone_layout(functions, plan, slot_liveness, i),
            ) {
                sized_layout_fine(
                    speed,
                    speed,
                    lone.fields,
                    identity_layout::planned_at(plan, start_of(functions, i)),
                    functions[i],
                    identity_layout::lifetimes_of(slot_liveness.functions@, i, 0)->0,
                    aggressive,
                    model,
                    generated,
                );
            }
        }
    }
}

/// At every level of optimization and for every target, the context that is
/// built for a function places all its fields, each is found where it is, and
/// no two fields that hold values at the same time share storage.
pub proof fn built_layouts_are_sound(
    functions: Seq<LivenessFunction>,
    plan: Option<&CStaticAwaitPlan>,
    slot_liveness: SlotLivenessUnit,
    optimization: OptimizationLevel,
    target: TargetConfig,
    packing_barrier: bool,
)
    requires
        identity_layout::contexts_distinct(functions, plan, slot_liveness),
        starts_distinct(functions, slot_liveness),
        contexts_fit(functions, plan, slot_liveness),
    ensures
        layouts_fine(
            layout_passes::context_layouts(
                functions,
                plan,
                slot_liveness,
                optimization,
                target,
                packing_barrier,
            ),
            functions,
            plan,
            slot_liveness,
        ),
{
    let n = functions.len() as int;
    let identity = identity_layout::identity_layouts(functions, plan, slot_liveness, n);
    speed_layouts_fine(functions, plan, slot_liveness);
    let speed = if optimization == OptimizationLevel::Off {
        identity
    } else {
        layout_passes::speed_layouts(identity, functions, plan, slot_liveness, n)
    };
    known_layouts_fine(speed, functions, plan, slot_liveness, target, packing_barrier);
    let known = layout_knowledge::known_layouts(speed, target, packing_barrier);
    let aggressive = optimization == OptimizationLevel::Aggressive;
    size_layouts_fine(
        known,
        functions,
        plan,
        slot_liveness,
        aggressive,
        target,
        packing_barrier,
    );
    known_layouts_fine(
        layout_passes::size_layouts(
            known,
            functions,
            plan,
            slot_liveness,
            aggressive,
            target,
            packing_barrier,
        ),
        functions,
        plan,
        slot_liveness,
        target,
        packing_barrier,
    );
}

pub proof fn function_at_is(
    functions: Seq<LivenessFunction>,
    slot_liveness: SlotLivenessUnit,
    i: int,
    k: int,
)
    requires
        starts_distinct(functions, slot_liveness),
        0 <= k <= i < functions.len(),
        identity_layout::has_context(functions, slot_liveness, i),
    ensures
        layout_check::function_at(functions, start_of(functions, i), k) == Some(i),
    decreases i - k,
{
    if k < i {
        start_is_alone(functions, slot_liveness, k, i);
        function_at_is(functions, slot_liveness, i, k + 1);
    }
}

proof fn fine_layouts_pass(
    found: Seq<DiagnosticView>,
    unit: LivenessUnit,
    plan: Option<&CStaticAwaitPlan>,
    slot_liveness: SlotLivenessUnit,
    layouts: Seq<(usize, LayoutView)>,
    n: int,
)
    requires
        identity_layout::contexts_distinct(unit.functions@, plan, slot_liveness),
        starts_distinct(unit.functions@, slot_liveness),
        contexts_fit(unit.functions@, plan, slot_liveness),
        layouts_fine(layouts, unit.functions@, plan, slot_liveness),
        n <= identity_layout::identity_layouts(
            unit.functions@,
            plan,
            slot_liveness,
            unit.functions@.len() as int,
        ).len(),
    ensures
        layout_check::check_layouts(
            found,
            identity_layout::identity_layouts(
                unit.functions@,
                plan,
                slot_liveness,
                unit.functions@.len() as int,
            ),
            unit,
            plan,
            slot_liveness,
            layouts,
            n,
        ) == found,
    decreases n,
{
    if n > 0 {
        let functions = unit.functions@;
        let count = functions.len() as int;
        let expected = identity_layout::identity_layouts(functions, plan, slot_liveness, count);
        fine_layouts_pass(found, unit, plan, slot_liveness, layouts, n - 1);
        identity_found(functions, plan, slot_liveness, count);
        let i = choose|i: int|
            0 <= i < count && #[trigger] start_of(functions, i) == expected[n - 1].0;
        order::lookup_finds(expected, start_of(functions, i));
        let lone = expected[n - 1].1;
        assert(order::lookup(expected, start_of(functions, i)) == Some(lone));
        assert(lone_layout(functions, plan, slot_liveness, i) == Some(lone));
        lone_layout_fine(functions, plan, slot_liveness, i);
        function_at_is(functions, slot_liveness, i, 0);
        let actual = order::lookup(layouts, start_of(functions, i))->0;
        layout_soundness::sound_layouts_pass(
            found,
            lone.fields,
            actual,
            identity_layout::planned_at(plan, start_of(functions, i)),
            functions[i],
            identity_layout::lifetimes_of(slot_liveness.functions@, i, 0)->0,
        );
    }
}

/// Whether values share storage in the contexts that are built for a unit.
pub open spec fn storage_shared(
    functions: Seq<LivenessFunction>,
    slot_liveness: SlotLivenessUnit,
    optimization: OptimizationLevel,
) -> bool {
    optimization != OptimizationLevel::Off && identity_layout::identity_problems(
        functions,
        slot_liveness,
        functions.len() as int,
    ).len() == 0
}

/// Each layout in which every field stands alone is that of a function with a
/// context.
pub proof fn identity_listed(
    functions: Seq<LivenessFunction>,
    plan: Option<&CStaticAwaitPlan>,
    slot_liveness: SlotLivenessUnit,
    n: int,
    k: int,
) -> (i: int)
    requires
        0 <= n <= functions.len(),
        0 <= k < identity_layout::identity_layouts(functions, plan, slot_liveness, n).len(),
    ensures
        0 <= i < n,
        identity_layout::has_context(functions, slot_liveness, i),
        identity_layout::identity_layouts(functions, plan, slot_liveness, n)[k] == (
            start_of(functions, i),
            identity_layout::identity_layout(
                functions[i],
                identity_layout::planned_at(plan, start_of(functions, i)),
            ),
        ),
    decreases n,
{
    let before = identity_layout::identity_layouts(functions, plan, slot_liveness, n - 1);
    let start = start_of(functions, n - 1);
    if identity_layout::has_context(functions, slot_liveness, n - 1) {
        order::key_point_bounds(before, start, 0);
        let p = order::key_point(before, start, 0);
        if k == p {
            n - 1
        } else if k < p || order::lookup(before, start) is Some {
            identity_listed(functions, plan, slot_liveness, n - 1, k)
        } else {
            identity_listed(functions, plan, slot_liveness, n - 1, k - 1)
        }
    } else {
        identity_listed(functions, plan, slot_liveness, n - 1, k)
    }
}

proof fn identity_ascends(
    functions: Seq<LivenessFunction>,
    plan: Option<&CStaticAwaitPlan>,
    slot_liveness: SlotLivenessUnit,
    n: int,
)
    ensures
        order::ascending(identity_layout::identity_layouts(functions, plan, slot_liveness, n)),
    decreases n,
{
    if n > 0 {
        identity_ascends(functions, plan, slot_liveness, n - 1);
        let start = start_of(functions, n - 1);
        order::put_ascending(
            identity_layout::identity_layouts(functions, plan, slot_liveness, n - 1),
            start,
            identity_layout::identity_layout(
                functions[n - 1],
                identity_layout::planned_at(plan, start),
            ),
            start,
        );
    }
}

/// A layout of a list in which every field stands alone is sound.
pub proof fn listed_layout_sound(
    functions: Seq<LivenessFunction>,
    plan: Option<&CStaticAwaitPlan>,
    slot_liveness: SlotLivenessUnit,
    k: int,
)
    requires
        identity_layout::contexts_distinct(functions, plan, slot_liveness),
        contexts_fit(functions, plan, slot_liveness),
        0 <= k < identity_layout::identity_layouts(
            functions,
            plan,
            slot_liveness,
            functions.len() as int,
        ).len(),
    ensures
        ({
            let lone = identity_layout::identity_layouts(
                functions,
                plan,
                slot_liveness,
                functions.len() as int,
            )[k];
            &&& layout_soundness::well_placed(layout_soundness::building_in(lone.1))
            &&& layout_soundness::all_held(layout_soundness::building_in(lone.1))
            &&& layout_soundness::all_alone(lone.1.slots)
            &&& lone.1.fields.len() < u32::MAX
            &&& lone.1.source_start == lone.0
        }),
{
    let i = identity_listed(functions, plan, slot_liveness, functions.len() as int, k);
    lone_layout_fine(functions, plan, slot_liveness, i);
}

proof fn lone_layouts_pass(
    found: Seq<DiagnosticView>,
    unit: LivenessUnit,
    plan: Option<&CStaticAwaitPlan>,
    slot_liveness: SlotLivenessUnit,
    layouts: Seq<(usize, LayoutView)>,
    n: int,
)
    requires
        identity_layout::contexts_distinct(unit.functions@, plan, slot_liveness),
        contexts_fit(unit.functions@, plan, slot_liveness),
        layout_knowledge::same_placements(
            identity_layout::identity_layouts(
                unit.functions@,
                plan,
                slot_liveness,
                unit.functions@.len() as int,
            ),
            layouts,
        ),
        n <= layouts.len(),
    ensures
        layout_check::check_layouts(
            found,
            identity_layout::identity_layouts(
                unit.functions@,
                plan,
                slot_liveness,
                unit.functions@.len() as int,
            ),
            unit,
            plan,
            slot_liveness,
            layouts,
            n,
        ) == found,
    decreases n,
{
    if n > 0 {
        let functions = unit.functions@;
        let count = functions.len() as int;
        let expected = identity_layout::identity_layouts(functions, plan, slot_liveness, count);
        lone_layouts_pass(found, unit, plan, slot_liveness, layouts, n - 1);
        listed_layout_sound(functions, plan, slot_liveness, n - 1);
        identity_ascends(functions, plan, slot_liveness, count);
        let (start, lone) = expected[n - 1];
        known_found(expected, layouts, start);
        order::lookup_finds(layouts, start);
        let actual = layouts[n - 1].1;
        assert(layouts[n - 1].0 == start);
        assert(order::lookup(layouts, start) == Some(actual));
        let i = layout_check::function_at(functions, actual.source_start, 0)->0;
        assert(layout_soundness::building_in(actual) == layout_soundness::building_in(lone));
        layout_soundness::lone_layouts_pass(
            found,
            lone.fields,
            actual,
            identity_layout::planned_at(plan, actual.source_start),
            functions[i],
            identity_layout::lifetimes_of(slot_liveness.functions@, i, 0),
        );
    }
}

/// The check of context layouts finds nothing in the layouts that are built:
/// at every level of optimization and for every target, it reports what
/// building them reported and no more. Where values share storage, a function
/// with a context must start where no other one does.
pub proof fn built_layouts_pass_the_check(
    unit: LivenessUnit,
    plan: Option<&CStaticAwaitPlan>,
    slot_liveness: SlotLivenessUnit,
    optimization: OptimizationLevel,
    target: TargetConfig,
    packing_barrier: bool,
)
    requires
        identity_layout::contexts_distinct(unit.functions@, plan, slot_liveness),
        storage_shared(unit.functions@, slot_liveness, optimization) ==> starts_distinct(
            unit.functions@,
            slot_liveness,
        ),
        contexts_fit(unit.functions@, plan, slot_liveness),
    ensures
        layout_check::layout_problems(
            unit,
            plan,
            slot_liveness,
            layout_passes::context_layouts(
                unit.functions@,
                plan,
                slot_liveness,
                optimization,
                target,
                packing_barrier,
            ),
        ) == identity_layout::identity_problems(
            unit.functions@,
            slot_liveness,
            unit.functions@.len() as int,
        ),
{
    let functions = unit.functions@;
    let layouts = layout_passes::context_layouts(
        functions,
        plan,
        slot_liveness,
        optimization,
        target,
        packing_barrier,
    );
    let count = functions.len() as int;
    let expected = identity_layout::identity_layouts(functions, plan, slot_liveness, count);
    let found = identity_layout::identity_problems(functions, slot_liveness, count);
    if storage_shared(functions, slot_liveness, optimization) {
        built_layouts_are_sound(
            functions,
            plan,
            slot_liveness,
            optimization,
            target,
            packing_barrier,
        );
        fine_layouts_pass(
            found,
            unit,
            plan,
            slot_liveness,
            layouts,
            expected.len() as int,
        );
    } else {
        layout_knowledge::knowledge_keeps_layouts(expected, target, packing_barrier);
        lone_layouts_pass(
            found,
            unit,
            plan,
            slot_liveness,
            layouts,
            expected.len() as int,
        );
    }
}

} // verus!
