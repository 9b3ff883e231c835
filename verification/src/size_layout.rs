//! Reuse of context storage among values of different types.

use vstd::prelude::*;

use crate::c_static_plan::{CFunctionPlan, FunctionPlanView};
use crate::context_layout::{
    AggressiveDecisionView, AggressiveLayoutDecision, FunctionContextLayout, LayoutDecision,
    LayoutDecisionReason, LayoutView, LogicalFieldId, SizeDecisionView, SizeLayoutDecision,
};
use crate::identity_layout;
use crate::layout_knowledge;
use crate::layout_knowledge::{physical_context_layout, put_generated};
use crate::liveness::{LiftedField, LivenessFunction};
use crate::order;
use crate::placement;
use crate::placement::{
    color_size_nodes, is_cheaper, search_aggressive_placement, GraphView, PlacementBounds,
    PlacementCost, PlacementGraph, SearchView,
};
use crate::slot_liveness::SlotLivenessFunction;
use crate::slot_merging;
use crate::slot_merging::{
    mark_reuse, placement_bounds, placement_cost, rebuild_by_color, SlotEvaluator,
};
use crate::slot_sharing;
use crate::slot_sharing::{build_placement_graph, collect_size_nodes, NodeView, SizeNode};
use crate::speed_layout;
use crate::speed_layout::set_reason;
use crate::syntax;
use crate::target_layout;
use crate::target_layout::{
    Known, LayoutKnowledge, LayoutUnknownReason, ReasonView, TargetLayoutModel, TypeLayout,
};

verus! {

/// How many partial placements the search for the smallest context visits.
pub const AGGRESSIVE_NODE_BUDGET: u64 = 100_000;

/// Why the storage of a lifted field can't be shared, if it can't.
pub open spec fn exclusion_of(field: LiftedField) -> Option<LayoutDecisionReason> {
    if field.is_parameter {
        Some(LayoutDecisionReason::ExcludedParameter)
    } else if field.is_task {
        Some(LayoutDecisionReason::ExcludedTaskBinding)
    } else if field.cleanup_retained {
        Some(LayoutDecisionReason::ExcludedCleanupRetained)
    } else if field.address_taken {
        Some(LayoutDecisionReason::ExcludedAddressTaken)
    } else if field.volatile_or_atomic {
        Some(LayoutDecisionReason::ExcludedVolatileOrAtomic)
    } else {
        None
    }
}

/// Decisions that say why the first `n` lifted fields can't share storage.
pub open spec fn exclusion_decisions(
    decisions: Seq<LayoutDecision>,
    fields: Seq<LiftedField>,
    n: int,
) -> Seq<LayoutDecision>
    decreases n,
{
    if n <= 0 {
        decisions
    } else {
        let before = exclusion_decisions(decisions, fields, n - 1);
        match exclusion_of(fields[n - 1]) {
            Some(reason) => speed_layout::with_reason(
                before,
                LogicalFieldId::Lifted(fields[n - 1].declaration),
                reason,
                0,
            ),
            None => before,
        }
    }
}

/// A layout that says why lifted fields can't share storage.
pub open spec fn with_exclusions(layout: LayoutView, function: LivenessFunction) -> LayoutView {
    LayoutView {
        decisions: exclusion_decisions(
            layout.decisions,
            function.lifted_fields@,
            function.lifted_fields@.len() as int,
        ),
        ..layout
    }
}

/// Records why lifted fields can't share storage.
pub fn mark_lifted_exclusions(layout: &mut FunctionContextLayout, function: &LivenessFunction)
    ensures
        final(layout)@ == with_exclusions(old(layout)@, *function),
{
    let ghost before = layout@;
    let mut n: usize = 0;
    while n < function.lifted_fields.len()
        invariant
            n <= function.lifted_fields@.len(),
            layout@ == (LayoutView {
                decisions: exclusion_decisions(
                    before.decisions,
                    function.lifted_fields@,
                    n as int,
                ),
                ..before
            }),
        decreases function.lifted_fields@.len() - n,
    {
        let field = &function.lifted_fields[n];
        let reason = if field.is_parameter {
            Some(LayoutDecisionReason::ExcludedParameter)
        } else if field.is_task {
            Some(LayoutDecisionReason::ExcludedTaskBinding)
        } else if field.cleanup_retained {
            Some(LayoutDecisionReason::ExcludedCleanupRetained)
        } else if field.address_taken {
            Some(LayoutDecisionReason::ExcludedAddressTaken)
        } else if field.volatile_or_atomic {
            Some(LayoutDecisionReason::ExcludedVolatileOrAtomic)
        } else {
            None
        };
        if let Some(reason) = reason {
            set_reason(&mut layout.decisions, LogicalFieldId::Lifted(field.declaration), reason);
        }
        n += 1;
    }
}

/// The generated types whose layouts are known among the first `n` contexts.
pub open spec fn exact_types(functions: Seq<(usize, LayoutView)>, n: int) -> Seq<
    (Seq<char>, TypeLayout),
>
    decreases n,
{
    if n <= 0 {
        Seq::empty()
    } else {
        let before = exact_types(functions, n - 1);
        let layout = functions[n - 1].1;
        match layout.layout_knowledge {
            Known::Exact(known) => layout_knowledge::with_generated(
                before,
                layout.task_type,
                TypeLayout { size: known.size, align: known.align },
                0,
            ),
            Known::Unknown(reason) => before,
        }
    }
}

/// Collects the generated types whose layouts are known.
pub fn exact_generated_types(functions: &Vec<(usize, FunctionContextLayout)>) -> (r: Vec<
    (String, TypeLayout),
>)
    ensures
        target_layout::generated_view(r@) == exact_types(
            order::entry_views(functions@),
            functions@.len() as int,
        ),
{
    let ghost views = order::entry_views(functions@);
    let mut generated: Vec<(String, TypeLayout)> = Vec::new();
    assert(target_layout::generated_view(generated@) =~= Seq::empty());
    let mut n: usize = 0;
    while n < functions.len()
        invariant
            n <= functions@.len(),
            views == order::entry_views(functions@),
            target_layout::generated_view(generated@) == exact_types(views, n as int),
        decreases functions@.len() - n,
    {
        let layout = &functions[n].1;
        assert(views[n as int].1 == layout@);
        if let LayoutKnowledge::Exact(known) = &layout.layout_knowledge {
            let value = TypeLayout { size: known.size, align: known.align };
            put_generated(&mut generated, &layout.task_type, value);
        }
        n += 1;
    }
    generated
}

/// A layout with another outcome of the size pass.
pub open spec fn with_size_decision(layout: LayoutView, decision: SizeDecisionView) -> LayoutView {
    LayoutView { size_decision: decision, ..layout }
}

/// A layout with another outcome of the aggressive pass, if there is one.
pub open spec fn with_aggressive_decision(
    layout: LayoutView,
    aggressive: bool,
    decision: AggressiveDecisionView,
) -> LayoutView {
    if aggressive {
        LayoutView { aggressive_decision: decision, ..layout }
    } else {
        layout
    }
}

/// A layout whose passes stop because a size isn't known.
pub open spec fn with_unknown(
    layout: LayoutView,
    aggressive: bool,
    reason: ReasonView,
) -> LayoutView {
    with_aggressive_decision(
        with_size_decision(layout, SizeDecisionView::RetainedUnknown(reason)),
        aggressive,
        AggressiveDecisionView::RetainedUnknown(reason),
    )
}

/// The layout that merges slots as given, and why fields don't share storage.
pub open spec fn merged_candidate(
    speed: LayoutView,
    function: LivenessFunction,
    nodes: Seq<NodeView>,
    colors: Seq<usize>,
) -> LayoutView {
    slot_merging::merged_layout(with_exclusions(speed, function), speed.slots, nodes, colors)
}

/// The colors that stand for no merging.
pub open spec fn separate_colors(n: nat) -> Seq<usize> {
    Seq::new(n, |i: int| i as usize)
}

/// The placement that the search for the smallest context starts from.
pub open spec fn incumbent_colors(
    size: LayoutView,
    nodes: nat,
    size_colors: Seq<usize>,
) -> Seq<usize> {
    if size.size_decision is Accepted {
        size_colors
    } else {
        separate_colors(nodes)
    }
}

/// Whether a search found something cheaper than where it started.
pub open spec fn improved(search: SearchView, incumbent: PlacementCost) -> bool {
    placement::cheaper(placement::bound_of(search.best_cost), placement::bound_of(incumbent))
}

/// The outcome of the search for the smallest context.
pub open spec fn aggressive_outcome(
    size: LayoutView,
    speed: LayoutView,
    function: LivenessFunction,
    nodes: Seq<NodeView>,
    model: TargetLayoutModel,
    generated: Seq<(Seq<char>, TypeLayout)>,
    size_size: u64,
    search: SearchView,
) -> LayoutView {
    let incumbent = slot_merging::cost_of_slots(size.slots, size_size);
    if search.exhausted {
        with_aggressive_decision(
            size,
            true,
            AggressiveDecisionView::BudgetExhausted {
                size_size,
                explored_nodes: search.explored_nodes,
            },
        )
    } else if !improved(search, incumbent) {
        with_aggressive_decision(
            size,
            true,
            AggressiveDecisionView::RetainedSize {
                size_size,
                explored_nodes: search.explored_nodes,
            },
        )
    } else {
        let candidate = merged_candidate(speed, function, nodes, search.best_colors);
        match layout_knowledge::context_layout_of(model, candidate.slots, generated) {
            Known::Exact(known) => LayoutView {
                layout_knowledge: Known::Exact(known),
                size_decision: size.size_decision,
                aggressive_decision: AggressiveDecisionView::Accepted {
                    size_size,
                    aggressive_size: known.size,
                    explored_nodes: search.explored_nodes,
                },
                ..candidate
            },
            Known::Unknown(reason) => size,
        }
    }
}

/// Where the search for the smallest context ends.
pub open spec fn aggressive_search(
    size: LayoutView,
    speed: LayoutView,
    nodes: Seq<NodeView>,
    graph: GraphView,
    bounds: PlacementBounds,
    size_colors: Seq<usize>,
    model: TargetLayoutModel,
    generated: Seq<(Seq<char>, TypeLayout)>,
    size_size: u64,
) -> SearchView {
    placement::search_from(
        graph,
        bounds,
        AGGRESSIVE_NODE_BUDGET,
        slot_merging::merged_costs(speed.slots, nodes, model, generated),
        placement::start_of(
            incumbent_colors(size, nodes.len(), size_colors),
            slot_merging::cost_of_slots(size.slots, size_size),
        ),
        placement::no_colors(graph.weights.len()),
    )
}

/// The layout after the search for the smallest context.
pub open spec fn aggressive_layout(
    size: LayoutView,
    speed: LayoutView,
    function: LivenessFunction,
    nodes: Seq<NodeView>,
    graph: GraphView,
    size_colors: Seq<usize>,
    model: TargetLayoutModel,
    generated: Seq<(Seq<char>, TypeLayout)>,
) -> LayoutView {
    match size.layout_knowledge {
        Known::Unknown(reason) => with_aggressive_decision(
            size,
            true,
            AggressiveDecisionView::RetainedUnknown(ReasonView::DependencyUnknown(size.task_type)),
        ),
        Known::Exact(known) => match slot_merging::fixed_cost(
            speed.slots,
            nodes,
            model,
            generated,
            speed.slots.len() as int,
        ) {
            Known::Unknown(reason) => with_aggressive_decision(
                size,
                true,
                AggressiveDecisionView::RetainedUnknown(reason),
            ),
            Known::Exact(bounds) => aggressive_outcome(
                size,
                speed,
                function,
                nodes,
                model,
                generated,
                known.size,
                aggressive_search(
                    size,
                    speed,
                    nodes,
                    graph,
                    bounds,
                    size_colors,
                    model,
                    generated,
                    known.size,
                ),
            ),
        },
    }
}

/// The layout after the size pass over several nodes.
pub open spec fn size_outcome(
    current: LayoutView,
    speed: LayoutView,
    function: LivenessFunction,
    nodes: Seq<NodeView>,
    graph: GraphView,
    aggressive: bool,
    model: TargetLayoutModel,
    generated: Seq<(Seq<char>, TypeLayout)>,
    speed_size: u64,
) -> LayoutView {
    let colors = placement::greedy_colors(graph, graph.weights.len() as int);
    let candidate = merged_candidate(speed, function, nodes, colors);
    match layout_knowledge::context_layout_of(model, candidate.slots, generated) {
        Known::Unknown(reason) => with_unknown(current, aggressive, reason),
        Known::Exact(known) => {
            let sized = if known.size <= speed_size {
                with_size_decision(
                    LayoutView { layout_knowledge: Known::Exact(known), ..candidate },
                    SizeDecisionView::Accepted { speed_size, size_size: known.size },
                )
            } else {
                with_size_decision(
                    current,
                    SizeDecisionView::RetainedLarger { speed_size, candidate_size: known.size },
                )
            };
            if aggressive {
                aggressive_layout(
                    sized,
                    speed,
                    function,
                    nodes,
                    graph,
                    colors,
                    model,
                    generated,
                )
            } else {
                sized
            }
        },
    }
}

/// The layout of one function after the size pass, and after the aggressive
/// one if there is one.
pub open spec fn sized_layout(
    layout: LayoutView,
    speed: LayoutView,
    function: LivenessFunction,
    plan: Option<FunctionPlanView>,
    lifetimes: Option<SlotLivenessFunction>,
    aggressive: bool,
    model: TargetLayoutModel,
    generated: Seq<(Seq<char>, TypeLayout)>,
) -> LayoutView {
    let current = with_exclusions(layout, function);
    match (speed.layout_knowledge, lifetimes) {
        (Known::Unknown(reason), _) => with_unknown(
            current,
            aggressive,
            ReasonView::DependencyUnknown(speed.task_type),
        ),
        (Known::Exact(known), None) => current,
        (Known::Exact(known), Some(own)) => {
            let nodes = slot_sharing::nodes_of(
                speed.slots,
                plan,
                function,
                model,
                generated,
                speed.slots.len() as int,
            );
            if nodes.len() < 2 {
                with_aggressive_decision(
                    with_size_decision(
                        with_exclusions(speed, function),
                        SizeDecisionView::NoCandidate,
                    ),
                    aggressive,
                    AggressiveDecisionView::RetainedSize {
                        size_size: known.size,
                        explored_nodes: 0,
                    },
                )
            } else {
                size_outcome(
                    current,
                    speed,
                    function,
                    nodes,
                    slot_sharing::graph_of(speed.slots, nodes, function, own),
                    aggressive,
                    model,
                    generated,
                    known.size,
                )
            }
        },
    }
}

/// Notes that the size passes stop because a size isn't known.
pub fn forget_sizes(layout: &mut FunctionContextLayout, aggressive: bool, reason: &LayoutUnknownReason)
    ensures
        final(layout)@ == with_unknown(old(layout)@, aggressive, reason@),
{
    layout.size_decision = SizeLayoutDecision::RetainedUnknown(reason.clone());
    if aggressive {
        layout.aggressive_decision = AggressiveLayoutDecision::RetainedUnknown(reason.clone());
    }
}

/// Merges the slots of a layout by color, and says why fields don't share
/// storage.
pub fn rebuild_size_layout(
    speed: &FunctionContextLayout,
    function: &LivenessFunction,
    nodes: &Vec<SizeNode>,
    colors: &Vec<usize>,
) -> (r: FunctionContextLayout)
    requires
        colors@.len() == nodes@.len(),
        slot_sharing::nodes_ok(syntax::views(nodes@), speed.slots@.len() as int),
        layout_knowledge::slots_filled(speed@.slots),
    ensures
        r@ == merged_candidate(speed@, *function, syntax::views(nodes@), colors@),
        layout_knowledge::slots_filled(r@.slots),
{
    let mut candidate = speed.clone();
    mark_lifted_exclusions(&mut candidate, function);
    let ghost marked = candidate@;
    proof {
        slot_merging::merged_slots_filled(
            marked.fields,
            speed@.slots,
            syntax::views(nodes@),
            colors@,
            speed@.slots.len() as int,
        );
    }
    let slots = rebuild_by_color(&speed.slots, nodes, colors, &mut candidate.fields);
    mark_reuse(&mut candidate.decisions, &slots);
    candidate.slots = slots;
    candidate
}

fn list_separate_colors(n: usize) -> (r: Vec<usize>)
    ensures
        r@ == separate_colors(n as nat),
{
    let mut colors: Vec<usize> = Vec::new();
    let mut i: usize = 0;
    while i < n
        invariant
            i <= n,
            colors@ =~= separate_colors(i as nat),
        decreases n - i,
    {
        colors.push(i);
        i += 1;
    }
    colors
}

/// Searches for the smallest context.
pub fn apply_aggressive_layout(
    size: FunctionContextLayout,
    speed: &FunctionContextLayout,
    function: &LivenessFunction,
    nodes: &Vec<SizeNode>,
    graph: &PlacementGraph,
    size_colors: Vec<usize>,
    model: &TargetLayoutModel,
    generated: &Vec<(String, TypeLayout)>,
) -> (r: FunctionContextLayout)
    requires
        model.pointer <= 16,
        slot_sharing::nodes_ok(syntax::views(nodes@), speed.slots@.len() as int),
        layout_knowledge::slots_filled(speed@.slots),
        placement::graph_ok(graph@),
        graph@.weights.len() == nodes@.len(),
        size_colors@.len() == nodes@.len(),
    ensures
        r@ == aggressive_layout(
            size@,
            speed@,
            *function,
            syntax::views(nodes@),
            graph@,
            size_colors@,
            *model,
            target_layout::generated_view(generated@),
        ),
{
    let mut size = size;
    let ghost before = size@;
    let size_size = match &size.layout_knowledge {
        LayoutKnowledge::Exact(known) => known.size,
        LayoutKnowledge::Unknown(reason) => {
            let reason = LayoutUnknownReason::DependencyUnknown(size.task_type.clone());
            size.aggressive_decision = AggressiveLayoutDecision::RetainedUnknown(reason);
            return size;
        },
    };
    let bounds = match placement_bounds(&speed.slots, nodes, model, generated) {
        LayoutKnowledge::Exact(bounds) => bounds,
        LayoutKnowledge::Unknown(reason) => {
            size.aggressive_decision = AggressiveLayoutDecision::RetainedUnknown(reason);
            return size;
        },
    };
    let accepted = match &size.size_decision {
        SizeLayoutDecision::Accepted { speed_size, size_size } => true,
        _ => false,
    };
    let initial_colors = if accepted {
        size_colors
    } else {
        list_separate_colors(nodes.len())
    };
    let incumbent_cost = placement_cost(&size.slots, size_size);
    let evaluator = SlotEvaluator { slots: &speed.slots, nodes, model, generated };
    let result = search_aggressive_placement(
        graph,
        &initial_colors,
        incumbent_cost,
        bounds,
        AGGRESSIVE_NODE_BUDGET,
        &evaluator,
    );
    if result.exhausted {
        size.aggressive_decision = AggressiveLayoutDecision::BudgetExhausted {
            size_size,
            explored_nodes: result.explored_nodes,
        };
        return size;
    }
    if !is_cheaper(result.cost, incumbent_cost) {
        size.aggressive_decision = AggressiveLayoutDecision::RetainedSize {
            size_size,
            explored_nodes: result.explored_nodes,
        };
        return size;
    }
    proof {
        placement::canonical_len(initial_colors@, initial_colors@.len() as int);
        placement::search_keeps_len(
            graph@,
            bounds,
            AGGRESSIVE_NODE_BUDGET,
            slot_merging::merged_costs(
                speed@.slots,
                syntax::views(nodes@),
                *model,
                target_layout::generated_view(generated@),
            ),
            placement::start_of(initial_colors@, incumbent_cost),
            placement::no_colors(graph@.weights.len()),
        );
    }
    let mut candidate = rebuild_size_layout(speed, function, nodes, &result.colors);
    match physical_context_layout(&candidate.slots, model, generated) {
        LayoutKnowledge::Exact(known) => {
            let aggressive_size = known.size;
            candidate.layout_knowledge = LayoutKnowledge::Exact(known);
            candidate.size_decision = size.size_decision;
            candidate.aggressive_decision = AggressiveLayoutDecision::Accepted {
                size_size,
                aggressive_size,
                explored_nodes: result.explored_nodes,
            };
            candidate
        },
        LayoutKnowledge::Unknown(reason) => size,
    }
}

fn apply_size_outcome(
    current: FunctionContextLayout,
    speed: &FunctionContextLayout,
    function: &LivenessFunction,
    nodes: &Vec<SizeNode>,
    graph: &PlacementGraph,
    aggressive: bool,
    model: &TargetLayoutModel,
    generated: &Vec<(String, TypeLayout)>,
    speed_size: u64,
) -> (r: FunctionContextLayout)
    requires
        model.pointer <= 16,
        slot_sharing::nodes_ok(syntax::views(nodes@), speed.slots@.len() as int),
        layout_knowledge::slots_filled(speed@.slots),
        placement::graph_ok(graph@),
        graph@.weights.len() == nodes@.len(),
    ensures
        r@ == size_outcome(
            current@,
            speed@,
            *function,
            syntax::views(nodes@),
            graph@,
            aggressive,
            *model,
            target_layout::generated_view(generated@),
            speed_size,
        ),
{
    let mut current = current;
    let colors = color_size_nodes(graph);
    let mut candidate = rebuild_size_layout(speed, function, nodes, &colors);
    let sized = match physical_context_layout(&candidate.slots, model, generated) {
        LayoutKnowledge::Unknown(reason) => {
            forget_sizes(&mut current, aggressive, &reason);
            return current;
        },
        LayoutKnowledge::Exact(known) => {
            let size_size = known.size;
            if size_size <= speed_size {
                candidate.layout_knowledge = LayoutKnowledge::Exact(known);
                candidate.size_decision = SizeLayoutDecision::Accepted { speed_size, size_size };
                candidate
            } else {
                current.size_decision = SizeLayoutDecision::RetainedLarger {
                    speed_size,
                    candidate_size: size_size,
                };
                current
            }
        },
    };
    if aggressive {
        apply_aggressive_layout(sized, speed, function, nodes, graph, colors, model, generated)
    } else {
        sized
    }
}

/// Runs the size pass over one function, and the aggressive one if it is asked
/// for.
pub fn apply_size_layout(
    layout: FunctionContextLayout,
    speed: &FunctionContextLayout,
    function: &LivenessFunction,
    plan: Option<&CFunctionPlan>,
    lifetimes: Option<&SlotLivenessFunction>,
    aggressive: bool,
    model: &TargetLayoutModel,
    generated: &Vec<(String, TypeLayout)>,
) -> (r: FunctionContextLayout)
    requires
        model.pointer <= 16,
        layout_knowledge::slots_filled(speed@.slots),
    ensures
        r@ == sized_layout(
            layout@,
            speed@,
            *function,
            identity_layout::plan_view(plan),
            match lifetimes {
                Some(own) => Some(*own),
                None => None,
            },
            aggressive,
            *model,
            target_layout::generated_view(generated@),
        ),
{
    let mut current = layout;
    mark_lifted_exclusions(&mut current, function);
    let speed_size = match &speed.layout_knowledge {
        LayoutKnowledge::Exact(known) => known.size,
        LayoutKnowledge::Unknown(reason) => {
            let dependency = LayoutUnknownReason::DependencyUnknown(speed.task_type.clone());
            forget_sizes(&mut current, aggressive, &dependency);
            return current;
        },
    };
    let own = match lifetimes {
        Some(own) => own,
        None => {
            return current;
        },
    };
    let nodes = collect_size_nodes(&speed.slots, function, plan, model, generated);
    let total: usize = nodes.len();
    if total < 2 {
        let mut candidate = speed.clone();
        mark_lifted_exclusions(&mut candidate, function);
        candidate.size_decision = SizeLayoutDecision::NoCandidate;
        if aggressive {
            candidate.aggressive_decision = AggressiveLayoutDecision::RetainedSize {
                size_size: speed_size,
                explored_nodes: 0,
            };
        }
        return candidate;
    }
    let graph = build_placement_graph(&speed.slots, &nodes, function, own);
    proof {
        slot_sharing::graph_of_ok(speed@.slots, syntax::views(nodes@), *function, *own);
    }
    apply_size_outcome(
        current,
        speed,
        function,
        &nodes,
        &graph,
        aggressive,
        model,
        generated,
        speed_size,
    )
}

} // verus!
