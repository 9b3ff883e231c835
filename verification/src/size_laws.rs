//! Sharing storage never makes a context larger.

use vstd::prelude::*;

use crate::c_static_plan::FunctionPlanView;
use crate::context_layout::LayoutView;
use crate::layout_knowledge;
use crate::liveness::LivenessFunction;
use crate::placement;
use crate::placement_laws;
use crate::size_layout;
use crate::slot_liveness::SlotLivenessFunction;
use crate::slot_merging;
use crate::slot_sharing;
use crate::target_layout::{Known, TargetLayoutModel, TypeLayout};

verus! {

/// The size of a context, where it is known.
pub open spec fn known_size(layout: LayoutView) -> Option<u64> {
    match layout.layout_knowledge {
        Known::Exact(known) => Some(known.size),
        Known::Unknown(reason) => None,
    }
}

/// Whether a context is known to be no larger than another one of known size.
pub open spec fn no_larger(layout: LayoutView, other: LayoutView) -> bool {
    match (known_size(layout), known_size(other)) {
        (Some(size), Some(bound)) => size <= bound,
        _ => false,
    }
}

/// The aggressive pass never makes a context of known size larger, or its size
/// unknown, while the contexts it holds keep their sizes.
pub proof fn aggressive_pass_never_grows(
    size: LayoutView,
    speed: LayoutView,
    plan: Option<FunctionPlanView>,
    function: LivenessFunction,
    lifetimes: SlotLivenessFunction,
    size_colors: Seq<usize>,
    model: TargetLayoutModel,
    generated: Seq<(Seq<char>, TypeLayout)>,
)
    requires
        speed.slots.len() < u32::MAX,
        layout_knowledge::slots_filled(speed.slots),
        known_size(size) is Some,
    ensures
        ({
            let nodes = slot_sharing::nodes_of(
                speed.slots,
                plan,
                function,
                model,
                generated,
                speed.slots.len() as int,
            );
            no_larger(
                size_layout::aggressive_layout(
                    size,
                    speed,
                    function,
                    nodes,
                    slot_sharing::graph_of(speed.slots, nodes, function, lifetimes),
                    size_colors,
                    model,
                    generated,
                ),
                size,
            )
        }),
{
    let n = speed.slots.len() as int;
    let nodes = slot_sharing::nodes_of(speed.slots, plan, function, model, generated, n);
    slot_sharing::nodes_of_ok(speed.slots, plan, function, model, generated, n);
    let graph = slot_sharing::graph_of(speed.slots, nodes, function, lifetimes);
    slot_sharing::graph_of_ok(speed.slots, nodes, function, lifetimes);
    let known = size.layout_knowledge->Exact_0;
    if let Known::Exact(bounds) = slot_merging::fixed_cost(
        speed.slots,
        nodes,
        model,
        generated,
        n,
    ) {
        let search = size_layout::aggressive_search(
            size,
            speed,
            nodes,
            graph,
            bounds,
            size_colors,
            model,
            generated,
            known.size,
        );
        let incumbent = slot_merging::cost_of_slots(size.slots, known.size);
        let costs = slot_merging::merged_costs(speed.slots, nodes, model, generated);
        slot_merging::merged_costs_depend_on_grouping(speed.slots, nodes, model, generated);
        placement_laws::found_placement_is_sound(
            graph,
            bounds,
            size_layout::AGGRESSIVE_NODE_BUDGET,
            costs,
            size_layout::incumbent_colors(size, nodes.len(), size_colors),
            incumbent,
        );
        if !search.exhausted && size_layout::improved(search, incumbent) {
            let marked = size_layout::with_exclusions(speed, function);
            slot_merging::merged_slots_filled(
                marked.fields,
                speed.slots,
                nodes,
                search.best_colors,
                n,
            );
            assert(placement_laws::best_ok(graph, costs, search));
            assert(costs(search.best_colors) == Some(search.best_cost));
        }
    }
}

/// Neither the size pass nor the aggressive one makes a context of known size
/// larger, or its size unknown, while the contexts it holds keep their sizes:
/// the size pass stays within the size before it, and the aggressive one
/// within that of the size pass.
pub proof fn size_passes_never_grow(
    speed: LayoutView,
    plan: Option<FunctionPlanView>,
    function: LivenessFunction,
    lifetimes: Option<SlotLivenessFunction>,
    model: TargetLayoutModel,
    generated: Seq<(Seq<char>, TypeLayout)>,
)
    requires
        speed.slots.len() < u32::MAX,
        layout_knowledge::slots_filled(speed.slots),
        known_size(speed) is Some,
    ensures
        ({
            let size = size_layout::sized_layout(
                speed,
                speed,
                function,
                plan,
                lifetimes,
                false,
                model,
                generated,
            );
            let aggressive = size_layout::sized_layout(
                speed,
                speed,
                function,
                plan,
                lifetimes,
                true,
                model,
                generated,
            );
            &&& no_larger(size, speed)
            &&& no_larger(aggressive, size)
        }),
{
    if let Some(own) = lifetimes {
        let n = speed.slots.len() as int;
        let nodes = slot_sharing::nodes_of(speed.slots, plan, function, model, generated, n);
        let graph = slot_sharing::graph_of(speed.slots, nodes, function, own);
        let size = size_layout::sized_layout(
            speed,
            speed,
            function,
            plan,
            lifetimes,
            false,
            model,
            generated,
        );
        if nodes.len() >= 2 {
            let colors = placement::greedy_colors(graph, graph.weights.len() as int);
            aggressive_pass_never_grows(
                size,
                speed,
                plan,
                function,
                own,
                colors,
                model,
                generated,
            );
        }
    }
}

} // verus!
