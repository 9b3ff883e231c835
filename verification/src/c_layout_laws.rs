//! What settling the layouts of a unit may change in its plans.

use vstd::prelude::*;

use crate::await_plan::{ChildInstance, ChildInstanceId};
use crate::c_declaration_env::EnvironmentView;
use crate::c_layout_order;
use crate::c_layout_order::LayoutState;
use crate::c_static_plan;
use crate::c_static_plan::{
    CChildStorage, CLayoutReason, CStaticAwaitPlan, ChildPlanView, FunctionPlanView,
};
use crate::liveness::{LivenessFunction, LivenessUnit};
use crate::order;
use crate::symbol_index::{AsyncSymbolIndex, FunctionId};

verus! {

/// Whether a child is as it was before, or was embedded and is boxed now for a
/// reason that is kept with it.
pub open spec fn child_kept(before: ChildPlanView, after: ChildPlanView) -> bool {
    &&& after.instance == before.instance
    &&& after.target == before.target
    &&& after.requested_storage == before.requested_storage
    &&& after.origin == before.origin
    &&& after.result == before.result
    &&& after.span == before.span
    &&& {
        ||| after == before
        ||| {
            &&& before.effective_storage is Embedded
            &&& after.effective_storage is Boxed
            &&& {
                ||| after.downgrade_reason == Some(CLayoutReason::CompleteTypeNotVisible)
                ||| after.downgrade_reason == Some(CLayoutReason::PreprocessorRegion)
            }
        }
    }
}

/// Whether the children of a function are the same but for those boxed.
pub open spec fn children_kept(
    before: Seq<(ChildInstanceId, ChildPlanView)>,
    after: Seq<(ChildInstanceId, ChildPlanView)>,
) -> bool {
    after.len() == before.len() && forall|c: int|
        0 <= c < before.len() ==> (#[trigger] after[c]).0 == before[c].0 && child_kept(
            before[c].1,
            after[c].1,
        )
}

/// Whether two lists plan the same functions, the same but for boxed children.
pub open spec fn plans_kept(
    before: Seq<(FunctionId, FunctionPlanView)>,
    after: Seq<(FunctionId, FunctionPlanView)>,
) -> bool {
    after.len() == before.len() && forall|i: int|
        0 <= i < before.len() ==> {
            &&& (#[trigger] after[i]).0 == before[i].0
            &&& after[i].1.caller == before[i].1.caller
            &&& after[i].1.source_start == before[i].1.source_start
            &&& after[i].1.edge_children == before[i].1.edge_children
            &&& after[i].1.required_prototypes == before[i].1.required_prototypes
            &&& children_kept(before[i].1.children, after[i].1.children)
        }
}

proof fn plans_kept_twice(
    a: Seq<(FunctionId, FunctionPlanView)>,
    b: Seq<(FunctionId, FunctionPlanView)>,
    c: Seq<(FunctionId, FunctionPlanView)>,
)
    requires
        plans_kept(a, b),
        plans_kept(b, c),
    ensures
        plans_kept(a, c),
{
    assert forall|i: int| 0 <= i < a.len() implies {
        &&& (#[trigger] c[i]).0 == a[i].0
        &&& c[i].1.caller == a[i].1.caller
        &&& c[i].1.source_start == a[i].1.source_start
        &&& c[i].1.edge_children == a[i].1.edge_children
        &&& c[i].1.required_prototypes == a[i].1.required_prototypes
        &&& children_kept(a[i].1.children, c[i].1.children)
    } by {
        assert(b[i].0 == a[i].0);
        let (first, second, third) = (a[i].1.children, b[i].1.children, c[i].1.children);
        assert forall|k: int| 0 <= k < first.len() implies (#[trigger] third[k]).0 == first[k].0
            && child_kept(first[k].1, third[k].1) by {
            assert(second[k].0 == first[k].0);
        }
    }
}

proof fn settled_call_keeps(
    state: LayoutState,
    call: (FunctionId, ChildInstanceId, FunctionId),
    unit: Seq<LivenessFunction>,
    positions: Seq<(FunctionId, usize)>,
    env: EnvironmentView,
)
    ensures
        plans_kept(
            state.functions,
            c_layout_order::settle_call(state, call, unit, positions, env).functions,
        ),
{
    let (caller, instance, callee) = call;
    order::key_point_bounds(state.functions, caller, 0);
    if let Some(function) = order::lookup(state.functions, caller) {
        order::key_point_bounds(function.children, instance, 0);
    }
}

proof fn settled_calls_keep(
    state: LayoutState,
    calls: Seq<(FunctionId, ChildInstanceId, FunctionId)>,
    unit: Seq<LivenessFunction>,
    positions: Seq<(FunctionId, usize)>,
    env: EnvironmentView,
    n: int,
)
    ensures
        plans_kept(
            state.functions,
            c_layout_order::settle_calls(state, calls, unit, positions, env, n).functions,
        ),
    decreases n,
{
    if n > 0 {
        settled_calls_keep(state, calls, unit, positions, env, n - 1);
        let before = c_layout_order::settle_calls(state, calls, unit, positions, env, n - 1);
        settled_call_keeps(before, calls[n - 1], unit, positions, env);
        plans_kept_twice(
            state.functions,
            before.functions,
            c_layout_order::settle_calls(state, calls, unit, positions, env, n).functions,
        );
    }
}

proof fn settled_passes_keep(
    state: LayoutState,
    unit: Seq<LivenessFunction>,
    positions: Seq<(FunctionId, usize)>,
    env: EnvironmentView,
    n: nat,
)
    ensures
        plans_kept(
            state.functions,
            c_layout_order::settle_passes(state, unit, positions, env, n).functions,
        ),
    decreases n,
{
    if n > 0 {
        settled_passes_keep(state, unit, positions, env, (n - 1) as nat);
        let before = c_layout_order::settle_passes(
            state,
            unit,
            positions,
            env,
            (n - 1) as nat,
        );
        let calls = c_layout_order::ordered_embedded(before.functions);
        settled_calls_keep(before, calls, unit, positions, env, calls.len() as int);
        plans_kept_twice(
            state.functions,
            before.functions,
            c_layout_order::settle_passes(state, unit, positions, env, n).functions,
        );
    }
}

/// Settling layouts changes nothing in the plans but to box embedded children,
/// each with the reason why the layout of its callee couldn't move.
pub proof fn settling_only_boxes_embedded_children(
    start: LayoutState,
    end: LayoutState,
    unit: Seq<LivenessFunction>,
    positions: Seq<(FunctionId, usize)>,
    env: EnvironmentView,
)
    requires
        c_layout_order::settles_at(start, end, unit, positions, env),
    ensures
        plans_kept(start.functions, end.functions),
{
    let n = choose|n: nat|
        end == #[trigger] c_layout_order::settle_passes(start, unit, positions, env, n);
    settled_passes_keep(start, unit, positions, env, n);
}

/// Whether a child uses the storage that was planned for it.
pub open spec fn as_requested(child: ChildPlanView) -> bool {
    c_static_plan::storage_in_c(child.requested_storage) == Some(child.effective_storage)
        && child.downgrade_reason is None
}

proof fn child_plans_as_requested(
    children: Seq<ChildInstance>,
    symbols: AsyncSymbolIndex,
    unit: Seq<char>,
    n: int,
)
    requires
        n <= children.len(),
    ensures
        ({
            let plans = c_static_plan::child_plans(children, symbols, unit, n);
            forall|c: int| 0 <= c < plans.len() ==> as_requested((#[trigger] plans[c]).1)
        }),
    decreases n,
{
    if n > 0 {
        child_plans_as_requested(children, symbols, unit, n - 1);
        let before = c_static_plan::child_plans(children, symbols, unit, n - 1);
        order::key_point_bounds(before, children[n - 1].id, 0);
    }
}

proof fn function_plans_as_requested(
    functions: Seq<LivenessFunction>,
    symbols: AsyncSymbolIndex,
    unit: Seq<char>,
    n: int,
)
    requires
        n <= functions.len(),
    ensures
        ({
            let plans = c_static_plan::function_plans(functions, symbols, unit, n);
            forall|i: int, c: int|
                #![trigger plans[i].1.children[c]]
                0 <= i < plans.len() && 0 <= c < plans[i].1.children.len() ==> as_requested(
                    plans[i].1.children[c].1,
                )
        }),
    decreases n,
{
    if n > 0 {
        function_plans_as_requested(functions, symbols, unit, n - 1);
        let before = c_static_plan::function_plans(functions, symbols, unit, n - 1);
        let children = functions[n - 1].coroutine.await_plan.children@;
        child_plans_as_requested(children, symbols, unit, children.len() as int);
        if let Some(id) = c_static_plan::identity_of(functions[n - 1], symbols, unit) {
            order::key_point_bounds(before, id, 0);
            let plans = c_static_plan::function_plans(functions, symbols, unit, n);
            let own = c_static_plan::function_plan(functions[n - 1], id, symbols, unit);
            assert forall|i: int, c: int|
                #![trigger plans[i].1.children[c]]
                0 <= i < plans.len() && 0 <= c
                    < plans[i].1.children.len() implies as_requested(
                plans[i].1.children[c].1,
            ) by {
                let p = order::key_point(before, id, 0);
                if plans[i].1 != own {
                    let j = if i < plans.len() && plans.len() == before.len() || i < p {
                        i
                    } else {
                        i - 1
                    };
                    assert(plans[i] == before[j]);
                    assert(as_requested(before[j].1.children[c].1));
                }
            }
        }
    }
}

/// A child of a finished plan uses the storage that was asked for, unless a
/// reason is kept with it; then it was to be embedded and is boxed.
pub proof fn storage_changes_are_explained(
    plan: CStaticAwaitPlan,
    unit: LivenessUnit,
    project_path: Seq<char>,
    symbols: AsyncSymbolIndex,
    env: EnvironmentView,
    i: int,
    c: int,
)
    requires
        c_static_plan::plan_settled(plan, unit, project_path, symbols, env),
        0 <= i < plan.functions@.len(),
        0 <= c < plan.functions@[i].1.children@.len(),
    ensures
        ({
            let child = plan.functions@[i].1.children@[c].1;
            match child.downgrade_reason {
                None => c_static_plan::storage_in_c(child.requested_storage) == Some(
                    child.effective_storage,
                ),
                Some(reason) => child.requested_storage is Embedded
                    && child.effective_storage is Boxed && (reason
                    == CLayoutReason::CompleteTypeNotVisible || reason
                    == CLayoutReason::PreprocessorRegion),
            }
        }),
{
    let functions = unit.functions@;
    let positions = c_static_plan::function_positions(
        functions,
        symbols,
        project_path,
        functions.len() as int,
    );
    let unsettled = c_static_plan::unsettled_plans(unit, project_path, symbols, env);
    let start = c_layout_order::initial_state(unsettled);
    let end = choose|end: LayoutState|
        {
            &&& #[trigger] c_layout_order::settles_at(start, end, functions, positions, env)
            &&& order::entry_views(plan.functions@) == end.functions
            &&& crate::syntax::views(plan.layout_islands@) == c_layout_order::islands_of(
                end.functions,
                end.anchors,
            )
        };
    settling_only_boxes_embedded_children(start, end, functions, positions, env);
    function_plans_as_requested(functions, symbols, project_path, functions.len() as int);
    let plans = c_static_plan::function_plans(
        functions,
        symbols,
        project_path,
        functions.len() as int,
    );
    assert(end.functions[i] == (plan.functions@[i].0, plan.functions@[i].1@));
    assert(children_kept(unsettled[i].1.children, end.functions[i].1.children));
    assert(unsettled[i].1.children == plans[i].1.children);
    assert(as_requested(plans[i].1.children[c].1));
    assert(end.functions[i].1.children[c].0 == unsettled[i].1.children[c].0);
    assert(end.functions[i].1.children[c].1 == plan.functions@[i].1.children@[c].1@);
}

/// Whether no two boxed children of a function share a slot.
pub open spec fn boxed_apart(children: Seq<(ChildInstanceId, ChildPlanView)>) -> bool {
    forall|a: int, b: int|
        #![trigger children[a], children[b]]
        0 <= a < b < children.len() && children[a].1.effective_storage is Boxed
            && children[b].1.effective_storage is Boxed
            ==> children[a].1.effective_storage != children[b].1.effective_storage
}

/// Whether every boxed slot of a list of children is below `next`.
pub open spec fn boxed_below(
    children: Seq<(ChildInstanceId, ChildPlanView)>,
    next: u32,
) -> bool {
    forall|c: int|
        0 <= c < children.len() ==> match (#[trigger] children[c]).1.effective_storage {
            CChildStorage::Boxed(slot) => slot.0 < next,
            _ => true,
        }
}

/// Whether the boxed children of every function have slots of their own, all
/// below the next slot.
pub open spec fn boxed_slots_apart(state: LayoutState) -> bool {
    forall|i: int|
        0 <= i < state.functions.len() ==> boxed_apart(
            (#[trigger] state.functions[i]).1.children,
        ) && boxed_below(state.functions[i].1.children, state.slots[i].1)
}

proof fn next_slot_above(children: Seq<(ChildInstanceId, ChildPlanView)>, n: int, c: int)
    requires
        0 <= c < n <= children.len(),
    ensures
        match children[c].1.effective_storage {
            CChildStorage::Boxed(slot) => slot.0 < c_layout_order::next_boxed_slot(children, n),
            _ => true,
        },
    decreases n,
{
    if c < n - 1 {
        next_slot_above(children, n - 1, c);
    }
}

proof fn settled_call_boxes_apart(
    state: LayoutState,
    call: (FunctionId, ChildInstanceId, FunctionId),
    unit: Seq<LivenessFunction>,
    positions: Seq<(FunctionId, usize)>,
    env: EnvironmentView,
)
    requires
        c_layout_order::state_ok(state),
        order::lookup(state.functions, call.0) is Some,
        order::lookup(state.functions, call.2) is Some,
        boxed_slots_apart(state),
    ensures
        boxed_slots_apart(c_layout_order::settle_call(state, call, unit, positions, env)),
{
    let (caller, instance, callee) = call;
    let after = c_layout_order::settle_call(state, call, unit, positions, env);
    c_layout_order::lookup_same_keys(state.functions, state.slots, caller);
    let p = order::key_point(state.functions, caller, 0);
    let slot = state.slots[p].1;
    if after != state && after.anchors == state.anchors {
        let children = state.functions[p].1.children;
        let q = order::key_point(children, instance, 0);
        order::key_point_bounds(children, instance, 0);
        c_layout_order::call_counted(
            state.functions[p].0,
            children,
            q,
            children.len() as int,
        );
        assert(slot < u32::MAX) by {
            assert(state.functions[p].0 == state.slots[p].0);
        }
        assert(after.slots == state.slots.update(p, (caller, (slot + 1) as u32)));
        assert forall|i: int| 0 <= i < after.functions.len() implies boxed_apart(
            (#[trigger] after.functions[i]).1.children,
        ) && boxed_below(after.functions[i].1.children, after.slots[i].1) by {
            assert(boxed_apart(state.functions[i].1.children));
            assert(boxed_below(state.functions[i].1.children, state.slots[i].1));
            if i == p {
                let boxed = after.functions[p].1.children;
                assert(boxed == children.update(q, boxed[q]));
                assert forall|a: int, b: int|
                    #![trigger boxed[a], boxed[b]]
                    0 <= a < b < boxed.len() && boxed[a].1.effective_storage is Boxed
                        && boxed[b].1.effective_storage is Boxed implies boxed[a].1.effective_storage
                    != boxed[b].1.effective_storage by {
                    let (x, y) = (children[a], children[b]);
                }
                assert forall|c: int| 0 <= c < boxed.len() implies match (
                #[trigger] boxed[c]).1.effective_storage {
                    CChildStorage::Boxed(own) => own.0 < (slot + 1) as u32,
                    _ => true,
                } by {
                    let x = children[c];
                }
            }
        }
    } else {
        assert forall|i: int| 0 <= i < after.functions.len() implies boxed_apart(
            (#[trigger] after.functions[i]).1.children,
        ) && boxed_below(after.functions[i].1.children, after.slots[i].1) by {
            assert(boxed_apart(state.functions[i].1.children));
        }
    }
}

proof fn settled_calls_box_apart(
    state: LayoutState,
    calls: Seq<(FunctionId, ChildInstanceId, FunctionId)>,
    unit: Seq<LivenessFunction>,
    positions: Seq<(FunctionId, usize)>,
    env: EnvironmentView,
    n: int,
)
    requires
        c_layout_order::state_ok(state),
        0 <= n <= calls.len(),
        forall|i: int|
            0 <= i < calls.len() ==> order::lookup(state.functions, (#[trigger] calls[i]).0) is Some
                && order::lookup(state.functions, calls[i].2) is Some,
        boxed_slots_apart(state),
    ensures
        boxed_slots_apart(
            c_layout_order::settle_calls(state, calls, unit, positions, env, n),
        ),
    decreases n,
{
    if n > 0 {
        settled_calls_box_apart(state, calls, unit, positions, env, n - 1);
        c_layout_order::settle_calls_progress(state, calls, unit, positions, env, n - 1);
        let before = c_layout_order::settle_calls(state, calls, unit, positions, env, n - 1);
        let call = calls[n - 1];
        c_layout_order::lookup_same_keys(state.functions, before.functions, call.0);
        c_layout_order::lookup_same_keys(state.functions, before.functions, call.2);
        settled_call_boxes_apart(before, call, unit, positions, env);
    }
}

proof fn settled_passes_box_apart(
    state: LayoutState,
    unit: Seq<LivenessFunction>,
    positions: Seq<(FunctionId, usize)>,
    env: EnvironmentView,
    n: nat,
)
    requires
        c_layout_order::state_ok(state),
        boxed_slots_apart(state),
    ensures
        boxed_slots_apart(
            c_layout_order::settle_passes(state, unit, positions, env, n),
        ),
    decreases n,
{
    if n > 0 {
        settled_passes_box_apart(state, unit, positions, env, (n - 1) as nat);
        c_layout_order::passes_keep_order(state, unit, positions, env, (n - 1) as nat);
        let before = c_layout_order::settle_passes(
            state,
            unit,
            positions,
            env,
            (n - 1) as nat,
        );
        c_layout_order::ordered_embedded_calls(before.functions);
        let calls = c_layout_order::ordered_embedded(before.functions);
        settled_calls_box_apart(before, calls, unit, positions, env, calls.len() as int);
    }
}

/// Where the boxed children of every function have slots of their own, they
/// still do after layouts came to rest, those boxed on the way among them.
pub proof fn settling_keeps_boxed_slots_apart(
    functions: Seq<(FunctionId, FunctionPlanView)>,
    end: LayoutState,
    unit: Seq<LivenessFunction>,
    positions: Seq<(FunctionId, usize)>,
    env: EnvironmentView,
    i: int,
)
    requires
        c_layout_order::can_settle(functions),
        c_layout_order::plans_ordered(functions),
        c_layout_order::settles_at(
            c_layout_order::initial_state(functions),
            end,
            unit,
            positions,
            env,
        ),
        forall|k: int|
            0 <= k < functions.len() ==> boxed_apart((#[trigger] functions[k]).1.children),
        0 <= i < end.functions.len(),
    ensures
        boxed_apart(end.functions[i].1.children),
{
    let start = c_layout_order::initial_state(functions);
    c_layout_order::initial_state_ok(functions);
    assert forall|k: int| 0 <= k < start.functions.len() implies boxed_apart(
        (#[trigger] start.functions[k]).1.children,
    ) && boxed_below(start.functions[k].1.children, start.slots[k].1) by {
        let children = functions[k].1.children;
        assert(boxed_apart(children));
        assert forall|c: int| 0 <= c < children.len() implies match (
        #[trigger] children[c]).1.effective_storage {
            CChildStorage::Boxed(slot) => slot.0 < start.slots[k].1,
            _ => true,
        } by {
            next_slot_above(children, children.len() as int, c);
        }
    }
    let n = choose|n: nat|
        end == #[trigger] c_layout_order::settle_passes(start, unit, positions, env, n);
    settled_passes_box_apart(start, unit, positions, env, n);
}

proof fn anchors_found(anchors: Seq<(FunctionId, usize)>, n: int)
    requires
        0 <= n <= anchors.len(),
    ensures
        order::keys_ascending(c_layout_order::island_anchors(anchors, n)),
        forall|i: int|
            0 <= i < n ==> c_layout_order::island_anchors(anchors, n).contains(
                (#[trigger] anchors[i]).1,
            ),
    decreases n,
{
    if n > 0 {
        anchors_found(anchors, n - 1);
        order::with_key_ascending(
            c_layout_order::island_anchors(anchors, n - 1),
            anchors[n - 1].1,
            0,
        );
    }
}

proof fn members_found(anchors: Seq<(FunctionId, usize)>, anchor: usize, n: int)
    requires
        0 <= n <= anchors.len(),
    ensures
        forall|x: FunctionId|
            c_layout_order::island_members(anchors, anchor, n).contains(x) <==> exists|i: int|
                0 <= i < n && #[trigger] anchors[i] == (x, anchor),
    decreases n,
{
    if n > 0 {
        members_found(anchors, anchor, n - 1);
        let before = c_layout_order::island_members(anchors, anchor, n - 1);
        let after = c_layout_order::island_members(anchors, anchor, n);
        assert forall|x: FunctionId| after.contains(x) <==> exists|i: int|
            0 <= i < n && #[trigger] anchors[i] == (x, anchor) by {
            if after.contains(x) {
                let k = choose|k: int| 0 <= k < after.len() && after[k] == x;
                if k < before.len() {
                    assert(before[k] == x);
                    assert(before.contains(x));
                } else {
                    assert(anchors[n - 1] == (x, anchor));
                }
            }
            if exists|i: int| 0 <= i < n && #[trigger] anchors[i] == (x, anchor) {
                let i = choose|i: int| 0 <= i < n && #[trigger] anchors[i] == (x, anchor);
                if i < n - 1 {
                    assert(before.contains(x));
                    let k = choose|k: int| 0 <= k < before.len() && before[k] == x;
                    assert(after[k] == x);
                } else {
                    assert(after[before.len() as int] == x);
                }
            }
        }
    }
}

/// Every layout stands in one island, that of its anchor, and stands there
/// once. Islands come in the order of their anchors.
pub proof fn every_layout_has_one_island(
    functions: Seq<(FunctionId, FunctionPlanView)>,
    anchors: Seq<(FunctionId, usize)>,
)
    requires
        order::ascending(functions),
        order::ascending(anchors),
        crate::graph::acyclic(c_layout_order::part_pairs(functions)),
    ensures
        ({
            let islands = c_layout_order::islands_of(functions, anchors);
            &&& forall|a: int, b: int|
                0 <= a < b < islands.len() ==> (#[trigger] islands[a]).anchor < (
                #[trigger] islands[b]).anchor
            &&& forall|k: int|
                0 <= k < islands.len() ==> (#[trigger] islands[k]).layouts.no_duplicates()
            &&& forall|k: int, x: FunctionId|
                0 <= k < islands.len() ==> (#[trigger] islands[k].layouts.contains(x)
                    <==> order::lookup(anchors, x) == Some(islands[k].anchor))
            &&& forall|x: FunctionId|
                (#[trigger] order::lookup(anchors, x)) is Some ==> exists|k: int|
                    0 <= k < islands.len() && (#[trigger] islands[k]).layouts.contains(x)
        }),
{
    let islands = c_layout_order::islands_of(functions, anchors);
    let n = anchors.len() as int;
    let places = c_layout_order::island_anchors(anchors, n);
    anchors_found(anchors, n);
    assert forall|a: int, b: int| 0 <= a < b < islands.len() implies (#[trigger] islands[a]).anchor
        < (#[trigger] islands[b]).anchor by {
        assert(order::Key::rank_spec(&places[a]) < order::Key::rank_spec(&places[b]));
    }
    assert forall|k: int| 0 <= k < islands.len() implies (
    #[trigger] islands[k]).layouts.no_duplicates() by {
        c_layout_order::layouts_follow_their_parts(
            c_layout_order::island_members(anchors, places[k], n),
            functions,
        );
    }
    assert forall|k: int, x: FunctionId| 0 <= k < islands.len() implies (
    #[trigger] islands[k].layouts.contains(x) <==> order::lookup(anchors, x) == Some(
        islands[k].anchor,
    )) by {
        c_layout_order::layouts_follow_their_parts(
            c_layout_order::island_members(anchors, places[k], n),
            functions,
        );
        members_found(anchors, places[k], n);
        order::lookup_finds(anchors, x);
        if order::lookup(anchors, x) == Some(islands[k].anchor) {
            assert(anchors.contains((x, places[k])));
        }
    }
    assert forall|x: FunctionId| (#[trigger] order::lookup(anchors, x)) is Some implies exists|
        k: int,
    |
        0 <= k < islands.len() && (#[trigger] islands[k]).layouts.contains(x) by {
        order::lookup_finds(anchors, x);
        let anchor = order::lookup(anchors, x)->0;
        let i = choose|i: int| 0 <= i < anchors.len() && anchors[i] == (x, anchor);
        assert(places.contains(anchors[i].1));
        let k = choose|k: int| 0 <= k < places.len() && places[k] == anchor;
        assert(islands[k].layouts.contains(x));
    }
}

} // verus!
