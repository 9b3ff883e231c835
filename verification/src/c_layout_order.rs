//! Placement and order of complete task layouts in one translation unit.

use vstd::prelude::*;

use crate::await_plan::{ChildInstanceId, TypedSlotId};
use crate::c_declaration_env;
use crate::c_declaration_env::{CDeclarationEnvironment, DeclarationMoveBlock, EnvironmentView};
use crate::c_static_plan;
use crate::c_static_plan::{
    task_layout_types, CChildPlan, CChildStorage, CChildTarget, CFunctionPlan, CLayoutReason,
    ChildPlanView, ChildTargetView, FunctionPlanView, IslandView, LayoutIsland,
};
use crate::graph;
use crate::liveness::LivenessFunction;
use crate::order;
use crate::order::{add_key, find_index, find_value, has_key, put_value, sort_order, Key};
use crate::symbol_index::FunctionId;
use crate::syntax;

verus! {

/// The function that an embedded child runs.
pub open spec fn embedded_callee(child: ChildPlanView) -> Option<FunctionId> {
    match (child.effective_storage, child.target) {
        (CChildStorage::Embedded(slot), ChildTargetView::Static(callee)) => Some(callee.function),
        _ => None,
    }
}

/// The function that an embedded child runs.
fn embedded_callee_of(child: &CChildPlan) -> (r: Option<FunctionId>)
    ensures
        r == embedded_callee(child@),
{
    match (child.effective_storage, &child.target) {
        (CChildStorage::Embedded(slot), CChildTarget::Static(callee)) => Some(callee.function),
        _ => None,
    }
}

/// The embedded calls among the first `n` children of a caller.
pub open spec fn calls_in(
    caller: FunctionId,
    children: Seq<(ChildInstanceId, ChildPlanView)>,
    n: int,
) -> Seq<(FunctionId, ChildInstanceId, FunctionId)>
    decreases n,
{
    if n <= 0 {
        Seq::empty()
    } else {
        match embedded_callee(children[n - 1].1) {
            Some(callee) => calls_in(caller, children, n - 1).push(
                (caller, children[n - 1].0, callee),
            ),
            None => calls_in(caller, children, n - 1),
        }
    }
}

/// The embedded calls of the first `n` functions.
pub open spec fn embedded_calls(functions: Seq<(FunctionId, FunctionPlanView)>, n: int) -> Seq<
    (FunctionId, ChildInstanceId, FunctionId),
>
    decreases n,
{
    if n <= 0 {
        Seq::empty()
    } else {
        embedded_calls(functions, n - 1) + calls_in(
            functions[n - 1].0,
            functions[n - 1].1.children,
            functions[n - 1].1.children.len() as int,
        )
    }
}

/// Embedded calls are settled in the order of caller position, caller,
/// instance, and callee.
pub open spec fn embedded_key(
    functions: Seq<(FunctionId, FunctionPlanView)>,
    call: (FunctionId, ChildInstanceId, FunctionId),
) -> Seq<u64> {
    seq![
        order::lookup(functions, call.0)->0.source_start as u64,
        call.0.0 as u64,
        call.1.0 as u64,
        call.2.0 as u64,
    ]
}

/// The sort keys of embedded calls.
pub open spec fn embedded_keys(
    functions: Seq<(FunctionId, FunctionPlanView)>,
    calls: Seq<(FunctionId, ChildInstanceId, FunctionId)>,
) -> Seq<Seq<u64>> {
    Seq::new(calls.len(), |i: int| embedded_key(functions, calls[i]))
}

/// The embedded calls in the order in which they are settled.
pub open spec fn ordered_embedded(functions: Seq<(FunctionId, FunctionPlanView)>) -> Seq<
    (FunctionId, ChildInstanceId, FunctionId),
> {
    let calls = embedded_calls(functions, functions.len() as int);
    order::sorted_by(calls, embedded_keys(functions, calls))
}

/// The plans, the source anchors of the layouts, and the next boxed slots.
#[verifier::ext_equal]
pub struct LayoutState {
    pub functions: Seq<(FunctionId, FunctionPlanView)>,
    pub anchors: Seq<(FunctionId, usize)>,
    pub slots: Seq<(FunctionId, u32)>,
}

/// One above the largest boxed slot among the first `n` children.
pub open spec fn next_boxed_slot(children: Seq<(ChildInstanceId, ChildPlanView)>, n: int) -> nat
    decreases n,
{
    if n <= 0 {
        0
    } else {
        let before = next_boxed_slot(children, n - 1);
        match children[n - 1].1.effective_storage {
            CChildStorage::Boxed(slot) => if slot.0 + 1 > before {
                (slot.0 + 1) as nat
            } else {
                before
            },
            _ => before,
        }
    }
}

/// The state before anything moves: every layout at its own function.
pub open spec fn initial_state(functions: Seq<(FunctionId, FunctionPlanView)>) -> LayoutState {
    LayoutState {
        functions,
        anchors: Seq::new(
            functions.len(),
            |i: int| (functions[i].0, functions[i].1.source_start),
        ),
        slots: Seq::new(
            functions.len(),
            |i: int|
                (
                    functions[i].0,
                    next_boxed_slot(
                        functions[i].1.children,
                        functions[i].1.children.len() as int,
                    ) as u32,
                ),
        ),
    }
}

/// Why a blocked move boxes a child.
pub open spec fn reason_for(block: DeclarationMoveBlock) -> CLayoutReason {
    match block {
        DeclarationMoveBlock::TypeNotVisible => CLayoutReason::CompleteTypeNotVisible,
        DeclarationMoveBlock::PreprocessorBoundary => CLayoutReason::PreprocessorRegion,
    }
}

/// The plan of one child of one caller.
pub open spec fn child_at(
    functions: Seq<(FunctionId, FunctionPlanView)>,
    caller: FunctionId,
    instance: ChildInstanceId,
) -> Option<ChildPlanView> {
    match order::lookup(functions, caller) {
        Some(function) => order::lookup(function.children, instance),
        None => None,
    }
}

/// The plans after one child was boxed.
pub open spec fn boxed_child(
    functions: Seq<(FunctionId, FunctionPlanView)>,
    caller: FunctionId,
    instance: ChildInstanceId,
    slot: u32,
    reason: CLayoutReason,
) -> Seq<(FunctionId, FunctionPlanView)> {
    let p = order::key_point(functions, caller, 0);
    let children = functions[p].1.children;
    let q = order::key_point(children, instance, 0);
    let child = ChildPlanView {
        effective_storage: CChildStorage::Boxed(TypedSlotId(slot)),
        downgrade_reason: Some(reason),
        ..children[q].1
    };
    functions.update(
        p,
        (
            functions[p].0,
            FunctionPlanView {
                children: children.update(q, (children[q].0, child)),
                ..functions[p].1
            },
        ),
    )
}

/// The state after one embedded call was settled: the callee's layout moves up
/// to the caller's anchor, or the child is boxed where the move is blocked.
pub open spec fn settle_call(
    state: LayoutState,
    call: (FunctionId, ChildInstanceId, FunctionId),
    unit: Seq<LivenessFunction>,
    positions: Seq<(FunctionId, usize)>,
    env: EnvironmentView,
) -> LayoutState {
    let (caller, instance, callee) = call;
    let anchor = order::lookup(state.anchors, caller)->0;
    match order::lookup(positions, callee) {
        Some(position) => {
            let function = unit[position as int];
            if order::lookup(state.anchors, callee)->0 <= anchor {
                state
            } else {
                match c_declaration_env::move_block(
                    env,
                    c_static_plan::context_types(function),
                    function.coroutine.cfg.span.start_byte,
                    anchor,
                ) {
                    Some(block) => match child_at(state.functions, caller, instance) {
                        Some(child) => if embedded_callee(child) is Some {
                            let slot = order::lookup(state.slots, caller)->0;
                            LayoutState {
                                functions: boxed_child(
                                    state.functions,
                                    caller,
                                    instance,
                                    slot,
                                    reason_for(block),
                                ),
                                slots: order::put(state.slots, caller, (slot + 1) as u32),
                                ..state
                            }
                        } else {
                            state
                        },
                        None => state,
                    },
                    None => LayoutState {
                        anchors: order::put(state.anchors, callee, anchor),
                        ..state
                    },
                }
            }
        },
        None => state,
    }
}

/// The state after the first `n` calls of a list were settled.
pub open spec fn settle_calls(
    state: LayoutState,
    calls: Seq<(FunctionId, ChildInstanceId, FunctionId)>,
    unit: Seq<LivenessFunction>,
    positions: Seq<(FunctionId, usize)>,
    env: EnvironmentView,
    n: int,
) -> LayoutState
    decreases n,
{
    if n <= 0 {
        state
    } else {
        settle_call(
            settle_calls(state, calls, unit, positions, env, n - 1),
            calls[n - 1],
            unit,
            positions,
            env,
        )
    }
}

/// The state after one pass over all embedded calls.
pub open spec fn settle_pass(
    state: LayoutState,
    unit: Seq<LivenessFunction>,
    positions: Seq<(FunctionId, usize)>,
    env: EnvironmentView,
) -> LayoutState {
    let calls = ordered_embedded(state.functions);
    settle_calls(state, calls, unit, positions, env, calls.len() as int)
}

/// The state after `n` passes.
pub open spec fn settle_passes(
    state: LayoutState,
    unit: Seq<LivenessFunction>,
    positions: Seq<(FunctionId, usize)>,
    env: EnvironmentView,
    n: nat,
) -> LayoutState
    decreases n,
{
    if n == 0 {
        state
    } else {
        settle_pass(
            settle_passes(state, unit, positions, env, (n - 1) as nat),
            unit,
            positions,
            env,
        )
    }
}

/// Whether `end` is where the passes from `start` come to rest.
pub open spec fn settles_at(
    start: LayoutState,
    end: LayoutState,
    unit: Seq<LivenessFunction>,
    positions: Seq<(FunctionId, usize)>,
    env: EnvironmentView,
) -> bool {
    settle_pass(end, unit, positions, env) == end && exists|n: nat|
        end == #[trigger] settle_passes(start, unit, positions, env, n)
}

/// Whether a state belongs to one set of functions in ascending order, every
/// embedded callee among them, with room for the boxed slots.
pub open spec fn state_ok(state: LayoutState) -> bool {
    &&& order::ascending(state.functions)
    &&& state.anchors.len() == state.functions.len()
    &&& state.slots.len() == state.functions.len()
    &&& forall|i: int|
        0 <= i < state.functions.len() ==> (#[trigger] state.functions[i]).0 == state.anchors[i].0
            && state.functions[i].0 == state.slots[i].0 && order::ascending(
            state.functions[i].1.children,
        ) && state.slots[i].1 + calls_in(
            state.functions[i].0,
            state.functions[i].1.children,
            state.functions[i].1.children.len() as int,
        ).len() <= u32::MAX
    &&& callees_planned(state.functions)
}

/// Whether every embedded callee is one of the functions.
pub open spec fn callees_planned(functions: Seq<(FunctionId, FunctionPlanView)>) -> bool {
    forall|i: int, c: int|
        #![trigger functions[i].1.children[c]]
        0 <= i < functions.len() && 0 <= c < functions[i].1.children.len() ==> match embedded_callee(
            functions[i].1.children[c].1,
        ) {
            Some(callee) => order::lookup(functions, callee) is Some,
            None => true,
        }
}

/// Whether the layouts of a unit can be settled: every embedded callee is
/// planned, and every function has numbers for its boxed slots if all its
/// embedded children become boxed.
pub open spec fn can_settle(functions: Seq<(FunctionId, FunctionPlanView)>) -> bool {
    &&& forall|i: int|
        0 <= i < functions.len() ==> next_boxed_slot(
            (#[trigger] functions[i]).1.children,
            functions[i].1.children.len() as int,
        ) + calls_in(
            functions[i].0,
            functions[i].1.children,
            functions[i].1.children.len() as int,
        ).len() <= u32::MAX
    &&& callees_planned(functions)
}

/// Whether functions and their children stand in ascending order.
pub open spec fn plans_ordered(functions: Seq<(FunctionId, FunctionPlanView)>) -> bool {
    order::ascending(functions) && forall|i: int|
        0 <= i < functions.len() ==> order::ascending((#[trigger] functions[i]).1.children)
}

/// The sum of all anchors.
pub open spec fn anchor_sum(anchors: Seq<(FunctionId, usize)>) -> nat
    decreases anchors.len(),
{
    if anchors.len() == 0 {
        0
    } else {
        anchor_sum(anchors.drop_last()) + anchors.last().1 as nat
    }
}

proof fn anchor_sum_update(anchors: Seq<(FunctionId, usize)>, i: int, entry: (FunctionId, usize))
    requires
        0 <= i < anchors.len(),
    ensures
        anchor_sum(anchors.update(i, entry)) == anchor_sum(anchors) - anchors[i].1 + entry.1,
    decreases anchors.len(),
{
    let after = anchors.update(i, entry);
    if i == anchors.len() - 1 {
        assert(after.drop_last() =~= anchors.drop_last());
    } else {
        anchor_sum_update(anchors.drop_last(), i, entry);
        assert(after.drop_last() =~= anchors.drop_last().update(i, entry));
    }
}

proof fn calls_in_boxed(
    caller: FunctionId,
    children: Seq<(ChildInstanceId, ChildPlanView)>,
    q: int,
    entry: (ChildInstanceId, ChildPlanView),
    n: int,
)
    requires
        0 <= q < children.len(),
        0 <= n <= children.len(),
        embedded_callee(children[q].1) is Some,
        embedded_callee(entry.1) is None,
    ensures
        calls_in(caller, children.update(q, entry), n).len() == calls_in(caller, children, n).len()
            - if q < n {
            1int
        } else {
            0int
        },
    decreases n,
{
    if n > 0 {
        calls_in_boxed(caller, children, q, entry, n - 1);
    }
}

proof fn embedded_calls_update(
    functions: Seq<(FunctionId, FunctionPlanView)>,
    p: int,
    entry: (FunctionId, FunctionPlanView),
    n: int,
)
    requires
        0 <= p < functions.len(),
        0 <= n <= functions.len(),
        calls_in(entry.0, entry.1.children, entry.1.children.len() as int).len() + 1 == calls_in(
            functions[p].0,
            functions[p].1.children,
            functions[p].1.children.len() as int,
        ).len(),
    ensures
        embedded_calls(functions.update(p, entry), n).len() == embedded_calls(functions, n).len()
            - if p < n {
            1int
        } else {
            0int
        },
    decreases n,
{
    if n > 0 {
        embedded_calls_update(functions, p, entry, n - 1);
    }
}

/// Entries with the same keys hold a key at the same point.
pub proof fn lookup_same_keys<V, W>(
    a: Seq<(FunctionId, V)>,
    b: Seq<(FunctionId, W)>,
    key: FunctionId,
)
    requires
        order::ascending(a),
        a.len() == b.len(),
        forall|i: int| 0 <= i < a.len() ==> (#[trigger] a[i]).0 == b[i].0,
    ensures
        order::ascending(b),
        order::key_point(a, key, 0) == order::key_point(b, key, 0),
        order::lookup(a, key) is Some == order::lookup(b, key) is Some,
        order::lookup(a, key) is Some ==> {
            let p = order::key_point(a, key, 0);
            &&& 0 <= p < a.len()
            &&& a[p].0 == key
            &&& b[p].0 == key
            &&& order::lookup(a, key) == Some(a[p].1)
            &&& order::lookup(b, key) == Some(b[p].1)
        },
{
    assert forall|i: int, j: int| 0 <= i < j < b.len() implies (#[trigger] b[i]).0.rank_spec() < (
    #[trigger] b[j]).0.rank_spec() by {
        assert(a[i].0.rank_spec() < a[j].0.rank_spec());
    }
    order::key_point_by_keys(a, b, key, 0);
    order::key_point_bounds(a, key, 0);
    if order::lookup(a, key) is Some {
        let p = order::key_point(a, key, 0);
        FunctionId::injective(a[p].0, key);
    }
    if order::lookup(b, key) is Some {
        let p = order::key_point(b, key, 0);
        assert(a[p].0 == b[p].0);
    }
    if order::lookup(a, key) is Some {
        let p = order::key_point(a, key, 0);
        assert(a[p].0 == b[p].0);
    }
}

/// Settling one call keeps the state in order, and never adds an embedded call
/// or moves a layout down; when it changes the state, one of the two measures
/// shrinks.
proof fn settle_call_progress(
    state: LayoutState,
    call: (FunctionId, ChildInstanceId, FunctionId),
    unit: Seq<LivenessFunction>,
    positions: Seq<(FunctionId, usize)>,
    env: EnvironmentView,
)
    requires
        state_ok(state),
        order::lookup(state.functions, call.0) is Some,
        order::lookup(state.functions, call.2) is Some,
    ensures
        ({
            let after = settle_call(state, call, unit, positions, env);
            let before_count = embedded_calls(state.functions, state.functions.len() as int).len();
            let after_count = embedded_calls(after.functions, after.functions.len() as int).len();
            &&& state_ok(after)
            &&& after.functions.len() == state.functions.len()
            &&& forall|i: int|
                0 <= i < state.functions.len() ==> (#[trigger] after.functions[i]).0
                    == state.functions[i].0
            &&& after_count <= before_count
            &&& anchor_sum(after.anchors) <= anchor_sum(state.anchors)
            &&& after == state || after_count < before_count || anchor_sum(after.anchors)
                < anchor_sum(state.anchors)
        }),
{
    let (caller, instance, callee) = call;
    let after = settle_call(state, call, unit, positions, env);
    lookup_same_keys(state.functions, state.anchors, caller);
    lookup_same_keys(state.functions, state.anchors, callee);
    lookup_same_keys(state.functions, state.slots, caller);
    let p = order::key_point(state.functions, caller, 0);
    let c = order::key_point(state.functions, callee, 0);
    let anchor = order::lookup(state.anchors, caller)->0;
    if after != state {
        let position = order::lookup(positions, callee)->0;
        let function = unit[position as int];
        match c_declaration_env::move_block(
            env,
            c_static_plan::context_types(function),
            function.coroutine.cfg.span.start_byte,
            anchor,
        ) {
            Some(block) => {
                let children = state.functions[p].1.children;
                let q = order::key_point(children, instance, 0);
                order::key_point_bounds(children, instance, 0);
                let slot = order::lookup(state.slots, caller)->0;
                let entry = after.functions[p];
                let boxed = entry.1.children[q];
                assert(entry.1.children == children.update(q, boxed));
                assert(embedded_callee(boxed.1) is None);
                calls_in_boxed(
                    state.functions[p].0,
                    children,
                    q,
                    boxed,
                    children.len() as int,
                );
                embedded_calls_update(
                    state.functions,
                    p,
                    entry,
                    state.functions.len() as int,
                );
                assert(after.functions == state.functions.update(p, entry));
                assert(after.slots == state.slots.update(p, (caller, (slot + 1) as u32)));
                assert forall|i: int, j: int| 0 <= i < j < after.functions.len() implies (
                #[trigger] after.functions[i]).0.rank_spec() < (
                #[trigger] after.functions[j]).0.rank_spec() by {
                    assert(state.functions[i].0.rank_spec() < state.functions[j].0.rank_spec());
                }
                assert(order::ascending(entry.1.children)) by {
                    assert(state.functions[p].0 == state.anchors[p].0);
                    assert forall|i: int, j: int| 0 <= i < j < entry.1.children.len() implies (
                    #[trigger] entry.1.children[i]).0.rank_spec() < (
                    #[trigger] entry.1.children[j]).0.rank_spec() by {
                        assert(children[i].0.rank_spec() < children[j].0.rank_spec());
                    }
                }
                assert forall|i: int| 0 <= i < after.functions.len() implies (
                #[trigger] after.functions[i]).0 == after.anchors[i].0 && after.functions[i].0
                    == after.slots[i].0 && order::ascending(after.functions[i].1.children)
                    && after.slots[i].1 + calls_in(
                    after.functions[i].0,
                    after.functions[i].1.children,
                    after.functions[i].1.children.len() as int,
                ).len() <= u32::MAX by {
                    assert(state.functions[i].0 == state.anchors[i].0);
                }
                assert forall|i: int, k: int|
                    #![trigger after.functions[i].1.children[k]]
                    0 <= i < after.functions.len() && 0 <= k
                        < after.functions[i].1.children.len() implies match embedded_callee(
                    after.functions[i].1.children[k].1,
                ) {
                    Some(callee) => order::lookup(after.functions, callee) is Some,
                    None => true,
                } by {
                    if embedded_callee(after.functions[i].1.children[k].1) is Some {
                        assert(after.functions[i].1.children[k]
                            == state.functions[i].1.children[k]);
                        let other = embedded_callee(after.functions[i].1.children[k].1)->0;
                        lookup_same_keys(state.functions, after.functions, other);
                    }
                }
            },
            None => {
                anchor_sum_update(state.anchors, c, (callee, anchor));
                assert(after.anchors == state.anchors.update(c, (callee, anchor)));
                assert forall|i: int| 0 <= i < after.functions.len() implies (
                #[trigger] after.functions[i]).0 == after.anchors[i].0 && after.functions[i].0
                    == after.slots[i].0 && order::ascending(after.functions[i].1.children)
                    && after.slots[i].1 + calls_in(
                    after.functions[i].0,
                    after.functions[i].1.children,
                    after.functions[i].1.children.len() as int,
                ).len() <= u32::MAX by {
                    assert(state.functions[i].0 == state.anchors[i].0);
                }
            },
        }
    }
}

proof fn call_in_source(
    caller: FunctionId,
    children: Seq<(ChildInstanceId, ChildPlanView)>,
    n: int,
    i: int,
) -> (c: int)
    requires
        0 <= n <= children.len(),
        0 <= i < calls_in(caller, children, n).len(),
    ensures
        0 <= c < n,
        embedded_callee(children[c].1) == Some(calls_in(caller, children, n)[i].2),
        calls_in(caller, children, n)[i].0 == caller,
        calls_in(caller, children, n)[i].1 == children[c].0,
    decreases n,
{
    if i < calls_in(caller, children, n - 1).len() {
        call_in_source(caller, children, n - 1, i)
    } else {
        n - 1
    }
}

proof fn embedded_call_source(
    functions: Seq<(FunctionId, FunctionPlanView)>,
    n: int,
    i: int,
) -> (r: (int, int))
    requires
        0 <= n <= functions.len(),
        0 <= i < embedded_calls(functions, n).len(),
    ensures
        0 <= r.0 < n,
        0 <= r.1 < functions[r.0].1.children.len(),
        embedded_calls(functions, n)[i].0 == functions[r.0].0,
        embedded_calls(functions, n)[i].1 == functions[r.0].1.children[r.1].0,
        embedded_callee(functions[r.0].1.children[r.1].1) == Some(
            embedded_calls(functions, n)[i].2,
        ),
    decreases n,
{
    let before = embedded_calls(functions, n - 1);
    if i < before.len() {
        embedded_call_source(functions, n - 1, i)
    } else {
        let children = functions[n - 1].1.children;
        let c = call_in_source(
            functions[n - 1].0,
            children,
            children.len() as int,
            i - before.len(),
        );
        (n - 1, c)
    }
}

/// Both ends of an embedded call are planned functions.
proof fn embedded_call_ends(functions: Seq<(FunctionId, FunctionPlanView)>, i: int)
    requires
        order::ascending(functions),
        callees_planned(functions),
        0 <= i < embedded_calls(functions, functions.len() as int).len(),
    ensures
        ({
            let call = embedded_calls(functions, functions.len() as int)[i];
            &&& order::lookup(functions, call.0) is Some
            &&& order::lookup(functions, call.2) is Some
        }),
{
    let (f, c) = embedded_call_source(functions, functions.len() as int, i);
    order::lookup_finds(functions, functions[f].0);
    assert(functions[f].1.children[c] == functions[f].1.children[c]);
}

/// The state before anything moves is in order.
pub proof fn initial_state_ok(functions: Seq<(FunctionId, FunctionPlanView)>)
    requires
        can_settle(functions),
        plans_ordered(functions),
    ensures
        state_ok(initial_state(functions)),
{
    let state = initial_state(functions);
    assert forall|i: int| 0 <= i < state.functions.len() implies (#[trigger] state.functions[i]).0
        == state.anchors[i].0 && state.functions[i].0 == state.slots[i].0 && order::ascending(
        state.functions[i].1.children,
    ) && state.slots[i].1 + calls_in(
        state.functions[i].0,
        state.functions[i].1.children,
        state.functions[i].1.children.len() as int,
    ).len() <= u32::MAX by {
        assert(state.functions[i] == functions[i]);
    }
}

fn collect_embedded(functions: &Vec<(FunctionId, CFunctionPlan)>) -> (r: Vec<
    (FunctionId, ChildInstanceId, FunctionId),
>)
    ensures
        r@ == embedded_calls(order::entry_views(functions@), functions@.len() as int),
{
    let ghost views = order::entry_views(functions@);
    let mut calls: Vec<(FunctionId, ChildInstanceId, FunctionId)> = Vec::new();
    let mut f: usize = 0;
    while f < functions.len()
        invariant
            f <= functions@.len(),
            views == order::entry_views(functions@),
            calls@ == embedded_calls(views, f as int),
        decreases functions@.len() - f,
    {
        let caller = functions[f].0;
        let children = &functions[f].1.children;
        let ghost before = calls@;
        let ghost own = views[f as int].1.children;
        assert(own == order::entry_views(children@));
        let mut c: usize = 0;
        while c < children.len()
            invariant
                c <= children@.len(),
                own == order::entry_views(children@),
                calls@ =~= before + calls_in(caller, own, c as int),
            decreases children@.len() - c,
        {
            assert(own[c as int] == (children@[c as int].0, children@[c as int].1@));
            if let Some(callee) = embedded_callee_of(&children[c].1) {
                calls.push((caller, children[c].0, callee));
            }
            c += 1;
        }
        f += 1;
    }
    calls
}

fn order_embedded(functions: &Vec<(FunctionId, CFunctionPlan)>) -> (r: Vec<
    (FunctionId, ChildInstanceId, FunctionId),
>)
    requires
        order::ascending(order::entry_views(functions@)),
        callees_planned(order::entry_views(functions@)),
    ensures
        r@ == ordered_embedded(order::entry_views(functions@)),
        forall|i: int|
            0 <= i < r@.len() ==> order::lookup(
                order::entry_views(functions@),
                (#[trigger] r@[i]).0,
            ) is Some && order::lookup(order::entry_views(functions@), r@[i].2) is Some,
{
    let ghost views = order::entry_views(functions@);
    let calls = collect_embedded(functions);
    let mut keys: Vec<Vec<u64>> = Vec::new();
    let mut i: usize = 0;
    while i < calls.len()
        invariant
            i <= calls@.len(),
            views == order::entry_views(functions@),
            order::ascending(views),
            callees_planned(views),
            calls@ == embedded_calls(views, views.len() as int),
            syntax::views(keys@) =~= embedded_keys(views, calls@).take(i as int),
        decreases calls@.len() - i,
    {
        proof {
            embedded_call_ends(views, i as int);
            order::lookup_views(functions@, calls@[i as int].0);
        }
        let start: usize = match find_value(functions, calls[i].0) {
            Some(function) => function.source_start,
            None => 0,
        };
        let key: Vec<u64> = vec![
            start as u64,
            calls[i].0.0 as u64,
            calls[i].1.0 as u64,
            calls[i].2.0 as u64,
        ];
        assert(key@ =~= embedded_keys(views, calls@)[i as int]);
        proof {
            syntax::views_push(keys@, key);
        }
        keys.push(key);
        i += 1;
    }
    assert(embedded_keys(views, calls@).take(i as int) =~= embedded_keys(views, calls@));
    let places = sort_order(&keys);
    let mut r: Vec<(FunctionId, ChildInstanceId, FunctionId)> = Vec::new();
    let mut j: usize = 0;
    while j < places.len()
        invariant
            j <= places@.len(),
            places@.len() == calls@.len(),
            forall|k: int| 0 <= k < places@.len() ==> 0 <= #[trigger] places@[k] < calls@.len(),
            r@ =~= order::arranged(calls@, order::positions(places@)).take(j as int),
        decreases places@.len() - j,
    {
        r.push(calls[places[j]]);
        j += 1;
    }
    assert(r@ =~= order::arranged(calls@, order::positions(places@)));
    proof {
        assert forall|i: int| 0 <= i < r@.len() implies order::lookup(
            views,
            (#[trigger] r@[i]).0,
        ) is Some && order::lookup(views, r@[i].2) is Some by {
            embedded_call_ends(views, places@[i] as int);
        }
    }
    r
}

/// The state that the working collections describe.
pub open spec fn state_of(
    functions: Seq<(FunctionId, CFunctionPlan)>,
    anchors: Seq<(FunctionId, usize)>,
    slots: Seq<(FunctionId, u32)>,
) -> LayoutState {
    LayoutState { functions: order::entry_views(functions), anchors, slots }
}

/// Boxes one embedded child.
fn box_child(
    functions: &mut Vec<(FunctionId, CFunctionPlan)>,
    p: usize,
    q: usize,
    slot: u32,
    reason: CLayoutReason,
)
    requires
        p < old(functions)@.len(),
        q < old(functions)@[p as int].1.children@.len(),
    ensures
        order::entry_views(final(functions)@) == ({
            let views = order::entry_views(old(functions)@);
            let children = views[p as int].1.children;
            let child = ChildPlanView {
                effective_storage: CChildStorage::Boxed(TypedSlotId(slot)),
                downgrade_reason: Some(reason),
                ..children[q as int].1
            };
            views.update(
                p as int,
                (
                    views[p as int].0,
                    FunctionPlanView {
                        children: children.update(q as int, (children[q as int].0, child)),
                        ..views[p as int].1
                    },
                ),
            )
        }),
{
    let ghost before = functions@;
    let ghost views = order::entry_views(before);
    let ghost children = views[p as int].1.children;
    functions[p].1.children[q].1.effective_storage = CChildStorage::Boxed(TypedSlotId(slot));
    functions[p].1.children[q].1.downgrade_reason = Some(reason);
    proof {
        let child = ChildPlanView {
            effective_storage: CChildStorage::Boxed(TypedSlotId(slot)),
            downgrade_reason: Some(reason),
            ..children[q as int].1
        };
        assert(order::entry_views(functions@[p as int].1.children@) =~= children.update(
            q as int,
            (children[q as int].0, child),
        ));
        assert(order::entry_views(functions@) =~= views.update(
            p as int,
            (
                views[p as int].0,
                FunctionPlanView {
                    children: children.update(q as int, (children[q as int].0, child)),
                    ..views[p as int].1
                },
            ),
        ));
    }
}

/// Settles one embedded call and tells whether anything changed.
fn settle_one(
    functions: &mut Vec<(FunctionId, CFunctionPlan)>,
    anchors: &mut Vec<(FunctionId, usize)>,
    slots: &mut Vec<(FunctionId, u32)>,
    call: (FunctionId, ChildInstanceId, FunctionId),
    unit: &Vec<LivenessFunction>,
    positions: &Vec<(FunctionId, usize)>,
    env: &CDeclarationEnvironment,
) -> (changed: bool)
    requires
        state_ok(state_of(old(functions)@, old(anchors)@, old(slots)@)),
        order::lookup(order::entry_views(old(functions)@), call.0) is Some,
        order::lookup(order::entry_views(old(functions)@), call.2) is Some,
        forall|i: int|
            0 <= i < positions@.len() ==> (#[trigger] positions@[i]).1 < unit@.len(),
        order::ascending(positions@),
    ensures
        state_of(final(functions)@, final(anchors)@, final(slots)@) == settle_call(
            state_of(old(functions)@, old(anchors)@, old(slots)@),
            call,
            unit@,
            positions@,
            env@,
        ),
        !changed ==> state_of(final(functions)@, final(anchors)@, final(slots)@) == state_of(
            old(functions)@,
            old(anchors)@,
            old(slots)@,
        ),
        changed ==> state_of(final(functions)@, final(anchors)@, final(slots)@) != state_of(
            old(functions)@,
            old(anchors)@,
            old(slots)@,
        ),
{
    let ghost before = state_of(functions@, anchors@, slots@);
    let (caller, instance, callee) = call;
    proof {
        lookup_same_keys(before.functions, before.anchors, caller);
        lookup_same_keys(before.functions, before.anchors, callee);
        lookup_same_keys(before.functions, before.slots, caller);
        order::lookup_finds(positions@, callee);
    }
    let anchor: usize = match find_value(anchors, caller) {
        Some(anchor) => *anchor,
        None => 0,
    };
    let below: usize = match find_value(anchors, callee) {
        Some(anchor) => *anchor,
        None => 0,
    };
    let position: usize = match find_value(positions, callee) {
        Some(position) => *position,
        None => {
            return false;
        },
    };
    if below <= anchor {
        return false;
    }
    assert(position < unit@.len());
    let function = &unit[position];
    let types = task_layout_types(function);
    let block = env.classify_move(&types, function.coroutine.cfg.span.start_byte, anchor);
    match block {
        None => {
            put_value(anchors, callee, anchor);
            proof {
                let c = order::key_point(before.anchors, callee, 0);
                assert(anchors@[c].1 == anchor);
                assert(before.anchors[c].1 == below);
            }
            true
        },
        Some(block) => {
            proof {
                order::lookup_views(functions@, caller);
            }
            let p = match find_index(functions, caller) {
                Some(p) => p,
                None => {
                    return false;
                },
            };
            proof {
                order::key_point_views(functions@, caller, 0);
                order::key_point_views(functions@[p as int].1.children@, instance, 0);
                order::lookup_views(functions@[p as int].1.children@, instance);
            }
            let q = match find_index(&functions[p].1.children, instance) {
                Some(q) => q,
                None => {
                    return false;
                },
            };
            if embedded_callee_of(&functions[p].1.children[q].1).is_none() {
                return false;
            }
            let slot: u32 = match find_value(slots, caller) {
                Some(slot) => *slot,
                None => 0,
            };
            let reason = match block {
                DeclarationMoveBlock::TypeNotVisible => CLayoutReason::CompleteTypeNotVisible,
                DeclarationMoveBlock::PreprocessorBoundary => CLayoutReason::PreprocessorRegion,
            };
            proof {
                let children = before.functions[p as int].1.children;
                assert(before.functions[p as int].0 == before.slots[p as int].0);
                call_counted(
                    before.functions[p as int].0,
                    children,
                    q as int,
                    children.len() as int,
                );
            }
            box_child(functions, p, q, slot, reason);
            put_value(slots, caller, slot + 1);
            proof {
                let after = state_of(functions@, anchors@, slots@);
                assert(embedded_callee(after.functions[p as int].1.children[q as int].1) is None);
                assert(embedded_callee(before.functions[p as int].1.children[q as int].1) is Some);
            }
            true
        },
    }
}

/// An embedded child among the first `n` gives at least one call.
pub proof fn call_counted(
    caller: FunctionId,
    children: Seq<(ChildInstanceId, ChildPlanView)>,
    q: int,
    n: int,
)
    requires
        0 <= q < n <= children.len(),
        embedded_callee(children[q].1) is Some,
    ensures
        calls_in(caller, children, n).len() > 0,
    decreases n,
{
    if q < n - 1 {
        call_counted(caller, children, q, n - 1);
    }
}

fn first_boxed_slot(children: &Vec<(ChildInstanceId, CChildPlan)>) -> (r: u64)
    ensures
        r == next_boxed_slot(order::entry_views(children@), children@.len() as int),
{
    let ghost views = order::entry_views(children@);
    let mut next: u64 = 0;
    let mut c: usize = 0;
    while c < children.len()
        invariant
            c <= children@.len(),
            views == order::entry_views(children@),
            next == next_boxed_slot(views, c as int),
        decreases children@.len() - c,
    {
        assert(views[c as int].1 == children@[c as int].1@);
        if let CChildStorage::Boxed(slot) = children[c].1.effective_storage {
            let above: u64 = slot.0 as u64 + 1;
            if above > next {
                next = above;
            }
        }
        c += 1;
    }
    next
}

/// Moves layouts up to the callers that embed them, boxes the children whose
/// layout can't move, and returns the anchors of all layouts.
pub fn settle_layouts(
    functions: &mut Vec<(FunctionId, CFunctionPlan)>,
    unit: &Vec<LivenessFunction>,
    positions: &Vec<(FunctionId, usize)>,
    env: &CDeclarationEnvironment,
) -> (r: Vec<(FunctionId, usize)>)
    requires
        can_settle(order::entry_views(old(functions)@)),
        plans_ordered(order::entry_views(old(functions)@)),
        forall|i: int|
            0 <= i < positions@.len() ==> (#[trigger] positions@[i]).1 < unit@.len(),
        order::ascending(positions@),
    ensures
        exists|slots: Seq<(FunctionId, u32)>| #[trigger]
            settles_at(
                initial_state(order::entry_views(old(functions)@)),
                state_of(final(functions)@, r@, slots),
                unit@,
                positions@,
                env@,
            ),
        order::ascending(order::entry_views(final(functions)@)),
        callees_planned(order::entry_views(final(functions)@)),
        r@.len() == final(functions)@.len(),
        forall|i: int| 0 <= i < r@.len() ==> (#[trigger] r@[i]).0 == final(functions)@[i].0,
{
    let ghost views = order::entry_views(functions@);
    let ghost start = initial_state(views);
    let mut anchors: Vec<(FunctionId, usize)> = Vec::new();
    let mut slots: Vec<(FunctionId, u32)> = Vec::new();
    let mut i: usize = 0;
    while i < functions.len()
        invariant
            i <= functions@.len(),
            views == order::entry_views(functions@),
            can_settle(views),
            plans_ordered(views),
            start == initial_state(views),
            functions@ == old(functions)@,
            anchors@ =~= start.anchors.take(i as int),
            slots@ =~= start.slots.take(i as int),
        decreases functions@.len() - i,
    {
        assert(views[i as int] == (functions@[i as int].0, functions@[i as int].1@));
        let next = first_boxed_slot(&functions[i].1.children);
        anchors.push((functions[i].0, functions[i].1.source_start));
        slots.push((functions[i].0, next as u32));
        i += 1;
    }
    proof {
        initial_state_ok(views);
        assert(anchors@ =~= start.anchors);
        assert(slots@ =~= start.slots);
        assert(state_of(functions@, anchors@, slots@) =~= start);
        assert(start == settle_passes(start, unit@, positions@, env@, 0));
    }
    let ghost mut passes: nat = 0;
    let mut changed = true;
    while changed
        invariant
            state_ok(state_of(functions@, anchors@, slots@)),
            forall|i: int|
                0 <= i < positions@.len() ==> (#[trigger] positions@[i]).1 < unit@.len(),
            order::ascending(positions@),
            state_of(functions@, anchors@, slots@) == settle_passes(
                start,
                unit@,
                positions@,
                env@,
                passes,
            ),
            !changed ==> settle_pass(
                state_of(functions@, anchors@, slots@),
                unit@,
                positions@,
                env@,
            ) == state_of(functions@, anchors@, slots@),
        decreases
                embedded_calls(
                    order::entry_views(functions@),
                    order::entry_views(functions@).len() as int,
                ).len(),
                anchor_sum(anchors@),
                changed as int,
    {
        let ghost before = state_of(functions@, anchors@, slots@);
        let ghost before_count = embedded_calls(
            before.functions,
            before.functions.len() as int,
        ).len();
        changed = false;
        let calls = order_embedded(functions);
        let mut n: usize = 0;
        while n < calls.len()
            invariant
                n <= calls@.len(),
                calls@ == ordered_embedded(before.functions),
                forall|i: int|
                    0 <= i < calls@.len() ==> order::lookup(
                        before.functions,
                        (#[trigger] calls@[i]).0,
                    ) is Some && order::lookup(before.functions, calls@[i].2) is Some,
                forall|i: int|
                    0 <= i < positions@.len() ==> (#[trigger] positions@[i]).1 < unit@.len(),
                order::ascending(positions@),
                order::ascending(before.functions),
                state_ok(state_of(functions@, anchors@, slots@)),
                functions@.len() == before.functions.len(),
                forall|i: int|
                    0 <= i < before.functions.len() ==> (#[trigger] before.functions[i]).0
                        == order::entry_views(functions@)[i].0,
                state_of(functions@, anchors@, slots@) == settle_calls(
                    before,
                    calls@,
                    unit@,
                    positions@,
                    env@,
                    n as int,
                ),
                !changed ==> state_of(functions@, anchors@, slots@) == before,
                before_count == embedded_calls(
                    before.functions,
                    before.functions.len() as int,
                ).len(),
                embedded_calls(
                    order::entry_views(functions@),
                    order::entry_views(functions@).len() as int,
                ).len() <= before_count,
                anchor_sum(anchors@) <= anchor_sum(before.anchors),
                changed ==> embedded_calls(
                    order::entry_views(functions@),
                    order::entry_views(functions@).len() as int,
                ).len() < before_count || anchor_sum(anchors@) < anchor_sum(before.anchors),
            decreases calls@.len() - n,
        {
            let ghost state = state_of(functions@, anchors@, slots@);
            let call = calls[n];
            proof {
                lookup_same_keys(before.functions, state.functions, call.0);
                lookup_same_keys(before.functions, state.functions, call.2);
                settle_call_progress(state, call, unit@, positions@, env@);
            }
            let moved = settle_one(
                functions,
                &mut anchors,
                &mut slots,
                call,
                unit,
                positions,
                env,
            );
            if moved {
                changed = true;
            }
            n += 1;
        }
        proof {
            passes = passes + 1;
        }
    }
    proof {
        let end = state_of(functions@, anchors@, slots@);
        assert forall|i: int| 0 <= i < anchors@.len() implies (#[trigger] anchors@[i]).0
            == functions@[i].0 by {
            assert(end.functions[i].0 == end.anchors[i].0);
        }
        assert(settles_at(
            start,
            state_of(functions@, anchors@, slots@),
            unit@,
            positions@,
            env@,
        ));
    }
    anchors
}

/// The members that the first `n` children of a function embed, in ascending
/// order.
pub open spec fn embedded_members(
    children: Seq<(ChildInstanceId, ChildPlanView)>,
    members: Seq<FunctionId>,
    n: int,
) -> Seq<FunctionId>
    decreases n,
{
    if n <= 0 {
        Seq::empty()
    } else {
        let before = embedded_members(children, members, n - 1);
        match embedded_callee(children[n - 1].1) {
            Some(callee) => if members.contains(callee) {
                order::with_key(before, callee, 0)
            } else {
                before
            },
            None => before,
        }
    }
}

/// The members whose layouts the layout of `function` holds.
pub open spec fn parts_of(
    functions: Seq<(FunctionId, FunctionPlanView)>,
    members: Seq<FunctionId>,
    function: FunctionId,
) -> Seq<FunctionId> {
    match order::lookup(functions, function) {
        Some(plan) => embedded_members(plan.children, members, plan.children.len() as int),
        None => Seq::empty(),
    }
}

/// How many members are not being visited.
pub open spec fn room(members: Seq<FunctionId>, visiting: Seq<FunctionId>) -> nat {
    members.to_set().difference(visiting.to_set()).len()
}

/// Visiting one more member leaves fewer members.
pub proof fn room_shrinks(members: Seq<FunctionId>, visiting: Seq<FunctionId>, function: FunctionId)
    requires
        members.contains(function),
        !visiting.contains(function),
    ensures
        room(members, visiting.push(function)) < room(members, visiting),
{
    let all = members.to_set();
    let left = all.difference(visiting.to_set());
    vstd::seq_lib::seq_to_set_is_finite(members);
    vstd::set_lib::lemma_len_subset(left, all);
    assert(left.contains(function));
    assert(visiting.push(function).to_set() =~= visiting.to_set().insert(function)) by {
        assert forall|x: FunctionId| visiting.to_set().insert(function).contains(
            x,
        ) implies visiting.push(function).contains(x) by {
            if x == function {
                assert(visiting.push(function)[visiting.len() as int] == function);
            } else {
                let k = choose|k: int| 0 <= k < visiting.len() && visiting[k] == x;
                assert(visiting.push(function)[k] == x);
            }
        }
    }
    assert(all.difference(visiting.push(function).to_set()) =~= left.remove(function));
}

/// The layouts in order after `function` was visited: its parts first, then
/// the function itself.
pub open spec fn visit_layout(
    function: FunctionId,
    members: Seq<FunctionId>,
    functions: Seq<(FunctionId, FunctionPlanView)>,
    visiting: Seq<FunctionId>,
    output: Seq<FunctionId>,
) -> Seq<FunctionId>
    decreases room(members, visiting), 0int,
{
    if output.contains(function) || visiting.contains(function) || !members.contains(function) {
        output
    } else {
        proof {
            room_shrinks(members, visiting, function);
        }
        let parts = parts_of(functions, members, function);
        visit_layouts(
            parts,
            members,
            functions,
            visiting.push(function),
            output,
            parts.len() as int,
        ).push(function)
    }
}

/// The layouts in order after the first `n` functions of a list were visited.
pub open spec fn visit_layouts(
    list: Seq<FunctionId>,
    members: Seq<FunctionId>,
    functions: Seq<(FunctionId, FunctionPlanView)>,
    visiting: Seq<FunctionId>,
    output: Seq<FunctionId>,
    n: int,
) -> Seq<FunctionId>
    decreases room(members, visiting), n,
{
    if n <= 0 {
        output
    } else {
        visit_layout(
            list[n - 1],
            members,
            functions,
            visiting,
            visit_layouts(list, members, functions, visiting, output, n - 1),
        )
    }
}

/// The members of an island in the order in which their layouts are complete.
pub open spec fn layout_order(
    members: Seq<FunctionId>,
    functions: Seq<(FunctionId, FunctionPlanView)>,
) -> Seq<FunctionId> {
    visit_layouts(
        members,
        members,
        functions,
        Seq::empty(),
        Seq::empty(),
        members.len() as int,
    )
}

fn collect_parts(
    functions: &Vec<(FunctionId, CFunctionPlan)>,
    members: &Vec<FunctionId>,
    function: FunctionId,
) -> (r: Vec<FunctionId>)
    ensures
        r@ == parts_of(order::entry_views(functions@), members@, function),
{
    proof {
        order::lookup_views(functions@, function);
    }
    let mut parts: Vec<FunctionId> = Vec::new();
    if let Some(plan) = find_value(functions, function) {
        let ghost children = plan@.children;
        let mut c: usize = 0;
        while c < plan.children.len()
            invariant
                c <= plan.children@.len(),
                children == order::entry_views(plan.children@),
                parts@ == embedded_members(children, members@, c as int),
            decreases plan.children@.len() - c,
        {
            assert(children[c as int].1 == plan.children@[c as int].1@);
            if let Some(callee) = embedded_callee_of(&plan.children[c].1) {
                if has_key(members, callee) {
                    add_key(&mut parts, callee);
                }
            }
            c += 1;
        }
    }
    parts
}

fn visit(
    function: FunctionId,
    members: &Vec<FunctionId>,
    functions: &Vec<(FunctionId, CFunctionPlan)>,
    visiting: &mut Vec<FunctionId>,
    output: &mut Vec<FunctionId>,
)
    ensures
        final(visiting)@ == old(visiting)@,
        final(output)@ == visit_layout(
            function,
            members@,
            order::entry_views(functions@),
            old(visiting)@,
            old(output)@,
        ),
    decreases room(members@, old(visiting)@),
{
    if has_key(output, function) || has_key(visiting, function) || !has_key(members, function) {
        return;
    }
    proof {
        room_shrinks(members@, visiting@, function);
    }
    let ghost before = visiting@;
    let ghost start = output@;
    let parts = collect_parts(functions, members, function);
    visiting.push(function);
    let mut i: usize = 0;
    while i < parts.len()
        invariant
            i <= parts@.len(),
            visiting@ == before.push(function),
            room(members@, visiting@) < room(members@, before),
            before == old(visiting)@,
            output@ == visit_layouts(
                parts@,
                members@,
                order::entry_views(functions@),
                visiting@,
                start,
                i as int,
            ),
        decreases parts@.len() - i,
    {
        visit(parts[i], members, functions, visiting, output);
        i += 1;
    }
    visiting.pop();
    assert(visiting@ =~= before);
    output.push(function);
}

/// Lists the members of an island so that the parts of a layout come first.
fn topological_layout_order(
    members: &Vec<FunctionId>,
    functions: &Vec<(FunctionId, CFunctionPlan)>,
) -> (r: Vec<FunctionId>)
    ensures
        r@ == layout_order(members@, order::entry_views(functions@)),
{
    let mut visiting: Vec<FunctionId> = Vec::new();
    let mut output: Vec<FunctionId> = Vec::new();
    let mut i: usize = 0;
    while i < members.len()
        invariant
            i <= members@.len(),
            visiting@ == Seq::<FunctionId>::empty(),
            output@ == visit_layouts(
                members@,
                members@,
                order::entry_views(functions@),
                Seq::empty(),
                Seq::empty(),
                i as int,
            ),
        decreases members@.len() - i,
    {
        visit(members[i], members, functions, &mut visiting, &mut output);
        i += 1;
    }
    output
}

/// The anchors of the first `n` layouts, in ascending order.
pub open spec fn island_anchors(anchors: Seq<(FunctionId, usize)>, n: int) -> Seq<usize>
    decreases n,
{
    if n <= 0 {
        Seq::empty()
    } else {
        order::with_key(island_anchors(anchors, n - 1), anchors[n - 1].1, 0)
    }
}

/// The functions among the first `n` whose layouts stand at `anchor`.
pub open spec fn island_members(
    anchors: Seq<(FunctionId, usize)>,
    anchor: usize,
    n: int,
) -> Seq<FunctionId>
    decreases n,
{
    if n <= 0 {
        Seq::empty()
    } else if anchors[n - 1].1 == anchor {
        island_members(anchors, anchor, n - 1).push(anchors[n - 1].0)
    } else {
        island_members(anchors, anchor, n - 1)
    }
}

/// The islands of a unit: the layouts at every anchor, in order.
pub open spec fn islands_of(
    functions: Seq<(FunctionId, FunctionPlanView)>,
    anchors: Seq<(FunctionId, usize)>,
) -> Seq<IslandView> {
    let places = island_anchors(anchors, anchors.len() as int);
    Seq::new(
        places.len(),
        |i: int|
            IslandView {
                anchor: places[i],
                layouts: layout_order(
                    island_members(anchors, places[i], anchors.len() as int),
                    functions,
                ),
            },
    )
}

/// Groups the layouts by their anchors.
pub fn build_islands(
    functions: &Vec<(FunctionId, CFunctionPlan)>,
    anchors: &Vec<(FunctionId, usize)>,
) -> (r: Vec<LayoutIsland>)
    ensures
        syntax::views(r@) == islands_of(order::entry_views(functions@), anchors@),
{
    let ghost views = order::entry_views(functions@);
    let mut places: Vec<usize> = Vec::new();
    let mut i: usize = 0;
    while i < anchors.len()
        invariant
            i <= anchors@.len(),
            places@ == island_anchors(anchors@, i as int),
        decreases anchors@.len() - i,
    {
        add_key(&mut places, anchors[i].1);
        i += 1;
    }
    let mut islands: Vec<LayoutIsland> = Vec::new();
    let mut p: usize = 0;
    while p < places.len()
        invariant
            p <= places@.len(),
            views == order::entry_views(functions@),
            places@ == island_anchors(anchors@, anchors@.len() as int),
            syntax::views(islands@) =~= islands_of(views, anchors@).take(p as int),
        decreases places@.len() - p,
    {
        let anchor: usize = places[p];
        let mut members: Vec<FunctionId> = Vec::new();
        let mut a: usize = 0;
        while a < anchors.len()
            invariant
                a <= anchors@.len(),
                members@ == island_members(anchors@, anchor, a as int),
            decreases anchors@.len() - a,
        {
            if anchors[a].1 == anchor {
                members.push(anchors[a].0);
            }
            a += 1;
        }
        let island = LayoutIsland { anchor, layouts: topological_layout_order(&members, functions) };
        proof {
            syntax::views_push(islands@, island);
        }
        islands.push(island);
        p += 1;
    }
    islands
}

/// The number of embedded calls of a state.
pub open spec fn call_count(state: LayoutState) -> nat {
    embedded_calls(state.functions, state.functions.len() as int).len()
}

/// Whether two states plan the same functions.
pub open spec fn same_functions(a: LayoutState, b: LayoutState) -> bool {
    a.functions.len() == b.functions.len() && forall|i: int|
        0 <= i < a.functions.len() ==> (#[trigger] a.functions[i]).0 == b.functions[i].0
}

/// A pass keeps the state in order and never adds an embedded call or moves a
/// layout down. When its calls leave the state unchanged in the end, none of
/// them changed it.
pub proof fn settle_calls_progress(
    state: LayoutState,
    calls: Seq<(FunctionId, ChildInstanceId, FunctionId)>,
    unit: Seq<LivenessFunction>,
    positions: Seq<(FunctionId, usize)>,
    env: EnvironmentView,
    n: int,
)
    requires
        state_ok(state),
        0 <= n <= calls.len(),
        forall|i: int|
            0 <= i < calls.len() ==> order::lookup(state.functions, (#[trigger] calls[i]).0) is Some
                && order::lookup(state.functions, calls[i].2) is Some,
    ensures
        ({
            let after = settle_calls(state, calls, unit, positions, env, n);
            &&& state_ok(after)
            &&& same_functions(state, after)
            &&& call_count(after) <= call_count(state)
            &&& anchor_sum(after.anchors) <= anchor_sum(state.anchors)
            &&& after == state || call_count(after) < call_count(state) || anchor_sum(
                after.anchors,
            ) < anchor_sum(state.anchors)
            &&& after == state ==> forall|i: int|
                0 <= i < n ==> settle_call(state, #[trigger] calls[i], unit, positions, env)
                    == state
        }),
    decreases n,
{
    if n > 0 {
        settle_calls_progress(state, calls, unit, positions, env, n - 1);
        let before = settle_calls(state, calls, unit, positions, env, n - 1);
        let call = calls[n - 1];
        lookup_same_keys(state.functions, before.functions, call.0);
        lookup_same_keys(state.functions, before.functions, call.2);
        settle_call_progress(before, call, unit, positions, env);
    }
}

/// The calls in settling order are the embedded calls, and their ends are
/// planned.
pub proof fn ordered_embedded_calls(functions: Seq<(FunctionId, FunctionPlanView)>)
    requires
        order::ascending(functions),
        callees_planned(functions),
    ensures
        forall|i: int|
            0 <= i < ordered_embedded(functions).len() ==> order::lookup(
                functions,
                (#[trigger] ordered_embedded(functions)[i]).0,
            ) is Some && order::lookup(functions, ordered_embedded(functions)[i].2) is Some,
        forall|k: int|
            0 <= k < embedded_calls(functions, functions.len() as int).len()
                ==> ordered_embedded(functions).contains(
                #[trigger] embedded_calls(functions, functions.len() as int)[k],
            ),
{
    let calls = embedded_calls(functions, functions.len() as int);
    let keys = embedded_keys(functions, calls);
    let places = order::stable_order(keys, keys.len() as int);
    let sorted = ordered_embedded(functions);
    order::stable_order_sorts(keys, keys.len() as int);
    assert forall|i: int| 0 <= i < sorted.len() implies order::lookup(
        functions,
        (#[trigger] sorted[i]).0,
    ) is Some && order::lookup(functions, sorted[i].2) is Some by {
        embedded_call_ends(functions, places[i]);
    }
    assert forall|k: int| 0 <= k < calls.len() implies sorted.contains(#[trigger] calls[k]) by {
        assert(places.contains(k));
        let j = choose|j: int| 0 <= j < places.len() && places[j] == k;
        assert(sorted[j] == calls[k]);
    }
}

/// Passes keep the state in order and never add an embedded call.
pub proof fn passes_keep_order(
    start: LayoutState,
    unit: Seq<LivenessFunction>,
    positions: Seq<(FunctionId, usize)>,
    env: EnvironmentView,
    n: nat,
)
    requires
        state_ok(start),
    ensures
        state_ok(settle_passes(start, unit, positions, env, n)),
        same_functions(start, settle_passes(start, unit, positions, env, n)),
        call_count(settle_passes(start, unit, positions, env, n)) <= call_count(start),
    decreases n,
{
    if n > 0 {
        passes_keep_order(start, unit, positions, env, (n - 1) as nat);
        let before = settle_passes(start, unit, positions, env, (n - 1) as nat);
        ordered_embedded_calls(before.functions);
        let calls = ordered_embedded(before.functions);
        settle_calls_progress(before, calls, unit, positions, env, calls.len() as int);
    }
}

/// Where layouts come to rest, the layout of an embedded callee never stands
/// below the layout of its caller.
pub proof fn settled_callees_stand_above(
    start: LayoutState,
    end: LayoutState,
    unit: Seq<LivenessFunction>,
    positions: Seq<(FunctionId, usize)>,
    env: EnvironmentView,
    i: int,
)
    requires
        state_ok(start),
        settles_at(start, end, unit, positions, env),
        forall|f: int|
            0 <= f < start.functions.len() ==> order::lookup(
                positions,
                (#[trigger] start.functions[f]).0,
            ) is Some,
        0 <= i < embedded_calls(end.functions, end.functions.len() as int).len(),
    ensures
        ({
            let call = embedded_calls(end.functions, end.functions.len() as int)[i];
            &&& order::lookup(end.anchors, call.0) is Some
            &&& order::lookup(end.anchors, call.2) is Some
            &&& order::lookup(end.anchors, call.2)->0 <= order::lookup(end.anchors, call.0)->0
        }),
{
    let n = choose|n: nat| end == #[trigger] settle_passes(start, unit, positions, env, n);
    passes_keep_order(start, unit, positions, env, n);
    ordered_embedded_calls(end.functions);
    let calls = ordered_embedded(end.functions);
    settle_calls_progress(end, calls, unit, positions, env, calls.len() as int);
    let call = embedded_calls(end.functions, end.functions.len() as int)[i];
    assert(calls.contains(call));
    let k = choose|k: int| 0 <= k < calls.len() && calls[k] == call;
    assert(settle_call(end, calls[k], unit, positions, env) == end);
    embedded_call_ends(end.functions, i);
    lookup_same_keys(end.functions, end.anchors, call.0);
    lookup_same_keys(end.functions, end.anchors, call.2);
    lookup_same_keys(end.functions, end.slots, call.0);
    let p = order::key_point(end.functions, call.0, 0);
    let c = order::key_point(end.functions, call.2, 0);
    assert(start.functions[c].0 == end.functions[c].0);
    assert(order::lookup(positions, call.2) is Some);
    let (f, child) = embedded_call_source(end.functions, end.functions.len() as int, i);
    order::lookup_finds(end.functions, call.0);
    assert(end.functions[f].0 == call.0);
    assert(order::lookup(end.functions, call.0) == Some(end.functions[f].1));
    let children = end.functions[f].1.children;
    assert(end.functions[f].0 == end.anchors[f].0);
    order::lookup_finds(children, call.1);
    assert(children[child].0 == call.1);
    assert(child_at(end.functions, call.0, call.1) == Some(children[child].1));
    if order::lookup(end.anchors, call.2)->0 > order::lookup(end.anchors, call.0)->0 {
        let anchor = order::lookup(end.anchors, call.0)->0;
        let position = order::lookup(positions, call.2)->0;
        let function = unit[position as int];
        let after = settle_call(end, call, unit, positions, env);
        match c_declaration_env::move_block(
            env,
            c_static_plan::context_types(function),
            function.coroutine.cfg.span.start_byte,
            anchor,
        ) {
            Some(block) => {
                let q = order::key_point(children, call.1, 0);
                order::key_point_bounds(children, call.1, 0);
                assert(p == f) by {
                    if p < f {
                        assert(end.functions[p].0.rank_spec() < end.functions[f].0.rank_spec());
                    } else if f < p {
                        assert(end.functions[f].0.rank_spec() < end.functions[p].0.rank_spec());
                    }
                }
                assert(embedded_callee(after.functions[p].1.children[q].1) is None);
                assert(embedded_callee(children[q].1) is Some);
            },
            None => {
                assert(after.anchors[c].1 == anchor);
            },
        }
    }
}

/// The pairs of functions of which the layout of the first holds that of the
/// second.
pub open spec fn part_pairs(functions: Seq<(FunctionId, FunctionPlanView)>) -> Seq<
    (FunctionId, FunctionId),
> {
    let calls = embedded_calls(functions, functions.len() as int);
    Seq::new(calls.len(), |i: int| (calls[i].0, calls[i].2))
}

/// Whether every function in `output` comes after its parts.
pub open spec fn parts_first(
    functions: Seq<(FunctionId, FunctionPlanView)>,
    members: Seq<FunctionId>,
    output: Seq<FunctionId>,
) -> bool {
    forall|i: int, part: FunctionId|
        0 <= i < output.len() && #[trigger] parts_of(
            functions,
            members,
            output[i],
        ).contains(part) ==> output.take(i).contains(part)
}

proof fn embedded_members_found(
    children: Seq<(ChildInstanceId, ChildPlanView)>,
    members: Seq<FunctionId>,
    n: int,
)
    requires
        0 <= n <= children.len(),
    ensures
        order::keys_ascending(embedded_members(children, members, n)),
        forall|x: FunctionId| #[trigger]
            embedded_members(children, members, n).contains(x) ==> members.contains(x) && exists|
                c: int,
            |
                0 <= c < n && embedded_callee((#[trigger] children[c]).1) == Some(x),
    decreases n,
{
    if n > 0 {
        embedded_members_found(children, members, n - 1);
        let before = embedded_members(children, members, n - 1);
        if let Some(callee) = embedded_callee(children[n - 1].1) {
            if members.contains(callee) {
                order::with_key_ascending(before, callee, 0);
            }
        }
        assert forall|x: FunctionId| #[trigger]
            embedded_members(children, members, n).contains(x) implies members.contains(x)
            && exists|c: int|
            0 <= c < n && embedded_callee((#[trigger] children[c]).1) == Some(x) by {
            if before.contains(x) {
                let c = choose|c: int|
                    0 <= c < n - 1 && embedded_callee((#[trigger] children[c]).1) == Some(x);
                assert(embedded_callee(children[c].1) == Some(x));
            } else {
                assert(embedded_callee(children[n - 1].1) == Some(x));
            }
        }
    }
}

proof fn call_in_present(
    caller: FunctionId,
    children: Seq<(ChildInstanceId, ChildPlanView)>,
    n: int,
    c: int,
) -> (i: int)
    requires
        0 <= c < n <= children.len(),
        embedded_callee(children[c].1) is Some,
    ensures
        0 <= i < calls_in(caller, children, n).len(),
        calls_in(caller, children, n)[i].0 == caller,
        Some(calls_in(caller, children, n)[i].2) == embedded_callee(children[c].1),
    decreases n,
{
    if c == n - 1 {
        calls_in(caller, children, n - 1).len() as int
    } else {
        call_in_present(caller, children, n - 1, c)
    }
}

proof fn embedded_call_present(
    functions: Seq<(FunctionId, FunctionPlanView)>,
    n: int,
    f: int,
    c: int,
) -> (i: int)
    requires
        0 <= f < n <= functions.len(),
        0 <= c < functions[f].1.children.len(),
        embedded_callee(functions[f].1.children[c].1) is Some,
    ensures
        0 <= i < embedded_calls(functions, n).len(),
        embedded_calls(functions, n)[i].0 == functions[f].0,
        Some(embedded_calls(functions, n)[i].2) == embedded_callee(functions[f].1.children[c].1),
    decreases n,
{
    let before = embedded_calls(functions, n - 1);
    if f == n - 1 {
        let children = functions[f].1.children;
        let i = call_in_present(functions[f].0, children, children.len() as int, c);
        before.len() + i
    } else {
        embedded_call_present(functions, n - 1, f, c)
    }
}

/// A part of a layout is a member, and the two form a pair.
proof fn part_is_pair(
    functions: Seq<(FunctionId, FunctionPlanView)>,
    members: Seq<FunctionId>,
    function: FunctionId,
    part: FunctionId,
)
    requires
        order::ascending(functions),
        parts_of(functions, members, function).contains(part),
    ensures
        members.contains(part),
        graph::reaches(part_pairs(functions), function, part),
        exists|i: int|
            0 <= i < part_pairs(functions).len() && #[trigger] part_pairs(functions)[i] == (
                function,
                part,
            ),
{
    let plan = order::lookup(functions, function)->0;
    embedded_members_found(plan.children, members, plan.children.len() as int);
    let c = choose|c: int|
        0 <= c < plan.children.len() && embedded_callee((#[trigger] plan.children[c]).1) == Some(
            part,
        );
    order::lookup_finds(functions, function);
    let f = choose|f: int| 0 <= f < functions.len() && functions[f] == (function, plan);
    let i = embedded_call_present(functions, functions.len() as int, f, c);
    assert(part_pairs(functions)[i] == (function, part));
    graph::reaches_edge(part_pairs(functions), i);
}

spec fn is_prefix(a: Seq<FunctionId>, b: Seq<FunctionId>) -> bool {
    a.len() <= b.len() && b.take(a.len() as int) == a
}

spec fn visit_good(
    members: Seq<FunctionId>,
    functions: Seq<(FunctionId, FunctionPlanView)>,
    visiting: Seq<FunctionId>,
    output: Seq<FunctionId>,
) -> bool {
    &&& parts_first(functions, members, output)
    &&& output.no_duplicates()
    &&& forall|x: FunctionId| #[trigger] output.contains(x) ==> members.contains(x)
    &&& forall|x: FunctionId| #[trigger] visiting.contains(x) ==> !output.contains(x)
}

proof fn visit_layout_ordered(
    function: FunctionId,
    members: Seq<FunctionId>,
    functions: Seq<(FunctionId, FunctionPlanView)>,
    visiting: Seq<FunctionId>,
    output: Seq<FunctionId>,
)
    requires
        order::ascending(functions),
        graph::acyclic(part_pairs(functions)),
        visit_good(members, functions, visiting, output),
        forall|v: FunctionId| #[trigger]
            visiting.contains(v) ==> graph::reaches(part_pairs(functions), v, function),
        members.contains(function),
        !visiting.contains(function),
    ensures
        ({
            let after = visit_layout(function, members, functions, visiting, output);
            &&& visit_good(members, functions, visiting, after)
            &&& is_prefix(output, after)
            &&& after.contains(function)
        }),
    decreases room(members, visiting), 0int,
{
    let after = visit_layout(function, members, functions, visiting, output);
    if output.contains(function) {
        assert(output.take(output.len() as int) =~= output);
    } else {
        room_shrinks(members, visiting, function);
        let parts = parts_of(functions, members, function);
        let deeper = visiting.push(function);
        assert forall|v: FunctionId| #[trigger] deeper.contains(v) implies graph::reaches(
            part_pairs(functions),
            v,
            function,
        ) && !output.contains(v) by {
            let k = choose|k: int| 0 <= k < deeper.len() && deeper[k] == v;
            if k < visiting.len() {
                assert(visiting[k] == v);
                assert(visiting.contains(v));
            } else {
                graph::reaches_self(part_pairs(functions), function);
            }
        }
        visit_layouts_ordered(
            function,
            members,
            functions,
            deeper,
            output,
            parts.len() as int,
        );
        let inner = visit_layouts(
            parts,
            members,
            functions,
            deeper,
            output,
            parts.len() as int,
        );
        assert(after == inner.push(function));
        assert(deeper[visiting.len() as int] == function);
        assert(deeper.contains(function));
        assert(!inner.contains(function));
        assert forall|i: int, part: FunctionId|
            0 <= i < after.len() && #[trigger] parts_of(functions, members, after[i]).contains(
                part,
            ) implies after.take(i).contains(part) by {
            if i < inner.len() {
                assert(after[i] == inner[i]);
                assert(after.take(i) =~= inner.take(i));
            } else {
                assert(after.take(i) =~= inner);
            }
        }
        assert forall|x: FunctionId| #[trigger] after.contains(x) implies members.contains(x) by {
            let k = choose|k: int| 0 <= k < after.len() && after[k] == x;
            if k < inner.len() {
                assert(inner[k] == x);
                assert(inner.contains(x));
            }
        }
        assert forall|x: FunctionId| #[trigger] visiting.contains(x) implies !after.contains(x) by {
            let j = choose|j: int| 0 <= j < visiting.len() && visiting[j] == x;
            assert(deeper[j] == x);
            assert(deeper.contains(x));
            if after.contains(x) {
                let k = choose|k: int| 0 <= k < after.len() && after[k] == x;
                if k < inner.len() {
                    assert(inner[k] == x);
                    assert(inner.contains(x));
                }
            }
        }
        assert(after.take(output.len() as int) =~= inner.take(output.len() as int));
        assert(after[inner.len() as int] == function);
        assert(after.no_duplicates());
    }
}

proof fn visit_layouts_ordered(
    function: FunctionId,
    members: Seq<FunctionId>,
    functions: Seq<(FunctionId, FunctionPlanView)>,
    visiting: Seq<FunctionId>,
    output: Seq<FunctionId>,
    n: int,
)
    requires
        order::ascending(functions),
        graph::acyclic(part_pairs(functions)),
        visit_good(members, functions, visiting, output),
        forall|v: FunctionId| #[trigger]
            visiting.contains(v) ==> graph::reaches(part_pairs(functions), v, function),
        0 <= n <= parts_of(functions, members, function).len(),
    ensures
        ({
            let parts = parts_of(functions, members, function);
            let after = visit_layouts(parts, members, functions, visiting, output, n);
            &&& visit_good(members, functions, visiting, after)
            &&& is_prefix(output, after)
            &&& forall|i: int| 0 <= i < n ==> after.contains(#[trigger] parts[i])
        }),
    decreases room(members, visiting), n,
{
    let parts = parts_of(functions, members, function);
    let pairs = part_pairs(functions);
    if n > 0 {
        visit_layouts_ordered(function, members, functions, visiting, output, n - 1);
        let before = visit_layouts(parts, members, functions, visiting, output, n - 1);
        let after = visit_layouts(parts, members, functions, visiting, output, n);
        let part = parts[n - 1];
        assert(parts.contains(part));
        part_is_pair(functions, members, function, part);
        let k = choose|k: int| 0 <= k < pairs.len() && #[trigger] pairs[k] == (function, part);
        assert(!graph::reaches(pairs, pairs[k].1, pairs[k].0));
        assert(!visiting.contains(part));
        assert forall|v: FunctionId| #[trigger] visiting.contains(v) implies graph::reaches(
            pairs,
            v,
            part,
        ) by {
            graph::reaches_transitive(pairs, v, function, part);
        }
        visit_layout_ordered(part, members, functions, visiting, before);
        assert(after.take(output.len() as int) =~= before.take(output.len() as int)) by {
            assert(after.take(before.len() as int) == before);
        }
        assert forall|i: int| 0 <= i < n implies after.contains(#[trigger] parts[i]) by {
            if i < n - 1 {
                let j = choose|j: int| 0 <= j < before.len() && before[j] == parts[i];
                assert(after.take(before.len() as int)[j] == before[j]);
                assert(after[j] == parts[i]);
            }
        }
    } else {
        assert(output.take(output.len() as int) =~= output);
    }
}

proof fn roots_ordered(
    members: Seq<FunctionId>,
    functions: Seq<(FunctionId, FunctionPlanView)>,
    n: int,
)
    requires
        order::ascending(functions),
        graph::acyclic(part_pairs(functions)),
        0 <= n <= members.len(),
    ensures
        ({
            let after = visit_layouts(
                members,
                members,
                functions,
                Seq::empty(),
                Seq::empty(),
                n,
            );
            &&& visit_good(members, functions, Seq::empty(), after)
            &&& forall|i: int| 0 <= i < n ==> after.contains(#[trigger] members[i])
        }),
    decreases n,
{
    let none = Seq::<FunctionId>::empty();
    if n > 0 {
        roots_ordered(members, functions, n - 1);
        let before = visit_layouts(members, members, functions, none, none, n - 1);
        let after = visit_layouts(members, members, functions, none, none, n);
        assert(members.contains(members[n - 1]));
        visit_layout_ordered(members[n - 1], members, functions, none, before);
        assert forall|i: int| 0 <= i < n implies after.contains(#[trigger] members[i]) by {
            if i < n - 1 {
                let j = choose|j: int| 0 <= j < before.len() && before[j] == members[i];
                assert(after.take(before.len() as int)[j] == before[j]);
                assert(after[j] == members[i]);
            }
        }
    }
}

/// An island lists each of its members once, and every layout after the
/// layouts that it holds.
pub proof fn layouts_follow_their_parts(
    members: Seq<FunctionId>,
    functions: Seq<(FunctionId, FunctionPlanView)>,
)
    requires
        order::ascending(functions),
        graph::acyclic(part_pairs(functions)),
    ensures
        parts_first(functions, members, layout_order(members, functions)),
        layout_order(members, functions).no_duplicates(),
        forall|x: FunctionId| #[trigger]
            layout_order(members, functions).contains(x) <==> members.contains(x),
{
    roots_ordered(members, functions, members.len() as int);
    let after = layout_order(members, functions);
    assert forall|x: FunctionId| members.contains(x) implies #[trigger] after.contains(x) by {
        let i = choose|i: int| 0 <= i < members.len() && members[i] == x;
        assert(after.contains(members[i]));
    }
}

} // verus!
