//! What holds of where awaited children live and of when storage is needed.

use vstd::prelude::*;

use crate::await_graph::StaticCallEdge;
use crate::await_plan::{AwaitEdge, AwaitStorage, AwaitTarget, ChildInstance, ChildInstanceId};
use crate::await_storage;
use crate::c_static_plan;
use crate::c_static_plan::{CChildStorage, ChildTargetView, FunctionPlanView};
use crate::context_layout::LogicalFieldId;
use crate::graph;
use crate::liveness::LivenessFunction;
use crate::semantic::{AwaitSlotId, DeclarationId};
use crate::slot_liveness;
use crate::slot_liveness::{LogicalStorage, ProgramPoint, SlotLivenessFunction};
use crate::storage_lifetimes;
use crate::storage_lifetimes::SizeLifetime;
use crate::symbol_index;
use crate::symbol_index::{AsyncSymbol, AsyncSymbolIndex, FunctionId, LayoutVisibility};

verus! {

/// Whether a lifted declaration may share its storage: nothing but the code of
/// its scope can see it.
pub open spec fn unseen(function: LivenessFunction, i: int) -> bool {
    let field = function.lifted_fields@[i];
    !(field.is_parameter || field.is_task || field.address_taken || field.cleanup_retained
        || field.volatile_or_atomic)
}

proof fn first_lifted(function: LivenessFunction, declaration: DeclarationId, i: int, k: int)
    requires
        0 <= i <= k < function.lifted_fields@.len(),
        function.lifted_fields@[k].declaration == declaration,
        forall|j: int|
            i <= j < k ==> (#[trigger] function.lifted_fields@[j]).declaration != declaration,
    ensures
        storage_lifetimes::lifted_at(function.lifted_fields@, declaration, i) == Some(k),
    decreases k - i,
{
    if i < k {
        first_lifted(function, declaration, i + 1, k);
    }
}

/// Storage is shared only where nobody can notice. What every task has, what
/// tells whether something is active, and the values that a task hands out keep
/// storage of their own. So does a lifted declaration that is a parameter or a
/// task, whose address was taken, that a deferred call keeps, or that is volatile
/// or atomic; any other may share.
pub proof fn visible_fields_share_nothing(
    plan: Option<FunctionPlanView>,
    function: LivenessFunction,
    field: LogicalFieldId,
    k: int,
)
    ensures
        field is State || field is Status || field is Error || field is Cleanups || field is Result
            || field is Yielded || field is BindingActive || field is BindingGeneration
            || field is DirectChildActive || field is AwaitableActive
            ==> storage_lifetimes::lifetime_of(field, plan, function) is None,
        0 <= k < function.lifted_fields@.len() && (forall|j: int|
            0 <= j < k ==> (#[trigger] function.lifted_fields@[j]).declaration
                != function.lifted_fields@[k].declaration) ==> ({
            let declaration = function.lifted_fields@[k].declaration;
            storage_lifetimes::lifetime_of(LogicalFieldId::Lifted(declaration), plan, function)
                == if unseen(function, k) {
                Some(SizeLifetime::Lifted(declaration))
            } else {
                None
            }
        }),
{
    if 0 <= k < function.lifted_fields@.len() && (forall|j: int|
        0 <= j < k ==> (#[trigger] function.lifted_fields@[j]).declaration
            != function.lifted_fields@[k].declaration) {
        first_lifted(function, function.lifted_fields@[k].declaration, 0, k);
    }
}

/// Two values clash whichever comes first, and a result and a child clash with
/// themselves.
pub proof fn clashes_are_mutual(
    a: SizeLifetime,
    b: SizeLifetime,
    function: LivenessFunction,
    lifetimes: SlotLivenessFunction,
)
    ensures
        storage_lifetimes::lifetimes_clash(a, b, function, lifetimes)
            == storage_lifetimes::lifetimes_clash(b, a, function, lifetimes),
        a is Storage ==> storage_lifetimes::lifetimes_clash(a, a, function, lifetimes),
{
    match (a, b) {
        (SizeLifetime::Storage(x), SizeLifetime::Storage(y)) => {
            if storage_lifetimes::storages_clash(lifetimes, x, y) {
                storages_clash_both_ways(lifetimes, x, y);
            }
            if storage_lifetimes::storages_clash(lifetimes, y, x) {
                storages_clash_both_ways(lifetimes, y, x);
            }
        },
        (SizeLifetime::Lifted(x), SizeLifetime::Lifted(y)) => {
            if storage_lifetimes::lifted_together(function.live_points@, x, y) {
                lifted_clash_both_ways(function, x, y);
            }
            if storage_lifetimes::lifted_together(function.live_points@, y, x) {
                lifted_clash_both_ways(function, y, x);
            }
        },
        _ => {},
    }
}

proof fn storages_clash_both_ways(
    lifetimes: SlotLivenessFunction,
    a: LogicalStorage,
    b: LogicalStorage,
)
    requires
        storage_lifetimes::storages_clash(lifetimes, a, b),
    ensures
        storage_lifetimes::storages_clash(lifetimes, b, a),
{
    if a != b {
        if slot_liveness::interfering(lifetimes.interference@, a, b) {
            let i = choose|i: int|
                0 <= i < lifetimes.interference@.len() && (#[trigger] lifetimes.interference@[i]
                    == (a, b) || lifetimes.interference@[i] == (b, a));
            assert(lifetimes.interference@[i] == (b, a) || lifetimes.interference@[i] == (a, b));
        } else if let (
            LogicalStorage::AwaitResult(x),
            LogicalStorage::AwaitResult(y),
        ) = (a, b) {
            let live = lifetimes.live@;
            let p = choose|p: int|
                0 <= p < live.len() && (#[trigger] live[p]).1@.contains(x) && live[p].1@.contains(
                    y,
                );
            assert(live[p].1@.contains(y));
        }
    }
}

proof fn lifted_clash_both_ways(function: LivenessFunction, a: DeclarationId, b: DeclarationId)
    requires
        storage_lifetimes::lifted_together(function.live_points@, a, b),
    ensures
        storage_lifetimes::lifted_together(function.live_points@, b, a),
{
    let live = function.live_points@;
    let p = choose|p: int|
        0 <= p < live.len() && (#[trigger] live[p]).1@.contains(a) && live[p].1@.contains(b);
    assert(live[p].1@.contains(b));
}

/// What is alive at one point clashes: two results, two lifted declarations, and
/// a lifted declaration and a result.
pub proof fn what_lives_together_clashes(
    function: LivenessFunction,
    lifetimes: SlotLivenessFunction,
    p: int,
    q: int,
    a: AwaitSlotId,
    b: AwaitSlotId,
    x: DeclarationId,
    y: DeclarationId,
)
    ensures
        0 <= p < lifetimes.live@.len() && lifetimes.live@[p].1@.contains(a)
            && lifetimes.live@[p].1@.contains(b) ==> storage_lifetimes::lifetimes_clash(
            SizeLifetime::Storage(LogicalStorage::AwaitResult(a)),
            SizeLifetime::Storage(LogicalStorage::AwaitResult(b)),
            function,
            lifetimes,
        ),
        0 <= q < function.live_points@.len() && function.live_points@[q].1@.contains(x)
            && function.live_points@[q].1@.contains(y) ==> storage_lifetimes::lifetimes_clash(
            SizeLifetime::Lifted(x),
            SizeLifetime::Lifted(y),
            function,
            lifetimes,
        ),
        0 <= p < lifetimes.live@.len() && lifetimes.live@[p].1@.contains(a) && 0 <= q
            < function.live_points@.len() && function.live_points@[q].0 == lifetimes.live@[p].0 && (
        forall|j: int|
            0 <= j < q ==> (#[trigger] function.live_points@[j]).0 != lifetimes.live@[p].0)
            && function.live_points@[q].1@.contains(x) ==> storage_lifetimes::lifetimes_clash(
            SizeLifetime::Lifted(x),
            SizeLifetime::Storage(LogicalStorage::AwaitResult(a)),
            function,
            lifetimes,
        ),
{
    if 0 <= p < lifetimes.live@.len() && lifetimes.live@[p].1@.contains(a) && 0 <= q
        < function.live_points@.len() && function.live_points@[q].0 == lifetimes.live@[p].0 && (
    forall|j: int|
        0 <= j < q ==> (#[trigger] function.live_points@[j]).0 != lifetimes.live@[p].0) {
        first_point(function, lifetimes.live@[p].0, 0, q);
    }
}

proof fn first_point(
    function: LivenessFunction,
    point: ProgramPoint,
    i: int,
    k: int,
)
    requires
        0 <= i <= k < function.live_points@.len(),
        function.live_points@[k].0 == point,
        forall|j: int| i <= j < k ==> (#[trigger] function.live_points@[j]).0 != point,
    ensures
        storage_lifetimes::alive_at(function.live_points@, point, i) == Some(
            function.live_points@[k].1@,
        ),
    decreases k - i,
{
    if i < k {
        first_point(function, point, i + 1, k);
    }
}

proof fn first_poll(edges: Seq<AwaitEdge>, child: ChildInstanceId, i: int, k: int)
    requires
        0 <= i <= k < edges.len(),
        edges[k].instance == child,
        forall|j: int| i <= j < k ==> (#[trigger] edges[j]).instance != child,
    ensures
        storage_lifetimes::polling_block(edges, child, i) == Some(edges[k].block),
    decreases k - i,
{
    if i < k {
        first_poll(edges, child, i + 1, k);
    }
}

/// A child clashes with every lifted declaration that is alive where the child is
/// first polled.
pub proof fn children_clash_with_what_lives_while_polled(
    function: LivenessFunction,
    lifetimes: SlotLivenessFunction,
    child: ChildInstanceId,
    k: int,
    q: int,
    x: DeclarationId,
)
    requires
        0 <= k < function.coroutine.await_plan.edges@.len(),
        function.coroutine.await_plan.edges@[k].instance == child,
        forall|j: int|
            0 <= j < k ==> (#[trigger] function.coroutine.await_plan.edges@[j]).instance != child,
        0 <= q < function.live_points@.len(),
        function.live_points@[q].0 == ProgramPoint::BeforeTerminator(
            function.coroutine.await_plan.edges@[k].block,
        ),
        forall|j: int|
            0 <= j < q ==> (#[trigger] function.live_points@[j]).0 != function.live_points@[q].0,
        function.live_points@[q].1@.contains(x),
    ensures
        storage_lifetimes::lifetimes_clash(
            SizeLifetime::Lifted(x),
            SizeLifetime::Storage(LogicalStorage::DirectChild(child)),
            function,
            lifetimes,
        ),
        storage_lifetimes::lifetimes_clash(
            SizeLifetime::Storage(LogicalStorage::DirectChild(child)),
            SizeLifetime::Lifted(x),
            function,
            lifetimes,
        ),
{
    first_poll(function.coroutine.await_plan.edges@, child, 0, k);
    first_point(function, function.live_points@[q].0, 0, q);
}

/// A call embeds its callee exactly if its unit defines the callee and the callee
/// doesn't already hold the caller, and else keeps it on the heap.
pub proof fn children_are_embedded_where_possible(
    calls: Seq<StaticCallEdge>,
    symbols: AsyncSymbolIndex,
    n: int,
)
    requires
        0 < n <= calls.len(),
    ensures
        ({
            let before = await_storage::storage_choices(calls, symbols, n - 1);
            let choices = await_storage::storage_choices(calls, symbols, n);
            let call = calls[n - 1];
            let visible = symbol_index::defined_in(
                symbols.symbol_spec(call.callee)->0.sites@,
                call.translation_unit.0@,
            );
            let closes = graph::reaches(
                await_storage::embedded_pairs(calls, before),
                call.callee,
                call.caller,
            );
            &&& choices.len() == n
            &&& choices.drop_last() == before
            &&& choices[n - 1] is Embedded <==> visible && !closes
            &&& choices[n - 1] is Boxed <==> !visible || closes
        }),
{
    choices_counted(calls, symbols, n - 1);
    let before = await_storage::storage_choices(calls, symbols, n - 1);
    let choices = await_storage::storage_choices(calls, symbols, n);
    assert(choices.drop_last() =~= before);
}

proof fn choices_counted(calls: Seq<StaticCallEdge>, symbols: AsyncSymbolIndex, n: int)
    requires
        0 <= n,
    ensures
        await_storage::storage_choices(calls, symbols, n).len() == n,
    decreases n,
{
    if n > 0 {
        choices_counted(calls, symbols, n - 1);
    }
}

proof fn counts_grow(
    calls: Seq<StaticCallEdge>,
    choices: Seq<AwaitStorage>,
    caller: FunctionId,
    n: int,
)
    requires
        0 <= n <= choices.len() <= calls.len(),
    ensures
        await_storage::embedded_count(calls, choices.take(n), caller)
            <= await_storage::embedded_count(calls, choices, caller),
        await_storage::boxed_count(calls, choices.take(n), caller) <= await_storage::boxed_count(
            calls,
            choices,
            caller,
        ),
    decreases choices.len() - n,
{
    if n < choices.len() {
        counts_grow(calls, choices.drop_last(), caller, n);
        assert(choices.drop_last().take(n) =~= choices.take(n));
    } else {
        assert(choices.take(n) =~= choices);
    }
}

proof fn choices_are_prefixes(calls: Seq<StaticCallEdge>, symbols: AsyncSymbolIndex, i: int, n: int)
    requires
        0 <= i <= n,
    ensures
        await_storage::storage_choices(calls, symbols, n).len() == n,
        await_storage::storage_choices(calls, symbols, i) == await_storage::storage_choices(
            calls,
            symbols,
            n,
        ).take(i),
    decreases n - i,
{
    choices_counted(calls, symbols, n);
    if i < n {
        choices_are_prefixes(calls, symbols, i, n - 1);
        let before = await_storage::storage_choices(calls, symbols, n - 1);
        let all = await_storage::storage_choices(calls, symbols, n);
        assert(all.take(i) =~= before.take(i));
    } else {
        let all = await_storage::storage_choices(calls, symbols, n);
        assert(all.take(n) =~= all);
    }
}

/// Two children of one caller that live in its context have slots of their own,
/// and so have two that live on the heap.
pub proof fn children_have_slots_of_their_own(
    calls: Seq<StaticCallEdge>,
    symbols: AsyncSymbolIndex,
    i: int,
    j: int,
)
    requires
        0 <= i < j < calls.len(),
        calls[i].caller == calls[j].caller,
        await_storage::calls_fit(calls, symbols),
    ensures
        ({
            let choices = await_storage::storage_choices(calls, symbols, calls.len() as int);
            let (a, b) = (choices[i], choices[j]);
            &&& a is Embedded && b is Embedded ==> a != b
            &&& a is Boxed && b is Boxed ==> a != b
        }),
{
    let n = calls.len() as int;
    let caller = calls[i].caller;
    let all = await_storage::storage_choices(calls, symbols, n);
    choices_are_prefixes(calls, symbols, i, n);
    choices_are_prefixes(calls, symbols, i + 1, n);
    choices_are_prefixes(calls, symbols, j, n);
    choices_are_prefixes(calls, symbols, j + 1, n);
    let at_i = all.take(i);
    let after_i = all.take(i + 1);
    let at_j = all.take(j);
    assert(after_i.drop_last() =~= at_i);
    assert(after_i.last() == all[i]);
    assert(at_j.take(i + 1) =~= after_i);
    counts_grow(calls, at_j, caller, i + 1);
    counts_grow(calls, all, caller, j);
    counts_grow(calls, all, caller, i);
    assert(all[i] == await_storage::storage_choice(calls, symbols, at_i)) by {
        assert(after_i[i] == all[i]);
    }
    assert(all[j] == await_storage::storage_choice(calls, symbols, at_j)) by {
        assert(all.take(j + 1)[j] == all[j]);
    }
    assert(await_storage::embedded_count(calls, all, caller) <= u32::MAX);
}

/// No edge polls a slot that is free.
pub proof fn free_slots_are_free(edges: Seq<AwaitEdge>, n: int)
    requires
        0 <= n <= edges.len(),
    ensures
        forall|i: int|
            0 <= i < n ==> (#[trigger] edges[i]).slot.0 < await_storage::first_free_slot(edges, n),
        n > 0 ==> exists|i: int|
            0 <= i < n && (#[trigger] edges[i]).slot.0 + 1 == await_storage::first_free_slot(
                edges,
                n,
            ),
    decreases n,
{
    if n > 0 {
        free_slots_are_free(edges, n - 1);
        let before = await_storage::first_free_slot(edges, n - 1);
        if edges[n - 1].slot.0 + 1 > before {
            assert(edges[n - 1].slot.0 + 1 == await_storage::first_free_slot(edges, n));
        } else {
            let i = choose|i: int|
                0 <= i < n - 1 && (#[trigger] edges[i]).slot.0 + 1 == before;
            assert(edges[i].slot.0 + 1 == await_storage::first_free_slot(edges, n));
        }
    }
}

/// A child is planned for C exactly if its target is known, it has storage, and
/// both go together: what is of a known function has a place of its type, and
/// what isn't is awaited directly as an awaitable. The plan keeps the storage, the
/// origin and the result that were asked for.
pub proof fn plans_keep_what_was_asked_for(
    child: ChildInstance,
    symbols: AsyncSymbolIndex,
    unit: Seq<char>,
)
    ensures
        ({
            let known = match child.target {
                AwaitTarget::Static(callee) => symbols.symbol_spec(callee) is Some,
                AwaitTarget::Dynamic(value) => true,
            };
            let goes = match child.target {
                AwaitTarget::Static(callee) => child.storage is Embedded || child.storage is Boxed,
                AwaitTarget::Dynamic(value) => child.storage is Opaque && child.origin is Direct,
            };
            match c_static_plan::child_outcome(child, symbols, unit) {
                Ok(plan) => {
                    &&& known && goes
                    &&& plan.instance == child.id
                    &&& plan.origin == child.origin
                    &&& plan.result == child.result
                    &&& plan.span == child.span
                    &&& plan.requested_storage == child.storage
                    &&& plan.downgrade_reason is None
                    &&& match child.storage {
                        AwaitStorage::Embedded(slot) => plan.effective_storage
                            == CChildStorage::Embedded(slot),
                        AwaitStorage::Boxed(slot) => plan.effective_storage == CChildStorage::Boxed(
                            slot,
                        ),
                        AwaitStorage::Opaque(slot) => plan.effective_storage
                            == CChildStorage::Opaque(slot),
                        AwaitStorage::Unplanned => false,
                    }
                    &&& match child.target {
                        AwaitTarget::Static(callee) => plan.target == ChildTargetView::Static(
                            c_static_plan::callee_of(
                                symbols.symbol_spec(callee)->0,
                                callee,
                                unit,
                            ),
                        ),
                        AwaitTarget::Dynamic(value) => plan.target == ChildTargetView::Dynamic(
                            value,
                        ),
                    }
                },
                Err(problem) => !known || !goes,
            }
        }),
{
}

/// A unit sees the layout of a task exactly if it defines the function. The names
/// of a function and its task type are made of one stem, and its signature is
/// that of the function.
pub proof fn callees_are_seen_from_their_callers(
    symbol: AsyncSymbol,
    function: FunctionId,
    unit: Seq<char>,
)
    ensures
        ({
            let callee = c_static_plan::callee_of(symbol, function, unit);
            &&& callee.function == function
            &&& callee.linkage == symbol.key
            &&& callee.stem == symbol.public_stem@
            &&& callee.task_type == symbol.public_stem@ + "_task"@
            &&& callee.result_type == symbol.result_type@
            &&& callee.parameters == symbol.parameters@
            &&& callee.is_variadic == symbol.is_variadic
            &&& callee.layout_visibility == LayoutVisibility::Visible <==> exists|i: int|
                0 <= i < symbol.sites@.len() && (#[trigger] symbol.sites@[i]).kind
                    == symbol_index::AsyncSymbolSiteKind::Definition
                    && symbol.sites@[i].translation_unit.0@ == unit
        }),
{
    let sites = symbol.sites@;
    if symbol_index::defined_in(sites, unit) {
        let i = choose|i: int|
            0 <= i < sites.len() && #[trigger] sites[i].kind
                == symbol_index::AsyncSymbolSiteKind::Definition && sites[i].translation_unit.0@
                == unit;
        assert(sites[i].kind == symbol_index::AsyncSymbolSiteKind::Definition);
    }
}

/// The unit that defines a function is that of its first definition.
pub proof fn definitions_are_found(
    sites: Seq<symbol_index::AsyncSymbolSite>,
    i: int,
)
    requires
        0 <= i <= sites.len(),
    ensures
        match c_static_plan::first_definition(sites, i) {
            Some(unit) => exists|k: int|
                i <= k < sites.len() && (#[trigger] sites[k]).kind
                    == symbol_index::AsyncSymbolSiteKind::Definition && sites[k].translation_unit
                    == unit && forall|j: int|
                    i <= j < k ==> (#[trigger] sites[j]).kind
                        != symbol_index::AsyncSymbolSiteKind::Definition,
            None => forall|k: int|
                i <= k < sites.len() ==> (#[trigger] sites[k]).kind
                    != symbol_index::AsyncSymbolSiteKind::Definition,
        },
    decreases sites.len() - i,
{
    if i < sites.len() {
        if sites[i].kind == symbol_index::AsyncSymbolSiteKind::Definition {
            assert(sites[i].kind == symbol_index::AsyncSymbolSiteKind::Definition);
        } else {
            definitions_are_found(sites, i + 1);
        }
    }
}

} // verus!
