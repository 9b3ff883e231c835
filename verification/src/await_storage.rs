//! Storage selection for the children of a whole project.

use vstd::prelude::*;

use crate::await_graph;
use crate::await_graph::{
    build_static_call_graph, strongly_connected_components, AwaitGraphFunction, CallGraphScc,
    StaticCallEdge, StaticCallGraph,
};
use crate::await_plan::{
    AwaitEdge, AwaitStorage, AwaitTarget, ChildInstance, ChildInstanceId, ChildSlotId,
    FunctionAwaitPlan, TypedSlotId,
};
use crate::graph;
use crate::graph::is_reachable;
use crate::order;
use crate::order::sort_order;
use crate::semantic::AwaitSlotId;
use crate::symbol_index;
use crate::symbol_index::{is_defined_in, AsyncSymbolIndex, FunctionId, TranslationUnitId};
use crate::syntax;
use crate::syntax::{error_diagnostic, Diagnostic, DiagnosticView};

verus! {

/// One function plan supplied to project storage selection.
pub struct AwaitStorageFunction {
    pub caller: FunctionId,
    pub translation_unit: TranslationUnitId,
    pub source_start: usize,
    pub plan: FunctionAwaitPlan,
}

/// Storage-planning output and validation diagnostics.
#[derive(Debug, Clone, PartialEq, Eq)]
pub struct AwaitStoragePlanResult {
    pub graph: StaticCallGraph,
    pub components: Vec<CallGraphScc>,
    pub diagnostics: Vec<Diagnostic>,
}

/// The functions as input of the call graph.
pub open spec fn graph_inputs<'a>(functions: Seq<AwaitStorageFunction>) -> Seq<
    AwaitGraphFunction<'a>,
> {
    Seq::new(
        functions.len(),
        |i: int|
            AwaitGraphFunction {
                caller: functions[i].caller,
                translation_unit: functions[i].translation_unit,
                source_start: functions[i].source_start,
                plan: &functions[i].plan,
            },
    )
}

/// The embedded calls among the first calls, which got the given storage.
pub open spec fn embedded_pairs(calls: Seq<StaticCallEdge>, choices: Seq<AwaitStorage>) -> Seq<
    (FunctionId, FunctionId),
>
    decreases choices.len(),
{
    if choices.len() == 0 {
        Seq::empty()
    } else {
        let before = embedded_pairs(calls, choices.drop_last());
        let call = calls[choices.len() - 1];
        if choices.last() is Embedded {
            before.push((call.caller, call.callee))
        } else {
            before
        }
    }
}

/// How many of the first calls are made by `caller` and are embedded.
pub open spec fn embedded_count(
    calls: Seq<StaticCallEdge>,
    choices: Seq<AwaitStorage>,
    caller: FunctionId,
) -> nat
    decreases choices.len(),
{
    if choices.len() == 0 {
        0
    } else {
        embedded_count(calls, choices.drop_last(), caller) + if choices.last() is Embedded
            && calls[choices.len() - 1].caller == caller {
            1nat
        } else {
            0nat
        }
    }
}

/// How many of the first calls are made by `caller` and are boxed.
pub open spec fn boxed_count(
    calls: Seq<StaticCallEdge>,
    choices: Seq<AwaitStorage>,
    caller: FunctionId,
) -> nat
    decreases choices.len(),
{
    if choices.len() == 0 {
        0
    } else {
        boxed_count(calls, choices.drop_last(), caller) + if choices.last() is Boxed
            && calls[choices.len() - 1].caller == caller {
            1nat
        } else {
            0nat
        }
    }
}

/// Whether the unit of a call defines the callee.
pub open spec fn callee_visible(symbols: AsyncSymbolIndex, call: StaticCallEdge) -> bool {
    symbol_index::defined_in(
        symbols.symbol_spec(call.callee)->0.sites@,
        call.translation_unit.0@,
    )
}

/// The storage of the call that follows those with the given storage: boxed
/// when the callee's layout is not visible or embedding it would close a
/// cycle, and embedded otherwise. Slots are numbered for each caller.
pub open spec fn storage_choice(
    calls: Seq<StaticCallEdge>,
    symbols: AsyncSymbolIndex,
    choices: Seq<AwaitStorage>,
) -> AwaitStorage {
    let call = calls[choices.len() as int];
    if !callee_visible(symbols, call) || graph::reaches(
        embedded_pairs(calls, choices),
        call.callee,
        call.caller,
    ) {
        AwaitStorage::Boxed(TypedSlotId(boxed_count(calls, choices, call.caller) as u32))
    } else {
        AwaitStorage::Embedded(ChildSlotId(embedded_count(calls, choices, call.caller) as u32))
    }
}

/// The storage of the first `n` calls.
pub open spec fn storage_choices(
    calls: Seq<StaticCallEdge>,
    symbols: AsyncSymbolIndex,
    n: int,
) -> Seq<AwaitStorage>
    decreases n,
{
    if n <= 0 {
        Seq::empty()
    } else {
        let before = storage_choices(calls, symbols, n - 1);
        before.push(storage_choice(calls, symbols, before))
    }
}

/// The storage of the last of the first `n` calls that instantiates `instance`.
pub open spec fn decision_for(
    calls: Seq<StaticCallEdge>,
    choices: Seq<AwaitStorage>,
    caller: FunctionId,
    instance: ChildInstanceId,
    n: int,
) -> Option<AwaitStorage>
    decreases n,
{
    if n <= 0 {
        None
    } else if calls[n - 1].caller == caller && calls[n - 1].instance == instance {
        Some(choices[n - 1])
    } else {
        decision_for(calls, choices, caller, instance, n - 1)
    }
}

/// The slot of the last of the first `n` edges that polls `instance`.
pub open spec fn polled_slot(
    edges: Seq<AwaitEdge>,
    instance: ChildInstanceId,
    n: int,
) -> Option<AwaitSlotId>
    decreases n,
{
    if n <= 0 {
        None
    } else if edges[n - 1].instance == instance {
        Some(edges[n - 1].slot)
    } else {
        polled_slot(edges, instance, n - 1)
    }
}

/// The first slot number above those of the first `n` edges.
pub open spec fn first_free_slot(edges: Seq<AwaitEdge>, n: int) -> nat
    decreases n,
{
    if n <= 0 {
        0
    } else {
        let before = first_free_slot(edges, n - 1);
        let next = (edges[n - 1].slot.0 + 1) as nat;
        if next > before {
            next
        } else {
            before
        }
    }
}

/// Whether a child has a dynamic target that no edge polls.
pub open spec fn needs_fresh_slot(edges: Seq<AwaitEdge>, child: ChildInstance) -> bool {
    child.target is Dynamic && polled_slot(edges, child.id, edges.len() as int) is None
}

/// Whether child `a` comes before child `b` in source order.
pub open spec fn child_before(children: Seq<ChildInstance>, a: int, b: int) -> bool {
    let x = children[a];
    let y = children[b];
    x.span.start_byte < y.span.start_byte || (x.span.start_byte == y.span.start_byte && (x.id.0
        < y.id.0 || (x.id.0 == y.id.0 && a < b)))
}

/// How many of the first `n` children need a fresh slot and come before child
/// `c` in source order.
pub open spec fn fresh_before(
    edges: Seq<AwaitEdge>,
    children: Seq<ChildInstance>,
    c: int,
    n: int,
) -> nat
    decreases n,
{
    if n <= 0 {
        0
    } else {
        fresh_before(edges, children, c, n - 1) + if needs_fresh_slot(edges, children[n - 1])
            && child_before(children, n - 1, c) {
            1nat
        } else {
            0nat
        }
    }
}

/// The storage of child `c` of a function.
pub open spec fn planned_storage(
    edges: Seq<AwaitEdge>,
    children: Seq<ChildInstance>,
    c: int,
    caller: FunctionId,
    calls: Seq<StaticCallEdge>,
    choices: Seq<AwaitStorage>,
) -> AwaitStorage {
    let child = children[c];
    match child.target {
        AwaitTarget::Static(callee) => match decision_for(
            calls,
            choices,
            caller,
            child.id,
            calls.len() as int,
        ) {
            Some(storage) => storage,
            None => AwaitStorage::Unplanned,
        },
        AwaitTarget::Dynamic(value) => match polled_slot(edges, child.id, edges.len() as int) {
            Some(slot) => AwaitStorage::Opaque(slot),
            None => AwaitStorage::Opaque(
                AwaitSlotId(
                    (first_free_slot(edges, edges.len() as int) + fresh_before(
                        edges,
                        children,
                        c,
                        children.len() as int,
                    )) as u32,
                ),
            ),
        },
    }
}

/// A child with another storage.
pub open spec fn with_storage(child: ChildInstance, storage: AwaitStorage) -> ChildInstance {
    ChildInstance { storage, ..child }
}

/// The children of a function with their storage.
pub open spec fn planned_children(
    edges: Seq<AwaitEdge>,
    children: Seq<ChildInstance>,
    caller: FunctionId,
    calls: Seq<StaticCallEdge>,
    choices: Seq<AwaitStorage>,
) -> Seq<ChildInstance> {
    Seq::new(
        children.len(),
        |c: int|
            with_storage(
                children[c],
                planned_storage(edges, children, c, caller, calls, choices),
            ),
    )
}

/// Whether `after` is `before` with the storage of its children selected.
pub open spec fn function_planned(
    before: AwaitStorageFunction,
    after: AwaitStorageFunction,
    calls: Seq<StaticCallEdge>,
    choices: Seq<AwaitStorage>,
) -> bool {
    &&& after.caller == before.caller
    &&& after.translation_unit == before.translation_unit
    &&& after.source_start == before.source_start
    &&& after.plan.edges@ == before.plan.edges@
    &&& after.plan.dynamic_values@ == before.plan.dynamic_values@
    &&& after.plan.children@ == planned_children(
        before.plan.edges@,
        before.plan.children@,
        before.caller,
        calls,
        choices,
    )
}

/// Whether every function got the storage that the project's calls select.
pub open spec fn project_planned(
    before: Seq<AwaitStorageFunction>,
    after: Seq<AwaitStorageFunction>,
    symbols: AsyncSymbolIndex,
) -> bool {
    let calls = await_graph::ordered_calls(graph_inputs(before), symbols);
    let choices = storage_choices(calls, symbols, calls.len() as int);
    after.len() == before.len() && forall|i: int|
        0 <= i < before.len() ==> function_planned(
            #[trigger] before[i],
            #[trigger] after[i],
            calls,
            choices,
        )
}

/// How many of the first `n` children need a fresh slot.
pub open spec fn fresh_count(edges: Seq<AwaitEdge>, children: Seq<ChildInstance>, n: int) -> nat
    decreases n,
{
    if n <= 0 {
        0
    } else {
        fresh_count(edges, children, n - 1) + if needs_fresh_slot(edges, children[n - 1]) {
            1nat
        } else {
            0nat
        }
    }
}

/// Whether the fresh slots of a function can be numbered.
pub open spec fn slots_fit(plan: FunctionAwaitPlan) -> bool {
    first_free_slot(plan.edges@, plan.edges@.len() as int) + fresh_count(
        plan.edges@,
        plan.children@,
        plan.children@.len() as int,
    ) <= u32::MAX
}

/// Whether the embedded slots and the boxed slots of every caller can be
/// numbered.
pub open spec fn calls_fit(calls: Seq<StaticCallEdge>, symbols: AsyncSymbolIndex) -> bool {
    let choices = storage_choices(calls, symbols, calls.len() as int);
    forall|caller: FunctionId|
        #![trigger embedded_count(calls, choices, caller)]
        #![trigger boxed_count(calls, choices, caller)]
        embedded_count(calls, choices, caller) <= u32::MAX && boxed_count(calls, choices, caller)
            <= u32::MAX
}

/// No caller has more slots after fewer calls.
proof fn counts_grow(
    calls: Seq<StaticCallEdge>,
    symbols: AsyncSymbolIndex,
    caller: FunctionId,
    i: int,
    n: int,
)
    requires
        0 <= i <= n,
    ensures
        embedded_count(calls, storage_choices(calls, symbols, i), caller) <= embedded_count(
            calls,
            storage_choices(calls, symbols, n),
            caller,
        ),
        boxed_count(calls, storage_choices(calls, symbols, i), caller) <= boxed_count(
            calls,
            storage_choices(calls, symbols, n),
            caller,
        ),
    decreases n - i,
{
    if i < n {
        counts_grow(calls, symbols, caller, i, n - 1);
        let choices = storage_choices(calls, symbols, n);
        assert(choices.drop_last() =~= storage_choices(calls, symbols, n - 1));
    }
}

/// The slots of every caller can be numbered where there are numbers for all
/// calls.
pub proof fn few_calls_fit(calls: Seq<StaticCallEdge>, symbols: AsyncSymbolIndex)
    requires
        calls.len() <= u32::MAX,
    ensures
        calls_fit(calls, symbols),
{
    let n = calls.len() as int;
    let choices = storage_choices(calls, symbols, n);
    assert forall|caller: FunctionId|
        #![trigger embedded_count(calls, choices, caller)]
        #![trigger boxed_count(calls, choices, caller)]
        embedded_count(calls, choices, caller) <= u32::MAX && boxed_count(calls, choices, caller)
            <= u32::MAX by {
        counts_bounded(calls, choices, caller);
        embedded_storage_is_acyclic(calls, symbols, n);
    }
}

proof fn counts_bounded(
    calls: Seq<StaticCallEdge>,
    choices: Seq<AwaitStorage>,
    caller: FunctionId,
)
    ensures
        embedded_count(calls, choices, caller) <= choices.len(),
        boxed_count(calls, choices, caller) <= choices.len(),
    decreases choices.len(),
{
    if choices.len() > 0 {
        counts_bounded(calls, choices.drop_last(), caller);
    }
}

/// Children that need a fresh slot and come before a child need a fresh slot.
proof fn fresh_before_counted(
    edges: Seq<AwaitEdge>,
    children: Seq<ChildInstance>,
    c: int,
    n: int,
)
    ensures
        fresh_before(edges, children, c, n) <= fresh_count(edges, children, n),
    decreases n,
{
    if n > 0 {
        fresh_before_counted(edges, children, c, n - 1);
    }
}

/// Every child of the first `n` functions with its caller.
pub open spec fn children_of<'a>(functions: Seq<AwaitGraphFunction<'a>>, n: int) -> Seq<
    (FunctionId, &'a ChildInstance),
>
    decreases n,
{
    if n <= 0 {
        Seq::empty()
    } else {
        children_of(functions, n - 1) + Seq::new(
            functions[n - 1].plan.children@.len(),
            |c: int| (functions[n - 1].caller, &functions[n - 1].plan.children@[c]),
        )
    }
}

/// Children are checked in the order of caller, position, and identity.
pub open spec fn child_key(entry: (FunctionId, &ChildInstance)) -> Seq<u64> {
    seq![entry.0.0 as u64, entry.1.span.start_byte as u64, entry.1.id.0 as u64]
}

/// The sort keys of a list of children.
pub open spec fn child_keys(entries: Seq<(FunctionId, &ChildInstance)>) -> Seq<Seq<u64>> {
    Seq::new(entries.len(), |i: int| child_key(entries[i]))
}

/// What the validation found so far, and the embedded calls it has seen.
pub struct StorageProblems {
    pub diagnostics: Seq<DiagnosticView>,
    pub embedded: Seq<(FunctionId, FunctionId)>,
}

/// Whether a storage can hold a child with the given target.
pub open spec fn storage_fits(target: AwaitTarget, storage: AwaitStorage) -> bool {
    match target {
        AwaitTarget::Dynamic(value) => storage is Opaque,
        AwaitTarget::Static(callee) => storage is Embedded || storage is Boxed,
    }
}

/// The findings after one more child.
pub open spec fn check_child(
    before: StorageProblems,
    caller: FunctionId,
    child: ChildInstance,
) -> StorageProblems {
    if child.storage is Unplanned {
        StorageProblems {
            diagnostics: before.diagnostics.push(
                syntax::error_view(
                    "CRP5001"@,
                    "await child has no selected storage"@,
                    child.span,
                ),
            ),
            embedded: before.embedded,
        }
    } else {
        let diagnostics = if storage_fits(child.target, child.storage) {
            before.diagnostics
        } else {
            before.diagnostics.push(
                syntax::error_view(
                    "CRP5002"@,
                    "await target and storage strategy are incompatible"@,
                    child.span,
                ),
            )
        };
        match (child.target, child.storage) {
            (
                AwaitTarget::Static(callee),
                AwaitStorage::Embedded(slot),
            ) => if graph::reaches(before.embedded, callee, caller) {
                StorageProblems {
                    diagnostics: diagnostics.push(
                        syntax::error_view(
                            "CRP5003"@,
                            "embedded child storage creates a recursive layout cycle"@,
                            child.span,
                        ),
                    ),
                    embedded: before.embedded,
                }
            } else {
                StorageProblems { diagnostics, embedded: before.embedded.push((caller, callee)) }
            },
            _ => StorageProblems { diagnostics, embedded: before.embedded },
        }
    }
}

/// The findings after the first `n` children.
pub open spec fn check_children(
    entries: Seq<(FunctionId, &ChildInstance)>,
    n: int,
) -> StorageProblems
    decreases n,
{
    if n <= 0 {
        StorageProblems { diagnostics: Seq::empty(), embedded: Seq::empty() }
    } else {
        check_child(check_children(entries, n - 1), entries[n - 1].0, *entries[n - 1].1)
    }
}

/// The children of a project in the order in which they are checked.
pub open spec fn checked_children<'a>(functions: Seq<AwaitGraphFunction<'a>>) -> Seq<
    (FunctionId, &'a ChildInstance),
> {
    let entries = children_of(functions, functions.len() as int);
    order::sorted_by(entries, child_keys(entries))
}

/// The problems of a project's storage plan.
pub open spec fn storage_problems(functions: Seq<AwaitGraphFunction>) -> Seq<DiagnosticView> {
    let entries = checked_children(functions);
    check_children(entries, entries.len() as int).diagnostics
}

/// Whether functions and the children of each function have identities of
/// their own.
pub open spec fn identities_distinct(functions: Seq<AwaitStorageFunction>) -> bool {
    &&& forall|i: int, j: int|
        0 <= i < j < functions.len() ==> (#[trigger] functions[i]).caller != (
        #[trigger] functions[j]).caller
    &&& forall|f: int, c: int, d: int|
        #![trigger functions[f].plan.children@[c], functions[f].plan.children@[d]]
        0 <= f < functions.len() && 0 <= c < d < functions[f].plan.children@.len()
            ==> functions[f].plan.children@[c].id != functions[f].plan.children@[d].id
}

/// The embedded children never form a layout cycle.
pub proof fn embedded_storage_is_acyclic(
    calls: Seq<StaticCallEdge>,
    symbols: AsyncSymbolIndex,
    n: int,
)
    requires
        0 <= n <= calls.len(),
    ensures
        graph::acyclic(embedded_pairs(calls, storage_choices(calls, symbols, n))),
        storage_choices(calls, symbols, n).len() == n,
        forall|i: int|
            0 <= i < n ==> (#[trigger] storage_choices(calls, symbols, n)[i]) is Embedded
                || storage_choices(calls, symbols, n)[i] is Boxed,
    decreases n,
{
    if n > 0 {
        embedded_storage_is_acyclic(calls, symbols, n - 1);
        let before = storage_choices(calls, symbols, n - 1);
        let after = storage_choices(calls, symbols, n);
        assert(after.drop_last() =~= before);
        if after.last() is Embedded {
            graph::acyclic_pushed(
                embedded_pairs(calls, before),
                calls[n - 1].caller,
                calls[n - 1].callee,
            );
        }
    }
}

proof fn embedded_pair_present(calls: Seq<StaticCallEdge>, choices: Seq<AwaitStorage>, i: int)
    requires
        0 <= i < choices.len() <= calls.len(),
        choices[i] is Embedded,
    ensures
        embedded_pairs(calls, choices).contains((calls[i].caller, calls[i].callee)),
    decreases choices.len(),
{
    let before = embedded_pairs(calls, choices.drop_last());
    let after = embedded_pairs(calls, choices);
    if i == choices.len() - 1 {
        assert(after[before.len() as int] == (calls[i].caller, calls[i].callee));
    } else {
        embedded_pair_present(calls, choices.drop_last(), i);
        let k = choose|k: int|
            0 <= k < before.len() && before[k] == (calls[i].caller, calls[i].callee);
        assert(after[k] == before[k]);
    }
}

proof fn decision_source(
    calls: Seq<StaticCallEdge>,
    choices: Seq<AwaitStorage>,
    caller: FunctionId,
    instance: ChildInstanceId,
    n: int,
)
    requires
        0 <= n <= calls.len(),
    ensures
        match decision_for(calls, choices, caller, instance, n) {
            Some(storage) => exists|i: int|
                0 <= i < n && (#[trigger] calls[i]).caller == caller && calls[i].instance
                    == instance && choices[i] == storage,
            None => forall|i: int|
                0 <= i < n ==> !((#[trigger] calls[i]).caller == caller && calls[i].instance
                    == instance),
        },
    decreases n,
{
    if n > 0 && !(calls[n - 1].caller == caller && calls[n - 1].instance == instance) {
        decision_source(calls, choices, caller, instance, n - 1);
    } else if n > 0 {
        assert(choices[n - 1] == choices[n - 1] && calls[n - 1].caller == caller);
    }
}

proof fn entry_source<'a>(functions: Seq<AwaitGraphFunction<'a>>, n: int, i: int) -> (r: (int, int))
    requires
        0 <= n <= functions.len(),
        0 <= i < children_of(functions, n).len(),
    ensures
        0 <= r.0 < n,
        0 <= r.1 < functions[r.0].plan.children@.len(),
        children_of(functions, n)[i].0 == functions[r.0].caller,
        *children_of(functions, n)[i].1 == functions[r.0].plan.children@[r.1],
    decreases n,
{
    let before = children_of(functions, n - 1);
    if i < before.len() {
        entry_source(functions, n - 1, i)
    } else {
        (n - 1, i - before.len())
    }
}

/// A child gets a storage that fits its target, and an embedded child is one
/// of the embedded calls.
proof fn planned_child_fits(
    before: Seq<AwaitStorageFunction>,
    symbols: AsyncSymbolIndex,
    f: int,
    c: int,
)
    requires
        identities_distinct(before),
        0 <= f < before.len(),
        0 <= c < before[f].plan.children@.len(),
    ensures
        ({
            let calls = await_graph::ordered_calls(graph_inputs(before), symbols);
            let choices = storage_choices(calls, symbols, calls.len() as int);
            let child = before[f].plan.children@[c];
            let storage = planned_storage(
                before[f].plan.edges@,
                before[f].plan.children@,
                c,
                before[f].caller,
                calls,
                choices,
            );
            &&& storage_fits(child.target, storage)
            &&& match (child.target, storage) {
                (
                    AwaitTarget::Static(callee),
                    AwaitStorage::Embedded(slot),
                ) => embedded_pairs(calls, choices).contains((before[f].caller, callee)),
                _ => true,
            }
        }),
{
    let inputs = graph_inputs(before);
    let all = await_graph::project_calls(inputs, inputs.len() as int);
    let calls = await_graph::ordered_calls(inputs, symbols);
    let choices = storage_choices(calls, symbols, calls.len() as int);
    let child = before[f].plan.children@[c];
    let caller = before[f].caller;
    embedded_storage_is_acyclic(calls, symbols, calls.len() as int);
    await_graph::ordered_calls_are_calls(inputs, symbols);
    if let AwaitTarget::Static(callee) = child.target {
        let k = await_graph::project_call_present(inputs, inputs.len() as int, f, c);
        let i = choose|i: int|
            0 <= i < calls.len() && await_graph::same_call(all[k], #[trigger] calls[i]);
        assert(calls[i].caller == caller && calls[i].instance == child.id);
        decision_source(calls, choices, caller, child.id, calls.len() as int);
        let j = choose|j: int|
            0 <= j < calls.len() && (#[trigger] calls[j]).caller == caller && calls[j].instance
                == child.id && Some(choices[j]) == decision_for(
                calls,
                choices,
                caller,
                child.id,
                calls.len() as int,
            );
        assert(all.contains(calls[j]));
        let l = choose|l: int| 0 <= l < all.len() && all[l] == calls[j];
        let (g, d) = await_graph::project_call_source(inputs, inputs.len() as int, l);
        assert(before[g].caller == caller);
        assert(g == f) by {
            if g < f {
                assert(before[g].caller != before[f].caller);
            } else if f < g {
                assert(before[f].caller != before[g].caller);
            }
        }
        assert(before[f].plan.children@[d].id == child.id);
        assert(d == c) by {
            if d < c {
                assert(before[f].plan.children@[d].id != before[f].plan.children@[c].id);
            } else if c < d {
                assert(before[f].plan.children@[c].id != before[f].plan.children@[d].id);
            }
        }
        if choices[j] is Embedded {
            embedded_pair_present(calls, choices, j);
        }
    }
}

proof fn planned_checks_pass(
    before: Seq<AwaitStorageFunction>,
    after: Seq<AwaitStorageFunction>,
    symbols: AsyncSymbolIndex,
    n: int,
)
    requires
        identities_distinct(before),
        project_planned(before, after, symbols),
        0 <= n <= checked_children(graph_inputs(after)).len(),
    ensures
        ({
            let calls = await_graph::ordered_calls(graph_inputs(before), symbols);
            let choices = storage_choices(calls, symbols, calls.len() as int);
            let found = check_children(checked_children(graph_inputs(after)), n);
            &&& found.diagnostics == Seq::<DiagnosticView>::empty()
            &&& forall|i: int|
                0 <= i < found.embedded.len() ==> embedded_pairs(calls, choices).contains(
                    #[trigger] found.embedded[i],
                )
        }),
    decreases n,
{
    if n > 0 {
        planned_checks_pass(before, after, symbols, n - 1);
        let calls = await_graph::ordered_calls(graph_inputs(before), symbols);
        let choices = storage_choices(calls, symbols, calls.len() as int);
        let pairs = embedded_pairs(calls, choices);
        let entries = children_of(graph_inputs(after), after.len() as int);
        let keys = child_keys(entries);
        let checked = checked_children(graph_inputs(after));
        order::stable_order_sorts(keys, keys.len() as int);
        let place = order::stable_order(keys, keys.len() as int)[n - 1];
        assert(checked[n - 1] == entries[place]);
        let (f, c) = entry_source(graph_inputs(after), after.len() as int, place);
        assert(function_planned(before[f], after[f], calls, choices));
        planned_child_fits(before, symbols, f, c);
        let child = *checked[n - 1].1;
        let caller = checked[n - 1].0;
        assert(child == after[f].plan.children@[c]);
        assert(child.target == before[f].plan.children@[c].target);
        let found = check_children(checked, n - 1);
        if let AwaitTarget::Static(callee) = child.target {
            if child.storage is Embedded {
                embedded_storage_is_acyclic(calls, symbols, calls.len() as int);
                assert(pairs.contains((caller, callee)));
                let k = choose|k: int| 0 <= k < pairs.len() && pairs[k] == (caller, callee);
                assert(!graph::reaches(pairs, pairs[k].1, pairs[k].0));
                if graph::reaches(found.embedded, callee, caller) {
                    graph::reaches_superset(found.embedded, pairs, callee, caller);
                }
            }
        }
    }
}

/// The storage that planning selects passes validation: every child has a
/// storage that fits its target, and the embedded children form no cycle.
pub proof fn planned_storage_is_valid(
    before: Seq<AwaitStorageFunction>,
    after: Seq<AwaitStorageFunction>,
    symbols: AsyncSymbolIndex,
)
    requires
        identities_distinct(before),
        project_planned(before, after, symbols),
    ensures
        storage_problems(graph_inputs(after)) == Seq::<DiagnosticView>::empty(),
{
    planned_checks_pass(
        before,
        after,
        symbols,
        checked_children(graph_inputs(after)).len() as int,
    );
}

/// Tells whether an edge from `caller` to `callee` would close a cycle.
fn would_create_cycle(
    embedded: &Vec<(FunctionId, FunctionId)>,
    caller: FunctionId,
    callee: FunctionId,
) -> (r: bool)
    ensures
        r == graph::reaches(embedded@, callee, caller),
{
    if caller == callee {
        proof {
            graph::reaches_self(embedded@, caller);
        }
        return true;
    }
    is_reachable(embedded, callee, caller)
}

fn choose_storage(calls: &Vec<StaticCallEdge>, symbols: &AsyncSymbolIndex) -> (r: Vec<AwaitStorage>)
    requires
        calls_fit(calls@, *symbols),
        forall|i: int|
            0 <= i < calls@.len() ==> symbols.symbol_spec((#[trigger] calls@[i]).callee) is Some,
    ensures
        r@ == storage_choices(calls@, *symbols, calls@.len() as int),
        r@.len() == calls@.len(),
{
    let mut choices: Vec<AwaitStorage> = Vec::new();
    let mut embedded: Vec<(FunctionId, FunctionId)> = Vec::new();
    let mut i: usize = 0;
    while i < calls.len()
        invariant
            i <= calls@.len(),
            calls_fit(calls@, *symbols),
            forall|k: int|
                0 <= k < calls@.len() ==> symbols.symbol_spec((#[trigger] calls@[k]).callee) is Some,
            choices@.len() == i,
            choices@ == storage_choices(calls@, *symbols, i as int),
            embedded@ == embedded_pairs(calls@, choices@),
        decreases calls@.len() - i,
    {
        let call = &calls[i];
        let visible = match symbols.symbol(call.callee) {
            Some(symbol) => is_defined_in(&symbol.sites, call.translation_unit.0.as_str()),
            None => false,
        };
        let ghost before = choices@;
        proof {
            counts_grow(calls@, *symbols, call.caller, i as int, calls@.len() as int);
        }
        let storage = if !visible || would_create_cycle(&embedded, call.caller, call.callee) {
            let slot = count_slots(calls, &choices, call.caller, false);
            AwaitStorage::Boxed(TypedSlotId(slot as u32))
        } else {
            let slot = count_slots(calls, &choices, call.caller, true);
            AwaitStorage::Embedded(ChildSlotId(slot as u32))
        };
        if let AwaitStorage::Embedded(slot) = storage {
            embedded.push((call.caller, call.callee));
        }
        choices.push(storage);
        assert(choices@.drop_last() =~= before);
        i += 1;
    }
    choices
}

/// Counts the embedded or the boxed slots that a caller has so far.
fn count_slots(
    calls: &Vec<StaticCallEdge>,
    choices: &Vec<AwaitStorage>,
    caller: FunctionId,
    embedded: bool,
) -> (r: u64)
    requires
        choices@.len() <= calls@.len(),
    ensures
        embedded ==> r == embedded_count(calls@, choices@, caller),
        !embedded ==> r == boxed_count(calls@, choices@, caller),
{
    let mut n: u64 = 0;
    let mut i: usize = 0;
    while i < choices.len()
        invariant
            i <= choices@.len() <= calls@.len(),
            n <= i,
            embedded ==> n == embedded_count(calls@, choices@.take(i as int), caller),
            !embedded ==> n == boxed_count(calls@, choices@.take(i as int), caller),
        decreases choices@.len() - i,
    {
        assert(choices@.take(i + 1).drop_last() =~= choices@.take(i as int));
        let counted = match choices[i] {
            AwaitStorage::Embedded(slot) => embedded,
            AwaitStorage::Boxed(slot) => !embedded,
            _ => false,
        };
        if counted && calls[i].caller == caller {
            n += 1;
        }
        i += 1;
    }
    assert(choices@.take(i as int) =~= choices@);
    n
}

fn find_decision(
    calls: &Vec<StaticCallEdge>,
    choices: &Vec<AwaitStorage>,
    caller: FunctionId,
    instance: ChildInstanceId,
) -> (r: AwaitStorage)
    requires
        choices@.len() == calls@.len(),
    ensures
        r == (match decision_for(calls@, choices@, caller, instance, calls@.len() as int) {
            Some(storage) => storage,
            None => AwaitStorage::Unplanned,
        }),
{
    let mut n: usize = calls.len();
    while n > 0
        invariant
            n <= calls@.len(),
            choices@.len() == calls@.len(),
            decision_for(calls@, choices@, caller, instance, calls@.len() as int) == decision_for(
                calls@,
                choices@,
                caller,
                instance,
                n as int,
            ),
        decreases n,
    {
        if calls[n - 1].caller == caller && calls[n - 1].instance == instance {
            return choices[n - 1];
        }
        n -= 1;
    }
    AwaitStorage::Unplanned
}

fn find_polled_slot(edges: &Vec<AwaitEdge>, instance: ChildInstanceId) -> (r: Option<AwaitSlotId>)
    ensures
        r == polled_slot(edges@, instance, edges@.len() as int),
{
    let mut n: usize = edges.len();
    while n > 0
        invariant
            n <= edges@.len(),
            polled_slot(edges@, instance, edges@.len() as int) == polled_slot(
                edges@,
                instance,
                n as int,
            ),
        decreases n,
    {
        if edges[n - 1].instance == instance {
            return Some(edges[n - 1].slot);
        }
        n -= 1;
    }
    None
}

fn find_free_slot(edges: &Vec<AwaitEdge>) -> (r: u64)
    ensures
        r == first_free_slot(edges@, edges@.len() as int),
{
    let mut free: u64 = 0;
    let mut n: usize = 0;
    while n < edges.len()
        invariant
            n <= edges@.len(),
            free == first_free_slot(edges@, n as int),
        decreases edges@.len() - n,
    {
        let next: u64 = edges[n].slot.0 as u64 + 1;
        if next > free {
            free = next;
        }
        n += 1;
    }
    free
}

fn count_fresh_before(plan: &FunctionAwaitPlan, c: usize) -> (r: u64)
    requires
        c < plan.children@.len(),
    ensures
        r == fresh_before(plan.edges@, plan.children@, c as int, plan.children@.len() as int),
{
    let mut count: u64 = 0;
    let mut n: usize = 0;
    let child = &plan.children[c];
    while n < plan.children.len()
        invariant
            n <= plan.children@.len(),
            c < plan.children@.len(),
            *child == plan.children@[c as int],
            count <= n,
            count == fresh_before(plan.edges@, plan.children@, c as int, n as int),
        decreases plan.children@.len() - n,
    {
        let other = &plan.children[n];
        let fresh = match other.target {
            AwaitTarget::Dynamic(value) => match find_polled_slot(&plan.edges, other.id) {
                Some(slot) => false,
                None => true,
            },
            AwaitTarget::Static(callee) => false,
        };
        if fresh && (other.span.start_byte < child.span.start_byte || (other.span.start_byte
            == child.span.start_byte && (other.id.0 < child.id.0 || (other.id.0 == child.id.0 && n
            < c)))) {
            count += 1;
        }
        n += 1;
    }
    count
}

fn plan_children(
    plan: &FunctionAwaitPlan,
    caller: FunctionId,
    calls: &Vec<StaticCallEdge>,
    choices: &Vec<AwaitStorage>,
) -> (r: Vec<ChildInstance>)
    requires
        choices@.len() == calls@.len(),
        slots_fit(*plan),
    ensures
        r@ == planned_children(plan.edges@, plan.children@, caller, calls@, choices@),
{
    let free = find_free_slot(&plan.edges);
    let ghost planned = planned_children(
        plan.edges@,
        plan.children@,
        caller,
        calls@,
        choices@,
    );
    let mut children: Vec<ChildInstance> = Vec::new();
    let mut c: usize = 0;
    while c < plan.children.len()
        invariant
            c <= plan.children@.len(),
            choices@.len() == calls@.len(),
            slots_fit(*plan),
            free == first_free_slot(plan.edges@, plan.edges@.len() as int),
            planned == planned_children(plan.edges@, plan.children@, caller, calls@, choices@),
            children@ =~= planned.take(c as int),
        decreases plan.children@.len() - c,
    {
        let mut child = plan.children[c].clone();
        let storage = match child.target {
            AwaitTarget::Static(callee) => find_decision(calls, choices, caller, child.id),
            AwaitTarget::Dynamic(value) => match find_polled_slot(&plan.edges, child.id) {
                Some(slot) => AwaitStorage::Opaque(slot),
                None => {
                    let rank = count_fresh_before(plan, c);
                    proof {
                        fresh_before_counted(
                            plan.edges@,
                            plan.children@,
                            c as int,
                            plan.children@.len() as int,
                        );
                    }
                    AwaitStorage::Opaque(AwaitSlotId((free + rank) as u32))
                },
            },
        };
        child.storage = storage;
        children.push(child);
        c += 1;
    }
    children
}

fn inputs_of<'a>(functions: &'a Vec<AwaitStorageFunction>) -> (r: Vec<AwaitGraphFunction<'a>>)
    ensures
        r@ == graph_inputs(functions@),
{
    let mut inputs: Vec<AwaitGraphFunction<'a>> = Vec::new();
    let mut i: usize = 0;
    while i < functions.len()
        invariant
            i <= functions@.len(),
            inputs@ =~= graph_inputs(functions@).take(i as int),
        decreases functions@.len() - i,
    {
        let function = &functions[i];
        inputs.push(
            AwaitGraphFunction {
                caller: function.caller,
                translation_unit: function.translation_unit.clone(),
                source_start: function.source_start,
                plan: &function.plan,
            },
        );
        i += 1;
    }
    inputs
}

/// Selects deterministic storage for every child and validates the result.
pub fn plan_await_storage(
    functions: &mut Vec<AwaitStorageFunction>,
    symbols: &AsyncSymbolIndex,
) -> (r: AwaitStoragePlanResult)
    requires
        await_graph::targets_known(graph_inputs(old(functions)@), *symbols),
        calls_fit(await_graph::ordered_calls(graph_inputs(old(functions)@), *symbols), *symbols),
        forall|i: int|
            0 <= i < old(functions)@.len() ==> slots_fit((#[trigger] old(functions)@[i]).plan),
    ensures
        r.graph.edges@ == await_graph::ordered_calls(graph_inputs(old(functions)@), *symbols),
        order::keys_ascending(r.graph.nodes@),
        forall|x: FunctionId| #[trigger]
            r.graph.nodes@.contains(x) <==> await_graph::takes_part(
                graph_inputs(old(functions)@),
                x,
            ),
        await_graph::are_components(r.graph, r.components@),
        project_planned(old(functions)@, final(functions)@, *symbols),
        syntax::views(r.diagnostics@) == storage_problems(graph_inputs(final(functions)@)),
{
    let ghost before = functions@;
    let inputs = inputs_of(functions);
    let graph = build_static_call_graph(&inputs, symbols);
    let components = strongly_connected_components(&graph);
    proof {
        await_graph::ordered_calls_are_calls(inputs@, *symbols);
    }
    let choices = choose_storage(&graph.edges, symbols);
    let mut i: usize = 0;
    while i < functions.len()
        invariant
            i <= functions@.len(),
            functions@.len() == before.len(),
            choices@.len() == graph.edges@.len(),
            forall|k: int| 0 <= k < before.len() ==> slots_fit((#[trigger] before[k]).plan),
            forall|k: int| i <= k < before.len() ==> functions@[k] == #[trigger] before[k],
            forall|k: int|
                0 <= k < i ==> function_planned(
                    #[trigger] before[k],
                    #[trigger] functions@[k],
                    graph.edges@,
                    choices@,
                ),
        decreases functions@.len() - i,
    {
        assert(slots_fit(before[i as int].plan));
        let caller = functions[i].caller;
        let children = plan_children(&functions[i].plan, caller, &graph.edges, &choices);
        functions[i].plan.children = children;
        i += 1;
    }
    let planned = inputs_of(functions);
    let diagnostics = validate_storage_plan(&planned);
    AwaitStoragePlanResult { graph, components, diagnostics }
}

fn collect_children<'a>(functions: &Vec<AwaitGraphFunction<'a>>) -> (r: Vec<
    (FunctionId, &'a ChildInstance),
>)
    ensures
        r@ == children_of(functions@, functions@.len() as int),
{
    let mut entries: Vec<(FunctionId, &'a ChildInstance)> = Vec::new();
    let mut f: usize = 0;
    while f < functions.len()
        invariant
            f <= functions@.len(),
            entries@ == children_of(functions@, f as int),
        decreases functions@.len() - f,
    {
        let caller = functions[f].caller;
        let plan: &'a FunctionAwaitPlan = functions[f].plan;
        let ghost own = Seq::new(
            functions@[f as int].plan.children@.len(),
            |c: int| (functions@[f as int].caller, &functions@[f as int].plan.children@[c]),
        );
        let ghost before = entries@;
        let mut c: usize = 0;
        while c < plan.children.len()
            invariant
                c <= plan.children@.len(),
                own == Seq::new(plan.children@.len(), |c: int| (caller, &plan.children@[c])),
                entries@ =~= before + own.take(c as int),
            decreases plan.children@.len() - c,
        {
            entries.push((caller, &plan.children[c]));
            c += 1;
        }
        assert(own.take(c as int) =~= own);
        f += 1;
    }
    entries
}

/// Rejects incomplete, target-incompatible, or cyclic storage plans.
#[must_use]
pub fn validate_storage_plan(functions: &Vec<AwaitGraphFunction<'_>>) -> (r: Vec<Diagnostic>)
    ensures
        syntax::views(r@) == storage_problems(functions@),
{
    broadcast use {syntax::views_push, syntax::views_empty};

    let entries = collect_children(functions);
    let mut keys: Vec<Vec<u64>> = Vec::new();
    let mut i: usize = 0;
    while i < entries.len()
        invariant
            i <= entries@.len(),
            syntax::views(keys@) =~= child_keys(entries@).take(i as int),
        decreases entries@.len() - i,
    {
        let key: Vec<u64> = vec![
            entries[i].0.0 as u64,
            entries[i].1.span.start_byte as u64,
            entries[i].1.id.0 as u64,
        ];
        assert(key@ =~= child_keys(entries@)[i as int]);
        proof {
            syntax::views_push(keys@, key);
        }
        keys.push(key);
        i += 1;
    }
    assert(child_keys(entries@).take(i as int) =~= child_keys(entries@));
    let sorted = sort_order(&keys);
    let ghost checked = checked_children(functions@);
    let mut diagnostics: Vec<Diagnostic> = Vec::new();
    let mut embedded: Vec<(FunctionId, FunctionId)> = Vec::new();
    let mut n: usize = 0;
    while n < sorted.len()
        invariant
            n <= sorted@.len(),
            sorted@.len() == entries@.len(),
            forall|k: int| 0 <= k < sorted@.len() ==> 0 <= #[trigger] sorted@[k] < entries@.len(),
            checked == order::arranged(entries@, order::positions(sorted@)),
            syntax::views(diagnostics@) == check_children(checked, n as int).diagnostics,
            embedded@ == check_children(checked, n as int).embedded,
        decreases sorted@.len() - n,
    {
        broadcast use {syntax::views_push, syntax::views_empty};

        let caller = entries[sorted[n]].0;
        let child = entries[sorted[n]].1;
        assert(checked[n as int] == (caller, child));
        n += 1;
        match (child.target, child.storage) {
            (_, AwaitStorage::Unplanned) => {
                diagnostics.push(
                    error_diagnostic(
                        "CRP5001",
                        "await child has no selected storage",
                        &child.span,
                    ),
                );
            },
            (AwaitTarget::Static(callee), AwaitStorage::Embedded(slot)) => {
                if would_create_cycle(&embedded, caller, callee) {
                    diagnostics.push(
                        error_diagnostic(
                            "CRP5003",
                            "embedded child storage creates a recursive layout cycle",
                            &child.span,
                        ),
                    );
                } else {
                    embedded.push((caller, callee));
                }
            },
            (AwaitTarget::Static(callee), AwaitStorage::Boxed(slot)) => {},
            (AwaitTarget::Dynamic(value), AwaitStorage::Opaque(slot)) => {},
            _ => {
                diagnostics.push(
                    error_diagnostic(
                        "CRP5002",
                        "await target and storage strategy are incompatible",
                        &child.span,
                    ),
                );
            },
        }
    }
    diagnostics
}

} // verus!
