//! Which children can be planned, and what is reported of the others.

use vstd::prelude::*;

use crate::await_plan::{AwaitStorage, AwaitTarget, ChildInstance};
use crate::await_storage;
use crate::await_storage::StorageProblems;
use crate::c_declaration_env;
use crate::c_declaration_env::EnvironmentView;
use crate::c_static_plan;
use crate::c_static_plan::{CChildStorage, ChildPlanView, ChildTargetView};
use crate::graph;
use crate::order;
use crate::symbol_index;
use crate::symbol_index::{AsyncParameter, AsyncSymbolIndex, FunctionId};
use crate::syntax::{DiagnosticSeverity, DiagnosticView};

verus! {

/// Whether the storage of a child in C is the one that was planned for it.
pub open spec fn stored_as_planned(planned: AwaitStorage, storage: CChildStorage) -> bool {
    match (planned, storage) {
        (AwaitStorage::Embedded(a), CChildStorage::Embedded(b)) => a == b,
        (AwaitStorage::Boxed(a), CChildStorage::Boxed(b)) => a == b,
        (AwaitStorage::Opaque(a), CChildStorage::Opaque(b)) => a == b,
        _ => false,
    }
}

/// Whether a child can be written in C: its callee is known and lives in typed
/// storage, or it is awaited through a value and lives behind an awaitable.
pub open spec fn can_be_written(child: ChildInstance, symbols: AsyncSymbolIndex) -> bool {
    match child.target {
        AwaitTarget::Static(callee) => symbols.symbol_spec(callee) is Some && (
        child.storage is Embedded || child.storage is Boxed),
        AwaitTarget::Dynamic(value) => child.storage is Opaque && child.origin is Direct,
    }
}

/// A child has a plan exactly if it can be written in C. The plan keeps the child:
/// its identity, what it awaits, where it comes from, its result, its place and its
/// storage. Any other child is reported as an error where it stands.
pub proof fn children_are_planned_or_reported(
    child: ChildInstance,
    symbols: AsyncSymbolIndex,
    unit: Seq<char>,
)
    ensures
        ({
            let outcome = c_static_plan::child_outcome(child, symbols, unit);
            &&& outcome is Ok <==> can_be_written(child, symbols)
            &&& outcome is Ok ==> {
                let plan = outcome->Ok_0;
                &&& plan.instance == child.id
                &&& plan.origin == child.origin
                &&& plan.result == child.result
                &&& plan.span == child.span
                &&& plan.requested_storage == child.storage
                &&& stored_as_planned(child.storage, plan.effective_storage)
                &&& plan.downgrade_reason is None
                &&& match child.target {
                    AwaitTarget::Static(callee) => plan.target is Static
                        && plan.target->Static_0.function == callee && plan.target->Static_0.stem
                        == (symbols.symbol_spec(callee)->0).public_stem@
                        && plan.target->Static_0.result_type == (symbols.symbol_spec(
                        callee,
                    )->0).result_type@ && plan.target->Static_0.parameters == (symbols.symbol_spec(
                        callee,
                    )->0).parameters@,
                    AwaitTarget::Dynamic(value) => plan.target == ChildTargetView::Dynamic(value),
                }
            }
            &&& outcome is Err ==> outcome->Err_0.severity == DiagnosticSeverity::Error
                && outcome->Err_0.primary_span == child.span
        }),
{
}

/// The plans of the children of a function are those of all that can be written,
/// each under its identity, where identities are distinct. There is one error for
/// each of the others.
pub proof fn every_child_is_planned_or_reported(
    found: Seq<DiagnosticView>,
    children: Seq<ChildInstance>,
    symbols: AsyncSymbolIndex,
    unit: Seq<char>,
    n: int,
    k: int,
)
    requires
        0 <= n <= children.len(),
        0 <= k < children.len(),
        forall|i: int|
            0 <= i < children.len() && i != k ==> (#[trigger] children[i]).id != children[k].id,
    ensures
        ({
            let plans = c_static_plan::child_plans(children, symbols, unit, n);
            let after = c_static_plan::child_problems(found, children, symbols, unit, n);
            &&& order::ascending(plans)
            &&& order::lookup(plans, children[k].id) == if k < n && can_be_written(
                children[k],
                symbols,
            ) {
                Some(c_static_plan::child_outcome(children[k], symbols, unit)->Ok_0)
            } else {
                None
            }
            &&& found.is_prefix_of(after)
            &&& k < n && !can_be_written(children[k], symbols) ==> exists|i: int|
                found.len() <= i < after.len() && (#[trigger] after[i]).primary_span
                    == children[k].span
            &&& (forall|i: int| 0 <= i < n ==> can_be_written(#[trigger] children[i], symbols))
                ==> after == found
        }),
    decreases n,
{
    if n > 0 {
        every_child_is_planned_or_reported(found, children, symbols, unit, n - 1, k);
        children_are_planned_or_reported(children[n - 1], symbols, unit);
        let plans = c_static_plan::child_plans(children, symbols, unit, n - 1);
        let before = c_static_plan::child_problems(found, children, symbols, unit, n - 1);
        let after = c_static_plan::child_problems(found, children, symbols, unit, n);
        match c_static_plan::child_outcome(children[n - 1], symbols, unit) {
            Ok(plan) => {
                order::put_ascending(plans, children[n - 1].id, plan, children[k].id);
            },
            Err(problem) => {
                assert(after == before.push(problem));
                assert(after[before.len() as int] == problem);
                assert(found =~= before.subrange(0, found.len() as int));
                assert(found =~= after.subrange(0, found.len() as int));
                assert(!can_be_written(children[n - 1], symbols));
            },
        }
        if k < n - 1 && !can_be_written(children[k], symbols) {
            let i = choose|i: int|
                found.len() <= i < before.len() && (#[trigger] before[i]).primary_span
                    == children[k].span;
            assert(after[i] == before[i]);
        }
    } else {
        assert(found =~= found.subrange(0, found.len() as int));
    }
}

/// A caller needs a prototype of a callee that its unit doesn't declare before it.
/// The prototype is that of the callee, and can be written where no type that it
/// mentions is declared only later.
pub proof fn prototypes_are_asked_for_where_needed(
    child: ChildPlanView,
    symbols: AsyncSymbolIndex,
    unit: Seq<char>,
    env: EnvironmentView,
    start: usize,
)
    ensures
        ({
            let need = c_static_plan::prototype_need(child, symbols, unit, env, start);
            match child.target {
                ChildTargetView::Dynamic(value) => need is None,
                ChildTargetView::Static(callee) => {
                    let declared = symbols.symbol_spec(callee.function) is Some && exists|i: int|
                        0 <= i < (symbols.symbol_spec(callee.function)->0).sites@.len() && (
                        #[trigger] (symbols.symbol_spec(
                            callee.function,
                        )->0).sites@[i]).translation_unit.0@ == unit && (symbols.symbol_spec(
                            callee.function,
                        )->0).sites@[i].start_byte < start;
                    let late = exists|name: Seq<char>|
                        #[trigger] mentioned(callee.result_type, callee.parameters, name)
                            && c_declaration_env::declared_after(env.types, name, start);
                    &&& declared <==> need is None
                    &&& !declared && !late ==> need == Some(
                        Ok::<FunctionId, DiagnosticView>(callee.function),
                    )
                    &&& !declared && late ==> need->0 is Err && (
                    need->0)->Err_0.primary_span == child.span && (need->0)->Err_0.severity
                        == DiagnosticSeverity::Error
                },
            }
        }),
{
    if let ChildTargetView::Static(callee) = child.target {
        let types = c_static_plan::signature_types(callee);
        if let Some(symbol) = symbols.symbol_spec(callee.function) {
            if symbol_index::site_before(symbol.sites@, unit, start as int) {
                let i = choose|i: int|
                    0 <= i < symbol.sites@.len() && #[trigger] symbol.sites@[i].translation_unit.0@
                        == unit && symbol.sites@[i].start_byte < start;
                assert(symbol.sites@[i].translation_unit.0@ == unit);
            }
        }
        assert forall|name: Seq<char>| #[trigger] c_declaration_env::any_mentions(types, name)
            == mentioned(callee.result_type, callee.parameters, name) by {
            if c_declaration_env::any_mentions(types, name) {
                let t = choose|t: int|
                    0 <= t < types.len() && c_declaration_env::mentions(#[trigger] types[t], name);
                if t > 0 {
                    assert(callee.parameters[t - 1].adjusted_type@ == types[t]);
                    assert(c_declaration_env::mentions(
                        callee.parameters[t - 1].adjusted_type@,
                        name,
                    ));
                }
            }
            if c_declaration_env::mentions(callee.result_type, name) {
                assert(types[0] == callee.result_type);
            } else if mentioned(callee.result_type, callee.parameters, name) {
                let k = choose|k: int|
                    0 <= k < callee.parameters.len() && c_declaration_env::mentions(
                        (#[trigger] callee.parameters[k]).adjusted_type@,
                        name,
                    );
                assert(types[k + 1] == callee.parameters[k].adjusted_type@);
            }
        }
        if c_declaration_env::hidden_at(env.types, types, start) {
            let name = choose|name: Seq<char>| #[trigger]
                c_declaration_env::any_mentions(types, name) && c_declaration_env::declared_after(
                    env.types,
                    name,
                    start,
                );
            assert(mentioned(callee.result_type, callee.parameters, name));
        }
        if exists|name: Seq<char>|
            #[trigger] mentioned(callee.result_type, callee.parameters, name)
                && c_declaration_env::declared_after(env.types, name, start) {
            let name = choose|name: Seq<char>|
                #[trigger] mentioned(callee.result_type, callee.parameters, name)
                    && c_declaration_env::declared_after(env.types, name, start);
            assert(c_declaration_env::any_mentions(types, name));
        }
    }
}

/// Whether the result type of a callee or the type of a parameter mentions a type.
pub open spec fn mentioned(
    result_type: Seq<char>,
    parameters: Seq<AsyncParameter>,
    name: Seq<char>,
) -> bool {
    c_declaration_env::mentions(result_type, name) || exists|k: int|
        0 <= k < parameters.len() && c_declaration_env::mentions(
            (#[trigger] parameters[k]).adjusted_type@,
            name,
        )
}

/// Checking the storage of a child reports nothing exactly if the child has storage,
/// the storage fits what is awaited, and embedding it closes no cycle. What is
/// reported is an error where the child stands. Whatever is embedded without a
/// cycle is remembered.
pub proof fn unfit_storage_is_reported(
    before: StorageProblems,
    caller: FunctionId,
    child: ChildInstance,
)
    ensures
        ({
            let after = await_storage::check_child(before, caller, child);
            let typed = child.storage is Embedded || child.storage is Boxed;
            let fits = (child.target is Static && typed) || (child.target is Dynamic
                && child.storage is Opaque);
            let embeds = child.target is Static && child.storage is Embedded;
            let cycle = embeds && graph::reaches(
                before.embedded,
                child.target->Static_0,
                caller,
            );
            &&& before.diagnostics.is_prefix_of(after.diagnostics)
            &&& after.diagnostics == before.diagnostics <==> fits && !cycle
            &&& forall|i: int|
                before.diagnostics.len() <= i < after.diagnostics.len() ==> (
                #[trigger] after.diagnostics[i]).primary_span == child.span
                    && after.diagnostics[i].severity == DiagnosticSeverity::Error
            &&& after.embedded == if embeds && !cycle {
                before.embedded.push((caller, child.target->Static_0))
            } else {
                before.embedded
            }
        }),
{
    let after = await_storage::check_child(before, caller, child);
    assert(before.diagnostics =~= after.diagnostics.subrange(
        0,
        before.diagnostics.len() as int,
    ));
}

} // verus!
