//! The project graph of compiler-known child instantiations.

use vstd::prelude::*;

use crate::await_plan::{AwaitTarget, ChildInstance, ChildInstanceId, FunctionAwaitPlan};
use crate::graph;
use crate::graph::reachable_from;
use crate::order;
use crate::order::{add_key, has_key, push_string_key, sort_order, Key};
use crate::symbol_index::{AsyncLinkageKey, AsyncSymbolIndex, FunctionId, TranslationUnitId};
use crate::syntax;
use crate::syntax::SourceSpan;
use crate::text::str_eq;

verus! {

/// One planned function supplied to project-level static-call analysis.
pub struct AwaitGraphFunction<'plan> {
    pub caller: FunctionId,
    pub translation_unit: TranslationUnitId,
    pub source_start: usize,
    pub plan: &'plan FunctionAwaitPlan,
}

/// One static child-instantiation edge in the project call graph.
#[derive(Debug, PartialEq, Eq)]
pub struct StaticCallEdge {
    pub caller: FunctionId,
    pub callee: FunctionId,
    pub instance: ChildInstanceId,
    pub translation_unit: TranslationUnitId,
    pub caller_source_start: usize,
    pub child_span: SourceSpan,
}

impl Clone for StaticCallEdge {
    fn clone(&self) -> (r: Self)
        ensures
            r == *self,
    {
        StaticCallEdge {
            caller: self.caller,
            callee: self.callee,
            instance: self.instance,
            translation_unit: self.translation_unit.clone(),
            caller_source_start: self.caller_source_start,
            child_span: self.child_span.clone(),
        }
    }
}

/// A deterministic graph of compiler-known child instantiations.
#[derive(Debug, Clone, PartialEq, Eq)]
pub struct StaticCallGraph {
    pub nodes: Vec<FunctionId>,
    pub edges: Vec<StaticCallEdge>,
}

impl Default for StaticCallGraph {
    fn default() -> (r: Self)
        ensures
            r.nodes@ == Seq::<FunctionId>::empty(),
            r.edges@ == Seq::<StaticCallEdge>::empty(),
    {
        StaticCallGraph { nodes: Vec::new(), edges: Vec::new() }
    }
}

/// One strongly connected component in stable node order.
#[derive(Debug, Clone, PartialEq, Eq)]
pub struct CallGraphScc {
    pub functions: Vec<FunctionId>,
    pub cyclic: bool,
}

/// The call that instantiates a child, if its target is known.
pub open spec fn call_of(
    caller: FunctionId,
    translation_unit: TranslationUnitId,
    source_start: usize,
    child: ChildInstance,
) -> Option<StaticCallEdge> {
    match child.target {
        AwaitTarget::Static(callee) => Some(
            StaticCallEdge {
                caller,
                callee,
                instance: child.id,
                translation_unit,
                caller_source_start: source_start,
                child_span: child.span,
            },
        ),
        AwaitTarget::Dynamic(value) => None,
    }
}

/// The calls of the first `n` children of a function.
pub open spec fn calls_of(function: AwaitGraphFunction, n: int) -> Seq<StaticCallEdge>
    decreases n,
{
    if n <= 0 {
        Seq::empty()
    } else {
        match call_of(
            function.caller,
            function.translation_unit,
            function.source_start,
            function.plan.children@[n - 1],
        ) {
            Some(call) => calls_of(function, n - 1).push(call),
            None => calls_of(function, n - 1),
        }
    }
}

/// The calls of the first `n` functions, in the order of the functions.
pub open spec fn project_calls(functions: Seq<AwaitGraphFunction>, n: int) -> Seq<StaticCallEdge>
    decreases n,
{
    if n <= 0 {
        Seq::empty()
    } else {
        project_calls(functions, n - 1) + calls_of(
            functions[n - 1],
            functions[n - 1].plan.children@.len() as int,
        )
    }
}

/// A linkage key as a sort key: external names come before internal ones.
pub open spec fn linkage_key(key: AsyncLinkageKey) -> Seq<u64> {
    match key {
        AsyncLinkageKey::External { name } => seq![0u64] + order::string_key(name@),
        AsyncLinkageKey::Internal { translation_unit, name } => seq![1u64] + order::string_key(
            translation_unit.0@,
        ) + order::string_key(name@),
    }
}

/// Calls are ordered by unit, caller position, child position, callee, and
/// instance.
pub open spec fn call_key(symbols: AsyncSymbolIndex, call: StaticCallEdge) -> Seq<u64> {
    order::string_key(call.translation_unit.0@) + seq![
        call.caller_source_start as u64,
        call.child_span.start_byte as u64,
    ] + linkage_key(symbols.symbol_spec(call.callee)->0.key) + seq![call.instance.0 as u64]
}

/// The sort keys of a list of calls.
pub open spec fn call_keys(symbols: AsyncSymbolIndex, calls: Seq<StaticCallEdge>) -> Seq<Seq<u64>> {
    Seq::new(calls.len(), |i: int| call_key(symbols, calls[i]))
}

/// Whether two spans cover the same range of the same file.
pub open spec fn same_span(a: SourceSpan, b: SourceSpan) -> bool {
    a.path@ == b.path@ && a.start_byte == b.start_byte && a.end_byte == b.end_byte && a.start
        == b.start && a.end == b.end
}

/// Whether two calls are the same.
pub open spec fn same_call(a: StaticCallEdge, b: StaticCallEdge) -> bool {
    a.caller == b.caller && a.callee == b.callee && a.instance == b.instance
        && a.translation_unit.0@ == b.translation_unit.0@ && a.caller_source_start
        == b.caller_source_start && same_span(a.child_span, b.child_span)
}

/// The first `n` calls without those that repeat the call kept before them.
pub open spec fn without_repeats(calls: Seq<StaticCallEdge>, n: int) -> Seq<StaticCallEdge>
    decreases n,
{
    if n <= 0 {
        Seq::empty()
    } else {
        let kept = without_repeats(calls, n - 1);
        if kept.len() > 0 && same_call(calls[n - 1], kept.last()) {
            kept
        } else {
            kept.push(calls[n - 1])
        }
    }
}

/// The calls of a project, ordered and without repeats.
pub open spec fn ordered_calls(
    functions: Seq<AwaitGraphFunction>,
    symbols: AsyncSymbolIndex,
) -> Seq<StaticCallEdge> {
    let calls = project_calls(functions, functions.len() as int);
    let sorted = order::sorted_by(calls, call_keys(symbols, calls));
    without_repeats(sorted, sorted.len() as int)
}

/// Whether a function calls or is called.
pub open spec fn takes_part(functions: Seq<AwaitGraphFunction>, x: FunctionId) -> bool {
    ||| exists|i: int| 0 <= i < functions.len() && (#[trigger] functions[i]).caller == x
    ||| exists|i: int|
        0 <= i < project_calls(functions, functions.len() as int).len() && (
        #[trigger] project_calls(functions, functions.len() as int)[i]).callee == x
}

/// Whether the index knows every static target.
pub open spec fn targets_known(
    functions: Seq<AwaitGraphFunction>,
    symbols: AsyncSymbolIndex,
) -> bool {
    forall|i: int|
        #![trigger project_calls(functions, functions.len() as int)[i]]
        0 <= i < project_calls(functions, functions.len() as int).len() ==> symbols.symbol_spec(
            project_calls(functions, functions.len() as int)[i].callee,
        ) is Some
}

fn push_linkage_key(key: &mut Vec<u64>, linkage: &AsyncLinkageKey)
    ensures
        final(key)@ == old(key)@ + linkage_key(*linkage),
{
    match linkage {
        AsyncLinkageKey::External { name } => {
            key.push(0);
            push_string_key(key, name.as_str());
            assert(key@ =~= old(key)@ + linkage_key(*linkage));
        },
        AsyncLinkageKey::Internal { translation_unit, name } => {
            key.push(1);
            push_string_key(key, translation_unit.0.as_str());
            push_string_key(key, name.as_str());
            assert(key@ =~= old(key)@ + linkage_key(*linkage));
        },
    }
}

fn key_of_call(symbols: &AsyncSymbolIndex, call: &StaticCallEdge) -> (r: Vec<u64>)
    requires
        symbols.symbol_spec(call.callee) is Some,
    ensures
        r@ == call_key(*symbols, *call),
{
    let mut key: Vec<u64> = Vec::new();
    push_string_key(&mut key, call.translation_unit.0.as_str());
    key.push(call.caller_source_start as u64);
    key.push(call.child_span.start_byte as u64);
    if let Some(symbol) = symbols.symbol(call.callee) {
        push_linkage_key(&mut key, &symbol.key);
    }
    key.push(call.instance.0 as u64);
    assert(key@ =~= call_key(*symbols, *call));
    key
}

/// Tells whether two spans cover the same range of the same file.
pub fn spans_equal(a: &SourceSpan, b: &SourceSpan) -> (r: bool)
    ensures
        r == same_span(*a, *b),
{
    str_eq(a.path.as_str(), b.path.as_str()) && a.start_byte == b.start_byte && a.end_byte
        == b.end_byte && a.start == b.start && a.end == b.end
}

fn calls_equal(a: &StaticCallEdge, b: &StaticCallEdge) -> (r: bool)
    ensures
        r == same_call(*a, *b),
{
    a.caller == b.caller && a.callee == b.callee && a.instance == b.instance && str_eq(
        a.translation_unit.0.as_str(),
        b.translation_unit.0.as_str(),
    ) && a.caller_source_start == b.caller_source_start && spans_equal(&a.child_span, &b.child_span)
}

fn collect_calls(functions: &Vec<AwaitGraphFunction<'_>>) -> (r: Vec<StaticCallEdge>)
    ensures
        r@ == project_calls(functions@, functions@.len() as int),
{
    let mut calls: Vec<StaticCallEdge> = Vec::new();
    let mut f: usize = 0;
    while f < functions.len()
        invariant
            f <= functions@.len(),
            calls@ == project_calls(functions@, f as int),
        decreases functions@.len() - f,
    {
        let function = &functions[f];
        let children = &function.plan.children;
        let ghost before = calls@;
        let mut c: usize = 0;
        while c < children.len()
            invariant
                c <= children@.len(),
                children@ == function.plan.children@,
                calls@ =~= before + calls_of(*function, c as int),
            decreases children@.len() - c,
        {
            let child = &children[c];
            if let AwaitTarget::Static(callee) = child.target {
                calls.push(
                    StaticCallEdge {
                        caller: function.caller,
                        callee,
                        instance: child.id,
                        translation_unit: function.translation_unit.clone(),
                        caller_source_start: function.source_start,
                        child_span: child.span.clone(),
                    },
                );
            }
            c += 1;
        }
        f += 1;
    }
    calls
}

/// Builds a project static-call graph and omits every dynamic await target.
#[must_use]
pub fn build_static_call_graph(
    functions: &Vec<AwaitGraphFunction<'_>>,
    symbols: &AsyncSymbolIndex,
) -> (r: StaticCallGraph)
    requires
        targets_known(functions@, *symbols),
    ensures
        r.edges@ == ordered_calls(functions@, *symbols),
        order::keys_ascending(r.nodes@),
        forall|x: FunctionId| #[trigger] r.nodes@.contains(x) <==> takes_part(functions@, x),
{
    let calls = collect_calls(functions);
    let mut nodes: Vec<FunctionId> = Vec::new();
    let mut i: usize = 0;
    while i < functions.len()
        invariant
            i <= functions@.len(),
            order::keys_ascending(nodes@),
            forall|x: FunctionId| #[trigger]
                nodes@.contains(x) <==> exists|k: int|
                    0 <= k < i && (#[trigger] functions@[k]).caller == x,
        decreases functions@.len() - i,
    {
        proof {
            order::with_key_ascending(nodes@, functions@[i as int].caller, 0);
        }
        add_key(&mut nodes, functions[i].caller);
        i += 1;
    }
    let mut keys: Vec<Vec<u64>> = Vec::new();
    let mut c: usize = 0;
    while c < calls.len()
        invariant
            c <= calls@.len(),
            targets_known(functions@, *symbols),
            calls@ == project_calls(functions@, functions@.len() as int),
            syntax::views(keys@) =~= call_keys(*symbols, calls@.take(c as int)),
            order::keys_ascending(nodes@),
            forall|x: FunctionId| #[trigger]
                nodes@.contains(x) <==> (exists|k: int|
                    0 <= k < functions@.len() && (#[trigger] functions@[k]).caller == x) || (
                exists|k: int| 0 <= k < c && (#[trigger] calls@[k]).callee == x),
        decreases calls@.len() - c,
    {
        let key = key_of_call(symbols, &calls[c]);
        proof {
            order::with_key_ascending(nodes@, calls@[c as int].callee, 0);
            syntax::views_push(keys@, key);
            assert(calls@.take(c + 1) =~= calls@.take(c as int).push(calls@[c as int]));
            assert(call_keys(*symbols, calls@.take(c + 1)) =~= call_keys(
                *symbols,
                calls@.take(c as int),
            ).push(key@));
        }
        add_key(&mut nodes, calls[c].callee);
        keys.push(key);
        c += 1;
    }
    assert(calls@.take(c as int) =~= calls@);
    let sorted = sort_order(&keys);
    let ghost arranged = order::sorted_by(calls@, call_keys(*symbols, calls@));
    let mut edges: Vec<StaticCallEdge> = Vec::new();
    let mut j: usize = 0;
    while j < sorted.len()
        invariant
            j <= sorted@.len(),
            sorted@.len() == calls@.len(),
            forall|k: int| 0 <= k < sorted@.len() ==> 0 <= #[trigger] sorted@[k] < calls@.len(),
            arranged == order::arranged(calls@, order::positions(sorted@)),
            edges@ == without_repeats(arranged, j as int),
        decreases sorted@.len() - j,
    {
        let call = &calls[sorted[j]];
        let repeats = edges.len() > 0 && calls_equal(call, &edges[edges.len() - 1]);
        if !repeats {
            edges.push(call.clone());
        }
        j += 1;
    }
    StaticCallGraph { nodes, edges }
}

/// A call of a project is the call of one child of one function.
pub proof fn project_call_source(functions: Seq<AwaitGraphFunction>, n: int, i: int) -> (r: (
    int,
    int,
))
    requires
        0 <= n <= functions.len(),
        0 <= i < project_calls(functions, n).len(),
    ensures
        0 <= r.0 < n,
        0 <= r.1 < functions[r.0].plan.children@.len(),
        call_of(
            functions[r.0].caller,
            functions[r.0].translation_unit,
            functions[r.0].source_start,
            functions[r.0].plan.children@[r.1],
        ) == Some(project_calls(functions, n)[i]),
    decreases n,
{
    let before = project_calls(functions, n - 1);
    if i < before.len() {
        project_call_source(functions, n - 1, i)
    } else {
        let children = functions[n - 1].plan.children@;
        let c = function_call_source(functions[n - 1], children.len() as int, i - before.len());
        (n - 1, c)
    }
}

proof fn function_call_source(function: AwaitGraphFunction, n: int, i: int) -> (c: int)
    requires
        0 <= n <= function.plan.children@.len(),
        0 <= i < calls_of(function, n).len(),
    ensures
        0 <= c < n,
        call_of(
            function.caller,
            function.translation_unit,
            function.source_start,
            function.plan.children@[c],
        ) == Some(calls_of(function, n)[i]),
    decreases n,
{
    if i < calls_of(function, n - 1).len() {
        function_call_source(function, n - 1, i)
    } else {
        n - 1
    }
}

/// The call of every child with a known target is among the calls of its
/// function.
proof fn function_call_present(function: AwaitGraphFunction, n: int, c: int) -> (i: int)
    requires
        0 <= c < n <= function.plan.children@.len(),
        function.plan.children@[c].target is Static,
    ensures
        0 <= i < calls_of(function, n).len(),
        call_of(
            function.caller,
            function.translation_unit,
            function.source_start,
            function.plan.children@[c],
        ) == Some(calls_of(function, n)[i]),
    decreases n,
{
    if c == n - 1 {
        calls_of(function, n - 1).len() as int
    } else {
        function_call_present(function, n - 1, c)
    }
}

/// The call of every child with a known target is among the calls of the
/// project.
pub proof fn project_call_present(
    functions: Seq<AwaitGraphFunction>,
    n: int,
    f: int,
    c: int,
) -> (i: int)
    requires
        0 <= f < n <= functions.len(),
        0 <= c < functions[f].plan.children@.len(),
        functions[f].plan.children@[c].target is Static,
    ensures
        0 <= i < project_calls(functions, n).len(),
        call_of(
            functions[f].caller,
            functions[f].translation_unit,
            functions[f].source_start,
            functions[f].plan.children@[c],
        ) == Some(project_calls(functions, n)[i]),
    decreases n,
{
    let before = project_calls(functions, n - 1);
    if f == n - 1 {
        let children = functions[f].plan.children@;
        let i = function_call_present(functions[f], children.len() as int, c);
        before.len() + i
    } else {
        project_call_present(functions, n - 1, f, c)
    }
}

/// Every ordered call is a call of the project, there are no more of them than
/// calls, and every call is among them.
pub proof fn ordered_calls_are_calls(
    functions: Seq<AwaitGraphFunction>,
    symbols: AsyncSymbolIndex,
)
    ensures
        ordered_calls(functions, symbols).len() <= project_calls(
            functions,
            functions.len() as int,
        ).len(),
        forall|i: int|
            0 <= i < ordered_calls(functions, symbols).len() ==> project_calls(
                functions,
                functions.len() as int,
            ).contains(#[trigger] ordered_calls(functions, symbols)[i]),
        forall|k: int|
            #![trigger project_calls(functions, functions.len() as int)[k]]
            0 <= k < project_calls(functions, functions.len() as int).len() ==> exists|i: int|
                0 <= i < ordered_calls(functions, symbols).len() && same_call(
                    project_calls(functions, functions.len() as int)[k],
                    #[trigger] ordered_calls(functions, symbols)[i],
                ),
{
    let calls = project_calls(functions, functions.len() as int);
    let keys = call_keys(symbols, calls);
    let places = order::stable_order(keys, keys.len() as int);
    let sorted = order::sorted_by(calls, keys);
    order::stable_order_sorts(keys, keys.len() as int);
    kept_calls(sorted, sorted.len() as int);
    let kept = ordered_calls(functions, symbols);
    assert forall|i: int| 0 <= i < kept.len() implies calls.contains(#[trigger] kept[i]) by {
        let j = choose|j: int| 0 <= j < sorted.len() && sorted[j] == kept[i];
        assert(calls[places[j]] == kept[i]);
    }
    assert forall|k: int| 0 <= k < calls.len() implies exists|i: int|
        0 <= i < kept.len() && same_call(#[trigger] calls[k], #[trigger] kept[i]) by {
        assert(places.contains(k));
        let j = choose|j: int| 0 <= j < places.len() && places[j] == k;
        assert(sorted[j] == calls[k]);
    }
}

proof fn kept_calls(calls: Seq<StaticCallEdge>, n: int)
    requires
        0 <= n <= calls.len(),
    ensures
        without_repeats(calls, n).len() <= n,
        n > 0 ==> without_repeats(calls, n).len() > 0,
        forall|i: int|
            0 <= i < without_repeats(calls, n).len() ==> calls.contains(
                #[trigger] without_repeats(calls, n)[i],
            ),
        forall|k: int|
            #![trigger calls[k]]
            0 <= k < n ==> exists|i: int|
                0 <= i < without_repeats(calls, n).len() && same_call(
                    calls[k],
                    #[trigger] without_repeats(calls, n)[i],
                ),
    decreases n,
{
    if n > 0 {
        kept_calls(calls, n - 1);
        let before = without_repeats(calls, n - 1);
        let after = without_repeats(calls, n);
        assert forall|k: int| 0 <= k < n implies exists|i: int|
            0 <= i < after.len() && same_call(#[trigger] calls[k], #[trigger] after[i]) by {
            if k < n - 1 {
                let i = choose|i: int|
                    0 <= i < before.len() && same_call(calls[k], #[trigger] before[i]);
                assert(after[i] == before[i]);
            } else {
                assert(same_call(calls[n - 1], after[after.len() - 1]));
            }
        }
        assert forall|i: int| 0 <= i < after.len() implies calls.contains(#[trigger] after[i]) by {
            if i < before.len() {
                assert(after[i] == before[i]);
            } else {
                assert(calls[n - 1] == after[i]);
            }
        }
    }
}

/// The calls as pairs of caller and callee.
pub open spec fn call_pairs(edges: Seq<StaticCallEdge>) -> Seq<(FunctionId, FunctionId)> {
    Seq::new(edges.len(), |i: int| (edges[i].caller, edges[i].callee))
}

/// Whether a graph holds a node, by itself or as an end of an edge.
pub open spec fn is_node(graph: StaticCallGraph, x: FunctionId) -> bool {
    graph.nodes@.contains(x) || exists|i: int|
        0 <= i < graph.edges@.len() && ((#[trigger] graph.edges@[i]).caller == x
            || graph.edges@[i].callee == x)
}

/// Whether two functions call each other, directly or through others.
pub open spec fn mutually_reachable(graph: StaticCallGraph, x: FunctionId, y: FunctionId) -> bool {
    graph::reaches(call_pairs(graph.edges@), x, y) && graph::reaches(
        call_pairs(graph.edges@),
        y,
        x,
    )
}

/// Whether a function calls itself.
pub open spec fn calls_itself(graph: StaticCallGraph, x: FunctionId) -> bool {
    exists|i: int|
        0 <= i < graph.edges@.len() && (#[trigger] graph.edges@[i]).caller == x
            && graph.edges@[i].callee == x
}

/// Whether a component holds exactly the nodes that call each other with its
/// first node, in ascending order, and says whether they form a cycle.
pub open spec fn is_component(graph: StaticCallGraph, component: CallGraphScc) -> bool {
    let functions = component.functions@;
    &&& functions.len() > 0
    &&& is_node(graph, functions[0])
    &&& order::keys_ascending(functions)
    &&& forall|y: FunctionId| #[trigger]
        functions.contains(y) <==> is_node(graph, y) && mutually_reachable(graph, functions[0], y)
    &&& component.cyclic == (functions.len() > 1 || calls_itself(graph, functions[0]))
}

/// Whether the components cover the graph, in ascending order of their first
/// nodes.
pub open spec fn are_components(graph: StaticCallGraph, components: Seq<CallGraphScc>) -> bool {
    &&& forall|i: int| 0 <= i < components.len() ==> is_component(graph, #[trigger] components[i])
    &&& forall|i: int, j: int|
        0 <= i < j < components.len() ==> (#[trigger] components[i]).functions@[0].0 < (
        #[trigger] components[j]).functions@[0].0
    &&& forall|x: FunctionId| #[trigger]
        is_node(graph, x) ==> exists|i: int|
            0 <= i < components.len() && (#[trigger] components[i]).functions@.contains(x)
}

/// No function belongs to two components.
pub proof fn components_are_disjoint(
    graph: StaticCallGraph,
    components: Seq<CallGraphScc>,
    i: int,
    j: int,
    x: FunctionId,
)
    requires
        are_components(graph, components),
        0 <= i < components.len(),
        0 <= j < components.len(),
        components[i].functions@.contains(x),
        components[j].functions@.contains(x),
    ensures
        i == j,
{
    let a = components[i].functions@[0];
    let b = components[j].functions@[0];
    let pairs = call_pairs(graph.edges@);
    assert(is_component(graph, components[i]));
    assert(is_component(graph, components[j]));
    graph::reaches_transitive(pairs, a, x, b);
    graph::reaches_transitive(pairs, b, x, a);
    assert(components[i].functions@.contains(b));
    assert(components[j].functions@.contains(a));
    let k = choose|k: int|
        0 <= k < components[i].functions@.len() && components[i].functions@[k] == b;
    let l = choose|l: int|
        0 <= l < components[j].functions@.len() && components[j].functions@[l] == a;
    if k > 0 {
        assert(components[i].functions@[0].rank_spec() < components[i].functions@[k].rank_spec());
    }
    if l > 0 {
        assert(components[j].functions@[0].rank_spec() < components[j].functions@[l].rank_spec());
    }
    assert(a.0 <= b.0);
    assert(b.0 <= a.0);
    if i < j {
        assert(components[i].functions@[0].0 < components[j].functions@[0].0);
    } else if j < i {
        assert(components[j].functions@[0].0 < components[i].functions@[0].0);
    }
}

fn graph_nodes(graph: &StaticCallGraph) -> (r: Vec<FunctionId>)
    ensures
        order::keys_ascending(r@),
        forall|x: FunctionId| #[trigger] r@.contains(x) <==> is_node(*graph, x),
{
    let mut nodes: Vec<FunctionId> = Vec::new();
    let mut i: usize = 0;
    while i < graph.nodes.len()
        invariant
            i <= graph.nodes@.len(),
            order::keys_ascending(nodes@),
            forall|x: FunctionId| #[trigger]
                nodes@.contains(x) <==> exists|k: int| 0 <= k < i && #[trigger] graph.nodes@[k] == x,
        decreases graph.nodes@.len() - i,
    {
        proof {
            order::with_key_ascending(nodes@, graph.nodes@[i as int], 0);
        }
        add_key(&mut nodes, graph.nodes[i]);
        i += 1;
    }
    let mut e: usize = 0;
    while e < graph.edges.len()
        invariant
            e <= graph.edges@.len(),
            order::keys_ascending(nodes@),
            forall|x: FunctionId| #[trigger]
                nodes@.contains(x) <==> graph.nodes@.contains(x) || (exists|k: int|
                    0 <= k < e && ((#[trigger] graph.edges@[k]).caller == x
                        || graph.edges@[k].callee == x)),
        decreases graph.edges@.len() - e,
    {
        proof {
            let edge = graph.edges@[e as int];
            order::with_key_ascending(nodes@, edge.caller, 0);
            order::with_key_ascending(order::with_key(nodes@, edge.caller, 0), edge.callee, 0);
        }
        add_key(&mut nodes, graph.edges[e].caller);
        add_key(&mut nodes, graph.edges[e].callee);
        e += 1;
    }
    nodes
}

fn pairs_of(edges: &Vec<StaticCallEdge>) -> (r: Vec<(FunctionId, FunctionId)>)
    ensures
        r@ == call_pairs(edges@),
{
    let mut pairs: Vec<(FunctionId, FunctionId)> = Vec::new();
    let mut i: usize = 0;
    while i < edges.len()
        invariant
            i <= edges@.len(),
            pairs@ =~= call_pairs(edges@).take(i as int),
        decreases edges@.len() - i,
    {
        pairs.push((edges[i].caller, edges[i].callee));
        i += 1;
    }
    pairs
}

fn has_self_edge(graph: &StaticCallGraph, x: FunctionId) -> (r: bool)
    ensures
        r == calls_itself(*graph, x),
{
    let mut i: usize = 0;
    while i < graph.edges.len()
        invariant
            i <= graph.edges@.len(),
            forall|k: int|
                0 <= k < i ==> !((#[trigger] graph.edges@[k]).caller == x && graph.edges@[k].callee
                    == x),
        decreases graph.edges@.len() - i,
    {
        if graph.edges[i].caller == x && graph.edges[i].callee == x {
            return true;
        }
        i += 1;
    }
    false
}

/// Lists the nodes that call each other with node `n`, in ascending order.
fn class_of(
    graph: &StaticCallGraph,
    nodes: &Vec<FunctionId>,
    reached: &Vec<Vec<FunctionId>>,
    n: usize,
) -> (r: Vec<FunctionId>)
    requires
        n < nodes@.len(),
        reached@.len() == nodes@.len(),
        forall|k: int, x: FunctionId|
            0 <= k < nodes@.len() ==> (#[trigger] reached@[k]@.contains(x) <==> graph::reaches(
                call_pairs(graph.edges@),
                nodes@[k],
                x,
            )),
        order::keys_ascending(nodes@),
        forall|x: FunctionId| #[trigger] nodes@.contains(x) <==> is_node(*graph, x),
    ensures
        order::keys_ascending(r@),
        forall|y: FunctionId| #[trigger]
            r@.contains(y) <==> is_node(*graph, y) && mutually_reachable(
                *graph,
                nodes@[n as int],
                y,
            ),
{
    let ghost pairs = call_pairs(graph.edges@);
    let node = nodes[n];
    assert(nodes@.contains(node));
    let mut members: Vec<FunctionId> = Vec::new();
    let mut m: usize = 0;
    while m < nodes.len()
        invariant
            m <= nodes@.len(),
            n < nodes@.len(),
            node == nodes@[n as int],
            pairs == call_pairs(graph.edges@),
            reached@.len() == nodes@.len(),
            forall|k: int, x: FunctionId|
                0 <= k < nodes@.len() ==> (#[trigger] reached@[k]@.contains(x)
                    <==> graph::reaches(pairs, nodes@[k], x)),
            order::keys_ascending(nodes@),
            order::keys_ascending(members@),
            forall|k: int|
                0 <= k < members@.len() ==> exists|p: int|
                    0 <= p < m && nodes@[p] == #[trigger] members@[k],
            forall|p: int|
                0 <= p < m ==> (members@.contains(#[trigger] nodes@[p]) <==> mutually_reachable(
                    *graph,
                    node,
                    nodes@[p],
                )),
        decreases nodes@.len() - m,
    {
        let other = nodes[m];
        let ghost before = members@;
        if has_key(&reached[n], other) && has_key(&reached[m], node) {
            assert(mutually_reachable(*graph, node, other));
            proof {
                assert forall|a: int, b: int| 0 <= a < b < before.push(other).len() implies (
                #[trigger] before.push(other)[a]).rank_spec() < (#[trigger] before.push(
                    other,
                )[b]).rank_spec() by {
                    if b == before.len() {
                        let p = choose|p: int| 0 <= p < m && nodes@[p] == before[a];
                        assert(nodes@[p].rank_spec() < nodes@[m as int].rank_spec());
                    }
                }
            }
            members.push(other);
            assert(members@[before.len() as int] == other);
        } else {
            assert(!mutually_reachable(*graph, node, other));
        }
        proof {
            assert forall|p: int| 0 <= p < m + 1 implies (members@.contains(
                #[trigger] nodes@[p],
            ) <==> mutually_reachable(*graph, node, nodes@[p])) by {
                if p < m {
                    if before.contains(nodes@[p]) {
                        let k = choose|k: int| 0 <= k < before.len() && before[k] == nodes@[p];
                        assert(members@[k] == nodes@[p]);
                    } else if members@.contains(nodes@[p]) {
                        let k = choose|k: int|
                            0 <= k < members@.len() && members@[k] == nodes@[p];
                        if k < before.len() {
                            assert(before[k] == nodes@[p]);
                        } else {
                            assert(nodes@[p].rank_spec() < nodes@[m as int].rank_spec());
                        }
                    }
                } else {
                    if before.contains(nodes@[p]) {
                        let k = choose|k: int| 0 <= k < before.len() && before[k] == nodes@[p];
                        let q = choose|q: int| 0 <= q < m && nodes@[q] == before[k];
                        assert(nodes@[q].rank_spec() < nodes@[m as int].rank_spec());
                    }
                    if members@.contains(nodes@[p]) && members@ == before {
                        assert(before.contains(nodes@[p]));
                    }
                }
            }
        }
        m += 1;
    }
    proof {
        assert forall|y: FunctionId| #[trigger] members@.contains(y) <==> is_node(*graph, y)
            && mutually_reachable(*graph, node, y) by {
            if members@.contains(y) {
                let k = choose|k: int| 0 <= k < members@.len() && members@[k] == y;
                let p = choose|p: int| 0 <= p < nodes@.len() && nodes@[p] == members@[k];
                assert(members@.contains(nodes@[p]));
                assert(nodes@.contains(y));
            } else if is_node(*graph, y) {
                assert(nodes@.contains(y));
                let p = choose|p: int| 0 <= p < nodes@.len() && nodes@[p] == y;
                assert(members@.contains(nodes@[p]) <==> mutually_reachable(
                    *graph,
                    node,
                    nodes@[p],
                ));
            }
        }
    }
    members
}

/// Whether some component holds `x`.
spec fn covered(components: Seq<CallGraphScc>, x: FunctionId) -> bool {
    exists|k: int| 0 <= k < components.len() && (#[trigger] components[k]).functions@.contains(x)
}

/// Whether the components are those of the first `n` nodes.
spec fn components_so_far(
    graph: StaticCallGraph,
    components: Seq<CallGraphScc>,
    nodes: Seq<FunctionId>,
    n: int,
) -> bool {
    &&& forall|k: int| 0 <= k < components.len() ==> is_component(graph, #[trigger] components[k])
    &&& forall|k: int, l: int|
        0 <= k < l < components.len() ==> (#[trigger] components[k]).functions@[0].0 < (
        #[trigger] components[l]).functions@[0].0
    &&& forall|k: int, m: int|
        0 <= k < components.len() && n <= m < nodes.len() ==> (
        #[trigger] components[k]).functions@[0].0 < (#[trigger] nodes[m]).0
    &&& forall|m: int| 0 <= m < n ==> covered(components, #[trigger] nodes[m])
}

proof fn next_component(
    graph: StaticCallGraph,
    components: Seq<CallGraphScc>,
    nodes: Seq<FunctionId>,
    n: int,
    component: CallGraphScc,
)
    requires
        components_so_far(graph, components, nodes, n),
        order::keys_ascending(nodes),
        0 <= n < nodes.len(),
        is_component(graph, component),
        component.functions@[0] == nodes[n],
    ensures
        components_so_far(graph, components.push(component), nodes, n + 1),
{
    let after = components.push(component);
    assert forall|k: int, m: int| 0 <= k < after.len() && n + 1 <= m < nodes.len() implies (
    #[trigger] after[k]).functions@[0].0 < (#[trigger] nodes[m]).0 by {
        if k == components.len() {
            assert(nodes[n].rank_spec() < nodes[m].rank_spec());
        }
    }
    assert forall|m: int| 0 <= m < n + 1 implies covered(after, #[trigger] nodes[m]) by {
        if m < n {
            assert(covered(components, nodes[m]));
            let k = choose|k: int|
                0 <= k < components.len() && (#[trigger] components[k]).functions@.contains(
                    nodes[m],
                );
            assert(after[k].functions@.contains(nodes[m]));
        } else {
            assert(after[components.len() as int].functions@.contains(nodes[n]));
        }
    }
}

proof fn earlier_component(
    graph: StaticCallGraph,
    components: Seq<CallGraphScc>,
    nodes: Seq<FunctionId>,
    n: int,
    members: Seq<FunctionId>,
)
    requires
        components_so_far(graph, components, nodes, n),
        order::keys_ascending(nodes),
        0 <= n < nodes.len(),
        forall|x: FunctionId| #[trigger] nodes.contains(x) <==> is_node(graph, x),
        order::keys_ascending(members),
        members.contains(nodes[n]),
        members[0] != nodes[n],
        forall|y: FunctionId| #[trigger]
            members.contains(y) <==> is_node(graph, y) && mutually_reachable(graph, nodes[n], y),
    ensures
        components_so_far(graph, components, nodes, n + 1),
{
    let pairs = call_pairs(graph.edges@);
    let node = nodes[n];
    let first = members[0];
    assert(members.contains(first));
    assert(nodes.contains(first));
    let p = choose|p: int| 0 <= p < nodes.len() && nodes[p] == first;
    let z = choose|z: int| 0 <= z < members.len() && members[z] == node;
    assert(members[0].rank_spec() < members[z].rank_spec());
    if p > n {
        assert(nodes[n].rank_spec() < nodes[p].rank_spec());
    }
    assert(covered(components, nodes[p]));
    let k = choose|k: int|
        0 <= k < components.len() && (#[trigger] components[k]).functions@.contains(nodes[p]);
    assert(is_component(graph, components[k]));
    let root = components[k].functions@[0];
    graph::reaches_transitive(pairs, root, first, node);
    graph::reaches_transitive(pairs, node, first, root);
    assert(nodes.contains(node));
    assert(components[k].functions@.contains(node));
    assert(covered(components, nodes[n]));
}

/// Computes the strongly connected components in stable order.
#[must_use]
pub fn strongly_connected_components(graph: &StaticCallGraph) -> (r: Vec<CallGraphScc>)
    ensures
        are_components(*graph, r@),
{
    let nodes = graph_nodes(graph);
    let pairs = pairs_of(&graph.edges);
    let mut reached: Vec<Vec<FunctionId>> = Vec::new();
    let mut i: usize = 0;
    while i < nodes.len()
        invariant
            i <= nodes@.len(),
            reached@.len() == i,
            forall|k: int, x: FunctionId|
                0 <= k < i ==> (#[trigger] reached@[k]@.contains(x) <==> graph::reaches(
                    pairs@,
                    nodes@[k],
                    x,
                )),
        decreases nodes@.len() - i,
    {
        let from = reachable_from(&pairs, nodes[i]);
        reached.push(from);
        i += 1;
    }
    let mut components: Vec<CallGraphScc> = Vec::new();
    let mut n: usize = 0;
    while n < nodes.len()
        invariant
            n <= nodes@.len(),
            pairs@ == call_pairs(graph.edges@),
            reached@.len() == nodes@.len(),
            forall|k: int, x: FunctionId|
                0 <= k < nodes@.len() ==> (#[trigger] reached@[k]@.contains(x) <==> graph::reaches(
                    pairs@,
                    nodes@[k],
                    x,
                )),
            order::keys_ascending(nodes@),
            forall|x: FunctionId| #[trigger] nodes@.contains(x) <==> is_node(*graph, x),
            components_so_far(*graph, components@, nodes@, n as int),
        decreases nodes@.len() - n,
    {
        let node = nodes[n];
        assert(nodes@.contains(node));
        let members = class_of(graph, &nodes, &reached, n);
        proof {
            graph::reaches_self(pairs@, node);
            assert(members@.contains(node));
        }
        if members[0] == node {
            let cyclic = members.len() > 1 || has_self_edge(graph, node);
            let component = CallGraphScc { functions: members, cyclic };
            proof {
                next_component(*graph, components@, nodes@, n as int, component);
            }
            components.push(component);
        } else {
            proof {
                earlier_component(*graph, components@, nodes@, n as int, members@);
            }
        }
        n += 1;
    }
    proof {
        assert forall|x: FunctionId| #[trigger] is_node(*graph, x) implies exists|i: int|
            0 <= i < components@.len() && (#[trigger] components@[i]).functions@.contains(x) by {
            assert(nodes@.contains(x));
            let m = choose|m: int| 0 <= m < nodes@.len() && nodes@[m] == x;
            assert(covered(components@, nodes@[m]));
        }
    }
    components
}

} // verus!
