//! Call graphs, their components and the storage of children don't depend on
//! the order in which functions and calls are listed.

use vstd::prelude::*;

use crate::await_graph;
use crate::await_graph::{AwaitGraphFunction, CallGraphScc, StaticCallEdge, StaticCallGraph};
use crate::await_storage;
use crate::await_storage::{AwaitStorageFunction, AwaitStoragePlanResult};
use crate::graph;
use crate::order;
use crate::order::Key;
use crate::symbol_index::{AsyncSymbolIndex, FunctionId};

verus! {

/// Ascending lists of the same keys are equal.
pub proof fn ascending_keys_are_unique<K: Key>(a: Seq<K>, b: Seq<K>)
    requires
        order::keys_ascending(a),
        order::keys_ascending(b),
        forall|x: K| #[trigger] a.contains(x) <==> b.contains(x),
    ensures
        a == b,
    decreases a.len(),
{
    if a.len() == 0 {
        if b.len() > 0 {
            assert(b.contains(b[0]));
            assert(a.contains(b[0]));
        }
        assert(a =~= b);
    } else {
        assert(a.contains(a.last()));
        assert(b.contains(a.last()));
        let last = b.last();
        assert(b.contains(last));
        assert(a.contains(last));
        let i = choose|i: int| 0 <= i < a.len() && a[i] == last;
        let j = choose|j: int| 0 <= j < b.len() && b[j] == a.last();
        if i < a.len() - 1 {
            assert(a[i].rank_spec() < a[a.len() - 1].rank_spec());
            if j < b.len() - 1 {
                assert(b[j].rank_spec() < b[b.len() - 1].rank_spec());
            }
        }
        assert(a.last() == last);
        let c = a.drop_last();
        let d = b.drop_last();
        assert forall|x: K| #[trigger] c.contains(x) <==> d.contains(x) by {
            if c.contains(x) {
                let k = choose|k: int| 0 <= k < c.len() && c[k] == x;
                assert(a[k] == x);
                assert(a[k].rank_spec() < a[a.len() - 1].rank_spec());
                assert(a.contains(x));
                assert(b.contains(x));
                let l = choose|l: int| 0 <= l < b.len() && b[l] == x;
                if l == b.len() - 1 {
                    assert(x == last);
                }
                assert(d[l] == x);
            }
            if d.contains(x) {
                let k = choose|k: int| 0 <= k < d.len() && d[k] == x;
                assert(b[k] == x);
                assert(b[k].rank_spec() < b[b.len() - 1].rank_spec());
                assert(b.contains(x));
                assert(a.contains(x));
                let l = choose|l: int| 0 <= l < a.len() && a[l] == x;
                if l == a.len() - 1 {
                    assert(x == last);
                }
                assert(c[l] == x);
            }
        }
        ascending_keys_are_unique(c, d);
        assert(a =~= c.push(last));
        assert(b =~= d.push(last));
    }
}

/// Whether two graphs have the same nodes, and the same calls between them, in
/// whatever order and however often they list them.
pub open spec fn same_graph(a: StaticCallGraph, b: StaticCallGraph) -> bool {
    &&& forall|x: FunctionId| #[trigger] a.nodes@.contains(x) <==> b.nodes@.contains(x)
    &&& forall|pair: (FunctionId, FunctionId)| #[trigger]
        await_graph::call_pairs(a.edges@).contains(pair) <==> await_graph::call_pairs(
            b.edges@,
        ).contains(pair)
}

proof fn same_graph_parts(a: StaticCallGraph, b: StaticCallGraph)
    requires
        same_graph(a, b),
    ensures
        forall|x: FunctionId| await_graph::is_node(a, x) ==> #[trigger] await_graph::is_node(b, x),
        forall|x: FunctionId, y: FunctionId|
            await_graph::mutually_reachable(a, x, y) ==> #[trigger] await_graph::mutually_reachable(
                b,
                x,
                y,
            ),
        forall|x: FunctionId|
            await_graph::calls_itself(a, x) ==> #[trigger] await_graph::calls_itself(b, x),
{
    let p = await_graph::call_pairs(a.edges@);
    let q = await_graph::call_pairs(b.edges@);
    assert forall|i: int| 0 <= i < p.len() implies q.contains(#[trigger] p[i]) by {
        assert(p.contains(p[i]));
    }
    assert forall|i: int| 0 <= i < a.edges@.len() implies exists|j: int|
        0 <= j < b.edges@.len() && (#[trigger] b.edges@[j]).caller == (
        #[trigger] a.edges@[i]).caller && b.edges@[j].callee == a.edges@[i].callee by {
        assert(p.contains(p[i]));
        assert(q.contains(p[i]));
        let j = choose|j: int| 0 <= j < q.len() && q[j] == p[i];
        assert(b.edges@[j].caller == a.edges@[i].caller);
    }
    assert forall|x: FunctionId| await_graph::is_node(a, x) implies #[trigger]
    await_graph::is_node(b, x) by {
        if !a.nodes@.contains(x) {
            let i = choose|i: int|
                0 <= i < a.edges@.len() && ((#[trigger] a.edges@[i]).caller == x
                    || a.edges@[i].callee == x);
            let j = choose|j: int|
                0 <= j < b.edges@.len() && (#[trigger] b.edges@[j]).caller == a.edges@[i].caller
                    && b.edges@[j].callee == a.edges@[i].callee;
            assert(b.edges@[j].caller == x || b.edges@[j].callee == x);
        } else {
            assert(b.nodes@.contains(x));
        }
    }
    assert forall|x: FunctionId, y: FunctionId|
        await_graph::mutually_reachable(a, x, y) implies #[trigger]
    await_graph::mutually_reachable(b, x, y) by {
        graph::reaches_superset(p, q, x, y);
        graph::reaches_superset(p, q, y, x);
    }
    assert forall|x: FunctionId| await_graph::calls_itself(a, x) implies #[trigger]
    await_graph::calls_itself(b, x) by {
        let i = choose|i: int|
            0 <= i < a.edges@.len() && (#[trigger] a.edges@[i]).caller == x
                && a.edges@[i].callee == x;
        let j = choose|j: int|
            0 <= j < b.edges@.len() && (#[trigger] b.edges@[j]).caller == a.edges@[i].caller
                && b.edges@[j].callee == a.edges@[i].callee;
        assert(b.edges@[j].caller == x && b.edges@[j].callee == x);
    }
}

/// The first functions of components.
pub open spec fn heads(components: Seq<CallGraphScc>) -> Seq<FunctionId> {
    Seq::new(components.len(), |i: int| components[i].functions@[0])
}

proof fn heads_are_least(
    a: StaticCallGraph,
    b: StaticCallGraph,
    r: Seq<CallGraphScc>,
    s: Seq<CallGraphScc>,
    x: FunctionId,
)
    requires
        same_graph(a, b),
        await_graph::are_components(a, r),
        await_graph::are_components(b, s),
        heads(r).contains(x),
    ensures
        heads(s).contains(x),
{
    same_graph_parts(a, b);
    same_graph_parts(b, a);
    let i = choose|i: int| 0 <= i < heads(r).len() && heads(r)[i] == x;
    assert(await_graph::is_component(a, r[i]));
    assert(r[i].functions@[0] == x);
    assert(await_graph::is_node(b, x));
    let j = choose|j: int| 0 <= j < s.len() && (#[trigger] s[j]).functions@.contains(x);
    assert(await_graph::is_component(b, s[j]));
    let y = s[j].functions@[0];
    assert(await_graph::mutually_reachable(b, y, x));
    assert(await_graph::mutually_reachable(b, x, y));
    assert(await_graph::mutually_reachable(a, x, y));
    assert(await_graph::is_node(a, y));
    assert(r[i].functions@.contains(y));
    let k = choose|k: int| 0 <= k < r[i].functions@.len() && r[i].functions@[k] == y;
    let l = choose|l: int| 0 <= l < s[j].functions@.len() && s[j].functions@[l] == x;
    if k > 0 {
        assert(r[i].functions@[0].rank_spec() < r[i].functions@[k].rank_spec());
        if l > 0 {
            assert(s[j].functions@[0].rank_spec() < s[j].functions@[l].rank_spec());
        }
    }
    assert(x == y);
    assert(heads(s)[j] == x);
}

/// The components of a call graph don't depend on the order in which its nodes
/// and calls are listed, nor on how often: there is one list of components
/// alone.
pub proof fn components_are_unique(
    a: StaticCallGraph,
    b: StaticCallGraph,
    r: Seq<CallGraphScc>,
    s: Seq<CallGraphScc>,
)
    requires
        same_graph(a, b),
        await_graph::are_components(a, r),
        await_graph::are_components(b, s),
    ensures
        r.len() == s.len(),
        forall|i: int|
            0 <= i < r.len() ==> (#[trigger] r[i]).functions@ == s[i].functions@ && r[i].cyclic
                == s[i].cyclic,
{
    let p = heads(r);
    let q = heads(s);
    assert forall|x: FunctionId| #[trigger] p.contains(x) <==> q.contains(x) by {
        if p.contains(x) {
            heads_are_least(a, b, r, s, x);
        }
        if q.contains(x) {
            heads_are_least(b, a, s, r, x);
        }
    }
    assert forall|i: int, j: int| 0 <= i < j < p.len() implies (#[trigger] p[i]).rank_spec() < (
    #[trigger] p[j]).rank_spec() by {
        assert(r[i].functions@[0].0 < r[j].functions@[0].0);
    }
    assert forall|i: int, j: int| 0 <= i < j < q.len() implies (#[trigger] q[i]).rank_spec() < (
    #[trigger] q[j]).rank_spec() by {
        assert(s[i].functions@[0].0 < s[j].functions@[0].0);
    }
    ascending_keys_are_unique(p, q);
    assert(p.len() == q.len());
    same_graph_parts(a, b);
    same_graph_parts(b, a);
    assert forall|i: int| 0 <= i < r.len() implies (#[trigger] r[i]).functions@ == s[i].functions@
        && r[i].cyclic == s[i].cyclic by {
        assert(p[i] == q[i]);
        assert(await_graph::is_component(a, r[i]));
        assert(await_graph::is_component(b, s[i]));
        let head = r[i].functions@[0];
        assert(s[i].functions@[0] == head);
        assert forall|x: FunctionId| #[trigger]
            r[i].functions@.contains(x) <==> s[i].functions@.contains(x) by {
            assert(await_graph::mutually_reachable(a, head, x)
                <==> await_graph::mutually_reachable(b, head, x));
            assert(await_graph::is_node(a, x) <==> await_graph::is_node(b, x));
        }
        ascending_keys_are_unique(r[i].functions@, s[i].functions@);
        assert(await_graph::calls_itself(a, head) <==> await_graph::calls_itself(b, head));
    }
}

/// Whether no two functions stand at one place.
pub open spec fn places_distinct(functions: Seq<AwaitGraphFunction>) -> bool {
    forall|i: int, j: int|
        0 <= i < j < functions.len() ==> (#[trigger] functions[i]).translation_unit.0@ != (
        #[trigger] functions[j]).translation_unit.0@ || functions[i].source_start
            != functions[j].source_start
}

/// Equal keys that start with a string start with the same string.
proof fn string_key_injective(a: Seq<char>, x: Seq<u64>, b: Seq<char>, y: Seq<u64>)
    requires
        order::string_key(a) + x == order::string_key(b) + y,
    ensures
        a == b,
        x == y,
{
    order::string_key_order(a, x, b, y);
    order::string_key_order(b, y, a, x);
    order::lex_irreflexive(order::string_key(a) + x);
    string_lt_total(a, b);
    let n = order::string_key(a).len() as int;
    assert(x =~= (order::string_key(a) + x).skip(n));
    assert(y =~= (order::string_key(b) + y).skip(n));
}

proof fn string_lt_total(a: Seq<char>, b: Seq<char>)
    ensures
        a == b || order::string_lt(a, b) || order::string_lt(b, a),
    decreases a.len(),
{
    if a.len() > 0 && b.len() > 0 {
        order::char_number(a[0]);
        order::char_number(b[0]);
    }
    if a.len() > 0 && b.len() > 0 && a[0] == b[0] {
        string_lt_total(a.skip(1), b.skip(1));
        if a.skip(1) == b.skip(1) {
            assert(a =~= seq![a[0]] + a.skip(1));
            assert(b =~= seq![b[0]] + b.skip(1));
        }
    } else if a.len() == 0 && b.len() == 0 {
        assert(a =~= b);
    }
}

/// Whether `x` is a call of the function together with the position of its child.
spec fn numbered_call(function: AwaitGraphFunction, x: (StaticCallEdge, int)) -> bool {
    0 <= x.1 < function.plan.children@.len() && await_graph::call_of(
        function.caller,
        function.translation_unit,
        function.source_start,
        function.plan.children@[x.1],
    ) == Some(x.0)
}

/// The calls of the first `n` children of a function, each with the position of
/// its child.
spec fn numbered_calls_of(function: AwaitGraphFunction, n: int) -> Seq<(StaticCallEdge, int)>
    decreases n,
{
    if n <= 0 {
        Seq::empty()
    } else {
        match await_graph::call_of(
            function.caller,
            function.translation_unit,
            function.source_start,
            function.plan.children@[n - 1],
        ) {
            Some(call) => numbered_calls_of(function, n - 1).push((call, n - 1)),
            None => numbered_calls_of(function, n - 1),
        }
    }
}

/// The calls of the first `n` functions, each with the position of its child.
spec fn numbered_calls(functions: Seq<AwaitGraphFunction>, n: int) -> Seq<(StaticCallEdge, int)>
    decreases n,
{
    if n <= 0 {
        Seq::empty()
    } else {
        numbered_calls(functions, n - 1) + numbered_calls_of(
            functions[n - 1],
            functions[n - 1].plan.children@.len() as int,
        )
    }
}

proof fn function_calls_numbered(function: AwaitGraphFunction, n: int)
    requires
        0 <= n <= function.plan.children@.len(),
    ensures
        numbered_calls_of(function, n).len() == await_graph::calls_of(function, n).len(),
        forall|i: int|
            0 <= i < numbered_calls_of(function, n).len() ==> {
                &&& (#[trigger] numbered_calls_of(function, n)[i]).0 == await_graph::calls_of(
                    function,
                    n,
                )[i]
                &&& numbered_calls_of(function, n)[i].1 < n
                &&& numbered_call(function, numbered_calls_of(function, n)[i])
            },
        forall|i: int, j: int|
            0 <= i < j < numbered_calls_of(function, n).len() ==> (
            #[trigger] numbered_calls_of(function, n)[i]).1 < (
            #[trigger] numbered_calls_of(function, n)[j]).1,
        forall|x: (StaticCallEdge, int)| #[trigger]
            numbered_call(function, x) && x.1 < n ==> numbered_calls_of(function, n).contains(x),
    decreases n,
{
    if n > 0 {
        function_calls_numbered(function, n - 1);
        let before = numbered_calls_of(function, n - 1);
        let after = numbered_calls_of(function, n);
        assert forall|i: int| 0 <= i < before.len() implies #[trigger] after[i] == before[i] by {}
        assert forall|x: (StaticCallEdge, int)| #[trigger]
            numbered_call(function, x) && x.1 < n implies after.contains(x) by {
            if x.1 < n - 1 {
                assert(before.contains(x));
                let i = choose|i: int| 0 <= i < before.len() && before[i] == x;
                assert(after[i] == x);
            } else {
                assert(after[after.len() - 1] == x);
            }
        }
    }
}

proof fn project_calls_numbered(functions: Seq<AwaitGraphFunction>, n: int)
    requires
        places_distinct(functions),
        0 <= n <= functions.len(),
    ensures
        numbered_calls(functions, n).len() == await_graph::project_calls(functions, n).len(),
        forall|i: int|
            0 <= i < numbered_calls(functions, n).len() ==> (
            #[trigger] numbered_calls(functions, n)[i]).0 == await_graph::project_calls(
                functions,
                n,
            )[i],
        forall|x: (StaticCallEdge, int)| #[trigger]
            numbered_calls(functions, n).contains(x) <==> exists|f: int|
                0 <= f < n && numbered_call(#[trigger] functions[f], x),
        forall|i: int, j: int|
            0 <= i < j < numbered_calls(functions, n).len() && (
            #[trigger] numbered_calls(functions, n)[i]).0.translation_unit.0@ == (
            #[trigger] numbered_calls(functions, n)[j]).0.translation_unit.0@ && numbered_calls(
                functions,
                n,
            )[i].0.caller_source_start == numbered_calls(functions, n)[j].0.caller_source_start
                ==> numbered_calls(functions, n)[i].1 < numbered_calls(functions, n)[j].1,
    decreases n,
{
    if n > 0 {
        project_calls_numbered(functions, n - 1);
        let function = functions[n - 1];
        let count = function.plan.children@.len() as int;
        function_calls_numbered(function, count);
        let before = numbered_calls(functions, n - 1);
        let own = numbered_calls_of(function, count);
        let all = numbered_calls(functions, n);
        assert(all == before + own);
        assert forall|x: (StaticCallEdge, int)| #[trigger] all.contains(x) <==> exists|f: int|
            0 <= f < n && numbered_call(#[trigger] functions[f], x) by {
            if all.contains(x) {
                let i = choose|i: int| 0 <= i < all.len() && all[i] == x;
                if i < before.len() {
                    assert(before[i] == x);
                    assert(before.contains(x));
                    let f = choose|f: int|
                        0 <= f < n - 1 && numbered_call(#[trigger] functions[f], x);
                    assert(numbered_call(functions[f], x));
                } else {
                    assert(own[i - before.len()] == x);
                    assert(numbered_call(functions[n - 1], x));
                }
            }
            if exists|f: int| 0 <= f < n && numbered_call(#[trigger] functions[f], x) {
                let f = choose|f: int| 0 <= f < n && numbered_call(#[trigger] functions[f], x);
                if f < n - 1 {
                    assert(before.contains(x));
                    let i = choose|i: int| 0 <= i < before.len() && before[i] == x;
                    assert(all[i] == x);
                } else {
                    assert(own.contains(x));
                    let i = choose|i: int| 0 <= i < own.len() && own[i] == x;
                    assert(all[before.len() + i] == x);
                }
            }
        }
        assert forall|i: int, j: int|
            0 <= i < j < all.len() && (#[trigger] all[i]).0.translation_unit.0@ == (
            #[trigger] all[j]).0.translation_unit.0@ && all[i].0.caller_source_start
                == all[j].0.caller_source_start implies all[i].1 < all[j].1 by {
            if j < before.len() {
                assert(all[i] == before[i] && all[j] == before[j]);
            } else if i >= before.len() {
                assert(all[i] == own[i - before.len()] && all[j] == own[j - before.len()]);
            } else {
                assert(all[i] == before[i]);
                assert(before.contains(before[i]));
                let f = choose|f: int|
                    0 <= f < n - 1 && numbered_call(#[trigger] functions[f], before[i]);
                assert(all[j] == own[j - before.len()]);
                assert(functions[f].translation_unit.0@ != functions[n - 1].translation_unit.0@
                    || functions[f].source_start != functions[n - 1].source_start);
            }
        }
    }
}

/// Calls with equal keys are calls of functions at one place.
proof fn equal_keys_share_place(symbols: AsyncSymbolIndex, a: StaticCallEdge, b: StaticCallEdge)
    requires
        await_graph::call_key(symbols, a) == await_graph::call_key(symbols, b),
    ensures
        a.translation_unit.0@ == b.translation_unit.0@,
        a.caller_source_start == b.caller_source_start,
{
    let x = await_graph::call_key(symbols, a);
    let y = await_graph::call_key(symbols, b);
    let rest_a = seq![a.caller_source_start as u64, a.child_span.start_byte as u64]
        + await_graph::linkage_key(symbols.symbol_spec(a.callee)->0.key) + seq![
        a.instance.0 as u64,
    ];
    let rest_b = seq![b.caller_source_start as u64, b.child_span.start_byte as u64]
        + await_graph::linkage_key(symbols.symbol_spec(b.callee)->0.key) + seq![
        b.instance.0 as u64,
    ];
    assert(x =~= order::string_key(a.translation_unit.0@) + rest_a);
    assert(y =~= order::string_key(b.translation_unit.0@) + rest_b);
    string_key_injective(a.translation_unit.0@, rest_a, b.translation_unit.0@, rest_b);
    assert(rest_a[0] == rest_b[0]);
    assert(rest_a[0] == a.caller_source_start as u64 && rest_b[0] == b.caller_source_start as u64);
}

/// Whether a numbered call comes before another: by key, then by the position of
/// its child.
spec fn call_before(
    symbols: AsyncSymbolIndex,
    x: (StaticCallEdge, int),
    y: (StaticCallEdge, int),
) -> bool {
    ||| order::lex_lt(await_graph::call_key(symbols, x.0), await_graph::call_key(symbols, y.0))
    ||| await_graph::call_key(symbols, x.0) == await_graph::call_key(symbols, y.0) && x.1 < y.1
}

/// No two numbered calls come before each other.
proof fn call_before_asymmetric(
    symbols: AsyncSymbolIndex,
    x: (StaticCallEdge, int),
    y: (StaticCallEdge, int),
)
    ensures
        !(call_before(symbols, x, y) && call_before(symbols, y, x)),
{
    let key_x = await_graph::call_key(symbols, x.0);
    let key_y = await_graph::call_key(symbols, y.0);
    order::lex_irreflexive(key_x);
    order::lex_irreflexive(key_y);
    if order::lex_lt(key_x, key_y) && order::lex_lt(key_y, key_x) {
        order::lex_transitive(key_x, key_y, key_x);
    }
}

/// Whether numbered calls stand in strictly ascending order.
spec fn calls_ascending(symbols: AsyncSymbolIndex, calls: Seq<(StaticCallEdge, int)>) -> bool {
    forall|i: int, j: int|
        0 <= i < j < calls.len() ==> call_before(symbols, #[trigger] calls[i], #[trigger] calls[j])
}

/// Strictly ascending lists of the same numbered calls are equal.
proof fn ascending_calls_are_unique(
    symbols: AsyncSymbolIndex,
    a: Seq<(StaticCallEdge, int)>,
    b: Seq<(StaticCallEdge, int)>,
)
    requires
        calls_ascending(symbols, a),
        calls_ascending(symbols, b),
        forall|x: (StaticCallEdge, int)| #[trigger] a.contains(x) <==> b.contains(x),
    ensures
        a == b,
    decreases a.len(),
{
    if a.len() == 0 {
        if b.len() > 0 {
            assert(b.contains(b[0]));
            assert(a.contains(b[0]));
        }
        assert(a =~= b);
    } else {
        assert(a.contains(a.last()));
        assert(b.contains(a.last()));
        let last = b.last();
        assert(b.contains(last));
        assert(a.contains(last));
        let i = choose|i: int| 0 <= i < a.len() && a[i] == last;
        let j = choose|j: int| 0 <= j < b.len() && b[j] == a.last();
        call_before_asymmetric(symbols, last, last);
        if i < a.len() - 1 {
            assert(call_before(symbols, a[i], a[a.len() - 1]));
            if j < b.len() - 1 {
                assert(call_before(symbols, b[j], b[b.len() - 1]));
                call_before_asymmetric(symbols, last, a.last());
            }
        }
        assert(a.last() == last);
        let c = a.drop_last();
        let d = b.drop_last();
        assert forall|x: (StaticCallEdge, int)| #[trigger] c.contains(x) <==> d.contains(x) by {
            if c.contains(x) {
                let k = choose|k: int| 0 <= k < c.len() && c[k] == x;
                assert(a[k] == x);
                assert(call_before(symbols, a[k], a[a.len() - 1]));
                assert(a.contains(x));
                assert(b.contains(x));
                let l = choose|l: int| 0 <= l < b.len() && b[l] == x;
                if l == b.len() - 1 {
                    assert(x == last);
                }
                assert(d[l] == x);
            }
            if d.contains(x) {
                let k = choose|k: int| 0 <= k < d.len() && d[k] == x;
                assert(b[k] == x);
                assert(call_before(symbols, b[k], b[b.len() - 1]));
                assert(b.contains(x));
                assert(a.contains(x));
                let l = choose|l: int| 0 <= l < a.len() && a[l] == x;
                if l == a.len() - 1 {
                    assert(x == last);
                }
                assert(c[l] == x);
            }
        }
        ascending_calls_are_unique(symbols, c, d);
        assert(a =~= c.push(last));
        assert(b =~= d.push(last));
    }
}

/// The numbered calls of a project in the order in which its calls are sorted.
spec fn sorted_numbered(
    functions: Seq<AwaitGraphFunction>,
    symbols: AsyncSymbolIndex,
) -> Seq<(StaticCallEdge, int)> {
    let n = functions.len() as int;
    order::sorted_by(
        numbered_calls(functions, n),
        await_graph::call_keys(symbols, await_graph::project_calls(functions, n)),
    )
}

proof fn sorted_calls_ascend(functions: Seq<AwaitGraphFunction>, symbols: AsyncSymbolIndex)
    requires
        places_distinct(functions),
    ensures
        ({
            let calls = await_graph::project_calls(functions, functions.len() as int);
            let sorted = order::sorted_by(calls, await_graph::call_keys(symbols, calls));
            let numbered = sorted_numbered(functions, symbols);
            &&& sorted.len() == numbered.len()
            &&& forall|i: int| 0 <= i < sorted.len() ==> #[trigger] sorted[i] == numbered[i].0
            &&& calls_ascending(symbols, numbered)
            &&& forall|x: (StaticCallEdge, int)| #[trigger]
                numbered.contains(x) <==> exists|f: int|
                    0 <= f < functions.len() && numbered_call(#[trigger] functions[f], x)
        }),
{
    let n = functions.len() as int;
    let calls = await_graph::project_calls(functions, n);
    let all = numbered_calls(functions, n);
    let keys = await_graph::call_keys(symbols, calls);
    let places = order::stable_order(keys, keys.len() as int);
    order::stable_order_sorts(keys, keys.len() as int);
    let sorted = order::sorted_by(calls, keys);
    let numbered = sorted_numbered(functions, symbols);
    project_calls_numbered(functions, n);
    assert forall|i: int, j: int| 0 <= i < j < numbered.len() implies call_before(
        symbols,
        #[trigger] numbered[i],
        #[trigger] numbered[j],
    ) by {
        let x = places[i];
        let y = places[j];
        assert(order::comes_before(keys, x, y));
        assert(numbered[i] == all[x] && numbered[j] == all[y]);
        assert(all[x].0 == calls[x] && all[y].0 == calls[y]);
        if keys[x] == keys[y] {
            equal_keys_share_place(symbols, calls[x], calls[y]);
        }
    }
    assert forall|x: (StaticCallEdge, int)| #[trigger]
        numbered.contains(x) <==> all.contains(x) by {
        if numbered.contains(x) {
            let i = choose|i: int| 0 <= i < numbered.len() && numbered[i] == x;
            assert(all[places[i]] == x);
        }
        if all.contains(x) {
            let k = choose|k: int| 0 <= k < all.len() && all[k] == x;
            assert(places.contains(k));
            let i = choose|i: int| 0 <= i < places.len() && places[i] == k;
            assert(numbered[i] == x);
        }
    }
    assert forall|i: int| 0 <= i < sorted.len() implies #[trigger] sorted[i] == numbered[i].0 by {
        assert(all[places[i]].0 == calls[places[i]]);
    }
}

/// Whether two projects consist of the same functions.
pub open spec fn same_functions(a: Seq<AwaitGraphFunction>, b: Seq<AwaitGraphFunction>) -> bool {
    &&& forall|i: int| 0 <= i < a.len() ==> b.contains(#[trigger] a[i])
    &&& forall|i: int| 0 <= i < b.len() ==> a.contains(#[trigger] b[i])
}

proof fn calls_carry_over(a: Seq<AwaitGraphFunction>, b: Seq<AwaitGraphFunction>)
    requires
        forall|i: int| 0 <= i < a.len() ==> b.contains(#[trigger] a[i]),
    ensures
        forall|x: StaticCallEdge|
            await_graph::project_calls(a, a.len() as int).contains(x)
                ==> #[trigger] await_graph::project_calls(b, b.len() as int).contains(x),
{
    let p = await_graph::project_calls(a, a.len() as int);
    let q = await_graph::project_calls(b, b.len() as int);
    assert forall|x: StaticCallEdge| p.contains(x) implies #[trigger] q.contains(x) by {
        let i = choose|i: int| 0 <= i < p.len() && p[i] == x;
        let (f, c) = await_graph::project_call_source(a, a.len() as int, i);
        assert(b.contains(a[f]));
        let g = choose|g: int| 0 <= g < b.len() && b[g] == a[f];
        let j = await_graph::project_call_present(b, b.len() as int, g, c);
        assert(q[j] == x);
    }
}

/// The calls of a project don't depend on the order in which its functions are
/// listed, nor do the functions that take part in them.
pub proof fn calls_ignore_function_order(
    a: Seq<AwaitGraphFunction>,
    b: Seq<AwaitGraphFunction>,
    symbols: AsyncSymbolIndex,
)
    requires
        same_functions(a, b),
        places_distinct(a),
        places_distinct(b),
    ensures
        await_graph::ordered_calls(a, symbols) == await_graph::ordered_calls(b, symbols),
        forall|x: FunctionId| #[trigger]
            await_graph::takes_part(a, x) <==> await_graph::takes_part(b, x),
{
    let p = await_graph::project_calls(a, a.len() as int);
    let q = await_graph::project_calls(b, b.len() as int);
    calls_carry_over(a, b);
    calls_carry_over(b, a);
    sorted_calls_ascend(a, symbols);
    sorted_calls_ascend(b, symbols);
    let sorted_p = order::sorted_by(p, await_graph::call_keys(symbols, p));
    let sorted_q = order::sorted_by(q, await_graph::call_keys(symbols, q));
    let numbered_p = sorted_numbered(a, symbols);
    let numbered_q = sorted_numbered(b, symbols);
    assert forall|x: (StaticCallEdge, int)| #[trigger]
        numbered_p.contains(x) <==> numbered_q.contains(x) by {
        if numbered_p.contains(x) {
            let f = choose|f: int| 0 <= f < a.len() && numbered_call(#[trigger] a[f], x);
            assert(b.contains(a[f]));
            let g = choose|g: int| 0 <= g < b.len() && b[g] == a[f];
            assert(numbered_call(b[g], x));
        }
        if numbered_q.contains(x) {
            let f = choose|f: int| 0 <= f < b.len() && numbered_call(#[trigger] b[f], x);
            assert(a.contains(b[f]));
            let g = choose|g: int| 0 <= g < a.len() && a[g] == b[f];
            assert(numbered_call(a[g], x));
        }
    }
    ascending_calls_are_unique(symbols, numbered_p, numbered_q);
    assert(sorted_p =~= sorted_q);
    assert forall|x: FunctionId| #[trigger]
        await_graph::takes_part(a, x) <==> await_graph::takes_part(b, x) by {
        takes_part_carries_over(a, b, x);
        takes_part_carries_over(b, a, x);
    }
}

proof fn takes_part_carries_over(
    a: Seq<AwaitGraphFunction>,
    b: Seq<AwaitGraphFunction>,
    x: FunctionId,
)
    requires
        forall|i: int| 0 <= i < a.len() ==> b.contains(#[trigger] a[i]),
    ensures
        await_graph::takes_part(a, x) ==> await_graph::takes_part(b, x),
{
    let p = await_graph::project_calls(a, a.len() as int);
    let q = await_graph::project_calls(b, b.len() as int);
    calls_carry_over(a, b);
    if await_graph::takes_part(a, x) {
        if exists|i: int| 0 <= i < a.len() && (#[trigger] a[i]).caller == x {
            let i = choose|i: int| 0 <= i < a.len() && (#[trigger] a[i]).caller == x;
            let j = choose|j: int| 0 <= j < b.len() && b[j] == a[i];
            assert(b[j].caller == x);
        } else {
            let i = choose|i: int| 0 <= i < p.len() && (#[trigger] p[i]).callee == x;
            assert(p.contains(p[i]));
            assert(q.contains(p[i]));
            let j = choose|j: int| 0 <= j < q.len() && q[j] == p[i];
            assert(q[j].callee == x);
        }
    }
}

/// Call graphs of the same functions are equal, whatever the order in which the
/// functions are listed.
pub proof fn graphs_ignore_function_order(
    a: Seq<AwaitGraphFunction>,
    b: Seq<AwaitGraphFunction>,
    symbols: AsyncSymbolIndex,
    graph_a: StaticCallGraph,
    graph_b: StaticCallGraph,
)
    requires
        same_functions(a, b),
        places_distinct(a),
        places_distinct(b),
        graph_a.edges@ == await_graph::ordered_calls(a, symbols),
        graph_b.edges@ == await_graph::ordered_calls(b, symbols),
        order::keys_ascending(graph_a.nodes@),
        order::keys_ascending(graph_b.nodes@),
        forall|x: FunctionId| #[trigger]
            graph_a.nodes@.contains(x) <==> await_graph::takes_part(a, x),
        forall|x: FunctionId| #[trigger]
            graph_b.nodes@.contains(x) <==> await_graph::takes_part(b, x),
    ensures
        graph_a.nodes@ == graph_b.nodes@,
        graph_a.edges@ == graph_b.edges@,
{
    calls_ignore_function_order(a, b, symbols);
    assert forall|x: FunctionId| #[trigger]
        graph_a.nodes@.contains(x) <==> graph_b.nodes@.contains(x) by {
        assert(await_graph::takes_part(a, x) <==> await_graph::takes_part(b, x));
    }
    ascending_keys_are_unique(graph_a.nodes@, graph_b.nodes@);
}

/// Planning the storage of the same functions gives the same call graph, the same
/// components and every function the same children, whatever the order in which
/// the functions are listed.
pub proof fn storage_ignores_function_order(
    a: Seq<AwaitStorageFunction>,
    b: Seq<AwaitStorageFunction>,
    planned_a: Seq<AwaitStorageFunction>,
    planned_b: Seq<AwaitStorageFunction>,
    symbols: AsyncSymbolIndex,
    r: AwaitStoragePlanResult,
    s: AwaitStoragePlanResult,
)
    requires
        same_functions(await_storage::graph_inputs(a), await_storage::graph_inputs(b)),
        places_distinct(await_storage::graph_inputs(a)),
        places_distinct(await_storage::graph_inputs(b)),
        await_storage::project_planned(a, planned_a, symbols),
        await_storage::project_planned(b, planned_b, symbols),
        r.graph.edges@ == await_graph::ordered_calls(await_storage::graph_inputs(a), symbols),
        s.graph.edges@ == await_graph::ordered_calls(await_storage::graph_inputs(b), symbols),
        order::keys_ascending(r.graph.nodes@),
        order::keys_ascending(s.graph.nodes@),
        forall|x: FunctionId| #[trigger]
            r.graph.nodes@.contains(x) <==> await_graph::takes_part(
                await_storage::graph_inputs(a),
                x,
            ),
        forall|x: FunctionId| #[trigger]
            s.graph.nodes@.contains(x) <==> await_graph::takes_part(
                await_storage::graph_inputs(b),
                x,
            ),
        await_graph::are_components(r.graph, r.components@),
        await_graph::are_components(s.graph, s.components@),
    ensures
        r.graph.nodes@ == s.graph.nodes@,
        r.graph.edges@ == s.graph.edges@,
        r.components@.len() == s.components@.len(),
        forall|i: int|
            0 <= i < r.components@.len() ==> (#[trigger] r.components@[i]).functions@
                == s.components@[i].functions@ && r.components@[i].cyclic
                == s.components@[i].cyclic,
        forall|i: int, j: int|
            0 <= i < a.len() && 0 <= j < b.len() && a[i] == b[j] ==> {
                &&& (#[trigger] planned_a[i]).caller == (#[trigger] planned_b[j]).caller
                &&& planned_a[i].plan.children@ == planned_b[j].plan.children@
                &&& planned_a[i].plan.edges@ == planned_b[j].plan.edges@
            },
{
    let inputs_a = await_storage::graph_inputs(a);
    let inputs_b = await_storage::graph_inputs(b);
    calls_ignore_function_order(inputs_a, inputs_b, symbols);
    graphs_ignore_function_order(inputs_a, inputs_b, symbols, r.graph, s.graph);
    components_are_unique(r.graph, s.graph, r.components@, s.components@);
    let calls = await_graph::ordered_calls(inputs_a, symbols);
    let choices = await_storage::storage_choices(calls, symbols, calls.len() as int);
    assert forall|i: int, j: int| 0 <= i < a.len() && 0 <= j < b.len() && a[i] == b[j] implies {
        &&& (#[trigger] planned_a[i]).caller == (#[trigger] planned_b[j]).caller
        &&& planned_a[i].plan.children@ == planned_b[j].plan.children@
        &&& planned_a[i].plan.edges@ == planned_b[j].plan.edges@
    } by {
        assert(await_storage::function_planned(a[i], planned_a[i], calls, choices));
        assert(await_storage::function_planned(b[j], planned_b[j], calls, choices));
    }
}

} // verus!
