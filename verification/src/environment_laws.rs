//! What a unit declares, and where.

use vstd::prelude::*;

use crate::c_declaration_env;
use crate::c_declaration_env::EnvironmentView;
use crate::syntax::{SyntaxNode, SyntaxUnit};
use crate::text;

verus! {

/// The node that a path of child numbers leads to.
pub open spec fn reached(node: SyntaxNode, path: Seq<int>) -> SyntaxNode
    decreases path.len(),
{
    if path.len() == 0 {
        node
    } else {
        reached(node.children@[path[0]], path.skip(1))
    }
}

/// Whether a path leads along children that are no lists of fields.
pub open spec fn outside_fields(node: SyntaxNode, path: Seq<int>) -> bool
    decreases path.len(),
{
    path.len() == 0 || (0 <= path[0] < node.children@.len() && node.children@[path[0]].kind@
        != "field_declaration_list"@ && outside_fields(node.children@[path[0]], path.skip(1)))
}

/// Whether a path leads, outside lists of fields, to a type name.
pub open spec fn names_type(node: SyntaxNode, path: Seq<int>, name: Seq<char>) -> bool {
    outside_fields(node, path) && reached(node, path).kind@ == "type_identifier"@ && reached(
        node,
        path,
    ).text@ == name
}

/// Whether a node holds a type name outside lists of fields.
pub open spec fn holds_type(node: SyntaxNode, name: Seq<char>) -> bool {
    exists|path: Seq<int>| names_type(node, path, name)
}

proof fn one_step(node: SyntaxNode, k: int, path: Seq<int>, name: Seq<char>)
    requires
        0 <= k < node.children@.len(),
        node.children@[k].kind@ != "field_declaration_list"@,
        names_type(node.children@[k], path, name),
    ensures
        holds_type(node, name),
{
    let longer = seq![k] + path;
    assert(longer.skip(1) =~= path);
    assert(longer[0] == k);
    assert(names_type(node, longer, name));
}

/// The type names of a node are those that stand in it outside lists of fields,
/// behind those that were found before.
pub proof fn type_names_are_found(found: Seq<Seq<char>>, node: SyntaxNode, name: Seq<char>)
    ensures
        c_declaration_env::type_names(found, node).contains(name) <==> found.contains(name)
            || holds_type(node, name),
    decreases node, 0int,
{
    let own = if node.kind@ == "type_identifier"@ {
        found.push(node.text@)
    } else {
        found
    };
    listed_type_names_are_found(own, node.children@, node.children@.len() as int, name);
    let empty = Seq::<int>::empty();
    if node.kind@ == "type_identifier"@ {
        assert(own[found.len() as int] == node.text@);
        if node.text@ == name {
            assert(names_type(node, empty, name));
        }
        if found.contains(name) {
            let i = choose|i: int| 0 <= i < found.len() && found[i] == name;
            assert(own[i] == name);
        }
        if own.contains(name) && node.text@ != name {
            let i = choose|i: int| 0 <= i < own.len() && own[i] == name;
            assert(found[i] == name);
        }
    }
    if holds_type(node, name) {
        let path = choose|path: Seq<int>| names_type(node, path, name);
        if path.len() > 0 {
            assert(names_type(node.children@[path[0]], path.skip(1), name));
            assert(holds_type(node.children@[path[0]], name));
        } else {
            assert(own.contains(name));
        }
    }
    if listed_holds(node.children@, node.children@.len() as int, name) {
        let k = choose|k: int|
            0 <= k < node.children@.len() && (#[trigger] node.children@[k]).kind@
                != "field_declaration_list"@ && holds_type(node.children@[k], name);
        let path = choose|path: Seq<int>| names_type(node.children@[k], path, name);
        one_step(node, k, path, name);
    }
}

/// Whether one of the first nodes of a list holds a type name, lists of fields left
/// out.
pub open spec fn listed_holds(nodes: Seq<SyntaxNode>, n: int, name: Seq<char>) -> bool {
    exists|k: int|
        0 <= k < n && (#[trigger] nodes[k]).kind@ != "field_declaration_list"@ && holds_type(
            nodes[k],
            name,
        )
}

proof fn listed_type_names_are_found(
    found: Seq<Seq<char>>,
    nodes: Seq<SyntaxNode>,
    n: int,
    name: Seq<char>,
)
    requires
        0 <= n <= nodes.len(),
    ensures
        c_declaration_env::type_names_of(found, nodes, n).contains(name) <==> found.contains(name)
            || listed_holds(nodes, n, name),
    decreases nodes, n,
{
    if n > 0 {
        listed_type_names_are_found(found, nodes, n - 1, name);
        let before = c_declaration_env::type_names_of(found, nodes, n - 1);
        if nodes[n - 1].kind@ != "field_declaration_list"@ {
            type_names_are_found(before, nodes[n - 1], name);
        }
        if listed_holds(nodes, n - 1, name) {
            let k = choose|k: int|
                0 <= k < n - 1 && (#[trigger] nodes[k]).kind@ != "field_declaration_list"@
                    && holds_type(nodes[k], name);
            assert(nodes[k].kind@ != "field_declaration_list"@ && holds_type(nodes[k], name));
        }
        if listed_holds(nodes, n, name) {
            let k = choose|k: int|
                0 <= k < n && (#[trigger] nodes[k]).kind@ != "field_declaration_list"@
                    && holds_type(nodes[k], name);
            if k < n - 1 {
                assert(nodes[k].kind@ != "field_declaration_list"@ && holds_type(nodes[k], name));
            }
        }
    }
}

/// Whether a node at file scope is a directive.
pub open spec fn is_directive(node: SyntaxNode) -> bool {
    "preproc_"@.is_prefix_of(node.kind@)
}

/// Whether a path of child numbers leads along directives.
pub open spec fn along_directives(node: SyntaxNode, path: Seq<int>) -> bool
    decreases path.len(),
{
    path.len() == 0 || (node.kind@ != "function_definition"@ && is_directive(node) && 0 <= path[0]
        < node.children@.len() && along_directives(node.children@[path[0]], path.skip(1)))
}

/// Whether a type definition at file scope declares a name at a place.
pub open spec fn defines_at(node: SyntaxNode, path: Seq<int>, name: Seq<char>, at: usize) -> bool {
    along_directives(node, path) && reached(node, path).kind@ == "type_definition"@ && reached(
        node,
        path,
    ).start_byte == at && holds_type(reached(node, path), name)
}

/// Whether a directive stands at a place.
pub open spec fn bounds_at(node: SyntaxNode, path: Seq<int>, at: usize) -> bool {
    along_directives(node, path) && reached(node, path).kind@ != "function_definition"@
        && is_directive(reached(node, path)) && reached(node, path).start_byte == at
}

/// Whether everything that one environment holds is in another.
pub open spec fn grows(before: EnvironmentView, after: EnvironmentView) -> bool {
    &&& before.types.is_prefix_of(after.types)
    &&& before.locals.is_prefix_of(after.locals)
    &&& before.boundaries.is_prefix_of(after.boundaries)
    &&& before.packed == after.packed
}

proof fn growth_chains(a: EnvironmentView, b: EnvironmentView, c: EnvironmentView)
    requires
        grows(a, b),
        grows(b, c),
    ensures
        grows(a, c),
{
    assert(a.types =~= c.types.subrange(0, a.types.len() as int));
    assert(a.locals =~= c.locals.subrange(0, a.locals.len() as int));
    assert(a.boundaries =~= c.boundaries.subrange(0, a.boundaries.len() as int));
}

proof fn tags_grow(env: EnvironmentView, node: SyntaxNode, position: usize)
    ensures
        grows(env, c_declaration_env::scan_tags(env, node, position)),
    decreases node, 0int,
{
    let after = c_declaration_env::scan_tags(env, node, position);
    if c_declaration_env::tag_definition(node) {
        assert(env.types =~= after.types.subrange(0, env.types.len() as int));
    } else {
        listed_tags_grow(env, node.children@, node.children@.len() as int, position);
    }
}

proof fn listed_tags_grow(
    env: EnvironmentView,
    nodes: Seq<SyntaxNode>,
    n: int,
    position: usize,
)
    ensures
        grows(env, c_declaration_env::scan_tags_of(env, nodes, n, position)),
    decreases nodes, n,
{
    if 0 < n <= nodes.len() {
        listed_tags_grow(env, nodes, n - 1, position);
        let before = c_declaration_env::scan_tags_of(env, nodes, n - 1, position);
        tags_grow(before, nodes[n - 1], position);
        growth_chains(env, before, c_declaration_env::scan_tags_of(env, nodes, n, position));
    }
}

proof fn locals_grow(env: EnvironmentView, node: SyntaxNode, start: usize, end: usize)
    ensures
        grows(env, c_declaration_env::scan_locals(env, node, start, end)),
        env.types == c_declaration_env::scan_locals(env, node, start, end).types,
        env.boundaries == c_declaration_env::scan_locals(env, node, start, end).boundaries,
    decreases node, 0int,
{
    let own = if node.kind@ == "type_definition"@ || c_declaration_env::tag_definition(node) {
        c_declaration_env::declare_local(
            env,
            c_declaration_env::type_names(Seq::empty(), node),
            start,
            end,
        )
    } else {
        env
    };
    assert(env.locals =~= own.locals.subrange(0, env.locals.len() as int));
    assert(grows(env, own));
    if node.kind@ != "type_definition"@ {
        listed_locals_grow(own, node.children@, node.children@.len() as int, start, end);
        growth_chains(env, own, c_declaration_env::scan_locals(env, node, start, end));
    }
}

proof fn listed_locals_grow(
    env: EnvironmentView,
    nodes: Seq<SyntaxNode>,
    n: int,
    start: usize,
    end: usize,
)
    ensures
        grows(env, c_declaration_env::scan_locals_of(env, nodes, n, start, end)),
        env.types == c_declaration_env::scan_locals_of(env, nodes, n, start, end).types,
        env.boundaries == c_declaration_env::scan_locals_of(env, nodes, n, start, end).boundaries,
    decreases nodes, n,
{
    if 0 < n <= nodes.len() {
        listed_locals_grow(env, nodes, n - 1, start, end);
        let before = c_declaration_env::scan_locals_of(env, nodes, n - 1, start, end);
        locals_grow(before, nodes[n - 1], start, end);
        growth_chains(
            env,
            before,
            c_declaration_env::scan_locals_of(env, nodes, n, start, end),
        );
    }
}

proof fn bodies_grow(env: EnvironmentView, function: SyntaxNode, n: int)
    ensures
        grows(env, c_declaration_env::scan_function(env, function, n)),
        env.types == c_declaration_env::scan_function(env, function, n).types,
        env.boundaries == c_declaration_env::scan_function(env, function, n).boundaries,
    decreases n,
{
    if n > 0 {
        bodies_grow(env, function, n - 1);
        let before = c_declaration_env::scan_function(env, function, n - 1);
        if function.children@[n - 1].kind@ == "compound_statement"@ {
            locals_grow(
                before,
                function.children@[n - 1],
                function.start_byte,
                function.end_byte,
            );
            growth_chains(env, before, c_declaration_env::scan_function(env, function, n));
        }
    }
}

/// Reading a function declares nothing at file scope and puts no directive there.
pub proof fn functions_keep_their_types_to_themselves(env: EnvironmentView, function: SyntaxNode)
    requires
        function.kind@ == "function_definition"@,
    ensures
        c_declaration_env::scan_item(env, function).types == env.types,
        c_declaration_env::scan_item(env, function).boundaries == env.boundaries,
        grows(env, c_declaration_env::scan_item(env, function)),
{
    bodies_grow(env, function, function.children@.len() as int);
}

/// Reading one more node at file scope loses nothing that was declared before.
pub proof fn items_lose_nothing(env: EnvironmentView, node: SyntaxNode)
    ensures
        grows(env, c_declaration_env::scan_item(env, node)),
    decreases node, 0int,
{
    let after = c_declaration_env::scan_item(env, node);
    if node.kind@ == "function_definition"@ {
        bodies_grow(env, node, node.children@.len() as int);
    } else if text::occurs_at(node.kind@, "preproc_"@, 0) {
        let inner = EnvironmentView { boundaries: env.boundaries.push(node.start_byte), ..env };
        assert(env.boundaries =~= inner.boundaries.subrange(0, env.boundaries.len() as int));
        assert(grows(env, inner));
        scopes_lose_nothing(inner, node.children@, node.children@.len() as int, 0);
        growth_chains(env, inner, after);
    } else if node.kind@ == "type_definition"@ {
        assert(env.types =~= after.types.subrange(0, env.types.len() as int));
    } else if node.kind@ == "declaration"@ {
        tags_grow(env, node, node.start_byte);
    }
}

proof fn scopes_lose_nothing(env: EnvironmentView, nodes: Seq<SyntaxNode>, n: int, k: int)
    requires
        0 <= k <= n <= nodes.len(),
    ensures
        grows(
            c_declaration_env::scan_scope(env, nodes, k),
            c_declaration_env::scan_scope(env, nodes, n),
        ),
    decreases nodes, n,
{
    if k < n {
        scopes_lose_nothing(env, nodes, n - 1, k);
        let before = c_declaration_env::scan_scope(env, nodes, n - 1);
        items_lose_nothing(before, nodes[n - 1]);
        growth_chains(
            c_declaration_env::scan_scope(env, nodes, k),
            before,
            c_declaration_env::scan_scope(env, nodes, n),
        );
    }
}

/// Whether an environment declares a name at a place of file scope.
pub open spec fn declares_at(env: EnvironmentView, name: Seq<char>, at: usize) -> bool {
    exists|i: int| 0 <= i < env.types.len() && #[trigger] env.types[i] == (name, at)
}

/// Whether an environment holds a directive at a place.
pub open spec fn bounded_at(env: EnvironmentView, at: usize) -> bool {
    exists|i: int| 0 <= i < env.boundaries.len() && #[trigger] env.boundaries[i] == at
}

proof fn growth_keeps(a: EnvironmentView, b: EnvironmentView, name: Seq<char>, at: usize)
    requires
        grows(a, b),
    ensures
        declares_at(a, name, at) ==> declares_at(b, name, at),
        bounded_at(a, at) ==> bounded_at(b, at),
{
    if declares_at(a, name, at) {
        let i = choose|i: int| 0 <= i < a.types.len() && #[trigger] a.types[i] == (name, at);
        assert(b.types[i] == a.types[i]);
    }
    if bounded_at(a, at) {
        let i = choose|i: int| 0 <= i < a.boundaries.len() && #[trigger] a.boundaries[i] == at;
        assert(b.boundaries[i] == a.boundaries[i]);
    }
}

proof fn items_are_read(
    env: EnvironmentView,
    node: SyntaxNode,
    path: Seq<int>,
    name: Seq<char>,
    at: usize,
)
    ensures
        defines_at(node, path, name, at) ==> declares_at(
            c_declaration_env::scan_item(env, node),
            name,
            at,
        ),
        bounds_at(node, path, at) ==> bounded_at(c_declaration_env::scan_item(env, node), at),
    decreases path.len(),
{
    let after = c_declaration_env::scan_item(env, node);
    assert(is_directive(node) <==> text::occurs_at(node.kind@, "preproc_"@, 0)) by {
        let w = "preproc_"@;
        if is_directive(node) {
            assert(node.kind@.subrange(0, w.len() as int) =~= w);
        }
        if text::occurs_at(node.kind@, w, 0) {
            assert(w =~= node.kind@.subrange(0, w.len() as int));
        }
    }
    if path.len() == 0 {
        if defines_at(node, path, name, at) {
            assert(node.kind@ == "type_definition"@);
            kinds_differ();
            type_names_are_found(Seq::empty(), node, name);
            let names = c_declaration_env::type_names(Seq::empty(), node);
            assert(names.contains(name));
            let i = choose|i: int| 0 <= i < names.len() && names[i] == name;
            assert(after.types[env.types.len() + i] == (name, at));
        }
        if bounds_at(node, path, at) {
            let inner = EnvironmentView { boundaries: env.boundaries.push(node.start_byte), ..env };
            assert(inner.boundaries[env.boundaries.len() as int] == at);
            assert(bounded_at(inner, at));
            scopes_lose_nothing(inner, node.children@, node.children@.len() as int, 0);
            growth_keeps(inner, after, name, at);
        }
    } else if along_directives(node, path) {
        let inner = EnvironmentView { boundaries: env.boundaries.push(node.start_byte), ..env };
        let k = path[0];
        let nodes = node.children@;
        let there = c_declaration_env::scan_scope(inner, nodes, k);
        items_are_read(there, nodes[k], path.skip(1), name, at);
        scopes_lose_nothing(inner, nodes, nodes.len() as int, k + 1);
        growth_keeps(
            c_declaration_env::scan_scope(inner, nodes, k + 1),
            after,
            name,
            at,
        );
    }
}

proof fn kinds_differ()
    ensures
        "type_definition"@ != "function_definition"@,
        !"preproc_"@.is_prefix_of("type_definition"@),
        !text::occurs_at("type_definition"@, "preproc_"@, 0),
{
    reveal_strlit("type_definition");
    reveal_strlit("function_definition");
    reveal_strlit("preproc_");
    assert("type_definition"@[0] == 't');
    assert("function_definition"@[0] == 'f');
    assert("preproc_"@[0] == 'p');
    let t = "type_definition"@;
    let w = "preproc_"@;
    if w.is_prefix_of(t) {
        assert(w[0] == t.subrange(0, w.len() as int)[0]);
    }
    if text::occurs_at(t, w, 0) {
        assert(t.subrange(0, w.len() as int)[0] == w[0]);
    }
}

/// Every name that a type definition at file scope introduces is declared where the
/// definition starts, also inside directives. Every directive is a boundary where it
/// starts.
pub proof fn units_declare_their_types(
    unit: SyntaxUnit,
    k: int,
    path: Seq<int>,
    name: Seq<char>,
    at: usize,
)
    requires
        0 <= k < unit.root.children@.len(),
    ensures
        defines_at(unit.root.children@[k], path, name, at) ==> declares_at(
            c_declaration_env::environment_of(unit),
            name,
            at,
        ),
        bounds_at(unit.root.children@[k], path, at) ==> bounded_at(
            c_declaration_env::environment_of(unit),
            at,
        ),
{
    let nodes = unit.root.children@;
    let empty = c_declaration_env::empty_environment(
        c_declaration_env::packing_directive(unit.source@),
    );
    items_are_read(
        c_declaration_env::scan_scope(empty, nodes, k),
        nodes[k],
        path,
        name,
        at,
    );
    scopes_lose_nothing(empty, nodes, nodes.len() as int, k + 1);
    growth_keeps(
        c_declaration_env::scan_scope(empty, nodes, k + 1),
        c_declaration_env::environment_of(unit),
        name,
        at,
    );
}

/// A text without its white space is all the rest of it, in order.
pub proof fn only_white_space_is_left_out(s: Seq<char>)
    ensures
        c_declaration_env::without_spaces(s) == s.filter(|c: char| !text::is_space(c)),
    decreases s.len(),
{
    reveal(Seq::filter);
    if s.len() > 0 {
        only_white_space_is_left_out(s.drop_last());
    }
}

/// Whether a path leads to a structure, union or enumeration with its body, and past
/// none on the way.
pub open spec fn leads_to_tag(node: SyntaxNode, path: Seq<int>) -> bool
    decreases path.len(),
{
    if path.len() == 0 {
        c_declaration_env::tag_definition(node)
    } else {
        !c_declaration_env::tag_definition(node) && 0 <= path[0] < node.children@.len()
            && leads_to_tag(node.children@[path[0]], path.skip(1))
    }
}

/// Whether a child of a node is a type name.
pub open spec fn tagged(node: SyntaxNode, name: Seq<char>) -> bool {
    exists|i: int|
        0 <= i < node.children@.len() && (#[trigger] node.children@[i]).kind@ == "type_identifier"@
            && node.children@[i].text@ == name
}

proof fn direct_names_are_found(nodes: Seq<SyntaxNode>, n: int, name: Seq<char>)
    requires
        0 <= n <= nodes.len(),
    ensures
        c_declaration_env::direct_names(nodes, n).contains(name) <==> exists|i: int|
            0 <= i < n && (#[trigger] nodes[i]).kind@ == "type_identifier"@ && nodes[i].text@ == name,
    decreases n,
{
    if n > 0 {
        direct_names_are_found(nodes, n - 1, name);
        let before = c_declaration_env::direct_names(nodes, n - 1);
        let after = c_declaration_env::direct_names(nodes, n);
        if nodes[n - 1].kind@ == "type_identifier"@ {
            assert(after[before.len() as int] == nodes[n - 1].text@);
            if before.contains(name) {
                let i = choose|i: int| 0 <= i < before.len() && before[i] == name;
                assert(after[i] == name);
            }
            if after.contains(name) && nodes[n - 1].text@ != name {
                let i = choose|i: int| 0 <= i < after.len() && after[i] == name;
                assert(before[i] == name);
            }
        }
        if exists|i: int|
            0 <= i < n && (#[trigger] nodes[i]).kind@ == "type_identifier"@ && nodes[i].text@
                == name {
            let i = choose|i: int|
                0 <= i < n && (#[trigger] nodes[i]).kind@ == "type_identifier"@ && nodes[i].text@
                    == name;
            if i < n - 1 {
                assert(nodes[i].kind@ == "type_identifier"@ && nodes[i].text@ == name);
            }
        }
    }
}

proof fn listed_tags_keep(
    env: EnvironmentView,
    nodes: Seq<SyntaxNode>,
    n: int,
    k: int,
    position: usize,
)
    requires
        0 <= k <= n <= nodes.len(),
    ensures
        grows(
            c_declaration_env::scan_tags_of(env, nodes, k, position),
            c_declaration_env::scan_tags_of(env, nodes, n, position),
        ),
    decreases n,
{
    if k < n {
        listed_tags_keep(env, nodes, n - 1, k, position);
        let before = c_declaration_env::scan_tags_of(env, nodes, n - 1, position);
        tags_grow(before, nodes[n - 1], position);
        growth_chains(
            c_declaration_env::scan_tags_of(env, nodes, k, position),
            before,
            c_declaration_env::scan_tags_of(env, nodes, n, position),
        );
    }
}

/// A structure, union or enumeration that stands with its body in a declaration is
/// declared under its name, where the declaration starts.
pub proof fn tags_are_declared(
    env: EnvironmentView,
    node: SyntaxNode,
    path: Seq<int>,
    name: Seq<char>,
    position: usize,
)
    requires
        leads_to_tag(node, path),
        tagged(reached(node, path), name),
    ensures
        declares_at(c_declaration_env::scan_tags(env, node, position), name, position),
    decreases path.len(),
{
    let after = c_declaration_env::scan_tags(env, node, position);
    let nodes = node.children@;
    if path.len() == 0 {
        direct_names_are_found(nodes, nodes.len() as int, name);
        let names = c_declaration_env::direct_names(nodes, nodes.len() as int);
        let i = choose|i: int| 0 <= i < names.len() && names[i] == name;
        assert(after.types[env.types.len() + i] == (name, position));
    } else {
        let k = path[0];
        let there = c_declaration_env::scan_tags_of(env, nodes, k, position);
        tags_are_declared(there, nodes[k], path.skip(1), name, position);
        listed_tags_keep(env, nodes, nodes.len() as int, k + 1, position);
        growth_keeps(
            c_declaration_env::scan_tags_of(env, nodes, k + 1, position),
            after,
            name,
            position,
        );
    }
}

/// Whether a path leads to a definition of types, and past no type definition on
/// the way.
pub open spec fn leads_to_definition(node: SyntaxNode, path: Seq<int>) -> bool
    decreases path.len(),
{
    if path.len() == 0 {
        node.kind@ == "type_definition"@ || c_declaration_env::tag_definition(node)
    } else {
        node.kind@ != "type_definition"@ && 0 <= path[0] < node.children@.len()
            && leads_to_definition(node.children@[path[0]], path.skip(1))
    }
}

/// Whether an environment declares a name inside a function.
pub open spec fn declares_inside(
    env: EnvironmentView,
    name: Seq<char>,
    start: usize,
    end: usize,
) -> bool {
    exists|i: int| 0 <= i < env.locals.len() && #[trigger] env.locals[i] == (name, start, end)
}

proof fn growth_keeps_locals(
    a: EnvironmentView,
    b: EnvironmentView,
    name: Seq<char>,
    start: usize,
    end: usize,
)
    requires
        grows(a, b),
        declares_inside(a, name, start, end),
    ensures
        declares_inside(b, name, start, end),
{
    let i = choose|i: int| 0 <= i < a.locals.len() && #[trigger] a.locals[i] == (name, start, end);
    assert(b.locals[i] == a.locals[i]);
}

proof fn listed_locals_keep(
    env: EnvironmentView,
    nodes: Seq<SyntaxNode>,
    n: int,
    k: int,
    start: usize,
    end: usize,
)
    requires
        0 <= k <= n <= nodes.len(),
    ensures
        grows(
            c_declaration_env::scan_locals_of(env, nodes, k, start, end),
            c_declaration_env::scan_locals_of(env, nodes, n, start, end),
        ),
    decreases n,
{
    if k < n {
        listed_locals_keep(env, nodes, n - 1, k, start, end);
        let before = c_declaration_env::scan_locals_of(env, nodes, n - 1, start, end);
        locals_grow(before, nodes[n - 1], start, end);
        growth_chains(
            c_declaration_env::scan_locals_of(env, nodes, k, start, end),
            before,
            c_declaration_env::scan_locals_of(env, nodes, n, start, end),
        );
    }
}

proof fn locals_are_read(
    env: EnvironmentView,
    node: SyntaxNode,
    path: Seq<int>,
    name: Seq<char>,
    start: usize,
    end: usize,
)
    requires
        leads_to_definition(node, path),
        holds_type(reached(node, path), name),
    ensures
        declares_inside(c_declaration_env::scan_locals(env, node, start, end), name, start, end),
    decreases path.len(),
{
    let after = c_declaration_env::scan_locals(env, node, start, end);
    let nodes = node.children@;
    let names = c_declaration_env::type_names(Seq::empty(), node);
    let own = if node.kind@ == "type_definition"@ || c_declaration_env::tag_definition(node) {
        c_declaration_env::declare_local(env, names, start, end)
    } else {
        env
    };
    if path.len() == 0 {
        type_names_are_found(Seq::empty(), node, name);
        assert(names.contains(name));
        let i = choose|i: int| 0 <= i < names.len() && names[i] == name;
        assert(own.locals[env.locals.len() + i] == (name, start, end));
        assert(declares_inside(own, name, start, end));
        if node.kind@ != "type_definition"@ {
            listed_locals_grow(own, nodes, nodes.len() as int, start, end);
            growth_keeps_locals(own, after, name, start, end);
        }
    } else {
        let k = path[0];
        let there = c_declaration_env::scan_locals_of(own, nodes, k, start, end);
        locals_are_read(there, nodes[k], path.skip(1), name, start, end);
        listed_locals_keep(own, nodes, nodes.len() as int, k + 1, start, end);
        growth_keeps_locals(
            c_declaration_env::scan_locals_of(own, nodes, k + 1, start, end),
            after,
            name,
            start,
            end,
        );
    }
}

proof fn bodies_are_read(
    env: EnvironmentView,
    function: SyntaxNode,
    n: int,
    b: int,
    path: Seq<int>,
    name: Seq<char>,
)
    requires
        0 <= b < n <= function.children@.len(),
        function.children@[b].kind@ == "compound_statement"@,
        leads_to_definition(function.children@[b], path),
        holds_type(reached(function.children@[b], path), name),
    ensures
        declares_inside(
            c_declaration_env::scan_function(env, function, n),
            name,
            function.start_byte,
            function.end_byte,
        ),
    decreases n,
{
    let before = c_declaration_env::scan_function(env, function, n - 1);
    let start = function.start_byte;
    let end = function.end_byte;
    if b == n - 1 {
        locals_are_read(before, function.children@[b], path, name, start, end);
    } else {
        bodies_are_read(env, function, n - 1, b, path, name);
        if function.children@[n - 1].kind@ == "compound_statement"@ {
            locals_grow(before, function.children@[n - 1], start, end);
            growth_keeps_locals(
                before,
                c_declaration_env::scan_function(env, function, n),
                name,
                start,
                end,
            );
        }
    }
}

/// A type that is defined in the body of a function belongs to that function, from
/// where it starts to where it ends.
pub proof fn functions_own_their_types(
    env: EnvironmentView,
    function: SyntaxNode,
    b: int,
    path: Seq<int>,
    name: Seq<char>,
)
    requires
        function.kind@ == "function_definition"@,
        0 <= b < function.children@.len(),
        function.children@[b].kind@ == "compound_statement"@,
        leads_to_definition(function.children@[b], path),
        holds_type(reached(function.children@[b], path), name),
    ensures
        declares_inside(
            c_declaration_env::scan_item(env, function),
            name,
            function.start_byte,
            function.end_byte,
        ),
{
    bodies_are_read(env, function, function.children@.len() as int, b, path, name);
}

/// Whether a line that starts at a place is a packing pragma, however it is spaced.
pub open spec fn packs(s: Seq<char>, at: int) -> bool {
    0 <= at < s.len() && (at == 0 || s[at - 1] == '\n') && "#pragmapack"@.is_prefix_of(
        s.subrange(at, text::line_end(s, at)).filter(|c: char| !text::is_space(c)),
    )
}

/// A text holds a packing pragma if one of its lines is one.
pub proof fn packing_pragmas_are_seen(s: Seq<char>, from: int)
    requires
        0 <= from <= s.len(),
        from == 0 || s[from - 1] == '\n',
    ensures
        c_declaration_env::pragma_line_from(s, from) <==> exists|at: int|
            from <= at && #[trigger] packs(s, at),
    decreases s.len() - from,
{
    if from < s.len() {
        text::line_end_bounds(s, from);
        let end = text::line_end(s, from);
        let line = s.subrange(from, end);
        only_white_space_is_left_out(line);
        let w = "#pragmapack"@;
        let bare = c_declaration_env::without_spaces(line);
        if text::occurs_at(bare, w, 0) {
            assert(w =~= bare.subrange(0, w.len() as int));
            assert(packs(s, from));
        }
        if packs(s, from) {
            assert(bare.subrange(0, w.len() as int) =~= w);
        }
        if end < s.len() {
            packing_pragmas_are_seen(s, end + 1);
        }
        assert forall|at: int| from <= at && #[trigger] packs(s, at) implies at == from || (end
            < s.len() && end + 1 <= at) by {
            if from < at <= end {
                assert(s[at - 1] != '\n');
            }
        }
        if end < s.len() && exists|at: int| end + 1 <= at && #[trigger] packs(s, at) {
            let at = choose|at: int| end + 1 <= at && #[trigger] packs(s, at);
            assert(from <= at && packs(s, at));
        }
    }
}

} // verus!
