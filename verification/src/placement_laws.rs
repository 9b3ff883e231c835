//! What holds of every placement that is found.

use vstd::prelude::*;

use crate::order;
use crate::placement;
use crate::placement::{GraphView, PlacementBounds, PlacementCost, SearchView, UNCOLORED};

verus! {

/// Whether no two neighbors have the same color.
pub open spec fn proper(graph: GraphView, colors: Seq<usize>) -> bool {
    forall|i: int, j: int|
        #![trigger graph.adjacency[i].contains(j as usize)]
        0 <= i < colors.len() && 0 <= j < colors.len() && graph.adjacency[i].contains(j as usize)
            && colors[i] != UNCOLORED && colors[j] != UNCOLORED ==> colors[i] != colors[j]
}

/// Whether every node has a color.
pub open spec fn complete(colors: Seq<usize>) -> bool {
    forall|i: int| 0 <= i < colors.len() ==> #[trigger] colors[i] != UNCOLORED
}

/// Whether the colored nodes are grouped as in another placement.
pub open spec fn agrees(partial: Seq<usize>, colors: Seq<usize>) -> bool {
    &&& partial.len() == colors.len()
    &&& forall|i: int, j: int|
        #![trigger partial[i], partial[j]]
        0 <= i < partial.len() && 0 <= j < partial.len() && partial[i] != UNCOLORED && partial[j]
            != UNCOLORED ==> ((partial[i] == partial[j]) == (colors[i] == colors[j]))
}

/// Whether a placement's cost depends on nothing but what shares a slot.
pub open spec fn cost_by_grouping(costs: spec_fn(Seq<usize>) -> Option<PlacementCost>, nodes: nat) -> bool {
    forall|a: Seq<usize>, b: Seq<usize>|
        a.len() == nodes && complete(a) && complete(b) && #[trigger] agrees(a, b)
            ==> costs(a) == costs(b)
}

/// Whether every color below the largest one in use is in use.
pub open spec fn gapless(colors: Seq<usize>) -> bool {
    forall|c: usize|
        c < placement::used_colors(colors, colors.len() as int) ==> #[trigger] colors.contains(c)
}

/// Whether no placement is cheaper than the bound of any part of it that a
/// search can meet.
pub open spec fn bound_admissible(
    graph: GraphView,
    bounds: PlacementBounds,
    costs: spec_fn(Seq<usize>) -> Option<PlacementCost>,
) -> bool {
    forall|p: Seq<usize>, c: Seq<usize>|
        p.len() == graph.weights.len() && complete(c) && #[trigger] agrees(p, c)
            && placement::colors_ok(p) && gapless(p) ==> match costs(c) {
            Some(cost) => !placement::cheaper(
                placement::bound_of(cost),
                placement::lower_bound(graph, bounds, p),
            ),
            None => true,
        }
}

proof fn all_colored(colors: Seq<usize>, n: int)
    requires
        0 <= n <= colors.len(),
        forall|i: int| 0 <= i < n ==> #[trigger] colors[i] != UNCOLORED,
    ensures
        placement::colored(colors, n) == n,
    decreases n,
{
    if n > 0 {
        all_colored(colors, n - 1);
    }
}

proof fn colored_fully(colors: Seq<usize>, n: int)
    requires
        0 <= n <= colors.len(),
        placement::colored(colors, n) == n,
    ensures
        forall|i: int| 0 <= i < n ==> #[trigger] colors[i] != UNCOLORED,
    decreases n,
{
    if n > 0 {
        placement::colored_bound(colors, n - 1);
        colored_fully(colors, n - 1);
    }
}

proof fn free_color_is_free(neighbors: Seq<usize>, colors: Seq<usize>, color: usize, limit: usize)
    requires
        color <= limit,
        forall|k: int| 0 <= k < neighbors.len() ==> #[trigger] neighbors[k] < colors.len(),
        forall|i: int|
            0 <= i < colors.len() && #[trigger] colors[i] != UNCOLORED ==> colors[i] < limit,
        limit < UNCOLORED,
    ensures
        color <= placement::free_color(neighbors, colors, color, limit) <= limit,
        !placement::color_taken(
            neighbors,
            colors,
            placement::free_color(neighbors, colors, color, limit),
        ),
        forall|c: usize|
            color <= c < placement::free_color(neighbors, colors, color, limit)
                ==> #[trigger] placement::color_taken(neighbors, colors, c),
    decreases limit - color,
{
    if color < limit && placement::color_taken(neighbors, colors, color) {
        free_color_is_free(neighbors, colors, (color + 1) as usize, limit);
    } else if color >= limit {
        if placement::color_taken(neighbors, colors, limit) {
            let k = choose|k: int|
                0 <= k < neighbors.len() && colors[#[trigger] neighbors[k] as int] == limit;
            assert(colors[neighbors[k] as int] < limit);
        }
    }
}

proof fn greedy_step(graph: GraphView, n: int)
    requires
        placement::graph_ok(graph),
        placement::graph_symmetric(graph),
        graph.weights.len() < UNCOLORED,
        0 <= n <= graph.weights.len(),
    ensures
        placement::greedy_colors(graph, n).len() == graph.weights.len(),
        placement::colored(placement::greedy_colors(graph, n), graph.weights.len() as int) == n,
        forall|i: int|
            0 <= i < graph.weights.len() && #[trigger] placement::greedy_colors(graph, n)[i]
                != UNCOLORED ==> placement::greedy_colors(graph, n)[i] < n,
        proper(graph, placement::greedy_colors(graph, n)),
    decreases n,
{
    let total = graph.weights.len() as int;
    if n <= 0 {
        none_colored(placement::greedy_colors(graph, n), total);
    } else {
        greedy_step(graph, n - 1);
        let before = placement::greedy_colors(graph, n - 1);
        let after = placement::greedy_colors(graph, n);
        placement::next_node_finds(graph, before, total);
        match placement::next_node(graph, before, total) {
            None => {
                all_colored(before, total);
            },
            Some(node) => {
                let limit = (n - 1) as usize;
                let neighbors = graph.adjacency[node];
                assert forall|k: int| 0 <= k < neighbors.len() implies #[trigger] neighbors[k]
                    < before.len() by {
                    assert(graph.adjacency[node][k] < graph.weights.len());
                }
                free_color_is_free(neighbors, before, 0, limit);
                let color = placement::free_color(neighbors, before, 0, limit);
                placement::colored_update(before, node, color, total);
                assert forall|i: int, j: int|
                    #![trigger graph.adjacency[i].contains(j as usize)]
                    0 <= i < after.len() && 0 <= j < after.len() && graph.adjacency[i].contains(
                        j as usize,
                    ) && after[i] != UNCOLORED && after[j] != UNCOLORED implies after[i]
                    != after[j] by {
                    assert(i != j && graph.adjacency[j].contains(i as usize));
                    if i == node {
                        let k = choose|k: int|
                            0 <= k < neighbors.len() && neighbors[k] == j as usize;
                        assert(before[neighbors[k] as int] != color);
                    } else if j == node {
                        let k = choose|k: int|
                            0 <= k < neighbors.len() && neighbors[k] == i as usize;
                        assert(before[neighbors[k] as int] != color);
                    }
                }
            },
        }
    }
}

proof fn none_colored(colors: Seq<usize>, n: int)
    requires
        0 <= n <= colors.len(),
        forall|i: int| 0 <= i < colors.len() ==> #[trigger] colors[i] == UNCOLORED,
    ensures
        placement::colored(colors, n) == 0,
    decreases n,
{
    if n > 0 {
        none_colored(colors, n - 1);
    }
}

/// Coloring the nodes one after another gives every node a color, and never
/// the color of a neighbor.
pub proof fn greedy_coloring_is_proper(graph: GraphView)
    requires
        placement::graph_ok(graph),
        placement::graph_symmetric(graph),
        graph.weights.len() < UNCOLORED,
    ensures
        placement::greedy_colors(graph, graph.weights.len() as int).len() == graph.weights.len(),
        complete(placement::greedy_colors(graph, graph.weights.len() as int)),
        proper(graph, placement::greedy_colors(graph, graph.weights.len() as int)),
{
    let total = graph.weights.len() as int;
    greedy_step(graph, total);
    colored_fully(placement::greedy_colors(graph, total), total);
}

proof fn canonical_step(colors: Seq<usize>, n: int)
    requires
        0 <= n <= colors.len(),
        colors.len() < UNCOLORED,
    ensures
        placement::canonical(colors, n).len() == n,
        placement::distinct_colors(colors, n) <= n,
        forall|i: int|
            0 <= i < n ==> (#[trigger] placement::canonical(colors, n)[i])
                < placement::distinct_colors(colors, n),
        forall|i: int, j: int|
            0 <= i < n && 0 <= j < n ==> ((#[trigger] placement::canonical(colors, n)[i]
                == #[trigger] placement::canonical(colors, n)[j]) == (colors[i] == colors[j])),
    decreases n,
{
    if n > 0 {
        canonical_step(colors, n - 1);
        placement::first_with_bounds(colors, colors[n - 1], n - 1);
        let before = placement::canonical(colors, n - 1);
        let after = placement::canonical(colors, n);
        assert forall|i: int, j: int| 0 <= i < n && 0 <= j < n implies ((#[trigger] after[i]
            == #[trigger] after[j]) == (colors[i] == colors[j])) by {
            if i < n - 1 && j < n - 1 {
                assert(after[i] == before[i] && after[j] == before[j]);
            } else if i < n - 1 {
                assert(after[i] == before[i]);
            } else if j < n - 1 {
                assert(after[j] == before[j]);
            }
        }
    }
}

/// Renumbering colors keeps the grouping, uses the smallest numbers, and
/// leaves no node without a color.
pub proof fn canonical_colors_keep_grouping(colors: Seq<usize>)
    requires
        colors.len() < UNCOLORED,
    ensures
        placement::canonical(colors, colors.len() as int).len() == colors.len(),
        complete(placement::canonical(colors, colors.len() as int)),
        forall|i: int, j: int|
            0 <= i < colors.len() && 0 <= j < colors.len() ==> ((
            #[trigger] placement::canonical(colors, colors.len() as int)[i]
                == #[trigger] placement::canonical(colors, colors.len() as int)[j]) == (colors[i]
                == colors[j])),
{
    canonical_step(colors, colors.len() as int);
}

proof fn canonical_equal_step(a: Seq<usize>, b: Seq<usize>, n: int)
    requires
        a.len() == b.len(),
        0 <= n <= a.len(),
        forall|i: int, j: int|
            #![trigger a[i], a[j]]
            0 <= i < a.len() && 0 <= j < a.len() ==> ((a[i] == a[j]) == (b[i] == b[j])),
    ensures
        placement::canonical(a, n) == placement::canonical(b, n),
        placement::distinct_colors(a, n) == placement::distinct_colors(b, n),
    decreases n,
{
    if n > 0 {
        canonical_equal_step(a, b, n - 1);
        placement::first_with_bounds(a, a[n - 1], n - 1);
        placement::first_with_bounds(b, b[n - 1], n - 1);
        match (
            placement::first_with(a, a[n - 1], n - 1),
            placement::first_with(b, b[n - 1], n - 1),
        ) {
            (Some(i), Some(j)) => {
                assert(a[i] == a[n - 1]);
                assert(b[i] == b[n - 1]);
                assert(a[j] == a[n - 1]);
            },
            (Some(i), None) => {
                assert(a[i] == a[n - 1]);
                assert(b[i] == b[n - 1]);
            },
            (None, Some(j)) => {
                assert(b[j] == b[n - 1]);
                assert(a[j] == a[n - 1]);
            },
            (None, None) => {},
        }
    }
}

/// Placements that group the nodes alike are renumbered alike.
pub proof fn canonical_colors_are_unique(a: Seq<usize>, b: Seq<usize>)
    requires
        complete(a),
        complete(b),
        agrees(a, b),
    ensures
        placement::canonical(a, a.len() as int) == placement::canonical(b, b.len() as int),
{
    assert forall|i: int, j: int|
        #![trigger a[i], a[j]]
        0 <= i < a.len() && 0 <= j < a.len() implies ((a[i] == a[j]) == (b[i] == b[j])) by {
        assert(a[i] != UNCOLORED && a[j] != UNCOLORED);
    }
    canonical_equal_step(a, b, a.len() as int);
}

/// Whether a placement comes before another: it is cheaper, or as cheap and its
/// colors come first.
pub open spec fn ahead(
    cost: PlacementCost,
    colors: Seq<usize>,
    other_cost: PlacementCost,
    other_colors: Seq<usize>,
) -> bool {
    ||| placement::cheaper(placement::bound_of(cost), placement::bound_of(other_cost))
    ||| cost == other_cost && order::lex_lt(
        placement::colors_key(colors),
        placement::colors_key(other_colors),
    )
}

proof fn ahead_through(
    a_cost: PlacementCost,
    a: Seq<usize>,
    b_cost: PlacementCost,
    b: Seq<usize>,
    c_cost: PlacementCost,
    c: Seq<usize>,
)
    requires
        ahead(a_cost, a, b_cost, b),
        ahead(b_cost, b, c_cost, c),
    ensures
        ahead(a_cost, a, c_cost, c),
{
    if a_cost == b_cost && b_cost == c_cost {
        order::lex_irreflexive(placement::colors_key(a));
        order::lex_transitive(
            placement::colors_key(a),
            placement::colors_key(b),
            placement::colors_key(c),
        );
    }
}

/// Whether a search stands where it stood, or has a placement that comes before
/// the one it had.
pub open spec fn moved_ahead(search: SearchView, before: SearchView) -> bool {
    ||| search.best_cost == before.best_cost && search.best_colors == before.best_colors
    ||| ahead(search.best_cost, search.best_colors, before.best_cost, before.best_colors)
}

proof fn moved_through(a: SearchView, b: SearchView, c: SearchView)
    requires
        moved_ahead(a, b),
        moved_ahead(b, c),
    ensures
        moved_ahead(a, c),
{
    if ahead(a.best_cost, a.best_colors, b.best_cost, b.best_colors) && ahead(
        b.best_cost,
        b.best_colors,
        c.best_cost,
        c.best_colors,
    ) {
        ahead_through(
            a.best_cost,
            a.best_colors,
            b.best_cost,
            b.best_colors,
            c.best_cost,
            c.best_colors,
        );
    }
}

/// What comes before no placement of a search comes before none of a later one.
proof fn stays_behind(cost: PlacementCost, colors: Seq<usize>, after: SearchView, before: SearchView)
    requires
        moved_ahead(after, before),
        !ahead(cost, colors, before.best_cost, before.best_colors),
    ensures
        !ahead(cost, colors, after.best_cost, after.best_colors),
{
    if ahead(cost, colors, after.best_cost, after.best_colors) && ahead(
        after.best_cost,
        after.best_colors,
        before.best_cost,
        before.best_colors,
    ) {
        ahead_through(
            cost,
            colors,
            after.best_cost,
            after.best_colors,
            before.best_cost,
            before.best_colors,
        );
    }
}

proof fn search_from_improves(
    graph: GraphView,
    bounds: PlacementBounds,
    budget: u64,
    costs: spec_fn(Seq<usize>) -> Option<PlacementCost>,
    search: SearchView,
    colors: Seq<usize>,
)
    ensures
        ({
            let r = placement::search_from(graph, bounds, budget, costs, search, colors);
            &&& search.exhausted ==> r == search
            &&& moved_ahead(r, search)
        }),
    decreases placement::uncolored(colors), 1int, 0int,
{
    if !search.exhausted && search.explored_nodes < budget {
        let entered = SearchView {
            explored_nodes: (search.explored_nodes + 1) as u64,
            ..search
        };
        if !placement::cheaper(
            placement::bound_of(entered.best_cost),
            placement::lower_bound(graph, bounds, colors),
        ) {
            if let Some(node) = placement::next_node(graph, colors, colors.len() as int) {
                let list = placement::candidate_colors(graph, colors, node);
                search_colors_improves(
                    graph,
                    bounds,
                    budget,
                    costs,
                    entered,
                    colors,
                    node,
                    list,
                    list.len() as int,
                );
            }
        }
    }
}

proof fn search_colors_improves(
    graph: GraphView,
    bounds: PlacementBounds,
    budget: u64,
    costs: spec_fn(Seq<usize>) -> Option<PlacementCost>,
    search: SearchView,
    colors: Seq<usize>,
    node: int,
    list: Seq<usize>,
    k: int,
)
    ensures
        ({
            let r = placement::search_colors(
                graph,
                bounds,
                budget,
                costs,
                search,
                colors,
                node,
                list,
                k,
            );
            &&& search.exhausted ==> r == search
            &&& moved_ahead(r, search)
        }),
    decreases placement::uncolored(colors), 0int, k,
{
    if k > 0 {
        search_colors_improves(
            graph,
            bounds,
            budget,
            costs,
            search,
            colors,
            node,
            list,
            k - 1,
        );
        let before = placement::search_colors(
            graph,
            bounds,
            budget,
            costs,
            search,
            colors,
            node,
            list,
            k - 1,
        );
        let next = colors.update(node, list[k - 1]);
        if placement::uncolored(next) < placement::uncolored(colors) {
            search_from_improves(graph, bounds, budget, costs, before, next);
            moved_through(
                placement::search_from(graph, bounds, budget, costs, before, next),
                before,
                search,
            );
        }
    }
}

/// A search returns the incumbent, or a placement that comes before it: one that
/// is cheaper, or one that is as cheap and whose colors come first.
pub proof fn search_never_worsens(
    graph: GraphView,
    bounds: PlacementBounds,
    budget: u64,
    costs: spec_fn(Seq<usize>) -> Option<PlacementCost>,
    initial_colors: Seq<usize>,
    incumbent_cost: PlacementCost,
)
    ensures
        ({
            let start = placement::start_of(initial_colors, incumbent_cost);
            let r = placement::search_from(
                graph,
                bounds,
                budget,
                costs,
                start,
                placement::no_colors(graph.weights.len()),
            );
            &&& moved_ahead(r, start)
            &&& !placement::cheaper(
                placement::bound_of(incumbent_cost),
                placement::bound_of(r.best_cost),
            )
        }),
{
    search_from_improves(
        graph,
        bounds,
        budget,
        costs,
        placement::start_of(initial_colors, incumbent_cost),
        placement::no_colors(graph.weights.len()),
    );
}

proof fn open_colors_hold(graph: GraphView, colors: Seq<usize>, node: int, k: int)
    requires
        0 <= k <= placement::used_colors(colors, colors.len() as int) + 1,
        k <= usize::MAX,
    ensures
        forall|c: usize|
            placement::open_colors(graph, colors, node, k).contains(c) <==> c < k && (c
                == placement::used_colors(colors, colors.len() as int)
                || !placement::color_taken(graph.adjacency[node], colors, c)),
    decreases k,
{
    if k > 0 {
        open_colors_hold(graph, colors, node, k - 1);
        let before = placement::open_colors(graph, colors, node, k - 1);
        let after = placement::open_colors(graph, colors, node, k);
        let used = placement::used_colors(colors, colors.len() as int);
        let own = (k - 1) as usize;
        assert forall|c: usize|
            after.contains(c) <==> c < k && (c == used || !placement::color_taken(
                graph.adjacency[node],
                colors,
                c,
            )) by {
            if after == before.push(own) {
                if before.contains(c) {
                    let i = choose|i: int| 0 <= i < before.len() && before[i] == c;
                    assert(after[i] == c);
                }
                if c == own {
                    assert(after[before.len() as int] == c);
                }
                if after.contains(c) && c != own {
                    let i = choose|i: int| 0 <= i < after.len() && after[i] == c;
                    assert(before[i] == c);
                }
            }
        }
    }
}

/// Whether a color can be given to a node: a new one, or one in use that no
/// neighbor has.
pub open spec fn can_get(graph: GraphView, colors: Seq<usize>, node: int, color: usize) -> bool {
    let used = placement::used_colors(colors, colors.len() as int);
    color <= used && (color == used || !placement::color_taken(
        graph.adjacency[node],
        colors,
        color,
    ))
}

proof fn candidates_are_open(graph: GraphView, colors: Seq<usize>, node: int)
    requires
        colors.len() < UNCOLORED,
        placement::colors_ok(colors),
    ensures
        forall|c: usize|
            #[trigger] placement::candidate_colors(graph, colors, node).contains(c) <==> can_get(
                graph,
                colors,
                node,
                c,
            ),
{
    let total = colors.len() as int;
    placement::colored_bound(colors, total);
    placement::used_colors_bound(colors, total, placement::colored(colors, total));
    let used = placement::used_colors(colors, total);
    let list = placement::open_colors(graph, colors, node, used + 1);
    placement::open_colors_bounds(graph, colors, node, used + 1);
    open_colors_hold(graph, colors, node, used + 1);
    let keys = placement::color_keys(graph, colors, node, list);
    order::stable_order_sorts(keys, list.len() as int);
    let places = order::stable_order(keys, keys.len() as int);
    let sorted = placement::candidate_colors(graph, colors, node);
    assert(sorted == order::arranged(list, places));
    assert forall|c: usize| #[trigger] sorted.contains(c) <==> can_get(graph, colors, node, c) by {
        if sorted.contains(c) {
            let i = choose|i: int| 0 <= i < sorted.len() && sorted[i] == c;
            assert(list[places[i]] == c);
            assert(list.contains(c));
        }
        if list.contains(c) {
            let x = choose|x: int| 0 <= x < list.len() && list[x] == c;
            assert(places.contains(x));
            let i = choose|i: int| 0 <= i < places.len() && places[i] == x;
            assert(sorted[i] == c);
        }
    }
}

/// Whether partial colors are ones that a search can meet.
pub open spec fn partial_ok(graph: GraphView, colors: Seq<usize>) -> bool {
    &&& placement::graph_ok(graph)
    &&& placement::graph_symmetric(graph)
    &&& graph.weights.len() < UNCOLORED
    &&& colors.len() == graph.weights.len()
    &&& placement::colors_ok(colors)
    &&& gapless(colors)
    &&& proper(graph, colors)
}

proof fn partial_next(graph: GraphView, colors: Seq<usize>, node: int, color: usize)
    requires
        partial_ok(graph, colors),
        0 <= node < colors.len(),
        colors[node] == UNCOLORED,
        can_get(graph, colors, node, color),
    ensures
        partial_ok(graph, colors.update(node, color)),
        placement::uncolored(colors.update(node, color)) < placement::uncolored(colors),
        color != UNCOLORED,
{
    let total = colors.len() as int;
    let next = colors.update(node, color);
    placement::colored_bound(colors, total);
    placement::colored_below(colors, node, total);
    placement::used_colors_bound(colors, total, placement::colored(colors, total));
    let used = placement::used_colors(colors, total);
    placement::colored_update(colors, node, color, total);
    assert forall|i: int|
        0 <= i < next.len() && #[trigger] next[i] != UNCOLORED implies next[i]
        < placement::colored(next, next.len() as int) by {
        if i != node {
            assert(next[i] == colors[i]);
        }
    }
    let limit: nat = if color == used {
        (used + 1) as nat
    } else {
        used as nat
    };
    assert forall|i: int| 0 <= i < total && #[trigger] next[i] != UNCOLORED implies next[i]
        < limit by {
        if i != node {
            assert(next[i] == colors[i]);
        }
    }
    placement::used_colors_bound(next, total, limit);
    assert forall|c: usize| c < placement::used_colors(next, total) implies #[trigger]
    next.contains(c) by {
        if c == color {
            assert(next[node] == c);
        } else {
            assert(colors.contains(c));
            let i = choose|i: int| 0 <= i < colors.len() && colors[i] == c;
            assert(next[i] == c);
        }
    }
    let neighbors = graph.adjacency[node];
    assert forall|k: int| 0 <= k < neighbors.len() implies colors[#[trigger] neighbors[k] as int]
        != color by {
        assert(graph.adjacency[node][k] < graph.weights.len());
        let other = neighbors[k] as int;
        if color == used {
            assert(colors[other] == UNCOLORED || colors[other] < used);
        }
    }
    assert forall|i: int, j: int|
        #![trigger graph.adjacency[i].contains(j as usize)]
        0 <= i < next.len() && 0 <= j < next.len() && graph.adjacency[i].contains(j as usize)
            && next[i] != UNCOLORED && next[j] != UNCOLORED implies next[i] != next[j] by {
        assert(i != j && graph.adjacency[j].contains(i as usize));
        if i == node {
            let k = choose|k: int| 0 <= k < neighbors.len() && neighbors[k] == j as usize;
            assert(colors[neighbors[k] as int] != color);
        } else if j == node {
            let k = choose|k: int| 0 <= k < neighbors.len() && neighbors[k] == i as usize;
            assert(colors[neighbors[k] as int] != color);
        }
    }
}

/// The color that extends partial colors towards a complete placement.
proof fn extending_color(graph: GraphView, colors: Seq<usize>, goal: Seq<usize>, node: int) -> (r:
    usize)
    requires
        partial_ok(graph, colors),
        0 <= node < colors.len(),
        colors[node] == UNCOLORED,
        complete(goal),
        proper(graph, goal),
        agrees(colors, goal),
    ensures
        can_get(graph, colors, node, r),
        agrees(colors.update(node, r), goal),
{
    let total = colors.len() as int;
    placement::colored_bound(colors, total);
    placement::used_colors_bound(colors, total, placement::colored(colors, total));
    let used = placement::used_colors(colors, total);
    if exists|i: int|
        0 <= i < total && #[trigger] colors[i] != UNCOLORED && goal[i] == goal[node] {
        let i = choose|i: int|
            0 <= i < total && #[trigger] colors[i] != UNCOLORED && goal[i] == goal[node];
        let color = colors[i];
        let neighbors = graph.adjacency[node];
        if placement::color_taken(neighbors, colors, color) {
            let k = choose|k: int|
                0 <= k < neighbors.len() && colors[#[trigger] neighbors[k] as int] == color;
            assert(graph.adjacency[node][k] < graph.weights.len());
            let other = neighbors[k] as int;
            assert(graph.adjacency[node].contains(other as usize));
            assert(goal[node] != UNCOLORED && goal[other] != UNCOLORED);
            assert(goal[node] != goal[other]);
            assert(colors[i] == colors[other]);
            assert(false);
        }
        let next = colors.update(node, color);
        assert forall|a: int, b: int|
            #![trigger next[a], next[b]]
            0 <= a < next.len() && 0 <= b < next.len() && next[a] != UNCOLORED && next[b]
                != UNCOLORED implies ((next[a] == next[b]) == (goal[a] == goal[b])) by {
            let x = if a == node {
                i
            } else {
                a
            };
            let y = if b == node {
                i
            } else {
                b
            };
            assert(next[a] == colors[x] && next[b] == colors[y]);
            assert(goal[a] == goal[x] && goal[b] == goal[y]);
        }
        color
    } else {
        let next = colors.update(node, used);
        assert forall|a: int, b: int|
            #![trigger next[a], next[b]]
            0 <= a < next.len() && 0 <= b < next.len() && next[a] != UNCOLORED && next[b]
                != UNCOLORED implies ((next[a] == next[b]) == (goal[a] == goal[b])) by {
            if a != node && b != node {
                assert(next[a] == colors[a] && next[b] == colors[b]);
            } else if a != node {
                assert(next[a] == colors[a] && colors[a] < used);
            } else if b != node {
                assert(next[b] == colors[b] && colors[b] < used);
            }
        }
        used
    }
}

proof fn search_from_covers(
    graph: GraphView,
    bounds: PlacementBounds,
    budget: u64,
    costs: spec_fn(Seq<usize>) -> Option<PlacementCost>,
    search: SearchView,
    colors: Seq<usize>,
    goal: Seq<usize>,
)
    requires
        partial_ok(graph, colors),
        complete(goal),
        proper(graph, goal),
        agrees(colors, goal),
        cost_by_grouping(costs, graph.weights.len()),
        bound_admissible(graph, bounds, costs),
        costs(goal) is Some,
    ensures
        ({
            let r = placement::search_from(graph, bounds, budget, costs, search, colors);
            r.exhausted || !ahead(
                costs(goal)->0,
                placement::canonical(goal, goal.len() as int),
                r.best_cost,
                r.best_colors,
            )
        }),
    decreases placement::uncolored(colors), 1int, 0int,
{
    if !search.exhausted && search.explored_nodes < budget {
        let entered = SearchView {
            explored_nodes: (search.explored_nodes + 1) as u64,
            ..search
        };
        let cost = costs(goal)->0;
        let bound = placement::lower_bound(graph, bounds, colors);
        assert(!placement::cheaper(placement::bound_of(cost), bound));
        if !placement::cheaper(placement::bound_of(entered.best_cost), bound) {
            placement::next_node_finds(graph, colors, colors.len() as int);
            match placement::next_node(graph, colors, colors.len() as int) {
                None => {
                    assert(complete(colors));
                    assert(costs(colors) == costs(goal));
                    canonical_colors_are_unique(colors, goal);
                    let stable = placement::canonical(goal, goal.len() as int);
                    order::lex_irreflexive(placement::colors_key(stable));
                },
                Some(node) => {
                    let list = placement::candidate_colors(graph, colors, node);
                    candidates_are_open(graph, colors, node);
                    let color = extending_color(graph, colors, goal, node);
                    assert(list.contains(color));
                    let at = choose|at: int| 0 <= at < list.len() && list[at] == color;
                    search_colors_covers(
                        graph,
                        bounds,
                        budget,
                        costs,
                        entered,
                        colors,
                        goal,
                        node,
                        list,
                        list.len() as int,
                        at,
                    );
                },
            }
        }
    }
}

proof fn search_colors_covers(
    graph: GraphView,
    bounds: PlacementBounds,
    budget: u64,
    costs: spec_fn(Seq<usize>) -> Option<PlacementCost>,
    search: SearchView,
    colors: Seq<usize>,
    goal: Seq<usize>,
    node: int,
    list: Seq<usize>,
    k: int,
    at: int,
)
    requires
        partial_ok(graph, colors),
        complete(goal),
        proper(graph, goal),
        cost_by_grouping(costs, graph.weights.len()),
        bound_admissible(graph, bounds, costs),
        costs(goal) is Some,
        0 <= node < colors.len(),
        colors[node] == UNCOLORED,
        0 <= at < k <= list.len(),
        can_get(graph, colors, node, list[at]),
        agrees(colors.update(node, list[at]), goal),
    ensures
        ({
            let r = placement::search_colors(
                graph,
                bounds,
                budget,
                costs,
                search,
                colors,
                node,
                list,
                k,
            );
            r.exhausted || !ahead(
                costs(goal)->0,
                placement::canonical(goal, goal.len() as int),
                r.best_cost,
                r.best_colors,
            )
        }),
    decreases placement::uncolored(colors), 0int, k,
{
    let before = placement::search_colors(
        graph,
        bounds,
        budget,
        costs,
        search,
        colors,
        node,
        list,
        k - 1,
    );
    let next = colors.update(node, list[k - 1]);
    if at == k - 1 {
        partial_next(graph, colors, node, list[at]);
        search_from_covers(graph, bounds, budget, costs, before, next, goal);
    } else {
        search_colors_covers(
            graph,
            bounds,
            budget,
            costs,
            search,
            colors,
            goal,
            node,
            list,
            k - 1,
            at,
        );
        search_from_improves(graph, bounds, budget, costs, before, next);
        if !before.exhausted {
            stays_behind(
                costs(goal)->0,
                placement::canonical(goal, goal.len() as int),
                placement::search_colors(
                    graph,
                    bounds,
                    budget,
                    costs,
                    search,
                    colors,
                    node,
                    list,
                    k,
                ),
                before,
            );
        }
    }
}

/// A search that stays within its budget finds a placement that costs no more
/// than any other, and of those that cost the same the one whose renumbered colors
/// come first, if costs depend on what shares a slot alone and the bound never
/// exceeds them.
pub proof fn finished_search_is_optimal(
    graph: GraphView,
    bounds: PlacementBounds,
    budget: u64,
    costs: spec_fn(Seq<usize>) -> Option<PlacementCost>,
    initial_colors: Seq<usize>,
    incumbent_cost: PlacementCost,
    goal: Seq<usize>,
)
    requires
        placement::graph_ok(graph),
        placement::graph_symmetric(graph),
        graph.weights.len() < UNCOLORED,
        cost_by_grouping(costs, graph.weights.len()),
        bound_admissible(graph, bounds, costs),
        goal.len() == graph.weights.len(),
        complete(goal),
        proper(graph, goal),
        costs(goal) is Some,
        !placement::search_from(
            graph,
            bounds,
            budget,
            costs,
            placement::start_of(initial_colors, incumbent_cost),
            placement::no_colors(graph.weights.len()),
        ).exhausted,
    ensures
        ({
            let r = placement::search_from(
                graph,
                bounds,
                budget,
                costs,
                placement::start_of(initial_colors, incumbent_cost),
                placement::no_colors(graph.weights.len()),
            );
            &&& !placement::cheaper(
                placement::bound_of(costs(goal)->0),
                placement::bound_of(r.best_cost),
            )
            &&& costs(goal)->0 == r.best_cost ==> !order::lex_lt(
                placement::colors_key(placement::canonical(goal, goal.len() as int)),
                placement::colors_key(r.best_colors),
            )
        }),
{
    let start = placement::no_colors(graph.weights.len());
    placement::used_colors_bound(start, start.len() as int, 0);
    none_colored(start, start.len() as int);
    search_from_covers(
        graph,
        bounds,
        budget,
        costs,
        placement::start_of(initial_colors, incumbent_cost),
        start,
        goal,
    );
}

/// Whether the best placement so far is one that can be built, with its colors
/// numbered in the order in which they appear.
pub open spec fn best_ok(
    graph: GraphView,
    costs: spec_fn(Seq<usize>) -> Option<PlacementCost>,
    search: SearchView,
) -> bool {
    &&& search.best_colors.len() == graph.weights.len()
    &&& complete(search.best_colors)
    &&& proper(graph, search.best_colors)
    &&& costs(search.best_colors) == Some(search.best_cost)
    &&& placement::canonical(search.best_colors, search.best_colors.len() as int)
        == search.best_colors
}

proof fn search_from_sound(
    graph: GraphView,
    bounds: PlacementBounds,
    budget: u64,
    costs: spec_fn(Seq<usize>) -> Option<PlacementCost>,
    search: SearchView,
    colors: Seq<usize>,
)
    requires
        partial_ok(graph, colors),
        cost_by_grouping(costs, graph.weights.len()),
    ensures
        ({
            let r = placement::search_from(graph, bounds, budget, costs, search, colors);
            (r.best_colors == search.best_colors && r.best_cost == search.best_cost) || best_ok(
                graph,
                costs,
                r,
            )
        }),
    decreases placement::uncolored(colors), 1int, 0int,
{
    if !search.exhausted && search.explored_nodes < budget {
        let entered = SearchView {
            explored_nodes: (search.explored_nodes + 1) as u64,
            ..search
        };
        let bound = placement::lower_bound(graph, bounds, colors);
        if !placement::cheaper(placement::bound_of(entered.best_cost), bound) {
            placement::next_node_finds(graph, colors, colors.len() as int);
            match placement::next_node(graph, colors, colors.len() as int) {
                None => {
                    assert(complete(colors));
                    let stable = placement::canonical(colors, colors.len() as int);
                    canonical_colors_keep_grouping(colors);
                    assert(agrees(stable, colors));
                    assert(proper(graph, stable));
                    canonical_colors_are_unique(stable, colors);
                },
                Some(node) => {
                    let list = placement::candidate_colors(graph, colors, node);
                    candidates_are_open(graph, colors, node);
                    assert forall|i: int| 0 <= i < list.len() implies can_get(
                        graph,
                        colors,
                        node,
                        #[trigger] list[i],
                    ) by {
                        assert(list.contains(list[i]));
                    }
                    search_colors_sound(
                        graph,
                        bounds,
                        budget,
                        costs,
                        entered,
                        colors,
                        node,
                        list,
                        list.len() as int,
                    );
                },
            }
        }
    }
}

proof fn search_colors_sound(
    graph: GraphView,
    bounds: PlacementBounds,
    budget: u64,
    costs: spec_fn(Seq<usize>) -> Option<PlacementCost>,
    search: SearchView,
    colors: Seq<usize>,
    node: int,
    list: Seq<usize>,
    k: int,
)
    requires
        partial_ok(graph, colors),
        cost_by_grouping(costs, graph.weights.len()),
        0 <= node < colors.len(),
        colors[node] == UNCOLORED,
        k <= list.len(),
        forall|i: int|
            0 <= i < list.len() ==> can_get(graph, colors, node, #[trigger] list[i]),
    ensures
        ({
            let r = placement::search_colors(
                graph,
                bounds,
                budget,
                costs,
                search,
                colors,
                node,
                list,
                k,
            );
            (r.best_colors == search.best_colors && r.best_cost == search.best_cost) || best_ok(
                graph,
                costs,
                r,
            )
        }),
    decreases placement::uncolored(colors), 0int, k,
{
    if k > 0 {
        search_colors_sound(
            graph,
            bounds,
            budget,
            costs,
            search,
            colors,
            node,
            list,
            k - 1,
        );
        let before = placement::search_colors(
            graph,
            bounds,
            budget,
            costs,
            search,
            colors,
            node,
            list,
            k - 1,
        );
        partial_next(graph, colors, node, list[k - 1]);
        search_from_sound(
            graph,
            bounds,
            budget,
            costs,
            before,
            colors.update(node, list[k - 1]),
        );
    }
}

/// A placement that a search returns in place of the incumbent keeps neighbors
/// apart, gives every node a color, and costs what the search says.
pub proof fn found_placement_is_sound(
    graph: GraphView,
    bounds: PlacementBounds,
    budget: u64,
    costs: spec_fn(Seq<usize>) -> Option<PlacementCost>,
    initial_colors: Seq<usize>,
    incumbent_cost: PlacementCost,
)
    requires
        placement::graph_ok(graph),
        placement::graph_symmetric(graph),
        graph.weights.len() < UNCOLORED,
        cost_by_grouping(costs, graph.weights.len()),
    ensures
        ({
            let r = placement::search_from(
                graph,
                bounds,
                budget,
                costs,
                placement::start_of(initial_colors, incumbent_cost),
                placement::no_colors(graph.weights.len()),
            );
            ||| r.best_cost == incumbent_cost && r.best_colors == placement::canonical(
                initial_colors,
                initial_colors.len() as int,
            )
            ||| best_ok(graph, costs, r)
        }),
{
    let start = placement::no_colors(graph.weights.len());
    placement::used_colors_bound(start, start.len() as int, 0);
    none_colored(start, start.len() as int);
    search_from_sound(
        graph,
        bounds,
        budget,
        costs,
        placement::start_of(initial_colors, incumbent_cost),
        start,
    );
}

} // verus!
