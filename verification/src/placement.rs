//! Assignment of interfering values to shared storage.

use vstd::prelude::*;

use crate::order;
use crate::order::{add_key, lex_less, sort_order};
use crate::syntax;

verus! {

/// The color of a node that has none.
pub const UNCOLORED: usize = usize::MAX;

/// Values with their sizes, and which of them are needed together.
#[derive(Debug, Clone, PartialEq, Eq)]
pub struct PlacementGraph {
    pub weights: Vec<u64>,
    pub access_weights: Vec<u64>,
    /// The neighbors of every node.
    pub adjacency: Vec<Vec<usize>>,
}

/// The contents of a graph.
pub struct GraphView {
    pub weights: Seq<u64>,
    pub access_weights: Seq<u64>,
    pub adjacency: Seq<Seq<usize>>,
}

impl View for PlacementGraph {
    type V = GraphView;

    open spec fn view(&self) -> GraphView {
        GraphView {
            weights: self.weights@,
            access_weights: self.access_weights@,
            adjacency: syntax::views(self.adjacency@),
        }
    }
}

/// Whether every node has weights and neighbors, and these are nodes.
pub open spec fn graph_ok(graph: GraphView) -> bool {
    &&& graph.access_weights.len() == graph.weights.len()
    &&& graph.adjacency.len() == graph.weights.len()
    &&& forall|i: int, k: int|
        #![trigger graph.adjacency[i][k]]
        0 <= i < graph.adjacency.len() && 0 <= k < graph.adjacency[i].len()
            ==> graph.adjacency[i][k] < graph.weights.len()
}

/// Whether neighbors are neighbors of each other, and no node is its own.
pub open spec fn graph_symmetric(graph: GraphView) -> bool {
    forall|i: int, j: int|
        #![trigger graph.adjacency[i].contains(j as usize)]
        0 <= i < graph.adjacency.len() && 0 <= j < graph.adjacency.len()
            && graph.adjacency[i].contains(j as usize) ==> i != j && graph.adjacency[j].contains(
            i as usize,
        )
}

/// The colors of the first `k` neighbors, in ascending order.
pub open spec fn neighbor_colors(
    neighbors: Seq<usize>,
    colors: Seq<usize>,
    k: int,
) -> Seq<usize>
    decreases k,
{
    if k <= 0 {
        Seq::empty()
    } else {
        let before = neighbor_colors(neighbors, colors, k - 1);
        let color = colors[neighbors[k - 1] as int];
        if color == UNCOLORED {
            before
        } else {
            order::with_key(before, color, 0)
        }
    }
}

/// How many colors the neighbors of a node have.
pub open spec fn saturation(graph: GraphView, colors: Seq<usize>, i: int) -> nat {
    neighbor_colors(graph.adjacency[i], colors, graph.adjacency[i].len() as int).len()
}

/// Whether node `a` is to be colored before node `b`: by the colors of its
/// neighbors, its weight, and the number of its neighbors.
pub open spec fn outranks(graph: GraphView, colors: Seq<usize>, a: int, b: int) -> bool {
    let sa = saturation(graph, colors, a);
    let sb = saturation(graph, colors, b);
    let da = graph.adjacency[a].len();
    let db = graph.adjacency[b].len();
    sa > sb || (sa == sb && (graph.weights[a] > graph.weights[b] || (graph.weights[a]
        == graph.weights[b] && da > db)))
}

/// The node to be colored next among the first `n`: the first one that none
/// outranks.
pub open spec fn next_node(graph: GraphView, colors: Seq<usize>, n: int) -> Option<int>
    decreases n,
{
    if n <= 0 {
        None
    } else {
        let best = next_node(graph, colors, n - 1);
        if colors[n - 1] != UNCOLORED {
            best
        } else {
            match best {
                None => Some(n - 1),
                Some(b) => if outranks(graph, colors, n - 1, b) {
                    Some(n - 1)
                } else {
                    Some(b)
                },
            }
        }
    }
}

/// Whether a neighbor has the color.
pub open spec fn color_taken(neighbors: Seq<usize>, colors: Seq<usize>, color: usize) -> bool {
    exists|k: int| 0 <= k < neighbors.len() && colors[#[trigger] neighbors[k] as int] == color
}

/// The least color from `color` on that no neighbor has, or `limit`.
pub open spec fn free_color(
    neighbors: Seq<usize>,
    colors: Seq<usize>,
    color: usize,
    limit: usize,
) -> usize
    decreases limit - color,
{
    if color >= limit || !color_taken(neighbors, colors, color) {
        color
    } else {
        free_color(neighbors, colors, (color + 1) as usize, limit)
    }
}

/// The colors after the first `n` nodes in order were colored, each with the
/// least color that none of its neighbors has.
pub open spec fn greedy_colors(graph: GraphView, n: int) -> Seq<usize>
    decreases n,
{
    if n <= 0 {
        Seq::new(graph.weights.len(), |i: int| UNCOLORED)
    } else {
        let before = greedy_colors(graph, n - 1);
        match next_node(graph, before, graph.weights.len() as int) {
            None => before,
            Some(node) => before.update(
                node,
                free_color(graph.adjacency[node], before, 0, (n - 1) as usize),
            ),
        }
    }
}

fn count_neighbor_colors(neighbors: &Vec<usize>, colors: &Vec<usize>) -> (r: usize)
    requires
        forall|k: int| 0 <= k < neighbors@.len() ==> #[trigger] neighbors@[k] < colors@.len(),
    ensures
        r == neighbor_colors(neighbors@, colors@, neighbors@.len() as int).len(),
{
    let mut found: Vec<usize> = Vec::new();
    let mut k: usize = 0;
    while k < neighbors.len()
        invariant
            k <= neighbors@.len(),
            forall|k: int| 0 <= k < neighbors@.len() ==> #[trigger] neighbors@[k] < colors@.len(),
            found@ == neighbor_colors(neighbors@, colors@, k as int),
        decreases neighbors@.len() - k,
    {
        let color: usize = colors[neighbors[k]];
        if color != UNCOLORED {
            add_key(&mut found, color);
        }
        k += 1;
    }
    found.len()
}

proof fn neighbors_in_range(graph: PlacementGraph, i: int)
    requires
        graph_ok(graph@),
        0 <= i < graph.adjacency@.len(),
    ensures
        graph@.adjacency[i] == graph.adjacency@[i]@,
        forall|k: int|
            0 <= k < graph.adjacency@[i]@.len() ==> #[trigger] graph.adjacency@[i]@[k]
                < graph.weights@.len(),
{
    assert forall|k: int|
        0 <= k < graph.adjacency@[i]@.len() implies #[trigger] graph.adjacency@[i]@[k]
        < graph.weights@.len() by {
        assert(graph@.adjacency[i][k] == graph.adjacency@[i]@[k]);
    }
}

/// Selects the node to be colored next.
fn select_node(graph: &PlacementGraph, colors: &Vec<usize>) -> (r: Option<usize>)
    requires
        graph_ok(graph@),
        colors@.len() == graph@.weights.len(),
    ensures
        match r {
            Some(i) => next_node(graph@, colors@, colors@.len() as int) == Some(i as int) && i
                < colors@.len() && colors@[i as int] == UNCOLORED,
            None => next_node(graph@, colors@, colors@.len() as int) is None,
        },
{
    let mut best: Option<(usize, usize)> = None;
    let mut n: usize = 0;
    while n < colors.len()
        invariant
            n <= colors@.len(),
            graph_ok(graph@),
            colors@.len() == graph@.weights.len(),
            match best {
                Some((i, s)) => i < n && colors@[i as int] == UNCOLORED && next_node(
                    graph@,
                    colors@,
                    n as int,
                ) == Some(i as int) && s == saturation(graph@, colors@, i as int),
                None => next_node(graph@, colors@, n as int) is None,
            },
        decreases colors@.len() - n,
    {
        if colors[n] == UNCOLORED {
            proof {
                neighbors_in_range(*graph, n as int);
            }
            let own = count_neighbor_colors(&graph.adjacency[n], colors);
            let better = match best {
                None => true,
                Some((b, s)) => {
                    proof {
                        neighbors_in_range(*graph, b as int);
                    }
                    own > s || (own == s && (graph.weights[n] > graph.weights[b] || (
                    graph.weights[n] == graph.weights[b] && graph.adjacency[n].len()
                        > graph.adjacency[b].len())))
                },
            };
            if better {
                best = Some((n, own));
            }
        }
        n += 1;
    }
    match best {
        Some((i, s)) => Some(i),
        None => None,
    }
}

fn is_color_taken(neighbors: &Vec<usize>, colors: &Vec<usize>, color: usize) -> (r: bool)
    requires
        forall|k: int| 0 <= k < neighbors@.len() ==> #[trigger] neighbors@[k] < colors@.len(),
    ensures
        r == color_taken(neighbors@, colors@, color),
{
    let mut k: usize = 0;
    while k < neighbors.len()
        invariant
            k <= neighbors@.len(),
            forall|k: int| 0 <= k < neighbors@.len() ==> #[trigger] neighbors@[k] < colors@.len(),
            forall|j: int| 0 <= j < k ==> colors@[#[trigger] neighbors@[j] as int] != color,
        decreases neighbors@.len() - k,
    {
        if colors[neighbors[k]] == color {
            return true;
        }
        k += 1;
    }
    false
}

/// Colors the nodes one after another, each with the least color that none of
/// its neighbors has.
pub fn color_size_nodes(graph: &PlacementGraph) -> (r: Vec<usize>)
    requires
        graph_ok(graph@),
    ensures
        r@ == greedy_colors(graph@, graph@.weights.len() as int),
        r@.len() == graph@.weights.len(),
{
    let nodes: usize = graph.weights.len();
    let mut colors: Vec<usize> = Vec::new();
    let mut i: usize = 0;
    while i < nodes
        invariant
            i <= nodes,
            colors@ =~= Seq::new(i as nat, |k: int| UNCOLORED),
        decreases nodes - i,
    {
        colors.push(UNCOLORED);
        i += 1;
    }
    let mut n: usize = 0;
    while n < nodes
        invariant
            n <= nodes,
            nodes == graph@.weights.len(),
            graph_ok(graph@),
            colors@.len() == nodes,
            colors@ == greedy_colors(graph@, n as int),
        decreases nodes - n,
    {
        if let Some(node) = select_node(graph, &colors) {
            proof {
                neighbors_in_range(*graph, node as int);
            }
            let mut color: usize = 0;
            while color < n && is_color_taken(&graph.adjacency[node], &colors, color)
                invariant
                    color <= n,
                    node < graph.adjacency@.len(),
                    colors@.len() == graph@.weights.len(),
                    forall|k: int|
                        0 <= k < graph.adjacency@[node as int]@.len()
                            ==> #[trigger] graph.adjacency@[node as int]@[k] < colors@.len(),
                    free_color(graph.adjacency@[node as int]@, colors@, 0, n) == free_color(
                        graph.adjacency@[node as int]@,
                        colors@,
                        color,
                        n,
                    ),
                decreases n - color,
            {
                color += 1;
            }
            colors.set(node, color);
        }
        n += 1;
    }
    colors
}

/// What a placement costs. Size comes first, then the number of slots, then
/// the number of shared members.
#[derive(Debug, Clone, Copy, PartialEq, Eq, PartialOrd, Ord, Structural)]
pub struct PlacementCost {
    pub context_size: u64,
    pub slot_count: u64,
    pub access_complexity: u64,
}

/// What every placement costs that keeps the fixed slots.
#[derive(Debug, Clone, Copy, PartialEq, Eq, Structural)]
pub struct PlacementBounds {
    pub fixed_storage_size: u64,
    pub fixed_slot_count: u64,
    pub fixed_access_complexity: u64,
}

/// A cost that may exceed what a cost can hold.
pub struct CostBound {
    pub context_size: nat,
    pub slot_count: nat,
    pub access_complexity: nat,
}

/// The three parts of a cost.
pub open spec fn bound_of(cost: PlacementCost) -> CostBound {
    CostBound {
        context_size: cost.context_size as nat,
        slot_count: cost.slot_count as nat,
        access_complexity: cost.access_complexity as nat,
    }
}

/// Whether one cost is below another.
pub open spec fn cheaper(a: CostBound, b: CostBound) -> bool {
    a.context_size < b.context_size || (a.context_size == b.context_size && (a.slot_count
        < b.slot_count || (a.slot_count == b.slot_count && a.access_complexity
        < b.access_complexity)))
}

/// Tells whether one cost is below another.
pub fn is_cheaper(a: PlacementCost, b: PlacementCost) -> (r: bool)
    ensures
        r == cheaper(bound_of(a), bound_of(b)),
{
    a.context_size < b.context_size || (a.context_size == b.context_size && (a.slot_count
        < b.slot_count || (a.slot_count == b.slot_count && a.access_complexity
        < b.access_complexity)))
}

/// One above the largest color of the first `n` nodes.
pub open spec fn used_colors(colors: Seq<usize>, n: int) -> usize
    decreases n,
{
    if n <= 0 {
        0
    } else {
        let before = used_colors(colors, n - 1);
        if colors[n - 1] != UNCOLORED && colors[n - 1] >= before {
            (colors[n - 1] + 1) as usize
        } else {
            before
        }
    }
}

/// The largest weight of a color among the first `n` nodes.
pub open spec fn color_weight(graph: GraphView, colors: Seq<usize>, color: usize, n: int) -> u64
    decreases n,
{
    if n <= 0 {
        0
    } else {
        let before = color_weight(graph, colors, color, n - 1);
        if colors[n - 1] == color && graph.weights[n - 1] > before {
            graph.weights[n - 1]
        } else {
            before
        }
    }
}

/// The members of a color among the first `n` nodes.
pub open spec fn color_access(graph: GraphView, colors: Seq<usize>, color: usize, n: int) -> nat
    decreases n,
{
    if n <= 0 {
        0
    } else if colors[n - 1] == color {
        color_access(graph, colors, color, n - 1) + graph.access_weights[n - 1] as nat
    } else {
        color_access(graph, colors, color, n - 1)
    }
}

/// The weights of the first `k` colors together.
pub open spec fn total_weight(graph: GraphView, colors: Seq<usize>, k: int) -> nat
    decreases k,
{
    if k <= 0 {
        0
    } else {
        total_weight(graph, colors, k - 1) + color_weight(
            graph,
            colors,
            (k - 1) as usize,
            colors.len() as int,
        ) as nat
    }
}

/// The members of the first `k` colors that have more than one.
pub open spec fn total_access(graph: GraphView, colors: Seq<usize>, k: int) -> nat
    decreases k,
{
    if k <= 0 {
        0
    } else {
        let members = color_access(graph, colors, (k - 1) as usize, colors.len() as int);
        total_access(graph, colors, k - 1) + if members > 1 {
            members
        } else {
            0
        }
    }
}

/// What a placement costs at least that extends the given colors.
pub open spec fn lower_bound(
    graph: GraphView,
    bounds: PlacementBounds,
    colors: Seq<usize>,
) -> CostBound {
    let used = used_colors(colors, colors.len() as int) as int;
    CostBound {
        context_size: bounds.fixed_storage_size as nat + total_weight(graph, colors, used),
        slot_count: (bounds.fixed_slot_count + used) as nat,
        access_complexity: bounds.fixed_access_complexity as nat + total_access(
            graph,
            colors,
            used,
        ),
    }
}

/// Whether every color is below the number of colored nodes.
pub open spec fn colors_ok(colors: Seq<usize>) -> bool {
    forall|i: int|
        0 <= i < colors.len() && #[trigger] colors[i] != UNCOLORED ==> colors[i] < colored(
            colors,
            colors.len() as int,
        )
}

/// How many of the first `n` nodes have a color.
pub open spec fn colored(colors: Seq<usize>, n: int) -> nat
    decreases n,
{
    if n <= 0 {
        0
    } else {
        colored(colors, n - 1) + if colors[n - 1] == UNCOLORED {
            0nat
        } else {
            1nat
        }
    }
}

/// How many nodes have no color.
pub open spec fn uncolored(colors: Seq<usize>) -> nat {
    (colors.len() - colored(colors, colors.len() as int)) as nat
}

/// No more nodes have colors than there are.
pub proof fn colored_bound(colors: Seq<usize>, n: int)
    requires
        0 <= n <= colors.len(),
    ensures
        colored(colors, n) <= n,
    decreases n,
{
    if n > 0 {
        colored_bound(colors, n - 1);
    }
}

/// Coloring a node without a color adds one to the number of colored nodes.
pub proof fn colored_update(colors: Seq<usize>, node: int, color: usize, n: int)
    requires
        0 <= node < colors.len(),
        0 <= n <= colors.len(),
        colors[node] == UNCOLORED,
        color != UNCOLORED,
    ensures
        colored(colors.update(node, color), n) == colored(colors, n) + if node < n {
            1nat
        } else {
            0nat
        },
    decreases n,
{
    if n > 0 {
        colored_update(colors, node, color, n - 1);
    }
}

/// Colors below a limit use no more colors than the limit.
pub proof fn used_colors_bound(colors: Seq<usize>, n: int, limit: nat)
    requires
        0 <= n <= colors.len(),
        limit <= usize::MAX,
        forall|i: int| 0 <= i < n && #[trigger] colors[i] != UNCOLORED ==> colors[i] < limit,
    ensures
        used_colors(colors, n) <= limit,
        forall|i: int|
            0 <= i < n && #[trigger] colors[i] != UNCOLORED ==> colors[i] < used_colors(colors, n),
    decreases n,
{
    if n > 0 {
        used_colors_bound(colors, n - 1, limit);
    }
}

/// The colors that a node can get: those in use that no neighbor has, and a
/// new one.
pub open spec fn open_colors(
    graph: GraphView,
    colors: Seq<usize>,
    node: int,
    k: int,
) -> Seq<usize>
    decreases k,
{
    if k <= 0 {
        Seq::empty()
    } else {
        let before = open_colors(graph, colors, node, k - 1);
        let color = (k - 1) as usize;
        if color < used_colors(colors, colors.len() as int) && color_taken(
            graph.adjacency[node],
            colors,
            color,
        ) {
            before
        } else {
            before.push(color)
        }
    }
}

/// Colors are tried in the order of the size they add; colors in use come
/// before a new one, then smaller ones.
pub open spec fn color_key(
    graph: GraphView,
    colors: Seq<usize>,
    node: int,
    color: usize,
) -> Seq<u64> {
    let used = used_colors(colors, colors.len() as int);
    let previous = if color < used {
        color_weight(graph, colors, color, colors.len() as int)
    } else {
        0
    };
    let resulting = if graph.weights[node] > previous {
        graph.weights[node]
    } else {
        previous
    };
    seq![
        (resulting - previous) as u64,
        if color == used {
            1u64
        } else {
            0u64
        },
        resulting,
        color as u64,
    ]
}

/// The sort keys of colors.
pub open spec fn color_keys(
    graph: GraphView,
    colors: Seq<usize>,
    node: int,
    list: Seq<usize>,
) -> Seq<Seq<u64>> {
    Seq::new(list.len(), |i: int| color_key(graph, colors, node, list[i]))
}

/// The colors that a node can get, in the order in which they are tried.
pub open spec fn candidate_colors(
    graph: GraphView,
    colors: Seq<usize>,
    node: int,
) -> Seq<usize> {
    let used = used_colors(colors, colors.len() as int);
    let list = open_colors(graph, colors, node, used + 1);
    order::sorted_by(list, color_keys(graph, colors, node, list))
}

/// The first of the first `n` nodes that has a color.
pub open spec fn first_with(colors: Seq<usize>, color: usize, n: int) -> Option<int>
    decreases n,
{
    if n <= 0 {
        None
    } else {
        match first_with(colors, color, n - 1) {
            Some(i) => Some(i),
            None => if colors[n - 1] == color {
                Some(n - 1)
            } else {
                None
            },
        }
    }
}

/// How many colors the first `n` nodes have.
pub open spec fn distinct_colors(colors: Seq<usize>, n: int) -> nat
    decreases n,
{
    if n <= 0 {
        0
    } else if first_with(colors, colors[n - 1], n - 1) is Some {
        distinct_colors(colors, n - 1)
    } else {
        distinct_colors(colors, n - 1) + 1
    }
}

/// The colors of the first `n` nodes, numbered in the order in which they
/// appear.
pub open spec fn canonical(colors: Seq<usize>, n: int) -> Seq<usize>
    decreases n,
{
    if n <= 0 {
        Seq::empty()
    } else {
        let before = canonical(colors, n - 1);
        match first_with(colors, colors[n - 1], n - 1) {
            Some(i) => before.push(before[i]),
            None => before.push(distinct_colors(colors, n - 1) as usize),
        }
    }
}

/// The first node with a color has it, and none before it does.
pub proof fn first_with_bounds(colors: Seq<usize>, color: usize, n: int)
    requires
        0 <= n <= colors.len(),
    ensures
        match first_with(colors, color, n) {
            Some(i) => 0 <= i < n && colors[i] == color && forall|k: int|
                0 <= k < i ==> #[trigger] colors[k] != color,
            None => forall|k: int| 0 <= k < n ==> #[trigger] colors[k] != color,
        },
    decreases n,
{
    if n > 0 {
        first_with_bounds(colors, color, n - 1);
    }
}

/// Canonical colors are as many as the colors they stand for.
pub proof fn canonical_len(colors: Seq<usize>, n: int)
    requires
        0 <= n <= colors.len(),
    ensures
        canonical(colors, n).len() == n,
        distinct_colors(colors, n) <= n,
    decreases n,
{
    if n > 0 {
        canonical_len(colors, n - 1);
    }
}

/// Numbers colors in the order in which they appear.
pub fn canonical_colors(colors: &Vec<usize>) -> (r: Vec<usize>)
    ensures
        r@ == canonical(colors@, colors@.len() as int),
        r@.len() == colors@.len(),
{
    let mut r: Vec<usize> = Vec::new();
    let mut next: usize = 0;
    let mut n: usize = 0;
    while n < colors.len()
        invariant
            n <= colors@.len(),
            next <= n,
            r@.len() == n,
            r@ == canonical(colors@, n as int),
            next == distinct_colors(colors@, n as int),
        decreases colors@.len() - n,
    {
        let mut i: usize = 0;
        while i < n && colors[i] != colors[n]
            invariant
                i <= n < colors@.len(),
                forall|k: int| 0 <= k < i ==> colors@[k] != colors@[n as int],
            decreases n - i,
        {
            i += 1;
        }
        proof {
            first_with_bounds(colors@, colors@[n as int], n as int);
            if i < n {
                let found = first_with(colors@, colors@[n as int], n as int);
                assert(colors@[i as int] == colors@[n as int]);
            }
        }
        if i < n {
            let color: usize = r[i];
            r.push(color);
        } else {
            r.push(next);
            next += 1;
        }
        n += 1;
    }
    r
}

/// What a completed placement costs.
pub trait PlacementEvaluator {
    /// The costs of placements, unless they can't be built. Left alone, no
    /// placement can be.
    open spec fn costs(&self) -> spec_fn(Seq<usize>) -> Option<PlacementCost> {
        |colors: Seq<usize>| None
    }

    /// Whether placements of that many nodes can be asked for. Left alone,
    /// all can.
    open spec fn accepts(&self, nodes: nat) -> bool {
        true
    }

    /// Returns the cost of a placement, unless it can't be built.
    fn evaluate(&self, colors: &Vec<usize>) -> (r: Option<PlacementCost>)
        requires
            self.accepts(colors@.len()),
        ensures
            r == (self.costs())(colors@),
    ;
}

/// Where a search stands.
pub struct SearchView {
    pub explored_nodes: u64,
    pub exhausted: bool,
    pub best_colors: Seq<usize>,
    pub best_cost: PlacementCost,
}

/// Colors as a key for comparing placements.
pub open spec fn colors_key(colors: Seq<usize>) -> Seq<u64> {
    Seq::new(colors.len(), |i: int| colors[i] as u64)
}

/// The search after a completed placement was evaluated: the placement is
/// taken if it is cheaper, or as cheap and earlier in order.
pub open spec fn search_leaf(
    search: SearchView,
    colors: Seq<usize>,
    cost: Option<PlacementCost>,
) -> SearchView {
    match cost {
        None => search,
        Some(own) => {
            let stable = canonical(colors, colors.len() as int);
            if cheaper(bound_of(own), bound_of(search.best_cost)) || (own == search.best_cost
                && order::lex_lt(colors_key(stable), colors_key(search.best_colors))) {
                SearchView { best_colors: stable, best_cost: own, ..search }
            } else {
                search
            }
        },
    }
}

/// The search after all extensions of the given colors were looked at, except
/// those that can't be cheaper than the best placement.
pub open spec fn search_from(
    graph: GraphView,
    bounds: PlacementBounds,
    budget: u64,
    costs: spec_fn(Seq<usize>) -> Option<PlacementCost>,
    search: SearchView,
    colors: Seq<usize>,
) -> SearchView
    decreases uncolored(colors), 1int, 0int,
{
    if search.exhausted {
        search
    } else if search.explored_nodes >= budget {
        SearchView { exhausted: true, ..search }
    } else {
        let entered = SearchView {
            explored_nodes: (search.explored_nodes + 1) as u64,
            ..search
        };
        if cheaper(bound_of(entered.best_cost), lower_bound(graph, bounds, colors)) {
            entered
        } else {
            match next_node(graph, colors, colors.len() as int) {
                None => search_leaf(entered, colors, costs(colors)),
                Some(node) => {
                    let list = candidate_colors(graph, colors, node);
                    search_colors(
                        graph,
                        bounds,
                        budget,
                        costs,
                        entered,
                        colors,
                        node,
                        list,
                        list.len() as int,
                    )
                },
            }
        }
    }
}

/// The search after the first `k` colors of a list were tried for a node.
pub open spec fn search_colors(
    graph: GraphView,
    bounds: PlacementBounds,
    budget: u64,
    costs: spec_fn(Seq<usize>) -> Option<PlacementCost>,
    search: SearchView,
    colors: Seq<usize>,
    node: int,
    list: Seq<usize>,
    k: int,
) -> SearchView
    decreases uncolored(colors), 0int, k,
{
    if k <= 0 {
        search
    } else {
        let before = search_colors(
            graph,
            bounds,
            budget,
            costs,
            search,
            colors,
            node,
            list,
            k - 1,
        );
        let next = colors.update(node, list[k - 1]);
        if uncolored(next) < uncolored(colors) {
            search_from(graph, bounds, budget, costs, before, next)
        } else {
            before
        }
    }
}

/// The result of a search.
#[derive(Debug, Clone, PartialEq, Eq)]
pub struct AggressiveSearchResult {
    pub colors: Vec<usize>,
    pub cost: PlacementCost,
    pub explored_nodes: u64,
    pub exhausted: bool,
}

impl View for AggressiveSearchResult {
    type V = SearchView;

    open spec fn view(&self) -> SearchView {
        SearchView {
            explored_nodes: self.explored_nodes,
            exhausted: self.exhausted,
            best_colors: self.colors@,
            best_cost: self.cost,
        }
    }
}

fn count_used(colors: &Vec<usize>) -> (r: usize)
    requires
        colors_ok(colors@),
    ensures
        r == used_colors(colors@, colors@.len() as int),
        r <= colored(colors@, colors@.len() as int),
{
    let mut used: usize = 0;
    let mut n: usize = 0;
    proof {
        colored_bound(colors@, colors@.len() as int);
    }
    while n < colors.len()
        invariant
            n <= colors@.len(),
            colors_ok(colors@),
            colored(colors@, colors@.len() as int) <= colors.len(),
            used == used_colors(colors@, n as int),
            used <= colored(colors@, colors@.len() as int),
        decreases colors@.len() - n,
    {
        if colors[n] != UNCOLORED && colors[n] >= used {
            used = colors[n] + 1;
        }
        n += 1;
    }
    used
}

fn weigh_color(graph: &PlacementGraph, colors: &Vec<usize>, color: usize) -> (r: u64)
    requires
        graph_ok(graph@),
        colors@.len() == graph@.weights.len(),
    ensures
        r == color_weight(graph@, colors@, color, colors@.len() as int),
{
    let mut weight: u64 = 0;
    let mut n: usize = 0;
    while n < colors.len()
        invariant
            n <= colors@.len(),
            colors@.len() == graph@.weights.len(),
            weight == color_weight(graph@, colors@, color, n as int),
        decreases colors@.len() - n,
    {
        if colors[n] == color && graph.weights[n] > weight {
            weight = graph.weights[n];
        }
        n += 1;
    }
    weight
}

fn count_access(graph: &PlacementGraph, colors: &Vec<usize>, color: usize) -> (r: u128)
    requires
        graph_ok(graph@),
        colors@.len() == graph@.weights.len(),
    ensures
        r == color_access(graph@, colors@, color, colors@.len() as int),
        r <= colors@.len() * u64::MAX,
{
    let mut access: u128 = 0;
    let mut n: usize = 0;
    while n < colors.len()
        invariant
            n <= colors.len(),
            graph_ok(graph@),
            colors@.len() == graph@.weights.len(),
            access == color_access(graph@, colors@, color, n as int),
            access <= n * u64::MAX,
        decreases colors@.len() - n,
    {
        assert(n * u64::MAX + u64::MAX <= u128::MAX) by (nonlinear_arith)
            requires
                n <= u64::MAX,
        ;
        if colors[n] == color {
            access = access + graph.access_weights[n] as u128;
        }
        assert((n + 1) * u64::MAX == n * u64::MAX + u64::MAX) by (nonlinear_arith);
        n += 1;
    }
    access
}

/// Tells whether no extension of the given colors can be cheaper than `best`.
fn bound_exceeds(
    graph: &PlacementGraph,
    bounds: PlacementBounds,
    colors: &Vec<usize>,
    best: PlacementCost,
) -> (r: bool)
    requires
        graph_ok(graph@),
        colors@.len() == graph@.weights.len(),
        colors_ok(colors@),
    ensures
        r == cheaper(bound_of(best), lower_bound(graph@, bounds, colors@)),
{
    let used = count_used(colors);
    proof {
        colored_bound(colors@, colors@.len() as int);
    }
    let mut weight: u128 = 0;
    let mut k: usize = 0;
    while k < used
        invariant
            k <= used,
            graph_ok(graph@),
            colors@.len() == graph@.weights.len(),
            weight == total_weight(graph@, colors@, k as int),
            weight <= k * u64::MAX,
        decreases used - k,
    {
        let own = weigh_color(graph, colors, k);
        assert(k * u64::MAX + u64::MAX <= u128::MAX) by (nonlinear_arith)
            requires
                k <= u64::MAX,
        ;
        weight = weight + own as u128;
        assert((k + 1) * u64::MAX == k * u64::MAX + u64::MAX) by (nonlinear_arith);
        k += 1;
    }
    assert(used * u64::MAX + u64::MAX <= u128::MAX) by (nonlinear_arith)
        requires
            used <= u64::MAX,
    ;
    let size: u128 = bounds.fixed_storage_size as u128 + weight;
    let slots: u128 = bounds.fixed_slot_count as u128 + used as u128;
    if (best.context_size as u128) < size {
        return true;
    }
    if (best.context_size as u128) > size {
        return false;
    }
    if (best.slot_count as u128) < slots {
        return true;
    }
    if (best.slot_count as u128) > slots {
        return false;
    }
    access_exceeds(graph, bounds, colors, used, best.access_complexity)
}

/// Tells whether the shared members number more than `limit`.
fn access_exceeds(
    graph: &PlacementGraph,
    bounds: PlacementBounds,
    colors: &Vec<usize>,
    used: usize,
    limit: u64,
) -> (r: bool)
    requires
        graph_ok(graph@),
        colors@.len() == graph@.weights.len(),
        used == used_colors(colors@, colors@.len() as int),
    ensures
        r == (limit < bounds.fixed_access_complexity + total_access(graph@, colors@, used as int)),
{
    if limit < bounds.fixed_access_complexity {
        return true;
    }
    let room: u64 = limit - bounds.fixed_access_complexity;
    let mut access: u64 = 0;
    let mut k: usize = 0;
    while k < used
        invariant
            k <= used,
            graph_ok(graph@),
            colors@.len() == graph@.weights.len(),
            room == limit - bounds.fixed_access_complexity,
            access == total_access(graph@, colors@, k as int),
            access <= room,
        decreases used - k,
    {
        let own = count_access(graph, colors, k);
        if own > 1 {
            if own > (room - access) as u128 {
                proof {
                    total_access_grows(graph@, colors@, k + 1, used as int);
                }
                return true;
            }
            access = access + own as u64;
        }
        k += 1;
    }
    false
}

proof fn total_access_grows(graph: GraphView, colors: Seq<usize>, k: int, m: int)
    requires
        k <= m,
    ensures
        total_access(graph, colors, k) <= total_access(graph, colors, m),
    decreases m - k,
{
    if k < m && m > 0 {
        total_access_grows(graph, colors, k, m - 1);
    }
}

/// The first `k` colors have at most `k` open ones, all of them below `k`.
pub proof fn open_colors_bounds(graph: GraphView, colors: Seq<usize>, node: int, k: int)
    requires
        0 <= k <= usize::MAX + 1,
    ensures
        open_colors(graph, colors, node, k).len() <= k,
        forall|i: int|
            0 <= i < open_colors(graph, colors, node, k).len() ==> (
            #[trigger] open_colors(graph, colors, node, k)[i]) < k,
    decreases k,
{
    if k > 0 {
        open_colors_bounds(graph, colors, node, k - 1);
    }
}

/// Lists the colors that a node can get, in the order in which they are tried.
fn list_colors(graph: &PlacementGraph, colors: &Vec<usize>, node: usize) -> (r: Vec<usize>)
    requires
        graph_ok(graph@),
        colors@.len() == graph@.weights.len(),
        colors_ok(colors@),
        node < colors@.len(),
        colors@[node as int] == UNCOLORED,
    ensures
        r@ == candidate_colors(graph@, colors@, node as int),
        forall|i: int|
            0 <= i < r@.len() ==> (#[trigger] r@[i]) <= colored(colors@, colors@.len() as int),
        colored(colors@, colors@.len() as int) < colors@.len(),
{
    let used = count_used(colors);
    proof {
        colored_bound(colors@, colors@.len() as int);
        colored_below(colors@, node as int, colors@.len() as int);
        neighbors_in_range(*graph, node as int);
        open_colors_bounds(graph@, colors@, node as int, used + 1);
    }
    assert(used < colors.len());
    let mut list: Vec<usize> = Vec::new();
    let mut keys: Vec<Vec<u64>> = Vec::new();
    let mut k: usize = 0;
    while k <= used
        invariant
            k <= used + 1,
            used < colors.len(),
            graph_ok(graph@),
            colors@.len() == graph@.weights.len(),
            node < colors@.len(),
            used == used_colors(colors@, colors@.len() as int),
            graph@.adjacency[node as int] == graph.adjacency@[node as int]@,
            forall|k: int|
                0 <= k < graph.adjacency@[node as int]@.len()
                    ==> #[trigger] graph.adjacency@[node as int]@[k] < colors@.len(),
            list@ == open_colors(graph@, colors@, node as int, k as int),
            syntax::views(keys@) =~= color_keys(graph@, colors@, node as int, list@),
        decreases used + 1 - k,
    {
        if !(k < used && is_color_taken(&graph.adjacency[node], colors, k)) {
            let previous: u64 = if k < used {
                weigh_color(graph, colors, k)
            } else {
                0
            };
            let own: u64 = graph.weights[node];
            let resulting: u64 = if own > previous {
                own
            } else {
                previous
            };
            let fresh: u64 = if k == used {
                1
            } else {
                0
            };
            let added: u64 = resulting - previous;
            let key: Vec<u64> = vec![added, fresh, resulting, k as u64];
            assert(key@ =~= color_key(graph@, colors@, node as int, k));
            proof {
                syntax::views_push(keys@, key);
            }
            assert(color_keys(graph@, colors@, node as int, list@.push(k)) =~= color_keys(
                graph@,
                colors@,
                node as int,
                list@,
            ).push(key@));
            list.push(k);
            keys.push(key);
        }
        k += 1;
    }
    let places = sort_order(&keys);
    let mut r: Vec<usize> = Vec::new();
    let mut j: usize = 0;
    while j < places.len()
        invariant
            j <= places@.len(),
            places@.len() == list@.len(),
            forall|k: int| 0 <= k < places@.len() ==> 0 <= #[trigger] places@[k] < list@.len(),
            r@ =~= order::arranged(list@, order::positions(places@)).take(j as int),
        decreases places@.len() - j,
    {
        r.push(list[places[j]]);
        j += 1;
    }
    assert(r@ =~= order::arranged(list@, order::positions(places@)));
    assert forall|i: int| 0 <= i < r@.len() implies (#[trigger] r@[i]) <= colored(
        colors@,
        colors@.len() as int,
    ) by {
        assert(r@[i] == list@[places@[i] as int]);
    }
    r
}

/// Where a node has no color, fewer nodes have colors than there are.
pub proof fn colored_below(colors: Seq<usize>, node: int, n: int)
    requires
        0 <= node < n <= colors.len(),
        colors[node] == UNCOLORED,
    ensures
        colored(colors, n) < n,
    decreases n,
{
    if node < n - 1 {
        colored_below(colors, node, n - 1);
    } else {
        colored_bound(colors, n - 1);
    }
}

/// A search that is under way.
pub struct AggressiveSearcher<'a, E> {
    pub graph: &'a PlacementGraph,
    pub bounds: PlacementBounds,
    pub node_budget: u64,
    pub explored_nodes: u64,
    pub exhausted: bool,
    pub best_colors: Vec<usize>,
    pub best_cost: PlacementCost,
    pub evaluator: &'a E,
}

/// Where a search under way stands.
pub open spec fn search_state<E>(searcher: AggressiveSearcher<'_, E>) -> SearchView {
    SearchView {
        explored_nodes: searcher.explored_nodes,
        exhausted: searcher.exhausted,
        best_colors: searcher.best_colors@,
        best_cost: searcher.best_cost,
    }
}

fn key_of_colors(colors: &Vec<usize>) -> (r: Vec<u64>)
    ensures
        r@ == colors_key(colors@),
{
    let mut key: Vec<u64> = Vec::new();
    let mut i: usize = 0;
    while i < colors.len()
        invariant
            i <= colors@.len(),
            key@ =~= colors_key(colors@).take(i as int),
        decreases colors@.len() - i,
    {
        key.push(colors[i] as u64);
        i += 1;
    }
    assert(colors_key(colors@).take(i as int) =~= colors_key(colors@));
    key
}

impl<'a, E: PlacementEvaluator> AggressiveSearcher<'a, E> {
    /// Looks at all extensions of the given colors.
    fn visit(&mut self, colors: &mut Vec<usize>)
        requires
            graph_ok(old(self).graph@),
            old(colors)@.len() == old(self).graph@.weights.len(),
            colors_ok(old(colors)@),
            old(self).evaluator.accepts(old(colors)@.len()),
        ensures
            final(colors)@ == old(colors)@,
            final(self).graph == old(self).graph,
            final(self).bounds == old(self).bounds,
            final(self).node_budget == old(self).node_budget,
            final(self).evaluator == old(self).evaluator,
            search_state(*final(self)) == search_from(
                old(self).graph@,
                old(self).bounds,
                old(self).node_budget,
                old(self).evaluator.costs(),
                search_state(*old(self)),
                old(colors)@,
            ),
        decreases uncolored(old(colors)@),
    {
        if self.exhausted {
            return;
        }
        if self.explored_nodes >= self.node_budget {
            self.exhausted = true;
            return;
        }
        self.explored_nodes = self.explored_nodes + 1;
        if bound_exceeds(self.graph, self.bounds, colors, self.best_cost) {
            return;
        }
        let node = match select_node(self.graph, colors) {
            None => {
                if let Some(cost) = self.evaluator.evaluate(colors) {
                    let stable = canonical_colors(colors);
                    let better = is_cheaper(cost, self.best_cost) || (cost == self.best_cost
                        && lex_less(&key_of_colors(&stable), &key_of_colors(&self.best_colors)));
                    if better {
                        self.best_cost = cost;
                        self.best_colors = stable;
                    }
                }
                return;
            },
            Some(node) => node,
        };
        let list = list_colors(self.graph, colors, node);
        let ghost entered = search_state(*self);
        let ghost start = colors@;
        let nodes: usize = colors.len();
        let mut k: usize = 0;
        while k < list.len()
            invariant
                k <= list@.len(),
                colors@ == start,
                start == old(colors)@,
                node < start.len(),
                start[node as int] == UNCOLORED,
                colors_ok(start),
                start.len() == self.graph@.weights.len(),
                colored(start, start.len() as int) < start.len() == nodes,
                forall|i: int|
                    0 <= i < list@.len() ==> (#[trigger] list@[i]) <= colored(
                        start,
                        start.len() as int,
                    ),
                graph_ok(self.graph@),
                self.evaluator.accepts(start.len()),
                self.graph == old(self).graph,
                self.bounds == old(self).bounds,
                self.node_budget == old(self).node_budget,
                self.evaluator == old(self).evaluator,
                search_state(*self) == search_colors(
                    self.graph@,
                    self.bounds,
                    self.node_budget,
                    self.evaluator.costs(),
                    entered,
                    start,
                    node as int,
                    list@,
                    k as int,
                ),
            decreases list@.len() - k,
        {
            let color: usize = list[k];
            assert(list@[k as int] <= colored(start, start.len() as int));
            proof {
                colored_update(start, node as int, color, start.len() as int);
                let next = start.update(node as int, color);
                assert forall|i: int|
                    0 <= i < next.len() && #[trigger] next[i] != UNCOLORED implies next[i]
                    < colored(next, next.len() as int) by {
                    if i != node {
                        assert(next[i] == start[i]);
                    }
                }
            }
            colors.set(node, color);
            self.visit(colors);
            colors.set(node, UNCOLORED);
            assert(colors@ =~= start);
            k += 1;
        }
    }
}

/// Where a search starts.
pub open spec fn start_of(
    initial_colors: Seq<usize>,
    incumbent_cost: PlacementCost,
) -> SearchView {
    SearchView {
        explored_nodes: 0,
        exhausted: false,
        best_colors: canonical(initial_colors, initial_colors.len() as int),
        best_cost: incumbent_cost,
    }
}

/// No color for any node.
pub open spec fn no_colors(n: nat) -> Seq<usize> {
    Seq::new(n, |i: int| UNCOLORED)
}

/// Searches for a placement that is cheaper than the incumbent, within a
/// budget of visited partial placements.
pub fn search_aggressive_placement<E: PlacementEvaluator>(
    graph: &PlacementGraph,
    initial_colors: &Vec<usize>,
    incumbent_cost: PlacementCost,
    bounds: PlacementBounds,
    node_budget: u64,
    evaluator: &E,
) -> (r: AggressiveSearchResult)
    requires
        graph_ok(graph@),
        evaluator.accepts(graph@.weights.len()),
    ensures
        r@ == search_from(
            graph@,
            bounds,
            node_budget,
            evaluator.costs(),
            start_of(initial_colors@, incumbent_cost),
            no_colors(graph@.weights.len()),
        ),
{
    let mut searcher = AggressiveSearcher {
        graph,
        bounds,
        node_budget,
        explored_nodes: 0,
        exhausted: false,
        best_colors: canonical_colors(initial_colors),
        best_cost: incumbent_cost,
        evaluator,
    };
    let mut colors: Vec<usize> = Vec::new();
    let mut i: usize = 0;
    while i < graph.weights.len()
        invariant
            i <= graph.weights@.len(),
            colors@ =~= no_colors(i as nat),
        decreases graph.weights@.len() - i,
    {
        colors.push(UNCOLORED);
        i += 1;
    }
    assert(colors@ =~= no_colors(graph@.weights.len()));
    searcher.visit(&mut colors);
    AggressiveSearchResult {
        colors: searcher.best_colors,
        cost: searcher.best_cost,
        explored_nodes: searcher.explored_nodes,
        exhausted: searcher.exhausted,
    }
}

/// The next node is one without a color, if there is one.
pub proof fn next_node_finds(graph: GraphView, colors: Seq<usize>, n: int)
    requires
        0 <= n <= colors.len(),
    ensures
        match next_node(graph, colors, n) {
            Some(i) => 0 <= i < n && colors[i] == UNCOLORED,
            None => forall|i: int| 0 <= i < n ==> #[trigger] colors[i] != UNCOLORED,
        },
    decreases n,
{
    if n > 0 {
        next_node_finds(graph, colors, n - 1);
    }
}

/// The best placement of a search has a color for every node.
pub proof fn search_keeps_len(
    graph: GraphView,
    bounds: PlacementBounds,
    budget: u64,
    costs: spec_fn(Seq<usize>) -> Option<PlacementCost>,
    search: SearchView,
    colors: Seq<usize>,
)
    requires
        search.best_colors.len() == colors.len(),
    ensures
        search_from(graph, bounds, budget, costs, search, colors).best_colors.len()
            == colors.len(),
    decreases uncolored(colors), 1int, 0int,
{
    canonical_len(colors, colors.len() as int);
    next_node_finds(graph, colors, colors.len() as int);
    if !search.exhausted && search.explored_nodes < budget {
        let entered = SearchView {
            explored_nodes: (search.explored_nodes + 1) as u64,
            ..search
        };
        if !cheaper(bound_of(entered.best_cost), lower_bound(graph, bounds, colors)) {
            if let Some(node) = next_node(graph, colors, colors.len() as int) {
                let list = candidate_colors(graph, colors, node);
                colors_keep_len(
                    graph,
                    bounds,
                    budget,
                    costs,
                    entered,
                    colors,
                    node,
                    list,
                    list.len() as int,
                );
            }
        }
    }
}

proof fn colors_keep_len(
    graph: GraphView,
    bounds: PlacementBounds,
    budget: u64,
    costs: spec_fn(Seq<usize>) -> Option<PlacementCost>,
    search: SearchView,
    colors: Seq<usize>,
    node: int,
    list: Seq<usize>,
    k: int,
)
    requires
        search.best_colors.len() == colors.len(),
        0 <= node < colors.len(),
    ensures
        search_colors(
            graph,
            bounds,
            budget,
            costs,
            search,
            colors,
            node,
            list,
            k,
        ).best_colors.len() == colors.len(),
    decreases uncolored(colors), 0int, k,
{
    if k > 0 {
        colors_keep_len(graph, bounds, budget, costs, search, colors, node, list, k - 1);
        let before = search_colors(
            graph,
            bounds,
            budget,
            costs,
            search,
            colors,
            node,
            list,
            k - 1,
        );
        let next = colors.update(node, list[k - 1]);
        if uncolored(next) < uncolored(colors) {
            search_keeps_len(graph, bounds, budget, costs, before, next);
        }
    }
}

} // verus!
