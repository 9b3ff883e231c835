//! Sums over the colors of a placement.

use vstd::prelude::*;

use crate::placement;
use crate::placement::{GraphView, UNCOLORED};
use crate::placement_laws;

verus! {

/// Whether a node is the first one of its color.
pub open spec fn starts_color(colors: Seq<usize>, k: int) -> bool {
    placement::first_with(colors, colors[k], k) is None
}

/// What the colors weigh whose first nodes are among the first `n`, without
/// those whose first nodes are left out.
pub open spec fn weigh(
    colors: Seq<usize>,
    weight: spec_fn(int) -> nat,
    without: Set<int>,
    n: int,
) -> nat
    decreases n,
{
    if n <= 0 {
        0
    } else {
        weigh(colors, weight, without, n - 1) + if starts_color(colors, n - 1) && !without.contains(
            n - 1,
        ) {
            weight(n - 1)
        } else {
            0
        }
    }
}

/// Leaving a first node out takes its weight away.
proof fn weigh_without(
    colors: Seq<usize>,
    weight: spec_fn(int) -> nat,
    without: Set<int>,
    k: int,
    n: int,
)
    requires
        0 <= k,
        starts_color(colors, k),
        !without.contains(k),
    ensures
        weigh(colors, weight, without, n) == weigh(colors, weight, without.insert(k), n) + if k
            < n {
            weight(k)
        } else {
            0
        },
    decreases n,
{
    if n > 0 {
        weigh_without(colors, weight, without, k, n - 1);
    }
}

/// The first node with the color of a node.
pub open spec fn head_of(colors: Seq<usize>, i: int) -> int {
    placement::first_with(colors, colors[i], colors.len() as int)->0
}

proof fn head_starts(colors: Seq<usize>, i: int)
    requires
        0 <= i < colors.len(),
    ensures
        0 <= head_of(colors, i) <= i,
        colors[head_of(colors, i)] == colors[i],
        starts_color(colors, head_of(colors, i)),
{
    placement::first_with_bounds(colors, colors[i], colors.len() as int);
    let k = head_of(colors, i);
    placement::first_with_bounds(colors, colors[k], k);
}

/// What the first `n` colors weigh together.
pub open spec fn color_sum(weight: spec_fn(usize) -> nat, n: int) -> nat
    decreases n,
{
    if n <= 0 {
        0
    } else {
        color_sum(weight, n - 1) + weight((n - 1) as usize)
    }
}

/// Whether a node is the first one, in full colors, of a color that partial
/// colors number below `x`.
pub open spec fn is_counted(partial: Seq<usize>, colors: Seq<usize>, x: int, k: int) -> bool {
    exists|i: int|
        0 <= i < partial.len() && #[trigger] partial[i] != UNCOLORED && partial[i] < x && k
            == head_of(colors, i)
}

proof fn partial_sum_within(
    partial: Seq<usize>,
    colors: Seq<usize>,
    own: spec_fn(usize) -> nat,
    weight: spec_fn(int) -> nat,
    x: int,
) -> (counted: Set<int>)
    requires
        placement_laws::agrees(partial, colors),
        placement_laws::gapless(partial),
        0 <= x <= placement::used_colors(partial, partial.len() as int),
        placement::used_colors(partial, partial.len() as int) < UNCOLORED,
        forall|i: int|
            0 <= i < partial.len() && #[trigger] partial[i] != UNCOLORED ==> own(partial[i])
                <= weight(head_of(colors, i)),
    ensures
        color_sum(own, x) + weigh(colors, weight, counted, colors.len() as int) <= weigh(
            colors,
            weight,
            Set::empty(),
            colors.len() as int,
        ),
        forall|k: int| #[trigger] counted.contains(k) ==> is_counted(partial, colors, x, k),
    decreases x,
{
    let n = colors.len() as int;
    if x == 0 {
        Set::empty()
    } else {
        let before = partial_sum_within(partial, colors, own, weight, x - 1);
        let color = (x - 1) as usize;
        assert(partial.contains(color));
        let i = choose|i: int| 0 <= i < partial.len() && partial[i] == color;
        assert(partial[i] != UNCOLORED);
        let k = head_of(colors, i);
        head_starts(colors, i);
        assert(!before.contains(k)) by {
            if before.contains(k) {
                assert(is_counted(partial, colors, x - 1, k));
                let j = choose|j: int|
                    0 <= j < partial.len() && #[trigger] partial[j] != UNCOLORED && partial[j] < x
                        - 1 && k == head_of(colors, j);
                head_starts(colors, j);
                assert(colors[i] == colors[j]);
                assert((partial[i] == partial[j]) == (colors[i] == colors[j]));
            }
        }
        weigh_without(colors, weight, before, k, n);
        let counted = before.insert(k);
        assert forall|l: int| #[trigger] counted.contains(l) implies is_counted(
            partial,
            colors,
            x,
            l,
        ) by {
            if l == k {
                assert(partial[i] < x);
            } else {
                assert(before.contains(l));
                let j = choose|j: int|
                    0 <= j < partial.len() && #[trigger] partial[j] != UNCOLORED && partial[j] < x
                        - 1 && l == head_of(colors, j);
                assert(partial[j] < x);
            }
        }
        counted
    }
}

/// A part of a placement weighs no more than the whole of it, where each of
/// its colors weighs no more than the color it becomes.
pub proof fn partial_weighs_less(
    partial: Seq<usize>,
    colors: Seq<usize>,
    own: spec_fn(usize) -> nat,
    weight: spec_fn(int) -> nat,
)
    requires
        placement_laws::agrees(partial, colors),
        placement_laws::gapless(partial),
        placement::used_colors(partial, partial.len() as int) < UNCOLORED,
        forall|i: int|
            0 <= i < partial.len() && #[trigger] partial[i] != UNCOLORED ==> own(partial[i])
                <= weight(head_of(colors, i)),
    ensures
        color_sum(own, placement::used_colors(partial, partial.len() as int) as int) <= weigh(
            colors,
            weight,
            Set::empty(),
            colors.len() as int,
        ),
{
    let counted = partial_sum_within(
        partial,
        colors,
        own,
        weight,
        placement::used_colors(partial, partial.len() as int) as int,
    );
}

/// A color of a part weighs no more than the color that it becomes.
pub proof fn color_grows(
    graph: GraphView,
    partial: Seq<usize>,
    colors: Seq<usize>,
    i: int,
    n: int,
)
    requires
        placement_laws::agrees(partial, colors),
        0 <= i < partial.len(),
        partial[i] != UNCOLORED,
        n <= partial.len(),
    ensures
        placement::color_weight(graph, partial, partial[i], n) <= placement::color_weight(
            graph,
            colors,
            colors[i],
            n,
        ),
        placement::color_access(graph, partial, partial[i], n) <= placement::color_access(
            graph,
            colors,
            colors[i],
            n,
        ),
    decreases n,
{
    if n > 0 {
        color_grows(graph, partial, colors, i, n - 1);
        if partial[n - 1] == partial[i] {
            assert((partial[n - 1] == partial[i]) == (colors[n - 1] == colors[i]));
        }
    }
}

/// What the first `n` nodes have as members.
pub open spec fn access_sum(graph: GraphView, n: int) -> nat
    decreases n,
{
    if n <= 0 {
        0
    } else {
        access_sum(graph, n - 1) + graph.access_weights[n - 1] as nat
    }
}

/// What those of the first `n` nodes have as members whose colors are below a
/// number.
spec fn access_below(graph: GraphView, colors: Seq<usize>, x: int, n: int) -> nat
    decreases n,
{
    if n <= 0 {
        0
    } else {
        access_below(graph, colors, x, n - 1) + if colors[n - 1] < x {
            graph.access_weights[n - 1] as nat
        } else {
            0
        }
    }
}

proof fn access_below_next(graph: GraphView, colors: Seq<usize>, x: int, n: int)
    requires
        0 <= x < usize::MAX,
    ensures
        access_below(graph, colors, x + 1, n) == access_below(graph, colors, x, n)
            + placement::color_access(graph, colors, x as usize, n),
        access_below(graph, colors, x, n) <= access_sum(graph, n),
        access_below(graph, colors, x + 1, n) <= access_sum(graph, n),
    decreases n,
{
    if n > 0 {
        access_below_next(graph, colors, x, n - 1);
    }
}

/// Colors have no more members than the nodes together.
pub proof fn total_access_within(graph: GraphView, colors: Seq<usize>, x: int)
    requires
        0 <= x < usize::MAX,
    ensures
        placement::total_access(graph, colors, x) <= access_sum(graph, colors.len() as int),
{
    total_access_below(graph, colors, x);
    access_below_next(graph, colors, x, colors.len() as int);
}

proof fn total_access_below(graph: GraphView, colors: Seq<usize>, x: int)
    requires
        0 <= x < usize::MAX,
    ensures
        placement::total_access(graph, colors, x) <= access_below(
            graph,
            colors,
            x,
            colors.len() as int,
        ),
    decreases x,
{
    if x > 0 {
        total_access_below(graph, colors, x - 1);
        access_below_next(graph, colors, x - 1, colors.len() as int);
    }
}

/// What a color costs in accesses: its members, if it has more than one.
pub open spec fn access_cost(members: nat) -> nat {
    if members > 1 {
        members
    } else {
        0
    }
}

/// The totals of the first colors are sums over them.
pub proof fn totals_are_sums(graph: GraphView, colors: Seq<usize>, x: int)
    requires
        0 <= x <= usize::MAX,
    ensures
        placement::total_weight(graph, colors, x) == color_sum(
            |c: usize| placement::color_weight(graph, colors, c, colors.len() as int) as nat,
            x,
        ),
        placement::total_access(graph, colors, x) == color_sum(
            |c: usize|
                access_cost(placement::color_access(graph, colors, c, colors.len() as int)),
            x,
        ),
        x == color_sum(|c: usize| 1nat, x),
    decreases x,
{
    if x > 0 {
        totals_are_sums(graph, colors, x - 1);
    }
}

} // verus!
