//! Search for the cheapest placement of an interference graph.

use crc::placement::{
    canonical_colors, color_size_nodes, is_cheaper, search_aggressive_placement,
    AggressiveSearchResult, PlacementBounds, PlacementCost, PlacementEvaluator, PlacementGraph,
};

fn placement_graph_for_test(
    weights: &[(usize, u64)],
    access_weights: &[(usize, u64)],
    edges: &[(usize, usize)],
) -> PlacementGraph {
    let mut ordered = weights.to_vec();
    ordered.sort_by_key(|(key, _)| *key);
    let index_of = |key: usize| {
        ordered.iter().position(|(other, _)| *other == key).expect("known node")
    };
    let mut adjacency = vec![Vec::new(); ordered.len()];
    for (left, right) in edges {
        let left = index_of(*left);
        let right = index_of(*right);
        adjacency[left].push(right);
        adjacency[right].push(left);
    }
    for neighbors in &mut adjacency {
        neighbors.sort_unstable();
        neighbors.dedup();
    }
    PlacementGraph {
        weights: ordered.iter().map(|(_, weight)| *weight).collect(),
        access_weights: ordered
            .iter()
            .map(|(key, _)| {
                access_weights
                    .iter()
                    .find(|(other, _)| other == key)
                    .map_or(1, |(_, weight)| *weight)
            })
            .collect(),
        adjacency,
    }
}

fn abstract_placement_cost(graph: &PlacementGraph, colors: &[usize]) -> PlacementCost {
    let used = colors.iter().copied().max().map_or(0, |color| color + 1);
    let mut maxima = vec![0u64; used];
    let mut members = vec![0u64; used];
    for (index, color) in colors.iter().copied().enumerate() {
        maxima[color] = maxima[color].max(graph.weights[index]);
        members[color] += graph.access_weights[index];
    }
    PlacementCost {
        context_size: maxima.into_iter().sum(),
        slot_count: used as u64,
        access_complexity: members.into_iter().filter(|count| *count > 1).sum(),
    }
}

fn visit(
    graph: &PlacementGraph,
    index: usize,
    colors: &mut Vec<usize>,
    used: usize,
    best: &mut Option<(Vec<usize>, PlacementCost)>,
) {
    if index == colors.len() {
        let stable = canonical_colors(colors);
        let cost = abstract_placement_cost(graph, &stable);
        let improves = match best.as_ref() {
            None => true,
            Some((best_colors, best_cost)) => {
                cost < *best_cost || (cost == *best_cost && stable < *best_colors)
            }
        };
        if improves {
            *best = Some((stable, cost));
        }
        return;
    }
    for color in 0..=used {
        if color < used
            && graph.adjacency[index]
                .iter()
                .any(|neighbor| *neighbor < index && colors[*neighbor] == color)
        {
            continue;
        }
        colors[index] = color;
        visit(graph, index + 1, colors, used.max(color + 1), best);
        colors[index] = usize::MAX;
    }
}

fn exhaustive_placement(graph: &PlacementGraph) -> (Vec<usize>, PlacementCost) {
    let mut colors = vec![usize::MAX; graph.weights.len()];
    let mut best = None;
    visit(graph, 0, &mut colors, 0, &mut best);
    best.expect("finite interference graph has a placement")
}

struct AbstractCost<'a> {
    graph: &'a PlacementGraph,
}

impl PlacementEvaluator for AbstractCost<'_> {
    fn evaluate(&self, colors: &Vec<usize>) -> Option<PlacementCost> {
        Some(abstract_placement_cost(self.graph, colors))
    }
}

fn search_test_graph(graph: &PlacementGraph, budget: u64) -> AggressiveSearchResult {
    let greedy = color_size_nodes(graph);
    search_aggressive_placement(
        graph,
        &greedy,
        abstract_placement_cost(graph, &greedy),
        PlacementBounds {
            fixed_storage_size: 0,
            fixed_slot_count: 0,
            fixed_access_complexity: 0,
        },
        budget,
        &AbstractCost { graph },
    )
}

#[test]
fn aggressive_branch_and_bound_matches_exhaustive_weighted_optimum() {
    let graph = placement_graph_for_test(
        &[(0, 1), (1, 1), (2, 4), (3, 4)],
        &[],
        &[(0, 1), (0, 3), (1, 2)],
    );
    let greedy = color_size_nodes(&graph);
    assert_eq!(abstract_placement_cost(&graph, &greedy).context_size, 8);

    let result = search_test_graph(&graph, 10_000);
    let exhaustive = exhaustive_placement(&graph);
    assert!(!result.exhausted);
    assert_eq!((result.colors, result.cost), exhaustive);
    assert_eq!(exhaustive.1.context_size, 6);
}

#[test]
fn aggressive_uses_access_complexity_after_size_and_slot_count() {
    let graph = placement_graph_for_test(
        &[(0, 1), (1, 1), (2, 1), (3, 1), (4, 1)],
        &[],
        &[(0, 1), (0, 2)],
    );
    let greedy = color_size_nodes(&graph);
    assert_eq!(
        abstract_placement_cost(&graph, &greedy),
        PlacementCost { context_size: 2, slot_count: 2, access_complexity: 5 }
    );

    let result = search_test_graph(&graph, 10_000);
    assert!(!result.exhausted);
    assert_eq!(result.cost.context_size, 2);
    assert_eq!(result.cost.slot_count, 2);
    assert_eq!(result.cost.access_complexity, 4);
}

#[test]
fn aggressive_budget_exhaustion_retains_the_exact_incumbent() {
    let graph = placement_graph_for_test(
        &[(0, 1), (1, 1), (2, 4), (3, 4)],
        &[],
        &[(0, 1), (0, 3), (1, 2)],
    );
    let greedy = color_size_nodes(&graph);
    let incumbent = abstract_placement_cost(&graph, &greedy);
    let result = search_test_graph(&graph, 1);
    assert!(result.exhausted);
    assert_eq!(result.explored_nodes, 1);
    assert_eq!(result.colors, canonical_colors(&greedy));
    assert_eq!(result.cost, incumbent);
}

#[test]
fn aggressive_search_is_stable_under_reordered_graph_inputs() {
    let access = [(0, 1), (1, 1), (2, 1), (3, 1)];
    let first = placement_graph_for_test(
        &[(0, 1), (1, 1), (2, 4), (3, 4)],
        &access,
        &[(0, 1), (0, 3), (1, 2)],
    );
    let reordered = placement_graph_for_test(
        &[(3, 4), (1, 1), (0, 1), (2, 4)],
        &access,
        &[(2, 1), (3, 0), (1, 0)],
    );
    assert_eq!(first.weights, reordered.weights);
    assert_eq!(first.adjacency, reordered.adjacency);

    let expected = search_test_graph(&first, 10_000);
    for _ in 0..4 {
        let repeated = search_test_graph(&reordered, 10_000);
        assert_eq!(repeated, expected);
    }
}

#[test]
fn of_equally_cheap_placements_the_first_is_found() {
    let graph = placement_graph_for_test(&[(0, 1), (1, 1), (2, 1)], &[], &[(0, 1)]);
    let initial = vec![0, 1, 1];
    let cost = abstract_placement_cost(&graph, &initial);
    assert_eq!(abstract_placement_cost(&graph, &[0, 1, 0]), cost);
    let result = search_aggressive_placement(
        &graph,
        &initial,
        cost,
        PlacementBounds {
            fixed_storage_size: 0,
            fixed_slot_count: 0,
            fixed_access_complexity: 0,
        },
        10_000,
        &AbstractCost { graph: &graph },
    );
    assert!(!result.exhausted);
    assert_eq!(result.colors, vec![0, 1, 0]);
    assert_eq!(result.cost, cost);
    assert_eq!(result.clone(), result);
}

#[test]
fn greedy_coloring_starts_with_the_busiest_node() {
    let graph = placement_graph_for_test(
        &[(0, 8), (1, 8), (2, 8), (3, 8)],
        &[],
        &[(0, 1), (1, 2), (2, 3)],
    );
    assert_eq!(color_size_nodes(&graph), vec![1, 0, 1, 0]);
    let alone = placement_graph_for_test(&[(0, 8), (1, 4)], &[], &[]);
    assert_eq!(color_size_nodes(&alone), vec![0, 0]);
    let empty = placement_graph_for_test(&[], &[], &[]);
    assert!(color_size_nodes(&empty).is_empty());
}

#[test]
fn canonical_colors_number_groups_by_first_use() {
    assert_eq!(canonical_colors(&vec![7, 3, 7, 0]), vec![0, 1, 0, 2]);
    assert_eq!(canonical_colors(&vec![2, 2]), vec![0, 0]);
    assert!(canonical_colors(&vec![]).is_empty());
}

#[test]
fn costs_compare_size_then_slots_then_accesses() {
    let base = PlacementCost { context_size: 8, slot_count: 2, access_complexity: 3 };
    assert!(is_cheaper(PlacementCost { context_size: 7, slot_count: 9, access_complexity: 9 }, base));
    assert!(is_cheaper(PlacementCost { context_size: 8, slot_count: 1, access_complexity: 9 }, base));
    assert!(is_cheaper(PlacementCost { context_size: 8, slot_count: 2, access_complexity: 2 }, base));
    assert!(!is_cheaper(base, base));
}
