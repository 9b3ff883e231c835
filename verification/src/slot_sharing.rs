//! Slots that can be merged, and contexts with merged slots.

use vstd::prelude::*;

use crate::c_static_plan::{CFunctionPlan, FunctionPlanView};
use crate::context_layout::{MemberView, PhysicalMember, PhysicalSlot, SlotView};
use crate::identity_layout;
use crate::layout_knowledge;
use crate::liveness::LivenessFunction;
use crate::placement;
use crate::placement::{GraphView, PlacementGraph};
use crate::slot_liveness::SlotLivenessFunction;
use crate::storage_lifetimes;
use crate::storage_lifetimes::{size_lifetime, size_lifetimes_interfere, SizeLifetime};
use crate::syntax;
use crate::target_layout;
use crate::target_layout::{Known, LayoutKnowledge, TargetLayoutModel, TypeLayout};

verus! {

/// One slot that can be merged with others.
#[derive(Debug, Clone, PartialEq, Eq)]
pub struct SizeNode {
    pub original_slot: usize,
    pub lifetimes: Vec<SizeLifetime>,
    pub weight: u64,
}

/// The contents of a node.
pub struct NodeView {
    pub original_slot: usize,
    pub lifetimes: Seq<SizeLifetime>,
    pub weight: u64,
}

impl View for SizeNode {
    type V = NodeView;

    open spec fn view(&self) -> NodeView {
        NodeView {
            original_slot: self.original_slot,
            lifetimes: self.lifetimes@,
            weight: self.weight,
        }
    }
}

/// When the first `n` members hold values, if the storage of all can be
/// shared.
pub open spec fn member_lifetimes(
    members: Seq<MemberView>,
    plan: Option<FunctionPlanView>,
    function: LivenessFunction,
    n: int,
) -> Option<Seq<SizeLifetime>>
    decreases n,
{
    if n <= 0 {
        Some(Seq::empty())
    } else {
        match (
            member_lifetimes(members, plan, function, n - 1),
            storage_lifetimes::lifetime_of(members[n - 1].logical, plan, function),
        ) {
            (Some(before), Some(lifetime)) => Some(before.push(lifetime)),
            _ => None,
        }
    }
}

/// The node of a slot, if all its members have known lifetimes and sizes.
pub open spec fn node_of(
    slot: SlotView,
    i: int,
    plan: Option<FunctionPlanView>,
    function: LivenessFunction,
    model: TargetLayoutModel,
    generated: Seq<(Seq<char>, TypeLayout)>,
) -> Option<NodeView> {
    let n = slot.members.len() as int;
    match (
        member_lifetimes(slot.members, plan, function, n),
        layout_knowledge::member_layouts(model, slot.members, generated, n),
    ) {
        (Some(lifetimes), Known::Exact(layouts)) => Some(
            NodeView {
                original_slot: i as usize,
                lifetimes,
                weight: target_layout::largest_size(layouts, layouts.len() as int),
            },
        ),
        _ => None,
    }
}

/// The nodes of the first `n` slots.
pub open spec fn nodes_of(
    slots: Seq<SlotView>,
    plan: Option<FunctionPlanView>,
    function: LivenessFunction,
    model: TargetLayoutModel,
    generated: Seq<(Seq<char>, TypeLayout)>,
    n: int,
) -> Seq<NodeView>
    decreases n,
{
    if n <= 0 {
        Seq::empty()
    } else {
        let before = nodes_of(slots, plan, function, model, generated, n - 1);
        match node_of(slots[n - 1], n - 1, plan, function, model, generated) {
            Some(node) => before.push(node),
            None => before,
        }
    }
}

/// Whether nodes stand for different slots in ascending order.
pub open spec fn nodes_ok(nodes: Seq<NodeView>, slots: int) -> bool {
    &&& forall|k: int| 0 <= k < nodes.len() ==> (#[trigger] nodes[k]).original_slot < slots
    &&& forall|j: int, k: int|
        0 <= j < k < nodes.len() ==> (#[trigger] nodes[j]).original_slot < (
        #[trigger] nodes[k]).original_slot
}

/// The nodes of a context stand for different slots in ascending order.
pub proof fn nodes_of_ok(
    slots: Seq<SlotView>,
    plan: Option<FunctionPlanView>,
    function: LivenessFunction,
    model: TargetLayoutModel,
    generated: Seq<(Seq<char>, TypeLayout)>,
    n: int,
)
    requires
        0 <= n <= slots.len() <= usize::MAX,
    ensures
        nodes_ok(nodes_of(slots, plan, function, model, generated, n), n),
        nodes_of(slots, plan, function, model, generated, n).len() <= n,
    decreases n,
{
    if n > 0 {
        nodes_of_ok(slots, plan, function, model, generated, n - 1);
    }
}

fn list_lifetimes(
    members: &Vec<PhysicalMember>,
    plan: Option<&CFunctionPlan>,
    function: &LivenessFunction,
) -> (r: Option<Vec<SizeLifetime>>)
    ensures
        match r {
            Some(lifetimes) => member_lifetimes(
                syntax::views(members@),
                identity_layout::plan_view(plan),
                *function,
                members@.len() as int,
            ) == Some(lifetimes@),
            None => member_lifetimes(
                syntax::views(members@),
                identity_layout::plan_view(plan),
                *function,
                members@.len() as int,
            ) is None,
        },
{
    let ghost views = syntax::views(members@);
    let ghost own = identity_layout::plan_view(plan);
    let mut lifetimes: Vec<SizeLifetime> = Vec::new();
    let mut i: usize = 0;
    while i < members.len()
        invariant
            i <= members@.len(),
            views == syntax::views(members@),
            own == identity_layout::plan_view(plan),
            member_lifetimes(views, own, *function, i as int) == Some(lifetimes@),
        decreases members@.len() - i,
    {
        assert(views[i as int] == members@[i as int]@);
        match size_lifetime(members[i].logical, plan, function) {
            Some(lifetime) => {
                lifetimes.push(lifetime);
            },
            None => {
                proof {
                    no_lifetimes(views, own, *function, i + 1, views.len() as int);
                }
                return None;
            },
        }
        i += 1;
    }
    Some(lifetimes)
}

proof fn no_lifetimes(
    members: Seq<MemberView>,
    plan: Option<FunctionPlanView>,
    function: LivenessFunction,
    k: int,
    n: int,
)
    requires
        0 <= k <= n,
        member_lifetimes(members, plan, function, k) is None,
    ensures
        member_lifetimes(members, plan, function, n) is None,
    decreases n - k,
{
    if k < n {
        no_lifetimes(members, plan, function, k, n - 1);
    }
}

/// The size of the largest of several members.
pub open spec fn members_size(
    model: TargetLayoutModel,
    members: Seq<MemberView>,
    generated: Seq<(Seq<char>, TypeLayout)>,
) -> Known<u64> {
    match layout_knowledge::member_layouts(model, members, generated, members.len() as int) {
        Known::Exact(layouts) => Known::Exact(
            target_layout::largest_size(layouts, layouts.len() as int),
        ),
        Known::Unknown(reason) => Known::Unknown(reason),
    }
}

/// Returns the size of the largest member.
pub fn size_of_members(
    model: &TargetLayoutModel,
    members: &Vec<PhysicalMember>,
    generated: &Vec<(String, TypeLayout)>,
) -> (r: LayoutKnowledge<u64>)
    requires
        model.pointer <= 16,
    ensures
        members_size(
            *model,
            syntax::views(members@),
            target_layout::generated_view(generated@),
        ) == (match r {
            LayoutKnowledge::Exact(size) => Known::Exact(size),
            LayoutKnowledge::Unknown(reason) => Known::Unknown(reason@),
        }),
{
    let ghost views = syntax::views(members@);
    let ghost types = target_layout::generated_view(generated@);
    let ghost mut layouts: Seq<TypeLayout> = Seq::empty();
    let mut size: u64 = 0;
    let mut i: usize = 0;
    while i < members.len()
        invariant
            i <= members@.len(),
            model.pointer <= 16,
            views == syntax::views(members@),
            types == target_layout::generated_view(generated@),
            layout_knowledge::member_layouts(*model, views, types, i as int) == Known::Exact(
                layouts,
            ),
            layouts.len() == i,
            size == target_layout::largest_size(layouts, i as int),
        decreases members@.len() - i,
    {
        assert(views[i as int] == members@[i as int]@);
        match model.type_layout(members[i].c_type.as_str(), generated) {
            LayoutKnowledge::Exact(layout) => {
                let ghost before = layouts;
                proof {
                    layouts = layouts.push(layout);
                    largest_size_prefix(before, layouts, i as int);
                }
                if layout.size > size {
                    size = layout.size;
                }
            },
            LayoutKnowledge::Unknown(reason) => {
                proof {
                    layout_knowledge::unknown_member(
                        *model,
                        views,
                        types,
                        i + 1,
                        views.len() as int,
                        reason@,
                    );
                }
                return LayoutKnowledge::Unknown(reason);
            },
        }
        i += 1;
    }
    LayoutKnowledge::Exact(size)
}

proof fn largest_size_prefix(a: Seq<TypeLayout>, b: Seq<TypeLayout>, n: int)
    requires
        0 <= n <= a.len(),
        n <= b.len(),
        forall|i: int| 0 <= i < n ==> a[i] == b[i],
    ensures
        target_layout::largest_size(a, n) == target_layout::largest_size(b, n),
    decreases n,
{
    if n > 0 {
        largest_size_prefix(a, b, n - 1);
    }
}

/// Collects the slots that can be merged with others.
pub fn collect_size_nodes(
    slots: &Vec<PhysicalSlot>,
    function: &LivenessFunction,
    plan: Option<&CFunctionPlan>,
    model: &TargetLayoutModel,
    generated: &Vec<(String, TypeLayout)>,
) -> (r: Vec<SizeNode>)
    requires
        model.pointer <= 16,
    ensures
        syntax::views(r@) == nodes_of(
            syntax::views(slots@),
            identity_layout::plan_view(plan),
            *function,
            *model,
            target_layout::generated_view(generated@),
            slots@.len() as int,
        ),
        nodes_ok(syntax::views(r@), slots@.len() as int),
{
    let ghost views = syntax::views(slots@);
    let ghost own = identity_layout::plan_view(plan);
    let ghost types = target_layout::generated_view(generated@);
    let mut nodes: Vec<SizeNode> = Vec::new();
    assert(syntax::views(nodes@) =~= Seq::empty());
    let mut i: usize = 0;
    while i < slots.len()
        invariant
            i <= slots.len(),
            model.pointer <= 16,
            views == syntax::views(slots@),
            own == identity_layout::plan_view(plan),
            types == target_layout::generated_view(generated@),
            syntax::views(nodes@) == nodes_of(views, own, *function, *model, types, i as int),
        decreases slots@.len() - i,
    {
        assert(views[i as int] == slots@[i as int]@);
        let lifetimes = list_lifetimes(&slots[i].members, plan, function);
        let size = size_of_members(model, &slots[i].members, generated);
        if let Some(lifetimes) = lifetimes {
            if let LayoutKnowledge::Exact(weight) = size {
                let node = SizeNode { original_slot: i, lifetimes, weight };
                proof {
                    syntax::views_push(nodes@, node);
                }
                assert(node_of(views[i as int], i as int, own, *function, *model, types) == Some(
                    node@,
                ));
                nodes.push(node);
            }
        }
        i += 1;
    }
    proof {
        nodes_of_ok(views, own, *function, *model, types, i as int);
    }
    nodes
}

/// Whether a member of one node holds a value while a member of another does.
pub open spec fn nodes_clash(
    a: NodeView,
    b: NodeView,
    function: LivenessFunction,
    lifetimes: SlotLivenessFunction,
) -> bool {
    exists|x: int, y: int|
        #![trigger a.lifetimes[x], b.lifetimes[y]]
        0 <= x < a.lifetimes.len() && 0 <= y < b.lifetimes.len()
            && storage_lifetimes::lifetimes_clash(
            a.lifetimes[x],
            b.lifetimes[y],
            function,
            lifetimes,
        )
}

/// Whether two nodes can't share their storage.
pub open spec fn nodes_adjacent(
    nodes: Seq<NodeView>,
    a: int,
    b: int,
    function: LivenessFunction,
    lifetimes: SlotLivenessFunction,
) -> bool {
    (a < b && nodes_clash(nodes[a], nodes[b], function, lifetimes)) || (b < a && nodes_clash(
        nodes[b],
        nodes[a],
        function,
        lifetimes,
    ))
}

/// The nodes among the first `n` that can't share the storage of node `i`.
pub open spec fn neighbors_of(
    nodes: Seq<NodeView>,
    i: int,
    function: LivenessFunction,
    lifetimes: SlotLivenessFunction,
    n: int,
) -> Seq<usize>
    decreases n,
{
    if n <= 0 {
        Seq::empty()
    } else {
        let before = neighbors_of(nodes, i, function, lifetimes, n - 1);
        if nodes_adjacent(nodes, i, n - 1, function, lifetimes) {
            before.push((n - 1) as usize)
        } else {
            before
        }
    }
}

/// The graph of several nodes.
pub open spec fn graph_of(
    slots: Seq<SlotView>,
    nodes: Seq<NodeView>,
    function: LivenessFunction,
    lifetimes: SlotLivenessFunction,
) -> GraphView {
    GraphView {
        weights: Seq::new(nodes.len(), |i: int| nodes[i].weight),
        access_weights: Seq::new(
            nodes.len(),
            |i: int| slots[nodes[i].original_slot as int].members.len() as u64,
        ),
        adjacency: Seq::new(
            nodes.len(),
            |i: int| neighbors_of(nodes, i, function, lifetimes, nodes.len() as int),
        ),
    }
}

/// Neighbors are the nodes that can't share a slot.
pub proof fn neighbors_hold(
    nodes: Seq<NodeView>,
    i: int,
    function: LivenessFunction,
    lifetimes: SlotLivenessFunction,
    n: int,
)
    requires
        0 <= n <= nodes.len() <= usize::MAX,
    ensures
        forall|k: int|
            0 <= k < neighbors_of(nodes, i, function, lifetimes, n).len() ==> (
            #[trigger] neighbors_of(nodes, i, function, lifetimes, n)[k]) < n,
        forall|j: int|
            0 <= j <= usize::MAX ==> (#[trigger] neighbors_of(
                nodes,
                i,
                function,
                lifetimes,
                n,
            ).contains(j as usize) <==> j < n && nodes_adjacent(
                nodes,
                i,
                j,
                function,
                lifetimes,
            )),
    decreases n,
{
    if n > 0 {
        neighbors_hold(nodes, i, function, lifetimes, n - 1);
        let before = neighbors_of(nodes, i, function, lifetimes, n - 1);
        let after = neighbors_of(nodes, i, function, lifetimes, n);
        assert forall|j: int| 0 <= j <= usize::MAX implies (#[trigger] after.contains(j as usize)
            <==> j < n && nodes_adjacent(nodes, i, j, function, lifetimes)) by {
            if after != before {
                if before.contains(j as usize) {
                    let k = choose|k: int| 0 <= k < before.len() && before[k] == j as usize;
                    assert(after[k] == j as usize);
                }
                if j == n - 1 {
                    assert(after[before.len() as int] == j as usize);
                }
                if after.contains(j as usize) && j != n - 1 {
                    let k = choose|k: int| 0 <= k < after.len() && after[k] == j as usize;
                    assert(before[k] == j as usize);
                }
            }
            assert(before.contains(j as usize) <==> j < n - 1 && nodes_adjacent(
                nodes,
                i,
                j,
                function,
                lifetimes,
            ));
        }
    }
}

/// The graph of nodes is symmetric: what can't share with a node, a node can't
/// share with.
pub proof fn graph_of_ok(
    slots: Seq<SlotView>,
    nodes: Seq<NodeView>,
    function: LivenessFunction,
    lifetimes: SlotLivenessFunction,
)
    requires
        nodes.len() <= usize::MAX,
    ensures
        placement::graph_ok(graph_of(slots, nodes, function, lifetimes)),
        placement::graph_symmetric(graph_of(slots, nodes, function, lifetimes)),
{
    let graph = graph_of(slots, nodes, function, lifetimes);
    let n = nodes.len() as int;
    assert forall|i: int, k: int|
        #![trigger graph.adjacency[i][k]]
        0 <= i < graph.adjacency.len() && 0 <= k < graph.adjacency[i].len() implies
        graph.adjacency[i][k] < graph.weights.len() by {
        neighbors_hold(nodes, i, function, lifetimes, n);
    }
    assert forall|i: int, j: int|
        #![trigger graph.adjacency[i].contains(j as usize)]
        0 <= i < graph.adjacency.len() && 0 <= j < graph.adjacency.len()
            && graph.adjacency[i].contains(j as usize) implies i != j
        && graph.adjacency[j].contains(i as usize) by {
        neighbors_hold(nodes, i, function, lifetimes, n);
        neighbors_hold(nodes, j, function, lifetimes, n);
        assert(nodes_adjacent(nodes, i, j, function, lifetimes));
        assert(nodes_adjacent(nodes, j, i, function, lifetimes));
        assert(neighbors_of(nodes, j, function, lifetimes, n).contains(i as usize));
    }
}

fn nodes_interfere(
    a: &SizeNode,
    b: &SizeNode,
    function: &LivenessFunction,
    lifetimes: &SlotLivenessFunction,
) -> (r: bool)
    ensures
        r == nodes_clash(a@, b@, *function, *lifetimes),
{
    let mut x: usize = 0;
    while x < a.lifetimes.len()
        invariant
            x <= a.lifetimes@.len(),
            forall|i: int, j: int|
                #![trigger a@.lifetimes[i], b@.lifetimes[j]]
                0 <= i < x && 0 <= j < b.lifetimes@.len() ==> !storage_lifetimes::lifetimes_clash(
                    a@.lifetimes[i],
                    b@.lifetimes[j],
                    *function,
                    *lifetimes,
                ),
        decreases a.lifetimes@.len() - x,
    {
        let mut y: usize = 0;
        while y < b.lifetimes.len()
            invariant
                x < a.lifetimes@.len(),
                y <= b.lifetimes@.len(),
                forall|j: int|
                    #![trigger b@.lifetimes[j]]
                    0 <= j < y ==> !storage_lifetimes::lifetimes_clash(
                        a.lifetimes@[x as int],
                        b@.lifetimes[j],
                        *function,
                        *lifetimes,
                    ),
            decreases b.lifetimes@.len() - y,
        {
            if size_lifetimes_interfere(a.lifetimes[x], b.lifetimes[y], function, lifetimes) {
                assert(a@.lifetimes[x as int] == a.lifetimes@[x as int]);
                assert(b@.lifetimes[y as int] == b.lifetimes@[y as int]);
                return true;
            }
            y += 1;
        }
        x += 1;
    }
    false
}

fn list_neighbors(
    nodes: &Vec<SizeNode>,
    i: usize,
    function: &LivenessFunction,
    lifetimes: &SlotLivenessFunction,
) -> (r: Vec<usize>)
    requires
        i < nodes@.len(),
    ensures
        r@ == neighbors_of(
            syntax::views(nodes@),
            i as int,
            *function,
            *lifetimes,
            nodes@.len() as int,
        ),
{
    let ghost views = syntax::views(nodes@);
    let mut found: Vec<usize> = Vec::new();
    let mut n: usize = 0;
    while n < nodes.len()
        invariant
            n <= nodes@.len(),
            i < nodes@.len(),
            views == syntax::views(nodes@),
            found@ == neighbors_of(views, i as int, *function, *lifetimes, n as int),
        decreases nodes@.len() - n,
    {
        assert(views[i as int] == nodes@[i as int]@ && views[n as int] == nodes@[n as int]@);
        let adjacent = if i < n {
            nodes_interfere(&nodes[i], &nodes[n], function, lifetimes)
        } else if n < i {
            nodes_interfere(&nodes[n], &nodes[i], function, lifetimes)
        } else {
            false
        };
        if adjacent {
            found.push(n);
        }
        n += 1;
    }
    found
}

/// Builds the graph of the nodes that can't share their storage.
pub fn build_placement_graph(
    slots: &Vec<PhysicalSlot>,
    nodes: &Vec<SizeNode>,
    function: &LivenessFunction,
    lifetimes: &SlotLivenessFunction,
) -> (r: PlacementGraph)
    requires
        nodes_ok(syntax::views(nodes@), slots@.len() as int),
    ensures
        r@ == graph_of(syntax::views(slots@), syntax::views(nodes@), *function, *lifetimes),
{
    let ghost goal = graph_of(syntax::views(slots@), syntax::views(nodes@), *function, *lifetimes);
    let mut weights: Vec<u64> = Vec::new();
    let mut access_weights: Vec<u64> = Vec::new();
    let mut adjacency: Vec<Vec<usize>> = Vec::new();
    assert(syntax::views(adjacency@) =~= Seq::empty());
    let mut i: usize = 0;
    while i < nodes.len()
        invariant
            i <= nodes@.len(),
            nodes_ok(syntax::views(nodes@), slots@.len() as int),
            goal == graph_of(
                syntax::views(slots@),
                syntax::views(nodes@),
                *function,
                *lifetimes,
            ),
            weights@ =~= goal.weights.take(i as int),
            access_weights@ =~= goal.access_weights.take(i as int),
            syntax::views(adjacency@) =~= goal.adjacency.take(i as int),
        decreases nodes@.len() - i,
    {
        let neighbors = list_neighbors(nodes, i, function, lifetimes);
        assert(syntax::views(nodes@)[i as int] == nodes@[i as int]@);
        proof {
            syntax::views_push(adjacency@, neighbors);
        }
        weights.push(nodes[i].weight);
        access_weights.push(slots[nodes[i].original_slot].members.len() as u64);
        adjacency.push(neighbors);
        i += 1;
    }
    let graph = PlacementGraph { weights, access_weights, adjacency };
    assert(graph@.weights =~= goal.weights);
    assert(graph@.access_weights =~= goal.access_weights);
    assert(graph@.adjacency =~= goal.adjacency);
    graph
}

} // verus!
