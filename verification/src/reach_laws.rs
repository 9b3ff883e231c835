//! Which blocks of a function control can get to.

use vstd::prelude::*;

use crate::c_symbols;
use crate::control_flow::{BasicBlock, BlockId, CfgFunction, CfgSwitchCase, CfgTerminator};
use crate::graph;

verus! {

/// Whether the end of a block names another block to go on in.
pub open spec fn leads_to(terminator: CfgTerminator, target: BlockId) -> bool {
    match terminator {
        CfgTerminator::Goto(edge) => edge.target == target,
        CfgTerminator::Branch { condition, consequence, alternative } => consequence.target
            == target || alternative.target == target,
        CfgTerminator::Switch { expression, cases, default } => default.target == target
            || exists|k: int|
            0 <= k < cases@.len() && (#[trigger] cases@[k]).edge.target == target,
        CfgTerminator::Suspend { edge, operand, slot, continuation, span } => continuation.target
            == target,
        CfgTerminator::Yield { value, continuation, span } => continuation.target == target,
        _ => false,
    }
}

proof fn cases_are_targets(cases: Seq<CfgSwitchCase>, n: int)
    requires
        0 <= n <= cases.len(),
    ensures
        c_symbols::case_targets(cases, n).len() == n,
        forall|k: int|
            0 <= k < n ==> c_symbols::case_targets(cases, n)[k] == (
            #[trigger] cases[k]).edge.target,
    decreases n,
{
    if n > 0 {
        cases_are_targets(cases, n - 1);
    }
}

proof fn successors_are_targets(terminator: CfgTerminator, target: BlockId)
    ensures
        c_symbols::successors(terminator).contains(target) <==> leads_to(terminator, target),
{
    let found = c_symbols::successors(terminator);
    match terminator {
        CfgTerminator::Goto(edge) => {
            assert(found[0] == edge.target);
        },
        CfgTerminator::Branch { condition, consequence, alternative } => {
            assert(found[0] == consequence.target && found[1] == alternative.target);
        },
        CfgTerminator::Switch { expression, cases, default } => {
            let n = cases@.len() as int;
            cases_are_targets(cases@, n);
            assert(found[n] == default.target);
            assert forall|k: int| 0 <= k < n implies found[k] == (
            #[trigger] cases@[k]).edge.target by {
            }
            if found.contains(target) {
                let k = choose|k: int| 0 <= k < found.len() && found[k] == target;
                if k < n {
                    assert(cases@[k].edge.target == target);
                }
            }
            if leads_to(terminator, target) && default.target != target {
                let k = choose|k: int|
                    0 <= k < n && (#[trigger] cases@[k]).edge.target == target;
                assert(found[k] == target);
            }
        },
        CfgTerminator::Suspend { edge, operand, slot, continuation, span } => {
            assert(found[0] == continuation.target);
        },
        CfgTerminator::Yield { value, continuation, span } => {
            assert(found[0] == continuation.target);
        },
        _ => {},
    }
}

proof fn pushed_edges(
    edges: Seq<(BlockId, BlockId)>,
    from: BlockId,
    targets: Seq<BlockId>,
    n: int,
    edge: (BlockId, BlockId),
)
    requires
        0 <= n <= targets.len(),
    ensures
        c_symbols::edges_from(edges, from, targets, n).contains(edge) <==> edges.contains(edge)
            || (edge.0 == from && targets.take(n).contains(edge.1)),
    decreases n,
{
    if n > 0 {
        pushed_edges(edges, from, targets, n - 1, edge);
        let before = c_symbols::edges_from(edges, from, targets, n - 1);
        let after = c_symbols::edges_from(edges, from, targets, n);
        let last = (from, targets[n - 1]);
        assert(after == before.push(last));
        assert(after[before.len() as int] == last);
        if before.contains(edge) {
            let i = choose|i: int| 0 <= i < before.len() && before[i] == edge;
            assert(after[i] == edge);
        }
        if after.contains(edge) && edge != last {
            let i = choose|i: int| 0 <= i < after.len() && after[i] == edge;
            assert(before[i] == edge);
        }
        let shorter = targets.take(n - 1);
        let longer = targets.take(n);
        assert(longer =~= shorter.push(targets[n - 1]));
        assert(longer[n - 1] == targets[n - 1]);
        if shorter.contains(edge.1) {
            let i = choose|i: int| 0 <= i < shorter.len() && shorter[i] == edge.1;
            assert(longer[i] == edge.1);
        }
        if longer.contains(edge.1) && edge.1 != targets[n - 1] {
            let i = choose|i: int| 0 <= i < longer.len() && longer[i] == edge.1;
            assert(shorter[i] == edge.1);
        }
    }
}

proof fn edges_are_those_of_ends(blocks: Seq<BasicBlock>, n: int, from: BlockId, to: BlockId)
    requires
        0 <= n <= blocks.len(),
        blocks.len() <= u32::MAX,
    ensures
        c_symbols::block_edges(blocks, n).contains((from, to)) <==> from.0 < n && leads_to(
            blocks[from.0 as int].terminator,
            to,
        ),
    decreases n,
{
    if n > 0 {
        edges_are_those_of_ends(blocks, n - 1, from, to);
        let targets = c_symbols::successors(blocks[n - 1].terminator);
        pushed_edges(
            c_symbols::block_edges(blocks, n - 1),
            BlockId((n - 1) as u32),
            targets,
            targets.len() as int,
            (from, to),
        );
        assert(targets.take(targets.len() as int) =~= targets);
        successors_are_targets(blocks[n - 1].terminator, to);
        assert(((n - 1) as u32) as int == n - 1);
        if from.0 == n - 1 {
            assert(from == BlockId((n - 1) as u32));
        }
    }
}

/// Control can get to the entry of a function, and from every block that it can get
/// to, to all that the end of the block names.
pub proof fn control_goes_on_where_ends_lead(cfg: CfgFunction, from: BlockId, to: BlockId)
    requires
        cfg.blocks@.len() <= u32::MAX,
    ensures
        c_symbols::block_reached(cfg, cfg.entry),
        c_symbols::block_reached(cfg, from) && from.0 < cfg.blocks@.len() && leads_to(
            cfg.blocks@[from.0 as int].terminator,
            to,
        ) ==> c_symbols::block_reached(cfg, to),
{
    let n = cfg.blocks@.len() as int;
    let edges = c_symbols::block_edges(cfg.blocks@, n);
    graph::reaches_self(edges, cfg.entry);
    edges_are_those_of_ends(cfg.blocks@, n, from, to);
    if edges.contains((from, to)) && graph::reaches(edges, cfg.entry, from) {
        let i = choose|i: int| 0 <= i < edges.len() && edges[i] == (from, to);
        graph::reaches_edge(edges, i);
        graph::reaches_transitive(edges, cfg.entry, from, to);
    }
}

proof fn walks_stay_inside(
    cfg: CfgFunction,
    inside: Set<BlockId>,
    from: BlockId,
    to: BlockId,
    n: nat,
)
    requires
        cfg.blocks@.len() <= u32::MAX,
        inside.contains(from),
        closed_under(cfg, inside),
        graph::reaches_in(
            c_symbols::block_edges(cfg.blocks@, cfg.blocks@.len() as int),
            from,
            to,
            n,
        ),
    ensures
        inside.contains(to),
    decreases n,
{
    let edges = c_symbols::block_edges(cfg.blocks@, cfg.blocks@.len() as int);
    if from != to {
        let i = choose|i: int|
            0 <= i < edges.len() && (#[trigger] edges[i]).0 == from && graph::reaches_in(
                edges,
                edges[i].1,
                to,
                (n - 1) as nat,
            );
        assert(edges.contains((from, edges[i].1)));
        edges_are_those_of_ends(cfg.blocks@, cfg.blocks@.len() as int, from, edges[i].1);
        assert(inside.contains(edges[i].1));
        walks_stay_inside(cfg, inside, edges[i].1, to, (n - 1) as nat);
    }
}

/// Whether the ends of some blocks lead to those blocks alone.
pub open spec fn closed_under(cfg: CfgFunction, inside: Set<BlockId>) -> bool {
    forall|a: BlockId, b: BlockId|
        inside.contains(a) && a.0 < cfg.blocks@.len() && #[trigger] leads_to(
            cfg.blocks@[a.0 as int].terminator,
            b,
        ) ==> #[trigger] inside.contains(b)
}

/// Control can get to no other blocks: it stays inside any blocks that hold the
/// entry and whose ends lead to those blocks alone.
pub proof fn control_stays_where_ends_lead(cfg: CfgFunction, inside: Set<BlockId>, block: BlockId)
    requires
        cfg.blocks@.len() <= u32::MAX,
        inside.contains(cfg.entry),
        closed_under(cfg, inside),
        c_symbols::block_reached(cfg, block),
    ensures
        inside.contains(block),
{
    let edges = c_symbols::block_edges(cfg.blocks@, cfg.blocks@.len() as int);
    let n = choose|n: nat| graph::reaches_in(edges, cfg.entry, block, n);
    walks_stay_inside(cfg, inside, cfg.entry, block, n);
}

} // verus!
