//! Reachability in finite directed graphs.

use vstd::prelude::*;

use crate::order::{has_key, Key};
use crate::symbol_index::FunctionId;

verus! {

impl Key for FunctionId {
    open spec fn rank_spec(&self) -> u64 {
        self.0 as u64
    }

    fn rank(&self) -> (r: u64) {
        self.0 as u64
    }

    proof fn injective(a: Self, b: Self) {
    }
}

/// Whether a walk of at most `n` edges leads from `a` to `b`.
pub open spec fn reaches_in<T>(edges: Seq<(T, T)>, a: T, b: T, n: nat) -> bool
    decreases n,
{
    a == b || (n > 0 && exists|i: int|
        0 <= i < edges.len() && (#[trigger] edges[i]).0 == a && reaches_in(
            edges,
            edges[i].1,
            b,
            (n - 1) as nat,
        ))
}

/// Whether a walk leads from `a` to `b`.
pub open spec fn reaches<T>(edges: Seq<(T, T)>, a: T, b: T) -> bool {
    exists|n: nat| reaches_in(edges, a, b, n)
}

/// Whether no edge lies on a cycle.
pub open spec fn acyclic<T>(edges: Seq<(T, T)>) -> bool {
    forall|i: int|
        0 <= i < edges.len() ==> !reaches(edges, (#[trigger] edges[i]).1, edges[i].0)
}

/// A longer limit allows every shorter walk.
pub proof fn reaches_in_more<T>(edges: Seq<(T, T)>, a: T, b: T, n: nat, m: nat)
    requires
        reaches_in(edges, a, b, n),
        n <= m,
    ensures
        reaches_in(edges, a, b, m),
    decreases n,
{
    if a != b {
        let i = choose|i: int|
            0 <= i < edges.len() && (#[trigger] edges[i]).0 == a && reaches_in(
                edges,
                edges[i].1,
                b,
                (n - 1) as nat,
            );
        reaches_in_more(edges, edges[i].1, b, (n - 1) as nat, (m - 1) as nat);
    }
}

/// Two walks in a row are a walk.
pub proof fn reaches_in_joined<T>(edges: Seq<(T, T)>, a: T, b: T, c: T, n: nat, m: nat)
    requires
        reaches_in(edges, a, b, n),
        reaches_in(edges, b, c, m),
    ensures
        reaches_in(edges, a, c, n + m),
    decreases n,
{
    if a == b {
        reaches_in_more(edges, a, c, m, n + m);
    } else {
        let i = choose|i: int|
            0 <= i < edges.len() && (#[trigger] edges[i]).0 == a && reaches_in(
                edges,
                edges[i].1,
                b,
                (n - 1) as nat,
            );
        reaches_in_joined(edges, edges[i].1, b, c, (n - 1) as nat, m);
        assert((n + m - 1) as nat == (n - 1) as nat + m);
    }
}

/// Reachability is transitive.
pub proof fn reaches_transitive<T>(edges: Seq<(T, T)>, a: T, b: T, c: T)
    requires
        reaches(edges, a, b),
        reaches(edges, b, c),
    ensures
        reaches(edges, a, c),
{
    let n = choose|n: nat| reaches_in(edges, a, b, n);
    let m = choose|m: nat| reaches_in(edges, b, c, m);
    reaches_in_joined(edges, a, b, c, n, m);
}

/// Every node reaches itself.
pub proof fn reaches_self<T>(edges: Seq<(T, T)>, a: T)
    ensures
        reaches(edges, a, a),
{
    assert(reaches_in(edges, a, a, 0));
}

/// An edge leads from its source to its target.
pub proof fn reaches_edge<T>(edges: Seq<(T, T)>, i: int)
    requires
        0 <= i < edges.len(),
    ensures
        reaches(edges, edges[i].0, edges[i].1),
{
    assert(reaches_in(edges, edges[i].1, edges[i].1, 0));
    assert(reaches_in(edges, edges[i].0, edges[i].1, 1));
}

proof fn reaches_in_superset<T>(edges: Seq<(T, T)>, more: Seq<(T, T)>, a: T, b: T, n: nat)
    requires
        forall|i: int| 0 <= i < edges.len() ==> more.contains(#[trigger] edges[i]),
        reaches_in(edges, a, b, n),
    ensures
        reaches_in(more, a, b, n),
    decreases n,
{
    if a != b {
        let i = choose|i: int|
            0 <= i < edges.len() && (#[trigger] edges[i]).0 == a && reaches_in(
                edges,
                edges[i].1,
                b,
                (n - 1) as nat,
            );
        reaches_in_superset(edges, more, edges[i].1, b, (n - 1) as nat);
        assert(more.contains(edges[i]));
        let k = choose|k: int| 0 <= k < more.len() && more[k] == edges[i];
        assert(more[k].0 == a);
    }
}

/// More edges keep every walk.
pub proof fn reaches_superset<T>(edges: Seq<(T, T)>, more: Seq<(T, T)>, a: T, b: T)
    requires
        forall|i: int| 0 <= i < edges.len() ==> more.contains(#[trigger] edges[i]),
        reaches(edges, a, b),
    ensures
        reaches(more, a, b),
{
    let n = choose|n: nat| reaches_in(edges, a, b, n);
    reaches_in_superset(edges, more, a, b, n);
}

proof fn reaches_in_pushed<T>(edges: Seq<(T, T)>, u: T, v: T, a: T, b: T, n: nat)
    requires
        reaches_in(edges.push((u, v)), a, b, n),
    ensures
        reaches(edges, a, b) || (reaches(edges, a, u) && reaches(edges, v, b)),
    decreases n,
{
    let more = edges.push((u, v));
    if a == b {
        reaches_self(edges, a);
    } else {
        let i = choose|i: int|
            0 <= i < more.len() && (#[trigger] more[i]).0 == a && reaches_in(
                more,
                more[i].1,
                b,
                (n - 1) as nat,
            );
        let c = more[i].1;
        reaches_in_pushed(edges, u, v, c, b, (n - 1) as nat);
        if i < edges.len() {
            assert(edges[i] == more[i]);
            reaches_edge(edges, i);
            if reaches(edges, c, b) {
                reaches_transitive(edges, a, c, b);
            } else {
                reaches_transitive(edges, a, c, u);
            }
        } else {
            reaches_self(edges, a);
        }
    }
}

/// An edge keeps a graph acyclic when no walk leads back from its target.
pub proof fn acyclic_pushed<T>(edges: Seq<(T, T)>, u: T, v: T)
    requires
        acyclic(edges),
        !reaches(edges, v, u),
    ensures
        acyclic(edges.push((u, v))),
{
    let more = edges.push((u, v));
    assert forall|i: int| 0 <= i < more.len() implies !reaches(
        more,
        (#[trigger] more[i]).1,
        more[i].0,
    ) by {
        let x = more[i].0;
        let y = more[i].1;
        if reaches(more, y, x) {
            let n = choose|n: nat| reaches_in(more, y, x, n);
            reaches_in_pushed(edges, u, v, y, x, n);
            if i < edges.len() {
                assert(edges[i] == more[i]);
                assert(!reaches(edges, edges[i].1, edges[i].0));
                reaches_edge(edges, i);
                reaches_transitive(edges, v, x, y);
                reaches_transitive(edges, v, y, u);
            }
        }
    }
}

proof fn closed_holds_walk<T>(edges: Seq<(T, T)>, seen: Seq<T>, a: T, b: T, n: nat)
    requires
        forall|i: int|
            0 <= i < edges.len() && seen.contains((#[trigger] edges[i]).0) ==> seen.contains(
                edges[i].1,
            ),
        seen.contains(a),
        reaches_in(edges, a, b, n),
    ensures
        seen.contains(b),
    decreases n,
{
    if a != b {
        let i = choose|i: int|
            0 <= i < edges.len() && (#[trigger] edges[i]).0 == a && reaches_in(
                edges,
                edges[i].1,
                b,
                (n - 1) as nat,
            );
        closed_holds_walk(edges, seen, edges[i].1, b, (n - 1) as nat);
    }
}

/// How many edges have a target that was not seen.
spec fn unseen<T>(edges: Seq<(T, T)>, seen: Seq<T>) -> nat
    decreases edges.len(),
{
    if edges.len() == 0 {
        0
    } else {
        unseen(edges.drop_last(), seen) + if seen.contains(edges.last().1) {
            0nat
        } else {
            1nat
        }
    }
}

proof fn unseen_shrinks<T>(edges: Seq<(T, T)>, seen: Seq<T>, x: T)
    ensures
        unseen(edges, seen.push(x)) <= unseen(edges, seen),
        !seen.contains(x) && (exists|i: int| 0 <= i < edges.len() && (#[trigger] edges[i]).1 == x)
            ==> unseen(edges, seen.push(x)) < unseen(edges, seen),
    decreases edges.len(),
{
    let after = seen.push(x);
    assert(after[seen.len() as int] == x);
    assert forall|y: T| seen.contains(y) implies after.contains(y) by {
        let k = choose|k: int| 0 <= k < seen.len() && seen[k] == y;
        assert(after[k] == y);
    }
    if edges.len() > 0 {
        unseen_shrinks(edges.drop_last(), seen, x);
        if !seen.contains(x) && exists|i: int|
            0 <= i < edges.len() && (#[trigger] edges[i]).1 == x {
            let i = choose|i: int| 0 <= i < edges.len() && (#[trigger] edges[i]).1 == x;
            if i < edges.len() - 1 {
                assert(edges.drop_last()[i].1 == x);
            } else {
                assert(edges.last().1 == x);
            }
        }
    }
}

/// Lists every node that a walk from `start` reaches.
pub fn reachable_from<T: Key>(edges: &Vec<(T, T)>, start: T) -> (r: Vec<T>)
    ensures
        forall|x: T| #[trigger] r@.contains(x) <==> reaches(edges@, start, x),
{
    let mut seen: Vec<T> = Vec::new();
    seen.push(start);
    proof {
        reaches_self(edges@, start);
        assert(seen@[0] == start);
    }
    let mut changed = true;
    while changed
        invariant
            seen@.contains(start),
            forall|x: T| #[trigger] seen@.contains(x) ==> reaches(edges@, start, x),
            !changed ==> forall|k: int|
                0 <= k < edges@.len() && seen@.contains((#[trigger] edges@[k]).0) ==> seen@.contains(
                    edges@[k].1,
                ),
        decreases unseen(edges@, seen@), changed as int,
    {
        changed = false;
        let ghost before = seen@;
        let mut i: usize = 0;
        while i < edges.len()
            invariant
                i <= edges@.len(),
                seen@.contains(start),
                forall|x: T| #[trigger] seen@.contains(x) ==> reaches(edges@, start, x),
                !changed ==> seen@ == before,
                changed ==> unseen(edges@, seen@) < unseen(edges@, before),
                !changed ==> forall|k: int|
                    0 <= k < i && seen@.contains((#[trigger] edges@[k]).0) ==> seen@.contains(
                        edges@[k].1,
                    ),
            decreases edges@.len() - i,
        {
            let edge = edges[i];
            if has_key(&seen, edge.0) && !has_key(&seen, edge.1) {
                proof {
                    reaches_edge(edges@, i as int);
                    reaches_transitive(edges@, start, edge.0, edge.1);
                    unseen_shrinks(edges@, seen@, edge.1);
                    assert(edges@[i as int].1 == edge.1);
                    assert forall|x: T| seen@.push(edge.1).contains(x) implies reaches(
                        edges@,
                        start,
                        x,
                    ) by {
                        let k = choose|k: int|
                            0 <= k < seen@.push(edge.1).len() && seen@.push(edge.1)[k] == x;
                        if k < seen@.len() {
                            assert(seen@[k] == x);
                            assert(seen@.contains(x));
                        } else {
                            assert(x == edge.1);
                        }
                    }
                    let k = choose|k: int| 0 <= k < seen@.len() && seen@[k] == start;
                    assert(seen@.push(edge.1)[k] == start);
                }
                seen.push(edge.1);
                changed = true;
            }
            i += 1;
        }
    }
    proof {
        assert forall|x: T| reaches(edges@, start, x) implies #[trigger] seen@.contains(x) by {
            let n = choose|n: nat| reaches_in(edges@, start, x, n);
            closed_holds_walk(edges@, seen@, start, x, n);
        }
    }
    seen
}

/// Tells whether a walk leads from `a` to `b`.
pub fn is_reachable<T: Key>(edges: &Vec<(T, T)>, a: T, b: T) -> (r: bool)
    ensures
        r == reaches(edges@, a, b),
{
    let seen = reachable_from(edges, a);
    has_key(&seen, b)
}

} // verus!
