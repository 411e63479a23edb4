//! Dependency graphs as maps from a node to the set of nodes it depends on,
//! and the two orders in which such a graph can be run: one node at a time
//! (a topological order) and level by level.
use vstd::prelude::*;

verus! {

/// `order` lists every node of `g` once, each after all the nodes it depends
/// on (so every dependency is itself a node of `g`).
pub open spec fn is_topo_order(g: Map<usize, Set<usize>>, order: Seq<usize>) -> bool {
    &&& order.no_duplicates()
    &&& forall|x: usize| #[trigger] order.contains(x) <==> g.dom().contains(x)
    &&& forall|i: int, d: usize|
        0 <= i < order.len() && #[trigger] g[order[i]].contains(d) ==> exists|j: int|
            0 <= j < i && order[j] == d
}

/// Whether the nodes of `g` can be run one after another, each after its
/// dependencies: no node depends, directly or not, on itself or on a missing
/// node.
pub open spec fn has_topo_order(g: Map<usize, Set<usize>>) -> bool {
    exists|order: Seq<usize>| is_topo_order(g, order)
}

/// The nodes in the first `k` levels.
pub open spec fn before(levels: Seq<Seq<usize>>, k: int) -> Set<usize> {
    Set::new(|x: usize| exists|j: int| 0 <= j < k && #[trigger] levels[j].contains(x))
}

/// `levels` splits the nodes of `g` into levels: level `k` holds exactly the
/// nodes, not in an earlier level, whose dependencies all lie in earlier
/// levels; no level is empty, none lists a node twice, and every node is in
/// some level.
pub open spec fn is_level_split(g: Map<usize, Set<usize>>, levels: Seq<Seq<usize>>) -> bool {
    &&& forall|k: int| 0 <= k < levels.len() ==> #[trigger] levels[k].len() > 0
    &&& forall|k: int| 0 <= k < levels.len() ==> (#[trigger] levels[k]).no_duplicates()
    &&& forall|k: int, x: usize|
        0 <= k < levels.len() && #[trigger] levels[k].contains(x) ==> {
            &&& g.dom().contains(x)
            &&& !before(levels, k).contains(x)
            &&& g[x].subset_of(before(levels, k))
        }
    &&& forall|k: int, x: usize|
        0 <= k < levels.len() && g.dom().contains(x) && !before(levels, k).contains(x)
            && g[x].subset_of(before(levels, k)) ==> #[trigger] levels[k].contains(x)
    &&& forall|x: usize| g.dom().contains(x) ==> #[trigger] before(levels, levels.len() as int).contains(x)
}

/// Index of an element of `o` that is not done, with every earlier element
/// done.
proof fn lemma_first_not_done(o: Seq<usize>, done: Set<usize>, m: int) -> (f: int)
    requires
        0 <= m < o.len(),
        !done.contains(o[m]),
    ensures
        0 <= f <= m,
        !done.contains(o[f]),
        forall|j: int| 0 <= j < f ==> done.contains(#[trigger] o[j]),
    decreases m,
{
    if exists|j: int| 0 <= j < m && !done.contains(#[trigger] o[j]) {
        let j = choose|j: int| 0 <= j < m && !done.contains(#[trigger] o[j]);
        lemma_first_not_done(o, done, j)
    } else {
        m
    }
}

/// When every node that is not done depends on some node that is not done,
/// and some node is not done, the graph has no topological order: the first
/// such node in it would come before one of its dependencies.
pub proof fn lemma_stuck_has_no_order(g: Map<usize, Set<usize>>, done: Set<usize>, v: usize)
    requires
        g.dom().contains(v),
        !done.contains(v),
        forall|x: usize|
            g.dom().contains(x) && !done.contains(x) ==> exists|d: usize|
                #[trigger] g[x].contains(d) && !done.contains(d),
    ensures
        !has_topo_order(g),
{
    if has_topo_order(g) {
        let o = choose|o: Seq<usize>| is_topo_order(g, o);
        assert(o.contains(v));
        let m = choose|m: int| 0 <= m < o.len() && o[m] == v;
        let f = lemma_first_not_done(o, done, m);
        let x = o[f];
        assert(o.contains(x));
        let d = choose|d: usize| #[trigger] g[x].contains(d) && !done.contains(d);
        let j = choose|j: int| 0 <= j < f && o[j] == d;
        assert(done.contains(o[j]));
    }
}

/// The levels one after the other.
pub open spec fn flatten_levels(levels: Seq<Seq<usize>>) -> Seq<usize>
    decreases levels.len(),
{
    if levels.len() == 0 {
        Seq::empty()
    } else {
        flatten_levels(levels.drop_last()) + levels.last()
    }
}

/// The first `m` levels of a level split, one after the other, list the
/// nodes of those levels once each, every node after its dependencies.
proof fn lemma_flatten_prefix(g: Map<usize, Set<usize>>, levels: Seq<Seq<usize>>, m: int)
    requires
        is_level_split(g, levels),
        0 <= m <= levels.len(),
    ensures
        flatten_levels(levels.take(m)).no_duplicates(),
        forall|x: usize|
            #[trigger] flatten_levels(levels.take(m)).contains(x) <==> before(levels, m).contains(x),
        forall|i: int, d: usize|
            0 <= i < flatten_levels(levels.take(m)).len() && #[trigger] g[flatten_levels(
                levels.take(m),
            )[i]].contains(d) ==> exists|j: int| 0 <= j < i && flatten_levels(levels.take(m))[j] == d,
    decreases m,
{
    if m == 0 {
        assert(levels.take(0) =~= Seq::<Seq<usize>>::empty());
        assert forall|x: usize| !before(levels, 0).contains(x) by {}
    } else {
        lemma_flatten_prefix(g, levels, m - 1);
        let p = levels.take(m - 1);
        let l = levels[m - 1];
        assert(levels.take(m).drop_last() =~= p);
        assert(levels.take(m).last() == l);
        let f0 = flatten_levels(p);
        let f = flatten_levels(levels.take(m));
        assert(f == f0 + l);
        assert forall|x: usize| #[trigger] f.contains(x) <==> before(levels, m).contains(x) by {
            if f.contains(x) {
                let i = choose|i: int| 0 <= i < f.len() && f[i] == x;
                if i < f0.len() {
                    assert(f0[i] == x);
                    assert(f0.contains(x));
                    let j = choose|j: int| 0 <= j < m - 1 && #[trigger] levels[j].contains(x);
                    assert(levels[j].contains(x));
                } else {
                    assert(l[i - f0.len()] == x);
                    assert(levels[m - 1].contains(x));
                }
            }
            if before(levels, m).contains(x) {
                let j = choose|j: int| 0 <= j < m && #[trigger] levels[j].contains(x);
                if j < m - 1 {
                    assert(levels[j].contains(x));
                    assert(before(levels, m - 1).contains(x));
                    assert(f0.contains(x));
                    let i = choose|i: int| 0 <= i < f0.len() && f0[i] == x;
                    assert(f[i] == x);
                } else {
                    let i = choose|i: int| 0 <= i < l.len() && l[i] == x;
                    assert(f[f0.len() + i] == x);
                }
            }
        }
        assert(f.no_duplicates()) by {
            assert forall|a: int, b: int| 0 <= a < f.len() && 0 <= b < f.len() && a != b implies f[a]
                != f[b] by {
                if a < f0.len() && b < f0.len() {
                    assert(f[a] == f0[a] && f[b] == f0[b]);
                } else if a >= f0.len() && b >= f0.len() {
                    assert(f[a] == l[a - f0.len()] && f[b] == l[b - f0.len()]);
                    assert(l.no_duplicates());
                } else if a < f0.len() {
                    assert(f0.contains(f0[a]));
                    assert(levels[m - 1].contains(l[b - f0.len()]));
                    assert(f[b] == l[b - f0.len()]);
                    assert(!before(levels, m - 1).contains(l[b - f0.len()]));
                } else {
                    assert(f0.contains(f0[b]));
                    assert(levels[m - 1].contains(l[a - f0.len()]));
                    assert(f[a] == l[a - f0.len()]);
                    assert(!before(levels, m - 1).contains(l[a - f0.len()]));
                }
            }
        }
        assert forall|i: int, d: usize|
            0 <= i < f.len() && #[trigger] g[f[i]].contains(d) implies exists|j: int|
            0 <= j < i && f[j] == d by {
            if i < f0.len() {
                assert(f[i] == f0[i]);
                let j = choose|j: int| 0 <= j < i && f0[j] == d;
                assert(f[j] == d);
            } else {
                let x = l[i - f0.len()];
                assert(f[i] == x);
                assert(levels[m - 1].contains(x));
                assert(g[x].subset_of(before(levels, m - 1)));
                assert(before(levels, m - 1).contains(d));
                assert(f0.contains(d));
                let j = choose|j: int| 0 <= j < f0.len() && f0[j] == d;
                assert(f[j] == d);
            }
        }
    }
}

/// Levels and a topological order come together: when the nodes of a graph
/// split into levels, the levels one after the other are a topological
/// order.
pub proof fn lemma_levels_give_order(g: Map<usize, Set<usize>>, levels: Seq<Seq<usize>>)
    requires
        is_level_split(g, levels),
    ensures
        is_topo_order(g, flatten_levels(levels)),
        has_topo_order(g),
{
    lemma_flatten_prefix(g, levels, levels.len() as int);
    assert(levels.take(levels.len() as int) =~= levels);
    let f = flatten_levels(levels);
    assert forall|x: usize| #[trigger] f.contains(x) <==> g.dom().contains(x) by {
        if f.contains(x) {
            let j = choose|j: int| 0 <= j < levels.len() && #[trigger] levels[j].contains(x);
        }
    }
    assert(is_topo_order(g, f));
}

} // verus!
