//! The dependency graph of subqueries and the orders they can run in.
use crate::analysis::graph::{
    before, has_topo_order, is_level_split, is_topo_order, lemma_stuck_has_no_order,
};
use crate::analysis::subquery_detector::{well_numbered, SubqueryInfo};
use vstd::prelude::*;

verus! {

broadcast use vstd::seq_lib::lemma_seq_contains_after_push;

/// Builds a dependency graph for subqueries and determines execution order
pub struct DependencyGraph {
    /// Node ids, in the order the subqueries were given.
    ids: Vec<usize>,
    /// `dependencies[i]`: the ids node `i` depends on.
    dependencies: Vec<Vec<usize>>,
    /// `dependents[j]`: the positions of the nodes that depend on node `j`.
    dependents: Vec<Vec<usize>>,
}

/// How many elements of `s` lie in `p`.
pub open spec fn count_in(s: Seq<usize>, p: Set<usize>) -> nat
    decreases s.len(),
{
    if s.len() == 0 {
        0
    } else {
        count_in(s.drop_last(), p) + if p.contains(s.last()) {
            1nat
        } else {
            0nat
        }
    }
}

proof fn lemma_count_in_bounds(s: Seq<usize>, p: Set<usize>)
    ensures
        count_in(s, p) <= s.len(),
        count_in(s, p) == s.len() <==> (forall|k: int| 0 <= k < s.len() ==> p.contains(#[trigger] s[k])),
    decreases s.len(),
{
    if s.len() > 0 {
        lemma_count_in_bounds(s.drop_last(), p);
        if count_in(s, p) == s.len() {
            assert forall|k: int| 0 <= k < s.len() implies p.contains(#[trigger] s[k]) by {
                if k < s.len() - 1 {
                    assert(s[k] == s.drop_last()[k]);
                }
            }
        }
        if forall|k: int| 0 <= k < s.len() ==> p.contains(#[trigger] s[k]) {
            assert forall|k: int| 0 <= k < s.drop_last().len() implies p.contains(
                #[trigger] s.drop_last()[k],
            ) by {
                assert(s[k] == s.drop_last()[k]);
            }
            assert(p.contains(s[s.len() - 1]));
        }
    }
}

proof fn lemma_count_in_insert(s: Seq<usize>, p: Set<usize>, v: usize)
    requires
        !p.contains(v),
        s.no_duplicates(),
    ensures
        count_in(s, p.insert(v)) == count_in(s, p) + if s.contains(v) {
            1nat
        } else {
            0nat
        },
    decreases s.len(),
{
    if s.len() > 0 {
        let t = s.drop_last();
        assert(t.no_duplicates());
        lemma_count_in_insert(t, p, v);
        if s.last() == v {
            assert(!t.contains(v)) by {
                if t.contains(v) {
                    let k = choose|k: int| 0 <= k < t.len() && t[k] == v;
                    assert(s[k] == s[s.len() - 1]);
                }
            }
            assert(s.contains(v)) by {
                assert(s[s.len() - 1] == v);
            }
        } else {
            assert(s.contains(v) == t.contains(v)) by {
                if s.contains(v) {
                    let k = choose|k: int| 0 <= k < s.len() && s[k] == v;
                    assert(t[k] == v);
                }
                if t.contains(v) {
                    let k = choose|k: int| 0 <= k < t.len() && t[k] == v;
                    assert(s[k] == v);
                }
            }
        }
    }
}

/// How many of `0..m` do not occur in `r`.
pub open spec fn missing(r: Seq<usize>, m: nat) -> nat
    decreases m,
{
    if m == 0 {
        0
    } else {
        missing(r, (m - 1) as nat) + if r.contains((m - 1) as usize) {
            0nat
        } else {
            1nat
        }
    }
}

proof fn lemma_missing_push(r: Seq<usize>, x: usize, m: nat)
    requires
        m <= usize::MAX + 1,
    ensures
        missing(r.push(x), m) + if x < m && !r.contains(x) {
            1nat
        } else {
            0nat
        } == missing(r, m),
    decreases m,
{
    if m > 0 {
        lemma_missing_push(r, x, (m - 1) as nat);
        let y = (m - 1) as usize;
        assert(r.push(x).contains(y) == (r.contains(y) || x == y)) by {
            if r.push(x).contains(y) {
                let k = choose|k: int| 0 <= k < r.push(x).len() && r.push(x)[k] == y;
                if k < r.len() {
                    assert(r[k] == y);
                }
            }
            if r.contains(y) {
                let k = choose|k: int| 0 <= k < r.len() && r[k] == y;
                assert(r.push(x)[k] == y);
            }
            if x == y {
                assert(r.push(x)[r.len() as int] == y);
            }
        }
    }
}

proof fn lemma_missing_empty(m: nat)
    requires
        m <= usize::MAX + 1,
    ensures
        missing(Seq::empty(), m) == m,
    decreases m,
{
    if m > 0 {
        lemma_missing_empty((m - 1) as nat);
    }
}

proof fn lemma_missing_zero(r: Seq<usize>, m: nat)
    requires
        m <= usize::MAX + 1,
    ensures
        missing(r, m) == 0 <==> (forall|i: usize| i < m ==> r.contains(i)),
    decreases m,
{
    if m > 0 {
        lemma_missing_zero(r, (m - 1) as nat);
    }
}

/// A sequence of distinct positions below `n` has at most `n` elements, and
/// exactly `n` when it holds every position.
proof fn lemma_distinct_positions(r: Seq<usize>, n: nat)
    requires
        n <= usize::MAX,
        r.no_duplicates(),
        forall|k: int| 0 <= k < r.len() ==> #[trigger] r[k] < n,
    ensures
        missing(r, n) + r.len() == n,
        r.len() == n <==> (forall|i: usize| i < n ==> r.contains(i)),
    decreases r.len(),
{
    if r.len() == 0 {
        assert(r =~= Seq::<usize>::empty());
        lemma_missing_empty(n);
    } else {
        let t = r.drop_last();
        let x = r.last();
        assert(t.no_duplicates());
        assert forall|k: int| 0 <= k < t.len() implies #[trigger] t[k] < n by {
            assert(t[k] == r[k]);
        }
        lemma_distinct_positions(t, n);
        assert(!t.contains(x)) by {
            if t.contains(x) {
                let k = choose|k: int| 0 <= k < t.len() && t[k] == x;
                assert(r[k] == r[r.len() - 1]);
            }
        }
        assert(t.push(x) =~= r);
        lemma_missing_push(t, x, n);
    }
    lemma_missing_zero(r, n);
}

impl DependencyGraph {
    #[verifier::type_invariant]
    closed spec fn inv(&self) -> bool {
        let n = self.ids.len();
        &&& self.dependencies.len() == n
        &&& self.dependents.len() == n
        &&& self.ids@.no_duplicates()
        &&& forall|i: int| 0 <= i < n ==> (#[trigger] self.dependencies@[i])@.no_duplicates()
        &&& forall|j: int| 0 <= j < n ==> (#[trigger] self.dependents@[j])@.no_duplicates()
        &&& forall|j: int, k: int|
            0 <= j < n && 0 <= k < self.dependents@[j].len() ==> #[trigger] self.dependents@[j]@[k]
                < n
        &&& forall|j: int, i: usize|
            0 <= j < n && i < n ==> (#[trigger] self.dependents@[j]@.contains(i)
                <==> self.dependencies@[i as int]@.contains(self.ids@[j]))
    }

    /// The set of dependencies of the node at position `i`.
    closed spec fn deps_at(&self, i: int) -> Set<usize> {
        self.dependencies@[i]@.to_set()
    }
}

impl View for DependencyGraph {
    type V = Map<usize, Set<usize>>;

    /// Each node id to the set of ids it depends on.
    closed spec fn view(&self) -> Map<usize, Set<usize>> {
        Map::new(
            |id: usize| self.ids@.contains(id),
            |id: usize| self.deps_at(self.ids@.index_of(id)),
        )
    }
}

impl DependencyGraph {
    proof fn lemma_view_at(&self, i: int)
        requires
            self.inv(),
            0 <= i < self.ids.len(),
        ensures
            self@.dom().contains(self.ids@[i]),
            self@[self.ids@[i]] == self.dependencies@[i]@.to_set(),
    {
        let id = self.ids@[i];
        assert(self.ids@.contains(id));
        let k = self.ids@.index_of(id);
        assert(0 <= k < self.ids.len() && self.ids@[k] == id);
        assert(k == i);
    }

    /// Build a dependency graph from detected subqueries. Each subquery is a
    /// node, depending on the ids in its dependency set; where an id is given
    /// more than once, its last entry counts.
    pub fn build(subqueries: &[SubqueryInfo]) -> (g: Self)
        ensures
            forall|x: usize|
                g@.dom().contains(x) <==> exists|i: int|
                    0 <= i < subqueries@.len() && #[trigger] subqueries@[i].id == x,
            forall|i: int|
                0 <= i < subqueries@.len() && is_last_entry(subqueries@, i) ==> g@[
                    #[trigger] subqueries@[i].id] == subqueries@[i].dependencies@.to_set(),
    {
        let n = subqueries.len();
        let mut ids: Vec<usize> = Vec::new();
        let mut dependencies: Vec<Vec<usize>> = Vec::new();
        let ghost mut pos: Seq<int> = Seq::empty();
        let mut k: usize = 0;
        while k < n
            invariant
                n == subqueries@.len(),
                k <= n,
                ids.len() == pos.len(),
                dependencies.len() == pos.len(),
                forall|a: int|
                    0 <= a < pos.len() ==> 0 <= #[trigger] pos[a] < k && is_last_entry(
                        subqueries@,
                        pos[a],
                    ),
                forall|a: int, b: int| 0 <= a < b < pos.len() ==> pos[a] < pos[b],
                forall|a: int| 0 <= a < pos.len() ==> ids@[a] == subqueries@[#[trigger] pos[a]].id,
                forall|a: int| 0 <= a < pos.len() ==> (#[trigger] dependencies@[a])@.no_duplicates(),
                forall|a: int|
                    0 <= a < pos.len() ==> (#[trigger] dependencies@[a])@.to_set()
                        == subqueries@[pos[a]].dependencies@.to_set(),
                forall|i: int|
                    0 <= i < k && is_last_entry(subqueries@, i) ==> exists|a: int|
                        0 <= a < pos.len() && #[trigger] pos[a] == i,
            decreases n - k,
        {
            let s = &subqueries[k];
            let ghost old_pos = pos;
            if !id_given_later(subqueries, k) {
                let ds = distinct_ids(&s.dependencies);
                ids.push(s.id);
                dependencies.push(ds);
                proof {
                    pos = pos.push(k as int);
                    assert(pos[pos.len() - 1] == k);
                }
            }
            proof {
                assert forall|i: int|
                    0 <= i < k + 1 && is_last_entry(subqueries@, i) implies exists|a: int|
                    0 <= a < pos.len() && #[trigger] pos[a] == i by {
                    if i < k {
                        let a = choose|a: int| 0 <= a < old_pos.len() && #[trigger] old_pos[a] == i;
                        assert(pos[a] == old_pos[a]);
                    } else {
                        assert(pos[pos.len() - 1] == k);
                    }
                }
            }
            k = k + 1;
        }
        let m = ids.len();
        proof {
            assert forall|a: int, b: int| 0 <= a < m && 0 <= b < m && a != b implies ids@[a]
                != ids@[b] by {
                if a < b {
                    assert(pos[a] < pos[b]);
                    assert(is_last_entry(subqueries@, pos[a]));
                    assert(subqueries@[pos[a]].id != subqueries@[pos[b]].id);
                } else {
                    assert(pos[b] < pos[a]);
                    assert(is_last_entry(subqueries@, pos[b]));
                    assert(subqueries@[pos[b]].id != subqueries@[pos[a]].id);
                }
            }
        }
        let mut dependents: Vec<Vec<usize>> = Vec::new();
        let mut j: usize = 0;
        while j < m
            invariant
                m == ids.len(),
                m == dependencies.len(),
                j <= m,
                dependents.len() == j,
                forall|a: int| 0 <= a < j ==> (#[trigger] dependents@[a])@.no_duplicates(),
                forall|a: int, b: int|
                    0 <= a < j && 0 <= b < dependents@[a].len() ==> #[trigger] dependents@[a]@[b]
                        < m,
                forall|a: int, i: usize|
                    0 <= a < j && i < m ==> (#[trigger] dependents@[a]@.contains(i)
                        <==> dependencies@[i as int]@.contains(ids@[a])),
            decreases m - j,
        {
            let mut users: Vec<usize> = Vec::new();
            let mut i: usize = 0;
            while i < m
                invariant
                    m == ids.len(),
                    m == dependencies.len(),
                    j < m,
                    i <= m,
                    users@.no_duplicates(),
                    forall|b: int| 0 <= b < users@.len() ==> #[trigger] users@[b] < i,
                    forall|c: usize|
                        c < m ==> (#[trigger] users@.contains(c) <==> (c < i
                            && dependencies@[c as int]@.contains(ids@[j as int]))),
                decreases m - i,
            {
                if contains_id(&dependencies[i], ids[j]) {
                    users.push(i);
                }
                i = i + 1;
            }
            dependents.push(users);
            j = j + 1;
        }
        let g = DependencyGraph { ids, dependencies, dependents };
        proof {
            assert forall|x: usize|
                g@.dom().contains(x) <==> exists|i: int|
                    0 <= i < subqueries@.len() && #[trigger] subqueries@[i].id == x by {
                if g@.dom().contains(x) {
                    let a = choose|a: int| 0 <= a < g.ids.len() && g.ids@[a] == x;
                    assert(subqueries@[pos[a]].id == x);
                }
                if exists|i: int| 0 <= i < subqueries@.len() && #[trigger] subqueries@[i].id == x {
                    let i = choose|i: int|
                        0 <= i < subqueries@.len() && #[trigger] subqueries@[i].id == x;
                    let l = lemma_last_entry_exists(subqueries@, i);
                    let a = choose|a: int| 0 <= a < pos.len() && #[trigger] pos[a] == l;
                    assert(g.ids@[a] == x);
                    assert(g.ids@.contains(x));
                }
            }
            assert forall|i: int|
                0 <= i < subqueries@.len() && is_last_entry(subqueries@, i) implies g@[
                #[trigger] subqueries@[i].id] == subqueries@[i].dependencies@.to_set() by {
                let a = choose|a: int| 0 <= a < pos.len() && #[trigger] pos[a] == i;
                g.lemma_view_at(a);
            }
        }
        g
    }

    /// Topologically sort subqueries to get execution order
    /// Returns None if there's a cycle
    pub fn topological_sort(&self) -> (r: Option<Vec<usize>>)
        ensures
            match r {
                Some(order) => is_topo_order(self@, order@),
                None => !has_topo_order(self@),
            },
    {
        proof {
            use_type_invariant(self);
        }
        let n = self.ids.len();
        let ghost ids = self.ids@;
        let ghost deps = self.dependencies@;
        let mut indeg: Vec<usize> = Vec::new();
        let mut order: Vec<usize> = Vec::new();
        let mut i: usize = 0;
        while i < n
            invariant
                self.inv(),
                n == self.ids.len(),
                i <= n,
                indeg.len() == i,
                forall|a: int| 0 <= a < i ==> #[trigger] indeg@[a] == self.dependencies@[a].len(),
                order@.no_duplicates(),
                forall|k: int| 0 <= k < order.len() ==> #[trigger] order@[k] < i,
                forall|c: usize|
                    c < n ==> (#[trigger] order@.contains(c) <==> (c < i
                        && self.dependencies@[c as int].len() == 0)),
            decreases n - i,
        {
            let d = self.dependencies[i].len();
            indeg.push(d);
            if d == 0 {
                order.push(i);
            }
            i = i + 1;
        }
        let ghost mut popped: Set<usize> = Set::empty();
        proof {
            assert forall|a: int| 0 <= a < n implies count_in(
                #[trigger] self.dependencies@[a]@,
                popped,
            ) == 0 by {
                lemma_count_in_zero(self.dependencies@[a]@);
            }
            lemma_distinct_positions(order@, n as nat);
            assert forall|k: int, d: usize|
                0 <= k < order.len() && #[trigger] self.dependencies@[order@[k] as int]@.contains(
                    d,
                ) implies exists|j: int| 0 <= j < k && self.ids@[order@[j] as int] == d by {
                assert(order@.contains(order@[k]));
            }
        }
        let mut head: usize = 0;
        while head < order.len()
            invariant
                self.inv(),
                n == self.ids.len(),
                indeg.len() == n,
                head <= order.len() <= n,
                order@.no_duplicates(),
                forall|k: int| 0 <= k < order.len() ==> #[trigger] order@[k] < n,
                forall|x: usize|
                    #[trigger] popped.contains(x) <==> exists|j: int|
                        0 <= j < head && self.ids@[order@[j] as int] == x,
                forall|a: int|
                    0 <= a < n ==> count_in(#[trigger] self.dependencies@[a]@, popped)
                        <= self.dependencies@[a].len() && indeg@[a] == self.dependencies@[a].len()
                        - count_in(self.dependencies@[a]@, popped),
                forall|c: usize|
                    c < n ==> (#[trigger] order@.contains(c) <==> count_in(
                        self.dependencies@[c as int]@,
                        popped,
                    ) == self.dependencies@[c as int].len()),
                forall|k: int, d: usize|
                    0 <= k < order.len() && #[trigger] self.dependencies@[order@[k] as int]@.contains(
                        d,
                    ) ==> exists|j: int| 0 <= j < k && self.ids@[order@[j] as int] == d,
            decreases missing(order@, n as nat), order.len() - head,
        {
            let x = order[head];
            let ghost old_popped = popped;
            let ghost old_order = order@;
            let ghost old_missing = missing(order@, n as nat);
            proof {
                assert(!popped.contains(self.ids@[x as int])) by {
                    if popped.contains(self.ids@[x as int]) {
                        let j = choose|j: int|
                            0 <= j < head && self.ids@[order@[j] as int] == self.ids@[x as int];
                        assert(order@[j] == order@[head as int]);
                    }
                }
                popped = popped.insert(self.ids@[x as int]);
                assert forall|a: int| 0 <= a < n implies count_in(
                    #[trigger] self.dependencies@[a]@,
                    popped,
                ) == count_in(self.dependencies@[a]@, old_popped) + if self.dependencies@[a]@.contains(
                    self.ids@[x as int],
                ) {
                    1nat
                } else {
                    0nat
                } by {
                    lemma_count_in_insert(self.dependencies@[a]@, old_popped, self.ids@[x as int]);
                }
            }
            head = head + 1;
            let users = &self.dependents[x];
            proof {
                assert(users@.subrange(0, users.len() as int) =~= users@);
                assert forall|a: int| 0 <= a < n implies count_in(
                    #[trigger] self.dependencies@[a]@,
                    popped,
                ) <= self.dependencies@[a].len() by {
                    lemma_count_in_bounds(self.dependencies@[a]@, popped);
                }
                assert forall|a: int| 0 <= a < n implies users@.contains(a as usize)
                    == self.dependencies@[a]@.contains(self.ids@[x as int]) by {
                    assert(self.dependents@[x as int]@.contains(a as usize)
                        == self.dependencies@[a]@.contains(self.ids@[x as int]));
                }
            }
            let mut t: usize = 0;
            while t < users.len()
                invariant
                    self.inv(),
                    n == self.ids.len(),
                    x < n,
                    users@ == self.dependents@[x as int]@,
                    indeg.len() == n,
                    t <= users.len(),
                    head <= order.len() <= n,
                    order@.no_duplicates(),
                    forall|k: int| 0 <= k < order.len() ==> #[trigger] order@[k] < n,
                    old_order.len() <= order.len(),
                    forall|k: int| 0 <= k < old_order.len() ==> #[trigger] order@[k] == old_order[k],
                    missing(order@, n as nat) <= old_missing,
                    order.len() > old_order.len() ==> missing(order@, n as nat) < old_missing,
                    forall|x2: usize|
                        #[trigger] popped.contains(x2) <==> exists|j: int|
                            0 <= j < head && self.ids@[order@[j] as int] == x2,
                    forall|a: int|
                        0 <= a < n ==> count_in(#[trigger] self.dependencies@[a]@, popped)
                            <= self.dependencies@[a].len(),
                    forall|a: int|
                        0 <= a < n ==> #[trigger] indeg@[a] == self.dependencies@[a].len()
                            - count_in(self.dependencies@[a]@, popped) + if users@.subrange(
                            t as int,
                            users.len() as int,
                        ).contains(a as usize) {
                            1int
                        } else {
                            0int
                        },
                    forall|c: usize|
                        c < n ==> (#[trigger] order@.contains(c) <==> (indeg@[c as int] == 0
                            && !users@.subrange(t as int, users.len() as int).contains(c))),
                    forall|k: int, d: usize|
                        0 <= k < order.len() && #[trigger] self.dependencies@[order@[k] as int]@.contains(
                            d,
                        ) ==> exists|j: int| 0 <= j < k && self.ids@[order@[j] as int] == d,
                decreases users.len() - t,
            {
                let c = users[t];
                proof {
                    assert(users@.subrange(t as int, users.len() as int).contains(c)) by {
                        assert(users@.subrange(t as int, users.len() as int)[0] == c);
                    }
                }
                indeg.set(c, indeg[c] - 1);
                proof {
                    assert forall|a: usize|
                        a < n implies users@.subrange(t as int, users.len() as int).contains(a)
                        == (a == c || users@.subrange(t + 1, users.len() as int).contains(a)) by {
                        let s0 = users@.subrange(t as int, users.len() as int);
                        let s1 = users@.subrange(t + 1, users.len() as int);
                        if s0.contains(a) {
                            let k = choose|k: int| 0 <= k < s0.len() && s0[k] == a;
                            if k > 0 {
                                assert(s1[k - 1] == a);
                            }
                        }
                        if s1.contains(a) {
                            let k = choose|k: int| 0 <= k < s1.len() && s1[k] == a;
                            assert(s0[k + 1] == a);
                        }
                    }
                    assert(!users@.subrange(t + 1, users.len() as int).contains(c)) by {
                        let s1 = users@.subrange(t + 1, users.len() as int);
                        if s1.contains(c) {
                            let k = choose|k: int| 0 <= k < s1.len() && s1[k] == c;
                            assert(users@[t + 1 + k] == users@[t as int]);
                        }
                    }
                }
                if indeg[c] == 0 {
                    let ghost pre = order@;
                    proof {
                        assert(!order@.contains(c));
                        lemma_count_in_bounds(self.dependencies@[c as int]@, popped);
                        lemma_missing_push(order@, c, n as nat);
                    }
                    order.push(c);
                    proof {
                        lemma_distinct_positions(order@, n as nat);
                        assert forall|x2: usize|
                            #[trigger] popped.contains(x2) <==> exists|j: int|
                                0 <= j < head && self.ids@[order@[j] as int] == x2 by {
                            if popped.contains(x2) {
                                let j = choose|j: int| 0 <= j < head && self.ids@[pre[j] as int] == x2;
                                assert(order@[j] == pre[j]);
                            }
                            if exists|j: int| 0 <= j < head && self.ids@[order@[j] as int] == x2 {
                                let j = choose|j: int|
                                    0 <= j < head && self.ids@[order@[j] as int] == x2;
                                assert(order@[j] == pre[j]);
                            }
                        }
                        assert forall|d: usize|
                            #[trigger] self.dependencies@[c as int]@.contains(d) implies exists|j: int|
                            0 <= j < pre.len() && self.ids@[order@[j] as int] == d by {
                            let k = choose|k: int|
                                0 <= k < self.dependencies@[c as int].len()
                                    && self.dependencies@[c as int]@[k] == d;
                            assert(popped.contains(self.dependencies@[c as int]@[k]));
                            let j = choose|j: int|
                                0 <= j < head && self.ids@[pre[j] as int] == d;
                            assert(order@[j] == pre[j]);
                        }
                        assert forall|k: int, d: usize|
                            0 <= k < order.len() && #[trigger] self.dependencies@[order@[k] as int]@.contains(
                                d,
                            ) implies exists|j: int| 0 <= j < k && self.ids@[order@[j] as int] == d by {
                            if k < pre.len() {
                                assert(order@[k] == pre[k]);
                                let j = choose|j: int| 0 <= j < k && self.ids@[pre[j] as int] == d;
                                assert(order@[j] == pre[j]);
                            } else {
                                assert(order@[k] == c);
                            }
                        }
                    }
                }
                t = t + 1;
            }
            proof {
                assert(users@.subrange(users.len() as int, users.len() as int) =~= Seq::<
                    usize,
                >::empty());
            }
        }
        proof {
            lemma_distinct_positions(order@, n as nat);
        }
        if order.len() < n {
            proof {
                let c = choose|c: usize| c < n && !order@.contains(c);
                assert forall|y: usize|
                    self@.dom().contains(y) && !popped.contains(y) implies exists|d: usize|
                    #[trigger] self@[y].contains(d) && !popped.contains(d) by {
                    let p = choose|p: int| 0 <= p < self.ids.len() && self.ids@[p] == y;
                    self.lemma_view_at(p);
                    assert(!order@.contains(p as usize)) by {
                        if order@.contains(p as usize) {
                            let j = choose|j: int| 0 <= j < order.len() && order@[j] == p as usize;
                            assert(popped.contains(self.ids@[order@[j] as int]));
                        }
                    }
                    lemma_count_in_bounds(self.dependencies@[p]@, popped);
                    let k = choose|k: int|
                        0 <= k < self.dependencies@[p].len() && !popped.contains(
                            self.dependencies@[p]@[k],
                        );
                    assert(self@[y].contains(self.dependencies@[p]@[k]));
                }
                self.lemma_view_at(c as int);
                assert(!popped.contains(self.ids@[c as int])) by {
                    if popped.contains(self.ids@[c as int]) {
                        let j = choose|j: int|
                            0 <= j < head && self.ids@[order@[j] as int] == self.ids@[c as int];
                        assert(order@[j] == c);
                    }
                }
                lemma_stuck_has_no_order(self@, popped, self.ids@[c as int]);
            }
            return None;
        }
        let mut out: Vec<usize> = Vec::new();
        let mut k: usize = 0;
        while k < n
            invariant
                self.inv(),
                n == self.ids.len(),
                order.len() == n,
                k <= n,
                forall|k2: int| 0 <= k2 < order.len() ==> #[trigger] order@[k2] < n,
                out.len() == k,
                forall|a: int| 0 <= a < k ==> #[trigger] out@[a] == self.ids@[order@[a] as int],
            decreases n - k,
        {
            out.push(self.ids[order[k]]);
            k = k + 1;
        }
        proof {
            assert(out@.no_duplicates()) by {
                assert forall|a: int, b: int|
                    0 <= a < out.len() && 0 <= b < out.len() && a != b implies out@[a] != out@[b] by {
                    assert(order@[a] != order@[b]);
                }
            }
            assert forall|y: usize| #[trigger] out@.contains(y) <==> self@.dom().contains(y) by {
                if out@.contains(y) {
                    let a = choose|a: int| 0 <= a < out.len() && out@[a] == y;
                    self.lemma_view_at(order@[a] as int);
                }
                if self@.dom().contains(y) {
                    let p = choose|p: int| 0 <= p < self.ids.len() && self.ids@[p] == y;
                    assert(order@.contains(p as usize));
                    let a = choose|a: int| 0 <= a < order.len() && order@[a] == p as usize;
                    assert(out@[a] == y);
                }
            }
            assert forall|a: int, d: usize|
                0 <= a < out.len() && #[trigger] self@[out@[a]].contains(d) implies exists|j: int|
                0 <= j < a && out@[j] == d by {
                self.lemma_view_at(order@[a] as int);
                assert(self.dependencies@[order@[a] as int]@.contains(d));
                let j = choose|j: int| 0 <= j < a && self.ids@[order@[j] as int] == d;
                assert(out@[j] == d);
            }
        }
        Some(out)
    }
}

/// The levels as sequences of ids.
pub open spec fn levels_view(v: Seq<Vec<usize>>) -> Seq<Seq<usize>> {
    v.map_values(|l: Vec<usize>| l@)
}

proof fn lemma_before_push(levels: Seq<Seq<usize>>, l: Seq<usize>, k: int)
    requires
        0 <= k <= levels.len(),
    ensures
        before(levels.push(l), k) == before(levels, k),
        forall|x: usize|
            #[trigger] before(levels.push(l), levels.len() + 1int).contains(x) <==> (before(
                levels,
                levels.len() as int,
            ).contains(x) || l.contains(x)),
{
    let l2 = levels.push(l);
    assert forall|x: usize| before(l2, k).contains(x) <==> before(levels, k).contains(x) by {
        if before(l2, k).contains(x) {
            let j = choose|j: int| 0 <= j < k && #[trigger] l2[j].contains(x);
            assert(levels[j].contains(x));
        }
        if before(levels, k).contains(x) {
            let j = choose|j: int| 0 <= j < k && #[trigger] levels[j].contains(x);
            assert(l2[j].contains(x));
        }
    }
    assert(before(l2, k) =~= before(levels, k));
    let m = levels.len() as int;
    assert forall|x: usize|
        #[trigger] before(l2, m + 1).contains(x) <==> (before(levels, m).contains(x) || l.contains(
            x,
        )) by {
        if before(l2, m + 1).contains(x) {
            let j = choose|j: int| 0 <= j < m + 1 && #[trigger] l2[j].contains(x);
            if j < m {
                assert(levels[j].contains(x));
            } else {
                assert(l2[j] == l);
            }
        }
        if before(levels, m).contains(x) {
            let j = choose|j: int| 0 <= j < m && #[trigger] levels[j].contains(x);
            assert(l2[j].contains(x));
        }
        if l.contains(x) {
            assert(l2[m] == l);
            assert(l2[m].contains(x));
        }
    }
}

impl DependencyGraph {
    /// The node at position `p` is not done and all it depends on is done.
    closed spec fn ready(&self, done: Set<usize>, p: int) -> bool {
        !done.contains(self.ids@[p]) && self.dependencies@[p]@.to_set().subset_of(done)
    }

    /// Group subqueries into levels where queries in the same level
    /// can be executed in parallel
    pub fn execution_levels(&self) -> (r: Option<Vec<Vec<usize>>>)
        ensures
            match r {
                Some(levels) => is_level_split(self@, levels_view(levels@)),
                None => !has_topo_order(self@),
            },
    {
        proof {
            use_type_invariant(self);
        }
        let n = self.ids.len();
        let mut indeg: Vec<usize> = Vec::new();
        let mut removed: Vec<bool> = Vec::new();
        let mut i: usize = 0;
        while i < n
            invariant
                self.inv(),
                n == self.ids.len(),
                i <= n,
                indeg.len() == i,
                removed.len() == i,
                forall|a: int| 0 <= a < i ==> #[trigger] indeg@[a] == self.dependencies@[a].len(),
                forall|a: int| 0 <= a < i ==> !#[trigger] removed@[a],
            decreases n - i,
        {
            indeg.push(self.dependencies[i].len());
            removed.push(false);
            i = i + 1;
        }
        let mut remaining: usize = n;
        let mut levels: Vec<Vec<usize>> = Vec::new();
        let ghost mut done: Set<usize> = Set::empty();
        let ghost mut gone: Seq<usize> = Seq::empty();
        proof {
            lemma_missing_empty(n as nat);
            assert forall|a: int| 0 <= a < n implies count_in(
                #[trigger] self.dependencies@[a]@,
                done,
            ) == 0 by {
                lemma_count_in_zero(self.dependencies@[a]@);
            }
            assert(before(levels_view(levels@), 0) =~= Set::<usize>::empty());
        }
        while remaining > 0
            invariant
                self.inv(),
                n == self.ids.len(),
                indeg.len() == n,
                removed.len() == n,
                gone.no_duplicates(),
                forall|k: int| 0 <= k < gone.len() ==> #[trigger] gone[k] < n,
                forall|a: usize| a < n ==> (#[trigger] removed@[a as int] <==> gone.contains(a)),
                remaining == missing(gone, n as nat),
                forall|x: usize|
                    #[trigger] done.contains(x) <==> exists|p: int|
                        0 <= p < n && removed@[p] && self.ids@[p] == x,
                forall|a: int|
                    0 <= a < n && !removed@[a] ==> count_in(#[trigger] self.dependencies@[a]@, done)
                        <= self.dependencies@[a].len() && indeg@[a] == self.dependencies@[a].len()
                        - count_in(self.dependencies@[a]@, done),
                forall|k: int|
                    0 <= k < levels.len() ==> #[trigger] levels_view(levels@)[k].len() > 0,
                forall|k: int|
                    0 <= k < levels.len() ==> (#[trigger] levels_view(levels@)[k]).no_duplicates(),
                forall|k: int, x: usize|
                    0 <= k < levels.len() && #[trigger] levels_view(levels@)[k].contains(x) ==> {
                        &&& self@.dom().contains(x)
                        &&& !before(levels_view(levels@), k).contains(x)
                        &&& self@[x].subset_of(before(levels_view(levels@), k))
                    },
                forall|k: int, x: usize|
                    0 <= k < levels.len() && self@.dom().contains(x) && !before(
                        levels_view(levels@),
                        k,
                    ).contains(x) && self@[x].subset_of(before(levels_view(levels@), k))
                        ==> #[trigger] levels_view(levels@)[k].contains(x),
                forall|x: usize|
                    #[trigger] before(levels_view(levels@), levels.len() as int).contains(x)
                        <==> done.contains(x),
            decreases remaining,
        {
            // The nodes whose dependencies are all done.
            let mut level: Vec<usize> = Vec::new();
            let mut at: Vec<usize> = Vec::new();
            let mut q: usize = 0;
            while q < n
                invariant
                    self.inv(),
                    n == self.ids.len(),
                    indeg.len() == n,
                    removed.len() == n,
                    q <= n,
                    level.len() == at.len(),
                    at@.no_duplicates(),
                    forall|k: int| 0 <= k < at.len() ==> #[trigger] at@[k] < q,
                    forall|k: int| 0 <= k < at.len() ==> #[trigger] level@[k] == self.ids@[at@[k] as int],
                    forall|c: usize|
                        c < n ==> (#[trigger] at@.contains(c) <==> (c < q && !removed@[c as int]
                            && indeg@[c as int] == 0)),
                decreases n - q,
            {
                if !removed[q] && indeg[q] == 0 {
                    level.push(self.ids[q]);
                    at.push(q);
                }
                q = q + 1;
            }
            // Facts about the level, in terms of the graph.
            proof {
                assert forall|c: usize| c < n implies (at@.contains(c) <==> self.ready(done, c as int)) by {
                    lemma_count_in_bounds(self.dependencies@[c as int]@, done);
                    assert(removed@[c as int] <==> done.contains(self.ids@[c as int])) by {
                        if done.contains(self.ids@[c as int]) {
                            let p = choose|p: int|
                                0 <= p < n && removed@[p] && self.ids@[p] == self.ids@[c as int];
                            assert(p == c);
                        }
                    }
                    if self.dependencies@[c as int]@.to_set().subset_of(done) {
                        assert forall|k: int|
                            0 <= k < self.dependencies@[c as int].len() implies done.contains(
                            #[trigger] self.dependencies@[c as int]@[k],
                        ) by {
                            assert(self.dependencies@[c as int]@.to_set().contains(
                                self.dependencies@[c as int]@[k],
                            ));
                        }
                    }
                }
            }
            if level.len() == 0 {
                proof {
                    lemma_distinct_positions(gone, n as nat);
                    let c = choose|c: usize| c < n && !gone.contains(c);
                    assert forall|y: usize|
                        self@.dom().contains(y) && !done.contains(y) implies exists|d: usize|
                        #[trigger] self@[y].contains(d) && !done.contains(d) by {
                        let p = choose|p: int| 0 <= p < self.ids.len() && self.ids@[p] == y;
                        self.lemma_view_at(p);
                        assert(!at@.contains(p as usize));
                        assert(!self.ready(done, p));
                        let d = choose|d: usize|
                            self.dependencies@[p]@.to_set().contains(d) && !done.contains(d);
                    }
                    self.lemma_view_at(c as int);
                    assert(!done.contains(self.ids@[c as int])) by {
                        if done.contains(self.ids@[c as int]) {
                            let p = choose|p: int|
                                0 <= p < n && removed@[p] && self.ids@[p] == self.ids@[c as int];
                            assert(p == c);
                        }
                    }
                    lemma_stuck_has_no_order(self@, done, self.ids@[c as int]);
                }
                return None;
            }
            let ghost done0 = done;
            let ghost lv = level@;
            let ghost old_levels = levels_view(levels@);
            assert(old_levels.len() == levels.len());
            assert(forall|y: usize| before(old_levels, old_levels.len() as int).contains(y) <==> done0.contains(y));
            proof {
                assert forall|x: usize| lv.contains(x) <==> (self@.dom().contains(x) && !done0.contains(x)
                    && self@[x].subset_of(done0)) by {
                    if lv.contains(x) {
                        let k = choose|k: int| 0 <= k < lv.len() && lv[k] == x;
                        assert(at@.contains(at@[k]));
                        self.lemma_view_at(at@[k] as int);
                    }
                    if self@.dom().contains(x) && !done0.contains(x) && self@[x].subset_of(done0) {
                        let p = choose|p: int| 0 <= p < self.ids.len() && self.ids@[p] == x;
                        self.lemma_view_at(p);
                        assert(self.ready(done0, p));
                        let k = choose|k: int| 0 <= k < at.len() && at@[k] == p as usize;
                        assert(lv[k] == x);
                    }
                }
                assert(lv.no_duplicates()) by {
                    assert forall|a: int, b: int| 0 <= a < lv.len() && 0 <= b < lv.len() && a != b implies lv[a] != lv[b] by {
                        assert(at@[a] != at@[b]);
                    }
                }
            }
            proof {
                assert forall|k: int| 0 <= k < at.len() implies !removed@[#[trigger] at@[k] as int]
                    && self.ready(done0, at@[k] as int) by {
                    assert(at@.contains(at@[k]));
                }
            }
            // Remove the level's nodes, one by one.
            let ghost r0 = remaining;
            let mut t: usize = 0;
            while t < at.len()
                invariant
                    self.inv(),
                    n == self.ids.len(),
                    indeg.len() == n,
                    removed.len() == n,
                    t <= at.len(),
                    at@.no_duplicates(),
                    forall|k: int| 0 <= k < at.len() ==> #[trigger] at@[k] < n,
                    forall|k: int| 0 <= k < at.len() ==> self.ready(done0, #[trigger] at@[k] as int),
                    gone.no_duplicates(),
                    forall|k: int| 0 <= k < gone.len() ==> #[trigger] gone[k] < n,
                    forall|a: usize| a < n ==> (#[trigger] removed@[a as int] <==> gone.contains(a)),
                    remaining == missing(gone, n as nat),
                    remaining + t == r0,
                    forall|k: int| t <= k < at.len() ==> !#[trigger] removed@[at@[k] as int],
                    forall|x: usize|
                        #[trigger] done.contains(x) <==> exists|p: int|
                            0 <= p < n && removed@[p] && self.ids@[p] == x,
                    forall|x: usize|
                        #[trigger] done.contains(x) <==> (done0.contains(x) || exists|k: int|
                            0 <= k < t && self.ids@[at@[k] as int] == x),
                    forall|a: int|
                        0 <= a < n && !removed@[a] ==> count_in(
                            #[trigger] self.dependencies@[a]@,
                            done,
                        ) <= self.dependencies@[a].len() && indeg@[a]
                            == self.dependencies@[a].len() - count_in(self.dependencies@[a]@, done),
                decreases at.len() - t,
            {
                let p = at[t];
                let ghost done_t = done;
                let ghost removed0 = removed@;
                proof {
                    assert(!removed@[at@[t as int] as int]);
                    assert(!done.contains(self.ids@[p as int])) by {
                        if done.contains(self.ids@[p as int]) {
                            let p2 = choose|p2: int|
                                0 <= p2 < n && removed@[p2] && self.ids@[p2] == self.ids@[p as int];
                            assert(p2 == p);
                        }
                    }
                    assert(!gone.contains(p));
                    lemma_missing_push(gone, p, n as nat);
                    gone = gone.push(p);
                    done = done.insert(self.ids@[p as int]);
                    lemma_distinct_positions(gone, n as nat);
                    assert forall|a: int| 0 <= a < n implies count_in(
                        #[trigger] self.dependencies@[a]@,
                        done,
                    ) == count_in(self.dependencies@[a]@, done_t) + if self.dependencies@[a]@.contains(
                        self.ids@[p as int],
                    ) {
                        1nat
                    } else {
                        0nat
                    } by {
                        lemma_count_in_insert(self.dependencies@[a]@, done_t, self.ids@[p as int]);
                        lemma_count_in_bounds(self.dependencies@[a]@, done);
                    }
                }
                removed.set(p, true);
                remaining = remaining - 1;
                proof {
                    assert forall|x: usize|
                        #[trigger] done.contains(x) <==> exists|p2: int|
                            0 <= p2 < n && removed@[p2] && self.ids@[p2] == x by {
                        if done.contains(x) {
                            if x == self.ids@[p as int] {
                                assert(removed@[p as int]);
                            } else {
                                let p2 = choose|p2: int|
                                    0 <= p2 < n && removed0[p2] && self.ids@[p2] == x;
                                assert(removed@[p2]);
                            }
                        }
                        if exists|p2: int| 0 <= p2 < n && removed@[p2] && self.ids@[p2] == x {
                            let p2 = choose|p2: int| 0 <= p2 < n && removed@[p2] && self.ids@[p2] == x;
                            if p2 != p {
                                assert(removed0[p2]);
                            }
                        }
                    }
                }
                let users = &self.dependents[p];
                proof {
                    assert(users@.subrange(0, users.len() as int) =~= users@);
                    assert forall|a: int| 0 <= a < n implies users@.contains(a as usize)
                        == self.dependencies@[a]@.contains(self.ids@[p as int]) by {
                        assert(self.dependents@[p as int]@.contains(a as usize)
                            == self.dependencies@[a]@.contains(self.ids@[p as int]));
                    }
                    assert forall|a: int| 0 <= a < n && !removed@[a] implies count_in(
                        #[trigger] self.dependencies@[a]@,
                        done,
                    ) <= self.dependencies@[a].len() && indeg@[a] == self.dependencies@[a].len()
                        - count_in(self.dependencies@[a]@, done) + if users@.subrange(
                        0,
                        users.len() as int,
                    ).contains(a as usize) {
                        1int
                    } else {
                        0int
                    } by {
                        assert(!removed0[a]);
                        assert(count_in(self.dependencies@[a]@, done_t) <= self.dependencies@[a].len());
                        lemma_count_in_bounds(self.dependencies@[a]@, done);
                    }
                }
                let mut u: usize = 0;
                while u < users.len()
                    invariant
                        self.inv(),
                        n == self.ids.len(),
                        p < n,
                        users@ == self.dependents@[p as int]@,
                        indeg.len() == n,
                        removed.len() == n,
                        u <= users.len(),
                        forall|a: int|
                            0 <= a < n && !removed@[a] ==> count_in(
                                #[trigger] self.dependencies@[a]@,
                                done,
                            ) <= self.dependencies@[a].len() && indeg@[a]
                                == self.dependencies@[a].len() - count_in(self.dependencies@[a]@, done)
                                + if users@.subrange(u as int, users.len() as int).contains(a as usize) {
                                1int
                            } else {
                                0int
                            },
                    decreases users.len() - u,
                {
                    let c = users[u];
                    proof {
                        assert(users@.subrange(u as int, users.len() as int)[0] == c);
                        let s0 = users@.subrange(u as int, users.len() as int);
                        let s1 = users@.subrange(u + 1, users.len() as int);
                        assert forall|a: usize| a < n implies s0.contains(a) == (a == c || s1.contains(a)) by {
                            if s0.contains(a) {
                                let k = choose|k: int| 0 <= k < s0.len() && s0[k] == a;
                                if k > 0 {
                                    assert(s1[k - 1] == a);
                                }
                            }
                            if s1.contains(a) {
                                let k = choose|k: int| 0 <= k < s1.len() && s1[k] == a;
                                assert(s0[k + 1] == a);
                            }
                        }
                        assert(!s1.contains(c)) by {
                            if s1.contains(c) {
                                let k = choose|k: int| 0 <= k < s1.len() && s1[k] == c;
                                assert(users@[u + 1 + k] == users@[u as int]);
                            }
                        }
                    }
                    if !removed[c] {
                        assert(count_in(self.dependencies@[c as int]@, done)
                            <= self.dependencies@[c as int].len());
                        indeg.set(c, indeg[c] - 1);
                    }
                    u = u + 1;
                }
                proof {
                    assert(users@.subrange(users.len() as int, users.len() as int) =~= Seq::<
                        usize,
                    >::empty());
                }
                t = t + 1;
            }
            levels.push(level);
            proof {
                let nl = levels_view(levels@);
                let m = old_levels.len() as int;
                assert(nl =~= old_levels.push(lv));
                assert(nl.len() == levels.len());
                lemma_before_push(old_levels, lv, m);
                assert forall|k: int| 0 <= k <= m implies #[trigger] before(nl, k) == before(old_levels, k) by {
                    lemma_before_push(old_levels, lv, k);
                }
                assert forall|x: usize| done.contains(x) <==> (done0.contains(x) || lv.contains(x)) by {
                    if exists|k: int| 0 <= k < at.len() && self.ids@[at@[k] as int] == x {
                        let k = choose|k: int| 0 <= k < at.len() && self.ids@[at@[k] as int] == x;
                        assert(lv[k] == x);
                    }
                    if lv.contains(x) {
                        let k = choose|k: int| 0 <= k < lv.len() && lv[k] == x;
                        assert(self.ids@[at@[k] as int] == x);
                    }
                }
                assert forall|x: usize|
                    #[trigger] before(nl, nl.len() as int).contains(x) <==> done.contains(x) by {
                    assert(before(nl, m + 1).contains(x) == (before(old_levels, m).contains(x)
                        || lv.contains(x)));
                }
                assert forall|k: int, x: usize|
                    0 <= k < nl.len() && #[trigger] nl[k].contains(x) implies {
                        &&& self@.dom().contains(x)
                        &&& !before(nl, k).contains(x)
                        &&& self@[x].subset_of(before(nl, k))
                    } by {
                    if k == m {
                        assert(nl[k] == lv);
                        assert(before(old_levels, m) =~= done0) by {
                            assert forall|y: usize| before(old_levels, m).contains(y) <==> done0.contains(y) by {
                                assert(before(old_levels, m).contains(y) == done0.contains(y));
                            }
                        }
                    } else {
                        assert(nl[k] == old_levels[k]);
                    }
                }
                assert forall|k: int, x: usize|
                    0 <= k < nl.len() && self@.dom().contains(x) && !before(nl, k).contains(x)
                        && self@[x].subset_of(before(nl, k)) implies #[trigger] nl[k].contains(x) by {
                    if k == m {
                        assert(nl[k] == lv);
                        assert(before(old_levels, m) =~= done0) by {
                            assert forall|y: usize| before(old_levels, m).contains(y) <==> done0.contains(y) by {
                                assert(before(old_levels, m).contains(y) == done0.contains(y));
                            }
                        }
                    } else {
                        assert(nl[k] == old_levels[k]);
                    }
                }
                assert forall|k: int| 0 <= k < nl.len() implies #[trigger] nl[k].len() > 0 && nl[k].no_duplicates() by {
                    if k < m {
                        assert(nl[k] == old_levels[k]);
                    }
                }
            }
        }
        proof {
            lemma_missing_zero(gone, n as nat);
            let nl = levels_view(levels@);
            assert(nl.len() == levels.len());
            assert forall|x: usize| self@.dom().contains(x) implies #[trigger] before(
                nl,
                nl.len() as int,
            ).contains(x) by {
                let p = choose|p: int| 0 <= p < self.ids.len() && self.ids@[p] == x;
                assert(gone.contains(p as usize));
                assert(removed@[p]);
                assert(done.contains(x));
            }
        }
        Some(levels)
    }
}

/// The subqueries a detector finds can always run one after another, in the
/// order they were found: each depends only on subqueries found before it.
/// So the graph built from them has a topological order, and both
/// `topological_sort` and `execution_levels` succeed on it.
pub proof fn lemma_found_subqueries_can_run(found: Seq<SubqueryInfo>, g: Map<usize, Set<usize>>)
    requires
        well_numbered(found),
        forall|x: usize|
            g.dom().contains(x) <==> exists|i: int| 0 <= i < found.len() && #[trigger] found[i].id == x,
        forall|i: int| 0 <= i < found.len() ==> g[#[trigger] found[i].id] == found[i].dependencies@.to_set(),
    ensures
        is_topo_order(g, found.map_values(|s: SubqueryInfo| s.id)),
        has_topo_order(g),
{
    let order = found.map_values(|s: SubqueryInfo| s.id);
    assert forall|k: int| 0 <= k < found.len() implies order[k] == k by {
        assert(found[k].id == k);
    }
    assert forall|x: usize| #[trigger] order.contains(x) <==> g.dom().contains(x) by {
        if order.contains(x) {
            let k = choose|k: int| 0 <= k < order.len() && order[k] == x;
            assert(found[k].id == x);
        }
        if g.dom().contains(x) {
            let i = choose|i: int| 0 <= i < found.len() && #[trigger] found[i].id == x;
            assert(order[i] == x);
        }
    }
    assert forall|i: int, d: usize|
        0 <= i < order.len() && #[trigger] g[order[i]].contains(d) implies exists|j: int|
        0 <= j < i && order[j] == d by {
        assert(found[i].id == i);
        assert(order[i] == found[i].id);
        assert(found[i].dependencies@.to_set().contains(d));
        let t = choose|t: int| 0 <= t < found[i].dependencies.len() && found[i].dependencies@[t] == d;
        assert(d < i);
        assert(order[d as int] == d);
    }
    assert(is_topo_order(g, order));
}

proof fn lemma_count_in_zero(s: Seq<usize>)
    ensures
        count_in(s, Set::empty()) == 0,
    decreases s.len(),
{
    if s.len() > 0 {
        lemma_count_in_zero(s.drop_last());
    }
}

/// The elements of `v`, each once, in the order they first occur.
/// No later entry has the id of entry `i`.
pub open spec fn is_last_entry(s: Seq<SubqueryInfo>, i: int) -> bool {
    forall|j: int| i < j < s.len() ==> #[trigger] s[j].id != s[i].id
}

/// Every id given has a last entry.
proof fn lemma_last_entry_exists(s: Seq<SubqueryInfo>, i: int) -> (l: int)
    requires
        0 <= i < s.len(),
    ensures
        i <= l < s.len(),
        s[l].id == s[i].id,
        is_last_entry(s, l),
    decreases s.len() - i,
{
    if is_last_entry(s, i) {
        i
    } else {
        let j = choose|j: int| i < j < s.len() && #[trigger] s[j].id != s[i].id == false;
        lemma_last_entry_exists(s, j)
    }
}

/// Whether an entry after position `k` has the id of entry `k`.
fn id_given_later(s: &[SubqueryInfo], k: usize) -> (r: bool)
    requires
        k < s@.len(),
    ensures
        r == !is_last_entry(s@, k as int),
{
    let n = s.len();
    let mut j: usize = k + 1;
    while j < n
        invariant
            n == s@.len(),
            k < j <= s@.len(),
            forall|t: int| k < t < j ==> #[trigger] s@[t].id != s@[k as int].id,
        decreases s.len() - j,
    {
        if s[j].id == s[k].id {
            return true;
        }
        j = j + 1;
    }
    false
}

fn distinct_ids(v: &Vec<usize>) -> (r: Vec<usize>)
    ensures
        r@.no_duplicates(),
        r@.to_set() == v@.to_set(),
{
    let mut r: Vec<usize> = Vec::new();
    let mut i: usize = 0;
    while i < v.len()
        invariant
            i <= v.len(),
            r@.no_duplicates(),
            forall|x: usize| r@.contains(x) <==> v@.subrange(0, i as int).contains(x),
        decreases v.len() - i,
    {
        let x = v[i];
        let ghost r0 = r@;
        if !contains_id(&r, x) {
            r.push(x);
        }
        proof {
            assert(forall|y: usize| r@.contains(y) <==> (r0.contains(y) || y == x));
            let s0 = v@.subrange(0, i as int);
            let s1 = v@.subrange(0, i + 1);
            assert forall|y: usize| r@.contains(y) <==> s1.contains(y) by {
                if s1.contains(y) {
                    let k = choose|k: int| 0 <= k < s1.len() && s1[k] == y;
                    if k < i {
                        assert(s0[k] == y);
                    }
                }
                if s0.contains(y) {
                    let k = choose|k: int| 0 <= k < s0.len() && s0[k] == y;
                    assert(s1[k] == y);
                }
                if y == x {
                    assert(s1[i as int] == y);
                }
            }
        }
        i = i + 1;
    }
    assert(v@.subrange(0, v.len() as int) =~= v@);
    assert(r@.to_set() =~= v@.to_set());
    r
}

/// Whether `v` lists `x`.
pub(crate) fn contains_id(v: &Vec<usize>, x: usize) -> (r: bool)
    ensures
        r == v@.contains(x),
{
    let mut i: usize = 0;
    while i < v.len()
        invariant
            i <= v.len(),
            forall|k: int| 0 <= k < i ==> v@[k] != x,
        decreases v.len() - i,
    {
        if v[i] == x {
            return true;
        }
        i = i + 1;
    }
    false
}

} // verus!
