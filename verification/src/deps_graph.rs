use vstd::prelude::*;

verus! {

/// A directed graph on the nodes `0..g.len()`: `g[u]` lists the successors of `u`, in order.
pub open spec fn graph_of(adj: Seq<Vec<usize>>) -> Seq<Seq<usize>> {
    adj.map_values(|v: Vec<usize>| v@)
}

/// Every successor named in `g` is a node of `g`.
pub open spec fn well_formed(g: Seq<Seq<usize>>) -> bool {
    forall|u: int, k: int| 0 <= u < g.len() && 0 <= k < g[u].len() ==> #[trigger] g[u][k] < g.len()
}

/// `g` has an edge from `u` to `v`.
pub open spec fn edge(g: Seq<Seq<usize>>, u: int, v: int) -> bool {
    0 <= u < g.len() && exists|k: int| 0 <= k < g[u].len() && g[u][k] == v
}

/// `c` is a cycle of `g`: each node has an edge to the next, and the last to the first.
pub open spec fn is_cycle(g: Seq<Seq<usize>>, c: Seq<usize>) -> bool {
    &&& c.len() > 0
    &&& forall|i: int| 0 <= i < c.len() - 1 ==> edge(g, #[trigger] c[i] as int, c[i + 1] as int)
    &&& edge(g, c.last() as int, c[0] as int)
}

/// `g` has no cycle.
pub open spec fn acyclic(g: Seq<Seq<usize>>) -> bool {
    forall|c: Seq<usize>| !is_cycle(g, c)
}

/// The nodes in the domain of `rank` are closed under successors, and every edge among them
/// goes to a node of strictly smaller rank. All ranks are below `next`.
pub open spec fn finished_ok(g: Seq<Seq<usize>>, rank: Map<int, int>, next: int) -> bool {
    &&& forall|u: int| #[trigger] rank.dom().contains(u) ==> 0 <= u < g.len() && rank[u] < next
    &&& forall|u: int, k: int|
        #![trigger rank.dom().contains(u), g[u][k]]
        rank.dom().contains(u) && 0 <= k < g[u].len() ==> rank.dom().contains(g[u][k] as int)
            && rank[g[u][k] as int] < rank[u]
}

/// Every successor of a node on the ancestor stack is finished, is the next node on the stack,
/// is waiting on the frontier one level deeper, or is the exempted pair `(skip_level, skip_node)`.
pub open spec fn successors_accounted(
    g: Seq<Seq<usize>>,
    done: Set<int>,
    anc: Seq<usize>,
    frontier: Seq<(usize, usize)>,
    skip_level: int,
    skip_node: int,
) -> bool {
    forall|i: int, k: int|
        #![trigger anc[i], g[anc[i] as int][k]]
        0 <= i < anc.len() && 0 <= k < g[anc[i] as int].len() ==> {
            let v = g[anc[i] as int][k];
            ||| done.contains(v as int)
            ||| (i + 1 < anc.len() && anc[i + 1] == v)
            ||| (exists|j: int|
                0 <= j < frontier.len() && #[trigger] frontier[j] == (v, (i + 1) as usize))
            ||| (i + 1 == skip_level && v == skip_node)
        }
}

/// The ancestor stack is a path of `g` through distinct unfinished nodes.
pub open spec fn stack_ok(g: Seq<Seq<usize>>, done: Set<int>, anc: Seq<usize>) -> bool {
    &&& forall|i: int| 0 <= i < anc.len() ==> #[trigger] anc[i] < g.len() && !done.contains(
        anc[i] as int,
    )
    &&& forall|i: int, j: int| 0 <= i < j < anc.len() ==> anc[i] != anc[j]
    &&& forall|i: int| 0 <= i < anc.len() - 1 ==> edge(g, #[trigger] anc[i] as int, anc[i + 1] as int)
}

/// Each frontier entry `(v, d)` is a node at depth `d` no deeper than the stack; depths never
/// decrease towards the top, and an entry at depth `d > 0` is a successor of `anc[d - 1]`.
pub open spec fn frontier_ok(
    g: Seq<Seq<usize>>,
    anc: Seq<usize>,
    frontier: Seq<(usize, usize)>,
    root: int,
) -> bool {
    &&& forall|j: int|
        0 <= j < frontier.len() ==> #[trigger] frontier[j].0 < g.len() && frontier[j].1 <= anc.len()
    &&& forall|i: int, j: int|
        0 <= i < j < frontier.len() ==> #[trigger] frontier[i].1 <= #[trigger] frontier[j].1
    &&& forall|j: int|
        0 <= j < frontier.len() ==> (#[trigger] frontier[j]).1 >= 1 ==> edge(
            g,
            anc[frontier[j].1 - 1] as int,
            frontier[j].0 as int,
        )
    &&& forall|j: int| 0 <= j < frontier.len() ==> (#[trigger] frontier[j]).1 == 0 ==> frontier[j].0 == root
}

/// `x` is one of the nodes on the stack `anc`.
pub open spec fn on_stack(anc: Seq<usize>, x: int) -> bool {
    exists|i: int| 0 <= i < anc.len() && anc[i] as int == x
}

/// Once every node of `g` is ranked so that edges go to smaller ranks, `g` has no cycle.
pub proof fn lemma_ranked_acyclic(g: Seq<Seq<usize>>, rank: Map<int, int>, next: int)
    requires
        finished_ok(g, rank, next),
        forall|u: int| 0 <= u < g.len() ==> rank.dom().contains(u),
    ensures
        acyclic(g),
{
    assert forall|c: Seq<usize>| !is_cycle(g, c) by {
        if is_cycle(g, c) {
            let n = c.len();
            assert forall|i: int| 0 <= i < n implies rank.dom().contains(c[i] as int) && rank[c[
                i
            ] as int] <= rank[c[0] as int] - i by {
                lemma_cycle_prefix_rank(g, rank, next, c, i);
            }
            let k = choose|k: int|
                0 <= k < g[c.last() as int].len() && g[c.last() as int][k] == c[0];
            assert(rank.dom().contains(c.last() as int));
            assert(g[c.last() as int][k] == c[0]);
            assert(rank[c[0] as int] < rank[c.last() as int]);
            assert(c.last() == c[n - 1]);
        }
    }
}

proof fn lemma_cycle_prefix_rank(
    g: Seq<Seq<usize>>,
    rank: Map<int, int>,
    next: int,
    c: Seq<usize>,
    i: int,
)
    requires
        finished_ok(g, rank, next),
        forall|u: int| 0 <= u < g.len() ==> rank.dom().contains(u),
        is_cycle(g, c),
        0 <= i < c.len(),
    ensures
        rank.dom().contains(c[i] as int),
        rank[c[i] as int] <= rank[c[0] as int] - i,
    decreases i,
{
    let k0 = choose|k: int| 0 <= k < g[c.last() as int].len() && g[c.last() as int][k] == c[0];
    assert(g[c.last() as int][k0] == c[0]);
    assert(0 <= c[0] < g.len());
    if i > 0 {
        lemma_cycle_prefix_rank(g, rank, next, c, i - 1);
        assert(edge(g, c[i - 1] as int, c[i] as int));
        let u = c[i - 1] as int;
        let k = choose|k: int| 0 <= k < g[u].len() && #[trigger] g[u][k] == c[i];
        assert(g[u][k] == c[i]);
    }
}

/// Moves the whole ancestor stack, top first, into the finished ranking.
proof fn lemma_finish_stack(
    g: Seq<Seq<usize>>,
    rank: Map<int, int>,
    next: int,
    anc: Seq<usize>,
) -> (r: (Map<int, int>, int))
    requires
        finished_ok(g, rank, next),
        stack_ok(g, rank.dom(), anc),
        successors_accounted(g, rank.dom(), anc, Seq::empty(), -1, -1),
    ensures
        finished_ok(g, r.0, r.1),
        forall|x: int| #[trigger] r.0.dom().contains(x) <==> (rank.dom().contains(x) || on_stack(anc, x)),
    decreases anc.len(),
{
    if anc.len() == 0 {
        (rank, next)
    } else {
        let top = anc.last();
        let rank1 = rank.insert(top as int, next);
        let rest = anc.drop_last();
        assert forall|u: int, k: int|
            #![trigger rank1.dom().contains(u), g[u][k]]
            rank1.dom().contains(u) && 0 <= k < g[u].len() implies rank1.dom().contains(
            g[u][k] as int,
        ) && rank1[g[u][k] as int] < rank1[u] by {
            if u == top as int {
                let i = anc.len() - 1;
                assert(anc[i] == top);
                assert(g[anc[i] as int][k] == g[u][k]);
                let v = g[u][k];
                if exists|j: int| 0 <= j < 0 && Seq::<(usize, usize)>::empty()[j] == (v, (i + 1) as usize) {
                }
                assert(rank.dom().contains(v as int));
            } else {
                assert(rank.dom().contains(u));
            }
        }
        assert forall|i: int, k: int|
            #![trigger rest[i], g[rest[i] as int][k]]
            0 <= i < rest.len() && 0 <= k < g[rest[i] as int].len() implies {
            let v = g[rest[i] as int][k];
            ||| rank1.dom().contains(v as int)
            ||| (i + 1 < rest.len() && rest[i + 1] == v)
            ||| (exists|j: int|
                0 <= j < Seq::<(usize, usize)>::empty().len() && #[trigger] Seq::<
                    (usize, usize),
                >::empty()[j] == (v, (i + 1) as usize))
            ||| (i + 1 == -1 && v == -1)
        } by {
            assert(anc[i] == rest[i]);
            let v = g[anc[i] as int][k];
            if i + 1 == rest.len() {
                assert(anc[i + 1] == top);
            }
        }
        assert forall|i: int| 0 <= i < rest.len() implies #[trigger] rest[i] < g.len()
            && !rank1.dom().contains(rest[i] as int) by {
            assert(anc[i] == rest[i]);
            assert(anc[i] != anc[anc.len() - 1]);
        }
        assert forall|i: int| 0 <= i < rest.len() - 1 implies edge(
            g,
            #[trigger] rest[i] as int,
            rest[i + 1] as int,
        ) by {
            assert(anc[i] == rest[i]);
            assert(anc[i + 1] == rest[i + 1]);
        }
        let r = lemma_finish_stack(g, rank1, next + 1, rest);
        assert forall|x: int| #[trigger] r.0.dom().contains(x) <==> (rank.dom().contains(x)
            || on_stack(anc, x)) by {
            if on_stack(anc, x) && x != top as int {
                let j = choose|j: int| 0 <= j < anc.len() && anc[j] as int == x;
                assert(rest[j] == anc[j]);
            }
            if on_stack(rest, x) {
                let j = choose|j: int| 0 <= j < rest.len() && rest[j] as int == x;
                assert(anc[j] == rest[j]);
            }
            if x == top as int {
                assert(anc[anc.len() - 1] as int == x);
            }
        }
        r
    }
}

/// The number of `true` entries of `s`.
pub open spec fn count_true(s: Seq<bool>) -> nat
    decreases s.len(),
{
    if s.len() == 0 {
        0
    } else {
        count_true(s.drop_last()) + if s.last() {
            1nat
        } else {
            0nat
        }
    }
}

proof fn lemma_count_true_bound(s: Seq<bool>)
    ensures
        count_true(s) <= s.len(),
    decreases s.len(),
{
    if s.len() > 0 {
        lemma_count_true_bound(s.drop_last());
    }
}

proof fn lemma_count_true_set(s: Seq<bool>, i: int)
    requires
        0 <= i < s.len(),
        !s[i],
    ensures
        count_true(s.update(i, true)) == count_true(s) + 1,
    decreases s.len(),
{
    let t = s.update(i, true);
    if i == s.len() - 1 {
        assert(t.drop_last() =~= s.drop_last());
    } else {
        assert(t.drop_last() =~= s.drop_last().update(i, true));
        lemma_count_true_set(s.drop_last(), i);
    }
}

/// `n` copies of `false`.
pub fn falses(n: usize) -> (v: Vec<bool>)
    ensures
        v@.len() == n,
        forall|i: int| 0 <= i < n ==> !#[trigger] v@[i],
{
    let mut v: Vec<bool> = Vec::new();
    let mut i: usize = 0;
    while i < n
        invariant
            i <= n,
            v@.len() == i,
            forall|j: int| 0 <= j < i ==> !#[trigger] v@[j],
        decreases n - i,
    {
        v.push(false);
        i = i + 1;
    }
    v
}

/// Pushes `(s, depth)` onto `frontier` for each successor `s`, in order.
fn push_successors(frontier: &mut Vec<(usize, usize)>, succ: &Vec<usize>, depth: usize)
    ensures
        final(frontier)@ == old(frontier)@ + succ@.map_values(|v: usize| (v, depth)),
{
    let ghost start = frontier@;
    let mut k: usize = 0;
    while k < succ.len()
        invariant
            k <= succ@.len(),
            frontier@ == start + succ@.take(k as int).map_values(|v: usize| (v, depth)),
        decreases succ.len() - k,
    {
        frontier.push((succ[k], depth));
        k = k + 1;
        assert(succ@.take(k as int).map_values(|v: usize| (v, depth)) =~= succ@.take(
            (k - 1) as int,
        ).map_values(|v: usize| (v, depth)).push((succ@[k - 1], depth)));
    }
    assert(succ@.take(succ@.len() as int) =~= succ@);
}

/// Searches the graph `adj` for a cycle by depth-first search from each node in turn, keeping
/// the set of visited nodes across searches. The cycle reported, if any, is the part of the
/// current path of ancestors after the node reached a second time, followed by that node.
#[verifier::rlimit(100)]
#[verifier::spinoff_prover]
pub fn find_cycle(adj: &Vec<Vec<usize>>) -> (r: Option<Vec<usize>>)
    requires
        well_formed(graph_of(adj@)),
    ensures
        r matches Some(c) ==> is_cycle(graph_of(adj@), c@),
        r is None ==> acyclic(graph_of(adj@)),
{
    let ghost g = graph_of(adj@);
    let n = adj.len();
    let mut visited = falses(n);
    let ghost mut rank: Map<int, int> = Map::empty();
    let ghost mut next: int = 0;
    let mut root: usize = 0;
    while root < n
        invariant
            g == graph_of(adj@),
            n == g.len(),
            well_formed(g),
            visited@.len() == n,
            root <= n,
            forall|x: int| 0 <= x < n ==> (#[trigger] visited@[x] <==> rank.dom().contains(x)),
            forall|x: int| 0 <= x < root ==> #[trigger] visited@[x],
            finished_ok(g, rank, next),
        decreases n - root,
    {
        let mut frontier: Vec<(usize, usize)> = Vec::new();
        frontier.push((root, 0));
        let mut in_anc = falses(n);
        let mut anc: Vec<usize> = Vec::new();
        proof {
            lemma_count_true_bound(visited@);
        }
        while frontier.len() > 0
            invariant
                g == graph_of(adj@),
                n == g.len(),
                well_formed(g),
                root < n,
                visited@.len() == n,
                in_anc@.len() == n,
                forall|x: int|
                    0 <= x < n ==> (#[trigger] visited@[x] <==> (rank.dom().contains(x)
                        || on_stack(anc@, x))),
                forall|x: int| 0 <= x < n ==> (#[trigger] in_anc@[x] <==> on_stack(anc@, x)),
                forall|x: int| 0 <= x < root ==> #[trigger] visited@[x],
                visited@[root as int] || (frontier@ == seq![(root, 0usize)] && anc@.len() == 0),
                finished_ok(g, rank, next),
                stack_ok(g, rank.dom(), anc@),
                frontier_ok(g, anc@, frontier@, root as int),
                successors_accounted(g, rank.dom(), anc@, frontier@, -1, -1),
                count_true(visited@) <= n,
            decreases n - count_true(visited@), frontier.len(),
        {
            let ghost f_before = frontier@;
            let anc_len = anc.len();
            let (t, d) = frontier.pop().unwrap();
            proof {
                assert(f_before[f_before.len() - 1] == (t, d));
                assert forall|j: int| 0 <= j < frontier@.len() implies #[trigger] frontier@[j].1
                    <= d by {
                    assert(frontier@[j] == f_before[j]);
                }
                assert forall|i: int, k: int|
                    #![trigger anc@[i], g[anc@[i] as int][k]]
                    0 <= i < anc@.len() && 0 <= k < g[anc@[i] as int].len() implies {
                    let v = g[anc@[i] as int][k];
                    ||| rank.dom().contains(v as int)
                    ||| (i + 1 < anc@.len() && anc@[i + 1] == v)
                    ||| (exists|j: int|
                        0 <= j < frontier@.len() && #[trigger] frontier@[j] == (v, (i + 1) as usize))
                    ||| (i + 1 == d as int && v == t as int)
                } by {
                    let v = g[anc@[i] as int][k];
                    assert(rank.dom().contains(v as int) || (i + 1 < anc@.len() && anc@[i + 1]
                        == v) || (exists|j: int|
                        0 <= j < f_before.len() && #[trigger] f_before[j] == (v, (i
                            + 1) as usize)) || (i + 1 == -1 && v == -1));
                    if exists|j: int|
                        0 <= j < f_before.len() && #[trigger] f_before[j] == (v, (i + 1) as usize) {
                        let j = choose|j: int|
                            0 <= j < f_before.len() && #[trigger] f_before[j] == (v, (
                            i + 1) as usize);
                        if j < frontier@.len() {
                            assert(frontier@[j] == f_before[j]);
                        } else {
                            assert(j == f_before.len() - 1);
                            assert(v == t);
                            assert((i + 1) as usize == d);
                            assert(i + 1 <= anc_len);
                            assert(i + 1 == d as int);
                        }
                    }
                }
            }
            while anc.len() > d
                invariant
                    g == graph_of(adj@),
                    n == g.len(),
                    well_formed(g),
                    root < n,
                    visited@.len() == n,
                    in_anc@.len() == n,
                    forall|x: int|
                        0 <= x < n ==> (#[trigger] visited@[x] <==> (rank.dom().contains(x)
                            || on_stack(anc@, x))),
                    forall|x: int| 0 <= x < n ==> (#[trigger] in_anc@[x] <==> on_stack(anc@, x)),
                    forall|x: int| 0 <= x < root ==> #[trigger] visited@[x],
                    visited@[root as int] || (frontier@.len() == 0 && anc@.len() == 0 && t == root
                        && d == 0),
                    finished_ok(g, rank, next),
                    stack_ok(g, rank.dom(), anc@),
                    frontier_ok(g, anc@, frontier@, root as int),
                    successors_accounted(g, rank.dom(), anc@, frontier@, d as int, t as int),
                    forall|j: int| 0 <= j < frontier@.len() ==> #[trigger] frontier@[j].1 <= d,
                    d <= anc@.len(),
                    t < n,
                    d >= 1 ==> edge(g, anc@[d - 1] as int, t as int),
                    d == 0 ==> t == root,
                    count_true(visited@) <= n,
                decreases anc.len(),
            {
                let ghost a0 = anc@;
                let x = anc.pop().unwrap();
                in_anc.set(x, false);
                proof {
                    let top = a0.len() - 1;
                    assert(a0[top] == x);
                    assert forall|k: int| 0 <= k < g[x as int].len() implies rank.dom().contains(
                        #[trigger] g[x as int][k] as int,
                    ) by {
                        assert(a0[top] == x);
                        let v = g[a0[top] as int][k];
                        if exists|j: int|
                            0 <= j < frontier@.len() && #[trigger] frontier@[j] == (v, (top
                                + 1) as usize) {
                            let j = choose|j: int|
                                0 <= j < frontier@.len() && #[trigger] frontier@[j] == (v, (
                                top + 1) as usize);
                            assert(frontier@[j].1 <= d);
                        }
                    }
                    let rank0 = rank;
                    rank = rank.insert(x as int, next);
                    next = next + 1;
                    assert forall|u: int, k: int|
                        #![trigger rank.dom().contains(u), g[u][k]]
                        rank.dom().contains(u) && 0 <= k < g[u].len() implies rank.dom().contains(
                        g[u][k] as int,
                    ) && rank[g[u][k] as int] < rank[u] by {
                        if u == x as int {
                            assert(rank0.dom().contains(g[x as int][k] as int));
                        } else {
                            assert(rank0.dom().contains(u));
                        }
                    }
                    assert forall|x2: int|
                        0 <= x2 < n implies (#[trigger] visited@[x2] <==> (rank.dom().contains(x2)
                        || on_stack(anc@, x2))) by {
                        if on_stack(a0, x2) && x2 != x as int {
                            let j = choose|j: int| 0 <= j < a0.len() && a0[j] as int == x2;
                            assert(anc@[j] == a0[j]);
                        }
                        if on_stack(anc@, x2) {
                            let j = choose|j: int| 0 <= j < anc@.len() && anc@[j] as int == x2;
                            assert(a0[j] == anc@[j]);
                        }
                    }
                    assert forall|x2: int| 0 <= x2 < n implies (#[trigger] in_anc@[x2] <==> on_stack(
                        anc@,
                        x2,
                    )) by {
                        if on_stack(a0, x2) && x2 != x as int {
                            let j = choose|j: int| 0 <= j < a0.len() && a0[j] as int == x2;
                            assert(anc@[j] == a0[j]);
                        }
                        if on_stack(anc@, x2) {
                            let j = choose|j: int| 0 <= j < anc@.len() && anc@[j] as int == x2;
                            assert(a0[j] == anc@[j]);
                            assert(a0[j] != a0[top]);
                        }
                    }
                    assert forall|i: int| 0 <= i < anc@.len() implies #[trigger] anc@[i] < g.len()
                        && !rank.dom().contains(anc@[i] as int) by {
                        assert(anc@[i] == a0[i]);
                        assert(a0[i] != a0[top]);
                    }
                    assert forall|i: int| 0 <= i < anc@.len() - 1 implies edge(
                        g,
                        #[trigger] anc@[i] as int,
                        anc@[i + 1] as int,
                    ) by {
                        assert(anc@[i] == a0[i]);
                        assert(anc@[i + 1] == a0[i + 1]);
                    }
                    assert forall|j: int| 0 <= j < frontier@.len() implies (
                    #[trigger] frontier@[j]).1 >= 1 ==> edge(
                        g,
                        anc@[frontier@[j].1 - 1] as int,
                        frontier@[j].0 as int,
                    ) by {
                        if frontier@[j].1 >= 1 {
                            assert(anc@[frontier@[j].1 - 1] == a0[frontier@[j].1 - 1]);
                        }
                    }
                    assert forall|i: int, k: int|
                        #![trigger anc@[i], g[anc@[i] as int][k]]
                        0 <= i < anc@.len() && 0 <= k < g[anc@[i] as int].len() implies {
                        let v = g[anc@[i] as int][k];
                        ||| rank.dom().contains(v as int)
                        ||| (i + 1 < anc@.len() && anc@[i + 1] == v)
                        ||| (exists|j: int|
                            0 <= j < frontier@.len() && #[trigger] frontier@[j] == (v, (i
                                + 1) as usize))
                        ||| (i + 1 == d as int && v == t as int)
                    } by {
                        assert(anc@[i] == a0[i]);
                        if i + 1 < a0.len() {
                            assert(a0[i + 1] == anc@[i + 1] || i + 1 == top);
                        }
                    }
                    if d >= 1 {
                        assert(anc@[d - 1] == a0[d - 1]);
                    }
                }
            }
            if in_anc[t] {
                // `t` is its own ancestor: report the cycle through it.
                let mut k: usize = 0;
                while anc[k] != t
                    invariant
                        k < anc@.len(),
                        exists|j: int| k <= j < anc@.len() && anc@[j] == t,
                    decreases anc.len() - k,
                {
                    k = k + 1;
                }
                let mut cycle: Vec<usize> = Vec::new();
                let mut i: usize = k + 1;
                while i < anc.len()
                    invariant
                        k < anc@.len(),
                        k + 1 <= i <= anc@.len(),
                        cycle@ == anc@.subrange(k + 1, i as int),
                    decreases anc.len() - i,
                {
                    cycle.push(anc[i]);
                    i = i + 1;
                    assert(cycle@ =~= anc@.subrange(k + 1, i as int));
                }
                cycle.push(t);
                proof {
                    let c = cycle@;
                    assert(c.len() == d - k);
                    assert forall|i2: int| 0 <= i2 < c.len() - 1 implies edge(
                        g,
                        #[trigger] c[i2] as int,
                        c[i2 + 1] as int,
                    ) by {
                        assert(c[i2] == anc@[k + 1 + i2]);
                        if i2 < c.len() - 2 {
                            assert(c[i2 + 1] == anc@[k + 2 + i2]);
                        }
                    }
                    if c.len() >= 2 {
                        assert(c[0] == anc@[k + 1]);
                    }
                }
                return Some(cycle);
            }
            if !visited[t] {
                let ghost vis0 = visited@;
                let ghost a0 = anc@;
                let ghost f0 = frontier@;
                visited.set(t, true);
                in_anc.set(t, true);
                anc.push(t);
                let d1 = anc.len();
                push_successors(&mut frontier, &adj[t], d1);
                proof {
                    lemma_count_true_set(vis0, t as int);
                    assert(visited@ == vis0.update(t as int, true));
                    lemma_count_true_bound(visited@);
                    let succ = g[t as int];
                    assert(adj@[t as int]@ == succ);
                    assert(!on_stack(a0, t as int));
                    assert forall|x2: int|
                        0 <= x2 < n implies (#[trigger] visited@[x2] <==> (rank.dom().contains(x2)
                        || on_stack(anc@, x2))) by {
                        if on_stack(a0, x2) {
                            let j = choose|j: int| 0 <= j < a0.len() && a0[j] as int == x2;
                            assert(anc@[j] == a0[j]);
                        }
                        if on_stack(anc@, x2) && x2 != t as int {
                            let j = choose|j: int| 0 <= j < anc@.len() && anc@[j] as int == x2;
                            assert(a0[j] == anc@[j]);
                        }
                        if x2 == t as int {
                            assert(anc@[a0.len() as int] == t);
                        }
                    }
                    assert forall|x2: int| 0 <= x2 < n implies (#[trigger] in_anc@[x2] <==> on_stack(
                        anc@,
                        x2,
                    )) by {
                        if on_stack(a0, x2) {
                            let j = choose|j: int| 0 <= j < a0.len() && a0[j] as int == x2;
                            assert(anc@[j] == a0[j]);
                        }
                        if on_stack(anc@, x2) && x2 != t as int {
                            let j = choose|j: int| 0 <= j < anc@.len() && anc@[j] as int == x2;
                            assert(a0[j] == anc@[j]);
                        }
                        if x2 == t as int {
                            assert(anc@[a0.len() as int] == t);
                        }
                    }
                    assert forall|i: int| 0 <= i < anc@.len() implies #[trigger] anc@[i] < g.len()
                        && !rank.dom().contains(anc@[i] as int) by {
                        if i < a0.len() {
                            assert(anc@[i] == a0[i]);
                        }
                    }
                    assert forall|i: int, j: int| 0 <= i < j < anc@.len() implies anc@[i]
                        != anc@[j] by {
                        assert(anc@[i] == a0[i]);
                        if j < a0.len() {
                            assert(anc@[j] == a0[j]);
                        } else {
                            assert(a0[i] as int != t as int);
                        }
                    }
                    assert forall|i: int| 0 <= i < anc@.len() - 1 implies edge(
                        g,
                        #[trigger] anc@[i] as int,
                        anc@[i + 1] as int,
                    ) by {
                        assert(anc@[i] == a0[i]);
                        if i + 1 < a0.len() {
                            assert(anc@[i + 1] == a0[i + 1]);
                        }
                    }
                    let fnew = f0 + succ.map_values(|v: usize| (v, d1));
                    assert(frontier@ == fnew);
                    assert forall|j: int| 0 <= j < frontier@.len() implies #[trigger] frontier@[j].0
                        < g.len() && frontier@[j].1 <= anc@.len() by {
                        if j >= f0.len() {
                            assert(frontier@[j] == (succ[j - f0.len()], d1));
                        } else {
                            assert(frontier@[j] == f0[j]);
                        }
                    }
                    assert forall|i: int, j: int| 0 <= i < j < frontier@.len() implies #[trigger] frontier@[i].1
                        <= #[trigger] frontier@[j].1 by {
                        if j >= f0.len() {
                            assert(frontier@[j] == (succ[j - f0.len()], d1));
                        } else {
                            assert(frontier@[j] == f0[j]);
                        }
                        if i >= f0.len() {
                            assert(frontier@[i] == (succ[i - f0.len()], d1));
                        } else {
                            assert(frontier@[i] == f0[i]);
                        }
                    }
                    assert forall|j: int| 0 <= j < frontier@.len() implies (
                    #[trigger] frontier@[j]).1 >= 1 ==> edge(
                        g,
                        anc@[frontier@[j].1 - 1] as int,
                        frontier@[j].0 as int,
                    ) by {
                        if j >= f0.len() {
                            assert(frontier@[j] == (succ[j - f0.len()], d1));
                            assert(anc@[d1 - 1] == t);
                            assert(g[t as int][j - f0.len()] == frontier@[j].0);
                        } else {
                            assert(frontier@[j] == f0[j]);
                            if f0[j].1 >= 1 {
                                assert(anc@[f0[j].1 - 1] == a0[f0[j].1 - 1]);
                            }
                        }
                    }
                    assert forall|j: int| 0 <= j < frontier@.len() implies (
                    #[trigger] frontier@[j]).1 == 0 ==> frontier@[j].0 == root by {
                        if j >= f0.len() {
                            assert(frontier@[j] == (succ[j - f0.len()], d1));
                        } else {
                            assert(frontier@[j] == f0[j]);
                        }
                    }
                    assert forall|i: int, k: int|
                        #![trigger anc@[i], g[anc@[i] as int][k]]
                        0 <= i < anc@.len() && 0 <= k < g[anc@[i] as int].len() implies {
                        let v = g[anc@[i] as int][k];
                        ||| rank.dom().contains(v as int)
                        ||| (i + 1 < anc@.len() && anc@[i + 1] == v)
                        ||| (exists|j: int|
                            0 <= j < frontier@.len() && #[trigger] frontier@[j] == (v, (i
                                + 1) as usize))
                        ||| (i + 1 == -1 && v == -1)
                    } by {
                        let v = g[anc@[i] as int][k];
                        if i == a0.len() {
                            assert(anc@[i] == t);
                            let j = f0.len() + k;
                            assert(frontier@[j] == (succ[k], d1));
                            assert((i + 1) as usize == d1);
                        } else {
                            assert(anc@[i] == a0[i]);
                            assert(rank.dom().contains(v as int) || (i + 1 < a0.len() && a0[i
                                + 1] == v) || (exists|j: int|
                                0 <= j < f0.len() && #[trigger] f0[j] == (v, (i + 1) as usize))
                                || (i + 1 == d as int && v == t as int));
                            if i + 1 < a0.len() {
                                assert(anc@[i + 1] == a0[i + 1]);
                            }
                            if i + 1 == d as int && v == t as int {
                                assert(anc@[i + 1] == t);
                            }
                            if exists|j: int|
                                0 <= j < f0.len() && #[trigger] f0[j] == (v, (i + 1) as usize) {
                                let j = choose|j: int|
                                    0 <= j < f0.len() && #[trigger] f0[j] == (v, (i
                                        + 1) as usize);
                                assert(frontier@[j] == f0[j]);
                            }
                        }
                    }
                }
            } else {
                proof {
                    assert(rank.dom().contains(t as int));
                    assert forall|i: int, k: int|
                        #![trigger anc@[i], g[anc@[i] as int][k]]
                        0 <= i < anc@.len() && 0 <= k < g[anc@[i] as int].len() implies {
                        let v = g[anc@[i] as int][k];
                        ||| rank.dom().contains(v as int)
                        ||| (i + 1 < anc@.len() && anc@[i + 1] == v)
                        ||| (exists|j: int|
                            0 <= j < frontier@.len() && #[trigger] frontier@[j] == (v, (i
                                + 1) as usize))
                        ||| (i + 1 == -1 && v == -1)
                    } by {
                        let v = g[anc@[i] as int][k];
                        assert(rank.dom().contains(v as int) || (i + 1 < anc@.len() && anc@[i
                            + 1] == v) || (exists|j: int|
                            0 <= j < frontier@.len() && #[trigger] frontier@[j] == (v, (i
                                + 1) as usize)) || (i + 1 == d as int && v == t as int));
                    }
                }
            }
        }
        proof {
            assert(frontier@ =~= Seq::<(usize, usize)>::empty());
            let r = lemma_finish_stack(g, rank, next, anc@);
            rank = r.0;
            next = r.1;
        }
        root = root + 1;
    }
    proof {
        assert forall|u: int| 0 <= u < g.len() implies rank.dom().contains(u) by {
            assert(visited@[u]);
        }
        lemma_ranked_acyclic(g, rank, next);
    }
    None
}

} // verus!
