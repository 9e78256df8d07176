//! Ordering the modules of a program so that each comes before the modules
//! it points to, with Kahn's algorithm.
use vstd::prelude::*;

verus! {

/// The graph of a list of edge lists: node `u` points to each node in `edges[u]`.
pub open spec fn graph_of(edges: Seq<Vec<usize>>) -> Seq<Seq<usize>> {
    edges.map_values(|e: Vec<usize>| e@)
}

/// Whether every edge points to a node of the graph.
pub open spec fn edges_ok(g: Seq<Seq<usize>>) -> bool {
    forall|u: int, k: int| 0 <= u < g.len() && 0 <= k < g[u].len() ==> #[trigger] g[u][k] < g.len()
}

/// How often `v` occurs in `s`.
pub open spec fn occurrences(s: Seq<usize>, v: usize) -> nat
    decreases s.len(),
{
    if s.len() == 0 {
        0
    } else {
        occurrences(s.drop_last(), v) + if s.last() == v {
            1nat
        } else {
            0nat
        }
    }
}

/// The number of edges into `v` from the nodes below `m` that are still alive.
pub open spec fn incoming(g: Seq<Seq<usize>>, alive: Seq<bool>, v: usize, m: int) -> nat
    decreases m,
{
    if m <= 0 {
        0
    } else {
        incoming(g, alive, v, m - 1) + if alive[m - 1] {
            occurrences(g[m - 1], v)
        } else {
            0nat
        }
    }
}

/// The number of edges of the nodes below `m`.
pub open spec fn edge_count(g: Seq<Seq<usize>>, m: int) -> nat
    decreases m,
{
    if m <= 0 {
        0
    } else {
        edge_count(g, m - 1) + g[m - 1].len()
    }
}

/// Whether `order` lists every node of `g` once, each before every node it
/// points to.
pub open spec fn is_topological(g: Seq<Seq<usize>>, order: Seq<usize>) -> bool {
    &&& order.len() == g.len()
    &&& order.no_duplicates()
    &&& forall|i: int| 0 <= i < order.len() ==> #[trigger] order[i] < g.len()
    &&& forall|i: int, j: int|
        #![trigger order[i], order[j]]
        0 <= i < order.len() && 0 <= j < order.len() && g[order[i] as int].contains(order[j]) ==> i < j
}

/// The nodes below `n`.
pub open spec fn nodes_below(n: nat) -> Set<usize> {
    Set::new(|v: usize| v < n)
}

proof fn lemma_nodes_below(n: nat)
    requires
        n <= usize::MAX,
    ensures
        nodes_below(n).finite(),
        nodes_below(n).len() == n,
    decreases n,
{
    if n == 0 {
        assert(nodes_below(n) =~= Set::empty());
    } else {
        lemma_nodes_below((n - 1) as nat);
        assert(!nodes_below((n - 1) as nat).contains((n - 1) as usize));
        assert(nodes_below((n - 1) as nat).insert((n - 1) as usize) =~= nodes_below(n));
    }
}

/// A list of distinct nodes below `n` has at most `n` of them, and all of
/// them where it has `n`.
pub proof fn lemma_distinct_nodes(s: Seq<usize>, n: nat)
    requires
        n <= usize::MAX,
        s.no_duplicates(),
        forall|i: int| 0 <= i < s.len() ==> #[trigger] s[i] < n,
    ensures
        s.len() <= n,
        s.len() == n ==> forall|v: usize| v < n ==> s.contains(v),
{
    s.unique_seq_to_set();
    lemma_nodes_below(n);
    assert(s.to_set().subset_of(nodes_below(n))) by {
        assert forall|v: usize| s.to_set().contains(v) implies nodes_below(n).contains(v) by {
            let i = choose|i: int| 0 <= i < s.len() && s[i] == v;
            assert(s[i] < n);
        }
    }
    vstd::set_lib::lemma_len_subset(s.to_set(), nodes_below(n));
    if s.len() == n {
        vstd::set_lib::lemma_subset_equality(s.to_set(), nodes_below(n));
        assert forall|v: usize| v < n implies s.contains(v) by {
            assert(nodes_below(n).contains(v));
            assert(s.to_set().contains(v));
        }
    }
}

proof fn lemma_occurrences_take(s: Seq<usize>, v: usize, k: int)
    requires
        0 <= k < s.len(),
    ensures
        occurrences(s.take(k + 1), v) == occurrences(s.take(k), v) + if s[k] == v {
            1nat
        } else {
            0nat
        },
{
    assert(s.take(k + 1).drop_last() =~= s.take(k));
}

proof fn lemma_occurrences_bound(s: Seq<usize>, v: usize)
    ensures
        occurrences(s, v) <= s.len(),
        occurrences(s, v) > 0 <==> s.contains(v),
    decreases s.len(),
{
    if s.len() > 0 {
        lemma_occurrences_bound(s.drop_last(), v);
        if s.drop_last().contains(v) {
            let i = choose|i: int| 0 <= i < s.drop_last().len() && s.drop_last()[i] == v;
            assert(s[i] == v);
        }
        if s.contains(v) && s.last() != v {
            let i = choose|i: int| 0 <= i < s.len() && s[i] == v;
            assert(s.drop_last()[i] == v);
        }
    }
}

proof fn lemma_occurrences_prefix(s: Seq<usize>, v: usize, k: int)
    requires
        0 <= k <= s.len(),
    ensures
        occurrences(s.take(k), v) <= occurrences(s, v),
    decreases s.len() - k,
{
    if k < s.len() {
        lemma_occurrences_take(s, v, k);
        lemma_occurrences_prefix(s, v, k + 1);
    } else {
        assert(s.take(k) =~= s);
    }
}

proof fn lemma_incoming_bound(g: Seq<Seq<usize>>, alive: Seq<bool>, v: usize, m: int)
    requires
        0 <= m <= g.len(),
    ensures
        incoming(g, alive, v, m) <= edge_count(g, m),
    decreases m,
{
    if m > 0 {
        lemma_incoming_bound(g, alive, v, m - 1);
        lemma_occurrences_bound(g[m - 1], v);
    }
}

proof fn lemma_edge_count_grows(g: Seq<Seq<usize>>, a: int, b: int)
    requires
        0 <= a <= b <= g.len(),
    ensures
        edge_count(g, a) <= edge_count(g, b),
    decreases b - a,
{
    if a < b {
        lemma_edge_count_grows(g, a, b - 1);
    }
}

/// An edge into `v` from a live node below `m` exists exactly where the count is positive.
proof fn lemma_incoming_witness(g: Seq<Seq<usize>>, alive: Seq<bool>, v: usize, m: int)
    requires
        0 <= m <= g.len(),
        m <= alive.len(),
    ensures
        incoming(g, alive, v, m) > 0 <==> exists|u: int| 0 <= u < m && alive[u] && #[trigger] g[u].contains(v),
    decreases m,
{
    if m > 0 {
        lemma_incoming_witness(g, alive, v, m - 1);
        lemma_occurrences_bound(g[m - 1], v);
        if incoming(g, alive, v, m) > 0 && incoming(g, alive, v, m - 1) == 0 {
            assert(alive[m - 1] && g[m - 1].contains(v));
        }
        if exists|u: int| 0 <= u < m && alive[u] && #[trigger] g[u].contains(v) {
            let u = choose|u: int| 0 <= u < m && alive[u] && #[trigger] g[u].contains(v);
            if u < m - 1 {
                assert(incoming(g, alive, v, m - 1) > 0);
            }
        }
    }
}

/// Taking a live node out removes its edges from the count.
proof fn lemma_incoming_remove(g: Seq<Seq<usize>>, alive: Seq<bool>, u: int, v: usize, m: int)
    requires
        0 <= u < alive.len(),
        alive[u],
        0 <= m <= alive.len(),
    ensures
        incoming(g, alive, v, m) == incoming(g, alive.update(u, false), v, m) + if u < m {
            occurrences(g[u], v)
        } else {
            0nat
        },
    decreases m,
{
    if m > 0 {
        lemma_incoming_remove(g, alive, u, v, m - 1);
    }
}

pub proof fn lemma_push_contains(s: Seq<usize>, x: usize, y: usize)
    ensures
        s.push(x).contains(y) <==> s.contains(y) || y == x,
{
    if s.push(x).contains(y) && y != x {
        let i = choose|i: int| 0 <= i < s.push(x).len() && s.push(x)[i] == y;
        assert(s[i] == y);
    }
    if s.contains(y) {
        let i = choose|i: int| 0 <= i < s.len() && s[i] == y;
        assert(s.push(x)[i] == y);
    }
    if y == x {
        assert(s.push(x)[s.len() as int] == x);
    }
}

/// Where every node left out of `order` has an edge into it from another node
/// left out, and some node is left out, no order of the nodes is topological.
proof fn lemma_no_topological_order(g: Seq<Seq<usize>>, order: Seq<usize>)
    requires
        g.len() <= usize::MAX,
        exists|x: usize| x < g.len() && !order.contains(x),
        forall|x: usize|
            x < g.len() && !order.contains(x) ==> exists|u: usize|
                u < g.len() && !order.contains(u) && #[trigger] g[u as int].contains(x),
    ensures
        forall|o: Seq<usize>| !is_topological(g, o),
{
    assert forall|o: Seq<usize>| !is_topological(g, o) by {
        if is_topological(g, o) {
            lemma_distinct_nodes(o, g.len());
            lemma_topological_prefix(g, order, o, o.len() as int);
            let x = choose|x: usize| x < g.len() && !order.contains(x);
            assert(o.contains(x));
            let i = choose|i: int| 0 <= i < o.len() && o[i] == x;
            assert(!order.contains(o[i]));
        }
    }
}

proof fn lemma_topological_prefix(g: Seq<Seq<usize>>, order: Seq<usize>, o: Seq<usize>, m: int)
    requires
        is_topological(g, o),
        forall|v: usize| v < g.len() ==> o.contains(v),
        0 <= m <= o.len(),
        forall|x: usize|
            x < g.len() && !order.contains(x) ==> exists|u: usize|
                u < g.len() && !order.contains(u) && #[trigger] g[u as int].contains(x),
    ensures
        forall|j: int| 0 <= j < m ==> order.contains(#[trigger] o[j]),
    decreases m,
{
    if m > 0 {
        lemma_topological_prefix(g, order, o, m - 1);
        let x = o[m - 1];
        if !order.contains(x) {
            let u = choose|u: usize| u < g.len() && !order.contains(u) && #[trigger] g[u as int].contains(x);
            assert(o.contains(u));
            let i = choose|i: int| 0 <= i < o.len() && o[i] == u;
            assert(g[o[i] as int].contains(o[m - 1]));
            assert(i < m - 1);
            assert(order.contains(o[i]));
        }
    }
}

/// Every node, each once, in Kahn's order: the nodes that no edge points to
/// first, then each node as soon as the last node that points to it has been
/// taken. `None` where the edges close a cycle, so that no order exists.
pub fn kahn_order(edges: &Vec<Vec<usize>>) -> (r: Option<Vec<usize>>)
    requires
        edges_ok(graph_of(edges@)),
        edge_count(graph_of(edges@), edges@.len() as int) <= usize::MAX,
    ensures
        match r {
            Some(order) => is_topological(graph_of(edges@), order@),
            None => forall|o: Seq<usize>| !is_topological(graph_of(edges@), o),
        },
{
    let ghost g = graph_of(edges@);
    let n = edges.len();
    let ghost all_alive = Seq::new(n as nat, |i: int| true);
    let mut deg: Vec<usize> = Vec::new();
    while deg.len() < n
        invariant
            deg@.len() <= n,
            forall|x: int| 0 <= x < deg@.len() ==> deg@[x] == 0,
        decreases n - deg@.len(),
    {
        deg.push(0);
    }
    let mut u: usize = 0;
    while u < n
        invariant
            n == g.len(),
            g == graph_of(edges@),
            all_alive.len() == n,
            forall|i: int| 0 <= i < n ==> all_alive[i],
            edges_ok(g),
            edge_count(g, n as int) <= usize::MAX,
            u <= n,
            deg@.len() == n,
            forall|x: int| 0 <= x < n ==> #[trigger] deg@[x] == incoming(g, all_alive, x as usize, u as int),
        decreases n - u,
    {
        let mut k: usize = 0;
        while k < edges[u].len()
            invariant
                n == g.len(),
                g == graph_of(edges@),
                all_alive.len() == n,
                forall|i: int| 0 <= i < n ==> all_alive[i],
                edges_ok(g),
                edge_count(g, n as int) <= usize::MAX,
                u < n,
                k <= g[u as int].len(),
                deg@.len() == n,
                forall|x: int|
                    0 <= x < n ==> #[trigger] deg@[x] == incoming(g, all_alive, x as usize, u as int)
                        + occurrences(g[u as int].take(k as int), x as usize),
            decreases g[u as int].len() - k,
        {
            let v = edges[u][k];
            proof {
                assert(g[u as int][k as int] == v);
                lemma_incoming_bound(g, all_alive, v, u as int);
                lemma_occurrences_bound(g[u as int].take(k as int), v);
                lemma_edge_count_grows(g, u as int + 1, n as int);
                assert forall|x: int| 0 <= x < n implies #[trigger] occurrences(g[u as int].take(k + 1), x as usize)
                    == occurrences(g[u as int].take(k as int), x as usize) + if g[u as int][k as int] == x as usize {
                        1nat
                    } else {
                        0nat
                    } by {
                    lemma_occurrences_take(g[u as int], x as usize, k as int);
                }
            }
            deg.set(v, deg[v] + 1);
            k = k + 1;
        }
        proof {
            assert(g[u as int].take(k as int) =~= g[u as int]);
        }
        u = u + 1;
    }
    proof {
        assert forall|x: usize| x < n implies #[trigger] deg@[x as int] == incoming(g, all_alive, x, n as int) by {
            assert(deg@[x as int] == incoming(g, all_alive, x as usize, n as int));
        }
    }
    let mut order: Vec<usize> = Vec::new();
    let mut v: usize = 0;
    while v < n
        invariant
            n == g.len(),
            deg@.len() == n,
            v <= n,
            all_alive.len() == n,
            forall|x: usize| x < n ==> #[trigger] deg@[x as int] == incoming(g, all_alive, x, n as int),
            order@.no_duplicates(),
            forall|i: int| 0 <= i < order@.len() ==> #[trigger] order@[i] < v,
            forall|x: usize| x < n ==> (order@.contains(x) <==> (x < v && deg@[x as int] == 0)),
        decreases n - v,
    {
        if deg[v] == 0 {
            proof {
                if order@.contains(v) {
                    let i = choose|i: int| 0 <= i < order@.len() && order@[i] == v;
                }
                assert forall|y: usize| y < n implies order@.push(v).contains(y) <==> order@.contains(y) || y == v by {
                    lemma_push_contains(order@, v, y);
                }
            }
            order.push(v);
        }
        v = v + 1;
    }
    proof {
        assert forall|i: int, j: int|
            #![trigger order@[i], order@[j]]
            0 <= i < order@.len() && 0 <= j < order@.len() implies !g[order@[i] as int].contains(order@[j]) by {
            let y = order@[j];
            lemma_incoming_witness(g, all_alive, y, n as int);
            assert(order@.contains(y));
            assert(order@.contains(order@[i]));
        }
        assert(order@.take(0) =~= Seq::<usize>::empty());
    }
    let mut head: usize = 0;
    let ghost mut alive = all_alive;
    while head < order.len()
        invariant
            n == g.len(),
            g == graph_of(edges@),
            edges_ok(g),
            n <= usize::MAX,
            deg@.len() == n,
            alive.len() == n,
            head <= order@.len(),
            order@.no_duplicates(),
            forall|i: int| 0 <= i < order@.len() ==> #[trigger] order@[i] < n,
            forall|x: usize| x < n ==> (alive[x as int] <==> !order@.take(head as int).contains(x)),
            forall|x: usize| x < n ==> #[trigger] deg@[x as int] == incoming(g, alive, x, n as int),
            forall|x: usize| x < n ==> (order@.contains(x) <==> #[trigger] deg@[x as int] == 0),
            forall|i: int, j: int|
                #![trigger order@[i], order@[j]]
                0 <= i < order@.len() && 0 <= j < order@.len() && g[order@[i] as int].contains(order@[j]) ==> i < j,
        decreases n - head,
    {
        proof {
            lemma_distinct_nodes(order@, n as nat);
        }
        let w = order[head];
        let ghost alive_next = alive.update(w as int, false);
        proof {
            assert(order@.take(head as int + 1) =~= order@.take(head as int).push(w));
            assert(!order@.take(head as int).contains(w)) by {
                if order@.take(head as int).contains(w) {
                    let i = choose|i: int| 0 <= i < head && order@.take(head as int)[i] == w;
                    assert(order@[i] == order@[head as int]);
                }
            }
            assert forall|x: usize| x < n implies #[trigger] incoming(g, alive, x, n as int) == incoming(g, alive_next, x, n as int)
                + occurrences(g[w as int], x) by {
                lemma_incoming_remove(g, alive, w as int, x, n as int);
            }
            assert forall|x: usize| x < n implies (alive_next[x as int] <==> !order@.take(head as int + 1).contains(x)) by {
                lemma_push_contains(order@.take(head as int), w, x);
            }
            assert forall|x: usize| x < n implies occurrences(g[w as int].take(0), x) <= occurrences(g[w as int], x) by {
                lemma_occurrences_prefix(g[w as int], x, 0);
            }
            assert forall|x: usize| x < n implies occurrences(g[w as int].take(0), x) == 0 by {
                assert(g[w as int].take(0) =~= Seq::<usize>::empty());
            }
        }
        head = head + 1;
        let mut k: usize = 0;
        while k < edges[w].len()
            invariant
                n == g.len(),
                g == graph_of(edges@),
                edges_ok(g),
                n <= usize::MAX,
                deg@.len() == n,
                alive_next.len() == n,
                w < n,
                !alive_next[w as int],
                k <= g[w as int].len(),
                head <= order@.len(),
                order@.no_duplicates(),
                forall|i: int| 0 <= i < order@.len() ==> #[trigger] order@[i] < n,
                forall|x: usize| x < n ==> (alive_next[x as int] <==> !order@.take(head as int).contains(x)),
                forall|x: usize|
                    x < n ==> #[trigger] deg@[x as int] == incoming(g, alive_next, x, n as int) + occurrences(g[w as int], x)
                        - occurrences(g[w as int].take(k as int), x),
                forall|x: usize| x < n ==> occurrences(g[w as int].take(k as int), x) <= occurrences(g[w as int], x),
                forall|x: usize| x < n ==> (order@.contains(x) <==> #[trigger] deg@[x as int] == 0),
                forall|i: int, j: int|
                    #![trigger order@[i], order@[j]]
                    0 <= i < order@.len() && 0 <= j < order@.len() && g[order@[i] as int].contains(order@[j]) ==> i < j,
            decreases g[w as int].len() - k,
        {
            let x = edges[w][k];
            proof {
                assert(g[w as int][k as int] == x);
                assert forall|y: usize| y < n implies #[trigger] occurrences(g[w as int].take(k + 1), y)
                    == occurrences(g[w as int].take(k as int), y) + if g[w as int][k as int] == y {
                        1nat
                    } else {
                        0nat
                    } by {
                    lemma_occurrences_take(g[w as int], y, k as int);
                }
                lemma_occurrences_prefix(g[w as int], x, k + 1);
            }
            let ghost deg_before = deg@;
            deg.set(x, deg[x] - 1);
            if deg[x] == 0 {
                proof {
                    assert(!order@.contains(x));
                    lemma_incoming_witness(g, alive_next, x, n as int);
                    let p = order@.len() as int;
                    assert forall|j: int| 0 <= j < p implies !g[x as int].contains(#[trigger] order@[j]) by {
                        let y = order@[j];
                        assert(order@.contains(y));
                        assert(deg_before[y as int] == 0);
                        assert(occurrences(g[w as int].take(k as int), y) <= occurrences(g[w as int], y));
                        assert(incoming(g, alive_next, y, n as int) == 0);
                        lemma_incoming_witness(g, alive_next, y, n as int);
                        assert(alive_next[x as int]) by {
                            if order@.take(head as int).contains(x) {
                                let i = choose|i: int| 0 <= i < head && order@.take(head as int)[i] == x;
                                assert(order@.contains(x));
                            }
                        }
                        if g[x as int].contains(y) {
                            assert(incoming(g, alive_next, y, n as int) > 0);
                        }
                    }
                    assert(!g[x as int].contains(x)) by {
                        assert(alive_next[x as int]) by {
                            if order@.take(head as int).contains(x) {
                                let i = choose|i: int| 0 <= i < head && order@.take(head as int)[i] == x;
                                assert(order@.contains(x));
                            }
                        }
                    }
                }
                let ghost before = order@;
                order.push(x);
                proof {
                    assert(order@.take(head as int) =~= before.take(head as int));
                    assert forall|y: usize| y < n implies (order@.contains(y) <==> before.contains(y) || y == x) by {
                        if order@.contains(y) && y != x {
                            let i = choose|i: int| 0 <= i < order@.len() && order@[i] == y;
                            assert(before[i] == y);
                        }
                        if before.contains(y) {
                            let i = choose|i: int| 0 <= i < before.len() && before[i] == y;
                            assert(order@[i] == y);
                        }
                        if y == x {
                            assert(order@[before.len() as int] == x);
                        }
                    }
                }
            }
            k = k + 1;
        }
        proof {
            assert(g[w as int].take(k as int) =~= g[w as int]);
            alive = alive_next;
        }
    }
    proof {
        lemma_distinct_nodes(order@, n as nat);
        assert(order@.take(head as int) =~= order@);
    }
    if order.len() == n {
        Some(order)
    } else {
        proof {
            assert(exists|x: usize| x < g.len() && !order@.contains(x)) by {
                if forall|x: usize| x < g.len() ==> order@.contains(x) {
                    assert(order@.len() < n);
                    lemma_cover_bound(order@, n as nat);
                }
            }
            assert forall|x: usize| x < g.len() && !order@.contains(x) implies exists|u: usize|
                u < g.len() && !order@.contains(u) && #[trigger] g[u as int].contains(x) by {
                assert(deg@[x as int] == incoming(g, alive, x, n as int));
                assert(deg@[x as int] != 0);
                lemma_incoming_witness(g, alive, x, n as int);
                let u = choose|u: int| 0 <= u < n && alive[u] && #[trigger] g[u].contains(x);
                let uu = u as usize;
                assert(uu as int == u);
                assert(alive[uu as int]);
                assert(!order@.contains(uu));
                assert(g[uu as int].contains(x));
            }
            lemma_no_topological_order(g, order@);
        }
        None
    }
}

/// A list of distinct nodes below `n` that holds every one of them has `n` of them.
proof fn lemma_cover_bound(s: Seq<usize>, n: nat)
    requires
        n <= usize::MAX,
        s.no_duplicates(),
        forall|i: int| 0 <= i < s.len() ==> #[trigger] s[i] < n,
        forall|v: usize| v < n ==> s.contains(v),
    ensures
        s.len() == n,
{
    s.unique_seq_to_set();
    lemma_nodes_below(n);
    assert(s.to_set() =~= nodes_below(n)) by {
        assert forall|v: usize| nodes_below(n).contains(v) implies s.to_set().contains(v) by {
            assert(s.contains(v));
        }
        assert forall|v: usize| s.to_set().contains(v) implies nodes_below(n).contains(v) by {
            let i = choose|i: int| 0 <= i < s.len() && s[i] == v;
            assert(s[i] < n);
        }
    }
}

} // verus!
