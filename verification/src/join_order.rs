use vstd::prelude::*;

verus! {

/// The vertex that edge `e` leads to from the last vertex of `seen`: the other
/// end of the edge, if the edge starts at that vertex and its other end is a
/// vertex not yet seen. An edge can be walked in either direction.
pub open spec fn next_vertex(
    n: usize,
    edges: Seq<(usize, usize)>,
    seen: Seq<usize>,
    e: usize,
) -> Option<usize> {
    if e >= edges.len() || seen.len() == 0 {
        None
    } else {
        let cur = seen.last();
        let l = edges[e as int].0;
        let r = edges[e as int].1;
        if l == cur && r < n && !seen.contains(r) {
            Some(r)
        } else if r == cur && l < n && !seen.contains(l) {
            Some(l)
        } else {
            None
        }
    }
}

/// The vertices met when the edges `path` are walked one after the other from
/// `start`; `None` if one of them cannot be walked.
pub open spec fn walk(n: usize, edges: Seq<(usize, usize)>, start: usize, path: Seq<usize>) -> Option<
    Seq<usize>,
>
    decreases path.len(),
{
    if path.len() == 0 {
        Some(seq![start])
    } else {
        match walk(n, edges, start, path.drop_last()) {
            Some(seen) => match next_vertex(n, edges, seen, path.last()) {
                Some(v) => Some(seen.push(v)),
                None => None,
            },
            None => None,
        }
    }
}

/// Walking `path` from `start` meets `n` vertices, none of them twice.
pub open spec fn is_hamiltonian(
    n: usize,
    edges: Seq<(usize, usize)>,
    start: usize,
    path: Seq<usize>,
) -> bool {
    start < n && match walk(n, edges, start, path) {
        Some(seen) => seen.len() == n,
        None => false,
    }
}

/// `a` comes no later than `b` in the order of the search: at the first place
/// where they differ `a` takes the edge with the smaller index.
pub open spec fn lex_le(a: Seq<usize>, b: Seq<usize>) -> bool
    decreases a.len(),
{
    if a.len() == 0 {
        true
    } else if b.len() == 0 {
        false
    } else {
        a[0] < b[0] || (a[0] == b[0] && lex_le(a.drop_first(), b.drop_first()))
    }
}

/// `(start, path)` is a Hamiltonian path, and the search meets it before any other.
pub open spec fn is_first_hamiltonian(
    n: usize,
    edges: Seq<(usize, usize)>,
    start: usize,
    path: Seq<usize>,
) -> bool {
    &&& is_hamiltonian(n, edges, start, path)
    &&& forall|s: usize, p: Seq<usize>| #[trigger]
        is_hamiltonian(n, edges, s, p) ==> start < s || (start == s && lex_le(path, p))
}

/// The Hamiltonian path that the search meets first, if there is any.
pub open spec fn first_hamiltonian(n: usize, edges: Seq<(usize, usize)>) -> Option<
    (usize, Seq<usize>),
> {
    if exists|sp: (usize, Seq<usize>)| is_first_hamiltonian(n, edges, sp.0, sp.1) {
        Some(choose|sp: (usize, Seq<usize>)| is_first_hamiltonian(n, edges, sp.0, sp.1))
    } else {
        None
    }
}

/// The number of vertices not yet seen.
pub open spec fn unseen(visited: Seq<bool>) -> nat
    decreases visited.len(),
{
    if visited.len() == 0 {
        0
    } else {
        unseen(visited.drop_last()) + if visited.last() { 0nat } else { 1nat }
    }
}

proof fn lemma_unseen_update(visited: Seq<bool>, v: int)
    requires
        0 <= v < visited.len(),
        !visited[v],
    ensures
        unseen(visited.update(v, true)) + 1 == unseen(visited),
    decreases visited.len(),
{
    let after = visited.update(v, true);
    if v == visited.len() - 1 {
        assert(after.drop_last() =~= visited.drop_last());
    } else {
        assert(after.drop_last() =~= visited.drop_last().update(v, true));
        lemma_unseen_update(visited.drop_last(), v);
    }
}

/// A walk meets one vertex more than it has edges.
pub proof fn lemma_walk_len(n: usize, edges: Seq<(usize, usize)>, start: usize, path: Seq<usize>)
    requires
        walk(n, edges, start, path) is Some,
    ensures
        walk(n, edges, start, path).unwrap().len() == path.len() + 1,
    decreases path.len(),
{
    if path.len() > 0 {
        lemma_walk_len(n, edges, start, path.drop_last());
    }
}

/// A walk uses edges of the graph only, and meets vertices of the graph only.
pub proof fn lemma_walk_in_range(n: usize, edges: Seq<(usize, usize)>, start: usize, path: Seq<usize>)
    requires
        start < n,
        walk(n, edges, start, path) is Some,
    ensures
        forall|i: int| 0 <= i < path.len() ==> path[i] < edges.len(),
        forall|i: int|
            0 <= i < walk(n, edges, start, path).unwrap().len() ==> walk(
                n,
                edges,
                start,
                path,
            ).unwrap()[i] < n,
    decreases path.len(),
{
    if path.len() > 0 {
        lemma_walk_in_range(n, edges, start, path.drop_last());
        let seen = walk(n, edges, start, path.drop_last()).unwrap();
        assert forall|i: int| 0 <= i < path.len() implies path[i] < edges.len() by {
            if i < path.len() - 1 {
                assert(path.drop_last()[i] == path[i]);
            }
        }
    }
}

/// Each edge of a walk joins the vertex that the walk has reached to the
/// vertex that it reaches next, in one direction or the other.
pub proof fn lemma_walk_step(
    n: usize,
    edges: Seq<(usize, usize)>,
    start: usize,
    path: Seq<usize>,
    k: int,
)
    requires
        walk(n, edges, start, path) is Some,
        0 <= k < path.len(),
    ensures
        path[k] < edges.len(),
        walk(n, edges, start, path).unwrap().len() == path.len() + 1,
        ({
            let seen = walk(n, edges, start, path).unwrap();
            let l = edges[path[k] as int].0;
            let r = edges[path[k] as int].1;
            (l == seen[k] && r == seen[k + 1]) || (l != seen[k] && r == seen[k] && l == seen[k + 1])
        }),
    decreases path.len(),
{
    lemma_walk_len(n, edges, start, path);
    lemma_walk_len(n, edges, start, path.drop_last());
    if k < path.len() - 1 {
        lemma_walk_step(n, edges, start, path.drop_last(), k);
        assert(path.drop_last()[k] == path[k]);
    }
}

/// A walk meets no vertex twice.
pub proof fn lemma_walk_distinct(n: usize, edges: Seq<(usize, usize)>, start: usize, path: Seq<usize>)
    requires
        walk(n, edges, start, path) is Some,
    ensures
        walk(n, edges, start, path).unwrap().no_duplicates(),
    decreases path.len(),
{
    if path.len() > 0 {
        lemma_walk_distinct(n, edges, start, path.drop_last());
        let seen = walk(n, edges, start, path.drop_last()).unwrap();
        let v = next_vertex(n, edges, seen, path.last()).unwrap();
        assert(!seen.contains(v));
        let all = seen.push(v);
        assert forall|i: int, j: int| 0 <= i < all.len() && 0 <= j < all.len() && i != j implies all[i]
            != all[j] by {
            if i < seen.len() && j < seen.len() {
                assert(seen[i] != seen[j]);
            } else if i < seen.len() {
                assert(seen.contains(seen[i]));
            } else {
                assert(seen.contains(seen[j]));
            }
        }
    }
}

/// A Hamiltonian path meets `n` different vertices of the graph.
pub proof fn lemma_hamiltonian_visits_each_once(
    n: usize,
    edges: Seq<(usize, usize)>,
    start: usize,
    path: Seq<usize>,
)
    requires
        is_hamiltonian(n, edges, start, path),
    ensures
        walk(n, edges, start, path).unwrap().len() == n,
        path.len() + 1 == n,
        walk(n, edges, start, path).unwrap().no_duplicates(),
        forall|i: int| 0 <= i < n ==> walk(n, edges, start, path).unwrap()[i] < n,
{
    lemma_walk_len(n, edges, start, path);
    lemma_walk_distinct(n, edges, start, path);
    lemma_walk_in_range(n, edges, start, path);
}

/// Where a walk can be made, each beginning of it can be made.
pub proof fn lemma_walk_prefix(
    n: usize,
    edges: Seq<(usize, usize)>,
    start: usize,
    p: Seq<usize>,
    q: Seq<usize>,
)
    requires
        walk(n, edges, start, p + q) is Some,
    ensures
        walk(n, edges, start, p) is Some,
    decreases q.len(),
{
    if q.len() == 0 {
        assert(p + q =~= p);
    } else {
        assert((p + q).drop_last() =~= p + q.drop_last());
        lemma_walk_prefix(n, edges, start, p, q.drop_last());
    }
}

/// A linear join order: the vertices in the order in which they are joined, and
/// the edge that leads from each of them to the next.
#[derive(Debug, PartialEq, Eq)]
pub struct JoinOrder {
    pub vertices: Vec<usize>,
    pub path: Vec<usize>,
}

/// Extends the walk `path`, which has met `order`, to a Hamiltonian path, trying
/// the edges in their order and going back where a choice leads nowhere. On
/// failure the three lists are as they were.
fn extend_path(
    n: usize,
    edges: &Vec<(usize, usize)>,
    visited: &mut Vec<bool>,
    order: &mut Vec<usize>,
    path: &mut Vec<usize>,
) -> (found: bool)
    requires
        old(order).len() > 0,
        old(order)[0] < n,
        walk(n, edges@, old(order)[0], old(path)@) == Some(old(order)@),
        old(visited).len() == n,
        forall|v: int| 0 <= v < n ==> old(visited)[v] == old(order)@.contains(v as usize),
    ensures
        found ==> {
            &&& final(path).len() >= old(path).len()
            &&& final(path)@.subrange(0, old(path).len() as int) == old(path)@
            &&& final(order).len() > 0
            &&& final(order)[0] == old(order)[0]
            &&& walk(n, edges@, old(order)[0], final(path)@) == Some(final(order)@)
            &&& final(order).len() == n
            &&& forall|c: Seq<usize>| #[trigger]
                is_hamiltonian(n, edges@, old(order)[0], old(path)@ + c) ==> lex_le(
                    final(path)@.subrange(old(path).len() as int, final(path).len() as int),
                    c,
                )
        },
        !found ==> {
            &&& final(path)@ == old(path)@
            &&& final(order)@ == old(order)@
            &&& final(visited)@ == old(visited)@
            &&& forall|c: Seq<usize>|
                !(#[trigger] is_hamiltonian(n, edges@, old(order)[0], old(path)@ + c))
        },
    decreases unseen(old(visited)@),
{
    let ghost start = order[0];
    let ghost path0 = path@;
    let ghost order0 = order@;
    let ghost visited0 = visited@;
    if order.len() == n {
        assert(path@.subrange(0, path.len() as int) =~= path@);
        assert(path@.subrange(path.len() as int, path.len() as int) =~= Seq::<usize>::empty());
        return true;
    }
    let cur: usize = order[order.len() - 1];
    let mut e: usize = 0;
    while e < edges.len()
        invariant
            e <= edges.len(),
            path0 == old(path)@,
            order0 == old(order)@,
            visited0 == old(visited)@,
            path@ == path0,
            order@ == order0,
            visited@ == visited0,
            order0.len() > 0,
            order0.len() != n,
            order0[0] == start,
            start < n,
            cur == order0.last(),
            walk(n, edges@, start, path0) == Some(order0),
            visited0.len() == n,
            forall|v: int| 0 <= v < n ==> visited0[v] == order0.contains(v as usize),
            forall|c: Seq<usize>| #[trigger]
                is_hamiltonian(n, edges@, start, path0 + c) ==> c.len() > 0 && c[0] >= e,
        decreases edges.len() - e,
    {
        let l: usize = edges[e].0;
        let r: usize = edges[e].1;
        let next: Option<usize> = if l == cur && r < n && !visited[r] {
            Some(r)
        } else if r == cur && l < n && !visited[l] {
            Some(l)
        } else {
            None
        };
        assert(next == next_vertex(n, edges@, order0, e));
        match next {
            Some(v) => {
                visited.set(v, true);
                order.push(v);
                path.push(e);
                proof {
                    assert(path@.drop_last() =~= path0);
                    assert(visited@ =~= visited0.update(v as int, true));
                    lemma_unseen_update(visited0, v as int);
                    assert forall|w: int| 0 <= w < n implies visited@[w] == order@.contains(
                        w as usize,
                    ) by {
                        if w == v {
                            assert(order@[order0.len() as int] == v);
                        } else if order0.contains(w as usize) {
                            let k = choose|k: int| 0 <= k < order0.len() && order0[k] == w as usize;
                            assert(order@[k] == w as usize);
                        } else if order@.contains(w as usize) {
                            let k = choose|k: int| 0 <= k < order@.len() && order@[k] == w as usize;
                            assert(order0[k] == w as usize);
                        }
                    }
                }
                let ghost path1 = path@;
                let found = extend_path(n, edges, visited, order, path);
                if found {
                    proof {
                        let ext = path@.subrange(path0.len() as int, path.len() as int);
                        let ext1 = path@.subrange(path1.len() as int, path.len() as int);
                        assert(path@.subrange(0, path0.len() as int) =~= path1.subrange(
                            0,
                            path0.len() as int,
                        )) by {
                            assert(path@.subrange(0, path1.len() as int) == path1);
                            assert forall|k: int| 0 <= k < path0.len() implies path@[k]
                                == path1[k] by {
                                assert(path@.subrange(0, path1.len() as int)[k] == path1[k]);
                            }
                        }
                        assert(path1.subrange(0, path0.len() as int) =~= path0);
                        assert(ext[0] == e) by {
                            assert(path@.subrange(0, path1.len() as int)[path0.len() as int] == e);
                        }
                        assert(ext.drop_first() =~= ext1);
                        assert forall|c: Seq<usize>| #[trigger]
                            is_hamiltonian(n, edges@, start, path0 + c) implies lex_le(ext, c) by {
                            if c[0] == e {
                                assert(path0 + c =~= path1 + c.drop_first());
                                assert(is_hamiltonian(n, edges@, start, path1 + c.drop_first()));
                                assert(lex_le(ext1, c.drop_first()));
                            }
                        }
                        assert(path@.subrange(0, path0.len() as int) == path0);
                        assert(order@[0] == start);
                        assert(walk(n, edges@, start, path@) == Some(order@));
                    }
                    return true;
                }
                path.pop();
                order.pop();
                visited.set(v, false);
                proof {
                    assert(path@ =~= path0);
                    assert(order@ =~= order0);
                    assert(visited@ =~= visited0);
                    assert forall|c: Seq<usize>| #[trigger]
                        is_hamiltonian(n, edges@, start, path0 + c) implies c.len() > 0 && c[0] >= e
                        + 1 by {
                        if c[0] == e {
                            assert(path0 + c =~= path1 + c.drop_first());
                        }
                    }
                }
            },
            None => {
                proof {
                    assert forall|c: Seq<usize>| #[trigger]
                        is_hamiltonian(n, edges@, start, path0 + c) implies c.len() > 0 && c[0] >= e
                        + 1 by {
                        if c[0] == e {
                            let path1 = path0.push(e);
                            assert(path0 + c =~= path1 + c.drop_first());
                            lemma_walk_prefix(n, edges@, start, path1, c.drop_first());
                            assert(path1.drop_last() =~= path0);
                        }
                    }
                }
            },
        }
        e += 1;
    }
    proof {
        assert forall|c: Seq<usize>|
            !(#[trigger] is_hamiltonian(n, edges@, start, path0 + c)) by {
            if is_hamiltonian(n, edges@, start, path0 + c) {
                assert(c[0] >= edges.len());
                let path1 = path0.push(c[0]);
                assert(path0 + c =~= path1 + c.drop_first());
                lemma_walk_prefix(n, edges@, start, path1, c.drop_first());
                assert(path1.drop_last() =~= path0);
            }
        }
    }
    false
}

proof fn lemma_lex_antisymmetric(a: Seq<usize>, b: Seq<usize>)
    requires
        a.len() == b.len(),
        lex_le(a, b),
        lex_le(b, a),
    ensures
        a == b,
    decreases a.len(),
{
    if a.len() > 0 {
        lemma_lex_antisymmetric(a.drop_first(), b.drop_first());
        assert(a =~= seq![a[0]] + a.drop_first());
        assert(b =~= seq![b[0]] + b.drop_first());
    } else {
        assert(a =~= b);
    }
}

/// The search meets one Hamiltonian path before all others, and no second one.
pub proof fn lemma_first_hamiltonian_unique(
    n: usize,
    edges: Seq<(usize, usize)>,
    start_a: usize,
    path_a: Seq<usize>,
    start_b: usize,
    path_b: Seq<usize>,
)
    requires
        is_first_hamiltonian(n, edges, start_a, path_a),
        is_first_hamiltonian(n, edges, start_b, path_b),
    ensures
        start_a == start_b,
        path_a == path_b,
{
    assert(is_hamiltonian(n, edges, start_a, path_a));
    assert(is_hamiltonian(n, edges, start_b, path_b));
    lemma_walk_len(n, edges, start_a, path_a);
    lemma_walk_len(n, edges, start_b, path_b);
    lemma_lex_antisymmetric(path_a, path_b);
}

/// Searches for a simple path through all `n` vertices along the given edges:
/// from each start vertex in turn, depth first, trying the edges in their order.
/// Returns the first path found, or `None` when there is none.
pub fn hamiltonian_path(n: usize, edges: &Vec<(usize, usize)>) -> (res: Option<JoinOrder>)
    ensures
        match res {
            Some(jo) => {
                &&& jo.vertices.len() == n
                &&& n > 0
                &&& walk(n, edges@, jo.vertices[0], jo.path@) == Some(jo.vertices@)
                &&& is_first_hamiltonian(n, edges@, jo.vertices[0], jo.path@)
                &&& first_hamiltonian(n, edges@) == Some((jo.vertices[0], jo.path@))
            },
            None => {
                &&& forall|s: usize, p: Seq<usize>| !is_hamiltonian(n, edges@, s, p)
                &&& first_hamiltonian(n, edges@) is None
            },
        },
{
    let mut visited: Vec<bool> = Vec::new();
    let mut i: usize = 0;
    while i < n
        invariant
            i <= n,
            visited.len() == i,
            forall|v: int| 0 <= v < i ==> !visited[v],
        decreases n - i,
    {
        visited.push(false);
        i += 1;
    }
    let mut s: usize = 0;
    while s < n
        invariant
            s <= n,
            visited.len() == n,
            forall|v: int| 0 <= v < n ==> !visited[v],
            forall|t: usize, p: Seq<usize>| t < s ==> !is_hamiltonian(n, edges@, t, p),
        decreases n - s,
    {
        visited.set(s, true);
        let mut order: Vec<usize> = Vec::new();
        order.push(s);
        let mut path: Vec<usize> = Vec::new();
        proof {
            assert(order@ =~= seq![s]);
            assert forall|v: int| 0 <= v < n implies visited[v] == order@.contains(v as usize) by {
                if v == s {
                    assert(order@[0] == s);
                }
            }
        }
        let found = extend_path(n, edges, &mut visited, &mut order, &mut path);
        if found {
            proof {
                let first = path@;
                assert(first.subrange(0, first.len() as int) =~= first);
                assert forall|t: usize, p: Seq<usize>| #[trigger]
                    is_hamiltonian(n, edges@, t, p) implies s < t || (s == t && lex_le(
                    first,
                    p,
                )) by {
                    if t == s {
                        assert(Seq::<usize>::empty() + p =~= p);
                    }
                }
                assert(is_first_hamiltonian(n, edges@, s, first));
                let chosen = choose|sp: (usize, Seq<usize>)|
                    is_first_hamiltonian(n, edges@, sp.0, sp.1);
                assert(is_first_hamiltonian(n, edges@, (s, first).0, (s, first).1));
                lemma_first_hamiltonian_unique(n, edges@, s, first, chosen.0, chosen.1);
            }
            return Some(JoinOrder { vertices: order, path });
        }
        visited.set(s, false);
        proof {
            assert forall|p: Seq<usize>| !is_hamiltonian(n, edges@, s, p) by {
                assert(Seq::<usize>::empty() + p =~= p);
            }
        }
        s += 1;
    }
    None
}

} // verus!
