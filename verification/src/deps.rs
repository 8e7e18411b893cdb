//! Ordering services by their `depends_on` lists.
//!
//! A graph is a list of nodes, each a name and the names it depends on.
//! The order puts every dependency before the services that depend on it;
//! an unknown dependency or a circular dependency is an error.

use vstd::prelude::*;
use crate::text::{
    lemma_seq_lt_irreflexive, lemma_seq_lt_total, lemma_seq_lt_transitive, seq_lt, strs_view, str_lt,
};

verus! {

/// Spec view of a graph: (name, dependency names) per node.
pub open spec fn gview(g: Seq<(String, Vec<String>)>) -> Seq<(Seq<char>, Seq<Seq<char>>)> {
    Seq::new(g.len(), |i: int| (g[i].0@, strs_view(g[i].1@)))
}

/// No two nodes share a name.
pub open spec fn names_distinct(g: Seq<(Seq<char>, Seq<Seq<char>>)>) -> bool {
    forall|i: int, j: int|
        0 <= i < g.len() && 0 <= j < g.len() && i != j ==> #[trigger] g[i].0 != #[trigger] g[j].0
}

/// Some node has name `s`.
pub open spec fn has_name(g: Seq<(Seq<char>, Seq<Seq<char>>)>, s: Seq<char>) -> bool {
    exists|j: int| 0 <= j < g.len() && #[trigger] g[j].0 == s
}

/// Every dependency names a node of the graph.
pub open spec fn deps_known(g: Seq<(Seq<char>, Seq<Seq<char>>)>) -> bool {
    forall|i: int, d: int| 0 <= i < g.len() && 0 <= d < g[i].1.len() ==> has_name(g, #[trigger] g[i].1[d])
}

/// Node `i` depends on node `j`.
pub open spec fn edge(g: Seq<(Seq<char>, Seq<Seq<char>>)>, i: int, j: int) -> bool {
    0 <= i < g.len() && 0 <= j < g.len() && g[i].1.contains(g[j].0)
}

/// `p` follows dependency edges from node to node.
pub open spec fn is_path(g: Seq<(Seq<char>, Seq<Seq<char>>)>, p: Seq<int>) -> bool {
    &&& p.len() >= 1
    &&& forall|k: int| 0 <= k < p.len() ==> 0 <= #[trigger] p[k] < g.len()
    &&& forall|k: int| 0 <= k < p.len() - 1 ==> edge(g, #[trigger] p[k], p[k + 1])
}

/// `p` is a dependency path that comes back to where it started.
pub open spec fn is_cycle(g: Seq<(Seq<char>, Seq<Seq<char>>)>, p: Seq<int>) -> bool {
    &&& p.len() >= 2
    &&& is_path(g, p)
    &&& p[0] == p[p.len() - 1]
}

pub open spec fn has_cycle(g: Seq<(Seq<char>, Seq<Seq<char>>)>) -> bool {
    exists|p: Seq<int>| is_cycle(g, p)
}

/// `p` is a dependency path whose last node occurs earlier in it.
pub open spec fn is_lasso(g: Seq<(Seq<char>, Seq<Seq<char>>)>, p: Seq<int>) -> bool {
    &&& p.len() >= 2
    &&& is_path(g, p)
    &&& exists|j: int| 0 <= j < p.len() - 1 && #[trigger] p[j] == p[p.len() - 1]
}

/// `names` lists every node once, each after all of its dependencies.
pub open spec fn is_dependency_order(
    g: Seq<(Seq<char>, Seq<Seq<char>>)>,
    names: Seq<Seq<char>>,
) -> bool {
    &&& names.no_duplicates()
    &&& forall|k: int| 0 <= k < names.len() ==> has_name(g, #[trigger] names[k])
    &&& forall|i: int| 0 <= i < g.len() ==> names.contains(#[trigger] g[i].0)
    &&& forall|i: int, d: int, k: int|
        0 <= i < g.len() && 0 <= d < g[i].1.len() && 0 <= k < names.len() && names[k] == g[i].0
            ==> #[trigger] listed_before(names, k, g[i].1[d])
}

/// `s` occurs in `names` before position `k`.
pub open spec fn listed_before(names: Seq<Seq<char>>, k: int, s: Seq<char>) -> bool {
    exists|k2: int| 0 <= k2 < k && #[trigger] names[k2] == s
}

/// `parts` joined with `sep` between consecutive parts.
pub open spec fn join(parts: Seq<Seq<char>>, sep: Seq<char>) -> Seq<char>
    decreases parts.len(),
{
    if parts.len() == 0 {
        Seq::empty()
    } else if parts.len() == 1 {
        parts[0]
    } else {
        join(parts.drop_last(), sep) + sep + parts.last()
    }
}

pub open spec fn unknown_dependency_message(service: Seq<char>, dep: Seq<char>) -> Seq<char> {
    "Service '"@ + service + "' depends on unknown service '"@ + dep + "'"@
}

pub open spec fn cycle_message(names: Seq<Seq<char>>) -> Seq<char> {
    "Circular dependency detected: "@ + join(names, " -> "@)
}

/// Names of the nodes along `p`.
pub open spec fn path_names(g: Seq<(Seq<char>, Seq<Seq<char>>)>, p: Seq<int>) -> Seq<Seq<char>> {
    Seq::new(p.len(), |k: int| g[p[k]].0)
}

/// The error describes a real problem of the graph: an unknown dependency,
/// or a dependency path that returns to a service already on it.
pub open spec fn is_genuine_error(g: Seq<(Seq<char>, Seq<Seq<char>>)>, m: Seq<char>) -> bool {
    ||| exists|i: int, d: int|
        0 <= i < g.len() && 0 <= d < g[i].1.len() && !has_name(g, g[i].1[d]) && m
            == unknown_dependency_message(g[i].0, #[trigger] g[i].1[d])
    ||| exists|p: Seq<int>| is_lasso(g, p) && m == cycle_message(#[trigger] path_names(g, p))
}

// ---------------------------------------------------------------------------
// Laws

/// A path that comes back to one of its nodes contains a cycle.
pub proof fn lemma_lasso_has_cycle(g: Seq<(Seq<char>, Seq<Seq<char>>)>, p: Seq<int>)
    requires
        is_lasso(g, p),
    ensures
        has_cycle(g),
{
    let j = choose|j: int| 0 <= j < p.len() - 1 && #[trigger] p[j] == p[p.len() - 1];
    let c = p.subrange(j, p.len() as int);
    assert(forall|k: int| 0 <= k < c.len() ==> c[k] == p[j + k]);
    assert forall|k: int| 0 <= k < c.len() - 1 implies edge(g, #[trigger] c[k], c[k + 1]) by {
        assert(edge(g, p[j + k], p[j + k + 1]));
    }
    assert(is_cycle(g, c));
}

/// Position of each node in a dependency order.
spec fn pos_of(names: Seq<Seq<char>>, s: Seq<char>) -> int {
    choose|k: int| 0 <= k < names.len() && names[k] == s
}

/// Along a path, positions in a dependency order strictly decrease.
proof fn lemma_order_decreases_along_path(
    g: Seq<(Seq<char>, Seq<Seq<char>>)>,
    names: Seq<Seq<char>>,
    p: Seq<int>,
)
    requires
        names_distinct(g),
        is_dependency_order(g, names),
        is_path(g, p),
        p.len() >= 2,
    ensures
        pos_of(names, g[p[p.len() - 1]].0) < pos_of(names, g[p[0]].0),
        0 <= pos_of(names, g[p[0]].0) < names.len(),
        names[pos_of(names, g[p[0]].0)] == g[p[0]].0,
    decreases p.len(),
{
    let a = p[0];
    let b = p[1];
    assert(edge(g, p[0], p[1]));
    assert(names.contains(g[a].0));
    assert(names.contains(g[b].0));
    let ka = pos_of(names, g[a].0);
    let kb = pos_of(names, g[b].0);
    assert(names[ka] == g[a].0);
    let d = choose|d: int| 0 <= d < g[a].1.len() && g[a].1[d] == g[b].0;
    assert(listed_before(names, ka, g[a].1[d]));
    let k2 = choose|k2: int| 0 <= k2 < ka && names[k2] == g[a].1[d];
    assert(names[kb] == g[b].0);
    assert(names[k2] == names[kb]);
    assert(k2 == kb) by {
        if k2 != kb {
            assert(names.no_duplicates());
        }
    }
    if p.len() > 2 {
        let q = p.drop_first();
        assert forall|k: int| 0 <= k < q.len() - 1 implies edge(g, #[trigger] q[k], q[k + 1]) by {
            assert(edge(g, p[k + 1], p[k + 2]));
        }
        assert forall|k: int| 0 <= k < q.len() implies 0 <= #[trigger] q[k] < g.len() by {
            assert(0 <= p[k + 1] < g.len());
        }
        lemma_order_decreases_along_path(g, names, q);
        assert(q[q.len() - 1] == p[p.len() - 1]);
    }
}

/// A graph that has a dependency order has no cycle.
pub proof fn lemma_dependency_order_excludes_cycle(
    g: Seq<(Seq<char>, Seq<Seq<char>>)>,
    names: Seq<Seq<char>>,
)
    requires
        names_distinct(g),
        is_dependency_order(g, names),
    ensures
        !has_cycle(g),
{
    if has_cycle(g) {
        let p = choose|p: Seq<int>| is_cycle(g, p);
        lemma_order_decreases_along_path(g, names, p);
    }
}

/// A graph that has a dependency order has only known dependencies.
pub proof fn lemma_dependency_order_deps_known(
    g: Seq<(Seq<char>, Seq<Seq<char>>)>,
    names: Seq<Seq<char>>,
)
    requires
        is_dependency_order(g, names),
    ensures
        deps_known(g),
{
    assert forall|i: int, d: int| 0 <= i < g.len() && 0 <= d < g[i].1.len() implies has_name(
        g,
        #[trigger] g[i].1[d],
    ) by {
        assert(names.contains(g[i].0));
        let k = choose|k: int| 0 <= k < names.len() && names[k] == g[i].0;
        assert(listed_before(names, k, g[i].1[d]));
        let k2 = choose|k2: int| 0 <= k2 < k && names[k2] == g[i].1[d];
        assert(has_name(g, names[k2]));
    }
}


// ---------------------------------------------------------------------------
// Depth-first search

/// Number of nodes not yet entered (state 0).
pub open spec fn unvisited(s: Seq<u8>) -> nat
    decreases s.len(),
{
    if s.len() == 0 {
        0
    } else {
        unvisited(s.drop_last()) + if s.last() == 0 {
            1nat
        } else {
            0nat
        }
    }
}

proof fn lemma_unvisited_mono(s0: Seq<u8>, s1: Seq<u8>)
    requires
        s0.len() == s1.len(),
        forall|i: int| 0 <= i < s0.len() && s0[i] != 0 ==> s1[i] != 0,
    ensures
        unvisited(s1) <= unvisited(s0),
    decreases s0.len(),
{
    if s0.len() > 0 {
        lemma_unvisited_mono(s0.drop_last(), s1.drop_last());
    }
}

pub proof fn lemma_unvisited_mark(s: Seq<u8>, n: int, v: u8)
    requires
        0 <= n < s.len(),
        s[n] == 0,
        v != 0,
    ensures
        unvisited(s.update(n, v)) + 1 == unvisited(s),
    decreases s.len(),
{
    if n < s.len() - 1 {
        lemma_unvisited_mark(s.drop_last(), n, v);
        assert(s.update(n, v).drop_last() =~= s.drop_last().update(n, v));
    } else {
        assert(s.update(n, v).drop_last() =~= s.drop_last());
    }
}

/// `s` lists node `i`.
pub open spec fn lists(s: Seq<usize>, i: int) -> bool {
    exists|k: int| 0 <= k < s.len() && #[trigger] s[k] as int == i
}

/// Dependency `d` of the `k`-th finished node was finished before it.
spec fn dep_before(g: Seq<(Seq<char>, Seq<Seq<char>>)>, sorted: Seq<usize>, k: int, d: int) -> bool {
    exists|k2: int| 0 <= k2 < k && #[trigger] g[sorted[k2] as int].0 == g[sorted[k] as int].1[d]
}

/// Bookkeeping of the search: state 2 = finished (listed in `sorted`),
/// state 1 = on the current path `stack`, state 0 = not entered.
spec fn dfs_inv(
    g: Seq<(Seq<char>, Seq<Seq<char>>)>,
    state: Seq<u8>,
    sorted: Seq<usize>,
    stack: Seq<usize>,
) -> bool {
    &&& state.len() == g.len()
    &&& forall|i: int| 0 <= i < state.len() ==> #[trigger] state[i] <= 2
    &&& forall|k: int| 0 <= k < sorted.len() ==> #[trigger] sorted[k] < g.len() && state[sorted[k] as int] == 2
    &&& forall|i: int| 0 <= i < state.len() && #[trigger] state[i] == 2 ==> lists(sorted, i)
    &&& forall|k: int| 0 <= k < stack.len() ==> #[trigger] stack[k] < g.len() && state[stack[k] as int] == 1
    &&& forall|i: int| 0 <= i < state.len() && #[trigger] state[i] == 1 ==> lists(stack, i)
    &&& sorted.no_duplicates()
    &&& stack.no_duplicates()
    &&& forall|k: int, d: int|
        0 <= k < sorted.len() && 0 <= d < g[sorted[k] as int].1.len() ==> #[trigger] dep_before(g, sorted, k, d)
    &&& forall|k: int| 0 <= k < stack.len() - 1 ==> edge(g, #[trigger] stack[k] as int, stack[k + 1] as int)
}

fn find_node(g: &Vec<(String, Vec<String>)>, name: &String) -> (r: Option<usize>)
    ensures
        match r {
            Some(j) => j < g@.len() && gview(g@)[j as int].0 == name@,
            None => !has_name(gview(g@), name@),
        },
{
    let mut j: usize = 0;
    while j < g.len()
        invariant
            j <= g@.len(),
            forall|i: int| 0 <= i < j ==> #[trigger] g@[i].0@ != name@,
        decreases g@.len() - j,
    {
        if g[j].0 == *name {
            return Some(j);
        }
        j += 1;
    }
    proof {
        let gv = gview(g@);
        assert forall|i: int| 0 <= i < gv.len() implies #[trigger] gv[i].0 != name@ by {
            assert(g@[i].0@ != name@);
        }
    }
    None
}

/// `parts` joined by `sep`.
fn join_exec(parts: &Vec<String>, sep: &str) -> (r: String)
    ensures
        r@ == join(strs_view(parts@), sep@),
{
    let mut out = String::new();
    let mut i: usize = 0;
    while i < parts.len()
        invariant
            i <= parts@.len(),
            out@ == join(strs_view(parts@).take(i as int), sep@),
        decreases parts@.len() - i,
    {
        let ghost before = strs_view(parts@).take(i as int);
        if i > 0 {
            out.append(sep);
        }
        out.append(parts[i].as_str());
        proof {
            let after = strs_view(parts@).take(i + 1);
            assert(after.drop_last() =~= before);
            if i == 0 {
                assert(before =~= Seq::<Seq<char>>::empty());
            }
        }
        i += 1;
    }
    assert(strs_view(parts@).take(parts@.len() as int) =~= strs_view(parts@));
    out
}

fn unknown_dependency_message_exec(service: &String, dep: &String) -> (m: String)
    ensures
        m@ == unknown_dependency_message(service@, dep@),
{
    let mut m = String::from_str("Service '");
    m.append(service.as_str());
    m.append("' depends on unknown service '");
    m.append(dep.as_str());
    m.append("'");
    m
}

fn cycle_message_exec(g: &Vec<(String, Vec<String>)>, p: &Vec<usize>) -> (m: String)
    requires
        forall|k: int| 0 <= k < p@.len() ==> #[trigger] p@[k] < g@.len(),
    ensures
        m@ == cycle_message(path_names(gview(g@), Seq::new(p@.len(), |k: int| p@[k] as int))),
{
    let mut names: Vec<String> = Vec::new();
    let mut i: usize = 0;
    while i < p.len()
        invariant
            i <= p@.len(),
            forall|k: int| 0 <= k < p@.len() ==> #[trigger] p@[k] < g@.len(),
            names@.len() == i,
            forall|k: int| 0 <= k < i ==> #[trigger] names@[k]@ == g@[p@[k] as int].0@,
        decreases p@.len() - i,
    {
        names.push(g[p[i]].0.clone());
        i += 1;
    }
    let joined = join_exec(&names, " -> ");
    let mut m = String::from_str("Circular dependency detected: ");
    m.append(joined.as_str());
    proof {
        let q = Seq::new(p@.len(), |k: int| p@[k] as int);
        assert(strs_view(names@) =~= path_names(gview(g@), q));
    }
    m
}

/// The position of the node named `name`.
pub open spec fn node_index(g: Seq<(Seq<char>, Seq<Seq<char>>)>, name: Seq<char>) -> Option<int> {
    if has_name(g, name) {
        Some(choose|j: int| 0 <= j < g.len() && #[trigger] g[j].0 == name)
    } else {
        None
    }
}

/// The positions of a path, as integers.
pub open spec fn path_ints(sk: Seq<usize>) -> Seq<int> {
    Seq::new(sk.len(), |k: int| sk[k] as int)
}

/// The depth-first visit of node `n` from marks `st` (0 unvisited, 1 on the
/// path, 2 done), finished list `so` and path `sk`: an unvisited node is
/// marked, its dependencies are visited in the order listed, and it is then
/// appended to the finished list. A node met again on the path is a cycle,
/// reported with the path; an unknown name is reported with the node that
/// names it.
#[verifier::opaque]
pub open spec fn dfs_visit(
    g: Seq<(Seq<char>, Seq<Seq<char>>)>,
    n: int,
    st: Seq<u8>,
    so: Seq<usize>,
    sk: Seq<usize>,
) -> Result<(Seq<u8>, Seq<usize>), Seq<char>>
    decreases unvisited(st), 1int, 0int,
{
    if !(0 <= n < st.len()) || n >= g.len() {
        Err(Seq::empty())
    } else if st[n] == 2 {
        Ok((st, so))
    } else if st[n] != 0 {
        Err(cycle_message(path_names(g, path_ints(sk.push(n as usize)))))
    } else {
        proof {
            lemma_unvisited_mark(st, n, 1);
        }
        finish_visit(n, dfs_deps(g, n, 0, st.update(n, 1), so, sk.push(n as usize)))
    }
}

/// Node `n` is done once its dependencies were visited: marked 2 and
/// appended to the finished list.
pub open spec fn finish_visit(n: int, r: Result<(Seq<u8>, Seq<usize>), Seq<char>>) -> Result<
    (Seq<u8>, Seq<usize>),
    Seq<char>,
> {
    match r {
        Ok((s2, o2)) => Ok((s2.update(n, 2), o2.push(n as usize))),
        Err(e) => Err(e),
    }
}

proof fn lemma_visit_unvisited(g: Seq<(Seq<char>, Seq<Seq<char>>)>, n: int, st: Seq<u8>, so: Seq<usize>, sk: Seq<usize>)
    requires
        0 <= n < st.len(),
        n < g.len(),
        st[n] == 0,
    ensures
        dfs_visit(g, n, st, so, sk) == finish_visit(n, dfs_deps(g, n, 0, st.update(n, 1), so, sk.push(n as usize))),
{
    reveal_with_fuel(dfs_visit, 1);
    reveal_with_fuel(dfs_deps, 1);
}

proof fn lemma_deps_unknown(g: Seq<(Seq<char>, Seq<Seq<char>>)>, n: int, k: int, st: Seq<u8>, so: Seq<usize>, sk: Seq<usize>)
    requires
        0 <= n < g.len(),
        0 <= k < g[n].1.len(),
        !has_name(g, g[n].1[k]),
    ensures
        dfs_deps(g, n, k, st, so, sk) == Err::<(Seq<u8>, Seq<usize>), Seq<char>>(
            unknown_dependency_message(g[n].0, g[n].1[k]),
        ),
{
    reveal_with_fuel(dfs_visit, 1);
    reveal_with_fuel(dfs_deps, 1);
}

proof fn lemma_deps_child(
    g: Seq<(Seq<char>, Seq<Seq<char>>)>,
    n: int,
    k: int,
    j: int,
    st: Seq<u8>,
    so: Seq<usize>,
    sk: Seq<usize>,
)
    requires
        0 <= n < g.len(),
        0 <= k < g[n].1.len(),
        node_index(g, g[n].1[k]) == Some(j),
    ensures
        dfs_visit(g, j, st, so, sk) matches Err(e) ==> dfs_deps(g, n, k, st, so, sk) == Err::<
            (Seq<u8>, Seq<usize>),
            Seq<char>,
        >(e),
        dfs_visit(g, j, st, so, sk) matches Ok((s2, o2)) ==> (s2.len() == st.len() && unvisited(s2)
            <= unvisited(st) ==> dfs_deps(g, n, k, st, so, sk) == dfs_deps(g, n, k + 1, s2, o2, sk)),
{
    reveal_with_fuel(dfs_visit, 1);
    reveal_with_fuel(dfs_deps, 1);
}

proof fn lemma_deps_done(g: Seq<(Seq<char>, Seq<Seq<char>>)>, n: int, k: int, st: Seq<u8>, so: Seq<usize>, sk: Seq<usize>)
    requires
        0 <= n < g.len(),
        k >= g[n].1.len(),
    ensures
        dfs_deps(g, n, k, st, so, sk) == Ok::<(Seq<u8>, Seq<usize>), Seq<char>>((st, so)),
{
    reveal_with_fuel(dfs_visit, 1);
    reveal_with_fuel(dfs_deps, 1);
}

/// The visits of the dependencies of node `n`, from the `k`-th on; `sk` is
/// the path, ending in `n`.
#[verifier::opaque]
pub open spec fn dfs_deps(
    g: Seq<(Seq<char>, Seq<Seq<char>>)>,
    n: int,
    k: int,
    st: Seq<u8>,
    so: Seq<usize>,
    sk: Seq<usize>,
) -> Result<(Seq<u8>, Seq<usize>), Seq<char>>
    decreases unvisited(st) + 1, 0int, g[n].1.len() - k,
{
    if !(0 <= n < g.len()) || k < 0 || k >= g[n].1.len() {
        Ok((st, so))
    } else {
        match node_index(g, g[n].1[k]) {
            None => Err(unknown_dependency_message(g[n].0, g[n].1[k])),
            Some(j) => match dfs_visit(g, j, st, so, sk) {
                Err(e) => Err(e),
                Ok((s2, o2)) => if s2.len() == st.len() && unvisited(s2) <= unvisited(st) {
                    dfs_deps(g, n, k + 1, s2, o2, sk)
                } else {
                    Err(Seq::empty())
                },
            },
        }
    }
}

/// `a` is a prefix of `b`.
pub open spec fn prefix_of<T>(a: Seq<T>, b: Seq<T>) -> bool {
    a.len() <= b.len() && b.take(a.len() as int) == a
}

#[verifier::rlimit(100)]
fn visit(
    g: &Vec<(String, Vec<String>)>,
    n: usize,
    state: &mut Vec<u8>,
    sorted: &mut Vec<usize>,
    stack: &mut Vec<usize>,
    Ghost(fuel): Ghost<nat>,
) -> (r: Result<(), String>)
    requires
        fuel == unvisited(old(state)@),
        names_distinct(gview(g@)),
        n < g@.len(),
        dfs_inv(gview(g@), old(state)@, old(sorted)@, old(stack)@),
        old(stack)@.len() > 0 ==> edge(gview(g@), old(stack)@.last() as int, n as int),
    ensures
        match r {
            Ok(()) => {
                &&& dfs_inv(gview(g@), final(state)@, final(sorted)@, final(stack)@)
                &&& final(stack)@ == old(stack)@
                &&& final(state)@[n as int] == 2
                &&& forall|i: int|
                    0 <= i < old(state)@.len() && #[trigger] old(state)@[i] != 0 ==> final(state)@[i] != 0
                &&& prefix_of(old(sorted)@, final(sorted)@)
            },
            Err(m) => is_genuine_error(gview(g@), m@),
        },
        gview(g@)[n as int].1.len() == 0 && old(state)@[n as int] == 0 ==> r is Ok && final(sorted)@ == old(
            sorted,
        )@.push(n) && final(state)@ == old(state)@.update(n as int, 2),
        old(state)@[n as int] == 2 ==> r is Ok && final(sorted)@ == old(sorted)@ && final(state)@ == old(state)@,
        dfs_visit(gview(g@), n as int, old(state)@, old(sorted)@, old(stack)@) == match r {
            Ok(_) => Ok::<(Seq<u8>, Seq<usize>), Seq<char>>((final(state)@, final(sorted)@)),
            Err(m) => Err(m@),
        },
    decreases fuel,
{
    let ghost gv = gview(g@);
    let ghost s0 = state@;
    let ghost sorted0 = sorted@;
    let ghost stack0 = stack@;
    if state[n] == 2 {
        assert(sorted@.take(sorted@.len() as int) =~= sorted@);
        assert(dfs_visit(gv, n as int, s0, sorted0, stack0) == Ok::<(Seq<u8>, Seq<usize>), Seq<char>>((s0, sorted0))) by {
            reveal_with_fuel(dfs_visit, 1);
        }
        return Ok(());
    }
    if state[n] == 1 {
        stack.push(n);
        let m = cycle_message_exec(g, stack);
        proof {
            let p = Seq::new(stack@.len(), |k: int| stack@[k] as int);
            assert(path_ints(stack0.push(n)) =~= p);
            assert(dfs_visit(gv, n as int, s0, sorted0, stack0) == Err::<(Seq<u8>, Seq<usize>), Seq<char>>(
                cycle_message(path_names(gv, path_ints(stack0.push(n)))))) by {
                reveal_with_fuel(dfs_visit, 1);
            }
            assert(lists(stack0, n as int));
            let j = choose|j: int| 0 <= j < stack0.len() && #[trigger] stack0[j] as int == n as int;
            assert(p[j] == p[p.len() - 1]);
            assert forall|k: int| 0 <= k < p.len() - 1 implies edge(gv, #[trigger] p[k], p[k + 1]) by {
                if k < p.len() - 2 {
                    assert(edge(gv, stack0[k] as int, stack0[k + 1] as int));
                }
            }
            assert(is_lasso(gv, p));
        }
        return Err(m);
    }
    proof {
        lemma_unvisited_mark(state@, n as int, 1);
    }
    state.set(n, 1);
    stack.push(n);
    proof {
        let st = state@;
        let sk = stack@;
        assert(sorted@ == sorted0);
        assert(dfs_inv(gv, s0, sorted0, stack0));
        assert(sk == stack0.push(n));
        assert forall|k: int| 0 <= k < stack0.len() implies #[trigger] stack0[k] != n by {
            assert(s0[stack0[k] as int] == 1);
        }
        assert forall|k: int| 0 <= k < sorted0.len() implies #[trigger] sorted0[k] != n by {
            assert(s0[sorted0[k] as int] == 2);
        }
        assert forall|k: int| 0 <= k < sorted0.len() implies #[trigger] sorted0[k] < gv.len() && st[sorted0[k] as int] == 2 by {
            assert(sorted0[k] != n);
        }
        assert forall|i: int| 0 <= i < st.len() && #[trigger] st[i] == 2 implies lists(sorted0, i) by {
            assert(s0[i] == 2);
        }
        assert forall|k: int| 0 <= k < sk.len() implies #[trigger] sk[k] < gv.len() && st[sk[k] as int] == 1 by {
            if k < stack0.len() {
                assert(stack0[k] != n);
            }
        }
        assert forall|i: int| 0 <= i < st.len() && #[trigger] st[i] == 1 implies lists(sk, i) by {
            if i == n as int {
                assert(sk[stack0.len() as int] as int == i);
            } else {
                assert(s0[i] == 1);
                let k = choose|k: int| 0 <= k < stack0.len() && #[trigger] stack0[k] as int == i;
                assert(sk[k] as int == i);
            }
        }
        assert(sk.no_duplicates()) by {
            assert forall|a: int, b: int| 0 <= a < sk.len() && 0 <= b < sk.len() && a != b implies sk[a] != sk[b] by {
                if a < stack0.len() && b < stack0.len() {
                } else if a < stack0.len() {
                    assert(stack0[a] != n);
                } else {
                    assert(stack0[b] != n);
                }
            }
        }
        assert forall|k: int| 0 <= k < sk.len() - 1 implies edge(gv, #[trigger] sk[k] as int, sk[k + 1] as int) by {
            if k < sk.len() - 2 {
                assert(edge(gv, stack0[k] as int, stack0[k + 1] as int));
            }
        }
        assert(st.len() == gv.len());
        assert(forall|i: int| 0 <= i < st.len() ==> #[trigger] st[i] <= 2);
        assert(forall|k: int| 0 <= k < sorted0.len() ==> #[trigger] sorted0[k] < gv.len() && st[sorted0[k] as int] == 2);
        assert(forall|i: int| 0 <= i < st.len() && #[trigger] st[i] == 2 ==> lists(sorted0, i));
        assert(forall|k: int| 0 <= k < sk.len() ==> #[trigger] sk[k] < gv.len() && st[sk[k] as int] == 1);
        assert(forall|i: int| 0 <= i < st.len() && #[trigger] st[i] == 1 ==> lists(sk, i));
        assert(sorted0.no_duplicates());
        assert(sk.no_duplicates());
        assert(forall|k: int| 0 <= k < sk.len() - 1 ==> edge(gv, #[trigger] sk[k] as int, sk[k + 1] as int));
        assert(dfs_inv(gv, st, sorted0, sk));
        assert(dfs_inv(gv, st, sorted@, sk));
        assert(sorted@.take(sorted@.len() as int) =~= sorted@);
    }
    let deps = &g[n].1;
    let ghost state_pre = state@;
    let ghost sorted_pre = sorted@;
    assert(dfs_visit(gv, n as int, s0, sorted0, stack0) == finish_visit(n as int, dfs_deps(gv, n as int, 0, state_pre, sorted_pre, stack@))) by {
        assert(state_pre == s0.update(n as int, 1));
        assert(stack@ == stack0.push(n));
        assert(s0.len() == gv.len());
        assert(s0[n as int] == 0);
        assert((n as int) as usize == n);
        lemma_visit_unvisited(gv, n as int, s0, sorted0, stack0);
    }
    if deps.len() > 0 {
        let mut k: usize = 0;
        while k < deps.len()
            invariant
                names_distinct(gv),
                gv == gview(g@),
                n < g@.len(),
                deps@ == g@[n as int].1@,
                k <= deps@.len(),
                dfs_inv(gv, state@, sorted@, stack@),
                stack@ == stack0.push(n),
                state@[n as int] == 1,
                state@.len() == s0.len(),
                forall|i: int| 0 <= i < s0.len() && #[trigger] s0[i] != 0 ==> state@[i] != 0,
                unvisited(state@) < unvisited(s0),
                fuel == unvisited(s0),
                prefix_of(sorted0, sorted@),
                s0[n as int] == 0,
                s0 == old(state)@,
                deps@.len() > 0,
                gv[n as int].1.len() == deps@.len(),
                forall|d: int|
                    #![trigger gv[n as int].1[d]]
                    0 <= d < k ==> exists|k2: int|
                        0 <= k2 < sorted@.len() && #[trigger] gv[sorted@[k2] as int].0 == gv[n as int].1[d],
                dfs_deps(gv, n as int, 0, state_pre, sorted_pre, stack@) == dfs_deps(gv, n as int, k as int, state@, sorted@, stack@),
                state_pre == s0.update(n as int, 1),
                sorted_pre == sorted0,
                sorted0 == old(sorted)@,
                stack0 == old(stack)@,
                dfs_visit(gv, n as int, s0, sorted0, stack0) == finish_visit(n as int, dfs_deps(gv, n as int, 0, state_pre, sorted_pre, stack@)),
            decreases deps@.len() - k,
        {
            let dep = &deps[k];
            let j = match find_node(g, dep) {
                None => {
                    let m = unknown_dependency_message_exec(&g[n].0, dep);
                    proof {
                        assert(gv[n as int].1[k as int] == dep@);
                        assert(!has_name(gv, gv[n as int].1[k as int]));
                        assert(dfs_deps(gv, n as int, k as int, state@, sorted@, stack@) == Err::<(Seq<u8>, Seq<usize>), Seq<char>>(
                            unknown_dependency_message(gv[n as int].0, gv[n as int].1[k as int]))) by {
                            lemma_deps_unknown(gv, n as int, k as int, state@, sorted@, stack@);
                        }
                        assert(m@ == unknown_dependency_message(gv[n as int].0, gv[n as int].1[k as int]));
                        assert(dfs_deps(gv, n as int, 0, state_pre, sorted_pre, stack@) == Err::<(Seq<u8>, Seq<usize>), Seq<char>>(m@));
                        assert(finish_visit(n as int, dfs_deps(gv, n as int, 0, state_pre, sorted_pre, stack@)) == Err::<(Seq<u8>, Seq<usize>), Seq<char>>(m@));
                        assert(dfs_visit(gv, n as int, s0, sorted0, stack0) == Err::<(Seq<u8>, Seq<usize>), Seq<char>>(m@));
                    }
                    return Err(m);
                },
                Some(j) => j,
            };
            let ghost sorted_before = sorted@;
            let ghost state_before = state@;
            let ghost stack_before = stack@;
            proof {
                assert(gv[n as int].1[k as int] == gv[j as int].0);
                assert(gv[n as int].1.contains(gv[j as int].0));
                assert(stack@.last() == n);
                assert(unvisited(state_before) < unvisited(s0));
                assert(has_name(gv, gv[n as int].1[k as int]));
                let jj = choose|jj: int| 0 <= jj < gv.len() && #[trigger] gv[jj].0 == gv[n as int].1[k as int];
                assert(jj == j as int);
                assert(node_index(gv, gv[n as int].1[k as int]) == Some(j as int));
            }
            match visit(g, j, state, sorted, stack, Ghost(unvisited(state@))) {
                Err(m) => {
                    proof {
                        assert(dfs_deps(gv, n as int, k as int, state_before, sorted_before, stack_before) == Err::<
                            (Seq<u8>, Seq<usize>),
                            Seq<char>,
                        >(m@)) by {
                            lemma_deps_child(gv, n as int, k as int, j as int, state_before, sorted_before, stack_before);
                        }
                        assert(dfs_deps(gv, n as int, 0, state_pre, sorted_pre, stack_before) == Err::<(Seq<u8>, Seq<usize>), Seq<char>>(m@));
                        assert(dfs_visit(gv, n as int, s0, sorted0, stack0) == Err::<(Seq<u8>, Seq<usize>), Seq<char>>(m@));
                    }
                    return Err(m);
                },
                Ok(()) => {},
            }
            proof {
                lemma_unvisited_mono(state_before, state@);
                assert(dfs_deps(gv, n as int, k as int, state_before, sorted_before, stack@) == dfs_deps(
                    gv, n as int, k + 1, state@, sorted@, stack@)) by {
                    lemma_deps_child(gv, n as int, k as int, j as int, state_before, sorted_before, stack@);
                }
                assert(lists(sorted@, j as int));
                let kj = choose|kj: int| 0 <= kj < sorted@.len() && #[trigger] sorted@[kj] as int == j as int;
                assert(gv[sorted@[kj] as int].0 == gv[n as int].1[k as int]);
                assert forall|d: int| #![trigger gv[n as int].1[d]] 0 <= d < k + 1 implies exists|k2: int|
                    0 <= k2 < sorted@.len() && #[trigger] gv[sorted@[k2] as int].0 == gv[n as int].1[d] by {
                    if d < k {
                        let k2 = choose|k2: int|
                            0 <= k2 < sorted_before.len() && #[trigger] gv[sorted_before[k2] as int].0
                                == gv[n as int].1[d];
                        assert(sorted@.take(sorted_before.len() as int)[k2] == sorted@[k2]);
                        assert(gv[sorted@[k2] as int].0 == gv[n as int].1[d]);
                    } else {
                        assert(gv[sorted@[kj] as int].0 == gv[n as int].1[d]);
                    }
                }
                assert(prefix_of(sorted0, sorted@)) by {
                    assert(sorted@.take(sorted_before.len() as int).take(sorted0.len() as int)
                        =~= sorted@.take(sorted0.len() as int));
                }
            }
            k += 1;
        }
    }
    assert(dfs_deps(gv, n as int, 0, state_pre, sorted_pre, stack@) == Ok::<(Seq<u8>, Seq<usize>), Seq<char>>(
        (state@, sorted@))) by {
        lemma_deps_done(gv, n as int, deps@.len() as int, state@, sorted@, stack@);
    }
    let ghost sorted_mid = sorted@;
    let ghost state_mid = state@;
    stack.pop();
    state.set(n, 2);
    sorted.push(n);
    proof {
        let st = state@;
        let so = sorted@;
        let sk = stack@;
        assert(sk =~= stack0);
        assert forall|k: int| 0 <= k < sorted_mid.len() implies #[trigger] sorted_mid[k] != n by {
            assert(state_mid[sorted_mid[k] as int] == 2);
        }
        assert forall|k: int| 0 <= k < stack0.len() implies #[trigger] stack0[k] != n by {
            assert(stack0.push(n)[k] == stack0[k]);
            assert(stack0.push(n)[stack0.len() as int] == n);
        }
        assert forall|k: int| 0 <= k < so.len() implies #[trigger] so[k] < gv.len() && st[so[k] as int] == 2 by {
            if k < sorted_mid.len() {
                assert(sorted_mid[k] != n);
            }
        }
        assert forall|i: int| 0 <= i < st.len() && #[trigger] st[i] == 2 implies lists(so, i) by {
            if i == n as int {
                assert(so[sorted_mid.len() as int] as int == i);
            } else {
                assert(state_mid[i] == 2);
                let k = choose|k: int| 0 <= k < sorted_mid.len() && #[trigger] sorted_mid[k] as int == i;
                assert(so[k] as int == i);
            }
        }
        assert forall|k: int| 0 <= k < sk.len() implies #[trigger] sk[k] < gv.len() && st[sk[k] as int] == 1 by {
            assert(stack0[k] != n);
            assert(stack0.push(n)[k] == stack0[k]);
        }
        assert forall|i: int| 0 <= i < st.len() && #[trigger] st[i] == 1 implies lists(sk, i) by {
            assert(i != n as int);
            assert(state_mid[i] == 1);
            let k = choose|k: int| 0 <= k < stack0.len() + 1 && #[trigger] stack0.push(n)[k] as int == i;
            assert(stack0.push(n)[stack0.len() as int] == n);
            assert(k != stack0.len());
            assert(sk[k] as int == i);
        }
        assert(so.no_duplicates()) by {
            assert forall|a: int, b: int| 0 <= a < so.len() && 0 <= b < so.len() && a != b implies so[a] != so[b] by {
                if a < sorted_mid.len() && b < sorted_mid.len() {
                } else if a < sorted_mid.len() {
                    assert(sorted_mid[a] != n);
                } else {
                    assert(sorted_mid[b] != n);
                }
            }
        }
        assert forall|kk: int, d: int|
            0 <= kk < so.len() && 0 <= d < gv[so[kk] as int].1.len() implies #[trigger] dep_before(gv, so, kk, d) by {
            if kk < sorted_mid.len() {
                assert(dep_before(gv, sorted_mid, kk, d));
                let k2 = choose|k2: int|
                    0 <= k2 < kk && #[trigger] gv[sorted_mid[k2] as int].0 == gv[sorted_mid[kk] as int].1[d];
                assert(so[k2] == sorted_mid[k2]);
                assert(so[kk] == sorted_mid[kk]);
            } else {
                let x = gv[n as int].1[d];
                let k2 = choose|k2: int|
                    0 <= k2 < sorted_mid.len() && #[trigger] gv[sorted_mid[k2] as int].0 == gv[n as int].1[d];
                assert(so[k2] == sorted_mid[k2]);
            }
        }
        assert forall|k: int| 0 <= k < sk.len() - 1 implies edge(gv, #[trigger] sk[k] as int, sk[k + 1] as int) by {
            assert(edge(gv, stack0.push(n)[k] as int, stack0.push(n)[k + 1] as int));
        }
        assert(st.len() == gv.len());
        assert(forall|i: int| 0 <= i < st.len() ==> #[trigger] st[i] <= 2);
        assert(forall|k: int| 0 <= k < so.len() ==> #[trigger] so[k] < gv.len() && st[so[k] as int] == 2);
        assert(forall|i: int| 0 <= i < st.len() && #[trigger] st[i] == 2 ==> lists(so, i));
        assert(forall|k: int| 0 <= k < sk.len() ==> #[trigger] sk[k] < gv.len() && st[sk[k] as int] == 1);
        assert(forall|i: int| 0 <= i < st.len() && #[trigger] st[i] == 1 ==> lists(sk, i));
        assert(so.no_duplicates());
        assert(sk.no_duplicates());
        assert(forall|k: int| 0 <= k < sk.len() - 1 ==> edge(gv, #[trigger] sk[k] as int, sk[k + 1] as int));
        assert(dfs_inv(gv, st, so, sk));
        assert forall|i: int| 0 <= i < s0.len() && #[trigger] s0[i] != 0 implies st[i] != 0 by {
            if i != n {
                assert(state_mid[i] != 0);
            }
        }
        assert(prefix_of(sorted0, so)) by {
            assert(so.take(sorted0.len() as int) =~= sorted_mid.take(sorted0.len() as int));
        }
        if gv[n as int].1.len() == 0 {
            assert(deps@.len() == 0);
            assert(state_pre =~= s0.update(n as int, 1));
            assert(st =~= s0.update(n as int, 2));
        }
    }
    Ok(())
}

/// `s` lists each of `0..n` exactly once.
pub open spec fn is_perm(s: Seq<usize>, n: int) -> bool {
    &&& s.len() == n
    &&& s.no_duplicates()
    &&& forall|k: int| 0 <= k < s.len() ==> #[trigger] s[k] < n
    &&& forall|i: int| 0 <= i < n ==> #[trigger] lists(s, i)
}

/// No node has a dependency.
pub open spec fn no_deps(g: Seq<(Seq<char>, Seq<Seq<char>>)>) -> bool {
    forall|i: int| 0 <= i < g.len() ==> (#[trigger] g[i]).1.len() == 0
}

/// Strictly ascending by name.
pub open spec fn names_ascending(v: Seq<Seq<char>>) -> bool {
    forall|a: int, b: int| 0 <= a < b < v.len() ==> seq_lt(#[trigger] v[a], #[trigger] v[b])
}

/// `a` does not come after `b` by name.
pub open spec fn name_le(a: Seq<char>, b: Seq<char>) -> bool {
    !seq_lt(b, a)
}

proof fn lemma_name_le_trans(a: Seq<char>, b: Seq<char>, c: Seq<char>)
    requires
        name_le(a, b),
        name_le(b, c),
    ensures
        name_le(a, c),
{
    if seq_lt(c, a) {
        if a == b {
        } else {
            lemma_seq_lt_total(a, b);
            if seq_lt(a, b) {
                lemma_seq_lt_transitive(c, a, b);
            }
        }
    }
}

proof fn lemma_lt_asym(a: Seq<char>, b: Seq<char>)
    requires
        seq_lt(a, b),
    ensures
        !seq_lt(b, a),
{
    if seq_lt(b, a) {
        lemma_seq_lt_transitive(a, b, a);
        lemma_seq_lt_irreflexive(a);
    }
}

/// The indices in `order` are in name order.
pub open spec fn by_name(g: Seq<(Seq<char>, Seq<Seq<char>>)>, order: Seq<usize>, upto: int) -> bool {
    forall|p: int, q: int|
        0 <= p < q < upto ==> name_le(#[trigger] g[order[p] as int].0, #[trigger] g[order[q] as int].0)
}

/// Node indices ordered by node name.
fn indices_by_name(g: &Vec<(String, Vec<String>)>) -> (r: Vec<usize>)
    ensures
        is_perm(r@, g@.len() as int),
        by_name(gview(g@), r@, r@.len() as int),
{
    let ghost gv = gview(g@);
    let n = g.len();
    let mut order: Vec<usize> = Vec::new();
    let mut i: usize = 0;
    while i < n
        invariant
            n == g@.len(),
            i <= n,
            order@.len() == i,
            forall|k: int| 0 <= k < i ==> #[trigger] order@[k] == k,
        decreases n - i,
    {
        order.push(i);
        i += 1;
    }
    proof {
        assert forall|x: int| 0 <= x < n implies #[trigger] lists(order@, x) by {
            assert(order@[x] as int == x);
        }
    }
    let mut i: usize = 1;
    if n == 0 {
        return order;
    }
    while i < n
        invariant
            n == g@.len(),
            gv == gview(g@),
            1 <= i <= n,
            is_perm(order@, n as int),
            by_name(gv, order@, i as int),
        decreases n - i,
    {
        let mut j: usize = i;
        while j > 0 && str_lt(g[order[j]].0.as_str(), g[order[j - 1]].0.as_str())
            invariant
                n == g@.len(),
                gv == gview(g@),
                i < n,
                j <= i,
                is_perm(order@, n as int),
                forall|p: int, q: int|
                    0 <= p < q <= i && p != j && q != j ==> name_le(
                        #[trigger] gv[order@[p] as int].0,
                        #[trigger] gv[order@[q] as int].0,
                    ),
                forall|q: int| j < q <= i ==> name_le(gv[order@[j as int] as int].0, #[trigger] gv[order@[q] as int].0),
            decreases j,
        {
            let a = order[j];
            let b = order[j - 1];
            let ghost s0 = order@;
            proof {
                assert(seq_lt(gv[a as int].0, gv[b as int].0));
                lemma_lt_asym(gv[a as int].0, gv[b as int].0);
            }
            order.set(j, b);
            order.set(j - 1, a);
            proof {
                let s1 = order@;
                assert forall|k: int| 0 <= k < s1.len() implies #[trigger] s1[k] < n by {
                    if k != j && k != j - 1 {
                        assert(s1[k] == s0[k]);
                    }
                }
                assert forall|x: int| 0 <= x < n implies #[trigger] lists(s1, x) by {
                    assert(lists(s0, x));
                    let k = choose|k: int| 0 <= k < s0.len() && #[trigger] s0[k] as int == x;
                    if k == j {
                        assert(s1[j - 1] as int == x);
                    } else if k == j - 1 {
                        assert(s1[j as int] as int == x);
                    } else {
                        assert(s1[k] as int == x);
                    }
                }
                assert(s1.no_duplicates()) by {
                    assert forall|p: int, q: int| 0 <= p < s1.len() && 0 <= q < s1.len() && p != q implies s1[p] != s1[q] by {
                        let pp = if p == j { j - 1 } else if p == j - 1 { j as int } else { p };
                        let qq = if q == j { j - 1 } else if q == j - 1 { j as int } else { q };
                        assert(s1[p] == s0[pp]);
                        assert(s1[q] == s0[qq]);
                    }
                }
                let jj = j - 1;
                assert forall|p: int, q: int|
                    0 <= p < q <= i && p != jj && q != jj implies name_le(
                        #[trigger] gv[s1[p] as int].0,
                        #[trigger] gv[s1[q] as int].0,
                    ) by {
                    let pp = if p == j { jj } else { p };
                    let qq = if q == j { jj } else { q };
                    assert(s1[p] == s0[pp]);
                    assert(s1[q] == s0[qq]);
                    assert(pp < qq);
                }
                assert forall|q: int| jj < q <= i implies name_le(gv[s1[jj] as int].0, #[trigger] gv[s1[q] as int].0) by {
                    if q == j {
                        assert(s1[q] == b);
                    } else {
                        assert(s1[q] == s0[q]);
                    }
                }
            }
            j -= 1;
        }
        proof {
            let o = order@;
            assert forall|p: int, q: int| 0 <= p < q < i + 1 implies name_le(
                #[trigger] gv[o[p] as int].0,
                #[trigger] gv[o[q] as int].0,
            ) by {
                if q == j && p < j {
                    assert(!seq_lt(gv[o[j as int] as int].0, gv[o[j - 1] as int].0));
                    if p < j - 1 {
                        lemma_name_le_trans(gv[o[p] as int].0, gv[o[j - 1] as int].0, gv[o[j as int] as int].0);
                    }
                } else if p == j {
                }
            }
        }
        i += 1;
    }
    order
}

/// The visits of `roots`, from the `t`-th on, each from where the last left
/// the marks and the finished list.
pub open spec fn dfs_from_roots(
    g: Seq<(Seq<char>, Seq<Seq<char>>)>,
    roots: Seq<usize>,
    t: int,
    st: Seq<u8>,
    so: Seq<usize>,
) -> Result<Seq<usize>, Seq<char>>
    decreases roots.len() - t,
{
    if t < 0 || t >= roots.len() {
        Ok(so)
    } else {
        match dfs_visit(g, roots[t] as int, st, so, Seq::empty()) {
            Ok((s2, o2)) => dfs_from_roots(g, roots, t + 1, s2, o2),
            Err(e) => Err(e),
        }
    }
}

/// The node positions ordered by node name.
pub open spec fn name_order(g: Seq<(Seq<char>, Seq<Seq<char>>)>) -> Seq<usize> {
    choose|r: Seq<usize>| is_perm(r, g.len() as int) && by_name(g, r, g.len() as int)
}

/// The startup order: the nodes finished by depth-first visits from each
/// node in name order, dependencies in the order listed, every node
/// unvisited at first; or the error of the first visit that fails.
pub open spec fn dependency_order(g: Seq<(Seq<char>, Seq<Seq<char>>)>) -> Result<Seq<Seq<char>>, Seq<char>> {
    match dfs_from_roots(g, name_order(g), 0, Seq::new(g.len(), |i: int| 0u8), Seq::empty()) {
        Ok(o) => Ok(Seq::new(o.len(), |q: int| g[o[q] as int].0)),
        Err(e) => Err(e),
    }
}

proof fn lemma_sorted_perms_agree_upto(
    g: Seq<(Seq<char>, Seq<Seq<char>>)>,
    r1: Seq<usize>,
    r2: Seq<usize>,
    i: int,
)
    requires
        names_distinct(g),
        is_perm(r1, g.len() as int),
        is_perm(r2, g.len() as int),
        by_name(g, r1, g.len() as int),
        by_name(g, r2, g.len() as int),
        0 <= i <= g.len(),
    ensures
        forall|k: int| 0 <= k < i ==> r1[k] == r2[k],
    decreases i,
{
    if i > 0 {
        lemma_sorted_perms_agree_upto(g, r1, r2, i - 1);
        let a = r1[i - 1];
        let b = r2[i - 1];
        if a != b {
            assert(lists(r2, a as int));
            let p = choose|p: int| 0 <= p < r2.len() && #[trigger] r2[p] as int == a as int;
            if p < i - 1 {
                assert(r1[p] == r2[p]);
                assert(r1[p] != r1[i - 1]);
            }
            assert(p > i - 1);
            assert(lists(r1, b as int));
            let q = choose|q: int| 0 <= q < r1.len() && #[trigger] r1[q] as int == b as int;
            if q < i - 1 {
                assert(r1[q] == r2[q]);
                assert(r2[q] != r2[i - 1]);
            }
            assert(q > i - 1);
            assert(name_le(g[r2[i - 1] as int].0, g[r2[p] as int].0));
            assert(name_le(g[r1[i - 1] as int].0, g[r1[q] as int].0));
            if g[a as int].0 != g[b as int].0 {
                lemma_seq_lt_total(g[a as int].0, g[b as int].0);
            }
            assert(g[a as int].0 != g[b as int].0);
        }
    }
}

/// Node positions in name order are unique where names are distinct.
proof fn lemma_name_order_unique(g: Seq<(Seq<char>, Seq<Seq<char>>)>, r: Seq<usize>)
    requires
        names_distinct(g),
        is_perm(r, g.len() as int),
        by_name(g, r, g.len() as int),
    ensures
        r == name_order(g),
{
    let r2 = name_order(g);
    assert(is_perm(r2, g.len() as int) && by_name(g, r2, g.len() as int));
    lemma_sorted_perms_agree_upto(g, r, r2, g.len() as int);
    assert(r =~= r2);
}

/// Order the nodes so that each comes after the nodes it depends on.
///
/// Roots are taken in name order and the search is depth first, so the
/// result does not depend on the order of the input.
pub fn resolve_order(g: &Vec<(String, Vec<String>)>) -> (r: Result<Vec<String>, String>)
    requires
        names_distinct(gview(g@)),
    ensures
        r is Ok <==> deps_known(gview(g@)) && !has_cycle(gview(g@)),
        r matches Ok(v) ==> is_dependency_order(gview(g@), strs_view(v@)),
        r matches Err(m) ==> is_genuine_error(gview(g@), m@),
        no_deps(gview(g@)) ==> (r matches Ok(v) && names_ascending(strs_view(v@))),
        dependency_order(gview(g@)) == match r {
            Ok(v) => Ok::<Seq<Seq<char>>, Seq<char>>(strs_view(v@)),
            Err(m) => Err(m@),
        },
{
    let ghost gv = gview(g@);
    let n = g.len();
    let roots = indices_by_name(g);
    proof {
        lemma_name_order_unique(gv, roots@);
    }
    let mut state: Vec<u8> = Vec::new();
    let mut i: usize = 0;
    while i < n
        invariant
            n == g@.len(),
            i <= n,
            state@.len() == i,
            forall|k: int| 0 <= k < i ==> #[trigger] state@[k] == 0,
        decreases n - i,
    {
        state.push(0);
        i += 1;
    }
    let mut sorted: Vec<usize> = Vec::new();
    let mut stack: Vec<usize> = Vec::new();
    let ghost zeros = Seq::new(gv.len(), |i: int| 0u8);
    proof {
        assert(dfs_inv(gv, state@, sorted@, stack@));
        assert(state@ =~= zeros);
    }
    let mut t: usize = 0;
    while t < n
        invariant
            n == g@.len(),
            gv == gview(g@),
            names_distinct(gv),
            is_perm(roots@, n as int),
            t <= n,
            dfs_inv(gv, state@, sorted@, stack@),
            stack@.len() == 0,
            forall|u: int| 0 <= u < t ==> state@[#[trigger] roots@[u] as int] == 2,
            by_name(gv, roots@, n as int),
            no_deps(gv) ==> sorted@ == roots@.take(t as int),
            roots@ == name_order(gv),
            zeros == Seq::new(gv.len(), |i: int| 0u8),
            dfs_from_roots(gv, roots@, 0, zeros, Seq::empty()) == dfs_from_roots(gv, roots@, t as int, state@, sorted@),
        decreases n - t,
    {
        let ghost before = state@;
        let ghost sorted_before = sorted@;
        proof {
            if no_deps(gv) {
                let x = roots@[t as int] as int;
                assert(gv[x].1.len() == 0);
                if before[x] == 1 {
                    assert(lists(stack@, x));
                }
                if before[x] == 2 {
                    assert(lists(sorted@, x));
                    let k = choose|k: int| 0 <= k < sorted@.len() && #[trigger] sorted@[k] as int == x;
                    assert(roots@[k] == roots@[t as int]);
                }
                assert(before[x] == 0);
            }
        }
        assert(stack@ =~= Seq::<usize>::empty());
        match visit(g, roots[t], &mut state, &mut sorted, &mut stack, Ghost(unvisited(before))) {
            Err(m) => {
                proof {
                    if exists|p: Seq<int>| is_lasso(gv, p) && m@ == cycle_message(#[trigger] path_names(gv, p)) {
                        let p = choose|p: Seq<int>| is_lasso(gv, p) && m@ == cycle_message(#[trigger] path_names(gv, p));
                        lemma_lasso_has_cycle(gv, p);
                    }
                    assert(dfs_from_roots(gv, roots@, t as int, before, sorted_before) == Err::<Seq<usize>, Seq<char>>(m@));
                    assert(dependency_order(gv) == Err::<Seq<Seq<char>>, Seq<char>>(m@));
                }
                return Err(m);
            },
            Ok(()) => {},
        }
        proof {
            if no_deps(gv) {
                assert(sorted@ =~= roots@.take(t + 1));
            }
            assert forall|u: int| 0 <= u < t + 1 implies state@[#[trigger] roots@[u] as int] == 2 by {
                if u < t {
                    assert(before[roots@[u] as int] != 0);
                }
            }
        }
        t += 1;
    }
    let mut names: Vec<String> = Vec::new();
    let mut k: usize = 0;
    while k < sorted.len()
        invariant
            n == g@.len(),
            forall|q: int| 0 <= q < sorted@.len() ==> #[trigger] sorted@[q] < n,
            k <= sorted@.len(),
            names@.len() == k,
            forall|q: int| 0 <= q < k ==> #[trigger] names@[q]@ == g@[sorted@[q] as int].0@,
        decreases sorted@.len() - k,
    {
        names.push(g[sorted[k]].0.clone());
        k += 1;
    }
    proof {
        let nv = strs_view(names@);
        assert forall|q: int| 0 <= q < nv.len() implies nv[q] == gv[sorted@[q] as int].0 by {}
        assert(dfs_from_roots(gv, roots@, n as int, state@, sorted@) == Ok::<Seq<usize>, Seq<char>>(sorted@));
        assert(nv =~= Seq::new(sorted@.len(), |q: int| gv[sorted@[q] as int].0));
        assert(dependency_order(gv) == Ok::<Seq<Seq<char>>, Seq<char>>(nv));
        assert forall|x: int| 0 <= x < n implies state@[x] == 2 by {
            assert(lists(roots@, x));
            let u = choose|u: int| 0 <= u < roots@.len() && #[trigger] roots@[u] as int == x;
            assert(state@[roots@[u] as int] == 2);
        }
        assert(nv.no_duplicates()) by {
            assert forall|a: int, b: int| 0 <= a < nv.len() && 0 <= b < nv.len() && a != b implies nv[a] != nv[b] by {
                assert(sorted@[a] != sorted@[b]);
                assert(gv[sorted@[a] as int].0 != gv[sorted@[b] as int].0);
            }
        }
        assert forall|q: int| 0 <= q < nv.len() implies has_name(gv, #[trigger] nv[q]) by {
            assert(gv[sorted@[q] as int].0 == nv[q]);
        }
        assert forall|x: int| 0 <= x < gv.len() implies nv.contains(#[trigger] gv[x].0) by {
            assert(state@[x] == 2);
            assert(lists(sorted@, x));
            let q = choose|q: int| 0 <= q < sorted@.len() && #[trigger] sorted@[q] as int == x;
            assert(nv[q] == gv[x].0);
        }
        assert forall|x: int, d: int, q: int|
            0 <= x < gv.len() && 0 <= d < gv[x].1.len() && 0 <= q < nv.len() && nv[q]
                == gv[x].0 implies #[trigger] listed_before(nv, q, gv[x].1[d]) by {
            assert(gv[sorted@[q] as int].0 == gv[x].0);
            assert(sorted@[q] as int == x);
            assert(dep_before(gv, sorted@, q, d));
            let k2 = choose|k2: int| 0 <= k2 < q && #[trigger] gv[sorted@[k2] as int].0 == gv[sorted@[q] as int].1[d];
            assert(nv[k2] == gv[x].1[d]);
        }
        assert(is_dependency_order(gv, nv));
        lemma_dependency_order_excludes_cycle(gv, nv);
        lemma_dependency_order_deps_known(gv, nv);
        if no_deps(gv) {
            assert(roots@.take(n as int) =~= roots@);
            assert forall|a: int, b: int| 0 <= a < b < nv.len() implies seq_lt(#[trigger] nv[a], #[trigger] nv[b]) by {
                assert(nv[a] == gv[roots@[a] as int].0);
                assert(nv[b] == gv[roots@[b] as int].0);
                assert(name_le(gv[roots@[a] as int].0, gv[roots@[b] as int].0));
                assert(roots@[a] != roots@[b]);
                assert(nv[a] != nv[b]);
                lemma_seq_lt_total(nv[a], nv[b]);
            }
        }
    }
    Ok(names)
}

} // verus!
