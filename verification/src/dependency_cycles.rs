//! Dependency cycle detection for the doctor's graph check: a depth-first
//! walk of the blocked-by graph that reports, for each walk root, the first
//! back edge it meets. The walk order is whatever order the caller's issue
//! set yields; the reports are empty exactly when the graph is acyclic,
//! whatever that order.
use vstd::prelude::*;
use crate::error::{Error, ErrorKind};
use crate::text::{cat, i64_text, int_text, join, join_seq, list_contains, push_str, str_eq, sv, u64_text};

verus! {

broadcast use {vstd::string::group_string_axioms, vstd::seq_lib::seq_to_set_is_finite};

/// A dependency row as plain values: the blocked issue and its blocker.
pub type DepEdge = (Seq<char>, Seq<char>);

pub open spec fn graph_of(deps: Seq<(String, String)>) -> Seq<DepEdge> {
    deps.map_values(|d: (String, String)| (d.0@, d.1@))
}

/// Some dependency row says `u` is blocked by `v`.
pub open spec fn edge(g: Seq<DepEdge>, u: Seq<char>, v: Seq<char>) -> bool {
    exists|i: int| 0 <= i < g.len() && g[i] == (u, v)
}

/// Step `i` of `p` follows an edge.
pub open spec fn path_step(g: Seq<DepEdge>, p: Seq<Seq<char>>, i: int) -> bool {
    edge(g, p[i], p[i + 1])
}

/// Consecutive nodes of `p` are joined by edges.
pub open spec fn is_path(g: Seq<DepEdge>, p: Seq<Seq<char>>) -> bool {
    forall|i: int| 0 <= i < p.len() - 1 ==> #[trigger] path_step(g, p, i)
}

/// A path of at least one edge that ends where it starts.
pub open spec fn is_cycle(g: Seq<DepEdge>, p: Seq<Seq<char>>) -> bool {
    p.len() >= 2 && p[0] == p.last() && is_path(g, p)
}

pub open spec fn has_cycle(g: Seq<DepEdge>) -> bool {
    exists|p: Seq<Seq<char>>| #[trigger] is_cycle(g, p)
}

/// Every issue a dependency row names belongs to `u`.
pub open spec fn endpoints_in(g: Seq<DepEdge>, u: Set<Seq<char>>) -> bool {
    forall|i: int| 0 <= i < g.len() ==> u.contains(#[trigger] g[i].0) && u.contains(g[i].1)
}

/// `done` lists the finished issues in finishing order, each once; every
/// edge out of a finished issue ends at an issue finished before it.
pub open spec fn finish_ordered(g: Seq<DepEdge>, done: Seq<Seq<char>>) -> bool {
    &&& done.no_duplicates()
    &&& forall|i: int, v: Seq<char>| 0 <= i < done.len() && #[trigger] edge(g, done[i], v)
        ==> exists|j: int| 0 <= j < i && done[j] == v
}

/// The walk's state before any back edge was found: the stack is a path
/// without repeats, and the visited issues are exactly the stacked ones and
/// the finished ones, which are disjoint.
pub open spec fn walk_clean(g: Seq<DepEdge>, visited: Seq<Seq<char>>, stack: Seq<Seq<char>>, done: Seq<Seq<char>>) -> bool {
    &&& finish_ordered(g, done)
    &&& stack.no_duplicates()
    &&& is_path(g, stack)
    &&& forall|x: Seq<char>| #[trigger] visited.contains(x) <==> (stack.contains(x) || done.contains(x))
    &&& forall|x: Seq<char>| !(#[trigger] stack.contains(x) && done.contains(x))
}

/// Along a path that starts at a finished issue, the last issue finished
/// strictly earlier than the first.
proof fn lemma_descends(g: Seq<DepEdge>, done: Seq<Seq<char>>, p: Seq<Seq<char>>, i0: int) -> (j: int)
    requires
        finish_ordered(g, done),
        is_path(g, p),
        p.len() >= 2,
        0 <= i0 < done.len(),
        done[i0] == p[0],
    ensures
        0 <= j < i0,
        done[j] == p.last(),
    decreases p.len(),
{
    if p.len() == 2 {
        assert(path_step(g, p, 0));
        assert(edge(g, done[i0], p[1]));
        choose|j: int| 0 <= j < i0 && done[j] == p[1]
    } else {
        let q = p.drop_last();
        assert forall|i: int| 0 <= i < q.len() - 1 implies #[trigger] path_step(g, q, i) by {
            assert(path_step(g, p, i));
            assert(q[i] == p[i] && q[i + 1] == p[i + 1]);
        }
        let m = lemma_descends(g, done, q, i0);
        assert(path_step(g, p, p.len() - 2));
        assert(done[m] == p[p.len() - 2]);
        assert(edge(g, done[m], p.last()));
        choose|j: int| 0 <= j < m && done[j] == p.last()
    }
}

/// A graph whose every issue on a cycle is finished in a finishing order
/// has no cycle.
proof fn lemma_acyclic(g: Seq<DepEdge>, done: Seq<Seq<char>>, u: Set<Seq<char>>)
    requires
        finish_ordered(g, done),
        endpoints_in(g, u),
        forall|x: Seq<char>| u.contains(x) ==> done.contains(x),
    ensures
        !has_cycle(g),
{
    if has_cycle(g) {
        let p = choose|p: Seq<Seq<char>>| is_cycle(g, p);
        assert(path_step(g, p, 0));
        let k = choose|k: int| 0 <= k < g.len() && g[k] == (p[0], p[1]);
        assert(u.contains(g[k].0));
        assert(done.contains(p[0]));
        let i0 = choose|i: int| 0 <= i < done.len() && done[i] == p[0];
        let j = lemma_descends(g, done, p, i0);
        assert(done[j] == done[i0]);
    }
}

/// A repeat-free list drawn from a finite set is no longer than the set.
proof fn lemma_bounded(s: Seq<Seq<char>>, u: Set<Seq<char>>)
    requires
        s.no_duplicates(),
        u.finite(),
        forall|x: Seq<char>| s.contains(x) ==> u.contains(x),
    ensures
        s.len() <= u.len(),
{
    s.unique_seq_to_set();
    assert(s.to_set().subset_of(u));
    vstd::set_lib::lemma_len_subset(s.to_set(), u);
}

/// Walk from the unvisited `issue`: mark it visited and stacked, follow its
/// blocker edges in row order, and report `[blocker, issue]` for the first
/// edge into the stack. On a clean walk the reported edge closes a cycle;
/// without a report the issue is finished and the stack is as it was.
fn dfs(
    issue: &String,
    deps: &Vec<(String, String)>,
    visited: &mut Vec<String>,
    stack: &mut Vec<String>,
    Ghost(universe): Ghost<Set<Seq<char>>>,
    Ghost(done): Ghost<Seq<Seq<char>>>,
) -> (r: (Option<Vec<String>>, Ghost<Seq<Seq<char>>>))
    requires
        universe.finite(),
        endpoints_in(graph_of(deps@), universe),
        universe.contains(issue@),
        sv(old(visited)@).no_duplicates(),
        forall|x: Seq<char>| sv(old(visited)@).contains(x) ==> universe.contains(x),
        !sv(old(visited)@).contains(issue@),
        forall|x: Seq<char>| sv(old(stack)@).contains(x) ==> sv(old(visited)@).contains(x),
    ensures
        sv(final(visited)@).no_duplicates(),
        forall|x: Seq<char>| sv(final(visited)@).contains(x) ==> universe.contains(x),
        forall|x: Seq<char>| sv(old(visited)@).contains(x) ==> sv(final(visited)@).contains(x),
        sv(final(visited)@).contains(issue@),
        final(visited)@.len() >= old(visited)@.len() + 1,
        forall|x: Seq<char>| sv(final(stack)@).contains(x) ==> sv(final(visited)@).contains(x),
        r.0 is None ==> sv(final(stack)@) == sv(old(stack)@),
        r.0 matches Some(c) ==> c@.len() == 2 && edge(graph_of(deps@), c@[1]@, c@[0]@),
        (walk_clean(graph_of(deps@), sv(old(visited)@), sv(old(stack)@), done)
            && (sv(old(stack)@).len() > 0 ==> edge(graph_of(deps@), sv(old(stack)@).last(), issue@))) ==> match r.0 {
            None => walk_clean(graph_of(deps@), sv(final(visited)@), sv(final(stack)@), r.1@) && r.1@.contains(issue@),
            Some(_) => has_cycle(graph_of(deps@)),
        },
    decreases universe.len() - old(visited)@.len(),
{
    let ghost g = graph_of(deps@);
    let ghost v0 = sv(visited@);
    let ghost s0 = sv(stack@);
    let ghost clean = walk_clean(g, v0, s0, done) && (s0.len() > 0 ==> edge(g, s0.last(), issue@));
    proof {
        lemma_bounded(v0, universe);
        assert(v0.push(issue@).no_duplicates()) by {
            assert forall|a: int, b: int| 0 <= a < b < v0.len() + 1 implies v0.push(issue@)[a] != v0.push(issue@)[b] by {
                if b == v0.len() {
                    assert(v0.contains(v0[a]));
                }
            }
        }
        lemma_bounded(v0.push(issue@), universe);
    }
    visited.push(issue.clone());
    stack.push(issue.clone());
    assert(sv(visited@) =~= v0.push(issue@));
    assert(sv(stack@) =~= s0.push(issue@));
    let ghost s1 = s0.push(issue@);
    proof {
        if clean {
            assert(s1.no_duplicates()) by {
                assert forall|a: int, b: int| 0 <= a < b < s1.len() implies s1[a] != s1[b] by {
                    if b == s0.len() {
                        assert(s0.contains(s0[a]));
                        assert(v0.contains(s0[a]));
                    }
                }
            }
            assert forall|i: int| 0 <= i < s1.len() - 1 implies #[trigger] path_step(g, s1, i) by {
                if i < s0.len() - 1 {
                    assert(path_step(g, s0, i));
                } else {
                    assert(s1[i] == s0.last());
                }
            }
            assert forall|x: Seq<char>| !(#[trigger] s1.contains(x) && done.contains(x)) by {
                if s1.contains(x) && done.contains(x) {
                    if x != issue@ {
                        let k = choose|k: int| 0 <= k < s1.len() && s1[k] == x;
                        assert(s0.contains(x));
                    } else {
                        assert(v0.contains(x));
                    }
                }
            }
            assert forall|x: Seq<char>| #[trigger] sv(visited@).contains(x) <==> (s1.contains(x) || done.contains(x)) by {
                if s1.contains(x) && x != issue@ {
                    let k = choose|k: int| 0 <= k < s1.len() && s1[k] == x;
                    assert(s0[k] == x);
                }
                if s0.contains(x) {
                    let k = choose|k: int| 0 <= k < s0.len() && s0[k] == x;
                    assert(s1[k] == x);
                }
                if v0.contains(x) {
                    let k = choose|k: int| 0 <= k < v0.len() && v0[k] == x;
                    assert(sv(visited@)[k] == x);
                }
                if sv(visited@).contains(x) && x != issue@ {
                    let k = choose|k: int| 0 <= k < sv(visited@).len() && sv(visited@)[k] == x;
                    assert(v0[k] == x);
                }
                assert(s1[s0.len() as int] == issue@);
                assert(sv(visited@)[v0.len() as int] == issue@);
            }
        }
    }
    proof {
        assert forall|x: Seq<char>| v0.contains(x) implies sv(visited@).contains(x) by {
            let k = choose|k: int| 0 <= k < v0.len() && v0[k] == x;
            assert(sv(visited@)[k] == x);
        }
        assert(sv(visited@)[v0.len() as int] == issue@);
        assert forall|x: Seq<char>| s1.contains(x) implies sv(visited@).contains(x) by {
            if x != issue@ {
                let k = choose|k: int| 0 <= k < s1.len() && s1[k] == x;
                assert(s0[k] == x);
                assert(s0.contains(x));
                assert(v0.contains(x));
            }
        }
    }
    let ghost mut cur: Seq<Seq<char>> = done;
    let mut j: usize = 0;
    while j < deps.len()
        invariant
            g == graph_of(deps@),
            v0 == sv(old(visited)@),
            s0 == sv(old(stack)@),
            clean == (walk_clean(g, v0, s0, done) && (s0.len() > 0 ==> edge(g, s0.last(), issue@))),
            universe.finite(),
            endpoints_in(g, universe),
            universe.contains(issue@),
            j <= deps@.len(),
            sv(visited@).no_duplicates(),
            forall|x: Seq<char>| sv(visited@).contains(x) ==> universe.contains(x),
            forall|x: Seq<char>| v0.contains(x) ==> sv(visited@).contains(x),
            sv(visited@).contains(issue@),
            visited@.len() >= v0.len() + 1,
            v0.len() + 1 <= universe.len(),
            sv(stack@) == s1,
            s1 == s0.push(issue@),
            forall|x: Seq<char>| s1.contains(x) ==> sv(visited@).contains(x),
            clean ==> {
                &&& finish_ordered(g, cur)
                &&& s1.no_duplicates()
                &&& is_path(g, s1)
                &&& forall|x: Seq<char>| #[trigger] sv(visited@).contains(x) <==> (s1.contains(x) || cur.contains(x))
                &&& forall|x: Seq<char>| !(#[trigger] s1.contains(x) && cur.contains(x))
                &&& forall|k: int| 0 <= k < j && #[trigger] g[k].0 == issue@ ==> cur.contains(g[k].1)
            },
        decreases deps@.len() - j,
    {
        if str_eq(deps[j].0.as_str(), issue.as_str()) {
            let neighbor = &deps[j].1;
            assert(g[j as int] == (issue@, neighbor@));
            assert(edge(g, issue@, neighbor@));
            assert(g.len() == deps@.len());
            assert(0 <= j < g.len());
            let ghost e = g[j as int];
            assert(universe.contains(e.0));
            assert(universe.contains(e.1));
            assert(universe.contains(neighbor@));
            if !list_contains(visited, neighbor.as_str()) {
                let ghost before = cur;
                let ghost vis_before = sv(visited@);
                assert(s1.last() == issue@);
                proof {
                    lemma_bounded(sv(visited@), universe);
                    if clean {
                        assert(walk_clean(g, sv(visited@), sv(stack@), cur));
                    }
                }
                let (found, Ghost(after)) = dfs(neighbor, deps, visited, stack, Ghost(universe), Ghost(cur));
                if found.is_some() {
                    assert forall|x: Seq<char>| v0.contains(x) implies sv(visited@).contains(x) by {
                        assert(vis_before.contains(x));
                    }
                    return (found, Ghost(after));
                }
                proof {
                    if clean {
                        assert forall|x: Seq<char>| before.contains(x) implies after.contains(x) by {
                            assert(vis_before.contains(x));
                            assert(sv(visited@).contains(x));
                            assert(!s1.contains(x));
                        }
                        assert forall|k: int| 0 <= k < j + 1 && #[trigger] g[k].0 == issue@ implies after.contains(g[k].1) by {
                            if k < j {
                                assert(before.contains(g[k].1));
                            }
                        }
                    }
                    cur = after;
                }
            } else if list_contains(stack, neighbor.as_str()) {
                let c = vec![neighbor.clone(), issue.clone()];
                proof {
                    if clean {
                        let k = choose|k: int| 0 <= k < s1.len() && s1[k] == neighbor@;
                        let p = s1.subrange(k, s1.len() as int).push(neighbor@);
                        assert forall|i: int| 0 <= i < p.len() - 1 implies #[trigger] path_step(g, p, i) by {
                            if i < s1.len() - k - 1 {
                                assert(path_step(g, s1, k + i));
                                assert(p[i] == s1[k + i] && p[i + 1] == s1[k + i + 1]);
                            } else {
                                assert(p[i] == issue@);
                                assert(p[i + 1] == neighbor@);
                            }
                        }
                        assert(is_cycle(g, p));
                    }
                }
                assert(c@[1]@ == issue@ && c@[0]@ == neighbor@);
                assert forall|x: Seq<char>| v0.contains(x) implies sv(visited@).contains(x) by {}
                return (Some(c), Ghost(cur));
            } else {
                proof {
                    if clean {
                        assert(sv(visited@).contains(neighbor@));
                    }
                }
            }
        }
        proof {
            if clean {
                assert forall|k: int| 0 <= k < j + 1 && #[trigger] g[k].0 == issue@ implies cur.contains(g[k].1) by {
                    if k == j {
                        assert(g[k].1 == deps@[k].1@);
                    }
                }
            }
        }
        j = j + 1;
    }
    let ghost st = stack@;
    stack.pop();
    assert(stack@ =~= st.drop_last());
    assert(sv(stack@) =~= s0) by {
        assert forall|k: int| 0 <= k < s0.len() implies sv(stack@)[k] == s0[k] by {
            assert(sv(st)[k] == s1[k]);
        }
    }
    let ghost fin = cur.push(issue@);
    proof {
        if clean {
            assert(!cur.contains(issue@)) by {
                assert(s1[s0.len() as int] == issue@);
                assert(s1.contains(issue@));
            }
            assert(fin.no_duplicates()) by {
                assert forall|a: int, b: int| 0 <= a < b < fin.len() implies fin[a] != fin[b] by {
                    if b == cur.len() {
                        assert(cur.contains(cur[a]));
                    }
                }
            }
            assert forall|i: int, v: Seq<char>| 0 <= i < fin.len() && #[trigger] edge(g, fin[i], v)
                implies exists|k: int| 0 <= k < i && fin[k] == v by {
                if i < cur.len() {
                    assert(fin[i] == cur[i]);
                    assert(edge(g, cur[i], v));
                    let k = choose|k: int| 0 <= k < i && cur[k] == v;
                    assert(fin[k] == v);
                } else {
                    let r = choose|r: int| 0 <= r < g.len() && g[r] == (issue@, v);
                    assert(g[r].0 == issue@);
                    assert(cur.contains(g[r].1));
                    let k = choose|k: int| 0 <= k < cur.len() && cur[k] == v;
                    assert(fin[k] == v);
                }
            }
            assert forall|x: Seq<char>| #[trigger] sv(visited@).contains(x) <==> (s0.contains(x) || fin.contains(x)) by {
                if s1.contains(x) && x != issue@ {
                    let k = choose|k: int| 0 <= k < s1.len() && s1[k] == x;
                    assert(s0[k] == x);
                }
                if s0.contains(x) {
                    let k = choose|k: int| 0 <= k < s0.len() && s0[k] == x;
                    assert(s1[k] == x);
                }
                if cur.contains(x) {
                    let k = choose|k: int| 0 <= k < cur.len() && cur[k] == x;
                    assert(fin[k] == x);
                }
                if fin.contains(x) && x != issue@ {
                    let k = choose|k: int| 0 <= k < fin.len() && fin[k] == x;
                    assert(cur[k] == x);
                }
                assert(fin[cur.len() as int] == issue@);
                assert(s1[s0.len() as int] == issue@);
            }
            assert forall|x: Seq<char>| !(#[trigger] s0.contains(x) && fin.contains(x)) by {
                if s0.contains(x) && fin.contains(x) {
                    let k = choose|k: int| 0 <= k < s0.len() && s0[k] == x;
                    assert(s1[k] == x);
                    if x == issue@ {
                        assert(v0.contains(x));
                    } else {
                        let m = choose|m: int| 0 <= m < fin.len() && fin[m] == x;
                        assert(cur[m] == x);
                    }
                }
            }
            assert(fin[cur.len() as int] == issue@);
        }
    }
    (None, Ghost(fin))
}

/// Walk the blocked-by graph of `deps` from each issue of `walk_order` not
/// yet visited, collecting one `[blocker, blocked]` back edge per walk that
/// meets one. The list is empty exactly when the graph has no cycle, and
/// every entry is a dependency row read backwards.
pub fn detect_dependency_cycles(deps: &Vec<(String, String)>, walk_order: &Vec<String>) -> (r: Vec<Vec<String>>)
    requires
        endpoints_in(graph_of(deps@), sv(walk_order@).to_set()),
    ensures
        r@.len() == 0 <==> !has_cycle(graph_of(deps@)),
        forall|k: int| 0 <= k < r@.len() ==> (#[trigger] r@[k])@.len() == 2 && edge(graph_of(deps@), r@[k]@[1]@, r@[k]@[0]@),
{
    let ghost g = graph_of(deps@);
    let ghost universe = sv(walk_order@).to_set();
    let mut cycles: Vec<Vec<String>> = Vec::new();
    let mut visited: Vec<String> = Vec::new();
    let mut stack: Vec<String> = Vec::new();
    let ghost mut done: Seq<Seq<char>> = Seq::empty();
    assert(sv(visited@) =~= Seq::<Seq<char>>::empty());
    assert(sv(stack@) =~= Seq::<Seq<char>>::empty());
    let mut i: usize = 0;
    while i < walk_order.len()
        invariant
            g == graph_of(deps@),
            universe == sv(walk_order@).to_set(),
            universe.finite(),
            endpoints_in(g, universe),
            i <= walk_order@.len(),
            sv(visited@).no_duplicates(),
            forall|x: Seq<char>| sv(visited@).contains(x) ==> universe.contains(x),
            forall|x: Seq<char>| sv(stack@).contains(x) ==> sv(visited@).contains(x),
            forall|k: int| 0 <= k < i ==> sv(visited@).contains(#[trigger] sv(walk_order@)[k]),
            forall|k: int| 0 <= k < cycles@.len() ==> (#[trigger] cycles@[k])@.len() == 2
                && edge(g, cycles@[k]@[1]@, cycles@[k]@[0]@),
            cycles@.len() == 0 ==> walk_clean(g, sv(visited@), sv(stack@), done) && sv(stack@).len() == 0,
            cycles@.len() > 0 ==> has_cycle(g),
        decreases walk_order@.len() - i,
    {
        let issue = &walk_order[i];
        assert(sv(walk_order@)[i as int] == issue@);
        assert(universe.contains(issue@));
        if !list_contains(&visited, issue.as_str()) {
            let ghost before = cycles@;
            let (found, Ghost(after)) = dfs(issue, deps, &mut visited, &mut stack, Ghost(universe), Ghost(done));
            match found {
                Some(c) => {
                    cycles.push(c);
                    assert(cycles@[cycles@.len() - 1] == c);
                    assert forall|k: int| 0 <= k < cycles@.len() implies (#[trigger] cycles@[k])@.len() == 2
                        && edge(g, cycles@[k]@[1]@, cycles@[k]@[0]@) by {
                        if k < before.len() {
                            assert(cycles@[k] == before[k]);
                        }
                    }
                },
                None => {
                    proof {
                        if cycles@.len() == 0 {
                            done = after;
                        }
                    }
                },
            }
        }
        i = i + 1;
    }
    proof {
        if cycles@.len() == 0 {
            assert forall|x: Seq<char>| universe.contains(x) implies done.contains(x) by {
                let k = choose|k: int| 0 <= k < sv(walk_order@).len() && sv(walk_order@)[k] == x;
                assert(sv(visited@).contains(sv(walk_order@)[k]));
            }
            lemma_acyclic(g, done, universe);
        }
    }
    cycles
}

/// The cycles as the graph check lists them: each `[a, b]` as `a -> b`,
/// joined with `; `.
pub open spec fn cycles_text(cycles: Seq<Vec<String>>) -> Seq<char> {
    join_seq(cycles.map_values(|c: Vec<String>| join_seq(sv(c@), " -> "@)), "; "@)
}

/// What the dependency-graph check concludes: self-edges are refused
/// first, then cycles; otherwise it reports the counts.
pub open spec fn graph_answer(self_edges: i64, cycles: Seq<Vec<String>>, deps: i64, blocked: i64) -> Result<Seq<char>, Seq<char>> {
    if self_edges > 0 {
        Err("Found "@ + int_text(self_edges as int) + " self-edge dependencies"@)
    } else if cycles.len() > 0 {
        Err("Found "@ + int_text(cycles.len() as int) + " dependency cycles: "@ + cycles_text(cycles))
    } else {
        Ok("Dependency graph OK: "@ + int_text(deps as int) + " dependencies, "@ + int_text(blocked as int)
            + " blocked issues, no cycles"@)
    }
}

/// The dependency-graph check's message from the self-edge count, the
/// detected cycles, the dependency count and the blocked-issue count;
/// self-edges and cycles are integrity errors.
pub fn dependency_graph_answer(self_edges: i64, cycles: &Vec<Vec<String>>, dep_count: i64, blocked_count: i64) -> (r: Result<String, Error>)
    ensures
        match graph_answer(self_edges, cycles@, dep_count, blocked_count) {
            Ok(m) => r matches Ok(s) && s@ == m,
            Err(m) => r matches Err(e) && e.is(ErrorKind::Integrity, m),
        },
{
    if self_edges > 0 {
        let mut m = cat("Found ", i64_text(self_edges).as_str());
        push_str(&mut m, " self-edge dependencies");
        return Err(Error::Integrity(m));
    }
    if cycles.len() > 0 {
        let mut parts: Vec<String> = Vec::new();
        let mut i: usize = 0;
        while i < cycles.len()
            invariant
                i <= cycles@.len(),
                sv(parts@) == cycles@.take(i as int).map_values(|c: Vec<String>| join_seq(sv(c@), " -> "@)),
            decreases cycles@.len() - i,
        {
            let part = join(&cycles[i], " -> ");
            let ghost before = sv(parts@);
            parts.push(part);
            assert(sv(parts@) =~= before.push(part@));
            assert(cycles@.take(i + 1).map_values(|c: Vec<String>| join_seq(sv(c@), " -> "@))
                =~= cycles@.take(i as int).map_values(|c: Vec<String>| join_seq(sv(c@), " -> "@)).push(part@));
            i = i + 1;
        }
        assert(cycles@.take(cycles@.len() as int) =~= cycles@);
        let mut m = cat("Found ", u64_text(cycles.len() as u64).as_str());
        push_str(&mut m, " dependency cycles: ");
        let listed = join(&parts, "; ");
        push_str(&mut m, listed.as_str());
        return Err(Error::Integrity(m));
    }
    let mut m = cat("Dependency graph OK: ", i64_text(dep_count).as_str());
    push_str(&mut m, " dependencies, ");
    push_str(&mut m, i64_text(blocked_count).as_str());
    push_str(&mut m, " blocked issues, no cycles");
    Ok(m)
}

/// The dependency-graph check over the dependency rows: refuse self-edges
/// (their count comes from the store), then detect cycles walking the
/// issues in `walk_order`; a clean graph reports the counts. The check
/// passes exactly when there is no self-edge and the graph is acyclic.
pub fn dependency_graph_check(
    self_edges: i64,
    deps: &Vec<(String, String)>,
    walk_order: &Vec<String>,
    dep_count: i64,
    blocked_count: i64,
) -> (r: Result<String, Error>)
    requires
        endpoints_in(graph_of(deps@), sv(walk_order@).to_set()),
    ensures
        r is Ok <==> (self_edges <= 0 && !has_cycle(graph_of(deps@))),
        self_edges > 0 ==> (r matches Err(e) && e.is(ErrorKind::Integrity,
            "Found "@ + int_text(self_edges as int) + " self-edge dependencies"@)),
        r matches Ok(m) ==> m@ == "Dependency graph OK: "@ + int_text(dep_count as int) + " dependencies, "@
            + int_text(blocked_count as int) + " blocked issues, no cycles"@,
        r matches Err(e) ==> e is Integrity,
{
    if self_edges > 0 {
        let none: Vec<Vec<String>> = Vec::new();
        return dependency_graph_answer(self_edges, &none, dep_count, blocked_count);
    }
    let cycles = detect_dependency_cycles(deps, walk_order);
    dependency_graph_answer(self_edges, &cycles, dep_count, blocked_count)
}

} // verus!
