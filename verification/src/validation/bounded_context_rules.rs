//! Bounded context rules: no circular dependencies between contexts
//! (VSA200), no reaching out of a context (VSA201), a `_shared` folder in
//! each context (VSA202).

use vstd::prelude::*;

use crate::assoc::{as_map, assoc_insert, find_key, has_key, keys_of, keys_unique, lookup, strs};
use crate::config::supported_language;
use crate::error::VsaError;
use crate::integration_events::IntegrationEventRegistry;
use crate::manifest::{contains_string, push_new};
use crate::path::{push_path, push_path_str};
use crate::scanner::{
    context_indices, contexts_in, contexts_match, entry_name, feature_paths, feature_paths_of,
    features_in, skipped_domain,
};
use crate::text::{contains, owned, str_contains};
use crate::tree::{FsEntry, path_exists};
use super::suggestions::{Suggestion, create_file_view, manual_view};
use super::{
    EnhancedValidationReport, IssueView, Severity, ValidationContext, ValidationIssue, ValidationRule, concat_map,
    issue, issues_view, lemma_concat_map_empty, lemma_concat_map_step, lemma_grew_extends,
    push_issue, report_grew,
};

verus! {

/// Rule: no circular dependencies between contexts.
pub struct NoCircularDependenciesRule;

/// Rule: contexts should not directly access each other's internals.
pub struct ContextBoundariesRule;

/// Rule: each context should have a `_shared` folder.
pub struct RequireSharedFolderRule;

/// The path of the `k`-th context under `root`.
pub open spec fn context_path(es: Seq<FsEntry>, root: Seq<char>, k: int) -> Seq<char> {
    es[context_indices(es, root)[k]].path@
}

/// The number of contexts under `root`.
pub open spec fn context_count(es: Seq<FsEntry>, root: Seq<char>) -> int {
    context_indices(es, root).len() as int
}

// ============================================================================
// Dependency graphs and cycles
// ============================================================================

/// Whether the graph has an edge from `a` to `b`: `b` is among the
/// dependencies listed under `a`.
pub open spec fn has_edge(g: Seq<(String, Vec<String>)>, a: Seq<char>, b: Seq<char>) -> bool {
    match lookup(g, a) {
        Some(deps) => strs(deps@).contains(b),
        None => false,
    }
}

/// Whether `p` is a cycle through `start`: it starts and ends at `start`,
/// and each step follows an edge.
pub open spec fn is_cycle(g: Seq<(String, Vec<String>)>, start: Seq<char>, p: Seq<Seq<char>>) -> bool {
    &&& p.len() >= 2
    &&& p[0] == start
    &&& p.last() == start
    &&& forall|i: int| 0 <= i < p.len() - 1 ==> has_edge(g, #[trigger] p[i], p[i + 1])
}

/// Whether `p` is a walk from `start` along edges of `g`.
pub open spec fn is_walk(g: Seq<(String, Vec<String>)>, start: Seq<char>, p: Seq<Seq<char>>) -> bool {
    &&& p.len() >= 1
    &&& p[0] == start
    &&& forall|i: int| 0 <= i < p.len() - 1 ==> has_edge(g, #[trigger] p[i], p[i + 1])
}

/// Every node some edge of `g` leads to, in order.
pub open spec fn dep_names(g: Seq<(String, Vec<String>)>) -> Seq<Seq<char>>
    decreases g.len(),
{
    if g.len() == 0 {
        Seq::empty()
    } else {
        dep_names(g.drop_last()) + strs(g.last().1@)
    }
}

/// The nodes a search for `target` in `g` can reach: `target` and every
/// node an edge leads to.
pub open spec fn search_universe(g: Seq<(String, Vec<String>)>, target: Seq<char>) -> Set<Seq<char>> {
    dep_names(g).push(target).to_set()
}

/// The invariant of a depth-first search for `target`: each visited node
/// that is off the current path `ps` is finished, with no edge to `target`
/// and all of its successors visited.
pub open spec fn search_closed(
    g: Seq<(String, Vec<String>)>,
    target: Seq<char>,
    vs: Seq<Seq<char>>,
    ps: Seq<Seq<char>>,
) -> bool {
    &&& forall|v: Seq<char>| #[trigger] vs.contains(v) && !ps.contains(v) ==> !has_edge(g, v, target)
    &&& forall|v: Seq<char>, b: Seq<char>|
        vs.contains(v) && !ps.contains(v) && #[trigger] has_edge(g, v, b) ==> vs.contains(b)
}

/// The number of nodes of the universe a search has not visited yet.
pub open spec fn unvisited(g: Seq<(String, Vec<String>)>, target: Seq<char>, vs: Seq<Seq<char>>) -> nat {
    search_universe(g, target).difference(vs.to_set()).len()
}

/// An edge leads into the universe of the search.
proof fn lemma_edge_in_universe(g: Seq<(String, Vec<String>)>, target: Seq<char>, a: Seq<char>, b: Seq<char>)
    requires
        has_edge(g, a, b),
    ensures
        search_universe(g, target).contains(b),
    decreases g.len(),
{
    crate::assoc::lemma_key_index(g, a);
    let i = crate::assoc::key_index(g, a)->0;
    lemma_dep_names_contains(g, i, b);
    let u = dep_names(g);
    let k = choose|k: int| 0 <= k < u.len() && u[k] == b;
    assert(u.push(target)[k] == b);
}

proof fn lemma_dep_names_contains(g: Seq<(String, Vec<String>)>, i: int, b: Seq<char>)
    requires
        0 <= i < g.len(),
        strs(g[i].1@).contains(b),
    ensures
        dep_names(g).contains(b),
    decreases g.len(),
{
    let last = strs(g.last().1@);
    let prev = dep_names(g.drop_last());
    if i == g.len() - 1 {
        let j = choose|j: int| 0 <= j < last.len() && last[j] == b;
        assert((prev + last)[prev.len() + j] == b);
    } else {
        assert(g.drop_last()[i] == g[i]);
        lemma_dep_names_contains(g.drop_last(), i, b);
        let j = choose|j: int| 0 <= j < prev.len() && prev[j] == b;
        assert((prev + last)[j] == b);
    }
}

/// Visiting a new node of the universe leaves fewer unvisited.
proof fn lemma_unvisited_drops(
    g: Seq<(String, Vec<String>)>,
    target: Seq<char>,
    v0: Seq<Seq<char>>,
    v1: Seq<Seq<char>>,
    c: Seq<char>,
)
    requires
        search_universe(g, target).contains(c),
        !v0.contains(c),
        v1.contains(c),
        forall|x: Seq<char>| v0.contains(x) ==> v1.contains(x),
    ensures
        unvisited(g, target, v1) < unvisited(g, target, v0),
{
    let u = search_universe(g, target);
    vstd::seq_lib::seq_to_set_is_finite(dep_names(g).push(target));
    let d0 = u.difference(v0.to_set());
    let d1 = u.difference(v1.to_set());
    assert(d0.contains(c));
    vstd::set::axiom_set_difference_finite(u, v0.to_set());
    vstd::set::axiom_set_remove_len(d0, c);
    assert(d1.subset_of(d0.remove(c)));
    vstd::set_lib::lemma_len_subset(d1, d0.remove(c));
}

/// A closed search that visited the start of a walk visited every node
/// of it but the last.
proof fn lemma_walk_visited(
    g: Seq<(String, Vec<String>)>,
    target: Seq<char>,
    vs: Seq<Seq<char>>,
    p: Seq<Seq<char>>,
    i: int,
)
    requires
        search_closed(g, target, vs, Seq::empty()),
        vs.contains(p[0]),
        0 <= i <= p.len() - 1,
        forall|i: int| 0 <= i < p.len() - 1 ==> has_edge(g, #[trigger] p[i], p[i + 1]),
    ensures
        vs.contains(p[i]),
    decreases i,
{
    if i > 0 {
        lemma_walk_visited(g, target, vs, p, i - 1);
        assert(has_edge(g, p[i - 1], p[i]));
        assert(!Seq::<Seq<char>>::empty().contains(p[i - 1]));
    }
}

/// A closed search for `start` that visited `start` finds that no cycle
/// passes through it.
proof fn lemma_closed_no_cycle(
    g: Seq<(String, Vec<String>)>,
    start: Seq<char>,
    vs: Seq<Seq<char>>,
    p: Seq<Seq<char>>,
)
    requires
        search_closed(g, start, vs, Seq::empty()),
        vs.contains(start),
    ensures
        !is_cycle(g, start, p),
{
    if is_cycle(g, start, p) {
        let n = p.len() - 2;
        lemma_walk_visited(g, start, vs, p, n);
        assert(has_edge(g, p[n], p[n + 1]));
        assert(!Seq::<Seq<char>>::empty().contains(p[n]));
    }
}

fn deps_of<'a>(g: &'a Vec<(String, Vec<String>)>, node: &str) -> (r: Option<&'a Vec<String>>)
    ensures
        match r {
            Some(d) => lookup(g@, node@) == Some(*d),
            None => lookup(g@, node@) is None,
        },
{
    match find_key(g, node) {
        Some(i) => Some(&g[i].1),
        None => None,
    }
}

impl NoCircularDependenciesRule {
    /// Depth-first search from `current` for a way back to `target`,
    /// marking each node it enters as visited. When it fails, every node it
    /// entered is finished: no edge from it leads to `target`, and each of
    /// its successors was visited.
    fn dfs(
        &self,
        current: &String,
        target: &String,
        g: &Vec<(String, Vec<String>)>,
        visited: &mut Vec<String>,
        path: &mut Vec<String>,
    ) -> (found: bool)
        requires
            old(path)@.len() == 0 ==> current@ == target@,
            old(path)@.len() > 0 ==> is_walk(g@, target@, strs(old(path)@)) && has_edge(
                g@,
                strs(old(path)@).last(),
                current@,
            ),
            search_universe(g@, target@).contains(current@),
            search_closed(g@, target@, strs(old(visited)@), strs(old(path)@)),
            forall|x: Seq<char>| #[trigger] strs(old(path)@).contains(x) ==> strs(old(visited)@).contains(x),
        ensures
            found ==> is_walk(g@, target@, strs(final(path)@)) && has_edge(
                g@,
                strs(final(path)@).last(),
                target@,
            ),
            (old(path)@.len() > 0 && current@ == target@) ==> found,
            forall|x: Seq<char>| #[trigger] strs(old(visited)@).contains(x) ==> strs(final(visited)@).contains(x),
            !found ==> final(path)@ == old(path)@,
            !found ==> strs(final(visited)@).contains(current@),
            !found ==> search_closed(g@, target@, strs(final(visited)@), strs(old(path)@)),
        decreases unvisited(g@, target@, strs(old(visited)@)),
    {
        if path.len() > 0 && *current == *target {
            return true;
        }
        if contains_string(visited, current) {
            return false;
        }
        let ghost v0 = strs(visited@);
        let ghost p0 = path@;
        let ghost sp0 = strs(p0);
        visited.push(current.clone());
        path.push(current.clone());
        proof {
            let sp = strs(path@);
            assert(sp == sp0.push(current@));
            assert forall|i: int| 0 <= i < sp.len() - 1 implies has_edge(
                g@,
                #[trigger] sp[i],
                sp[i + 1],
            ) by {
                if i < sp.len() - 2 {
                    assert(sp[i] == sp0[i] && sp[i + 1] == sp0[i + 1]);
                }
            }
            let sv = strs(visited@);
            assert(sv == v0.push(current@));
            assert forall|x: Seq<char>| v0.contains(x) implies sv.contains(x) by {
                let j = choose|j: int| 0 <= j < v0.len() && v0[j] == x;
                assert(sv[j] == x);
            }
            assert(sv[v0.len() as int] == current@);
            assert forall|x: Seq<char>| #[trigger] sp.contains(x) implies sv.contains(x) by {
                let j = choose|j: int| 0 <= j < sp.len() && sp[j] == x;
                if j < sp0.len() {
                    assert(sp0[j] == x);
                    assert(sp0.contains(x));
                }
            }
            assert forall|v: Seq<char>| #[trigger] sv.contains(v) && !sp.contains(v) implies !has_edge(
                g@,
                v,
                target@,
            ) by {
                let j = choose|j: int| 0 <= j < sv.len() && sv[j] == v;
                if j < v0.len() {
                    assert(v0[j] == v);
                    if sp0.contains(v) {
                        let t = choose|t: int| 0 <= t < sp0.len() && sp0[t] == v;
                        assert(sp[t] == v);
                    }
                } else {
                    assert(sp[sp0.len() as int] == v);
                }
            }
            assert forall|v: Seq<char>, b: Seq<char>|
                sv.contains(v) && !sp.contains(v) && #[trigger] has_edge(g@, v, b) implies sv.contains(b) by {
                let j = choose|j: int| 0 <= j < sv.len() && sv[j] == v;
                if j < v0.len() {
                    assert(v0[j] == v);
                    if sp0.contains(v) {
                        let t = choose|t: int| 0 <= t < sp0.len() && sp0[t] == v;
                        assert(sp[t] == v);
                    }
                    assert(v0.contains(b));
                } else {
                    assert(sp[sp0.len() as int] == v);
                }
            }
        }
        match deps_of(g, current.as_str()) {
            Some(deps) => {
                let mut k: usize = 0;
                while k < deps.len()
                    invariant
                        k <= deps@.len(),
                        lookup(g@, current@) == Some(*deps),
                        strs(path@) == sp0.push(current@),
                        is_walk(g@, target@, strs(path@)),
                        path@ == p0.push(path@.last()),
                        path@.last()@ == current@,
                        !v0.contains(current@),
                        v0 == strs(old(visited)@),
                        search_universe(g@, target@).contains(current@),
                        forall|x: Seq<char>| #[trigger] v0.contains(x) ==> strs(visited@).contains(x),
                        strs(visited@).contains(current@),
                        search_closed(g@, target@, strs(visited@), strs(path@)),
                        forall|x: Seq<char>| #[trigger] strs(path@).contains(x) ==> strs(visited@).contains(x),
                        forall|j: int|
                            0 <= j < k ==> strs(visited@).contains(#[trigger] deps@[j]@) && deps@[j]@ != target@,
                    decreases deps.len() - k,
                {
                    assert(strs(deps@)[k as int] == deps@[k as int]@);
                    assert(has_edge(g@, strs(path@).last(), deps@[k as int]@));
                    proof {
                        lemma_edge_in_universe(g@, target@, current@, deps@[k as int]@);
                        lemma_unvisited_drops(g@, target@, v0, strs(visited@), current@);
                    }
                    let ghost vb = strs(visited@);
                    assert(v0 == strs(old(visited)@));
                    assert(unvisited(g@, target@, vb) < unvisited(g@, target@, strs(old(visited)@)));
                    if self.dfs(&deps[k], target, g, visited, path) {
                        proof {
                            assert forall|x: Seq<char>| #[trigger] v0.contains(x) implies strs(visited@).contains(x) by {
                                assert(vb.contains(x));
                            }
                        }
                        return true;
                    }
                    proof {
                        assert forall|x: Seq<char>| #[trigger] v0.contains(x) implies strs(visited@).contains(x) by {
                            assert(vb.contains(x));
                        }
                        assert forall|j: int|
                            0 <= j < k + 1 implies strs(visited@).contains(#[trigger] deps@[j]@) && deps@[j]@ != target@ by {
                            if j < k {
                                assert(vb.contains(deps@[j]@));
                            }
                        }
                    }
                    k = k + 1;
                }
                proof {
                    let sv = strs(visited@);
                    assert forall|b: Seq<char>| has_edge(g@, current@, b) implies sv.contains(b) && b != target@ by {
                        let j = choose|j: int| 0 <= j < strs(deps@).len() && strs(deps@)[j] == b;
                        assert(deps@[j]@ == b);
                    }
                }
            },
            None => {},
        }
        path.pop();
        proof {
            assert(path@ =~= p0);
            let sv = strs(visited@);
            let sp = sp0.push(current@);
            assert forall|x: Seq<char>| #[trigger] sp0.contains(x) implies sp.contains(x) by {
                let j = choose|j: int| 0 <= j < sp0.len() && sp0[j] == x;
                assert(sp[j] == x);
            }
            assert(!sp0.contains(current@));
            assert forall|v: Seq<char>| #[trigger] sv.contains(v) && !sp0.contains(v) implies !has_edge(
                g@,
                v,
                target@,
            ) by {
                if v != current@ {
                    if sp.contains(v) {
                        let j = choose|j: int| 0 <= j < sp.len() && sp[j] == v;
                        assert(j < sp0.len());
                        assert(sp0[j] == v);
                    }
                }
            }
            assert forall|v: Seq<char>, b: Seq<char>|
                sv.contains(v) && !sp0.contains(v) && #[trigger] has_edge(g@, v, b) implies sv.contains(b) by {
                if v != current@ {
                    if sp.contains(v) {
                        let j = choose|j: int| 0 <= j < sp.len() && sp[j] == v;
                        assert(j < sp0.len());
                        assert(sp0[j] == v);
                    }
                }
            }
        }
        false
    }

    /// A cycle through `start`, when there is one: `start`, the nodes on
    /// the way, and `start` again. None comes back only when no cycle
    /// passes through `start`.
    pub fn find_cycle(&self, start: &str, dependencies: &Vec<(String, Vec<String>)>) -> (r:
        Option<Vec<String>>)
        ensures
            r matches Some(p) ==> is_cycle(dependencies@, start@, strs(p@)),
            r is None ==> forall|p: Seq<Seq<char>>| !is_cycle(dependencies@, start@, p),
    {
        let mut visited: Vec<String> = Vec::new();
        let mut path: Vec<String> = Vec::new();
        let s = owned(start);
        proof {
            let u = dep_names(dependencies@);
            assert(u.push(start@)[u.len() as int] == start@);
            assert(strs(visited@) =~= Seq::<Seq<char>>::empty());
            assert(strs(path@) =~= Seq::<Seq<char>>::empty());
        }
        if self.dfs(&s, &s, dependencies, &mut visited, &mut path) {
            let ghost p0 = strs(path@);
            path.push(s);
            proof {
                let sp = strs(path@);
                assert(sp == p0.push(start@));
                assert forall|i: int| 0 <= i < sp.len() - 1 implies has_edge(
                    dependencies@,
                    #[trigger] sp[i],
                    sp[i + 1],
                ) by {
                    if i < sp.len() - 2 {
                        assert(sp[i] == p0[i] && sp[i + 1] == p0[i + 1]);
                    }
                }
            }
            Some(path)
        } else {
            proof {
                assert(strs(path@) =~= Seq::<Seq<char>>::empty());
                assert forall|p: Seq<Seq<char>>| !is_cycle(dependencies@, start@, p) by {
                    lemma_closed_no_cycle(dependencies@, start@, strs(visited@), p);
                }
            }
            None
        }
    }
}

// ============================================================================
// VSA202: shared folder
// ============================================================================

/// The warning for a context at `p` that has no `_shared` folder.
pub open spec fn missing_shared_warnings(es: Seq<FsEntry>, p: Seq<char>) -> Seq<IssueView> {
    let shared = push_path(p, "_shared"@);
    let name = entry_name(p);
    if path_exists(es, shared) {
        Seq::empty()
    } else {
        seq![
            issue(
                p,
                "Context '"@ + name + "' is missing _shared folder for integration events and types"@,
                "VSA202"@,
                Severity::Warning,
                create_file_view(
                    push_path(shared, ".gitkeep"@),
                    "Create _shared/ directory in "@ + name,
                ),
            ),
        ]
    }
}

/// The warnings of VSA202.
pub open spec fn shared_folder_warnings(es: Seq<FsEntry>, root: Seq<char>) -> Seq<IssueView> {
    concat_map(
        context_count(es, root),
        |k: int| missing_shared_warnings(es, context_path(es, root, k)),
    )
}

/// Whether `w` holds a VSA202 issue at path `p`.
pub open spec fn has_vsa202_at(w: Seq<IssueView>, p: Seq<char>) -> bool {
    exists|i: int| 0 <= i < w.len() && (#[trigger] w[i]).code == "VSA202"@ && w[i].path == p
}

proof fn lemma_has_at_concat(x: Seq<IssueView>, y: Seq<IssueView>, p: Seq<char>)
    ensures
        has_vsa202_at(x + y, p) <==> has_vsa202_at(x, p) || has_vsa202_at(y, p),
{
    if has_vsa202_at(x + y, p) {
        let i = choose|i: int| 0 <= i < (x + y).len() && (#[trigger] (x + y)[i]).code == "VSA202"@ && (x + y)[i].path == p;
        if i < x.len() {
            assert(x[i] == (x + y)[i]);
        } else {
            assert(y[i - x.len()] == (x + y)[i]);
        }
    }
    if has_vsa202_at(x, p) {
        let i = choose|i: int| 0 <= i < x.len() && (#[trigger] x[i]).code == "VSA202"@ && x[i].path == p;
        assert((x + y)[i] == x[i]);
    }
    if has_vsa202_at(y, p) {
        let i = choose|i: int| 0 <= i < y.len() && (#[trigger] y[i]).code == "VSA202"@ && y[i].path == p;
        assert((x + y)[x.len() + i] == y[i]);
    }
}

/// A context at `p` gets the VSA202 warning exactly when it has no
/// `_shared` folder; the warning is then the only issue for it, a warning
/// at `p` that names the context.
pub proof fn lemma_shared_folder_warning(es: Seq<FsEntry>, p: Seq<char>)
    ensures
        has_vsa202_at(missing_shared_warnings(es, p), p) <==> !path_exists(es, push_path(p, "_shared"@)),
        path_exists(es, push_path(p, "_shared"@)) ==> missing_shared_warnings(es, p).len() == 0,
        !path_exists(es, push_path(p, "_shared"@)) ==> {
            let w = missing_shared_warnings(es, p);
            &&& w.len() == 1
            &&& w[0].message == "Context '"@ + entry_name(p)
                + "' is missing _shared folder for integration events and types"@
            &&& w[0].severity == Severity::Warning
        },
{
    let w = missing_shared_warnings(es, p);
    if !path_exists(es, push_path(p, "_shared"@)) {
        assert(w[0].code == "VSA202"@ && w[0].path == p);
    }
}

/// Over a whole project, the VSA202 warnings are at the contexts without a
/// `_shared` folder: each such context gets one, and no context with the
/// folder gets one.
pub proof fn lemma_shared_folder_warnings(es: Seq<FsEntry>, root: Seq<char>, k: int)
    requires
        0 <= k < context_count(es, root),
    ensures
        has_vsa202_at(shared_folder_warnings(es, root), context_path(es, root, k)) <==> !path_exists(
            es,
            push_path(context_path(es, root, k), "_shared"@),
        ),
{
    let p = context_path(es, root, k);
    lemma_shared_at_prefix(es, root, p, context_count(es, root));
    lemma_shared_folder_warning(es, p);
    if !path_exists(es, push_path(p, "_shared"@)) {
        lemma_shared_at_prefix_has(es, root, k, context_count(es, root));
    }
}

/// In the warnings of the first `n` contexts, a VSA202 warning at `p` comes
/// from a context at `p` without a `_shared` folder.
proof fn lemma_shared_at_prefix(es: Seq<FsEntry>, root: Seq<char>, p: Seq<char>, n: int)
    requires
        0 <= n,
    ensures
        has_vsa202_at(
            concat_map(n, |j: int| missing_shared_warnings(es, context_path(es, root, j))),
            p,
        ) ==> !path_exists(es, push_path(p, "_shared"@)),
    decreases n,
{
    let f = |j: int| missing_shared_warnings(es, context_path(es, root, j));
    if n == 0 {
        lemma_concat_map_empty(f);
    } else {
        lemma_concat_map_step(n - 1, f);
        lemma_shared_at_prefix(es, root, p, n - 1);
        lemma_has_at_concat(concat_map(n - 1, f), f(n - 1), p);
        let q = context_path(es, root, n - 1);
        lemma_shared_folder_warning(es, q);
        if has_vsa202_at(f(n - 1), p) {
            assert(missing_shared_warnings(es, q).len() == 1);
            assert(missing_shared_warnings(es, q)[0].path == q);
            assert(p == q);
        }
    }
}

/// The warnings of the first `n` contexts include that of context `k < n`.
proof fn lemma_shared_at_prefix_has(es: Seq<FsEntry>, root: Seq<char>, k: int, n: int)
    requires
        0 <= k < n,
        !path_exists(es, push_path(context_path(es, root, k), "_shared"@)),
    ensures
        has_vsa202_at(
            concat_map(n, |j: int| missing_shared_warnings(es, context_path(es, root, j))),
            context_path(es, root, k),
        ),
    decreases n,
{
    let f = |j: int| missing_shared_warnings(es, context_path(es, root, j));
    let p = context_path(es, root, k);
    lemma_concat_map_step(n - 1, f);
    lemma_has_at_concat(concat_map(n - 1, f), f(n - 1), p);
    if k < n - 1 {
        lemma_shared_at_prefix_has(es, root, k, n - 1);
    } else {
        lemma_shared_folder_warning(es, p);
    }
}

impl ValidationRule for RequireSharedFolderRule {
    open spec fn validate_outcome(
        &self,
        ctx: ValidationContext,
        before: EnhancedValidationReport,
        r: Result<(), VsaError>,
        after: EnhancedValidationReport,
    ) -> bool {
        crate::validation::rules::builtin_result(crate::validation::rules::BuiltinRule::RequireSharedFolder, ctx, before, r, after)
    }

    fn name(&self) -> (r: &str)
        ensures
            r@ == "require-shared-folder"@,
    {
        "require-shared-folder"
    }

    fn code(&self) -> (r: &str)
        ensures
            r@ == "VSA202"@,
    {
        "VSA202"
    }

    fn validate(&self, ctx: &ValidationContext, report: &mut EnhancedValidationReport) -> (r:
        Result<(), VsaError>)
        ensures
            r is Ok,
            report_grew(
                *old(report),
                *final(report),
                Seq::empty(),
                shared_folder_warnings(ctx.tree.entries@, ctx.root@),
            ),
    {
        let ghost es = ctx.tree.entries@;
        let ghost root = ctx.root@;
        let ghost f = |k: int| missing_shared_warnings(es, context_path(es, root, k));
        let ghost w0 = issues_view(report.warnings@);
        let contexts = contexts_in(&ctx.tree, ctx.root.as_str());
        let mut k: usize = 0;
        proof {
            lemma_concat_map_empty(f);
        }
        while k < contexts.len()
            invariant
                k <= contexts@.len(),
                es == ctx.tree.entries@,
                root == ctx.root@,
                f == (|k: int| missing_shared_warnings(es, context_path(es, root, k))),
                contexts_match(contexts@, es, context_indices(es, root)),
                issues_view(report.warnings@) == w0 + concat_map(k as int, f),
                report.errors@ == old(report).errors@,
                report.suggestions@ == old(report).suggestions@,
                w0 == issues_view(old(report).warnings@),
            decreases contexts.len() - k,
        {
            let c = &contexts[k];
            let shared = push_path_str(c.path.as_str(), "_shared");
            let ghost before = issues_view(report.warnings@);
            if !ctx.tree.has_path(shared.as_str()) {
                let mut msg = String::new();
                msg.append("Context '");
                msg.append(c.name.as_str());
                msg.append("' is missing _shared folder for integration events and types");
                let mut smsg = String::new();
                smsg.append("Create _shared/ directory in ");
                smsg.append(c.name.as_str());
                let keep = push_path_str(shared.as_str(), ".gitkeep");
                let sug = Suggestion::create_file(keep, smsg.as_str());
                push_issue(&mut report.warnings, c.path.clone(), msg, "VSA202", Severity::Warning, sug);
            }
            proof {
                lemma_concat_map_step(k as int, f);
                assert(issues_view(report.warnings@) =~= before + f(k as int));
            }
            k = k + 1;
        }
        proof {
            lemma_concat_map_empty(|k: int| Seq::<IssueView>::empty());
            assert(issues_view(report.errors@) =~= issues_view(old(report).errors@) + Seq::<IssueView>::empty());
            lemma_grew_extends(*old(report), *report, Seq::empty(), shared_folder_warnings(es, root));
        }
        Ok(())
    }
}

// ============================================================================
// VSA201: context boundaries
// ============================================================================

/// The warning for a feature at `fp` whose path reaches out with `../`.
pub open spec fn boundary_warnings(fp: Seq<char>) -> Seq<IssueView> {
    if contains(fp, "../"@) {
        seq![
            issue(
                fp,
                "Feature '"@ + entry_name(fp)
                    + "' may be accessing parent directories - ensure it only imports from _shared/integration-events"@,
                "VSA201"@,
                Severity::Warning,
                manual_view("Review imports to ensure proper context boundaries"@),
            ),
        ]
    } else {
        Seq::empty()
    }
}

/// A feature gets the VSA201 warning exactly when its path reaches out with
/// `../`; the warning is then its only one, at the feature's path.
pub proof fn lemma_boundary_warning(fp: Seq<char>)
    ensures
        has_issue_code_at(boundary_warnings(fp), "VSA201"@, fp) <==> contains(fp, "../"@),
        boundary_warnings(fp).len() <= 1,
{
    if contains(fp, "../"@) {
        assert(boundary_warnings(fp)[0].code == "VSA201"@ && boundary_warnings(fp)[0].path == fp);
    }
}

/// Whether `w` holds an issue with code `code` at path `p`.
pub open spec fn has_issue_code_at(w: Seq<IssueView>, code: Seq<char>, p: Seq<char>) -> bool {
    exists|i: int| 0 <= i < w.len() && (#[trigger] w[i]).code == code && w[i].path == p
}

/// The features of the context at `p`.
pub open spec fn context_features(es: Seq<FsEntry>, p: Seq<char>, config: crate::config::VsaConfig) -> Seq<Seq<char>> {
    feature_paths(
        es,
        p,
        skipped_domain(config),
        config.validation.allow_nested_features,
        es.len() as nat,
    )
}

/// The warnings of VSA201 for the context at `p`.
pub open spec fn context_boundary_warnings(
    es: Seq<FsEntry>,
    p: Seq<char>,
    config: crate::config::VsaConfig,
) -> Seq<IssueView> {
    let fs = context_features(es, p, config);
    concat_map(fs.len() as int, |j: int| boundary_warnings(fs[j]))
}

/// The warnings of VSA201.
pub open spec fn boundaries_warnings(
    es: Seq<FsEntry>,
    root: Seq<char>,
    config: crate::config::VsaConfig,
) -> Seq<IssueView> {
    concat_map(
        context_count(es, root),
        |k: int| context_boundary_warnings(es, context_path(es, root, k), config),
    )
}

impl ValidationRule for ContextBoundariesRule {
    open spec fn validate_outcome(
        &self,
        ctx: ValidationContext,
        before: EnhancedValidationReport,
        r: Result<(), VsaError>,
        after: EnhancedValidationReport,
    ) -> bool {
        crate::validation::rules::builtin_result(crate::validation::rules::BuiltinRule::ContextBoundaries, ctx, before, r, after)
    }

    fn name(&self) -> (r: &str)
        ensures
            r@ == "context-boundaries"@,
    {
        "context-boundaries"
    }

    fn code(&self) -> (r: &str)
        ensures
            r@ == "VSA201"@,
    {
        "VSA201"
    }

    fn validate(&self, ctx: &ValidationContext, report: &mut EnhancedValidationReport) -> (r:
        Result<(), VsaError>)
        ensures
            r is Ok,
            report_grew(
                *old(report),
                *final(report),
                Seq::empty(),
                boundaries_warnings(ctx.tree.entries@, ctx.root@, ctx.config),
            ),
    {
        let ghost es = ctx.tree.entries@;
        let ghost root = ctx.root@;
        let ghost f = |k: int| context_boundary_warnings(es, context_path(es, root, k), ctx.config);
        let ghost w0 = issues_view(report.warnings@);
        let contexts = contexts_in(&ctx.tree, ctx.root.as_str());
        let mut k: usize = 0;
        proof {
            lemma_concat_map_empty(f);
        }
        while k < contexts.len()
            invariant
                k <= contexts@.len(),
                es == ctx.tree.entries@,
                root == ctx.root@,
                f == (|k: int| context_boundary_warnings(es, context_path(es, root, k), ctx.config)),
                contexts_match(contexts@, es, context_indices(es, root)),
                issues_view(report.warnings@) == w0 + concat_map(k as int, f),
                report.errors@ == old(report).errors@,
                report.suggestions@ == old(report).suggestions@,
                w0 == issues_view(old(report).warnings@),
            decreases contexts.len() - k,
        {
            let c = &contexts[k];
            let features = features_in(&ctx.config, &ctx.tree, c.path.as_str());
            let ghost fs = feature_paths_of(features@);
            let ghost g = |j: int| boundary_warnings(fs[j]);
            let ghost before = issues_view(report.warnings@);
            let mut j: usize = 0;
            proof {
                lemma_concat_map_empty(g);
            }
            while j < features.len()
                invariant
                    j <= features@.len(),
                    fs == feature_paths_of(features@),
                    g == (|j: int| boundary_warnings(fs[j])),
                    crate::scanner::features_named(features@, c.path@),
                    issues_view(report.warnings@) == before + concat_map(j as int, g),
                    report.errors@ == old(report).errors@,
                    report.suggestions@ == old(report).suggestions@,
                decreases features.len() - j,
            {
                let fe = &features[j];
                let ghost mid = issues_view(report.warnings@);
                assert(fs[j as int] == fe.path@);
                if str_contains(fe.path.as_str(), "../") {
                    let mut msg = String::new();
                    msg.append("Feature '");
                    msg.append(fe.name.as_str());
                    msg.append(
                        "' may be accessing parent directories - ensure it only imports from _shared/integration-events",
                    );
                    let sug = Suggestion::manual("Review imports to ensure proper context boundaries");
                    push_issue(
                        &mut report.warnings,
                        fe.path.clone(),
                        msg,
                        "VSA201",
                        Severity::Warning,
                        sug,
                    );
                }
                proof {
                    lemma_concat_map_step(j as int, g);
                    assert(issues_view(report.warnings@) =~= mid + g(j as int));
                }
                j = j + 1;
            }
            proof {
                lemma_concat_map_step(k as int, f);
                assert(fs == context_features(es, context_path(es, root, k as int), ctx.config));
                assert(issues_view(report.warnings@) =~= before + f(k as int));
            }
            k = k + 1;
        }
        proof {
            assert(issues_view(report.errors@) =~= issues_view(old(report).errors@) + Seq::<IssueView>::empty());
            lemma_grew_extends(*old(report), *report, Seq::empty(), boundaries_warnings(es, root, ctx.config));
        }
        Ok(())
    }
}

// ============================================================================
// VSA200: circular dependencies
// ============================================================================

/// Whether `a` depends on `b`: `a` is a context and `b` another publisher
/// of an integration event (every context is taken to consume every event
/// published elsewhere).
pub open spec fn depends_on(
    contexts: Seq<Seq<char>>,
    publishers: Seq<Seq<char>>,
    a: Seq<char>,
    b: Seq<char>,
) -> bool {
    contexts.contains(a) && publishers.contains(b) && a != b
}

/// Whether `p` is a cycle of dependencies through `start`.
pub open spec fn is_dependency_cycle(
    contexts: Seq<Seq<char>>,
    publishers: Seq<Seq<char>>,
    start: Seq<char>,
    p: Seq<Seq<char>>,
) -> bool {
    &&& p.len() >= 2
    &&& p[0] == start
    &&& p.last() == start
    &&& forall|i: int| 0 <= i < p.len() - 1 ==> depends_on(contexts, publishers, #[trigger] p[i], p[i + 1])
}

/// The error reporting cycle `p`.
pub open spec fn cycle_issue(root: Seq<char>, p: Seq<Seq<char>>) -> IssueView {
    issue(
        root,
        "Circular dependency detected: "@ + crate::text::join(p, " -> "@),
        "VSA200"@,
        Severity::Error,
        manual_view(
            "Refactor to remove circular dependencies between contexts. Consider introducing a mediator context or restructuring event flows."@,
        ),
    )
}

/// Whether some cycle of dependencies passes through `c`.
pub open spec fn on_cycle(contexts: Seq<Seq<char>>, publishers: Seq<Seq<char>>, c: Seq<char>) -> bool {
    exists|p: Seq<Seq<char>>| is_dependency_cycle(contexts, publishers, c, p)
}

/// The contexts that lie on a cycle of dependencies, each named once, in
/// the order of the contexts.
pub open spec fn cyclic_contexts(contexts: Seq<Seq<char>>, publishers: Seq<Seq<char>>) -> Seq<Seq<char>> {
    push_new(Seq::empty(), contexts).filter(|c: Seq<char>| on_cycle(contexts, publishers, c))
}

/// Whether the issues of `errs` from position `from` on are, one for each
/// of `starts` and in their order, reports of a cycle through it.
pub open spec fn reports_cycles(
    errs: Seq<ValidationIssue>,
    from: int,
    starts: Seq<Seq<char>>,
    contexts: Seq<Seq<char>>,
    publishers: Seq<Seq<char>>,
    root: Seq<char>,
) -> bool {
    &&& errs.len() == from + starts.len()
    &&& forall|j: int|
        0 <= j < starts.len() ==> exists|p: Seq<Seq<char>>|
            is_dependency_cycle(contexts, publishers, #[trigger] starts[j], p) && errs[from + j]@
                == cycle_issue(root, p)
}

/// The names of the contexts under `root`.
pub open spec fn context_names(es: Seq<FsEntry>, root: Seq<char>) -> Seq<Seq<char>> {
    Seq::new(context_count(es, root) as nat, |k: int| entry_name(context_path(es, root, k)))
}

/// Every edge of `g` is a dependency.
pub open spec fn graph_sound(
    g: Seq<(String, Vec<String>)>,
    contexts: Seq<Seq<char>>,
    publishers: Seq<Seq<char>>,
) -> bool {
    forall|i: int|
        0 <= i < g.len() ==> contexts.contains((#[trigger] g[i]).0@) && forall|j: int|
            0 <= j < g[i].1@.len() ==> depends_on(contexts, publishers, g[i].0@, #[trigger] g[i].1@[j]@)
}

proof fn lemma_sound_edge(
    g: Seq<(String, Vec<String>)>,
    contexts: Seq<Seq<char>>,
    publishers: Seq<Seq<char>>,
    a: Seq<char>,
    b: Seq<char>,
)
    requires
        graph_sound(g, contexts, publishers),
        has_edge(g, a, b),
    ensures
        depends_on(contexts, publishers, a, b),
{
    crate::assoc::lemma_key_index(g, a);
    let i = crate::assoc::key_index(g, a)->0;
    let deps = g[i].1;
    let j = choose|j: int| 0 <= j < strs(deps@).len() && strs(deps@)[j] == b;
    assert(deps@[j]@ == b);
}

impl ValidationRule for NoCircularDependenciesRule {
    open spec fn validate_outcome(
        &self,
        ctx: ValidationContext,
        before: EnhancedValidationReport,
        r: Result<(), VsaError>,
        after: EnhancedValidationReport,
    ) -> bool {
        crate::validation::rules::builtin_result(crate::validation::rules::BuiltinRule::NoCircularDependencies, ctx, before, r, after)
    }

    fn name(&self) -> (r: &str)
        ensures
            r@ == "no-circular-dependencies"@,
    {
        "no-circular-dependencies"
    }

    fn code(&self) -> (r: &str)
        ensures
            r@ == "VSA200"@,
    {
        "VSA200"
    }

    fn validate(&self, ctx: &ValidationContext, report: &mut EnhancedValidationReport) -> (r:
        Result<(), VsaError>)
        ensures
            r is Ok <==> crate::config::supported_language(ctx.config.language@),
            r matches Err(e) ==> crate::config::is_unsupported_language(e, ctx.config.language@)
                && *final(report) == *old(report),
            final(report).warnings@ == old(report).warnings@,
            final(report).suggestions@ == old(report).suggestions@,
            issues_view(old(report).errors@).is_prefix_of(issues_view(final(report).errors@)),
            r is Ok ==> reports_cycles(
                final(report).errors@,
                old(report).errors@.len() as int,
                cyclic_contexts(
                    context_names(ctx.tree.entries@, ctx.root@),
                    crate::integration_events::event_publishers(
                        crate::integration_events::scanned_events(
                            ctx.tree.entries@,
                            ctx.root@,
                            ctx.config.patterns,
                        ),
                    ),
                ),
                context_names(ctx.tree.entries@, ctx.root@),
                crate::integration_events::event_publishers(
                    crate::integration_events::scanned_events(
                        ctx.tree.entries@,
                        ctx.root@,
                        ctx.config.patterns,
                    ),
                ),
                ctx.root@,
            ),
    {
        match ctx.config.check_language() {
            Ok(()) => {},
            Err(e) => {
                proof {
                    crate::validation::lemma_extends_refl(*report);
                    assert(issues_view(report.errors@).is_prefix_of(issues_view(report.errors@)));
                }
                return Err(e);
            },
        }
        let ghost es = ctx.tree.entries@;
        let ghost root = ctx.root@;
        let registry = IntegrationEventRegistry::scan(&ctx.config, ctx.root.as_str(), &ctx.tree);
        let contexts = contexts_in(&ctx.tree, ctx.root.as_str());
        let events = registry.all_events();
        let ghost names = context_names(es, root);
        let ghost pubs = crate::integration_events::event_publishers(
            crate::integration_events::scanned_events(es, root, ctx.config.patterns),
        );
        proof {
            assert forall|m: int| 0 <= m < events@.len() implies pubs[m] == #[trigger] events@[m].publisher@ by {
            }
            assert forall|m: int| 0 <= m < events@.len() implies pubs.contains(
                #[trigger] events@[m].publisher@,
            ) by {
                assert(pubs[m] == events@[m].publisher@);
            }
            assert(keys_of(Seq::<(String, Vec<String>)>::empty()) =~= push_new(Seq::empty(), names.subrange(0, 0)));
        }
        let mut g: Vec<(String, Vec<String>)> = Vec::new();
        let mut k: usize = 0;
        while k < contexts.len()
            invariant
                k <= contexts@.len(),
                es == ctx.tree.entries@,
                root == ctx.root@,
                names == context_names(es, root),
                contexts_match(contexts@, es, context_indices(es, root)),
                events@.len() == pubs.len(),
                forall|m: int| 0 <= m < events@.len() ==> pubs[m] == #[trigger] events@[m].publisher@,
                forall|m: int| 0 <= m < events@.len() ==> pubs.contains(#[trigger] events@[m].publisher@),
                keys_unique(g@),
                graph_sound(g@, names, pubs),
                keys_of(g@) == push_new(Seq::empty(), names.subrange(0, k as int)),
                forall|a: Seq<char>, b: Seq<char>|
                    names.subrange(0, k as int).contains(a) && #[trigger] depends_on(names, pubs, a, b)
                        ==> has_edge(g@, a, b),
            decreases contexts.len() - k,
        {
            let c = &contexts[k];
            assert(names[k as int] == c.name@);
            let mut deps: Vec<String> = match find_key(&g, c.name.as_str()) {
                Some(i) => crate::assoc::copy_strings(&g[i].1),
                None => Vec::new(),
            };
            proof {
                assert forall|j: int| 0 <= j < deps@.len() implies depends_on(names, pubs, c.name@, #[trigger] deps@[j]@) by {
                    crate::assoc::lemma_key_index(g@, c.name@);
                }
            }
            let mut m: usize = 0;
            while m < events.len()
                invariant
                    m <= events@.len(),
                    names.contains(c.name@),
                    forall|m: int| 0 <= m < events@.len() ==> pubs.contains(#[trigger] events@[m].publisher@),
                    forall|j: int| 0 <= j < deps@.len() ==> depends_on(names, pubs, c.name@, #[trigger] deps@[j]@),
                    forall|mm: int|
                        #![trigger events@[mm]]
                        0 <= mm < m && events@[mm].publisher@ != c.name@ ==> strs(deps@).contains(
                            events@[mm].publisher@,
                        ),
                decreases events.len() - m,
            {
                let e = events[m];
                let ghost d0 = strs(deps@);
                if e.publisher != c.name && !contains_string(&deps, &e.publisher) {
                    deps.push(e.publisher.clone());
                    proof {
                        let d1 = strs(deps@);
                        assert(d1 == d0.push(e.publisher@));
                        assert(d1[d0.len() as int] == e.publisher@);
                        assert forall|mm: int|
                            #![trigger events@[mm]]
                            0 <= mm < m && events@[mm].publisher@ != c.name@ implies d1.contains(
                                events@[mm].publisher@,
                            ) by {
                            let x = events@[mm].publisher@;
                            let t = choose|t: int| 0 <= t < d0.len() && d0[t] == x;
                            assert(d1[t] == x);
                        }
                    }
                }
                m = m + 1;
            }
            let ghost g0 = g@;
            let ghost dv = deps;
            proof {
                assert forall|b: Seq<char>| pubs.contains(b) && b != c.name@ implies #[trigger] strs(dv@).contains(b) by {
                    let t = choose|t: int| 0 <= t < pubs.len() && pubs[t] == b;
                    assert(events@[t].publisher@ == b);
                }
                crate::assoc::lemma_key_index(g0, c.name@);
                if has_key(g0, c.name@) {
                    let t = choose|t: int| 0 <= t < g0.len() && (#[trigger] g0[t]).0@ == c.name@;
                    assert(keys_of(g0)[t] == c.name@);
                }
                if keys_of(g0).contains(c.name@) {
                    let t = choose|t: int| 0 <= t < keys_of(g0).len() && keys_of(g0)[t] == c.name@;
                    assert(g0[t].0@ == c.name@);
                }
                assert(names.subrange(0, k + 1).drop_last() =~= names.subrange(0, k as int));
            }
            assoc_insert(&mut g, c.name.clone(), deps);
            proof {
                assert forall|i: int| 0 <= i < g@.len() implies names.contains((#[trigger] g@[i]).0@) && forall|j: int|
                    0 <= j < g@[i].1@.len() ==> depends_on(names, pubs, g@[i].0@, #[trigger] g@[i].1@[j]@) by {
                    crate::assoc::lemma_lookup_unique(g@, i);
                    let key = g@[i].0@;
                    assert(as_map(g@).dom().contains(key));
                    if key == c.name@ {
                        assert(as_map(g@)[key] == dv);
                    } else {
                        assert(as_map(g0).dom().contains(key));
                        crate::assoc::lemma_key_index(g0, key);
                        let i0 = crate::assoc::key_index(g0, key)->0;
                        crate::assoc::lemma_lookup_unique(g0, i0);
                        assert(as_map(g@)[key] == g0[i0].1);
                    }
                }
                assert(as_map(g@).dom().contains(c.name@));
                crate::assoc::lemma_lookup_as_map(g@, c.name@);
                assert(lookup(g@, c.name@) == Some(dv));
                assert forall|a: Seq<char>, b: Seq<char>|
                    names.subrange(0, k + 1).contains(a) && #[trigger] depends_on(names, pubs, a, b)
                        implies has_edge(g@, a, b) by {
                    if a == c.name@ {
                        assert(strs(dv@).contains(b));
                    } else {
                        let sub1 = names.subrange(0, k + 1);
                        let t = choose|t: int| 0 <= t < sub1.len() && sub1[t] == a;
                        assert(t < k);
                        assert(names.subrange(0, k as int)[t] == a);
                        assert(has_edge(g0, a, b));
                        crate::assoc::lemma_key_index(g0, a);
                        assert(has_key(g0, a));
                        crate::assoc::lemma_lookup_as_map(g0, a);
                        assert(as_map(g@).dom().contains(a));
                        assert(as_map(g@)[a] == as_map(g0)[a]);
                        crate::assoc::lemma_lookup_as_map(g@, a);
                    }
                }
            }
            k = k + 1;
        }
        let ghost e0 = old(report).errors@;
        let ghost oc = |c: Seq<char>| on_cycle(names, pubs, c);
        proof {
            assert(names.subrange(0, contexts@.len() as int) =~= names);
            assert(keys_of(g@).subrange(0, 0).filter(oc) =~= Seq::<Seq<char>>::empty()) by {
                reveal_with_fuel(Seq::<_>::filter, 1);
            }
        }
        let mut i: usize = 0;
        while i < g.len()
            invariant
                i <= g@.len(),
                es == ctx.tree.entries@,
                root == ctx.root@,
                names == context_names(es, root),
                graph_sound(g@, names, pubs),
                forall|a: Seq<char>, b: Seq<char>|
                    names.contains(a) && #[trigger] depends_on(names, pubs, a, b) ==> has_edge(g@, a, b),
                oc == (|c: Seq<char>| on_cycle(names, pubs, c)),
                report.warnings@ == old(report).warnings@,
                report.suggestions@ == old(report).suggestions@,
                e0 == old(report).errors@,
                issues_view(e0).is_prefix_of(issues_view(report.errors@)),
                reports_cycles(
                    report.errors@,
                    e0.len() as int,
                    keys_of(g@).subrange(0, i as int).filter(oc),
                    names,
                    pubs,
                    root,
                ),
            decreases g.len() - i,
        {
            let ghost key = g@[i as int].0@;
            let ghost starts = keys_of(g@).subrange(0, i as int).filter(oc);
            proof {
                reveal_with_fuel(Seq::<_>::filter, 1);
                assert(keys_of(g@).subrange(0, i + 1).drop_last() =~= keys_of(g@).subrange(0, i as int));
                assert(keys_of(g@)[i as int] == key);
            }
            match self.find_cycle(g[i].0.as_str(), &g) {
                Some(cycle) => {
                    let mut msg = String::new();
                    msg.append("Circular dependency detected: ");
                    let joined = crate::text::join_strings(&cycle, " -> ");
                    msg.append(joined.as_str());
                    let sug = Suggestion::manual(
                        "Refactor to remove circular dependencies between contexts. Consider introducing a mediator context or restructuring event flows.",
                    );
                    let ghost before = report.errors@;
                    push_issue(&mut report.errors, ctx.root.clone(), msg, "VSA200", Severity::Error, sug);
                    proof {
                        let p = strs(cycle@);
                        assert forall|t: int| 0 <= t < p.len() - 1 implies depends_on(names, pubs, #[trigger] p[t], p[t + 1]) by {
                            lemma_sound_edge(g@, names, pubs, p[t], p[t + 1]);
                        }
                        assert(is_dependency_cycle(names, pubs, key, p));
                        assert(oc(key));
                        let ns = starts.push(key);
                        assert(keys_of(g@).subrange(0, i + 1).filter(oc) == ns);
                        assert(issues_view(report.errors@) == issues_view(before).push(cycle_issue(root, p)));
                        assert(issues_view(report.errors@).len() == report.errors@.len());
                        assert(issues_view(before).len() == before.len());
                        assert(report.errors@.len() == before.len() + 1);
                        let n: int = before.len() as int;
                        assert(issues_view(report.errors@)[n] == cycle_issue(root, p));
                        assert(issues_view(report.errors@)[n] == report.errors@[n]@);
                        assert(report.errors@[n]@ == cycle_issue(root, p));
                        assert forall|j: int| 0 <= j < ns.len() implies exists|q: Seq<Seq<char>>|
                            is_dependency_cycle(names, pubs, #[trigger] ns[j], q) && report.errors@[e0.len() + j]@
                                == cycle_issue(root, q) by {
                            if j < starts.len() {
                                assert(ns[j] == starts[j]);
                                let q = choose|q: Seq<Seq<char>>|
                                    is_dependency_cycle(names, pubs, starts[j], q) && before[e0.len() + j]@
                                        == cycle_issue(root, q);
                                assert(issues_view(report.errors@)[e0.len() + j] == report.errors@[e0.len() + j]@);
                                assert(issues_view(before)[e0.len() + j] == before[e0.len() + j]@);
                            } else {
                                assert(ns[j] == key);
                            }
                        }
                        assert(issues_view(e0).is_prefix_of(issues_view(report.errors@))) by {
                            assert(issues_view(report.errors@).subrange(0, e0.len() as int) =~= issues_view(before).subrange(0, e0.len() as int));
                        }
                    }
                },
                None => {
                    proof {
                        if oc(key) {
                            let p = choose|p: Seq<Seq<char>>| is_dependency_cycle(names, pubs, key, p);
                            assert forall|t: int| 0 <= t < p.len() - 1 implies has_edge(g@, #[trigger] p[t], p[t + 1]) by {
                                assert(depends_on(names, pubs, p[t], p[t + 1]));
                            }
                            assert(is_cycle(g@, key, p));
                        }
                        assert(keys_of(g@).subrange(0, i + 1).filter(oc) == starts);
                    }
                },
            }
            i = i + 1;
        }
        proof {
            assert(keys_of(g@).subrange(0, g@.len() as int) =~= keys_of(g@));
            assert(issues_view(report.warnings@).subrange(0, issues_view(old(report).warnings@).len() as int) =~= issues_view(old(report).warnings@));
        }
        Ok(())
    }
}

} // verus!
