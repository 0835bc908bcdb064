use vstd::prelude::*;
use vstd::string::*;

use crate::module_record::{
    graph_wf, imported_only_as_type, ModuleGraph, ModuleRecord,
};

verus! {

/// The directory name that marks third-party (vendored) code.
pub open spec fn vendor_dir() -> Seq<char> {
    seq!['n', 'o', 'd', 'e', '_', 'm', 'o', 'd', 'u', 'l', 'e', 's']
}

/// `p` has a whole `/`-separated component equal to the vendor directory
/// name starting at position `i`.
pub open spec fn vendor_component_at(p: Seq<char>, i: int) -> bool {
    &&& 0 <= i
    &&& i + 12 <= p.len()
    &&& p.subrange(i, i + 12) == vendor_dir()
    &&& (i == 0 || p[i - 1] == '/')
    &&& (i + 12 == p.len() || p[i + 12] == '/')
}

/// `p` lies under a vendor directory.
pub open spec fn is_vendored_path(p: Seq<char>) -> bool {
    exists|i: int| vendor_component_at(p, i)
}

/// Whether `p` has a `node_modules` component.
pub fn is_path_in_node_modules(p: &String) -> (r: bool)
    ensures
        r == is_vendored_path(p@),
{
    let s = p.as_str();
    let n = s.unicode_len();
    let marker = "node_modules";
    proof {
        reveal_strlit("node_modules");
        assert(marker@ =~= vendor_dir());
    }
    let mut i: usize = 0;
    while i <= n && n - i >= 12
        invariant
            s@ == p@,
            n == p@.len(),
            marker@ == vendor_dir(),
            forall|j: int| 0 <= j < i ==> !#[trigger] vendor_component_at(p@, j),
        decreases n - i,
    {
        let before_ok = i == 0 || s.get_char(i - 1) == '/';
        let after_ok = i + 12 == n || s.get_char(i + 12) == '/';
        let mut k: usize = 0;
        let mut same = true;
        while k < 12
            invariant
                s@ == p@,
                n == p@.len(),
                i + 12 <= n,
                marker@ == vendor_dir(),
                k <= 12,
                same <==> forall|t: int| 0 <= t < k ==> #[trigger] p@[i + t] == vendor_dir()[t],
            decreases 12 - k,
        {
            if s.get_char(i + k) != marker.get_char(k) {
                same = false;
            }
            k = k + 1;
        }
        if before_ok && after_ok && same {
            assert forall|t: int| 0 <= t < 12 implies p@.subrange(i as int, i + 12)[t] == vendor_dir()[t] by {
                assert(p@[i + t] == vendor_dir()[t]);
            }
            assert(p@.subrange(i as int, i + 12) =~= vendor_dir());
            assert(vendor_component_at(p@, i as int));
            return true;
        }
        proof {
            if vendor_component_at(p@, i as int) {
                assert forall|t: int| 0 <= t < 12 implies #[trigger] p@[i + t] == vendor_dir()[t] by {
                    assert(p@.subrange(i as int, i + 12)[t] == p@[i + t]);
                }
            }
        }
        i = i + 1;
    }
    false
}

/// Options of a dependency walk.
#[derive(Clone, Copy, Debug, PartialEq, Eq, Structural)]
pub struct WalkOptions {
    /// Neither enter nor record modules under a vendor directory.
    pub exclude_vendored: bool,
    /// Skip an edge when every import through it is type-only.
    pub ignore_type_only_edges: bool,
}

/// The walk enters module `m`.
pub open spec fn expands(g: Seq<ModuleRecord>, opts: WalkOptions, m: int) -> bool {
    !(opts.exclude_vendored && is_vendored_path(g[m].resolved_absolute_path@))
}

/// The walk follows edge `k` of module `m`.
pub open spec fn follows(g: Seq<ModuleRecord>, opts: WalkOptions, m: int, k: int) -> bool {
    !(opts.ignore_type_only_edges && imported_only_as_type(
        g[m],
        g[m].loaded_modules[k].specifier@,
    ))
}

/// Module `m` may step to `c` by edge `k`: the walk enters `m`, follows
/// the edge, and the edge leads to `c`, which the walk may enter.
pub open spec fn step(g: Seq<ModuleRecord>, opts: WalkOptions, m: int, k: int) -> bool {
    &&& 0 <= m < g.len()
    &&& 0 <= k < g[m].loaded_modules.len()
    &&& expands(g, opts, m)
    &&& follows(g, opts, m, k)
    &&& expands(g, opts, g[m].loaded_modules[k].module as int)
}

/// Every step out of `start` or out of a member of `s` leads into `s`.
pub open spec fn closed_from(
    g: Seq<ModuleRecord>,
    opts: WalkOptions,
    start: int,
    s: Set<int>,
) -> bool {
    forall|m: int, k: int|
        (m == start || s.contains(m)) && #[trigger] step(g, opts, m, k) ==> s.contains(
            g[m].loaded_modules[k].module as int,
        )
}

/// `m` is reachable from `start` by one or more steps: it lies in every
/// set that is closed under steps from `start`.
pub open spec fn reachable(g: Seq<ModuleRecord>, opts: WalkOptions, start: int, m: int) -> bool {
    forall|s: Set<int>| #[trigger] closed_from(g, opts, start, s) ==> s.contains(m)
}

/// The modules that a walk from `start` reaches, as marks by index.
pub open spec fn reached_marks(g: Seq<ModuleRecord>, opts: WalkOptions, start: int) -> Seq<bool> {
    Seq::new(g.len(), |m: int| reachable(g, opts, start, m))
}

/// The indices marked in `marks`.
pub open spec fn marked(marks: Seq<bool>) -> Set<int> {
    Set::new(|m: int| 0 <= m < marks.len() && marks[m])
}

/// How many entries of `marks` are unmarked.
pub open spec fn count_unmarked(marks: Seq<bool>) -> nat
    decreases marks.len(),
{
    if marks.len() == 0 {
        0
    } else {
        count_unmarked(marks.drop_last()) + if marks.last() {
            0nat
        } else {
            1nat
        }
    }
}

proof fn lemma_mark_one(marks: Seq<bool>, i: int)
    requires
        0 <= i < marks.len(),
        !marks[i],
    ensures
        count_unmarked(marks.update(i, true)) + 1 == count_unmarked(marks),
    decreases marks.len(),
{
    let u = marks.update(i, true);
    if i < marks.len() - 1 {
        assert(u.drop_last() =~= marks.drop_last().update(i, true));
        lemma_mark_one(marks.drop_last(), i);
    } else {
        assert(u.drop_last() =~= marks.drop_last());
    }
}

/// The result of a dependency walk over a graph of `n` modules.
#[derive(Debug)]
pub struct Reachable {
    /// `visited[m]` is set when module `m` was reached.
    pub visited: Vec<bool>,
    /// The reached modules, each once, in the order they were reached.
    pub trace: Vec<usize>,
}

/// The modules reached from `start` through the graph's edges, each once,
/// with the options' filters applied; terminates on any cyclic input.
/// `start` itself is reached only when an edge leads back to it.
pub fn compute_reachable(graph: &ModuleGraph, start: usize, options: WalkOptions) -> (r:
    Reachable)
    requires
        graph.wf(),
        start < graph@.len(),
    ensures
        r.visited@.len() == graph@.len(),
        forall|m: int|
            0 <= m < graph@.len() ==> (r.visited@[m] <==> reachable(
                graph@,
                options,
                start as int,
                m,
            )),
        r.trace@.no_duplicates(),
        forall|i: int| 0 <= i < r.trace@.len() ==> #[trigger] r.trace@[i] < graph@.len(),
        forall|m: usize| m < graph@.len() ==> (r.visited@[m as int] <==> #[trigger] r.trace@.contains(m)),
{
    let n = graph.len();
    let ghost g = graph@;
    let mut visited: Vec<bool> = Vec::new();
    while visited.len() < n
        invariant
            visited@.len() <= n,
            forall|m: int| 0 <= m < visited@.len() ==> !visited@[m],
        decreases n - visited@.len(),
    {
        visited.push(false);
    }
    let mut trace: Vec<usize> = Vec::new();
    let mut stack: Vec<usize> = Vec::new();
    if !(options.exclude_vendored && is_path_in_node_modules(
        &graph.module(start).resolved_absolute_path,
    )) {
        stack.push(start);
        proof {
            assert(stack@[0] == start);
        }
    }
    while stack.len() > 0
        invariant
            graph@ == g,
            graph_wf(g),
            n == g.len(),
            start < n,
            visited@.len() == n,
            forall|i: int| 0 <= i < stack@.len() ==> #[trigger] stack@[i] < n,
            forall|i: int|
                0 <= i < stack@.len() ==> #[trigger] stack@[i] == start || visited@[stack@[i] as int],
            forall|m: int| 0 <= m < n && #[trigger] visited@[m] ==> reachable(g, options, start as int, m),
            forall|m: int| 0 <= m < n && #[trigger] visited@[m] ==> expands(g, options, m),
            forall|m: int, k: int|
                (m == start || visited@[m]) && #[trigger] step(g, options, m, k) && !visited@[g[m].loaded_modules[k].module as int]
                    ==> stack@.contains(m as usize),
            trace@.no_duplicates(),
            forall|i: int| 0 <= i < trace@.len() ==> #[trigger] trace@[i] < n,
            forall|m: usize| m < n ==> (visited@[m as int] <==> #[trigger] trace@.contains(m)),
            !expands(g, options, start as int) ==> stack@.len() == 0,
        decreases 2 * count_unmarked(visited@) + stack@.len(),
    {
        let ghost measure = 2 * count_unmarked(visited@) + stack@.len();
        let ghost full = stack@;
        let u = stack.pop().unwrap();
        proof {
            assert(full == stack@.push(u));
            assert forall|x: usize| #[trigger] full.contains(x) && x != u implies stack@.contains(x) by {
                let i = choose|i: int| 0 <= i < full.len() && full[i] == x;
                assert(i < stack@.len());
                assert(stack@[i] == x);
            }
        }
        let record = graph.module(u);
        proof {
            assert(u < n);
            assert(expands(g, options, u as int));
        }
        let mut k: usize = 0;
        while k < record.loaded_modules.len()
            invariant
                graph@ == g,
                graph_wf(g),
                n == g.len(),
                start < n,
                u < n,
                *record == g[u as int],
                u == start || visited@[u as int],
                expands(g, options, u as int),
                expands(g, options, start as int),
                k <= record.loaded_modules@.len(),
                visited@.len() == n,
                forall|i: int| 0 <= i < stack@.len() ==> #[trigger] stack@[i] < n,
                forall|i: int|
                    0 <= i < stack@.len() ==> #[trigger] stack@[i] == start || visited@[stack@[i] as int],
                forall|m: int| 0 <= m < n && #[trigger] visited@[m] ==> reachable(g, options, start as int, m),
                forall|m: int| 0 <= m < n && #[trigger] visited@[m] ==> expands(g, options, m),
                forall|m: int, j: int|
                    (m == start || visited@[m]) && #[trigger] step(g, options, m, j) && !visited@[g[m].loaded_modules[j].module as int]
                        ==> stack@.contains(m as usize) || (m == u && j >= k),
                trace@.no_duplicates(),
                forall|i: int| 0 <= i < trace@.len() ==> #[trigger] trace@[i] < n,
                forall|m: usize| m < n ==> (visited@[m as int] <==> #[trigger] trace@.contains(m)),
                !expands(g, options, start as int) ==> stack@.len() == 0,
                2 * count_unmarked(visited@) + stack@.len() < measure,
            decreases record.loaded_modules@.len() - k,
        {
            let edge = &record.loaded_modules[k];
            let c = edge.module;
            proof {
                assert(g[u as int].loaded_modules[k as int].module < n);
            }
            let skip_edge = options.ignore_type_only_edges && record.was_imported_as_type(
                &edge.specifier,
            );
            let child_vendored = options.exclude_vendored && is_path_in_node_modules(
                &graph.module(c).resolved_absolute_path,
            );
            if !skip_edge && !child_vendored && !visited[c] {
                proof {
                    lemma_mark_one(visited@, c as int);
                    assert(step(g, options, u as int, k as int));
                    assert forall|s: Set<int>| #[trigger] closed_from(g, options, start as int, s)
                        implies s.contains(c as int) by {
                        if u != start {
                            assert(s.contains(u as int));
                        }
                    }
                    assert(!trace@.contains(c));
                }
                let ghost old_trace = trace@;
                let ghost old_stack = stack@;
                visited.set(c, true);
                trace.push(c);
                stack.push(c);
                proof {
                    assert(stack@[stack@.len() - 1] == c);
                    assert forall|m: usize| m < n implies (visited@[m as int] <==> #[trigger] trace@.contains(m)) by {
                        if m == c {
                            assert(trace@[trace@.len() - 1] == c);
                        } else {
                            if old_trace.contains(m) {
                                let i = choose|i: int| 0 <= i < old_trace.len() && old_trace[i] == m;
                                assert(trace@[i] == m);
                            }
                            if trace@.contains(m) {
                                let i = choose|i: int| 0 <= i < trace@.len() && trace@[i] == m;
                                assert(i < old_trace.len());
                                assert(old_trace[i] == m);
                            }
                        }
                    }
                    assert forall|x: usize| #[trigger] old_stack.contains(x) implies stack@.contains(x) by {
                        let i = choose|i: int| 0 <= i < old_stack.len() && old_stack[i] == x;
                        assert(stack@[i] == x);
                    }
                    assert forall|i: int, j: int| 0 <= i < trace@.len() && 0 <= j < trace@.len() && i != j implies trace@[i] != trace@[j] by {
                        if i < old_trace.len() && j < old_trace.len() {
                            assert(old_trace[i] != old_trace[j]);
                        } else if i < old_trace.len() {
                            assert(old_trace.contains(old_trace[i]));
                        } else {
                            assert(old_trace.contains(old_trace[j]));
                        }
                    }
                }
            }
            k = k + 1;
        }
    }
    proof {
        let s = marked(visited@);
        assert forall|m: int, j: int|
            (m == start as int || s.contains(m)) && #[trigger] step(g, options, m, j) implies s.contains(
            g[m].loaded_modules[j].module as int,
        ) by {
            assert(g[m].loaded_modules[j].module < n);
        }
        assert(closed_from(g, options, start as int, s));
    }
    Reachable { visited, trace }
}

/// The reachable modules form a set closed under steps: a step out of
/// `start` or out of a reachable module leads to a reachable module.
pub proof fn lemma_step_keeps_reachable(
    g: Seq<ModuleRecord>,
    opts: WalkOptions,
    start: int,
    m: int,
    k: int,
)
    requires
        m == start || reachable(g, opts, start, m),
        step(g, opts, m, k),
    ensures
        reachable(g, opts, start, g[m].loaded_modules[k].module as int),
{
    let c = g[m].loaded_modules[k].module as int;
    assert forall|s: Set<int>| #[trigger] closed_from(g, opts, start, s) implies s.contains(c) by {
        if m != start {
            assert(s.contains(m));
        }
    }
}

/// With vendored modules excluded, a module under a vendor directory is
/// never reached, and a walk that starts in one reaches nothing, whatever
/// the type-only setting.
pub proof fn lemma_vendored_excluded(g: Seq<ModuleRecord>, opts: WalkOptions, start: int, m: int)
    requires
        graph_wf(g),
        opts.exclude_vendored,
        0 <= m < g.len(),
    ensures
        is_vendored_path(g[m].resolved_absolute_path@) ==> !reachable(g, opts, start, m),
        0 <= start < g.len() && is_vendored_path(g[start].resolved_absolute_path@) ==> !reachable(
            g,
            opts,
            start,
            m,
        ),
{
    let entered = Set::new(|x: int| 0 <= x < g.len() && expands(g, opts, x));
    assert forall|u: int, k: int|
        (u == start || entered.contains(u)) && #[trigger] step(g, opts, u, k) implies entered.contains(
        g[u].loaded_modules[k].module as int,
    ) by {
        assert(g[u].loaded_modules[k].module < g.len());
    }
    assert(closed_from(g, opts, start, entered));
    if 0 <= start < g.len() && is_vendored_path(g[start].resolved_absolute_path@) {
        assert(closed_from(g, opts, start, Set::empty()));
    }
}

/// Every step out of `start` or out of a member of `s`, other than a step
/// out of `x`, leads into `s`.
pub open spec fn closed_from_avoiding(
    g: Seq<ModuleRecord>,
    opts: WalkOptions,
    start: int,
    s: Set<int>,
    x: int,
) -> bool {
    forall|m: int, k: int|
        (m == start || s.contains(m)) && m != x && #[trigger] step(g, opts, m, k) ==> s.contains(
            g[m].loaded_modules[k].module as int,
        )
}

/// When type-only edges are ignored and every edge into `x` out of the
/// start or out of a reached module carries only type-only imports, `x` is
/// not reached, and neither is any module that could be reached only by
/// passing through `x`: whatever is reached lies in every set closed under
/// the steps that do not leave `x`.
pub proof fn lemma_type_only_edges_filtered(
    g: Seq<ModuleRecord>,
    opts: WalkOptions,
    start: int,
    x: int,
)
    requires
        graph_wf(g),
        opts.ignore_type_only_edges,
        0 <= start < g.len(),
        0 <= x < g.len(),
        x != start,
        forall|m: int, k: int|
            0 <= m < g.len() && 0 <= k < g[m].loaded_modules.len() && (m == start || reachable(
                g,
                opts,
                start,
                m,
            )) && #[trigger] g[m].loaded_modules[k].module == x ==> imported_only_as_type(
                g[m],
                g[m].loaded_modules[k].specifier@,
            ),
    ensures
        !reachable(g, opts, start, x),
        forall|s: Set<int>, m: int|
            closed_from_avoiding(g, opts, start, s, x) && #[trigger] reachable(g, opts, start, m)
                ==> #[trigger] s.contains(m),
{
    let others = Set::new(|y: int| reachable(g, opts, start, y) && y != x);
    assert forall|m: int, k: int|
        (m == start || others.contains(m)) && #[trigger] step(g, opts, m, k) implies others.contains(
        g[m].loaded_modules[k].module as int,
    ) by {
        lemma_step_keeps_reachable(g, opts, start, m, k);
        if g[m].loaded_modules[k].module == x {
            assert(imported_only_as_type(g[m], g[m].loaded_modules[k].specifier@));
        }
    }
    assert(closed_from(g, opts, start, others));
    assert forall|s: Set<int>, m: int|
        closed_from_avoiding(g, opts, start, s, x) && #[trigger] reachable(g, opts, start, m)
            implies #[trigger] s.contains(m) by {
        let both = Set::new(|y: int| reachable(g, opts, start, y) && s.contains(y));
        assert forall|u: int, k: int|
            (u == start || both.contains(u)) && #[trigger] step(g, opts, u, k) implies both.contains(
            g[u].loaded_modules[k].module as int,
        ) by {
            lemma_step_keeps_reachable(g, opts, start, u, k);
            if u != start {
                assert(others.contains(u));
            }
        }
        assert(closed_from(g, opts, start, both));
    }
}

/// Module `m` counts as an internal dependency of `file`: it was reached,
/// it is not `file`, and it is not vendored.
pub open spec fn counted(g: Seq<ModuleRecord>, marks: Seq<bool>, file: int, m: int) -> bool {
    marks[m] && m != file && !is_vendored_path(g[m].resolved_absolute_path@)
}

/// How many of the modules below `upto` count as internal dependencies.
pub open spec fn count_internal(g: Seq<ModuleRecord>, marks: Seq<bool>, file: int, upto: int) -> nat
    decreases upto,
{
    if upto <= 0 {
        0
    } else {
        count_internal(g, marks, file, upto - 1) + if counted(g, marks, file, upto - 1) {
            1nat
        } else {
            0nat
        }
    }
}

/// The number of reached modules other than `file` that are not vendored.
/// A walk from `file` may reach `file` itself through a cycle; it is left
/// out here, in the count, and stays in the walk's result.
pub fn count_internal_deps(graph: &ModuleGraph, visited: &Vec<bool>, file: usize) -> (r: usize)
    requires
        visited@.len() == graph@.len(),
    ensures
        r == count_internal(graph@, visited@, file as int, graph@.len() as int),
{
    let n = graph.len();
    let mut i: usize = 0;
    let mut count: usize = 0;
    while i < n
        invariant
            n == graph@.len(),
            visited@.len() == n,
            i <= n,
            count <= i,
            count == count_internal(graph@, visited@, file as int, i as int),
        decreases n - i,
    {
        if visited[i] && i != file && !is_path_in_node_modules(&graph.module(i).resolved_absolute_path) {
            count = count + 1;
        }
        i = i + 1;
    }
    count
}

} // verus!
