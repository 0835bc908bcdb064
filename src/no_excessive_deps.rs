use vstd::prelude::*;
use vstd::string::*;

use crate::config::{index_spec, opt_bool_spec, opt_key_spec, opt_u64_spec, ConfigValue};
use crate::deps::{
    compute_reachable, count_internal, count_internal_deps, reached_marks, Reachable, WalkOptions,
};
use crate::lint::{Diagnostic, LintContext, Rule, Semantic, Severity};
use crate::module_record::{ModuleGraph, ModuleRecord};
use crate::node::AstNode;
use crate::text::{
    decimal, decimal_text, display_path, display_relative, joined_lines, push_lines,
    sort_texts, text_views, texts_sorted,
};

verus! {

/// Reports a module that depends, directly or through other modules, on
/// more internal modules than a configured maximum.
#[derive(Clone, Debug)]
pub struct NoExcessiveDeps {
    /// The largest number of internal dependencies allowed.
    pub max_deps: u32,
    /// Do not follow imports that are type-only.
    pub ignore_types: bool,
    /// List the dependencies in the report.
    pub should_print_deps: bool,
}

impl Default for NoExcessiveDeps {
    fn default() -> (r: Self)
        ensures
            r.max_deps == u32::MAX,
            !r.ignore_types,
            r.should_print_deps,
    {
        NoExcessiveDeps { max_deps: u32::MAX, ignore_types: false, should_print_deps: true }
    }
}

/// The check as configured by `value`: the first element of an array
/// holds the options; an option that is missing or of another type takes
/// its default, and a `maxDeps` beyond `u32::MAX` counts as `u32::MAX`.
pub open spec fn excessive_deps_config(value: ConfigValue) -> NoExcessiveDeps {
    let obj = index_spec(value, 0);
    NoExcessiveDeps {
        max_deps: match opt_u64_spec(opt_key_spec(obj, "maxDeps"@)) {
            Some(n) => if n > u32::MAX as u64 {
                u32::MAX
            } else {
                n as u32
            },
            None => u32::MAX,
        },
        ignore_types: match opt_bool_spec(opt_key_spec(obj, "ignoreTypes"@)) {
            Some(b) => b,
            None => false,
        },
        should_print_deps: match opt_bool_spec(opt_key_spec(obj, "shouldPrintDeps"@)) {
            Some(b) => b,
            None => true,
        },
    }
}

/// The paths of the modules in `trace`, relative to `cwd`, with `/` as the
/// separator.
pub open spec fn relative_paths_of(g: Seq<ModuleRecord>, trace: Seq<usize>, cwd: Seq<char>) -> Seq<Seq<char>> {
    trace.map_values(|m: usize| display_path(g[m as int].resolved_absolute_path@, cwd))
}

/// `listing` lists the paths of the reached modules, relative to `cwd` and
/// with `/` as the separator, sorted, one per line.
pub open spec fn deps_listing(
    g: Seq<ModuleRecord>,
    marks: Seq<bool>,
    cwd: Seq<char>,
    listing: Seq<char>,
) -> bool {
    exists|trace: Seq<usize>, lines: Seq<String>|
        {
            &&& trace.no_duplicates()
            &&& forall|i: int| 0 <= i < trace.len() ==> #[trigger] trace[i] < g.len()
            &&& forall|m: usize| m < g.len() ==> (marks[m as int] <==> #[trigger] trace.contains(m))
            &&& texts_sorted(lines)
            &&& text_views(lines).to_multiset() == relative_paths_of(g, trace, cwd).to_multiset()
            &&& listing == joined_lines(lines)
        }
}

impl NoExcessiveDeps {
    pub open spec fn walk_options(&self) -> WalkOptions {
        WalkOptions { exclude_vendored: true, ignore_type_only_edges: self.ignore_types }
    }

    /// The number of internal modules that `file` depends on.
    pub open spec fn dep_count(&self, g: Seq<ModuleRecord>, file: int) -> nat {
        count_internal(g, reached_marks(g, self.walk_options(), file), file, g.len() as int)
    }

    /// `d` is the report for `file`, which has `count` internal dependencies.
    pub open spec fn report(&self, sem: Semantic, cwd: Seq<char>, count: nat, d: Diagnostic) -> bool {
        let g = sem.modules@;
        let file = sem.module_id as int;
        let head = display_path(g[file].resolved_absolute_path@, cwd) + " has "@ + decimal(count)
            + " dependencies, exceeding the maximum limit of "@ + decimal(self.max_deps as nat)
            + "\n"@;
        &&& d.message@ == "eslint-plugin-import(no-excessive-deps): Module has excessive dependencies"@
        &&& d.severity == Severity::Warning
        &&& d.span is None
        &&& d.help is Some
        &&& if self.should_print_deps {
            exists|listing: Seq<char>|
                d.help->0@ == head + listing && deps_listing(
                    g,
                    reached_marks(g, self.walk_options(), file),
                    cwd,
                    listing,
                )
        } else {
            d.help->0@ == head
        }
    }

    pub fn from_configuration(value: ConfigValue) -> (r: Self)
        ensures
            r == excessive_deps_config(value),
    {
        let obj = value.get_index(0);
        let max_deps = match obj {
            Some(v) => match v.get_key(&"maxDeps".to_owned()) {
                Some(n) => match n.as_u64() {
                    Some(n) => if n > u32::MAX as u64 {
                        u32::MAX
                    } else {
                        n as u32
                    },
                    None => u32::MAX,
                },
                None => u32::MAX,
            },
            None => u32::MAX,
        };
        let ignore_types = match obj {
            Some(v) => match v.get_key(&"ignoreTypes".to_owned()) {
                Some(b) => match b.as_bool() {
                    Some(b) => b,
                    None => false,
                },
                None => false,
            },
            None => false,
        };
        let should_print_deps = match obj {
            Some(v) => match v.get_key(&"shouldPrintDeps".to_owned()) {
                Some(b) => match b.as_bool() {
                    Some(b) => b,
                    None => true,
                },
                None => true,
            },
            None => true,
        };
        NoExcessiveDeps { max_deps, ignore_types, should_print_deps }
    }

    /// The modules reached from `start`, vendored ones excluded.
    pub fn walk_deps(&self, graph: &ModuleGraph, start: usize) -> (r: Reachable)
        requires
            graph.wf(),
            start < graph@.len(),
        ensures
            r.visited@ == reached_marks(graph@, self.walk_options(), start as int),
            r.trace@.no_duplicates(),
            forall|i: int| 0 <= i < r.trace@.len() ==> #[trigger] r.trace@[i] < graph@.len(),
            forall|m: usize| m < graph@.len() ==> (r.visited@[m as int] <==> #[trigger] r.trace@.contains(m)),
    {
        let r = compute_reachable(
            graph,
            start,
            WalkOptions { exclude_vendored: true, ignore_type_only_edges: self.ignore_types },
        );
        assert(r.visited@ =~= reached_marks(graph@, self.walk_options(), start as int));
        r
    }
}

/// The paths of the modules in `trace`, relative to `cwd`, with `/` as the
/// separator.
fn relative_paths(graph: &ModuleGraph, trace: &Vec<usize>, cwd: &String) -> (r: Vec<String>)
    requires
        forall|i: int| 0 <= i < trace@.len() ==> #[trigger] trace@[i] < graph@.len(),
    ensures
        text_views(r@) == relative_paths_of(graph@, trace@, cwd@),
{
    let mut out: Vec<String> = Vec::new();
    let mut i: usize = 0;
    while i < trace.len()
        invariant
            i <= trace@.len(),
            forall|j: int| 0 <= j < trace@.len() ==> #[trigger] trace@[j] < graph@.len(),
            out@.len() == i,
            forall|j: int|
                0 <= j < i ==> #[trigger] out@[j]@ == display_path(
                    graph@[trace@[j] as int].resolved_absolute_path@,
                    cwd@,
                ),
        decreases trace@.len() - i,
    {
        out.push(display_relative(&graph.module(trace[i]).resolved_absolute_path, cwd));
        i = i + 1;
    }
    assert(text_views(out@) =~= relative_paths_of(graph@, trace@, cwd@));
    out
}

impl Rule for NoExcessiveDeps {
    open spec fn node_findings(&self, node: AstNode, sem: Semantic, cwd: Seq<char>, out: Seq<Diagnostic>) -> bool {
        out.len() == 0
    }

    open spec fn file_findings(&self, sem: Semantic, cwd: Seq<char>, out: Seq<Diagnostic>) -> bool {
        let count = self.dep_count(sem.modules@, sem.module_id as int);
        if count > self.max_deps {
            out.len() == 1 && self.report(sem, cwd, count, out[0])
        } else {
            out.len() == 0
        }
    }

    fn run(&self, node: &AstNode, sem: &Semantic, ctx: &mut LintContext) {
        assert(ctx.diagnostics@ == old(ctx).diagnostics@ + Seq::<Diagnostic>::empty());
    }

    fn run_once(&self, sem: &Semantic, ctx: &mut LintContext) {
        let graph = &sem.modules;
        let file = sem.module_id;
        let state = self.walk_deps(graph, file);
        let count = count_internal_deps(graph, &state.visited, file);
        proof {
            assert(count == self.dep_count(graph@, file as int));
        }
        if count as u64 > self.max_deps as u64 {
            let ghost g = graph@;
            let ghost cwd = ctx.cwd@;
            let mut help = display_relative(&graph.module(file).resolved_absolute_path, &ctx.cwd);
            help.append(" has ");
            help.append(decimal_text(count as u64).as_str());
            help.append(" dependencies, exceeding the maximum limit of ");
            help.append(decimal_text(self.max_deps as u64).as_str());
            help.append("\n");
            let ghost head = help@;
            if self.should_print_deps {
                let paths = sort_texts(relative_paths(graph, &state.trace, &ctx.cwd));
                push_lines(&mut help, &paths);
                assert(text_views(paths@).to_multiset() == relative_paths_of(g, state.trace@, cwd).to_multiset());
                assert(deps_listing(g, state.visited@, cwd, joined_lines(paths@)));
            }
            let d = Diagnostic {
                message: "eslint-plugin-import(no-excessive-deps): Module has excessive dependencies".to_owned(),
                severity: Severity::Warning,
                span: None,
                help: Some(help),
            };
            let ghost before = ctx.diagnostics@;
            ctx.diagnostic(d);
            assert(ctx.diagnostics@ == before + seq![d]);
        } else {
            assert(ctx.diagnostics@ == old(ctx).diagnostics@ + Seq::<Diagnostic>::empty());
        }
    }
}

} // verus!
