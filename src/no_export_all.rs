use vstd::prelude::*;
use vstd::string::*;

use crate::config::{index_spec, opt_bool_spec, opt_key_spec, ConfigValue};
use crate::deps::{
    compute_reachable, count_internal, count_internal_deps, reached_marks, Reachable, WalkOptions,
};
use crate::lint::{Diagnostic, LintContext, Rule, Semantic, Severity};
use crate::module_record::{loaded_module_spec, specifiers_distinct, ModuleGraph, ModuleRecord};
use crate::node::{AstKind, AstNode};
use crate::text::{decimal, decimal_text};

verus! {

/// Reports every `export * from "m"` declaration; optionally says how many
/// internal modules the re-export brings in.
#[derive(Clone, Debug)]
pub struct NoExportAll {
    /// Count the dependencies that the re-exported module introduces.
    pub show_dependency_size: bool,
    /// Do not follow imports that are type-only when counting.
    pub ignore_types: bool,
}

impl Default for NoExportAll {
    fn default() -> (r: Self)
        ensures
            !r.show_dependency_size,
            !r.ignore_types,
    {
        NoExportAll { show_dependency_size: false, ignore_types: false }
    }
}

/// The check as configured by `value`: the first element of an array
/// holds the options; an option that is missing or not a boolean is false.
pub open spec fn export_all_config(value: ConfigValue) -> NoExportAll {
    let obj = index_spec(value, 0);
    NoExportAll {
        show_dependency_size: opt_bool_spec(opt_key_spec(obj, "showDependencySize"@)) == Some(
            true,
        ),
        ignore_types: opt_bool_spec(opt_key_spec(obj, "ignoreTypes"@)) == Some(true),
    }
}

impl NoExportAll {
    pub open spec fn walk_options(&self) -> WalkOptions {
        WalkOptions { exclude_vendored: true, ignore_type_only_edges: self.ignore_types }
    }

    /// The help text of a report on a re-export of `source` in `file`.
    pub open spec fn help_text(&self, g: Seq<ModuleRecord>, file: int, source: Seq<char>) -> Seq<
        char,
    > {
        let advice = "Avoid re-exporting * from a module, it leads to unused imports and prevents treeshaking.\n"@;
        if self.show_dependency_size && loaded_module_spec(g[file], source) is Some {
            let target = loaded_module_spec(g[file], source)->0 as int;
            let count = count_internal(
                g,
                reached_marks(g, self.walk_options(), target),
                file,
                g.len() as int,
            );
            advice + "Number of dependencies introduced from this re-export: "@ + decimal(count)
        } else {
            advice
        }
    }

    pub fn from_configuration(value: ConfigValue) -> (r: Self)
        ensures
            r == export_all_config(value),
    {
        let obj = value.get_index(0);
        let show_dependency_size = match obj {
            Some(v) => match v.get_key(&"showDependencySize".to_owned()) {
                Some(b) => b.as_bool() == Some(true),
                None => false,
            },
            None => false,
        };
        let ignore_types = match obj {
            Some(v) => match v.get_key(&"ignoreTypes".to_owned()) {
                Some(b) => b.as_bool() == Some(true),
                None => false,
            },
            None => false,
        };
        NoExportAll { show_dependency_size, ignore_types }
    }

    fn walk_deps(&self, graph: &ModuleGraph, start: usize) -> (r: Reachable)
        requires
            graph.wf(),
            start < graph@.len(),
        ensures
            r.visited@ == reached_marks(graph@, self.walk_options(), start as int),
    {
        let r = compute_reachable(
            graph,
            start,
            WalkOptions { exclude_vendored: true, ignore_type_only_edges: self.ignore_types },
        );
        assert(r.visited@ =~= reached_marks(graph@, self.walk_options(), start as int));
        r
    }
}

impl Rule for NoExportAll {
    open spec fn node_findings(&self, node: AstNode, sem: Semantic, cwd: Seq<char>, out: Seq<Diagnostic>) -> bool {
        match node.kind {
            AstKind::ExportAllDeclaration(decl) => {
                &&& out.len() == 1
                &&& out[0].message@ == "oxc(no-export-all): Do not export from modules using export-all syntax"@
                &&& out[0].severity == Severity::Warning
                &&& out[0].span == Some(decl.span)
                &&& out[0].help is Some
                &&& out[0].help->0@ == self.help_text(sem.modules@, sem.module_id as int, decl.source@)
            },
            _ => out.len() == 0,
        }
    }

    open spec fn file_findings(&self, sem: Semantic, cwd: Seq<char>, out: Seq<Diagnostic>) -> bool {
        out.len() == 0
    }

    fn run(&self, node: &AstNode, sem: &Semantic, ctx: &mut LintContext) {
        match &node.kind {
            AstKind::ExportAllDeclaration(decl) => {
                let graph = &sem.modules;
                let file = sem.module_id;
                let mut help = "Avoid re-exporting * from a module, it leads to unused imports and prevents treeshaking.\n".to_owned();
                if self.show_dependency_size {
                    let record = graph.module(file);
                    assert(specifiers_distinct(graph@[file as int].loaded_modules@));
                    match record.loaded_module(&decl.source) {
                        Some(target) => {
                            let ghost k = choose|k: int|
                                0 <= k < record.loaded_modules@.len()
                                    && #[trigger] record.loaded_modules@[k].module == target;
                            assert(graph@[file as int].loaded_modules[k].module < graph@.len());
                            let state = self.walk_deps(graph, target);
                            let count = count_internal_deps(graph, &state.visited, file);
                            help.append("Number of dependencies introduced from this re-export: ");
                            help.append(decimal_text(count as u64).as_str());
                        },
                        None => {},
                    }
                }
                let d = Diagnostic {
                    message: "oxc(no-export-all): Do not export from modules using export-all syntax".to_owned(),
                    severity: Severity::Warning,
                    span: Some(decl.span),
                    help: Some(help),
                };
                let ghost before = ctx.diagnostics@;
                ctx.diagnostic(d);
                assert(ctx.diagnostics@ == before + seq![d]);
            },
            _ => {
                assert(ctx.diagnostics@ == old(ctx).diagnostics@ + Seq::<Diagnostic>::empty());
            },
        }
    }

    fn run_once(&self, sem: &Semantic, ctx: &mut LintContext) {
        assert(ctx.diagnostics@ == old(ctx).diagnostics@ + Seq::<Diagnostic>::empty());
    }
}

} // verus!
