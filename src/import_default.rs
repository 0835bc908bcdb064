use vstd::prelude::*;
use vstd::string::*;

use crate::config::{index_spec, opt_bool_spec, opt_key_spec, opt_u64_spec, ConfigValue};
use crate::lint::{concat, Diagnostic, LintContext, Rule, Semantic, Severity};
use crate::module_record::{
    exports_name, loaded_module_spec, specifiers_distinct, ImportEntry, ImportImportName,
    ModuleRecord,
};
use crate::node::AstNode;

verus! {

/// Reports a default import from an ES module that has no default export.
#[derive(Clone, Debug)]
pub struct Default {
    /// The deepest import chain to consider.
    pub max_depth: u32,
    /// Do not consider imports that are type-only.
    pub ignore_types: bool,
    /// Do not consider modules outside the project.
    pub ignore_external: bool,
    /// Allow cycles through dynamic imports.
    pub allow_unsafe_dynamic_cyclic_dependency: bool,
}

/// A boolean option of `obj` under `key`; false when missing or not a
/// boolean.
pub open spec fn flag_option(obj: Option<ConfigValue>, key: Seq<char>) -> bool {
    opt_bool_spec(opt_key_spec(obj, key)) == Some(true)
}

/// The check as configured by `value`: the first element of an array
/// holds the options; an option that is missing or of another type takes
/// its default, and a `maxDepth` beyond `u32::MAX` counts as `u32::MAX`.
pub open spec fn import_default_config(value: ConfigValue) -> Default {
    let obj = index_spec(value, 0);
    Default {
        max_depth: match opt_u64_spec(opt_key_spec(obj, "maxDepth"@)) {
            Some(n) => if n > u32::MAX as u64 {
                u32::MAX
            } else {
                n as u32
            },
            None => u32::MAX,
        },
        ignore_types: flag_option(obj, "ignoreTypes"@),
        ignore_external: flag_option(obj, "ignoreExternal"@),
        allow_unsafe_dynamic_cyclic_dependency: flag_option(
            obj,
            "allowUnsafeDynamicCyclicDependency"@,
        ),
    }
}

/// The boolean option of `obj` under `key`; false when missing or not a
/// boolean.
fn read_flag(obj: Option<&ConfigValue>, key: &String) -> (r: bool)
    ensures
        r == match obj {
            Some(v) => flag_option(Some(*v), key@),
            None => false,
        },
{
    match obj {
        Some(v) => match v.get_key(key) {
            Some(b) => b.as_bool() == Some(true),
            None => false,
        },
        None => false,
    }
}

/// `entry` of `rec` takes the default export of a module that resolved, is
/// an ES module, and exports nothing under the name `default`.
pub open spec fn missing_default(g: Seq<ModuleRecord>, rec: ModuleRecord, entry: ImportEntry) -> bool {
    &&& entry.import_name is Default
    &&& loaded_module_spec(rec, entry.module_request@) is Some
    &&& {
        let target = g[loaded_module_spec(rec, entry.module_request@)->0 as int];
        &&& !target.not_esm
        &&& target.export_default is None
        &&& !exports_name(target.exported_bindings@, "default"@)
    }
}

impl Default {
    /// `out` is what is reported for `entry` of `rec`.
    pub open spec fn entry_findings(
        &self,
        g: Seq<ModuleRecord>,
        rec: ModuleRecord,
        entry: ImportEntry,
        out: Seq<Diagnostic>,
    ) -> bool {
        if missing_default(g, rec, entry) {
            &&& out.len() == 1
            &&& out[0].message@ == "eslint-plugin-import(default): No default export found in imported module"@
            &&& out[0].severity == Severity::Warning
            &&& out[0].span == Some(entry.import_name->Default_0)
            &&& out[0].help is Some
            &&& out[0].help->0@ == entry.module_request@ + " has no default export"@
        } else {
            out.len() == 0
        }
    }

    pub fn from_configuration(value: ConfigValue) -> (r: Self)
        ensures
            r == import_default_config(value),
    {
        let obj = value.get_index(0);
        let max_depth = match obj {
            Some(v) => match v.get_key(&"maxDepth".to_owned()) {
                Some(n) => match n.as_u64() {
                    Some(n) => if n > u32::MAX as u64 {
                        u32::MAX
                    } else {
                        n as u32
                    },
                    None => u32::MAX,
                },
                None => u32::MAX,
            },
            None => u32::MAX,
        };
        let ignore_types = read_flag(obj, &"ignoreTypes".to_owned());
        let ignore_external = read_flag(obj, &"ignoreExternal".to_owned());
        let allow_unsafe_dynamic_cyclic_dependency = read_flag(
            obj,
            &"allowUnsafeDynamicCyclicDependency".to_owned(),
        );
        Default { max_depth, ignore_types, ignore_external, allow_unsafe_dynamic_cyclic_dependency }
    }
}

impl Rule for Default {
    open spec fn node_findings(&self, node: AstNode, sem: Semantic, cwd: Seq<char>, out: Seq<Diagnostic>) -> bool {
        out.len() == 0
    }

    /// One part per import entry of the file, in order.
    open spec fn file_findings(&self, sem: Semantic, cwd: Seq<char>, out: Seq<Diagnostic>) -> bool {
        let g = sem.modules@;
        let rec = g[sem.module_id as int];
        exists|parts: Seq<Seq<Diagnostic>>|
            {
                &&& parts.len() == rec.import_entries.len()
                &&& forall|i: int|
                    0 <= i < rec.import_entries.len() ==> self.entry_findings(
                        g,
                        rec,
                        rec.import_entries[i],
                        #[trigger] parts[i],
                    )
                &&& out == concat(parts)
            }
    }

    fn run(&self, node: &AstNode, sem: &Semantic, ctx: &mut LintContext) {
        assert(ctx.diagnostics@ == old(ctx).diagnostics@ + Seq::<Diagnostic>::empty());
    }

    fn run_once(&self, sem: &Semantic, ctx: &mut LintContext) {
        let graph = &sem.modules;
        let record = graph.module(sem.module_id);
        let ghost g = graph@;
        assert(specifiers_distinct(g[sem.module_id as int].loaded_modules@));
        let ghost start = ctx.diagnostics@;
        let ghost mut parts: Seq<Seq<Diagnostic>> = Seq::empty();
        let mut i: usize = 0;
        while i < record.import_entries.len()
            invariant
                sem.wf(),
                sem.modules@ == g,
                graph@ == g,
                graph.wf(),
                *record == g[sem.module_id as int],
                specifiers_distinct(record.loaded_modules@),
                i <= record.import_entries@.len(),
                parts.len() == i,
                forall|j: int|
                    0 <= j < i ==> self.entry_findings(g, *record, record.import_entries@[j], #[trigger] parts[j]),
                ctx.diagnostics@ == start + concat(parts),
                ctx.cwd == old(ctx).cwd,
            decreases record.import_entries@.len() - i,
        {
            let entry = &record.import_entries[i];
            let ghost old_parts = parts;
            let mut reported = false;
            match &entry.import_name {
                ImportImportName::Default(default_span) => {
                    match record.loaded_module(&entry.module_request) {
                        Some(target) => {
                            let ghost k = choose|k: int|
                                0 <= k < record.loaded_modules@.len()
                                    && #[trigger] record.loaded_modules@[k].module == target;
                            assert(g[sem.module_id as int].loaded_modules[k].module < g.len());
                            let remote = graph.module(target);
                            if !remote.not_esm && remote.export_default.is_none()
                                && !remote.has_exported_binding(&"default".to_owned()) {
                                let mut help = entry.module_request.clone();
                                help.append(" has no default export");
                                let d = Diagnostic {
                                    message: "eslint-plugin-import(default): No default export found in imported module".to_owned(),
                                    severity: Severity::Warning,
                                    span: Some(*default_span),
                                    help: Some(help),
                                };
                                ctx.diagnostic(d);
                                reported = true;
                                proof {
                                    parts = parts.push(seq![d]);
                                    assert(parts[i as int][0] == d);
                                }
                            }
                        },
                        None => {},
                    }
                },
                _ => {},
            }
            if !reported {
                proof {
                    parts = parts.push(Seq::empty());
                }
            }
            proof {
                assert(parts.drop_last() =~= old_parts);
                assert(ctx.diagnostics@ =~= start + concat(parts));
                assert(self.entry_findings(g, *record, record.import_entries@[i as int], parts[i as int]));
                assert forall|j: int| 0 <= j < i + 1 implies self.entry_findings(
                    g,
                    *record,
                    record.import_entries@[j],
                    #[trigger] parts[j],
                ) by {
                    if j < i {
                        assert(parts[j] == old_parts[j]);
                    }
                }
            }
            i = i + 1;
        }
        assert(ctx.diagnostics@ == old(ctx).diagnostics@ + concat(parts));
    }
}

} // verus!
