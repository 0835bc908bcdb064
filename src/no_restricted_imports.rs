use vstd::prelude::*;

use crate::config::{key_spec, opt_key_spec, opt_str_spec, ConfigValue};
use crate::lint::{concat, Diagnostic, LintContext, Rule, Semantic, Severity};
use crate::module_record::ImportEntry;
use crate::node::AstNode;

verus! {

/// A module that may not be imported, and the message that says why.
#[derive(Clone, Debug)]
pub struct PathConfig {
    pub path: String,
    pub message: String,
}

/// Reports every import of a module that the configuration forbids.
#[derive(Clone, Debug)]
pub struct NoRestrictedImports {
    pub paths: Vec<PathConfig>,
}

/// The path and message of each entry, as text.
pub open spec fn path_views(paths: Seq<PathConfig>) -> Seq<(Seq<char>, Seq<char>)> {
    paths.map_values(|p: PathConfig| (p.path@, p.message@))
}

/// The forbidden paths that the array `items` configures: each object with
/// a string `path`, in order, with its string `message` or an empty one;
/// an element without a string `path` is passed over.
pub open spec fn path_configs(items: Seq<ConfigValue>) -> Seq<(Seq<char>, Seq<char>)>
    decreases items.len(),
{
    if items.len() == 0 {
        Seq::empty()
    } else {
        let rest = path_configs(items.drop_last());
        let item = items.last();
        match opt_str_spec(key_spec(item, "path"@)) {
            Some(path) => rest.push(
                (
                    path,
                    match opt_str_spec(key_spec(item, "message"@)) {
                        Some(m) => m,
                        None => Seq::empty(),
                    },
                ),
            ),
            None => rest,
        }
    }
}

/// The configuration under the key `paths` of `value`, when it is an array.
pub open spec fn restricted_paths_config(value: ConfigValue) -> Seq<(Seq<char>, Seq<char>)> {
    match opt_key_spec(Some(value), "paths"@) {
        Some(ConfigValue::Array(items)) => path_configs(items@),
        _ => Seq::empty(),
    }
}

/// The index of the first entry of `paths` for `name`.
pub open spec fn first_match(paths: Seq<PathConfig>, name: Seq<char>) -> Option<int>
    decreases paths.len(),
{
    if paths.len() == 0 {
        None
    } else {
        match first_match(paths.drop_last(), name) {
            Some(i) => Some(i),
            None => if paths.last().path@ == name {
                Some(paths.len() - 1)
            } else {
                None
            },
        }
    }
}

impl NoRestrictedImports {
    /// `out` is what is reported for `entry`.
    pub open spec fn entry_findings(&self, entry: ImportEntry, out: Seq<Diagnostic>) -> bool {
        match first_match(self.paths@, entry.module_request@) {
            Some(j) => {
                &&& out.len() == 1
                &&& out[0].message@ == "eslint(no-restricted-imports): Disallow specified modules when loaded by import"@
                &&& out[0].severity == Severity::Warning
                &&& out[0].span == Some(entry.module_request_span)
                &&& out[0].help is Some
                &&& out[0].help->0@ == self.paths@[j].message@
            },
            None => out.len() == 0,
        }
    }

    pub fn from_configuration(value: ConfigValue) -> (r: Self)
        ensures
            path_views(r.paths@) == restricted_paths_config(value),
    {
        let mut paths: Vec<PathConfig> = Vec::new();
        match value.get_key(&"paths".to_owned()) {
            Some(v) => match v.as_array() {
                Some(items) => {
                    let mut i: usize = 0;
                    while i < items.len()
                        invariant
                            i <= items@.len(),
                            path_views(paths@) == path_configs(items@.subrange(0, i as int)),
                        decreases items@.len() - i,
                    {
                        let ghost before = paths@;
                        let item = &items[i];
                        assert(items@.subrange(0, i + 1).drop_last() =~= items@.subrange(0, i as int));
                        match item.get_key(&"path".to_owned()) {
                            Some(p) => match p.as_str() {
                                Some(path) => {
                                    let message = match item.get_key(&"message".to_owned()) {
                                        Some(m) => match m.as_str() {
                                            Some(m) => m.clone(),
                                            None => String::new(),
                                        },
                                        None => String::new(),
                                    };
                                    paths.push(PathConfig { path: path.clone(), message });
                                    assert(path_views(paths@) =~= path_views(before).push(
                                        (paths@.last().path@, paths@.last().message@),
                                    ));
                                },
                                None => {},
                            },
                            None => {},
                        }
                        i = i + 1;
                    }
                    assert(items@.subrange(0, items@.len() as int) =~= items@);
                },
                None => {},
            },
            None => {},
        }
        assert(path_views(paths@) =~= restricted_paths_config(value));
        NoRestrictedImports { paths }
    }

    /// The first entry for `name`.
    fn find(&self, name: &String) -> (r: Option<usize>)
        ensures
            match first_match(self.paths@, name@) {
                Some(j) => r == Some(j as usize),
                None => r is None,
            },
            r is Some ==> r->0 < self.paths@.len() && first_match(self.paths@, name@) == Some(
                r->0 as int,
            ),
    {
        proof {
            lemma_first_match_in_range(self.paths@, name@);
        }
        let mut i: usize = 0;
        while i < self.paths.len()
            invariant
                i <= self.paths@.len(),
                first_match(self.paths@.subrange(0, i as int), name@) is None,
            decreases self.paths@.len() - i,
        {
            let ghost pre = self.paths@.subrange(0, i as int);
            let ghost next = self.paths@.subrange(0, i + 1);
            assert(next.drop_last() =~= pre);
            if self.paths[i].path == *name {
                proof {
                    lemma_first_match_prefix(self.paths@, i + 1, name@);
                }
                return Some(i);
            }
            i = i + 1;
        }
        assert(self.paths@.subrange(0, self.paths@.len() as int) =~= self.paths@);
        None
    }
}

proof fn lemma_first_match_in_range(paths: Seq<PathConfig>, name: Seq<char>)
    ensures
        first_match(paths, name) is Some ==> 0 <= first_match(paths, name)->0 < paths.len(),
    decreases paths.len(),
{
    if paths.len() > 0 {
        lemma_first_match_in_range(paths.drop_last(), name);
    }
}

/// A match found in a prefix is the first match of the whole.
proof fn lemma_first_match_prefix(paths: Seq<PathConfig>, n: int, name: Seq<char>)
    requires
        0 <= n <= paths.len(),
        first_match(paths.subrange(0, n), name) is Some,
    ensures
        first_match(paths, name) == first_match(paths.subrange(0, n), name),
    decreases paths.len() - n,
{
    if n < paths.len() {
        assert(paths.subrange(0, n + 1).drop_last() =~= paths.subrange(0, n));
        lemma_first_match_prefix(paths, n + 1, name);
    } else {
        assert(paths.subrange(0, n) =~= paths);
    }
}

impl Rule for NoRestrictedImports {
    open spec fn node_findings(&self, node: AstNode, sem: Semantic, cwd: Seq<char>, out: Seq<Diagnostic>) -> bool {
        out.len() == 0
    }

    /// One part per import entry of the file, in order.
    open spec fn file_findings(&self, sem: Semantic, cwd: Seq<char>, out: Seq<Diagnostic>) -> bool {
        let entries = sem.modules@[sem.module_id as int].import_entries@;
        exists|parts: Seq<Seq<Diagnostic>>|
            {
                &&& parts.len() == entries.len()
                &&& forall|i: int| 0 <= i < entries.len() ==> self.entry_findings(entries[i], #[trigger] parts[i])
                &&& out == concat(parts)
            }
    }

    fn run(&self, node: &AstNode, sem: &Semantic, ctx: &mut LintContext) {
        assert(ctx.diagnostics@ == old(ctx).diagnostics@ + Seq::<Diagnostic>::empty());
    }

    fn run_once(&self, sem: &Semantic, ctx: &mut LintContext) {
        let record = sem.modules.module(sem.module_id);
        let ghost start = ctx.diagnostics@;
        let ghost mut parts: Seq<Seq<Diagnostic>> = Seq::empty();
        let mut i: usize = 0;
        while i < record.import_entries.len()
            invariant
                i <= record.import_entries@.len(),
                parts.len() == i,
                forall|j: int| 0 <= j < i ==> self.entry_findings(record.import_entries@[j], #[trigger] parts[j]),
                ctx.diagnostics@ == start + concat(parts),
                ctx.cwd == old(ctx).cwd,
            decreases record.import_entries@.len() - i,
        {
            let entry = &record.import_entries[i];
            let ghost old_parts = parts;
            match self.find(&entry.module_request) {
                Some(j) => {
                    let d = Diagnostic {
                        message: "eslint(no-restricted-imports): Disallow specified modules when loaded by import".to_owned(),
                        severity: Severity::Warning,
                        span: Some(entry.module_request_span),
                        help: Some(self.paths[j].message.clone()),
                    };
                    ctx.diagnostic(d);
                    proof {
                        parts = parts.push(seq![d]);
                        assert(parts[i as int][0] == d);
                    }
                },
                None => {
                    proof {
                        parts = parts.push(Seq::empty());
                    }
                },
            }
            proof {
                assert(parts.drop_last() =~= old_parts);
                assert(ctx.diagnostics@ =~= start + concat(parts));
                assert(self.entry_findings(record.import_entries@[i as int], parts[i as int]));
                assert forall|j: int| 0 <= j < i + 1 implies self.entry_findings(
                    record.import_entries@[j],
                    #[trigger] parts[j],
                ) by {
                    if j < i {
                        assert(parts[j] == old_parts[j]);
                    }
                }
            }
            i = i + 1;
        }
        assert(ctx.diagnostics@ == old(ctx).diagnostics@ + concat(parts));
    }
}

} // verus!
