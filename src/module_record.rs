use vstd::prelude::*;
use vstd::string::*;

use crate::node::Span;

verus! {

/// How an import entry names what it takes from the other module.
#[derive(Debug)]
pub enum ImportImportName {
    /// `import { name } from "m"`
    Name(String),
    /// `import * as ns from "m"`
    NamespaceObject,
    /// `import d from "m"`, with the span of the default binding
    Default(Span),
}

/// One binding that a module imports.
#[derive(Debug)]
pub struct ImportEntry {
    /// The module specifier, as written.
    pub module_request: String,
    /// Where the specifier stands in the source.
    pub module_request_span: Span,
    pub import_name: ImportImportName,
    pub local_name: String,
    /// The binding is used for type information only.
    pub is_type: bool,
}

/// An edge of the module graph: a specifier and the module it resolves to.
#[derive(Debug)]
pub struct LoadedModule {
    pub specifier: String,
    /// Index of the target record in its [`ModuleGraph`].
    pub module: usize,
}

/// The import and export facts of one resolved file.
#[derive(Debug)]
pub struct ModuleRecord {
    /// Canonical absolute path: the identity of the module in the graph.
    pub resolved_absolute_path: String,
    pub import_entries: Vec<ImportEntry>,
    pub exported_bindings: Vec<String>,
    pub export_default: Option<Span>,
    /// The file is not an ES module.
    pub not_esm: bool,
    /// Specifier-to-module edges, one per specifier.
    pub loaded_modules: Vec<LoadedModule>,
}

/// `loaded` holds no specifier twice.
pub open spec fn specifiers_distinct(loaded: Seq<LoadedModule>) -> bool {
    forall|i: int, j: int|
        0 <= i < loaded.len() && 0 <= j < loaded.len() && i != j ==> #[trigger] loaded[i].specifier@
            != #[trigger] loaded[j].specifier@
}

/// The edge of `rec` for `specifier`, if there is one.
pub open spec fn loaded_module_spec(rec: ModuleRecord, specifier: Seq<char>) -> Option<usize> {
    if exists|k: int|
        0 <= k < rec.loaded_modules.len() && #[trigger] rec.loaded_modules[k].specifier@
            == specifier {
        let k = choose|k: int|
            0 <= k < rec.loaded_modules.len() && #[trigger] rec.loaded_modules[k].specifier@
                == specifier;
        Some(rec.loaded_modules[k].module)
    } else {
        None
    }
}

/// Every import entry of `rec` for `specifier` is type-only (true when
/// there is none).
pub open spec fn imported_only_as_type(rec: ModuleRecord, specifier: Seq<char>) -> bool {
    forall|i: int|
        0 <= i < rec.import_entries.len() && #[trigger] rec.import_entries[i].module_request@
            == specifier ==> rec.import_entries[i].is_type
}

/// `bindings` holds `name`.
pub open spec fn exports_name(bindings: Seq<String>, name: Seq<char>) -> bool {
    exists|i: int| 0 <= i < bindings.len() && #[trigger] bindings[i]@ == name
}

impl ModuleRecord {
    /// The record of a file with no imports, exports or edges yet.
    pub fn new(resolved_absolute_path: String) -> (r: Self)
        ensures
            r.resolved_absolute_path == resolved_absolute_path,
            r.import_entries@.len() == 0,
            r.exported_bindings@.len() == 0,
            r.export_default is None,
            !r.not_esm,
            r.loaded_modules@.len() == 0,
    {
        ModuleRecord {
            resolved_absolute_path,
            import_entries: Vec::new(),
            exported_bindings: Vec::new(),
            export_default: None,
            not_esm: false,
            loaded_modules: Vec::new(),
        }
    }

    /// The module that `specifier` resolves to.
    pub fn loaded_module(&self, specifier: &String) -> (r: Option<usize>)
        requires
            specifiers_distinct(self.loaded_modules@),
        ensures
            r == loaded_module_spec(*self, specifier@),
            r is Some ==> exists|k: int|
                0 <= k < self.loaded_modules@.len() && #[trigger] self.loaded_modules@[k].module == r->0,
    {
        let mut k: usize = 0;
        while k < self.loaded_modules.len()
            invariant
                specifiers_distinct(self.loaded_modules@),
                k <= self.loaded_modules@.len(),
                forall|j: int|
                    0 <= j < k ==> #[trigger] self.loaded_modules@[j].specifier@ != specifier@,
            decreases self.loaded_modules@.len() - k,
        {
            if self.loaded_modules[k].specifier == *specifier {
                assert(self.loaded_modules@[k as int].specifier@ == specifier@);
                let ghost c = choose|j: int|
                    0 <= j < self.loaded_modules@.len()
                        && #[trigger] self.loaded_modules@[j].specifier@ == specifier@;
                assert(self.loaded_modules@[k as int].specifier@ == specifier@);
                assert(self.loaded_modules@[c].specifier@ == self.loaded_modules@[k as int].specifier@);
                proof {
                    if c != k as int {
                        assert(self.loaded_modules@[c].specifier@ != self.loaded_modules@[k as int].specifier@);
                    }
                }
                return Some(self.loaded_modules[k].module);
            }
            k = k + 1;
        }
        None
    }

    /// Whether every import entry for `specifier` is type-only.
    pub fn was_imported_as_type(&self, specifier: &String) -> (r: bool)
        ensures
            r == imported_only_as_type(*self, specifier@),
    {
        let mut i: usize = 0;
        while i < self.import_entries.len()
            invariant
                i <= self.import_entries@.len(),
                forall|j: int|
                    0 <= j < i && #[trigger] self.import_entries@[j].module_request@
                        == specifier@ ==> self.import_entries@[j].is_type,
            decreases self.import_entries@.len() - i,
        {
            if self.import_entries[i].module_request == *specifier
                && !self.import_entries[i].is_type {
                return false;
            }
            i = i + 1;
        }
        true
    }

    /// Whether the record exports a binding called `name`.
    pub fn has_exported_binding(&self, name: &String) -> (r: bool)
        ensures
            r == exports_name(self.exported_bindings@, name@),
    {
        let mut i: usize = 0;
        while i < self.exported_bindings.len()
            invariant
                i <= self.exported_bindings@.len(),
                forall|j: int| 0 <= j < i ==> #[trigger] self.exported_bindings@[j]@ != name@,
            decreases self.exported_bindings@.len() - i,
        {
            if self.exported_bindings[i] == *name {
                return true;
            }
            i = i + 1;
        }
        false
    }
}

/// Whether no specifier occurs twice in `loaded`.
fn distinct_specifiers(loaded: &Vec<LoadedModule>) -> (r: bool)
    ensures
        r == specifiers_distinct(loaded@),
{
    let n = loaded.len();
    let mut a: usize = 0;
    while a < n
        invariant
            n == loaded@.len(),
            a <= n,
            forall|x: int, y: int|
                0 <= x < a && x < y < n ==> #[trigger] loaded@[x].specifier@
                    != #[trigger] loaded@[y].specifier@,
        decreases n - a,
    {
        let mut b: usize = a + 1;
        while b < n
            invariant
                n == loaded@.len(),
                a < n,
                a < b <= n,
                forall|x: int, y: int|
                    0 <= x < a && x < y < n ==> #[trigger] loaded@[x].specifier@
                        != #[trigger] loaded@[y].specifier@,
                forall|y: int| a < y < b ==> loaded@[a as int].specifier@ != #[trigger] loaded@[y].specifier@,
            decreases n - b,
        {
            if loaded[a].specifier == loaded[b].specifier {
                return false;
            }
            b = b + 1;
        }
        a = a + 1;
    }
    assert forall|x: int, y: int|
        0 <= x < n && 0 <= y < n && x != y implies #[trigger] loaded@[x].specifier@
        != #[trigger] loaded@[y].specifier@ by {
        if y < x {
            assert(loaded@[y].specifier@ != loaded@[x].specifier@);
        }
    }
    true
}

/// An arena of module records, addressed by index. Edges name their target
/// by index, so the graph may hold cycles.
#[derive(Debug)]
pub struct ModuleGraph {
    modules: Vec<ModuleRecord>,
}

impl View for ModuleGraph {
    type V = Seq<ModuleRecord>;

    closed spec fn view(&self) -> Seq<ModuleRecord> {
        self.modules@
    }
}

/// Every edge points at a record of the arena, no module has two edges for
/// one specifier, and no two records share a path.
pub open spec fn graph_wf(g: Seq<ModuleRecord>) -> bool {
    &&& forall|m: int, k: int|
        0 <= m < g.len() && 0 <= k < g[m].loaded_modules.len() ==> #[trigger] g[m].loaded_modules[k].module
            < g.len()
    &&& forall|m: int| 0 <= m < g.len() ==> specifiers_distinct(#[trigger] g[m].loaded_modules@)
    &&& forall|a: int, b: int|
        0 <= a < g.len() && 0 <= b < g.len() && a != b ==> #[trigger] g[a].resolved_absolute_path@
            != #[trigger] g[b].resolved_absolute_path@
}

impl ModuleGraph {
    pub open spec fn wf(&self) -> bool {
        graph_wf(self@)
    }

    /// Whether the graph is well formed.
    pub fn is_well_formed(&self) -> (r: bool)
        ensures
            r == self.wf(),
    {
        let n = self.modules.len();
        let mut m: usize = 0;
        while m < n
            invariant
                n == self@.len(),
                m <= n,
                forall|a: int, k: int|
                    0 <= a < m && 0 <= k < self@[a].loaded_modules.len() ==> #[trigger] self@[a].loaded_modules[k].module
                        < n,
                forall|a: int| 0 <= a < m ==> specifiers_distinct(#[trigger] self@[a].loaded_modules@),
            decreases n - m,
        {
            let edges = &self.modules[m].loaded_modules;
            let mut k: usize = 0;
            while k < edges.len()
                invariant
                    n == self@.len(),
                    m < n,
                    *edges == self@[m as int].loaded_modules,
                    k <= edges@.len(),
                    forall|j: int| 0 <= j < k ==> #[trigger] edges@[j].module < n,
                decreases edges@.len() - k,
            {
                if edges[k].module >= n {
                    assert(self@[m as int].loaded_modules[k as int].module >= n);
                    return false;
                }
                k = k + 1;
            }
            if !distinct_specifiers(edges) {
                return false;
            }
            m = m + 1;
        }
        let mut a: usize = 0;
        while a < n
            invariant
                n == self@.len(),
                a <= n,
                forall|x: int, y: int|
                    0 <= x < a && x < y < n ==> #[trigger] self@[x].resolved_absolute_path@
                        != #[trigger] self@[y].resolved_absolute_path@,
            decreases n - a,
        {
            let mut b: usize = a + 1;
            while b < n
                invariant
                    n == self@.len(),
                    a < n,
                    a < b <= n,
                    forall|x: int, y: int|
                        0 <= x < a && x < y < n ==> #[trigger] self@[x].resolved_absolute_path@
                            != #[trigger] self@[y].resolved_absolute_path@,
                    forall|y: int|
                        a < y < b ==> self@[a as int].resolved_absolute_path@
                            != #[trigger] self@[y].resolved_absolute_path@,
                decreases n - b,
            {
                if self.modules[a].resolved_absolute_path == self.modules[b].resolved_absolute_path {
                    return false;
                }
                b = b + 1;
            }
            a = a + 1;
        }
        assert forall|x: int, y: int|
            0 <= x < n && 0 <= y < n && x != y implies #[trigger] self@[x].resolved_absolute_path@
            != #[trigger] self@[y].resolved_absolute_path@ by {
            if y < x {
                assert(self@[y].resolved_absolute_path@ != self@[x].resolved_absolute_path@);
            }
        }
        true
    }

    pub fn new() -> (r: Self)
        ensures
            r.wf(),
            r@.len() == 0,
    {
        ModuleGraph { modules: Vec::new() }
    }

    pub fn len(&self) -> (r: usize)
        ensures
            r == self@.len(),
    {
        self.modules.len()
    }

    pub fn module(&self, id: usize) -> (r: &ModuleRecord)
        requires
            id < self@.len(),
        ensures
            *r == self@[id as int],
    {
        &self.modules[id]
    }

    /// The index of the record whose path is `path`.
    pub fn find(&self, path: &String) -> (r: Option<usize>)
        ensures
            match r {
                Some(id) => id < self@.len() && self@[id as int].resolved_absolute_path@ == path@,
                None => forall|m: int|
                    0 <= m < self@.len() ==> #[trigger] self@[m].resolved_absolute_path@ != path@,
            },
    {
        let mut i: usize = 0;
        while i < self.modules.len()
            invariant
                i <= self@.len(),
                self@ == self.modules@,
                forall|m: int| 0 <= m < i ==> #[trigger] self@[m].resolved_absolute_path@ != path@,
            decreases self@.len() - i,
        {
            if self.modules[i].resolved_absolute_path == *path {
                return Some(i);
            }
            i = i + 1;
        }
        None
    }

    /// Adds a record without edges and returns its index; if a record with
    /// the same path is already there, the graph is left as it is and that
    /// record's index comes back as the error.
    pub fn add_module(&mut self, record: ModuleRecord) -> (r: Result<usize, usize>)
        requires
            old(self).wf(),
            record.loaded_modules@.len() == 0,
        ensures
            final(self).wf(),
            match r {
                Ok(id) => {
                    &&& id == old(self)@.len()
                    &&& final(self)@ == old(self)@.push(record)
                    &&& forall|m: int|
                        0 <= m < old(self)@.len() ==> #[trigger] old(
                            self,
                        )@[m].resolved_absolute_path@ != record.resolved_absolute_path@
                },
                Err(id) => {
                    &&& final(self)@ == old(self)@
                    &&& id < old(self)@.len()
                    &&& old(self)@[id as int].resolved_absolute_path@
                        == record.resolved_absolute_path@
                },
            },
    {
        match self.find(&record.resolved_absolute_path) {
            Some(id) => Err(id),
            None => {
                let id = self.modules.len();
                self.modules.push(record);
                proof {
                    let g = self@;
                    assert forall|m: int| 0 <= m < g.len() implies specifiers_distinct(
                        #[trigger] g[m].loaded_modules@,
                    ) by {
                        if m < id {
                            assert(g[m] == old(self)@[m]);
                        }
                    }
                    assert forall|m: int, k: int|
                        0 <= m < g.len() && 0 <= k < g[m].loaded_modules.len() implies #[trigger] g[m].loaded_modules[k].module
                        < g.len() by {
                        assert(g[m] == old(self)@[m]);
                    }
                }
                Ok(id)
            },
        }
    }

    /// Records that `module` imports `entry`.
    pub fn add_import_entry(&mut self, module: usize, entry: ImportEntry)
        requires
            old(self).wf(),
            module < old(self)@.len(),
        ensures
            final(self).wf(),
            final(self)@.len() == old(self)@.len(),
            forall|m: int| 0 <= m < old(self)@.len() && m != module ==> #[trigger] final(self)@[m] == old(self)@[m],
            final(self)@[module as int].import_entries@ == old(self)@[module as int].import_entries@.push(entry),
            final(self)@[module as int].resolved_absolute_path == old(self)@[module as int].resolved_absolute_path,
            final(self)@[module as int].exported_bindings == old(self)@[module as int].exported_bindings,
            final(self)@[module as int].export_default == old(self)@[module as int].export_default,
            final(self)@[module as int].not_esm == old(self)@[module as int].not_esm,
            final(self)@[module as int].loaded_modules == old(self)@[module as int].loaded_modules,
    {
        let mut rec = self.modules.remove(module);
        rec.import_entries.push(entry);
        self.modules.insert(module, rec);
        proof { self.lemma_wf_after_edit(*old(self), module as int); }
    }

    /// Records that `module` exports a binding called `name`.
    pub fn add_exported_binding(&mut self, module: usize, name: String)
        requires
            old(self).wf(),
            module < old(self)@.len(),
        ensures
            final(self).wf(),
            final(self)@.len() == old(self)@.len(),
            forall|m: int| 0 <= m < old(self)@.len() && m != module ==> #[trigger] final(self)@[m] == old(self)@[m],
            final(self)@[module as int].exported_bindings@ == old(self)@[module as int].exported_bindings@.push(name),
            final(self)@[module as int].resolved_absolute_path == old(self)@[module as int].resolved_absolute_path,
            final(self)@[module as int].import_entries == old(self)@[module as int].import_entries,
            final(self)@[module as int].export_default == old(self)@[module as int].export_default,
            final(self)@[module as int].not_esm == old(self)@[module as int].not_esm,
            final(self)@[module as int].loaded_modules == old(self)@[module as int].loaded_modules,
    {
        let mut rec = self.modules.remove(module);
        rec.exported_bindings.push(name);
        self.modules.insert(module, rec);
        proof { self.lemma_wf_after_edit(*old(self), module as int); }
    }

    /// Sets the default export of `module`.
    pub fn set_export_default(&mut self, module: usize, span: Option<Span>)
        requires
            old(self).wf(),
            module < old(self)@.len(),
        ensures
            final(self).wf(),
            final(self)@.len() == old(self)@.len(),
            forall|m: int| 0 <= m < old(self)@.len() && m != module ==> #[trigger] final(self)@[m] == old(self)@[m],
            final(self)@[module as int].export_default == span,
            final(self)@[module as int].resolved_absolute_path == old(self)@[module as int].resolved_absolute_path,
            final(self)@[module as int].import_entries == old(self)@[module as int].import_entries,
            final(self)@[module as int].exported_bindings == old(self)@[module as int].exported_bindings,
            final(self)@[module as int].not_esm == old(self)@[module as int].not_esm,
            final(self)@[module as int].loaded_modules == old(self)@[module as int].loaded_modules,
    {
        let mut rec = self.modules.remove(module);
        rec.export_default = span;
        self.modules.insert(module, rec);
        proof { self.lemma_wf_after_edit(*old(self), module as int); }
    }

    /// Makes `specifier` in `from` resolve to `to`, replacing an earlier
    /// edge for the same specifier.
    pub fn add_loaded_module(&mut self, from: usize, specifier: String, to: usize)
        requires
            old(self).wf(),
            from < old(self)@.len(),
            to < old(self)@.len(),
        ensures
            final(self).wf(),
            final(self)@.len() == old(self)@.len(),
            forall|m: int| 0 <= m < old(self)@.len() && m != from ==> #[trigger] final(self)@[m] == old(self)@[m],
            loaded_module_spec(final(self)@[from as int], specifier@) == Some(to),
            forall|s: Seq<char>| s != specifier@ ==> #[trigger] loaded_module_spec(final(self)@[from as int], s)
                == loaded_module_spec(old(self)@[from as int], s),
            final(self)@[from as int].resolved_absolute_path == old(self)@[from as int].resolved_absolute_path,
            final(self)@[from as int].import_entries == old(self)@[from as int].import_entries,
            final(self)@[from as int].exported_bindings == old(self)@[from as int].exported_bindings,
            final(self)@[from as int].export_default == old(self)@[from as int].export_default,
            final(self)@[from as int].not_esm == old(self)@[from as int].not_esm,
    {
        let mut rec = self.modules.remove(from);
        let ghost before = rec;
        let mut k: usize = 0;
        let mut found = false;
        while !found && k < rec.loaded_modules.len()
            invariant
                rec == before,
                k <= rec.loaded_modules@.len(),
                found ==> k < rec.loaded_modules@.len() && rec.loaded_modules@[k as int].specifier@ == specifier@,
                forall|j: int| 0 <= j < k ==> #[trigger] rec.loaded_modules@[j].specifier@ != specifier@,
            decreases rec.loaded_modules@.len() - k + (if found { 0int } else { 1int }),
        {
            if rec.loaded_modules[k].specifier == specifier {
                found = true;
            } else {
                k = k + 1;
            }
        }
        let ghost old_edges = rec.loaded_modules@;
        if found {
            rec.loaded_modules.set(k, LoadedModule { specifier, module: to });
        } else {
            rec.loaded_modules.push(LoadedModule { specifier, module: to });
        }
        proof {
            let e = rec.loaded_modules@;
            assert(e[k as int].specifier@ == specifier@);
            assert forall|i: int, j: int|
                0 <= i < e.len() && 0 <= j < e.len() && i != j implies #[trigger] e[i].specifier@
                != #[trigger] e[j].specifier@ by {
                if i != k && j != k {
                    assert(e[i] == old_edges[i] && e[j] == old_edges[j]);
                }
            }
            assert(specifiers_distinct(e));
            assert forall|s: Seq<char>| s != specifier@ implies #[trigger] loaded_module_spec(rec, s)
                == loaded_module_spec(before, s) by {
                if exists|j: int| 0 <= j < e.len() && #[trigger] e[j].specifier@ == s {
                    let j = choose|j: int| 0 <= j < e.len() && #[trigger] e[j].specifier@ == s;
                    assert(j != k && old_edges[j] == e[j]);
                }
                if exists|j: int| 0 <= j < old_edges.len() && #[trigger] old_edges[j].specifier@ == s {
                    let j = choose|j: int| 0 <= j < old_edges.len() && #[trigger] old_edges[j].specifier@ == s;
                    assert(j != k && old_edges[j] == e[j]);
                }
            }
        }
        self.modules.insert(from, rec);
        proof {
            let g = self@;
            assert(g[from as int] == rec);
            assert forall|m: int, j: int|
                0 <= m < g.len() && 0 <= j < g[m].loaded_modules.len() implies #[trigger] g[m].loaded_modules[j].module
                < g.len() by {
                if m != from {
                    assert(g[m] == old(self)@[m]);
                } else if j != k {
                    assert(g[m].loaded_modules[j] == old_edges[j]);
                    assert(old(self)@[m].loaded_modules[j] == old_edges[j]);
                }
            }
            assert forall|m: int| 0 <= m < g.len() implies specifiers_distinct(
                #[trigger] g[m].loaded_modules@,
            ) by {
                if m != from {
                    assert(g[m] == old(self)@[m]);
                }
            }
            assert forall|a: int, b: int|
                0 <= a < g.len() && 0 <= b < g.len() && a != b implies #[trigger] g[a].resolved_absolute_path@
                != #[trigger] g[b].resolved_absolute_path@ by {
                assert(g[a].resolved_absolute_path == old(self)@[a].resolved_absolute_path);
                assert(g[b].resolved_absolute_path == old(self)@[b].resolved_absolute_path);
            }
        }
    }

    /// An edit of one record that keeps its path and edges keeps the graph
    /// well formed.
    proof fn lemma_wf_after_edit(&self, before: ModuleGraph, module: int)
        requires
            before.wf(),
            0 <= module < before@.len(),
            self@.len() == before@.len(),
            forall|m: int| 0 <= m < before@.len() && m != module ==> #[trigger] self@[m] == before@[m],
            self@[module].resolved_absolute_path == before@[module].resolved_absolute_path,
            self@[module].loaded_modules == before@[module].loaded_modules,
        ensures
            self.wf(),
    {
        let g = self@;
        assert forall|m: int, k: int|
            0 <= m < g.len() && 0 <= k < g[m].loaded_modules.len() implies #[trigger] g[m].loaded_modules[k].module
            < g.len() by {
            assert(g[m].loaded_modules == before@[m].loaded_modules);
        }
        assert forall|m: int| 0 <= m < g.len() implies specifiers_distinct(
            #[trigger] g[m].loaded_modules@,
        ) by {
            assert(g[m].loaded_modules == before@[m].loaded_modules);
        }
        assert forall|a: int, b: int|
            0 <= a < g.len() && 0 <= b < g.len() && a != b implies #[trigger] g[a].resolved_absolute_path@
            != #[trigger] g[b].resolved_absolute_path@ by {
            assert(g[a].resolved_absolute_path == before@[a].resolved_absolute_path);
            assert(g[b].resolved_absolute_path == before@[b].resolved_absolute_path);
        }
    }
}

} // verus!
