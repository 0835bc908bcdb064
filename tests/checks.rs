use oxc_lint_core::config::{ConfigEntry, ConfigValue};
use oxc_lint_core::import_default::Default as ImportDefault;
use oxc_lint_core::lint::{lint_file, Diagnostic, LintContext, Rule, Semantic, Severity};
use oxc_lint_core::module_record::{ImportEntry, ImportImportName, ModuleGraph, ModuleRecord};
use oxc_lint_core::no_excessive_deps::NoExcessiveDeps;
use oxc_lint_core::no_export_all::NoExportAll;
use oxc_lint_core::no_restricted_imports::NoRestrictedImports;
use oxc_lint_core::node::{AstKind, AstNode, AstNodes, ExportAllDeclaration, NodeFlags, Span};

fn obj(entries: Vec<(&str, ConfigValue)>) -> ConfigValue {
    ConfigValue::Object(
        entries
            .into_iter()
            .map(|(k, v)| ConfigEntry { key: k.to_string(), value: v })
            .collect(),
    )
}

fn text(s: &str) -> ConfigValue {
    ConfigValue::Str(s.to_string())
}

fn num(n: u64) -> ConfigValue {
    ConfigValue::Number(Some(n))
}

fn add(g: &mut ModuleGraph, path: &str) -> usize {
    g.add_module(ModuleRecord::new(path.to_string())).unwrap()
}

fn entry(spec: &str, start: u32, name: ImportImportName, is_type: bool) -> ImportEntry {
    ImportEntry {
        module_request: spec.to_string(),
        module_request_span: Span { start, end: start + spec.len() as u32 + 2 },
        import_name: name,
        local_name: "x".to_string(),
        is_type,
    }
}

fn import(g: &mut ModuleGraph, from: usize, spec: &str, to: usize, is_type: bool) {
    g.add_import_entry(from, entry(spec, 0, ImportImportName::Name("x".to_string()), is_type));
    g.add_loaded_module(from, spec.to_string(), to);
}

fn program_only() -> AstNodes {
    let mut nodes = AstNodes::default();
    nodes.add_node(AstNode::new(AstKind::Program(Span { start: 0, end: 0 }), 0, 0, NodeFlags { bits: 0 }), None);
    nodes
}

fn semantic(modules: ModuleGraph, module_id: usize) -> Semantic {
    Semantic { nodes: program_only(), modules, module_id }
}

fn run<R: Rule>(rule: &R, sem: &Semantic) -> Vec<Diagnostic> {
    lint_file(rule, sem, "/p".to_string())
}

fn deps_config(max: u64, ignore_types: Option<bool>) -> ConfigValue {
    let mut e = vec![("maxDeps", num(max))];
    if let Some(b) = ignore_types {
        e.push(("ignoreTypes", ConfigValue::Bool(b)));
    }
    ConfigValue::Array(vec![obj(e)])
}

/// The linted file imports `entry`, which loads the rest of a fixture.
fn linear_chain(names: &[&str]) -> (ModuleGraph, usize) {
    let mut g = ModuleGraph::new();
    let file = add(&mut g, "/p/index.js");
    let mut prev = file;
    for n in names {
        let m = add(&mut g, &format!("/p/{}", n));
        import(&mut g, prev, &format!("./{}", n), m, false);
        prev = m;
    }
    (g, file)
}

#[test]
fn excessive_deps_threshold() {
    let (g, file) = linear_chain(&["a.js", "b.js", "c.js"]);
    let sem = semantic(g, file);
    let rule = NoExcessiveDeps::from_configuration(deps_config(2, None));
    let d = run(&rule, &sem);
    assert_eq!(d.len(), 1);
    assert_eq!(d[0].message, "eslint-plugin-import(no-excessive-deps): Module has excessive dependencies");
    assert_eq!(d[0].severity, Severity::Warning);
    assert_eq!(
        d[0].help.as_deref(),
        Some("index.js has 3 dependencies, exceeding the maximum limit of 2\na.js\nb.js\nc.js")
    );
    for max in [3, 4, 100] {
        let rule = NoExcessiveDeps::from_configuration(deps_config(max, None));
        assert!(run(&rule, &sem).is_empty());
    }
}

#[test]
fn excessive_deps_listing_is_sorted_and_optional() {
    let mut g = ModuleGraph::new();
    let file = add(&mut g, "/p/index.js");
    let z = add(&mut g, "/p/z.js");
    let a = add(&mut g, "/p/a.js");
    import(&mut g, file, "./z", z, false);
    import(&mut g, file, "./a", a, false);
    let sem = semantic(g, file);
    let rule = NoExcessiveDeps::from_configuration(deps_config(1, None));
    let d = run(&rule, &sem);
    assert_eq!(d[0].help.as_deref(), Some("index.js has 2 dependencies, exceeding the maximum limit of 1\na.js\nz.js"));
    let quiet = ConfigValue::Array(vec![obj(vec![("maxDeps", num(1)), ("shouldPrintDeps", ConfigValue::Bool(false))])]);
    let d = run(&NoExcessiveDeps::from_configuration(quiet), &sem);
    assert_eq!(d[0].help.as_deref(), Some("index.js has 2 dependencies, exceeding the maximum limit of 1\n"));
}

#[test]
fn excessive_deps_paths_use_forward_slashes() {
    let mut g = ModuleGraph::new();
    let file = add(&mut g, "/p/src\\index.js");
    let dep = add(&mut g, "/p/lib\\dep.js");
    import(&mut g, file, "./dep", dep, false);
    let sem = semantic(g, file);
    let rule = NoExcessiveDeps::from_configuration(deps_config(0, None));
    let d = lint_file(&rule, &sem, "/p/".to_string());
    assert_eq!(
        d[0].help.as_deref(),
        Some("src/index.js has 1 dependencies, exceeding the maximum limit of 0\nlib/dep.js")
    );
    let d = lint_file(&rule, &sem, "/".to_string());
    assert_eq!(
        d[0].help.as_deref(),
        Some("p/src/index.js has 1 dependencies, exceeding the maximum limit of 0\np/lib/dep.js")
    );
    assert!(sem.is_well_formed());
}

#[test]
fn excessive_deps_configuration_defaults() {
    let d = NoExcessiveDeps::default();
    assert_eq!((d.max_deps, d.ignore_types, d.should_print_deps), (u32::MAX, false, true));
    let c = NoExcessiveDeps::from_configuration(ConfigValue::Null);
    assert_eq!((c.max_deps, c.ignore_types, c.should_print_deps), (u32::MAX, false, true));
    let bad = ConfigValue::Array(vec![obj(vec![("maxDeps", text("2")), ("ignoreTypes", num(1))])]);
    let c = NoExcessiveDeps::from_configuration(bad);
    assert_eq!((c.max_deps, c.ignore_types), (u32::MAX, false));
    let c = NoExcessiveDeps::from_configuration(deps_config(7, Some(true)));
    assert_eq!((c.max_deps, c.ignore_types, c.should_print_deps), (7, true, true));
    let c = NoExcessiveDeps::from_configuration(deps_config((1u64 << 32) + 5, None));
    assert_eq!(c.max_deps, u32::MAX);
    let c = NoExcessiveDeps::from_configuration(deps_config(u32::MAX as u64, None));
    assert_eq!(c.max_deps, u32::MAX);
}

fn fixture(kind: &str) -> (ModuleGraph, usize) {
    let mut g = ModuleGraph::new();
    let file = add(&mut g, "/p/no-excessive-deps/entry.js");
    match kind {
        "flat" => {
            let e = add(&mut g, "/p/flat-deps/entry.js");
            import(&mut g, file, "./flat-deps/entry.js", e, false);
            for n in ["a", "b", "c", "d"] {
                let m = add(&mut g, &format!("/p/flat-deps/{}.js", n));
                import(&mut g, e, &format!("./{}.js", n), m, false);
            }
        }
        "nested" => {
            let mut prev = file;
            for n in ["entry", "a", "b", "c", "d"] {
                let m = add(&mut g, &format!("/p/nested-deps/{}.js", n));
                import(&mut g, prev, &format!("./{}.js", n), m, false);
                prev = m;
            }
        }
        "type-only" => {
            let e = add(&mut g, "/p/type-only-deps/entry.ts");
            let t1 = add(&mut g, "/p/type-only-deps/t1.ts");
            let t2 = add(&mut g, "/p/type-only-deps/t2.ts");
            import(&mut g, file, "./type-only-deps/entry.ts", e, false);
            import(&mut g, e, "./t1", t1, true);
            import(&mut g, t1, "./t2", t2, false);
        }
        _ => {
            let e = add(&mut g, "/p/some-type-deps/entry.ts");
            let v = add(&mut g, "/p/some-type-deps/v.ts");
            let t1 = add(&mut g, "/p/some-type-deps/t1.ts");
            let t2 = add(&mut g, "/p/some-type-deps/t2.ts");
            import(&mut g, file, "./some-type-deps/entry.ts", e, false);
            import(&mut g, e, "./v", v, false);
            import(&mut g, e, "./t1", t1, true);
            import(&mut g, t1, "./t2", t2, false);
        }
    }
    (g, file)
}

fn count_reports(kind: &str, config: Option<ConfigValue>) -> usize {
    let (g, file) = fixture(kind);
    let rule = match config {
        Some(c) => NoExcessiveDeps::from_configuration(c),
        None => NoExcessiveDeps::default(),
    };
    run(&rule, &semantic(g, file)).len()
}

#[test]
fn no_excessive_deps_test() {
    assert_eq!(count_reports("flat", None), 0);
    assert_eq!(count_reports("nested", None), 0);
    assert_eq!(count_reports("type-only", Some(deps_config(1, Some(true)))), 0);
    assert_eq!(count_reports("some-type", Some(deps_config(2, Some(true)))), 0);

    assert_eq!(count_reports("flat", Some(deps_config(3, None))), 1);
    assert_eq!(count_reports("nested", Some(deps_config(3, None))), 1);
    assert_eq!(count_reports("type-only", Some(deps_config(1, Some(false)))), 1);
    assert_eq!(count_reports("some-type", Some(deps_config(2, Some(false)))), 1);
    assert_eq!(count_reports("some-type", Some(deps_config(1, Some(true)))), 1);
}

fn restricted(paths: Vec<(&str, &str)>) -> ConfigValue {
    obj(vec![(
        "paths",
        ConfigValue::Array(
            paths.into_iter().map(|(p, m)| obj(vec![("path", text(p)), ("message", text(m))])).collect(),
        ),
    )])
}

fn importing(spec: &str) -> Semantic {
    let mut g = ModuleGraph::new();
    let file = add(&mut g, "/p/index.js");
    g.add_import_entry(file, entry(spec, 19, ImportImportName::Default(Span { start: 7, end: 13 }), false));
    semantic(g, file)
}

#[test]
fn no_restricted_imports_test() {
    let sem = importing("./malformed.js");
    let rule = NoRestrictedImports::from_configuration(obj(vec![("paths", ConfigValue::Array(vec![]))]));
    assert!(run(&rule, &sem).is_empty());
    assert!(run(&ImportDefault::from_configuration(ConfigValue::Null), &sem).is_empty());

    let sem = importing("moment");
    let rule = NoRestrictedImports::from_configuration(restricted(vec![("moment", "Do not use 'moment'")]));
    let d = run(&rule, &sem);
    assert_eq!(d.len(), 1);
    assert_eq!(d[0].help.as_deref(), Some("Do not use 'moment'"));
    assert_eq!(d[0].span, Some(Span { start: 19, end: 27 }));
    assert_eq!(d[0].message, "eslint(no-restricted-imports): Disallow specified modules when loaded by import");

    let sem = importing("moment-timezone");
    assert!(run(&rule, &sem).is_empty());
    let both = NoRestrictedImports::from_configuration(restricted(vec![
        ("moment", "Do not use 'moment'"),
        ("moment-timezone", "Do not use 'moment-timezone'"),
    ]));
    let d = run(&both, &sem);
    assert_eq!(d.len(), 1);
    assert_eq!(d[0].help.as_deref(), Some("Do not use 'moment-timezone'"));
}

#[test]
fn restricted_imports_configuration() {
    let config = obj(vec![(
        "paths",
        ConfigValue::Array(vec![
            obj(vec![("path", text("a"))]),
            obj(vec![("message", text("no path"))]),
            num(3),
            obj(vec![("path", text("b")), ("message", text("not b"))]),
        ]),
    )]);
    let rule = NoRestrictedImports::from_configuration(config);
    let got: Vec<(String, String)> = rule.paths.iter().map(|p| (p.path.clone(), p.message.clone())).collect();
    assert_eq!(got, vec![("a".to_string(), String::new()), ("b".to_string(), "not b".to_string())]);
    assert!(NoRestrictedImports::from_configuration(ConfigValue::Null).paths.is_empty());
}

#[test]
fn default_import_without_default_export() {
    let mut g = ModuleGraph::new();
    let file = add(&mut g, "/p/index.js");
    let no_default = add(&mut g, "/p/named.js");
    let with_default = add(&mut g, "/p/default.js");
    let by_name = add(&mut g, "/p/by-name.js");
    let cjs = add(&mut g, "/p/cjs.js");
    g.set_export_default(with_default, Some(Span { start: 0, end: 5 }));
    g.add_exported_binding(by_name, "default".to_string());
    g.add_exported_binding(no_default, "named".to_string());
    let mut m = ModuleRecord::new("/p/legacy.js".to_string());
    m.not_esm = true;
    let legacy = g.add_module(m).unwrap();
    let _ = cjs;
    for (spec, target) in [("./named", no_default), ("./default", with_default), ("./by-name", by_name), ("./legacy", legacy)] {
        g.add_import_entry(file, entry(spec, 30, ImportImportName::Default(Span { start: 7, end: 8 }), false));
        g.add_loaded_module(file, spec.to_string(), target);
    }
    g.add_import_entry(file, entry("./named", 40, ImportImportName::NamespaceObject, false));
    g.add_import_entry(file, entry("./missing", 50, ImportImportName::Default(Span { start: 9, end: 10 }), false));
    let d = run(&ImportDefault::from_configuration(ConfigValue::Null), &semantic(g, file));
    assert_eq!(d.len(), 1);
    assert_eq!(d[0].span, Some(Span { start: 7, end: 8 }));
    assert_eq!(d[0].help.as_deref(), Some("./named has no default export"));
}

fn export_all_file(show: bool) -> (Semantic, NoExportAll) {
    let mut g = ModuleGraph::new();
    let file = add(&mut g, "/p/export-star/entry.js");
    let models = add(&mut g, "/p/export-star/models.js");
    let a = add(&mut g, "/p/export-star/a.js");
    let v = add(&mut g, "/p/node_modules/v/index.js");
    g.add_loaded_module(file, "./models".to_string(), models);
    import(&mut g, models, "./a", a, false);
    import(&mut g, models, "v", v, false);
    import(&mut g, a, "./entry", file, false);
    let mut nodes = AstNodes::default();
    let root = nodes.add_node(AstNode::new(AstKind::Program(Span { start: 0, end: 60 }), 0, 0, NodeFlags { bits: 0 }), None);
    for start in [0u32, 30] {
        let decl = ExportAllDeclaration { span: Span { start, end: start + 25 }, source: "./models".to_string() };
        nodes.add_node(AstNode::new(AstKind::ExportAllDeclaration(decl), 0, 0, NodeFlags { bits: 0 }), Some(root));
    }
    nodes.add_node(AstNode::new(AstKind::Other(9), 0, 0, NodeFlags { bits: 0 }), Some(root));
    let config = ConfigValue::Array(vec![obj(vec![("showDependencySize", ConfigValue::Bool(show))])]);
    (Semantic { nodes, modules: g, module_id: file }, NoExportAll::from_configuration(config))
}

#[test]
fn no_export_all_test() {
    let (sem, rule) = export_all_file(true);
    let d = run(&rule, &sem);
    assert_eq!(d.len(), 2);
    assert_eq!(d[0].span, Some(Span { start: 0, end: 25 }));
    assert_eq!(d[1].span, Some(Span { start: 30, end: 55 }));
    assert_eq!(d[0].message, "oxc(no-export-all): Do not export from modules using export-all syntax");
    assert_eq!(
        d[0].help.as_deref(),
        Some("Avoid re-exporting * from a module, it leads to unused imports and prevents treeshaking.\nNumber of dependencies introduced from this re-export: 2")
    );
    let (sem, rule) = export_all_file(false);
    let d = run(&rule, &sem);
    assert_eq!(
        d[1].help.as_deref(),
        Some("Avoid re-exporting * from a module, it leads to unused imports and prevents treeshaking.\n")
    );
    let (mut sem, rule) = export_all_file(true);
    sem.nodes = program_only();
    assert!(run(&rule, &sem).is_empty());
    let d = NoExportAll::default();
    assert!(!d.show_dependency_size && !d.ignore_types);
}

#[test]
fn context_collects_reports_in_order() {
    let mut ctx = LintContext::new("/p".to_string());
    for i in 0..3u32 {
        ctx.diagnostic(Diagnostic { message: format!("m{}", i), severity: Severity::Error, span: None, help: None });
    }
    let got: Vec<&str> = ctx.diagnostics.iter().map(|d| d.message.as_str()).collect();
    assert_eq!(got, vec!["m0", "m1", "m2"]);
}

#[test]
fn default_import_configuration() {
    let d = ImportDefault::from_configuration(ConfigValue::Null);
    assert_eq!(
        (d.max_depth, d.ignore_types, d.ignore_external, d.allow_unsafe_dynamic_cyclic_dependency),
        (u32::MAX, false, false, false)
    );
    let d = ImportDefault::from_configuration(ConfigValue::Array(vec![obj(vec![("maxDepth", text("x"))])]));
    assert_eq!(d.max_depth, u32::MAX);
    let d = ImportDefault::from_configuration(ConfigValue::Array(vec![obj(vec![
        ("maxDepth", num(3)),
        ("ignoreTypes", ConfigValue::Bool(true)),
        ("ignoreExternal", ConfigValue::Bool(true)),
        ("allowUnsafeDynamicCyclicDependency", ConfigValue::Bool(true)),
    ])]));
    assert_eq!(
        (d.max_depth, d.ignore_types, d.ignore_external, d.allow_unsafe_dynamic_cyclic_dependency),
        (3, true, true, true)
    );
    let d = ImportDefault::from_configuration(ConfigValue::Array(vec![obj(vec![("maxDepth", num(1u64 << 40))])]));
    assert_eq!(d.max_depth, u32::MAX);
}

#[test]
fn walk_deps_on_cycle_and_chain() {
    let mut g = ModuleGraph::new();
    let a = add(&mut g, "/p/a.js");
    let b = add(&mut g, "/p/b.js");
    import(&mut g, a, "./b", b, false);
    import(&mut g, b, "./a", a, false);
    let rule = NoExcessiveDeps::default();
    let r = rule.walk_deps(&g, a);
    assert_eq!(r.visited, vec![true, true]);
    let sem = semantic(g, a);
    let zero = NoExcessiveDeps::from_configuration(deps_config(0, None));
    let d = run(&zero, &sem);
    assert_eq!(d.len(), 1);
    assert!(d[0].help.as_deref().unwrap().starts_with("a.js has 1 dependencies"));
    assert!(run(&NoExcessiveDeps::from_configuration(deps_config(1, None)), &sem).is_empty());

    let (g, file) = linear_chain(&["a.js", "b.js", "c.js"]);
    let r = rule.walk_deps(&g, file);
    assert_eq!(r.visited, vec![false, true, true, true]);
    assert_eq!(r.trace, vec![1, 2, 3]);
}
