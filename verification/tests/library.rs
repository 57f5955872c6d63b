use component_deps::dependency_graph::ComponentIdentity;
use component_deps::dependency_graph::DependencyGraph;
use component_deps::imports::extract_imports;
use component_deps::imports::ImportDecl;
use component_deps::imports::ImportSpecifier;
use component_deps::resolver::resolve;
use component_deps::resolver::AnalysisError;
use component_deps::resolver::FileSystem;
use component_deps::traversal::analyze_file;
use component_deps::traversal::analyze_project;
use component_deps::traversal::ErrorPolicy;
use component_deps::traversal::ModuleSyntax;
use component_deps::traversal::ParseError;
use component_deps::traversal::ParsedFile;

fn fs_of(paths: &[&str]) -> FileSystem {
    let mut fs = FileSystem::new();
    for p in paths {
        fs.add_path(p.to_string());
    }
    fs
}

fn ident(file: &str, name: &str) -> ComponentIdentity {
    ComponentIdentity::new(file.to_string(), name.to_string())
}

#[test]
fn graph_starts_empty() {
    let g = DependencyGraph::new();
    let deps = g.dependents_of(&"/p/a.ts".to_string(), &"A".to_string());
    assert_eq!(deps.len(), 0);
}

#[test]
fn add_dependency_records_dependent() {
    let mut g = DependencyGraph::new();
    g.add_dependency(ident("/p/a.ts", "A"), ident("/p/b.ts", "B"));
    let deps = g.dependents_of(&"/p/b.ts".to_string(), &"B".to_string());
    assert_eq!(deps.len(), 1);
    assert_eq!(deps[0].file_path, "/p/a.ts");
    assert_eq!(deps[0].component_name, "A");
}

#[test]
fn add_dependency_deduplicates() {
    let mut g = DependencyGraph::new();
    g.add_dependency(ident("/p/a.ts", "A"), ident("/p/b.ts", "B"));
    g.add_dependency(ident("/p/a.ts", "A"), ident("/p/b.ts", "B"));
    let deps = g.dependents_of(&"/p/b.ts".to_string(), &"B".to_string());
    assert_eq!(deps.len(), 1);
    assert_eq!(deps[0].file_path, "/p/a.ts");
    assert_eq!(deps[0].component_name, "A");
}

#[test]
fn add_dependency_keeps_order_of_distinct_dependents() {
    let mut g = DependencyGraph::new();
    g.add_dependency(ident("/p/a.ts", "A"), ident("/p/b.ts", "B"));
    g.add_dependency(ident("/p/c.ts", "C"), ident("/p/b.ts", "B"));
    g.add_dependency(ident("/p/a.ts", "A2"), ident("/p/b.ts", "B"));
    let deps = g.dependents_of(&"/p/b.ts".to_string(), &"B".to_string());
    assert_eq!(deps.len(), 3);
    assert_eq!(deps[0].component_name, "A");
    assert_eq!(deps[1].component_name, "C");
    assert_eq!(deps[2].component_name, "A2");
}

#[test]
fn separate_components_have_separate_lists() {
    let mut g = DependencyGraph::new();
    g.add_dependency(ident("/p/a.ts", "A"), ident("/p/b.ts", "B"));
    g.add_dependency(ident("/p/a.ts", "A"), ident("/p/b.ts", "C"));
    let b = g.dependents_of(&"/p/b.ts".to_string(), &"B".to_string());
    let c = g.dependents_of(&"/p/b.ts".to_string(), &"C".to_string());
    assert_eq!(b.len(), 1);
    assert_eq!(c.len(), 1);
}

#[test]
fn resolve_prefers_ts_over_js() {
    let fs = fs_of(&["/root/foo.ts", "/root/foo.js"]);
    let r = resolve(
        &"foo".to_string(),
        &"/root/main.ts".to_string(),
        &"/root".to_string(),
        &fs,
    );
    assert_eq!(r.unwrap(), "/root/foo.ts");
}

#[test]
fn resolve_prefers_tsx_over_everything() {
    let fs = fs_of(&["/root/foo.tsx", "/root/foo.jsx", "/root/foo.ts", "/root/foo.js"]);
    let r = resolve(
        &"foo".to_string(),
        &"/root/main.ts".to_string(),
        &"/root".to_string(),
        &fs,
    );
    assert_eq!(r.unwrap(), "/root/foo.tsx");
}

#[test]
fn resolve_falls_back_to_index_file() {
    let fs = fs_of(&["/root/lib", "/root/lib/index.js"]);
    let r = resolve(
        &"lib".to_string(),
        &"/root/main.ts".to_string(),
        &"/root".to_string(),
        &fs,
    );
    assert_eq!(r.unwrap(), "/root/lib/index.js");
}

#[test]
fn resolve_relative_specifier_against_importing_file() {
    let fs = fs_of(&["/proj/src/b.ts"]);
    let r = resolve(
        &"./b".to_string(),
        &"/proj/src/a.ts".to_string(),
        &"/proj".to_string(),
        &fs,
    );
    assert_eq!(r.unwrap(), "/proj/src/b.ts");
}

#[test]
fn resolve_relative_specifier_with_parent_segment() {
    let fs = fs_of(&["/proj/src/b.ts"]);
    let r = resolve(
        &"../b".to_string(),
        &"/proj/src/sub/a.ts".to_string(),
        &"/proj".to_string(),
        &fs,
    );
    assert_eq!(r.unwrap(), "/proj/src/b.ts");
}

#[test]
fn resolve_replaces_an_existing_extension() {
    let fs = fs_of(&["/root/foo.tsx"]);
    let r = resolve(
        &"foo.module".to_string(),
        &"/root/main.ts".to_string(),
        &"/root".to_string(),
        &fs,
    );
    assert_eq!(r.unwrap(), "/root/foo.tsx");
}

#[test]
fn resolve_missing_module_reports_specifier_and_file() {
    let fs = fs_of(&["/proj/src/a.ts"]);
    let r = resolve(
        &"./missing".to_string(),
        &"/proj/src/a.ts".to_string(),
        &"/proj".to_string(),
        &fs,
    );
    match r {
        Err(AnalysisError::ModuleNotFound { specifier, from_file }) => {
            assert_eq!(specifier, "./missing");
            assert_eq!(from_file, "/proj/src/a.ts");
        }
        _ => panic!("expected ModuleNotFound"),
    }
}

#[test]
fn resolve_escaping_parent_segments_is_a_path_failure() {
    let fs = fs_of(&["/proj/a.ts"]);
    let r = resolve(
        &"../../../x".to_string(),
        &"/proj/a.ts".to_string(),
        &"/proj".to_string(),
        &fs,
    );
    match r {
        Err(AnalysisError::PathResolutionFailure { specifier, from_file }) => {
            assert_eq!(specifier, "../../../x");
            assert_eq!(from_file, "/proj/a.ts");
        }
        _ => panic!("expected PathResolutionFailure"),
    }
}

#[test]
fn resolve_is_deterministic() {
    let fs = fs_of(&["/root/foo.ts", "/root/foo.js"]);
    let spec = "foo".to_string();
    let file = "/root/main.ts".to_string();
    let root = "/root".to_string();
    let first = resolve(&spec, &file, &root, &fs);
    let second = resolve(&spec, &file, &root, &fs);
    assert_eq!(first.unwrap(), second.unwrap());
}

fn default_import(src: &str, local: &str) -> ImportDecl {
    ImportDecl {
        src: src.to_string(),
        specifiers: vec![ImportSpecifier::DefaultImport { local: local.to_string() }],
    }
}

#[test]
fn default_import_binds_default_sentinel() {
    let fs = fs_of(&["/proj/src/m.ts"]);
    let decls = vec![default_import("./m", "X")];
    let table = extract_imports(
        &decls,
        &"/proj/src/a.ts".to_string(),
        &"/proj".to_string(),
        &fs,
    )
    .unwrap();
    let target = table.get(&"X".to_string()).unwrap();
    assert_eq!(target.file_path, "/proj/src/m.ts");
    assert_eq!(target.component_name, "Default");
}

#[test]
fn named_import_alias_binds_original_name() {
    let fs = fs_of(&["/proj/src/m.ts"]);
    let decls = vec![ImportDecl {
        src: "./m".to_string(),
        specifiers: vec![ImportSpecifier::NamedImport {
            local: "Bar".to_string(),
            imported: Some("Foo".to_string()),
        }],
    }];
    let table = extract_imports(
        &decls,
        &"/proj/src/a.ts".to_string(),
        &"/proj".to_string(),
        &fs,
    )
    .unwrap();
    let target = table.get(&"Bar".to_string()).unwrap();
    assert_eq!(target.file_path, "/proj/src/m.ts");
    assert_eq!(target.component_name, "Foo");
    assert!(table.get(&"Foo".to_string()).is_none());
}

#[test]
fn named_import_without_alias_binds_local_name() {
    let fs = fs_of(&["/proj/src/m.ts"]);
    let decls = vec![ImportDecl {
        src: "./m".to_string(),
        specifiers: vec![ImportSpecifier::NamedImport {
            local: "Baz".to_string(),
            imported: None,
        }],
    }];
    let table = extract_imports(
        &decls,
        &"/proj/src/a.ts".to_string(),
        &"/proj".to_string(),
        &fs,
    )
    .unwrap();
    let target = table.get(&"Baz".to_string()).unwrap();
    assert_eq!(target.component_name, "Baz");
}

#[test]
fn later_binding_of_same_local_name_wins() {
    let fs = fs_of(&["/proj/src/m.ts", "/proj/src/n.ts"]);
    let decls = vec![default_import("./m", "X"), default_import("./n", "X")];
    let table = extract_imports(
        &decls,
        &"/proj/src/a.ts".to_string(),
        &"/proj".to_string(),
        &fs,
    )
    .unwrap();
    assert_eq!(table.bindings.len(), 1);
    let target = table.get(&"X".to_string()).unwrap();
    assert_eq!(target.file_path, "/proj/src/n.ts");
}

#[test]
fn namespace_import_binds_nothing() {
    let fs = fs_of(&["/proj/src/m.ts"]);
    let decls = vec![ImportDecl {
        src: "./m".to_string(),
        specifiers: vec![ImportSpecifier::NamespaceImport { local: "NS".to_string() }],
    }];
    let table = extract_imports(
        &decls,
        &"/proj/src/a.ts".to_string(),
        &"/proj".to_string(),
        &fs,
    )
    .unwrap();
    assert_eq!(table.bindings.len(), 0);
    assert!(table.get(&"NS".to_string()).is_none());
}

#[test]
fn extraction_fails_fast_on_unresolvable_specifier() {
    let fs = fs_of(&["/proj/src/m.ts"]);
    let decls = vec![default_import("./m", "X"), default_import("./gone", "Y")];
    let r = extract_imports(
        &decls,
        &"/proj/src/a.ts".to_string(),
        &"/proj".to_string(),
        &fs,
    );
    match r {
        Err(AnalysisError::ModuleNotFound { specifier, from_file }) => {
            assert_eq!(specifier, "./gone");
            assert_eq!(from_file, "/proj/src/a.ts");
        }
        _ => panic!("expected ModuleNotFound"),
    }
}

#[test]
fn analyze_file_attributes_every_import_to_every_export() {
    let fs = fs_of(&["/p/b.ts"]);
    let mut graph = DependencyGraph::new();
    let syntax = ModuleSyntax {
        exports: vec!["A1".to_string(), "A2".to_string()],
        imports: vec![default_import("./b", "X")],
    };
    analyze_file(
        &mut graph,
        &"/p/a.ts".to_string(),
        &syntax,
        &"/p".to_string(),
        &fs,
    )
    .unwrap();
    let deps = graph.dependents_of(&"/p/b.ts".to_string(), &"Default".to_string());
    assert_eq!(deps.len(), 2);
    assert_eq!(deps[0].file_path, "/p/a.ts");
    assert_eq!(deps[0].component_name, "A1");
    assert_eq!(deps[1].component_name, "A2");
}

#[test]
fn analyze_file_failure_leaves_graph_untouched() {
    let fs = fs_of(&[]);
    let mut graph = DependencyGraph::new();
    let syntax = ModuleSyntax {
        exports: vec!["A".to_string()],
        imports: vec![default_import("./b", "X")],
    };
    let r = analyze_file(
        &mut graph,
        &"/p/a.ts".to_string(),
        &syntax,
        &"/p".to_string(),
        &fs,
    );
    assert!(r.is_err());
    assert_eq!(graph.data.len(), 0);
}

fn good_file(path: &str, export: &str, import_src: &str) -> ParsedFile {
    ParsedFile {
        path: path.to_string(),
        syntax: Ok(ModuleSyntax {
            exports: vec![export.to_string()],
            imports: vec![default_import(import_src, "X")],
        }),
    }
}

fn bad_file(path: &str) -> ParsedFile {
    ParsedFile {
        path: path.to_string(),
        syntax: Err(ParseError {
            message: "unexpected token".to_string(),
            line: 3,
            column: 7,
        }),
    }
}

#[test]
fn abort_policy_stops_at_first_failure() {
    let fs = fs_of(&["/p/b.ts"]);
    let files = vec![bad_file("/p/broken.ts"), good_file("/p/a.ts", "A", "./b")];
    let report = analyze_project(&files, &"/p".to_string(), &fs, ErrorPolicy::Abort);
    assert_eq!(report.failures.len(), 1);
    match &report.failures[0] {
        AnalysisError::ParseFailure { file, message, line, column } => {
            assert_eq!(file, "/p/broken.ts");
            assert_eq!(message, "unexpected token");
            assert_eq!(*line, 3);
            assert_eq!(*column, 7);
        }
        _ => panic!("expected ParseFailure"),
    }
    assert_eq!(report.graph.data.len(), 0);
}

#[test]
fn skip_policy_records_failure_and_continues() {
    let fs = fs_of(&["/p/b.ts"]);
    let files = vec![bad_file("/p/broken.ts"), good_file("/p/a.ts", "A", "./b")];
    let report = analyze_project(&files, &"/p".to_string(), &fs, ErrorPolicy::SkipAndRecord);
    assert_eq!(report.failures.len(), 1);
    let deps = report
        .graph
        .dependents_of(&"/p/b.ts".to_string(), &"Default".to_string());
    assert_eq!(deps.len(), 1);
    assert_eq!(deps[0].file_path, "/p/a.ts");
    assert_eq!(deps[0].component_name, "A");
}

#[test]
fn project_run_deduplicates_across_files() {
    let fs = fs_of(&["/p/b.ts"]);
    let files = vec![good_file("/p/a.ts", "A", "./b"), good_file("/p/a.ts", "A", "./b")];
    let report = analyze_project(&files, &"/p".to_string(), &fs, ErrorPolicy::Abort);
    assert_eq!(report.failures.len(), 0);
    let deps = report
        .graph
        .dependents_of(&"/p/b.ts".to_string(), &"Default".to_string());
    assert_eq!(deps.len(), 1);
}
