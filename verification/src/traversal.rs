//! Project traversal: one file at a time into the shared graph.
//!
//! Callers enumerate the source files and parse each one (both outside this
//! crate), handing in plain values: per file, its exported component names
//! and its import declarations, or the parse error. For each file the
//! per-file symbol table is built from scratch, and — coarse attribution —
//! every exported component of the file is recorded as depending on every
//! imported component. A file whose extraction or parse fails contributes
//! nothing to the graph; whether the run stops at the first failing file or
//! records the failure and goes on is the caller's configured policy.

use vstd::prelude::*;

use crate::dependency_graph::ComponentIdentity;
use crate::dependency_graph::DependencyGraph;
use crate::dependency_graph::GraphView;
use crate::dependency_graph::IdentityView;
use crate::dependency_graph::spec_add_dependency;
use crate::imports::BindingView;
use crate::imports::ImportDecl;
use crate::imports::ImportDeclView;
use crate::imports::decls_view;
use crate::imports::extract_imports;
use crate::imports::extract_spec;
use crate::resolver::AnalysisError;
use crate::resolver::ErrorView;
use crate::resolver::FileSystem;

verus! {

/// What one parsed file hands the traversal: the names of its exported
/// components (the sentinel `Default` standing for a default export) and
/// its import declarations.
pub struct ModuleSyntax {
    pub exports: Vec<String>,
    pub imports: Vec<ImportDecl>,
}

/// The mathematical value of a [`ModuleSyntax`].
pub ghost struct ModuleSyntaxView {
    pub exports: Seq<Seq<char>>,
    pub imports: Seq<ImportDeclView>,
}

impl View for ModuleSyntax {
    type V = ModuleSyntaxView;

    open spec fn view(&self) -> ModuleSyntaxView {
        ModuleSyntaxView {
            exports: self.exports@.map_values(|e: String| e@),
            imports: decls_view(self.imports@),
        }
    }
}

/// A parse error as the parser collaborator reports it: diagnostic message
/// and position.
pub struct ParseError {
    pub message: String,
    pub line: u64,
    pub column: u64,
}

/// The mathematical value of a [`ParseError`].
pub ghost struct ParseErrorView {
    pub message: Seq<char>,
    pub line: u64,
    pub column: u64,
}

impl View for ParseError {
    type V = ParseErrorView;

    open spec fn view(&self) -> ParseErrorView {
        ParseErrorView { message: self.message@, line: self.line, column: self.column }
    }
}

/// One enumerated source file: its path and what the parser made of it.
pub struct ParsedFile {
    pub path: String,
    pub syntax: Result<ModuleSyntax, ParseError>,
}

/// The mathematical value of a [`ParsedFile`].
pub ghost struct ParsedFileView {
    pub path: Seq<char>,
    pub syntax: Result<ModuleSyntaxView, ParseErrorView>,
}

impl View for ParsedFile {
    type V = ParsedFileView;

    open spec fn view(&self) -> ParsedFileView {
        ParsedFileView {
            path: self.path@,
            syntax: match &self.syntax {
                Ok(m) => Ok(m@),
                Err(e) => Err(e@),
            },
        }
    }
}

/// The values of a run of enumerated files, in traversal order.
pub open spec fn files_view(files: Seq<ParsedFile>) -> Seq<ParsedFileView> {
    files.map_values(|f: ParsedFile| f@)
}

/// The values of the recorded failures, in order.
pub open spec fn failures_view(s: Seq<AnalysisError>) -> Seq<ErrorView> {
    s.map_values(|e: AnalysisError| e@)
}

/// What a fatal per-file error does to the whole run: stop at once, or
/// record the failure and go on with the remaining files.
#[derive(Clone, Copy)]
pub enum ErrorPolicy {
    Abort,
    SkipAndRecord,
}

/// One exported component recorded as depending on every imported
/// component, in symbol-table order.
pub open spec fn record_for_export(
    g: GraphView,
    file: Seq<char>,
    export: Seq<char>,
    bindings: Seq<BindingView>,
) -> GraphView
    decreases bindings.len(),
{
    if bindings.len() == 0 {
        g
    } else {
        record_for_export(
            spec_add_dependency(
                g,
                IdentityView { file_path: file, component_name: export },
                bindings[0].target,
            ),
            file,
            export,
            bindings.skip(1),
        )
    }
}

/// Coarse attribution of one file: every exported component, in order,
/// depends on every imported component.
pub open spec fn record_file(
    g: GraphView,
    file: Seq<char>,
    exports: Seq<Seq<char>>,
    bindings: Seq<BindingView>,
) -> GraphView
    decreases exports.len(),
{
    if exports.len() == 0 {
        g
    } else {
        record_file(
            record_for_export(g, file, exports[0], bindings),
            file,
            exports.skip(1),
            bindings,
        )
    }
}

/// One file's effect on the graph: extract its symbol table (fail-fast), and
/// on success record the coarse attribution; on failure the graph is
/// untouched.
pub open spec fn analyze_file_spec(
    g: GraphView,
    file: Seq<char>,
    m: ModuleSyntaxView,
    project_root: Seq<char>,
    fs: Set<Seq<char>>,
) -> Result<GraphView, ErrorView> {
    match extract_spec(m.imports, file, project_root, fs) {
        Ok(t) => Ok(record_file(g, file, m.exports, t)),
        Err(e) => Err(e),
    }
}

/// Processes one parsed file into the graph: exactly what
/// [`analyze_file_spec`] denotes. On failure the graph is left unchanged —
/// never partially populated.
pub fn analyze_file(
    graph: &mut DependencyGraph,
    file: &String,
    syntax: &ModuleSyntax,
    project_root: &String,
    fs: &FileSystem,
) -> (r: Result<(), AnalysisError>)
    requires
        old(graph).wf(),
    ensures
        final(graph).wf(),
        match r {
            Ok(_) => analyze_file_spec(old(graph)@, file@, syntax@, project_root@, fs@) == Ok::<
                GraphView,
                ErrorView,
            >(final(graph)@),
            Err(e) => analyze_file_spec(old(graph)@, file@, syntax@, project_root@, fs@) == Err::<
                GraphView,
                ErrorView,
            >(e@) && final(graph)@ == old(graph)@,
        },
{
    let ghost g0 = graph@;
    let table = match extract_imports(&syntax.imports, file, project_root, fs) {
        Ok(t) => t,
        Err(e) => {
            return Err(e);
        },
    };
    let ghost tv = table@;
    let ghost ev = syntax@.exports;
    let mut i: usize = 0;
    proof {
        assert(ev.skip(0) =~= ev);
    }
    while i < syntax.exports.len()
        invariant
            i <= syntax.exports@.len(),
            ev == syntax@.exports,
            ev.len() == syntax.exports@.len(),
            tv == table@,
            graph.wf(),
            record_file(g0, file@, ev, tv) == record_file(graph@, file@, ev.skip(i as int), tv),
        decreases syntax.exports@.len() - i,
    {
        proof {
            assert(ev.skip(i as int)[0] == ev[i as int]);
            assert(ev[i as int] == syntax.exports@[i as int]@);
            assert(ev.skip(i as int).skip(1) =~= ev.skip(i + 1));
        }
        let ghost gstart = graph@;
        let mut j: usize = 0;
        proof {
            assert(tv.skip(0) =~= tv);
        }
        while j < table.bindings.len()
            invariant
                j <= table.bindings@.len(),
                tv == table@,
                tv.len() == table.bindings@.len(),
                ev == syntax@.exports,
                i < syntax.exports@.len(),
                ev.len() == syntax.exports@.len(),
                ev[i as int] == syntax.exports@[i as int]@,
                graph.wf(),
                record_for_export(gstart, file@, ev[i as int], tv) == record_for_export(
                    graph@,
                    file@,
                    ev[i as int],
                    tv.skip(j as int),
                ),
            decreases table.bindings@.len() - j,
        {
            proof {
                assert(tv.skip(j as int)[0] == tv[j as int]);
                assert(tv[j as int] == table.bindings@[j as int]@);
                assert(tv.skip(j as int).skip(1) =~= tv.skip(j + 1));
            }
            let current = ComponentIdentity::new(
                file.clone(),
                syntax.exports[i].clone(),
            );
            let depend_on = table.bindings[j].target.clone();
            graph.add_dependency(current, depend_on);
            j += 1;
        }
        proof {
            assert(tv.skip(tv.len() as int).len() == 0);
        }
        i += 1;
    }
    proof {
        assert(ev.skip(ev.len() as int).len() == 0);
    }
    Ok(())
}

/// The outcome of one run: the finished graph and the failures recorded on
/// the way, in file order.
pub struct AnalysisReport {
    pub graph: DependencyGraph,
    pub failures: Vec<AnalysisError>,
}

/// What a whole run computes, file by file in order. A file that parsed
/// feeds [`analyze_file_spec`]; one that did not contributes a
/// `ParseFailure`. Under `Abort` the first failure ends the run with the
/// graph as it stood; under `SkipAndRecord` every failure is recorded and
/// the remaining files are still processed.
pub open spec fn run_spec(
    g: GraphView,
    files: Seq<ParsedFileView>,
    project_root: Seq<char>,
    fs: Set<Seq<char>>,
    policy: ErrorPolicy,
    failures: Seq<ErrorView>,
) -> (GraphView, Seq<ErrorView>)
    decreases files.len(),
{
    if files.len() == 0 {
        (g, failures)
    } else {
        let f = files[0];
        match f.syntax {
            Err(pe) => {
                let e = ErrorView::ParseFailure {
                    file: f.path,
                    message: pe.message,
                    line: pe.line,
                    column: pe.column,
                };
                if policy is Abort {
                    (g, failures.push(e))
                } else {
                    run_spec(g, files.skip(1), project_root, fs, policy, failures.push(e))
                }
            },
            Ok(m) => match analyze_file_spec(g, f.path, m, project_root, fs) {
                Ok(g1) => run_spec(g1, files.skip(1), project_root, fs, policy, failures),
                Err(e) => {
                    if policy is Abort {
                        (g, failures.push(e))
                    } else {
                        run_spec(g, files.skip(1), project_root, fs, policy, failures.push(e))
                    }
                },
            },
        }
    }
}

/// Runs the whole analysis over the enumerated files: a fresh graph, each
/// file processed in order under the given error policy. Returns exactly
/// what [`run_spec`] denotes from the empty graph.
pub fn analyze_project(
    files: &Vec<ParsedFile>,
    project_root: &String,
    fs: &FileSystem,
    policy: ErrorPolicy,
) -> (r: AnalysisReport)
    ensures
        r.graph.wf(),
        (r.graph@, failures_view(r.failures@)) == run_spec(
            GraphView::empty(),
            files_view(files@),
            project_root@,
            fs@,
            policy,
            Seq::empty(),
        ),
{
    let ghost fv = files_view(files@);
    let mut graph = DependencyGraph::new();
    let mut failures: Vec<AnalysisError> = Vec::new();
    let mut i: usize = 0;
    proof {
        assert(fv.skip(0) =~= fv);
        assert(failures_view(failures@) =~= Seq::<ErrorView>::empty());
    }
    while i < files.len()
        invariant
            i <= files@.len(),
            fv == files_view(files@),
            fv.len() == files@.len(),
            graph.wf(),
            run_spec(GraphView::empty(), fv, project_root@, fs@, policy, Seq::empty()) == run_spec(
                graph@,
                fv.skip(i as int),
                project_root@,
                fs@,
                policy,
                failures_view(failures@),
            ),
        decreases files@.len() - i,
    {
        proof {
            assert(fv.skip(i as int)[0] == fv[i as int]);
            assert(fv[i as int] == files@[i as int]@);
            assert(fv.skip(i as int).skip(1) =~= fv.skip(i + 1));
        }
        let f = &files[i];
        match &f.syntax {
            Err(pe) => {
                let e = AnalysisError::ParseFailure {
                    file: f.path.clone(),
                    message: pe.message.clone(),
                    line: pe.line,
                    column: pe.column,
                };
                let ghost failures0 = failures_view(failures@);
                failures.push(e);
                proof {
                    assert(failures_view(failures@) =~= failures0.push(
                        ErrorView::ParseFailure {
                            file: f.path@,
                            message: pe.message@,
                            line: pe.line,
                            column: pe.column,
                        },
                    ));
                }
                match policy {
                    ErrorPolicy::Abort => {
                        return AnalysisReport { graph, failures };
                    },
                    ErrorPolicy::SkipAndRecord => {},
                }
            },
            Ok(m) => {
                let res = analyze_file(&mut graph, &f.path, m, project_root, fs);
                match res {
                    Ok(_) => {},
                    Err(e) => {
                        let ghost failures0 = failures_view(failures@);
                        let ghost ev = e@;
                        failures.push(e);
                        proof {
                            assert(failures_view(failures@) =~= failures0.push(ev));
                        }
                        match policy {
                            ErrorPolicy::Abort => {
                                return AnalysisReport { graph, failures };
                            },
                            ErrorPolicy::SkipAndRecord => {},
                        }
                    },
                }
            },
        }
        i += 1;
    }
    proof {
        assert(fv.skip(fv.len() as int).len() == 0);
    }
    AnalysisReport { graph, failures }
}

} // verus!
