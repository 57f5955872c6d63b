//! The per-file import extraction pass.
//!
//! One file's import declarations are handed in as plain values (the parser
//! collaborator produces them from the syntax tree) and turned into the
//! per-file symbol table: local identifier to the [`ComponentIdentity`] it
//! refers to. Only import declarations are considered; namespace imports
//! (`import * as X`) are a known gap and bind nothing. A specifier that does
//! not resolve fails the whole extraction — the table is never partially
//! populated.

use vstd::prelude::*;

use crate::dependency_graph::ComponentIdentity;
use crate::dependency_graph::IdentityView;
use crate::resolver::AnalysisError;
use crate::resolver::ErrorView;
use crate::resolver::FileSystem;
use crate::resolver::resolve;
use crate::resolver::resolve_spec;

verus! {

/// One specifier of an import declaration, as the extraction pass reads it:
/// the default binding, a named binding with its optional original name
/// (`imported as local`), or a namespace binding (explicitly unhandled).
pub enum ImportSpecifier {
    DefaultImport { local: String },
    NamedImport { local: String, imported: Option<String> },
    NamespaceImport { local: String },
}

/// The mathematical value of an [`ImportSpecifier`].
pub ghost enum ImportSpecifierView {
    DefaultImport { local: Seq<char> },
    NamedImport { local: Seq<char>, imported: Option<Seq<char>> },
    NamespaceImport { local: Seq<char> },
}

impl View for ImportSpecifier {
    type V = ImportSpecifierView;

    open spec fn view(&self) -> ImportSpecifierView {
        match self {
            ImportSpecifier::DefaultImport { local } => ImportSpecifierView::DefaultImport {
                local: local@,
            },
            ImportSpecifier::NamedImport { local, imported } => ImportSpecifierView::NamedImport {
                local: local@,
                imported: match imported {
                    Some(o) => Some(o@),
                    None => None,
                },
            },
            ImportSpecifier::NamespaceImport { local } => ImportSpecifierView::NamespaceImport {
                local: local@,
            },
        }
    }
}

/// One import declaration: the module specifier string and its specifiers.
pub struct ImportDecl {
    pub src: String,
    pub specifiers: Vec<ImportSpecifier>,
}

/// The mathematical value of an [`ImportDecl`].
pub ghost struct ImportDeclView {
    pub src: Seq<char>,
    pub specifiers: Seq<ImportSpecifierView>,
}

impl View for ImportDecl {
    type V = ImportDeclView;

    open spec fn view(&self) -> ImportDeclView {
        ImportDeclView {
            src: self.src@,
            specifiers: self.specifiers@.map_values(|s: ImportSpecifier| s@),
        }
    }
}

/// The values of a run of declarations, in order.
pub open spec fn decls_view(decls: Seq<ImportDecl>) -> Seq<ImportDeclView> {
    decls.map_values(|d: ImportDecl| d@)
}

/// One binding of the per-file symbol table.
pub struct ImportBinding {
    pub local: String,
    pub target: ComponentIdentity,
}

/// The mathematical value of an [`ImportBinding`].
pub ghost struct BindingView {
    pub local: Seq<char>,
    pub target: IdentityView,
}

impl View for ImportBinding {
    type V = BindingView;

    open spec fn view(&self) -> BindingView {
        BindingView { local: self.local@, target: self.target@ }
    }
}

/// The per-file symbol table: local identifier to the component it refers
/// to. Scope is exactly one file; a fresh table is built for each file.
pub struct SymbolTable {
    pub bindings: Vec<ImportBinding>,
}

impl View for SymbolTable {
    type V = Seq<BindingView>;

    open spec fn view(&self) -> Seq<BindingView> {
        self.bindings@.map_values(|b: ImportBinding| b@)
    }
}

/// Insertion with overwrite: an existing binding of `local` is replaced in
/// place, otherwise the new binding is appended.
pub open spec fn tbl_insert(
    s: Seq<BindingView>,
    local: Seq<char>,
    target: IdentityView,
) -> Seq<BindingView>
    decreases s.len(),
{
    if s.len() == 0 {
        seq![BindingView { local, target }]
    } else if s[0].local == local {
        seq![BindingView { local, target }] + s.skip(1)
    } else {
        seq![s[0]] + tbl_insert(s.skip(1), local, target)
    }
}

/// The binding of `local`, if any: the first (and, after overwrites, only)
/// entry with that local name.
pub open spec fn tbl_lookup(s: Seq<BindingView>, local: Seq<char>) -> Option<IdentityView>
    decreases s.len(),
{
    if s.len() == 0 {
        None
    } else if s[0].local == local {
        Some(s[0].target)
    } else {
        tbl_lookup(s.skip(1), local)
    }
}

pub proof fn lemma_tbl_insert_same(s: Seq<BindingView>, local: Seq<char>, target: IdentityView)
    ensures
        tbl_lookup(tbl_insert(s, local, target), local) == Some(target),
    decreases s.len(),
{
    let b = BindingView { local, target };
    if s.len() == 0 {
        assert(seq![b][0] == b);
    } else if s[0].local == local {
        assert((seq![b] + s.skip(1))[0] == b);
    } else {
        let t = tbl_insert(s.skip(1), local, target);
        assert((seq![s[0]] + t)[0] == s[0]);
        assert((seq![s[0]] + t).skip(1) =~= t);
        lemma_tbl_insert_same(s.skip(1), local, target);
    }
}

proof fn lemma_tbl_insert_at(s: Seq<BindingView>, local: Seq<char>, target: IdentityView, i: int)
    requires
        0 <= i < s.len(),
        s[i].local == local,
        forall|j: int| 0 <= j < i ==> (#[trigger] s[j]).local != local,
    ensures
        tbl_insert(s, local, target) =~= s.update(i, BindingView { local, target }),
    decreases s.len(),
{
    let nb = BindingView { local, target };
    if i == 0 {
        assert(tbl_insert(s, local, target) == seq![nb] + s.skip(1));
        assert(seq![nb] + s.skip(1) =~= s.update(0, nb));
    } else {
        assert(s[0].local != local);
        assert(tbl_insert(s, local, target) == seq![s[0]] + tbl_insert(s.skip(1), local, target));
        assert(s.skip(1)[i - 1].local == local);
        assert forall|j: int| 0 <= j < i - 1 implies (#[trigger] s.skip(1)[j]).local != local by {
            assert(s.skip(1)[j] == s[j + 1]);
        }
        lemma_tbl_insert_at(s.skip(1), local, target, i - 1);
        assert(seq![s[0]] + s.skip(1).update(i - 1, nb) =~= s.update(i, nb));
    }
}

proof fn lemma_tbl_insert_absent(s: Seq<BindingView>, local: Seq<char>, target: IdentityView)
    requires
        forall|j: int| 0 <= j < s.len() ==> (#[trigger] s[j]).local != local,
    ensures
        tbl_insert(s, local, target) =~= s.push(BindingView { local, target }),
    decreases s.len(),
{
    let nb = BindingView { local, target };
    if s.len() == 0 {
        assert(tbl_insert(s, local, target) == seq![nb]);
        assert(seq![nb] =~= s.push(nb));
    } else {
        assert(s[0].local != local);
        assert(tbl_insert(s, local, target) == seq![s[0]] + tbl_insert(s.skip(1), local, target));
        assert forall|j: int| 0 <= j < s.skip(1).len() implies (#[trigger] s.skip(1)[j]).local
            != local by {
            assert(s.skip(1)[j] == s[j + 1]);
        }
        lemma_tbl_insert_absent(s.skip(1), local, target);
        assert(seq![s[0]] + s.skip(1).push(nb) =~= s.push(nb));
    }
}

/// The binding one specifier introduces once its declaration's specifier
/// resolved to `resolved`: the local name to `(resolved, "Default")` for a
/// default import, to `(resolved, original name)` for a named import — the
/// original name is the alias source when present, else the local name
/// itself — and nothing for a namespace import.
pub open spec fn specifier_binding(s: ImportSpecifierView, resolved: Seq<char>) -> Option<
    BindingView,
> {
    match s {
        ImportSpecifierView::DefaultImport { local } => Some(
            BindingView {
                local,
                target: IdentityView { file_path: resolved, component_name: "Default"@ },
            },
        ),
        ImportSpecifierView::NamedImport { local, imported } => Some(
            BindingView {
                local,
                target: IdentityView {
                    file_path: resolved,
                    component_name: match imported {
                        Some(original) => original,
                        None => local,
                    },
                },
            },
        ),
        ImportSpecifierView::NamespaceImport { .. } => None,
    }
}

/// One declaration's specifiers applied to the table in order, later
/// bindings overwriting earlier ones.
pub open spec fn apply_specifiers(
    t: Seq<BindingView>,
    specs: Seq<ImportSpecifierView>,
    resolved: Seq<char>,
) -> Seq<BindingView>
    decreases specs.len(),
{
    if specs.len() == 0 {
        t
    } else {
        let t1 = match specifier_binding(specs[0], resolved) {
            Some(b) => tbl_insert(t, b.local, b.target),
            None => t,
        };
        apply_specifiers(t1, specs.skip(1), resolved)
    }
}

/// Extraction folded over the declarations: each declaration's specifier is
/// resolved once; the first failure is the extraction's failure (fail-fast),
/// otherwise its bindings are applied in order.
pub open spec fn extract_from(
    t: Seq<BindingView>,
    decls: Seq<ImportDeclView>,
    current_file: Seq<char>,
    project_root: Seq<char>,
    fs: Set<Seq<char>>,
) -> Result<Seq<BindingView>, ErrorView>
    decreases decls.len(),
{
    if decls.len() == 0 {
        Ok(t)
    } else {
        match resolve_spec(decls[0].src, current_file, project_root, fs) {
            Ok(p) => extract_from(
                apply_specifiers(t, decls[0].specifiers, p),
                decls.skip(1),
                current_file,
                project_root,
                fs,
            ),
            Err(e) => Err(e),
        }
    }
}

/// What extraction yields for a whole file, starting from the empty table.
pub open spec fn extract_spec(
    decls: Seq<ImportDeclView>,
    current_file: Seq<char>,
    project_root: Seq<char>,
    fs: Set<Seq<char>>,
) -> Result<Seq<BindingView>, ErrorView> {
    extract_from(Seq::empty(), decls, current_file, project_root, fs)
}

impl SymbolTable {
    pub fn new() -> (r: Self)
        ensures
            r@ == Seq::<BindingView>::empty(),
    {
        let r = SymbolTable { bindings: Vec::new() };
        proof {
            assert(r@ =~= Seq::<BindingView>::empty());
        }
        r
    }

    fn find_index(&self, local: &String) -> (r: Option<usize>)
        ensures
            match r {
                Some(i) => i < self@.len() && self@[i as int].local == local@ && forall|j: int|
                    0 <= j < i ==> (#[trigger] self@[j]).local != local@,
                None => forall|j: int| 0 <= j < self@.len() ==> (#[trigger] self@[j]).local
                    != local@,
            },
    {
        let mut i: usize = 0;
        while i < self.bindings.len()
            invariant
                i <= self.bindings@.len(),
                self.bindings@.len() == self@.len(),
                forall|j: int| 0 <= j < i ==> (#[trigger] self@[j]).local != local@,
            decreases self.bindings@.len() - i,
        {
            proof {
                assert(self@[i as int] == self.bindings@[i as int]@);
            }
            if self.bindings[i].local == *local {
                return Some(i);
            }
            i += 1;
        }
        None
    }

    /// Binds `local` to `target`, overwriting an existing binding of the
    /// same local name (last write wins).
    pub fn insert(&mut self, local: String, target: ComponentIdentity)
        ensures
            final(self)@ == tbl_insert(old(self)@, local@, target@),
    {
        let ghost v0 = self@;
        let ghost nb = BindingView { local: local@, target: target@ };
        match self.find_index(&local) {
            Some(i) => {
                self.bindings.remove(i);
                self.bindings.insert(i, ImportBinding { local, target });
                proof {
                    lemma_tbl_insert_at(v0, local@, target@, i as int);
                    assert(self@ =~= v0.update(i as int, nb));
                }
            },
            None => {
                self.bindings.push(ImportBinding { local, target });
                proof {
                    lemma_tbl_insert_absent(v0, local@, target@);
                    assert(self@ =~= v0.push(nb));
                }
            },
        }
    }

    /// The component a local identifier refers to, if it is bound.
    pub fn get(&self, local: &String) -> (r: Option<&ComponentIdentity>)
        ensures
            match r {
                Some(c) => tbl_lookup(self@, local@) == Some(c@),
                None => tbl_lookup(self@, local@) is None,
            },
    {
        let mut i: usize = 0;
        proof {
            assert(self@.skip(0) =~= self@);
        }
        while i < self.bindings.len()
            invariant
                i <= self.bindings@.len(),
                self.bindings@.len() == self@.len(),
                tbl_lookup(self@, local@) == tbl_lookup(self@.skip(i as int), local@),
            decreases self.bindings@.len() - i,
        {
            proof {
                assert(self@.skip(i as int)[0] == self@[i as int]);
                assert(self@[i as int] == self.bindings@[i as int]@);
                assert(self@.skip(i as int).skip(1) =~= self@.skip(i + 1));
            }
            if self.bindings[i].local == *local {
                return Some(&self.bindings[i].target);
            }
            i += 1;
        }
        None
    }
}

/// Extracts the per-file symbol table from one file's import declarations:
/// exactly the fold [`extract_spec`] denotes over the resolved specifiers.
pub fn extract_imports(
    decls: &Vec<ImportDecl>,
    current_file: &String,
    project_root: &String,
    fs: &FileSystem,
) -> (r: Result<SymbolTable, AnalysisError>)
    ensures
        match r {
            Ok(t) => extract_spec(decls_view(decls@), current_file@, project_root@, fs@) == Ok::<
                Seq<BindingView>,
                ErrorView,
            >(t@),
            Err(e) => extract_spec(decls_view(decls@), current_file@, project_root@, fs@) == Err::<
                Seq<BindingView>,
                ErrorView,
            >(e@),
        },
{
    let ghost dv = decls_view(decls@);
    let mut table = SymbolTable::new();
    let mut i: usize = 0;
    proof {
        assert(dv.skip(0) =~= dv);
    }
    while i < decls.len()
        invariant
            i <= decls@.len(),
            dv == decls_view(decls@),
            dv.len() == decls@.len(),
            extract_from(Seq::empty(), dv, current_file@, project_root@, fs@) == extract_from(
                table@,
                dv.skip(i as int),
                current_file@,
                project_root@,
                fs@,
            ),
        decreases decls@.len() - i,
    {
        proof {
            assert(dv.skip(i as int)[0] == dv[i as int]);
            assert(dv[i as int] == decls@[i as int]@);
            assert(dv.skip(i as int).skip(1) =~= dv.skip(i + 1));
        }
        let d = &decls[i];
        match resolve(&d.src, current_file, project_root, fs) {
            Err(e) => {
                return Err(e);
            },
            Ok(resolved) => {
                let ghost tstart = table@;
                let ghost sv = d@.specifiers;
                let mut j: usize = 0;
                proof {
                    assert(sv.skip(0) =~= sv);
                }
                while j < d.specifiers.len()
                    invariant
                        j <= d.specifiers@.len(),
                        sv == d@.specifiers,
                        sv.len() == d.specifiers@.len(),
                        apply_specifiers(tstart, sv, resolved@) == apply_specifiers(
                            table@,
                            sv.skip(j as int),
                            resolved@,
                        ),
                    decreases d.specifiers@.len() - j,
                {
                    proof {
                        assert(sv.skip(j as int)[0] == sv[j as int]);
                        assert(sv[j as int] == d.specifiers@[j as int]@);
                        assert(sv.skip(j as int).skip(1) =~= sv.skip(j + 1));
                    }
                    match &d.specifiers[j] {
                        ImportSpecifier::DefaultImport { local } => {
                            let target = ComponentIdentity::new(
                                resolved.clone(),
                                "Default".to_owned(),
                            );
                            table.insert(local.clone(), target);
                        },
                        ImportSpecifier::NamedImport { local, imported } => {
                            let original = match imported {
                                Some(o) => o.clone(),
                                None => local.clone(),
                            };
                            let target = ComponentIdentity::new(resolved.clone(), original);
                            table.insert(local.clone(), target);
                        },
                        ImportSpecifier::NamespaceImport { .. } => {},
                    }
                    j += 1;
                }
                proof {
                    assert(sv.skip(sv.len() as int).len() == 0);
                }
            },
        }
        i += 1;
    }
    proof {
        assert(dv.skip(dv.len() as int).len() == 0);
    }
    Ok(table)
}

/// Aliasing law: a named import `original as local` binds the local alias to
/// the original name under the resolved path — never to the alias itself.
pub proof fn lemma_named_alias_binding(
    t: Seq<BindingView>,
    local: Seq<char>,
    original: Seq<char>,
    resolved: Seq<char>,
)
    ensures
        tbl_lookup(
            apply_specifiers(
                t,
                seq![
                    ImportSpecifierView::NamedImport { local, imported: Some(original) },
                ],
                resolved,
            ),
            local,
        ) == Some(IdentityView { file_path: resolved, component_name: original }),
{
    let s = seq![ImportSpecifierView::NamedImport { local, imported: Some(original) }];
    assert(s[0] == ImportSpecifierView::NamedImport { local, imported: Some(original) });
    assert(s.skip(1).len() == 0);
    let t1 = tbl_insert(t, local, IdentityView { file_path: resolved, component_name: original });
    assert(apply_specifiers(t1, s.skip(1), resolved) == t1);
    assert(apply_specifiers(t, s, resolved) == t1);
    lemma_tbl_insert_same(
        t,
        local,
        IdentityView { file_path: resolved, component_name: original },
    );
}

/// Default import law: a default import binds its local name to the
/// sentinel component name `Default` under the resolved path.
pub proof fn lemma_default_binding(t: Seq<BindingView>, local: Seq<char>, resolved: Seq<char>)
    ensures
        tbl_lookup(
            apply_specifiers(t, seq![ImportSpecifierView::DefaultImport { local }], resolved),
            local,
        ) == Some(IdentityView { file_path: resolved, component_name: "Default"@ }),
{
    let s = seq![ImportSpecifierView::DefaultImport { local }];
    assert(s[0] == ImportSpecifierView::DefaultImport { local });
    assert(s.skip(1).len() == 0);
    let t1 = tbl_insert(
        t,
        local,
        IdentityView { file_path: resolved, component_name: "Default"@ },
    );
    assert(apply_specifiers(t1, s.skip(1), resolved) == t1);
    assert(apply_specifiers(t, s, resolved) == t1);
    lemma_tbl_insert_same(
        t,
        local,
        IdentityView { file_path: resolved, component_name: "Default"@ },
    );
}

/// Shadow overwrite law: when one file binds the same local name twice, the
/// later binding is the one the finished table holds — whatever the table
/// held before.
pub proof fn lemma_shadow_overwrite(
    t: Seq<BindingView>,
    local: Seq<char>,
    first: IdentityView,
    second: IdentityView,
)
    ensures
        tbl_lookup(tbl_insert(tbl_insert(t, local, first), local, second), local) == Some(second),
{
    lemma_tbl_insert_same(tbl_insert(t, local, first), local, second);
}

} // verus!
