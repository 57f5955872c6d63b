//! The dependency graph data model.
//!
//! The graph is stored in reverse-edge orientation: for every depended-upon
//! component it records the ordered list of components that depend on it,
//! keyed first by file path and then by component name. Within one list no
//! two entries share the same `(file_path, component_name)` pair; absence of
//! a key means an empty dependents list.

use vstd::prelude::*;

verus! {

/// Identifies a named artifact inside a file: the canonical path of the
/// declaring file and the exported name. The name is the sentinel `Default`
/// for a module's default export, otherwise the originally declared name of
/// the symbol (never a local alias).
pub struct ComponentIdentity {
    pub file_path: String,
    pub component_name: String,
}

/// The mathematical value of a [`ComponentIdentity`]: both fields as
/// character sequences. Two identities are equal iff both fields are equal.
pub ghost struct IdentityView {
    pub file_path: Seq<char>,
    pub component_name: Seq<char>,
}

impl View for ComponentIdentity {
    type V = IdentityView;

    open spec fn view(&self) -> IdentityView {
        IdentityView { file_path: self.file_path@, component_name: self.component_name@ }
    }
}

impl ComponentIdentity {
    /// Construction always succeeds; path existence is checked earlier,
    /// during resolution, never here.
    pub fn new(file_path: String, component_name: String) -> (r: Self)
        ensures
            r@ == (IdentityView { file_path: file_path@, component_name: component_name@ }),
    {
        Self { file_path, component_name }
    }
}

impl Clone for ComponentIdentity {
    fn clone(&self) -> (r: Self)
        ensures
            r@ == self@,
    {
        ComponentIdentity {
            file_path: self.file_path.clone(),
            component_name: self.component_name.clone(),
        }
    }
}

/// One dependents list: the components depending on the component
/// `component_name` of the enclosing file entry.
pub struct DependentsEntry {
    pub component_name: String,
    pub dependents: Vec<ComponentIdentity>,
}

/// All dependents lists for the components of one file.
pub struct FileEntry {
    pub file_path: String,
    pub components: Vec<DependentsEntry>,
}

/// The value of a dependency graph: file path, then component name, to the
/// ordered list of dependents of that component.
pub type GraphView = Map<Seq<char>, Map<Seq<char>, Seq<IdentityView>>>;

/// Reverse dependency graph over components, keyed by the dependee.
pub struct DependencyGraph {
    pub data: Vec<FileEntry>,
}

/// The identity views of a list of dependents, in list order.
pub open spec fn deps_view(s: Seq<ComponentIdentity>) -> Seq<IdentityView> {
    s.map_values(|c: ComponentIdentity| c@)
}

/// The map from component name to dependents list held by a run of entries.
pub open spec fn comps_map(s: Seq<DependentsEntry>) -> Map<Seq<char>, Seq<IdentityView>>
    decreases s.len(),
{
    if s.len() == 0 {
        Map::empty()
    } else {
        comps_map(s.drop_last()).insert(
            s.last().component_name@,
            deps_view(s.last().dependents@),
        )
    }
}

/// The two-level map held by a run of file entries.
pub open spec fn files_map(s: Seq<FileEntry>) -> GraphView
    decreases s.len(),
{
    if s.len() == 0 {
        Map::empty()
    } else {
        files_map(s.drop_last()).insert(s.last().file_path@, comps_map(s.last().components@))
    }
}

impl View for DependencyGraph {
    type V = GraphView;

    open spec fn view(&self) -> GraphView {
        files_map(self.data@)
    }
}

/// No two entries of one dependents list name the same component.
pub open spec fn deps_wf(s: Seq<ComponentIdentity>) -> bool {
    forall|i: int, j: int| #![trigger s[i], s[j]] 0 <= i < j < s.len() ==> s[i]@ != s[j]@
}

/// Component names are unique within a file entry.
pub open spec fn comps_keys_distinct(s: Seq<DependentsEntry>) -> bool {
    forall|i: int, j: int| #![trigger s[i], s[j]]
        0 <= i < j < s.len() ==> s[i].component_name@ != s[j].component_name@
}

pub open spec fn comps_wf(s: Seq<DependentsEntry>) -> bool {
    &&& comps_keys_distinct(s)
    &&& forall|i: int| 0 <= i < s.len() ==> deps_wf(#[trigger] s[i].dependents@)
}

/// File paths are unique across file entries.
pub open spec fn files_keys_distinct(s: Seq<FileEntry>) -> bool {
    forall|i: int, j: int| #![trigger s[i], s[j]]
        0 <= i < j < s.len() ==> s[i].file_path@ != s[j].file_path@
}

pub open spec fn files_wf(s: Seq<FileEntry>) -> bool {
    &&& files_keys_distinct(s)
    &&& forall|i: int| 0 <= i < s.len() ==> comps_wf(#[trigger] s[i].components@)
}

/// The dependents recorded for component `(file, name)`: the stored list, or
/// empty when the key was never created.
pub open spec fn graph_dependents(m: GraphView, file: Seq<char>, name: Seq<char>) -> Seq<
    IdentityView,
> {
    if m.contains_key(file) && m[file].contains_key(name) {
        m[file][name]
    } else {
        Seq::empty()
    }
}

/// What one [`DependencyGraph::add_dependency`] call does to the graph value:
/// look up the dependents list of `depend_on`, creating it empty if absent,
/// and append `current` unless a value-equal entry is already there.
pub open spec fn spec_add_dependency(
    m: GraphView,
    current: IdentityView,
    depend_on: IdentityView,
) -> GraphView {
    let comps = if m.contains_key(depend_on.file_path) {
        m[depend_on.file_path]
    } else {
        Map::empty()
    };
    let l = if comps.contains_key(depend_on.component_name) {
        comps[depend_on.component_name]
    } else {
        Seq::empty()
    };
    if l.contains(current) {
        m
    } else {
        m.insert(depend_on.file_path, comps.insert(depend_on.component_name, l.push(current)))
    }
}

proof fn lemma_comps_map_at(s: Seq<DependentsEntry>, i: int)
    requires
        comps_keys_distinct(s),
        0 <= i < s.len(),
    ensures
        comps_map(s).contains_key(s[i].component_name@),
        comps_map(s)[s[i].component_name@] == deps_view(s[i].dependents@),
    decreases s.len(),
{
    if i < s.len() - 1 {
        lemma_comps_map_at(s.drop_last(), i);
    }
}

proof fn lemma_comps_map_absent(s: Seq<DependentsEntry>, k: Seq<char>)
    requires
        forall|i: int| 0 <= i < s.len() ==> (#[trigger] s[i]).component_name@ != k,
    ensures
        !comps_map(s).contains_key(k),
    decreases s.len(),
{
    if s.len() > 0 {
        lemma_comps_map_absent(s.drop_last(), k);
    }
}

proof fn lemma_comps_map_update(s: Seq<DependentsEntry>, i: int, e: DependentsEntry)
    requires
        comps_keys_distinct(s),
        0 <= i < s.len(),
        e.component_name@ == s[i].component_name@,
    ensures
        comps_map(s.update(i, e)) == comps_map(s).insert(
            e.component_name@,
            deps_view(e.dependents@),
        ),
    decreases s.len(),
{
    let t = s.update(i, e);
    assert(t.last() == if i == s.len() - 1 { e } else { s.last() });
    if i == s.len() - 1 {
        assert(t.drop_last() =~= s.drop_last());
        assert(comps_map(t) =~= comps_map(s).insert(e.component_name@, deps_view(e.dependents@)));
    } else {
        assert(t.drop_last() =~= s.drop_last().update(i, e));
        lemma_comps_map_update(s.drop_last(), i, e);
        assert(comps_map(t) =~= comps_map(s).insert(e.component_name@, deps_view(e.dependents@)));
    }
}

proof fn lemma_files_map_at(s: Seq<FileEntry>, i: int)
    requires
        files_keys_distinct(s),
        0 <= i < s.len(),
    ensures
        files_map(s).contains_key(s[i].file_path@),
        files_map(s)[s[i].file_path@] == comps_map(s[i].components@),
    decreases s.len(),
{
    if i < s.len() - 1 {
        lemma_files_map_at(s.drop_last(), i);
    }
}

proof fn lemma_files_map_absent(s: Seq<FileEntry>, k: Seq<char>)
    requires
        forall|i: int| 0 <= i < s.len() ==> (#[trigger] s[i]).file_path@ != k,
    ensures
        !files_map(s).contains_key(k),
    decreases s.len(),
{
    if s.len() > 0 {
        lemma_files_map_absent(s.drop_last(), k);
    }
}

proof fn lemma_files_map_update(s: Seq<FileEntry>, i: int, e: FileEntry)
    requires
        files_keys_distinct(s),
        0 <= i < s.len(),
        e.file_path@ == s[i].file_path@,
    ensures
        files_map(s.update(i, e)) == files_map(s).insert(
            e.file_path@,
            comps_map(e.components@),
        ),
    decreases s.len(),
{
    let t = s.update(i, e);
    if i == s.len() - 1 {
        assert(t.drop_last() =~= s.drop_last());
        assert(files_map(t) =~= files_map(s).insert(e.file_path@, comps_map(e.components@)));
    } else {
        assert(t.drop_last() =~= s.drop_last().update(i, e));
        lemma_files_map_update(s.drop_last(), i, e);
        assert(files_map(t) =~= files_map(s).insert(e.file_path@, comps_map(e.components@)));
    }
}

/// Linear scan for an identity already present in a dependents list,
/// comparing both fields by value.
fn contains_identity(s: &Vec<ComponentIdentity>, c: &ComponentIdentity) -> (r: bool)
    ensures
        r == deps_view(s@).contains(c@),
{
    let mut i: usize = 0;
    while i < s.len()
        invariant
            i <= s@.len(),
            forall|j: int| 0 <= j < i ==> (#[trigger] s@[j])@ != c@,
        decreases s@.len() - i,
    {
        if s[i].file_path == c.file_path && s[i].component_name == c.component_name {
            assert(deps_view(s@)[i as int] == c@);
            return true;
        }
        i += 1;
    }
    assert forall|j: int| 0 <= j < deps_view(s@).len() implies deps_view(s@)[j] != c@ by {
        assert(deps_view(s@)[j] == s@[j]@);
    }
    false
}

fn find_comp_index(s: &Vec<DependentsEntry>, name: &String) -> (r: Option<usize>)
    ensures
        match r {
            Some(i) => i < s@.len() && s@[i as int].component_name@ == name@,
            None => forall|j: int| 0 <= j < s@.len() ==> (#[trigger] s@[j]).component_name@ != name@,
        },
{
    let mut i: usize = 0;
    while i < s.len()
        invariant
            i <= s@.len(),
            forall|j: int| 0 <= j < i ==> (#[trigger] s@[j]).component_name@ != name@,
        decreases s@.len() - i,
    {
        if s[i].component_name == *name {
            return Some(i);
        }
        i += 1;
    }
    None
}

impl DependencyGraph {
    /// Every graph handed out by this module satisfies this shape: unique
    /// keys on both levels and deduplicated dependents lists.
    pub open spec fn wf(&self) -> bool {
        files_wf(self.data@)
    }

    /// A graph starts empty and grows only through
    /// [`DependencyGraph::add_dependency`].
    pub fn new() -> (r: Self)
        ensures
            r@ == GraphView::empty(),
            r.wf(),
    {
        DependencyGraph { data: Vec::new() }
    }

    fn find_file_index(&self, file_path: &String) -> (r: Option<usize>)
        ensures
            match r {
                Some(i) => i < self.data@.len() && self.data@[i as int].file_path@ == file_path@,
                None => forall|j: int|
                    0 <= j < self.data@.len() ==> (#[trigger] self.data@[j]).file_path@
                        != file_path@,
            },
    {
        let mut i: usize = 0;
        while i < self.data.len()
            invariant
                i <= self.data@.len(),
                forall|j: int| 0 <= j < i ==> (#[trigger] self.data@[j]).file_path@ != file_path@,
            decreases self.data@.len() - i,
        {
            if self.data[i].file_path == *file_path {
                return Some(i);
            }
            i += 1;
        }
        None
    }

    /// Records that `current` depends on `depend_on`. The dependents list of
    /// `depend_on` is created lazily; `current` is appended to it unless a
    /// value-equal entry is already present, in which case the graph is left
    /// unchanged. Never fails.
    pub fn add_dependency(&mut self, current: ComponentIdentity, depend_on: ComponentIdentity)
        requires
            old(self).wf(),
        ensures
            final(self).wf(),
            final(self)@ == spec_add_dependency(old(self)@, current@, depend_on@),
    {
        let ghost m = self@;
        let ghost s0 = self.data@;
        match self.find_file_index(&depend_on.file_path) {
            None => {
                proof {
                    lemma_files_map_absent(s0, depend_on.file_path@);
                }
                let mut deps: Vec<ComponentIdentity> = Vec::new();
                deps.push(current);
                let mut comps: Vec<DependentsEntry> = Vec::new();
                comps.push(
                    DependentsEntry { component_name: depend_on.component_name, dependents: deps },
                );
                let entry = FileEntry { components: comps, file_path: depend_on.file_path };
                self.data.push(entry);
                proof {
                    let e = self.data@.last();
                    assert(self.data@.drop_last() =~= s0);
                    assert(e.components@.drop_last() =~= Seq::<DependentsEntry>::empty());
                    assert(deps_view(e.components@.last().dependents@) =~= Seq::empty().push(
                        current@,
                    ));
                    assert(self@ == spec_add_dependency(m, current@, depend_on@)) by {
                        assert(e.components@.len() == 1);
                        assert(e.components@.last().component_name@ == depend_on.component_name@);
                        assert(comps_map(e.components@.drop_last())
                            == Map::<Seq<char>, Seq<IdentityView>>::empty());
                        assert(deps_view(e.components@.last().dependents@)
                            == Seq::<IdentityView>::empty().push(current@));
                        assert(comps_map(e.components@) == Map::<Seq<char>, Seq<IdentityView>>::empty().insert(
                            depend_on.component_name@,
                            Seq::empty().push(current@),
                        ));
                        assert(files_map(self.data@) == m.insert(
                            depend_on.file_path@,
                            comps_map(e.components@),
                        ));
                    }
                    assert(self.wf()) by {
                        assert forall|a: int, b: int|
                            0 <= a < b < self.data@.len() implies (#[trigger] self.data@[a]).file_path@
                            != (#[trigger] self.data@[b]).file_path@ by {
                            if b < s0.len() {
                                assert(s0[a].file_path@ != s0[b].file_path@);
                            } else {
                                assert(self.data@[a] == s0[a]);
                            }
                        }
                        assert forall|a: int| 0 <= a < self.data@.len() implies comps_wf(
                            #[trigger] self.data@[a].components@,
                        ) by {
                            if a < s0.len() {
                                assert(self.data@[a] == s0[a]);
                                assert(comps_wf(s0[a].components@));
                            }
                        }
                    }
                }
            },
            Some(i) => {
                proof {
                    lemma_files_map_at(s0, i as int);
                }
                match find_comp_index(&self.data[i].components, &depend_on.component_name) {
                    None => {
                        proof {
                            lemma_comps_map_absent(
                                s0[i as int].components@,
                                depend_on.component_name@,
                            );
                        }
                        let mut deps: Vec<ComponentIdentity> = Vec::new();
                        deps.push(current);
                        let fe = &mut self.data[i];
                        let ghost cs0 = fe.components@;
                        fe.components.push(
                            DependentsEntry {
                                component_name: depend_on.component_name,
                                dependents: deps,
                            },
                        );
                        proof {
                            let e = self.data@[i as int];
                            assert(e.components@.drop_last() =~= cs0);
                            assert(deps_view(e.components@.last().dependents@) =~= Seq::empty().push(
                                current@,
                            ));
                            lemma_files_map_update(s0, i as int, e);
                            assert(self.data@ == s0.update(i as int, e));
                            assert(self@ == spec_add_dependency(m, current@, depend_on@));
                            assert(self.wf()) by {
                                assert forall|a: int, b: int|
                                    0 <= a < b < self.data@.len() implies (#[trigger] self.data@[a]).file_path@
                                    != (#[trigger] self.data@[b]).file_path@ by {
                                    assert(s0[a].file_path@ != s0[b].file_path@);
                                }
                                assert forall|a: int| 0 <= a < self.data@.len() implies comps_wf(
                                    #[trigger] self.data@[a].components@,
                                ) by {
                                    assert(comps_wf(s0[a].components@));
                                    if a == i {
                                        let cs = self.data@[a].components@;
                                        assert(cs.drop_last() =~= cs0);
                                        assert forall|x: int, y: int|
                                            0 <= x < y < cs.len() implies (#[trigger] cs[x]).component_name@
                                            != (#[trigger] cs[y]).component_name@ by {
                                            if y < cs.len() - 1 {
                                                assert(cs[x] == cs0[x] && cs[y] == cs0[y]);
                                            } else {
                                                assert(cs[x] == cs0[x]);
                                            }
                                        }
                                        assert forall|x: int| 0 <= x < cs.len() implies deps_wf(
                                            #[trigger] cs[x].dependents@,
                                        ) by {
                                            if x < cs.len() - 1 {
                                                assert(cs[x] == cs0[x]);
                                            }
                                        }
                                    }
                                }
                            }
                        }
                    },
                    Some(j) => {
                        proof {
                            lemma_comps_map_at(s0[i as int].components@, j as int);
                        }
                        let dup = contains_identity(
                            &self.data[i].components[j].dependents,
                            &current,
                        );
                        if !dup {
                            let fe = &mut self.data[i];
                            let ghost cs0 = fe.components@;
                            let ce = &mut fe.components[j];
                            let ghost d0 = ce.dependents@;
                            ce.dependents.push(current);
                            proof {
                                let e = self.data@[i as int];
                                let c = e.components@[j as int];
                                assert(deps_view(c.dependents@) =~= deps_view(d0).push(current@));
                                lemma_comps_map_update(cs0, j as int, c);
                                assert(e.components@ == cs0.update(j as int, c));
                                lemma_files_map_update(s0, i as int, e);
                                assert(self.data@ == s0.update(i as int, e));
                                assert(self@ == spec_add_dependency(m, current@, depend_on@));
                                assert(self.wf()) by {
                                    assert forall|a: int, b: int|
                                        0 <= a < b < self.data@.len() implies (#[trigger] self.data@[a]).file_path@
                                        != (#[trigger] self.data@[b]).file_path@ by {
                                        assert(s0[a].file_path@ != s0[b].file_path@);
                                    }
                                    assert forall|a: int| 0 <= a < self.data@.len() implies comps_wf(
                                        #[trigger] self.data@[a].components@,
                                    ) by {
                                        assert(comps_wf(s0[a].components@));
                                        if a == i {
                                            let cs = self.data@[a].components@;
                                            assert forall|x: int, y: int|
                                                0 <= x < y < cs.len() implies (#[trigger] cs[x]).component_name@
                                                != (#[trigger] cs[y]).component_name@ by {
                                                assert(cs0[x].component_name@
                                                    != cs0[y].component_name@);
                                                assert(cs[x].component_name@
                                                    == cs0[x].component_name@);
                                                assert(cs[y].component_name@
                                                    == cs0[y].component_name@);
                                            }
                                            assert forall|x: int| 0 <= x < cs.len() implies deps_wf(
                                                #[trigger] cs[x].dependents@,
                                            ) by {
                                                assert(deps_wf(cs0[x].dependents@));
                                                if x == j {
                                                    assert(cs[x].dependents@ == d0.push(current));
                                                    assert forall|p: int, q: int|
                                                        0 <= p < q < cs[x].dependents@.len() implies (
                                                    #[trigger] cs[x].dependents@[p])@ != (
                                                    #[trigger] cs[x].dependents@[q])@ by {
                                                        if q == d0.len() {
                                                            assert(deps_view(d0)[p] == d0[p]@);
                                                        }
                                                    }
                                                }
                                            }
                                        }
                                    }
                                }
                            }
                        } else {
                            proof {
                                assert(self@ == spec_add_dependency(m, current@, depend_on@));
                            }
                        }
                    },
                }
            },
        }
    }

    /// The ordered dependents list recorded for component `(file_path,
    /// component_name)`; empty when the component is unknown. Never fails.
    pub fn dependents_of(&self, file_path: &String, component_name: &String) -> (r: Vec<
        ComponentIdentity,
    >)
        requires
            self.wf(),
        ensures
            deps_view(r@) == graph_dependents(self@, file_path@, component_name@),
    {
        match self.find_file_index(file_path) {
            None => {
                proof {
                    lemma_files_map_absent(self.data@, file_path@);
                    assert(deps_view(Seq::empty()) =~= Seq::<IdentityView>::empty());
                }
                Vec::new()
            },
            Some(i) => {
                proof {
                    lemma_files_map_at(self.data@, i as int);
                }
                match find_comp_index(&self.data[i].components, component_name) {
                    None => {
                        proof {
                            lemma_comps_map_absent(self.data@[i as int].components@, component_name@);
                            assert(deps_view(Seq::empty()) =~= Seq::<IdentityView>::empty());
                        }
                        Vec::new()
                    },
                    Some(j) => {
                        proof {
                            lemma_comps_map_at(self.data@[i as int].components@, j as int);
                        }
                        let list = &self.data[i].components[j].dependents;
                        let mut out: Vec<ComponentIdentity> = Vec::new();
                        let mut k: usize = 0;
                        while k < list.len()
                            invariant
                                k <= list@.len(),
                                out@.len() == k,
                                forall|t: int| 0 <= t < k ==> (#[trigger] out@[t])@ == list@[t]@,
                            decreases list@.len() - k,
                        {
                            out.push(list[k].clone());
                            k += 1;
                        }
                        proof {
                            assert(deps_view(out@) =~= deps_view(list@));
                        }
                        out
                    },
                }
            },
        }
    }
}

/// Deduplication law: adding the same dependency a second time changes
/// nothing, so two value-equal `add_dependency(A, B)` calls leave exactly the
/// state of one; starting from a graph with no dependents recorded for `B`,
/// the list afterwards holds exactly the one entry `A`.
pub proof fn lemma_add_dependency_idempotent(
    m: GraphView,
    current: IdentityView,
    depend_on: IdentityView,
)
    ensures
        spec_add_dependency(spec_add_dependency(m, current, depend_on), current, depend_on)
            == spec_add_dependency(m, current, depend_on),
        graph_dependents(m, depend_on.file_path, depend_on.component_name).len() == 0
            ==> graph_dependents(
            spec_add_dependency(spec_add_dependency(m, current, depend_on), current, depend_on),
            depend_on.file_path,
            depend_on.component_name,
        ) == seq![current],
{
    let m1 = spec_add_dependency(m, current, depend_on);
    let comps = if m.contains_key(depend_on.file_path) {
        m[depend_on.file_path]
    } else {
        Map::empty()
    };
    let l = if comps.contains_key(depend_on.component_name) {
        comps[depend_on.component_name]
    } else {
        Seq::empty()
    };
    if l.contains(current) {
        assert(m1 == m);
    } else {
        assert(m1[depend_on.file_path][depend_on.component_name] == l.push(current));
        assert(l.push(current)[l.len() as int] == current);
        assert(l.push(current).contains(current));
        assert(spec_add_dependency(m1, current, depend_on) == m1);
        if graph_dependents(m, depend_on.file_path, depend_on.component_name).len() == 0 {
            assert(l =~= Seq::empty());
            assert(l.push(current) =~= seq![current]);
        }
    }
}

} // verus!
