//! The module resolution algorithm.
//!
//! `resolve` maps a raw import specifier plus its context — the importing
//! file and the project root — to the path of an existing file. File-system
//! access is a collaborator: callers hand in a [`FileSystem`] snapshot of the
//! existing paths, and resolution is a pure, deterministic function of the
//! specifier, the context and that snapshot.
//!
//! A specifier beginning with `.` is relative: it is attached to the
//! directory of the importing file, resolving leading `./` and `../`
//! segments lexically and deferring every existence check to the candidate
//! loops below (the strict variant, demanding that the extension-less base
//! path itself exist, would reject ordinary layouts such as `./foo` resolving
//! to `foo.ts`). Every other specifier is rooted: the project root and the
//! specifier are concatenated, with no existence check at that stage. The
//! base path then tries the extensions `tsx, jsx, ts, js` in exactly that
//! order, then `index` files with the same extensions inside the base path
//! taken as a directory; the first existing candidate wins.

use vstd::prelude::*;

use crate::paths::ext_dot;
use crate::paths::join_relative;
use crate::paths::join_relative_path;
use crate::paths::parent_dir;
use crate::paths::parent_dir_of;
use crate::paths::set_path_extension;
use crate::paths::with_extension;

verus! {

/// Snapshot of the file system: the set of paths that exist on disk,
/// files and directories alike. Callers build it once per run.
pub struct FileSystem {
    pub entries: Vec<String>,
}

impl View for FileSystem {
    type V = Set<Seq<char>>;

    open spec fn view(&self) -> Set<Seq<char>> {
        Set::new(
            |p: Seq<char>|
                exists|i: int| 0 <= i < self.entries@.len() && (#[trigger] self.entries@[i])@ == p,
        )
    }
}

impl FileSystem {
    pub fn new() -> (r: Self)
        ensures
            r@ == Set::<Seq<char>>::empty(),
    {
        let r = FileSystem { entries: Vec::new() };
        proof {
            assert(r@ =~= Set::<Seq<char>>::empty());
        }
        r
    }

    /// Records one existing path.
    pub fn add_path(&mut self, p: String)
        ensures
            final(self)@ == old(self)@.insert(p@),
    {
        let ghost s0 = self.entries@;
        self.entries.push(p);
        proof {
            assert forall|q: Seq<char>| self@.contains(q) implies old(self)@.insert(p@).contains(
                q,
            ) by {
                let i = choose|i: int|
                    0 <= i < self.entries@.len() && (#[trigger] self.entries@[i])@ == q;
                if i < s0.len() {
                    assert(s0[i]@ == q);
                    assert(old(self)@.contains(q));
                }
            }
            assert forall|q: Seq<char>| old(self)@.insert(p@).contains(q) implies self@.contains(
                q,
            ) by {
                if q == p@ {
                    assert(self.entries@[s0.len() as int]@ == q);
                } else {
                    let i = choose|i: int| 0 <= i < s0.len() && (#[trigger] s0[i])@ == q;
                    assert(self.entries@[i]@ == q);
                }
            }
            assert(self@ =~= old(self)@.insert(p@));
        }
    }

    /// Whether `p` exists in the snapshot.
    pub fn contains_path(&self, p: &String) -> (r: bool)
        ensures
            r == self@.contains(p@),
    {
        let mut i: usize = 0;
        while i < self.entries.len()
            invariant
                i <= self.entries@.len(),
                forall|j: int| 0 <= j < i ==> (#[trigger] self.entries@[j])@ != p@,
            decreases self.entries@.len() - i,
        {
            if self.entries[i] == *p {
                return true;
            }
            i += 1;
        }
        false
    }
}

/// The fatal per-file events: a specifier no candidate file exists for, a
/// relative path whose `..` segments escape the importing file's directory,
/// and a source file the parser collaborator rejected.
#[derive(Debug)]
pub enum AnalysisError {
    ModuleNotFound { specifier: String, from_file: String },
    PathResolutionFailure { specifier: String, from_file: String },
    ParseFailure { file: String, message: String, line: u64, column: u64 },
}

/// The mathematical value of an [`AnalysisError`].
pub ghost enum ErrorView {
    ModuleNotFound { specifier: Seq<char>, from_file: Seq<char> },
    PathResolutionFailure { specifier: Seq<char>, from_file: Seq<char> },
    ParseFailure { file: Seq<char>, message: Seq<char>, line: u64, column: u64 },
}

impl View for AnalysisError {
    type V = ErrorView;

    open spec fn view(&self) -> ErrorView {
        match self {
            AnalysisError::ModuleNotFound { specifier, from_file } => ErrorView::ModuleNotFound {
                specifier: specifier@,
                from_file: from_file@,
            },
            AnalysisError::PathResolutionFailure {
                specifier,
                from_file,
            } => ErrorView::PathResolutionFailure { specifier: specifier@, from_file: from_file@ },
            AnalysisError::ParseFailure { file, message, line, column } => ErrorView::ParseFailure {
                file: file@,
                message: message@,
                line: *line,
                column: *column,
            },
        }
    }
}

/// A specifier is relative iff it begins with `.`; everything else is
/// rooted, resolved against the project root.
pub open spec fn is_relative(specifier: Seq<char>) -> bool {
    specifier.len() > 0 && specifier[0] == '.'
}

/// The extension-less base path of a specifier, or `None` when a relative
/// specifier's `..` segments escape the importing file's directory.
pub open spec fn base_path(
    specifier: Seq<char>,
    current_file: Seq<char>,
    project_root: Seq<char>,
) -> Option<Seq<char>> {
    if is_relative(specifier) {
        join_relative(parent_dir(current_file), specifier)
    } else {
        Some(project_root + seq!['/'] + specifier)
    }
}

/// The first existing candidate `base` with an extension, in the fixed
/// priority order `tsx, jsx, ts, js`.
pub open spec fn first_ext_match(base: Seq<char>, fs: Set<Seq<char>>) -> Option<Seq<char>> {
    if fs.contains(with_extension(base, "tsx"@)) {
        Some(with_extension(base, "tsx"@))
    } else if fs.contains(with_extension(base, "jsx"@)) {
        Some(with_extension(base, "jsx"@))
    } else if fs.contains(with_extension(base, "ts"@)) {
        Some(with_extension(base, "ts"@))
    } else if fs.contains(with_extension(base, "js"@)) {
        Some(with_extension(base, "js"@))
    } else {
        None
    }
}

/// The `index` file candidate inside `base` taken as a directory.
pub open spec fn index_candidate(base: Seq<char>, ext: Seq<char>) -> Seq<char> {
    base + "/index."@ + ext
}

/// The first existing `index` candidate, in the same priority order.
pub open spec fn first_index_match(base: Seq<char>, fs: Set<Seq<char>>) -> Option<Seq<char>> {
    if fs.contains(index_candidate(base, "tsx"@)) {
        Some(index_candidate(base, "tsx"@))
    } else if fs.contains(index_candidate(base, "jsx"@)) {
        Some(index_candidate(base, "jsx"@))
    } else if fs.contains(index_candidate(base, "ts"@)) {
        Some(index_candidate(base, "ts"@))
    } else if fs.contains(index_candidate(base, "js"@)) {
        Some(index_candidate(base, "js"@))
    } else {
        None
    }
}

/// What resolution returns, as a function of its four inputs and nothing
/// else: the first existing extension candidate of the base path, then the
/// first existing index candidate, else `ModuleNotFound`; a base path that
/// cannot be formed is `PathResolutionFailure`. Both errors carry the
/// specifier and the importing file.
pub open spec fn resolve_spec(
    specifier: Seq<char>,
    current_file: Seq<char>,
    project_root: Seq<char>,
    fs: Set<Seq<char>>,
) -> Result<Seq<char>, ErrorView> {
    match base_path(specifier, current_file, project_root) {
        None => Err(ErrorView::PathResolutionFailure { specifier, from_file: current_file }),
        Some(base) => match first_ext_match(base, fs) {
            Some(p) => Ok(p),
            None => match first_index_match(base, fs) {
                Some(p) => Ok(p),
                None => Err(ErrorView::ModuleNotFound { specifier, from_file: current_file }),
            },
        },
    }
}

fn index_candidate_path(base: &String, ext: &str) -> (r: String)
    ensures
        r@ == index_candidate(base@, ext@),
{
    let mut out = base.clone();
    out.append("/index.");
    out.append(ext);
    out
}

/// Resolves `specifier`, imported by `current_file` under `project_root`,
/// against the file-system snapshot `fs`. Returns exactly what
/// [`resolve_spec`] denotes: the same inputs always give the same path or
/// the same error.
pub fn resolve(
    specifier: &String,
    current_file: &String,
    project_root: &String,
    fs: &FileSystem,
) -> (r: Result<String, AnalysisError>)
    ensures
        match r {
            Ok(p) => resolve_spec(specifier@, current_file@, project_root@, fs@) == Ok::<
                Seq<char>,
                ErrorView,
            >(p@),
            Err(e) => resolve_spec(specifier@, current_file@, project_root@, fs@) == Err::<
                Seq<char>,
                ErrorView,
            >(e@),
        },
{
    let slen = specifier.as_str().unicode_len();
    let relative = slen > 0 && specifier.as_str().get_char(0) == '.';
    let base: String;
    if relative {
        let dir = parent_dir_of(current_file.as_str());
        match join_relative_path(dir.as_str(), specifier.as_str()) {
            Some(b) => {
                base = b;
            },
            None => {
                return Err(
                    AnalysisError::PathResolutionFailure {
                        specifier: specifier.clone(),
                        from_file: current_file.clone(),
                    },
                );
            },
        }
    } else {
        let mut b = project_root.clone();
        b.append("/");
        b.append(specifier.as_str());
        proof {
            reveal_strlit("/");
            assert("/"@ =~= seq!['/']);
        }
        base = b;
    }
    proof {
        assert(base_path(specifier@, current_file@, project_root@) == Some(base@));
    }
    let c_tsx = set_path_extension(base.as_str(), "tsx");
    if fs.contains_path(&c_tsx) {
        return Ok(c_tsx);
    }
    let c_jsx = set_path_extension(base.as_str(), "jsx");
    if fs.contains_path(&c_jsx) {
        return Ok(c_jsx);
    }
    let c_ts = set_path_extension(base.as_str(), "ts");
    if fs.contains_path(&c_ts) {
        return Ok(c_ts);
    }
    let c_js = set_path_extension(base.as_str(), "js");
    if fs.contains_path(&c_js) {
        return Ok(c_js);
    }
    let i_tsx = index_candidate_path(&base, "tsx");
    if fs.contains_path(&i_tsx) {
        return Ok(i_tsx);
    }
    let i_jsx = index_candidate_path(&base, "jsx");
    if fs.contains_path(&i_jsx) {
        return Ok(i_jsx);
    }
    let i_ts = index_candidate_path(&base, "ts");
    if fs.contains_path(&i_ts) {
        return Ok(i_ts);
    }
    let i_js = index_candidate_path(&base, "js");
    if fs.contains_path(&i_js) {
        return Ok(i_js);
    }
    Err(
        AnalysisError::ModuleNotFound {
            specifier: specifier.clone(),
            from_file: current_file.clone(),
        },
    )
}

/// Determinism law: resolution is a function of the specifier, the importing
/// file, the project root and the file-system state alone, so any two
/// results obtained for the same four inputs are the same path or the same
/// error.
pub proof fn lemma_resolve_deterministic(
    specifier: Seq<char>,
    current_file: Seq<char>,
    project_root: Seq<char>,
    fs: Set<Seq<char>>,
    r1: Result<Seq<char>, ErrorView>,
    r2: Result<Seq<char>, ErrorView>,
)
    requires
        r1 == resolve_spec(specifier, current_file, project_root, fs),
        r2 == resolve_spec(specifier, current_file, project_root, fs),
    ensures
        r1 == r2,
{
}

/// Extension priority law: for a rooted specifier whose `ts` and `js`
/// candidates both exist and whose `tsx` and `jsx` candidates do not,
/// resolution returns the `ts` candidate — never the `js` one.
pub proof fn lemma_extension_priority(
    specifier: Seq<char>,
    current_file: Seq<char>,
    project_root: Seq<char>,
    fs: Set<Seq<char>>,
)
    requires
        !is_relative(specifier),
        fs.contains(with_extension(project_root + seq!['/'] + specifier, "ts"@)),
        fs.contains(with_extension(project_root + seq!['/'] + specifier, "js"@)),
        !fs.contains(with_extension(project_root + seq!['/'] + specifier, "tsx"@)),
        !fs.contains(with_extension(project_root + seq!['/'] + specifier, "jsx"@)),
    ensures
        resolve_spec(specifier, current_file, project_root, fs) == Ok::<Seq<char>, ErrorView>(
            with_extension(project_root + seq!['/'] + specifier, "ts"@),
        ),
{
}

/// Strict priority law: whenever the `ts` candidate of the base path
/// exists, resolution succeeds and never returns the `js` candidate — some
/// higher-priority extension always wins.
pub proof fn lemma_never_js_when_ts_exists(
    specifier: Seq<char>,
    current_file: Seq<char>,
    project_root: Seq<char>,
    fs: Set<Seq<char>>,
    base: Seq<char>,
)
    requires
        base_path(specifier, current_file, project_root) == Some(base),
        fs.contains(with_extension(base, "ts"@)),
    ensures
        resolve_spec(specifier, current_file, project_root, fs) is Ok,
        resolve_spec(specifier, current_file, project_root, fs) != Ok::<Seq<char>, ErrorView>(
            with_extension(base, "js"@),
        ),
{
    reveal_strlit("tsx");
    reveal_strlit("jsx");
    reveal_strlit("ts");
    reveal_strlit("js");
    let stem = match ext_dot(base) {
        Some(j) => base.take(j),
        None => base,
    };
    assert(with_extension(base, "tsx"@).len() == stem.len() + 4);
    assert(with_extension(base, "jsx"@).len() == stem.len() + 4);
    assert(with_extension(base, "ts"@).len() == stem.len() + 3);
    assert(with_extension(base, "js"@).len() == stem.len() + 3);
    assert(with_extension(base, "ts"@)[stem.len() as int + 1] == 't');
    assert(with_extension(base, "js"@)[stem.len() as int + 1] == 'j');
    assert(with_extension(base, "ts"@) != with_extension(base, "js"@));
}

/// Index fallback law: for a rooted specifier with no direct extension
/// candidate on disk whose base directory holds only `index.js`, resolution
/// returns `<base>/index.js`.
pub proof fn lemma_index_fallback(
    specifier: Seq<char>,
    current_file: Seq<char>,
    project_root: Seq<char>,
    fs: Set<Seq<char>>,
)
    requires
        !is_relative(specifier),
        !fs.contains(with_extension(project_root + seq!['/'] + specifier, "tsx"@)),
        !fs.contains(with_extension(project_root + seq!['/'] + specifier, "jsx"@)),
        !fs.contains(with_extension(project_root + seq!['/'] + specifier, "ts"@)),
        !fs.contains(with_extension(project_root + seq!['/'] + specifier, "js"@)),
        !fs.contains(index_candidate(project_root + seq!['/'] + specifier, "tsx"@)),
        !fs.contains(index_candidate(project_root + seq!['/'] + specifier, "jsx"@)),
        !fs.contains(index_candidate(project_root + seq!['/'] + specifier, "ts"@)),
        fs.contains(index_candidate(project_root + seq!['/'] + specifier, "js"@)),
    ensures
        resolve_spec(specifier, current_file, project_root, fs) == Ok::<Seq<char>, ErrorView>(
            index_candidate(project_root + seq!['/'] + specifier, "js"@),
        ),
{
}

/// Failure law: when the base path forms but no extension candidate and no
/// index candidate exists, resolution reports `ModuleNotFound` carrying the
/// offending specifier and the importing file — never a silently empty
/// result.
pub proof fn lemma_module_not_found(
    specifier: Seq<char>,
    current_file: Seq<char>,
    project_root: Seq<char>,
    fs: Set<Seq<char>>,
    base: Seq<char>,
)
    requires
        base_path(specifier, current_file, project_root) == Some(base),
        !fs.contains(with_extension(base, "tsx"@)),
        !fs.contains(with_extension(base, "jsx"@)),
        !fs.contains(with_extension(base, "ts"@)),
        !fs.contains(with_extension(base, "js"@)),
        !fs.contains(index_candidate(base, "tsx"@)),
        !fs.contains(index_candidate(base, "jsx"@)),
        !fs.contains(index_candidate(base, "ts"@)),
        !fs.contains(index_candidate(base, "js"@)),
    ensures
        resolve_spec(specifier, current_file, project_root, fs) == Err::<Seq<char>, ErrorView>(
            ErrorView::ModuleNotFound { specifier, from_file: current_file },
        ),
{
}

} // verus!
