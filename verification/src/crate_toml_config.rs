//! The crate manifest (`Antman.toml`) and the resolution of its dependencies.

use vstd::prelude::*;

use crate::krate::{
    is_index_answer, query_crate_from_index, version_text, CrateIndex, CrateVersion, Crate,
    IndexError,
};

verus! {

/// Where the files of a dependency come from.
#[derive(Debug, Clone)]
pub enum Source {
    /// A directory on this machine.
    Path(String),
    /// An archive published in the package index.
    Normal(String),
    /// A git repository.
    Git(String),
}

/// A dependency as the manifest writes it: a bare version, or a table.
#[derive(Debug, Clone)]
pub enum DependencyValue {
    Version(String),
    Detailed(DependencyDetail),
}

/// The table form of a dependency.
#[derive(Debug, Clone)]
pub struct DependencyDetail {
    pub version: Option<String>,
    pub path: Option<String>,
    pub git: Option<String>,
}

/// A dependency with its name, version and source all known.
#[derive(Debug, Clone)]
pub struct DetailedDependency {
    pub name: String,
    pub version: String,
    pub path: Option<String>,
    pub source: Source,
}

/// The dependencies of a crate, by name, each name at most once.
#[derive(Debug)]
pub struct Deps {
    deps: Vec<(String, DependencyValue)>,
}

/// Every dependency name occurs at most once, as in a map.
pub open spec fn deps_names_unique(deps: Seq<(String, DependencyValue)>) -> bool {
    forall|i: int, j: int|
        0 <= i < j < deps.len() ==> (#[trigger] deps[i]).0@ != (#[trigger] deps[j]).0@
}

impl Deps {
    /// The dependencies, in order.
    pub closed spec fn entries(&self) -> Seq<(String, DependencyValue)> {
        self.deps@
    }

    /// No name occurs twice.
    #[verifier::type_invariant]
    spec fn names_unique(&self) -> bool {
        deps_names_unique(self.deps@)
    }

    /// No dependencies.
    pub fn empty() -> (r: Deps)
        ensures
            r.entries().len() == 0,
    {
        Deps { deps: Vec::new() }
    }

    /// The dependencies given; `None` when a name occurs twice.
    pub fn from_entries(deps: Vec<(String, DependencyValue)>) -> (r: Option<Deps>)
        ensures
            r is Some <==> deps_names_unique(deps@),
            r matches Some(d) ==> d.entries() == deps@,
    {
        let n = deps.len();
        let mut i: usize = 0;
        while i < n
            invariant
                n == deps@.len(),
                i <= n,
                forall|a: int, b: int|
                    0 <= a < b < i ==> (#[trigger] deps@[a]).0@ != (#[trigger] deps@[b]).0@,
            decreases n - i,
        {
            let mut j: usize = 0;
            while j < i
                invariant
                    n == deps@.len(),
                    j <= i < n,
                    forall|a: int| 0 <= a < j ==> (#[trigger] deps@[a]).0@ != deps@[i as int].0@,
                decreases i - j,
            {
                if deps[j].0 == deps[i].0 {
                    assert(!deps_names_unique(deps@)) by {
                        assert(deps@[j as int].0@ == deps@[i as int].0@);
                    }
                    return None;
                }
                j = j + 1;
            }
            proof {
                assert forall|a: int, b: int|
                    0 <= a < b < i + 1 implies (#[trigger] deps@[a]).0@ != (
                    #[trigger] deps@[b]).0@ by {
                    if b == i {
                        assert(deps@[a].0@ != deps@[i as int].0@);
                    }
                }
            }
            i = i + 1;
        }
        Some(Deps { deps })
    }

    /// The dependencies, in order; no name occurs twice.
    pub fn entries_vec(&self) -> (r: &Vec<(String, DependencyValue)>)
        ensures
            r@ == self.entries(),
            deps_names_unique(r@),
    {
        proof {
            use_type_invariant(self);
        }
        &self.deps
    }
}

/// The `[package]` table of a manifest.
#[derive(Debug)]
pub struct Package {
    pub name: String,
    pub version: String,
    pub edition: String,
}

/// The `[lib]` table of a manifest.
#[derive(Debug)]
pub struct Lib {
    pub name: String,
    pub version: String,
    pub edition: String,
}

/// What a manifest describes: a program package or a library.
#[derive(Debug)]
pub enum CrateKind {
    Package { package: Package },
    Lib { lib: Lib },
}

/// A parsed `Antman.toml`.
#[derive(Debug)]
pub struct CrateConfig {
    pub kind: CrateKind,
    pub dependencies: Deps,
}

/// The text of an optional string, empty when absent.
pub open spec fn text_or_empty(o: Option<String>) -> Seq<char> {
    match o {
        Some(s) => s@,
        None => Seq::empty(),
    }
}

/// The view of an optional string.
pub open spec fn opt_view(o: Option<String>) -> Option<Seq<char>> {
    match o {
        Some(s) => Some(s@),
        None => None,
    }
}

/// `d` is the dependency `name` at `version`, published in the index at `url`.
pub open spec fn is_indexed_dependency(
    d: DetailedDependency,
    name: Seq<char>,
    version: Seq<char>,
    url: Seq<char>,
) -> bool {
    &&& d.name@ == name
    &&& d.version@ == version
    &&& d.path is None
    &&& d.source matches Source::Normal(u) && u@ == url
}

/// Whether resolving this dependency needs the package index: it names
/// neither a git repository nor a path.
pub open spec fn spec_needs_index(dep: DependencyValue) -> bool {
    match dep {
        DependencyValue::Version(_) => true,
        DependencyValue::Detailed(d) => d.git is None && d.path is None,
    }
}

/// `r` is what resolving the dependency `dep` called `name` gives, with
/// `entries` as the package index:
/// - a bare version keeps that version and takes the url of the latest
///   published version;
/// - a table with `git` comes from that repository, with its version (or
///   an empty one) and its path;
/// - a table with `path` (and no `git`) comes from that directory;
/// - any other table takes version and url of the latest published version;
/// - an index that has no version of the crate gives its error.
pub open spec fn resolves_to(
    dep: DependencyValue,
    name: Seq<char>,
    entries: Seq<(String, Crate)>,
    r: Result<DetailedDependency, IndexError>,
) -> bool {
    match dep {
        DependencyValue::Version(v) => match r {
            Err(e) => is_index_answer(entries, name, Err(e)),
            Ok(d) => exists|cv: CrateVersion|
                is_index_answer(entries, name, Ok(cv)) && is_indexed_dependency(d, name, v@, cv.url@),
        },
        DependencyValue::Detailed(detail) => match detail.git {
            Some(g) => r matches Ok(d) && {
                &&& d.name@ == name
                &&& d.version@ == text_or_empty(detail.version)
                &&& opt_view(d.path) == opt_view(detail.path)
                &&& d.source matches Source::Git(s) && s@ == g@
            },
            None => match detail.path {
                Some(p) => r matches Ok(d) && {
                    &&& d.name@ == name
                    &&& d.version@ == text_or_empty(detail.version)
                    &&& d.path matches Some(q) && q@ == p@
                    &&& d.source matches Source::Path(s) && s@ == p@
                },
                None => match r {
                    Err(e) => is_index_answer(entries, name, Err(e)),
                    Ok(d) => exists|cv: CrateVersion|
                        is_index_answer(entries, name, Ok(cv)) && is_indexed_dependency(
                            d,
                            name,
                            version_text(cv.version),
                            cv.url@,
                        ),
                },
            },
        },
    }
}

/// What resolving keeps of what the manifest writes: the name always; a
/// bare version as the version; for a table with `git` or `path`, the
/// table's own version (empty only when the table has none) and its path,
/// with the source taken from `git` when present, else from `path`.
pub proof fn lemma_resolve_keeps_manifest(
    dep: DependencyValue,
    name: Seq<char>,
    entries: Seq<(String, Crate)>,
    r: Result<DetailedDependency, IndexError>,
)
    requires
        resolves_to(dep, name, entries, r),
    ensures
        r matches Ok(d) ==> d.name@ == name,
        dep is Version && r is Ok ==> {
            &&& r->Ok_0.version@ == dep->Version_0@
            &&& r->Ok_0.source is Normal
            &&& r->Ok_0.path is None
        },
        dep is Detailed && (dep->Detailed_0.git is Some || dep->Detailed_0.path is Some) ==> {
            &&& r is Ok
            &&& dep->Detailed_0.version is Some ==> r->Ok_0.version@ == dep->Detailed_0.version->0@
            &&& dep->Detailed_0.version is None ==> r->Ok_0.version@.len() == 0
        },
        dep is Detailed && dep->Detailed_0.git is Some ==> {
            &&& r is Ok
            &&& r->Ok_0.source is Git
            &&& r->Ok_0.source->Git_0@ == dep->Detailed_0.git->0@
            &&& opt_view(r->Ok_0.path) == opt_view(dep->Detailed_0.path)
        },
        dep is Detailed && dep->Detailed_0.git is None && dep->Detailed_0.path is Some ==> {
            &&& r is Ok
            &&& r->Ok_0.source is Path
            &&& r->Ok_0.source->Path_0@ == dep->Detailed_0.path->0@
            &&& opt_view(r->Ok_0.path) == opt_view(dep->Detailed_0.path)
        },
{
    match dep {
        DependencyValue::Version(v) => {
            if let Ok(d) = r {
                let cv = choose|cv: CrateVersion|
                    is_index_answer(entries, name, Ok(cv)) && is_indexed_dependency(d, name, v@, cv.url@);
            }
        },
        DependencyValue::Detailed(detail) => {
            if detail.git is None && detail.path is None {
                if let Ok(d) = r {
                    let cv = choose|cv: CrateVersion|
                        is_index_answer(entries, name, Ok(cv)) && is_indexed_dependency(
                            d,
                            name,
                            version_text(cv.version),
                            cv.url@,
                        );
                }
            }
        },
    }
}

fn copy_text_or_empty(o: &Option<String>) -> (r: String)
    ensures
        r@ == text_or_empty(*o),
{
    match o {
        Some(s) => s.clone(),
        None => String::new(),
    }
}

fn copy_opt(o: &Option<String>) -> (r: Option<String>)
    ensures
        opt_view(r) == opt_view(*o),
{
    match o {
        Some(s) => Some(s.clone()),
        None => None,
    }
}

impl DependencyValue {
    /// Whether resolving this dependency consults the package index.
    pub fn needs_index(&self) -> (r: bool)
        ensures
            r == spec_needs_index(*self),
    {
        match self {
            DependencyValue::Version(_) => true,
            DependencyValue::Detailed(d) => d.git.is_none() && d.path.is_none(),
        }
    }

    /// Resolves this dependency, called `crate_name`, into its version and
    /// source, looking the crate up in `index` where it must.
    pub fn resolve(&self, crate_name: &str, index: &CrateIndex) -> (r: Result<DetailedDependency, IndexError>)
        ensures
            resolves_to(*self, crate_name@, index.entries(), r),
            !spec_needs_index(*self) ==> r is Ok,
            r matches Ok(d) ==> d.name@ == crate_name@,
            *self is Version && r is Ok ==> r->Ok_0.version@ == self->Version_0@,
            *self is Detailed && (self->Detailed_0.git is Some || self->Detailed_0.path is Some) ==> {
                &&& r is Ok
                &&& self->Detailed_0.version is Some ==> r->Ok_0.version@
                    == self->Detailed_0.version->0@
                &&& self->Detailed_0.version is None ==> r->Ok_0.version@.len() == 0
            },
            *self is Detailed && self->Detailed_0.git is None && self->Detailed_0.path is Some ==> {
                &&& r->Ok_0.source is Path
                &&& r->Ok_0.source->Path_0@ == self->Detailed_0.path->0@
                &&& opt_view(r->Ok_0.path) == opt_view(self->Detailed_0.path)
            },
    {
        let r = self.resolve_in(crate_name, index);
        proof {
            lemma_resolve_keeps_manifest(*self, crate_name@, index.entries(), r);
        }
        r
    }

    fn resolve_in(&self, crate_name: &str, index: &CrateIndex) -> (r: Result<DetailedDependency, IndexError>)
        ensures
            resolves_to(*self, crate_name@, index.entries(), r),
            !spec_needs_index(*self) ==> r is Ok,
            r matches Ok(d) ==> d.name@ == crate_name@,
    {
        match self {
            DependencyValue::Version(v) => match query_crate_from_index(index, crate_name) {
                Err(e) => Err(e),
                Ok(crate_ver) => Ok(
                    DetailedDependency {
                        name: crate_name.to_owned(),
                        version: v.clone(),
                        path: None,
                        source: Source::Normal(crate_ver.url),
                    },
                ),
            },
            DependencyValue::Detailed(d) => {
                if let Some(git) = &d.git {
                    return Ok(
                        DetailedDependency {
                            name: crate_name.to_owned(),
                            version: copy_text_or_empty(&d.version),
                            path: copy_opt(&d.path),
                            source: Source::Git(git.clone()),
                        },
                    );
                }
                if let Some(path) = &d.path {
                    return Ok(
                        DetailedDependency {
                            name: crate_name.to_owned(),
                            version: copy_text_or_empty(&d.version),
                            path: Some(path.clone()),
                            source: Source::Path(path.clone()),
                        },
                    );
                }
                match query_crate_from_index(index, crate_name) {
                    Err(e) => Err(e),
                    Ok(crate_ver) => Ok(
                        DetailedDependency {
                            name: crate_name.to_owned(),
                            version: crate_ver.version.to_string(),
                            path: None,
                            source: Source::Normal(crate_ver.url),
                        },
                    ),
                }
            },
        }
    }
}

/// The name of the crate a manifest describes.
pub open spec fn spec_crate_name(kind: CrateKind) -> Seq<char> {
    match kind {
        CrateKind::Package { package } => package.name@,
        CrateKind::Lib { lib } => lib.name@,
    }
}

impl CrateKind {
    /// The name of the crate: that of its `[package]` or of its `[lib]`.
    pub fn crate_name(&self) -> (r: String)
        ensures
            r@ == spec_crate_name(*self),
    {
        match self {
            CrateKind::Package { package } => package.name.clone(),
            CrateKind::Lib { lib } => lib.name.clone(),
        }
    }

    /// Whether the manifest describes a library.
    pub fn is_lib(&self) -> (r: bool)
        ensures
            r == (*self is Lib),
    {
        match self {
            CrateKind::Lib { .. } => true,
            CrateKind::Package { .. } => false,
        }
    }
}

} // verus!
