//! Planning the download and installation of dependencies.

use vstd::prelude::*;
use vstd::string::*;

use crate::crate_toml_config::{spec_crate_name, CrateKind, DetailedDependency, Source};
use crate::krate::{
    crate_version_str, crate_version_text, is_index_answer, query_crate_from_index, CrateIndex,
    CrateVersion, IndexError,
};

verus! {

/// Where a dependency's archive comes from and where it is kept, relative to
/// the directory that holds all crates.
#[derive(Debug)]
pub struct FetchTarget {
    /// The address of the archive.
    pub url: String,
    /// The directory of the crate: its name.
    pub crate_dir: String,
    /// The directory of this version inside `crate_dir`: `name-version`.
    pub version_dir: String,
    /// The file the archive is downloaded to: `name-version.zip`.
    pub archive: String,
}

/// The text `name-version` of a resolved dependency.
pub open spec fn dep_version_text(dep: DetailedDependency) -> Seq<char> {
    dep.name@ + seq!['-'] + dep.version@
}

/// The text `name\name-version`: the directory a downloaded archive is
/// unpacked into, written with a backslash.
pub open spec fn unzip_dir_text(dep: DetailedDependency) -> Seq<char> {
    dep.name@ + seq!['\\'] + dep_version_text(dep)
}

/// The url a dependency is downloaded from: none for a local path.
pub open spec fn download_url(source: Source) -> Option<Seq<char>> {
    match source {
        Source::Path(_) => None,
        Source::Normal(u) => Some(u@),
        Source::Git(u) => Some(u@),
    }
}

/// The text `name-version` of a resolved dependency.
pub fn dep_version_str(dep: &DetailedDependency) -> (s: String)
    ensures
        s@ == dep_version_text(*dep),
{
    let mut s = dep.name.clone();
    proof { reveal_strlit("-"); }
    s.append("-");
    s.append(dep.version.as_str());
    s
}

/// The directory, under the crates directory, that a downloaded archive of
/// `dep` is unpacked into: `name\name-version`.
pub fn unzip_dir_name(dep: &DetailedDependency) -> (s: String)
    ensures
        s@ == unzip_dir_text(*dep),
{
    let mut s = dep.name.clone();
    proof { reveal_strlit("\\"); }
    s.append("\\");
    let v = dep_version_str(dep);
    s.append(v.as_str());
    s
}

/// What must be fetched for `dep`: nothing for a dependency on a local path,
/// else its url and the names of its directories and archive.
pub fn fetch_target(dep: &DetailedDependency) -> (r: Option<FetchTarget>)
    ensures
        r is None <==> download_url(dep.source) is None,
        r matches Some(t) ==> {
            &&& download_url(dep.source) == Some(t.url@)
            &&& t.crate_dir@ == dep.name@
            &&& t.version_dir@ == dep_version_text(*dep)
            &&& t.archive@ == dep_version_text(*dep) + seq!['.', 'z', 'i', 'p']
        },
{
    let url = match &dep.source {
        Source::Git(it) => it.clone(),
        Source::Normal(it) => it.clone(),
        Source::Path(_) => return None,
    };
    let version_dir = dep_version_str(dep);
    let mut archive = version_dir.clone();
    proof { reveal_strlit(".zip"); }
    archive.append(".zip");
    Some(FetchTarget { url, crate_dir: dep.name.clone(), version_dir, archive })
}

/// The path components, under the crates directory, of the sources of
/// `dep`: `name`, `name-version`, `src`.
pub open spec fn extern_dir_components(dep: DetailedDependency) -> Seq<Seq<char>> {
    seq![dep.name@, dep_version_text(dep), "src"@]
}

/// The views of a sequence of strings.
pub open spec fn texts(v: Seq<String>) -> Seq<Seq<char>> {
    v.map_values(|s: String| s@)
}

/// The path components, under the crates directory, of the sources of
/// `dep`: `name`, `name-version`, `src`.
pub fn extern_crate_dir(dep: &DetailedDependency) -> (r: Vec<String>)
    ensures
        texts(r@) == extern_dir_components(*dep),
{
    let mut r = Vec::new();
    r.push(dep.name.clone());
    r.push(dep_version_str(dep));
    proof { reveal_strlit("src"); }
    r.push("src".to_owned());
    assert(texts(r@) =~= extern_dir_components(*dep));
    r
}

/// The archives to unpack: for each downloaded entry of `results`, in order,
/// its position and the directory it is unpacked into.
pub open spec fn install_entries<P>(results: Seq<(Option<P>, DetailedDependency)>) -> Seq<(usize, Seq<char>)>
    decreases results.len(),
{
    if results.len() == 0 {
        Seq::empty()
    } else {
        let rest = install_entries(results.drop_last());
        let last = results.last();
        if last.0 is Some {
            rest.push(((results.len() - 1) as usize, unzip_dir_text(last.1)))
        } else {
            rest
        }
    }
}

/// The archives to unpack are exactly the downloaded ones, whatever their
/// source: each entry names a downloaded position of `results` and its
/// unpack directory, the positions increase, and every downloaded position
/// has an entry.
pub proof fn lemma_install_entries_exact<P>(results: Seq<(Option<P>, DetailedDependency)>)
    requires
        results.len() <= usize::MAX,
    ensures
        forall|k: int|
            0 <= k < install_entries(results).len() ==> {
                let e = #[trigger] install_entries(results)[k];
                &&& e.0 < results.len()
                &&& results[e.0 as int].0 is Some
                &&& e.1 == unzip_dir_text(results[e.0 as int].1)
            },
        forall|k1: int, k2: int|
            0 <= k1 < k2 < install_entries(results).len() ==> (#[trigger] install_entries(
                results,
            )[k1]).0 < (#[trigger] install_entries(results)[k2]).0,
        forall|i: int|
            0 <= i < results.len() && (#[trigger] results[i]).0 is Some ==> exists|k: int|
                0 <= k < install_entries(results).len() && install_entries(results)[k].0 == i,
    decreases results.len(),
{
    if results.len() > 0 {
        let prev = results.drop_last();
        lemma_install_entries_exact(prev);
        let rest = install_entries(prev);
        assert forall|i: int| 0 <= i < prev.len() implies #[trigger] prev[i] == results[i] by {}
        assert(forall|k: int| 0 <= k < rest.len() ==> (#[trigger] rest[k]).0 < prev.len());
        if results.last().0 is Some {
            let r = install_entries(results);
            assert(r == rest.push(((results.len() - 1) as usize, unzip_dir_text(results.last().1))));
            assert forall|i: int|
                0 <= i < results.len() && (#[trigger] results[i]).0 is Some implies exists|k: int|
                    0 <= k < r.len() && r[k].0 == i by {
                if i == results.len() - 1 {
                    assert(r[rest.len() as int].0 == i);
                } else {
                    assert(prev[i] == results[i]);
                    let k = choose|k: int| 0 <= k < rest.len() && rest[k].0 == i;
                    assert(r[k] == rest[k]);
                }
            }
        } else {
            assert forall|i: int|
                0 <= i < results.len() && (#[trigger] results[i]).0 is Some implies exists|k: int|
                    0 <= k < install_entries(results).len() && install_entries(results)[k].0 == i by {
                assert(i < results.len() - 1);
                assert(prev[i] == results[i]);
            }
        }
    }
}

/// The view of one planned installation.
pub open spec fn install_view(e: (usize, String)) -> (usize, Seq<char>) {
    (e.0, e.1@)
}

/// What to unpack after downloading: the positions of the entries of
/// `results` that were downloaded, each with its unpack directory.
pub fn install_list<P>(results: &Vec<(Option<P>, DetailedDependency)>) -> (r: Vec<(usize, String)>)
    ensures
        r@.map_values(|e: (usize, String)| install_view(e)) == install_entries(results@),
        forall|k: int|
            0 <= k < r@.len() ==> {
                &&& (#[trigger] r@[k]).0 < results@.len()
                &&& results@[r@[k].0 as int].0 is Some
                &&& r@[k].1@ == unzip_dir_text(results@[r@[k].0 as int].1)
            },
        forall|k1: int, k2: int| 0 <= k1 < k2 < r@.len() ==> (#[trigger] r@[k1]).0 < (#[trigger] r@[k2]).0,
        forall|i: int|
            0 <= i < results@.len() && (#[trigger] results@[i]).0 is Some ==> exists|k: int|
                0 <= k < r@.len() && r@[k].0 == i,
{
    let r = install_list_in_order(results);
    let count = results.len();
    proof {
        assert(results@.len() == count);
        lemma_install_entries_exact(results@);
        let v = r@.map_values(|e: (usize, String)| install_view(e));
        assert forall|k: int| 0 <= k < r@.len() implies #[trigger] v[k] == (r@[k].0, r@[k].1@) by {}
        assert forall|k: int| 0 <= k < r@.len() implies {
            &&& (#[trigger] r@[k]).0 < results@.len()
            &&& results@[r@[k].0 as int].0 is Some
            &&& r@[k].1@ == unzip_dir_text(results@[r@[k].0 as int].1)
        } by {
            assert(v[k] == install_entries(results@)[k]);
        }
        assert forall|k1: int, k2: int| 0 <= k1 < k2 < r@.len() implies (#[trigger] r@[k1]).0 < (
        #[trigger] r@[k2]).0 by {
            assert(v[k1] == install_entries(results@)[k1]);
            assert(v[k2] == install_entries(results@)[k2]);
        }
        assert forall|i: int|
            0 <= i < results@.len() && (#[trigger] results@[i]).0 is Some implies exists|k: int|
                0 <= k < r@.len() && r@[k].0 == i by {
            let k = choose|k: int|
                0 <= k < install_entries(results@).len() && install_entries(results@)[k].0 == i;
            assert(v[k] == install_entries(results@)[k]);
        }
    }
    r
}

fn install_list_in_order<P>(results: &Vec<(Option<P>, DetailedDependency)>) -> (r: Vec<(usize, String)>)
    ensures
        r@.map_values(|e: (usize, String)| install_view(e)) == install_entries(results@),
{
    let mut r: Vec<(usize, String)> = Vec::new();
    let n = results.len();
    let mut i: usize = 0;
    while i < n
        invariant
            n == results@.len(),
            i <= n,
            r@.map_values(|e: (usize, String)| install_view(e)) == install_entries(
                results@.take(i as int),
            ),
        decreases n - i,
    {
        let ghost before = r@;
        assert(results@.take(i + 1).drop_last() =~= results@.take(i as int));
        if results[i].0.is_some() {
            let name = unzip_dir_name(&results[i].1);
            r.push((i, name));
            assert(r@.map_values(|e: (usize, String)| install_view(e)) =~= before.map_values(
                |e: (usize, String)| install_view(e),
            ).push((i, unzip_dir_text(results@[i as int].1))));
        }
        i = i + 1;
    }
    assert(results@.take(n as int) =~= results@);
    r
}

/// The values of a sequence of results that all succeeded.
pub open spec fn ok_values<T, E>(s: Seq<Result<T, E>>) -> Seq<T> {
    s.map_values(|x: Result<T, E>| x->Ok_0)
}

/// The results of several tasks combined: all values when every task
/// succeeded, else the error of the first task that failed.
pub fn collect_results<T, E>(results: Vec<Result<T, E>>) -> (r: Result<Vec<T>, E>)
    ensures
        r matches Ok(v) ==> {
            &&& forall|i: int| 0 <= i < results@.len() ==> (#[trigger] results@[i]) is Ok
            &&& v@ == ok_values(results@)
        },
        r matches Err(e) ==> exists|i: int|
            0 <= i < results@.len() && results@[i] == Err::<T, E>(e) && forall|j: int|
                0 <= j < i ==> (#[trigger] results@[j]) is Ok,
        (forall|i: int| 0 <= i < results@.len() ==> (#[trigger] results@[i]) is Ok) <==> r is Ok,
{
    let ghost all = results@;
    let mut out: Vec<T> = Vec::new();
    for x in it: results.into_iter()
        invariant
            it.seq() == all,
            all == results@,
            forall|j: int| 0 <= j < it.index() ==> (#[trigger] all[j]) is Ok,
            out@ == ok_values(all.take(it.index() as int)),
    {
        let ghost k = it.index();
        assert(all.take(k + 1) =~= all.take(k as int).push(all[k as int]));
        match x {
            Ok(v) => {
                out.push(v);
                assert(out@ =~= ok_values(all.take(k + 1)));
            },
            Err(e) => {
                assert(0 <= k < all.len() && all[k as int] == Err::<T, E>(e) && forall|j: int|
                    0 <= j < k ==> (#[trigger] all[j]) is Ok);
                return Err(e);
            },
        }
    }
    assert(all.take(all.len() as int) =~= all);
    Ok(out)
}

/// What installing a crate from the index takes.
#[derive(Debug)]
pub struct AddCratePlan {
    /// The version to install: the latest one.
    pub version: CrateVersion,
    /// The directory of that version inside the crate's directory:
    /// `name-version`.
    pub version_dir: String,
    /// The file, inside the crate's directory, its archive is downloaded to:
    /// `name-version.zip`.
    pub archive: String,
}

/// What installing the crate `crate_name` takes, given the package index:
/// its latest version, the directory it goes to and the archive file.
pub fn add_crate_plan(index: &CrateIndex, crate_name: &str) -> (r: Result<AddCratePlan, IndexError>)
    ensures
        match r {
            Err(e) => is_index_answer(index.entries(), crate_name@, Err(e)),
            Ok(p) => {
                &&& is_index_answer(index.entries(), crate_name@, Ok(p.version))
                &&& p.version_dir@ == crate_version_text(crate_name@, p.version.version)
                &&& p.archive@ == crate_version_text(crate_name@, p.version.version) + seq![
                    '.',
                    'z',
                    'i',
                    'p',
                ]
            },
        },
{
    let version = match query_crate_from_index(index, crate_name) {
        Ok(v) => v,
        Err(e) => return Err(e),
    };
    let version_dir = crate_version_str(crate_name, &version);
    let mut archive = version_dir.clone();
    proof { reveal_strlit(".zip"); }
    archive.append(".zip");
    Ok(AddCratePlan { version, version_dir, archive })
}

/// What compiling a crate takes once its dependencies are fetched.
#[derive(Debug)]
pub struct CompilePlan {
    /// For each dependency, in order, the path components (under the
    /// crates directory) of its sources, passed as `--extern-crate`.
    pub extern_dirs: Vec<Vec<String>>,
    /// The downloaded archives to unpack: position and directory.
    pub installs: Vec<(usize, String)>,
    /// The name of the output file: the crate's name.
    pub output_name: String,
}

/// What compiling the crate `kind` takes, given the outcome of fetching each
/// of its dependencies (the archive, if one was downloaded, and the
/// resolved dependency).
pub fn compile_plan<P>(kind: &CrateKind, results: &Vec<(Option<P>, DetailedDependency)>) -> (r: CompilePlan)
    ensures
        r.extern_dirs@.len() == results@.len(),
        forall|i: int|
            0 <= i < results@.len() ==> texts(#[trigger] r.extern_dirs@[i]@) == extern_dir_components(
                results@[i].1,
            ),
        r.installs@.map_values(|e: (usize, String)| install_view(e)) == install_entries(results@),
        r.output_name@ == spec_crate_name(*kind),
{
    let mut extern_dirs: Vec<Vec<String>> = Vec::new();
    let n = results.len();
    let mut i: usize = 0;
    while i < n
        invariant
            n == results@.len(),
            i <= n,
            extern_dirs@.len() == i,
            forall|j: int|
                0 <= j < i ==> texts(#[trigger] extern_dirs@[j]@) == extern_dir_components(
                    results@[j].1,
                ),
        decreases n - i,
    {
        extern_dirs.push(extern_crate_dir(&results[i].1));
        i = i + 1;
    }
    CompilePlan { extern_dirs, installs: install_list(results), output_name: kind.crate_name() }
}

/// A crate installed from the index is where a build looks for it: when a
/// dependency on `name` resolves to the version that installing `name`
/// picked, the directory that installing unpacks into (`name-version` under
/// the crate's directory) is the one whose `src` the build passes to the
/// compiler.
pub proof fn lemma_added_crate_found_by_build(
    index: Seq<(String, crate::krate::Crate)>,
    name: Seq<char>,
    plan: AddCratePlan,
    dep: DetailedDependency,
)
    requires
        is_index_answer(index, name, Ok(plan.version)),
        plan.version_dir@ == crate_version_text(name, plan.version.version),
        dep.name@ == name,
        dep.version@ == crate::krate::version_text(plan.version.version),
    ensures
        extern_dir_components(dep) == seq![name, plan.version_dir@, "src"@],
{
    assert(dep_version_text(dep) =~= crate_version_text(name, plan.version.version));
}

} // verus!
