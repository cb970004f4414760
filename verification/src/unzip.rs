//! Reading a zip archive and planning how it is unpacked.

use vstd::prelude::*;
use vstd::string::*;

use crate::crate_manager::texts;

verus! {

/// How many entries `zip::ZipArchive::new` finds in the archive `archive`;
/// `None` when the bytes are not a zip archive it can open.
pub uninterp spec fn zip_entry_count(archive: Seq<u8>) -> Option<nat>;

/// What the zip crate reads for entry `index` of the archive `archive`: the
/// entry's sanitized name (`ZipFile::mangled_name`), whether it is a
/// directory (`ZipFile::is_dir`), the decompressed contents read (all of
/// them, or those read before an error) and whether they were read to the
/// end without error; `None` when the archive or that entry cannot be
/// opened.
pub uninterp spec fn zip_entry_at(archive: Seq<u8>, index: nat) -> Option<(Seq<char>, bool, Seq<u8>, bool)>;

/// The parts of `s` between slashes, as `str::split('/')` gives them.
pub open spec fn split_slash(s: Seq<char>) -> Seq<Seq<char>>
    decreases s.len(),
{
    if s.len() == 0 {
        seq![Seq::<char>::empty()]
    } else {
        let prev = split_slash(s.drop_last());
        if s.last() == '/' {
            prev.push(Seq::<char>::empty())
        } else {
            prev.update(prev.len() - 1, prev.last().push(s.last()))
        }
    }
}

/// The components of a relative path written with `/`: none for the empty
/// path, else the parts between slashes.
pub open spec fn path_components(path: Seq<char>) -> Seq<Seq<char>> {
    if path.len() == 0 {
        Seq::empty()
    } else {
        split_slash(path)
    }
}

/// A path component that stays where it is put: not empty, neither `.` nor
/// `..`, without `/`. This holds where `/` is the only path separator, as
/// on Unix; the zip crate writes names with the platform's separator.
pub open spec fn is_safe_component(c: Seq<char>) -> bool {
    &&& c.len() > 0
    &&& c != seq!['.']
    &&& c != seq!['.', '.']
    &&& forall|j: int| 0 <= j < c.len() ==> c[j] != '/'
}

/// Every component of `components` is safe: the path they make, under a
/// directory, stays inside that directory (where `/` is the only path
/// separator).
pub open spec fn stays_inside(components: Seq<Seq<char>>) -> bool {
    forall|k: int| 0 <= k < components.len() ==> is_safe_component(#[trigger] components[k])
}

/// `zip::ZipArchive::new` on the bytes of an archive, then `len`: the
/// number of its entries, or `None` when the bytes cannot be opened.
#[verifier::external_body]
fn zip_entry_total(archive: &Vec<u8>) -> (r: Option<usize>)
    ensures
        match r {
            None => zip_entry_count(archive@) is None,
            Some(n) => zip_entry_count(archive@) == Some(n as nat),
        },
{
    match zip::ZipArchive::new(std::io::Cursor::new(archive.as_slice())) {
        Ok(zip) => Some(zip.len()),
        Err(_) => None,
    }
}

/// `zip::ZipArchive::new` on the bytes of an archive, then `by_index`,
/// `mangled_name`, `is_dir` and `read_to_end` on entry `index`. The
/// sanitized name is made of normal path components only, joined with `/`:
/// none is empty, `.` or `..`. On a read error `read_to_end` keeps the
/// bytes read before it.
#[verifier::external_body]
fn read_zip_entry(archive: &Vec<u8>, index: usize) -> (r: Option<(String, bool, Vec<u8>, bool)>)
    ensures
        match r {
            None => zip_entry_at(archive@, index as nat) is None,
            Some(e) => zip_entry_at(archive@, index as nat) == Some((e.0@, e.1, e.2@, e.3)),
        },
        r matches Some(e) ==> stays_inside(path_components(e.0@)),
{
    let mut zip = match zip::ZipArchive::new(std::io::Cursor::new(archive.as_slice())) {
        Ok(zip) => zip,
        Err(_) => return None,
    };
    let mut file = match zip.by_index(index) {
        Ok(file) => file,
        Err(_) => return None,
    };
    let mut data = Vec::new();
    let finished = std::io::Read::read_to_end(&mut file, &mut data).is_ok();
    Some((file.mangled_name().to_string_lossy().into_owned(), file.is_dir(), data, finished))
}

proof fn lemma_split_slash_nonempty(s: Seq<char>)
    ensures
        split_slash(s).len() >= 1,
    decreases s.len(),
{
    if s.len() > 0 {
        lemma_split_slash_nonempty(s.drop_last());
    }
}

/// The components of a relative path written with `/`.
pub fn split_path(path: &str) -> (r: Vec<String>)
    ensures
        texts(r@) == path_components(path@),
{
    let n = path.unicode_len();
    let mut out: Vec<String> = Vec::new();
    if n == 0 {
        assert(texts(out@) =~= path_components(path@));
        return out;
    }
    let mut start: usize = 0;
    let mut i: usize = 0;
    assert(path@.take(0) =~= Seq::<char>::empty());
    for c in it: path.chars()
        invariant
            it.seq() == path@,
            n == path@.len(),
            i == it.index(),
            start <= i <= n,
            texts(out@).push(path@.subrange(start as int, i as int)) == split_slash(
                path@.take(i as int),
            ),
    {
        let ghost t = path@.take(i + 1);
        assert(t.drop_last() =~= path@.take(i as int));
        assert(t.last() == c);
        proof {
            lemma_split_slash_nonempty(path@.take(i as int));
        }
        if c == '/' {
            let ghost old_start = start;
            let part = path.substring_char(start, i).to_owned();
            let ghost before = texts(out@);
            out.push(part);
            assert(texts(out@) =~= before.push(path@.subrange(old_start as int, i as int)));
            start = i + 1;
            assert(path@.subrange(start as int, (i + 1) as int) =~= Seq::<char>::empty());
        } else {
            assert(path@.subrange(start as int, (i + 1) as int) =~= path@.subrange(
                start as int,
                i as int,
            ).push(c));
        }
        i = i + 1;
    }
    let last = path.substring_char(start, n).to_owned();
    let ghost before = texts(out@);
    out.push(last);
    assert(texts(out@) =~= before.push(path@.subrange(start as int, n as int)));
    assert(path@.take(n as int) =~= path@);
    out
}

/// One entry of a zip archive: the components of its path, whether it is a
/// directory, and its contents.
#[derive(Debug, Clone, PartialEq, Eq)]
pub struct ZipEntry {
    pub components: Vec<String>,
    pub is_dir: bool,
    pub data: Vec<u8>,
}

/// The view of an entry: path components, directory flag, contents.
pub open spec fn entry_view(e: ZipEntry) -> (Seq<Seq<char>>, bool, Seq<u8>) {
    (texts(e.components@), e.is_dir, e.data@)
}

/// The views of a sequence of entries.
pub open spec fn entries_view(v: Seq<ZipEntry>) -> Seq<(Seq<Seq<char>>, bool, Seq<u8>)> {
    v.map_values(|e: ZipEntry| entry_view(e))
}

/// Entry `index` of the archive as the zip crate reads it, with its name
/// split into components.
pub open spec fn zip_entry_view(archive: Seq<u8>, index: nat) -> Option<(Seq<Seq<char>>, bool, Seq<u8>)> {
    match zip_entry_at(archive, index) {
        Some(e) => Some((path_components(e.0), e.1, e.2)),
        None => None,
    }
}

/// Entry `index` can be unpacked in full: it opens, and it is a directory
/// or its contents were read to the end.
pub open spec fn entry_readable(archive: Seq<u8>, index: nat) -> bool {
    zip_entry_at(archive, index) matches Some(e) && (e.1 || e.3)
}

/// All entries of the archive, in order; `None` when the archive or one of
/// its entries cannot be read in full.
pub open spec fn zip_archive_entries(archive: Seq<u8>) -> Option<Seq<(Seq<Seq<char>>, bool, Seq<u8>)>> {
    match zip_entry_count(archive) {
        None => None,
        Some(n) => if forall|i: nat| i < n ==> #[trigger] entry_readable(archive, i) {
            Some(Seq::new(n, |i: int| zip_entry_view(archive, i as nat)->0))
        } else {
            None
        },
    }
}

/// The entries read from an archive: all of them when `complete`. Else
/// reading stopped at the first entry that cannot be read in full: when
/// that entry could not be opened the entries before it, when its contents
/// broke off the entries up to it, with the contents read before the error.
#[derive(Debug)]
pub struct ZipReading {
    pub entries: Vec<ZipEntry>,
    pub complete: bool,
}

/// Reads the entries of a zip archive in order, stopping at the first one
/// that cannot be read in full (keeping a file whose contents broke off,
/// with what was read of them); `None` when the bytes are not an archive.
pub fn read_zip_entries(archive: &Vec<u8>) -> (r: Option<ZipReading>)
    ensures
        r is None <==> zip_entry_count(archive@) is None,
        r matches Some(rd) ==> {
            let k = rd.entries@.len();
            &&& zip_entry_count(archive@) matches Some(n) && k <= n
            &&& forall|i: int|
                0 <= i < k ==> zip_entry_view(archive@, i as nat) == Some(
                    entry_view(#[trigger] rd.entries@[i]),
                )
            &&& forall|i: nat| i + 1 < k ==> #[trigger] entry_readable(archive@, i)
            &&& rd.complete <==> (zip_entry_count(archive@) == Some(k) && (k == 0 || entry_readable(
                archive@,
                (k - 1) as nat,
            )))
            &&& !rd.complete ==> {
                ||| k > 0 && !entry_readable(archive@, (k - 1) as nat)
                ||| zip_entry_at(archive@, k) is None && (k == 0 || entry_readable(
                    archive@,
                    (k - 1) as nat,
                ))
            }
            &&& forall|i: int| 0 <= i < k ==> stays_inside(texts((#[trigger] rd.entries@[i]).components@))
        },
        zip_archive_entries(archive@) is Some <==> (r is Some && r->0.complete),
        r matches Some(rd) ==> (rd.complete ==> zip_archive_entries(archive@) == Some(
            entries_view(rd.entries@),
        )),
{
    let count = match zip_entry_total(archive) {
        None => return None,
        Some(n) => n,
    };
    let mut entries: Vec<ZipEntry> = Vec::new();
    let mut i: usize = 0;
    while i < count
        invariant
            zip_entry_count(archive@) == Some(count as nat),
            i <= count,
            entries@.len() == i,
            forall|j: int|
                0 <= j < i ==> zip_entry_view(archive@, j as nat) == Some(
                    entry_view(#[trigger] entries@[j]),
                ),
            forall|j: nat| j < i ==> #[trigger] entry_readable(archive@, j),
            forall|j: int| 0 <= j < i ==> stays_inside(texts((#[trigger] entries@[j]).components@)),
        decreases count - i,
    {
        match read_zip_entry(archive, i) {
            None => {
                assert(!(forall|j: nat| j < count ==> #[trigger] entry_readable(archive@, j))) by {
                    assert(!entry_readable(archive@, i as nat));
                }
                proof {
                    if i > 0 {
                        assert(entry_readable(archive@, (i - 1) as nat));
                    }
                }
                return Some(ZipReading { entries, complete: false });
            },
            Some((path, is_dir, data, finished)) => {
                let components = split_path(path.as_str());
                entries.push(ZipEntry { components, is_dir, data });
                if !is_dir && !finished {
                    assert(!(forall|j: nat| j < count ==> #[trigger] entry_readable(archive@, j))) by {
                        assert(!entry_readable(archive@, i as nat));
                    }
                    assert(!entry_readable(archive@, ((i + 1) - 1) as nat));
                    return Some(ZipReading { entries, complete: false });
                }
            },
        }
        i = i + 1;
    }
    proof {
        if count > 0 {
            assert(entry_readable(archive@, (count - 1) as nat));
        }
    }
    assert(entries_view(entries@) =~= Seq::new(
        count as nat,
        |j: int| zip_entry_view(archive@, j as nat)->0,
    ));
    Some(ZipReading { entries, complete: true })
}

/// One step of unpacking an archive into a directory; paths are components
/// under that directory.
#[derive(Debug, PartialEq, Eq)]
pub enum UnpackStep {
    /// Create this directory and any missing parents.
    CreateDir(Vec<String>),
    /// Create the parent directory if it is missing, then write the file.
    WriteFile(Vec<String>, Vec<u8>),
}

/// `step` is how the entry `e` is unpacked: a directory entry is created,
/// a file entry is written with its contents.
pub open spec fn is_step_of(e: ZipEntry, step: UnpackStep) -> bool {
    if e.is_dir {
        step matches UnpackStep::CreateDir(c) && texts(c@) == texts(e.components@)
    } else {
        step matches UnpackStep::WriteFile(c, d) && texts(c@) == texts(e.components@) && d@ == e.data@
    }
}

/// How an entry is unpacked depends only on whether it is a directory: a
/// directory entry is created as a directory, any other entry (also an
/// empty one) is written as a file with its own contents, both at the
/// entry's path.
pub proof fn lemma_step_follows_entry_kind(e: ZipEntry, step: UnpackStep)
    requires
        is_step_of(e, step),
    ensures
        (step is CreateDir) <==> e.is_dir,
        e.is_dir ==> (step matches UnpackStep::CreateDir(c) && texts(c@) == texts(e.components@)),
        !e.is_dir ==> (step matches UnpackStep::WriteFile(c, d) && texts(c@) == texts(e.components@)
            && d@ == e.data@),
{
}

/// The components of the path a step writes to.
pub open spec fn step_components(step: UnpackStep) -> Seq<Seq<char>> {
    match step {
        UnpackStep::CreateDir(c) => texts(c@),
        UnpackStep::WriteFile(c, _) => texts(c@),
    }
}

/// How to unpack these entries: one step per entry, in order.
pub fn unpack_steps(entries: Vec<ZipEntry>) -> (r: Vec<UnpackStep>)
    ensures
        r@.len() == entries@.len(),
        forall|i: int| 0 <= i < entries@.len() ==> is_step_of(entries@[i], #[trigger] r@[i]),
        forall|i: int| 0 <= i < entries@.len() ==> ((#[trigger] r@[i]) is CreateDir <==> entries@[i].is_dir),
        forall|i: int|
            0 <= i < entries@.len() && !entries@[i].is_dir ==> ((#[trigger] r@[i]) matches UnpackStep::WriteFile(c, d)
                && texts(c@) == texts(entries@[i].components@) && d@ == entries@[i].data@),
        forall|i: int|
            0 <= i < entries@.len() && entries@[i].is_dir ==> ((#[trigger] r@[i]) matches UnpackStep::CreateDir(c)
                && texts(c@) == texts(entries@[i].components@)),
        (forall|i: int| 0 <= i < entries@.len() ==> stays_inside(texts((#[trigger] entries@[i]).components@)))
            ==> forall|i: int| 0 <= i < r@.len() ==> stays_inside(step_components(#[trigger] r@[i])),
{
    let ghost all = entries@;
    let mut out: Vec<UnpackStep> = Vec::new();
    for e in it: entries.into_iter()
        invariant
            it.seq() == all,
            out@.len() == it.index(),
            forall|i: int| 0 <= i < it.index() ==> is_step_of(all[i], #[trigger] out@[i]),
    {
        let step = if e.is_dir {
            UnpackStep::CreateDir(e.components)
        } else {
            UnpackStep::WriteFile(e.components, e.data)
        };
        out.push(step);
    }
    proof {
        assert forall|i: int| 0 <= i < all.len() implies ((#[trigger] out@[i]) is CreateDir <==> all[i].is_dir)
            && (!all[i].is_dir ==> (out@[i] matches UnpackStep::WriteFile(c, d) && texts(c@) == texts(
            all[i].components@) && d@ == all[i].data@)) && (all[i].is_dir ==> (out@[i] matches UnpackStep::CreateDir(c)
            && texts(c@) == texts(all[i].components@))) by {
            lemma_step_follows_entry_kind(all[i], out@[i]);
        }
        if forall|i: int| 0 <= i < all.len() ==> stays_inside(texts((#[trigger] all[i]).components@)) {
            assert forall|i: int| 0 <= i < out@.len() implies stays_inside(step_components(#[trigger] out@[i])) by {
                assert(is_step_of(all[i], out@[i]));
                assert(stays_inside(texts(all[i].components@)));
            }
        }
    }
    out
}

} // verus!
