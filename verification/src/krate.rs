//! Crate versions, the package index and the choice of the latest version.

use vstd::prelude::*;
use vstd::string::*;

use crate::decimal::{
    all_digits, decimal, is_digit, lemma_decimal_digits, lemma_parse_of_decimal, parse_u64,
    push_decimal,
};

verus! {

/// Name of the library entry file of a crate.
pub const LIB_TA: &'static str = "lib.ta";

/// Name of the program entry file of a crate.
pub const MAIN_TA: &'static str = "main.ta";

/// A version number `major.minor.patch`, ordered lexicographically.
#[derive(Debug, Clone, Copy, PartialEq, Eq, Structural, PartialOrd, Ord, Hash)]
pub struct Version(pub usize, pub usize, pub usize);

/// `a <= b` in the lexicographic order of versions.
pub open spec fn version_le(a: Version, b: Version) -> bool {
    ||| a.0 < b.0
    ||| a.0 == b.0 && a.1 < b.1
    ||| a.0 == b.0 && a.1 == b.1 && a.2 <= b.2
}

/// `a < b` in the lexicographic order of versions.
pub open spec fn version_lt(a: Version, b: Version) -> bool {
    version_le(a, b) && a != b
}

/// The text of a version: its three numbers in decimal, joined by dots.
pub open spec fn version_text(v: Version) -> Seq<char> {
    decimal(v.0 as nat) + seq!['.'] + decimal(v.1 as nat) + seq!['.'] + decimal(v.2 as nat)
}

/// The order of versions is a total order: reflexive, antisymmetric,
/// transitive and total.
pub proof fn lemma_version_order_is_total(a: Version, b: Version, c: Version)
    ensures
        version_le(a, a),
        version_le(a, b) && version_le(b, a) ==> a == b,
        version_le(a, b) && version_le(b, c) ==> version_le(a, c),
        version_le(a, b) || version_le(b, a),
        version_lt(a, b) <==> !version_le(b, a),
{
}

/// The parts of `s` between occurrences of `sep`, as `str::split(sep)`
/// gives them.
pub open spec fn split_at_char(s: Seq<char>, sep: char) -> Seq<Seq<char>>
    decreases s.len(),
{
    if s.len() == 0 {
        seq![Seq::<char>::empty()]
    } else {
        let prev = split_at_char(s.drop_last(), sep);
        if s.last() == sep {
            prev.push(Seq::<char>::empty())
        } else {
            prev.update(prev.len() - 1, prev.last().push(s.last()))
        }
    }
}

proof fn lemma_split_at_char_nonempty(s: Seq<char>, sep: char)
    ensures
        split_at_char(s, sep).len() >= 1,
    decreases s.len(),
{
    if s.len() > 0 {
        lemma_split_at_char_nonempty(s.drop_last(), sep);
    }
}

/// Appending text without the separator extends the last part.
proof fn lemma_split_at_char_append(x: Seq<char>, t: Seq<char>, sep: char)
    requires
        forall|j: int| 0 <= j < t.len() ==> t[j] != sep,
    ensures
        split_at_char(x + t, sep) == split_at_char(x, sep).update(
            split_at_char(x, sep).len() - 1,
            split_at_char(x, sep).last() + t,
        ),
    decreases t.len(),
{
    lemma_split_at_char_nonempty(x, sep);
    let px = split_at_char(x, sep);
    if t.len() == 0 {
        assert(x + t =~= x);
        assert(px.last() + t =~= px.last());
        assert(px.update(px.len() - 1, px.last()) =~= px);
    } else {
        let t0 = t.drop_last();
        lemma_split_at_char_append(x, t0, sep);
        assert((x + t).drop_last() =~= x + t0);
        assert((x + t).last() == t.last());
        let prev = split_at_char(x + t0, sep);
        assert(prev == px.update(px.len() - 1, px.last() + t0));
        assert(prev.last() == px.last() + t0);
        assert(prev.last().push(t.last()) =~= px.last() + t);
        assert(prev.update(prev.len() - 1, prev.last().push(t.last())) =~= px.update(
            px.len() - 1,
            px.last() + t,
        ));
    }
}

proof fn lemma_decimal_has_no_dot(n: nat)
    ensures
        forall|j: int| 0 <= j < decimal(n).len() ==> decimal(n)[j] != '.',
{
    lemma_decimal_digits(n);
    assert forall|j: int| 0 <= j < decimal(n).len() implies decimal(n)[j] != '.' by {
        assert(is_digit(decimal(n)[j]));
    }
}

/// Reading back the text of a version gives the version: split at its dots,
/// the text has three parts, and they parse (as `str::parse::<u64>` does)
/// to the major, minor and patch numbers.
pub proof fn lemma_version_text_reads_back(v: Version)
    ensures
        split_at_char(version_text(v), '.').len() == 3,
        parse_u64(split_at_char(version_text(v), '.')[0]) == Some(v.0 as u64),
        parse_u64(split_at_char(version_text(v), '.')[1]) == Some(v.1 as u64),
        parse_u64(split_at_char(version_text(v), '.')[2]) == Some(v.2 as u64),
{
    let d0 = decimal(v.0 as nat);
    let d1 = decimal(v.1 as nat);
    let d2 = decimal(v.2 as nat);
    lemma_decimal_has_no_dot(v.0 as nat);
    lemma_decimal_has_no_dot(v.1 as nat);
    lemma_decimal_has_no_dot(v.2 as nat);
    let e = Seq::<char>::empty();
    assert(split_at_char(e, '.') == seq![e]);
    lemma_split_at_char_append(e, d0, '.');
    assert(e + d0 =~= d0);
    let s0 = split_at_char(d0, '.');
    assert(s0 =~= seq![d0]);
    let x1 = d0.push('.');
    assert(x1.drop_last() =~= d0);
    let s1 = split_at_char(x1, '.');
    assert(s1 =~= seq![d0, e]);
    lemma_split_at_char_append(x1, d1, '.');
    let x2 = x1 + d1;
    assert(split_at_char(x2, '.') =~= seq![d0, d1]);
    let x3 = x2.push('.');
    assert(x3.drop_last() =~= x2);
    assert(split_at_char(x3, '.') =~= seq![d0, d1, e]);
    lemma_split_at_char_append(x3, d2, '.');
    assert(split_at_char(x3 + d2, '.') =~= seq![d0, d1, d2]);
    assert(version_text(v) =~= x3 + d2);
    assert(v.0 as nat == (v.0 as u64) as nat);
    assert(v.1 as nat == (v.1 as u64) as nat);
    assert(v.2 as nat == (v.2 as u64) as nat);
    lemma_parse_of_decimal(v.0 as u64);
    lemma_parse_of_decimal(v.1 as u64);
    lemma_parse_of_decimal(v.2 as u64);
}

fn push_dot(out: &mut String)
    ensures
        final(out)@ == old(out)@ + seq!['.'],
{
    proof { reveal_strlit("."); }
    out.append(".");
}

impl Version {
    /// Appends the text of this version to `out`.
    pub fn write_to(&self, out: &mut String)
        ensures
            final(out)@ == old(out)@ + version_text(*self),
    {
        push_decimal(out, self.0);
        push_dot(out);
        push_decimal(out, self.1);
        push_dot(out);
        push_decimal(out, self.2);
    }

    /// The text of this version, `major.minor.patch`.
    pub fn to_string(&self) -> (s: String)
        ensures
            s@ == version_text(*self),
            split_at_char(s@, '.').len() == 3,
            parse_u64(split_at_char(s@, '.')[0]) == Some(self.0 as u64),
            parse_u64(split_at_char(s@, '.')[1]) == Some(self.1 as u64),
            parse_u64(split_at_char(s@, '.')[2]) == Some(self.2 as u64),
    {
        let mut s = String::new();
        self.write_to(&mut s);
        proof {
            lemma_version_text_reads_back(*self);
        }
        s
    }

    /// Whether this version comes strictly before `other`.
    pub fn is_older_than(&self, other: &Version) -> (r: bool)
        ensures
            r == version_lt(*self, *other),
    {
        self.0 < other.0 || (self.0 == other.0 && (self.1 < other.1 || (self.1 == other.1
            && self.2 < other.2)))
    }
}

/// One published version of a crate and where its archive is found.
#[derive(Debug, Clone, PartialEq, Eq)]
pub struct CrateVersion {
    pub version: Version,
    pub url: String,
}

impl CrateVersion {
    /// A copy of this entry.
    pub fn duplicate(&self) -> (r: CrateVersion)
        ensures
            r == *self,
    {
        CrateVersion { version: self.version, url: self.url.clone() }
    }
}

/// All published versions of one crate, as the package index lists them.
#[derive(Debug, Clone)]
pub struct Crate {
    pub versions: Vec<CrateVersion>,
}

/// `i` is the position of the latest version in `vs`: no version is newer,
/// and every later entry is strictly older (of equal versions the last one
/// counts as the latest, as `Iterator::max` picks it).
pub open spec fn is_latest_position(vs: Seq<CrateVersion>, i: int) -> bool {
    &&& 0 <= i < vs.len()
    &&& forall|j: int| 0 <= j < vs.len() ==> version_le(#[trigger] vs[j].version, vs[i].version)
    &&& forall|j: int| i < j < vs.len() ==> version_lt(#[trigger] vs[j].version, vs[i].version)
}

/// `v` is the latest entry of `vs`.
pub open spec fn is_latest(vs: Seq<CrateVersion>, v: CrateVersion) -> bool {
    exists|i: int| is_latest_position(vs, i) && vs[i] == v
}

/// There is at most one latest position.
pub proof fn lemma_latest_position_unique(vs: Seq<CrateVersion>, i: int, k: int)
    requires
        is_latest_position(vs, i),
        is_latest_position(vs, k),
    ensures
        i == k,
{
    if i < k {
        assert(version_lt(vs[k].version, vs[i].version));
        assert(version_le(vs[i].version, vs[k].version));
    } else if k < i {
        assert(version_lt(vs[i].version, vs[k].version));
        assert(version_le(vs[k].version, vs[i].version));
    }
}

impl Crate {
    /// The position of the latest version, `None` when there is none.
    pub fn latest_position(&self) -> (r: Option<usize>)
        ensures
            r is None <==> self.versions@.len() == 0,
            r matches Some(i) ==> is_latest_position(self.versions@, i as int),
    {
        let n = self.versions.len();
        if n == 0 {
            return None;
        }
        let mut best: usize = 0;
        let mut i: usize = 1;
        while i < n
            invariant
                n == self.versions@.len(),
                1 <= i <= n,
                best < i,
                forall|j: int| 0 <= j < i ==> version_le(
                    #[trigger] self.versions@[j].version,
                    self.versions@[best as int].version,
                ),
                forall|j: int|
                    best < j < i ==> version_lt(
                        #[trigger] self.versions@[j].version,
                        self.versions@[best as int].version,
                    ),
            decreases n - i,
        {
            if !self.versions[i].version.is_older_than(&self.versions[best].version) {
                best = i;
            }
            i = i + 1;
        }
        Some(best)
    }

    /// The latest version, as `versions.iter().max()` picks it.
    pub fn latest(&self) -> (r: Option<CrateVersion>)
        ensures
            r is None <==> self.versions@.len() == 0,
            r matches Some(v) ==> is_latest(self.versions@, v),
    {
        match self.latest_position() {
            None => None,
            Some(i) => Some(self.versions[i].duplicate()),
        }
    }
}

/// The text `name-version` that names one version of a crate.
pub open spec fn crate_version_text(name: Seq<char>, v: Version) -> Seq<char> {
    name + seq!['-'] + version_text(v)
}

/// The text `name-major.minor.patch` of one version of a crate.
pub fn crate_version_str(name: &str, version: &CrateVersion) -> (s: String)
    ensures
        s@ == crate_version_text(name@, version.version),
{
    let mut s = name.to_owned();
    proof { reveal_strlit("-"); }
    s.append("-");
    version.version.write_to(&mut s);
    s
}

/// The package index: every published crate by name, each name at most
/// once.
#[derive(Debug)]
pub struct CrateIndex {
    crates: Vec<(String, Crate)>,
}

/// Every crate name occurs at most once in the index, as in a map.
pub open spec fn index_names_unique(entries: Seq<(String, Crate)>) -> bool {
    forall|i: int, j: int|
        0 <= i < j < entries.len() ==> (#[trigger] entries[i]).0@ != (#[trigger] entries[j]).0@
}

/// In an index whose names are unique, the position of a name is its first
/// position: looking a crate up finds the one entry of that name, as a map
/// lookup does.
pub proof fn lemma_unique_name_is_first(entries: Seq<(String, Crate)>, name: Seq<char>, i: int)
    requires
        index_names_unique(entries),
        0 <= i < entries.len(),
        entries[i].0@ == name,
    ensures
        is_first_position(entries, name, i),
{
    assert forall|j: int| 0 <= j < i implies (#[trigger] entries[j]).0@ != name by {
        assert(entries[j].0@ != entries[i].0@);
    }
}

/// `i` is the first position of `name` in the index.
pub open spec fn is_first_position(entries: Seq<(String, Crate)>, name: Seq<char>, i: int) -> bool {
    &&& 0 <= i < entries.len()
    &&& entries[i].0@ == name
    &&& forall|j: int| 0 <= j < i ==> (#[trigger] entries[j]).0@ != name
}

/// Why the index gives no version of a crate.
#[derive(Debug, PartialEq, Eq, Structural)]
pub enum IndexError {
    /// The crate is not in the index.
    CrateNotFound,
    /// The crate is in the index without any version.
    NoVersions,
}

impl CrateIndex {
    /// The entries of the index, in order.
    pub closed spec fn entries(&self) -> Seq<(String, Crate)> {
        self.crates@
    }

    /// No name occurs twice in the index.
    #[verifier::type_invariant]
    spec fn names_unique(&self) -> bool {
        index_names_unique(self.crates@)
    }

    /// An index without any crate.
    pub fn empty() -> (r: CrateIndex)
        ensures
            r.entries().len() == 0,
    {
        CrateIndex { crates: Vec::new() }
    }

    /// The index of these entries; `None` when a name occurs twice.
    pub fn from_entries(entries: Vec<(String, Crate)>) -> (r: Option<CrateIndex>)
        ensures
            r is Some <==> index_names_unique(entries@),
            r matches Some(index) ==> index.entries() == entries@,
    {
        let n = entries.len();
        let mut i: usize = 0;
        while i < n
            invariant
                n == entries@.len(),
                i <= n,
                forall|a: int, b: int|
                    0 <= a < b < i ==> (#[trigger] entries@[a]).0@ != (#[trigger] entries@[b]).0@,
            decreases n - i,
        {
            let mut j: usize = 0;
            while j < i
                invariant
                    n == entries@.len(),
                    j <= i < n,
                    forall|a: int| 0 <= a < j ==> (#[trigger] entries@[a]).0@ != entries@[i as int].0@,
                decreases i - j,
            {
                if entries[j].0 == entries[i].0 {
                    assert(!index_names_unique(entries@)) by {
                        assert(entries@[j as int].0@ == entries@[i as int].0@);
                    }
                    return None;
                }
                j = j + 1;
            }
            proof {
                assert forall|a: int, b: int|
                    0 <= a < b < i + 1 implies (#[trigger] entries@[a]).0@ != (
                    #[trigger] entries@[b]).0@ by {
                    if b == i {
                        assert(entries@[a].0@ != entries@[i as int].0@);
                    }
                }
            }
            i = i + 1;
        }
        Some(CrateIndex { crates: entries })
    }

    /// The entries of the index, in order.
    pub fn crates(&self) -> (r: &Vec<(String, Crate)>)
        ensures
            r@ == self.entries(),
    {
        &self.crates
    }

    /// The position of the crate called `name`, if the index has it: the
    /// only entry of that name.
    pub fn position(&self, name: &str) -> (r: Option<usize>)
        ensures
            r is None <==> forall|j: int|
                0 <= j < self.entries().len() ==> (#[trigger] self.entries()[j]).0@ != name@,
            r matches Some(i) ==> is_first_position(self.entries(), name@, i as int),
            r matches Some(i) ==> forall|j: int|
                0 <= j < self.entries().len() && j != i ==> (#[trigger] self.entries()[j]).0@
                    != name@,
    {
        proof {
            use_type_invariant(self);
        }
        let key = name.to_owned();
        let n = self.crates.len();
        let mut i: usize = 0;
        while i < n
            invariant
                n == self.crates@.len(),
                i <= n,
                key@ == name@,
                index_names_unique(self.crates@),
                forall|j: int| 0 <= j < i ==> (#[trigger] self.crates@[j]).0@ != name@,
            decreases n - i,
        {
            if self.crates[i].0 == key {
                proof {
                    assert(self.entries()[i as int].0@ == name@);
                    assert forall|j: int|
                        0 <= j < self.crates@.len() && j != i implies (
                        #[trigger] self.crates@[j]).0@ != name@ by {
                        if j < i {
                        } else {
                            assert(self.crates@[i as int].0@ != self.crates@[j].0@);
                        }
                    }
                }
                return Some(i);
            }
            i = i + 1;
        }
        None
    }
}

/// `q` is what the package index answers when asked for the latest version
/// of the crate `name`.
pub open spec fn is_index_answer(
    entries: Seq<(String, Crate)>,
    name: Seq<char>,
    q: Result<CrateVersion, IndexError>,
) -> bool {
    match q {
        Err(IndexError::CrateNotFound) => forall|j: int|
            0 <= j < entries.len() ==> (#[trigger] entries[j]).0@ != name,
        Err(IndexError::NoVersions) => exists|i: int|
            is_first_position(entries, name, i) && entries[i].1.versions@.len() == 0,
        Ok(v) => exists|i: int| is_first_position(entries, name, i) && is_latest(entries[i].1.versions@, v),
    }
}

proof fn lemma_first_position_unique(entries: Seq<(String, Crate)>, name: Seq<char>, i: int, k: int)
    requires
        is_first_position(entries, name, i),
        is_first_position(entries, name, k),
    ensures
        i == k,
{
    if k < i {
        assert(entries[k].0@ != name);
    } else if i < k {
        assert(entries[i].0@ != name);
    }
}

/// The index has exactly one answer for each crate name.
pub proof fn lemma_index_answer_unique(
    entries: Seq<(String, Crate)>,
    name: Seq<char>,
    q1: Result<CrateVersion, IndexError>,
    q2: Result<CrateVersion, IndexError>,
)
    requires
        is_index_answer(entries, name, q1),
        is_index_answer(entries, name, q2),
    ensures
        q1 == q2,
{
    match (q1, q2) {
        (Ok(v1), Ok(v2)) => {
            let i1 = choose|i: int| is_first_position(entries, name, i) && is_latest(entries[i].1.versions@, v1);
            let i2 = choose|i: int| is_first_position(entries, name, i) && is_latest(entries[i].1.versions@, v2);
            lemma_first_position_unique(entries, name, i1, i2);
            let vs = entries[i1].1.versions@;
            let k1 = choose|k: int| is_latest_position(vs, k) && vs[k] == v1;
            let k2 = choose|k: int| is_latest_position(vs, k) && vs[k] == v2;
            lemma_latest_position_unique(vs, k1, k2);
        },
        (Ok(v1), Err(IndexError::NoVersions)) => {
            let i1 = choose|i: int| is_first_position(entries, name, i) && is_latest(entries[i].1.versions@, v1);
            let i2 = choose|i: int| is_first_position(entries, name, i) && entries[i].1.versions@.len() == 0;
            lemma_first_position_unique(entries, name, i1, i2);
        },
        (Err(IndexError::NoVersions), Ok(v2)) => {
            let i1 = choose|i: int| is_first_position(entries, name, i) && entries[i].1.versions@.len() == 0;
            let i2 = choose|i: int| is_first_position(entries, name, i) && is_latest(entries[i].1.versions@, v2);
            lemma_first_position_unique(entries, name, i1, i2);
        },
        (Ok(v1), Err(IndexError::CrateNotFound)) => {
            let i1 = choose|i: int| is_first_position(entries, name, i) && is_latest(entries[i].1.versions@, v1);
            assert(entries[i1].0@ != name);
        },
        (Err(IndexError::CrateNotFound), Ok(v2)) => {
            let i2 = choose|i: int| is_first_position(entries, name, i) && is_latest(entries[i].1.versions@, v2);
            assert(entries[i2].0@ != name);
        },
        (Err(IndexError::NoVersions), Err(IndexError::CrateNotFound)) => {
            let i1 = choose|i: int| is_first_position(entries, name, i) && entries[i].1.versions@.len() == 0;
            assert(entries[i1].0@ != name);
        },
        (Err(IndexError::CrateNotFound), Err(IndexError::NoVersions)) => {
            let i2 = choose|i: int| is_first_position(entries, name, i) && entries[i].1.versions@.len() == 0;
            assert(entries[i2].0@ != name);
        },
        _ => {},
    }
}

/// The latest version of the crate `crate_name` in the package index.
pub fn query_crate_from_index(index: &CrateIndex, crate_name: &str) -> (r: Result<CrateVersion, IndexError>)
    ensures
        is_index_answer(index.entries(), crate_name@, r),
{
    match index.position(crate_name) {
        None => Err(IndexError::CrateNotFound),
        Some(i) => match index.crates()[i].1.latest() {
            None => Err(IndexError::NoVersions),
            Some(v) => Ok(v),
        },
    }
}

} // verus!
