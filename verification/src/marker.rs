//! Marker rules: filesystem-presence predicates that classify a directory.
//!
//! A marker is judged against a [`DirListing`]: the directory's own name
//! and its immediate entries, read once from the filesystem.  Matching is
//! a pure function of that snapshot, so identical directory contents
//! always produce identical match results.

use vstd::prelude::*;
use vstd::string::StrSliceExecFns;

use crate::probe::FsEntry;

verus! {

/// What a candidate directory looks like to a marker: its own name (the
/// last path component) and its immediate entries.
#[derive(Debug, Clone)]
pub struct DirListing {
    /// The directory's own name.
    pub name: String,
    /// Its immediate entries.
    pub entries: Vec<FsEntry>,
}

/// Compare two string slices by characters.
pub fn str_eq(a: &str, b: &str) -> (r: bool)
    ensures
        r == (a@ == b@),
{
    let n = a.unicode_len();
    if n != b.unicode_len() {
        return false;
    }
    let mut i: usize = 0;
    while i < n
        invariant
            i <= n,
            n == a@.len(),
            n == b@.len(),
            forall|j: int| 0 <= j < i ==> a@[j] == b@[j],
        decreases n - i,
    {
        if a.get_char(i) != b.get_char(i) {
            return false;
        }
        i = i + 1;
    }
    proof {
        assert(a@ =~= b@);
    }
    true
}

/// Some entry has this name, whatever kind of entry it is: the rule
/// tests bare existence.
pub open spec fn spec_has_entry(entries: Seq<FsEntry>, name: Seq<char>) -> bool {
    exists|i: int| 0 <= i < entries.len() && entries[i].name@ == name
}

/// Some entry is a regular file with this name.
pub open spec fn spec_has_file(entries: Seq<FsEntry>, name: Seq<char>) -> bool {
    exists|i: int| 0 <= i < entries.len() && entries[i].name@ == name && entries[i].is_file
}

/// Some entry is a directory with this name.
pub open spec fn spec_has_dir(entries: Seq<FsEntry>, name: Seq<char>) -> bool {
    exists|i: int| 0 <= i < entries.len() && entries[i].name@ == name && entries[i].is_dir
}

/// The name's extension — what follows its last dot, provided at least
/// one character stands before that dot — equals `ext`.
pub open spec fn spec_has_extension(name: Seq<char>, ext: Seq<char>) -> bool {
    exists|i: int|
        1 <= i < name.len() && name[i] == '.' && (forall|j: int|
            i < j < name.len() ==> name[j] != '.') && name.subrange(i + 1, name.len() as int)
            =~= ext
}

/// Some entry is a regular file whose name carries this extension.
pub open spec fn spec_has_file_with_extension(entries: Seq<FsEntry>, ext: Seq<char>) -> bool {
    exists|i: int|
        0 <= i < entries.len() && (#[trigger] entries[i]).is_file && spec_has_extension(
            entries[i].name@,
            ext,
        )
}

/// What a marker rule looks for, with its names as character sequences:
/// the shape a catalog pins down in specifications.
pub ghost enum MarkerShape {
    /// A regular file with exactly this name is present.
    File(Seq<char>),
    /// A directory with exactly this name is present.
    Directory(Seq<char>),
    /// A regular file with this extension is present.
    Extension(Seq<char>),
    /// Entries with all of these names are present.
    AllOf(Seq<Seq<char>>),
    /// An entry with one of these names is present.
    AnyOf(Seq<Seq<char>>),
}

/// Entries with all of these names are present.
pub open spec fn spec_all_present(entries: Seq<FsEntry>, files: Seq<Seq<char>>) -> bool {
    forall|k: int| 0 <= k < files.len() ==> spec_has_entry(entries, #[trigger] files[k])
}

/// An entry with one of these names is present.
pub open spec fn spec_any_present(entries: Seq<FsEntry>, files: Seq<Seq<char>>) -> bool {
    exists|k: int| 0 <= k < files.len() && spec_has_entry(entries, #[trigger] files[k])
}

/// What it means for a marker of one shape to match a directory with
/// entries `entries`.
pub open spec fn spec_shape_matches(shape: MarkerShape, entries: Seq<FsEntry>) -> bool {
    match shape {
        MarkerShape::File(name) => spec_has_file(entries, name),
        MarkerShape::Directory(name) => spec_has_dir(entries, name),
        MarkerShape::Extension(ext) => spec_has_file_with_extension(entries, ext),
        MarkerShape::AllOf(files) => spec_all_present(entries, files),
        MarkerShape::AnyOf(files) => spec_any_present(entries, files),
    }
}

/// Types of markers that can identify a project.
#[derive(Debug, Clone)]
pub enum MarkerKind {
    /// Exact filename match (e.g. a manifest file).
    File(&'static str),
    /// Exact directory name match (e.g. a dependency directory).
    Directory(&'static str),
    /// A file with this extension is present in the directory.
    Extension(&'static str),
    /// Multiple files (all must exist).
    AllOf(Vec<&'static str>),
    /// Multiple files (any must exist).
    AnyOf(Vec<&'static str>),
}

impl MarkerKind {
    /// The shape this rule denotes: the same names, as character
    /// sequences.
    pub open spec fn shape(self) -> MarkerShape {
        match self {
            MarkerKind::File(name) => MarkerShape::File(name@),
            MarkerKind::Directory(name) => MarkerShape::Directory(name@),
            MarkerKind::Extension(ext) => MarkerShape::Extension(ext@),
            MarkerKind::AllOf(files) => MarkerShape::AllOf(files.deep_view()),
            MarkerKind::AnyOf(files) => MarkerShape::AnyOf(files.deep_view()),
        }
    }

    /// What it means for this marker to match a directory with name
    /// `dir_name` and entries `entries`.  Every shape reads the entries
    /// alone: matching is a pure predicate over the directory's contents.
    pub open spec fn spec_matches(self, dir_name: Seq<char>, entries: Seq<FsEntry>) -> bool {
        spec_shape_matches(self.shape(), entries)
    }

    /// Check if this marker matches the given directory snapshot.
    pub fn matches(&self, dir: &DirListing) -> (r: bool)
        ensures
            r == self.spec_matches(dir.name@, dir.entries@),
    {
        match self {
            MarkerKind::File(name) => {
                let r = has_file_entry(&dir.entries, name);
                proof {
                    assert(self.shape() == MarkerShape::File(name@));
                }
                r
            },
            MarkerKind::Directory(name) => {
                let r = has_dir_entry(&dir.entries, name);
                proof {
                    assert(self.shape() == MarkerShape::Directory(name@));
                }
                r
            },
            MarkerKind::Extension(ext) => {
                let r = has_file_with_extension(&dir.entries, ext);
                proof {
                    assert(self.shape() == MarkerShape::Extension(ext@));
                }
                r
            },
            MarkerKind::AllOf(files) => {
                let r = all_present(&dir.entries, files);
                proof {
                    let fd = files.deep_view();
                    assert(self.shape() == MarkerShape::AllOf(fd));
                    assert(fd.len() == files@.len());
                    assert forall|k: int| 0 <= k < fd.len() implies fd[k] == files@[k]@ by {}
                    if r {
                        assert forall|k: int| 0 <= k < fd.len() implies spec_has_entry(
                            dir.entries@,
                            #[trigger] fd[k],
                        ) by {
                            assert(spec_has_entry(dir.entries@, files@[k]@));
                        }
                        assert(spec_all_present(dir.entries@, fd));
                    } else {
                        let k = choose|k: int|
                            0 <= k < files@.len() && !spec_has_entry(dir.entries@, files@[k]@);
                        assert(!spec_has_entry(dir.entries@, fd[k]));
                        assert(!spec_all_present(dir.entries@, fd));
                    }
                }
                r
            },
            MarkerKind::AnyOf(files) => {
                let r = any_present(&dir.entries, files);
                proof {
                    let fd = files.deep_view();
                    assert(self.shape() == MarkerShape::AnyOf(fd));
                    assert(fd.len() == files@.len());
                    assert forall|k: int| 0 <= k < fd.len() implies fd[k] == files@[k]@ by {}
                    if r {
                        let k = choose|k: int|
                            0 <= k < files@.len() && spec_has_entry(dir.entries@, files@[k]@);
                        assert(spec_has_entry(dir.entries@, fd[k]));
                        assert(spec_any_present(dir.entries@, fd));
                    } else {
                        if spec_any_present(dir.entries@, fd) {
                            let k = choose|k: int|
                                0 <= k < fd.len() && spec_has_entry(dir.entries@, #[trigger] fd[k]);
                            assert(spec_has_entry(dir.entries@, files@[k]@));
                            assert(false);
                        }
                    }
                }
                r
            },
        }
    }
}

/// Search the entries for a regular file whose name carries this
/// extension.
fn has_file_with_extension(entries: &Vec<FsEntry>, ext: &str) -> (r: bool)
    ensures
        r == spec_has_file_with_extension(entries@, ext@),
{
    let n = entries.len();
    let mut i: usize = 0;
    while i < n
        invariant
            i <= n,
            n == entries@.len(),
            forall|j: int|
                0 <= j < i ==> !((#[trigger] entries@[j]).is_file && spec_has_extension(
                    entries@[j].name@,
                    ext@,
                )),
        decreases n - i,
    {
        if entries[i].is_file && has_extension(entries[i].name.as_str(), ext) {
            return true;
        }
        i = i + 1;
    }
    false
}

/// Whether every one of the named files exists among the entries,
/// short-circuiting on the first that is missing.
fn all_present(entries: &Vec<FsEntry>, files: &Vec<&'static str>) -> (r: bool)
    ensures
        r == (forall|k: int| 0 <= k < files@.len() ==> spec_has_entry(entries@, files@[k]@)),
{
    let n = files.len();
    let mut k: usize = 0;
    while k < n
        invariant
            k <= n,
            n == files@.len(),
            forall|m: int| 0 <= m < k ==> spec_has_entry(entries@, files@[m]@),
        decreases n - k,
    {
        if !has_any_entry(entries, files[k]) {
            proof {
                let kk = k as int;
                assert(0 <= kk < files@.len() && !spec_has_entry(entries@, files@[kk]@));
            }
            return false;
        }
        k = k + 1;
    }
    true
}

/// Whether any one of the named files exists among the entries,
/// short-circuiting on the first that is found.
fn any_present(entries: &Vec<FsEntry>, files: &Vec<&'static str>) -> (r: bool)
    ensures
        r == (exists|k: int| 0 <= k < files@.len() && spec_has_entry(entries@, files@[k]@)),
{
    let n = files.len();
    let mut k: usize = 0;
    while k < n
        invariant
            k <= n,
            n == files@.len(),
            forall|m: int| 0 <= m < k ==> !spec_has_entry(entries@, files@[m]@),
        decreases n - k,
    {
        if has_any_entry(entries, files[k]) {
            proof {
                let kk = k as int;
                assert(0 <= kk < files@.len() && spec_has_entry(entries@, files@[kk]@));
            }
            return true;
        }
        k = k + 1;
    }
    false
}

/// Search the entries for a regular file with this name.
fn has_file_entry(entries: &Vec<FsEntry>, name: &str) -> (r: bool)
    ensures
        r == spec_has_file(entries@, name@),
{
    let n = entries.len();
    let mut i: usize = 0;
    while i < n
        invariant
            i <= n,
            n == entries@.len(),
            forall|j: int|
                0 <= j < i ==> !(entries@[j].name@ == name@ && entries@[j].is_file),
        decreases n - i,
    {
        if entries[i].is_file && str_eq(entries[i].name.as_str(), name) {
            return true;
        }
        i = i + 1;
    }
    false
}

/// Search the entries for a directory with this name.
fn has_dir_entry(entries: &Vec<FsEntry>, name: &str) -> (r: bool)
    ensures
        r == spec_has_dir(entries@, name@),
{
    let n = entries.len();
    let mut i: usize = 0;
    while i < n
        invariant
            i <= n,
            n == entries@.len(),
            forall|j: int| 0 <= j < i ==> !(entries@[j].name@ == name@ && entries@[j].is_dir),
        decreases n - i,
    {
        if entries[i].is_dir && str_eq(entries[i].name.as_str(), name) {
            return true;
        }
        i = i + 1;
    }
    false
}

/// Search the entries for any entry with this name.
fn has_any_entry(entries: &Vec<FsEntry>, name: &str) -> (r: bool)
    ensures
        r == spec_has_entry(entries@, name@),
{
    let n = entries.len();
    let mut i: usize = 0;
    while i < n
        invariant
            i <= n,
            n == entries@.len(),
            forall|j: int| 0 <= j < i ==> entries@[j].name@ != name@,
        decreases n - i,
    {
        if str_eq(entries[i].name.as_str(), name) {
            return true;
        }
        i = i + 1;
    }
    false
}

/// Whether `name` ends in a dot followed by exactly `ext`.
fn has_extension(name: &str, ext: &str) -> (r: bool)
    ensures
        r == spec_has_extension(name@, ext@),
{
    let n = name.unicode_len();
    // Find the last dot, scanning from the end.
    let mut i: usize = n;
    while i > 0 && name.get_char(i - 1) != '.'
        invariant
            i <= n,
            n == name@.len(),
            forall|j: int| i <= j < n ==> name@[j] != '.',
        decreases i,
    {
        i = i - 1;
    }
    if i <= 1 {
        // No dot at all, or the only dot leads the name: no extension.
        proof {
            assert forall|p: int| 1 <= p < name@.len() implies name@[p] != '.' by {
                assert(i <= p < n);
            }
            assert(!spec_has_extension(name@, ext@));
        }
        return false;
    }
    // The last dot sits at i - 1 >= 1.
    let suffix = name.substring_char(i, n);
    let r = str_eq(suffix, ext);
    proof {
        let d: int = i as int - 1;
        assert(name@[d] == '.');
        if r {
            assert(spec_has_extension(name@, ext@)) by {
                assert(1 <= d < name@.len() && name@[d] == '.' && (forall|j: int|
                    d < j < name@.len() ==> name@[j] != '.') && name@.subrange(
                    d + 1,
                    name@.len() as int,
                ) =~= ext@);
            }
        } else {
            assert forall|p: int|
                !(1 <= p < name@.len() && name@[p] == '.' && (forall|j: int|
                    p < j < name@.len() ==> name@[j] != '.') && name@.subrange(
                    p + 1,
                    name@.len() as int,
                ) =~= ext@) by {
                if 1 <= p < name@.len() && name@[p] == '.' && (forall|j: int|
                    p < j < name@.len() ==> name@[j] != '.') {
                    if p < d {
                        assert(p < d < name@.len() && name@[d] == '.');
                        assert(false);
                    } else if p > d {
                        assert(i <= p < n);
                        assert(false);
                    } else {
                        assert(name@.subrange(p + 1, name@.len() as int) == suffix@);
                        assert(!(suffix@ == ext@));
                    }
                }
            }
            assert(!spec_has_extension(name@, ext@));
        }
    }
    r
}

} // verus!
