//! Trusted probes: the only places where the library touches the machine.
//!
//! Every probe is an `external_body` wrapper around an outside call whose
//! result depends on the machine (the clock, the home directory, what is on
//! disk).  No contract pins such a result; the verified code that consumes
//! it is proved correct for every value the probe could hand back.

use vstd::prelude::*;

verus! {

/// What one directory entry looks like to the library: plain values read
/// once from the filesystem.
#[derive(Debug, Clone)]
pub struct FsEntry {
    /// File or directory name (the last path component).
    pub name: String,
    /// Whether the entry is a directory (after following symlinks).
    pub is_dir: bool,
    /// Whether the entry is a regular file.
    pub is_file: bool,
    /// Whether the entry itself is a symbolic link.
    pub is_symlink: bool,
    /// Size in bytes for files; 0 where unknown.
    pub size: u64,
    /// Filesystem identity of the entry, used to cut symlink cycles.
    pub identity: u64,
    /// Last-modified time in seconds since the Unix epoch; 0 where unknown.
    pub mtime_secs: u64,
}

impl FsEntry {
    /// Bundle the plain values a probe read into one entry.
    pub fn of(
        name: String,
        is_dir: bool,
        is_file: bool,
        is_symlink: bool,
        size: u64,
        identity: u64,
        mtime_secs: u64,
    ) -> (r: FsEntry)
        ensures
            r == (FsEntry { name, is_dir, is_file, is_symlink, size, identity, mtime_secs }),
    {
        FsEntry { name, is_dir, is_file, is_symlink, size, identity, mtime_secs }
    }
}

/// Sum of the sizes of the regular-file entries of one listing, as an
/// unbounded integer.
pub open spec fn spec_file_size_sum(entries: Seq<FsEntry>) -> int
    decreases entries.len(),
{
    if entries.len() == 0 {
        0
    } else {
        spec_file_size_sum(entries.drop_last()) + if entries.last().is_file {
            entries.last().size as int
        } else {
            0
        }
    }
}

/// How many entries of one listing are regular files.
pub open spec fn spec_file_count(entries: Seq<FsEntry>) -> int
    decreases entries.len(),
{
    if entries.len() == 0 {
        0
    } else {
        spec_file_count(entries.drop_last()) + if entries.last().is_file {
            1int
        } else {
            0
        }
    }
}

/// Relies on std::time::SystemTime::now: the wall clock, in milliseconds
/// since the Unix epoch.
#[verifier::external_body]
pub(crate) fn now_millis() -> u64 {
    std::time::SystemTime::now()
        .duration_since(std::time::UNIX_EPOCH)
        .map(|d| d.as_millis() as u64)
        .unwrap_or(0)
}

/// Relies on dirs::home_dir: the user's home directory, if the platform
/// reports one.
#[verifier::external_body]
pub(crate) fn home_dir_path() -> Option<String> {
    dirs::home_dir().map(|p| p.to_string_lossy().into_owned())
}

/// Relies on walkdir::WalkDir with depth exactly 1: the immediate entries
/// of one directory, and whether every entry could be read.  The identity
/// is walkdir::DirEntryExt::ino, the entry's own inode number.
/// The entry type walkdir reports, opaque to the library.
#[verifier::external_type_specification]
#[verifier::external_body]
pub struct ExDirEntry(walkdir::DirEntry);

/// Relies on walkdir::DirEntry's accessors: the entry's name, type,
/// size, inode and mtime as plain values.
#[verifier::external_body]
fn entry_info(e: &walkdir::DirEntry) -> FsEntry {
    let (sz, mt) = match e.metadata() {
        Ok(m) => (m.len(), m.modified().ok().and_then(|t| t.duration_since(std::time::UNIX_EPOCH).ok()).map(|d| d.as_secs()).unwrap_or(0)),
        Err(_) => (0, 0),
    };
    FsEntry::of(e.file_name().to_string_lossy().into_owned(), e.file_type().is_dir(), e.file_type().is_file(), e.path_is_symlink(), sz, walkdir::DirEntryExt::ino(e), mt)
}

#[verifier::external_body]
pub(crate) fn probe_dir(path: &str) -> (Vec<FsEntry>, bool) {
    let mut v: Vec<FsEntry> = Vec::new();
    let mut complete = true;
    for item in walkdir::WalkDir::new(path).min_depth(1).max_depth(1).follow_links(true) {
        match item {
            Ok(e) => v.push(entry_info(&e)),
            Err(_) => complete = false,
        }
    }
    (v, complete)
}

/// Relies on walkdir::WalkDir with depth 0: the entry for one path itself,
/// or None where the path cannot be read.
#[verifier::external_body]
pub(crate) fn probe_path(path: &str) -> Option<FsEntry> {
    let e = walkdir::WalkDir::new(path).max_depth(0).follow_links(true).into_iter().next()?.ok()?;
    Some(entry_info(&e))
}

} // verus!
