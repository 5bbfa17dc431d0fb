//! The scanning engine: classify directories, build projects, measure
//! artifacts, and never descend into a recognized artifact subtree.
//!
//! The engine is an explicit-state stepper over a work queue.  It never
//! touches the filesystem itself: a driver asks for the next directory
//! path, reads it (or fabricates it, in tests), and feeds the listing
//! back.  Each step consumes one unit of a fixed budget, so every scan
//! terminates within a bounded number of steps whatever is on disk —
//! symlink cycles included.  Queue paths are kept segment by segment,
//! and the central invariant says that no queued directory and no
//! project root ever lies inside a recognized artifact subtree: sizes
//! counted for an artifact are never walked again as a nested project.

use vstd::prelude::*;
use vstd::string::StrSliceExecFns;

use crate::kind::ProjectKind;
use crate::marker::{spec_has_dir, str_eq, DirListing, MarkerKind, MarkerShape};
use crate::paths::{basename_of, join_under, spec_basename, spec_join};
use crate::probe::{spec_file_count, spec_file_size_sum, FsEntry};
use crate::project::{spec_fingerprint, Artifact, Project, ProjectId};
use crate::registry::{spec_best_marker, spec_builtin_artifacts, spec_registered_artifacts, PluginRegistry, ProjectMarker};

verus! {

/// Fatal configuration errors: the only way a scan fails as a whole.
#[derive(Debug, Clone, PartialEq, Eq)]
pub enum ScanError {
    /// No root path was configured.
    NoRoots,
    /// A configured root could not be read.
    RootUnreadable(String),
    /// A configured root is not a directory.
    RootNotDirectory(String),
}

/// Scan configuration: root paths and traversal limits.
#[derive(Debug)]
pub struct ScanConfig {
    /// The directories to scan.
    pub roots: Vec<String>,
    /// How many directory levels to descend below a root.
    pub max_depth: u64,
    /// Budget of directory visits (classification and measuring
    /// together); the scan always terminates within this many steps.
    pub max_steps: u64,
    /// Directory names never descended into.
    pub excluded_names: Vec<String>,
    /// Keep projects whose artifacts are all empty.
    pub include_empty: bool,
}

impl ScanConfig {
    /// An exact copy.
    pub fn duplicate(&self) -> (r: ScanConfig)
        ensures
            r.roots.deep_view() == self.roots.deep_view(),
            r.max_depth == self.max_depth,
            r.max_steps == self.max_steps,
            r.excluded_names.deep_view() == self.excluded_names.deep_view(),
            r.include_empty == self.include_empty,
    {
        ScanConfig {
            roots: self.roots.clone(),
            max_depth: self.max_depth,
            max_steps: self.max_steps,
            excluded_names: self.excluded_names.clone(),
            include_empty: self.include_empty,
        }
    }
}

impl Default for ScanConfig {
    /// No roots, a depth limit of 16, a budget of one million directory
    /// visits, and version-control metadata directories excluded.
    fn default() -> (r: ScanConfig)
        ensures
            r.roots@.len() == 0,
            r.max_depth == 16,
            r.max_steps == 1000000,
            r.excluded_names.deep_view() =~= seq![".git"@],
            !r.include_empty,
    {
        let mut excluded: Vec<String> = Vec::new();
        excluded.push(".git".to_owned());
        ScanConfig {
            roots: Vec::new(),
            max_depth: 16,
            max_steps: 1000000,
            excluded_names: excluded,
            include_empty: false,
        }
    }
}

/// An immutable scan outcome.
#[derive(Debug)]
pub struct ScanResult {
    /// The projects found.
    pub projects: Vec<Project>,
    /// How many directories were visited for classification.
    pub directories_scanned: u64,
    /// Sum of the projects' cleanable sizes, saturated at u64::MAX.
    pub total_cleanable: u64,
    /// Wall-clock duration of the scan, in milliseconds.
    pub elapsed_ms: u64,
}

/// One unit of work: a directory to visit.  `measure` is None for a
/// classification visit; `Some((p, a))` accumulates sizes into artifact
/// `a` of project `p`.
#[derive(Debug)]
pub struct Task {
    /// The directory's path: a scan root followed by one name per level.
    pub parts: Vec<String>,
    /// How many levels below the root this directory lies.
    pub depth: u64,
    /// Filesystem identity of the directory.
    pub identity: u64,
    /// Last-modified time of the directory, seconds since the epoch.
    pub mtime: u64,
    /// What the visit is for.
    pub measure: Option<(usize, usize)>,
}

/// One path lies on (or is) the directory chain of another: `p` names a
/// directory that `q` is inside of, segment by segment.
pub open spec fn spec_parts_prefix(p: Seq<Seq<char>>, q: Seq<Seq<char>>) -> bool {
    p.len() <= q.len() && p == q.take(p.len() as int)
}

/// The segment path of artifact `k` of a project.
pub open spec fn spec_artifact_parts(p: Project, k: int) -> Seq<Seq<char>> {
    p.root_parts.deep_view().push(p.artifacts@[k].name@)
}

/// Traversal never double-counts: no project root lies inside any
/// project's recognized artifact subtree.
pub open spec fn spec_no_nested_projects(projects: Seq<Project>) -> bool {
    forall|a: int, b: int, k: int|
        #![trigger spec_artifact_parts(projects[a], k), projects[b]]
        0 <= a < projects.len() && 0 <= b < projects.len() && 0 <= k
            < projects[a].artifacts@.len() ==> !spec_parts_prefix(
            spec_artifact_parts(projects[a], k),
            projects[b].root_parts.deep_view(),
        )
}

/// A classification visit.
pub open spec fn spec_is_visit(t: Task) -> bool {
    t.measure is None
}

/// The engine's internal invariant, over its queue and the projects
/// already emitted:
/// - queued classification visits are pairwise unrelated (none inside
///   another),
/// - no queued visit lies inside a recognized artifact subtree,
/// - no queued visit lies on the chain above an emitted project root,
/// - no project root lies inside a recognized artifact subtree,
/// - every path has at least its root segment, and every measuring task
///   points at an existing artifact.
pub open spec fn spec_engine_inv(queue: Seq<Task>, projects: Seq<Project>) -> bool {
    &&& forall|i: int, j: int|
        #![trigger queue[i], queue[j]]
        0 <= i < queue.len() && 0 <= j < queue.len() && i != j && spec_is_visit(queue[i])
            && spec_is_visit(queue[j]) ==> !spec_parts_prefix(
            queue[i].parts.deep_view(),
            queue[j].parts.deep_view(),
        )
    &&& forall|i: int, a: int, k: int|
        #![trigger queue[i], spec_artifact_parts(projects[a], k)]
        0 <= i < queue.len() && spec_is_visit(queue[i]) && 0 <= a < projects.len() && 0 <= k
            < projects[a].artifacts@.len() ==> !spec_parts_prefix(
            spec_artifact_parts(projects[a], k),
            queue[i].parts.deep_view(),
        )
    &&& forall|i: int, a: int|
        #![trigger queue[i], projects[a]]
        0 <= i < queue.len() && spec_is_visit(queue[i]) && 0 <= a < projects.len()
            ==> !spec_parts_prefix(
            queue[i].parts.deep_view(),
            projects[a].root_parts.deep_view(),
        )
    &&& spec_no_nested_projects(projects)
    &&& forall|i: int|
        0 <= i < queue.len() ==> (#[trigger] queue[i]).parts.deep_view().len() >= 1
    &&& forall|a: int|
        0 <= a < projects.len() ==> (#[trigger] projects[a]).root_parts.deep_view().len() >= 1
    &&& forall|i: int|
        0 <= i < queue.len() ==> match (#[trigger] queue[i]).measure {
            None => true,
            Some((p, k)) => p < projects.len() && k < projects[p as int].artifacts@.len(),
        }
}

/// A path stays inside whatever its parent is inside of.
proof fn lemma_push_prefix(x: Seq<Seq<char>>, e: Seq<char>, y: Seq<Seq<char>>)
    requires
        spec_parts_prefix(x.push(e), y),
    ensures
        spec_parts_prefix(x, y),
{
    assert(x =~= y.take(x.push(e).len() as int).take(x.len() as int));
    assert(y.take(x.push(e).len() as int).take(x.len() as int) =~= y.take(x.len() as int));
}

/// What can be inside a freshly extended path: either it was inside the
/// parent already, or it is the extended path itself.
proof fn lemma_prefix_of_push(x: Seq<Seq<char>>, y: Seq<Seq<char>>, e: Seq<char>)
    requires
        spec_parts_prefix(x, y.push(e)),
    ensures
        x.len() <= y.len() ==> spec_parts_prefix(x, y),
        x.len() == y.len() + 1 ==> x == y.push(e),
{
    if x.len() <= y.len() {
        assert(x =~= y.take(x.len() as int)) by {
            assert(x =~= y.push(e).take(x.len() as int));
            assert(y.push(e).take(x.len() as int) =~= y.take(x.len() as int));
        }
    }
    if x.len() == y.len() + 1 {
        assert(x =~= y.push(e));
    }
}

/// Two different names under one parent give unrelated paths.
proof fn lemma_sibling_unrelated(parent: Seq<Seq<char>>, n1: Seq<char>, n2: Seq<char>)
    requires
        n1 != n2,
    ensures
        !spec_parts_prefix(parent.push(n1), parent.push(n2)),
{
    if spec_parts_prefix(parent.push(n1), parent.push(n2)) {
        assert(parent.push(n1) =~= parent.push(n2).take(parent.push(n1).len() as int));
        assert(parent.push(n2).take(parent.push(n1).len() as int) =~= parent.push(n2));
        assert(parent.push(n1)[parent.len() as int] == n1);
        assert(parent.push(n2)[parent.len() as int] == n2);
    }
}

/// A child of a path that is unrelated to `t` is itself unrelated to
/// `t`.
proof fn lemma_child_unrelated(parent: Seq<Seq<char>>, name: Seq<char>, t: Seq<Seq<char>>)
    requires
        !spec_parts_prefix(t, parent),
        !spec_parts_prefix(parent, t),
    ensures
        !spec_parts_prefix(t, parent.push(name)),
        !spec_parts_prefix(parent.push(name), t),
{
    if spec_parts_prefix(t, parent.push(name)) {
        lemma_prefix_of_push(t, parent, name);
        if t.len() == parent.len() + 1 {
            assert(spec_parts_prefix(parent, t)) by {
                lemma_push_prefix(parent, name, t);
            }
        }
    }
    if spec_parts_prefix(parent.push(name), t) {
        lemma_push_prefix(parent, name, t);
    }
}

/// Search a list of identities.
pub(crate) fn contains_u64(v: &Vec<u64>, x: u64) -> (r: bool)
    ensures
        r == v@.contains(x),
{
    let n = v.len();
    let mut i: usize = 0;
    while i < n
        invariant
            i <= n,
            n == v@.len(),
            forall|j: int| 0 <= j < i ==> v@[j] != x,
        decreases n - i,
    {
        if v[i] == x {
            proof {
                assert(v@[i as int] == x);
            }
            return true;
        }
        i = i + 1;
    }
    proof {
        if v@.contains(x) {
            let j = choose|j: int| 0 <= j < v@.len() && v@[j] == x;
            assert(v@[j] != x);
        }
    }
    false
}

/// Search a list of names for one with this character sequence.
fn contains_name(v: &Vec<String>, x: &str) -> (r: bool)
    ensures
        r == v.deep_view().contains(x@),
{
    let n = v.len();
    let mut i: usize = 0;
    while i < n
        invariant
            i <= n,
            n == v@.len(),
            forall|j: int| 0 <= j < i ==> v.deep_view()[j] != x@,
        decreases n - i,
    {
        proof {
            assert(v.deep_view()[i as int] == v@[i as int]@);
        }
        if str_eq(v[i].as_str(), x) {
            proof {
                assert(v.deep_view()[i as int] == x@);
            }
            return true;
        }
        i = i + 1;
    }
    proof {
        if v.deep_view().contains(x@) {
            let j = choose|j: int| 0 <= j < v.deep_view().len() && v.deep_view()[j] == x@;
            assert(v.deep_view()[j] != x@);
        }
    }
    false
}

/// A copy of a segment path with one more name below it.
fn parts_push(parts: &Vec<String>, name: &String) -> (r: Vec<String>)
    ensures
        r.deep_view() == parts.deep_view().push(name@),
{
    let mut r = parts.clone();
    let ghost before = r.deep_view();
    r.push(name.clone());
    proof {
        assert(before == parts.deep_view());
        assert(r.deep_view() =~= before.push(name@));
    }
    r
}

/// The display path of a segment path: the root as given, then one `/`
/// per further segment.
pub fn join_parts(parts: &Vec<String>) -> (r: String)
    requires
        parts@.len() >= 1,
    ensures
        r@ == spec_join(parts.deep_view()),
{
    let n = parts.len();
    let mut r: String = parts[0].clone();
    let mut i: usize = 1;
    proof {
        assert(parts.deep_view().take(1int) =~= seq![parts.deep_view()[0]]);
        assert(r@ == spec_join(parts.deep_view().take(1int)));
    }
    while i < n
        invariant
            1 <= i <= n,
            n == parts@.len(),
            r@ == spec_join(parts.deep_view().take(i as int)),
        decreases n - i,
    {
        proof {
            assert(parts.deep_view().take(i as int + 1).drop_last() =~= parts.deep_view().take(
                i as int,
            ));
            assert(parts.deep_view().take(i as int + 1).last() == parts.deep_view()[i as int]);
            assert(parts.deep_view()[i as int] == parts@[i as int]@);
        }
        r = join_under(r.as_str(), parts[i].as_str());
        i = i + 1;
    }
    proof {
        assert(parts.deep_view().take(n as int) =~= parts.deep_view());
    }
    r
}

/// Add, saturating at u64::MAX.
pub(crate) fn sat_add(a: u64, b: u64) -> (r: u64)
    ensures
        r == if a + b <= u64::MAX as int {
            a + b
        } else {
            u64::MAX as int
        },
{
    if a <= u64::MAX - b {
        a + b
    } else {
        u64::MAX
    }
}

/// The subdirectory names a classification visit descends into:
/// directory entries, not symlinks, the first entry of each name,
/// skipping recognized artifact names and configured exclusions.
pub open spec fn spec_pick_names(
    entries: Seq<FsEntry>,
    skip: Seq<Seq<char>>,
    excluded: Seq<Seq<char>>,
) -> Seq<Seq<char>>
    decreases entries.len(),
{
    if entries.len() == 0 {
        Seq::empty()
    } else {
        let prev = spec_pick_names(entries.drop_last(), skip, excluded);
        let e = entries.last();
        if e.is_dir && !e.is_symlink && !prev.contains(e.name@) && !skip.contains(e.name@)
            && !excluded.contains(e.name@) {
            prev.push(e.name@)
        } else {
            prev
        }
    }
}

/// The registered artifact directories present among the entries, in
/// table order.
pub open spec fn spec_present_artifacts(dirs: Seq<Seq<char>>, entries: Seq<FsEntry>) -> Seq<
    Seq<char>,
>
    decreases dirs.len(),
{
    if dirs.len() == 0 {
        Seq::empty()
    } else {
        let prev = spec_present_artifacts(dirs.drop_last(), entries);
        if spec_has_dir(entries, dirs.last()) {
            prev.push(dirs.last())
        } else {
            prev
        }
    }
}

/// The names of the subdirectory entries a measuring visit descends
/// into: directory entries that are not symlinks, in listing order.
pub open spec fn spec_measure_children(entries: Seq<FsEntry>) -> Seq<Seq<char>>
    decreases entries.len(),
{
    if entries.len() == 0 {
        Seq::empty()
    } else {
        let prev = spec_measure_children(entries.drop_last());
        let e = entries.last();
        if e.is_dir && !e.is_symlink {
            prev.push(e.name@)
        } else {
            prev
        }
    }
}

/// The file names a marker rule of one shape looks for, whose newest
/// modification time stamps the project.
pub open spec fn spec_marker_file_names(shape: MarkerShape) -> Seq<Seq<char>> {
    match shape {
        MarkerShape::File(name) => seq![name],
        MarkerShape::Directory(_) => Seq::empty(),
        MarkerShape::Extension(_) => Seq::empty(),
        MarkerShape::AllOf(files) => files,
        MarkerShape::AnyOf(files) => files,
    }
}

/// The newest of `base` and the modification times of the regular-file
/// entries whose names stand in `names`.
pub open spec fn spec_mtime_max(base: u64, names: Seq<Seq<char>>, entries: Seq<FsEntry>) -> u64
    decreases entries.len(),
{
    if entries.len() == 0 {
        base
    } else {
        let prev = spec_mtime_max(base, names, entries.drop_last());
        let e = entries.last();
        if e.is_file && e.mtime_secs > prev && names.contains(e.name@) {
            e.mtime_secs
        } else {
            prev
        }
    }
}

/// The artifact directory table a kind resolves to: the built-in
/// directories, then the registered ones.
pub open spec fn spec_artifact_dirs(extras: Seq<(ProjectKind, String)>, kind: ProjectKind) -> Seq<
    Seq<char>,
> {
    spec_builtin_artifacts(kind) + spec_registered_artifacts(extras, kind)
}

/// What the project emitted for a classification visit holds, given the
/// visit's segment path and directory mtime, the winning marker, the
/// kind's artifact directory table, and the listing: its identity is the
/// fingerprint of the joined root path, its kind the marker's, its name
/// the directory's own, its artifacts exactly the registered artifact
/// directories present among the entries, in table order, each with no
/// size measured yet, and its last-modified time the newest of the
/// directory's and the marker files' stamps.
pub open spec fn spec_emitted_project(
    p: Project,
    parts: Seq<Seq<char>>,
    mtime: u64,
    m: ProjectMarker,
    dirs: Seq<Seq<char>>,
    entries: Seq<FsEntry>,
) -> bool {
    let root = spec_join(parts);
    let present = spec_present_artifacts(dirs, entries);
    let lm = spec_mtime_max(mtime, spec_marker_file_names(m.indicator.shape()), entries);
    &&& p.id.0 == spec_fingerprint(root)
    &&& p.kind == m.kind
    &&& p.root@ == root
    &&& p.root_parts.deep_view() == parts
    &&& p.name@ == spec_basename(parts.last())
    &&& p.last_modified == if lm > 0 {
        Some(lm)
    } else {
        None::<u64>
    }
    &&& p.git_status is None
    &&& p.artifacts@.len() == present.len()
    &&& forall|k: int|
        0 <= k < present.len() ==> {
            &&& (#[trigger] p.artifacts@[k]).name@ == present[k]
            &&& p.artifacts@[k].path@ == root + "/"@ + present[k]
            &&& p.artifacts@[k].size == 0
            &&& p.artifacts@[k].file_count == 0
            &&& !p.artifacts@[k].partial
        }
    &&& p.total_size == 0
    &&& p.cleanable_size == 0
}

/// Fold one directory listing into running size and file totals: the new
/// size is the old one plus the sizes of the listing's regular files, the
/// new count is the old one plus how many there are, both saturated at
/// u64::MAX.
pub fn tally_listing(size: u64, files: u64, entries: &Vec<FsEntry>) -> (r: (u64, u64))
    ensures
        r.0 == if size + spec_file_size_sum(entries@) <= u64::MAX as int {
            size + spec_file_size_sum(entries@)
        } else {
            u64::MAX as int
        },
        r.1 == if files + spec_file_count(entries@) <= u64::MAX as int {
            files + spec_file_count(entries@)
        } else {
            u64::MAX as int
        },
{
    let mut sz = size;
    let mut fc = files;
    let n = entries.len();
    let mut i: usize = 0;
    proof {
        assert(entries@.take(0int) =~= Seq::<FsEntry>::empty());
    }
    while i < n
        invariant
            i <= n,
            n == entries@.len(),
            sz == if size + spec_file_size_sum(entries@.take(i as int))
                <= u64::MAX as int {
                size + spec_file_size_sum(entries@.take(i as int))
            } else {
                u64::MAX as int
            },
            fc == if files + spec_file_count(entries@.take(i as int))
                <= u64::MAX as int {
                files + spec_file_count(entries@.take(i as int))
            } else {
                u64::MAX as int
            },
        decreases n - i,
    {
        proof {
            assert(entries@.take(i as int + 1).drop_last() =~= entries@.take(i as int));
            assert(entries@.take(i as int + 1).last() == entries@[i as int]);
        }
        if entries[i].is_file {
            sz = sat_add(sz, entries[i].size);
            fc = sat_add(fc, 1);
        }
        i = i + 1;
    }
    proof {
        assert(entries@.take(n as int) =~= entries@);
    }
    (sz, fc)
}

/// A directory entry chosen for descent.
struct ChildPick {
    name: String,
    identity: u64,
    mtime: u64,
}

/// The subdirectories to descend into: directories, not symlinks, not
/// named in `skip` (recognized artifacts) nor in `excluded`, each name
/// taken once — exactly the names of `spec_pick_names`, in order.
fn pick_children(entries: &Vec<FsEntry>, skip: &Vec<String>, excluded: &Vec<String>) -> (r: Vec<
    ChildPick,
>)
    ensures
        forall|m: int, m2: int|
            #![trigger r@[m], r@[m2]]
            0 <= m < m2 < r@.len() ==> r@[m].name@ != r@[m2].name@,
        forall|m: int| 0 <= m < r@.len() ==> !skip.deep_view().contains((#[trigger] r@[m]).name@),
        forall|m: int|
            0 <= m < r@.len() ==> !excluded.deep_view().contains((#[trigger] r@[m]).name@),
        r@.len() == spec_pick_names(entries@, skip.deep_view(), excluded.deep_view()).len(),
        forall|m: int|
            0 <= m < r@.len() ==> (#[trigger] r@[m]).name@ == spec_pick_names(
                entries@,
                skip.deep_view(),
                excluded.deep_view(),
            )[m],
{
    let n = entries.len();
    let mut r: Vec<ChildPick> = Vec::new();
    let mut names: Vec<String> = Vec::new();
    let mut i: usize = 0;
    proof {
        assert(entries@.take(0int) =~= Seq::<FsEntry>::empty());
        assert(names.deep_view() =~= spec_pick_names(
            entries@.take(0int),
            skip.deep_view(),
            excluded.deep_view(),
        ));
    }
    while i < n
        invariant
            i <= n,
            n == entries@.len(),
            names.deep_view().len() == r@.len(),
            names.deep_view() == spec_pick_names(
                entries@.take(i as int),
                skip.deep_view(),
                excluded.deep_view(),
            ),
            forall|m: int| 0 <= m < r@.len() ==> names.deep_view()[m] == (#[trigger] r@[m]).name@,
            forall|m: int, m2: int|
                #![trigger r@[m], r@[m2]]
                0 <= m < m2 < r@.len() ==> r@[m].name@ != r@[m2].name@,
            forall|m: int|
                0 <= m < r@.len() ==> !skip.deep_view().contains((#[trigger] r@[m]).name@),
            forall|m: int|
                0 <= m < r@.len() ==> !excluded.deep_view().contains((#[trigger] r@[m]).name@),
        decreases n - i,
    {
        proof {
            assert(entries@.take(i as int + 1).drop_last() =~= entries@.take(i as int));
            assert(entries@.take(i as int + 1).last() == entries@[i as int]);
        }
        let e = &entries[i];
        if e.is_dir && !e.is_symlink && !contains_name(&names, e.name.as_str()) && !contains_name(
            skip,
            e.name.as_str(),
        ) && !contains_name(excluded, e.name.as_str()) {
            let ghost names_before = names.deep_view();
            let ghost r_before = r@;
            names.push(e.name.clone());
            r.push(ChildPick { name: e.name.clone(), identity: e.identity, mtime: e.mtime_secs });
            proof {
                assert(names.deep_view() =~= names_before.push(e.name@));
                assert(r@.len() == r_before.len() + 1);
                assert(r@[r_before.len() as int].name@ == e.name@);
                assert forall|m: int| 0 <= m < r_before.len() implies r@[m] == r_before[m] by {}
                assert forall|m: int, m2: int| 0 <= m < m2 < r@.len() implies r@[m].name@
                    != r@[m2].name@ by {
                    if m2 == r_before.len() {
                        assert(names_before[m] == r_before[m].name@);
                        assert(!names_before.contains(e.name@));
                    }
                }
            }
        }
        i = i + 1;
    }
    proof {
        assert(entries@.take(n as int) =~= entries@);
    }
    r
}

/// The file names a marker rule looks for.
fn marker_file_names(ind: &MarkerKind) -> (r: Vec<&'static str>)
    ensures
        r.deep_view() == spec_marker_file_names(ind.shape()),
{
    let r: Vec<&'static str> = match ind {
        MarkerKind::File(name) => vec![*name],
        MarkerKind::Directory(_) => Vec::new(),
        MarkerKind::Extension(_) => Vec::new(),
        MarkerKind::AllOf(files) => files.clone(),
        MarkerKind::AnyOf(files) => files.clone(),
    };
    proof {
        assert(r.deep_view() =~= spec_marker_file_names(ind.shape()));
    }
    r
}

/// Whether a name stands in a list of string slices.
fn contains_str(v: &Vec<&'static str>, x: &str) -> (r: bool)
    ensures
        r == v.deep_view().contains(x@),
{
    let n = v.len();
    let mut i: usize = 0;
    while i < n
        invariant
            i <= n,
            n == v@.len(),
            forall|j: int| 0 <= j < i ==> v.deep_view()[j] != x@,
        decreases n - i,
    {
        proof {
            assert(v.deep_view()[i as int] == v@[i as int]@);
        }
        if str_eq(v[i], x) {
            proof {
                assert(v.deep_view()[i as int] == x@);
            }
            return true;
        }
        i = i + 1;
    }
    proof {
        if v.deep_view().contains(x@) {
            let j = choose|j: int| 0 <= j < v.deep_view().len() && v.deep_view()[j] == x@;
            assert(v.deep_view()[j] != x@);
        }
    }
    false
}

/// The newest of `base` and the mtimes of the file entries named in
/// `names`.
fn mtime_max(base: u64, names: &Vec<&'static str>, entries: &Vec<FsEntry>) -> (r: u64)
    ensures
        r == spec_mtime_max(base, names.deep_view(), entries@),
{
    let n = entries.len();
    let mut best = base;
    let mut i: usize = 0;
    proof {
        assert(entries@.take(0int) =~= Seq::<FsEntry>::empty());
    }
    while i < n
        invariant
            i <= n,
            n == entries@.len(),
            best == spec_mtime_max(base, names.deep_view(), entries@.take(i as int)),
        decreases n - i,
    {
        proof {
            assert(entries@.take(i as int + 1).drop_last() =~= entries@.take(i as int));
            assert(entries@.take(i as int + 1).last() == entries@[i as int]);
        }
        let e = &entries[i];
        if e.is_file && e.mtime_secs > best && contains_str(names, e.name.as_str()) {
            best = e.mtime_secs;
        }
        i = i + 1;
    }
    proof {
        assert(entries@.take(n as int) =~= entries@);
    }
    best
}

/// Two equal one-longer paths have equal parents and equal last names.
proof fn lemma_push_inj(x: Seq<Seq<char>>, e1: Seq<char>, y: Seq<Seq<char>>, e2: Seq<char>)
    requires
        x.push(e1) == y.push(e2),
        x.len() == y.len(),
    ensures
        x == y,
        e1 == e2,
{
    assert(x =~= y) by {
        assert forall|i: int| 0 <= i < x.len() implies x[i] == y[i] by {
            assert(x.push(e1)[i] == x[i]);
            assert(y.push(e2)[i] == y[i]);
        }
    }
    assert(x.push(e1)[x.len() as int] == e1);
    assert(y.push(e2)[y.len() as int] == e2);
}

/// Every path lies on its own chain.
proof fn lemma_prefix_reflexive(x: Seq<Seq<char>>)
    ensures
        spec_parts_prefix(x, x),
{
    assert(x.take(x.len() as int) =~= x);
}

/// Two different roots are unrelated as one-segment paths.
proof fn lemma_singleton_unrelated(a: Seq<char>, b: Seq<char>)
    requires
        a != b,
    ensures
        !spec_parts_prefix(seq![a], seq![b]),
{
    if spec_parts_prefix(seq![a], seq![b]) {
        assert(seq![b].take(1int) =~= seq![b]);
        assert(seq![a][0] == a);
        assert(seq![b][0] == b);
    }
}

/// Two projects agree on everything the nesting property looks at.
pub open spec fn spec_same_shape(p: Project, q: Project) -> bool {
    &&& p.root_parts.deep_view() == q.root_parts.deep_view()
    &&& p.artifacts@.len() == q.artifacts@.len()
    &&& forall|k: int|
        0 <= k < p.artifacts@.len() ==> (#[trigger] p.artifacts@[k]).name@ == q.artifacts@[k].name@
}

/// The nesting property only reads roots and artifact names, so it
/// carries over to a pointwise same-shaped sequence.
proof fn lemma_no_nested_pointwise(s0: Seq<Project>, s1: Seq<Project>)
    requires
        spec_no_nested_projects(s0),
        s1.len() == s0.len(),
        forall|a: int| 0 <= a < s1.len() ==> spec_same_shape(s0[a], #[trigger] s1[a]),
    ensures
        spec_no_nested_projects(s1),
{
    assert forall|a: int, b: int, k: int|
        0 <= a < s1.len() && 0 <= b < s1.len() && 0 <= k < s1[a].artifacts@.len()
        implies !spec_parts_prefix(
        #[trigger] spec_artifact_parts(s1[a], k),
        (#[trigger] s1[b]).root_parts.deep_view(),
    ) by {
        assert(spec_same_shape(s0[a], s1[a]));
        assert(spec_same_shape(s0[b], s1[b]));
        assert(s1[a].artifacts@[k].name@ == s0[a].artifacts@[k].name@);
        assert(spec_artifact_parts(s1[a], k) =~= spec_artifact_parts(s0[a], k));
        assert(!spec_parts_prefix(
            spec_artifact_parts(s0[a], k),
            s0[b].root_parts.deep_view(),
        ));
    }
}

/// The nesting property carries over to any selection of elements.
proof fn lemma_no_nested_select(s0: Seq<Project>, s1: Seq<Project>)
    requires
        spec_no_nested_projects(s0),
        forall|a: int| 0 <= a < s1.len() ==> s0.contains(#[trigger] s1[a]),
    ensures
        spec_no_nested_projects(s1),
{
    assert forall|a: int, b: int, k: int|
        0 <= a < s1.len() && 0 <= b < s1.len() && 0 <= k < s1[a].artifacts@.len()
        implies !spec_parts_prefix(
        #[trigger] spec_artifact_parts(s1[a], k),
        (#[trigger] s1[b]).root_parts.deep_view(),
    ) by {
        let ia = choose|ia: int| 0 <= ia < s0.len() && s0[ia] == s1[a];
        let ib = choose|ib: int| 0 <= ib < s0.len() && s0[ib] == s1[b];
        assert(s0.contains(s1[a]));
        assert(s0.contains(s1[b]));
        assert(!spec_parts_prefix(
            spec_artifact_parts(s0[ia], k),
            s0[ib].root_parts.deep_view(),
        ));
    }
}

/// The identity and mtime of a directory entry with this name, if one
/// stands among the entries.
fn find_dir_entry(entries: &Vec<FsEntry>, name: &str) -> (r: Option<(u64, u64)>)
    ensures
        r is Some <==> spec_has_dir(entries@, name@),
{
    let n = entries.len();
    let mut i: usize = 0;
    while i < n
        invariant
            i <= n,
            n == entries@.len(),
            forall|j: int| 0 <= j < i ==> !(entries@[j].name@ == name@ && entries@[j].is_dir),
        decreases n - i,
    {
        let e = &entries[i];
        if e.is_dir && str_eq(e.name.as_str(), name) {
            proof {
                assert(entries@[i as int].name@ == name@ && entries@[i as int].is_dir);
            }
            return Some((e.identity, e.mtime_secs));
        }
        i = i + 1;
    }
    None
}

/// A scan root with the identity and mtime its probe reported.
#[derive(Debug)]
pub struct RootSeed {
    /// The root path, as configured.
    pub path: String,
    /// Filesystem identity of the root directory.
    pub identity: u64,
    /// Last-modified time of the root directory.
    pub mtime: u64,
}

/// The scanning engine.  Drive it by asking `next_path` for a directory
/// and feeding its listing to `step`; every step consumes one unit of
/// the budget, so any driver loop terminates within `max_steps` steps.
#[derive(Debug)]
pub struct ScanEngine {
    /// The traversal limits the engine was configured with.
    pub config: ScanConfig,
    /// Directories still to visit, top of the stack last.
    pub queue: Vec<Task>,
    /// Identities of directories already classified.
    pub visited: Vec<u64>,
    /// Identities of directories already measured into an artifact.
    pub measure_visited: Vec<u64>,
    /// Projects emitted so far; artifact sizes grow while measuring
    /// tasks remain queued.
    pub projects: Vec<Project>,
    /// Monotone count of directories visited for classification.
    pub dirs_scanned: u64,
    /// Count of directories that could not be fully read.
    pub io_errors: u64,
    /// Remaining visit budget.
    pub steps_left: u64,
}

/// What one measuring visit leaves behind, when its directory was not
/// measured before: the identity is recorded, the listing's file bytes
/// and file count are folded into artifact `ai` of project `pi`
/// (saturated at u64::MAX), a failed read marks the artifact partial,
/// everything else about every project is kept, the base queue is kept,
/// and one further measuring task is queued per subdirectory entry that
/// is not a symlink.
pub open spec fn spec_measure_outcome(
    pre: ScanEngine,
    post: ScanEngine,
    task: Task,
    base: Seq<Task>,
    pi: int,
    ai: int,
    entries: Seq<FsEntry>,
    complete: bool,
) -> bool {
    let p0 = pre.projects@[pi];
                let a0 = p0.artifacts@[ai];
                let kids = spec_measure_children(entries);
                &&& post.measure_visited@ == pre.measure_visited@.push(task.identity)
                &&& post.projects@.len() == pre.projects@.len()
                &&& forall|a: int|
                    0 <= a < pre.projects@.len() && a != pi
                        ==> #[trigger] post.projects@[a] == pre.projects@[a]
                &&& post.projects@[pi] == (Project {
                    artifacts: post.projects@[pi].artifacts,
                    ..p0
                })
                &&& post.projects@[pi].artifacts@.len() == p0.artifacts@.len()
                &&& forall|k: int|
                    0 <= k < p0.artifacts@.len() && k != ai
                        ==> #[trigger] post.projects@[pi].artifacts@[k]
                        == p0.artifacts@[k]
                &&& post.projects@[pi].artifacts@[ai] == (Artifact {
                    size: (if a0.size + spec_file_size_sum(entries) <= u64::MAX as int {
                        (a0.size + spec_file_size_sum(entries)) as u64
                    } else {
                        u64::MAX
                    }),
                    file_count: (if a0.file_count + spec_file_count(entries)
                        <= u64::MAX as int {
                        (a0.file_count + spec_file_count(entries)) as u64
                    } else {
                        u64::MAX
                    }),
                    partial: a0.partial || !complete,
                    ..a0
                })
                &&& post.queue@.len() == base.len() + kids.len()
                &&& forall|i: int|
                    0 <= i < base.len() ==> #[trigger] post.queue@[i]
                        == base[i]
                &&& forall|m: int|
                    0 <= m < kids.len() ==> {
                        &&& (#[trigger] post.queue@[base.len() + m]).measure
                            matches Some((p, k2)) && p as int == pi && k2 as int == ai
                        &&& post.queue@[base.len() + m].parts.deep_view()
                            == task.parts.deep_view().push(kids[m])
                    }
}

/// What one classification visit leaves behind, when its directory was
/// not classified before: the identity is recorded, the scanned counter
/// and (on a failed read) the error counter grow by one (saturated), the
/// base queue is kept, and — by what the registry resolves on the
/// directory's own name and entries — either no project is emitted and
/// the chosen subdirectories are queued for classification (up to the
/// depth limit), or exactly one project is emitted as
/// `spec_emitted_project` says, one measuring task is queued per present
/// artifact, and the remaining subdirectories are queued for
/// classification.
pub open spec fn spec_visit_outcome(
    pre: ScanEngine,
    post: ScanEngine,
    registry: PluginRegistry,
    task: Task,
    base: Seq<Task>,
    entries: Seq<FsEntry>,
    complete: bool,
) -> bool {
    let name = spec_basename(task.parts.deep_view().last());
                let excl = pre.config.excluded_names.deep_view();
                &&& post.visited@ == pre.visited@.push(task.identity)
                &&& post.dirs_scanned as int == (if pre.dirs_scanned + 1
                    <= u64::MAX as int {
                    pre.dirs_scanned + 1
                } else {
                    u64::MAX as int
                })
                &&& post.io_errors as int == (if complete {
                    pre.io_errors as int
                } else if pre.io_errors + 1 <= u64::MAX as int {
                    pre.io_errors + 1
                } else {
                    u64::MAX as int
                })
                &&& forall|i: int|
                    0 <= i < base.len()
                        ==> #[trigger] post.queue@[i] == base[i]
                &&& match spec_best_marker(registry.markers@, name, entries) {
                    None => {
                        let picks = spec_pick_names(entries, Seq::empty(), excl);
                        &&& post.projects == pre.projects
                        &&& (task.depth < pre.config.max_depth ==> {
                            &&& post.queue@.len() == base.len() + picks.len()
                            &&& forall|m: int|
                                0 <= m < picks.len() ==> {
                                    &&& spec_is_visit(
                                        #[trigger] post.queue@[base.len() + m],
                                    )
                                    &&& post.queue@[base.len()
                                        + m].parts.deep_view() == task.parts.deep_view().push(
                                        picks[m],
                                    )
                                    &&& post.queue@[base.len() + m].depth as int
                                        == task.depth + 1
                                }
                        })
                        &&& (task.depth >= pre.config.max_depth ==> post.queue@ == base)
                    },
                    Some(b) => {
                        let mk = registry.markers@[b];
                        let dirs = spec_artifact_dirs(registry.extra_artifacts@, mk.kind);
                        let present = spec_present_artifacts(dirs, entries);
                        let picks = spec_pick_names(entries, dirs, excl);
                        &&& post.projects@.len() == pre.projects@.len() + 1
                        &&& forall|a: int|
                            0 <= a < pre.projects@.len()
                                ==> #[trigger] post.projects@[a] == pre.projects@[a]
                        &&& spec_emitted_project(
                            post.projects@.last(),
                            task.parts.deep_view(),
                            task.mtime,
                            mk,
                            dirs,
                            entries,
                        )
                        &&& forall|m: int|
                            0 <= m < present.len() ==> {
                                &&& (#[trigger] post.queue@[base.len()
                                    + m]).measure matches Some((p, k)) && p as int
                                    == pre.projects@.len() && k as int == m
                                &&& post.queue@[base.len()
                                    + m].parts.deep_view() == task.parts.deep_view().push(
                                    present[m],
                                )
                            }
                        &&& (task.depth < pre.config.max_depth ==> {
                            &&& post.queue@.len() == base.len() + present.len()
                                + picks.len()
                            &&& forall|m: int|
                                0 <= m < picks.len() ==> {
                                    &&& spec_is_visit(
                                        #[trigger] post.queue@[base.len()
                                            + present.len() + m],
                                    )
                                    &&& post.queue@[base.len() + present.len()
                                        + m].parts.deep_view() == task.parts.deep_view().push(
                                        picks[m],
                                    )
                                    &&& post.queue@[base.len() + present.len()
                                        + m].depth as int == task.depth + 1
                                }
                        })
                        &&& (task.depth >= pre.config.max_depth ==> post.queue@.len()
                            == base.len() + present.len())
                    },
                }
}

impl ScanEngine {
    /// The engine's invariant.
    pub open spec fn wf(self) -> bool {
        spec_engine_inv(self.queue@, self.projects@)
    }

    /// Whether a step can still be taken.
    pub open spec fn spec_has_work(self) -> bool {
        self.queue@.len() > 0 && self.steps_left > 0
    }

    /// Start a scan over pairwise-distinct roots.
    pub fn new(config: ScanConfig, seeds: Vec<RootSeed>) -> (r: ScanEngine)
        requires
            forall|i: int, j: int|
                #![trigger seeds@[i], seeds@[j]]
                0 <= i < seeds@.len() && 0 <= j < seeds@.len() && i != j ==> seeds@[i].path@
                    != seeds@[j].path@,
        ensures
            r.wf(),
            r.projects@.len() == 0,
            r.dirs_scanned == 0,
            r.io_errors == 0,
            r.steps_left == config.max_steps,
            r.config == config,
            r.visited@.len() == 0,
            r.measure_visited@.len() == 0,
            r.queue@.len() == seeds@.len(),
            forall|m: int|
                0 <= m < seeds@.len() ==> {
                    &&& spec_is_visit(#[trigger] r.queue@[m])
                    &&& r.queue@[m].parts.deep_view() == seq![seeds@[m].path@]
                    &&& r.queue@[m].depth == 0
                    &&& r.queue@[m].identity == seeds@[m].identity
                    &&& r.queue@[m].mtime == seeds@[m].mtime
                },
    {
        let ghost all = seeds@;
        let mut seeds = seeds;
        let mut queue: Vec<Task> = Vec::new();
        proof {
            assert(all.skip(0int) =~= all);
        }
        while seeds.len() > 0
            invariant
                queue@.len() + seeds@.len() == all.len(),
                seeds@ == all.skip(queue@.len() as int),
                forall|i: int, j: int|
                    #![trigger all[i], all[j]]
                    0 <= i < all.len() && 0 <= j < all.len() && i != j ==> all[i].path@
                        != all[j].path@,
                forall|m: int|
                    0 <= m < queue@.len() ==> {
                        &&& spec_is_visit(#[trigger] queue@[m])
                        &&& queue@[m].parts.deep_view() =~= seq![all[m].path@]
                        &&& queue@[m].depth == 0
                        &&& queue@[m].identity == all[m].identity
                        &&& queue@[m].mtime == all[m].mtime
                    },
            decreases seeds@.len(),
        {
            let ghost m = queue@.len() as int;
            let s = seeds.remove(0);
            proof {
                assert(s == all[m]);
                assert(seeds@ =~= all.skip(m + 1));
            }
            let parts: Vec<String> = vec![s.path];
            proof {
                assert(parts.deep_view() =~= seq![all[m].path@]);
            }
            queue.push(Task { parts, depth: 0, identity: s.identity, mtime: s.mtime, measure: None });
        }
        let projects: Vec<Project> = Vec::new();
        proof {
            assert forall|i: int, j: int|
                0 <= i < queue@.len() && 0 <= j < queue@.len() && i != j && spec_is_visit(
                #[trigger] queue@[i],
            ) && spec_is_visit(#[trigger] queue@[j]) implies !spec_parts_prefix(
                queue@[i].parts.deep_view(),
                queue@[j].parts.deep_view(),
            ) by {
                lemma_singleton_unrelated(all[i].path@, all[j].path@);
            }
            assert(spec_engine_inv(queue@, projects@));
        }
        let steps_left = config.max_steps;
        ScanEngine {
            config,
            queue,
            visited: Vec::new(),
            measure_visited: Vec::new(),
            projects,
            dirs_scanned: 0,
            io_errors: 0,
            steps_left,
        }
    }

    /// Whether a step can still be taken.
    pub fn has_work(&self) -> (r: bool)
        ensures
            r == self.spec_has_work(),
    {
        self.queue.len() > 0 && self.steps_left > 0
    }

    /// The display path of the directory the next step will process.
    pub fn next_path(&self) -> (r: Option<String>)
        requires
            self.wf(),
        ensures
            r is Some <==> self.spec_has_work(),
            r matches Some(p) ==> p@ == spec_join(
                self.queue@[self.queue@.len() - 1].parts.deep_view(),
            ),
    {
        if self.queue.len() > 0 && self.steps_left > 0 {
            let t = &self.queue[self.queue.len() - 1];
            proof {
                assert(t.parts.deep_view().len() >= 1);
            }
            Some(join_parts(&t.parts))
        } else {
            None
        }
    }

    /// Append one measuring task.
    fn push_task_measure(&mut self, t: Task)
        requires
            spec_engine_inv(old(self).queue@, old(self).projects@),
            t.measure matches Some((p, k)) && p < old(self).projects@.len() && k < old(
                self,
            ).projects@[p as int].artifacts@.len(),
            t.parts.deep_view().len() >= 1,
        ensures
            spec_engine_inv(final(self).queue@, final(self).projects@),
            final(self).queue@ == old(self).queue@.push(t),
            final(self).projects == old(self).projects,
            final(self).config == old(self).config,
            final(self).steps_left == old(self).steps_left,
            final(self).dirs_scanned == old(self).dirs_scanned,
            final(self).io_errors == old(self).io_errors,
            final(self).visited == old(self).visited,
            final(self).measure_visited == old(self).measure_visited,
    {
        proof {
            let q0 = self.queue@;
            let q1 = self.queue@.push(t);
            let ps = self.projects@;
            assert(!spec_is_visit(t));
            assert forall|i: int, j: int|
                0 <= i < q1.len() && 0 <= j < q1.len() && i != j && spec_is_visit(
                #[trigger] q1[i],
            ) && spec_is_visit(#[trigger] q1[j]) implies !spec_parts_prefix(
                q1[i].parts.deep_view(),
                q1[j].parts.deep_view(),
            ) by {
                assert(q1[i] == q0[i]);
                assert(q1[j] == q0[j]);
            }
            assert(spec_engine_inv(q1, ps)) by {
                assert forall|i: int|
                    0 <= i < q1.len() implies (#[trigger] q1[i]).parts.deep_view().len() >= 1 by {
                    if i < q0.len() {
                        assert(q1[i] == q0[i]);
                    }
                }
            }
        }
        self.queue.push(t);
    }

    /// Append one classification visit that is unrelated to everything
    /// already queued or emitted.
    fn push_task_visit(&mut self, t: Task)
        requires
            spec_engine_inv(old(self).queue@, old(self).projects@),
            t.measure is None,
            t.parts.deep_view().len() >= 1,
            forall|i: int|
                0 <= i < old(self).queue@.len() && spec_is_visit(#[trigger] old(self).queue@[i])
                    ==> !spec_parts_prefix(
                    old(self).queue@[i].parts.deep_view(),
                    t.parts.deep_view(),
                ) && !spec_parts_prefix(
                    t.parts.deep_view(),
                    old(self).queue@[i].parts.deep_view(),
                ),
            forall|a: int, k: int|
                0 <= a < old(self).projects@.len() && 0 <= k
                    < old(self).projects@[a].artifacts@.len() ==> !spec_parts_prefix(
                    #[trigger] spec_artifact_parts(old(self).projects@[a], k),
                    t.parts.deep_view(),
                ),
            forall|a: int|
                0 <= a < old(self).projects@.len() ==> !spec_parts_prefix(
                    t.parts.deep_view(),
                    (#[trigger] old(self).projects@[a]).root_parts.deep_view(),
                ),
        ensures
            spec_engine_inv(final(self).queue@, final(self).projects@),
            final(self).queue@ == old(self).queue@.push(t),
            final(self).projects == old(self).projects,
            final(self).config == old(self).config,
            final(self).steps_left == old(self).steps_left,
            final(self).dirs_scanned == old(self).dirs_scanned,
            final(self).io_errors == old(self).io_errors,
            final(self).visited == old(self).visited,
            final(self).measure_visited == old(self).measure_visited,
    {
        proof {
            let q0 = self.queue@;
            let q1 = self.queue@.push(t);
            let ps = self.projects@;
            assert forall|i: int, j: int|
                0 <= i < q1.len() && 0 <= j < q1.len() && i != j && spec_is_visit(
                #[trigger] q1[i],
            ) && spec_is_visit(#[trigger] q1[j]) implies !spec_parts_prefix(
                q1[i].parts.deep_view(),
                q1[j].parts.deep_view(),
            ) by {
                if i < q0.len() && j < q0.len() {
                    assert(q1[i] == q0[i]);
                    assert(q1[j] == q0[j]);
                } else if i < q0.len() {
                    assert(q1[i] == q0[i] && q1[j] == t);
                } else {
                    assert(q1[i] == t && q1[j] == q0[j]);
                }
            }
            assert forall|i: int, a: int, k: int|
                0 <= i < q1.len() && spec_is_visit(#[trigger] q1[i]) && 0 <= a < ps.len() && 0 <= k
                    < ps[a].artifacts@.len() implies !spec_parts_prefix(
                #[trigger] spec_artifact_parts(ps[a], k),
                q1[i].parts.deep_view(),
            ) by {
                if i < q0.len() {
                    assert(q1[i] == q0[i]);
                } else {
                    assert(q1[i] == t);
                }
            }
            assert forall|i: int, a: int|
                0 <= i < q1.len() && spec_is_visit(#[trigger] q1[i]) && 0 <= a < ps.len()
                implies !spec_parts_prefix(
                q1[i].parts.deep_view(),
                (#[trigger] ps[a]).root_parts.deep_view(),
            ) by {
                if i < q0.len() {
                    assert(q1[i] == q0[i]);
                } else {
                    assert(q1[i] == t);
                }
            }
            assert forall|i: int|
                0 <= i < q1.len() implies (#[trigger] q1[i]).parts.deep_view().len() >= 1 by {
                if i < q0.len() {
                    assert(q1[i] == q0[i]);
                }
            }
            assert forall|i: int|
                0 <= i < q1.len() implies match (#[trigger] q1[i]).measure {
                None => true,
                Some((p, k)) => p < ps.len() && k < ps[p as int].artifacts@.len(),
            } by {
                if i < q0.len() {
                    assert(q1[i] == q0[i]);
                }
            }
            assert(spec_engine_inv(q1, ps));
        }
        self.queue.push(t);
    }

    /// Process a measuring visit.  A directory whose identity was
    /// measured before (a symlink cycle, a repeated artifact entry) is
    /// skipped whole.  Otherwise the listing's file sizes and file count
    /// are folded into artifact `ai` of project `pi` (saturated at
    /// u64::MAX), a failed read marks the artifact partial, and one
    /// further measuring task is queued per subdirectory entry that is
    /// not a symlink.  Nothing else changes.
    fn step_measure(&mut self, task: Task, pi: usize, ai: usize, entries: Vec<FsEntry>, complete: bool)
        requires
            spec_engine_inv(old(self).queue@, old(self).projects@),
            pi < old(self).projects@.len(),
            ai < old(self).projects@[pi as int].artifacts@.len(),
        ensures
            spec_engine_inv(final(self).queue@, final(self).projects@),
            final(self).config == old(self).config,
            final(self).steps_left == old(self).steps_left,
            final(self).dirs_scanned == old(self).dirs_scanned,
            final(self).io_errors == old(self).io_errors,
            final(self).visited == old(self).visited,
            old(self).measure_visited@.contains(task.identity) ==> *final(self) == *old(self),
            !old(self).measure_visited@.contains(task.identity) ==> spec_measure_outcome(
                *old(self),
                *final(self),
                task,
                old(self).queue@,
                pi as int,
                ai as int,
                entries@,
                complete,
            ),
    {
        if contains_u64(&self.measure_visited, task.identity) {
            // This directory was measured before: a symlink cycle or a
            // repeated artifact entry.  Count nothing twice.
            return ;
        }
        self.measure_visited.push(task.identity);
        let ghost ps0 = self.projects@;
        let cur_size = self.projects[pi].artifacts[ai].size;
        let cur_files = self.projects[pi].artifacts[ai].file_count;
        let tallied = tally_listing(cur_size, cur_files, &entries);
        self.projects[pi].artifacts[ai].size = tallied.0;
        self.projects[pi].artifacts[ai].file_count = tallied.1;
        if !complete {
            self.projects[pi].artifacts[ai].partial = true;
        }
        proof {
            let ps1 = self.projects@;
            assert(ps1.len() == ps0.len());
            assert forall|a: int| 0 <= a < ps1.len() implies spec_same_shape(
                ps0[a],
                #[trigger] ps1[a],
            ) by {
                if a != pi as int {
                    assert(ps1[a] == ps0[a]);
                }
            }
            lemma_no_nested_pointwise(ps0, ps1);
            assert forall|i2: int, a: int, k: int|
                0 <= i2 < self.queue@.len() && spec_is_visit(#[trigger] self.queue@[i2]) && 0 <= a
                    < ps1.len() && 0 <= k < ps1[a].artifacts@.len() implies !spec_parts_prefix(
                #[trigger] spec_artifact_parts(ps1[a], k),
                self.queue@[i2].parts.deep_view(),
            ) by {
                assert(spec_same_shape(ps0[a], ps1[a]));
                assert(spec_artifact_parts(ps1[a], k) =~= spec_artifact_parts(ps0[a], k));
                assert(!spec_parts_prefix(
                    spec_artifact_parts(ps0[a], k),
                    self.queue@[i2].parts.deep_view(),
                ));
            }
            assert forall|i2: int, a: int|
                0 <= i2 < self.queue@.len() && spec_is_visit(#[trigger] self.queue@[i2]) && 0 <= a
                    < ps1.len() implies !spec_parts_prefix(
                self.queue@[i2].parts.deep_view(),
                (#[trigger] ps1[a]).root_parts.deep_view(),
            ) by {
                assert(spec_same_shape(ps0[a], ps1[a]));
            }
            assert forall|i2: int|
                0 <= i2 < self.queue@.len() implies match (#[trigger] self.queue@[i2]).measure {
                None => true,
                Some((p, k)) => p < ps1.len() && k < ps1[p as int].artifacts@.len(),
            } by {
                match self.queue@[i2].measure {
                    None => {},
                    Some((p, k)) => {
                        assert(spec_same_shape(ps0[p as int], ps1[p as int]));
                    },
                }
            }
            assert(spec_engine_inv(self.queue@, ps1));
        }
        // Descend into the subdirectories, still measuring; never through
        // a symlink.
        let ghost q1 = self.queue@;
        let ghost psu = self.projects@;
        proof {
            assert(q1 == old(self).queue@);
            assert(entries@.take(0int) =~= Seq::<FsEntry>::empty());
        }
        let m = entries.len();
        let mut j: usize = 0;
        while j < m
            invariant
                j <= m,
                m == entries@.len(),
                spec_engine_inv(self.queue@, self.projects@),
                pi < self.projects@.len(),
                ai < self.projects@[pi as int].artifacts@.len(),
                self.config == old(self).config,
                self.steps_left == old(self).steps_left,
                self.dirs_scanned == old(self).dirs_scanned,
                self.io_errors == old(self).io_errors,
                self.visited == old(self).visited,
                self.measure_visited@ == old(self).measure_visited@.push(task.identity),
                self.projects@ == psu,
                self.queue@.len() == q1.len() + spec_measure_children(
                    entries@.take(j as int),
                ).len(),
                forall|i: int| 0 <= i < q1.len() ==> #[trigger] self.queue@[i] == q1[i],
                forall|mm: int|
                    0 <= mm < spec_measure_children(entries@.take(j as int)).len() ==> {
                        &&& (#[trigger] self.queue@[q1.len() + mm]).measure == Some((pi, ai))
                        &&& self.queue@[q1.len() + mm].parts.deep_view()
                            == task.parts.deep_view().push(
                            spec_measure_children(entries@.take(j as int))[mm],
                        )
                    },
            decreases m - j,
        {
            proof {
                assert(entries@.take(j as int + 1).drop_last() =~= entries@.take(j as int));
                assert(entries@.take(j as int + 1).last() == entries@[j as int]);
            }
            if entries[j].is_dir && !entries[j].is_symlink {
                let parts = parts_push(&task.parts, &entries[j].name);
                let depth = sat_add(task.depth, 1);
                let ghost qb = self.queue@;
                self.push_task_measure(
                    Task {
                        parts,
                        depth,
                        identity: entries[j].identity,
                        mtime: entries[j].mtime_secs,
                        measure: Some((pi, ai)),
                    },
                );
                proof {
                    let kids1 = spec_measure_children(entries@.take(j as int + 1));
                    let kids0 = spec_measure_children(entries@.take(j as int));
                    assert(kids1 == kids0.push(entries@[j as int].name@));
                    assert forall|mm: int| 0 <= mm < kids1.len() implies {
                        &&& (#[trigger] self.queue@[q1.len() + mm]).measure == Some((pi, ai))
                        &&& self.queue@[q1.len() + mm].parts.deep_view()
                            == task.parts.deep_view().push(kids1[mm])
                    } by {
                        if mm < kids0.len() {
                            assert(self.queue@[q1.len() + mm] == qb[q1.len() + mm]);
                            assert(kids1[mm] == kids0[mm]);
                        } else {
                            assert(self.queue@[q1.len() + mm].parts.deep_view()
                                == task.parts.deep_view().push(entries@[j as int].name@));
                        }
                    }
                }
            }
            j = j + 1;
        }
        proof {
            assert(entries@.take(m as int) =~= entries@);
        }
    }

    /// Enqueue classification visits for the chosen subdirectories of a
    /// directory whose own visit just ended.
    #[verifier::loop_isolation(false)]
    fn push_children(&mut self, task_parts: &Vec<String>, depth: u64, picks: Vec<ChildPick>)
        requires
            spec_engine_inv(old(self).queue@, old(self).projects@),
            task_parts.deep_view().len() >= 1,
            depth < u64::MAX,
            forall|i: int|
                0 <= i < old(self).queue@.len() && spec_is_visit(#[trigger] old(self).queue@[i])
                    ==> !spec_parts_prefix(
                    old(self).queue@[i].parts.deep_view(),
                    task_parts.deep_view(),
                ) && !spec_parts_prefix(
                    task_parts.deep_view(),
                    old(self).queue@[i].parts.deep_view(),
                ),
            forall|a: int, k: int|
                0 <= a < old(self).projects@.len() && 0 <= k
                    < old(self).projects@[a].artifacts@.len() ==> !spec_parts_prefix(
                    #[trigger] spec_artifact_parts(old(self).projects@[a], k),
                    task_parts.deep_view(),
                ),
            forall|a: int|
                0 <= a < old(self).projects@.len() ==> ((#[trigger] old(
                    self,
                ).projects@[a]).root_parts.deep_view() == task_parts.deep_view()
                    || !spec_parts_prefix(
                    task_parts.deep_view(),
                    old(self).projects@[a].root_parts.deep_view(),
                )),
            forall|a: int, k: int, m: int|
                #![trigger old(self).projects@[a].artifacts@[k], picks@[m]]
                0 <= a < old(self).projects@.len() && 0 <= k
                    < old(self).projects@[a].artifacts@.len() && 0 <= m < picks@.len() && old(
                    self,
                ).projects@[a].root_parts.deep_view() == task_parts.deep_view() ==> old(
                    self,
                ).projects@[a].artifacts@[k].name@ != picks@[m].name@,
            forall|m: int, m2: int|
                #![trigger picks@[m], picks@[m2]]
                0 <= m < m2 < picks@.len() ==> picks@[m].name@ != picks@[m2].name@,
        ensures
            spec_engine_inv(final(self).queue@, final(self).projects@),
            final(self).projects == old(self).projects,
            final(self).config == old(self).config,
            final(self).steps_left == old(self).steps_left,
            final(self).dirs_scanned == old(self).dirs_scanned,
            final(self).io_errors == old(self).io_errors,
            final(self).visited == old(self).visited,
            final(self).measure_visited == old(self).measure_visited,
            final(self).queue@.len() == old(self).queue@.len() + picks@.len(),
            forall|i: int|
                0 <= i < old(self).queue@.len() ==> #[trigger] final(self).queue@[i] == old(
                    self,
                ).queue@[i],
            forall|mm: int|
                0 <= mm < picks@.len() ==> {
                    &&& spec_is_visit(#[trigger] final(self).queue@[old(self).queue@.len() + mm])
                    &&& final(self).queue@[old(self).queue@.len() + mm].parts.deep_view()
                        == task_parts.deep_view().push(picks@[mm].name@)
                    &&& final(self).queue@[old(self).queue@.len() + mm].depth as int == depth + 1
                },
    {
        let ghost q0 = self.queue@;
        let ghost parent = task_parts.deep_view();
        let pn = picks.len();
        let mut m: usize = 0;
        while m < pn
            invariant
                m <= pn,
                pn == picks@.len(),
                q0 == old(self).queue@,
                parent == task_parts.deep_view(),
                spec_engine_inv(self.queue@, self.projects@),
                self.queue@.len() == q0.len() + m,
                forall|i: int| 0 <= i < q0.len() ==> #[trigger] self.queue@[i] == q0[i],
                forall|mm: int|
                    0 <= mm < m ==> {
                        &&& spec_is_visit(#[trigger] self.queue@[q0.len() + mm])
                        &&& self.queue@[q0.len() + mm].parts.deep_view() == parent.push(
                            picks@[mm].name@,
                        )
                        &&& self.queue@[q0.len() + mm].depth as int == depth + 1
                    },
                self.projects == old(self).projects,
                self.config == old(self).config,
                self.steps_left == old(self).steps_left,
                self.dirs_scanned == old(self).dirs_scanned,
                self.io_errors == old(self).io_errors,
                self.visited == old(self).visited,
                self.measure_visited == old(self).measure_visited,
            decreases pn - m,
        {
            let nm = &picks[m].name;
            proof {
                assert(nm@ == picks@[m as int].name@);
            }
            let parts = parts_push(task_parts, nm);
            proof {
                assert(parts.deep_view() == task_parts.deep_view().push(nm@));
                assert(task_parts.deep_view() == parent);
                assert(parts.deep_view() == parent.push(picks@[m as int].name@));
            }
            let t = Task {
                parts,
                depth: sat_add(depth, 1),
                identity: picks[m].identity,
                mtime: picks[m].mtime,
                measure: None,
            };
            proof {
                let child = parent.push(picks@[m as int].name@);
                let ps = self.projects@;
                assert(t.parts.deep_view() == child);
                assert forall|i: int|
                    0 <= i < self.queue@.len() && spec_is_visit(#[trigger] self.queue@[i])
                    implies !spec_parts_prefix(self.queue@[i].parts.deep_view(), child)
                    && !spec_parts_prefix(child, self.queue@[i].parts.deep_view()) by {
                    if i < q0.len() {
                        assert(self.queue@[i] == q0[i]);
                        assert(spec_is_visit(old(self).queue@[i]));
                        assert(!spec_parts_prefix(
                            old(self).queue@[i].parts.deep_view(),
                            task_parts.deep_view(),
                        ));
                        assert(!spec_parts_prefix(
                            task_parts.deep_view(),
                            old(self).queue@[i].parts.deep_view(),
                        ));
                        lemma_child_unrelated(
                            parent,
                            picks@[m as int].name@,
                            q0[i].parts.deep_view(),
                        );
                    } else {
                        let mm = i - q0.len();
                        assert(self.queue@[q0.len() + mm].parts.deep_view() == parent.push(
                            picks@[mm].name@,
                        ));
                        assert(self.queue@[i].parts.deep_view() == parent.push(picks@[mm].name@));
                        assert(picks@[mm].name@ != picks@[m as int].name@);
                        lemma_sibling_unrelated(parent, picks@[mm].name@, picks@[m as int].name@);
                        lemma_sibling_unrelated(parent, picks@[m as int].name@, picks@[mm].name@);
                    }
                }
                assert forall|a: int, k: int|
                    0 <= a < ps.len() && 0 <= k < ps[a].artifacts@.len() implies !spec_parts_prefix(
                    #[trigger] spec_artifact_parts(ps[a], k),
                    child,
                ) by {
                    let art = spec_artifact_parts(ps[a], k);
                    if spec_parts_prefix(art, child) {
                        lemma_prefix_of_push(art, parent, picks@[m as int].name@);
                        if art.len() <= parent.len() {
                            assert(!spec_parts_prefix(art, parent));
                        } else {
                            assert(art.len() == ps[a].root_parts.deep_view().len() + 1);
                            assert(art.len() == parent.len() + 1);
                            lemma_push_inj(
                                ps[a].root_parts.deep_view(),
                                ps[a].artifacts@[k].name@,
                                parent,
                                picks@[m as int].name@,
                            );
                            assert(ps[a].root_parts.deep_view() == parent);
                            assert(ps[a].artifacts@[k].name@ != picks@[m as int].name@);
                        }
                    }
                }
                assert forall|a: int| 0 <= a < ps.len() implies !spec_parts_prefix(
                    child,
                    (#[trigger] ps[a]).root_parts.deep_view(),
                ) by {
                    if spec_parts_prefix(child, ps[a].root_parts.deep_view()) {
                        lemma_push_prefix(parent, picks@[m as int].name@, ps[a].root_parts.deep_view());
                        assert(spec_parts_prefix(parent, ps[a].root_parts.deep_view()));
                        if ps[a].root_parts.deep_view() == parent {
                            assert(child.len() > parent.len());
                        }
                    }
                }
            }
            self.push_task_visit(t);
            m = m + 1;
        }
    }

    /// Process a classification visit: apply the exclusion policy,
    /// resolve the kind, emit a project with its recognized artifacts,
    /// queue the artifact measurement, and descend into the remaining
    /// subdirectories.
    #[verifier::loop_isolation(false)]
    #[verifier::rlimit(100)]
    fn step_visit(
        &mut self,
        registry: &PluginRegistry,
        task: Task,
        entries: Vec<FsEntry>,
        complete: bool,
    )
        requires
            spec_engine_inv(old(self).queue@, old(self).projects@),
            task.measure is None,
            task.parts@.len() >= 1,
            forall|i: int|
                0 <= i < old(self).queue@.len() && spec_is_visit(#[trigger] old(self).queue@[i])
                    ==> !spec_parts_prefix(
                    old(self).queue@[i].parts.deep_view(),
                    task.parts.deep_view(),
                ) && !spec_parts_prefix(
                    task.parts.deep_view(),
                    old(self).queue@[i].parts.deep_view(),
                ),
            forall|a: int, k: int|
                0 <= a < old(self).projects@.len() && 0 <= k
                    < old(self).projects@[a].artifacts@.len() ==> !spec_parts_prefix(
                    #[trigger] spec_artifact_parts(old(self).projects@[a], k),
                    task.parts.deep_view(),
                ),
            forall|a: int|
                0 <= a < old(self).projects@.len() ==> !spec_parts_prefix(
                    task.parts.deep_view(),
                    (#[trigger] old(self).projects@[a]).root_parts.deep_view(),
                ),
        ensures
            spec_engine_inv(final(self).queue@, final(self).projects@),
            final(self).config == old(self).config,
            final(self).steps_left == old(self).steps_left,
            final(self).dirs_scanned >= old(self).dirs_scanned,
            final(self).measure_visited == old(self).measure_visited,
            old(self).visited@.contains(task.identity) ==> *final(self) == *old(self),
            !old(self).visited@.contains(task.identity) ==> spec_visit_outcome(
                *old(self),
                *final(self),
                *registry,
                task,
                old(self).queue@,
                entries@,
                complete,
            ),
    {
        if contains_u64(&self.visited, task.identity) {
            // Pruned: this filesystem identity was already classified.
            return ;
        }
        self.visited.push(task.identity);
        self.dirs_scanned = sat_add(self.dirs_scanned, 1);
        if !complete {
            self.io_errors = sat_add(self.io_errors, 1);
        }
        let ghost vis1 = self.visited@;
        let ghost ds1 = self.dirs_scanned;
        let ghost io1 = self.io_errors;
        let ghost ents = entries@;
        let dir_name = basename_of(task.parts[task.parts.len() - 1].as_str());
        proof {
            assert(task.parts.deep_view().last() == task.parts@[task.parts@.len() - 1]@);
        }
        let listing = DirListing { name: dir_name, entries };
        let resolved = registry.resolve_index(&listing);
        match resolved {
            None => {
                // Not a project root; traversal still descends.
                if task.depth < self.config.max_depth {
                    let empty_skip: Vec<String> = Vec::new();
                    let picks = pick_children(
                        &listing.entries,
                        &empty_skip,
                        &self.config.excluded_names,
                    );
                    proof {
                        assert(empty_skip.deep_view() =~= Seq::<Seq<char>>::empty());
                        assert forall|a: int| 0 <= a < self.projects@.len() implies ((#[trigger]
                        self.projects@[a]).root_parts.deep_view() == task.parts.deep_view()
                            || !spec_parts_prefix(
                            task.parts.deep_view(),
                            self.projects@[a].root_parts.deep_view(),
                        )) by {}
                        assert forall|a: int, k: int, m: int|
                            0 <= a < self.projects@.len() && 0 <= k
                                < self.projects@[a].artifacts@.len() && 0 <= m < picks@.len()
                                && self.projects@[a].root_parts.deep_view()
                                == task.parts.deep_view() implies (#[trigger]
                        self.projects@[a].artifacts@[k]).name@ != (#[trigger] picks@[m]).name@ by {
                            lemma_prefix_reflexive(task.parts.deep_view());
                            assert(!spec_parts_prefix(
                                task.parts.deep_view(),
                                self.projects@[a].root_parts.deep_view(),
                            ));
                        }
                    }
                    self.push_children(&task.parts, task.depth, picks);
                }
            },
            Some(mi) => {
                let kind = registry.markers[mi].kind;
                let dirs = registry.artifact_dirs(kind);
                let mnames = marker_file_names(&registry.markers[mi].indicator);
                let lm = mtime_max(task.mtime, &mnames, &listing.entries);
                let root_str = join_parts(&task.parts);
                // Attach one artifact per registered directory present.
                let mut artifacts: Vec<Artifact> = Vec::new();
                let mut apicks: Vec<ChildPick> = Vec::new();
                let dn = dirs.len();
                let mut di: usize = 0;
                proof {
                    assert(dirs.deep_view().take(0int) =~= Seq::<Seq<char>>::empty());
                }
                while di < dn
                    invariant
                        di <= dn,
                        dn == dirs@.len(),
                        artifacts@.len() == apicks@.len(),
                        forall|k: int|
                            0 <= k < artifacts@.len() ==> dirs.deep_view().contains(
                                (#[trigger] artifacts@[k]).name@,
                            ),
                        artifacts@.len() == spec_present_artifacts(
                            dirs.deep_view().take(di as int),
                            ents,
                        ).len(),
                        forall|k: int|
                            0 <= k < artifacts@.len() ==> {
                                &&& (#[trigger] artifacts@[k]).name@ == spec_present_artifacts(
                                    dirs.deep_view().take(di as int),
                                    ents,
                                )[k]
                                &&& artifacts@[k].path@ == root_str@ + "/"@ + artifacts@[k].name@
                                &&& artifacts@[k].size == 0
                                &&& artifacts@[k].file_count == 0
                                &&& !artifacts@[k].partial
                            },
                        forall|k: int|
                            0 <= k < apicks@.len() ==> (#[trigger] apicks@[k]).name@
                                == artifacts@[k].name@,
                    decreases dn - di,
                {
                    proof {
                        assert(dirs.deep_view().take(di as int + 1).drop_last()
                            =~= dirs.deep_view().take(di as int));
                        assert(dirs.deep_view().take(di as int + 1).last() == dirs.deep_view()[di as int]);
                        assert(dirs.deep_view()[di as int] == dirs@[di as int]@);
                    }
                    match find_dir_entry(&listing.entries, dirs[di].as_str()) {
                        Some((ident, mt)) => {
                            let a_path = join_under(root_str.as_str(), dirs[di].as_str());
                            let ghost arts_before = artifacts@;
                            artifacts.push(
                                Artifact {
                                    name: dirs[di].clone(),
                                    path: a_path,
                                    size: 0,
                                    file_count: 0,
                                    partial: false,
                                },
                            );
                            apicks.push(
                                ChildPick { name: dirs[di].clone(), identity: ident, mtime: mt },
                            );
                            proof {
                                assert(spec_has_dir(ents, dirs.deep_view()[di as int]));
                                assert(artifacts@[arts_before.len() as int].name@ == dirs.deep_view()[di as int]);
                                assert forall|k: int|
                                    0 <= k < artifacts@.len() implies dirs.deep_view().contains(
                                    (#[trigger] artifacts@[k]).name@,
                                ) by {
                                    if k < arts_before.len() {
                                        assert(artifacts@[k] == arts_before[k]);
                                    }
                                }
                                assert forall|k: int|
                                    0 <= k < artifacts@.len() implies {
                                    &&& (#[trigger] artifacts@[k]).name@ == spec_present_artifacts(
                                        dirs.deep_view().take(di as int + 1),
                                        ents,
                                    )[k]
                                    &&& artifacts@[k].path@ == root_str@ + "/"@
                                        + artifacts@[k].name@
                                    &&& artifacts@[k].size == 0
                                    &&& artifacts@[k].file_count == 0
                                    &&& !artifacts@[k].partial
                                } by {
                                    if k < arts_before.len() {
                                        assert(artifacts@[k] == arts_before[k]);
                                    }
                                }
                            }
                        },
                        None => {
                            proof {
                                assert(!spec_has_dir(ents, dirs.deep_view()[di as int]));
                            }
                        },
                    }
                    di = di + 1;
                }
                proof {
                    assert(dirs.deep_view().take(dn as int) =~= dirs.deep_view());
                }
                // Emit the project.
                let id = ProjectId::from_path(root_str.as_str());
                let root_parts = task.parts.clone();
                let ghost arts = artifacts@;
                let name = listing.name.clone();
                let project = Project {
                    id,
                    kind,
                    root: root_str,
                    root_parts,
                    name,
                    last_modified: if lm > 0 {
                        Some(lm)
                    } else {
                        None
                    },
                    git_status: None,
                    artifacts,
                    total_size: 0,
                    cleanable_size: 0,
                };
                let ghost ps0 = self.projects@;
                let ghost parent = task.parts.deep_view();
                proof {
                    assert(project.root_parts.deep_view() == parent);
                    assert(project.artifacts@ == arts);
                    assert(kind == registry.markers@[mi as int].kind);
                    assert(mnames.deep_view() == spec_marker_file_names(
                        registry.markers@[mi as int].indicator.shape(),
                    ));
                    assert(dirs.deep_view() == spec_artifact_dirs(
                        registry.extra_artifacts@,
                        kind,
                    ));
                    assert(project.name@ == spec_basename(parent.last()));
                    assert(spec_emitted_project(
                        project,
                        parent,
                        task.mtime,
                        registry.markers@[mi as int],
                        dirs.deep_view(),
                        ents,
                    ));
                }
                let pi = self.projects.len();
                self.projects.push(project);
                let ghost psp = self.projects@;
                proof {
                    let ps1 = self.projects@;
                    let q = self.queue@;
                    assert(ps1[pi as int].root_parts.deep_view() == parent);
                    assert(ps1[pi as int].artifacts@ == arts);
                    assert forall|i: int, a: int, k: int|
                        0 <= i < q.len() && spec_is_visit(#[trigger] q[i]) && 0 <= a < ps1.len()
                            && 0 <= k < ps1[a].artifacts@.len() implies !spec_parts_prefix(
                        #[trigger] spec_artifact_parts(ps1[a], k),
                        q[i].parts.deep_view(),
                    ) by {
                        if a < ps0.len() {
                            assert(ps1[a] == ps0[a]);
                            assert(spec_artifact_parts(ps1[a], k) == spec_artifact_parts(
                                ps0[a],
                                k,
                            ));
                        } else {
                            assert(spec_artifact_parts(ps1[a], k) == parent.push(
                                arts[k].name@,
                            ));
                            lemma_child_unrelated(parent, arts[k].name@, q[i].parts.deep_view());
                        }
                    }
                    assert forall|i: int, a: int|
                        0 <= i < q.len() && spec_is_visit(#[trigger] q[i]) && 0 <= a < ps1.len()
                        implies !spec_parts_prefix(
                        q[i].parts.deep_view(),
                        (#[trigger] ps1[a]).root_parts.deep_view(),
                    ) by {
                        if a < ps0.len() {
                            assert(ps1[a] == ps0[a]);
                        }
                    }
                    assert forall|a: int, b: int, k: int|
                        0 <= a < ps1.len() && 0 <= b < ps1.len() && 0 <= k
                            < ps1[a].artifacts@.len() implies !spec_parts_prefix(
                        #[trigger] spec_artifact_parts(ps1[a], k),
                        (#[trigger] ps1[b]).root_parts.deep_view(),
                    ) by {
                        if a < ps0.len() && b < ps0.len() {
                            assert(ps1[a] == ps0[a] && ps1[b] == ps0[b]);
                            assert(spec_artifact_parts(ps1[a], k) == spec_artifact_parts(
                                ps0[a],
                                k,
                            ));
                        } else if a < ps0.len() {
                            // old artifact above the new root = the visited directory
                            assert(ps1[a] == ps0[a]);
                            assert(spec_artifact_parts(ps1[a], k) == spec_artifact_parts(
                                ps0[a],
                                k,
                            ));
                            assert(ps1[b].root_parts.deep_view() == parent);
                            assert(!spec_parts_prefix(spec_artifact_parts(ps0[a], k), parent));
                        } else if b < ps0.len() {
                            // new artifact above an old root
                            assert(ps1[b] == ps0[b]);
                            assert(spec_artifact_parts(ps1[a], k) == parent.push(arts[k].name@));
                            if spec_parts_prefix(
                                parent.push(arts[k].name@),
                                ps0[b].root_parts.deep_view(),
                            ) {
                                lemma_push_prefix(
                                    parent,
                                    arts[k].name@,
                                    ps0[b].root_parts.deep_view(),
                                );
                            }
                        } else {
                            // new artifact above the new root: longer, impossible
                            assert(spec_artifact_parts(ps1[a], k) == parent.push(arts[k].name@));
                            assert(ps1[b].root_parts.deep_view() == parent);
                        }
                    }
                    assert forall|i: int|
                        0 <= i < q.len() implies match (#[trigger] q[i]).measure {
                        None => true,
                        Some((p, k)) => p < ps1.len() && k < ps1[p as int].artifacts@.len(),
                    } by {
                        match q[i].measure {
                            None => {},
                            Some((p, k)) => {
                                assert(p < ps0.len());
                                assert(ps1[p as int] == ps0[p as int]);
                            },
                        }
                    }
                    assert(spec_engine_inv(q, ps1));
                }
                // Queue the artifact measurements.
                let an = apicks.len();
                let mut k: usize = 0;
                while k < an
                    invariant
                        k <= an,
                        an == apicks@.len(),
                        spec_engine_inv(self.queue@, self.projects@),
                        pi < self.projects@.len(),
                        an <= self.projects@[pi as int].artifacts@.len(),
                        self.config == old(self).config,
                        self.steps_left == old(self).steps_left,
                        self.dirs_scanned >= old(self).dirs_scanned,
                        self.dirs_scanned == ds1,
                        self.io_errors == io1,
                        self.visited@ == vis1,
                        self.measure_visited == old(self).measure_visited,
                        self.projects@ == psp,
                        self.queue@.len() == old(self).queue@.len() + k,
                        forall|i: int|
                            0 <= i < old(self).queue@.len() ==> #[trigger] self.queue@[i] == old(
                                self,
                            ).queue@[i],
                        forall|kk: int|
                            0 <= kk < k ==> {
                                &&& (#[trigger] self.queue@[old(self).queue@.len()
                                    + kk]).measure matches Some((p, k2)) && p == pi && k2 as int
                                    == kk
                                &&& self.queue@[old(self).queue@.len() + kk].parts.deep_view()
                                    == parent.push(apicks@[kk].name@)
                            },
                        forall|i: int|
                            0 <= i < self.queue@.len() && spec_is_visit(
                                #[trigger] self.queue@[i],
                            ) ==> !spec_parts_prefix(
                                self.queue@[i].parts.deep_view(),
                                task.parts.deep_view(),
                            ) && !spec_parts_prefix(
                                task.parts.deep_view(),
                                self.queue@[i].parts.deep_view(),
                            ),
                        forall|a: int, kk: int|
                            0 <= a < self.projects@.len() && 0 <= kk
                                < self.projects@[a].artifacts@.len() ==> !spec_parts_prefix(
                                #[trigger] spec_artifact_parts(self.projects@[a], kk),
                                task.parts.deep_view(),
                            ) || a == pi as int,
                        forall|a: int|
                            0 <= a < self.projects@.len() ==> ((#[trigger]
                            self.projects@[a]).root_parts.deep_view() == task.parts.deep_view()
                                || !spec_parts_prefix(
                                task.parts.deep_view(),
                                self.projects@[a].root_parts.deep_view(),
                            )),
                        self.projects@.len() == ps0.len() + 1,
                        self.projects@[pi as int].root_parts.deep_view() == parent,
                        self.projects@[pi as int].artifacts@ == arts,
                        forall|a: int|
                            0 <= a < ps0.len() ==> #[trigger] self.projects@[a] == ps0[a],
                    decreases an - k,
                {
                    let parts = parts_push(&task.parts, &apicks[k].name);
                    self.push_task_measure(
                        Task {
                            parts,
                            depth: sat_add(task.depth, 1),
                            identity: apicks[k].identity,
                            mtime: apicks[k].mtime,
                            measure: Some((pi, k)),
                        },
                    );
                    k = k + 1;
                }
                // Descend into the other subdirectories; never into the
                // recognized artifacts.
                if task.depth < self.config.max_depth {
                    let picks = pick_children(&listing.entries, &dirs, &self.config.excluded_names);
                    proof {
                        let ps = self.projects@;
                        assert forall|a: int, kk: int|
                            0 <= a < ps.len() && 0 <= kk < ps[a].artifacts@.len()
                            implies !spec_parts_prefix(
                            #[trigger] spec_artifact_parts(ps[a], kk),
                            task.parts.deep_view(),
                        ) by {
                            if a == pi as int {
                                assert(spec_artifact_parts(ps[a], kk) == parent.push(
                                    arts[kk].name@,
                                ));
                            }
                        }
                        assert forall|a: int, kk: int, m: int|
                            0 <= a < ps.len() && 0 <= kk < ps[a].artifacts@.len() && 0 <= m
                                < picks@.len() && ps[a].root_parts.deep_view()
                                == task.parts.deep_view() implies (#[trigger] ps[a].artifacts@[kk]).name@
                            != (#[trigger] picks@[m]).name@ by {
                            if a < ps0.len() {
                                assert(ps[a] == ps0[a]);
                                lemma_prefix_reflexive(task.parts.deep_view());
                                assert(!spec_parts_prefix(
                                    task.parts.deep_view(),
                                    ps0[a].root_parts.deep_view(),
                                ));
                            } else {
                                assert(ps[a].artifacts@ == arts);
                                assert(dirs.deep_view().contains(arts[kk].name@));
                                assert(!dirs.deep_view().contains(picks@[m].name@));
                            }
                        }
                    }
                    self.push_children(&task.parts, task.depth, picks);
                }
            },
        }
    }

    /// Take one step: pop the queued directory the driver just read and
    /// process it with the listing.  Each step consumes one unit of the
    /// budget, whatever happens, so a scan can never run longer than its
    /// configured budget — symlink cycles included.
    pub fn step(&mut self, registry: &PluginRegistry, entries: Vec<FsEntry>, complete: bool)
        requires
            old(self).wf(),
            old(self).spec_has_work(),
        ensures
            final(self).wf(),
            final(self).steps_left == old(self).steps_left - 1,
            final(self).config == old(self).config,
            final(self).dirs_scanned >= old(self).dirs_scanned,
            ({
                let task = old(self).queue@.last();
                let base = old(self).queue@.drop_last();
                match task.measure {
                    Some((pi, ai)) => {
                        &&& final(self).visited == old(self).visited
                        &&& final(self).dirs_scanned == old(self).dirs_scanned
                        &&& final(self).io_errors == old(self).io_errors
                        &&& (old(self).measure_visited@.contains(task.identity)
                            ==> final(self).projects == old(self).projects && final(self).queue@
                            == base && final(self).measure_visited == old(self).measure_visited)
                        &&& (!old(self).measure_visited@.contains(task.identity)
                            ==> spec_measure_outcome(
                            *old(self),
                            *final(self),
                            task,
                            base,
                            pi as int,
                            ai as int,
                            entries@,
                            complete,
                        ))
                    },
                    None => {
                        &&& final(self).measure_visited == old(self).measure_visited
                        &&& (old(self).visited@.contains(task.identity)
                            ==> final(self).projects == old(self).projects && final(self).queue@
                            == base && final(self).visited == old(self).visited
                            && final(self).dirs_scanned == old(self).dirs_scanned
                            && final(self).io_errors == old(self).io_errors)
                        &&& (!old(self).visited@.contains(task.identity) ==> spec_visit_outcome(
                            *old(self),
                            *final(self),
                            *registry,
                            task,
                            base,
                            entries@,
                            complete,
                        ))
                    },
                }
            }),
    {
        self.steps_left = self.steps_left - 1;
        let ghost q0 = self.queue@;
        let popped = self.queue.pop();
        match popped {
            None => {
                proof {
                    assert(false);
                }
            },
            Some(task) => {
                proof {
                    let q1 = self.queue@;
                    assert(q1 =~= q0.take(q0.len() - 1));
                    assert(task == q0[q0.len() - 1]);
                    assert forall|i: int| 0 <= i < q1.len() implies #[trigger] q1[i] == q0[i] by {}
                    assert(spec_engine_inv(q1, self.projects@)) by {
                        assert forall|i: int, j: int|
                            0 <= i < q1.len() && 0 <= j < q1.len() && i != j && spec_is_visit(
                            #[trigger] q1[i],
                        ) && spec_is_visit(#[trigger] q1[j]) implies !spec_parts_prefix(
                            q1[i].parts.deep_view(),
                            q1[j].parts.deep_view(),
                        ) by {
                            assert(q1[i] == q0[i] && q1[j] == q0[j]);
                        }
                    }
                    if task.measure is None {
                        assert forall|i: int|
                            0 <= i < q1.len() && spec_is_visit(#[trigger] q1[i])
                            implies !spec_parts_prefix(
                            q1[i].parts.deep_view(),
                            task.parts.deep_view(),
                        ) && !spec_parts_prefix(
                            task.parts.deep_view(),
                            q1[i].parts.deep_view(),
                        ) by {
                            assert(q1[i] == q0[i]);
                        }
                        assert forall|a: int, k: int|
                            0 <= a < self.projects@.len() && 0 <= k
                                < self.projects@[a].artifacts@.len() implies !spec_parts_prefix(
                            #[trigger] spec_artifact_parts(self.projects@[a], k),
                            task.parts.deep_view(),
                        ) by {}
                        assert forall|a: int|
                            0 <= a < self.projects@.len() implies !spec_parts_prefix(
                            task.parts.deep_view(),
                            (#[trigger] self.projects@[a]).root_parts.deep_view(),
                        ) by {}
                    }
                }
                match task.measure {
                    Some((pi, ai)) => {
                        proof {
                            assert(pi < self.projects@.len() && ai < self.projects@[
                                pi as int
                            ].artifacts@.len()) by {
                                assert(q0[q0.len() - 1].measure == Some((pi, ai)));
                            }
                        }
                        self.step_measure(task, pi, ai, entries, complete);
                    },
                    None => {
                        proof {
                            assert(task.parts.deep_view().len() >= 1) by {
                                assert(q0[q0.len() - 1].parts.deep_view().len() >= 1);
                            }
                        }
                        self.step_visit(registry, task, entries, complete);
                    },
                }
            },
        }
    }

    /// Close the scan: finalize each project's totals, drop projects
    /// with nothing to clean (unless empty ones were asked for), and
    /// total up the cleanable bytes.  In the result no size counted for
    /// an artifact is also held by a nested project: no project root
    /// lies inside any recognized artifact subtree.
    #[verifier::loop_isolation(false)]
    pub fn finish(self) -> (r: ScanResult)
        requires
            self.wf(),
        ensures
            spec_no_nested_projects(r.projects@),
            forall|a: int|
                0 <= a < r.projects@.len() ==> (#[trigger] r.projects@[a]).totals_finalized(),
            !self.config.include_empty ==> forall|a: int|
                0 <= a < r.projects@.len() ==> (#[trigger] r.projects@[a]).total_size > 0,
            r.directories_scanned == self.dirs_scanned,
            r.total_cleanable == if spec_cleanable_sum(r.projects@) <= u64::MAX as int {
                spec_cleanable_sum(r.projects@)
            } else {
                u64::MAX as int
            },
    {
        let include_empty = self.config.include_empty;
        let dirs_scanned = self.dirs_scanned;
        let mut remaining = self.projects;
        let ghost orig = remaining@;
        let mut done: Vec<Project> = Vec::new();
        while remaining.len() > 0
            invariant
                done@.len() + remaining@.len() == orig.len(),
                remaining@ == orig.skip(done@.len() as int),
                forall|a: int| 0 <= a < done@.len() ==> spec_same_shape(orig[a], #[trigger] done@[a]),
                forall|a: int| 0 <= a < done@.len() ==> (#[trigger] done@[a]).totals_finalized(),
            decreases remaining@.len(),
        {
            let ghost dlen = done@.len() as int;
            let mut p = remaining.remove(0);
            proof {
                assert(p == orig.skip(dlen)[0]);
                assert(orig.skip(dlen)[0] == orig[dlen]);
                assert(remaining@ =~= orig.skip(dlen + 1));
            }
            p.calculate_totals();
            proof {
                assert(spec_same_shape(orig[dlen], p));
            }
            done.push(p);
        }
        proof {
            assert(spec_no_nested_projects(orig));
            lemma_no_nested_pointwise(orig, done@);
        }
        let ghost totaled = done@;
        let mut out: Vec<Project> = Vec::new();
        while done.len() > 0
            invariant
                forall|a: int| 0 <= a < out@.len() ==> totaled.contains(#[trigger] out@[a]),
                forall|a: int| 0 <= a < out@.len() ==> (#[trigger] out@[a]).totals_finalized(),
                !include_empty ==> forall|a: int|
                    0 <= a < out@.len() ==> (#[trigger] out@[a]).total_size > 0,
                forall|j: int| 0 <= j < done@.len() ==> totaled.contains(#[trigger] done@[j]),
                forall|j: int| 0 <= j < done@.len() ==> (#[trigger] done@[j]).totals_finalized(),
            decreases done@.len(),
        {
            let ghost done0 = done@;
            let p = done.remove(0);
            proof {
                assert(p == done0[0]);
                assert(totaled.contains(done0[0]));
                assert forall|j: int| 0 <= j < done@.len() implies totaled.contains(
                    #[trigger] done@[j],
                ) by {
                    assert(done@[j] == done0[j + 1]);
                }
                assert forall|j: int| 0 <= j < done@.len() implies (#[trigger] done@[j]).totals_finalized() by {
                    assert(done@[j] == done0[j + 1]);
                }
            }
            if include_empty || p.total_size > 0 {
                let ghost out0 = out@;
                out.push(p);
                proof {
                    assert forall|a: int| 0 <= a < out@.len() implies totaled.contains(
                        #[trigger] out@[a],
                    ) by {
                        if a < out0.len() {
                            assert(out@[a] == out0[a]);
                        } else {
                            assert(out@[a] == p);
                        }
                    }
                }
            }
        }
        proof {
            lemma_no_nested_select(totaled, out@);
        }
        let mut total: u64 = 0;
        let n = out.len();
        let mut i: usize = 0;
        proof {
            assert(out@.take(0int) =~= Seq::<Project>::empty());
        }
        while i < n
            invariant
                i <= n,
                n == out@.len(),
                total == if spec_cleanable_sum(out@.take(i as int)) <= u64::MAX as int {
                    spec_cleanable_sum(out@.take(i as int))
                } else {
                    u64::MAX as int
                },
            decreases n - i,
        {
            proof {
                assert(out@.take(i as int + 1).drop_last() =~= out@.take(i as int));
                assert(out@.take(i as int + 1).last() == out@[i as int]);
            }
            total = sat_add(total, out[i].cleanable_size);
            i = i + 1;
        }
        proof {
            assert(out@.take(n as int) =~= out@);
        }
        ScanResult {
            projects: out,
            directories_scanned: dirs_scanned,
            total_cleanable: total,
            elapsed_ms: 0,
        }
    }
}

/// Sum of the projects' cleanable sizes, as an unbounded integer.
pub open spec fn spec_cleanable_sum(s: Seq<Project>) -> int
    decreases s.len(),
{
    if s.len() == 0 {
        0
    } else {
        spec_cleanable_sum(s.drop_last()) + s.last().cleanable_size
    }
}

/// The configured roots with later duplicates dropped.
fn dedup_strings(v: &Vec<String>) -> (r: Vec<String>)
    ensures
        forall|i: int, j: int|
            #![trigger r.deep_view()[i], r.deep_view()[j]]
            0 <= i < j < r.deep_view().len() ==> r.deep_view()[i] != r.deep_view()[j],
        forall|i: int|
            0 <= i < r.deep_view().len() ==> v.deep_view().contains(#[trigger] r.deep_view()[i]),
{
    let n = v.len();
    let mut r: Vec<String> = Vec::new();
    let mut i: usize = 0;
    while i < n
        invariant
            i <= n,
            n == v@.len(),
            forall|a: int, b: int|
                #![trigger r.deep_view()[a], r.deep_view()[b]]
                0 <= a < b < r.deep_view().len() ==> r.deep_view()[a] != r.deep_view()[b],
            forall|a: int|
                0 <= a < r.deep_view().len() ==> v.deep_view().contains(
                    #[trigger] r.deep_view()[a],
                ),
        decreases n - i,
    {
        if !contains_name(&r, v[i].as_str()) {
            let ghost r0 = r.deep_view();
            r.push(v[i].clone());
            proof {
                assert(r.deep_view() =~= r0.push(v@[i as int]@));
                assert(v.deep_view()[i as int] == v@[i as int]@);
                assert(v.deep_view().contains(v@[i as int]@));
                assert forall|a: int, b: int|
                    0 <= a < b < r.deep_view().len() implies r.deep_view()[a]
                    != r.deep_view()[b] by {
                    if b == r0.len() {
                        assert(r.deep_view()[a] == r0[a]);
                        assert(!r0.contains(v@[i as int]@));
                    } else {
                        assert(r.deep_view()[a] == r0[a] && r.deep_view()[b] == r0[b]);
                    }
                }
            }
        }
        i = i + 1;
    }
    r
}

/// Run a whole scan against the real filesystem: validate the roots,
/// then drive the engine with one directory probe per step until the
/// queue or the budget is exhausted.  A scan always produces a result,
/// except for fatal configuration errors: no configured root, or a root
/// that cannot be read or is not a directory.
#[verifier::loop_isolation(false)]
pub fn run_scan(registry: &PluginRegistry, config: &ScanConfig) -> (r: Result<
    ScanResult,
    ScanError,
>)
    ensures
        r matches Err(ScanError::NoRoots) <==> config.roots@.len() == 0,
        r matches Ok(res) ==> {
            &&& spec_no_nested_projects(res.projects@)
            &&& forall|a: int|
                0 <= a < res.projects@.len() ==> (#[trigger] res.projects@[a]).totals_finalized()
            &&& !config.include_empty ==> forall|a: int|
                0 <= a < res.projects@.len() ==> (#[trigger] res.projects@[a]).total_size > 0
        },
        r matches Err(e) ==> match e {
            ScanError::NoRoots => config.roots@.len() == 0,
            ScanError::RootUnreadable(p) => exists|i: int|
                0 <= i < config.roots@.len() && (#[trigger] config.roots@[i])@ == p@,
            ScanError::RootNotDirectory(p) => exists|i: int|
                0 <= i < config.roots@.len() && (#[trigger] config.roots@[i])@ == p@,
        },
{
    if config.roots.len() == 0 {
        return Err(ScanError::NoRoots);
    }
    let started = crate::probe::now_millis();
    let roots = dedup_strings(&config.roots);
    let mut seeds: Vec<RootSeed> = Vec::new();
    let rn = roots.len();
    let mut i: usize = 0;
    while i < rn
        invariant
            i <= rn,
            rn == roots@.len(),
            seeds@.len() == i,
            forall|m: int|
                0 <= m < seeds@.len() ==> (#[trigger] seeds@[m]).path@ == roots.deep_view()[m],
        decreases rn - i,
    {
        match crate::probe::probe_path(roots[i].as_str()) {
            None => {
                proof {
                    assert(roots.deep_view()[i as int] == roots@[i as int]@);
                    assert(config.roots.deep_view().contains(roots.deep_view()[i as int]));
                    let j = choose|j: int|
                        0 <= j < config.roots.deep_view().len() && config.roots.deep_view()[j]
                            == roots.deep_view()[i as int];
                    assert(config.roots@[j]@ == roots@[i as int]@);
                }
                return Err(ScanError::RootUnreadable(roots[i].clone()));
            },
            Some(e) => {
                if !e.is_dir {
                    proof {
                        assert(roots.deep_view()[i as int] == roots@[i as int]@);
                        assert(config.roots.deep_view().contains(roots.deep_view()[i as int]));
                        let j = choose|j: int|
                            0 <= j < config.roots.deep_view().len() && config.roots.deep_view()[j]
                                == roots.deep_view()[i as int];
                        assert(config.roots@[j]@ == roots@[i as int]@);
                    }
                    return Err(ScanError::RootNotDirectory(roots[i].clone()));
                }
                let ghost s0 = seeds@;
                seeds.push(
                    RootSeed { path: roots[i].clone(), identity: e.identity, mtime: e.mtime_secs },
                );
                proof {
                    assert(roots.deep_view()[i as int] == roots@[i as int]@);
                    assert forall|m: int| 0 <= m < seeds@.len() implies (#[trigger] seeds@[m]).path@
                        == roots.deep_view()[m] by {
                        if m < s0.len() {
                            assert(seeds@[m] == s0[m]);
                        }
                    }
                }
            },
        }
        i = i + 1;
    }
    proof {
        assert forall|a: int, b: int|
            #![trigger seeds@[a], seeds@[b]]
            0 <= a < seeds@.len() && 0 <= b < seeds@.len() && a != b implies seeds@[a].path@
            != seeds@[b].path@ by {
            assert(seeds@[a].path@ == roots.deep_view()[a]);
            assert(seeds@[b].path@ == roots.deep_view()[b]);
        }
    }
    let mut engine = ScanEngine::new(config.duplicate(), seeds);
    while engine.has_work()
        invariant
            engine.wf(),
            engine.config.include_empty == config.include_empty,
        decreases engine.steps_left,
    {
        match engine.next_path() {
            Some(path) => {
                let probed = crate::probe::probe_dir(path.as_str());
                engine.step(registry, probed.0, probed.1);
            },
            None => {
                proof {
                    assert(false);
                }
            },
        }
    }
    let mut result = engine.finish();
    let ended = crate::probe::now_millis();
    result.elapsed_ms = if ended >= started {
        ended - started
    } else {
        0
    };
    Ok(result)
}

/// The scanner's front door: hold a registry, scan on demand.  The core
/// itself is synchronous; concurrency and cancellation are the caller's
/// responsibility, driving one engine per worker and merging results.
#[derive(Debug)]
pub struct ParallelScanner {
    /// The marker catalog and artifact table used for every scan.
    pub registry: PluginRegistry,
}

impl ParallelScanner {
    /// A scanner over the given registry.
    pub fn new(registry: PluginRegistry) -> (r: Self)
        ensures
            r.registry == registry,
    {
        ParallelScanner { registry }
    }

    /// Scan the configured roots, as `run_scan` does.
    pub fn scan(&self, config: &ScanConfig) -> (r: Result<ScanResult, ScanError>)
        ensures
            r matches Err(ScanError::NoRoots) <==> config.roots@.len() == 0,
            r matches Ok(res) ==> {
                &&& spec_no_nested_projects(res.projects@)
                &&& forall|a: int|
                    0 <= a < res.projects@.len() ==> (#[trigger] res.projects@[a]).totals_finalized()
                &&& !config.include_empty ==> forall|a: int|
                    0 <= a < res.projects@.len() ==> (#[trigger] res.projects@[a]).total_size > 0
            },
    {
        run_scan(&self.registry, config)
    }
}

} // verus!
