//! Projects, artifacts, git status and the cleaning-safety verdict.

use vstd::prelude::*;
use vstd::string::StrSliceExecFns;

use crate::kind::ProjectKind;
use crate::paths::{basename_of, spec_basename};

verus! {

/// Offset basis of the 64-bit FNV-1a fingerprint.
pub const FP_OFFSET: u64 = 0xcbf29ce484222325;

/// Multiplier of the 64-bit FNV-1a fingerprint.
pub const FP_PRIME: u64 = 0x100000001b3;

/// The 64-bit FNV-1a fingerprint of a character sequence: a pure function
/// of the characters, so hashing one canonical path twice always yields
/// the same value.
pub open spec fn spec_fingerprint(s: Seq<char>) -> u64
    decreases s.len(),
{
    if s.len() == 0 {
        FP_OFFSET
    } else {
        (spec_fingerprint(s.drop_last()) ^ (s.last() as u64)).wrapping_mul(FP_PRIME)
    }
}

/// Unique identifier for a detected project.
#[derive(Debug, Clone, Copy, PartialEq, Eq, Hash, Structural)]
pub struct ProjectId(pub u64);

impl ProjectId {
    /// Create a project ID from a path.
    pub fn from_path(path: &str) -> (r: Self)
        ensures
            r.0 == spec_fingerprint(path@),
    {
        let n = path.unicode_len();
        let mut h: u64 = FP_OFFSET;
        let mut i: usize = 0;
        while i < n
            invariant
                i <= n,
                n == path@.len(),
                h == spec_fingerprint(path@.take(i as int)),
            decreases n - i,
        {
            let c = path.get_char(i);
            h = (h ^ (c as u64)).wrapping_mul(FP_PRIME);
            proof {
                assert(path@.take(i as int + 1).drop_last() =~= path@.take(i as int));
                assert(path@.take(i as int + 1).last() == path@[i as int]);
            }
            i = i + 1;
        }
        proof {
            assert(path@.take(n as int) =~= path@);
        }
        ProjectId(h)
    }
}

/// For all paths, the identity derived from a path is stable: fingerprinting
/// the same canonical path twice yields the same id.
pub proof fn lemma_project_id_stable(a: Seq<char>, b: Seq<char>)
    requires
        a == b,
    ensures
        spec_fingerprint(a) == spec_fingerprint(b),
{
}

/// A cleanable sub-path under a project root.
#[derive(Debug, Clone)]
pub struct Artifact {
    /// Name of the artifact directory (e.g. a build-output directory).
    pub name: String,
    /// Full path of the artifact.
    pub path: String,
    /// Total size in bytes of everything below it that was measured.
    pub size: u64,
    /// Number of files counted below it.
    pub file_count: u64,
    /// Whether a part could not be read, so the total is a lower bound.
    pub partial: bool,
}

impl Artifact {
    /// Get the artifact's name.
    pub fn name(&self) -> (r: &String)
        ensures
            r == self.name,
    {
        &self.name
    }
}

/// Git repository status for safety checks.
#[derive(Debug, Clone)]
pub struct GitStatus {
    /// Whether this is a git repository.
    pub is_repo: bool,
    /// Has uncommitted changes (modified/staged files).
    pub has_uncommitted: bool,
    /// Has untracked files.
    pub has_untracked: bool,
    /// Has stashed changes.
    pub has_stashed: bool,
    /// Current branch name.
    pub branch: Option<String>,
    /// Remote URL (if any).
    pub remote: Option<String>,
    /// Last commit time, in seconds since the Unix epoch.
    pub last_commit: Option<u64>,
    /// Paths with uncommitted changes, capped by the prober.
    pub dirty_paths: Vec<String>,
}

impl GitStatus {
    /// What every probe failure degrades to: a default status that reports
    /// no repository, nothing dirty, and nothing known.
    pub open spec fn is_default(self) -> bool {
        &&& !self.is_repo
        &&& !self.has_uncommitted
        &&& !self.has_untracked
        &&& !self.has_stashed
        &&& self.branch is None
        &&& self.remote is None
        &&& self.last_commit is None
        &&& self.dirty_paths@.len() == 0
    }

    /// Check if the repository is completely clean.
    pub fn is_clean(&self) -> (r: bool)
        ensures
            r == (self.is_repo && !self.has_uncommitted && !self.has_untracked),
    {
        self.is_repo && !self.has_uncommitted && !self.has_untracked
    }
}

impl Default for GitStatus {
    /// The "not a repository" default status.
    fn default() -> (r: GitStatus)
        ensures
            !r.is_repo,
            !r.has_uncommitted,
            !r.has_untracked,
            !r.has_stashed,
            r.branch is None,
            r.remote is None,
            r.last_commit is None,
            r.dirty_paths@.len() == 0,
    {
        GitStatus {
            is_repo: false,
            has_uncommitted: false,
            has_untracked: false,
            has_stashed: false,
            branch: None,
            remote: None,
            last_commit: None,
            dirty_paths: Vec::new(),
        }
    }
}

/// Safety status for cleaning operations.
#[derive(Debug, Clone, PartialEq, Eq)]
pub enum CleanSafety {
    /// Safe to clean without concerns.
    Safe,
    /// Safe but with a warning.
    Warning(CleanWarning),
    /// Blocked - should not clean without override.
    Blocked(CleanBlock),
}

/// Warning types for cleaning operations.
#[derive(Debug, Clone, PartialEq, Eq)]
pub enum CleanWarning {
    /// Project has uncommitted changes.
    UncommittedChanges { paths: Vec<String> },
    /// Project has untracked files.
    UntrackedFiles,
    /// Not a git repository (can't verify safety).
    NotGitRepo,
    /// Recently modified.
    RecentlyModified { age_days: u32 },
    /// No lockfile found.
    NoLockfile,
}

/// Blocking reasons for cleaning operations.
#[derive(Debug, Clone, PartialEq, Eq)]
pub enum CleanBlock {
    /// Active lock file present (process using it).
    LockFilePresent(String),
    /// Process actively using the directory.
    ProcessRunning { pid: u32, name: String },
    /// User explicitly protected this path.
    UserProtected,
}

/// What a safety verdict denotes in specifications: it carries
/// character sequences where `CleanSafety` carries strings.
pub enum SafetyVerdict {
    Safe,
    WarnUncommitted { paths: Seq<Seq<char>> },
    WarnUntracked,
    WarnNotRepo,
    WarnRecent { age_days: u32 },
    WarnNoLockfile,
    BlockLockFile { path: Seq<char> },
    BlockProcess { pid: u32, name: Seq<char> },
    BlockProtected,
}

/// The model a concrete verdict denotes.
pub open spec fn spec_verdict_of(cs: CleanSafety) -> SafetyVerdict {
    match cs {
        CleanSafety::Safe => SafetyVerdict::Safe,
        CleanSafety::Warning(w) => match w {
            CleanWarning::UncommittedChanges { paths } => SafetyVerdict::WarnUncommitted {
                paths: paths.deep_view(),
            },
            CleanWarning::UntrackedFiles => SafetyVerdict::WarnUntracked,
            CleanWarning::NotGitRepo => SafetyVerdict::WarnNotRepo,
            CleanWarning::RecentlyModified { age_days } => SafetyVerdict::WarnRecent { age_days },
            CleanWarning::NoLockfile => SafetyVerdict::WarnNoLockfile,
        },
        CleanSafety::Blocked(b) => match b {
            CleanBlock::LockFilePresent(p) => SafetyVerdict::BlockLockFile { path: p@ },
            CleanBlock::ProcessRunning { pid, name } => SafetyVerdict::BlockProcess {
                pid,
                name: name@,
            },
            CleanBlock::UserProtected => SafetyVerdict::BlockProtected,
        },
    }
}

/// How many whole days lie between a modification time and now.
pub open spec fn spec_age_days(modified: u64, now: u64) -> int {
    (now - modified) / 86400
}

/// A detected development project.
#[derive(Debug, Clone)]
pub struct Project {
    /// Unique identifier.
    pub id: ProjectId,
    /// Project ecosystem/type.
    pub kind: ProjectKind,
    /// Root directory path.
    pub root: String,
    /// The root as the segments it was walked under: a scan root followed
    /// by one name per directory level.  For a directly constructed
    /// project this is the whole root as a single segment.
    pub root_parts: Vec<String>,
    /// Project name (usually directory name).
    pub name: String,
    /// Last modification time, in seconds since the Unix epoch.
    pub last_modified: Option<u64>,
    /// Git status (if probed).
    pub git_status: Option<GitStatus>,
    /// Cleanable artifacts found.
    pub artifacts: Vec<Artifact>,
    /// Total size of all artifacts.
    pub total_size: u64,
    /// Size that can be cleaned.
    pub cleanable_size: u64,
}

/// Sum of the sizes of a sequence of artifacts, as an unbounded integer.
pub open spec fn spec_size_sum(arts: Seq<Artifact>) -> int
    decreases arts.len(),
{
    if arts.len() == 0 {
        0
    } else {
        spec_size_sum(arts.drop_last()) + arts.last().size
    }
}

impl Project {
    /// The invariant `calculate_totals` establishes: total_size is the sum
    /// of the artifact sizes (saturated at u64::MAX), and cleanable_size
    /// equals total_size.
    pub open spec fn totals_finalized(self) -> bool {
        &&& self.total_size == if spec_size_sum(self.artifacts@) <= u64::MAX as int {
            spec_size_sum(self.artifacts@)
        } else {
            u64::MAX as int
        }
        &&& self.cleanable_size == self.total_size
    }

    /// The safety verdict as a pure function of the project's git status
    /// and last-modified time, judged at time `now` (seconds).
    pub open spec fn spec_safety(self, now: u64) -> SafetyVerdict {
        match self.git_status {
            None => SafetyVerdict::WarnNotRepo,
            Some(st) => if st.has_uncommitted {
                SafetyVerdict::WarnUncommitted { paths: st.dirty_paths.deep_view() }
            } else if st.has_untracked {
                SafetyVerdict::WarnUntracked
            } else {
                match self.last_modified {
                    Some(m) => if m <= now && spec_age_days(m, now) < 7 {
                        SafetyVerdict::WarnRecent { age_days: spec_age_days(m, now) as u32 }
                    } else {
                        SafetyVerdict::Safe
                    },
                    None => SafetyVerdict::Safe,
                }
            },
        }
    }

    /// Create a new project with no artifacts and no probed status.
    pub fn new(kind: ProjectKind, root: String) -> (r: Self)
        ensures
            r.id.0 == spec_fingerprint(root@),
            r.kind == kind,
            r.root == root,
            r.root_parts.deep_view() =~= seq![root@],
            r.name@ == spec_basename(root@),
            r.last_modified is None,
            r.git_status is None,
            r.artifacts@.len() == 0,
            r.total_size == 0,
            r.cleanable_size == 0,
    {
        let id = ProjectId::from_path(root.as_str());
        let name = basename_of(root.as_str());
        let root_parts = vec![root.clone()];
        Project {
            id,
            kind,
            root,
            root_parts,
            name,
            last_modified: None,
            git_status: None,
            artifacts: Vec::new(),
            total_size: 0,
            cleanable_size: 0,
        }
    }

    /// Check if it is safe to clean this project, judged at time
    /// `now_secs`: uncommitted changes outrank untracked files, a missing
    /// git status always warns, and a clean repository warns only when the
    /// project was modified within the last week.
    pub fn safety_check_at(&self, now_secs: u64) -> (r: CleanSafety)
        ensures
            spec_verdict_of(r) == self.spec_safety(now_secs),
    {
        if let Some(status) = &self.git_status {
            if status.has_uncommitted {
                return CleanSafety::Warning(CleanWarning::UncommittedChanges {
                    paths: status.dirty_paths.clone(),
                });
            }
            if status.has_untracked {
                return CleanSafety::Warning(CleanWarning::UntrackedFiles);
            }
        } else {
            return CleanSafety::Warning(CleanWarning::NotGitRepo);
        }
        if let Some(modified) = self.last_modified {
            if modified <= now_secs {
                let days = (now_secs - modified) / 86400;
                if days < 7 {
                    return CleanSafety::Warning(CleanWarning::RecentlyModified {
                        age_days: days as u32,
                    });
                }
            }
        }
        CleanSafety::Safe
    }

    /// Check if it is safe to clean this project, judged at the wall
    /// clock.  The clock only decides how old a clean repository is; the
    /// git-status cases hold whatever the clock says.
    pub fn safety_check(&self) -> (r: CleanSafety)
        ensures
            exists|t: u64| spec_verdict_of(r) == self.spec_safety(t),
            self.git_status is None ==> spec_verdict_of(r) == SafetyVerdict::WarnNotRepo,
            self.git_status matches Some(st) ==> (st.has_uncommitted ==> spec_verdict_of(r)
                == (SafetyVerdict::WarnUncommitted { paths: st.dirty_paths.deep_view() })),
            self.git_status matches Some(st) ==> (!st.has_uncommitted && st.has_untracked
                ==> spec_verdict_of(r) == SafetyVerdict::WarnUntracked),
    {
        let now = crate::probe::now_millis() / 1000;
        let r = self.safety_check_at(now);
        proof {
            assert(spec_verdict_of(r) == self.spec_safety(now));
        }
        r
    }

    /// Get the number of artifacts.
    pub fn artifact_count(&self) -> (r: usize)
        ensures
            r == self.artifacts@.len(),
    {
        self.artifacts.len()
    }

    /// Calculate totals from artifacts: total_size becomes the sum of the
    /// artifact sizes (saturated at u64::MAX), and cleanable_size equals
    /// it.  Nothing else changes.
    pub fn calculate_totals(&mut self)
        ensures
            (*final(self)).totals_finalized(),
            *final(self) == (Project {
                total_size: final(self).total_size,
                cleanable_size: final(self).cleanable_size,
                ..*old(self)
            }),
    {
        let mut total: u64 = 0;
        let mut i: usize = 0;
        proof {
            assert(self.artifacts@.take(0int) =~= Seq::<Artifact>::empty());
        }
        while i < self.artifacts.len()
            invariant
                i <= self.artifacts@.len(),
                *self == *old(self),
                total == if spec_size_sum(self.artifacts@.take(i as int)) <= u64::MAX as int {
                    spec_size_sum(self.artifacts@.take(i as int))
                } else {
                    u64::MAX as int
                },
            decreases self.artifacts@.len() - i,
        {
            let size = self.artifacts[i].size;
            proof {
                assert(self.artifacts@.take(i as int + 1).drop_last() =~= self.artifacts@.take(
                    i as int,
                ));
                assert(self.artifacts@.take(i as int + 1).last() == self.artifacts@[i as int]);
            }
            if total <= u64::MAX - size {
                total = total + size;
            } else {
                total = u64::MAX;
            }
            i = i + 1;
        }
        proof {
            assert(self.artifacts@.take(self.artifacts@.len() as int) =~= self.artifacts@);
        }
        self.total_size = total;
        self.cleanable_size = total;
    }
}

/// For all projects after totals are finalized, where the artifact sizes'
/// sum fits in a u64: total_size equals the sum of the artifacts' sizes,
/// and cleanable_size equals total_size.
pub proof fn lemma_totals_are_artifact_sum(p: Project)
    requires
        p.totals_finalized(),
        spec_size_sum(p.artifacts@) <= u64::MAX as int,
    ensures
        p.total_size == spec_size_sum(p.artifacts@),
        p.cleanable_size == p.total_size,
{
}

/// `safety_check` warns "not a git repository" when no git status is
/// attached, and an "uncommitted changes" warning takes precedence over an
/// "untracked files" warning, at every judgment time.
pub proof fn lemma_safety_git_precedence(p: Project, now: u64)
    ensures
        p.git_status is None ==> p.spec_safety(now) == SafetyVerdict::WarnNotRepo,
        p.git_status matches Some(st) ==> (st.has_uncommitted ==> p.spec_safety(now)
            == (SafetyVerdict::WarnUncommitted { paths: st.dirty_paths.deep_view() })),
        p.git_status matches Some(st) ==> (!st.has_uncommitted && st.has_untracked
            ==> p.spec_safety(now) == SafetyVerdict::WarnUntracked),
{
}

} // verus!
