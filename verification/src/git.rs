//! Deciding a git status from what a probe observed.
//!
//! The library never runs the version-control tool itself: a caller runs
//! the bounded external query and hands the observed plain values here.
//! Every outcome maps to a status — a failed or absent query degrades to
//! the default "not a repository" status and never to an error.

use vstd::prelude::*;
use vstd::string::StrSliceExecFns;

use crate::project::GitStatus;

verus! {

/// At most this many dirty paths are kept, so enormous working trees
/// cannot grow the status without bound.
pub const DIRTY_PATHS_CAP: usize = 20;

/// Everything a git probe observed about one directory, as plain values.
/// `porcelain` is the machine-readable status output; None where the tool
/// was absent, timed out, failed, or found no repository.
#[derive(Debug, Clone)]
pub struct GitProbe {
    /// Status output in porcelain format, one entry per line.
    pub porcelain: Option<String>,
    /// Current branch name, if one was reported.
    pub branch: Option<String>,
    /// Remote URL, if one was reported.
    pub remote: Option<String>,
    /// Last commit time in seconds since the Unix epoch, if reported.
    pub last_commit: Option<u64>,
    /// How many stash entries were reported.
    pub stash_count: u64,
}

/// The lines of a character sequence, split at every newline.  A text of
/// n newlines has n + 1 lines; the empty text has one empty line.
pub open spec fn spec_lines(s: Seq<char>) -> Seq<Seq<char>>
    decreases s.len(),
{
    if s.len() == 0 {
        seq![Seq::empty()]
    } else if s.last() == '\n' {
        spec_lines(s.drop_last()).push(Seq::empty())
    } else {
        let prev = spec_lines(s.drop_last());
        prev.update(prev.len() - 1, prev.last().push(s.last()))
    }
}

/// A porcelain line reporting an untracked entry.
pub open spec fn spec_line_untracked(l: Seq<char>) -> bool {
    l.len() >= 2 && l[0] == '?' && l[1] == '?'
}

/// A porcelain line reporting an uncommitted (staged or modified) entry:
/// neither untracked nor ignored, and not clean in both columns.
pub open spec fn spec_line_uncommitted(l: Seq<char>) -> bool {
    l.len() >= 2 && l[0] != '?' && l[0] != '!' && (l[0] != ' ' || l[1] != ' ')
}

/// The path part of a porcelain line: what follows the two status
/// columns and the separator.
pub open spec fn spec_line_path(l: Seq<char>) -> Seq<char> {
    if l.len() > 3 {
        l.subrange(3, l.len() as int)
    } else {
        Seq::empty()
    }
}

/// Whether any line reports an uncommitted entry.
pub open spec fn spec_any_uncommitted(lines: Seq<Seq<char>>) -> bool
    decreases lines.len(),
{
    if lines.len() == 0 {
        false
    } else {
        spec_any_uncommitted(lines.drop_last()) || spec_line_uncommitted(lines.last())
    }
}

/// Whether any line reports an untracked entry.
pub open spec fn spec_any_untracked(lines: Seq<Seq<char>>) -> bool
    decreases lines.len(),
{
    if lines.len() == 0 {
        false
    } else {
        spec_any_untracked(lines.drop_last()) || spec_line_untracked(lines.last())
    }
}

/// The paths of the uncommitted lines, in order, capped at
/// `DIRTY_PATHS_CAP`.
pub open spec fn spec_dirty_paths(lines: Seq<Seq<char>>) -> Seq<Seq<char>>
    decreases lines.len(),
{
    if lines.len() == 0 {
        Seq::empty()
    } else {
        let prev = spec_dirty_paths(lines.drop_last());
        if spec_line_uncommitted(lines.last()) && prev.len() < DIRTY_PATHS_CAP {
            prev.push(spec_line_path(lines.last()))
        } else {
            prev
        }
    }
}

/// Split a text into its lines.
pub fn split_lines(s: &str) -> (r: Vec<String>)
    ensures
        r.deep_view() == spec_lines(s@),
{
    let n = s.unicode_len();
    let mut lines: Vec<String> = Vec::new();
    let mut start: usize = 0;
    let mut i: usize = 0;
    proof {
        assert(s@.take(0int) =~= Seq::<char>::empty());
        assert(s@.subrange(0int, 0int) =~= Seq::<char>::empty());
        assert(lines.deep_view().push(s@.subrange(0int, 0int)) =~= spec_lines(s@.take(0int)));
    }
    while i < n
        invariant
            start <= i <= n,
            n == s@.len(),
            lines.deep_view().push(s@.subrange(start as int, i as int)) == spec_lines(
                s@.take(i as int),
            ),
        decreases n - i,
    {
        proof {
            assert(s@.take(i as int + 1).drop_last() =~= s@.take(i as int));
            assert(s@.take(i as int + 1).last() == s@[i as int]);
        }
        let c = s.get_char(i);
        if c == '\n' {
            let ghost before = lines.deep_view();
            let ghost s0 = start as int;
            lines.push(s.substring_char(start, i).to_owned());
            start = i + 1;
            proof {
                assert(lines.deep_view() =~= before.push(s@.subrange(s0, i as int)));
                assert(s@.subrange(start as int, i as int + 1) =~= Seq::<char>::empty());
                assert(lines.deep_view().push(s@.subrange(start as int, i as int + 1))
                    =~= spec_lines(s@.take(i as int + 1)));
            }
        } else {
            proof {
                assert(s@.subrange(start as int, i as int + 1) =~= s@.subrange(
                    start as int,
                    i as int,
                ).push(s@[i as int]));
                assert(lines.deep_view().push(s@.subrange(start as int, i as int + 1))
                    =~= spec_lines(s@.take(i as int + 1)));
            }
        }
        i = i + 1;
    }
    proof {
        assert(s@.take(n as int) =~= s@);
    }
    let ghost before = lines.deep_view();
    lines.push(s.substring_char(start, n).to_owned());
    proof {
        assert(lines.deep_view() =~= before.push(s@.subrange(start as int, n as int)));
    }
    lines
}

/// Decide a git status from one probe's observations: a missing
/// porcelain output yields the default "not a repository" status; present
/// output yields a repository status whose flags and capped dirty paths
/// are exactly what the lines report.
pub fn status_from_probe(p: GitProbe) -> (r: GitStatus)
    ensures
        p.porcelain is None ==> r.is_default(),
        p.porcelain matches Some(out) ==> {
            &&& r.is_repo
            &&& r.has_uncommitted == spec_any_uncommitted(spec_lines(out@))
            &&& r.has_untracked == spec_any_untracked(spec_lines(out@))
            &&& r.has_stashed == (p.stash_count > 0)
            &&& r.branch == p.branch
            &&& r.remote == p.remote
            &&& r.last_commit == p.last_commit
            &&& r.dirty_paths.deep_view() == spec_dirty_paths(spec_lines(out@))
        },
{
    match p.porcelain {
        None => GitStatus::default(),
        Some(out) => {
            let lines = split_lines(out.as_str());
            let n = lines.len();
            let mut has_uncommitted = false;
            let mut has_untracked = false;
            let mut dirty_paths: Vec<String> = Vec::new();
            let mut i: usize = 0;
            proof {
                assert(lines.deep_view().take(0int) =~= Seq::<Seq<char>>::empty());
                assert(dirty_paths.deep_view() =~= spec_dirty_paths(
                    lines.deep_view().take(0int),
                ));
            }
            while i < n
                invariant
                    i <= n,
                    n == lines@.len(),
                    lines.deep_view() == spec_lines(out@),
                    has_uncommitted == spec_any_uncommitted(lines.deep_view().take(i as int)),
                    has_untracked == spec_any_untracked(lines.deep_view().take(i as int)),
                    dirty_paths.deep_view() == spec_dirty_paths(lines.deep_view().take(i as int)),
                decreases n - i,
            {
                proof {
                    assert(lines.deep_view().take(i as int + 1).drop_last()
                        =~= lines.deep_view().take(i as int));
                    assert(lines.deep_view().take(i as int + 1).last()
                        == lines.deep_view()[i as int]);
                    assert(lines.deep_view()[i as int] == lines@[i as int]@);
                }
                let line = &lines[i];
                let len = line.as_str().unicode_len();
                let mut uncommitted = false;
                if len >= 2 {
                    let c0 = line.as_str().get_char(0);
                    let c1 = line.as_str().get_char(1);
                    if c0 == '?' && c1 == '?' {
                        has_untracked = true;
                    } else if c0 != '?' && c0 != '!' && (c0 != ' ' || c1 != ' ') {
                        uncommitted = true;
                    }
                }
                proof {
                    assert(uncommitted == spec_line_uncommitted(lines.deep_view()[i as int]));
                }
                if uncommitted {
                    has_uncommitted = true;
                    if dirty_paths.len() < DIRTY_PATHS_CAP {
                        let ghost before = dirty_paths.deep_view();
                        let path = if len > 3 {
                            line.as_str().substring_char(3, len).to_owned()
                        } else {
                            String::new()
                        };
                        proof {
                            assert(path@ =~= spec_line_path(lines.deep_view()[i as int]));
                        }
                        dirty_paths.push(path);
                        proof {
                            assert(dirty_paths.deep_view() =~= before.push(
                                spec_line_path(lines.deep_view()[i as int]),
                            ));
                        }
                    }
                }
                proof {
                    assert(has_uncommitted == spec_any_uncommitted(
                        lines.deep_view().take(i as int + 1),
                    ));
                    assert(has_untracked == spec_any_untracked(
                        lines.deep_view().take(i as int + 1),
                    ));
                    assert(dirty_paths.deep_view() =~= spec_dirty_paths(
                        lines.deep_view().take(i as int + 1),
                    ));
                }
                i = i + 1;
            }
            proof {
                assert(lines.deep_view().take(n as int) =~= lines.deep_view());
            }
            GitStatus {
                is_repo: true,
                has_uncommitted,
                has_untracked,
                has_stashed: p.stash_count > 0,
                branch: p.branch,
                remote: p.remote,
                last_commit: p.last_commit,
                dirty_paths,
            }
        },
    }
}

} // verus!
