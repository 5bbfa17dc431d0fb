//! Paths as plain values.
//!
//! The library models a filesystem path as the string it was walked under:
//! a root as given by the caller, extended segment by segment with `/`.
//! These helpers compute the display name of a path and join segments, with
//! exact contracts over the character sequences.

use vstd::prelude::*;
use vstd::string::StrSliceExecFns;
use vstd::string::StringExecFns;

verus! {

/// The characters of `s` with every trailing `/` removed.
pub open spec fn spec_trim_slashes(s: Seq<char>) -> Seq<char>
    decreases s.len(),
{
    if s.len() > 0 && s.last() == '/' {
        spec_trim_slashes(s.drop_last())
    } else {
        s
    }
}

/// The characters of `s` after its last `/` (all of `s` if it has none).
pub open spec fn spec_after_last_slash(s: Seq<char>) -> Seq<char>
    decreases s.len(),
{
    if s.len() == 0 {
        s
    } else if s.last() == '/' {
        Seq::empty()
    } else {
        spec_after_last_slash(s.drop_last()).push(s.last())
    }
}

/// The display name of a path: its last component, after trailing slashes
/// are dropped; `unknown` where nothing is left.
pub open spec fn spec_basename(s: Seq<char>) -> Seq<char> {
    let trimmed = spec_trim_slashes(s);
    let base = spec_after_last_slash(trimmed);
    if base.len() == 0 {
        "unknown"@
    } else {
        base
    }
}

/// One path built from segments: the first segment as given, each further
/// segment appended after a `/`.
pub open spec fn spec_join(parts: Seq<Seq<char>>) -> Seq<char>
    decreases parts.len(),
{
    if parts.len() == 0 {
        Seq::empty()
    } else if parts.len() == 1 {
        parts[0]
    } else {
        spec_join(parts.drop_last()) + "/"@ + parts.last()
    }
}

/// Append one more component under a base path.
pub fn join_under(base: &str, name: &str) -> (r: String)
    ensures
        r@ == base@ + "/"@ + name@,
{
    let with_sep = base.to_owned().concat("/");
    with_sep.concat(name)
}

/// The last component of a path, as its display name.
pub fn basename_of(path: &str) -> (r: String)
    ensures
        r@ == spec_basename(path@),
{
    let n = path.unicode_len();
    let mut end: usize = n;
    proof {
        assert(path@.take(n as int) =~= path@);
    }
    while end > 0 && path.get_char(end - 1) == '/'
        invariant
            end <= n,
            n == path@.len(),
            spec_trim_slashes(path@) == spec_trim_slashes(path@.take(end as int)),
        decreases end,
    {
        proof {
            assert(path@.take(end as int).last() == '/');
            assert(path@.take(end as int).drop_last() =~= path@.take(end as int - 1));
        }
        end = end - 1;
    }
    proof {
        if end > 0 {
            assert(path@.take(end as int).last() != '/');
        }
        assert(spec_trim_slashes(path@.take(end as int)) =~= path@.take(end as int));
    }
    let mut start: usize = end;
    proof {
        assert(spec_after_last_slash(path@.take(end as int)) =~= spec_after_last_slash(
            path@.take(end as int),
        ) + path@.subrange(end as int, end as int));
    }
    while start > 0 && path.get_char(start - 1) != '/'
        invariant
            start <= end <= n,
            n == path@.len(),
            spec_after_last_slash(path@.take(end as int)) == spec_after_last_slash(
                path@.take(start as int),
            ) + path@.subrange(start as int, end as int),
        decreases start,
    {
        proof {
            let s = path@.take(start as int);
            assert(s.last() == path@[start as int - 1]);
            assert(s.drop_last() =~= path@.take(start as int - 1));
            assert(spec_after_last_slash(s) =~= spec_after_last_slash(s.drop_last()).push(
                s.last(),
            ));
            assert(spec_after_last_slash(path@.take(start as int - 1)) + path@.subrange(
                start as int - 1,
                end as int,
            ) =~= spec_after_last_slash(path@.take(start as int)) + path@.subrange(
                start as int,
                end as int,
            ));
        }
        start = start - 1;
    }
    proof {
        if start > 0 {
            let s = path@.take(start as int);
            assert(s.last() == '/');
            assert(spec_after_last_slash(s) =~= Seq::<char>::empty());
        } else {
            assert(path@.take(0int) =~= Seq::<char>::empty());
        }
        assert(spec_after_last_slash(path@.take(end as int)) =~= path@.subrange(
            start as int,
            end as int,
        ));
    }
    if start == end {
        "unknown".to_owned()
    } else {
        path.substring_char(start, end).to_owned()
    }
}

} // verus!
