//! Number and text formatting, with exact contracts over the character
//! sequences produced.

use vstd::prelude::*;
use vstd::string::StrSliceExecFns;
use vstd::string::StringExecFns;

verus! {

/// The decimal digit character for one digit value.
pub open spec fn spec_digit(d: int) -> char {
    if d == 0 {
        '0'
    } else if d == 1 {
        '1'
    } else if d == 2 {
        '2'
    } else if d == 3 {
        '3'
    } else if d == 4 {
        '4'
    } else if d == 5 {
        '5'
    } else if d == 6 {
        '6'
    } else if d == 7 {
        '7'
    } else if d == 8 {
        '8'
    } else {
        '9'
    }
}

/// The decimal digits of a number, most significant first.
pub open spec fn spec_digits(n: int) -> Seq<char>
    decreases n,
{
    if n < 10 {
        seq![spec_digit(n)]
    } else {
        spec_digits(n / 10).push(spec_digit(n % 10))
    }
}

/// The one-character string for a digit.
fn digit_str(d: u64) -> (r: &'static str)
    requires
        d < 10,
    ensures
        r@ =~= seq![spec_digit(d as int)],
{
    match d {
        0 => {
            proof {
                reveal_strlit("0");
            }
            "0"
        },
        1 => {
            proof {
                reveal_strlit("1");
            }
            "1"
        },
        2 => {
            proof {
                reveal_strlit("2");
            }
            "2"
        },
        3 => {
            proof {
                reveal_strlit("3");
            }
            "3"
        },
        4 => {
            proof {
                reveal_strlit("4");
            }
            "4"
        },
        5 => {
            proof {
                reveal_strlit("5");
            }
            "5"
        },
        6 => {
            proof {
                reveal_strlit("6");
            }
            "6"
        },
        7 => {
            proof {
                reveal_strlit("7");
            }
            "7"
        },
        8 => {
            proof {
                reveal_strlit("8");
            }
            "8"
        },
        _ => {
            proof {
                reveal_strlit("9");
            }
            "9"
        },
    }
}

/// A number in decimal.
pub fn fmt_u64(n: u64) -> (r: String)
    ensures
        r@ == spec_digits(n as int),
    decreases n,
{
    if n < 10 {
        let r = digit_str(n).to_owned();
        proof {
            assert(r@ =~= spec_digits(n as int));
        }
        r
    } else {
        let q = fmt_u64(n / 10);
        let r = q.concat(digit_str(n % 10));
        proof {
            assert(r@ =~= spec_digits(n as int / 10).push(spec_digit(n as int % 10)));
        }
        r
    }
}

/// One kibibyte.
pub const BYTES_KB: u64 = 1024;

/// One mebibyte.
pub const BYTES_MB: u64 = 1048576;

/// One gibibyte.
pub const BYTES_GB: u64 = 1073741824;

/// A byte count scaled by a unit, with two decimals, rounded half up;
/// a fraction that rounds to a whole carries into it.
pub open spec fn spec_scaled(b: int, unit: int) -> Seq<char> {
    let whole = b / unit;
    let frac = ((b % unit) * 100 + unit / 2) / unit;
    if frac >= 100 {
        spec_digits(whole + 1) + "."@ + seq![spec_digit(0), spec_digit(0)]
    } else {
        spec_digits(whole) + "."@ + seq![spec_digit(frac / 10), spec_digit(frac % 10)]
    }
}

/// A size in human-readable form: two decimals of the largest binary
/// unit reached, or plain bytes below one kibibyte.
pub open spec fn spec_format_size(bytes: u64) -> Seq<char> {
    if bytes >= BYTES_GB {
        spec_scaled(bytes as int, BYTES_GB as int) + " GB"@
    } else if bytes >= BYTES_MB {
        spec_scaled(bytes as int, BYTES_MB as int) + " MB"@
    } else if bytes >= BYTES_KB {
        spec_scaled(bytes as int, BYTES_KB as int) + " KB"@
    } else {
        spec_digits(bytes as int) + " B"@
    }
}

/// A byte count scaled by a unit, with two decimals.
fn scaled(b: u64, unit: u64) -> (r: String)
    requires
        2 <= unit <= 1073741824,
    ensures
        r@ == spec_scaled(b as int, unit as int),
{
    let whole = b / unit;
    let rem = b % unit;
    proof {
        assert(rem < unit);
        assert(rem * 100 + unit / 2 <= u64::MAX as int) by (nonlinear_arith)
            requires
                rem < unit,
                unit <= 1073741824,
        {
        }
        assert(whole < u64::MAX as int) by (nonlinear_arith)
            requires
                whole == b as int / unit as int,
                2 <= unit,
                b <= u64::MAX,
        {
        }
    }
    let frac = (rem * 100 + unit / 2) / unit;
    if frac >= 100 {
        let r = fmt_u64(whole + 1).concat(".").concat(digit_str(0)).concat(digit_str(0));
        proof {
            assert(r@ =~= spec_scaled(b as int, unit as int));
        }
        r
    } else {
        let r = fmt_u64(whole).concat(".").concat(digit_str(frac / 10)).concat(
            digit_str(frac % 10),
        );
        proof {
            assert(r@ =~= spec_scaled(b as int, unit as int));
        }
        r
    }
}

/// Format size in human-readable form.
pub fn format_size(bytes: u64) -> (r: String)
    ensures
        r@ == spec_format_size(bytes),
{
    if bytes >= BYTES_GB {
        let r = scaled(bytes, BYTES_GB).concat(" GB");
        proof {
            assert(r@ =~= spec_format_size(bytes));
        }
        r
    } else if bytes >= BYTES_MB {
        let r = scaled(bytes, BYTES_MB).concat(" MB");
        proof {
            assert(r@ =~= spec_format_size(bytes));
        }
        r
    } else if bytes >= BYTES_KB {
        let r = scaled(bytes, BYTES_KB).concat(" KB");
        proof {
            assert(r@ =~= spec_format_size(bytes));
        }
        r
    } else {
        let r = fmt_u64(bytes).concat(" B");
        proof {
            assert(r@ =~= spec_format_size(bytes));
        }
        r
    }
}

/// Two characters are equal up to ASCII case.
pub open spec fn spec_ci_eq(a: char, b: char) -> bool {
    ||| a == b
    ||| (65 <= a as u32 <= 90 && a as u32 + 32 == b as u32)
    ||| (65 <= b as u32 <= 90 && b as u32 + 32 == a as u32)
}

/// The needle matches the hay at position `i`, up to ASCII case.
pub open spec fn spec_ci_match_at(hay: Seq<char>, needle: Seq<char>, i: int) -> bool {
    forall|j: int| 0 <= j < needle.len() ==> spec_ci_eq(hay[i + j], #[trigger] needle[j])
}

/// The hay contains the needle somewhere, up to ASCII case.
pub open spec fn spec_contains_ci(hay: Seq<char>, needle: Seq<char>) -> bool {
    exists|i: int| 0 <= i && i + needle.len() <= hay.len() && spec_ci_match_at(hay, needle, i)
}

/// The text ends with the suffix, up to ASCII case.
pub open spec fn spec_has_suffix_ci(s: Seq<char>, suffix: Seq<char>) -> bool {
    s.len() >= suffix.len() && spec_ci_match_at(s, suffix, s.len() - suffix.len())
}

/// Compare two characters up to ASCII case.
pub fn ci_eq(a: char, b: char) -> (r: bool)
    ensures
        r == spec_ci_eq(a, b),
{
    let au = a as u32;
    let bu = b as u32;
    au == bu || (65 <= au && au <= 90 && au + 32 == bu) || (65 <= bu && bu <= 90 && bu + 32 == au)
}

/// Compare the needle against the hay at one position, up to ASCII
/// case.
#[verifier::loop_isolation(false)]
fn ci_match_at(hay: &str, needle: &str, i: usize) -> (r: bool)
    requires
        i + needle@.len() <= hay@.len(),
    ensures
        r == spec_ci_match_at(hay@, needle@, i as int),
{
    let nn = needle.unicode_len();
    let hn = hay.unicode_len();
    let mut j: usize = 0;
    while j < nn
        invariant
            j <= nn,
            forall|jj: int| 0 <= jj < j ==> spec_ci_eq(hay@[i + jj], needle@[jj]),
        decreases nn - j,
    {
        proof {
            assert(i + j < hn);
        }
        if !ci_eq(hay.get_char(i + j), needle.get_char(j)) {
            proof {
                let jj = j as int;
                assert(!spec_ci_eq(hay@[i + jj], needle@[jj]));
            }
            return false;
        }
        j = j + 1;
    }
    true
}

/// Whether the hay contains the needle, up to ASCII case.
#[verifier::loop_isolation(false)]
pub fn contains_ci(hay: &str, needle: &str) -> (r: bool)
    ensures
        r == spec_contains_ci(hay@, needle@),
{
    let hn = hay.unicode_len();
    let nn = needle.unicode_len();
    if nn > hn {
        return false;
    }
    let mut i: usize = 0;
    while i <= hn - nn
        invariant
            i <= hn - nn + 1,
            forall|ii: int| 0 <= ii < i ==> !spec_ci_match_at(hay@, needle@, ii),
        decreases hn - nn - i + 1,
    {
        if ci_match_at(hay, needle, i) {
            proof {
                let ii = i as int;
                assert(0 <= ii && ii + needle@.len() <= hay@.len() && spec_ci_match_at(
                    hay@,
                    needle@,
                    ii,
                ));
            }
            return true;
        }
        i = i + 1;
    }
    proof {
        if spec_contains_ci(hay@, needle@) {
            let ii = choose|ii: int|
                0 <= ii && ii + needle@.len() <= hay@.len() && spec_ci_match_at(
                    hay@,
                    needle@,
                    ii,
                );
            assert(ii < i);
            assert(!spec_ci_match_at(hay@, needle@, ii));
        }
    }
    false
}

/// Compare a character-list needle against the hay at one position, up
/// to ASCII case.
#[verifier::loop_isolation(false)]
fn ci_match_at_chars(hay: &str, needle: &Vec<char>, i: usize) -> (r: bool)
    requires
        i + needle@.len() <= hay@.len(),
    ensures
        r == spec_ci_match_at(hay@, needle@, i as int),
{
    let nn = needle.len();
    let hn = hay.unicode_len();
    let mut j: usize = 0;
    while j < nn
        invariant
            j <= nn,
            forall|jj: int| 0 <= jj < j ==> spec_ci_eq(hay@[i + jj], needle@[jj]),
        decreases nn - j,
    {
        proof {
            assert(i + j < hn);
        }
        if !ci_eq(hay.get_char(i + j), needle[j]) {
            proof {
                let jj = j as int;
                assert(!spec_ci_eq(hay@[i + jj], needle@[jj]));
            }
            return false;
        }
        j = j + 1;
    }
    true
}

/// Whether the hay contains the character-list needle, up to ASCII
/// case.
#[verifier::loop_isolation(false)]
pub fn contains_ci_chars(hay: &str, needle: &Vec<char>) -> (r: bool)
    ensures
        r == spec_contains_ci(hay@, needle@),
{
    let hn = hay.unicode_len();
    let nn = needle.len();
    if nn > hn {
        return false;
    }
    let mut i: usize = 0;
    while i <= hn - nn
        invariant
            i <= hn - nn + 1,
            forall|ii: int| 0 <= ii < i ==> !spec_ci_match_at(hay@, needle@, ii),
        decreases hn - nn - i + 1,
    {
        if ci_match_at_chars(hay, needle, i) {
            proof {
                let ii = i as int;
                assert(0 <= ii && ii + needle@.len() <= hay@.len() && spec_ci_match_at(
                    hay@,
                    needle@,
                    ii,
                ));
            }
            return true;
        }
        i = i + 1;
    }
    proof {
        if spec_contains_ci(hay@, needle@) {
            let ii = choose|ii: int|
                0 <= ii && ii + needle@.len() <= hay@.len() && spec_ci_match_at(
                    hay@,
                    needle@,
                    ii,
                );
            assert(ii < i);
            assert(!spec_ci_match_at(hay@, needle@, ii));
        }
    }
    false
}

/// Whether the text ends with the suffix, up to ASCII case.
#[verifier::loop_isolation(false)]
pub fn has_suffix_ci(s: &str, suffix: &str) -> (r: bool)
    ensures
        r == spec_has_suffix_ci(s@, suffix@),
{
    let n = s.unicode_len();
    let k = suffix.unicode_len();
    if k > n {
        return false;
    }
    let base = n - k;
    let mut j: usize = 0;
    while j < k
        invariant
            j <= k,
            forall|jj: int| 0 <= jj < j ==> spec_ci_eq(s@[base + jj], suffix@[jj]),
        decreases k - j,
    {
        if !ci_eq(s.get_char(base + j), suffix.get_char(j)) {
            proof {
                let jj = j as int;
                assert(!spec_ci_eq(s@[base + jj], suffix@[jj]));
            }
            return false;
        }
        j = j + 1;
    }
    true
}

/// What `truncate` yields: the text unchanged where it fits, else its
/// head with a three-dot tail.
pub open spec fn spec_truncate(s: Seq<char>, max: int) -> Seq<char> {
    if s.len() > max {
        s.take(if max >= 3 {
            max - 3
        } else {
            0
        }) + "..."@
    } else {
        s
    }
}

/// Truncate text to at most `max` characters, ending a shortened text
/// with three dots.
pub fn truncate(s: &str, max: usize) -> (r: String)
    ensures
        r@ == spec_truncate(s@, max as int),
{
    let n = s.unicode_len();
    if n > max {
        let keep: usize = if max >= 3 {
            max - 3
        } else {
            0
        };
        let r = s.substring_char(0, keep).to_owned().concat("...");
        proof {
            assert(s@.subrange(0int, keep as int) =~= s@.take(keep as int));
        }
        r
    } else {
        s.to_owned()
    }
}

} // verus!
