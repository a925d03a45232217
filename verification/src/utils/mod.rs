//! Shared helpers: the error type, the character-level text model and
//! number parsing and rendering.

pub mod chars;
pub mod error;
pub mod number;

pub use error::AppError;

use vstd::prelude::*;

use chars::{str_chars, trim, trim_chars};
use number::{parse_u64, parse_unsigned_chars};

verus! {

/// Whether `c` is an ASCII decimal digit.
pub open spec fn is_ascii_digit(c: char) -> bool {
    '0' <= c && c <= '9'
}

/// Length of the leading run of ASCII digits.
pub open spec fn digit_run(s: Seq<char>) -> nat
    decreases s.len(),
{
    if s.len() > 0 && is_ascii_digit(s[0]) {
        1 + digit_run(s.drop_first())
    } else {
        0
    }
}

pub proof fn lemma_digit_run_is(s: Seq<char>, k: int)
    requires
        0 <= k <= s.len(),
        forall|i: int| 0 <= i < k ==> is_ascii_digit(#[trigger] s[i]),
        k < s.len() ==> !is_ascii_digit(s[k]),
    ensures
        digit_run(s) == k,
    decreases k,
{
    if k > 0 {
        assert forall|i: int| 0 <= i < k - 1 implies is_ascii_digit(#[trigger] s.drop_first()[i]) by {
            assert(s.drop_first()[i] == s[i + 1]);
        }
        lemma_digit_run_is(s.drop_first(), k - 1);
    }
}

/// Value of the leading decimal digits of `s` after trimming white space:
/// `None` when there is no leading digit or the number does not fit `u64`.
pub open spec fn u64_prefix(s: Seq<char>) -> Option<nat> {
    let t = trim(s);
    let n = digit_run(t);
    if n == 0 {
        None
    } else {
        parse_u64(t.take(n as int))
    }
}

/// Index just past the run of ASCII digits that starts at `from`.
pub fn skip_digits(v: &[char], from: usize) -> (r: usize)
    requires
        from <= v@.len(),
    ensures
        r == from + digit_run(v@.skip(from as int)),
        r <= v@.len(),
{
    let mut i = from;
    while i < v.len() && '0' <= v[i] && v[i] <= '9'
        invariant
            from <= i <= v@.len(),
            forall|k: int| from <= k < i ==> is_ascii_digit(#[trigger] v@[k]),
        decreases v@.len() - i,
    {
        i = i + 1;
    }
    proof {
        let s = v@.skip(from as int);
        assert forall|k: int| 0 <= k < i - from implies is_ascii_digit(#[trigger] s[k]) by {
            assert(s[k] == v@[from + k]);
        }
        lemma_digit_run_is(s, i - from);
    }
    i
}

/// Leading number of a character sequence (see [`u64_prefix`]).
pub fn u64_prefix_chars(v: &[char]) -> (r: Option<u64>)
    ensures
        r matches Some(n) ==> u64_prefix(v@) == Some(n as nat),
        r is None ==> u64_prefix(v@) is None,
{
    let t = trim_chars(v);
    proof {
        assert(t@.skip(0) =~= t@);
    }
    let n = skip_digits(&t, 0);
    if n == 0 {
        return None;
    }
    let d = chars::slice_chars(&t, 0, n);
    proof {
        assert(d@ =~= t@.take(n as int));
    }
    parse_unsigned_chars(&d, 10, u64::MAX)
}

/// Parses the leading decimal number of a string (stops at the first
/// non-digit, after trimming white space).
pub fn parse_u64_prefix(s: &str) -> (r: Option<u64>)
    ensures
        r matches Some(n) ==> u64_prefix(s@) == Some(n as nat),
        r is None ==> u64_prefix(s@) is None,
{
    let v = str_chars(s);
    u64_prefix_chars(&v)
}

/// Used and total bytes of the root file system from its block count,
/// free block count and fragment size (`None` when the file system could
/// not be queried, which reads as zero).
pub fn disk_info(stat: Option<(u64, u64, u64)>) -> (r: (u64, u64))
    requires
        stat matches Some((blocks, bfree, frsize)) ==> blocks * frsize <= u64::MAX,
    ensures
        r == match stat {
            Some((blocks, bfree, frsize)) => (
                ((if blocks >= bfree {
                    blocks - bfree
                } else {
                    0
                }) * frsize) as u64,
                (blocks * frsize) as u64,
            ),
            None => (0u64, 0u64),
        },
{
    match stat {
        Some((blocks, bfree, frsize)) => {
            let free_used = blocks.saturating_sub(bfree);
            assert(free_used * frsize <= blocks * frsize) by (nonlinear_arith)
                requires
                    free_used <= blocks,
            ;
            (free_used * frsize, blocks * frsize)
        },
        None => (0, 0),
    }
}

} // verus!
