//! Small text helpers for fixed-width displays.

use vstd::prelude::*;

use crate::text::{chars_of, string_of};

verus! {

/// `one` when `n` is exactly 1, else `many`.
pub fn plural<'a>(one: &'a str, many: &'a str, n: usize) -> (r: &'a str)
    ensures
        r == (if n == 1 { one } else { many }),
{
    if n == 1 {
        one
    } else {
        many
    }
}

/// `s` if it has at most `n` characters, else its first `n - 1` characters
/// (none when `n` is 0) followed by an ellipsis.
pub open spec fn clipped(s: Seq<char>, n: nat) -> Seq<char> {
    if s.len() <= n {
        s
    } else {
        s.take(if n >= 1 { n - 1 } else { 0 }) + seq!['…']
    }
}

/// Truncate to `n` chars with an ellipsis (for fixed-width rows).
pub fn clip(s: &str, n: usize) -> (r: String)
    ensures
        r@ == clipped(s@, n as nat),
{
    let cs = chars_of(s);
    if cs.len() <= n {
        return string_of(&cs);
    }
    let keep: usize = if n >= 1 {
        n - 1
    } else {
        0
    };
    let mut out: Vec<char> = Vec::new();
    let mut i: usize = 0;
    while i < keep
        invariant
            i <= keep < cs.len(),
            out@ =~= cs@.take(i as int),
        decreases keep - i,
    {
        out.push(cs[i]);
        i = i + 1;
    }
    out.push('…');
    string_of(&out)
}

/// Shorten a string to `max` chars with an ellipsis.
pub fn truncate(s: &str, max: usize) -> (r: String)
    ensures
        r@ == clipped(s@, max as nat),
{
    clip(s, max)
}

/// A clipped text never exceeds its width (for a width of at least one), and
/// is the text itself when it already fits.
pub proof fn lemma_clip_fits(s: Seq<char>, n: nat)
    ensures
        n >= 1 ==> clipped(s, n).len() <= n,
        s.len() <= n ==> clipped(s, n) == s,
        s.len() > n ==> clipped(s, n).last() == '…',
{
}

} // verus!
