//! Session-file naming: collision-resistant random tokens.

use rand::RngExt;
use vstd::prelude::*;

verus! {

/// An ASCII letter or digit, as sampled by the random source.
pub open spec fn is_alnum_byte(b: u8) -> bool {
    (97 <= b && b <= 122) || (65 <= b && b <= 90) || (48 <= b && b <= 57)
}

/// A lowercase ASCII letter or digit: the only characters a generated
/// token may contain.
pub open spec fn is_token_char(c: char) -> bool {
    (97 <= c as u32 && c as u32 <= 122) || (48 <= c as u32 && c as u32 <= 57)
}

/// A well-formed token: `len` characters, all lowercase alphanumeric.
pub open spec fn is_token(s: Seq<char>, len: int) -> bool {
    s.len() == len && forall|i: int| 0 <= i < s.len() ==> is_token_char(#[trigger] s[i])
}

/// Relies on rand's `Alphanumeric` distribution: sampling it yields one
/// of the ASCII bytes `a`-`z`, `A`-`Z` or `0`-`9`, chosen at random.
/// Nothing is assumed about which one comes back.
#[verifier::external_body]
fn sample_alphanumeric() -> (b: u8)
    ensures
        is_alnum_byte(b),
{
    rand::rng().sample(rand::distr::Alphanumeric)
}

/// Relies on `String::push`: appends exactly one character at the end.
#[verifier::external_body]
fn push_char(s: &mut String, c: char)
    ensures
        final(s)@ == old(s)@.push(c),
{
    s.push(c);
}

/// Maps an ASCII letter or digit to its lowercase form.
fn to_lower_byte(b: u8) -> (r: u8)
    requires
        is_alnum_byte(b),
    ensures
        (97 <= r && r <= 122) || (48 <= r && r <= 57),
{
    if 65 <= b && b <= 90 {
        b + 32
    } else {
        b
    }
}

/// Draws a random lowercase alphanumeric string of the given length.
///
/// The result is suitable as a session-file base name.  The 36^length
/// space makes collisions negligible but not impossible: callers must
/// surface a colliding name as an error, not ignore it.
pub fn generate_random_string(length: usize) -> (r: String)
    ensures
        is_token(r@, length as int),
{
    let mut s = String::new();
    let mut n: usize = 0;
    while n < length
        invariant
            n <= length,
            s@.len() == n,
            forall|i: int| 0 <= i < s@.len() ==> is_token_char(#[trigger] s@[i]),
        decreases length - n,
    {
        let b = to_lower_byte(sample_alphanumeric());
        push_char(&mut s, b as char);
        n += 1;
    }
    s
}

} // verus!
