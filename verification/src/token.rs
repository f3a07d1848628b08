//! Random names for intermediate artifacts.

use vstd::prelude::*;
use crate::text::from_chars;

verus! {

/// How many characters a token has. Sixty-two to the eighth power names make a collision within
/// one directory negligible.
pub const TOKEN_LENGTH: usize = 8;

/// An ASCII letter or digit.
pub open spec fn is_alphanumeric(c: char) -> bool {
    ('a' <= c && c <= 'z') || ('A' <= c && c <= 'Z') || ('0' <= c && c <= '9')
}

/// A token: `TOKEN_LENGTH` ASCII letters and digits.
pub open spec fn is_token(s: Seq<char>) -> bool {
    &&& s.len() == TOKEN_LENGTH
    &&& forall|i: int| 0 <= i < s.len() ==> is_alphanumeric(#[trigger] s[i])
}

/// Samples `rand::distributions::Alphanumeric` from `rand::thread_rng()`. The distribution
/// picks among the letters `a` to `z`, `A` to `Z` and the digits; which one is up to chance.
#[verifier::external_body]
fn random_alphanumeric() -> (c: char)
    ensures
        is_alphanumeric(c),
{
    rand::Rng::sample(&mut rand::thread_rng(), rand::distributions::Alphanumeric)
}

/// A fresh random token. Two calls need not agree.
pub fn random_token() -> (token: String)
    ensures
        is_token(token@),
{
    let mut chars: Vec<char> = Vec::new();
    while chars.len() < TOKEN_LENGTH
        invariant
            chars.len() <= TOKEN_LENGTH,
            forall|i: int| 0 <= i < chars.len() ==> is_alphanumeric(#[trigger] chars@[i]),
        decreases TOKEN_LENGTH - chars.len(),
    {
        let c = random_alphanumeric();
        chars.push(c);
    }
    from_chars(&chars)
}

} // verus!
