//! PKCE code verifiers and challenges, from the `pkce` crate.
use vstd::prelude::*;

verus! {

/// A byte that a PKCE code verifier may hold: an ASCII letter or digit, or
/// one of `-`, `.`, `~`, `_`.
pub open spec fn is_verifier_byte(b: u8) -> bool {
    ||| 65 <= b <= 90
    ||| 97 <= b <= 122
    ||| 48 <= b <= 57
    ||| b == 45
    ||| b == 46
    ||| b == 126
    ||| b == 95
}

/// A character of the URL-safe base64 alphabet: an ASCII letter or digit,
/// `-` or `_`.
pub open spec fn is_base64url_char(c: char) -> bool {
    ||| 'A' <= c <= 'Z'
    ||| 'a' <= c <= 'z'
    ||| '0' <= c <= '9'
    ||| c == '-'
    ||| c == '_'
}

/// The challenge that `pkce::code_challenge` derives from a verifier
/// (SHA-256, then unpadded URL-safe base64).
pub uninterp spec fn pkce_challenge(verifier: Seq<u8>) -> Seq<char>;

/// Calls `pkce::code_verifier`, which draws `length` random bytes from the
/// verifier alphabet. Claimed: the result has `length` bytes, each in that
/// alphabet. Which bytes come out is left open (they are random). The
/// crate panics unless `length` is between 43 and 128, so that is required.
#[verifier::external_body]
pub(crate) fn pkce_code_verifier(length: usize) -> (r: Vec<u8>)
    requires
        43 <= length <= 128,
    ensures
        r@.len() == length,
        forall|i: int| 0 <= i < r@.len() ==> is_verifier_byte(#[trigger] r@[i]),
{
    pkce::code_verifier(length)
}

/// Calls `pkce::code_challenge`. Claimed: the result is the named
/// challenge of the verifier; it is 43 characters long (a 32-byte digest in
/// base64 without padding), all from the URL-safe base64 alphabet.
#[verifier::external_body]
pub(crate) fn pkce_code_challenge(verifier: &[u8]) -> (r: String)
    ensures
        r@ == pkce_challenge(verifier@),
        r@.len() == 43,
        forall|i: int| 0 <= i < r@.len() ==> is_base64url_char(#[trigger] r@[i]),
{
    pkce::code_challenge(verifier)
}

} // verus!
