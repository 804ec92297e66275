//! Password hashing and random session-key generation.
//!
//! Hashing and verification go through the `argon2` crate; randomness comes
//! from `rand`. What the digest of a password looks like is not stated here:
//! the digest embeds a random salt, so only the relation between a digest and
//! the passwords it matches is named, by `argon2_verifies`.

use vstd::prelude::*;

verus! {

/// Whether `argon2::verify_encoded` accepts `digest` as a hash of
/// `password`. The outcome is a function of the two arguments alone.
pub uninterp spec fn argon2_verifies(digest: Seq<char>, password: Seq<char>) -> bool;

/// Relies on argon2::verify_encoded: whether an encoded digest matches a
/// password is deterministic in the two arguments. A malformed digest makes
/// the call return an error, mapped here to false, so verification fails
/// closed.
#[verifier::external_body]
pub(crate) fn verify_digest(digest: &str, password: &str) -> (r: bool)
    ensures
        r == argon2_verifies(digest@, password@),
{
    argon2::verify_encoded(digest, password.as_bytes()).unwrap_or(false)
}

/// Relies on argon2::hash_encoded with the crate's default configuration: it
/// returns an encoded digest whenever the salt is 8 to 2^30-1 bytes and the
/// password at most 2^30-1 bytes long (a character is at most 4 bytes, and
/// the crate accepts any byte length up to 2^32-1), and
/// argon2::verify_encoded accepts the digest it returns with the same
/// password.
#[verifier::external_body]
pub(crate) fn hash_password(password: &str, salt: &str) -> (r: Option<String>)
    ensures
        8 <= salt@.len() <= 0x3FFF_FFFF && password@.len() <= 0x3FFF_FFFF ==> r is Some,
        r matches Some(d) ==> argon2_verifies(d@, password@),
{
    argon2::hash_encoded(password.as_bytes(), salt.as_bytes(), &argon2::Config::default()).ok()
}

/// Relies on rand::random: draws one char from the thread-local
/// cryptographically secure generator. Nothing is promised of the value.
#[verifier::external_body]
fn random_char() -> char {
    rand::random::<char>()
}

/// Relies on String::push: appends the character at the end of the string.
#[verifier::external_body]
fn push_char(s: &mut String, c: char)
    ensures
        final(s)@ == old(s)@.push(c),
{
    s.push(c)
}

/// Whether a character lies in the printable ASCII range (space excluded),
/// the range session keys are drawn from.
pub open spec fn printable_ascii(c: char) -> bool {
    33 <= c as u32 <= 126
}

/// Returns a fresh random string of exactly `size` printable ASCII
/// characters, for use as a session key or a generated password. Each
/// character is drawn from the random source and folded into the printable
/// range.
pub fn rand_string(size: usize) -> (r: String)
    ensures
        r@.len() == size,
        forall|i: int| 0 <= i < r@.len() ==> printable_ascii(#[trigger] r@[i]),
{
    let mut s = String::new();
    let mut n: usize = 0;
    while n < size
        invariant
            n == s@.len(),
            n <= size,
            forall|i: int| 0 <= i < s@.len() ==> printable_ascii(#[trigger] s@[i]),
        decreases size - n,
    {
        let drawn = random_char();
        let code: u32 = drawn as u32;
        let b: u8 = 33 + (code % 94) as u8;
        let c: char = b as char;
        push_char(&mut s, c);
        n = n + 1;
    }
    s
}

} // verus!
