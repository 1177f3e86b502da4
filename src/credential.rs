use vstd::prelude::*;

use argon2::password_hash::rand_core::OsRng;
use argon2::password_hash::{Error as HashError, PasswordHash, PasswordHasher, PasswordVerifier, SaltString};
use argon2::Argon2;

verus! {

/// The error type of the password-hashing library.
#[verifier::external_type_specification]
#[verifier::external_body]
pub struct ExHashError(HashError);

/// `s` with leading and trailing whitespace removed, as `str::trim` does.
pub uninterp spec fn trim_of(s: Seq<char>) -> Seq<char>;

/// Whether Argon2 accepts `password` against the PHC hash string `hash`.
pub uninterp spec fn argon2_accepts(password: Seq<char>, hash: Seq<char>) -> bool;

/// Relies on `str::trim`: the result depends on the characters alone, and
/// is a slice of `s`, so it is no longer.
#[verifier::external_body]
pub(crate) fn trimmed(s: &str) -> (r: &str)
    ensures
        r@ == trim_of(s@),
        r@.len() <= s@.len(),
{
    s.trim()
}

/// Relies on password-hash's `PasswordHash::new` and argon2's
/// `verify_password` with the default parameters: whether the stored hash
/// parses and the password matches it, which depends on the two alone.
#[verifier::external_body]
fn argon2_verify(password: &str, hash: &str) -> (r: bool)
    ensures
        r == argon2_accepts(password@, hash@),
{
    match PasswordHash::new(hash) {
        Ok(parsed) => Argon2::default().verify_password(password.as_bytes(), &parsed).is_ok(),
        Err(_) => false,
    }
}

/// Relies on argon2's `hash_password` with the default parameters and a
/// salt drawn from the operating system: the PHC string of the hash. With a
/// 16-byte salt and the default parameters it fails only for a password of
/// more than `0xFFFF_FFFF` bytes, which `MAX_PASSWORD_CHARS` characters
/// never reach. The string (`$argon2id$v=19$m=..,t=..,p=..$salt$hash`, in
/// B64 characters) has no surrounding whitespace and carries the algorithm,
/// parameters, salt and output, so `verify_password` recomputes the hash
/// from it and accepts the password. The salt is random, so nothing else is
/// known of the string.
#[verifier::external_body]
pub(crate) fn argon2_hash(password: &str) -> (r: Result<String, HashError>)
    ensures
        password@.len() <= MAX_PASSWORD_CHARS ==> r is Ok,
        r matches Ok(h) ==> h@.len() > 0 && trim_of(h@) == h@ && argon2_accepts(password@, h@),
{
    let salt = SaltString::generate(&mut OsRng);
    Argon2::default().hash_password(password.as_bytes(), &salt).map(|h| h.to_string())
}

/// Longest password, in characters, that Argon2 always hashes: at most four
/// UTF-8 bytes per character keeps it within Argon2's `0xFFFF_FFFF` bytes.
pub const MAX_PASSWORD_CHARS: usize = 0x3FFF_FFFF;

/// The credential to store for a new `password`: the empty credential (no
/// password required) for a blank one, otherwise the Argon2 hash of the
/// trimmed password, which that password then verifies against; `None` when
/// hashing failed, which cannot happen below `MAX_PASSWORD_CHARS`.
pub fn new_credential(password: &str) -> (r: Option<String>)
    ensures
        trim_of(password@).len() == 0 ==> (r matches Some(c) && c@.len() == 0),
        password@.len() <= MAX_PASSWORD_CHARS ==> r is Some,
        trim_of(password@).len() > 0 ==> (r matches Some(c) ==> c@.len() > 0 && trim_of(c@) == c@
            && argon2_accepts(trim_of(password@), c@)),
        trim_of(password@).len() > 0 ==> (r matches Some(c) ==> password_admitted(trim_of(password@), c@)),
{
    let password = trimmed(password);
    if password.is_empty() {
        return Some(String::new());
    }
    match argon2_hash(password) {
        Ok(h) => Some(h),
        Err(_) => None,
    }
}

/// The stored credential `hashed` admits the entered password: a blank
/// stored hash admits only a blank password, any other is checked by Argon2.
pub open spec fn password_admitted(entered: Seq<char>, hashed: Seq<char>) -> bool {
    if trim_of(hashed).len() == 0 {
        trim_of(entered).len() == 0
    } else {
        argon2_accepts(entered, hashed)
    }
}

/// Checks an entered password against a stored credential hash. An empty
/// stored hash means that no password is required: then only a blank
/// entry passes.
pub fn verify_password(entered_pw: &str, hashed: &str) -> (r: bool)
    ensures
        r == password_admitted(entered_pw@, hashed@),
{
    if trimmed(hashed).is_empty() {
        return trimmed(entered_pw).is_empty();
    }
    argon2_verify(entered_pw, hashed)
}

} // verus!
