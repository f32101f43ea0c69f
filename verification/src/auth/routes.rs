//! Password checking for the login form, and password hashing for new accounts.
use vstd::prelude::*;
use crate::models::user::User;
use argon2::password_hash::rand_core::OsRng;
use argon2::password_hash::{PasswordHasher, PasswordVerifier, Salt, SaltString};
use argon2::{Argon2, PasswordHash};

verus! {

/// The fields of the login form.
#[derive(Debug)]
pub struct LoginForm {
    pub email: String,
    pub password: String,
}

/// Whether Argon2 (default parameters) accepts `password` against the PHC
/// string `phc`: false where `phc` does not parse.
pub uninterp spec fn argon2_accepts(password: Seq<u8>, phc: Seq<char>) -> bool;

/// A digit of standard Base64: `A`-`Z`, `a`-`z`, `0`-`9`, `+` or `/`.
pub open spec fn is_b64_digit(c: char) -> bool {
    ||| ('A' as u32) <= (c as u32) <= ('Z' as u32)
    ||| ('a' as u32) <= (c as u32) <= ('z' as u32)
    ||| ('0' as u32) <= (c as u32) <= ('9' as u32)
    ||| c == '+'
    ||| c == '/'
}

/// Whether `t` is sixteen bytes in standard Base64 without padding: 22
/// digits, the last of which holds two bits followed by four zero bits
/// (`A`, `Q`, `g` or `w`).
pub open spec fn is_b64_of_16_bytes(t: Seq<char>) -> bool {
    &&& t.len() == 22
    &&& forall|i: int| 0 <= i < 21 ==> is_b64_digit(#[trigger] t[i])
    &&& (t[21] == 'A' || t[21] == 'Q' || t[21] == 'g' || t[21] == 'w')
}

/// A fresh random salt, as its text.
/// Trusted: `SaltString::generate` with the operating system's RNG. From its
/// source, it fills 16 random bytes and writes them in standard Base64
/// without padding; which bytes depends on chance, so only that shape is
/// claimed.
#[verifier::external_body]
fn random_salt() -> (s: String)
    ensures
        is_b64_of_16_bytes(s@),
{
    SaltString::generate(&mut OsRng).as_str().to_string()
}

/// Checks `password` against the PHC string `phc`.
/// Trusted: `PasswordHash::new` parses `phc` (a failure gives `false`) and
/// `Argon2::default().verify_password` checks it; the outcome is named by
/// `argon2_accepts`.
#[verifier::external_body]
fn argon2_verify(password: &[u8], phc: &str) -> (ok: bool)
    ensures
        ok == argon2_accepts(password@, phc@),
{
    match PasswordHash::new(phc) {
        Ok(hash) => Argon2::default().verify_password(password, &hash).is_ok(),
        Err(_) => false,
    }
}

/// Hashes `password` with the salt whose text is `salt`.
/// Trusted: `Salt::from_b64` and `Argon2::default().hash_password`. The PHC
/// string produced verifies the same password (that is what
/// `verify_password` checks against the parameters and salt the string
/// carries). From their source, the salt text is accepted when it has 4 to
/// 64 characters of the salt alphabet, and hashing fails only on a salt that
/// does not decode, a decoded salt shorter than 8 bytes, or a password over
/// `0xFFFF_FFFF` bytes; so sixteen bytes in Base64 and a password within
/// that length always succeed. The error message is password-hash's.
#[verifier::external_body]
fn argon2_hash(password: &[u8], salt: &str) -> (r: Result<String, String>)
    ensures
        r matches Ok(h) ==> argon2_accepts(password@, h@),
        is_b64_of_16_bytes(salt@) && password@.len() <= 0xFFFF_FFFF ==> r is Ok,
{
    let salt = match Salt::from_b64(salt) {
        Ok(s) => s,
        Err(e) => return Err(e.to_string()),
    };
    match Argon2::default().hash_password(password, salt) {
        Ok(h) => Ok(h.to_string()),
        Err(e) => Err(e.to_string()),
    }
}

/// A well-formed Argon2id hash that matches no password a user types; checked
/// when the email is unknown so that the response takes as long.
pub fn decoy_hash() -> (s: &'static str)
    ensures
        s@ == "$argon2id$v=19$m=19456,t=2,p=1$c29tZXNhbHQ$RdescudvJCsgt3ub+b+dWRWJTmaaJObG"@,
{
    "$argon2id$v=19$m=19456,t=2,p=1$c29tZXNhbHQ$RdescudvJCsgt3ub+b+dWRWJTmaaJObG"
}

/// Whether `password` logs in as `user`: false when there is no such user.
pub open spec fn password_matches(password: Seq<u8>, user: Option<User>) -> bool {
    match user {
        Some(u) => argon2_accepts(password, u.password_hash@),
        None => false,
    }
}

/// Verifies the password of the account found for the submitted email.
/// With no account a decoy hash is still checked, so that both failures take
/// about as long and answer the same.
pub fn verify_password(password: &str, user: Option<&User>) -> (ok: bool)
    ensures
        ok == password_matches(
            vstd::utf8::encode_utf8(password@),
            match user {
                Some(u) => Some(*u),
                None => None,
            },
        ),
{
    match user {
        Some(u) => argon2_verify(password.as_bytes(), u.password_hash.as_str()),
        None => {
            let _ = argon2_verify(password.as_bytes(), decoy_hash());
            false
        },
    }
}

/// Hashes a new account's password with a fresh random salt; the hash then
/// verifies that password. It succeeds on every password of at most
/// `0xFFFF_FFFF` bytes.
pub fn hash_password(password: &str) -> (r: Result<String, String>)
    ensures
        r matches Ok(h) ==> argon2_accepts(vstd::utf8::encode_utf8(password@), h@),
        vstd::utf8::encode_utf8(password@).len() <= 0xFFFF_FFFF ==> r is Ok,
{
    let salt = random_salt();
    argon2_hash(password.as_bytes(), salt.as_str())
}

/// A password an account was created with logs that account in.
pub proof fn lemma_created_password_logs_in(password: Seq<u8>, user: User)
    requires
        argon2_accepts(password, user.password_hash@),
    ensures
        password_matches(password, Some(user)),
{
}

} // verus!
