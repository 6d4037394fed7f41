use argon2::password_hash::rand_core::OsRng;
use argon2::password_hash::{PasswordHash, PasswordHasher, PasswordVerifier, SaltString};
use argon2::Argon2;
use vstd::prelude::*;

verus! {

/// The failure type of the password hashing crate.
#[verifier::external_type_specification]
#[verifier::external_body]
pub struct ExPasswordHashError(argon2::password_hash::Error);

/// Whether Argon2 verification accepts the bytes `password` for the digest
/// `digest`: the digest parses as a PHC string and hashing `password` with
/// the salt and the parameters it carries yields the output it carries.
pub uninterp spec fn digest_matches(password: Seq<u8>, digest: Seq<char>) -> bool;

/// The bytes a password is hashed and verified by: its UTF-8 encoding.
pub open spec fn password_bytes(password: Seq<char>) -> Seq<u8> {
    vstd::utf8::encode_utf8(password)
}

/// A one-way digest of `password` in PHC string format.
///
/// Calls `Argon2::default().hash_password` with a salt drawn by
/// `SaltString::generate` from the operating system's random source, which
/// panics when that source fails. The salt is random, so the digest is not
/// named. What is claimed holds of every salt: the digest carries its salt
/// and parameters, and verification recomputes the hash from them, so a
/// digest accepts the password it was made from.
#[verifier::external_body]
pub fn hash_password(password: &[u8]) -> (r: Result<String, argon2::password_hash::Error>)
    ensures
        r matches Ok(digest) ==> digest_matches(password@, digest@),
{
    let argon2 = Argon2::default();
    let salt = SaltString::generate(&mut OsRng);
    let hash = argon2.hash_password(password, &salt)?.to_string();
    Ok(hash)
}

/// Checks `password` against a stored digest; an error when it is not
/// accepted.
///
/// Calls `PasswordHash::new` on the digest and `Argon2::default()
/// .verify_password` on the bytes of the password and the outcome. The
/// answer depends on the two texts alone; the contract names it
/// `digest_matches`.
#[verifier::external_body]
pub fn verify_password(password: String, hashed_password: String) -> (r: Result<
    (),
    argon2::password_hash::Error,
>)
    ensures
        r is Ok <==> digest_matches(password_bytes(password@), hashed_password@),
{
    let argon2 = Argon2::default();
    let hash = PasswordHash::new(&hashed_password)?;
    argon2.verify_password(password.as_bytes(), &hash)
}

} // verus!
