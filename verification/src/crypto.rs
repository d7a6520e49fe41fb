//! Cryptographic primitives of the auth core: password hashing and
//! verification, the random bearer token, and the one-way digest that
//! turns a token into the session identifier stored server-side.
//!
//! The outside calls stand behind small trusted wrappers; everything
//! that combines them is verified.

use vstd::prelude::*;

use argon2::password_hash::rand_core::{OsRng, RngCore};
use argon2::password_hash::{PasswordHash, SaltString};
use argon2::{Argon2, PasswordHasher, PasswordVerifier};
use sha2::Digest;

verus! {

/// Whether `password` checks out against the PHC-encoded hash string
/// `phc_hash`: the hash string is parsed, the digest is recomputed with
/// the salt and parameters embedded in it, and the outputs are compared.
/// A malformed hash string never verifies. The outcome is a function of
/// the two arguments alone.
pub uninterp spec fn password_verifies(password: Seq<char>, phc_hash: Seq<char>) -> bool;

/// The SHA-256 digest of `data`: 32 bytes determined by `data` alone.
pub uninterp spec fn sha256_of(data: Seq<u8>) -> Seq<u8>;

/// The RFC 4648 lower-case base-32 encoding of `data`, padded with `=`
/// to a multiple of eight characters.
pub uninterp spec fn base32_lower_of(data: Seq<u8>) -> Seq<char>;

/// The lower-case hex digit for a value below sixteen.
pub open spec fn hex_digit_char(nibble: u8) -> char {
    seq!['0', '1', '2', '3', '4', '5', '6', '7', '8', '9', 'a', 'b', 'c', 'd', 'e', 'f'][nibble as int]
}

/// The lower-case hex encoding of `data`: two digits for each byte,
/// high nibble first.
pub open spec fn hex_lower_of(data: Seq<u8>) -> Seq<char>
    decreases data.len(),
{
    if data.len() == 0 {
        seq![]
    } else {
        seq![hex_digit_char(data.first() >> 4), hex_digit_char(data.first() & 0x0f)]
            + hex_lower_of(data.drop_first())
    }
}

/// The session identifier derived from a raw bearer token: the hex form
/// of the token's SHA-256 digest. Only this value is ever stored
/// server-side; the raw token never is.
pub open spec fn digest_of(token: Seq<char>) -> Seq<char> {
    hex_lower_of(sha256_of(vstd::utf8::encode_utf8(token)))
}

/// Relies on hex::encode: every byte becomes exactly two lower-case hex
/// digits, high nibble first.
#[verifier::external_body]
fn hex_encode(data: &[u8]) -> (r: String)
    ensures
        r@ == hex_lower_of(data@),
{
    hex::encode(data)
}

/// Relies on sha2::Sha256::digest: a 32-byte digest that depends on the
/// input alone.
#[verifier::external_body]
fn sha256(data: &[u8]) -> (r: Vec<u8>)
    ensures
        r@ == sha256_of(data@),
        r@.len() == 32,
{
    sha2::Sha256::digest(data).to_vec()
}

/// Relies on base32::encode with the RFC 4648 lower-case alphabet and
/// padding on: the output depends on the input alone and holds eight
/// characters for every started group of five bytes.
#[verifier::external_body]
fn base32_encode(data: &[u8]) -> (r: String)
    ensures
        r@ == base32_lower_of(data@),
        r@.len() == ((data@.len() + 4) / 5) * 8,
{
    base32::encode(base32::Alphabet::Rfc4648Lower { padding: true }, data)
}

/// Relies on rand_core::OsRng::fill_bytes, re-exported by argon2: twenty
/// bytes from the operating system's secure random source.
#[verifier::external_body]
fn random_token_bytes() -> (r: Vec<u8>)
    ensures
        r@.len() == 20,
{
    let mut bytes = [0u8; 20];
    OsRng.fill_bytes(&mut bytes);
    bytes.to_vec()
}

/// Relies on argon2::password_hash::SaltString as an opaque carrier for
/// a fresh random salt.
#[verifier::external_type_specification]
#[verifier::external_body]
pub struct ExSaltString(SaltString);

/// Relies on SaltString::generate with the OS random source: a fresh
/// salt for one password hash.
#[verifier::external_body]
fn fresh_salt() -> SaltString {
    SaltString::generate(&mut OsRng)
}

/// Relies on Argon2::hash_password with the default parameters: the PHC
/// string it returns embeds algorithm, parameters, salt and digest, and
/// verification recomputes the digest from exactly those, so the hashed
/// password verifies against the returned string.
#[verifier::external_body]
fn argon2_hash(password: &str, salt: &SaltString) -> (r: Option<String>)
    ensures
        r matches Some(h) ==> password_verifies(password@, h@),
{
    match Argon2::default().hash_password(password.as_bytes(), salt) {
        Ok(h) => Some(h.to_string()),
        Err(_) => None,
    }
}

/// Relies on PasswordHash::new and Argon2::verify_password: the outcome
/// is a function of the password and the encoded hash alone, and a
/// malformed encoded hash verifies as false rather than raising.
#[verifier::external_body]
fn argon2_verify(password: &str, phc_hash: &str) -> (r: bool)
    ensures
        r == password_verifies(password@, phc_hash@),
{
    match PasswordHash::new(phc_hash) {
        Ok(parsed) => Argon2::default().verify_password(password.as_bytes(), &parsed).is_ok(),
        Err(_) => false,
    }
}

/// One-way hash of a password with a fresh random salt, encoded as a
/// self-describing PHC string. `None` only if the hashing backend
/// refuses the input.
pub fn hash_password(password: &str) -> (r: Option<String>)
    ensures
        r matches Some(h) ==> password_verifies(password@, h@),
{
    let salt = fresh_salt();
    argon2_hash(password, &salt)
}

/// Whether `password` checks out against the stored PHC hash string.
/// A malformed stored hash counts as incorrect credentials.
pub fn verify_password(password: &str, phc_hash: &str) -> (r: bool)
    ensures
        r == password_verifies(password@, phc_hash@),
{
    argon2_verify(password, phc_hash)
}

/// Law: a password hashed by `hash_password` verifies against the hash
/// it got, whenever hashing succeeded at all.
pub fn hashed_password_verifies(password: &str) -> (r: Option<bool>)
    ensures
        r matches Some(ok) ==> ok,
{
    match hash_password(password) {
        Some(h) => Some(verify_password(password, h.as_str())),
        None => None,
    }
}

/// The session identifier for a raw bearer token: lower-case hex of the
/// token's SHA-256 digest, 64 characters.
pub fn token_digest(token: &str) -> (r: String)
    ensures
        r@ == digest_of(token@),
        r@.len() == 64,
{
    let bytes = token.as_bytes();
    let digest = sha256(bytes);
    let hexed = hex_encode(digest.as_slice());
    proof {
        lemma_hex_lower_len(digest@);
    }
    hexed
}

/// The hex encoding is two characters per byte.
proof fn lemma_hex_lower_len(data: Seq<u8>)
    ensures
        hex_lower_of(data).len() == 2 * data.len(),
    decreases data.len(),
{
    if data.len() > 0 {
        lemma_hex_lower_len(data.drop_first());
    }
}

/// A fresh opaque bearer token: 160 bits from the secure random source,
/// base-32 encoded into 32 cookie-safe characters.
pub fn generate_session_token() -> (r: String)
    ensures
        r@.len() == 32,
{
    let bytes = random_token_bytes();
    base32_encode(bytes.as_slice())
}

/// Relies on time::OffsetDateTime::now_utc and unix_timestamp: the
/// current time as whole seconds since the Unix epoch.
#[verifier::external_body]
pub(crate) fn now_unix() -> i64 {
    time::OffsetDateTime::now_utc().unix_timestamp()
}

} // verus!
