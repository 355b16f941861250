//! Trusted wrappers around the cryptographic primitives and encoders that the
//! derivation pipeline calls. Each digest is named by an uninterpreted spec
//! function: the value depends on the wrapper's arguments alone.

use vstd::prelude::*;

verus! {

/// What the standard padded base64 alphabet encodes a byte string to.
pub uninterp spec fn b64_of(bytes: Seq<u8>) -> Seq<char>;

/// Relies on `base64::Engine::encode` with the `BASE64_STANDARD` engine: a
/// deterministic, padded encoding producing four characters for every block
/// of up to three input bytes.
#[verifier::external_body]
pub(crate) fn base64_encode(bytes: &[u8]) -> (r: String)
    requires
        bytes@.len() <= usize::MAX / 4,
    ensures
        r@ == b64_of(bytes@),
        r@.len() == 4 * ((bytes@.len() + 2) / 3),
{
    base64::Engine::encode(&base64::prelude::BASE64_STANDARD, bytes)
}

/// Declares `argon2::password_hash::Error`, the error a rejected hashing
/// call returns, so that it can appear in the wrapper's result; its value is
/// opaque here.
#[verifier::external_type_specification]
#[verifier::external_body]
pub struct ExPasswordHashError(argon2::password_hash::Error);

/// The textual (B64) hash component that Argon2id with the pinned
/// parameters produces for a password and a B64 salt string.
pub uninterp spec fn argon2_text_of(password: Seq<u8>, salt_b64: Seq<char>) -> Seq<u8>;

/// Whether Argon2id with the pinned parameters accepts a password and a B64
/// salt string. The salt string's validation and the hash itself are
/// deterministic, so acceptance depends on the two arguments alone.
pub uninterp spec fn argon2_ok_of(password: Seq<u8>, salt_b64: Seq<char>) -> bool;

/// Relies on `argon2::Argon2::new` hashing through
/// `password_hash::PasswordHasher::hash_password` with a salt built by
/// `password_hash::SaltString::from_b64`. The parameters are pinned
/// explicitly (Argon2id, version 0x13, m=19456 KiB, t=2, p=1, 32-byte
/// output) so that a change of the library's defaults cannot silently
/// change the result: the textual hash component, and whether the call is
/// accepted at all, are functions of the password bytes and the salt string
/// alone. Any rejection by the primitive comes back as its own error.
#[verifier::external_body]
pub(crate) fn argon2_hash_text(password: &[u8], salt_b64: &str) -> (r: Result<
    Vec<u8>,
    argon2::password_hash::Error,
>)
    ensures
        r is Ok <==> argon2_ok_of(password@, salt_b64@),
        r matches Ok(t) ==> t@ == argon2_text_of(password@, salt_b64@),
{
    let salt = argon2::password_hash::SaltString::from_b64(salt_b64)?;
    let params = argon2::Params::new(19456, 2, 1, Some(32))?;
    let argon = argon2::Argon2::new(argon2::Algorithm::Argon2id, argon2::Version::V0x13, params);
    let hashed = argon2::password_hash::PasswordHasher::hash_password(&argon, password, &salt)?;
    match hashed.hash {
        Some(out) => Ok(out.to_string().into_bytes()),
        None => Err(argon2::password_hash::Error::Crypto),
    }
}

/// The 32-byte BLAKE3 digest of a byte string.
pub uninterp spec fn blake3_of(input: Seq<u8>) -> Seq<u8>;

/// Relies on `blake3::hash`: a deterministic 32-byte digest of the input.
#[verifier::external_body]
pub(crate) fn blake3_hash(input: &[u8]) -> (r: Vec<u8>)
    ensures
        r@ == blake3_of(input@),
        r@.len() == 32,
{
    blake3::hash(input).as_bytes().to_vec()
}

/// The 32-byte keyed BLAKE3 digest of a byte string under a 32-byte key.
pub uninterp spec fn blake3_keyed_of(key: Seq<u8>, input: Seq<u8>) -> Seq<u8>;

/// Relies on `blake3::keyed_hash`: a deterministic 32-byte digest of the
/// input under the given 32-byte key.
#[verifier::external_body]
pub(crate) fn blake3_keyed(key: &[u8], input: &[u8]) -> (r: Vec<u8>)
    requires
        key@.len() == 32,
    ensures
        r@ == blake3_keyed_of(key@, input@),
        r@.len() == 32,
{
    let mut k = [0u8; 32];
    k.copy_from_slice(key);
    blake3::keyed_hash(&k, input).as_bytes().to_vec()
}

/// Relies on `String::from_utf8`: bytes below 128 are valid UTF-8 and decode
/// to the characters with the same codepoints.
#[verifier::external_body]
pub(crate) fn ascii_to_string(bytes: &Vec<u8>) -> (r: String)
    requires
        forall|i: int| 0 <= i < bytes@.len() ==> bytes@[i] < 128,
    ensures
        r@ == Seq::new(bytes@.len(), |i: int| bytes@[i] as char),
{
    String::from_utf8(bytes.clone()).unwrap()
}

} // verus!
