//! The derivation engine: a pure, deterministic pipeline from a master
//! password, a site name, a site-specific pre-password and an
//! operator-supplied salt to a fixed-length printable password.
//!
//! The pipeline base64-encodes the salt, runs Argon2id over the master
//! password with that encoded salt, hashes the textual Argon2 output with
//! BLAKE3 to obtain a 32-byte key, feeds the site name followed by the
//! pre-password to keyed BLAKE3, and maps the first 15 digest bytes onto the
//! printable ASCII codepoints 33..=126.

use vstd::prelude::*;

use crate::hashes::argon2_hash_text;
use crate::hashes::argon2_ok_of;
use crate::hashes::argon2_text_of;
use crate::hashes::ascii_to_string;
use crate::hashes::b64_of;
use crate::hashes::base64_encode;
use crate::hashes::blake3_hash;
use crate::hashes::blake3_keyed;
use crate::hashes::blake3_keyed_of;
use crate::hashes::blake3_of;

verus! {

/// The number of characters in every derived password.
pub const PASSWORD_LEN: usize = 15;

/// Why a derivation failed: the salt was absent or empty (a configuration
/// fault), or the underlying hash primitive rejected its input.
#[derive(Clone, Copy, PartialEq, Eq, Structural, Debug)]
pub enum DeriveError {
    Configuration,
    HashingFailure,
}

/// The printable codepoint that one digest byte is mapped to: onto 33..=126.
pub open spec fn printable_code(b: u8) -> u8 {
    (b % 94 + 33) as u8
}

/// The password characters read off a keyed digest: its first 15 bytes,
/// each mapped onto the printable range.
pub open spec fn spec_password_chars(digest: Seq<u8>) -> Seq<char> {
    Seq::new(15, |i: int| printable_code(digest[i]) as char)
}

/// The whole derivation pipeline, as a mathematical function of the four
/// inputs.
pub open spec fn spec_derived_password(
    master: Seq<u8>,
    site: Seq<u8>,
    pre: Seq<u8>,
    salt: Seq<u8>,
) -> Seq<char> {
    spec_password_chars(
        blake3_keyed_of(blake3_of(argon2_text_of(master, b64_of(salt))), site + pre),
    )
}

/// Maps the first 15 digest bytes onto the printable range.
fn password_bytes_of_digest(digest: &Vec<u8>) -> (r: Vec<u8>)
    requires
        digest@.len() >= 15,
    ensures
        r@.len() == 15,
        forall|i: int| 0 <= i < 15 ==> r@[i] == printable_code(digest@[i]),
{
    let mut out: Vec<u8> = Vec::new();
    let mut i: usize = 0;
    while i < 15
        invariant
            i <= 15,
            digest@.len() >= 15,
            out@.len() == i,
            forall|j: int| 0 <= j < i ==> out@[j] == printable_code(digest@[j]),
        decreases 15 - i,
    {
        let b = digest[i];
        out.push(b % 94 + 33);
        i += 1;
    }
    out
}

/// Finishes a derivation from the textual Argon2 hash onward: keys BLAKE3
/// with the digest of that text, feeds it the site name followed by the
/// pre-password, and maps the digest into a printable password. Total: it
/// succeeds for every value the primitive hands back.
pub fn password_from_hash_text(hash_text: &Vec<u8>, site_name: &[u8], pre_password: &[u8]) -> (r:
    String)
    ensures
        r@ == spec_password_chars(
            blake3_keyed_of(blake3_of(hash_text@), site_name@ + pre_password@),
        ),
        r@.len() == 15,
{
    let key = blake3_hash(hash_text.as_slice());
    let mut data: Vec<u8> = Vec::new();
    data.extend_from_slice(site_name);
    data.extend_from_slice(pre_password);
    proof {
        assert(data@ =~= site_name@ + pre_password@);
    }
    let digest = blake3_keyed(key.as_slice(), data.as_slice());
    let bytes = password_bytes_of_digest(&digest);
    let r = ascii_to_string(&bytes);
    proof {
        assert(r@ =~= spec_password_chars(digest@));
    }
    r
}

/// Derives the printable password for one site.
///
/// An empty salt is exactly the configuration failure. With a non-empty
/// salt the call succeeds exactly when the primitive accepts the master
/// password with the base64 salt string, fails only as a hashing failure
/// otherwise, and every success is exactly the pipeline's value on the four
/// inputs: the whole result, variant and value, is a function of the
/// inputs alone.
pub fn generate_password(
    master_password: &[u8],
    site_name: &[u8],
    pre_password: &[u8],
    salt: &[u8],
) -> (r: Result<String, DeriveError>)
    requires
        salt@.len() <= usize::MAX / 4,
    ensures
        salt@.len() == 0 <==> r == Err::<String, DeriveError>(DeriveError::Configuration),
        salt@.len() > 0 && r is Err ==> r == Err::<String, DeriveError>(
            DeriveError::HashingFailure,
        ),
        salt@.len() > 0 ==> (r is Ok <==> argon2_ok_of(master_password@, b64_of(salt@))),
        r matches Ok(p) ==> p@ == spec_derived_password(
            master_password@,
            site_name@,
            pre_password@,
            salt@,
        ) && p@.len() == 15,
{
    if salt.len() == 0 {
        return Err(DeriveError::Configuration);
    }
    let salt_b64 = base64_encode(salt);
    match argon2_hash_text(master_password, salt_b64.as_str()) {
        Ok(text) => Ok(password_from_hash_text(&text, site_name, pre_password)),
        Err(_) => Err(DeriveError::HashingFailure),
    }
}

/// Law: the derivation is deterministic. The pipeline's value is a function
/// of the four inputs alone, so two runs on equal inputs agree exactly.
pub proof fn lemma_derive_deterministic(
    m1: Seq<u8>,
    s1: Seq<u8>,
    p1: Seq<u8>,
    salt1: Seq<u8>,
    m2: Seq<u8>,
    s2: Seq<u8>,
    p2: Seq<u8>,
    salt2: Seq<u8>,
)
    requires
        m1 == m2,
        s1 == s2,
        p1 == p2,
        salt1 == salt2,
    ensures
        spec_derived_password(m1, s1, p1, salt1) == spec_derived_password(m2, s2, p2, salt2),
{
}

/// Law: the derived password always has exactly 15 characters, and every
/// character's codepoint lies in 33..=126, whatever the inputs.
pub proof fn lemma_derived_password_shape(
    master: Seq<u8>,
    site: Seq<u8>,
    pre: Seq<u8>,
    salt: Seq<u8>,
)
    ensures
        spec_derived_password(master, site, pre, salt).len() == 15,
        forall|i: int|
            0 <= i < 15 ==> 33 <= (#[trigger] spec_derived_password(master, site, pre, salt)[i]
                as int) <= 126,
{
}

} // verus!
