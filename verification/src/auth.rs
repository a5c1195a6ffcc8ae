use vstd::prelude::*;

use crate::protocol::bytes_eq;

verus! {

// ---------------------------------------------------------------------------
// Credential handling: passwords are never stored; what is stored is the hex
// digest of the password's bytes, and a login offer is checked against it.
// ---------------------------------------------------------------------------

/// The lowercase hex digest that `sha256::digest` computes for these bytes:
/// a function of the input alone.
pub uninterp spec fn sha256_hex_of(input: Seq<u8>) -> Seq<u8>;

/// Relies on sha256::digest: the lowercase hex form of the SHA-256 digest of
/// the input bytes, 64 bytes long, depending on the input alone.
#[verifier::external_body]
fn sha256_hex(input: &[u8]) -> (r: Vec<u8>)
    ensures
        r@ == sha256_hex_of(input@),
        r@.len() == 64,
{
    sha256::digest(input).into_bytes()
}

/// The stored form of a password.
pub fn hash_password(password: &[u8]) -> (r: Vec<u8>)
    ensures
        r@ == sha256_hex_of(password@),
{
    sha256_hex(password)
}

/// Whether a login offer is right: exactly when the stored hash is the
/// digest of the offered password.
pub fn verify_password(stored: &[u8], password: &[u8]) -> (r: bool)
    ensures
        r == (stored@ == sha256_hex_of(password@)),
{
    let h = hash_password(password);
    bytes_eq(stored, h.as_slice())
}

} // verus!
