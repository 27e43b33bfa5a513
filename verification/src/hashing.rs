//! Credential hashing: SHA-256 digest rendered as lowercase hex.

use vstd::prelude::*;

verus! {

/// The SHA-256 digest of `data`. The digest is a pure function of its
/// input; its 32-byte length is stated where the digest is produced.
pub uninterp spec fn sha256_of(data: Seq<u8>) -> Seq<u8>;

/// The lowercase ASCII hex digit for a value below sixteen.
pub open spec fn hex_digit(n: int) -> u8 {
    if n < 10 {
        (48 + n) as u8
    } else {
        (87 + n) as u8
    }
}

/// The lowercase hex rendering of `data`: two digits per byte, high
/// nibble first.
pub open spec fn hex_bytes(data: Seq<u8>) -> Seq<u8> {
    Seq::new(
        2 * data.len(),
        |i: int|
            if i % 2 == 0 {
                hex_digit((data[i / 2] as int) / 16)
            } else {
                hex_digit((data[i / 2] as int) % 16)
            },
    )
}

/// Relies on sha2's Sha256: the digest depends on the input bytes alone
/// and is 32 bytes long.
#[verifier::external_body]
fn sha256_digest(data: &[u8]) -> (r: Vec<u8>)
    ensures
        r@ == sha256_of(data@),
        r@.len() == 32,
{
    <sha2::Sha256 as sha2::Digest>::digest(data).to_vec()
}

/// Relies on hex::encode: each input byte becomes two lowercase hex
/// digits, high nibble first.
#[verifier::external_body]
fn hex_encode(data: &[u8]) -> (r: Vec<u8>)
    ensures
        r@ == hex_bytes(data@),
{
    hex::encode(data).into_bytes()
}

/// Hash a password: the lowercase hex rendering of its SHA-256 digest.
/// This hex digest, never the password itself, is what an authentication
/// request transmits.
pub fn hash_password(password: &[u8]) -> (r: Vec<u8>)
    ensures
        r@ == hex_bytes(sha256_of(password@)),
        r@.len() == 64,
{
    let digest = sha256_digest(password);
    hex_encode(digest.as_slice())
}

} // verus!
