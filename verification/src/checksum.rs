//! Checksum verifier: every block carries a SHA-256 digest, transmitted as
//! its standard base64 encoding, and a fetched or scanned payload is only
//! accepted when its locally computed checksum matches the attested one.

use vstd::prelude::*;
use base64::Engine;
use sha2::Digest;

verus! {

/// The digest that SHA-256 assigns to a byte sequence.
pub uninterp spec fn sha256_of(data: Seq<u8>) -> Seq<u8>;

/// The standard base64 encoding, with padding, of a byte sequence.
pub uninterp spec fn base64_of(data: Seq<u8>) -> Seq<u8>;

/// The textual checksum attached to a block: the base64 encoding of the
/// SHA-256 digest of its payload, carried as bytes.
pub open spec fn spec_block_checksum(payload: Seq<u8>) -> Seq<u8> {
    base64_of(sha256_of(payload))
}

/// Relies on sha2's `Sha256` through the `Digest` trait: the digest is
/// 32 bytes and depends on the input bytes alone.
#[verifier::external_body]
fn sha256_digest(data: &[u8]) -> (r: Vec<u8>)
    ensures
        r@ == sha256_of(data@),
        r@.len() == 32,
{
    sha2::Sha256::digest(data).to_vec()
}

/// Relies on base64's `Engine::encode` with the `STANDARD` (padded) engine:
/// the output is four characters per three-byte group, rounded up, and
/// depends on the input bytes alone.
#[verifier::external_body]
fn base64_encode(data: &[u8]) -> (r: Vec<u8>)
    ensures
        r@ == base64_of(data@),
        r@.len() == 4 * ((data@.len() + 2) / 3),
{
    base64::engine::general_purpose::STANDARD.encode(data).into_bytes()
}

/// Whether two byte slices hold the same bytes.
pub fn bytes_eq(a: &[u8], b: &[u8]) -> (r: bool)
    ensures
        r == (a@ == b@),
{
    if a.len() != b.len() {
        return false;
    }
    let mut i: usize = 0;
    while i < a.len()
        invariant
            i <= a@.len(),
            a@.len() == b@.len(),
            forall|j: int| 0 <= j < i ==> a@[j] == b@[j],
        decreases a@.len() - i,
    {
        if a[i] != b[i] {
            return false;
        }
        i += 1;
    }
    proof {
        assert(a@ =~= b@);
    }
    true
}

/// The checksum to attach to a block payload: base64 of its SHA-256 digest.
pub fn block_checksum(payload: &[u8]) -> (r: Vec<u8>)
    ensures
        r@ == spec_block_checksum(payload@),
        r@.len() == 44,
{
    let digest = sha256_digest(payload);
    base64_encode(digest.as_slice())
}

/// Whether the checksum locally computed over `payload` matches the
/// checksum the remote side attests for it.
pub fn checksum_matches(payload: &[u8], attested: &[u8]) -> (r: bool)
    ensures
        r == (spec_block_checksum(payload@) == attested@),
{
    let computed = block_checksum(payload);
    bytes_eq(computed.as_slice(), attested)
}

} // verus!
