use sha2::{Digest, Sha256};
use vstd::prelude::*;

use crate::canonical::{claim_json, claim_json_bytes};
use crate::recompute::IssuerClaim;

verus! {

/// The SHA-256 digest of a byte sequence.
pub uninterp spec fn sha256_of(data: Seq<u8>) -> Seq<u8>;

/// `sha2::Sha256::digest`: the SHA-256 digest of `data`, which is a function
/// of `data` alone and is 32 bytes long (the output size of `Sha256`).
#[verifier::external_body]
fn sha256_digest(data: &[u8]) -> (d: Vec<u8>)
    ensures
        d@ == sha256_of(data@),
        d@.len() == 32,
{
    Sha256::digest(data).to_vec()
}

/// The lower-case hexadecimal digit of a value below sixteen.
pub open spec fn hex_digit_char(d: nat) -> char
    recommends
        d < 16,
{
    if d < 10 {
        ((48 + d) as u32) as char
    } else {
        ((87 + d) as u32) as char
    }
}

/// Lower-case hexadecimal text of a byte sequence, two digits per byte,
/// high nibble first.
pub open spec fn hex_lower(bytes: Seq<u8>) -> Seq<char>
    decreases bytes.len(),
{
    if bytes.len() == 0 {
        Seq::empty()
    } else {
        hex_lower(bytes.drop_last()) + seq![
            hex_digit_char((bytes.last() / 16) as nat),
            hex_digit_char((bytes.last() % 16) as nat),
        ]
    }
}

/// `hex::encode`: each byte becomes two lower-case hexadecimal digits, the
/// high nibble first, in the order of the input.
#[verifier::external_body]
fn hex_encode(data: &[u8]) -> (s: String)
    ensures
        s@ == hex_lower(data@),
{
    hex::encode(data)
}

/// The digest text recorded for an issuer claim.
pub open spec fn claim_digest_text(claim: IssuerClaim) -> Seq<char> {
    hex_lower(sha256_of(claim_json(claim)))
}

/// Lower-case hexadecimal text of a digest.
pub fn digest_hex(digest: &[u8]) -> (s: String)
    ensures
        s@ == hex_lower(digest@),
{
    hex_encode(digest)
}

/// The SHA-256 digest of the claim's canonical JSON, in lower-case hex.
pub fn claim_hash(claim: &IssuerClaim) -> (h: String)
    ensures
        h@ == claim_digest_text(*claim),
        h@.len() == 64,
{
    let bytes = claim_json_bytes(claim);
    let digest = sha256_digest(bytes.as_slice());
    proof {
        lemma_hex_lower_len(digest@);
    }
    digest_hex(digest.as_slice())
}

/// Hex text has two digits per byte.
pub proof fn lemma_hex_lower_len(bytes: Seq<u8>)
    ensures
        hex_lower(bytes).len() == 2 * bytes.len(),
    decreases bytes.len(),
{
    if bytes.len() > 0 {
        lemma_hex_lower_len(bytes.drop_last());
    }
}

} // verus!
