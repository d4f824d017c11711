//! Digest and signature primitives at the gateway's trust boundary.
//!
//! The BLAKE2b digest and the secp256k1 signature check are supplied by the
//! `casper_types` crate; their results are named here and everything the
//! protocol concludes from them is proved against those names.

use vstd::prelude::*;
use crate::codec::{hex_str_of, to_hex};
use casper_types::AsymmetricType;

verus! {

/// The 32-byte BLAKE2b digest of a byte string. Deterministic: it depends on
/// the input bytes alone.
pub uninterp spec fn blake2b_of(m: Seq<u8>) -> Seq<u8>;

/// Whether `signature` is a valid secp256k1 ECDSA signature over `message` by
/// the key whose SEC1 encoding is `pubkey_sec1`. Deterministic: it depends on
/// the three byte strings alone.
pub uninterp spec fn secp256k1_verifies(
    message: Seq<u8>,
    signature: Seq<u8>,
    pubkey_sec1: Seq<u8>,
) -> bool;

/// Relies on `casper_types::Digest::hash`: the 32-byte BLAKE2b digest of the
/// input, a function of the input bytes alone.
#[verifier::external_body]
pub fn blake2b_digest(message: &[u8]) -> (r: Vec<u8>)
    ensures
        r@ == blake2b_of(message@),
        r@.len() == 32,
{
    casper_types::Digest::hash(message).into_vec()
}

/// Relies on `casper_types::crypto::verify` for secp256k1 ECDSA verification,
/// with `PublicKey::secp256k1_from_bytes` and `Signature::secp256k1_from_bytes`
/// converting the raw arguments. Verification fails when the key is not a
/// valid SEC1 encoding or the signature is not 64 bytes; otherwise it is the
/// curve's deterministic signature check. The result depends on the three byte
/// strings alone.
#[verifier::external_body]
fn secp256k1_verify(message: &[u8], signature: &[u8], pubkey_sec1: &[u8]) -> (r: bool)
    ensures
        r == secp256k1_verifies(message@, signature@, pubkey_sec1@),
{
    let pubkey = match casper_types::PublicKey::secp256k1_from_bytes(pubkey_sec1) {
        Ok(pk) => pk,
        Err(_) => return false,
    };
    let sig = match casper_types::Signature::secp256k1_from_bytes(signature) {
        Ok(s) => s,
        Err(_) => return false,
    };
    casper_types::crypto::verify(message, &sig, &pubkey).is_ok()
}

/// The SEC1 uncompressed encoding of a public key stored as its 64 raw
/// coordinate bytes: a leading 4, then the coordinates.
pub open spec fn sec1_uncompressed(pubkey: Seq<u8>) -> Seq<u8> {
    seq![4u8] + pubkey
}

/// Checks `signature` over `message` against a relayer key stored as 64 raw
/// coordinate bytes, by supplying the key to the curve in SEC1 form.
pub fn verify_signature_with_key(message: &[u8], signature: &[u8], pubkey: &[u8]) -> (r: bool)
    ensures
        r == secp256k1_verifies(message@, signature@, sec1_uncompressed(pubkey@)),
{
    let mut sec1: Vec<u8> = Vec::new();
    sec1.push(4u8);
    let n: usize = pubkey.len();
    for i in 0..n
        invariant
            n == pubkey@.len(),
            sec1@ == seq![4u8] + pubkey@.take(i as int),
    {
        sec1.push(pubkey[i]);
        assert(pubkey@.take(i + 1) =~= pubkey@.take(i as int).push(pubkey@[i as int]));
        assert(sec1@ =~= seq![4u8] + pubkey@.take(i + 1));
    }
    assert(sec1@ =~= sec1_uncompressed(pubkey@));
    secp256k1_verify(message, signature, sec1.as_slice())
}

/// The storage key under which a message is archived: the lowercase
/// hexadecimal rendering of its canonical bytes' BLAKE2b digest.
pub fn message_key(message: &[u8]) -> (k: String)
    ensures
        k@ == hex_str_of(blake2b_of(message@)),
{
    let digest = blake2b_digest(message);
    to_hex(digest.as_slice())
}

} // verus!
