//! What the parsers take from cryptographic and encoding libraries.
//!
//! Nothing here is proved.  Each function calls one library function, and
//! its contract gives the result a name, so that the contracts of the
//! parsers can say what they hand on and what they test.

use base64ct::{Base64, Base64Unpadded, Encoding};
use digest::Digest;
use vstd::prelude::*;

verus! {

/// The SHA-256 digest of `data`: 32 bytes.
pub uninterp spec fn sha256_digest(data: Seq<u8>) -> Seq<u8>;

/// What `text` decodes to as base64 with padding, or `None` where it is no
/// such encoding.
pub uninterp spec fn base64_padded(text: Seq<u8>) -> Option<Seq<u8>>;

/// What `text` decodes to as base64 without padding, or `None` where it is
/// no such encoding.
pub uninterp spec fn base64_unpadded(text: Seq<u8>) -> Option<Seq<u8>>;

/// The number of bits in the modulus of the RSA public key that `der`
/// encodes, or `None` where `der` encodes none.
pub uninterp spec fn rsa_der_bits(der: Seq<u8>) -> Option<usize>;

/// Whether the RSA public key that `der` encodes has the exponent `e`, or
/// `None` where `der` encodes none.
pub uninterp spec fn rsa_der_exponent_is(der: Seq<u8>, e: u32) -> Option<bool>;

/// Whether `bytes` are the encoding of an Ed25519 public key.
pub uninterp spec fn ed25519_key_valid(bytes: Seq<u8>) -> bool;

/// `Digest::digest` of the `digest` crate, on `tor_llcrypto::d::Sha256`:
/// the result is the SHA-256 of `data`.
#[verifier::external_body]
pub(crate) fn sha256(data: &[u8]) -> (r: [u8; 32])
    ensures
        r@ == sha256_digest(data@),
{
    tor_llcrypto::d::Sha256::digest(data).into()
}

/// `Encoding::decode` of `base64ct`, on its `Base64`: the result is what
/// `text` decodes to, and `None` where the crate refuses it.
#[verifier::external_body]
pub(crate) fn decode_base64_padded(text: &[u8]) -> (r: Option<Vec<u8>>)
    ensures
        r is Some <==> base64_padded(text@) is Some,
        r is Some ==> r->0@ == base64_padded(text@)->0,
{
    let mut buf = vec![0u8; text.len()];
    Base64::decode(text, &mut buf).ok().map(|d| d.to_vec())
}

/// `Encoding::decode` of `base64ct`, on its `Base64Unpadded`: the result
/// is what `text` decodes to, and `None` where the crate refuses it.
#[verifier::external_body]
pub(crate) fn decode_base64_unpadded(text: &[u8]) -> (r: Option<Vec<u8>>)
    ensures
        r is Some <==> base64_unpadded(text@) is Some,
        r is Some ==> r->0@ == base64_unpadded(text@)->0,
{
    let mut buf = vec![0u8; text.len()];
    Base64Unpadded::decode(text, &mut buf).ok().map(|d| d.to_vec())
}

/// `PublicKey::bits` of `tor_llcrypto::pk::rsa`, on what its
/// `PublicKey::from_der` makes of `der`: the size of the modulus in bits,
/// and `None` where `der` is refused.
#[verifier::external_body]
pub(crate) fn rsa_modulus_bits(der: &[u8]) -> (r: Option<usize>)
    ensures
        r == rsa_der_bits(der@),
{
    tor_llcrypto::pk::rsa::PublicKey::from_der(der).map(|k| k.bits())
}

/// `PublicKey::exponent_is` of `tor_llcrypto::pk::rsa`, on what its
/// `PublicKey::from_der` makes of `der`: whether the exponent is `e`, and
/// `None` where `der` is refused.
#[verifier::external_body]
pub(crate) fn rsa_exponent_is(der: &[u8], e: u32) -> (r: Option<bool>)
    ensures
        r == rsa_der_exponent_is(der@, e),
{
    tor_llcrypto::pk::rsa::PublicKey::from_der(der).map(|k| k.exponent_is(e))
}

/// `PublicKey::from_bytes` of `tor_llcrypto::pk::ed25519`: whether it
/// accepts `bytes` as a public key.
#[verifier::external_body]
pub(crate) fn ed25519_key_ok(bytes: &[u8; 32]) -> (r: bool)
    ensures
        r == ed25519_key_valid(bytes@),
{
    tor_llcrypto::pk::ed25519::PublicKey::from_bytes(bytes).is_ok()
}

} // verus!
