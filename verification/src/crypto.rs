//! The verification-only adapters over the cryptographic primitives: SHA-256
//! digesting for key IDs, Ed25519 and RSA-PSS signature verification, and
//! PEM decoding of RSA public keys.
//!
//! Each adapter names what the primitive computes; the logic built on top is
//! verified against those names.

use vstd::prelude::*;

verus! {

/// The SHA-256 digest of a byte string: a function of the input alone.
pub uninterp spec fn sha256_of(data: Seq<u8>) -> Seq<u8>;

/// Whether an Ed25519 signature over a message verifies under a public key.
pub uninterp spec fn ed25519_valid(key: Seq<u8>, msg: Seq<u8>, sig: Seq<u8>) -> bool;

/// Whether an RSA-PSS-SHA256 signature over a message verifies under a
/// PKCS#1-encoded public key.
pub uninterp spec fn rsa_pss_sha256_valid(key: Seq<u8>, msg: Seq<u8>, sig: Seq<u8>) -> bool;

/// Whether an RSA-PSS-SHA512 signature over a message verifies under a
/// PKCS#1-encoded public key.
pub uninterp spec fn rsa_pss_sha512_valid(key: Seq<u8>, msg: Seq<u8>, sig: Seq<u8>) -> bool;

/// What a PEM block decodes to, if the string is one: a function of the
/// string alone.
pub uninterp spec fn pem_body_of(s: Seq<char>) -> Option<Seq<u8>>;

/// Relies on ring's SHA-256 digest: the digest depends on the input bytes
/// alone and is 32 bytes long.
#[verifier::external_body]
pub(crate) fn sha256(data: &[u8]) -> (r: Vec<u8>)
    ensures
        r@ == sha256_of(data@),
        r@.len() == 32,
{
    ring::digest::digest(&ring::digest::SHA256, data).as_ref().to_vec()
}

/// Relies on ring's Ed25519 verification: acceptance depends on the key,
/// message and signature bytes alone.
#[verifier::external_body]
pub(crate) fn ed25519_verify(key: &[u8], msg: &[u8], sig: &[u8]) -> (r: bool)
    ensures
        r == ed25519_valid(key@, msg@, sig@),
{
    ring::signature::UnparsedPublicKey::new(&ring::signature::ED25519, key).verify(
        msg,
        sig,
    ).is_ok()
}

/// Relies on ring's RSA-PSS (SHA-256) verification: acceptance depends on
/// the key, message and signature bytes alone.
#[verifier::external_body]
pub(crate) fn rsa_pss_sha256_verify(key: &[u8], msg: &[u8], sig: &[u8]) -> (r: bool)
    ensures
        r == rsa_pss_sha256_valid(key@, msg@, sig@),
{
    ring::signature::UnparsedPublicKey::new(&ring::signature::RSA_PSS_2048_8192_SHA256, key)
        .verify(msg, sig)
        .is_ok()
}

/// Relies on ring's RSA-PSS (SHA-512) verification: acceptance depends on
/// the key, message and signature bytes alone.
#[verifier::external_body]
pub(crate) fn rsa_pss_sha512_verify(key: &[u8], msg: &[u8], sig: &[u8]) -> (r: bool)
    ensures
        r == rsa_pss_sha512_valid(key@, msg@, sig@),
{
    ring::signature::UnparsedPublicKey::new(&ring::signature::RSA_PSS_2048_8192_SHA512, key)
        .verify(msg, sig)
        .is_ok()
}

/// Relies on pem::parse: whether a string is a PEM block and what its body
/// decodes to depend on the string alone.
#[verifier::external_body]
pub(crate) fn pem_decode(s: &str) -> (r: Option<Vec<u8>>)
    ensures
        match r {
            Some(v) => pem_body_of(s@) == Some(v@),
            None => pem_body_of(s@) is None,
        },
{
    match pem::parse(s) {
        Ok(p) => Some(p.contents().to_vec()),
        Err(_) => None,
    }
}

} // verus!
