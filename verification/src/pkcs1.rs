//! Re-encoding of a stored RSA public key into the form the verification
//! primitive accepts: a DER SubjectPublicKeyInfo wrapping an rsaEncryption
//! key is unwrapped to the inner PKCS#1 RSAPublicKey bytes.  Anything else
//! passes through unchanged, so a malformed key ends as an ordinary
//! verification failure, never a crash.

use vstd::prelude::*;
use vstd::slice::slice_to_vec;
use vstd::slice::slice_subrange;

verus! {

/// A DER definite length at position `i`: its value and how many bytes it
/// occupies.  Lengths needing more than two bytes are not accepted (no real
/// public key is that large).
pub open spec fn der_len_at(b: Seq<u8>, i: int) -> Option<(int, int)>
    recommends
        0 <= i,
{
    if i >= b.len() {
        None
    } else if b[i] < 0x80 {
        Some((b[i] as int, 1))
    } else if b[i] == 0x81 {
        if i + 1 < b.len() {
            Some((b[i + 1] as int, 2))
        } else {
            None
        }
    } else if b[i] == 0x82 {
        if i + 2 < b.len() {
            Some((256 * (b[i + 1] as int) + (b[i + 2] as int), 3))
        } else {
            None
        }
    } else {
        None
    }
}

/// The fifteen bytes of the rsaEncryption AlgorithmIdentifier: a SEQUENCE of
/// the rsaEncryption object identifier and a NULL.
pub open spec fn rsa_alg_id_at(b: Seq<u8>, p: int) -> bool
    recommends
        0 <= p,
        p + 15 <= b.len(),
{
    &&& b[p] == 0x30
    &&& b[p + 1] == 0x0D
    &&& b[p + 2] == 0x06
    &&& b[p + 3] == 0x09
    &&& b[p + 4] == 0x2A
    &&& b[p + 5] == 0x86
    &&& b[p + 6] == 0x48
    &&& b[p + 7] == 0x86
    &&& b[p + 8] == 0xF7
    &&& b[p + 9] == 0x0D
    &&& b[p + 10] == 0x01
    &&& b[p + 11] == 0x01
    &&& b[p + 12] == 0x01
    &&& b[p + 13] == 0x05
    &&& b[p + 14] == 0x00
}

/// The PKCS#1 bytes inside a DER SubjectPublicKeyInfo for rsaEncryption, if
/// the input is exactly one: a SEQUENCE of the rsaEncryption algorithm
/// identifier and a BIT STRING with no unused bits.
pub open spec fn spki_body(b: Seq<u8>) -> Option<Seq<u8>> {
    if b.len() < 2 || b[0] != 0x30 {
        None
    } else {
        match der_len_at(b, 1) {
            None => None,
            Some((l, hl)) => {
                let p = 1 + hl;
                if p + l != b.len() {
                    None
                } else if !(p + 15 <= b.len() && rsa_alg_id_at(b, p)) {
                    None
                } else {
                    let q = p + 15;
                    if q >= b.len() || b[q] != 0x03 {
                        None
                    } else {
                        match der_len_at(b, q + 1) {
                            None => None,
                            Some((l3, hl3)) => {
                                let c = q + 1 + hl3;
                                if l3 < 1 || c + l3 != b.len() {
                                    None
                                } else if b[c] != 0x00 {
                                    None
                                } else {
                                    Some(b.subrange(c + 1, b.len() as int))
                                }
                            },
                        }
                    }
                }
            },
        }
    }
}

/// What the key re-encoding step yields: the unwrapped PKCS#1 bytes where
/// the input is an rsaEncryption SubjectPublicKeyInfo, the input unchanged
/// everywhere else.
pub open spec fn rsa_spki_to_pkcs1(b: Seq<u8>) -> Seq<u8> {
    match spki_body(b) {
        Some(p) => p,
        None => b,
    }
}

/// Reads a DER definite length at position `i`.
fn der_len(b: &[u8], i: usize) -> (r: Option<(usize, usize)>)
    ensures
        match r {
            Some((l, hl)) => der_len_at(b@, i as int) == Some((l as int, hl as int)) && l
                <= 0xFFFF && hl <= 3,
            None => der_len_at(b@, i as int) is None,
        },
{
    if i >= b.len() {
        None
    } else if b[i] < 0x80 {
        Some((b[i] as usize, 1))
    } else if b[i] == 0x81 {
        if b.len() - i > 1 {
            Some((b[i + 1] as usize, 2))
        } else {
            None
        }
    } else if b[i] == 0x82 {
        if b.len() - i > 2 {
            Some((256 * (b[i + 1] as usize) + (b[i + 2] as usize), 3))
        } else {
            None
        }
    } else {
        None
    }
}

/// Checks the fifteen bytes of the rsaEncryption AlgorithmIdentifier.
fn check_rsa_alg_id(b: &[u8], p: usize) -> (r: bool)
    requires
        p + 15 <= b@.len(),
    ensures
        r == rsa_alg_id_at(b@, p as int),
{
    b[p] == 0x30 && b[p + 1] == 0x0D && b[p + 2] == 0x06 && b[p + 3] == 0x09 && b[p + 4] == 0x2A
        && b[p + 5] == 0x86 && b[p + 6] == 0x48 && b[p + 7] == 0x86 && b[p + 8] == 0xF7 && b[p + 9]
        == 0x0D && b[p + 10] == 0x01 && b[p + 11] == 0x01 && b[p + 12] == 0x01 && b[p + 13] == 0x05
        && b[p + 14] == 0x00
}

/// Re-encodes stored RSA key bytes for the verification primitive: a
/// SubjectPublicKeyInfo is unwrapped to its PKCS#1 body, anything else is
/// returned unchanged.
pub fn convert_to_pkcs1(der: &[u8]) -> (r: Vec<u8>)
    ensures
        r@ == rsa_spki_to_pkcs1(der@),
{
    if der.len() < 2 || der[0] != 0x30 {
        return slice_to_vec(der);
    }
    let (l, hl) = match der_len(der, 1) {
        Some(x) => x,
        None => {
            return slice_to_vec(der);
        },
    };
    let p = 1 + hl;
    if !(p <= der.len() && l == der.len() - p) {
        return slice_to_vec(der);
    }
    if !(p + 15 <= der.len() && check_rsa_alg_id(der, p)) {
        return slice_to_vec(der);
    }
    let q = p + 15;
    if q >= der.len() || der[q] != 0x03 {
        return slice_to_vec(der);
    }
    let (l3, hl3) = match der_len(der, q + 1) {
        Some(x) => x,
        None => {
            return slice_to_vec(der);
        },
    };
    let c = q + 1 + hl3;
    if !(l3 >= 1 && c <= der.len() && l3 == der.len() - c) {
        return slice_to_vec(der);
    }
    if der[c] != 0x00 {
        return slice_to_vec(der);
    }
    let body = slice_subrange(der, c + 1, der.len());
    slice_to_vec(body)
}

} // verus!
