//! The calls into the `sha2`, `k256` and `ecdsa` crates, which hash and do the
//! curve arithmetic.
//!
//! Each function here is trusted: Verus believes its contract and does not
//! read its body. The names below stand for what SHA-256 and the curve
//! arithmetic return; they are functions of their arguments alone.

use vstd::prelude::*;

use k256::ecdsa::hazmat::SignPrimitive;
use k256::elliptic_curve::PrimeField;

use crate::bytes::{be_nat, curve_order};

verus! {

/// The SHA-256 digest of `data`.
pub uninterp spec fn sha256_digest(data: Seq<u8>) -> Seq<u8>;

/// The `(r, s, recovery id byte)` of the ECDSA signature of the 32-byte
/// digest `msg` under the secret scalar `secret` with the nonce `nonce`;
/// `None` where the signature cannot be made with that nonce.
pub uninterp spec fn ecdsa_sign_with_nonce(secret: Seq<u8>, msg: Seq<u8>, nonce: Seq<u8>) -> Option<
    (Seq<u8>, Seq<u8>, u8),
>;

/// The public key (64 bytes: x then y, big-endian) that ECDSA public key
/// recovery computes from the digest `msg`, the scalars `r` and `s` and the
/// recovery id byte `recid`; `None` where recovery fails.
pub uninterp spec fn ecdsa_recover_output(msg: Seq<u8>, r: Seq<u8>, s: Seq<u8>, recid: u8) -> Option<
    Seq<u8>,
>;

/// Whether `(r, s)` is a valid lower-S ECDSA signature of the digest `msg`
/// under the public key `public_key` (64 bytes: x then y, big-endian).
pub uninterp spec fn ecdsa_verify_output(
    msg: Seq<u8>,
    r: Seq<u8>,
    s: Seq<u8>,
    public_key: Seq<u8>,
) -> bool;

/// The public key (64 bytes: x then y, big-endian) of the secret scalar
/// `secret`, that is `secret` times the generator.
pub uninterp spec fn public_key_of(secret: Seq<u8>) -> Seq<u8>;

/// The public key (64 bytes: x then y, big-endian) that the SEC 1 encoding
/// `data` (compressed or uncompressed) holds; `None` where `data` encodes no
/// point of the curve other than the identity.
pub uninterp spec fn sec1_public_key(data: Seq<u8>) -> Option<Seq<u8>>;

/// An optional 64-byte array as an optional byte string.
pub open spec fn point_view(point: Option<[u8; 64]>) -> Option<Seq<u8>> {
    match point {
        Some(p) => Some(p@),
        None => None,
    }
}

/// An optional `(r, s, recovery id byte)` triple with its scalars as byte strings.
pub open spec fn scalars_view(out: Option<([u8; 32], [u8; 32], u8)>) -> Option<
    (Seq<u8>, Seq<u8>, u8),
> {
    match out {
        Some((r, s, v)) => Some((r@, s@, v)),
        None => None,
    }
}

/// Hashes through `Digest::digest` of `sha2::Sha256`.
///
/// Claimed of it: the result is `sha256_digest` of the data.
#[verifier::external_body]
pub(crate) fn sha256(data: &[u8]) -> (digest: [u8; 32])
    ensures
        digest@ == sha256_digest(data@),
{
    <sha2::Sha256 as sha2::Digest>::digest(data).into()
}

/// Signs with a given nonce through `SignPrimitive::try_sign_prehashed`
/// (crate `ecdsa`) on k256's scalar, after `SigningKey::from_bytes`, which
/// accepts only secret scalars in `1..n`, and `Scalar::from_repr`, which
/// accepts only nonces below `n` (`sign_prehashed` refuses a zero nonce).
///
/// Claimed of it: the result is `ecdsa_sign_with_nonce` of the arguments.
/// When a signature comes back, `r` and `s` lie in `1..n`
/// (`Signature::from_scalars` refuses others), `s` lies in the lower half
/// (k256 negates a high `s` and flips the recovery id's parity), the
/// recovery id byte is below 4 (`RecoveryId::new`), and, as ECDSA
/// guarantees, recovery from it gives the signer's public key and it
/// verifies under that key.
#[verifier::external_body]
pub(crate) fn sign_with_nonce(secret: &[u8; 32], msg: &[u8; 32], nonce: &[u8; 32]) -> (out: Option<
    ([u8; 32], [u8; 32], u8),
>)
    ensures
        scalars_view(out) == ecdsa_sign_with_nonce(secret@, msg@, nonce@),
        out matches Some((r, s, v)) ==> {
            &&& 0 < be_nat(r@) < curve_order()
            &&& 0 < be_nat(s@)
            &&& 2 * be_nat(s@) < curve_order()
            &&& v < 4
            &&& ecdsa_recover_output(msg@, r@, s@, v) == Some(public_key_of(secret@))
            &&& ecdsa_verify_output(msg@, r@, s@, public_key_of(secret@))
        },
{
    let key = k256::ecdsa::SigningKey::from_bytes(&(*secret).into()).ok()?;
    let k = Option::<k256::Scalar>::from(k256::Scalar::from_repr((*nonce).into()))?;
    let (sig, id) = key.as_nonzero_scalar().try_sign_prehashed(k, &(*msg).into()).ok()?;
    let bytes = sig.to_bytes();
    let (mut r, mut s) = ([0u8; 32], [0u8; 32]);
    r.copy_from_slice(&bytes[..32]);
    s.copy_from_slice(&bytes[32..]);
    Some((r, s, id?.to_byte()))
}

/// Recovers through `VerifyingKey::recover_from_prehash` (crate `ecdsa`),
/// after `Signature::from_scalars` and `RecoveryId::from_byte`; the key comes
/// back as its uncompressed SEC 1 encoding without the leading tag byte.
///
/// Claimed of it: the result is `ecdsa_recover_output` of the arguments, and
/// a key that comes back verifies the signature, since `recover_from_prehash`
/// checks it with `verify_prehash` before returning it.
#[verifier::external_body]
pub(crate) fn recover_public_key(msg: &[u8; 32], r: &[u8; 32], s: &[u8; 32], recid: u8) -> (out:
    Option<[u8; 64]>)
    ensures
        point_view(out) == ecdsa_recover_output(msg@, r@, s@, recid),
        out matches Some(p) ==> ecdsa_verify_output(msg@, r@, s@, p@),
{
    let sig = k256::ecdsa::Signature::from_scalars(*r, *s).ok()?;
    let id = k256::ecdsa::RecoveryId::from_byte(recid)?;
    let key = k256::ecdsa::VerifyingKey::recover_from_prehash(msg, &sig, id).ok()?;
    let mut out = [0u8; 64];
    out.copy_from_slice(&key.to_encoded_point(false).as_bytes()[1..]);
    Some(out)
}

/// Verifies through `PrehashVerifier::verify_prehash` on k256's
/// `VerifyingKey`, built by `VerifyingKey::from_encoded_point` from the two
/// coordinates, with the signature from `Signature::from_scalars`.
///
/// Claimed of it: the result is `ecdsa_verify_output` of the arguments.
#[verifier::external_body]
#[allow(deprecated)]
pub(crate) fn verify_signature(msg: &[u8; 32], r: &[u8; 32], s: &[u8; 32], public_key: &[u8; 64]) -> (valid: bool)
    ensures
        valid == ecdsa_verify_output(msg@, r@, s@, public_key@),
{
    let point = k256::EncodedPoint::from_affine_coordinates(
        k256::FieldBytes::from_slice(&public_key[..32]),
        k256::FieldBytes::from_slice(&public_key[32..]),
        false,
    );
    let (Ok(key), Ok(sig)) = (
        k256::ecdsa::VerifyingKey::from_encoded_point(&point),
        k256::ecdsa::Signature::from_scalars(*r, *s),
    ) else {
        return false;
    };
    k256::ecdsa::signature::hazmat::PrehashVerifier::verify_prehash(&key, msg, &sig).is_ok()
}

/// Computes a public key through `SigningKey::verifying_key` (crate `ecdsa`),
/// after `SigningKey::from_bytes`, which accepts exactly the scalars in
/// `1..n`; the key comes back as its uncompressed SEC 1 encoding without the
/// leading tag byte.
///
/// Claimed of it: for a scalar in `1..n` a key comes back, and it is
/// `public_key_of` the scalar.
#[verifier::external_body]
pub(crate) fn public_key_of_secret(secret: &[u8; 32]) -> (out: Option<[u8; 64]>)
    ensures
        0 < be_nat(secret@) < curve_order() ==> out is Some,
        out matches Some(p) ==> p@ == public_key_of(secret@),
{
    let key = k256::ecdsa::SigningKey::from_bytes(&k256::FieldBytes::from(*secret)).ok()?;
    let mut out = [0u8; 64];
    out.copy_from_slice(&key.verifying_key().to_encoded_point(false).as_bytes()[1..]);
    Some(out)
}

/// Parses a public key through `VerifyingKey::from_sec1_bytes` (crate
/// `ecdsa`); the key comes back as its uncompressed SEC 1 encoding without
/// the leading tag byte.
///
/// Claimed of it: the result is `sec1_public_key` of the bytes.
#[verifier::external_body]
pub(crate) fn parse_public_key(data: &[u8]) -> (out: Option<[u8; 64]>)
    ensures
        point_view(out) == sec1_public_key(data@),
{
    let key = k256::ecdsa::VerifyingKey::from_sec1_bytes(data).ok()?;
    let mut out = [0u8; 64];
    out.copy_from_slice(&key.to_encoded_point(false).as_bytes()[1..]);
    Some(out)
}

} // verus!
