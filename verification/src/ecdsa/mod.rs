//! ECDSA signatures in compact form, and their verification.

pub mod recovery;

use vstd::prelude::*;

use crate::backend::{ecdsa_verify_output, verify_signature};
use crate::bytes::{be_nat, concat32, curve_order, reduce_mod_order, reduced_mod_order};
use crate::context::{Secp256k1, Verification};
use crate::key::{Message, PublicKey};
use crate::Error;

verus! {

/// The `r` half of a 64-byte compact signature.
pub open spec fn compact_r(bytes: Seq<u8>) -> Seq<u8> {
    bytes.subrange(0, 32)
}

/// The `s` half of a 64-byte compact signature.
pub open spec fn compact_s(bytes: Seq<u8>) -> Seq<u8> {
    bytes.subrange(32, 64)
}

/// Whether `bytes` is a compact signature: 64 bytes, `r` then `s`, each a
/// big-endian number below the group order `n`.
pub open spec fn is_compact_signature(bytes: Seq<u8>) -> bool {
    &&& bytes.len() == 64
    &&& be_nat(compact_r(bytes)) < curve_order()
    &&& be_nat(compact_s(bytes)) < curve_order()
}

/// Whether the compact signature `sig` is a valid signature of the digest
/// `msg` (taken modulo the group order) under the public key `public_key`.
pub open spec fn is_valid_ecdsa(msg: Seq<u8>, sig: Seq<u8>, public_key: Seq<u8>) -> bool {
    ecdsa_verify_output(reduced_mod_order(msg), compact_r(sig), compact_s(sig), public_key)
}

/// An ECDSA signature: the scalars `r` and `s`, each below the group order,
/// as 32 big-endian bytes.
#[derive(Copy, Clone, PartialEq, Eq, PartialOrd, Ord, Hash, Debug)]
pub struct Signature {
    r: [u8; 32],
    s: [u8; 32],
}

impl View for Signature {
    type V = Seq<u8>;

    /// The compact form: `r` then `s`.
    closed spec fn view(&self) -> Seq<u8> {
        self.r@ + self.s@
    }
}

impl Signature {
    #[verifier::type_invariant]
    spec fn in_range(self) -> bool {
        be_nat(self.r@) < curve_order() && be_nat(self.s@) < curve_order()
    }

    /// The signature with scalars `r` and `s`.
    pub(crate) fn from_scalars(r: [u8; 32], s: [u8; 32]) -> (sig: Signature)
        requires
            be_nat(r@) < curve_order(),
            be_nat(s@) < curve_order(),
        ensures
            sig@ == r@ + s@,
    {
        Signature { r, s }
    }

    /// The compact form: `r` then `s`, each 32 big-endian bytes.
    pub fn serialize_compact(&self) -> (bytes: [u8; 64])
        ensures
            bytes@ == self@,
            is_compact_signature(self@),
    {
        proof {
            use_type_invariant(self);
            assert(compact_r(self@) =~= self.r@);
            assert(compact_s(self@) =~= self.s@);
        }
        concat32(&self.r, &self.s)
    }
}

/// The outcome of a verification whose check came out `valid`.
pub fn verification_result(valid: bool) -> (res: Result<(), Error>)
    ensures
        res is Ok <==> valid,
        res matches Err(e) ==> e == Error::IncorrectSignature,
{
    if valid {
        Ok(())
    } else {
        Err(Error::IncorrectSignature)
    }
}

impl<C: Verification> Secp256k1<C> {
    /// Checks that `sig` is a valid lower-S signature of `msg` under `pk`.
    pub fn verify_ecdsa(&self, msg: &Message, sig: &Signature, pk: &PublicKey) -> (res: Result<(), Error>)
        ensures
            res is Ok <==> is_valid_ecdsa(msg@, sig@, pk@),
            res matches Err(e) ==> e == Error::IncorrectSignature,
    {
        proof {
            assert(compact_r(sig@) =~= sig.r@);
            assert(compact_s(sig@) =~= sig.s@);
        }
        let digest = reduce_mod_order(msg.as_bytes());
        verification_result(verify_signature(&digest, &sig.r, &sig.s, pk.coordinates()))
    }
}

} // verus!
