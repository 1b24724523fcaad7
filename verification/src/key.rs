//! Message digests, secret keys and public keys.

use vstd::prelude::*;

use crate::backend::{
    parse_public_key,
    point_view,
    public_key_of,
    public_key_of_secret,
    sec1_public_key,
};
use crate::bytes::{be_lt, be_nat, copy32, curve_order, is_zero, lemma_curve_order_bytes, CURVE_ORDER};
use crate::context::{Secp256k1, Signing};
use crate::Error;

verus! {

/// A 32-byte message digest, the input of signing and recovery.
#[derive(Copy, Clone, PartialEq, Eq, PartialOrd, Ord, Hash, Debug)]
pub struct Message {
    digest: [u8; 32],
}

impl View for Message {
    type V = Seq<u8>;

    closed spec fn view(&self) -> Seq<u8> {
        self.digest@
    }
}

impl Message {
    /// The message whose digest is `digest`.
    pub fn from_digest(digest: [u8; 32]) -> (msg: Message)
        ensures
            msg@ == digest@,
    {
        Message { digest }
    }

    /// The message whose digest is `digest`, which must be 32 bytes long.
    pub fn from_digest_slice(digest: &[u8]) -> (res: Result<Message, Error>)
        ensures
            res is Ok <==> digest@.len() == 32,
            res matches Ok(msg) ==> msg@ == digest@,
            res matches Err(e) ==> e == Error::InvalidMessage,
    {
        if digest.len() != 32 {
            return Err(Error::InvalidMessage);
        }
        let bytes = copy32(digest, 0);
        assert(digest@.subrange(0, 32) =~= digest@);
        Ok(Message { digest: bytes })
    }

    /// The 32 bytes of the digest.
    pub fn as_bytes(&self) -> (bytes: &[u8; 32])
        ensures
            bytes@ == self@,
    {
        &self.digest
    }
}

/// Whether `bytes` is a secret key: 32 bytes whose big-endian value lies in
/// `1..n`, `n` the group order.
pub open spec fn is_secret_key(bytes: Seq<u8>) -> bool {
    &&& bytes.len() == 32
    &&& 0 < be_nat(bytes)
    &&& be_nat(bytes) < curve_order()
}

/// A secret key: a scalar in `1..n`, held as 32 big-endian bytes.
#[derive(Copy, Clone, PartialEq, Eq, PartialOrd, Ord, Hash, Debug)]
pub struct SecretKey {
    scalar: [u8; 32],
}

impl View for SecretKey {
    type V = Seq<u8>;

    closed spec fn view(&self) -> Seq<u8> {
        self.scalar@
    }
}

impl SecretKey {
    #[verifier::type_invariant]
    spec fn in_range(self) -> bool {
        is_secret_key(self.scalar@)
    }

    /// The secret key whose big-endian bytes are `data`; refused unless
    /// `data` is 32 bytes whose value lies in `1..n`.
    pub fn from_slice(data: &[u8]) -> (res: Result<SecretKey, Error>)
        ensures
            res is Ok <==> is_secret_key(data@),
            res matches Ok(key) ==> key@ == data@,
            res matches Err(e) ==> e == Error::InvalidSecretKey,
    {
        if data.len() != 32 {
            return Err(Error::InvalidSecretKey);
        }
        let scalar = copy32(data, 0);
        assert(data@.subrange(0, 32) =~= data@);
        proof {
            lemma_curve_order_bytes();
        }
        if is_zero(&scalar) || !be_lt(&scalar, &CURVE_ORDER) {
            return Err(Error::InvalidSecretKey);
        }
        Ok(SecretKey { scalar })
    }

    /// The 32 big-endian bytes of the scalar.
    pub fn secret_bytes(&self) -> (bytes: &[u8; 32])
        ensures
            bytes@ == self@,
            is_secret_key(self@),
    {
        proof {
            use_type_invariant(self);
        }
        &self.scalar
    }
}

/// A public key: a point of the curve other than the identity, held as its
/// two coordinates, x then y, each 32 big-endian bytes.
#[derive(Copy, Clone, PartialEq, Eq, PartialOrd, Ord, Hash, Debug)]
pub struct PublicKey {
    point: [u8; 64],
}

impl View for PublicKey {
    type V = Seq<u8>;

    closed spec fn view(&self) -> Seq<u8> {
        self.point@
    }
}

/// Whether `res` carries the public key `expected`, or, where there is none,
/// the error `err`.
pub open spec fn gives_key(res: Result<PublicKey, Error>, expected: Option<Seq<u8>>, err: Error) -> bool {
    match expected {
        Some(p) => res matches Ok(key) && key@ == p,
        None => res matches Err(e) && e == err,
    }
}

impl PublicKey {
    /// The public key whose coordinates are `point`, or `err` where there is
    /// no point.
    pub fn from_point(point: Option<[u8; 64]>, err: Error) -> (res: Result<PublicKey, Error>)
        ensures
            gives_key(res, point_view(point), err),
    {
        match point {
            Some(p) => Ok(PublicKey { point: p }),
            None => Err(err),
        }
    }

    /// The public key that the SEC 1 encoding `data` holds, as k256 reads
    /// it: 33 bytes compressed (tag 2 or 3), 65 bytes uncompressed (tag 4) or
    /// 33 bytes compact (tag 5, x only); the hybrid encodings (tags 6 and 7)
    /// are refused.
    pub fn from_slice(data: &[u8]) -> (res: Result<PublicKey, Error>)
        ensures
            gives_key(res, sec1_public_key(data@), Error::InvalidPublicKey),
    {
        PublicKey::from_point(parse_public_key(data), Error::InvalidPublicKey)
    }

    /// The public key of `sk`.
    pub fn from_secret_key<C: Signing>(secp: &Secp256k1<C>, sk: &SecretKey) -> (pk: PublicKey)
        ensures
            pk@ == public_key_of(sk@),
    {
        let scalar = sk.secret_bytes();
        match public_key_of_secret(scalar) {
            Some(p) => PublicKey { point: p },
            None => {
                assert(false);
                PublicKey { point: [0u8; 64] }
            },
        }
    }

    /// The two coordinates, x then y, each 32 big-endian bytes.
    pub fn coordinates(&self) -> (point: &[u8; 64])
        ensures
            point@ == self@,
    {
        &self.point
    }
}

} // verus!
