//! ECDSA signatures over secp256k1 whose signer's public key can be recovered
//! from the signature and the signed message.

mod backend;
pub mod bytes;
pub mod constants;
pub mod context;
pub mod ecdsa;
pub mod key;
pub mod nonce;

pub use context::{All, Context, Secp256k1, SignOnly, Signing, Verification, VerifyOnly};
pub use key::{Message, PublicKey, SecretKey};

use vstd::prelude::*;

verus! {

/// The errors of this library.
#[derive(Copy, Clone, PartialEq, Eq, PartialOrd, Ord, Hash, Debug)]
pub enum Error {
    /// A signature did not verify.
    IncorrectSignature,
    /// A message digest was not 32 bytes long.
    InvalidMessage,
    /// Bytes did not encode a public key.
    InvalidPublicKey,
    /// Bytes did not encode a signature, or no public key could be recovered
    /// from one.
    InvalidSignature,
    /// Bytes did not encode a secret key.
    InvalidSecretKey,
    /// A number was not a recovery id.
    InvalidRecoveryId,
}

} // verus!
