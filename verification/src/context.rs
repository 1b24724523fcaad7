//! The secp256k1 context and the capabilities (signing, verification) that
//! its type parameter grants.

use vstd::prelude::*;

verus! {

/// A capability that a context can be created with.
pub trait Context {
}

/// A capability that allows signing.
pub trait Signing: Context {
}

/// A capability that allows verification and public key recovery.
pub trait Verification: Context {
}

/// A context that can only sign.
pub struct SignOnly {
}

/// A context that can only verify.
pub struct VerifyOnly {
}

/// A context that can sign and verify.
pub struct All {
}

impl Context for SignOnly {
}

impl Context for VerifyOnly {
}

impl Context for All {
}

impl Signing for SignOnly {
}

impl Signing for All {
}

impl Verification for VerifyOnly {
}

impl Verification for All {
}

/// The secp256k1 engine; what it may do is fixed by its capability `C`.
pub struct Secp256k1<C: Context> {
    capability: C,
}

impl Secp256k1<All> {
    /// A context that can sign and verify.
    pub fn new() -> Self {
        Secp256k1 { capability: All {  } }
    }
}

impl Secp256k1<SignOnly> {
    /// A context that can only sign.
    pub fn signing_only() -> Self {
        Secp256k1 { capability: SignOnly {  } }
    }
}

impl Secp256k1<VerifyOnly> {
    /// A context that can only verify.
    pub fn verification_only() -> Self {
        Secp256k1 { capability: VerifyOnly {  } }
    }
}

} // verus!
