//! Constants of the secp256k1 curve that callers need.

use vstd::prelude::*;

verus! {

/// The number 1 as 32 big-endian bytes: the smallest valid secret key.
pub const ONE: [u8; 32] = [
    0, 0, 0, 0, 0, 0, 0, 0,
    0, 0, 0, 0, 0, 0, 0, 0,
    0, 0, 0, 0, 0, 0, 0, 0,
    0, 0, 0, 0, 0, 0, 0, 1,
];

} // verus!
