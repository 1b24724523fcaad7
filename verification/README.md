# secp256k1 (recoverable ECDSA)

ECDSA signatures over secp256k1 that carry a recovery id, so that the
signer's public key can be recovered from a signature and the signed digest.

- `src/bytes.rs`: 32-byte big-endian scalars read as numbers (`be_nat`),
  comparison, subtraction and hexadecimal text, with their proofs.
- `src/key.rs`: message digests, secret keys (scalars in `1..n`) and public
  keys (the two coordinates of a curve point).
- `src/context.rs`: the `Secp256k1` context and its signing / verification
  capabilities.
- `src/ecdsa/mod.rs`: compact signatures and verification.
- `src/ecdsa/recovery.rs`: recovery ids, recoverable signatures in compact
  form, signing with a recovery id and public key recovery.
- `src/nonce.rs`: RFC 6979 nonces: HMAC-SHA256 and the HMAC_DRBG stream of
  candidate nonces; signing tries them in turn until one gives a signature.
- `src/backend.rs`: the trusted calls into the `sha2`, `k256` and `ecdsa`
  crates, which hash and do the curve arithmetic; their results are named by
  uninterpreted spec functions, and everything around them is verified.

The curve arithmetic is done by `k256` rather than by the C library
libsecp256k1: a C library reached through a foreign function interface
cannot be called from verified code, while `k256` is plain Rust. Where the
two could differ, the library follows libsecp256k1: digests are taken modulo
the group order, nonces are drawn from the same RFC 6979 stream (retrying
where a nonce yields no signature), and signatures come out in lower-S form.

The tests under `tests/` run against the real curve arithmetic.
