//! Deterministic nonces per RFC 6979: HMAC-SHA256 and the HMAC_DRBG stream
//! of candidate nonces, seeded with the secret key, the digest and optional
//! extra data.

use vstd::prelude::*;

use crate::backend::{sha256, sha256_digest};

verus! {

/// The 64-byte HMAC block of `key` (at most 64 bytes, padded with zeros),
/// each byte xored with `c`.
pub open spec fn hmac_pad(key: Seq<u8>, c: u8) -> Seq<u8> {
    Seq::new(64, |i: int| (if i < key.len() { key[i] } else { 0u8 }) ^ c)
}

/// HMAC-SHA256 of `data` under a key of at most 64 bytes.
pub open spec fn hmac_sha256_of(key: Seq<u8>, data: Seq<u8>) -> Seq<u8> {
    sha256_digest(hmac_pad(key, 0x5c) + sha256_digest(hmac_pad(key, 0x36) + data))
}

/// The HMAC_DRBG state `(K, V)` right after seeding with `seed`
/// (RFC 6979, section 3.2, steps b to g).
pub open spec fn drbg_seeded(seed: Seq<u8>) -> (Seq<u8>, Seq<u8>) {
    let k0 = Seq::new(32, |i: int| 0u8);
    let v0 = Seq::new(32, |i: int| 1u8);
    let k1 = hmac_sha256_of(k0, v0 + seq![0u8] + seed);
    let v1 = hmac_sha256_of(k1, v0);
    let k2 = hmac_sha256_of(k1, v1 + seq![1u8] + seed);
    let v2 = hmac_sha256_of(k2, v1);
    (k2, v2)
}

/// One step of the stream after an output `V` was refused: `K` and `V` are
/// updated, then the next `V` is drawn (RFC 6979, section 3.2, step h.3,
/// then h.2).
pub open spec fn drbg_advance(state: (Seq<u8>, Seq<u8>)) -> (Seq<u8>, Seq<u8>) {
    let k = hmac_sha256_of(state.0, state.1 + seq![0u8]);
    let v = hmac_sha256_of(k, state.1);
    (k, hmac_sha256_of(k, v))
}

/// The state whose `V` is the candidate nonce numbered `i` (from 0) of the
/// stream seeded with `seed`.
pub open spec fn nonce_state(seed: Seq<u8>, i: nat) -> (Seq<u8>, Seq<u8>)
    decreases i,
{
    if i == 0 {
        let (k, v) = drbg_seeded(seed);
        (k, hmac_sha256_of(k, v))
    } else {
        drbg_advance(nonce_state(seed, (i - 1) as nat))
    }
}

/// The candidate nonce numbered `i` of the stream seeded with `seed`.
pub open spec fn candidate_nonce(seed: Seq<u8>, i: nat) -> Seq<u8> {
    nonce_state(seed, i).1
}

/// HMAC-SHA256 under a 32-byte key, as RFC 2104 defines it: the key is
/// padded with zeros to the 64-byte block, the inner hash covers the block
/// xored with `0x36` followed by the data, and the outer hash covers the
/// block xored with `0x5c` followed by the inner digest.
pub proof fn lemma_hmac_sha256_rfc2104(key: Seq<u8>, data: Seq<u8>)
    requires
        key.len() == 32,
    ensures
        hmac_sha256_of(key, data) == sha256_digest(
            Seq::new(64, |i: int| if i < 32 { key[i] ^ 0x5cu8 } else { 0x5cu8 }) + sha256_digest(
                Seq::new(64, |i: int| if i < 32 { key[i] ^ 0x36u8 } else { 0x36u8 }) + data,
            ),
        ),
{
    assert(0u8 ^ 0x36u8 == 0x36u8) by (bit_vector);
    assert(0u8 ^ 0x5cu8 == 0x5cu8) by (bit_vector);
    assert(hmac_pad(key, 0x36) =~= Seq::new(
        64,
        |i: int| if i < 32 { key[i] ^ 0x36u8 } else { 0x36u8 },
    ));
    assert(hmac_pad(key, 0x5c) =~= Seq::new(
        64,
        |i: int| if i < 32 { key[i] ^ 0x5cu8 } else { 0x5cu8 },
    ));
}

/// The candidate nonces of RFC 6979 (section 3.2): with `K` all zero bytes
/// and `V` all `0x01` bytes, `K = HMAC_K(V || 0x00 || seed)`,
/// `V = HMAC_K(V)`, `K = HMAC_K(V || 0x01 || seed)`, `V = HMAC_K(V)`; the
/// first candidate is `HMAC_K(V)`. After a candidate `T` drawn with key `K`
/// is refused, `K' = HMAC_K(T || 0x00)`, and the next candidate is
/// `HMAC_K'(HMAC_K'(T))`.
pub proof fn lemma_rfc6979_candidates(seed: Seq<u8>, i: nat)
    ensures
        ({
            let zeros = Seq::new(32, |j: int| 0u8);
            let ones = Seq::new(32, |j: int| 1u8);
            let k1 = hmac_sha256_of(zeros, ones + seq![0u8] + seed);
            let v1 = hmac_sha256_of(k1, ones);
            let k2 = hmac_sha256_of(k1, v1 + seq![1u8] + seed);
            let v2 = hmac_sha256_of(k2, v1);
            candidate_nonce(seed, 0) == hmac_sha256_of(k2, v2) && nonce_state(seed, 0).0 == k2
        }),
        ({
            let k = nonce_state(seed, i).0;
            let t = candidate_nonce(seed, i);
            let k_next = hmac_sha256_of(k, t + seq![0u8]);
            &&& nonce_state(seed, i + 1).0 == k_next
            &&& candidate_nonce(seed, i + 1) == hmac_sha256_of(k_next, hmac_sha256_of(k_next, t))
        }),
{
}

/// Appends `data` to `out`.
pub fn append_bytes(out: &mut Vec<u8>, data: &[u8])
    ensures
        final(out)@ == old(out)@ + data@,
{
    let n = data.len();
    let mut i: usize = 0;
    while i < n
        invariant
            n == data@.len(),
            i <= n,
            out@ == old(out)@ + data@.take(i as int),
        decreases n - i,
    {
        out.push(data[i]);
        assert(data@.take(i + 1) =~= data@.take(i as int).push(data@[i as int]));
        i = i + 1;
    }
    assert(data@.take(n as int) =~= data@);
}

/// HMAC-SHA256 of `data` under the 32-byte `key`.
pub fn hmac_sha256(key: &[u8; 32], data: &[u8]) -> (mac: [u8; 32])
    ensures
        mac@ == hmac_sha256_of(key@, data@),
{
    let mut inner: Vec<u8> = Vec::new();
    let mut outer: Vec<u8> = Vec::new();
    let mut i: usize = 0;
    while i < 64
        invariant
            i <= 64,
            key@.len() == 32,
            inner@ == hmac_pad(key@, 0x36).take(i as int),
            outer@ == hmac_pad(key@, 0x5c).take(i as int),
        decreases 64 - i,
    {
        let b: u8 = if i < 32 {
            key[i]
        } else {
            0u8
        };
        inner.push(b ^ 0x36);
        outer.push(b ^ 0x5c);
        assert(inner@ =~= hmac_pad(key@, 0x36).take(i + 1));
        assert(outer@ =~= hmac_pad(key@, 0x5c).take(i + 1));
        i = i + 1;
    }
    assert(inner@ =~= hmac_pad(key@, 0x36));
    assert(outer@ =~= hmac_pad(key@, 0x5c));
    append_bytes(&mut inner, data);
    let inner_digest = sha256(inner.as_slice());
    append_bytes(&mut outer, &inner_digest);
    sha256(outer.as_slice())
}

/// `v` followed by the byte `tag` and then by `seed`.
fn tagged(v: &[u8; 32], tag: u8, seed: &[u8]) -> (data: Vec<u8>)
    ensures
        data@ == v@ + seq![tag] + seed@,
{
    let mut data: Vec<u8> = Vec::new();
    append_bytes(&mut data, v);
    data.push(tag);
    append_bytes(&mut data, seed);
    data
}

/// The state whose `V` is the first candidate nonce of the stream seeded
/// with `seed`.
pub fn first_nonce_state(seed: &[u8]) -> (state: ([u8; 32], [u8; 32]))
    ensures
        (state.0@, state.1@) == nonce_state(seed@, 0),
{
    let k0 = [0u8; 32];
    let v0 = [1u8; 32];
    assert(k0@ =~= Seq::new(32, |i: int| 0u8));
    assert(v0@ =~= Seq::new(32, |i: int| 1u8));
    let k1 = hmac_sha256(&k0, tagged(&v0, 0, seed).as_slice());
    let v1 = hmac_sha256(&k1, &v0);
    let k2 = hmac_sha256(&k1, tagged(&v1, 1, seed).as_slice());
    let v2 = hmac_sha256(&k2, &v1);
    let v3 = hmac_sha256(&k2, &v2);
    (k2, v3)
}

/// The state after `state`, whose `V` is the next candidate nonce.
pub fn next_nonce_state(state: &([u8; 32], [u8; 32])) -> (next: ([u8; 32], [u8; 32]))
    ensures
        (next.0@, next.1@) == drbg_advance((state.0@, state.1@)),
{
    let empty: [u8; 0] = [];
    let k = hmac_sha256(&state.0, tagged(&state.1, 0, &empty).as_slice());
    assert(state.1@ + seq![0u8] + empty@ =~= state.1@ + seq![0u8]);
    let v = hmac_sha256(&k, &state.1);
    let v2 = hmac_sha256(&k, &v);
    (k, v2)
}

} // verus!
