//! Signatures that carry a recovery id, from which the signer's public key can
//! be recovered given the signed message.

use vstd::prelude::*;

use crate::backend::{
    ecdsa_recover_output,
    ecdsa_sign_with_nonce,
    public_key_of,
    recover_public_key,
    scalars_view,
    sign_with_nonce,
};
use crate::bytes::{
    append_hex,
    be_bytes,
    be_lt,
    be_nat,
    be_sub,
    concat32,
    copy32,
    curve_order,
    hex_text,
    is_zero,
    lemma_be_bytes_of_be_nat,
    lemma_be_nat_of_be_bytes,
    lemma_curve_order_bytes,
    lemma_order_below_pow256_32,
    reduce_mod_order,
    reduced_mod_order,
    CURVE_ORDER,
};
use crate::context::{Secp256k1, Signing, Verification};
use crate::ecdsa::{compact_r, compact_s, is_compact_signature, is_valid_ecdsa, Signature};
use crate::key::{gives_key, is_secret_key, Message, PublicKey, SecretKey};
use crate::nonce::{append_bytes, candidate_nonce, first_nonce_state, next_nonce_state, nonce_state};
use crate::Error;

verus! {

/// The two bits that, with a signature and its message, pick the signer's
/// public key out of the candidates: bit 0 is the parity of the y-coordinate
/// of the nonce point, bit 1 tells whether its x-coordinate was reduced
/// modulo the group order.
#[derive(Copy, Clone, PartialEq, Eq, PartialOrd, Ord, Hash, Debug)]
pub enum RecoveryId {
    /// Recovery id 0.
    Zero,
    /// Recovery id 1.
    One,
    /// Recovery id 2.
    Two,
    /// Recovery id 3.
    Three,
}

/// The number of a recovery id.
pub open spec fn recovery_id_number(id: RecoveryId) -> int {
    match id {
        RecoveryId::Zero => 0,
        RecoveryId::One => 1,
        RecoveryId::Two => 2,
        RecoveryId::Three => 3,
    }
}

/// The recovery id numbered `n`; refused unless `n` is 0, 1, 2 or 3.
pub open spec fn recovery_id_from_number(n: int) -> Result<RecoveryId, Error> {
    if n == 0 {
        Ok(RecoveryId::Zero)
    } else if n == 1 {
        Ok(RecoveryId::One)
    } else if n == 2 {
        Ok(RecoveryId::Two)
    } else if n == 3 {
        Ok(RecoveryId::Three)
    } else {
        Err(Error::InvalidRecoveryId)
    }
}

/// The recovery id with the other y parity (bit 0 flipped).
pub open spec fn flip_parity(id: RecoveryId) -> RecoveryId {
    match id {
        RecoveryId::Zero => RecoveryId::One,
        RecoveryId::One => RecoveryId::Zero,
        RecoveryId::Two => RecoveryId::Three,
        RecoveryId::Three => RecoveryId::Two,
    }
}

impl RecoveryId {
    /// The number of this id as a byte.
    fn to_byte(self) -> (b: u8)
        ensures
            b == recovery_id_number(self),
    {
        match self {
            RecoveryId::Zero => 0,
            RecoveryId::One => 1,
            RecoveryId::Two => 2,
            RecoveryId::Three => 3,
        }
    }

    /// The id with the other y parity.
    fn with_flipped_parity(self) -> (id: RecoveryId)
        ensures
            id == flip_parity(self),
    {
        match self {
            RecoveryId::Zero => RecoveryId::One,
            RecoveryId::One => RecoveryId::Zero,
            RecoveryId::Two => RecoveryId::Three,
            RecoveryId::Three => RecoveryId::Two,
        }
    }
}

impl TryFrom<i32> for RecoveryId {
    type Error = Error;

    /// The recovery id numbered `id`; refused unless `id` is 0 to 3.
    fn try_from(id: i32) -> (res: Result<RecoveryId, Error>) {
        match id {
            0 => Ok(RecoveryId::Zero),
            1 => Ok(RecoveryId::One),
            2 => Ok(RecoveryId::Two),
            3 => Ok(RecoveryId::Three),
            _ => Err(Error::InvalidRecoveryId),
        }
    }
}

impl vstd::std_specs::convert::TryFromSpecImpl<i32> for RecoveryId {
    open spec fn obeys_try_from_spec() -> bool {
        true
    }

    open spec fn try_from_spec(id: i32) -> Result<RecoveryId, Error> {
        recovery_id_from_number(id as int)
    }
}

impl From<RecoveryId> for i32 {
    /// The number of the recovery id.
    fn from(id: RecoveryId) -> (n: i32) {
        match id {
            RecoveryId::Zero => 0,
            RecoveryId::One => 1,
            RecoveryId::Two => 2,
            RecoveryId::Three => 3,
        }
    }
}

impl vstd::std_specs::convert::FromSpecImpl<RecoveryId> for i32 {
    open spec fn obeys_from_spec() -> bool {
        true
    }

    open spec fn from_spec(id: RecoveryId) -> i32 {
        recovery_id_number(id) as i32
    }
}

/// A recovery id's number and the id it names back are one: numbering an id
/// and reading the number back gives the id, and every number that reads as
/// an id is that id's number.
pub proof fn lemma_recovery_id_number_round_trip(id: RecoveryId, n: int)
    ensures
        recovery_id_from_number(recovery_id_number(id)) == Ok::<RecoveryId, Error>(id),
        0 <= recovery_id_number(id) <= 3,
        recovery_id_from_number(n) is Ok <==> 0 <= n <= 3,
        recovery_id_from_number(n) matches Ok(m) ==> recovery_id_number(m) == n,
{
}

/// A compact signature with a recovery id, as the pair of its 64 bytes
/// (`r` then `s`) and its id.
pub type RecoverableSignatureView = (Seq<u8>, RecoveryId);

/// An ECDSA signature with a recovery id: the scalars `r` and `s`, each below
/// the group order, as 32 big-endian bytes.
#[derive(Copy, Clone, PartialEq, Eq, PartialOrd, Ord, Hash, Debug)]
pub struct RecoverableSignature {
    r: [u8; 32],
    s: [u8; 32],
    recid: RecoveryId,
}

impl View for RecoverableSignature {
    type V = RecoverableSignatureView;

    closed spec fn view(&self) -> RecoverableSignatureView {
        (self.r@ + self.s@, self.recid)
    }
}

/// What `from_compact` gives for `data` and `recid`: the signature
/// `(data, recid)` where `data` is a compact signature, else nothing.
pub open spec fn parse_compact(data: Seq<u8>, recid: RecoveryId) -> Option<RecoverableSignatureView> {
    if is_compact_signature(data) {
        Some((data, recid))
    } else {
        None
    }
}

/// Compact form round trip: a signature's compact form read back with its
/// recovery id gives the signature again, and a signature read from bytes and
/// an id has exactly those bytes as compact form and that id.
pub proof fn lemma_compact_round_trip(sig: RecoverableSignatureView, data: Seq<u8>, recid: RecoveryId)
    requires
        is_compact_signature(sig.0),
    ensures
        parse_compact(sig.0, sig.1) == Some(sig),
        parse_compact(data, recid) matches Some(read) ==> read.0 == data && read.1 == recid,
{
}

/// The signature that the signing output `(r, s, v)` stands for: `r` and `s`
/// must be 32 bytes each below the group order and `v` an id number.
pub open spec fn signature_from_output(r: Seq<u8>, s: Seq<u8>, v: u8) -> Option<RecoverableSignatureView> {
    if r.len() == 32 && s.len() == 32 && is_compact_signature(r + s) && v < 4 {
        Some((r + s, recovery_id_from_number(v as int)->Ok_0))
    } else {
        None
    }
}

/// How many candidate nonces signing tries, at most, before it gives up.
pub open spec fn nonce_attempts() -> nat {
    0x1_0000_0000
}

/// The `(r, s, recovery id byte)` that the first of the candidate nonces
/// numbered `i` onwards that makes a signature gives, for the secret scalar
/// `secret`, the digest `digest` and extra nonce data `extra`; nonces come
/// from the RFC 6979 stream seeded with `secret`, `digest` and `extra`.
pub open spec fn signature_from_nonces(
    secret: Seq<u8>,
    digest: Seq<u8>,
    extra: Seq<u8>,
    i: nat,
) -> Option<(Seq<u8>, Seq<u8>, u8)>
    decreases nonce_attempts() - i,
{
    if i >= nonce_attempts() {
        None
    } else {
        match ecdsa_sign_with_nonce(secret, digest, candidate_nonce(secret + digest + extra, i)) {
            Some(out) => Some(out),
            None => signature_from_nonces(secret, digest, extra, i + 1),
        }
    }
}

/// The recoverable signature that signing the digest `msg` (taken modulo the
/// group order) with the secret key `secret` gives, with `extra` as
/// additional data for the nonce: the first candidate nonce that makes a
/// signature is used.
pub open spec fn signed(secret: Seq<u8>, msg: Seq<u8>, extra: Seq<u8>) -> Option<RecoverableSignatureView> {
    match signature_from_nonces(secret, reduced_mod_order(msg), extra, 0) {
        Some((r, s, v)) => signature_from_output(r, s, v),
        None => None,
    }
}

/// From candidate `k` on, the first nonce that gives a signature is found
/// by trying the candidates of the RFC 6979 stream seeded with
/// `secret || digest || extra` in order.
proof fn lemma_first_signing_nonce_from(secret: Seq<u8>, digest: Seq<u8>, extra: Seq<u8>, k: nat)
    requires
        k <= nonce_attempts(),
    ensures
        signature_from_nonces(secret, digest, extra, k) matches Some(out) ==> exists|i: nat|
            {
                &&& k <= i < nonce_attempts()
                &&& #[trigger] ecdsa_sign_with_nonce(
                    secret,
                    digest,
                    candidate_nonce(secret + digest + extra, i),
                ) == Some(out)
                &&& forall|j: nat|
                    k <= j < i ==> #[trigger] ecdsa_sign_with_nonce(
                        secret,
                        digest,
                        candidate_nonce(secret + digest + extra, j),
                    ) is None
            },
    decreases nonce_attempts() - k,
{
    if k < nonce_attempts() {
        lemma_first_signing_nonce_from(secret, digest, extra, k + 1);
        let seed = secret + digest + extra;
        match ecdsa_sign_with_nonce(secret, digest, candidate_nonce(seed, k)) {
            Some(out) => {
                assert(ecdsa_sign_with_nonce(secret, digest, candidate_nonce(seed, k)) == Some(out));
            },
            None => {
                if signature_from_nonces(secret, digest, extra, k) is Some {
                    let out = signature_from_nonces(secret, digest, extra, k)->Some_0;
                    let i = choose|i: nat|
                        {
                            &&& k + 1 <= i < nonce_attempts()
                            &&& #[trigger] ecdsa_sign_with_nonce(
                                secret,
                                digest,
                                candidate_nonce(seed, i),
                            ) == Some(out)
                            &&& forall|j: nat|
                                k + 1 <= j < i ==> #[trigger] ecdsa_sign_with_nonce(
                                    secret,
                                    digest,
                                    candidate_nonce(seed, j),
                                ) is None
                        };
                    assert forall|j: nat| k <= j < i implies #[trigger] ecdsa_sign_with_nonce(
                        secret,
                        digest,
                        candidate_nonce(seed, j),
                    ) is None by {
                        if j > k {
                        }
                    }
                }
            },
        }
    }
}

/// The nonce of a signature: signing `msg` with `secret` and extra nonce
/// data `extra` uses the first candidate nonce, within the attempts allowed,
/// of the RFC 6979 stream seeded with the secret key's bytes, then the bytes
/// of the digest taken modulo the group order, then `extra` byte for byte;
/// every earlier candidate gives no signature.
pub proof fn lemma_signing_nonce_seed(secret: Seq<u8>, msg: Seq<u8>, extra: Seq<u8>)
    ensures
        signed(secret, msg, extra) matches Some(sig) ==> exists|i: nat|
            {
                &&& i < nonce_attempts()
                &&& #[trigger] ecdsa_sign_with_nonce(
                    secret,
                    reduced_mod_order(msg),
                    candidate_nonce(secret + reduced_mod_order(msg) + extra, i),
                ) matches Some(out)
                &&& signature_from_output(out.0, out.1, out.2) == Some(sig)
                &&& forall|j: nat|
                    j < i ==> #[trigger] ecdsa_sign_with_nonce(
                        secret,
                        reduced_mod_order(msg),
                        candidate_nonce(secret + reduced_mod_order(msg) + extra, j),
                    ) is None
            },
{
    let digest = reduced_mod_order(msg);
    lemma_first_signing_nonce_from(secret, digest, extra, 0);
    if signed(secret, msg, extra) is Some {
        let out = signature_from_nonces(secret, digest, extra, 0)->Some_0;
        let i = choose|i: nat|
            {
                &&& 0 <= i < nonce_attempts()
                &&& #[trigger] ecdsa_sign_with_nonce(
                    secret,
                    digest,
                    candidate_nonce(secret + digest + extra, i),
                ) == Some(out)
                &&& forall|j: nat|
                    0 <= j < i ==> #[trigger] ecdsa_sign_with_nonce(
                        secret,
                        digest,
                        candidate_nonce(secret + digest + extra, j),
                    ) is None
            };
        assert(ecdsa_sign_with_nonce(
            secret,
            reduced_mod_order(msg),
            candidate_nonce(secret + reduced_mod_order(msg) + extra, i),
        ) == Some(out));
    }
}

/// The `(r, s, recovery id byte)` that recovery hands to the curve
/// arithmetic for `sig`: none where `r` or `s` is zero; where `s` lies in the
/// upper half, `s` is replaced by `n - s` and the y parity of the id
/// flipped, since the curve arithmetic recovers from lower-S signatures only.
pub open spec fn recovery_inputs_of(sig: RecoverableSignatureView) -> Option<(Seq<u8>, Seq<u8>, u8)> {
    let r = compact_r(sig.0);
    let s = compact_s(sig.0);
    if be_nat(r) == 0 || be_nat(s) == 0 {
        None
    } else if 2 * be_nat(s) > curve_order() {
        Some(
            (
                r,
                be_bytes((curve_order() - be_nat(s)) as nat, 32),
                recovery_id_number(flip_parity(sig.1)) as u8,
            ),
        )
    } else {
        Some((r, s, recovery_id_number(sig.1) as u8))
    }
}

/// The twin of `sig` with the other sign of `s`: `s` replaced by `n - s`
/// and the y parity of the recovery id flipped.
pub open spec fn negated_s_twin(sig: RecoverableSignatureView) -> RecoverableSignatureView {
    (
        compact_r(sig.0) + be_bytes((curve_order() - be_nat(compact_s(sig.0))) as nat, 32),
        flip_parity(sig.1),
    )
}

/// The public key recovered from `sig` and the digest `msg` (taken modulo
/// the group order), if any.
pub open spec fn recovered_key(msg: Seq<u8>, sig: RecoverableSignatureView) -> Option<Seq<u8>> {
    match recovery_inputs_of(sig) {
        Some((r, s, v)) => ecdsa_recover_output(reduced_mod_order(msg), r, s, v),
        None => None,
    }
}

/// The compact form of `sig` in lower-S form: `s` replaced by `n - s` where
/// it lies in the upper half.
pub open spec fn lower_s_form(sig: RecoverableSignatureView) -> Seq<u8> {
    let s = compact_s(sig.0);
    if 2 * be_nat(s) > curve_order() {
        compact_r(sig.0) + be_bytes((curve_order() - be_nat(s)) as nat, 32)
    } else {
        sig.0
    }
}

/// A signature and its twin with `s` negated (and the id's parity flipped)
/// are both signatures, and recover the same public key from any message.
pub proof fn lemma_negated_s_twin_recovers_same_key(msg: Seq<u8>, sig: RecoverableSignatureView)
    requires
        is_compact_signature(sig.0),
        be_nat(compact_s(sig.0)) > 0,
    ensures
        is_compact_signature(negated_s_twin(sig).0),
        recovered_key(msg, negated_s_twin(sig)) == recovered_key(msg, sig),
{
    let r = compact_r(sig.0);
    let s = compact_s(sig.0);
    let n = curve_order();
    let t = be_bytes((n - be_nat(s)) as nat, 32);
    let twin = negated_s_twin(sig);
    lemma_order_below_pow256_32();
    lemma_be_nat_of_be_bytes((n - be_nat(s)) as nat, 32);
    assert(compact_r(twin.0) =~= r);
    assert(compact_s(twin.0) =~= t);
    assert(flip_parity(flip_parity(sig.1)) == sig.1);
    if 2 * be_nat(s) < n {
        assert(2 * be_nat(t) > n);
        lemma_be_bytes_of_be_nat(s);
        assert(be_bytes((n - be_nat(t)) as nat, 32) == s);
    } else {
        assert(2 * be_nat(s) > n);
        assert(2 * be_nat(t) < n);
    }
}

impl RecoverableSignature {
    #[verifier::type_invariant]
    spec fn in_range(self) -> bool {
        be_nat(self.r@) < curve_order() && be_nat(self.s@) < curve_order()
    }

    /// Reads a signature in compact form: 64 bytes, `r` then `s`, each a
    /// big-endian number below the group order.
    pub fn from_compact(data: &[u8], recid: RecoveryId) -> (res: Result<RecoverableSignature, Error>)
        ensures
            res is Ok <==> is_compact_signature(data@),
            res matches Ok(sig) ==> parse_compact(data@, recid) == Some(sig@),
            res matches Err(e) ==> e == Error::InvalidSignature,
    {
        if data.len() == 0 {
            return Err(Error::InvalidSignature);
        }
        if data.len() != 64 {
            return Err(Error::InvalidSignature);
        }
        let r = copy32(data, 0);
        let s = copy32(data, 32);
        assert(data@ =~= r@ + s@);
        proof {
            lemma_curve_order_bytes();
        }
        if be_lt(&r, &CURVE_ORDER) && be_lt(&s, &CURVE_ORDER) {
            Ok(RecoverableSignature { r, s, recid })
        } else {
            Err(Error::InvalidSignature)
        }
    }

    /// The signature that the signing output `(r, s, v)` stands for;
    /// refused unless `r` and `s` lie below the group order and `v` is an id
    /// number.
    pub fn from_signing_output(out: ([u8; 32], [u8; 32], u8)) -> (res: Result<RecoverableSignature, Error>)
        ensures
            match signature_from_output(out.0@, out.1@, out.2) {
                Some(v) => res matches Ok(sig) && sig@ == v,
                None => res matches Err(e) && e == Error::InvalidSignature,
            },
    {
        let (r, s, v) = out;
        proof {
            assert(compact_r(r@ + s@) =~= r@);
            assert(compact_s(r@ + s@) =~= s@);
            lemma_curve_order_bytes();
        }
        if !be_lt(&r, &CURVE_ORDER) || !be_lt(&s, &CURVE_ORDER) {
            return Err(Error::InvalidSignature);
        }
        let recid = match v {
            0 => RecoveryId::Zero,
            1 => RecoveryId::One,
            2 => RecoveryId::Two,
            3 => RecoveryId::Three,
            _ => {
                return Err(Error::InvalidSignature);
            },
        };
        Ok(RecoverableSignature { r, s, recid })
    }

    /// The compact form and the recovery id.
    pub fn serialize_compact(&self) -> (out: (RecoveryId, [u8; 64]))
        ensures
            out.0 == self@.1,
            out.1@ == self@.0,
            is_compact_signature(self@.0),
    {
        proof {
            use_type_invariant(self);
            assert(compact_r(self.r@ + self.s@) =~= self.r@);
            assert(compact_s(self.r@ + self.s@) =~= self.s@);
        }
        (self.recid, concat32(&self.r, &self.s))
    }

    /// The same signature without its recovery id.
    pub fn to_standard(&self) -> (sig: Signature)
        ensures
            sig@ == self@.0,
    {
        proof {
            use_type_invariant(self);
        }
        Signature::from_scalars(self.r, self.s)
    }

    /// The `(r, s, recovery id byte)` to hand to the curve arithmetic for
    /// recovery: none where `r` or `s` is zero, and `s` taken to the lower
    /// half with the id's parity flipped where it lies in the upper half.
    pub fn recovery_inputs(&self) -> (out: Option<([u8; 32], [u8; 32], u8)>)
        ensures
            scalars_view(out) == recovery_inputs_of(self@),
    {
        proof {
            use_type_invariant(self);
            assert(compact_r(self.r@ + self.s@) =~= self.r@);
            assert(compact_s(self.r@ + self.s@) =~= self.s@);
            lemma_curve_order_bytes();
        }
        if is_zero(&self.r) || is_zero(&self.s) {
            return None;
        }
        let negated = be_sub(&CURVE_ORDER, &self.s);
        if be_lt(&negated, &self.s) {
            Some((self.r, negated, self.recid.with_flipped_parity().to_byte()))
        } else {
            Some((self.r, self.s, self.recid.to_byte()))
        }
    }

    /// The text that names this signature: `RecoverableSignature(`, the
    /// lowercase hexadecimal of its compact form and of its recovery id's
    /// number, then `)`.
    pub fn to_debug_string(&self) -> (text: String)
        ensures
            text@ == "RecoverableSignature("@ + hex_text(self@.0) + hex_text(
                seq![recovery_id_number(self@.1) as u8],
            ) + ")"@,
    {
        let (recid, bytes) = self.serialize_compact();
        let id = [recid.to_byte()];
        assert(id@ =~= seq![recovery_id_number(self@.1) as u8]);
        let mut text = String::new();
        text.append("RecoverableSignature(");
        append_hex(&mut text, &bytes);
        append_hex(&mut text, &id);
        text.append(")");
        assert(text@ =~= "RecoverableSignature("@ + hex_text(self@.0) + hex_text(
            seq![recovery_id_number(self@.1) as u8],
        ) + ")"@);
        text
    }

    /// The public key for which this signature is valid for `msg`.
    pub fn recover(&self, msg: &Message) -> (res: Result<PublicKey, Error>)
        ensures
            gives_key(res, recovered_key(msg@, self@), Error::InvalidSignature),
            res matches Ok(pk) ==> is_valid_ecdsa(msg@, lower_s_form(self@), pk@),
    {
        recover_key(msg, self)
    }
}

/// Recovery of the public key that `sig` is valid for over `msg`.
fn recover_key(msg: &Message, sig: &RecoverableSignature) -> (res: Result<PublicKey, Error>)
    ensures
        gives_key(res, recovered_key(msg@, sig@), Error::InvalidSignature),
        res matches Ok(pk) ==> is_valid_ecdsa(msg@, lower_s_form(sig@), pk@),
{
    match sig.recovery_inputs() {
        Some((r, s, v)) => {
            let digest = reduce_mod_order(msg.as_bytes());
            let point = recover_public_key(&digest, &r, &s, v);
            proof {
                let full = sig@.0;
                assert(r@ == compact_r(full));
                assert(compact_r(r@ + s@) =~= r@);
                assert(compact_s(r@ + s@) =~= s@);
                if 2 * be_nat(compact_s(full)) <= curve_order() {
                    assert(full =~= compact_r(full) + compact_s(full));
                }
            }
            PublicKey::from_point(point, Error::InvalidSignature)
        },
        None => Err(Error::InvalidSignature),
    }
}

impl<C: Signing> Secp256k1<C> {
    /// Signs `msg` with `sk`, the nonce derived per RFC 6979 with `extra` as
    /// additional data; the signature comes out in lower-S form, and the
    /// public key of `sk` is recovered from it.
    fn sign_with_extra(&self, msg: &Message, sk: &SecretKey, extra: &[u8]) -> (out: Option<
        RecoverableSignature,
    >)
        ensures
            out is Some <==> signed(sk@, msg@, extra@) is Some,
            out matches Some(sig) ==> {
                &&& signed(sk@, msg@, extra@) == Some(sig@)
                &&& recovered_key(msg@, sig@) == Some(public_key_of(sk@))
                &&& is_valid_ecdsa(msg@, sig@.0, public_key_of(sk@))
                &&& 2 * be_nat(compact_s(sig@.0)) < curve_order()
            },
    {
        let digest = reduce_mod_order(msg.as_bytes());
        let secret = sk.secret_bytes();
        let mut seed: Vec<u8> = Vec::new();
        append_bytes(&mut seed, secret);
        append_bytes(&mut seed, &digest);
        append_bytes(&mut seed, extra);
        let mut state = first_nonce_state(seed.as_slice());
        let mut count: u32 = 0;
        loop
            invariant
                is_secret_key(sk@),
                secret@ == sk@,
                digest@ == reduced_mod_order(msg@),
                seed@ == secret@ + digest@ + extra@,
                (state.0@, state.1@) == nonce_state(seed@, count as nat),
                signature_from_nonces(secret@, digest@, extra@, 0) == signature_from_nonces(
                    secret@,
                    digest@,
                    extra@,
                    count as nat,
                ),
            decreases u32::MAX - count,
        {
            match sign_with_nonce(secret, &digest, &state.1) {
                Some(out) => {
                    let (r, s, v) = out;
                    proof {
                        assert(compact_r(r@ + s@) =~= r@);
                        assert(compact_s(r@ + s@) =~= s@);
                    }
                    return match RecoverableSignature::from_signing_output(out) {
                        Ok(sig) => Some(sig),
                        Err(_) => None,
                    };
                },
                None => {},
            }
            if count == u32::MAX {
                proof {
                    assert(count as nat + 1 == nonce_attempts());
                    assert(signature_from_nonces(secret@, digest@, extra@, count as nat + 1) is None);
                    assert(signature_from_nonces(secret@, digest@, extra@, count as nat) is None);
                }
                return None;
            }
            state = next_nonce_state(&state);
            count = count + 1;
        }
    }

    /// Signs `msg` with `sk`, the nonce derived per RFC 6979; `None` where
    /// signing fails.
    pub fn try_sign_ecdsa_recoverable(&self, msg: &Message, sk: &SecretKey) -> (out: Option<
        RecoverableSignature,
    >)
        ensures
            out is Some <==> signed(sk@, msg@, seq![]) is Some,
            out matches Some(sig) ==> {
                &&& signed(sk@, msg@, seq![]) == Some(sig@)
                &&& recovered_key(msg@, sig@) == Some(public_key_of(sk@))
                &&& is_valid_ecdsa(msg@, sig@.0, public_key_of(sk@))
                &&& 2 * be_nat(compact_s(sig@.0)) < curve_order()
            },
    {
        let extra: [u8; 0] = [];
        assert(extra@ =~= seq![]);
        self.sign_with_extra(msg, sk, &extra)
    }

    /// Signs `msg` with `sk`, the nonce derived per RFC 6979.
    pub fn sign_ecdsa_recoverable(&self, msg: &Message, sk: &SecretKey) -> (sig: RecoverableSignature)
        requires
            signed(sk@, msg@, seq![]) is Some,
        ensures
            signed(sk@, msg@, seq![]) == Some(sig@),
            recovered_key(msg@, sig@) == Some(public_key_of(sk@)),
            is_valid_ecdsa(msg@, sig@.0, public_key_of(sk@)),
            2 * be_nat(compact_s(sig@.0)) < curve_order(),
    {
        let extra: [u8; 0] = [];
        assert(extra@ =~= seq![]);
        match self.sign_with_extra(msg, sk, &extra) {
            Some(sig) => sig,
            None => {
                assert(false);
                RecoverableSignature { r: [0u8; 32], s: [0u8; 32], recid: RecoveryId::Zero }
            },
        }
    }

    /// Signs `msg` with `sk`, the nonce derived per RFC 6979 with the 32
    /// bytes `noncedata` mixed in; `None` where signing fails.
    pub fn try_sign_ecdsa_recoverable_with_noncedata(
        &self,
        msg: &Message,
        sk: &SecretKey,
        noncedata: &[u8; 32],
    ) -> (out: Option<RecoverableSignature>)
        ensures
            out is Some <==> signed(sk@, msg@, noncedata@) is Some,
            out matches Some(sig) ==> {
                &&& signed(sk@, msg@, noncedata@) == Some(sig@)
                &&& recovered_key(msg@, sig@) == Some(public_key_of(sk@))
                &&& is_valid_ecdsa(msg@, sig@.0, public_key_of(sk@))
                &&& 2 * be_nat(compact_s(sig@.0)) < curve_order()
            },
    {
        self.sign_with_extra(msg, sk, noncedata)
    }

    /// Signs `msg` with `sk`, the nonce derived per RFC 6979 with the 32
    /// bytes `noncedata` mixed in, so that several signatures of one message
    /// under one key differ.
    pub fn sign_ecdsa_recoverable_with_noncedata(
        &self,
        msg: &Message,
        sk: &SecretKey,
        noncedata: &[u8; 32],
    ) -> (sig: RecoverableSignature)
        requires
            signed(sk@, msg@, noncedata@) is Some,
        ensures
            signed(sk@, msg@, noncedata@) == Some(sig@),
            recovered_key(msg@, sig@) == Some(public_key_of(sk@)),
            is_valid_ecdsa(msg@, sig@.0, public_key_of(sk@)),
            2 * be_nat(compact_s(sig@.0)) < curve_order(),
    {
        match self.sign_with_extra(msg, sk, noncedata) {
            Some(sig) => sig,
            None => {
                assert(false);
                RecoverableSignature { r: [0u8; 32], s: [0u8; 32], recid: RecoveryId::Zero }
            },
        }
    }
}

impl<C: Verification> Secp256k1<C> {
    /// The public key for which `sig` is a valid signature of `msg`.
    pub fn recover_ecdsa(&self, msg: &Message, sig: &RecoverableSignature) -> (res: Result<
        PublicKey,
        Error,
    >)
        ensures
            gives_key(res, recovered_key(msg@, sig@), Error::InvalidSignature),
            res matches Ok(pk) ==> is_valid_ecdsa(msg@, lower_s_form(sig@), pk@),
    {
        recover_key(msg, sig)
    }
}

} // verus!
