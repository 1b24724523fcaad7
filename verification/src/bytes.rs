//! Big-endian byte strings read as natural numbers, and the operations on
//! 32-byte scalars that signature handling needs.

use vstd::prelude::*;

verus! {

/// The value of a byte string read as a big-endian natural number.
pub open spec fn be_nat(s: Seq<u8>) -> nat
    decreases s.len(),
{
    if s.len() == 0 {
        0
    } else {
        be_nat(s.drop_last()) * 256 + s.last() as nat
    }
}

/// `256` raised to the power `n`.
pub open spec fn pow256(n: nat) -> nat
    decreases n,
{
    if n == 0 {
        1
    } else {
        256 * pow256((n - 1) as nat)
    }
}

/// The big-endian encoding of `x` in exactly `len` bytes (higher bytes of `x`
/// that do not fit are dropped).
pub open spec fn be_bytes(x: nat, len: nat) -> Seq<u8>
    decreases len,
{
    if len == 0 {
        Seq::empty()
    } else {
        be_bytes(x / 256, (len - 1) as nat).push((x % 256) as u8)
    }
}

/// The order `n` of the secp256k1 group, big-endian:
/// `FFFFFFFF FFFFFFFF FFFFFFFF FFFFFFFE BAAEDCE6 AF48A03B BFD25E8C D0364141`.
pub const CURVE_ORDER: [u8; 32] = [
    0xff, 0xff, 0xff, 0xff, 0xff, 0xff, 0xff, 0xff,
    0xff, 0xff, 0xff, 0xff, 0xff, 0xff, 0xff, 0xfe,
    0xba, 0xae, 0xdc, 0xe6, 0xaf, 0x48, 0xa0, 0x3b,
    0xbf, 0xd2, 0x5e, 0x8c, 0xd0, 0x36, 0x41, 0x41,
];

/// The order `n` of the secp256k1 group.
pub open spec fn curve_order() -> nat {
    0xFFFFFFFFFFFFFFFFFFFFFFFFFFFFFFFEBAAEDCE6AF48A03BBFD25E8CD0364141nat
}

/// The bytes of `CURVE_ORDER` are worth the group order.
pub proof fn lemma_curve_order_bytes()
    ensures
        be_nat(CURVE_ORDER@) == curve_order(),
{
    let s = CURVE_ORDER@;
    assert(s.len() == 32);
    reveal_with_fuel(be_nat, 33);
    assert(be_nat(s) == 0xFFFFFFFFFFFFFFFFFFFFFFFFFFFFFFFEBAAEDCE6AF48A03BBFD25E8CD0364141nat);
}

pub proof fn lemma_be_push(s: Seq<u8>, x: u8)
    ensures
        be_nat(s.push(x)) == be_nat(s) * 256 + x,
{
    assert(s.push(x).drop_last() =~= s);
}

/// Reading a concatenation: the left part is worth `256^|b|` times its value.
pub proof fn lemma_be_concat(a: Seq<u8>, b: Seq<u8>)
    ensures
        be_nat(a + b) == be_nat(a) * pow256(b.len()) + be_nat(b),
    decreases b.len(),
{
    if b.len() == 0 {
        assert(a + b =~= a);
        assert(pow256(0) == 1);
        assert(be_nat(b) == 0);
    } else {
        let b0 = b.drop_last();
        assert((a + b).drop_last() =~= a + b0);
        assert((a + b).last() == b.last());
        lemma_be_concat(a, b0);
        let va = be_nat(a);
        let p0 = pow256(b0.len());
        let v0 = be_nat(b0);
        assert(pow256(b.len()) == 256 * p0);
        assert(be_nat(a + b) == be_nat(a + b0) * 256 + b.last());
        assert(be_nat(b) == v0 * 256 + b.last());
        let x = b.last();
        assert((va * p0 + v0) * 256 + x == va * (256 * p0) + (v0 * 256 + x))
            by (nonlinear_arith);
    }
}

/// A byte string of length `k` is worth less than `256^k`.
pub proof fn lemma_be_bound(s: Seq<u8>)
    ensures
        be_nat(s) < pow256(s.len()),
    decreases s.len(),
{
    if s.len() > 0 {
        let s0 = s.drop_last();
        lemma_be_bound(s0);
        let v0 = be_nat(s0);
        let p0 = pow256(s0.len());
        let x = s.last();
        assert(v0 * 256 + x < 256 * p0) by (nonlinear_arith)
            requires
                v0 < p0,
                x < 256,
        ;
    }
}

/// A byte string is worth zero exactly when all its bytes are zero.
pub proof fn lemma_be_zero(s: Seq<u8>)
    ensures
        (be_nat(s) == 0) <==> (forall|i: int| 0 <= i < s.len() ==> s[i] == 0),
    decreases s.len(),
{
    if s.len() > 0 {
        let s0 = s.drop_last();
        lemma_be_zero(s0);
        if be_nat(s) == 0 {
            assert(be_nat(s0) == 0);
            assert forall|i: int| 0 <= i < s.len() implies s[i] == 0 by {
                if i < s.len() - 1 {
                    assert(s0[i] == s[i]);
                }
            }
        }
        if forall|i: int| 0 <= i < s.len() ==> s[i] == 0 {
            assert forall|i: int| 0 <= i < s0.len() implies s0[i] == 0 by {
                assert(s0[i] == s[i]);
            }
            assert(s[s.len() - 1] == 0);
        }
    }
}

/// Encoding a byte string's value in as many bytes gives the string back.
pub proof fn lemma_be_bytes_of_be_nat(s: Seq<u8>)
    ensures
        be_bytes(be_nat(s), s.len()) == s,
    decreases s.len(),
{
    if s.len() > 0 {
        let s0 = s.drop_last();
        lemma_be_bytes_of_be_nat(s0);
        let v = be_nat(s);
        let v0 = be_nat(s0);
        let x = s.last();
        assert(v / 256 == v0 && v % 256 == x) by (nonlinear_arith)
            requires
                v == v0 * 256 + x,
                0 <= x < 256,
        ;
        assert(be_bytes(v, s.len()) =~= s0.push(x));
        assert(s0.push(x) =~= s);
    }
}

/// The encoding of a number below `256^len` in `len` bytes is worth the
/// number, and has `len` bytes.
pub proof fn lemma_be_nat_of_be_bytes(x: nat, len: nat)
    requires
        x < pow256(len),
    ensures
        be_bytes(x, len).len() == len,
        be_nat(be_bytes(x, len)) == x,
    decreases len,
{
    if len > 0 {
        let p = pow256((len - 1) as nat);
        let q = x / 256;
        let r = x % 256;
        assert(q < p && x == q * 256 + r && 0 <= r < 256) by (nonlinear_arith)
            requires
                x < 256 * p,
                q == x / 256,
                r == x % 256,
        ;
        lemma_be_nat_of_be_bytes(q, (len - 1) as nat);
        lemma_be_push(be_bytes(q, (len - 1) as nat), r as u8);
    } else {
        assert(x == 0);
    }
}

/// `256^32` exceeds the group order.
pub proof fn lemma_order_below_pow256_32()
    ensures
        curve_order() < pow256(32),
{
    reveal_with_fuel(pow256, 33);
    assert(pow256(32) == 0x10000000000000000000000000000000000000000000000000000000000000000nat);
}

/// Two strings of one length that first differ where the first has the
/// smaller byte: the first is worth less.
proof fn lemma_first_difference(p: Seq<u8>, x: u8, ra: Seq<u8>, y: u8, rb: Seq<u8>)
    requires
        x < y,
        ra.len() == rb.len(),
    ensures
        be_nat(p.push(x) + ra) < be_nat(p.push(y) + rb),
{
    lemma_be_concat(p.push(x), ra);
    lemma_be_concat(p.push(y), rb);
    lemma_be_push(p, x);
    lemma_be_push(p, y);
    lemma_be_bound(ra);
    let q = pow256(ra.len());
    let vp = be_nat(p);
    let va = be_nat(ra);
    let vb = be_nat(rb);
    assert((vp * 256 + x) * q + va < (vp * 256 + y) * q + vb) by (nonlinear_arith)
        requires
            x < y,
            va < q,
            0 <= vb,
            0 <= vp,
    ;
}

/// Whether `a`, read big-endian, is smaller than `b`, read big-endian.
pub fn be_lt(a: &[u8], b: &[u8]) -> (lt: bool)
    requires
        a@.len() == b@.len(),
    ensures
        lt == (be_nat(a@) < be_nat(b@)),
{
    let n = a.len();
    let mut i: usize = 0;
    while i < n
        invariant
            n == a@.len(),
            n == b@.len(),
            i <= n,
            a@.take(i as int) =~= b@.take(i as int),
        decreases n - i,
    {
        if a[i] != b[i] {
            let ghost pre = a@.take(i as int);
            let ghost ra = a@.skip(i + 1);
            let ghost rb = b@.skip(i + 1);
            assert(a@ =~= pre.push(a@[i as int]) + ra);
            assert(b@ =~= pre.push(b@[i as int]) + rb);
            proof {
                if a[i as int] < b[i as int] {
                    lemma_first_difference(pre, a@[i as int], ra, b@[i as int], rb);
                } else {
                    lemma_first_difference(pre, b@[i as int], rb, a@[i as int], ra);
                }
            }
            return a[i] < b[i];
        }
        assert(a@.take(i + 1) =~= a@.take(i as int).push(a@[i as int]));
        assert(b@.take(i + 1) =~= b@.take(i as int).push(b@[i as int]));
        i = i + 1;
    }
    assert(a@ =~= a@.take(n as int));
    assert(b@ =~= b@.take(n as int));
    false
}

/// Whether every byte of `a` is zero, that is whether `a` is worth zero.
pub fn is_zero(a: &[u8]) -> (z: bool)
    ensures
        z == (be_nat(a@) == 0),
{
    proof {
        lemma_be_zero(a@);
    }
    let n = a.len();
    let mut i: usize = 0;
    while i < n
        invariant
            n == a@.len(),
            i <= n,
            forall|j: int| 0 <= j < i ==> a@[j] == 0,
        decreases n - i,
    {
        if a[i] != 0 {
            proof {
                lemma_be_zero(a@);
                assert(a@[i as int] != 0);
            }
            return false;
        }
        i = i + 1;
    }
    true
}

/// A byte followed by a string: the byte is worth `256^|t|`.
pub proof fn lemma_be_cons(x: u8, t: Seq<u8>)
    ensures
        be_nat(seq![x] + t) == x * pow256(t.len()) + be_nat(t),
{
    lemma_be_concat(seq![x], t);
    lemma_be_push(Seq::empty(), x);
    assert(Seq::<u8>::empty().push(x) =~= seq![x]);
    assert(be_nat(Seq::<u8>::empty()) == 0);
}

/// `a - b` for `b <= a`, both read as 32-byte big-endian numbers.
pub fn be_sub(a: &[u8; 32], b: &[u8; 32]) -> (d: [u8; 32])
    requires
        be_nat(b@) <= be_nat(a@),
    ensures
        be_nat(d@) == be_nat(a@) - be_nat(b@),
        d@ == be_bytes((be_nat(a@) - be_nat(b@)) as nat, 32),
{
    let mut d = [0u8; 32];
    let mut borrow: u8 = 0;
    let mut i: usize = 32;
    while i > 0
        invariant
            i <= 32,
            borrow <= 1,
            a@.len() == 32,
            b@.len() == 32,
            d@.len() == 32,
            be_nat(a@.skip(i as int)) + borrow * pow256((32 - i) as nat) == be_nat(
                b@.skip(i as int),
            ) + be_nat(d@.skip(i as int)),
        decreases i,
    {
        let k = i - 1;
        let ak = a[k] as u16;
        let bk = b[k] as u16 + borrow as u16;
        let ghost old_d = d@;
        let v: u8;
        let nb: u8;
        if ak >= bk {
            v = (ak - bk) as u8;
            nb = 0;
        } else {
            v = (ak + 256 - bk) as u8;
            nb = 1;
        }
        d[k] = v;
        proof {
            let p = pow256((32 - i) as nat);
            let va = be_nat(a@.skip(i as int));
            let vb = be_nat(b@.skip(i as int));
            let vd = be_nat(d@.skip(i as int));
            assert(d@.skip(i as int) =~= old_d.skip(i as int));
            assert(a@.skip(k as int) =~= seq![a@[k as int]] + a@.skip(i as int));
            assert(b@.skip(k as int) =~= seq![b@[k as int]] + b@.skip(i as int));
            assert(d@.skip(k as int) =~= seq![v] + d@.skip(i as int));
            lemma_be_cons(a@[k as int], a@.skip(i as int));
            lemma_be_cons(b@[k as int], b@.skip(i as int));
            lemma_be_cons(v, d@.skip(i as int));
            assert(pow256((32 - k) as nat) == 256 * p);
            let xa = a@[k as int] as int;
            let xb = b@[k as int] as int;
            let c = borrow as int;
            let n = nb as int;
            assert(xa + 256 * n == xb + c + v);
            assert(xa * p + va + n * (256 * p) == xb * p + vb + (v * p + vd)) by (nonlinear_arith)
                requires
                    xa + 256 * n == xb + c + v,
                    va + c * p == vb + vd,
            ;
        }
        borrow = nb;
        i = k;
    }
    proof {
        assert(a@.skip(0) =~= a@);
        assert(b@.skip(0) =~= b@);
        assert(d@.skip(0) =~= d@);
        lemma_be_bound(d@);
        lemma_be_bytes_of_be_nat(d@);
        assert(i == 0);
        assert(borrow == 0) by {
            if borrow == 1 {
                assert(be_nat(a@) + pow256(32) == be_nat(b@) + be_nat(d@));
            }
        }
        assert(be_nat(d@) == (be_nat(a@) - be_nat(b@)) as nat);
        assert(d@.len() == 32);
    }
    d
}

/// The 32 bytes of `src` that start at `start`.
pub fn copy32(src: &[u8], start: usize) -> (out: [u8; 32])
    requires
        start + 32 <= src.len(),
    ensures
        out@ == src@.subrange(start as int, start + 32),
{
    let mut out = [0u8; 32];
    let mut i: usize = 0;
    while i < 32
        invariant
            start + 32 <= src.len(),
            i <= 32,
            out@.len() == 32,
            forall|j: int| 0 <= j < i ==> out@[j] == src@[start + j],
        decreases 32 - i,
    {
        out[i] = src[start + i];
        i = i + 1;
    }
    assert(out@ =~= src@.subrange(start as int, start + 32));
    out
}

/// The 64 bytes `a` followed by `b`.
pub fn concat32(a: &[u8; 32], b: &[u8; 32]) -> (out: [u8; 64])
    ensures
        out@ == a@ + b@,
{
    let mut out = [0u8; 64];
    let mut i: usize = 0;
    while i < 32
        invariant
            i <= 32,
            a@.len() == 32,
            b@.len() == 32,
            out@.len() == 64,
            forall|j: int| 0 <= j < i ==> out@[j] == a@[j] && out@[32 + j] == b@[j],
        decreases 32 - i,
    {
        out[i] = a[i];
        out[32 + i] = b[i];
        i = i + 1;
    }
    assert(out@ =~= a@ + b@);
    out
}

/// A 32-byte big-endian number reduced modulo the group order, as 32
/// big-endian bytes.
pub open spec fn reduced_mod_order(x: Seq<u8>) -> Seq<u8> {
    be_bytes(be_nat(x) % curve_order(), 32)
}

/// `x` reduced modulo the group order: a 32-byte number is below twice the
/// order, so at most one subtraction is needed.
pub fn reduce_mod_order(x: &[u8; 32]) -> (out: [u8; 32])
    ensures
        out@ == reduced_mod_order(x@),
{
    proof {
        lemma_curve_order_bytes();
        lemma_be_bound(x@);
        lemma_order_below_pow256_32();
        reveal_with_fuel(pow256, 33);
        assert(pow256(32) < 2 * curve_order());
    }
    if be_lt(x, &CURVE_ORDER) {
        proof {
            lemma_be_bytes_of_be_nat(x@);
            assert(be_nat(x@) % curve_order() == be_nat(x@)) by (nonlinear_arith)
                requires
                    be_nat(x@) < curve_order(),
            ;
        }
        *x
    } else {
        let out = be_sub(x, &CURVE_ORDER);
        proof {
            let v = be_nat(x@);
            let n = curve_order();
            assert(v % n == v - n) by (nonlinear_arith)
                requires
                    n <= v < 2 * n,
            ;
        }
        out
    }
}

/// The lowercase hexadecimal digit for `d` in `0..16`.
pub open spec fn hex_digit(d: int) -> char {
    if d == 0 {
        '0'
    } else if d == 1 {
        '1'
    } else if d == 2 {
        '2'
    } else if d == 3 {
        '3'
    } else if d == 4 {
        '4'
    } else if d == 5 {
        '5'
    } else if d == 6 {
        '6'
    } else if d == 7 {
        '7'
    } else if d == 8 {
        '8'
    } else if d == 9 {
        '9'
    } else if d == 10 {
        'a'
    } else if d == 11 {
        'b'
    } else if d == 12 {
        'c'
    } else if d == 13 {
        'd'
    } else if d == 14 {
        'e'
    } else {
        'f'
    }
}

/// The lowercase hexadecimal text of `bytes`: two digits per byte, the high
/// digit first.
pub open spec fn hex_text(bytes: Seq<u8>) -> Seq<char>
    decreases bytes.len(),
{
    if bytes.len() == 0 {
        Seq::empty()
    } else {
        hex_text(bytes.drop_last()) + seq![
            hex_digit(bytes.last() as int / 16),
            hex_digit(bytes.last() as int % 16),
        ]
    }
}

/// The lowercase hexadecimal digit for `d` as text.
fn hex_digit_text(d: u8) -> (text: &'static str)
    requires
        d < 16,
    ensures
        text@ == seq![hex_digit(d as int)],
{
    match d {
        0 => {
            proof {
                reveal_strlit("0");
            }
            "0"
        },
        1 => {
            proof {
                reveal_strlit("1");
            }
            "1"
        },
        2 => {
            proof {
                reveal_strlit("2");
            }
            "2"
        },
        3 => {
            proof {
                reveal_strlit("3");
            }
            "3"
        },
        4 => {
            proof {
                reveal_strlit("4");
            }
            "4"
        },
        5 => {
            proof {
                reveal_strlit("5");
            }
            "5"
        },
        6 => {
            proof {
                reveal_strlit("6");
            }
            "6"
        },
        7 => {
            proof {
                reveal_strlit("7");
            }
            "7"
        },
        8 => {
            proof {
                reveal_strlit("8");
            }
            "8"
        },
        9 => {
            proof {
                reveal_strlit("9");
            }
            "9"
        },
        10 => {
            proof {
                reveal_strlit("a");
            }
            "a"
        },
        11 => {
            proof {
                reveal_strlit("b");
            }
            "b"
        },
        12 => {
            proof {
                reveal_strlit("c");
            }
            "c"
        },
        13 => {
            proof {
                reveal_strlit("d");
            }
            "d"
        },
        14 => {
            proof {
                reveal_strlit("e");
            }
            "e"
        },
        _ => {
            proof {
                reveal_strlit("f");
            }
            "f"
        },
    }
}

/// Appends the hexadecimal text of `bytes` to `text`.
pub fn append_hex(text: &mut String, bytes: &[u8])
    ensures
        final(text)@ == old(text)@ + hex_text(bytes@),
{
    let n = bytes.len();
    let mut i: usize = 0;
    while i < n
        invariant
            n == bytes@.len(),
            i <= n,
            text@ == old(text)@ + hex_text(bytes@.take(i as int)),
        decreases n - i,
    {
        let b = bytes[i];
        text.append(hex_digit_text(b / 16));
        text.append(hex_digit_text(b % 16));
        assert(bytes@.take(i + 1).drop_last() =~= bytes@.take(i as int));
        assert(bytes@.take(i + 1).last() == b);
        i = i + 1;
    }
    assert(bytes@.take(n as int) =~= bytes@);
}

} // verus!
