//! Natural numbers of any size, as little-endian bytes. The arithmetic is
//! done by the `num` crate; what is written here is how bytes stand for
//! numbers.

use num::BigUint;
use vstd::arithmetic::power::pow;
use vstd::prelude::*;

verus! {

/// The number that bytes stand for, least significant byte first.
pub open spec fn le_nat(b: Seq<u8>) -> nat
    decreases b.len(),
{
    if b.len() == 0 {
        0
    } else {
        b[0] as nat + 256 * le_nat(b.drop_first())
    }
}

/// 256 to the `n`.
pub open spec fn pow256(n: nat) -> nat
    decreases n,
{
    if n == 0 {
        1
    } else {
        256 * pow256((n - 1) as nat)
    }
}

/// The product of two numbers, by `BigUint`'s `*`; the bytes of the result
/// are those that `to_bytes_le` gives.
#[verifier::external_body]
pub(crate) fn biguint_mul(a: &Vec<u8>, b: &Vec<u8>) -> (r: Vec<u8>)
    ensures
        le_nat(r@) == le_nat(a@) * le_nat(b@),
{
    (BigUint::from_bytes_le(a) * BigUint::from_bytes_le(b)).to_bytes_le()
}

/// The sum of two numbers, by `BigUint`'s `+`.
#[verifier::external_body]
pub(crate) fn biguint_add(a: &Vec<u8>, b: &Vec<u8>) -> (r: Vec<u8>)
    ensures
        le_nat(r@) == le_nat(a@) + le_nat(b@),
{
    (BigUint::from_bytes_le(a) + BigUint::from_bytes_le(b)).to_bytes_le()
}

/// The difference of two numbers, by `BigUint`'s `-`, which does not take a
/// subtrahend greater than the minuend.
#[verifier::external_body]
pub(crate) fn biguint_sub(a: &Vec<u8>, b: &Vec<u8>) -> (r: Vec<u8>)
    requires
        le_nat(a@) >= le_nat(b@),
    ensures
        le_nat(r@) == le_nat(a@) - le_nat(b@),
{
    (BigUint::from_bytes_le(a) - BigUint::from_bytes_le(b)).to_bytes_le()
}

/// The remainder of a division, by `BigUint`'s `%`, which does not take a
/// divisor zero.
#[verifier::external_body]
pub(crate) fn biguint_rem(a: &Vec<u8>, m: &Vec<u8>) -> (r: Vec<u8>)
    requires
        le_nat(m@) > 0,
    ensures
        le_nat(r@) == le_nat(a@) % le_nat(m@),
{
    (BigUint::from_bytes_le(a) % BigUint::from_bytes_le(m)).to_bytes_le()
}

/// The quotient of a division, by `BigUint`'s `/`, which does not take a
/// divisor zero.
#[verifier::external_body]
pub(crate) fn biguint_div(a: &Vec<u8>, m: &Vec<u8>) -> (r: Vec<u8>)
    requires
        le_nat(m@) > 0,
    ensures
        le_nat(r@) == le_nat(a@) / le_nat(m@),
{
    (BigUint::from_bytes_le(a) / BigUint::from_bytes_le(m)).to_bytes_le()
}

/// A power modulo a number, by `BigUint::modpow`, which does not take a
/// modulus zero.
#[verifier::external_body]
pub(crate) fn biguint_modpow(a: &Vec<u8>, e: &Vec<u8>, m: &Vec<u8>) -> (r: Vec<u8>)
    requires
        le_nat(m@) > 0,
    ensures
        le_nat(r@) as int == pow(le_nat(a@) as int, le_nat(e@)) % (le_nat(m@) as int),
{
    BigUint::from_bytes_le(a).modpow(&BigUint::from_bytes_le(e), &BigUint::from_bytes_le(m)).to_bytes_le()
}

/// Bytes that are all zero stand for zero.
pub proof fn lemma_zeros_are_zero(b: Seq<u8>)
    requires
        forall|i: int| 0 <= i < b.len() ==> b[i] == 0,
    ensures
        le_nat(b) == 0,
    decreases b.len(),
{
    if b.len() > 0 {
        lemma_zeros_are_zero(b.drop_first());
    }
}

/// The number of a concatenation: the first part, and the second part
/// moved up by the length of the first.
pub proof fn lemma_le_nat_concat(a: Seq<u8>, b: Seq<u8>)
    ensures
        le_nat(a + b) == le_nat(a) + pow256(a.len()) * le_nat(b),
    decreases a.len(),
{
    if a.len() == 0 {
        assert(a + b =~= b);
        assert(pow256(0) == 1);
        assert(pow256(0) * le_nat(b) == le_nat(b)) by (nonlinear_arith)
            requires
                pow256(0) == 1,
        ;
    } else {
        assert((a + b).drop_first() =~= a.drop_first() + b);
        assert((a + b)[0] == a[0]);
        lemma_le_nat_concat(a.drop_first(), b);
        assert(le_nat(a + b) == a[0] as nat + 256 * le_nat(a.drop_first() + b));
        assert(256 * (pow256((a.len() - 1) as nat) * le_nat(b)) == pow256(a.len()) * le_nat(b))
            by (nonlinear_arith)
            requires
                pow256(a.len()) == 256 * pow256((a.len() - 1) as nat),
        ;
    }
}

/// A number with a byte that is not zero at place `k` is at least 256 to
/// the `k`.
pub proof fn lemma_high_byte_bound(b: Seq<u8>, k: int)
    requires
        0 <= k < b.len(),
        b[k] != 0,
    ensures
        le_nat(b) >= pow256(k as nat),
    decreases b.len(),
{
    if k > 0 {
        lemma_high_byte_bound(b.drop_first(), k - 1);
    }
}

/// The bytes of a vector as an array of thirty-two, where the number fits.
pub fn to_fixed(v: &Vec<u8>) -> (r: [u8; 32])
    requires
        le_nat(v@) < pow256(32),
    ensures
        le_nat(r@) == le_nat(v@),
{
    let mut r = [0u8; 32];
    let mut i: usize = 0;
    while i < 32
        invariant
            i <= 32,
            forall|k: int| 0 <= k < i && k < v@.len() ==> r@[k] == v@[k],
            forall|k: int| 0 <= k < 32 && (k >= i || k >= v@.len()) ==> r@[k] == 0,
        decreases 32 - i,
    {
        if i < v.len() {
            r[i] = v[i];
        }
        i = i + 1;
    }
    proof {
        if v@.len() <= 32 {
            let z = r@.subrange(v@.len() as int, 32);
            assert(r@ =~= v@ + z);
            lemma_le_nat_concat(v@, z);
            lemma_zeros_are_zero(z);
            assert(pow256(v@.len()) * le_nat(z) == 0) by (nonlinear_arith)
                requires
                    le_nat(z) == 0,
            ;
        } else {
            let tail = v@.subrange(32, v@.len() as int);
            assert(v@ =~= r@ + tail);
            lemma_le_nat_concat(r@, tail);
            assert forall|k: int| 0 <= k < tail.len() implies tail[k] == 0 by {
                if tail[k] != 0 {
                    lemma_high_byte_bound(v@, 32 + k);
                    lemma_pow256_monotone(32, (32 + k) as nat);
                }
            }
            lemma_zeros_are_zero(tail);
            assert(pow256(32) * le_nat(tail) == 0) by (nonlinear_arith)
                requires
                    le_nat(tail) == 0,
            ;
        }
    }
    r
}

/// The first thirty-two bytes of a number, with zeros where the number
/// has fewer.
pub open spec fn limbs_of(v: Seq<u8>) -> Seq<u8> {
    Seq::new(
        32,
        |i: int|
            if i < v.len() {
                v[i]
            } else {
                0u8
            },
    )
}

/// The first thirty-two bytes of a number, with zeros where the number
/// has fewer.
pub fn to_limbs(v: &Vec<u8>) -> (r: [u8; 32])
    ensures
        r@ == limbs_of(v@),
{
    let mut r = [0u8; 32];
    let mut i: usize = 0;
    while i < 32
        invariant
            i <= 32,
            forall|k: int| 0 <= k < i ==> r@[k] == limbs_of(v@)[k],
            forall|k: int| i <= k < 32 ==> r@[k] == 0,
        decreases 32 - i,
    {
        if i < v.len() {
            r[i] = v[i];
        }
        i = i + 1;
    }
    assert(r@ =~= limbs_of(v@));
    r
}

/// Powers of 256 grow.
pub proof fn lemma_pow256_monotone(a: nat, b: nat)
    requires
        a <= b,
    ensures
        pow256(a) <= pow256(b),
        pow256(a) >= 1,
    decreases b,
{
    if a < b {
        lemma_pow256_monotone(a, (b - 1) as nat);
    } else if a > 0 {
        lemma_pow256_monotone((a - 1) as nat, (a - 1) as nat);
    }
}

/// Two byte strings of one length that stand for the same number are the
/// same.
pub proof fn lemma_le_nat_injective(a: Seq<u8>, b: Seq<u8>)
    requires
        a.len() == b.len(),
        le_nat(a) == le_nat(b),
    ensures
        a == b,
    decreases a.len(),
{
    if a.len() > 0 {
        let x = le_nat(a.drop_first());
        let y = le_nat(b.drop_first());
        assert(a[0] as nat + 256 * x == b[0] as nat + 256 * y);
        assert(a[0] == b[0] && x == y);
        lemma_le_nat_injective(a.drop_first(), b.drop_first());
        assert(a =~= seq![a[0]] + a.drop_first());
        assert(b =~= seq![b[0]] + b.drop_first());
    } else {
        assert(a =~= b);
    }
}

/// The thirty-two bytes that stand for a number below 256 to the
/// thirty-second.
pub open spec fn bytes32_of(n: nat) -> Seq<u8> {
    choose|s: Seq<u8>| s.len() == 32 && le_nat(s) == n
}

/// Thirty-two bytes are the bytes of the number they stand for.
pub proof fn lemma_bytes32_of(s: Seq<u8>)
    requires
        s.len() == 32,
    ensures
        bytes32_of(le_nat(s)) == s,
{
    let t = bytes32_of(le_nat(s));
    assert(t.len() == 32 && le_nat(t) == le_nat(s));
    lemma_le_nat_injective(t, s);
}

/// Bytes stand for a number below 256 to their count.
pub proof fn lemma_le_nat_bound(s: Seq<u8>)
    ensures
        le_nat(s) < pow256(s.len()),
    decreases s.len(),
{
    if s.len() > 0 {
        lemma_le_nat_bound(s.drop_first());
    }
}

/// The first thirty-two bytes of a number are the bytes of the number
/// modulo 256 to the thirty-second.
pub proof fn lemma_limbs_of(v: Seq<u8>)
    ensures
        limbs_of(v) == bytes32_of(le_nat(v) % pow256(32)),
{
    let l = limbs_of(v);
    lemma_le_nat_bound(l);
    if v.len() <= 32 {
        let z = l.subrange(v.len() as int, 32);
        assert(l =~= v + z);
        lemma_le_nat_concat(v, z);
        lemma_zeros_are_zero(z);
        assert(pow256(v.len()) * le_nat(z) == 0) by (nonlinear_arith)
            requires
                le_nat(z) == 0,
        ;
        vstd::arithmetic::div_mod::lemma_small_mod(le_nat(l), pow256(32));
    } else {
        let tail = v.subrange(32, v.len() as int);
        assert(l =~= v.subrange(0, 32));
        assert(v =~= l + tail);
        lemma_le_nat_concat(l, tail);
        lemma_pow256_monotone(0, 32);
        vstd::arithmetic::div_mod::lemma_mod_multiples_vanish(
            le_nat(tail) as int,
            le_nat(l) as int,
            pow256(32) as int,
        );
        vstd::arithmetic::div_mod::lemma_small_mod(le_nat(l), pow256(32));
    }
    lemma_bytes32_of(l);
}

/// The bytes of an array as a vector.
pub fn to_vec(a: &[u8; 32]) -> (r: Vec<u8>)
    ensures
        r@ == a@,
{
    let mut r: Vec<u8> = Vec::new();
    let mut i: usize = 0;
    while i < 32
        invariant
            i <= 32,
            r@ == a@.subrange(0, i as int),
        decreases 32 - i,
    {
        r.push(a[i]);
        i = i + 1;
        assert(r@ =~= a@.subrange(0, i as int));
    }
    assert(a@.subrange(0, 32) =~= a@);
    r
}

/// The bytes of eight words, least significant first.
pub open spec fn words_to_bytes(ws: Seq<u32>) -> Seq<u8> {
    Seq::new(
        (4 * ws.len()) as nat,
        |i: int| crate::word::byte_at(ws[i / 4] as int, i % 4) as u8,
    )
}

/// The bytes of eight words, least significant first.
pub fn words_to_bytes_le(ws: &[u32; 8]) -> (r: [u8; 32])
    ensures
        r@ == words_to_bytes(ws@),
{
    let mut r = [0u8; 32];
    let mut i: usize = 0;
    while i < 8
        invariant
            i <= 8,
            forall|k: int| 0 <= k < 4 * i ==> r@[k] == words_to_bytes(ws@)[k],
        decreases 8 - i,
    {
        let b = crate::word::u32_to_le_bytes(ws[i]);
        proof {
            crate::word::lemma_decompose_recompose(ws[i as int]);
            assert(forall|j: int|
                0 <= j < 4 ==> crate::word::bytes_view(b)[j] == crate::word::byte_at(
                    ws[i as int] as int,
                    j,
                ));
            assert(crate::word::bytes_view(b)[0] == b[0]);
            assert(crate::word::bytes_view(b)[1] == b[1]);
            assert(crate::word::bytes_view(b)[2] == b[2]);
            assert(crate::word::bytes_view(b)[3] == b[3]);
        }
        r[4 * i] = b[0];
        r[4 * i + 1] = b[1];
        r[4 * i + 2] = b[2];
        r[4 * i + 3] = b[3];
        i = i + 1;
    }
    assert(r@ =~= words_to_bytes(ws@));
    r
}

/// The eight words of thirty-two bytes, least significant first.
pub open spec fn bytes_to_words(bs: Seq<u8>) -> Seq<u32> {
    Seq::new(
        (bs.len() / 4) as nat,
        |i: int|
            (bs[4 * i] + 256 * bs[4 * i + 1] + 65536 * bs[4 * i + 2] + 16777216 * bs[4 * i + 3])
                as u32,
    )
}

/// The eight words of thirty-two bytes, least significant first.
pub fn bytes_to_words_le(bs: &[u8; 32]) -> (r: [u32; 8])
    ensures
        r@ == bytes_to_words(bs@),
{
    let mut r = [0u32; 8];
    let mut i: usize = 0;
    while i < 8
        invariant
            i <= 8,
            forall|k: int| 0 <= k < i ==> r@[k] == bytes_to_words(bs@)[k],
        decreases 8 - i,
    {
        let b = [bs[4 * i], bs[4 * i + 1], bs[4 * i + 2], bs[4 * i + 3]];
        r[i] = crate::word::u32_from_le_bytes(b);
        i = i + 1;
    }
    assert(r@ =~= bytes_to_words(bs@));
    r
}

} // verus!
