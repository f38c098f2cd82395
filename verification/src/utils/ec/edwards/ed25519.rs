//! The curve ed25519: its field, the square root in the field, and the
//! decompression of a point.

use crate::utils::bigint::{
    biguint_add, biguint_modpow, biguint_mul, biguint_rem, biguint_sub, le_nat,
    lemma_le_nat_injective, pow256, to_fixed, to_vec,
};
use vstd::arithmetic::power::pow;
use vstd::prelude::*;

verus! {

/// The modulus of the field, `2^255 - 19`, in little-endian bytes.
pub const MODULUS_BYTES: [u8; 32] = [
    237,
    255,
    255,
    255,
    255,
    255,
    255,
    255,
    255,
    255,
    255,
    255,
    255,
    255,
    255,
    255,
    255,
    255,
    255,
    255,
    255,
    255,
    255,
    255,
    255,
    255,
    255,
    255,
    255,
    255,
    255,
    127,
];

/// The parameter `d` of the curve, in little-endian bytes.
pub const D_BYTES: [u8; 32] = [
    163,
    120,
    89,
    19,
    202,
    77,
    235,
    117,
    171,
    216,
    65,
    65,
    77,
    10,
    112,
    0,
    152,
    232,
    121,
    119,
    121,
    64,
    199,
    140,
    115,
    254,
    111,
    43,
    238,
    108,
    3,
    82,
];

/// A square root of minus one in the field, in little-endian bytes.
pub const SQRT_M1_BYTES: [u8; 32] = [
    176,
    160,
    14,
    74,
    39,
    27,
    238,
    196,
    120,
    228,
    47,
    173,
    6,
    24,
    67,
    47,
    167,
    215,
    251,
    61,
    153,
    0,
    77,
    43,
    11,
    223,
    193,
    79,
    128,
    36,
    131,
    43,
];

/// The exponent `(p + 3) / 8` of the square root, in little-endian bytes.
pub const SQRT_EXPONENT_BYTES: [u8; 32] = [
    254,
    255,
    255,
    255,
    255,
    255,
    255,
    255,
    255,
    255,
    255,
    255,
    255,
    255,
    255,
    255,
    255,
    255,
    255,
    255,
    255,
    255,
    255,
    255,
    255,
    255,
    255,
    255,
    255,
    255,
    255,
    15,
];

/// The exponent `p - 2` of the inverse, in little-endian bytes.
pub const INVERSE_EXPONENT_BYTES: [u8; 32] = [
    235,
    255,
    255,
    255,
    255,
    255,
    255,
    255,
    255,
    255,
    255,
    255,
    255,
    255,
    255,
    255,
    255,
    255,
    255,
    255,
    255,
    255,
    255,
    255,
    255,
    255,
    255,
    255,
    255,
    255,
    255,
    127,
];

/// The modulus of the field.
pub open spec fn modulus() -> nat {
    le_nat(MODULUS_BYTES@)
}

/// The parameter `d` of the curve.
pub open spec fn d_value() -> nat {
    le_nat(D_BYTES@)
}

/// A square root of minus one in the field.
pub open spec fn sqrt_m1() -> nat {
    le_nat(SQRT_M1_BYTES@)
}

/// The product of two elements of the field.
pub open spec fn mul_mod(a: nat, b: nat) -> nat {
    (a * b) % modulus()
}

/// The difference of two elements of the field.
pub open spec fn sub_mod(a: nat, b: nat) -> nat {
    ((a + modulus() - b % modulus()) as nat) % modulus()
}

/// A power of an element of the field.
pub open spec fn pow_mod(a: nat, e: nat) -> nat {
    (pow(a as int, e) % (modulus() as int)) as nat
}

/// The candidate for the square root of `a`: `a` to the `(p + 3) / 8`.
pub open spec fn sqrt_candidate(a: nat) -> nat {
    pow_mod(a, le_nat(SQRT_EXPONENT_BYTES@))
}

/// The even square root of `a` in the field, where the candidate or its
/// product with the root of minus one is a root.
pub open spec fn sqrt_spec(a: nat) -> Option<nat> {
    let beta = sqrt_candidate(a);
    let beta_squared = mul_mod(beta, beta);
    let root = if beta_squared == a % modulus() {
        Some(beta)
    } else if beta_squared == sub_mod(0, a) {
        Some(mul_mod(beta, sqrt_m1()))
    } else {
        None
    };
    match root {
        Some(r) => Some(
            if r % 2 == 1 {
                sub_mod(0, r)
            } else {
                r
            },
        ),
        None => None,
    }
}

/// The quotient `(y^2 - 1) / (d y^2 + 1)` whose root is `x`.
pub open spec fn x_squared(y: nat) -> nat {
    let yy = mul_mod(y, y);
    let u = sub_mod(yy, 1);
    let v = (mul_mod(yy, d_value()) + 1) % modulus();
    mul_mod(u, pow_mod(v, le_nat(INVERSE_EXPONENT_BYTES@)))
}

/// The coordinate `x` of the point with the coordinate `y` and the sign
/// given: the even root, or the modulus less the even root where the sign is
/// set.
pub open spec fn decompress_spec(y: nat, sign: bool) -> Option<nat> {
    match sqrt_spec(x_squared(y)) {
        Some(x) => Some(
            if sign {
                (modulus() - x) as nat
            } else {
                x
            },
        ),
        None => None,
    }
}

/// The modulus is positive and fits in thirty-two bytes.
pub proof fn lemma_modulus_bounds()
    ensures
        0 < modulus() < pow256(32),
{
    reveal_with_fuel(le_nat, 40);
    reveal_with_fuel(pow256, 40);
    let s = MODULUS_BYTES@;
    assert(s.len() == 32);
    assert(MODULUS_BYTES@[0] == 237);
    crate::utils::bigint::lemma_high_byte_bound(s, 0);
    lemma_fits(s);
}

/// Thirty-two bytes stand for a number below 256 to the thirty-second.
pub proof fn lemma_fits(s: Seq<u8>)
    ensures
        le_nat(s) < pow256(s.len()),
    decreases s.len(),
{
    if s.len() > 0 {
        lemma_fits(s.drop_first());
    }
}

fn field_modulus() -> (r: Vec<u8>)
    ensures
        le_nat(r@) == modulus(),
{
    to_vec(&MODULUS_BYTES)
}

/// The product of two elements of the field.
fn field_mul(a: &Vec<u8>, b: &Vec<u8>) -> (r: Vec<u8>)
    ensures
        le_nat(r@) == mul_mod(le_nat(a@), le_nat(b@)),
{
    proof {
        lemma_modulus_bounds();
    }
    let m = field_modulus();
    biguint_rem(&biguint_mul(a, b), &m)
}

/// The difference of two elements of the field.
fn field_sub(a: &Vec<u8>, b: &Vec<u8>) -> (r: Vec<u8>)
    ensures
        le_nat(r@) == sub_mod(le_nat(a@), le_nat(b@)),
{
    proof {
        lemma_modulus_bounds();
    }
    let m = field_modulus();
    let b_reduced = biguint_rem(b, &m);
    let lifted = biguint_add(a, &m);
    biguint_rem(&biguint_sub(&lifted, &b_reduced), &m)
}

/// A power of an element of the field.
fn field_pow(a: &Vec<u8>, e: &Vec<u8>) -> (r: Vec<u8>)
    ensures
        le_nat(r@) == pow_mod(le_nat(a@), le_nat(e@)),
{
    proof {
        lemma_modulus_bounds();
    }
    let m = field_modulus();
    biguint_modpow(a, e, &m)
}

/// Whether two byte strings stand for the same number below the modulus:
/// both are brought to thirty-two bytes and compared.
fn same_number(a: &Vec<u8>, b: &Vec<u8>) -> (r: bool)
    requires
        le_nat(a@) < modulus(),
        le_nat(b@) < modulus(),
    ensures
        r == (le_nat(a@) == le_nat(b@)),
{
    proof {
        lemma_modulus_bounds();
    }
    let x = to_fixed(a);
    let y = to_fixed(b);
    let mut same = true;
    let mut i: usize = 0;
    while i < 32
        invariant
            i <= 32,
            same == (forall|k: int| 0 <= k < i ==> x@[k] == y@[k]),
        decreases 32 - i,
    {
        if x[i] != y[i] {
            same = false;
        }
        i = i + 1;
    }
    proof {
        if same {
            assert(x@ =~= y@);
        }
        if le_nat(x@) == le_nat(y@) {
            lemma_le_nat_injective(x@, y@);
        }
    }
    same
}

/// The even square root of `a` in the field, or `None` where the method
/// finds none.
pub fn ed25519_sqrt(a: &Vec<u8>) -> (r: Option<Vec<u8>>)
    ensures
        match r {
            Some(x) => sqrt_spec(le_nat(a@)) == Some(le_nat(x@)),
            None => sqrt_spec(le_nat(a@)) is None,
        },
{
    proof {
        lemma_modulus_bounds();
    }
    let m = field_modulus();
    let zero: Vec<u8> = Vec::new();
    assert(le_nat(zero@) == 0);
    let exponent = to_vec(&SQRT_EXPONENT_BYTES);
    let beta = field_pow(a, &exponent);
    let beta_squared = field_mul(&beta, &beta);
    let a_reduced = biguint_rem(a, &m);
    let neg_a = field_sub(&zero, a);
    let root = if same_number(&beta_squared, &a_reduced) {
        beta
    } else if same_number(&beta_squared, &neg_a) {
        field_mul(&beta, &to_vec(&SQRT_M1_BYTES))
    } else {
        return None;
    };
    let two: Vec<u8> = vec![2u8];
    proof {
        reveal_with_fuel(le_nat, 3);
        assert(two@.drop_first() =~= Seq::<u8>::empty());
        assert(le_nat(two@) == 2);
    }
    let parity = biguint_rem(&root, &two);
    let one: Vec<u8> = vec![1u8];
    proof {
        reveal_with_fuel(le_nat, 3);
        assert(one@.drop_first() =~= Seq::<u8>::empty());
        assert(le_nat(one@) == 1);
        assert(1 < modulus()) by {
            reveal_with_fuel(le_nat, 3);
            crate::utils::bigint::lemma_high_byte_bound(MODULUS_BYTES@, 0);
            assert(pow256(0) == 1);
            assert(MODULUS_BYTES@[0] == 237);
        }
    }
    if same_number(&parity, &one) {
        Some(field_sub(&zero, &root))
    } else {
        Some(root)
    }
}

/// The coordinate `x` of the point of the curve with the coordinate `y` and
/// the sign given, in thirty-two little-endian bytes; or `None` where `y` is
/// the coordinate of no point that the method finds.
pub fn decompress(y_bytes: &[u8; 32], sign: bool) -> (r: Option<[u8; 32]>)
    ensures
        match r {
            Some(x) => decompress_spec(le_nat(y_bytes@), sign) == Some(le_nat(x@)),
            None => decompress_spec(le_nat(y_bytes@), sign) is None,
        },
{
    proof {
        lemma_modulus_bounds();
    }
    let m = field_modulus();
    let y = to_vec(y_bytes);
    let one: Vec<u8> = vec![1u8];
    proof {
        reveal_with_fuel(le_nat, 3);
        assert(one@.drop_first() =~= Seq::<u8>::empty());
        assert(le_nat(one@) == 1);
    }
    let yy = field_mul(&y, &y);
    let u = field_sub(&yy, &one);
    let dyy = field_mul(&yy, &to_vec(&D_BYTES));
    let v = biguint_rem(&biguint_add(&dyy, &one), &m);
    let v_inv = field_pow(&v, &to_vec(&INVERSE_EXPONENT_BYTES));
    let u_div_v = field_mul(&u, &v_inv);
    match ed25519_sqrt(&u_div_v) {
        None => None,
        Some(x) => {
            proof {
                assert(le_nat(x@) < modulus());
            }
            if sign {
                let neg = biguint_sub(&m, &x);
                Some(to_fixed(&neg))
            } else {
                Some(to_fixed(&x))
            }
        },
    }
}

} // verus!
