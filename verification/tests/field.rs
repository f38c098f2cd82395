use p3_baby_bear::BabyBear;
use p3_field::{AbstractField, Field, PrimeField32, TwoAdicField};
use zkvm_core::extension::Ext;
use zkvm_core::field::{Felt, P};
use zkvm_core::stark::domain::Domain;
use zkvm_core::word::{u32_from_le_bytes, u32_to_le_bytes, Word};

fn f(n: u32) -> Felt {
    Felt::from_canonical_u32(n)
}

fn e(c0: u32, c1: u32, c2: u32, c3: u32) -> Ext {
    Ext::new(f(c0), f(c1), f(c2), f(c3))
}

#[test]
fn the_modulus_is_that_of_baby_bear() {
    assert_eq!(P, 2013265921);
    assert_eq!(P, BabyBear::ORDER_U32);
}

#[test]
fn sums_differences_and_products_wrap_at_the_modulus() {
    assert_eq!(f(P - 1).add(f(1)), f(0));
    assert_eq!(f(P - 1).add(f(P - 1)), f(P - 2));
    assert_eq!(f(0).sub(f(1)), f(P - 1));
    assert_eq!(f(5).sub(f(3)), f(2));
    assert_eq!(f(P - 1).mul(f(P - 1)), f(1));
    assert_eq!(f(1 << 16).mul(f(1 << 16)), f(((1u64 << 32) % P as u64) as u32));
    assert_eq!(f(7).mul(f(6)), f(42));
}

#[test]
fn elements_are_made_from_numbers_and_flags() {
    assert_eq!(Felt::zero().as_canonical_u32(), 0);
    assert_eq!(Felt::one().as_canonical_u32(), 1);
    assert_eq!(Felt::from_wrapped_u32(P).as_canonical_u32(), 0);
    assert_eq!(Felt::from_wrapped_u32(u32::MAX).as_canonical_u32(), u32::MAX % P);
    assert_eq!(Felt::from_wrapped_u32(P + 5).as_canonical_u32(), 5);
    assert_eq!(Felt::from_canonical_u8(200).as_canonical_u32(), 200);
    assert_eq!(Felt::from_bool(true), Felt::one());
    assert_eq!(Felt::from_bool(false), Felt::zero());
}

#[test]
fn the_inverse_of_an_element() {
    assert_eq!(f(0).try_inverse(), None);
    assert_eq!(f(1).try_inverse(), Some(f(1)));
    assert_eq!(f(2).try_inverse(), Some(f((P + 1) / 2)));
    let x = f(123456789);
    assert_eq!(x.mul(x.try_inverse().unwrap()), f(1));
}

#[test]
fn the_extension_is_by_a_fourth_root_of_eleven() {
    let x = e(0, 1, 0, 0);
    assert_eq!(x.mul(x), e(0, 0, 1, 0));
    assert_eq!(x.mul(x).mul(x), e(0, 0, 0, 1));
    assert_eq!(x.mul(x).mul(x).mul(x), e(11, 0, 0, 0));
    assert_eq!(e(1, 2, 3, 4).add(e(P - 1, 0, 5, 6)), e(0, 2, 8, 10));
    assert_eq!(e(1, 2, 3, 4).sub(e(2, 2, 5, 4)), e(P - 1, 0, P - 2, 0));
    // (1 + 2x)(3 + x^3) = 3 + 6x + x^3 + 2x^4 = 25 + 6x + x^3.
    assert_eq!(e(1, 2, 0, 0).mul(e(3, 0, 0, 1)), e(25, 6, 0, 1));
    assert_eq!(Ext::from_base(f(9)), e(9, 0, 0, 0));
    assert_eq!(Ext::zero(), e(0, 0, 0, 0));
    assert_eq!(Ext::one(), e(1, 0, 0, 0));
    assert!(e(1, 2, 3, 4).equals(&e(1, 2, 3, 4)));
    assert!(!e(1, 2, 3, 4).equals(&e(1, 2, 3, 5)));
}

#[test]
fn the_inverse_in_the_extension() {
    assert_eq!(Ext::zero().try_inverse(), None);
    let a = e(5, 7, 11, 13);
    let inverse = a.try_inverse().unwrap();
    assert_ne!(inverse, a);
    assert_eq!(a.mul(inverse), Ext::one());
    // x * x^3 = 11, so the inverse of x is x^3 / 11.
    let eleventh = f(11).try_inverse().unwrap();
    assert_eq!(e(0, 1, 0, 0).try_inverse(), Some(Ext::new(f(0), f(0), f(0), eleventh)));
}

#[test]
fn a_word_and_its_bytes() {
    for x in [0u32, 1, 255, 256, 0x1234_5678, 0xdead_beef, u32::MAX] {
        let bytes = u32_to_le_bytes(x);
        assert_eq!(bytes, x.to_le_bytes());
        assert_eq!(u32_from_le_bytes(bytes), x);
        assert_eq!(Word::<u8>::from_u32(x).to_u32(), x);
        let limbs = Word::<Felt>::from_u32(x);
        let back: u32 = (0..4).map(|i| limbs.0[i].as_canonical_u32() << (8 * i)).sum();
        assert_eq!(back, x);
    }
    assert_eq!(u32_to_le_bytes(0x1234_5678), [0x78, 0x56, 0x34, 0x12]);
    assert_eq!(Word::<Felt>::zero().0, [Felt::zero(); 4]);
}

fn bb(x: BabyBear) -> Felt {
    f(x.as_canonical_u32())
}

#[test]
fn the_vanishing_polynomial_of_a_coset() {
    // On the subgroup of order four it is x^4 - 1.
    let domain = Domain { log_n: 2, shift: f(1) };
    assert_eq!(domain.zp_at_point(&e(2, 0, 0, 0)), Some(e(15, 0, 0, 0)));
    // x^4 = 11 for the root x of the extension.
    assert_eq!(domain.zp_at_point(&e(0, 1, 0, 0)), Some(e(10, 0, 0, 0)));
    // On the coset shifted by three it is (x / 3)^4 - 1.
    let shifted = Domain { log_n: 2, shift: f(3) };
    let u = BabyBear::from_canonical_u32(2) * BabyBear::from_canonical_u32(3).inverse();
    let expected = u * u * u * u - BabyBear::one();
    assert_eq!(
        shifted.zp_at_point(&e(2, 0, 0, 0)),
        Some(Ext::from_base(bb(expected)))
    );
    assert_eq!(Domain { log_n: 2, shift: f(0) }.zp_at_point(&e(2, 0, 0, 0)), None);
    // A subgroup of that size does not exist.
    assert_eq!(Domain { log_n: 28, shift: f(1) }.zp_at_point(&e(2, 0, 0, 0)), None);
    assert_eq!(Domain { log_n: usize::MAX, shift: f(1) }.zp_at_point(&e(2, 0, 0, 0)), None);
    assert!(Domain { log_n: 27, shift: f(1) }.zp_at_point(&e(2, 0, 0, 0)).is_some());
    assert_eq!(domain.first_point(), e(1, 0, 0, 0));
    assert_eq!(shifted.first_point(), e(3, 0, 0, 0));
}

#[test]
fn the_selectors_of_a_coset() {
    let domain = Domain { log_n: 2, shift: f(1) };
    let s = domain.selectors_at_point(&e(2, 0, 0, 0)).unwrap();
    let g_inverse = BabyBear::two_adic_generator(2).inverse();
    let two = BabyBear::from_canonical_u32(2);
    let fifteen = BabyBear::from_canonical_u32(15);
    // z / (x - 1), z / (x - 1/g), x - 1/g and 1 / z, for z = x^4 - 1.
    assert_eq!(s.is_first_row, e(15, 0, 0, 0));
    assert_eq!(s.is_last_row, Ext::from_base(bb(fifteen * (two - g_inverse).inverse())));
    assert_eq!(s.is_transition, Ext::from_base(bb(two - g_inverse)));
    assert_eq!(s.inv_zeroifier, Ext::from_base(bb(fifteen.inverse())));
    // A point of the domain has no selectors: one is there, two is not.
    assert!(domain.selectors_at_point(&e(1, 0, 0, 0)).is_none());
    assert!(Domain { log_n: 2, shift: f(0) }.selectors_at_point(&e(2, 0, 0, 0)).is_none());
    assert!(Domain { log_n: 28, shift: f(1) }.selectors_at_point(&e(2, 0, 0, 0)).is_none());
}
