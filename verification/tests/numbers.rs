use std::cmp::Ordering;
use std::str::FromStr;

use bls12_field::conversions::{biguint_to_u64_vec, u64_slice_to_biguint};
use bls12_field::limbs::{
    add_4_4, add_6_6, cmp_4_4, cmp_5_4, cmp_6_6, cmp_7_6, limbs_equal, mul_4_4, mul_6_6, mul_8_4,
    split_wide, sub_4_4, sub_5_4, sub_6_6, sub_7_6,
};
use bls12_field::num_util::modinv;
use num::{BigUint, FromPrimitive, One, Zero};

fn big(n: u64) -> BigUint {
    BigUint::from_u64(n).unwrap()
}

#[test]
fn slices_to_numbers() {
    assert_eq!(u64_slice_to_biguint(&[]), BigUint::zero());
    assert_eq!(u64_slice_to_biguint(&[0, 0]), BigUint::zero());
    assert_eq!(u64_slice_to_biguint(&[7]), big(7));
    assert_eq!(
        u64_slice_to_biguint(&[1, 2]),
        BigUint::from_str("36893488147419103233").unwrap()
    );
    assert_eq!(
        u64_slice_to_biguint(&[0x0102030405060708]),
        big(0x0102030405060708)
    );
}

#[test]
fn numbers_to_limbs() {
    assert_eq!(biguint_to_u64_vec(BigUint::zero(), 0), vec![0]);
    assert_eq!(biguint_to_u64_vec(BigUint::zero(), 4), vec![0, 0, 0, 0]);
    assert_eq!(biguint_to_u64_vec(BigUint::one(), 3), vec![1, 0, 0]);
    assert_eq!(
        biguint_to_u64_vec(BigUint::from_str("36893488147419103233").unwrap(), 1),
        vec![1, 2]
    );
    assert_eq!(
        biguint_to_u64_vec(big(0x0102030405060708), 1),
        vec![0x0102030405060708]
    );
}

#[test]
fn conversions_round_trip() {
    let limbs = [u64::MAX, 0, 1, 0x0102030405060708, u64::MAX];
    assert_eq!(biguint_to_u64_vec(u64_slice_to_biguint(&limbs), 5), limbs.to_vec());
}

#[test]
fn modular_inverses() {
    assert_eq!(modinv(big(3), big(7)), Some(big(5)));
    assert_eq!(modinv(big(10), big(7)), Some(big(5)));
    assert_eq!(modinv(big(1), big(2)), Some(big(1)));
    assert_eq!(modinv(big(17), big(3120)), Some(big(2753)));
    assert_eq!(modinv(big(0), big(1)), Some(big(0)));
    assert_eq!(modinv(big(5), big(1)), Some(big(0)));
}

#[test]
fn no_modular_inverse() {
    assert_eq!(modinv(big(0), big(7)), None);
    assert_eq!(modinv(big(2), big(4)), None);
    assert_eq!(modinv(big(14), big(7)), None);
    assert_eq!(modinv(big(15), big(6)), None);
}

#[test]
fn sums_carry() {
    assert_eq!(add_4_4([u64::MAX; 4], [1, 0, 0, 0]), [0, 0, 0, 0, 1]);
    assert_eq!(
        add_4_4([u64::MAX; 4], [u64::MAX; 4]),
        [u64::MAX - 1, u64::MAX, u64::MAX, u64::MAX, 1]
    );
    assert_eq!(add_6_6([u64::MAX; 6], [1, 0, 0, 0, 0, 0]), [0, 0, 0, 0, 0, 0, 1]);
    assert_eq!(add_6_6([1, 2, 3, 4, 5, 6], [6, 5, 4, 3, 2, 1]), [7, 7, 7, 7, 7, 7, 0]);
}

#[test]
fn differences_borrow() {
    assert_eq!(sub_4_4([0, 0, 0, 1], [1, 0, 0, 0]), [u64::MAX, u64::MAX, u64::MAX, 0]);
    assert_eq!(sub_5_4([0, 0, 0, 0, 1], [1, 0, 0, 0]), [u64::MAX, u64::MAX, u64::MAX, u64::MAX, 0]);
    assert_eq!(sub_6_6([9, 8, 7, 6, 5, 4], [1, 2, 3, 4, 5, 4]), [8, 6, 4, 2, 0, 0]);
    assert_eq!(
        sub_7_6([0, 0, 0, 0, 0, 0, 1], [1, 0, 0, 0, 0, 0]),
        [u64::MAX, u64::MAX, u64::MAX, u64::MAX, u64::MAX, u64::MAX, 0]
    );
}

#[test]
fn subtraction_undoes_addition() {
    let a = [u64::MAX, 3, u64::MAX, 5];
    let b = [9, u64::MAX, 7, u64::MAX];
    assert_eq!(sub_5_4(add_4_4(a, b), b), [a[0], a[1], a[2], a[3], 0]);
}

#[test]
fn comparisons() {
    assert_eq!(cmp_4_4([1, 0, 0, 0], [0, 1, 0, 0]), Ordering::Less);
    assert_eq!(cmp_4_4([0, 1, 0, 0], [1, 0, 0, 0]), Ordering::Greater);
    assert_eq!(cmp_4_4([1, 2, 3, 4], [1, 2, 3, 4]), Ordering::Equal);
    assert_eq!(cmp_5_4([0, 0, 0, 0, 1], [u64::MAX; 4]), Ordering::Greater);
    assert_eq!(cmp_5_4([5, 0, 0, 0, 0], [6, 0, 0, 0]), Ordering::Less);
    assert_eq!(cmp_6_6([0, 0, 0, 0, 0, 1], [u64::MAX, 0, 0, 0, 0, 0]), Ordering::Greater);
    assert_eq!(cmp_7_6([0, 0, 0, 0, 0, 0, 1], [u64::MAX; 6]), Ordering::Greater);
    assert_eq!(cmp_7_6([1, 2, 3, 4, 5, 6, 0], [1, 2, 3, 4, 5, 6]), Ordering::Equal);
    assert!(limbs_equal([1, 2, 3], [1, 2, 3]));
    assert!(!limbs_equal([1, 2, 3], [1, 2, 4]));
}

#[test]
fn products() {
    assert_eq!(
        mul_4_4([u64::MAX; 4], [u64::MAX; 4]),
        [1, 0, 0, 0, u64::MAX - 1, u64::MAX, u64::MAX, u64::MAX]
    );
    assert_eq!(
        mul_6_6([u64::MAX; 6], [u64::MAX; 6]),
        [
            1,
            0,
            0,
            0,
            0,
            0,
            u64::MAX - 1,
            u64::MAX,
            u64::MAX,
            u64::MAX,
            u64::MAX,
            u64::MAX
        ]
    );
    let a = [11111111u64, 22222222, 33333333, 44444444, 55555555, 66666666, 77777777, u64::MAX];
    let b = [77777777u64, u64::MAX, 99999999, 11111111];
    assert_eq!(
        u64_slice_to_biguint(&mul_8_4(a, b)),
        u64_slice_to_biguint(&a) * u64_slice_to_biguint(&b)
    );
}

#[test]
fn wide_values_split() {
    assert_eq!(split_wide((7u128 << 64) + 5), (5, 7));
    assert_eq!(split_wide(u128::MAX), (u64::MAX, u64::MAX));
}
