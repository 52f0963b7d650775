use bls12_field::conversions::u64_slice_to_biguint;
use bls12_field::limbs::{mul_12_6, mul_6_6};
use bls12_field::{Bls12Base, Bls12Scalar};
use num::{BigUint, FromPrimitive, One, Zero};

#[test]
fn test_mul_6_6() {
    let a = [11111111u64, 22222222, 33333333, 44444444, 55555555, 66666666];
    let b = [77777777u64, 88888888, 99999999, 11111111, 22222222, 33333333];
    assert_eq!(
        u64_slice_to_biguint(&mul_6_6(a, b)),
        u64_slice_to_biguint(&a) * u64_slice_to_biguint(&b)
    );
}

#[test]
fn test_mul_12_6() {
    let a = [
        11111111u64, 22222222, 33333333, 44444444, 55555555, 66666666, 77777777, 88888888,
        99999999, 11111111, 22222222, 33333333,
    ];
    let b = [77777777u64, 88888888, 99999999, 11111111, 22222222, 33333333];
    assert_eq!(
        u64_slice_to_biguint(&mul_12_6(a, b)),
        u64_slice_to_biguint(&a) * u64_slice_to_biguint(&b)
    );
}

#[test]
fn bls12base_to_and_from_canonical() {
    let a = [1, 2, 3, 4, 0, 0];
    let a_biguint = u64_slice_to_biguint(&a);
    let order_biguint = u64_slice_to_biguint(&Bls12Base::ORDER);
    let r_biguint = u64_slice_to_biguint(&Bls12Base::R);

    let a_bls12base = Bls12Base::from_canonical(a);
    assert_eq!(
        u64_slice_to_biguint(&a_bls12base.limbs),
        &a_biguint * &r_biguint % &order_biguint
    );
    assert_eq!(u64_slice_to_biguint(&a_bls12base.to_canonical()), a_biguint);
}

#[test]
fn bls12scalar_to_and_from_canonical() {
    let a = [1, 2, 3, 4];
    let a_biguint = u64_slice_to_biguint(&a);
    let order_biguint = u64_slice_to_biguint(&Bls12Scalar::ORDER);
    let r_biguint = u64_slice_to_biguint(&Bls12Scalar::R);

    let a_bls12scalar = Bls12Scalar::from_canonical(a);
    assert_eq!(
        u64_slice_to_biguint(&a_bls12scalar.limbs),
        &a_biguint * &r_biguint % &order_biguint
    );
    assert_eq!(u64_slice_to_biguint(&a_bls12scalar.to_canonical()), a_biguint);
}

#[test]
fn test_mul_bls12_base() {
    let a = [1, 2, 3, 4, 0, 0];
    let b = [3, 4, 5, 6, 0, 0];

    let a_biguint = u64_slice_to_biguint(&a);
    let b_biguint = u64_slice_to_biguint(&b);
    let order_biguint = u64_slice_to_biguint(&Bls12Base::ORDER);

    let a_blsbase = Bls12Base::from_canonical(a);
    let b_blsbase = Bls12Base::from_canonical(b);

    assert_eq!(
        u64_slice_to_biguint(&(a_blsbase * b_blsbase).to_canonical()),
        a_biguint * b_biguint % order_biguint
    );
}

#[test]
fn test_bls12_rand() {
    let random_element = Bls12Scalar::rand();

    for i in 0..4 {
        assert_ne!(random_element.limbs[i], 0x0);
    }
}

#[test]
fn exp() {
    assert_eq!(Bls12Scalar::three().exp(BigUint::zero()), Bls12Scalar::one());
    assert_eq!(Bls12Scalar::three().exp(BigUint::one()), Bls12Scalar::three());
    assert_eq!(
        Bls12Scalar::three().exp(BigUint::from_u8(2).unwrap()),
        Bls12Scalar::from_canonical_u64(9)
    );
    assert_eq!(
        Bls12Scalar::three().exp(BigUint::from_u8(3).unwrap()),
        Bls12Scalar::from_canonical_u64(27)
    );
}

#[test]
fn negation() {
    for i in 0..25 {
        let i_blsbase = Bls12Base::from_canonical_u64(i);
        let i_blsscalar = Bls12Scalar::from_canonical_u64(i);
        assert_eq!(i_blsbase + -i_blsbase, Bls12Base::zero());
        assert_eq!(i_blsscalar + -i_blsscalar, Bls12Scalar::zero());
    }
}

#[test]
fn multiplicative_inverse() {
    for i in 0..25 {
        let i_blsbase = Bls12Base::from_canonical_u64(i);
        let i_blsscalar = Bls12Scalar::from_canonical_u64(i);
        let i_inv_blsbase = i_blsbase.multiplicative_inverse();
        let i_inv_blsscalar = i_blsscalar.multiplicative_inverse();
        if i == 0 {
            assert!(i_inv_blsbase.is_none());
            assert!(i_inv_blsscalar.is_none());
        } else {
            assert_eq!(i_blsbase * i_inv_blsbase.unwrap(), Bls12Base::one());
            assert_eq!(i_blsscalar * i_inv_blsscalar.unwrap(), Bls12Scalar::one());
        }
    }
}

#[test]
fn batch_multiplicative_inverse() {
    let mut x = Vec::new();
    for i in 1..25 {
        x.push(Bls12Base::from_canonical_u64(i));
    }

    let x_inv = Bls12Base::batch_multiplicative_inverse(&x);
    assert_eq!(x.len(), x_inv.len());

    for (x_i, x_i_inv) in x.into_iter().zip(x_inv) {
        assert_eq!(x_i * x_i_inv, Bls12Base::one());
    }
}

#[test]
fn test_div2() {
    assert_eq!(Bls12Base::div2([40, 0, 0, 0, 0, 0]), [20, 0, 0, 0, 0, 0]);

    assert_eq!(
        Bls12Base::div2([
            15668009436471190370,
            3102040391300197453,
            4166322749169705801,
            3518225024268476800,
            11231577158546850254,
            226224965816356276
        ]),
        [
            17057376755090370993,
            10774392232504874534,
            2083161374584852900,
            1759112512134238400,
            5615788579273425127,
            113112482908178138
        ]
    );
}

#[test]
fn roots_of_unity() {
    for n_power in 0..10 {
        let n = 1 << n_power as u64;
        let root = Bls12Scalar::primitive_root_of_unity(n_power);

        assert_eq!(root.exp(BigUint::from_u64(n).unwrap()), Bls12Scalar::one());

        if n > 1 {
            assert_ne!(root.exp(BigUint::from_u64(n - 1).unwrap()), Bls12Scalar::one())
        }
    }
}

#[test]
fn primitive_root_order() {
    for n_power in 0..10 {
        let root = Bls12Scalar::primitive_root_of_unity(n_power);
        let order = Bls12Scalar::generator_order(root);
        assert_eq!(order, 1 << n_power, "2^{}'th primitive root", n_power);
    }
}
