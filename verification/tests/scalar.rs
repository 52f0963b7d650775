use bls12_field::Bls12Scalar;
use num::{BigUint, FromPrimitive};

const ORDER_LESS_ONE: [u64; 4] = [
    725501752471715840,
    6461107452199829505,
    6968279316240510977,
    1345280370688173398,
];

fn element(n: u64) -> Bls12Scalar {
    Bls12Scalar::from_canonical_u64(n)
}

#[test]
fn scalar_constants() {
    assert_eq!(Bls12Scalar::zero().to_canonical(), [0; 4]);
    assert_eq!(Bls12Scalar::one().to_canonical(), [1, 0, 0, 0]);
    assert_eq!(Bls12Scalar::two().to_canonical(), [2, 0, 0, 0]);
    assert_eq!(Bls12Scalar::three().to_canonical(), [3, 0, 0, 0]);
    assert_eq!(Bls12Scalar::one().limbs, Bls12Scalar::R);
    assert_eq!(Bls12Scalar::BITS, 253);
    assert_eq!(64 * 3 + 64 - Bls12Scalar::ORDER[3].leading_zeros(), 253);
    assert_eq!(Bls12Scalar::TWO_ADICITY, 47);
    assert_eq!(ORDER_LESS_ONE[0].trailing_zeros(), 47);
}

#[test]
fn scalar_canonical_is_reduced() {
    assert_eq!(Bls12Scalar::from_canonical(Bls12Scalar::ORDER), Bls12Scalar::zero());
    assert_eq!(
        Bls12Scalar::from_canonical([u64::MAX; 4]).to_canonical(),
        [9015221291577245682, 8239323489949974514, 1646089257421115374, 958099254763297437]
    );
    let x = Bls12Scalar::from_canonical([9, 8, 7, 6]);
    assert_eq!(Bls12Scalar::from_canonical(x.to_canonical()), x);
}

#[test]
fn scalar_is_zero() {
    assert!(Bls12Scalar::zero().is_zero());
    assert!((element(3) + -element(3)).is_zero());
    assert!(!Bls12Scalar::one().is_zero());
}

#[test]
fn scalar_sums() {
    let minus_one = Bls12Scalar::from_canonical(ORDER_LESS_ONE);
    assert_eq!(-Bls12Scalar::one(), minus_one);
    assert_eq!(-Bls12Scalar::zero(), Bls12Scalar::zero());
    assert_eq!(-(-element(17)), element(17));
    assert_eq!(minus_one + element(2), Bls12Scalar::one());
    assert_eq!(minus_one + minus_one, -element(2));
    assert_eq!(element(40) + element(2), element(42));
}

#[test]
fn scalar_products() {
    let minus_one = Bls12Scalar::from_canonical(ORDER_LESS_ONE);
    assert_eq!(minus_one * minus_one, Bls12Scalar::one());
    assert_eq!(minus_one.square(), Bls12Scalar::one());
    assert_eq!(element(6) * element(7), element(42));
    assert_eq!(element(12).square(), element(144));
}

#[test]
fn scalar_field_laws() {
    let x = Bls12Scalar::from_canonical([9, 8, 7, 6]);
    let y = -element(12345);
    let z = Bls12Scalar::from_canonical(ORDER_LESS_ONE);
    assert_eq!(x + y, y + x);
    assert_eq!((x + y) + z, x + (y + z));
    assert_eq!(x * y, y * x);
    assert_eq!((x * y) * z, x * (y * z));
    assert_eq!(x * (y + z), x * y + x * z);
    assert_eq!(x + Bls12Scalar::zero(), x);
    assert_eq!(x * Bls12Scalar::one(), x);
    assert_eq!(x * Bls12Scalar::zero(), Bls12Scalar::zero());
}

#[test]
fn scalar_inverse_values() {
    assert_eq!(Bls12Scalar::zero().multiplicative_inverse(), None);
    assert_eq!(Bls12Scalar::one().multiplicative_inverse(), Some(Bls12Scalar::one()));
    assert_eq!(
        Bls12Scalar::two().multiplicative_inverse().unwrap().to_canonical(),
        [9586122913090633729, 12453925762954690560, 3484139658120255488, 672640185344086699]
    );
    let x = Bls12Scalar::from_canonical([9, 8, 7, 6]);
    let inverse = x.multiplicative_inverse().unwrap();
    assert_eq!(x * inverse, Bls12Scalar::one());
    assert_eq!(inverse.multiplicative_inverse(), Some(x));
}

#[test]
fn scalar_inverse_of_unreduced_limbs() {
    let zero = Bls12Scalar { limbs: Bls12Scalar::ORDER };
    assert_eq!(zero.multiplicative_inverse(), None);
}

#[test]
fn scalar_quotient() {
    assert_eq!(
        (element(7) / element(3)).to_canonical(),
        [12781497217454178307, 16605234350606254080, 10794434235396857856, 896853580458782265]
    );
    let x = Bls12Scalar::from_canonical([9, 8, 7, 6]);
    assert_eq!(x / element(9) * element(9), x);
    assert_eq!(x * element(9) / element(9), x);
}

#[test]
fn scalar_batch_inverse_agrees() {
    let x = [element(2), Bls12Scalar::from_canonical([9, 8, 7, 6]), -element(9)];
    let inverses = Bls12Scalar::batch_multiplicative_inverse(&x);
    assert_eq!(inverses.len(), 3);
    for i in 0..3 {
        assert_eq!(Some(inverses[i]), x[i].multiplicative_inverse());
    }
}

#[test]
fn exp_values() {
    assert_eq!(
        Bls12Scalar::three().exp(BigUint::from_u64(1000).unwrap()).to_canonical(),
        [14001611009387328222, 6087868783845647186, 17319837097681368097, 295494641638303571]
    );
    let power = BigUint::from_u64(u64::MAX).unwrap() + BigUint::from_u64(6).unwrap();
    assert_eq!(
        Bls12Scalar::three().exp(power).to_canonical(),
        [11161071645615044410, 17188391411696990284, 17629239088891800144, 728139591431413913]
    );
    assert_eq!(
        Bls12Scalar::zero().exp(BigUint::from_u64(0).unwrap()),
        Bls12Scalar::one()
    );
    assert_eq!(
        Bls12Scalar::zero().exp(BigUint::from_u64(5).unwrap()),
        Bls12Scalar::zero()
    );
}

#[test]
fn exp_of_bytes() {
    assert_eq!(Bls12Scalar::three().exp_bytes_le(&[]), Bls12Scalar::one());
    assert_eq!(Bls12Scalar::three().exp_bytes_le(&[4]), element(81));
    assert_eq!(Bls12Scalar::three().exp_bytes_le(&[4, 0, 0]), element(81));
    assert_eq!(
        Bls12Scalar::three().exp_bytes_le(&[0xe8, 0x03]),
        Bls12Scalar::three().exp(BigUint::from_u64(1000).unwrap())
    );
}

#[test]
fn exponents_add_and_multiply() {
    let x = element(12345);
    let power = |n: u64| x.exp(BigUint::from_u64(n).unwrap());
    assert_eq!(power(300) * power(77), power(377));
    assert_eq!(power(300).exp(BigUint::from_u64(77).unwrap()), power(300 * 77));
    let y = element(67);
    let e = BigUint::from_u64(513).unwrap();
    assert_eq!((x * y).exp(e.clone()), x.exp(e.clone()) * y.exp(e));
}

#[test]
fn root_values() {
    assert_eq!(Bls12Scalar::primitive_root_of_unity(0), Bls12Scalar::one());
    assert_eq!(Bls12Scalar::primitive_root_of_unity(1), -Bls12Scalar::one());
    assert_eq!(
        Bls12Scalar::primitive_root_of_unity(2).to_canonical(),
        [10311624665562349569, 14944710915545628673, 2588746559005780992, 0]
    );
    assert_eq!(
        Bls12Scalar::primitive_root_of_unity(47).to_canonical(),
        [8243955299554395996, 16555779478846559437, 5191257978691384219, 1103198112882154294]
    );
}

#[test]
fn roots_square_to_roots() {
    for n_power in 0..47 {
        let root = Bls12Scalar::primitive_root_of_unity(n_power + 1);
        assert_eq!(root.square(), Bls12Scalar::primitive_root_of_unity(n_power));
    }
}

#[test]
fn highest_root_is_primitive() {
    let root = Bls12Scalar::primitive_root_of_unity(47);
    assert_eq!(root.exp(BigUint::from_u64(1 << 46).unwrap()), -Bls12Scalar::one());
    assert_eq!(root.exp(BigUint::from_u64(1 << 47).unwrap()), Bls12Scalar::one());
}

#[test]
fn subgroup_of_fourth_roots() {
    let root = Bls12Scalar::primitive_root_of_unity(2);
    let subgroup = Bls12Scalar::cyclic_subgroup_unknown_order(root);
    assert_eq!(subgroup, vec![root, -Bls12Scalar::one(), -root, Bls12Scalar::one()]);
    assert_eq!(
        subgroup[2].to_canonical(),
        [8860621160618917888, 9963140610363752447, 4379532757234729984, 1345280370688173398]
    );
    assert_eq!(Bls12Scalar::cyclic_subgroup_known_order(root, 4), subgroup);
    for x in subgroup.iter() {
        for y in subgroup.iter() {
            assert!(subgroup.contains(&(*x * *y)));
        }
    }
}

#[test]
fn subgroup_edges() {
    assert_eq!(
        Bls12Scalar::cyclic_subgroup_unknown_order(Bls12Scalar::zero()),
        vec![Bls12Scalar::zero()]
    );
    assert_eq!(
        Bls12Scalar::cyclic_subgroup_unknown_order(Bls12Scalar::one()),
        vec![Bls12Scalar::one()]
    );
    assert_eq!(Bls12Scalar::generator_order(Bls12Scalar::zero()), 1);
    assert_eq!(Bls12Scalar::generator_order(Bls12Scalar::one()), 1);
    assert_eq!(Bls12Scalar::generator_order(-Bls12Scalar::one()), 2);
}

#[test]
fn known_order_stops_or_goes_on() {
    let three = Bls12Scalar::three();
    assert_eq!(Bls12Scalar::cyclic_subgroup_known_order(three, 0), vec![]);
    assert_eq!(
        Bls12Scalar::cyclic_subgroup_known_order(three, 3),
        vec![three, element(9), element(27)]
    );
    let minus_one = -Bls12Scalar::one();
    assert_eq!(
        Bls12Scalar::cyclic_subgroup_known_order(minus_one, 3),
        vec![minus_one, Bls12Scalar::one(), minus_one]
    );
}

#[test]
fn random_limbs_are_cut_to_range() {
    assert_eq!(
        Bls12Scalar::from_random_limbs([u64::MAX; 4]).limbs,
        [u64::MAX, u64::MAX, u64::MAX, u64::MAX >> 4]
    );
    assert_eq!(Bls12Scalar::from_random_limbs([1, 2, 3, 64]).limbs, [1, 2, 3, 4]);
}

#[test]
fn random_scalars_are_reduced_and_differ() {
    let x = Bls12Scalar::rand();
    let y = Bls12Scalar::rand();
    assert!(x.limbs[3] < 1 << 60);
    assert_ne!(x, y);
    assert_eq!(Bls12Scalar::from_canonical(x.to_canonical()), x);
}
