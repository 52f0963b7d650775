use bls12_field::Bls12Base;

const ORDER_LESS_ONE: [u64; 6] = [
    9586122913090633728,
    1660523435060625408,
    2230234197602682880,
    1883307231910630287,
    14284016967150029115,
    121098312706494698,
];

const ORDER_LESS_TWO: [u64; 6] = [
    9586122913090633727,
    1660523435060625408,
    2230234197602682880,
    1883307231910630287,
    14284016967150029115,
    121098312706494698,
];

const LARGE: [u64; 6] = [5, 987654321, 0, 0, 428211400507129856, 117737568973];

fn element(n: u64) -> Bls12Base {
    Bls12Base::from_canonical_u64(n)
}

#[test]
fn base_constants() {
    assert_eq!(Bls12Base::zero().to_canonical(), [0; 6]);
    assert_eq!(Bls12Base::one().to_canonical(), [1, 0, 0, 0, 0, 0]);
    assert_eq!(Bls12Base::two().to_canonical(), [2, 0, 0, 0, 0, 0]);
    assert_eq!(Bls12Base::one().limbs, Bls12Base::R);
    assert_eq!(Bls12Base::one() + Bls12Base::one(), Bls12Base::two());
    assert_eq!(Bls12Base::BITS, 377);
    assert_eq!(64 * 5 + 64 - Bls12Base::ORDER[5].leading_zeros(), 377);
}

#[test]
fn base_canonical_is_reduced() {
    assert_eq!(Bls12Base::from_canonical(Bls12Base::ORDER), Bls12Base::zero());
    assert_eq!(
        Bls12Base::from_canonical([u64::MAX; 6]).to_canonical(),
        [
            202099033278250855,
            5854854902718660529,
            11492539364873682930,
            8885205928937022213,
            5545221690922665192,
            39800542322357402
        ]
    );
    assert_eq!(
        Bls12Base::from_canonical(ORDER_LESS_ONE).to_canonical(),
        ORDER_LESS_ONE
    );
}

#[test]
fn base_canonical_round_trip() {
    let x = Bls12Base::from_canonical(LARGE);
    assert_eq!(x.to_canonical(), LARGE);
    assert_eq!(Bls12Base::from_canonical(x.to_canonical()), x);
}

#[test]
fn base_is_zero() {
    assert!(Bls12Base::zero().is_zero());
    assert!((element(3) - element(3)).is_zero());
    assert!(!Bls12Base::one().is_zero());
}

#[test]
fn base_sum_wraps_around() {
    let minus_one = Bls12Base::from_canonical(ORDER_LESS_ONE);
    assert_eq!(minus_one + element(2), Bls12Base::one());
    assert_eq!(minus_one + Bls12Base::one(), Bls12Base::zero());
    assert_eq!((minus_one + minus_one).to_canonical(), ORDER_LESS_TWO);
}

#[test]
fn base_difference() {
    assert_eq!(element(5) - element(3), element(2));
    assert_eq!((element(3) - element(5)).to_canonical(), ORDER_LESS_TWO);
    let x = Bls12Base::from_canonical(LARGE);
    assert_eq!(element(7) - x + x, element(7));
    assert_eq!(element(7) - x, element(7) + -x);
}

#[test]
fn base_negation() {
    assert_eq!(-Bls12Base::zero(), Bls12Base::zero());
    assert_eq!((-Bls12Base::one()).to_canonical(), ORDER_LESS_ONE);
    let x = Bls12Base::from_canonical(LARGE);
    assert_eq!(-(-x), x);
}

#[test]
fn base_products() {
    let x = Bls12Base::from_canonical(LARGE);
    assert_eq!(
        x.square().to_canonical(),
        [
            13400006558875477692,
            4026153012130894443,
            698960550979310846,
            9767314906228101359,
            8111049778865208583,
            84545839942758402
        ]
    );
    assert_eq!(
        x.cube().to_canonical(),
        [
            17454195546197959827,
            1859253595919337445,
            16692986552100996803,
            573195545300311261,
            13335545498162939157,
            24944576240142869
        ]
    );
    assert_eq!(x * x, x.square());
    let minus_one = Bls12Base::from_canonical(ORDER_LESS_ONE);
    assert_eq!(minus_one * minus_one, Bls12Base::one());
    assert_eq!(element(6) * 7u64, element(42));
    assert_eq!(minus_one * 2u64, -Bls12Base::two());
}

#[test]
fn base_multiples() {
    assert_eq!(element(21).double(), element(42));
    assert_eq!(element(14).triple(), element(42));
    let minus_one = Bls12Base::from_canonical(ORDER_LESS_ONE);
    assert_eq!(minus_one.double(), -element(2));
    assert_eq!(minus_one.triple(), -element(3));
}

#[test]
fn base_field_laws() {
    let x = Bls12Base::from_canonical(LARGE);
    let y = -element(12345);
    let z = Bls12Base::from_canonical(ORDER_LESS_ONE);
    assert_eq!(x + y, y + x);
    assert_eq!((x + y) + z, x + (y + z));
    assert_eq!(x * y, y * x);
    assert_eq!((x * y) * z, x * (y * z));
    assert_eq!(x * (y + z), x * y + x * z);
    assert_eq!(x + Bls12Base::zero(), x);
    assert_eq!(x * Bls12Base::one(), x);
    assert_eq!(x * Bls12Base::zero(), Bls12Base::zero());
}

#[test]
fn base_inverse_values() {
    assert_eq!(Bls12Base::zero().multiplicative_inverse(), None);
    assert_eq!(Bls12Base::one().multiplicative_inverse(), Some(Bls12Base::one()));
    assert_eq!(
        Bls12Base::two().multiplicative_inverse().unwrap().to_canonical(),
        [
            4793061456545316865,
            830261717530312704,
            10338489135656117248,
            10165025652810090951,
            7142008483575014557,
            60549156353247349
        ]
    );
    let x = Bls12Base::from_canonical(LARGE);
    let inverse = x.multiplicative_inverse().unwrap();
    assert_eq!(inverse * x, Bls12Base::one());
    assert_eq!(inverse.multiplicative_inverse(), Some(x));
}

#[test]
fn base_quotient() {
    assert_eq!(
        (element(7) / element(3)).to_canonical(),
        [
            6390748608727089155,
            1107015623373750272,
            7635737489638305792,
            7404452845843604063,
            15671592669336536615,
            80732208470996465
        ]
    );
    let x = Bls12Base::from_canonical(LARGE);
    assert_eq!(x / element(9) * element(9), x);
    assert_eq!(x * element(9) / element(9), x);
}

#[test]
fn base_batch_inverse_agrees() {
    assert_eq!(Bls12Base::batch_multiplicative_inverse(&[]), vec![]);
    assert_eq!(
        Bls12Base::batch_multiplicative_inverse(&[Bls12Base::one()]),
        vec![Bls12Base::one()]
    );
    let x = [element(2), Bls12Base::from_canonical(LARGE), -element(9)];
    let inverses = Bls12Base::batch_multiplicative_inverse(&x);
    for i in 0..3 {
        assert_eq!(Some(inverses[i]), x[i].multiplicative_inverse());
    }
}

#[test]
fn base_batch_inverse_skips_zeros() {
    let x = [Bls12Base::zero(), element(2), Bls12Base::zero(), element(5), Bls12Base::zero()];
    let inverses = Bls12Base::batch_multiplicative_inverse_opt(&x);
    assert_eq!(inverses.len(), 5);
    for i in 0..5 {
        assert_eq!(inverses[i], x[i].multiplicative_inverse());
    }
    assert_eq!(Bls12Base::batch_multiplicative_inverse_opt(&[]), vec![]);
    assert_eq!(
        Bls12Base::batch_multiplicative_inverse_opt(&[Bls12Base::zero()]),
        vec![None]
    );
}

#[test]
fn div2_edges() {
    assert_eq!(Bls12Base::div2([0; 6]), [0; 6]);
    assert_eq!(Bls12Base::div2([1, 0, 0, 0, 0, 0]), [0; 6]);
    assert_eq!(Bls12Base::div2([0, 1, 0, 0, 0, 0]), [1 << 63, 0, 0, 0, 0, 0]);
    assert_eq!(
        Bls12Base::div2([u64::MAX; 6]),
        [u64::MAX, u64::MAX, u64::MAX, u64::MAX, u64::MAX, u64::MAX >> 1]
    );
}
