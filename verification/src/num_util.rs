//! Number theory on arbitrary-precision numbers.

use num::BigUint;
use vstd::arithmetic::div_mod::*;
use vstd::arithmetic::mul::*;
use vstd::prelude::*;

use crate::biguint;
use crate::congruence;
use crate::primes;

verus! {

/// `x` is an inverse of `a` modulo `m`.
pub open spec fn is_inverse(a: nat, x: nat, m: nat) -> bool {
    (a * x) % m == 1nat % m
}

/// An inverse multiplies with the number to 1, modulo the modulus.
pub proof fn law_is_inverse(a: nat, x: nat, m: nat)
    ensures
        is_inverse(a, x, m) <==> (a * x) % m == 1nat % m,
{
}

/// A number has an inverse exactly where it has no factor in common with the modulus.
pub proof fn law_inverse_exists(a: nat, m: nat)
    requires
        m > 0,
    ensures
        (exists|x: nat| #[trigger] is_inverse(a, x, m)) <==> (forall|d: nat|
            d > 1 ==> !(#[trigger] (a % d) == 0 && m % d == 0)),
{
    let g = primes::gcd(a, m);
    primes::lemma_gcd_divides(a, m);
    if g == 1 {
        let (u, v) = primes::lemma_bezout(a, m);
        let x = u % (m as int);
        lemma_mod_bound(u, m as int);
        lemma_mul_mod_noop_right(a as int, u, m as int);
        lemma_mul_is_commutative(m as int, v);
        congruence::lemma_add_multiple(a * u, v, m as int);
        assert(is_inverse(a, x as nat, m));
    }
    if g > 1 {
        assert(a % g == 0 && m % g == 0);
    }
    if exists|x: nat| #[trigger] is_inverse(a, x, m) {
        let x = choose|x: nat| #[trigger] is_inverse(a, x, m);
        assert forall|d: nat| d > 1 implies !(#[trigger] (a % d) == 0 && m % d == 0) by {
            if a % d == 0 && m % d == 0 {
                lemma_no_inverse(a, m, d, x);
            }
        }
    }
}

/// If the factor `t0` tracks the remainder `r0`, and `t1` tracks `r1`, then `t0 - q t1` tracks
/// `r0 - q r1`.
proof fn lemma_euclid_step(a: nat, m: nat, r0: nat, r1: nat, t0: nat, t1: nat, q: nat, t2: nat)
    requires
        m > 0,
        r1 > 0,
        q == r0 / r1,
        (t0 * a) % m == r0 % m,
        (t1 * a) % m == r1 % m,
        t2 == (t0 + (m - (q * t1) % m)) as nat % m,
    ensures
        (t2 * a) % m == (r0 % r1) % m,
{
    let n = m as int;
    let x = ((q * t1) % m) as int;
    lemma_fundamental_div_mod(r0 as int, r1 as int);
    lemma_mod_bound((q * t1) as int, n);
    // t2 = t0 + m - x = t0 - q t1
    lemma_mod_twice((q * t1) as int, n);
    congruence::lemma_congruent_sub(t0 as int, t0 as int, x, (q * t1) as int, n);
    congruence::lemma_add_multiple(t0 - x, 1, n);
    lemma_mod_twice(t0 + (m - x), n);
    congruence::lemma_congruent_mul(t2 as int, t0 - q * t1, a as int, a as int, n);
    // (t0 - q t1) a = r0 - q r1
    assert((t0 - q * t1) * a == t0 * a - q * (t1 * a)) by (nonlinear_arith);
    congruence::lemma_congruent_mul(q as int, q as int, (t1 * a) as int, r1 as int, n);
    congruence::lemma_congruent_sub(
        (t0 * a) as int,
        r0 as int,
        (q * (t1 * a)) as int,
        (q * r1) as int,
        n,
    );
    lemma_mul_is_commutative(r1 as int, q as int);
}

/// A number that shares a factor with the modulus has no inverse.
proof fn lemma_no_inverse(a: nat, m: nat, g: nat, x: nat)
    requires
        g > 1,
        m > 0,
        a % g == 0,
        m % g == 0,
    ensures
        !is_inverse(a, x, m),
{
    let k = congruence::lemma_divides_witness(a as int, g as int);
    let l = congruence::lemma_divides_witness(m as int, g as int);
    primes::lemma_divisor_bound(m, g);
    lemma_small_mod(1, m);
    if is_inverse(a, x, m) {
        let q = (a * x) as int / m as int;
        lemma_fundamental_div_mod((a * x) as int, m as int);
        assert((k * x - l * q) * g == 1) by (nonlinear_arith)
            requires
                (a * x) as int == m as int * q + 1,
                a as int == k * g,
                m as int == l * g,
        ;
        congruence::lemma_add_multiple(0, k * x - l * q, g as int);
        lemma_small_mod(1, g);
        assert(false);
    }
}

/// The inverse of `a` modulo `m`, if `a` and `m` have no common factor: the extended Euclidean
/// algorithm.
pub fn modinv(a: BigUint, m: BigUint) -> (r: Option<BigUint>)
    requires
        biguint::biguint_nat(m) > 0,
    ensures
        match r {
            Some(x) => biguint::biguint_nat(x) < biguint::biguint_nat(m) && is_inverse(
                biguint::biguint_nat(a),
                biguint::biguint_nat(x),
                biguint::biguint_nat(m),
            ),
            None => forall|x: nat|
                !#[trigger] is_inverse(biguint::biguint_nat(a), x, biguint::biguint_nat(m)),
        },
        r matches Some(x) ==> biguint::biguint_nat(x) < biguint::biguint_nat(m) && (
        biguint::biguint_nat(a) * biguint::biguint_nat(x)) % biguint::biguint_nat(m) == 1nat
            % biguint::biguint_nat(m),
{
    let ghost na = biguint::biguint_nat(a);
    let ghost nm = biguint::biguint_nat(m);
    // Each remainder is congruent to its factor times `a`.
    let mut r0 = a;
    let one = biguint::from_bytes_le(&[1u8]);
    let zero = biguint::from_bytes_le(&[0u8]);
    let (_quotient, mut t0) = biguint::div_rem(&one, &m);
    let mut r1 = biguint::sum(&m, &zero);
    let mut t1 = zero;
    let ghost g = primes::gcd(na, nm);
    proof {
        reveal_with_fuel(biguint::bytes_nat, 3);
        assert(biguint::biguint_nat(one) == 1);
        assert(biguint::biguint_nat(t1) == 0);
        lemma_mod_bound(1, nm as int);
        lemma_mod_twice(1, nm as int);
        congruence::lemma_congruent_mul(
            biguint::biguint_nat(t0) as int,
            1,
            na as int,
            na as int,
            nm as int,
        );
        lemma_mod_self_0(nm as int);
        lemma_mul_basics(na as int);
        lemma_small_mod(0, nm);
        primes::lemma_gcd_divides(na, nm);
    }
    while !biguint::is_zero(&r1)
        invariant
            nm == biguint::biguint_nat(m),
            nm > 0,
            g == primes::gcd(biguint::biguint_nat(r0), biguint::biguint_nat(r1)),
            biguint::biguint_nat(t0) < nm,
            biguint::biguint_nat(t1) < nm,
            (biguint::biguint_nat(t0) * na) % nm == biguint::biguint_nat(r0) % nm,
            (biguint::biguint_nat(t1) * na) % nm == biguint::biguint_nat(r1) % nm,
        decreases biguint::biguint_nat(r1),
    {
        let (q, r2) = biguint::div_rem(&r0, &r1);
        let (_multiple, step) = biguint::div_rem(&biguint::product(&q, &t1), &m);
        proof {
            lemma_mod_bound(
                (biguint::biguint_nat(q) * biguint::biguint_nat(t1)) as int,
                nm as int,
            );
        }
        let (_multiple, t2) = biguint::div_rem(
            &biguint::sum(&t0, &biguint::difference(&m, &step)),
            &m,
        );
        proof {
            lemma_euclid_step(
                na,
                nm,
                biguint::biguint_nat(r0),
                biguint::biguint_nat(r1),
                biguint::biguint_nat(t0),
                biguint::biguint_nat(t1),
                biguint::biguint_nat(q),
                biguint::biguint_nat(t2),
            );
            lemma_mod_bound(biguint::biguint_nat(r0) as int, biguint::biguint_nat(r1) as int);
            lemma_mod_bound(
                biguint::biguint_nat(t0) + (nm - biguint::biguint_nat(step)),
                nm as int,
            );
        }
        r0 = r1;
        r1 = r2;
        t0 = t1;
        t1 = t2;
    }
    if biguint::is_one(&r0) {
        proof {
            lemma_mul_is_commutative(biguint::biguint_nat(t0) as int, na as int);
        }
        Some(t0)
    } else {
        proof {
            assert forall|x: nat| !#[trigger] is_inverse(na, x, nm) by {
                lemma_no_inverse(na, nm, g, x);
            }
        }
        None
    }
}

} // verus!
