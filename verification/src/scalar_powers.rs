//! Powers of scalars: exponentiation, roots of unity and cyclic subgroups.

use num::BigUint;
use vstd::arithmetic::div_mod::*;
use vstd::arithmetic::mul::*;
use vstd::arithmetic::power::*;
use vstd::arithmetic::power2::*;
use vstd::prelude::*;

use crate::biguint;
use crate::congruence;
use crate::primes;
use crate::scalar::Bls12Scalar;
use crate::scalar_order;

verus! {

impl Bls12Scalar {
    /// The number that the `e`-th power of an element with value `x` stands for.
    pub open spec fn power_value(x: nat, e: nat) -> nat {
        (pow(x as int, e) % (Bls12Scalar::order() as int)) as nat
    }

    /// `k` is the least positive exponent that takes `x` to 1.
    pub open spec fn has_order(x: nat, k: nat) -> bool {
        &&& k > 0
        &&& Bls12Scalar::power_value(x, k) == 1
        &&& forall|j: nat| 0 < j < k ==> #[trigger] Bls12Scalar::power_value(x, j) != 1
    }

    /// The sequence holds the first, second, ... power of `x`.
    pub open spec fn are_powers(s: Seq<Bls12Scalar>, x: nat) -> bool {
        forall|i: int|
            0 <= i < s.len() ==> (#[trigger] s[i]).wf() && s[i]@ == Bls12Scalar::power_value(
                x,
                (i + 1) as nat,
            )
    }

    /// A power is below the order and congruent to the power of the number.
    pub(crate) proof fn lemma_power_value(x: nat, e: nat)
        ensures
            Bls12Scalar::power_value(x, e) == pow(x as int, e) % (Bls12Scalar::order() as int),
            Bls12Scalar::power_value(x, e) < Bls12Scalar::order(),
    {
        lemma_mod_bound(pow(x as int, e), Bls12Scalar::order() as int);
    }

    /// What a power stands for.
    pub proof fn law_power_value(x: nat, e: nat)
        ensures
            Bls12Scalar::power_value(x, e) == pow(x as int, e) % (Bls12Scalar::order() as int),
    {
        Bls12Scalar::lemma_power_value(x, e);
    }

    /// The order of an element is the least positive exponent whose power is 1.
    pub proof fn law_has_order(x: nat, k: nat)
        ensures
            Bls12Scalar::has_order(x, k) <==> k > 0 && pow(x as int, k) % (
            Bls12Scalar::order() as int) == 1 && (forall|j: nat|
                0 < j < k ==> #[trigger] pow(x as int, j) % (Bls12Scalar::order() as int) != 1),
    {
        let m = Bls12Scalar::order() as int;
        Bls12Scalar::lemma_power_value(x, k);
        if Bls12Scalar::has_order(x, k) {
            assert forall|j: nat| 0 < j < k implies #[trigger] pow(x as int, j) % m != 1 by {
                assert(Bls12Scalar::power_value(x, j) != 1);
                Bls12Scalar::lemma_power_value(x, j);
            }
        }
        if k > 0 && pow(x as int, k) % m == 1 && (forall|j: nat|
            0 < j < k ==> #[trigger] pow(x as int, j) % m != 1) {
            assert forall|j: nat| 0 < j < k implies #[trigger] Bls12Scalar::power_value(x, j)
                != 1 by {
                assert(pow(x as int, j) % m != 1);
                Bls12Scalar::lemma_power_value(x, j);
            }
        }
    }

    /// A list holds the first powers of a number where entry `i` is reduced and stands for the
    /// power `i + 1`.
    pub proof fn law_are_powers(s: Seq<Bls12Scalar>, x: nat)
        ensures
            Bls12Scalar::are_powers(s, x) <==> (forall|i: int|
                0 <= i < s.len() ==> (#[trigger] s[i]).wf() && s[i]@ == pow(
                    x as int,
                    (i + 1) as nat,
                ) % (Bls12Scalar::order() as int)),
    {
        let m = Bls12Scalar::order() as int;
        assert forall|i: int| 0 <= i < s.len() implies Bls12Scalar::power_value(
            x,
            (i + 1) as nat,
        ) == #[trigger] pow(x as int, (i + 1) as nat) % m by {
            Bls12Scalar::lemma_power_value(x, (i + 1) as nat);
        }
        if Bls12Scalar::are_powers(s, x) {
            assert forall|i: int| 0 <= i < s.len() implies (#[trigger] s[i]).wf() && s[i]@ == pow(
                x as int,
                (i + 1) as nat,
            ) % m by {
                Bls12Scalar::lemma_power_value(x, (i + 1) as nat);
            }
        }
        if forall|i: int|
            0 <= i < s.len() ==> (#[trigger] s[i]).wf() && s[i]@ == pow(x as int, (i + 1) as nat)
                % m {
            assert forall|i: int| 0 <= i < s.len() implies (#[trigger] s[i]).wf() && s[i]@
                == Bls12Scalar::power_value(x, (i + 1) as nat) by {
                Bls12Scalar::lemma_power_value(x, (i + 1) as nat);
            }
        }
    }

    /// The power 0 is 1 and the power 1 is the element itself.
    pub proof fn law_first_powers(x: Bls12Scalar)
        ensures
            Bls12Scalar::power_value(x@, 0) == 1,
            Bls12Scalar::power_value(x@, 1) == x@,
    {
        lemma_pow0(x@ as int);
        lemma_pow1(x@ as int);
        lemma_small_mod(1, Bls12Scalar::order());
        Bls12Scalar::law_value_range(x);
        lemma_small_mod(x@, Bls12Scalar::order());
    }

    /// Powers multiply by adding their exponents.
    pub proof fn law_powers_multiply(x: nat, d: nat, e: nat)
        ensures
            (Bls12Scalar::power_value(x, d) * Bls12Scalar::power_value(x, e))
                % Bls12Scalar::order() == Bls12Scalar::power_value(x, d + e),
    {
        Bls12Scalar::lemma_power_value(x, d);
        Bls12Scalar::lemma_power_value(x, e);
        Bls12Scalar::lemma_power_value(x, d + e);
        lemma_mul_mod_noop(pow(x as int, d), pow(x as int, e), Bls12Scalar::order() as int);
        lemma_pow_adds(x as int, d, e);
    }

    /// A power of a power multiplies the exponents.
    pub proof fn law_power_of_power(x: nat, d: nat, e: nat)
        ensures
            Bls12Scalar::power_value(Bls12Scalar::power_value(x, d), e) == Bls12Scalar::power_value(
                x,
                d * e,
            ),
    {
        Bls12Scalar::lemma_power_value(x, d);
        lemma_pow_mod_noop(pow(x as int, d), e, Bls12Scalar::order() as int);
        lemma_pow_multiplies(x as int, d, e);
    }

    /// A power of a product is the product of the powers.
    pub proof fn law_power_of_product(x: Bls12Scalar, y: Bls12Scalar, e: nat)
        ensures
            Bls12Scalar::power_value(Bls12Scalar::product_of(x, y)@, e) == (
            Bls12Scalar::power_value(x@, e) * Bls12Scalar::power_value(y@, e))
                % Bls12Scalar::order(),
    {
        let m = Bls12Scalar::order() as int;
        Bls12Scalar::law_of_value(x@ * y@);
        Bls12Scalar::lemma_power_value(x@, e);
        Bls12Scalar::lemma_power_value(y@, e);
        lemma_pow_mod_noop((x@ * y@) as int, e, m);
        lemma_pow_distributes(x@ as int, y@ as int, e);
        lemma_mul_mod_noop(pow(x@ as int, e), pow(y@ as int, e), m);
    }

    /// The power of this element whose exponent the bytes hold, the least significant one first.
    pub fn exp_bytes_le(&self, bytes: &[u8]) -> (r: Bls12Scalar)
        requires
            self.wf(),
        ensures
            r.wf(),
            r@ == Bls12Scalar::power_value(self@, biguint::bytes_nat(bytes@)),
            r@ == pow(self@ as int, biguint::bytes_nat(bytes@)) % (Bls12Scalar::order() as int),
    {
        let mut current = *self;
        let mut product = Bls12Scalar::one();
        // The exponent that `product` has reached, and the one that `current` has.
        let ghost mut done: nat = 0;
        let ghost mut unit: nat = 1;
        let mut k: usize = 0;
        proof {
            Bls12Scalar::law_first_powers(*self);
            assert(bytes@.take(0) =~= Seq::<u8>::empty());
        }
        while k < bytes.len()
            invariant
                k <= bytes@.len(),
                current.wf(),
                product.wf(),
                current@ == Bls12Scalar::power_value(self@, unit),
                product@ == Bls12Scalar::power_value(self@, done),
                unit == biguint::byte_weight(k as nat),
                done == biguint::bytes_nat(bytes@.take(k as int)),
            decreases bytes@.len() - k,
        {
            let byte = bytes[k];
            let ghost base_unit = unit;
            let ghost base_done = done;
            let ghost mut low: nat = 0;
            let mut rest = byte;
            let mut i: usize = 0;
            proof {
                lemma2_to64();
                lemma_mul_basics(base_unit as int);
                lemma_mul_basics(byte as int);
            }
            while i < 8
                invariant
                    i <= 8,
                    current.wf(),
                    product.wf(),
                    current@ == Bls12Scalar::power_value(self@, unit),
                    product@ == Bls12Scalar::power_value(self@, done),
                    unit == base_unit * pow2(i as nat),
                    done == base_done + base_unit * low,
                    byte == low + pow2(i as nat) * rest,
                decreases 8 - i,
            {
                let ghost p = pow2(i as nat);
                proof {
                    Bls12Scalar::law_powers_multiply(self@, done, unit);
                    Bls12Scalar::law_powers_multiply(self@, unit, unit);
                    lemma_pow2_unfold((i + 1) as nat);
                    lemma_exponent_bit(base_unit, p, low, rest);
                }
                if rest % 2 == 1 {
                    product = product * current;
                    proof {
                        done = done + unit;
                        low = low + p;
                    }
                }
                current = current.square();
                proof {
                    unit = unit + unit;
                }
                rest = rest / 2;
                i = i + 1;
            }
            proof {
                lemma2_to64();
                assert(byte == low + 256 * rest);
                assert(unit == base_unit * 256);
                assert(biguint::byte_weight((k + 1) as nat) == 256 * biguint::byte_weight(
                    k as nat,
                ));
                assert(bytes@.take(k + 1) =~= bytes@.take(k as int).push(byte));
                biguint::lemma_bytes_nat_push(bytes@.take(k as int), byte);
            }
            k = k + 1;
        }
        proof {
            assert(bytes@.take(k as int) =~= bytes@);
            Bls12Scalar::law_power_value(self@, done);
        }
        product
    }

    /// The power of this element with the given exponent.
    pub fn exp(&self, power: BigUint) -> (r: Bls12Scalar)
        requires
            self.wf(),
        ensures
            r.wf(),
            r@ == Bls12Scalar::power_value(self@, biguint::biguint_nat(power)),
            r@ == pow(self@ as int, biguint::biguint_nat(power)) % (Bls12Scalar::order() as int),
    {
        let bytes = biguint::to_bytes_le(&power);
        self.exp_bytes_le(bytes.as_slice())
    }
}

/// One bit of an exponent: `rest` has the bits from the one with weight `p` on.
proof fn lemma_exponent_bit(unit: nat, p: nat, low: nat, rest: u8)
    ensures
        unit * (2 * p) == unit * p + unit * p,
        unit * (low + p) == unit * low + unit * p,
        rest % 2 == 1 ==> low + p * rest == (low + p) + (2 * p) * (rest / 2),
        rest % 2 == 0 ==> low + p * rest == low + (2 * p) * (rest / 2),
{
    lemma_mul_is_distributive_add(unit as int, p as int, p as int);
    lemma_mul_is_distributive_add(unit as int, low as int, p as int);
    let half = (rest / 2) as int;
    assert(p * (2 * half) == (2 * p) * half) by (nonlinear_arith);
    assert(p * (2 * half + 1) == (2 * p) * half + p) by (nonlinear_arith);
    assert(rest as int == 2 * half || rest as int == 2 * half + 1);
}

/// The decimal digits of the odd part of the order less one.
proof fn lemma_odd_part_digits()
    ensures
        "60001509534603559531609739528203892656505753216962260608619555"@.len() > 0,
        forall|i: int|
            0 <= i < "60001509534603559531609739528203892656505753216962260608619555"@.len()
                ==> biguint::is_decimal_digit(
                #[trigger] "60001509534603559531609739528203892656505753216962260608619555"@[i],
            ),
        biguint::decimal_nat(
            "60001509534603559531609739528203892656505753216962260608619555"@,
        ) == Bls12Scalar::odd_part(),
{
    let s = "60001509534603559531609739528203892656505753216962260608619555"@;
    reveal_strlit("60001509534603559531609739528203892656505753216962260608619555");
    assert forall|i: int| 0 <= i < s.len() implies biguint::is_decimal_digit(#[trigger] s[i]) by {}
    assert(s.take(0) =~= Seq::<char>::empty());
    biguint::lemma_four_digits(s, 0);
    assert(biguint::decimal_nat(s.take(4)) == 6000nat);
    biguint::lemma_four_digits(s, 4);
    assert(biguint::decimal_nat(s.take(8)) == 60001509nat);
    biguint::lemma_four_digits(s, 8);
    assert(biguint::decimal_nat(s.take(12)) == 600015095346nat);
    biguint::lemma_four_digits(s, 12);
    assert(biguint::decimal_nat(s.take(16)) == 6000150953460355nat);
    biguint::lemma_four_digits(s, 16);
    assert(biguint::decimal_nat(s.take(20)) == 60001509534603559531nat);
    biguint::lemma_four_digits(s, 20);
    assert(biguint::decimal_nat(s.take(24)) == 600015095346035595316097nat);
    biguint::lemma_four_digits(s, 24);
    assert(biguint::decimal_nat(s.take(28)) == 6000150953460355953160973952nat);
    biguint::lemma_four_digits(s, 28);
    assert(biguint::decimal_nat(s.take(32)) == 60001509534603559531609739528203nat);
    biguint::lemma_four_digits(s, 32);
    assert(biguint::decimal_nat(s.take(36)) == 600015095346035595316097395282038926nat);
    biguint::lemma_four_digits(s, 36);
    assert(biguint::decimal_nat(s.take(40)) == 6000150953460355953160973952820389265650nat);
    biguint::lemma_four_digits(s, 40);
    assert(biguint::decimal_nat(s.take(44)) == 60001509534603559531609739528203892656505753nat);
    biguint::lemma_four_digits(s, 44);
    assert(biguint::decimal_nat(s.take(48)) == 600015095346035595316097395282038926565057532169nat);
    biguint::lemma_four_digits(s, 48);
    assert(biguint::decimal_nat(s.take(52)) == 6000150953460355953160973952820389265650575321696226nat);
    biguint::lemma_four_digits(s, 52);
    assert(biguint::decimal_nat(s.take(56)) == 60001509534603559531609739528203892656505753216962260608nat);
    biguint::lemma_four_digits(s, 56);
    assert(biguint::decimal_nat(s.take(60)) == 600015095346035595316097395282038926565057532169622606086195nat);
    biguint::lemma_one_digit(s, 60);
    biguint::lemma_one_digit(s, 61);
    assert(s.take(62) =~= s);
}

impl Bls12Scalar {
    /// The number that the root of unity of order `2^n` stands for.
    pub open spec fn root_value(n: nat) -> nat {
        Bls12Scalar::power_value(
            11,
            Bls12Scalar::odd_part() * pow2((Bls12Scalar::TWO_ADICITY - n) as nat),
        )
    }

    /// What the root of unity of order `2^n` stands for.
    pub proof fn law_root_value(n: nat)
        requires
            n <= Bls12Scalar::TWO_ADICITY,
        ensures
            Bls12Scalar::root_value(n) == pow(
                11,
                Bls12Scalar::odd_part() * pow2((Bls12Scalar::TWO_ADICITY - n) as nat),
            ) % (Bls12Scalar::order() as int),
    {
        Bls12Scalar::lemma_power_value(
            11,
            Bls12Scalar::odd_part() * pow2((Bls12Scalar::TWO_ADICITY - n) as nat),
        );
    }

    /// The order less one is the odd part times a power of two.
    pub proof fn law_two_adicity()
        ensures
            Bls12Scalar::order() == Bls12Scalar::odd_part() * pow2(
                Bls12Scalar::TWO_ADICITY as nat,
            ) + 1,
            Bls12Scalar::odd_part() % 2 == 1,
    {
        lemma2_to64_rest();
    }

    /// Powers of the root of unity of order `2^n` whose exponent is a power of two.
    proof fn lemma_root_power(n: nat, k: nat)
        requires
            n <= 47,
        ensures
            Bls12Scalar::power_value(Bls12Scalar::root_value(n), pow2(k))
                == Bls12Scalar::power_value(
                Bls12Scalar::power_value(11, Bls12Scalar::odd_part()),
                pow2((47 - n + k) as nat),
            ),
    {
        let t = Bls12Scalar::odd_part();
        let w = Bls12Scalar::power_value(11, t);
        let e = pow2((47 - n) as nat);
        Bls12Scalar::law_power_of_power(11, t, e);
        Bls12Scalar::law_power_of_power(w, e, pow2(k));
        lemma_pow2_adds((47 - n) as nat, k);
    }

    /// The root of unity of the highest order: half its order takes it to -1, its order to 1.
    proof fn lemma_base_root()
        ensures
            Bls12Scalar::power_value(
                Bls12Scalar::power_value(11, Bls12Scalar::odd_part()),
                pow2(46),
            ) == Bls12Scalar::order() - 1,
            Bls12Scalar::power_value(
                Bls12Scalar::power_value(11, Bls12Scalar::odd_part()),
                pow2(47),
            ) == 1,
    {
        let m = Bls12Scalar::order();
        let w = Bls12Scalar::power_value(11, Bls12Scalar::odd_part());
        scalar_order::root_of_unity();
        lemma2_to64_rest();
        lemma_pow2_unfold(47);
        Bls12Scalar::law_powers_multiply(w, pow2(46), pow2(46));
        let minus_one = (m - 1) as int;
        congruence::lemma_add_multiple(minus_one, -1, m as int);
        congruence::lemma_congruent_mul(minus_one, -1, minus_one, -1, m as int);
        lemma_small_mod(1, m);
    }

    /// The root of unity of order `2^n` has that order: it is primitive.
    pub proof fn law_root_is_primitive(n: nat)
        requires
            n <= Bls12Scalar::TWO_ADICITY,
        ensures
            Bls12Scalar::has_order(Bls12Scalar::root_value(n), pow2(n)),
    {
        let x = Bls12Scalar::root_value(n);
        let m = Bls12Scalar::order();
        Bls12Scalar::lemma_base_root();
        Bls12Scalar::lemma_root_power(n, n);
        lemma_pow2_pos(n);
        let twos = Seq::new(n, |i: int| 2nat);
        primes::lemma_product_repeated(2, n);
        lemma_pow2(n);
        Bls12Scalar::lemma_power_value(x, pow2(n));
        assert forall|i: int| 0 <= i < twos.len() implies primes::is_prime(#[trigger] twos[i])
            && pow(x as int, primes::product(twos) / twos[i]) % (m as int) != 1 by {
            let h = (n - 1) as nat;
            lemma_pow2_unfold(n);
            assert(primes::product(twos) / 2 == pow2(h));
            Bls12Scalar::lemma_root_power(n, h);
            Bls12Scalar::lemma_power_value(x, pow2(h));
        }
        assert forall|j: nat| 0 < j < pow2(n) implies #[trigger] Bls12Scalar::power_value(x, j)
            != 1 by {
            primes::lemma_order(x as int, twos, m, j);
            Bls12Scalar::lemma_power_value(x, j);
        }
    }

    /// Squaring a root of unity gives the root of half its order.
    pub proof fn law_root_squares(n: nat)
        requires
            n < Bls12Scalar::TWO_ADICITY,
        ensures
            (Bls12Scalar::root_value(n + 1) * Bls12Scalar::root_value(n + 1))
                % Bls12Scalar::order() == Bls12Scalar::root_value(n),
    {
        let t = Bls12Scalar::odd_part();
        let h = (46 - n) as nat;
        lemma_pow2_unfold(h + 1);
        lemma_mul_is_distributive_add(t as int, pow2(h) as int, pow2(h) as int);
        Bls12Scalar::law_powers_multiply(11, t * pow2(h), t * pow2(h));
    }

    /// The root of order 1 is 1, and the root of order 2 is -1.
    pub proof fn law_small_roots()
        ensures
            Bls12Scalar::root_value(0) == 1,
            Bls12Scalar::root_value(1) == Bls12Scalar::order() - 1,
    {
        let t = Bls12Scalar::odd_part();
        Bls12Scalar::lemma_base_root();
        Bls12Scalar::law_power_of_power(11, t, pow2(47));
        Bls12Scalar::law_power_of_power(11, t, pow2(46));
    }

    /// An element has at most one order.
    pub proof fn law_order_unique(x: nat, j: nat, k: nat)
        requires
            Bls12Scalar::has_order(x, j),
            Bls12Scalar::has_order(x, k),
        ensures
            j == k,
    {
        if j < k {
            assert(Bls12Scalar::power_value(x, j) != 1);
        }
        if k < j {
            assert(Bls12Scalar::power_value(x, k) != 1);
        }
    }

    /// Computes a `2^n_power`th primitive root of unity.
    pub fn primitive_root_of_unity(n_power: usize) -> (r: Bls12Scalar)
        requires
            n_power <= Bls12Scalar::TWO_ADICITY,
        ensures
            r.wf(),
            r@ == Bls12Scalar::root_value(n_power as nat),
            Bls12Scalar::has_order(r@, pow2(n_power as nat)),
            r@ == pow(
                11,
                Bls12Scalar::odd_part() * pow2((Bls12Scalar::TWO_ADICITY - n_power) as nat),
            ) % (Bls12Scalar::order() as int),
            pow(r@ as int, pow2(n_power as nat)) % (Bls12Scalar::order() as int) == 1,
            forall|j: nat|
                0 < j < pow2(n_power as nat) ==> #[trigger] pow(r@ as int, j) % (
                Bls12Scalar::order() as int) != 1,
    {
        proof {
            lemma_odd_part_digits();
        }
        let t = biguint::from_decimal(
            "60001509534603559531609739528203892656505753216962260608619555",
        ).unwrap();
        let base_root = Bls12Scalar::generator().exp(t);
        let shift: u64 = 47 - n_power as u64;
        proof {
            lemma_pow2_monotone(shift as nat, 47);
            lemma2_to64_rest();
            vstd::bits::lemma_u64_shl_is_mul(1, shift);
            Bls12Scalar::law_power_of_power(
                11,
                Bls12Scalar::odd_part(),
                pow2(shift as nat),
            );
            Bls12Scalar::law_root_is_primitive(n_power as nat);
            Bls12Scalar::law_root_value(n_power as nat);
            Bls12Scalar::law_has_order(
                Bls12Scalar::root_value(n_power as nat),
                pow2(n_power as nat),
            );
        }
        base_root.exp(biguint::from_u64(1u64 << shift).unwrap())
    }
}

proof fn lemma_pow2_monotone(i: nat, j: nat)
    requires
        i <= j,
    ensures
        pow2(i) <= pow2(j),
{
    if i < j {
        lemma_pow2_strictly_increases(i, j);
    }
}

} // verus!
