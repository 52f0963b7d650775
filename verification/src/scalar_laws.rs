//! The laws that the scalar field obeys.

use vstd::arithmetic::div_mod::*;
use vstd::arithmetic::mul::*;
use vstd::arithmetic::power2::*;
use vstd::prelude::*;
use vstd::std_specs::cmp::PartialEqSpec;
use vstd::std_specs::ops::{AddSpec, DivSpec, MulSpec, NegSpec};

use crate::congruence;
use crate::limbs;
use crate::primes;
use crate::scalar::Bls12Scalar;

verus! {

impl Bls12Scalar {
    /// Addition is commutative.
    pub proof fn law_sum_commutes(x: Bls12Scalar, y: Bls12Scalar)
        ensures
            Bls12Scalar::sum_of(x, y) == Bls12Scalar::sum_of(y, x),
    {
    }

    /// Addition is associative.
    pub proof fn law_sum_associates(x: Bls12Scalar, y: Bls12Scalar, z: Bls12Scalar)
        ensures
            Bls12Scalar::sum_of(Bls12Scalar::sum_of(x, y), z) == Bls12Scalar::sum_of(
                x,
                Bls12Scalar::sum_of(y, z),
            ),
    {
        let m = Bls12Scalar::order() as int;
        let left = Bls12Scalar::sum_of(x, y);
        let right = Bls12Scalar::sum_of(y, z);
        Bls12Scalar::law_of_value(x@ + y@);
        Bls12Scalar::law_of_value(y@ + z@);
        Bls12Scalar::law_of_value(left@ + z@);
        lemma_mod_twice((x@ + y@) as int, m);
        lemma_mod_twice((y@ + z@) as int, m);
        congruence::lemma_congruent_add(left@ as int, (x@ + y@) as int, z@ as int, z@ as int, m);
        congruence::lemma_congruent_add(x@ as int, x@ as int, right@ as int, (y@ + z@) as int, m);
        Bls12Scalar::lemma_is_of_value(Bls12Scalar::of_value(left@ + z@), x@ + right@);
    }

    /// Multiplication is commutative.
    pub proof fn law_product_commutes(x: Bls12Scalar, y: Bls12Scalar)
        ensures
            Bls12Scalar::product_of(x, y) == Bls12Scalar::product_of(y, x),
    {
        lemma_mul_is_commutative(x@ as int, y@ as int);
    }

    /// Multiplication is associative.
    pub proof fn law_product_associates(x: Bls12Scalar, y: Bls12Scalar, z: Bls12Scalar)
        ensures
            Bls12Scalar::product_of(Bls12Scalar::product_of(x, y), z) == Bls12Scalar::product_of(
                x,
                Bls12Scalar::product_of(y, z),
            ),
    {
        let m = Bls12Scalar::order() as int;
        let left = Bls12Scalar::product_of(x, y);
        let right = Bls12Scalar::product_of(y, z);
        Bls12Scalar::law_of_value(x@ * y@);
        Bls12Scalar::law_of_value(y@ * z@);
        Bls12Scalar::law_of_value(left@ * z@);
        lemma_mul_mod_noop_left((x@ * y@) as int, z@ as int, m);
        lemma_mul_mod_noop_right(x@ as int, (y@ * z@) as int, m);
        lemma_mul_is_associative(x@ as int, y@ as int, z@ as int);
        Bls12Scalar::lemma_is_of_value(Bls12Scalar::of_value(left@ * z@), x@ * right@);
    }

    /// Multiplication distributes over addition.
    pub proof fn law_product_distributes(x: Bls12Scalar, y: Bls12Scalar, z: Bls12Scalar)
        ensures
            Bls12Scalar::product_of(x, Bls12Scalar::sum_of(y, z)) == Bls12Scalar::sum_of(
                Bls12Scalar::product_of(x, y),
                Bls12Scalar::product_of(x, z),
            ),
    {
        let m = Bls12Scalar::order() as int;
        let sum = Bls12Scalar::sum_of(y, z);
        let left = Bls12Scalar::product_of(x, y);
        let right = Bls12Scalar::product_of(x, z);
        Bls12Scalar::law_of_value(y@ + z@);
        Bls12Scalar::law_of_value(x@ * y@);
        Bls12Scalar::law_of_value(x@ * z@);
        Bls12Scalar::law_of_value(x@ * sum@);
        lemma_mul_mod_noop_right(x@ as int, (y@ + z@) as int, m);
        lemma_mul_is_distributive_add(x@ as int, y@ as int, z@ as int);
        lemma_add_mod_noop((x@ * y@) as int, (x@ * z@) as int, m);
        Bls12Scalar::lemma_is_of_value(Bls12Scalar::of_value(x@ * sum@), left@ + right@);
    }

    /// Zero is neutral for addition, one for multiplication, and zero times anything is zero.
    pub proof fn law_identities(x: Bls12Scalar)
        requires
            x.wf(),
        ensures
            Bls12Scalar::sum_of(x, Bls12Scalar::of_value(0)) == x,
            Bls12Scalar::product_of(x, Bls12Scalar::of_value(1)) == x,
            Bls12Scalar::product_of(x, Bls12Scalar::of_value(0)) == Bls12Scalar::of_value(0),
    {
        let m = Bls12Scalar::order();
        Bls12Scalar::law_value_range(x);
        Bls12Scalar::law_of_value(0);
        Bls12Scalar::law_of_value(1);
        lemma_small_mod(0, m);
        lemma_small_mod(1, m);
        lemma_small_mod(x@, m);
        lemma_mul_basics(x@ as int);
        Bls12Scalar::lemma_is_of_value(x, x@ + 0);
        Bls12Scalar::lemma_is_of_value(x, x@ * 1);
    }

    /// An element and its negation add up to zero, and negating twice gives the element back.
    pub proof fn law_negation(x: Bls12Scalar)
        requires
            x.wf(),
        ensures
            Bls12Scalar::sum_of(x, Bls12Scalar::negation_of(x)) == Bls12Scalar::of_value(0),
            Bls12Scalar::negation_of(Bls12Scalar::negation_of(x)) == x,
    {
        let m = Bls12Scalar::order() as int;
        let n = Bls12Scalar::negation_of(x);
        Bls12Scalar::lemma_negation_value(x);
        Bls12Scalar::law_value_range(x);
        Bls12Scalar::law_of_value(0);
        lemma_small_mod(0, m as nat);
        lemma_mod_twice(0 - x@, m);
        congruence::lemma_congruent_add(x@ as int, x@ as int, n@ as int, 0 - x@, m);
        Bls12Scalar::lemma_is_of_value(Bls12Scalar::of_value(0), x@ + n@);
        lemma_mod_twice(0 - n@, m);
        congruence::lemma_congruent_sub(0, 0, n@ as int, 0 - x@, m);
        lemma_small_mod(x@, m as nat);
        Bls12Scalar::lemma_is_of_value(x, Bls12Scalar::difference(0, n@));
    }

    /// What a negation stands for.
    pub(crate) proof fn lemma_negation_value(x: Bls12Scalar)
        ensures
            Bls12Scalar::negation_of(x).wf(),
            Bls12Scalar::negation_of(x)@ == (0 - x@) % (Bls12Scalar::order() as int),
    {
        let m = Bls12Scalar::order();
        lemma_mod_bound(0 - x@, m as int);
        Bls12Scalar::law_of_value(Bls12Scalar::difference(0, x@));
        lemma_small_mod(Bls12Scalar::difference(0, x@), m);
    }

    /// A product is zero only where a factor is.
    pub proof fn law_no_zero_divisors(x: Bls12Scalar, y: Bls12Scalar)
        requires
            x@ != 0,
            y@ != 0,
        ensures
            Bls12Scalar::product_of(x, y)@ != 0,
    {
        Bls12Scalar::law_order_prime();
        Bls12Scalar::law_value_range(x);
        Bls12Scalar::law_value_range(y);
        Bls12Scalar::law_of_value(x@ * y@);
        primes::lemma_nonzero_product(x@, y@, Bls12Scalar::order());
    }

    /// An element has at most one inverse, so inverting one by one and inverting a batch agree.
    pub proof fn law_inverse_unique(x: Bls12Scalar, y: Bls12Scalar, z: Bls12Scalar)
        requires
            y.wf(),
            z.wf(),
            (x@ * y@) % Bls12Scalar::order() == 1,
            (x@ * z@) % Bls12Scalar::order() == 1,
        ensures
            y == z,
    {
        Bls12Scalar::law_value_range(y);
        Bls12Scalar::law_value_range(z);
        primes::lemma_inverse_unique(x@, y@, z@, Bls12Scalar::order());
        Bls12Scalar::law_representation_unique(y, z);
    }

    /// Inverting twice gives the element back.
    pub proof fn law_inverse_involutive(x: Bls12Scalar, y: Bls12Scalar, z: Bls12Scalar)
        requires
            x.wf(),
            z.wf(),
            (x@ * y@) % Bls12Scalar::order() == 1,
            (y@ * z@) % Bls12Scalar::order() == 1,
        ensures
            z == x,
    {
        lemma_mul_is_commutative(x@ as int, y@ as int);
        Bls12Scalar::law_inverse_unique(y, x, z);
    }

    /// Division undoes multiplication, and multiplication undoes division.
    pub proof fn law_quotient(x: Bls12Scalar, y: Bls12Scalar)
        requires
            x.wf(),
            y@ != 0,
        ensures
            Bls12Scalar::product_of(Bls12Scalar::quotient_of(x, y), y) == x,
            Bls12Scalar::quotient_of(Bls12Scalar::product_of(x, y), y) == x,
    {
        let m = Bls12Scalar::order();
        let v = Bls12Scalar::inverse_value(y@);
        let q = Bls12Scalar::quotient_of(x, y);
        let p = Bls12Scalar::product_of(x, y);
        Bls12Scalar::law_order_prime();
        Bls12Scalar::law_value_range(x);
        Bls12Scalar::law_value_range(y);
        lemma_small_mod(y@, m);
        lemma_small_mod(x@, m);
        let w = primes::lemma_prime_inverse(y@, m);
        assert(w < m && (y@ * w) % m == 1);
        assert(v < m && (y@ * v) % m == 1);
        Bls12Scalar::law_of_value(x@ * v);
        Bls12Scalar::law_of_value(x@ * y@);
        primes::lemma_quotient(x@, y@, v, q@, m);
        Bls12Scalar::lemma_is_of_value(x, q@ * y@);
        lemma_mul_is_commutative(y@ as int, v as int);
        primes::lemma_quotient(x@, v, y@, p@, m);
        Bls12Scalar::lemma_is_of_value(x, p@ * v);
    }

    /// Reading an element as a number and making an element of that number gives the element
    /// back.
    pub proof fn law_canonical_of_element(x: Bls12Scalar, c: [u64; 4], y: Bls12Scalar)
        requires
            x.wf(),
            limbs::limbs_nat(c@) == x@,
            y.wf(),
            y@ == limbs::limbs_nat(c@) % Bls12Scalar::order(),
        ensures
            y == x,
    {
        Bls12Scalar::law_value_range(x);
        lemma_small_mod(x@, Bls12Scalar::order());
        Bls12Scalar::law_representation_unique(x, y);
    }

    /// Making an element of a number below the order and reading it as a number gives the number
    /// back.
    pub proof fn law_element_of_canonical(c: [u64; 4], x: Bls12Scalar, d: [u64; 4])
        requires
            limbs::limbs_nat(c@) < Bls12Scalar::order(),
            x@ == limbs::limbs_nat(c@) % Bls12Scalar::order(),
            limbs::limbs_nat(d@) == x@,
        ensures
            d == c,
    {
        lemma_small_mod(limbs::limbs_nat(c@), Bls12Scalar::order());
        limbs::law_limbs_unique(c@, d@);
        assert(c =~= d);
    }

    /// The order has as many bits as stated.
    pub proof fn law_bits()
        ensures
            pow2((Bls12Scalar::BITS - 1) as nat) <= Bls12Scalar::order(),
            Bls12Scalar::order() < pow2(Bls12Scalar::BITS as nat),
    {
        limbs::law_weight_is_power(3);
        lemma_pow2_adds(192, 60);
        lemma_pow2_adds(252, 1);
        lemma2_to64();
        lemma2_to64_rest();
        reveal_with_fuel(limbs::weight, 4);
    }

    /// The order of the field, written out.
    pub proof fn law_order_value()
        ensures
            Bls12Scalar::order() == 8444461749428370424248824938781546531375899335154063827935233455917409239041nat,
    {
    }

    /// An element is reduced where its limbs hold a number below the order.
    pub proof fn law_reduced(x: Bls12Scalar)
        ensures
            x.wf() <==> limbs::limbs_nat(x.limbs@) < Bls12Scalar::order(),
    {
    }

    /// What an element stands for, reduced or not: the only number below the order that
    /// multiplies with 2^256 to what the limbs hold, modulo the order.
    pub proof fn law_value(x: Bls12Scalar, v: nat)
        ensures
            x@ < Bls12Scalar::order(),
            (x@ * pow2(256)) % Bls12Scalar::order() == limbs::limbs_nat(x.limbs@) % Bls12Scalar::order(),
            v < Bls12Scalar::order() && (v * pow2(256)) % Bls12Scalar::order() == limbs::limbs_nat(x.limbs@)
                % Bls12Scalar::order() ==> v == x@,
    {
        let m = Bls12Scalar::order();
        let w = limbs::weight(4);
        limbs::law_weight_is_power(4);
        Bls12Scalar::law_value_range(x);
        Bls12Scalar::lemma_value_times_radix(x);
        if v < m && (v * w) % m == limbs::limbs_nat(x.limbs@) % m {
            congruence::lemma_congruent_cancel(
                v as int,
                x@ as int,
                w as int,
                Bls12Scalar::radix_inverse() as int,
                m as int,
            );
            congruence::lemma_small_residues(v as int, x@ as int, m as int);
        }
    }

    /// The order has no divisors but 1 and itself.
    pub proof fn law_order_has_no_divisors(d: nat)
        requires
            1 < d < Bls12Scalar::order(),
        ensures
            Bls12Scalar::order() % d != 0,
    {
        Bls12Scalar::law_order_prime();
    }

    /// What the sum, product and negation of elements stand for.
    pub proof fn law_operations(x: Bls12Scalar, y: Bls12Scalar)
        ensures
            Bls12Scalar::sum_of(x, y).wf(),
            Bls12Scalar::sum_of(x, y)@ == (x@ + y@) % Bls12Scalar::order(),
            Bls12Scalar::product_of(x, y).wf(),
            Bls12Scalar::product_of(x, y)@ == (x@ * y@) % Bls12Scalar::order(),
            Bls12Scalar::negation_of(x).wf(),
            (Bls12Scalar::negation_of(x)@ + x@) % Bls12Scalar::order() == 0,
            Bls12Scalar::negation_of(x)@ == (0 - x@) % (Bls12Scalar::order() as int),
    {
        let m = Bls12Scalar::order() as int;
        let n = Bls12Scalar::negation_of(x);
        Bls12Scalar::law_of_value(x@ + y@);
        Bls12Scalar::law_of_value(x@ * y@);
        Bls12Scalar::lemma_negation_value(x);
        lemma_mod_twice(0 - x@, m);
        congruence::lemma_congruent_add(n@ as int, 0 - x@, x@ as int, x@ as int, m);
        lemma_small_mod(0, m as nat);
    }

    /// What the quotient of elements stands for: the only number below the order that multiplies
    /// with the divisor to the dividend.
    pub proof fn law_quotient_value(x: Bls12Scalar, y: Bls12Scalar, v: nat)
        requires
            y@ != 0,
        ensures
            Bls12Scalar::quotient_of(x, y).wf(),
            (Bls12Scalar::quotient_of(x, y)@ * y@) % Bls12Scalar::order() == x@,
            v < Bls12Scalar::order() && (v * y@) % Bls12Scalar::order() == x@ ==> v == Bls12Scalar::quotient_of(x, y)@,
            Bls12Scalar::inverse_value(y@) < Bls12Scalar::order(),
            (y@ * Bls12Scalar::inverse_value(y@)) % Bls12Scalar::order() == 1,
    {
        let m = Bls12Scalar::order();
        let inverse = Bls12Scalar::inverse_value(y@);
        let q = Bls12Scalar::quotient_of(x, y);
        Bls12Scalar::law_order_prime();
        Bls12Scalar::law_value_range(x);
        Bls12Scalar::law_value_range(y);
        Bls12Scalar::law_value_range(q);
        lemma_small_mod(y@, m);
        let w = primes::lemma_prime_inverse(y@, m);
        assert(w < m && (y@ * w) % m == 1);
        assert(inverse < m && (y@ * inverse) % m == 1);
        Bls12Scalar::law_of_value(x@ * inverse);
        primes::lemma_quotient(x@, y@, inverse, q@, m);
        if v < m && (v * y@) % m == x@ {
            congruence::lemma_congruent_cancel(
                v as int,
                q@ as int,
                y@ as int,
                inverse as int,
                m as int,
            );
            congruence::lemma_small_residues(v as int, q@ as int, m as int);
        }
    }

    /// Two elements compare equal where their limbs are the same; reduced ones where they stand
    /// for the same number.
    pub proof fn law_equality(x: Bls12Scalar, y: Bls12Scalar)
        ensures
            <Bls12Scalar as PartialEqSpec>::obeys_eq_spec(),
            x.eq_spec(&y) <==> x.limbs@ == y.limbs@,
            x.wf() && y.wf() ==> (x.eq_spec(&y) <==> x@ == y@),
    {
        if x.limbs@ == y.limbs@ {
            assert(x.limbs =~= y.limbs);
        }
        if x.wf() && y.wf() && x@ == y@ {
            Bls12Scalar::law_representation_unique(x, y);
        }
    }

    /// What `+`, `*`, `-` and `/` take and give.
    pub proof fn law_operators(x: Bls12Scalar, y: Bls12Scalar)
        ensures
            <Bls12Scalar as AddSpec<Bls12Scalar>>::obeys_add_spec(),
            x.wf() && y.wf() ==> x.add_req(y),
            x.add_spec(y).wf(),
            x.add_spec(y)@ == (x@ + y@) % Bls12Scalar::order(),
            <Bls12Scalar as MulSpec<Bls12Scalar>>::obeys_mul_spec(),
            y.wf() ==> x.mul_req(y),
            x.mul_spec(y).wf(),
            x.mul_spec(y)@ == (x@ * y@) % Bls12Scalar::order(),
            <Bls12Scalar as NegSpec>::obeys_neg_spec(),
            x.wf() ==> x.neg_req(),
            x.neg_spec().wf(),
            (x.neg_spec()@ + x@) % Bls12Scalar::order() == 0,
            <Bls12Scalar as DivSpec<Bls12Scalar>>::obeys_div_spec(),
            y.wf() && y@ != 0 ==> x.div_req(y),
            y@ != 0 ==> x.div_spec(y).wf() && (x.div_spec(y)@ * y@) % Bls12Scalar::order() == x@,
    {
        Bls12Scalar::law_operations(x, y);
        if y@ != 0 {
            Bls12Scalar::law_quotient_value(x, y, 0);
        }
    }
}

} // verus!
