//! The laws that the base field obeys.

use vstd::arithmetic::div_mod::*;
use vstd::arithmetic::mul::*;
use vstd::arithmetic::power2::*;
use vstd::prelude::*;
use vstd::std_specs::cmp::PartialEqSpec;
use vstd::std_specs::ops::{AddSpec, DivSpec, MulSpec, NegSpec, SubSpec};

use crate::base::Bls12Base;
use crate::congruence;
use crate::limbs;
use crate::primes;

verus! {

impl Bls12Base {
    /// Addition is commutative.
    pub proof fn law_sum_commutes(x: Bls12Base, y: Bls12Base)
        ensures
            Bls12Base::sum_of(x, y) == Bls12Base::sum_of(y, x),
    {
    }

    /// Addition is associative.
    pub proof fn law_sum_associates(x: Bls12Base, y: Bls12Base, z: Bls12Base)
        ensures
            Bls12Base::sum_of(Bls12Base::sum_of(x, y), z) == Bls12Base::sum_of(
                x,
                Bls12Base::sum_of(y, z),
            ),
    {
        let m = Bls12Base::order() as int;
        let left = Bls12Base::sum_of(x, y);
        let right = Bls12Base::sum_of(y, z);
        Bls12Base::law_of_value(x@ + y@);
        Bls12Base::law_of_value(y@ + z@);
        Bls12Base::law_of_value(left@ + z@);
        lemma_mod_twice((x@ + y@) as int, m);
        lemma_mod_twice((y@ + z@) as int, m);
        congruence::lemma_congruent_add(left@ as int, (x@ + y@) as int, z@ as int, z@ as int, m);
        congruence::lemma_congruent_add(x@ as int, x@ as int, right@ as int, (y@ + z@) as int, m);
        Bls12Base::lemma_is_of_value(Bls12Base::of_value(left@ + z@), x@ + right@);
    }

    /// Multiplication is commutative.
    pub proof fn law_product_commutes(x: Bls12Base, y: Bls12Base)
        ensures
            Bls12Base::product_of(x, y) == Bls12Base::product_of(y, x),
    {
        lemma_mul_is_commutative(x@ as int, y@ as int);
    }

    /// Multiplication is associative.
    pub proof fn law_product_associates(x: Bls12Base, y: Bls12Base, z: Bls12Base)
        ensures
            Bls12Base::product_of(Bls12Base::product_of(x, y), z) == Bls12Base::product_of(
                x,
                Bls12Base::product_of(y, z),
            ),
    {
        let m = Bls12Base::order() as int;
        let left = Bls12Base::product_of(x, y);
        let right = Bls12Base::product_of(y, z);
        Bls12Base::law_of_value(x@ * y@);
        Bls12Base::law_of_value(y@ * z@);
        Bls12Base::law_of_value(left@ * z@);
        lemma_mul_mod_noop_left((x@ * y@) as int, z@ as int, m);
        lemma_mul_mod_noop_right(x@ as int, (y@ * z@) as int, m);
        lemma_mul_is_associative(x@ as int, y@ as int, z@ as int);
        Bls12Base::lemma_is_of_value(Bls12Base::of_value(left@ * z@), x@ * right@);
    }

    /// Multiplication distributes over addition.
    pub proof fn law_product_distributes(x: Bls12Base, y: Bls12Base, z: Bls12Base)
        ensures
            Bls12Base::product_of(x, Bls12Base::sum_of(y, z)) == Bls12Base::sum_of(
                Bls12Base::product_of(x, y),
                Bls12Base::product_of(x, z),
            ),
    {
        let m = Bls12Base::order() as int;
        let sum = Bls12Base::sum_of(y, z);
        let left = Bls12Base::product_of(x, y);
        let right = Bls12Base::product_of(x, z);
        Bls12Base::law_of_value(y@ + z@);
        Bls12Base::law_of_value(x@ * y@);
        Bls12Base::law_of_value(x@ * z@);
        Bls12Base::law_of_value(x@ * sum@);
        lemma_mul_mod_noop_right(x@ as int, (y@ + z@) as int, m);
        lemma_mul_is_distributive_add(x@ as int, y@ as int, z@ as int);
        lemma_add_mod_noop((x@ * y@) as int, (x@ * z@) as int, m);
        Bls12Base::lemma_is_of_value(Bls12Base::of_value(x@ * sum@), left@ + right@);
    }

    /// Zero is neutral for addition, one for multiplication, and zero times anything is zero.
    pub proof fn law_identities(x: Bls12Base)
        requires
            x.wf(),
        ensures
            Bls12Base::sum_of(x, Bls12Base::of_value(0)) == x,
            Bls12Base::product_of(x, Bls12Base::of_value(1)) == x,
            Bls12Base::product_of(x, Bls12Base::of_value(0)) == Bls12Base::of_value(0),
    {
        let m = Bls12Base::order();
        Bls12Base::law_value_range(x);
        Bls12Base::law_of_value(0);
        Bls12Base::law_of_value(1);
        lemma_small_mod(0, m);
        lemma_small_mod(1, m);
        lemma_small_mod(x@, m);
        lemma_mul_basics(x@ as int);
        Bls12Base::lemma_is_of_value(x, x@ + 0);
        Bls12Base::lemma_is_of_value(x, x@ * 1);
    }

    /// An element and its negation add up to zero, and negating twice gives the element back.
    pub proof fn law_negation(x: Bls12Base)
        requires
            x.wf(),
        ensures
            Bls12Base::sum_of(x, Bls12Base::negation_of(x)) == Bls12Base::of_value(0),
            Bls12Base::negation_of(Bls12Base::negation_of(x)) == x,
    {
        let m = Bls12Base::order() as int;
        let n = Bls12Base::negation_of(x);
        Bls12Base::lemma_difference_value(Bls12Base::of_value(0), x);
        Bls12Base::law_value_range(x);
        Bls12Base::law_of_value(0);
        lemma_small_mod(0, m as nat);
        lemma_mod_twice(0 - x@, m);
        congruence::lemma_congruent_add(x@ as int, x@ as int, n@ as int, 0 - x@, m);
        Bls12Base::lemma_is_of_value(Bls12Base::of_value(0), x@ + n@);
        lemma_mod_twice(0 - n@, m);
        congruence::lemma_congruent_sub(0, 0, n@ as int, 0 - x@, m);
        lemma_small_mod(x@, m as nat);
        Bls12Base::lemma_is_of_value(x, Bls12Base::difference(0, n@));
    }

    /// What a difference stands for.
    pub(crate) proof fn lemma_difference_value(x: Bls12Base, y: Bls12Base)
        ensures
            Bls12Base::difference_of(x, y).wf(),
            Bls12Base::difference_of(x, y)@ == (x@ - y@) % (Bls12Base::order() as int),
    {
        let m = Bls12Base::order();
        lemma_mod_bound(x@ - y@, m as int);
        Bls12Base::law_of_value(Bls12Base::difference(x@, y@));
        lemma_small_mod(Bls12Base::difference(x@, y@), m);
    }

    /// Subtraction adds the negation, and adding what was subtracted gives the element back.
    pub proof fn law_difference(x: Bls12Base, y: Bls12Base)
        ensures
            Bls12Base::difference_of(x, y) == Bls12Base::sum_of(x, Bls12Base::negation_of(y)),
            x.wf() ==> Bls12Base::sum_of(Bls12Base::difference_of(x, y), y) == x,
    {
        let m = Bls12Base::order() as int;
        let d = Bls12Base::difference_of(x, y);
        let n = Bls12Base::negation_of(y);
        Bls12Base::lemma_difference_value(x, y);
        Bls12Base::lemma_difference_value(Bls12Base::of_value(0), y);
        Bls12Base::law_of_value(0);
        lemma_small_mod(0, m as nat);
        lemma_mod_twice(x@ - y@, m);
        lemma_mod_twice(0 - y@, m);
        congruence::lemma_congruent_add(x@ as int, x@ as int, n@ as int, 0 - y@, m);
        Bls12Base::lemma_is_of_value(d, x@ + n@);
        if x.wf() {
            Bls12Base::law_value_range(x);
            congruence::lemma_congruent_add(d@ as int, x@ - y@, y@ as int, y@ as int, m);
            lemma_small_mod(x@, m as nat);
            Bls12Base::lemma_is_of_value(x, d@ + y@);
        }
    }

    /// A product is zero only where a factor is.
    pub proof fn law_no_zero_divisors(x: Bls12Base, y: Bls12Base)
        requires
            x@ != 0,
            y@ != 0,
        ensures
            Bls12Base::product_of(x, y)@ != 0,
    {
        Bls12Base::law_order_prime();
        Bls12Base::law_value_range(x);
        Bls12Base::law_value_range(y);
        Bls12Base::law_of_value(x@ * y@);
        primes::lemma_nonzero_product(x@, y@, Bls12Base::order());
    }

    /// An element has at most one inverse, so inverting one by one and inverting a batch agree.
    pub proof fn law_inverse_unique(x: Bls12Base, y: Bls12Base, z: Bls12Base)
        requires
            y.wf(),
            z.wf(),
            (x@ * y@) % Bls12Base::order() == 1,
            (x@ * z@) % Bls12Base::order() == 1,
        ensures
            y == z,
    {
        Bls12Base::law_value_range(y);
        Bls12Base::law_value_range(z);
        primes::lemma_inverse_unique(x@, y@, z@, Bls12Base::order());
        Bls12Base::law_representation_unique(y, z);
    }

    /// Inverting twice gives the element back.
    pub proof fn law_inverse_involutive(x: Bls12Base, y: Bls12Base, z: Bls12Base)
        requires
            x.wf(),
            z.wf(),
            (x@ * y@) % Bls12Base::order() == 1,
            (y@ * z@) % Bls12Base::order() == 1,
        ensures
            z == x,
    {
        lemma_mul_is_commutative(x@ as int, y@ as int);
        Bls12Base::law_inverse_unique(y, x, z);
    }

    /// Division undoes multiplication, and multiplication undoes division.
    pub proof fn law_quotient(x: Bls12Base, y: Bls12Base)
        requires
            x.wf(),
            y@ != 0,
        ensures
            Bls12Base::product_of(Bls12Base::quotient_of(x, y), y) == x,
            Bls12Base::quotient_of(Bls12Base::product_of(x, y), y) == x,
    {
        let m = Bls12Base::order();
        let v = Bls12Base::inverse_value(y@);
        let q = Bls12Base::quotient_of(x, y);
        let p = Bls12Base::product_of(x, y);
        Bls12Base::law_order_prime();
        Bls12Base::law_value_range(x);
        Bls12Base::law_value_range(y);
        lemma_small_mod(y@, m);
        lemma_small_mod(x@, m);
        let w = primes::lemma_prime_inverse(y@, m);
        assert(w < m && (y@ * w) % m == 1);
        assert(v < m && (y@ * v) % m == 1);
        Bls12Base::law_of_value(x@ * v);
        Bls12Base::law_of_value(x@ * y@);
        primes::lemma_quotient(x@, y@, v, q@, m);
        Bls12Base::lemma_is_of_value(x, q@ * y@);
        lemma_mul_is_commutative(y@ as int, v as int);
        primes::lemma_quotient(x@, v, y@, p@, m);
        Bls12Base::lemma_is_of_value(x, p@ * v);
    }

    /// Reading an element as a number and making an element of that number gives the element
    /// back.
    pub proof fn law_canonical_of_element(x: Bls12Base, c: [u64; 6], y: Bls12Base)
        requires
            x.wf(),
            limbs::limbs_nat(c@) == x@,
            y.wf(),
            y@ == limbs::limbs_nat(c@) % Bls12Base::order(),
        ensures
            y == x,
    {
        Bls12Base::law_value_range(x);
        lemma_small_mod(x@, Bls12Base::order());
        Bls12Base::law_representation_unique(x, y);
    }

    /// Making an element of a number below the order and reading it as a number gives the number
    /// back.
    pub proof fn law_element_of_canonical(c: [u64; 6], x: Bls12Base, d: [u64; 6])
        requires
            limbs::limbs_nat(c@) < Bls12Base::order(),
            x@ == limbs::limbs_nat(c@) % Bls12Base::order(),
            limbs::limbs_nat(d@) == x@,
        ensures
            d == c,
    {
        lemma_small_mod(limbs::limbs_nat(c@), Bls12Base::order());
        limbs::law_limbs_unique(c@, d@);
        assert(c =~= d);
    }

    /// The order has as many bits as stated.
    pub proof fn law_bits()
        ensures
            pow2((Bls12Base::BITS - 1) as nat) <= Bls12Base::order(),
            Bls12Base::order() < pow2(Bls12Base::BITS as nat),
    {
        limbs::law_weight_is_power(5);
        lemma_pow2_adds(320, 56);
        lemma_pow2_adds(376, 1);
        lemma2_to64();
        lemma2_to64_rest();
        reveal_with_fuel(limbs::weight, 6);
    }

    /// The order of the field, written out.
    pub proof fn law_order_value()
        ensures
            Bls12Base::order() == 258664426012969094010652733694893533536393512754914660539884262666720468348340822774968888139573360124440321458177nat,
    {
    }

    /// An element is reduced where its limbs hold a number below the order.
    pub proof fn law_reduced(x: Bls12Base)
        ensures
            x.wf() <==> limbs::limbs_nat(x.limbs@) < Bls12Base::order(),
    {
    }

    /// What an element stands for, reduced or not: the only number below the order that
    /// multiplies with 2^384 to what the limbs hold, modulo the order.
    pub proof fn law_value(x: Bls12Base, v: nat)
        ensures
            x@ < Bls12Base::order(),
            (x@ * pow2(384)) % Bls12Base::order() == limbs::limbs_nat(x.limbs@) % Bls12Base::order(),
            v < Bls12Base::order() && (v * pow2(384)) % Bls12Base::order() == limbs::limbs_nat(x.limbs@)
                % Bls12Base::order() ==> v == x@,
    {
        let m = Bls12Base::order();
        let w = limbs::weight(6);
        limbs::law_weight_is_power(6);
        Bls12Base::law_value_range(x);
        Bls12Base::lemma_value_times_radix(x);
        if v < m && (v * w) % m == limbs::limbs_nat(x.limbs@) % m {
            congruence::lemma_congruent_cancel(
                v as int,
                x@ as int,
                w as int,
                Bls12Base::radix_inverse() as int,
                m as int,
            );
            congruence::lemma_small_residues(v as int, x@ as int, m as int);
        }
    }

    /// The order has no divisors but 1 and itself.
    pub proof fn law_order_has_no_divisors(d: nat)
        requires
            1 < d < Bls12Base::order(),
        ensures
            Bls12Base::order() % d != 0,
    {
        Bls12Base::law_order_prime();
    }

    /// What the sum, product and negation of elements stand for.
    pub proof fn law_operations(x: Bls12Base, y: Bls12Base)
        ensures
            Bls12Base::sum_of(x, y).wf(),
            Bls12Base::sum_of(x, y)@ == (x@ + y@) % Bls12Base::order(),
            Bls12Base::product_of(x, y).wf(),
            Bls12Base::product_of(x, y)@ == (x@ * y@) % Bls12Base::order(),
            Bls12Base::negation_of(x).wf(),
            (Bls12Base::negation_of(x)@ + x@) % Bls12Base::order() == 0,
            Bls12Base::negation_of(x)@ == (0 - x@) % (Bls12Base::order() as int),
    {
        let m = Bls12Base::order() as int;
        let n = Bls12Base::negation_of(x);
        Bls12Base::law_of_value(x@ + y@);
        Bls12Base::law_of_value(x@ * y@);
        Bls12Base::lemma_negation_value(x);
        lemma_mod_twice(0 - x@, m);
        congruence::lemma_congruent_add(n@ as int, 0 - x@, x@ as int, x@ as int, m);
        lemma_small_mod(0, m as nat);
    }

    /// What the quotient of elements stands for: the only number below the order that multiplies
    /// with the divisor to the dividend.
    pub proof fn law_quotient_value(x: Bls12Base, y: Bls12Base, v: nat)
        requires
            y@ != 0,
        ensures
            Bls12Base::quotient_of(x, y).wf(),
            (Bls12Base::quotient_of(x, y)@ * y@) % Bls12Base::order() == x@,
            v < Bls12Base::order() && (v * y@) % Bls12Base::order() == x@ ==> v == Bls12Base::quotient_of(x, y)@,
            Bls12Base::inverse_value(y@) < Bls12Base::order(),
            (y@ * Bls12Base::inverse_value(y@)) % Bls12Base::order() == 1,
    {
        let m = Bls12Base::order();
        let inverse = Bls12Base::inverse_value(y@);
        let q = Bls12Base::quotient_of(x, y);
        Bls12Base::law_order_prime();
        Bls12Base::law_value_range(x);
        Bls12Base::law_value_range(y);
        Bls12Base::law_value_range(q);
        lemma_small_mod(y@, m);
        let w = primes::lemma_prime_inverse(y@, m);
        assert(w < m && (y@ * w) % m == 1);
        assert(inverse < m && (y@ * inverse) % m == 1);
        Bls12Base::law_of_value(x@ * inverse);
        primes::lemma_quotient(x@, y@, inverse, q@, m);
        if v < m && (v * y@) % m == x@ {
            congruence::lemma_congruent_cancel(
                v as int,
                q@ as int,
                y@ as int,
                inverse as int,
                m as int,
            );
            congruence::lemma_small_residues(v as int, q@ as int, m as int);
        }
    }

    /// Two elements compare equal where their limbs are the same; reduced ones where they stand
    /// for the same number.
    pub proof fn law_equality(x: Bls12Base, y: Bls12Base)
        ensures
            <Bls12Base as PartialEqSpec>::obeys_eq_spec(),
            x.eq_spec(&y) <==> x.limbs@ == y.limbs@,
            x.wf() && y.wf() ==> (x.eq_spec(&y) <==> x@ == y@),
    {
        if x.limbs@ == y.limbs@ {
            assert(x.limbs =~= y.limbs);
        }
        if x.wf() && y.wf() && x@ == y@ {
            Bls12Base::law_representation_unique(x, y);
        }
    }

    /// What `+`, `*`, `-` and `/` take and give.
    pub proof fn law_operators(x: Bls12Base, y: Bls12Base)
        ensures
            <Bls12Base as AddSpec<Bls12Base>>::obeys_add_spec(),
            x.wf() && y.wf() ==> x.add_req(y),
            x.add_spec(y).wf(),
            x.add_spec(y)@ == (x@ + y@) % Bls12Base::order(),
            <Bls12Base as MulSpec<Bls12Base>>::obeys_mul_spec(),
            y.wf() ==> x.mul_req(y),
            x.mul_spec(y).wf(),
            x.mul_spec(y)@ == (x@ * y@) % Bls12Base::order(),
            <Bls12Base as NegSpec>::obeys_neg_spec(),
            x.wf() ==> x.neg_req(),
            x.neg_spec().wf(),
            (x.neg_spec()@ + x@) % Bls12Base::order() == 0,
            <Bls12Base as DivSpec<Bls12Base>>::obeys_div_spec(),
            y.wf() && y@ != 0 ==> x.div_req(y),
            y@ != 0 ==> x.div_spec(y).wf() && (x.div_spec(y)@ * y@) % Bls12Base::order() == x@,
    {
        Bls12Base::law_operations(x, y);
        if y@ != 0 {
            Bls12Base::law_quotient_value(x, y, 0);
        }
    }

    /// What `-` and multiplication by a machine number take and give.
    pub proof fn law_more_operators(x: Bls12Base, y: Bls12Base, n: u64)
        ensures
            <Bls12Base as SubSpec<Bls12Base>>::obeys_sub_spec(),
            x.wf() && y.wf() ==> x.sub_req(y),
            x.sub_spec(y).wf(),
            (x.sub_spec(y)@ + y@) % Bls12Base::order() == x@,
            x.sub_spec(y)@ == (x@ - y@) % (Bls12Base::order() as int),
            <Bls12Base as MulSpec<u64>>::obeys_mul_spec(),
            MulSpec::<u64>::mul_req(x, n),
            MulSpec::<u64>::mul_spec(x, n).wf(),
            MulSpec::<u64>::mul_spec(x, n)@ == (x@ * n as nat) % Bls12Base::order(),
    {
        let m = Bls12Base::order() as int;
        let d = Bls12Base::difference_of(x, y);
        Bls12Base::lemma_difference_value(x, y);
        lemma_mod_twice(x@ - y@, m);
        congruence::lemma_congruent_add(d@ as int, x@ - y@, y@ as int, y@ as int, m);
        Bls12Base::law_value_range(x);
        lemma_small_mod(x@, m as nat);
        Bls12Base::law_of_value(x@ * n as nat);
    }

    /// What a negation stands for.
    pub(crate) proof fn lemma_negation_value(x: Bls12Base)
        ensures
            Bls12Base::negation_of(x).wf(),
            Bls12Base::negation_of(x)@ == (0 - x@) % (Bls12Base::order() as int),
    {
        let m = Bls12Base::order();
        lemma_mod_bound(0 - x@, m as int);
        Bls12Base::law_of_value(Bls12Base::difference(0, x@));
        lemma_small_mod(Bls12Base::difference(0, x@), m);
    }
}

} // verus!
