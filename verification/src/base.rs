//! The base field of BLS12-377.

use core::ops::{Add, Div, Mul, Neg, Sub};
use vstd::arithmetic::div_mod::*;
use vstd::arithmetic::mul::*;
use vstd::prelude::*;

use crate::base_order;
use crate::congruence;
use crate::limbs;
use crate::limbs::{add_6_6, cmp_6_6, cmp_7_6, limbs_equal, sub_6_6, sub_7_6};
use crate::montgomery;
use crate::montgomery::montgomery_product;
use crate::primes;

verus! {

/// An element of the BLS12 group's base field.
///
/// The limbs are little-endian and hold the Montgomery form: 2^384 times the element.
#[derive(Copy, Clone, Eq, Hash, Debug)]
pub struct Bls12Base {
    pub limbs: [u64; 6],
}

/// The number below the order that an element stands for.
impl View for Bls12Base {
    type V = nat;

    open spec fn view(&self) -> nat {
        montgomery::decode(
            limbs::limbs_nat(self.limbs@),
            Bls12Base::radix_inverse(),
            Bls12Base::order(),
        )
    }
}

impl PartialEq for Bls12Base {
    fn eq(&self, other: &Bls12Base) -> (r: bool)
        ensures
            r == (self.limbs@ == other.limbs@),
    {
        proof {
            if self.limbs@ == other.limbs@ {
                assert(self.limbs =~= other.limbs);
            }
        }
        limbs_equal(self.limbs, other.limbs)
    }
}

impl vstd::std_specs::cmp::PartialEqSpecImpl for Bls12Base {
    open spec fn obeys_eq_spec() -> bool {
        true
    }

    open spec fn eq_spec(&self, other: &Bls12Base) -> bool {
        *self == *other
    }
}

impl Bls12Base {
    /// The number of bits of the order.
    pub const BITS: usize = 377;

    /// The order of the field:
    /// 258664426012969094010652733694893533536393512754914660539884262666720468348340822774968888139573360124440321458177
    pub const ORDER: [u64; 6] = [
        9586122913090633729,
        1660523435060625408,
        2230234197602682880,
        1883307231910630287,
        14284016967150029115,
        121098312706494698,
    ];

    /// R in the context of the Montgomery reduction, i.e. 2^384 % |F|.
    pub const R: [u64; 6] = [
        202099033278250856,
        5854854902718660529,
        11492539364873682930,
        8885205928937022213,
        5545221690922665192,
        39800542322357402,
    ];

    /// R^2 in the context of the Montgomery reduction, i.e. 2^384^2 % |F|.
    pub(crate) const R2: [u64; 6] = [
        13224372171368877346,
        227991066186625457,
        2496666625421784173,
        13825906835078366124,
        9475172226622360569,
        30958721782860680,
    ];

    /// R^3 in the context of the Montgomery reduction, i.e. 2^384^3 % |F|.
    pub(crate) const R3: [u64; 6] = [
        6349885463227391520,
        16505482940020594053,
        3163973454937060627,
        7650090842119774734,
        4571808961100582073,
        73846176275226021,
    ];

    /// In the context of Montgomery multiplication, -|F|^-1 mod 2^64.
    const MU: u64 = 9586122913090633727;

    /// The order of the field, as a number.
    pub open spec fn order() -> nat {
        258664426012969094010652733694893533536393512754914660539884262666720468348340822774968888139573360124440321458177nat
    }

    /// The inverse of 2^384 modulo the order.
    pub open spec fn radix_inverse() -> nat {
        193639650212296069206809223070911922792886794295675586437897404907786751263178459621544185310416431420969770445288nat
    }

    /// The limbs are reduced: every element has exactly one such form.
    pub open spec fn wf(self) -> bool {
        limbs::limbs_nat(self.limbs@) < Bls12Base::order()
    }

    /// The element that stands for `n` modulo the order.
    pub open spec fn of_value(n: nat) -> Bls12Base {
        choose|x: Bls12Base| x.wf() && #[trigger] x@ == n % Bls12Base::order()
    }

    /// `x - y` modulo the order.
    pub open spec fn difference(x: nat, y: nat) -> nat {
        ((x - y) % (Bls12Base::order() as int)) as nat
    }

    /// The number below the order that multiplies with `n` to 1, if there is one.
    pub open spec fn inverse_value(n: nat) -> nat {
        choose|v: nat|
            v < Bls12Base::order() && #[trigger] (n * v) % Bls12Base::order() == 1
    }

    /// What `x + y` is.
    pub open spec fn sum_of(x: Bls12Base, y: Bls12Base) -> Bls12Base {
        Bls12Base::of_value(x@ + y@)
    }

    /// What `x * y` is.
    pub open spec fn product_of(x: Bls12Base, y: Bls12Base) -> Bls12Base {
        Bls12Base::of_value(x@ * y@)
    }

    /// What `-x` is.
    pub open spec fn negation_of(x: Bls12Base) -> Bls12Base {
        Bls12Base::of_value(Bls12Base::difference(0, x@))
    }

    /// What `x - y` is.
    pub open spec fn difference_of(x: Bls12Base, y: Bls12Base) -> Bls12Base {
        Bls12Base::of_value(Bls12Base::difference(x@, y@))
    }

    /// What `x / y` is.
    pub open spec fn quotient_of(x: Bls12Base, y: Bls12Base) -> Bls12Base {
        Bls12Base::of_value(x@ * Bls12Base::inverse_value(y@))
    }

    /// The limbs of the order, and the room that they leave.
    proof fn lemma_order_limbs()
        ensures
            limbs::limbs_nat(Bls12Base::ORDER@) == Bls12Base::order(),
            2 * Bls12Base::order() <= limbs::weight(6),
    {
        limbs::lemma_limbs_nat_6(Bls12Base::ORDER@);
        limbs::lemma_weights();
    }

    proof fn lemma_constants()
        ensures
            limbs::limbs_nat(Bls12Base::ORDER@) == Bls12Base::order(),
            limbs::limbs_nat(Bls12Base::R@) < Bls12Base::order(),
            limbs::limbs_nat(Bls12Base::R@) == limbs::weight(6) % Bls12Base::order(),
            limbs::limbs_nat(Bls12Base::R2@) < Bls12Base::order(),
            limbs::limbs_nat(Bls12Base::R2@) == (limbs::weight(6) * limbs::weight(6))
                % Bls12Base::order(),
            limbs::limbs_nat(Bls12Base::R3@) < Bls12Base::order(),
            limbs::limbs_nat(Bls12Base::R3@) == (limbs::weight(6) * limbs::weight(6)
                * limbs::weight(6)) % Bls12Base::order(),
            (limbs::weight(6) * Bls12Base::radix_inverse()) % Bls12Base::order() == 1,
            2 * Bls12Base::order() <= limbs::weight(6),
            (Bls12Base::MU * Bls12Base::ORDER[0] + 1) % 0x1_0000_0000_0000_0000 == 0,
    {
        limbs::lemma_limbs_nat_6(Bls12Base::ORDER@);
        limbs::lemma_limbs_nat_6(Bls12Base::R@);
        limbs::lemma_limbs_nat_6(Bls12Base::R2@);
        limbs::lemma_limbs_nat_6(Bls12Base::R3@);
        limbs::lemma_weights();
    }
}

impl Bls12Base {
    /// Reduced elements that stand for the same number are the same.
    pub proof fn law_representation_unique(x: Bls12Base, y: Bls12Base)
        requires
            x.wf(),
            y.wf(),
            x@ == y@,
        ensures
            x == y,
    {
        Bls12Base::lemma_constants();
        montgomery::lemma_decode_injective(
            limbs::limbs_nat(x.limbs@),
            limbs::limbs_nat(y.limbs@),
            limbs::weight(6),
            Bls12Base::radix_inverse(),
            Bls12Base::order(),
        );
        limbs::law_limbs_unique(x.limbs@, y.limbs@);
        assert(x.limbs =~= y.limbs);
    }

    /// `ORDER` holds the order, and `R` the remainder of 2^384.
    pub proof fn law_constants()
        ensures
            limbs::limbs_nat(Bls12Base::ORDER@) == Bls12Base::order(),
            limbs::limbs_nat(Bls12Base::R@) == limbs::weight(6) % Bls12Base::order(),
    {
        Bls12Base::lemma_constants();
    }

    /// The limbs of a reduced element hold 2^384 times the element, modulo the order.
    pub proof fn law_montgomery_form(x: Bls12Base)
        requires
            x.wf(),
        ensures
            limbs::limbs_nat(x.limbs@) == (x@ * limbs::weight(6)) % Bls12Base::order(),
    {
        Bls12Base::lemma_constants();
        montgomery::lemma_decode_times_radix(
            limbs::limbs_nat(x.limbs@),
            limbs::weight(6),
            Bls12Base::radix_inverse(),
            Bls12Base::order(),
        );
        lemma_small_mod(limbs::limbs_nat(x.limbs@), Bls12Base::order());
    }

    pub(crate) proof fn lemma_value_times_radix(x: Bls12Base)
        ensures
            (x@ * limbs::weight(6)) % Bls12Base::order() == limbs::limbs_nat(x.limbs@) % Bls12Base::order(),
            (limbs::weight(6) * Bls12Base::radix_inverse()) % Bls12Base::order() == 1,
    {
        Bls12Base::lemma_constants();
        montgomery::lemma_decode_times_radix(
            limbs::limbs_nat(x.limbs@),
            limbs::weight(6),
            Bls12Base::radix_inverse(),
            Bls12Base::order(),
        );
    }

    pub(crate) proof fn lemma_is_of_value(x: Bls12Base, n: nat)
        requires
            x.wf(),
            x@ == n % Bls12Base::order(),
        ensures
            x == Bls12Base::of_value(n),
    {
        Bls12Base::law_representation_unique(x, Bls12Base::of_value(n));
    }

    /// Every number stands for an element.
    pub proof fn law_of_value(n: nat)
        ensures
            Bls12Base::of_value(n).wf(),
            Bls12Base::of_value(n)@ == n % Bls12Base::order(),
    {
        let m = Bls12Base::order();
        let v = (n * limbs::weight(6)) % m;
        Bls12Base::lemma_constants();
        lemma_mod_bound((n * limbs::weight(6)) as int, m as int);
        let s = limbs::lemma_limbs_exist(v, 6);
        let x = Bls12Base { limbs: [s[0], s[1], s[2], s[3], s[4], s[5]] };
        assert(x.limbs@ =~= s);
        lemma_mod_twice((n * limbs::weight(6)) as int, m as int);
        montgomery::lemma_decode_encoded(
            n,
            v,
            limbs::weight(6),
            Bls12Base::radix_inverse(),
            m,
        );
        assert(x.wf() && x@ == n % m);
    }

    /// The number that an element stands for is below the order, and it is 0 for zero limbs only.
    pub proof fn law_value_range(x: Bls12Base)
        ensures
            x@ < Bls12Base::order(),
            limbs::limbs_nat(x.limbs@) == 0 ==> x@ == 0,
            x.wf() && x@ == 0 ==> limbs::limbs_nat(x.limbs@) == 0,
    {
        reveal(montgomery::decode);
        let n = limbs::limbs_nat(x.limbs@);
        let m = Bls12Base::order();
        Bls12Base::lemma_constants();
        lemma_mod_bound((n * Bls12Base::radix_inverse()) as int, m as int);
        lemma_mul_basics(Bls12Base::radix_inverse() as int);
        lemma_small_mod(0, m);
        if x.wf() && x@ == 0 {
            montgomery::lemma_decode_injective(
                n,
                0,
                limbs::weight(6),
                Bls12Base::radix_inverse(),
                m,
            );
        }
    }

    /// A Montgomery product of limbs stands for the product.
    proof fn lemma_product(x: Bls12Base, y: Bls12Base, z: Bls12Base)
        requires
            (limbs::limbs_nat(z.limbs@) * limbs::weight(6)) % Bls12Base::order() == (
            limbs::limbs_nat(x.limbs@) * limbs::limbs_nat(y.limbs@)) % Bls12Base::order(),
        ensures
            z@ == (x@ * y@) % Bls12Base::order(),
    {
        Bls12Base::lemma_constants();
        montgomery::lemma_decode_mul(
            limbs::limbs_nat(x.limbs@),
            limbs::limbs_nat(y.limbs@),
            limbs::limbs_nat(z.limbs@),
            limbs::weight(6),
            Bls12Base::radix_inverse(),
            Bls12Base::order(),
        );
    }

    /// A sum of limbs, reduced or not, stands for the sum.
    proof fn lemma_sum(x: Bls12Base, y: Bls12Base, z: Bls12Base)
        requires
            limbs::limbs_nat(z.limbs@) == limbs::limbs_nat(x.limbs@) + limbs::limbs_nat(y.limbs@)
                || limbs::limbs_nat(z.limbs@) + Bls12Base::order() == limbs::limbs_nat(x.limbs@)
                + limbs::limbs_nat(y.limbs@),
        ensures
            z@ == (x@ + y@) % Bls12Base::order(),
    {
        let nz = limbs::limbs_nat(z.limbs@);
        congruence::lemma_add_multiple(nz as int, 1, Bls12Base::order() as int);
        montgomery::lemma_decode_add(
            limbs::limbs_nat(x.limbs@),
            limbs::limbs_nat(y.limbs@),
            nz,
            Bls12Base::radix_inverse(),
            Bls12Base::order(),
        );
    }

    /// A difference of limbs, or that difference and the order, stands for the difference.
    proof fn lemma_difference(x: Bls12Base, y: Bls12Base, z: Bls12Base)
        requires
            limbs::limbs_nat(z.limbs@) + limbs::limbs_nat(y.limbs@) == limbs::limbs_nat(x.limbs@)
                || limbs::limbs_nat(z.limbs@) + limbs::limbs_nat(y.limbs@) == limbs::limbs_nat(
                x.limbs@,
            ) + Bls12Base::order(),
        ensures
            z@ == Bls12Base::difference(x@, y@),
            (z@ + y@) % Bls12Base::order() == x@,
            z.wf() ==> z == Bls12Base::of_value(Bls12Base::difference(x@, y@)),
    {
        let nx = limbs::limbs_nat(x.limbs@);
        let ny = limbs::limbs_nat(y.limbs@);
        congruence::lemma_add_multiple(nx - ny, 1, Bls12Base::order() as int);
        montgomery::lemma_decode_sub(
            nx,
            ny,
            limbs::limbs_nat(z.limbs@),
            Bls12Base::radix_inverse(),
            Bls12Base::order(),
        );
        lemma_mod_bound(x@ - y@, Bls12Base::order() as int);
        lemma_small_mod(z@, Bls12Base::order());
        congruence::lemma_congruent_add(
            z@ as int,
            x@ - y@,
            y@ as int,
            y@ as int,
            Bls12Base::order() as int,
        );
        Bls12Base::law_value_range(x);
        lemma_small_mod(x@, Bls12Base::order());
        if z.wf() {
            Bls12Base::lemma_is_of_value(z, Bls12Base::difference(x@, y@));
        }
    }

    /// The element 0.
    pub fn zero() -> (r: Bls12Base)
        ensures
            r.wf(),
            r@ == 0,
    {
        let r = Bls12Base { limbs: [0; 6] };
        proof {
            limbs::lemma_limbs_nat_zeros(r.limbs@);
            Bls12Base::law_value_range(r);
        }
        r
    }

    /// The element 1.
    pub fn one() -> (r: Bls12Base)
        ensures
            r.wf(),
            r@ == 1,
    {
        let r = Bls12Base { limbs: Bls12Base::R };
        proof {
            Bls12Base::lemma_constants();
            lemma_mod_twice(limbs::weight(6) as int, Bls12Base::order() as int);
            montgomery::lemma_decode_encoded(
                1,
                limbs::limbs_nat(r.limbs@),
                limbs::weight(6),
                Bls12Base::radix_inverse(),
                Bls12Base::order(),
            );
        }
        r
    }

    /// The element 2.
    pub fn two() -> (r: Bls12Base)
        ensures
            r.wf(),
            r@ == 2,
    {
        let r = Bls12Base {
            limbs: [
                404198066556501712,
                11709709805437321058,
                4538334656037814244,
                17770411857874044427,
                11090443381845330384,
                79601084644714804,
            ],
        };
        proof {
            limbs::lemma_limbs_nat_6(r.limbs@);
            limbs::lemma_weights();
            Bls12Base::lemma_constants();
            montgomery::lemma_decode_encoded(
                2,
                limbs::limbs_nat(r.limbs@),
                limbs::weight(6),
                Bls12Base::radix_inverse(),
                Bls12Base::order(),
            );
        }
        r
    }

    /// Montgomery multiplication: `a * b` divided by 2^384, modulo the order.
    fn montgomery_multiply(a: [u64; 6], b: [u64; 6]) -> (r: [u64; 6])
        requires
            limbs::limbs_nat(b@) < Bls12Base::order(),
        ensures
            limbs::limbs_nat(r@) < Bls12Base::order(),
            (limbs::limbs_nat(r@) * limbs::weight(6)) % Bls12Base::order() == (limbs::limbs_nat(a@)
                * limbs::limbs_nat(b@)) % Bls12Base::order(),
    {
        proof {
            Bls12Base::lemma_constants();
        }
        montgomery_product(a, b, Bls12Base::ORDER, Bls12Base::MU, [0u64; 7])
    }

    /// The element that stands for the number `c`, which need not be below the order.
    pub fn from_canonical(c: [u64; 6]) -> (r: Bls12Base)
        ensures
            r.wf(),
            r@ == limbs::limbs_nat(c@) % Bls12Base::order(),
    {
        proof {
            Bls12Base::lemma_constants();
            lemma_mod_twice(
                (limbs::weight(6) * limbs::weight(6)) as int,
                Bls12Base::order() as int,
            );
        }
        // We compute M(c, R^2) = c * R^2 * R^-1 = c * R.
        let r = Bls12Base { limbs: Bls12Base::montgomery_multiply(c, Bls12Base::R2) };
        proof {
            montgomery::lemma_encoded(
                limbs::limbs_nat(c@),
                limbs::limbs_nat(r.limbs@),
                limbs::limbs_nat(Bls12Base::R2@),
                limbs::weight(6),
                Bls12Base::radix_inverse(),
                Bls12Base::order(),
            );
            montgomery::lemma_decode_encoded(
                limbs::limbs_nat(c@),
                limbs::limbs_nat(r.limbs@),
                limbs::weight(6),
                Bls12Base::radix_inverse(),
                Bls12Base::order(),
            );
        }
        r
    }

    /// The element that stands for the number `c`.
    pub fn from_canonical_u64(c: u64) -> (r: Bls12Base)
        ensures
            r.wf(),
            r@ == c,
    {
        let limbs = [c, 0, 0, 0, 0, 0];
        proof {
            limbs::lemma_limbs_nat_6(limbs@);
            lemma_small_mod(c as nat, Bls12Base::order());
        }
        Bls12Base::from_canonical(limbs)
    }

    /// The number below the order that this element stands for.
    pub fn to_canonical(&self) -> (r: [u64; 6])
        ensures
            limbs::limbs_nat(r@) == self@,
    {
        let one = [1, 0, 0, 0, 0, 0];
        proof {
            limbs::lemma_limbs_nat_6(one@);
            Bls12Base::lemma_constants();
            lemma_mul_basics(limbs::limbs_nat(self.limbs@) as int);
        }
        // Let x * R = self. We compute M(x * R, 1) = x * R * R^-1 = x.
        let r = Bls12Base::montgomery_multiply(self.limbs, one);
        proof {
            montgomery::lemma_decoded(
                limbs::limbs_nat(self.limbs@),
                limbs::limbs_nat(r@),
                limbs::weight(6),
                Bls12Base::radix_inverse(),
                Bls12Base::order(),
            );
        }
        r
    }

    /// Whether all limbs are zero, which for a reduced element says that it is 0.
    pub fn is_zero(&self) -> (b: bool)
        ensures
            b == (limbs::limbs_nat(self.limbs@) == 0),
            self.wf() ==> b == (self@ == 0),
    {
        let zero = Bls12Base { limbs: [0; 6] };
        proof {
            limbs::lemma_limbs_nat_zeros(zero.limbs@);
            if limbs::limbs_nat(self.limbs@) == 0 {
                limbs::law_limbs_unique(self.limbs@, zero.limbs@);
                assert(self.limbs =~= zero.limbs);
            }
            Bls12Base::law_value_range(*self);
        }
        *self == zero
    }

    /// `self + self`.
    pub fn double(&self) -> (r: Bls12Base)
        requires
            self.wf(),
        ensures
            r.wf(),
            r@ == (2 * self@) % Bls12Base::order(),
    {
        *self + *self
    }

    /// `self + self + self`.
    pub fn triple(&self) -> (r: Bls12Base)
        requires
            self.wf(),
        ensures
            r.wf(),
            r@ == (3 * self@) % Bls12Base::order(),
    {
        proof {
            let m = Bls12Base::order() as int;
            let twice = (2 * self@) as int;
            lemma_mod_twice(twice, m);
            congruence::lemma_congruent_add(twice % m, twice, self@ as int, self@ as int, m);
        }
        self.double() + *self
    }

    /// `self * self`.
    pub fn square(&self) -> (r: Bls12Base)
        requires
            self.wf(),
        ensures
            r.wf(),
            r@ == (self@ * self@) % Bls12Base::order(),
    {
        *self * *self
    }

    /// `self * self * self`.
    pub fn cube(&self) -> (r: Bls12Base)
        requires
            self.wf(),
        ensures
            r.wf(),
            r@ == (self@ * self@ * self@) % Bls12Base::order(),
    {
        proof {
            lemma_mul_mod_noop_left(
                (self@ * self@) as int,
                self@ as int,
                Bls12Base::order() as int,
            );
        }
        self.square() * *self
    }
}

impl vstd::std_specs::ops::AddSpecImpl<Bls12Base> for Bls12Base {
    open spec fn obeys_add_spec() -> bool {
        true
    }

    open spec fn add_req(self, rhs: Bls12Base) -> bool {
        self.wf() && rhs.wf()
    }

    open spec fn add_spec(self, rhs: Bls12Base) -> Bls12Base {
        Bls12Base::sum_of(self, rhs)
    }
}

impl Add<Bls12Base> for Bls12Base {
    type Output = Bls12Base;

    fn add(self, rhs: Bls12Base) -> (ret: Bls12Base)
        ensures
            ret.wf(),
            ret@ == (self@ + rhs@) % Bls12Base::order(),
    {
        proof {
            Bls12Base::lemma_order_limbs();
        }
        // First we do a widening addition, then we reduce if necessary.
        let sum = add_6_6(self.limbs, rhs.limbs);
        let reduced = match cmp_7_6(sum, Bls12Base::ORDER) {
            core::cmp::Ordering::Less => sum,
            _ => sub_7_6(sum, Bls12Base::ORDER),
        };
        let limbs = [reduced[0], reduced[1], reduced[2], reduced[3], reduced[4], reduced[5]];
        let ret = Bls12Base { limbs };
        proof {
            limbs::lemma_top_limb_zero(reduced@, limbs@);
            Bls12Base::lemma_sum(self, rhs, ret);
            Bls12Base::lemma_is_of_value(ret, self@ + rhs@);
        }
        ret
    }
}

impl vstd::std_specs::ops::MulSpecImpl<Bls12Base> for Bls12Base {
    open spec fn obeys_mul_spec() -> bool {
        true
    }

    open spec fn mul_req(self, rhs: Bls12Base) -> bool {
        rhs.wf()
    }

    open spec fn mul_spec(self, rhs: Bls12Base) -> Bls12Base {
        Bls12Base::product_of(self, rhs)
    }
}

impl Mul<Bls12Base> for Bls12Base {
    type Output = Bls12Base;

    fn mul(self, rhs: Bls12Base) -> (ret: Bls12Base)
        ensures
            ret.wf(),
            ret@ == (self@ * rhs@) % Bls12Base::order(),
    {
        let ret = Bls12Base { limbs: Bls12Base::montgomery_multiply(self.limbs, rhs.limbs) };
        proof {
            Bls12Base::lemma_product(self, rhs, ret);
            Bls12Base::lemma_is_of_value(ret, self@ * rhs@);
        }
        ret
    }
}

impl vstd::std_specs::ops::MulSpecImpl<u64> for Bls12Base {
    open spec fn obeys_mul_spec() -> bool {
        true
    }

    open spec fn mul_req(self, rhs: u64) -> bool {
        true
    }

    open spec fn mul_spec(self, rhs: u64) -> Bls12Base {
        Bls12Base::of_value(self@ * rhs as nat)
    }
}

impl Mul<u64> for Bls12Base {
    type Output = Bls12Base;

    fn mul(self, rhs: u64) -> (ret: Bls12Base)
        ensures
            ret.wf(),
            ret@ == (self@ * rhs) % (Bls12Base::order() as int),
    {
        let rhs_field = Bls12Base::from_canonical_u64(rhs);
        self * rhs_field
    }
}

impl vstd::std_specs::ops::NegSpecImpl for Bls12Base {
    open spec fn obeys_neg_spec() -> bool {
        true
    }

    open spec fn neg_req(self) -> bool {
        self.wf()
    }

    open spec fn neg_spec(self) -> Bls12Base {
        Bls12Base::negation_of(self)
    }
}

impl Neg for Bls12Base {
    type Output = Bls12Base;

    fn neg(self) -> (ret: Bls12Base)
        ensures
            ret.wf(),
            ret@ == Bls12Base::difference(0, self@),
            ret@ == (0 - self@) % (Bls12Base::order() as int),
            (ret@ + self@) % Bls12Base::order() == 0,
            limbs::limbs_nat(self.limbs@) > 0 ==> limbs::limbs_nat(ret.limbs@) + limbs::limbs_nat(
                self.limbs@,
            ) == Bls12Base::order(),
    {
        let zero = Bls12Base::zero();
        proof {
            Bls12Base::lemma_order_limbs();
            Bls12Base::law_value_range(self);
            Bls12Base::law_value_range(zero);
            if self@ == 0 {
                Bls12Base::law_representation_unique(self, zero);
            }
        }
        let ret = if self == zero {
            zero
        } else {
            Bls12Base { limbs: sub_6_6(Bls12Base::ORDER, self.limbs) }
        };
        proof {
            Bls12Base::lemma_difference(zero, self, ret);
        }
        ret
    }
}

impl vstd::std_specs::ops::SubSpecImpl<Bls12Base> for Bls12Base {
    open spec fn obeys_sub_spec() -> bool {
        true
    }

    open spec fn sub_req(self, rhs: Bls12Base) -> bool {
        self.wf() && rhs.wf()
    }

    open spec fn sub_spec(self, rhs: Bls12Base) -> Bls12Base {
        Bls12Base::difference_of(self, rhs)
    }
}

impl Sub<Bls12Base> for Bls12Base {
    type Output = Bls12Base;

    fn sub(self, rhs: Bls12Base) -> (ret: Bls12Base)
        ensures
            ret.wf(),
            ret@ == Bls12Base::difference(self@, rhs@),
            (ret@ + rhs@) % Bls12Base::order() == self@,
    {
        let limbs = match cmp_6_6(self.limbs, rhs.limbs) {
            core::cmp::Ordering::Less => {
                // Underflow occurs, so we compute the difference as `self + (-rhs)`.
                let negated = rhs.neg();
                proof {
                    Bls12Base::lemma_order_limbs();
                }
                let sum = add_6_6(self.limbs, negated.limbs);
                let limbs = [sum[0], sum[1], sum[2], sum[3], sum[4], sum[5]];
                proof {
                    limbs::lemma_top_limb_zero(sum@, limbs@);
                }
                limbs
            },
            // No underflow, so it's fastest to subtract directly.
            _ => sub_6_6(self.limbs, rhs.limbs),
        };
        let ret = Bls12Base { limbs };
        proof {
            Bls12Base::lemma_difference(self, rhs, ret);
        }
        ret
    }
}

/// No number above 1 divides both.
spec fn coprime(u: nat, v: nat) -> bool {
    forall|d: nat| d > 1 ==> !(#[trigger] (u % d) == 0 && v % d == 0)
}

/// `b` is below the order and `b * a` is congruent to `u`.
spec fn tracks(b: nat, a: nat, u: nat) -> bool {
    &&& b < Bls12Base::order()
    &&& (b * a) % Bls12Base::order() == u % Bls12Base::order()
}

proof fn lemma_coprime_symmetric(u: nat, v: nat)
    requires
        coprime(u, v),
    ensures
        coprime(v, u),
{
    assert forall|d: nat| d > 1 implies !(#[trigger] (v % d) == 0 && u % d == 0) by {
        assert(!(u % d == 0 && v % d == 0));
    }
}

proof fn lemma_coprime_half(u: nat, v: nat)
    requires
        coprime(u, v),
        u % 2 == 0,
    ensures
        coprime(u / 2, v),
{
    assert forall|d: nat| d > 1 implies !(#[trigger] ((u / 2) % d) == 0 && v % d == 0) by {
        if (u / 2) % d == 0 && v % d == 0 {
            let k = congruence::lemma_divides_witness((u / 2) as int, d as int);
            assert(u == (2 * k) * d) by (nonlinear_arith)
                requires
                    u == 2 * (u / 2),
                    (u / 2) as int == k * d,
            ;
            congruence::lemma_add_multiple(0, 2 * k, d as int);
            assert(u % d == 0);
        }
    }
}

proof fn lemma_coprime_difference(u: nat, v: nat)
    requires
        coprime(u, v),
        u >= v,
    ensures
        coprime((u - v) as nat, v),
{
    let w = (u - v) as nat;
    assert forall|d: nat| d > 1 implies !(#[trigger] (w % d) == 0 && v % d == 0) by {
        if w % d == 0 && v % d == 0 {
            lemma_mod_adds(w as int, v as int, d as int);
            congruence::lemma_congruent_add(w as int, 0, v as int, 0, d as int);
            lemma_small_mod(0, d);
            assert(u % d == 0);
        }
    }
}

/// Halving both sides of a tracked congruence; an odd left side takes the order first.
proof fn lemma_tracks_half(b: nat, c: nat, a: nat, u: nat)
    requires
        tracks(b, a, u),
        u % 2 == 0,
        c % 2 == 0,
        c == b || c == b + Bls12Base::order(),
    ensures
        tracks(c / 2, a, u / 2),
{
    let m = Bls12Base::order() as int;
    let h = (c / 2) as int;
    let t = (u / 2) as int;
    if c == b + Bls12Base::order() {
        lemma_mul_is_distributive_add_other_way(a as int, b as int, m);
        lemma_mul_is_commutative(m, a as int);
        congruence::lemma_add_multiple((b * a) as int, a as int, m);
    }
    assert((h * a) * 2 == c * a) by (nonlinear_arith)
        requires
            c == 2 * h,
    ;
    // 2 has the inverse (order + 1) / 2
    let inverse = (m + 1) / 2;
    congruence::lemma_congruent_cancel(h * a, t, 2, inverse, m);
}

/// Subtracting tracked congruences.
proof fn lemma_tracks_difference(b: nat, c: nat, e: nat, a: nat, u: nat, v: nat)
    requires
        tracks(b, a, u),
        tracks(c, a, v),
        u >= v,
        e < Bls12Base::order(),
        e + c == b || e + c == b + Bls12Base::order(),
    ensures
        tracks(e, a, (u - v) as nat),
{
    let m = Bls12Base::order() as int;
    let x = (b * a) as int;
    let y = (c * a) as int;
    congruence::lemma_congruent_sub(x, u as int, y, v as int, m);
    if e + c == b {
        assert(e * a == x - y) by (nonlinear_arith)
            requires
                e + c == b,
                x == b * a,
                y == c * a,
        ;
    } else {
        assert(e * a == x - y + a * m) by (nonlinear_arith)
            requires
                e + c == b + m,
                x == b * a,
                y == c * a,
        ;
        congruence::lemma_add_multiple(x - y, a as int, m);
    }
}

/// Two odd parts of coprime numbers other than 1 are different.
proof fn lemma_odd_and_different(u0: nat, v0: nat, u: nat, v: nat)
    requires
        u0 != 1,
        v0 != 1,
        coprime(u0, v0),
        coprime(u, v),
        u > 0,
        u0 % 2 == 1 ==> u == u0,
        v0 % 2 == 1 ==> v == v0,
    ensures
        u != v,
{
    if u == v {
        if u > 1 {
            lemma_mod_self_0(u as int);
            assert(!(u % u == 0 && v % u == 0));
        }
        assert(!(u0 % 2 == 0 && v0 % 2 == 0));
    }
}

impl Bls12Base {
    /// The order is prime.
    pub proof fn law_order_prime()
        ensures
            primes::is_prime(Bls12Base::order()),
    {
        base_order::prime_order();
    }

    /// What the inversion of `a` starts from.
    proof fn lemma_inversion_start(a: nat)
        requires
            0 < a < Bls12Base::order(),
        ensures
            tracks(1, a, a),
            tracks(0, a, Bls12Base::order()),
            coprime(a, Bls12Base::order()),
    {
        let m = Bls12Base::order();
        lemma_mul_basics(a as int);
        lemma_mod_self_0(m as int);
        lemma_small_mod(0, m);
        Bls12Base::law_order_prime();
        assert forall|d: nat| d > 1 implies !(#[trigger] (a % d) == 0 && m % d == 0) by {
            if a % d == 0 && m % d == 0 {
                primes::lemma_divisor_bound(m, d);
                primes::lemma_divisor_bound(a, d);
                assert(m % d != 0);
            }
        }
    }

    proof fn lemma_not_one(x: [u64; 6], one: [u64; 6])
        requires
            x != one,
            limbs::limbs_nat(one@) == 1,
        ensures
            limbs::limbs_nat(x@) != 1,
    {
        if limbs::limbs_nat(x@) == 1 {
            limbs::law_limbs_unique(x@, one@);
            assert(x =~= one);
        }
    }

    fn is_less(a: [u64; 6], b: [u64; 6]) -> (r: bool)
        ensures
            r == (limbs::limbs_nat(a@) < limbs::limbs_nat(b@)),
    {
        matches!(cmp_6_6(a, b), core::cmp::Ordering::Less)
    }

    fn add_asserting_no_overflow(a: [u64; 6], b: [u64; 6]) -> (r: [u64; 6])
        requires
            limbs::limbs_nat(a@) + limbs::limbs_nat(b@) < limbs::weight(6),
        ensures
            limbs::limbs_nat(r@) == limbs::limbs_nat(a@) + limbs::limbs_nat(b@),
    {
        let sum = add_6_6(a, b);
        let r = [sum[0], sum[1], sum[2], sum[3], sum[4], sum[5]];
        proof {
            limbs::lemma_top_limb_zero(sum@, r@);
        }
        r
    }

    fn is_even(x: [u64; 6]) -> (r: bool)
        ensures
            r == (limbs::limbs_nat(x@) % 2 == 0),
    {
        let low = x[0];
        proof {
            limbs::lemma_limbs_nat_first(x@);
            assert(low & 1 == low % 2) by (bit_vector);
        }
        low & 1 == 0
    }

    fn is_odd(x: [u64; 6]) -> (r: bool)
        ensures
            r == (limbs::limbs_nat(x@) % 2 == 1),
    {
        let low = x[0];
        proof {
            limbs::lemma_limbs_nat_first(x@);
            assert(low & 1 == low % 2) by (bit_vector);
        }
        low & 1 == 1
    }

    /// One limb of a number shifted right by one bit, with the lowest bit of the next limb.
    fn shift_limb(low: u64, high: u64) -> (r: u64)
        ensures
            r == low / 2 + (high % 2) * 0x8000_0000_0000_0000,
    {
        assert((low >> 1u64 | high << 63u64) == low / 2 + (high % 2) * 0x8000_0000_0000_0000)
            by (bit_vector);
        low >> 1 | high << 63
    }

    /// Shift right (in the direction of decreasing significance) by 1. Equivalent to integer
    /// division by two.
    pub fn div2(x: [u64; 6]) -> (r: [u64; 6])
        ensures
            limbs::limbs_nat(r@) == limbs::limbs_nat(x@) / 2,
    {
        let r = [
            Bls12Base::shift_limb(x[0], x[1]),
            Bls12Base::shift_limb(x[1], x[2]),
            Bls12Base::shift_limb(x[2], x[3]),
            Bls12Base::shift_limb(x[3], x[4]),
            Bls12Base::shift_limb(x[4], x[5]),
            Bls12Base::shift_limb(x[5], 0),
        ];
        proof {
            limbs::lemma_limbs_nat_6(x@);
            limbs::lemma_limbs_nat_6(r@);
        }
        r
    }

    /// Halves `u` until it is odd, and `b` modulo the order as often.
    fn remove_twos(u: [u64; 6], b: [u64; 6], Ghost(a): Ghost<nat>, Ghost(v): Ghost<nat>) -> (r: (
        [u64; 6],
        [u64; 6],
    ))
        requires
            limbs::limbs_nat(u@) > 0,
            tracks(limbs::limbs_nat(b@), a, limbs::limbs_nat(u@)),
            coprime(limbs::limbs_nat(u@), v),
        ensures
            0 < limbs::limbs_nat(r.0@) <= limbs::limbs_nat(u@),
            limbs::limbs_nat(r.0@) % 2 == 1,
            limbs::limbs_nat(u@) % 2 == 1 ==> r.0 == u,
            tracks(limbs::limbs_nat(r.1@), a, limbs::limbs_nat(r.0@)),
            coprime(limbs::limbs_nat(r.0@), v),
    {
        let mut u = u;
        let mut b = b;
        let ghost u0 = u;
        while Bls12Base::is_even(u)
            invariant
                0 < limbs::limbs_nat(u@) <= limbs::limbs_nat(u0@),
                limbs::limbs_nat(u0@) % 2 == 1 ==> u == u0,
                tracks(limbs::limbs_nat(b@), a, limbs::limbs_nat(u@)),
                coprime(limbs::limbs_nat(u@), v),
            decreases limbs::limbs_nat(u@),
        {
            let ghost nu = limbs::limbs_nat(u@);
            let ghost nb = limbs::limbs_nat(b@);
            proof {
                Bls12Base::lemma_order_limbs();
                lemma_coprime_half(nu, v);
            }
            u = Bls12Base::div2(u);
            if Bls12Base::is_odd(b) {
                b = Bls12Base::add_asserting_no_overflow(b, Bls12Base::ORDER);
            }
            proof {
                lemma_tracks_half(nb, limbs::limbs_nat(b@), a, nu);
            }
            b = Bls12Base::div2(b);
        }
        (u, b)
    }

    /// `b - c` modulo the order, for reduced numbers.
    fn sub_modulo_order(b: [u64; 6], c: [u64; 6]) -> (r: [u64; 6])
        requires
            limbs::limbs_nat(b@) < Bls12Base::order(),
            limbs::limbs_nat(c@) < Bls12Base::order(),
        ensures
            limbs::limbs_nat(r@) < Bls12Base::order(),
            limbs::limbs_nat(r@) + limbs::limbs_nat(c@) == limbs::limbs_nat(b@) || limbs::limbs_nat(
                r@,
            ) + limbs::limbs_nat(c@) == limbs::limbs_nat(b@) + Bls12Base::order(),
    {
        proof {
            Bls12Base::lemma_order_limbs();
        }
        let minuend = match cmp_6_6(b, c) {
            core::cmp::Ordering::Less => Bls12Base::add_asserting_no_overflow(b, Bls12Base::ORDER),
            _ => b,
        };
        sub_6_6(minuend, c)
    }

    /// The inverse of `a` modulo the order.
    fn nonzero_multiplicative_inverse_canonical(a: [u64; 6]) -> (r: [u64; 6])
        requires
            0 < limbs::limbs_nat(a@) < Bls12Base::order(),
        ensures
            limbs::limbs_nat(r@) < Bls12Base::order(),
            (limbs::limbs_nat(r@) * limbs::limbs_nat(a@)) % Bls12Base::order() == 1,
    {
        // Based on Algorithm 16 of "Efficient Software-Implementation of Finite Fields with
        // Applications to Cryptography".
        let zero = [0u64; 6];
        let one = [1, 0, 0, 0, 0, 0];

        let mut u = a;
        let mut v = Bls12Base::ORDER;
        let mut b = one;
        let mut c = zero;

        let ghost na = limbs::limbs_nat(a@);
        proof {
            Bls12Base::lemma_order_limbs();
            limbs::lemma_limbs_nat_6(one@);
            limbs::lemma_limbs_nat_zeros(zero@);
            Bls12Base::lemma_inversion_start(na);
        }
        while !limbs_equal(u, one) && !limbs_equal(v, one)
            invariant
                limbs::limbs_nat(one@) == 1,
                limbs::limbs_nat(u@) > 0,
                limbs::limbs_nat(v@) > 0,
                coprime(limbs::limbs_nat(u@), limbs::limbs_nat(v@)),
                tracks(limbs::limbs_nat(b@), na, limbs::limbs_nat(u@)),
                tracks(limbs::limbs_nat(c@), na, limbs::limbs_nat(v@)),
            decreases limbs::limbs_nat(u@) + limbs::limbs_nat(v@),
        {
            let ghost u0 = u;
            let ghost v0 = v;
            proof {
                Bls12Base::lemma_not_one(u, one);
                Bls12Base::lemma_not_one(v, one);
            }
            let (next_u, next_b) = Bls12Base::remove_twos(
                u,
                b,
                Ghost(na),
                Ghost(limbs::limbs_nat(v@)),
            );
            u = next_u;
            b = next_b;
            proof {
                lemma_coprime_symmetric(limbs::limbs_nat(u@), limbs::limbs_nat(v@));
            }
            let (next_v, next_c) = Bls12Base::remove_twos(
                v,
                c,
                Ghost(na),
                Ghost(limbs::limbs_nat(u@)),
            );
            v = next_v;
            c = next_c;
            let ghost nu = limbs::limbs_nat(u@);
            let ghost nv = limbs::limbs_nat(v@);
            let ghost nb = limbs::limbs_nat(b@);
            let ghost nc = limbs::limbs_nat(c@);
            proof {
                lemma_coprime_symmetric(nv, nu);
                lemma_odd_and_different(
                    limbs::limbs_nat(u0@),
                    limbs::limbs_nat(v0@),
                    nu,
                    nv,
                );
            }
            if Bls12Base::is_less(u, v) {
                v = sub_6_6(v, u);
                c = Bls12Base::sub_modulo_order(c, b);
                proof {
                    lemma_coprime_difference(nv, nu);
                    lemma_coprime_symmetric((nv - nu) as nat, nu);
                    lemma_tracks_difference(nc, nb, limbs::limbs_nat(c@), na, nv, nu);
                }
            } else {
                u = sub_6_6(u, v);
                b = Bls12Base::sub_modulo_order(b, c);
                proof {
                    lemma_coprime_difference(nu, nv);
                    lemma_tracks_difference(nb, nc, limbs::limbs_nat(b@), na, nu, nv);
                }
            }
        }
        proof {
            lemma_small_mod(1, Bls12Base::order());
        }
        if limbs_equal(u, one) {
            b
        } else {
            c
        }
    }
}

impl Bls12Base {
    /// The inverse of this element, if it is not zero.
    pub fn multiplicative_inverse(&self) -> (r: Option<Bls12Base>)
        requires
            self.wf(),
        ensures
            r is None <==> self@ == 0,
            r matches Some(x) ==> x.wf() && (self@ * x@) % Bls12Base::order() == 1,
    {
        proof {
            Bls12Base::law_value_range(*self);
        }
        if self.is_zero() {
            None
        } else {
            proof {
                Bls12Base::lemma_constants();
            }
            // Let x R = self. We compute M((x R)^-1, R^3) = x^-1 R^-1 R^3 R^-1 = x^-1 R.
            let self_r_inv = Bls12Base::nonzero_multiplicative_inverse_canonical(self.limbs);
            let x = Bls12Base {
                limbs: Bls12Base::montgomery_multiply(self_r_inv, Bls12Base::R3),
            };
            proof {
                Bls12Base::lemma_inverse(*self, Bls12Base { limbs: self_r_inv }, x);
            }
            Some(x)
        }
    }

    /// A Montgomery product of the inverse of the limbs and R^3 stands for the inverse.
    proof fn lemma_inverse(a: Bls12Base, b: Bls12Base, x: Bls12Base)
        requires
            (limbs::limbs_nat(b.limbs@) * limbs::limbs_nat(a.limbs@)) % Bls12Base::order() == 1,
            (limbs::limbs_nat(x.limbs@) * limbs::weight(6)) % Bls12Base::order() == (
            limbs::limbs_nat(b.limbs@) * limbs::limbs_nat(Bls12Base::R3@)) % Bls12Base::order(),
        ensures
            (a@ * x@) % Bls12Base::order() == 1,
    {
        Bls12Base::lemma_constants();
        montgomery::lemma_inverse_of_form(
            limbs::limbs_nat(a.limbs@),
            limbs::limbs_nat(b.limbs@),
            limbs::limbs_nat(x.limbs@),
            limbs::limbs_nat(Bls12Base::R3@),
            limbs::weight(6),
            Bls12Base::radix_inverse(),
            Bls12Base::order(),
        );
    }
}

impl vstd::std_specs::ops::DivSpecImpl<Bls12Base> for Bls12Base {
    open spec fn obeys_div_spec() -> bool {
        true
    }

    open spec fn div_req(self, rhs: Bls12Base) -> bool {
        rhs.wf() && rhs@ != 0
    }

    open spec fn div_spec(self, rhs: Bls12Base) -> Bls12Base {
        Bls12Base::quotient_of(self, rhs)
    }
}

impl Div<Bls12Base> for Bls12Base {
    type Output = Bls12Base;

    fn div(self, rhs: Bls12Base) -> (ret: Bls12Base)
        ensures
            ret.wf(),
            (ret@ * rhs@) % Bls12Base::order() == self@,
    {
        let inverse = rhs.multiplicative_inverse().expect("No inverse");
        let ret = self * inverse;
        proof {
            Bls12Base::law_value_range(self);
            Bls12Base::lemma_inverse_value(rhs, inverse);
            primes::lemma_quotient(self@, rhs@, inverse@, ret@, Bls12Base::order());
        }
        ret
    }
}

impl Bls12Base {
    /// An element that multiplies with another to 1 stands for the inverse of its value.
    pub(crate) proof fn lemma_inverse_value(x: Bls12Base, y: Bls12Base)
        requires
            (x@ * y@) % Bls12Base::order() == 1,
        ensures
            y@ == Bls12Base::inverse_value(x@),
    {
        let m = Bls12Base::order();
        let v = Bls12Base::inverse_value(x@);
        Bls12Base::law_value_range(y);
        assert(y@ < m && (x@ * y@) % m == 1);
        assert(v < m && (x@ * v) % m == 1);
        primes::lemma_inverse_unique(x@, y@, v, m);
    }

    /// The inverse of each element, or nothing where the element is zero.
    pub fn batch_multiplicative_inverse_opt(x: &[Bls12Base]) -> (r: Vec<Option<Bls12Base>>)
        requires
            forall|i: int| 0 <= i < x@.len() ==> (#[trigger] x@[i]).wf(),
        ensures
            r@.len() == x@.len(),
            forall|i: int|
                0 <= i < x@.len() ==> ((#[trigger] r@[i]) is None <==> x@[i]@ == 0),
            forall|i: int|
                0 <= i < x@.len() ==> ((#[trigger] r@[i]) matches Some(y) ==> y.wf() && (x@[i]@
                    * y@) % Bls12Base::order() == 1),
    {
        let n = x.len();
        let mut x_nonzero: Vec<Bls12Base> = Vec::with_capacity(n);
        let mut index_map: Vec<usize> = Vec::with_capacity(n);

        let mut i: usize = 0;
        while i < n
            invariant
                i <= n,
                n == x@.len(),
                forall|j: int| 0 <= j < x@.len() ==> (#[trigger] x@[j]).wf(),
                index_map@.len() == i,
                x_nonzero@.len() <= i,
                forall|j: int|
                    0 <= j < i && x@[j]@ != 0 ==> (#[trigger] index_map@[j]) < x_nonzero@.len()
                        && x_nonzero@[index_map@[j] as int] == x@[j],
                forall|j: int|
                    0 <= j < x_nonzero@.len() ==> (#[trigger] x_nonzero@[j]).wf()
                        && x_nonzero@[j]@ != 0,
            decreases n - i,
        {
            let x_i = x[i];
            assert(x_i == x@[i as int]);
            if !x_i.is_zero() {
                index_map.push(x_nonzero.len());
                x_nonzero.push(x_i);
            } else {
                // Push an intentionally out-of-bounds index to make sure it isn't used.
                index_map.push(n);
            }
            i = i + 1;
        }

        let x_inv = Bls12Base::batch_multiplicative_inverse(x_nonzero.as_slice());

        let mut result: Vec<Option<Bls12Base>> = Vec::with_capacity(n);
        let mut i: usize = 0;
        while i < n
            invariant
                i <= n,
                n == x@.len(),
                forall|j: int| 0 <= j < x@.len() ==> (#[trigger] x@[j]).wf(),
                index_map@.len() == n,
                x_inv@.len() == x_nonzero@.len(),
                forall|j: int|
                    0 <= j < n && x@[j]@ != 0 ==> (#[trigger] index_map@[j]) < x_nonzero@.len()
                        && x_nonzero@[index_map@[j] as int] == x@[j],
                forall|j: int|
                    0 <= j < x_inv@.len() ==> (#[trigger] x_inv@[j]).wf() && (x_nonzero@[j]@
                        * x_inv@[j]@) % Bls12Base::order() == 1,
                result@.len() == i,
                forall|j: int|
                    0 <= j < i ==> ((#[trigger] result@[j]) is None <==> x@[j]@ == 0),
                forall|j: int|
                    0 <= j < i ==> ((#[trigger] result@[j]) matches Some(y) ==> y.wf() && (x@[j]@
                        * y@) % Bls12Base::order() == 1),
            decreases n - i,
        {
            let x_i = x[i];
            assert(x_i == x@[i as int]);
            if !x_i.is_zero() {
                let k = index_map[i];
                assert(k == index_map@[i as int]);
                result.push(Some(x_inv[k]));
            } else {
                result.push(None);
            }
            i = i + 1;
        }
        result
    }

    /// The inverse of each element.
    pub fn batch_multiplicative_inverse(x: &[Bls12Base]) -> (r: Vec<Bls12Base>)
        requires
            forall|i: int| 0 <= i < x@.len() ==> (#[trigger] x@[i]).wf() && x@[i]@ != 0,
        ensures
            r@.len() == x@.len(),
            forall|i: int|
                0 <= i < x@.len() ==> (#[trigger] r@[i]).wf() && (x@[i]@ * r@[i]@)
                    % Bls12Base::order() == 1,
    {
        // This is Montgomery's trick. At a high level, we invert the product of the given field
        // elements, then derive the individual inverses from that via multiplication.
        let n = x.len();
        if n == 0 {
            return Vec::new();
        }
        let ghost m = Bls12Base::order();
        proof {
            Bls12Base::law_order_prime();
        }

        let mut a: Vec<Bls12Base> = Vec::with_capacity(n);
        assert(x@[0].wf());
        a.push(x[0]);
        let mut i: usize = 1;
        while i < n
            invariant
                1 <= i <= n,
                n == x@.len(),
                m == Bls12Base::order(),
                primes::is_prime(m),
                forall|j: int| 0 <= j < x@.len() ==> (#[trigger] x@[j]).wf() && x@[j]@ != 0,
                a@.len() == i,
                a@[0] == x@[0],
                forall|j: int| 0 <= j < i ==> (#[trigger] a@[j]).wf() && a@[j]@ != 0,
                forall|j: int| 1 <= j < i ==> (#[trigger] a@[j])@ == (a@[j - 1]@ * x@[j]@) % m,
            decreases n - i,
        {
            let previous = a[i - 1];
            let x_i = x[i];
            assert(previous == a@[i - 1]);
            assert(x_i == x@[i as int]);
            let next = previous * x_i;
            proof {
                Bls12Base::law_value_range(previous);
                Bls12Base::law_value_range(x_i);
                primes::lemma_nonzero_product(previous@, x_i@, m);
            }
            a.push(next);
            i = i + 1;
        }

        let mut a_inv = vec![Bls12Base::zero(); n];
        let last = a[n - 1];
        assert(last == a@[n - 1]);
        a_inv[n - 1] = last.multiplicative_inverse().expect("No inverse");
        let mut i: usize = n - 1;
        while i > 0
            invariant
                i < n,
                n == x@.len(),
                n == a@.len(),
                n == a_inv@.len(),
                m == Bls12Base::order(),
                primes::is_prime(m),
                forall|j: int| 0 <= j < x@.len() ==> (#[trigger] x@[j]).wf() && x@[j]@ != 0,
                forall|j: int| 0 <= j < n ==> (#[trigger] a@[j]).wf(),
                forall|j: int| 1 <= j < n ==> (#[trigger] a@[j])@ == (a@[j - 1]@ * x@[j]@) % m,
                forall|j: int|
                    i <= j < n ==> (#[trigger] a_inv@[j]).wf() && (a@[j]@ * a_inv@[j]@) % m == 1,
            decreases i,
        {
            let x_i = x[i];
            let inv_i = a_inv[i];
            assert(x_i == x@[i as int]);
            assert(inv_i == a_inv@[i as int]);
            proof {
                let previous = a@[i - 1];
                assert(a@[i as int]@ == (previous@ * x_i@) % m);
                primes::lemma_split_inverse(previous@, x_i@, inv_i@, m);
            }
            i = i - 1;
            a_inv[i] = x_i * inv_i;
        }

        let mut x_inv: Vec<Bls12Base> = Vec::with_capacity(n);
        x_inv.push(a_inv[0]);
        let mut i: usize = 1;
        while i < n
            invariant
                1 <= i <= n,
                n == x@.len(),
                n == a@.len(),
                n == a_inv@.len(),
                m == Bls12Base::order(),
                primes::is_prime(m),
                forall|j: int| 0 <= j < n ==> (#[trigger] a@[j]).wf(),
                forall|j: int| 1 <= j < n ==> (#[trigger] a@[j])@ == (a@[j - 1]@ * x@[j]@) % m,
                forall|j: int|
                    0 <= j < n ==> (#[trigger] a_inv@[j]).wf() && (a@[j]@ * a_inv@[j]@) % m == 1,
                x_inv@.len() == i,
                forall|j: int|
                    0 <= j < i ==> (#[trigger] x_inv@[j]).wf() && (x@[j]@ * x_inv@[j]@) % m == 1,
            decreases n - i,
        {
            let previous = a[i - 1];
            let inv_i = a_inv[i];
            assert(previous == a@[i - 1]);
            assert(inv_i == a_inv@[i as int]);
            proof {
                let x_i = x@[i as int];
                assert(a@[i as int]@ == (previous@ * x_i@) % m);
                primes::lemma_split_inverse(previous@, x_i@, inv_i@, m);
            }
            x_inv.push(previous * inv_i);
            i = i + 1;
        }
        x_inv
    }
}

} // verus!
