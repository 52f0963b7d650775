//! The scalar field of BLS12-377.

use core::ops::{Add, Div, Mul, Neg};
use rand::rngs::OsRng;
use rand::RngCore;
use vstd::arithmetic::div_mod::*;
use vstd::arithmetic::mul::*;
use vstd::prelude::*;

use crate::congruence;
use crate::conversions::{biguint_to_u64_vec, u64_slice_to_biguint};
use crate::limbs;
use crate::limbs::{add_4_4, cmp_4_4, cmp_5_4, limbs_equal, sub_4_4, sub_5_4};
use crate::montgomery;
use crate::montgomery::montgomery_product;
use crate::num_util;
use crate::num_util::modinv;
use crate::primes;
use crate::random::RandomSource;
use crate::scalar_order;

verus! {

/// `OsRng` of the crate `rand`: `RngCore::next_u64`. Any value can come back, and it becomes the
/// last one in the record of what the source has given. Where the operating system has no
/// randomness to give, the call panics.
#[verifier::external_body]
fn os_random_u64(source: &mut RandomSource) -> (r: u64)
    ensures
        final(source)@ == old(source)@.push(r),
{
    OsRng.next_u64()
}

/// An element of the BLS12 group's scalar field.
///
/// The limbs are little-endian and hold the Montgomery form: 2^256 times the element.
#[derive(Copy, Clone, Eq, Hash, Debug)]
pub struct Bls12Scalar {
    pub limbs: [u64; 4],
}

/// The number below the order that an element stands for.
impl View for Bls12Scalar {
    type V = nat;

    open spec fn view(&self) -> nat {
        montgomery::decode(
            limbs::limbs_nat(self.limbs@),
            Bls12Scalar::radix_inverse(),
            Bls12Scalar::order(),
        )
    }
}

impl PartialEq for Bls12Scalar {
    fn eq(&self, other: &Bls12Scalar) -> (r: bool)
        ensures
            r == (self.limbs@ == other.limbs@),
    {
        proof {
            if self.limbs@ == other.limbs@ {
                assert(self.limbs =~= other.limbs);
            }
        }
        limbs_equal(self.limbs, other.limbs)
    }
}

impl vstd::std_specs::cmp::PartialEqSpecImpl for Bls12Scalar {
    open spec fn obeys_eq_spec() -> bool {
        true
    }

    open spec fn eq_spec(&self, other: &Bls12Scalar) -> bool {
        *self == *other
    }
}

impl Bls12Scalar {
    /// The number of bits of the order.
    pub const BITS: usize = 253;

    /// The order of the field:
    /// 8444461749428370424248824938781546531375899335154063827935233455917409239041
    pub const ORDER: [u64; 4] = [
        725501752471715841,
        6461107452199829505,
        6968279316240510977,
        1345280370688173398,
    ];

    /// R in the context of the Montgomery reduction, i.e. 2^256 % |F|.
    pub const R: [u64; 4] = [
        9015221291577245683,
        8239323489949974514,
        1646089257421115374,
        958099254763297437,
    ];

    /// R^2 in the context of the Montgomery reduction, i.e. 2^256^2 % |F|.
    pub(crate) const R2: [u64; 4] = [
        2726216793283724667,
        14712177743343147295,
        12091039717619697043,
        81024008013859129,
    ];

    /// R^3 in the context of the Montgomery reduction, i.e. 2^256^3 % |F|.
    pub(crate) const R3: [u64; 4] = [
        7656847007262524748,
        7083357369969088153,
        12818756329091487507,
        432872940405820890,
    ];

    /// In the context of Montgomery multiplication, -|F|^-1 mod 2^64.
    const MU: u64 = 725501752471715839;

    /// How often two divides the order less one.
    pub const TWO_ADICITY: usize = 47;

    /// The order of the field, as a number.
    pub open spec fn order() -> nat {
        8444461749428370424248824938781546531375899335154063827935233455917409239041nat
    }

    /// The inverse of 2^256 modulo the order.
    pub open spec fn radix_inverse() -> nat {
        3482466379256973933331601287759811764685972354380176549708408303012390300674nat
    }

    /// The odd part of the order less one.
    pub open spec fn odd_part() -> nat {
        60001509534603559531609739528203892656505753216962260608619555nat
    }

    /// The limbs are reduced: every element has exactly one such form.
    pub open spec fn wf(self) -> bool {
        limbs::limbs_nat(self.limbs@) < Bls12Scalar::order()
    }

    /// The element that stands for `n` modulo the order.
    pub open spec fn of_value(n: nat) -> Bls12Scalar {
        choose|x: Bls12Scalar| x.wf() && #[trigger] x@ == n % Bls12Scalar::order()
    }

    /// `x - y` modulo the order.
    pub open spec fn difference(x: nat, y: nat) -> nat {
        ((x - y) % (Bls12Scalar::order() as int)) as nat
    }

    /// The number below the order that multiplies with `n` to 1, if there is one.
    pub open spec fn inverse_value(n: nat) -> nat {
        choose|v: nat|
            v < Bls12Scalar::order() && #[trigger] (n * v) % Bls12Scalar::order() == 1
    }

    /// What `x + y` is.
    pub open spec fn sum_of(x: Bls12Scalar, y: Bls12Scalar) -> Bls12Scalar {
        Bls12Scalar::of_value(x@ + y@)
    }

    /// What `x * y` is.
    pub open spec fn product_of(x: Bls12Scalar, y: Bls12Scalar) -> Bls12Scalar {
        Bls12Scalar::of_value(x@ * y@)
    }

    /// What `-x` is.
    pub open spec fn negation_of(x: Bls12Scalar) -> Bls12Scalar {
        Bls12Scalar::of_value(Bls12Scalar::difference(0, x@))
    }

    /// What `x / y` is.
    pub open spec fn quotient_of(x: Bls12Scalar, y: Bls12Scalar) -> Bls12Scalar {
        Bls12Scalar::of_value(x@ * Bls12Scalar::inverse_value(y@))
    }

    proof fn lemma_constants()
        ensures
            limbs::limbs_nat(Bls12Scalar::ORDER@) == Bls12Scalar::order(),
            limbs::limbs_nat(Bls12Scalar::R@) < Bls12Scalar::order(),
            limbs::limbs_nat(Bls12Scalar::R@) == limbs::weight(4) % Bls12Scalar::order(),
            limbs::limbs_nat(Bls12Scalar::R2@) < Bls12Scalar::order(),
            limbs::limbs_nat(Bls12Scalar::R2@) == (limbs::weight(4) * limbs::weight(4))
                % Bls12Scalar::order(),
            limbs::limbs_nat(Bls12Scalar::R3@) < Bls12Scalar::order(),
            limbs::limbs_nat(Bls12Scalar::R3@) == (limbs::weight(4) * limbs::weight(4)
                * limbs::weight(4)) % Bls12Scalar::order(),
            (limbs::weight(4) * Bls12Scalar::radix_inverse()) % Bls12Scalar::order() == 1,
            2 * Bls12Scalar::order() <= limbs::weight(4),
            (Bls12Scalar::MU * Bls12Scalar::ORDER[0] + 1) % 0x1_0000_0000_0000_0000 == 0,
    {
        limbs::lemma_limbs_nat_4(Bls12Scalar::ORDER@);
        limbs::lemma_limbs_nat_4(Bls12Scalar::R@);
        limbs::lemma_limbs_nat_4(Bls12Scalar::R2@);
        limbs::lemma_limbs_nat_4(Bls12Scalar::R3@);
        limbs::lemma_weights();
    }
}

impl Bls12Scalar {
    /// Reduced elements that stand for the same number are the same.
    pub proof fn law_representation_unique(x: Bls12Scalar, y: Bls12Scalar)
        requires
            x.wf(),
            y.wf(),
            x@ == y@,
        ensures
            x == y,
    {
        Bls12Scalar::lemma_constants();
        montgomery::lemma_decode_injective(
            limbs::limbs_nat(x.limbs@),
            limbs::limbs_nat(y.limbs@),
            limbs::weight(4),
            Bls12Scalar::radix_inverse(),
            Bls12Scalar::order(),
        );
        limbs::law_limbs_unique(x.limbs@, y.limbs@);
        assert(x.limbs =~= y.limbs);
    }

    /// `ORDER` holds the order, and `R` the remainder of 2^256.
    pub proof fn law_constants()
        ensures
            limbs::limbs_nat(Bls12Scalar::ORDER@) == Bls12Scalar::order(),
            limbs::limbs_nat(Bls12Scalar::R@) == limbs::weight(4) % Bls12Scalar::order(),
    {
        Bls12Scalar::lemma_constants();
    }

    /// The limbs of a reduced element hold 2^256 times the element, modulo the order.
    pub proof fn law_montgomery_form(x: Bls12Scalar)
        requires
            x.wf(),
        ensures
            limbs::limbs_nat(x.limbs@) == (x@ * limbs::weight(4)) % Bls12Scalar::order(),
    {
        Bls12Scalar::lemma_constants();
        montgomery::lemma_decode_times_radix(
            limbs::limbs_nat(x.limbs@),
            limbs::weight(4),
            Bls12Scalar::radix_inverse(),
            Bls12Scalar::order(),
        );
        lemma_small_mod(limbs::limbs_nat(x.limbs@), Bls12Scalar::order());
    }

    pub(crate) proof fn lemma_value_times_radix(x: Bls12Scalar)
        ensures
            (x@ * limbs::weight(4)) % Bls12Scalar::order() == limbs::limbs_nat(x.limbs@) % Bls12Scalar::order(),
            (limbs::weight(4) * Bls12Scalar::radix_inverse()) % Bls12Scalar::order() == 1,
    {
        Bls12Scalar::lemma_constants();
        montgomery::lemma_decode_times_radix(
            limbs::limbs_nat(x.limbs@),
            limbs::weight(4),
            Bls12Scalar::radix_inverse(),
            Bls12Scalar::order(),
        );
    }

    pub(crate) proof fn lemma_is_of_value(x: Bls12Scalar, n: nat)
        requires
            x.wf(),
            x@ == n % Bls12Scalar::order(),
        ensures
            x == Bls12Scalar::of_value(n),
    {
        Bls12Scalar::law_representation_unique(x, Bls12Scalar::of_value(n));
    }

    /// Every number stands for an element.
    pub proof fn law_of_value(n: nat)
        ensures
            Bls12Scalar::of_value(n).wf(),
            Bls12Scalar::of_value(n)@ == n % Bls12Scalar::order(),
    {
        let m = Bls12Scalar::order();
        let v = (n * limbs::weight(4)) % m;
        Bls12Scalar::lemma_constants();
        lemma_mod_bound((n * limbs::weight(4)) as int, m as int);
        let s = limbs::lemma_limbs_exist(v, 4);
        let x = Bls12Scalar { limbs: [s[0], s[1], s[2], s[3]] };
        assert(x.limbs@ =~= s);
        lemma_mod_twice((n * limbs::weight(4)) as int, m as int);
        montgomery::lemma_decode_encoded(
            n,
            v,
            limbs::weight(4),
            Bls12Scalar::radix_inverse(),
            m,
        );
        assert(x.wf() && x@ == n % m);
    }

    /// The number that an element stands for is below the order, and it is 0 for zero limbs only.
    pub proof fn law_value_range(x: Bls12Scalar)
        ensures
            x@ < Bls12Scalar::order(),
            limbs::limbs_nat(x.limbs@) == 0 ==> x@ == 0,
            x.wf() && x@ == 0 ==> limbs::limbs_nat(x.limbs@) == 0,
    {
        reveal(montgomery::decode);
        let n = limbs::limbs_nat(x.limbs@);
        let m = Bls12Scalar::order();
        Bls12Scalar::lemma_constants();
        lemma_mod_bound((n * Bls12Scalar::radix_inverse()) as int, m as int);
        lemma_mul_basics(Bls12Scalar::radix_inverse() as int);
        lemma_small_mod(0, m);
        if x.wf() && x@ == 0 {
            montgomery::lemma_decode_injective(
                n,
                0,
                limbs::weight(4),
                Bls12Scalar::radix_inverse(),
                m,
            );
        }
    }

    /// A Montgomery product of limbs stands for the product.
    proof fn lemma_product(x: Bls12Scalar, y: Bls12Scalar, z: Bls12Scalar)
        requires
            (limbs::limbs_nat(z.limbs@) * limbs::weight(4)) % Bls12Scalar::order() == (
            limbs::limbs_nat(x.limbs@) * limbs::limbs_nat(y.limbs@)) % Bls12Scalar::order(),
        ensures
            z@ == (x@ * y@) % Bls12Scalar::order(),
    {
        Bls12Scalar::lemma_constants();
        montgomery::lemma_decode_mul(
            limbs::limbs_nat(x.limbs@),
            limbs::limbs_nat(y.limbs@),
            limbs::limbs_nat(z.limbs@),
            limbs::weight(4),
            Bls12Scalar::radix_inverse(),
            Bls12Scalar::order(),
        );
    }

    /// A sum of limbs, reduced or not, stands for the sum.
    proof fn lemma_sum(x: Bls12Scalar, y: Bls12Scalar, z: Bls12Scalar)
        requires
            limbs::limbs_nat(z.limbs@) == limbs::limbs_nat(x.limbs@) + limbs::limbs_nat(y.limbs@)
                || limbs::limbs_nat(z.limbs@) + Bls12Scalar::order() == limbs::limbs_nat(x.limbs@)
                + limbs::limbs_nat(y.limbs@),
        ensures
            z@ == (x@ + y@) % Bls12Scalar::order(),
    {
        let nz = limbs::limbs_nat(z.limbs@);
        congruence::lemma_add_multiple(nz as int, 1, Bls12Scalar::order() as int);
        montgomery::lemma_decode_add(
            limbs::limbs_nat(x.limbs@),
            limbs::limbs_nat(y.limbs@),
            nz,
            Bls12Scalar::radix_inverse(),
            Bls12Scalar::order(),
        );
    }

    /// A difference of limbs, or that difference and the order, stands for the difference.
    proof fn lemma_difference(x: Bls12Scalar, y: Bls12Scalar, z: Bls12Scalar)
        requires
            limbs::limbs_nat(z.limbs@) + limbs::limbs_nat(y.limbs@) == limbs::limbs_nat(x.limbs@)
                || limbs::limbs_nat(z.limbs@) + limbs::limbs_nat(y.limbs@) == limbs::limbs_nat(
                x.limbs@,
            ) + Bls12Scalar::order(),
        ensures
            z@ == Bls12Scalar::difference(x@, y@),
            (z@ + y@) % Bls12Scalar::order() == x@,
            z.wf() ==> z == Bls12Scalar::of_value(Bls12Scalar::difference(x@, y@)),
    {
        let nx = limbs::limbs_nat(x.limbs@);
        let ny = limbs::limbs_nat(y.limbs@);
        congruence::lemma_add_multiple(nx - ny, 1, Bls12Scalar::order() as int);
        montgomery::lemma_decode_sub(
            nx,
            ny,
            limbs::limbs_nat(z.limbs@),
            Bls12Scalar::radix_inverse(),
            Bls12Scalar::order(),
        );
        lemma_mod_bound(x@ - y@, Bls12Scalar::order() as int);
        lemma_small_mod(z@, Bls12Scalar::order());
        congruence::lemma_congruent_add(
            z@ as int,
            x@ - y@,
            y@ as int,
            y@ as int,
            Bls12Scalar::order() as int,
        );
        Bls12Scalar::law_value_range(x);
        lemma_small_mod(x@, Bls12Scalar::order());
        if z.wf() {
            Bls12Scalar::lemma_is_of_value(z, Bls12Scalar::difference(x@, y@));
        }
    }

    /// The element 0.
    pub fn zero() -> (r: Bls12Scalar)
        ensures
            r.wf(),
            r@ == 0,
    {
        let r = Bls12Scalar { limbs: [0; 4] };
        proof {
            limbs::lemma_limbs_nat_zeros(r.limbs@);
            Bls12Scalar::law_value_range(r);
        }
        r
    }

    /// The element 1.
    pub fn one() -> (r: Bls12Scalar)
        ensures
            r.wf(),
            r@ == 1,
    {
        let r = Bls12Scalar { limbs: Bls12Scalar::R };
        proof {
            Bls12Scalar::lemma_constants();
            lemma_mod_twice(limbs::weight(4) as int, Bls12Scalar::order() as int);
            montgomery::lemma_decode_encoded(
                1,
                limbs::limbs_nat(r.limbs@),
                limbs::weight(4),
                Bls12Scalar::radix_inverse(),
                Bls12Scalar::order(),
            );
        }
        r
    }

    /// The element 2.
    pub fn two() -> (r: Bls12Scalar)
        ensures
            r.wf(),
            r@ == 2,
    {
        let r = Bls12Scalar {
            limbs: [
                17304940830682775525,
                10017539527700119523,
                14770643272311271387,
                570918138838421475,
            ],
        };
        proof {
            limbs::lemma_limbs_nat_4(r.limbs@);
            limbs::lemma_weights();
            Bls12Scalar::lemma_constants();
            montgomery::lemma_decode_encoded(
                2,
                limbs::limbs_nat(r.limbs@),
                limbs::weight(4),
                Bls12Scalar::radix_inverse(),
                Bls12Scalar::order(),
            );
        }
        r
    }

    /// The element 3.
    pub fn three() -> (r: Bls12Scalar)
        ensures
            r.wf(),
            r@ == 3,
    {
        let r = Bls12Scalar {
            limbs: [
                7147916296078753751,
                11795755565450264533,
                9448453213491875784,
                183737022913545514,
            ],
        };
        proof {
            limbs::lemma_limbs_nat_4(r.limbs@);
            limbs::lemma_weights();
            Bls12Scalar::lemma_constants();
            montgomery::lemma_decode_encoded(
                3,
                limbs::limbs_nat(r.limbs@),
                limbs::weight(4),
                Bls12Scalar::radix_inverse(),
                Bls12Scalar::order(),
            );
        }
        r
    }

    /// The element 11, which is no square: its powers hold the roots of unity whose order is a
    /// power of two.
    pub(crate) fn generator() -> (r: Bls12Scalar)
        ensures
            r.wf(),
            r@ == 11,
    {
        let r = Bls12Scalar {
            limbs: [
                1855201571499933546,
                8511318076631809892,
                6222514765367795509,
                1122129207579058019,
            ],
        };
        proof {
            limbs::lemma_limbs_nat_4(r.limbs@);
            limbs::lemma_weights();
            Bls12Scalar::lemma_constants();
            montgomery::lemma_decode_encoded(
                11,
                limbs::limbs_nat(r.limbs@),
                limbs::weight(4),
                Bls12Scalar::radix_inverse(),
                Bls12Scalar::order(),
            );
        }
        r
    }

    /// Montgomery multiplication: `a * b` divided by 2^256, modulo the order.
    fn montgomery_multiply(a: [u64; 4], b: [u64; 4]) -> (r: [u64; 4])
        requires
            limbs::limbs_nat(b@) < Bls12Scalar::order(),
        ensures
            limbs::limbs_nat(r@) < Bls12Scalar::order(),
            (limbs::limbs_nat(r@) * limbs::weight(4)) % Bls12Scalar::order() == (limbs::limbs_nat(a@)
                * limbs::limbs_nat(b@)) % Bls12Scalar::order(),
    {
        proof {
            Bls12Scalar::lemma_constants();
        }
        montgomery_product(a, b, Bls12Scalar::ORDER, Bls12Scalar::MU, [0u64; 5])
    }

    /// The element that stands for the number `c`, which need not be below the order.
    pub fn from_canonical(c: [u64; 4]) -> (r: Bls12Scalar)
        ensures
            r.wf(),
            r@ == limbs::limbs_nat(c@) % Bls12Scalar::order(),
    {
        proof {
            Bls12Scalar::lemma_constants();
            lemma_mod_twice(
                (limbs::weight(4) * limbs::weight(4)) as int,
                Bls12Scalar::order() as int,
            );
        }
        // We compute M(c, R^2) = c * R^2 * R^-1 = c * R.
        let r = Bls12Scalar { limbs: Bls12Scalar::montgomery_multiply(c, Bls12Scalar::R2) };
        proof {
            montgomery::lemma_encoded(
                limbs::limbs_nat(c@),
                limbs::limbs_nat(r.limbs@),
                limbs::limbs_nat(Bls12Scalar::R2@),
                limbs::weight(4),
                Bls12Scalar::radix_inverse(),
                Bls12Scalar::order(),
            );
            montgomery::lemma_decode_encoded(
                limbs::limbs_nat(c@),
                limbs::limbs_nat(r.limbs@),
                limbs::weight(4),
                Bls12Scalar::radix_inverse(),
                Bls12Scalar::order(),
            );
        }
        r
    }

    /// The element that stands for the number `c`.
    pub fn from_canonical_u64(c: u64) -> (r: Bls12Scalar)
        ensures
            r.wf(),
            r@ == c,
    {
        let limbs = [c, 0, 0, 0];
        proof {
            limbs::lemma_limbs_nat_4(limbs@);
            lemma_small_mod(c as nat, Bls12Scalar::order());
        }
        Bls12Scalar::from_canonical(limbs)
    }

    /// The number below the order that this element stands for.
    pub fn to_canonical(&self) -> (r: [u64; 4])
        ensures
            limbs::limbs_nat(r@) == self@,
    {
        let one = [1, 0, 0, 0];
        proof {
            limbs::lemma_limbs_nat_4(one@);
            Bls12Scalar::lemma_constants();
            lemma_mul_basics(limbs::limbs_nat(self.limbs@) as int);
        }
        // Let x * R = self. We compute M(x * R, 1) = x * R * R^-1 = x.
        let r = Bls12Scalar::montgomery_multiply(self.limbs, one);
        proof {
            montgomery::lemma_decoded(
                limbs::limbs_nat(self.limbs@),
                limbs::limbs_nat(r@),
                limbs::weight(4),
                Bls12Scalar::radix_inverse(),
                Bls12Scalar::order(),
            );
        }
        r
    }

    /// Whether all limbs are zero, which for a reduced element says that it is 0.
    pub fn is_zero(&self) -> (b: bool)
        ensures
            b == (limbs::limbs_nat(self.limbs@) == 0),
            self.wf() ==> b == (self@ == 0),
    {
        let zero = Bls12Scalar { limbs: [0; 4] };
        proof {
            limbs::lemma_limbs_nat_zeros(zero.limbs@);
            if limbs::limbs_nat(self.limbs@) == 0 {
                limbs::law_limbs_unique(self.limbs@, zero.limbs@);
                assert(self.limbs =~= zero.limbs);
            }
            Bls12Scalar::law_value_range(*self);
        }
        *self == zero
    }

    /// `self * self`.
    pub fn square(&self) -> (r: Bls12Scalar)
        requires
            self.wf(),
        ensures
            r.wf(),
            r@ == (self@ * self@) % Bls12Scalar::order(),
    {
        *self * *self
    }
}

impl vstd::std_specs::ops::AddSpecImpl<Bls12Scalar> for Bls12Scalar {
    open spec fn obeys_add_spec() -> bool {
        true
    }

    open spec fn add_req(self, rhs: Bls12Scalar) -> bool {
        self.wf() && rhs.wf()
    }

    open spec fn add_spec(self, rhs: Bls12Scalar) -> Bls12Scalar {
        Bls12Scalar::sum_of(self, rhs)
    }
}

impl Add<Bls12Scalar> for Bls12Scalar {
    type Output = Bls12Scalar;

    fn add(self, rhs: Bls12Scalar) -> (ret: Bls12Scalar)
        ensures
            ret.wf(),
            ret@ == (self@ + rhs@) % Bls12Scalar::order(),
    {
        proof {
            Bls12Scalar::lemma_constants();
        }
        // First we do a widening addition, then we reduce if necessary.
        let sum = add_4_4(self.limbs, rhs.limbs);
        let reduced = match cmp_5_4(sum, Bls12Scalar::ORDER) {
            core::cmp::Ordering::Less => sum,
            _ => sub_5_4(sum, Bls12Scalar::ORDER),
        };
        let limbs = [reduced[0], reduced[1], reduced[2], reduced[3]];
        let ret = Bls12Scalar { limbs };
        proof {
            limbs::lemma_top_limb_zero(reduced@, limbs@);
            Bls12Scalar::lemma_sum(self, rhs, ret);
            Bls12Scalar::lemma_is_of_value(ret, self@ + rhs@);
        }
        ret
    }
}

impl vstd::std_specs::ops::MulSpecImpl<Bls12Scalar> for Bls12Scalar {
    open spec fn obeys_mul_spec() -> bool {
        true
    }

    open spec fn mul_req(self, rhs: Bls12Scalar) -> bool {
        rhs.wf()
    }

    open spec fn mul_spec(self, rhs: Bls12Scalar) -> Bls12Scalar {
        Bls12Scalar::product_of(self, rhs)
    }
}

impl Mul<Bls12Scalar> for Bls12Scalar {
    type Output = Bls12Scalar;

    fn mul(self, rhs: Bls12Scalar) -> (ret: Bls12Scalar)
        ensures
            ret.wf(),
            ret@ == (self@ * rhs@) % Bls12Scalar::order(),
    {
        let ret = Bls12Scalar { limbs: Bls12Scalar::montgomery_multiply(self.limbs, rhs.limbs) };
        proof {
            Bls12Scalar::lemma_product(self, rhs, ret);
            Bls12Scalar::lemma_is_of_value(ret, self@ * rhs@);
        }
        ret
    }
}

impl vstd::std_specs::ops::NegSpecImpl for Bls12Scalar {
    open spec fn obeys_neg_spec() -> bool {
        true
    }

    open spec fn neg_req(self) -> bool {
        self.wf()
    }

    open spec fn neg_spec(self) -> Bls12Scalar {
        Bls12Scalar::negation_of(self)
    }
}

impl Neg for Bls12Scalar {
    type Output = Bls12Scalar;

    fn neg(self) -> (ret: Bls12Scalar)
        ensures
            ret.wf(),
            ret@ == Bls12Scalar::difference(0, self@),
            ret@ == (0 - self@) % (Bls12Scalar::order() as int),
            (ret@ + self@) % Bls12Scalar::order() == 0,
            limbs::limbs_nat(self.limbs@) > 0 ==> limbs::limbs_nat(ret.limbs@) + limbs::limbs_nat(
                self.limbs@,
            ) == Bls12Scalar::order(),
    {
        let zero = Bls12Scalar::zero();
        proof {
            Bls12Scalar::lemma_constants();
            Bls12Scalar::law_value_range(self);
            Bls12Scalar::law_value_range(zero);
            if self@ == 0 {
                Bls12Scalar::law_representation_unique(self, zero);
            }
        }
        let ret = if self == zero {
            zero
        } else {
            Bls12Scalar { limbs: sub_4_4(Bls12Scalar::ORDER, self.limbs) }
        };
        proof {
            Bls12Scalar::lemma_difference(zero, self, ret);
        }
        ret
    }
}

impl Bls12Scalar {
    /// The order is prime.
    pub proof fn law_order_prime()
        ensures
            primes::is_prime(Bls12Scalar::order()),
    {
        scalar_order::prime_order();
    }

    /// The inverse of this element, if it is not zero.
    pub fn multiplicative_inverse(&self) -> (r: Option<Bls12Scalar>)
        ensures
            r is None <==> self@ == 0,
            r matches Some(x) ==> x.wf() && (self@ * x@) % Bls12Scalar::order() == 1,
    {
        proof {
            Bls12Scalar::lemma_constants();
            lemma_small_mod(1, Bls12Scalar::order());
        }
        // Let x R = self. We compute M((x R)^-1, R^3) = x^-1 R^-1 R^3 R^-1 = x^-1 R.
        let self_biguint = u64_slice_to_biguint(&self.limbs);
        let order_biguint = u64_slice_to_biguint(&Bls12Scalar::ORDER);
        match modinv(self_biguint, order_biguint) {
            Some(inverse_biguint) => {
                let digits = biguint_to_u64_vec(inverse_biguint, 4);
                let inverse = [digits[0], digits[1], digits[2], digits[3]];
                let x = Bls12Scalar {
                    limbs: Bls12Scalar::montgomery_multiply(inverse, Bls12Scalar::R3),
                };
                proof {
                    assert(inverse@ =~= digits@);
                    lemma_mul_is_commutative(
                        limbs::limbs_nat(self.limbs@) as int,
                        limbs::limbs_nat(inverse@) as int,
                    );
                    Bls12Scalar::lemma_inverse(*self, Bls12Scalar { limbs: inverse }, x);
                    lemma_mul_basics(x@ as int);
                    lemma_small_mod(0, Bls12Scalar::order());
                }
                Some(x)
            },
            None => {
                proof {
                    Bls12Scalar::lemma_no_inverse(*self);
                }
                None
            },
        }
    }

    /// An element whose limbs have no inverse stands for zero.
    proof fn lemma_no_inverse(a: Bls12Scalar)
        requires
            forall|x: nat|
                !#[trigger] num_util::is_inverse(
                    limbs::limbs_nat(a.limbs@),
                    x,
                    Bls12Scalar::order(),
                ),
        ensures
            a@ == 0,
    {
        reveal(montgomery::decode);
        let m = Bls12Scalar::order();
        let n = limbs::limbs_nat(a.limbs@);
        Bls12Scalar::law_order_prime();
        lemma_small_mod(1, m);
        lemma_small_mod(0, m);
        if n % m != 0 {
            let x = primes::lemma_prime_inverse(n, m);
            assert(num_util::is_inverse(n, x, m));
        }
        let ri = Bls12Scalar::radix_inverse() as int;
        congruence::lemma_congruent_mul(n as int, 0, ri, ri, m as int);
    }
    /// A Montgomery product of the inverse of the limbs and R^3 stands for the inverse.
    proof fn lemma_inverse(a: Bls12Scalar, b: Bls12Scalar, x: Bls12Scalar)
        requires
            (limbs::limbs_nat(b.limbs@) * limbs::limbs_nat(a.limbs@)) % Bls12Scalar::order() == 1,
            (limbs::limbs_nat(x.limbs@) * limbs::weight(4)) % Bls12Scalar::order() == (
            limbs::limbs_nat(b.limbs@) * limbs::limbs_nat(Bls12Scalar::R3@)) % Bls12Scalar::order(),
        ensures
            (a@ * x@) % Bls12Scalar::order() == 1,
    {
        Bls12Scalar::lemma_constants();
        montgomery::lemma_inverse_of_form(
            limbs::limbs_nat(a.limbs@),
            limbs::limbs_nat(b.limbs@),
            limbs::limbs_nat(x.limbs@),
            limbs::limbs_nat(Bls12Scalar::R3@),
            limbs::weight(4),
            Bls12Scalar::radix_inverse(),
            Bls12Scalar::order(),
        );
    }
}

impl vstd::std_specs::ops::DivSpecImpl<Bls12Scalar> for Bls12Scalar {
    open spec fn obeys_div_spec() -> bool {
        true
    }

    open spec fn div_req(self, rhs: Bls12Scalar) -> bool {
        rhs.wf() && rhs@ != 0
    }

    open spec fn div_spec(self, rhs: Bls12Scalar) -> Bls12Scalar {
        Bls12Scalar::quotient_of(self, rhs)
    }
}

impl Div<Bls12Scalar> for Bls12Scalar {
    type Output = Bls12Scalar;

    fn div(self, rhs: Bls12Scalar) -> (ret: Bls12Scalar)
        ensures
            ret.wf(),
            (ret@ * rhs@) % Bls12Scalar::order() == self@,
    {
        let inverse = rhs.multiplicative_inverse().expect("No inverse");
        let ret = self * inverse;
        proof {
            Bls12Scalar::law_value_range(self);
            Bls12Scalar::lemma_inverse_value(rhs, inverse);
            primes::lemma_quotient(self@, rhs@, inverse@, ret@, Bls12Scalar::order());
        }
        ret
    }
}

impl Bls12Scalar {
    /// An element that multiplies with another to 1 stands for the inverse of its value.
    pub(crate) proof fn lemma_inverse_value(x: Bls12Scalar, y: Bls12Scalar)
        requires
            (x@ * y@) % Bls12Scalar::order() == 1,
        ensures
            y@ == Bls12Scalar::inverse_value(x@),
    {
        let m = Bls12Scalar::order();
        let v = Bls12Scalar::inverse_value(x@);
        Bls12Scalar::law_value_range(y);
        assert(y@ < m && (x@ * y@) % m == 1);
        assert(v < m && (x@ * v) % m == 1);
        primes::lemma_inverse_unique(x@, y@, v, m);
    }

    /// The inverse of each element.
    pub fn batch_multiplicative_inverse(x: &[Bls12Scalar]) -> (r: Vec<Bls12Scalar>)
        requires
            x@.len() > 0,
            forall|i: int| 0 <= i < x@.len() ==> (#[trigger] x@[i]).wf() && x@[i]@ != 0,
        ensures
            r@.len() == x@.len(),
            forall|i: int|
                0 <= i < x@.len() ==> (#[trigger] r@[i]).wf() && (x@[i]@ * r@[i]@)
                    % Bls12Scalar::order() == 1,
    {
        // This is Montgomery's trick. At a high level, we invert the product of the given field
        // elements, then derive the individual inverses from that via multiplication.
        let n = x.len();
        let ghost m = Bls12Scalar::order();
        proof {
            Bls12Scalar::law_order_prime();
        }

        let mut a: Vec<Bls12Scalar> = Vec::with_capacity(n);
        assert(x@[0].wf());
        a.push(x[0]);
        let mut i: usize = 1;
        while i < n
            invariant
                1 <= i <= n,
                n == x@.len(),
                m == Bls12Scalar::order(),
                primes::is_prime(m),
                forall|j: int| 0 <= j < x@.len() ==> (#[trigger] x@[j]).wf() && x@[j]@ != 0,
                a@.len() == i,
                a@[0] == x@[0],
                forall|j: int| 0 <= j < i ==> (#[trigger] a@[j]).wf() && a@[j]@ != 0,
                forall|j: int| 1 <= j < i ==> (#[trigger] a@[j])@ == (a@[j - 1]@ * x@[j]@) % m,
            decreases n - i,
        {
            let previous = a[i - 1];
            let x_i = x[i];
            assert(previous == a@[i - 1]);
            assert(x_i == x@[i as int]);
            let next = previous * x_i;
            proof {
                Bls12Scalar::law_value_range(previous);
                Bls12Scalar::law_value_range(x_i);
                primes::lemma_nonzero_product(previous@, x_i@, m);
            }
            a.push(next);
            i = i + 1;
        }

        let mut a_inv = vec![Bls12Scalar::zero(); n];
        let last = a[n - 1];
        assert(last == a@[n - 1]);
        a_inv[n - 1] = last.multiplicative_inverse().expect("No inverse");
        let mut i: usize = n - 1;
        while i > 0
            invariant
                i < n,
                n == x@.len(),
                n == a@.len(),
                n == a_inv@.len(),
                m == Bls12Scalar::order(),
                primes::is_prime(m),
                forall|j: int| 0 <= j < x@.len() ==> (#[trigger] x@[j]).wf() && x@[j]@ != 0,
                forall|j: int| 0 <= j < n ==> (#[trigger] a@[j]).wf(),
                forall|j: int| 1 <= j < n ==> (#[trigger] a@[j])@ == (a@[j - 1]@ * x@[j]@) % m,
                forall|j: int|
                    i <= j < n ==> (#[trigger] a_inv@[j]).wf() && (a@[j]@ * a_inv@[j]@) % m == 1,
            decreases i,
        {
            let x_i = x[i];
            let inv_i = a_inv[i];
            assert(x_i == x@[i as int]);
            assert(inv_i == a_inv@[i as int]);
            proof {
                let previous = a@[i - 1];
                assert(a@[i as int]@ == (previous@ * x_i@) % m);
                primes::lemma_split_inverse(previous@, x_i@, inv_i@, m);
            }
            i = i - 1;
            a_inv[i] = x_i * inv_i;
        }

        let mut x_inv: Vec<Bls12Scalar> = Vec::with_capacity(n);
        x_inv.push(a_inv[0]);
        let mut i: usize = 1;
        while i < n
            invariant
                1 <= i <= n,
                n == x@.len(),
                n == a@.len(),
                n == a_inv@.len(),
                m == Bls12Scalar::order(),
                primes::is_prime(m),
                forall|j: int| 0 <= j < n ==> (#[trigger] a@[j]).wf(),
                forall|j: int| 1 <= j < n ==> (#[trigger] a@[j])@ == (a@[j - 1]@ * x@[j]@) % m,
                forall|j: int|
                    0 <= j < n ==> (#[trigger] a_inv@[j]).wf() && (a@[j]@ * a_inv@[j]@) % m == 1,
                x_inv@.len() == i,
                forall|j: int|
                    0 <= j < i ==> (#[trigger] x_inv@[j]).wf() && (x@[j]@ * x_inv@[j]@) % m == 1,
            decreases n - i,
        {
            let previous = a[i - 1];
            let inv_i = a_inv[i];
            assert(previous == a@[i - 1]);
            assert(inv_i == a_inv@[i as int]);
            proof {
                let x_i = x@[i as int];
                assert(a@[i as int]@ == (previous@ * x_i@) % m);
                primes::lemma_split_inverse(previous@, x_i@, inv_i@, m);
            }
            x_inv.push(previous * inv_i);
            i = i + 1;
        }
        x_inv
    }

    /// A scalar made of random limbs.
    pub fn from_random_limbs(limbs: [u64; 4]) -> (r: Bls12Scalar)
        ensures
            r.wf(),
            r.limbs@ == limbs@.update(3, limbs[3] / 16),
    {
        // Remove a few of the most significant bits to ensure we're in range.
        let top = limbs[3];
        assert(top >> 4u64 == top / 16) by (bit_vector);
        let r = Bls12Scalar { limbs: [limbs[0], limbs[1], limbs[2], top >> 4] };
        proof {
            limbs::lemma_limbs_nat_4(r.limbs@);
        }
        r
    }

    /// A scalar whose limbs are the next four numbers of the source, one each, cut to range.
    pub fn rand_from(source: RandomSource) -> (r: (Bls12Scalar, RandomSource))
        ensures
            r.0.wf(),
            r.1@.len() == source@.len() + 4,
            r.1@.take(source@.len() as int) == source@,
            r.0.limbs[0] == r.1@[source@.len() as int],
            r.0.limbs[1] == r.1@[source@.len() as int + 1],
            r.0.limbs[2] == r.1@[source@.len() as int + 2],
            r.0.limbs[3] == r.1@[source@.len() as int + 3] / 16,
    {
        let mut source = source;
        let ghost before = source@;
        let first = os_random_u64(&mut source);
        let second = os_random_u64(&mut source);
        let third = os_random_u64(&mut source);
        let fourth = os_random_u64(&mut source);
        let r = Bls12Scalar::from_random_limbs([first, second, third, fourth]);
        proof {
            assert(source@.take(before.len() as int) =~= before);
            assert(r.limbs[0] == r.limbs@[0] && r.limbs[1] == r.limbs@[1]);
        }
        (r, source)
    }

    /// A random scalar: what `rand_from` gives for a source that nothing has been drawn from.
    pub fn rand() -> (r: Bls12Scalar)
        ensures
            r.wf(),
            r.limbs[3] < 0x1000_0000_0000_0000,
            exists|before: RandomSource, after: RandomSource|
                before@.len() == 0 && #[trigger] call_ensures(
                    Bls12Scalar::rand_from,
                    (before,),
                    (r, after),
                ),
    {
        let source = RandomSource::new();
        let ghost before = source;
        let (r, after) = Bls12Scalar::rand_from(source);
        assert(call_ensures(Bls12Scalar::rand_from, (before,), (r, after)));
        r
    }

    /// Each limb of a random scalar is a draw of its own: the source gives exactly four numbers,
    /// the first three are limbs as they are, and the fourth is the top limb without its lowest
    /// four bits.
    pub proof fn law_rand_draws(before: RandomSource, r: Bls12Scalar, after: RandomSource)
        requires
            call_ensures(Bls12Scalar::rand_from, (before,), (r, after)),
        ensures
            after@ == before@ + after@.skip(before@.len() as int),
            after@.skip(before@.len() as int).len() == 4,
            r.limbs@ == after@.skip(before@.len() as int).update(3, after@.last() / 16),
    {
        let drawn = after@.skip(before@.len() as int);
        assert(after@ =~= before@ + drawn) by {
            assert(before@ =~= after@.take(before@.len() as int));
        }
        assert(r.limbs@ =~= drawn.update(3, after@.last() / 16)) by {
            assert(r.limbs[0] == r.limbs@[0] && r.limbs[1] == r.limbs@[1]);
            assert(r.limbs[2] == r.limbs@[2] && r.limbs[3] == r.limbs@[3]);
        }
    }
}

} // verus!
