//! Facts about remainders that the proofs of this crate share.

use vstd::arithmetic::div_mod::*;
use vstd::arithmetic::mul::*;
use vstd::arithmetic::power::*;
use vstd::prelude::*;

verus! {

pub(crate) proof fn lemma_congruent_mul(a: int, b: int, c: int, d: int, m: int)
    requires
        m > 0,
        a % m == b % m,
        c % m == d % m,
    ensures
        (a * c) % m == (b * d) % m,
{
    lemma_mul_mod_noop(a, c, m);
    lemma_mul_mod_noop(b, d, m);
}

pub(crate) proof fn lemma_congruent_add(a: int, b: int, c: int, d: int, m: int)
    requires
        m > 0,
        a % m == b % m,
        c % m == d % m,
    ensures
        (a + c) % m == (b + d) % m,
{
    lemma_add_mod_noop(a, c, m);
    lemma_add_mod_noop(b, d, m);
}

pub(crate) proof fn lemma_congruent_sub(a: int, b: int, c: int, d: int, m: int)
    requires
        m > 0,
        a % m == b % m,
        c % m == d % m,
    ensures
        (a - c) % m == (b - d) % m,
{
    lemma_sub_mod_noop(a, c, m);
    lemma_sub_mod_noop(b, d, m);
}

/// Adding a multiple of the modulus does not change the remainder.
pub(crate) proof fn lemma_add_multiple(a: int, k: int, m: int)
    requires
        m > 0,
    ensures
        (a + k * m) % m == a % m,
        (k * m) % m == 0,
{
    lemma_mod_multiples_vanish(k, a, m);
    lemma_mod_multiples_basic(k, m);
    lemma_mul_is_commutative(k, m);
}

/// Equal remainders of numbers below the modulus come from equal numbers.
pub(crate) proof fn lemma_small_residues(a: int, b: int, m: int)
    requires
        0 <= a < m,
        0 <= b < m,
        a % m == b % m,
    ensures
        a == b,
{
    lemma_small_mod(a as nat, m as nat);
    lemma_small_mod(b as nat, m as nat);
}

/// A common factor that has an inverse can be cancelled.
pub(crate) proof fn lemma_congruent_cancel(a: int, b: int, c: int, c_inverse: int, m: int)
    requires
        m > 1,
        (c * c_inverse) % m == 1,
        (a * c) % m == (b * c) % m,
    ensures
        a % m == b % m,
{
    lemma_congruent_mul(a * c, b * c, c_inverse, c_inverse, m);
    lemma_mul_is_associative(a, c, c_inverse);
    lemma_mul_is_associative(b, c, c_inverse);
    lemma_small_mod(1, m as nat);
    lemma_congruent_mul(a, a, c * c_inverse, 1, m);
    lemma_congruent_mul(b, b, c * c_inverse, 1, m);
}

/// A number with remainder zero is a multiple.
pub(crate) proof fn lemma_divides_witness(a: int, m: int) -> (k: int)
    requires
        m > 0,
        a % m == 0,
    ensures
        a == k * m,
{
    lemma_fundamental_div_mod(a, m);
    lemma_mul_is_commutative(m, a / m);
    a / m
}

/// Powers of numbers with equal remainders have equal remainders.
pub(crate) proof fn lemma_congruent_pow(a: int, b: int, e: nat, m: int)
    requires
        m > 0,
        a % m == b % m,
    ensures
        pow(a, e) % m == pow(b, e) % m,
{
    lemma_pow_mod_noop(a, e, m);
    lemma_pow_mod_noop(b, e, m);
}

} // verus!
