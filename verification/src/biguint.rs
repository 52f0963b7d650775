//! The operations of `num::BigUint` that this crate calls, each with its contract.

use num::bigint::ParseBigIntError;
use num::{BigUint, FromPrimitive, Integer, One, Zero};
use std::str::FromStr;
use vstd::arithmetic::mul::*;
use vstd::prelude::*;

verus! {

/// An arbitrary-precision natural number of the crate `num`.
#[verifier::external_type_specification]
#[verifier::external_body]
pub struct ExBigUint(num::BigUint);

/// The error of the crate `num` for a string that is no number.
#[verifier::external_type_specification]
#[verifier::external_body]
pub struct ExParseBigIntError(num::bigint::ParseBigIntError);

/// What a `BigUint` holds: its digits in base 256, the least significant one first.
pub uninterp spec fn biguint_bytes(n: BigUint) -> Seq<u8>;

/// The number that a little-endian sequence of bytes stands for.
pub open spec fn bytes_nat(s: Seq<u8>) -> nat
    decreases s.len(),
{
    if s.len() == 0 {
        0
    } else {
        s[0] as nat + 256 * bytes_nat(s.drop_first())
    }
}

/// The weight of the byte at index `i`: 2^(8 i).
pub open spec fn byte_weight(i: nat) -> nat
    decreases i,
{
    if i == 0 {
        1
    } else {
        256 * byte_weight((i - 1) as nat)
    }
}

/// The number that a `BigUint` stands for.
pub open spec fn biguint_nat(n: BigUint) -> nat {
    bytes_nat(biguint_bytes(n))
}

/// Whether a character is a decimal digit.
pub open spec fn is_decimal_digit(c: char) -> bool {
    '0' <= c && c <= '9'
}

/// The number that a sequence of decimal digits stands for, the most significant one first.
pub open spec fn decimal_nat(s: Seq<char>) -> nat
    decreases s.len(),
{
    if s.len() == 0 {
        0
    } else {
        10 * decimal_nat(s.drop_last()) + (s.last() as nat - '0' as nat) as nat
    }
}

/// No bytes stand for zero, and each further byte at the bottom multiplies what is above it by 256
/// and adds itself.
pub proof fn law_bytes_nat(s: Seq<u8>)
    ensures
        s.len() == 0 ==> bytes_nat(s) == 0,
        s.len() > 0 ==> bytes_nat(s) == s[0] + 256 * bytes_nat(s.drop_first()),
{
}

/// A `BigUint` stands for the number that its digits stand for.
pub proof fn law_biguint_nat(n: BigUint)
    ensures
        biguint_nat(n) == bytes_nat(biguint_bytes(n)),
{
}

/// No digits stand for zero, and each further decimal digit at the end multiplies what is before
/// it by 10 and adds itself.
pub proof fn law_decimal_nat(s: Seq<char>)
    ensures
        s.len() == 0 ==> decimal_nat(s) == 0,
        s.len() > 0 && '0' <= s.last() && s.last() <= '9' ==> decimal_nat(s) == 10 * decimal_nat(
            s.drop_last(),
        ) + (s.last() as int - '0' as int),
{
}

/// The decimal digits are the characters from 0 to 9.
pub proof fn law_is_decimal_digit(c: char)
    ensures
        is_decimal_digit(c) <==> '0' <= c && c <= '9',
{
}

/// Four more decimal digits of a prefix.
pub(crate) proof fn lemma_four_digits(s: Seq<char>, k: int)
    requires
        0 <= k,
        k + 4 <= s.len(),
        forall|i: int| 0 <= i < s.len() ==> is_decimal_digit(#[trigger] s[i]),
    ensures
        decimal_nat(s.take(k + 4)) == 10000 * decimal_nat(s.take(k)) + 1000 * (s[k] as int
            - '0' as int) + 100 * (s[k + 1] as int - '0' as int) + 10 * (s[k + 2] as int
            - '0' as int) + (s[k + 3] as int - '0' as int),
{
    lemma_one_digit(s, k);
    lemma_one_digit(s, k + 1);
    lemma_one_digit(s, k + 2);
    lemma_one_digit(s, k + 3);
}

/// One more decimal digit of a prefix.
pub(crate) proof fn lemma_one_digit(s: Seq<char>, k: int)
    requires
        0 <= k < s.len(),
        is_decimal_digit(s[k]),
    ensures
        decimal_nat(s.take(k + 1)) == 10 * decimal_nat(s.take(k)) + (s[k] as int - '0' as int),
{
    assert(s.take(k + 1).drop_last() =~= s.take(k));
}

/// The bytes of two parts laid end to end.
pub(crate) proof fn lemma_bytes_nat_concat(a: Seq<u8>, b: Seq<u8>)
    ensures
        bytes_nat(a + b) == bytes_nat(a) + byte_weight(a.len())
            * bytes_nat(b),
    decreases a.len(),
{
    if a.len() == 0 {
        assert(a + b =~= b);
        lemma_mul_basics(bytes_nat(b) as int);
    } else {
        assert((a + b).drop_first() =~= a.drop_first() + b);
        lemma_bytes_nat_concat(a.drop_first(), b);
        lemma_mul_is_associative(
            256,
            byte_weight((a.len() - 1) as nat) as int,
            bytes_nat(b) as int,
        );
    }
}

/// One more byte at the top adds its weighted value.
pub(crate) proof fn lemma_bytes_nat_push(s: Seq<u8>, b: u8)
    ensures
        bytes_nat(s.push(b)) == bytes_nat(s) + byte_weight(s.len()) * b as nat,
{
    let top = seq![b];
    assert(s.push(b) =~= s + top);
    lemma_bytes_nat_concat(s, top);
    assert(top.drop_first() =~= Seq::<u8>::empty());
    assert(bytes_nat(top.drop_first()) == 0);
}

/// `BigUint::to_bytes_le`: the digits in base 256, with at least one digit and without zeros at
/// the top of a longer number.
#[verifier::external_body]
pub(crate) fn to_bytes_le(n: &BigUint) -> (r: Vec<u8>)
    ensures
        r@ == biguint_bytes(*n),
        r@.len() > 0,
        r@.len() > 1 ==> r@.last() != 0,
{
    n.to_bytes_le()
}

/// `BigUint::from_bytes_le`: the number that the bytes stand for.
#[verifier::external_body]
pub(crate) fn from_bytes_le(bytes: &[u8]) -> (r: BigUint)
    ensures
        biguint_nat(r) == bytes_nat(bytes@),
{
    BigUint::from_bytes_le(bytes)
}

/// `FromPrimitive::from_u64` on `BigUint`: always the number itself.
#[verifier::external_body]
pub(crate) fn from_u64(n: u64) -> (r: Option<BigUint>)
    ensures
        r is Some,
        biguint_nat(r->0) == n,
{
    BigUint::from_u64(n)
}

/// `FromStr::from_str` on `BigUint`: a nonempty string of decimal digits is read as the number
/// that it stands for. Nothing is said of other strings.
#[verifier::external_body]
pub(crate) fn from_decimal(s: &str) -> (r: Result<BigUint, ParseBigIntError>)
    ensures
        s@.len() > 0 && (forall|i: int| 0 <= i < s@.len() ==> is_decimal_digit(#[trigger] s@[i]))
            ==> r is Ok && biguint_nat(r->Ok_0) == decimal_nat(s@),
{
    BigUint::from_str(s)
}

/// `Zero::is_zero` on `BigUint`.
#[verifier::external_body]
pub(crate) fn is_zero(n: &BigUint) -> (r: bool)
    ensures
        r == (biguint_nat(*n) == 0),
{
    n.is_zero()
}

/// `One::is_one` on `BigUint`.
#[verifier::external_body]
pub(crate) fn is_one(n: &BigUint) -> (r: bool)
    ensures
        r == (biguint_nat(*n) == 1),
{
    n.is_one()
}

/// `Add` on `BigUint`: the sum.
#[verifier::external_body]
pub(crate) fn sum(a: &BigUint, b: &BigUint) -> (r: BigUint)
    ensures
        biguint_nat(r) == biguint_nat(*a) + biguint_nat(*b),
{
    a + b
}

/// `Sub` on `BigUint`: the difference. A smaller minuend would panic.
#[verifier::external_body]
pub(crate) fn difference(a: &BigUint, b: &BigUint) -> (r: BigUint)
    requires
        biguint_nat(*a) >= biguint_nat(*b),
    ensures
        biguint_nat(r) == biguint_nat(*a) - biguint_nat(*b),
{
    a - b
}

/// `Mul` on `BigUint`: the product.
#[verifier::external_body]
pub(crate) fn product(a: &BigUint, b: &BigUint) -> (r: BigUint)
    ensures
        biguint_nat(r) == biguint_nat(*a) * biguint_nat(*b),
{
    a * b
}

/// `Integer::div_rem` on `BigUint`: quotient and remainder. A divisor of zero would panic.
#[verifier::external_body]
pub(crate) fn div_rem(a: &BigUint, b: &BigUint) -> (r: (BigUint, BigUint))
    requires
        biguint_nat(*b) > 0,
    ensures
        biguint_nat(r.0) == biguint_nat(*a) / biguint_nat(*b),
        biguint_nat(r.1) == biguint_nat(*a) % biguint_nat(*b),
{
    a.div_rem(b)
}

} // verus!
