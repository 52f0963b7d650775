//! Arithmetic on little-endian arrays of `u64` limbs.
//!
//! An array stands for the number that `limbs_nat` gives it. The named functions come in one
//! variant per array size; the work is done by helpers that are generic in the size.

use core::cmp::Ordering;
use vstd::arithmetic::mul::*;
use vstd::arithmetic::power2::*;
use vstd::prelude::*;

verus! {

/// The weight of the limb at index `i`: 2^(64 i).
pub open spec fn weight(i: nat) -> nat
    decreases i,
{
    if i == 0 {
        1
    } else {
        0x1_0000_0000_0000_0000 * weight((i - 1) as nat)
    }
}

/// The number that a little-endian sequence of limbs stands for.
pub open spec fn limbs_nat(s: Seq<u64>) -> nat
    decreases s.len(),
{
    if s.len() == 0 {
        0
    } else {
        limbs_nat(s.drop_last()) + s.last() as nat * weight((s.len() - 1) as nat)
    }
}

/// The number that a little-endian sequence of double-width columns stands for.
pub open spec fn columns_nat(s: Seq<u128>) -> nat
    decreases s.len(),
{
    if s.len() == 0 {
        0
    } else {
        columns_nat(s.drop_last()) + s.last() as nat * weight((s.len() - 1) as nat)
    }
}

pub(crate) proof fn lemma_weight_positive(i: nat)
    ensures
        weight(i) > 0,
    decreases i,
{
    if i > 0 {
        lemma_weight_positive((i - 1) as nat);
    }
}

pub(crate) proof fn lemma_weight_adds(i: nat, j: nat)
    ensures
        weight(i + j) == weight(i) * weight(j),
    decreases i,
{
    if i == 0 {
        assert(weight(0) == 1);
    } else {
        lemma_weight_adds((i - 1) as nat, j);
        assert((i + j - 1) as nat == (i - 1) as nat + j);
        lemma_mul_is_associative(
            0x1_0000_0000_0000_0000,
            weight((i - 1) as nat) as int,
            weight(j) as int,
        );
    }
}

/// A weight is a power of two.
pub proof fn law_weight_is_power(i: nat)
    ensures
        weight(i) == pow2(64 * i),
    decreases i,
{
    lemma2_to64();
    if i > 0 {
        law_weight_is_power((i - 1) as nat);
        lemma_pow2_adds(64, (64 * (i - 1)) as nat);
    }
}

/// One more limb of a prefix adds its weighted value.
pub(crate) proof fn lemma_limbs_nat_take(s: Seq<u64>, i: int)
    requires
        0 <= i < s.len(),
    ensures
        limbs_nat(s.take(i + 1)) == limbs_nat(s.take(i)) + s[i] as nat * weight(i as nat),
{
    assert(s.take(i + 1).drop_last() =~= s.take(i));
}

pub(crate) proof fn lemma_limbs_nat_full(s: Seq<u64>)
    ensures
        limbs_nat(s.take(0)) == 0,
        limbs_nat(s.take(s.len() as int)) == limbs_nat(s),
{
    assert(s.take(s.len() as int) =~= s);
}

pub(crate) proof fn lemma_limbs_nat_bound(s: Seq<u64>)
    ensures
        limbs_nat(s) < weight(s.len()),
    decreases s.len(),
{
    if s.len() > 0 {
        let k = (s.len() - 1) as nat;
        lemma_limbs_nat_bound(s.drop_last());
        lemma_mul_inequality(s.last() as int, 0xffff_ffff_ffff_ffff, weight(k) as int);
    }
}

/// No limbs stand for zero, and each further limb at the bottom multiplies what is above it by
/// 2^64 and adds itself.
pub proof fn law_limbs_nat(s: Seq<u64>)
    ensures
        s.len() == 0 ==> limbs_nat(s) == 0,
        s.len() > 0 ==> limbs_nat(s) == s[0] + 0x1_0000_0000_0000_0000 * limbs_nat(s.drop_first()),
{
    if s.len() > 0 {
        lemma_limbs_nat_first(s);
    }
}

/// A number whose top limb is not zero is at least as large as the weight of each lower length.
pub(crate) proof fn lemma_limbs_nat_top(s: Seq<u64>, k: nat)
    requires
        k < s.len(),
        s.last() != 0,
    ensures
        limbs_nat(s) >= weight(k),
{
    let top = (s.len() - 1) as nat;
    lemma_mul_inequality(1, s.last() as int, weight(top) as int);
    lemma_mul_basics(weight(top) as int);
    lemma_weight_adds(k, (top - k) as nat);
    lemma_weight_positive((top - k) as nat);
    lemma_mul_inequality(1, weight((top - k) as nat) as int, weight(k) as int);
    lemma_mul_is_commutative(weight(k) as int, weight((top - k) as nat) as int);
    lemma_mul_basics(weight(k) as int);
}

/// The lowest limb, split off.
pub(crate) proof fn lemma_limbs_nat_first(s: Seq<u64>)
    requires
        s.len() > 0,
    ensures
        limbs_nat(s) == s[0] as nat + 0x1_0000_0000_0000_0000 * limbs_nat(s.drop_first()),
    decreases s.len(),
{
    if s.len() == 1 {
        assert(s.drop_last() =~= Seq::<u64>::empty());
        assert(s.drop_first() =~= Seq::<u64>::empty());
        assert(weight(0) == 1);
    } else {
        let k = (s.len() - 2) as nat;
        lemma_limbs_nat_first(s.drop_last());
        assert(s.drop_last().drop_first() =~= s.drop_first().drop_last());
        assert(weight((s.len() - 1) as nat) == 0x1_0000_0000_0000_0000 * weight(k));
        assert(s.last() as nat * (0x1_0000_0000_0000_0000 * weight(k)) == 0x1_0000_0000_0000_0000
            * (s.last() as nat * weight(k))) by (nonlinear_arith);
    }
}

pub(crate) proof fn lemma_columns_nat_update(s: Seq<u128>, i: int, v: u128)
    requires
        0 <= i < s.len(),
    ensures
        columns_nat(s.update(i, v)) == columns_nat(s) + (v - s[i]) * weight(i as nat),
    decreases s.len(),
{
    let k = s.len() - 1;
    let u = s.update(i, v);
    if i == k {
        assert(u.drop_last() =~= s.drop_last());
        lemma_mul_is_distributive_sub_other_way(weight(i as nat) as int, v as int, s[i] as int);
    } else {
        assert(u.drop_last() =~= s.drop_last().update(i, v));
        lemma_columns_nat_update(s.drop_last(), i, v);
    }
}

pub(crate) proof fn lemma_limbs_nat_zeros(s: Seq<u64>)
    requires
        forall|i: int| 0 <= i < s.len() ==> s[i] == 0,
    ensures
        limbs_nat(s) == 0,
    decreases s.len(),
{
    if s.len() > 0 {
        lemma_limbs_nat_zeros(s.drop_last());
        lemma_mul_basics(weight((s.len() - 1) as nat) as int);
    }
}

/// Limb sequences of one length that stand for the same number are the same.
pub proof fn law_limbs_unique(a: Seq<u64>, b: Seq<u64>)
    requires
        a.len() == b.len(),
        limbs_nat(a) == limbs_nat(b),
    ensures
        a == b,
    decreases a.len(),
{
    if a.len() > 0 {
        lemma_limbs_nat_first(a);
        lemma_limbs_nat_first(b);
        law_limbs_unique(a.drop_first(), b.drop_first());
        assert forall|i: int| 0 <= i < a.len() implies a[i] == b[i] by {
            if i > 0 {
                assert(a[i] == a.drop_first()[i - 1]);
                assert(b[i] == b.drop_first()[i - 1]);
            }
        }
    }
    assert(a =~= b);
}

/// Every number below the weight of `k` limbs has `k` limbs.
pub(crate) proof fn lemma_limbs_exist(v: nat, k: nat) -> (s: Seq<u64>)
    requires
        v < weight(k),
    ensures
        s.len() == k,
        limbs_nat(s) == v,
    decreases k,
{
    if k == 0 {
        Seq::empty()
    } else {
        let high = lemma_limbs_exist(v / 0x1_0000_0000_0000_0000, (k - 1) as nat);
        let s = seq![(v % 0x1_0000_0000_0000_0000) as u64] + high;
        assert(s.drop_first() =~= high);
        lemma_limbs_nat_first(s);
        s
    }
}

/// Four limbs, written out.
pub(crate) proof fn lemma_limbs_nat_4(s: Seq<u64>)
    requires
        s.len() == 4,
    ensures
        limbs_nat(s) == s[0] + s[1] * 0x1_0000000000000000int + s[2]
            * 0x1_0000000000000000_0000000000000000int + s[3]
            * 0x1_0000000000000000_0000000000000000_0000000000000000int,
{
    lemma_limbs_nat_first(s);
    lemma_limbs_nat_first(s.drop_first());
    lemma_limbs_nat_first(s.drop_first().drop_first());
    lemma_limbs_nat_first(s.drop_first().drop_first().drop_first());
    assert(limbs_nat(s.drop_first().drop_first().drop_first().drop_first()) == 0);
}

/// Six limbs, written out.
pub(crate) proof fn lemma_limbs_nat_6(s: Seq<u64>)
    requires
        s.len() == 6,
    ensures
        limbs_nat(s) == s[0] + s[1] * 0x1_0000000000000000int + s[2]
            * 0x1_0000000000000000_0000000000000000int + s[3]
            * 0x1_0000000000000000_0000000000000000_0000000000000000int + s[4]
            * 0x1_0000000000000000_0000000000000000_0000000000000000_0000000000000000int + s[5]
            * 0x1_0000000000000000_0000000000000000_0000000000000000_0000000000000000_0000000000000000int,
{
    let t = s.drop_first().drop_first();
    lemma_limbs_nat_first(s);
    lemma_limbs_nat_first(s.drop_first());
    lemma_limbs_nat_4(t);
}

/// The weights that bound four and six limbs.
pub(crate) proof fn lemma_weights()
    ensures
        weight(4) == 0x1_0000000000000000_0000000000000000_0000000000000000_0000000000000000int,
        weight(6)
            == 0x1_0000000000000000_0000000000000000_0000000000000000_0000000000000000_0000000000000000_0000000000000000int,
{
    reveal_with_fuel(weight, 7);
}

/// Splits a double-width value into its low and high limb.
pub fn split_wide(t: u128) -> (r: (u64, u64))
    ensures
        t == r.1 * 0x1_0000_0000_0000_0000 + r.0,
{
    assert(t == (t >> 64u128) * 0x1_0000_0000_0000_0000 + (t as u64)) by (bit_vector);
    assert((t >> 64u128) <= 0xffff_ffff_ffff_ffff) by (bit_vector);
    (t as u64, (t >> 64) as u64)
}

/// Whether two limb arrays are the same.
pub fn limbs_equal<const N: usize>(a: [u64; N], b: [u64; N]) -> (r: bool)
    ensures
        r == (a == b),
{
    let mut i: usize = 0;
    while i < N
        invariant
            i <= N,
            forall|j: int| 0 <= j < i ==> a[j] == b[j],
        decreases N - i,
    {
        if a[i] != b[i] {
            return false;
        }
        i = i + 1;
    }
    assert(a =~= b);
    true
}

/// Adds two arrays; the second part of the result is the carry out of the top limb.
pub fn add_limbs<const N: usize>(a: [u64; N], b: [u64; N]) -> (r: ([u64; N], u64))
    ensures
        r.1 <= 1,
        limbs_nat(r.0@) + r.1 as nat * weight(N as nat) == limbs_nat(a@) + limbs_nat(b@),
{
    let mut sum = a;
    let mut carry: u64 = 0;
    let mut i: usize = 0;
    proof {
        lemma_limbs_nat_full(a@);
        lemma_limbs_nat_full(b@);
        lemma_limbs_nat_full(sum@);
    }
    while i < N
        invariant
            i <= N,
            carry <= 1,
            limbs_nat(sum@.take(i as int)) + carry as nat * weight(i as nat) == limbs_nat(
                a@.take(i as int),
            ) + limbs_nat(b@.take(i as int)),
        decreases N - i,
    {
        let (lo, hi) = split_wide(a[i] as u128 + b[i] as u128 + carry as u128);
        let ghost before = sum@;
        sum[i] = lo;
        proof {
            assert(sum@.take(i as int) =~= before.take(i as int));
            lemma_limbs_nat_take(a@, i as int);
            lemma_limbs_nat_take(b@, i as int);
            lemma_limbs_nat_take(sum@, i as int);
            let w = weight(i as nat) as int;
            let x = a[i as int] as int;
            let y = b[i as int] as int;
            let c = carry as int;
            let l = lo as int;
            let h = hi as int;
            assert(weight((i + 1) as nat) == 0x1_0000_0000_0000_0000 * w);
            assert(l * w + h * (0x1_0000_0000_0000_0000 * w) == x * w + y * w + c * w)
                by (nonlinear_arith)
                requires
                    x + y + c == h * 0x1_0000_0000_0000_0000 + l,
            ;
        }
        carry = hi;
        i = i + 1;
    }
    proof {
        lemma_limbs_nat_full(a@);
        lemma_limbs_nat_full(b@);
        lemma_limbs_nat_full(sum@);
    }
    (sum, carry)
}

/// Subtracts `b` from `a`; the second part of the result is the borrow out of the top limb.
pub fn sub_limbs<const N: usize>(a: [u64; N], b: [u64; N]) -> (r: ([u64; N], u64))
    ensures
        r.1 <= 1,
        limbs_nat(r.0@) + limbs_nat(b@) == limbs_nat(a@) + r.1 as nat * weight(N as nat),
{
    let mut difference = a;
    let mut borrow: u64 = 0;
    let mut i: usize = 0;
    proof {
        lemma_limbs_nat_full(a@);
        lemma_limbs_nat_full(b@);
        lemma_limbs_nat_full(difference@);
    }
    while i < N
        invariant
            i <= N,
            borrow <= 1,
            limbs_nat(difference@.take(i as int)) + limbs_nat(b@.take(i as int)) == limbs_nat(
                a@.take(i as int),
            ) + borrow as nat * weight(i as nat),
        decreases N - i,
    {
        let (lo, hi) = split_wide(
            0x1_0000_0000_0000_0000u128 + a[i] as u128 - b[i] as u128 - borrow as u128,
        );
        let ghost before = difference@;
        difference[i] = lo;
        proof {
            assert(difference@.take(i as int) =~= before.take(i as int));
            lemma_limbs_nat_take(a@, i as int);
            lemma_limbs_nat_take(b@, i as int);
            lemma_limbs_nat_take(difference@, i as int);
            let w = weight(i as nat) as int;
            let x = a[i as int] as int;
            let y = b[i as int] as int;
            let c = borrow as int;
            let l = lo as int;
            let h = 1 - hi as int;
            assert(weight((i + 1) as nat) == 0x1_0000_0000_0000_0000 * w);
            assert(l * w + y * w + c * w == x * w + h * (0x1_0000_0000_0000_0000 * w))
                by (nonlinear_arith)
                requires
                    l + y + c == x + h * 0x1_0000_0000_0000_0000,
            ;
        }
        borrow = 1 - hi;
        i = i + 1;
    }
    proof {
        lemma_limbs_nat_full(a@);
        lemma_limbs_nat_full(b@);
        lemma_limbs_nat_full(difference@);
    }
    (difference, borrow)
}

/// The highest limb in which two sequences differ decides which number is smaller.
proof fn lemma_highest_difference(a: Seq<u64>, b: Seq<u64>, i: usize)
    requires
        i < a.len(),
        a.len() == b.len(),
        a[i as int] < b[i as int],
        forall|j: int| i < j < a.len() ==> a[j] == b[j],
    ensures
        limbs_nat(a) < limbs_nat(b),
    decreases a.len(),
{
    let k = (a.len() - 1) as nat;
    if i == k {
        lemma_limbs_nat_bound(a.drop_last());
        lemma_mul_inequality(a.last() as int + 1, b.last() as int, weight(k) as int);
        lemma_mul_is_distributive_add_other_way(weight(k) as int, a.last() as int, 1);
    } else {
        assert(a.last() == b.last());
        lemma_highest_difference(a.drop_last(), b.drop_last(), i);
    }
}

/// Compares two arrays as numbers, from the top limb down.
pub fn cmp_limbs<const N: usize>(a: [u64; N], b: [u64; N]) -> (r: Ordering)
    ensures
        r == Ordering::Less <==> limbs_nat(a@) < limbs_nat(b@),
        r == Ordering::Equal <==> limbs_nat(a@) == limbs_nat(b@),
        r == Ordering::Greater <==> limbs_nat(a@) > limbs_nat(b@),
{
    let mut i: usize = N;
    while i > 0
        invariant
            i <= N,
            forall|j: int| i <= j < N ==> a[j] == b[j],
        decreases i,
    {
        i = i - 1;
        if a[i] < b[i] {
            proof {
                lemma_highest_difference(a@, b@, i);
            }
            return Ordering::Less;
        }
        if a[i] > b[i] {
            proof {
                lemma_highest_difference(b@, a@, i);
            }
            return Ordering::Greater;
        }
    }
    assert(a@ =~= b@);
    Ordering::Equal
}

/// A zero top limb does not change the number.
proof fn lemma_padded(s: Seq<u64>, t: Seq<u64>)
    requires
        t.len() == s.len() + 1,
        t.last() == 0,
        forall|i: int| 0 <= i < s.len() ==> t[i] == s[i],
    ensures
        limbs_nat(t) == limbs_nat(s),
{
    assert(t.drop_last() =~= s);
    lemma_mul_basics(weight(s.len()) as int);
}

/// A number that fits without the top limb keeps its value when that limb is dropped.
pub(crate) proof fn lemma_top_limb_zero(t: Seq<u64>, s: Seq<u64>)
    requires
        t.len() == s.len() + 1,
        forall|i: int| 0 <= i < s.len() ==> t[i] == s[i],
        limbs_nat(t) < weight(s.len()),
    ensures
        limbs_nat(s) == limbs_nat(t),
{
    assert(t.drop_last() =~= s);
    if t.last() > 0 {
        lemma_mul_inequality(1, t.last() as int, weight(s.len()) as int);
        assert(false);
    }
    lemma_mul_basics(weight(s.len()) as int);
}

/// A difference of a larger and a smaller number leaves no borrow.
pub(crate) proof fn lemma_no_borrow(a: Seq<u64>, b: Seq<u64>, difference: Seq<u64>, borrow: u64)
    requires
        limbs_nat(a) >= limbs_nat(b),
        borrow <= 1,
        limbs_nat(difference) + limbs_nat(b) == limbs_nat(a) + borrow as nat * weight(
            difference.len(),
        ),
    ensures
        limbs_nat(difference) == limbs_nat(a) - limbs_nat(b),
{
    lemma_limbs_nat_bound(difference);
    lemma_mul_basics(weight(difference.len()) as int);
    if borrow == 1 {
        assert(false);
    }
}

/// Computes `a + b`.
pub fn add_4_4(a: [u64; 4], b: [u64; 4]) -> (r: [u64; 5])
    ensures
        limbs_nat(r@) == limbs_nat(a@) + limbs_nat(b@),
{
    let (sum, carry) = add_limbs(a, b);
    let r = [sum[0], sum[1], sum[2], sum[3], carry];
    proof {
        assert(r@.drop_last() =~= sum@);
    }
    r
}

/// Computes `a - b`.
pub fn sub_4_4(a: [u64; 4], b: [u64; 4]) -> (r: [u64; 4])
    requires
        limbs_nat(a@) >= limbs_nat(b@),
    ensures
        limbs_nat(r@) == limbs_nat(a@) - limbs_nat(b@),
{
    let (difference, borrow) = sub_limbs(a, b);
    proof {
        lemma_no_borrow(a@, b@, difference@, borrow);
    }
    difference
}

/// Computes `a - b`.
pub fn sub_5_4(a: [u64; 5], b: [u64; 4]) -> (r: [u64; 5])
    requires
        limbs_nat(a@) >= limbs_nat(b@),
    ensures
        limbs_nat(r@) == limbs_nat(a@) - limbs_nat(b@),
{
    let padded = [b[0], b[1], b[2], b[3], 0];
    proof {
        lemma_padded(b@, padded@);
    }
    let (difference, borrow) = sub_limbs(a, padded);
    proof {
        lemma_no_borrow(a@, padded@, difference@, borrow);
    }
    difference
}

/// Compares two arrays as numbers.
pub fn cmp_4_4(a: [u64; 4], b: [u64; 4]) -> (r: Ordering)
    ensures
        r == Ordering::Less <==> limbs_nat(a@) < limbs_nat(b@),
        r == Ordering::Equal <==> limbs_nat(a@) == limbs_nat(b@),
        r == Ordering::Greater <==> limbs_nat(a@) > limbs_nat(b@),
{
    cmp_limbs(a, b)
}

/// Compares two arrays as numbers.
pub fn cmp_5_4(a: [u64; 5], b: [u64; 4]) -> (r: Ordering)
    ensures
        r == Ordering::Less <==> limbs_nat(a@) < limbs_nat(b@),
        r == Ordering::Equal <==> limbs_nat(a@) == limbs_nat(b@),
        r == Ordering::Greater <==> limbs_nat(a@) > limbs_nat(b@),
{
    let padded = [b[0], b[1], b[2], b[3], 0];
    proof {
        lemma_padded(b@, padded@);
    }
    cmp_limbs(a, padded)
}

/// Computes `a + b`.
pub fn add_6_6(a: [u64; 6], b: [u64; 6]) -> (r: [u64; 7])
    ensures
        limbs_nat(r@) == limbs_nat(a@) + limbs_nat(b@),
{
    let (sum, carry) = add_limbs(a, b);
    let r = [sum[0], sum[1], sum[2], sum[3], sum[4], sum[5], carry];
    proof {
        assert(r@.drop_last() =~= sum@);
    }
    r
}

/// Computes `a - b`.
pub fn sub_6_6(a: [u64; 6], b: [u64; 6]) -> (r: [u64; 6])
    requires
        limbs_nat(a@) >= limbs_nat(b@),
    ensures
        limbs_nat(r@) == limbs_nat(a@) - limbs_nat(b@),
{
    let (difference, borrow) = sub_limbs(a, b);
    proof {
        lemma_no_borrow(a@, b@, difference@, borrow);
    }
    difference
}

/// Computes `a - b`.
pub fn sub_7_6(a: [u64; 7], b: [u64; 6]) -> (r: [u64; 7])
    requires
        limbs_nat(a@) >= limbs_nat(b@),
    ensures
        limbs_nat(r@) == limbs_nat(a@) - limbs_nat(b@),
{
    let padded = [b[0], b[1], b[2], b[3], b[4], b[5], 0];
    proof {
        lemma_padded(b@, padded@);
    }
    let (difference, borrow) = sub_limbs(a, padded);
    proof {
        lemma_no_borrow(a@, padded@, difference@, borrow);
    }
    difference
}

/// Compares two arrays as numbers.
pub fn cmp_6_6(a: [u64; 6], b: [u64; 6]) -> (r: Ordering)
    ensures
        r == Ordering::Less <==> limbs_nat(a@) < limbs_nat(b@),
        r == Ordering::Equal <==> limbs_nat(a@) == limbs_nat(b@),
        r == Ordering::Greater <==> limbs_nat(a@) > limbs_nat(b@),
{
    cmp_limbs(a, b)
}

/// Compares two arrays as numbers.
pub fn cmp_7_6(a: [u64; 7], b: [u64; 6]) -> (r: Ordering)
    ensures
        r == Ordering::Less <==> limbs_nat(a@) < limbs_nat(b@),
        r == Ordering::Equal <==> limbs_nat(a@) == limbs_nat(b@),
        r == Ordering::Greater <==> limbs_nat(a@) > limbs_nat(b@),
{
    let padded = [b[0], b[1], b[2], b[3], b[4], b[5], 0];
    proof {
        lemma_padded(b@, padded@);
    }
    cmp_limbs(a, padded)
}

/// Adds the product of `a` and `b` to the columns, without carrying between them.
fn accumulate_products<const A: usize, const B: usize, const C: usize>(
    a: [u64; A],
    b: [u64; B],
    columns: &mut [u128; C],
)
    requires
        A + B == C,
        A <= 64,
        B <= 64,
        forall|k: int| 0 <= k < C ==> old(columns)[k] == 0,
    ensures
        columns_nat(final(columns)@) == limbs_nat(a@) * limbs_nat(b@),
        forall|k: int| 0 <= k < C ==> final(columns)[k] <= 0x1000_0000_0000_0000_0000,
{
    proof {
        lemma_columns_nat_zeros(columns@);
        lemma_limbs_nat_full(a@);
        lemma_limbs_nat_full(b@);
        lemma_mul_basics(limbs_nat(b@) as int);
    }
    let ghost nb = limbs_nat(b@);
    let mut i: usize = 0;
    while i < A
        invariant
            i <= A,
            A + B == C,
            A <= 64,
            B <= 64,
            nb == limbs_nat(b@),
            columns_nat(columns@) == limbs_nat(a@.take(i as int)) * nb,
            forall|k: int|
                0 <= k < C ==> columns[k] <= (i * 64) * 0xffff_ffff_ffff_ffff,
        decreases A - i,
    {
        let ghost na = limbs_nat(a@.take(i as int));
        let mut j: usize = 0;
        proof {
            lemma_limbs_nat_full(b@);
            lemma_mul_basics(weight(i as nat) as int);
            lemma_mul_basics(a[i as int] as int);
        }
        while j < B
            invariant
                i < A,
                j <= B,
                A + B == C,
                A <= 64,
                B <= 64,
                na == limbs_nat(a@.take(i as int)),
                nb == limbs_nat(b@),
                columns_nat(columns@) == na * nb + (a[i as int] as nat * limbs_nat(
                    b@.take(j as int),
                )) * weight(i as nat),
                forall|k: int|
                    0 <= k < C ==> columns[k] <= (i * 64 + j) * 0xffff_ffff_ffff_ffff,
            decreases B - j,
        {
            proof {
                lemma_mul_upper_bound(
                    a[i as int] as int,
                    0xffff_ffff_ffff_ffff,
                    b[j as int] as int,
                    0xffff_ffff_ffff_ffff,
                );
            }
            let (lo, hi) = split_wide(a[i] as u128 * b[j] as u128);
            let ghost start = columns@;
            columns[i + j] = columns[i + j] + lo as u128;
            let ghost middle = columns@;
            columns[i + j + 1] = columns[i + j + 1] + hi as u128;
            proof {
                let x = a[i as int] as int;
                let y = b[j as int] as int;
                let wi = weight(i as nat) as int;
                let wj = weight(j as nat) as int;
                let t = limbs_nat(b@.take(j as int)) as int;
                lemma_columns_nat_update(start, (i + j) as int, middle[(i + j) as int]);
                lemma_columns_nat_update(
                    middle,
                    (i + j + 1) as int,
                    columns@[(i + j + 1) as int],
                );
                assert(middle =~= start.update((i + j) as int, middle[(i + j) as int]));
                assert(columns@ =~= middle.update(
                    (i + j + 1) as int,
                    columns@[(i + j + 1) as int],
                ));
                lemma_limbs_nat_take(b@, j as int);
                lemma_weight_adds(i as nat, j as nat);
                assert(weight((i + j + 1) as nat) == 0x1_0000_0000_0000_0000 * weight(
                    (i + j) as nat,
                ));
                assert(x * y == hi as int * 0x1_0000_0000_0000_0000 + lo as int);
                lemma_product_step(x, y, wi, wj, t, lo as int, hi as int);
            }
            j = j + 1;
        }
        proof {
            lemma_limbs_nat_full(b@);
            lemma_limbs_nat_take(a@, i as int);
            let x = a[i as int] as int;
            let wi = weight(i as nat) as int;
            assert((na + x * wi) * nb == na * nb + (x * nb) * wi) by (nonlinear_arith);
            assert forall|k: int| 0 <= k < C implies columns[k] <= ((i + 1) * 64)
                * 0xffff_ffff_ffff_ffff by {}
        }
        i = i + 1;
    }
    proof {
        lemma_limbs_nat_full(a@);
    }
}

proof fn lemma_product_step(x: int, y: int, wi: int, wj: int, t: int, lo: int, hi: int)
    requires
        x * y == hi * 0x1_0000_0000_0000_0000 + lo,
    ensures
        (x * (t + y * wj)) * wi == (x * t) * wi + lo * (wi * wj) + hi * (0x1_0000_0000_0000_0000 * (
        wi * wj)),
{
    let w = wi * wj;
    lemma_mul_is_distributive_add(x, t, y * wj);
    lemma_mul_is_associative(x, y, wj);
    lemma_mul_is_distributive_add_other_way(wi, x * t, (x * y) * wj);
    lemma_mul_is_associative(x * y, wj, wi);
    lemma_mul_is_commutative(wj, wi);
    lemma_mul_is_distributive_add_other_way(w, hi * 0x1_0000_0000_0000_0000, lo);
    lemma_mul_is_associative(hi, 0x1_0000_0000_0000_0000, w);
}

proof fn lemma_columns_nat_zeros(s: Seq<u128>)
    requires
        forall|i: int| 0 <= i < s.len() ==> s[i] == 0,
    ensures
        columns_nat(s) == 0,
    decreases s.len(),
{
    if s.len() > 0 {
        lemma_columns_nat_zeros(s.drop_last());
        lemma_mul_basics(weight((s.len() - 1) as nat) as int);
    }
}

proof fn lemma_columns_nat_take(s: Seq<u128>, i: int)
    requires
        0 <= i < s.len(),
    ensures
        columns_nat(s.take(i + 1)) == columns_nat(s.take(i)) + s[i] as nat * weight(i as nat),
{
    assert(s.take(i + 1).drop_last() =~= s.take(i));
}

/// Carries the columns into single limbs.
fn propagate_carries<const C: usize>(columns: &[u128; C], product: &mut [u64; C])
    requires
        forall|k: int| 0 <= k < C ==> columns[k] <= 0x1000_0000_0000_0000_0000,
        columns_nat(columns@) < weight(C as nat),
    ensures
        limbs_nat(final(product)@) == columns_nat(columns@),
{
    let mut carry: u64 = 0;
    let mut i: usize = 0;
    proof {
        lemma_limbs_nat_full(product@);
        assert(columns_nat(columns@.take(0)) == 0);
    }
    while i < C
        invariant
            i <= C,
            carry <= 0x2000,
            forall|k: int| 0 <= k < C ==> columns[k] <= 0x1000_0000_0000_0000_0000,
            limbs_nat(product@.take(i as int)) + carry as nat * weight(i as nat) == columns_nat(
                columns@.take(i as int),
            ),
        decreases C - i,
    {
        let (lo, hi) = split_wide(columns[i] + carry as u128);
        let ghost before = product@;
        product[i] = lo;
        proof {
            assert(product@.take(i as int) =~= before.take(i as int));
            lemma_columns_nat_take(columns@, i as int);
            lemma_limbs_nat_take(product@, i as int);
            let w = weight(i as nat) as int;
            let x = columns[i as int] as int;
            let c = carry as int;
            let l = lo as int;
            let h = hi as int;
            assert(weight((i + 1) as nat) == 0x1_0000_0000_0000_0000 * w);
            assert(l * w + h * (0x1_0000_0000_0000_0000 * w) == x * w + c * w)
                by (nonlinear_arith)
                requires
                    x + c == h * 0x1_0000_0000_0000_0000 + l,
            ;
        }
        carry = hi;
        i = i + 1;
    }
    proof {
        lemma_limbs_nat_full(product@);
        assert(columns@.take(C as int) =~= columns@);
        if carry > 0 {
            lemma_mul_inequality(1, carry as int, weight(C as nat) as int);
        }
        assert(carry == 0);
        lemma_mul_basics(weight(C as nat) as int);
    }
}

/// The product of two numbers fits in as many limbs as both have together.
proof fn lemma_product_bound(a: Seq<u64>, b: Seq<u64>)
    ensures
        limbs_nat(a) * limbs_nat(b) < weight(a.len() + b.len()),
{
    lemma_limbs_nat_bound(a);
    lemma_limbs_nat_bound(b);
    lemma_weight_adds(a.len(), b.len());
    let x = limbs_nat(a) as int;
    let y = limbs_nat(b) as int;
    let wx = weight(a.len()) as int;
    let wy = weight(b.len()) as int;
    assert(x * y < wx * wy) by (nonlinear_arith)
        requires
            0 <= x < wx,
            0 <= y < wy,
    ;
}

/// Computes `a * b`.
pub fn mul_4_4(a: [u64; 4], b: [u64; 4]) -> (r: [u64; 8])
    ensures
        limbs_nat(r@) == limbs_nat(a@) * limbs_nat(b@),
{
    let mut columns = [0u128; 8];
    let mut product = [0u64; 8];
    accumulate_products(a, b, &mut columns);
    proof {
        lemma_product_bound(a@, b@);
    }
    propagate_carries(&columns, &mut product);
    product
}

/// Computes `a * b`.
pub fn mul_6_6(a: [u64; 6], b: [u64; 6]) -> (r: [u64; 12])
    ensures
        limbs_nat(r@) == limbs_nat(a@) * limbs_nat(b@),
{
    let mut columns = [0u128; 12];
    let mut product = [0u64; 12];
    accumulate_products(a, b, &mut columns);
    proof {
        lemma_product_bound(a@, b@);
    }
    propagate_carries(&columns, &mut product);
    product
}

/// Computes `a * b`.
pub fn mul_8_4(a: [u64; 8], b: [u64; 4]) -> (r: [u64; 12])
    ensures
        limbs_nat(r@) == limbs_nat(a@) * limbs_nat(b@),
{
    let mut columns = [0u128; 12];
    let mut product = [0u64; 12];
    accumulate_products(a, b, &mut columns);
    proof {
        lemma_product_bound(a@, b@);
    }
    propagate_carries(&columns, &mut product);
    product
}

/// Computes `a * b`.
pub fn mul_12_6(a: [u64; 12], b: [u64; 6]) -> (r: [u64; 18])
    ensures
        limbs_nat(r@) == limbs_nat(a@) * limbs_nat(b@),
{
    let mut columns = [0u128; 18];
    let mut product = [0u64; 18];
    accumulate_products(a, b, &mut columns);
    proof {
        lemma_product_bound(a@, b@);
    }
    propagate_carries(&columns, &mut product);
    product
}

} // verus!
