//! Conversions between limbs and arbitrary-precision numbers.

use num::BigUint;
use vstd::arithmetic::mul::*;
use vstd::prelude::*;

use crate::biguint;
use crate::limbs;

verus! {

/// Eight bytes weigh as much as one limb.
proof fn lemma_byte_weight(i: nat)
    ensures
        biguint::byte_weight(8 * i) == limbs::weight(i),
    decreases i,
{
    reveal_with_fuel(biguint::byte_weight, 9);
    if i > 0 {
        lemma_byte_weight((i - 1) as nat);
        assert((8 * i - 8) as nat == 8 * (i - 1) as nat);
    }
}

/// A number whose top byte is not zero is not zero.
proof fn lemma_bytes_nat_positive(s: Seq<u8>)
    requires
        s.len() > 0,
        s.last() != 0,
    ensures
        biguint::bytes_nat(s) > 0,
    decreases s.len(),
{
    if s.len() > 1 {
        assert(s.drop_first().last() == s.last());
        lemma_bytes_nat_positive(s.drop_first());
    }
}

/// Appends the eight bytes of a limb, the least significant one first.
fn push_limb(bytes: &mut Vec<u8>, limb: u64)
    ensures
        final(bytes)@.len() == old(bytes)@.len() + 8,
        biguint::bytes_nat(final(bytes)@) == biguint::bytes_nat(old(bytes)@) + biguint::byte_weight(
            old(bytes)@.len(),
        ) * limb as nat,
{
    let ghost start = bytes@;
    let ghost mut low: nat = 0;
    let mut rest = limb;
    let mut j: usize = 0;
    proof {
        lemma_mul_basics(biguint::byte_weight(start.len()) as int);
        lemma_mul_basics(limb as int);
    }
    while j < 8
        invariant
            j <= 8,
            bytes@.len() == start.len() + j,
            limb == low + biguint::byte_weight(j as nat) * rest,
            biguint::byte_weight((start.len() + j) as nat) == biguint::byte_weight(start.len())
                * biguint::byte_weight(j as nat),
            biguint::bytes_nat(bytes@) == biguint::bytes_nat(start) + biguint::byte_weight(
                start.len(),
            ) * low,
        decreases 8 - j,
    {
        let digit = rest % 256;
        proof {
            let w = biguint::byte_weight(start.len());
            let p = biguint::byte_weight(j as nat);
            biguint::lemma_bytes_nat_push(bytes@, digit as u8);
            assert(p * rest == p * digit + (256 * p) * (rest / 256)) by (nonlinear_arith)
                requires
                    digit == rest % 256,
            ;
            assert((w * p) * digit + w * low == w * (low + p * digit)) by (nonlinear_arith);
            lemma_mul_is_associative(256, w as int, p as int);
            lemma_mul_is_associative(w as int, 256, p as int);
            lemma_mul_is_commutative(256, w as int);
            low = low + p * digit as nat;
        }
        bytes.push(digit as u8);
        rest = rest / 256;
        j = j + 1;
    }
    proof {
        reveal_with_fuel(biguint::byte_weight, 9);
        assert(biguint::byte_weight(8) == 0x1_0000_0000_0000_0000);
        assert(limb == low + 0x1_0000_0000_0000_0000 * rest);
    }
}

/// The number that some limbs stand for, the least significant one first.
pub fn u64_slice_to_biguint(n: &[u64]) -> (r: BigUint)
    ensures
        biguint::biguint_nat(r) == limbs::limbs_nat(n@),
{
    let mut bytes: Vec<u8> = Vec::new();
    let mut i: usize = 0;
    proof {
        limbs::lemma_limbs_nat_full(n@);
    }
    while i < n.len()
        invariant
            i <= n.len(),
            bytes@.len() == 8 * i,
            biguint::bytes_nat(bytes@) == limbs::limbs_nat(n@.take(i as int)),
        decreases n.len() - i,
    {
        proof {
            lemma_byte_weight(i as nat);
            limbs::lemma_limbs_nat_take(n@, i as int);
            lemma_mul_is_commutative(limbs::weight(i as nat) as int, n[i as int] as int);
        }
        push_limb(&mut bytes, n[i]);
        i = i + 1;
    }
    proof {
        limbs::lemma_limbs_nat_full(n@);
    }
    biguint::from_bytes_le(bytes.as_slice())
}

/// Reads the limb that at most eight bytes make up, the least significant one first.
fn read_limb(bytes: &Vec<u8>, start: usize, end: usize) -> (r: u64)
    requires
        start <= end <= bytes@.len(),
        end - start <= 8,
    ensures
        r == biguint::bytes_nat(bytes@.subrange(start as int, end as int)),
{
    let mut limb: u64 = 0;
    let mut j = end;
    proof {
        reveal_with_fuel(biguint::byte_weight, 9);
    }
    while start < j
        invariant
            start <= j <= end <= bytes@.len(),
            end - start <= 8,
            biguint::byte_weight(8) == 0x1_0000_0000_0000_0000,
            limb == biguint::bytes_nat(bytes@.subrange(j as int, end as int)),
            limb < biguint::byte_weight((end - j) as nat),
        decreases j,
    {
        j = j - 1;
        proof {
            assert(bytes@.subrange(j as int, end as int).drop_first() =~= bytes@.subrange(
                j + 1,
                end as int,
            ));
            lemma_byte_weight_bound((end - j) as nat, 8);
        }
        limb = limb * 256 + bytes[j] as u64;
    }
    limb
}

proof fn lemma_byte_weight_bound(i: nat, j: nat)
    requires
        i <= j,
    ensures
        biguint::byte_weight(i) <= biguint::byte_weight(j),
    decreases j,
{
    if i < j {
        lemma_byte_weight_bound(i, (j - 1) as nat);
    }
}

/// The limbs of a number, the least significant one first, with zeros on top up to the given
/// length. A number that needs more limbs has just as many as it needs.
pub fn biguint_to_u64_vec(n: BigUint, min_len: usize) -> (r: Vec<u64>)
    ensures
        limbs::limbs_nat(r@) == biguint::biguint_nat(n),
        r@.len() >= min_len,
        r@.len() > 0,
        r@.len() > min_len ==> r@.len() == 1 || r@.last() != 0,
        0 < min_len && biguint::biguint_nat(n) < limbs::weight(min_len as nat) ==> r@.len()
            == min_len,
{
    let bytes = biguint::to_bytes_le(&n);
    let mut limbs: Vec<u64> = Vec::new();
    let mut start: usize = 0;
    proof {
        assert(bytes@.take(0) =~= Seq::<u8>::empty());
    }
    while start < bytes.len()
        invariant
            start <= bytes@.len(),
            start < bytes@.len() ==> start == 8 * limbs@.len(),
            bytes@.len() > 1 ==> bytes@.last() != 0,
            start == bytes@.len() && limbs@.len() > 1 ==> limbs@.last() != 0,
            start > 0 ==> limbs@.len() > 0,
            limbs::limbs_nat(limbs@) == biguint::bytes_nat(bytes@.take(start as int)),
        decreases bytes@.len() - start,
    {
        let end = if bytes.len() - start < 8 {
            bytes.len()
        } else {
            start + 8
        };
        let limb = read_limb(&bytes, start, end);
        proof {
            let part = bytes@.subrange(start as int, end as int);
            assert(bytes@.take(end as int) =~= bytes@.take(start as int) + part);
            biguint::lemma_bytes_nat_concat(bytes@.take(start as int), part);
            lemma_byte_weight(limbs@.len());
            lemma_mul_is_commutative(limbs::weight(limbs@.len()) as int, limb as int);
            assert(limbs@.push(limb).drop_last() =~= limbs@);
            if end == bytes@.len() && bytes@.len() > 1 {
                assert(part.last() == bytes@.last());
                lemma_bytes_nat_positive(part);
            }
        }
        limbs.push(limb);
        start = end;
    }
    proof {
        assert(bytes@.take(start as int) =~= bytes@);
    }
    while limbs.len() < min_len
        invariant
            limbs::limbs_nat(limbs@) == biguint::biguint_nat(n),
            limbs@.len() > min_len ==> limbs@.len() == 1 || limbs@.last() != 0,
            limbs@.len() > 0,
        decreases min_len - limbs@.len(),
    {
        proof {
            assert(limbs@.push(0).drop_last() =~= limbs@);
            lemma_mul_basics(limbs::weight(limbs@.len()) as int);
        }
        limbs.push(0);
    }
    proof {
        if limbs@.len() > min_len && min_len > 0 {
            limbs::lemma_limbs_nat_top(limbs@, min_len as nat);
        }
    }
    limbs
}

/// Limbs that are read as a number and written back to as many limbs are the same limbs.
pub proof fn law_limbs_round_trip(s: Seq<u64>, n: BigUint, t: Seq<u64>)
    requires
        s.len() > 0,
        biguint::biguint_nat(n) == limbs::limbs_nat(s),
        limbs::limbs_nat(t) == biguint::biguint_nat(n),
        biguint::biguint_nat(n) < limbs::weight(s.len()) ==> t.len() == s.len(),
    ensures
        t == s,
{
    limbs::lemma_limbs_nat_bound(s);
    limbs::law_limbs_unique(s, t);
}

} // verus!
