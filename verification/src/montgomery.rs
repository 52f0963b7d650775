//! Montgomery multiplication on limb arrays, generic in the number of limbs.

use core::cmp::Ordering;
use vstd::arithmetic::div_mod::*;
use vstd::arithmetic::mul::*;
use vstd::prelude::*;

use crate::congruence;
use crate::limbs;
use crate::limbs::{cmp_limbs, split_wide, sub_limbs};

verus! {

/// The limbs of `c` read from index `i` on, wrapping around at the end.
spec fn rotated(c: Seq<u64>, i: int) -> Seq<u64> {
    c.skip(i) + c.take(i)
}

/// The index in an array of `len` limbs, read from index `i` on, of its limb number `j`.
spec fn wrapped(i: int, j: int, len: int) -> int {
    if i + j < len {
        i + j
    } else {
        i + j - len
    }
}

proof fn lemma_wrapped(i: int, j: int, len: int)
    requires
        0 <= i < len,
        0 <= j < len,
    ensures
        (i + j) % len == wrapped(i, j, len),
{
    if i + j < len {
        lemma_small_mod((i + j) as nat, len as nat);
    } else {
        lemma_mod_sub_multiples_vanish(i + j, len);
        lemma_small_mod((i + j - len) as nat, len as nat);
    }
}

proof fn lemma_rotated_update(c: Seq<u64>, i: int, j: int, v: u64)
    requires
        0 <= i < c.len(),
        0 <= j < c.len(),
    ensures
        rotated(c.update(wrapped(i, j, c.len() as int), v), i) == rotated(c, i).update(j, v),
        rotated(c, i)[j] == c[wrapped(i, j, c.len() as int)],
{
    assert(rotated(c.update(wrapped(i, j, c.len() as int), v), i) =~= rotated(c, i).update(j, v));
}

proof fn lemma_rotated_next(c: Seq<u64>, i: int)
    requires
        0 <= i < c.len(),
    ensures
        rotated(c, i + 1) == rotated(c, i).drop_first().push(rotated(c, i)[0]),
{
    assert(rotated(c, i + 1) =~= rotated(c, i).drop_first().push(rotated(c, i)[0]));
}

/// Adds `x * y` to the number that `c` holds when it is read from index `i` on.
fn add_scaled<const N: usize, const M: usize>(c: &mut [u64; M], i: usize, x: u64, y: [u64; N])
    requires
        M == N + 1,
        i < N,
        N <= 64,
        limbs::limbs_nat(rotated(old(c)@, i as int)) + x as nat * limbs::limbs_nat(y@)
            < limbs::weight(M as nat),
    ensures
        limbs::limbs_nat(rotated(final(c)@, i as int)) == limbs::limbs_nat(
            rotated(old(c)@, i as int),
        ) + x as nat * limbs::limbs_nat(y@),
{
    let ghost w0 = rotated(c@, i as int);
    let mut carry: u64 = 0;
    let mut j: usize = 0;
    proof {
        limbs::lemma_limbs_nat_full(w0);
        limbs::lemma_limbs_nat_full(y@);
        lemma_mul_basics(x as int);
    }
    while j < N
        invariant
            M == N + 1,
            i < N,
            j <= N,
            N <= 64,
            w0.len() == M,
            limbs::limbs_nat(rotated(c@, i as int).take(j as int)) + carry as nat * limbs::weight(
                j as nat,
            ) == limbs::limbs_nat(w0.take(j as int)) + x as nat * limbs::limbs_nat(
                y@.take(j as int),
            ),
            forall|k: int| j <= k < M ==> rotated(c@, i as int)[k] == w0[k],
        decreases N - j,
    {
        let k = (i + j) % M;
        let ghost before = c@;
        proof {
            lemma_wrapped(i as int, j as int, M as int);
            lemma_mul_upper_bound(
                x as int,
                0xffff_ffff_ffff_ffff,
                y[j as int] as int,
                0xffff_ffff_ffff_ffff,
            );
        }
        let (lo, hi) = split_wide(c[k] as u128 + x as u128 * y[j] as u128 + carry as u128);
        c[k] = lo;
        proof {
            let v = rotated(before, i as int);
            let w = rotated(c@, i as int);
            lemma_rotated_update(before, i as int, j as int, lo);
            assert(c@ =~= before.update(wrapped(i as int, j as int, M as int), lo));
            assert(w == v.update(j as int, lo));
            assert(w.take(j as int) =~= v.take(j as int));
            limbs::lemma_limbs_nat_take(w, j as int);
            limbs::lemma_limbs_nat_take(w0, j as int);
            limbs::lemma_limbs_nat_take(y@, j as int);
            assert(w0[j as int] == v[j as int]);
            lemma_scaled_step(
                x as int,
                y[j as int] as int,
                limbs::limbs_nat(y@.take(j as int)) as int,
                w0[j as int] as int,
                carry as int,
                lo as int,
                hi as int,
                limbs::weight(j as nat) as int,
            );
        }
        carry = hi;
        j = j + 1;
    }
    let ghost before = c@;
    let k = (i + N) % M;
    proof {
        let v = rotated(before, i as int);
        lemma_wrapped(i as int, N as int, M as int);
        lemma_rotated_update(before, i as int, N as int, 0);
        limbs::lemma_limbs_nat_full(w0);
        limbs::lemma_limbs_nat_full(y@);
        limbs::lemma_limbs_nat_take(w0, N as int);
        let t = w0[N as int] as int + carry as int;
        let wn = limbs::weight(N as nat) as int;
        lemma_mul_is_distributive_add_other_way(wn, w0[N as int] as int, carry as int);
        assert(limbs::limbs_nat(v.take(N as int)) + t * wn == limbs::limbs_nat(w0) + x as nat
            * limbs::limbs_nat(y@));
        if t >= 0x1_0000_0000_0000_0000 {
            lemma_mul_inequality(0x1_0000_0000_0000_0000, t, wn);
            assert(false);
        }
    }
    c[k] = c[k] + carry;
    proof {
        let v = rotated(before, i as int);
        let w = rotated(c@, i as int);
        let top = c@[k as int];
        lemma_rotated_update(before, i as int, N as int, top);
        assert(c@ =~= before.update(k as int, top));
        assert(w == v.update(N as int, top));
        assert(w.take(N as int) =~= v.take(N as int));
        limbs::lemma_limbs_nat_full(w);
        limbs::lemma_limbs_nat_take(w, N as int);
    }
}

proof fn lemma_scaled_step(x: int, y: int, t: int, c: int, carry: int, lo: int, hi: int, w: int)
    requires
        c + x * y + carry == hi * 0x1_0000_0000_0000_0000 + lo,
    ensures
        lo * w + hi * (0x1_0000_0000_0000_0000 * w) + x * t == c * w + x * (t + y * w) + carry * w,
{
    lemma_mul_is_distributive_add(x, t, y * w);
    lemma_mul_is_associative(x, y, w);
    lemma_mul_is_distributive_add_other_way(w, c + x * y, carry);
    lemma_mul_is_distributive_add_other_way(w, c, x * y);
    lemma_mul_is_distributive_add_other_way(w, hi * 0x1_0000_0000_0000_0000, lo);
    lemma_mul_is_associative(hi, 0x1_0000_0000_0000_0000, w);
}

/// A limb sequence whose lowest limb is zero is divided by 2^64 when it is rotated by one.
proof fn lemma_rotate_zero(w: Seq<u64>)
    requires
        w.len() > 0,
        w[0] == 0,
    ensures
        limbs::limbs_nat(w) == 0x1_0000_0000_0000_0000 * limbs::limbs_nat(
            w.drop_first().push(w[0]),
        ),
{
    limbs::lemma_limbs_nat_first(w);
    let t = w.drop_first().push(w[0]);
    assert(t.drop_last() =~= w.drop_first());
    lemma_mul_basics(limbs::weight((t.len() - 1) as nat) as int);
}

/// With `mu * n = -1` modulo 2^64, adding `mu * c * n` clears the lowest limb.
proof fn lemma_low_limb_cleared(c: nat, q: nat, n: nat, c0: nat, n0: nat, mu: nat)
    requires
        c % 0x1_0000_0000_0000_0000 == c0,
        n % 0x1_0000_0000_0000_0000 == n0,
        q == (mu * c0) % 0x1_0000_0000_0000_0000,
        (mu * n0 + 1) % 0x1_0000_0000_0000_0000 == 0,
    ensures
        (c + q * n) % 0x1_0000_0000_0000_0000 == 0,
{
    let b = 0x1_0000_0000_0000_0000int;
    congruence::lemma_congruent_mul(q as int, (mu * c0) as int, n as int, n0 as int, b);
    congruence::lemma_congruent_add(
        c as int,
        c0 as int,
        (q * n) as int,
        ((mu * c0) * n0) as int,
        b,
    );
    assert(c0 + (mu * c0) * n0 == c0 * (mu * n0 + 1)) by (nonlinear_arith);
    let k = congruence::lemma_divides_witness((mu * n0 + 1) as int, b);
    lemma_mul_is_associative(c0 as int, k, b);
    congruence::lemma_add_multiple(0, c0 * k, b);
}

/// Interleaved Montgomery multiplication, before the final subtraction: the result times
/// 2^(64 N) is congruent to `a * b`, and it is less than `b` and `order` together.
///
/// `c` is the accumulator. So as not to shift it, index `i` counts as its lowest limb in round
/// `i`, and the limbs before that index as its highest.
fn montgomery_rounds<const N: usize, const M: usize>(
    a: [u64; N],
    b: [u64; N],
    order: [u64; N],
    mu: u64,
    zeros: [u64; M],
) -> (r: [u64; N])
    requires
        M == N + 1,
        0 < N <= 64,
        forall|k: int| 0 <= k < M ==> zeros[k] == 0,
        limbs::limbs_nat(order@) > 0,
        limbs::limbs_nat(b@) + limbs::limbs_nat(order@) <= limbs::weight(N as nat),
        (mu as nat * order[0] as nat + 1) % 0x1_0000_0000_0000_0000 == 0,
    ensures
        limbs::limbs_nat(r@) < limbs::limbs_nat(b@) + limbs::limbs_nat(order@),
        (limbs::limbs_nat(r@) * limbs::weight(N as nat)) % limbs::limbs_nat(order@) == (
        limbs::limbs_nat(a@) * limbs::limbs_nat(b@)) % limbs::limbs_nat(order@),
{
    let mut c = zeros;
    let ghost nb = limbs::limbs_nat(b@);
    let ghost no = limbs::limbs_nat(order@);
    let ghost mut quotient: nat = 0;
    let mut i: usize = 0;
    proof {
        assert(rotated(c@, 0) =~= c@);
        limbs::lemma_limbs_nat_zeros(c@);
        limbs::lemma_limbs_nat_full(a@);
        lemma_mul_basics(nb as int);
        lemma_mul_basics(no as int);
    }
    while i < N
        invariant
            i <= N,
            M == N + 1,
            0 < N <= 64,
            nb == limbs::limbs_nat(b@),
            no == limbs::limbs_nat(order@),
            no > 0,
            nb + no <= limbs::weight(N as nat),
            (mu as nat * order[0] as nat + 1) % 0x1_0000_0000_0000_0000 == 0,
            limbs::limbs_nat(rotated(c@, i as int)) < nb + no,
            limbs::limbs_nat(rotated(c@, i as int)) * limbs::weight(i as nat) == limbs::limbs_nat(
                a@.take(i as int),
            ) * nb + quotient * no,
        decreases N - i,
    {
        let ghost c0 = limbs::limbs_nat(rotated(c@, i as int));
        proof {
            assert(limbs::weight(M as nat) == 0x1_0000_0000_0000_0000 * limbs::weight(N as nat));
            lemma_mul_inequality(a[i as int] as int, 0xffff_ffff_ffff_ffff, nb as int);
        }
        // Add a[i] b to c.
        add_scaled(&mut c, i, a[i], b);
        let ghost c1 = limbs::limbs_nat(rotated(c@, i as int));
        let ghost w1 = rotated(c@, i as int);

        let q = mu.wrapping_mul(c[i]);
        proof {
            lemma_mul_inequality(q as int, 0xffff_ffff_ffff_ffff, no as int);
        }
        // Add q N to c.
        add_scaled(&mut c, i, q, order);
        let ghost c2 = limbs::limbs_nat(rotated(c@, i as int));

        proof {
            let w2 = rotated(c@, i as int);
            assert(w1[0] as nat == c1 % 0x1_0000_0000_0000_0000) by {
                limbs::lemma_limbs_nat_first(w1);
            }
            assert(order[0] as nat == no % 0x1_0000_0000_0000_0000) by {
                limbs::lemma_limbs_nat_first(order@);
            }
            lemma_low_limb_cleared(
                c1,
                q as nat,
                no,
                w1[0] as nat,
                order[0] as nat,
                mu as nat,
            );
            assert(w2[0] == 0) by {
                limbs::lemma_limbs_nat_first(w2);
            }
            lemma_rotate_zero(w2);
            lemma_rotated_next(c@, i as int);
            let c3 = limbs::limbs_nat(rotated(c@, i + 1));
            assert(c2 == 0x1_0000_0000_0000_0000 * c3);
            let wi = limbs::weight(i as nat);
            let x = a[i as int] as nat;
            assert(limbs::weight((i + 1) as nat) == 0x1_0000_0000_0000_0000 * wi);
            limbs::lemma_limbs_nat_take(a@, i as int);
            lemma_round_value(
                c0,
                c3,
                x,
                q as nat,
                nb,
                no,
                wi,
                limbs::limbs_nat(a@.take(i as int)),
                quotient,
            );
            quotient = quotient + q as nat * wi;
        }
        i = i + 1;
    }
    let mut r = a;
    let mut k: usize = 0;
    while k < N
        invariant
            k <= N,
            N <= 64,
            M == N + 1,
            forall|j: int| 0 <= j < k ==> r[j] == rotated(c@, N as int)[j],
        decreases N - k,
    {
        proof {
            lemma_wrapped(N as int, k as int, M as int);
        }
        r[k] = c[(N + k) % M];
        k = k + 1;
    }
    proof {
        let w = rotated(c@, N as int);
        limbs::lemma_limbs_nat_full(a@);
        assert(w.take(N as int) =~= r@);
        limbs::lemma_limbs_nat_full(w);
        limbs::lemma_limbs_nat_take(w, N as int);
        if w[N as int] > 0 {
            lemma_mul_inequality(1, w[N as int] as int, limbs::weight(N as nat) as int);
            assert(false);
        }
        lemma_mul_basics(limbs::weight(N as nat) as int);
        congruence::lemma_add_multiple(
            (limbs::limbs_nat(a@) * nb) as int,
            quotient as int,
            no as int,
        );
    }
    r
}

/// The value of the accumulator after one round.
proof fn lemma_round_value(
    c0: nat,
    c3: nat,
    x: nat,
    q: nat,
    nb: nat,
    no: nat,
    wi: nat,
    na: nat,
    quotient: nat,
)
    requires
        0x1_0000_0000_0000_0000 * c3 == c0 + x * nb + q * no,
        c0 * wi == na * nb + quotient * no,
    ensures
        c3 * (0x1_0000_0000_0000_0000 * wi) == (na + x * wi) * nb + (quotient + q * wi) * no,
{
    let b = 0x1_0000_0000_0000_0000int;
    lemma_mul_is_associative(c3 as int, b, wi as int);
    lemma_mul_is_commutative(c3 as int, b);
    lemma_mul_is_distributive_add_other_way(wi as int, (c0 + x * nb) as int, (q * no) as int);
    lemma_mul_is_distributive_add_other_way(wi as int, c0 as int, (x * nb) as int);
    assert((x * nb) * wi == (x * wi) * nb) by (nonlinear_arith);
    assert((q * no) * wi == (q * wi) * no) by (nonlinear_arith);
    lemma_mul_is_distributive_add_other_way(nb as int, na as int, (x * wi) as int);
    lemma_mul_is_distributive_add_other_way(no as int, quotient as int, (q * wi) as int);
}

/// Subtracts `order` once if `r` is not below it.
fn reduce_once<const N: usize>(r: [u64; N], order: [u64; N]) -> (s: [u64; N])
    ensures
        limbs::limbs_nat(r@) < limbs::limbs_nat(order@) ==> s == r,
        limbs::limbs_nat(r@) >= limbs::limbs_nat(order@) ==> limbs::limbs_nat(s@)
            == limbs::limbs_nat(r@) - limbs::limbs_nat(order@),
{
    match cmp_limbs(r, order) {
        Ordering::Less => r,
        _ => {
            let (difference, borrow) = sub_limbs(r, order);
            proof {
                limbs::lemma_no_borrow(r@, order@, difference@, borrow);
            }
            difference
        },
    }
}

/// Montgomery multiplication: the result is below `order`, and the result times 2^(64 N) is
/// congruent to `a * b` modulo `order`.
pub(crate) fn montgomery_product<const N: usize, const M: usize>(
    a: [u64; N],
    b: [u64; N],
    order: [u64; N],
    mu: u64,
    zeros: [u64; M],
) -> (r: [u64; N])
    requires
        M == N + 1,
        0 < N <= 64,
        forall|k: int| 0 <= k < M ==> zeros[k] == 0,
        limbs::limbs_nat(b@) < limbs::limbs_nat(order@),
        2 * limbs::limbs_nat(order@) <= limbs::weight(N as nat),
        (mu as nat * order[0] as nat + 1) % 0x1_0000_0000_0000_0000 == 0,
    ensures
        limbs::limbs_nat(r@) < limbs::limbs_nat(order@),
        (limbs::limbs_nat(r@) * limbs::weight(N as nat)) % limbs::limbs_nat(order@) == (
        limbs::limbs_nat(a@) * limbs::limbs_nat(b@)) % limbs::limbs_nat(order@),
{
    let unreduced = montgomery_rounds(a, b, order, mu, zeros);
    let r = reduce_once(unreduced, order);
    proof {
        let no = limbs::limbs_nat(order@) as int;
        let w = limbs::weight(N as nat) as int;
        let x = limbs::limbs_nat(unreduced@) as int;
        if x >= no {
            lemma_mul_is_distributive_sub_other_way(w, x, no);
            lemma_mul_is_commutative(no, w);
            congruence::lemma_add_multiple((x - no) * w, w, no);
        }
    }
    r
}

/// The number that Montgomery form `n` stands for: `n` divided by the radix, whose inverse is
/// `r_inverse`, modulo `m`.
#[verifier::opaque]
pub open spec fn decode(n: nat, r_inverse: nat, m: nat) -> nat {
    (n * r_inverse) % m
}

/// A Montgomery product stands for the product.
pub(crate) proof fn lemma_decode_mul(x: nat, y: nat, z: nat, r: nat, ri: nat, m: nat)
    requires
        m > 1,
        (r * ri) % m == 1,
        (z * r) % m == (x * y) % m,
    ensures
        decode(z, ri, m) == (decode(x, ri, m) * decode(y, ri, m)) % m,
{
    reveal(decode);
    let n = m as int;
    // (x ri) (y ri) = (x y) (ri ri) = (z r) (ri ri) = (z ri) (r ri) = z ri
    lemma_mul_mod_noop((x * ri) as int, (y * ri) as int, n);
    assert((x * ri) * (y * ri) == (x * y) * (ri * ri)) by (nonlinear_arith);
    congruence::lemma_congruent_mul(
        (x * y) as int,
        (z * r) as int,
        (ri * ri) as int,
        (ri * ri) as int,
        n,
    );
    assert((z * r) * (ri * ri) == (z * ri) * (r * ri)) by (nonlinear_arith);
    lemma_small_mod(1, m);
    congruence::lemma_congruent_mul((z * ri) as int, (z * ri) as int, (r * ri) as int, 1, n);
}

/// Addition commutes with decoding.
pub(crate) proof fn lemma_decode_add(x: nat, y: nat, z: nat, ri: nat, m: nat)
    requires
        m > 1,
        z % m == (x + y) % m,
    ensures
        decode(z, ri, m) == (decode(x, ri, m) + decode(y, ri, m)) % m,
{
    reveal(decode);
    let n = m as int;
    congruence::lemma_congruent_mul(z as int, (x + y) as int, ri as int, ri as int, n);
    lemma_mul_is_distributive_add_other_way(ri as int, x as int, y as int);
    lemma_add_mod_noop((x * ri) as int, (y * ri) as int, n);
}

/// Subtraction commutes with decoding.
pub(crate) proof fn lemma_decode_sub(x: nat, y: nat, z: nat, ri: nat, m: nat)
    requires
        m > 1,
        z as int % m as int == (x - y) % (m as int),
    ensures
        decode(z, ri, m) == (decode(x, ri, m) - decode(y, ri, m)) % (m as int),
{
    reveal(decode);
    let n = m as int;
    congruence::lemma_congruent_mul(z as int, x - y, ri as int, ri as int, n);
    lemma_mul_is_distributive_sub_other_way(ri as int, x as int, y as int);
    lemma_sub_mod_noop((x * ri) as int, (y * ri) as int, n);
}

/// Multiplying by the radix undoes decoding.
pub(crate) proof fn lemma_decode_times_radix(x: nat, r: nat, ri: nat, m: nat)
    requires
        m > 1,
        (r * ri) % m == 1,
    ensures
        (decode(x, ri, m) * r) % m == x % m,
{
    reveal(decode);
    let n = m as int;
    lemma_mul_mod_noop_left((x * ri) as int, r as int, n);
    assert((x * ri) * r == x * (r * ri)) by (nonlinear_arith);
    lemma_small_mod(1, m);
    congruence::lemma_congruent_mul(x as int, x as int, (r * ri) as int, 1, n);
}

/// Reduced Montgomery forms that stand for the same number are the same.
pub(crate) proof fn lemma_decode_injective(x: nat, y: nat, r: nat, ri: nat, m: nat)
    requires
        m > 1,
        (r * ri) % m == 1,
        x < m,
        y < m,
        decode(x, ri, m) == decode(y, ri, m),
    ensures
        x == y,
{
    lemma_decode_times_radix(x, r, ri, m);
    lemma_decode_times_radix(y, r, ri, m);
    congruence::lemma_small_residues(x as int, y as int, m as int);
}

/// Montgomery multiplication by 1 decodes.
pub(crate) proof fn lemma_decoded(x: nat, z: nat, r: nat, ri: nat, m: nat)
    requires
        m > 1,
        (r * ri) % m == 1,
        z < m,
        (z * r) % m == x % m,
    ensures
        z == decode(x, ri, m),
{
    reveal(decode);
    let n = m as int;
    lemma_decode_times_radix(x, r, ri, m);
    lemma_mod_bound((x * ri) as int, n);
    congruence::lemma_congruent_cancel(z as int, decode(x, ri, m) as int, r as int, ri as int, n);
    congruence::lemma_small_residues(z as int, decode(x, ri, m) as int, n);
}

/// The radix times a number stands for that number.
pub(crate) proof fn lemma_decode_encoded(c: nat, z: nat, r: nat, ri: nat, m: nat)
    requires
        m > 1,
        (r * ri) % m == 1,
        z % m == (c * r) % m,
    ensures
        decode(z, ri, m) == c % m,
{
    reveal(decode);
    let n = m as int;
    congruence::lemma_congruent_mul(z as int, (c * r) as int, ri as int, ri as int, n);
    lemma_mul_is_associative(c as int, r as int, ri as int);
    lemma_small_mod(1, m);
    congruence::lemma_congruent_mul(c as int, c as int, (r * ri) as int, 1, n);
}

/// A Montgomery product with the square of the radix encodes.
pub(crate) proof fn lemma_encoded(c: nat, z: nat, r2: nat, r: nat, ri: nat, m: nat)
    requires
        m > 1,
        (r * ri) % m == 1,
        r2 % m == (r * r) % m,
        (z * r) % m == (c * r2) % m,
    ensures
        z % m == (c * r) % m,
{
    let n = m as int;
    congruence::lemma_congruent_mul(c as int, c as int, r2 as int, (r * r) as int, n);
    lemma_mul_is_associative(c as int, r as int, r as int);
    congruence::lemma_congruent_cancel(z as int, (c * r) as int, r as int, ri as int, n);
}

/// If `b` is the inverse of the Montgomery form `a`, the Montgomery product `x` of `b` and the
/// cube of the radix stands for the inverse of what `a` stands for.
pub(crate) proof fn lemma_inverse_of_form(
    a: nat,
    b: nat,
    x: nat,
    r3: nat,
    r: nat,
    ri: nat,
    m: nat,
)
    requires
        m > 1,
        (r * ri) % m == 1,
        (b * a) % m == 1,
        r3 == (r * r * r) % m,
        (x * r) % m == (b * r3) % m,
    ensures
        (decode(a, ri, m) * decode(x, ri, m)) % m == 1,
{
    reveal(decode);
    let n = m as int;
    // x r = b r^3, so x = b r^2, so (a ri) (x ri) = (b a) (r ri)^2 = 1
    lemma_mod_twice((r * r * r) as int, n);
    congruence::lemma_congruent_mul(b as int, b as int, r3 as int, (r * r * r) as int, n);
    assert(b * (r * r * r) == (b * (r * r)) * r) by (nonlinear_arith);
    congruence::lemma_congruent_cancel(x as int, (b * (r * r)) as int, r as int, ri as int, n);
    lemma_mul_mod_noop((a * ri) as int, (x * ri) as int, n);
    assert((a * ri) * (x * ri) == x * (a * (ri * ri))) by (nonlinear_arith);
    let k = a * (ri * ri);
    congruence::lemma_congruent_mul(x as int, (b * (r * r)) as int, k as int, k as int, n);
    assert((b * (r * r)) * (a * (ri * ri)) == (b * a) * ((r * ri) * (r * ri))) by (nonlinear_arith);
    lemma_small_mod(1, m);
    congruence::lemma_congruent_mul((r * ri) as int, 1, (r * ri) as int, 1, n);
    congruence::lemma_congruent_mul(
        (b * a) as int,
        1,
        ((r * ri) * (r * ri)) as int,
        1,
        n,
    );
}

} // verus!
